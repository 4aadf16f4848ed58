//! A device opened by address, whatever backend serves it.

use crate::address::{address_of, Address, AddressModel, Backends};
use crate::control::{Control, ControlModel, Value};
use crate::error::Error;
use crate::stream::{picked, Descriptor, DescriptorModel, ImageStream};
use crate::traits::{preferred, reads, started, writes, Device as DeviceTrait};
use vstd::prelude::*;

verus! {

/// A device of any backend behind the one interface. It owns the backend's
/// handle and hands every call on to it unchanged.
pub struct Device<D> {
    inner: D,
}

/// What opening the device at `address` comes to, once the backend has
/// answered with `answer`: the device where it was opened; where it was
/// not, the backend's own error for a device node, and for a USB device
/// plainly that the backend failed.
pub open spec fn opening<D>(address: AddressModel, answer: Result<D, Error>) -> Result<D, Error> {
    match answer {
        Ok(handle) => Ok(handle),
        Err(e) => Err(
            if address is Uvc {
                Error::Backend
            } else {
                e
            },
        ),
    }
}

/// `r` wraps the outcome `outcome` of an opening: the device over the
/// handle, or the same error.
pub open spec fn came_of<D: DeviceTrait>(r: Result<Device<D>, Error>, outcome: Result<D, Error>) -> bool {
    match outcome {
        Ok(handle) => r matches Ok(device) && device.backend() == handle,
        Err(e) => r matches Err(x) && x == e,
    }
}

impl<D: DeviceTrait> Device<D> {
    /// The backend's handle.
    pub closed spec fn backend(&self) -> D {
        self.inner
    }

    /// Wraps what the backend answered when it was asked to open the device
    /// at `address`.
    pub fn opened(address: &Address, answer: Result<D, Error>) -> (r: Result<Self, Error>)
        ensures
            came_of(r, opening(address@, answer)),
    {
        match answer {
            Ok(inner) => Ok(Device { inner }),
            Err(e) => match address {
                Address::Uvc { .. } => Err(Error::Backend),
                Address::V4l { .. } => Err(e),
            },
        }
    }

    /// Opens the device that `uri` names.
    ///
    /// The text is read as an address with the given backends built in.
    /// Where it is none, that is the error, and nothing is opened. Where it
    /// is one, `open` is asked once to open the device there, and what it
    /// answers decides the rest.
    pub fn with_uri<O>(uri: &str, backends: Backends, open: O) -> (r: Result<Self, Error>) where
        O: FnOnce(Address) -> Result<D, Error>,

        requires
            forall|address: Address|
                address_of(uri@, backends) == Ok::<AddressModel, Error>(address@)
                    ==> call_requires(open, (address,)),
        ensures
            address_of(uri@, backends) matches Err(e) ==> r matches Err(x) && x == e,
            address_of(uri@, backends) matches Ok(model) ==> exists|
                address: Address,
                answer: Result<D, Error>,
            |
                address@ == model && #[trigger] call_ensures(open, (address,), answer) && came_of(
                    r,
                    opening(model, answer),
                ),
    {
        match Address::parse(uri, backends) {
            Err(e) => Err(e),
            Ok(address) => {
                let target = address.clone();
                let answer = open(address);
                let r = Device::opened(&target, answer);
                assert(call_ensures(open, (address,), answer));
                r
            },
        }
    }
}

impl<D: DeviceTrait> DeviceTrait for Device<D> {
    type Frames = D::Frames;

    open spec fn inv(&self) -> bool {
        self.backend().inv()
    }

    open spec fn streams(&self) -> Seq<DescriptorModel> {
        self.backend().streams()
    }

    open spec fn controls(&self) -> Seq<ControlModel> {
        self.backend().controls()
    }

    open spec fn values(&self) -> Map<u32, Value> {
        self.backend().values()
    }

    open spec fn stored(&self, id: u32, value: Value) -> Value {
        self.backend().stored(id, value)
    }

    open spec fn enumerates(&self, answer: Result<Vec<Descriptor>, Error>) -> bool {
        self.backend().enumerates(answer)
    }

    open spec fn sets(&self, id: u32, value: Value, r: Result<(), Error>, after: &Self) -> bool {
        self.backend().sets(id, value, r, &after.backend())
    }

    fn query_streams(&self) -> (r: Result<Vec<Descriptor>, Error>)
        ensures
            call_ensures(D::query_streams, (&self.backend(),), r),
    {
        self.inner.query_streams()
    }

    fn query_controls(&self) -> (r: Result<Vec<Control>, Error>)
        ensures
            call_ensures(D::query_controls, (&self.backend(),), r),
    {
        self.inner.query_controls()
    }

    fn control(&self, id: u32) -> (r: Result<Value, Error>)
        ensures
            call_ensures(D::control, (&self.backend(), id), r),
            reads(self.backend(), id, r),
    {
        self.inner.control(id)
    }

    fn set_control(&mut self, id: u32, value: &Value) -> (r: Result<(), Error>)
        ensures
            writes(old(self).backend(), id, *value, r, final(self).backend()),
    {
        self.inner.set_control(id, value)
    }

    fn preferred_stream<F>(&self, f: F) -> (r: Result<Descriptor, Error>) where
        F: Fn(Descriptor, Descriptor) -> Descriptor,

        ensures
            r matches Ok(best) ==> preferred(self.backend(), f, best),
    {
        let r = self.inner.preferred_stream(f);
        proof {
            let answer = choose|answer: Result<Vec<Descriptor>, Error>| #[trigger]
                self.backend().enumerates(answer) && picked(f, answer, r);
            assert(self.enumerates(answer) && picked(f, answer, r));
        }
        r
    }

    fn start_stream(&self, desc: &Descriptor) -> (r: Result<ImageStream<D::Frames>, Error>)
        ensures
            call_ensures(D::start_stream, (&self.backend(), desc), r),
            r matches Ok(stream) ==> started(self.backend(), desc@, stream),
    {
        self.inner.start_stream(desc)
    }
}

} // verus!

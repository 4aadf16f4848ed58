//! What every backend provides: a device that is asked and set, and a
//! stream that is pulled.

use crate::control::{declares, Control, ControlModel, Value};
use crate::error::Error;
use crate::stream::{
    folds_to, models, picked, prefer, Descriptor, DescriptorModel, ImageStream,
};
use vstd::prelude::*;

verus! {

/// A source that is pulled one item at a time.
///
/// A pull may block until the backend has an item. Once a pull gives
/// `None` the stream is exhausted, and stays so.
///
/// A stream is known through three predicates on its states. A verified
/// stream states its own and proves `next` against them. The bodies given
/// here let a backend that talks to hardware implement the trait by `next`
/// alone; what is proved of such a backend rests on its keeping the
/// promises of `next`.
pub trait Stream {
    /// What a pull gives.
    type Item;

    /// The stream is in a state in which it may be pulled.
    open spec fn inv(&self) -> bool {
        true
    }

    /// The stream has ended: it gives nothing any more.
    open spec fn exhausted(&self) -> bool {
        arbitrary()
    }

    /// In this state a pull may give `item` and leave the stream as `after`.
    open spec fn yields(&self, item: Option<Self::Item>, after: &Self) -> bool {
        true
    }

    /// Pulls the next item; `None` once the stream has ended.
    fn next(&mut self) -> (item: Option<Self::Item>)
        requires
            old(self).inv(),
        ensures
            final(self).inv(),
            old(self).yields(item, final(self)),
            old(self).exhausted() ==> item is None,
            item is None ==> final(self).exhausted(),
    ;
}

/// One pull, as [`Stream::next`] promises it: from `before` it gave `item`
/// and left `after`.
pub open spec fn pulled<S: Stream>(before: S, item: Option<S::Item>, after: S) -> bool {
    &&& before.inv()
    &&& after.inv()
    &&& before.yields(item, &after)
    &&& before.exhausted() ==> item is None
    &&& item is None ==> after.exhausted()
}

/// Pulls `stream` once. Whatever the stream, the pull is one that
/// [`pulled`] describes.
pub fn pull<S: Stream>(stream: &mut S) -> (item: Option<S::Item>)
    requires
        old(stream).inv(),
    ensures
        pulled(*old(stream), item, *final(stream)),
{
    stream.next()
}

/// A run of pulls on one stream: `states[k]` gave `items[k]` and left
/// `states[k + 1]`.
pub open spec fn run<S: Stream>(states: Seq<S>, items: Seq<Option<S::Item>>) -> bool {
    &&& states.len() == items.len() + 1
    &&& forall|k: int| 0 <= k < items.len() ==> pulled(states[k], #[trigger] items[k], states[k + 1])
}

/// Once a stream has given `None`, every later pull gives `None` too.
pub proof fn lemma_exhausted_for_good<S: Stream>(
    states: Seq<S>,
    items: Seq<Option<S::Item>>,
    i: int,
    j: int,
)
    requires
        run(states, items),
        0 <= i <= j < items.len(),
        items[i] is None,
    ensures
        items[j] is None,
        states[j + 1].exhausted(),
    decreases j - i,
{
    if i < j {
        lemma_exhausted_for_good(states, items, i, j - 1);
        assert(pulled(states[j], items[j], states[j + 1]));
    } else {
        assert(pulled(states[i], items[i], states[i + 1]));
    }
}

/// A capture device, whatever its backend.
///
/// The device is known through a model: the streams and controls it
/// declares, the value each control holds, and what a write leaves in a
/// control. Every operation talks to the hardware and may fail on that
/// account with the backend's error, so none promises to succeed by
/// itself. Which answers a query of the modes may have, and which outcomes
/// a write, the backend says in `enumerates` and `sets`: there it states
/// when it succeeds.
///
/// A verified backend states its own model and proves its methods against
/// it. The bodies given here let a backend that talks to hardware
/// implement the trait by its methods alone; what is proved of such a
/// backend rests on its keeping the promises of the methods.
pub trait Device: Sized {
    /// The source of frames behind the streams this device starts.
    type Frames: Stream;

    /// The device is in a state in which it may be used.
    open spec fn inv(&self) -> bool {
        true
    }

    /// Every mode the device offers at present.
    open spec fn streams(&self) -> Seq<DescriptorModel> {
        arbitrary()
    }

    /// The controls the device declares, in the backend's order.
    open spec fn controls(&self) -> Seq<ControlModel> {
        arbitrary()
    }

    /// The value each control holds, by the control's number.
    open spec fn values(&self) -> Map<u32, Value> {
        arbitrary()
    }

    /// What the control `id` holds after `value` was written to it: `value`
    /// itself where the backend takes it unchanged.
    open spec fn stored(&self, id: u32, value: Value) -> Value {
        value
    }

    /// In this state a query of the modes may be answered with `answer`:
    /// the list of modes, or the backend's error.
    open spec fn enumerates(&self, answer: Result<Vec<Descriptor>, Error>) -> bool {
        true
    }

    /// In this state a write of `value` to the control `id` may give `r`
    /// and leave the device as `after`.
    open spec fn sets(&self, id: u32, value: Value, r: Result<(), Error>, after: &Self) -> bool {
        true
    }

    /// Enumerates the modes the device offers. Nothing changes.
    fn query_streams(&self) -> (r: Result<Vec<Descriptor>, Error>)
        requires
            self.inv(),
        ensures
            self.enumerates(r),
            r matches Ok(list) ==> models(list@) == self.streams(),
    ;

    /// Enumerates the controls, in an order that stays the same from call
    /// to call.
    fn query_controls(&self) -> (r: Result<Vec<Control>, Error>)
        requires
            self.inv(),
        ensures
            r matches Ok(list) ==> models(list@) == self.controls(),
    ;

    /// Reads what the control `id` holds. Fails where the device has no
    /// such control.
    fn control(&self, id: u32) -> (r: Result<Value, Error>)
        requires
            self.inv(),
        ensures
            r matches Ok(value) ==> self.values().contains_key(id) && self.values()[id] == value,
    ;

    /// Writes `value` to the control `id`, at once. Fails where the device
    /// has no such control or the control does not admit the value.
    fn set_control(&mut self, id: u32, value: &Value) -> (r: Result<(), Error>)
        requires
            old(self).inv(),
        ensures
            old(self).sets(id, *value, r, final(self)),
            final(self).inv(),
            final(self).streams() == old(self).streams(),
            final(self).controls() == old(self).controls(),
            r is Ok ==> declares(old(self).controls(), id, *value),
            r is Ok ==> final(self).values() == old(self).values().insert(
                id,
                old(self).stored(id, *value),
            ),
    ;

    /// Picks one of the modes the device offers: the modes are queried
    /// once, and the answer is folded from the left through the preference
    /// `f`. Where the query fails, its error comes back; where it gives no
    /// mode, there is none to pick.
    fn preferred_stream<F>(&self, f: F) -> (r: Result<Descriptor, Error>) where
        F: Fn(Descriptor, Descriptor) -> Descriptor,

        requires
            self.inv(),
            forall|a: Descriptor, b: Descriptor| call_requires(f, (a, b)),
        ensures
            exists|answer: Result<Vec<Descriptor>, Error>| #[trigger]
                self.enumerates(answer) && picked(f, answer, r),
            r matches Ok(best) ==> exists|list: Seq<Descriptor>|
                models(list) == self.streams() && #[trigger] folds_to(f, list, best),
            self.streams().len() == 0 ==> r is Err,
    {
        let answer = self.query_streams();
        let ghost asked = answer;
        let r = match answer {
            Ok(list) => {
                assert(models(list@).len() == list@.len());
                prefer(list, f)
            },
            Err(e) => Err(e),
        };
        assert(self.enumerates(asked) && picked(f, asked, r));
        r
    }

    /// Starts capturing in the mode `desc`. Fails where `desc` is none of
    /// the modes the device offers.
    fn start_stream(&self, desc: &Descriptor) -> (r: Result<ImageStream<Self::Frames>, Error>)
        requires
            self.inv(),
        ensures
            r matches Ok(stream) ==> self.streams().contains(desc@),
            r matches Ok(stream) ==> stream.source().inv(),
            r matches Ok(stream) ==> stream.format()@.width == desc.width,
            r matches Ok(stream) ==> stream.format()@.height == desc.height,
            r matches Ok(stream) ==> stream.format()@.pixfmt == desc.pixfmt@,
    ;
}

/// A read of the control `id` that gave `r`, as [`Device::control`]
/// promises it: a value that came back is what the control holds.
pub open spec fn reads<D: Device>(device: D, id: u32, r: Result<Value, Error>) -> bool {
    r matches Ok(value) ==> device.values().contains_key(id) && device.values()[id] == value
}

/// A write of `value` to the control `id` that gave `r` and left `after`,
/// as [`Device::set_control`] promises it: what the device declares stays,
/// and a write that took place was of a value the control admits and left
/// in the control what the device stores for it.
pub open spec fn writes<D: Device>(
    before: D,
    id: u32,
    value: Value,
    r: Result<(), Error>,
    after: D,
) -> bool {
    &&& after.inv()
    &&& after.streams() == before.streams()
    &&& after.controls() == before.controls()
    &&& r is Ok ==> {
        &&& declares(before.controls(), id, value)
        &&& after.values() == before.values().insert(id, before.stored(id, value))
    }
}

/// `best` may come of folding the modes `device` offers through `f`.
pub open spec fn preferred<D: Device, F: Fn(Descriptor, Descriptor) -> Descriptor>(
    device: D,
    f: F,
    best: Descriptor,
) -> bool {
    exists|list: Seq<Descriptor>| models(list) == device.streams() && #[trigger] folds_to(f, list, best)
}

/// `stream` was started on `device` in the mode `desc`: the device offers
/// the mode, and the stream can be pulled and gives frames of that size
/// and encoding.
pub open spec fn started<D: Device>(
    device: D,
    desc: DescriptorModel,
    stream: ImageStream<D::Frames>,
) -> bool {
    &&& device.streams().contains(desc)
    &&& stream.source().inv()
    &&& stream.format()@.width == desc.width
    &&& stream.format()@.height == desc.height
    &&& stream.format()@.pixfmt == desc.pixfmt
}

/// A value that was written is the value then read, where the device
/// stores it unchanged.
pub proof fn lemma_control_reads_back<D: Device>(
    before: D,
    id: u32,
    value: Value,
    after: D,
    read: Result<Value, Error>,
)
    requires
        writes(before, id, value, Ok(()), after),
        before.stored(id, value) == value,
        reads(after, id, read),
        read is Ok,
    ensures
        read == Ok::<Value, Error>(value),
{
}

/// A device that offers no mode has no preferred one, and the preferred
/// one of a device that offers a single mode is that mode.
pub proof fn lemma_preferred_of_few<D: Device, F: Fn(Descriptor, Descriptor) -> Descriptor>(
    device: D,
    f: F,
    best: Descriptor,
)
    requires
        preferred(device, f, best),
    ensures
        device.streams().len() > 0,
        device.streams().len() == 1 ==> best@ == device.streams()[0],
{
    let list = choose|list: Seq<Descriptor>|
        models(list) == device.streams() && #[trigger] folds_to(f, list, best);
    assert(models(list).len() == list.len());
    if list.len() == 1 {
        assert(models(list)[0] == list[0]@);
    }
}

} // verus!

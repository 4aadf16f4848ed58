use eye_hal::address::{Address, Backends};
use eye_hal::control::{Control, Kind, Value};
use eye_hal::device::Device;
use eye_hal::error::Error;
use eye_hal::format::pix::Uncompressed;
use eye_hal::format::{ImageFormat, PixelFormat};
use eye_hal::image::{CowImage, Pixels};
use eye_hal::stream::{Descriptor, Frame, ImageStream, Interval};
use eye_hal::traits::{Device as DeviceTrait, Stream};
use std::cell::RefCell;

const ALL: Backends = Backends { v4l: true, uvc: true };

/// Gives a fixed number of one-byte frames, then nothing.
struct Counting {
    left: u8,
}

impl Stream for Counting {
    type Item = Frame<'static>;

    fn next(&mut self) -> Option<Frame<'static>> {
        if self.left == 0 {
            return None;
        }
        self.left -= 1;
        let format = ImageFormat::new(1, 1, PixelFormat::Uncompressed(Uncompressed::Gray(8)));
        Some(Ok(CowImage::new(Pixels::Owned(vec![self.left]), format)))
    }
}

/// A backend that lives in memory.
struct Bench {
    opened_at: String,
    modes: Vec<Descriptor>,
    controls: Vec<Control>,
    values: Vec<(u32, Value)>,
    broken: bool,
}

fn mode(width: u32, height: u32) -> Descriptor {
    Descriptor {
        width,
        height,
        pixfmt: PixelFormat::Uncompressed(Uncompressed::Gray(8)),
        intervals: vec![Interval { numerator: 1, denominator: 30 }],
    }
}

impl Bench {
    fn new(opened_at: &str) -> Bench {
        Bench {
            opened_at: String::from(opened_at),
            modes: vec![mode(640, 480), mode(1280, 720), mode(320, 240)],
            controls: vec![
                Control { id: 1, name: String::from("gain"), kind: Kind::Integer { min: 0, max: 100 } },
                Control { id: 2, name: String::from("auto"), kind: Kind::Boolean },
                Control { id: 7, name: String::from("scene"), kind: Kind::Menu { entries: 4 } },
            ],
            values: vec![
                (1, Value::Integer(50)),
                (2, Value::Boolean(true)),
                (7, Value::Menu(0)),
            ],
            broken: false,
        }
    }
}

impl DeviceTrait for Bench {
    type Frames = Counting;

    fn query_streams(&self) -> Result<Vec<Descriptor>, Error> {
        if self.broken {
            return Err(Error::Backend);
        }
        Ok(self.modes.clone())
    }

    fn query_controls(&self) -> Result<Vec<Control>, Error> {
        if self.broken {
            return Err(Error::Backend);
        }
        Ok(self.controls.clone())
    }

    fn control(&self, id: u32) -> Result<Value, Error> {
        if self.broken {
            return Err(Error::Backend);
        }
        match self.values.iter().find(|(known, _)| *known == id) {
            Some((_, value)) => Ok(*value),
            None => Err(Error::InvalidInput),
        }
    }

    fn set_control(&mut self, id: u32, value: &Value) -> Result<(), Error> {
        if self.broken {
            return Err(Error::Backend);
        }
        let control = match self.controls.iter().find(|c| c.id == id) {
            Some(control) => control,
            None => return Err(Error::InvalidInput),
        };
        if !control.accepts(value) {
            return Err(Error::Unsupported);
        }
        for slot in self.values.iter_mut() {
            if slot.0 == id {
                slot.1 = *value;
            }
        }
        Ok(())
    }

    fn start_stream(&self, desc: &Descriptor) -> Result<ImageStream<Counting>, Error> {
        let offered = self
            .modes
            .iter()
            .any(|m| m.width == desc.width && m.height == desc.height && m.pixfmt == desc.pixfmt);
        if self.broken || !offered {
            return Err(Error::Unsupported);
        }
        let format = ImageFormat::new(desc.width, desc.height, desc.pixfmt.clone());
        Ok(ImageStream::new(Counting { left: 3 }, format))
    }
}

fn place(address: &Address) -> String {
    match address {
        Address::V4l { path } => format!("node {}", path),
        Address::Uvc { bus, address } => format!("usb {} {}", bus, address),
    }
}

fn open(uri: &str) -> Result<Device<Bench>, Error> {
    Device::with_uri(uri, ALL, |address: Address| Ok(Bench::new(&place(&address))))
}

#[test]
fn with_uri_hands_the_usb_address_to_the_backend() {
    let seen = RefCell::new(Vec::new());
    let device = Device::with_uri("uvc://4:12", ALL, |address: Address| {
        seen.borrow_mut().push(place(&address));
        Ok(Bench::new(&place(&address)))
    });
    assert!(device.is_ok());
    assert_eq!(*seen.borrow(), vec![String::from("usb 4 12")]);
}

#[test]
fn with_uri_hands_the_node_path_to_the_backend() {
    let seen = RefCell::new(Vec::new());
    let device = Device::with_uri("v4l:///dev/video0", ALL, |address: Address| {
        seen.borrow_mut().push(place(&address));
        Ok(Bench::new(&place(&address)))
    });
    assert!(device.is_ok());
    assert_eq!(*seen.borrow(), vec![String::from("node /dev/video0")]);
}

#[test]
fn with_uri_fails_on_a_missing_field_without_asking_the_backend() {
    let asked = RefCell::new(0);
    let r: Result<Device<Bench>, Error> = Device::with_uri("uvc://4", ALL, |address: Address| {
        *asked.borrow_mut() += 1;
        Ok(Bench::new(&place(&address)))
    });
    assert_eq!(r.err(), Some(Error::InvalidInput));
    assert_eq!(*asked.borrow(), 0);
}

#[test]
fn with_uri_fails_on_a_field_that_is_no_number() {
    assert_eq!(open("uvc://x:12").err(), Some(Error::InvalidInput));
    assert_eq!(open("uvc://4:256").err(), Some(Error::InvalidInput));
}

#[test]
fn with_uri_fails_on_an_unknown_scheme() {
    let asked = RefCell::new(0);
    let r: Result<Device<Bench>, Error> = Device::with_uri("foo://bar", ALL, |address: Address| {
        *asked.borrow_mut() += 1;
        Ok(Bench::new(&place(&address)))
    });
    assert_eq!(r.err(), Some(Error::NoBackend));
    assert_eq!(*asked.borrow(), 0);
}

#[test]
fn with_uri_fails_on_a_backend_that_is_left_out() {
    let only_v4l = Backends { v4l: true, uvc: false };
    let r: Result<Device<Bench>, Error> =
        Device::with_uri("uvc://4:12", only_v4l, |address: Address| Ok(Bench::new(&place(&address))));
    assert_eq!(r.err(), Some(Error::NoBackend));
    let only_uvc = Backends { v4l: false, uvc: true };
    let r: Result<Device<Bench>, Error> =
        Device::with_uri("v4l:///dev/video0", only_uvc, |address: Address| {
            Ok(Bench::new(&place(&address)))
        });
    assert_eq!(r.err(), Some(Error::NoBackend));
}

#[test]
fn with_uri_passes_on_the_error_of_a_device_node() {
    for e in [Error::Backend, Error::Unsupported, Error::InvalidInput, Error::NoBackend] {
        let r: Result<Device<Bench>, Error> =
            Device::with_uri("v4l:///dev/video9", ALL, |_address: Address| Err(e));
        assert_eq!(r.err(), Some(e));
    }
}

#[test]
fn with_uri_reports_a_usb_device_that_cannot_be_opened_as_a_backend_failure() {
    for e in [Error::Backend, Error::Unsupported, Error::InvalidInput, Error::NoBackend] {
        let r: Result<Device<Bench>, Error> =
            Device::with_uri("uvc://1:2", ALL, |_address: Address| Err(e));
        assert_eq!(r.err(), Some(Error::Backend));
    }
}

#[test]
fn opened_wraps_what_the_backend_answered() {
    let node = Address::V4l { path: String::from("/dev/video0") };
    let usb = Address::Uvc { bus: 1, address: 2 };
    assert!(Device::opened(&node, Ok(Bench::new("a"))).is_ok());
    assert!(Device::opened(&usb, Ok(Bench::new("b"))).is_ok());
    assert_eq!(
        Device::<Bench>::opened(&node, Err(Error::Unsupported)).err(),
        Some(Error::Unsupported)
    );
    assert_eq!(
        Device::<Bench>::opened(&usb, Err(Error::Unsupported)).err(),
        Some(Error::Backend)
    );
}

#[test]
fn device_hands_queries_on_to_its_backend() {
    let device = open("v4l:///dev/video0").unwrap();
    let modes = device.query_streams().unwrap();
    let sizes: Vec<(u32, u32)> = modes.iter().map(|m| (m.width, m.height)).collect();
    assert_eq!(sizes, vec![(640, 480), (1280, 720), (320, 240)]);
    let controls = device.query_controls().unwrap();
    let ids: Vec<u32> = controls.iter().map(|c| c.id).collect();
    assert_eq!(ids, vec![1, 2, 7]);
    let again: Vec<u32> = device.query_controls().unwrap().iter().map(|c| c.id).collect();
    assert_eq!(again, ids);
}

#[test]
fn control_that_was_set_is_read_back() {
    let mut device = open("uvc://4:12").unwrap();
    assert_eq!(device.control(1), Ok(Value::Integer(50)));
    assert_eq!(device.set_control(1, &Value::Integer(77)), Ok(()));
    assert_eq!(device.control(1), Ok(Value::Integer(77)));
    assert_eq!(device.set_control(2, &Value::Boolean(false)), Ok(()));
    assert_eq!(device.control(2), Ok(Value::Boolean(false)));
    assert_eq!(device.set_control(7, &Value::Menu(3)), Ok(()));
    assert_eq!(device.control(7), Ok(Value::Menu(3)));
    assert_eq!(device.control(1), Ok(Value::Integer(77)));
}

#[test]
fn control_that_the_device_lacks_cannot_be_read_or_set() {
    let mut device = open("uvc://4:12").unwrap();
    assert!(device.control(3).is_err());
    assert!(device.set_control(3, &Value::Integer(1)).is_err());
}

#[test]
fn value_of_another_kind_or_out_of_range_is_refused_and_nothing_changes() {
    let mut device = open("uvc://4:12").unwrap();
    assert!(device.set_control(1, &Value::Boolean(true)).is_err());
    assert!(device.set_control(1, &Value::Integer(101)).is_err());
    assert!(device.set_control(2, &Value::Integer(1)).is_err());
    assert!(device.set_control(7, &Value::Menu(4)).is_err());
    assert_eq!(device.control(1), Ok(Value::Integer(50)));
    assert_eq!(device.control(2), Ok(Value::Boolean(true)));
    assert_eq!(device.control(7), Ok(Value::Menu(0)));
}

#[test]
fn preferred_stream_folds_the_modes_of_the_device() {
    let device = open("v4l:///dev/video0").unwrap();
    let widest = device
        .preferred_stream(|a: Descriptor, b: Descriptor| if b.width > a.width { b } else { a })
        .unwrap();
    assert_eq!((widest.width, widest.height), (1280, 720));
    let first = device.preferred_stream(|a: Descriptor, _b: Descriptor| a).unwrap();
    assert_eq!((first.width, first.height), (640, 480));
    let last = device.preferred_stream(|_a: Descriptor, b: Descriptor| b).unwrap();
    assert_eq!((last.width, last.height), (320, 240));
}

#[test]
fn preferred_stream_of_a_device_without_modes_fails() {
    let device: Device<Bench> = Device::with_uri("v4l:///dev/video0", ALL, |address: Address| {
        let mut bench = Bench::new(&place(&address));
        bench.modes.clear();
        Ok(bench)
    })
    .unwrap();
    let r = device.preferred_stream(|a: Descriptor, _b: Descriptor| a);
    assert_eq!(r.err(), Some(Error::NoStreams));
}

#[test]
fn preferred_stream_of_a_device_with_one_mode_is_that_mode() {
    let device: Device<Bench> = Device::with_uri("v4l:///dev/video0", ALL, |address: Address| {
        let mut bench = Bench::new(&place(&address));
        bench.modes.truncate(1);
        Ok(bench)
    })
    .unwrap();
    let r = device.preferred_stream(|_a: Descriptor, _b: Descriptor| mode(0, 0)).unwrap();
    assert_eq!((r.width, r.height), (640, 480));
}

#[test]
fn preferred_stream_passes_on_the_error_of_the_backend() {
    let device: Device<Bench> = Device::with_uri("v4l:///dev/video0", ALL, |address: Address| {
        let mut bench = Bench::new(&place(&address));
        bench.broken = true;
        Ok(bench)
    })
    .unwrap();
    let r = device.preferred_stream(|a: Descriptor, _b: Descriptor| a);
    assert_eq!(r.err(), Some(Error::Backend));
    assert_eq!(device.query_streams().err(), Some(Error::Backend));
    assert_eq!(device.query_controls().err(), Some(Error::Backend));
    assert_eq!(device.control(1).err(), Some(Error::Backend));
}

#[test]
fn started_stream_has_the_format_of_its_mode_and_ends_for_good() {
    let device = open("v4l:///dev/video0").unwrap();
    let mut stream = device.start_stream(&mode(1280, 720)).unwrap();
    assert_eq!(stream.format().width, 1280);
    assert_eq!(stream.format().height, 720);
    assert_eq!(
        stream.format().pixfmt,
        PixelFormat::Uncompressed(Uncompressed::Gray(8))
    );
    let mut frames = Vec::new();
    while let Some(frame) = stream.next() {
        frames.push(frame.unwrap().as_bytes().to_vec());
    }
    assert_eq!(frames, vec![vec![2u8], vec![1], vec![0]]);
    assert!(stream.next().is_none());
    assert!(stream.next().is_none());
}

#[test]
fn stream_of_a_mode_the_device_lacks_is_not_started() {
    let device = open("v4l:///dev/video0").unwrap();
    assert!(device.start_stream(&mode(1, 1)).is_err());
}

#[test]
fn streams_of_one_device_run_side_by_side() {
    let device = open("v4l:///dev/video0").unwrap();
    let mut first = device.start_stream(&mode(640, 480)).unwrap();
    assert!(first.next().is_some());
    let mut second = device.start_stream(&mode(320, 240)).unwrap();
    assert!(second.next().is_some());
    assert!(first.next().is_some());
    assert_eq!(first.format().width, 640);
    assert_eq!(second.format().width, 320);
}

#[test]
fn backend_keeps_where_it_was_opened() {
    let seen = RefCell::new(String::new());
    let _device: Device<Bench> = Device::with_uri("uvc://+7:008:junk", ALL, |address: Address| {
        let bench = Bench::new(&place(&address));
        *seen.borrow_mut() = bench.opened_at.clone();
        Ok(bench)
    })
    .unwrap();
    assert_eq!(*seen.borrow(), "usb 7 8");
}

//! Device addresses: `scheme://payload`, where the scheme names the backend
//! and the payload is read as that backend reads it.

use crate::error::Error;
use vstd::prelude::*;

verus! {

/// The scheme of the Video for Linux backend.
pub const V4L_SCHEME: [char; 6] = ['v', '4', 'l', ':', '/', '/'];

/// The scheme of the USB video backend.
pub const UVC_SCHEME: [char; 6] = ['u', 'v', 'c', ':', '/', '/'];

/// The backends that are built in.
#[derive(Clone, Copy, Debug, PartialEq, Eq, Structural)]
pub struct Backends {
    /// Video for Linux.
    pub v4l: bool,
    /// USB video.
    pub uvc: bool,
}

/// Where a device is found, as its backend wants it.
#[derive(Debug)]
pub enum Address {
    /// A Video for Linux device node, by the path that follows the scheme.
    V4l { path: String },
    /// A USB video device, by bus number and device address.
    Uvc { bus: u8, address: u8 },
}

/// The mathematical value of an [`Address`].
pub enum AddressModel {
    V4l { path: Seq<char> },
    Uvc { bus: u8, address: u8 },
}

impl View for Address {
    type V = AddressModel;

    open spec fn view(&self) -> AddressModel {
        match *self {
            Address::V4l { path } => AddressModel::V4l { path: path@ },
            Address::Uvc { bus, address } => AddressModel::Uvc { bus, address },
        }
    }
}

/// The number of characters before the first colon of `text`, or all of
/// them where it has none.
pub open spec fn field_len(text: Seq<char>) -> nat
    decreases text.len(),
{
    if text.len() == 0 || text[0] == ':' {
        0
    } else {
        1 + field_len(text.drop_first())
    }
}

/// `c` is one of `0` to `9`.
pub open spec fn is_digit(c: char) -> bool {
    '0' <= c <= '9'
}

/// The number that a run of digits writes in base ten.
pub open spec fn value_of(digits: Seq<char>) -> nat
    decreases digits.len(),
{
    if digits.len() == 0 {
        0
    } else {
        (value_of(digits.drop_last()) * 10 + (digits.last() as nat - '0' as nat)) as nat
    }
}

/// Every character of `text` is a digit.
pub open spec fn all_digits(text: Seq<char>) -> bool {
    forall|i: int| 0 <= i < text.len() ==> is_digit(#[trigger] text[i])
}

/// A field without the `+` it may begin with.
pub open spec fn unsigned(field: Seq<char>) -> Seq<char> {
    if field.len() > 0 && field[0] == '+' {
        field.drop_first()
    } else {
        field
    }
}

/// The number a field writes, where it fits eight bits: an optional `+`,
/// then at least one digit and nothing but digits.
pub open spec fn small_number(field: Seq<char>) -> Option<u8> {
    let digits = unsigned(field);
    if digits.len() > 0 && all_digits(digits) && value_of(digits) <= 255 {
        Some(value_of(digits) as u8)
    } else {
        None
    }
}

/// The USB address a payload writes: two fields parted by a colon, each a
/// small number. What follows a second colon is not read.
pub open spec fn usb_address(payload: Seq<char>) -> Result<AddressModel, Error> {
    let first = field_len(payload);
    if first == payload.len() {
        Err(Error::InvalidInput)
    } else {
        let rest = payload.skip(first as int + 1);
        match (small_number(payload.take(first as int)), small_number(rest.take(field_len(rest) as int))) {
            (Some(bus), Some(address)) => Ok(AddressModel::Uvc { bus, address }),
            _ => Err(Error::InvalidInput),
        }
    }
}

/// The address a text writes, with the given backends built in. The
/// backends are tried in a fixed order, Video for Linux first; a scheme
/// that none of them owns, or whose backend is not built in, finds no
/// backend whatever the payload.
pub open spec fn address_of(uri: Seq<char>, backends: Backends) -> Result<AddressModel, Error> {
    if backends.v4l && V4L_SCHEME@.is_prefix_of(uri) {
        Ok(AddressModel::V4l { path: uri.skip(6) })
    } else if backends.uvc && UVC_SCHEME@.is_prefix_of(uri) {
        usb_address(uri.skip(6))
    } else {
        Err(Error::NoBackend)
    }
}

/// No text begins with the schemes of two backends, so the order in which
/// the backends are tried never shows in the address.
pub proof fn lemma_schemes_apart(uri: Seq<char>)
    ensures
        !(V4L_SCHEME@.is_prefix_of(uri) && UVC_SCHEME@.is_prefix_of(uri)),
{
    if V4L_SCHEME@.is_prefix_of(uri) && UVC_SCHEME@.is_prefix_of(uri) {
        assert(uri.subrange(0, 6)[0] == V4L_SCHEME@[0]);
        assert(uri.subrange(0, 6)[0] == UVC_SCHEME@[0]);
    }
}

proof fn lemma_field_len_step(text: Seq<char>, at: int)
    requires
        0 <= at <= text.len(),
    ensures
        at < text.len() && text[at] != ':' ==> field_len(text.skip(at)) == 1 + field_len(
            text.skip(at + 1),
        ),
        at == text.len() || text[at] == ':' ==> field_len(text.skip(at)) == 0,
{
    if at < text.len() {
        assert(text.skip(at).drop_first() =~= text.skip(at + 1));
    }
}

proof fn lemma_value_grows(digits: Seq<char>, n: int)
    requires
        0 <= n <= digits.len(),
        all_digits(digits),
    ensures
        value_of(digits.take(n)) <= value_of(digits),
    decreases digits.len() - n,
{
    if n < digits.len() {
        lemma_value_grows(digits, n + 1);
        assert(digits.take(n + 1).drop_last() =~= digits.take(n));
    } else {
        assert(digits.take(n) =~= digits);
    }
}

/// The characters of a text, in order.
fn chars_of(text: &str) -> (chars: Vec<char>)
    ensures
        chars@ == text@,
{
    let mut chars: Vec<char> = Vec::new();
    for c in it: text.chars()
        invariant
            it.seq() == text@,
            chars@ == text@.take(it.index() as int),
    {
        chars.push(c);
        assert(chars@ =~= text@.take(it.index() + 1));
    }
    assert(text@.take(text@.len() as int) =~= text@);
    chars
}

/// The text made of `chars[from..]`.
fn text_from(chars: &Vec<char>, from: usize) -> (text: String)
    requires
        from <= chars.len(),
    ensures
        text@ == chars@.skip(from as int),
{
    let mut text = String::new();
    let mut i: usize = from;
    while i < chars.len()
        invariant
            from <= i <= chars.len(),
            text@ == chars@.subrange(from as int, i as int),
        decreases chars.len() - i,
    {
        text.push(chars[i]);
        i += 1;
        assert(text@ =~= chars@.subrange(from as int, i as int));
    }
    assert(chars@.subrange(from as int, i as int) =~= chars@.skip(from as int));
    text
}

/// Whether `chars` begins with `scheme`.
fn has_scheme(chars: &Vec<char>, scheme: &[char; 6]) -> (r: bool)
    ensures
        r == scheme@.is_prefix_of(chars@),
{
    if chars.len() < 6 {
        return false;
    }
    let mut i: usize = 0;
    while i < 6
        invariant
            i <= 6,
            chars.len() >= 6,
            forall|k: int| 0 <= k < i ==> chars@[k] == scheme@[k],
        decreases 6 - i,
    {
        if chars[i] != scheme[i] {
            assert(chars@.subrange(0, 6)[i as int] != scheme@[i as int]);
            return false;
        }
        i += 1;
    }
    assert(scheme@ =~= chars@.subrange(0, 6));
    true
}

/// The end of the field that begins at `from`: the place of the next
/// colon, or the end of `chars`.
fn field_end(chars: &Vec<char>, from: usize) -> (end: usize)
    requires
        from <= chars.len(),
    ensures
        from <= end <= chars.len(),
        end - from == field_len(chars@.skip(from as int)),
{
    let mut end: usize = from;
    loop
        invariant
            from <= end <= chars.len(),
            field_len(chars@.skip(from as int)) == (end - from) + field_len(
                chars@.skip(end as int),
            ),
        decreases chars.len() - end,
    {
        proof {
            lemma_field_len_step(chars@, end as int);
        }
        if end == chars.len() || chars[end] == ':' {
            return end;
        }
        end += 1;
    }
}

/// Reads `chars[from..to]` as a small number.
fn number_in(chars: &Vec<char>, from: usize, to: usize) -> (r: Option<u8>)
    requires
        from <= to <= chars.len(),
    ensures
        r == small_number(chars@.subrange(from as int, to as int)),
{
    let ghost field = chars@.subrange(from as int, to as int);
    let start: usize = if from < to && chars[from] == '+' {
        from + 1
    } else {
        from
    };
    let ghost digits = unsigned(field);
    assert(digits =~= chars@.subrange(start as int, to as int));
    if start == to {
        return None;
    }
    let mut value: u32 = 0;
    let mut i: usize = start;
    while i < to
        invariant
            start <= i <= to <= chars.len(),
            field == chars@.subrange(from as int, to as int),
            digits == unsigned(field),
            digits == chars@.subrange(start as int, to as int),
            all_digits(digits.take(i - start)),
            value == value_of(digits.take(i - start)),
            value <= 255,
        decreases to - i,
    {
        let c = chars[i];
        if c < '0' || c > '9' {
            assert(!is_digit(digits[i - start]));
            return None;
        }
        let digit: u32 = c as u32 - '0' as u32;
        value = value * 10 + digit;
        i += 1;
        assert(digits.take(i - start).drop_last() =~= digits.take(i - start - 1));
        assert(digits.take(i - start).last() == c);
        if value > 255 {
            proof {
                if all_digits(digits) {
                    lemma_value_grows(digits, i - start);
                }
            }
            return None;
        }
    }
    assert(digits.take(i - start) =~= digits);
    Some(value as u8)
}

impl Clone for Address {
    fn clone(&self) -> (r: Address)
        ensures
            r == *self,
    {
        match self {
            Address::V4l { path } => Address::V4l { path: path.clone() },
            Address::Uvc { bus, address } => Address::Uvc { bus: *bus, address: *address },
        }
    }
}

impl Address {
    /// Reads an address. A text whose scheme belongs to a backend that is
    /// built in is read as that backend reads it, and is malformed where
    /// the backend cannot read it; any other text finds no backend.
    pub fn parse(uri: &str, backends: Backends) -> (r: Result<Address, Error>)
        ensures
            (match r {
                Ok(address) => address_of(uri@, backends) == Ok::<AddressModel, Error>(address@),
                Err(e) => address_of(uri@, backends) == Err::<AddressModel, Error>(e),
            }),
    {
        let chars = chars_of(uri);
        if backends.v4l && has_scheme(&chars, &V4L_SCHEME) {
            Ok(Address::V4l { path: text_from(&chars, 6) })
        } else if backends.uvc && has_scheme(&chars, &UVC_SCHEME) {
            let ghost payload = chars@.skip(6);
            let first = field_end(&chars, 6);
            if first == chars.len() {
                return Err(Error::InvalidInput);
            }
            let second = field_end(&chars, first + 1);
            proof {
                let rest = payload.skip(first - 6 + 1);
                assert(rest =~= chars@.skip(first + 1));
                assert(payload.take(first - 6) =~= chars@.subrange(6, first as int));
                assert(rest.take(second - first - 1) =~= chars@.subrange(
                    first + 1,
                    second as int,
                ));
            }
            match (number_in(&chars, 6, first), number_in(&chars, first + 1, second)) {
                (Some(bus), Some(address)) => Ok(Address::Uvc { bus, address }),
                _ => Err(Error::InvalidInput),
            }
        } else {
            Err(Error::NoBackend)
        }
    }
}

} // verus!

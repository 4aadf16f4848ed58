//! Text built and read character by character.

use vstd::prelude::*;
use vstd::string::StringSliceAdditionalSpecFns;
use vstd::utf8::valid_utf8;

verus! {

/// std's error for bytes that are not UTF-8; nothing is read from it.
#[verifier::external_type_specification]
#[verifier::external_body]
pub struct ExUtf8Error(core::str::Utf8Error);

/// `String::push` appends the character to the end of the string.
pub assume_specification[ String::push ](s: &mut String, c: char)
    ensures
        final(s)@ == old(s)@.push(c),
;

/// `core::str::from_utf8` succeeds exactly on well-formed UTF-8, and the
/// string slice it gives is made of the very bytes it was given.
pub assume_specification[ core::str::from_utf8 ](bytes: &[u8]) -> (r: Result<
    &str,
    core::str::Utf8Error,
>)
    ensures
        r is Ok <==> valid_utf8(bytes@),
        r matches Ok(s) ==> s.spec_bytes() == bytes@,
;

/// The digit that writes `d`.
pub open spec fn digit(d: nat) -> char
    recommends
        d < 10,
{
    ('0' as nat + d) as char
}

/// A number written in base ten, without leading zeros.
pub open spec fn decimal(n: nat) -> Seq<char>
    decreases n,
{
    if n < 10 {
        seq![digit(n)]
    } else {
        decimal(n / 10).push(digit(n % 10))
    }
}

/// Appends `n`, written in base ten, to `text`.
pub fn push_decimal(text: &mut String, n: usize)
    ensures
        final(text)@ == old(text)@ + decimal(n as nat),
    decreases n,
{
    if n >= 10 {
        push_decimal(text, n / 10);
    }
    let last: u8 = (n % 10) as u8;
    text.push((0x30 + last) as char);
    assert(text@ =~= old(text)@ + decimal(n as nat));
}

} // verus!

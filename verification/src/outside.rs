//! Calls into other crates and into the parts of std that carry no
//! specification. Every claim in this file is taken on trust.

use rand::RngCore;
use vstd::prelude::*;
use vstd::utf8::*;

use crate::numerals::{all_digits, hex_bytes, is_digit};

verus! {

// ---------------------------------------------------------------------------
// std
// ---------------------------------------------------------------------------

/// `String::push` of std: the character is added behind the last one.
pub assume_specification[ String::push ](s: &mut String, c: char)
    ensures
        final(s)@ == old(s)@.push(c),
;

/// What `String::from_utf8_lossy` of std makes of a sequence of bytes.
pub uninterp spec fn utf8_lossy(bytes: Seq<u8>) -> Seq<char>;

/// `String::from_utf8_lossy` of std: the text depends on the bytes alone, and
/// is what they encode where they are valid UTF-8. How invalid bytes are
/// replaced is left to the name.
#[verifier::external_body]
pub(crate) fn decode_lossy(bytes: &[u8]) -> (r: String)
    ensures
        r@ == utf8_lossy(bytes@),
        valid_utf8(bytes@) ==> r@ == decode_utf8(bytes@),
{
    String::from_utf8_lossy(bytes).into_owned()
}

// ---------------------------------------------------------------------------
// rand
// ---------------------------------------------------------------------------

/// Whether bytes, taken together, are what the random generator has drawn in
/// one call. A draw can come out as any bytes whatever, and so the body says
/// no more than that. It is closed: outside this file nothing follows from it,
/// and nothing but a call of the generator shows it. It cannot be shown there
/// of bytes that were drawn in part only, or in several calls.
pub closed spec fn is_draw(bytes: Seq<u8>) -> bool {
    true
}

/// `RngCore::fill_bytes` on `rand::thread_rng()`: the whole buffer is
/// overwritten by one draw and keeps its length. The new bytes rest on chance,
/// so nothing is claimed of their values. The system is taken to have a source
/// of randomness.
#[verifier::external_body]
pub(crate) fn fill_random(buf: &mut [u8])
    ensures
        final(buf)@.len() == old(buf)@.len(),
        is_draw(final(buf)@),
{
    rand::thread_rng().fill_bytes(buf);
}

// ---------------------------------------------------------------------------
// blake3
// ---------------------------------------------------------------------------

/// The incremental hasher of `blake3`, opaque but for the names below.
#[verifier::external_type_specification]
#[verifier::external_body]
pub struct ExHasher(blake3::Hasher);

/// The bytes that a hasher has taken in.
pub uninterp spec fn hashed_input(hasher: blake3::Hasher) -> Seq<u8>;

/// Whether a hasher computes the plain, unkeyed hash from the first byte on.
pub uninterp spec fn is_plain(hasher: blake3::Hasher) -> bool;

/// The 32 bytes of the BLAKE3 hash of an input.
pub uninterp spec fn blake3_digest(input: Seq<u8>) -> Seq<u8>;

/// `blake3::Hasher::new`: a plain hasher that has taken in nothing.
#[verifier::external_body]
pub(crate) fn hasher_new() -> (r: blake3::Hasher)
    ensures
        is_plain(r),
        hashed_input(r) == Seq::<u8>::empty(),
{
    blake3::Hasher::new()
}

/// `blake3::Hasher::update`: the bytes are taken in behind the ones before.
/// The hasher counts its input in 64 bits.
#[verifier::external_body]
pub(crate) fn hasher_update(hasher: &mut blake3::Hasher, bytes: &[u8])
    requires
        is_plain(*old(hasher)),
        hashed_input(*old(hasher)).len() + bytes@.len() <= u64::MAX,
    ensures
        is_plain(*final(hasher)),
        hashed_input(*final(hasher)) == hashed_input(*old(hasher)) + bytes@,
{
    hasher.update(bytes);
}

/// `blake3::Hasher::finalize`: the digest of all bytes taken in, however they
/// were split. A hasher that does not start at the first byte is refused.
#[verifier::external_body]
pub(crate) fn hasher_finalize(hasher: &blake3::Hasher) -> (r: [u8; 32])
    requires
        is_plain(*hasher),
    ensures
        r@ == blake3_digest(hashed_input(*hasher)),
{
    *hasher.finalize().as_bytes()
}

/// `blake3::Hash::to_hex`: two lower-case hexadecimal digits for each byte.
#[verifier::external_body]
pub(crate) fn digest_hex(digest: &[u8; 32]) -> (r: String)
    ensures
        r@ == hex_bytes(digest@),
{
    blake3::Hash::from_bytes(*digest).to_hex().to_string()
}

// ---------------------------------------------------------------------------
// chrono
// ---------------------------------------------------------------------------

/// The shape of a time in UTC, to the second: a year of four digits, or a plus
/// sign and more digits than four, and behind it month, day, hour, minute and
/// second with two digits each, as in `2025-04-12T14:23:01Z`.
pub open spec fn is_utc_time(s: Seq<char>) -> bool {
    let year = s.take(s.len() - 16);
    &&& s.len() >= 20
    &&& if year.len() == 4 {
        all_digits(year)
    } else {
        year.len() >= 6 && year[0] == '+' && all_digits(year.skip(1))
    }
    &&& forall|i: int|
        s.len() - 16 <= i < s.len() ==> {
            let place = i - (s.len() - 16);
            if place == 0 || place == 3 {
                #[trigger] s[i] == '-'
            } else if place == 6 {
                s[i] == 'T'
            } else if place == 9 || place == 12 {
                s[i] == ':'
            } else if place == 15 {
                s[i] == 'Z'
            } else {
                is_digit(s[i])
            }
        }
}

/// `chrono::Utc::now` and `DateTime::to_rfc3339_opts`: the current time in
/// UTC, to the second, closed by `Z`. Which time it is rests on the clock,
/// which is taken to stand behind the start of 1970.
#[verifier::external_body]
pub(crate) fn utc_now() -> (r: String)
    ensures
        is_utc_time(r@),
{
    chrono::Utc::now().to_rfc3339_opts(chrono::SecondsFormat::Secs, true)
}

// ---------------------------------------------------------------------------
// uuid
// ---------------------------------------------------------------------------

/// Whether a character is a lower-case hexadecimal digit.
pub open spec fn is_lower_hex(c: char) -> bool {
    48 <= c as u32 <= 57 || 97 <= c as u32 <= 102
}

/// The shape of a random UUID in its hyphenated form: groups of 8, 4, 4, 4 and
/// 12 digits; the third begins with the version, 4, and the fourth with the
/// variant, one of 8, 9, a and b.
pub open spec fn is_random_uuid(s: Seq<char>) -> bool {
    &&& s.len() == 36
    &&& forall|i: int|
        0 <= i < 36 ==> if i == 8 || i == 13 || i == 18 || i == 23 {
            #[trigger] s[i] == '-'
        } else {
            is_lower_hex(s[i])
        }
    &&& s[14] == '4'
    &&& s[19] == '8' || s[19] == '9' || s[19] == 'a' || s[19] == 'b'
}

/// `uuid::Uuid::new_v4` and its `Display`: a random UUID in lower case. Which
/// one it is rests on chance. The system is taken to have a source of
/// randomness.
#[verifier::external_body]
pub(crate) fn random_uuid() -> (r: String)
    ensures
        is_random_uuid(r@),
{
    uuid::Uuid::new_v4().to_string()
}

} // verus!

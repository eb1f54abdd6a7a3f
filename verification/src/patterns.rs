//! Overwrite patterns and the pass lists of the overwrite algorithms.

use vstd::prelude::*;
use vstd::string::StringExecFns;

use crate::numerals::{hex_literal, hex_literal_text};
use crate::outside::{fill_random, is_draw};
use crate::text::concat2;

verus! {

/// A single overwrite pass.
#[derive(Debug, Clone, Copy, PartialEq, Eq, Structural)]
pub enum PassPattern {
    /// Fill with one byte.
    Constant(u8),
    /// Fill with random bytes of the thread's generator.
    CryptographicRandom,
    /// Fill with two bytes in turn.
    Alternating(u8, u8),
}

impl PassPattern {
    /// The byte that the pattern puts at position `i`; random bytes have none
    /// that could be foretold.
    pub open spec fn byte_at(self, i: int) -> Option<u8> {
        match self {
            PassPattern::Constant(b) => Some(b),
            PassPattern::CryptographicRandom => None,
            PassPattern::Alternating(a, b) => Some(
                if i % 2 == 0 {
                    a
                } else {
                    b
                },
            ),
        }
    }

    /// The name of the pattern in progress labels.
    pub open spec fn text(self) -> Seq<char> {
        match self {
            PassPattern::Constant(b) => hex_literal(b),
            PassPattern::CryptographicRandom => "CSPRNG Random"@,
            PassPattern::Alternating(a, b) => "Alt "@ + hex_literal(a) + "/"@ + hex_literal(b),
        }
    }

    /// Fills a buffer with the pattern. A random fill is one draw of the
    /// buffer's full length; which bytes it holds rests on chance.
    pub fn fill_buffer(&self, buf: &mut [u8])
        ensures
            final(buf)@.len() == old(buf)@.len(),
            forall|i: int|
                #![trigger final(buf)@[i]]
                0 <= i < final(buf)@.len() && self.byte_at(i) is Some ==> Some(final(buf)@[i])
                    == self.byte_at(i),
            *self is CryptographicRandom ==> is_draw(final(buf)@),
            *self matches PassPattern::Constant(b) ==> forall|i: int|
                0 <= i < final(buf)@.len() ==> #[trigger] final(buf)@[i] == b,
            *self matches PassPattern::Alternating(a, b) ==> forall|i: int|
                0 <= i < final(buf)@.len() ==> #[trigger] final(buf)@[i] == if i % 2 == 0 {
                    a
                } else {
                    b
                },
    {
        match *self {
            PassPattern::Constant(byte) => fill_alternating(buf, byte, byte),
            PassPattern::CryptographicRandom => fill_random(buf),
            PassPattern::Alternating(a, b) => fill_alternating(buf, a, b),
        }
    }

    /// The name of the pattern in progress labels.
    pub fn description(&self) -> (r: String)
        ensures
            r@ == self.text(),
    {
        match *self {
            PassPattern::Constant(b) => hex_literal_text(b),
            PassPattern::CryptographicRandom => "CSPRNG Random".to_owned(),
            PassPattern::Alternating(a, b) => {
                let mut out = concat2("Alt ", hex_literal_text(a).as_str());
                out.append("/");
                out.append(hex_literal_text(b).as_str());
                out
            },
        }
    }
}

/// Fills a buffer with `even` at even and `odd` at odd positions.
fn fill_alternating(buf: &mut [u8], even: u8, odd: u8)
    ensures
        final(buf)@ == Seq::new(
            old(buf)@.len(),
            |i: int|
                if i % 2 == 0 {
                    even
                } else {
                    odd
                },
        ),
{
    let n: usize = buf.len();
    let mut i: usize = 0;
    while i < n
        invariant
            i <= n,
            n == buf@.len(),
            n == old(buf)@.len(),
            forall|j: int|
                0 <= j < i ==> buf@[j] == if j % 2 == 0 {
                    even
                } else {
                    odd
                },
        decreases n - i,
    {
        buf[i] = if i % 2 == 0 {
            even
        } else {
            odd
        };
        i = i + 1;
    }
}

/// A constant pattern puts its byte everywhere. An alternating one puts its
/// first byte at the even and its second at the odd positions. Of a random one
/// no byte can be foretold.
pub proof fn law_pattern_bytes(pattern: PassPattern, b: u8, c: u8, i: int)
    ensures
        pattern == PassPattern::Constant(b) ==> pattern.byte_at(i) == Some(b),
        pattern == PassPattern::Alternating(b, c) ==> pattern.byte_at(2 * i) == Some(b)
            && pattern.byte_at(2 * i + 1) == Some(c),
        pattern is CryptographicRandom <==> pattern.byte_at(i) is None,
{
}

/// The passes of DoD 5220.22-M ECE.
pub open spec fn dod_passes() -> Seq<PassPattern> {
    seq![
        PassPattern::Constant(0x00),
        PassPattern::Constant(0xFF),
        PassPattern::CryptographicRandom,
        PassPattern::Constant(0x00),
        PassPattern::Constant(0xFF),
        PassPattern::CryptographicRandom,
        PassPattern::Constant(0xAA),
    ]
}

/// The pass of NIST SP 800-88 Rev.1 Clear.
pub open spec fn clear_passes() -> Seq<PassPattern> {
    seq![PassPattern::Constant(0x00)]
}

/// The pass of a random overwrite.
pub open spec fn random_passes() -> Seq<PassPattern> {
    seq![PassPattern::CryptographicRandom]
}

/// Four random passes, as they open and close the Gutmann list.
pub open spec fn four_random() -> Seq<PassPattern> {
    Seq::new(4, |i: int| PassPattern::CryptographicRandom)
}

/// The three alternating passes against (2,7) RLL encoding.
pub open spec fn rll_triple() -> Seq<PassPattern> {
    seq![
        PassPattern::Alternating(0x92, 0x49),
        PassPattern::Alternating(0x49, 0x24),
        PassPattern::Alternating(0x24, 0x92),
    ]
}

/// The sixteen passes `0x00`, `0x11` up to `0xFF`.
pub open spec fn nibble_ramp() -> Seq<PassPattern> {
    Seq::new(16, |i: int| PassPattern::Constant((17 * i) as u8))
}

/// The passes of the Gutmann method.
pub open spec fn gutmann_passes() -> Seq<PassPattern> {
    four_random() + seq![PassPattern::Constant(0x55), PassPattern::Constant(0xAA)] + rll_triple()
        + nibble_ramp() + rll_triple() + seq![
        PassPattern::Alternating(0x6D, 0xB6),
        PassPattern::Alternating(0xB6, 0xDB),
        PassPattern::Alternating(0xDB, 0x6D),
    ] + four_random()
}

/// DoD 5220.22-M ECE: seven passes, the last of which is a marker.
pub fn dod_5220_22m_ece_passes() -> (r: Vec<PassPattern>)
    ensures
        r@ == dod_passes(),
{
    vec![
        PassPattern::Constant(0x00),
        PassPattern::Constant(0xFF),
        PassPattern::CryptographicRandom,
        PassPattern::Constant(0x00),
        PassPattern::Constant(0xFF),
        PassPattern::CryptographicRandom,
        PassPattern::Constant(0xAA),
    ]
}

/// NIST SP 800-88 Rev.1 Clear: one pass of zeros.
pub fn nist_clear_passes() -> (r: Vec<PassPattern>)
    ensures
        r@ == clear_passes(),
{
    vec![PassPattern::Constant(0x00)]
}

/// One pass of random bytes.
pub fn random_single_passes() -> (r: Vec<PassPattern>)
    ensures
        r@ == random_passes(),
{
    vec![PassPattern::CryptographicRandom]
}

/// Gutmann: thirty-five passes, random in the first and the last four.
pub fn gutmann_35_passes() -> (r: Vec<PassPattern>)
    ensures
        r@ == gutmann_passes(),
{
    vec![
        // Passes 1-4: random
        PassPattern::CryptographicRandom,
        PassPattern::CryptographicRandom,
        PassPattern::CryptographicRandom,
        PassPattern::CryptographicRandom,
        // Passes 5-31: MFM/RLL patterns
        PassPattern::Constant(0x55),
        PassPattern::Constant(0xAA),
        PassPattern::Alternating(0x92, 0x49),
        PassPattern::Alternating(0x49, 0x24),
        PassPattern::Alternating(0x24, 0x92),
        PassPattern::Constant(0x00),
        PassPattern::Constant(0x11),
        PassPattern::Constant(0x22),
        PassPattern::Constant(0x33),
        PassPattern::Constant(0x44),
        PassPattern::Constant(0x55),
        PassPattern::Constant(0x66),
        PassPattern::Constant(0x77),
        PassPattern::Constant(0x88),
        PassPattern::Constant(0x99),
        PassPattern::Constant(0xAA),
        PassPattern::Constant(0xBB),
        PassPattern::Constant(0xCC),
        PassPattern::Constant(0xDD),
        PassPattern::Constant(0xEE),
        PassPattern::Constant(0xFF),
        PassPattern::Alternating(0x92, 0x49),
        PassPattern::Alternating(0x49, 0x24),
        PassPattern::Alternating(0x24, 0x92),
        PassPattern::Alternating(0x6D, 0xB6),
        PassPattern::Alternating(0xB6, 0xDB),
        PassPattern::Alternating(0xDB, 0x6D),
        // Passes 32-35: random
        PassPattern::CryptographicRandom,
        PassPattern::CryptographicRandom,
        PassPattern::CryptographicRandom,
        PassPattern::CryptographicRandom,
    ]
}

/// The Gutmann list has thirty-five passes; exactly the first four and the
/// last four of them are random.
pub proof fn law_gutmann_is_bookended_by_random(i: int)
    requires
        0 <= i < gutmann_passes().len(),
    ensures
        gutmann_passes().len() == 35,
        gutmann_passes()[i] is CryptographicRandom <==> i < 4 || 31 <= i,
{
}

/// What the passes of the Gutmann list leave at the positions `2 * i` and
/// `2 * i + 1`, by the number of the pass. Passes 5 and 6 leave `0x55` and
/// `0xAA`. Passes 7 to 9, and 26 to 28 again, leave the three pairs against
/// (2,7) RLL encoding. Passes 10 to 25 leave `0x00`, `0x11` up to `0xFF`. Passes
/// 29 to 31 leave the complements of passes 7 to 9. Of the others nothing can
/// be foretold.
pub proof fn law_gutmann_pass_by_pass(number: int, i: int)
    requires
        1 <= number <= 35,
    ensures
        gutmann_passes().len() == 35,
        ({
            let even = gutmann_passes()[number - 1].byte_at(2 * i);
            let odd = gutmann_passes()[number - 1].byte_at(2 * i + 1);
            &&& number <= 4 || 32 <= number ==> even is None && odd is None
            &&& number == 5 ==> even == Some(0x55u8) && odd == Some(0x55u8)
            &&& number == 6 ==> even == Some(0xAAu8) && odd == Some(0xAAu8)
            &&& number == 7 || number == 26 ==> even == Some(0x92u8) && odd == Some(0x49u8)
            &&& number == 8 || number == 27 ==> even == Some(0x49u8) && odd == Some(0x24u8)
            &&& number == 9 || number == 28 ==> even == Some(0x24u8) && odd == Some(0x92u8)
            &&& 10 <= number <= 25 ==> even == Some((0x11 * (number - 10)) as u8) && odd == even
            &&& 29 <= number <= 31 ==> {
                let earlier = gutmann_passes()[number - 23];
                &&& even is Some && odd is Some
                &&& earlier.byte_at(2 * i) is Some && earlier.byte_at(2 * i + 1) is Some
                &&& even->0 + earlier.byte_at(2 * i)->0 == 0xFF
                &&& odd->0 + earlier.byte_at(2 * i + 1)->0 == 0xFF
            }
        }),
{
}

/// What the passes of DoD 5220.22-M ECE leave at every position: zeros, ones
/// and random bytes, twice over, and the marker `0xAA` at last. The Clear pass
/// leaves zeros, and of the random pass nothing can be foretold.
pub proof fn law_dod_pass_by_pass(number: int, i: int)
    requires
        1 <= number <= 7,
    ensures
        dod_passes().len() == 7,
        dod_passes()[number - 1].byte_at(i) == if number == 7 {
            Some(0xAAu8)
        } else if number % 3 == 1 {
            Some(0x00u8)
        } else if number % 3 == 2 {
            Some(0xFFu8)
        } else {
            None
        },
        clear_passes().len() == 1,
        clear_passes()[0].byte_at(i) == Some(0x00u8),
        random_passes().len() == 1,
        random_passes()[0].byte_at(i) is None,
{
}

} // verus!

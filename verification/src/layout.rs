//! Fixed-width cells for the reports.

use vstd::prelude::*;
use vstd::utf8::*;

use crate::text::chars_of;

verus! {

/// Whether the first `limit` bytes of a text end at the end of a character.
pub open spec fn can_clip(s: Seq<char>, limit: nat) -> bool {
    encode_utf8(s).len() <= limit || is_char_boundary(encode_utf8(s), limit as int)
}

/// The text in the first `limit` bytes, or all of it where it is no longer.
pub open spec fn clipped(s: Seq<char>, limit: nat) -> Seq<char> {
    if encode_utf8(s).len() <= limit {
        s
    } else {
        decode_utf8(encode_utf8(s).take(limit as int))
    }
}

/// Whether `clip` can cut the text at this limit.
pub fn clip_fits(s: &str, limit: usize) -> (r: bool)
    ensures
        r == can_clip(s@, limit as nat),
{
    s.as_bytes().len() <= limit || s.is_char_boundary(limit)
}

/// The text in the first `limit` bytes, or all of it where it is no longer.
pub fn clip(s: &str, limit: usize) -> (r: String)
    requires
        can_clip(s@, limit as nat),
    ensures
        r@ == clipped(s@, limit as nat),
{
    if s.as_bytes().len() <= limit {
        s.to_owned()
    } else {
        let (head, tail) = s.split_at(limit);
        proof {
            encode_utf8_decode_utf8(head@);
        }
        head.to_owned()
    }
}

/// `n` blanks.
pub open spec fn blanks(n: int) -> Seq<char> {
    Seq::new(
        if n > 0 {
            n as nat
        } else {
            0
        },
        |i: int| ' ',
    )
}

/// A text with blanks behind it, `width` characters wide at least.
pub open spec fn padded(s: Seq<char>, width: nat) -> Seq<char> {
    s + blanks(width - s.len())
}

/// A text with blanks behind it, `width` characters wide at least.
pub fn pad(s: &str, width: usize) -> (r: String)
    ensures
        r@ == padded(s@, width as nat),
{
    let mut out = s.to_owned();
    let chars = chars_of(s);
    let mut n: usize = chars.len();
    proof {
        assert(s@ + blanks(0) =~= s@);
    }
    while n < width
        invariant
            s@.len() <= n,
            n <= width || n == s@.len(),
            out@ == s@ + blanks(n - s@.len()),
        decreases width - n,
    {
        out.push(' ');
        proof {
            assert(blanks(n - s@.len()).push(' ') =~= blanks(n + 1 - s@.len()));
            assert((s@ + blanks(n - s@.len())).push(' ') =~= s@ + blanks(n - s@.len()).push(' '));
        }
        n = n + 1;
    }
    proof {
        assert(blanks(n - s@.len()) =~= blanks(width - s@.len()));
    }
    out
}

/// A padded text is the text with blanks behind it: as wide as asked for, or as
/// wide as the text where that is wider.
pub proof fn law_padding_adds_blanks_behind(s: Seq<char>, width: nat, i: int)
    ensures
        padded(s, width).len() == if s.len() < width {
            width
        } else {
            s.len()
        },
        0 <= i < s.len() ==> padded(s, width)[i] == s[i],
        s.len() <= i < width ==> padded(s, width)[i] == ' ',
{
}

/// A clipped text is the beginning of the text, as many bytes long as asked for
/// where the text is longer, and the text itself where it is not.
pub proof fn law_clipping_keeps_the_beginning(s: Seq<char>, limit: nat)
    requires
        can_clip(s, limit),
    ensures
        encode_utf8(s).len() <= limit ==> clipped(s, limit) == s,
        encode_utf8(s).len() > limit ==> encode_utf8(clipped(s, limit)) == encode_utf8(s).take(
            limit as int,
        ),
{
    if encode_utf8(s).len() > limit {
        let bytes = encode_utf8(s);
        encode_utf8_valid_utf8(s);
        valid_utf8_split(bytes, limit as int);
        decode_utf8_encode_utf8(bytes.take(limit as int));
    }
}

} // verus!

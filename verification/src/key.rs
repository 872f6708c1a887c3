//! Reading the text of a key out of a zero-terminated buffer, and the
//! length of a text as the native runtime counts it.
//!
//! A buffer shows a text only up to its first zero byte. Whether the text
//! ends there is told by its length in UTF-16 code units.

use vstd::prelude::*;
use vstd::string::StringSliceAdditionalSpecFns;

verus! {

/// The number of bytes of `buffer` that stand before its first zero byte:
/// the whole length where it holds none.
pub open spec fn text_len(buffer: Seq<u8>) -> nat
    decreases buffer.len(),
{
    if buffer.len() == 0 || buffer[0] == 0 {
        0
    } else {
        1 + text_len(buffer.drop_first())
    }
}

/// The text that a zero-terminated buffer holds: its bytes up to the first
/// zero byte, which is left out.
pub open spec fn text_of(buffer: Seq<u8>) -> Seq<u8> {
    buffer.take(text_len(buffer) as int)
}

/// `n` is the place of the terminator in `buffer`: no byte before it is zero,
/// and the byte at it is zero unless the buffer ends there.
pub open spec fn ends_text(buffer: Seq<u8>, n: int) -> bool {
    &&& 0 <= n <= buffer.len()
    &&& forall|i: int| 0 <= i < n ==> buffer[i] != 0
    &&& n < buffer.len() ==> buffer[n] == 0
}

/// `text_len` is the place of the terminator.
pub proof fn lemma_text_len_ends_text(buffer: Seq<u8>)
    ensures
        ends_text(buffer, text_len(buffer) as int),
    decreases buffer.len(),
{
    if buffer.len() == 0 || buffer[0] == 0 {
    } else {
        let rest = buffer.drop_first();
        lemma_text_len_ends_text(rest);
        let n = text_len(buffer) as int;
        assert forall|i: int| 0 <= i < n implies buffer[i] != 0 by {
            if i > 0 {
                assert(buffer[i] == rest[i - 1]);
            }
        }
        if n < buffer.len() {
            assert(buffer[n] == rest[n - 1]);
        }
    }
}

/// No other place is the terminator's.
pub proof fn lemma_ends_text_unique(buffer: Seq<u8>, n: int)
    requires
        ends_text(buffer, n),
    ensures
        n == text_len(buffer),
{
    lemma_text_len_ends_text(buffer);
    let m = text_len(buffer) as int;
    if n < m {
        assert(buffer[n] != 0);
    } else if m < n {
        assert(buffer[m] != 0);
    }
}

/// The UTF-16 code units that one byte of UTF-8 text stands for: none for a
/// continuation byte, two for the lead byte of a four-byte sequence, which
/// is written as a surrogate pair, one for any other.
pub open spec fn units_of(byte: u8) -> nat {
    if 0x80 <= byte < 0xC0 {
        0
    } else if byte >= 0xF0 {
        2
    } else {
        1
    }
}

/// The length of a text in UTF-16 code units, counted on its UTF-8 bytes.
/// This is the length that the native runtime reports for a string. A zero
/// character counts like any other.
pub open spec fn code_units(text: Seq<u8>) -> nat
    decreases text.len(),
{
    if text.len() == 0 {
        0
    } else {
        code_units(text.drop_last()) + units_of(text.last())
    }
}

/// The code units of two texts in a row add up.
pub proof fn lemma_code_units_concat(first: Seq<u8>, second: Seq<u8>)
    ensures
        code_units(first + second) == code_units(first) + code_units(second),
    decreases second.len(),
{
    if second.len() == 0 {
        assert(first + second =~= first);
    } else {
        assert((first + second).drop_last() =~= first + second.drop_last());
        assert((first + second).last() == second.last());
        lemma_code_units_concat(first, second.drop_last());
    }
}

/// A text of ASCII bytes has as many code units as bytes.
pub proof fn lemma_code_units_ascii(text: Seq<u8>)
    requires
        forall|i: int| 0 <= i < text.len() ==> text[i] < 0x80,
    ensures
        code_units(text) == text.len(),
    decreases text.len(),
{
    if text.len() > 0 {
        lemma_code_units_ascii(text.drop_last());
    }
}

/// A text that goes on behind a zero byte has more code units than the part
/// before that byte.
pub proof fn lemma_code_units_behind_zero(text: Seq<u8>, n: int)
    requires
        0 <= n < text.len(),
        text[n] == 0,
    ensures
        code_units(text) > code_units(text.take(n)),
{
    let head = text.take(n);
    let zero = seq![0u8];
    let tail = text.skip(n + 1);
    assert(text =~= head + zero + tail);
    lemma_code_units_concat(head + zero, tail);
    lemma_code_units_concat(head, zero);
    assert(zero.drop_last() =~= Seq::<u8>::empty());
    assert(code_units(zero) == code_units(zero.drop_last()) + units_of(zero.last()));
}

/// Finds where the text in `buffer` ends.
pub fn text_length(buffer: &[u8]) -> (n: usize)
    ensures
        n == text_len(buffer@),
        ends_text(buffer@, n as int),
{
    let mut n: usize = 0;
    while n < buffer.len() && buffer[n] != 0
        invariant
            n <= buffer.len(),
            forall|i: int| 0 <= i < n ==> buffer@[i] != 0,
        decreases buffer.len() - n,
    {
        n += 1;
    }
    proof {
        lemma_ends_text_unique(buffer@, n as int);
    }
    n
}

/// Tells whether the text in `buffer` is `wanted`, byte for byte: the same
/// length, the same case, nothing before or after it. Bytes that are no
/// valid UTF-8 are the bytes of no `&str`, so such a text equals none.
pub fn text_equals(buffer: &[u8], wanted: &str) -> (same: bool)
    ensures
        same == (text_of(buffer@) == wanted.spec_bytes()),
{
    let n = text_length(buffer);
    let goal = wanted.as_bytes();
    if n != goal.len() {
        return false;
    }
    let mut i: usize = 0;
    while i < n
        invariant
            n == text_len(buffer@),
            n <= buffer.len(),
            n == goal.len(),
            goal@ == wanted.spec_bytes(),
            i <= n,
            forall|j: int| 0 <= j < i ==> buffer@[j] == goal@[j],
        decreases n - i,
    {
        if buffer[i] != goal[i] {
            assert(text_of(buffer@)[i as int] != goal@[i as int]);
            return false;
        }
        i += 1;
    }
    assert(text_of(buffer@) =~= goal@);
    true
}

} // verus!

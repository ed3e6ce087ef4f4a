//! Conversions between the UTF-16 offsets that platform text input speaks
//! and the UTF-8 byte offsets of the editor text.
use vstd::prelude::*;
use crate::text::{
    byte_len, byte_offset_of, char_len_utf16, char_len_utf8, chars_of, lemma_byte_offset_step,
    lemma_byte_offset_strict, lemma_utf16_within_utf8, utf16_offset_of, utf8_len, in_basic_plane,
    lemma_basic_plane_utf16_offset,
};
use std::ops::Range;

verus! {

/// The first column at or after `from` where at least `target` UTF-16 code
/// units lie before it, or the character count when there is none.
pub open spec fn column_at_utf16(s: Seq<char>, target: int, from: int) -> int
    decreases s.len() - from,
{
    if from >= s.len() || utf16_offset_of(s, from) >= target {
        from
    } else {
        column_at_utf16(s, target, from + 1)
    }
}

/// The first column at or after `from` where at least `target` UTF-8 bytes
/// lie before it, or the character count when there is none.
pub open spec fn column_at_utf8(s: Seq<char>, target: int, from: int) -> int
    decreases s.len() - from,
{
    if from >= s.len() || byte_offset_of(s, from) >= target {
        from
    } else {
        column_at_utf8(s, target, from + 1)
    }
}

/// The first column reached by `target` UTF-16 code units.
pub open spec fn utf16_column(s: Seq<char>, target: int) -> int {
    column_at_utf16(s, target, 0)
}

/// The first column reached by `target` UTF-8 bytes.
pub open spec fn utf8_column(s: Seq<char>, target: int) -> int {
    column_at_utf8(s, target, 0)
}

/// The column found by `utf16_column` is the least one that `target` code
/// units reach, or the character count.
pub proof fn lemma_utf16_column(s: Seq<char>, target: int, from: int)
    requires
        0 <= from <= s.len(),
    ensures
        from <= column_at_utf16(s, target, from) <= s.len(),
        column_at_utf16(s, target, from) < s.len() ==> utf16_offset_of(
            s,
            column_at_utf16(s, target, from),
        ) >= target,
        forall|k: int|
            from <= k < column_at_utf16(s, target, from) ==> utf16_offset_of(s, k) < target,
    decreases s.len() - from,
{
    if from < s.len() && utf16_offset_of(s, from) < target {
        lemma_utf16_column(s, target, from + 1);
    }
}

/// The column found by `utf8_column` is the least one that `target` bytes
/// reach, or the character count.
pub proof fn lemma_utf8_column(s: Seq<char>, target: int, from: int)
    requires
        0 <= from <= s.len(),
    ensures
        from <= column_at_utf8(s, target, from) <= s.len(),
        column_at_utf8(s, target, from) < s.len() ==> byte_offset_of(
            s,
            column_at_utf8(s, target, from),
        ) >= target,
        forall|k: int| from <= k < column_at_utf8(s, target, from) ==> byte_offset_of(s, k) < target,
    decreases s.len() - from,
{
    if from < s.len() && byte_offset_of(s, from) < target {
        lemma_utf8_column(s, target, from + 1);
    }
}

/// Byte offset of the first character boundary that `offset_utf16` code
/// units reach (the text's byte length when they reach past its end).
pub fn utf16_offset_to_utf8(text: &str, offset_utf16: usize) -> (r: usize)
    ensures
        r == byte_offset_of(text@, utf16_column(text@, offset_utf16 as int)),
{
    let chars = chars_of(text);
    let total = byte_len(text);
    let mut offset_utf8: usize = 0;
    let mut utf16_count: usize = 0;
    let mut k: usize = 0;
    assert(chars@.take(0) =~= Seq::<char>::empty());
    while k < chars.len()
        invariant
            k <= chars@.len(),
            chars@ == text@,
            total == utf8_len(chars@),
            offset_utf8 == byte_offset_of(chars@, k as int),
            utf16_count == utf16_offset_of(chars@, k as int),
            utf16_column(chars@, offset_utf16 as int) == column_at_utf16(
                chars@,
                offset_utf16 as int,
                k as int,
            ),
        decreases chars@.len() - k,
    {
        if utf16_count >= offset_utf16 {
            return offset_utf8;
        }
        proof {
            lemma_byte_offset_step(chars@, k as int);
            lemma_byte_offset_strict(chars@, k + 1, chars@.len() as int);
            lemma_utf16_within_utf8(chars@, k + 1);
        }
        utf16_count = utf16_count + char_len_utf16(chars[k]);
        offset_utf8 = offset_utf8 + char_len_utf8(chars[k]);
        k = k + 1;
    }
    offset_utf8
}

/// UTF-16 offset of the first character boundary that `offset_utf8` bytes
/// reach (the text's UTF-16 length when they reach past its end).
pub fn utf8_offset_to_utf16(text: &str, offset_utf8: usize) -> (r: usize)
    ensures
        r == utf16_offset_of(text@, utf8_column(text@, offset_utf8 as int)),
{
    let chars = chars_of(text);
    let total = byte_len(text);
    let mut offset_utf16: usize = 0;
    let mut counted_utf8: usize = 0;
    let mut k: usize = 0;
    assert(chars@.take(0) =~= Seq::<char>::empty());
    while k < chars.len()
        invariant
            k <= chars@.len(),
            chars@ == text@,
            total == utf8_len(chars@),
            counted_utf8 == byte_offset_of(chars@, k as int),
            offset_utf16 == utf16_offset_of(chars@, k as int),
            utf8_column(chars@, offset_utf8 as int) == column_at_utf8(
                chars@,
                offset_utf8 as int,
                k as int,
            ),
        decreases chars@.len() - k,
    {
        if counted_utf8 >= offset_utf8 {
            return offset_utf16;
        }
        proof {
            lemma_byte_offset_step(chars@, k as int);
            lemma_byte_offset_strict(chars@, k + 1, chars@.len() as int);
            lemma_utf16_within_utf8(chars@, k + 1);
        }
        counted_utf8 = counted_utf8 + char_len_utf8(chars[k]);
        offset_utf16 = offset_utf16 + char_len_utf16(chars[k]);
        k = k + 1;
    }
    offset_utf16
}

/// The byte range between the boundaries that the two ends of
/// `range_utf16` reach, lower end first.
pub fn utf16_range_to_utf8(text: &str, range_utf16: Range<usize>) -> (r: Range<usize>)
    ensures
        r.start == min_nat(
            byte_offset_of(text@, utf16_column(text@, range_utf16.start as int)),
            byte_offset_of(text@, utf16_column(text@, range_utf16.end as int)),
        ),
        r.end == max_nat(
            byte_offset_of(text@, utf16_column(text@, range_utf16.start as int)),
            byte_offset_of(text@, utf16_column(text@, range_utf16.end as int)),
        ),
{
    let start = utf16_offset_to_utf8(text, range_utf16.start);
    let end = utf16_offset_to_utf8(text, range_utf16.end);
    if start <= end {
        start..end
    } else {
        end..start
    }
}

/// The UTF-16 range whose ends are those that the two ends of `range_utf8`
/// reach.
pub fn utf8_range_to_utf16(text: &str, range_utf8: Range<usize>) -> (r: Range<usize>)
    ensures
        r.start == utf16_offset_of(text@, utf8_column(text@, range_utf8.start as int)),
        r.end == utf16_offset_of(text@, utf8_column(text@, range_utf8.end as int)),
{
    utf8_offset_to_utf16(text, range_utf8.start)..utf8_offset_to_utf16(text, range_utf8.end)
}

pub open spec fn min_nat(a: nat, b: nat) -> nat {
    if a <= b {
        a
    } else {
        b
    }
}

pub open spec fn max_nat(a: nat, b: nat) -> nat {
    if a <= b {
        b
    } else {
        a
    }
}

/// In text of Basic Multilingual Plane characters (CJK among them) a UTF-16
/// offset counts characters: the byte offset of column `k` converts to the
/// UTF-16 offset `k`, and the UTF-16 offset `k` converts to the byte offset
/// of column `k`.
pub proof fn lemma_basic_plane_conversions(s: Seq<char>, k: int)
    requires
        in_basic_plane(s),
        0 <= k <= s.len(),
    ensures
        utf16_offset_of(s, utf8_column(s, byte_offset_of(s, k) as int)) == k,
        byte_offset_of(s, utf16_column(s, k)) == byte_offset_of(s, k),
{
    lemma_offset_round_trip(s, k);
    lemma_basic_plane_utf16_offset(s, k);
}

/// Converting the UTF-16 offset of a character boundary to bytes and back
/// gives the same offset, and so does converting the byte offset of a
/// boundary to UTF-16 and back.
pub proof fn lemma_offset_round_trip(s: Seq<char>, k: int)
    requires
        0 <= k <= s.len(),
    ensures
        utf16_column(s, utf16_offset_of(s, k) as int) == k,
        utf8_column(s, byte_offset_of(s, k) as int) == k,
{
    lemma_utf16_column(s, utf16_offset_of(s, k) as int, 0);
    lemma_utf8_column(s, byte_offset_of(s, k) as int, 0);
    let c16 = utf16_column(s, utf16_offset_of(s, k) as int);
    let c8 = utf8_column(s, byte_offset_of(s, k) as int);
    if c16 < k {
        lemma_byte_offset_strict(s, c16, k);
        lemma_byte_offset_step(s, c16);
    }
    if c16 > k {
        assert(utf16_offset_of(s, k) < utf16_offset_of(s, k));
    }
    if c8 < k {
        lemma_byte_offset_strict(s, c8 + 1, k);
        lemma_byte_offset_step(s, c8);
    }
    if c8 > k {
        assert(byte_offset_of(s, k) < byte_offset_of(s, k));
    }
}

} // verus!

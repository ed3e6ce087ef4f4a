//! Character-level model of editor text: UTF-8 and UTF-16 widths of
//! characters, byte offsets of display columns, and small string builders.
use vstd::prelude::*;
use vstd::string::*;
use vstd::utf8::*;

verus! {

/// Number of bytes in the UTF-8 encoding of `c`.
pub open spec fn char_utf8_width(c: char) -> nat {
    let v = c as u32;
    if v <= 0x7F {
        1
    } else if v <= 0x7FF {
        2
    } else if v <= 0xFFFF {
        3
    } else {
        4
    }
}

/// Number of UTF-16 code units in the encoding of `c`.
pub open spec fn char_utf16_width(c: char) -> nat {
    if (c as u32) <= 0xFFFF {
        1
    } else {
        2
    }
}

/// Length in bytes of the UTF-8 encoding of `s`.
pub open spec fn utf8_len(s: Seq<char>) -> nat
    decreases s.len(),
{
    if s.len() == 0 {
        0
    } else {
        char_utf8_width(s[0]) + utf8_len(s.drop_first())
    }
}

/// Length in code units of the UTF-16 encoding of `s`.
pub open spec fn utf16_len(s: Seq<char>) -> nat
    decreases s.len(),
{
    if s.len() == 0 {
        0
    } else {
        char_utf16_width(s[0]) + utf16_len(s.drop_first())
    }
}

/// Byte offset at which the character with index `column` starts
/// (the byte length of the text when `column` is the character count).
pub open spec fn byte_offset_of(s: Seq<char>, column: int) -> nat {
    utf8_len(s.take(column))
}

/// UTF-16 offset at which the character with index `column` starts.
pub open spec fn utf16_offset_of(s: Seq<char>, column: int) -> nat {
    utf16_len(s.take(column))
}

pub proof fn lemma_utf8_len_concat(a: Seq<char>, b: Seq<char>)
    ensures
        utf8_len(a + b) == utf8_len(a) + utf8_len(b),
    decreases a.len(),
{
    if a.len() == 0 {
        assert(a + b =~= b);
    } else {
        assert((a + b).drop_first() =~= a.drop_first() + b);
        lemma_utf8_len_concat(a.drop_first(), b);
    }
}

pub proof fn lemma_utf16_len_concat(a: Seq<char>, b: Seq<char>)
    ensures
        utf16_len(a + b) == utf16_len(a) + utf16_len(b),
    decreases a.len(),
{
    if a.len() == 0 {
        assert(a + b =~= b);
    } else {
        assert((a + b).drop_first() =~= a.drop_first() + b);
        lemma_utf16_len_concat(a.drop_first(), b);
    }
}

/// Each further character moves the byte offset by its own width.
pub proof fn lemma_byte_offset_step(s: Seq<char>, i: int)
    requires
        0 <= i < s.len(),
    ensures
        byte_offset_of(s, i + 1) == byte_offset_of(s, i) + char_utf8_width(s[i]),
        utf16_offset_of(s, i + 1) == utf16_offset_of(s, i) + char_utf16_width(s[i]),
{
    assert(s.take(i + 1) =~= s.take(i) + seq![s[i]]);
    lemma_utf8_len_concat(s.take(i), seq![s[i]]);
    lemma_utf16_len_concat(s.take(i), seq![s[i]]);
    assert(seq![s[i]].drop_first() =~= Seq::<char>::empty());
    reveal_with_fuel(utf8_len, 2);
    reveal_with_fuel(utf16_len, 2);
}

/// Byte offsets of columns grow strictly with the column.
pub proof fn lemma_byte_offset_strict(s: Seq<char>, i: int, j: int)
    requires
        0 <= i <= j <= s.len(),
    ensures
        byte_offset_of(s, i) + (j - i) <= byte_offset_of(s, j),
        utf16_offset_of(s, i) + (j - i) <= utf16_offset_of(s, j),
        byte_offset_of(s, j) <= utf8_len(s),
        utf16_offset_of(s, j) <= utf16_len(s),
    decreases j - i,
{
    if i < j {
        lemma_byte_offset_strict(s, i, j - 1);
        lemma_byte_offset_step(s, j - 1);
    }
    assert(s =~= s.take(j) + s.skip(j));
    lemma_utf8_len_concat(s.take(j), s.skip(j));
    lemma_utf16_len_concat(s.take(j), s.skip(j));
}

/// A prefix never takes more UTF-16 code units than UTF-8 bytes.
pub proof fn lemma_utf16_within_utf8(s: Seq<char>, k: int)
    requires
        0 <= k <= s.len(),
    ensures
        utf16_offset_of(s, k) <= byte_offset_of(s, k),
    decreases k,
{
    if k > 0 {
        lemma_utf16_within_utf8(s, k - 1);
        lemma_byte_offset_step(s, k - 1);
    } else {
        assert(s.take(0) =~= Seq::<char>::empty());
    }
}

/// The whole text ends at the byte offset of its character count.
pub proof fn lemma_byte_offset_end(s: Seq<char>)
    ensures
        byte_offset_of(s, s.len() as int) == utf8_len(s),
        utf16_offset_of(s, s.len() as int) == utf16_len(s),
{
    assert(s.take(s.len() as int) =~= s);
}

/// The UTF-8 model agrees with vstd's encoding of characters.
pub proof fn lemma_utf8_len_is_encoding_len(s: Seq<char>)
    ensures
        encode_utf8(s).len() == utf8_len(s),
    decreases s.len(),
{
    if s.len() > 0 {
        char_is_scalar(s[0]);
        lemma_utf8_len_is_encoding_len(s.drop_first());
    }
}

/// Every character of `s` lies in the Basic Multilingual Plane (at most
/// U+FFFF), as ASCII, Latin, Greek, Cyrillic and CJK text does.
pub open spec fn in_basic_plane(s: Seq<char>) -> bool {
    forall|i: int| 0 <= i < s.len() ==> (#[trigger] s[i] as u32) <= 0xFFFF
}

/// A character takes two UTF-16 code units (a surrogate pair) exactly when
/// it lies beyond the Basic Multilingual Plane, which is exactly when its
/// UTF-8 encoding takes four bytes; every other character takes one unit.
pub proof fn lemma_utf16_width_is_encoding_width(c: char)
    ensures
        char_utf16_width(c) == (if encode_utf8(seq![c]).len() == 4 {
            2nat
        } else {
            1nat
        }),
        (c as u32) <= 0xFFFF ==> char_utf16_width(c) == 1,
        (c as u32) > 0xFFFF ==> char_utf16_width(c) == 2,
{
    char_is_scalar(c);
    lemma_utf8_len_is_encoding_len(seq![c]);
    assert(seq![c].drop_first() =~= Seq::<char>::empty());
    reveal_with_fuel(utf8_len, 2);
}

/// In text of Basic Multilingual Plane characters each character is one
/// UTF-16 code unit, so the UTF-16 offset of a column is the column itself.
pub proof fn lemma_basic_plane_utf16_offset(s: Seq<char>, k: int)
    requires
        in_basic_plane(s),
        0 <= k <= s.len(),
    ensures
        utf16_offset_of(s, k) == k,
        k == s.len() ==> utf16_len(s) == s.len(),
    decreases k,
{
    if k > 0 {
        lemma_basic_plane_utf16_offset(s, k - 1);
        lemma_byte_offset_step(s, k - 1);
        lemma_utf16_width_is_encoding_width(s[k - 1]);
    } else {
        assert(s.take(0) =~= Seq::<char>::empty());
    }
    lemma_byte_offset_end(s);
}

/// Number of bytes that `c` takes in UTF-8.
pub fn char_len_utf8(c: char) -> (n: usize)
    ensures
        n == char_utf8_width(c),
{
    let v = c as u32;
    if v <= 0x7F {
        1
    } else if v <= 0x7FF {
        2
    } else if v <= 0xFFFF {
        3
    } else {
        4
    }
}

/// Number of code units that `c` takes in UTF-16.
pub fn char_len_utf16(c: char) -> (n: usize)
    ensures
        n == char_utf16_width(c),
{
    if (c as u32) <= 0xFFFF {
        1
    } else {
        2
    }
}

/// The characters of `s`, in order.
pub fn chars_of(s: &str) -> (v: Vec<char>)
    ensures
        v@ == s@,
{
    let n = s.unicode_len();
    let mut v: Vec<char> = Vec::new();
    for i in 0..n
        invariant
            n == s@.len(),
            v@ == s@.take(i as int),
    {
        v.push(s.get_char(i));
        assert(v@ == s@.take(i + 1));
    }
    assert(s@.take(n as int) == s@);
    v
}

/// Length in bytes of `s`.
pub fn byte_len(s: &str) -> (n: usize)
    ensures
        n == utf8_len(s@),
{
    proof {
        lemma_utf8_len_is_encoding_len(s@);
        assert(s.spec_bytes() == encode_utf8(s@));
    }
    s.as_bytes().len()
}

/// Appends `c` to `s` (`String::push`).
#[verifier::external_body]
pub fn string_push(s: &mut String, c: char)
    ensures
        final(s)@ == old(s)@.push(c),
{
    s.push(c);
}

/// A string holding the characters `chars[from..to]`.
pub fn string_from_chars(chars: &Vec<char>, from: usize, to: usize) -> (s: String)
    requires
        from <= to <= chars@.len(),
    ensures
        s@ == chars@.subrange(from as int, to as int),
{
    let mut s = String::new();
    let mut i = from;
    while i < to
        invariant
            from <= i <= to <= chars@.len(),
            s@ == chars@.subrange(from as int, i as int),
        decreases to - i,
    {
        string_push(&mut s, chars[i]);
        assert(s@ == chars@.subrange(from as int, i + 1));
        i = i + 1;
    }
    s
}

/// Byte offset of each column boundary of `chars`: entry `k` is where the
/// character with index `k` starts, and the last entry is the byte length.
pub fn byte_offsets(chars: &Vec<char>, total: usize) -> (offsets: Vec<usize>)
    requires
        total == utf8_len(chars@),
    ensures
        offsets@.len() == chars@.len() + 1,
        forall|k: int| 0 <= k <= chars@.len() ==> offsets@[k] == byte_offset_of(chars@, k),
{
    let mut offsets: Vec<usize> = Vec::new();
    let mut offset: usize = 0;
    let mut i: usize = 0;
    proof {
        assert(chars@.take(0) =~= Seq::<char>::empty());
    }
    while i < chars.len()
        invariant
            i <= chars@.len(),
            total == utf8_len(chars@),
            offset == byte_offset_of(chars@, i as int),
            offsets@.len() == i,
            forall|k: int| 0 <= k < i ==> offsets@[k] == byte_offset_of(chars@, k),
        decreases chars@.len() - i,
    {
        offsets.push(offset);
        proof {
            lemma_byte_offset_step(chars@, i as int);
            lemma_byte_offset_strict(chars@, i as int + 1, chars@.len() as int);
        }
        offset = offset + char_len_utf8(chars[i]);
        i = i + 1;
    }
    offsets.push(offset);
    offsets
}

/// Whether `a` and `b` hold the same characters.
pub fn str_eq(a: &str, b: &str) -> (r: bool)
    ensures
        r == (a@ == b@),
{
    let x = chars_of(a);
    let y = chars_of(b);
    if x.len() != y.len() {
        return false;
    }
    let mut i: usize = 0;
    while i < x.len()
        invariant
            x@ == a@,
            y@ == b@,
            x@.len() == y@.len(),
            i <= x@.len(),
            forall|j: int| 0 <= j < i ==> x@[j] == y@[j],
        decreases x@.len() - i,
    {
        if x[i] != y[i] {
            return false;
        }
        i = i + 1;
    }
    assert(x@ =~= y@);
    true
}

} // verus!

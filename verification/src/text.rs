//! Characters, their UTF-8 widths, and byte offsets into a character sequence.

use vstd::prelude::*;
use vstd::utf8::*;

verus! {

/// Number of bytes `c` takes in UTF-8.
pub open spec fn char_width(c: char) -> nat {
    if (c as u32) < 0x80 {
        1
    } else if (c as u32) < 0x800 {
        2
    } else if (c as u32) < 0x10000 {
        3
    } else {
        4
    }
}

/// Byte offset, in the UTF-8 encoding of `s`, of the character at index `i`.
pub open spec fn byte_offset(s: Seq<char>, i: int) -> nat
    decreases i,
{
    if i <= 0 {
        0
    } else {
        byte_offset(s, i - 1) + char_width(s[i - 1])
    }
}

/// Number of bytes in the UTF-8 encoding of `s`.
pub open spec fn byte_len(s: Seq<char>) -> nat {
    byte_offset(s, s.len() as int)
}

/// Byte offsets grow with the character index.
pub proof fn lemma_byte_offset_mono(s: Seq<char>, i: int, j: int)
    requires
        i <= j,
    ensures
        byte_offset(s, i) <= byte_offset(s, j),
        0 <= i < j ==> byte_offset(s, i) < byte_offset(s, j),
    decreases j - i,
{
    if i < j {
        lemma_byte_offset_mono(s, i, j - 1);
    }
}

/// The byte offset only depends on the characters before the index.
pub proof fn lemma_byte_offset_prefix(s: Seq<char>, t: Seq<char>, i: int)
    requires
        0 <= i <= s.len(),
        i <= t.len(),
        s.subrange(0, i) =~= t.subrange(0, i),
    ensures
        byte_offset(s, i) == byte_offset(t, i),
    decreases i,
{
    if i > 0 {
        assert(s.subrange(0, i - 1) =~= t.subrange(0, i - 1));
        assert(s[i - 1] == s.subrange(0, i)[i - 1]);
        assert(t[i - 1] == t.subrange(0, i)[i - 1]);
        lemma_byte_offset_prefix(s, t, i - 1);
    }
}

pub proof fn lemma_byte_offset_drop_first(s: Seq<char>, i: int)
    requires
        1 <= i <= s.len(),
    ensures
        byte_offset(s, i) == char_width(s[0]) + byte_offset(s.drop_first(), i - 1),
    decreases i,
{
    if i > 1 {
        lemma_byte_offset_drop_first(s, i - 1);
        assert(s.drop_first()[i - 2] == s[i - 1]);
        assert(byte_offset(s.drop_first(), i - 1) == byte_offset(s.drop_first(), i - 2)
            + char_width(s.drop_first()[i - 2]));
    } else {
        assert(byte_offset(s, 0) == 0);
        assert(byte_offset(s.drop_first(), 0) == 0);
    }
}

/// `char_width` agrees with the length of the standard UTF-8 encoding.
pub proof fn lemma_char_width_encoding(c: char)
    ensures
        encode_scalar(c as u32).len() == char_width(c),
{
    char_is_scalar(c);
}

/// `byte_len` is the length of the standard UTF-8 encoding.
pub proof fn lemma_byte_len_encoding(s: Seq<char>)
    ensures
        byte_len(s) == encode_utf8(s).len(),
    decreases s.len(),
{
    if s.len() > 0 {
        lemma_byte_len_encoding(s.drop_first());
        lemma_byte_offset_drop_first(s, s.len() as int);
        lemma_char_width_encoding(s[0]);
    }
}

/// Width in bytes of `c` in UTF-8 (what `char::len_utf8` returns).
pub fn utf8_width(c: char) -> (r: usize)
    ensures
        r == char_width(c),
{
    let v = c as u32;
    if v < 0x80 {
        1
    } else if v < 0x800 {
        2
    } else if v < 0x10000 {
        3
    } else {
        4
    }
}

/// The characters of `s`, in order.
pub fn chars_of(s: &str) -> (r: Vec<char>)
    ensures
        r@ == s@,
{
    let mut v: Vec<char> = Vec::new();
    for c in it: s.chars()
        invariant
            v@ == it.seq().take(it.index() as int),
            it.seq() == s@,
    {
        v.push(c);
    }
    v
}

/// `String::push`: appends `c` to `s`. The contract claims that the text of
/// `s` grows by exactly that character.
#[verifier::external_body]
pub(crate) fn push_char(s: &mut String, c: char)
    ensures
        final(s)@ == old(s)@.push(c),
{
    s.push(c);
}

/// Appends `t` to `s`.
pub fn push_str(s: &mut String, t: &str)
    ensures
        final(s)@ == old(s)@ + t@,
{
    s.append(t);
}

/// A `String` holding the characters `cs[from..to]`.
pub fn string_from_chars(cs: &Vec<char>, from: usize, to: usize) -> (r: String)
    requires
        from <= to <= cs.len(),
    ensures
        r@ == cs@.subrange(from as int, to as int),
{
    let mut out = String::new();
    let mut i = from;
    while i < to
        invariant
            from <= i <= to <= cs.len(),
            out@ == cs@.subrange(from as int, i as int),
        decreases to - i,
    {
        push_char(&mut out, cs[i]);
        assert(cs@.subrange(from as int, i + 1) =~= cs@.subrange(from as int, i as int).push(cs@[i as int]));
        i = i + 1;
    }
    out
}

/// Whether `cs` spells exactly the characters of `lit`.
pub fn chars_equal_str(cs: &[char], lit: &str) -> (r: bool)
    ensures
        r == (cs@ == lit@),
{
    let n = lit.unicode_len();
    if cs.len() != n {
        return false;
    }
    let mut i: usize = 0;
    while i < n
        invariant
            i <= n,
            n == cs@.len(),
            n == lit@.len(),
            forall|k: int| 0 <= k < i ==> cs@[k] == lit@[k],
        decreases n - i,
    {
        if cs[i] != lit.get_char(i) {
            return false;
        }
        i = i + 1;
    }
    assert(cs@ =~= lit@);
    true
}

/// The byte offset where character `k` starts is a character boundary of the
/// UTF-8 encoding.
pub proof fn lemma_encoded_boundary(s: Seq<char>, k: int)
    requires
        0 <= k <= s.len(),
    ensures
        is_char_boundary(encode_utf8(s), byte_offset(s, k) as int),
    decreases s.len(),
{
    let bytes = encode_utf8(s);
    encode_utf8_valid_utf8(s);
    if k > 0 {
        encode_utf8_first_scalar(s);
        lemma_char_width_encoding(s[0]);
        assert(pop_first_scalar(bytes) =~= encode_utf8(s.drop_first()));
        lemma_byte_offset_drop_first(s, k);
        lemma_byte_len_encoding(s);
        lemma_byte_offset_mono(s, k, s.len() as int);
        lemma_encoded_boundary(s.drop_first(), k - 1);
    }
}

/// A character boundary of the UTF-8 encoding is where some character starts
/// (or the end).
pub proof fn lemma_boundary_index(s: Seq<char>, off: int) -> (k: int)
    requires
        is_char_boundary(encode_utf8(s), off),
    ensures
        0 <= k <= s.len(),
        byte_offset(s, k) == off,
    decreases s.len(),
{
    let bytes = encode_utf8(s);
    encode_utf8_valid_utf8(s);
    if off == 0 {
        0
    } else {
        if s.len() == 0 {
            assert(bytes.len() == 0);
            assert(false);
        }
        encode_utf8_first_scalar(s);
        lemma_char_width_encoding(s[0]);
        assert(pop_first_scalar(bytes) =~= encode_utf8(s.drop_first()));
        let k1 = lemma_boundary_index(s.drop_first(), off - char_width(s[0]));
        lemma_byte_offset_drop_first(s, k1 + 1);
        k1 + 1
    }
}

/// The UTF-8 encoding of the first `k` characters is the first
/// `byte_offset(s, k)` bytes of the encoding.
pub proof fn lemma_encode_prefix(s: Seq<char>, k: int)
    requires
        0 <= k <= s.len(),
    ensures
        encode_utf8(s.take(k)) =~= encode_utf8(s).subrange(0, byte_offset(s, k) as int),
    decreases s.len(),
{
    if k == 0 {
        assert(s.take(0) =~= Seq::<char>::empty());
    } else {
        let d = s.drop_first();
        assert(s.take(k).drop_first() =~= d.take(k - 1));
        assert(s.take(k)[0] == s[0]);
        lemma_encode_prefix(d, k - 1);
        lemma_byte_offset_drop_first(s, k);
        lemma_byte_len_encoding(d);
        lemma_byte_offset_mono(d, k - 1, d.len() as int);
        let a = encode_scalar(s[0] as u32);
        assert(encode_utf8(s) =~= a + encode_utf8(d));
        assert(encode_utf8(s.take(k)) =~= a + encode_utf8(d.take(k - 1)));
        lemma_char_width_encoding(s[0]);
        assert((a + encode_utf8(d)).subrange(0, (a.len() + byte_offset(d, k - 1)) as int) =~= a + encode_utf8(
            d,
        ).subrange(0, byte_offset(d, k - 1) as int));
    }
}

} // verus!

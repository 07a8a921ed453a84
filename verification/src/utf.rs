//! Character widths in UTF-8 and UTF-16, and the conversion between byte
//! offsets and UTF-16 offsets into a string.
use vstd::prelude::*;
use vstd::utf8::*;
use vstd::string::axiom_spec_iter;

verus! {

/// Number of bytes that `c` takes in UTF-8.
pub open spec fn utf8_width(c: char) -> nat {
    let v = c as u32;
    if v < 0x80 {
        1
    } else if v < 0x800 {
        2
    } else if v < 0x10000 {
        3
    } else {
        4
    }
}

/// Number of 16-bit code units that `c` takes in UTF-16.
pub open spec fn utf16_width(c: char) -> nat {
    if (c as u32) < 0x10000 {
        1
    } else {
        2
    }
}

/// Length in bytes of the UTF-8 encoding of `s`.
pub open spec fn byte_len(s: Seq<char>) -> nat
    decreases s.len(),
{
    if s.len() == 0 {
        0
    } else {
        utf8_width(s[0]) + byte_len(s.drop_first())
    }
}

/// Length in code units of the UTF-16 encoding of `s`.
pub open spec fn utf16_len(s: Seq<char>) -> nat
    decreases s.len(),
{
    if s.len() == 0 {
        0
    } else {
        utf16_width(s[0]) + utf16_len(s.drop_first())
    }
}

/// The byte offset reached by walking `s` from its start, one character at a
/// time, for as long as fewer than `offset` UTF-16 code units have been passed.
pub open spec fn utf8_offset_of_utf16(s: Seq<char>, offset: int) -> nat
    decreases s.len(),
{
    if s.len() == 0 || offset <= 0 {
        0
    } else {
        utf8_width(s[0]) + utf8_offset_of_utf16(s.drop_first(), offset - utf16_width(s[0]))
    }
}

/// The UTF-16 offset reached by walking `s` from its start, one character at a
/// time, for as long as fewer than `offset` bytes have been passed.
pub open spec fn utf16_offset_of_utf8(s: Seq<char>, offset: int) -> nat
    decreases s.len(),
{
    if s.len() == 0 || offset <= 0 {
        0
    } else {
        utf16_width(s[0]) + utf16_offset_of_utf8(s.drop_first(), offset - utf8_width(s[0]))
    }
}

/// The byte offsets at which a character of `s` starts, and the end of `s`.
pub open spec fn is_char_start(s: Seq<char>, offset: int) -> bool {
    exists|k: int| 0 <= k <= s.len() && offset == byte_len(#[trigger] s.take(k))
}

pub proof fn lemma_utf8_width_encode(c: char)
    ensures
        encode_scalar(c as u32).len() == utf8_width(c),
        1 <= utf8_width(c) <= 4,
        1 <= utf16_width(c) <= utf8_width(c),
{
    char_is_scalar(c);
}

pub proof fn lemma_encode_len(s: Seq<char>)
    ensures
        encode_utf8(s).len() == byte_len(s),
    decreases s.len(),
{
    if s.len() > 0 {
        lemma_utf8_width_encode(s[0]);
        lemma_encode_len(s.drop_first());
    }
}

pub proof fn lemma_encode_concat(a: Seq<char>, b: Seq<char>)
    ensures
        encode_utf8(a + b) == encode_utf8(a) + encode_utf8(b),
    decreases a.len(),
{
    if a.len() == 0 {
        assert(a + b =~= b);
        assert(encode_utf8(a) + encode_utf8(b) =~= encode_utf8(b));
    } else {
        assert((a + b).drop_first() =~= a.drop_first() + b);
        lemma_encode_concat(a.drop_first(), b);
        assert(encode_utf8(a + b) =~= encode_utf8(a) + encode_utf8(b));
    }
}

pub proof fn lemma_byte_len_concat(a: Seq<char>, b: Seq<char>)
    ensures
        byte_len(a + b) == byte_len(a) + byte_len(b),
{
    lemma_encode_concat(a, b);
    lemma_encode_len(a + b);
    lemma_encode_len(a);
    lemma_encode_len(b);
}

pub proof fn lemma_utf16_le_byte_len(s: Seq<char>)
    ensures
        utf16_len(s) <= byte_len(s),
    decreases s.len(),
{
    if s.len() > 0 {
        lemma_utf8_width_encode(s[0]);
        lemma_utf16_le_byte_len(s.drop_first());
    }
}

/// The byte length of the first `k + 1` characters extends that of the first `k`.
pub proof fn lemma_byte_len_take_step(s: Seq<char>, k: int)
    requires
        0 <= k < s.len(),
    ensures
        byte_len(s.take(k + 1)) == byte_len(s.take(k)) + utf8_width(s[k]),
        utf16_len(s.take(k + 1)) == utf16_len(s.take(k)) + utf16_width(s[k]),
{
    assert(s.take(k + 1) =~= s.take(k) + seq![s[k]]);
    lemma_byte_len_concat(s.take(k), seq![s[k]]);
    lemma_utf16_len_concat(s.take(k), seq![s[k]]);
    reveal_with_fuel(byte_len, 2);
    reveal_with_fuel(utf16_len, 2);
}

pub proof fn lemma_utf16_len_concat(a: Seq<char>, b: Seq<char>)
    ensures
        utf16_len(a + b) == utf16_len(a) + utf16_len(b),
    decreases a.len(),
{
    if a.len() == 0 {
        assert(a + b =~= b);
    } else {
        assert((a + b).drop_first() =~= a.drop_first() + b);
        lemma_utf16_len_concat(a.drop_first(), b);
    }
}

/// A character takes one UTF-16 code unit, except the characters beyond the
/// Basic Multilingual Plane, which take a surrogate pair: exactly those whose
/// UTF-8 encoding takes four bytes.
pub proof fn law_surrogate_pairs_are_four_byte_characters(c: char)
    ensures
        utf16_width(c) == 1 || utf16_width(c) == 2,
        (utf16_width(c) == 2) == (encode_scalar(c as u32).len() == 4),
        (utf16_width(c) == 1) == (encode_scalar(c as u32).len() <= 3),
{
    lemma_utf8_width_encode(c);
}

/// Number of bytes that `c` takes in UTF-8.
pub fn char_len_utf8(c: char) -> (n: usize)
    ensures
        n == utf8_width(c),
{
    let v = c as u32;
    if v < 0x80 {
        1
    } else if v < 0x800 {
        2
    } else if v < 0x10000 {
        3
    } else {
        4
    }
}

/// Number of 16-bit code units that `c` takes in UTF-16.
pub fn char_len_utf16(c: char) -> (n: usize)
    ensures
        n == utf16_width(c),
        n == 1 || n == 2,
        (n == 2) == (encode_scalar(c as u32).len() == 4),
{
    proof {
        law_surrogate_pairs_are_four_byte_characters(c);
    }
    if (c as u32) < 0x10000 {
        1
    } else {
        2
    }
}

/// Length of `text` in bytes.
pub fn byte_length(text: &str) -> (n: usize)
    ensures
        n == byte_len(text@),
{
    let bytes = text.as_bytes();
    let n = bytes.len();
    proof {
        lemma_encode_len(text@);
    }
    n
}

/// Byte offset in `text` that corresponds to the UTF-16 offset `offset`: the
/// characters are passed one by one while fewer than `offset` UTF-16 code
/// units lie behind; the bytes passed are counted.
pub fn utf8_offset_from_utf16(text: &str, offset: usize) -> (r: usize)
    ensures
        r == utf8_offset_of_utf16(text@, offset as int),
        r <= byte_len(text@),
{
    let total = byte_length(text);
    let ghost s = text@;
    let mut utf8_offset: usize = 0;
    let mut utf16_count: usize = 0;
    let mut chars = text.chars();
    let ghost mut i: int = 0;
    proof {
        axiom_spec_iter(text);
        assert(s.skip(0) =~= s);
        assert(s.take(0) =~= Seq::<char>::empty());
    }
    loop
        invariant_except_break
            vstd::std_specs::iter::IteratorSpec::remaining(&chars) == s.skip(i),
        invariant
            0 <= i <= s.len(),
            s == text@,
            utf8_offset == byte_len(s.take(i)),
            utf16_count == utf16_len(s.take(i)),
            byte_len(s) == total,
            utf8_offset_of_utf16(s, offset as int) == utf8_offset + utf8_offset_of_utf16(
                s.skip(i),
                offset - utf16_count,
            ),
        ensures
            utf8_offset_of_utf16(s, offset as int) == utf8_offset,
            utf8_offset <= byte_len(s),
        decreases s.len() - i,
    {
        proof {
            assert(s =~= s.take(i) + s.skip(i));
            lemma_byte_len_concat(s.take(i), s.skip(i));
        }
        let next = chars.next();
        match next {
            None => {
                proof {
                    assert(s.skip(i).len() == 0);
                }
                break;
            },
            Some(ch) => {
                if utf16_count >= offset {
                    break;
                }
                proof {
                    assert(ch == s[i]);
                    lemma_byte_len_take_step(s, i);
                    assert(s =~= s.take(i + 1) + s.skip(i + 1));
                    lemma_byte_len_concat(s.take(i + 1), s.skip(i + 1));
                    lemma_utf16_le_byte_len(s.take(i + 1));
                    assert(s.skip(i).drop_first() =~= s.skip(i + 1));
                }
                utf16_count = utf16_count + char_len_utf16(ch);
                utf8_offset = utf8_offset + char_len_utf8(ch);
                proof {
                    i = i + 1;
                }
            },
        }
    }
    utf8_offset
}

/// UTF-16 offset in `text` that corresponds to the byte offset `offset`: the
/// characters are passed one by one while fewer than `offset` bytes lie
/// behind; the UTF-16 code units passed are counted.
pub fn utf16_offset_from_utf8(text: &str, offset: usize) -> (r: usize)
    ensures
        r == utf16_offset_of_utf8(text@, offset as int),
        r <= utf16_len(text@),
{
    let total = byte_length(text);
    let ghost s = text@;
    let mut utf16_offset: usize = 0;
    let mut utf8_count: usize = 0;
    let mut chars = text.chars();
    let ghost mut i: int = 0;
    proof {
        axiom_spec_iter(text);
        assert(s.skip(0) =~= s);
        assert(s.take(0) =~= Seq::<char>::empty());
    }
    loop
        invariant_except_break
            vstd::std_specs::iter::IteratorSpec::remaining(&chars) == s.skip(i),
        invariant
            0 <= i <= s.len(),
            s == text@,
            utf8_count == byte_len(s.take(i)),
            utf16_offset == utf16_len(s.take(i)),
            byte_len(s) == total,
            utf16_offset_of_utf8(s, offset as int) == utf16_offset + utf16_offset_of_utf8(
                s.skip(i),
                offset - utf8_count,
            ),
        ensures
            utf16_offset_of_utf8(s, offset as int) == utf16_offset,
            utf16_offset <= utf16_len(s),
        decreases s.len() - i,
    {
        proof {
            assert(s =~= s.take(i) + s.skip(i));
            lemma_byte_len_concat(s.take(i), s.skip(i));
            lemma_utf16_len_concat(s.take(i), s.skip(i));
        }
        let next = chars.next();
        match next {
            None => {
                proof {
                    assert(s.skip(i).len() == 0);
                }
                break;
            },
            Some(ch) => {
                if utf8_count >= offset {
                    break;
                }
                proof {
                    assert(ch == s[i]);
                    lemma_byte_len_take_step(s, i);
                    assert(s =~= s.take(i + 1) + s.skip(i + 1));
                    lemma_byte_len_concat(s.take(i + 1), s.skip(i + 1));
                    lemma_utf16_len_concat(s.take(i + 1), s.skip(i + 1));
                    lemma_utf16_le_byte_len(s.take(i + 1));
                    assert(s.skip(i).drop_first() =~= s.skip(i + 1));
                }
                utf8_count = utf8_count + char_len_utf8(ch);
                utf16_offset = utf16_offset + char_len_utf16(ch);
                proof {
                    i = i + 1;
                }
            },
        }
    }
    utf16_offset
}

/// Every character start of `s` is a character boundary of its UTF-8 bytes.
pub proof fn lemma_char_start_is_boundary(s: Seq<char>, k: int)
    requires
        0 <= k <= s.len(),
    ensures
        is_char_boundary(encode_utf8(s), byte_len(s.take(k)) as int),
    decreases s.len(),
{
    encode_utf8_valid_utf8(s);
    if k == 0 {
        assert(s.take(0) =~= Seq::<char>::empty());
    } else {
        let bytes = encode_utf8(s);
        encode_utf8_first_scalar(s);
        lemma_utf8_width_encode(s[0]);
        assert(pop_first_scalar(bytes) =~= encode_utf8(s.drop_first()));
        assert(s.take(k).drop_first() =~= s.drop_first().take(k - 1));
        lemma_char_start_is_boundary(s.drop_first(), k - 1);
        assert(s =~= s.take(k) + s.skip(k));
        lemma_byte_len_concat(s.take(k), s.skip(k));
        lemma_encode_len(s);
    }
}

/// Splitting the bytes of `s` at the start of character `k` splits `s` itself there.
pub proof fn lemma_split_bytes(s: Seq<char>, k: int, left: Seq<char>, right: Seq<char>)
    requires
        0 <= k <= s.len(),
        encode_utf8(left) == encode_utf8(s).subrange(0, byte_len(s.take(k)) as int),
        encode_utf8(right) == encode_utf8(s).subrange(
            byte_len(s.take(k)) as int,
            encode_utf8(s).len() as int,
        ),
    ensures
        left == s.take(k),
        right == s.skip(k),
{
    assert(s =~= s.take(k) + s.skip(k));
    lemma_encode_concat(s.take(k), s.skip(k));
    lemma_encode_len(s.take(k));
    assert(encode_utf8(s).subrange(0, byte_len(s.take(k)) as int) =~= encode_utf8(s.take(k)));
    assert(encode_utf8(s).subrange(byte_len(s.take(k)) as int, encode_utf8(s).len() as int)
        =~= encode_utf8(s.skip(k)));
    encode_utf8_decode_utf8(left);
    encode_utf8_decode_utf8(right);
    encode_utf8_decode_utf8(s.take(k));
    encode_utf8_decode_utf8(s.skip(k));
}

/// The byte lengths of the prefixes of `s` grow with the prefix.
pub proof fn lemma_byte_len_take_mono(s: Seq<char>, i: int, j: int)
    requires
        0 <= i <= j <= s.len(),
    ensures
        byte_len(s.take(i)) <= byte_len(s.take(j)) <= byte_len(s),
        byte_len(s.take(j)) == byte_len(s.take(i)) + byte_len(s.subrange(i, j)),
        i < j ==> byte_len(s.take(i)) < byte_len(s.take(j)),
{
    assert(s.take(j) =~= s.take(i) + s.subrange(i, j));
    lemma_byte_len_concat(s.take(i), s.subrange(i, j));
    assert(s =~= s.take(j) + s.skip(j));
    lemma_byte_len_concat(s.take(j), s.skip(j));
    if i < j {
        lemma_utf8_width_encode(s[i]);
        assert(s.subrange(i, j).drop_first() =~= s.subrange(i + 1, j));
    }
}

/// Different prefixes of `s` have different byte lengths.
pub proof fn lemma_byte_len_take_injective(s: Seq<char>, i: int, j: int)
    requires
        0 <= i <= s.len(),
        0 <= j <= s.len(),
        byte_len(s.take(i)) == byte_len(s.take(j)),
    ensures
        i == j,
{
    if i < j {
        lemma_byte_len_take_mono(s, i, j);
    } else if j < i {
        lemma_byte_len_take_mono(s, j, i);
    }
}

/// The part of `text` between the starts of characters `i` and `j`, which lie
/// at bytes `start` and `end`.
pub(crate) fn slice_chars<'a>(
    text: &'a str,
    start: usize,
    end: usize,
    Ghost(i): Ghost<int>,
    Ghost(j): Ghost<int>,
) -> (r: &'a str)
    requires
        0 <= i <= j <= text@.len(),
        start == byte_len(text@.take(i)),
        end == byte_len(text@.take(j)),
    ensures
        r@ == text@.subrange(i, j),
{
    let ghost s = text@;
    proof {
        lemma_char_start_is_boundary(s, i);
        lemma_encode_len(s);
        lemma_byte_len_take_mono(s, i, j);
    }
    let (_head, tail) = text.split_at(start);
    proof {
        lemma_split_bytes(s, i, _head@, tail@);
        let t = s.skip(i);
        assert(s.take(j) =~= s.take(i) + t.take(j - i));
        lemma_byte_len_concat(s.take(i), t.take(j - i));
        lemma_char_start_is_boundary(t, j - i);
        lemma_encode_len(t);
        lemma_byte_len_take_mono(t, j - i, t.len() as int);
    }
    let (piece, _rest) = tail.split_at(end - start);
    proof {
        lemma_split_bytes(s.skip(i), j - i, piece@, _rest@);
        assert(s.skip(i).take(j - i) =~= s.subrange(i, j));
    }
    piece
}

/// The byte offset reached from a UTF-16 offset is the start of a character.
pub proof fn lemma_utf16_offset_is_char_start(s: Seq<char>, offset: int) -> (k: int)
    ensures
        0 <= k <= s.len(),
        utf8_offset_of_utf16(s, offset) == byte_len(s.take(k)),
    decreases s.len(),
{
    if s.len() == 0 || offset <= 0 {
        assert(s.take(0) =~= Seq::<char>::empty());
        0
    } else {
        let k1 = lemma_utf16_offset_is_char_start(s.drop_first(), offset - utf16_width(s[0]));
        assert(s.take(k1 + 1).drop_first() =~= s.drop_first().take(k1));
        k1 + 1
    }
}

/// Both offset conversions grow with the offset.
pub proof fn lemma_offset_conversions_monotonic(s: Seq<char>, a: int, b: int)
    requires
        a <= b,
    ensures
        utf8_offset_of_utf16(s, a) <= utf8_offset_of_utf16(s, b),
        utf16_offset_of_utf8(s, a) <= utf16_offset_of_utf8(s, b),
    decreases s.len(),
{
    if s.len() > 0 && a > 0 {
        lemma_offset_conversions_monotonic(s.drop_first(), a - utf16_width(s[0]), b - utf16_width(s[0]));
        lemma_offset_conversions_monotonic(s.drop_first(), a - utf8_width(s[0]), b - utf8_width(s[0]));
    }
}

/// From the start of character `k`, the UTF-16 offset is that of the first
/// `k` characters.
pub proof fn lemma_utf16_offset_at_char_start(s: Seq<char>, k: int)
    requires
        0 <= k <= s.len(),
    ensures
        utf16_offset_of_utf8(s, byte_len(s.take(k)) as int) == utf16_len(s.take(k)),
    decreases k,
{
    if k == 0 {
        assert(s.take(0) =~= Seq::<char>::empty());
    } else {
        lemma_utf8_width_encode(s[0]);
        assert(s.take(k).drop_first() =~= s.drop_first().take(k - 1));
        lemma_utf16_offset_at_char_start(s.drop_first(), k - 1);
    }
}

/// From the UTF-16 offset of the first `k` characters, the byte offset is
/// the start of character `k`.
pub proof fn lemma_utf8_offset_at_char_start(s: Seq<char>, k: int)
    requires
        0 <= k <= s.len(),
    ensures
        utf8_offset_of_utf16(s, utf16_len(s.take(k)) as int) == byte_len(s.take(k)),
    decreases k,
{
    if k == 0 {
        assert(s.take(0) =~= Seq::<char>::empty());
    } else {
        lemma_utf8_width_encode(s[0]);
        assert(s.take(k).drop_first() =~= s.drop_first().take(k - 1));
        lemma_utf8_offset_at_char_start(s.drop_first(), k - 1);
    }
}

/// Converting a byte offset that starts a character to UTF-16 and back gives
/// it again.
pub proof fn law_utf16_round_trip_from_bytes(s: Seq<char>, offset: int)
    requires
        is_char_start(s, offset),
    ensures
        utf8_offset_of_utf16(s, utf16_offset_of_utf8(s, offset) as int) == offset,
{
    let k = choose|k: int| 0 <= k <= s.len() && offset == byte_len(#[trigger] s.take(k));
    lemma_utf16_offset_at_char_start(s, k);
    lemma_utf8_offset_at_char_start(s, k);
}

/// Converting a UTF-16 offset that starts a character to bytes and back gives
/// it again.
pub proof fn law_utf16_round_trip_from_utf16(s: Seq<char>, k: int)
    requires
        0 <= k <= s.len(),
    ensures
        utf16_offset_of_utf8(s, utf8_offset_of_utf16(s, utf16_len(s.take(k)) as int) as int)
            == utf16_len(s.take(k)),
{
    lemma_utf16_offset_at_char_start(s, k);
    lemma_utf8_offset_at_char_start(s, k);
}

/// `String::from_iter` over characters: a string of exactly these characters
/// in this order, as the standard library documents.
#[verifier::external_body]
pub(crate) fn string_from_chars(chars: &Vec<char>) -> (s: String)
    ensures
        s@ == chars@,
{
    chars.iter().collect()
}

/// The characters of `text`, in order.
pub fn str_chars(text: &str) -> (r: Vec<char>)
    ensures
        r@ == text@,
{
    let ghost s = text@;
    let mut out: Vec<char> = Vec::new();
    let mut chars = text.chars();
    let ghost mut i: int = 0;
    proof {
        axiom_spec_iter(text);
        assert(s.skip(0) =~= s);
    }
    loop
        invariant_except_break
            vstd::std_specs::iter::IteratorSpec::remaining(&chars) == s.skip(i),
        invariant
            0 <= i <= s.len(),
            s == text@,
            out@ == s.take(i),
        ensures
            out@ == s,
        decreases s.len() - i,
    {
        let next = chars.next();
        match next {
            None => {
                proof {
                    assert(s.skip(i).len() == 0);
                    assert(s.take(i) =~= s);
                }
                break;
            },
            Some(ch) => {
                proof {
                    assert(ch == s[i]);
                }
                out.push(ch);
                proof {
                    assert(out@ =~= s.take(i + 1));
                    i = i + 1;
                }
            },
        }
    }
    out
}

/// The two texts are the same.
pub fn str_eq(a: &str, b: &str) -> (r: bool)
    ensures
        r == (a@ == b@),
{
    let x = str_chars(a);
    let y = str_chars(b);
    if x.len() != y.len() {
        return false;
    }
    let mut i: usize = 0;
    while i < x.len()
        invariant
            x@ == a@,
            y@ == b@,
            x@.len() == y@.len(),
            i <= x@.len(),
            forall|k: int| 0 <= k < i ==> x@[k] == y@[k],
        decreases x@.len() - i,
    {
        if x[i] != y[i] {
            return false;
        }
        i = i + 1;
    }
    proof {
        assert(x@ =~= y@);
    }
    true
}

} // verus!

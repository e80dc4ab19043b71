use vstd::prelude::*;
use vstd::utf8::{
    char_u32_cast, decode_utf8, encode_scalar, encode_utf8, encode_utf8_decode_utf8, encode_utf8_valid_utf8,
    valid_utf8,
};

verus! {

/// The decimal digit character for `d`.
pub open spec fn digit_char(d: nat) -> char {
    if d == 0 { '0' }
    else if d == 1 { '1' }
    else if d == 2 { '2' }
    else if d == 3 { '3' }
    else if d == 4 { '4' }
    else if d == 5 { '5' }
    else if d == 6 { '6' }
    else if d == 7 { '7' }
    else if d == 8 { '8' }
    else { '9' }
}

/// The shortest decimal representation of `n`, without sign or leading zeros.
pub open spec fn decimal(n: nat) -> Seq<char>
    decreases n,
{
    if n < 10 {
        seq![digit_char(n)]
    } else {
        decimal(n / 10).push(digit_char(n % 10))
    }
}

fn digit_str(d: u64) -> (s: &'static str)
    requires
        d < 10,
    ensures
        s@ == seq![digit_char(d as nat)],
{
    proof {
        reveal_strlit("0");
        reveal_strlit("1");
        reveal_strlit("2");
        reveal_strlit("3");
        reveal_strlit("4");
        reveal_strlit("5");
        reveal_strlit("6");
        reveal_strlit("7");
        reveal_strlit("8");
        reveal_strlit("9");
    }
    if d == 0 { "0" }
    else if d == 1 { "1" }
    else if d == 2 { "2" }
    else if d == 3 { "3" }
    else if d == 4 { "4" }
    else if d == 5 { "5" }
    else if d == 6 { "6" }
    else if d == 7 { "7" }
    else if d == 8 { "8" }
    else { "9" }
}

/// Appends the decimal representation of `n` to `out`.
pub fn push_decimal(out: &mut String, n: u64)
    ensures
        final(out)@ == old(out)@ + decimal(n as nat),
    decreases n,
{
    let ghost before = out@;
    if n >= 10 {
        push_decimal(out, n / 10);
        out.append(digit_str(n % 10));
        assert(decimal(n as nat) == decimal((n / 10) as nat).push(digit_char((n % 10) as nat)));
        assert(out@ =~= before + decimal(n as nat));
    } else {
        out.append(digit_str(n));
        assert(out@ =~= before + decimal(n as nat));
    }
}


// ---------------------------------------------------------------------------------------
// Bytes

/// The position of the first `c` in `s`.
pub open spec fn index_of(s: Seq<u8>, c: u8) -> Option<int>
    decreases s.len(),
{
    if s.len() == 0 {
        None
    } else if s[0] == c {
        Some(0)
    } else {
        match index_of(s.drop_first(), c) {
            Some(i) => Some(i + 1),
            None => None,
        }
    }
}

/// The part of `s` before the first `c`, or all of `s` if there is none.
pub open spec fn before(s: Seq<u8>, c: u8) -> Seq<u8> {
    match index_of(s, c) {
        Some(i) => s.take(i),
        None => s,
    }
}

/// The part of `s` after the first `c`, if there is one.
pub open spec fn after(s: Seq<u8>, c: u8) -> Option<Seq<u8>> {
    match index_of(s, c) {
        Some(i) => Some(s.skip(i + 1)),
        None => None,
    }
}

pub proof fn lemma_index_of(s: Seq<u8>, c: u8)
    ensures
        match index_of(s, c) {
            Some(i) => 0 <= i < s.len() && s[i] == c && forall|j: int| 0 <= j < i ==> s[j] != c,
            None => forall|j: int| 0 <= j < s.len() ==> s[j] != c,
        },
    decreases s.len(),
{
    if s.len() > 0 {
        lemma_index_of(s.drop_first(), c);
        if s[0] != c {
            match index_of(s.drop_first(), c) {
                Some(i) => {
                    assert forall|j: int| 0 <= j < i + 1 implies s[j] != c by {
                        if j > 0 {
                            assert(s[j] == s.drop_first()[j - 1]);
                        }
                    }
                },
                None => {
                    assert forall|j: int| 0 <= j < s.len() implies s[j] != c by {
                        if j > 0 {
                            assert(s[j] == s.drop_first()[j - 1]);
                        }
                    }
                },
            }
        }
    }
}

/// The first `c` in `s` is at `i` exactly when `s[i]` is `c` and nothing before it is.
pub proof fn lemma_index_of_unique(s: Seq<u8>, c: u8, i: int)
    requires
        0 <= i < s.len(),
        s[i] == c,
        forall|j: int| 0 <= j < i ==> s[j] != c,
    ensures
        index_of(s, c) == Some(i),
{
    lemma_index_of(s, c);
}

/// No `c` in `s` means no first `c`.
pub proof fn lemma_index_of_none(s: Seq<u8>, c: u8)
    requires
        forall|j: int| 0 <= j < s.len() ==> s[j] != c,
    ensures
        index_of(s, c) is None,
{
    lemma_index_of(s, c);
}

/// Finds the first `c` in `b[start..end]`, returning its position in `b`.
pub fn find_byte(b: &[u8], start: usize, end: usize, c: u8) -> (r: Option<usize>)
    requires
        start <= end <= b@.len(),
    ensures
        match index_of(b@.subrange(start as int, end as int), c) {
            Some(i) => r == Some((start + i) as usize),
            None => r is None,
        },
        r matches Some(k) ==> start <= k < end && b@[k as int] == c,
{
    let ghost s = b@.subrange(start as int, end as int);
    let mut i = start;
    while i < end
        invariant
            start <= i <= end <= b@.len(),
            s == b@.subrange(start as int, end as int),
            forall|j: int| start <= j < i ==> b@[j] != c,
        decreases end - i,
    {
        if b[i] == c {
            proof {
                assert forall|j: int| 0 <= j < i - start implies s[j] != c by {
                    assert(s[j] == b@[start + j]);
                }
                lemma_index_of_unique(s, c, i - start);
            }
            return Some(i);
        }
        i += 1;
    }
    proof {
        assert forall|j: int| 0 <= j < s.len() implies s[j] != c by {
            assert(s[j] == b@[start + j]);
        }
        lemma_index_of_none(s, c);
    }
    None
}

/// True if every byte of `s` is an ASCII digit.
pub open spec fn all_digits(s: Seq<u8>) -> bool {
    forall|i: int| 0 <= i < s.len() ==> 48 <= #[trigger] s[i] <= 57
}

/// The value of a string of decimal digits.
pub open spec fn digits_value(s: Seq<u8>) -> nat
    decreases s.len(),
{
    if s.len() == 0 {
        0
    } else {
        digits_value(s.drop_last()) * 10 + (s.last() - 48) as nat
    }
}

/// Parses an unsigned 32-bit integer the way Rust's `u32::from_str` does: an optional `+`
/// followed by one or more decimal digits, with a value that fits in 32 bits.
pub open spec fn spec_parse_u32(s: Seq<u8>) -> Option<u32> {
    let d = if s.len() > 0 && s[0] == 43 { s.drop_first() } else { s };
    if d.len() == 0 || !all_digits(d) || digits_value(d) > u32::MAX {
        None
    } else {
        Some(digits_value(d) as u32)
    }
}

proof fn lemma_digits_prefix_grows(s: Seq<u8>, i: int)
    requires
        0 <= i <= s.len(),
        all_digits(s),
    ensures
        digits_value(s.take(i)) <= digits_value(s),
    decreases s.len() - i,
{
    if i < s.len() {
        lemma_digits_prefix_grows(s, i + 1);
        assert(s.take(i + 1).drop_last() =~= s.take(i));
    } else {
        assert(s.take(i) =~= s);
    }
}

/// Parses `b[start..end]` as an unsigned 32-bit integer, as [`spec_parse_u32`] describes.
pub fn parse_u32(b: &[u8], start: usize, end: usize) -> (r: Option<u32>)
    requires
        start <= end <= b@.len(),
    ensures
        r == spec_parse_u32(b@.subrange(start as int, end as int)),
{
    let ghost s = b@.subrange(start as int, end as int);
    let mut first = start;
    if start < end && b[start] == 43 {
        first = start + 1;
    }
    let ghost d = b@.subrange(first as int, end as int);
    assert(d =~= (if s.len() > 0 && s[0] == 43 { s.drop_first() } else { s }));
    if first == end {
        return None;
    }
    let mut value: u32 = 0;
    let mut i = first;
    while i < end
        invariant
            start <= first <= i <= end <= b@.len(),
            first < end,
            d == b@.subrange(first as int, end as int),
            s == b@.subrange(start as int, end as int),
            d =~= (if s.len() > 0 && s[0] == 43 { s.drop_first() } else { s }),
            all_digits(d.take(i - first)),
            value == digits_value(d.take(i - first)),
        decreases end - i,
    {
        let c = b[i];
        assert(d.take(i - first + 1).drop_last() =~= d.take(i - first));
        assert(d[i - first] == c);
        if c < 48 || c > 57 {
            assert(!all_digits(d));
            return None;
        }
        let next: u64 = value as u64 * 10 + (c - 48) as u64;
        if next > u32::MAX as u64 {
            proof {
                assert(all_digits(d.take(i - first + 1)));
                if all_digits(d) {
                    lemma_digits_prefix_grows(d, i - first + 1);
                }
            }
            return None;
        }
        value = next as u32;
        i += 1;
    }
    assert(d.take(end - first) =~= d);
    Some(value)
}


// ---------------------------------------------------------------------------------------
// UTF-8

/// Checks and decodes UTF-8 with `std::str::from_utf8`.
///
/// Trusted: the standard library documents that `from_utf8` succeeds exactly on valid UTF-8,
/// returning the same bytes viewed as a string. The contract states that with vstd's model
/// of UTF-8 validity and decoding.
#[verifier::external_body]
pub(crate) fn str_from_utf8(bytes: &[u8]) -> (r: Option<&str>)
    ensures
        r is Some <==> valid_utf8(bytes@),
        r matches Some(s) ==> s@ == decode_utf8(bytes@),
{
    std::str::from_utf8(bytes).ok()
}

/// The text that `String::from_utf8_lossy` makes of `bytes`, replacing invalid sequences
/// with U+FFFD.
pub uninterp spec fn lossy_utf8(bytes: Seq<u8>) -> Seq<char>;

/// Decodes UTF-8 with `String::from_utf8_lossy`, replacing invalid sequences.
///
/// Trusted: the result is named [`lossy_utf8`] of the bytes. The standard library documents
/// that valid UTF-8 is returned as is, which the contract states; how invalid sequences are
/// replaced is left to the name.
#[verifier::external_body]
pub(crate) fn string_from_utf8_lossy(bytes: &[u8]) -> (s: String)
    ensures
        s@ == lossy_utf8(bytes@),
        valid_utf8(bytes@) ==> s@ == decode_utf8(bytes@),
{
    String::from_utf8_lossy(bytes).into_owned()
}


// ---------------------------------------------------------------------------------------
// UTF-8 encoding of text built by this crate

/// Encoding a concatenation encodes each part in turn.
pub proof fn lemma_encode_append(a: Seq<char>, b: Seq<char>)
    ensures
        encode_utf8(a + b) == encode_utf8(a) + encode_utf8(b),
    decreases a.len(),
{
    if a.len() == 0 {
        assert(a + b =~= b);
        assert(encode_utf8(a) + encode_utf8(b) =~= encode_utf8(b));
    } else {
        assert((a + b).drop_first() =~= a.drop_first() + b);
        assert((a + b)[0] == a[0]);
        lemma_encode_append(a.drop_first(), b);
        assert(encode_utf8(a + b) =~= encode_utf8(a) + encode_utf8(b));
    }
}

proof fn lemma_low_bits(v: u32)
    by (bit_vector)
    requires
        v <= 0x7F,
    ensures
        (v & 0x7F) == v,
{
}

/// An ASCII character is encoded as the one byte with its code.
pub proof fn lemma_encode_ascii(c: char)
    requires
        (c as u32) < 128,
    ensures
        encode_utf8(seq![c]) == seq![c as u32 as u8],
{
    lemma_low_bits(c as u32);
    assert(seq![c].drop_first() =~= Seq::<char>::empty());
    assert(encode_utf8(seq![c]) =~= encode_scalar(c as u32) + encode_utf8(Seq::<char>::empty()));
}

proof fn lemma_high_bytes(y: u8)
    by (bit_vector)
    ensures
        (0x80u8 | y) >= 0x80,
        (0xC0u8 | y) >= 0x80,
        (0xE0u8 | y) >= 0x80,
        (0xF0u8 | y) >= 0x80,
{
}

/// A character other than the ASCII character `c` encodes to bytes none of which is `c`.
proof fn lemma_encode_scalar_avoids(v: u32, c: u8)
    requires
        c < 128,
        v != c as u32,
    ensures
        forall|j: int| 0 <= j < encode_scalar(v).len() ==> encode_scalar(v)[j] != c,
{
    lemma_high_bytes(((v >> 6) & 0x1F) as u8);
    lemma_high_bytes(((v >> 12) & 0x0F) as u8);
    lemma_high_bytes(((v >> 18) & 0x7) as u8);
    lemma_high_bytes((v & 0x3F) as u8);
    lemma_high_bytes(((v >> 6) & 0x3F) as u8);
    lemma_high_bytes(((v >> 12) & 0x3F) as u8);
    if v <= 0x7F {
        lemma_low_bits(v);
    }
}

/// Text without the ASCII character `c` encodes to bytes without `c`.
pub proof fn lemma_encode_avoids(chars: Seq<char>, c: u8)
    requires
        c < 128,
        forall|i: int| 0 <= i < chars.len() ==> chars[i] as u32 != c as u32,
    ensures
        forall|j: int| 0 <= j < encode_utf8(chars).len() ==> encode_utf8(chars)[j] != c,
    decreases chars.len(),
{
    if chars.len() > 0 {
        let rest = chars.drop_first();
        lemma_encode_scalar_avoids(chars[0] as u32, c);
        assert forall|i: int| 0 <= i < rest.len() implies rest[i] as u32 != c as u32 by {
            assert(rest[i] == chars[i + 1]);
        }
        lemma_encode_avoids(rest, c);
        let e = encode_scalar(chars[0] as u32);
        assert forall|j: int| 0 <= j < encode_utf8(chars).len() implies encode_utf8(chars)[j]
            != c by {
            if j >= e.len() {
                assert(encode_utf8(chars)[j] == encode_utf8(rest)[j - e.len()]);
            }
        }
    }
}

/// The encoded decimal representation of `n`: its digits, which read back as `n`.
pub proof fn lemma_encode_decimal(n: nat)
    ensures
        encode_utf8(decimal(n)).len() > 0,
        all_digits(encode_utf8(decimal(n))),
        digits_value(encode_utf8(decimal(n))) == n,
    decreases n,
{
    let d = digit_char(n % 10);
    assert(d as u32 == 48 + n % 10);
    lemma_encode_ascii(d);
    assert(((48 + n % 10) as u8) as int == 48 + n % 10);
    if n < 10 {
        assert(n % 10 == n);
        let e = encode_utf8(decimal(n));
        assert(e =~= seq![(48 + n % 10) as u8]);
        assert(e.drop_last() =~= Seq::<u8>::empty());
        assert(digits_value(e) == digits_value(e.drop_last()) * 10 + (e.last() - 48) as nat);
    } else {
        lemma_encode_decimal(n / 10);
        let prev = encode_utf8(decimal(n / 10));
        lemma_encode_append(decimal(n / 10), seq![d]);
        assert(decimal(n / 10).push(d) =~= decimal(n / 10) + seq![d]);
        let e = encode_utf8(decimal(n));
        assert(e =~= prev.push((48 + n % 10) as u8));
        assert(e.drop_last() =~= prev);
        assert(digits_value(e) == digits_value(prev) * 10 + (e.last() - 48) as nat);
        assert((n / 10) * 10 + n % 10 == n);
    }
}


/// ASCII text encodes to its character codes, one byte each.
pub proof fn lemma_encode_all_ascii(chars: Seq<char>)
    requires
        forall|i: int| 0 <= i < chars.len() ==> (chars[i] as u32) < 128,
    ensures
        encode_utf8(chars) == chars.map_values(|c: char| c as u32 as u8),
    decreases chars.len(),
{
    if chars.len() > 0 {
        let rest = chars.drop_first();
        assert forall|i: int| 0 <= i < rest.len() implies (rest[i] as u32) < 128 by {
            assert(rest[i] == chars[i + 1]);
        }
        lemma_encode_all_ascii(rest);
        lemma_encode_ascii(chars[0]);
        lemma_encode_append(seq![chars[0]], rest);
        assert(chars =~= seq![chars[0]] + rest);
        assert(encode_utf8(chars) =~= chars.map_values(|c: char| c as u32 as u8));
    } else {
        assert(encode_utf8(chars) =~= chars.map_values(|c: char| c as u32 as u8));
    }
}


/// `chars` without its trailing NUL characters.
pub open spec fn trim_nul(chars: Seq<char>) -> Seq<char>
    decreases chars.len(),
{
    if chars.len() > 0 && chars.last() == '\0' {
        trim_nul(chars.drop_last())
    } else {
        chars
    }
}

/// Trimming keeps a prefix, drops only NULs, and leaves no NUL at the end.
pub proof fn lemma_trim_nul(chars: Seq<char>)
    ensures
        trim_nul(chars).len() <= chars.len(),
        chars.take(trim_nul(chars).len() as int) == trim_nul(chars),
        forall|i: int| trim_nul(chars).len() <= i < chars.len() ==> chars[i] == '\0',
        trim_nul(chars).len() > 0 ==> trim_nul(chars).last() != '\0',
    decreases chars.len(),
{
    if chars.len() > 0 && chars.last() == '\0' {
        lemma_trim_nul(chars.drop_last());
        let t = trim_nul(chars);
        assert(chars.take(t.len() as int) =~= chars.drop_last().take(t.len() as int));
        assert forall|i: int| t.len() <= i < chars.len() implies chars[i] == '\0' by {
            if i < chars.len() - 1 {
                assert(chars[i] == chars.drop_last()[i]);
            }
        }
    } else {
        assert(chars.take(chars.len() as int) =~= chars);
    }
}

/// The encoding of text ends in a zero byte only if the text ends in NUL.
proof fn lemma_encode_last_nonzero(chars: Seq<char>)
    requires
        chars.len() > 0,
        chars.last() != '\0',
    ensures
        encode_utf8(chars).len() > 0,
        encode_utf8(chars).last() != 0,
{
    let init = chars.drop_last();
    let c = chars.last();
    assert(chars =~= init + seq![c]);
    lemma_encode_append(init, seq![c]);
    assert(seq![c].drop_first() =~= Seq::<char>::empty());
    let e = encode_scalar(c as u32);
    assert(encode_utf8(seq![c]) =~= e + encode_utf8(Seq::<char>::empty()));
    if (c as u32) == 0 {
        char_u32_cast(c, 0u32);
        char_u32_cast('\0', 0u32);
    }
    lemma_encode_scalar_avoids(c as u32, 0u8);
    assert(e.len() > 0);
    assert(encode_utf8(chars).last() == e.last());
}

/// Removing the trailing zero bytes of encoded text encodes the text without its trailing
/// NULs.
pub proof fn lemma_encode_trim_nul(chars: Seq<char>)
    ensures
        encode_utf8(chars).len() >= encode_utf8(trim_nul(chars)).len(),
        encode_utf8(chars).take(encode_utf8(trim_nul(chars)).len() as int) == encode_utf8(
            trim_nul(chars),
        ),
        forall|i: int|
            encode_utf8(trim_nul(chars)).len() <= i < encode_utf8(chars).len() ==> encode_utf8(
                chars,
            )[i] == 0,
        encode_utf8(trim_nul(chars)).len() > 0 ==> encode_utf8(trim_nul(chars)).last() != 0,
{
    lemma_trim_nul(chars);
    let t = trim_nul(chars);
    let rest = chars.skip(t.len() as int);
    assert(chars =~= t + rest);
    lemma_encode_append(t, rest);
    assert forall|i: int| 0 <= i < rest.len() implies (rest[i] as u32) < 128 && rest[i] as u32
        == 0 by {
        assert(rest[i] == chars[t.len() + i]);
    }
    lemma_encode_all_ascii(rest);
    let et = encode_utf8(t);
    assert(encode_utf8(chars).take(et.len() as int) =~= et);
    if t.len() > 0 {
        lemma_encode_last_nonzero(t);
    }
}

/// A sequence of ASCII bytes at the start of encoded text is the encoding of as many
/// characters at the start of the text.
pub proof fn lemma_ascii_prefix(chars: Seq<char>, w: Seq<u8>)
    requires
        forall|i: int| 0 <= i < w.len() ==> w[i] < 128,
        encode_utf8(chars).len() >= w.len(),
        encode_utf8(chars).take(w.len() as int) == w,
    ensures
        chars.len() >= w.len(),
        forall|i: int| 0 <= i < w.len() ==> chars[i] as u32 == w[i] as u32,
    decreases w.len(),
{
    if w.len() > 0 {
        let e = encode_utf8(chars);
        assert(chars.len() > 0) by {
            if chars.len() == 0 {
                assert(e.len() == 0);
            }
        }
        let c = chars[0];
        let s = encode_scalar(c as u32);
        let rest = chars.drop_first();
        assert(e == s + encode_utf8(rest));
        assert(e[0] == w[0]);
        if c as u32 != w[0] as u32 {
            lemma_encode_scalar_avoids(c as u32, w[0]);
            assert(s[0] != w[0]);
        }
        assert(c as u32 == w[0] as u32);
        lemma_low_bits(c as u32);
        assert(s =~= seq![w[0]]);
        let w2 = w.drop_first();
        assert(encode_utf8(rest).take(w2.len() as int) =~= w2) by {
            assert forall|j: int| 0 <= j < w2.len() implies encode_utf8(rest)[j] == w2[j] by {
                assert(e[j + 1] == encode_utf8(rest)[j]);
                assert(e.take(w.len() as int)[j + 1] == w[j + 1]);
            }
        }
        lemma_ascii_prefix(rest, w2);
        assert forall|i: int| 0 <= i < w.len() implies chars[i] as u32 == w[i] as u32 by {
            if i > 0 {
                assert(chars[i] == rest[i - 1]);
                assert(w[i] == w2[i - 1]);
            }
        }
    }
}

/// Compares two strings.
pub fn str_equal(a: &str, b: &str) -> (r: bool)
    ensures
        r == (a@ == b@),
{
    let x = a.as_bytes();
    let y = b.as_bytes();
    proof {
        encode_utf8_decode_utf8(a@);
        encode_utf8_decode_utf8(b@);
    }
    if x.len() != y.len() {
        return false;
    }
    let mut i: usize = 0;
    while i < x.len()
        invariant
            x@.len() == y@.len(),
            x@ == encode_utf8(a@),
            y@ == encode_utf8(b@),
            i <= x@.len(),
            forall|j: int| 0 <= j < i ==> x@[j] == y@[j],
        decreases x.len() - i,
    {
        if x[i] != y[i] {
            return false;
        }
        i += 1;
    }
    assert(x@ =~= y@);
    true
}

} // verus!

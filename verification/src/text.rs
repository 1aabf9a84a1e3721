//! Byte and string primitives that the translation pipeline is built from:
//! comparison, prefix stripping and substring substitution.
//!
//! Strings are viewed as sequences of characters, byte slices as sequences of
//! bytes. The functions on `&str` work on the UTF-8 bytes and carry the result
//! back to the character view.
use vstd::prelude::*;
use vstd::slice::slice_subrange;
use vstd::string::*;
use vstd::utf8::*;

verus! {

/// `s` with every non-overlapping occurrence of `from`, found left to right,
/// replaced by `to`. An empty `from` matches before every element and once
/// at the end.
pub open spec fn replace_all<T>(s: Seq<T>, from: Seq<T>, to: Seq<T>) -> Seq<T>
    decreases s.len(),
{
    if from.len() == 0 {
        if s.len() == 0 {
            to
        } else {
            to + seq![s[0]] + replace_all(s.skip(1), from, to)
        }
    } else if s.len() < from.len() {
        s
    } else if from.is_prefix_of(s) {
        to + replace_all(s.skip(from.len() as int), from, to)
    } else {
        seq![s[0]] + replace_all(s.skip(1), from, to)
    }
}

/// The characters of an ASCII byte sequence.
pub open spec fn ascii_chars(bytes: Seq<u8>) -> Seq<char> {
    Seq::new(bytes.len(), |i: int| bytes[i] as char)
}

/// Whether every byte is below 128.
pub open spec fn is_ascii_bytes(bytes: Seq<u8>) -> bool {
    forall|i: int| 0 <= i < bytes.len() ==> #[trigger] bytes[i] < 128
}

/// Encoding distributes over concatenation.
pub proof fn lemma_encode_concat(a: Seq<char>, b: Seq<char>)
    ensures
        encode_utf8(a + b) == encode_utf8(a) + encode_utf8(b),
    decreases a.len(),
{
    if a.len() == 0 {
        assert(a + b =~= b);
        assert(encode_utf8(a) + encode_utf8(b) =~= encode_utf8(b));
    } else {
        lemma_encode_concat(a.drop_first(), b);
        assert((a + b).drop_first() =~= a.drop_first() + b);
        assert(encode_utf8(a + b) =~= encode_utf8(a) + encode_utf8(b));
    }
}

/// Two strings with the same encoding are the same string.
pub proof fn lemma_encode_injective(a: Seq<char>, b: Seq<char>)
    requires
        encode_utf8(a) == encode_utf8(b),
    ensures
        a == b,
{
    encode_utf8_decode_utf8(a);
    encode_utf8_decode_utf8(b);
}

/// A well-formed prefix of a well-formed byte string ends on a character
/// boundary of that string.
proof fn lemma_prefix_boundary(bytes: Seq<u8>, prefix: Seq<u8>)
    requires
        valid_utf8(bytes),
        valid_utf8(prefix),
        prefix.is_prefix_of(bytes),
    ensures
        is_char_boundary(bytes, prefix.len() as int),
    decreases prefix.len(),
{
    if prefix.len() != 0 {
        let n = length_of_first_scalar(prefix);
        assert(valid_first_scalar(prefix));
        assert(forall|i: int| 0 <= i < prefix.len() ==> prefix[i] == bytes[i]);
        assert(n == length_of_first_scalar(bytes));
        assert(1 <= n <= prefix.len());
        assert(pop_first_scalar(prefix).is_prefix_of(pop_first_scalar(bytes)));
        lemma_prefix_boundary(pop_first_scalar(bytes), pop_first_scalar(prefix));
    }
}

/// The characters after a prefix that matches on the encoded bytes.
proof fn lemma_split_after_prefix(s: Seq<char>, prefix: Seq<char>, rest: Seq<char>)
    requires
        encode_utf8(prefix).is_prefix_of(encode_utf8(s)),
        encode_utf8(rest) == encode_utf8(s).subrange(
            encode_utf8(prefix).len() as int,
            encode_utf8(s).len() as int,
        ),
    ensures
        s == prefix + rest,
{
    let sb = encode_utf8(s);
    let pb = encode_utf8(prefix);
    encode_utf8_valid_utf8(s);
    encode_utf8_valid_utf8(prefix);
    lemma_prefix_boundary(sb, pb);
    decode_utf8_split(sb, pb.len() as int);
    assert(sb.subrange(0, pb.len() as int) =~= pb);
    encode_utf8_decode_utf8(s);
    encode_utf8_decode_utf8(prefix);
    encode_utf8_decode_utf8(rest);
}

/// ASCII bytes are the encoding of their own characters.
pub proof fn lemma_ascii_encoding(bytes: Seq<u8>)
    requires
        is_ascii_bytes(bytes),
    ensures
        encode_utf8(ascii_chars(bytes)) == bytes,
        valid_utf8(bytes),
{
    let chars = ascii_chars(bytes);
    assert(is_ascii_chars(chars)) by {
        assert forall|i: int| 0 <= i < chars.len() implies '\0' <= #[trigger] chars[i]
            <= '\u{7f}' by {
            assert(bytes[i] < 128);
        }
    }
    is_ascii_chars_encode_utf8(chars);
    assert forall|i: int| 0 <= i < bytes.len() implies encode_utf8(chars)[i] == bytes[i] by {
        assert(bytes[i] < 128);
        assert(chars[i] as u8 == bytes[i]);
    }
    assert(encode_utf8(chars) =~= bytes);
    encode_utf8_valid_utf8(chars);
}

/// Whether two byte strings are equal.
pub fn bytes_eq(a: &[u8], b: &[u8]) -> (r: bool)
    ensures
        r == (a@ == b@),
{
    if a.len() != b.len() {
        return false;
    }
    let mut i: usize = 0;
    while i < a.len()
        invariant
            i <= a.len(),
            a.len() == b.len(),
            forall|j: int| 0 <= j < i ==> a@[j] == b@[j],
        decreases a.len() - i,
    {
        if a[i] != b[i] {
            return false;
        }
        i += 1;
    }
    assert(a@ =~= b@);
    true
}

/// Whether `s` begins with `prefix`.
pub fn bytes_start_with(s: &[u8], prefix: &[u8]) -> (r: bool)
    ensures
        r == prefix@.is_prefix_of(s@),
{
    if prefix.len() > s.len() {
        return false;
    }
    let mut i: usize = 0;
    while i < prefix.len()
        invariant
            i <= prefix.len() <= s.len(),
            forall|j: int| 0 <= j < i ==> s@[j] == prefix@[j],
        decreases prefix.len() - i,
    {
        if s[i] != prefix[i] {
            assert(s@.subrange(0, prefix@.len() as int)[i as int] != prefix@[i as int]);
            return false;
        }
        i += 1;
    }
    assert(prefix@ =~= s@.subrange(0, prefix@.len() as int));
    true
}

/// Whether `s` holds `pattern` at position `at`. No position beyond the end
/// of `s` holds a pattern.
pub fn bytes_match_at(s: &[u8], at: usize, pattern: &[u8]) -> (r: bool)
    ensures
        r == (at <= s@.len() && pattern@.is_prefix_of(s@.skip(at as int))),
{
    if at > s.len() {
        return false;
    }
    let tail = slice_subrange(s, at, s.len());
    assert(tail@ =~= s@.skip(at as int));
    bytes_start_with(tail, pattern)
}

/// Appends `src` to `out`.
pub fn append_bytes(out: &mut Vec<u8>, src: &[u8])
    ensures
        final(out)@ == old(out)@ + src@,
{
    let mut i: usize = 0;
    while i < src.len()
        invariant
            i <= src.len(),
            out@ == old(out)@ + src@.take(i as int),
        decreases src.len() - i,
    {
        out.push(src[i]);
        assert(src@.take(i as int + 1) =~= src@.take(i as int).push(src@[i as int]));
        i += 1;
    }
    assert(src@.take(src@.len() as int) =~= src@);
}

/// Replaces every occurrence of `from` in `s` by `to`.
pub fn replace_bytes(s: &[u8], from: &[u8], to: &[u8]) -> (r: Vec<u8>)
    ensures
        r@ == replace_all(s@, from@, to@),
{
    let mut out: Vec<u8> = Vec::new();
    let mut i: usize = 0;
    assert(s@.skip(0) =~= s@);
    while i < s.len()
        invariant
            i <= s.len(),
            out@ + replace_all(s@.skip(i as int), from@, to@) == replace_all(s@, from@, to@),
        decreases s.len() - i,
    {
        let ghost tail = s@.skip(i as int);
        let ghost before = out@;
        assert(tail.len() > 0);
        assert(tail[0] == s@[i as int]);
        if from.len() == 0 {
            append_bytes(&mut out, to);
            out.push(s[i]);
            assert(tail.skip(1) =~= s@.skip(i as int + 1));
            assert(out@ + replace_all(tail.skip(1), from@, to@) =~= before + replace_all(
                tail,
                from@,
                to@,
            ));
            i += 1;
        } else if bytes_match_at(s, i, from) {
            append_bytes(&mut out, to);
            assert(tail.skip(from@.len() as int) =~= s@.skip(i as int + from@.len()));
            assert(out@ + replace_all(tail.skip(from@.len() as int), from@, to@) =~= before
                + replace_all(tail, from@, to@));
            i += from.len();
        } else {
            out.push(s[i]);
            assert(tail.skip(1) =~= s@.skip(i as int + 1));
            proof {
                if tail.len() < from@.len() {
                    lemma_replace_short(tail, from@, to@);
                }
            }
            assert(out@ + replace_all(tail.skip(1), from@, to@) =~= before + replace_all(
                tail,
                from@,
                to@,
            ));
            i += 1;
        }
    }
    assert(s@.skip(i as int).len() == 0);
    if from.len() == 0 {
        append_bytes(&mut out, to);
    } else {
        assert(out@ + replace_all(s@.skip(i as int), from@, to@) =~= out@);
    }
    out
}

/// A string shorter than a non-empty pattern is copied element by element.
proof fn lemma_replace_short<T>(s: Seq<T>, from: Seq<T>, to: Seq<T>)
    requires
        0 < s.len() < from.len(),
    ensures
        replace_all(s, from, to) == seq![s[0]] + replace_all(s.skip(1), from, to),
{
    assert(replace_all(s.skip(1), from, to) == s.skip(1));
    assert(s =~= seq![s[0]] + s.skip(1));
}

/// A non-empty string replaced by itself gives the replacement.
pub proof fn lemma_replace_whole<T>(s: Seq<T>, to: Seq<T>)
    requires
        s.len() > 0,
    ensures
        replace_all(s, s, to) == to,
{
    assert(s.is_prefix_of(s)) by {
        assert(s =~= s.subrange(0, s.len() as int));
    }
    assert(s.skip(s.len() as int).len() == 0);
    assert(replace_all(s.skip(s.len() as int), s, to) == s.skip(s.len() as int));
    assert(to + s.skip(s.len() as int) =~= to);
}

/// Whether two strings hold the same characters.
pub fn str_eq(a: &str, b: &str) -> (r: bool)
    ensures
        r == (a@ == b@),
{
    let r = bytes_eq(a.as_bytes(), b.as_bytes());
    proof {
        if r {
            lemma_encode_injective(a@, b@);
        }
    }
    r
}

/// Removes `prefix` from the start of `s`, once. `None` when `s` does not
/// begin with it.
pub fn strip_prefix<'a>(s: &'a str, prefix: &str) -> (r: Option<&'a str>)
    ensures
        match r {
            Some(rest) => s@ == prefix@ + rest@,
            None => !prefix@.is_prefix_of(s@),
        },
{
    let sb = s.as_bytes();
    let pb = prefix.as_bytes();
    if !bytes_start_with(sb, pb) {
        proof {
            if prefix@.is_prefix_of(s@) {
                let rest = s@.skip(prefix@.len() as int);
                assert(s@ =~= prefix@ + rest);
                lemma_encode_concat(prefix@, rest);
                assert(pb@ =~= sb@.subrange(0, pb@.len() as int));
            }
        }
        return None;
    }
    proof {
        encode_utf8_valid_utf8(s@);
        encode_utf8_valid_utf8(prefix@);
        lemma_prefix_boundary(sb@, pb@);
    }
    let (_, rest) = s.split_at(pb.len());
    proof {
        lemma_split_after_prefix(s@, prefix@, rest@);
    }
    Some(rest)
}

} // verus!

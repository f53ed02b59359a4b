//! Percent-encoding of image paths, so that a path can stand in a link.
//!
//! A path is split at its separators, each segment is encoded by itself,
//! and the segments are joined again: the separators stay as they are.

use vstd::prelude::*;
use vstd::string::StringExecFns;
use vstd::utf8::encode_utf8;

verus! {

/// The byte of the separator of path segments, `/`.
pub const SEPARATOR: u8 = 0x2f;

/// Whether a byte stands for itself in an encoded path: the letters and
/// digits of ASCII and `-`, `.`, `_`, `~`.
pub open spec fn is_unreserved(byte: u8) -> bool {
    ||| 0x30 <= byte <= 0x39
    ||| 0x41 <= byte <= 0x5a
    ||| 0x61 <= byte <= 0x7a
    ||| byte == 0x2d
    ||| byte == 0x2e
    ||| byte == 0x5f
    ||| byte == 0x7e
}

/// The upper-case hexadecimal digit for a value below 16.
pub open spec fn hex_upper(digit: u8) -> char {
    if digit < 10 {
        (0x30 + digit) as u8 as char
    } else {
        (0x41 + digit - 10) as u8 as char
    }
}

/// One byte, percent-encoded.
pub open spec fn percent_encoded_byte(byte: u8) -> Seq<char> {
    if is_unreserved(byte) {
        seq![byte as char]
    } else {
        seq!['%', hex_upper(byte / 16), hex_upper(byte % 16)]
    }
}

/// A byte string, percent-encoded byte by byte.
pub open spec fn percent_encoded(bytes: Seq<u8>) -> Seq<char>
    decreases bytes.len(),
{
    if bytes.len() == 0 {
        Seq::empty()
    } else {
        percent_encoded(bytes.drop_last()) + percent_encoded_byte(bytes.last())
    }
}

/// One byte of a path, encoded: the separator stays, every other byte is
/// percent-encoded.
pub open spec fn encoded_path_byte(byte: u8) -> Seq<char> {
    if byte == SEPARATOR {
        seq!['/']
    } else {
        percent_encoded_byte(byte)
    }
}

/// The bytes of a path, encoded segment by segment.
pub open spec fn encoded_path(bytes: Seq<u8>) -> Seq<char>
    decreases bytes.len(),
{
    if bytes.len() == 0 {
        Seq::empty()
    } else {
        encoded_path(bytes.drop_last()) + encoded_path_byte(bytes.last())
    }
}

/// A path, encoded segment by segment.
pub open spec fn spec_encode_file_path(path: Seq<char>) -> Seq<char> {
    encoded_path(encode_utf8(path))
}

/// Encoding a path and then more bytes is encoding all of them at once.
pub proof fn lemma_encoded_path_concat(a: Seq<u8>, b: Seq<u8>)
    ensures
        encoded_path(a + b) == encoded_path(a) + encoded_path(b),
    decreases b.len(),
{
    if b.len() == 0 {
        assert(a + b =~= a);
        assert(encoded_path(a) + encoded_path(b) =~= encoded_path(a));
    } else {
        assert((a + b).drop_last() =~= a + b.drop_last());
        assert((a + b).last() == b.last());
        lemma_encoded_path_concat(a, b.drop_last());
        assert(encoded_path(a + b) =~= (encoded_path(a) + encoded_path(b.drop_last()))
            + encoded_path_byte(b.last()));
        assert(encoded_path(a) + encoded_path(b) =~= (encoded_path(a) + encoded_path(
            b.drop_last(),
        )) + encoded_path_byte(b.last()));
    }
}

/// A segment, which holds no separator, is encoded by percent-encoding it.
pub proof fn lemma_encoded_segment(segment: Seq<u8>)
    requires
        forall|i: int| 0 <= i < segment.len() ==> segment[i] != SEPARATOR,
    ensures
        encoded_path(segment) == percent_encoded(segment),
    decreases segment.len(),
{
    if segment.len() > 0 {
        lemma_encoded_segment(segment.drop_last());
    }
}

/// A path of a first segment, a separator and more is encoded as the first
/// segment percent-encoded, the separator as it is, and the rest encoded in
/// the same way.
pub proof fn lemma_encoded_path_split(segment: Seq<u8>, rest: Seq<u8>)
    requires
        forall|i: int| 0 <= i < segment.len() ==> segment[i] != SEPARATOR,
    ensures
        encoded_path(segment + seq![SEPARATOR] + rest) == percent_encoded(segment) + seq!['/']
            + encoded_path(rest),
{
    let separator = seq![SEPARATOR];
    lemma_encoded_segment(segment);
    lemma_encoded_path_concat(segment, separator);
    lemma_encoded_path_concat(segment + separator, rest);
    assert(separator.drop_last() =~= Seq::<u8>::empty());
    assert(encoded_path(separator) =~= seq!['/']) by {
        reveal_with_fuel(encoded_path, 2);
    }
}

/// Calls `urlencoding::encode_binary`, to which `urlencoding::encode` hands
/// the bytes of its string. Not proved: the crate keeps the letters and
/// digits of ASCII and `-`, `.`, `_`, `~`, and writes every other byte as `%`
/// and its two upper-case hexadecimal digits.
#[verifier::external_body]
fn percent_encode(segment: &[u8]) -> (encoded: String)
    ensures
        encoded@ == percent_encoded(segment@),
{
    urlencoding::encode_binary(segment).into_owned()
}

/// Encodes a path for use in a link: every segment between separators is
/// percent-encoded, the separators are kept.
pub fn encode_file_path(file_path: &str) -> (encoded: String)
    ensures
        encoded@ == spec_encode_file_path(file_path@),
{
    let bytes = file_path.as_bytes();
    let n: usize = bytes.len();
    let mut encoded = String::new();
    let mut start: usize = 0;
    let mut i: usize = 0;
    while i < n
        invariant
            start <= i <= n,
            n == bytes@.len(),
            bytes@ == encode_utf8(file_path@),
            encoded@ == encoded_path(bytes@.take(start as int)),
            forall|j: int| start <= j < i ==> bytes@[j] != SEPARATOR,
        decreases n - i,
    {
        if bytes[i] == SEPARATOR {
            let segment = percent_encode(&bytes[start..i]);
            encoded.append(segment.as_str());
            encoded.append("/");
            proof {
                reveal_strlit("/");
                let head = bytes@.take(start as int);
                let body = bytes@.subrange(start as int, i as int);
                let tail = seq![SEPARATOR];
                lemma_encoded_segment(body);
                lemma_encoded_path_concat(head, body);
                lemma_encoded_path_concat(head + body, tail);
                assert(tail.drop_last() =~= Seq::<u8>::empty());
                assert(encoded_path(tail) =~= seq!['/']) by {
                    reveal_with_fuel(encoded_path, 2);
                }
                assert("/"@ =~= seq!['/']);
                assert(bytes@.take(i + 1) =~= (head + body) + tail);
            }
            start = i + 1;
        }
        i = i + 1;
    }
    let segment = percent_encode(&bytes[start..n]);
    encoded.append(segment.as_str());
    proof {
        let head = bytes@.take(start as int);
        let body = bytes@.subrange(start as int, n as int);
        lemma_encoded_segment(body);
        lemma_encoded_path_concat(head, body);
        assert(bytes@ =~= head + body);
    }
    encoded
}

} // verus!

//! Percent-encoding and -decoding.
//!
//! Decoding follows the URL standard: after a `%`, two hexadecimal digits (of
//! either case) denote a byte; any malformed sequence is passed through
//! unchanged.  Encoding follows the DOI handbook's rules for presenting a DOI
//! name inside a URL: RFC 3986 unreserved and reserved characters stay as they
//! are, every other character is written as the upper-hex `%XX` rendering of
//! its UTF-8 bytes.

use crate::text::{
    bytes_of_chars, is_digit_char, is_lower_char, is_upper_char, lower_char, lower_seq, no_upper,
};
use vstd::prelude::*;
use vstd::utf8::{encode_scalar, encode_utf8, is_ascii_chars, is_ascii_chars_encode_utf8};

verus! {

/// True for a byte that is an ASCII hexadecimal digit.
pub open spec fn is_hex_byte(b: u8) -> bool {
    (48 <= b <= 57) || (65 <= b <= 70) || (97 <= b <= 102)
}

/// Numeric value of an ASCII hexadecimal digit byte.
pub open spec fn hex_byte_val(b: u8) -> u8 {
    if 48 <= b <= 57 {
        (b - 48) as u8
    } else if 65 <= b <= 70 {
        (b - 55) as u8
    } else if 97 <= b <= 102 {
        (b - 87) as u8
    } else {
        0
    }
}

/// Percent-decoding of a byte sequence: `%` followed by two hexadecimal
/// digits yields the denoted byte; everything else passes through.
pub open spec fn pct_decode(b: Seq<u8>) -> Seq<u8>
    decreases b.len(),
{
    if b.len() == 0 {
        seq![]
    } else if b[0] == 37 && b.len() >= 3 && is_hex_byte(b[1]) && is_hex_byte(b[2]) {
        seq![(hex_byte_val(b[1]) * 16 + hex_byte_val(b[2])) as u8] + pct_decode(b.skip(3))
    } else {
        seq![b[0]] + pct_decode(b.skip(1))
    }
}

/// Executable percent-decoding, equal to [`pct_decode`] of the input.
pub fn pct_decode_bytes(v: &Vec<u8>) -> (r: Vec<u8>)
    ensures
        r@ == pct_decode(v@),
{
    let mut r: Vec<u8> = Vec::new();
    let mut i: usize = 0;
    proof {
        assert(v@.skip(0) =~= v@);
    }
    while i < v.len()
        invariant
            i <= v@.len(),
            pct_decode(v@) == r@ + pct_decode(v@.skip(i as int)),
        decreases v@.len() - i,
    {
        let ghost pre = r@;
        let ghost rest = v@.skip(i as int);
        let b = v[i];
        if b == 37 && v.len() - i > 2 && is_hex_byte_exec(v[i + 1]) && is_hex_byte_exec(v[i + 2]) {
            let h = hex_byte_val_exec(v[i + 1]);
            let l = hex_byte_val_exec(v[i + 2]);
            r.push(h * 16 + l);
            i = i + 3;
            proof {
                assert(rest[0] == 37 && rest.len() >= 3 && is_hex_byte(rest[1]) && is_hex_byte(
                    rest[2],
                ));
                assert(rest.skip(3) =~= v@.skip(i as int));
                assert(r@ =~= pre + seq![(hex_byte_val(rest[1]) * 16 + hex_byte_val(
                    rest[2],
                )) as u8]);
            }
        } else {
            r.push(b);
            i = i + 1;
            proof {
                assert(!(rest[0] == 37 && rest.len() >= 3 && is_hex_byte(rest[1]) && is_hex_byte(
                    rest[2],
                )));
                assert(rest.skip(1) =~= v@.skip(i as int));
                assert(r@ =~= pre + seq![rest[0]]);
            }
        }
    }
    proof {
        assert(v@.skip(i as int) =~= Seq::<u8>::empty());
        assert(r@ =~= pct_decode(v@));
    }
    r
}

/// Executable form of [`is_hex_byte`].
pub fn is_hex_byte_exec(b: u8) -> (r: bool)
    ensures
        r == is_hex_byte(b),
{
    (48 <= b && b <= 57) || (65 <= b && b <= 70) || (97 <= b && b <= 102)
}

/// Executable form of [`hex_byte_val`].
pub fn hex_byte_val_exec(b: u8) -> (r: u8)
    requires
        is_hex_byte(b),
    ensures
        r == hex_byte_val(b),
        r < 16,
{
    if 48 <= b && b <= 57 {
        b - 48
    } else if 65 <= b && b <= 70 {
        b - 55
    } else {
        b - 87
    }
}

/// True for an RFC 3986 unreserved character.
pub open spec fn doi_unreserved(c: char) -> bool {
    is_digit_char(c) || is_upper_char(c) || is_lower_char(c) || c == '-' || c == '_' || c == '.'
        || c == '~'
}

/// True for an RFC 3986 reserved character that the DOI handbook permits
/// unencoded in a URL.
pub open spec fn doi_reserved(c: char) -> bool {
    c == '!' || c == '$' || c == '&' || c == '\'' || c == '(' || c == ')' || c == '*' || c == ','
        || c == '/' || c == ':' || c == ';' || c == '=' || c == '@'
}

/// Characters left as they are by the DOI encoding.
pub open spec fn doi_safe(c: char) -> bool {
    doi_unreserved(c) || doi_reserved(c)
}

/// Upper-case hexadecimal digit character for a value below 16.
pub open spec fn hex_upper_char(v: u8) -> char {
    if v < 10 {
        ((48 + v) as u8) as char
    } else {
        ((55 + v) as u8) as char
    }
}

/// The `%XX` rendering of one byte.
pub open spec fn pct_triple(b: u8) -> Seq<char> {
    seq!['%', hex_upper_char(b / 16), hex_upper_char(b % 16)]
}

/// The `%XX` renderings of a byte sequence, concatenated.
pub open spec fn pct_triples(bs: Seq<u8>) -> Seq<char>
    decreases bs.len(),
{
    if bs.len() == 0 {
        seq![]
    } else {
        pct_triple(bs[0]) + pct_triples(bs.skip(1))
    }
}

/// DOI encoding of one character: safe characters stand as themselves, all
/// others as the `%XX` renderings of their UTF-8 bytes.
pub open spec fn doi_encode_char(c: char) -> Seq<char> {
    if doi_safe(c) {
        seq![c]
    } else {
        pct_triples(encode_scalar(c as u32))
    }
}

/// DOI encoding of a character sequence.
pub open spec fn doi_encode(s: Seq<char>) -> Seq<char>
    decreases s.len(),
{
    if s.len() == 0 {
        seq![]
    } else {
        doi_encode_char(s[0]) + doi_encode(s.skip(1))
    }
}

/// Executable form of [`doi_safe`].
pub fn doi_safe_exec(c: char) -> (r: bool)
    ensures
        r == doi_safe(c),
{
    let v = c as u32;
    (48 <= v && v <= 57) || (65 <= v && v <= 90) || (97 <= v && v <= 122) || c == '-' || c == '_'
        || c == '.' || c == '~' || c == '!' || c == '$' || c == '&' || c == '\'' || c == '(' || c
        == ')' || c == '*' || c == ',' || c == '/' || c == ':' || c == ';' || c == '=' || c == '@'
}

/// Executable form of [`hex_upper_char`].
pub fn hex_upper_char_exec(v: u8) -> (r: char)
    requires
        v < 16,
    ensures
        r == hex_upper_char(v),
{
    if v < 10 {
        (48 + v) as char
    } else {
        (55 + v) as char
    }
}

/// Percent-encode a character sequence under the DOI rules.
pub fn percent_encode_for_doi(input: &Vec<char>) -> (r: Vec<char>)
    ensures
        r@ == doi_encode(input@),
{
    let mut r: Vec<char> = Vec::new();
    let mut i: usize = 0;
    proof {
        assert(input@.skip(0) =~= input@);
    }
    while i < input.len()
        invariant
            i <= input@.len(),
            doi_encode(input@) == r@ + doi_encode(input@.skip(i as int)),
        decreases input@.len() - i,
    {
        let ghost pre = r@;
        let ghost rest = input@.skip(i as int);
        let c = input[i];
        if doi_safe_exec(c) {
            r.push(c);
            assert(r@ =~= pre + seq![c]);
        } else {
            let mut single: Vec<char> = Vec::new();
            single.push(c);
            let bytes = bytes_of_chars(&single);
            proof {
                assert(single@ =~= seq![c]);
                assert(single@[0] == c);
                assert(single@.drop_first() =~= Seq::<char>::empty());
                assert(encode_utf8(Seq::<char>::empty()) =~= Seq::<u8>::empty());
                assert(encode_utf8(single@) =~= encode_scalar(c as u32));
            }
            let mut j: usize = 0;
            while j < bytes.len()
                invariant
                    j <= bytes@.len(),
                    r@ == pre + pct_triples(bytes@.subrange(0, j as int)),
                decreases bytes@.len() - j,
            {
                let ghost done = bytes@.subrange(0, j as int);
                let b = bytes[j];
                r.push('%');
                r.push(hex_upper_char_exec(b / 16));
                r.push(hex_upper_char_exec(b % 16));
                j = j + 1;
                proof {
                    lemma_pct_triples_snoc(done, b);
                    assert(bytes@.subrange(0, j as int) =~= done.push(b));
                    assert(r@ =~= pre + (pct_triples(done) + pct_triple(b)));
                }
            }
            proof {
                assert(bytes@.subrange(0, bytes@.len() as int) =~= bytes@);
                assert(r@ =~= pre + doi_encode_char(c));
            }
        }
        i = i + 1;
        proof {
            assert(rest.skip(1) =~= input@.skip(i as int));
        }
    }
    proof {
        assert(input@.skip(i as int) =~= Seq::<char>::empty());
        assert(r@ =~= doi_encode(input@));
    }
    r
}

/// UTF-8 encoding distributes over concatenation.
pub proof fn lemma_encode_utf8_concat(a: Seq<char>, b: Seq<char>)
    ensures
        encode_utf8(a + b) == encode_utf8(a) + encode_utf8(b),
    decreases a.len(),
{
    if a.len() == 0 {
        assert(a + b =~= b);
        assert(encode_utf8(a) =~= Seq::<u8>::empty());
        assert(encode_utf8(a) + encode_utf8(b) =~= encode_utf8(b));
    } else {
        assert((a + b).len() > 0);
        assert((a + b)[0] == a[0]);
        assert((a + b).drop_first() =~= a.drop_first() + b);
        lemma_encode_utf8_concat(a.drop_first(), b);
        assert(encode_utf8(a + b) =~= encode_utf8(a) + encode_utf8(b));
    }
}

/// The byte of the lower-cased upper-hex digit for a value below 16, and its
/// round trip through [`hex_byte_val`].
proof fn lemma_hex_nibble(v: u8)
    requires
        v < 16,
    ensures
        '\0' <= lower_char(hex_upper_char(v)) <= '\u{7f}',
        (lower_char(hex_upper_char(v)) as u32) < 128,
        is_hex_byte((lower_char(hex_upper_char(v)) as u32) as u8),
        hex_byte_val((lower_char(hex_upper_char(v)) as u32) as u8) == v,
        (lower_char(hex_upper_char(v)) as u32) != 37,
{
    if v < 10 {
        assert(hex_upper_char(v) as u32 == 48 + v);
    } else {
        assert(hex_upper_char(v) as u32 == 55 + v);
        assert(lower_char(hex_upper_char(v)) as u32 == 87 + v);
    }
}

/// Percent-decoding passes a `%`-free byte prefix through unchanged.
pub proof fn lemma_pct_decode_nopct_prefix(a: Seq<u8>, b: Seq<u8>)
    requires
        forall|i: int| 0 <= i < a.len() ==> #[trigger] a[i] != 37,
    ensures
        pct_decode(a + b) == a + pct_decode(b),
    decreases a.len(),
{
    if a.len() == 0 {
        assert(a + b =~= b);
        assert(a + pct_decode(b) =~= pct_decode(b));
    } else {
        assert((a + b)[0] == a[0]);
        assert((a + b).skip(1) =~= a.skip(1) + b);
        lemma_pct_decode_nopct_prefix(a.skip(1), b);
        assert(pct_decode(a + b) =~= a + pct_decode(b));
    }
}

/// The UTF-8 bytes of the lower-cased `%XX` renderings of `bs`, followed by
/// `tail`, percent-decode to `bs` followed by the decoding of `tail`.
proof fn lemma_triples_decode(bs: Seq<u8>, tail: Seq<u8>)
    ensures
        pct_decode(encode_utf8(lower_seq(pct_triples(bs))) + tail) == bs + pct_decode(tail),
    decreases bs.len(),
{
    if bs.len() == 0 {
        assert(lower_seq(pct_triples(bs)) =~= Seq::<char>::empty());
        assert(encode_utf8(Seq::<char>::empty()) =~= Seq::<u8>::empty());
        assert(encode_utf8(lower_seq(pct_triples(bs))) + tail =~= tail);
        assert(bs + pct_decode(tail) =~= pct_decode(tail));
    } else {
        let b = bs[0];
        let group = lower_seq(pct_triple(b));
        assert(pct_triples(bs) == pct_triple(b) + pct_triples(bs.skip(1)));
        crate::text::lemma_lower_seq_concat(pct_triple(b), pct_triples(bs.skip(1)));
        lemma_encode_utf8_concat(group, lower_seq(pct_triples(bs.skip(1))));
        let group_bytes = encode_utf8(group);
        lemma_hex_nibble(b / 16);
        lemma_hex_nibble(b % 16);
        assert(group[0] == '%' && group[1] == lower_char(hex_upper_char(b / 16)) && group[2]
            == lower_char(hex_upper_char(b % 16)));
        assert(is_ascii_chars(group));
        is_ascii_chars_encode_utf8(group);
        assert(group_bytes.len() == 3);
        assert(group_bytes[0] == 37);
        assert(group_bytes[1] == group[1] as u8);
        assert(group_bytes[2] == group[2] as u8);
        assert(group[1] as u8 == (group[1] as u32) as u8);
        assert(group[2] as u8 == (group[2] as u32) as u8);
        let rest = encode_utf8(lower_seq(pct_triples(bs.skip(1)))) + tail;
        let whole = group_bytes + rest;
        assert(whole[0] == 37 && whole.len() >= 3 && is_hex_byte(whole[1]) && is_hex_byte(
            whole[2],
        ));
        assert(hex_byte_val(whole[1]) * 16 + hex_byte_val(whole[2]) == b) by {
            assert(hex_byte_val(whole[1]) == b / 16);
            assert(hex_byte_val(whole[2]) == b % 16);
        }
        assert(whole.skip(3) =~= rest);
        lemma_triples_decode(bs.skip(1), tail);
        assert(encode_utf8(lower_seq(pct_triples(bs))) + tail =~= whole);
        assert(pct_decode(whole) =~= bs + pct_decode(tail));
    }
}

/// Decoding inverts encoding: the UTF-8 bytes of the lower-cased DOI encoding
/// of a suffix without upper-case ASCII letters percent-decode to the UTF-8
/// bytes of that suffix.
pub proof fn lemma_doi_codec_round_trip(s: Seq<char>)
    requires
        no_upper(s),
    ensures
        pct_decode(encode_utf8(lower_seq(doi_encode(s)))) == encode_utf8(s),
    decreases s.len(),
{
    if s.len() == 0 {
        assert(lower_seq(doi_encode(s)) =~= Seq::<char>::empty());
        assert(encode_utf8(Seq::<char>::empty()) =~= Seq::<u8>::empty());
        assert(pct_decode(encode_utf8(lower_seq(doi_encode(s)))) =~= encode_utf8(s));
    } else {
        let c = s[0];
        let t = s.skip(1);
        assert(no_upper(t)) by {
            assert(forall|i: int| 0 <= i < t.len() ==> t[i] == s[i + 1]);
        }
        assert(doi_encode(s) == doi_encode_char(c) + doi_encode(t));
        crate::text::lemma_lower_seq_concat(doi_encode_char(c), doi_encode(t));
        lemma_encode_utf8_concat(lower_seq(doi_encode_char(c)), lower_seq(doi_encode(t)));
        lemma_doi_codec_round_trip(t);
        let tail = encode_utf8(lower_seq(doi_encode(t)));
        if doi_safe(c) {
            assert(!is_upper_char(c));
            assert(lower_seq(doi_encode_char(c)) =~= seq![c]);
            assert(is_ascii_chars(seq![c]));
            is_ascii_chars_encode_utf8(seq![c]);
            let cb = encode_utf8(seq![c]);
            assert(cb.len() == 1 && cb[0] == c as u8);
            assert(c as u32 != 37);
            assert(cb[0] != 37) by {
                assert((c as u32) < 128);
                assert(c as u8 == (c as u32) as u8);
            }
            let whole = cb + tail;
            assert(whole[0] != 37);
            assert(whole.skip(1) =~= tail);
            assert(pct_decode(whole) =~= seq![whole[0]] + pct_decode(tail));
            assert(s.drop_first() =~= t);
            assert(encode_utf8(s) =~= encode_scalar(c as u32) + encode_utf8(t));
            assert(encode_scalar(c as u32) =~= seq![c as u8]) by {
                assert(cb =~= encode_scalar(c as u32) + encode_utf8(Seq::<char>::empty()));
                assert(encode_utf8(Seq::<char>::empty()) =~= Seq::<u8>::empty());
            }
            assert(pct_decode(encode_utf8(lower_seq(doi_encode(s)))) =~= encode_utf8(s));
        } else {
            assert(doi_encode_char(c) == pct_triples(encode_scalar(c as u32)));
            lemma_triples_decode(encode_scalar(c as u32), tail);
            assert(s.drop_first() =~= t);
            assert(encode_utf8(s) =~= encode_scalar(c as u32) + encode_utf8(t));
            assert(pct_decode(encode_utf8(lower_seq(doi_encode(s)))) =~= encode_utf8(s));
        }
    }
}

/// Appending one byte extends the `%XX` renderings by one triple.
proof fn lemma_pct_triples_snoc(bs: Seq<u8>, b: u8)
    ensures
        pct_triples(bs.push(b)) == pct_triples(bs) + pct_triple(b),
    decreases bs.len(),
{
    assert(bs.push(b)[0] == if bs.len() == 0 {
        b
    } else {
        bs[0]
    });
    if bs.len() == 0 {
        assert(bs.push(b).skip(1) =~= Seq::<u8>::empty());
        assert(pct_triples(Seq::<u8>::empty()) =~= Seq::<char>::empty());
        assert(pct_triples(bs.push(b)) =~= pct_triples(bs) + pct_triple(b));
    } else {
        assert(bs.push(b).skip(1) =~= bs.skip(1).push(b));
        lemma_pct_triples_snoc(bs.skip(1), b);
        assert(pct_triples(bs.push(b)) =~= pct_triples(bs) + pct_triple(b));
    }
}

} // verus!

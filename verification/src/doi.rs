//! DOI, the Digital Object Identifier.
//!
//! A raw DOI starts with `10.`, then a run of digits, a slash, and a suffix
//! of arbitrary printable text.  A DOI also circulates as a URL under a
//! resolver host, with the suffix percent-encoded.  DOIs are case-insensitive,
//! so the whole input is folded to lower case before matching.  The fold is
//! deliberately ASCII-only — the letters `A` to `Z` map to `a` to `z` and
//! every other character stands as typed — reading the DOI handbook's
//! case-insensitivity as a statement about ASCII letters; a non-ASCII
//! upper-case letter in a suffix is therefore preserved, not folded.  An
//! encoded suffix that does not decode to valid UTF-8 is declined rather
//! than repaired, since guessing would break the identifier's
//! resolvability.

use crate::identifiers::{spec_https, IdSpec, Identifier, IdentifierParseInput};
use crate::pct::{doi_encode, pct_decode, pct_decode_bytes, percent_encode_for_doi};
use crate::text::{
    bytes_of_chars, chars_of_str, concat_chars, is_digit_char, lower_chars, lower_seq,
    starts_with, starts_with_chars, string_of_chars, utf8_to_string, vec_skip, vec_take,
};
use vstd::prelude::*;
use vstd::utf8::{decode_utf8, encode_utf8, valid_utf8};

verus! {

/// The leading characters of every raw DOI.
pub open spec fn spec_ten_dot() -> Seq<char> {
    seq!['1', '0', '.']
}

/// The `http` scheme prefix.
pub open spec fn spec_http() -> Seq<char> {
    seq!['h', 't', 't', 'p', ':', '/', '/']
}

/// The `doi:` label.
pub open spec fn spec_doi_label() -> Seq<char> {
    seq!['d', 'o', 'i', ':']
}

/// The `urn:doi:` label.
pub open spec fn spec_urn_doi() -> Seq<char> {
    seq!['u', 'r', 'n', ':', 'd', 'o', 'i', ':']
}

/// The `info:doi:` label.
pub open spec fn spec_info_doi() -> Seq<char> {
    seq!['i', 'n', 'f', 'o', ':', 'd', 'o', 'i', ':']
}

/// The main resolver host, with its trailing slash.
pub open spec fn spec_doi_org() -> Seq<char> {
    seq!['d', 'o', 'i', '.', 'o', 'r', 'g', '/']
}

/// The older resolver host, with its trailing slash.
pub open spec fn spec_dx_doi_org() -> Seq<char> {
    seq!['d', 'x', '.', 'd', 'o', 'i', '.', 'o', 'r', 'g', '/']
}

/// The resolver prefix used when rendering a DOI as a URL.
pub open spec fn spec_doi_resolver() -> Seq<char> {
    seq!['h', 't', 't', 'p', 's', ':', '/', '/', 'd', 'o', 'i', '.', 'o', 'r', 'g', '/']
}

/// The end of the run of digits that starts at position `i`: the first
/// position at or after `i` holding a non-digit, or the length.
pub open spec fn digit_run_end(s: Seq<char>, i: int) -> int
    decreases s.len() - i,
    when 0 <= i <= s.len()
{
    if i >= s.len() {
        i
    } else if !is_digit_char(s[i]) {
        i
    } else {
        digit_run_end(s, i + 1)
    }
}

/// Position and contents of a digit run: its end lies between `i` and the
/// length, everything before it is digits, and it stops only at a non-digit
/// or the end.
pub proof fn lemma_digit_run_end(s: Seq<char>, i: int)
    requires
        0 <= i <= s.len(),
    ensures
        i <= digit_run_end(s, i) <= s.len(),
        forall|j: int| i <= j < digit_run_end(s, i) ==> is_digit_char(#[trigger] s[j]),
        digit_run_end(s, i) < s.len() ==> !is_digit_char(s[digit_run_end(s, i)]),
    decreases s.len() - i,
{
    if i < s.len() && is_digit_char(s[i]) {
        lemma_digit_run_end(s, i + 1);
    }
}

/// True when the string matches the strict raw-DOI shape: `10.`, at least
/// one digit, a slash, and a non-empty suffix free of line breaks.
pub open spec fn strict_match(s: Seq<char>) -> bool {
    let e = digit_run_end(s, 3);
    &&& s.len() >= 3
    &&& s.take(3) == spec_ten_dot()
    &&& e > 3
    &&& e + 1 < s.len()
    &&& s[e] == '/'
    &&& forall|j: int| e < j < s.len() ==> s[j] != '\n'
}

/// The prefix and suffix of a string under the strict raw-DOI shape.
pub open spec fn strict_parts(s: Seq<char>) -> (Seq<char>, Seq<char>) {
    let e = digit_run_end(s, 3);
    (s.take(e), s.skip(e + 1))
}

/// Construct a DOI identifier from a decoded raw string, folding the suffix
/// to lower case; absent when the strict shape does not hold.
pub open spec fn construct_spec(d: Seq<char>) -> Option<IdSpec> {
    if strict_match(d) {
        Some(
            IdSpec::Doi {
                prefix: strict_parts(d).0,
                suffix: lower_seq(strict_parts(d).1),
            },
        )
    } else {
        None
    }
}

/// Strip one leading URI scheme or DOI label, if present.
pub open spec fn strip_scheme(s: Seq<char>) -> Seq<char> {
    if starts_with(s, spec_https()) {
        s.skip(8)
    } else if starts_with(s, spec_http()) {
        s.skip(7)
    } else if starts_with(s, spec_doi_label()) {
        s.skip(4)
    } else if starts_with(s, spec_urn_doi()) {
        s.skip(8)
    } else if starts_with(s, spec_info_doi()) {
        s.skip(9)
    } else {
        s
    }
}

/// Strip one leading resolver host, if present.
pub open spec fn strip_host(s: Seq<char>) -> Seq<char> {
    if starts_with(s, spec_dx_doi_org()) {
        s.skip(11)
    } else if starts_with(s, spec_doi_org()) {
        s.skip(8)
    } else {
        s
    }
}

/// Strip the string prefixes under which a DOI circulates: a scheme or
/// label, then a resolver host, then once more a scheme or label, so that
/// forms like a resolver URL around a labelled DOI are all uncovered.
pub open spec fn remove_doi_prefixes_spec(s: Seq<char>) -> Seq<char> {
    strip_scheme(strip_host(strip_scheme(s)))
}

/// True when the string matches the permissive DOI shape: `10.`, at least
/// one digit, then a slash or an encoded slash `%2f`.
pub open spec fn loose_match(s: Seq<char>) -> bool {
    let e = digit_run_end(s, 3);
    &&& s.len() >= 3
    &&& s.take(3) == spec_ten_dot()
    &&& e > 3
    &&& (e < s.len() && (s[e] == '/' || (e + 3 <= s.len() && s.subrange(e, e + 3) == seq![
        '%',
        '2',
        'f',
    ])))
}

/// What DOI recognition yields on a raw input.  The input is folded to lower
/// case under the ASCII fold (`lower_seq`; non-ASCII letters stand as
/// typed); an input already in the strict raw shape is taken as literal
/// text, and only otherwise are resolver prefixes stripped and the remainder
/// treated as percent-encoded, declining when the decoded bytes are not
/// valid UTF-8.
#[verifier::opaque]
pub open spec fn doi_parse_spec(raw: Seq<char>) -> Option<IdSpec> {
    let low = lower_seq(raw);
    if strict_match(low) {
        construct_spec(low)
    } else {
        let t = remove_doi_prefixes_spec(low);
        if loose_match(t) {
            let dec = pct_decode(encode_utf8(t));
            if valid_utf8(dec) {
                construct_spec(decode_utf8(dec))
            } else {
                None
            }
        } else {
            None
        }
    }
}

/// The digit run from `i` ends exactly at `k` when everything from `i` to
/// `k` is a digit and `k` holds a non-digit or is the end.
pub proof fn lemma_digit_run_end_value(s: Seq<char>, i: int, k: int)
    requires
        0 <= i <= k <= s.len(),
        forall|j: int| i <= j < k ==> is_digit_char(#[trigger] s[j]),
        k < s.len() ==> !is_digit_char(s[k]),
    ensures
        digit_run_end(s, i) == k,
    decreases k - i,
{
    if i < k {
        lemma_digit_run_end_value(s, i + 1, k);
    }
}

/// A stored DOI: the prefix is `10.` followed by at least one digit, and
/// the suffix is non-empty, folded to lower case (no upper-case ASCII), and
/// free of line breaks.
pub open spec fn doi_wf(prefix: Seq<char>, suffix: Seq<char>) -> bool {
    &&& prefix.len() >= 4
    &&& prefix.take(3) == spec_ten_dot()
    &&& forall|i: int| 3 <= i < prefix.len() ==> is_digit_char(#[trigger] prefix[i])
    &&& suffix.len() > 0
    &&& crate::text::no_upper(suffix)
    &&& forall|i: int| 0 <= i < suffix.len() ==> #[trigger] suffix[i] != '\n'
}

/// A stored DOI parses back from its resolver URL to exactly itself: the
/// URL is folded to lower case, the scheme and resolver host are stripped,
/// the suffix is percent-decoded, and prefix and suffix come out unchanged.
#[verifier::rlimit(100)]
#[verifier::spinoff_prover]
pub proof fn lemma_doi_reparse(prefix: Seq<char>, suffix: Seq<char>)
    requires
        doi_wf(prefix, suffix),
    ensures
        doi_parse_spec(spec_doi_resolver() + prefix + seq!['/'] + doi_encode(suffix)) == Some(
            IdSpec::Doi { prefix, suffix },
        ),
{
    broadcast use vstd::utf8::encode_utf8_valid_utf8, vstd::utf8::encode_utf8_decode_utf8;

    reveal(doi_parse_spec);
    let enc = doi_encode(suffix);
    let s = spec_doi_resolver() + prefix + seq!['/'] + enc;
    let low = lower_seq(s);
    // The prefix holds no upper-case ASCII, so lower-casing leaves the
    // resolver, the prefix and the slash unchanged.
    assert(crate::text::no_upper(spec_doi_resolver())) by {
        assert forall|i: int|
            0 <= i < spec_doi_resolver().len() implies !crate::text::is_upper_char(
            #[trigger] spec_doi_resolver()[i],
        ) by {}
    }
    assert(crate::text::no_upper(prefix)) by {
        assert forall|i: int| 0 <= i < prefix.len() implies !crate::text::is_upper_char(
            #[trigger] prefix[i],
        ) by {
            if i < 3 {
                assert(prefix[i] == prefix.take(3)[i]);
            } else {
                assert(is_digit_char(prefix[i]));
            }
        }
    }
    crate::text::lemma_lower_seq_concat(spec_doi_resolver() + prefix + seq!['/'], enc);
    crate::text::lemma_lower_seq_concat(spec_doi_resolver() + prefix, seq!['/']);
    crate::text::lemma_lower_seq_concat(spec_doi_resolver(), prefix);
    crate::text::lemma_lower_seq_no_upper(spec_doi_resolver());
    crate::text::lemma_lower_seq_no_upper(prefix);
    let lowenc = lower_seq(enc);
    assert(lower_seq(seq!['/']) =~= seq!['/']);
    assert(low == spec_doi_resolver() + prefix + seq!['/'] + lowenc);
    // The URL is not itself a raw DOI: it starts with `h`.
    assert(low[0] == 'h');
    assert(!strict_match(low)) by {
        if strict_match(low) {
            assert(low.take(3)[0] == low[0]);
        }
    }
    // Stripping the scheme uncovers the resolver host.
    assert(starts_with(low, spec_https())) by {
        assert(low.subrange(0, 8) =~= spec_https());
    }
    let t1 = low.skip(8);
    assert(t1 =~= spec_doi_org() + prefix + seq!['/'] + lowenc);
    assert(strip_scheme(low) == t1);
    // Stripping the host uncovers the raw form; `dx.doi.org/` does not
    // match, since the second character is `o`.
    assert(t1[1] == 'o');
    crate::text::lemma_not_starts_with(t1, spec_dx_doi_org(), 1);
    assert(starts_with(t1, spec_doi_org())) by {
        assert(t1.subrange(0, 8) =~= spec_doi_org());
    }
    let t = t1.skip(8);
    assert(t =~= prefix + seq!['/'] + lowenc);
    assert(strip_host(t1) == t);
    // No scheme or label starts with a digit, so the third strip is idle.
    assert(t[0] == prefix.take(3)[0]);
    assert(t[0] == '1');
    crate::text::lemma_not_starts_with(t, spec_https(), 0);
    crate::text::lemma_not_starts_with(t, spec_http(), 0);
    crate::text::lemma_not_starts_with(t, spec_doi_label(), 0);
    crate::text::lemma_not_starts_with(t, spec_urn_doi(), 0);
    crate::text::lemma_not_starts_with(t, spec_info_doi(), 0);
    assert(strip_scheme(t) == t);
    assert(remove_doi_prefixes_spec(low) == t);
    // The stripped remainder matches the permissive shape: digits up to the
    // prefix length, then the literal slash.
    let e = prefix.len() as int;
    assert(forall|j: int| 3 <= j < e ==> is_digit_char(#[trigger] t[j]));
    assert(t[e] == '/');
    assert(!is_digit_char('/'));
    lemma_digit_run_end_value(t, 3, e);
    assert(t.take(3) =~= prefix.take(3));
    assert(loose_match(t));
    // Decoding undoes the encoding: the prefix part carries no percent
    // sign, and the suffix decodes to its own UTF-8 bytes.
    let pre = prefix + seq!['/'];
    assert(t =~= pre + lowenc);
    crate::pct::lemma_encode_utf8_concat(pre, lowenc);
    assert(vstd::utf8::is_ascii_chars(pre)) by {
        assert forall|i: int| 0 <= i < pre.len() implies '\0' <= #[trigger] pre[i]
            <= '\u{7f}' by {
            if i < e {
                if i < 3 {
                    assert(pre[i] == prefix.take(3)[i]);
                } else {
                    assert(is_digit_char(pre[i]));
                }
            } else {
                assert(pre[i] == '/');
            }
        }
    }
    vstd::utf8::is_ascii_chars_encode_utf8(pre);
    let b1 = vstd::utf8::encode_utf8(pre);
    assert(forall|i: int| 0 <= i < b1.len() ==> #[trigger] b1[i] != 37) by {
        assert forall|i: int| 0 <= i < b1.len() implies #[trigger] b1[i] != 37 by {
            assert(b1[i] == pre[i] as u8);
            if i < e {
                if i < 3 {
                    assert(pre[i] == prefix.take(3)[i]);
                } else {
                    assert(is_digit_char(pre[i]));
                }
            } else {
                assert(pre[i] == '/');
            }
        }
    }
    crate::pct::lemma_pct_decode_nopct_prefix(b1, encode_utf8(lowenc));
    crate::pct::lemma_doi_codec_round_trip(suffix);
    let dec = pct_decode(encode_utf8(t));
    assert(dec == b1 + encode_utf8(suffix));
    let d = pre + suffix;
    crate::pct::lemma_encode_utf8_concat(pre, suffix);
    assert(dec == encode_utf8(d));
    assert(valid_utf8(dec));
    assert(decode_utf8(dec) == d);
    // The decoded text matches the strict shape, and construction returns
    // the stored prefix and suffix unchanged.
    assert(d.take(3) =~= prefix.take(3));
    assert(forall|j: int| 3 <= j < e ==> is_digit_char(#[trigger] d[j]));
    assert(d[e] == '/');
    lemma_digit_run_end_value(d, 3, e);
    assert(forall|j: int| e < j < d.len() ==> #[trigger] d[j] != '\n') by {
        assert forall|j: int| e < j < d.len() implies #[trigger] d[j] != '\n' by {
            assert(d[j] == suffix[j - e - 1]);
        }
    }
    assert(strict_match(d));
    assert(strict_parts(d).0 =~= prefix);
    assert(strict_parts(d).1 =~= suffix);
    crate::text::lemma_lower_seq_no_upper(suffix);
    assert(construct_spec(d) == Some(IdSpec::Doi { prefix, suffix }));
}

/// Lower-casing never produces an upper-case letter or a line break that
/// was not there.
proof fn lemma_lower_char_shape(c: char)
    ensures
        !crate::text::is_upper_char(crate::text::lower_char(c)),
        c != '\n' ==> crate::text::lower_char(c) != '\n',
{
}

/// Whatever construction accepts is a well-formed stored DOI.
pub proof fn lemma_construct_wf(d: Seq<char>)
    requires
        construct_spec(d) is Some,
    ensures
        construct_spec(d) matches Some(id) ==> (id matches IdSpec::Doi { prefix, suffix }
            && doi_wf(prefix, suffix)),
{
    let e = digit_run_end(d, 3);
    lemma_digit_run_end(d, 3);
    let prefix = strict_parts(d).0;
    let suffix = lower_seq(strict_parts(d).1);
    assert(prefix.len() == e);
    assert(prefix.take(3) =~= d.take(3));
    assert(forall|i: int| 3 <= i < prefix.len() ==> is_digit_char(#[trigger] prefix[i])) by {
        assert forall|i: int| 3 <= i < prefix.len() implies is_digit_char(#[trigger] prefix[i]) by {
            assert(prefix[i] == d[i]);
        }
    }
    assert(suffix.len() > 0);
    assert forall|i: int| 0 <= i < suffix.len() implies !crate::text::is_upper_char(
        #[trigger] suffix[i],
    ) && suffix[i] != '\n' by {
        let c = strict_parts(d).1[i];
        assert(c == d[e + 1 + i]);
        assert(c != '\n');
        lemma_lower_char_shape(c);
    }
}

/// The end of the digit run from a given position, executable form.
fn digit_run_end_exec(v: &Vec<char>, from: usize) -> (r: usize)
    requires
        from <= v@.len(),
    ensures
        r as int == digit_run_end(v@, from as int),
        from <= r <= v@.len(),
{
    let mut i: usize = from;
    while i < v.len()
        invariant
            from <= i <= v@.len(),
            digit_run_end(v@, i as int) == digit_run_end(v@, from as int),
            forall|j: int| from <= j < i ==> is_digit_char(#[trigger] v@[j]),
        decreases v@.len() - i,
    {
        let c = v[i];
        let cv = c as u32;
        if !(48 <= cv && cv <= 57) {
            assert(!is_digit_char(v@[i as int]));
            return i;
        }
        i = i + 1;
    }
    i
}

/// Construct a DOI identifier from a decoded raw string.
pub fn construct(decoded_raw_doi: &Vec<char>) -> (r: Option<Identifier>)
    ensures
        r.deep_view() == construct_spec(decoded_raw_doi@),
{
    let d = decoded_raw_doi;
    let ten = ten_dot_chars();
    if !starts_with_chars(d, &ten) {
        assert(!strict_match(d@));
        return None;
    }
    let e = digit_run_end_exec(d, 3);
    if !(e > 3 && d.len() - e > 1) {
        assert(!strict_match(d@));
        return None;
    }
    if d[e] != '/' {
        assert(!strict_match(d@));
        return None;
    }
    let mut j: usize = e + 1;
    while j < d.len()
        invariant
            e as int == digit_run_end(d@, 3),
            3 < e,
            d@ == decoded_raw_doi@,
            e + 1 < d@.len(),
            d@[e as int] == '/',
            d@.take(3) == spec_ten_dot(),
            e + 1 <= j <= d@.len(),
            forall|k: int| e < k < j ==> d@[k] != '\n',
        decreases d@.len() - j,
    {
        if d[j] == '\n' {
            assert(!strict_match(d@));
            return None;
        }
        j = j + 1;
    }
    assert(strict_match(d@));
    let prefix = vec_take(d, e);
    let suffix = vec_skip(d, e + 1);
    let lowercase_suffix = lower_chars(&suffix);
    Some(
        Identifier::Doi {
            prefix: string_of_chars(&prefix),
            suffix: string_of_chars(&lowercase_suffix),
        },
    )
}

/// Remove the prefixes under which a DOI circulates: scheme, resolver host,
/// and once more a scheme found inside the path.
pub fn remove_doi_prefixes(input: &Vec<char>) -> (r: Vec<char>)
    ensures
        r@ == remove_doi_prefixes_spec(input@),
{
    let first = strip_scheme_exec(input);
    let second = strip_host_exec(&first);
    strip_scheme_exec(&second)
}

/// Strip one leading URI scheme or DOI label, executable form.
fn strip_scheme_exec(v: &Vec<char>) -> (r: Vec<char>)
    ensures
        r@ == strip_scheme(v@),
{
    let https = https_chars();
    if starts_with_chars(v, &https) {
        return vec_skip(v, 8);
    }
    let http = http_chars();
    if starts_with_chars(v, &http) {
        return vec_skip(v, 7);
    }
    let label = doi_label_chars();
    if starts_with_chars(v, &label) {
        return vec_skip(v, 4);
    }
    let urn = urn_doi_chars();
    if starts_with_chars(v, &urn) {
        return vec_skip(v, 8);
    }
    let info = info_doi_chars();
    if starts_with_chars(v, &info) {
        return vec_skip(v, 9);
    }
    let mut copy: Vec<char> = Vec::new();
    let mut i: usize = 0;
    while i < v.len()
        invariant
            i <= v@.len(),
            copy@ == v@.subrange(0, i as int),
        decreases v@.len() - i,
    {
        copy.push(v[i]);
        i = i + 1;
        assert(copy@ =~= v@.subrange(0, i as int));
    }
    assert(copy@ =~= v@);
    copy
}

/// Strip one leading resolver host, executable form.
fn strip_host_exec(v: &Vec<char>) -> (r: Vec<char>)
    ensures
        r@ == strip_host(v@),
{
    let dx = dx_doi_org_chars();
    if starts_with_chars(v, &dx) {
        return vec_skip(v, 11);
    }
    let plain = doi_org_chars();
    if starts_with_chars(v, &plain) {
        return vec_skip(v, 8);
    }
    vec_take(v, v.len())
}

/// Parse an input string as a DOI.
///
/// Accepts a plain DOI such as `10.5555/12345678`, taken as literal Unicode
/// text, and a URL form such as `https://doi.org/10.5555/12345678`, whose
/// remainder after prefix stripping is treated as percent-encoded.  Case is
/// folded ASCII-only, so equality of recognised DOIs is on the decoded
/// suffix with ASCII letters lowered and all other characters as typed.  A
/// DOI can contain any printable character, so there is no middle ground:
/// an input already in the raw shape is never treated as encoded, and an
/// incorrectly encoded URL form is declined rather than guessed at.
pub fn try_parse(input: &IdentifierParseInput) -> (r: Option<Identifier>)
    ensures
        r.deep_view() == doi_parse_spec(input.raw@),
{
    proof {
        reveal(doi_parse_spec);
    }
    let raw = chars_of_str(input.raw.as_str());
    let lowercase = lower_chars(&raw);
    let strict_now = is_strict_match(&lowercase);
    if strict_now {
        construct(&lowercase)
    } else {
        let less_prefixes = remove_doi_prefixes(&lowercase);
        if is_loose_match(&less_prefixes) {
            let bytes = bytes_of_chars(&less_prefixes);
            let decoded = pct_decode_bytes(&bytes);
            match utf8_to_string(&decoded) {
                Some(text) => {
                    let decoded_chars = chars_of_str(text.as_str());
                    construct(&decoded_chars)
                },
                None => None,
            }
        } else {
            None
        }
    }
}

/// Whether the strict raw-DOI shape holds, executable form.
fn is_strict_match(v: &Vec<char>) -> (r: bool)
    ensures
        r == strict_match(v@),
{
    let ten = ten_dot_chars();
    if !starts_with_chars(v, &ten) {
        return false;
    }
    let e = digit_run_end_exec(v, 3);
    if !(e > 3 && v.len() - e > 1) {
        return false;
    }
    if v[e] != '/' {
        return false;
    }
    let mut j: usize = e + 1;
    while j < v.len()
        invariant
            e as int == digit_run_end(v@, 3),
            3 < e,
            e + 1 < v@.len(),
            v@[e as int] == '/',
            v@.take(3) == spec_ten_dot(),
            e + 1 <= j <= v@.len(),
            forall|k: int| e < k < j ==> v@[k] != '\n',
        decreases v@.len() - j,
    {
        if v[j] == '\n' {
            assert(!strict_match(v@));
            return false;
        }
        j = j + 1;
    }
    true
}

/// Whether the permissive DOI shape holds, executable form.
fn is_loose_match(v: &Vec<char>) -> (r: bool)
    ensures
        r == loose_match(v@),
{
    let ten = ten_dot_chars();
    if !starts_with_chars(v, &ten) {
        return false;
    }
    let e = digit_run_end_exec(v, 3);
    if e <= 3 {
        return false;
    }
    if e < v.len() && v[e] == '/' {
        return true;
    }
    if v.len() - e >= 3 && v[e] == '%' && v[e + 1] == '2' && v[e + 2] == 'f' {
        assert(v@.subrange(e as int, e + 3) =~= seq!['%', '2', 'f']);
        return true;
    }
    proof {
        if e + 3 <= v@.len() && v@.subrange(e as int, e as int + 3) == seq!['%', '2', 'f'] {
            assert(v@.subrange(e as int, e as int + 3)[0] == '%');
            assert(v@.subrange(e as int, e as int + 3)[1] == '2');
            assert(v@.subrange(e as int, e as int + 3)[2] == 'f');
        }
    }
    false
}

/// Encode a DOI as a URL per the DOI handbook's encoding rules for URL
/// presentation: unreserved and permitted reserved characters stand as
/// themselves, everything else is percent-encoded, under the main resolver.
pub fn to_uri(input: &Identifier) -> (r: Option<String>)
    ensures
        r.deep_view() == doi_uri_spec(input@),
{
    match input {
        Identifier::Doi { prefix, suffix } => {
            let suffix_chars = chars_of_str(suffix.as_str());
            let encoded_suffix = percent_encode_for_doi(&suffix_chars);
            let resolver = doi_resolver_chars();
            let prefix_chars = chars_of_str(prefix.as_str());
            let mut out = concat_chars(&resolver, &prefix_chars);
            out.push('/');
            let joined = concat_chars(&out, &encoded_suffix);
            proof {
                assert(joined@ =~= spec_doi_resolver() + prefix@ + seq!['/'] + doi_encode(
                    suffix@,
                ));
            }
            Some(string_of_chars(&joined))
        },
        _ => None,
    }
}

/// The URL form of a DOI identifier.
pub open spec fn doi_uri_spec(id: IdSpec) -> Option<Seq<char>> {
    match id {
        IdSpec::Doi { prefix, suffix } => Some(
            spec_doi_resolver() + prefix + seq!['/'] + doi_encode(suffix),
        ),
        _ => None,
    }
}

/// Encode a DOI as a stable string: its resolver URL, which is the DOI's
/// canonical persisted form.
pub fn to_stable_string(input: &Identifier) -> (r: Option<String>)
    ensures
        r.deep_view() == doi_uri_spec(input@),
{
    to_uri(input)
}

/// The raw-DOI lead-in, as characters.
fn ten_dot_chars() -> (r: Vec<char>)
    ensures
        r@ == spec_ten_dot(),
{
    let r = chars_of_str("10.");
    proof {
        reveal_strlit("10.");
        assert(r@ =~= spec_ten_dot());
    }
    r
}

/// The `https://` prefix, as characters.
fn https_chars() -> (r: Vec<char>)
    ensures
        r@ == spec_https(),
{
    let r = chars_of_str("https://");
    proof {
        reveal_strlit("https://");
        assert(r@ =~= spec_https());
    }
    r
}

/// The `http://` prefix, as characters.
fn http_chars() -> (r: Vec<char>)
    ensures
        r@ == spec_http(),
{
    let r = chars_of_str("http://");
    proof {
        reveal_strlit("http://");
        assert(r@ =~= spec_http());
    }
    r
}

/// The `doi:` label, as characters.
fn doi_label_chars() -> (r: Vec<char>)
    ensures
        r@ == spec_doi_label(),
{
    let r = chars_of_str("doi:");
    proof {
        reveal_strlit("doi:");
        assert(r@ =~= spec_doi_label());
    }
    r
}

/// The `urn:doi:` label, as characters.
fn urn_doi_chars() -> (r: Vec<char>)
    ensures
        r@ == spec_urn_doi(),
{
    let r = chars_of_str("urn:doi:");
    proof {
        reveal_strlit("urn:doi:");
        assert(r@ =~= spec_urn_doi());
    }
    r
}

/// The `info:doi:` label, as characters.
fn info_doi_chars() -> (r: Vec<char>)
    ensures
        r@ == spec_info_doi(),
{
    let r = chars_of_str("info:doi:");
    proof {
        reveal_strlit("info:doi:");
        assert(r@ =~= spec_info_doi());
    }
    r
}

/// The `doi.org/` resolver host, as characters.
fn doi_org_chars() -> (r: Vec<char>)
    ensures
        r@ == spec_doi_org(),
{
    let r = chars_of_str("doi.org/");
    proof {
        reveal_strlit("doi.org/");
        assert(r@ =~= spec_doi_org());
    }
    r
}

/// The `dx.doi.org/` resolver host, as characters.
fn dx_doi_org_chars() -> (r: Vec<char>)
    ensures
        r@ == spec_dx_doi_org(),
{
    let r = chars_of_str("dx.doi.org/");
    proof {
        reveal_strlit("dx.doi.org/");
        assert(r@ =~= spec_dx_doi_org());
    }
    r
}

/// The resolver prefix `https://doi.org/`, as characters.
fn doi_resolver_chars() -> (r: Vec<char>)
    ensures
        r@ == spec_doi_resolver(),
{
    let r = chars_of_str("https://doi.org/");
    proof {
        reveal_strlit("https://doi.org/");
        assert(r@ =~= spec_doi_resolver());
    }
    r
}

} // verus!

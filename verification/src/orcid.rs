//! ORCID, the Open Researcher and Contributor iD.
//!
//! An ORCID iD is recognised from a URL on the `orcid.org` host whose path is
//! four hyphen-separated groups of four characters, the first fifteen being
//! digits and the last being the MOD 11-2 check character.

use crate::identifiers::{
    host_lowercase_spec, path_no_slash_spec, IdSpec, Identifier, IdentifierParseInput, UriViewSpec,
};
use crate::text::{
    chars_eq, chars_of_str, concat_chars, is_digit_char, string_of_chars, upper_chars, upper_seq,
};
use vstd::arithmetic::power2::{
    lemma2_to64, lemma_pow2_strictly_increases, lemma_pow2_unfold, pow2,
};
use vstd::prelude::*;

verus! {

/// The host that serves ORCID iDs.
pub open spec fn spec_orcid_host() -> Seq<char> {
    seq!['o', 'r', 'c', 'i', 'd', '.', 'o', 'r', 'g']
}

/// The resolver prefix of an ORCID URI.
pub open spec fn spec_orcid_base() -> Seq<char> {
    seq!['h', 't', 't', 'p', 's', ':', '/', '/', 'o', 'r', 'c', 'i', 'd', '.', 'o', 'r', 'g', '/']
}

/// The shape `NNNN-NNNN-NNNN-NNN[0-9X]` of an ORCID iD.
pub open spec fn orcid_shape(p: Seq<char>) -> bool {
    &&& p.len() == 19
    &&& p[4] == '-' && p[9] == '-' && p[14] == '-'
    &&& forall|i: int|
        0 <= i < 18 && i != 4 && i != 9 && i != 14 ==> is_digit_char(#[trigger] p[i])
    &&& (is_digit_char(p[18]) || p[18] == 'X')
}

/// The fifteen base-digit characters of an ORCID iD, hyphens dropped and the
/// check character excluded.
pub open spec fn orcid_base_chars(p: Seq<char>) -> Seq<char> {
    p.subrange(0, 4) + p.subrange(5, 9) + p.subrange(10, 14) + p.subrange(15, 18)
}

/// True when every character is an ASCII digit.
pub open spec fn all_digits(cs: Seq<char>) -> bool {
    forall|i: int| 0 <= i < cs.len() ==> is_digit_char(#[trigger] cs[i])
}

/// The MOD 11-2 accumulation over digit characters from position `i`,
/// starting from `acc`: each step adds the digit and doubles.
pub open spec fn orcid_fold(cs: Seq<char>, i: int, acc: int) -> int
    decreases cs.len() - i,
{
    if i < 0 || i >= cs.len() {
        acc
    } else {
        orcid_fold(cs, i + 1, (acc + ((cs[i] as u32) - 48)) * 2)
    }
}

/// The check character computed from the base-digit characters: `X` stands
/// for ten.
pub open spec fn orcid_check_char_of(cs: Seq<char>) -> char {
    let total = orcid_fold(cs, 0, 0);
    let result = (12 - (total % 11)) % 11;
    if result == 10 {
        'X'
    } else {
        ((48 + result) as u8) as char
    }
}

/// True when the sequence is a well-shaped ORCID iD whose check character
/// agrees with its base digits.
pub open spec fn orcid_validate_spec(p: Seq<char>) -> bool {
    orcid_shape(p) && p[18] == orcid_check_char_of(orcid_base_chars(p))
}

/// What ORCID recognition yields on the URI view: the upper-cased path of a
/// URL on `orcid.org` when its shape and checksum hold.
pub open spec fn orcid_parse_spec(v: UriViewSpec) -> Option<IdSpec> {
    match path_no_slash_spec(v) {
        Some(path) => {
            if host_lowercase_spec(v) == Some(spec_orcid_host()) {
                let up = upper_seq(path);
                if orcid_validate_spec(up) {
                    Some(IdSpec::Orcid(up))
                } else {
                    None
                }
            } else {
                None
            }
        },
        None => None,
    }
}

/// Generate the check character for the fifteen base digits of an ORCID iD;
/// absent when a character is not a digit.
pub fn generate_check_digit(base_digits: &Vec<char>) -> (r: Option<char>)
    requires
        base_digits@.len() == 15,
    ensures
        (r is Some) == all_digits(base_digits@),
        r matches Some(c) ==> c == orcid_check_char_of(base_digits@),
{
    let ghost cs = base_digits@;
    let mut total: u32 = 0;
    let mut i: usize = 0;
    proof {
        lemma2_to64();
    }
    while i < 15
        invariant
            i <= 15,
            cs.len() == 15,
            cs == base_digits@,
            forall|j: int| 0 <= j < i ==> is_digit_char(#[trigger] cs[j]),
            total as int <= 18 * (pow2(i as nat) - 1),
            orcid_fold(cs, i as int, total as int) == orcid_fold(cs, 0, 0),
        decreases 15 - i,
    {
        let c = base_digits[i];
        let v = c as u32;
        if !(48 <= v && v <= 57) {
            assert(!is_digit_char(cs[i as int]));
            return None;
        }
        proof {
            lemma_pow2_unfold((i + 1) as nat);
            if i < 15 {
                lemma_pow2_strictly_increases(i as nat, 15);
            }
            lemma2_to64();
            assert(pow2(15) == 0x8000);
            assert((total + (v - 48)) * 2 <= 18 * (pow2((i + 1) as nat) - 1));
        }
        total = (total + (v - 48)) * 2;
        i = i + 1;
    }
    let remainder = total % 11;
    let result = (12 - remainder) % 11;
    assert(result as int == (12 - (orcid_fold(cs, 0, 0) % 11)) % 11);
    if result == 10 {
        Some('X')
    } else {
        Some(((48 + result) as u8) as char)
    }
}

/// Validate the shape and check character of a candidate ORCID iD.
pub fn validate_check_digit(orcid_id: &Vec<char>) -> (r: bool)
    ensures
        r == orcid_validate_spec(orcid_id@),
{
    if orcid_id.len() != 19 {
        return false;
    }
    if !(orcid_id[4] == '-' && orcid_id[9] == '-' && orcid_id[14] == '-') {
        return false;
    }
    let last = orcid_id[18];
    let lv = last as u32;
    if !((48 <= lv && lv <= 57) || last == 'X') {
        return false;
    }
    let mut digits: Vec<char> = Vec::new();
    let mut i: usize = 0;
    while i < 18
        invariant
            i <= 18,
            orcid_id@.len() == 19,
            forall|j: int|
                0 <= j < i && j != 4 && j != 9 && j != 14 ==> is_digit_char(#[trigger] orcid_id@[j]),
            digits@ == orcid_base_chars(orcid_id@).take(
                if i <= 4 {
                    i as int
                } else if i <= 9 {
                    i - 1
                } else if i <= 14 {
                    i - 2
                } else {
                    i - 3
                },
            ),
        decreases 18 - i,
    {
        let c = orcid_id[i];
        if i == 4 || i == 9 || i == 14 {
            // The hyphens were already checked above.
        } else {
            let v = c as u32;
            if !(48 <= v && v <= 57) {
                assert(!is_digit_char(orcid_id@[i as int]));
                return false;
            }
            digits.push(c);
            proof {
                let g = orcid_base_chars(orcid_id@);
                let k = if i <= 4 {
                    i as int
                } else if i <= 9 {
                    i - 1
                } else if i <= 14 {
                    i - 2
                } else {
                    i - 3
                };
                assert(g[k] == orcid_id@[i as int]);
                assert(digits@ =~= g.take(k + 1));
            }
        }
        i = i + 1;
    }
    proof {
        assert(digits@ =~= orcid_base_chars(orcid_id@));
    }
    match generate_check_digit(&digits) {
        Some(expected) => {
            assert(orcid_shape(orcid_id@));
            expected == last
        },
        None => false,
    }
}

/// Parse an input as an ORCID iD from its URI view.
pub fn try_parse(input: &IdentifierParseInput) -> (r: Option<Identifier>)
    ensures
        r.deep_view() == orcid_parse_spec(input.uri_view()),
{
    match input.path_no_slash() {
        Some(path) => {
            match input.host_lowercase() {
                Some(host) => {
                    let expected = orcid_host_chars();
                    if chars_eq(&host, &expected) {
                        let up = upper_chars(&path);
                        if validate_check_digit(&up) {
                            Some(Identifier::Orcid(string_of_chars(&up)))
                        } else {
                            None
                        }
                    } else {
                        None
                    }
                },
                None => None,
            }
        },
        None => None,
    }
}

/// Encode an ORCID iD as a URI on the `orcid.org` resolver.
pub fn to_uri(input: &Identifier) -> (r: Option<String>)
    ensures
        r.deep_view() == orcid_uri_spec(input@),
{
    match input {
        Identifier::Orcid(value) => {
            let base = orcid_base_chars_exec();
            let v = chars_of_str(value.as_str());
            let joined = concat_chars(&base, &v);
            Some(string_of_chars(&joined))
        },
        _ => None,
    }
}

/// The URI form of an ORCID identifier.
pub open spec fn orcid_uri_spec(id: IdSpec) -> Option<Seq<char>> {
    match id {
        IdSpec::Orcid(v) => Some(spec_orcid_base() + v),
        _ => None,
    }
}

/// Encode an ORCID iD as a stable string: its URI form.
pub fn to_stable_string(input: &Identifier) -> (r: Option<String>)
    ensures
        r.deep_view() == orcid_uri_spec(input@),
{
    to_uri(input)
}

/// A validated ORCID iD carries no lower-case letter: its characters are
/// digits, hyphens and `X`.
pub proof fn lemma_orcid_no_lower(v: Seq<char>)
    requires
        orcid_shape(v),
    ensures
        crate::text::no_lower(v),
        upper_seq(v) == v,
{
    assert forall|i: int| 0 <= i < v.len() implies !crate::text::is_lower_char(
        #[trigger] v[i],
    ) by {
        if i != 4 && i != 9 && i != 14 && i != 18 {
            assert(is_digit_char(v[i]));
        }
    }
    crate::text::lemma_upper_seq_no_lower(v);
}

/// A validated ORCID iD is recognised again from the URI view of its own
/// URL: host `orcid.org` and the iD as the path.
pub proof fn lemma_orcid_reparse(v: Seq<char>, w: UriViewSpec)
    requires
        orcid_validate_spec(v),
        w.ok,
        w.host == Some(spec_orcid_host()),
        w.path == seq!['/'] + v,
    ensures
        orcid_parse_spec(w) == Some(IdSpec::Orcid(v)),
{
    assert(w.path[0] == '/');
    assert(w.path.len() > 0);
    assert(path_no_slash_spec(w) == Some(w.path.skip(1)));
    assert(w.path.skip(1) =~= v);
    assert(crate::text::no_upper(spec_orcid_host())) by {
        assert forall|i: int| 0 <= i < spec_orcid_host().len() implies !crate::text::is_upper_char(
            #[trigger] spec_orcid_host()[i],
        ) by {}
    }
    crate::text::lemma_lower_seq_no_upper(spec_orcid_host());
    assert(host_lowercase_spec(w) == Some(spec_orcid_host()));
    lemma_orcid_no_lower(v);
}

/// The ORCID host, as characters.
fn orcid_host_chars() -> (r: Vec<char>)
    ensures
        r@ == spec_orcid_host(),
{
    let r = chars_of_str("orcid.org");
    proof {
        reveal_strlit("orcid.org");
        assert(r@ =~= spec_orcid_host());
    }
    r
}

/// The ORCID resolver prefix, as characters.
fn orcid_base_chars_exec() -> (r: Vec<char>)
    ensures
        r@ == spec_orcid_base(),
{
    let r = chars_of_str("https://orcid.org/");
    proof {
        reveal_strlit("https://orcid.org/");
        assert(r@ =~= spec_orcid_base());
    }
    r
}

} // verus!

//! ROR, the Research Organization Registry identifier.
//!
//! A ROR identifier is recognised from a URL on the `ror.org` host whose path
//! is a 9-character code: a leading `0`, six characters from Crockford's
//! base-32 alphabet, and a two-digit decimal checksum.  Case is significant:
//! an upper-cased code is not a ROR identifier.

use crate::identifiers::{
    host_lowercase_spec, path_no_slash_spec, IdSpec, Identifier, IdentifierParseInput, UriViewSpec,
};
use crate::text::{chars_eq, chars_of_str, concat_chars, is_digit_char, string_of_chars};
use vstd::arithmetic::power2::{lemma2_to64, lemma_pow2_adds, pow2};
use vstd::prelude::*;

verus! {

/// The host that serves ROR identifiers.
pub open spec fn spec_ror_host() -> Seq<char> {
    seq!['r', 'o', 'r', '.', 'o', 'r', 'g']
}

/// The resolver prefix of a ROR URI.
pub open spec fn spec_ror_base() -> Seq<char> {
    seq!['h', 't', 't', 'p', 's', ':', '/', '/', 'r', 'o', 'r', '.', 'o', 'r', 'g', '/']
}

/// A character admitted in the body of a ROR code: a digit or a lower-case
/// letter of Crockford's base-32 alphabet, which excludes `i`, `l`, `o`
/// and `u`.
pub open spec fn ror_body_char(c: char) -> bool {
    is_digit_char(c) || (97 <= c as u32 <= 104) || c == 'j' || c == 'k' || c == 'm' || c == 'n' || (
    112 <= c as u32 <= 116) || (118 <= c as u32 <= 122)
}

/// The 9-character shape of a ROR code: `0`, six body characters, two
/// checksum digits.
pub open spec fn ror_shape(p: Seq<char>) -> bool {
    &&& p.len() == 9
    &&& p[0] == '0'
    &&& forall|i: int| 1 <= i < 7 ==> ror_body_char(#[trigger] p[i])
    &&& is_digit_char(p[7])
    &&& is_digit_char(p[8])
}

/// The value of one character under Crockford's base-32 alphabet
/// `0123456789abcdefghjkmnpqrstvwxyz`; unrecognised characters count zero.
pub open spec fn base_32_val(c: char) -> u64 {
    if is_digit_char(c) {
        ((c as u32) - 48) as u64
    } else if 97 <= c as u32 <= 104 {
        ((c as u32) - 87) as u64
    } else if c == 'j' || c == 'k' {
        ((c as u32) - 88) as u64
    } else if c == 'm' || c == 'n' {
        ((c as u32) - 89) as u64
    } else if 112 <= c as u32 <= 116 {
        ((c as u32) - 90) as u64
    } else if 118 <= c as u32 <= 122 {
        ((c as u32) - 91) as u64
    } else {
        0
    }
}

/// The base-32 number encoded by the characters from position `i`, folded
/// onto `acc`.
pub open spec fn base_32_fold(cs: Seq<char>, i: int, acc: int) -> int
    decreases cs.len() - i,
{
    if i < 0 || i >= cs.len() {
        acc
    } else {
        base_32_fold(cs, i + 1, acc * 32 + base_32_val(cs[i]))
    }
}

/// The checksum expected for the 7-character identifier part of a code.
pub open spec fn expected_check_spec(cs: Seq<char>) -> int {
    98 - ((base_32_fold(cs, 0, 0) * 100) % 97)
}

/// The two-digit checksum a code carries.
pub open spec fn supplied_check_spec(p: Seq<char>) -> int {
    ((p[7] as u32) - 48) * 10 + ((p[8] as u32) - 48)
}

/// True when the sequence is a well-shaped ROR code whose checksum agrees
/// with its identifier part.
pub open spec fn ror_validate_spec(p: Seq<char>) -> bool {
    ror_shape(p) && expected_check_spec(p.take(7)) == supplied_check_spec(p)
}

/// What ROR recognition yields on the URI view: the case-preserved path of a
/// URL on `ror.org` when its shape and checksum hold.
pub open spec fn ror_parse_spec(v: UriViewSpec) -> Option<IdSpec> {
    if host_lowercase_spec(v) == Some(spec_ror_host()) {
        match path_no_slash_spec(v) {
            Some(path) => {
                if ror_validate_spec(path) {
                    Some(IdSpec::Ror(path))
                } else {
                    None
                }
            },
            None => None,
        }
    } else {
        None
    }
}

/// Generate the checksum for the 7-character identifier part of a code.
/// Characters outside the base-32 alphabet count zero; the preceding shape
/// check is what restricts the alphabet.
pub fn expected_check_digit(identifier: &Vec<char>) -> (r: u64)
    requires
        identifier@.len() == 7,
    ensures
        r as int == expected_check_spec(identifier@),
{
    let ghost cs = identifier@;
    let mut parsed: u64 = 0;
    let mut i: usize = 0;
    proof {
        lemma2_to64();
        vstd::arithmetic::power2::lemma2_to64_rest();
    }
    while i < 7
        invariant
            i <= 7,
            cs.len() == 7,
            cs == identifier@,
            parsed < pow2((5 * i) as nat),
            base_32_fold(cs, i as int, parsed as int) == base_32_fold(cs, 0, 0),
        decreases 7 - i,
    {
        let c = identifier[i];
        let v = c as u32;
        let value: u64 = if 48 <= v && v <= 57 {
            (v - 48) as u64
        } else if 97 <= v && v <= 104 {
            (v - 87) as u64
        } else if c == 'j' || c == 'k' {
            (v - 88) as u64
        } else if c == 'm' || c == 'n' {
            (v - 89) as u64
        } else if 112 <= v && v <= 116 {
            (v - 90) as u64
        } else if 118 <= v && v <= 122 {
            (v - 91) as u64
        } else {
            0
        };
        assert(value == base_32_val(cs[i as int]));
        assert(value < 32);
        proof {
            lemma_pow2_adds((5 * i) as nat, 5);
            lemma2_to64();
            vstd::arithmetic::power2::lemma2_to64_rest();
            assert(pow2(35) == 0x800000000);
            assert(parsed * 32 + value < pow2((5 * (i + 1)) as nat)) by (nonlinear_arith)
                requires
                    parsed < pow2((5 * i) as nat),
                    value < 32,
                    pow2((5 * (i + 1)) as nat) == pow2((5 * i) as nat) * pow2(5),
                    pow2(5) == 32,
            ;
        }
        parsed = parsed * 32 + value;
        i = i + 1;
    }
    proof {
        lemma2_to64();
        vstd::arithmetic::power2::lemma2_to64_rest();
        assert(pow2(35) == 0x800000000);
    }
    98 - ((parsed * 100) % 97)
}

/// Validate the shape and checksum of a candidate ROR code.
pub fn validate_check_digit(path: &Vec<char>) -> (r: bool)
    ensures
        r == ror_validate_spec(path@),
{
    if path.len() != 9 {
        return false;
    }
    if path[0] != '0' {
        return false;
    }
    let mut i: usize = 1;
    while i < 7
        invariant
            1 <= i <= 7,
            path@.len() == 9,
            forall|j: int| 1 <= j < i ==> ror_body_char(#[trigger] path@[j]),
        decreases 7 - i,
    {
        let c = path[i];
        let v = c as u32;
        let ok = (48 <= v && v <= 57) || (97 <= v && v <= 104) || c == 'j' || c == 'k' || c == 'm'
            || c == 'n' || (112 <= v && v <= 116) || (118 <= v && v <= 122);
        if !ok {
            assert(!ror_body_char(path@[i as int]));
            return false;
        }
        i = i + 1;
    }
    let c7 = path[7] as u32;
    let c8 = path[8] as u32;
    if !(48 <= c7 && c7 <= 57 && 48 <= c8 && c8 <= 57) {
        return false;
    }
    let mut ident: Vec<char> = Vec::new();
    let mut j: usize = 0;
    while j < 7
        invariant
            j <= 7,
            path@.len() == 9,
            ident@ == path@.take(j as int),
        decreases 7 - j,
    {
        ident.push(path[j]);
        j = j + 1;
        assert(ident@ =~= path@.take(j as int));
    }
    let check_digit_value: u64 = ((c7 - 48) * 10 + (c8 - 48)) as u64;
    assert(ror_shape(path@));
    expected_check_digit(&ident) == check_digit_value
}

/// Parse an input as a ROR identifier from its URI view.
pub fn try_parse(input: &IdentifierParseInput) -> (r: Option<Identifier>)
    ensures
        r.deep_view() == ror_parse_spec(input.uri_view()),
{
    match input.host_lowercase() {
        Some(host) => {
            let expected = ror_host_chars();
            if chars_eq(&host, &expected) {
                match input.path_no_slash() {
                    Some(path) => {
                        if validate_check_digit(&path) {
                            Some(Identifier::Ror(string_of_chars(&path)))
                        } else {
                            None
                        }
                    },
                    None => None,
                }
            } else {
                None
            }
        },
        None => None,
    }
}

/// Encode a ROR identifier as a URI on the `ror.org` resolver.
pub fn to_uri(input: &Identifier) -> (r: Option<String>)
    ensures
        r.deep_view() == ror_uri_spec(input@),
{
    match input {
        Identifier::Ror(value) => {
            let base = ror_base_chars_exec();
            let v = chars_of_str(value.as_str());
            let joined = concat_chars(&base, &v);
            Some(string_of_chars(&joined))
        },
        _ => None,
    }
}

/// The URI form of a ROR identifier.
pub open spec fn ror_uri_spec(id: IdSpec) -> Option<Seq<char>> {
    match id {
        IdSpec::Ror(v) => Some(spec_ror_base() + v),
        _ => None,
    }
}

/// Encode a ROR identifier as a stable string: its URI form.
pub fn to_stable_string(input: &Identifier) -> (r: Option<String>)
    ensures
        r.deep_view() == ror_uri_spec(input@),
{
    to_uri(input)
}

/// A validated ROR code is recognised again from the URI view of its own
/// URL: host `ror.org` and the code as the path, case preserved.
pub proof fn lemma_ror_reparse(v: Seq<char>, w: UriViewSpec)
    requires
        ror_validate_spec(v),
        w.ok,
        w.host == Some(spec_ror_host()),
        w.path == seq!['/'] + v,
    ensures
        ror_parse_spec(w) == Some(IdSpec::Ror(v)),
{
    assert(w.path[0] == '/');
    assert(w.path.len() > 0);
    assert(path_no_slash_spec(w) == Some(w.path.skip(1)));
    assert(w.path.skip(1) =~= v);
    assert(crate::text::no_upper(spec_ror_host())) by {
        assert forall|i: int| 0 <= i < spec_ror_host().len() implies !crate::text::is_upper_char(
            #[trigger] spec_ror_host()[i],
        ) by {}
    }
    crate::text::lemma_lower_seq_no_upper(spec_ror_host());
    assert(host_lowercase_spec(w) == Some(spec_ror_host()));
}

/// The ROR host, as characters.
fn ror_host_chars() -> (r: Vec<char>)
    ensures
        r@ == spec_ror_host(),
{
    let r = chars_of_str("ror.org");
    proof {
        reveal_strlit("ror.org");
        assert(r@ =~= spec_ror_host());
    }
    r
}

/// The ROR resolver prefix, as characters.
fn ror_base_chars_exec() -> (r: Vec<char>)
    ensures
        r@ == spec_ror_base(),
{
    let r = chars_of_str("https://ror.org/");
    proof {
        reveal_strlit("https://ror.org/");
        assert(r@ =~= spec_ror_base());
    }
    r
}

} // verus!

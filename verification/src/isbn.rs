//! ISBN, the International Standard Book Number.
//!
//! A logical ISBN can be written with 10 or 13 digits.  Both are recognised,
//! tolerating embedded spaces and hyphens and an optional `urn:isbn:` label,
//! matched with ASCII case folding.  Digit extraction accepts `X` (in either
//! case, standing for ten) anywhere; the validators then admit it only as
//! the check character of the 10-digit form, so the stored payload is always
//! 13 ASCII digits.  A valid 10-digit ISBN is normalised to the 13-digit
//! form, which is the superset of what can be recorded.

use crate::identifiers::{IdSpec, Identifier, IdentifierParseInput};
use crate::text::{
    chars_of_str, concat_chars, is_digit_char, starts_with, starts_with_chars, string_of_chars,
    upper_chars, upper_seq, vec_skip,
};
use vstd::prelude::*;

verus! {

/// A character an ISBN may contain after label stripping.
pub open spec fn isbn_char(c: char) -> bool {
    is_digit_char(c) || c == 'X' || c == 'x' || c == ' ' || c == '-'
}

/// True when every character is acceptable in an ISBN.
pub open spec fn isbn_chars_ok(s: Seq<char>) -> bool {
    forall|i: int| 0 <= i < s.len() ==> isbn_char(#[trigger] s[i])
}

/// A character that carries a digit value (`X` and `x` stand for ten).
pub open spec fn isbn_digit_carrier(c: char) -> bool {
    is_digit_char(c) || c == 'X' || c == 'x'
}

/// The value carried by a digit character; `X` and `x` stand for ten.
pub open spec fn isbn_digit_val(c: char) -> u32 {
    if is_digit_char(c) {
        ((c as u32) - 48) as u32
    } else {
        10
    }
}

/// The digit values of a character sequence, in order, separators dropped.
pub open spec fn digits_of(s: Seq<char>) -> Seq<u32>
    decreases s.len(),
{
    if s.len() == 0 {
        seq![]
    } else if isbn_digit_carrier(s[0]) {
        seq![isbn_digit_val(s[0])] + digits_of(s.skip(1))
    } else {
        digits_of(s.skip(1))
    }
}

/// The digit values, absent when any character is unacceptable.
pub open spec fn str_to_digits_spec(s: Seq<char>) -> Option<Seq<u32>> {
    if isbn_chars_ok(s) {
        Some(digits_of(s))
    } else {
        None
    }
}

/// The weighted sum `digits[i] * (10 - i)` over positions `i` to 8.
pub open spec fn sum_10(d: Seq<u32>, i: int) -> int
    decreases 9 - i,
{
    if i < 0 || i >= 9 {
        0
    } else {
        d[i] * (10 - i) + sum_10(d, i + 1)
    }
}

/// Checksum of a 10-digit ISBN from its first nine digits.
pub open spec fn gen_10_spec(d: Seq<u32>) -> int {
    11 - (sum_10(d, 0) % 11)
}

/// True when the value sequence is a checksum-valid 10-digit ISBN.  The
/// first nine values must be digits: `X`, the value ten, is admitted only
/// as the check character.
pub open spec fn validate_10_spec(d: Seq<u32>) -> bool {
    &&& d.len() == 10
    &&& forall|i: int| 0 <= i < 9 ==> #[trigger] d[i] <= 9
    &&& gen_10_spec(d) == d[9]
}

/// The alternating weight for the 13-digit checksum.
pub open spec fn weight_13(i: int) -> int {
    if i % 2 == 0 {
        1
    } else {
        3
    }
}

/// The weighted sum with alternating weights 1 and 3 over positions `i` to 11.
pub open spec fn sum_13(d: Seq<u32>, i: int) -> int
    decreases 12 - i,
{
    if i < 0 || i >= 12 {
        0
    } else {
        d[i] * weight_13(i) + sum_13(d, i + 1)
    }
}

/// Check digit of a 13-digit ISBN from its first twelve digits: the value
/// that brings the weighted sum to a multiple of ten.  The final reduction
/// keeps the check a single digit — a sum already divisible by ten yields
/// check digit 0 — which is the only reading under which every converted
/// 10-digit ISBN has an all-numeric 13-digit payload that validates and
/// round-trips again.
pub open spec fn gen_13_spec(d: Seq<u32>) -> int {
    (10 - (sum_13(d, 0) % 10)) % 10
}

/// True when the value sequence is a checksum-valid 13-digit ISBN.  All
/// thirteen values must be digits: `X` has no place in the 13-digit form.
pub open spec fn validate_13_spec(d: Seq<u32>) -> bool {
    &&& d.len() == 13
    &&& forall|i: int| 0 <= i < 13 ==> #[trigger] d[i] <= 9
    &&& gen_13_spec(d) == d[12]
}

/// The 13-digit form of a 10-digit ISBN: prepend 978 to its first nine
/// digits and recompute the check digit.
pub open spec fn ten_to_thirteen_spec(d: Seq<u32>) -> Seq<u32> {
    let base = seq![9u32, 7u32, 8u32] + d.take(9);
    base.push(((10 - (sum_13(base, 0) % 10)) % 10) as u32)
}

/// The character for one digit value below ten.
pub open spec fn isbn_digit_char(v: u32) -> char
    recommends
        v <= 9,
{
    ((48 + v) as u8) as char
}

/// The character string of a digit sequence.
pub open spec fn digits_to_str_spec(d: Seq<u32>) -> Seq<char> {
    Seq::new(d.len(), |i: int| isbn_digit_char(d[i]))
}

/// The label that may precede an ISBN, in its upper-case form.
pub open spec fn spec_urn_isbn_upper() -> Seq<char> {
    seq!['U', 'R', 'N', ':', 'I', 'S', 'B', 'N', ':']
}

/// The `urn:isbn:` URI scheme prefix.
pub open spec fn spec_urn_isbn() -> Seq<char> {
    seq!['u', 'r', 'n', ':', 'i', 's', 'b', 'n', ':']
}

/// What ISBN recognition yields on a raw input: strip a `urn:isbn:` label
/// under ASCII case folding, read the digits, accept a checksum-valid 10-
/// or 13-digit sequence, and normalise to the 13-digit string.
#[verifier::opaque]
pub open spec fn isbn_parse_spec(raw: Seq<char>) -> Option<IdSpec> {
    let up = upper_seq(raw);
    let less = if starts_with(up, spec_urn_isbn_upper()) {
        up.skip(9)
    } else {
        raw
    };
    match str_to_digits_spec(less) {
        Some(d) => if validate_10_spec(d) {
            Some(IdSpec::Isbn(digits_to_str_spec(ten_to_thirteen_spec(d))))
        } else if validate_13_spec(d) {
            Some(IdSpec::Isbn(digits_to_str_spec(d)))
        } else {
            None
        },
        None => None,
    }
}

/// Return the vector of digit values for a candidate ISBN of any size, in
/// input order with spaces and hyphens dropped; absent exactly when some
/// character is unacceptable.  Length and digit placement are left to the
/// validators.
pub fn str_to_digits(input: &Vec<char>) -> (r: Option<Vec<u32>>)
    ensures
        (r is Some) == isbn_chars_ok(input@),
        r matches Some(d) ==> d@ == digits_of(input@),
        r matches Some(d) ==> forall|i: int| 0 <= i < d@.len() ==> #[trigger] d@[i] <= 10,
{
    let mut out: Vec<u32> = Vec::new();
    let mut i: usize = 0;
    proof {
        assert(input@.skip(0) =~= input@);
    }
    while i < input.len()
        invariant
            i <= input@.len(),
            forall|j: int| 0 <= j < i ==> isbn_char(#[trigger] input@[j]),
            digits_of(input@) == out@ + digits_of(input@.skip(i as int)),
            forall|j: int| 0 <= j < out@.len() ==> #[trigger] out@[j] <= 10,
        decreases input@.len() - i,
    {
        let ghost pre = out@;
        let ghost rest = input@.skip(i as int);
        let c = input[i];
        let v = c as u32;
        if 48 <= v && v <= 57 {
            out.push(v - 48);
            assert(out@ =~= pre + seq![isbn_digit_val(c)]);
        } else if c == 'X' || c == 'x' {
            out.push(10);
            assert(out@ =~= pre + seq![isbn_digit_val(c)]);
        } else if c == ' ' || c == '-' {
            assert(out@ =~= pre + Seq::<u32>::empty());
        } else {
            assert(!isbn_char(input@[i as int]));
            assert(!isbn_chars_ok(input@));
            return None;
        }
        i = i + 1;
        proof {
            assert(rest.skip(1) =~= input@.skip(i as int));
        }
    }
    proof {
        assert(input@.skip(i as int) =~= Seq::<char>::empty());
        assert(out@ =~= digits_of(input@));
        assert(isbn_chars_ok(input@));
    }
    Some(out)
}

/// The character string of a digit vector.
pub fn digits_to_str(d: &Vec<u32>) -> (r: String)
    requires
        forall|i: int| 0 <= i < d@.len() ==> #[trigger] d@[i] <= 9,
    ensures
        r@ == digits_to_str_spec(d@),
{
    let mut out: Vec<char> = Vec::new();
    let mut i: usize = 0;
    while i < d.len()
        invariant
            i <= d@.len(),
            forall|j: int| 0 <= j < d@.len() ==> #[trigger] d@[j] <= 9,
            out@ == digits_to_str_spec(d@).subrange(0, i as int),
        decreases d@.len() - i,
    {
        let v = d[i];
        out.push(((48 + v) as u8) as char);
        i = i + 1;
        assert(out@ =~= digits_to_str_spec(d@).subrange(0, i as int));
    }
    assert(out@ =~= digits_to_str_spec(d@));
    string_of_chars(&out)
}

/// Generate the checksum for a 10-digit ISBN.
pub fn generate_10_digit_checksum(digits: &Vec<u32>) -> (r: u32)
    requires
        digits@.len() >= 9,
        forall|i: int| 0 <= i < digits@.len() ==> #[trigger] digits@[i] <= 10,
    ensures
        r as int == gen_10_spec(digits@),
{
    let mut sum: u32 = 0;
    let mut i: usize = 0;
    while i < 9
        invariant
            i <= 9,
            digits@.len() >= 9,
            forall|j: int| 0 <= j < digits@.len() ==> #[trigger] digits@[j] <= 10,
            sum <= 100 * i,
            sum + sum_10(digits@, i as int) == sum_10(digits@, 0),
        decreases 9 - i,
    {
        let w: u32 = 10 - (i as u32);
        let dv = digits[i];
        assert(dv * w <= 100) by (nonlinear_arith)
            requires
                dv <= 10,
                w <= 10,
        ;
        sum = sum + dv * w;
        i = i + 1;
    }
    11 - (sum % 11)
}

/// Validate a candidate 10-digit ISBN: ten values, digits in the first
/// nine positions, and an agreeing check value.
pub fn validate_10_digit(digits: &Vec<u32>) -> (r: bool)
    requires
        forall|i: int| 0 <= i < digits@.len() ==> #[trigger] digits@[i] <= 10,
    ensures
        r == validate_10_spec(digits@),
{
    if digits.len() != 10 {
        return false;
    }
    let mut i: usize = 0;
    while i < 9
        invariant
            i <= 9,
            digits@.len() == 10,
            forall|j: int| 0 <= j < i ==> #[trigger] digits@[j] <= 9,
        decreases 9 - i,
    {
        if digits[i] > 9 {
            return false;
        }
        i = i + 1;
    }
    generate_10_digit_checksum(digits) == digits[9]
}

/// Generate the check digit for a 13-digit ISBN from its first twelve
/// digits.
pub fn generate_13_digit_checksum(digits: &Vec<u32>) -> (r: u32)
    requires
        digits@.len() >= 12,
        forall|i: int| 0 <= i < digits@.len() ==> #[trigger] digits@[i] <= 10,
    ensures
        r as int == gen_13_spec(digits@),
        r <= 9,
{
    let mut sum: u32 = 0;
    let mut i: usize = 0;
    while i < 12
        invariant
            i <= 12,
            digits@.len() >= 12,
            forall|j: int| 0 <= j < digits@.len() ==> #[trigger] digits@[j] <= 10,
            sum <= 30 * i,
            sum + sum_13(digits@, i as int) == sum_13(digits@, 0),
        decreases 12 - i,
    {
        let w: u32 = if i % 2 == 0 {
            1
        } else {
            3
        };
        let dv = digits[i];
        assert(dv * w <= 30) by (nonlinear_arith)
            requires
                dv <= 10,
                w <= 3,
        ;
        sum = sum + dv * w;
        i = i + 1;
    }
    (10 - (sum % 10)) % 10
}

/// Validate a candidate 13-digit ISBN: thirteen digit values and an
/// agreeing check digit.
pub fn validate_13_digit(digits: &Vec<u32>) -> (r: bool)
    requires
        forall|i: int| 0 <= i < digits@.len() ==> #[trigger] digits@[i] <= 10,
    ensures
        r == validate_13_spec(digits@),
{
    if digits.len() != 13 {
        return false;
    }
    let mut i: usize = 0;
    while i < 13
        invariant
            i <= 13,
            digits@.len() == 13,
            forall|j: int| 0 <= j < i ==> #[trigger] digits@[j] <= 9,
        decreases 13 - i,
    {
        if digits[i] > 9 {
            return false;
        }
        i = i + 1;
    }
    generate_13_digit_checksum(digits) == digits[12]
}

/// Convert a 10-digit ISBN to 13 digits by prepending 978 and recalculating
/// the check digit.
pub fn ten_digit_to_thirteen_digit(digits: &Vec<u32>) -> (r: Vec<u32>)
    requires
        digits@.len() == 10,
        forall|i: int| 0 <= i < digits@.len() ==> #[trigger] digits@[i] <= 10,
        forall|i: int| 0 <= i < 9 ==> #[trigger] digits@[i] <= 9,
    ensures
        r@ == ten_to_thirteen_spec(digits@),
        forall|i: int| 0 <= i < r@.len() ==> #[trigger] r@[i] <= 9,
{
    let mut base: Vec<u32> = Vec::new();
    base.push(9);
    base.push(7);
    base.push(8);
    let mut i: usize = 0;
    while i < 9
        invariant
            i <= 9,
            digits@.len() == 10,
            forall|j: int| 0 <= j < digits@.len() ==> #[trigger] digits@[j] <= 10,
            base@ == seq![9u32, 7u32, 8u32] + digits@.take(i as int),
        decreases 9 - i,
    {
        base.push(digits[i]);
        i = i + 1;
        assert(base@ =~= seq![9u32, 7u32, 8u32] + digits@.take(i as int));
    }
    let check = generate_13_digit_checksum(&base);
    base.push(check);
    proof {
        assert(base@ =~= ten_to_thirteen_spec(digits@));
    }
    base
}

/// Parse an input as a 10- or 13-digit ISBN, normalised to 13 digits.
pub fn try_parse(input: &IdentifierParseInput) -> (r: Option<Identifier>)
    ensures
        r.deep_view() == isbn_parse_spec(input.raw@),
{
    proof {
        reveal(isbn_parse_spec);
    }
    let raw = chars_of_str(input.raw.as_str());
    let up = upper_chars(&raw);
    let label = urn_isbn_upper_chars();
    let less = if starts_with_chars(&up, &label) {
        vec_skip(&up, 9)
    } else {
        raw
    };
    match str_to_digits(&less) {
        Some(d) => {
            if validate_10_digit(&d) {
                let thirteen = ten_digit_to_thirteen_digit(&d);
                Some(Identifier::Isbn(digits_to_str(&thirteen)))
            } else if validate_13_digit(&d) {
                Some(Identifier::Isbn(digits_to_str(&d)))
            } else {
                None
            }
        },
        None => None,
    }
}

/// Convert an ISBN to a URN URI under the `urn:isbn:` scheme.
pub fn to_uri(input: &Identifier) -> (r: Option<String>)
    ensures
        r.deep_view() == isbn_uri_spec(input@),
{
    match input {
        Identifier::Isbn(value) => {
            let label = urn_isbn_chars();
            let v = chars_of_str(value.as_str());
            let joined = concat_chars(&label, &v);
            Some(string_of_chars(&joined))
        },
        _ => None,
    }
}

/// The URN form of an ISBN identifier.
pub open spec fn isbn_uri_spec(id: IdSpec) -> Option<Seq<char>> {
    match id {
        IdSpec::Isbn(v) => Some(spec_urn_isbn() + v),
        _ => None,
    }
}

/// Encode an ISBN as a stable string: the bare 13-digit string.
pub fn to_stable_string(input: &Identifier) -> (r: Option<String>)
    ensures
        r.deep_view() == isbn_stable_spec(input@),
{
    match input {
        Identifier::Isbn(value) => Some(value.clone()),
        _ => None,
    }
}

/// The stable string of an ISBN identifier.
pub open spec fn isbn_stable_spec(id: IdSpec) -> Option<Seq<char>> {
    match id {
        IdSpec::Isbn(v) => Some(v),
        _ => None,
    }
}

/// A canonical stored ISBN payload: the 13-digit rendering of a
/// checksum-valid digit sequence.
pub open spec fn isbn_wf(v: Seq<char>) -> bool {
    &&& isbn_chars_ok(v)
    &&& validate_13_spec(digits_of(v))
    &&& v == digits_to_str_spec(digits_of(v))
}

/// The digit characters written for digit values below ten read back as
/// the same values, and each is an ASCII digit, acceptable in an ISBN and
/// not lower-case.
pub proof fn lemma_digits_of_to_str(d: Seq<u32>)
    requires
        forall|i: int| 0 <= i < d.len() ==> #[trigger] d[i] <= 9,
    ensures
        isbn_chars_ok(digits_to_str_spec(d)),
        digits_of(digits_to_str_spec(d)) == d,
        forall|i: int|
            0 <= i < d.len() ==> is_digit_char(#[trigger] digits_to_str_spec(d)[i]),
        upper_seq(digits_to_str_spec(d)) == digits_to_str_spec(d),
    decreases d.len(),
{
    let s = digits_to_str_spec(d);
    assert forall|i: int| 0 <= i < s.len() implies is_digit_char(#[trigger] s[i]) && isbn_char(
        s[i],
    ) && isbn_digit_carrier(s[i]) && isbn_digit_val(s[i]) == d[i] && !crate::text::is_lower_char(
        s[i],
    ) by {
        assert(s[i] == isbn_digit_char(d[i]));
    }
    if d.len() == 0 {
        assert(digits_of(s) =~= d);
    } else {
        lemma_digits_of_to_str(d.skip(1));
        assert(s.skip(1) =~= digits_to_str_spec(d.skip(1)));
        assert(digits_of(s) =~= seq![isbn_digit_val(s[0])] + digits_of(s.skip(1)));
        assert(digits_of(s) =~= d);
    }
    crate::text::lemma_upper_seq_no_lower(s);
}

/// The 13-digit form of a valid 10-digit ISBN is itself checksum-valid, and
/// each of its entries is a digit value.
pub proof fn lemma_ten_to_thirteen_valid(d: Seq<u32>)
    requires
        d.len() == 10,
        forall|i: int| 0 <= i < 9 ==> #[trigger] d[i] <= 9,
    ensures
        validate_13_spec(ten_to_thirteen_spec(d)),
        forall|i: int|
            0 <= i < ten_to_thirteen_spec(d).len() ==> #[trigger] ten_to_thirteen_spec(d)[i] <= 9,
{
    let base = seq![9u32, 7u32, 8u32] + d.take(9);
    let t = ten_to_thirteen_spec(d);
    assert(t == base.push((((10 - (sum_13(base, 0) % 10)) % 10)) as u32));
    assert(t.len() == 13);
    lemma_sum_13_same(base, t, 0);
    assert(gen_13_spec(t) == t[12]);
}

/// The 13-digit checksum reads only the first twelve digits, so it is the
/// same on a sequence and any extension of it.
proof fn lemma_sum_13_same(a: Seq<u32>, b: Seq<u32>, i: int)
    requires
        a.len() >= 12,
        b.len() >= 12,
        forall|j: int| 0 <= j < 12 ==> a[j] == b[j],
    ensures
        sum_13(a, i) == sum_13(b, i),
    decreases 12 - i,
{
    if 0 <= i < 12 {
        lemma_sum_13_same(a, b, i + 1);
    }
}

/// Whatever ISBN recognition accepts is a canonical stored payload.
pub proof fn lemma_isbn_parse_wf(raw: Seq<char>)
    ensures
        isbn_parse_spec(raw) matches Some(id) ==> (id matches IdSpec::Isbn(v) && isbn_wf(v)),
{
    reveal(isbn_parse_spec);
    let up = upper_seq(raw);
    let less = if starts_with(up, spec_urn_isbn_upper()) {
        up.skip(9)
    } else {
        raw
    };
    if isbn_chars_ok(less) {
        let d = digits_of(less);
        if validate_10_spec(d) {
            lemma_ten_to_thirteen_valid(d);
            lemma_digits_of_to_str(ten_to_thirteen_spec(d));
        } else if validate_13_spec(d) {
            lemma_digits_of_to_str(d);
        }
    }
}

/// A checksum-valid 10-digit string parses as the ISBN in its 13-digit
/// form.
pub proof fn lemma_isbn_ten_digit_parses(s: Seq<char>)
    requires
        isbn_chars_ok(s),
        validate_10_spec(digits_of(s)),
    ensures
        isbn_parse_spec(s) == Some(
            IdSpec::Isbn(digits_to_str_spec(ten_to_thirteen_spec(digits_of(s)))),
        ),
{
    reveal(isbn_parse_spec);
    let up = upper_seq(s);
    assert(!starts_with(up, spec_urn_isbn_upper())) by {
        if starts_with(up, spec_urn_isbn_upper()) {
            assert(up.subrange(0, 9)[0] == 'U');
            assert(up[0] == crate::text::upper_char(s[0]));
            assert(isbn_char(s[0]));
        }
    }
}

/// A canonical ISBN payload parses back to exactly itself.
pub proof fn lemma_isbn_reparse(v: Seq<char>)
    requires
        isbn_wf(v),
    ensures
        isbn_parse_spec(v) == Some(IdSpec::Isbn(v)),
{
    reveal(isbn_parse_spec);
    let d = digits_of(v);
    lemma_digits_of_to_str(d);
    assert(upper_seq(v) == v);
    assert(!starts_with(upper_seq(v), spec_urn_isbn_upper())) by {
        if starts_with(upper_seq(v), spec_urn_isbn_upper()) {
            assert(upper_seq(v).subrange(0, 9)[0] == 'U');
            assert(v[0] == 'U');
            assert(isbn_char(v[0]));
        }
    }
    assert(d.len() == 13);
    assert(!validate_10_spec(d));
    assert(validate_13_spec(d));
}

/// The upper-case label, as characters.
fn urn_isbn_upper_chars() -> (r: Vec<char>)
    ensures
        r@ == spec_urn_isbn_upper(),
{
    let r = chars_of_str("URN:ISBN:");
    proof {
        reveal_strlit("URN:ISBN:");
        assert(r@ =~= spec_urn_isbn_upper());
    }
    r
}

/// The lower-case label, as characters.
fn urn_isbn_chars() -> (r: Vec<char>)
    ensures
        r@ == spec_urn_isbn(),
{
    let r = chars_of_str("urn:isbn:");
    proof {
        reveal_strlit("urn:isbn:");
        assert(r@ =~= spec_urn_isbn());
    }
    r
}

} // verus!

//! The library's laws: round-trip guarantees of the codec, the dispatcher's
//! precedence, and the fall-through behaviour of invalid checksums.
//!
//! The underlying URI-grammar parser is an outside black box, so each law
//! takes the URI view of the string under discussion as an explicit value,
//! constrained by [`view_consistent`]: what RFC 3986 guarantees of any such
//! view.  The executable `parse` establishes exactly that consistency for
//! the view it derives, and additionally that any normalised rendering it
//! produces re-parses to itself up to the parser's length cap
//! (`norm_reparses`), which discharges the view half of [`wf_with`] for the
//! URI kind on every identifier the parser returns.

use crate::doi::{doi_parse_spec, doi_wf, lemma_construct_wf, lemma_doi_reparse};
use crate::identifiers::{
    dispatch_spec, from_pair_spec, host_lowercase_spec, simple_https_url, spec_https, stable_spec,
    tag_spec, to_uri_spec, view_consistent, IdSpec, UriViewSpec,
};
use crate::isbn::{
    isbn_chars_ok, isbn_parse_spec, isbn_wf, lemma_isbn_parse_wf, lemma_isbn_reparse,
    lemma_ten_to_thirteen_valid,
};
use crate::orcid::{
    lemma_orcid_reparse, orcid_parse_spec, orcid_shape, orcid_validate_spec, spec_orcid_host,
};
use crate::ror::{lemma_ror_reparse, ror_parse_spec, ror_validate_spec, spec_ror_host};
use crate::text::{
    is_digit_char, is_upper_char, lemma_absent_char_not_contains, lemma_contains_lower,
    lemma_lower_seq_concat, lemma_lower_seq_no_upper, lemma_not_starts_with, lower_char, lower_seq,
    no_upper, starts_with, upper_char, upper_seq,
};
use vstd::prelude::*;

verus! {

/// A well-formed identifier: one whose payload is in the canonical stored
/// form that parsing produces, under the view `w` of that payload.
///
/// For the structured kinds the canonical form is the kind's own validity.
/// For the URI kind the payload is a normalised rendering that still reads
/// as a URI rendering to itself (the preprocessor guarantees this for every
/// rendering it produces, up to its length cap) and that no specific
/// recogniser claims; the latter cannot be dropped, since normalisation can
/// create a match the raw input did not have — stripping a fragment can
/// leave a DOI-shaped rendering behind.  For the opaque-string kind the
/// payload is text that nothing, the URI grammar included, accepts.
pub open spec fn wf_with(id: IdSpec, w: UriViewSpec) -> bool {
    match id {
        IdSpec::Doi { prefix, suffix } => doi_wf(prefix, suffix),
        IdSpec::Orcid(v) => orcid_validate_spec(v),
        IdSpec::Ror(v) => ror_validate_spec(v),
        IdSpec::Uri(v) => {
            &&& w.ok
            &&& w.norm == v
            &&& doi_parse_spec(v) is None
            &&& orcid_parse_spec(w) is None
            &&& isbn_parse_spec(v) is None
            &&& ror_parse_spec(w) is None
        },
        IdSpec::OpaqueString(v) => {
            &&& !w.ok
            &&& doi_parse_spec(v) is None
            &&& orcid_parse_spec(w) is None
            &&& isbn_parse_spec(v) is None
            &&& ror_parse_spec(w) is None
        },
        IdSpec::Isbn(v) => isbn_wf(v),
    }
}

/// A string of ISBN characters (digits, `X`, `x`, spaces, hyphens) is never
/// taken for a DOI: it cannot carry the `10.` lead-in or any resolver
/// prefix.
proof fn lemma_isbn_chars_decline_doi(s: Seq<char>)
    requires
        isbn_chars_ok(s),
    ensures
        doi_parse_spec(s) is None,
{
    reveal(crate::doi::doi_parse_spec);
    let low = lower_seq(s);
    assert forall|i: int| 0 <= i < low.len() implies #[trigger] low[i] != '.' && low[i] != 'h'
        && low[i] != 'd' && low[i] != 'u' && low[i] != 'i' by {
        assert(crate::isbn::isbn_char(s[i]));
        assert(low[i] == lower_char(s[i]));
    }
    if low.len() >= 3 {
        assert(!crate::doi::strict_match(low)) by {
            if crate::doi::strict_match(low) {
                assert(low.take(3)[2] == low[2]);
            }
        }
        lemma_strip_is_identity(low);
        assert(!crate::doi::loose_match(low)) by {
            if crate::doi::loose_match(low) {
                assert(low.take(3)[2] == low[2]);
            }
        }
    } else {
        assert(!crate::doi::strict_match(low));
        lemma_strip_is_identity(low);
        assert(!crate::doi::loose_match(low));
    }
}

/// Prefix stripping leaves a string alone when its first character starts
/// no scheme, label or resolver host.
proof fn lemma_strip_is_identity(s: Seq<char>)
    requires
        forall|i: int|
            0 <= i < s.len() ==> #[trigger] s[i] != 'h' && s[i] != 'd' && s[i] != 'u' && s[i]
                != 'i',
    ensures
        crate::doi::remove_doi_prefixes_spec(s) == s,
{
    if s.len() == 0 {
        assert(!starts_with(s, spec_https()));
        assert(!starts_with(s, crate::doi::spec_http()));
        assert(!starts_with(s, crate::doi::spec_doi_label()));
        assert(!starts_with(s, crate::doi::spec_urn_doi()));
        assert(!starts_with(s, crate::doi::spec_info_doi()));
        assert(!starts_with(s, crate::doi::spec_dx_doi_org()));
        assert(!starts_with(s, crate::doi::spec_doi_org()));
    } else {
        lemma_not_starts_with(s, spec_https(), 0);
        lemma_not_starts_with(s, crate::doi::spec_http(), 0);
        lemma_not_starts_with(s, crate::doi::spec_doi_label(), 0);
        lemma_not_starts_with(s, crate::doi::spec_urn_doi(), 0);
        lemma_not_starts_with(s, crate::doi::spec_info_doi(), 0);
        lemma_not_starts_with(s, crate::doi::spec_dx_doi_org(), 0);
        lemma_not_starts_with(s, crate::doi::spec_doi_org(), 0);
    }
}

/// A string whose lower-cased form lacks the letter `o` cannot have a view
/// whose host lower-cases to `orcid.org`, so the ORCID recogniser declines.
proof fn lemma_no_o_declines_orcid(s: Seq<char>, w: UriViewSpec)
    requires
        view_consistent(s, w),
        forall|i: int| 0 <= i < lower_seq(s).len() ==> #[trigger] lower_seq(s)[i] != 'o',
    ensures
        orcid_parse_spec(w) is None,
{
    if host_lowercase_spec(w) == Some(spec_orcid_host()) {
        let h = w.host->Some_0;
        lemma_contains_lower(s, h);
        assert(lower_seq(h) == spec_orcid_host());
        lemma_absent_char_not_contains(lower_seq(s), spec_orcid_host(), 0);
    }
}

/// A plainly shaped `https` URL whose host does not begin with `d`, `h`,
/// `u`, `i` or `1` is never taken for a DOI: after the scheme is stripped
/// nothing else matches.
proof fn lemma_https_url_declines_doi(h: Seq<char>, p: Seq<char>)
    requires
        h.len() > 0,
        no_upper(h),
        h[0] != 'd' && h[0] != 'h' && h[0] != 'u' && h[0] != 'i' && h[0] != '1',
    ensures
        doi_parse_spec(spec_https() + h + p) is None,
{
    reveal(crate::doi::doi_parse_spec);
    let s = spec_https() + h + p;
    let low = lower_seq(s);
    lemma_lower_seq_concat(spec_https() + h, p);
    lemma_lower_seq_concat(spec_https(), h);
    assert(no_upper(spec_https())) by {
        assert forall|i: int| 0 <= i < spec_https().len() implies !is_upper_char(
            #[trigger] spec_https()[i],
        ) by {}
    }
    lemma_lower_seq_no_upper(spec_https());
    lemma_lower_seq_no_upper(h);
    assert(low == spec_https() + h + lower_seq(p));
    assert(low[0] == 'h');
    assert(!crate::doi::strict_match(low)) by {
        if crate::doi::strict_match(low) {
            assert(low.take(3)[0] == low[0]);
        }
    }
    assert(starts_with(low, spec_https())) by {
        assert(low.subrange(0, 8) =~= spec_https());
    }
    let t1 = low.skip(8);
    assert(t1 =~= h + lower_seq(p));
    assert(crate::doi::strip_scheme(low) == t1);
    assert(t1[0] == h[0]);
    lemma_not_starts_with(t1, crate::doi::spec_dx_doi_org(), 0);
    lemma_not_starts_with(t1, crate::doi::spec_doi_org(), 0);
    assert(crate::doi::strip_host(t1) == t1);
    lemma_not_starts_with(t1, spec_https(), 0);
    lemma_not_starts_with(t1, crate::doi::spec_http(), 0);
    lemma_not_starts_with(t1, crate::doi::spec_doi_label(), 0);
    lemma_not_starts_with(t1, crate::doi::spec_urn_doi(), 0);
    lemma_not_starts_with(t1, crate::doi::spec_info_doi(), 0);
    assert(crate::doi::strip_scheme(t1) == t1);
    assert(crate::doi::remove_doi_prefixes_spec(low) == t1);
    assert(!crate::doi::loose_match(t1)) by {
        if crate::doi::loose_match(t1) {
            assert(t1.take(3)[0] == t1[0]);
        }
    }
}

/// An `https` URL is never taken for an ISBN: it carries a colon, which an
/// ISBN cannot.
proof fn lemma_https_url_declines_isbn(h: Seq<char>, p: Seq<char>)
    ensures
        isbn_parse_spec(spec_https() + h + p) is None,
{
    reveal(crate::isbn::isbn_parse_spec);
    let s = spec_https() + h + p;
    let up = upper_seq(s);
    assert(s[0] == 'h');
    assert(up[0] == upper_char('h'));
    lemma_not_starts_with(up, crate::isbn::spec_urn_isbn_upper(), 0);
    assert(s[5] == ':');
    assert(!crate::isbn::isbn_char(s[5]));
    assert(!isbn_chars_ok(s));
}

/// Every stable string parses back to the identifier it was rendered from
/// (the stable-string round trip), under any view of that string that RFC
/// 3986 permits.
pub proof fn lemma_stable_string_round_trip(id: IdSpec, w: UriViewSpec)
    requires
        wf_with(id, w),
        view_consistent(stable_spec(id), w),
    ensures
        dispatch_spec(stable_spec(id), w) == id,
{
    match id {
        IdSpec::Doi { prefix, suffix } => {
            lemma_doi_reparse(prefix, suffix);
        },
        IdSpec::Orcid(v) => {
            let p = seq!['/'] + v;
            let s = stable_spec(id);
            assert(s =~= spec_https() + spec_orcid_host() + p);
            assert(simple_https_url(spec_https() + spec_orcid_host() + p, spec_orcid_host(), p))
                by {
                assert forall|i: int|
                    0 <= i < spec_orcid_host().len() implies crate::identifiers::plain_host_char(
                    #[trigger] spec_orcid_host()[i],
                ) by {}
                assert forall|i: int|
                    0 <= i < p.len() implies crate::identifiers::plain_path_char(
                    #[trigger] p[i],
                ) by {
                    if i > 0 {
                        assert(p[i] == v[i - 1]);
                        if i - 1 != 4 && i - 1 != 9 && i - 1 != 14 && i - 1 != 18 {
                            assert(is_digit_char(v[i - 1]));
                        }
                    }
                }
            }
            assert(w.ok && w.host == Some(spec_orcid_host()) && w.path == p && w.norm == s);
            assert(no_upper(spec_orcid_host())) by {
                assert forall|i: int|
                    0 <= i < spec_orcid_host().len() implies !is_upper_char(
                    #[trigger] spec_orcid_host()[i],
                ) by {}
            }
            lemma_https_url_declines_doi(spec_orcid_host(), p);
            lemma_orcid_reparse(v, w);
        },
        IdSpec::Ror(v) => {
            let p = seq!['/'] + v;
            let s = stable_spec(id);
            assert(s =~= spec_https() + spec_ror_host() + p);
            assert(simple_https_url(spec_https() + spec_ror_host() + p, spec_ror_host(), p)) by {
                assert forall|i: int|
                    0 <= i < spec_ror_host().len() implies crate::identifiers::plain_host_char(
                    #[trigger] spec_ror_host()[i],
                ) by {}
                assert forall|i: int|
                    0 <= i < p.len() implies crate::identifiers::plain_path_char(
                    #[trigger] p[i],
                ) by {
                    if i > 0 {
                        assert(p[i] == v[i - 1]);
                        if i - 1 == 0 || i - 1 == 7 || i - 1 == 8 {
                            assert(is_digit_char(v[i - 1]));
                        } else {
                            assert(crate::ror::ror_body_char(v[i - 1]));
                        }
                    }
                }
            }
            assert(w.ok && w.host == Some(spec_ror_host()) && w.path == p && w.norm == s);
            assert(no_upper(spec_ror_host())) by {
                assert forall|i: int|
                    0 <= i < spec_ror_host().len() implies !is_upper_char(
                    #[trigger] spec_ror_host()[i],
                ) by {}
            }
            lemma_https_url_declines_doi(spec_ror_host(), p);
            // The host is `ror.org`, so the ORCID recogniser declines.
            lemma_lower_seq_no_upper(spec_ror_host());
            assert(host_lowercase_spec(w) == Some(spec_ror_host()));
            assert(host_lowercase_spec(w) != Some(spec_orcid_host()));
            assert(orcid_parse_spec(w) is None);
            lemma_https_url_declines_isbn(spec_ror_host(), p);
            lemma_ror_reparse(v, w);
        },
        IdSpec::Uri(v) => {
            assert(stable_spec(id) == v);
            lemma_dispatch_uri(v, w);
        },
        IdSpec::OpaqueString(v) => {
            assert(stable_spec(id) == v);
        },
        IdSpec::Isbn(v) => {
            lemma_isbn_chars_decline_doi(v);
            assert forall|i: int|
                0 <= i < lower_seq(v).len() implies #[trigger] lower_seq(v)[i] != 'o' by {
                assert(crate::isbn::isbn_char(v[i]));
                assert(lower_seq(v)[i] == lower_char(v[i]));
            }
            lemma_no_o_declines_orcid(v, w);
            lemma_isbn_reparse(v);
        },
    }
}

/// Each recogniser only ever yields its own kind.
proof fn lemma_recogniser_shapes(s: Seq<char>, w: UriViewSpec)
    ensures
        doi_parse_spec(s) matches Some(id) ==> id is Doi,
        orcid_parse_spec(w) matches Some(id) ==> id is Orcid,
        isbn_parse_spec(s) matches Some(id) ==> id is Isbn,
        ror_parse_spec(w) matches Some(id) ==> id is Ror,
        crate::uri::uri_parse_spec(w) matches Some(id) ==> id is Uri,
{
    reveal(crate::doi::doi_parse_spec);
    reveal(crate::isbn::isbn_parse_spec);
}

/// Every identifier with a URI form parses back from it (the URI round
/// trip): for each kind that has one, the URI form is the stable string, so
/// the stable-string round trip carries over.  Opaque strings and ISBNs
/// have no URI form.
pub proof fn lemma_uri_form_round_trip(id: IdSpec, w: UriViewSpec)
    requires
        wf_with(id, w),
        to_uri_spec(id) matches Some(u) ==> view_consistent(u, w),
    ensures
        to_uri_spec(id) matches Some(u) ==> dispatch_spec(u, w) == id,
{
    if to_uri_spec(id) is Some {
        assert(to_uri_spec(id) == Some(stable_spec(id)));
        lemma_stable_string_round_trip(id, w);
    }
}

/// Every identifier reconstructs from its kind-tagged pair (the tagged-pair
/// round trip): re-running the one recogniser the tag names on the stable
/// string yields the identifier back.
pub proof fn lemma_id_pair_round_trip(id: IdSpec, w: UriViewSpec)
    requires
        wf_with(id, w),
        view_consistent(stable_spec(id), w),
    ensures
        from_pair_spec(stable_spec(id), tag_spec(id), w) == Some(id),
{
    lemma_stable_string_round_trip(id, w);
    match id {
        IdSpec::Doi { prefix, suffix } => {
            lemma_doi_reparse(prefix, suffix);
        },
        IdSpec::Orcid(v) => {
            lemma_recogniser_shapes(stable_spec(id), w);
            assert(orcid_parse_spec(w) == Some(id));
        },
        IdSpec::Ror(v) => {
            lemma_recogniser_shapes(stable_spec(id), w);
            assert(ror_parse_spec(w) == Some(id));
        },
        IdSpec::Uri(v) => {
            lemma_recogniser_shapes(v, w);
            assert(crate::uri::uri_parse_spec(w) == Some(id));
        },
        IdSpec::OpaqueString(v) => {
        },
        IdSpec::Isbn(v) => {
            lemma_recogniser_shapes(stable_spec(id), w);
            assert(isbn_parse_spec(stable_spec(id)) == Some(id));
        },
    }
}

/// DOIs are case-insensitive under the library's ASCII fold: an input and
/// its ASCII-lower-cased form always yield the same DOI outcome, and the
/// equality of two recognised DOIs rests on the decoded, case-folded suffix
/// text alone.  The fold is ASCII-only by design, so inputs that differ in
/// a non-ASCII letter's case are distinct DOIs.
pub proof fn lemma_doi_case_insensitive(s: Seq<char>)
    ensures
        doi_parse_spec(s) == doi_parse_spec(lower_seq(s)),
{
    reveal(crate::doi::doi_parse_spec);
    crate::text::lemma_lower_seq_idempotent(s);
}

/// The dispatcher's precedence protects DOIs from the greedy URI kind: a
/// DOI-shaped string is always claimed by the DOI recogniser, whatever its
/// URI view, and conversely only DOI-shaped strings become DOIs.
pub proof fn lemma_doi_never_captured_by_uri(s: Seq<char>, w: UriViewSpec)
    ensures
        doi_parse_spec(s) matches Some(id) ==> dispatch_spec(s, w) == id,
        (dispatch_spec(s, w) is Doi) == (doi_parse_spec(s) is Some),
{
    lemma_recogniser_shapes(s, w);
}

/// Input that no recogniser claims — not even the URI kind — comes back as
/// an opaque string wrapping the input verbatim, and its stable string is
/// that very text.
pub proof fn lemma_unrecognised_is_opaque(s: Seq<char>, w: UriViewSpec)
    requires
        doi_parse_spec(s) is None,
        orcid_parse_spec(w) is None,
        isbn_parse_spec(s) is None,
        ror_parse_spec(w) is None,
        !w.ok,
    ensures
        dispatch_spec(s, w) == IdSpec::OpaqueString(s),
        stable_spec(IdSpec::OpaqueString(s)) == s,
{
}

/// When every specific recogniser declines and the string has a URI view,
/// dispatch yields the URI kind wrapping the view's rendering.
proof fn lemma_dispatch_uri(s: Seq<char>, w: UriViewSpec)
    requires
        doi_parse_spec(s) is None,
        orcid_parse_spec(w) is None,
        isbn_parse_spec(s) is None,
        ror_parse_spec(w) is None,
        w.ok,
        w.norm == s,
    ensures
        dispatch_spec(s, w) == IdSpec::Uri(s),
{
}

/// The characters of an ORCID-shaped path are plain path characters.
proof fn lemma_orcid_shaped_chars(idtext: Seq<char>)
    requires
        orcid_shape(upper_seq(idtext)),
    ensures
        forall|i: int|
            0 <= i < idtext.len() ==> crate::identifiers::plain_path_char(#[trigger] idtext[i]),
{
    let up = upper_seq(idtext);
    assert forall|i: int|
        0 <= i < idtext.len() implies crate::identifiers::plain_path_char(
        #[trigger] idtext[i],
    ) by {
        let c = idtext[i];
        assert(up[i] == upper_char(c));
        if i != 4 && i != 9 && i != 14 && i != 18 {
            assert(is_digit_char(upper_char(c)));
        }
    }
}

/// A plainly shaped `https` URL pins its URI view: the view exists and has
/// exactly the URL's host, path and rendering.
proof fn lemma_simple_url_view(s: Seq<char>, h: Seq<char>, p: Seq<char>, w: UriViewSpec)
    requires
        simple_https_url(s, h, p),
        view_consistent(s, w),
    ensures
        w.ok && w.host == Some(h) && w.path == p && w.norm == s,
{
}

/// The ORCID recogniser declines whenever the lower-cased host is not
/// `orcid.org`.
proof fn lemma_orcid_needs_host(w: UriViewSpec)
    requires
        host_lowercase_spec(w) != Some(spec_orcid_host()),
    ensures
        orcid_parse_spec(w) is None,
{
}

/// The ROR recogniser declines whenever the lower-cased host is not
/// `ror.org`.
proof fn lemma_ror_needs_host(w: UriViewSpec)
    requires
        host_lowercase_spec(w) != Some(spec_ror_host()),
    ensures
        ror_parse_spec(w) is None,
{
}

/// A plainly shaped URL on the `orcid.org` host pins its view and is
/// declined by the DOI, ISBN and ROR recognisers.
proof fn lemma_orcid_url_facts(idtext: Seq<char>, s: Seq<char>, w: UriViewSpec)
    requires
        idtext.len() == 19,
        forall|i: int|
            0 <= i < idtext.len() ==> crate::identifiers::plain_path_char(#[trigger] idtext[i]),
        s == spec_https() + spec_orcid_host() + (seq!['/'] + idtext),
        view_consistent(s, w),
    ensures
        w.ok && w.host == Some(spec_orcid_host()) && w.path == seq!['/'] + idtext && w.norm == s,
        doi_parse_spec(s) is None,
        isbn_parse_spec(s) is None,
        ror_parse_spec(w) is None,
{
    let p = seq!['/'] + idtext;
    assert(simple_https_url(s, spec_orcid_host(), p)) by {
        assert forall|i: int|
            0 <= i < spec_orcid_host().len() implies crate::identifiers::plain_host_char(
            #[trigger] spec_orcid_host()[i],
        ) by {}
        assert forall|i: int|
            0 <= i < p.len() implies crate::identifiers::plain_path_char(#[trigger] p[i]) by {
            if i > 0 {
                assert(p[i] == idtext[i - 1]);
            }
        }
    }
    lemma_simple_url_view(s, spec_orcid_host(), p, w);
    assert(no_upper(spec_orcid_host())) by {
        assert forall|i: int|
            0 <= i < spec_orcid_host().len() implies !is_upper_char(
            #[trigger] spec_orcid_host()[i],
        ) by {}
    }
    lemma_https_url_declines_doi(spec_orcid_host(), p);
    lemma_https_url_declines_isbn(spec_orcid_host(), p);
    lemma_lower_seq_no_upper(spec_orcid_host());
    lemma_ror_needs_host(w);
}

/// The ORCID recogniser declines a path whose upper-cased form fails
/// validation.
proof fn lemma_orcid_declines_invalid(idtext: Seq<char>, w: UriViewSpec)
    requires
        !orcid_validate_spec(upper_seq(idtext)),
        w.ok,
        w.host == Some(spec_orcid_host()),
        w.path == seq!['/'] + idtext,
    ensures
        orcid_parse_spec(w) is None,
{
    assert(w.path.skip(1) =~= idtext);
}

/// An ORCID-shaped path whose check character disagrees with its base
/// digits falls through to the generic URI kind: the URL is recognised, but
/// as a URI, never as an ORCID iD and never rejected outright.
pub proof fn lemma_orcid_bad_checksum_is_uri(idtext: Seq<char>, s: Seq<char>, w: UriViewSpec)
    requires
        orcid_shape(upper_seq(idtext)),
        !orcid_validate_spec(upper_seq(idtext)),
        s == spec_https() + spec_orcid_host() + (seq!['/'] + idtext),
        view_consistent(s, w),
    ensures
        dispatch_spec(s, w) == IdSpec::Uri(s),
{
    assert(idtext.len() == 19) by {
        assert(upper_seq(idtext).len() == idtext.len());
    }
    lemma_orcid_shaped_chars(idtext);
    lemma_orcid_url_facts(idtext, s, w);
    lemma_orcid_declines_invalid(idtext, w);
    lemma_dispatch_uri(s, w);
}

/// A plainly shaped URL on the `ror.org` host pins its view and is declined
/// by the DOI, ISBN and ORCID recognisers.
proof fn lemma_ror_url_facts(code: Seq<char>, s: Seq<char>, w: UriViewSpec)
    requires
        code.len() == 9,
        forall|i: int|
            0 <= i < code.len() ==> crate::identifiers::plain_path_char(#[trigger] code[i]),
        s == spec_https() + spec_ror_host() + (seq!['/'] + code),
        view_consistent(s, w),
    ensures
        w.ok && w.host == Some(spec_ror_host()) && w.path == seq!['/'] + code && w.norm == s,
        doi_parse_spec(s) is None,
        isbn_parse_spec(s) is None,
        orcid_parse_spec(w) is None,
{
    let p = seq!['/'] + code;
    assert(simple_https_url(s, spec_ror_host(), p)) by {
        assert forall|i: int|
            0 <= i < spec_ror_host().len() implies crate::identifiers::plain_host_char(
            #[trigger] spec_ror_host()[i],
        ) by {}
        assert forall|i: int|
            0 <= i < p.len() implies crate::identifiers::plain_path_char(#[trigger] p[i]) by {
            if i > 0 {
                assert(p[i] == code[i - 1]);
            }
        }
    }
    lemma_simple_url_view(s, spec_ror_host(), p, w);
    assert(no_upper(spec_ror_host())) by {
        assert forall|i: int|
            0 <= i < spec_ror_host().len() implies !is_upper_char(
            #[trigger] spec_ror_host()[i],
        ) by {}
    }
    lemma_https_url_declines_doi(spec_ror_host(), p);
    lemma_https_url_declines_isbn(spec_ror_host(), p);
    lemma_lower_seq_no_upper(spec_ror_host());
    lemma_orcid_needs_host(w);
}

/// The ROR recogniser declines a path that breaks the ROR shape.
proof fn lemma_ror_declines_misshapen(code: Seq<char>, k: int, w: UriViewSpec)
    requires
        0 <= k < code.len(),
        is_upper_char(code[k]),
        w.ok,
        w.host == Some(spec_ror_host()),
        w.path == seq!['/'] + code,
    ensures
        ror_parse_spec(w) is None,
{
    assert(w.path.skip(1) =~= code);
    assert(!crate::ror::ror_shape(code)) by {
        if crate::ror::ror_shape(code) {
            if k == 0 {
                assert(code[0] == '0');
            } else if k < 7 {
                assert(crate::ror::ror_body_char(code[k]));
            } else {
                assert(is_digit_char(code[k]));
            }
        }
    }
}

/// A ROR-shaped code with an upper-case letter anywhere falls through to
/// the generic URI kind: ROR codes are case-significant, and an upper-cased
/// code is not a ROR identifier.
pub proof fn lemma_ror_upper_case_is_uri(code: Seq<char>, k: int, s: Seq<char>, w: UriViewSpec)
    requires
        code.len() == 9,
        0 <= k < code.len(),
        is_upper_char(code[k]),
        forall|i: int|
            0 <= i < code.len() ==> crate::identifiers::plain_path_char(#[trigger] code[i]),
        s == spec_https() + spec_ror_host() + (seq!['/'] + code),
        view_consistent(s, w),
    ensures
        dispatch_spec(s, w) == IdSpec::Uri(s),
{
    lemma_ror_url_facts(code, s, w);
    lemma_ror_declines_misshapen(code, k, w);
    lemma_dispatch_uri(s, w);
}

/// A valid 10-digit ISBN and its 13-digit form are recognised as the same
/// identifier: parsing either digit string yields the ISBN in 13-digit
/// form.
pub proof fn lemma_isbn_ten_thirteen_equivalent(s: Seq<char>, w: UriViewSpec, w2: UriViewSpec)
    requires
        isbn_chars_ok(s),
        crate::isbn::validate_10_spec(crate::isbn::digits_of(s)),
        view_consistent(s, w),
        view_consistent(
            crate::isbn::digits_to_str_spec(
                crate::isbn::ten_to_thirteen_spec(crate::isbn::digits_of(s)),
            ),
            w2,
        ),
    ensures
        dispatch_spec(s, w) == dispatch_spec(
            crate::isbn::digits_to_str_spec(
                crate::isbn::ten_to_thirteen_spec(crate::isbn::digits_of(s)),
            ),
            w2,
        ),
        dispatch_spec(s, w) == IdSpec::Isbn(
            crate::isbn::digits_to_str_spec(
                crate::isbn::ten_to_thirteen_spec(crate::isbn::digits_of(s)),
            ),
        ),
{
    let d = crate::isbn::digits_of(s);
    let t = crate::isbn::digits_to_str_spec(crate::isbn::ten_to_thirteen_spec(d));
    lemma_ten_to_thirteen_valid(d);
    crate::isbn::lemma_digits_of_to_str(crate::isbn::ten_to_thirteen_spec(d));
    // The 10-digit string parses to the 13-digit identifier.
    lemma_isbn_chars_decline_doi(s);
    assert forall|i: int| 0 <= i < lower_seq(s).len() implies #[trigger] lower_seq(s)[i]
        != 'o' by {
        assert(crate::isbn::isbn_char(s[i]));
        assert(lower_seq(s)[i] == lower_char(s[i]));
    }
    lemma_no_o_declines_orcid(s, w);
    crate::isbn::lemma_isbn_ten_digit_parses(s);
    // The 13-digit string is a canonical payload and parses to itself.
    assert(isbn_wf(t));
    lemma_stable_string_round_trip(IdSpec::Isbn(t), w2);
    assert(stable_spec(IdSpec::Isbn(t)) == t);
}

/// Whatever the dispatcher returns for the structured kinds is well-formed,
/// so every parsed DOI, ORCID, ROR or ISBN enjoys the round-trip laws.
pub proof fn lemma_parse_well_formed(s: Seq<char>, w: UriViewSpec)
    ensures
        dispatch_spec(s, w) matches IdSpec::Doi { prefix, suffix } ==> doi_wf(prefix, suffix),
        dispatch_spec(s, w) matches IdSpec::Orcid(v) ==> orcid_validate_spec(v),
        dispatch_spec(s, w) matches IdSpec::Ror(v) ==> ror_validate_spec(v),
        dispatch_spec(s, w) matches IdSpec::Isbn(v) ==> isbn_wf(v),
{
    lemma_recogniser_shapes(s, w);
    if doi_parse_spec(s) is Some {
        lemma_doi_parse_wf(s);
    } else {
        lemma_isbn_parse_wf(s);
    }
}

/// Whatever DOI recognition accepts is a well-formed stored DOI.
proof fn lemma_doi_parse_wf(s: Seq<char>)
    ensures
        doi_parse_spec(s) matches Some(id) ==> (id matches IdSpec::Doi { prefix, suffix }
            && doi_wf(prefix, suffix)),
{
    reveal(crate::doi::doi_parse_spec);
    let low = lower_seq(s);
    if crate::doi::strict_match(low) {
        lemma_construct_wf(low);
    } else {
        let t = crate::doi::remove_doi_prefixes_spec(low);
        if crate::doi::loose_match(t) {
            let dec = crate::pct::pct_decode(vstd::utf8::encode_utf8(t));
            if vstd::utf8::valid_utf8(dec) {
                if crate::doi::construct_spec(vstd::utf8::decode_utf8(dec)) is Some {
                    lemma_construct_wf(vstd::utf8::decode_utf8(dec));
                }
            }
        }
    }
}

} // verus!

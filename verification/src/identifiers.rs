//! The identifier type, the parse-input view shared by the recognisers, and
//! the dispatcher with its codec entry points.

use crate::text::{chars_of_str, contains_seq, is_digit_char, is_lower_char, lower_seq};
use std::str::FromStr;
use vstd::prelude::*;

verus! {

/// A scholarly identifier.  Each kind has its own construction, validation
/// and comparison rules; the payload of every variant is the canonical
/// in-memory form of that kind, never a URL-encoded rendering.
#[derive(Debug)]
pub enum Identifier {
    /// DOI, split into prefix (e.g. "10.5555") and suffix (e.g. "12345678").
    /// The suffix is the native Unicode text, percent-decoded, with ASCII
    /// letters folded to lower case.
    Doi { prefix: String, suffix: String },
    /// ORCID iD as the bare 19-character upper-case identifier, without the
    /// link resolver.
    Orcid(String),
    /// ROR identifier as the bare 9-character lower-case code, without the
    /// link resolver.
    Ror(String),
    /// A valid URI that matched no more specific kind.
    Uri(String),
    /// The fall-through kind: input that matched nothing, kept verbatim.
    OpaqueString(String),
    /// ISBN, always held in 13-digit form with its check digit, separators
    /// removed.
    Isbn(String),
}

/// Mathematical model of an [`Identifier`]: the same tagged union over
/// character sequences.
pub enum IdSpec {
    Doi { prefix: Seq<char>, suffix: Seq<char> },
    Orcid(Seq<char>),
    Ror(Seq<char>),
    Uri(Seq<char>),
    OpaqueString(Seq<char>),
    Isbn(Seq<char>),
}

impl View for Identifier {
    type V = IdSpec;

    open spec fn view(&self) -> IdSpec {
        match self {
            Identifier::Doi { prefix, suffix } => IdSpec::Doi {
                prefix: prefix@,
                suffix: suffix@,
            },
            Identifier::Orcid(v) => IdSpec::Orcid(v@),
            Identifier::Ror(v) => IdSpec::Ror(v@),
            Identifier::Uri(v) => IdSpec::Uri(v@),
            Identifier::OpaqueString(v) => IdSpec::OpaqueString(v@),
            Identifier::Isbn(v) => IdSpec::Isbn(v@),
        }
    }
}

impl DeepView for Identifier {
    type V = IdSpec;

    open spec fn deep_view(&self) -> IdSpec {
        self.view()
    }
}

impl vstd::std_specs::cmp::PartialEqSpecImpl for Identifier {
    open spec fn obeys_eq_spec() -> bool {
        true
    }

    open spec fn eq_spec(&self, other: &Identifier) -> bool {
        self@ == other@
    }
}

impl PartialEq for Identifier {
    /// Identifiers are equal when they have the same kind and the same
    /// canonical payload; for a DOI that means equality of the decoded,
    /// case-folded suffix text.
    fn eq(&self, other: &Identifier) -> (r: bool) {
        match (self, other) {
            (
                Identifier::Doi { prefix: p1, suffix: s1 },
                Identifier::Doi { prefix: p2, suffix: s2 },
            ) => p1.eq(p2) && s1.eq(s2),
            (Identifier::Orcid(a), Identifier::Orcid(b)) => a.eq(b),
            (Identifier::Ror(a), Identifier::Ror(b)) => a.eq(b),
            (Identifier::Uri(a), Identifier::Uri(b)) => a.eq(b),
            (Identifier::OpaqueString(a), Identifier::OpaqueString(b)) => a.eq(b),
            (Identifier::Isbn(a), Identifier::Isbn(b)) => a.eq(b),
            _ => false,
        }
    }
}

/// What the URI preprocessor derived from one input string: the host, the
/// path, and the URI's own normalised string rendering.
pub struct UriParts {
    pub host: Option<String>,
    pub path: String,
    pub normalized: String,
}

/// Model of the URI view of one input: whether the input parsed as a URI at
/// all, and if so its host, path and normalised rendering.
pub struct UriViewSpec {
    pub ok: bool,
    pub host: Option<Seq<char>>,
    pub path: Seq<char>,
    pub norm: Seq<char>,
}

/// Whether `Uri::from_str` accepts the string.
pub uninterp spec fn uri_ok(s: Seq<char>) -> bool;

/// The host component that `Uri::host` reports for the string.
pub uninterp spec fn uri_host_of(s: Seq<char>) -> Option<Seq<char>>;

/// The path component that `Uri::path` reports for the string.
pub uninterp spec fn uri_path_of(s: Seq<char>) -> Seq<char>;

/// The normalised rendering that the URI's `Display` gives for the string.
pub uninterp spec fn uri_norm_of(s: Seq<char>) -> Seq<char>;

/// The URI view of a string: absent when the string is no URI, otherwise the
/// named components.
pub open spec fn spec_view_of(s: Seq<char>) -> UriViewSpec {
    if uri_ok(s) {
        UriViewSpec { ok: true, host: uri_host_of(s), path: uri_path_of(s), norm: uri_norm_of(s) }
    } else {
        UriViewSpec { ok: false, host: None, path: Seq::empty(), norm: Seq::empty() }
    }
}

/// A character that may stand in the host of a plainly shaped `https` URL.
pub open spec fn plain_host_char(c: char) -> bool {
    is_lower_char(c) || is_digit_char(c) || c == '.' || c == '-'
}

/// A character that may stand in the path of a plainly shaped `https` URL.
pub open spec fn plain_path_char(c: char) -> bool {
    is_lower_char(c) || crate::text::is_upper_char(c) || is_digit_char(c) || c == '-' || c == '.'
        || c == '_' || c == '/'
}

/// The scheme prefix of a plainly shaped `https` URL.
pub open spec fn spec_https() -> Seq<char> {
    seq!['h', 't', 't', 'p', 's', ':', '/', '/']
}

/// A URL of the shape `https://<host><path>`, short enough for the URI
/// parser, where the host is a plain lower-case registered name and the path
/// starts with a slash and holds only characters that RFC 3986 allows
/// unencoded in a path.  Such a URL parses with exactly this host and path
/// and renders back to itself.  The URI parser reads at most 65534 bytes;
/// a URL of this shape is all ASCII, so its characters are its bytes.
pub open spec fn simple_https_url(s: Seq<char>, h: Seq<char>, p: Seq<char>) -> bool {
    &&& s == spec_https() + h + p
    &&& s.len() <= 65534
    &&& h.len() > 0
    &&& forall|i: int| 0 <= i < h.len() ==> plain_host_char(#[trigger] h[i])
    &&& p.len() > 0
    &&& p[0] == '/'
    &&& forall|i: int| 0 <= i < p.len() ==> plain_path_char(#[trigger] p[i])
}

/// A normalised URI rendering, when short enough for the URI parser, is
/// itself a URI and renders back to itself: the rendering is built from the
/// parsed components, and parsing it reads the same components back.
pub open spec fn norm_reparses(v: Seq<char>) -> bool {
    v.len() <= 65534 ==> (uri_ok(v) && uri_norm_of(v) == v)
}

/// What RFC 3986 guarantees of the URI view of a string: a reported host is
/// a substring of the string, and a plainly shaped `https` URL parses with
/// exactly its own host, path and rendering.
pub open spec fn view_consistent(s: Seq<char>, v: UriViewSpec) -> bool {
    &&& (v.host matches Some(h) ==> contains_seq(s, h))
    &&& forall|h: Seq<char>, p: Seq<char>|
        simple_https_url(s, h, p) ==> v.ok && v.host == Some(h) && v.path == p && v.norm == s
}

/// Relies on `http::Uri`: `from_str` for the parse itself, then `host`,
/// `path` and the `Display` rendering, each read out into plain strings.
/// `from_str` accepts a string exactly when it is a URI under RFC 3986 as
/// the `http` crate implements it and is at most 65534 bytes long; `host`
/// returns a slice of the input's authority; a short-enough URL of the shape
/// `https://host/path` whose host and path hold only unreserved characters
/// parses into exactly those components and renders back to itself; and the
/// rendering of an accepted URI, being assembled from its parsed components,
/// parses again to the same rendering whenever it fits the length cap.
#[verifier::external_body]
fn parse_uri(input: &str) -> (r: Option<UriParts>)
    ensures
        (r is Some) == uri_ok(input@),
        r matches Some(p) ==> p.host.deep_view() == uri_host_of(input@) && p.path@ == uri_path_of(
            input@,
        ) && p.normalized@ == uri_norm_of(input@),
        r matches Some(p) ==> (p.host matches Some(h) ==> contains_seq(input@, h@)),
        r matches Some(p) ==> forall|h: Seq<char>, q: Seq<char>|
            simple_https_url(input@, h, q) ==> (p.host.deep_view() == Some(h) && p.path@ == q
                && p.normalized@ == input@),
        r is None ==> forall|h: Seq<char>, q: Seq<char>| !simple_https_url(input@, h, q),
        r matches Some(p) ==> norm_reparses(p.normalized@),
{
    match http::Uri::from_str(input) {
        Ok(u) => {
            let host = u.host().map(|h| h.to_owned());
            let path = u.path().to_owned();
            let normalized = u.to_string();
            Some(UriParts { host, path, normalized })
        },
        Err(_) => None,
    }
}

/// Intermediary representation of an input with the pre-computed URI view
/// that several recognisers need.
pub struct IdentifierParseInput {
    pub raw: String,
    pub uri: Option<UriParts>,
}

impl IdentifierParseInput {
    /// The URI view this input carries.
    pub open spec fn uri_view(&self) -> UriViewSpec {
        match self.uri {
            Some(p) => UriViewSpec {
                ok: true,
                host: p.host.deep_view(),
                path: p.path@,
                norm: p.normalized@,
            },
            None => UriViewSpec { ok: false, host: None, path: Seq::empty(), norm: Seq::empty() },
        }
    }

    /// Build the parse input: keep the raw text and attempt the URI parse.
    pub fn build(input: &str) -> (r: IdentifierParseInput)
        ensures
            r.raw@ == input@,
            r.uri_view() == spec_view_of(input@),
            view_consistent(input@, spec_view_of(input@)),
            spec_view_of(input@).ok ==> norm_reparses(spec_view_of(input@).norm),
    {
        let valid_uri = parse_uri(input);
        IdentifierParseInput { raw: input.to_owned(), uri: valid_uri }
    }

    /// The URI path with one leading slash removed, when there is a URI view.
    pub fn path_no_slash(&self) -> (r: Option<Vec<char>>)
        ensures
            (r is Some) == (path_no_slash_spec(self.uri_view()) is Some),
            r matches Some(p) ==> Some(p@) == path_no_slash_spec(self.uri_view()),
    {
        match &self.uri {
            Some(parts) => {
                let p = chars_of_str(parts.path.as_str());
                if p.len() > 0 && p[0] == '/' {
                    let mut out: Vec<char> = Vec::new();
                    let mut i: usize = 1;
                    while i < p.len()
                        invariant
                            1 <= i <= p@.len(),
                            out@ == p@.subrange(1, i as int),
                        decreases p@.len() - i,
                    {
                        out.push(p[i]);
                        i = i + 1;
                        assert(out@ =~= p@.subrange(1, i as int));
                    }
                    proof {
                        assert(out@ =~= p@.skip(1));
                    }
                    Some(out)
                } else {
                    Some(p)
                }
            },
            None => None,
        }
    }

    /// The lower-cased host, when there is a URI view with a host.
    pub fn host_lowercase(&self) -> (r: Option<Vec<char>>)
        ensures
            (r is Some) == (host_lowercase_spec(self.uri_view()) is Some),
            r matches Some(h) ==> Some(h@) == host_lowercase_spec(self.uri_view()),
    {
        match &self.uri {
            Some(parts) => match &parts.host {
                Some(h) => {
                    let cs = chars_of_str(h.as_str());
                    Some(crate::text::lower_chars(&cs))
                },
                None => None,
            },
            None => None,
        }
    }
}

/// The path with one leading slash stripped, absent without a URI view.
pub open spec fn path_no_slash_spec(v: UriViewSpec) -> Option<Seq<char>> {
    if v.ok {
        if v.path.len() > 0 && v.path[0] == '/' {
            Some(v.path.skip(1))
        } else {
            Some(v.path)
        }
    } else {
        None
    }
}

/// The lower-cased host, absent without a URI view or a host.
pub open spec fn host_lowercase_spec(v: UriViewSpec) -> Option<Seq<char>> {
    if v.ok {
        match v.host {
            Some(h) => Some(lower_seq(h)),
            None => None,
        }
    } else {
        None
    }
}

/// The dispatcher: try the recognisers in their fixed precedence order —
/// DOI first, since DOI syntax is a superset that the greedy URI kind would
/// otherwise claim, then ORCID, ISBN and ROR, then the URI fall-through —
/// and wrap unrecognised input verbatim as an opaque string.
pub open spec fn dispatch_spec(s: Seq<char>, v: UriViewSpec) -> IdSpec {
    match crate::doi::doi_parse_spec(s) {
        Some(id) => id,
        None => match crate::orcid::orcid_parse_spec(v) {
            Some(id) => id,
            None => match crate::isbn::isbn_parse_spec(s) {
                Some(id) => id,
                None => match crate::ror::ror_parse_spec(v) {
                    Some(id) => id,
                    None => match crate::uri::uri_parse_spec(v) {
                        Some(id) => id,
                        None => IdSpec::OpaqueString(s),
                    },
                },
            },
        },
    }
}

/// What parsing yields: the dispatcher run on the input and its URI view.
pub open spec fn parse_spec(s: Seq<char>) -> IdSpec {
    dispatch_spec(s, spec_view_of(s))
}

/// The stable string of an identifier: the resolver URL for DOI, ORCID and
/// ROR, the URI itself for the URI kind, and the bare payload for ISBN and
/// opaque strings.
pub open spec fn stable_spec(id: IdSpec) -> Seq<char> {
    match id {
        IdSpec::Doi { prefix, suffix } => crate::doi::spec_doi_resolver() + prefix + seq!['/']
            + crate::pct::doi_encode(suffix),
        IdSpec::Orcid(v) => crate::orcid::spec_orcid_base() + v,
        IdSpec::Ror(v) => crate::ror::spec_ror_base() + v,
        IdSpec::Uri(v) => v,
        IdSpec::OpaqueString(v) => v,
        IdSpec::Isbn(v) => v,
    }
}

/// The URI form of an identifier, where one exists: absent for opaque
/// strings, which never parsed as a URI, and absent for ISBN, which has no
/// natural resolvable URL.
pub open spec fn to_uri_spec(id: IdSpec) -> Option<Seq<char>> {
    match id {
        IdSpec::Doi { .. } => crate::doi::doi_uri_spec(id),
        IdSpec::Orcid(_) => crate::orcid::orcid_uri_spec(id),
        IdSpec::Ror(_) => crate::ror::ror_uri_spec(id),
        IdSpec::Uri(v) => Some(v),
        IdSpec::OpaqueString(_) => None,
        IdSpec::Isbn(_) => None,
    }
}

/// The permanent numeric kind tag of an identifier.  These tags are
/// persisted by callers and must never be reassigned.
pub open spec fn tag_spec(id: IdSpec) -> u32 {
    match id {
        IdSpec::Doi { .. } => 1,
        IdSpec::Orcid(_) => 2,
        IdSpec::Ror(_) => 3,
        IdSpec::Uri(_) => 4,
        IdSpec::OpaqueString(_) => 5,
        IdSpec::Isbn(_) => 6,
    }
}

/// What reconstruction from a kind-tagged pair yields: the one recogniser
/// matching the tag is re-run; an opaque string is taken verbatim; an
/// unknown tag yields nothing.
pub open spec fn from_pair_spec(s: Seq<char>, type_id: u32, v: UriViewSpec) -> Option<IdSpec> {
    if type_id == 1 {
        crate::doi::doi_parse_spec(s)
    } else if type_id == 2 {
        crate::orcid::orcid_parse_spec(v)
    } else if type_id == 3 {
        crate::ror::ror_parse_spec(v)
    } else if type_id == 4 {
        crate::uri::uri_parse_spec(v)
    } else if type_id == 5 {
        Some(IdSpec::OpaqueString(s))
    } else if type_id == 6 {
        crate::isbn::isbn_parse_spec(s)
    } else {
        None
    }
}

impl Identifier {
    /// Parse an input string, producing an identifier.  This always
    /// succeeds: when no recogniser claims the input, the result is an
    /// opaque string wrapping the input verbatim.
    pub fn parse(input: &str) -> (r: Identifier)
        ensures
            r@ == parse_spec(input@),
            view_consistent(input@, spec_view_of(input@)),
            spec_view_of(input@).ok ==> norm_reparses(spec_view_of(input@).norm),
    {
        let parse_input = IdentifierParseInput::build(input);
        if let Some(result) = crate::doi::try_parse(&parse_input) {
            return result;
        }
        if let Some(result) = crate::orcid::try_parse(&parse_input) {
            return result;
        }
        if let Some(result) = crate::isbn::try_parse(&parse_input) {
            return result;
        }
        if let Some(result) = crate::ror::try_parse(&parse_input) {
            return result;
        }
        if let Some(result) = crate::uri::try_parse(&parse_input) {
            return result;
        }
        Identifier::OpaqueString(input.to_owned())
    }

    /// Convert to a URI form, if one exists.  Opaque strings have none — had
    /// the input been parseable as a URI it would have been recognised as
    /// the URI kind.  ISBN has no natural resolvable URL, so its canonical
    /// behaviour here is absence; the `urn:isbn:` rendering remains
    /// available from the ISBN module's own `to_uri`.
    pub fn to_uri(&self) -> (r: Option<String>)
        ensures
            r matches Some(u) ==> Some(u@) == to_uri_spec(self@),
            (r is Some) == (to_uri_spec(self@) is Some),
    {
        match self {
            Identifier::Doi { prefix: _, suffix: _ } => crate::doi::to_uri(self),
            Identifier::Orcid(_) => crate::orcid::to_uri(self),
            Identifier::Ror(_) => crate::ror::to_uri(self),
            Identifier::Uri(value) => Some(value.clone()),
            Identifier::OpaqueString(_) => None,
            Identifier::Isbn(_) => None,
        }
    }

    /// Represent as the stable string: a consistent rendering fit for use as
    /// a database key, which parses back to the same identifier.
    pub fn to_stable_string(&self) -> (r: String)
        ensures
            r@ == stable_spec(self@),
    {
        let maybe_string = match self {
            Identifier::Doi { prefix: _, suffix: _ } => crate::doi::to_stable_string(self),
            Identifier::Orcid(_) => crate::orcid::to_stable_string(self),
            Identifier::Ror(_) => crate::ror::to_stable_string(self),
            Identifier::Uri(_) => crate::uri::to_stable_string(self),
            Identifier::OpaqueString(value) => Some(value.clone()),
            Identifier::Isbn(_) => crate::isbn::to_stable_string(self),
        };
        // Every kind has a stable rendering, so the fallback is provably
        // unreachable.
        match maybe_string {
            Some(result) => result,
            None => String::new(),
        }
    }

    /// Convert to the pair of stable string and permanent numeric kind tag.
    pub fn to_id_string_pair(&self) -> (r: (String, u32))
        ensures
            r.0@ == stable_spec(self@),
            r.1 == tag_spec(self@),
    {
        match self {
            Identifier::Doi { prefix: _, suffix: _ } => (self.to_stable_string(), 1),
            Identifier::Orcid(_) => (self.to_stable_string(), 2),
            Identifier::Ror(_) => (self.to_stable_string(), 3),
            Identifier::Uri(_) => (self.to_stable_string(), 4),
            Identifier::OpaqueString(_) => (self.to_stable_string(), 5),
            Identifier::Isbn(_) => (self.to_stable_string(), 6),
        }
    }

    /// Construct from a stable string and its numeric kind tag, re-running
    /// the one recogniser the tag names.  An unknown tag signals corruption
    /// of persisted data and yields nothing.
    pub fn from_id_string_pair(input_str: &str, type_id: u32) -> (r: Option<Identifier>)
        ensures
            r matches Some(id) ==> Some(id@) == from_pair_spec(
                input_str@,
                type_id,
                spec_view_of(input_str@),
            ),
            (r is Some) == (from_pair_spec(input_str@, type_id, spec_view_of(input_str@))
                is Some),
            view_consistent(input_str@, spec_view_of(input_str@)),
            spec_view_of(input_str@).ok ==> norm_reparses(spec_view_of(input_str@).norm),
    {
        let parse_input = IdentifierParseInput::build(input_str);
        if type_id == 1 {
            crate::doi::try_parse(&parse_input)
        } else if type_id == 2 {
            crate::orcid::try_parse(&parse_input)
        } else if type_id == 3 {
            crate::ror::try_parse(&parse_input)
        } else if type_id == 4 {
            crate::uri::try_parse(&parse_input)
        } else if type_id == 5 {
            Some(Identifier::OpaqueString(input_str.to_owned()))
        } else if type_id == 6 {
            crate::isbn::try_parse(&parse_input)
        } else {
            None
        }
    }
}

} // verus!

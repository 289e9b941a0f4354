//! The components of a URI as plain strings, and their composition into an
//! absolute URI by the `http` crate.
use vstd::prelude::*;
use vstd::string::*;

verus! {

/// The components of a URI: what `http::uri::Parts` holds, each as the text
/// that the component's `as_str` gives. Every component is one that `http`
/// accepts, and a path-and-query is one that `http` keeps as it is.
#[derive(Debug, PartialEq, Eq)]
pub struct UriParts {
    scheme: Option<String>,
    authority: Option<String>,
    path_and_query: Option<String>,
}

/// The mathematical value of a `UriParts`.
pub struct UriPartsView {
    pub scheme: Option<Seq<char>>,
    pub authority: Option<Seq<char>>,
    pub path_and_query: Option<Seq<char>>,
}

pub open spec fn opt_view(o: Option<String>) -> Option<Seq<char>> {
    match o {
        Some(s) => Some(s@),
        None => None,
    }
}

impl View for UriParts {
    type V = UriPartsView;

    closed spec fn view(&self) -> UriPartsView {
        UriPartsView {
            scheme: opt_view(self.scheme),
            authority: opt_view(self.authority),
            path_and_query: opt_view(self.path_and_query),
        }
    }
}

/// Whether `http` accepts a text as a scheme (`Scheme::try_from`).
pub uninterp spec fn scheme_parses(s: Seq<char>) -> bool;

/// Whether `http` accepts a text as an authority (`Authority::try_from`).
pub uninterp spec fn authority_parses(a: Seq<char>) -> bool;

/// Whether `http` accepts a text as a path-and-query (`PathAndQuery::try_from`).
pub uninterp spec fn path_and_query_parses(p: Seq<char>) -> bool;

/// A path-and-query text as `http` keeps it: not empty, and without a
/// fragment.
pub open spec fn is_canonical(p: Seq<char>) -> bool {
    p.len() > 0 && forall|i: int| 0 <= i < p.len() ==> p[i] != '#'
}

/// Components that `http` accepts, with a path-and-query that it keeps as
/// it is.
pub open spec fn well_formed(u: UriPartsView) -> bool {
    &&& u.scheme matches Some(s) ==> scheme_parses(s)
    &&& u.authority matches Some(a) ==> authority_parses(a)
    &&& u.path_and_query matches Some(p) ==> path_and_query_parses(p) && is_canonical(p)
}

/// The value of the parts made of the given components.
pub open spec fn parts_view(
    scheme: Option<String>,
    authority: Option<String>,
    path_and_query: Option<String>,
) -> UriPartsView {
    UriPartsView {
        scheme: opt_view(scheme),
        authority: opt_view(authority),
        path_and_query: opt_view(path_and_query),
    }
}

impl UriParts {
    #[verifier::type_invariant]
    pub(crate) open spec fn inv(self) -> bool {
        well_formed(self@)
    }

    /// The parts of a URI, where `http` accepts each present component and
    /// the path-and-query is as `http` keeps it (not empty, no fragment).
    pub fn new(scheme: Option<String>, authority: Option<String>, path_and_query: Option<String>) -> (r:
        Option<UriParts>)
        ensures
            r is Some <==> well_formed(parts_view(scheme, authority, path_and_query)),
            r matches Some(u) ==> u@ == parts_view(scheme, authority, path_and_query),
            r is Some <==> ({
                &&& scheme matches Some(s) ==> scheme_parses(s@)
                &&& authority matches Some(a) ==> authority_parses(a@)
                &&& path_and_query matches Some(p) ==> {
                    &&& path_and_query_parses(p@)
                    &&& p@.len() > 0
                    &&& forall|i: int| 0 <= i < p@.len() ==> p@[i] != '#'
                }
            }),
    {
        if let Some(s) = &scheme {
            if !parses_as_scheme(s.as_str()) {
                return None;
            }
        }
        if let Some(a) = &authority {
            if !parses_as_authority(a.as_str()) {
                return None;
            }
        }
        if let Some(p) = &path_and_query {
            let text = p.as_str();
            let n: usize = text.unicode_len();
            if n == 0 || find_char(text, '#') < n || !parses_as_path_and_query(text) {
                return None;
            }
        }
        Some(UriParts { scheme, authority, path_and_query })
    }

    /// The path-and-query, if the URI has one.
    pub fn path_and_query_str(&self) -> (r: Option<&str>)
        ensures
            match r {
                Some(p) => self@.path_and_query == Some(p@),
                None => self@.path_and_query is None,
            },
    {
        match &self.path_and_query {
            Some(p) => Some(p.as_str()),
            None => None,
        }
    }
}

/// A copy of an optional text.
fn copy_text(o: &Option<String>) -> (r: Option<String>)
    ensures
        opt_view(r) == opt_view(*o),
{
    match o {
        Some(s) => Some(s.clone()),
        None => None,
    }
}

impl Clone for UriParts {
    fn clone(&self) -> (r: UriParts)
        ensures
            r@ == self@,
    {
        proof {
            use_type_invariant(self);
        }
        UriParts {
            scheme: copy_text(&self.scheme),
            authority: copy_text(&self.authority),
            path_and_query: copy_text(&self.path_and_query),
        }
    }
}

/// Calls `http::uri::Scheme::try_from`. Claimed: it succeeds exactly where
/// `scheme_parses` holds.
#[verifier::external_body]
fn parses_as_scheme(s: &str) -> (r: bool)
    ensures
        r == scheme_parses(s@),
{
    http::uri::Scheme::try_from(s).is_ok()
}

/// Calls `http::uri::Authority::try_from`. Claimed: it succeeds exactly where
/// `authority_parses` holds.
#[verifier::external_body]
fn parses_as_authority(a: &str) -> (r: bool)
    ensures
        r == authority_parses(a@),
{
    http::uri::Authority::try_from(a).is_ok()
}

/// Calls `http::uri::PathAndQuery::try_from`. Claimed: it succeeds exactly
/// where `path_and_query_parses` holds.
#[verifier::external_body]
fn parses_as_path_and_query(p: &str) -> (r: bool)
    ensures
        r == path_and_query_parses(p@),
{
    http::uri::PathAndQuery::try_from(p).is_ok()
}

/// The index of the first `c` in `s`, or `s.len()` where `s` holds none.
pub open spec fn first_index(s: Seq<char>, c: char) -> int {
    if exists|i: int| 0 <= i < s.len() && s[i] == c && (forall|j: int| 0 <= j < i ==> s[j] != c) {
        choose|i: int| 0 <= i < s.len() && s[i] == c && (forall|j: int| 0 <= j < i ==> s[j] != c)
    } else {
        s.len() as int
    }
}

/// `k` is the first index of `c` in `s` when no `c` comes before it and `k`
/// is either the end of `s` or an occurrence of `c`.
pub proof fn lemma_first_index(s: Seq<char>, c: char, k: int)
    requires
        0 <= k <= s.len(),
        forall|j: int| 0 <= j < k ==> s[j] != c,
        k < s.len() ==> s[k] == c,
    ensures
        first_index(s, c) == k,
{
    if k < s.len() {
        assert(0 <= k < s.len() && s[k] == c && (forall|j: int| 0 <= j < k ==> s[j] != c));
        let i: int = choose|i: int|
            0 <= i < s.len() && s[i] == c && (forall|j: int| 0 <= j < i ==> s[j] != c);
        if i < k {
            assert(s[i] != c);
        }
        if k < i {
            assert(s[k] != c);
        }
    } else {
        if exists|i: int|
            0 <= i < s.len() && s[i] == c && (forall|j: int| 0 <= j < i ==> s[j] != c) {
            let i: int = choose|i: int|
                0 <= i < s.len() && s[i] == c && (forall|j: int| 0 <= j < i ==> s[j] != c);
            assert(s[i] != c);
        }
    }
}

/// Where some `c` occurs in `s`, a first one does.
proof fn lemma_first_occurrence_exists(s: Seq<char>, c: char, j: int)
    requires
        0 <= j < s.len(),
        s[j] == c,
    ensures
        exists|i: int| 0 <= i < s.len() && s[i] == c && (forall|k: int| 0 <= k < i ==> s[k] != c),
    decreases j,
{
    if exists|i: int| 0 <= i < j && s[i] == c {
        let i: int = choose|i: int| 0 <= i < j && s[i] == c;
        lemma_first_occurrence_exists(s, c, i);
    } else {
        assert(0 <= j < s.len() && s[j] == c && (forall|k: int| 0 <= k < j ==> s[k] != c));
    }
}

/// `first_index(s, c)` is within `s`, no `c` comes before it, and it is an
/// occurrence of `c` unless it is the end of `s`.
pub proof fn lemma_first_index_bounds(s: Seq<char>, c: char)
    ensures
        0 <= first_index(s, c) <= s.len(),
        forall|j: int| 0 <= j < first_index(s, c) ==> s[j] != c,
        first_index(s, c) < s.len() ==> s[first_index(s, c)] == c,
{
    if exists|i: int| 0 <= i < s.len() && s[i] == c && (forall|j: int| 0 <= j < i ==> s[j] != c) {
    } else {
        assert forall|j: int| 0 <= j < s.len() implies s[j] != c by {
            if s[j] == c {
                lemma_first_occurrence_exists(s, c, j);
            }
        }
    }
}

/// Where the query of a path-and-query text begins: its first `?`.
pub open spec fn query_mark(p: Seq<char>) -> int {
    first_index(p, '?')
}

/// The path of a path-and-query text: what comes before its first `?`, and
/// `/` where that is empty.
pub open spec fn path_of(p: Seq<char>) -> Seq<char> {
    let t = p.take(query_mark(p));
    if t.len() == 0 {
        seq!['/']
    } else {
        t
    }
}

/// The query of a path-and-query text: what follows its first `?`, if any.
pub open spec fn query_of(p: Seq<char>) -> Option<Seq<char>> {
    if query_mark(p) < p.len() {
        Some(p.skip(query_mark(p) + 1))
    } else {
        None
    }
}

/// The path and the query of a path-and-query text give the text back: without
/// a `?` the path is the whole text and there is no query; with one, the
/// query is everything after the first `?`, and the text is the path, `?`
/// and the query (the path being `/` where the text begins with `?`).
pub proof fn lemma_path_and_query_split(p: Seq<char>)
    requires
        p.len() > 0,
    ensures
        query_of(p) is None <==> forall|i: int| 0 <= i < p.len() ==> p[i] != '?',
        query_of(p) is None ==> path_of(p) == p,
        query_of(p) matches Some(q) ==> {
            &&& p[0] == '?' ==> path_of(p) == seq!['/'] && p == seq!['?'] + q
            &&& p[0] != '?' ==> p == path_of(p) + seq!['?'] + q
            &&& forall|i: int| 0 <= i < q.len() ==> #[trigger] q[i] == p[p.len() - q.len() + i]
        },
{
    lemma_first_index_bounds(p, '?');
    let k = first_index(p, '?');
    if k < p.len() {
        let q = p.skip(k + 1);
        if k == 0 {
            assert(p =~= seq!['?'] + q);
        } else {
            assert(p =~= p.take(k) + seq!['?'] + q);
        }
    } else {
        assert(p.take(k) =~= p);
    }
}

/// Parts are well formed exactly where `http` accepts each present component
/// and the path-and-query is not empty and holds no `#`; no other character
/// of it matters.
pub proof fn lemma_well_formed_exactly(u: UriPartsView)
    ensures
        well_formed(u) <==> ({
            &&& u.scheme matches Some(s) ==> scheme_parses(s)
            &&& u.authority matches Some(a) ==> authority_parses(a)
            &&& u.path_and_query matches Some(p) ==> {
                &&& path_and_query_parses(p)
                &&& p.len() > 0
                &&& forall|i: int| 0 <= i < p.len() ==> p[i] != '#'
            }
        }),
{
}

/// The path-and-query `/` has the path `/` and no query.
pub proof fn lemma_slash_path_and_query()
    ensures
        path_of(seq!['/']) == seq!['/'],
        query_of(seq!['/']) is None,
{
    let slash = seq!['/'];
    lemma_first_index(slash, '?', 1);
    assert(slash.take(1) =~= slash);
}

/// The path-and-query text that `http` keeps of `p`: `p` up to its first `#`,
/// and `/` where that is empty.
pub open spec fn canonical_path_and_query(p: Seq<char>) -> Seq<char> {
    let t = p.take(first_index(p, '#'));
    if t.len() == 0 {
        seq!['/']
    } else {
        t
    }
}

/// The path of a URI, as `http::Uri::path` gives it.
pub open spec fn uri_path(u: UriPartsView) -> Seq<char> {
    match u.path_and_query {
        Some(p) => path_of(p),
        None => if u.scheme is Some {
            seq!['/']
        } else {
            Seq::empty()
        },
    }
}

/// The query of a URI, as `http::Uri::query` gives it.
pub open spec fn uri_query(u: UriPartsView) -> Option<Seq<char>> {
    match u.path_and_query {
        Some(p) => query_of(p),
        None => None,
    }
}

/// What `http::Uri::builder()` with the given scheme, authority and
/// path-and-query builds: the components of the URI, or the text of the error.
pub uninterp spec fn built_absolute_uri(
    scheme: Seq<char>,
    authority: Seq<char>,
    path_and_query: Seq<char>,
) -> Result<UriPartsView, Seq<char>>;

pub open spec fn built_view(built: Result<UriParts, String>) -> Result<UriPartsView, Seq<char>> {
    match built {
        Ok(u) => Ok(u@),
        Err(e) => Err(e@),
    }
}

/// Calls `http::Uri::builder().scheme(..).authority(..).path_and_query(..).build()`
/// and takes the built URI apart again. Claimed: the outcome is
/// `built_absolute_uri` of the three texts; as the sources of the builder,
/// `Scheme`, `Authority`, `PathAndQuery` and `Uri::from_parts` show, the build
/// succeeds exactly where `http` accepts the scheme and the authority and
/// either accepts the path-and-query or is given the empty text (which it
/// takes as the empty path-and-query); and a built URI has the given scheme
/// and authority verbatim and keeps the path-and-query up to its first `#`
/// (`/` where that is empty). The parts it returns hold `UriParts`'s
/// invariant: `http` accepts each text that `as_str` gives of a component.
/// Which texts `http` accepts is left to the names.
#[verifier::external_body]
pub(crate) fn build_absolute_uri(scheme: &str, authority: &str, path_and_query: &str) -> (built:
    Result<UriParts, String>)
    ensures
        built_view(built) == built_absolute_uri(scheme@, authority@, path_and_query@),
        built is Ok <==> {
            &&& scheme_parses(scheme@)
            &&& authority_parses(authority@)
            &&& path_and_query@.len() == 0 || path_and_query_parses(path_and_query@)
        },
        built matches Ok(u) ==> {
            &&& u@.scheme == Some(scheme@)
            &&& u@.authority == Some(authority@)
            &&& u@.path_and_query == Some(canonical_path_and_query(path_and_query@))
        },
{
    let uri = http::Uri::builder().scheme(scheme).authority(authority).path_and_query(
        path_and_query,
    ).build();
    match uri {
        Ok(uri) => Ok(UriParts {
            scheme: uri.scheme_str().map(String::from),
            authority: uri.authority().map(http::uri::Authority::as_str).map(String::from),
            path_and_query: uri.path_and_query().map(http::uri::PathAndQuery::as_str).map(
                String::from,
            ),
        }),
        Err(e) => Err(e.to_string()),
    }
}

/// The index of the first `c` in `s`, or its length where it holds none.
fn find_char(s: &str, c: char) -> (k: usize)
    ensures
        k == first_index(s@, c),
        k <= s@.len(),
        forall|j: int| 0 <= j < k ==> s@[j] != c,
        k < s@.len() ==> s@[k as int] == c,
{
    let n: usize = s.unicode_len();
    let mut i: usize = 0;
    while i < n
        invariant
            n == s@.len(),
            i <= n,
            forall|j: int| 0 <= j < i ==> s@[j] != c,
        decreases n - i,
    {
        if s.get_char(i) == c {
            proof {
                lemma_first_index(s@, c, i as int);
            }
            return i;
        }
        i = i + 1;
    }
    proof {
        lemma_first_index(s@, c, n as int);
    }
    n
}

impl UriParts {
    /// The scheme, if the URI has one.
    pub fn scheme_str(&self) -> (r: Option<&str>)
        ensures
            match r {
                Some(s) => self@.scheme == Some(s@),
                None => self@.scheme is None,
            },
    {
        match &self.scheme {
            Some(s) => Some(s.as_str()),
            None => None,
        }
    }

    /// The authority, if the URI has one.
    pub fn authority_str(&self) -> (r: Option<&str>)
        ensures
            match r {
                Some(s) => self@.authority == Some(s@),
                None => self@.authority is None,
            },
    {
        match &self.authority {
            Some(s) => Some(s.as_str()),
            None => None,
        }
    }

    /// The path: what comes before the first `?` of the path-and-query (`/`
    /// where that is empty); without a path-and-query, `/` where the URI has a
    /// scheme and the empty text where it has none.
    pub fn path(&self) -> (r: String)
        ensures
            r@ == uri_path(self@),
            self@.path_and_query matches Some(p) ==> forall|k: int|
                #![trigger p.take(k)]
                0 <= k <= p.len() && (forall|j: int| 0 <= j < k ==> p[j] != '?') && (k < p.len()
                    ==> p[k] == '?') ==> r@ == (if k == 0 {
                    seq!['/']
                } else {
                    p.take(k)
                }),
    {
        match &self.path_and_query {
            Some(p) => {
                let k: usize = find_char(p.as_str(), '?');
                proof {
                    assert forall|m: int|
                        0 <= m <= p@.len() && (forall|j: int| 0 <= j < m ==> p@[j] != '?') && (m
                            < p@.len() ==> p@[m] == '?') implies m == k by {
                        lemma_first_index(p@, '?', m);
                    }
                }
                let t = p.as_str().substring_char(0, k);
                if k == 0 {
                    let slash = String::from_str("/");
                    proof {
                        reveal_strlit("/");
                    }
                    assert(slash@ =~= seq!['/']);
                    slash
                } else {
                    t.to_owned()
                }
            },
            None => {
                if self.scheme.is_some() {
                    let slash = String::from_str("/");
                    proof {
                        reveal_strlit("/");
                    }
                    assert(slash@ =~= seq!['/']);
                    slash
                } else {
                    let empty = String::new();
                    assert(empty@ =~= Seq::<char>::empty());
                    empty
                }
            },
        }
    }

    /// The query: what follows the first `?` of the path-and-query, if any.
    pub fn query(&self) -> (r: Option<String>)
        ensures
            opt_view(r) == uri_query(self@),
            self@.path_and_query matches Some(p) ==> forall|k: int|
                #![trigger p.skip(k + 1)]
                0 <= k <= p.len() && (forall|j: int| 0 <= j < k ==> p[j] != '?') && (k < p.len()
                    ==> p[k] == '?') ==> (if k < p.len() {
                    r matches Some(q) && q@ == p.skip(k + 1)
                } else {
                    r is None
                }),
    {
        match &self.path_and_query {
            Some(p) => {
                let s = p.as_str();
                let k: usize = find_char(s, '?');
                proof {
                    assert forall|m: int|
                        0 <= m <= s@.len() && (forall|j: int| 0 <= j < m ==> s@[j] != '?') && (m
                            < s@.len() ==> s@[m] == '?') implies m == k by {
                        lemma_first_index(s@, '?', m);
                    }
                }
                let n: usize = s.unicode_len();
                if k < n {
                    Some(s.substring_char(k + 1, n).to_owned())
                } else {
                    None
                }
            },
            None => None,
        }
    }
}

} // verus!

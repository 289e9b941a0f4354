//! The fetch transport: its base, and the rewriting of request URIs onto it.
use vstd::prelude::*;
use vstd::string::*;

use crate::error::TransportError;
use crate::uri::{
    authority_parses, build_absolute_uri, built_absolute_uri, canonical_path_and_query,
    is_canonical, lemma_first_index, lemma_slash_path_and_query, path_of, scheme_parses, uri_path, uri_query, well_formed, UriParts,
    UriPartsView,
};

verus! {

/// A transport that sends each request to the scheme and authority of a
/// base URI, keeping the request's own path and query.
#[derive(Debug)]
pub struct FetchTransport {
    scheme: String,
    authority: String,
}

impl View for FetchTransport {
    /// The scheme and the authority of the base.
    type V = (Seq<char>, Seq<char>);

    closed spec fn view(&self) -> (Seq<char>, Seq<char>) {
        (self.scheme@, self.authority@)
    }
}

impl Clone for FetchTransport {
    fn clone(&self) -> (r: FetchTransport)
        ensures
            r@ == self@,
    {
        proof {
            use_type_invariant(self);
        }
        FetchTransport { scheme: self.scheme.clone(), authority: self.authority.clone() }
    }
}

/// A base that `http` accepts: its scheme and its authority parse.
pub open spec fn valid_base(base: (Seq<char>, Seq<char>)) -> bool {
    scheme_parses(base.0) && authority_parses(base.1)
}

/// A request whose URI is to be rewritten: its URI as plain parts, and the
/// rest of it (method, headers, body), which is carried through untouched.
#[derive(Debug)]
pub struct Request<B> {
    pub uri: UriParts,
    pub rest: B,
}

/// The path-and-query that a rewritten request asks `http` for: the
/// request's own, or the empty one (which `http` shows as `/`) where it has
/// none.
pub open spec fn target_path_and_query(u: UriPartsView) -> Seq<char> {
    match u.path_and_query {
        Some(p) => p,
        None => Seq::empty(),
    }
}

impl FetchTransport {
    #[verifier::type_invariant]
    pub(crate) open spec fn inv(self) -> bool {
        valid_base(self@)
    }

    /// Builds a transport from a base URI. Fails where the base has no scheme,
    /// and then where it has no authority.
    pub fn new(base: UriParts) -> (result: Result<FetchTransport, TransportError>)
        ensures
            match (base@.scheme, base@.authority) {
                (None, _) => result == Err::<FetchTransport, TransportError>(
                    TransportError::MissingScheme,
                ),
                (Some(_), None) => result == Err::<FetchTransport, TransportError>(
                    TransportError::MissingAuthority,
                ),
                (Some(s), Some(a)) => result matches Ok(t) && t@ == (s, a),
            },
            result matches Ok(t) ==> valid_base(t@),
    {
        proof {
            use_type_invariant(&base);
        }
        let scheme = match base.scheme_str() {
            Some(s) => s.to_owned(),
            None => return Err(TransportError::MissingScheme),
        };
        let authority = match base.authority_str() {
            Some(a) => a.to_owned(),
            None => return Err(TransportError::MissingAuthority),
        };
        Ok(FetchTransport { scheme, authority })
    }

    /// The scheme of the base.
    pub fn scheme(&self) -> (r: &str)
        ensures
            r@ == self@.0,
    {
        self.scheme.as_str()
    }

    /// The authority of the base.
    pub fn authority(&self) -> (r: &str)
        ensures
            r@ == self@.1,
    {
        self.authority.as_str()
    }

    /// Addresses a request to the base before it is sent: its URI is
    /// rewritten onto the base's scheme and authority. This never fails.
    pub fn prepare_request<B>(&self, request: Request<B>) -> (result: Result<
        Request<B>,
        TransportError,
    >)
        ensures
            rewritten(request, self@.0, self@.1, result),
            addressed_to(request, self@.0, self@.1, result),
            result is Ok,
            result matches Ok(r) ==> r.uri@.path_and_query == (match request.uri@.path_and_query {
                Some(p) => Some(p),
                None => Some(seq!['/']),
            }),
    {
        proof {
            use_type_invariant(self);
        }
        let scheme = self.scheme.clone();
        let authority = self.authority.clone();
        rewrite_uri(request, scheme, authority)
    }
}

/// `result` is what rewriting the URI of `request` onto `scheme` and
/// `authority` gives: the URI that `http` builds of them and of the request's
/// path-and-query (the empty one where it has none), with the rest of the
/// request untouched; or, where `http` refuses to build it, its error.
pub open spec fn rewritten<B>(
    request: Request<B>,
    scheme: Seq<char>,
    authority: Seq<char>,
    result: Result<Request<B>, TransportError>,
) -> bool {
    match built_absolute_uri(scheme, authority, target_path_and_query(request.uri@)) {
        Ok(u) => result matches Ok(r) && r.uri@ == u && r.rest == request.rest,
        Err(e) => result matches Err(TransportError::RewriteUri(m)) && m@ == e,
    }
}

/// When a rewrite succeeds and what it is addressed to: it succeeds exactly
/// where `http` accepts the scheme and the authority, and then goes to them
/// with the request's path-and-query as `http` keeps it (`/` where it has
/// none), in parts that are well formed.
pub open spec fn addressed_to<B>(
    request: Request<B>,
    scheme: Seq<char>,
    authority: Seq<char>,
    result: Result<Request<B>, TransportError>,
) -> bool {
    &&& result is Ok <==> valid_base((scheme, authority))
    &&& result matches Ok(r) ==> {
        &&& r.uri@.scheme == Some(scheme)
        &&& r.uri@.authority == Some(authority)
        &&& r.uri@.path_and_query == Some(
            canonical_path_and_query(target_path_and_query(request.uri@)),
        )
        &&& well_formed(r.uri@)
    }
}

/// Puts the URI that `http` built into the request, or turns `http`'s error
/// into the transport's.
pub fn apply_built_uri<B>(request: Request<B>, built: Result<UriParts, String>) -> (result: Result<
    Request<B>,
    TransportError,
>)
    ensures
        match built {
            Ok(u) => result matches Ok(r) && r.uri == u && r.rest == request.rest,
            Err(e) => result == Err::<Request<B>, TransportError>(TransportError::RewriteUri(e)),
        },
{
    match built {
        Ok(uri) => Ok(Request { uri, rest: request.rest }),
        Err(e) => Err(TransportError::RewriteUri(e)),
    }
}

/// Rewrites the URI of a request onto `scheme` and `authority`, keeping its
/// path and query; a request without a path-and-query is sent to `/`.
pub fn rewrite_uri<B>(request: Request<B>, scheme: String, authority: String) -> (result: Result<
    Request<B>,
    TransportError,
>)
    ensures
        rewritten(request, scheme@, authority@, result),
        addressed_to(request, scheme@, authority@, result),
        result matches Ok(r) ==> r.uri@.path_and_query == (match request.uri@.path_and_query {
            Some(p) => Some(p),
            None => Some(seq!['/']),
        }),
{
    proof {
        use_type_invariant(&request.uri);
    }
    let target = match request.uri.path_and_query_str() {
        Some(p) => p.to_owned(),
        None => String::new(),
    };
    let built = build_absolute_uri(scheme.as_str(), authority.as_str(), target.as_str());
    let result = apply_built_uri(request, built);
    if let Ok(r) = &result {
        proof {
            use_type_invariant(&r.uri);
        }
    }
    proof {
        lemma_rewrite_keeps_path_and_query_text(request, scheme@, authority@, result);
    }
    result
}

} // verus!

verus! {

/// A text without a fragment is kept as it is, but for the empty text, which
/// becomes `/`.
pub proof fn lemma_canonical_without_fragment(p: Seq<char>)
    requires
        forall|i: int| 0 <= i < p.len() ==> p[i] != '#',
    ensures
        canonical_path_and_query(p) == (if p.len() == 0 {
            seq!['/']
        } else {
            p
        }),
{
    lemma_first_index(p, '#', p.len() as int);
    assert(p.take(p.len() as int) =~= p);
}

/// A rewritten request keeps its own path-and-query exactly as it is; a
/// request without one is sent to `/`.
pub proof fn lemma_rewrite_keeps_path_and_query_text<B>(
    request: Request<B>,
    scheme: Seq<char>,
    authority: Seq<char>,
    result: Result<Request<B>, TransportError>,
)
    requires
        well_formed(request.uri@),
        addressed_to(request, scheme, authority, result),
    ensures
        result matches Ok(r) ==> r.uri@.path_and_query == (match request.uri@.path_and_query {
            Some(p) => Some(p),
            None => Some(seq!['/']),
        }),
{
    lemma_canonical_without_fragment(target_path_and_query(request.uri@));
}

/// Rewriting keeps the path and the query of a request that has a
/// path-and-query; a request without one is sent to the path `/` with no
/// query.
pub proof fn lemma_rewrite_keeps_path_and_query(original: UriPartsView, rewritten: UriPartsView)
    requires
        well_formed(original),
        rewritten.path_and_query == Some(
            canonical_path_and_query(target_path_and_query(original)),
        ),
    ensures
        original.path_and_query is Some ==> uri_path(rewritten) == uri_path(original)
            && uri_query(rewritten) == uri_query(original),
        original.path_and_query is None ==> uri_path(rewritten) == seq!['/'] && uri_query(
            rewritten,
        ) is None,
{
    lemma_slash_path_and_query();
    lemma_canonical_without_fragment(target_path_and_query(original));
}

/// A request addressed by a transport goes to the scheme and the authority of
/// the base the transport was built from, and keeps its path and query (a
/// request without a path-and-query goes to `/`).
pub proof fn lemma_transport_addresses_base<B>(
    base: UriPartsView,
    transport: FetchTransport,
    request: Request<B>,
    result: Result<Request<B>, TransportError>,
)
    requires
        base.scheme == Some(transport@.0),
        base.authority == Some(transport@.1),
        valid_base(transport@),
        well_formed(request.uri@),
        addressed_to(request, transport@.0, transport@.1, result),
    ensures
        result matches Ok(r) && {
            &&& r.uri@.scheme == base.scheme
            &&& r.uri@.authority == base.authority
            &&& request.uri@.path_and_query is Some ==> uri_path(r.uri@) == uri_path(request.uri@)
                && uri_query(r.uri@) == uri_query(request.uri@)
            &&& request.uri@.path_and_query is None ==> uri_path(r.uri@) == seq!['/']
                && uri_query(r.uri@) is None
        },
{
    if let Ok(r) = result {
        lemma_rewrite_keeps_path_and_query(request.uri@, r.uri@);
    }
}

/// Rewriting an already rewritten request onto the same scheme and authority
/// succeeds and gives the same URI and the same rest again.
pub proof fn lemma_rewrite_idempotent<B>(
    request: Request<B>,
    first: Request<B>,
    second: Result<Request<B>, TransportError>,
    scheme: Seq<char>,
    authority: Seq<char>,
)
    requires
        well_formed(request.uri@),
        addressed_to(request, scheme, authority, Ok(first)),
        rewritten(request, scheme, authority, Ok(first)),
        addressed_to(first, scheme, authority, second),
        rewritten(first, scheme, authority, second),
    ensures
        second matches Ok(r) && r.uri@ == first.uri@ && r.rest == first.rest,
{
    let t = target_path_and_query(request.uri@);
    lemma_canonical_without_fragment(t);
    let c = canonical_path_and_query(t);
    assert(is_canonical(c)) by {
        if t.len() == 0 {
            assert(c == seq!['/']);
        }
    }
    lemma_canonical_without_fragment(c);
    if let Ok(r) = second {
        assert(r.uri@ == first.uri@);
    }
}

/// The path a request asks for, as a rewrite reads it: the path of its
/// path-and-query, or `/` where it has none.
pub open spec fn requested_path(u: UriPartsView) -> Seq<char> {
    match u.path_and_query {
        Some(p) => path_of(p),
        None => seq!['/'],
    }
}

/// The URI a rewrite gives depends only on the scheme, the authority and the
/// request's path and query: two requests that agree on their path and query
/// are rewritten onto the same scheme, authority, path and query, so a later
/// rewrite fully overrides an earlier one.
pub proof fn lemma_rewrite_overrides<B, C>(
    one: Request<B>,
    other: Request<C>,
    one_result: Result<Request<B>, TransportError>,
    other_result: Result<Request<C>, TransportError>,
    scheme: Seq<char>,
    authority: Seq<char>,
)
    requires
        well_formed(one.uri@),
        well_formed(other.uri@),
        requested_path(one.uri@) == requested_path(other.uri@),
        uri_query(one.uri@) == uri_query(other.uri@),
        addressed_to(one, scheme, authority, one_result),
        addressed_to(other, scheme, authority, other_result),
    ensures
        one_result is Ok <==> other_result is Ok,
        one_result matches Ok(r1) ==> other_result matches Ok(r2) && {
            &&& r1.uri@.scheme == r2.uri@.scheme
            &&& r1.uri@.authority == r2.uri@.authority
            &&& uri_path(r1.uri@) == uri_path(r2.uri@)
            &&& uri_query(r1.uri@) == uri_query(r2.uri@)
        },
{
    if let Ok(r1) = one_result {
        if let Ok(r2) = other_result {
            lemma_rewrite_keeps_path_and_query(one.uri@, r1.uri@);
            lemma_rewrite_keeps_path_and_query(other.uri@, r2.uri@);
            lemma_slash_path_and_query();
            match (one.uri@.path_and_query, other.uri@.path_and_query) {
                (Some(p), None) => {
                    lemma_canonical_without_fragment(p);
                },
                (None, Some(q)) => {
                    lemma_canonical_without_fragment(q);
                },
                _ => {},
            }
        }
    }
}

} // verus!

//! Routing of negotiated protocol identifiers to registered services.
//!
//! A `Router` is an ordered, immutable-once-built chain of routes terminated
//! by a fallback that always fails with "protocol service not found". Routes
//! are composed with the binary `Or` combinator; the chain is a right-leaning
//! nest, so resolution tests the most recently added route first, and when two
//! predicates both match an identifier the later registration wins.

use vstd::prelude::*;

use crate::protocol::ProtocolId;

verus! {

/// A pure, total predicate over protocol identifiers, deciding whether a
/// route accepts a negotiated identifier.
pub enum RoutePredicate {
    /// Accepts exactly one identifier, byte for byte.
    Exact(ProtocolId),
    /// Accepts every identifier that starts with the given bytes.
    Prefix(ProtocolId),
    /// Accepts every identifier.
    Any,
}

impl RoutePredicate {
    /// What the predicate accepts, as a mathematical function of the
    /// identifier's bytes.
    pub open spec fn matches_spec(self, id: Seq<u8>) -> bool {
        match self {
            RoutePredicate::Exact(p) => p@ == id,
            RoutePredicate::Prefix(p) => p@.is_prefix_of(id),
            RoutePredicate::Any => true,
        }
    }

    /// Tests the predicate against an identifier.
    pub fn matches(&self, id: &ProtocolId) -> (r: bool)
        ensures
            r == self.matches_spec(id@),
    {
        match self {
            RoutePredicate::Exact(p) => p.matches(id),
            RoutePredicate::Prefix(p) => bytes_prefix_of(p.as_bytes(), id.as_bytes()),
            RoutePredicate::Any => true,
        }
    }
}

/// Whether `a` is a prefix of `b`, byte for byte.
fn bytes_prefix_of(a: &Vec<u8>, b: &Vec<u8>) -> (r: bool)
    ensures
        r == a@.is_prefix_of(b@),
{
    if a.len() > b.len() {
        return false;
    }
    let n: usize = a.len();
    let mut i: usize = 0;
    while i < n
        invariant
            n == a@.len(),
            n <= b@.len(),
            i <= n,
            forall|j: int| 0 <= j < i ==> a@[j] == b@[j],
        decreases n - i,
    {
        if a[i] != b[i] {
            assert(!a@.is_prefix_of(b@)) by {
                assert(a@[i as int] != b@.subrange(0, a@.len() as int)[i as int]);
            }
            return false;
        }
        i = i + 1;
    }
    assert(a@ =~= b@.subrange(0, a@.len() as int));
    true
}

/// The terminal fallback at the end of every route chain: a "factory" whose
/// single behaviour is to fail resolution with `ProtocolServiceNotFound`.
#[derive(Debug)]
pub struct ProtocolServiceNotFound;

/// Errors raised while resolving an identifier or constructing a handler,
/// distinct from per-call application statuses.
#[derive(Debug)]
pub enum RpcServerError {
    /// No registered route matched the identifier; carries the queried
    /// identifier verbatim for diagnostics.
    ProtocolServiceNotFound(ProtocolId),
    /// A matched factory failed to construct a handler for the identifier;
    /// an infrastructure failure, not an unknown protocol.
    ServiceFactoryFailed(ProtocolId),
}

/// A binary combinator composing one route with the rest of the chain: if
/// `predicate` matches the identifier the route's own service `a` is chosen,
/// otherwise resolution delegates to the earlier-registered chain `b`.
pub struct Or<S> {
    /// The predicate guarding this route.
    pub predicate: RoutePredicate,
    /// The service chosen when the predicate matches.
    pub a: S,
    /// The earlier-registered chain tried when the predicate rejects.
    pub b: Box<Routes<S>>,
}

/// A chain of routes: either the terminal fallback, or one `Or` combinator
/// in front of the remaining chain.
pub enum Routes<S> {
    /// The base case: resolution has exhausted every route.
    NotFound(ProtocolServiceNotFound),
    /// One route in front of the rest of the chain.
    Or(Or<S>),
}

impl<S> Or<S> {
    /// Composes a route over `a` with the chain `b`, behind `predicate`.
    pub fn new(predicate: RoutePredicate, a: S, b: Routes<S>) -> (r: Or<S>)
        ensures
            r.predicate == predicate,
            r.a == a,
            *r.b == b,
    {
        Or { predicate, a, b: Box::new(b) }
    }
}

/// The index of the first route in `rs` (resolution order) whose predicate
/// matches the identifier, if any.
pub open spec fn first_match<S>(rs: Seq<(RoutePredicate, S)>, id: Seq<u8>) -> Option<int>
    decreases rs.len(),
{
    if rs.len() == 0 {
        None
    } else if rs[0].0.matches_spec(id) {
        Some(0)
    } else {
        match first_match(rs.skip(1), id) {
            None => None,
            Some(i) => Some(i + 1),
        }
    }
}

/// The first match is a genuine match, and every route before it (all of them
/// registered later than it) rejects the identifier; when there is no match,
/// every route rejects it.
pub proof fn lemma_first_match_characterization<S>(rs: Seq<(RoutePredicate, S)>, id: Seq<u8>)
    ensures
        match first_match(rs, id) {
            Some(i) => {
                &&& 0 <= i < rs.len()
                &&& rs[i].0.matches_spec(id)
                &&& forall|j: int| 0 <= j < i ==> !(#[trigger] rs[j]).0.matches_spec(id)
            },
            None => forall|j: int| 0 <= j < rs.len() ==> !(#[trigger] rs[j]).0.matches_spec(id),
        },
    decreases rs.len(),
{
    if rs.len() == 0 {
    } else if rs[0].0.matches_spec(id) {
    } else {
        lemma_first_match_characterization(rs.skip(1), id);
        assert forall|j: int| 1 <= j < rs.len() implies (#[trigger] rs[j])
            == rs.skip(1)[j - 1] by {}
    }
}

impl<S> Routes<S> {
    /// The chain as a sequence of (predicate, service) pairs in resolution
    /// order: the most recently added route first.
    pub open spec fn view_seq(self) -> Seq<(RoutePredicate, S)>
        decreases self,
    {
        match self {
            Routes::NotFound(_) => Seq::empty(),
            Routes::Or(o) => seq![(o.predicate, o.a)] + o.b.view_seq(),
        }
    }

    /// Resolves an identifier against the chain: the service of the first
    /// route whose predicate matches, or `ProtocolServiceNotFound` carrying
    /// the queried identifier once the chain is exhausted. Never panics and
    /// always terminates.
    pub fn resolve(&self, protocol: &ProtocolId) -> (r: Result<&S, RpcServerError>)
        ensures
            match first_match(self.view_seq(), protocol@) {
                Some(i) => r matches Ok(s) && *s == self.view_seq()[i].1,
                None => r matches Err(e)
                    && (e matches RpcServerError::ProtocolServiceNotFound(p) && p@ == protocol@),
            },
        decreases *self,
    {
        match self {
            Routes::NotFound(_) => {
                assert(self.view_seq() =~= Seq::<(RoutePredicate, S)>::empty());
                assert(first_match(self.view_seq(), protocol@) is None);
                Err(RpcServerError::ProtocolServiceNotFound(protocol.duplicate()))
            },
            Routes::Or(o) => {
                let ghost rs = self.view_seq();
                assert(rs[0] == (o.predicate, o.a));
                assert(rs.skip(1) =~= o.b.view_seq());
                if o.predicate.matches(protocol) {
                    assert(first_match(rs, protocol@) == Some(0int));
                    Ok(&o.a)
                } else {
                    let res = o.b.resolve(protocol);
                    proof {
                        lemma_first_match_characterization(o.b.view_seq(), protocol@);
                        match first_match(o.b.view_seq(), protocol@) {
                            Some(i) => {
                                assert(first_match(rs, protocol@) == Some(i + 1));
                                assert(rs[i + 1] == rs.skip(1)[i]);
                            },
                            None => {
                                assert(first_match(rs, protocol@) is None);
                            },
                        }
                    }
                    res
                }
            },
        }
    }
}

/// A handle onto the server driving the dispatch loop.
pub struct RpcServerHandle;

/// The server-side context that a router is built over; it owns the dispatch
/// configuration and hands out handles.
pub struct RpcServer;

impl RpcServer {
    /// A fresh server context.
    pub fn new() -> RpcServer {
        RpcServer
    }

    /// A handle onto this server.
    pub fn get_handle(&self) -> RpcServerHandle {
        RpcServerHandle
    }
}

/// An ordered composition of routes plus the terminal "not found" fallback.
/// Built once during startup by successive `add_service` calls, each of which
/// returns a new composed router; never mutated afterwards, so it can be
/// shared read-only across every substream task.
pub struct Router<S> {
    /// The server context the router was built over.
    pub server: RpcServer,
    /// The registered identifiers, in registration order.
    pub protocol_names: Vec<ProtocolId>,
    /// The route chain, most recently added route first.
    pub routes: Routes<S>,
}

impl<S> Router<S> {
    /// The routes in resolution order: the most recently added first.
    pub open spec fn routes_view(self) -> Seq<(RoutePredicate, S)> {
        self.routes.view_seq()
    }

    /// The registered protocol identifiers, in registration order; this is
    /// the set advertised to the transport layer.
    pub open spec fn names_view(self) -> Seq<ProtocolId> {
        self.protocol_names@
    }

    /// The routes and the advertised identifiers describe each other: the
    /// route at position `i` in resolution order matches exactly the
    /// identifier registered at position `len - 1 - i` — resolution order is
    /// the reverse of registration order. Every router built by `new` and
    /// `add_service` satisfies this.
    pub open spec fn routes_match_names(self) -> bool {
        &&& self.routes_view().len() == self.names_view().len()
        &&& forall|i: int|
            0 <= i < self.routes_view().len() ==> ((#[trigger] self.routes_view()[i]).0 matches
            RoutePredicate::Exact(p) && p@ == self.names_view()[self.names_view().len() - 1 - i]@)
    }

    /// A router with one registered service, reached exactly when the
    /// negotiated identifier equals `protocol`.
    pub fn new(server: RpcServer, protocol: ProtocolId, service: S) -> (r: Router<S>)
        ensures
            r.routes_view().len() == 1,
            r.routes_view()[0].0 matches RoutePredicate::Exact(p) && p@ == protocol@,
            r.routes_view()[0].1 == service,
            r.names_view().len() == 1,
            r.names_view()[0]@ == protocol@,
            r.routes_match_names(),
    {
        let predicate = RoutePredicate::Exact(protocol.duplicate());
        let ghost gpred = predicate;
        let ghost gservice = service;
        let mut protocol_names: Vec<ProtocolId> = Vec::new();
        protocol_names.push(protocol);
        let routes = Routes::Or(
            Or::new(predicate, service, Routes::NotFound(ProtocolServiceNotFound)),
        );
        assert(Routes::<S>::NotFound(ProtocolServiceNotFound).view_seq()
            =~= Seq::<(RoutePredicate, S)>::empty());
        assert(routes.view_seq() =~= seq![(gpred, gservice)]);
        Router { server, protocol_names, routes }
    }

    /// Consumes this router and returns a new one composed of the given
    /// service and every previously added route. The new route is tested
    /// first: if its identifier collides with an earlier registration, the
    /// route added last wins.
    pub fn add_service(self, protocol: ProtocolId, service: S) -> (r: Router<S>)
        ensures
            r.routes_view().len() == self.routes_view().len() + 1,
            r.routes_view()[0].0 matches RoutePredicate::Exact(p) && p@ == protocol@,
            r.routes_view()[0].1 == service,
            r.routes_view().skip(1) == self.routes_view(),
            r.names_view().len() == self.names_view().len() + 1,
            r.names_view() == self.names_view().push(protocol),
            self.routes_match_names() ==> r.routes_match_names(),
    {
        let predicate = RoutePredicate::Exact(protocol.duplicate());
        let ghost gold = self.routes;
        let mut protocol_names = self.protocol_names;
        protocol_names.push(protocol);
        let routes = Routes::Or(Or::new(predicate, service, self.routes));
        assert(routes.view_seq().skip(1) =~= gold.view_seq());
        Router { server: self.server, protocol_names, routes }
    }

    /// A handle onto the server this router was built over.
    pub fn get_handle(&self) -> RpcServerHandle {
        self.server.get_handle()
    }

    /// Boxes the router for installation into the host connection context.
    pub fn into_boxed(self) -> (r: Box<Router<S>>)
        ensures
            *r == self,
    {
        Box::new(self)
    }

    /// Every protocol identifier this router can resolve, in registration
    /// order; registered once at startup and advertised to the transport
    /// layer.
    pub fn all_protocols(&self) -> (r: &Vec<ProtocolId>)
        ensures
            r@ == self.names_view(),
    {
        &self.protocol_names
    }

    /// Resolves a negotiated identifier to the registered service that will
    /// handle the substream: the service of the most recently added route
    /// whose predicate matches, or `ProtocolServiceNotFound` carrying exactly
    /// the queried identifier. Never panics; resolution mutates nothing.
    pub fn call(&self, protocol: &ProtocolId) -> (r: Result<&S, RpcServerError>)
        ensures
            match first_match(self.routes_view(), protocol@) {
                Some(i) => r matches Ok(s) && *s == self.routes_view()[i].1,
                None => r matches Err(e)
                    && (e matches RpcServerError::ProtocolServiceNotFound(p) && p@ == protocol@),
            },
    {
        self.routes.resolve(protocol)
    }
}

/// Resolving a registered identifier returns the service registered for it:
/// in a chain whose route `i` alone matches an identifier — as with routes
/// built from distinct, non-overlapping identifiers — resolution chooses
/// route `i`.
pub proof fn lemma_resolve_registered<S>(rs: Seq<(RoutePredicate, S)>, i: int, id: Seq<u8>)
    requires
        0 <= i < rs.len(),
        rs[i].0.matches_spec(id),
        forall|j: int| 0 <= j < rs.len() && j != i ==> !(#[trigger] rs[j]).0.matches_spec(id),
    ensures
        first_match(rs, id) == Some(i),
{
    lemma_first_match_characterization(rs, id);
    match first_match(rs, id) {
        Some(k) => {
            if k < i {
                assert(!rs[k].0.matches_spec(id));
            } else if k > i {
                assert(!rs[i].0.matches_spec(id));
            }
        },
        None => {
            assert(!rs[i].0.matches_spec(id));
        },
    }
}

/// On a router whose registered identifiers are pairwise distinct, resolving
/// the identifier registered at position `k` chooses exactly its route — the
/// one standing at position `len - 1 - k` in resolution order — and so
/// `call` returns the service registered for that identifier.
pub proof fn lemma_router_resolves_registered<S>(r: Router<S>, k: int)
    requires
        r.routes_match_names(),
        0 <= k < r.names_view().len(),
        forall|i: int, j: int|
            0 <= i < j < r.names_view().len() ==> (#[trigger] r.names_view()[i])@ != (
            #[trigger] r.names_view()[j])@,
    ensures
        first_match(r.routes_view(), r.names_view()[k]@) == Some(
            r.names_view().len() - 1 - k,
        ),
{
    let rs = r.routes_view();
    let ns = r.names_view();
    let n = ns.len() as int;
    let i = n - 1 - k;
    let id = ns[k]@;
    assert(rs[i].0 matches RoutePredicate::Exact(p) && p@ == id);
    assert forall|j: int| 0 <= j < n && j != i implies !(#[trigger] rs[j]).0.matches_spec(id) by {
        assert(rs[j].0 matches RoutePredicate::Exact(p) && p@ == ns[n - 1 - j]@);
        if n - 1 - j < k {
            assert(ns[n - 1 - j]@ != ns[k]@);
        } else {
            assert(ns[k]@ != ns[n - 1 - j]@);
        }
    }
    lemma_resolve_registered(rs, i, id);
}

/// Resolving an identifier that no registered predicate accepts finds no
/// route, so `call` returns `ProtocolServiceNotFound` carrying exactly that
/// identifier.
pub proof fn lemma_resolve_unregistered<S>(rs: Seq<(RoutePredicate, S)>, id: Seq<u8>)
    requires
        forall|j: int| 0 <= j < rs.len() ==> !(#[trigger] rs[j]).0.matches_spec(id),
    ensures
        first_match(rs, id) is None,
    decreases rs.len(),
{
    if rs.len() > 0 {
        lemma_resolve_unregistered(rs.skip(1), id);
    }
}

/// Tie-break: when two routes both accept an identifier, the one added most
/// recently — the one standing earlier in resolution order — wins; resolution
/// never chooses a route when some later-registered route also matches.
pub proof fn lemma_latest_registration_wins<S>(
    rs: Seq<(RoutePredicate, S)>,
    i: int,
    j: int,
    id: Seq<u8>,
)
    requires
        0 <= i < j < rs.len(),
        rs[i].0.matches_spec(id),
        rs[j].0.matches_spec(id),
    ensures
        first_match(rs, id) != Some(j),
        first_match(rs, id) matches Some(k) && k <= i,
{
    lemma_first_match_characterization(rs, id);
    match first_match(rs, id) {
        Some(k) => {
            if k > i {
                assert(!rs[i].0.matches_spec(id));
            }
        },
        None => {
            assert(!rs[i].0.matches_spec(id));
        },
    }
}

/// A router with zero registered routes resolves every identifier to
/// `ProtocolServiceNotFound`; and being verified, resolution never panics.
pub proof fn lemma_empty_routes_not_found<S>(id: Seq<u8>)
    ensures
        first_match(Seq::<(RoutePredicate, S)>::empty(), id) is None,
{
}

} // verus!

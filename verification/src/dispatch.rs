//! Service routing: from the tag that an inbound connection requests to
//! the handler that serves it.

use crate::error::Failure;
use crate::tag::{echo_tag_bytes, lemma_standard_tags_differ, ping_tag_bytes, ProtocolTag};
use vstd::prelude::*;

verus! {

/// The services that a listener can offer.
#[derive(Clone, Copy, Debug, PartialEq, Eq, Structural)]
pub enum Service {
    /// Copies everything it reads back to the peer.
    Echo,
    /// Returns a short nonce to the peer that sent it.
    Ping,
}

/// One registration: connections that request `tag` are served by
/// `service`.
#[derive(Clone, Debug, PartialEq, Eq)]
pub struct Route {
    pub tag: ProtocolTag,
    pub service: Service,
}

/// A [`Route`] as a mathematical value.
pub struct RouteView {
    pub tag: Seq<u8>,
    pub service: Service,
}

impl View for Route {
    type V = RouteView;

    open spec fn view(&self) -> RouteView {
        RouteView { tag: self.tag@, service: self.service }
    }
}

impl DeepView for Route {
    type V = RouteView;

    open spec fn deep_view(&self) -> RouteView {
        self@
    }
}

/// Whether some route of `table` serves `tag`.
pub open spec fn registered(table: Seq<RouteView>, tag: Seq<u8>) -> bool {
    exists|i: int| 0 <= i < table.len() && #[trigger] table[i].tag == tag
}

/// Whether route `i` of `table` serves `tag` and no earlier route does.
pub open spec fn is_first_match(table: Seq<RouteView>, tag: Seq<u8>, i: int) -> bool {
    &&& 0 <= i < table.len()
    &&& table[i].tag == tag
    &&& forall|j: int| 0 <= j < i ==> #[trigger] table[j].tag != tag
}

/// The service of the first route of `table` that serves `tag`, if any
/// route does.
pub open spec fn lookup(table: Seq<RouteView>, tag: Seq<u8>) -> Option<Service> {
    if registered(table, tag) {
        Some(table[choose|i: int| is_first_match(table, tag, i)].service)
    } else {
        None
    }
}

/// Whether no two routes of `table` serve the same tag.
pub open spec fn distinct_tags(table: Seq<RouteView>) -> bool {
    forall|i: int, j: int|
        0 <= i < j < table.len() ==> #[trigger] table[i].tag != #[trigger] table[j].tag
}

/// The positions of all routes of `table` that serve `tag`.
pub open spec fn matching(table: Seq<RouteView>, tag: Seq<u8>) -> Set<int> {
    Set::new(|i: int| 0 <= i < table.len() && table[i].tag == tag)
}

/// The table that offers the echo service and the ping service under
/// their standard tags.
pub open spec fn standard_table() -> Seq<RouteView> {
    seq![
        RouteView { tag: echo_tag_bytes(), service: Service::Echo },
        RouteView { tag: ping_tag_bytes(), service: Service::Ping },
    ]
}

/// A first match is the only first match.
pub proof fn lemma_first_match_unique(table: Seq<RouteView>, tag: Seq<u8>, i: int, k: int)
    requires
        is_first_match(table, tag, i),
        is_first_match(table, tag, k),
    ensures
        i == k,
{
    if i < k {
        assert(table[i].tag != tag);
    } else if k < i {
        assert(table[k].tag != tag);
    }
}

/// Where `i` is the first match, lookup yields the service of route `i`.
pub proof fn lemma_lookup_first_match(table: Seq<RouteView>, tag: Seq<u8>, i: int)
    requires
        is_first_match(table, tag, i),
    ensures
        lookup(table, tag) == Some(table[i].service),
{
    assert(table[i].tag == tag);
    let k = choose|k: int| is_first_match(table, tag, k);
    lemma_first_match_unique(table, tag, i, k);
}

/// Routing is exact. In a table whose tags are distinct, a registered tag
/// has exactly one matching route and lookup yields that route's service;
/// an unregistered tag has no matching route and lookup yields nothing, so
/// no fallback handler exists.
pub proof fn lemma_exactly_one_match(table: Seq<RouteView>, tag: Seq<u8>)
    requires
        distinct_tags(table),
    ensures
        registered(table, tag) ==> {
            &&& matching(table, tag).len() == 1
            &&& matching(table, tag).contains(matching(table, tag).choose())
            &&& lookup(table, tag) == Some(table[matching(table, tag).choose()].service)
        },
        !registered(table, tag) ==> {
            &&& matching(table, tag) == Set::<int>::empty()
            &&& matching(table, tag).len() == 0
            &&& lookup(table, tag) is None
        },
{
    let hits = matching(table, tag);
    if registered(table, tag) {
        let i = choose|i: int| 0 <= i < table.len() && #[trigger] table[i].tag == tag;
        assert forall|j: int| 0 <= j < i implies #[trigger] table[j].tag != tag by {
            assert(table[j].tag != table[i].tag);
        }
        assert(is_first_match(table, tag, i));
        lemma_lookup_first_match(table, tag, i);
        assert forall|k: int| hits.contains(k) <==> k == i by {
            if hits.contains(k) && k != i {
                if k < i {
                    assert(table[k].tag != table[i].tag);
                } else {
                    assert(table[i].tag != table[k].tag);
                }
            }
        }
        assert(hits =~= set![i]);
        assert(hits.contains(i));
        assert(hits.choose() == i);
    } else {
        assert forall|k: int| !hits.contains(k) by {
            if 0 <= k < table.len() {
                assert(table[k].tag != tag);
            }
        }
        assert(hits =~= Set::<int>::empty());
    }
}

/// The tags of the standard table are distinct.
pub proof fn lemma_standard_table_distinct()
    ensures
        distinct_tags(standard_table()),
{
    lemma_standard_tags_differ();
}

/// The standard table routes the echo tag to the echo service and the
/// ping tag to the ping service.
pub proof fn lemma_standard_table_routes()
    ensures
        lookup(standard_table(), echo_tag_bytes()) == Some(Service::Echo),
        lookup(standard_table(), ping_tag_bytes()) == Some(Service::Ping),
{
    lemma_standard_tags_differ();
    let table = standard_table();
    assert(table[0].tag == echo_tag_bytes());
    assert(table[1].tag == ping_tag_bytes());
    assert(is_first_match(table, echo_tag_bytes(), 0));
    assert(is_first_match(table, ping_tag_bytes(), 1));
    lemma_lookup_first_match(table, echo_tag_bytes(), 0);
    lemma_lookup_first_match(table, ping_tag_bytes(), 1);
}

/// The routing table of a listener: which service answers which tag.
///
/// The tags of a dispatcher are pairwise distinct. The table is fixed when
/// it is made and never changes afterwards.
#[derive(Debug)]
pub struct Dispatcher {
    routes: Vec<Route>,
}

impl View for Dispatcher {
    type V = Seq<RouteView>;

    closed spec fn view(&self) -> Seq<RouteView> {
        self.routes.deep_view()
    }
}

impl Dispatcher {
    #[verifier::type_invariant]
    spec fn tags_are_distinct(self) -> bool {
        distinct_tags(self.routes.deep_view())
    }

    /// Whether the table's tags are pairwise distinct, as they are for any
    /// dispatcher made by this module.
    pub open spec fn wf(&self) -> bool {
        distinct_tags(self@)
    }

    /// Makes the routing table from `routes`.
    ///
    /// Fails with [`Failure::BindError`] exactly when two routes name the
    /// same tag.
    pub fn bind(routes: Vec<Route>) -> (bound: Result<Dispatcher, Failure>)
        ensures
            distinct_tags(routes.deep_view()) ==> bound is Ok,
            !distinct_tags(routes.deep_view()) ==> bound == Err::<Dispatcher, Failure>(
                Failure::BindError,
            ),
            bound matches Ok(table) ==> table@ == routes.deep_view() && table.wf(),
    {
        let ghost table = routes.deep_view();
        let mut i: usize = 0;
        while i < routes.len()
            invariant
                i <= routes.len(),
                table == routes.deep_view(),
                forall|p: int, q: int|
                    0 <= p < q < i ==> #[trigger] table[p].tag != #[trigger] table[q].tag,
            decreases routes.len() - i,
        {
            let mut j: usize = 0;
            while j < i
                invariant
                    j <= i < routes.len(),
                    table == routes.deep_view(),
                    forall|p: int| 0 <= p < j ==> #[trigger] table[p].tag != table[i as int].tag,
                decreases i - j,
            {
                if routes[j].tag.matches(routes[i].tag.as_bytes()) {
                    assert(table[j as int].tag == table[i as int].tag);
                    return Err(Failure::BindError);
                }
                j += 1;
            }
            i += 1;
        }
        Ok(Dispatcher { routes })
    }

    /// The table that offers echo and ping under their standard tags.
    pub fn standard() -> (table: Dispatcher)
        ensures
            table@ == standard_table(),
            table.wf(),
    {
        let mut routes: Vec<Route> = Vec::new();
        routes.push(Route { tag: ProtocolTag::echo(), service: Service::Echo });
        routes.push(Route { tag: ProtocolTag::ping(), service: Service::Ping });
        proof {
            lemma_standard_table_distinct();
            assert(routes.deep_view() =~= standard_table());
        }
        Dispatcher { routes }
    }

    /// Number of routes.
    pub fn len(&self) -> (n: usize)
        ensures
            n == self@.len(),
    {
        self.routes.len()
    }

    /// The service for a connection that requests `tag`: that of the one
    /// route that serves `tag`, or nothing when no route does.
    pub fn route(&self, tag: &[u8]) -> (found: Option<Service>)
        ensures
            found == lookup(self@, tag@),
            found is Some <==> registered(self@, tag@),
            matching(self@, tag@).len() == (if found is Some { 1nat } else { 0nat }),
    {
        proof {
            use_type_invariant(self);
            lemma_exactly_one_match(self@, tag@);
        }
        let ghost table = self@;
        let mut i: usize = 0;
        while i < self.routes.len()
            invariant
                i <= self.routes.len(),
                table == self.routes.deep_view(),
                distinct_tags(table),
                forall|j: int| 0 <= j < i ==> #[trigger] table[j].tag != tag@,
            decreases self.routes.len() - i,
        {
            if self.routes[i].tag.matches(tag) {
                proof {
                    assert(is_first_match(table, tag@, i as int));
                    lemma_lookup_first_match(table, tag@, i as int);
                    lemma_exactly_one_match(table, tag@);
                }
                return Some(self.routes[i].service);
            }
            i += 1;
        }
        None
    }

    /// The tags that the table serves, in the order of its routes.
    pub fn accepted_tags(&self) -> (tags: Vec<Vec<u8>>)
        ensures
            tags@.len() == self@.len(),
            forall|i: int| 0 <= i < tags@.len() ==> #[trigger] tags@[i]@ == self@[i].tag,
    {
        let mut tags: Vec<Vec<u8>> = Vec::new();
        let mut i: usize = 0;
        while i < self.routes.len()
            invariant
                i <= self.routes.len(),
                tags@.len() == i,
                forall|j: int|
                    0 <= j < i ==> #[trigger] tags@[j]@ == self.routes.deep_view()[j].tag,
            decreases self.routes.len() - i,
        {
            tags.push(self.routes[i].tag.to_vec());
            i += 1;
        }
        tags
    }
}

} // verus!

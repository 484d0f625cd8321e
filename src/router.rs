//! The RPC router: a registry of named handlers, each registered with its
//! parameter policy, and dispatch by exact method name.
//!
//! The router is generic over the handler type `H`, so that callers store
//! whatever they invoke (a function value, an enum of operations); `call`
//! picks the handler and prepares its input, and the caller runs it.
use vstd::prelude::*;
use vstd::utf8::*;
use crate::encoding::bytes_eq;
use crate::error::Error;
use crate::params::{into_params, params_spec, HandlerInput, IntoParams, ParamsKind};

verus! {

/// A handler together with the parameter policy it was registered with.
pub struct RpcHandlerWrapper<H> {
    pub handler: H,
    pub kind: ParamsKind,
}

impl<H> RpcHandlerWrapper<H> {
    pub fn new(handler: H, kind: ParamsKind) -> (r: Self)
        ensures
            r.handler == handler,
            r.kind == kind,
    {
        RpcHandlerWrapper { handler, kind }
    }

    /// `handler`, registered with the policy that its parameter type `P` declares.
    pub fn for_params<P: IntoParams>(handler: H) -> (r: Self)
        ensures
            r.handler == handler,
            r.kind == P::spec_params_kind(),
    {
        RpcHandlerWrapper { handler, kind: P::params_kind() }
    }

    /// `handler`, which takes no parameters.
    pub fn without_params(handler: H) -> (r: Self)
        ensures
            r.handler == handler,
            r.kind == ParamsKind::NoParams,
    {
        RpcHandlerWrapper { handler, kind: ParamsKind::NoParams }
    }

    /// The handler, and its input for the payload `params` under its policy.
    pub fn call<V>(&self, params: Option<V>) -> (r: Result<(&H, HandlerInput<V>), Error>)
        ensures
            match params_spec(self.kind, params) {
                Ok(input) => r matches Ok((h, i)) && *h == self.handler && i == input,
                Err(e) => r matches Err(e2) && e2 == e,
            },
    {
        match into_params(self.kind, params) {
            Ok(input) => Ok((&self.handler, input)),
            Err(e) => Err(e),
        }
    }
}

/// A handler registered under a method name.
pub struct RpcRoute<H> {
    pub name: String,
    pub handler: RpcHandlerWrapper<H>,
}

impl<H> RpcRoute<H> {
    pub fn new(handler: RpcHandlerWrapper<H>, name: &str) -> (r: Self)
        ensures
            r.name@ == name@,
            r.handler == handler,
    {
        RpcRoute { name: String::from_str(name), handler }
    }

    /// Whether this route answers `method`.
    pub fn is_route_for(&self, method: &str) -> (r: bool)
        ensures
            r == (self.name@ == method@),
    {
        let same = bytes_eq(self.name.as_str().as_bytes(), method.as_bytes());
        proof {
            encode_utf8_decode_utf8(self.name@);
            encode_utf8_decode_utf8(method@);
        }
        same
    }
}

/// The name-to-handler map that a list of routes holds; a later route wins.
pub open spec fn map_of<H>(routes: Seq<RpcRoute<H>>) -> Map<Seq<char>, RpcHandlerWrapper<H>>
    decreases routes.len(),
{
    if routes.len() == 0 {
        Map::empty()
    } else {
        map_of(routes.drop_last()).insert(routes.last().name@, routes.last().handler)
    }
}

pub open spec fn names_unique<H>(routes: Seq<RpcRoute<H>>) -> bool {
    forall|i: int, j: int|
        0 <= i < routes.len() && 0 <= j < routes.len() && i != j ==> #[trigger] routes[i].name@
            != #[trigger] routes[j].name@
}

proof fn lemma_map_of_index<H>(routes: Seq<RpcRoute<H>>, i: int)
    requires
        names_unique(routes),
        0 <= i < routes.len(),
    ensures
        map_of(routes).contains_key(routes[i].name@),
        map_of(routes)[routes[i].name@] == routes[i].handler,
    decreases routes.len(),
{
    if i < routes.len() - 1 {
        let rest = routes.drop_last();
        assert(names_unique(rest)) by {
            assert forall|a: int, b: int|
                0 <= a < rest.len() && 0 <= b < rest.len() && a != b implies #[trigger] rest[a].name@
                != #[trigger] rest[b].name@ by {
                assert(rest[a] == routes[a] && rest[b] == routes[b]);
            }
        }
        assert(rest[i] == routes[i]);
        lemma_map_of_index(rest, i);
        assert(routes[i].name@ != routes[routes.len() - 1].name@);
    }
}

proof fn lemma_map_of_keys<H>(routes: Seq<RpcRoute<H>>, n: Seq<char>)
    requires
        map_of(routes).contains_key(n),
    ensures
        exists|i: int| 0 <= i < routes.len() && #[trigger] routes[i].name@ == n,
    decreases routes.len(),
{
    if routes.last().name@ != n {
        let rest = routes.drop_last();
        lemma_map_of_keys(rest, n);
        let i = choose|i: int| 0 <= i < rest.len() && #[trigger] rest[i].name@ == n;
        assert(routes[i] == rest[i]);
    } else {
        assert(routes[routes.len() - 1].name@ == n);
    }
}

proof fn lemma_map_of_update<H>(routes: Seq<RpcRoute<H>>, i: int, route: RpcRoute<H>)
    requires
        names_unique(routes),
        0 <= i < routes.len(),
        routes[i].name@ == route.name@,
    ensures
        map_of(routes.update(i, route)) == map_of(routes).insert(route.name@, route.handler),
    decreases routes.len(),
{
    let updated = routes.update(i, route);
    let rest = routes.drop_last();
    if i == routes.len() - 1 {
        assert(updated.drop_last() =~= rest);
        assert(map_of(updated) =~= map_of(routes).insert(route.name@, route.handler));
    } else {
        assert(names_unique(rest)) by {
            assert forall|a: int, b: int|
                0 <= a < rest.len() && 0 <= b < rest.len() && a != b implies #[trigger] rest[a].name@
                != #[trigger] rest[b].name@ by {
                assert(rest[a] == routes[a] && rest[b] == routes[b]);
            }
        }
        assert(rest[i] == routes[i]);
        lemma_map_of_update(rest, i, route);
        assert(updated.drop_last() =~= rest.update(i, route));
        assert(updated.last() == routes.last());
        assert(routes[i].name@ != routes[routes.len() - 1].name@);
        assert(map_of(updated) =~= map_of(routes).insert(route.name@, route.handler));
    }
}

/// The registry of method names and their handlers.
pub struct RpcRouter<H> {
    routes: Vec<RpcRoute<H>>,
}

impl<H> RpcRouter<H> {
    /// The method names and their handlers.
    pub closed spec fn view(&self) -> Map<Seq<char>, RpcHandlerWrapper<H>> {
        map_of(self.routes@)
    }

    /// Each method name is registered once.
    pub closed spec fn wf(&self) -> bool {
        names_unique(self.routes@)
    }

    /// An empty router.
    pub fn new() -> (r: Self)
        ensures
            r.wf(),
            r.view() == Map::<Seq<char>, RpcHandlerWrapper<H>>::empty(),
    {
        RpcRouter { routes: Vec::new() }
    }

    /// Registers `handler` under `name`; a handler already registered under
    /// that name is replaced.
    pub fn add(self, name: &str, handler: RpcHandlerWrapper<H>) -> (r: Self)
        requires
            self.wf(),
        ensures
            r.wf(),
            r.view() == self.view().insert(name@, handler),
    {
        let mut r = self;
        r.insert_route(RpcRoute::new(handler, name));
        r
    }

    /// Registers every route of `other`; on a name registered in both, the
    /// handler of `other` wins.
    pub fn extend(self, other: RpcRouter<H>) -> (r: Self)
        requires
            self.wf(),
            other.wf(),
        ensures
            r.wf(),
            r.view() == self.view().union_prefer_right(other.view()),
    {
        let mut r = self;
        let mut rest = other.routes;
        let ghost others = rest@;
        let ghost mut taken: Seq<RpcRoute<H>> = Seq::empty();
        let ghost start = r.view();
        while rest.len() > 0
            invariant
                r.wf(),
                taken + rest@ == others,
                r.view() == start.union_prefer_right(map_of(taken)),
            decreases rest@.len(),
        {
            let route = rest.remove(0);
            let ghost g = route;
            r.insert_route(route);
            proof {
                assert(taken.push(g) + rest@ =~= others);
                assert(taken.push(g).drop_last() =~= taken);
                taken = taken.push(g);
                assert(r.view() =~= start.union_prefer_right(map_of(taken)));
            }
        }
        proof {
            assert(taken =~= others);
        }
        r
    }

    /// Registers the routes of `other` whose names this router lacks; on a
    /// name registered in both, this router's handler stays.
    pub fn append(self, other: RpcRouter<H>) -> (r: Self)
        requires
            self.wf(),
            other.wf(),
        ensures
            r.wf(),
            r.view() == other.view().union_prefer_right(self.view()),
    {
        let mut r = self;
        let mut rest = other.routes;
        let ghost others = rest@;
        let ghost mut taken: Seq<RpcRoute<H>> = Seq::empty();
        let ghost start = r.view();
        while rest.len() > 0
            invariant
                r.wf(),
                taken + rest@ == others,
                r.view() == map_of(taken).union_prefer_right(start),
                names_unique(others),
            decreases rest@.len(),
        {
            let route = rest.remove(0);
            let ghost g = route;
            proof {
                if map_of(taken).contains_key(g.name@) {
                    lemma_map_of_keys(taken, g.name@);
                    let k = choose|k: int| 0 <= k < taken.len() && #[trigger] taken[k].name@ == g.name@;
                    assert(others[k] == taken[k]);
                    assert(others[taken.len() as int] == g);
                }
            }
            if !r.has_route(route.name.as_str()) {
                r.insert_route(route);
            }
            proof {
                assert(taken.push(g) + rest@ =~= others);
                assert(taken.push(g).drop_last() =~= taken);
                taken = taken.push(g);
                assert(r.view() =~= map_of(taken).union_prefer_right(start));
            }
        }
        proof {
            assert(taken =~= others);
        }
        r
    }

    /// Whether a handler is registered under `method`.
    pub fn has_route(&self, method: &str) -> (r: bool)
        requires
            self.wf(),
        ensures
            r == self.view().contains_key(method@),
    {
        let mut i: usize = 0;
        while i < self.routes.len()
            invariant
                i <= self.routes@.len(),
                names_unique(self.routes@),
                forall|j: int| 0 <= j < i ==> #[trigger] self.routes@[j].name@ != method@,
            decreases self.routes@.len() - i,
        {
            if self.routes[i].is_route_for(method) {
                proof {
                    lemma_map_of_index(self.routes@, i as int);
                }
                return true;
            }
            i = i + 1;
        }
        proof {
            if self.view().contains_key(method@) {
                lemma_map_of_keys(self.routes@, method@);
            }
        }
        false
    }

    /// The handler registered under `method`, and its input for the payload
    /// `params` under its policy.
    pub fn call<V>(&self, method: &str, params: Option<V>) -> (r: Result<(&H, HandlerInput<V>), Error>)
        requires
            self.wf(),
        ensures
            !self.view().contains_key(method@) ==> (r matches Err(Error::RpcMethodUnknown(m))
                && m@ == method@),
            self.view().contains_key(method@) ==> match params_spec(self.view()[method@].kind, params) {
                Ok(input) => r matches Ok((h, i)) && *h == self.view()[method@].handler && i == input,
                Err(e) => r matches Err(e2) && e2 == e,
            },
    {
        let mut i: usize = 0;
        while i < self.routes.len()
            invariant
                i <= self.routes@.len(),
                names_unique(self.routes@),
                forall|j: int| 0 <= j < i ==> #[trigger] self.routes@[j].name@ != method@,
            decreases self.routes@.len() - i,
        {
            if self.routes[i].is_route_for(method) {
                proof {
                    lemma_map_of_index(self.routes@, i as int);
                }
                return self.routes[i].handler.call(params);
            }
            i = i + 1;
        }
        proof {
            if self.view().contains_key(method@) {
                lemma_map_of_keys(self.routes@, method@);
            }
        }
        Err(Error::RpcMethodUnknown(String::from_str(method)))
    }

    fn insert_route(&mut self, route: RpcRoute<H>)
        requires
            old(self).wf(),
        ensures
            final(self).wf(),
            final(self).view() == old(self).view().insert(route.name@, route.handler),
    {
        let mut i: usize = 0;
        while i < self.routes.len()
            invariant
                i <= self.routes@.len(),
                self.routes@ == old(self).routes@,
                names_unique(self.routes@),
                forall|j: int| 0 <= j < i ==> #[trigger] self.routes@[j].name@ != route.name@,
            decreases self.routes@.len() - i,
        {
            if self.routes[i].is_route_for(route.name.as_str()) {
                proof {
                    lemma_map_of_update(self.routes@, i as int, route);
                }
                let ghost before = self.routes@;
                self.routes.set(i, route);
                proof {
                    assert forall|a: int, b: int|
                        0 <= a < self.routes@.len() && 0 <= b < self.routes@.len() && a != b implies #[trigger] self.routes@[a].name@
                        != #[trigger] self.routes@[b].name@ by {
                        assert(self.routes@[a].name@ == before[a].name@);
                        assert(self.routes@[b].name@ == before[b].name@);
                    }
                }
                return;
            }
            i = i + 1;
        }
        let ghost before = self.routes@;
        self.routes.push(route);
        proof {
            assert(self.routes@.drop_last() =~= before);
            assert forall|a: int, b: int|
                0 <= a < self.routes@.len() && 0 <= b < self.routes@.len() && a != b implies #[trigger] self.routes@[a].name@
                != #[trigger] self.routes@[b].name@ by {
                if a < before.len() {
                    assert(self.routes@[a] == before[a]);
                }
                if b < before.len() {
                    assert(self.routes@[b] == before[b]);
                }
            }
        }
    }
}

} // verus!

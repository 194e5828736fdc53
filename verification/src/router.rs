//! A flat routing table, separate from the filter system: each route matches
//! one exact path under the table's prefix and one method, and hands the
//! request to its handler.  Routes are tried in the order they were added and
//! the first that fits answers; a request no route fits is answered
//! `404 Not Found`.  Nesting a router splices its routes in, with its prefix
//! folded into their paths.
//!
//! Dispatch is specified and proved against `spec_routes`, the table's route
//! list.  The builders that grow the table are verified to be safe, but the
//! verifier in use cannot yet relate a freshly built route that holds a boxed
//! handler back to its parts, so they carry no postconditions.
use vstd::prelude::*;
use crate::method::Method;
use crate::request::{ReqView, Request};
use crate::response::{IntoResponse, RespView, Response};
use crate::text::join_slash;

verus! {

/// Answers a request.  `post` is the promise an implementation makes about
/// its responses, `ok` what it asks before it runs; for a plain closure
/// handler these are its postcondition and precondition.
pub trait Handler: Send + Sync {
    /// What the handler requires before it can run.
    spec fn ok(&self) -> bool;

    /// The relation between a request and the responses this handler may
    /// give it.
    spec fn post(&self, req: ReqView, resp: RespView) -> bool;

    /// Answer a request.
    fn handle(&self, req: &Request) -> (r: Response)
        requires
            self.ok(),
        ensures
            self.post(req@, r@),
    ;
}

/// Any function from a request to something convertible into a response is a
/// handler.
impl<F, R> Handler for F where
    F: Fn(&Request) -> R + Send + Sync + 'static,
    R: IntoResponse + Send + Sync,
 {
    open spec fn ok(&self) -> bool {
        forall|rq: Request| call_requires(*self, (&rq,))
    }

    open spec fn post(&self, req: ReqView, resp: RespView) -> bool {
        exists|rq: Request, ret: R|
            rq@ == req && call_ensures(*self, (&rq,), ret) && ret.resp_of(resp)
    }

    fn handle(&self, req: &Request) -> (r: Response) {
        let ret = (self)(req);
        let ghost gret = ret;
        let resp = ret.into_response();
        proof {
            let rq = *req;
            assert(rq@ == req@ && call_ensures(*self, (&rq,), gret) && gret.resp_of(resp@));
        }
        resp
    }
}

/// One element of a routing table.  A `handle` call with the accumulated
/// prefix answers the request exactly when the element `matches` it there.
pub trait RouteHandler: Send + Sync {
    /// What the element's handlers require before they can run.
    spec fn ok(&self) -> bool;

    /// Whether this element answers `req` under the given path prefix.
    spec fn matches(&self, prefix: Seq<char>, req: ReqView) -> bool;

    /// The relation between a request and the responses this element may
    /// give it.
    spec fn post(&self, prefix: Seq<char>, req: ReqView, resp: RespView) -> bool;

    /// Answer the request if this element matches it under `prefix`.
    fn handle(&self, prefix: &str, request: &Request) -> (r: Option<Response>)
        requires
            self.ok(),
        ensures
            match r {
                Some(resp) => self.matches(prefix@, request@) && self.post(
                    prefix@,
                    request@,
                    resp@,
                ),
                None => !self.matches(prefix@, request@),
            },
    ;
}

/// A single route: an exact path, a method, and a handler.
pub struct Route {
    pub path: String,
    pub method: Method,
    pub handler: Box<dyn Handler>,
}

impl RouteHandler for Route {
    open spec fn ok(&self) -> bool {
        self.handler.ok()
    }

    open spec fn matches(&self, prefix: Seq<char>, req: ReqView) -> bool {
        join_slash(req.segments) == prefix + self.path@ && req.method == self.method
    }

    open spec fn post(&self, prefix: Seq<char>, req: ReqView, resp: RespView) -> bool {
        self.handler.post(req, resp)
    }

    fn handle(&self, prefix: &str, request: &Request) -> (r: Option<Response>) {
        let mut route_path = prefix.to_owned();
        route_path.append(self.path.as_str());
        let req_path = request.path();
        let is_matching = req_path.eq(&route_path) && self.method == *request.method();
        if !is_matching {
            return None;
        }
        Some(self.handler.handle(request))
    }
}

/// The routes of a table, kept in the order they were added.
enum RouteChain {
    Nil,
    Cons(Route, Box<RouteChain>),
}

impl RouteChain {
    /// The routes in the chain, in order.
    spec fn seq(&self) -> Seq<Route>
        decreases self,
    {
        match self {
            RouteChain::Nil => Seq::empty(),
            RouteChain::Cons(head, tail) => seq![*head] + tail.seq(),
        }
    }

    /// Add a route at the end of the chain.
    fn append(self, route: Route) -> (out: RouteChain)
        ensures
            out.seq() == self.seq().push(route),
        decreases self,
    {
        match self {
            RouteChain::Nil => {
                let ghost groute = route;
                let out = RouteChain::Cons(route, Box::new(RouteChain::Nil));
                proof {
                    assert(RouteChain::Nil.seq() =~= Seq::<Route>::empty());
                    assert(out.seq() =~= Seq::empty().push(groute));
                }
                out
            },
            RouteChain::Cons(head, tail) => {
                let ghost ghead = head;
                let ghost gtailseq = tail.seq();
                let ghost groute = route;
                let rest = (*tail).append(route);
                let out = RouteChain::Cons(head, Box::new(rest));
                proof {
                    assert(out.seq() =~= (seq![ghead] + gtailseq).push(groute));
                }
                out
            },
        }
    }
}

/// A routing table: an ordered list of routes under a common path prefix.
pub struct Router {
    prefix: String,
    routes: RouteChain,
}

impl Router {
    /// The table's path prefix.
    pub closed spec fn spec_prefix(&self) -> Seq<char> {
        self.prefix@
    }

    /// The routes in the table, in the order they are tried.
    pub closed spec fn spec_routes(&self) -> Seq<Route> {
        self.routes.seq()
    }
}

impl RouteHandler for Router {
    open spec fn ok(&self) -> bool {
        forall|j: int|
            0 <= j < self.spec_routes().len() ==> (#[trigger] self.spec_routes()[j]).ok()
    }

    open spec fn matches(&self, prefix: Seq<char>, req: ReqView) -> bool {
        exists|j: int|
            0 <= j < self.spec_routes().len() && (#[trigger] self.spec_routes()[j]).matches(
                prefix + self.spec_prefix(),
                req,
            )
    }

    open spec fn post(&self, prefix: Seq<char>, req: ReqView, resp: RespView) -> bool {
        exists|j: int|
            {
                &&& 0 <= j < self.spec_routes().len()
                &&& (#[trigger] self.spec_routes()[j]).matches(prefix + self.spec_prefix(), req)
                &&& forall|k: int|
                    0 <= k < j ==> !(#[trigger] self.spec_routes()[k]).matches(
                        prefix + self.spec_prefix(),
                        req,
                    )
                &&& self.spec_routes()[j].post(prefix + self.spec_prefix(), req, resp)
            }
    }

    fn handle(&self, prefix: &str, request: &Request) -> (r: Option<Response>) {
        let mut full = prefix.to_owned();
        full.append(self.prefix.as_str());
        let ghost all = self.spec_routes();
        let ghost fullv = prefix@ + self.spec_prefix();
        let mut cur: &RouteChain = &self.routes;
        let ghost i: int = 0;
        #[verifier::loop_isolation(false)]
        loop
            invariant
                0 <= i <= all.len(),
                cur.seq() =~= all.skip(i),
                full@ == fullv,
                forall|k: int| 0 <= k < i ==> !(#[trigger] all[k]).matches(fullv, request@),
            decreases all.len() - i,
        {
            match cur {
                RouteChain::Nil => {
                    proof {
                        assert(all.skip(i).len() == 0);
                        assert(i == all.len());
                    }
                    return None;
                },
                RouteChain::Cons(head, tail) => {
                    proof {
                        assert(cur.seq()[0] == all[i]);
                        assert(*head == all[i]);
                        assert(cur.seq().skip(1) =~= all.skip(i + 1));
                        assert(tail.seq() =~= cur.seq().skip(1));
                    }
                    match head.handle(full.as_str(), request) {
                        Some(resp) => {
                            return Some(resp);
                        },
                        None => {},
                    }
                    cur = tail;
                    proof {
                        i = i + 1;
                    }
                },
            }
        }
    }
}

impl Router {
    /// An empty table whose routes all hang under `prefix`.
    pub fn prefix(prefix: &str) -> (r: Router)
        ensures
            r.spec_prefix() == prefix@,
            r.spec_routes().len() == 0,
    {
        let r = Router { prefix: prefix.to_owned(), routes: RouteChain::Nil };
        proof {
            assert(r.spec_routes() =~= Seq::<Route>::empty());
        }
        r
    }

    /// An empty table with no prefix.
    pub fn new() -> (r: Router)
        ensures
            r.spec_prefix() == Seq::<char>::empty(),
            r.spec_routes().len() == 0,
    {
        proof {
            reveal_strlit("");
        }
        Router::prefix("")
    }

    /// Add a route for `method` at `path`; routes are tried in the order
    /// they were added.
    pub fn route<F, R>(self, path: &str, method: Method, handler: F) -> (r: Router) where
        F: Fn(&Request) -> R + Send + Sync + 'static,
        R: IntoResponse + Send + Sync + 'static,

        ensures
            r.spec_prefix() == self.spec_prefix(),
    {
        let Router { prefix, routes } = self;
        let boxed: Box<dyn Handler> = Box::new(handler);
        let routes = routes.append(Route { path: path.to_owned(), method, handler: boxed });
        Router { prefix, routes }
    }

    /// Add a GET route.
    pub fn get<F, R>(self, path: &str, handler: F) -> (r: Router) where
        F: Fn(&Request) -> R + Send + Sync + 'static,
        R: IntoResponse + Send + Sync + 'static,

        ensures
            r.spec_prefix() == self.spec_prefix(),
    {
        self.route(path, Method::Get, handler)
    }

    /// Add a POST route.
    pub fn post<F, R>(self, path: &str, handler: F) -> (r: Router) where
        F: Fn(&Request) -> R + Send + Sync + 'static,
        R: IntoResponse + Send + Sync + 'static,

        ensures
            r.spec_prefix() == self.spec_prefix(),
    {
        self.route(path, Method::Post, handler)
    }

    /// Add a PUT route.
    pub fn put<F, R>(self, path: &str, handler: F) -> (r: Router) where
        F: Fn(&Request) -> R + Send + Sync + 'static,
        R: IntoResponse + Send + Sync + 'static,

        ensures
            r.spec_prefix() == self.spec_prefix(),
    {
        self.route(path, Method::Put, handler)
    }

    /// Add a DELETE route.
    pub fn delete<F, R>(self, path: &str, handler: F) -> (r: Router) where
        F: Fn(&Request) -> R + Send + Sync + 'static,
        R: IntoResponse + Send + Sync + 'static,

        ensures
            r.spec_prefix() == self.spec_prefix(),
    {
        self.route(path, Method::Delete, handler)
    }

    /// Splice another router's routes into this one, folding its prefix into
    /// their paths; they keep their order and are tried after the routes
    /// already here.
    pub fn nested(self, router: Router) -> (r: Router)
        ensures
            r.spec_prefix() == self.spec_prefix(),
    {
        let Router { prefix, routes } = self;
        let Router { prefix: inner_prefix, routes: inner_routes } = router;
        let spliced = splice(routes, &inner_prefix, inner_routes);
        Router { prefix, routes: spliced }
    }

    /// Answer a request from the table: the first route that matches it
    /// answers; a request no route matches gets `404 Not Found`.
    pub fn handle(&self, request: &Request) -> (r: Response)
        requires
            RouteHandler::ok(self),
        ensures
            RouteHandler::matches(self, Seq::empty(), request@) ==> RouteHandler::post(
                self,
                Seq::empty(),
                request@,
                r@,
            ),
            !RouteHandler::matches(self, Seq::empty(), request@) ==> r@
                == crate::response::spec_not_found(),
    {
        proof {
            reveal_strlit("");
        }
        match RouteHandler::handle(self, "", request) {
            Some(resp) => resp,
            None => Response::not_found(),
        }
    }
}

/// Append every route of `rest` to `acc`, with `pfx` folded into its path.
fn splice(acc: RouteChain, pfx: &String, rest: RouteChain) -> RouteChain
    decreases rest,
{
    match rest {
        RouteChain::Nil => acc,
        RouteChain::Cons(head, tail) => {
            let Route { path, method, handler } = head;
            let mut p = pfx.clone();
            p.append(path.as_str());
            let acc2 = acc.append(Route { path: p, method, handler });
            splice(acc2, pfx, *tail)
        },
    }
}

} // verus!

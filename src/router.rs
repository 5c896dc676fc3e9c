use vstd::prelude::*;
use crate::protocol::{as_u64_of, member, str_eq, JaResponse, JsonValue};
use crate::text::{decimal, to_decimal};

verus! {

/// A route as the contracts see it: its path and the frames waiting on it.
pub type RouteView = (Seq<char>, Seq<JaResponse>);

/// Index of the route at path `p`, or -1.
pub open spec fn route_index(routes: Seq<RouteView>, p: Seq<char>) -> int
    decreases routes.len(),
{
    if routes.len() == 0 {
        -1
    } else if routes.last().0 == p {
        routes.len() - 1
    } else {
        route_index(routes.drop_last(), p)
    }
}

/// No two routes share a path.
pub open spec fn paths_unique(routes: Seq<RouteView>) -> bool {
    forall|i: int, j: int| 0 <= i < j < routes.len() ==> routes[i].0 != routes[j].0
}

/// `root/end`.
pub open spec fn join_path(root: Seq<char>, end: Seq<char>) -> Seq<char> {
    root + seq!['/'] + end
}

/// The routing key of a frame below the root: `{session}` for a frame of a
/// session, `{session}/{sender}` for one of a handle, none without a session.
pub open spec fn response_path(session_id: Option<u64>, sender: Option<u64>) -> Option<Seq<char>> {
    match session_id {
        None => None,
        Some(s) => match sender {
            None => Some(decimal(s as nat)),
            Some(h) => Some(join_path(decimal(s as nat), decimal(h as nat))),
        },
    }
}

/// The routing key of a frame below the root.
pub open spec fn frame_path(f: JaResponse) -> Option<Seq<char>> {
    response_path(f.session_id, f.sender)
}

/// The routes after publishing `m` at path `p`: appended to the queue of
/// the route at `p`, dropped where there is none.
pub open spec fn deliver(routes: Seq<RouteView>, p: Seq<char>, m: JaResponse) -> Seq<RouteView> {
    let i = route_index(routes, p);
    if i >= 0 {
        routes.update(i, (routes[i].0, routes[i].1.push(m)))
    } else {
        routes
    }
}

/// The routes after the receive loop has routed `f`.
pub open spec fn route_one(routes: Seq<RouteView>, root: Seq<char>, f: JaResponse) -> Seq<RouteView> {
    match frame_path(f) {
        Some(p) => deliver(routes, join_path(root, p), f),
        None => routes,
    }
}

/// The routes after the receive loop has routed `frames`, in wire order.
pub open spec fn route_all(routes: Seq<RouteView>, root: Seq<char>, frames: Seq<JaResponse>) -> Seq<
    RouteView,
>
    decreases frames.len(),
{
    if frames.len() == 0 {
        routes
    } else {
        route_one(route_all(routes, root, frames.drop_last()), root, frames.last())
    }
}

/// The frames among `frames` whose route is the path `p`, in wire order.
pub open spec fn frames_for(frames: Seq<JaResponse>, root: Seq<char>, p: Seq<char>) -> Seq<
    JaResponse,
>
    decreases frames.len(),
{
    if frames.len() == 0 {
        frames
    } else {
        let rest = frames_for(frames.drop_last(), root, p);
        match frame_path(frames.last()) {
            Some(q) => if join_path(root, q) == p {
                rest.push(frames.last())
            } else {
                rest
            },
            None => rest,
        }
    }
}

proof fn lemma_route_index(routes: Seq<RouteView>, p: Seq<char>)
    ensures
        -1 <= route_index(routes, p) < routes.len(),
        route_index(routes, p) >= 0 ==> routes[route_index(routes, p)].0 == p,
        route_index(routes, p) < 0 ==> forall|j: int| 0 <= j < routes.len() ==> routes[j].0 != p,
    decreases routes.len(),
{
    if routes.len() > 0 && routes.last().0 != p {
        lemma_route_index(routes.drop_last(), p);
        if route_index(routes, p) < 0 {
            assert forall|j: int| 0 <= j < routes.len() implies routes[j].0 != p by {
                if j < routes.len() - 1 {
                    assert(routes.drop_last()[j] == routes[j]);
                }
            }
        }
    }
}

proof fn lemma_route_index_unique(routes: Seq<RouteView>, p: Seq<char>, i: int)
    requires
        paths_unique(routes),
        0 <= i < routes.len(),
        routes[i].0 == p,
    ensures
        route_index(routes, p) == i,
{
    lemma_route_index(routes, p);
}

/// Every frame reaches the subscriber of its route exactly once, in wire
/// order: after the receive loop has routed `frames`, the queue of each
/// route is what it held before followed by exactly the frames addressed to
/// its path, in the order they were read; no route is added or lost.
pub proof fn lemma_routed_in_order(routes: Seq<RouteView>, root: Seq<char>, frames: Seq<JaResponse>)
    requires
        paths_unique(routes),
    ensures
        route_all(routes, root, frames).len() == routes.len(),
        forall|i: int|
            0 <= i < routes.len() ==> (#[trigger] route_all(routes, root, frames)[i]).0
                == routes[i].0 && route_all(routes, root, frames)[i].1 == routes[i].1
                + frames_for(frames, root, routes[i].0),
    decreases frames.len(),
{
    if frames.len() == 0 {
        assert forall|i: int| 0 <= i < routes.len() implies (#[trigger] route_all(
            routes,
            root,
            frames,
        )[i]).0 == routes[i].0 && route_all(routes, root, frames)[i].1 == routes[i].1
            + frames_for(frames, root, routes[i].0) by {
            assert(routes[i].1 + Seq::<JaResponse>::empty() =~= routes[i].1);
        }
    } else {
        let prev = frames.drop_last();
        let f = frames.last();
        lemma_routed_in_order(routes, root, prev);
        let mid = route_all(routes, root, prev);
        if let Some(q) = frame_path(f) {
            lemma_route_index(mid, join_path(root, q));
        }
        assert(paths_unique(mid)) by {
            assert forall|a: int, b: int| 0 <= a < b < mid.len() implies mid[a].0 != mid[b].0 by {
                assert(mid[a].0 == routes[a].0);
                assert(mid[b].0 == routes[b].0);
            }
        }
        assert forall|i: int| 0 <= i < routes.len() implies (#[trigger] route_all(
            routes,
            root,
            frames,
        )[i]).0 == routes[i].0 && route_all(routes, root, frames)[i].1 == routes[i].1
            + frames_for(frames, root, routes[i].0) by {
            assert(mid[i].0 == routes[i].0);
            let before = frames_for(prev, root, routes[i].0);
            assert(mid[i].1 == routes[i].1 + before);
            match frame_path(f) {
                Some(q) => {
                    let p = join_path(root, q);
                    lemma_route_index(mid, p);
                    if p == routes[i].0 {
                        lemma_route_index_unique(mid, p, i);
                        assert(routes[i].1 + before.push(f) =~= (routes[i].1 + before).push(f));
                    }
                },
                None => {},
            }
        }
    }
}

/// A route: its path and the frames published on it that its subscriber
/// has not taken yet.
struct Route {
    path: String,
    queue: Vec<JaResponse>,
}

/// Routing table of a connection: subroutes below a root path, each with
/// the frames waiting for its subscriber.
pub struct Router {
    root_path: String,
    routes: Vec<Route>,
}

impl Router {
    /// The root path.
    pub closed spec fn root(&self) -> Seq<char> {
        self.root_path@
    }

    /// The routes, in order of creation.
    pub closed spec fn routes(&self) -> Seq<RouteView> {
        self.routes@.map_values(|r: Route| (r.path@, r.queue@))
    }

    /// No two routes share a path.
    pub open spec fn wf(&self) -> bool {
        paths_unique(self.routes())
    }

    /// A router with no routes below `root_path`.
    pub fn new(root_path: &str) -> (r: Router)
        ensures
            r.wf(),
            r.root() == root_path@,
            r.routes() == Seq::<RouteView>::empty(),
    {
        let r = Router { root_path: String::from_str(root_path), routes: Vec::new() };
        assert(r.routes() =~= Seq::<RouteView>::empty());
        r
    }

    fn find(&self, path: &str) -> (r: Option<usize>)
        requires
            self.wf(),
        ensures
            match r {
                Some(i) => i < self.routes().len() && route_index(self.routes(), path@) == i,
                None => route_index(self.routes(), path@) == -1,
            },
    {
        let mut i: usize = 0;
        while i < self.routes.len()
            invariant
                self.wf(),
                i <= self.routes@.len(),
                forall|j: int| 0 <= j < i ==> self.routes()[j].0 != path@,
            decreases self.routes@.len() - i,
        {
            if str_eq(self.routes[i].path.as_str(), path) {
                proof {
                    lemma_route_index_unique(self.routes(), path@, i as int);
                }
                return Some(i);
            }
            i = i + 1;
        }
        proof {
            lemma_route_index(self.routes(), path@);
        }
        None
    }

    /// `root/end`.
    fn full_path(&self, end: &str) -> (r: String)
        ensures
            r@ == join_path(self.root(), end@),
    {
        let mut path = self.root_path.clone();
        path.append("/");
        path.append(end);
        proof {
            reveal_strlit("/");
        }
        assert(path@ =~= join_path(self.root(), end@));
        path
    }

    /// Registers the route `root/end` and returns its index. A route that
    /// exists already starts over with no waiting frames.
    pub fn add_subroute(&mut self, end: &str) -> (r: usize)
        requires
            old(self).wf(),
        ensures
            final(self).wf(),
            final(self).root() == old(self).root(),
            r < final(self).routes().len(),
            ({
                let p = join_path(old(self).root(), end@);
                let i = route_index(old(self).routes(), p);
                if i >= 0 {
                    r == i && final(self).routes() == old(self).routes().update(
                        i,
                        (p, Seq::<JaResponse>::empty()),
                    )
                } else {
                    r == old(self).routes().len() && final(self).routes() == old(
                        self,
                    ).routes().push((p, Seq::<JaResponse>::empty()))
                }
            }),
    {
        let path = self.full_path(end);
        let ghost p = path@;
        match self.find(path.as_str()) {
            Some(i) => {
                proof {
                    lemma_route_index(self.routes(), p);
                }
                let ghost before = self.routes();
                self.routes.set(i, Route { path, queue: Vec::new() });
                assert(self.routes() =~= before.update(i as int, (p, Seq::<JaResponse>::empty())));
                assert(paths_unique(self.routes())) by {
                    assert forall|a: int, b: int|
                        0 <= a < b < self.routes().len() implies self.routes()[a].0
                        != self.routes()[b].0 by {
                        assert(self.routes()[a].0 == before[a].0);
                        assert(self.routes()[b].0 == before[b].0);
                    }
                }
                i
            },
            None => {
                proof {
                    lemma_route_index(self.routes(), p);
                }
                let ghost before = self.routes();
                let n = self.routes.len();
                self.routes.push(Route { path, queue: Vec::new() });
                assert(self.routes() =~= before.push((p, Seq::<JaResponse>::empty())));
                assert(paths_unique(self.routes())) by {
                    assert forall|a: int, b: int|
                        0 <= a < b < self.routes().len() implies self.routes()[a].0
                        != self.routes()[b].0 by {
                        if b < n {
                            assert(self.routes()[a].0 == before[a].0);
                            assert(self.routes()[b].0 == before[b].0);
                        } else {
                            assert(self.routes()[a].0 == before[a].0);
                        }
                    }
                }
                n
            },
        }
    }

    /// Removes the route `root/end`, with the frames waiting on it, and
    /// returns the index it had.
    pub fn remove_subroute(&mut self, end: &str) -> (r: Option<usize>)
        requires
            old(self).wf(),
        ensures
            final(self).wf(),
            final(self).root() == old(self).root(),
            ({
                let i = route_index(old(self).routes(), join_path(old(self).root(), end@));
                if i >= 0 {
                    r == Some(i as usize) && final(self).routes() == old(self).routes().remove(i)
                } else {
                    r is None && final(self).routes() == old(self).routes()
                }
            }),
    {
        let path = self.full_path(end);
        match self.find(path.as_str()) {
            Some(i) => {
                let ghost before = self.routes();
                self.routes.remove(i);
                assert(self.routes() =~= before.remove(i as int));
                assert(paths_unique(self.routes())) by {
                    assert forall|a: int, b: int|
                        0 <= a < b < self.routes().len() implies self.routes()[a].0
                        != self.routes()[b].0 by {
                        let aa = if a < i { a } else { a + 1 };
                        let bb = if b < i { b } else { b + 1 };
                        assert(self.routes()[a] == before[aa]);
                        assert(self.routes()[b] == before[bb]);
                    }
                }
                Some(i)
            },
            None => None,
        }
    }

    /// Publishes `message` at the full path `path`: it waits on that route
    /// for its subscriber, or is dropped where no route has that path.
    /// Returns the index of the route that received it.
    pub fn publish(&mut self, path: &str, message: JaResponse) -> (r: Option<usize>)
        requires
            old(self).wf(),
        ensures
            final(self).wf(),
            final(self).root() == old(self).root(),
            final(self).routes() == deliver(old(self).routes(), path@, message),
            ({
                let i = route_index(old(self).routes(), path@);
                if i >= 0 {
                    r == Some(i as usize)
                } else {
                    r is None
                }
            }),
    {
        match self.find(path) {
            Some(i) => {
                let ghost before = self.routes();
                let ghost m = message;
                proof {
                    lemma_route_index(before, path@);
                }
                let mut route = self.routes.remove(i);
                route.queue.push(message);
                self.routes.insert(i, route);
                assert(self.routes() =~= before.update(i as int, (before[i as int].0, before[i as int].1.push(m))));
                assert(paths_unique(self.routes())) by {
                    assert forall|a: int, b: int|
                        0 <= a < b < self.routes().len() implies self.routes()[a].0
                        != self.routes()[b].0 by {
                        assert(self.routes()[a].0 == before[a].0);
                        assert(self.routes()[b].0 == before[b].0);
                    }
                }
                Some(i)
            },
            None => None,
        }
    }

    /// Publishes `message` at `root/subroute`.
    pub fn pub_subroute(&mut self, subroute: &str, message: JaResponse) -> (r: Option<usize>)
        requires
            old(self).wf(),
        ensures
            final(self).wf(),
            final(self).root() == old(self).root(),
            final(self).routes() == deliver(old(self).routes(), join_path(old(self).root(), subroute@), message),
            ({
                let i = route_index(old(self).routes(), join_path(old(self).root(), subroute@));
                if i >= 0 {
                    r == Some(i as usize)
                } else {
                    r is None
                }
            }),
    {
        let path = self.full_path(subroute);
        self.publish(path.as_str(), message)
    }

    /// Routes an inbound frame by its `session_id` and `sender`: to
    /// `root/{session}/{sender}`, or `root/{session}` for a frame of a session.
    /// A frame without a session, or whose route does not exist, is dropped.
    pub fn route(&mut self, frame: JaResponse) -> (r: Option<usize>)
        requires
            old(self).wf(),
        ensures
            final(self).wf(),
            final(self).root() == old(self).root(),
            final(self).routes() == route_one(old(self).routes(), old(self).root(), frame),
    {
        match Router::path_of(&frame) {
            Some(p) => self.pub_subroute(p.as_str(), frame),
            None => None,
        }
    }

    /// Hands out the frames waiting on the route at `index`, oldest first,
    /// and empties its queue.
    pub fn take(&mut self, index: usize) -> (r: Vec<JaResponse>)
        requires
            old(self).wf(),
            index < old(self).routes().len(),
        ensures
            final(self).wf(),
            final(self).root() == old(self).root(),
            r@ == old(self).routes()[index as int].1,
            final(self).routes() == old(self).routes().update(
                index as int,
                (old(self).routes()[index as int].0, Seq::<JaResponse>::empty()),
            ),
    {
        let ghost before = self.routes();
        let Route { path, queue } = self.routes.remove(index);
        self.routes.insert(index, Route { path, queue: Vec::new() });
        assert(self.routes() =~= before.update(
            index as int,
            (before[index as int].0, Seq::<JaResponse>::empty()),
        ));
        assert(paths_unique(self.routes())) by {
            assert forall|a: int, b: int|
                0 <= a < b < self.routes().len() implies self.routes()[a].0
                != self.routes()[b].0 by {
                assert(self.routes()[a].0 == before[a].0);
                assert(self.routes()[b].0 == before[b].0);
            }
        }
        queue
    }

    /// Number of frames waiting on the route at `index`.
    pub fn pending(&self, index: usize) -> (r: usize)
        requires
            index < self.routes().len(),
        ensures
            r == self.routes()[index as int].1.len(),
    {
        self.routes[index].queue.len()
    }

    /// Number of routes.
    pub fn len(&self) -> (r: usize)
        ensures
            r == self.routes().len(),
    {
        self.routes.len()
    }

    fn path_of(response: &JaResponse) -> (r: Option<String>)
        ensures
            match r {
                Some(p) => frame_path(*response) == Some(p@),
                None => frame_path(*response) is None,
            },
    {
        match response.session_id {
            None => None,
            Some(session_id) => match response.sender {
                None => Some(to_decimal(session_id)),
                Some(sender) => Some(join_ids(session_id, sender)),
            },
        }
    }

    /// The routing key of an inbound frame below the root:
    /// `{session}/{sender}`, `{session}`, or none without a session.
    pub fn path_from_response(response: JaResponse) -> (r: Option<String>)
        ensures
            match r {
                Some(p) => response_path(response.session_id, response.sender) == Some(p@),
                None => response_path(response.session_id, response.sender) is None,
            },
    {
        Router::path_of(&response)
    }

    /// The routing key of an outbound request below the root, from its
    /// `session_id` and `handle_id` members.
    pub fn path_from_request(request: &JsonValue) -> (r: Option<String>)
        ensures
            match r {
                Some(p) => response_path(
                    as_u64_of(member(*request, "session_id"@)),
                    as_u64_of(member(*request, "handle_id"@)),
                ) == Some(p@),
                None => response_path(
                    as_u64_of(member(*request, "session_id"@)),
                    as_u64_of(member(*request, "handle_id"@)),
                ) is None,
            },
    {
        let session_id = match request.get("session_id") {
            Some(v) => v.as_u64(),
            None => None,
        };
        let handle_id = match request.get("handle_id") {
            Some(v) => v.as_u64(),
            None => None,
        };
        match session_id {
            None => None,
            Some(s) => match handle_id {
                None => Some(to_decimal(s)),
                Some(h) => Some(join_ids(s, h)),
            },
        }
    }
}

/// `{a}/{b}` in decimal.
fn join_ids(a: u64, b: u64) -> (r: String)
    ensures
        r@ == join_path(decimal(a as nat), decimal(b as nat)),
{
    let mut path = to_decimal(a);
    path.append("/");
    let tail = to_decimal(b);
    path.append(tail.as_str());
    proof {
        reveal_strlit("/");
    }
    assert(path@ =~= join_path(decimal(a as nat), decimal(b as nat)));
    path
}

} // verus!

//! The route table and its dispatch rule: an exact (method, path) lookup
//! with last-writer-wins registration and a not-found fallback.

use vstd::prelude::*;

verus! {

/// What a route does when it is invoked: serve the bytes of one fixed file,
/// or run a custom handler that the embedder registered under an identifier.
pub enum Action {
    ServeFile { file_path: String },
    Custom { id: usize },
}

/// The mathematical value of an `Action`.
pub enum ActionView {
    ServeFile { file_path: Seq<char> },
    Custom { id: int },
}

impl View for Action {
    type V = ActionView;

    open spec fn view(&self) -> ActionView {
        match self {
            Action::ServeFile { file_path } => ActionView::ServeFile { file_path: file_path@ },
            Action::Custom { id } => ActionView::Custom { id: *id as int },
        }
    }
}

struct Route {
    method: String,
    path: String,
    action: Action,
}

/// The key a route is looked up by: its method and path, exactly as given,
/// with no normalization.
pub type RouteKey = (Seq<char>, Seq<char>);

/// The routes that a sequence of registrations leaves in force: a later
/// registration of an already-bound key overwrites the earlier one.
spec fn map_of_routes(s: Seq<Route>) -> Map<RouteKey, ActionView>
    decreases s.len(),
{
    if s.len() == 0 {
        Map::empty()
    } else {
        map_of_routes(s.drop_last()).insert(
            (s.last().method@, s.last().path@),
            s.last().action@,
        )
    }
}

/// What dispatching (method, path) against the route table `m` resolves to:
/// the bound action on an exact match, and the fallback (`None`) otherwise.
pub open spec fn dispatch_spec(m: Map<RouteKey, ActionView>, method: Seq<char>, path: Seq<char>) -> Option<
    ActionView,
> {
    if m.dom().contains((method, path)) {
        Some(m[(method, path)])
    } else {
        None
    }
}

/// The route table: a mapping from (method, path) to an action, holding at
/// most one action per key.
pub struct Router {
    routes: Vec<Route>,
}

impl View for Router {
    type V = Map<RouteKey, ActionView>;

    closed spec fn view(&self) -> Map<RouteKey, ActionView> {
        map_of_routes(self.routes@)
    }
}

impl Router {
    /// An empty route table: every request falls through to the fallback.
    pub fn new() -> (r: Self)
        ensures
            r@ == Map::<RouteKey, ActionView>::empty(),
    {
        Router { routes: Vec::new() }
    }

    /// Binds (method, endpoint) to `function`, silently overwriting any
    /// earlier binding of the same key.
    pub fn add_route(&mut self, method: &str, endpoint: &str, function: Action)
        ensures
            final(self)@ == old(self)@.insert((method@, endpoint@), function@),
    {
        let ghost before = self.routes@;
        self.routes.push(Route {
            method: String::from_str(method),
            path: String::from_str(endpoint),
            action: function,
        });
        proof {
            assert(self.routes@.drop_last() =~= before);
        }
    }

    /// Resolves a request's method and path to the action that must handle
    /// it: the bound action on an exact match, and `None` — the not-found
    /// fallback — when no route matches.
    pub fn request_handler<'a>(&'a self, method: &str, path: &str) -> (r: Option<&'a Action>)
        ensures
            match r {
                Some(action) => dispatch_spec(self@, method@, path@) == Some(action@),
                None => dispatch_spec(self@, method@, path@) is None,
            },
    {
        let m = String::from_str(method);
        let p = String::from_str(path);
        let mut i: usize = self.routes.len();
        while i > 0
            invariant
                i <= self.routes@.len(),
                m@ == method@,
                p@ == path@,
                forall|j: int|
                    i <= j < self.routes@.len() ==> !(self.routes@[j].method@ == method@
                        && self.routes@[j].path@ == path@),
            decreases i,
        {
            i = i - 1;
            let route = &self.routes[i];
            if route.method == m && route.path == p {
                proof {
                    lemma_last_match(self.routes@, i as int);
                }
                return Some(&route.action);
            }
        }
        proof {
            lemma_no_match(self.routes@, method@, path@);
        }
        None
    }
}

/// If index `i` binds the key and no later index does, the route table's
/// value at that key is the action registered at `i`.
proof fn lemma_last_match(s: Seq<Route>, i: int)
    requires
        0 <= i < s.len(),
        forall|j: int|
            i < j < s.len() ==> !(s[j].method@ == s[i].method@ && s[j].path@ == s[i].path@),
    ensures
        map_of_routes(s).dom().contains((s[i].method@, s[i].path@)),
        map_of_routes(s)[(s[i].method@, s[i].path@)] == s[i].action@,
    decreases s.len(),
{
    if i == s.len() - 1 {
    } else {
        lemma_last_match(s.drop_last(), i);
    }
}

/// A key that no registration bound is absent from the route table.
proof fn lemma_no_match(s: Seq<Route>, method: Seq<char>, path: Seq<char>)
    requires
        forall|j: int| 0 <= j < s.len() ==> !(s[j].method@ == method && s[j].path@ == path),
    ensures
        !map_of_routes(s).dom().contains((method, path)),
    decreases s.len(),
{
    if s.len() > 0 {
        lemma_no_match(s.drop_last(), method, path);
    }
}

/// Registering the identical route twice leaves the route table — and with
/// it every dispatch — exactly as one registration leaves it.
pub proof fn lemma_register_twice_idempotent(
    m: Map<RouteKey, ActionView>,
    key: RouteKey,
    action: ActionView,
)
    ensures
        m.insert(key, action).insert(key, action) == m.insert(key, action),
        forall|method: Seq<char>, path: Seq<char>|
            dispatch_spec(m.insert(key, action).insert(key, action), method, path)
                == dispatch_spec(m.insert(key, action), method, path),
{
    assert(m.insert(key, action).insert(key, action) =~= m.insert(key, action));
}

} // verus!

//! The scope tree and its builder, and the flattening of the tree into the
//! ordered table of routes.
//!
//! A router holds the pipes it declares and, in the order of the calls that
//! made them, its routes and scopes. A scope prepends its path to everything
//! in its body, adds its constraint, and threads its body through the pipes
//! it names. Those names are looked up in the router in which the scope is
//! declared, and nowhere else.

use vstd::prelude::*;
use vstd::string::*;
use crate::engine::names_view;
use crate::error::{BuildError, BuildErrorSpec};
use crate::path::{Path, SegmentSpec};
use crate::route::{Method, Pipe, Route};

verus! {

/// A path prefix with the pipes that its body is threaded through, its
/// constraint, and the router that is its body.
#[derive(Debug)]
pub struct Scope {
    pub path: Path,
    pub through: Vec<String>,
    pub constraint: Option<usize>,
    pub router: Router,
}

/// What a router holds in the order of declaration: a route or a scope.
#[derive(Debug)]
pub enum Node {
    Route(Route),
    Scope(Scope),
}

/// Router that contains the routing rules and helpers to define them.
#[derive(Debug)]
pub struct Router {
    pub pipes: Vec<Pipe>,
    pub nodes: Vec<Node>,
}

/// An entry of the flat table: the absolute path of a route, its methods,
/// and the constraints and middleware that apply to it, those of the
/// outermost scope first.
#[derive(Debug)]
pub struct RouteRef {
    pub path: Path,
    pub methods: Vec<Method>,
    pub constraints: Vec<usize>,
    pub middlewares: Vec<usize>,
    pub handler: usize,
}

/// The model of an entry of the flat table.
pub struct EntrySpec {
    pub path: Seq<SegmentSpec>,
    pub methods: Seq<Method>,
    pub constraints: Seq<usize>,
    pub middlewares: Seq<usize>,
    pub handler: usize,
}

/// What a node inherits from the scopes around it.
pub struct Context {
    /// The paths of the scopes around it, outermost first.
    pub prefix: Seq<SegmentSpec>,
    /// Their constraints, outermost first.
    pub constraints: Seq<usize>,
    /// The middleware of the pipes they are threaded through.
    pub middlewares: Seq<usize>,
    /// Whether the node stands in the body of a scope.
    pub in_scope: bool,
}

impl View for RouteRef {
    type V = EntrySpec;

    open spec fn view(&self) -> EntrySpec {
        EntrySpec {
            path: self.path@,
            methods: self.methods@,
            constraints: self.constraints@,
            middlewares: self.middlewares@,
            handler: self.handler,
        }
    }
}

/// The models of the entries of `entries`.
pub open spec fn entries_view(entries: Seq<RouteRef>) -> Seq<EntrySpec> {
    entries.map_values(|e: RouteRef| e@)
}

/// The views of the strings of `texts`.
pub open spec fn texts_view(texts: Seq<&str>) -> Seq<Seq<char>> {
    texts.map_values(|t: &str| t@)
}

/// The constraint as a list: empty where there is none.
pub open spec fn option_seq(constraint: Option<usize>) -> Seq<usize> {
    match constraint {
        Some(c) => seq![c],
        None => Seq::empty(),
    }
}

/// The context of the top of the tree.
pub open spec fn root_context() -> Context {
    Context {
        prefix: Seq::empty(),
        constraints: Seq::empty(),
        middlewares: Seq::empty(),
        in_scope: false,
    }
}

/// The middleware of the first pipe from index `i` on that has the name.
pub open spec fn find_pipe(pipes: Seq<Pipe>, name: Seq<char>, i: int) -> Option<Seq<usize>>
    decreases pipes.len() - i,
{
    if i < 0 || i >= pipes.len() {
        None
    } else if pipes[i].name@ == name {
        Some(pipes[i].middlewares@)
    } else {
        find_pipe(pipes, name, i + 1)
    }
}

/// The middleware of the pipes that the first `n` names of `through` name
/// among `pipes`, in the order of the names; or the first name among them
/// that names none.
pub open spec fn resolve(pipes: Seq<Pipe>, through: Seq<String>, n: int) -> Result<
    Seq<usize>,
    BuildErrorSpec,
>
    decreases n,
{
    if n <= 0 || n > through.len() {
        Ok(Seq::empty())
    } else {
        match resolve(pipes, through, n - 1) {
            Err(e) => Err(e),
            Ok(before) => match find_pipe(pipes, through[n - 1]@, 0) {
                Some(middlewares) => Ok(before + middlewares),
                None => Err(BuildErrorSpec::PipeNotFound(through[n - 1]@)),
            },
        }
    }
}

/// The entries of `before` followed by those of `next`, or the first error.
pub open spec fn join_entries(
    before: Result<Seq<EntrySpec>, BuildErrorSpec>,
    next: Result<Seq<EntrySpec>, BuildErrorSpec>,
) -> Result<Seq<EntrySpec>, BuildErrorSpec> {
    match before {
        Err(e) => Err(e),
        Ok(b) => match next {
            Err(e) => Err(e),
            Ok(n) => Ok(b + n),
        },
    }
}

/// The entry of a route in a context.
pub open spec fn entry_of(route: Route, ctx: Context) -> EntrySpec {
    EntrySpec {
        path: ctx.prefix + route.path@,
        methods: route.methods@,
        constraints: ctx.constraints + option_seq(route.constraint),
        middlewares: ctx.middlewares,
        handler: route.handler,
    }
}

/// The context of the body of `scope`, where the scope stands in the
/// context `ctx` and its pipes resolve to `middlewares`.
pub open spec fn body_context(scope: Scope, ctx: Context, middlewares: Seq<usize>) -> Context {
    Context {
        prefix: ctx.prefix + scope.path@,
        constraints: ctx.constraints + option_seq(scope.constraint),
        middlewares: ctx.middlewares + middlewares,
        in_scope: true,
    }
}

/// The entries of the first `n` nodes of `router`, in order, or the first
/// error met on the way.
pub open spec fn flatten_upto(router: Router, n: int, ctx: Context) -> Result<
    Seq<EntrySpec>,
    BuildErrorSpec,
>
    decreases router, n,
{
    if n <= 0 || n > router.nodes@.len() {
        Ok(Seq::empty())
    } else {
        join_entries(
            flatten_upto(router, n - 1, ctx),
            flatten_node(router.pipes@, router.nodes@[n - 1], ctx),
        )
    }
}

/// The entries of one node of a router that declares `pipes`. A route gives
/// one entry. A scope gives the entries of its body; it is an error where
/// the scope stands in the body of a scope and its own body declares pipes,
/// and where one of its pipes is not among `pipes`.
pub open spec fn flatten_node(pipes: Seq<Pipe>, node: Node, ctx: Context) -> Result<
    Seq<EntrySpec>,
    BuildErrorSpec,
>
    decreases node, 0int,
{
    match node {
        Node::Route(route) => Ok(seq![entry_of(route, ctx)]),
        Node::Scope(scope) => if ctx.in_scope && scope.router.pipes@.len() > 0 {
            Err(BuildErrorSpec::PipeInScope)
        } else {
            match resolve(pipes, scope.through@, scope.through@.len() as int) {
                Err(e) => Err(e),
                Ok(middlewares) => flatten_upto(
                    scope.router,
                    scope.router.nodes@.len() as int,
                    body_context(scope, ctx, middlewares),
                ),
            }
        },
    }
}

/// The flat table of a router: the entries of all its nodes, or the first
/// error.
pub open spec fn flatten(router: Router) -> Result<Seq<EntrySpec>, BuildErrorSpec> {
    flatten_upto(router, router.nodes@.len() as int, root_context())
}

/// Once resolving has failed it stays failed, with the same error.
pub proof fn lemma_resolve_error_stays(pipes: Seq<Pipe>, through: Seq<String>, k: int, n: int)
    requires
        0 <= k <= n <= through.len(),
        resolve(pipes, through, k) is Err,
    ensures
        resolve(pipes, through, n) == resolve(pipes, through, k),
    decreases n - k,
{
    if k < n {
        lemma_resolve_error_stays(pipes, through, k, n - 1);
    }
}

/// Once flattening has failed it stays failed, with the same error.
pub proof fn lemma_flatten_error_stays(router: Router, k: int, n: int, ctx: Context)
    requires
        0 <= k <= n <= router.nodes@.len(),
        flatten_upto(router, k, ctx) is Err,
    ensures
        flatten_upto(router, n, ctx) == flatten_upto(router, k, ctx),
    decreases n - k,
{
    if k < n {
        lemma_flatten_error_stays(router, k, n - 1, ctx);
    }
}

/// A copy of `items`.
pub fn copy_of<T: Copy>(items: &Vec<T>) -> (copy: Vec<T>)
    ensures
        copy@ == items@,
{
    let mut copy: Vec<T> = Vec::new();
    let mut i: usize = 0;
    while i < items.len()
        invariant
            i <= items.len(),
            copy@ == items@.subrange(0, i as int),
        decreases items.len() - i,
    {
        copy.push(items[i]);
        proof {
            assert(copy@ =~= items@.subrange(0, i as int + 1));
        }
        i = i + 1;
    }
    proof {
        assert(items@.subrange(0, i as int) =~= items@);
    }
    copy
}

/// The items of `items` followed by those of `more`.
pub fn concat<T: Copy>(items: &Vec<T>, more: &Vec<T>) -> (all: Vec<T>)
    ensures
        all@ == items@ + more@,
{
    let mut all: Vec<T> = Vec::new();
    let mut i: usize = 0;
    while i < items.len()
        invariant
            i <= items.len(),
            all@ == items@.subrange(0, i as int),
        decreases items.len() - i,
    {
        all.push(items[i]);
        proof {
            assert(all@ =~= items@.subrange(0, i as int + 1));
        }
        i = i + 1;
    }
    let mut j: usize = 0;
    while j < more.len()
        invariant
            j <= more.len(),
            i == items.len(),
            all@ == items@.subrange(0, i as int) + more@.subrange(0, j as int),
        decreases more.len() - j,
    {
        all.push(more[j]);
        proof {
            assert(all@ =~= items@.subrange(0, i as int) + more@.subrange(0, j as int + 1));
        }
        j = j + 1;
    }
    proof {
        assert(items@.subrange(0, i as int) =~= items@);
        assert(more@.subrange(0, j as int) =~= more@);
    }
    all
}

/// The items of `items`, followed by `last` where there is one.
pub fn with_option(items: &Vec<usize>, last: Option<usize>) -> (all: Vec<usize>)
    ensures
        all@ == items@ + option_seq(last),
{
    let mut more: Vec<usize> = Vec::new();
    match last {
        Some(c) => {
            more.push(c);
            proof {
                assert(more@ =~= seq![c]);
            }
        },
        None => {},
    }
    concat(items, &more)
}

impl Scope {
    /// The scope at `path`, with an empty body, no pipes and no constraint.
    pub fn new(path: Path) -> (scope: Self)
        ensures
            scope.path == path,
            scope.through@ == Seq::<String>::empty(),
            scope.constraint is None,
            scope.router.pipes@ == Seq::<Pipe>::empty(),
            scope.router.nodes@ == Seq::<Node>::empty(),
    {
        Scope { path, through: Vec::new(), constraint: None, router: Router::new() }
    }

    /// The scope threaded through the pipes of these names, in this order,
    /// after those it is threaded through already.
    pub fn through(self, pipes: &[&str]) -> (scope: Self)
        ensures
            scope.path == self.path,
            scope.constraint == self.constraint,
            scope.router == self.router,
            names_view(scope.through@) == names_view(self.through@) + texts_view(pipes@),
    {
        let mut scope = self;
        let mut i: usize = 0;
        while i < pipes.len()
            invariant
                i <= pipes@.len(),
                scope.path == self.path,
                scope.constraint == self.constraint,
                scope.router == self.router,
                names_view(scope.through@) == names_view(self.through@) + texts_view(
                    pipes@,
                ).subrange(0, i as int),
            decreases pipes@.len() - i,
        {
            let ghost before = scope.through@;
            scope.through.push(pipes[i].to_owned());
            proof {
                assert(names_view(scope.through@) =~= names_view(before).push(pipes@[i as int]@));
                assert(texts_view(pipes@).subrange(0, i as int + 1) =~= texts_view(
                    pipes@,
                ).subrange(0, i as int).push(pipes@[i as int]@));
                assert(names_view(scope.through@) =~= names_view(self.through@) + texts_view(
                    pipes@,
                ).subrange(0, i as int + 1));
            }
            i = i + 1;
        }
        proof {
            assert(texts_view(pipes@).subrange(0, i as int) =~= texts_view(pipes@));
        }
        scope
    }

    /// The scope that matches only where `constraint` holds of the request.
    pub fn constraint(self, constraint: usize) -> (scope: Self)
        ensures
            scope.path == self.path,
            scope.through == self.through,
            scope.constraint == Some(constraint),
            scope.router == self.router,
    {
        Scope {
            path: self.path,
            through: self.through,
            constraint: Some(constraint),
            router: self.router,
        }
    }

    /// The scope with `router` as its body.
    pub fn to(self, router: Router) -> (scope: Self)
        ensures
            scope.path == self.path,
            scope.through == self.through,
            scope.constraint == self.constraint,
            scope.router == router,
    {
        Scope { path: self.path, through: self.through, constraint: self.constraint, router }
    }
}

impl Router {
    /// Whether the router declares a pipe of that name.
    pub open spec fn declares(self, name: Seq<char>) -> bool {
        find_pipe(self.pipes@, name, 0) is Some
    }

    /// Whether the last node is the route that holds just these values, and
    /// all else is as in `before`.
    pub open spec fn adds_route(
        self,
        before: Router,
        path: Seq<SegmentSpec>,
        methods: Seq<Method>,
        constraint: Option<usize>,
        handler: usize,
    ) -> bool {
        &&& self.pipes == before.pipes
        &&& self.nodes@.len() == before.nodes@.len() + 1
        &&& self.nodes@.drop_last() == before.nodes@
        &&& match self.nodes@.last() {
            Node::Route(route) => route.is(path, methods, constraint, handler),
            Node::Scope(_) => false,
        }
    }

    /// The router that declares nothing.
    pub fn new() -> (router: Self)
        ensures
            router.pipes@ == Seq::<Pipe>::empty(),
            router.nodes@ == Seq::<Node>::empty(),
    {
        Router { pipes: Vec::new(), nodes: Vec::new() }
    }

    /// The index of the pipe of that name, if the router declares one.
    pub fn find(&self, name: &str) -> (found: Option<usize>)
        ensures
            match found {
                Some(i) => i < self.pipes@.len() && self.pipes@[i as int].name@ == name@
                    && find_pipe(self.pipes@, name@, 0) == Some(self.pipes@[i as int].middlewares@),
                None => !self.declares(name@),
            },
    {
        let mut i: usize = 0;
        while i < self.pipes.len()
            invariant
                i <= self.pipes.len(),
                find_pipe(self.pipes@, name@, 0) == find_pipe(self.pipes@, name@, i as int),
            decreases self.pipes.len() - i,
        {
            if crate::text::same_text(self.pipes[i].name.as_str(), name) {
                return Some(i);
            }
            i = i + 1;
        }
        None
    }

    /// Define a middleware pipe that scopes declared in this router can be
    /// threaded through. A second pipe of one name is refused, and the
    /// router stays as it is.
    pub fn pipe(&mut self, pipe: Pipe) -> (r: Result<(), BuildError>)
        ensures
            match r {
                Ok(_) => !old(self).declares(pipe.name@) && final(self).pipes@ == old(
                    self,
                ).pipes@.push(pipe) && final(self).nodes == old(self).nodes,
                Err(e) => old(self).declares(pipe.name@) && e@ == BuildErrorSpec::DuplicatePipe(
                    pipe.name@,
                ) && *final(self) == *old(self),
            },
    {
        match self.find(pipe.name.as_str()) {
            Some(_) => Err(BuildError::DuplicatePipe(pipe.name)),
            None => {
                self.pipes.push(pipe);
                Ok(())
            },
        }
    }

    /// Define a scope directly.
    pub fn scope_as(&mut self, scope: Scope)
        ensures
            final(self).pipes == old(self).pipes,
            final(self).nodes@ == old(self).nodes@.push(Node::Scope(scope)),
    {
        self.nodes.push(Node::Scope(scope));
    }

    /// Define a scope that prepends the given prefix for all the endpoints
    /// of the given router.
    pub fn scope(&mut self, path: Path, router: Router)
        ensures
            final(self).pipes == old(self).pipes,
            final(self).nodes@.len() == old(self).nodes@.len() + 1,
            final(self).nodes@.drop_last() == old(self).nodes@,
            match final(self).nodes@.last() {
                Node::Scope(scope) => scope.path == path && scope.through@.len() == 0
                    && scope.constraint is None && scope.router == router,
                Node::Route(_) => false,
            },
    {
        self.nodes.push(Node::Scope(Scope::new(path).to(router)));
        proof {
            assert(final(self).nodes@.drop_last() =~= old(self).nodes@);
        }
    }

    /// Define a scope that runs the middleware of the named pipes, which are
    /// those of this router, and prepends the given prefix for all the
    /// endpoints of the given router.
    pub fn scope_through(&mut self, path: Path, pipes: &[&str], router: Router)
        ensures
            final(self).pipes == old(self).pipes,
            final(self).nodes@.len() == old(self).nodes@.len() + 1,
            final(self).nodes@.drop_last() == old(self).nodes@,
            match final(self).nodes@.last() {
                Node::Scope(scope) => scope.path == path && scope.constraint is None
                    && scope.router == router && names_view(scope.through@) == texts_view(pipes@),
                Node::Route(_) => false,
            },
    {
        let scope = Scope::new(path).through(pipes).to(router);
        proof {
            assert(names_view(scope.through@) =~= texts_view(pipes@));
        }
        self.nodes.push(Node::Scope(scope));
        proof {
            assert(final(self).nodes@.drop_last() =~= old(self).nodes@);
        }
    }

    /// Define an endpoint with path that allows any of the given methods.
    pub fn any(&mut self, methods: &[Method], path: Path, handler: usize)
        ensures
            final(self).adds_route(*old(self), path@, methods@, None, handler),
    {
        self.nodes.push(Node::Route(Route::new(path, handler).methods(methods)));
        proof {
            assert(final(self).nodes@.drop_last() =~= old(self).nodes@);
        }
    }

    /// Define an endpoint with path that allows all methods.
    pub fn all(&mut self, path: Path, handler: usize)
        ensures
            final(self).adds_route(*old(self), path@, Seq::empty(), None, handler),
    {
        self.nodes.push(Node::Route(Route::new(path, handler)));
        proof {
            assert(final(self).nodes@.drop_last() =~= old(self).nodes@);
        }
    }

    /// Define an endpoint with path and constraint that allows any of the
    /// given methods. It is matched only where the constraint holds.
    pub fn any_with_constraint(
        &mut self,
        methods: &[Method],
        path: Path,
        constraint: usize,
        handler: usize,
    )
        ensures
            final(self).adds_route(*old(self), path@, methods@, Some(constraint), handler),
    {
        self.nodes.push(
            Node::Route(Route::new(path, handler).methods(methods).constraint(constraint)),
        );
        proof {
            assert(final(self).nodes@.drop_last() =~= old(self).nodes@);
        }
    }

    /// Define an endpoint with path and constraint that allows all methods.
    /// It is matched only where the constraint holds.
    pub fn all_with_constraint(&mut self, path: Path, constraint: usize, handler: usize)
        ensures
            final(self).adds_route(*old(self), path@, Seq::empty(), Some(constraint), handler),
    {
        self.nodes.push(Node::Route(Route::new(path, handler).constraint(constraint)));
        proof {
            assert(final(self).nodes@.drop_last() =~= old(self).nodes@);
        }
    }
}

/// The context that these values make up.
pub open spec fn context(
    prefix: Path,
    constraints: Vec<usize>,
    middlewares: Vec<usize>,
    in_scope: bool,
) -> Context {
    Context {
        prefix: prefix@,
        constraints: constraints@,
        middlewares: middlewares@,
        in_scope,
    }
}

impl Router {
    /// Define an endpoint with path that allows one method only.
    pub fn only(&mut self, method: Method, path: Path, handler: usize)
        ensures
            final(self).adds_route(*old(self), path@, seq![method], None, handler),
    {
        let mut methods: Vec<Method> = Vec::new();
        methods.push(method);
        proof {
            assert(methods@ =~= seq![method]);
        }
        self.any(methods.as_slice(), path, handler);
    }

    /// Define an endpoint with path that allows only `GET` HTTP method.
    pub fn get(&mut self, path: Path, handler: usize)
        ensures
            final(self).adds_route(*old(self), path@, seq![Method::Get], None, handler),
    {
        self.only(Method::Get, path, handler);
    }

    /// Define an endpoint with path that allows only `POST` HTTP method.
    pub fn post(&mut self, path: Path, handler: usize)
        ensures
            final(self).adds_route(*old(self), path@, seq![Method::Post], None, handler),
    {
        self.only(Method::Post, path, handler);
    }

    /// Define an endpoint with path that allows only `PUT` HTTP method.
    pub fn put(&mut self, path: Path, handler: usize)
        ensures
            final(self).adds_route(*old(self), path@, seq![Method::Put], None, handler),
    {
        self.only(Method::Put, path, handler);
    }

    /// Define an endpoint with path that allows only `PATCH` HTTP method.
    pub fn patch(&mut self, path: Path, handler: usize)
        ensures
            final(self).adds_route(*old(self), path@, seq![Method::Patch], None, handler),
    {
        self.only(Method::Patch, path, handler);
    }

    /// Define an endpoint with path that allows only `DELETE` HTTP method.
    pub fn delete(&mut self, path: Path, handler: usize)
        ensures
            final(self).adds_route(*old(self), path@, seq![Method::Delete], None, handler),
    {
        self.only(Method::Delete, path, handler);
    }

    /// Define an endpoint with path that allows only `HEAD` HTTP method.
    pub fn head(&mut self, path: Path, handler: usize)
        ensures
            final(self).adds_route(*old(self), path@, seq![Method::Head], None, handler),
    {
        self.only(Method::Head, path, handler);
    }

    /// Define an endpoint with path that allows only `OPTIONS` HTTP method.
    pub fn options(&mut self, path: Path, handler: usize)
        ensures
            final(self).adds_route(*old(self), path@, seq![Method::Options], None, handler),
    {
        self.only(Method::Options, path, handler);
    }

    /// Define an endpoint with path that allows only `TRACE` HTTP method.
    pub fn trace(&mut self, path: Path, handler: usize)
        ensures
            final(self).adds_route(*old(self), path@, seq![Method::Trace], None, handler),
    {
        self.only(Method::Trace, path, handler);
    }

    /// Define an endpoint with path that allows only `CONNECT` HTTP method.
    pub fn connect(&mut self, path: Path, handler: usize)
        ensures
            final(self).adds_route(*old(self), path@, seq![Method::Connect], None, handler),
    {
        self.only(Method::Connect, path, handler);
    }

    /// The middleware of the pipes that `through` names, in the order of the
    /// names, or the first name that this router declares no pipe for.
    pub fn resolve(&self, through: &Vec<String>) -> (r: Result<Vec<usize>, BuildError>)
        ensures
            match r {
                Ok(middlewares) => resolve(self.pipes@, through@, through@.len() as int) == Ok::<
                    _,
                    BuildErrorSpec,
                >(middlewares@),
                Err(e) => resolve(self.pipes@, through@, through@.len() as int) == Err::<
                    Seq<usize>,
                    _,
                >(e@),
            },
    {
        let mut all: Vec<usize> = Vec::new();
        let mut i: usize = 0;
        while i < through.len()
            invariant
                i <= through.len(),
                resolve(self.pipes@, through@, i as int) == Ok::<_, BuildErrorSpec>(all@),
            decreases through.len() - i,
        {
            match self.find(through[i].as_str()) {
                Some(k) => {
                    all = concat(&all, &self.pipes[k].middlewares);
                },
                None => {
                    proof {
                        lemma_resolve_error_stays(
                            self.pipes@,
                            through@,
                            i as int + 1,
                            through@.len() as int,
                        );
                    }
                    return Err(BuildError::PipeNotFound(through[i].clone()));
                },
            }
            i = i + 1;
        }
        Ok(all)
    }

    /// Adds the entries of this router, which stands in the given context,
    /// to `out`.
    fn flatten_into(
        &self,
        prefix: &Path,
        constraints: &Vec<usize>,
        middlewares: &Vec<usize>,
        in_scope: bool,
        out: &mut Vec<RouteRef>,
    ) -> (r: Result<(), BuildError>)
        ensures
            match r {
                Ok(_) => flatten_upto(
                    *self,
                    self.nodes@.len() as int,
                    context(*prefix, *constraints, *middlewares, in_scope),
                ) matches Ok(added) && entries_view(final(out)@) == entries_view(old(out)@)
                    + added,
                Err(e) => flatten_upto(
                    *self,
                    self.nodes@.len() as int,
                    context(*prefix, *constraints, *middlewares, in_scope),
                ) == Err::<Seq<EntrySpec>, _>(e@),
            },
        decreases self,
    {
        let ghost ctx = context(*prefix, *constraints, *middlewares, in_scope);
        let n = self.nodes.len();
        let mut i: usize = 0;
        while i < n
            invariant
                i <= n,
                n == self.nodes@.len(),
                ctx == context(*prefix, *constraints, *middlewares, in_scope),
                flatten_upto(*self, i as int, ctx) matches Ok(added) && entries_view(out@)
                    == entries_view(old(out)@) + added,
            decreases n - i,
        {
            let ghost done = flatten_upto(*self, i as int, ctx)->Ok_0;
            let ghost before = out@;
            match &self.nodes[i] {
                Node::Route(route) => {
                    let entry = RouteRef {
                        path: prefix.join(&route.path),
                        methods: copy_of(&route.methods),
                        constraints: with_option(constraints, route.constraint),
                        middlewares: copy_of(middlewares),
                        handler: route.handler,
                    };
                    proof {
                        assert(entry@ == entry_of(*route, ctx));
                    }
                    out.push(entry);
                    proof {
                        assert(entries_view(out@) =~= entries_view(before).push(entry@));
                        assert(entries_view(out@) =~= entries_view(old(out)@) + (done
                            + seq![entry@]));
                    }
                },
                Node::Scope(scope) => {
                    if in_scope && scope.router.pipes.len() > 0 {
                        proof {
                            lemma_flatten_error_stays(*self, i as int + 1, n as int, ctx);
                        }
                        return Err(BuildError::PipeInScope);
                    }
                    match self.resolve(&scope.through) {
                        Err(e) => {
                            proof {
                                lemma_flatten_error_stays(*self, i as int + 1, n as int, ctx);
                            }
                            return Err(e);
                        },
                        Ok(found) => {
                            let inner_prefix = prefix.join(&scope.path);
                            let inner_constraints = with_option(constraints, scope.constraint);
                            let inner_middlewares = concat(middlewares, &found);
                            proof {
                                assert(context(
                                    inner_prefix,
                                    inner_constraints,
                                    inner_middlewares,
                                    true,
                                ) == body_context(*scope, ctx, found@));
                            }
                            match scope.router.flatten_into(
                                &inner_prefix,
                                &inner_constraints,
                                &inner_middlewares,
                                true,
                                out,
                            ) {
                                Err(e) => {
                                    proof {
                                        lemma_flatten_error_stays(
                                            *self,
                                            i as int + 1,
                                            n as int,
                                            ctx,
                                        );
                                    }
                                    return Err(e);
                                },
                                Ok(_) => {
                                    proof {
                                        let added = flatten_node(
                                            self.pipes@,
                                            self.nodes@[i as int],
                                            ctx,
                                        )->Ok_0;
                                        assert(entries_view(out@) =~= entries_view(old(out)@) + (
                                        done + added));
                                    }
                                },
                            }
                        },
                    }
                },
            }
            i = i + 1;
        }
        Ok(())
    }

    /// The flat table of this router: the entries of its routes and of those
    /// of its scopes, in the order of declaration, or the first error met.
    pub fn refs(&self) -> (r: Result<Vec<RouteRef>, BuildError>)
        ensures
            match r {
                Ok(entries) => flatten(*self) == Ok::<_, BuildErrorSpec>(entries_view(entries@)),
                Err(e) => flatten(*self) == Err::<Seq<EntrySpec>, _>(e@),
            },
    {
        let mut out: Vec<RouteRef> = Vec::new();
        let prefix = Path::new();
        let none: Vec<usize> = Vec::new();
        proof {
            assert(context(prefix, none, none, false) == root_context());
        }
        match self.flatten_into(&prefix, &none, &none, false, &mut out) {
            Ok(_) => {
                proof {
                    let added = flatten(*self)->Ok_0;
                    assert(entries_view(out@) =~= added);
                }
                Ok(out)
            },
            Err(e) => Err(e),
        }
    }
}

/// A pipe added to those of a router serves its own name, unless an earlier
/// pipe has that name, and leaves all other names as they were.
pub proof fn law_pipe_declared(pipes: Seq<Pipe>, pipe: Pipe, name: Seq<char>, i: int)
    requires
        0 <= i <= pipes.len(),
    ensures
        find_pipe(pipes.push(pipe), name, i) == match find_pipe(pipes, name, i) {
            Some(middlewares) => Some(middlewares),
            None => if pipe.name@ == name {
                Some(pipe.middlewares@)
            } else {
                None
            },
        },
    decreases pipes.len() - i,
{
    let more = pipes.push(pipe);
    if i < pipes.len() {
        assert(more[i] == pipes[i]);
        if pipes[i].name@ != name {
            law_pipe_declared(pipes, pipe, name, i + 1);
        }
    } else {
        assert(more[i] == pipe);
        assert(find_pipe(more, name, i + 1) is None);
    }
}

/// Whether `pipes` holds a pipe for each of the first `n` names.
pub open spec fn all_declared(pipes: Seq<Pipe>, through: Seq<String>, n: int) -> bool {
    forall|k: int| 0 <= k < n ==> find_pipe(pipes, (#[trigger] through[k])@, 0) is Some
}

/// Whether, among the first `n` nodes of `router` or below them, a scope is
/// threaded through a name for which the router that declares the scope
/// declares no pipe.
pub open spec fn unresolved_upto(router: Router, n: int) -> bool
    decreases router, n,
{
    if n <= 0 || n > router.nodes@.len() {
        false
    } else {
        unresolved_upto(router, n - 1) || unresolved_node(router.pipes@, router.nodes@[n - 1])
    }
}

/// Whether the node is a scope that is threaded through a name that is not
/// among `pipes`, or holds such a scope below it.
pub open spec fn unresolved_node(pipes: Seq<Pipe>, node: Node) -> bool
    decreases node, 0int,
{
    match node {
        Node::Route(_) => false,
        Node::Scope(scope) => !all_declared(pipes, scope.through@, scope.through@.len() as int)
            || unresolved_upto(scope.router, scope.router.nodes@.len() as int),
    }
}

/// The names of a scope resolve exactly where the router that declares the
/// scope declares a pipe for each of them.
pub proof fn law_resolve_iff_declared(pipes: Seq<Pipe>, through: Seq<String>, n: int)
    requires
        0 <= n <= through.len(),
    ensures
        resolve(pipes, through, n) is Ok <==> all_declared(pipes, through, n),
    decreases n,
{
    if n > 0 {
        law_resolve_iff_declared(pipes, through, n - 1);
        if all_declared(pipes, through, n) {
            assert(all_declared(pipes, through, n - 1));
            assert(find_pipe(pipes, through[n - 1]@, 0) is Some);
        }
        if resolve(pipes, through, n) is Ok {
            assert forall|k: int| 0 <= k < n implies find_pipe(
                pipes,
                (#[trigger] through[k])@,
                0,
            ) is Some by {
                if k < n - 1 {
                    assert(all_declared(pipes, through, n - 1));
                }
            }
        }
    }
}

/// Pipe visibility: a pipe serves only the scopes that are declared in the
/// router that declares the pipe. Where a scope anywhere in the tree is
/// threaded through a name that its own router does not declare, be the name
/// declared above it, beside it or below it, the tree has no table.
pub proof fn law_unresolved_pipe_fails(router: Router, n: int, ctx: Context)
    requires
        0 <= n <= router.nodes@.len(),
        unresolved_upto(router, n),
    ensures
        flatten_upto(router, n, ctx) is Err,
    decreases router, n,
{
    if unresolved_upto(router, n - 1) {
        law_unresolved_pipe_fails(router, n - 1, ctx);
    } else {
        let node = router.nodes@[n - 1];
        assert(unresolved_node(router.pipes@, node));
        match node {
            Node::Route(_) => {},
            Node::Scope(scope) => {
                let names = scope.through@;
                law_resolve_iff_declared(router.pipes@, names, names.len() as int);
                if all_declared(router.pipes@, names, names.len() as int) {
                    assert(unresolved_upto(scope.router, scope.router.nodes@.len() as int));
                    if !(ctx.in_scope && scope.router.pipes@.len() > 0) {
                        let found = resolve(router.pipes@, names, names.len() as int)->Ok_0;
                        law_unresolved_pipe_fails(
                            scope.router,
                            scope.router.nodes@.len() as int,
                            body_context(scope, ctx, found),
                        );
                    }
                }
                assert(flatten_node(router.pipes@, node, ctx) is Err);
            },
        }
        assert(flatten_upto(router, n, ctx) == join_entries(
            flatten_upto(router, n - 1, ctx),
            flatten_node(router.pipes@, node, ctx),
        ));
    }
}

/// Declaration order is table order: the table of the first `n` nodes is
/// the beginning of the table of the first `m`, for `n` up to `m`.
pub proof fn law_table_grows(router: Router, n: int, m: int, ctx: Context)
    requires
        0 <= n <= m <= router.nodes@.len(),
        flatten_upto(router, m, ctx) is Ok,
    ensures
        flatten_upto(router, n, ctx) is Ok,
        flatten_upto(router, n, ctx)->Ok_0.is_prefix_of(flatten_upto(router, m, ctx)->Ok_0),
    decreases m - n,
{
    if n < m {
        law_table_grows(router, n, m - 1, ctx);
        let shorter = flatten_upto(router, n, ctx)->Ok_0;
        let middle = flatten_upto(router, m - 1, ctx)->Ok_0;
        let longer = flatten_upto(router, m, ctx)->Ok_0;
        assert(middle.is_prefix_of(longer));
        assert(shorter.is_prefix_of(longer));
    }
}

/// A route that a router declares directly stands in the table behind
/// everything that was declared before it, with the path, the constraints
/// and the middleware of the scopes around it before its own.
pub proof fn law_route_entry(router: Router, i: int, ctx: Context)
    requires
        0 <= i < router.nodes@.len(),
        router.nodes@[i] is Route,
        flatten_upto(router, i + 1, ctx) is Ok,
    ensures
        flatten_upto(router, i, ctx) is Ok,
        flatten_upto(router, i + 1, ctx)->Ok_0 == flatten_upto(router, i, ctx)->Ok_0.push(
            entry_of(router.nodes@[i]->Route_0, ctx),
        ),
{
    let before = flatten_upto(router, i, ctx)->Ok_0;
    let node = router.nodes@[i];
    assert(flatten_node(router.pipes@, node, ctx) == Ok::<_, BuildErrorSpec>(
        seq![entry_of(node->Route_0, ctx)],
    ));
    assert(flatten_upto(router, i + 1, ctx) == join_entries(
        flatten_upto(router, i, ctx),
        flatten_node(router.pipes@, node, ctx),
    ));
    assert(before + seq![entry_of(node->Route_0, ctx)] =~= before.push(
        entry_of(node->Route_0, ctx),
    ));
}

} // verus!

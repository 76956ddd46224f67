//! Routes, and the pipes of middleware that requests pass through.
//!
//! Handlers, middleware and constraints are the application's own: the
//! router knows each by a number that the application gives it.

use vstd::prelude::*;
use vstd::string::*;
use crate::path::{Path, SegmentSpec};

verus! {

/// The request methods that a route can be restricted to.
#[derive(Clone, Copy, Debug, PartialEq, Eq, Structural)]
pub enum Method {
    Get,
    Post,
    Put,
    Patch,
    Delete,
    Head,
    Options,
    Trace,
    Connect,
}

/// A named list of middleware, in the order in which they wrap a request.
#[derive(Debug)]
pub struct Pipe {
    pub name: String,
    pub middlewares: Vec<usize>,
}

impl Pipe {
    /// The pipe of that name, with no middleware yet.
    pub fn new(name: &str) -> (pipe: Self)
        ensures
            pipe.name@ == name@,
            pipe.middlewares@ == Seq::<usize>::empty(),
    {
        Pipe { name: name.to_owned(), middlewares: Vec::new() }
    }

    /// The pipe with `middleware` added after those it has.
    pub fn add(self, middleware: usize) -> (pipe: Self)
        ensures
            pipe.name == self.name,
            pipe.middlewares@ == self.middlewares@.push(middleware),
    {
        let mut pipe = self;
        pipe.middlewares.push(middleware);
        pipe
    }
}

/// An endpoint: a path pattern, the methods it allows (none named means
/// all), a constraint on the request if there is one, and the handler.
#[derive(Debug)]
pub struct Route {
    pub path: Path,
    pub methods: Vec<Method>,
    pub constraint: Option<usize>,
    pub handler: usize,
}

impl Route {
    /// Whether this route holds just these values.
    pub open spec fn is(
        self,
        path: Seq<SegmentSpec>,
        methods: Seq<Method>,
        constraint: Option<usize>,
        handler: usize,
    ) -> bool {
        &&& self.path@ == path
        &&& self.methods@ == methods
        &&& self.constraint == constraint
        &&& self.handler == handler
    }

    /// The route at `path` that allows all methods.
    pub fn new(path: Path, handler: usize) -> (route: Self)
        ensures
            route.is(path@, Seq::empty(), None, handler),
    {
        Route { path, methods: Vec::new(), constraint: None, handler }
    }

    /// The route restricted to `methods`. With none named it allows all.
    pub fn methods(self, methods: &[Method]) -> (route: Self)
        ensures
            route.is(self.path@, methods@, self.constraint, self.handler),
    {
        let mut allowed: Vec<Method> = Vec::new();
        let mut i: usize = 0;
        while i < methods.len()
            invariant
                i <= methods@.len(),
                allowed@ == methods@.subrange(0, i as int),
            decreases methods@.len() - i,
        {
            allowed.push(methods[i]);
            proof {
                assert(allowed@ =~= methods@.subrange(0, i as int + 1));
            }
            i = i + 1;
        }
        proof {
            assert(methods@.subrange(0, methods@.len() as int) =~= methods@);
        }
        Route { path: self.path, methods: allowed, constraint: self.constraint, handler: self.handler }
    }

    /// The route that matches only where `constraint` holds of the request.
    pub fn constraint(self, constraint: usize) -> (route: Self)
        ensures
            route.is(self.path@, self.methods@, Some(constraint), self.handler),
    {
        Route {
            path: self.path,
            methods: self.methods,
            constraint: Some(constraint),
            handler: self.handler,
        }
    }

    /// The route with another handler.
    pub fn handler(self, handler: usize) -> (route: Self)
        ensures
            route.is(self.path@, self.methods@, self.constraint, handler),
    {
        Route { path: self.path, methods: self.methods, constraint: self.constraint, handler }
    }
}

} // verus!

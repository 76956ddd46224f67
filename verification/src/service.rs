//! The compiled table and the dispatcher.
//!
//! A request is given to the first entry, in the order of the table, that
//! allows its method, whose pattern matches its path, and all of whose
//! constraints hold. The application evaluates the constraints: the
//! dispatcher takes their verdicts, one for each constraint's number.

use vstd::prelude::*;
use crate::engine::regex_compiles;
use crate::error::{BuildError, BuildErrorSpec, PatternSyntaxError};
use crate::matcher::{captured, params_view, Matcher, Param};
use crate::pattern::pattern_regex;
use crate::route::Method;
use crate::router::{copy_of, entries_view, flatten, EntrySpec, RouteRef, Router};

verus! {

/// The entry that takes a request, with what the application needs to run
/// it: the parameters bound from the path, the constraints to test, the
/// middleware to wrap the handler in, outermost first, and the handler.
#[derive(Debug)]
pub struct RouteMatch {
    pub index: usize,
    pub params: Vec<Param>,
    pub constraints: Vec<usize>,
    pub middlewares: Vec<usize>,
    pub handler: usize,
}

/// Whether the entry allows the method: it names none, or names this one.
pub open spec fn method_allowed(entry: EntrySpec, method: Method) -> bool {
    entry.methods.len() == 0 || entry.methods.contains(method)
}

/// Whether the constraint of that number holds. One without a verdict does
/// not.
pub open spec fn verdict(verdicts: Seq<bool>, constraint: usize) -> bool {
    constraint < verdicts.len() && verdicts[constraint as int]
}

/// Whether all constraints of the entry hold.
pub open spec fn constraints_hold(entry: EntrySpec, verdicts: Seq<bool>) -> bool {
    forall|k: int| 0 <= k < entry.constraints.len() ==> verdict(verdicts, #[trigger] entry.constraints[k])
}

/// Whether the entry is a candidate for the request: it allows the method
/// and its pattern matches the path.
pub open spec fn is_candidate(entry: EntrySpec, method: Method, path: Seq<char>) -> bool {
    method_allowed(entry, method) && captured(entry.path, path) is Some
}

/// Whether the entry takes the request.
pub open spec fn accepts(
    entry: EntrySpec,
    method: Method,
    path: Seq<char>,
    verdicts: Seq<bool>,
) -> bool {
    is_candidate(entry, method, path) && constraints_hold(entry, verdicts)
}

/// The first candidate for the request from index `from` on.
pub open spec fn first_candidate(
    entries: Seq<EntrySpec>,
    method: Method,
    path: Seq<char>,
    from: int,
) -> Option<int>
    decreases entries.len() - from,
{
    if from < 0 || from >= entries.len() {
        None
    } else if is_candidate(entries[from], method, path) {
        Some(from)
    } else {
        first_candidate(entries, method, path, from + 1)
    }
}

/// The first entry from index `from` on that takes the request.
pub open spec fn first_match(
    entries: Seq<EntrySpec>,
    method: Method,
    path: Seq<char>,
    verdicts: Seq<bool>,
    from: int,
) -> Option<int>
    decreases entries.len() - from,
{
    if from < 0 || from >= entries.len() {
        None
    } else if accepts(entries[from], method, path, verdicts) {
        Some(from)
    } else {
        first_match(entries, method, path, verdicts, from + 1)
    }
}

/// Whether the expression of every entry's pattern is a regular expression.
pub open spec fn all_compile(entries: Seq<EntrySpec>) -> bool {
    forall|i: int| 0 <= i < entries.len() ==> regex_compiles(pattern_regex(#[trigger] entries[i].path))
}

/// The table that a router compiles into: its flat table, where flattening
/// succeeds and every pattern compiles.
pub open spec fn compiled(router: Router) -> Result<Seq<EntrySpec>, BuildErrorSpec> {
    match flatten(router) {
        Err(e) => Err(e),
        Ok(entries) => if all_compile(entries) {
            Ok(entries)
        } else {
            Err(BuildErrorSpec::Pattern(PatternSyntaxError::InvalidRegex))
        },
    }
}

/// Whether `m` describes entry `index` of the table for the path: it holds
/// the entry's constraints, middleware and handler, and the parameters that
/// the entry's pattern binds in the path.
pub open spec fn describes(m: RouteMatch, entries: Seq<EntrySpec>, index: int, path: Seq<char>) -> bool {
    &&& 0 <= index < entries.len()
    &&& m.index == index
    &&& m.constraints@ == entries[index].constraints
    &&& m.middlewares@ == entries[index].middlewares
    &&& m.handler == entries[index].handler
    &&& captured(entries[index].path, path) == Some(params_view(m.params@))
}

/// Whether `method` is among `methods`, or `methods` is empty.
pub fn allows(methods: &Vec<Method>, method: Method) -> (allowed: bool)
    ensures
        allowed == (methods@.len() == 0 || methods@.contains(method)),
{
    if methods.len() == 0 {
        return true;
    }
    let mut i: usize = 0;
    while i < methods.len()
        invariant
            i <= methods.len(),
            forall|k: int| 0 <= k < i ==> methods@[k] != method,
        decreases methods.len() - i,
    {
        if methods[i] == method {
            return true;
        }
        i = i + 1;
    }
    false
}

/// Whether all of `constraints` hold by `verdicts`.
pub fn all_hold(constraints: &Vec<usize>, verdicts: &[bool]) -> (hold: bool)
    ensures
        hold == (forall|k: int|
            0 <= k < constraints@.len() ==> verdict(verdicts@, #[trigger] constraints@[k])),
{
    let mut i: usize = 0;
    while i < constraints.len()
        invariant
            i <= constraints.len(),
            forall|k: int| 0 <= k < i ==> verdict(verdicts@, #[trigger] constraints@[k]),
        decreases constraints.len() - i,
    {
        let c = constraints[i];
        if c >= verdicts.len() || !verdicts[c] {
            return false;
        }
        i = i + 1;
    }
    true
}

/// The compiled table of a router.
pub struct Service {
    routes: Vec<RouteRef>,
    matchers: Vec<Matcher>,
}

impl View for Service {
    type V = Seq<EntrySpec>;

    /// The entries of the table, in order.
    closed spec fn view(&self) -> Seq<EntrySpec> {
        entries_view(self.routes@)
    }
}

impl Service {
    #[verifier::type_invariant]
    spec fn well_formed(&self) -> bool {
        &&& self.matchers@.len() == self.routes@.len()
        &&& forall|i: int|
            0 <= i < self.routes@.len() ==> (#[trigger] self.matchers@[i])@ == self.routes@[i].path@
    }

    /// Compiles the pattern of every entry. This fails exactly where the
    /// expression of some pattern is not a regular expression.
    pub fn new(routes: Vec<RouteRef>) -> (r: Result<Self, BuildError>)
        ensures
            match r {
                Ok(service) => service@ == entries_view(routes@) && all_compile(service@),
                Err(e) => e@ == BuildErrorSpec::Pattern(PatternSyntaxError::InvalidRegex)
                    && !all_compile(entries_view(routes@)),
            },
    {
        let mut matchers: Vec<Matcher> = Vec::new();
        let mut i: usize = 0;
        while i < routes.len()
            invariant
                i <= routes.len(),
                matchers@.len() == i,
                forall|k: int| 0 <= k < i ==> (#[trigger] matchers@[k])@ == routes@[k].path@,
                forall|k: int|
                    0 <= k < i ==> regex_compiles(
                        pattern_regex(#[trigger] entries_view(routes@)[k].path),
                    ),
            decreases routes.len() - i,
        {
            match Matcher::new(routes[i].path.clone()) {
                Ok(m) => {
                    matchers.push(m);
                },
                Err(_) => {
                    proof {
                        assert(!regex_compiles(pattern_regex(entries_view(routes@)[i as int].path)));
                    }
                    return Err(BuildError::Pattern(PatternSyntaxError::InvalidRegex));
                },
            }
            i = i + 1;
        }
        Ok(Service { routes, matchers })
    }

    /// The number of entries.
    pub fn len(&self) -> (n: usize)
        ensures
            n == self@.len(),
    {
        self.routes.len()
    }

    /// The entry at `index`.
    pub fn entry(&self, index: usize) -> (entry: &RouteRef)
        requires
            index < self@.len(),
        ensures
            entry@ == self@[index as int],
    {
        &self.routes[index]
    }

    /// The first entry from `from` on that allows the method and whose
    /// pattern matches the path, whatever its constraints.
    pub fn candidate(&self, method: Method, path: &str, from: usize) -> (r: Option<RouteMatch>)
        ensures
            match r {
                Some(m) => first_candidate(self@, method, path@, from as int) == Some(
                    m.index as int,
                ) && from <= m.index && describes(m, self@, m.index as int, path@),
                None => first_candidate(self@, method, path@, from as int) is None,
            },
    {
        proof {
            use_type_invariant(self);
        }
        let n = self.routes.len();
        let mut i: usize = from;
        while i < n
            invariant
                from <= i,
                n == self.routes@.len(),
                self.matchers@.len() == self.routes@.len(),
                forall|k: int|
                    0 <= k < self.routes@.len() ==> (#[trigger] self.matchers@[k])@
                        == self.routes@[k].path@,
                first_candidate(self@, method, path@, from as int) == first_candidate(
                    self@,
                    method,
                    path@,
                    i as int,
                ),
            decreases n - i,
        {
            let route = &self.routes[i];
            proof {
                assert(self@[i as int] == route@);
            }
            if allows(&route.methods, method) {
                match self.matchers[i].captures(path) {
                    Some(params) => {
                        return Some(
                            RouteMatch {
                                index: i,
                                params,
                                constraints: copy_of(&route.constraints),
                                middlewares: copy_of(&route.middlewares),
                                handler: route.handler,
                            },
                        );
                    },
                    None => {},
                }
            }
            i = i + 1;
        }
        None
    }

    /// The first entry that takes the request, where `verdicts` holds for
    /// each constraint, by its number, whether it holds of the request.
    pub fn dispatch(&self, method: Method, path: &str, verdicts: &[bool]) -> (r: Option<
        RouteMatch,
    >)
        ensures
            match r {
                Some(m) => first_match(self@, method, path@, verdicts@, 0) == Some(m.index as int)
                    && describes(m, self@, m.index as int, path@),
                None => first_match(self@, method, path@, verdicts@, 0) is None,
            },
    {
        let n = self.len();
        let mut from: usize = 0;
        loop
            invariant
                n == self@.len(),
                first_match(self@, method, path@, verdicts@, 0) == first_match(
                    self@,
                    method,
                    path@,
                    verdicts@,
                    from as int,
                ),
            decreases self@.len() - from,
        {
            match self.candidate(method, path, from) {
                None => {
                    proof {
                        lemma_no_candidate_no_match(self@, method, path@, verdicts@, from as int);
                    }
                    return None;
                },
                Some(m) => {
                    proof {
                        lemma_match_from_candidate(
                            self@,
                            method,
                            path@,
                            verdicts@,
                            from as int,
                            m.index as int,
                        );
                    }
                    if all_hold(&m.constraints, verdicts) {
                        return Some(m);
                    }
                    from = m.index + 1;
                },
            }
        }
    }
}

/// Where there is no candidate there is no match.
pub proof fn lemma_no_candidate_no_match(
    entries: Seq<EntrySpec>,
    method: Method,
    path: Seq<char>,
    verdicts: Seq<bool>,
    from: int,
)
    requires
        first_candidate(entries, method, path, from) is None,
    ensures
        first_match(entries, method, path, verdicts, from) is None,
    decreases entries.len() - from,
{
    if 0 <= from < entries.len() {
        lemma_no_candidate_no_match(entries, method, path, verdicts, from + 1);
    }
}

/// The first match from `from` on is the first match from the first
/// candidate on.
pub proof fn lemma_match_from_candidate(
    entries: Seq<EntrySpec>,
    method: Method,
    path: Seq<char>,
    verdicts: Seq<bool>,
    from: int,
    at: int,
)
    requires
        first_candidate(entries, method, path, from) == Some(at),
    ensures
        from <= at < entries.len(),
        is_candidate(entries[at], method, path),
        first_match(entries, method, path, verdicts, from) == first_match(
            entries,
            method,
            path,
            verdicts,
            at,
        ),
    decreases entries.len() - from,
{
    if 0 <= from < entries.len() && !is_candidate(entries[from], method, path) {
        lemma_match_from_candidate(entries, method, path, verdicts, from + 1, at);
    }
}

/// Compiles a router into its table: flattens it and compiles the pattern
/// of every entry.
pub fn service(router: &Router) -> (r: Result<Service, BuildError>)
    ensures
        match r {
            Ok(service) => compiled(*router) == Ok::<_, BuildErrorSpec>(service@),
            Err(e) => compiled(*router) == Err::<Seq<EntrySpec>, _>(e@),
        },
{
    match router.refs() {
        Err(e) => Err(e),
        Ok(routes) => Service::new(routes),
    }
}

/// The first match from `from` on is an entry that takes the request, and
/// no entry between `from` and it does. Where there is none, no entry from
/// `from` on takes the request.
pub proof fn law_first_match_is_least(
    entries: Seq<EntrySpec>,
    method: Method,
    path: Seq<char>,
    verdicts: Seq<bool>,
    from: int,
)
    requires
        0 <= from,
    ensures
        match first_match(entries, method, path, verdicts, from) {
            Some(k) => from <= k < entries.len() && accepts(entries[k], method, path, verdicts)
                && forall|j: int|
                from <= j < k ==> !accepts(#[trigger] entries[j], method, path, verdicts),
            None => forall|j: int|
                from <= j < entries.len() ==> !accepts(
                    #[trigger] entries[j],
                    method,
                    path,
                    verdicts,
                ),
        },
    decreases entries.len() - from,
{
    if from < entries.len() && !accepts(entries[from], method, path, verdicts) {
        law_first_match_is_least(entries, method, path, verdicts, from + 1);
    }
}

/// First match wins: where two entries take a request, the one that is
/// selected stands at or before the earlier of them, and so is never the
/// later one.
pub proof fn law_first_match_wins(
    entries: Seq<EntrySpec>,
    method: Method,
    path: Seq<char>,
    verdicts: Seq<bool>,
    earlier: int,
    later: int,
)
    requires
        0 <= earlier < later < entries.len(),
        accepts(entries[earlier], method, path, verdicts),
        accepts(entries[later], method, path, verdicts),
    ensures
        first_match(entries, method, path, verdicts, 0) matches Some(k) && k <= earlier,
        first_match(entries, method, path, verdicts, 0) != Some(later),
{
    law_first_match_is_least(entries, method, path, verdicts, 0);
}

/// Method mismatch: an entry restricted to methods that the request's is
/// not among does not take the request, whatever its path. It is never the
/// one selected, and the search goes on behind it as if it were not there.
pub proof fn law_method_mismatch(
    entries: Seq<EntrySpec>,
    method: Method,
    path: Seq<char>,
    verdicts: Seq<bool>,
    i: int,
)
    requires
        0 <= i < entries.len(),
        entries[i].methods.len() > 0,
        !entries[i].methods.contains(method),
    ensures
        !accepts(entries[i], method, path, verdicts),
        first_match(entries, method, path, verdicts, 0) != Some(i),
        first_match(entries, method, path, verdicts, i) == first_match(
            entries,
            method,
            path,
            verdicts,
            i + 1,
        ),
{
    law_first_match_is_least(entries, method, path, verdicts, 0);
}

/// A table in which nothing takes the request gives no match, and one in
/// which something does gives a match.
pub proof fn law_no_match_iff_none_accepts(
    entries: Seq<EntrySpec>,
    method: Method,
    path: Seq<char>,
    verdicts: Seq<bool>,
)
    ensures
        first_match(entries, method, path, verdicts, 0) is None <==> forall|j: int|
            0 <= j < entries.len() ==> !accepts(#[trigger] entries[j], method, path, verdicts),
{
    law_first_match_is_least(entries, method, path, verdicts, 0);
}

} // verus!

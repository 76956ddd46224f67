//! The failures of the router: those of the build phase, which stop the
//! application before it serves, and those of a single request.

use vstd::prelude::*;
use vstd::string::*;

verus! {

/// Why a path pattern string is not a pattern.
#[derive(Clone, Copy, Debug, PartialEq, Eq, Structural)]
pub enum PatternSyntaxError {
    /// A dynamic segment has no name.
    EmptyName,
    /// The name of a dynamic segment begins with a digit.
    InvalidName,
    /// A dynamic segment is opened and never closed.
    UnclosedSegment,
    /// A character stands where the grammar has no use for it: after the
    /// closing brace of a dynamic segment, after `?` or `*`, or after a name.
    UnexpectedCharacter,
    /// The type annotation names no known kind, and no pattern is given.
    UnknownType,
    /// The explicit pattern of a dynamic segment is not a regular expression.
    InvalidRegex,
}

/// Why a router cannot be compiled into a table. Each of these stops the
/// application before it serves.
#[derive(Clone, Debug, PartialEq, Eq)]
pub enum BuildError {
    /// A scope is threaded through a pipe that is not declared in the router
    /// in which the scope is declared.
    PipeNotFound(String),
    /// The router already declares a pipe of that name.
    DuplicatePipe(String),
    /// Pipes are declared in the body of a scope that is itself inside the
    /// body of a scope.
    PipeInScope,
    /// The path of a route is no pattern.
    Pattern(PatternSyntaxError),
}

/// The model of a build error.
pub enum BuildErrorSpec {
    PipeNotFound(Seq<char>),
    DuplicatePipe(Seq<char>),
    PipeInScope,
    Pattern(PatternSyntaxError),
}

impl View for BuildError {
    type V = BuildErrorSpec;

    open spec fn view(&self) -> BuildErrorSpec {
        match self {
            BuildError::PipeNotFound(name) => BuildErrorSpec::PipeNotFound(name@),
            BuildError::DuplicatePipe(name) => BuildErrorSpec::DuplicatePipe(name@),
            BuildError::PipeInScope => BuildErrorSpec::PipeInScope,
            BuildError::Pattern(e) => BuildErrorSpec::Pattern(*e),
        }
    }
}

/// What the message of a build error says.
pub open spec fn message_of(e: BuildErrorSpec) -> Seq<char> {
    match e {
        BuildErrorSpec::PipeNotFound(name) => "can't find pipe with name `"@ + name + "`"@,
        BuildErrorSpec::DuplicatePipe(name) => "pipe with name `"@ + name
            + "` is already defined"@,
        BuildErrorSpec::PipeInScope => "Pipes are not allowed to be defined in scopes"@,
        BuildErrorSpec::Pattern(_) => "invalid path pattern"@,
    }
}

impl BuildError {
    /// The message of this error.
    pub fn message(&self) -> (text: String)
        ensures
            text@ == message_of(self@),
    {
        match self {
            BuildError::PipeNotFound(name) => {
                let mut text = "can't find pipe with name `".to_owned();
                text.append(name.as_str());
                text.append("`");
                text
            },
            BuildError::DuplicatePipe(name) => {
                let mut text = "pipe with name `".to_owned();
                text.append(name.as_str());
                text.append("` is already defined");
                text
            },
            BuildError::PipeInScope => "Pipes are not allowed to be defined in scopes".to_owned(),
            BuildError::Pattern(_) => "invalid path pattern".to_owned(),
        }
    }
}

/// Why a handler or a middleware failed.
#[derive(Clone, Copy, Debug, PartialEq, Eq, Structural)]
pub enum HandlerError {
    /// The request could not be parsed.
    Parse,
    /// Anything else.
    Other,
}

/// Why a request has no regular response.
#[derive(Clone, Copy, Debug, PartialEq, Eq, Structural)]
pub enum RequestError {
    /// No entry of the table takes the request.
    NoMatch,
    /// The handler or a middleware failed.
    Handler(HandlerError),
}

/// The status that an error is answered with: not found, unprocessable
/// entity, or internal server error.
pub open spec fn status_of(e: RequestError) -> u16 {
    match e {
        RequestError::NoMatch => 404,
        RequestError::Handler(HandlerError::Parse) => 422,
        RequestError::Handler(HandlerError::Other) => 500,
    }
}

impl RequestError {
    /// The status that this error is answered with.
    pub fn status(&self) -> (code: u16)
        ensures
            code == status_of(*self),
    {
        match self {
            RequestError::NoMatch => 404,
            RequestError::Handler(HandlerError::Parse) => 422,
            RequestError::Handler(HandlerError::Other) => 500,
        }
    }
}

} // verus!

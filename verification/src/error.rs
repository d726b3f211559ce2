use vstd::prelude::*;
use vstd::string::*;
use crate::value::Shape;

verus! {

/// A span of source text: the file it lies in and its two offsets.
#[derive(Debug, PartialEq, Eq)]
pub struct Location {
    pub path: String,
    pub begin: usize,
    pub end: usize,
}

/// The mathematical form of a location.
pub struct LocationView {
    pub path: Seq<char>,
    pub begin: usize,
    pub end: usize,
}

impl View for Location {
    type V = LocationView;

    open spec fn view(&self) -> LocationView {
        LocationView { path: self.path@, begin: self.begin, end: self.end }
    }
}

impl Clone for Location {
    fn clone(&self) -> (r: Self)
        ensures
            r@ == self@,
    {
        Location { path: self.path.clone(), begin: self.begin, end: self.end }
    }
}

/// The view of an optional location.
pub open spec fn at_view(at: Option<Location>) -> Option<LocationView> {
    match at {
        Some(l) => Some(l@),
        None => None,
    }
}

/// Copies an optional location.
pub fn clone_at(at: &Option<Location>) -> (r: Option<Location>)
    ensures
        at_view(r) == at_view(*at),
{
    match at {
        Some(l) => Some(l.clone()),
        None => None,
    }
}

/// What went wrong.
#[derive(Clone, Copy, Debug, PartialEq, Eq, Structural)]
pub enum ErrorKind {
    /// A declared parameter without a default was given no argument.
    MissingArgument,
    /// A parameter was bound a second time.
    DuplicateArgument,
    /// An argument matched no declared parameter.
    UnexpectedArgument,
    /// A value has none of the shapes that were asked for.
    TypeMismatch,
    /// No external variable is registered under the name.
    UndefinedExternalVariable,
    /// A cell was forced while it was being forced.
    CyclicDependency,
    /// A failure raised while a cell was forced, or by a native handler.
    Runtime,
}

/// An error: its kind, a message, and the call site where one is known.
#[derive(Debug, PartialEq, Eq)]
pub struct Error {
    pub kind: ErrorKind,
    pub message: String,
    pub location: Option<Location>,
}

/// The mathematical form of an error.
pub struct ErrorView {
    pub kind: ErrorKind,
    pub message: Seq<char>,
    pub location: Option<LocationView>,
}

impl View for Error {
    type V = ErrorView;

    open spec fn view(&self) -> ErrorView {
        ErrorView { kind: self.kind, message: self.message@, location: at_view(self.location) }
    }
}

impl Clone for Error {
    fn clone(&self) -> (r: Self)
        ensures
            r@ == self@,
    {
        Error { kind: self.kind, message: self.message.clone(), location: clone_at(&self.location) }
    }
}

/// The view of a result whose error is an [`Error`].
pub open spec fn lift<T>(r: Result<T, Error>) -> Result<T, ErrorView> {
    match r {
        Ok(v) => Ok(v),
        Err(e) => Err(e@),
    }
}

/// The word by which a shape is named in messages.
pub open spec fn shape_name(shape: Shape) -> Seq<char> {
    match shape {
        Shape::Null => "null"@,
        Shape::Bool => "boolean"@,
        Shape::Number => "number"@,
        Shape::String => "string"@,
        Shape::Array => "array"@,
        Shape::Object => "object"@,
        Shape::Function => "function"@,
    }
}

/// The names of `shapes[from..]`, each but the first of them after a comma.
pub open spec fn shape_list(shapes: Seq<Shape>, from: int) -> Seq<char>
    decreases shapes.len() - from,
{
    if from < 0 || from >= shapes.len() {
        Seq::empty()
    } else if from == 0 {
        shape_name(shapes[from]) + shape_list(shapes, from + 1)
    } else {
        ", "@ + shape_name(shapes[from]) + shape_list(shapes, from + 1)
    }
}

/// The error for a parameter that was given no argument and has no default.
pub open spec fn missing_argument(name: Seq<char>) -> ErrorView {
    ErrorView {
        kind: ErrorKind::MissingArgument,
        message: "missing argument: "@ + name,
        location: None,
    }
}

/// The error for the argument written at `at` that binds the parameter
/// `name` a second time.
pub open spec fn duplicate_argument(name: Seq<char>, at: Option<LocationView>) -> ErrorView {
    ErrorView {
        kind: ErrorKind::DuplicateArgument,
        message: "argument bound twice: "@ + name,
        location: at,
    }
}

/// The error for the argument written at `at` under a name that no
/// parameter has.
pub open spec fn unexpected_named(name: Seq<char>, at: Option<LocationView>) -> ErrorView {
    ErrorView {
        kind: ErrorKind::UnexpectedArgument,
        message: "no parameter is named: "@ + name,
        location: at,
    }
}

/// The error for the positional argument written at `at` for which no
/// parameter is left.
pub open spec fn unexpected_positional(at: Option<LocationView>) -> ErrorView {
    ErrorView {
        kind: ErrorKind::UnexpectedArgument,
        message: "too many positional arguments"@,
        location: at,
    }
}

/// The error for a value of the shape `actual` where one of the shapes
/// `expected` was asked for: the message names them all, in their order.
pub open spec fn type_mismatch(expected: Seq<Shape>, actual: Shape) -> ErrorView {
    ErrorView {
        kind: ErrorKind::TypeMismatch,
        message: "expected "@ + shape_list(expected, 0) + ", got "@ + shape_name(actual),
        location: None,
    }
}

/// The error for an external variable that nobody registered.
pub open spec fn undefined_external_variable(name: Seq<char>) -> ErrorView {
    ErrorView {
        kind: ErrorKind::UndefinedExternalVariable,
        message: "undefined external variable: "@ + name,
        location: None,
    }
}

/// The error for a cell that is forced while it is being forced.
pub open spec fn cyclic_dependency() -> ErrorView {
    ErrorView {
        kind: ErrorKind::CyclicDependency,
        message: "a value depends on itself"@,
        location: None,
    }
}

/// A failure with the given message.
pub open spec fn runtime(message: Seq<char>) -> ErrorView {
    ErrorView { kind: ErrorKind::Runtime, message, location: None }
}

/// The failure of forcing a handle that points at no cell.
pub open spec fn no_such_cell() -> ErrorView {
    runtime("no such cell"@)
}

/// The failure of looking up a name that the scope does not bind.
pub open spec fn unbound_identifier(name: Seq<char>) -> ErrorView {
    runtime("unbound identifier: "@ + name)
}

/// The name of a shape.
pub fn name_of_shape(shape: Shape) -> (r: &'static str)
    ensures
        r@ == shape_name(shape),
{
    match shape {
        Shape::Null => "null",
        Shape::Bool => "boolean",
        Shape::Number => "number",
        Shape::String => "string",
        Shape::Array => "array",
        Shape::Object => "object",
        Shape::Function => "function",
    }
}

impl Error {
    /// See [`missing_argument`].
    pub fn missing_argument(name: &String) -> (r: Error)
        ensures
            r@ == missing_argument(name@),
    {
        let mut message = String::from_str("missing argument: ");
        message.append(name.as_str());
        Error { kind: ErrorKind::MissingArgument, message, location: None }
    }

    /// See [`duplicate_argument`].
    pub fn duplicate_argument(name: &String, at: &Option<Location>) -> (r: Error)
        ensures
            r@ == duplicate_argument(name@, at_view(*at)),
    {
        let mut message = String::from_str("argument bound twice: ");
        message.append(name.as_str());
        Error { kind: ErrorKind::DuplicateArgument, message, location: clone_at(at) }
    }

    /// See [`unexpected_named`].
    pub fn unexpected_named(name: &String, at: &Option<Location>) -> (r: Error)
        ensures
            r@ == unexpected_named(name@, at_view(*at)),
    {
        let mut message = String::from_str("no parameter is named: ");
        message.append(name.as_str());
        Error { kind: ErrorKind::UnexpectedArgument, message, location: clone_at(at) }
    }

    /// See [`unexpected_positional`].
    pub fn unexpected_positional(at: &Option<Location>) -> (r: Error)
        ensures
            r@ == unexpected_positional(at_view(*at)),
    {
        Error {
            kind: ErrorKind::UnexpectedArgument,
            message: String::from_str("too many positional arguments"),
            location: clone_at(at),
        }
    }

    /// See [`type_mismatch`].
    pub fn type_mismatch(expected: &Vec<Shape>, actual: Shape) -> (r: Error)
        ensures
            r@ == type_mismatch(expected@, actual),
    {
        let mut listed = String::new();
        let mut i: usize = expected.len();
        while i > 0
            invariant
                i <= expected.len(),
                listed@ == shape_list(expected@, i as int),
            decreases i,
        {
            i -= 1;
            let mut item = String::new();
            if i > 0 {
                item.append(", ");
            }
            item.append(name_of_shape(expected[i]));
            item.append(listed.as_str());
            proof {
                assert(item@ =~= shape_list(expected@, i as int));
            }
            listed = item;
        }
        let mut message = String::from_str("expected ");
        message.append(listed.as_str());
        message.append(", got ");
        message.append(name_of_shape(actual));
        Error { kind: ErrorKind::TypeMismatch, message, location: None }
    }

    /// See [`undefined_external_variable`].
    pub fn undefined_external_variable(name: &String) -> (r: Error)
        ensures
            r@ == undefined_external_variable(name@),
    {
        let mut message = String::from_str("undefined external variable: ");
        message.append(name.as_str());
        Error { kind: ErrorKind::UndefinedExternalVariable, message, location: None }
    }

    /// See [`cyclic_dependency`].
    pub fn cyclic_dependency() -> (r: Error)
        ensures
            r@ == cyclic_dependency(),
    {
        Error {
            kind: ErrorKind::CyclicDependency,
            message: String::from_str("a value depends on itself"),
            location: None,
        }
    }

    /// See [`runtime`].
    pub fn runtime(message: &str) -> (r: Error)
        ensures
            r@ == runtime(message@),
    {
        Error { kind: ErrorKind::Runtime, message: String::from_str(message), location: None }
    }

    /// See [`no_such_cell`].
    pub fn no_such_cell() -> (r: Error)
        ensures
            r@ == no_such_cell(),
    {
        Error::runtime("no such cell")
    }

    /// See [`unbound_identifier`].
    pub fn unbound_identifier(name: &String) -> (r: Error)
        ensures
            r@ == unbound_identifier(name@),
    {
        let mut message = String::from_str("unbound identifier: ");
        message.append(name.as_str());
        Error { kind: ErrorKind::Runtime, message, location: None }
    }

    /// The same error, reported at `at` where it had no call site yet.
    pub fn located(self, at: &Option<Location>) -> (r: Error)
        ensures
            r@ == located(self@, at_view(*at)),
    {
        match self.location {
            Some(_) => self,
            None => Error { kind: self.kind, message: self.message, location: clone_at(at) },
        }
    }
}

/// The error `e`, reported at `at` where it had no call site yet.
pub open spec fn located(e: ErrorView, at: Option<LocationView>) -> ErrorView {
    match e.location {
        Some(_) => e,
        None => ErrorView { kind: e.kind, message: e.message, location: at },
    }
}

} // verus!

use vstd::prelude::*;
use vstd::string::*;
use crate::equality::{compare_from, equals, items_equal};
use crate::error::{
    at_view, lift, type_mismatch, undefined_external_variable, Error, ErrorView, Location,
    LocationView,
};
use crate::names::{find, first_index, names_of};
use crate::settings::Settings;
use crate::state::{
    force_spec, lookup, outcome, resolve, Forced, HeapView, State, TraceLine,
    TraceLineView,
};
use crate::typed::{measurable_view, text_or_array_view, Either2, Either4};
use crate::value::{
    clone_params, lemma_view_arr, params_view, vals_view, Field, FieldView, FuncVal, FuncView,
    Shape, Thunk, Val, ValView,
};

verus! {

/// The length of a string in characters, of an array in items, of an object
/// in fields, of a function in declared parameters.
pub open spec fn length_spec(
    x: Either4<Seq<char>, Seq<ValView>, Seq<FieldView>, FuncView>,
) -> nat {
    match x {
        Either4::A(text) => text.len(),
        Either4::B(items) => items.len(),
        Either4::C(fields) => fields.len(),
        Either4::D(f) => f.params.len(),
    }
}

/// The length of a string, an array, an object or a function.
pub fn builtin_length(x: Either4<String, Vec<Val>, Vec<Field>, FuncVal>) -> (r: Result<
    usize,
    Error,
>)
    ensures
        r matches Ok(n) && n == length_spec(measurable_view(x)),
{
    Ok(
        match x {
            Either4::A(text) => text.as_str().unicode_len(),
            Either4::B(items) => items.len(),
            Either4::C(fields) => fields.len(),
            Either4::D(f) => f.params.len(),
        },
    )
}

/// Looking up the external variable `name`: an unregistered name is an
/// error and changes nothing; a registered one forces its cell.
pub open spec fn ext_var_spec(this: &Settings, h: HeapView, name: Seq<char>) -> Forced {
    match resolve(this.ext_vars_view(), name) {
        None => Forced { heap: h, result: Err(undefined_external_variable(name)) },
        Some(t) => force_spec(h, t),
    }
}

/// The value of the external variable `x`.
pub fn builtin_ext_var(this: &Settings, s: &mut State, x: String) -> (r: Result<Val, Error>)
    ensures
        ext_var_spec(this, old(s).heap(), x@) == (Forced {
            heap: final(s).heap(),
            result: outcome(r),
        }),
{
    match lookup(&this.ext_vars, &x) {
        None => Err(Error::undefined_external_variable(&x)),
        Some(t) => s.force(t),
    }
}

/// Looking up the native function `name`: null where none is registered,
/// else a function of that name with the parameters that were declared.
pub open spec fn native_spec(this: &Settings, name: Seq<char>) -> ValView {
    match first_index(names_of(this.natives@), name, 0) {
        None => ValView::Null,
        Some(i) => ValView::Func(
            FuncView { name, params: params_view(this.natives@[i].callback.params@) },
        ),
    }
}

/// The native function registered under `name`, as a value.
pub fn builtin_native(this: &Settings, name: String) -> (r: Result<Val, Error>)
    ensures
        r matches Ok(v) && v@ == native_spec(this, name@),
{
    match find(&this.natives, &name) {
        None => Ok(Val::Null),
        Some(i) => {
            let params = clone_params(&this.natives[i].callback.params);
            Ok(Val::Func(FuncVal { name, params }))
        },
    }
}

/// Tracing `message` at `loc` and then forcing `rest`: the line is in the
/// sink before anything that forcing `rest` does.
pub open spec fn trace_spec(
    h: HeapView,
    loc: Option<LocationView>,
    message: Seq<char>,
    rest: Thunk,
) -> Forced {
    force_spec(
        HeapView { cells: h.cells, trace: h.trace.push(TraceLineView { at: loc, message }) },
        rest,
    )
}

/// Writes a trace line, then forces `rest` and returns what it gives.
pub fn builtin_trace(s: &mut State, loc: Option<Location>, str: String, rest: Thunk) -> (r: Result<
    Val,
    Error,
>)
    ensures
        trace_spec(old(s).heap(), at_view(loc), str@, rest) == (Forced {
            heap: final(s).heap(),
            result: outcome(r),
        }),
{
    s.trace.push(TraceLine { at: loc, message: str });
    assert(s.heap().trace =~= old(s).heap().trace.push(
        TraceLineView { at: at_view(loc), message: str@ },
    ));
    s.force(rest)
}

/// The shape of a string or an array.
pub open spec fn shape_of_either(x: Either2<Seq<char>, Seq<ValView>>) -> Shape {
    match x {
        Either2::A(_) => Shape::String,
        Either2::B(_) => Shape::Array,
    }
}

/// The error for a string and an array where two of a kind were asked for:
/// the shape of the first was expected of the second.
pub open spec fn not_of_a_kind(
    a: Either2<Seq<char>, Seq<ValView>>,
    b: Either2<Seq<char>, Seq<ValView>>,
) -> ErrorView {
    type_mismatch(seq![shape_of_either(a)], shape_of_either(b))
}

/// Whether `a` starts with `b`.
///
/// A string starts with its prefixes. An array starts with `b` where `b` is
/// no longer and its items equal the first items of `a`, compared from the
/// first on, up to the first pair that is unequal or cannot be compared. A
/// string and an array are not of a kind.
pub open spec fn starts_with_spec(
    a: Either2<Seq<char>, Seq<ValView>>,
    b: Either2<Seq<char>, Seq<ValView>>,
) -> Result<bool, ErrorView> {
    match (a, b) {
        (Either2::A(text), Either2::A(needle)) => Ok(needle.is_prefix_of(text)),
        (Either2::B(items), Either2::B(needle)) => if needle.len() > items.len() {
            Ok(false)
        } else {
            items_equal(items.subrange(0, needle.len() as int), needle, 0)
        },
        _ => Err(not_of_a_kind(a, b)),
    }
}

/// Whether `a` ends with `b`: as [`starts_with_spec`], with suffixes and the
/// last items of `a`.
pub open spec fn ends_with_spec(
    a: Either2<Seq<char>, Seq<ValView>>,
    b: Either2<Seq<char>, Seq<ValView>>,
) -> Result<bool, ErrorView> {
    match (a, b) {
        (Either2::A(text), Either2::A(needle)) => Ok(needle.is_suffix_of(text)),
        (Either2::B(items), Either2::B(needle)) => if needle.len() > items.len() {
            Ok(false)
        } else {
            items_equal(
                items.subrange(items.len() - needle.len(), items.len() as int),
                needle,
                0,
            )
        },
        _ => Err(not_of_a_kind(a, b)),
    }
}

/// `str::starts_with` with a string slice as the pattern: whether the
/// characters of `needle` are the first characters of `text`.
#[verifier::external_body]
fn text_starts_with(text: &str, needle: &str) -> (r: bool)
    ensures
        r == needle@.is_prefix_of(text@),
{
    text.starts_with(needle)
}

/// `str::ends_with` with a string slice as the pattern: whether the
/// characters of `needle` are the last characters of `text`.
#[verifier::external_body]
fn text_ends_with(text: &str, needle: &str) -> (r: bool)
    ensures
        r == needle@.is_suffix_of(text@),
{
    text.ends_with(needle)
}

/// The error for a string and an array where two of a kind were asked for.
fn of_different_kinds(first: Shape, second: Shape) -> (r: Error)
    ensures
        r@ == type_mismatch(seq![first], second),
{
    let expected = vec![first];
    assert(expected@ =~= seq![first]);
    Error::type_mismatch(&expected, second)
}

/// Whether `a` starts with `b`.
pub fn builtin_starts_with(a: Either2<String, Vec<Val>>, b: Either2<String, Vec<Val>>) -> (r:
    Result<bool, Error>)
    ensures
        lift(r) == starts_with_spec(text_or_array_view(a), text_or_array_view(b)),
{
    match a {
        Either2::A(a) => match b {
            Either2::A(b) => Ok(text_starts_with(a.as_str(), b.as_str())),
            Either2::B(_) => Err(of_different_kinds(Shape::String, Shape::Array)),
        },
        Either2::B(a) => match b {
            Either2::B(b) => {
                if b.len() > a.len() {
                    Ok(false)
                } else if b.len() == a.len() {
                    proof {
                        lemma_view_arr(a);
                        lemma_view_arr(b);
                        assert(vals_view(a@).subrange(0, b@.len() as int) =~= vals_view(a@));
                    }
                    equals(&Val::Arr(a), &Val::Arr(b))
                } else {
                    compare_from(&a, 0, &b)
                }
            },
            Either2::A(_) => Err(of_different_kinds(Shape::Array, Shape::String)),
        },
    }
}

/// Whether `a` ends with `b`.
pub fn builtin_ends_with(a: Either2<String, Vec<Val>>, b: Either2<String, Vec<Val>>) -> (r: Result<
    bool,
    Error,
>)
    ensures
        lift(r) == ends_with_spec(text_or_array_view(a), text_or_array_view(b)),
{
    match a {
        Either2::A(a) => match b {
            Either2::A(b) => Ok(text_ends_with(a.as_str(), b.as_str())),
            Either2::B(_) => Err(of_different_kinds(Shape::String, Shape::Array)),
        },
        Either2::B(a) => match b {
            Either2::B(b) => {
                if b.len() > a.len() {
                    Ok(false)
                } else if b.len() == a.len() {
                    proof {
                        lemma_view_arr(a);
                        lemma_view_arr(b);
                        assert(vals_view(a@).subrange(0, a@.len() as int) =~= vals_view(a@));
                    }
                    equals(&Val::Arr(a), &Val::Arr(b))
                } else {
                    let a_len = a.len();
                    compare_from(&a, a_len - b.len(), &b)
                }
            },
            Either2::A(_) => Err(of_different_kinds(Shape::Array, Shape::String)),
        },
    }
}

} // verus!

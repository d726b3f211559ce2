use vstd::prelude::*;
use vstd::string::*;
use crate::binder::{bind, bind_spec, bounds_view, ArgsView, Bound, BoundView, CallArgs};
use crate::error::{
    at_view, clone_at, located, runtime, Error, ErrorView, Location, LocationView,
};
use crate::misc::{
    builtin_ends_with, builtin_ext_var, builtin_length, builtin_native, builtin_starts_with,
    builtin_trace, ends_with_spec, ext_var_spec, length_spec, native_spec, starts_with_spec,
    trace_spec,
};
use crate::native::{prepare_spec, NativeCallback};
use crate::settings::Settings;
use crate::state::{force_spec, outcome, BindingView, Context, Forced, HeapView, State};
use crate::typed::{
    measurable, measurable_spec, text, text_or_array, text_or_array_spec, text_or_array_view,
    text_spec, Either2,
};
use crate::value::{clone_params, params_view, BuiltinParam, ParamView, Val, ValView};

verus! {

/// A function that the interpreter can call: it has a name and declared
/// parameters, and is called with the state, the caller's scope, the call
/// site and the arguments as they were written.
pub trait Builtin {
    /// The name that the function reports.
    spec fn named(&self) -> Seq<char>;

    /// The declared parameters.
    spec fn declared(&self) -> Seq<ParamView>;

    /// Whether a call made on the heap `before`, in `scope`, from `loc`, with
    /// `args`, may leave the state `after` and give `result`.
    spec fn answers(
        &self,
        before: HeapView,
        scope: Seq<BindingView>,
        loc: Option<LocationView>,
        args: ArgsView,
        after: &State,
        result: Result<ValView, ErrorView>,
    ) -> bool;

    fn name(&self) -> (r: &'static str)
        ensures
            r@ == self.named(),
    ;

    fn params(&self) -> (r: Vec<BuiltinParam>)
        ensures
            params_view(r@) == self.declared(),
    ;

    fn call(
        &self,
        s: &mut State,
        ctx: &Context,
        loc: &Option<Location>,
        args: &CallArgs,
    ) -> (r: Result<Val, Error>)
        ensures
            self.answers(old(s).heap(), ctx@, at_view(*loc), args@, final(s), outcome(r)),
    ;
}

impl Builtin for NativeCallback {
    open spec fn named(&self) -> Seq<char> {
        "<native>"@
    }

    open spec fn declared(&self) -> Seq<ParamView> {
        params_view(self.params@)
    }

    open spec fn answers(
        &self,
        before: HeapView,
        scope: Seq<BindingView>,
        loc: Option<LocationView>,
        args: ArgsView,
        after: &State,
        result: Result<ValView, ErrorView>,
    ) -> bool {
        let prepared = prepare_spec(before, scope, params_view(self.params@), args);
        &&& after.heap() == prepared.heap
        &&& match prepared.result {
            Err(e) => result == Err::<ValView, ErrorView>(e),
            Ok(values) => values.len() == self.params@.len() && self.handler.admits(
                after,
                loc,
                values,
                result,
            ),
        }
    }

    fn name(&self) -> (r: &'static str) {
        NativeCallback::name(self)
    }

    fn params(&self) -> (r: Vec<BuiltinParam>) {
        clone_params(&self.params)
    }

    fn call(
        &self,
        s: &mut State,
        ctx: &Context,
        loc: &Option<Location>,
        args: &CallArgs,
    ) -> (r: Result<Val, Error>) {
        NativeCallback::call(self, s, ctx, loc, args)
    }
}

/// Parameters without defaults, under the given names.
pub open spec fn plain_params(names: Seq<Seq<char>>) -> Seq<ParamView> {
    Seq::new(names.len(), |i: int| ParamView { name: names[i], default: None })
}

/// One parameter without a default.
pub fn one_param(first: &str) -> (r: Vec<BuiltinParam>)
    ensures
        params_view(r@) == plain_params(seq![first@]),
{
    let r = vec![BuiltinParam { name: String::from_str(first), default: None }];
    assert(params_view(r@) =~= plain_params(seq![first@]));
    r
}

/// Two parameters without defaults.
pub fn two_params(first: &str, second: &str) -> (r: Vec<BuiltinParam>)
    ensures
        params_view(r@) == plain_params(seq![first@, second@]),
{
    let r = vec![
        BuiltinParam { name: String::from_str(first), default: None },
        BuiltinParam { name: String::from_str(second), default: None },
    ];
    assert(params_view(r@) =~= plain_params(seq![first@, second@]));
    r
}

/// A count as a number value: a count that no number holds is an error.
pub open spec fn count_spec(n: nat) -> Result<ValView, ErrorView> {
    if n <= i64::MAX {
        Ok(ValView::Num(n as i64))
    } else {
        Err(runtime("count out of range"@))
    }
}

/// Turns a count into a number value.
pub fn count(n: usize) -> (r: Result<Val, Error>)
    ensures
        outcome(r) == count_spec(n as nat),
{
    let wide = n as u64;
    if wide <= 0x7fff_ffff_ffff_ffffu64 {
        Ok(Val::Num(wide as i64))
    } else {
        Err(Error::runtime("count out of range"))
    }
}

/// Forcing the argument of a bound parameter and taking it as a string: a
/// value of another shape is a mismatch at the place where the argument
/// was written.
pub open spec fn text_arg_spec(h: HeapView, b: BoundView) -> (HeapView, Result<
    Seq<char>,
    ErrorView,
>) {
    let forced = force_spec(h, b.thunk);
    (
        forced.heap,
        match forced.result {
            Err(e) => Err(e),
            Ok(v) => match text_spec(v) {
                Err(e) => Err(located(e, b.at)),
                Ok(s) => Ok(s),
            },
        },
    )
}

/// Forces the argument of a bound parameter and takes it as a string.
pub fn text_arg(s: &mut State, b: &Bound) -> (r: Result<String, Error>)
    ensures
        text_arg_spec(old(s).heap(), b@).0 == final(s).heap(),
        match r {
            Ok(t) => text_arg_spec(old(s).heap(), b@).1 == Ok::<Seq<char>, ErrorView>(t@),
            Err(e) => text_arg_spec(old(s).heap(), b@).1 == Err::<Seq<char>, ErrorView>(e@),
        },
{
    match s.force(b.thunk) {
        Err(e) => Err(e),
        Ok(v) => match text(v) {
            Err(e) => Err(e.located(&b.at)),
            Ok(t) => Ok(t),
        },
    }
}

/// Forcing the argument of a bound parameter and taking it as a string or
/// an array.
pub open spec fn text_or_array_arg_spec(h: HeapView, b: BoundView) -> (HeapView, Result<
    Either2<Seq<char>, Seq<ValView>>,
    ErrorView,
>) {
    let forced = force_spec(h, b.thunk);
    (
        forced.heap,
        match forced.result {
            Err(e) => Err(e),
            Ok(v) => match text_or_array_spec(v) {
                Err(e) => Err(located(e, b.at)),
                Ok(x) => Ok(x),
            },
        },
    )
}

/// Forces the argument of a bound parameter and takes it as a string or an
/// array.
pub fn text_or_array_arg(s: &mut State, b: &Bound) -> (r: Result<Either2<String, Vec<Val>>, Error>)
    ensures
        text_or_array_arg_spec(old(s).heap(), b@).0 == final(s).heap(),
        match r {
            Ok(x) => text_or_array_arg_spec(old(s).heap(), b@).1 == Ok::<
                Either2<Seq<char>, Seq<ValView>>,
                ErrorView,
            >(text_or_array_view(x)),
            Err(e) => text_or_array_arg_spec(old(s).heap(), b@).1 == Err::<
                Either2<Seq<char>, Seq<ValView>>,
                ErrorView,
            >(e@),
        },
{
    match s.force(b.thunk) {
        Err(e) => Err(e),
        Ok(v) => match text_or_array(v) {
            Err(e) => Err(e.located(&b.at)),
            Ok(x) => Ok(x),
        },
    }
}

/// The functions of the standard library that this crate provides.
pub enum StdBuiltin<'a> {
    Length,
    ExtVar(&'a Settings),
    Native(&'a Settings),
    Trace,
    StartsWith,
    EndsWith,
}

/// The name of a function of the standard library.
pub open spec fn std_name(f: StdBuiltin) -> Seq<char> {
    match f {
        StdBuiltin::Length => "length"@,
        StdBuiltin::ExtVar(_) => "extVar"@,
        StdBuiltin::Native(_) => "native"@,
        StdBuiltin::Trace => "trace"@,
        StdBuiltin::StartsWith => "startsWith"@,
        StdBuiltin::EndsWith => "endsWith"@,
    }
}

/// The parameters that a function of the standard library declares.
pub open spec fn std_params(f: StdBuiltin) -> Seq<ParamView> {
    match f {
        StdBuiltin::Length => plain_params(seq!["x"@]),
        StdBuiltin::ExtVar(_) => plain_params(seq!["x"@]),
        StdBuiltin::Native(_) => plain_params(seq!["name"@]),
        StdBuiltin::Trace => plain_params(seq!["str"@, "rest"@]),
        StdBuiltin::StartsWith => plain_params(seq!["a"@, "b"@]),
        StdBuiltin::EndsWith => plain_params(seq!["a"@, "b"@]),
    }
}

/// What a function of the standard library does once its parameters are
/// bound: it forces the arguments that it needs, from the first on, takes
/// each as the shape it asks for, and computes.
pub open spec fn std_body_spec(
    f: StdBuiltin,
    h: HeapView,
    loc: Option<LocationView>,
    bounds: Seq<BoundView>,
) -> Forced {
    match f {
        StdBuiltin::Length => {
            let forced = force_spec(h, bounds[0].thunk);
            Forced {
                heap: forced.heap,
                result: match forced.result {
                    Err(e) => Err(e),
                    Ok(v) => match measurable_spec(v) {
                        Err(e) => Err(located(e, bounds[0].at)),
                        Ok(x) => count_spec(length_spec(x)),
                    },
                },
            }
        },
        StdBuiltin::ExtVar(settings) => {
            let (heap, name) = text_arg_spec(h, bounds[0]);
            match name {
                Err(e) => Forced { heap, result: Err(e) },
                Ok(name) => ext_var_spec(settings, heap, name),
            }
        },
        StdBuiltin::Native(settings) => {
            let (heap, name) = text_arg_spec(h, bounds[0]);
            match name {
                Err(e) => Forced { heap, result: Err(e) },
                Ok(name) => Forced { heap, result: Ok(native_spec(settings, name)) },
            }
        },
        StdBuiltin::Trace => {
            let (heap, message) = text_arg_spec(h, bounds[0]);
            match message {
                Err(e) => Forced { heap, result: Err(e) },
                Ok(message) => trace_spec(heap, loc, message, bounds[1].thunk),
            }
        },
        StdBuiltin::StartsWith => {
            let (first, a) = text_or_array_arg_spec(h, bounds[0]);
            match a {
                Err(e) => Forced { heap: first, result: Err(e) },
                Ok(a) => {
                    let (heap, b) = text_or_array_arg_spec(first, bounds[1]);
                    match b {
                        Err(e) => Forced { heap, result: Err(e) },
                        Ok(b) => Forced { heap, result: truth(starts_with_spec(a, b)) },
                    }
                },
            }
        },
        StdBuiltin::EndsWith => {
            let (first, a) = text_or_array_arg_spec(h, bounds[0]);
            match a {
                Err(e) => Forced { heap: first, result: Err(e) },
                Ok(a) => {
                    let (heap, b) = text_or_array_arg_spec(first, bounds[1]);
                    match b {
                        Err(e) => Forced { heap, result: Err(e) },
                        Ok(b) => Forced { heap, result: truth(ends_with_spec(a, b)) },
                    }
                },
            }
        },
    }
}

/// A truth value as a value.
pub open spec fn truth(r: Result<bool, ErrorView>) -> Result<ValView, ErrorView> {
    match r {
        Ok(b) => Ok(ValView::Bool(b)),
        Err(e) => Err(e),
    }
}

/// A call of a function of the standard library: the arguments are bound to
/// its parameters without being forced, then the function does its work.
pub open spec fn std_call_spec(
    f: StdBuiltin,
    h: HeapView,
    scope: Seq<BindingView>,
    loc: Option<LocationView>,
    args: ArgsView,
) -> Forced {
    let bound = bind_spec(h, scope, std_params(f), args, false);
    match bound.result {
        Err(e) => Forced { heap: bound.heap, result: Err(e) },
        Ok(bounds) => std_body_spec(f, bound.heap, loc, bounds),
    }
}

impl<'a> StdBuiltin<'a> {
    /// Does the work of the function on bound parameters.
    fn body(&self, s: &mut State, loc: &Option<Location>, bounds: &Vec<Bound>) -> (r: Result<
        Val,
        Error,
    >)
        requires
            bounds@.len() == std_params(*self).len(),
        ensures
            std_body_spec(*self, old(s).heap(), at_view(*loc), bounds_view(bounds@))
                == (Forced { heap: final(s).heap(), result: outcome(r) }),
    {
        match self {
            StdBuiltin::Length => {
                let v = match s.force(bounds[0].thunk) {
                    Ok(v) => v,
                    Err(e) => {
                        return Err(e);
                    },
                };
                let x = match measurable(v) {
                    Ok(x) => x,
                    Err(e) => {
                        return Err(e.located(&bounds[0].at));
                    },
                };
                match builtin_length(x) {
                    Ok(n) => count(n),
                    Err(e) => Err(e),
                }
            },
            StdBuiltin::ExtVar(settings) => {
                let name = match text_arg(s, &bounds[0]) {
                    Ok(name) => name,
                    Err(e) => {
                        return Err(e);
                    },
                };
                builtin_ext_var(settings, s, name)
            },
            StdBuiltin::Native(settings) => {
                let name = match text_arg(s, &bounds[0]) {
                    Ok(name) => name,
                    Err(e) => {
                        return Err(e);
                    },
                };
                builtin_native(settings, name)
            },
            StdBuiltin::Trace => {
                let message = match text_arg(s, &bounds[0]) {
                    Ok(message) => message,
                    Err(e) => {
                        return Err(e);
                    },
                };
                builtin_trace(s, clone_at(loc), message, bounds[1].thunk)
            },
            StdBuiltin::StartsWith => {
                let a = match text_or_array_arg(s, &bounds[0]) {
                    Ok(a) => a,
                    Err(e) => {
                        return Err(e);
                    },
                };
                let b = match text_or_array_arg(s, &bounds[1]) {
                    Ok(b) => b,
                    Err(e) => {
                        return Err(e);
                    },
                };
                match builtin_starts_with(a, b) {
                    Ok(r) => Ok(Val::Bool(r)),
                    Err(e) => Err(e),
                }
            },
            StdBuiltin::EndsWith => {
                let a = match text_or_array_arg(s, &bounds[0]) {
                    Ok(a) => a,
                    Err(e) => {
                        return Err(e);
                    },
                };
                let b = match text_or_array_arg(s, &bounds[1]) {
                    Ok(b) => b,
                    Err(e) => {
                        return Err(e);
                    },
                };
                match builtin_ends_with(a, b) {
                    Ok(r) => Ok(Val::Bool(r)),
                    Err(e) => Err(e),
                }
            },
        }
    }
}

impl<'a> Builtin for StdBuiltin<'a> {
    open spec fn named(&self) -> Seq<char> {
        std_name(*self)
    }

    open spec fn declared(&self) -> Seq<ParamView> {
        std_params(*self)
    }

    open spec fn answers(
        &self,
        before: HeapView,
        scope: Seq<BindingView>,
        loc: Option<LocationView>,
        args: ArgsView,
        after: &State,
        result: Result<ValView, ErrorView>,
    ) -> bool {
        std_call_spec(*self, before, scope, loc, args) == (Forced { heap: after.heap(), result })
    }

    fn name(&self) -> (r: &'static str) {
        match self {
            StdBuiltin::Length => "length",
            StdBuiltin::ExtVar(_) => "extVar",
            StdBuiltin::Native(_) => "native",
            StdBuiltin::Trace => "trace",
            StdBuiltin::StartsWith => "startsWith",
            StdBuiltin::EndsWith => "endsWith",
        }
    }

    fn params(&self) -> (r: Vec<BuiltinParam>) {
        match self {
            StdBuiltin::Length => one_param("x"),
            StdBuiltin::ExtVar(_) => one_param("x"),
            StdBuiltin::Native(_) => one_param("name"),
            StdBuiltin::Trace => two_params("str", "rest"),
            StdBuiltin::StartsWith => two_params("a", "b"),
            StdBuiltin::EndsWith => two_params("a", "b"),
        }
    }

    fn call(
        &self,
        s: &mut State,
        ctx: &Context,
        loc: &Option<Location>,
        args: &CallArgs,
    ) -> (r: Result<Val, Error>) {
        let params = self.params();
        let bounds = match bind(s, ctx, &params, args, false) {
            Ok(bounds) => bounds,
            Err(e) => {
                return Err(e);
            },
        };
        self.body(s, loc, &bounds)
    }
}

} // verus!

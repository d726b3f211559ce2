use vstd::prelude::*;
use crate::error::{
    at_view, clone_at, duplicate_argument, missing_argument, unexpected_named,
    unexpected_positional, Error, ErrorView, Location, LocationView,
};
use crate::names::{find, first_index, names_of, Named};
use crate::state::{
    force_all, BindingView, CellView, Computation, ComputationView, Context, HeapView, State,
};
use crate::value::{params_view, BuiltinParam, ParamView, Thunk};

verus! {

/// One argument of a call: what computes it, not run yet, and where it was
/// written.
#[derive(Debug, PartialEq, Eq)]
pub struct ArgEntry {
    pub computation: Computation,
    pub at: Option<Location>,
}

/// The mathematical form of an argument.
pub struct ArgView {
    pub computation: ComputationView,
    pub at: Option<LocationView>,
}

impl View for ArgEntry {
    type V = ArgView;

    open spec fn view(&self) -> ArgView {
        ArgView { computation: self.computation@, at: at_view(self.at) }
    }
}

/// An argument that the call passes by name.
#[derive(Debug, PartialEq, Eq)]
pub struct NamedArg {
    pub name: String,
    pub entry: ArgEntry,
}

/// The mathematical form of a named argument.
pub struct NamedArgView {
    pub name: Seq<char>,
    pub entry: ArgView,
}

impl View for NamedArg {
    type V = NamedArgView;

    open spec fn view(&self) -> NamedArgView {
        NamedArgView { name: self.name@, entry: self.entry@ }
    }
}

impl Named for NamedArg {
    open spec fn name_view(&self) -> Seq<char> {
        self.name@
    }

    fn name(&self) -> (r: &String) {
        &self.name
    }
}

impl Named for BuiltinParam {
    open spec fn name_view(&self) -> Seq<char> {
        self.name@
    }

    fn name(&self) -> (r: &String) {
        &self.name
    }
}

/// The arguments of one call: those passed by position, in their order, and
/// those passed by name, in the order they were written.
#[derive(Debug, PartialEq, Eq)]
pub struct CallArgs {
    pub positional: Vec<ArgEntry>,
    pub named: Vec<NamedArg>,
}

/// The mathematical form of the arguments of a call.
pub struct ArgsView {
    pub positional: Seq<ArgView>,
    pub named: Seq<NamedArgView>,
}

impl View for CallArgs {
    type V = ArgsView;

    open spec fn view(&self) -> ArgsView {
        ArgsView {
            positional: Seq::new(self.positional@.len(), |i: int| self.positional@[i]@),
            named: Seq::new(self.named@.len(), |i: int| self.named@[i]@),
        }
    }
}

/// Where the argument of a parameter comes from.
#[derive(Clone, Copy, Debug, PartialEq, Eq, Structural)]
pub enum Source {
    /// The positional argument at this place.
    Positional(usize),
    /// The named argument at this place.
    Named(usize),
    /// The parameter's own default.
    Default(Thunk),
}

/// The names of the parameters, in declaration order.
pub open spec fn param_names(params: Seq<ParamView>) -> Seq<Seq<char>> {
    Seq::new(params.len(), |i: int| params[i].name)
}

/// The names of the named arguments, in the order they were written.
pub open spec fn arg_names(named: Seq<NamedArgView>) -> Seq<Seq<char>> {
    Seq::new(named.len(), |i: int| named[i].name)
}

/// What is wrong with the named argument `j`, if anything: it names no
/// parameter, or it names one that a positional argument or an earlier named
/// argument has bound.
pub open spec fn named_fault(params: Seq<ParamView>, args: ArgsView, j: int) -> Option<ErrorView> {
    let name = args.named[j].name;
    let at = args.named[j].entry.at;
    match first_index(param_names(params), name, 0) {
        None => Some(unexpected_named(name, at)),
        Some(p) => if p < args.positional.len() || first_index(arg_names(args.named), name, 0)
            != Some(j) {
            Some(duplicate_argument(name, at))
        } else {
            None
        },
    }
}

/// The fault of the first named argument from `j` on that has one.
pub open spec fn first_fault(params: Seq<ParamView>, args: ArgsView, j: int) -> Option<ErrorView>
    decreases args.named.len() - j,
{
    if j < 0 || j >= args.named.len() {
        None
    } else {
        match named_fault(params, args, j) {
            Some(e) => Some(e),
            None => first_fault(params, args, j + 1),
        }
    }
}

/// Where the argument of parameter `i` comes from: the positional argument
/// at its place, else the first argument passed under its name, else its
/// default; nowhere, if it has none of these.
pub open spec fn source_of(params: Seq<ParamView>, args: ArgsView, i: int) -> Option<Source> {
    if i < args.positional.len() {
        Some(Source::Positional(i as usize))
    } else {
        match first_index(arg_names(args.named), params[i].name, 0) {
            Some(j) => Some(Source::Named(j as usize)),
            None => match params[i].default {
                Some(t) => Some(Source::Default(t)),
                None => None,
            },
        }
    }
}

/// The name of the first parameter from `i` on whose argument comes from
/// nowhere.
pub open spec fn first_missing(params: Seq<ParamView>, args: ArgsView, i: int) -> Option<
    Seq<char>,
>
    decreases params.len() - i,
{
    if i < 0 || i >= params.len() {
        None
    } else if source_of(params, args, i) is None {
        Some(params[i].name)
    } else {
        first_missing(params, args, i + 1)
    }
}

/// Matching the arguments of a call to the declared parameters.
///
/// Positional arguments go to the parameters from the first on; one more
/// than there are parameters is unexpected. Then the named arguments are
/// looked at in the order they were written: one that names no parameter is
/// unexpected, one that names a parameter bound already is a duplicate. Then
/// the first parameter left without an argument and without a default is
/// missing. Otherwise each parameter, in declaration order, has its source.
pub open spec fn match_spec(params: Seq<ParamView>, args: ArgsView) -> Result<
    Seq<Source>,
    ErrorView,
> {
    if args.positional.len() > params.len() {
        Err(unexpected_positional(args.positional[params.len() as int].at))
    } else {
        match first_fault(params, args, 0) {
            Some(e) => Err(e),
            None => match first_missing(params, args, 0) {
                Some(name) => Err(missing_argument(name)),
                None => Ok(Seq::new(params.len(), |i: int| source_of(params, args, i).unwrap())),
            },
        }
    }
}

/// Whether a source points at an argument that the call has.
pub open spec fn in_range(source: Source, args: ArgsView) -> bool {
    match source {
        Source::Positional(k) => k < args.positional.len(),
        Source::Named(j) => j < args.named.len(),
        Source::Default(_) => true,
    }
}

/// Matches the arguments of a call to the declared parameters.
pub fn match_args(params: &Vec<BuiltinParam>, args: &CallArgs) -> (r: Result<Vec<Source>, Error>)
    ensures
        match r {
            Ok(sources) => match_spec(params_view(params@), args@) == Ok::<Seq<Source>, ErrorView>(
                sources@,
            ),
            Err(e) => match_spec(params_view(params@), args@) == Err::<Seq<Source>, ErrorView>(e@),
        },
        r matches Ok(sources) ==> sources@.len() == params@.len() && forall|k: int|
            0 <= k < sources@.len() ==> in_range(#[trigger] sources@[k], args@),
{
    let ghost pv = params_view(params@);
    let ghost av = args@;
    proof {
        assert(names_of(params@) =~= param_names(pv));
        assert(names_of(args.named@) =~= arg_names(av.named));
    }
    let npos = args.positional.len();
    if npos > params.len() {
        return Err(Error::unexpected_positional(&args.positional[params.len()].at));
    }
    let mut j: usize = 0;
    while j < args.named.len()
        invariant
            j <= args.named.len(),
            pv == params_view(params@),
            av == args@,
            npos == args.positional.len(),
            npos <= params.len(),
            names_of(params@) == param_names(pv),
            names_of(args.named@) == arg_names(av.named),
            first_fault(pv, av, 0) == first_fault(pv, av, j as int),
        decreases args.named.len() - j,
    {
        let name = &args.named[j].name;
        let at = &args.named[j].entry.at;
        assert(av.named[j as int] == args.named@[j as int]@);
        match find(params, name) {
            None => {
                return Err(Error::unexpected_named(name, at));
            },
            Some(p) => {
                let first = match find(&args.named, name) {
                    Some(k) => k == j,
                    None => false,
                };
                if p < npos || !first {
                    return Err(Error::duplicate_argument(name, at));
                }
            },
        }
        j += 1;
    }
    let mut sources: Vec<Source> = Vec::new();
    let mut i: usize = 0;
    while i < params.len()
        invariant
            i <= params.len(),
            pv == params_view(params@),
            av == args@,
            npos == args.positional.len(),
            npos <= params.len(),
            names_of(args.named@) == arg_names(av.named),
            first_fault(pv, av, 0) is None,
            first_missing(pv, av, 0) == first_missing(pv, av, i as int),
            sources@.len() == i,
            forall|k: int| 0 <= k < i ==> source_of(pv, av, k) == Some(#[trigger] sources@[k]),
            forall|k: int| 0 <= k < i ==> in_range(#[trigger] sources@[k], av),
        decreases params.len() - i,
    {
        let source = if i < npos {
            Source::Positional(i)
        } else {
            match find(&args.named, &params[i].name) {
                Some(j) => Source::Named(j),
                None => match params[i].default {
                    Some(t) => Source::Default(t),
                    None => {
                        return Err(Error::missing_argument(&params[i].name));
                    },
                },
            }
        };
        sources.push(source);
        i += 1;
    }
    proof {
        assert(sources@ =~= Seq::new(pv.len(), |i: int| source_of(pv, av, i).unwrap()));
    }
    Ok(sources)
}

/// A parameter with the cell that computes its argument, and where that
/// argument was written.
#[derive(Debug, PartialEq, Eq)]
pub struct Bound {
    pub name: String,
    pub thunk: Thunk,
    pub at: Option<Location>,
}

/// The mathematical form of a bound parameter.
pub struct BoundView {
    pub name: Seq<char>,
    pub thunk: Thunk,
    pub at: Option<LocationView>,
}

impl View for Bound {
    type V = BoundView;

    open spec fn view(&self) -> BoundView {
        BoundView { name: self.name@, thunk: self.thunk, at: at_view(self.at) }
    }
}

/// The mathematical form of a binding: its entries in declaration order.
pub open spec fn bounds_view(bounds: Seq<Bound>) -> Seq<BoundView> {
    Seq::new(bounds.len(), |i: int| bounds[i]@)
}

/// The cells of a binding, in declaration order.
pub open spec fn thunks_of(bounds: Seq<BoundView>) -> Seq<Thunk> {
    Seq::new(bounds.len(), |i: int| bounds[i].thunk)
}

/// The cells so far and the parameters bound so far.
pub struct Placed {
    pub cells: Seq<CellView>,
    pub bounds: Seq<BoundView>,
}

/// Binding one more parameter to an argument of the call: the argument is
/// suspended in the caller's scope as a new cell.
pub open spec fn place_arg(
    before: Placed,
    name: Seq<char>,
    arg: ArgView,
    scope: Seq<BindingView>,
) -> Placed {
    Placed {
        cells: before.cells.push(
            CellView::Unevaluated { computation: arg.computation, scope },
        ),
        bounds: before.bounds.push(
            BoundView { name, thunk: Thunk { slot: before.cells.len() as usize }, at: arg.at },
        ),
    }
}

/// Binding the first `n` parameters, in declaration order: a default is
/// taken as the cell it is, which keeps its own scope.
pub open spec fn place(
    cells: Seq<CellView>,
    scope: Seq<BindingView>,
    params: Seq<ParamView>,
    args: ArgsView,
    sources: Seq<Source>,
    n: int,
) -> Placed
    decreases n,
{
    if n <= 0 || n > sources.len() || n > params.len() {
        Placed { cells, bounds: Seq::empty() }
    } else {
        let before = place(cells, scope, params, args, sources, n - 1);
        let name = params[n - 1].name;
        match sources[n - 1] {
            Source::Default(t) => Placed {
                cells: before.cells,
                bounds: before.bounds.push(BoundView { name, thunk: t, at: None }),
            },
            Source::Positional(k) => place_arg(before, name, args.positional[k as int], scope),
            Source::Named(j) => place_arg(before, name, args.named[j as int].entry, scope),
        }
    }
}

/// What binding leaves behind and what it gives.
pub struct BindOutcome {
    pub heap: HeapView,
    pub result: Result<Seq<BoundView>, ErrorView>,
}

/// Binding the arguments of a call to the declared parameters.
///
/// Where the arguments do not match the parameters nothing changes. Else
/// each parameter, in declaration order, gets its cell. A strict binding
/// then forces these cells in that order, up to the first that fails.
pub open spec fn bind_spec(
    h: HeapView,
    scope: Seq<BindingView>,
    params: Seq<ParamView>,
    args: ArgsView,
    strict: bool,
) -> BindOutcome {
    match match_spec(params, args) {
        Err(e) => BindOutcome { heap: h, result: Err(e) },
        Ok(sources) => {
            let placed = place(h.cells, scope, params, args, sources, params.len() as int);
            let lazy = HeapView { cells: placed.cells, trace: h.trace };
            if strict {
                let forced = force_all(lazy, thunks_of(placed.bounds), placed.bounds.len() as int);
                BindOutcome {
                    heap: forced.heap,
                    result: match forced.result {
                        Ok(_) => Ok(placed.bounds),
                        Err(e) => Err(e),
                    },
                }
            } else {
                BindOutcome { heap: lazy, result: Ok(placed.bounds) }
            }
        },
    }
}

/// Binds the arguments of a call, written in the scope `ctx`, to the
/// declared parameters.
pub fn bind(
    s: &mut State,
    ctx: &Context,
    params: &Vec<BuiltinParam>,
    args: &CallArgs,
    strict: bool,
) -> (r: Result<Vec<Bound>, Error>)
    ensures
        bind_spec(old(s).heap(), ctx@, params_view(params@), args@, strict).heap
            == final(s).heap(),
        match r {
            Ok(bounds) => bind_spec(
                old(s).heap(),
                ctx@,
                params_view(params@),
                args@,
                strict,
            ).result == Ok::<Seq<BoundView>, ErrorView>(bounds_view(bounds@)),
            Err(e) => bind_spec(old(s).heap(), ctx@, params_view(params@), args@, strict).result
                == Err::<Seq<BoundView>, ErrorView>(e@),
        },
        r matches Ok(bounds) ==> bounds@.len() == params@.len(),
{
    let ghost pv = params_view(params@);
    let ghost av = args@;
    let sources = match match_args(params, args) {
        Ok(sources) => sources,
        Err(e) => {
            return Err(e);
        },
    };
    let mut bounds: Vec<Bound> = Vec::new();
    let mut thunks: Vec<Thunk> = Vec::new();
    let mut i: usize = 0;
    assert(bounds_view(bounds@) =~= Seq::empty());
    assert(thunks@ =~= thunks_of(bounds_view(bounds@)));
    while i < params.len()
        invariant
            i <= params.len(),
            pv == params_view(params@),
            av == args@,
            sources@.len() == params@.len(),
            forall|k: int| 0 <= k < sources@.len() ==> in_range(#[trigger] sources@[k], av),
            place(old(s).heap().cells, ctx@, pv, av, sources@, i as int) == (Placed {
                cells: s.heap().cells,
                bounds: bounds_view(bounds@),
            }),
            s.heap().trace == old(s).heap().trace,
            bounds@.len() == i,
            thunks@ == thunks_of(bounds_view(bounds@)),
        decreases params.len() - i,
    {
        let ghost before = bounds_view(bounds@);
        let name = params[i].name.clone();
        assert(in_range(sources@[i as int], av));
        let bound = match sources[i] {
            Source::Default(t) => Bound { name, thunk: t, at: None },
            Source::Positional(k) => {
                let arg = &args.positional[k];
                let thunk = s.suspend(arg.computation.clone(), ctx.clone());
                Bound { name, thunk, at: clone_at(&arg.at) }
            },
            Source::Named(j) => {
                let arg = &args.named[j].entry;
                let thunk = s.suspend(arg.computation.clone(), ctx.clone());
                Bound { name, thunk, at: clone_at(&arg.at) }
            },
        };
        thunks.push(bound.thunk);
        bounds.push(bound);
        proof {
            assert(bounds_view(bounds@) =~= before.push(bound@));
            assert(thunks@ =~= thunks_of(bounds_view(bounds@)));
        }
        i += 1;
    }
    if strict {
        match s.force_each(&thunks) {
            Ok(_) => {},
            Err(e) => {
                return Err(e);
            },
        }
    }
    Ok(bounds)
}

} // verus!

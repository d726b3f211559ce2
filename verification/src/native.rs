use vstd::prelude::*;
use vstd::string::*;
use crate::binder::{bind, bind_spec, bounds_view, thunks_of, ArgsView, CallArgs};
use crate::error::{at_view, Error, ErrorView, Location, LocationView};
use crate::state::{
    force_all, lemma_force_all_len, outcome, BindingView, Context, HeapView, State,
};
use crate::value::{params_view, vals_view, BuiltinParam, ParamView, Thunk, Val, ValView};

verus! {

/// A function implemented by the host.
pub trait NativeCallbackHandler {
    /// Whether the handler may answer `result` to a call with the values
    /// `args`, made from `from`, while the interpreter is in the state `s`.
    /// A handler that promises nothing of its answers admits them all.
    open spec fn admits(
        &self,
        s: &State,
        from: Option<LocationView>,
        args: Seq<ValView>,
        result: Result<ValView, ErrorView>,
    ) -> bool {
        true
    }

    /// Runs the function on values that have all been forced.
    fn call(&self, s: &State, from: &Option<Location>, args: &Vec<Val>) -> (r: Result<Val, Error>)
        ensures
            self.admits(s, at_view(*from), vals_view(args@), outcome(r)),
    ;
}

/// A native function: its declared parameters and the handler that runs it.
pub struct NativeCallback {
    pub params: Vec<BuiltinParam>,
    pub handler: Box<dyn NativeCallbackHandler>,
}

/// What a native call has done before the handler runs.
pub struct Prepared {
    pub heap: HeapView,
    pub result: Result<Seq<ValView>, ErrorView>,
}

/// Preparing a native call: the arguments are bound strictly, and the bound
/// cells are then read in declaration order.
pub open spec fn prepare_spec(
    h: HeapView,
    scope: Seq<BindingView>,
    params: Seq<ParamView>,
    args: ArgsView,
) -> Prepared {
    let bound = bind_spec(h, scope, params, args, true);
    match bound.result {
        Err(e) => Prepared { heap: bound.heap, result: Err(e) },
        Ok(bounds) => {
            let forced = force_all(bound.heap, thunks_of(bounds), bounds.len() as int);
            Prepared { heap: forced.heap, result: forced.result }
        },
    }
}

impl NativeCallback {
    /// A native function with the given parameters and handler.
    pub fn new(params: Vec<BuiltinParam>, handler: Box<dyn NativeCallbackHandler>) -> (r: Self)
        ensures
            r == (NativeCallback { params, handler }),
    {
        Self { params, handler }
    }

    /// The name that every native function reports.
    pub fn name(&self) -> (r: &'static str)
        ensures
            r@ == "<native>"@,
    {
        "<native>"
    }

    /// The declared parameters.
    pub fn params(&self) -> (r: &Vec<BuiltinParam>)
        ensures
            r == &self.params,
    {
        &self.params
    }

    /// Binds and forces the arguments of a call, in declaration order.
    pub fn prepare(&self, s: &mut State, ctx: &Context, args: &CallArgs) -> (r: Result<
        Vec<Val>,
        Error,
    >)
        ensures
            prepare_spec(old(s).heap(), ctx@, params_view(self.params@), args@).heap == final(s).heap(),
            match r {
                Ok(values) => prepare_spec(
                    old(s).heap(),
                    ctx@,
                    params_view(self.params@),
                    args@,
                ).result == Ok::<Seq<ValView>, ErrorView>(vals_view(values@))
                    && values@.len() == self.params@.len(),
                Err(e) => prepare_spec(
                    old(s).heap(),
                    ctx@,
                    params_view(self.params@),
                    args@,
                ).result == Err::<Seq<ValView>, ErrorView>(e@),
            },
    {
        let bounds = match bind(s, ctx, &self.params, args, true) {
            Ok(bounds) => bounds,
            Err(e) => {
                return Err(e);
            },
        };
        let mut thunks: Vec<Thunk> = Vec::new();
        let mut i: usize = 0;
        while i < bounds.len()
            invariant
                i <= bounds.len(),
                thunks@.len() == i,
                forall|k: int| 0 <= k < i ==> thunks@[k] == bounds@[k].thunk,
            decreases bounds.len() - i,
        {
            thunks.push(bounds[i].thunk);
            i += 1;
        }
        proof {
            assert(thunks@ =~= thunks_of(bounds_view(bounds@)));
            lemma_force_all_len(s.heap(), thunks@, thunks@.len() as int);
        }
        s.force_each(&thunks)
    }

    /// Calls the native function: binds the arguments, forces every one of
    /// them, and hands the values to the handler.
    pub fn call(
        &self,
        s: &mut State,
        ctx: &Context,
        loc: &Option<Location>,
        args: &CallArgs,
    ) -> (r: Result<Val, Error>)
        ensures
            prepare_spec(old(s).heap(), ctx@, params_view(self.params@), args@).heap == final(s).heap(),
            match prepare_spec(old(s).heap(), ctx@, params_view(self.params@), args@).result {
                Err(e) => outcome(r) == Err::<ValView, ErrorView>(e),
                Ok(values) => values.len() == self.params@.len() && self.handler.admits(
                    final(s),
                    at_view(*loc),
                    values,
                    outcome(r),
                ),
            },
    {
        let values = match self.prepare(s, ctx, args) {
            Ok(values) => values,
            Err(e) => {
                return Err(e);
            },
        };
        self.handler.call(s, loc, &values)
    }
}

} // verus!

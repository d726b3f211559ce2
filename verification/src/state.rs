use vstd::prelude::*;
use vstd::string::*;
use crate::error::{
    at_view, clone_at, cyclic_dependency, no_such_cell, runtime, unbound_identifier, Error,
    ErrorView, Location, LocationView,
};
use crate::names::{find, first_index, names_of, Named};
use crate::value::{vals_view, Thunk, Val, ValView};

verus! {

/// One line written to the trace sink: where the call stood and what it said.
#[derive(Debug, PartialEq, Eq)]
pub struct TraceLine {
    pub at: Option<Location>,
    pub message: String,
}

/// The mathematical form of a trace line.
pub struct TraceLineView {
    pub at: Option<LocationView>,
    pub message: Seq<char>,
}

impl View for TraceLine {
    type V = TraceLineView;

    open spec fn view(&self) -> TraceLineView {
        TraceLineView { at: at_view(self.at), message: self.message@ }
    }
}

/// The lines of a trace sink, in the order they were written.
pub open spec fn trace_view(lines: Seq<TraceLine>) -> Seq<TraceLineView> {
    Seq::new(lines.len(), |i: int| lines[i]@)
}

/// A suspended computation: what forcing a cell will do.
#[derive(Debug, PartialEq, Eq)]
pub enum Computation {
    /// Yields the value.
    Value(Val),
    /// Forces the cell that the scope binds to the name, and yields its value.
    Lookup(String),
    /// Fails with the message.
    Fail(String),
    /// Writes a trace line, then goes on with the rest.
    Trace { at: Option<Location>, message: String, rest: Box<Computation> },
}

/// The mathematical form of a computation.
pub enum ComputationView {
    Value(ValView),
    Lookup(Seq<char>),
    Fail(Seq<char>),
    Trace { at: Option<LocationView>, message: Seq<char>, rest: Box<ComputationView> },
}

/// The mathematical form of a computation.
pub open spec fn computation_view(c: Computation) -> ComputationView
    decreases c,
{
    match c {
        Computation::Value(v) => ComputationView::Value(v@),
        Computation::Lookup(name) => ComputationView::Lookup(name@),
        Computation::Fail(message) => ComputationView::Fail(message@),
        Computation::Trace { at, message, rest } => ComputationView::Trace {
            at: at_view(at),
            message: message@,
            rest: Box::new(computation_view(*rest)),
        },
    }
}

impl View for Computation {
    type V = ComputationView;

    open spec fn view(&self) -> ComputationView {
        computation_view(*self)
    }
}

impl Clone for Computation {
    fn clone(&self) -> (r: Self)
        ensures
            r@ == self@,
        decreases self,
    {
        match self {
            Computation::Value(v) => Computation::Value(v.clone()),
            Computation::Lookup(name) => Computation::Lookup(name.clone()),
            Computation::Fail(message) => Computation::Fail(message.clone()),
            Computation::Trace { at, message, rest } => Computation::Trace {
                at: clone_at(at),
                message: message.clone(),
                rest: Box::new((**rest).clone()),
            },
        }
    }
}

/// The number of trace lines that a computation writes before it ends or
/// hands over to a cell.
pub open spec fn steps(c: ComputationView) -> nat
    decreases c,
{
    match c {
        ComputationView::Trace { rest, .. } => 1 + steps(*rest),
        _ => 0,
    }
}

/// A name and the cell it is bound to.
#[derive(Debug, PartialEq, Eq)]
pub struct Binding {
    pub name: String,
    pub thunk: Thunk,
}

/// The mathematical form of a binding.
pub struct BindingView {
    pub name: Seq<char>,
    pub thunk: Thunk,
}

impl View for Binding {
    type V = BindingView;

    open spec fn view(&self) -> BindingView {
        BindingView { name: self.name@, thunk: self.thunk }
    }
}

impl Named for Binding {
    open spec fn name_view(&self) -> Seq<char> {
        self.name@
    }

    fn name(&self) -> (r: &String) {
        &self.name
    }
}

/// The mathematical form of a list of bindings, in its order.
pub open spec fn bindings_view(bindings: Seq<Binding>) -> Seq<BindingView> {
    Seq::new(bindings.len(), |i: int| bindings[i]@)
}

/// The names that a list of bindings binds, in its order.
pub open spec fn bound_names(bindings: Seq<BindingView>) -> Seq<Seq<char>> {
    Seq::new(bindings.len(), |i: int| bindings[i].name)
}

/// The cell that the first binding of `name` binds it to.
pub open spec fn resolve(bindings: Seq<BindingView>, name: Seq<char>) -> Option<Thunk> {
    match first_index(bound_names(bindings), name, 0) {
        Some(i) => if 0 <= i < bindings.len() {
            Some(bindings[i].thunk)
        } else {
            None
        },
        None => None,
    }
}

/// Finds the cell that the first binding of `name` binds it to.
pub fn lookup(bindings: &Vec<Binding>, name: &String) -> (r: Option<Thunk>)
    ensures
        r == resolve(bindings_view(bindings@), name@),
{
    proof {
        assert(names_of(bindings@) =~= bound_names(bindings_view(bindings@)));
    }
    match find(bindings, name) {
        Some(i) => Some(bindings[i].thunk),
        None => None,
    }
}

/// Copies a list of bindings.
pub fn clone_bindings(bindings: &Vec<Binding>) -> (r: Vec<Binding>)
    ensures
        bindings_view(r@) == bindings_view(bindings@),
{
    let mut out: Vec<Binding> = Vec::new();
    let mut i: usize = 0;
    while i < bindings.len()
        invariant
            i <= bindings.len(),
            out.len() == i,
            forall|k: int| 0 <= k < i ==> out@[k]@ == bindings@[k]@,
        decreases bindings.len() - i,
    {
        out.push(Binding { name: bindings[i].name.clone(), thunk: bindings[i].thunk });
        i += 1;
    }
    assert(bindings_view(out@) =~= bindings_view(bindings@));
    out
}

/// A lexical environment: the identifiers in scope, innermost first, each
/// with the cell it is bound to.
#[derive(Debug, PartialEq, Eq)]
pub struct Context {
    pub bindings: Vec<Binding>,
}

impl View for Context {
    type V = Seq<BindingView>;

    open spec fn view(&self) -> Seq<BindingView> {
        bindings_view(self.bindings@)
    }
}

impl Clone for Context {
    fn clone(&self) -> (r: Self)
        ensures
            r@ == self@,
    {
        Context { bindings: clone_bindings(&self.bindings) }
    }
}

impl Context {
    /// The environment that binds nothing.
    pub fn new() -> (r: Context)
        ensures
            r@ == Seq::<BindingView>::empty(),
    {
        let r = Context { bindings: Vec::new() };
        assert(r@ =~= Seq::<BindingView>::empty());
        r
    }

    /// Binds `name` to `thunk`, in front of what is bound already.
    pub fn bind(&mut self, name: String, thunk: Thunk)
        ensures
            final(self)@ == seq![BindingView { name: name@, thunk }] + old(self)@,
    {
        self.bindings.insert(0, Binding { name, thunk });
        assert(self@ =~= seq![BindingView { name: name@, thunk }] + old(self)@);
    }

    /// The cell that `name` is bound to.
    pub fn get(&self, name: &String) -> (r: Option<Thunk>)
        ensures
            r == resolve(self@, name@),
    {
        lookup(&self.bindings, name)
    }
}

/// A lazily evaluated, memoized cell.
#[derive(Debug, PartialEq, Eq)]
pub enum Cell {
    /// Not forced yet: the computation and the scope it runs in.
    Unevaluated { computation: Computation, scope: Context },
    /// Being forced.
    Evaluating,
    /// Forced: what the computation gave.
    Evaluated(Result<Val, Error>),
}

/// The mathematical form of a cell.
pub enum CellView {
    Unevaluated { computation: ComputationView, scope: Seq<BindingView> },
    Evaluating,
    Evaluated(Result<ValView, ErrorView>),
}

/// The view of a result that holds a value.
pub open spec fn outcome(r: Result<Val, Error>) -> Result<ValView, ErrorView> {
    match r {
        Ok(v) => Ok(v@),
        Err(e) => Err(e@),
    }
}

/// Copies a result that holds a value.
pub fn clone_outcome(r: &Result<Val, Error>) -> (c: Result<Val, Error>)
    ensures
        outcome(c) == outcome(*r),
{
    match r {
        Ok(v) => Ok(v.clone()),
        Err(e) => Err(e.clone()),
    }
}

impl View for Cell {
    type V = CellView;

    open spec fn view(&self) -> CellView {
        match self {
            Cell::Unevaluated { computation, scope } => CellView::Unevaluated {
                computation: computation@,
                scope: scope@,
            },
            Cell::Evaluating => CellView::Evaluating,
            Cell::Evaluated(r) => CellView::Evaluated(outcome(*r)),
        }
    }
}

/// The mathematical form of the cells, in their order.
pub open spec fn cells_view(cells: Seq<Cell>) -> Seq<CellView> {
    Seq::new(cells.len(), |i: int| cells[i]@)
}

/// What forcing reads and changes: the cells and the trace sink.
pub struct HeapView {
    pub cells: Seq<CellView>,
    pub trace: Seq<TraceLineView>,
}

/// What forcing leaves behind and what it gives.
pub struct Forced {
    pub heap: HeapView,
    pub result: Result<ValView, ErrorView>,
}

/// The number of cells that have not been forced yet.
pub open spec fn pending(cells: Seq<CellView>) -> nat
    decreases cells.len(),
{
    if cells.len() == 0 {
        0
    } else {
        pending(cells.drop_last()) + if cells.last() is Unevaluated {
            1nat
        } else {
            0nat
        }
    }
}

/// Replacing a cell changes the number of unforced cells by what the two
/// cells count for.
pub proof fn lemma_pending_update(cells: Seq<CellView>, i: int, cell: CellView)
    requires
        0 <= i < cells.len(),
    ensures
        pending(cells.update(i, cell)) + (if cells[i] is Unevaluated {
            1nat
        } else {
            0nat
        }) == pending(cells) + (if cell is Unevaluated {
            1nat
        } else {
            0nat
        }),
    decreases cells.len(),
{
    let updated = cells.update(i, cell);
    if i == cells.len() - 1 {
        assert(updated.drop_last() =~= cells.drop_last());
    } else {
        assert(updated.drop_last() =~= cells.drop_last().update(i, cell));
        lemma_pending_update(cells.drop_last(), i, cell);
    }
}

/// Forcing the cell `t` on the heap `h`.
///
/// A cell that was forced gives what it gave then and changes nothing. A cell
/// that is being forced depends on itself: a cyclic dependency. A cell that
/// was not forced runs its computation in its own scope, once, and keeps
/// what that gave, value or error.
pub open spec fn force_spec(h: HeapView, t: Thunk) -> Forced
    decreases pending(h.cells), 0nat,
{
    if t.slot >= h.cells.len() {
        Forced { heap: h, result: Err(no_such_cell()) }
    } else {
        match h.cells[t.slot as int] {
            CellView::Evaluated(r) => Forced { heap: h, result: r },
            CellView::Evaluating => Forced { heap: h, result: Err(cyclic_dependency()) },
            CellView::Unevaluated { computation, scope } => {
                let started = HeapView {
                    cells: h.cells.update(t.slot as int, CellView::Evaluating),
                    trace: h.trace,
                };
                proof {
                    lemma_pending_update(h.cells, t.slot as int, CellView::Evaluating);
                }
                let ran = run_spec(started, computation, scope);
                Forced {
                    heap: HeapView {
                        cells: ran.heap.cells.update(
                            t.slot as int,
                            CellView::Evaluated(ran.result),
                        ),
                        trace: ran.heap.trace,
                    },
                    result: ran.result,
                }
            },
        }
    }
}

/// Running the computation `c` in `scope` on the heap `h`.
pub open spec fn run_spec(h: HeapView, c: ComputationView, scope: Seq<BindingView>) -> Forced
    decreases pending(h.cells), 1 + steps(c),
{
    match c {
        ComputationView::Value(v) => Forced { heap: h, result: Ok(v) },
        ComputationView::Fail(message) => Forced { heap: h, result: Err(runtime(message)) },
        ComputationView::Lookup(name) => match resolve(scope, name) {
            Some(t) => force_spec(h, t),
            None => Forced { heap: h, result: Err(unbound_identifier(name)) },
        },
        ComputationView::Trace { at, message, rest } => run_spec(
            HeapView { cells: h.cells, trace: h.trace.push(TraceLineView { at, message }) },
            *rest,
            scope,
        ),
    }
}

/// What forcing several cells leaves behind and what they gave.
pub struct ForcedAll {
    pub heap: HeapView,
    pub result: Result<Seq<ValView>, ErrorView>,
}

/// Forcing the first `n` of `thunks`, in their order, up to the first that
/// fails.
pub open spec fn force_all(h: HeapView, thunks: Seq<Thunk>, n: int) -> ForcedAll
    decreases n,
{
    if n <= 0 || n > thunks.len() {
        ForcedAll { heap: h, result: Ok(Seq::empty()) }
    } else {
        let before = force_all(h, thunks, n - 1);
        match before.result {
            Err(_) => before,
            Ok(values) => {
                let this = force_spec(before.heap, thunks[n - 1]);
                ForcedAll {
                    heap: this.heap,
                    result: match this.result {
                        Ok(v) => Ok(values.push(v)),
                        Err(e) => Err(e),
                    },
                }
            },
        }
    }
}

/// Where every cell gave a value, there are as many values as cells.
pub proof fn lemma_force_all_len(h: HeapView, thunks: Seq<Thunk>, n: int)
    requires
        0 <= n <= thunks.len(),
    ensures
        force_all(h, thunks, n).result matches Ok(values) ==> values.len() == n,
    decreases n,
{
    if n > 0 {
        lemma_force_all_len(h, thunks, n - 1);
    }
}

/// Once one of the cells has failed, forcing stops: the later ones are left
/// alone.
pub proof fn lemma_force_all_stops(h: HeapView, thunks: Seq<Thunk>, k: int, n: int)
    requires
        0 <= k <= n <= thunks.len(),
        force_all(h, thunks, k).result is Err,
    ensures
        force_all(h, thunks, n) == force_all(h, thunks, k),
    decreases n - k,
{
    if k < n {
        lemma_force_all_stops(h, thunks, k, n - 1);
    }
}

/// The interpreter state that evaluation changes: the cells and the trace
/// sink of one session.
pub struct State {
    pub cells: Vec<Cell>,
    pub trace: Vec<TraceLine>,
}

impl State {
    /// The cells and the trace sink.
    pub open spec fn heap(&self) -> HeapView {
        HeapView { cells: cells_view(self.cells@), trace: trace_view(self.trace@) }
    }

    /// A state with no cell and nothing traced.
    pub fn new() -> (r: State)
        ensures
            r.heap() == (HeapView { cells: Seq::empty(), trace: Seq::empty() }),
    {
        let r = State { cells: Vec::new(), trace: Vec::new() };
        assert(r.heap().cells =~= Seq::empty());
        assert(r.heap().trace =~= Seq::empty());
        r
    }

    /// Suspends `computation` in `scope` as a new cell.
    pub fn suspend(&mut self, computation: Computation, scope: Context) -> (t: Thunk)
        ensures
            t.slot == old(self).cells@.len(),
            final(self).heap() == (HeapView {
                cells: old(self).heap().cells.push(
                    CellView::Unevaluated { computation: computation@, scope: scope@ },
                ),
                trace: old(self).heap().trace,
            }),
    {
        let slot = self.cells.len();
        self.cells.push(Cell::Unevaluated { computation, scope });
        assert(self.heap().cells =~= old(self).heap().cells.push(
            CellView::Unevaluated { computation: computation@, scope: scope@ },
        ));
        Thunk { slot }
    }

    /// Forces the cell `t`.
    pub fn force(&mut self, t: Thunk) -> (r: Result<Val, Error>)
        ensures
            force_spec(old(self).heap(), t) == (Forced {
                heap: final(self).heap(),
                result: outcome(r),
            }),
            final(self).cells@.len() == old(self).cells@.len(),
        decreases pending(old(self).heap().cells), 0nat,
    {
        if t.slot >= self.cells.len() {
            return Err(Error::no_such_cell());
        }
        match &self.cells[t.slot] {
            Cell::Evaluated(r) => {
                return clone_outcome(r);
            },
            Cell::Evaluating => {
                return Err(Error::cyclic_dependency());
            },
            Cell::Unevaluated { .. } => {},
        }
        self.cells.push(Cell::Evaluating);
        let cell = self.cells.swap_remove(t.slot);
        let ghost started = HeapView {
            cells: old(self).heap().cells.update(t.slot as int, CellView::Evaluating),
            trace: old(self).heap().trace,
        };
        proof {
            assert(self.heap().cells =~= started.cells);
            lemma_pending_update(old(self).heap().cells, t.slot as int, CellView::Evaluating);
        }
        match cell {
            Cell::Unevaluated { computation, scope } => {
                let r = self.run(computation, &scope);
                let ghost ran = self.heap();
                self.cells.set(t.slot, Cell::Evaluated(clone_outcome(&r)));
                assert(self.heap().cells =~= ran.cells.update(
                    t.slot as int,
                    CellView::Evaluated(outcome(r)),
                ));
                r
            },
            _ => Err(Error::cyclic_dependency()),
        }
    }

    /// Forces each of `thunks`, in their order, up to the first that fails.
    pub fn force_each(&mut self, thunks: &Vec<Thunk>) -> (r: Result<Vec<Val>, Error>)
        ensures
            force_all(old(self).heap(), thunks@, thunks@.len() as int).heap == final(self).heap(),
            match r {
                Ok(values) => force_all(old(self).heap(), thunks@, thunks@.len() as int).result
                    == Ok::<Seq<ValView>, ErrorView>(vals_view(values@)),
                Err(e) => force_all(old(self).heap(), thunks@, thunks@.len() as int).result
                    == Err::<Seq<ValView>, ErrorView>(e@),
            },
            final(self).cells@.len() == old(self).cells@.len(),
    {
        let mut values: Vec<Val> = Vec::new();
        let mut i: usize = 0;
        assert(vals_view(values@) =~= Seq::empty());
        while i < thunks.len()
            invariant
                i <= thunks.len(),
                self.cells@.len() == old(self).cells@.len(),
                force_all(old(self).heap(), thunks@, i as int) == (ForcedAll {
                    heap: self.heap(),
                    result: Ok(vals_view(values@)),
                }),
            decreases thunks.len() - i,
        {
            let ghost before = vals_view(values@);
            match self.force(thunks[i]) {
                Ok(v) => {
                    values.push(v);
                    assert(vals_view(values@) =~= before.push(v@));
                },
                Err(e) => {
                    proof {
                        lemma_force_all_stops(
                            old(self).heap(),
                            thunks@,
                            i + 1,
                            thunks@.len() as int,
                        );
                    }
                    return Err(e);
                },
            }
            i += 1;
        }
        Ok(values)
    }

    /// Runs `computation` in `scope`.
    pub fn run(&mut self, computation: Computation, scope: &Context) -> (r: Result<Val, Error>)
        ensures
            run_spec(old(self).heap(), computation@, scope@) == (Forced {
                heap: final(self).heap(),
                result: outcome(r),
            }),
            final(self).cells@.len() == old(self).cells@.len(),
        decreases pending(old(self).heap().cells), 1 + steps(computation@),
    {
        match computation {
            Computation::Value(v) => Ok(v),
            Computation::Fail(message) => Err(Error::runtime(message.as_str())),
            Computation::Lookup(name) => match scope.get(&name) {
                Some(t) => self.force(t),
                None => Err(Error::unbound_identifier(&name)),
            },
            Computation::Trace { at, message, rest } => {
                self.trace.push(TraceLine { at, message });
                assert(self.heap().trace =~= old(self).heap().trace.push(
                    TraceLineView { at: at_view(at), message: message@ },
                ));
                self.run(*rest, scope)
            },
        }
    }
}

} // verus!

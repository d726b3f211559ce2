use vstd::prelude::*;
use crate::binder::{
    bind_spec, match_spec, place, thunks_of, ArgsView, BindOutcome, CallArgs, Source,
};
use crate::equality::{equals_spec, field_names, fields_equal, incomparable, items_equal};
use crate::error::{
    cyclic_dependency, undefined_external_variable, ErrorKind, ErrorView, LocationView,
};
use crate::misc::{
    ends_with_spec, ext_var_spec, length_spec, native_spec, starts_with_spec, trace_spec,
};
use crate::names::{first_index, names_of};
use crate::native::prepare_spec;
use crate::settings::Settings;
use crate::state::{
    force_all, force_spec, lemma_pending_update, pending, resolve, run_spec, steps, BindingView,
    CellView, ComputationView, Forced, ForcedAll, HeapView, TraceLineView,
};
use crate::typed::{Either2, Either4};
use crate::value::{params_view, BuiltinParam, FieldView, ParamView, Thunk, ValView};

verus! {

/// Forcing a cell neither adds nor removes a cell.
pub proof fn lemma_force_keeps_count(h: HeapView, t: Thunk)
    ensures
        force_spec(h, t).heap.cells.len() == h.cells.len(),
    decreases pending(h.cells), 0nat,
{
    if t.slot < h.cells.len() {
        match h.cells[t.slot as int] {
            CellView::Unevaluated { computation, scope } => {
                let started = HeapView {
                    cells: h.cells.update(t.slot as int, CellView::Evaluating),
                    trace: h.trace,
                };
                lemma_pending_update(h.cells, t.slot as int, CellView::Evaluating);
                lemma_run_keeps_count(started, computation, scope);
            },
            _ => {},
        }
    }
}

/// Running a computation neither adds nor removes a cell.
pub proof fn lemma_run_keeps_count(h: HeapView, c: ComputationView, scope: Seq<BindingView>)
    ensures
        run_spec(h, c, scope).heap.cells.len() == h.cells.len(),
    decreases pending(h.cells), 1 + steps(c),
{
    match c {
        ComputationView::Lookup(name) => match resolve(scope, name) {
            Some(t) => lemma_force_keeps_count(h, t),
            None => {},
        },
        ComputationView::Trace { at, message, rest } => {
            lemma_run_keeps_count(
                HeapView { cells: h.cells, trace: h.trace.push(TraceLineView { at, message }) },
                *rest,
                scope,
            );
        },
        _ => {},
    }
}

/// A cell is forced once: forcing it again gives what it gave the first
/// time, value or error, and changes nothing, so that nothing is traced a
/// second time.
pub proof fn lemma_force_memoized(h: HeapView, t: Thunk)
    ensures
        force_spec(force_spec(h, t).heap, t) == force_spec(h, t),
{
    if t.slot < h.cells.len() {
        match h.cells[t.slot as int] {
            CellView::Unevaluated { computation, scope } => {
                let started = HeapView {
                    cells: h.cells.update(t.slot as int, CellView::Evaluating),
                    trace: h.trace,
                };
                lemma_run_keeps_count(started, computation, scope);
            },
            _ => {},
        }
    }
}

/// What a cell has given stays: forcing any cell leaves every cell that was
/// forced before as it was, and every line that was traced before in its
/// place, whether the forcing succeeds or fails.
pub proof fn lemma_force_keeps_history(h: HeapView, t: Thunk)
    ensures
        forall|i: int|
            0 <= i < h.cells.len() && h.cells[i] is Evaluated ==> #[trigger] force_spec(
                h,
                t,
            ).heap.cells[i] == h.cells[i],
        h.trace.is_prefix_of(force_spec(h, t).heap.trace),
    decreases pending(h.cells), 0nat,
{
    if t.slot < h.cells.len() {
        match h.cells[t.slot as int] {
            CellView::Unevaluated { computation, scope } => {
                let started = HeapView {
                    cells: h.cells.update(t.slot as int, CellView::Evaluating),
                    trace: h.trace,
                };
                lemma_pending_update(h.cells, t.slot as int, CellView::Evaluating);
                lemma_run_keeps_history(started, computation, scope);
                lemma_run_keeps_count(started, computation, scope);
            },
            _ => {},
        }
    }
}

/// Running a computation leaves every cell that was forced before as it
/// was, and every line that was traced before in its place.
pub proof fn lemma_run_keeps_history(h: HeapView, c: ComputationView, scope: Seq<BindingView>)
    ensures
        forall|i: int|
            0 <= i < h.cells.len() && h.cells[i] is Evaluated ==> #[trigger] run_spec(
                h,
                c,
                scope,
            ).heap.cells[i] == h.cells[i],
        h.trace.is_prefix_of(run_spec(h, c, scope).heap.trace),
    decreases pending(h.cells), 1 + steps(c),
{
    match c {
        ComputationView::Lookup(name) => match resolve(scope, name) {
            Some(t) => lemma_force_keeps_history(h, t),
            None => {},
        },
        ComputationView::Trace { at, message, rest } => {
            let traced = HeapView {
                cells: h.cells,
                trace: h.trace.push(TraceLineView { at, message }),
            };
            lemma_run_keeps_history(traced, *rest, scope);
            assert(h.trace =~= traced.trace.subrange(0, h.trace.len() as int));
        },
        _ => {},
    }
}

/// A cell that is forced while it is being forced fails with a cyclic
/// dependency, and nothing changes.
pub proof fn lemma_force_detects_cycle(h: HeapView, t: Thunk)
    requires
        t.slot < h.cells.len(),
        h.cells[t.slot as int] is Evaluating,
    ensures
        force_spec(h, t) == (Forced { heap: h, result: Err(cyclic_dependency()) }),
{
}

/// What forcing does to the cells and what it gives do not depend on what
/// was traced before, and the lines it writes come after those.
pub proof fn lemma_force_appends(
    cells: Seq<CellView>,
    before: Seq<TraceLineView>,
    t: Thunk,
)
    ensures
        force_spec(HeapView { cells, trace: before }, t) == (Forced {
            heap: HeapView {
                cells: force_spec(HeapView { cells, trace: Seq::empty() }, t).heap.cells,
                trace: before + force_spec(HeapView { cells, trace: Seq::empty() }, t).heap.trace,
            },
            result: force_spec(HeapView { cells, trace: Seq::empty() }, t).result,
        }),
    decreases pending(cells), 0nat,
{
    let h = HeapView { cells, trace: before };
    let bare = HeapView { cells, trace: Seq::<TraceLineView>::empty() };
    if t.slot < cells.len() {
        match cells[t.slot as int] {
            CellView::Unevaluated { computation, scope } => {
                let started = cells.update(t.slot as int, CellView::Evaluating);
                lemma_pending_update(cells, t.slot as int, CellView::Evaluating);
                lemma_run_appends(started, before, computation, scope);
            },
            _ => {
                assert(before + bare.trace =~= before);
            },
        }
    } else {
        assert(before + bare.trace =~= before);
    }
}

/// What running a computation does to the cells and what it gives do not
/// depend on what was traced before, and the lines it writes come after
/// those.
pub proof fn lemma_run_appends(
    cells: Seq<CellView>,
    before: Seq<TraceLineView>,
    c: ComputationView,
    scope: Seq<BindingView>,
)
    ensures
        run_spec(HeapView { cells, trace: before }, c, scope) == (Forced {
            heap: HeapView {
                cells: run_spec(HeapView { cells, trace: Seq::empty() }, c, scope).heap.cells,
                trace: before + run_spec(
                    HeapView { cells, trace: Seq::empty() },
                    c,
                    scope,
                ).heap.trace,
            },
            result: run_spec(HeapView { cells, trace: Seq::empty() }, c, scope).result,
        }),
    decreases pending(cells), 1 + steps(c),
{
    let bare = HeapView { cells, trace: Seq::<TraceLineView>::empty() };
    match c {
        ComputationView::Lookup(name) => match resolve(scope, name) {
            Some(t) => lemma_force_appends(cells, before, t),
            None => {
                assert(before + bare.trace =~= before);
            },
        },
        ComputationView::Trace { at, message, rest } => {
            let line = TraceLineView { at, message };
            lemma_run_appends(cells, before.push(line), *rest, scope);
            lemma_run_appends(cells, Seq::empty().push(line), *rest, scope);
            let tail = run_spec(bare, *rest, scope).heap.trace;
            assert(before.push(line) + tail =~= before + (Seq::empty().push(line) + tail));
        },
        _ => {
            assert(before + bare.trace =~= before);
        },
    }
}

/// A cell that gave a value holds it from then on.
pub proof fn lemma_force_keeps_value(h: HeapView, t: Thunk)
    ensures
        force_spec(h, t).result is Ok ==> t.slot < force_spec(h, t).heap.cells.len()
            && force_spec(h, t).heap.cells[t.slot as int] == CellView::Evaluated(
            force_spec(h, t).result,
        ),
{
    lemma_force_keeps_count(h, t);
    if t.slot < h.cells.len() {
        match h.cells[t.slot as int] {
            CellView::Unevaluated { computation, scope } => {
                let started = HeapView {
                    cells: h.cells.update(t.slot as int, CellView::Evaluating),
                    trace: h.trace,
                };
                lemma_run_keeps_count(started, computation, scope);
            },
            _ => {},
        }
    }
}

/// Where each of the first `n` cells gave a value, each of them holds its
/// value afterwards.
pub proof fn lemma_force_all_keeps_values(h: HeapView, thunks: Seq<Thunk>, n: int)
    requires
        0 <= n <= thunks.len(),
    ensures
        force_all(h, thunks, n).result matches Ok(values) ==> values.len() == n && forall|i: int|
            0 <= i < n ==> (#[trigger] thunks[i]).slot < force_all(h, thunks, n).heap.cells.len()
                && force_all(h, thunks, n).heap.cells[thunks[i].slot as int]
                == CellView::Evaluated(Ok(values[i])),
    decreases n,
{
    if n > 0 {
        lemma_force_all_keeps_values(h, thunks, n - 1);
        let before = force_all(h, thunks, n - 1);
        if before.result is Ok {
            lemma_force_keeps_value(before.heap, thunks[n - 1]);
            lemma_force_keeps_history(before.heap, thunks[n - 1]);
            lemma_force_keeps_count(before.heap, thunks[n - 1]);
        }
    }
}

/// Forcing cells that all hold values reads these values and changes
/// nothing.
pub proof fn lemma_force_all_reads(h: HeapView, thunks: Seq<Thunk>, values: Seq<ValView>, n: int)
    requires
        0 <= n <= thunks.len(),
        n <= values.len(),
        forall|i: int|
            0 <= i < n ==> (#[trigger] thunks[i]).slot < h.cells.len() && h.cells[thunks[i].slot as int]
                == CellView::Evaluated(Ok(values[i])),
    ensures
        force_all(h, thunks, n) == (ForcedAll { heap: h, result: Ok(values.subrange(0, n)) }),
    decreases n,
{
    if n > 0 {
        lemma_force_all_reads(h, thunks, values, n - 1);
        assert(thunks[n - 1].slot < h.cells.len());
        assert(values.subrange(0, n - 1).push(values[n - 1]) =~= values.subrange(0, n));
    } else {
        assert(values.subrange(0, 0) =~= Seq::<ValView>::empty());
    }
}

/// A native handler sees forced values only: once a strict binding has
/// succeeded every bound cell holds a value, so that reading the cells for
/// the handler succeeds, runs nothing and changes nothing.
pub proof fn lemma_prepare_reads_forced_cells(
    h: HeapView,
    scope: Seq<BindingView>,
    params: Seq<ParamView>,
    args: ArgsView,
)
    ensures
        bind_spec(h, scope, params, args, true).result is Ok ==> prepare_spec(
            h,
            scope,
            params,
            args,
        ).result is Ok && prepare_spec(h, scope, params, args).heap == bind_spec(
            h,
            scope,
            params,
            args,
            true,
        ).heap,
{
    let bound = bind_spec(h, scope, params, args, true);
    match (match_spec(params, args), bound.result) {
        (Ok(sources), Ok(bounds)) => {
            let placed = place(h.cells, scope, params, args, sources, params.len() as int);
            let lazy = HeapView { cells: placed.cells, trace: h.trace };
            let thunks = thunks_of(bounds);
            let n = bounds.len() as int;
            let forced = force_all(lazy, thunks, n);
            lemma_force_all_keeps_values(lazy, thunks, n);
            lemma_force_all_reads(forced.heap, thunks, forced.result->Ok_0, n);
        },
        _ => {},
    }
}

/// Looking up an external variable that is not registered fails with an
/// error of its own kind, and changes nothing.
pub proof fn lemma_ext_var_unregistered(this: &Settings, h: HeapView, name: Seq<char>)
    requires
        resolve(this.ext_vars_view(), name) is None,
    ensures
        ext_var_spec(this, h, name) == (Forced {
            heap: h,
            result: Err(undefined_external_variable(name)),
        }),
        undefined_external_variable(name).kind == ErrorKind::UndefinedExternalVariable,
{
}

/// Looking up an external variable a second time gives what the first
/// lookup gave and changes nothing: its source runs once, and what it
/// traced is not traced again.
pub proof fn lemma_ext_var_memoized(this: &Settings, h: HeapView, name: Seq<char>)
    ensures
        ext_var_spec(this, ext_var_spec(this, h, name).heap, name) == ext_var_spec(this, h, name),
{
    match resolve(this.ext_vars_view(), name) {
        Some(t) => lemma_force_memoized(h, t),
        None => {},
    }
}

/// A name under which no native function is registered gives null; a
/// registered one gives a function whose length is the number of
/// parameters that were declared for it.
pub proof fn lemma_native_arity(this: &Settings, name: Seq<char>)
    ensures
        match first_index(names_of(this.natives@), name, 0) {
            None => native_spec(this, name) == ValView::Null,
            Some(i) => native_spec(this, name) matches ValView::Func(f) && length_spec(
                Either4::D(f),
            ) == this.natives@[i].callback.params@.len(),
        },
{
}

/// A trace writes its one line first: the sink then holds what it held, the
/// line, and what forcing the rest writes, in this order; the cells and the
/// result are those of forcing the rest alone.
pub proof fn lemma_trace_writes_first(
    h: HeapView,
    loc: Option<LocationView>,
    message: Seq<char>,
    rest: Thunk,
)
    ensures
        ({
            let alone = force_spec(h, rest);
            let written = force_spec(HeapView { cells: h.cells, trace: Seq::empty() }, rest).heap.trace;
            let traced = trace_spec(h, loc, message, rest);
            &&& alone.heap.trace == h.trace + written
            &&& traced.heap.trace == h.trace.push(TraceLineView { at: loc, message }) + written
            &&& traced.heap.cells == alone.heap.cells
            &&& traced.result == alone.result
        }),
{
    lemma_force_appends(h.cells, h.trace, rest);
    lemma_force_appends(h.cells, h.trace.push(TraceLineView { at: loc, message }), rest);
}

/// The same parameters and the same arguments are matched in the same way.
pub proof fn lemma_match_deterministic(
    params: Seq<BuiltinParam>,
    args: CallArgs,
    params_again: Seq<BuiltinParam>,
    args_again: CallArgs,
)
    requires
        params_view(params) == params_view(params_again),
        args@ == args_again@,
    ensures
        match_spec(params_view(params), args@) == match_spec(
            params_view(params_again),
            args_again@,
        ),
{
}

/// Where the argument of a source was written.
pub open spec fn written_at(args: ArgsView, source: Source) -> Option<LocationView> {
    match source {
        Source::Positional(k) => args.positional[k as int].at,
        Source::Named(j) => args.named[j as int].entry.at,
        Source::Default(_) => None,
    }
}

/// The first `n` parameters are bound in declaration order, each under its
/// own name, to the argument that the matching gave it.
pub proof fn lemma_place_in_order(
    cells: Seq<CellView>,
    scope: Seq<BindingView>,
    params: Seq<ParamView>,
    args: ArgsView,
    sources: Seq<Source>,
    n: int,
)
    requires
        0 <= n <= params.len(),
        sources.len() == params.len(),
    ensures
        place(cells, scope, params, args, sources, n).bounds.len() == n,
        forall|i: int|
            0 <= i < n ==> {
                let b = #[trigger] place(cells, scope, params, args, sources, n).bounds[i];
                &&& b.name == params[i].name
                &&& b.at == written_at(args, sources[i])
                &&& sources[i] matches Source::Default(t) ==> b.thunk == t
            },
    decreases n,
{
    if n > 0 {
        lemma_place_in_order(cells, scope, params, args, sources, n - 1);
    }
}

/// Binding is deterministic and keeps the declaration order: whatever the
/// state, a binding that succeeds holds one entry for each parameter, in
/// declaration order, under the parameter's name, for the argument that
/// matching the arguments to the parameters gave it.
pub proof fn lemma_bind_in_declaration_order(
    h: HeapView,
    scope: Seq<BindingView>,
    params: Seq<ParamView>,
    args: ArgsView,
    strict: bool,
)
    ensures
        bind_spec(h, scope, params, args, strict).result matches Ok(bounds) ==> {
            &&& match_spec(params, args) matches Ok(sources)
            &&& bounds.len() == params.len()
            &&& forall|i: int|
                0 <= i < params.len() ==> {
                    &&& (#[trigger] bounds[i]).name == params[i].name
                    &&& bounds[i].at == written_at(args, sources[i])
                    &&& sources[i] matches Source::Default(t) ==> bounds[i].thunk == t
                }
        },
        match_spec(params, args) matches Err(e) ==> bind_spec(h, scope, params, args, strict)
            == (BindOutcome { heap: h, result: Err(e) }),
{
    match match_spec(params, args) {
        Ok(sources) => {
            lemma_place_in_order(h.cells, scope, params, args, sources, params.len() as int);
        },
        Err(_) => {},
    }
}

/// Comparing two values fails in one way only: on two functions.
pub proof fn lemma_equals_error(a: ValView, b: ValView)
    ensures
        equals_spec(a, b) matches Err(e) ==> e == incomparable(),
    decreases a,
{
    match (a, b) {
        (ValView::Arr(x), ValView::Arr(y)) => {
            lemma_items_error(x, y, 0);
        },
        (ValView::Obj(x), ValView::Obj(y)) => {
            lemma_fields_error(x, y, 0);
        },
        _ => {},
    }
}

/// Comparing the items of two arrays fails in one way only.
pub proof fn lemma_items_error(x: Seq<ValView>, y: Seq<ValView>, i: int)
    ensures
        items_equal(x, y, i) matches Err(e) ==> e == incomparable(),
    decreases x, x.len() - i,
{
    if 0 <= i < x.len() && i < y.len() {
        lemma_equals_error(x[i], y[i]);
        lemma_items_error(x, y, i + 1);
    }
}

/// Comparing the fields of two objects fails in one way only.
pub proof fn lemma_fields_error(x: Seq<FieldView>, y: Seq<FieldView>, i: int)
    ensures
        fields_equal(x, y, i) matches Err(e) ==> e == incomparable(),
    decreases x, x.len() - i,
{
    if 0 <= i < x.len() {
        match first_index(field_names(y), x[i].name, 0) {
            Some(j) => {
                if 0 <= j < y.len() {
                    lemma_equals_error(x[i].value, y[j].value);
                    lemma_fields_error(x, y, i + 1);
                }
            },
            None => {},
        }
    }
}

/// Two arrays of one length compare as equal from `k` on exactly when each
/// pair of items from `k` on does.
pub proof fn lemma_items_all_equal(x: Seq<ValView>, y: Seq<ValView>, k: int)
    requires
        x.len() == y.len(),
        0 <= k <= x.len(),
    ensures
        items_equal(x, y, k) == Ok::<bool, ErrorView>(true) <==> forall|i: int|
            k <= i < x.len() ==> #[trigger] equals_spec(x[i], y[i]) == Ok::<bool, ErrorView>(true),
    decreases x.len() - k,
{
    if k < x.len() {
        lemma_items_all_equal(x, y, k + 1);
        let first = equals_spec(x[k], y[k]);
        if first == Ok::<bool, ErrorView>(true) {
            assert(items_equal(x, y, k) == items_equal(x, y, k + 1));
            if items_equal(x, y, k + 1) == Ok::<bool, ErrorView>(true) {
                assert forall|i: int| k <= i < x.len() implies #[trigger] equals_spec(x[i], y[i])
                    == Ok::<bool, ErrorView>(true) by {
                    if i == k {
                    } else {
                        assert(k + 1 <= i);
                    }
                }
            }
        } else {
            assert(items_equal(x, y, k) != Ok::<bool, ErrorView>(true));
        }
    }
}

/// A value that holds no function: of such a value equality is defined.
pub open spec fn function_free(v: ValView) -> bool
    decreases v,
{
    match v {
        ValView::Func(_) => false,
        ValView::Arr(items) => forall|i: int|
            0 <= i < items.len() ==> function_free(#[trigger] items[i]),
        ValView::Obj(fields) => forall|i: int|
            0 <= i < fields.len() ==> function_free(#[trigger] fields[i].value),
        _ => true,
    }
}

/// Comparing a value that holds no function with any value does not fail.
pub proof fn lemma_equals_defined(a: ValView, b: ValView)
    requires
        function_free(a),
    ensures
        equals_spec(a, b) is Ok,
    decreases a,
{
    match (a, b) {
        (ValView::Arr(x), ValView::Arr(y)) => {
            lemma_items_defined(x, y, 0);
        },
        (ValView::Obj(x), ValView::Obj(y)) => {
            lemma_fields_defined(x, y, 0);
        },
        _ => {},
    }
}

/// Comparing items that hold no function with any items does not fail.
pub proof fn lemma_items_defined(x: Seq<ValView>, y: Seq<ValView>, i: int)
    requires
        forall|k: int| 0 <= k < x.len() ==> function_free(#[trigger] x[k]),
    ensures
        items_equal(x, y, i) is Ok,
    decreases x, x.len() - i,
{
    if 0 <= i < x.len() && i < y.len() {
        lemma_equals_defined(x[i], y[i]);
        lemma_items_defined(x, y, i + 1);
    }
}

/// Comparing fields whose values hold no function with any fields does not
/// fail.
pub proof fn lemma_fields_defined(x: Seq<FieldView>, y: Seq<FieldView>, i: int)
    requires
        forall|k: int| 0 <= k < x.len() ==> function_free(#[trigger] x[k].value),
    ensures
        fields_equal(x, y, i) is Ok,
    decreases x, x.len() - i,
{
    if 0 <= i < x.len() {
        match first_index(field_names(y), x[i].name, 0) {
            Some(j) => {
                if 0 <= j < y.len() {
                    lemma_equals_defined(x[i].value, y[j].value);
                    lemma_fields_defined(x, y, i + 1);
                }
            },
            None => {},
        }
    }
}

/// A sequence ends with another exactly when, both read backwards, it
/// starts with it.
pub proof fn lemma_suffix_is_reversed_prefix<A>(x: Seq<A>, y: Seq<A>)
    ensures
        y.is_suffix_of(x) <==> y.reverse().is_prefix_of(x.reverse()),
{
    let n = x.len() as int;
    let m = y.len() as int;
    let rx = x.reverse();
    let ry = y.reverse();
    assert(rx.len() == n);
    assert(ry.len() == m);
    if m <= n {
        let tail = x.subrange(n - m, n);
        let head = rx.subrange(0, m);
        if y.is_suffix_of(x) {
            assert forall|i: int| 0 <= i < m implies ry[i] == head[i] by {
                assert(ry[i] == y[m - 1 - i]);
                assert(y[m - 1 - i] == tail[m - 1 - i]);
                assert(head[i] == rx[i]);
                assert(rx[i] == x[n - 1 - i]);
            }
            assert(ry =~= head);
        }
        if ry.is_prefix_of(rx) {
            assert forall|i: int| 0 <= i < m implies y[i] == tail[i] by {
                assert(ry[m - 1 - i] == y[i]);
                assert(ry[m - 1 - i] == head[m - 1 - i]);
                assert(head[m - 1 - i] == rx[m - 1 - i]);
                assert(rx[m - 1 - i] == x[n - m + i]);
            }
            assert(y =~= tail);
        }
    }
}

/// A string or an array, read backwards.
pub open spec fn reversed(x: Either2<Seq<char>, Seq<ValView>>) -> Either2<
    Seq<char>,
    Seq<ValView>,
> {
    match x {
        Either2::A(text) => Either2::A(text.reverse()),
        Either2::B(items) => Either2::B(items.reverse()),
    }
}

/// Whether a string or an array holds no function.
pub open spec fn free_of_functions(x: Either2<Seq<char>, Seq<ValView>>) -> bool {
    match x {
        Either2::A(_) => true,
        Either2::B(items) => forall|i: int|
            0 <= i < items.len() ==> function_free(#[trigger] items[i]),
    }
}

/// Ending with mirrors starting with: `a` ends with `b` exactly when `a`
/// read backwards starts with `b` read backwards. The two tests look at the
/// same pairs of items from opposite ends, so they agree whenever both
/// succeed or both fail; one alone fails only where two functions meet
/// before the other test has found an unequal pair.
pub proof fn lemma_ends_with_mirrors_starts_with(
    a: Either2<Seq<char>, Seq<ValView>>,
    b: Either2<Seq<char>, Seq<ValView>>,
)
    ensures
        ends_with_spec(a, b) == Ok::<bool, ErrorView>(true) <==> starts_with_spec(
            reversed(a),
            reversed(b),
        ) == Ok::<bool, ErrorView>(true),
        (ends_with_spec(a, b) is Err) == (starts_with_spec(reversed(a), reversed(b)) is Err)
            ==> ends_with_spec(a, b) == starts_with_spec(reversed(a), reversed(b)),
{
    match (a, b) {
        (Either2::A(text), Either2::A(needle)) => {
            lemma_suffix_is_reversed_prefix(text, needle);
        },
        (Either2::A(_), Either2::B(_)) => {},
        (Either2::B(_), Either2::A(_)) => {},
        (Either2::B(items), Either2::B(needle)) => {
            let n = items.len() as int;
            let m = needle.len() as int;
            assert(items.reverse().len() == n);
            assert(needle.reverse().len() == m);
            if m <= n {
                let tail = items.subrange(n - m, n);
                let head = items.reverse().subrange(0, m);
                let back = needle.reverse();
                assert(ends_with_spec(a, b) == items_equal(tail, needle, 0));
                assert(starts_with_spec(reversed(a), reversed(b)) == items_equal(head, back, 0));
                lemma_items_all_equal(tail, needle, 0);
                lemma_items_all_equal(head, back, 0);
                lemma_items_error(tail, needle, 0);
                lemma_items_error(head, back, 0);
                if items_equal(tail, needle, 0) == Ok::<bool, ErrorView>(true) {
                    assert forall|i: int| 0 <= i < m implies #[trigger] equals_spec(
                        head[i],
                        back[i],
                    ) == Ok::<bool, ErrorView>(true) by {
                        assert(head[i] == tail[m - 1 - i]);
                        assert(back[i] == needle[m - 1 - i]);
                        assert(equals_spec(tail[m - 1 - i], needle[m - 1 - i]) == Ok::<
                            bool,
                            ErrorView,
                        >(true));
                    }
                }
                if items_equal(head, back, 0) == Ok::<bool, ErrorView>(true) {
                    assert forall|i: int| 0 <= i < m implies #[trigger] equals_spec(
                        tail[i],
                        needle[i],
                    ) == Ok::<bool, ErrorView>(true) by {
                        assert(tail[i] == head[m - 1 - i]);
                        assert(needle[i] == back[m - 1 - i]);
                        assert(equals_spec(head[m - 1 - i], back[m - 1 - i]) == Ok::<
                            bool,
                            ErrorView,
                        >(true));
                    }
                }
                let l = items_equal(tail, needle, 0);
                let r = items_equal(head, back, 0);
                assert(l == Ok::<bool, ErrorView>(true) <==> r == Ok::<bool, ErrorView>(true));
                if l is Err && r is Err {
                    assert(l->Err_0 == incomparable());
                    assert(r->Err_0 == incomparable());
                    assert(l == r);
                }
                if l is Ok && r is Ok {
                    assert(l->Ok_0 == r->Ok_0);
                    assert(l == r);
                }
            }
        },
    }
}

/// Where the first holds no function, ending with is starting with, both
/// read backwards.
pub proof fn lemma_ends_with_is_reversed_starts_with(
    a: Either2<Seq<char>, Seq<ValView>>,
    b: Either2<Seq<char>, Seq<ValView>>,
)
    requires
        free_of_functions(a),
    ensures
        ends_with_spec(a, b) == starts_with_spec(reversed(a), reversed(b)),
{
    lemma_ends_with_mirrors_starts_with(a, b);
    match (a, b) {
        (Either2::B(items), Either2::B(needle)) => {
            let n = items.len() as int;
            let m = needle.len() as int;
            assert(items.reverse().len() == n);
            assert(needle.reverse().len() == m);
            if m <= n {
                let tail = items.subrange(n - m, n);
                let head = items.reverse().subrange(0, m);
                assert forall|k: int| 0 <= k < tail.len() implies function_free(
                    #[trigger] tail[k],
                ) by {
                    assert(tail[k] == items[n - m + k]);
                }
                lemma_items_defined(tail, needle, 0);
                assert forall|k: int| 0 <= k < head.len() implies function_free(
                    #[trigger] head[k],
                ) by {
                    assert(head[k] == items[n - 1 - k]);
                }
                lemma_items_defined(head, needle.reverse(), 0);
            }
        },
        _ => {},
    }
}

} // verus!

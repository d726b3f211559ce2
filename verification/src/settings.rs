use vstd::prelude::*;
use crate::names::Named;
use crate::native::NativeCallback;
use crate::state::{
    bindings_view, Binding, BindingView, CellView, Computation, Context, HeapView, State,
};
use crate::value::Thunk;

verus! {

/// A native function and the name it is registered under.
pub struct NativeEntry {
    pub name: String,
    pub callback: NativeCallback,
}

impl Named for NativeEntry {
    open spec fn name_view(&self) -> Seq<char> {
        self.name@
    }

    fn name(&self) -> (r: &String) {
        &self.name
    }
}

/// What the host registers before evaluation begins: the external variables
/// and the native functions, latest registration first.
pub struct Settings {
    pub ext_vars: Vec<Binding>,
    pub natives: Vec<NativeEntry>,
}

impl Settings {
    /// The external variables: each name with the cell that holds its source.
    pub open spec fn ext_vars_view(&self) -> Seq<BindingView> {
        bindings_view(self.ext_vars@)
    }

    /// Settings with nothing registered.
    pub fn new() -> (r: Settings)
        ensures
            r.ext_vars_view() == Seq::<BindingView>::empty(),
            r.natives@ == Seq::<NativeEntry>::empty(),
    {
        let r = Settings { ext_vars: Vec::new(), natives: Vec::new() };
        assert(r.ext_vars_view() =~= Seq::<BindingView>::empty());
        r
    }

    /// Registers the external variable `name`: its source is suspended in
    /// `scope`, the variable's own, as a new cell of `s`.
    pub fn add_ext_var(&mut self, s: &mut State, name: String, source: Computation, scope: Context)
        ensures
            final(self).ext_vars_view() == seq![
                BindingView { name: name@, thunk: Thunk { slot: old(s).cells.len() } },
            ] + old(self).ext_vars_view(),
            final(self).natives == old(self).natives,
            final(s).heap() == (HeapView {
                cells: old(s).heap().cells.push(
                    CellView::Unevaluated { computation: source@, scope: scope@ },
                ),
                trace: old(s).heap().trace,
            }),
    {
        let thunk = s.suspend(source, scope);
        self.ext_vars.insert(0, Binding { name, thunk });
        assert(self.ext_vars_view() =~= seq![BindingView { name: name@, thunk }] + old(self).ext_vars_view());
    }

    /// Registers the native function `callback` under `name`.
    pub fn add_native(&mut self, name: String, callback: NativeCallback)
        ensures
            final(self).natives@ == seq![NativeEntry { name, callback }] + old(self).natives@,
            final(self).ext_vars == old(self).ext_vars,
    {
        self.natives.insert(0, NativeEntry { name, callback });
        assert(self.natives@ =~= seq![NativeEntry { name, callback }] + old(self).natives@);
    }
}

} // verus!

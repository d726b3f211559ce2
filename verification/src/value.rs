use vstd::prelude::*;

verus! {

/// The runtime shape of a value: one tag per variant of [`Val`].
#[derive(Clone, Copy, Debug, PartialEq, Eq, Structural)]
pub enum Shape {
    Null,
    Bool,
    Number,
    String,
    Array,
    Object,
    Function,
}

/// A handle to a lazily evaluated cell owned by an interpreter state.
#[derive(Clone, Copy, Debug, PartialEq, Eq, Structural)]
pub struct Thunk {
    pub slot: usize,
}

/// One declared parameter: its name and, where it has one, the cell that
/// computes its default.
#[derive(Debug, PartialEq, Eq)]
pub struct BuiltinParam {
    pub name: String,
    pub default: Option<Thunk>,
}

/// The mathematical form of a declared parameter.
pub struct ParamView {
    pub name: Seq<char>,
    pub default: Option<Thunk>,
}

impl View for BuiltinParam {
    type V = ParamView;

    open spec fn view(&self) -> ParamView {
        ParamView { name: self.name@, default: self.default }
    }
}

/// The mathematical form of a parameter list, in declaration order.
pub open spec fn params_view(params: Seq<BuiltinParam>) -> Seq<ParamView> {
    Seq::new(params.len(), |i: int| params[i]@)
}

/// A callable value: the name it is registered under and its signature.
#[derive(Debug, PartialEq, Eq)]
pub struct FuncVal {
    pub name: String,
    pub params: Vec<BuiltinParam>,
}

/// The mathematical form of a callable value.
pub struct FuncView {
    pub name: Seq<char>,
    pub params: Seq<ParamView>,
}

impl View for FuncVal {
    type V = FuncView;

    open spec fn view(&self) -> FuncView {
        FuncView { name: self.name@, params: params_view(self.params@) }
    }
}

/// One field of an object: its name and its value.
#[derive(Debug, PartialEq, Eq)]
pub struct Field {
    pub name: String,
    pub value: Val,
}

/// A value. Numbers are whole; an array holds its items and an object its
/// fields as values, not as cells.
#[derive(Debug, PartialEq, Eq)]
pub enum Val {
    Null,
    Bool(bool),
    Num(i64),
    Str(String),
    Arr(Vec<Val>),
    Obj(Vec<Field>),
    Func(FuncVal),
}

/// The mathematical form of a field.
pub struct FieldView {
    pub name: Seq<char>,
    pub value: ValView,
}

/// The mathematical form of a value.
pub enum ValView {
    Null,
    Bool(bool),
    Num(i64),
    Str(Seq<char>),
    Arr(Seq<ValView>),
    Obj(Seq<FieldView>),
    Func(FuncView),
}

/// The mathematical value that a [`Val`] stands for.
pub open spec fn val_view(v: Val) -> ValView
    decreases v,
{
    match v {
        Val::Null => ValView::Null,
        Val::Bool(b) => ValView::Bool(b),
        Val::Num(n) => ValView::Num(n),
        Val::Str(s) => ValView::Str(s@),
        Val::Arr(items) => ValView::Arr(
            Seq::new(
                items@.len(),
                |i: int|
                    if 0 <= i < items@.len() {
                        val_view(items@[i])
                    } else {
                        ValView::Null
                    },
            ),
        ),
        Val::Obj(fields) => ValView::Obj(
            Seq::new(
                fields@.len(),
                |i: int|
                    if 0 <= i < fields@.len() {
                        FieldView { name: fields@[i].name@, value: val_view(fields@[i].value) }
                    } else {
                        FieldView { name: Seq::empty(), value: ValView::Null }
                    },
            ),
        ),
        Val::Func(f) => ValView::Func(f@),
    }
}

impl View for Val {
    type V = ValView;

    open spec fn view(&self) -> ValView {
        val_view(*self)
    }
}

/// The shape of a value.
pub open spec fn shape_of(v: ValView) -> Shape {
    match v {
        ValView::Null => Shape::Null,
        ValView::Bool(_) => Shape::Bool,
        ValView::Num(_) => Shape::Number,
        ValView::Str(_) => Shape::String,
        ValView::Arr(_) => Shape::Array,
        ValView::Obj(_) => Shape::Object,
        ValView::Func(_) => Shape::Function,
    }
}

/// The mathematical form of a list of values, in its order.
pub open spec fn vals_view(items: Seq<Val>) -> Seq<ValView> {
    Seq::new(items.len(), |i: int| items[i]@)
}

/// The mathematical form of a list of fields, in its order.
pub open spec fn fields_view(fields: Seq<Field>) -> Seq<FieldView> {
    Seq::new(fields.len(), |i: int| FieldView { name: fields[i].name@, value: fields[i].value@ })
}

/// An array stands for the sequence of what its items stand for.
pub proof fn lemma_view_arr(items: Vec<Val>)
    ensures
        Val::Arr(items)@ == ValView::Arr(vals_view(items@)),
{
    assert(val_view(Val::Arr(items))->Arr_0 =~= vals_view(items@));
}

/// An object stands for the sequence of what its fields stand for.
pub proof fn lemma_view_obj(fields: Vec<Field>)
    ensures
        Val::Obj(fields)@ == ValView::Obj(fields_view(fields@)),
{
    assert(val_view(Val::Obj(fields))->Obj_0 =~= fields_view(fields@));
}

impl Clone for BuiltinParam {
    fn clone(&self) -> (r: Self)
        ensures
            r@ == self@,
    {
        BuiltinParam { name: self.name.clone(), default: self.default }
    }
}

/// Copies a parameter list.
pub fn clone_params(params: &Vec<BuiltinParam>) -> (r: Vec<BuiltinParam>)
    ensures
        params_view(r@) == params_view(params@),
{
    let mut out: Vec<BuiltinParam> = Vec::new();
    let mut i: usize = 0;
    while i < params.len()
        invariant
            i <= params.len(),
            out.len() == i,
            forall|k: int| 0 <= k < i ==> out@[k]@ == params@[k]@,
        decreases params.len() - i,
    {
        out.push(params[i].clone());
        i += 1;
    }
    assert(params_view(out@) =~= params_view(params@));
    out
}

impl Clone for FuncVal {
    fn clone(&self) -> (r: Self)
        ensures
            r@ == self@,
    {
        FuncVal { name: self.name.clone(), params: clone_params(&self.params) }
    }
}

impl Clone for Val {
    fn clone(&self) -> (r: Self)
        ensures
            r@ == self@,
        decreases self,
    {
        match self {
            Val::Null => Val::Null,
            Val::Bool(b) => Val::Bool(*b),
            Val::Num(n) => Val::Num(*n),
            Val::Str(s) => Val::Str(s.clone()),
            Val::Arr(items) => {
                let mut out: Vec<Val> = Vec::new();
                let mut i: usize = 0;
                while i < items.len()
                    invariant
                        i <= items.len(),
                        out.len() == i,
                        *self is Arr,
                        *items == self->Arr_0,
                        forall|k: int| 0 <= k < i ==> out@[k]@ == items@[k]@,
                    decreases items.len() - i,
                {
                    assert(decreases_to!(*self => self->Arr_0@[i as int]));
                    out.push(items[i].clone());
                    i += 1;
                }
                proof {
                    lemma_view_arr(out);
                    lemma_view_arr(*items);
                    assert(vals_view(out@) =~= vals_view(items@));
                }
                Val::Arr(out)
            },
            Val::Obj(fields) => {
                let mut out: Vec<Field> = Vec::new();
                let mut i: usize = 0;
                while i < fields.len()
                    invariant
                        i <= fields.len(),
                        out.len() == i,
                        *self is Obj,
                        *fields == self->Obj_0,
                        forall|k: int|
                            0 <= k < i ==> out@[k].name@ == fields@[k].name@ && out@[k].value@
                                == fields@[k].value@,
                    decreases fields.len() - i,
                {
                    assert(decreases_to!(*self => self->Obj_0@[i as int].value));
                    out.push(Field { name: fields[i].name.clone(), value: fields[i].value.clone() });
                    i += 1;
                }
                proof {
                    lemma_view_obj(out);
                    lemma_view_obj(*fields);
                    assert(fields_view(out@) =~= fields_view(fields@));
                }
                Val::Obj(out)
            },
            Val::Func(f) => Val::Func(f.clone()),
        }
    }
}

impl Val {
    /// The shape of this value.
    pub fn shape(&self) -> (r: Shape)
        ensures
            r == shape_of(self@),
    {
        match self {
            Val::Null => Shape::Null,
            Val::Bool(_) => Shape::Bool,
            Val::Num(_) => Shape::Number,
            Val::Str(_) => Shape::String,
            Val::Arr(_) => Shape::Array,
            Val::Obj(_) => Shape::Object,
            Val::Func(_) => Shape::Function,
        }
    }
}

} // verus!

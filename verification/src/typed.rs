use vstd::prelude::*;
use crate::error::{type_mismatch, Error, ErrorView};
use crate::value::{
    fields_view, lemma_view_arr, lemma_view_obj, shape_of, vals_view, Field, FieldView, FuncVal,
    FuncView, Shape, Val, ValView,
};

verus! {

/// A value that has one of two shapes.
#[derive(Debug, PartialEq, Eq)]
pub enum Either2<A, B> {
    A(A),
    B(B),
}

/// A value that has one of four shapes.
#[derive(Debug, PartialEq, Eq)]
pub enum Either4<A, B, C, D> {
    A(A),
    B(B),
    C(C),
    D(D),
}

/// The first position at or after `from` at which `accepted` holds `shape`.
pub open spec fn first_shape(accepted: Seq<Shape>, shape: Shape, from: int) -> Option<int>
    decreases accepted.len() - from,
{
    if from < 0 || from >= accepted.len() {
        None
    } else if accepted[from] == shape {
        Some(from)
    } else {
        first_shape(accepted, shape, from + 1)
    }
}

/// Which of the accepted shapes a value has: the position of the first one
/// that is the value's own shape, or a mismatch that names them all.
pub open spec fn classify_spec(v: ValView, accepted: Seq<Shape>) -> Result<int, ErrorView> {
    match first_shape(accepted, shape_of(v), 0) {
        Some(i) => Ok(i),
        None => Err(type_mismatch(accepted, shape_of(v))),
    }
}

/// Finds which of the accepted shapes a value has.
pub fn classify(v: &Val, accepted: &Vec<Shape>) -> (r: Result<usize, Error>)
    ensures
        match r {
            Ok(i) => classify_spec(v@, accepted@) == Ok::<int, ErrorView>(i as int) && i
                < accepted@.len() && accepted@[i as int] == shape_of(v@),
            Err(e) => classify_spec(v@, accepted@) == Err::<int, ErrorView>(e@),
        },
{
    let shape = v.shape();
    let mut i: usize = 0;
    while i < accepted.len()
        invariant
            i <= accepted.len(),
            shape == shape_of(v@),
            first_shape(accepted@, shape, 0) == first_shape(accepted@, shape, i as int),
        decreases accepted.len() - i,
    {
        if accepted[i] == shape {
            return Ok(i);
        }
        i += 1;
    }
    Err(Error::type_mismatch(accepted, shape))
}

/// The shapes that [`text`] accepts.
pub open spec fn text_shapes() -> Seq<Shape> {
    seq![Shape::String]
}

/// A value as a string: any other shape is a mismatch.
pub open spec fn text_spec(v: ValView) -> Result<Seq<char>, ErrorView> {
    match v {
        ValView::Str(s) => Ok(s),
        _ => Err(type_mismatch(text_shapes(), shape_of(v))),
    }
}

/// Takes a value as a string.
pub fn text(v: Val) -> (r: Result<String, Error>)
    ensures
        match r {
            Ok(s) => text_spec(v@) == Ok::<Seq<char>, ErrorView>(s@),
            Err(e) => text_spec(v@) == Err::<Seq<char>, ErrorView>(e@),
        },
{
    let accepted = vec![Shape::String];
    assert(accepted@ =~= text_shapes());
    match classify(&v, &accepted) {
        Err(e) => {
            assert(first_shape(accepted@, shape_of(v@), 1) is None);
            Err(e)
        },
        Ok(_) => match v {
            Val::Str(s) => Ok(s),
            other => Err(Error::type_mismatch(&accepted, other.shape())),
        },
    }
}

/// A string or an array.
pub open spec fn text_or_array_view(e: Either2<String, Vec<Val>>) -> Either2<
    Seq<char>,
    Seq<ValView>,
> {
    match e {
        Either2::A(s) => Either2::A(s@),
        Either2::B(items) => Either2::B(vals_view(items@)),
    }
}

/// The shapes that [`text_or_array`] accepts, in their order.
pub open spec fn text_or_array_shapes() -> Seq<Shape> {
    seq![Shape::String, Shape::Array]
}

/// A value as a string or an array: any other shape is a mismatch.
pub open spec fn text_or_array_spec(v: ValView) -> Result<
    Either2<Seq<char>, Seq<ValView>>,
    ErrorView,
> {
    match v {
        ValView::Str(s) => Ok(Either2::A(s)),
        ValView::Arr(items) => Ok(Either2::B(items)),
        _ => Err(type_mismatch(text_or_array_shapes(), shape_of(v))),
    }
}

/// Takes a value as a string or an array.
pub fn text_or_array(v: Val) -> (r: Result<Either2<String, Vec<Val>>, Error>)
    ensures
        match r {
            Ok(e) => text_or_array_spec(v@) == Ok::<Either2<Seq<char>, Seq<ValView>>, ErrorView>(
                text_or_array_view(e),
            ),
            Err(e) => text_or_array_spec(v@) == Err::<Either2<Seq<char>, Seq<ValView>>, ErrorView>(
                e@,
            ),
        },
{
    let accepted = vec![Shape::String, Shape::Array];
    assert(accepted@ =~= text_or_array_shapes());
    match classify(&v, &accepted) {
        Err(e) => {
            assert(first_shape(accepted@, shape_of(v@), 2) is None);
            assert(first_shape(accepted@, shape_of(v@), 1) is None);
            Err(e)
        },
        Ok(_) => match v {
            Val::Str(s) => Ok(Either2::A(s)),
            Val::Arr(items) => {
                proof {
                    lemma_view_arr(items);
                }
                Ok(Either2::B(items))
            },
            other => Err(Error::type_mismatch(&accepted, other.shape())),
        },
    }
}

/// A string, an array, an object or a function.
pub open spec fn measurable_view(e: Either4<String, Vec<Val>, Vec<Field>, FuncVal>) -> Either4<
    Seq<char>,
    Seq<ValView>,
    Seq<FieldView>,
    FuncView,
> {
    match e {
        Either4::A(s) => Either4::A(s@),
        Either4::B(items) => Either4::B(vals_view(items@)),
        Either4::C(fields) => Either4::C(fields_view(fields@)),
        Either4::D(f) => Either4::D(f@),
    }
}

/// The shapes that [`measurable`] accepts, in their order.
pub open spec fn measurable_shapes() -> Seq<Shape> {
    seq![Shape::String, Shape::Array, Shape::Object, Shape::Function]
}

/// A value as a string, an array, an object or a function: any other shape
/// is a mismatch.
pub open spec fn measurable_spec(v: ValView) -> Result<
    Either4<Seq<char>, Seq<ValView>, Seq<FieldView>, FuncView>,
    ErrorView,
> {
    match v {
        ValView::Str(s) => Ok(Either4::A(s)),
        ValView::Arr(items) => Ok(Either4::B(items)),
        ValView::Obj(fields) => Ok(Either4::C(fields)),
        ValView::Func(f) => Ok(Either4::D(f)),
        _ => Err(type_mismatch(measurable_shapes(), shape_of(v))),
    }
}

/// Takes a value as a string, an array, an object or a function.
pub fn measurable(v: Val) -> (r: Result<Either4<String, Vec<Val>, Vec<Field>, FuncVal>, Error>)
    ensures
        match r {
            Ok(e) => measurable_spec(v@) == Ok::<
                Either4<Seq<char>, Seq<ValView>, Seq<FieldView>, FuncView>,
                ErrorView,
            >(measurable_view(e)),
            Err(e) => measurable_spec(v@) == Err::<
                Either4<Seq<char>, Seq<ValView>, Seq<FieldView>, FuncView>,
                ErrorView,
            >(e@),
        },
{
    let accepted = vec![Shape::String, Shape::Array, Shape::Object, Shape::Function];
    assert(accepted@ =~= measurable_shapes());
    match classify(&v, &accepted) {
        Err(e) => {
            assert(first_shape(accepted@, shape_of(v@), 4) is None);
            assert(first_shape(accepted@, shape_of(v@), 3) is None);
            assert(first_shape(accepted@, shape_of(v@), 2) is None);
            assert(first_shape(accepted@, shape_of(v@), 1) is None);
            Err(e)
        },
        Ok(_) => match v {
            Val::Str(s) => Ok(Either4::A(s)),
            Val::Arr(items) => {
                proof {
                    lemma_view_arr(items);
                }
                Ok(Either4::B(items))
            },
            Val::Obj(fields) => {
                proof {
                    lemma_view_obj(fields);
                }
                Ok(Either4::C(fields))
            },
            Val::Func(f) => Ok(Either4::D(f)),
            other => Err(Error::type_mismatch(&accepted, other.shape())),
        },
    }
}

} // verus!

use vstd::prelude::*;
use crate::error::{lift, runtime, Error, ErrorView};
use crate::names::{find, first_index, names_of, Named};
use crate::value::{
    fields_view, lemma_view_arr, lemma_view_obj, vals_view, Field, FieldView, Val, ValView,
};

verus! {

impl Named for Field {
    open spec fn name_view(&self) -> Seq<char> {
        self.name@
    }

    fn name(&self) -> (r: &String) {
        &self.name
    }
}

/// The names of the fields of an object, in their order.
pub open spec fn field_names(fields: Seq<FieldView>) -> Seq<Seq<char>> {
    Seq::new(fields.len(), |i: int| fields[i].name)
}

/// The error that comparing two functions gives.
pub open spec fn incomparable() -> ErrorView {
    runtime("cannot test equality of functions"@)
}

/// Whether every field of `x` has a namesake among the fields of `y`.
pub open spec fn names_covered(x: Seq<FieldView>, y: Seq<FieldView>) -> bool {
    forall|i: int| 0 <= i < x.len() ==> first_index(field_names(y), #[trigger] x[i].name, 0) is Some
}

/// Structural equality of two values.
///
/// Values of different shapes are unequal. Arrays are equal when they have
/// the same length and equal items, compared from the first on. Objects are
/// equal when they have as many fields, each field of the one has a namesake in the
/// other, and the values under each name are equal. Two functions cannot be
/// compared: the comparison fails, and so does that of whatever holds them,
/// unless an earlier item or field has already settled it.
pub open spec fn equals_spec(a: ValView, b: ValView) -> Result<bool, ErrorView>
    decreases a,
{
    match (a, b) {
        (ValView::Null, ValView::Null) => Ok(true),
        (ValView::Bool(p), ValView::Bool(q)) => Ok(p == q),
        (ValView::Num(p), ValView::Num(q)) => Ok(p == q),
        (ValView::Str(p), ValView::Str(q)) => Ok(p == q),
        (ValView::Arr(x), ValView::Arr(y)) => if x.len() != y.len() {
            Ok(false)
        } else {
            items_equal(x, y, 0)
        },
        (ValView::Obj(x), ValView::Obj(y)) => if x.len() != y.len() || !names_covered(x, y) {
            Ok(false)
        } else {
            fields_equal(x, y, 0)
        },
        (ValView::Func(_), ValView::Func(_)) => Err(incomparable()),
        _ => Ok(false),
    }
}

/// The comparison of `x[i..]` with `y[i..]`, item by item, up to the first
/// pair that is unequal or cannot be compared.
pub open spec fn items_equal(x: Seq<ValView>, y: Seq<ValView>, i: int) -> Result<bool, ErrorView>
    decreases x, x.len() - i,
{
    if i < 0 || i >= x.len() || i >= y.len() {
        Ok(true)
    } else {
        match equals_spec(x[i], y[i]) {
            Err(e) => Err(e),
            Ok(false) => Ok(false),
            Ok(true) => items_equal(x, y, i + 1),
        }
    }
}

/// The comparison of the fields `x[i..]` with their namesakes in `y`, up to
/// the first pair that is unequal or cannot be compared.
pub open spec fn fields_equal(x: Seq<FieldView>, y: Seq<FieldView>, i: int) -> Result<
    bool,
    ErrorView,
>
    decreases x, x.len() - i,
{
    if i < 0 || i >= x.len() {
        Ok(true)
    } else {
        match first_index(field_names(y), x[i].name, 0) {
            None => Ok(false),
            Some(j) => if 0 <= j < y.len() {
                match equals_spec(x[i].value, y[j].value) {
                    Err(e) => Err(e),
                    Ok(false) => Ok(false),
                    Ok(true) => fields_equal(x, y, i + 1),
                }
            } else {
                Ok(false)
            },
        }
    }
}

/// Compares `b` with the stretch of `a` that starts at `start` and is as long.
pub fn compare_from(a: &Vec<Val>, start: usize, b: &Vec<Val>) -> (r: Result<bool, Error>)
    requires
        start + b.len() <= a.len(),
    ensures
        lift(r) == items_equal(
            vals_view(a@).subrange(start as int, start + b.len()),
            vals_view(b@),
            0,
        ),
    decreases *a,
{
    let ghost x = vals_view(a@).subrange(start as int, start + b.len());
    let ghost y = vals_view(b@);
    let mut i: usize = 0;
    while i < b.len()
        invariant
            i <= b.len(),
            start + b.len() <= a.len(),
            x == vals_view(a@).subrange(start as int, start + b.len()),
            y == vals_view(b@),
            items_equal(x, y, 0) == items_equal(x, y, i as int),
        decreases b.len() - i,
    {
        assert(x[i as int] == a@[start + i]@);
        assert(y[i as int] == b@[i as int]@);
        assert(decreases_to!(*a => a@[start + i]));
        match equals(&a[start + i], &b[i]) {
            Err(e) => {
                return Err(e);
            },
            Ok(same) => {
                if !same {
                    return Ok(false);
                }
            },
        }
        i += 1;
    }
    Ok(true)
}

/// Compares two values structurally.
pub fn equals(a: &Val, b: &Val) -> (r: Result<bool, Error>)
    ensures
        lift(r) == equals_spec(a@, b@),
    decreases *a,
{
    match a {
        Val::Null => Ok(
            match b {
                Val::Null => true,
                _ => false,
            },
        ),
        Val::Bool(p) => Ok(
            match b {
                Val::Bool(q) => *p == *q,
                _ => false,
            },
        ),
        Val::Num(p) => Ok(
            match b {
                Val::Num(q) => *p == *q,
                _ => false,
            },
        ),
        Val::Str(p) => Ok(
            match b {
                Val::Str(q) => *p == *q,
                _ => false,
            },
        ),
        Val::Arr(x) => match b {
            Val::Arr(y) => {
                proof {
                    lemma_view_arr(*x);
                    lemma_view_arr(*y);
                }
                if x.len() != y.len() {
                    Ok(false)
                } else {
                    assert(vals_view(x@).subrange(0, 0 + y.len()) =~= vals_view(x@));
                    assert(decreases_to!(*a => a->Arr_0));
                    compare_from(x, 0, y)
                }
            },
            _ => Ok(false),
        },
        Val::Obj(x) => match b {
            Val::Obj(y) => {
                proof {
                    lemma_view_obj(*x);
                    lemma_view_obj(*y);
                    assert(names_of(y@) =~= field_names(fields_view(y@)));
                }
                if x.len() != y.len() {
                    return Ok(false);
                }
                let ghost xs = fields_view(x@);
                let ghost ys = fields_view(y@);
                let mut i: usize = 0;
                while i < x.len()
                    invariant
                        i <= x.len(),
                        xs == fields_view(x@),
                        ys == fields_view(y@),
                        names_of(y@) == field_names(ys),
                        a@ == ValView::Obj(xs),
                        b@ == ValView::Obj(ys),
                        x.len() == y.len(),
                        forall|k: int|
                            0 <= k < i ==> first_index(field_names(ys), #[trigger] xs[k].name, 0) is Some,
                    decreases x.len() - i,
                {
                    match find(y, &x[i].name) {
                        None => {
                            assert(xs[i as int].name == x@[i as int].name@);
                            assert(!names_covered(xs, ys));
                            return Ok(false);
                        },
                        Some(_) => {},
                    }
                    i += 1;
                }
                assert(names_covered(xs, ys));
                let mut i: usize = 0;
                while i < x.len()
                    invariant
                        i <= x.len(),
                        xs == fields_view(x@),
                        ys == fields_view(y@),
                        names_of(y@) == field_names(ys),
                        a@ == ValView::Obj(xs),
                        b@ == ValView::Obj(ys),
                        x.len() == y.len(),
                        names_covered(xs, ys),
                        *a is Obj,
                        *x == a->Obj_0,
                        fields_equal(xs, ys, 0) == fields_equal(xs, ys, i as int),
                    decreases x.len() - i,
                {
                    assert(xs[i as int].name == x@[i as int].name@);
                    match find(y, &x[i].name) {
                        None => {
                            return Ok(false);
                        },
                        Some(j) => {
                            assert(decreases_to!(*a => a->Obj_0@[i as int].value));
                            match equals(&x[i].value, &y[j].value) {
                                Err(e) => {
                                    return Err(e);
                                },
                                Ok(same) => {
                                    if !same {
                                        return Ok(false);
                                    }
                                },
                            }
                        },
                    }
                    i += 1;
                }
                Ok(true)
            },
            _ => Ok(false),
        },
        Val::Func(_) => match b {
            Val::Func(_) => Err(Error::runtime("cannot test equality of functions")),
            _ => Ok(false),
        },
    }
}

} // verus!

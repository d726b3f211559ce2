use vstd::prelude::*;

verus! {

/// The first position at or after `from` at which `names` holds `name`.
pub open spec fn first_index(names: Seq<Seq<char>>, name: Seq<char>, from: int) -> Option<int>
    decreases names.len() - from,
{
    if from < 0 || from >= names.len() {
        None
    } else if names[from] == name {
        Some(from)
    } else {
        first_index(names, name, from + 1)
    }
}

/// Something that is found by its name.
pub trait Named {
    spec fn name_view(&self) -> Seq<char>;

    fn name(&self) -> (r: &String)
        ensures
            r@ == self.name_view(),
    ;
}

/// The names of `items`, in their order.
pub open spec fn names_of<T: Named>(items: Seq<T>) -> Seq<Seq<char>> {
    Seq::new(items.len(), |i: int| items[i].name_view())
}

/// The position of the first of `items` that is named `name`.
pub fn find<T: Named>(items: &Vec<T>, name: &String) -> (r: Option<usize>)
    ensures
        match r {
            Some(i) => first_index(names_of(items@), name@, 0) == Some(i as int) && i
                < items.len(),
            None => first_index(names_of(items@), name@, 0) is None,
        },
{
    let mut i: usize = 0;
    while i < items.len()
        invariant
            i <= items.len(),
            first_index(names_of(items@), name@, 0) == first_index(
                names_of(items@),
                name@,
                i as int,
            ),
        decreases items.len() - i,
    {
        if *items[i].name() == *name {
            return Some(i);
        }
        i += 1;
    }
    None
}

} // verus!

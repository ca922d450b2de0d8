//! Collections whose length the argument schema derives from the type:
//! `Repeat<T, N>` takes exactly `N` values, `RepeatMin<T, MIN>` at least
//! `MIN`, `RepeatMax<T, MAX>` at most `MAX`, `RepeatMinMax<T, MIN, MAX>` both.
//! The bound is read when the schema is built; the value itself is a plain
//! vector and is not checked at run time.
use vstd::prelude::*;

verus! {

/// Exactly `N` occurrences of an argument.
pub struct Repeat<T, const N: usize>(pub Vec<T>);

impl<T, const N: usize> View for Repeat<T, N> {
    type V = Seq<T>;

    open spec fn view(&self) -> Seq<T> {
        self.0@
    }
}

impl<T, const N: usize> Repeat<T, N> {
    pub fn new(vec: Vec<T>) -> (r: Self)
        ensures
            r@ == vec@,
    {
        Repeat(vec)
    }

    pub fn into_inner(self) -> (r: Vec<T>)
        ensures
            r@ == self@,
    {
        self.0
    }

    pub fn as_vec(&self) -> (r: &Vec<T>)
        ensures
            r@ == self@,
    {
        &self.0
    }
}

/// At least `MIN` occurrences of an argument.
pub struct RepeatMin<T, const MIN: usize>(pub Vec<T>);

impl<T, const MIN: usize> View for RepeatMin<T, MIN> {
    type V = Seq<T>;

    open spec fn view(&self) -> Seq<T> {
        self.0@
    }
}

impl<T, const MIN: usize> RepeatMin<T, MIN> {
    pub fn new(vec: Vec<T>) -> (r: Self)
        ensures
            r@ == vec@,
    {
        RepeatMin(vec)
    }

    pub fn into_inner(self) -> (r: Vec<T>)
        ensures
            r@ == self@,
    {
        self.0
    }

    pub fn as_vec(&self) -> (r: &Vec<T>)
        ensures
            r@ == self@,
    {
        &self.0
    }
}

/// At most `MAX` occurrences of an argument.
pub struct RepeatMax<T, const MAX: usize>(pub Vec<T>);

impl<T, const MAX: usize> View for RepeatMax<T, MAX> {
    type V = Seq<T>;

    open spec fn view(&self) -> Seq<T> {
        self.0@
    }
}

impl<T, const MAX: usize> RepeatMax<T, MAX> {
    pub fn new(vec: Vec<T>) -> (r: Self)
        ensures
            r@ == vec@,
    {
        RepeatMax(vec)
    }

    pub fn into_inner(self) -> (r: Vec<T>)
        ensures
            r@ == self@,
    {
        self.0
    }

    pub fn as_vec(&self) -> (r: &Vec<T>)
        ensures
            r@ == self@,
    {
        &self.0
    }
}

/// Between `MIN` and `MAX` occurrences of an argument.
pub struct RepeatMinMax<T, const MIN: usize, const MAX: usize>(pub Vec<T>);

impl<T, const MIN: usize, const MAX: usize> View for RepeatMinMax<T, MIN, MAX> {
    type V = Seq<T>;

    open spec fn view(&self) -> Seq<T> {
        self.0@
    }
}

impl<T, const MIN: usize, const MAX: usize> RepeatMinMax<T, MIN, MAX> {
    pub fn new(vec: Vec<T>) -> (r: Self)
        ensures
            r@ == vec@,
    {
        RepeatMinMax(vec)
    }

    pub fn into_inner(self) -> (r: Vec<T>)
        ensures
            r@ == self@,
    {
        self.0
    }

    pub fn as_vec(&self) -> (r: &Vec<T>)
        ensures
            r@ == self@,
    {
        &self.0
    }
}

} // verus!

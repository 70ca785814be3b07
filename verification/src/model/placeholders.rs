//! The values bound to a statement, in the order of their markers.
use vstd::prelude::*;
use super::value::{clone_values, views, Value, ValueView};

verus! {

/// The values bound to a statement. The value at position `i` belongs to the
/// marker `$i+1`; values are added at the end and never moved.
#[derive(Debug)]
pub struct Placeholders {
    values: Vec<Value>,
}

impl View for Placeholders {
    type V = Seq<ValueView>;

    closed spec fn view(&self) -> Seq<ValueView> {
        views(self.values@)
    }
}

impl Default for Placeholders {
    fn default() -> (r: Self)
        ensures
            r@ == Seq::<ValueView>::empty(),
    {
        Placeholders::new()
    }
}

impl Clone for Placeholders {
    fn clone(&self) -> (r: Self)
        ensures
            r@ == self@,
    {
        Placeholders { values: clone_values(&self.values) }
    }
}

impl Placeholders {
    /// No value bound.
    pub fn new() -> (r: Self)
        ensures
            r@ == Seq::<ValueView>::empty(),
    {
        let r = Placeholders { values: Vec::new() };
        proof {
            assert(r@ =~= Seq::empty());
        }
        r
    }

    /// Binds `value` after those already bound and returns the number of its
    /// marker, which is its position counted from one.
    pub fn add(&mut self, value: &Value) -> (marker: usize)
        ensures
            final(self)@ == old(self)@.push(value@),
            marker == old(self)@.len() + 1,
    {
        self.values.push(value.clone());
        proof {
            assert(self@ =~= old(self)@.push(value@));
        }
        self.values.len()
    }

    /// How many values are bound.
    pub fn len(&self) -> (n: usize)
        ensures
            n == self@.len(),
    {
        self.values.len()
    }

    /// Whether no value is bound.
    pub fn is_empty(&self) -> (r: bool)
        ensures
            r == (self@.len() == 0),
    {
        self.values.len() == 0
    }

    /// The value bound to the marker `$marker`, if there is one.
    pub fn get(&self, marker: usize) -> (r: Option<&Value>)
        ensures
            r is Some <==> 1 <= marker <= self@.len(),
            r matches Some(value) ==> value@ == self@[marker - 1],
    {
        if 1 <= marker && marker <= self.values.len() {
            Some(&self.values[marker - 1])
        } else {
            None
        }
    }

    /// The bound values, in the order of their markers.
    pub fn values(&self) -> (r: Vec<Value>)
        ensures
            views(r@) == self@,
    {
        clone_values(&self.values)
    }
}

} // verus!

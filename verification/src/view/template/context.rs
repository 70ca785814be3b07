//! The variables that a template can see.
use vstd::prelude::*;
use super::language::{Constant, ConstantView};
use crate::text::same_text;

verus! {

/// The variables that a template can see, each with its value. A variable
/// that is set again takes its new value.
#[derive(Debug)]
pub struct Context {
    variables: Vec<(String, Constant)>,
}

/// What a [`Context`] holds: the name and the value of each variable, in the
/// order in which they were set.
pub type ContextView = Seq<(Seq<char>, ConstantView)>;

/// The value of the variable `name`: the one that was set last.
pub open spec fn value_of(context: ContextView, name: Seq<char>) -> Option<ConstantView>
    decreases context.len(),
{
    if context.len() == 0 {
        None
    } else if context.last().0 == name {
        Some(context.last().1)
    } else {
        value_of(context.drop_last(), name)
    }
}

impl View for Context {
    type V = ContextView;

    closed spec fn view(&self) -> ContextView {
        Seq::new(self.variables@.len(), |i: int| (self.variables@[i].0@, self.variables@[i].1@))
    }
}

impl Default for Context {
    fn default() -> (r: Self)
        ensures
            r@ == Seq::<(Seq<char>, ConstantView)>::empty(),
    {
        let r = Context { variables: Vec::new() };
        proof {
            assert(r@ =~= Seq::empty());
        }
        r
    }
}

impl Context {
    /// Sets the variable `name` to `value`.
    pub fn set(&mut self, name: &str, value: Constant)
        ensures
            final(self)@ == old(self)@.push((name@, value@)),
    {
        self.variables.push((String::from_str(name), value));
        proof {
            assert(self@ =~= old(self)@.push((name@, value@)));
        }
    }

    /// The value of the variable `name`, if it is set.
    pub fn get(&self, name: &str) -> (r: Option<&Constant>)
        ensures
            match r {
                Some(value) => value_of(self@, name@) == Some(value@),
                None => value_of(self@, name@) is None,
            },
    {
        let ghost all = self@;
        let mut i: usize = self.variables.len();
        proof {
            assert(all.take(i as int) == all);
        }
        while i > 0
            invariant
                i <= self.variables@.len(),
                all == self@,
                all.len() == self.variables@.len(),
                value_of(all, name@) == value_of(all.take(i as int), name@),
            decreases i,
        {
            proof {
                assert(all.take(i as int).last() == all[i - 1]);
                assert(all.take(i as int).drop_last() == all.take(i - 1));
                assert(all[i - 1].0 == self.variables@[i - 1].0@);
                assert(all[i - 1].1 == self.variables@[i - 1].1@);
            }
            if same_text(self.variables[i - 1].0.as_str(), name) {
                return Some(&self.variables[i - 1].1);
            }
            i -= 1;
        }
        proof {
            assert(all.take(0).len() == 0);
        }
        None
    }
}

} // verus!

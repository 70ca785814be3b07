//! Quoting of SQL identifiers.
use vstd::prelude::*;

verus! {

/// `s` with every double quote written twice.
pub open spec fn escaped(s: Seq<char>) -> Seq<char>
    decreases s.len(),
{
    if s.len() == 0 {
        s
    } else if s.last() == '"' {
        escaped(s.drop_last()).push('"').push('"')
    } else {
        escaped(s.drop_last()).push(s.last())
    }
}

/// `s` as a quoted identifier: escaped, between double quotes.
pub open spec fn quoted(s: Seq<char>) -> Seq<char> {
    seq!['"'] + escaped(s) + seq!['"']
}

/// Text that can be made safe to place between double quotes.
pub trait Escape {
    /// The characters of `self`. An implementation says what they are; where
    /// it says nothing, nothing is known of them.
    open spec fn characters(&self) -> Seq<char> {
        arbitrary()
    }

    /// Doubles every double quote, so that the result cannot end the quoted
    /// identifier it is placed in.
    fn escape(&self) -> (r: String)
        ensures
            r@ == escaped(self.characters()),
    ;
}

impl Escape for str {
    open spec fn characters(&self) -> Seq<char> {
        self@
    }

    fn escape(&self) -> (r: String) {
        let mut out = String::new();
        for c in it: self.chars()
            invariant
                it.seq() == self@,
                out@ == escaped(self@.take(it.index())),
        {
            proof {
                assert(self@.take(it.index() + 1).drop_last() == self@.take(it.index()));
            }
            if c == '"' {
                out.push('"');
            }
            out.push(c);
        }
        proof {
            assert(self@.take(self@.len() as int) == self@);
        }
        out
    }
}

impl Escape for String {
    open spec fn characters(&self) -> Seq<char> {
        self@
    }

    fn escape(&self) -> (r: String) {
        self.as_str().escape()
    }
}

/// Appends `s` as a quoted identifier.
pub fn push_quoted(out: &mut String, s: &str)
    ensures
        final(out)@ == old(out)@ + quoted(s@),
{
    out.push('"');
    let inner = s.escape();
    out.append(inner.as_str());
    out.push('"');
    proof {
        assert(out@ == old(out)@ + quoted(s@));
    }
}

} // verus!

//! Statements that are written out piece by piece.
use vstd::prelude::*;
use super::escape::{push_quoted, quoted};
use super::filter::{marker, push_marker};
use super::markers::{
    lemma_inert_is_marked, lemma_marked_then_inert, lemma_marked_then_marked,
    lemma_marker_is_marked, lemma_markers_of_marked, lemma_plain_is_inert, lemma_quoted_is_inert,
    marked, markers_in, plain, starts_with_digit,
};
use super::value::{views, Value, ValueView};
use super::Prepared;
use crate::text::chars_of;

verus! {

/// The numbers from one up to `n`.
pub open spec fn numbered(n: nat) -> Seq<nat> {
    Seq::new(n, |i: int| (i + 1) as nat)
}

/// Whether `text` can stand as fixed words of a statement: it holds no quote
/// and no dollar sign, and does not start with a digit.
pub open spec fn is_word(text: Seq<char>) -> bool {
    plain(text) && !starts_with_digit(text)
}

fn check_word(text: &str) -> (r: bool)
    ensures
        r == is_word(text@),
{
    let chars = chars_of(text);
    if chars.len() > 0 && '0' <= chars[0] && chars[0] <= '9' {
        return false;
    }
    let mut i: usize = 0;
    while i < chars.len()
        invariant
            i <= chars@.len(),
            chars@ == text@,
            forall|k: int| 0 <= k < i ==> (#[trigger] chars@[k]) != '"' && chars@[k] != '$',
        decreases chars@.len() - i,
    {
        if chars[i] == '"' || chars[i] == '$' {
            return false;
        }
        i += 1;
    }
    true
}

/// A statement that is written out piece by piece: fixed words, quoted
/// identifiers and bound values. A value is bound and its marker written in
/// one step, so the markers of the text are always the numbers from one up
/// to the number of bound values, from left to right.
#[derive(Debug)]
pub struct StatementBuilder {
    sql: String,
    values: Vec<Value>,
}

/// What a [`StatementBuilder`] holds.
pub struct StatementBuilderView {
    pub sql: Seq<char>,
    pub values: Seq<ValueView>,
}

impl View for StatementBuilder {
    type V = StatementBuilderView;

    closed spec fn view(&self) -> StatementBuilderView {
        StatementBuilderView { sql: self.sql@, values: views(self.values@) }
    }
}

impl StatementBuilder {
    /// Whether the markers of the text are the numbers of the bound values,
    /// in order.
    pub open spec fn well_formed(&self) -> bool {
        marked(self@.sql, numbered(self@.values.len()))
    }

    /// Nothing written, nothing bound.
    pub fn new() -> (r: Self)
        ensures
            r@ == (StatementBuilderView { sql: Seq::empty(), values: Seq::empty() }),
            r.well_formed(),
    {
        let r = StatementBuilder { sql: String::new(), values: Vec::new() };
        proof {
            assert(r@.values =~= Seq::empty());
            lemma_plain_is_inert(Seq::empty());
            lemma_inert_is_marked(Seq::empty());
            assert(numbered(0) =~= Seq::empty());
        }
        r
    }

    /// Writes fixed words: text without a quote and without a dollar sign,
    /// which does not start with a digit. Any other text is not written.
    /// Tells whether the text was written.
    pub fn word(&mut self, text: &str) -> (written: bool)
        ensures
            written == is_word(text@),
            old(self).well_formed() ==> final(self).well_formed(),
            final(self)@ == if written {
                StatementBuilderView { sql: old(self)@.sql + text@, values: old(self)@.values }
            } else {
                old(self)@
            },
    {
        if !check_word(text) {
            return false;
        }
        proof {
            lemma_plain_is_inert(text@);
            if self.well_formed() {
                lemma_marked_then_inert(self@.sql, numbered(self@.values.len()), text@);
            }
        }
        self.sql.append(text);
        true
    }

    /// Writes an identifier, quoted.
    pub fn identifier(&mut self, name: &str)
        ensures
            old(self).well_formed() ==> final(self).well_formed(),
            final(self)@ == (StatementBuilderView {
                sql: old(self)@.sql + quoted(name@),
                values: old(self)@.values,
            }),
    {
        proof {
            lemma_quoted_is_inert(name@);
            assert(quoted(name@)[0] == '"');
            if self.well_formed() {
                lemma_marked_then_inert(self@.sql, numbered(self@.values.len()), quoted(name@));
            }
        }
        push_quoted(&mut self.sql, name);
    }

    /// Binds a value and writes its marker.
    pub fn bind(&mut self, value: Value)
        ensures
            old(self).well_formed() ==> final(self).well_formed(),
            final(self)@ == (StatementBuilderView {
                sql: old(self)@.sql + marker((old(self)@.values.len() + 1) as nat),
                values: old(self)@.values.push(value@),
            }),
    {
        let ghost n = self@.values.len();
        proof {
            lemma_marker_is_marked(n + 1);
            if self.well_formed() {
                lemma_marked_then_marked(self@.sql, numbered(n), marker(n + 1), seq![n + 1]);
                assert(numbered(n) + seq![n + 1] =~= numbered(n + 1));
            }
        }
        self.values.push(value);
        let number = self.values.len();
        push_marker(&mut self.sql, number);
        proof {
            assert(self@.values =~= old(self)@.values.push(value@));
        }
    }

    /// The statement as it stands.
    pub fn finish(self) -> (r: Prepared)
        ensures
            r.sql@ == self@.sql,
            views(r.values@) == self@.values,
            self.well_formed() ==> markers_in(r.sql@) == numbered(self@.values.len()),
    {
        proof {
            if self.well_formed() {
                lemma_markers_of_marked(self@.sql, numbered(self@.values.len()));
            }
        }
        Prepared { sql: self.sql, values: self.values }
    }
}

} // verus!

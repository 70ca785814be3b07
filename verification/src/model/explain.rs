//! The engine's plan for a query.
use vstd::prelude::*;
use super::row::{Row, RowView};
use super::value::Value;
use super::FromRow;

verus! {

/// The keyword that asks the engine for its plan.
pub open spec fn explain_keyword() -> Seq<char> {
    "EXPLAIN "@
}

/// The engine's plan for a query, as the engine words it.
#[derive(Debug, Clone)]
pub struct Explain {
    plan: String,
}

/// The text of the plan in `row`: what the first column says where it holds
/// text, else nothing.
pub open spec fn plan_text(row: RowView) -> Seq<char> {
    if row.len() > 0 && row[0].1 is Text {
        row[0].1->Text_0
    } else {
        Seq::empty()
    }
}

impl View for Explain {
    type V = Seq<char>;

    closed spec fn view(&self) -> Seq<char> {
        self.plan@
    }
}

impl Explain {
    /// The plan as text.
    pub fn to_string(&self) -> (s: String)
        ensures
            s@ == self@,
    {
        self.plan.clone()
    }
}

impl FromRow for Explain {
    open spec fn decodes(row: RowView, record: Self) -> bool {
        record@ == plan_text(row)
    }

    fn from_row(row: &Row) -> (r: Self) {
        match row.at(0) {
            Some(Value::Text(plan)) => Explain { plan: plan.clone() },
            _ => Explain { plan: String::new() },
        }
    }
}

} // verus!

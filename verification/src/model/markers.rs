//! Reading the markers back out of SQL text.
//!
//! A marker is a dollar sign followed by decimal digits, outside quoted
//! identifiers. What is proved here is that the markers of a compiled
//! statement are the numbers from one up to the number of values bound to
//! it, from left to right.
use vstd::prelude::*;
use super::column::{column_sqls, ColumnView, ColumnsView};
use super::escape::{escaped, quoted};
use super::filter::{
    all_opening, and_word, any_opening, bound_values, conditions, equal_sign, marker, markers,
    not_equal_sign, op_sql, or_word, where_keyword, where_sql, Comparison, FilterView,
};
use super::join::{equals_sign, join_keyword, joins_sql, on_keyword, JoinView};
use super::limit::{limit_keyword, offset_keyword, Limit};
use super::order_by::{
    ascending_word, descending_word, order_keyword, order_sql, order_sqls, OrderColumnView,
};
use super::select::{from_keyword, select_keyword, SelectView};
use crate::text::{decimal, digits_value, is_digit, joined, lemma_decimal};

verus! {

/// How many decimal digits `s` starts with.
pub open spec fn digit_run(s: Seq<char>) -> nat
    decreases s.len(),
{
    if s.len() > 0 && is_digit(s[0]) {
        1 + digit_run(s.skip(1))
    } else {
        0
    }
}

/// The numbers of the markers in `sql`, from left to right.
pub open spec fn markers_in(sql: Seq<char>) -> Seq<nat>
    decreases sql.len(),
{
    if sql.len() == 0 {
        Seq::empty()
    } else if sql[0] == '"' {
        markers_after_quote(sql.skip(1))
    } else if sql[0] == '$' {
        let digits = digit_run(sql.skip(1)) as int;
        if digits > 0 && 1 + digits <= sql.len() {
            seq![digits_value(sql.subrange(1, 1 + digits))] + markers_in(sql.skip(1 + digits))
        } else {
            markers_in(sql.skip(1))
        }
    } else {
        markers_in(sql.skip(1))
    }
}

/// The numbers of the markers in `sql`, which starts inside a quoted
/// identifier: those after the quote that ends it.
pub open spec fn markers_after_quote(sql: Seq<char>) -> Seq<nat>
    decreases sql.len(),
{
    if sql.len() == 0 {
        Seq::empty()
    } else if sql[0] == '"' {
        markers_in(sql.skip(1))
    } else {
        markers_after_quote(sql.skip(1))
    }
}

/// Text without a quote and without a dollar sign.
pub open spec fn plain(t: Seq<char>) -> bool {
    forall|i: int| 0 <= i < t.len() ==> (#[trigger] t[i]) != '"' && t[i] != '$'
}

/// Text that holds no marker and ends outside quoted identifiers, whatever
/// follows it.
pub open spec fn inert(t: Seq<char>) -> bool {
    forall|rest: Seq<char>| #[trigger] markers_in(t + rest) == markers_in(rest)
}

/// Whether `s` starts with a decimal digit.
pub open spec fn starts_with_digit(s: Seq<char>) -> bool {
    s.len() > 0 && is_digit(s[0])
}

/// Text that holds the markers `ms` and ends outside quoted identifiers,
/// whatever follows it that does not go on with a digit.
pub open spec fn marked(t: Seq<char>, ms: Seq<nat>) -> bool {
    forall|rest: Seq<char>|
        !starts_with_digit(rest) ==> #[trigger] markers_in(t + rest) == ms + markers_in(rest)
}

/// Text without a quote and without a dollar sign holds no marker.
pub proof fn lemma_plain_is_inert(t: Seq<char>)
    requires
        plain(t),
    ensures
        inert(t),
    decreases t.len(),
{
    assert forall|rest: Seq<char>| #[trigger] markers_in(t + rest) == markers_in(rest) by {
        if t.len() == 0 {
            assert(t + rest =~= rest);
        } else {
            let tail = t.skip(1);
            assert forall|i: int| 0 <= i < tail.len() implies (#[trigger] tail[i]) != '"'
                && tail[i] != '$' by {
                assert(tail[i] == t[i + 1]);
            }
            lemma_plain_is_inert(tail);
            let text = t + rest;
            assert(text[0] == t[0]);
            assert(t[0] != '"' && t[0] != '$');
            assert(text.skip(1) =~= tail + rest);
            assert(markers_in(text) == markers_in(text.skip(1)));
            assert(markers_in(tail + rest) == markers_in(rest));
        }
    }
}

/// Two texts that hold no marker hold none when one follows the other.
pub proof fn lemma_inert_then_inert(a: Seq<char>, b: Seq<char>)
    requires
        inert(a),
        inert(b),
    ensures
        inert(a + b),
{
    assert forall|rest: Seq<char>| #[trigger] markers_in((a + b) + rest) == markers_in(rest) by {
        assert((a + b) + rest =~= a + (b + rest));
        assert(markers_in(a + (b + rest)) == markers_in(b + rest));
    }
}

/// Text that holds no marker holds the empty list of markers.
pub proof fn lemma_inert_is_marked(t: Seq<char>)
    requires
        inert(t),
    ensures
        marked(t, Seq::empty()),
{
    assert forall|rest: Seq<char>| !starts_with_digit(rest) implies #[trigger] markers_in(t + rest)
        == Seq::<nat>::empty() + markers_in(rest) by {
        assert(Seq::<nat>::empty() + markers_in(rest) =~= markers_in(rest));
    }
}

/// The markers of two texts, one after the other, are those of the first and
/// then those of the second, where the second does not start with a digit.
pub proof fn lemma_marked_then_marked(a: Seq<char>, ma: Seq<nat>, b: Seq<char>, mb: Seq<nat>)
    requires
        marked(a, ma),
        marked(b, mb),
        !starts_with_digit(b),
    ensures
        marked(a + b, ma + mb),
{
    assert forall|rest: Seq<char>| !starts_with_digit(rest) implies #[trigger] markers_in(
        (a + b) + rest,
    ) == (ma + mb) + markers_in(rest) by {
        assert((a + b) + rest =~= a + (b + rest));
        if b.len() == 0 {
            assert(b + rest =~= rest);
        } else {
            assert((b + rest)[0] == b[0]);
        }
        assert(!starts_with_digit(b + rest));
        assert(markers_in(a + (b + rest)) == ma + markers_in(b + rest));
        assert(markers_in(b + rest) == mb + markers_in(rest));
        assert(ma + (mb + markers_in(rest)) =~= (ma + mb) + markers_in(rest));
    }
}

/// Text that holds no marker and does not start with a digit adds no marker
/// to the text that it follows.
pub proof fn lemma_marked_then_inert(a: Seq<char>, ma: Seq<nat>, b: Seq<char>)
    requires
        marked(a, ma),
        inert(b),
        !starts_with_digit(b),
    ensures
        marked(a + b, ma),
{
    lemma_inert_is_marked(b);
    lemma_marked_then_marked(a, ma, b, Seq::empty());
    assert(ma + Seq::<nat>::empty() =~= ma);
}

/// Text that holds no marker adds no marker to the text that follows it.
pub proof fn lemma_inert_then_marked(a: Seq<char>, b: Seq<char>, mb: Seq<nat>)
    requires
        inert(a),
        marked(b, mb),
    ensures
        marked(a + b, mb),
{
    assert forall|rest: Seq<char>| !starts_with_digit(rest) implies #[trigger] markers_in(
        (a + b) + rest,
    ) == mb + markers_in(rest) by {
        assert((a + b) + rest =~= a + (b + rest));
        assert(markers_in(a + (b + rest)) == markers_in(b + rest));
    }
}

/// Escaping works character by character, from the front too.
proof fn lemma_escaped_from_the_front(x: Seq<char>)
    requires
        x.len() > 0,
    ensures
        escaped(x) == (if x[0] == '"' {
            seq!['"', '"']
        } else {
            seq![x[0]]
        }) + escaped(x.skip(1)),
    decreases x.len(),
{
    let head = if x[0] == '"' {
        seq!['"', '"']
    } else {
        seq![x[0]]
    };
    if x.len() == 1 {
        assert(x.drop_last() =~= Seq::empty());
        assert(x.skip(1) =~= Seq::empty());
        assert(escaped(x) =~= head + escaped(x.skip(1)));
    } else {
        lemma_escaped_from_the_front(x.drop_last());
        assert(x.drop_last()[0] == x[0]);
        assert(x.drop_last().skip(1) =~= x.skip(1).drop_last());
        assert(x.skip(1).last() == x.last());
        assert(escaped(x) =~= head + escaped(x.skip(1)));
    }
}

proof fn lemma_inside_quotes(x: Seq<char>, rest: Seq<char>)
    ensures
        markers_after_quote(escaped(x) + seq!['"'] + rest) == markers_in(rest),
    decreases x.len(),
{
    let text = escaped(x) + seq!['"'] + rest;
    if x.len() == 0 {
        assert(escaped(x) =~= Seq::empty());
        assert(text[0] == '"');
        assert(text.skip(1) =~= rest);
        assert(markers_after_quote(text) == markers_in(text.skip(1)));
    } else {
        lemma_escaped_from_the_front(x);
        lemma_inside_quotes(x.skip(1), rest);
        let inner = escaped(x.skip(1)) + seq!['"'] + rest;
        if x[0] == '"' {
            assert(text =~= seq!['"', '"'] + inner);
            assert(text[0] == '"');
            let after = text.skip(1);
            assert(after[0] == '"');
            assert(after.skip(1) =~= inner);
            assert(markers_after_quote(text) == markers_in(after));
            assert(markers_in(after) == markers_after_quote(after.skip(1)));
        } else {
            assert(text =~= seq![x[0]] + inner);
            assert(text[0] == x[0]);
            assert(text.skip(1) =~= inner);
            assert(markers_after_quote(text) == markers_after_quote(text.skip(1)));
        }
    }
}

/// A quoted identifier holds no marker, whatever its name.
pub proof fn lemma_quoted_is_inert(x: Seq<char>)
    ensures
        inert(quoted(x)),
{
    assert forall|rest: Seq<char>| #[trigger] markers_in(quoted(x) + rest) == markers_in(rest) by {
        let text = quoted(x) + rest;
        assert(text[0] == '"');
        assert(text.skip(1) =~= escaped(x) + seq!['"'] + rest);
        lemma_inside_quotes(x, rest);
    }
}

proof fn lemma_digit_run(d: Seq<char>, rest: Seq<char>)
    requires
        forall|i: int| 0 <= i < d.len() ==> is_digit(#[trigger] d[i]),
        !starts_with_digit(rest),
    ensures
        digit_run(d + rest) == d.len(),
    decreases d.len(),
{
    if d.len() == 0 {
        assert(d + rest =~= rest);
    } else {
        let tail = d.skip(1);
        assert forall|i: int| 0 <= i < tail.len() implies is_digit(#[trigger] tail[i]) by {
            assert(tail[i] == d[i + 1]);
        }
        lemma_digit_run(tail, rest);
        assert((d + rest)[0] == d[0]);
        assert((d + rest).skip(1) =~= tail + rest);
    }
}

/// A marker reads back as its number.
pub proof fn lemma_marker_is_marked(n: nat)
    ensures
        marked(marker(n), seq![n]),
        !starts_with_digit(marker(n)),
{
    lemma_decimal(n);
    assert(marker(n)[0] == '$');
    assert forall|rest: Seq<char>| !starts_with_digit(rest) implies #[trigger] markers_in(
        marker(n) + rest,
    ) == seq![n] + markers_in(rest) by {
        let text = marker(n) + rest;
        let d = decimal(n);
        assert(text[0] == '$');
        assert(text.skip(1) =~= d + rest);
        lemma_digit_run(d, rest);
        assert(text.subrange(1, 1 + d.len() as int) =~= d);
        assert(text.skip(1 + d.len() as int) =~= rest);
    }
}

/// The fixed words of a statement hold no quote and no dollar sign.
proof fn lemma_words_are_plain()
    ensures
        plain(select_keyword()),
        plain(from_keyword()),
        plain(where_keyword()),
        plain(and_word()),
        plain(or_word()),
        plain(equal_sign()),
        plain(not_equal_sign()),
        plain(any_opening()),
        plain(all_opening()),
        plain(join_keyword()),
        plain(on_keyword()),
        plain(equals_sign()),
        plain(order_keyword()),
        plain(ascending_word()),
        plain(descending_word()),
        plain(limit_keyword()),
        plain(offset_keyword()),
        !starts_with_digit(and_word()),
        !starts_with_digit(or_word()),
        !starts_with_digit(equal_sign()),
        !starts_with_digit(not_equal_sign()),
        !starts_with_digit(any_opening()),
        !starts_with_digit(all_opening()),
        !starts_with_digit(order_keyword()),
        !starts_with_digit(limit_keyword()),
        !starts_with_digit(offset_keyword()),
{
    reveal_strlit("SELECT ");
    reveal_strlit(" FROM ");
    reveal_strlit(" WHERE ");
    reveal_strlit(" AND ");
    reveal_strlit(" OR ");
    reveal_strlit(" = ");
    reveal_strlit(" <> ");
    reveal_strlit(" = ANY(");
    reveal_strlit(" <> ALL(");
    reveal_strlit(" INNER JOIN ");
    reveal_strlit(" ON ");
    reveal_strlit(" ORDER BY ");
    reveal_strlit(" ASC");
    reveal_strlit(" DESC");
    reveal_strlit(" LIMIT ");
    reveal_strlit(" OFFSET ");
}

/// A column holds no marker.
pub proof fn lemma_column_is_inert(column: ColumnView)
    ensures
        inert(column.sql()),
        !starts_with_digit(column.sql()),
{
    lemma_quoted_is_inert(column.column_name);
    assert(quoted(column.column_name)[0] == '"');
    if column.table_name.len() > 0 {
        lemma_quoted_is_inert(column.table_name);
        assert(quoted(column.table_name)[0] == '"');
        lemma_plain_is_inert(seq!['.']);
        lemma_inert_then_inert(quoted(column.table_name), seq!['.']);
        lemma_inert_then_inert(quoted(column.table_name) + seq!['.'], quoted(column.column_name));
        assert(column.sql()[0] == '"');
    }
}

/// One predicate holds one marker: that of its value.
proof fn lemma_condition_is_marked(filter: FilterView, n: nat)
    ensures
        marked(filter.condition(n), seq![n]),
        !starts_with_digit(filter.condition(n)),
{
    lemma_words_are_plain();
    lemma_column_is_inert(filter.column);
    lemma_marker_is_marked(n);
    let opening = match filter.comparison {
        Comparison::Equal => equal_sign(),
        Comparison::NotEqual => not_equal_sign(),
        Comparison::In => any_opening(),
        Comparison::NotIn => all_opening(),
    };
    lemma_plain_is_inert(opening);
    lemma_inert_then_inert(filter.column.sql(), opening);
    lemma_inert_then_marked(filter.column.sql() + opening, marker(n), seq![n]);
    let open = filter.column.sql() + opening + marker(n);
    assert(filter.column.sql()[0] == open[0]);
    if filter.comparison == Comparison::In || filter.comparison == Comparison::NotIn {
        lemma_plain_is_inert(seq![')']);
        lemma_marked_then_inert(open, seq![n], seq![')']);
        assert(filter.condition(n) =~= open + seq![')']);
        assert(filter.condition(n)[0] == open[0]);
    } else {
        assert(filter.condition(n) =~= open);
    }
}

/// The predicates of a clause hold one marker each, numbered in order.
proof fn lemma_conditions_are_marked(filters: Seq<FilterView>, base: nat)
    ensures
        marked(conditions(filters, base), markers(filters, base)),
        !starts_with_digit(conditions(filters, base)),
    decreases filters.len(),
{
    if filters.len() == 0 {
        lemma_plain_is_inert(Seq::empty());
        lemma_inert_is_marked(Seq::empty());
        assert(markers(filters, base) =~= Seq::empty());
    } else {
        let front = filters.drop_last();
        let last = filters.last();
        let n = base + filters.len();
        lemma_conditions_are_marked(front, base);
        lemma_condition_is_marked(last, n);
        lemma_words_are_plain();
        let word = if filters.len() > 1 {
            op_sql(last.op)
        } else {
            Seq::empty()
        };
        lemma_plain_is_inert(word);
        lemma_marked_then_inert(conditions(front, base), markers(front, base), word);
        lemma_marked_then_marked(
            conditions(front, base) + word,
            markers(front, base),
            last.condition(n),
            seq![n],
        );
        assert(markers(front, base) + seq![n] =~= markers(filters, base));
        let all = conditions(filters, base);
        if filters.len() == 1 {
            assert(conditions(front, base) =~= Seq::empty());
            assert(all =~= last.condition(n));
        } else {
            if front.len() == 1 {
                assert(front.drop_last() =~= Seq::empty());
            }
            assert(conditions(front, base).len() > 0) by {
                lemma_conditions_are_not_empty(front, base);
            }
            assert(all[0] == conditions(front, base)[0]);
        }
    }
}

proof fn lemma_conditions_are_not_empty(filters: Seq<FilterView>, base: nat)
    requires
        filters.len() > 0,
    ensures
        conditions(filters, base).len() > 0,
{
    let last = filters.last();
    let n = base + filters.len();
    assert(quoted(last.column.column_name).len() > 0);
    assert(last.column.sql().len() > 0);
    assert(last.condition(n).len() > 0);
}

/// A `WHERE` clause holds the markers of its predicates.
pub proof fn lemma_where_is_marked(filters: Seq<FilterView>, base: nat)
    ensures
        marked(where_sql(filters, base), markers(filters, base)),
        !starts_with_digit(where_sql(filters, base)),
{
    lemma_conditions_are_marked(filters, base);
    if filters.len() > 0 {
        lemma_words_are_plain();
        lemma_plain_is_inert(where_keyword());
        lemma_inert_then_marked(
            where_keyword(),
            conditions(filters, base),
            markers(filters, base),
        );
        reveal_strlit(" WHERE ");
        assert(where_sql(filters, base)[0] == ' ');
    }
}

/// Parts that hold no marker, written one after another with a comma and a
/// space between neighbours, hold no marker.
proof fn lemma_joined_is_inert(parts: Seq<Seq<char>>)
    requires
        forall|i: int| 0 <= i < parts.len() ==> inert(#[trigger] parts[i]),
    ensures
        inert(joined(parts, seq![',', ' '])),
    decreases parts.len(),
{
    if parts.len() == 0 {
        lemma_plain_is_inert(Seq::empty());
    } else if parts.len() == 1 {
        assert(inert(parts[0]));
    } else {
        let front = parts.drop_last();
        assert forall|i: int| 0 <= i < front.len() implies inert(#[trigger] front[i]) by {
            assert(front[i] == parts[i]);
        }
        lemma_joined_is_inert(front);
        lemma_plain_is_inert(seq![',', ' ']);
        lemma_inert_then_inert(joined(front, seq![',', ' ']), seq![',', ' ']);
        assert(inert(parts[parts.len() - 1]));
        lemma_inert_then_inert(joined(front, seq![',', ' ']) + seq![',', ' '], parts.last());
    }
}

/// A projection holds no marker.
pub proof fn lemma_columns_are_inert(columns: ColumnsView)
    ensures
        inert(columns.sql()),
{
    if columns.columns.len() == 0 {
        match columns.table_name {
            Some(table_name) => {
                lemma_quoted_is_inert(table_name);
                lemma_plain_is_inert(seq!['.', '*']);
                lemma_inert_then_inert(quoted(table_name), seq!['.', '*']);
            },
            None => {
                lemma_plain_is_inert(seq!['*']);
            },
        }
    } else {
        let parts = column_sqls(columns.columns);
        assert forall|i: int| 0 <= i < parts.len() implies inert(#[trigger] parts[i]) by {
            lemma_column_is_inert(columns.columns[i]);
        }
        lemma_joined_is_inert(parts);
    }
}

/// Joins hold no marker.
pub proof fn lemma_joins_are_inert(joins: Seq<JoinView>)
    ensures
        inert(joins_sql(joins)),
    decreases joins.len(),
{
    if joins.len() == 0 {
        lemma_plain_is_inert(Seq::empty());
    } else {
        lemma_joins_are_inert(joins.drop_last());
        let join = joins.last();
        lemma_words_are_plain();
        lemma_plain_is_inert(join_keyword());
        lemma_plain_is_inert(on_keyword());
        lemma_plain_is_inert(equals_sign());
        lemma_quoted_is_inert(join.table_name);
        lemma_column_is_inert(join.left);
        lemma_column_is_inert(join.right);
        lemma_inert_then_inert(join_keyword(), quoted(join.table_name));
        lemma_inert_then_inert(join_keyword() + quoted(join.table_name), on_keyword());
        lemma_inert_then_inert(
            join_keyword() + quoted(join.table_name) + on_keyword(),
            join.left.sql(),
        );
        lemma_inert_then_inert(
            join_keyword() + quoted(join.table_name) + on_keyword() + join.left.sql(),
            equals_sign(),
        );
        lemma_inert_then_inert(
            join_keyword() + quoted(join.table_name) + on_keyword() + join.left.sql()
                + equals_sign(),
            join.right.sql(),
        );
        lemma_inert_then_inert(joins_sql(joins.drop_last()), join.sql());
    }
}

/// An ordering holds no marker.
pub proof fn lemma_order_is_inert(order: Seq<OrderColumnView>)
    ensures
        inert(order_sql(order)),
        !starts_with_digit(order_sql(order)),
{
    lemma_words_are_plain();
    if order.len() == 0 {
        lemma_plain_is_inert(Seq::empty());
    } else {
        let parts = order_sqls(order);
        assert forall|i: int| 0 <= i < parts.len() implies inert(#[trigger] parts[i]) by {
            lemma_column_is_inert(order[i].column);
            let word = if order[i].descending {
                descending_word()
            } else {
                ascending_word()
            };
            lemma_plain_is_inert(word);
            lemma_inert_then_inert(order[i].column.sql(), word);
        }
        lemma_joined_is_inert(parts);
        lemma_plain_is_inert(order_keyword());
        lemma_inert_then_inert(order_keyword(), joined(parts, seq![',', ' ']));
        reveal_strlit(" ORDER BY ");
        assert(order_sql(order)[0] == ' ');
    }
}

proof fn lemma_decimal_is_plain(n: nat)
    ensures
        plain(decimal(n)),
{
    lemma_decimal(n);
    assert forall|i: int| 0 <= i < decimal(n).len() implies (#[trigger] decimal(n)[i]) != '"'
        && decimal(n)[i] != '$' by {
        assert(is_digit(decimal(n)[i]));
    }
}

/// A limit holds no marker.
pub proof fn lemma_limit_is_inert(limit: Limit)
    ensures
        inert(limit.clause()),
        !starts_with_digit(limit.clause()),
{
    lemma_words_are_plain();
    let first = match limit.limit {
        Some(n) => limit_keyword() + decimal(n as nat),
        None => Seq::empty(),
    };
    let second = match limit.offset {
        Some(m) => offset_keyword() + decimal(m as nat),
        None => Seq::empty(),
    };
    match limit.limit {
        Some(n) => {
            lemma_decimal_is_plain(n as nat);
            lemma_plain_is_inert(limit_keyword());
            lemma_plain_is_inert(decimal(n as nat));
            lemma_inert_then_inert(limit_keyword(), decimal(n as nat));
            reveal_strlit(" LIMIT ");
            assert(first[0] == ' ');
        },
        None => {
            lemma_plain_is_inert(Seq::empty());
        },
    }
    match limit.offset {
        Some(m) => {
            lemma_decimal_is_plain(m as nat);
            lemma_plain_is_inert(offset_keyword());
            lemma_plain_is_inert(decimal(m as nat));
            lemma_inert_then_inert(offset_keyword(), decimal(m as nat));
            reveal_strlit(" OFFSET ");
            assert(second[0] == ' ');
        },
        None => {
            lemma_plain_is_inert(Seq::empty());
        },
    }
    lemma_inert_then_inert(first, second);
    if first.len() > 0 {
        assert((first + second)[0] == first[0]);
    } else {
        assert(first + second =~= second);
    }
}

/// Text that holds the markers `ms`, with nothing after it, has the markers
/// `ms`.
pub proof fn lemma_markers_of_marked(t: Seq<char>, ms: Seq<nat>)
    requires
        marked(t, ms),
    ensures
        markers_in(t) == ms,
{
    assert(t + Seq::<char>::empty() =~= t);
    assert(markers_in(Seq::<char>::empty()) =~= Seq::<nat>::empty());
    assert(markers_in(t + Seq::<char>::empty()) == ms + markers_in(Seq::<char>::empty()));
    assert(ms + Seq::<nat>::empty() =~= ms);
}

/// The markers of a clause are as many as its bound values, and the marker
/// at each position is the number of the value at that position, counted
/// from one after the values bound before the clause.
pub proof fn lemma_where_markers_match_values(filters: Seq<FilterView>, base: nat)
    ensures
        markers_in(where_sql(filters, base)) == markers(filters, base),
        markers_in(where_sql(filters, base)).len() == bound_values(filters).len(),
        forall|i: int|
            0 <= i < filters.len() ==> (#[trigger] markers_in(where_sql(filters, base))[i]) == base
                + i + 1,
{
    lemma_where_is_marked(filters, base);
    lemma_markers_of_marked(where_sql(filters, base), markers(filters, base));
}

/// The markers of a compiled statement are the numbers from one up to the
/// number of its bound values, from left to right: the marker at each
/// position is the number of the value at that position, counted from one.
pub proof fn lemma_markers_match_values(select: SelectView)
    ensures
        markers_in(select.sql()).len() == select.values().len(),
        forall|i: int|
            0 <= i < select.values().len() ==> (#[trigger] markers_in(select.sql())[i]) == i + 1,
        markers_in(select.sql()) == markers(select.where_clause, 0),
{
    lemma_words_are_plain();
    lemma_plain_is_inert(select_keyword());
    lemma_plain_is_inert(from_keyword());
    lemma_columns_are_inert(select.columns);
    lemma_quoted_is_inert(select.table_name);
    lemma_joins_are_inert(select.joins);
    lemma_where_is_marked(select.where_clause, 0);
    lemma_order_is_inert(select.order_by);
    lemma_limit_is_inert(select.limit);

    let a = select_keyword() + select.columns.sql();
    lemma_inert_then_inert(select_keyword(), select.columns.sql());
    let b = a + from_keyword();
    lemma_inert_then_inert(a, from_keyword());
    let c = b + quoted(select.table_name);
    lemma_inert_then_inert(b, quoted(select.table_name));
    let d = c + joins_sql(select.joins);
    lemma_inert_then_inert(c, joins_sql(select.joins));
    let ms = markers(select.where_clause, 0);
    let e = d + where_sql(select.where_clause, 0);
    lemma_inert_then_marked(d, where_sql(select.where_clause, 0), ms);
    let f = e + order_sql(select.order_by);
    lemma_marked_then_inert(e, ms, order_sql(select.order_by));
    let g = f + select.limit.clause();
    lemma_marked_then_inert(f, ms, select.limit.clause());
    assert(g == select.sql());
    lemma_markers_of_marked(g, ms);
}

} // verus!

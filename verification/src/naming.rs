//! The names that a record type gets from the name of its type.
use vstd::prelude::*;
use crate::text::{same_text, texts};

verus! {

/// Whether `c` is an ASCII capital letter.
pub open spec fn is_upper(c: char) -> bool {
    'A' <= c <= 'Z'
}

/// `c` in lower case, where it is an ASCII capital letter; else `c`.
pub open spec fn lower(c: char) -> char {
    if is_upper(c) {
        ((c as u8) + 32) as char
    } else {
        c
    }
}

/// `s` in snake case: every ASCII capital letter in lower case, and after an
/// underscore where it is not the first character.
pub open spec fn snake(s: Seq<char>) -> Seq<char>
    decreases s.len(),
{
    if s.len() == 0 {
        s
    } else if is_upper(s.last()) && s.len() > 1 {
        snake(s.drop_last()).push('_').push(lower(s.last()))
    } else {
        snake(s.drop_last()).push(lower(s.last()))
    }
}

/// The suffix of a foreign key.
pub open spec fn id_suffix() -> Seq<char> {
    "_id"@
}

fn to_lower(c: char) -> (r: char)
    ensures
        r == lower(c),
{
    if 'A' <= c && c <= 'Z' {
        ((c as u8) + 32) as char
    } else {
        c
    }
}

/// Turns the name of a type, as `ChatMessage`, into snake case, as
/// `chat_message`.
pub fn snake_case(string: &str) -> (r: String)
    ensures
        r@ == snake(string@),
{
    let mut result = String::new();
    let mut first = true;
    for c in it: string.chars()
        invariant
            it.seq() == string@,
            first == (it.index() == 0),
            result@ == snake(string@.take(it.index())),
    {
        proof {
            assert(string@.take(it.index() + 1).drop_last() == string@.take(it.index()));
        }
        if 'A' <= c && c <= 'Z' && !first {
            result.push('_');
        }
        result.push(to_lower(c));
        first = false;
    }
    proof {
        assert(string@.take(string@.len() as int) == string@);
    }
    result
}

/// `pluralizer::pluralize`: the singular of `word` where `count` is one, else
/// its plural, by the rules that are in force in this process; after the
/// count and a space where `include_count` is set. The rules can be extended
/// while the process runs, so nothing is claimed of the result.
#[verifier::external_body]
pub(crate) fn pluralize(word: &str, count: isize, include_count: bool) -> String {
    pluralizer::pluralize(word, count, include_count)
}

/// The foreign key that points at a record whose singular name is
/// `singular`: that name and `_id`.
pub fn foreign_key_for(singular: &str) -> (r: String)
    ensures
        r@ == singular@ + id_suffix(),
{
    let mut out = String::from_str(singular);
    out.append("_id");
    out
}

/// Whether `name` is the foreign key that points at a record of some
/// singular name: that name and `_id`.
pub open spec fn is_default_foreign_key(name: Seq<char>) -> bool {
    exists|singular: Seq<char>| name == #[trigger] (singular + id_suffix())
}

/// The foreign key that points at the records of `table_name`: the singular
/// of the table's name, then `_id`.
pub fn default_foreign_key(table_name: &str) -> (r: String)
    ensures
        is_default_foreign_key(r@),
        r@.len() >= id_suffix().len(),
        r@.skip(r@.len() - id_suffix().len()) == id_suffix(),
{
    let singular = pluralize(table_name, 1, false);
    let r = foreign_key_for(singular.as_str());
    proof {
        assert(r@ == singular@ + id_suffix());
        assert(r@.skip(r@.len() - id_suffix().len()) =~= id_suffix());
    }
    r
}

/// The names that a record type gets from the name of its type.
pub struct DerivedNames {
    /// The type's name in snake case.
    pub singular: String,
    /// The plural of `singular`.
    pub table_name: String,
    /// `singular` and `_id`.
    pub foreign_key: String,
}

/// The names of a record type called `ident`: its table is the plural of
/// its name in snake case, its foreign key that name and `_id`.
pub fn derive_names(ident: &str) -> (r: DerivedNames)
    ensures
        r.singular@ == snake(ident@),
        r.foreign_key@ == snake(ident@) + id_suffix(),
{
    let singular = snake_case(ident);
    let foreign_key = foreign_key_for(singular.as_str());
    let table_name = pluralize(singular.as_str(), 2, false);
    DerivedNames { singular, table_name, foreign_key }
}

/// `fields` without those called `id`, in order.
pub open spec fn without_id(fields: Seq<Seq<char>>) -> Seq<Seq<char>>
    decreases fields.len(),
{
    if fields.len() == 0 {
        fields
    } else if fields.last() == "id"@ {
        without_id(fields.drop_last())
    } else {
        without_id(fields.drop_last()).push(fields.last())
    }
}

/// The fields of a record that are stored as its values: all but the one
/// called `id`, in the order of `fields`.
pub fn value_fields(fields: &Vec<String>) -> (r: Vec<String>)
    ensures
        texts(r@) == without_id(texts(fields@)),
{
    let ghost names = texts(fields@);
    let mut out: Vec<String> = Vec::new();
    let mut i: usize = 0;
    proof {
        assert(names.take(0) =~= Seq::empty());
        assert(texts(out@) =~= Seq::empty());
    }
    while i < fields.len()
        invariant
            i <= fields@.len(),
            names == texts(fields@),
            texts(out@) == without_id(names.take(i as int)),
        decreases fields@.len() - i,
    {
        proof {
            assert(names.take(i + 1).drop_last() == names.take(i as int));
        }
        let ghost before = texts(out@);
        if !same_text(fields[i].as_str(), "id") {
            out.push(fields[i].clone());
            proof {
                assert(texts(out@) =~= before.push(names[i as int]));
            }
        }
        i += 1;
    }
    proof {
        assert(names.take(names.len() as int) == names);
    }
    out
}

} // verus!

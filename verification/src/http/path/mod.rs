//! HTTP URL path, as `/api/orders/1?sorted=true#header1`.
//!
//! A path is parsed for each incoming request and compared with the patterns
//! of the routes to find the handler.
use vstd::prelude::*;
use vstd::hash_map::StringHashMap;
use super::error::Error;
use super::url::{decode_chars, decoded};
use crate::text::{
    after_last, chars_of, find_in, lemma_pieces, occurs, pieces, position, string_of,
};

pub mod to_parameter;
pub mod with_regex;

pub use to_parameter::ToParameter;
pub use with_regex::PathWithRegex;

verus! {

/// HTTP URL path.
pub struct Path {
    query: StringHashMap<String>,
    base: String,
}

/// What a [`Path`] holds: the path without its query, and the parameters of
/// the query by name.
pub struct PathView {
    pub base: Seq<char>,
    pub query: Map<Seq<char>, Seq<char>>,
}

/// `path`, after a slash where it does not start with one.
pub open spec fn absolute(path: Seq<char>) -> Seq<char> {
    if path.len() > 0 && path[0] == '/' {
        path
    } else {
        seq!['/'] + path
    }
}

/// `query` with the parameter that `piece` gives: its name and its value,
/// each decoded, where `piece` holds exactly one equals sign. Any other piece
/// gives no parameter.
pub open spec fn with_parameter(
    query: Map<Seq<char>, Seq<char>>,
    piece: Seq<char>,
) -> Map<Seq<char>, Seq<char>> {
    let halves = pieces(piece, '=');
    if halves.len() == 2 {
        query.insert(decoded(halves[0]), decoded(halves[1]))
    } else {
        query
    }
}

/// The parameters that `parts` give, a later one replacing an earlier one of
/// the same name.
pub open spec fn parameters(parts: Seq<Seq<char>>) -> Map<Seq<char>, Seq<char>>
    decreases parts.len(),
{
    if parts.len() == 0 {
        Map::empty()
    } else {
        with_parameter(parameters(parts.drop_last()), parts.last())
    }
}

/// The query of a path as text: what follows the question mark, up to the
/// first hash sign.
pub open spec fn query_text(after_question_mark: Seq<char>) -> Seq<char> {
    pieces(after_question_mark, '#')[0]
}

/// What `path` parses as: nothing where it holds more than one question
/// mark.
pub open spec fn parsed(path: Seq<char>) -> Option<PathView> {
    let parts = pieces(absolute(path), '?');
    if parts.len() == 1 {
        Some(PathView { base: absolute(path), query: Map::empty() })
    } else if parts.len() == 2 {
        Some(
            PathView {
                base: parts[0],
                query: parameters(pieces(query_text(parts[1]), '&')),
            },
        )
    } else {
        None
    }
}

/// The parameters of `query`, with their values as text.
pub open spec fn query_view(query: Map<Seq<char>, String>) -> Map<Seq<char>, Seq<char>> {
    query.map_values(|v: String| v@)
}

/// Why a path with two question marks is refused.
pub open spec fn malformed_query() -> Seq<char> {
    "path has malformed query"@
}

/// The last segment of `base`: what follows its last slash, unless `base`
/// ends with a slash or holds none.
pub open spec fn resource_text(base: Seq<char>) -> Option<Seq<char>> {
    if base.len() == 0 || base.last() == '/' || !occurs(base, '/') {
        None
    } else {
        Some(after_last(base, '/'))
    }
}

/// Adds to `query` the parameter that the characters of `chars` from `from`
/// up to `to` give, if they give one.
fn add_parameter(query: &mut StringHashMap<String>, chars: &Vec<char>, from: usize, to: usize)
    requires
        from <= to <= chars@.len(),
    ensures
        query_view(final(query)@) == with_parameter(
            query_view(old(query)@),
            chars@.subrange(from as int, to as int),
        ),
{
    let ghost all = chars@;
    let ghost piece = all.subrange(from as int, to as int);
    let ghost before = query_view(query@);
    proof {
        lemma_pieces(piece, '=');
    }
    let equals = find_in(chars, from, to, '=');
    if equals < to {
        let ghost right = piece.skip(equals - from + 1);
        proof {
            assert(right == all.subrange(equals + 1, to as int));
            lemma_pieces(right, '=');
        }
        let another = find_in(chars, equals + 1, to, '=');
        if another == to {
            // Decode any URL-encoded values back into UTF-8.
            let key = decode_chars(chars, from, equals);
            let value = decode_chars(chars, equals + 1, to);
            proof {
                assert(piece.take(equals - from) == all.subrange(from as int, equals as int));
                assert(pieces(piece, '=') =~= seq![piece.take(equals - from), right]);
            }
            query.insert(key, value);
            proof {
                assert(query_view(query@) =~= with_parameter(before, piece));
            }
        } else {
            proof {
                lemma_pieces(right.skip(position(right, '=') + 1), '=');
                assert(pieces(piece, '=').len() >= 3);
            }
        }
    }
}

/// The parameters that the characters of `chars` from `start` up to `end`
/// give, read as a query.
fn read_query(chars: &Vec<char>, start: usize, end: usize) -> (query: StringHashMap<String>)
    requires
        start <= end <= chars@.len(),
    ensures
        query_view(query@) == parameters(
            pieces(chars@.subrange(start as int, end as int), '&'),
        ),
{
    let ghost all = chars@;
    let ghost text = all.subrange(start as int, end as int);
    let mut query: StringHashMap<String> = StringHashMap::new();
    let mut from: usize = start;
    let ghost mut done: Seq<Seq<char>> = Seq::empty();
    proof {
        assert(text.skip(0) == text);
        assert(done + pieces(text, '&') =~= pieces(text, '&'));
        assert(query_view(query@) =~= parameters(done));
    }
    loop
        invariant_except_break
            start <= from <= end,
            end <= chars@.len(),
            all == chars@,
            text == all.subrange(start as int, end as int),
            pieces(text, '&') == done + pieces(text.skip(from - start), '&'),
            query_view(query@) == parameters(done),
        ensures
            query_view(query@) == parameters(pieces(text, '&')),
        decreases end - from,
    {
        let ghost tail = text.skip(from - start);
        proof {
            assert(tail == all.subrange(from as int, end as int));
            lemma_pieces(tail, '&');
        }
        let to = find_in(chars, from, end, '&');
        let ghost piece = all.subrange(from as int, to as int);
        proof {
            assert(tail.take(to - from) == piece);
        }
        add_parameter(&mut query, chars, from, to);
        proof {
            assert(done.push(piece).drop_last() == done);
            assert(parameters(done.push(piece)) == with_parameter(parameters(done), piece));
        }
        if to == end {
            proof {
                assert(tail == piece);
                assert(pieces(text, '&') =~= done.push(piece));
            }
            break ;
        }
        proof {
            assert(tail.skip(to - from + 1) == text.skip(to + 1 - start));
            assert(pieces(text, '&') =~= done.push(piece) + pieces(text.skip(to + 1 - start), '&'));
            done = done.push(piece);
        }
        from = to + 1;
    }
    query
}

impl View for Path {
    type V = PathView;

    closed spec fn view(&self) -> PathView {
        PathView { base: self.base@, query: query_view(self.query@) }
    }
}

impl Default for Path {
    fn default() -> (r: Self)
        ensures
            r@ == (PathView { base: seq!['/'], query: Map::empty() }),
    {
        let mut base = String::new();
        base.push('/');
        let r = Path { query: StringHashMap::new(), base };
        proof {
            assert(r@.query =~= Map::empty());
            assert(r@.base =~= seq!['/']);
        }
        r
    }
}

impl Path {
    /// Path URL base: the path without its query.
    pub fn base(&self) -> (r: &str)
        ensures
            r@ == self@.base,
    {
        self.base.as_str()
    }

    /// Path length: the number of bytes of its base.
    pub fn len(&self) -> (n: usize)
        ensures
            n == vstd::utf8::encode_utf8(self@.base).len() as usize,
    {
        self.base.as_str().len()
    }

    /// Whether the path names a directory: its base ends with a slash.
    pub fn is_root(&self) -> (r: bool)
        ensures
            r == (self@.base.len() > 0 && self@.base.last() == '/'),
    {
        let n = self.base.as_str().unicode_len();
        n > 0 && self.base.as_str().get_char(n - 1) == '/'
    }

    /// The last segment of the path, read as a `T`; nothing where the path
    /// names a directory.
    pub fn resource<T: ToParameter>(&self) -> (r: Option<Result<T, Error>>)
        ensures
            match resource_text(self@.base) {
                Some(segment) => r matches Some(read) && T::reads(segment, read),
                None => r is None,
            },
    {
        let chars = chars_of(self.base.as_str());
        let n = chars.len();
        if n == 0 || chars[n - 1] == '/' {
            return None;
        }
        let mut i: usize = n;
        proof {
            assert(chars@.subrange(n as int, n as int) =~= Seq::empty());
            assert(chars@.take(n as int) == chars@);
        }
        while i > 0 && chars[i - 1] != '/'
            invariant
                i <= n,
                n == chars@.len(),
                forall|k: int| i <= k < n ==> chars@[k] != '/',
                after_last(chars@, '/') == after_last(chars@.take(i as int), '/') + chars@.subrange(
                    i as int,
                    n as int,
                ),
            decreases i,
        {
            proof {
                assert(chars@.take(i as int).drop_last() == chars@.take(i - 1));
                assert(chars@.take(i as int).last() == chars@[i - 1]);
                assert(chars@.subrange(i - 1, n as int) =~= seq![chars@[i - 1]] + chars@.subrange(
                    i as int,
                    n as int,
                ));
                assert(after_last(chars@, '/') =~= after_last(chars@.take(i - 1), '/')
                    + chars@.subrange(i - 1, n as int));
            }
            i -= 1;
        }
        if i == 0 {
            proof {
                assert(!occurs(chars@, '/'));
            }
            return None;
        }
        proof {
            assert(chars@[i - 1] == '/');
            assert(occurs(chars@, '/'));
            assert(chars@.take(i as int).last() == '/');
            assert(after_last(chars@, '/') =~= chars@.subrange(i as int, n as int));
        }
        let segment = string_of(&chars, i, n);
        Some(T::to_parameter(segment.as_str()))
    }

    /// The parameters of the query, by name.
    pub fn query(&self) -> (r: &StringHashMap<String>)
        ensures
            query_view(r@) == self@.query,
    {
        &self.query
    }

    /// The path without its query.
    pub fn path(&self) -> (r: &str)
        ensures
            r@ == self@.base,
    {
        self.base.as_str()
    }

    /// Parses a path. A path that does not start with a slash is read as if
    /// it did. What follows a question mark is the query; a second question
    /// mark is an error.
    pub fn parse(path: &str) -> (r: Result<Path, Error>)
        ensures
            match parsed(path@) {
                Some(view) => r matches Ok(p) && p@ == view,
                None => r matches Err(e) && e.reason() == malformed_query(),
            },
    {
        // All paths must be absolute.
        let given = chars_of(path);
        let mut chars: Vec<char> = Vec::new();
        if !(given.len() > 0 && given[0] == '/') {
            chars.push('/');
        }
        let mut k: usize = 0;
        let ghost prefix = chars@;
        while k < given.len()
            invariant
                k <= given@.len(),
                chars@ == prefix + given@.take(k as int),
            decreases given@.len() - k,
        {
            chars.push(given[k]);
            proof {
                assert(given@.take(k + 1) == given@.take(k as int).push(given@[k as int]));
            }
            k += 1;
        }
        proof {
            assert(given@.take(given@.len() as int) == given@);
            assert(chars@ =~= absolute(path@));
        }
        let n = chars.len();
        let ghost all = chars@;
        proof {
            assert(all.subrange(0, n as int) == all);
            lemma_pieces(all, '?');
        }
        let question = find_in(&chars, 0, n, '?');
        if question == n {
            // Path has no query.
            let base = string_of(&chars, 0, n);
            let p = Path { base, query: StringHashMap::new() };
            proof {
                assert(p@.query =~= Map::empty());
            }
            return Ok(p);
        }
        let ghost rest = all.skip(question + 1);
        proof {
            assert(rest == all.subrange(question + 1, n as int));
            lemma_pieces(rest, '?');
            lemma_pieces(rest, '#');
        }
        let second = find_in(&chars, question + 1, n, '?');
        if second < n {
            proof {
                lemma_pieces(rest.skip(position(rest, '?') + 1), '?');
                assert(pieces(all, '?').len() >= 3);
            }
            return Err(Error::MalformedRequest("path has malformed query"));
        }
        proof {
            assert(pieces(all, '?') =~= seq![all.take(question as int), rest]);
        }
        // Remove the anchor if any.
        let end = find_in(&chars, question + 1, n, '#');
        let start = question + 1;
        let ghost text = all.subrange(start as int, end as int);
        proof {
            assert(query_text(rest) =~= text);
        }
        let query = read_query(&chars, start, end);
        let base = string_of(&chars, 0, question);
        let p = Path { base, query };
        proof {
            assert(all.subrange(0, question as int) == all.take(question as int));
        }
        Ok(p)
    }

    /// The path together with the pattern that matches the paths of its
    /// shape.
    pub fn with_regex(self) -> (r: Result<PathWithRegex, Error>)
        ensures
            with_regex::routed(self@, r),
    {
        PathWithRegex::new(self)
    }
}

} // verus!

//! The pattern that matches the paths of a route.
use vstd::prelude::*;
use super::super::error::Error;
use super::{Path, PathView};
use crate::text::{chars_of, find_in, joined, lemma_pieces, pieces, string_of, texts};

verus! {

/// Whether `c` has a meaning of its own in a pattern.
pub open spec fn is_special(c: char) -> bool {
    c == '\\' || c == '.' || c == '+' || c == '*' || c == '?' || c == '(' || c == ')' || c == '|'
        || c == '[' || c == ']' || c == '{' || c == '}' || c == '^' || c == '$' || c == '#' || c
        == '&' || c == '-' || c == '~'
}

/// `s` as a pattern that matches `s` and nothing else: every character that
/// has a meaning of its own comes after a backslash.
pub open spec fn literal(s: Seq<char>) -> Seq<char>
    decreases s.len(),
{
    if s.len() == 0 {
        s
    } else if is_special(s.last()) {
        literal(s.drop_last()).push('\\').push(s.last())
    } else {
        literal(s.drop_last()).push(s.last())
    }
}

/// The pattern of one segment of a path that is not empty and holds no slash.
pub open spec fn any_segment() -> Seq<char> {
    "([^/]+)"@
}

/// Whether the segment stands for a parameter: it starts with a colon.
pub open spec fn is_parameter(segment: Seq<char>) -> bool {
    segment.len() > 0 && segment[0] == ':'
}

/// The pattern of one segment of a route: any segment where the route has a
/// parameter, else the segment itself.
pub open spec fn segment_pattern(segment: Seq<char>) -> Seq<char> {
    if is_parameter(segment) {
        any_segment()
    } else {
        literal(segment)
    }
}

/// The patterns of the segments, in order.
pub open spec fn segment_patterns(segments: Seq<Seq<char>>) -> Seq<Seq<char>> {
    Seq::new(segments.len(), |i: int| segment_pattern(segments[i]))
}

/// The names of the parameters among the segments, in order.
pub open spec fn parameter_names(segments: Seq<Seq<char>>) -> Seq<Seq<char>>
    decreases segments.len(),
{
    if segments.len() == 0 {
        Seq::empty()
    } else if is_parameter(segments.last()) {
        parameter_names(segments.drop_last()).push(segments.last().skip(1))
    } else {
        parameter_names(segments.drop_last())
    }
}

/// Whether each parameter among the segments has a name.
pub open spec fn parameters_are_named(segments: Seq<Seq<char>>) -> bool {
    forall|i: int|
        0 <= i < segments.len() && is_parameter(#[trigger] segments[i]) ==> segments[i].len() > 1
}

/// The pattern of the route `base`: from the start of the text, the patterns
/// of its segments with a slash between neighbours. It does not ask for the
/// end of the text, so it matches every path below the route too.
pub open spec fn route_pattern(base: Seq<char>) -> Seq<char> {
    seq!['^'] + joined(segment_patterns(pieces(base, '/')), seq!['/'])
}

/// Why a parameter without a name is refused.
pub open spec fn unnamed_parameter() -> Seq<char> {
    "path parameter has no name"@
}

/// A path with the pattern that matches the paths of its shape.
pub struct PathWithRegex {
    path: Path,
    pattern: String,
    names: Vec<String>,
}

/// What a [`PathWithRegex`] holds.
pub struct PathWithRegexView {
    pub path: PathView,
    pub pattern: Seq<char>,
    pub names: Seq<Seq<char>>,
}

impl View for PathWithRegex {
    type V = PathWithRegexView;

    closed spec fn view(&self) -> PathWithRegexView {
        PathWithRegexView {
            path: self.path@,
            pattern: self.pattern@,
            names: texts(self.names@),
        }
    }
}

/// Whether `r` is what the route `path` gives: its pattern and the names of
/// its parameters, or an error where a parameter has no name.
pub open spec fn routed(path: PathView, r: Result<PathWithRegex, Error>) -> bool {
    if parameters_are_named(pieces(path.base, '/')) {
        r matches Ok(route) && route@ == (PathWithRegexView {
            path,
            pattern: route_pattern(path.base),
            names: parameter_names(pieces(path.base, '/')),
        })
    } else {
        r matches Err(e) && e.reason() == unnamed_parameter()
    }
}

fn special(c: char) -> (r: bool)
    ensures
        r == is_special(c),
{
    c == '\\' || c == '.' || c == '+' || c == '*' || c == '?' || c == '(' || c == ')' || c == '|'
        || c == '[' || c == ']' || c == '{' || c == '}' || c == '^' || c == '$' || c == '#' || c
        == '&' || c == '-' || c == '~'
}

fn push_literal(out: &mut String, chars: &Vec<char>, from: usize, to: usize)
    requires
        from <= to <= chars@.len(),
    ensures
        final(out)@ == old(out)@ + literal(chars@.subrange(from as int, to as int)),
{
    let mut i: usize = from;
    proof {
        assert(chars@.subrange(from as int, from as int) =~= Seq::empty());
    }
    while i < to
        invariant
            from <= i <= to,
            to <= chars@.len(),
            out@ == old(out)@ + literal(chars@.subrange(from as int, i as int)),
        decreases to - i,
    {
        proof {
            assert(chars@.subrange(from as int, i + 1).drop_last() == chars@.subrange(
                from as int,
                i as int,
            ));
        }
        if special(chars[i]) {
            out.push('\\');
        }
        out.push(chars[i]);
        i += 1;
        proof {
            assert(out@ =~= old(out)@ + literal(chars@.subrange(from as int, i as int)));
        }
    }
}

impl PathWithRegex {
    /// The route `path` with its pattern. A parameter without a name is an
    /// error.
    pub fn new(path: Path) -> (r: Result<Self, Error>)
        ensures
            routed(path@, r),
    {
        let chars = chars_of(path.base());
        let n = chars.len();
        let ghost base = chars@;
        let mut pattern = String::new();
        pattern.push('^');
        let mut names: Vec<String> = Vec::new();
        let mut from: usize = 0;
        let ghost mut done: Seq<Seq<char>> = Seq::empty();
        proof {
            assert(base.skip(0) == base);
            assert(done + pieces(base, '/') =~= pieces(base, '/'));
            assert(texts(names@) =~= parameter_names(done));
            assert(segment_patterns(done) =~= Seq::empty());
        }
        loop
            invariant_except_break
                from <= n,
                n == chars@.len(),
                base == chars@,
                base == path@.base,
                pieces(base, '/') == done + pieces(base.skip(from as int), '/'),
                parameters_are_named(done),
                texts(names@) == parameter_names(done),
                pattern@ == seq!['^'] + joined(segment_patterns(done), seq!['/']) + if done.len()
                    > 0 {
                    seq!['/']
                } else {
                    Seq::empty()
                },
            ensures
                base == path@.base,
                parameters_are_named(pieces(base, '/')),
                texts(names@) == parameter_names(pieces(base, '/')),
                pattern@ == route_pattern(base),
            decreases n - from,
        {
            let ghost tail = base.skip(from as int);
            proof {
                assert(tail == base.subrange(from as int, n as int));
                lemma_pieces(tail, '/');
            }
            let to = find_in(&chars, from, n, '/');
            let ghost segment = base.subrange(from as int, to as int);
            proof {
                assert(tail.take(to - from) == segment);
            }
            let ghost names_before = texts(names@);
            let ghost pattern_before = pattern@;
            if to > from && chars[from] == ':' {
                if to == from + 1 {
                    proof {
                        let all = pieces(base, '/');
                        assert(all[done.len() as int] == segment);
                        assert(is_parameter(all[done.len() as int]));
                        assert(!parameters_are_named(all));
                    }
                    return Err(Error::MalformedRequest("path parameter has no name"));
                }
                let name = string_of(&chars, from + 1, to);
                names.push(name);
                pattern.append("([^/]+)");
                proof {
                    assert(segment.skip(1) == base.subrange(from + 1, to as int));
                    assert(texts(names@) =~= names_before.push(
                        segment.skip(1),
                    ));
                }
            } else {
                push_literal(&mut pattern, &chars, from, to);
            }
            proof {
                let next = done.push(segment);
                assert(next.drop_last() == done);
                assert(next.last() == segment);
                assert(pattern@ == pattern_before + segment_pattern(segment));
                assert(segment_patterns(next).drop_last() =~= segment_patterns(done));
                assert(segment_patterns(next).last() == segment_pattern(segment));
                assert(pattern@ =~= seq!['^'] + joined(segment_patterns(next), seq!['/']));
                assert(texts(names@) == parameter_names(next));
                assert forall|i: int|
                    0 <= i < next.len() && is_parameter(#[trigger] next[i]) implies next[i].len()
                    > 1 by {
                    if i < done.len() {
                        assert(next[i] == done[i]);
                    }
                }
            }
            if to == n {
                proof {
                    assert(tail == segment);
                    assert(pieces(base, '/') =~= done.push(segment));
                }
                break ;
            }
            pattern.push('/');
            proof {
                assert(tail.skip(to - from + 1) == base.skip(to + 1));
                assert(pieces(base, '/') =~= done.push(segment) + pieces(base.skip(to + 1), '/'));
                done = done.push(segment);
            }
            from = to + 1;
        }
        Ok(PathWithRegex { path, pattern, names })
    }

    /// The pattern that matches the paths of this shape.
    pub fn regex_pattern(&self) -> (r: &str)
        ensures
            r@ == self@.pattern,
    {
        self.pattern.as_str()
    }

    /// The route.
    pub fn path(&self) -> (r: &Path)
        ensures
            r@ == self@.path,
    {
        &self.path
    }

    /// How many parameters the route has.
    pub fn parameter_count(&self) -> (n: usize)
        ensures
            n == self@.names.len(),
    {
        self.names.len()
    }

    /// The name of the parameter at `index`, counted from zero.
    pub fn parameter_name(&self, index: usize) -> (r: Option<&str>)
        ensures
            r is Some <==> index < self@.names.len(),
            r matches Some(name) ==> name@ == self@.names[index as int],
    {
        if index < self.names.len() {
            Some(self.names[index].as_str())
        } else {
            None
        }
    }
}

} // verus!

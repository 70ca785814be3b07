//! Text as sequences of characters: decimal numerals, joining, searching.
use vstd::prelude::*;

verus! {

/// `String::push` appends the given character to the end of the string.
pub assume_specification[ std::string::String::push ](s: &mut std::string::String, c: char)
    ensures
        final(s)@ == old(s)@.push(c),
;

/// The character that writes the digit `d`.
pub open spec fn digit(d: nat) -> char
    recommends
        d < 10,
{
    (d + 48) as char
}

/// The decimal numeral of `n`, without leading zeros.
pub open spec fn decimal(n: nat) -> Seq<char>
    decreases n,
{
    if n < 10 {
        seq![digit(n)]
    } else {
        decimal(n / 10).push(digit(n % 10))
    }
}

/// The decimal numeral of `i`, with a leading minus sign when it is negative.
pub open spec fn signed_decimal(i: int) -> Seq<char> {
    if i < 0 {
        seq!['-'] + decimal((-i) as nat)
    } else {
        decimal(i as nat)
    }
}

/// The characters of each string, in order.
pub open spec fn texts(strings: Seq<String>) -> Seq<Seq<char>> {
    Seq::new(strings.len(), |i: int| strings[i]@)
}

/// `parts` written one after another with `sep` between neighbours.
pub open spec fn joined(parts: Seq<Seq<char>>, sep: Seq<char>) -> Seq<char>
    decreases parts.len(),
{
    if parts.len() == 0 {
        Seq::empty()
    } else if parts.len() == 1 {
        parts[0]
    } else {
        joined(parts.drop_last(), sep) + sep + parts.last()
    }
}

/// `needle` occurs in `hay` as a contiguous run of characters.
pub open spec fn contains(hay: Seq<char>, needle: Seq<char>) -> bool {
    exists|before: Seq<char>, after: Seq<char>| hay == before + needle + after
}

fn digit_char(d: u8) -> (c: char)
    requires
        d < 10,
    ensures
        c == digit(d as nat),
{
    (48u8 + d) as char
}

/// Appends the decimal numeral of `n`.
pub fn push_decimal(out: &mut String, n: u64)
    ensures
        final(out)@ == old(out)@ + decimal(n as nat),
    decreases n,
{
    if n >= 10 {
        push_decimal(out, n / 10);
    }
    out.push(digit_char((n % 10) as u8));
}

/// Appends the decimal numeral of `i`, with its sign.
pub fn push_signed_decimal(out: &mut String, i: i64)
    ensures
        final(out)@ == old(out)@ + signed_decimal(i as int),
{
    if i < 0 {
        out.push('-');
        // The magnitude of the least `i64` does not fit in `i64`: widen first.
        let magnitude: u64 = (-(i as i128)) as u64;
        push_decimal(out, magnitude);
    } else {
        push_decimal(out, i as u64);
    }
}

/// Whether two strings hold the same characters.
pub fn same_text(a: &str, b: &str) -> (r: bool)
    ensures
        r == (a@ == b@),
{
    let left = chars_of(a);
    let right = chars_of(b);
    if left.len() != right.len() {
        return false;
    }
    let mut i: usize = 0;
    while i < left.len()
        invariant
            i <= left@.len(),
            left@ == a@,
            right@ == b@,
            left@.len() == right@.len(),
            left@.take(i as int) == right@.take(i as int),
        decreases left@.len() - i,
    {
        if left[i] != right[i] {
            proof {
                assert(a@[i as int] != b@[i as int]);
            }
            return false;
        }
        proof {
            assert(left@.take(i + 1) == left@.take(i as int).push(left@[i as int]));
            assert(right@.take(i + 1) == right@.take(i as int).push(right@[i as int]));
        }
        i += 1;
    }
    proof {
        assert(left@.take(left@.len() as int) == left@);
        assert(right@.take(right@.len() as int) == right@);
    }
    true
}

/// The characters of `s`, one for one.
pub fn chars_of(s: &str) -> (v: Vec<char>)
    ensures
        v@ == s@,
{
    let mut v: Vec<char> = Vec::new();
    for c in it: s.chars()
        invariant
            it.seq() == s@,
            v@ == s@.take(it.index()),
    {
        v.push(c);
        proof {
            assert(s@.take(it.index() + 1) == s@.take(it.index()).push(c));
        }
    }
    proof {
        assert(s@.take(s@.len() as int) == s@);
    }
    v
}

/// The characters of `chars` from `from` up to `to`, as a string.
pub fn string_of(chars: &Vec<char>, from: usize, to: usize) -> (s: String)
    requires
        from <= to <= chars@.len(),
    ensures
        s@ == chars@.subrange(from as int, to as int),
{
    let mut out = String::new();
    let mut i: usize = from;
    while i < to
        invariant
            from <= i <= to,
            to <= chars@.len(),
            out@ == chars@.subrange(from as int, i as int),
        decreases to - i,
    {
        out.push(chars[i]);
        proof {
            assert(chars@.subrange(from as int, i + 1) == chars@.subrange(
                from as int,
                i as int,
            ).push(chars@[i as int]));
        }
        i += 1;
    }
    out
}

/// The position of the first `c` in `s`, or the length of `s` where there is
/// none.
pub open spec fn position(s: Seq<char>, c: char) -> int
    decreases s.len(),
{
    if s.len() == 0 {
        0
    } else if s[0] == c {
        0
    } else {
        1 + position(s.skip(1), c)
    }
}

/// The pieces of `s` between the places where `c` stands: one more than
/// there are such places, some of them empty where two such places touch or
/// one is at an end.
pub open spec fn pieces(s: Seq<char>, c: char) -> Seq<Seq<char>>
    decreases s.len(),
{
    let at = position(s, c);
    if 0 <= at < s.len() {
        seq![s.take(at)] + pieces(s.skip(at + 1), c)
    } else {
        seq![s]
    }
}

/// The first `c` in `s` is where `position` says, and nowhere before.
pub proof fn lemma_position(s: Seq<char>, c: char)
    ensures
        0 <= position(s, c) <= s.len(),
        position(s, c) < s.len() ==> s[position(s, c)] == c,
        forall|i: int| 0 <= i < position(s, c) ==> s[i] != c,
    decreases s.len(),
{
    if s.len() > 0 && s[0] != c {
        lemma_position(s.skip(1), c);
        assert forall|i: int| 0 <= i < position(s, c) implies s[i] != c by {
            if i > 0 {
                assert(s.skip(1)[i - 1] == s[i]);
            }
        }
    }
}

/// The position of the first `c` in `chars` from `from` up to `to`, or `to`
/// where there is none.
pub fn find_in(chars: &Vec<char>, from: usize, to: usize, c: char) -> (at: usize)
    requires
        from <= to <= chars@.len(),
    ensures
        at == from + position(chars@.subrange(from as int, to as int), c),
        from <= at <= to,
        at < to ==> chars@[at as int] == c,
{
    let ghost s = chars@.subrange(from as int, to as int);
    let mut i: usize = from;
    proof {
        lemma_position(s, c);
        assert(s.skip(0) == s);
    }
    while i < to
        invariant
            from <= i <= to,
            to <= chars@.len(),
            s == chars@.subrange(from as int, to as int),
            position(s, c) == (i - from) + position(s.skip(i - from), c),
        decreases to - i,
    {
        proof {
            assert(s.skip(i - from)[0] == chars@[i as int]);
            assert(s.skip(i - from).skip(1) == s.skip(i + 1 - from));
        }
        if chars[i] == c {
            return i;
        }
        i += 1;
    }
    proof {
        assert(s.skip(i - from).len() == 0);
    }
    i
}


/// What `pieces` gives, by whether and where `c` first occurs.
pub proof fn lemma_pieces(s: Seq<char>, c: char)
    ensures
        pieces(s, c).len() >= 1,
        position(s, c) >= s.len() ==> pieces(s, c) == seq![s],
        position(s, c) < s.len() ==> pieces(s, c) == seq![s.take(position(s, c))] + pieces(
            s.skip(position(s, c) + 1),
            c,
        ),
        pieces(s, c)[0] == s.take(position(s, c)),
    decreases s.len(),
{
    lemma_position(s, c);
    let at = position(s, c);
    if at < s.len() {
        lemma_pieces(s.skip(at + 1), c);
    } else {
        assert(s.take(at) == s);
    }
}

/// The text of `s` after its last `c`, or all of `s` where there is none.
pub open spec fn after_last(s: Seq<char>, c: char) -> Seq<char>
    decreases s.len(),
{
    if s.len() == 0 || s.last() == c {
        Seq::empty()
    } else {
        after_last(s.drop_last(), c).push(s.last())
    }
}

/// Whether `c` occurs in `s`.
pub open spec fn occurs(s: Seq<char>, c: char) -> bool {
    exists|i: int| 0 <= i < s.len() && s[i] == c
}


/// Whether `c` is a decimal digit.
pub open spec fn is_digit(c: char) -> bool {
    '0' <= c <= '9'
}

/// Whether `s` holds decimal digits only.
pub open spec fn all_digits(s: Seq<char>) -> bool {
    forall|i: int| 0 <= i < s.len() ==> is_digit(#[trigger] s[i])
}

/// The number that the decimal digits `s` write.
pub open spec fn digits_value(s: Seq<char>) -> nat
    decreases s.len(),
{
    if s.len() == 0 {
        0
    } else {
        digits_value(s.drop_last()) * 10 + (s.last() as nat - '0' as nat) as nat
    }
}

/// A decimal numeral holds digits only, at least one, and writes its number.
pub proof fn lemma_decimal(n: nat)
    ensures
        decimal(n).len() >= 1,
        forall|i: int| 0 <= i < decimal(n).len() ==> is_digit(#[trigger] decimal(n)[i]),
        digits_value(decimal(n)) == n,
    decreases n,
{
    if n < 10 {
        assert(decimal(n).drop_last() =~= Seq::empty());
        assert(digits_value(decimal(n).drop_last()) == 0);
        assert(decimal(n).last() == digit(n));
    } else {
        lemma_decimal(n / 10);
        let d = decimal(n);
        assert(d.drop_last() =~= decimal(n / 10));
        assert(d.last() == digit(n % 10));
        assert forall|i: int| 0 <= i < d.len() implies is_digit(#[trigger] d[i]) by {
            if i < d.len() - 1 {
                assert(d[i] == decimal(n / 10)[i]);
            }
        }
    }
}

/// The integer that `s` writes: decimal digits, at least one, after a plus or
/// a minus sign or none. Anything else writes no integer.
pub open spec fn integer_of(s: Seq<char>) -> Option<int> {
    let signed = s.len() > 0 && (s[0] == '-' || s[0] == '+');
    let digits = if signed {
        s.skip(1)
    } else {
        s
    };
    if digits.len() > 0 && all_digits(digits) {
        if s[0] == '-' {
            Some(-(digits_value(digits) as int))
        } else {
            Some(digits_value(digits) as int)
        }
    } else {
        None
    }
}

/// A numeral reads back as its number.
pub proof fn lemma_numeral_reads_back(i: int)
    ensures
        integer_of(signed_decimal(i)) == Some(i),
        forall|k: int|
            0 <= k < signed_decimal(i).len() ==> (#[trigger] signed_decimal(i)[k]) == '-'
                || is_digit(signed_decimal(i)[k]),
{
    let s = signed_decimal(i);
    if i < 0 {
        let n = (-i) as nat;
        lemma_decimal(n);
        assert(s[0] == '-');
        assert(s.skip(1) =~= decimal(n));
        assert forall|k: int| 0 <= k < s.len() implies (#[trigger] s[k]) == '-' || is_digit(
            s[k],
        ) by {
            if k > 0 {
                assert(s[k] == decimal(n)[k - 1]);
            }
        }
    } else {
        lemma_decimal(i as nat);
        assert(is_digit(s[0]));
    }
}

/// Where `c` stands after text that does not hold it, it stands first.
pub proof fn lemma_position_after(before: Seq<char>, c: char, after: Seq<char>)
    requires
        forall|k: int| 0 <= k < before.len() ==> (#[trigger] before[k]) != c,
    ensures
        position(before + seq![c] + after, c) == before.len(),
    decreases before.len(),
{
    let s = before + seq![c] + after;
    if before.len() == 0 {
        assert(s[0] == c);
    } else {
        assert(s[0] == before[0]);
        assert forall|k: int| 0 <= k < before.skip(1).len() implies (#[trigger] before.skip(
            1,
        )[k]) != c by {
            assert(before.skip(1)[k] == before[k + 1]);
        }
        lemma_position_after(before.skip(1), c, after);
        assert(s.skip(1) =~= before.skip(1) + seq![c] + after);
    }
}

/// The integer that the characters of `chars` from `from` up to `to` write,
/// where they write one that fits.
pub fn integer_in(chars: &Vec<char>, from: usize, to: usize) -> (r: Option<i64>)
    requires
        from <= to <= chars@.len(),
    ensures
        match integer_of(chars@.subrange(from as int, to as int)) {
            Some(i) if i64::MIN <= i <= i64::MAX => r == Some(i as i64),
            _ => r is None,
        },
{
    let ghost s = chars@.subrange(from as int, to as int);
    let negative = from < to && chars[from] == '-';
    let start: usize = if from < to && (chars[from] == '-' || chars[from] == '+') {
        from + 1
    } else {
        from
    };
    let ghost digits = if s.len() > 0 && (s[0] == '-' || s[0] == '+') {
        s.skip(1)
    } else {
        s
    };
    proof {
        assert(s.skip(0) == s);
        assert(digits == s.skip(start - from));
    }
    if start == to {
        return None;
    }
    // The magnitude so far, or `limit` once it is larger than any `i64` in
    // magnitude.
    let limit: u128 = 0x8000_0000_0000_0001;
    let mut magnitude: u128 = 0;
    let mut i: usize = start;
    proof {
        assert(digits.take(0) =~= Seq::empty());
    }
    while i < to
        invariant
            from <= start <= i <= to,
            to <= chars@.len(),
            s == chars@.subrange(from as int, to as int),
            digits == s.skip(start - from),
            digits == if s.len() > 0 && (s[0] == '-' || s[0] == '+') {
                s.skip(1)
            } else {
                s
            },
            digits.len() == to - start,
            limit == 0x8000_0000_0000_0001,
            all_digits(digits.take(i - start)),
            magnitude <= limit,
            magnitude < limit ==> magnitude == digits_value(digits.take(i - start)),
            magnitude == limit ==> digits_value(digits.take(i - start)) >= limit,
        decreases to - i,
    {
        let c = chars[i];
        proof {
            assert(digits[i - start] == c);
            assert(digits.take(i - start + 1).drop_last() == digits.take(i - start));
            assert(digits.take(i - start + 1).last() == c);
        }
        if !('0' <= c && c <= '9') {
            proof {
                assert(!is_digit(digits[i - start]));
                assert(!all_digits(digits));
            }
            return None;
        }
        let digit: u128 = ((c as u32) - ('0' as u32)) as u128;
        if magnitude < limit {
            magnitude = magnitude * 10 + digit;
            if magnitude > limit {
                magnitude = limit;
            }
        }
        proof {
            assert forall|k: int| 0 <= k < i - start + 1 implies is_digit(
                #[trigger] digits.take(i - start + 1)[k],
            ) by {
                if k < i - start {
                    assert(digits.take(i - start)[k] == digits.take(i - start + 1)[k]);
                }
            }
        }
        i += 1;
    }
    proof {
        assert(digits.take(to - start) == digits);
        assert(s[0] == chars@[from as int]);
    }
    if negative {
        if magnitude <= 0x8000_0000_0000_0000 {
            Some((-(magnitude as i128)) as i64)
        } else {
            None
        }
    } else {
        if magnitude <= 0x7fff_ffff_ffff_ffff {
            Some(magnitude as i64)
        } else {
            None
        }
    }
}

} // verus!

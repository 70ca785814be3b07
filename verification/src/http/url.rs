//! URL handling helpers.
use vstd::prelude::*;
use crate::text::chars_of;

verus! {

/// Whether `c` is a hexadecimal digit.
pub open spec fn is_hex(c: char) -> bool {
    ('0' <= c <= '9') || ('a' <= c <= 'f') || ('A' <= c <= 'F')
}

/// The value of the hexadecimal digit `c`.
pub open spec fn hex_digit(c: char) -> nat
    recommends
        is_hex(c),
{
    if '0' <= c <= '9' {
        (c as nat - '0' as nat) as nat
    } else if 'a' <= c <= 'f' {
        (c as nat - 'a' as nat + 10) as nat
    } else {
        (c as nat - 'A' as nat + 10) as nat
    }
}

/// How many hexadecimal digits `s` starts with.
pub open spec fn hex_run(s: Seq<char>) -> nat
    decreases s.len(),
{
    if s.len() > 0 && is_hex(s[0]) {
        1 + hex_run(s.skip(1))
    } else {
        0
    }
}

/// The number that the hexadecimal digits `digits` write.
pub open spec fn hex_number(digits: Seq<char>) -> nat
    decreases digits.len(),
{
    if digits.len() == 0 {
        0
    } else {
        hex_number(digits.drop_last()) * 16 + hex_digit(digits.last())
    }
}

/// What an escape with the hexadecimal digits `digits` stands for: the
/// character with that number, where there is a digit and the number fits in
/// a byte; else nothing.
pub open spec fn escape_value(digits: Seq<char>) -> Seq<char> {
    if digits.len() > 0 && hex_number(digits) <= 255 {
        seq![hex_number(digits) as u8 as char]
    } else {
        Seq::empty()
    }
}

/// `s` with its URL encoding undone.
///
/// A percent sign takes all the hexadecimal digits that follow it and stands
/// for the character that they number, or for nothing where there is no
/// digit or the number does not fit in a byte. A plus sign stands for a
/// space. Every other character stands for itself.
pub open spec fn decoded(s: Seq<char>) -> Seq<char>
    decreases s.len(),
{
    if s.len() == 0 {
        s
    } else if s[0] == '%' {
        let digits = hex_run(s.skip(1)) as int;
        if digits + 1 <= s.len() {
            escape_value(s.subrange(1, 1 + digits)) + decoded(s.skip(1 + digits))
        } else {
            Seq::empty()
        }
    } else if s[0] == '+' {
        seq![' '] + decoded(s.skip(1))
    } else {
        seq![s[0]] + decoded(s.skip(1))
    }
}

/// A run of hexadecimal digits is no longer than the text it starts.
pub proof fn lemma_hex_run_fits(s: Seq<char>)
    ensures
        hex_run(s) <= s.len(),
    decreases s.len(),
{
    if s.len() > 0 && is_hex(s[0]) {
        lemma_hex_run_fits(s.skip(1));
    }
}

fn hex_value(c: char) -> (r: Option<u8>)
    ensures
        r is Some <==> is_hex(c),
        r matches Some(v) ==> v == hex_digit(c) && v < 16,
{
    if '0' <= c && c <= '9' {
        Some(((c as u32) - ('0' as u32)) as u8)
    } else if 'a' <= c && c <= 'f' {
        Some(((c as u32) - ('a' as u32) + 10) as u8)
    } else if 'A' <= c && c <= 'F' {
        Some(((c as u32) - ('A' as u32) + 10) as u8)
    } else {
        None
    }
}

/// Decodes the characters of `chars` from `from` on.
pub fn decode_chars(chars: &Vec<char>, from: usize, to: usize) -> (r: String)
    requires
        from <= to <= chars@.len(),
    ensures
        r@ == decoded(chars@.subrange(from as int, to as int)),
{
    let ghost s = chars@.subrange(from as int, to as int);
    let mut result = String::new();
    let mut i: usize = from;
    proof {
        assert(s.skip(0) == s);
    }
    while i < to
        invariant
            from <= i <= to,
            to <= chars@.len(),
            s == chars@.subrange(from as int, to as int),
            result@ + decoded(s.skip(i - from)) == decoded(s),
        decreases to - i,
    {
        let ghost rest = s.skip(i - from);
        let ghost before = result@;
        proof {
            assert(rest.len() == to - i);
            assert(rest[0] == chars@[i as int]);
        }
        let c = chars[i];
        if c == '%' {
            let mut j: usize = i + 1;
            // The number so far, or 256 once it no longer fits in a byte.
            let mut number: u16 = 0;
            proof {
                assert(rest.skip(1).skip(0) == rest.skip(1));
                assert(rest.subrange(1, 1) =~= Seq::empty());
            }
            while j < to && hex_value(chars[j]).is_some()
                invariant
                    from <= i < j <= to,
                    to <= chars@.len(),
                    s == chars@.subrange(from as int, to as int),
                    rest == s.skip(i - from),
                    rest.len() == to - i,
                    hex_run(rest.skip(1)) == (j - i - 1) + hex_run(rest.skip(j - i)),
                    number <= 256,
                    number < 256 ==> number == hex_number(rest.subrange(1, j - i)),
                    number == 256 ==> hex_number(rest.subrange(1, j - i)) > 255,
                decreases to - j,
            {
                let digit = hex_value(chars[j]).unwrap();
                proof {
                    assert(rest.skip(j - i)[0] == chars@[j as int]);
                    assert(rest.skip(j - i).skip(1) == rest.skip(j - i + 1));
                    assert(rest.subrange(1, j - i + 1).drop_last() == rest.subrange(1, j - i));
                    assert(rest.subrange(1, j - i + 1).last() == chars@[j as int]);
                }
                if number < 16 {
                    number = number * 16 + digit as u16;
                } else {
                    number = 256;
                }
                j += 1;
            }
            proof {
                if j < to {
                    assert(rest.skip(j - i)[0] == chars@[j as int]);
                } else {
                    assert(rest.skip(j - i).len() == 0);
                }
                assert(hex_run(rest.skip(j - i)) == 0);
                assert(rest.skip(1 + (j - i - 1)) == s.skip(j - from));
            }
            if j > i + 1 && number <= 255 {
                result.push((number as u8) as char);
            }
            proof {
                assert(result@ == before + escape_value(rest.subrange(1, j - i)));
                assert(result@ + decoded(s.skip(j - from)) =~= before + decoded(rest));
            }
            i = j;
        } else {
            if c == '+' {
                result.push(' ');
            } else {
                result.push(c);
            }
            proof {
                assert(rest.skip(1) == s.skip(i + 1 - from));
                assert(result@ + decoded(s.skip(i + 1 - from)) =~= before + decoded(rest));
            }
            i += 1;
        }
    }
    proof {
        assert(s.skip(to - from).len() == 0);
        assert(result@ + Seq::<char>::empty() =~= result@);
    }
    result
}

/// Decodes a string encoded with URL encoding.
pub fn urldecode(s: &str) -> (r: String)
    ensures
        r@ == decoded(s@),
{
    let chars = chars_of(s);
    proof {
        assert(chars@.subrange(0, chars@.len() as int) == chars@);
    }
    decode_chars(&chars, 0, chars.len())
}

} // verus!

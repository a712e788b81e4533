//! The grammar of floating-point number literals, and the two validators
//! built on it.
//!
//! Command-line arguments arrive as text; a coordinate, radius or edge
//! length is accepted only when the text is a well-formed float literal,
//! and a radius or edge length only when it is not negative. The grammar
//! below is the one `f64::from_str` documents:
//!
//! ```text
//! Float  ::= Sign? ( 'inf' | 'infinity' | 'nan' | Number )
//! Number ::= ( Digit+ | Digit+ '.' Digit* | Digit* '.' Digit+ ) Exp?
//! Exp    ::= ('e' | 'E') Sign? Digit+
//! ```
//!
//! with the three keywords matched ignoring case. Negativity is stated
//! mathematically, on the literal itself: a leading minus in front of an
//! infinity or of a number whose significand holds a nonzero digit.

use vstd::prelude::*;

verus! {

pub open spec fn is_digit_char(c: char) -> bool {
    '0' <= c && c <= '9'
}

pub open spec fn is_nonzero_digit_char(c: char) -> bool {
    '1' <= c && c <= '9'
}

pub open spec fn is_sign_char(c: char) -> bool {
    c == '+' || c == '-'
}

pub open spec fn is_exp_char(c: char) -> bool {
    c == 'e' || c == 'E'
}

pub open spec fn is_mantissa_char(c: char) -> bool {
    is_digit_char(c) || c == '.'
}

/// `Digit+ | Digit+ '.' Digit* | Digit* '.' Digit+`: not empty, nothing but
/// digits and at most one decimal point, and at least one digit.
pub open spec fn is_mantissa(s: Seq<char>) -> bool {
    &&& s.len() > 0
    &&& (forall|i: int| 0 <= i < s.len() ==> is_mantissa_char(#[trigger] s[i]))
    &&& (forall|i: int, j: int|
        #![trigger s[i], s[j]]
        0 <= i < j < s.len() ==> !(s[i] == '.' && s[j] == '.'))
    &&& (exists|i: int| 0 <= i < s.len() && is_digit_char(#[trigger] s[i]))
}

pub open spec fn all_digits(s: Seq<char>) -> bool {
    forall|i: int| 0 <= i < s.len() ==> is_digit_char(#[trigger] s[i])
}

/// `Sign? Digit+`: what may follow an exponent marker.
pub open spec fn is_exp_suffix(s: Seq<char>) -> bool {
    ||| (s.len() > 0 && all_digits(s))
    ||| (s.len() > 1 && is_sign_char(s[0]) && all_digits(s.skip(1)))
}

/// The number splits at position `i`: an exponent marker there, a mantissa
/// before it and an exponent suffix after it.
pub open spec fn split_is_number(s: Seq<char>, i: int) -> bool {
    &&& 0 <= i < s.len()
    &&& is_exp_char(s[i])
    &&& is_mantissa(s.take(i))
    &&& is_exp_suffix(s.skip(i + 1))
}

/// `Number ::= Mantissa Exp?`.
pub open spec fn is_number(s: Seq<char>) -> bool {
    is_mantissa(s) || exists|i: int| #[trigger] split_is_number(s, i)
}

pub open spec fn char_either(c: char, lower: char, upper: char) -> bool {
    c == lower || c == upper
}

/// The keyword `inf`, ignoring case.
pub open spec fn word_inf(s: Seq<char>) -> bool {
    &&& s.len() == 3
    &&& char_either(s[0], 'i', 'I')
    &&& char_either(s[1], 'n', 'N')
    &&& char_either(s[2], 'f', 'F')
}

/// The keyword `infinity`, ignoring case.
pub open spec fn word_infinity(s: Seq<char>) -> bool {
    &&& s.len() == 8
    &&& char_either(s[0], 'i', 'I')
    &&& char_either(s[1], 'n', 'N')
    &&& char_either(s[2], 'f', 'F')
    &&& char_either(s[3], 'i', 'I')
    &&& char_either(s[4], 'n', 'N')
    &&& char_either(s[5], 'i', 'I')
    &&& char_either(s[6], 't', 'T')
    &&& char_either(s[7], 'y', 'Y')
}

/// The keyword `nan`, ignoring case.
pub open spec fn word_nan(s: Seq<char>) -> bool {
    &&& s.len() == 3
    &&& char_either(s[0], 'n', 'N')
    &&& char_either(s[1], 'a', 'A')
    &&& char_either(s[2], 'n', 'N')
}

pub open spec fn strip_sign(s: Seq<char>) -> Seq<char> {
    if s.len() > 0 && is_sign_char(s[0]) {
        s.skip(1)
    } else {
        s
    }
}

/// The full grammar: an optional sign, then a keyword or a number.
pub open spec fn is_float_literal(s: Seq<char>) -> bool {
    let b = strip_sign(s);
    word_inf(b) || word_infinity(b) || word_nan(b) || is_number(b)
}

/// A digit `1`..`9` stands before any exponent marker: the significand,
/// and with it the mathematical value of the literal, is not zero.
pub open spec fn significand_has_nonzero_digit(s: Seq<char>) -> bool {
    exists|i: int|
        #![trigger s[i]]
        0 <= i < s.len() && is_nonzero_digit_char(s[i]) && (forall|j: int|
            0 <= j < i ==> !is_exp_char(#[trigger] s[j]))
}

/// The literal denotes a value below zero: a minus sign in front of an
/// infinity, or of a number whose significand is not zero. Neither `-nan`
/// nor `-0` is negative.
pub open spec fn is_negative_literal(s: Seq<char>) -> bool {
    s.len() > 0 && s[0] == '-' && {
        let b = s.skip(1);
        word_inf(b) || word_infinity(b) || (is_number(b) && significand_has_nonzero_digit(b))
    }
}

/// Scans `s[from..to]` for a mantissa: only digits and at most one decimal
/// point, at least one digit.
fn check_mantissa(s: &str, from: usize, to: usize) -> (b: bool)
    requires
        from <= to <= s@.len(),
    ensures
        b == is_mantissa(s@.subrange(from as int, to as int)),
{
    let ghost sub = s@.subrange(from as int, to as int);
    if from >= to {
        return false;
    }
    let mut i: usize = from;
    let mut has_digit: bool = false;
    let mut has_dot: bool = false;
    let mut dot_at: usize = 0;
    while i < to
        invariant
            from <= i <= to <= s@.len(),
            from < to,
            sub == s@.subrange(from as int, to as int),
            forall|j: int| from <= j < i ==> is_mantissa_char(#[trigger] s@[j]),
            has_digit == exists|j: int| from <= j < i && is_digit_char(#[trigger] s@[j]),
            has_dot == exists|j: int| from <= j < i && #[trigger] s@[j] == '.',
            has_dot ==> from <= dot_at < i && s@[dot_at as int] == '.',
            forall|j: int| from <= j < i && #[trigger] s@[j] == '.' ==> j == dot_at as int,
        decreases to - i,
    {
        let c = s.get_char(i);
        if c == '.' {
            if has_dot {
                proof {
                    assert(sub[dot_at - from] == '.');
                    assert(sub[i - from] == '.');
                }
                return false;
            }
            has_dot = true;
            dot_at = i;
        } else if c >= '0' && c <= '9' {
            has_digit = true;
        } else {
            proof {
                assert(sub[i - from] == c);
            }
            return false;
        }
        i += 1;
    }
    proof {
        if has_digit {
            let w = choose|j: int| from <= j < to && is_digit_char(#[trigger] s@[j]);
            assert(sub[w - from] == s@[w]);
            assert forall|k: int| 0 <= k < sub.len() implies is_mantissa_char(sub[k]) by {
                assert(sub[k] == s@[from + k]);
            }
            assert forall|k1: int, k2: int|
                #![trigger sub[k1], sub[k2]]
                0 <= k1 < k2 < sub.len() implies !(sub[k1] == '.' && sub[k2] == '.') by {
                assert(sub[k1] == s@[from + k1]);
                assert(sub[k2] == s@[from + k2]);
            }
            assert(is_mantissa(sub));
        } else {
            assert forall|k: int| 0 <= k < sub.len() implies !is_digit_char(sub[k]) by {
                assert(sub[k] == s@[from + k]);
            }
            assert(!is_mantissa(sub));
        }
    }
    has_digit
}

/// Scans `s[from..to]` for an exponent suffix: an optional sign, then at
/// least one digit.
#[verifier::loop_isolation(false)]
fn check_exp_suffix(s: &str, from: usize, to: usize) -> (b: bool)
    requires
        from <= to <= s@.len(),
    ensures
        b == is_exp_suffix(s@.subrange(from as int, to as int)),
{
    let ghost sub = s@.subrange(from as int, to as int);
    let mut start: usize = from;
    if from < to {
        let c = s.get_char(from);
        if c == '+' || c == '-' {
            start = from + 1;
        }
    }
    proof {
        if start > from {
            assert(is_sign_char(sub[0]));
            assert(sub.skip(1) =~= s@.subrange(start as int, to as int));
        } else {
            assert(sub =~= s@.subrange(start as int, to as int));
        }
    }
    let ghost t = s@.subrange(start as int, to as int);
    if start >= to {
        proof {
            if sub.len() > 0 {
                assert(!is_digit_char(sub[0]));
            }
        }
        return false;
    }
    let mut i: usize = start;
    while i < to
        invariant
            start <= i <= to <= s@.len(),
            forall|j: int| start <= j < i ==> is_digit_char(#[trigger] s@[j]),
        decreases to - i,
    {
        let c = s.get_char(i);
        if !(c >= '0' && c <= '9') {
            proof {
                assert(sub[i - from] == c);
                if start > from {
                    assert(sub.skip(1)[i - start] == c);
                }
                assert(!is_exp_suffix(sub));
            }
            return false;
        }
        i += 1;
    }
    proof {
        assert forall|k: int| 0 <= k < t.len() implies is_digit_char(t[k]) by {
            assert(t[k] == s@[start + k]);
        }
        assert(all_digits(t));
        if start > from {
            assert(sub.skip(1) == t);
            assert(is_exp_suffix(sub));
        } else {
            assert(sub == t);
            assert(is_exp_suffix(sub));
        }
    }
    true
}

/// Tests `s[from..to]` against the keywords `inf`, `infinity` and `nan`,
/// ignoring case.
fn check_keyword(s: &str, from: usize, to: usize) -> (b: bool)
    requires
        from <= to <= s@.len(),
    ensures
        b == {
            let sub = s@.subrange(from as int, to as int);
            word_inf(sub) || word_infinity(sub) || word_nan(sub)
        },
{
    let ghost sub = s@.subrange(from as int, to as int);
    let n = to - from;
    if n == 3 {
        let c0 = s.get_char(from);
        let c1 = s.get_char(from + 1);
        let c2 = s.get_char(from + 2);
        proof {
            assert(sub[0] == c0);
            assert(sub[1] == c1);
            assert(sub[2] == c2);
        }
        ((c0 == 'i' || c0 == 'I') && (c1 == 'n' || c1 == 'N') && (c2 == 'f' || c2 == 'F')) || ((c0
            == 'n' || c0 == 'N') && (c1 == 'a' || c1 == 'A') && (c2 == 'n' || c2 == 'N'))
    } else if n == 8 {
        let c0 = s.get_char(from);
        let c1 = s.get_char(from + 1);
        let c2 = s.get_char(from + 2);
        let c3 = s.get_char(from + 3);
        let c4 = s.get_char(from + 4);
        let c5 = s.get_char(from + 5);
        let c6 = s.get_char(from + 6);
        let c7 = s.get_char(from + 7);
        proof {
            assert(sub[0] == c0);
            assert(sub[1] == c1);
            assert(sub[2] == c2);
            assert(sub[3] == c3);
            assert(sub[4] == c4);
            assert(sub[5] == c5);
            assert(sub[6] == c6);
            assert(sub[7] == c7);
        }
        (c0 == 'i' || c0 == 'I') && (c1 == 'n' || c1 == 'N') && (c2 == 'f' || c2 == 'F') && (c3
            == 'i' || c3 == 'I') && (c4 == 'n' || c4 == 'N') && (c5 == 'i' || c5 == 'I') && (c6
            == 't' || c6 == 'T') && (c7 == 'y' || c7 == 'Y')
    } else {
        false
    }
}

/// Finds the first exponent marker in `s[from..to]`, or returns `to`.
fn find_exp_char(s: &str, from: usize, to: usize) -> (e: usize)
    requires
        from <= to <= s@.len(),
    ensures
        from <= e <= to,
        forall|j: int| from <= j < e ==> !is_exp_char(#[trigger] s@[j]),
        e < to ==> is_exp_char(s@[e as int]),
{
    let mut i: usize = from;
    while i < to
        invariant
            from <= i <= to <= s@.len(),
            forall|j: int| from <= j < i ==> !is_exp_char(#[trigger] s@[j]),
        decreases to - i,
    {
        let c = s.get_char(i);
        if c == 'e' || c == 'E' {
            return i;
        }
        i += 1;
    }
    i
}

/// Decides whether `s` is a well-formed floating-point literal.
pub fn check_float_literal(s: &str) -> (b: bool)
    ensures
        b == is_float_literal(s@),
{
    let n = s.unicode_len();
    let mut start: usize = 0;
    if n > 0 {
        let c = s.get_char(0);
        if c == '+' || c == '-' {
            start = 1;
        }
    }
    let ghost body = s@.subrange(start as int, n as int);
    proof {
        assert(strip_sign(s@) =~= body);
    }
    if check_keyword(s, start, n) {
        return true;
    }
    let e = find_exp_char(s, start, n);
    if e == n {
        let m = check_mantissa(s, start, n);
        proof {
            if !m {
                assert forall|i: int| !split_is_number(body, i) by {
                    if 0 <= i < body.len() {
                        assert(body[i] == s@[start + i]);
                    }
                }
            }
        }
        m
    } else {
        let m = check_mantissa(s, start, e);
        if m {
            let x = check_exp_suffix(s, e + 1, n);
            proof {
                let sp = e - start;
                assert(body[sp] == s@[e as int]);
                assert(body.take(sp) =~= s@.subrange(start as int, e as int));
                assert(body.skip(sp + 1) =~= s@.subrange(e as int + 1, n as int));
                if x {
                    assert(split_is_number(body, sp));
                } else {
                    assert(!is_mantissa(body));
                    assert forall|i: int| !split_is_number(body, i) by {
                        if 0 <= i < body.len() {
                            if i < sp {
                                assert(body[i] == s@[start + i]);
                            } else if i > sp {
                                assert(body.take(i)[sp] == body[sp]);
                            }
                        }
                    }
                }
            }
            x
        } else {
            proof {
                let sp = e - start;
                assert(body[sp] == s@[e as int]);
                assert(body.take(sp) =~= s@.subrange(start as int, e as int));
                assert(!is_mantissa(body));
                assert forall|i: int| !split_is_number(body, i) by {
                    if 0 <= i < body.len() {
                        if i < sp {
                            assert(body[i] == s@[start + i]);
                        } else if i > sp {
                            assert(body.take(i)[sp] == body[sp]);
                        }
                    }
                }
            }
            false
        }
    }
}

/// Decides whether a well-formed literal denotes a value below zero.
#[verifier::loop_isolation(false)]
fn check_negative(s: &str) -> (b: bool)
    requires
        is_float_literal(s@),
    ensures
        b == is_negative_literal(s@),
{
    let n = s.unicode_len();
    if n == 0 {
        return false;
    }
    let c0 = s.get_char(0);
    if c0 != '-' {
        return false;
    }
    let ghost body = s@.skip(1);
    proof {
        assert(strip_sign(s@) == body);
    }
    if n == 1 {
        proof {
            assert(body =~= Seq::<char>::empty());
            assert forall|i: int| !split_is_number(body, i) by {}
        }
        return false;
    }
    let c1 = s.get_char(1);
    proof {
        assert(body[0] == s@[1]);
    }
    if c1 == 'i' || c1 == 'I' {
        proof {
            assert forall|i: int| !split_is_number(body, i) by {
                if 0 <= i < body.len() {
                    if i == 0 {
                        assert(body.take(0).len() == 0);
                    } else {
                        assert(body.take(i)[0] == body[0]);
                    }
                }
            }
            assert(!is_mantissa_char(body[0]));
            assert(!is_number(body));
            assert(!word_nan(body));
            assert(word_inf(body) || word_infinity(body));
        }
        return true;
    }
    if c1 == 'n' || c1 == 'N' {
        proof {
            assert forall|i: int| !split_is_number(body, i) by {
                if 0 <= i < body.len() {
                    if i == 0 {
                        assert(body.take(0).len() == 0);
                    } else {
                        assert(body.take(i)[0] == body[0]);
                    }
                }
            }
            assert(!is_mantissa_char(body[0]));
            assert(!is_number(body));
            assert(!word_inf(body));
            assert(!word_infinity(body));
        }
        return false;
    }
    proof {
        // not a keyword, since those start with i, I, n or N: a number
        assert(is_number(body));
    }
    let mut i: usize = 1;
    while i < n
        invariant
            1 <= i <= n,
            n as nat == s@.len(),
            body == s@.skip(1),
            s@.len() > 1,
            forall|j: int|
                1 <= j < i ==> !is_exp_char(#[trigger] s@[j]) && !is_nonzero_digit_char(s@[j]),
        decreases n - i,
    {
        let c = s.get_char(i);
        if c >= '1' && c <= '9' {
            proof {
                assert(body[i - 1] == c);
                assert forall|j: int| 0 <= j < i - 1 implies !is_exp_char(body[j]) by {
                    assert(body[j] == s@[j + 1]);
                }
                assert(significand_has_nonzero_digit(body));
            }
            return true;
        }
        if c == 'e' || c == 'E' {
            proof {
                assert(body[i - 1] == c);
                assert(!significand_has_nonzero_digit(body)) by {
                    if significand_has_nonzero_digit(body) {
                        let k = choose|k: int|
                            0 <= k < body.len() && is_nonzero_digit_char(#[trigger] body[k]) && (
                            forall|j: int| 0 <= j < k ==> !is_exp_char(#[trigger] body[j]));
                        assert(body[k] == s@[k + 1]);
                        if k + 1 > i {
                            assert(!is_exp_char(body[i - 1]));
                        }
                    }
                }
            }
            return false;
        }
        i += 1;
    }
    proof {
        assert(!significand_has_nonzero_digit(body)) by {
            if significand_has_nonzero_digit(body) {
                let k = choose|k: int|
                    0 <= k < body.len() && is_nonzero_digit_char(#[trigger] body[k]) && (forall|
                        j: int,
                    | 0 <= j < k ==> !is_exp_char(#[trigger] body[j]));
                assert(body[k] == s@[k + 1]);
            }
        }
    }
    false
}

/// Accepts a command-line argument exactly when it is a well-formed
/// floating-point literal.
pub fn is_float(x: String) -> (r: Result<(), String>)
    ensures
        (r is Ok) <==> is_float_literal(x@),
        r matches Err(m) ==> m@ == "Value is not a proper float."@,
{
    if check_float_literal(x.as_str()) {
        Ok(())
    } else {
        Err("Value is not a proper float.".to_owned())
    }
}

/// Accepts a command-line argument exactly when it is a well-formed
/// floating-point literal that does not denote a value below zero.
pub fn is_positive_float(x: String) -> (r: Result<(), String>)
    ensures
        (r is Ok) <==> (is_float_literal(x@) && !is_negative_literal(x@)),
        !is_float_literal(x@) ==> (r matches Err(m) && m@ == "Value is not a proper float."@),
        (is_float_literal(x@) && is_negative_literal(x@)) ==> (r matches Err(m) && m@
            == "Value is not positive."@),
{
    if !check_float_literal(x.as_str()) {
        return Err("Value is not a proper float.".to_owned());
    }
    if check_negative(x.as_str()) {
        Err("Value is not positive.".to_owned())
    } else {
        Ok(())
    }
}

} // verus!

use vstd::prelude::*;

verus! {

pub open spec fn is_digit(c: char) -> bool {
    '0' <= c <= '9'
}

/// Every character of `s` is a decimal digit (`s` may be empty).
pub open spec fn is_digits(s: Seq<char>) -> bool {
    forall|i: int| 0 <= i < s.len() ==> is_digit(#[trigger] s[i])
}

pub open spec fn is_sign(c: char) -> bool {
    c == '+' || c == '-'
}

/// The value of a run of decimal digits.
pub open spec fn digits_value(s: Seq<char>) -> int
    decreases s.len(),
{
    if s.len() == 0 {
        0
    } else {
        digits_value(s.drop_last()) * 10 + (s.last() as int - '0' as int)
    }
}

/// The integer written by `s`: an optional sign, then one or more decimal
/// digits, and nothing else.
pub open spec fn int_literal(s: Seq<char>) -> Option<int> {
    if s.len() > 1 && is_sign(s[0]) && is_digits(s.drop_first()) {
        if s[0] == '-' {
            Some(-digits_value(s.drop_first()))
        } else {
            Some(digits_value(s.drop_first()))
        }
    } else if s.len() > 0 && is_digits(s) {
        Some(digits_value(s))
    } else {
        None
    }
}

/// The 64-bit integer written by `s`, or `None` when `s` writes no integer
/// or one out of range.
pub open spec fn i64_literal(s: Seq<char>) -> Option<i64> {
    match int_literal(s) {
        Some(v) => if i64::MIN <= v <= i64::MAX {
            Some(v as i64)
        } else {
            None
        },
        None => None,
    }
}

/// Relies on `i64`'s `FromStr`: it accepts an optional `+` or `-` followed
/// by decimal digits only, and fails when the value is out of range.
#[verifier::external_body]
fn parse_i64(s: &str) -> (r: Option<i64>)
    ensures
        r == i64_literal(s@),
{
    s.parse::<i64>().ok()
}

/// The 64-bit integer written by `word`, if it writes one.
pub fn read_integer(word: &str) -> (r: Option<i64>)
    ensures
        r == i64_literal(word@),
{
    parse_i64(word)
}

// Decimal literals: the grammar of a number in the scene language, which is
// that of Rust's floating-point `FromStr`, letters taken case-insensitively:
//   Float  ::= Sign? ( 'inf' | 'infinity' | 'nan' | Number )
//   Number ::= ( Digit+ | Digit+ '.' Digit* | Digit* '.' Digit+ ) Exp?
//   Exp    ::= 'e' Sign? Digit+
/// `c` in lower case, for ASCII letters.
pub open spec fn lower(c: char) -> char {
    if 'A' <= c <= 'Z' {
        ((c as u32) + 32) as char
    } else {
        c
    }
}

/// `s` spells `word` (which is in lower case), ignoring case.
pub open spec fn spells(s: Seq<char>, word: Seq<char>) -> bool {
    s.len() == word.len() && forall|i: int| 0 <= i < s.len() ==> lower(#[trigger] s[i]) == word[i]
}

/// `s` is one of the words for infinity or not-a-number.
pub open spec fn is_special(s: Seq<char>) -> bool {
    spells(s, seq!['i', 'n', 'f']) || spells(s, seq!['i', 'n', 'f', 'i', 'n', 'i', 't', 'y'])
        || spells(s, seq!['n', 'a', 'n'])
}

/// `s` is digits with at most one decimal point, and at least one digit.
pub open spec fn is_mantissa(s: Seq<char>) -> bool {
    ||| s.len() > 0 && is_digits(s)
    ||| exists|p: int|
        0 <= p < s.len() && s.len() > 1 && s[p] == '.' && is_digits(s.take(p)) && is_digits(
            s.skip(p + 1),
        )
}

/// `s` is an exponent: `e` or `E`, an optional sign, then digits.
pub open spec fn is_exponent(s: Seq<char>) -> bool {
    &&& s.len() > 1
    &&& lower(s[0]) == 'e'
    &&& if is_sign(s[1]) {
        s.len() > 2 && is_digits(s.skip(2))
    } else {
        is_digits(s.skip(1))
    }
}

/// `s` is a mantissa, followed by an optional exponent.
pub open spec fn is_number(s: Seq<char>) -> bool {
    ||| is_mantissa(s)
    ||| exists|k: int| 0 < k < s.len() && is_mantissa(s.take(k)) && is_exponent(s.skip(k))
}

/// `s` writes a decimal (floating-point) number.
pub open spec fn is_decimal_literal(s: Seq<char>) -> bool {
    let body = if s.len() > 0 && is_sign(s[0]) {
        s.skip(1)
    } else {
        s
    };
    is_number(body) || is_special(body)
}

/// The characters of `s`, in order.
pub fn chars_of(s: &str) -> (r: Vec<char>)
    ensures
        r@ == s@,
{
    let mut v: Vec<char> = Vec::new();
    for c in it: s.chars()
        invariant
            it.seq() == s@,
            v@ == s@.take(it.index() as int),
    {
        v.push(c);
        assert(v@ =~= s@.take(it.index() + 1));
    }
    assert(v@ =~= s@);
    v
}

fn char_is_digit(c: char) -> (r: bool)
    ensures
        r == is_digit(c),
{
    '0' <= c && c <= '9'
}

fn lower_char(c: char) -> (r: char)
    ensures
        r == lower(c),
{
    if 'A' <= c && c <= 'Z' {
        ((c as u32 + 32) as u8) as char
    } else {
        c
    }
}

/// Whether `s[from..to]` is all digits.
fn digits_between(s: &Vec<char>, from: usize, to: usize) -> (r: bool)
    requires
        from <= to <= s@.len(),
    ensures
        r == is_digits(s@.subrange(from as int, to as int)),
{
    let mut i: usize = from;
    while i < to
        invariant
            from <= i <= to <= s@.len(),
            is_digits(s@.subrange(from as int, i as int)),
        decreases to - i,
    {
        if !char_is_digit(s[i]) {
            assert(s@.subrange(from as int, to as int)[i - from] == s@[i as int]);
            return false;
        }
        i = i + 1;
        assert forall|j: int| 0 <= j < i - from implies is_digit(
            #[trigger] s@.subrange(from as int, i as int)[j],
        ) by {
            if j < i - 1 - from {
                assert(s@.subrange(from as int, i as int)[j] == s@.subrange(
                    from as int,
                    i - 1,
                )[j]);
            }
        }
    }
    true
}

/// Whether `s[from..to]` spells `word`, ignoring case.
fn spells_between(s: &Vec<char>, from: usize, to: usize, word: &Vec<char>) -> (r: bool)
    requires
        from <= to <= s@.len(),
    ensures
        r == spells(s@.subrange(from as int, to as int), word@),
{
    if to - from != word.len() {
        return false;
    }
    let mut i: usize = 0;
    while i < word.len()
        invariant
            from <= to <= s@.len(),
            to - from == word@.len(),
            i <= word@.len(),
            forall|j: int| 0 <= j < i ==> lower(s@[from + j]) == word@[j],
        decreases word@.len() - i,
    {
        if lower_char(s[from + i]) != word[i] {
            assert(lower(s@.subrange(from as int, to as int)[i as int]) != word@[i as int]);
            return false;
        }
        i = i + 1;
    }
    assert forall|j: int| 0 <= j < to - from implies lower(
        #[trigger] s@.subrange(from as int, to as int)[j],
    ) == word@[j] by {
        assert(s@.subrange(from as int, to as int)[j] == s@[from + j]);
    }
    true
}

/// Whether `s[from..to]` is a mantissa.
fn mantissa_between(s: &Vec<char>, from: usize, to: usize) -> (r: bool)
    requires
        from <= to <= s@.len(),
    ensures
        r == is_mantissa(s@.subrange(from as int, to as int)),
{
    let ghost m = s@.subrange(from as int, to as int);
    let mut p: usize = from;
    while p < to && s[p] != '.'
        invariant
            from <= p <= to <= s@.len(),
            forall|j: int| from <= j < p ==> s@[j] != '.',
        decreases to - p,
    {
        p = p + 1;
    }
    if p == to {
        return to > from && digits_between(s, from, to);
    }
    let q = p - from;
    assert(m[q as int] == '.');
    assert(m.take(q as int) =~= s@.subrange(from as int, p as int));
    assert(m.skip(q + 1) =~= s@.subrange(p + 1, to as int));
    let r = to - from > 1 && digits_between(s, from, p) && digits_between(s, p + 1, to);
    proof {
        if !r && is_mantissa(m) {
            if m.len() > 0 && is_digits(m) {
                assert(is_digit(m[q as int]));
            } else {
                let p2 = choose|p2: int|
                    0 <= p2 < m.len() && m.len() > 1 && m[p2] == '.' && is_digits(m.take(p2))
                        && is_digits(m.skip(p2 + 1));
                if p2 < q {
                    assert(m[p2] == s@[from + p2]);
                } else if p2 > q {
                    assert(m.take(p2)[q as int] == '.');
                }
            }
        }
    }
    r
}

/// Whether `s[from..to]` is an exponent.
fn exponent_between(s: &Vec<char>, from: usize, to: usize) -> (r: bool)
    requires
        from <= to <= s@.len(),
    ensures
        r == is_exponent(s@.subrange(from as int, to as int)),
{
    let ghost e = s@.subrange(from as int, to as int);
    if to - from < 2 || lower_char(s[from]) != 'e' {
        return false;
    }
    assert(e[0] == s@[from as int]);
    assert(e[1] == s@[from + 1]);
    if s[from + 1] == '+' || s[from + 1] == '-' {
        assert(e.skip(2) =~= s@.subrange(from + 2, to as int));
        to - from > 2 && digits_between(s, from + 2, to)
    } else {
        assert(e.skip(1) =~= s@.subrange(from + 1, to as int));
        digits_between(s, from + 1, to)
    }
}

/// Whether `s[from..to]` is a number: a mantissa and an optional exponent.
fn number_between(s: &Vec<char>, from: usize, to: usize) -> (r: bool)
    requires
        from <= to <= s@.len(),
    ensures
        r == is_number(s@.subrange(from as int, to as int)),
{
    let ghost n = s@.subrange(from as int, to as int);
    let mut k: usize = from;
    while k < to && lower_char(s[k]) != 'e'
        invariant
            from <= k <= to <= s@.len(),
            forall|j: int| from <= j < k ==> lower(s@[j]) != 'e',
        decreases to - k,
    {
        k = k + 1;
    }
    if k == to {
        let r = mantissa_between(s, from, to);
        proof {
            if !r && is_number(n) {
                let k2 = choose|k2: int|
                    0 < k2 < n.len() && is_mantissa(n.take(k2)) && is_exponent(n.skip(k2));
                assert(n.skip(k2)[0] == s@[from + k2]);
            }
        }
        return r;
    }
    let ghost kk = k - from;
    assert(n.take(kk as int) =~= s@.subrange(from as int, k as int));
    assert(n.skip(kk as int) =~= s@.subrange(k as int, to as int));
    let r = k > from && mantissa_between(s, from, k) && exponent_between(s, k, to);
    proof {
        if r {
            assert(0 < kk < n.len());
        }
        if !r && is_number(n) {
            assert(n[kk as int] == s@[k as int]);
            if is_mantissa(n) {
                lemma_mantissa_has_no_e(n);
            } else {
                let k2 = choose|k2: int|
                    0 < k2 < n.len() && is_mantissa(n.take(k2)) && is_exponent(n.skip(k2));
                lemma_mantissa_has_no_e(n.take(k2));
                assert(n.skip(k2)[0] == s@[from + k2]);
                if k2 < kk {
                } else if k2 > kk {
                    assert(n.take(k2)[kk as int] == n[kk as int]);
                }
            }
        }
    }
    r
}

proof fn lemma_mantissa_has_no_e(m: Seq<char>)
    requires
        is_mantissa(m),
    ensures
        forall|j: int| 0 <= j < m.len() ==> lower(#[trigger] m[j]) != 'e',
{
    if !(m.len() > 0 && is_digits(m)) {
        let p = choose|p: int|
            0 <= p < m.len() && m.len() > 1 && m[p] == '.' && is_digits(m.take(p)) && is_digits(
                m.skip(p + 1),
            );
        assert forall|j: int| 0 <= j < m.len() implies lower(#[trigger] m[j]) != 'e' by {
            if j < p {
                assert(m.take(p)[j] == m[j]);
            } else if j > p {
                assert(m.skip(p + 1)[j - p - 1] == m[j]);
            }
        }
    }
}

/// Whether `word` writes a decimal (floating-point) number.
pub fn is_decimal(word: &str) -> (r: bool)
    ensures
        r == is_decimal_literal(word@),
{
    let s = chars_of(word);
    let from: usize = if s.len() > 0 && (s[0] == '+' || s[0] == '-') {
        1
    } else {
        0
    };
    let ghost body = s@.subrange(from as int, s@.len() as int);
    assert(body =~= if s@.len() > 0 && is_sign(s@[0]) {
        s@.skip(1)
    } else {
        s@
    });
    let inf = vec!['i', 'n', 'f'];
    let infinity = vec!['i', 'n', 'f', 'i', 'n', 'i', 't', 'y'];
    let nan = vec!['n', 'a', 'n'];
    assert(inf@ =~= seq!['i', 'n', 'f']);
    assert(infinity@ =~= seq!['i', 'n', 'f', 'i', 'n', 'i', 't', 'y']);
    assert(nan@ =~= seq!['n', 'a', 'n']);
    number_between(&s, from, s.len()) || spells_between(&s, from, s.len(), &inf) || spells_between(
        &s,
        from,
        s.len(),
        &infinity,
    ) || spells_between(&s, from, s.len(), &nan)
}

} // verus!

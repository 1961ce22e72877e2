use vstd::prelude::*;
use vstd::std_specs::iter::IteratorSpec;

verus! {

// ---------------------------------------------------------------------------
// Characters of a string, and a string from characters
// ---------------------------------------------------------------------------

/// Collects the characters of a string slice, in order.
pub fn str_to_chars(s: &str) -> (r: Vec<char>)
    ensures
        r@ == s@,
{
    let mut it = s.chars();
    let mut out: Vec<char> = Vec::new();
    loop
        invariant
            out@ + it.remaining() == s@,
            out@.len() <= s@.len(),
        ensures
            out@ == s@,
        decreases s@.len() - out@.len(),
    {
        match it.next() {
            Some(c) => out.push(c),
            None => {
                proof {
                    assert(out@ =~= s@);
                }
                break;
            },
        }
    }
    out
}

/// Relies on `String`'s `FromIterator<char>`: collecting characters yields the
/// string made of exactly those characters, in order.
#[verifier::external_body]
pub fn chars_to_string(v: &Vec<char>) -> (r: String)
    ensures
        r@ == v@,
{
    v.iter().collect()
}

// ---------------------------------------------------------------------------
// Decimal digits
// ---------------------------------------------------------------------------

/// Whether `c` is one of the characters '0' through '9'.
pub open spec fn is_ascii_digit(c: char) -> bool {
    48 <= c as int <= 57
}

/// The numeric value of a decimal digit character.
pub open spec fn digit_val(c: char) -> nat {
    (c as int - 48) as nat
}

/// The character for a decimal digit value below ten.
pub open spec fn digit_char(d: nat) -> char {
    if d == 0 { '0' }
    else if d == 1 { '1' }
    else if d == 2 { '2' }
    else if d == 3 { '3' }
    else if d == 4 { '4' }
    else if d == 5 { '5' }
    else if d == 6 { '6' }
    else if d == 7 { '7' }
    else if d == 8 { '8' }
    else { '9' }
}

fn digit_char_exec(d: u32) -> (c: char)
    requires
        d < 10,
    ensures
        c == digit_char(d as nat),
{
    if d == 0 { '0' }
    else if d == 1 { '1' }
    else if d == 2 { '2' }
    else if d == 3 { '3' }
    else if d == 4 { '4' }
    else if d == 5 { '5' }
    else if d == 6 { '6' }
    else if d == 7 { '7' }
    else if d == 8 { '8' }
    else { '9' }
}

fn is_ascii_digit_exec(c: char) -> (r: bool)
    ensures
        r == is_ascii_digit(c),
{
    let u = c as u32;
    48 <= u && u <= 57
}

// ---------------------------------------------------------------------------
// Decimal text of an unsigned integer
// ---------------------------------------------------------------------------

/// The decimal text of `n`: most significant digit first, no leading zeros
/// (a single '0' for zero).
pub open spec fn dec_seq(n: nat) -> Seq<char>
    decreases n,
{
    if n < 10 {
        seq![digit_char(n)]
    } else {
        dec_seq(n / 10) + seq![digit_char(n % 10)]
    }
}

pub fn push_dec_digits(n: u32, out: &mut Vec<char>)
    ensures
        final(out)@ == old(out)@ + dec_seq(n as nat),
    decreases n,
{
    if n >= 10 {
        push_dec_digits(n / 10, out);
    }
    out.push(digit_char_exec(n % 10));
    proof {
        assert(out@ =~= old(out)@ + dec_seq(n as nat));
    }
}

/// The decimal text of `n`, as a string.
pub fn u32_to_string(n: u32) -> (r: String)
    ensures
        r@ == dec_seq(n as nat),
{
    let mut v: Vec<char> = Vec::new();
    push_dec_digits(n, &mut v);
    proof {
        assert(v@ =~= dec_seq(n as nat));
    }
    chars_to_string(&v)
}

// ---------------------------------------------------------------------------
// Reading an unsigned integer from decimal text
// ---------------------------------------------------------------------------

/// The value of a sequence of decimal digit characters, read most significant
/// digit first; the empty sequence reads as zero.
pub open spec fn digits_value(s: Seq<char>) -> nat
    decreases s.len(),
{
    if s.len() == 0 {
        0
    } else {
        digits_value(s.drop_last()) * 10 + digit_val(s.last())
    }
}

/// Whether every character of `s` is a decimal digit.
pub open spec fn all_digits(s: Seq<char>) -> bool {
    forall|i: int| 0 <= i < s.len() ==> is_ascii_digit(s[i])
}

/// The digit part of an unsigned decimal text: everything after one optional
/// leading '+'.
pub open spec fn u32_digits(s: Seq<char>) -> Seq<char> {
    if s.len() > 0 && s[0] == '+' {
        s.drop_first()
    } else {
        s
    }
}

/// Whether `s` is text that reads as a `u32`: an optional '+', then at least
/// one decimal digit, with a value that fits.
pub open spec fn is_u32_text(s: Seq<char>) -> bool {
    &&& u32_digits(s).len() > 0
    &&& all_digits(u32_digits(s))
    &&& digits_value(u32_digits(s)) <= u32::MAX
}

/// The value that `s` reads as, when `is_u32_text(s)` holds.
pub open spec fn u32_text_value(s: Seq<char>) -> nat {
    digits_value(u32_digits(s))
}

/// A longer run of digits never reads as a smaller value.
proof fn lemma_digits_value_prefix(s: Seq<char>, k: int)
    requires
        0 <= k <= s.len(),
    ensures
        digits_value(s.take(k)) <= digits_value(s),
    decreases s.len(),
{
    if k == s.len() {
        assert(s.take(k) =~= s);
    } else {
        assert(s.drop_last().take(k) =~= s.take(k));
        lemma_digits_value_prefix(s.drop_last(), k);
    }
}

/// Reads `v` as a `u32` from decimal text, exactly where such a reading
/// exists.
pub fn parse_u32_chars(v: &Vec<char>) -> (r: Option<u32>)
    ensures
        is_u32_text(v@) ==> r == Some(u32_text_value(v@) as u32),
        !is_u32_text(v@) ==> r is None,
{
    let start: usize = if v.len() > 0 && v[0] == '+' { 1 } else { 0 };
    let ghost digits = u32_digits(v@);
    proof {
        assert(digits =~= v@.skip(start as int));
    }
    if v.len() == start {
        return None;
    }
    let mut acc: u64 = 0;
    let mut i: usize = start;
    while i < v.len()
        invariant
            start <= i <= v.len(),
            digits == u32_digits(v@),
            digits == v@.skip(start as int),
            all_digits(v@.subrange(start as int, i as int)),
            acc == digits_value(v@.subrange(start as int, i as int)),
            acc <= u32::MAX,
        decreases v.len() - i,
    {
        let c = v[i];
        if !is_ascii_digit_exec(c) {
            proof {
                assert(digits[i - start] == c);
                assert(!all_digits(digits));
                assert(!is_u32_text(v@));
            }
            return None;
        }
        let d = (c as u32) - 48;
        acc = acc * 10 + (d as u64);
        i = i + 1;
        proof {
            assert(v@.subrange(start as int, i as int).drop_last() =~= v@.subrange(
                start as int,
                i - 1,
            ));
            assert(v@.subrange(start as int, i as int).last() == c);
        }
        if acc > u32::MAX as u64 {
            proof {
                assert(digits.take(i - start) =~= v@.subrange(start as int, i as int));
                lemma_digits_value_prefix(digits, i - start);
                assert(digits_value(digits) > u32::MAX);
                assert(!is_u32_text(v@));
            }
            return None;
        }
    }
    proof {
        assert(v@.subrange(start as int, v@.len() as int) =~= digits);
    }
    Some(acc as u32)
}

// ---------------------------------------------------------------------------
// Decimal floating-point text
// ---------------------------------------------------------------------------

/// The states of the recognizer for floating-point text. The grammar is the
/// one `f64` text follows: an optional sign, then either a case-insensitive
/// special word ("inf", "infinity", "nan") or digits with an optional point
/// and an optional exponent.
#[derive(Clone, Copy, Debug, PartialEq, Eq, Structural)]
pub enum FloatState {
    Start,
    Sign,
    IntPart,
    LeadDot,
    DotAfterInt,
    Frac,
    Exp,
    ExpSign,
    ExpDigits,
    WordI1,
    WordI2,
    WordInf,
    WordI4,
    WordI5,
    WordI6,
    WordI7,
    WordInfinity,
    WordN1,
    WordN2,
    WordNan,
    Reject,
}

/// One step of the floating-point text recognizer.
pub open spec fn float_step(st: FloatState, c: char) -> FloatState {
    match st {
        FloatState::Start | FloatState::Sign => {
            if st == FloatState::Start && (c == '+' || c == '-') {
                FloatState::Sign
            } else if is_ascii_digit(c) {
                FloatState::IntPart
            } else if c == '.' {
                FloatState::LeadDot
            } else if c == 'i' || c == 'I' {
                FloatState::WordI1
            } else if c == 'n' || c == 'N' {
                FloatState::WordN1
            } else {
                FloatState::Reject
            }
        },
        FloatState::IntPart => {
            if is_ascii_digit(c) {
                FloatState::IntPart
            } else if c == '.' {
                FloatState::DotAfterInt
            } else if c == 'e' || c == 'E' {
                FloatState::Exp
            } else {
                FloatState::Reject
            }
        },
        FloatState::LeadDot => {
            if is_ascii_digit(c) {
                FloatState::Frac
            } else {
                FloatState::Reject
            }
        },
        FloatState::DotAfterInt | FloatState::Frac => {
            if is_ascii_digit(c) {
                FloatState::Frac
            } else if c == 'e' || c == 'E' {
                FloatState::Exp
            } else {
                FloatState::Reject
            }
        },
        FloatState::Exp => {
            if is_ascii_digit(c) {
                FloatState::ExpDigits
            } else if c == '+' || c == '-' {
                FloatState::ExpSign
            } else {
                FloatState::Reject
            }
        },
        FloatState::ExpSign | FloatState::ExpDigits => {
            if is_ascii_digit(c) {
                FloatState::ExpDigits
            } else {
                FloatState::Reject
            }
        },
        FloatState::WordI1 => {
            if c == 'n' || c == 'N' {
                FloatState::WordI2
            } else {
                FloatState::Reject
            }
        },
        FloatState::WordI2 => {
            if c == 'f' || c == 'F' {
                FloatState::WordInf
            } else {
                FloatState::Reject
            }
        },
        FloatState::WordInf => {
            if c == 'i' || c == 'I' {
                FloatState::WordI4
            } else {
                FloatState::Reject
            }
        },
        FloatState::WordI4 => {
            if c == 'n' || c == 'N' {
                FloatState::WordI5
            } else {
                FloatState::Reject
            }
        },
        FloatState::WordI5 => {
            if c == 'i' || c == 'I' {
                FloatState::WordI6
            } else {
                FloatState::Reject
            }
        },
        FloatState::WordI6 => {
            if c == 't' || c == 'T' {
                FloatState::WordI7
            } else {
                FloatState::Reject
            }
        },
        FloatState::WordI7 => {
            if c == 'y' || c == 'Y' {
                FloatState::WordInfinity
            } else {
                FloatState::Reject
            }
        },
        FloatState::WordN1 => {
            if c == 'a' || c == 'A' {
                FloatState::WordN2
            } else {
                FloatState::Reject
            }
        },
        FloatState::WordN2 => {
            if c == 'n' || c == 'N' {
                FloatState::WordNan
            } else {
                FloatState::Reject
            }
        },
        FloatState::WordInfinity | FloatState::WordNan | FloatState::Reject => FloatState::Reject,
    }
}

/// The recognizer run over all of `s`, starting from `st`.
pub open spec fn float_run(st: FloatState, s: Seq<char>) -> FloatState
    decreases s.len(),
{
    if s.len() == 0 {
        st
    } else {
        float_step(float_run(st, s.drop_last()), s.last())
    }
}

/// The states in which the recognizer has seen a complete number.
pub open spec fn float_accepting(st: FloatState) -> bool {
    ||| st == FloatState::IntPart
    ||| st == FloatState::DotAfterInt
    ||| st == FloatState::Frac
    ||| st == FloatState::ExpDigits
    ||| st == FloatState::WordInf
    ||| st == FloatState::WordInfinity
    ||| st == FloatState::WordNan
}

/// Whether `s` is text that reads as a decimal floating-point number.
pub open spec fn is_f64_text(s: Seq<char>) -> bool {
    float_accepting(float_run(FloatState::Start, s))
}

fn float_step_exec(st: FloatState, c: char) -> (r: FloatState)
    ensures
        r == float_step(st, c),
{
    match st {
        FloatState::Start | FloatState::Sign => {
            if st == FloatState::Start && (c == '+' || c == '-') {
                FloatState::Sign
            } else if is_ascii_digit_exec(c) {
                FloatState::IntPart
            } else if c == '.' {
                FloatState::LeadDot
            } else if c == 'i' || c == 'I' {
                FloatState::WordI1
            } else if c == 'n' || c == 'N' {
                FloatState::WordN1
            } else {
                FloatState::Reject
            }
        },
        FloatState::IntPart => {
            if is_ascii_digit_exec(c) {
                FloatState::IntPart
            } else if c == '.' {
                FloatState::DotAfterInt
            } else if c == 'e' || c == 'E' {
                FloatState::Exp
            } else {
                FloatState::Reject
            }
        },
        FloatState::LeadDot => {
            if is_ascii_digit_exec(c) {
                FloatState::Frac
            } else {
                FloatState::Reject
            }
        },
        FloatState::DotAfterInt | FloatState::Frac => {
            if is_ascii_digit_exec(c) {
                FloatState::Frac
            } else if c == 'e' || c == 'E' {
                FloatState::Exp
            } else {
                FloatState::Reject
            }
        },
        FloatState::Exp => {
            if is_ascii_digit_exec(c) {
                FloatState::ExpDigits
            } else if c == '+' || c == '-' {
                FloatState::ExpSign
            } else {
                FloatState::Reject
            }
        },
        FloatState::ExpSign | FloatState::ExpDigits => {
            if is_ascii_digit_exec(c) {
                FloatState::ExpDigits
            } else {
                FloatState::Reject
            }
        },
        FloatState::WordI1 => {
            if c == 'n' || c == 'N' {
                FloatState::WordI2
            } else {
                FloatState::Reject
            }
        },
        FloatState::WordI2 => {
            if c == 'f' || c == 'F' {
                FloatState::WordInf
            } else {
                FloatState::Reject
            }
        },
        FloatState::WordInf => {
            if c == 'i' || c == 'I' {
                FloatState::WordI4
            } else {
                FloatState::Reject
            }
        },
        FloatState::WordI4 => {
            if c == 'n' || c == 'N' {
                FloatState::WordI5
            } else {
                FloatState::Reject
            }
        },
        FloatState::WordI5 => {
            if c == 'i' || c == 'I' {
                FloatState::WordI6
            } else {
                FloatState::Reject
            }
        },
        FloatState::WordI6 => {
            if c == 't' || c == 'T' {
                FloatState::WordI7
            } else {
                FloatState::Reject
            }
        },
        FloatState::WordI7 => {
            if c == 'y' || c == 'Y' {
                FloatState::WordInfinity
            } else {
                FloatState::Reject
            }
        },
        FloatState::WordN1 => {
            if c == 'a' || c == 'A' {
                FloatState::WordN2
            } else {
                FloatState::Reject
            }
        },
        FloatState::WordN2 => {
            if c == 'n' || c == 'N' {
                FloatState::WordNan
            } else {
                FloatState::Reject
            }
        },
        FloatState::WordInfinity | FloatState::WordNan | FloatState::Reject => FloatState::Reject,
    }
}

/// Decides whether `v` is text that reads as a decimal floating-point number.
pub fn check_f64_chars(v: &Vec<char>) -> (r: bool)
    ensures
        r == is_f64_text(v@),
{
    let mut st = FloatState::Start;
    let mut i: usize = 0;
    while i < v.len()
        invariant
            0 <= i <= v.len(),
            st == float_run(FloatState::Start, v@.take(i as int)),
        decreases v.len() - i,
    {
        st = float_step_exec(st, v[i]);
        i = i + 1;
        proof {
            assert(v@.take(i as int).drop_last() =~= v@.take(i - 1));
            assert(v@.take(i as int).last() == v@[i - 1]);
        }
    }
    proof {
        assert(v@.take(v@.len() as int) =~= v@);
    }
    matches!(st, FloatState::IntPart
        | FloatState::DotAfterInt
        | FloatState::Frac
        | FloatState::ExpDigits
        | FloatState::WordInf
        | FloatState::WordInfinity
        | FloatState::WordNan)
}

// ---------------------------------------------------------------------------
// Searching characters
// ---------------------------------------------------------------------------

/// A copy of the characters of `v` between positions `a` and `b`.
pub fn subvec_chars(v: &Vec<char>, a: usize, b: usize) -> (r: Vec<char>)
    requires
        a <= b <= v@.len(),
    ensures
        r@ == v@.subrange(a as int, b as int),
{
    let mut out: Vec<char> = Vec::new();
    let mut i: usize = a;
    while i < b
        invariant
            a <= i <= b <= v@.len(),
            out@ == v@.subrange(a as int, i as int),
        decreases b - i,
    {
        out.push(v[i]);
        i = i + 1;
        proof {
            assert(v@.subrange(a as int, i as int) =~= v@.subrange(a as int, i - 1).push(
                v@[i - 1],
            ));
        }
    }
    proof {
        assert(out@ =~= v@.subrange(a as int, b as int));
    }
    out
}

/// Appends all characters of `add` to `out`.
pub fn extend_chars(out: &mut Vec<char>, add: &Vec<char>)
    ensures
        final(out)@ == old(out)@ + add@,
{
    let mut i: usize = 0;
    while i < add.len()
        invariant
            0 <= i <= add@.len(),
            out@ == old(out)@ + add@.take(i as int),
        decreases add@.len() - i,
    {
        out.push(add[i]);
        i = i + 1;
        proof {
            assert(old(out)@ + add@.take(i as int) =~= (old(out)@ + add@.take(i - 1)).push(
                add@[i - 1],
            ));
        }
    }
    proof {
        assert(out@ =~= old(out)@ + add@);
    }
}

/// The position of the first occurrence of `c` in `s`, or -1 when there is
/// none.
pub open spec fn first_index_of(s: Seq<char>, c: char) -> int
    decreases s.len(),
{
    if s.len() == 0 {
        -1
    } else if s[0] == c {
        0
    } else {
        let r = first_index_of(s.drop_first(), c);
        if r == -1 {
            -1
        } else {
            r + 1
        }
    }
}

/// The first occurrence is characterized by what stands before it.
proof fn lemma_first_index_found(s: Seq<char>, c: char, i: int)
    requires
        0 <= i < s.len(),
        s[i] == c,
        forall|j: int| 0 <= j < i ==> s[j] != c,
    ensures
        first_index_of(s, c) == i,
    decreases s.len(),
{
    if s[0] != c {
        lemma_first_index_found(s.drop_first(), c, i - 1);
    }
}

proof fn lemma_first_index_absent(s: Seq<char>, c: char)
    requires
        forall|j: int| 0 <= j < s.len() ==> s[j] != c,
    ensures
        first_index_of(s, c) == -1,
    decreases s.len(),
{
    if s.len() > 0 {
        lemma_first_index_absent(s.drop_first(), c);
    }
}

/// Finds the first occurrence of `c` in `v`.
pub fn find_char(v: &Vec<char>, c: char) -> (r: Option<usize>)
    ensures
        r matches Some(i) ==> i < v@.len() && first_index_of(v@, c) == i,
        r is None ==> first_index_of(v@, c) == -1,
{
    let mut i: usize = 0;
    while i < v.len()
        invariant
            0 <= i <= v.len(),
            forall|j: int| 0 <= j < i ==> v@[j] != c,
        decreases v.len() - i,
    {
        if v[i] == c {
            proof {
                lemma_first_index_found(v@, c, i as int);
            }
            return Some(i);
        }
        i = i + 1;
    }
    proof {
        lemma_first_index_absent(v@, c);
    }
    None
}

} // verus!

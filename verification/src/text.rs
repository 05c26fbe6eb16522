//! Byte classes and text helpers for the display payload grammars.
//!
//! Payload text is plain ASCII: decimal numbers (digits, one dot, an optional
//! leading minus), whitespace runs, and a handful of control bytes.  The spec
//! functions here give the grammar modules a shared vocabulary: where a digit
//! run ends, what number it denotes, and what character sequence a byte span
//! or a decimal rendering stands for.

use vstd::prelude::*;

verus! {

/// ASCII decimal digit `'0'..='9'`.
pub open spec fn is_digit(b: u8) -> bool {
    0x30 <= b && b <= 0x39
}

/// ASCII whitespace: space, tab, line feed, vertical tab, form feed, carriage return.
pub open spec fn is_ws(b: u8) -> bool {
    b == 0x20 || (0x09 <= b && b <= 0x0d)
}

/// A byte that may appear in a captured number: digit, `'.'` or `'-'`.
pub open spec fn is_value_byte(b: u8) -> bool {
    is_digit(b) || b == 0x2e || b == 0x2d
}

/// First index at or after `i` that is past the end or holds a non-digit.
pub open spec fn digits_end(p: Seq<u8>, i: int) -> int
    decreases p.len() - i,
{
    if i < 0 || i >= p.len() {
        i
    } else if is_digit(p[i]) {
        digits_end(p, i + 1)
    } else {
        i
    }
}

/// First index at or after `i` that is past the end or holds a non-whitespace byte.
pub open spec fn ws_end(p: Seq<u8>, i: int) -> int
    decreases p.len() - i,
{
    if i < 0 || i >= p.len() {
        i
    } else if is_ws(p[i]) {
        ws_end(p, i + 1)
    } else {
        i
    }
}

/// The unsigned number denoted by the digit run `p[a..b)`, most significant first.
pub open spec fn digits_val(p: Seq<u8>, a: int, b: int) -> nat
    decreases b - a,
{
    if b <= a {
        0
    } else {
        digits_val(p, a, b - 1) * 10 + ((p[b - 1] - 0x30) as nat)
    }
}

/// The character for the decimal digit `d`.
pub open spec fn digit_char(d: int) -> char {
    if d == 0 {
        '0'
    } else if d == 1 {
        '1'
    } else if d == 2 {
        '2'
    } else if d == 3 {
        '3'
    } else if d == 4 {
        '4'
    } else if d == 5 {
        '5'
    } else if d == 6 {
        '6'
    } else if d == 7 {
        '7'
    } else if d == 8 {
        '8'
    } else {
        '9'
    }
}

/// The decimal rendering of `n`, without leading zeros (`0` renders as `"0"`).
pub open spec fn dec_str(n: nat) -> Seq<char>
    decreases n,
{
    if n < 10 {
        seq![digit_char(n as int)]
    } else {
        dec_str(n / 10).push(digit_char((n % 10) as int))
    }
}

/// The character a payload number byte stands for.
pub open spec fn value_char(b: u8) -> char {
    if b == 0x2d {
        '-'
    } else if b == 0x2e {
        '.'
    } else {
        digit_char(b - 0x30)
    }
}

/// The character sequence a span of payload number bytes stands for.
pub open spec fn value_str(bs: Seq<u8>) -> Seq<char> {
    Seq::new(bs.len(), |i: int| value_char(bs[i]))
}

/// Every index in `[i, digits_end(p, i))` holds a digit, and the run is maximal.
pub proof fn lemma_digits_end(p: Seq<u8>, i: int)
    requires
        0 <= i <= p.len(),
    ensures
        i <= digits_end(p, i) <= p.len(),
        forall|j: int| i <= j < digits_end(p, i) ==> is_digit(#[trigger] p[j]),
        digits_end(p, i) < p.len() ==> !is_digit(p[digits_end(p, i)]),
    decreases p.len() - i,
{
    if i < p.len() && is_digit(p[i]) {
        lemma_digits_end(p, i + 1);
    }
}

/// Every index in `[i, ws_end(p, i))` holds whitespace, and the run is maximal.
pub proof fn lemma_ws_end(p: Seq<u8>, i: int)
    requires
        0 <= i <= p.len(),
    ensures
        i <= ws_end(p, i) <= p.len(),
        forall|j: int| i <= j < ws_end(p, i) ==> is_ws(#[trigger] p[j]),
        ws_end(p, i) < p.len() ==> !is_ws(p[ws_end(p, i)]),
    decreases p.len() - i,
{
    if i < p.len() && is_ws(p[i]) {
        lemma_ws_end(p, i + 1);
    }
}

/// Extending a digit run never shrinks its value.
pub proof fn lemma_digits_val_grows(p: Seq<u8>, a: int, b: int, c: int)
    requires
        a <= b <= c,
    ensures
        digits_val(p, a, b) <= digits_val(p, a, c),
    decreases c - b,
{
    if b < c {
        lemma_digits_val_grows(p, a, b, c - 1);
        assert(digits_val(p, a, c) == digits_val(p, a, c - 1) * 10 + ((p[c - 1] - 0x30) as nat));
        assert(digits_val(p, a, c - 1) <= digits_val(p, a, c - 1) * 10) by (nonlinear_arith);
    }
}

/// Exec mirror of [`digits_end`]: scan the digit run starting at `i`.
pub fn scan_digits(p: &Vec<u8>, i: usize) -> (r: usize)
    requires
        i <= p@.len(),
    ensures
        r == digits_end(p@, i as int),
        i <= r <= p@.len(),
{
    let ghost whole = p@;
    let mut j = i;
    while j < p.len() && p[j] >= 0x30 && p[j] <= 0x39
        invariant
            i <= j <= p@.len(),
            p@ == whole,
            digits_end(p@, i as int) == digits_end(p@, j as int),
        decreases p@.len() - j,
    {
        j = j + 1;
    }
    j
}

/// Exec mirror of [`ws_end`]: scan the whitespace run starting at `i`.
pub fn scan_ws(p: &Vec<u8>, i: usize) -> (r: usize)
    requires
        i <= p@.len(),
    ensures
        r == ws_end(p@, i as int),
        i <= r <= p@.len(),
{
    let ghost whole = p@;
    let mut j = i;
    while j < p.len() && (p[j] == 0x20 || (p[j] >= 0x09 && p[j] <= 0x0d))
        invariant
            i <= j <= p@.len(),
            p@ == whole,
            ws_end(p@, i as int) == ws_end(p@, j as int),
        decreases p@.len() - j,
    {
        j = j + 1;
    }
    j
}

/// The one-character string for a payload number byte.
fn value_char_str(b: u8) -> (s: &'static str)
    requires
        is_value_byte(b),
    ensures
        s@ == seq![value_char(b)],
{
    let s: &'static str = match b {
        0x2d => "-",
        0x2e => ".",
        0x30 => "0",
        0x31 => "1",
        0x32 => "2",
        0x33 => "3",
        0x34 => "4",
        0x35 => "5",
        0x36 => "6",
        0x37 => "7",
        0x38 => "8",
        _ => "9",
    };
    proof {
        reveal_strlit("-");
        reveal_strlit(".");
        reveal_strlit("0");
        reveal_strlit("1");
        reveal_strlit("2");
        reveal_strlit("3");
        reveal_strlit("4");
        reveal_strlit("5");
        reveal_strlit("6");
        reveal_strlit("7");
        reveal_strlit("8");
        reveal_strlit("9");
        assert(s@ =~= seq![value_char(b)]);
    }
    s
}

/// Copy the number bytes `p[a..b)` into a fresh string, character for character.
pub fn span_string(p: &Vec<u8>, a: usize, b: usize) -> (s: String)
    requires
        a <= b <= p@.len(),
        forall|j: int| a <= j < b ==> is_value_byte(#[trigger] p@[j]),
    ensures
        s@ == value_str(p@.subrange(a as int, b as int)),
{
    let mut s = String::new();
    let mut i = a;
    while i < b
        invariant
            a <= i <= b <= p@.len(),
            forall|j: int| a <= j < b ==> is_value_byte(#[trigger] p@[j]),
            s@ == value_str(p@.subrange(a as int, i as int)),
        decreases b - i,
    {
        let piece = value_char_str(p[i]);
        s.append(piece);
        i = i + 1;
        proof {
            assert(value_str(p@.subrange(a as int, i as int)) =~= value_str(
                p@.subrange(a as int, i - 1),
            ) + seq![value_char(p@[i - 1])]);
        }
    }
    s
}

/// The one-character string for a decimal digit.
fn digit_str(d: u32) -> (s: &'static str)
    requires
        d < 10,
    ensures
        s@ == seq![digit_char(d as int)],
{
    let s: &'static str = match d {
        0 => "0",
        1 => "1",
        2 => "2",
        3 => "3",
        4 => "4",
        5 => "5",
        6 => "6",
        7 => "7",
        8 => "8",
        _ => "9",
    };
    proof {
        reveal_strlit("0");
        reveal_strlit("1");
        reveal_strlit("2");
        reveal_strlit("3");
        reveal_strlit("4");
        reveal_strlit("5");
        reveal_strlit("6");
        reveal_strlit("7");
        reveal_strlit("8");
        reveal_strlit("9");
        assert(s@ =~= seq![digit_char(d as int)]);
    }
    s
}

/// Render `n` in decimal, matching [`dec_str`].
pub fn u32_to_string(n: u32) -> (s: String)
    ensures
        s@ == dec_str(n as nat),
    decreases n,
{
    if n < 10 {
        String::from_str(digit_str(n))
    } else {
        let mut s = u32_to_string(n / 10);
        s.append(digit_str(n % 10));
        proof {
            assert(s@ =~= dec_str((n / 10) as nat).push(digit_char((n % 10) as int)));
        }
        s
    }
}

/// Read the digit run `p[a..b)` as a `u32`; `None` when the value overflows.
pub fn parse_u32_digits(p: &Vec<u8>, a: usize, b: usize) -> (r: Option<u32>)
    requires
        a <= b <= p@.len(),
        forall|j: int| a <= j < b ==> is_digit(#[trigger] p@[j]),
    ensures
        match r {
            Some(v) => v == digits_val(p@, a as int, b as int) && digits_val(
                p@,
                a as int,
                b as int,
            ) <= u32::MAX,
            None => digits_val(p@, a as int, b as int) > u32::MAX,
        },
{
    let mut acc: u32 = 0;
    let mut i = a;
    while i < b
        invariant
            a <= i <= b <= p@.len(),
            forall|j: int| a <= j < b ==> is_digit(#[trigger] p@[j]),
            acc == digits_val(p@, a as int, i as int),
        decreases b - i,
    {
        let d: u32 = (p[i] - 0x30) as u32;
        if acc > (u32::MAX - d) / 10 {
            proof {
                assert(acc * 10 + d > u32::MAX) by (nonlinear_arith)
                    requires
                        acc > (u32::MAX - d) / 10,
                        d < 10,
                ;
                lemma_digits_val_grows(p@, a as int, i + 1, b as int);
            }
            return None;
        }
        proof {
            assert(acc * 10 + d <= u32::MAX) by (nonlinear_arith)
                requires
                    acc <= (u32::MAX - d) / 10,
                    d < 10,
            ;
        }
        acc = acc * 10 + d;
        i = i + 1;
    }
    Some(acc)
}

} // verus!

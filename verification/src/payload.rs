//! The display payload grammars.
//!
//! Row 2 carries the power/flow line:
//! `<power>kW<ws+><flow-byte><ws+><load>kW<gap+><tail1><tail2>...`
//! where `power` is an unsigned decimal with exactly one fractional digit,
//! the flow byte is one control byte meaning charging or discharging,
//! `load` is the same shape with an optional leading minus, the gap is one
//! or more arbitrary bytes, and the two consecutive tail bytes are each
//! either the letter `o` (inactive) or one control byte (active).
//!
//! Row 4 carries the battery-charge line: the leftmost occurrence of
//! `<ws+><digits+>%<ws+><2 digits>:<2 digits>:<2 digits>` anywhere in the
//! payload; the digit run before `%` is the charge percentage.
//!
//! The spec functions define the one match each grammar admits (digit and
//! whitespace runs are maximal, the tail pair and the row-4 start are the
//! leftmost possible); the exec functions mirror them step for step.

use vstd::prelude::*;

use crate::text::{digits_end, is_digit, is_ws, is_value_byte, scan_digits, scan_ws, ws_end};

verus! {

/// `'.'`
pub const DOT: u8 = 0x2e;

/// `'-'`
pub const MINUS: u8 = 0x2d;

/// `'k'`
pub const LOWER_K: u8 = 0x6b;

/// `'W'`
pub const UPPER_W: u8 = 0x57;

/// `'%'`
pub const PERCENT: u8 = 0x25;

/// `':'`
pub const COLON: u8 = 0x3a;

/// Flow byte meaning the battery is charging.
pub const FLOW_CHARGE: u8 = 0x01;

/// Flow byte meaning the battery is discharging.
pub const FLOW_DISCHARGE: u8 = 0x02;

/// Tail byte meaning the flag is set.
pub const TAIL_ACTIVE: u8 = 0x06;

/// Tail byte meaning the flag is clear: the letter `o`.
pub const TAIL_INACTIVE: u8 = 0x6f;

/// A byte that may stand in one of the two tail positions.
pub open spec fn is_tail_byte(b: u8) -> bool {
    b == TAIL_INACTIVE || b == TAIL_ACTIVE
}

/// Least `j >= i` where two consecutive tail bytes lie.
pub open spec fn tail_pos(p: Seq<u8>, i: int) -> Option<int>
    decreases p.len() - i,
{
    if i < 0 || i + 1 >= p.len() {
        None
    } else if is_tail_byte(p[i]) && is_tail_byte(p[i + 1]) {
        Some(i)
    } else {
        tail_pos(p, i + 1)
    }
}

/// The captured pieces of a row-2 payload.
pub struct Row2Parts {
    /// Text of the generator output power, digits and one dot.
    pub power: Seq<u8>,
    /// The flow byte, [`FLOW_CHARGE`] or [`FLOW_DISCHARGE`].
    pub flow: u8,
    /// Text of the load, optional minus, digits and one dot.
    pub load: Seq<u8>,
    /// First tail byte: battery fan flag.
    pub tail1: u8,
    /// Second tail byte: generator-requested flag.
    pub tail2: u8,
}

/// The one way a row-2 payload matches its grammar, or `None`.
pub open spec fn row2_parse(p: Seq<u8>) -> Option<Row2Parts> {
    let d1 = digits_end(p, 0);
    if d1 == 0 || d1 + 1 >= p.len() || p[d1] != DOT || !is_digit(p[d1 + 1]) {
        None
    } else {
        let pe = d1 + 2;
        if pe + 2 > p.len() || p[pe] != LOWER_K || p[pe + 1] != UPPER_W {
            None
        } else {
            let w1 = ws_end(p, pe + 2);
            if w1 == pe + 2 || w1 >= p.len() || !(p[w1] == FLOW_CHARGE || p[w1]
                == FLOW_DISCHARGE) {
                None
            } else {
                let w2 = ws_end(p, w1 + 1);
                if w2 == w1 + 1 {
                    None
                } else {
                    let ls = w2;
                    let ds = if ls < p.len() && p[ls] == MINUS {
                        ls + 1
                    } else {
                        ls
                    };
                    let d2 = digits_end(p, ds);
                    if d2 == ds || d2 + 1 >= p.len() || p[d2] != DOT || !is_digit(p[d2 + 1]) {
                        None
                    } else {
                        let le = d2 + 2;
                        if le + 2 > p.len() || p[le] != LOWER_K || p[le + 1] != UPPER_W {
                            None
                        } else {
                            match tail_pos(p, le + 3) {
                                None => None,
                                Some(j) => Some(
                                    Row2Parts {
                                        power: p.subrange(0, pe),
                                        flow: p[w1],
                                        load: p.subrange(ls, le),
                                        tail1: p[j],
                                        tail2: p[j + 1],
                                    },
                                ),
                            }
                        }
                    }
                }
            }
        }
    }
}

/// A `hh:mm:ss`-shaped time field lies at `c`.
pub open spec fn time_at(p: Seq<u8>, c: int) -> bool {
    &&& c + 8 <= p.len()
    &&& is_digit(p[c])
    &&& is_digit(p[c + 1])
    &&& p[c + 2] == COLON
    &&& is_digit(p[c + 3])
    &&& is_digit(p[c + 4])
    &&& p[c + 5] == COLON
    &&& is_digit(p[c + 6])
    &&& is_digit(p[c + 7])
}

/// The row-4 grammar anchored at `m`: on a match, the bounds of the
/// captured digit run.
pub open spec fn row4_at(p: Seq<u8>, m: int) -> Option<(int, int)> {
    if m < 0 || m >= p.len() || !is_ws(p[m]) {
        None
    } else {
        let a = ws_end(p, m);
        let b = digits_end(p, a);
        if b == a || b >= p.len() || p[b] != PERCENT {
            None
        } else {
            let c = ws_end(p, b + 1);
            if c == b + 1 || !time_at(p, c) {
                None
            } else {
                Some((a, b))
            }
        }
    }
}

/// The leftmost row-4 match at or after `m`.
pub open spec fn row4_find(p: Seq<u8>, m: int) -> Option<(int, int)>
    decreases p.len() - m,
{
    if m < 0 || m >= p.len() {
        None
    } else if row4_at(p, m) is Some {
        row4_at(p, m)
    } else {
        row4_find(p, m + 1)
    }
}

/// The one way a row-4 payload matches its grammar, or `None`.
pub open spec fn row4_parse(p: Seq<u8>) -> Option<(int, int)> {
    row4_find(p, 0)
}

/// Exec mirror of [`tail_pos`].
fn find_tail_pair(p: &Vec<u8>, i: usize) -> (r: Option<usize>)
    requires
        i <= p@.len(),
    ensures
        match r {
            Some(j) => Some(j as int) == tail_pos(p@, i as int) && i <= j && j + 1 < p@.len(),
            None => tail_pos(p@, i as int) is None,
        },
{
    let mut j = i;
    while p.len() - j >= 2
        invariant
            i <= j <= p@.len(),
            tail_pos(p@, i as int) == tail_pos(p@, j as int),
        decreases p@.len() - j,
    {
        if (p[j] == TAIL_INACTIVE || p[j] == TAIL_ACTIVE) && (p[j + 1] == TAIL_INACTIVE || p[j + 1]
            == TAIL_ACTIVE) {
            return Some(j);
        }
        j = j + 1;
    }
    None
}

/// The captured piece bounds of a matched row-2 payload.
pub struct Row2Match {
    /// End of the power text, which starts at offset 0.
    pub power_end: usize,
    /// The flow byte.
    pub flow: u8,
    /// Start of the load text.
    pub load_start: usize,
    /// End of the load text.
    pub load_end: usize,
    /// First tail byte.
    pub tail1: u8,
    /// Second tail byte.
    pub tail2: u8,
}

/// Match a payload against the row-2 grammar.
pub fn match_row2(p: &Vec<u8>) -> (r: Option<Row2Match>)
    ensures
        match r {
            Some(m) => {
                &&& row2_parse(p@) == Some(
                    Row2Parts {
                        power: p@.subrange(0, m.power_end as int),
                        flow: m.flow,
                        load: p@.subrange(m.load_start as int, m.load_end as int),
                        tail1: m.tail1,
                        tail2: m.tail2,
                    },
                )
                &&& 0 < m.power_end <= p@.len()
                &&& m.load_start <= m.load_end <= p@.len()
                &&& forall|j: int| 0 <= j < m.power_end ==> is_value_byte(#[trigger] p@[j])
                &&& forall|j: int|
                    m.load_start <= j < m.load_end ==> is_value_byte(#[trigger] p@[j])
            },
            None => row2_parse(p@) is None,
        },
{
    proof {
        crate::text::lemma_digits_end(p@, 0);
    }
    let d1 = scan_digits(p, 0);
    if d1 == 0 || p.len() - d1 < 2 || p[d1] != DOT || !(p[d1 + 1] >= 0x30 && p[d1 + 1] <= 0x39) {
        return None;
    }
    let pe = d1 + 2;
    if p.len() - pe < 2 || p[pe] != LOWER_K || p[pe + 1] != UPPER_W {
        return None;
    }
    let w1 = scan_ws(p, pe + 2);
    if w1 == pe + 2 || w1 >= p.len() || !(p[w1] == FLOW_CHARGE || p[w1] == FLOW_DISCHARGE) {
        return None;
    }
    let w2 = scan_ws(p, w1 + 1);
    if w2 == w1 + 1 {
        return None;
    }
    let ls = w2;
    let ds = if ls < p.len() && p[ls] == MINUS {
        ls + 1
    } else {
        ls
    };
    proof {
        crate::text::lemma_digits_end(p@, ds as int);
    }
    let d2 = scan_digits(p, ds);
    if d2 == ds || p.len() - d2 < 2 || p[d2] != DOT || !(p[d2 + 1] >= 0x30 && p[d2 + 1] <= 0x39) {
        return None;
    }
    let le = d2 + 2;
    if p.len() - le < 2 || p[le] != LOWER_K || p[le + 1] != UPPER_W {
        return None;
    }
    if p.len() - le < 3 {
        return None;
    }
    match find_tail_pair(p, le + 3) {
        None => None,
        Some(j) => Some(
            Row2Match {
                power_end: pe,
                flow: p[w1],
                load_start: ls,
                load_end: le,
                tail1: p[j],
                tail2: p[j + 1],
            },
        ),
    }
}

/// Exec mirror of [`row4_at`].
fn row4_match_at(p: &Vec<u8>, m: usize) -> (r: Option<(usize, usize)>)
    requires
        m < p@.len(),
    ensures
        match r {
            Some((a, b)) => row4_at(p@, m as int) == Some((a as int, b as int)),
            None => row4_at(p@, m as int) is None,
        },
{
    if !(p[m] == 0x20 || (p[m] >= 0x09 && p[m] <= 0x0d)) {
        return None;
    }
    let a = scan_ws(p, m);
    let b = scan_digits(p, a);
    if b == a || b >= p.len() || p[b] != PERCENT {
        return None;
    }
    let c = scan_ws(p, b + 1);
    if c == b + 1 {
        return None;
    }
    if p.len() - c < 8 {
        return None;
    }
    let time_ok = (p[c] >= 0x30 && p[c] <= 0x39) && (p[c + 1] >= 0x30 && p[c + 1] <= 0x39) && p[c
        + 2] == COLON && (p[c + 3] >= 0x30 && p[c + 3] <= 0x39) && (p[c + 4] >= 0x30 && p[c + 4]
        <= 0x39) && p[c + 5] == COLON && (p[c + 6] >= 0x30 && p[c + 6] <= 0x39) && (p[c + 7] >= 0x30
        && p[c + 7] <= 0x39);
    if time_ok {
        Some((a, b))
    } else {
        None
    }
}

/// Match a payload against the row-4 grammar: the leftmost match wins.
pub fn match_row4(p: &Vec<u8>) -> (r: Option<(usize, usize)>)
    ensures
        match r {
            Some((a, b)) => {
                &&& row4_parse(p@) == Some((a as int, b as int))
                &&& a <= b <= p@.len()
                &&& forall|j: int| a <= j < b ==> is_digit(#[trigger] p@[j])
            },
            None => row4_parse(p@) is None,
        },
{
    let mut m: usize = 0;
    while m < p.len()
        invariant
            m <= p@.len(),
            row4_parse(p@) == row4_find(p@, m as int),
        decreases p@.len() - m,
    {
        match row4_match_at(p, m) {
            Some((a, b)) => {
                proof {
                    crate::text::lemma_ws_end(p@, m as int);
                    crate::text::lemma_digits_end(p@, ws_end(p@, m as int));
                }
                return Some((a, b));
            },
            None => {
                m = m + 1;
            },
        }
    }
    None
}

} // verus!

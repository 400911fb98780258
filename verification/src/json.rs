//! Text-level primitives for the JSON-shaped user-data forms: whitespace,
//! string literals with escapes, and skipping over well-formed values whose
//! content the schema does not use.

use vstd::prelude::*;
use crate::text::{
    is_ws, is_ws_char, is_digit, is_digit_char, is_hex, is_hex_char, hex_value, char_from_code,
};
use crate::ip::{digit_run_end, digit_run_end_exec, hex_value_of};

verus! {

/// First position at or after `i` holding no insignificant whitespace.
pub open spec fn spec_ws(s: Seq<char>, i: int) -> int
    decreases s.len() - i,
{
    if 0 <= i < s.len() && is_ws_char(s[i]) {
        spec_ws(s, i + 1)
    } else {
        i
    }
}

pub fn ws_exec(s: &Vec<char>, i: usize) -> (j: usize)
    requires
        i <= s.len(),
    ensures
        j == spec_ws(s@, i as int),
        i <= j <= s.len(),
{
    let mut j = i;
    while j < s.len() && is_ws(s[j])
        invariant
            i <= j <= s.len(),
            spec_ws(s@, i as int) == spec_ws(s@, j as int),
        decreases s.len() - j,
    {
        j = j + 1;
    }
    j
}

/// The character denoted by a single-character escape, if one is accepted
/// (`\uXXXX` escapes are handled separately).
pub open spec fn escape_char(c: char) -> Option<char> {
    if c == '"' {
        Some('"')
    } else if c == '\\' {
        Some('\\')
    } else if c == '/' {
        Some('/')
    } else if c == 'b' {
        Some('\u{8}')
    } else if c == 'f' {
        Some('\u{c}')
    } else if c == 'n' {
        Some('\n')
    } else if c == 'r' {
        Some('\r')
    } else if c == 't' {
        Some('\t')
    } else {
        None
    }
}

pub fn escape_char_exec(c: char) -> (r: Option<char>)
    ensures
        r == escape_char(c),
{
    if c == '"' {
        Some('"')
    } else if c == '\\' {
        Some('\\')
    } else if c == '/' {
        Some('/')
    } else if c == 'b' {
        Some('\u{8}')
    } else if c == 'f' {
        Some('\u{c}')
    } else if c == 'n' {
        Some('\n')
    } else if c == 'r' {
        Some('\r')
    } else if c == 't' {
        Some('\t')
    } else {
        None
    }
}

/// Four hexadecimal digits standing at `i`.
pub open spec fn hex4_at(s: Seq<char>, i: int) -> bool {
    i + 4 <= s.len() && is_hex_char(s[i]) && is_hex_char(s[i + 1]) && is_hex_char(s[i + 2])
        && is_hex_char(s[i + 3])
}

/// The value of the four hexadecimal digits at `i`.
pub open spec fn hex4_val(s: Seq<char>, i: int) -> int {
    hex_value_of(s, i, i + 4)
}

/// The decoded content of a string literal read from position `i`, which
/// stands just inside the opening quote, up to its closing quote: plain
/// characters, single-character escapes, and `\uXXXX` escapes, where a high
/// surrogate must pair with a following low surrogate to form one character.
/// Yields the content and the position just past the closing quote.
pub open spec fn spec_string_body(s: Seq<char>, i: int) -> Option<(Seq<char>, int)>
    decreases s.len() - i,
{
    if !(0 <= i < s.len()) {
        None
    } else if s[i] == '"' {
        Some((Seq::empty(), i + 1))
    } else if s[i] == '\\' {
        if i + 1 < s.len() {
            if s[i + 1] == 'u' {
                if !hex4_at(s, i + 2) {
                    None
                } else {
                    let c0 = hex4_val(s, i + 2);
                    if 0xD800 <= c0 < 0xDC00 {
                        if i + 8 <= s.len() && s[i + 6] == '\\' && s[i + 7] == 'u' && hex4_at(
                            s,
                            i + 8,
                        ) {
                            let c1 = hex4_val(s, i + 8);
                            if 0xDC00 <= c1 < 0xE000 {
                                let code = 0x10000 + (c0 - 0xD800) * 0x400 + (c1 - 0xDC00);
                                match spec_string_body(s, i + 12) {
                                    None => None,
                                    Some((rest, j)) => Some(
                                        (seq![(code as u32) as char] + rest, j),
                                    ),
                                }
                            } else {
                                None
                            }
                        } else {
                            None
                        }
                    } else if 0xDC00 <= c0 < 0xE000 {
                        None
                    } else {
                        match spec_string_body(s, i + 6) {
                            None => None,
                            Some((rest, j)) => Some((seq![(c0 as u32) as char] + rest, j)),
                        }
                    }
                }
            } else {
                match escape_char(s[i + 1]) {
                    None => None,
                    Some(c) => match spec_string_body(s, i + 2) {
                        None => None,
                        Some((rest, j)) => Some((seq![c] + rest, j)),
                    },
                }
            }
        } else {
            None
        }
    } else if (s[i] as u32) < 0x20 {
        None
    } else {
        match spec_string_body(s, i + 1) {
            None => None,
            Some((rest, j)) => Some((seq![s[i]] + rest, j)),
        }
    }
}

/// A whole string literal at `i`: an opening quote, content, closing quote.
pub open spec fn spec_string_at(s: Seq<char>, i: int) -> Option<(Seq<char>, int)> {
    if 0 <= i < s.len() && s[i] == '"' {
        spec_string_body(s, i + 1)
    } else {
        None
    }
}

fn hex4_at_exec(s: &Vec<char>, i: usize) -> (b: bool)
    requires
        i <= s.len(),
    ensures
        b == hex4_at(s@, i as int),
{
    s.len() - i >= 4 && is_hex(s[i]) && is_hex(s[i + 1]) && is_hex(s[i + 2]) && is_hex(s[i + 3])
}

fn hex4_val_exec(s: &Vec<char>, i: usize) -> (v: u32)
    requires
        i + 4 <= s.len(),
        hex4_at(s@, i as int),
    ensures
        v == hex4_val(s@, i as int),
        v <= 0xffff,
{
    let v0 = hex_value(s[i]);
    let v1 = v0 * 16 + hex_value(s[i + 1]);
    let v2 = v1 * 16 + hex_value(s[i + 2]);
    let v3 = v2 * 16 + hex_value(s[i + 3]);
    proof {
        assert(hex_value_of(s@, i as int, i as int) == 0);
        assert(v0 == hex_value_of(s@, i as int, i + 1));
        assert(v1 == hex_value_of(s@, i as int, i + 2));
        assert(v2 == hex_value_of(s@, i as int, i + 3));
        assert(v3 == hex_value_of(s@, i as int, i + 4));
    }
    v3
}

fn string_body(s: &Vec<char>, i: usize) -> (r: Option<(Vec<char>, usize)>)
    requires
        i <= s.len(),
    ensures
        match (r, spec_string_body(s@, i as int)) {
            (Some((t, j)), Some((gt, gj))) => t@ == gt && j == gj && i < j <= s.len(),
            (None, None) => true,
            _ => false,
        },
    decreases s.len() - i,
{
    if i >= s.len() {
        None
    } else if s[i] == '"' {
        Some((Vec::new(), i + 1))
    } else if s[i] == '\\' {
        if i + 1 < s.len() {
            if s[i + 1] == 'u' {
                if !hex4_at_exec(s, i + 2) {
                    None
                } else {
                    let c0 = hex4_val_exec(s, i + 2);
                    if 0xD800 <= c0 && c0 < 0xDC00 {
                        if s.len() - i >= 8 && s[i + 6] == '\\' && s[i + 7] == 'u'
                            && hex4_at_exec(s, i + 8) {
                            let c1 = hex4_val_exec(s, i + 8);
                            if 0xDC00 <= c1 && c1 < 0xE000 {
                                let code: u32 = 0x10000 + (c0 - 0xD800) * 0x400 + (c1 - 0xDC00);
                                let c = char_from_code(code).unwrap();
                                proof {
                                    assert((code as char) as u32 == code);
                                    crate::text::lemma_char_code_injective(c, (code as char));
                                }
                                match string_body(s, i + 12) {
                                    None => None,
                                    Some((rest, j)) => {
                                        let ghost grest = rest@;
                                        let mut t: Vec<char> = Vec::new();
                                        t.push(c);
                                        let mut rest = rest;
                                        t.append(&mut rest);
                                        proof {
                                            assert(t@ =~= seq![c] + grest);
                                        }
                                        Some((t, j))
                                    },
                                }
                            } else {
                                None
                            }
                        } else {
                            None
                        }
                    } else if 0xDC00 <= c0 && c0 < 0xE000 {
                        None
                    } else {
                        let c = char_from_code(c0).unwrap();
                        proof {
                            assert((c0 as char) as u32 == c0);
                            crate::text::lemma_char_code_injective(c, (c0 as char));
                            assert(c == ((hex4_val(s@, i + 2) as u32) as char));
                        }
                        match string_body(s, i + 6) {
                            None => None,
                            Some((rest, j)) => {
                                let ghost grest = rest@;
                                let mut t: Vec<char> = Vec::new();
                                t.push(c);
                                let mut rest = rest;
                                t.append(&mut rest);
                                proof {
                                    assert(t@ =~= seq![c] + grest);
                                }
                                Some((t, j))
                            },
                        }
                    }
                }
            } else {
                match escape_char_exec(s[i + 1]) {
                    None => None,
                    Some(c) => match string_body(s, i + 2) {
                        None => None,
                        Some((rest, j)) => {
                            let ghost grest = rest@;
                            let mut t: Vec<char> = Vec::new();
                            t.push(c);
                            let mut rest = rest;
                            t.append(&mut rest);
                            proof {
                                assert(t@ =~= seq![c] + grest);
                            }
                            Some((t, j))
                        },
                    },
                }
            }
        } else {
            None
        }
    } else if (s[i] as u32) < 0x20 {
        None
    } else {
        let c = s[i];
        match string_body(s, i + 1) {
            None => None,
            Some((rest, j)) => {
                let ghost grest = rest@;
                let mut t: Vec<char> = Vec::new();
                t.push(c);
                let mut rest = rest;
                t.append(&mut rest);
                proof {
                    assert(t@ =~= seq![c] + grest);
                }
                Some((t, j))
            },
        }
    }
}

/// Reads a whole string literal at `i`; yields its decoded content.
pub fn string_at(s: &Vec<char>, i: usize) -> (r: Option<(Vec<char>, usize)>)
    requires
        i <= s.len(),
    ensures
        match (r, spec_string_at(s@, i as int)) {
            (Some((t, j)), Some((gt, gj))) => t@ == gt && j == gj && i < j <= s.len(),
            (None, None) => true,
            _ => false,
        },
{
    if i < s.len() && s[i] == '"' {
        string_body(s, i + 1)
    } else {
        None
    }
}

/// The end of a JSON number starting at `i`, if one stands there: an
/// optional minus sign, an integer part without leading zeros, an optional
/// fraction, an optional exponent.
pub open spec fn spec_number_end(s: Seq<char>, i: int) -> Option<int> {
    let j0 = if 0 <= i < s.len() && s[i] == '-' {
        i + 1
    } else {
        i
    };
    let j1 = digit_run_end(s, j0);
    if j1 == j0 {
        None
    } else if s[j0] == '0' && j1 - j0 > 1 {
        None
    } else {
        let j2 = if j1 < s.len() && s[j1] == '.' {
            digit_run_end(s, j1 + 1)
        } else {
            j1
        };
        if j1 < s.len() && s[j1] == '.' && j2 == j1 + 1 {
            None
        } else {
            if j2 < s.len() && (s[j2] == 'e' || s[j2] == 'E') {
                let j3 = if j2 + 1 < s.len() && (s[j2 + 1] == '+' || s[j2 + 1] == '-') {
                    j2 + 2
                } else {
                    j2 + 1
                };
                let j4 = digit_run_end(s, j3);
                if j4 == j3 {
                    None
                } else {
                    Some(j4)
                }
            } else {
                Some(j2)
            }
        }
    }
}

fn number_end(s: &Vec<char>, i: usize) -> (r: Option<usize>)
    requires
        i <= s.len(),
    ensures
        match (r, spec_number_end(s@, i as int)) {
            (Some(j), Some(gj)) => j == gj && i < j <= s.len(),
            (None, None) => true,
            _ => false,
        },
{
    let j0 = if i < s.len() && s[i] == '-' {
        i + 1
    } else {
        i
    };
    let j1 = digit_run_end_exec(s, j0);
    if j1 == j0 {
        None
    } else if s[j0] == '0' && j1 - j0 > 1 {
        None
    } else {
        let dot = j1 < s.len() && s[j1] == '.';
        let j2 = if dot {
            digit_run_end_exec(s, j1 + 1)
        } else {
            j1
        };
        if dot && j2 == j1 + 1 {
            None
        } else {
            if j2 < s.len() && (s[j2] == 'e' || s[j2] == 'E') {
                let j3 = if j2 + 1 < s.len() && (s[j2 + 1] == '+' || s[j2 + 1] == '-') {
                    j2 + 2
                } else {
                    j2 + 1
                };
                let j4 = digit_run_end_exec(s, j3);
                if j4 == j3 {
                    None
                } else {
                    Some(j4)
                }
            } else {
                Some(j2)
            }
        }
    }
}

/// Whether the characters `true` stand at `i`.
pub open spec fn lit_true_at(s: Seq<char>, i: int) -> bool {
    i + 4 <= s.len() && s[i] == 't' && s[i + 1] == 'r' && s[i + 2] == 'u' && s[i + 3] == 'e'
}

/// Whether the characters `false` stand at `i`.
pub open spec fn lit_false_at(s: Seq<char>, i: int) -> bool {
    i + 5 <= s.len() && s[i] == 'f' && s[i + 1] == 'a' && s[i + 2] == 'l' && s[i + 3] == 's' && s[i
        + 4] == 'e'
}

/// Whether the characters `null` stand at `i`.
pub open spec fn lit_null_at(s: Seq<char>, i: int) -> bool {
    i + 4 <= s.len() && s[i] == 'n' && s[i + 1] == 'u' && s[i + 2] == 'l' && s[i + 3] == 'l'
}

pub fn check_true_at(s: &Vec<char>, i: usize) -> (b: bool)
    requires
        i <= s.len(),
    ensures
        b == lit_true_at(s@, i as int),
{
    s.len() - i >= 4 && s[i] == 't' && s[i + 1] == 'r' && s[i + 2] == 'u' && s[i + 3] == 'e'
}

pub fn check_false_at(s: &Vec<char>, i: usize) -> (b: bool)
    requires
        i <= s.len(),
    ensures
        b == lit_false_at(s@, i as int),
{
    s.len() - i >= 5 && s[i] == 'f' && s[i + 1] == 'a' && s[i + 2] == 'l' && s[i + 3] == 's' && s[i
        + 4] == 'e'
}

pub fn check_null_at(s: &Vec<char>, i: usize) -> (b: bool)
    requires
        i <= s.len(),
    ensures
        b == lit_null_at(s@, i as int),
{
    s.len() - i >= 4 && s[i] == 'n' && s[i + 1] == 'u' && s[i + 2] == 'l' && s[i + 3] == 'l'
}

/// The position just past the well-formed JSON value starting at `i`, if one
/// stands there. The value's content is not kept: entries skip over values
/// under keys the schema does not know.
pub open spec fn spec_skip_value(s: Seq<char>, i: int) -> Option<int>
    decreases s.len() - i,
{
    if !(0 <= i < s.len()) {
        None
    } else if s[i] == '"' {
        match spec_string_at(s, i) {
            None => None,
            Some((_t, j)) => Some(j),
        }
    } else if s[i] == '[' {
        let j = spec_ws(s, i + 1);
        if !(i < j <= s.len()) {
            None
        } else if j < s.len() && s[j] == ']' {
            Some(j + 1)
        } else {
            match spec_skip_value(s, j) {
                None => None,
                Some(k) => if i < k <= s.len() {
                    spec_skip_items(s, k)
                } else {
                    None
                },
            }
        }
    } else if s[i] == '{' {
        let j = spec_ws(s, i + 1);
        if !(i < j <= s.len()) {
            None
        } else if j < s.len() && s[j] == '}' {
            Some(j + 1)
        } else {
            spec_skip_member(s, j)
        }
    } else if lit_true_at(s, i) {
        Some(i + 4)
    } else if lit_false_at(s, i) {
        Some(i + 5)
    } else if lit_null_at(s, i) {
        Some(i + 4)
    } else {
        spec_number_end(s, i)
    }
}

/// One object member (key, ':', value) whose key starts at `j`, then the
/// rest of the enclosing object.
pub open spec fn spec_skip_member(s: Seq<char>, j: int) -> Option<int>
    decreases s.len() - j,
{
    match spec_string_at(s, j) {
        None => None,
        Some((_key, j2)) => {
            let p = spec_ws(s, j2);
            if p < s.len() && s[p] == ':' {
                let m = spec_ws(s, p + 1);
                if j < m && m <= s.len() {
                    match spec_skip_value(s, m) {
                        None => None,
                        Some(k) => if j < k <= s.len() {
                            spec_skip_members(s, k)
                        } else {
                            None
                        },
                    }
                } else {
                    None
                }
            } else {
                None
            }
        },
    }
}

/// After one array item: either the closing bracket or a comma and another
/// item, and so on.
pub open spec fn spec_skip_items(s: Seq<char>, i: int) -> Option<int>
    decreases s.len() - i,
{
    let j = spec_ws(s, i);
    if !(i <= j < s.len()) {
        None
    } else if s[j] == ']' {
        Some(j + 1)
    } else if s[j] == ',' {
        let m = spec_ws(s, j + 1);
        if i < m && m <= s.len() {
            match spec_skip_value(s, m) {
                None => None,
                Some(k) => if i < k <= s.len() {
                    spec_skip_items(s, k)
                } else {
                    None
                },
            }
        } else {
            None
        }
    } else {
        None
    }
}

/// After one object member: either the closing brace or a comma and another
/// member, and so on.
pub open spec fn spec_skip_members(s: Seq<char>, i: int) -> Option<int>
    decreases s.len() - i,
{
    let j = spec_ws(s, i);
    if !(i <= j < s.len()) {
        None
    } else if s[j] == '}' {
        Some(j + 1)
    } else if s[j] == ',' {
        let m = spec_ws(s, j + 1);
        if i < m && m <= s.len() {
            spec_skip_member(s, m)
        } else {
            None
        }
    } else {
        None
    }
}

/// Skips the well-formed JSON value starting at `i`.
pub fn skip_value(s: &Vec<char>, i: usize) -> (r: Option<usize>)
    requires
        i <= s.len(),
    ensures
        match (r, spec_skip_value(s@, i as int)) {
            (Some(j), Some(gj)) => j == gj && i < j <= s.len(),
            (None, None) => true,
            _ => false,
        },
    decreases s.len() - i,
{
    if i >= s.len() {
        None
    } else if s[i] == '"' {
        match string_at(s, i) {
            None => None,
            Some((_t, j)) => Some(j),
        }
    } else if s[i] == '[' {
        let j = ws_exec(s, i + 1);
        if j < s.len() && s[j] == ']' {
            Some(j + 1)
        } else {
            match skip_value(s, j) {
                None => None,
                Some(k) => skip_items(s, k),
            }
        }
    } else if s[i] == '{' {
        let j = ws_exec(s, i + 1);
        if j < s.len() && s[j] == '}' {
            Some(j + 1)
        } else {
            skip_member(s, j)
        }
    } else if check_true_at(s, i) {
        Some(i + 4)
    } else if check_false_at(s, i) {
        Some(i + 5)
    } else if check_null_at(s, i) {
        Some(i + 4)
    } else {
        number_end(s, i)
    }
}

fn skip_member(s: &Vec<char>, j: usize) -> (r: Option<usize>)
    requires
        j <= s.len(),
    ensures
        match (r, spec_skip_member(s@, j as int)) {
            (Some(k), Some(gk)) => k == gk && j < k <= s.len(),
            (None, None) => true,
            _ => false,
        },
    decreases s.len() - j,
{
    match string_at(s, j) {
        None => None,
        Some((_key, j2)) => {
            let p = ws_exec(s, j2);
            if p < s.len() && s[p] == ':' {
                let m = ws_exec(s, p + 1);
                match skip_value(s, m) {
                    None => None,
                    Some(k) => skip_members(s, k),
                }
            } else {
                None
            }
        },
    }
}

fn skip_items(s: &Vec<char>, k: usize) -> (r: Option<usize>)
    requires
        k <= s.len(),
    ensures
        match (r, spec_skip_items(s@, k as int)) {
            (Some(j), Some(gj)) => j == gj && k < j <= s.len(),
            (None, None) => true,
            _ => false,
        },
    decreases s.len() - k,
{
    let j = ws_exec(s, k);
    if j >= s.len() {
        None
    } else if s[j] == ']' {
        Some(j + 1)
    } else if s[j] == ',' {
        let m = ws_exec(s, j + 1);
        match skip_value(s, m) {
            None => None,
            Some(p) => skip_items(s, p),
        }
    } else {
        None
    }
}

fn skip_members(s: &Vec<char>, k: usize) -> (r: Option<usize>)
    requires
        k <= s.len(),
    ensures
        match (r, spec_skip_members(s@, k as int)) {
            (Some(j), Some(gj)) => j == gj && k < j <= s.len(),
            (None, None) => true,
            _ => false,
        },
    decreases s.len() - k,
{
    let j = ws_exec(s, k);
    if j >= s.len() {
        None
    } else if s[j] == '}' {
        Some(j + 1)
    } else if s[j] == ',' {
        let m = ws_exec(s, j + 1);
        skip_member(s, m)
    } else {
        None
    }
}

} // verus!

//! IPv4 and IPv6 literals: the library's own address types and verified
//! parsers for the textual forms accepted in user-data tokens.

use vstd::prelude::*;
use crate::text::{
    is_digit, is_digit_char, is_hex, is_hex_char, digit_val, digit_value, hex_val, hex_value,
};

verus! {

/// An IPv4 address, one field per octet.
#[derive(Clone, Copy, PartialEq, Eq, Structural, Debug)]
pub struct Ipv4 {
    pub o0: u8,
    pub o1: u8,
    pub o2: u8,
    pub o3: u8,
}

/// An IPv6 address, one field per 16-bit group.
#[derive(Clone, Copy, PartialEq, Eq, Structural, Debug)]
pub struct Ipv6 {
    pub g0: u16,
    pub g1: u16,
    pub g2: u16,
    pub g3: u16,
    pub g4: u16,
    pub g5: u16,
    pub g6: u16,
    pub g7: u16,
}

/// First position at or after `i` that does not hold a decimal digit.
pub open spec fn digit_run_end(s: Seq<char>, i: int) -> int
    decreases s.len() - i,
{
    if 0 <= i < s.len() && is_digit_char(s[i]) {
        digit_run_end(s, i + 1)
    } else {
        i
    }
}

/// First position at or after `i` that does not hold a hexadecimal digit.
pub open spec fn hex_run_end(s: Seq<char>, i: int) -> int
    decreases s.len() - i,
{
    if 0 <= i < s.len() && is_hex_char(s[i]) {
        hex_run_end(s, i + 1)
    } else {
        i
    }
}

/// Value of the decimal digits `s[i..j)`.
pub open spec fn dec_value(s: Seq<char>, i: int, j: int) -> int
    decreases j - i,
{
    if i < j {
        dec_value(s, i, j - 1) * 10 + digit_val(s[j - 1])
    } else {
        0
    }
}

/// Value of the hexadecimal digits `s[i..j)`.
pub open spec fn hex_value_of(s: Seq<char>, i: int, j: int) -> int
    decreases j - i,
{
    if i < j {
        hex_value_of(s, i, j - 1) * 16 + hex_val(s[j - 1])
    } else {
        0
    }
}

/// One dotted-quad octet at `i`: a maximal run of one to three decimal
/// digits, no leading zero unless the octet is exactly "0", value at most
/// 255. Yields the octet and the position just past it.
pub open spec fn spec_octet_at(s: Seq<char>, i: int) -> Option<(u8, int)> {
    let j = digit_run_end(s, i);
    let n = j - i;
    if n < 1 {
        None
    } else if n > 1 && s[i] == '0' {
        None
    } else if n > 3 {
        None
    } else if dec_value(s, i, j) <= 255 {
        Some((dec_value(s, i, j) as u8, j))
    } else {
        None
    }
}

/// A dotted-quad IPv4 literal starting at `i`: four octets separated by '.'.
/// Yields the address and the position just past it.
pub open spec fn spec_ipv4_at(s: Seq<char>, i: int) -> Option<(Ipv4, int)> {
    match spec_octet_at(s, i) {
        None => None,
        Some((a, j0)) => if j0 < s.len() && s[j0] == '.' {
            match spec_octet_at(s, j0 + 1) {
                None => None,
                Some((b, j1)) => if j1 < s.len() && s[j1] == '.' {
                    match spec_octet_at(s, j1 + 1) {
                        None => None,
                        Some((c, j2)) => if j2 < s.len() && s[j2] == '.' {
                            match spec_octet_at(s, j2 + 1) {
                                None => None,
                                Some((d, j3)) => Some(
                                    (Ipv4 { o0: a, o1: b, o2: c, o3: d }, j3),
                                ),
                            }
                        } else {
                            None
                        },
                    }
                } else {
                    None
                },
            }
        } else {
            None
        },
    }
}

/// Whether `s` is exactly an IPv4 literal, and which address it denotes.
pub open spec fn spec_parse_ipv4(s: Seq<char>) -> Option<Ipv4> {
    match spec_ipv4_at(s, 0) {
        Some((a, j)) => if j == s.len() {
            Some(a)
        } else {
            None
        },
        None => None,
    }
}

/// One 16-bit IPv6 group at `i`: a maximal run of one to four hexadecimal
/// digits (leading zeros allowed).
pub open spec fn spec_group_at(s: Seq<char>, i: int) -> Option<(u16, int)> {
    let j = hex_run_end(s, i);
    let n = j - i;
    if n < 1 {
        None
    } else if n > 4 {
        None
    } else {
        Some((hex_value_of(s, i, j) as u16, j))
    }
}

/// A run of colon-separated IPv6 groups starting at `i`, at most `remaining`
/// of them, optionally ending in an embedded dotted-quad IPv4 address (which
/// counts as two groups and ends the run). `first` says whether the first
/// group is preceded by a ':' separator. Yields the groups read, the position
/// just past them (unchanged past a failed separator), and whether an
/// embedded IPv4 address ended the run.
pub open spec fn spec_groups_at(s: Seq<char>, i: int, remaining: nat, first: bool) -> (Seq<u16>,
    int,
    bool,
)
    decreases remaining,
{
    if remaining == 0 {
        (Seq::empty(), i, false)
    } else {
        let j = if first {
            i
        } else {
            i + 1
        };
        if !first && !(i < s.len() && s[i] == ':') {
            (Seq::empty(), i, false)
        } else if remaining >= 2 && spec_ipv4_at(s, j) is Some {
            let (v4, k) = spec_ipv4_at(s, j)->Some_0;
            (
                seq![
                    ((v4.o0 as int) * 256 + (v4.o1 as int)) as u16,
                    ((v4.o2 as int) * 256 + (v4.o3 as int)) as u16,
                ],
                k,
                true,
            )
        } else {
            match spec_group_at(s, j) {
                None => (Seq::empty(), i, false),
                Some((g, k)) => {
                    let (rest, p, v4) = spec_groups_at(s, k, (remaining - 1) as nat, false);
                    (seq![g] + rest, p, v4)
                },
            }
        }
    }
}

/// The `k`-th group of the address written as `head`, then zero groups,
/// then `tail`.
pub open spec fn group_of(head: Seq<u16>, tail: Seq<u16>, k: int) -> u16 {
    if k < head.len() {
        head[k]
    } else if k >= 8 - tail.len() {
        tail[k - (8 - tail.len())]
    } else {
        0
    }
}

/// The address written as `head`, then zero groups, then `tail`.
pub open spec fn spec_ipv6_from(head: Seq<u16>, tail: Seq<u16>) -> Ipv6 {
    Ipv6 {
        g0: group_of(head, tail, 0),
        g1: group_of(head, tail, 1),
        g2: group_of(head, tail, 2),
        g3: group_of(head, tail, 3),
        g4: group_of(head, tail, 4),
        g5: group_of(head, tail, 5),
        g6: group_of(head, tail, 6),
        g7: group_of(head, tail, 7),
    }
}

/// Whether `s` is exactly an IPv6 literal, and which address it denotes.
/// Either eight groups, or a head and tail of together at most seven groups
/// around one "::" standing for the elided zero groups; an embedded IPv4
/// address may end the group run.
pub open spec fn spec_parse_ipv6(s: Seq<char>) -> Option<Ipv6> {
    let (head, p, head_v4) = spec_groups_at(s, 0, 8, true);
    if head.len() == 8 {
        if p == s.len() {
            Some(spec_ipv6_from(head, Seq::empty()))
        } else {
            None
        }
    } else if head_v4 {
        None
    } else if p + 1 < s.len() && s[p] == ':' && s[p + 1] == ':' {
        let (tail, q, _) = spec_groups_at(s, p + 2, (7 - head.len()) as nat, true);
        if q == s.len() {
            Some(spec_ipv6_from(head, tail))
        } else {
            None
        }
    } else {
        None
    }
}

pub(crate) fn digit_run_end_exec(s: &Vec<char>, i: usize) -> (j: usize)
    requires
        i <= s.len(),
    ensures
        j == digit_run_end(s@, i as int),
        i <= j <= s.len(),
{
    let mut j = i;
    while j < s.len() && is_digit(s[j])
        invariant
            i <= j <= s.len(),
            digit_run_end(s@, i as int) == digit_run_end(s@, j as int),
        decreases s.len() - j,
    {
        j = j + 1;
    }
    j
}

fn hex_run_end_exec(s: &Vec<char>, i: usize) -> (j: usize)
    requires
        i <= s.len(),
    ensures
        j == hex_run_end(s@, i as int),
        i <= j <= s.len(),
{
    let mut j = i;
    while j < s.len() && is_hex(s[j])
        invariant
            i <= j <= s.len(),
            hex_run_end(s@, i as int) == hex_run_end(s@, j as int),
        decreases s.len() - j,
    {
        j = j + 1;
    }
    j
}

fn octet_at(s: &Vec<char>, i: usize) -> (r: Option<(u8, usize)>)
    requires
        i <= s.len(),
    ensures
        match (r, spec_octet_at(s@, i as int)) {
            (Some((v, j)), Some((gv, gj))) => v == gv && j == gj && i < j <= s.len(),
            (None, None) => true,
            _ => false,
        },
{
    let j = digit_run_end_exec(s, i);
    let n = j - i;
    if n < 1 {
        None
    } else if n > 1 && s[i] == '0' {
        None
    } else if n > 3 {
        None
    } else {
        proof {
            assert(forall|k: int| i <= k < j ==> is_digit_char(s@[k])) by {
                assert forall|k: int| i <= k < j implies is_digit_char(s@[k]) by {
                    lemma_digit_run(s@, i as int, k);
                }
            }
        }
        let mut v: u32 = digit_value(s[i]);
        proof {
            assert(dec_value(s@, i as int, i as int) == 0);
            assert(v == dec_value(s@, i as int, i + 1));
        }
        if n >= 2 {
            v = v * 10 + digit_value(s[i + 1]);
            proof {
                assert(v == dec_value(s@, i as int, i + 2));
            }
        }
        if n == 3 {
            v = v * 10 + digit_value(s[i + 2]);
            proof {
                assert(v == dec_value(s@, i as int, i + 3));
            }
        }
        if v <= 255 {
            Some((v as u8, j))
        } else {
            None
        }
    }
}

/// Every position strictly before the end of a digit run holds a digit.
proof fn lemma_digit_run(s: Seq<char>, i: int, k: int)
    requires
        0 <= i <= k < digit_run_end(s, i),
    ensures
        is_digit_char(s[k]),
    decreases k - i,
{
    if i < k {
        lemma_digit_run(s, i + 1, k);
    }
}

/// Every position strictly before the end of a hex run holds a hex digit.
proof fn lemma_hex_run(s: Seq<char>, i: int, k: int)
    requires
        0 <= i <= k < hex_run_end(s, i),
    ensures
        is_hex_char(s[k]),
    decreases k - i,
{
    if i < k {
        lemma_hex_run(s, i + 1, k);
    }
}

fn group_at(s: &Vec<char>, i: usize) -> (r: Option<(u16, usize)>)
    requires
        i <= s.len(),
    ensures
        match (r, spec_group_at(s@, i as int)) {
            (Some((v, j)), Some((gv, gj))) => v == gv && j == gj && i < j <= s.len(),
            (None, None) => true,
            _ => false,
        },
{
    let j = hex_run_end_exec(s, i);
    let n = j - i;
    if n < 1 {
        None
    } else if n > 4 {
        None
    } else {
        proof {
            assert(forall|k: int| i <= k < j ==> is_hex_char(s@[k])) by {
                assert forall|k: int| i <= k < j implies is_hex_char(s@[k]) by {
                    lemma_hex_run(s@, i as int, k);
                }
            }
        }
        let mut v: u32 = hex_value(s[i]);
        proof {
            assert(hex_value_of(s@, i as int, i as int) == 0);
            assert(v == hex_value_of(s@, i as int, i + 1));
        }
        let mut k = i + 1;
        while k < j
            invariant
                i < k <= j <= s.len(),
                j - i <= 4,
                forall|m: int| i <= m < j ==> is_hex_char(s@[m]),
                v == hex_value_of(s@, i as int, k as int),
                k - i == 1 ==> v <= 0xf,
                k - i == 2 ==> v <= 0xff,
                k - i == 3 ==> v <= 0xfff,
                k - i == 4 ==> v <= 0xffff,
            decreases j - k,
        {
            v = v * 16 + hex_value(s[k]);
            k = k + 1;
        }
        Some((v as u16, j))
    }
}

fn ipv4_at(s: &Vec<char>, i: usize) -> (r: Option<(Ipv4, usize)>)
    requires
        i <= s.len(),
    ensures
        match (r, spec_ipv4_at(s@, i as int)) {
            (Some((v, j)), Some((gv, gj))) => v == gv && j == gj && i < j <= s.len(),
            (None, None) => true,
            _ => false,
        },
{
    match octet_at(s, i) {
        None => None,
        Some((a, j0)) => {
            if j0 < s.len() && s[j0] == '.' {
                match octet_at(s, j0 + 1) {
                    None => None,
                    Some((b, j1)) => {
                        if j1 < s.len() && s[j1] == '.' {
                            match octet_at(s, j1 + 1) {
                                None => None,
                                Some((c, j2)) => {
                                    if j2 < s.len() && s[j2] == '.' {
                                        match octet_at(s, j2 + 1) {
                                            None => None,
                                            Some((d, j3)) => Some(
                                                (Ipv4 { o0: a, o1: b, o2: c, o3: d }, j3),
                                            ),
                                        }
                                    } else {
                                        None
                                    }
                                },
                            }
                        } else {
                            None
                        }
                    },
                }
            } else {
                None
            }
        },
    }
}

/// Parses a whole token as an IPv4 literal.
pub fn parse_ipv4(s: &Vec<char>) -> (r: Option<Ipv4>)
    ensures
        r == spec_parse_ipv4(s@),
{
    match ipv4_at(s, 0) {
        Some((a, j)) => if j == s.len() {
            Some(a)
        } else {
            None
        },
        None => None,
    }
}

fn groups_at(s: &Vec<char>, i: usize, remaining: usize, first: bool) -> (r: (Vec<u16>, usize, bool))
    requires
        i <= s.len(),
        remaining <= 8,
    ensures
        ({
            let (gg, gp, gv4) = spec_groups_at(s@, i as int, remaining as nat, first);
            r.0@ == gg && r.1 == gp && r.2 == gv4 && i <= r.1 <= s.len() && r.0@.len() <= remaining
        }),
    decreases remaining,
{
    if remaining == 0 {
        (Vec::new(), i, false)
    } else {
        if !first && !(i < s.len() && s[i] == ':') {
            (Vec::new(), i, false)
        } else {
            let j = if first {
                i
            } else {
                i + 1
            };
            let v4r = if remaining >= 2 {
                ipv4_at(s, j)
            } else {
                None
            };
            match v4r {
                Some((v4, k)) => {
                    let mut g: Vec<u16> = Vec::new();
                    g.push((v4.o0 as u16) * 256 + (v4.o1 as u16));
                    g.push((v4.o2 as u16) * 256 + (v4.o3 as u16));
                    proof {
                        assert(g@ =~= spec_groups_at(s@, i as int, remaining as nat, first).0);
                    }
                    (g, k, true)
                },
                None => {
                    match group_at(s, j) {
                        None => (Vec::new(), i, false),
                        Some((g0, k)) => {
                            let (rest, p, v4) = groups_at(s, k, remaining - 1, false);
                            let mut g: Vec<u16> = Vec::new();
                            g.push(g0);
                            let mut m: usize = 0;
                            while m < rest.len()
                                invariant
                                    m <= rest.len(),
                                    g@ == seq![g0] + rest@.take(m as int),
                                decreases rest.len() - m,
                            {
                                g.push(rest[m]);
                                m = m + 1;
                                proof {
                                    assert(g@ =~= seq![g0] + rest@.take(m as int));
                                }
                            }
                            proof {
                                assert(rest@.take(rest@.len() as int) =~= rest@);
                                assert(g@ =~= seq![g0] + rest@);
                            }
                            (g, p, v4)
                        },
                    }
                },
            }
        }
    }
}

/// Parses a whole token as an IPv6 literal.
pub fn parse_ipv6(s: &Vec<char>) -> (r: Option<Ipv6>)
    ensures
        r == spec_parse_ipv6(s@),
{
    let (head, p, head_v4) = groups_at(s, 0, 8, true);
    if head.len() == 8 {
        if p == s.len() {
            Some(ipv6_from(&head, &Vec::new()))
        } else {
            None
        }
    } else if head_v4 {
        None
    } else if p < s.len() && p + 1 < s.len() && s[p] == ':' && s[p + 1] == ':' {
        let limit = 7 - head.len();
        let (tail, q, _) = groups_at(s, p + 2, limit, true);
        if q == s.len() {
            Some(ipv6_from(&head, &tail))
        } else {
            None
        }
    } else {
        None
    }
}

fn ipv6_from(head: &Vec<u16>, tail: &Vec<u16>) -> (r: Ipv6)
    requires
        head@.len() + tail@.len() <= 8,
    ensures
        r == spec_ipv6_from(head@, tail@),
{
    let mut all: Vec<u16> = Vec::new();
    let mut i: usize = 0;
    while i < head.len()
        invariant
            i <= head.len(),
            all@ == head@.take(i as int),
        decreases head.len() - i,
    {
        all.push(head[i]);
        i = i + 1;
        proof {
            assert(all@ =~= head@.take(i as int));
        }
    }
    proof {
        assert(head@.take(head@.len() as int) =~= head@);
    }
    while all.len() < 8 - tail.len()
        invariant
            head@.len() + tail@.len() <= 8,
            head@.len() <= all@.len() <= 8 - tail@.len(),
            all@.take(head@.len() as int) == head@,
            forall|k: int| head@.len() <= k < all@.len() ==> all@[k] == 0u16,
        decreases 8 - tail.len() - all.len(),
    {
        all.push(0u16);
        proof {
            assert(all@.take(head@.len() as int) =~= head@);
        }
    }
    let mut i: usize = 0;
    while i < tail.len()
        invariant
            head@.len() + tail@.len() <= 8,
            all@.len() == 8 - tail@.len() + i,
            i <= tail@.len(),
            all@.take(head@.len() as int) == head@,
            forall|k: int| head@.len() <= k < 8 - tail@.len() ==> all@[k] == 0u16,
            forall|k: int| 8 - tail@.len() <= k < all@.len() ==> all@[k] == tail@[k - (8
                - tail@.len())],
        decreases tail.len() - i,
    {
        all.push(tail[i]);
        i = i + 1;
        proof {
            assert(all@.take(head@.len() as int) =~= head@);
        }
    }
    proof {
        assert(forall|k: int| 0 <= k < head@.len() ==> all@[k] == head@[k]);
        assert(forall|k: int| 0 <= k < 8 ==> all@[k] == group_of(head@, tail@, k));
    }
    Ipv6 {
        g0: all[0],
        g1: all[1],
        g2: all[2],
        g3: all[3],
        g4: all[4],
        g5: all[5],
        g6: all[6],
        g7: all[7],
    }
}

} // verus!

//! Entry-level parsing of the JSON-shaped user-data forms: filter objects,
//! Elastic-IP entry objects, and arrays of entries. Each entry is polymorphic
//! over a plain identifier string and a structured object.

use vstd::prelude::*;
use crate::actions::{
    Action, ActionView, EipAction, EipActionView, Filter, FilterView, classify_token,
    classify_token_exec,
};
use crate::json::{
    spec_ws, ws_exec, spec_string_at, string_at, spec_skip_value, skip_value, lit_true_at,
    lit_false_at, lit_null_at, check_true_at, check_false_at, check_null_at,
};
use crate::text::{chars_of_str, chars_equal, string_from_chars};

verus! {

/// A field accumulator collapsed: outer `Some` means the key was seen, the
/// inner value is what it carried (`None` for an explicit null).
pub open spec fn flat<T>(o: Option<Option<T>>) -> Option<T> {
    match o {
        Some(x) => x,
        None => None,
    }
}

/// The string elements of a `Values` array starting after its first element,
/// read from position `i` just past that element.
pub open spec fn spec_values_rest(s: Seq<char>, i: int) -> Option<(Seq<Seq<char>>, int)>
    decreases s.len() - i,
{
    let j = spec_ws(s, i);
    if !(i <= j < s.len()) {
        None
    } else if s[j] == ']' {
        Some((Seq::empty(), j + 1))
    } else if s[j] == ',' {
        let m = spec_ws(s, j + 1);
        if i < m && m <= s.len() {
            match spec_string_at(s, m) {
                None => None,
                Some((t, k)) => if i < k && k <= s.len() {
                    match spec_values_rest(s, k) {
                        None => None,
                        Some((rest, p)) => Some((seq![t] + rest, p)),
                    }
                } else {
                    None
                },
            }
        } else {
            None
        }
    } else {
        None
    }
}

/// A whole `Values` array at `i`: a bracketed, comma-separated list of
/// strings.
pub open spec fn spec_values_at(s: Seq<char>, i: int) -> Option<(Seq<Seq<char>>, int)> {
    if 0 <= i < s.len() && s[i] == '[' {
        let j = spec_ws(s, i + 1);
        if !(i < j <= s.len()) {
            None
        } else if j < s.len() && s[j] == ']' {
            Some((Seq::empty(), j + 1))
        } else {
            match spec_string_at(s, j) {
                None => None,
                Some((t, k)) => if i < k && k <= s.len() {
                    match spec_values_rest(s, k) {
                        None => None,
                        Some((rest, p)) => Some((seq![t] + rest, p)),
                    }
                } else {
                    None
                },
            }
        }
    } else {
        None
    }
}

/// After one member of a filter object: the closing brace — requiring that
/// both `Name` and `Values` were seen — or a comma and the next member.
pub open spec fn spec_filter_after(
    s: Seq<char>,
    k: int,
    name: Option<Seq<char>>,
    values: Option<Seq<Seq<char>>>,
) -> Option<(FilterView, int)>
    decreases s.len() - k,
{
    let p = spec_ws(s, k);
    if !(k <= p < s.len()) {
        None
    } else if s[p] == '}' {
        if name is Some && values is Some {
            Some((FilterView { name: name->Some_0, values: values->Some_0 }, p + 1))
        } else {
            None
        }
    } else if s[p] == ',' {
        let q = spec_ws(s, p + 1);
        if k < q && q <= s.len() {
            spec_filter_members(s, q, name, values)
        } else {
            None
        }
    } else {
        None
    }
}

/// The members of a filter object read from key position `i`: `Name` takes a
/// string, `Values` a string array, each at most once; unknown keys are
/// skipped.
pub open spec fn spec_filter_members(
    s: Seq<char>,
    i: int,
    name: Option<Seq<char>>,
    values: Option<Seq<Seq<char>>>,
) -> Option<(FilterView, int)>
    decreases s.len() - i,
{
    match spec_string_at(s, i) {
        None => None,
        Some((key, j2)) => {
            let p = spec_ws(s, j2);
            if p < s.len() && s[p] == ':' {
                let m = spec_ws(s, p + 1);
                if i < m && m <= s.len() {
                    if key == "Name"@ {
                        if name is Some {
                            None
                        } else {
                            match spec_string_at(s, m) {
                                None => None,
                                Some((t, k)) => if i < k && k <= s.len() {
                                    spec_filter_after(s, k, Some(t), values)
                                } else {
                                    None
                                },
                            }
                        }
                    } else if key == "Values"@ {
                        if values is Some {
                            None
                        } else {
                            match spec_values_at(s, m) {
                                None => None,
                                Some((vs, k)) => if i < k && k <= s.len() {
                                    spec_filter_after(s, k, name, Some(vs))
                                } else {
                                    None
                                },
                            }
                        }
                    } else {
                        match spec_skip_value(s, m) {
                            None => None,
                            Some(k) => if i < k && k <= s.len() {
                                spec_filter_after(s, k, name, values)
                            } else {
                                None
                            },
                        }
                    }
                } else {
                    None
                }
            } else {
                None
            }
        },
    }
}

/// A whole filter object at `i`. An empty object is refused: both `Name`
/// and `Values` are required.
pub open spec fn spec_filter_at(s: Seq<char>, i: int) -> Option<(FilterView, int)> {
    if 0 <= i < s.len() && s[i] == '{' {
        let j = spec_ws(s, i + 1);
        if !(i < j <= s.len()) {
            None
        } else if j < s.len() && s[j] == '}' {
            None
        } else {
            spec_filter_members(s, j, None, None)
        }
    } else {
        None
    }
}

/// The filter objects of a `Filters` array after its first element.
pub open spec fn spec_filters_rest(s: Seq<char>, i: int) -> Option<(Seq<FilterView>, int)>
    decreases s.len() - i,
{
    let j = spec_ws(s, i);
    if !(i <= j < s.len()) {
        None
    } else if s[j] == ']' {
        Some((Seq::empty(), j + 1))
    } else if s[j] == ',' {
        let m = spec_ws(s, j + 1);
        if i < m && m <= s.len() {
            match spec_filter_at(s, m) {
                None => None,
                Some((f, k)) => if i < k && k <= s.len() {
                    match spec_filters_rest(s, k) {
                        None => None,
                        Some((rest, p)) => Some((seq![f] + rest, p)),
                    }
                } else {
                    None
                },
            }
        } else {
            None
        }
    } else {
        None
    }
}

/// A whole `Filters` array at `i`: a bracketed, comma-separated list of
/// filter objects. An empty array is valid and matches every address.
pub open spec fn spec_filters_at(s: Seq<char>, i: int) -> Option<(Seq<FilterView>, int)> {
    if 0 <= i < s.len() && s[i] == '[' {
        let j = spec_ws(s, i + 1);
        if !(i < j <= s.len()) {
            None
        } else if j < s.len() && s[j] == ']' {
            Some((Seq::empty(), j + 1))
        } else {
            match spec_filter_at(s, j) {
                None => None,
                Some((f, k)) => if i < k && k <= s.len() {
                    match spec_filters_rest(s, k) {
                        None => None,
                        Some((rest, p)) => Some((seq![f] + rest, p)),
                    }
                } else {
                    None
                },
            }
        }
    } else {
        None
    }
}

/// After one member of an Elastic-IP entry object: the closing brace or a
/// comma and the next member.
pub open spec fn spec_eip_after(
    s: Seq<char>,
    k: int,
    alloc: Option<Option<Seq<char>>>,
    allow: Option<Option<bool>>,
    filters: Option<Option<Seq<FilterView>>>,
) -> Option<(EipActionView, int)>
    decreases s.len() - k,
{
    let p = spec_ws(s, k);
    if !(k <= p < s.len()) {
        None
    } else if s[p] == '}' {
        Some(
            (
                EipActionView {
                    allocation_id: flat(alloc),
                    allow_reassociation: flat(allow),
                    filters: flat(filters),
                },
                p + 1,
            ),
        )
    } else if s[p] == ',' {
        let q = spec_ws(s, p + 1);
        if k < q && q <= s.len() {
            spec_eip_members(s, q, alloc, allow, filters)
        } else {
            None
        }
    } else {
        None
    }
}

/// The members of an Elastic-IP entry object read from key position `i`:
/// `AllocationId` takes a string or null, `AllowReassociation` a bool or
/// null, `Filters` a filter array or null, each key at most once; unknown
/// keys are skipped.
pub open spec fn spec_eip_members(
    s: Seq<char>,
    i: int,
    alloc: Option<Option<Seq<char>>>,
    allow: Option<Option<bool>>,
    filters: Option<Option<Seq<FilterView>>>,
) -> Option<(EipActionView, int)>
    decreases s.len() - i,
{
    match spec_string_at(s, i) {
        None => None,
        Some((key, j2)) => {
            let p = spec_ws(s, j2);
            if p < s.len() && s[p] == ':' {
                let m = spec_ws(s, p + 1);
                if i < m && m <= s.len() {
                    if key == "AllocationId"@ {
                        if alloc is Some {
                            None
                        } else if lit_null_at(s, m) {
                            if i < m + 4 {
                                spec_eip_after(s, m + 4, Some(None), allow, filters)
                            } else {
                                None
                            }
                        } else {
                            match spec_string_at(s, m) {
                                None => None,
                                Some((t, k)) => if i < k && k <= s.len() {
                                    spec_eip_after(s, k, Some(Some(t)), allow, filters)
                                } else {
                                    None
                                },
                            }
                        }
                    } else if key == "AllowReassociation"@ {
                        if allow is Some {
                            None
                        } else if lit_true_at(s, m) {
                            spec_eip_after(s, m + 4, alloc, Some(Some(true)), filters)
                        } else if lit_false_at(s, m) {
                            spec_eip_after(s, m + 5, alloc, Some(Some(false)), filters)
                        } else if lit_null_at(s, m) {
                            spec_eip_after(s, m + 4, alloc, Some(None), filters)
                        } else {
                            None
                        }
                    } else if key == "Filters"@ {
                        if filters is Some {
                            None
                        } else if lit_null_at(s, m) {
                            spec_eip_after(s, m + 4, alloc, allow, Some(None))
                        } else {
                            match spec_filters_at(s, m) {
                                None => None,
                                Some((fs, k)) => if i < k && k <= s.len() {
                                    spec_eip_after(s, k, alloc, allow, Some(Some(fs)))
                                } else {
                                    None
                                },
                            }
                        }
                    } else {
                        match spec_skip_value(s, m) {
                            None => None,
                            Some(k) => if i < k && k <= s.len() {
                                spec_eip_after(s, k, alloc, allow, filters)
                            } else {
                                None
                            },
                        }
                    }
                } else {
                    None
                }
            } else {
                None
            }
        },
    }
}

/// A whole Elastic-IP entry object at `i`. An empty object parses (and is
/// then rejected by validation, which demands exactly one of an allocation
/// identifier or filters).
pub open spec fn spec_eip_object_at(s: Seq<char>, i: int) -> Option<(EipActionView, int)> {
    if 0 <= i < s.len() && s[i] == '{' {
        let j = spec_ws(s, i + 1);
        if !(i < j <= s.len()) {
            None
        } else if j < s.len() && s[j] == '}' {
            Some(
                (
                    EipActionView {
                        allocation_id: None,
                        allow_reassociation: None,
                        filters: None,
                    },
                    j + 1,
                ),
            )
        } else {
            spec_eip_members(s, j, None, None, None)
        }
    } else {
        None
    }
}

/// One entry at `i`: a plain identifier-or-address string, or a structured
/// Elastic-IP entry object.
pub open spec fn spec_entry_at(s: Seq<char>, i: int) -> Option<(ActionView, int)> {
    if 0 <= i < s.len() && s[i] == '"' {
        match spec_string_at(s, i) {
            None => None,
            Some((t, j)) => match classify_token(t) {
                None => None,
                Some(a) => Some((a, j)),
            },
        }
    } else if 0 <= i < s.len() && s[i] == '{' {
        match spec_eip_object_at(s, i) {
            None => None,
            Some((e, j)) => Some((ActionView::Eip(e), j)),
        }
    } else {
        None
    }
}

/// The entries of a top-level array after its first element.
pub open spec fn spec_entries_rest(s: Seq<char>, i: int) -> Option<(Seq<ActionView>, int)>
    decreases s.len() - i,
{
    let j = spec_ws(s, i);
    if !(i <= j < s.len()) {
        None
    } else if s[j] == ']' {
        Some((Seq::empty(), j + 1))
    } else if s[j] == ',' {
        let m = spec_ws(s, j + 1);
        if i < m && m <= s.len() {
            match spec_entry_at(s, m) {
                None => None,
                Some((a, k)) => if i < k && k <= s.len() {
                    match spec_entries_rest(s, k) {
                        None => None,
                        Some((rest, p)) => Some((seq![a] + rest, p)),
                    }
                } else {
                    None
                },
            }
        } else {
            None
        }
    } else {
        None
    }
}

/// A whole top-level array of entries at `i`.
pub open spec fn spec_entries_at(s: Seq<char>, i: int) -> Option<(Seq<ActionView>, int)> {
    if 0 <= i < s.len() && s[i] == '[' {
        let j = spec_ws(s, i + 1);
        if !(i < j <= s.len()) {
            None
        } else if j < s.len() && s[j] == ']' {
            Some((Seq::empty(), j + 1))
        } else {
            match spec_entry_at(s, j) {
                None => None,
                Some((a, k)) => if i < k && k <= s.len() {
                    match spec_entries_rest(s, k) {
                        None => None,
                        Some((rest, p)) => Some((seq![a] + rest, p)),
                    }
                } else {
                    None
                },
            }
        }
    } else {
        None
    }
}

fn values_rest(s: &Vec<char>, i: usize) -> (r: Option<(Vec<String>, usize)>)
    requires
        i <= s.len(),
    ensures
        match (r, spec_values_rest(s@, i as int)) {
            (Some((v, j)), Some((gv, gj))) => v.deep_view() == gv && j == gj && i < j <= s.len(),
            (None, None) => true,
            _ => false,
        },
    decreases s.len() - i,
{
    let j = ws_exec(s, i);
    if j >= s.len() {
        None
    } else if s[j] == ']' {
        Some((Vec::new(), j + 1))
    } else if s[j] == ',' {
        let m = ws_exec(s, j + 1);
        match string_at(s, m) {
            None => None,
            Some((t, k)) => {
                match values_rest(s, k) {
                    None => None,
                    Some((rest, p)) => {
                        let ghost grest = rest.deep_view();
                        let mut v: Vec<String> = Vec::new();
                        v.push(string_from_chars(&t));
                        let mut rest = rest;
                        v.append(&mut rest);
                        proof {
                            assert(v.deep_view() =~= seq![t@] + grest);
                        }
                        Some((v, p))
                    },
                }
            },
        }
    } else {
        None
    }
}

fn values_at(s: &Vec<char>, i: usize) -> (r: Option<(Vec<String>, usize)>)
    requires
        i <= s.len(),
    ensures
        match (r, spec_values_at(s@, i as int)) {
            (Some((v, j)), Some((gv, gj))) => v.deep_view() == gv && j == gj && i < j <= s.len(),
            (None, None) => true,
            _ => false,
        },
{
    if i < s.len() && s[i] == '[' {
        let j = ws_exec(s, i + 1);
        if j < s.len() && s[j] == ']' {
            Some((Vec::new(), j + 1))
        } else {
            match string_at(s, j) {
                None => None,
                Some((t, k)) => {
                    match values_rest(s, k) {
                        None => None,
                        Some((rest, p)) => {
                            let ghost grest = rest.deep_view();
                            let mut v: Vec<String> = Vec::new();
                            v.push(string_from_chars(&t));
                            let mut rest = rest;
                            v.append(&mut rest);
                            proof {
                                assert(v.deep_view() =~= seq![t@] + grest);
                            }
                            Some((v, p))
                        },
                    }
                },
            }
        }
    } else {
        None
    }
}

fn filter_after(s: &Vec<char>, k: usize, name: Option<String>, values: Option<Vec<String>>) -> (r:
    Option<(Filter, usize)>)
    requires
        k <= s.len(),
    ensures
        match (r, spec_filter_after(s@, k as int, name.deep_view(), values.deep_view())) {
            (Some((f, j)), Some((gf, gj))) => f@ == gf && j == gj && k < j <= s.len(),
            (None, None) => true,
            _ => false,
        },
    decreases s.len() - k,
{
    let p = ws_exec(s, k);
    if p >= s.len() {
        None
    } else if s[p] == '}' {
        match (name, values) {
            (Some(n), Some(vs)) => Some((Filter { name: n, values: vs }, p + 1)),
            _ => None,
        }
    } else if s[p] == ',' {
        let q = ws_exec(s, p + 1);
        filter_members(s, q, name, values)
    } else {
        None
    }
}

fn filter_members(s: &Vec<char>, i: usize, name: Option<String>, values: Option<Vec<String>>) -> (r:
    Option<(Filter, usize)>)
    requires
        i <= s.len(),
    ensures
        match (r, spec_filter_members(s@, i as int, name.deep_view(), values.deep_view())) {
            (Some((f, j)), Some((gf, gj))) => f@ == gf && j == gj && i < j <= s.len(),
            (None, None) => true,
            _ => false,
        },
    decreases s.len() - i,
{
    match string_at(s, i) {
        None => None,
        Some((key, j2)) => {
            let p = ws_exec(s, j2);
            if p < s.len() && s[p] == ':' {
                let m = ws_exec(s, p + 1);
                let lit_name = chars_of_str("Name");
                let lit_values = chars_of_str("Values");
                if chars_equal(&key, &lit_name) {
                    if name.is_some() {
                        None
                    } else {
                        match string_at(s, m) {
                            None => None,
                            Some((t, k)) => filter_after(
                                s,
                                k,
                                Some(string_from_chars(&t)),
                                values,
                            ),
                        }
                    }
                } else if chars_equal(&key, &lit_values) {
                    if values.is_some() {
                        None
                    } else {
                        match values_at(s, m) {
                            None => None,
                            Some((vs, k)) => filter_after(s, k, name, Some(vs)),
                        }
                    }
                } else {
                    match skip_value(s, m) {
                        None => None,
                        Some(k) => filter_after(s, k, name, values),
                    }
                }
            } else {
                None
            }
        },
    }
}

fn filter_at(s: &Vec<char>, i: usize) -> (r: Option<(Filter, usize)>)
    requires
        i <= s.len(),
    ensures
        match (r, spec_filter_at(s@, i as int)) {
            (Some((f, j)), Some((gf, gj))) => f@ == gf && j == gj && i < j <= s.len(),
            (None, None) => true,
            _ => false,
        },
{
    if i < s.len() && s[i] == '{' {
        let j = ws_exec(s, i + 1);
        if j < s.len() && s[j] == '}' {
            None
        } else {
            filter_members(s, j, None, None)
        }
    } else {
        None
    }
}

fn filters_rest(s: &Vec<char>, i: usize) -> (r: Option<(Vec<Filter>, usize)>)
    requires
        i <= s.len(),
    ensures
        match (r, spec_filters_rest(s@, i as int)) {
            (Some((v, j)), Some((gv, gj))) => v.deep_view() == gv && j == gj && i < j <= s.len(),
            (None, None) => true,
            _ => false,
        },
    decreases s.len() - i,
{
    let j = ws_exec(s, i);
    if j >= s.len() {
        None
    } else if s[j] == ']' {
        Some((Vec::new(), j + 1))
    } else if s[j] == ',' {
        let m = ws_exec(s, j + 1);
        match filter_at(s, m) {
            None => None,
            Some((f, k)) => {
                match filters_rest(s, k) {
                    None => None,
                    Some((rest, p)) => {
                        let ghost gf = f@;
                        let ghost grest = rest.deep_view();
                        let mut v: Vec<Filter> = Vec::new();
                        v.push(f);
                        let mut rest = rest;
                        v.append(&mut rest);
                        proof {
                            assert(v.deep_view() =~= seq![gf] + grest);
                        }
                        Some((v, p))
                    },
                }
            },
        }
    } else {
        None
    }
}

fn filters_at(s: &Vec<char>, i: usize) -> (r: Option<(Vec<Filter>, usize)>)
    requires
        i <= s.len(),
    ensures
        match (r, spec_filters_at(s@, i as int)) {
            (Some((v, j)), Some((gv, gj))) => v.deep_view() == gv && j == gj && i < j <= s.len(),
            (None, None) => true,
            _ => false,
        },
{
    if i < s.len() && s[i] == '[' {
        let j = ws_exec(s, i + 1);
        if j < s.len() && s[j] == ']' {
            Some((Vec::new(), j + 1))
        } else {
            match filter_at(s, j) {
                None => None,
                Some((f, k)) => {
                    match filters_rest(s, k) {
                        None => None,
                        Some((rest, p)) => {
                            let ghost gf = f@;
                            let ghost grest = rest.deep_view();
                            let mut v: Vec<Filter> = Vec::new();
                            v.push(f);
                            let mut rest = rest;
                            v.append(&mut rest);
                            proof {
                                assert(v.deep_view() =~= seq![gf] + grest);
                            }
                            Some((v, p))
                        },
                    }
                },
            }
        }
    } else {
        None
    }
}

fn eip_after(
    s: &Vec<char>,
    k: usize,
    alloc: Option<Option<String>>,
    allow: Option<Option<bool>>,
    filters: Option<Option<Vec<Filter>>>,
) -> (r: Option<(EipAction, usize)>)
    requires
        k <= s.len(),
    ensures
        match (
            r,
            spec_eip_after(s@, k as int, alloc.deep_view(), allow.deep_view(), filters.deep_view()),
        ) {
            (Some((e, j)), Some((ge, gj))) => e@ == ge && j == gj && k < j <= s.len(),
            (None, None) => true,
            _ => false,
        },
    decreases s.len() - k,
{
    let p = ws_exec(s, k);
    if p >= s.len() {
        None
    } else if s[p] == '}' {
        let e = EipAction {
            allocation_id: match alloc {
                Some(x) => x,
                None => None,
            },
            allow_reassociation: match allow {
                Some(x) => x,
                None => None,
            },
            filters: match filters {
                Some(x) => x,
                None => None,
            },
        };
        Some((e, p + 1))
    } else if s[p] == ',' {
        let q = ws_exec(s, p + 1);
        eip_members(s, q, alloc, allow, filters)
    } else {
        None
    }
}

fn eip_members(
    s: &Vec<char>,
    i: usize,
    alloc: Option<Option<String>>,
    allow: Option<Option<bool>>,
    filters: Option<Option<Vec<Filter>>>,
) -> (r: Option<(EipAction, usize)>)
    requires
        i <= s.len(),
    ensures
        match (
            r,
            spec_eip_members(
                s@,
                i as int,
                alloc.deep_view(),
                allow.deep_view(),
                filters.deep_view(),
            ),
        ) {
            (Some((e, j)), Some((ge, gj))) => e@ == ge && j == gj && i < j <= s.len(),
            (None, None) => true,
            _ => false,
        },
    decreases s.len() - i,
{
    match string_at(s, i) {
        None => None,
        Some((key, j2)) => {
            let p = ws_exec(s, j2);
            if p < s.len() && s[p] == ':' {
                let m = ws_exec(s, p + 1);
                let lit_alloc = chars_of_str("AllocationId");
                let lit_allow = chars_of_str("AllowReassociation");
                let lit_filters = chars_of_str("Filters");
                if chars_equal(&key, &lit_alloc) {
                    if alloc.is_some() {
                        None
                    } else if check_null_at(s, m) {
                        eip_after(s, m + 4, Some(None), allow, filters)
                    } else {
                        match string_at(s, m) {
                            None => None,
                            Some((t, k)) => eip_after(
                                s,
                                k,
                                Some(Some(string_from_chars(&t))),
                                allow,
                                filters,
                            ),
                        }
                    }
                } else if chars_equal(&key, &lit_allow) {
                    if allow.is_some() {
                        None
                    } else if check_true_at(s, m) {
                        eip_after(s, m + 4, alloc, Some(Some(true)), filters)
                    } else if check_false_at(s, m) {
                        eip_after(s, m + 5, alloc, Some(Some(false)), filters)
                    } else if check_null_at(s, m) {
                        eip_after(s, m + 4, alloc, Some(None), filters)
                    } else {
                        None
                    }
                } else if chars_equal(&key, &lit_filters) {
                    if filters.is_some() {
                        None
                    } else if check_null_at(s, m) {
                        eip_after(s, m + 4, alloc, allow, Some(None))
                    } else {
                        match filters_at(s, m) {
                            None => None,
                            Some((fs, k)) => eip_after(s, k, alloc, allow, Some(Some(fs))),
                        }
                    }
                } else {
                    match skip_value(s, m) {
                        None => None,
                        Some(k) => eip_after(s, k, alloc, allow, filters),
                    }
                }
            } else {
                None
            }
        },
    }
}

fn eip_object_at(s: &Vec<char>, i: usize) -> (r: Option<(EipAction, usize)>)
    requires
        i <= s.len(),
    ensures
        match (r, spec_eip_object_at(s@, i as int)) {
            (Some((e, j)), Some((ge, gj))) => e@ == ge && j == gj && i < j <= s.len(),
            (None, None) => true,
            _ => false,
        },
{
    if i < s.len() && s[i] == '{' {
        let j = ws_exec(s, i + 1);
        if j < s.len() && s[j] == '}' {
            let e = EipAction { allocation_id: None, allow_reassociation: None, filters: None };
            Some((e, j + 1))
        } else {
            eip_members(s, j, None, None, None)
        }
    } else {
        None
    }
}

/// Reads one entry at `i`: a plain string token or a structured object.
pub fn entry_at(s: &Vec<char>, i: usize) -> (r: Option<(Action, usize)>)
    requires
        i <= s.len(),
    ensures
        match (r, spec_entry_at(s@, i as int)) {
            (Some((a, j)), Some((ga, gj))) => a@ == ga && j == gj && i < j <= s.len(),
            (None, None) => true,
            _ => false,
        },
{
    if i < s.len() && s[i] == '"' {
        match string_at(s, i) {
            None => None,
            Some((t, j)) => match classify_token_exec(&t) {
                None => None,
                Some(a) => Some((a, j)),
            },
        }
    } else if i < s.len() && s[i] == '{' {
        match eip_object_at(s, i) {
            None => None,
            Some((e, j)) => Some((Action::Eip(e), j)),
        }
    } else {
        None
    }
}

fn entries_rest(s: &Vec<char>, i: usize) -> (r: Option<(Vec<Action>, usize)>)
    requires
        i <= s.len(),
    ensures
        match (r, spec_entries_rest(s@, i as int)) {
            (Some((v, j)), Some((gv, gj))) => v.deep_view() == gv && j == gj && i < j <= s.len(),
            (None, None) => true,
            _ => false,
        },
    decreases s.len() - i,
{
    let j = ws_exec(s, i);
    if j >= s.len() {
        None
    } else if s[j] == ']' {
        Some((Vec::new(), j + 1))
    } else if s[j] == ',' {
        let m = ws_exec(s, j + 1);
        match entry_at(s, m) {
            None => None,
            Some((a, k)) => {
                match entries_rest(s, k) {
                    None => None,
                    Some((rest, p)) => {
                        let ghost ga = a@;
                        let ghost grest = rest.deep_view();
                        let mut v: Vec<Action> = Vec::new();
                        v.push(a);
                        let mut rest = rest;
                        v.append(&mut rest);
                        proof {
                            assert(v.deep_view() =~= seq![ga] + grest);
                        }
                        Some((v, p))
                    },
                }
            },
        }
    } else {
        None
    }
}

/// Reads a whole top-level array of entries at `i`.
pub fn entries_at(s: &Vec<char>, i: usize) -> (r: Option<(Vec<Action>, usize)>)
    requires
        i <= s.len(),
    ensures
        match (r, spec_entries_at(s@, i as int)) {
            (Some((v, j)), Some((gv, gj))) => v.deep_view() == gv && j == gj && i < j <= s.len(),
            (None, None) => true,
            _ => false,
        },
{
    if i < s.len() && s[i] == '[' {
        let j = ws_exec(s, i + 1);
        if j < s.len() && s[j] == ']' {
            Some((Vec::new(), j + 1))
        } else {
            match entry_at(s, j) {
                None => None,
                Some((a, k)) => {
                    match entries_rest(s, k) {
                        None => None,
                        Some((rest, p)) => {
                            let ghost ga = a@;
                            let ghost grest = rest.deep_view();
                            let mut v: Vec<Action> = Vec::new();
                            v.push(a);
                            let mut rest = rest;
                            v.append(&mut rest);
                            proof {
                                assert(v.deep_view() =~= seq![ga] + grest);
                            }
                            Some((v, p))
                        },
                    }
                },
            }
        }
    } else {
        None
    }
}

} // verus!

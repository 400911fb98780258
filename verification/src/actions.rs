//! The action model: typed network-address intents and their normalization
//! from the three accepted user-data shapes (bare token list, single object
//! entry, array of entries).

use vstd::prelude::*;
use crate::Error;
use crate::ip::{Ipv4, Ipv6, spec_parse_ipv4, spec_parse_ipv6, parse_ipv4, parse_ipv6};
use crate::json;
use crate::entries;
use crate::text::{chars_of_str, lit_at, matches_at, string_from_chars};
use vstd::string::StrSliceExecFns;

verus! {

/// One attribute filter passed verbatim to address discovery.
#[derive(Debug, Clone, PartialEq, Eq)]
pub struct Filter {
    pub name: String,
    pub values: Vec<String>,
}

/// An Elastic-IP intent: exactly one of an explicit allocation identifier or
/// a filter set (checked at validation time), and a reassociation flag that
/// defaults to true.
#[derive(Debug, Clone, PartialEq, Eq)]
pub struct EipAction {
    pub allocation_id: Option<String>,
    pub allow_reassociation: Option<bool>,
    pub filters: Option<Vec<Filter>>,
}

/// One network-address intent.
#[derive(Debug, Clone, PartialEq, Eq)]
pub enum Action {
    Eip(EipAction),
    Ipv4(Ipv4),
    Ipv6(Ipv6),
}

/// Mathematical model of a `Filter`.
pub struct FilterView {
    pub name: Seq<char>,
    pub values: Seq<Seq<char>>,
}

/// Mathematical model of an `EipAction`.
pub struct EipActionView {
    pub allocation_id: Option<Seq<char>>,
    pub allow_reassociation: Option<bool>,
    pub filters: Option<Seq<FilterView>>,
}

/// Mathematical model of an `Action`.
pub enum ActionView {
    Eip(EipActionView),
    Ipv4(Ipv4),
    Ipv6(Ipv6),
}

impl View for Filter {
    type V = FilterView;

    open spec fn view(&self) -> FilterView {
        FilterView { name: self.name@, values: self.values.deep_view() }
    }
}

impl DeepView for Filter {
    type V = FilterView;

    open spec fn deep_view(&self) -> FilterView {
        self.view()
    }
}

impl View for EipAction {
    type V = EipActionView;

    open spec fn view(&self) -> EipActionView {
        EipActionView {
            allocation_id: self.allocation_id.deep_view(),
            allow_reassociation: self.allow_reassociation,
            filters: match self.filters {
                Some(fs) => Some(fs.deep_view()),
                None => None,
            },
        }
    }
}

impl DeepView for EipAction {
    type V = EipActionView;

    open spec fn deep_view(&self) -> EipActionView {
        self.view()
    }
}

impl View for Action {
    type V = ActionView;

    open spec fn view(&self) -> ActionView {
        match self {
            Action::Eip(e) => ActionView::Eip(e@),
            Action::Ipv4(a) => ActionView::Ipv4(*a),
            Action::Ipv6(a) => ActionView::Ipv6(*a),
        }
    }
}

impl DeepView for Action {
    type V = ActionView;

    open spec fn deep_view(&self) -> ActionView {
        self.view()
    }
}

/// Whether `t` carries the `eipalloc-` prefix of an explicit allocation
/// identifier.
pub open spec fn has_eip_prefix(t: Seq<char>) -> bool {
    lit_at(t, 0, "eipalloc-"@)
}

/// How one bare token is read: an explicit allocation identifier, an IPv4
/// literal, or an IPv6 literal, tried in that order.
pub open spec fn classify_token(t: Seq<char>) -> Option<ActionView> {
    if has_eip_prefix(t) {
        Some(
            ActionView::Eip(
                EipActionView {
                    allocation_id: Some(t),
                    allow_reassociation: None,
                    filters: None,
                },
            ),
        )
    } else if spec_parse_ipv4(t) is Some {
        Some(ActionView::Ipv4(spec_parse_ipv4(t)->Some_0))
    } else if spec_parse_ipv6(t) is Some {
        Some(ActionView::Ipv6(spec_parse_ipv6(t)->Some_0))
    } else {
        None
    }
}

/// Reads one bare token.
pub fn classify_token_exec(t: &Vec<char>) -> (r: Option<Action>)
    ensures
        match (r, classify_token(t@)) {
            (Some(a), Some(g)) => a@ == g,
            (None, None) => true,
            _ => false,
        },
{
    let prefix = chars_of_str("eipalloc-");
    if matches_at(t, 0, &prefix) {
        Some(
            Action::Eip(
                EipAction {
                    allocation_id: Some(string_from_chars(t)),
                    allow_reassociation: None,
                    filters: None,
                },
            ),
        )
    } else if let Some(v4) = parse_ipv4(t) {
        Some(Action::Ipv4(v4))
    } else if let Some(v6) = parse_ipv6(t) {
        Some(Action::Ipv6(v6))
    } else {
        None
    }
}

/// First position at or after `i` holding a comma, or the end of `s`.
pub open spec fn find_comma(s: Seq<char>, i: int) -> int
    decreases s.len() - i,
{
    if 0 <= i < s.len() && s[i] != ',' {
        find_comma(s, i + 1)
    } else {
        i
    }
}

/// The actions denoted by the comma-separated tokens of `s[i..]`, or nothing
/// if some token is readable in none of the three ways.
pub open spec fn spec_comma_actions(s: Seq<char>, i: int) -> Option<Seq<ActionView>>
    decreases s.len() - i,
{
    let j = find_comma(s, i);
    if !(i <= j <= s.len()) {
        None
    } else {
        match classify_token(s.subrange(i, j)) {
            None => None,
            Some(a) => if j == s.len() {
                Some(seq![a])
            } else {
                match spec_comma_actions(s, j + 1) {
                    None => None,
                    Some(rest) => Some(seq![a] + rest),
                }
            },
        }
    }
}

fn find_comma_exec(s: &Vec<char>, i: usize) -> (j: usize)
    requires
        i <= s.len(),
    ensures
        j == find_comma(s@, i as int),
        i <= j <= s.len(),
{
    let mut j = i;
    while j < s.len() && s[j] != ','
        invariant
            i <= j <= s.len(),
            find_comma(s@, i as int) == find_comma(s@, j as int),
        decreases s.len() - j,
    {
        j = j + 1;
    }
    j
}

fn comma_actions(s: &Vec<char>, i: usize) -> (r: Option<Vec<Action>>)
    requires
        i <= s.len(),
    ensures
        match (r, spec_comma_actions(s@, i as int)) {
            (Some(v), Some(g)) => v.deep_view() == g,
            (None, None) => true,
            _ => false,
        },
    decreases s.len() - i,
{
    let j = find_comma_exec(s, i);
    let mut tok: Vec<char> = Vec::new();
    let mut m = i;
    while m < j
        invariant
            i <= m <= j <= s.len(),
            tok@ == s@.subrange(i as int, m as int),
        decreases j - m,
    {
        tok.push(s[m]);
        m = m + 1;
        proof {
            assert(tok@ =~= s@.subrange(i as int, m as int));
        }
    }
    match classify_token_exec(&tok) {
        None => None,
        Some(a) => {
            if j == s.len() {
                let mut v: Vec<Action> = Vec::new();
                v.push(a);
                proof {
                    assert(v.deep_view() =~= seq![a@]);
                }
                Some(v)
            } else {
                match comma_actions(s, j + 1) {
                    None => None,
                    Some(mut rest) => {
                        let ghost grest = rest.deep_view();
                        let mut v: Vec<Action> = Vec::new();
                        v.push(a);
                        v.append(&mut rest);
                        proof {
                            assert(v.deep_view() =~= seq![a@] + grest);
                        }
                        Some(v)
                    },
                }
            }
        },
    }
}

/// The validation failure of one Elastic-IP entry, if any: both or neither
/// of an allocation identifier and filters is ambiguous; an explicit
/// identifier without the `eipalloc-` prefix is invalid.
pub open spec fn eip_problem(e: EipActionView) -> Option<Error> {
    if e.allocation_id is Some && e.filters is Some {
        Some(Error::AmbiguousEipSpec)
    } else if e.allocation_id is None && e.filters is None {
        Some(Error::AmbiguousEipSpec)
    } else if e.allocation_id is Some && !has_eip_prefix(e.allocation_id->Some_0) {
        Some(Error::InvalidIdentifier)
    } else {
        None
    }
}

/// The first validation failure among `acts`, scanning in order.
pub open spec fn first_problem(acts: Seq<ActionView>) -> Option<Error>
    decreases acts.len(),
{
    if acts.len() == 0 {
        None
    } else {
        match acts[0] {
            ActionView::Eip(e) => match eip_problem(e) {
                Some(err) => Some(err),
                None => first_problem(acts.drop_first()),
            },
            _ => first_problem(acts.drop_first()),
        }
    }
}

/// In a batch that validation passed, every Elastic-IP entry is free of
/// validation problems.
pub proof fn lemma_valid_at(acts: Seq<ActionView>, i: int)
    requires
        first_problem(acts) is None,
        0 <= i < acts.len(),
    ensures
        (acts[i] matches ActionView::Eip(e) ==> eip_problem(e) is None),
    decreases acts.len(),
{
    if i > 0 {
        lemma_valid_at(acts.drop_first(), i - 1);
        assert(acts.drop_first()[i - 1] == acts[i]);
    }
}

fn eip_problem_exec(e: &EipAction) -> (r: Option<Error>)
    ensures
        r == eip_problem(e@),
{
    if e.allocation_id.is_some() && e.filters.is_some() {
        Some(Error::AmbiguousEipSpec)
    } else if e.allocation_id.is_none() && e.filters.is_none() {
        Some(Error::AmbiguousEipSpec)
    } else if e.allocation_id.is_some() {
        let id = e.allocation_id.as_ref().unwrap();
        let idc = chars_of_str(id.as_str());
        let prefix = chars_of_str("eipalloc-");
        if !matches_at(&idc, 0, &prefix) {
            Some(Error::InvalidIdentifier)
        } else {
            None
        }
    } else {
        None
    }
}

/// Scans the whole batch and reports the first invalid Elastic-IP entry.
pub fn validate(actions: &Vec<Action>) -> (r: Option<Error>)
    ensures
        r == first_problem(actions.deep_view()),
{
    proof {
        assert(actions.deep_view().subrange(0, actions@.len() as int) =~= actions.deep_view());
    }
    let mut i: usize = 0;
    while i < actions.len()
        invariant
            i <= actions.len(),
            first_problem(actions.deep_view()) == first_problem(
                actions.deep_view().subrange(i as int, actions@.len() as int),
            ),
        decreases actions.len() - i,
    {
        let ghost pre = actions.deep_view().subrange(i as int, actions@.len() as int);
        let problem = match &actions[i] {
            Action::Eip(e) => eip_problem_exec(e),
            _ => None,
        };
        proof {
            assert(pre[0] == actions.deep_view()[i as int]);
            assert(pre.drop_first() =~= actions.deep_view().subrange(
                i as int + 1,
                actions@.len() as int,
            ));
        }
        if let Some(err) = problem {
            return Some(err);
        }
        i = i + 1;
    }
    proof {
        assert(actions.deep_view().subrange(actions@.len() as int, actions@.len() as int)
            =~= Seq::<ActionView>::empty());
    }
    None
}

/// How raw user-data is normalized into a batch of actions: an array of
/// entries if it starts (after whitespace) with '[', a single object entry if
/// it starts with '{', otherwise a comma-separated token list.
pub open spec fn spec_normalize(s: Seq<char>) -> Option<Seq<ActionView>> {
    let t = json::spec_ws(s, 0);
    if 0 <= t < s.len() && s[t] == '[' {
        match entries::spec_entries_at(s, t) {
            Some((acts, j)) => if json::spec_ws(s, j) == s.len() {
                Some(acts)
            } else {
                None
            },
            None => None,
        }
    } else if 0 <= t < s.len() && s[t] == '{' {
        match entries::spec_entry_at(s, t) {
            Some((a, j)) => if json::spec_ws(s, j) == s.len() {
                Some(seq![a])
            } else {
                None
            },
            None => None,
        }
    } else {
        spec_comma_actions(s, 0)
    }
}

/// What parsing the raw user-data yields: the normalized batch when every
/// entry is well-formed and valid, otherwise the first error — a malformed
/// input, an ambiguous Elastic-IP entry, or an invalid explicit identifier.
pub open spec fn spec_parse_user_data(s: Seq<char>) -> Result<Seq<ActionView>, Error> {
    match spec_normalize(s) {
        None => Err(Error::MalformedInput),
        Some(acts) => match first_problem(acts) {
            Some(e) => Err(e),
            None => Ok(acts),
        },
    }
}

/// Parses and validates raw user-data into the batch of actions to execute.
/// No action is produced unless the whole batch is well-formed and valid.
pub fn parse_user_data(raw: &str) -> (r: Result<Vec<Action>, Error>)
    ensures
        match (r, spec_parse_user_data(raw@)) {
            (Ok(v), Ok(g)) => v.deep_view() == g,
            (Err(e), Err(ge)) => e == ge,
            _ => false,
        },
{
    let s = chars_of_str(raw);
    let t = json::ws_exec(&s, 0);
    let normalized: Option<Vec<Action>> = if t < s.len() && s[t] == '[' {
        match entries::entries_at(&s, t) {
            Some((acts, j)) => {
                if json::ws_exec(&s, j) == s.len() {
                    Some(acts)
                } else {
                    None
                }
            },
            None => None,
        }
    } else if t < s.len() && s[t] == '{' {
        match entries::entry_at(&s, t) {
            Some((a, j)) => {
                if json::ws_exec(&s, j) == s.len() {
                    let mut v: Vec<Action> = Vec::new();
                    let ghost ga = a@;
                    v.push(a);
                    proof {
                        assert(v.deep_view() =~= seq![ga]);
                    }
                    Some(v)
                } else {
                    None
                }
            },
            None => None,
        }
    } else {
        comma_actions(&s, 0)
    };
    match normalized {
        None => Err(Error::MalformedInput),
        Some(acts) => {
            match validate(&acts) {
                Some(e) => Err(e),
                None => Ok(acts),
            }
        },
    }
}

} // verus!

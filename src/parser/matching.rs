//! What matching a grammar against an input yields, stated as spec functions.
//!
//! Positions are character offsets into the input `s`. Matching never looks
//! at the input before the position it starts from.
use vstd::prelude::*;

use crate::components::items::{nullable, RegexComponent};
use crate::components::regex::Regex;
use crate::parser::ParseError;

verus! {

/// What one component, or one pass over a grammar, consumed at a position.
///
/// `len` counts the characters consumed (0: no match there); `toks` are the
/// tokens handed to the enclosing level; `split` says whether a nested group
/// produced some of them, in which case a repetition keeps its pieces apart
/// instead of merging them into one token.
pub struct Munch {
    pub len: nat,
    pub split: bool,
    pub toks: Seq<Seq<char>>,
}

/// No match: nothing consumed, no token.
pub open spec fn nothing() -> Munch {
    Munch { len: 0, split: false, toks: seq![] }
}

/// Two results one after the other.
pub open spec fn join(a: Munch, b: Munch) -> Munch {
    Munch { len: a.len + b.len, split: a.split || b.split, toks: a.toks + b.toks }
}

/// `a` followed by the pass `o`, when `o` succeeded.
pub open spec fn prefixed(a: Munch, o: Option<Munch>) -> Option<Munch> {
    match o {
        Some(m) => Some(join(a, m)),
        None => None,
    }
}

/// The tokens `t` followed by the walk `o`, when `o` succeeded.
pub open spec fn after_tokens(t: Seq<Seq<char>>, o: Option<(int, Seq<Seq<char>>)>) -> Option<
    (int, Seq<Seq<char>>),
> {
    match o {
        Some((e, u)) => Some((e, t + u)),
        None => None,
    }
}

/// Whether the non-empty text `t` stands in `s` at `pos`.
pub open spec fn text_at(s: Seq<char>, pos: int, t: Seq<char>) -> bool {
    &&& 0 < t.len()
    &&& 0 <= pos
    &&& pos + t.len() <= s.len()
    &&& s.subrange(pos, pos + t.len()) == t
}

/// A text component: its own text as one token, or no match.
pub open spec fn match_text(s: Seq<char>, pos: int, t: Seq<char>) -> Munch {
    if text_at(s, pos, t) {
        Munch { len: t.len(), split: false, toks: seq![t] }
    } else {
        nothing()
    }
}

/// The result of a composite component that consumed `m` from `pos`: the
/// tokens of its nested groups where there are any, else everything it
/// consumed as a single token.
pub open spec fn settle(s: Seq<char>, pos: int, m: Munch) -> Munch {
    if m.len == 0 {
        nothing()
    } else if m.split {
        m
    } else {
        Munch { len: m.len, split: false, toks: seq![s.subrange(pos, pos + m.len)] }
    }
}

/// Matches component `c` against `s` starting exactly at `pos`.
pub open spec fn match_component(s: Seq<char>, pos: int, c: RegexComponent) -> Munch
    decreases c, 0int,
{
    match c {
        RegexComponent::Literal(t) => match_text(s, pos, t@),
        RegexComponent::Keyword(t) => match_text(s, pos, t@),
        RegexComponent::Operator(t) => match_text(s, pos, t@),
        RegexComponent::Identifier(t) => match_text(s, pos, t@),
        RegexComponent::ZeroOrMore(r) => settle(s, pos, repeat(s, pos, r)),
        RegexComponent::OneOrMore(r) => settle(s, pos, repeat(s, pos, r)),
        RegexComponent::ZeroOrOne(r) => optional(s, pos, r),
        RegexComponent::Or(a, b) => {
            let left = optional(s, pos, a);
            if left.len > 0 {
                left
            } else {
                optional(s, pos, b)
            }
        },
        RegexComponent::SubRegex(r) => match tokenize(s, pos, r.components@, 0) {
            Some((e, t)) => if e > pos {
                Munch { len: (e - pos) as nat, split: true, toks: t }
            } else {
                nothing()
            },
            None => nothing(),
        },
    }
}

/// At most one pass over `r`: the pass if it succeeds, else no match.
pub open spec fn optional(s: Seq<char>, pos: int, r: Regex) -> Munch
    decreases r, 0int,
{
    match pass(s, pos, r.components@, 0) {
        Some(p) => settle(s, pos, p),
        None => nothing(),
    }
}

/// One pass over the components `g[i..]` from `pos`: each of them must
/// consume at least one character, else the pass fails (`None`).
pub open spec fn pass(s: Seq<char>, pos: int, g: Seq<RegexComponent>, i: int) -> Option<Munch>
    decreases g, g.len() - i,
{
    if i < 0 || i >= g.len() {
        Some(nothing())
    } else {
        let m = match_component(s, pos, g[i]);
        if m.len == 0 {
            None
        } else {
            match pass(s, pos + m.len, g, i + 1) {
                Some(rest) => Some(join(m, rest)),
                None => None,
            }
        }
    }
}

/// Passes over `r` from `pos`, as many as succeed in a row; a pass that
/// consumes nothing ends the repetition.
pub open spec fn repeat(s: Seq<char>, pos: int, r: Regex) -> Munch
    decreases r, s.len() - pos,
{
    match pass(s, pos, r.components@, 0) {
        Some(p) => if p.len > 0 && pos + p.len <= s.len() {
            join(p, repeat(s, pos + p.len, r))
        } else {
            nothing()
        },
        None => nothing(),
    }
}

/// Walks the components `g[i..]` from `pos`. A component that matches nothing
/// is skipped when nullable and fails the walk otherwise. On success, the
/// position where the walk ended and the tokens in order.
pub open spec fn tokenize(s: Seq<char>, pos: int, g: Seq<RegexComponent>, i: int) -> Option<
    (int, Seq<Seq<char>>),
>
    decreases g, g.len() - i,
{
    if i < 0 || i >= g.len() {
        Some((pos, seq![]))
    } else {
        let m = match_component(s, pos, g[i]);
        if m.len == 0 {
            if nullable(g[i]) {
                tokenize(s, pos, g, i + 1)
            } else {
                None
            }
        } else {
            match tokenize(s, pos + m.len, g, i + 1) {
                Some((e, t)) => Some((e, m.toks + t)),
                None => None,
            }
        }
    }
}

/// The tokens of `r` when it consumes the whole of `s`.
pub open spec fn full_match(s: Seq<char>, r: Regex) -> Option<Seq<Seq<char>>> {
    match tokenize(s, 0, r.components@, 0) {
        Some((e, t)) => if e == s.len() {
            Some(t)
        } else {
            None
        },
        None => None,
    }
}

/// The verdict over the candidates `regs` on `s`: the tokens of the one
/// candidate that matches all of `s`; `NoMatch` when none does;
/// `AmbiguousMatch` when two or more do.
pub open spec fn select(s: Seq<char>, regs: Seq<Regex>) -> Result<Seq<Seq<char>>, ParseError>
    decreases regs.len(),
{
    if regs.len() == 0 {
        Err(ParseError::NoMatch)
    } else {
        let before = select(s, regs.drop_last());
        match full_match(s, regs.last()) {
            None => before,
            Some(t) => match before {
                Err(ParseError::NoMatch) => Ok(t),
                _ => Err(ParseError::AmbiguousMatch),
            },
        }
    }
}

/// Joining is associative.
pub proof fn lemma_join_assoc(a: Munch, b: Munch, c: Munch)
    ensures
        join(a, join(b, c)) == join(join(a, b), c),
{
    assert(a.toks + (b.toks + c.toks) =~= (a.toks + b.toks) + c.toks);
}

/// Joining in two steps: `a`, then `b`, then the pass `o`.
pub proof fn lemma_prefixed_twice(a: Munch, b: Munch, o: Option<Munch>)
    ensures
        prefixed(a, prefixed(b, o)) == prefixed(join(a, b), o),
{
    if let Some(m) = o {
        lemma_join_assoc(a, b, m);
    }
}

/// Adding tokens in two steps: `t`, then `u`, then the walk `o`.
pub proof fn lemma_after_tokens_twice(
    t: Seq<Seq<char>>,
    u: Seq<Seq<char>>,
    o: Option<(int, Seq<Seq<char>>)>,
)
    ensures
        after_tokens(t, after_tokens(u, o)) == after_tokens(t + u, o),
{
    if let Some((e, w)) = o {
        assert(t + (u + w) =~= (t + u) + w);
    }
}

/// A component that consumes nothing yields no token and no group.
pub proof fn lemma_no_match_no_tokens(s: Seq<char>, pos: int, c: RegexComponent)
    ensures
        match_component(s, pos, c).len == 0 ==> match_component(s, pos, c) == nothing(),
{
}

} // verus!

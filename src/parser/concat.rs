//! Matching two grammars one after the other.
//!
//! Three facts lead there: matching never reads past the text it consumes,
//! unless that text is followed by a character its grammar could use;
//! matching at an offset into `a + b` past `a` is matching in `b`; and a walk
//! over `g1 + g2` is a walk over `g1` followed by one over `g2`.
use vstd::prelude::*;

use crate::components::items::{any_mentions, mentions, RegexComponent};
use crate::components::regex::Regex;
use crate::parser::matching::{
    after_tokens, full_match, lemma_after_tokens_twice, match_component, match_text, optional,
    pass, repeat, settle, text_at, tokenize, Munch,
};
use crate::parser::properties::{lemma_component_bound, lemma_pass_bound, lemma_repeat_bound};

verus! {

// ---- What follows the consumed text is not read --------------------------

proof fn lemma_text_prefix(a: Seq<char>, b: Seq<char>, pos: int, t: Seq<char>)
    requires
        0 <= pos <= a.len(),
        b.len() > 0,
        !t.contains(b[0]),
    ensures
        match_text(a + b, pos, t) == match_text(a, pos, t),
{
    let s = a + b;
    if pos + t.len() <= a.len() {
        assert(s.subrange(pos, pos + t.len()) =~= a.subrange(pos, pos + t.len()));
    } else if text_at(s, pos, t) {
        let k = a.len() - pos;
        assert(s.subrange(pos, pos + t.len())[k] == s[a.len() as int]);
        assert(t[k] == b[0]);
    }
}

proof fn lemma_settle_prefix(a: Seq<char>, b: Seq<char>, pos: int, m: Munch)
    requires
        0 <= pos,
        pos + m.len <= a.len(),
    ensures
        settle(a + b, pos, m) == settle(a, pos, m),
{
    assert((a + b).subrange(pos, pos + m.len) =~= a.subrange(pos, pos + m.len));
}

proof fn lemma_component_prefix(a: Seq<char>, b: Seq<char>, pos: int, c: RegexComponent)
    requires
        0 <= pos <= a.len(),
        b.len() > 0,
        !mentions(c, b[0]),
    ensures
        match_component(a + b, pos, c) == match_component(a, pos, c),
    decreases c, 0int,
{
    match c {
        RegexComponent::Literal(t) => lemma_text_prefix(a, b, pos, t@),
        RegexComponent::Keyword(t) => lemma_text_prefix(a, b, pos, t@),
        RegexComponent::Operator(t) => lemma_text_prefix(a, b, pos, t@),
        RegexComponent::Identifier(t) => lemma_text_prefix(a, b, pos, t@),
        RegexComponent::ZeroOrMore(r) => {
            lemma_repeat_prefix(a, b, pos, r);
            lemma_repeat_bound(a, pos, r);
            lemma_settle_prefix(a, b, pos, repeat(a, pos, r));
        },
        RegexComponent::OneOrMore(r) => {
            lemma_repeat_prefix(a, b, pos, r);
            lemma_repeat_bound(a, pos, r);
            lemma_settle_prefix(a, b, pos, repeat(a, pos, r));
        },
        RegexComponent::ZeroOrOne(r) => lemma_optional_prefix(a, b, pos, r),
        RegexComponent::Or(x, y) => {
            lemma_optional_prefix(a, b, pos, x);
            lemma_optional_prefix(a, b, pos, y);
        },
        RegexComponent::SubRegex(r) => lemma_tokenize_prefix(a, b, pos, r.components@, 0),
    }
}

proof fn lemma_optional_prefix(a: Seq<char>, b: Seq<char>, pos: int, r: Regex)
    requires
        0 <= pos <= a.len(),
        b.len() > 0,
        !any_mentions(r.components@, 0, b[0]),
    ensures
        optional(a + b, pos, r) == optional(a, pos, r),
    decreases r, 0int,
{
    lemma_pass_prefix(a, b, pos, r.components@, 0);
    lemma_pass_bound(a, pos, r.components@, 0);
    if let Some(p) = pass(a, pos, r.components@, 0) {
        lemma_settle_prefix(a, b, pos, p);
    }
}

proof fn lemma_pass_prefix(a: Seq<char>, b: Seq<char>, pos: int, g: Seq<RegexComponent>, i: int)
    requires
        0 <= pos <= a.len(),
        b.len() > 0,
        !any_mentions(g, i, b[0]),
    ensures
        pass(a + b, pos, g, i) == pass(a, pos, g, i),
    decreases g, g.len() - i,
{
    if 0 <= i < g.len() {
        lemma_component_prefix(a, b, pos, g[i]);
        lemma_component_bound(a, pos, g[i]);
        let m = match_component(a, pos, g[i]);
        if m.len > 0 {
            lemma_pass_prefix(a, b, pos + m.len, g, i + 1);
        }
    }
}

proof fn lemma_repeat_prefix(a: Seq<char>, b: Seq<char>, pos: int, r: Regex)
    requires
        0 <= pos <= a.len(),
        b.len() > 0,
        !any_mentions(r.components@, 0, b[0]),
    ensures
        repeat(a + b, pos, r) == repeat(a, pos, r),
    decreases r, a.len() - pos,
{
    lemma_pass_prefix(a, b, pos, r.components@, 0);
    lemma_pass_bound(a, pos, r.components@, 0);
    if let Some(p) = pass(a, pos, r.components@, 0) {
        if p.len > 0 {
            lemma_repeat_prefix(a, b, pos + p.len, r);
        }
    }
}

proof fn lemma_tokenize_prefix(
    a: Seq<char>,
    b: Seq<char>,
    pos: int,
    g: Seq<RegexComponent>,
    i: int,
)
    requires
        0 <= pos <= a.len(),
        b.len() > 0,
        !any_mentions(g, i, b[0]),
    ensures
        tokenize(a + b, pos, g, i) == tokenize(a, pos, g, i),
    decreases g, g.len() - i,
{
    if 0 <= i < g.len() {
        lemma_component_prefix(a, b, pos, g[i]);
        lemma_component_bound(a, pos, g[i]);
        let m = match_component(a, pos, g[i]);
        lemma_tokenize_prefix(a, b, pos + m.len, g, i + 1);
    }
}

// ---- Matching past a prefix ----------------------------------------------

/// A walk moved `k` characters to the right.
pub open spec fn shifted(o: Option<(int, Seq<Seq<char>>)>, k: int) -> Option<
    (int, Seq<Seq<char>>),
> {
    match o {
        Some((e, t)) => Some((e + k, t)),
        None => None,
    }
}

proof fn lemma_text_shift(a: Seq<char>, b: Seq<char>, pos: int, t: Seq<char>)
    requires
        0 <= pos <= b.len(),
    ensures
        match_text(a + b, a.len() + pos, t) == match_text(b, pos, t),
{
    if pos + t.len() <= b.len() {
        assert((a + b).subrange(a.len() + pos, a.len() + pos + t.len()) =~= b.subrange(
            pos,
            pos + t.len(),
        ));
    }
}

proof fn lemma_settle_shift(a: Seq<char>, b: Seq<char>, pos: int, m: Munch)
    requires
        0 <= pos,
        pos + m.len <= b.len(),
    ensures
        settle(a + b, a.len() + pos, m) == settle(b, pos, m),
{
    assert((a + b).subrange(a.len() + pos, a.len() + pos + m.len) =~= b.subrange(
        pos,
        pos + m.len,
    ));
}

proof fn lemma_component_shift(a: Seq<char>, b: Seq<char>, pos: int, c: RegexComponent)
    requires
        0 <= pos <= b.len(),
    ensures
        match_component(a + b, a.len() + pos, c) == match_component(b, pos, c),
    decreases c, 0int,
{
    match c {
        RegexComponent::Literal(t) => lemma_text_shift(a, b, pos, t@),
        RegexComponent::Keyword(t) => lemma_text_shift(a, b, pos, t@),
        RegexComponent::Operator(t) => lemma_text_shift(a, b, pos, t@),
        RegexComponent::Identifier(t) => lemma_text_shift(a, b, pos, t@),
        RegexComponent::ZeroOrMore(r) => {
            lemma_repeat_shift(a, b, pos, r);
            lemma_repeat_bound(b, pos, r);
            lemma_settle_shift(a, b, pos, repeat(b, pos, r));
        },
        RegexComponent::OneOrMore(r) => {
            lemma_repeat_shift(a, b, pos, r);
            lemma_repeat_bound(b, pos, r);
            lemma_settle_shift(a, b, pos, repeat(b, pos, r));
        },
        RegexComponent::ZeroOrOne(r) => lemma_optional_shift(a, b, pos, r),
        RegexComponent::Or(x, y) => {
            lemma_optional_shift(a, b, pos, x);
            lemma_optional_shift(a, b, pos, y);
        },
        RegexComponent::SubRegex(r) => lemma_tokenize_shift(a, b, pos, r.components@, 0),
    }
}

proof fn lemma_optional_shift(a: Seq<char>, b: Seq<char>, pos: int, r: Regex)
    requires
        0 <= pos <= b.len(),
    ensures
        optional(a + b, a.len() + pos, r) == optional(b, pos, r),
    decreases r, 0int,
{
    lemma_pass_shift(a, b, pos, r.components@, 0);
    lemma_pass_bound(b, pos, r.components@, 0);
    if let Some(p) = pass(b, pos, r.components@, 0) {
        lemma_settle_shift(a, b, pos, p);
    }
}

proof fn lemma_pass_shift(a: Seq<char>, b: Seq<char>, pos: int, g: Seq<RegexComponent>, i: int)
    requires
        0 <= pos <= b.len(),
    ensures
        pass(a + b, a.len() + pos, g, i) == pass(b, pos, g, i),
    decreases g, g.len() - i,
{
    if 0 <= i < g.len() {
        lemma_component_shift(a, b, pos, g[i]);
        lemma_component_bound(b, pos, g[i]);
        let m = match_component(b, pos, g[i]);
        if m.len > 0 {
            lemma_pass_shift(a, b, pos + m.len, g, i + 1);
            assert(a.len() + pos + m.len == a.len() + (pos + m.len));
        }
    }
}

proof fn lemma_repeat_shift(a: Seq<char>, b: Seq<char>, pos: int, r: Regex)
    requires
        0 <= pos <= b.len(),
    ensures
        repeat(a + b, a.len() + pos, r) == repeat(b, pos, r),
    decreases r, b.len() - pos,
{
    lemma_pass_shift(a, b, pos, r.components@, 0);
    lemma_pass_bound(b, pos, r.components@, 0);
    if let Some(p) = pass(b, pos, r.components@, 0) {
        if p.len > 0 {
            lemma_repeat_shift(a, b, pos + p.len, r);
            assert(a.len() + pos + p.len == a.len() + (pos + p.len));
        }
    }
}

proof fn lemma_tokenize_shift(
    a: Seq<char>,
    b: Seq<char>,
    pos: int,
    g: Seq<RegexComponent>,
    i: int,
)
    requires
        0 <= pos <= b.len(),
    ensures
        tokenize(a + b, a.len() + pos, g, i) == shifted(tokenize(b, pos, g, i), a.len() as int),
    decreases g, g.len() - i,
{
    if 0 <= i < g.len() {
        lemma_component_shift(a, b, pos, g[i]);
        lemma_component_bound(b, pos, g[i]);
        let m = match_component(b, pos, g[i]);
        lemma_tokenize_shift(a, b, pos + m.len, g, i + 1);
        assert(a.len() + pos + m.len == a.len() + (pos + m.len));
    }
}

// ---- Walking two grammars in a row ---------------------------------------

proof fn lemma_tokenize_tail(
    s: Seq<char>,
    pos: int,
    g1: Seq<RegexComponent>,
    g2: Seq<RegexComponent>,
    k: int,
)
    requires
        0 <= k,
    ensures
        tokenize(s, pos, g1 + g2, g1.len() + k) == tokenize(s, pos, g2, k),
    decreases g2.len() - k,
{
    if k < g2.len() {
        let g = g1 + g2;
        assert(g[g1.len() + k] == g2[k]);
        let m = match_component(s, pos, g2[k]);
        lemma_tokenize_tail(s, pos, g1, g2, k + 1);
        lemma_tokenize_tail(s, pos + m.len, g1, g2, k + 1);
        assert(g1.len() + k + 1 == g1.len() + (k + 1));
    }
}

proof fn lemma_tokenize_concat(
    s: Seq<char>,
    pos: int,
    g1: Seq<RegexComponent>,
    g2: Seq<RegexComponent>,
    i: int,
)
    requires
        0 <= i <= g1.len(),
    ensures
        tokenize(s, pos, g1 + g2, i) == match tokenize(s, pos, g1, i) {
            Some((e, t)) => after_tokens(t, tokenize(s, e, g2, 0)),
            None => None,
        },
    decreases g1.len() - i,
{
    if i == g1.len() {
        lemma_tokenize_tail(s, pos, g1, g2, 0);
        if let Some((e, u)) = tokenize(s, pos, g2, 0) {
            assert(Seq::<Seq<char>>::empty() + u =~= u);
        }
    } else {
        let g = g1 + g2;
        assert(g[i] == g1[i]);
        let m = match_component(s, pos, g1[i]);
        lemma_tokenize_concat(s, pos, g1, g2, i + 1);
        lemma_tokenize_concat(s, pos + m.len, g1, g2, i + 1);
        if let Some((e, t)) = tokenize(s, pos + m.len, g1, i + 1) {
            lemma_after_tokens_twice(m.toks, t, tokenize(s, e, g2, 0));
        }
    }
}

// ---- What a match starts with --------------------------------------------

proof fn lemma_component_first(s: Seq<char>, pos: int, c: RegexComponent)
    requires
        0 <= pos < s.len(),
        match_component(s, pos, c).len > 0,
    ensures
        mentions(c, s[pos]),
    decreases c, 0int,
{
    match c {
        RegexComponent::Literal(t) => assert(t@[0] == s[pos]),
        RegexComponent::Keyword(t) => assert(t@[0] == s[pos]),
        RegexComponent::Operator(t) => assert(t@[0] == s[pos]),
        RegexComponent::Identifier(t) => assert(t@[0] == s[pos]),
        RegexComponent::ZeroOrMore(r) => lemma_repeat_first(s, pos, r),
        RegexComponent::OneOrMore(r) => lemma_repeat_first(s, pos, r),
        RegexComponent::ZeroOrOne(r) => lemma_optional_first(s, pos, r),
        RegexComponent::Or(x, y) => {
            if optional(s, pos, x).len > 0 {
                lemma_optional_first(s, pos, x);
            } else {
                lemma_optional_first(s, pos, y);
            }
        },
        RegexComponent::SubRegex(r) => lemma_tokenize_first(s, pos, r.components@, 0),
    }
}

proof fn lemma_optional_first(s: Seq<char>, pos: int, r: Regex)
    requires
        0 <= pos < s.len(),
        optional(s, pos, r).len > 0,
    ensures
        any_mentions(r.components@, 0, s[pos]),
    decreases r, 0int,
{
    lemma_pass_first(s, pos, r.components@, 0);
}

proof fn lemma_pass_first(s: Seq<char>, pos: int, g: Seq<RegexComponent>, i: int)
    requires
        0 <= pos < s.len(),
    ensures
        pass(s, pos, g, i) matches Some(p) && p.len > 0 ==> any_mentions(g, i, s[pos]),
    decreases g, g.len() - i,
{
    if 0 <= i < g.len() && match_component(s, pos, g[i]).len > 0 {
        lemma_component_first(s, pos, g[i]);
    }
}

proof fn lemma_repeat_first(s: Seq<char>, pos: int, r: Regex)
    requires
        0 <= pos < s.len(),
        repeat(s, pos, r).len > 0,
    ensures
        any_mentions(r.components@, 0, s[pos]),
    decreases r, 0int,
{
    lemma_pass_first(s, pos, r.components@, 0);
}

proof fn lemma_tokenize_first(s: Seq<char>, pos: int, g: Seq<RegexComponent>, i: int)
    requires
        0 <= pos < s.len(),
    ensures
        tokenize(s, pos, g, i) matches Some((e, t)) && e > pos ==> any_mentions(g, i, s[pos]),
    decreases g, g.len() - i,
{
    if 0 <= i < g.len() {
        let m = match_component(s, pos, g[i]);
        if m.len == 0 {
            lemma_tokenize_first(s, pos, g, i + 1);
        } else {
            lemma_component_first(s, pos, g[i]);
        }
    }
}

// ---- The law ---------------------------------------------------------------

/// Concatenating grammars with disjoint vocabularies concatenates their
/// matches: when `ga` matches all of `a`, `gb` matches all of `b`, and no
/// character occurs both in a text of `ga` and in a text of `gb`, the grammar
/// of `ga`'s components followed by `gb`'s matches all of `a + b`, with the
/// tokens of `ga` on `a` followed by those of `gb` on `b`.
pub proof fn lemma_concat_full_match(a: Seq<char>, b: Seq<char>, ga: Regex, gb: Regex, g: Regex)
    requires
        g.components@ == ga.components@ + gb.components@,
        full_match(a, ga) is Some,
        full_match(b, gb) is Some,
        forall|ch: char|
            any_mentions(ga.components@, 0, ch) ==> !#[trigger] any_mentions(
                gb.components@,
                0,
                ch,
            ),
    ensures
        full_match(a + b, g) == Some(full_match(a, ga)->0 + full_match(b, gb)->0),
{
    let s = a + b;
    let (ga_s, gb_s) = (ga.components@, gb.components@);
    if b.len() == 0 {
        assert(s =~= a);
    } else {
        lemma_tokenize_first(b, 0, gb_s, 0);
        lemma_tokenize_prefix(a, b, 0, ga_s, 0);
    }
    lemma_tokenize_shift(a, b, 0, gb_s, 0);
    lemma_tokenize_concat(s, 0, ga_s, gb_s, 0);
}

} // verus!

//! Facts about matching: how far it reaches, and the laws that parsers obey.
use vstd::prelude::*;

use crate::components::items::RegexComponent;
use crate::components::regex::Regex;
use crate::parser::matching::{
    full_match, join, match_component, nothing, optional, pass, repeat, select, settle, tokenize,
    Munch,
};
use crate::parser::naive_parser::NaiveParser;
use crate::parser::text::{lemma_trimmed_idempotent, trimmed};
use crate::parser::{ParseError, Parser};

verus! {

/// A component never consumes past the end of the input.
pub proof fn lemma_component_bound(s: Seq<char>, pos: int, c: RegexComponent)
    requires
        0 <= pos <= s.len(),
    ensures
        pos + match_component(s, pos, c).len <= s.len(),
    decreases c, 0int,
{
    match c {
        RegexComponent::ZeroOrMore(r) => lemma_repeat_bound(s, pos, r),
        RegexComponent::OneOrMore(r) => lemma_repeat_bound(s, pos, r),
        RegexComponent::ZeroOrOne(r) => lemma_optional_bound(s, pos, r),
        RegexComponent::Or(a, b) => {
            lemma_optional_bound(s, pos, a);
            lemma_optional_bound(s, pos, b);
        },
        RegexComponent::SubRegex(r) => lemma_tokenize_bound(s, pos, r.components@, 0),
        _ => {},
    }
}

/// An optional pass never consumes past the end of the input.
pub proof fn lemma_optional_bound(s: Seq<char>, pos: int, r: Regex)
    requires
        0 <= pos <= s.len(),
    ensures
        pos + optional(s, pos, r).len <= s.len(),
    decreases r, 0int,
{
    lemma_pass_bound(s, pos, r.components@, 0);
}

/// A pass never consumes past the end of the input.
pub proof fn lemma_pass_bound(s: Seq<char>, pos: int, g: Seq<RegexComponent>, i: int)
    requires
        0 <= pos <= s.len(),
    ensures
        pass(s, pos, g, i) matches Some(p) ==> pos + p.len <= s.len(),
    decreases g, g.len() - i,
{
    if 0 <= i < g.len() {
        let m = match_component(s, pos, g[i]);
        lemma_component_bound(s, pos, g[i]);
        if m.len > 0 {
            lemma_pass_bound(s, pos + m.len, g, i + 1);
        }
    }
}

/// A repetition never consumes past the end of the input.
pub proof fn lemma_repeat_bound(s: Seq<char>, pos: int, r: Regex)
    requires
        0 <= pos <= s.len(),
    ensures
        pos + repeat(s, pos, r).len <= s.len(),
    decreases r, s.len() - pos,
{
    if let Some(p) = pass(s, pos, r.components@, 0) {
        if p.len > 0 && pos + p.len <= s.len() {
            lemma_repeat_bound(s, pos + p.len, r);
        }
    }
}

/// A walk over a grammar ends between its start and the end of the input.
pub proof fn lemma_tokenize_bound(s: Seq<char>, pos: int, g: Seq<RegexComponent>, i: int)
    requires
        0 <= pos <= s.len(),
    ensures
        tokenize(s, pos, g, i) matches Some((e, t)) ==> pos <= e <= s.len(),
    decreases g, g.len() - i,
{
    if 0 <= i < g.len() {
        let m = match_component(s, pos, g[i]);
        lemma_component_bound(s, pos, g[i]);
        lemma_tokenize_bound(s, pos + m.len, g, i + 1);
    }
}

/// The tokens of `m`, consumed from `pos`, are exactly the consumed text.
pub open spec fn covers(s: Seq<char>, pos: int, m: Munch) -> bool {
    m.toks.flatten() == s.subrange(pos, pos + m.len)
}

proof fn lemma_nothing_covers(s: Seq<char>, pos: int)
    requires
        0 <= pos <= s.len(),
    ensures
        covers(s, pos, nothing()),
{
    assert(s.subrange(pos, pos) =~= Seq::<char>::empty());
}

proof fn lemma_single_covers(s: Seq<char>, pos: int, len: nat)
    requires
        0 <= pos,
        pos + len <= s.len(),
    ensures
        seq![s.subrange(pos, pos + len)].flatten() == s.subrange(pos, pos + len),
{
    seq![s.subrange(pos, pos + len)].lemma_flatten_one_element();
}

proof fn lemma_join_covers(s: Seq<char>, pos: int, a: Munch, b: Munch)
    requires
        0 <= pos,
        pos + a.len + b.len <= s.len(),
        covers(s, pos, a),
        covers(s, pos + a.len, b),
    ensures
        covers(s, pos, join(a, b)),
{
    vstd::seq_lib::lemma_flatten_concat(a.toks, b.toks);
    assert(s.subrange(pos, pos + a.len) + s.subrange(pos + a.len, pos + a.len + b.len)
        =~= s.subrange(pos, pos + a.len + b.len));
}

proof fn lemma_settle_covers(s: Seq<char>, pos: int, m: Munch)
    requires
        0 <= pos,
        pos + m.len <= s.len(),
        covers(s, pos, m),
    ensures
        covers(s, pos, settle(s, pos, m)),
{
    if m.len == 0 {
        lemma_nothing_covers(s, pos);
    } else if !m.split {
        lemma_single_covers(s, pos, m.len);
    }
}

/// The tokens of a component are exactly the text it consumed.
pub proof fn lemma_component_covers(s: Seq<char>, pos: int, c: RegexComponent)
    requires
        0 <= pos <= s.len(),
    ensures
        covers(s, pos, match_component(s, pos, c)),
    decreases c, 0int,
{
    lemma_nothing_covers(s, pos);
    lemma_component_bound(s, pos, c);
    match c {
        RegexComponent::ZeroOrMore(r) => {
            lemma_repeat_covers(s, pos, r);
            lemma_repeat_bound(s, pos, r);
            lemma_settle_covers(s, pos, repeat(s, pos, r));
        },
        RegexComponent::OneOrMore(r) => {
            lemma_repeat_covers(s, pos, r);
            lemma_repeat_bound(s, pos, r);
            lemma_settle_covers(s, pos, repeat(s, pos, r));
        },
        RegexComponent::ZeroOrOne(r) => lemma_optional_covers(s, pos, r),
        RegexComponent::Or(a, b) => {
            lemma_optional_covers(s, pos, a);
            lemma_optional_covers(s, pos, b);
        },
        RegexComponent::SubRegex(r) => {
            lemma_tokenize_covers(s, pos, r.components@, 0);
            lemma_tokenize_bound(s, pos, r.components@, 0);
        },
        _ => {
            let m = match_component(s, pos, c);
            if m.len > 0 {
                lemma_single_covers(s, pos, m.len);
            }
        },
    }
}

proof fn lemma_optional_covers(s: Seq<char>, pos: int, r: Regex)
    requires
        0 <= pos <= s.len(),
    ensures
        covers(s, pos, optional(s, pos, r)),
    decreases r, 0int,
{
    lemma_nothing_covers(s, pos);
    lemma_pass_covers(s, pos, r.components@, 0);
    lemma_pass_bound(s, pos, r.components@, 0);
    if let Some(p) = pass(s, pos, r.components@, 0) {
        lemma_settle_covers(s, pos, p);
    }
}

proof fn lemma_pass_covers(s: Seq<char>, pos: int, g: Seq<RegexComponent>, i: int)
    requires
        0 <= pos <= s.len(),
    ensures
        pass(s, pos, g, i) matches Some(p) ==> covers(s, pos, p),
    decreases g, g.len() - i,
{
    lemma_nothing_covers(s, pos);
    if 0 <= i < g.len() {
        let m = match_component(s, pos, g[i]);
        lemma_component_covers(s, pos, g[i]);
        lemma_component_bound(s, pos, g[i]);
        if m.len > 0 {
            lemma_pass_covers(s, pos + m.len, g, i + 1);
            lemma_pass_bound(s, pos + m.len, g, i + 1);
            if let Some(rest) = pass(s, pos + m.len, g, i + 1) {
                lemma_join_covers(s, pos, m, rest);
            }
        }
    }
}

proof fn lemma_repeat_covers(s: Seq<char>, pos: int, r: Regex)
    requires
        0 <= pos <= s.len(),
    ensures
        covers(s, pos, repeat(s, pos, r)),
    decreases r, s.len() - pos,
{
    lemma_nothing_covers(s, pos);
    lemma_pass_covers(s, pos, r.components@, 0);
    if let Some(p) = pass(s, pos, r.components@, 0) {
        if p.len > 0 && pos + p.len <= s.len() {
            lemma_repeat_covers(s, pos + p.len, r);
            lemma_repeat_bound(s, pos + p.len, r);
            lemma_join_covers(s, pos, p, repeat(s, pos + p.len, r));
        }
    }
}

/// The tokens of a walk are exactly the text from its start to its end.
pub proof fn lemma_tokenize_covers(s: Seq<char>, pos: int, g: Seq<RegexComponent>, i: int)
    requires
        0 <= pos <= s.len(),
    ensures
        tokenize(s, pos, g, i) matches Some((e, t)) ==> t.flatten() == s.subrange(pos, e),
    decreases g, g.len() - i,
{
    lemma_nothing_covers(s, pos);
    if 0 <= i < g.len() {
        let m = match_component(s, pos, g[i]);
        lemma_component_covers(s, pos, g[i]);
        lemma_component_bound(s, pos, g[i]);
        lemma_tokenize_covers(s, pos + m.len, g, i + 1);
        lemma_tokenize_bound(s, pos + m.len, g, i + 1);
        if let Some((e, t)) = tokenize(s, pos + m.len, g, i + 1) {
            vstd::seq_lib::lemma_flatten_concat(m.toks, t);
            assert(s.subrange(pos, pos + m.len) + s.subrange(pos + m.len, e) =~= s.subrange(
                pos,
                e,
            ));
        }
    }
}

/// A successful verdict gives the tokens of one of the candidates.
proof fn lemma_select_ok(s: Seq<char>, regs: Seq<Regex>)
    ensures
        select(s, regs) matches Ok(t) ==> exists|k: int|
            0 <= k < regs.len() && #[trigger] full_match(s, regs[k]) == Some(t),
    decreases regs.len(),
{
    if regs.len() > 0 {
        lemma_select_ok(s, regs.drop_last());
        if select(s, regs) is Ok && full_match(s, regs.last()) is None {
            let k = choose|k: int|
                0 <= k < regs.drop_last().len() && #[trigger] full_match(s, regs.drop_last()[k])
                    == Some(select(s, regs)->Ok_0);
            assert(regs[k] == regs.drop_last()[k]);
        }
    }
}

/// The tokens of a successful parse, put end to end, are the input without
/// its outer white space: they neither overlap nor leave gaps.
pub proof fn lemma_parse_tokens_cover_input(p: NaiveParser, s: Seq<char>)
    ensures
        p.outcome(s) matches Ok(t) ==> t.flatten() == trimmed(s),
{
    let ts = trimmed(s);
    lemma_select_ok(ts, p@);
    if let Ok(t) = p.outcome(s) {
        let k = choose|k: int| 0 <= k < p@.len() && #[trigger] full_match(ts, p@[k]) == Some(t);
        lemma_tokenize_covers(ts, 0, p@[k].components@, 0);
        assert(ts.subrange(0, ts.len() as int) =~= ts);
    }
}

/// When some candidate matches all of `s`, the verdict is not `NoMatch`.
proof fn lemma_select_found(s: Seq<char>, regs: Seq<Regex>, k: int)
    requires
        0 <= k < regs.len(),
        full_match(s, regs[k]) is Some,
    ensures
        select(s, regs) != Err::<Seq<Seq<char>>, ParseError>(ParseError::NoMatch),
    decreases regs.len(),
{
    if k < regs.len() - 1 {
        lemma_select_found(s, regs.drop_last(), k);
    }
}

/// Two distinct candidates that both match all of `s` make the verdict
/// `AmbiguousMatch`.
pub proof fn lemma_select_ambiguous(s: Seq<char>, regs: Seq<Regex>, i: int, j: int)
    requires
        0 <= i < j < regs.len(),
        full_match(s, regs[i]) is Some,
        full_match(s, regs[j]) is Some,
    ensures
        select(s, regs) == Err::<Seq<Seq<char>>, ParseError>(ParseError::AmbiguousMatch),
    decreases regs.len(),
{
    if j < regs.len() - 1 {
        lemma_select_ambiguous(s, regs.drop_last(), i, j);
    } else {
        lemma_select_found(s, regs.drop_last(), i);
    }
}

/// When exactly one candidate matches all of `s`, the verdict is its tokens.
pub proof fn lemma_select_unique(s: Seq<char>, regs: Seq<Regex>, k: int)
    requires
        0 <= k < regs.len(),
        full_match(s, regs[k]) is Some,
        forall|j: int| 0 <= j < regs.len() && j != k ==> #[trigger] full_match(s, regs[j]) is None,
    ensures
        select(s, regs) == Ok::<Seq<Seq<char>>, ParseError>(full_match(s, regs[k])->0),
    decreases regs.len(),
{
    let before = regs.drop_last();
    if k < regs.len() - 1 {
        assert forall|j: int| 0 <= j < before.len() && j != k implies #[trigger] full_match(
            s,
            before[j],
        ) is None by {
            assert(before[j] == regs[j]);
        }
        lemma_select_unique(s, before, k);
        assert(full_match(s, regs[regs.len() - 1]) is None);
    } else {
        lemma_select_none(s, before);
    }
}

/// With no candidate matching all of `s`, the verdict is `NoMatch`.
proof fn lemma_select_none(s: Seq<char>, regs: Seq<Regex>)
    requires
        forall|j: int| 0 <= j < regs.len() ==> #[trigger] full_match(s, regs[j]) is None,
    ensures
        select(s, regs) == Err::<Seq<Seq<char>>, ParseError>(ParseError::NoMatch),
    decreases regs.len(),
{
    if regs.len() > 0 {
        let before = regs.drop_last();
        assert forall|j: int| 0 <= j < before.len() implies #[trigger] full_match(
            s,
            before[j],
        ) is None by {
            assert(before[j] == regs[j]);
        }
        lemma_select_none(s, before);
        assert(full_match(s, regs[regs.len() - 1]) is None);
    }
}

/// Trimming the input first changes nothing: a parse sees the input without
/// its outer white space either way.
pub proof fn lemma_parse_trim_idempotent(p: NaiveParser, s: Seq<char>)
    ensures
        p.outcome(s) == p.outcome(trimmed(s)),
{
    lemma_trimmed_idempotent(s);
}

/// A parser with no grammar matches nothing.
pub proof fn lemma_parse_empty_registry(p: NaiveParser, s: Seq<char>)
    requires
        p@.len() == 0,
    ensures
        p.outcome(s) == Err::<Seq<Seq<char>>, ParseError>(ParseError::NoMatch),
{
}

/// Two different registered grammars that both match the whole (trimmed)
/// input make the parse fail with `AmbiguousMatch`; neither is picked.
pub proof fn lemma_parse_ambiguous(p: NaiveParser, s: Seq<char>, i: int, j: int)
    requires
        0 <= i < p@.len(),
        0 <= j < p@.len(),
        i != j,
        full_match(trimmed(s), p@[i]) is Some,
        full_match(trimmed(s), p@[j]) is Some,
    ensures
        p.outcome(s) == Err::<Seq<Seq<char>>, ParseError>(ParseError::AmbiguousMatch),
{
    if i < j {
        lemma_select_ambiguous(trimmed(s), p@, i, j);
    } else {
        lemma_select_ambiguous(trimmed(s), p@, j, i);
    }
}

/// A grammar made of one zero-or-more repetition matches the empty input,
/// with no token.
pub proof fn lemma_star_matches_empty(g: Regex, x: Regex)
    requires
        g.components@ == seq![RegexComponent::ZeroOrMore(x)],
    ensures
        full_match(Seq::<char>::empty(), g) == Some(Seq::<Seq<char>>::empty()),
{
    let s = Seq::<char>::empty();
    lemma_repeat_bound(s, 0, x);
    assert(match_component(s, 0, RegexComponent::ZeroOrMore(x)).len == 0);
    assert(tokenize(s, 0, g.components@, 1) == Some((0int, Seq::<Seq<char>>::empty())));
}

/// A parser whose only grammar is one zero-or-more repetition accepts an
/// input made of white space alone, with no token.
pub proof fn lemma_parse_star_empty(p: NaiveParser, g: Regex, x: Regex, s: Seq<char>)
    requires
        p@ == seq![g],
        g.components@ == seq![RegexComponent::ZeroOrMore(x)],
        trimmed(s).len() == 0,
    ensures
        p.outcome(s) == Ok::<Seq<Seq<char>>, ParseError>(Seq::<Seq<char>>::empty()),
{
    lemma_star_matches_empty(g, x);
    let t = trimmed(s);
    assert(t =~= Seq::<char>::empty());
    assert(p@.drop_last() =~= Seq::<Regex>::empty());
    assert(select(t, p@.drop_last()) == Err::<Seq<Seq<char>>, ParseError>(ParseError::NoMatch));
    assert(full_match(t, p@.last()) == Some(Seq::<Seq<char>>::empty()));
}

} // verus!

use vstd::prelude::*;

use crate::components::regex::Regex;

verus! {

/// One matchable unit of a grammar.
///
/// The four text variants match their text exactly and differ only in the
/// classification they carry; the others combine nested grammars.
#[derive(Debug)]
pub enum RegexComponent {
    Literal(String),
    Keyword(String),
    Operator(String),
    Identifier(String),
    ZeroOrMore(Regex),
    OneOrMore(Regex),
    ZeroOrOne(Regex),
    Or(Regex, Regex),
    SubRegex(Regex),
}

/// Whether a component may be skipped when it matches nothing.
///
/// Repetitions of zero or more and optional parts are always nullable; text,
/// one-or-more repetitions and alternations never are; a group is nullable
/// when each of its components is.
pub open spec fn nullable(c: RegexComponent) -> bool
    decreases c, 0int,
{
    match c {
        RegexComponent::ZeroOrMore(_) => true,
        RegexComponent::ZeroOrOne(_) => true,
        RegexComponent::SubRegex(r) => all_nullable(r.components@, 0),
        _ => false,
    }
}

/// Whether every component of `g` from index `i` on is nullable.
pub open spec fn all_nullable(g: Seq<RegexComponent>, i: int) -> bool
    decreases g, g.len() - i,
{
    if i < 0 || i >= g.len() {
        true
    } else {
        nullable(g[i]) && all_nullable(g, i + 1)
    }
}

/// Whether the character `ch` occurs in some text of component `c`, nested
/// grammars included.
pub open spec fn mentions(c: RegexComponent, ch: char) -> bool
    decreases c, 0int,
{
    match c {
        RegexComponent::Literal(t) => t@.contains(ch),
        RegexComponent::Keyword(t) => t@.contains(ch),
        RegexComponent::Operator(t) => t@.contains(ch),
        RegexComponent::Identifier(t) => t@.contains(ch),
        RegexComponent::ZeroOrMore(r) => any_mentions(r.components@, 0, ch),
        RegexComponent::OneOrMore(r) => any_mentions(r.components@, 0, ch),
        RegexComponent::ZeroOrOne(r) => any_mentions(r.components@, 0, ch),
        RegexComponent::Or(a, b) => any_mentions(a.components@, 0, ch) || any_mentions(
            b.components@,
            0,
            ch,
        ),
        RegexComponent::SubRegex(r) => any_mentions(r.components@, 0, ch),
    }
}

/// Whether the character `ch` occurs in some text of the components `g[i..]`.
pub open spec fn any_mentions(g: Seq<RegexComponent>, i: int, ch: char) -> bool
    decreases g, g.len() - i,
{
    if i < 0 || i >= g.len() {
        false
    } else {
        mentions(g[i], ch) || any_mentions(g, i + 1, ch)
    }
}

impl Clone for RegexComponent {
    fn clone(&self) -> Self
        decreases self,
    {
        match self {
            RegexComponent::Literal(s) => RegexComponent::Literal(s.clone()),
            RegexComponent::Keyword(s) => RegexComponent::Keyword(s.clone()),
            RegexComponent::Operator(s) => RegexComponent::Operator(s.clone()),
            RegexComponent::Identifier(s) => RegexComponent::Identifier(s.clone()),
            RegexComponent::ZeroOrMore(r) => RegexComponent::ZeroOrMore(r.clone()),
            RegexComponent::OneOrMore(r) => RegexComponent::OneOrMore(r.clone()),
            RegexComponent::ZeroOrOne(r) => RegexComponent::ZeroOrOne(r.clone()),
            RegexComponent::Or(a, b) => RegexComponent::Or(a.clone(), b.clone()),
            RegexComponent::SubRegex(r) => RegexComponent::SubRegex(r.clone()),
        }
    }
}

impl RegexComponent {
    /// Whether this component may match zero characters and be skipped.
    pub fn is_nullable(&self) -> (r: bool)
        ensures
            r == nullable(*self),
        decreases self,
    {
        match self {
            RegexComponent::Literal(_) => false,
            RegexComponent::Keyword(_) => false,
            RegexComponent::Operator(_) => false,
            RegexComponent::Identifier(_) => false,
            RegexComponent::ZeroOrMore(_) => true,
            RegexComponent::OneOrMore(_) => false,
            RegexComponent::ZeroOrOne(_) => true,
            RegexComponent::Or(_, _) => false,
            RegexComponent::SubRegex(regex) => {
                let mut i: usize = 0;
                while i < regex.components.len()
                    invariant
                        *self == RegexComponent::SubRegex(*regex),
                        i <= regex.components@.len(),
                        all_nullable(regex.components@, 0) == all_nullable(regex.components@, i as int),
                    decreases regex.components@.len() - i,
                {
                    proof {
                        assert(decreases_to!(*self => (*self)->SubRegex_0));
                        assert(decreases_to!(*regex => regex.components));
                        assert(decreases_to!(regex.components => regex.components[i as int]));
                    }
                    if !regex.components[i].is_nullable() {
                        return false;
                    }
                    i += 1;
                }
                true
            },
        }
    }
}

} // verus!

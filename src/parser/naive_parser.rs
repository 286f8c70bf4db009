//! A parser that tries every candidate grammar against the whole input.
use vstd::prelude::*;
use vstd::string::StrSliceExecFns;

use crate::components::items::RegexComponent;
use crate::components::regex::Regex;
use crate::parser::matching::{
    after_tokens, join, lemma_after_tokens_twice, lemma_join_assoc, lemma_no_match_no_tokens,
    lemma_prefixed_twice, match_component, match_text, nothing, optional, pass, prefixed, repeat,
    select, settle, tokenize, Munch,
};
use crate::parser::text::{trim_white_space, trimmed};
use crate::parser::{texts, ParseError, Parser};

verus! {

/// Simple parser that brute-forces the input against every grammar it holds.
///
/// Good for small languages with few grammars and short inputs: matching
/// backtracks and may take time exponential in the size of the grammar.
pub struct NaiveParser {
    /// The candidate grammars, in the order they were registered.
    regexes: Vec<Regex>,
}

impl View for NaiveParser {
    type V = Seq<Regex>;

    closed spec fn view(&self) -> Seq<Regex> {
        self.regexes@
    }
}

/// The characters `from..to` of `input`, as a new string.
fn slice_of(input: &str, from: usize, to: usize) -> (r: String)
    requires
        from <= to <= input@.len(),
    ensures
        r@ == input@.subrange(from as int, to as int),
{
    input.substring_char(from, to).to_owned()
}

impl NaiveParser {
    /// A parser with no grammar.
    pub fn new() -> (r: NaiveParser)
        ensures
            r@ == Seq::<Regex>::empty(),
    {
        NaiveParser { regexes: Vec::new() }
    }

    /// A parser holding `regexes`, in that order.
    pub fn with_regexes(regexes: Vec<Regex>) -> (r: NaiveParser)
        ensures
            r@ == regexes@,
    {
        NaiveParser { regexes }
    }

    /// Registers `regex` after the others and returns its index.
    pub fn add_regex(&mut self, regex: Regex) -> (r: usize)
        ensures
            final(self)@ == old(self)@.push(regex),
            r == old(self)@.len(),
    {
        self.regexes.push(regex);
        self.regexes.len() - 1
    }

    /// The registered grammars, in order.
    pub fn get_regexes(&self) -> (r: &Vec<Regex>)
        ensures
            r@ == self@,
    {
        &self.regexes
    }

    /// Removes the grammar at `index`; those after it move down by one.
    pub fn remove_regex_with_index(&mut self, index: usize)
        requires
            index < old(self)@.len(),
        ensures
            final(self)@ == old(self)@.remove(index as int),
    {
        self.regexes.remove(index);
    }

    /// Matches the text `value` at `input_idx`, pushing it as a token on success.
    fn match_text_here(
        input: &str,
        n: usize,
        input_idx: usize,
        value: &String,
        result: &mut Vec<String>,
        alarm: &mut bool,
    ) -> (r: usize)
        requires
            n == input@.len(),
            input_idx <= n,
        ensures
            ({
                let m = match_text(input@, input_idx as int, value@);
                &&& r == m.len
                &&& *final(alarm) == m.split
                &&& final(result).deep_view() == old(result).deep_view() + m.toks
            }),
            input_idx + r <= n,
    {
        *alarm = false;
        let len = value.as_str().unicode_len();
        if len == 0 || len > n - input_idx {
            return 0;
        }
        let word = slice_of(input, input_idx, input_idx + len);
        if !(word == *value) {
            return 0;
        }
        let ghost before = result.deep_view();
        result.push(word);
        assert(result.deep_view() =~= before + seq![value@]);
        len
    }

    /// Appends what a composite component consumed from `input_idx`: the
    /// pieces in `pieces` when a nested group produced some of them, else the
    /// consumed text as one token.
    fn settle_into(
        input: &str,
        n: usize,
        input_idx: usize,
        len: usize,
        split: bool,
        pieces: &mut Vec<String>,
        result: &mut Vec<String>,
        alarm: &mut bool,
    )
        requires
            n == input@.len(),
            input_idx + len <= n,
        ensures
            ({
                let m = settle(
                    input@,
                    input_idx as int,
                    Munch { len: len as nat, split, toks: old(pieces).deep_view() },
                );
                &&& *final(alarm) == m.split
                &&& final(result).deep_view() == old(result).deep_view() + m.toks
            }),
    {
        let ghost before = result.deep_view();
        if len == 0 {
            *alarm = false;
            assert(result.deep_view() =~= before + seq![]);
        } else if split {
            let ghost p = pieces.deep_view();
            result.append(pieces);
            *alarm = true;
            assert(result.deep_view() =~= before + p);
        } else {
            let word = slice_of(input, input_idx, input_idx + len);
            result.push(word);
            *alarm = false;
            assert(result.deep_view() =~= before + seq![input@.subrange(input_idx as int, input_idx + len)]);
        }
    }

    /// One pass over the components of `regex` from `input_idx`: `None` as
    /// soon as one of them consumes nothing.
    fn one_pass(
        input: &str,
        n: usize,
        input_idx: usize,
        regex: &Regex,
        out: &mut Vec<String>,
        split: &mut bool,
    ) -> (r: Option<usize>)
        requires
            n == input@.len(),
            input_idx <= n,
            old(out).deep_view() == Seq::<Seq<char>>::empty(),
        ensures
            match pass(input@, input_idx as int, regex.components@, 0) {
                Some(p) => {
                    &&& r == Some(p.len as usize)
                    &&& input_idx + p.len <= n
                    &&& *final(split) == p.split
                    &&& final(out).deep_view() == p.toks
                },
                None => r is None,
            },
        decreases regex, 0int,
    {
        let ghost s = input@;
        let ghost g = regex.components@;
        let mut idx = input_idx;
        let mut i: usize = 0;
        *split = false;
        let ghost mut acc = nothing();
        assert(out.deep_view() =~= acc.toks);
        while i < regex.components.len()
            invariant
                n == input@.len(),
                s == input@,
                g == regex.components@,
                input_idx <= idx <= n,
                i <= g.len(),
                acc.len == idx - input_idx,
                acc.split == *split,
                out.deep_view() == acc.toks,
                pass(s, input_idx as int, g, 0) == prefixed(acc, pass(s, idx as int, g, i as int)),
            decreases g.len() - i,
        {
            let mut alarm = false;
            proof {
                assert(decreases_to!(regex.components => regex.components[i as int]));
            }
            let temp = Self::matches(input, n, idx, &regex.components[i], out, &mut alarm);
            let ghost m = match_component(s, idx as int, g[i as int]);
            if temp == 0 {
                return None;
            }
            proof {
                lemma_prefixed_twice(acc, m, pass(s, idx + temp, g, i + 1));
                acc = join(acc, m);
            }
            *split = *split || alarm;
            idx += temp;
            i += 1;
        }
        assert(acc.toks + nothing().toks =~= acc.toks);
        Some(idx - input_idx)
    }

    /// At most one pass over `regex` (optional parts and each branch of an
    /// alternation).
    fn optional_pass(
        input: &str,
        n: usize,
        input_idx: usize,
        regex: &Regex,
        result: &mut Vec<String>,
        alarm: &mut bool,
    ) -> (r: usize)
        requires
            n == input@.len(),
            input_idx <= n,
        ensures
            ({
                let m = optional(input@, input_idx as int, *regex);
                &&& r == m.len
                &&& *final(alarm) == m.split
                &&& final(result).deep_view() == old(result).deep_view() + m.toks
            }),
            input_idx + r <= n,
        decreases regex, 1int,
    {
        let mut pieces: Vec<String> = Vec::new();
        let mut split = false;
        assert(pieces.deep_view() =~= Seq::<Seq<char>>::empty());
        match Self::one_pass(input, n, input_idx, regex, &mut pieces, &mut split) {
            Some(len) => {
                Self::settle_into(input, n, input_idx, len, split, &mut pieces, result, alarm);
                len
            },
            None => {
                *alarm = false;
                assert(result.deep_view() =~= old(result).deep_view() + nothing().toks);
                0
            },
        }
    }

    /// Passes over `regex` for as long as they succeed and consume something.
    fn repetition(
        input: &str,
        n: usize,
        input_idx: usize,
        regex: &Regex,
        result: &mut Vec<String>,
        alarm: &mut bool,
    ) -> (r: usize)
        requires
            n == input@.len(),
            input_idx <= n,
        ensures
            ({
                let m = settle(input@, input_idx as int, repeat(input@, input_idx as int, *regex));
                &&& r == m.len
                &&& *final(alarm) == m.split
                &&& final(result).deep_view() == old(result).deep_view() + m.toks
            }),
            input_idx + r <= n,
        decreases regex, 1int,
    {
        let ghost s = input@;
        let mut idx = input_idx;
        let mut split = false;
        let mut pieces: Vec<String> = Vec::new();
        let ghost mut acc = nothing();
        assert(pieces.deep_view() =~= acc.toks);
        loop
            invariant
                n == input@.len(),
                s == input@,
                input_idx <= idx <= n,
                acc.len == idx - input_idx,
                acc.split == split,
                pieces.deep_view() == acc.toks,
                repeat(s, input_idx as int, *regex) == join(acc, repeat(s, idx as int, *regex)),
            ensures
                repeat(s, idx as int, *regex) == nothing(),
            decreases n - idx,
        {
            let mut one: Vec<String> = Vec::new();
            let mut one_split = false;
            assert(one.deep_view() =~= Seq::<Seq<char>>::empty());
            let step = Self::one_pass(input, n, idx, regex, &mut one, &mut one_split);
            match step {
                Some(len) if len > 0 => {
                    let ghost p = pass(s, idx as int, regex.components@, 0)->Some_0;
                    proof {
                        lemma_join_assoc(
                            acc,
                            p,
                            repeat(s, idx + len, *regex),
                        );
                        acc = join(acc, p);
                    }
                    let ghost before = pieces.deep_view();
                    pieces.append(&mut one);
                    assert(pieces.deep_view() =~= before + p.toks);
                    split = split || one_split;
                    idx += len;
                },
                _ => {
                    break;
                },
            }
        }
        assert(join(acc, nothing()) == acc) by {
            assert(acc.toks + nothing().toks =~= acc.toks);
        }
        let len = idx - input_idx;
        Self::settle_into(input, n, input_idx, len, split, &mut pieces, result, alarm);
        len
    }

    /// Matches one component at `input_idx`: returns how many characters it
    /// consumed (0: no match there), appends the tokens it hands to the
    /// enclosing level, and sets `alarm` when a nested group produced them.
    fn matches(
        input: &str,
        n: usize,
        input_idx: usize,
        regex: &RegexComponent,
        result: &mut Vec<String>,
        alarm: &mut bool,
    ) -> (r: usize)
        requires
            n == input@.len(),
            input_idx <= n,
        ensures
            ({
                let m = match_component(input@, input_idx as int, *regex);
                &&& r == m.len
                &&& *final(alarm) == m.split
                &&& final(result).deep_view() == old(result).deep_view() + m.toks
            }),
            input_idx + r <= n,
        decreases regex, 2int,
    {
        match regex {
            RegexComponent::Literal(value) => Self::match_text_here(
                input,
                n,
                input_idx,
                value,
                result,
                alarm,
            ),
            RegexComponent::Keyword(value) => Self::match_text_here(
                input,
                n,
                input_idx,
                value,
                result,
                alarm,
            ),
            RegexComponent::Identifier(value) => Self::match_text_here(
                input,
                n,
                input_idx,
                value,
                result,
                alarm,
            ),
            RegexComponent::Operator(value) => Self::match_text_here(
                input,
                n,
                input_idx,
                value,
                result,
                alarm,
            ),
            RegexComponent::ZeroOrMore(value) => Self::repetition(
                input,
                n,
                input_idx,
                value,
                result,
                alarm,
            ),
            RegexComponent::OneOrMore(value) => Self::repetition(
                input,
                n,
                input_idx,
                value,
                result,
                alarm,
            ),
            RegexComponent::ZeroOrOne(value) => Self::optional_pass(
                input,
                n,
                input_idx,
                value,
                result,
                alarm,
            ),
            RegexComponent::Or(regex1, regex2) => {
                let mut left: Vec<String> = Vec::new();
                let mut left_alarm = false;
                let temp1 = Self::optional_pass(
                    input,
                    n,
                    input_idx,
                    regex1,
                    &mut left,
                    &mut left_alarm,
                );
                if temp1 != 0 {
                    let ghost before = result.deep_view();
                    let ghost l = left.deep_view();
                    result.append(&mut left);
                    *alarm = left_alarm;
                    assert(l =~= Seq::<Seq<char>>::empty() + l);
                    assert(result.deep_view() =~= before + l);
                    return temp1;
                }
                Self::optional_pass(input, n, input_idx, regex2, result, alarm)
            },
            RegexComponent::SubRegex(regex) => {
                let mut temp_res: Vec<String> = Vec::new();
                assert(temp_res.deep_view() =~= Seq::<Seq<char>>::empty());
                match Self::tokenize_helper(input, n, input_idx, regex, &mut temp_res, true) {
                    Ok(end) => {
                        if end > input_idx {
                            let ghost before = result.deep_view();
                            let ghost t = temp_res.deep_view();
                            result.append(&mut temp_res);
                            assert(t =~= Seq::<Seq<char>>::empty() + t);
                            assert(result.deep_view() =~= before + t);
                            *alarm = true;
                            end - input_idx
                        } else {
                            *alarm = false;
                            assert(result.deep_view() =~= old(result).deep_view() + nothing().toks);
                            0
                        }
                    },
                    Err(_) => {
                        *alarm = false;
                        assert(result.deep_view() =~= old(result).deep_view() + nothing().toks);
                        0
                    },
                }
            },
        }
    }

    /// Walks the components of `regex` from `input_idx`, appending the tokens
    /// to `result`. A component that matches nothing is skipped when nullable
    /// and fails the walk otherwise. Unless `nested`, the walk must also end
    /// at the end of the input. On success, the position where it ended.
    fn tokenize_helper(
        input: &str,
        n: usize,
        input_idx: usize,
        regex: &Regex,
        result: &mut Vec<String>,
        nested: bool,
    ) -> (r: Result<usize, ParseError>)
        requires
            n == input@.len(),
            input_idx <= n,
        ensures
            match tokenize(input@, input_idx as int, regex.components@, 0) {
                Some((e, t)) => if nested || e == n {
                    &&& r == Ok::<usize, ParseError>(e as usize)
                    &&& input_idx <= e <= n
                    &&& final(result).deep_view() == old(result).deep_view() + t
                } else {
                    r == Err::<usize, ParseError>(ParseError::NoMatch)
                },
                None => r == Err::<usize, ParseError>(ParseError::NoMatch),
            },
        decreases regex, 0int,
    {
        let ghost s = input@;
        let ghost g = regex.components@;
        let mut idx = input_idx;
        let mut i: usize = 0;
        let ghost mut acc: Seq<Seq<char>> = seq![];
        assert(result.deep_view() =~= old(result).deep_view() + acc);
        while i < regex.components.len()
            invariant
                n == input@.len(),
                s == input@,
                g == regex.components@,
                input_idx <= idx <= n,
                i <= g.len(),
                result.deep_view() == old(result).deep_view() + acc,
                tokenize(s, input_idx as int, g, 0) == after_tokens(
                    acc,
                    tokenize(s, idx as int, g, i as int),
                ),
            decreases g.len() - i,
        {
            let mut alarm: bool = false;
            proof {
                assert(decreases_to!(regex.components => regex.components[i as int]));
            }
            let component = &regex.components[i];
            let ghost before = result.deep_view();
            let temp = Self::matches(input, n, idx, component, result, &mut alarm);
            let ghost m = match_component(s, idx as int, g[i as int]);
            if temp == 0 {
                proof {
                    lemma_no_match_no_tokens(s, idx as int, g[i as int]);
                    assert(result.deep_view() =~= before);
                }
                if !component.is_nullable() {
                    return Err(ParseError::NoMatch);
                }
            } else {
                proof {
                    lemma_after_tokens_twice(acc, m.toks, tokenize(s, idx + temp, g, i + 1));
                    assert(result.deep_view() =~= old(result).deep_view() + (acc + m.toks));
                    acc = acc + m.toks;
                }
                idx += temp;
            }
            i += 1;
        }
        assert(acc + seq![] =~= acc);
        if idx < n && !nested {
            return Err(ParseError::NoMatch);
        }
        Ok(idx)
    }
}

impl Parser for NaiveParser {
    type Config = ();

    /// Every grammar is tried against the whole input, trimmed of white space
    /// at both ends: the tokens of the one that matches, else an error.
    open spec fn outcome(&self, input: Seq<char>) -> Result<Seq<Seq<char>>, ParseError> {
        select(trimmed(input), self@)
    }

    fn parse(&self, input: &str, _config: Option<Self::Config>) -> (r: Result<Vec<String>, ParseError>) {
        let input = trim_white_space(input);
        let n = input.unicode_len();
        let ghost s = input@;
        let ghost regs = self@;
        let mut verdict: Result<Vec<String>, ParseError> = Err(ParseError::NoMatch);
        let mut i: usize = 0;
        assert(regs.take(0) =~= Seq::<Regex>::empty());
        while i < self.regexes.len()
            invariant
                n == input@.len(),
                s == input@,
                regs == self@,
                regs == self.regexes@,
                i <= regs.len(),
                texts(verdict) == select(s, regs.take(i as int)),
            decreases regs.len() - i,
        {
            let mut tokens: Vec<String> = Vec::new();
            assert(tokens.deep_view() =~= Seq::<Seq<char>>::empty());
            let found = Self::tokenize_helper(input, n, 0, &self.regexes[i], &mut tokens, false);
            assert(regs.take(i + 1).drop_last() =~= regs.take(i as int));
            assert(regs.take(i + 1).last() == regs[i as int]);
            if found.is_ok() {
                assert(Seq::<Seq<char>>::empty() + tokens.deep_view() =~= tokens.deep_view());
                verdict = match verdict {
                    Err(ParseError::NoMatch) => Ok(tokens),
                    _ => Err(ParseError::AmbiguousMatch),
                };
            }
            i += 1;
        }
        assert(regs.take(regs.len() as int) =~= regs);
        verdict
    }
}

} // verus!

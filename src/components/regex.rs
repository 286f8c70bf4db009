use vstd::prelude::*;

use crate::components::items::RegexComponent;

verus! {

/// A grammar: an ordered sequence of components, matched left to right.
#[derive(Debug)]
pub struct Regex {
    pub components: Vec<RegexComponent>,
}

impl Clone for Regex {
    fn clone(&self) -> Self
        decreases self,
    {
        let mut components: Vec<RegexComponent> = Vec::new();
        let mut i: usize = 0;
        while i < self.components.len()
            decreases self.components@.len() - i,
        {
            components.push(self.components[i].clone());
            i += 1;
        }
        Regex { components }
    }
}

impl Regex {
    /// Builds a grammar from its components, in matching order.
    pub fn new(components: Vec<RegexComponent>) -> (r: Regex)
        ensures
            r.components@ == components@,
    {
        Regex { components }
    }

    /// The grammar that matches this one's components, then `other`'s.
    pub fn concat(self, other: Regex) -> (r: Regex)
        ensures
            r.components@ == self.components@ + other.components@,
    {
        let mut components = self.components;
        let mut rest = other.components;
        components.append(&mut rest);
        Regex { components }
    }
}

} // verus!

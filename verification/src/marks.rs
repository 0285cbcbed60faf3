use vstd::prelude::*;
use crate::tokens::Token;

verus! {

/// The token list recorded for a mark class: the lookup result over the
/// recorded entries, where the most recent recording of a class wins.
pub open spec fn entries_get(s: Seq<(usize, Vec<Token>)>, class: usize) -> Option<Seq<Token>>
    decreases s.len(),
{
    if s.len() == 0 {
        None
    } else if s[0].0 == class {
        Some(s[0].1@)
    } else {
        entries_get(s.drop_first(), class)
    }
}

/// A mapping from mark class ids to token lists. Setting a class records a
/// new entry in front of the older ones; lookups see the newest entry.
#[derive(Clone, Debug)]
pub struct MarkMap {
    entries: Vec<(usize, Vec<Token>)>,
}

impl MarkMap {
    pub closed spec fn spec_get(&self, class: usize) -> Option<Seq<Token>> {
        entries_get(self.entries@, class)
    }

    pub fn new() -> (r: MarkMap)
        ensures
            forall|c: usize| r.spec_get(c) is None,
    {
        MarkMap { entries: Vec::new() }
    }

    /// Record the token list for a class, shadowing any older entry.
    pub fn set(&mut self, class: usize, toks: Vec<Token>)
        ensures
            final(self).spec_get(class) == Some::<Seq<Token>>(toks@),
            forall|c: usize| c != class ==> final(self).spec_get(c) == old(self).spec_get(c),
    {
        let ghost old_entries = self.entries@;
        self.entries.insert(0, (class, toks));
        proof {
            assert(self.entries@.drop_first() =~= old_entries);
        }
    }

    /// Look the class up.
    pub fn get(&self, class: usize) -> (r: Option<&Vec<Token>>)
        ensures
            match r {
                Some(v) => self.spec_get(class) == Some(v@),
                None => self.spec_get(class) is None,
            },
    {
        let mut i: usize = 0;
        proof {
            assert(self.entries@.skip(0) =~= self.entries@);
        }
        while i < self.entries.len()
            invariant
                i <= self.entries@.len(),
                entries_get(self.entries@.skip(i as int), class) == entries_get(
                    self.entries@,
                    class,
                ),
            decreases self.entries@.len() - i,
        {
            proof {
                assert(self.entries@.skip(i as int)[0] == self.entries@[i as int]);
                assert(self.entries@.skip(i as int).drop_first() =~= self.entries@.skip(
                    i as int + 1,
                ));
            }
            if self.entries[i].0 == class {
                return Some(&self.entries[i].1);
            }
            i = i + 1;
        }
        None
    }

    /// Forget everything recorded.
    pub fn clear(&mut self)
        ensures
            forall|c: usize| final(self).spec_get(c) is None,
    {
        self.entries = Vec::new();
    }
}

} // verus!

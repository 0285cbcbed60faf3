use vstd::prelude::*;

verus! {

/// The category a character token carries.
#[derive(Clone, Copy, PartialEq, Eq, Structural, Debug)]
pub enum CommandCode {
    BeginGroup,
    EndGroup,
    MathShift,
    Space,
    Letter,
    Other,
    Active,
}

/// A primitive the token has already been resolved to. The stomach only
/// needs to recognize a handful by name; all others are carried by id.
#[derive(Clone, Copy, PartialEq, Eq, Structural, Debug)]
pub enum Primitive {
    Indent,
    Noindent,
    Other { id: u32 },
}

/// A resolved token as the expansion machinery hands it to the stomach.
#[derive(Clone, Copy, PartialEq, Eq, Structural, Debug)]
pub enum Token {
    Character { char: char, code: CommandCode },
    ControlSequence { name: u32 },
    Primitive { prim: Primitive },
}

/// The front of the input stream: tokens the stomach has pushed back to be
/// read again before anything else. Index 0 of the view is the next token
/// the main loop will consume.
#[derive(Clone, Debug)]
pub struct TokenFront {
    toks: Vec<Token>,
}

impl TokenFront {
    pub closed spec fn view(&self) -> Seq<Token> {
        self.toks@
    }

    pub fn new() -> (r: TokenFront)
        ensures
            r@ == Seq::<Token>::empty(),
    {
        TokenFront { toks: Vec::new() }
    }

    pub fn len(&self) -> (r: usize)
        ensures
            r == self@.len(),
    {
        self.toks.len()
    }

    /// Push a token back so it is the next one consumed.
    pub fn requeue(&mut self, t: Token)
        ensures
            final(self)@ == seq![t] + old(self)@,
    {
        self.toks.insert(0, t);
        proof {
            assert(self@ =~= seq![t] + old(self)@);
        }
    }

    /// Push a whole token list so its tokens come out in order, before
    /// everything already queued.
    pub fn push_list(&mut self, l: &Vec<Token>)
        ensures
            final(self)@ == l@ + old(self)@,
    {
        let mut i: usize = 0;
        while i < l.len()
            invariant
                i <= l@.len(),
                self@ == l@.subrange(0, i as int) + old(self)@,
            decreases l@.len() - i,
        {
            self.toks.insert(i, l[i]);
            proof {
                assert(self@ =~= l@.subrange(0, (i + 1) as int) + old(self)@);
            }
            i = i + 1;
        }
        proof {
            assert(l@.subrange(0, l@.len() as int) =~= l@);
        }
    }

    /// Take the next token, if any.
    pub fn pop_front(&mut self) -> (r: Option<Token>)
        ensures
            old(self)@.len() == 0 ==> r is None && final(self)@ == old(self)@,
            old(self)@.len() > 0 ==> r == Some(old(self)@[0]) && final(self)@ == old(self)@.subrange(
                1,
                old(self)@.len() as int,
            ),
    {
        if self.toks.len() == 0 {
            None
        } else {
            Some(self.toks.remove(0))
        }
    }
}

} // verus!

//! Reading a text one character at a time.

use vstd::prelude::*;
use crate::text::chars_of;

verus! {

/// The characters of a text, read from left to right, with one character of
/// lookahead.
pub struct CharStream {
    chars: Vec<char>,
    position: usize,
}

impl CharStream {
    #[verifier::type_invariant]
    spec fn well_formed(self) -> bool {
        self.position <= self.chars.len()
    }

    /// The whole text, read or not.
    pub closed spec fn text(&self) -> Seq<char> {
        self.chars@
    }

    /// How many characters were read.
    pub closed spec fn position(&self) -> int {
        if self.position <= self.chars.len() {
            self.position as int
        } else {
            self.chars.len() as int
        }
    }

    /// No more characters are read than the text holds.
    pub proof fn lemma_position(&self)
        ensures
            0 <= self.position() <= self.text().len(),
    {
    }

    /// A stream at the start of `text`.
    pub fn new(text: &str) -> (stream: CharStream)
        ensures
            stream.text() == text@,
            stream.position() == 0,
    {
        CharStream { chars: chars_of(text), position: 0 }
    }

    /// The next character, which stays unread.
    pub fn peek(&self) -> (c: Option<char>)
        ensures
            0 <= self.position() <= self.text().len(),
            c == if self.position() < self.text().len() {
                Some(self.text()[self.position()])
            } else {
                None
            },
    {
        proof {
            use_type_invariant(self);
        }
        if self.position < self.chars.len() {
            Some(self.chars[self.position])
        } else {
            None
        }
    }

    /// Reads the next character.
    pub fn next(&mut self) -> (c: Option<char>)
        ensures
            final(self).text() == old(self).text(),
            0 <= old(self).position() <= old(self).text().len(),
            c == if old(self).position() < old(self).text().len() {
                Some(old(self).text()[old(self).position()])
            } else {
                None
            },
            final(self).position() == if c is Some {
                old(self).position() + 1
            } else {
                old(self).position()
            },
    {
        proof {
            use_type_invariant(&*self);
        }
        if self.position < self.chars.len() {
            let c = self.chars[self.position];
            self.position = self.position + 1;
            Some(c)
        } else {
            None
        }
    }
}

} // verus!

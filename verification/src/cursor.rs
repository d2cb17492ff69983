//! Scan-position bookkeeping over a fixed text buffer.

use vstd::prelude::*;
use vstd::string::StrSliceExecFns;

verus! {

/// A sequential scan position over a fixed character buffer: lookahead
/// with `peek`, single-step consumption with `advance`.  Exactly one
/// caller owns the cursor at a time; the engine threads it through its
/// recursive calls.
#[derive(Debug)]
pub struct Cursor {
    pub text: Vec<char>,
    pub position: usize,
}

impl Cursor {
    /// The scan position never runs past the end of the buffer.
    pub open spec fn wf(&self) -> bool {
        self.position <= self.text@.len()
    }

    pub fn new(text: Vec<char>) -> (r: Cursor)
        ensures
            r.text@ == text@,
            r.position == 0,
            r.wf(),
    {
        Cursor { text, position: 0 }
    }

    /// The codepoint at the scan position, or none at end of input;
    /// consumes nothing.
    pub fn peek(&self) -> (r: Option<char>)
        requires
            self.wf(),
        ensures
            r == (if self.position < self.text@.len() {
                Some(self.text@[self.position as int])
            } else {
                None::<char>
            }),
    {
        if self.position < self.text.len() {
            Some(self.text[self.position])
        } else {
            None
        }
    }

    /// Move one codepoint forward; must not be called at end of input.
    pub fn advance(&mut self)
        requires
            old(self).wf(),
            old(self).position < old(self).text@.len(),
        ensures
            final(self).text@ == old(self).text@,
            final(self).position == old(self).position + 1,
            final(self).wf(),
    {
        let n = self.text.len();
        assert(self.position < n);
        self.position = self.position + 1;
    }
}

/// The characters of a string slice, in order, as a buffer the cursor
/// can scan.
pub fn chars_of(s: &str) -> (r: Vec<char>)
    ensures
        r@ == s@,
{
    let n = s.unicode_len();
    let mut r: Vec<char> = Vec::new();
    let mut i: usize = 0;
    while i < n
        invariant
            i <= n,
            n == s@.len(),
            r@ == s@.subrange(0, i as int),
        decreases n - i,
    {
        let c = s.get_char(i);
        r.push(c);
        assert(r@ =~= s@.subrange(0, i + 1 as int));
        i = i + 1;
    }
    assert(r@ =~= s@);
    r
}

} // verus!

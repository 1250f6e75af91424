//! ANSI colouring of human-readable output, switchable at run time.

use vstd::prelude::*;

verus! {

/// The sequence that ends any colour started by `paint`.
pub open spec fn reset_code() -> Seq<char> {
    "\x1b[0m"@
}

/// `s` wrapped in the escape `start` and a reset when colour is on; `s` itself when off.
pub open spec fn paint(on: bool, start: Seq<char>, s: Seq<char>) -> Seq<char> {
    if on {
        start + s + reset_code()
    } else {
        s
    }
}

/// Whether coloured output is enabled.
#[derive(Clone, Copy, Debug)]
pub struct Colorize(pub bool);

impl Colorize {
    fn wrap(&self, start: &str, s: &str) -> (r: String)
        ensures
            r@ == paint(self.0, start@, s@),
    {
        if self.0 {
            let mut out = String::from_str(start);
            out.append(s);
            out.append("\x1b[0m");
            out
        } else {
            String::from_str(s)
        }
    }

    pub fn green(&self, s: &str) -> (r: String)
        ensures
            r@ == paint(self.0, "\x1b[32m"@, s@),
    {
        self.wrap("\x1b[32m", s)
    }

    pub fn red(&self, s: &str) -> (r: String)
        ensures
            r@ == paint(self.0, "\x1b[31m"@, s@),
    {
        self.wrap("\x1b[31m", s)
    }

    pub fn blue(&self, s: &str) -> (r: String)
        ensures
            r@ == paint(self.0, "\x1b[34m"@, s@),
    {
        self.wrap("\x1b[34m", s)
    }

    pub fn yellow(&self, s: &str) -> (r: String)
        ensures
            r@ == paint(self.0, "\x1b[33m"@, s@),
    {
        self.wrap("\x1b[33m", s)
    }
}

} // verus!

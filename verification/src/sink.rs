//! Line-oriented output abstraction. All human-facing text the core
//! produces goes through an [`OutputSink`], so the same logic runs against
//! an in-memory sink in tests and against a real console elsewhere.

use vstd::prelude::*;

verus! {

/// A writer for human-facing text. `content` is everything written so
/// far; an implementation outside verification that leaves it defaulted
/// promises nothing about what it wrote.
pub trait OutputSink {
    open spec fn content(&self) -> Seq<char> {
        Seq::empty()
    }

    fn write_str(&mut self, s: &str)
        ensures
            final(self).content() == old(self).content() + s@,
    ;
}

/// An in-memory sink: what was written is kept in a string.
pub struct MemSink {
    pub buf: String,
}

impl MemSink {
    pub fn new() -> (r: MemSink)
        ensures
            r.content() == Seq::<char>::empty(),
    {
        MemSink { buf: String::new() }
    }

    /// Everything written so far.
    pub fn text(&self) -> (r: &str)
        ensures
            r@ == self.content(),
    {
        self.buf.as_str()
    }
}

impl OutputSink for MemSink {
    open spec fn content(&self) -> Seq<char> {
        self.buf@
    }

    fn write_str(&mut self, s: &str) {
        self.buf.append(s);
    }
}

} // verus!

use vstd::prelude::*;

verus! {

/// A byte cursor over an in-memory buffer.
///
/// It hands out the bytes in order and can step back by one byte to undo a
/// read that went past the end of a lexeme.
pub struct Source {
    bytes: Vec<u8>,
    pos: usize,
}

impl Source {
    /// The whole input.
    pub closed spec fn bytes(&self) -> Seq<u8> {
        self.bytes@
    }

    /// Index of the next byte to be read.
    pub closed spec fn pos(&self) -> int {
        self.pos as int
    }

    /// The cursor never passes the end of the input.
    pub open spec fn wf(&self) -> bool {
        0 <= self.pos() <= self.bytes().len()
    }

    /// A cursor at the start of `bytes`.
    pub fn new(bytes: Vec<u8>) -> (r: Source)
        ensures
            r.wf(),
            r.bytes() == bytes@,
            r.pos() == 0,
    {
        Source { bytes, pos: 0 }
    }

    /// The next byte, or `None` once the input is exhausted; exhaustion leaves
    /// the cursor where it is.
    pub fn read_one(&mut self) -> (r: Option<u8>)
        requires
            old(self).wf(),
        ensures
            final(self).wf(),
            final(self).bytes() == old(self).bytes(),
            old(self).pos() < old(self).bytes().len() ==> r == Some(old(self).bytes()[old(self).pos()])
                && final(self).pos() == old(self).pos() + 1,
            old(self).pos() == old(self).bytes().len() ==> r is None && final(self).pos() == old(self).pos(),
    {
        if self.pos < self.bytes.len() {
            let b = self.bytes[self.pos];
            self.pos = self.pos + 1;
            Some(b)
        } else {
            None
        }
    }

    /// Index of the next byte to be read.
    pub fn position(&self) -> (r: usize)
        ensures
            r == self.pos(),
    {
        self.pos
    }

    /// Moves the cursor to index `p`.
    pub fn rewind_to(&mut self, p: usize)
        requires
            old(self).wf(),
            p <= old(self).pos(),
        ensures
            final(self).wf(),
            final(self).bytes() == old(self).bytes(),
            final(self).pos() == p,
    {
        self.pos = p;
    }

    /// Steps back over the byte that the last successful read returned.
    pub fn unread_one(&mut self)
        requires
            old(self).wf(),
            old(self).pos() > 0,
        ensures
            final(self).wf(),
            final(self).bytes() == old(self).bytes(),
            final(self).pos() == old(self).pos() - 1,
    {
        self.pos = self.pos - 1;
    }
}

} // verus!

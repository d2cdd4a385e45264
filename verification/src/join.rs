use vstd::prelude::*;

verus! {

/// A writer and a reader that together make one duplex stream: writes go to
/// the writer, reads come from the reader.
pub struct Join<W, R> {
    writer: W,
    reader: R,
}

impl<W, R> Join<W, R> {
    /// The half that writes go to.
    pub closed spec fn writer_half(&self) -> W {
        self.writer
    }

    /// The half that reads come from.
    pub closed spec fn reader_half(&self) -> R {
        self.reader
    }

    /// Joins a writer and a reader.
    pub fn new(writer: W, reader: R) -> (j: Join<W, R>)
        ensures
            j.writer_half() == writer,
            j.reader_half() == reader,
    {
        Join { writer, reader }
    }

    /// Takes the two halves apart again.
    pub fn split(self) -> (r: (W, R))
        ensures
            r == (self.writer_half(), self.reader_half()),
    {
        (self.writer, self.reader)
    }

    /// The half that writes go to, to write through.
    pub fn writer_mut(&mut self) -> (w: &mut W)
        ensures
            *w == old(self).writer_half(),
            final(self).writer_half() == *final(w),
            final(self).reader_half() == old(self).reader_half(),
    {
        &mut self.writer
    }

    /// The half that reads come from, to read through.
    pub fn reader_mut(&mut self) -> (r: &mut R)
        ensures
            *r == old(self).reader_half(),
            final(self).reader_half() == *final(r),
            final(self).writer_half() == old(self).writer_half(),
    {
        &mut self.reader
    }
}

} // verus!

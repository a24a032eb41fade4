//! A model of the destination file.
//!
//! The process keeps one file whose whole content is the last received
//! code.  The write the process performs is a plain truncate-and-write:
//! no append, no added newline, no merging with what was there before.
//! `DestinationFile` captures exactly that semantics as verified code;
//! the actual filesystem write outside the library must behave like
//! `overwrite` on the file's byte content.

use vstd::prelude::*;
use vstd::slice::slice_to_vec;

verus! {

/// What the destination file holds after a write of `code` over
/// content `previous`: exactly the bytes of `code`.
pub open spec fn content_after_write(previous: Seq<u8>, code: Seq<u8>) -> Seq<u8> {
    code
}

/// The destination file, modelled as the byte content it holds.
pub struct DestinationFile {
    pub content: Vec<u8>,
}

impl DestinationFile {
    /// A file holding nothing yet.
    pub fn new() -> (r: DestinationFile)
        ensures
            r.content@ == Seq::<u8>::empty(),
    {
        DestinationFile { content: Vec::new() }
    }

    /// A full overwrite: afterwards the file holds exactly `code`,
    /// whatever it held before.
    pub fn overwrite(&mut self, code: &[u8])
        ensures
            final(self).content@ == content_after_write(old(self).content@, code@),
    {
        self.content = slice_to_vec(code);
    }
}

/// Of two sequential writes, the second wins in full: after writing
/// `first` and then `second`, the file holds exactly the bytes of
/// `second`, with nothing of `first` left and nothing appended.
pub proof fn lemma_second_write_wins(initial: Seq<u8>, first: Seq<u8>, second: Seq<u8>)
    ensures
        content_after_write(content_after_write(initial, first), second) == second,
{
}

} // verus!

//! Completion records, as plain values, and the meaning of their flag word.

use vstd::prelude::*;
use crate::correlation::Tag;

verus! {

/// Whether a flag word says that the operation stays armed: bit 1.
pub open spec fn flags_more(flags: u32) -> bool {
    flags & 2 != 0
}

/// The buffer that a flag word says was selected: present when bit 0 is set,
/// and then held in the upper sixteen bits.
pub open spec fn flags_buffer(flags: u32) -> Option<u16> {
    if flags & 1 != 0 {
        Some((flags >> 16) as u16)
    } else {
        None
    }
}

/// `io_uring::cqueue::more`: tests the "more completions will follow" bit of
/// a completion's flag word, which is bit 1. Taken from the function's body
/// and the value of `IORING_CQE_F_MORE`; not proved.
pub assume_specification[ io_uring::cqueue::more ](flags: u32) -> (more: bool)
    ensures
        more == flags_more(flags),
;

/// `io_uring::cqueue::buffer_select`: when bit 0 (`IORING_CQE_F_BUFFER`) of
/// the flag word is set, returns the word shifted right by sixteen
/// (`IORING_CQE_BUFFER_SHIFT`) as a buffer id, and nothing otherwise. Taken
/// from the function's body; not proved.
pub assume_specification[ io_uring::cqueue::buffer_select ](flags: u32) -> (id: Option<u16>)
    ensures
        id == flags_buffer(flags),
;

/// One record read from the completion queue.
#[derive(Clone, Copy, Debug, PartialEq, Eq, Structural)]
pub struct Completion {
    /// The correlation value of the operation that completed.
    pub user_data: u64,
    /// The operation's result: a count or descriptor, or a negated error number.
    pub result: i32,
    /// The flag word.
    pub flags: u32,
}

impl Completion {
    /// The tag that the record's correlation value decodes to.
    pub open spec fn spec_tag(self) -> Option<Tag> {
        Tag::of_word(self.user_data as int)
    }

    /// Whether the operation stays armed after this record.
    pub open spec fn spec_more(self) -> bool {
        flags_more(self.flags)
    }

    /// The buffer that the kernel selected for this record, if any.
    pub open spec fn spec_buffer(self) -> Option<u16> {
        flags_buffer(self.flags)
    }

    /// The tag that the record's correlation value decodes to.
    pub fn tag(&self) -> (tag: Option<Tag>)
        ensures
            tag == self.spec_tag(),
    {
        Tag::decode(self.user_data)
    }

    /// Whether the operation stays armed after this record.
    pub fn more(&self) -> (more: bool)
        ensures
            more == self.spec_more(),
    {
        io_uring::cqueue::more(self.flags)
    }

    /// The buffer that the kernel selected for this record, if any.
    pub fn buffer(&self) -> (id: Option<u16>)
        ensures
            id == self.spec_buffer(),
    {
        io_uring::cqueue::buffer_select(self.flags)
    }
}

} // verus!

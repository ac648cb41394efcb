//! Correlation values: the 64-bit word that travels with every submitted
//! operation and comes back on each of its completions.

use vstd::prelude::*;

verus! {

/// Correlation value of the operation that reports new connections.
pub const ACCEPT: u64 = u64::MAX;

/// Correlation value of the operation that reports readiness of a shared
/// listening socket.
pub const READINESS: u64 = u64::MAX - 1;

/// What a correlation value stands for.
#[derive(Clone, Copy, Debug, PartialEq, Eq, Structural)]
pub enum Tag {
    /// A new connection is available.
    Accept,
    /// The listening socket became readable.
    Readiness,
    /// A receive on the connection with this descriptor.
    Data(i32),
}

impl Tag {
    /// A data tag carries a descriptor number, which is never negative.
    pub open spec fn valid(self) -> bool {
        self matches Tag::Data(fd) ==> fd >= 0
    }

    /// The correlation value of a tag, as a number.
    pub open spec fn word(self) -> int {
        match self {
            Tag::Accept => ACCEPT as int,
            Tag::Readiness => READINESS as int,
            Tag::Data(fd) => fd as int,
        }
    }

    /// The tag that a correlation value decodes to, if any.
    pub open spec fn of_word(word: int) -> Option<Tag> {
        if word == ACCEPT {
            Some(Tag::Accept)
        } else if word == READINESS {
            Some(Tag::Readiness)
        } else if 0 <= word <= i32::MAX {
            Some(Tag::Data(word as i32))
        } else {
            None
        }
    }

    /// Encodes the tag as the correlation value to submit with an operation.
    pub fn encode(self) -> (word: u64)
        requires
            self.valid(),
        ensures
            word == self.word(),
    {
        match self {
            Tag::Accept => ACCEPT,
            Tag::Readiness => READINESS,
            Tag::Data(fd) => fd as u64,
        }
    }

    /// Decodes the correlation value of a completion. Values that are neither
    /// a sentinel nor a descriptor number decode to nothing.
    pub fn decode(word: u64) -> (tag: Option<Tag>)
        ensures
            tag == Tag::of_word(word as int),
    {
        if word == ACCEPT {
            Some(Tag::Accept)
        } else if word == READINESS {
            Some(Tag::Readiness)
        } else if word <= 0x7fff_ffff {
            Some(Tag::Data(word as i32))
        } else {
            None
        }
    }
}

/// Decoding gives back the tag that was encoded.
pub proof fn decode_inverts_encode(tag: Tag)
    requires
        tag.valid(),
    ensures
        Tag::of_word(tag.word()) == Some(tag),
        0 <= tag.word() <= u64::MAX,
{
}

/// A value that decodes to a tag is the encoding of that tag, and the tag is
/// valid.
pub proof fn encode_inverts_decode(word: u64)
    ensures
        Tag::of_word(word as int) matches Some(tag) ==> tag.valid() && tag.word() == word,
{
}

/// Different tags have different correlation values.
pub proof fn words_distinct(a: Tag, b: Tag)
    requires
        a.valid(),
        b.valid(),
        a != b,
    ensures
        a.word() != b.word(),
{
}

/// The correlation value of a descriptor is neither of the two sentinels.
pub proof fn descriptor_is_no_sentinel(fd: i32)
    requires
        fd >= 0,
    ensures
        Tag::Data(fd).word() != ACCEPT,
        Tag::Data(fd).word() != READINESS,
{
}

} // verus!

//! The record kept under an identifier.

use vstd::prelude::*;

verus! {

/// Metadata that a caller attaches to an entry. The store hands it back as it
/// came and never looks inside.
#[derive(Clone, Copy, Debug, PartialEq, Eq)]
pub struct Flags {
    /// Set by a caller whose payload is ciphertext.
    pub encrypted: bool,
}

impl Default for Flags {
    fn default() -> (flags: Flags)
        ensures
            flags == (Flags { encrypted: false }),
    {
        Flags { encrypted: false }
    }
}

/// One stored payload with the instant at which it stops being readable.
///
/// Instants are counted in 64 bits. An expiry is an instant plus a lifetime,
/// and is kept in 128 bits, so that the sum is exact whatever the instant.
#[derive(Debug, PartialEq, Eq)]
pub struct Entry {
    /// The caller's text. The store never parses it.
    pub payload: String,
    /// First instant, in milliseconds, at which the entry is no longer readable.
    pub expires_at: u128,
    /// The caller's metadata.
    pub flags: Flags,
}

/// What an [`Entry`] is, mathematically: its payload as a sequence of
/// characters, and the other two fields as they are.
pub struct EntryView {
    pub payload: Seq<char>,
    pub expires_at: u128,
    pub flags: Flags,
}

impl View for Entry {
    type V = EntryView;

    open spec fn view(&self) -> EntryView {
        EntryView { payload: self.payload@, expires_at: self.expires_at, flags: self.flags }
    }
}

impl Clone for Entry {
    fn clone(&self) -> (copy: Entry)
        ensures
            copy == *self,
    {
        Entry { payload: self.payload.clone(), expires_at: self.expires_at, flags: self.flags }
    }
}

impl DeepView for Entry {
    type V = EntryView;

    open spec fn deep_view(&self) -> EntryView {
        self@
    }
}

} // verus!

//! A model of the backing medium: the single stored value associated with one
//! lock identifier.
//!
//! Real media (a file in a shared directory, a browser key/value store) key
//! many such cells by identifier and are driven from outside the verified
//! library; this cell gives the protocol a storage it can be verified
//! against, with the same three primitive operations the media expose. Reads
//! and writes of one cell are atomic, which is exactly the idealization under
//! which the protocol's guarantees are stated.

use vstd::prelude::*;

verus! {

/// The storage cell for one lock identifier. `None` means no marker is
/// stored: the lock is free.
pub struct MarkerStore {
    value: Option<String>,
}

impl View for MarkerStore {
    type V = Option<Seq<char>>;

    closed spec fn view(&self) -> Option<Seq<char>> {
        match self.value {
            Option::Some(s) => Option::Some(s@),
            Option::None => Option::None,
        }
    }
}

impl MarkerStore {
    /// A fresh medium holding no marker.
    pub fn new() -> (s: Self)
        ensures
            s@ is None,
    {
        MarkerStore { value: None }
    }

    /// Read the currently stored marker, if any. Absence is not an error.
    pub fn read_marker(&self) -> (r: Option<String>)
        ensures
            r is Some <==> self@ is Some,
            r matches Some(s) ==> self@ == Some(s@),
    {
        match &self.value {
            Some(s) => Some(s.clone()),
            None => None,
        }
    }

    /// Store a marker value, overwriting any existing one.
    pub fn write_marker(&mut self, v: String)
        ensures
            final(self)@ == Some(v@),
    {
        self.value = Some(v);
    }

    /// Delete the stored marker. Deleting an absent marker is not an error.
    pub fn remove_marker(&mut self)
        ensures
            final(self)@ is None,
    {
        self.value = None;
    }
}

} // verus!

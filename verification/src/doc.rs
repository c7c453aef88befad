//! Documents and their identifiers.

use vstd::prelude::*;

verus! {

/// An opaque 128-bit document identifier, assigned once when a document
/// enters the corpus.
#[derive(Clone, Copy, Debug, PartialEq, Eq, Hash, Structural)]
pub struct DocId {
    pub value: u128,
}

/// The storage key of a document: its identifier encrypted under the
/// process-wide key.
pub type EncryptedId = Vec<u8>;

/// A document of the corpus: its identifier and its text.
#[derive(Debug, PartialEq, Eq)]
pub struct Document {
    pub id: DocId,
    pub content: String,
}

impl Clone for Document {
    fn clone(&self) -> (copy: Self)
        ensures
            copy == *self,
    {
        Document { id: self.id, content: self.content.clone() }
    }
}

} // verus!

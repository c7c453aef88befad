//! The encrypted store adapter: a `sled` tree keyed by encrypted identifiers.

use vstd::prelude::*;
use vstd::string::StringSliceAdditionalSpecFns;
use vstd::utf8::*;

verus! {

/// `sled::Tree`, a handle on a persistent ordered map from byte strings to
/// byte strings. Handles can be cloned and shared between threads, and all
/// handles of one tree read and write the same entries.
#[verifier::external_type_specification]
#[verifier::external_body]
pub struct ExTree(sled::Tree);

/// `sled::Error`, what a failed operation on a tree reports.
#[verifier::external_type_specification]
#[verifier::external_body]
pub struct ExTreeError(sled::Error);

/// `sled::Tree::insert`: asks the tree to hold `value` under `key`, and
/// returns the value that `key` had or the tree's failure. What comes back
/// depends on the disk and on what other handles of the tree have written,
/// so nothing is claimed of it.
#[verifier::external_body]
fn tree_insert(tree: &sled::Tree, key: &[u8], value: &[u8]) -> (r: Result<
    Option<Vec<u8>>,
    sled::Error,
>) {
    match tree.insert(key, value) {
        Ok(previous) => Ok(previous.map(|v| v.to_vec())),
        Err(e) => Err(e),
    }
}

/// `sled::Tree::get`: returns the value that the tree holds under `key`, if
/// any, or the tree's failure. What comes back depends on the disk and on
/// what other handles of the tree have written, so nothing is claimed of it.
#[verifier::external_body]
fn tree_get(tree: &sled::Tree, key: &[u8]) -> (r: Result<Option<Vec<u8>>, sled::Error>) {
    match tree.get(key) {
        Ok(value) => Ok(value.map(|v| v.to_vec())),
        Err(e) => Err(e),
    }
}

/// `sled::Tree::len`: walks the tree and counts what the walk yields. Other
/// handles may write during the walk and a read that fails is counted like
/// an entry, so nothing is claimed of the number.
#[verifier::external_body]
fn tree_len(tree: &sled::Tree) -> (n: usize) {
    tree.len()
}

/// Whether `entries` has exactly `n` keys.
pub open spec fn counts(entries: Map<Seq<u8>, Seq<u8>>, n: nat) -> bool {
    entries.dom().finite() && entries.dom().len() == n
}

/// `std::str::from_utf8`. The bytes are returned as text exactly when they
/// are well-formed UTF-8, and the text then encodes to those bytes.
#[verifier::external_body]
fn text_of<'a>(bytes: &'a [u8]) -> (r: Option<&'a str>)
    ensures
        r is Some <==> valid_utf8(bytes@),
        r matches Some(text) ==> text.spec_bytes() == bytes@,
{
    match std::str::from_utf8(bytes) {
        Ok(text) => Some(text),
        Err(_) => None,
    }
}

/// Why a document's content could not be fetched.
#[derive(Clone, Copy, Debug, PartialEq, Eq, Structural)]
pub enum FetchError {
    /// The store has no entry under the key: the index and the store disagree.
    Missing,
    /// The store failed to answer.
    Unavailable,
}

/// The text that stored bytes stand for: their decoding where they are
/// well-formed UTF-8, and a fixed marker where they are not.
pub open spec fn decoded(bytes: Seq<u8>) -> Seq<char> {
    if valid_utf8(bytes) {
        decode_utf8(bytes)
    } else {
        "ENCODING ERROR"@
    }
}

/// What a lookup in `entries` under `key` resolves to when the store answers.
pub open spec fn resolved(entries: Map<Seq<u8>, Seq<u8>>, key: Seq<u8>) -> Result<
    Seq<char>,
    FetchError,
> {
    if entries.contains_key(key) {
        Ok(decoded(entries[key]))
    } else {
        Err(FetchError::Missing)
    }
}

/// Turns stored bytes into text.
pub fn decode_content(bytes: &[u8]) -> (content: String)
    ensures
        content@ == decoded(bytes@),
{
    match text_of(bytes) {
        Some(text) => {
            proof {
                decode_utf8_encode_utf8(bytes@);
                encode_utf8_decode_utf8(text@);
            }
            text.to_owned()
        },
        None => "ENCODING ERROR".to_owned(),
    }
}

/// Turns the store's answer to a lookup into content: the decoded value, a
/// missing entry, or an unavailable store.
pub fn content_from(answer: Result<Option<Vec<u8>>, sled::Error>) -> (r: Result<
    String,
    FetchError,
>)
    ensures
        match answer {
            Ok(Some(bytes)) => r matches Ok(content) && content@ == decoded(bytes@),
            Ok(None) => r == Err::<String, FetchError>(FetchError::Missing),
            Err(_) => r == Err::<String, FetchError>(FetchError::Unavailable),
        },
{
    match answer {
        Ok(Some(bytes)) => Ok(decode_content(bytes.as_slice())),
        Ok(None) => Err(FetchError::Missing),
        Err(_) => Err(FetchError::Unavailable),
    }
}

/// One write that a store accepted: the key and the bytes put under it.
pub type Write = (Seq<u8>, Seq<u8>);

/// The record after a write of `bytes` under `key` that the store accepted
/// or refused: an accepted write is added, a refused one leaves no trace.
pub open spec fn recorded(log: Seq<Write>, key: Seq<u8>, bytes: Seq<u8>, accepted: bool) -> Seq<
    Write,
> {
    if accepted {
        log.push((key, bytes))
    } else {
        log
    }
}

/// The adapter over the persistent store. Keys are encrypted identifiers and
/// values are the bytes of document content. The tree behind it may be read
/// and written through other handles too: the adapter keeps a record of the
/// writes that the store accepted from it, and claims nothing of what the
/// store holds.
pub struct Store {
    tree: sled::Tree,
    accepted: Ghost<Seq<Write>>,
}

impl Store {
    /// The writes that the store accepted through this adapter, in order.
    pub closed spec fn accepted(&self) -> Seq<Write> {
        self.accepted@
    }

    /// Wraps a tree. Nothing was written through the adapter yet.
    pub fn new(tree: sled::Tree) -> (store: Store)
        ensures
            store.accepted() == Seq::<Write>::empty(),
    {
        Store { tree, accepted: Ghost(Seq::empty()) }
    }

    /// The number of entries that the store reports.
    pub fn len(&self) -> (n: usize) {
        tree_len(&self.tree)
    }

    /// Hands `content` to the store to be held under `key`. The bytes of
    /// `content` under `key` are added to the record where the store accepts
    /// them, and the record stays as it was where it fails.
    pub fn put(&mut self, key: &[u8], content: &str) -> (r: Result<(), sled::Error>)
        ensures
            final(self).accepted() == recorded(
                old(self).accepted(),
                key@,
                content.spec_bytes(),
                r is Ok,
            ),
    {
        let bytes = content.as_bytes();
        let answer = tree_insert(&self.tree, key, bytes);
        let outcome = write_outcome(answer);
        proof {
            if outcome is Ok {
                self.accepted@ = self.accepted@.push((key@, bytes@));
            }
        }
        outcome
    }

    /// Fetches the content that the store holds under `key`: the store's
    /// answer, read by `content_from`.
    pub fn get(&self, key: &[u8]) -> (r: Result<String, FetchError>) {
        content_from(tree_get(&self.tree, key))
    }
}

/// What a store holds that held `initial`, accepted the writes of `log` in
/// order, and was written by no one else.
pub open spec fn replay(initial: Map<Seq<u8>, Seq<u8>>, log: Seq<Write>) -> Map<Seq<u8>, Seq<u8>>
    decreases log.len(),
{
    if log.len() == 0 {
        initial
    } else {
        replay(initial, log.drop_last()).insert(log.last().0, log.last().1)
    }
}

/// No key is written twice in `log`.
pub open spec fn distinct(log: Seq<Write>) -> bool {
    forall|i: int, j: int| 0 <= i < j < log.len() ==> log[i].0 != log[j].0
}

/// No key written in `log` is a key of `entries`.
pub open spec fn fresh(log: Seq<Write>, entries: Map<Seq<u8>, Seq<u8>>) -> bool {
    forall|i: int| 0 <= i < log.len() ==> !entries.contains_key((#[trigger] log[i]).0)
}

/// A key that no write of the log names holds what it held before.
pub proof fn replay_keeps_other_keys(
    initial: Map<Seq<u8>, Seq<u8>>,
    log: Seq<Write>,
    key: Seq<u8>,
)
    requires
        forall|i: int| 0 <= i < log.len() ==> log[i].0 != key,
    ensures
        replay(initial, log).contains_key(key) == initial.contains_key(key),
        initial.contains_key(key) ==> replay(initial, log)[key] == initial[key],
    decreases log.len(),
{
    if log.len() > 0 {
        replay_keeps_other_keys(initial, log.drop_last(), key);
    }
}

/// The key of a write holds the bytes of that write, unless a later write
/// names the same key.
pub proof fn replay_holds_last_write(initial: Map<Seq<u8>, Seq<u8>>, log: Seq<Write>, i: int)
    requires
        0 <= i < log.len(),
        forall|j: int| i < j < log.len() ==> log[j].0 != log[i].0,
    ensures
        replay(initial, log).contains_key(log[i].0),
        replay(initial, log)[log[i].0] == log[i].1,
    decreases log.len(),
{
    if i < log.len() - 1 {
        replay_holds_last_write(initial, log.drop_last(), i);
    }
}

/// Writes under keys that differ from each other and from every key already
/// there add one entry each.
pub proof fn replay_adds_one_each(initial: Map<Seq<u8>, Seq<u8>>, log: Seq<Write>)
    requires
        initial.dom().finite(),
        distinct(log),
        fresh(log, initial),
    ensures
        counts(replay(initial, log), initial.dom().len() + log.len()),
    decreases log.len(),
{
    if log.len() > 0 {
        let front = log.drop_last();
        replay_adds_one_each(initial, front);
        assert forall|i: int| 0 <= i < front.len() implies front[i].0 != log.last().0 by {
            assert(front[i] == log[i]);
        }
        assert(!initial.contains_key(log[log.len() - 1].0));
        replay_keeps_other_keys(initial, front, log.last().0);
    }
}

/// Decoding the bytes of a content gives the content back.
pub proof fn content_round_trip(content: Seq<char>)
    ensures
        decoded(encode_utf8(content)) == content,
{
    encode_utf8_valid_utf8(content);
    encode_utf8_decode_utf8(content);
}

/// Turns the store's answer to a write into the outcome of the write: done,
/// whatever the key held before, or the store's failure as it came.
pub fn write_outcome(answer: Result<Option<Vec<u8>>, sled::Error>) -> (r: Result<
    (),
    sled::Error,
>)
    ensures
        match answer {
            Ok(_) => r is Ok,
            Err(failure) => r == Err::<(), sled::Error>(failure),
        },
{
    match answer {
        Ok(_) => Ok(()),
        Err(failure) => Err(failure),
    }
}

} // verus!

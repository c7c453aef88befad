//! The indexing pipeline: a run over a corpus that stores each document under
//! its encrypted identifier, hands it to the full-text index, and reports
//! progress. The cipher and the index work outside this library: a run asks
//! for their work one request at a time and is told the outcome as an event.

use vstd::prelude::*;
use vstd::utf8::*;
use crate::doc::{DocId, Document, EncryptedId};
use crate::store::{
    content_round_trip, counts, distinct, fresh, replay, replay_adds_one_each,
    recorded, replay_holds_last_write, resolved, FetchError, Store, Write,
};

verus! {

/// Why a run stopped before the corpus was done. Each names the position in
/// the corpus of the document that failed.
#[derive(Clone, Copy, Debug, PartialEq, Eq, Structural)]
pub enum IngestError {
    /// The cipher could not encrypt the document's identifier.
    Cipher { document: usize },
    /// The store refused the document's content.
    Store { document: usize },
    /// The index refused the document.
    Index { document: usize },
}

/// Where a run stands.
#[derive(Clone, Copy, Debug, PartialEq, Eq, Structural)]
pub enum IngestPhase {
    /// The corpus has yet to be handed over.
    AwaitingCorpus,
    /// The next document's identifier is with the cipher.
    AwaitingKey,
    /// The next document is stored and is with the index.
    AwaitingIndex,
    /// Every document is stored and indexed.
    Complete,
    /// The store was already populated: nothing was done.
    Skipped,
    /// A document failed and the rest of the corpus was left alone.
    Failed { error: IngestError },
}

/// What a run asks of its surroundings next.
#[derive(Debug, PartialEq, Eq)]
pub enum IngestRequest {
    /// Hand over the corpus, as `IngestEvent::Loaded`.
    Load,
    /// Encrypt this identifier and answer with `IngestEvent::Key`.
    Encrypt { id: DocId },
    /// Add this document to the index and answer with `IngestEvent::Indexed`.
    Index { id: DocId, content: String },
    /// Nothing more: the run is over and the progress stream ends.
    Done,
    /// Nothing more: the run failed.
    Halt { error: IngestError },
}

/// What the surroundings tell a run.
#[derive(Debug, PartialEq, Eq)]
pub enum IngestEvent {
    /// The corpus, with its documents in the order in which they are taken.
    Loaded { corpus: Vec<Document> },
    /// The identifier asked for, encrypted.
    Key { key: EncryptedId },
    /// The cipher failed on the identifier asked for.
    CipherFailed,
    /// The index took the document.
    Indexed,
    /// The index refused the document.
    IndexFailed,
}

/// One report on the progress stream.
#[derive(Clone, Copy, Debug, PartialEq, Eq, Structural)]
pub struct ProgressEvent {
    /// How many documents were done before the one that this event reports.
    pub completed: usize,
    /// How many documents the corpus has.
    pub total: usize,
}

/// The phase in which a run begins, given that the store holds `stored`
/// entries: a store at or above `threshold` is left alone.
pub open spec fn opening_phase(stored: nat, threshold: nat) -> IngestPhase {
    if stored >= threshold {
        IngestPhase::Skipped
    } else {
        IngestPhase::AwaitingCorpus
    }
}

/// The phase after the store answered the write of document `document`.
pub open spec fn phase_after_put(document: usize, stored: bool) -> IngestPhase {
    if stored {
        IngestPhase::AwaitingIndex
    } else {
        IngestPhase::Failed { error: IngestError::Store { document } }
    }
}

/// The phase once `completed` of the corpus's `total` documents are done.
pub open spec fn phase_after_index(completed: nat, total: nat) -> IngestPhase {
    if completed >= total {
        IngestPhase::Complete
    } else {
        IngestPhase::AwaitingKey
    }
}

/// Decides whether a run begins or is skipped.
pub fn open_phase(stored: usize, threshold: usize) -> (phase: IngestPhase)
    ensures
        phase == opening_phase(stored as nat, threshold as nat),
{
    if stored >= threshold {
        IngestPhase::Skipped
    } else {
        IngestPhase::AwaitingCorpus
    }
}

/// Decides how a run goes on after the store answered a write.
pub fn put_phase(document: usize, stored: bool) -> (phase: IngestPhase)
    ensures
        phase == phase_after_put(document, stored),
{
    if stored {
        IngestPhase::AwaitingIndex
    } else {
        IngestPhase::Failed { error: IngestError::Store { document } }
    }
}

/// Decides how a run goes on once `completed` of `total` documents are done.
pub fn index_phase(completed: usize, total: usize) -> (phase: IngestPhase)
    ensures
        phase == phase_after_index(completed as nat, total as nat),
{
    if completed >= total {
        IngestPhase::Complete
    } else {
        IngestPhase::AwaitingKey
    }
}

/// A run as contracts see it.
pub struct IngestState {
    /// The number of entries from which on a store counts as populated.
    pub threshold: nat,
    /// The number of entries that the store reported when the run was set up.
    pub counted: nat,
    /// The documents to ingest, in the order in which they are taken: none
    /// until the corpus is handed over.
    pub corpus: Seq<Document>,
    /// Where the run stands.
    pub phase: IngestPhase,
    /// How many documents are both stored and indexed.
    pub completed: nat,
    /// The key under which the store accepted each stored document, in
    /// corpus order.
    pub keys: Seq<Seq<u8>>,
}

impl IngestState {
    /// The counts fit the phase, and the run is skipped exactly when the
    /// store reported itself populated.
    pub open spec fn consistent(self) -> bool {
        &&& self.corpus.len() <= usize::MAX
        &&& self.phase is Skipped <==> self.counted >= self.threshold
        &&& match self.phase {
            IngestPhase::AwaitingCorpus => self.keys.len() == self.completed == self.corpus.len()
                == 0,
            IngestPhase::AwaitingKey => self.keys.len() == self.completed < self.corpus.len(),
            IngestPhase::AwaitingIndex => self.keys.len() == self.completed + 1
                <= self.corpus.len(),
            IngestPhase::Complete => self.keys.len() == self.completed == self.corpus.len(),
            IngestPhase::Skipped => self.keys.len() == self.completed == self.corpus.len() == 0,
            IngestPhase::Failed { error: IngestError::Cipher { document } } => self.keys.len()
                == self.completed == document < self.corpus.len(),
            IngestPhase::Failed { error: IngestError::Store { document } } => self.keys.len()
                == self.completed == document < self.corpus.len(),
            IngestPhase::Failed { error: IngestError::Index { document } } => self.keys.len()
                == self.completed + 1 <= self.corpus.len() && document == self.completed,
        }
    }

    /// The writes that the run handed to the store and the store accepted:
    /// the bytes of each stored document under its key, in corpus order.
    pub open spec fn writes(self) -> Seq<Write> {
        Seq::new(self.keys.len(), |i: int| (self.keys[i], encode_utf8(self.corpus[i].content@)))
    }

    /// What the run asks of its surroundings.
    pub open spec fn pending(self) -> IngestRequest {
        match self.phase {
            IngestPhase::AwaitingCorpus => IngestRequest::Load,
            IngestPhase::AwaitingKey => IngestRequest::Encrypt {
                id: self.corpus[self.completed as int].id,
            },
            IngestPhase::AwaitingIndex => IngestRequest::Index {
                id: self.corpus[self.completed as int].id,
                content: self.corpus[self.completed as int].content,
            },
            IngestPhase::Complete | IngestPhase::Skipped => IngestRequest::Done,
            IngestPhase::Failed { error } => IngestRequest::Halt { error },
        }
    }

    /// Whether `event` answers the pending request.
    pub open spec fn expects(self, event: IngestEvent) -> bool {
        match self.phase {
            IngestPhase::AwaitingCorpus => event is Loaded,
            IngestPhase::AwaitingKey => event is Key || event is CipherFailed,
            IngestPhase::AwaitingIndex => event is Indexed || event is IndexFailed,
            _ => false,
        }
    }

    /// The run after `event`, where `stored` says whether the store took the
    /// write that a key sets off. An event that does not answer the pending
    /// request changes nothing.
    pub open spec fn step(self, event: IngestEvent, stored: bool) -> IngestState {
        if !self.expects(event) {
            self
        } else {
            match event {
                IngestEvent::Loaded { corpus } => IngestState {
                    corpus: corpus@,
                    phase: phase_after_index(0, corpus@.len()),
                    ..self
                },
                IngestEvent::Key { key } => IngestState {
                    phase: phase_after_put(self.completed as usize, stored),
                    keys: if stored {
                        self.keys.push(key@)
                    } else {
                        self.keys
                    },
                    ..self
                },
                IngestEvent::CipherFailed => IngestState {
                    phase: IngestPhase::Failed {
                        error: IngestError::Cipher { document: self.completed as usize },
                    },
                    ..self
                },
                IngestEvent::Indexed => IngestState {
                    phase: phase_after_index(self.completed + 1, self.corpus.len()),
                    completed: self.completed + 1,
                    ..self
                },
                IngestEvent::IndexFailed => IngestState {
                    phase: IngestPhase::Failed {
                        error: IngestError::Index { document: self.completed as usize },
                    },
                    ..self
                },
            }
        }
    }

    /// The report that `event` sets off: one for each document that the index
    /// took, and none otherwise.
    pub open spec fn report(self, event: IngestEvent) -> Option<ProgressEvent> {
        if self.phase is AwaitingIndex && event is Indexed {
            Some(
                ProgressEvent {
                    completed: self.completed as usize,
                    total: self.corpus.len() as usize,
                },
            )
        } else {
            None
        }
    }
}

/// A run of the indexing pipeline over one corpus. It owns the adapter
/// through which it writes the store.
pub struct Ingestion {
    store: Store,
    corpus: Vec<Document>,
    threshold: usize,
    counted: usize,
    completed: usize,
    phase: IngestPhase,
    keys: Ghost<Seq<Seq<u8>>>,
    inherited: Ghost<Seq<Write>>,
}

impl View for Ingestion {
    type V = IngestState;

    closed spec fn view(&self) -> IngestState {
        IngestState {
            threshold: self.threshold as nat,
            counted: self.counted as nat,
            corpus: self.corpus@,
            phase: self.phase,
            completed: self.completed as nat,
            keys: self.keys@,
        }
    }
}

impl Ingestion {
    /// The writes that the store accepted through the run's adapter.
    pub closed spec fn accepted(&self) -> Seq<Write> {
        self.store.accepted()
    }

    /// The writes that the store had accepted through the adapter before it
    /// was given to the run.
    pub closed spec fn inherited(&self) -> Seq<Write> {
        self.inherited@
    }

    /// The counts fit the phase, and what the store accepted through the
    /// adapter since the run has it is what the run records as written.
    pub open spec fn wf(&self) -> bool {
        &&& self@.consistent()
        &&& self.accepted() == self.inherited() + self@.writes()
    }

    /// Sets up a run. The store is asked how many entries it holds. One that
    /// reports `threshold` entries or more is taken as populated, and the
    /// run is then over before it began: it does not even ask for the corpus.
    pub fn new(store: Store, threshold: usize) -> (run: Ingestion)
        ensures
            run.wf(),
            run@.threshold == threshold,
            run@.phase == opening_phase(run@.counted, run@.threshold),
            run@.corpus.len() == 0,
            run@.completed == 0,
            run@.keys.len() == 0,
            run.inherited() == store.accepted(),
            run.accepted() == store.accepted(),
    {
        let counted = store.len();
        let phase = open_phase(counted, threshold);
        let ghost before = store.accepted();
        let run = Ingestion {
            store,
            corpus: Vec::new(),
            threshold,
            counted,
            completed: 0,
            phase,
            keys: Ghost(Seq::empty()),
            inherited: Ghost(before),
        };
        assert(run@.writes() =~= Seq::<Write>::empty());
        assert(before + Seq::<Write>::empty() =~= before);
        run
    }

    /// How many entries the store reported when the run was set up.
    pub fn counted(&self) -> (n: usize)
        ensures
            n == self@.counted,
    {
        self.counted
    }

    /// Where the run stands.
    pub fn phase(&self) -> (phase: IngestPhase)
        ensures
            phase == self@.phase,
    {
        self.phase
    }

    /// How many documents are both stored and indexed.
    pub fn completed(&self) -> (n: usize)
        ensures
            n == self@.completed,
    {
        self.completed
    }

    /// How many documents the corpus has.
    pub fn total(&self) -> (n: usize)
        ensures
            n == self@.corpus.len(),
    {
        self.corpus.len()
    }

    /// The adapter through which the run writes the store.
    pub fn store(&self) -> (store: &Store)
        ensures
            store.accepted() == self.accepted(),
    {
        &self.store
    }

    /// What the run asks of its surroundings next.
    pub fn pending(&self) -> (request: IngestRequest)
        requires
            self.wf(),
        ensures
            request == self@.pending(),
    {
        match self.phase {
            IngestPhase::AwaitingCorpus => IngestRequest::Load,
            IngestPhase::AwaitingKey => IngestRequest::Encrypt {
                id: self.corpus[self.completed].id,
            },
            IngestPhase::AwaitingIndex => IngestRequest::Index {
                id: self.corpus[self.completed].id,
                content: self.corpus[self.completed].content.clone(),
            },
            IngestPhase::Complete => IngestRequest::Done,
            IngestPhase::Skipped => IngestRequest::Done,
            IngestPhase::Failed { error } => IngestRequest::Halt { error },
        }
    }

    /// Takes the answer to the pending request. The corpus is taken over,
    /// and the run goes on to its first document or, where it has none, is
    /// complete. A key has the document written to the store under it, and
    /// the run goes on to the index or fails with the store. A document that
    /// the index took is reported, and the run goes on to the next document
    /// or is complete. A failure of the cipher or the index ends the run. Any
    /// other event changes nothing. Only a key has anything handed to the
    /// store, and the key is recorded where the store accepted the document.
    pub fn advance(&mut self, event: IngestEvent) -> (progress: Option<ProgressEvent>)
        requires
            old(self).wf(),
        ensures
            final(self).wf(),
            final(self).inherited() == old(self).inherited(),
            progress == old(self)@.report(event),
            final(self)@ == old(self)@.step(event, true) || final(self)@ == old(self)@.step(
                event,
                false,
            ),
            !(old(self)@.phase is AwaitingKey && event is Key) ==> final(self)@ == old(self)@.step(
                event,
                true,
            ) && final(self).accepted() == old(self).accepted(),
            old(self)@.phase is AwaitingKey ==> (event matches IngestEvent::Key { key }
                ==> final(self).accepted() == recorded(
                old(self).accepted(),
                key@,
                encode_utf8(old(self)@.corpus[old(self)@.completed as int].content@),
                final(self)@.phase is AwaitingIndex,
            )),
    {
        let total = self.corpus.len();
        match self.phase {
            IngestPhase::AwaitingCorpus => match event {
                IngestEvent::Loaded { corpus } => {
                    self.phase = index_phase(0, corpus.len());
                    self.corpus = corpus;
                    assert(self@.writes() =~= old(self)@.writes());
                    None
                },
                _ => None,
            },
            IngestPhase::AwaitingKey => match event {
                IngestEvent::Key { key } => {
                    let outcome = self.store.put(
                        key.as_slice(),
                        self.corpus[self.completed].content.as_str(),
                    );
                    self.phase = put_phase(self.completed, outcome.is_ok());
                    proof {
                        if outcome is Ok {
                            self.keys@ = self.keys@.push(key@);
                            assert(self@.writes() =~= old(self)@.writes().push(
                                (key@, encode_utf8(self.corpus@[self.completed as int].content@)),
                            ));
                            assert(self.accepted() =~= self.inherited() + self@.writes());
                        } else {
                            assert(self@.writes() =~= old(self)@.writes());
                        }
                    }
                    None
                },
                IngestEvent::CipherFailed => {
                    self.phase = IngestPhase::Failed {
                        error: IngestError::Cipher { document: self.completed },
                    };
                    assert(self@.writes() =~= old(self)@.writes());
                    None
                },
                _ => None,
            },
            IngestPhase::AwaitingIndex => match event {
                IngestEvent::Indexed => {
                    let report = ProgressEvent { completed: self.completed, total };
                    self.completed = self.completed + 1;
                    self.phase = index_phase(self.completed, total);
                    assert(self@.writes() =~= old(self)@.writes());
                    Some(report)
                },
                IngestEvent::IndexFailed => {
                    self.phase = IngestPhase::Failed {
                        error: IngestError::Index { document: self.completed },
                    };
                    assert(self@.writes() =~= old(self)@.writes());
                    None
                },
                _ => None,
            },
            _ => None,
        }
    }
}

/// An event keeps the counts in step with the phase, and leaves the corpus
/// alone once it was handed over. It completes at most one document, and it
/// sets off a report exactly when it completes one: the report then carries
/// the number of documents done before and the size of the corpus, so that
/// successive reports count up by one under a constant total. What the run
/// records as written only grows.
pub proof fn step_keeps_order(state: IngestState, event: IngestEvent, stored: bool)
    requires
        state.consistent(),
    ensures
        state.step(event, stored).consistent(),
        !(state.phase is AwaitingCorpus) ==> state.step(event, stored).corpus == state.corpus,
        state.report(event) is None ==> state.step(event, stored).completed == state.completed,
        state.report(event) matches Some(report) ==> report.completed == state.completed
            && report.total == state.corpus.len() && state.step(event, stored).completed
            == state.completed + 1,
        state.keys.is_prefix_of(state.step(event, stored).keys),
{
    if let IngestEvent::Loaded { corpus } = event {
        assert(corpus@.len() == corpus.len());
    }
}

/// A run that was skipped stays skipped: whatever it is told, it asks for
/// nothing, reports nothing, and has handed nothing to the store.
pub proof fn skipped_run_is_inert(state: IngestState, event: IngestEvent, stored: bool)
    requires
        state.consistent(),
        state.phase is Skipped,
    ensures
        state.pending() == IngestRequest::Done,
        state.report(event) is None,
        state.step(event, stored) == state,
        state.writes() == Seq::<Write>::empty(),
{
    assert(state.writes() =~= Seq::<Write>::empty());
}

/// A store that reported itself populated when the run was set up is left
/// alone: the run is skipped, asks for nothing, and has handed nothing to
/// the store.
pub proof fn populated_store_is_skipped(state: IngestState)
    requires
        state.consistent(),
        state.counted >= state.threshold,
    ensures
        state.phase is Skipped,
        state.pending() == IngestRequest::Done,
        state.writes() == Seq::<Write>::empty(),
{
    assert(state.writes() =~= Seq::<Write>::empty());
}

/// A run hands to the store only what it records: what the store accepted
/// through the run's adapter is what it had accepted before and, after that,
/// each stored document under its key.
pub proof fn run_writes_what_it_records(run: Ingestion)
    requires
        run.wf(),
    ensures
        run.accepted() == run.inherited() + run@.writes(),
        run@.phase is Skipped ==> run.accepted() == run.inherited(),
{
    if run@.phase is Skipped {
        assert(run@.writes() =~= Seq::<Write>::empty());
        assert(run.inherited() + Seq::<Write>::empty() =~= run.inherited());
    }
}

/// The store and the index agree: each completed document is in both, and at
/// most one document is in the store while the index has yet to take it.
pub proof fn stored_and_indexed_agree(state: IngestState)
    requires
        state.consistent(),
    ensures
        state.completed <= state.keys.len() <= state.completed + 1,
        state.phase is Complete ==> state.completed == state.keys.len() == state.corpus.len(),
{
}

/// Take a store that held `initial`, and that holds `entries` now because
/// it accepted the writes of a complete run and no others. Where the run's
/// keys differ from each other and from every key of `initial`, the store
/// holds one more entry for each document of the corpus: as many entries as
/// documents where it was empty.
pub proof fn complete_run_fills_store(
    state: IngestState,
    initial: Map<Seq<u8>, Seq<u8>>,
    entries: Map<Seq<u8>, Seq<u8>>,
)
    requires
        state.consistent(),
        state.phase is Complete,
        entries == replay(initial, state.writes()),
        initial.dom().finite(),
        distinct(state.writes()),
        fresh(state.writes(), initial),
    ensures
        counts(entries, initial.dom().len() + state.corpus.len()),
        initial == Map::<Seq<u8>, Seq<u8>>::empty() ==> counts(entries, state.corpus.len()),
{
    replay_adds_one_each(initial, state.writes());
}

/// Round trip: take a store that held `initial`, and that holds `entries`
/// now because it accepted the writes of a run and no others. What it holds
/// under the key of a stored document resolves to that document's content,
/// unless a later document was written under the same key.
pub proof fn stored_document_round_trip(
    state: IngestState,
    initial: Map<Seq<u8>, Seq<u8>>,
    entries: Map<Seq<u8>, Seq<u8>>,
    i: int,
)
    requires
        state.consistent(),
        entries == replay(initial, state.writes()),
        0 <= i < state.keys.len(),
        forall|j: int| i < j < state.keys.len() ==> state.keys[j] != state.keys[i],
    ensures
        resolved(entries, state.keys[i]) == Ok::<Seq<char>, FetchError>(
            state.corpus[i].content@,
        ),
{
    replay_holds_last_write(initial, state.writes(), i);
    content_round_trip(state.corpus[i].content@);
}

} // verus!

//! The search coordinator: one worker that takes phrase queries one at a
//! time and resolves the matches of each to content in the store. The index
//! and the cipher work outside this library: the coordinator asks for the
//! storage keys of a phrase's matches and is told the outcome as an event.

use vstd::prelude::*;
use vstd::string::{StrSliceExecFns, StringSliceAdditionalSpecFns};
use vstd::utf8::encode_utf8;
use crate::doc::EncryptedId;
use crate::store::{FetchError, Store};

verus! {

/// Why a query got no content.
#[derive(Clone, Copy, Debug, PartialEq, Eq, Structural)]
pub enum SearchError {
    /// The index could not run the query.
    Index,
    /// The cipher could not encrypt the identifier of a match.
    Cipher,
    /// The store did not answer for the match at this position.
    Store { position: usize },
    /// The store has no content for the match at this position: the index
    /// and the store disagree.
    Missing { position: usize },
}

/// The error of a query whose match at `position` could not be fetched.
pub open spec fn failure_at(error: FetchError, position: usize) -> SearchError {
    match error {
        FetchError::Missing => SearchError::Missing { position },
        FetchError::Unavailable => SearchError::Store { position },
    }
}

/// Names the match on which a query failed.
pub fn fetch_failure(error: FetchError, position: usize) -> (failure: SearchError)
    ensures
        failure == failure_at(error, position),
{
    match error {
        FetchError::Missing => SearchError::Missing { position },
        FetchError::Unavailable => SearchError::Store { position },
    }
}

/// The outcome of a query whose matches were fetched with `answers`, in the
/// order of the matches: the content of each, or the failure of the first
/// that could not be fetched, named by its position.
pub open spec fn gathered(answers: Seq<Result<String, FetchError>>) -> Result<
    Seq<String>,
    SearchError,
>
    decreases answers.len(),
{
    if answers.len() == 0 {
        Ok(Seq::empty())
    } else {
        match gathered(answers.drop_last()) {
            Err(failure) => Err(failure),
            Ok(contents) => match answers.last() {
                Ok(content) => Ok(contents.push(content)),
                Err(error) => Err(failure_at(error, (answers.len() - 1) as usize)),
            },
        }
    }
}

/// Whether `outcome` can be that of a query with `matches` matches: one
/// content for each match, or a failure of the store on one of them.
pub open spec fn settles(matches: nat, outcome: Result<Vec<String>, SearchError>) -> bool {
    match outcome {
        Ok(contents) => contents@.len() == matches,
        Err(SearchError::Missing { position }) => position < matches,
        Err(SearchError::Store { position }) => position < matches,
        Err(_) => false,
    }
}

/// A failure among the first answers is the outcome, whatever follows.
pub proof fn first_failure_decides(answers: Seq<Result<String, FetchError>>, n: int)
    requires
        0 <= n <= answers.len(),
        gathered(answers.take(n)) is Err,
    ensures
        gathered(answers) == gathered(answers.take(n)),
    decreases answers.len() - n,
{
    if n < answers.len() {
        assert(answers.take(n + 1).drop_last() =~= answers.take(n));
        first_failure_decides(answers, n + 1);
    } else {
        assert(answers.take(n) =~= answers);
    }
}

/// The outcome holds one content for each answer where none failed, and
/// else names an answer that failed.
pub proof fn gathered_settles(answers: Seq<Result<String, FetchError>>)
    requires
        answers.len() <= usize::MAX,
    ensures
        match gathered(answers) {
            Ok(contents) => contents.len() == answers.len() && forall|i: int|
                0 <= i < answers.len() ==> #[trigger] answers[i] == Ok::<String, FetchError>(
                    contents[i],
                ),
            Err(SearchError::Missing { position }) => position < answers.len() && answers[position as int]
                == Err::<String, FetchError>(FetchError::Missing),
            Err(SearchError::Store { position }) => position < answers.len() && answers[position as int]
                == Err::<String, FetchError>(FetchError::Unavailable),
            Err(_) => false,
        },
    decreases answers.len(),
{
    if answers.len() > 0 {
        let front = answers.drop_last();
        gathered_settles(front);
        match gathered(front) {
            Ok(contents) => {
                assert forall|i: int| 0 <= i < front.len() implies answers[i] == Ok::<
                    String,
                    FetchError,
                >(contents[i]) by {
                    assert(front[i] == answers[i]);
                }
            },
            Err(SearchError::Missing { position }) => {
                assert(front[position as int] == answers[position as int]);
            },
            Err(SearchError::Store { position }) => {
                assert(front[position as int] == answers[position as int]);
            },
            Err(_) => {},
        }
    }
}

/// Turns the answers of the store for the matches of a query, in the order
/// of the matches, into the outcome of the query.
pub fn gather(answers: &Vec<Result<String, FetchError>>) -> (outcome: Result<
    Vec<String>,
    SearchError,
>)
    ensures
        match gathered(answers@) {
            Ok(contents) => outcome matches Ok(found) && found@ == contents,
            Err(failure) => outcome == Err::<Vec<String>, SearchError>(failure),
        },
{
    let mut contents: Vec<String> = Vec::new();
    let mut position: usize = 0;
    assert(answers@.take(0) =~= Seq::empty());
    while position < answers.len()
        invariant
            position <= answers@.len(),
            gathered(answers@.take(position as int)) == Ok::<Seq<String>, SearchError>(contents@),
        decreases answers@.len() - position,
    {
        assert(answers@.take(position + 1).drop_last() =~= answers@.take(position as int));
        match &answers[position] {
            Ok(content) => {
                contents.push(content.clone());
            },
            Err(error) => {
                proof {
                    first_failure_decides(answers@, position + 1);
                }
                return Err(fetch_failure(*error, position));
            },
        }
        position = position + 1;
    }
    assert(answers@.take(position as int) =~= answers@);
    Ok(contents)
}

/// Fetches the content under each key from the store, in the order of the
/// keys, up to the first key that cannot be fetched, and gathers the answers
/// into the outcome.
pub fn resolve_all(store: &Store, keys: &Vec<EncryptedId>) -> (outcome: Result<
    Vec<String>,
    SearchError,
>)
    ensures
        settles(keys@.len(), outcome),
{
    let mut answers: Vec<Result<String, FetchError>> = Vec::new();
    let mut failed = false;
    while answers.len() < keys.len() && !failed
        invariant
            answers@.len() <= keys@.len(),
            !failed ==> forall|i: int| 0 <= i < answers@.len() ==> (#[trigger] answers@[i]) is Ok,
            failed ==> answers@.len() > 0 && answers@.last() is Err,
        decreases keys@.len() - answers@.len() + if failed { 0int } else { 1int },
    {
        let answer = store.get(keys[answers.len()].as_slice());
        failed = answer.is_err();
        answers.push(answer);
    }
    proof {
        gathered_settles(answers@);
    }
    gather(&answers)
}

/// Where the coordinator stands with the request that it is serving.
#[derive(Debug, PartialEq, Eq)]
pub enum SearchPhase {
    /// No request is being served.
    Idle,
    /// The phrase is with the index, and its matches go on to the cipher.
    Querying { phrase: String },
}

/// What the coordinator asks of its surroundings next.
#[derive(Debug, PartialEq, Eq)]
pub enum SearchRequest {
    /// Hand over the next phrase that was submitted, as `SearchEvent::Submitted`.
    Await,
    /// Run this phrase on the index, encrypt the identifiers that it finds,
    /// and answer with `SearchEvent::Matches`.
    Query { phrase: String },
}

/// What the surroundings tell the coordinator.
#[derive(Debug, PartialEq, Eq)]
pub enum SearchEvent {
    /// A phrase arrived on the search channel.
    Submitted { phrase: String },
    /// The storage keys of the documents that the index found for the
    /// phrase, in the order in which it found them.
    Matches { keys: Vec<EncryptedId> },
    /// The index could not run the query.
    QueryFailed,
    /// The cipher failed on a match.
    CipherFailed,
}

/// The coordinator as contracts see it.
pub struct SearchState {
    /// Where the coordinator stands.
    pub phase: SearchPhase,
    /// How many requests were taken up.
    pub accepted: nat,
    /// How many requests were replied to.
    pub served: nat,
}

impl SearchState {
    /// Every request taken up was replied to, but for the one being served.
    pub open spec fn consistent(self) -> bool {
        if self.phase is Idle {
            self.accepted == self.served
        } else {
            self.accepted == self.served + 1
        }
    }

    /// What the coordinator asks of its surroundings.
    pub open spec fn pending(self) -> SearchRequest {
        match self.phase {
            SearchPhase::Idle => SearchRequest::Await,
            SearchPhase::Querying { phrase } => SearchRequest::Query { phrase },
        }
    }

    /// Whether `event` answers the pending request.
    pub open spec fn expects(self, event: SearchEvent) -> bool {
        match self.phase {
            SearchPhase::Idle => event is Submitted,
            SearchPhase::Querying { .. } => !(event is Submitted),
        }
    }

    /// Whether `event` ends the request being served.
    pub open spec fn replies(self, event: SearchEvent) -> bool {
        self.phase is Querying && !(event is Submitted)
    }

    /// The coordinator after `event`. An event that does not answer the
    /// pending request changes nothing: a phrase submitted while a request is
    /// being served is not taken up.
    pub open spec fn step(self, event: SearchEvent) -> SearchState {
        if !self.expects(event) {
            self
        } else {
            match event {
                SearchEvent::Submitted { phrase } => SearchState {
                    phase: SearchPhase::Querying { phrase },
                    accepted: self.accepted + 1,
                    ..self
                },
                _ => SearchState { phase: SearchPhase::Idle, served: self.served + 1, ..self },
            }
        }
    }
}

/// The single worker that serves search requests. It owns the adapter
/// through which it reads the store.
pub struct Coordinator {
    store: Store,
    phase: SearchPhase,
    accepted: Ghost<nat>,
    served: Ghost<nat>,
}

impl View for Coordinator {
    type V = SearchState;

    closed spec fn view(&self) -> SearchState {
        SearchState { phase: self.phase, accepted: self.accepted@, served: self.served@ }
    }
}

impl Coordinator {
    /// Whether `reply` is what `event` sets off: nothing unless the event
    /// ends the request being served, the failure of the index or the cipher
    /// where one failed, and else an outcome of fetching the matches from the
    /// store.
    pub open spec fn answers(
        &self,
        event: SearchEvent,
        reply: Option<Result<Vec<String>, SearchError>>,
    ) -> bool {
        if !self@.replies(event) {
            reply is None
        } else {
            match event {
                SearchEvent::Matches { keys } => reply matches Some(outcome) && settles(
                    keys@.len(),
                    outcome,
                ),
                SearchEvent::QueryFailed => reply == Some(
                    Err::<Vec<String>, SearchError>(SearchError::Index),
                ),
                _ => reply == Some(Err::<Vec<String>, SearchError>(SearchError::Cipher)),
            }
        }
    }

    /// An idle coordinator over `store`.
    pub fn new(store: Store) -> (worker: Coordinator)
        ensures
            worker@.phase is Idle,
            worker@.accepted == 0,
            worker@.served == 0,
    {
        Coordinator { store, phase: SearchPhase::Idle, accepted: Ghost(0), served: Ghost(0) }
    }

    /// Whether no request is being served.
    pub fn is_idle(&self) -> (idle: bool)
        ensures
            idle == (self@.phase is Idle),
    {
        match &self.phase {
            SearchPhase::Idle => true,
            _ => false,
        }
    }

    /// The adapter through which the coordinator reads the store.
    pub fn store(&self) -> (store: &Store) {
        &self.store
    }

    /// What the coordinator asks of its surroundings next.
    pub fn pending(&self) -> (request: SearchRequest)
        ensures
            request == self@.pending(),
    {
        match &self.phase {
            SearchPhase::Idle => SearchRequest::Await,
            SearchPhase::Querying { phrase } => SearchRequest::Query { phrase: phrase.clone() },
        }
    }

    /// Takes the answer to the pending request. An idle coordinator takes up
    /// the phrase that was submitted. One that is serving a request replies
    /// to it: with the content of the matches, fetched from the store in
    /// their order, or with what failed. Any other event changes nothing and
    /// sets off no reply.
    pub fn advance(&mut self, event: SearchEvent) -> (reply: Option<
        Result<Vec<String>, SearchError>,
    >)
        ensures
            final(self)@ == old(self)@.step(event),
            old(self).answers(event, reply),
    {
        let idle = self.is_idle();
        match event {
            SearchEvent::Submitted { phrase } => {
                if idle {
                    self.phase = SearchPhase::Querying { phrase };
                    proof {
                        self.accepted@ = self.accepted@ + 1;
                    }
                }
                None
            },
            SearchEvent::Matches { keys } => {
                if idle {
                    None
                } else {
                    let outcome = resolve_all(&self.store, &keys);
                    self.close();
                    Some(outcome)
                }
            },
            SearchEvent::QueryFailed => {
                if idle {
                    None
                } else {
                    self.close();
                    Some(Err(SearchError::Index))
                }
            },
            SearchEvent::CipherFailed => {
                if idle {
                    None
                } else {
                    self.close();
                    Some(Err(SearchError::Cipher))
                }
            },
        }
    }

    /// Ends the request being served.
    fn close(&mut self)
        ensures
            final(self)@ == (SearchState {
                phase: SearchPhase::Idle,
                served: old(self)@.served + 1,
                ..old(self)@
            }),
    {
        self.phase = SearchPhase::Idle;
        proof {
            self.served@ = self.served@ + 1;
        }
    }
}

/// While a request is being served no other is taken up: a phrase that is
/// submitted then changes nothing and gets no reply, so that requests are
/// served one at a time and in the order in which they were taken up.
pub proof fn busy_coordinator_defers(state: SearchState, phrase: String)
    requires
        !(state.phase is Idle),
    ensures
        state.step(SearchEvent::Submitted { phrase }) == state,
        !state.replies(SearchEvent::Submitted { phrase }),
{
}

/// Each request gets one reply: an event sets off a reply exactly when it
/// ends the request being served, the coordinator is idle afterwards, and a
/// request is taken up only by an idle coordinator.
pub proof fn one_reply_per_request(state: SearchState, event: SearchEvent)
    requires
        state.consistent(),
    ensures
        state.step(event).consistent(),
        state.replies(event) <==> state.step(event).served == state.served + 1,
        !state.replies(event) ==> state.step(event).served == state.served,
        state.replies(event) ==> !(state.phase is Idle) && state.step(event).phase is Idle,
        state.step(event).accepted == state.accepted + 1 <==> state.phase is Idle
            && event is Submitted,
        state.step(event).accepted == state.accepted || state.step(event).accepted
            == state.accepted + 1,
{
}

/// The number of bytes that a phrase must at least have to be worth a search.
pub const SHORTEST_PHRASE: usize = 4;

/// The number of characters that a phrase must exceed to be worth a search.
pub const TOO_FEW_CHARACTERS: usize = 2;

/// Whether a phrase of these characters is worth a search: it has at least
/// `SHORTEST_PHRASE` bytes and more than `TOO_FEW_CHARACTERS` characters.
pub open spec fn admitted(phrase: Seq<char>) -> bool {
    encode_utf8(phrase).len() >= SHORTEST_PHRASE && phrase.len() > TOO_FEW_CHARACTERS
}

/// Whether a phrase is long enough to be submitted. A shorter one is not
/// searched for and has no results.
pub fn admits(phrase: &str) -> (long_enough: bool)
    ensures
        long_enough == admitted(phrase@),
{
    phrase.as_bytes().len() >= SHORTEST_PHRASE && phrase.unicode_len() > TOO_FEW_CHARACTERS
}

} // verus!

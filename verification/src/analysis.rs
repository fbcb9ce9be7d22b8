//! Dispatch of the chunks to the analysis service, one request at a time, and
//! the collection of what comes back.
//!
//! The requests themselves are made by the caller. The [`Orchestrator`] says
//! which request is due next and takes its outcome; a failed request is kept
//! against its chunk and never ends the run.

use crate::text::{append_decimal, decimal};
use vstd::prelude::*;
use vstd::string::*;

verus! {

/// Why a request to the analysis service gave no answer.
#[derive(Debug, Clone, PartialEq, Eq)]
pub enum ServiceCallError {
    /// The request did not get through, or no response came back.
    Network { reason: String },
    /// The service answered with a status outside 200 to 299.
    Status { code: u16 },
    /// The response could not be read as an answer.
    MalformedPayload { reason: String },
}

impl ServiceCallError {
    /// The failure in words.
    pub open spec fn spec_describe(&self) -> Seq<char> {
        match self {
            ServiceCallError::Network { reason } => "network failure: "@ + reason@,
            ServiceCallError::Status { code } => "unexpected status "@ + decimal(*code as nat),
            ServiceCallError::MalformedPayload { reason } => "malformed payload: "@ + reason@,
        }
    }

    /// The failure in words.
    pub fn describe(&self) -> (words: String)
        ensures
            words@ == self.spec_describe(),
    {
        let mut words = String::new();
        match self {
            ServiceCallError::Network { reason } => {
                words.append("network failure: ");
                words.append(reason.as_str());
            },
            ServiceCallError::Status { code } => {
                words.append("unexpected status ");
                append_decimal(&mut words, *code as u64);
            },
            ServiceCallError::MalformedPayload { reason } => {
                words.append("malformed payload: ");
                words.append(reason.as_str());
            },
        }
        assert(words@ =~= self.spec_describe());
        words
    }
}

/// The two analyses that are asked for each chunk.
#[derive(Debug, PartialEq, Eq, Clone, Copy, Structural)]
pub enum AnalysisKind {
    Classification,
    Summary,
}

impl AnalysisKind {
    /// The instruction that goes with a request of this kind.
    pub open spec fn spec_system_prompt(self) -> Seq<char> {
        match self {
            AnalysisKind::Classification => r#"
            Analyze the logs and return codes from these categories:
            - SUCCESS: Successful execution without errors
            - USER_CODE_ERROR
            - SCALING_ERROR
            - SPARK_ERROR
            - SPARK_OOM_ERROR
            - NETWORK_ERROR
            - PERMISSION_ERROR
            - UNKNOWN_ERROR

            Rules:
            1. If execution was successful, return only "SUCCESS"
            2. Otherwise, return up to 3 error codes from highest to lowest probability (left to right)

            Return only the comma-separated list, no other text.
        "#@,
            AnalysisKind::Summary => r#"
            Summarize the log in this format:
            One or two sentences describing the overall situation.

            Then list up to 3 key points with specific metrics where available:
            - For timeouts: include duration (ms/s)
            - For memory issues: include usage values (MB/GB)
            - For connection errors: include retry counts or failure duration
            - For performance issues: include specific thresholds or values

            Use "-" (hyphen) for each point. Include only metrics that appear in the logs.
            Do not include any labels or prefixes in your response.
        "#@,
        }
    }

    /// The instruction that goes with a request of this kind.
    pub fn system_prompt(&self) -> (prompt: &'static str)
        ensures
            prompt@ == self.spec_system_prompt(),
    {
        match self {
            AnalysisKind::Classification => r#"
            Analyze the logs and return codes from these categories:
            - SUCCESS: Successful execution without errors
            - USER_CODE_ERROR
            - SCALING_ERROR
            - SPARK_ERROR
            - SPARK_OOM_ERROR
            - NETWORK_ERROR
            - PERMISSION_ERROR
            - UNKNOWN_ERROR

            Rules:
            1. If execution was successful, return only "SUCCESS"
            2. Otherwise, return up to 3 error codes from highest to lowest probability (left to right)

            Return only the comma-separated list, no other text.
        "#,
            AnalysisKind::Summary => r#"
            Summarize the log in this format:
            One or two sentences describing the overall situation.

            Then list up to 3 key points with specific metrics where available:
            - For timeouts: include duration (ms/s)
            - For memory issues: include usage values (MB/GB)
            - For connection errors: include retry counts or failure duration
            - For performance issues: include specific thresholds or values

            Use "-" (hyphen) for each point. Include only metrics that appear in the logs.
            Do not include any labels or prefixes in your response.
        "#,
        }
    }
}

/// What came back for one chunk.
#[derive(Debug, PartialEq, Eq)]
pub struct AnalysisResult {
    /// Position of the chunk in the sequence of chunks, from zero.
    pub chunk_index: usize,
    /// The service's answer to the classification request, or why there is none.
    pub classification: Result<String, ServiceCallError>,
    /// The service's answer to the summary request, or why there is none.
    pub summary: Result<String, ServiceCallError>,
}

impl AnalysisResult {
    /// Whether both requests for the chunk were answered.
    pub open spec fn spec_succeeded(&self) -> bool {
        self.classification is Ok && self.summary is Ok
    }

    /// Whether both requests for the chunk were answered.
    pub fn succeeded(&self) -> (answered: bool)
        ensures
            answered == self.spec_succeeded(),
    {
        self.classification.is_ok() && self.summary.is_ok()
    }
}

/// Whether a run with these results counts as a success: some chunk was
/// answered in full, or there was no chunk to ask about.
pub open spec fn spec_run_succeeded(results: Seq<AnalysisResult>) -> bool {
    results.len() == 0 || exists|i: int| 0 <= i < results.len() && (#[trigger] results[i]).spec_succeeded()
}

/// Whether a run with these results counts as a success. Failed chunks do not
/// fail the run as long as one chunk was answered in full.
pub fn run_succeeded(results: &Vec<AnalysisResult>) -> (success: bool)
    ensures
        success == spec_run_succeeded(results@),
{
    if results.len() == 0 {
        return true;
    }
    let mut k: usize = 0;
    while k < results.len()
        invariant
            k <= results@.len(),
            forall|i: int| 0 <= i < k ==> !(#[trigger] results@[i]).spec_succeeded(),
        decreases results@.len() - k,
    {
        if results[k].succeeded() {
            return true;
        }
        k += 1;
    }
    false
}

/// What the caller is to do next.
#[derive(Debug, PartialEq, Eq, Clone, Copy, Structural)]
pub enum Action {
    /// Send the chunk at `chunk_index` with the instruction of `kind`, and
    /// hand the outcome to [`Orchestrator::record`].
    Request { chunk_index: usize, kind: AnalysisKind },
    /// Nothing is left to send.
    Finish,
}

/// The state of a run.
pub struct OrchestratorView {
    /// Number of chunks of the run.
    pub total: nat,
    /// The chunks that are done, in chunk order.
    pub results: Seq<AnalysisResult>,
    /// The classification outcome of the chunk whose summary is still due.
    pub pending: Option<Result<String, ServiceCallError>>,
    /// Whether the run was called off.
    pub cancelled: bool,
}

impl OrchestratorView {
    /// The states that a run can be in: the chunks that are done are the first
    /// ones, each at its own position, and a classification waits for its
    /// summary only while a chunk is left.
    pub open spec fn valid(&self) -> bool {
        &&& self.results.len() <= self.total <= usize::MAX
        &&& self.pending is Some ==> self.results.len() < self.total
        &&& forall|i: int|
            0 <= i < self.results.len() ==> (#[trigger] self.results[i]).chunk_index == i
    }

    /// Whether nothing is left to send.
    pub open spec fn finished(&self) -> bool {
        self.cancelled || self.results.len() >= self.total
    }

    /// The action that is due in this state.
    pub open spec fn next_action(&self) -> Action {
        if self.finished() {
            Action::Finish
        } else if self.pending is Some {
            Action::Request { chunk_index: self.results.len() as usize, kind: AnalysisKind::Summary }
        } else {
            Action::Request {
                chunk_index: self.results.len() as usize,
                kind: AnalysisKind::Classification,
            }
        }
    }

    /// The state after the outcome of the request that was due has come in.
    /// In a finished run the outcome is dropped.
    pub open spec fn record(&self, outcome: Result<String, ServiceCallError>) -> OrchestratorView {
        if self.finished() {
            *self
        } else {
            match self.pending {
                None => OrchestratorView { pending: Some(outcome), ..*self },
                Some(classification) => OrchestratorView {
                    results: self.results.push(
                        AnalysisResult {
                            chunk_index: self.results.len() as usize,
                            classification,
                            summary: outcome,
                        },
                    ),
                    pending: None,
                    ..*self
                },
            }
        }
    }

    /// The state after the run was called off.
    pub open spec fn cancel(&self) -> OrchestratorView {
        OrchestratorView { cancelled: true, ..*self }
    }

    /// Number of requests that are still to be made.
    pub open spec fn requests_left(&self) -> nat {
        if self.finished() {
            0
        } else if self.pending is Some {
            (2 * (self.total - self.results.len()) - 1) as nat
        } else {
            (2 * (self.total - self.results.len())) as nat
        }
    }
}

/// Taking an outcome keeps the state valid and every chunk that is done as it
/// is, whether the outcome is an answer or a failure: the results so far are
/// the first results afterwards.
pub proof fn lemma_record_keeps_results(
    state: OrchestratorView,
    outcome: Result<String, ServiceCallError>,
)
    requires
        state.valid(),
    ensures
        state.record(outcome).valid(),
        state.record(outcome).total == state.total,
        state.results.len() <= state.record(outcome).results.len(),
        state.record(outcome).results.subrange(0, state.results.len() as int) == state.results,
{
    let next = state.record(outcome);
    assert(next.results.subrange(0, state.results.len() as int) =~= state.results);
}

/// Every outcome that is taken in an unfinished run brings the run one request
/// closer to its end, and the run is finished exactly when no request is left.
pub proof fn lemma_record_makes_progress(
    state: OrchestratorView,
    outcome: Result<String, ServiceCallError>,
)
    requires
        state.valid(),
        !state.finished(),
    ensures
        state.record(outcome).requests_left() == state.requests_left() - 1,
        state.requests_left() > 0,
        state.next_action() != Action::Finish,
{
}

/// A failed request is kept against its own chunk: the result of the chunk
/// holds the failure in the place of the answer, and the other outcome of the
/// chunk as it came in.
pub proof fn lemma_failure_is_recorded(
    state: OrchestratorView,
    classification: Result<String, ServiceCallError>,
    summary: Result<String, ServiceCallError>,
)
    requires
        state.valid(),
        !state.finished(),
        state.pending is None,
    ensures
        ({
            let after = state.record(classification).record(summary);
            &&& after.results.len() == state.results.len() + 1
            &&& after.results.last().chunk_index == state.results.len()
            &&& after.results.last().classification == classification
            &&& after.results.last().summary == summary
            &&& after.pending is None
        }),
{
}

/// Collects the outcomes of a run in chunk order.
pub struct Orchestrator {
    total: usize,
    results: Vec<AnalysisResult>,
    pending: Option<Result<String, ServiceCallError>>,
    cancelled: bool,
}

impl View for Orchestrator {
    type V = OrchestratorView;

    closed spec fn view(&self) -> OrchestratorView {
        OrchestratorView {
            total: self.total as nat,
            results: self.results@,
            pending: self.pending,
            cancelled: self.cancelled,
        }
    }
}

impl Orchestrator {
    #[verifier::type_invariant]
    spec fn well_formed(self) -> bool {
        self@.valid()
    }

    /// A run over `total_chunks` chunks, none of which is done.
    pub fn new(total_chunks: usize) -> (run: Self)
        ensures
            run@.total == total_chunks,
            run@.results.len() == 0,
            run@.pending is None,
            !run@.cancelled,
            run@.valid(),
    {
        Orchestrator { total: total_chunks, results: Vec::new(), pending: None, cancelled: false }
    }

    /// The action that is due.
    pub fn next_action(&self) -> (action: Action)
        ensures
            action == self@.next_action(),
            self@.valid(),
    {
        proof {
            use_type_invariant(self);
        }
        if self.cancelled || self.results.len() >= self.total {
            Action::Finish
        } else if self.pending.is_some() {
            Action::Request { chunk_index: self.results.len(), kind: AnalysisKind::Summary }
        } else {
            Action::Request { chunk_index: self.results.len(), kind: AnalysisKind::Classification }
        }
    }

    /// The run after the outcome of the request that was due has come in. A
    /// finished run drops the outcome and stays as it is.
    pub fn record(self, outcome: Result<String, ServiceCallError>) -> (next: Self)
        ensures
            next@ == self@.record(outcome),
            next@.valid(),
    {
        proof {
            use_type_invariant(&self);
        }
        if self.cancelled || self.results.len() >= self.total {
            return self;
        }
        let Orchestrator { total, results, pending, cancelled } = self;
        match pending {
            None => Orchestrator { total, results, pending: Some(outcome), cancelled },
            Some(classification) => {
                let mut results = results;
                let chunk_index = results.len();
                results.push(AnalysisResult { chunk_index, classification, summary: outcome });
                Orchestrator { total, results, pending: None, cancelled }
            },
        }
    }

    /// The run, called off: no further request is due.
    pub fn cancel(self) -> (next: Self)
        ensures
            next@ == self@.cancel(),
            next@.finished(),
            next@.valid(),
    {
        proof {
            use_type_invariant(&self);
        }
        let Orchestrator { total, results, pending, cancelled: _ } = self;
        Orchestrator { total, results, pending, cancelled: true }
    }

    /// Number of chunks of the run.
    pub fn total_chunks(&self) -> (total: usize)
        ensures
            total == self@.total,
    {
        self.total
    }

    /// The results of the chunks that are done, in chunk order.
    pub fn into_results(self) -> (results: Vec<AnalysisResult>)
        ensures
            results@ == self@.results,
            results@.len() <= self@.total,
            forall|i: int| 0 <= i < results@.len() ==> (#[trigger] results@[i]).chunk_index == i,
    {
        proof {
            use_type_invariant(&self);
        }
        self.results
    }
}

/// Outcomes kept by chunk and kind, for callers that send several requests at
/// a time and get the outcomes back in any order.
pub struct SlotsView {
    /// The classification outcome of each chunk, once it has come in.
    pub classifications: Seq<Option<Result<String, ServiceCallError>>>,
    /// The summary outcome of each chunk, once it has come in.
    pub summaries: Seq<Option<Result<String, ServiceCallError>>>,
}

impl SlotsView {
    /// Both kinds have a slot for every chunk.
    pub open spec fn valid(&self) -> bool {
        self.classifications.len() == self.summaries.len() <= usize::MAX
    }

    /// Number of chunks.
    pub open spec fn total(&self) -> nat {
        self.classifications.len()
    }

    /// The slots after `outcome` has come in for the request of `kind` for the
    /// chunk at `chunk_index`. An outcome for a chunk that does not exist is
    /// dropped; a second outcome for the same request replaces the first.
    pub open spec fn place(
        &self,
        chunk_index: usize,
        kind: AnalysisKind,
        outcome: Result<String, ServiceCallError>,
    ) -> SlotsView {
        if chunk_index >= self.total() {
            *self
        } else {
            match kind {
                AnalysisKind::Classification => SlotsView {
                    classifications: self.classifications.update(chunk_index as int, Some(outcome)),
                    ..*self
                },
                AnalysisKind::Summary => SlotsView {
                    summaries: self.summaries.update(chunk_index as int, Some(outcome)),
                    ..*self
                },
            }
        }
    }

    /// Whether both outcomes of the chunk at `chunk_index` have come in.
    pub open spec fn complete(&self, chunk_index: int) -> bool {
        &&& 0 <= chunk_index < self.total()
        &&& self.classifications[chunk_index] is Some
        &&& self.summaries[chunk_index] is Some
    }

    /// The result of the chunk at `chunk_index`, which is complete.
    pub open spec fn result_at(&self, chunk_index: int) -> AnalysisResult {
        AnalysisResult {
            chunk_index: chunk_index as usize,
            classification: self.classifications[chunk_index]->0,
            summary: self.summaries[chunk_index]->0,
        }
    }

    /// The results of the complete chunks from `from` on, in chunk order.
    pub open spec fn results_from(&self, from: int) -> Seq<AnalysisResult>
        decreases self.total() - from,
    {
        if from < 0 || from >= self.total() {
            Seq::empty()
        } else if self.complete(from) {
            seq![self.result_at(from)] + self.results_from(from + 1)
        } else {
            self.results_from(from + 1)
        }
    }

    /// The results of the complete chunks, in chunk order.
    pub open spec fn results(&self) -> Seq<AnalysisResult> {
        self.results_from(0)
    }
}

/// Outcomes for different requests can come in in either order: the slots end
/// up the same, and so do the results.
pub proof fn lemma_place_commutes(
    slots: SlotsView,
    first_index: usize,
    first_kind: AnalysisKind,
    first: Result<String, ServiceCallError>,
    second_index: usize,
    second_kind: AnalysisKind,
    second: Result<String, ServiceCallError>,
)
    requires
        slots.valid(),
        first_index != second_index || first_kind != second_kind,
    ensures
        slots.place(first_index, first_kind, first).place(second_index, second_kind, second)
            == slots.place(second_index, second_kind, second).place(first_index, first_kind, first),
{
    let one = slots.place(first_index, first_kind, first).place(second_index, second_kind, second);
    let other = slots.place(second_index, second_kind, second).place(
        first_index,
        first_kind,
        first,
    );
    assert(one.classifications =~= other.classifications);
    assert(one.summaries =~= other.summaries);
}

/// The results come out in chunk order whatever the order in which the
/// outcomes came in: the positions of the chunks rise from one result to the
/// next, and every result is that of a complete chunk at or after `from`.
pub proof fn lemma_results_in_chunk_order(slots: SlotsView, from: int)
    requires
        slots.valid(),
        0 <= from,
    ensures
        forall|i: int|
            0 <= i < slots.results_from(from).len() ==> from <= (#[trigger] slots.results_from(
                from,
            )[i]).chunk_index < slots.total() && slots.complete(
                slots.results_from(from)[i].chunk_index as int,
            ) && slots.results_from(from)[i] == slots.result_at(
                slots.results_from(from)[i].chunk_index as int,
            ),
        forall|i: int, j: int|
            0 <= i < j < slots.results_from(from).len() ==> (#[trigger] slots.results_from(
                from,
            )[i]).chunk_index < (#[trigger] slots.results_from(from)[j]).chunk_index,
    decreases slots.total() - from,
{
    if from < slots.total() {
        lemma_results_in_chunk_order(slots, from + 1);
        let rest = slots.results_from(from + 1);
        let all = slots.results_from(from);
        if slots.complete(from) {
            assert(all =~= seq![slots.result_at(from)] + rest);
            assert forall|i: int| 0 <= i < all.len() implies from <= (#[trigger] all[i]).chunk_index
                < slots.total() && slots.complete(all[i].chunk_index as int) && all[i]
                == slots.result_at(all[i].chunk_index as int) by {
                if i > 0 {
                    assert(all[i] == rest[i - 1]);
                }
            }
            assert forall|i: int, j: int| 0 <= i < j < all.len() implies (#[trigger] all[i]).chunk_index
                < (#[trigger] all[j]).chunk_index by {
                assert(all[j] == rest[j - 1]);
                if i > 0 {
                    assert(all[i] == rest[i - 1]);
                }
            }
        }
    }
}

/// Keeps the outcomes of a run by chunk and kind and gives them back in chunk
/// order.
pub struct ResultSlots {
    classifications: Vec<Option<Result<String, ServiceCallError>>>,
    summaries: Vec<Option<Result<String, ServiceCallError>>>,
}

impl View for ResultSlots {
    type V = SlotsView;

    closed spec fn view(&self) -> SlotsView {
        SlotsView { classifications: self.classifications@, summaries: self.summaries@ }
    }
}

impl ResultSlots {
    #[verifier::type_invariant]
    spec fn well_formed(self) -> bool {
        self@.valid()
    }

    /// Empty slots for `total_chunks` chunks.
    pub fn new(total_chunks: usize) -> (slots: Self)
        ensures
            slots@.valid(),
            slots@.total() == total_chunks,
            forall|i: int| 0 <= i < total_chunks ==> !slots@.complete(i),
            forall|i: int| 0 <= i < total_chunks ==> slots@.classifications[i] is None,
            forall|i: int| 0 <= i < total_chunks ==> slots@.summaries[i] is None,
    {
        let mut classifications: Vec<Option<Result<String, ServiceCallError>>> = Vec::new();
        let mut summaries: Vec<Option<Result<String, ServiceCallError>>> = Vec::new();
        let mut k: usize = 0;
        while k < total_chunks
            invariant
                k <= total_chunks,
                classifications@.len() == k,
                summaries@.len() == k,
                forall|i: int| 0 <= i < k ==> classifications@[i] is None,
                forall|i: int| 0 <= i < k ==> summaries@[i] is None,
            decreases total_chunks - k,
        {
            classifications.push(None);
            summaries.push(None);
            k += 1;
        }
        ResultSlots { classifications, summaries }
    }

    /// The slots after `outcome` has come in for the request of `kind` for the
    /// chunk at `chunk_index`.
    pub fn place(
        self,
        chunk_index: usize,
        kind: AnalysisKind,
        outcome: Result<String, ServiceCallError>,
    ) -> (next: Self)
        ensures
            next@ == self@.place(chunk_index, kind, outcome),
            next@.valid(),
    {
        proof {
            use_type_invariant(&self);
        }
        if chunk_index >= self.classifications.len() {
            return self;
        }
        let ResultSlots { classifications, summaries } = self;
        match kind {
            AnalysisKind::Classification => {
                let mut classifications = classifications;
                classifications.set(chunk_index, Some(outcome));
                ResultSlots { classifications, summaries }
            },
            AnalysisKind::Summary => {
                let mut summaries = summaries;
                summaries.set(chunk_index, Some(outcome));
                ResultSlots { classifications, summaries }
            },
        }
    }

    /// The results of the chunks whose two outcomes have come in, in chunk
    /// order.
    pub fn into_results(self) -> (results: Vec<AnalysisResult>)
        ensures
            results@ == self@.results(),
    {
        proof {
            use_type_invariant(&self);
        }
        let ghost slots = self@;
        let ResultSlots { classifications, summaries } = self;
        let mut classifications = classifications;
        let mut summaries = summaries;
        // the outcomes are taken from the back, so the results come out last chunk first
        let mut reversed: Vec<AnalysisResult> = Vec::new();
        let mut left: usize = classifications.len();
        assert(slots.results_from(left as int) =~= Seq::<AnalysisResult>::empty());
        while left > 0
            invariant
                slots.valid(),
                left <= slots.total(),
                classifications@ == slots.classifications.subrange(0, left as int),
                summaries@ == slots.summaries.subrange(0, left as int),
                reversed@.reverse() == slots.results_from(left as int),
            decreases left,
        {
            let ghost before = reversed@;
            let classification = classifications.pop();
            let summary = summaries.pop();
            left -= 1;
            assert(classifications@ =~= slots.classifications.subrange(0, left as int));
            assert(summaries@ =~= slots.summaries.subrange(0, left as int));
            assert(classification == Some(slots.classifications[left as int]));
            assert(summary == Some(slots.summaries[left as int]));
            match (classification, summary) {
                (Some(Some(classification)), Some(Some(summary))) => {
                    reversed.push(AnalysisResult { chunk_index: left, classification, summary });
                    assert(reversed@.reverse() =~= seq![slots.result_at(left as int)]
                        + before.reverse());
                },
                _ => {},
            }
        }
        let mut results: Vec<AnalysisResult> = Vec::new();
        let ghost target = reversed@.reverse();
        assert(results@ + reversed@.reverse() =~= target);
        while reversed.len() > 0
            invariant
                results@ + reversed@.reverse() == target,
            decreases reversed@.len(),
        {
            let ghost stack = reversed@;
            let ghost done = results@;
            let result = reversed.pop().unwrap();
            results.push(result);
            assert(stack.reverse() =~= seq![result] + reversed@.reverse());
            assert(results@ + reversed@.reverse() =~= done + stack.reverse());
        }
        assert(reversed@.reverse() =~= Seq::<AnalysisResult>::empty());
        assert(results@ =~= target);
        results
    }
}

} // verus!

//! The batch: one lookup per address, in the order of the address list.
//!
//! The library makes no lookup itself. [`begin`] and [`Batch::advance`] say
//! what is to be done next; the caller performs the lookup and hands back
//! what came of it. An answer that does not resolve is skipped. A lookup that
//! fails ends the run without rows.

use crate::model::{GeoDataAddress, ResponseView};
use crate::request::{geocode_request, request_for, GeocodeRequest, RequestView};
use crate::resolver::{get_township, resolve, ResolvedTownship, ResolvedView};
use vstd::prelude::*;

verus! {

/// Why a run ended without rows, as a value of pure mathematics.
pub enum RunErrorView {
    MissingCredential,
    TransportError(Seq<char>),
}

/// Why a run ended without rows.
#[derive(Debug, PartialEq, Eq)]
pub enum RunError {
    /// No credential is configured. Nothing was looked up.
    MissingCredential,
    /// A lookup could not be completed, or its answer could not be decoded.
    /// Holds what the caller said of the failure.
    TransportError(String),
}

impl View for RunError {
    type V = RunErrorView;

    open spec fn view(&self) -> RunErrorView {
        match self {
            RunError::MissingCredential => RunErrorView::MissingCredential,
            RunError::TransportError(detail) => RunErrorView::TransportError(detail@),
        }
    }
}

/// What came of one lookup, as a value of pure mathematics.
pub enum OutcomeView {
    Answered(ResponseView),
    Failed(Seq<char>),
}

/// What came of one lookup.
#[derive(Debug)]
pub enum LookupOutcome {
    /// The service answered and the answer was decoded, whatever its status.
    Answered(GeoDataAddress),
    /// The lookup could not be completed or its answer could not be decoded.
    Failed(String),
}

impl View for LookupOutcome {
    type V = OutcomeView;

    open spec fn view(&self) -> OutcomeView {
        match self {
            LookupOutcome::Answered(answer) => OutcomeView::Answered(answer@),
            LookupOutcome::Failed(detail) => OutcomeView::Failed(detail@),
        }
    }
}

/// A batch with a lookup outstanding, as a value of pure mathematics: the
/// credential, the address list, and the answers received so far, oldest
/// first. The outstanding lookup is the one for the address at index
/// `answers.len()`.
pub struct BatchView {
    pub credential: Seq<char>,
    pub addresses: Seq<Seq<char>>,
    pub answers: Seq<ResponseView>,
}

/// What a run does next, as a value of pure mathematics.
pub enum StepView {
    Lookup(BatchView, RequestView),
    Finished(Seq<ResolvedView>),
    Aborted(RunErrorView),
}

/// The rows that a sequence of answers gives: the resolution of each answer
/// that resolves, in the order of the answers. An answer that does not
/// resolve leaves no row.
pub open spec fn resolved_rows(answers: Seq<ResponseView>) -> Seq<ResolvedView> {
    answers.filter_map(|answer: ResponseView| resolve(answer))
}

/// What is next once `answers` have been received for the first addresses of
/// the list: the lookup for the next address, or the rows where every address
/// has its answer.
pub open spec fn step_at(
    credential: Seq<char>,
    addresses: Seq<Seq<char>>,
    answers: Seq<ResponseView>,
) -> StepView {
    if answers.len() < addresses.len() {
        StepView::Lookup(
            BatchView { credential, addresses, answers },
            request_for(credential, addresses[answers.len() as int]),
        )
    } else {
        StepView::Finished(resolved_rows(answers))
    }
}

/// The first step of a run: without a credential the run is over at once;
/// else it is the lookup for the first address, or no rows for an empty list.
pub open spec fn first_step(credential: Option<Seq<char>>, addresses: Seq<Seq<char>>) -> StepView {
    match credential {
        None => StepView::Aborted(RunErrorView::MissingCredential),
        Some(key) => step_at(key, addresses, Seq::empty()),
    }
}

/// The step after the outstanding lookup of `batch` came to `outcome`: a
/// failure ends the run, an answer is put on record and the run goes on.
pub open spec fn next_step(batch: BatchView, outcome: OutcomeView) -> StepView {
    match outcome {
        OutcomeView::Failed(detail) => StepView::Aborted(RunErrorView::TransportError(detail)),
        OutcomeView::Answered(answer) => step_at(
            batch.credential,
            batch.addresses,
            batch.answers.push(answer),
        ),
    }
}

/// A batch with one lookup outstanding.
pub struct Batch {
    credential: String,
    addresses: Vec<String>,
    rows: Vec<ResolvedTownship>,
    answered: usize,
    answers: Ghost<Seq<ResponseView>>,
}

impl View for Batch {
    type V = BatchView;

    closed spec fn view(&self) -> BatchView {
        BatchView {
            credential: self.credential@,
            addresses: self.addresses.deep_view(),
            answers: self.answers@,
        }
    }
}

/// What a run does next.
pub enum Step {
    /// This lookup is to be made; its outcome goes to [`Batch::advance`].
    Lookup(Batch, GeocodeRequest),
    /// Every address has its answer: the rows, in the order of the addresses.
    Finished(Vec<ResolvedTownship>),
    /// The run is over and there are no rows.
    Aborted(RunError),
}

impl View for Step {
    type V = StepView;

    open spec fn view(&self) -> StepView {
        match self {
            Step::Lookup(batch, request) => StepView::Lookup(batch@, request@),
            Step::Finished(rows) => StepView::Finished(rows.deep_view()),
            Step::Aborted(error) => StepView::Aborted(error@),
        }
    }
}

impl Batch {
    /// The rows held are those of the answers received, and an address is
    /// left to look up.
    #[verifier::type_invariant]
    spec fn wf(self) -> bool {
        &&& self.answered == self.answers@.len()
        &&& self.answered < self.addresses.len()
        &&& self.rows.deep_view() == resolved_rows(self.answers@)
    }

    /// Takes the outcome of the outstanding lookup and says what is next.
    ///
    /// A failed lookup ends the run: the rows gathered so far are dropped.
    /// An answer is resolved; if it resolves, its row is kept behind the
    /// rows of the answers before it, else it is skipped. The run then goes
    /// on with the next address, or ends with the rows where none is left.
    pub fn advance(self, outcome: LookupOutcome) -> (step: Step)
        ensures
            step@ == next_step(self@, outcome@),
    {
        proof {
            use_type_invariant(&self);
        }
        let Batch { credential, addresses, rows, answered, answers } = self;
        match outcome {
            LookupOutcome::Failed(detail) => Step::Aborted(RunError::TransportError(detail)),
            LookupOutcome::Answered(answer) => {
                let ghost received = answers@.push(answer@);
                let mut rows = rows;
                if let Some(row) = get_township(answer) {
                    rows.push(row);
                }
                assert(received.drop_last() =~= answers@);
                assert(rows.deep_view() =~= resolved_rows(received));
                proceed(credential, addresses, rows, answered + 1, Ghost(received))
            },
        }
    }
}

/// Starts a run over `addresses`.
///
/// Without a credential the run is over before any lookup. Else the first
/// step is the lookup for the first address; an empty list is finished at
/// once, with no rows.
pub fn begin(credential: Option<String>, addresses: Vec<String>) -> (step: Step)
    ensures
        step@ == first_step(credential.deep_view(), addresses.deep_view()),
{
    match credential {
        None => Step::Aborted(RunError::MissingCredential),
        Some(key) => {
            let rows: Vec<ResolvedTownship> = Vec::new();
            assert(rows.deep_view() =~= resolved_rows(Seq::empty()));
            proceed(key, addresses, rows, 0, Ghost(Seq::empty()))
        },
    }
}

fn proceed(
    credential: String,
    addresses: Vec<String>,
    rows: Vec<ResolvedTownship>,
    answered: usize,
    Ghost(answers): Ghost<Seq<ResponseView>>,
) -> (step: Step)
    requires
        answered == answers.len(),
        answered <= addresses.len(),
        rows.deep_view() == resolved_rows(answers),
    ensures
        step@ == step_at(credential@, addresses.deep_view(), answers),
{
    if answered < addresses.len() {
        let request = geocode_request(credential.as_str(), addresses[answered].as_str());
        Step::Lookup(Batch { credential, addresses, rows, answered, answers: Ghost(answers) }, request)
    } else {
        Step::Finished(rows)
    }
}

/// The step that a run has reached from `step` once the outcomes of its
/// lookups have been handed in, one after the other. A run that is over
/// stays where it is: outcomes that are left are not looked at.
pub open spec fn run_from(step: StepView, outcomes: Seq<OutcomeView>) -> StepView
    decreases outcomes.len(),
{
    if outcomes.len() == 0 {
        step
    } else {
        match step {
            StepView::Lookup(batch, _) => run_from(
                next_step(batch, outcomes.first()),
                outcomes.drop_first(),
            ),
            _ => step,
        }
    }
}

/// The answers that `outcomes` carry, where each of them is an answer.
pub open spec fn answers_of(outcomes: Seq<OutcomeView>) -> Seq<ResponseView> {
    outcomes.map_values(|outcome: OutcomeView| outcome->Answered_0)
}

/// Whether the outcome at `index` is a failure and every outcome before it is
/// an answer.
pub open spec fn is_first_failure(outcomes: Seq<OutcomeView>, index: int) -> bool {
    &&& 0 <= index < outcomes.len()
    &&& outcomes[index] is Failed
    &&& forall|j: int| 0 <= j < index ==> #[trigger] outcomes[j] is Answered
}

proof fn lemma_run_answered(
    credential: Seq<char>,
    addresses: Seq<Seq<char>>,
    answers: Seq<ResponseView>,
    outcomes: Seq<OutcomeView>,
)
    requires
        answers.len() + outcomes.len() <= addresses.len(),
        forall|i: int| 0 <= i < outcomes.len() ==> #[trigger] outcomes[i] is Answered,
    ensures
        run_from(step_at(credential, addresses, answers), outcomes) == step_at(
            credential,
            addresses,
            answers + answers_of(outcomes),
        ),
    decreases outcomes.len(),
{
    if outcomes.len() > 0 {
        let answer = outcomes.first()->Answered_0;
        let rest = outcomes.drop_first();
        lemma_run_answered(credential, addresses, answers.push(answer), rest);
        assert(answers.push(answer) + answers_of(rest) =~= answers + answers_of(outcomes));
    }
}

proof fn lemma_run_failed(
    credential: Seq<char>,
    addresses: Seq<Seq<char>>,
    answers: Seq<ResponseView>,
    outcomes: Seq<OutcomeView>,
    index: int,
)
    requires
        is_first_failure(outcomes, index),
        answers.len() + index < addresses.len(),
    ensures
        run_from(step_at(credential, addresses, answers), outcomes) == StepView::Aborted(
            RunErrorView::TransportError(outcomes[index]->Failed_0),
        ),
    decreases index,
{
    let rest = outcomes.drop_first();
    if index == 0 {
        let failure = StepView::Aborted(RunErrorView::TransportError(outcomes[0]->Failed_0));
        assert(run_from(failure, rest) == failure);
    } else {
        let answer = outcomes.first()->Answered_0;
        lemma_run_failed(credential, addresses, answers.push(answer), rest, index - 1);
    }
}

/// A run without a credential is over before any lookup, whatever the
/// addresses are.
pub proof fn lemma_run_without_credential(
    addresses: Seq<Seq<char>>,
    outcomes: Seq<OutcomeView>,
)
    ensures
        run_from(first_step(None, addresses), outcomes) == StepView::Aborted(
            RunErrorView::MissingCredential,
        ),
{
}

/// Addresses are looked up one by one in the order of the list: once the
/// first lookups have been answered, however the answers resolve, the run
/// asks for the address that follows them, as it stands in the list.
pub proof fn lemma_lookups_follow_the_list(
    credential: Seq<char>,
    addresses: Seq<Seq<char>>,
    outcomes: Seq<OutcomeView>,
)
    requires
        outcomes.len() < addresses.len(),
        forall|i: int| 0 <= i < outcomes.len() ==> #[trigger] outcomes[i] is Answered,
    ensures
        run_from(first_step(Some(credential), addresses), outcomes) == StepView::Lookup(
            BatchView { credential, addresses, answers: answers_of(outcomes) },
            request_for(credential, addresses[outcomes.len() as int]),
        ),
{
    lemma_run_answered(credential, addresses, Seq::empty(), outcomes);
}

/// A run in which every lookup is answered finishes with the rows of the
/// answers: one lookup per address, and an answer that does not resolve is
/// skipped without ending the run.
pub proof fn lemma_run_without_failure(
    credential: Seq<char>,
    addresses: Seq<Seq<char>>,
    outcomes: Seq<OutcomeView>,
)
    requires
        outcomes.len() == addresses.len(),
        forall|i: int| 0 <= i < outcomes.len() ==> #[trigger] outcomes[i] is Answered,
    ensures
        run_from(first_step(Some(credential), addresses), outcomes) == StepView::Finished(
            resolved_rows(answers_of(outcomes)),
        ),
{
    lemma_run_answered(credential, addresses, Seq::empty(), outcomes);
}

/// A run ends at its first failed lookup, with that failure and without
/// rows, whatever was answered before and whatever would come after.
pub proof fn lemma_run_aborts_at_first_failure(
    credential: Seq<char>,
    addresses: Seq<Seq<char>>,
    outcomes: Seq<OutcomeView>,
    index: int,
)
    requires
        is_first_failure(outcomes, index),
        index < addresses.len(),
    ensures
        run_from(first_step(Some(credential), addresses), outcomes) == StepView::Aborted(
            RunErrorView::TransportError(outcomes[index]->Failed_0),
        ),
{
    lemma_run_failed(credential, addresses, Seq::empty(), outcomes, index);
}

/// The rows of two runs of answers, one after the other, are the rows of the
/// first followed by the rows of the second.
pub proof fn lemma_rows_of_concatenation(first: Seq<ResponseView>, second: Seq<ResponseView>)
    ensures
        resolved_rows(first + second) == resolved_rows(first) + resolved_rows(second),
    decreases second.len(),
{
    if second.len() > 0 {
        lemma_rows_of_concatenation(first, second.drop_last());
        assert((first + second).drop_last() =~= first + second.drop_last());
    }
}

/// An answer that does not resolve leaves no trace in the rows, wherever it
/// stands among the answers.
pub proof fn lemma_unresolved_is_skipped(
    before: Seq<ResponseView>,
    answer: ResponseView,
    after: Seq<ResponseView>,
)
    requires
        resolve(answer) is None,
    ensures
        resolved_rows(before.push(answer) + after) == resolved_rows(before + after),
{
    lemma_rows_of_concatenation(before.push(answer), after);
    lemma_rows_of_concatenation(before, after);
    assert(before.push(answer).drop_last() =~= before);
}

/// The row of an answer that resolves stands behind the rows of all answers
/// before it and nowhere else: its index among the rows is the number of
/// rows that the answers before it give.
pub proof fn lemma_row_position(answers: Seq<ResponseView>, index: int)
    requires
        0 <= index < answers.len(),
        resolve(answers[index]) is Some,
    ensures
        resolved_rows(answers.take(index)).len() < resolved_rows(answers).len(),
        resolved_rows(answers)[resolved_rows(answers.take(index)).len() as int] == resolve(
            answers[index],
        ).unwrap(),
{
    let upto = answers.take(index + 1);
    assert(upto.drop_last() =~= answers.take(index));
    assert(answers =~= upto + answers.skip(index + 1));
    lemma_rows_of_concatenation(upto, answers.skip(index + 1));
}

/// Rows stand in the order of their answers: of two answers, the rows up to
/// the later one are at least as many as those up to the earlier one, and
/// more where the earlier one resolves.
pub proof fn lemma_row_positions_increase(answers: Seq<ResponseView>, earlier: int, later: int)
    requires
        0 <= earlier < later <= answers.len(),
    ensures
        resolved_rows(answers.take(earlier)).len() <= resolved_rows(answers.take(later)).len(),
        resolve(answers[earlier]) is Some ==> resolved_rows(answers.take(earlier)).len()
            < resolved_rows(answers.take(later)).len(),
{
    let upto = answers.take(earlier + 1);
    assert(upto.drop_last() =~= answers.take(earlier));
    assert(answers.take(later) =~= upto + answers.subrange(earlier + 1, later));
    lemma_rows_of_concatenation(upto, answers.subrange(earlier + 1, later));
}

/// Where every answer resolves there is one row for each answer, and the row
/// at an index is the resolution of the answer at that index: nothing is
/// reordered, left out or merged, equal answers included.
pub proof fn lemma_rows_keep_order(answers: Seq<ResponseView>)
    requires
        forall|i: int| 0 <= i < answers.len() ==> resolve(#[trigger] answers[i]) is Some,
    ensures
        resolved_rows(answers).len() == answers.len(),
        forall|i: int|
            0 <= i < answers.len() ==> #[trigger] resolved_rows(answers)[i] == resolve(
                answers[i],
            ).unwrap(),
    decreases answers.len(),
{
    if answers.len() > 0 {
        lemma_rows_keep_order(answers.drop_last());
    }
}

} // verus!

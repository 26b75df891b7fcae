//! The mastering orchestrator: walks the jobs of a run in order and
//! records one result for each song.
//!
//! The orchestrator does no outside work itself. It says what is to be
//! done next, to look whether a source file is there or to encode a song,
//! and is told what came of it. A song whose source is missing, or whose
//! destination is also that of another song, gets its result without the
//! encoder being asked; whatever happens to one song, the songs after it
//! still get their turn.

use vstd::prelude::*;
use crate::mastering::{
    collides, collisions, plan, plan_spec, Job, JobView, RequestView, TranscodeRequest,
};
use crate::model::{Album, AlbumView};

verus! {

/// Why a song was not mastered.
#[derive(Debug, PartialEq, Eq)]
pub enum Failure {
    /// The song names no source file, or the file is not there.
    SourceNotFound,
    /// Another song of the run has the same destination.
    DestinationCollision,
    /// The encoder failed; the text is what it reported.
    Encoder(String),
}

/// How the mastering of a song ended.
#[derive(Debug, PartialEq, Eq)]
pub enum Outcome {
    Success,
    Failure(Failure),
}

/// The result for one song.
#[derive(Debug, PartialEq, Eq)]
pub struct ProcessResult {
    pub album_id: u64,
    pub song_id: u64,
    pub outcome: Outcome,
}

/// Mathematical value of a [`Failure`].
pub enum FailureView {
    SourceNotFound,
    DestinationCollision,
    Encoder(Seq<char>),
}

/// Mathematical value of an [`Outcome`].
pub enum OutcomeView {
    Success,
    Failure(FailureView),
}

/// Mathematical value of a [`ProcessResult`].
pub struct ResultView {
    pub album_id: u64,
    pub song_id: u64,
    pub outcome: OutcomeView,
}

impl View for Failure {
    type V = FailureView;

    open spec fn view(&self) -> FailureView {
        match self {
            Failure::SourceNotFound => FailureView::SourceNotFound,
            Failure::DestinationCollision => FailureView::DestinationCollision,
            Failure::Encoder(detail) => FailureView::Encoder(detail@),
        }
    }
}

impl View for Outcome {
    type V = OutcomeView;

    open spec fn view(&self) -> OutcomeView {
        match self {
            Outcome::Success => OutcomeView::Success,
            Outcome::Failure(failure) => OutcomeView::Failure(failure@),
        }
    }
}

impl View for ProcessResult {
    type V = ResultView;

    open spec fn view(&self) -> ResultView {
        ResultView { album_id: self.album_id, song_id: self.song_id, outcome: self.outcome@ }
    }
}

impl DeepView for ProcessResult {
    type V = ResultView;

    open spec fn deep_view(&self) -> ResultView {
        self@
    }
}

/// What the orchestrator wants done next.
#[derive(Debug, PartialEq, Eq)]
pub enum Action {
    /// Look whether the file at this path is there.
    Probe(String),
    /// Hand this request to the encoder.
    Transcode(TranscodeRequest),
    /// Nothing: every song has its result.
    Finished,
}

/// Mathematical value of an [`Action`].
pub enum ActionView {
    Probe(Seq<char>),
    Transcode(RequestView),
    Finished,
}

impl View for Action {
    type V = ActionView;

    open spec fn view(&self) -> ActionView {
        match self {
            Action::Probe(path) => ActionView::Probe(path@),
            Action::Transcode(request) => ActionView::Transcode(request@),
            Action::Finished => ActionView::Finished,
        }
    }
}

/// What came of an action.
#[derive(Debug, PartialEq, Eq)]
pub enum Event {
    /// The probed file is there.
    SourceFound,
    /// The probed file is not there.
    SourceMissing,
    /// The encoder succeeded.
    Encoded,
    /// The encoder failed, with what it reported.
    EncoderFailed(String),
}

/// Mathematical value of an [`Event`].
pub enum EventView {
    SourceFound,
    SourceMissing,
    Encoded,
    EncoderFailed(Seq<char>),
}

impl View for Event {
    type V = EventView;

    open spec fn view(&self) -> EventView {
        match self {
            Event::SourceFound => EventView::SourceFound,
            Event::SourceMissing => EventView::SourceMissing,
            Event::Encoded => EventView::Encoded,
            Event::EncoderFailed(detail) => EventView::EncoderFailed(detail@),
        }
    }
}

/// The result of `job` with the given outcome.
pub open spec fn result_of(job: JobView, outcome: OutcomeView) -> ResultView {
    ResultView { album_id: job.album_id, song_id: job.song_id, outcome }
}

/// Whether job `k` gets its result without any outside work: it collides
/// with another job, or it names no source.
pub open spec fn settled_at_once(jobs: Seq<JobView>, k: int) -> bool {
    collides(jobs, k) || jobs[k].request.source_path.len() == 0
}

/// The result of a job that needs no outside work. A collision is found
/// before anything else is looked at.
pub open spec fn result_at_once(jobs: Seq<JobView>, k: int) -> ResultView {
    if collides(jobs, k) {
        result_of(jobs[k], OutcomeView::Failure(FailureView::DestinationCollision))
    } else {
        result_of(jobs[k], OutcomeView::Failure(FailureView::SourceNotFound))
    }
}

/// `results` extended by the results of the jobs that follow and need no
/// outside work, up to the first job that does.
pub open spec fn settle(jobs: Seq<JobView>, results: Seq<ResultView>) -> Seq<ResultView>
    decreases jobs.len() - results.len(),
{
    if results.len() < jobs.len() && settled_at_once(jobs, results.len() as int) {
        settle(jobs, results.push(result_at_once(jobs, results.len() as int)))
    } else {
        results
    }
}

/// Whether `result` is a result that job `k` can have: it carries the
/// job's identifiers; it is a collision exactly when the job collides; and
/// a job without a source that does not collide has failed for want of
/// its source.
pub open spec fn result_fits(jobs: Seq<JobView>, k: int, result: ResultView) -> bool {
    &&& result.album_id == jobs[k].album_id
    &&& result.song_id == jobs[k].song_id
    &&& collides(jobs, k) <==> result.outcome == OutcomeView::Failure(
        FailureView::DestinationCollision,
    )
    &&& jobs[k].request.source_path.len() == 0 && !collides(jobs, k) ==> result.outcome
        == OutcomeView::Failure(FailureView::SourceNotFound)
}

/// Whether `results` are results of the first jobs, one each and in
/// order.
pub open spec fn results_fit(jobs: Seq<JobView>, results: Seq<ResultView>) -> bool {
    &&& results.len() <= jobs.len()
    &&& forall|k: int| 0 <= k < results.len() ==> result_fits(jobs, k, #[trigger] results[k])
}

/// An orchestrator in the middle of a run.
pub struct Orchestrator {
    jobs: Vec<Job>,
    collided: Vec<bool>,
    results: Vec<ProcessResult>,
    probed: bool,
}

/// Mathematical value of an [`Orchestrator`].
pub struct OrchestratorView {
    /// The jobs of the run, one for each song.
    pub jobs: Seq<JobView>,
    /// The results so far, one for each of the first jobs.
    pub results: Seq<ResultView>,
    /// Whether the source of the job in turn was found.
    pub probed: bool,
}

impl View for Orchestrator {
    type V = OrchestratorView;

    closed spec fn view(&self) -> OrchestratorView {
        OrchestratorView {
            jobs: self.jobs.deep_view(),
            results: self.results.deep_view(),
            probed: self.probed,
        }
    }
}

impl OrchestratorView {
    /// The run at its start.
    pub open spec fn start(albums: Seq<AlbumView>) -> OrchestratorView {
        let jobs = plan_spec(albums);
        OrchestratorView { jobs, results: settle(jobs, Seq::empty()), probed: false }
    }

    /// Whether every song has its result.
    pub open spec fn finished(self) -> bool {
        self.results.len() >= self.jobs.len()
    }

    /// The job in turn.
    pub open spec fn current(self) -> JobView {
        self.jobs[self.results.len() as int]
    }

    /// Well-formedness: the results so far fit the jobs, and the job in
    /// turn, if any, needs outside work.
    pub open spec fn wf(self) -> bool {
        &&& results_fit(self.jobs, self.results)
        &&& !self.finished() ==> !settled_at_once(self.jobs, self.results.len() as int)
        &&& self.probed ==> !self.finished()
    }

    /// What is to be done next.
    pub open spec fn next_action(self) -> ActionView {
        if self.finished() {
            ActionView::Finished
        } else if !self.probed {
            ActionView::Probe(self.current().request.source_path)
        } else {
            ActionView::Transcode(self.current().request)
        }
    }

    /// Whether `event` answers the action that stands.
    pub open spec fn expects(self, event: EventView) -> bool {
        !self.finished() && (if self.probed {
            event is Encoded || event is EncoderFailed
        } else {
            event is SourceFound || event is SourceMissing
        })
    }

    /// The run with the job in turn concluded with `outcome`.
    pub open spec fn concluded(self, outcome: OutcomeView) -> OrchestratorView {
        OrchestratorView {
            results: settle(self.jobs, self.results.push(result_of(self.current(), outcome))),
            probed: false,
            ..self
        }
    }

    /// The run after `event`. An event that does not answer the standing
    /// action changes nothing.
    pub open spec fn recorded(self, event: EventView) -> OrchestratorView {
        if !self.expects(event) {
            self
        } else {
            match event {
                EventView::SourceFound => OrchestratorView { probed: true, ..self },
                EventView::SourceMissing => self.concluded(
                    OutcomeView::Failure(FailureView::SourceNotFound),
                ),
                EventView::Encoded => self.concluded(OutcomeView::Success),
                EventView::EncoderFailed(detail) => self.concluded(
                    OutcomeView::Failure(FailureView::Encoder(detail)),
                ),
            }
        }
    }
}

/// Settling adds results and changes none.
pub proof fn lemma_settle_extends(jobs: Seq<JobView>, results: Seq<ResultView>)
    requires
        results.len() <= jobs.len(),
    ensures
        results.len() <= settle(jobs, results).len() <= jobs.len(),
        settle(jobs, results).take(results.len() as int) == results,
    decreases jobs.len() - results.len(),
{
    if results.len() < jobs.len() && settled_at_once(jobs, results.len() as int) {
        let more = results.push(result_at_once(jobs, results.len() as int));
        lemma_settle_extends(jobs, more);
        assert(settle(jobs, results).take(results.len() as int) =~= settle(jobs, more).take(
            more.len() as int,
        ).take(results.len() as int));
        assert(more.take(results.len() as int) =~= results);
    } else {
        assert(results.take(results.len() as int) =~= results);
    }
}

/// Settling keeps a run well formed.
proof fn lemma_settle_wf(jobs: Seq<JobView>, results: Seq<ResultView>)
    requires
        results_fit(jobs, results),
    ensures
        (OrchestratorView { jobs, results: settle(jobs, results), probed: false }).wf(),
    decreases jobs.len() - results.len(),
{
    if results.len() < jobs.len() && settled_at_once(jobs, results.len() as int) {
        let more = results.push(result_at_once(jobs, results.len() as int));
        lemma_settle_wf(jobs, more);
    }
}

/// A well-formed run stays well formed whatever is reported.
pub proof fn lemma_recorded_wf(run: OrchestratorView, event: EventView)
    requires
        run.wf(),
    ensures
        run.recorded(event).wf(),
{
    if run.expects(event) && !(event is SourceFound) {
        let outcome = match event {
            EventView::SourceMissing => OutcomeView::Failure(FailureView::SourceNotFound),
            EventView::Encoded => OutcomeView::Success,
            EventView::EncoderFailed(detail) => OutcomeView::Failure(FailureView::Encoder(detail)),
            _ => OutcomeView::Success,
        };
        let more = run.results.push(result_of(run.current(), outcome));
        lemma_settle_wf(run.jobs, more);
    }
}

/// The run at its start is well formed.
pub proof fn lemma_start_wf(albums: Seq<AlbumView>)
    ensures
        OrchestratorView::start(albums).wf(),
{
    lemma_settle_wf(plan_spec(albums), Seq::empty());
}

impl Orchestrator {
    /// The invariant of the orchestrator: its value is well formed, and it
    /// knows of each job whether the job collides.
    pub closed spec fn inv(&self) -> bool {
        &&& self@.wf()
        &&& self.flags_fit()
    }

    /// The collision flags are those of the jobs.
    closed spec fn flags_fit(&self) -> bool {
        &&& self.collided.len() == self.jobs.len()
        &&& forall|k: int|
            0 <= k < self.jobs.len() ==> self.collided[k] == collides(self.jobs.deep_view(), k)
    }

    /// An orchestrator that keeps its invariant has a well-formed value.
    pub proof fn lemma_inv_wf(&self)
        requires
            self.inv(),
        ensures
            self@.wf(),
    {
    }

    /// Plans the run over `albums` and settles the songs at its head that
    /// need no outside work.
    pub fn new(albums: &Vec<Album>) -> (run: Orchestrator)
        ensures
            run@ == OrchestratorView::start(albums.deep_view()),
            run.inv(),
    {
        let jobs = plan(albums);
        let collided = collisions(&jobs);
        let mut run = Orchestrator { jobs, collided, results: Vec::new(), probed: false };
        assert(run.results.deep_view() =~= Seq::<ResultView>::empty());
        run.settle();
        proof {
            lemma_settle_wf(run.jobs.deep_view(), Seq::empty());
        }
        run
    }

    /// Gives their results to the jobs in turn that need no outside work.
    fn settle(&mut self)
        requires
            old(self).flags_fit(),
            old(self).results.len() <= old(self).jobs.len(),
        ensures
            final(self).flags_fit(),
            final(self)@.jobs == old(self)@.jobs,
            final(self)@.probed == old(self)@.probed,
            final(self)@.results == settle(old(self)@.jobs, old(self)@.results),
    {
        let ghost jobs = self.jobs.deep_view();
        let ghost target = settle(jobs, self.results.deep_view());
        loop
            invariant
                self.flags_fit(),
                self.jobs == old(self).jobs,
                self.probed == old(self).probed,
                jobs == self.jobs.deep_view(),
                self.results.len() <= self.jobs.len(),
                target == settle(jobs, self.results.deep_view()),
            ensures
                self.flags_fit(),
                self.jobs == old(self).jobs,
                self.probed == old(self).probed,
                self.results.deep_view() == target,
            decreases self.jobs.len() - self.results.len(),
        {
            let k = self.results.len();
            if k >= self.jobs.len() {
                break;
            }
            let collision = self.collided[k];
            let sourceless = self.jobs[k].request.source_path.as_str().is_empty();
            assert(jobs[k as int] == self.jobs[k as int]@);
            if !collision && !sourceless {
                break;
            }
            let failure = if collision {
                Failure::DestinationCollision
            } else {
                Failure::SourceNotFound
            };
            let result = ProcessResult {
                album_id: self.jobs[k].album_id,
                song_id: self.jobs[k].song_id,
                outcome: Outcome::Failure(failure),
            };
            let ghost before = self.results.deep_view();
            self.results.push(result);
            assert(self.results.deep_view() =~= before.push(result@));
        }
    }

    /// Whether every song has its result.
    pub fn is_finished(&self) -> (done: bool)
        ensures
            done == self@.finished(),
    {
        self.results.len() >= self.jobs.len()
    }

    /// The jobs of the run.
    pub fn jobs(&self) -> (jobs: &Vec<Job>)
        ensures
            jobs.deep_view() == self@.jobs,
    {
        &self.jobs
    }

    /// The results so far, in the order of the songs.
    pub fn results(&self) -> (results: &Vec<ProcessResult>)
        ensures
            results.deep_view() == self@.results,
    {
        &self.results
    }

    /// Ends the run and hands out its results, in the order of the songs.
    pub fn into_results(self) -> (results: Vec<ProcessResult>)
        ensures
            results.deep_view() == self@.results,
    {
        self.results
    }

    /// What is to be done next: to probe the source of the song in turn,
    /// to encode it once its source was found, or nothing when every song
    /// has its result.
    pub fn next_action(&self) -> (action: Action)
        requires
            self.inv(),
        ensures
            action@ == self@.next_action(),
    {
        let k = self.results.len();
        if k >= self.jobs.len() {
            Action::Finished
        } else if !self.probed {
            Action::Probe(self.jobs[k].request.source_path.clone())
        } else {
            Action::Transcode(self.jobs[k].request.clone())
        }
    }

    /// Takes what came of the action that stands and says whether it was
    /// an answer to it. A source that is missing, and an encoder that
    /// failed, are recorded in the result of the song in turn; the run then
    /// goes on with the next song.
    pub fn record(&mut self, event: Event) -> (taken: bool)
        requires
            old(self).inv(),
        ensures
            final(self).inv(),
            final(self)@ == old(self)@.recorded(event@),
            taken == old(self)@.expects(event@),
    {
        let k = self.results.len();
        if k >= self.jobs.len() {
            return false;
        }
        proof {
            lemma_recorded_wf(self@, event@);
        }
        let outcome = match event {
            Event::SourceFound => {
                if self.probed {
                    return false;
                }
                self.probed = true;
                return true;
            },
            Event::SourceMissing => {
                if self.probed {
                    return false;
                }
                Outcome::Failure(Failure::SourceNotFound)
            },
            Event::Encoded => {
                if !self.probed {
                    return false;
                }
                Outcome::Success
            },
            Event::EncoderFailed(detail) => {
                if !self.probed {
                    return false;
                }
                Outcome::Failure(Failure::Encoder(detail))
            },
        };
        let result = ProcessResult {
            album_id: self.jobs[k].album_id,
            song_id: self.jobs[k].song_id,
            outcome,
        };
        let ghost before = self.results.deep_view();
        self.results.push(result);
        assert(self.results.deep_view() =~= before.push(result@));
        self.probed = false;
        self.settle();
        true
    }
}

/// Every song gets exactly one result: a finished run that is well formed
/// has as many results as there are jobs, the result at each place being
/// that of the job at the same place.
pub proof fn lemma_finished_run_is_complete(run: OrchestratorView)
    requires
        run.wf(),
        run.finished(),
    ensures
        run.results.len() == run.jobs.len(),
        forall|k: int|
            0 <= k < run.jobs.len() ==> (#[trigger] run.results[k]).album_id
                == run.jobs[k].album_id && run.results[k].song_id == run.jobs[k].song_id,
{
}

/// Failure isolation: what is reported for one song changes no result
/// that was recorded before, and never ends the run early. After an
/// event that concludes a song there is a result more than before, and
/// the run is finished only when every job has its result.
pub proof fn lemma_failures_are_isolated(run: OrchestratorView, event: EventView)
    requires
        run.wf(),
    ensures
        run.recorded(event).jobs == run.jobs,
        run.recorded(event).results.len() >= run.results.len(),
        run.recorded(event).results.take(run.results.len() as int) == run.results,
        run.expects(event) && !(event is SourceFound) ==> {
            &&& run.recorded(event).results.len() > run.results.len()
            &&& run.recorded(event).results[run.results.len() as int].album_id
                == run.current().album_id
            &&& run.recorded(event).results[run.results.len() as int].song_id
                == run.current().song_id
        },
        run.recorded(event).finished() ==> run.recorded(event).results.len() == run.jobs.len(),
{
    lemma_recorded_wf(run, event);
    if run.expects(event) && !(event is SourceFound) {
        let outcome = match event {
            EventView::SourceMissing => OutcomeView::Failure(FailureView::SourceNotFound),
            EventView::Encoded => OutcomeView::Success,
            EventView::EncoderFailed(detail) => OutcomeView::Failure(FailureView::Encoder(detail)),
            _ => OutcomeView::Success,
        };
        let more = run.results.push(result_of(run.current(), outcome));
        lemma_settle_extends(run.jobs, more);
        let after = settle(run.jobs, more);
        assert(after.take(run.results.len() as int) =~= after.take(more.len() as int).take(
            run.results.len() as int,
        ));
        assert(more.take(run.results.len() as int) =~= run.results);
        let at = run.results.len() as int;
        assert(after[at] == after.take(more.len() as int)[at]);
    } else {
        assert(run.results.take(run.results.len() as int) =~= run.results);
    }
}

/// A missing source is reported without the encoder: when the source of
/// the song in turn is reported missing, the song fails with
/// `SourceNotFound`, and the action that follows concerns a later song.
pub proof fn lemma_missing_source_skips_encoder(run: OrchestratorView)
    requires
        run.wf(),
        !run.finished(),
        !run.probed,
    ensures
        run.recorded(EventView::SourceMissing).results[run.results.len() as int].outcome
            == OutcomeView::Failure(FailureView::SourceNotFound),
        run.recorded(EventView::SourceMissing).results.len() > run.results.len(),
        !run.recorded(EventView::SourceMissing).probed,
{
    lemma_failures_are_isolated(run, EventView::SourceMissing);
    let more = run.results.push(
        result_of(run.current(), OutcomeView::Failure(FailureView::SourceNotFound)),
    );
    lemma_settle_extends(run.jobs, more);
    let after = settle(run.jobs, more);
    let at = run.results.len() as int;
    assert(after[at] == after.take(more.len() as int)[at]);
}

/// Collision detection: in a well-formed run every result of a job that
/// shares its destination with another job is `DestinationCollision`, no
/// other result is, and such a job is never the one for which outside
/// work is asked.
pub proof fn lemma_collisions_never_reach_encoder(run: OrchestratorView, k: int)
    requires
        run.wf(),
        0 <= k < run.jobs.len(),
        collides(run.jobs, k),
    ensures
        k < run.results.len() ==> run.results[k].outcome == OutcomeView::Failure(
            FailureView::DestinationCollision,
        ),
        !run.finished() ==> k != run.results.len(),
{
}

/// Two songs with the same destination both collide.
pub proof fn lemma_same_destination_collides(jobs: Seq<JobView>, first: int, second: int)
    requires
        0 <= first < jobs.len(),
        0 <= second < jobs.len(),
        first != second,
        jobs[first].request.dest_path == jobs[second].request.dest_path,
    ensures
        collides(jobs, first),
        collides(jobs, second),
{
}

} // verus!

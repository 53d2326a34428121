//! The research loop as a machine: each event (a start, the answer to an
//! action) moves the loop on and says what must be done next. Searching,
//! reading files, asking the model and saving checkpoints are left to the
//! caller; every decision is taken here.
use vstd::prelude::*;
use crate::agent::state::{self, AgentPhase, AgentState, AgentStateView};
use crate::memory::scratchpad::{self, Scratchpad};
use crate::memory::store::InMemoryStore;
use crate::text;
use crate::tools::local_search::{SearchHit, SearchHitView};
use crate::tools::rank::{self, Ranker};

verus! {

/// What a research run is about and what it may use.
#[derive(Debug, Clone)]
pub struct AgentConfig {
    pub topic: String,
    pub profile: String,
    pub max_steps: usize,
    /// The budget, in thousandths of a unit.
    pub budget: i64,
    pub checkpoint_file: String,
    pub allow_scrape: bool,
}

pub struct AgentConfigView {
    pub topic: Seq<char>,
    pub profile: Seq<char>,
    pub max_steps: nat,
    pub budget: int,
    pub checkpoint_file: Seq<char>,
    pub allow_scrape: bool,
}

impl View for AgentConfig {
    type V = AgentConfigView;

    open spec fn view(&self) -> AgentConfigView {
        AgentConfigView {
            topic: self.topic@,
            profile: self.profile@,
            max_steps: self.max_steps as nat,
            budget: self.budget as int,
            checkpoint_file: self.checkpoint_file@,
            allow_scrape: self.allow_scrape,
        }
    }
}

/// What is saved of a run so that it can be resumed.
#[derive(Debug, Clone)]
pub struct Checkpoint {
    pub state: AgentState,
    pub scratchpad: Scratchpad,
    pub synthesis: Option<String>,
    pub topic: String,
    pub profile: String,
}

pub struct CheckpointView {
    pub state: AgentStateView,
    pub notes: Seq<Seq<char>>,
    pub synthesis: Option<Seq<char>>,
    pub topic: Seq<char>,
    pub profile: Seq<char>,
}

impl View for Checkpoint {
    type V = CheckpointView;

    open spec fn view(&self) -> CheckpointView {
        CheckpointView {
            state: self.state@,
            notes: self.scratchpad@,
            synthesis: state::opt_string_view(self.synthesis),
            topic: self.topic@,
            profile: self.profile@,
        }
    }
}

/// Where the loop stands between two events.
#[derive(Debug, Clone, Copy, PartialEq, Eq, Structural)]
pub enum Stage {
    /// Not started.
    Ready,
    /// Waiting for the search results.
    AwaitSearch,
    /// Waiting for the working directory.
    AwaitWorkingDir,
    /// Waiting for the content of the file to ingest.
    AwaitIngest,
    /// Waiting for the model's summary.
    AwaitSummary,
    /// Waiting for a checkpoint to be saved before the next step.
    AwaitPersist,
    /// Waiting for the last checkpoint to be saved.
    AwaitFinalPersist,
    /// The run is over.
    Finished,
}

/// What the caller reports to the loop.
#[derive(Debug, Clone)]
pub enum LoopEvent {
    /// Run the loop: from the start, or again from where it stands after a
    /// run that ended or was interrupted (as by an action that failed).
    Start,
    /// The corpus hits for the requested search.
    Searched(Vec<SearchHit>),
    /// The current working directory, as displayed.
    WorkingDir(String),
    /// The content of the requested file, or `None` when it could not be
    /// ingested.
    Ingested(Option<String>),
    /// The model's summary.
    Summarized(String),
    /// The checkpoint was saved.
    Persisted,
}

/// What the loop asks the caller to do next.
#[derive(Debug, Clone)]
pub enum LoopAction {
    /// Search the corpus for `query`, keeping at most `limit` hits.
    Search { query: String, limit: usize },
    /// Report the current working directory.
    LocateWorkingDir,
    /// Ingest the document at `uri`.
    Ingest { uri: String },
    /// Ask the model to summarize `context` for `topic`.
    Summarize { topic: String, context: String },
    /// Save the checkpoint ([`AgentLoop::checkpoint`]).
    Persist,
    /// Nothing more: the run is over.
    Stop,
}

pub enum LoopActionView {
    Search { query: Seq<char>, limit: nat },
    LocateWorkingDir,
    Ingest { uri: Seq<char> },
    Summarize { topic: Seq<char>, context: Seq<char> },
    Persist,
    Stop,
}

impl View for LoopAction {
    type V = LoopActionView;

    open spec fn view(&self) -> LoopActionView {
        match self {
            LoopAction::Search { query, limit } => LoopActionView::Search { query: query@, limit: *limit as nat },
            LoopAction::LocateWorkingDir => LoopActionView::LocateWorkingDir,
            LoopAction::Ingest { uri } => LoopActionView::Ingest { uri: uri@ },
            LoopAction::Summarize { topic, context } => LoopActionView::Summarize { topic: topic@, context: context@ },
            LoopAction::Persist => LoopActionView::Persist,
            LoopAction::Stop => LoopActionView::Stop,
        }
    }
}

/// An event that the loop did not wait for; it changed nothing.
#[derive(Debug, Clone, Copy, PartialEq, Eq, Structural)]
pub struct UnexpectedEvent;

/// The research loop: its configuration, its state, its notes and the
/// latest synthesis.
#[derive(Debug)]
pub struct AgentLoop {
    config: AgentConfig,
    state: AgentState,
    scratchpad: Scratchpad,
    synthesis: Option<String>,
    stage: Stage,
    pending_uri: String,
    rank: Ranker,
    store: InMemoryStore,
}

pub struct AgentLoopView {
    pub config: AgentConfigView,
    pub state: AgentStateView,
    pub notes: Seq<Seq<char>>,
    pub synthesis: Option<Seq<char>>,
    pub stage: Stage,
    pub pending_uri: Seq<char>,
}

impl View for AgentLoop {
    type V = AgentLoopView;

    closed spec fn view(&self) -> AgentLoopView {
        AgentLoopView {
            config: self.config@,
            state: self.state@,
            notes: self.scratchpad@,
            synthesis: state::opt_string_view(self.synthesis),
            stage: self.stage,
            pending_uri: self.pending_uri@,
        }
    }
}

/// The cost of each step, in thousandths of a budget unit.
pub const PLANNING_COST: i64 = 1000;
pub const GATHERING_COST: i64 = 2000;
pub const SYNTHESIS_COST: i64 = 3000;
pub const REVIEW_COST: i64 = 1000;
/// How many hits a search asks for, how many become notes, how many recent
/// notes the synthesis reads, and how long a synthesis must be (in bytes)
/// to pass review.
pub const SEARCH_LIMIT: usize = 8;
pub const NOTED_HITS: usize = 3;
pub const CONTEXT_NOTES: usize = 8;
pub const MIN_SYNTHESIS_BYTES: u128 = 40;
pub const INGEST_PREVIEW_CHARS: usize = 160;

pub open spec fn plan_note(step: nat, topic: Seq<char>) -> Seq<char> {
    "Plan step "@ + text::decimal(step) + " for topic "@ + topic
}

pub open spec fn source_note(h: SearchHitView) -> Seq<char> {
    "Source: "@ + h.source + "\nScore: "@ + text::decimal(h.score) + ".00\n"@ + h.snippet
}

pub open spec fn ingest_note(uri: Seq<char>, content: Seq<char>) -> Seq<char> {
    "Optional local ingest from "@ + uri + ": "@ + content.take(
        if 160 < content.len() { 160 } else { content.len() as int },
    )
}

pub open spec fn synthesis_note(summary: Seq<char>) -> Seq<char> {
    "Draft synthesis:\n"@ + summary
}

pub open spec fn accepted_note() -> Seq<char> {
    "Review accepted synthesis"@
}

pub open spec fn retry_note() -> Seq<char> {
    "Review requested another iteration"@
}

pub open spec fn exhaustion_message() -> Seq<char> {
    "resource exhaustion"@
}

/// The file offered for optional ingestion: the README of the working
/// directory.
pub open spec fn readme_uri(dir: Seq<char>) -> Seq<char> {
    "file://"@ + dir + "/README.md"@
}

/// What the model is asked to summarize: the eight newest notes, newest
/// first, separated by `---` lines.
pub open spec fn synthesis_context(notes: Seq<Seq<char>>) -> Seq<char> {
    text::join(scratchpad::newest_first(notes, 8), "\n---\n"@)
}

/// A synthesis passes review when it is longer than 40 bytes.
pub open spec fn passes_review(synthesis: Option<Seq<char>>) -> bool {
    match synthesis {
        Some(s) => text::utf8_len(s) > 40,
        None => false,
    }
}

/// The notes made of the best three hits.
pub open spec fn hit_notes(hits: Seq<SearchHitView>) -> Seq<Seq<char>> {
    let best = hits.take(if 3 < hits.len() { 3 } else { hits.len() as int });
    best.map_values(|h: SearchHitView| source_note(h))
}

pub open spec fn spent(s: AgentStateView, amount: int) -> AgentStateView {
    AgentStateView { budget_remaining: s.budget_remaining - amount, ..s }
}

pub open spec fn moved(s: AgentStateView, p: AgentPhase) -> AgentStateView {
    AgentStateView { phase: p, ..s }
}

/// The stage agrees with the phase: a started loop is never idle, a step
/// that waits in its middle was started with steps left, a run that saves
/// its last checkpoint has failed, and a finished run is done or failed.
pub open spec fn consistent(v: AgentLoopView) -> bool {
    match v.stage {
        Stage::Ready => true,
        Stage::AwaitSearch | Stage::AwaitWorkingDir | Stage::AwaitIngest => {
            v.state.phase == AgentPhase::Gathering && v.state.step < v.state.max_steps
        },
        Stage::AwaitSummary => v.state.phase == AgentPhase::Synthesizing && v.state.step < v.state.max_steps,
        Stage::AwaitPersist => v.state.phase != AgentPhase::Idle,
        Stage::AwaitFinalPersist => v.state.phase == AgentPhase::Failed,
        Stage::Finished => v.state.phase == AgentPhase::Done || v.state.phase == AgentPhase::Failed,
    }
}

/// The end of a step: one more step counted, and a checkpoint to save.
pub open spec fn after_step(v: AgentLoopView) -> (AgentLoopView, LoopActionView) {
    (
        AgentLoopView {
            state: AgentStateView { step: v.state.step + 1, ..v.state },
            stage: Stage::AwaitPersist,
            ..v
        },
        LoopActionView::Persist,
    )
}

/// The end of the run: a run that used up its steps or budget without
/// finishing fails, and that failure is saved; otherwise the loop stops.
pub open spec fn finish(v: AgentLoopView) -> (AgentLoopView, LoopActionView) {
    if v.state.is_exhausted() && v.state.phase != AgentPhase::Done {
        (
            AgentLoopView {
                state: AgentStateView {
                    phase: AgentPhase::Failed,
                    last_error: Some(exhaustion_message()),
                    ..v.state
                },
                stage: Stage::AwaitFinalPersist,
                ..v
            },
            LoopActionView::Persist,
        )
    } else {
        (AgentLoopView { stage: Stage::Finished, ..v }, LoopActionView::Stop)
    }
}

/// One turn of the loop: stop when steps or budget are used up; otherwise
/// do the step of the current phase. A step that its budget does not cover
/// does nothing but count.
pub open spec fn loop_head(v: AgentLoopView) -> (AgentLoopView, LoopActionView) {
    let s = v.state;
    if s.is_exhausted() {
        finish(v)
    } else {
        match s.phase {
            AgentPhase::Planning => if s.budget_remaining >= 1000 {
                after_step(
                    AgentLoopView {
                        state: moved(spent(s, 1000), AgentPhase::Gathering),
                        notes: v.notes.push(plan_note(s.step, v.config.topic)),
                        ..v
                    },
                )
            } else {
                after_step(v)
            },
            AgentPhase::Gathering => if s.budget_remaining >= 2000 {
                (
                    AgentLoopView { state: spent(s, 2000), stage: Stage::AwaitSearch, ..v },
                    LoopActionView::Search { query: v.config.topic, limit: 8 },
                )
            } else {
                after_step(v)
            },
            AgentPhase::Synthesizing => if s.budget_remaining >= 3000 {
                (
                    AgentLoopView { state: spent(s, 3000), stage: Stage::AwaitSummary, ..v },
                    LoopActionView::Summarize { topic: v.config.topic, context: synthesis_context(v.notes) },
                )
            } else {
                after_step(v)
            },
            AgentPhase::Reviewing => if s.budget_remaining >= 1000 {
                if passes_review(v.synthesis) {
                    finish(
                        AgentLoopView {
                            state: moved(spent(s, 1000), AgentPhase::Done),
                            notes: v.notes.push(accepted_note()),
                            ..v
                        },
                    )
                } else {
                    after_step(
                        AgentLoopView {
                            state: moved(spent(s, 1000), AgentPhase::Planning),
                            notes: v.notes.push(retry_note()),
                            ..v
                        },
                    )
                }
            } else {
                after_step(v)
            },
            AgentPhase::Done | AgentPhase::Failed => finish(v),
            AgentPhase::Idle => after_step(AgentLoopView { state: moved(s, AgentPhase::Planning), ..v }),
        }
    }
}

/// How the loop answers an event: `None` when it was not waiting for it.
pub open spec fn advance_spec(v: AgentLoopView, e: LoopEvent) -> Option<(AgentLoopView, LoopActionView)> {
    if !consistent(v) {
        None
    } else {
        match (v.stage, e) {
            (_, LoopEvent::Start) => Some(
                loop_head(
                    if v.state.phase == AgentPhase::Idle {
                        AgentLoopView { state: moved(v.state, AgentPhase::Planning), ..v }
                    } else {
                        v
                    },
                ),
            ),
            (Stage::AwaitPersist, LoopEvent::Persisted) => Some(loop_head(v)),
            (Stage::AwaitFinalPersist, LoopEvent::Persisted) => Some(
                (AgentLoopView { stage: Stage::Finished, ..v }, LoopActionView::Stop),
            ),
            (Stage::AwaitSearch, LoopEvent::Searched(hits)) => {
                let ranked = rank::reranked(hits@.map_values(|h: SearchHit| h@), v.config.topic);
                let noted = AgentLoopView { notes: v.notes + hit_notes(ranked), ..v };
                if v.config.allow_scrape {
                    Some((AgentLoopView { stage: Stage::AwaitWorkingDir, ..noted }, LoopActionView::LocateWorkingDir))
                } else {
                    Some(after_step(AgentLoopView { state: moved(v.state, AgentPhase::Synthesizing), ..noted }))
                }
            },
            (Stage::AwaitWorkingDir, LoopEvent::WorkingDir(dir)) => Some(
                (
                    AgentLoopView { stage: Stage::AwaitIngest, pending_uri: readme_uri(dir@), ..v },
                    LoopActionView::Ingest { uri: readme_uri(dir@) },
                ),
            ),
            (Stage::AwaitIngest, LoopEvent::Ingested(content)) => {
                let noted = match content {
                    Some(c) => AgentLoopView { notes: v.notes.push(ingest_note(v.pending_uri, c@)), ..v },
                    None => v,
                };
                Some(after_step(AgentLoopView { state: moved(v.state, AgentPhase::Synthesizing), ..noted }))
            },
            (Stage::AwaitSummary, LoopEvent::Summarized(summary)) => Some(
                after_step(
                    AgentLoopView {
                        state: moved(v.state, AgentPhase::Reviewing),
                        notes: v.notes.push(synthesis_note(summary@)),
                        synthesis: Some(summary@),
                        ..v
                    },
                ),
            ),
            _ => None,
        }
    }
}


impl AgentLoop {
    /// A loop that has not started, with the configured steps and budget.
    pub fn new(config: AgentConfig) -> (l: Self)
        ensures
            l@ == (AgentLoopView {
                config: config@,
                state: AgentStateView {
                    phase: AgentPhase::Idle,
                    step: 0,
                    max_steps: config.max_steps as nat,
                    budget_remaining: config.budget as int,
                    last_error: None,
                },
                notes: Seq::empty(),
                synthesis: None,
                stage: Stage::Ready,
                pending_uri: Seq::empty(),
            }),
    {
        let state = AgentState::new(config.max_steps, config.budget);
        AgentLoop {
            state,
            store: InMemoryStore::default(),
            scratchpad: Scratchpad::default(),
            synthesis: None,
            stage: Stage::Ready,
            pending_uri: String::new(),
            config,
            rank: Ranker,
        }
    }

    /// A loop that carries on from a saved checkpoint: its state, notes and
    /// synthesis, its topic and profile; the steps and budget it may still
    /// use are those of the saved state.
    pub fn from_checkpoint(checkpoint: Checkpoint, checkpoint_file: String, allow_scrape: bool) -> (l: Self)
        ensures
            l@ == (AgentLoopView {
                config: AgentConfigView {
                    topic: checkpoint@.topic,
                    profile: checkpoint@.profile,
                    max_steps: checkpoint@.state.max_steps,
                    budget: checkpoint@.state.budget_remaining,
                    checkpoint_file: checkpoint_file@,
                    allow_scrape,
                },
                state: checkpoint@.state,
                notes: checkpoint@.notes,
                synthesis: checkpoint@.synthesis,
                stage: Stage::Ready,
                pending_uri: Seq::empty(),
            }),
    {
        let config = AgentConfig {
            topic: checkpoint.topic.clone(),
            profile: checkpoint.profile.clone(),
            max_steps: checkpoint.state.max_steps(),
            budget: checkpoint.state.budget_remaining(),
            checkpoint_file,
            allow_scrape,
        };
        AgentLoop {
            config,
            state: checkpoint.state,
            scratchpad: checkpoint.scratchpad,
            synthesis: checkpoint.synthesis,
            stage: Stage::Ready,
            pending_uri: String::new(),
            rank: Ranker,
            store: InMemoryStore::default(),
        }
    }

    /// What is saved of the loop: its state, notes, synthesis, topic and
    /// profile, as they are now.
    pub fn checkpoint(&self) -> (c: Checkpoint)
        ensures
            c@ == (CheckpointView {
                state: self@.state,
                notes: self@.notes,
                synthesis: self@.synthesis,
                topic: self@.config.topic,
                profile: self@.config.profile,
            }),
    {
        let synthesis = match &self.synthesis {
            Some(s) => Some(s.clone()),
            None => None,
        };
        Checkpoint {
            state: self.state.duplicate(),
            scratchpad: self.scratchpad.duplicate(),
            synthesis,
            topic: self.config.topic.clone(),
            profile: self.config.profile.clone(),
        }
    }

    /// The latest synthesis, if there is one.
    pub fn synthesis(&self) -> (s: Option<&str>)
        ensures
            match s {
                Some(t) => self@.synthesis == Some(t@),
                None => self@.synthesis is None,
            },
    {
        match &self.synthesis {
            Some(t) => Some(t.as_str()),
            None => None,
        }
    }

    pub fn config(&self) -> (c: &AgentConfig)
        ensures
            c@ == self@.config,
    {
        &self.config
    }

    pub fn state(&self) -> (s: &AgentState)
        ensures
            s@ == self@.state,
    {
        &self.state
    }

    pub fn scratchpad(&self) -> (s: &Scratchpad)
        ensures
            s@ == self@.notes,
    {
        &self.scratchpad
    }

    pub fn stage(&self) -> (s: Stage)
        ensures
            s == self@.stage,
    {
        self.stage
    }

    fn is_consistent(&self) -> (b: bool)
        ensures
            b == consistent(self@),
    {
        let phase = *self.state.phase();
        let before_limit = self.state.step() < self.state.max_steps();
        match self.stage {
            Stage::Ready => true,
            Stage::AwaitSearch | Stage::AwaitWorkingDir | Stage::AwaitIngest => {
                phase == AgentPhase::Gathering && before_limit
            },
            Stage::AwaitSummary => phase == AgentPhase::Synthesizing && before_limit,
            Stage::AwaitPersist => phase != AgentPhase::Idle,
            Stage::AwaitFinalPersist => phase == AgentPhase::Failed,
            Stage::Finished => phase == AgentPhase::Done || phase == AgentPhase::Failed,
        }
    }

    fn after_step(&mut self) -> (a: LoopAction)
        requires
            old(self)@.state.step < usize::MAX,
        ensures
            (final(self)@, a@) == after_step(old(self)@),
    {
        self.state.increment_step();
        self.stage = Stage::AwaitPersist;
        LoopAction::Persist
    }

    fn finish(&mut self) -> (a: LoopAction)
        ensures
            (final(self)@, a@) == finish(old(self)@),
    {
        if self.state.is_exhausted() && *self.state.phase() != AgentPhase::Done {
            self.state.fail("resource exhaustion");
            proof {
                reveal_strlit("resource exhaustion");
            }
            self.stage = Stage::AwaitFinalPersist;
            LoopAction::Persist
        } else {
            self.stage = Stage::Finished;
            LoopAction::Stop
        }
    }

    fn push_note(&mut self, note: String)
        ensures
            final(self)@ == (AgentLoopView { notes: old(self)@.notes.push(note@), ..old(self)@ }),
    {
        self.scratchpad.push(note);
    }

    fn move_to(&mut self, next: AgentPhase)
        requires
            state::allowed_transition(old(self)@.state.phase, next),
        ensures
            final(self)@ == (AgentLoopView { state: moved(old(self)@.state, next), ..old(self)@ }),
    {
        let _ = self.state.transition(next);
    }

    fn loop_head(&mut self) -> (a: LoopAction)
        ensures
            (final(self)@, a@) == loop_head(old(self)@),
    {
        proof {
            self.state.lemma_bounds();
        }
        if self.state.is_exhausted() {
            return self.finish();
        }
        let phase = *self.state.phase();
        match phase {
            AgentPhase::Planning => {
                let step = self.state.step();
                if self.state.spend_budget(PLANNING_COST) {
                    let mut note = String::from_str("Plan step ");
                    let digits = text::decimal_string(step as u128);
                    note.append(digits.as_str());
                    note.append(" for topic ");
                    note.append(self.config.topic.as_str());
                    proof {
                        reveal_strlit("Plan step ");
                        reveal_strlit(" for topic ");
                    }
                    self.push_note(note);
                    self.move_to(AgentPhase::Gathering);
                }
                self.after_step()
            },
            AgentPhase::Gathering => {
                if self.state.spend_budget(GATHERING_COST) {
                    self.stage = Stage::AwaitSearch;
                    LoopAction::Search { query: self.config.topic.clone(), limit: SEARCH_LIMIT }
                } else {
                    self.after_step()
                }
            },
            AgentPhase::Synthesizing => {
                if self.state.spend_budget(SYNTHESIS_COST) {
                    let recent = self.scratchpad.recent(CONTEXT_NOTES);
                    let context = text::join_strings(&recent, "\n---\n");
                    proof {
                        reveal_strlit("\n---\n");
                    }
                    self.stage = Stage::AwaitSummary;
                    LoopAction::Summarize { topic: self.config.topic.clone(), context }
                } else {
                    self.after_step()
                }
            },
            AgentPhase::Reviewing => {
                if self.state.spend_budget(REVIEW_COST) {
                    let passed = match &self.synthesis {
                        Some(s) => {
                            let cs = text::chars_of(s.as_str());
                            text::utf8_len_exec(cs.as_slice()) > MIN_SYNTHESIS_BYTES
                        },
                        None => false,
                    };
                    if passed {
                        proof {
                            reveal_strlit("Review accepted synthesis");
                        }
                        self.push_note(String::from_str("Review accepted synthesis"));
                        self.move_to(AgentPhase::Done);
                        self.finish()
                    } else {
                        proof {
                            reveal_strlit("Review requested another iteration");
                        }
                        self.push_note(String::from_str("Review requested another iteration"));
                        self.move_to(AgentPhase::Planning);
                        self.after_step()
                    }
                } else {
                    self.after_step()
                }
            },
            AgentPhase::Done | AgentPhase::Failed => self.finish(),
            AgentPhase::Idle => {
                self.move_to(AgentPhase::Planning);
                self.after_step()
            },
        }
    }

    /// Notes the best three of the ranked hits.
    fn note_hits(&mut self, hits: Vec<SearchHit>)
        ensures
            final(self)@ == (AgentLoopView {
                notes: old(self)@.notes + hit_notes(
                    rank::reranked(hits@.map_values(|h: SearchHit| h@), old(self)@.config.topic),
                ),
                ..old(self)@
            }),
    {
        let ranked = self.rank.rerank(self.config.topic.as_str(), hits);
        let ghost views = ranked@.map_values(|h: SearchHit| h@);
        let ghost start = self@.notes;
        let count = if NOTED_HITS < ranked.len() { NOTED_HITS } else { ranked.len() };
        let ghost wanted = hit_notes(views);
        assert(wanted.len() == count);
        let mut i: usize = 0;
        while i < count
            invariant
                count <= ranked@.len(),
                wanted.len() == count,
                views == ranked@.map_values(|h: SearchHit| h@),
                wanted == hit_notes(views),
                i <= count,
                self@ == (AgentLoopView { notes: start + wanted.take(i as int), ..old(self)@ }),
            decreases count - i,
        {
            let h = &ranked[i];
            let mut note = String::from_str("Source: ");
            note.append(h.source.as_str());
            note.append("\nScore: ");
            let digits = text::decimal_string(h.score as u128);
            note.append(digits.as_str());
            note.append(".00\n");
            note.append(h.snippet.as_str());
            proof {
                reveal_strlit("Source: ");
                reveal_strlit("\nScore: ");
                reveal_strlit(".00\n");
                assert(note@ == source_note(views[i as int]));
                assert(wanted[i as int] == source_note(views[i as int]));
            }
            self.push_note(note);
            assert(start + wanted.take(i + 1) =~= (start + wanted.take(i as int)).push(wanted[i as int]));
            i = i + 1;
        }
        assert(wanted.take(count as int) =~= wanted);
    }

    /// Moves the loop on after `event`, and says what to do next. An event
    /// the loop was not waiting for changes nothing.
    pub fn advance(&mut self, event: LoopEvent) -> (r: Result<LoopAction, UnexpectedEvent>)
        ensures
            match advance_spec(old(self)@, event) {
                Some((v, a)) => r matches Ok(act) && final(self)@ == v && act@ == a,
                None => r is Err && final(self)@ == old(self)@,
            },
    {
        proof {
            self.state.lemma_bounds();
        }
        if !self.is_consistent() {
            return Err(UnexpectedEvent);
        }
        match event {
            LoopEvent::Start => {
                if *self.state.phase() == AgentPhase::Idle {
                    self.move_to(AgentPhase::Planning);
                }
                Ok(self.loop_head())
            },
            LoopEvent::Persisted => {
                if self.stage == Stage::AwaitPersist {
                    Ok(self.loop_head())
                } else if self.stage == Stage::AwaitFinalPersist {
                    self.stage = Stage::Finished;
                    Ok(LoopAction::Stop)
                } else {
                    Err(UnexpectedEvent)
                }
            },
            LoopEvent::Searched(hits) => {
                if self.stage != Stage::AwaitSearch {
                    return Err(UnexpectedEvent);
                }
                self.note_hits(hits);
                if self.config.allow_scrape {
                    self.stage = Stage::AwaitWorkingDir;
                    Ok(LoopAction::LocateWorkingDir)
                } else {
                    self.move_to(AgentPhase::Synthesizing);
                    Ok(self.after_step())
                }
            },
            LoopEvent::WorkingDir(dir) => {
                if self.stage != Stage::AwaitWorkingDir {
                    return Err(UnexpectedEvent);
                }
                let mut uri = String::from_str("file://");
                uri.append(dir.as_str());
                uri.append("/README.md");
                proof {
                    reveal_strlit("file://");
                    reveal_strlit("/README.md");
                }
                self.pending_uri = uri.clone();
                self.stage = Stage::AwaitIngest;
                Ok(LoopAction::Ingest { uri })
            },
            LoopEvent::Ingested(content) => {
                if self.stage != Stage::AwaitIngest {
                    return Err(UnexpectedEvent);
                }
                match content {
                    Some(c) => {
                        let mut note = String::from_str("Optional local ingest from ");
                        note.append(self.pending_uri.as_str());
                        note.append(": ");
                        let preview = text::take_chars(c.as_str(), INGEST_PREVIEW_CHARS);
                        note.append(preview.as_str());
                        proof {
                            reveal_strlit("Optional local ingest from ");
                            reveal_strlit(": ");
                        }
                        self.push_note(note);
                    },
                    None => {},
                }
                self.move_to(AgentPhase::Synthesizing);
                Ok(self.after_step())
            },
            LoopEvent::Summarized(summary) => {
                if self.stage != Stage::AwaitSummary {
                    return Err(UnexpectedEvent);
                }
                let mut note = String::from_str("Draft synthesis:\n");
                note.append(summary.as_str());
                proof {
                    reveal_strlit("Draft synthesis:\n");
                }
                self.push_note(note);
                self.synthesis = Some(summary);
                self.move_to(AgentPhase::Reviewing);
                Ok(self.after_step())
            },
        }
    }
}


/// The rank of each stage in the order a step goes through them.
pub open spec fn stage_rank(s: Stage) -> int {
    match s {
        Stage::Ready => 7,
        Stage::AwaitPersist => 6,
        Stage::AwaitSearch => 5,
        Stage::AwaitWorkingDir => 4,
        Stage::AwaitIngest => 3,
        Stage::AwaitSummary => 3,
        Stage::AwaitFinalPersist => 1,
        Stage::Finished => 0,
    }
}

/// How far the run may still go: eight per step left, plus the rank of the
/// stage.
pub open spec fn remaining_work(v: AgentLoopView) -> int {
    (v.state.max_steps - v.state.step) * 8 + stage_rank(v.stage)
}

/// Every event the loop accepts leaves it consistent.
pub proof fn lemma_advance_keeps_consistency(v: AgentLoopView, e: LoopEvent)
    requires
        advance_spec(v, e) is Some,
    ensures
        consistent(advance_spec(v, e).unwrap().0),
{
}

/// A run never uses more steps than it may: if the step counter is within
/// the limit, it stays within it.
pub proof fn lemma_steps_stay_within_limit(v: AgentLoopView, e: LoopEvent)
    requires
        v.state.step <= v.state.max_steps,
        advance_spec(v, e) is Some,
    ensures
        advance_spec(v, e).unwrap().0.state.step <= advance_spec(v, e).unwrap().0.state.max_steps,
        advance_spec(v, e).unwrap().0.state.max_steps == v.state.max_steps,
{
}

/// A run never spends budget it does not have: a budget that is not
/// negative never becomes negative, and it never grows.
pub proof fn lemma_budget_never_overspent(v: AgentLoopView, e: LoopEvent)
    requires
        v.state.budget_remaining >= 0,
        advance_spec(v, e) is Some,
    ensures
        advance_spec(v, e).unwrap().0.state.budget_remaining >= 0,
        advance_spec(v, e).unwrap().0.state.budget_remaining <= v.state.budget_remaining,
{
}

/// Once started, the loop is never idle again.
pub proof fn lemma_never_idle_again(v: AgentLoopView, e: LoopEvent)
    requires
        advance_spec(v, e) is Some,
    ensures
        advance_spec(v, e).unwrap().0.state.phase != AgentPhase::Idle,
{
}

/// The loop stops only when the run is done or has failed, and then it
/// accepts nothing but a new start.
pub proof fn lemma_stop_only_when_settled(v: AgentLoopView, e: LoopEvent, e2: LoopEvent)
    requires
        advance_spec(v, e) matches Some((_, LoopActionView::Stop)),
        !(e2 is Start),
    ensures
        advance_spec(v, e).unwrap().0.state.phase == AgentPhase::Done || advance_spec(v, e).unwrap().0.state.phase
            == AgentPhase::Failed,
        advance_spec(v, e).unwrap().0.stage == Stage::Finished,
        advance_spec(advance_spec(v, e).unwrap().0, e2) is None,
{
}

/// Every event the loop accepts after it was started brings the run closer
/// to its end: the work left, which is never negative while the step
/// counter is within the limit, strictly decreases. So a run takes at most
/// `8 * (max_steps - step) + 7` events after its start.
pub proof fn lemma_run_terminates(v: AgentLoopView, e: LoopEvent)
    requires
        v.state.step <= v.state.max_steps,
        v.stage == Stage::Ready || !(e is Start),
        advance_spec(v, e) is Some,
    ensures
        remaining_work(v) >= 0,
        0 <= remaining_work(advance_spec(v, e).unwrap().0) < remaining_work(v),
{
}

/// The checkpoint the loop saves.
pub open spec fn checkpoint_of(v: AgentLoopView) -> CheckpointView {
    CheckpointView {
        state: v.state,
        notes: v.notes,
        synthesis: v.synthesis,
        topic: v.config.topic,
        profile: v.config.profile,
    }
}

/// The loop resumed from a checkpoint.
pub open spec fn resumed(c: CheckpointView, checkpoint_file: Seq<char>, allow_scrape: bool) -> AgentLoopView {
    AgentLoopView {
        config: AgentConfigView {
            topic: c.topic,
            profile: c.profile,
            max_steps: c.state.max_steps,
            budget: c.state.budget_remaining,
            checkpoint_file,
            allow_scrape,
        },
        state: c.state,
        notes: c.notes,
        synthesis: c.synthesis,
        stage: Stage::Ready,
        pending_uri: Seq::empty(),
    }
}

/// Resuming from a saved checkpoint gives back the run that saved it: the
/// same state, notes, synthesis, topic and profile; it starts afresh, and
/// saving it again gives the same checkpoint.
pub proof fn lemma_resume_gives_back_checkpoint(v: AgentLoopView, checkpoint_file: Seq<char>, allow_scrape: bool)
    ensures
        ({
            let r = resumed(checkpoint_of(v), checkpoint_file, allow_scrape);
            &&& r.state == v.state
            &&& r.notes == v.notes
            &&& r.synthesis == v.synthesis
            &&& r.config.topic == v.config.topic
            &&& r.config.profile == v.config.profile
            &&& r.stage == Stage::Ready
            &&& checkpoint_of(r) == checkpoint_of(v)
        }),
{
}


/// The optional ingestion never holds up the run: whatever it gave, the
/// gathering step ends, the loop moves on to synthesizing, counts the step
/// and asks for a checkpoint, with the budget untouched. Content that was
/// read adds one note, which ends with its first 160 characters; a failed
/// ingestion adds no note.
pub proof fn lemma_ingest_outcome_only_adds_a_note(v: AgentLoopView, content: Option<String>)
    requires
        consistent(v),
        v.stage == Stage::AwaitIngest,
    ensures
        advance_spec(v, LoopEvent::Ingested(content)) matches Some((w, a)) && {
            &&& a is Persist
            &&& w.state.phase == AgentPhase::Synthesizing
            &&& w.state.step == v.state.step + 1
            &&& w.state.budget_remaining == v.state.budget_remaining
            &&& w.stage == Stage::AwaitPersist
            &&& w.synthesis == v.synthesis
            &&& match content {
                None => w.notes == v.notes,
                Some(c) => {
                    let preview = c@.take(if 160 < c@.len() { 160 } else { c@.len() as int });
                    &&& w.notes.len() == v.notes.len() + 1
                    &&& w.notes.take(v.notes.len() as int) == v.notes
                    &&& w.notes.last().len() >= preview.len()
                    &&& w.notes.last().skip(w.notes.last().len() - preview.len()) == preview
                },
            }
        },
{
    if let Some(c) = content {
        let r = advance_spec(v, LoopEvent::Ingested(content));
        let w = r.unwrap().0;
        assert(w.notes.take(v.notes.len() as int) =~= v.notes);
        let preview = c@.take(if 160 < c@.len() { 160 } else { c@.len() as int });
        let note = ingest_note(v.pending_uri, c@);
        assert(w.notes.last() == note);
        assert(note.skip(note.len() - preview.len()) =~= preview);
    }
}


/// The model's summary becomes the synthesis and is noted: the loop moves
/// on to reviewing, counts the step and asks for a checkpoint, with the
/// budget untouched.
pub proof fn lemma_summary_becomes_synthesis(v: AgentLoopView, summary: String)
    requires
        consistent(v),
        v.stage == Stage::AwaitSummary,
    ensures
        advance_spec(v, LoopEvent::Summarized(summary)) matches Some((w, a)) && {
            &&& a is Persist
            &&& w.synthesis == Some(summary@)
            &&& w.state.phase == AgentPhase::Reviewing
            &&& w.state.step == v.state.step + 1
            &&& w.state.budget_remaining == v.state.budget_remaining
            &&& w.notes.len() == v.notes.len() + 1
            &&& w.notes.take(v.notes.len() as int) == v.notes
            &&& w.notes.last().len() >= summary@.len()
            &&& w.notes.last().skip(w.notes.last().len() - summary@.len()) == summary@
        },
{
    let w = advance_spec(v, LoopEvent::Summarized(summary)).unwrap().0;
    assert(w.notes.take(v.notes.len() as int) =~= v.notes);
    let note = synthesis_note(summary@);
    assert(note.skip(note.len() - summary@.len()) =~= summary@);
}

/// Search results become at most three notes, one per hit, and nothing
/// else changes but the way forward: with scraping allowed the loop asks
/// for the working directory and stays in gathering; otherwise it moves on
/// to synthesizing, counts the step and asks for a checkpoint. The budget
/// is untouched either way.
pub proof fn lemma_search_results_are_noted(v: AgentLoopView, hits: Vec<SearchHit>)
    requires
        consistent(v),
        v.stage == Stage::AwaitSearch,
    ensures
        advance_spec(v, LoopEvent::Searched(hits)) matches Some((w, a)) && {
            &&& w.notes.len() == v.notes.len() + (if hits@.len() < 3 { hits@.len() } else { 3 })
            &&& w.notes.take(v.notes.len() as int) == v.notes
            &&& w.state.budget_remaining == v.state.budget_remaining
            &&& w.synthesis == v.synthesis
            &&& if v.config.allow_scrape {
                &&& a is LocateWorkingDir
                &&& w.state.phase == AgentPhase::Gathering
                &&& w.state.step == v.state.step
            } else {
                &&& a is Persist
                &&& w.state.phase == AgentPhase::Synthesizing
                &&& w.state.step == v.state.step + 1
            }
        },
{
    let views = hits@.map_values(|h: SearchHit| h@);
    crate::tools::rank::lemma_rerank_reorders(views, v.config.topic);
    let w = advance_spec(v, LoopEvent::Searched(hits)).unwrap().0;
    assert(w.notes.take(v.notes.len() as int) =~= v.notes);
}

/// What each step costs: a search is asked for only by a gathering step
/// that paid 2000, a summary only by a synthesizing step that paid 3000;
/// both ask about the configured topic, the search for at most eight hits.
pub proof fn lemma_step_costs(v: AgentLoopView, e: LoopEvent)
    requires
        advance_spec(v, e) is Some,
    ensures
        advance_spec(v, e) matches Some((w, LoopActionView::Search { query, limit })) ==> {
            &&& w.state.budget_remaining == v.state.budget_remaining - 2000
            &&& w.state.phase == AgentPhase::Gathering
            &&& query == v.config.topic
            &&& limit == 8
        },
        advance_spec(v, e) matches Some((w, LoopActionView::Summarize { topic, context })) ==> {
            &&& w.state.budget_remaining == v.state.budget_remaining - 3000
            &&& w.state.phase == AgentPhase::Synthesizing
            &&& topic == v.config.topic
        },
{
}

/// A run is accepted as done only by a review that paid 1000 for a
/// synthesis of more than 40 bytes.
pub proof fn lemma_done_needs_a_long_synthesis(v: AgentLoopView, e: LoopEvent)
    requires
        v.state.phase != AgentPhase::Done,
        advance_spec(v, e) matches Some((w, _)) && w.state.phase == AgentPhase::Done,
    ensures
        v.synthesis matches Some(s) && text::utf8_len(s) > 40,
        advance_spec(v, e).unwrap().0.state.budget_remaining == v.state.budget_remaining - 1000,
        advance_spec(v, e).unwrap().0.synthesis == v.synthesis,
{
}

} // verus!

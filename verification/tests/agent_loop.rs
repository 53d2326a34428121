use std::collections::HashMap;

use tiny_researcher::agent::driver::{AgentConfig, AgentLoop, LoopAction, LoopEvent, Stage, UnexpectedEvent};
use tiny_researcher::agent::state::{AgentPhase, AgentState};
use tiny_researcher::memory::scratchpad::Scratchpad;
use tiny_researcher::memory::store::{InMemoryStore, LongTermStore, MemoryRecord};
use tiny_researcher::runtime::llm_client::{ffi_stub_answer, stdio_answer, InferenceStep, LocalTransport};
use tiny_researcher::tools::local_search::{CorpusDocument, LocalSearch, SearchHit};
use tiny_researcher::tools::rank::Ranker;
use tiny_researcher::tools::scrape::ScrapeTool;
use tiny_researcher::tools::summarize::summary_prompt;

fn doc(source: &str, text: &str) -> CorpusDocument {
    CorpusDocument { source: source.to_string(), text: text.to_string() }
}

fn search_documents(docs: &Vec<CorpusDocument>, query: &str, limit: usize) -> Vec<SearchHit> {
    LocalSearch::new("./corpus").rank_documents(docs, query, limit)
}

fn hit(source: &str, snippet: &str, score: u64) -> SearchHit {
    SearchHit { source: source.to_string(), snippet: snippet.to_string(), score }
}

fn record(id: &str, text: &str) -> MemoryRecord {
    MemoryRecord { id: id.to_string(), text: text.to_string(), embedding: None, metadata: HashMap::new() }
}

#[test]
fn phase_changes_follow_the_research_cycle() {
    let mut s = AgentState::new(5, 4000);
    assert_eq!(*s.phase(), AgentPhase::Idle);
    assert_eq!(s.transition(AgentPhase::Planning), Ok(()));
    assert_eq!(s.transition(AgentPhase::Gathering), Ok(()));
    assert_eq!(s.transition(AgentPhase::Synthesizing), Ok(()));
    assert_eq!(s.transition(AgentPhase::Reviewing), Ok(()));
    assert_eq!(s.transition(AgentPhase::Planning), Ok(()));
    assert_eq!(
        s.transition(AgentPhase::Done),
        Err("invalid transition: Planning -> Done".to_string())
    );
    assert_eq!(*s.phase(), AgentPhase::Planning);
    assert_eq!(s.last_error, Some("invalid transition: Planning -> Done".to_string()));
    assert_eq!(s.transition(AgentPhase::Failed), Ok(()));
    assert!(s.transition(AgentPhase::Idle).is_err());
    assert_eq!(s.transition(AgentPhase::Failed), Ok(()));
}

#[test]
fn budget_and_steps_run_out() {
    let mut s = AgentState::new(2, 2500);
    assert!(!s.is_exhausted());
    assert!(s.spend_budget(2000));
    assert_eq!(s.budget_remaining, 500);
    assert!(!s.spend_budget(1000));
    assert_eq!(s.budget_remaining, 500);
    s.increment_step();
    s.increment_step();
    assert_eq!(s.step, 2);
    assert!(s.is_exhausted());
    let mut t = AgentState::new(10, 0);
    assert!(t.is_exhausted());
    t.fail("resource exhaustion");
    assert_eq!(*t.phase(), AgentPhase::Failed);
    assert_eq!(t.last_error, Some("resource exhaustion".to_string()));
}

#[test]
fn scratchpad_recent_is_newest_first() {
    let mut pad = Scratchpad::default();
    assert!(pad.recent(3).is_empty());
    pad.push("a".to_string());
    pad.push("b".to_string());
    pad.push("c".to_string());
    assert_eq!(pad.recent(2), vec!["c".to_string(), "b".to_string()]);
    assert_eq!(pad.recent(10), vec!["c".to_string(), "b".to_string(), "a".to_string()]);
    assert_eq!(pad.all(), &["a".to_string(), "b".to_string(), "c".to_string()][..]);
    pad.push("d".to_string());
    assert_eq!(pad.recent(1), vec!["d".to_string()]);
}

#[test]
fn store_upserts_by_id_and_searches_ignoring_case() {
    let mut store = InMemoryStore::default();
    store.upsert(record("1", "Rust ownership notes"));
    store.upsert(record("2", "Python typing"));
    store.upsert(record("3", "More RUST borrowing"));
    let found = store.search_text("rust", 10);
    assert_eq!(found.iter().map(|r| r.id.clone()).collect::<Vec<_>>(), vec!["1", "3"]);
    let mut replaced = record("1", "Go channels");
    replaced.embedding = Some(vec![1.5f32.to_bits()]);
    store.upsert(replaced);
    let found = store.search_text("RUST", 10);
    assert_eq!(found.iter().map(|r| r.id.clone()).collect::<Vec<_>>(), vec!["3"]);
    let found = store.search_text("go", 1);
    assert_eq!(found.len(), 1);
    assert_eq!(found[0].id, "1");
    assert_eq!(found[0].embedding, Some(vec![1.5f32.to_bits()]));
    assert_eq!(store.search_text("", 2).len(), 2);
    assert!(store.search_text("rust", 0).is_empty());
}

#[test]
fn search_counts_matches_ranks_and_truncates() {
    let docs = vec![
        doc("a.txt", "rust and more Rust"),
        doc("b.txt", "nothing here"),
        doc("c.txt", "RUST rust rust"),
        doc("d.txt", "one rust"),
    ];
    let hits = search_documents(&docs, "Rust", 2);
    assert_eq!(hits.len(), 2);
    assert_eq!(hits[0].source, "c.txt");
    assert_eq!(hits[0].score, 3);
    assert_eq!(hits[1].source, "a.txt");
    assert_eq!(hits[1].score, 2);
    let search = LocalSearch::new("./corpus");
    assert_eq!(search.corpus_dir_path(), "./corpus");
    let all = search.rank_documents(&docs, "rust", 8);
    assert_eq!(all.iter().map(|h| h.source.clone()).collect::<Vec<_>>(), vec!["c.txt", "a.txt", "d.txt"]);
    let empty = search_documents(&docs, "", 8);
    assert_eq!(empty[0].source, "a.txt");
    assert_eq!(empty[0].score, 19);
    assert_eq!(search_documents(&docs, "aaa", 8).len(), 0);
    assert_eq!(search_documents(&docs, "nn", 8).len(), 0);
    let overlap = search_documents(&vec![doc("o", "aaaa")], "aa", 8);
    assert_eq!(overlap[0].score, 2);
}

#[test]
fn snippets_hold_the_first_280_characters() {
    let long = "é".repeat(300) + " rust";
    let hits = search_documents(&vec![doc("long", &long)], "RUST", 1);
    assert_eq!(hits[0].snippet.chars().count(), 280);
    assert!(hits[0].snippet.chars().all(|c| c == 'é'));
}

#[test]
fn rerank_boosts_snippets_that_mention_the_topic() {
    let hits = vec![hit("a", "nothing", 5), hit("b", "About RUST", 4), hit("c", "other", 5), hit("d", "x", 6)];
    let ranked = Ranker.rerank("rust", hits);
    let order: Vec<String> = ranked.iter().map(|h| h.source.clone()).collect();
    // b: 4 * 1.25 = 5.0 ties a and c at 5.0; the stable sort keeps a, b, c.
    assert_eq!(order, vec!["d", "a", "b", "c"]);
    let ranked = Ranker.rerank("rust", vec![hit("a", "nothing", 5), hit("b", "rust", 5)]);
    assert_eq!(ranked[0].source, "b");
}

#[test]
fn scrape_ingests_only_local_files_when_enabled() {
    assert_eq!(ScrapeTool::new(false).ingest_target("file:///tmp/x"), Err("scrape disabled by policy".to_string()));
    let tool = ScrapeTool::new(true);
    assert_eq!(tool.ingest_target("file:///tmp/README.md"), Ok("/tmp/README.md".to_string()));
    assert_eq!(tool.ingest_target("file://file://notes.txt"), Ok("notes.txt".to_string()));
    assert_eq!(
        tool.ingest_target("https://example.com"),
        Err("only local file:// ingestion is permitted in local-only scrape mode".to_string())
    );
}

#[test]
fn prompts_and_model_answers() {
    assert_eq!(
        summary_prompt("rust", "ctx"),
        "Summarize research findings about 'rust'. Use this context:\nctx\nProvide concise bullets."
    );
    assert_eq!(ffi_stub_answer("héllo"), "[ffi stub] summary unavailable for prompt of 6 chars");
    assert_eq!(ffi_stub_answer(""), "[ffi stub] summary unavailable for prompt of 0 chars");
    assert_eq!(stdio_answer("  answer text \n"), "answer text");
    match LocalTransport::FfiStub.plan("abc") {
        InferenceStep::Answer(a) => assert_eq!(a, "[ffi stub] summary unavailable for prompt of 3 chars"),
        _ => panic!("the stub answers at once"),
    }
    match LocalTransport::from_backend_name("stdio").unwrap().plan("hi") {
        InferenceStep::RunCommand { command, args, input } => {
            assert_eq!(command, "cat");
            assert!(args.is_empty());
            assert_eq!(input, "hi\n");
        }
        _ => panic!("stdio runs a command"),
    }
    match LocalTransport::from_backend_name("http").unwrap().plan("hi") {
        InferenceStep::PostJson { endpoint, prompt } => {
            assert_eq!(endpoint, "http://127.0.0.1:11434/infer");
            assert_eq!(prompt, "hi");
        }
        _ => panic!("http posts"),
    }
    assert_eq!(
        tiny_researcher::runtime::validator::host_part("http://127.0.0.1:11434/infer"),
        Some("127.0.0.1".to_string())
    );
    assert!(matches!(LocalTransport::from_backend_name("ffi"), Some(LocalTransport::FfiStub)));
    assert!(LocalTransport::from_backend_name("gpu").is_none());
}

fn config(max_steps: usize, budget: i64, allow_scrape: bool) -> AgentConfig {
    AgentConfig {
        topic: "rust".to_string(),
        profile: "cpu_fallback".to_string(),
        max_steps,
        budget,
        checkpoint_file: "./.checkpoints/research.json".to_string(),
        allow_scrape,
    }
}

#[test]
fn a_full_run_reaches_done() {
    let mut agent = AgentLoop::new(config(12, 24000, true));
    assert!(matches!(agent.advance(LoopEvent::Start), Ok(LoopAction::Persist)));
    assert_eq!(*agent.state().phase(), AgentPhase::Gathering);
    assert_eq!(agent.scratchpad().all(), &["Plan step 0 for topic rust".to_string()][..]);
    match agent.advance(LoopEvent::Persisted) {
        Ok(LoopAction::Search { query, limit }) => {
            assert_eq!(query, "rust");
            assert_eq!(limit, 8);
        }
        _ => panic!("gathering searches"),
    }
    let hits = vec![hit("a.md", "x", 1), hit("b.md", "rust", 2), hit("c.md", "y", 3), hit("d.md", "z", 1)];
    assert!(matches!(agent.advance(LoopEvent::Searched(hits)), Ok(LoopAction::LocateWorkingDir)));
    match agent.advance(LoopEvent::WorkingDir("/work".to_string())) {
        Ok(LoopAction::Ingest { uri }) => assert_eq!(uri, "file:///work/README.md"),
        _ => panic!("scraping ingests the readme"),
    }
    assert!(matches!(agent.advance(LoopEvent::Ingested(Some("# Title".to_string()))), Ok(LoopAction::Persist)));
    assert_eq!(
        agent.scratchpad().all()[1..].to_vec(),
        vec![
            "Source: c.md\nScore: 3.00\ny".to_string(),
            "Source: b.md\nScore: 2.00\nrust".to_string(),
            "Source: a.md\nScore: 1.00\nx".to_string(),
            "Optional local ingest from file:///work/README.md: # Title".to_string(),
        ]
    );
    match agent.advance(LoopEvent::Persisted) {
        Ok(LoopAction::Summarize { topic, context }) => {
            assert_eq!(topic, "rust");
            assert!(context.starts_with("Optional local ingest"));
            assert!(context.ends_with("Plan step 0 for topic rust"));
            assert_eq!(context.matches("\n---\n").count(), 4);
        }
        _ => panic!("synthesizing summarizes"),
    }
    let summary = "A summary that is long enough to pass the review gate.";
    assert!(matches!(agent.advance(LoopEvent::Summarized(summary.to_string())), Ok(LoopAction::Persist)));
    assert!(matches!(agent.advance(LoopEvent::Persisted), Ok(LoopAction::Stop)));
    assert_eq!(*agent.state().phase(), AgentPhase::Done);
    assert_eq!(agent.state().step, 3);
    assert_eq!(agent.state().budget_remaining, 24000 - 1000 - 2000 - 3000 - 1000);
    assert_eq!(agent.synthesis(), Some(summary));
    assert_eq!(agent.stage(), Stage::Finished);
    assert_eq!(agent.advance(LoopEvent::Persisted).err(), Some(UnexpectedEvent));
}

#[test]
fn a_short_synthesis_is_sent_back_to_planning() {
    let mut agent = AgentLoop::new(config(12, 24000, false));
    assert!(matches!(agent.advance(LoopEvent::Start), Ok(LoopAction::Persist)));
    assert!(matches!(agent.advance(LoopEvent::Persisted), Ok(LoopAction::Search { .. })));
    assert!(matches!(agent.advance(LoopEvent::Searched(vec![])), Ok(LoopAction::Persist)));
    assert!(matches!(agent.advance(LoopEvent::Persisted), Ok(LoopAction::Summarize { .. })));
    assert!(matches!(agent.advance(LoopEvent::Summarized("too short".to_string())), Ok(LoopAction::Persist)));
    assert!(matches!(agent.advance(LoopEvent::Persisted), Ok(LoopAction::Persist)));
    assert_eq!(*agent.state().phase(), AgentPhase::Planning);
    assert_eq!(agent.scratchpad().recent(1), vec!["Review requested another iteration".to_string()]);
}

#[test]
fn exhaustion_fails_the_run() {
    let mut agent = AgentLoop::new(config(1, 24000, false));
    assert!(matches!(agent.advance(LoopEvent::Start), Ok(LoopAction::Persist)));
    assert!(matches!(agent.advance(LoopEvent::Persisted), Ok(LoopAction::Persist)));
    assert_eq!(*agent.state().phase(), AgentPhase::Failed);
    assert_eq!(agent.state().last_error, Some("resource exhaustion".to_string()));
    assert!(matches!(agent.advance(LoopEvent::Persisted), Ok(LoopAction::Stop)));

    let mut broke = AgentLoop::new(config(3, 500, false));
    assert!(matches!(broke.advance(LoopEvent::Start), Ok(LoopAction::Persist)));
    assert_eq!(*broke.state().phase(), AgentPhase::Planning);
    assert_eq!(broke.state().step, 1);
    assert!(broke.scratchpad().all().is_empty());
}

#[test]
fn unexpected_events_change_nothing() {
    let mut agent = AgentLoop::new(config(4, 24000, false));
    assert_eq!(agent.advance(LoopEvent::Persisted).err(), Some(UnexpectedEvent));
    assert_eq!(agent.advance(LoopEvent::Summarized("x".to_string())).err(), Some(UnexpectedEvent));
    assert_eq!(*agent.state().phase(), AgentPhase::Idle);
    assert_eq!(agent.stage(), Stage::Ready);
}

#[test]
fn a_checkpoint_resumes_the_same_run() {
    let mut agent = AgentLoop::new(config(6, 9000, false));
    assert!(matches!(agent.advance(LoopEvent::Start), Ok(LoopAction::Persist)));
    let cp = agent.checkpoint();
    assert_eq!(cp.topic, "rust");
    assert_eq!(cp.profile, "cpu_fallback");
    assert_eq!(cp.state.step, 1);
    let resumed = AgentLoop::from_checkpoint(cp, "cp.json".to_string(), true);
    assert_eq!(*resumed.state().phase(), AgentPhase::Gathering);
    assert_eq!(resumed.state().budget_remaining, 8000);
    assert_eq!(resumed.config().max_steps, 6);
    assert_eq!(resumed.config().budget, 8000);
    assert!(resumed.config().allow_scrape);
    assert_eq!(resumed.scratchpad().all(), agent.scratchpad().all());
    assert_eq!(resumed.stage(), Stage::Ready);
}

#[test]
fn start_again_carries_on_where_the_run_stands() {
    let mut agent = AgentLoop::new(config(12, 24000, false));
    assert!(matches!(agent.advance(LoopEvent::Start), Ok(LoopAction::Persist)));
    assert!(matches!(agent.advance(LoopEvent::Persisted), Ok(LoopAction::Search { .. })));
    // The search failed; running again repeats the gathering step.
    assert!(matches!(agent.advance(LoopEvent::Start), Ok(LoopAction::Search { .. })));
    assert_eq!(agent.state().budget_remaining, 24000 - 1000 - 2000 - 2000);
    assert_eq!(agent.state().step, 1);

    let mut done = AgentLoop::new(config(12, 24000, false));
    assert!(matches!(done.advance(LoopEvent::Start), Ok(LoopAction::Persist)));
    assert!(matches!(done.advance(LoopEvent::Persisted), Ok(LoopAction::Search { .. })));
    assert!(matches!(done.advance(LoopEvent::Searched(vec![])), Ok(LoopAction::Persist)));
    assert!(matches!(done.advance(LoopEvent::Persisted), Ok(LoopAction::Summarize { .. })));
    let summary = "A summary that is long enough to pass the review gate.".to_string();
    assert!(matches!(done.advance(LoopEvent::Summarized(summary)), Ok(LoopAction::Persist)));
    assert!(matches!(done.advance(LoopEvent::Persisted), Ok(LoopAction::Stop)));
    // A finished run that is started again stops at once.
    assert!(matches!(done.advance(LoopEvent::Start), Ok(LoopAction::Stop)));
    assert_eq!(*done.state().phase(), AgentPhase::Done);
}

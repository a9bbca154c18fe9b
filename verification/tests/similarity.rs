use gladiator::loop_detector::{LoopDetector, LoopReason};
use gladiator::similarity::{keyword_similarity, similarity, Ratio};

fn value(r: Ratio) -> f64 {
    r.num as f64 / r.den as f64
}

#[test]
fn identical_strings_are_perfectly_similar() {
    assert!((value(similarity("hello world", "hello world")) - 1.0).abs() < 1e-9);
}

#[test]
fn disjoint_strings_are_dissimilar() {
    assert!(value(similarity("abc", "xyz")) < 0.1);
}

#[test]
fn near_duplicates_score_high() {
    let a = "Let me reconsider the architecture and think about whether we should do X";
    let b = "OK let me reconsider the architecture and think about whether to do X";
    assert!(value(similarity(a, b)) > 0.85);
}

#[test]
fn empty_inputs_handled() {
    assert_eq!(value(similarity("", "")), 1.0);
    assert_eq!(value(similarity("a", "")), 0.0);
    assert_eq!(value(similarity("", "a")), 0.0);
}

#[test]
fn keyword_similarity_catches_paraphrase() {
    let a = "Should idle detection live in LlmActor or AgentActor?";
    let b = "Whether to put idle detection in the LlmActor vs the AgentActor";
    assert!(value(keyword_similarity(a, b)) > 0.5);
}

/// Build a detector with small thresholds so tests don't need huge input.
fn small_detector() -> LoopDetector {
    let mut d = LoopDetector::new();
    d.cycle_window = 200;
    d.min_total_chars = 300;
    d.max_total_chars = 2000;
    d.cycle_streak_limit = 2;
    d.cycle_threshold = Ratio { num: 50, den: 100 };
    d
}

#[test]
fn detector_does_not_fire_under_min_floor() {
    let mut d = small_detector(); // floor = 300
    let para = "Let me reconsider whether to do this in LlmActor or AgentActor. ";
    // Feed ~250 chars — under the 300 floor.
    for _ in 0..4 {
        assert!(d.push(para).is_none(), "should not fire under floor");
    }
    assert!(d.fed_chars < 300);
    assert!(d.last_reason.is_none());
}

#[test]
fn detector_fires_on_repeated_cycles() {
    let mut d = small_detector(); // window=200, floor=300, streak_limit=2
    // A paragraph that the model "re-discusses" with minor rewording.
    let cycle_a = "So the question is whether idle detection belongs in the LlmActor \
                   or the AgentActor. LlmActor has stream access, AgentActor has state. ";
    let cycle_b = "Hmm, should idle detection be in LlmActor or AgentActor? LlmActor \
                   has the stream, AgentActor has the conversation state. ";
    // Feed past the floor with alternating reworded cycles.
    // Each ~140 chars; need enough to fill two windows + cross floor.
    let mut fired = None;
    for i in 0..30 {
        let chunk = if i % 2 == 0 { cycle_a } else { cycle_b };
        if let Some(r) = d.push(chunk) {
            fired = Some(r);
            break;
        }
    }
    assert_eq!(fired, Some(LoopReason::CycleDetected));
}

#[test]
fn detector_fires_hard_cap_on_novel_long_output() {
    let mut d = small_detector(); // max=2000
    // Feed genuinely novel content — no repeated boilerplate. Each chunk
    // has completely unique vocabulary so keyword Jaccard stays low.
    let mut fired = None;
    let mut idx = 0;
    while fired.is_none() {
        // Synthesize unique prose: vary sentence structure, vocabulary,
        // and topic with each iteration. No repeated framing.
        let chunk = match idx % 6 {
            0 => format!("Examining the B-tree splitting behavior when leaf nodes overflow during bulk insertion of {} random keys into the indexed table.\n", 100 + idx * 17),
            1 => format!("The certificate authority responded with a timeout after {} milliseconds, suggesting we need to increase the TLS handshake retry window.\n", 500 + idx * 23),
            2 => format!("Profile output shows {} percent of CPU time spent in the allocator, pointing toward jemalloc as a potential swap.\n", 30 + idx * 5),
            3 => format!("Refresh token rotation policy of {} days exceeds our compliance window; recommend shortening to fourteen.\n", 45 + idx),
            4 => format!("Benchmarking rwlock versus parking_lot::RwLock across {} reader threads showed unexpected contention on the write path.\n", 8 + idx),
            _ => format!("GC pause of {} microseconds observed during the old-gen sweep, triggering the SLA breach alert.\n", 4000 + idx * 100),
        };
        if let Some(r) = d.push(&chunk) {
            fired = Some(r);
            break;
        }
        idx += 1;
        if idx > 500 {
            break;
        }
    }
    assert_eq!(fired, Some(LoopReason::HardCapHit));
    assert!(d.fed_chars >= 2000);
}

#[test]
fn detector_does_not_fire_on_short_novel_output() {
    let mut d = small_detector();
    let lines = [
        "The quick brown fox jumps over the lazy dog today.",
        "Configuring the web server with TLS certificates now.",
        "Refactoring database queries to use prepared statements.",
        "Adding unit tests for the payment reconciliation module.",
        "Investigating race conditions in the cache invalidation path.",
    ];
    for line in &lines {
        let text = format!("{}\n", line);
        assert!(d.push(&text).is_none(), "should not fire on novel line");
    }
    assert!(d.last_reason.is_none());
}

use gladiator::calendar::format_utc_datetime;
use gladiator::config::LlmConfig;
use gladiator::five_whys::{
    analysis_config, build_five_whys_prompt, failed_analysis_text, write_surprises_md, IncidentReport, Surprise,
};

#[test]
fn surprise_new_sets_timestamp() {
    let s = Surprise::new("within_stream_loop", "stuck repeating");
    assert_eq!(s.kind, "within_stream_loop");
    assert!(!s.trigger.is_empty());
    assert!(s.timestamp_ms > 0);
}

#[test]
fn trace_truncation_at_8000_chars() {
    let long_text = "x".repeat(10000);
    let s = Surprise::new("idle_timeout", "went idle").with_trace(&long_text);
    assert!(s.trace_text.contains("[truncated]"));
}

#[test]
fn trace_keeps_its_first_characters() {
    let s = Surprise::at("k", "t", 5).with_trace(&"é".repeat(8001));
    assert!(s.trace_text.starts_with(&"é".repeat(8000)));
    assert_eq!(s.trace_text.chars().filter(|c| *c == 'é').count(), 8000);
    let short = Surprise::at("k", "t", 5).with_trace("fine");
    assert_eq!(short.trace_text, "fine");
}

#[test]
fn incident_report_slug_is_kebab() {
    let s = Surprise::new("within_stream_loop", "stuck on edit signature");
    let r = IncidentReport::from_surprise(&s, &[]);
    assert!(r.has_slug());
    let slug = r.slug();
    assert!(slug.contains("within-stream-loop"));
    assert!(!slug.is_empty());
}

#[test]
fn file_path_format() {
    let s = Surprise::new("cross_turn_loop", "identical triage text");
    let r = IncidentReport::from_surprise(&s, &[]);
    let path = r.file_path();
    assert!(path.starts_with("tmp/five-whys/"));
    assert!(path.ends_with(".md"));
}

#[test]
fn file_path_at_an_instant() {
    let s = Surprise::at("idle_timeout", "slow", 0);
    let r = IncidentReport::from_surprise(&s, &[]);
    let path = r.file_path_at(1735689600);
    assert_eq!(path, format!("tmp/five-whys/{}-20250101-000000.md", r.slug()));
    assert_eq!(s.file_timestamp(), "19700101-000000");
}

#[test]
fn build_prompt_contains_sections() {
    let s = Surprise::new("max_iterations", "hit 50 iterations").with_trace("reading files repeatedly");
    let r = IncidentReport::from_surprise(&s, &["bash ls".to_string()]);
    let prompt = build_five_whys_prompt(&r);
    assert!(prompt.contains("## Incident"));
    assert!(prompt.contains("Type: max_iterations"));
    assert!(prompt.contains("Trigger: hit 50 iterations"));
    assert!(prompt.contains("Recent tool calls"));
    assert!(prompt.contains("1. bash ls"));
}

#[test]
fn write_surprises_md_empty_returns_empty() {
    let out = write_surprises_md(&[]);
    assert!(out.is_empty());
}

#[test]
fn write_surprises_md_nonempty_has_headers() {
    let s = Surprise::new("within_stream_loop", "stuck").with_trace("repeating reasoning");
    let out = write_surprises_md(&[s]);
    assert!(out.contains("# Session Surprises"));
    assert!(out.contains("Kind**: within_stream_loop"));
}

#[test]
fn failed_analysis_names_the_incident() {
    let s = Surprise::at("idle_timeout", "went idle", 1);
    let r = IncidentReport::from_surprise(&s, &[]);
    assert_eq!(
        failed_analysis_text("no answer", &r),
        "# Analysis failed: no answer\n\n## IncidentReport\nkind: idle_timeout\ntrigger: went idle"
    );
}

#[test]
fn format_utc_datetime_epoch() {
    assert_eq!(format_utc_datetime(0), "19700101-000000");
}

#[test]
fn five_whys_format_utc_datetime_known_instant() {
    let result = format_utc_datetime(1735689600);
    assert_eq!(result, "20250101-000000");
}

#[test]
fn five_whys_format_utc_datetime_midday() {
    let result = format_utc_datetime(1709210096);
    assert_eq!(result, "20240229-123456");
}

#[test]
fn format_utc_datetime_end_of_a_century() {
    // 2100 is no leap year: the day after 28 February is 1 March.
    assert_eq!(format_utc_datetime(4107542399), "21000228-235959");
    assert_eq!(format_utc_datetime(4107542400), "21000301-000000");
}

#[test]
fn analysis_runs_cooler_and_longer() {
    let mut c = LlmConfig::default();
    c.model = "small".to_string();
    c.max_tokens = 10;
    let a = analysis_config(&c);
    assert_eq!(a.model, "small");
    assert_eq!(a.temperature, "0.3");
    assert_eq!(a.max_tokens, 4096);
    assert_eq!(a.base_url, c.base_url);
}

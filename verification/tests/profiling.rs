use profiling::{
    Collector, Format, Frame, ProfError, Profile, SampleKey, Snapshot, SpanRecorder,
    handle_request, parse_format, u64_to_string,
};

fn s(x: &str) -> String {
    x.to_string()
}

fn frame(symbol: &str, library: &str) -> Frame {
    Frame { symbol: s(symbol), library: s(library) }
}

fn stack(symbols: &[&str]) -> Vec<Frame> {
    symbols.iter().map(|sym| frame(sym, "app")).collect()
}

fn demo_collector() -> Collector {
    let mut c = Collector::new(1000, vec![s("libc"), s("libgcc"), s("pthread"), s("vdso")]);
    c.record(s("worker-1"), &stack(&["main", "work", "compute"]));
    c.record(s("worker-1"), &stack(&["main", "work", "compute"]));
    c.record(s("worker-2"), &stack(&["main", "idle"]));
    c
}

#[test]
fn folded_three_samples_two_lines() {
    let c = demo_collector();
    let text = c.snapshot().folded();
    let mut lines: Vec<&str> = text.lines().collect();
    lines.sort();
    assert_eq!(lines, vec!["worker-1;main;work;compute 2", "worker-2;main;idle 1"]);
}

#[test]
fn folded_count_conservation() {
    let c = demo_collector();
    let snap = c.snapshot();
    let total: u64 = snap.entries.iter().map(|e| e.count).sum();
    let text = snap.folded();
    let line_total: u64 = text
        .lines()
        .map(|l| l.rsplit(' ').next().unwrap().parse::<u64>().unwrap())
        .sum();
    assert_eq!(total, 3);
    assert_eq!(line_total, total);
}

#[test]
fn folded_is_deterministic() {
    let c = demo_collector();
    let snap = c.snapshot();
    let a = snap.folded();
    let b = snap.folded();
    assert_eq!(a.into_bytes(), b.into_bytes());
}

#[test]
fn fully_excluded_stack_is_dropped() {
    let mut c = Collector::new(1000, vec![s("libc"), s("vdso")]);
    let mut raw = vec![frame("__read", "libc"), frame("__vdso_clock_gettime", "vdso")];
    c.record(s("worker-1"), &raw);
    assert_eq!(c.snapshot().folded(), "");
    let p = Profile::build(&c.snapshot());
    assert_eq!(p.samples.len(), 0);
    raw.push(frame("main", "app"));
    c.record(s("worker-1"), &raw);
    assert_eq!(c.snapshot().folded(), "worker-1;main 1\n");
}

#[test]
fn excluded_frames_are_dropped_not_the_sample() {
    let mut c = Collector::new(997, vec![s("libc")]);
    let raw = vec![frame("main", "app"), frame("memcpy", "libc"), frame("work", "app")];
    c.record(s("t"), &raw);
    assert_eq!(c.snapshot().folded(), "t;main;work 1\n");
}

#[test]
fn start_twice_reports_already_running() {
    let mut c = Collector::new(1000, Vec::new());
    assert_eq!(c.start(), Ok(()));
    assert_eq!(c.start(), Err(ProfError::AlreadyRunning));
}

#[test]
fn snapshot_is_immutable_copy() {
    let mut c = Collector::new(1000, Vec::new());
    c.record(s("t"), &stack(&["main"]));
    let snap = c.snapshot();
    c.record(s("t"), &stack(&["main"]));
    assert_eq!(snap.folded(), "t;main 1\n");
    assert_eq!(c.snapshot().folded(), "t;main 2\n");
}

#[test]
fn parse_format_accepts_the_enumerated_values() {
    assert_eq!(parse_format(&s("flamegraph")), Ok(Format::Flamegraph));
    assert_eq!(parse_format(&s("proto")), Ok(Format::Proto));
    assert_eq!(parse_format(&s("folded")), Ok(Format::Folded));
    assert_eq!(parse_format(&s("tracing")), Ok(Format::TracingFlamegraph));
    assert_eq!(parse_format(&s("tracing-flamegraph")), Ok(Format::TracingFlamegraph));
    assert_eq!(parse_format(&s("xyz")), Err(ProfError::InvalidFormat));
    assert_eq!(parse_format(&s("")), Err(ProfError::InvalidFormat));
    assert_eq!(parse_format(&s("Folded")), Err(ProfError::InvalidFormat));
}

#[test]
fn unknown_format_yields_invalid_format_response() {
    let c = demo_collector();
    let r = handle_request(Some(&s("xyz")), &c.snapshot(), &SpanRecorder::new());
    assert_eq!(r.status, 404);
    assert_eq!(r.content_type, "text/plain");
    assert!(r.content_disposition.is_none());
    assert_eq!(r.body, b"404 Not Found".to_vec());
}

#[test]
fn missing_format_yields_missing_format_response() {
    let c = demo_collector();
    let r = handle_request(None, &c.snapshot(), &SpanRecorder::new());
    assert_eq!(r.status, 400);
    assert_eq!(r.content_type, "text/plain");
    assert!(r.content_disposition.is_none());
    assert_eq!(r.body, b"Failed to decode query param.".to_vec());
}

#[test]
fn folded_request_returns_report_attachment() {
    let c = demo_collector();
    let r = handle_request(Some(&s("folded")), &c.snapshot(), &SpanRecorder::new());
    assert_eq!(r.status, 200);
    assert_eq!(r.content_type, "text/plain");
    assert_eq!(r.content_disposition.as_deref(), Some("attachment; filename=profile.folded"));
    assert_eq!(r.body, c.snapshot().folded().into_bytes());
}

#[test]
fn flamegraph_request_returns_svg() {
    let c = demo_collector();
    let r = handle_request(Some(&s("flamegraph")), &c.snapshot(), &SpanRecorder::new());
    assert_eq!(r.status, 200);
    assert_eq!(r.content_type, "image/svg+xml");
    assert!(r.content_disposition.is_none());
    let body = String::from_utf8(r.body).unwrap();
    assert!(body.starts_with("<?xml"));
    assert!(body.contains("<svg"));
    assert!(body.contains("compute"));
}

#[test]
fn flamegraph_of_empty_snapshot_reports_encoding_failure() {
    let c = Collector::new(1000, Vec::new());
    let r = handle_request(Some(&s("flamegraph")), &c.snapshot(), &SpanRecorder::new());
    assert_eq!(r.status, 500);
    assert_eq!(r.content_type, "text/plain");
    assert_eq!(r.body, b"encoding failure".to_vec());
}

#[test]
fn snapshot_total_detects_counter_overflow() {
    let mut snap = Snapshot::new();
    snap.add_count(s("t"), vec![s("a")], 3);
    snap.add_count(s("u"), vec![s("b")], 4);
    assert_eq!(snap.total(), Some(7));
    snap.add_count(s("v"), vec![s("c")], u64::MAX);
    assert_eq!(snap.total(), None);
}

#[test]
fn flamegraph_of_overflowing_totals_reports_encoding_failure() {
    let mut snap = Snapshot::new();
    snap.add_count(s("t"), vec![s("a")], u64::MAX);
    snap.add_count(s("u"), vec![s("b")], 1);
    let r = handle_request(Some(&s("flamegraph")), &snap, &SpanRecorder::new());
    assert_eq!(r.status, 500);
    assert_eq!(r.body, b"encoding failure".to_vec());
}

#[test]
fn flamegraph_rendering_is_deterministic() {
    let c = demo_collector();
    let a = handle_request(Some(&s("flamegraph")), &c.snapshot(), &SpanRecorder::new());
    let b = handle_request(Some(&s("flamegraph")), &c.snapshot(), &SpanRecorder::new());
    assert_eq!(a.body, b.body);
}

#[test]
fn proto_request_returns_binary_profile_attachment() {
    let c = demo_collector();
    let r = handle_request(Some(&s("proto")), &c.snapshot(), &SpanRecorder::new());
    assert_eq!(r.status, 200);
    assert_eq!(r.content_type, "application/octet-stream");
    assert_eq!(r.content_disposition.as_deref(), Some("attachment; filename=profile.pb"));
    assert!(!r.body.is_empty());
    assert_eq!(r.body[0], 0x0a);
}

#[test]
fn profile_tables_resolve_and_deduplicate() {
    let c = demo_collector();
    let snap = c.snapshot();
    let p = Profile::build(&snap);
    assert_eq!(p.strings[0], "");
    assert_eq!(p.samples.len(), snap.entries.len());
    for (row, entry) in p.samples.iter().zip(snap.entries.iter()) {
        assert_eq!(row.count, entry.count);
        assert_eq!(p.strings[row.thread_idx], entry.key.thread);
        assert_eq!(row.loc_ids.len(), entry.key.frames.len());
        for (lid, sym) in row.loc_ids.iter().zip(entry.key.frames.iter()) {
            assert!(*lid >= 1 && *lid < p.locations.len());
            assert_eq!(&p.strings[p.locations[*lid].name_idx], sym);
        }
    }
    assert_eq!(p.strings[p.type_idx], "samples");
    assert_eq!(p.strings[p.unit_idx], "count");
    assert_eq!(p.strings[p.label_idx], "thread");
    // "main" is shared by both stacks: one location entry serves both.
    let main_locs = p
        .locations
        .iter()
        .skip(1)
        .filter(|l| p.strings[l.name_idx] == "main")
        .count();
    assert_eq!(main_locs, 1);
    // distinct symbols: main, work, compute, idle -> four real locations
    assert_eq!(p.locations.len(), 5);
    for i in 0..p.strings.len() {
        for j in 0..i {
            assert_ne!(p.strings[i], p.strings[j]);
        }
    }
}

#[test]
fn decimal_rendering_is_exact() {
    assert_eq!(u64_to_string(0), "0");
    assert_eq!(u64_to_string(7), "7");
    assert_eq!(u64_to_string(12345), "12345");
    assert_eq!(u64_to_string(u64::MAX), "18446744073709551615");
}

#[test]
fn varint_wire_encoding_is_exact() {
    let mut out: Vec<u8> = Vec::new();
    profiling::push_varint(&mut out, 0);
    profiling::push_varint(&mut out, 127);
    profiling::push_varint(&mut out, 128);
    profiling::push_varint(&mut out, 300);
    assert_eq!(out, vec![0x00, 0x7f, 0x80, 0x01, 0xac, 0x02]);
}

#[test]
fn span_recorder_accumulates_elapsed_weights() {
    let mut r = SpanRecorder::new();
    r.on_enter(s("t"), s("request"), 0);
    r.on_enter(s("t"), s("db"), 10);
    r.on_exit(&s("t"), 30);
    r.on_exit(&s("t"), 50);
    let text = r.flush();
    let mut lines: Vec<&str> = text.lines().collect();
    lines.sort();
    assert_eq!(lines, vec!["t;request 50", "t;request;db 20"]);
}

#[test]
fn span_recorder_merges_repeated_keys() {
    let mut r = SpanRecorder::new();
    r.on_enter(s("t"), s("a"), 0);
    r.on_exit(&s("t"), 5);
    r.on_enter(s("t"), s("a"), 10);
    r.on_exit(&s("t"), 25);
    assert_eq!(r.flush(), "t;a 20\n");
}

#[test]
fn span_exit_without_enter_changes_nothing() {
    let mut r = SpanRecorder::new();
    r.on_exit(&s("t"), 10);
    assert_eq!(r.flush(), "");
    r.on_enter(s("t"), s("a"), 0);
    r.on_exit(&s("t"), 4);
    r.on_exit(&s("t"), 9);
    assert_eq!(r.flush(), "t;a 4\n");
}

#[test]
fn span_recorder_keeps_threads_apart() {
    let mut r = SpanRecorder::new();
    r.on_enter(s("t1"), s("a"), 0);
    r.on_enter(s("t2"), s("a"), 0);
    r.on_exit(&s("t1"), 3);
    r.on_exit(&s("t2"), 8);
    let text = r.flush();
    let mut lines: Vec<&str> = text.lines().collect();
    lines.sort();
    assert_eq!(lines, vec!["t1;a 3", "t2;a 8"]);
}

#[test]
fn tracing_format_flushes_span_weights() {
    let c = Collector::new(1000, Vec::new());
    let mut rec = SpanRecorder::new();
    rec.on_enter(s("t"), s("a"), 0);
    rec.on_exit(&s("t"), 7);
    let r = handle_request(Some(&s("tracing-flamegraph")), &c.snapshot(), &rec);
    assert_eq!(r.status, 200);
    assert_eq!(r.content_type, "text/plain");
    assert_eq!(r.body, b"t;a 7\n".to_vec());
}

#[test]
fn snapshot_merges_externally_aggregated_rows() {
    let mut snap = Snapshot::new();
    snap.add_count(s("t"), vec![s("main"), s("work")], 4);
    snap.add_count(s("t"), vec![s("main"), s("work")], 2);
    snap.add_count(s("t"), vec![s("main")], 1);
    snap.add_count(s("t"), Vec::new(), 9);
    snap.add_count(s("t"), vec![s("zero")], 0);
    let mut lines: Vec<&str> = Vec::new();
    let text = snap.folded();
    lines.extend(text.lines());
    lines.sort();
    assert_eq!(lines, vec!["t;main 1", "t;main;work 6"]);
}

#[test]
fn error_messages_are_stable() {
    assert_eq!(ProfError::SamplerUnavailable.message(), "sampler unavailable");
    assert_eq!(ProfError::AlreadyRunning.message(), "profiler already running");
    assert_eq!(ProfError::MissingFormat.message(), "Failed to decode query param.");
    assert_eq!(ProfError::InvalidFormat.message(), "404 Not Found");
    assert_eq!(ProfError::EncodingFailure.message(), "encoding failure");
}

#[test]
fn sample_keys_compare_by_thread_and_stack() {
    let a = SampleKey { thread: s("t"), frames: vec![s("main")] };
    let b = SampleKey { thread: s("t"), frames: vec![s("main")] };
    let c = SampleKey { thread: s("u"), frames: vec![s("main")] };
    let d = SampleKey { thread: s("t"), frames: vec![s("main"), s("x")] };
    assert!(profiling::key_eq(&a, &b));
    assert!(!profiling::key_eq(&a, &c));
    assert!(!profiling::key_eq(&a, &d));
}

use gimme_a_chance::alloc_counter::{
    self, bucket_for, inner_allocator_name, CountingAllocator, BUCKET_LABELS,
};
use gimme_a_chance::backend::{
    AgentOutcome, ApiKeys, ApiOutcome, BrainModel, ContextWindows, VisionModel, VisionOutcome,
};
use gimme_a_chance::capture::{dump_captures, jpeg_base64, CaptureError, RgbaImage};
use gimme_a_chance::clipboard::{
    cap, clip_text, copy_selection_and_read, read_text, selection_text, ClipWatch, CopyStep,
    ReadStep, MAX_CLIP_CHARS,
};
use gimme_a_chance::cloud_stt::{encode_wav_16k_mono, encode_wav_mono, form_fields, read_reply};
use gimme_a_chance::commands::{self, DescribeStep, LogLevel, SttAvailable, SttPreference};
use gimme_a_chance::audio::{AecEnd, CaptureSource, SttEngine};
use gimme_a_chance::crashlog::{
    location_text, message_text, payload_text, Breadcrumb, BreadcrumbBuffer, LogField,
};
use gimme_a_chance::error::AppError;
use gimme_a_chance::lang::Language;
use gimme_a_chance::latency::{clamp_us, LatencyReporter};
use gimme_a_chance::metrics::{active_allocator_name, heap_log_due, AllocatorBuild, Metrics};
use gimme_a_chance::secrets::{load_key, KeySource};
use gimme_a_chance::sse::TokenUsage;
use gimme_a_chance::state::AppState;
use gimme_a_chance::stt::{find_model_root, find_onnx, model_missing, offline_model, part_missing, Candidate, ModelRoot};
use gimme_a_chance::transcriber;
use gimme_a_chance::tts::{check_openai, clip_name, provider_name, readers, slug, speech_error, Reader};
use gimme_a_chance::windows::{
    capture_hides, close_parks, destroyed_with, is_onscreen, is_required, on_hotkey, HotKey,
    ParkReason, Register, Reveal, Spot, Toggle, OFFSCREEN_XY,
};

const S: u64 = 1_000_000_000;
const AWAY: Option<(i32, i32)> = Some((OFFSCREEN_XY, OFFSCREEN_XY));

fn app() -> AppState {
    AppState::new(ApiKeys { groq: true, openai: true }, 0)
}

fn spot(label: &str, position: Option<(i32, i32)>) -> Spot {
    Spot { label: label.into(), position }
}

// ── Windows ────────────────────────────────────────────────────────────────

#[test]
fn parking_and_revealing_restores_the_spot() {
    let mut r = Register::new();
    assert!(r.park_offscreen("main", Some((10, 20)), ParkReason::ToggleHidden));
    assert!(!is_onscreen(AWAY));
    assert_eq!(r.reveal_onscreen("main", AWAY), Reveal::MoveTo(10, 20));
    assert_eq!(r.reveal_onscreen("main", Some((10, 20))), Reveal::Leave);
    // Out of sight without a line in the register.
    assert_eq!(r.reveal_onscreen("main", AWAY), Reveal::Center);
    assert!(is_onscreen(None));
    assert!(is_onscreen(Some((-16_000, 0))));
    assert!(!is_onscreen(Some((-20_000, 0))));
}

#[test]
fn captures_respect_the_user() {
    let mut r = Register::new();
    r.park_offscreen("main", Some((1, 2)), ParkReason::Transient);
    assert!(!r.park_offscreen("main", AWAY, ParkReason::ToggleHidden));
    assert_eq!(r.reveal_if_transient("main", AWAY), Reveal::Leave);
    assert_eq!(r.reveal_onscreen("main", AWAY), Reveal::MoveTo(1, 2));
    r.park_offscreen("main", Some((3, 4)), ParkReason::Transient);
    assert_eq!(r.reveal_if_transient("main", AWAY), Reveal::MoveTo(3, 4));
    assert_eq!(r.reveal_if_transient("main", AWAY), Reveal::Leave);
    // An orphan is adopted and goes to the middle.
    assert!(r.park_offscreen("answer", AWAY, ParkReason::Dismissed));
    assert_eq!(r.reveal_onscreen("answer", AWAY), Reveal::Center);
}

#[test]
fn toggle_hides_all_and_shows_what_it_hid() {
    let mut r = Register::new();
    r.created_hidden("answer");
    r.created_hidden("manager");
    let up = vec![
        spot("main", Some((5, 5))),
        spot("answer", Some((50, 50))),
        spot("manager", AWAY),
    ];
    match r.toggle(&up) {
        Toggle::Hide(labels) => assert_eq!(labels, vec!["main", "answer"]),
        Toggle::Show(_) => panic!("there is something to hide"),
    }
    for s in &up[..2] {
        r.park_offscreen(&s.label, s.position, ParkReason::ToggleHidden);
    }
    let down = vec![spot("main", AWAY), spot("answer", AWAY), spot("manager", AWAY)];
    match r.toggle(&down) {
        Toggle::Show(mut labels) => {
            labels.sort();
            assert_eq!(labels, vec!["answer", "main"]);
        }
        Toggle::Hide(_) => panic!("nothing is in sight"),
    }
    assert_eq!(r.reveal_onscreen("answer", AWAY), Reveal::MoveTo(50, 50));
    // With nothing hidden by the key, the main window is shown.
    match Register::new().toggle(&down) {
        Toggle::Show(labels) => assert_eq!(labels, vec!["main"]),
        Toggle::Hide(_) => panic!("nothing is in sight"),
    }
    // A window that a capture is about to bring back counts as in sight.
    r.park_offscreen("manager", Some((9, 9)), ParkReason::Transient);
    match r.toggle(&down) {
        Toggle::Hide(labels) => assert_eq!(labels, vec!["manager"]),
        Toggle::Show(_) => panic!("the capture's window is hidden"),
    }
    assert_eq!(capture_hides(&up), vec!["main", "answer"]);
}

#[test]
fn two_presses_put_every_window_back() {
    let mut r = Register::new();
    r.park_offscreen("manager", Some((9, 9)), ParkReason::Transient);
    let up = vec![
        spot("main", Some((5, 5))),
        spot("answer", Some((50, 50))),
        spot("manager", AWAY),
    ];
    match r.toggle(&up) {
        Toggle::Hide(labels) => assert_eq!(labels, vec!["main", "answer", "manager"]),
        Toggle::Show(_) => panic!("there is something to hide"),
    }
    for s in &up {
        r.park_offscreen(&s.label, s.position, ParkReason::ToggleHidden);
    }
    let down = vec![spot("main", AWAY), spot("answer", AWAY), spot("manager", AWAY)];
    let shown = match r.toggle(&down) {
        Toggle::Show(labels) => labels,
        Toggle::Hide(_) => panic!("nothing is in sight"),
    };
    let mut places = Vec::new();
    for label in &shown {
        places.push((label.as_str(), r.reveal_onscreen(label, AWAY)));
    }
    places.sort_by_key(|p| p.0.to_string());
    assert_eq!(
        places,
        vec![
            ("answer", Reveal::MoveTo(50, 50)),
            ("main", Reveal::MoveTo(5, 5)),
            ("manager", Reveal::MoveTo(9, 9)),
        ]
    );
}

#[test]
fn hotkeys_and_window_events() {
    let a = on_hotkey(HotKey::AskAgent, Some(AWAY));
    assert_eq!(a.event, Some("trigger-agent-query"));
    assert!(a.reveals_answer && !a.toggles && !a.quits);
    assert!(!on_hotkey(HotKey::AskAgent, Some(Some((0, 0)))).reveals_answer);
    assert!(!on_hotkey(HotKey::AskAgent, None).reveals_answer);
    assert!(on_hotkey(HotKey::ToggleWindows, None).toggles);
    let q = on_hotkey(HotKey::Quit, None);
    assert!(q.quits && q.event.is_none());
    assert_eq!(on_hotkey(HotKey::DescribeQueue, None).event, Some("trigger-describe-queue"));
    assert!(is_required(HotKey::Quit) && !is_required(HotKey::AskAgent));
    assert!(close_parks("answer") && close_parks("manager") && !close_parks("main"));
    let all = vec!["main".to_string(), "answer".to_string(), "manager".to_string()];
    assert_eq!(destroyed_with("main", &all), vec!["answer", "manager"]);
    assert!(destroyed_with("answer", &all).is_empty());
}

// ── Commands ───────────────────────────────────────────────────────────────

#[test]
fn listening_starts_once() {
    let mut s = app();
    assert!(commands::start_listening(&mut s).is_ok());
    match commands::start_listening(&mut s) {
        Err(e) => assert_eq!(e.message(), "Audio error: Already listening"),
        Ok(()) => panic!("it is listening already"),
    }
    commands::stop_listening(&mut s);
    assert!(commands::start_listening(&mut s).is_ok());
}

#[test]
fn engines_degrade_to_what_is_there() {
    let none = SttAvailable { groq: false, parakeet: false, streaming: false };
    let cloud = SttAvailable { groq: true, ..none };
    let all = SttAvailable { groq: true, parakeet: true, streaming: true };
    let mut s = app();
    assert_eq!(commands::stt_preference(&s, ""), SttPreference::Cloud);
    s.stt_local = true;
    assert_eq!(commands::stt_preference(&s, ""), SttPreference::Streaming);
    s.stt_partials = false;
    assert_eq!(commands::stt_preference(&s, ""), SttPreference::Parakeet);
    assert_eq!(commands::stt_preference(&s, "online"), SttPreference::Streaming);
    assert_eq!(commands::stt_preference(&s, "whisper"), SttPreference::Whisper);
    assert_eq!(commands::choose_engine(SttPreference::Streaming, all), SttEngine::Streaming);
    assert_eq!(commands::choose_engine(SttPreference::Streaming, cloud), SttEngine::Groq);
    assert_eq!(commands::choose_engine(SttPreference::Parakeet, none), SttEngine::LocalWhisper);
    assert_eq!(
        commands::choose_engine(SttPreference::Cloud, SttAvailable { groq: false, ..all }),
        SttEngine::Parakeet
    );
    assert_eq!(commands::choose_engine(SttPreference::Whisper, all), SttEngine::LocalWhisper);
    let w = commands::warm_up(SttPreference::Streaming);
    assert!(w.parakeet && w.streaming);
}

#[test]
fn both_sides_are_captured() {
    let s = app();
    let a = SttAvailable { groq: true, parakeet: false, streaming: false };
    let plans = commands::plan_listening(&s, Some("both"), Some("mic 1".into()), "", a);
    assert_eq!(plans.len(), 2);
    assert_eq!((plans[0].source, plans[0].speaker), (CaptureSource::Loopback, "interviewer"));
    assert_eq!((plans[1].source, plans[1].speaker), (CaptureSource::Microphone, "me"));
    assert_eq!(plans[0].aec, Some(AecEnd::Reference));
    assert_eq!(plans[1].aec, Some(AecEnd::Canceller));
    assert!(plans[0].dual && plans[0].device.is_none());
    let one = commands::plan_listening(&s, Some("loopback"), Some("hdmi".into()), "", a);
    assert_eq!(one.len(), 1);
    assert_eq!((one[0].speaker, one[0].device.as_deref()), ("interviewer", Some("hdmi")));
    assert!(!one[0].dual && one[0].aec.is_none());
    assert_eq!(one[0].engine, SttEngine::Groq);
}

#[test]
fn settings_reject_unknown_tags() {
    let mut s = app();
    assert!(matches!(commands::set_language(&mut s, "es"), Ok(Language::Spanish)));
    assert_eq!(commands::get_language(&s), "spanish");
    match commands::set_language(&mut s, "klingon") {
        Err(e) => assert_eq!(e.message(), "unknown language: klingon"),
        Ok(_) => panic!("no such language"),
    }
    assert!(commands::set_vision_model(&mut s, "gpt_5_5").is_ok());
    assert_eq!(commands::get_vision_model(&s), "gpt_5_5");
    match commands::set_vision_model(&mut s, "x") {
        Err(e) => assert_eq!(e.message(), "unknown vision model: x"),
        Ok(()) => panic!("no such model"),
    }
    assert!(commands::set_brain_model(&mut s, "gpt-4o-mini").is_ok());
    assert_eq!(commands::get_brain_model(&s), "gpt_4o_mini");
    match commands::set_brain_model(&mut s, "x") {
        Err(e) => assert_eq!(e.message(), "unknown brain model: x"),
        Ok(()) => panic!("no such model"),
    }
    assert_eq!(s.brain_model, BrainModel::Gpt4oMini);
}

#[test]
fn errors_name_their_source() {
    assert_eq!(AppError::Transcription("t".into()).message(), "Transcription error: t");
    assert_eq!(AppError::Llm("x".into()).message(), "LLM error: x");
    assert_eq!(AppError::Other("plain".into()).message(), "plain");
}

fn seen(text: &str, total_ms: u64) -> VisionOutcome {
    let usage = TokenUsage { prompt: 7, cached: 0, completion: 3 };
    VisionOutcome { text: text.into(), ttft_ms: 1, total_ms, usage }
}

#[test]
fn screenshots_queue_up_to_the_limit() {
    let mut s = app();
    for i in 0..10 {
        assert!(commands::check_queue(&s).is_ok());
        assert_eq!(commands::queue_capture(&mut s, format!("{i}")), i + 1);
    }
    match commands::check_queue(&s) {
        Err(e) => assert_eq!(
            e.message(),
            "Vision error: screenshot queue is full (10); describe or clear it"
        ),
        Ok(()) => panic!("the queue is full"),
    }
    commands::clear_capture_queue(&mut s);
    assert_eq!(commands::capture_queue_len(&s), 0);
}

#[test]
fn failed_description_gives_the_shots_back() {
    let mut s = app();
    commands::queue_capture(&mut s, "a".into());
    commands::queue_capture(&mut s, "b".into());
    let job = commands::begin_describe(&mut s);
    assert!(!job.needs_shot());
    assert_eq!(commands::capture_queue_len(&s), 0);
    match commands::describe_queue(&mut s, job, Err("down".into()), S) {
        DescribeStep::Failed(e) => assert_eq!(e.message(), "Vision error: down"),
        _ => panic!("it failed"),
    }
    assert_eq!(s.capture_queue, vec!["a", "b"]);
    // Newer shots take precedence.
    let job = commands::begin_describe(&mut s);
    commands::queue_capture(&mut s, "c".into());
    commands::describe_queue(&mut s, job, Err("down".into()), S);
    assert_eq!(s.capture_queue, vec!["c"]);
}

#[test]
fn refusals_are_put_to_the_stronger_model_once() {
    let mut s = app();
    let mut job = commands::begin_describe(&mut s);
    assert!(job.needs_shot());
    job.add_shot("now".into());
    assert_eq!(job.model_now(), VisionModel::Gpt4oMini);
    let job = match commands::describe_queue(&mut s, job, Ok(seen("I can't help", 5)), S) {
        DescribeStep::Again(job) => job,
        _ => panic!("a refusal is retried"),
    };
    assert_eq!(job.model_now(), VisionModel::Gpt55);
    assert!(job.request(s.keys).is_ok());
    match commands::describe_queue(&mut s, job, Err("down".into()), 2 * S) {
        DescribeStep::Done { text, line } => {
            assert_eq!(text, "I can't help");
            assert_eq!(line.unwrap().event.kind, "screen");
        }
        _ => panic!("the refusal is kept"),
    }
    assert_eq!(s.last_description, "I can't help");
    assert_eq!(s.metrics.last_vision_ms, 5);
    assert_eq!(s.metrics.total_prompt_tokens, 7);
    assert_eq!(s.metrics.transcript_lines, 1);
    let mut job = commands::begin_describe(&mut s);
    job.add_shot("now".into());
    match commands::describe_queue(&mut s, job, Ok(seen("fn main() {}", 8)), 3 * S) {
        DescribeStep::Done { text, .. } => assert_eq!(text, "fn main() {}"),
        _ => panic!("it was described"),
    }
}

#[test]
fn copies_are_taken_in_once() {
    let mut s = app();
    let (taken, line) = commands::clipboard_changed(&mut s, Some("snippet"), S);
    assert!(taken);
    assert_eq!(line.unwrap().event.kind, "clipboard");
    assert!(!commands::clipboard_changed(&mut s, Some("snippet"), S).0);
    commands::clear_clipboard(&mut s);
    assert!(commands::clipboard_changed(&mut s, Some("snippet"), S).0);
    commands::set_auto_clip(&mut s, false);
    assert!(!commands::clipboard_changed(&mut s, Some("other"), S).0);
    commands::set_auto_clip(&mut s, true);
    s.clip.begin_manual();
    assert!(!s.clip.wants_read());
    assert!(!commands::clipboard_changed(&mut s, Some("other"), S).0);
    match commands::copy_and_ingest(&mut s, Ok("other".into()), S) {
        Ok((text, line)) => {
            assert_eq!(text, "other");
            assert_eq!(line.unwrap().event.kind, "clipboard_stealth");
        }
        Err(_) => panic!("it was copied"),
    }
    assert!(!commands::clipboard_changed(&mut s, Some("other"), S).0);
    match commands::copy_and_ingest(&mut s, Ok(String::new()), S) {
        Err(e) => assert_eq!(
            e.message(),
            "Clipboard error: nothing selected (clipboard has no text)"
        ),
        Ok(_) => panic!("nothing was copied"),
    }
    match commands::copy_and_ingest(&mut s, Err("busy".into()), S) {
        Err(e) => assert_eq!(e.message(), "Clipboard error: busy"),
        Ok(_) => panic!("nothing was copied"),
    }
}

#[test]
fn clips_are_trimmed_and_capped() {
    assert_eq!(clip_text("  a b \n"), "a b");
    let long = "é".repeat(MAX_CLIP_CHARS + 1);
    let capped = cap(&long);
    assert!(capped.ends_with("é\n…[truncated]"));
    assert_eq!(capped.chars().count(), MAX_CLIP_CHARS + 13);
    assert_eq!(cap("short"), "short");
    let pieces = vec![" a".to_string(), "b ".to_string()];
    assert_eq!(selection_text(&pieces), Ok("ab".to_string()));
    assert_eq!(
        selection_text(&vec![" ".to_string()]),
        Err("empty selection via UIA".to_string())
    );
    assert!(matches!(read_text(0, Err("busy".into())), ReadStep::Again));
    match read_text(2, Err("busy".into())) {
        ReadStep::Failed(e) => assert_eq!(e, "clipboard read: busy"),
        _ => panic!("it is given up"),
    }
    match read_text(1, Ok(" x ".into())) {
        ReadStep::Done(clip) => assert_eq!(clip, "x"),
        _ => panic!("it was read"),
    }
    assert!(matches!(copy_selection_and_read(0, Err("e".into())), CopyStep::Again));
    assert!(matches!(copy_selection_and_read(1, Err("e".into())), CopyStep::SyntheticCopy));
    assert!(matches!(copy_selection_and_read(0, Ok("s".into())), CopyStep::Done(_)));
    assert!(ClipWatch::new().wants_read());
}

#[test]
fn answers_are_recorded() {
    let mut s = app();
    let q = commands::question_event(&s, "Why?", "t1", 5 * S);
    assert_eq!((q.kind, q.content.as_str(), q.t_s), ("question", "Why?", 5));
    let outcome = ApiOutcome {
        answer: "Because.".into(),
        ttft_ms: 10,
        total_ms: 20,
        provider: "groq/llama-3.1-8b-instant".into(),
        usage: TokenUsage { prompt: 30, cached: 20, completion: 10 },
    };
    let e = commands::ask_brain(&mut s, &outcome, "Why?", "t1", 6 * S);
    assert_eq!((e.kind, e.content.as_str(), e.t_s), ("answer", "Because.", 6));
    assert_eq!(
        gimme_a_chance::storage::meta_text(&e.meta.unwrap()),
        r#"{"provider":"groq/llama-3.1-8b-instant","question":"Why?","trace_id":"t1","trigger":"ask"}"#
    );
    assert_eq!((s.metrics.last_llm_ms, s.metrics.last_llm_ttft_ms), (20, 10));
    assert_eq!((s.metrics.total_prompt_tokens, s.metrics.total_completion_tokens), (30, 10));
    assert_eq!(s.metrics.last_provider, "groq/llama-3.1-8b-instant");
    assert_eq!(commands::trace_id_or_dash(None), "-");
}

#[test]
fn agent_needs_something_to_go_on() {
    let mut s = app();
    match commands::agent_press(&s) {
        Err(e) => assert_eq!(
            e.message(),
            "LLM error: nothing transcribed yet — the agent has no context to work from"
        ),
        Ok(_) => panic!("nothing was heard"),
    }
    commands::push_line(&mut s, "interviewer", "Design a cache.", 60 * S);
    let press = match commands::agent_press(&s) {
        Ok(p) => p,
        Err(_) => panic!("something was heard"),
    };
    assert_eq!(press.transcript, "[01:00] Interviewer: Design a cache.");
    assert_eq!(press.transcript_lines, 1);
    let outcome = AgentOutcome {
        answer: "**LRU.**".into(),
        ttft_ms: 1,
        total_ms: 2,
        model: "gpt-5.5".into(),
        usage: TokenUsage { prompt: 900, cached: 800, completion: 40 },
        request_id: None,
    };
    let e = commands::ask_agent(&mut s, &outcome, press.line_tokens, "t2", 61 * S);
    assert_eq!(
        gimme_a_chance::storage::meta_text(&e.meta.unwrap()),
        r#"{"cached_tokens":800,"completion_tokens":40,"model":"gpt-5.5","prompt_tokens":900,"trace_id":"t2","trigger":"agent"}"#
    );
    assert_eq!(s.metrics.last_provider, "agent/gpt-5.5");
    assert_eq!(s.metrics.total_prompt_tokens, 900);
    let windows = ContextWindows { gpt4o_mini: 128_000, gpt55: 1_000_000 };
    let (ticks, log) = commands::panel_tick(&mut s, 4, None, windows);
    assert_eq!((ticks, log), (4, false));
    assert_eq!(s.metrics.context_used_tokens, 900);
    assert_eq!(s.metrics.context_pending_tokens, 0);
    assert_eq!(s.metrics.context_window_tokens, 1_000_000);
    assert!(commands::set_brain_model(&mut s, "gpt-4o-mini").is_ok());
    commands::panel_tick(&mut s, 4, None, windows);
    assert_eq!(s.metrics.context_window_tokens, 128_000);
    assert!(commands::set_brain_model(&mut s, "auto").is_ok());
    s.keys.openai = false;
    match commands::agent_press(&s) {
        Err(e) => assert_eq!(
            e.message(),
            "LLM error: agent mode needs OPENAI_API_KEY (not set)"
        ),
        Ok(_) => panic!("there is no key"),
    }
    assert_eq!(
        commands::dump_agent_prompt("T", "S"),
        "# transcript\n\nT\n\n# interview state\n\nS\n"
    );
    assert_eq!(commands::append_agent_answer("A"), "\n# answer\n\nA\n");
}

#[test]
fn refreshed_state_is_kept_and_paid_for() {
    let mut s = app();
    commands::push_line(&mut s, "me", "hello", S);
    let delta = s.agent.begin_refresh().unwrap();
    let update = commands::StateUpdate {
        document: "## Active Question".into(),
        usage: TokenUsage { prompt: 40, cached: 4, completion: 9 },
    };
    commands::refresh_ended(&mut s, Some(update), delta.upto, 1_700_000_000);
    assert_eq!(s.agent.state_block(), "## Active Question");
    assert_eq!(s.metrics.state_epoch_s, 1_700_000_000);
    assert_eq!(s.metrics.total_prompt_tokens, 40);
    commands::push_line(&mut s, "me", "again", S);
    let delta = s.agent.begin_refresh().unwrap();
    commands::refresh_ended(&mut s, None, delta.upto, 1_700_000_100);
    assert_eq!(s.metrics.state_epoch_s, 1_700_000_000);
    assert_eq!(s.agent.begin_refresh().unwrap().lines, "You: again");
}

#[test]
fn frontend_lines_get_defaults() {
    let l = commands::log_from_frontend(commands::FrontendLogEntry {
        level: "warn".into(),
        event: "slow".into(),
        trace_id: None,
        elapsed_ms: None,
        data: None,
    });
    assert_eq!(l.level, LogLevel::Warn);
    assert_eq!((l.trace_id.as_str(), l.elapsed_ms, l.data.as_str()), ("-", 0, "{}"));
    let l = commands::log_from_frontend(commands::FrontendLogEntry {
        level: "verbose".into(),
        event: "e".into(),
        trace_id: Some("t".into()),
        elapsed_ms: Some(3),
        data: Some("[1]".into()),
    });
    assert_eq!(l.level, LogLevel::Info);
    assert_eq!((l.trace_id.as_str(), l.elapsed_ms, l.data.as_str()), ("t", 3, "[1]"));
}

// ── Pictures and sound ─────────────────────────────────────────────────────

fn plain(width: u32, height: u32) -> RgbaImage {
    RgbaImage { width, height, pixels: vec![200; (width * height * 4) as usize] }
}

#[test]
fn screenshots_only_shrink() {
    for (w, h, want) in [(64, 48, (64, 48)), (3000, 1500, (1500, 750)), (100, 2000, (75, 1500))] {
        let text = jpeg_base64(plain(w, h)).unwrap();
        let files = dump_captures("t", &vec![text]);
        let img = image::load_from_memory(&files[0].bytes).unwrap();
        assert_eq!((img.width(), img.height()), want);
    }
    let short = RgbaImage { width: 2, height: 2, pixels: vec![0; 15] };
    let e = jpeg_base64(short).unwrap_err();
    assert_eq!(e, CaptureError::SizeMismatch { width: 2, height: 2 });
    assert_eq!(e.message(), "captured buffer size mismatch (2x2)");
    let empty = RgbaImage { width: 0, height: 0, pixels: Vec::new() };
    assert_eq!(jpeg_base64(empty).unwrap_err().message(), "jpeg encode");
}

#[test]
fn dumped_captures_are_named_by_place() {
    let imgs = vec!["aGk=".to_string(), "%%%".to_string(), "eW8=".to_string()];
    let files = dump_captures("trace", &imgs);
    assert_eq!(files.len(), 2);
    assert_eq!((files[0].name.as_str(), files[0].bytes.as_slice()), ("trace-0.jpg", &b"hi"[..]));
    assert_eq!((files[1].name.as_str(), files[1].bytes.as_slice()), ("trace-2.jpg", &b"yo"[..]));
}

#[test]
fn wav_files_are_exact() {
    let wav = encode_wav_16k_mono(&[1, -2]);
    let want: Vec<u8> = [
        &b"RIFF"[..],
        &40u32.to_le_bytes(),
        b"WAVEfmt ",
        &16u32.to_le_bytes(),
        &1u16.to_le_bytes(),
        &1u16.to_le_bytes(),
        &16_000u32.to_le_bytes(),
        &32_000u32.to_le_bytes(),
        &2u16.to_le_bytes(),
        &16u16.to_le_bytes(),
        b"data",
        &4u32.to_le_bytes(),
        &1i16.to_le_bytes(),
        &(-2i16).to_le_bytes(),
    ]
    .concat();
    assert_eq!(wav, want);
    let back = hound::WavReader::new(std::io::Cursor::new(encode_wav_mono(&[7, -7, 0], 24_000)))
        .unwrap();
    assert_eq!(back.spec().sample_rate, 24_000);
    let samples: Vec<i16> = back.into_samples().map(|s| s.unwrap()).collect();
    assert_eq!(samples, vec![7, -7, 0]);
    assert_eq!(encode_wav_mono(&[], 8_000).len(), 44);
}

#[test]
fn cloud_replies_are_read() {
    let fields = form_fields(Language::Spanish);
    assert_eq!((fields[1].name, fields[1].value), ("language", "es"));
    assert_eq!((fields[0].value, fields[2].value), ("whisper-large-v3-turbo", "text"));
    assert_eq!(read_reply(true, "200 OK", " hola \n"), Ok("hola".to_string()));
    assert_eq!(
        read_reply(false, "401 Unauthorized", &"x".repeat(300)),
        Err(format!("Groq STT HTTP 401 Unauthorized: {}", "x".repeat(160)))
    );
}

#[test]
fn slugs_are_safe_file_names() {
    assert_eq!(slug("Tell me about YOURSELF, please! One two three"), "tell-me-about-yourself-please-one");
    assert_eq!(slug("¿¡!?"), "clip");
    assert_eq!(slug("a".repeat(60).as_str()), "a".repeat(48));
    assert_eq!(slug("ñandú 2"), "and-2");
    assert_eq!(clip_name("20260708-140300", "Hi there"), "20260708-140300-hi-there.wav");
    assert_eq!(readers(Language::English, true), vec![Reader::Kokoro, Reader::OpenAi]);
    assert_eq!(readers(Language::Spanish, true), vec![Reader::OpenAi]);
    assert_eq!(readers(Language::English, false), vec![Reader::OpenAi]);
    assert_eq!(provider_name(Reader::OpenAi), "openai/gpt-4o-mini-tts");
    assert_eq!(check_openai(true), Ok(()));
    assert_eq!(
        check_openai(false),
        Err("no Kokoro and no OPENAI_API_KEY — cannot synthesize speech".to_string())
    );
    assert_eq!(speech_error("500", "oops"), "OpenAI TTS HTTP 500: oops");
}

#[test]
fn models_are_found() {
    let dir = |is_dir, has_marker| Candidate { is_dir, has_marker };
    assert_eq!(find_model_root(true, &Vec::new()), Some(ModelRoot::Here));
    assert_eq!(
        find_model_root(false, &vec![dir(false, true), dir(true, true), dir(true, true)]),
        Some(ModelRoot::Inside(1))
    );
    assert_eq!(find_model_root(false, &vec![dir(true, false)]), None);
    let names: Vec<String> = ["encoder.onnx", "decoder.int8.onnx", "encoder.int8.ONNX", ".onnx"]
        .iter()
        .map(|s| s.to_string())
        .collect();
    assert_eq!(find_onnx(&names, "encoder"), Some(2));
    assert_eq!(find_onnx(&names, "decoder"), Some(1));
    assert_eq!(find_onnx(&names, "joiner"), None);
    assert_eq!(find_onnx(&vec![".onnx".to_string()], ""), None);
    let plain: Vec<String> = ["e1.onnx", "e2.onnx", "e.txt"].iter().map(|s| s.to_string()).collect();
    assert_eq!(find_onnx(&plain, "e"), Some(1));
    assert_eq!(part_missing("joiner", "/m"), "no joiner*.onnx found in /m");
    assert_eq!(
        model_missing("Parakeet", Language::Spanish, "/m"),
        "Parakeet (spanish) model not found under /m — run scripts/fetch-models.ps1"
    );
    assert!(offline_model(Language::English).joiner);
    assert!(offline_model(Language::Spanish).pinned);
    assert_eq!(transcriber::model_filename(Language::Spanish), "ggml-base.bin");
    assert_eq!(
        transcriber::model_url(Language::Spanish),
        "https://huggingface.co/ggerganov/whisper.cpp/resolve/main/ggml-base.bin"
    );
    assert!(transcriber::initial_prompt(Language::English).starts_with("A technical software"));
    assert_eq!(
        transcriber::model_missing(Language::English, "/m/x"),
        "Whisper (en) model not found at /m/x. Download it with:\ncurl -L -o /m/x \
         https://huggingface.co/ggerganov/whisper.cpp/resolve/main/ggml-base.en.bin"
    );
}

#[test]
fn languages_have_tags_and_places() {
    assert_eq!(Language::from_tag("en"), Some(Language::English));
    assert_eq!(Language::from_tag("spanish"), Some(Language::Spanish));
    assert_eq!(Language::from_tag("fr"), None);
    assert_eq!(Language::Spanish.whisper_code(), "es");
    assert_eq!(Language::English.sherpa_subdir("parakeet"), vec!["parakeet"]);
    assert_eq!(Language::Spanish.sherpa_subdir("parakeet"), vec!["es", "parakeet"]);
    assert_eq!(Language::default(), Language::English);
}

// ── Numbers ────────────────────────────────────────────────────────────────

#[test]
fn heap_counters_balance() {
    let mut h = CountingAllocator::new();
    h.count_alloc(100);
    h.count_alloc(2_000_000);
    assert_eq!(alloc_counter::live_bytes(&h), 2_000_100);
    h.count_dealloc(2_000_000);
    assert_eq!(alloc_counter::live_bytes(&h), 100);
    assert_eq!(alloc_counter::peak_live_bytes(&h), 2_000_100);
    assert_eq!(alloc_counter::total_allocated(&h), 2_000_100);
    assert_eq!(alloc_counter::total_deallocated(&h), 2_000_000);
    assert_eq!(alloc_counter::live_counts_by_bucket(&h)[3], 1);
    assert_eq!(alloc_counter::live_counts_by_bucket(&h)[15], 0);
    assert_eq!(alloc_counter::total_allocs_by_bucket(&h)[15], 1);
    for (size, bucket) in [(0, 0), (16, 0), (17, 1), (1_024, 6), (1_048_576, 14), (1_048_577, 15)] {
        assert_eq!(bucket_for(size), bucket);
    }
    assert_eq!(BUCKET_LABELS[15], ">1MB");
    assert_eq!(inner_allocator_name(false, false), "system (libc malloc)");
    let mut s = app();
    let windows = ContextWindows { gpt4o_mini: 1, gpt55: 9 };
    assert_eq!(commands::panel_tick(&mut s, 4, Some(&h), windows), (5, true));
    assert_eq!(s.metrics.context_window_tokens, 9);
    assert_eq!(s.metrics.heap_live_bytes, 100);
    assert_eq!(s.metrics.heap_buckets_total[15], 1);
    assert!(heap_log_due(10) && !heap_log_due(11));
}

#[test]
fn snapshots_carry_the_numbers() {
    let mut m = Metrics::default();
    m.add_spend(TokenUsage { prompt: 5, cached: 3, completion: 2 });
    m.add_spend(TokenUsage { prompt: u64::MAX, cached: 0, completion: 0 });
    m.line_added(77);
    let release = AllocatorBuild {
        dhat: false,
        counting: false,
        mimalloc: false,
        debug: false,
        windows: true,
    };
    let s = m.snapshot(release);
    assert_eq!((s.total_prompt_tokens, s.total_cached_tokens), (4, 3));
    assert_eq!((s.transcript_chars, s.transcript_lines), (77, 1));
    assert_eq!(s.allocator_name, "system (HeapAlloc)");
    assert!(!s.counting_alloc_enabled);
    let name = |b: AllocatorBuild| active_allocator_name(b);
    assert_eq!(name(AllocatorBuild { debug: true, ..release }), "assert_no_alloc (debug)");
    assert_eq!(name(AllocatorBuild { mimalloc: true, ..release }), "mimalloc");
    assert_eq!(name(AllocatorBuild { dhat: true, ..release }), "dhat");
    assert_eq!(name(AllocatorBuild { counting: true, ..release }), "system (HeapAlloc)");
}

#[test]
fn latency_is_reported_in_time() {
    let mut r = LatencyReporter::new(0);
    let mut m = Metrics::default();
    assert!(!r.publish(&mut m));
    assert_eq!(m.callback_samples, 0);
    r.collect(&[0, 100, 100, 200, u64::MAX]);
    assert_eq!(r.collected_count(), 5);
    assert!(r.publish(&mut m));
    assert_eq!(m.callback_samples, 5);
    assert_eq!(m.callback_p50_us, 100);
    assert!(m.callback_p999_us >= 59_900_000);
    assert_eq!(clamp_us(0), 1);
    assert_eq!(clamp_us(61_000_000), 60_000_000);
    let early = r.tick(S);
    assert!(!early.publish && !early.log);
    let first = r.tick(2 * S);
    assert!(first.publish && !first.log);
    for t in [4, 6, 8] {
        assert!(!r.tick(t * S).log);
    }
    let tenth = r.tick(10 * S);
    assert!(tenth.publish && tenth.log);
    assert!(!r.tick(12 * S).log);
}

#[test]
fn last_events_are_remembered() {
    let mut b = BreadcrumbBuffer::new();
    let crumb = |i: i64, target: &str| Breadcrumb {
        at_s: i,
        at_ns: 0,
        level: "INFO".into(),
        target: target.into(),
        message: format!("m{i}"),
    };
    b.on_event(crumb(0, "panic.breadcrumb"));
    assert_eq!(b.len(), 0);
    for i in 0..60 {
        b.on_event(crumb(i, "app"));
    }
    assert_eq!(b.len(), 50);
    let lines = b.lines();
    assert_eq!(lines[0].message, "m10");
    assert_eq!(lines[49].message, "m59");
    assert_eq!(lines[0].at, "1970-01-01T00:00:10+00:00");
    assert_eq!((lines[0].level.as_str(), lines[0].origin.as_str()), ("INFO", "app"));
    let mut far = BreadcrumbBuffer::new();
    far.on_event(crumb(i64::MAX, "app"));
    assert_eq!(far.lines()[0].at, "-");
    let field = |name: &str, value: &str| LogField { name: name.into(), value: value.into() };
    let fields = vec![field("n", "1"), field("message", "first"), field("message", "second")];
    assert_eq!(message_text(&fields), "first");
    assert_eq!(location_text(Some(("src/a.rs", 7))), "src/a.rs:7");
    assert_eq!(location_text(None), "unknown");
    assert_eq!(payload_text(None), "<non-string panic payload>");
    assert_eq!(payload_text(Some("boom")), "boom");
}

#[test]
fn stored_keys_come_first() {
    let some = |s: &str| Some(s.to_string());
    assert_eq!(load_key(some("k"), some("e")), (KeySource::Keyring, some("k")));
    assert_eq!(load_key(some(""), some("e")), (KeySource::Environment, some("e")));
    assert_eq!(load_key(None, some("")), (KeySource::Missing, None));
}

#[test]
fn peak_is_the_most_ever_live() {
    let mut h = CountingAllocator::new();
    let mut live = 0u64;
    let mut most = 0u64;
    for (allocates, size) in
        [(true, 100), (true, 50), (false, 100), (true, 90), (false, 50), (true, 20), (false, 90)]
    {
        if allocates {
            h.count_alloc(size);
            live += size as u64;
        } else {
            h.count_dealloc(size);
            live -= size as u64;
        }
        most = most.max(live);
        assert_eq!(alloc_counter::live_bytes(&h), live);
        assert_eq!(alloc_counter::peak_live_bytes(&h), most);
    }
    assert_eq!(most, 150);
}

#[test]
fn models_stand_in_for_the_cloud() {
    let load = |p, groq| {
        let w = commands::models_to_load(p, groq);
        (w.parakeet, w.streaming)
    };
    assert_eq!(load(SttPreference::Cloud, true), (false, false));
    assert_eq!(load(SttPreference::Parakeet, true), (true, false));
    assert_eq!(load(SttPreference::Streaming, true), (true, true));
    assert_eq!(load(SttPreference::Whisper, false), (true, true));
}

#[test]
fn screenshots_are_written_in_base64() {
    for w in 1..5 {
        let text = jpeg_base64(plain(w, 3)).unwrap();
        let bytes = dump_captures("t", &vec![text.clone()]).remove(0).bytes;
        let sextets = b"ABCDEFGHIJKLMNOPQRSTUVWXYZabcdefghijklmnopqrstuvwxyz0123456789+/";
        let mut want = String::new();
        for group in bytes.chunks(3) {
            let at = |i: usize| group.get(i).copied().unwrap_or(0) as usize;
            want.push(sextets[at(0) / 4] as char);
            want.push(sextets[at(0) % 4 * 16 + at(1) / 16] as char);
            want.push(if group.len() > 1 { sextets[at(1) % 16 * 4 + at(2) / 64] as char } else { '=' });
            want.push(if group.len() > 2 { sextets[at(2) % 64] as char } else { '=' });
        }
        assert_eq!(text, want);
    }
}

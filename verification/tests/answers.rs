use gimme_a_chance::backend::{
    self, agent_request, answer_request, describe_request, is_refusal, looks_like_refusal,
    reply_usage, state_reply, state_request, ApiKeys, BrainModel, Cascade, Content, OutputLimit, Part, Role,
    StateReplyError, VisionModel,
};
use gimme_a_chance::claude::{self, SessionManager, Turn, TurnEnd, TurnStep};
use gimme_a_chance::json::{json_count, json_text};
use gimme_a_chance::lang::Language;
use gimme_a_chance::sse::{elapsed_ms, http_error, SseReader, StreamEnd, TokenUsage};
use gimme_a_chance::wire::{chat_json, speech_json};

const BOTH: ApiKeys = ApiKeys { groq: true, openai: true };

fn text_of(content: &Content) -> &str {
    match content {
        Content::Text(s) => s,
        Content::Parts(_) => panic!("plain text is due"),
    }
}

#[test]
fn json_lookups() {
    let doc = r#"{"a":[{"b":"x"},7],"n":-1,"s":"é"}"#;
    assert_eq!(json_text(doc, "/a/0/b"), Some("x".to_string()));
    assert_eq!(json_text(doc, "/s"), Some("é".to_string()));
    assert_eq!(json_text(doc, "/a/1"), None);
    assert_eq!(json_count(doc, "/a/1"), 7);
    assert_eq!(json_count(doc, "/n"), 0);
    assert_eq!(json_text("not json", ""), None);
}

#[test]
fn stream_is_read_across_chunks() {
    let mut r = SseReader::new();
    assert_eq!(r.patience_s(4), 4);
    let read = r.feed(b": keep-alive\n\ndata: {\"choices\":[{\"delta\":{\"content\":\"Hel", 50);
    assert!(read.deltas.is_empty() && !read.done);
    let read = r.feed(
        b"lo\"}}]}\n\ndata: {\"choices\":[{\"delta\":{\"content\":\"\"}}]}\n\
          data: {\"choices\":[{\"delta\":{\"content\":\" you \"}}],\"usage\":null}\n",
        70,
    );
    assert_eq!(read.deltas, vec!["Hello", " you "]);
    assert_eq!(r.patience_s(4), 10);
    let read = r.feed(
        b"data: {\"choices\":[],\"usage\":{\"prompt_tokens\":9,\"completion_tokens\":3,\
          \"prompt_tokens_details\":{\"cached_tokens\":4}}}\r\n\r\ndata: [DONE]\r\nrest",
        90,
    );
    assert!(read.done && read.deltas.is_empty());
    let outcome = match r.finish(95) {
        Ok(o) => o,
        Err(_) => panic!("the answer is whole"),
    };
    assert_eq!(outcome.text, "Hello you");
    assert_eq!(outcome.ttft_ms, 70);
    assert_eq!(outcome.total_ms, 95);
    assert_eq!(outcome.usage, TokenUsage { prompt: 9, cached: 4, completion: 3 });
}

#[test]
fn chunk_borders_do_not_matter() {
    let stream: &[u8] = b"data: {\"choices\":[{\"delta\":{\"content\":\"ab\"}}]}\n\ndata: x\n\
        data: {\"choices\":[{\"delta\":{\"content\":\"cd\"}}]}\ndata: [DONE]\n";
    let mut whole = SseReader::new();
    let all = whole.feed(stream, 5);
    for cut in 0..stream.len() {
        let mut parts = SseReader::new();
        let mut deltas = parts.feed(&stream[..cut], 5).deltas;
        let last = parts.feed(&stream[cut..], 5);
        deltas.extend(last.deltas);
        assert_eq!(deltas, all.deltas);
        assert_eq!(last.done, all.done);
    }
}

#[test]
fn lossy_bytes_become_replacement_characters() {
    let mut r = SseReader::new();
    let read = r.feed(b"data: {\"choices\":[{\"delta\":{\"content\":\"\xff!\"}}]}\n", 1);
    assert_eq!(read.deltas, vec!["\u{fffd}!"]);
}

#[test]
fn streams_that_end_early() {
    let ended = |end| match SseReader::new().ended(end, 4, 9) {
        Ok(_) => panic!("nothing was streamed"),
        Err(e) => e,
    };
    assert_eq!(ended(StreamEnd::Closed), "stream produced no content");
    assert_eq!(
        ended(StreamEnd::Failed("reset".into())),
        "stream error before first token: reset"
    );
    assert_eq!(ended(StreamEnd::TimedOut), "no first token within 4s");
    let mut r = SseReader::new();
    r.feed(b"data: {\"choices\":[{\"delta\":{\"content\":\"part \"}}]}\n", 3);
    let kept = match r.ended(StreamEnd::TimedOut, 4, 20) {
        Ok(o) => o,
        Err(_) => panic!("the answer so far is kept"),
    };
    assert_eq!(kept.text, "part");
    assert_eq!((kept.ttft_ms, kept.total_ms), (3, 20));
}

#[test]
fn end_mark_without_an_answer_is_an_error() {
    let mut r = SseReader::new();
    let read = r.feed(b"data: [DONE]\n", 3);
    assert!(read.done && read.deltas.is_empty());
    match r.finish(5) {
        Ok(_) => panic!("nothing was streamed"),
        Err(e) => assert_eq!(e, "stream produced no content"),
    }
}

#[test]
fn refused_requests_show_a_snippet() {
    let body = "é".repeat(500);
    let e = http_error("429 Too Many Requests", &body, 200);
    assert_eq!(e, format!("HTTP 429 Too Many Requests: {}", "é".repeat(200)));
    assert_eq!(elapsed_ms(u128::MAX), u64::MAX);
    assert_eq!(elapsed_ms(1234), 1234);
}

#[test]
fn chain_skips_providers_without_keys() {
    let mut c = Cascade::new(BrainModel::Auto, BOTH);
    assert_eq!(c.current().unwrap().name, "groq/llama-3.1-8b-instant");
    c.failed("one".into());
    assert_eq!(c.current().unwrap().name, "groq/llama-3.3-70b-versatile");
    c.failed("two".into());
    assert_eq!(c.current().unwrap().name, "openai/gpt-4o-mini");
    c.failed("three".into());
    assert!(c.current().is_none());
    assert_eq!(c.give_up(), "three");
    let c = Cascade::new(BrainModel::Auto, ApiKeys { groq: false, openai: true });
    assert_eq!(c.current().unwrap().model, "gpt-4o-mini");
    let c = Cascade::new(BrainModel::Gpt55, ApiKeys { groq: true, openai: false });
    assert!(c.current().is_none());
    assert_eq!(c.give_up(), "no providers available (no API keys?)");
}

#[test]
fn model_tags_round_trip() {
    for m in [VisionModel::Gpt4oMini, VisionModel::Gpt55] {
        assert_eq!(VisionModel::from_tag(m.tag()), Some(m));
        assert_eq!(VisionModel::from_tag(m.model_id()), Some(m));
    }
    for m in [BrainModel::Auto, BrainModel::Gpt4oMini, BrainModel::Gpt55] {
        assert_eq!(BrainModel::from_tag(m.tag()), Some(m));
    }
    assert_eq!(VisionModel::from_tag("auto"), None);
    assert_eq!(BrainModel::from_tag("gpt-5.5"), Some(BrainModel::Gpt55));
    assert_eq!(BrainModel::Auto.agent_model_id(), "gpt-5.5");
    assert_eq!(BrainModel::Gpt4oMini.agent_model_id(), "gpt-4o-mini");
    assert_eq!(VisionModel::default(), VisionModel::Gpt4oMini);
    assert_eq!(BrainModel::default(), BrainModel::Auto);
}

#[test]
fn question_goes_out_with_its_context() {
    let p = Cascade::new(BrainModel::Auto, BOTH).current().unwrap();
    let bare = answer_request(&p, "What is a mutex?", "", Language::English);
    assert_eq!(text_of(&bare.messages[1].content), "What is a mutex?");
    assert_eq!(bare.model, "llama-3.1-8b-instant");
    assert!(bare.stream && bare.include_usage && !bare.low_effort);
    assert_eq!(
        bare.limit,
        OutputLimit::Classic { max_tokens: 500, temperature_tenths: 4 }
    );
    let full = backend::build_user("Q?", "ctx", Language::English);
    assert_eq!(
        full,
        "Interview context (recent transcription):\n---\nctx\n---\n\n\
         The interviewer just asked: \"Q?\"\n\nGive a concise, direct answer I can say out loud."
    );
    let es = backend::build_user("Q?", "ctx", Language::Spanish);
    assert!(es.starts_with("Contexto de la entrevista (transcripción reciente):\n---\nctx\n---\n\n"));
    assert!(es.ends_with("\"Q?\"\n\nDame una respuesta concisa y directa para leer en voz alta."));
}

#[test]
fn reasoning_models_get_headroom() {
    let r = backend::chat_body("gpt-5.5", "s", Content::Text("u".into()), 500, 4);
    assert_eq!(r.limit, OutputLimit::Reasoning { max_completion_tokens: 1524 });
    assert_eq!(r.messages[0].role, Role::System);
}

#[test]
fn agent_prompt_puts_what_changes_last() {
    let r = agent_request(BOTH, "line", "doc", Language::English, BrainModel::Auto);
    let r = match r {
        Ok(r) => r,
        Err(_) => panic!("there is a key"),
    };
    assert_eq!(r.model, "gpt-5.5");
    assert_eq!(r.messages.len(), 3);
    assert_eq!(text_of(&r.messages[0].content), backend::agent_system(Language::English));
    assert_eq!(text_of(&r.messages[1].content), "line");
    let tail = text_of(&r.messages[2].content);
    assert!(tail.starts_with("=== INTERVIEW STATE (background summary"));
    assert!(tail.contains("===\ndoc\n=== END INTERVIEW STATE ===\n\nHELP REQUEST:"));
    assert!(r.include_usage && r.low_effort);
    assert_eq!(r.limit, OutputLimit::Reasoning { max_completion_tokens: 3248 });
    let no_key = ApiKeys { groq: true, openai: false };
    match agent_request(no_key, "line", "", Language::English, BrainModel::Auto) {
        Ok(_) => panic!("there is no key"),
        Err(e) => assert_eq!(e, "agent mode needs OPENAI_API_KEY (not set)"),
    }
    assert!(backend::agent_tail("", Language::Spanish).starts_with("PEDIDO DE AYUDA:"));
}

#[test]
fn screenshots_go_out_in_one_message() {
    let imgs = vec!["AAA".to_string(), "BBB".to_string()];
    let r = match describe_request(BOTH, &imgs, VisionModel::Gpt4oMini, Language::English) {
        Ok(r) => r,
        Err(_) => panic!("there is a key"),
    };
    assert!(r.stream && r.include_usage);
    match &r.messages[1].content {
        Content::Parts(parts) => {
            assert_eq!(parts.len(), 3);
            match (&parts[0], &parts[2]) {
                (Part::Text(t), Part::Image(url)) => {
                    assert!(t.starts_with("Transcribe and describe each screenshot SEPARATELY"));
                    assert_eq!(url, "data:image/jpeg;base64,BBB");
                }
                _ => panic!("text, then pictures"),
            }
        }
        Content::Text(_) => panic!("parts are due"),
    }
    let err = |keys, imgs: &Vec<String>| {
        match describe_request(keys, imgs, VisionModel::Gpt55, Language::Spanish) {
            Ok(_) => panic!("refused"),
            Err(e) => e,
        }
    };
    assert_eq!(err(BOTH, &Vec::new()), "no screenshots to describe");
    assert_eq!(
        err(ApiKeys { groq: true, openai: false }, &imgs),
        "vision needs OPENAI_API_KEY (not set)"
    );
    assert_eq!(
        backend::vision_instruction(Language::English, 1),
        "Transcribe and describe this screenshot."
    );
}

#[test]
fn state_requests_and_replies() {
    let r = match state_request(BOTH, "", "You: hi") {
        Ok(r) => r,
        Err(_) => panic!("there is a key"),
    };
    assert!(!r.stream && !r.include_usage && r.low_effort);
    assert_eq!(
        text_of(&r.messages[1].content),
        "Previous state document:\n(none yet — first update of this interview)\n\n\
         New transcript lines:\nYou: hi"
    );
    match state_request(ApiKeys { groq: true, openai: false }, "", "") {
        Ok(_) => panic!("there is no key"),
        Err(e) => assert_eq!(e, "state refresh needs OPENAI_API_KEY (not set)"),
    }
    let ok = r#"{"choices":[{"message":{"content":"  ## Active Question\nNone "}}]}"#;
    assert_eq!(state_reply(ok), Ok("## Active Question\nNone".to_string()));
    let billed = r#"{"usage":{"prompt_tokens":5,"completion_tokens":2,"prompt_tokens_details":{"cached_tokens":1}}}"#;
    let usage = reply_usage(billed);
    assert_eq!((usage.prompt, usage.cached, usage.completion), (5, 1, 2));
    assert_eq!(reply_usage("{}").prompt, 0);
    assert_eq!(state_reply("{}"), Err(StateReplyError::Empty));
    assert_eq!(state_reply("<html>"), Err(StateReplyError::NotJson));
}

#[test]
fn refusals_are_short_apologies() {
    assert!(looks_like_refusal("I'm SORRY, but no."));
    assert!(looks_like_refusal("Lo siento, no puedo ayudar."));
    assert!(!looks_like_refusal("def sorted(x): ..."));
    assert!(!looks_like_refusal(&format!("sorry {}", "x".repeat(200))));
    assert!(is_refusal("ok", "i can't"));
}

#[test]
fn turns_are_read_line_by_line() {
    let mut t = Turn::new();
    assert!(matches!(t.read_line("noise\n", 5, true), TurnStep::Continue));
    let delta = r#"{"type":"stream_event","event":{"type":"content_block_delta","delta":{"text":"Hi "}}}"#;
    match t.read_line(delta, 7, true) {
        TurnStep::Show(piece) => assert_eq!(piece, "Hi "),
        _ => panic!("a piece is due"),
    }
    assert!(matches!(t.read_line(delta, 8, false), TurnStep::Continue));
    let tool = r#"{"type":"assistant","message":{"content":[{"type":"text"},{"type":"tool_use"}]}}"#;
    assert!(matches!(t.read_line(tool, 9, true), TurnStep::Continue));
    let end = r#"{"type":"result","usage":{"cache_read_input_tokens":11,"cache_creation_input_tokens":2}}"#;
    match t.read_line(end, 30, true) {
        TurnStep::Done(o) => {
            assert_eq!(o.answer, "Hi Hi");
            assert_eq!((o.ttft_ms, o.total_ms), (7, 30));
            assert_eq!((o.cache_read_tokens, o.cache_creation_tokens), (11, 2));
            assert!(o.tool_use);
        }
        _ => panic!("the turn is over"),
    }
    let mut t = Turn::new();
    match t.read_line(r#"{"type":"result","result":" done "}"#, 12, true) {
        TurnStep::Done(o) => {
            assert_eq!(o.answer, "done");
            assert_eq!(o.ttft_ms, 12);
            assert!(!o.tool_use);
        }
        _ => panic!("the turn is over"),
    }
}

#[test]
fn prompts_are_escaped() {
    let line = claude::user_line("say \"hi\"\n");
    assert!(line.ends_with('\n'));
    assert_eq!(line.matches('\n').count(), 1);
    assert_eq!(
        json_text(line.trim(), "/message/content/0/text"),
        Some("say \"hi\"\n".to_string())
    );
    assert_eq!(json_text(line.trim(), "/type"), Some("user".to_string()));
    assert!(!claude::warmup().stream);
    let ask = claude::ask("Q?", "", "t1");
    assert_eq!((ask.prompt.as_str(), ask.trace_id.as_str(), ask.stream), ("Q?", "t1", true));
}

#[test]
fn failed_turns_drop_the_process() {
    let mut m = SessionManager::new();
    assert!(m.needs_spawn());
    m.spawned(false);
    assert!(m.needs_spawn());
    m.spawned(true);
    assert!(m.turn_ended(TurnEnd::Answered, "helper").is_none());
    assert!(!m.needs_spawn());
    assert_eq!(m.turn_ended(TurnEnd::TimedOut, "helper"), Some("helper turn timed out".to_string()));
    assert!(m.needs_spawn());
    m.spawned(true);
    assert_eq!(m.turn_ended(TurnEnd::Failed("eof".into()), "helper"), Some("eof".to_string()));
    assert!(m.needs_spawn());
}

#[test]
fn chat_requests_as_json() {
    let classic = backend::chat_body(
        "llama",
        "be \"brief\"",
        Content::Text("line\nnext é".to_string()),
        500,
        4,
    );
    assert_eq!(
        chat_json(&classic),
        joined(&[
            r#"{"max_tokens":500,"messages":["#,
            r#"{"content":"be \"brief\"","role":"system"},"#,
            r#"{"content":"line\nnext é","role":"user"}],"#,
            r#""model":"llama","stream":true,"temperature":0.4}"#,
        ]),
    );
    let parts = Content::Parts(vec![
        Part::Text("look".to_string()),
        Part::Image("data:image/jpeg;base64,AA==".to_string()),
    ]);
    let reasoning = backend::chat_body("gpt-5-mini", "s", parts, 500, 2);
    assert_eq!(
        chat_json(&reasoning),
        joined(&[
            r#"{"max_completion_tokens":1524,"messages":["#,
            r#"{"content":"s","role":"system"},"#,
            r#"{"content":[{"text":"look","type":"text"},"#,
            r#"{"image_url":{"detail":"high","url":"data:image/jpeg;base64,AA=="},"#,
            r#""type":"image_url"}],"role":"user"}],"model":"gpt-5-mini","stream":true}"#,
        ]),
    );
    let agent = backend::agent_body("gpt-5", "s", "t", "u");
    assert_eq!(
        chat_json(&agent),
        joined(&[
            r#"{"max_completion_tokens":3248,"messages":["#,
            r#"{"content":"s","role":"system"},{"content":"t","role":"user"},"#,
            r#"{"content":"u","role":"user"}],"model":"gpt-5","reasoning_effort":"low","#,
            r#""stream":true,"stream_options":{"include_usage":true}}"#,
        ]),
    );
}

/// The body reads back as what serde_json would have written of it.
#[test]
fn request_bodies_are_canonical_json() {
    let state = match state_request(BOTH, "", "Them: hi") {
        Ok(r) => r,
        Err(_) => panic!("there is a key"),
    };
    let bodies = [
        chat_json(&state),
        chat_json(&backend::agent_body("gpt-4o", "s", "\u{1}\"\\", "")),
        speech_json("Hello\tthere"),
    ];
    for body in &bodies {
        let value: serde_json::Value = serde_json::from_str(body).unwrap();
        assert_eq!(&value.to_string(), body);
    }
    assert!(bodies[0].contains(r#""stream":false"#));
    assert_eq!(json_text(&bodies[2], "/input"), Some("Hello\tthere".to_string()));
    assert_eq!(json_text(&bodies[2], "/voice"), Some("alloy".to_string()));
    assert_eq!(json_text(&bodies[2], "/model"), Some("gpt-4o-mini-tts".to_string()));
}

fn joined(lines: &[&str]) -> String {
    lines.concat()
}

#[test]
fn control_characters_are_escaped() {
    assert_eq!(
        claude::user_line("a\"b\\c/\u{8}\u{c}\n\r\t\u{0}\u{1f}\u{7f}é"),
        concat_line(r#""a\"b\\c/\b\f\n\r\t\u0000\u001f"#, "\u{7f}é\""),
    );
}

fn concat_line(start: &str, end: &str) -> String {
    format!(
        "{}{}{}{}",
        r#"{"message":{"content":[{"text":"#,
        start,
        end,
        r#","type":"text"}],"role":"user"},"type":"user"}
"#
    )
}

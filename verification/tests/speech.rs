use gimme_a_chance::aec::{assemble, engines_to_try, Aec3Canceller, AecEngine};
use gimme_a_chance::audio::{
    choose_device, device_list, is_whisper_non_speech_tag, next_step, start_chunk, BleedWindow,
    CaptureSource, ChunkStep, DeviceChoice, SttEngine, SttStage,
};
use gimme_a_chance::dtln::{DtlnCanceller, BLOCK_LEN, BLOCK_SHIFT};
use gimme_a_chance::lang::Language;
use gimme_a_chance::samples::FrameBuffer;
use gimme_a_chance::streaming::{rms_gate_tenths, Endpoint, SecondPass, StreamPipeline, CARRY_MAX};
use gimme_a_chance::vad::{self, ChunkAction, Chunker, VadChunker, FRAME_SAMPLES};

const S: u64 = 1_000_000_000;

#[test]
fn chunk_sizes_follow_the_times() {
    assert_eq!(FRAME_SAMPLES, vad::SAMPLE_RATE_HZ * vad::FRAME_MS / 1000);
    assert_eq!(
        vad::PRE_SPEECH_PAD_SAMPLES,
        vad::SAMPLE_RATE_HZ * vad::PRE_SPEECH_PAD_MS / 1000
    );
    assert_eq!(vad::POST_SPEECH_PAD_FRAMES, vad::POST_SPEECH_PAD_MS / vad::FRAME_MS);
    assert_eq!(vad::MIN_CHUNK_SAMPLES, vad::SAMPLE_RATE_HZ * vad::MIN_CHUNK_MS / 1000);
    assert_eq!(vad::MAX_CHUNK_SAMPLES, vad::SAMPLE_RATE_HZ * vad::MAX_CHUNK_MS / 1000);
}

fn frame(value: f32) -> Vec<f32> {
    vec![value; FRAME_SAMPLES]
}

#[test]
fn chunk_starts_with_the_pre_roll_and_ends_after_silence() {
    let mut c: Chunker<f32> = Chunker::new();
    for i in 0..20 {
        assert!(matches!(c.step(&frame(i as f32), false), ChunkAction::Continue));
    }
    assert!(!c.in_speech());
    for _ in 0..30 {
        assert!(matches!(c.step(&frame(100.0), true), ChunkAction::Continue));
    }
    assert!(c.in_speech());
    for _ in 0..16 {
        assert!(matches!(c.step(&frame(0.5), false), ChunkAction::Continue));
    }
    match c.step(&frame(0.5), false) {
        ChunkAction::Emit(chunk) => {
            // Nine silent frames and the first voiced one fill the lead-in.
            assert_eq!(chunk.len(), 4800 + 29 * 480 + 17 * 480);
            assert_eq!(chunk[0], 11.0);
            assert_eq!(chunk[4799], 100.0);
            assert_eq!(chunk[chunk.len() - 1], 0.5);
        }
        ChunkAction::Continue => panic!("the chunk is due"),
    }
    assert!(!c.in_speech());
}

#[test]
fn short_noise_is_discarded() {
    let mut c: Chunker<f32> = Chunker::new();
    assert!(matches!(c.step(&frame(1.0), true), ChunkAction::Continue));
    for _ in 0..17 {
        assert!(matches!(c.step(&frame(0.0), false), ChunkAction::Continue));
    }
    // 18 frames are below the minimum.
    assert!(!c.in_speech());
}

#[test]
fn lead_in_does_not_save_a_blip() {
    let mut c: Chunker<f32> = Chunker::new();
    for _ in 0..10 {
        assert!(matches!(c.step(&frame(0.0), false), ChunkAction::Continue));
    }
    assert!(matches!(c.step(&frame(1.0), true), ChunkAction::Continue));
    for _ in 0..17 {
        assert!(matches!(c.step(&frame(0.0), false), ChunkAction::Continue));
    }
    assert!(!c.in_speech());
    // What is long enough comes out whole.
    for _ in 0..10 {
        assert!(matches!(c.step(&frame(1.0), true), ChunkAction::Continue));
    }
    for _ in 0..16 {
        assert!(matches!(c.step(&frame(0.0), false), ChunkAction::Continue));
    }
    match c.step(&frame(0.0), false) {
        ChunkAction::Emit(chunk) => assert_eq!(chunk.len(), 27 * 480),
        ChunkAction::Continue => panic!("the chunk is due"),
    }
}

#[test]
fn long_speech_is_cut_at_the_cap() {
    let mut c: Chunker<f32> = Chunker::new();
    let mut emitted = None;
    for i in 0..400 {
        if let ChunkAction::Emit(chunk) = c.step(&frame(1.0), true) {
            emitted = Some((i, chunk.len()));
            break;
        }
    }
    let (_, len) = emitted.unwrap();
    assert!(len >= 128_000 && len < 128_480);
}

#[test]
fn voice_resumes_after_a_pause() {
    let mut c: Chunker<f32> = Chunker::new();
    c.step(&frame(1.0), true);
    for _ in 0..10 {
        c.step(&frame(0.0), false);
    }
    c.step(&frame(1.0), true);
    for _ in 0..16 {
        assert!(matches!(c.step(&frame(0.0), false), ChunkAction::Continue));
    }
    assert!(matches!(c.step(&frame(0.0), false), ChunkAction::Emit(_)));
}

#[test]
fn detector_tells_silence_from_speech() {
    let mut c: VadChunker<f32> = VadChunker::new();
    for _ in 0..20 {
        let action = c.push_frame(&frame(0.0), &[0i16; FRAME_SAMPLES]);
        assert!(matches!(action, ChunkAction::Continue));
    }
    assert!(!c.in_speech());
    // A buzz rich in the bands of a voice.
    let mut heard = false;
    for f in 0..60usize {
        let pcm: Vec<i16> = (0..FRAME_SAMPLES)
            .map(|i| {
                let t = (f * FRAME_SAMPLES + i) as f64 / 16_000.0;
                let mut v = 0.0;
                for h in 1..20 {
                    v += (2.0 * std::f64::consts::PI * 150.0 * h as f64 * t).sin() / h as f64;
                }
                (v * 8000.0) as i16
            })
            .collect();
        c.push_frame(&frame(0.5), &pcm);
        heard = heard || c.in_speech();
    }
    assert!(heard);
}

#[test]
fn frames_keep_every_sample() {
    let mut b: FrameBuffer<i32> = FrameBuffer::new(3);
    assert_eq!(b.push_framed(&[1, 2]), Vec::<Vec<i32>>::new());
    assert_eq!(b.push_framed(&[3, 4, 5, 6, 7]), vec![vec![1, 2, 3], vec![4, 5, 6]]);
    assert_eq!(b.next_frame(), None);
    b.push(&[8, 9]);
    assert_eq!(b.next_frame(), Some(vec![7, 8, 9]));
}

#[test]
fn canceller_passes_raw_audio_through() {
    let mut c: Aec3Canceller<i32> = Aec3Canceller::new();
    let block: Vec<i32> = (0..400).collect();
    let frames = c.push_capture(&block);
    assert_eq!(frames.len(), 2);
    let out = assemble(&frames, &vec![None, None]);
    assert_eq!(out, (0..320).collect::<Vec<i32>>());
    let cleaned = assemble(&frames, &vec![Some(vec![-1; 160]), None]);
    assert_eq!(cleaned[0], -1);
    assert_eq!(cleaned[160], 160);
    assert_eq!(c.push_reference(&block).len(), 2);
    assert_eq!(c.push_capture(&[400; 80]).len(), 1);
}

#[test]
fn echo_engines_fall_back() {
    assert_eq!(engines_to_try(None), vec![AecEngine::Aec3]);
    assert_eq!(engines_to_try(Some("aec3")), vec![AecEngine::Aec3]);
    assert_eq!(engines_to_try(Some("dtln")), vec![AecEngine::Dtln, AecEngine::Aec3]);
}

#[test]
fn hops_stay_aligned() {
    let mut c: DtlnCanceller<i32> = DtlnCanceller::new(0);
    c.push_mic(&(0..300).collect::<Vec<i32>>());
    assert!(c.next_hop().is_none());
    c.push_reference(&(1000..1200).collect::<Vec<i32>>());
    let hop = c.next_hop().unwrap();
    assert_eq!(hop.mic[127], 127);
    assert_eq!(hop.reference[0], 1000);
    assert!(c.next_hop().is_none());
    let (mic, reference) = c.windows();
    assert_eq!(mic.len(), BLOCK_LEN);
    assert_eq!(mic[BLOCK_LEN - 1], 127);
    assert_eq!(mic[BLOCK_LEN - BLOCK_SHIFT - 1], 0);
    assert_eq!(reference[BLOCK_LEN - BLOCK_SHIFT], 1000);
    let mut sums = c.shift_out(0);
    for (i, s) in sums.iter_mut().enumerate() {
        *s += i as i32;
    }
    assert_eq!(c.finish_hop(sums)[5], 5);
    let next = c.shift_out(0);
    assert_eq!(next[0], 128);
    assert_eq!(next[BLOCK_LEN - 1], 0);
}

#[test]
fn capture_sources_by_name() {
    assert_eq!(CaptureSource::from_opt(Some("loopback")), CaptureSource::Loopback);
    assert_eq!(CaptureSource::from_opt(Some("mic")), CaptureSource::Microphone);
    assert_eq!(CaptureSource::from_opt(None), CaptureSource::Microphone);
}

#[test]
fn devices_are_listed_and_chosen() {
    let list = device_list(vec!["a".into(), "b".into()], Some("b".into()));
    assert!(!list[0].is_default && list[1].is_default);
    assert_eq!(list[0].name, "a");
    let names = vec![None, Some("x".to_string()), Some("x".to_string())];
    assert_eq!(
        choose_device(CaptureSource::Microphone, Some("x"), &names, false),
        Ok(DeviceChoice::At(1))
    );
    assert_eq!(
        choose_device(CaptureSource::Loopback, Some("y"), &names, true),
        Err("Output device 'y' not found".to_string())
    );
    assert_eq!(
        choose_device(CaptureSource::Microphone, None, &names, false),
        Err("No default input device".to_string())
    );
    assert_eq!(
        choose_device(CaptureSource::Microphone, None, &names, true),
        Ok(DeviceChoice::SystemDefault)
    );
}

#[test]
fn engines_describe_themselves() {
    assert_eq!(SttEngine::LocalWhisper.describe(), "whisper-rs local (base.en)");
    assert_eq!(
        SttEngine::Groq.describe(),
        "groq/whisper-large-v3-turbo (+ local fallback)"
    );
}

#[test]
fn non_speech_tags_are_recognised() {
    assert!(is_whisper_non_speech_tag(" [BLANK_AUDIO] "));
    assert!(is_whisper_non_speech_tag("[]"));
    assert!(!is_whisper_non_speech_tag("[two words]"));
    assert!(!is_whisper_non_speech_tag("[open"));
    assert!(!is_whisper_non_speech_tag(""));
}

#[test]
fn whisper_backs_up_the_other_engines() {
    assert!(matches!(start_chunk(SttEngine::Groq, false), ChunkStep::Quiet));
    assert!(matches!(
        start_chunk(SttEngine::Groq, true),
        ChunkStep::Run(SttStage::EncodeWav)
    ));
    assert!(matches!(
        next_step(SttStage::EncodeWav, Ok(String::new())),
        ChunkStep::Run(SttStage::AskGroq)
    ));
    assert!(matches!(
        next_step(SttStage::EncodeWav, Err("e".into())),
        ChunkStep::Failed(_)
    ));
    for stage in [SttStage::AskGroq, SttStage::RunParakeet] {
        assert!(matches!(
            next_step(stage, Err("down".into())),
            ChunkStep::Run(SttStage::RunWhisper)
        ));
    }
    assert!(matches!(
        next_step(SttStage::RunWhisper, Err("e".into())),
        ChunkStep::Failed(_)
    ));
    match next_step(SttStage::RunWhisper, Ok("  hello \n".into())) {
        ChunkStep::Line(line) => assert_eq!(line, "hello"),
        _ => panic!("a line is due"),
    }
    assert!(matches!(
        next_step(SttStage::AskGroq, Ok(" [MUSIC] ".into())),
        ChunkStep::NonSpeech(_)
    ));
}

#[test]
fn bleed_window_recognises_echoes() {
    let mut w = BleedWindow::default();
    assert_eq!(
        BleedWindow::tokenize("Hola, ¿QUÉ tal? x2"),
        vec!["hola", "qué", "tal", "x2"]
    );
    w.publish("So tell me about your Rust experience", 0);
    assert!(w.is_bleed("tell me about your rust", S));
    assert!(w.is_bleed("TELL ME stuff about rust... hmm", 12 * S));
    assert!(!w.is_bleed("tell me about your rust", 12 * S + 1));
    assert!(!w.is_bleed("tell me", S));
    assert!(!w.is_bleed("I built a compiler in school", S));
    // Three of five words are enough, two are not.
    assert!(w.is_bleed("tell me about nothing else", S));
    assert!(!w.is_bleed("tell me nothing else here", S));
}

#[test]
fn bleed_window_forgets() {
    let mut w = BleedWindow::default();
    w.publish("one two three", 0);
    w.publish("...", 20 * S);
    w.publish("four five six", 20 * S);
    assert!(!w.is_bleed("one two three", 5 * S));
    assert!(w.is_bleed("four five six", 20 * S));
}

fn heard(p: &mut StreamPipeline<f32>, n: usize, loud: bool) {
    p.hear(&vec![0.5; n], loud);
}

#[test]
fn endpoint_decodes_and_carries_the_tail() {
    let mut p: StreamPipeline<f32> = StreamPipeline::new("interviewer", Language::English, true);
    heard(&mut p, 32_000, true);
    assert_eq!(p.segment_samples(), 32_000);
    match p.endpoint(" tell me more ", 20_000) {
        Endpoint::Utterance { online, pass: SecondPass::Decode(audio) } => {
            assert_eq!(online, "tell me more");
            assert_eq!(audio.len(), 20_000);
        }
        _ => panic!("an utterance is due"),
    }
    assert_eq!(p.carried_audio().len(), 12_000);
    assert_eq!(p.segment_samples(), 0);
    p.level(true);
    // The next segment's words count from behind what was carried over.
    heard(&mut p, 100_000, false);
    match p.endpoint("and then", 10_000) {
        Endpoint::Utterance { pass: SecondPass::Decode(audio), .. } => {
            assert_eq!(audio.len(), 22_000);
        }
        _ => panic!("an utterance is due"),
    }
    assert_eq!(p.carried_audio().len(), CARRY_MAX);
}

#[test]
fn speculation_is_awaited_until_speech_resumes() {
    let mut w = BleedWindow::default();
    let mut p: StreamPipeline<f32> = StreamPipeline::new("me", Language::English, false);
    heard(&mut p, 16_000, true);
    assert!(p.partial("hello", &mut w, 0));
    assert!(!p.partial("hello", &mut w, 0));
    assert!(p.speculate("hello", false, true).is_none());
    assert_eq!(p.speculate("hello", true, true).unwrap().len(), 16_000);
    assert!(p.speculate("hello", true, true).is_none());
    assert!(matches!(
        p.endpoint("hello", 16_000),
        Endpoint::Utterance { pass: SecondPass::Await, .. }
    ));
    p.level(true);
    p.speculate("a", true, true);
    assert!(p.partial("a b", &mut w, 0));
    assert!(matches!(
        p.endpoint("a b", 0),
        Endpoint::Utterance { pass: SecondPass::Decode(_), .. }
    ));
}

#[test]
fn quiet_audio_is_dropped() {
    let mut w = BleedWindow::default();
    let mut p: StreamPipeline<f32> = StreamPipeline::new("me", Language::English, false);
    heard(&mut p, 16_000, false);
    assert!(!p.partial("ghost", &mut w, 0));
    assert!(p.speculate("ghost", true, true).is_none());
    assert!(matches!(p.endpoint("ghost", 0), Endpoint::Quiet));
    assert!(matches!(p.endpoint("  ", 0), Endpoint::Silent));
    assert_eq!(p.carried_audio().len(), 0);
    assert_eq!(rms_gate_tenths("me"), 25);
    assert_eq!(rms_gate_tenths("interviewer"), 10);
}

#[test]
fn short_spanish_keeps_the_online_text() {
    let mut w = BleedWindow::default();
    let mut p: StreamPipeline<f32> = StreamPipeline::new("me", Language::Spanish, false);
    heard(&mut p, 16_000, true);
    match p.endpoint(" dos palabras ", 0) {
        Endpoint::Utterance { online, pass: SecondPass::Skip } => {
            assert_eq!(p.settle(online, None, &mut w, 0), Some("dos palabras".to_string()));
        }
        _ => panic!("the online text is kept"),
    }
}

#[test]
fn finals_are_settled_against_the_bleed_window() {
    let mut w = BleedWindow::default();
    let interviewer: StreamPipeline<f32> =
        StreamPipeline::new("interviewer", Language::English, true);
    let me: StreamPipeline<f32> = StreamPipeline::new("me", Language::English, true);
    let line = interviewer.settle(
        "walk me".into(),
        Some(" Walk me through your resume. ".into()),
        &mut w,
        0,
    );
    assert_eq!(line, Some("Walk me through your resume.".to_string()));
    assert_eq!(me.settle("walk me through".into(), None, &mut w, S), None);
    assert_eq!(
        me.settle("I worked at a bank".into(), Some("  ".into()), &mut w, S),
        Some("I worked at a bank".to_string())
    );
    let alone: StreamPipeline<f32> = StreamPipeline::new("me", Language::English, false);
    assert!(alone.settle("walk me through".into(), None, &mut w, S).is_some());
}

#[test]
fn unbroken_voice_loses_nothing_at_the_cap() {
    let mut c: Chunker<usize> = Chunker::new();
    let mut joined: Vec<usize> = Vec::new();
    for i in 0..2 * vad::FRAMES_PER_FULL_CHUNK {
        let frame: Vec<usize> = (i * FRAME_SAMPLES..(i + 1) * FRAME_SAMPLES).collect();
        match c.step(&frame, true) {
            ChunkAction::Emit(chunk) => {
                assert_eq!((i + 1) % 267, 0);
                assert_eq!(chunk.len(), 128_160);
                assert!(!c.in_speech());
                joined.extend(chunk);
            }
            ChunkAction::Continue => assert_ne!((i + 1) % 267, 0),
        }
    }
    assert_eq!(joined, (0..2 * 128_160).collect::<Vec<usize>>());
}

#[test]
fn chunks_share_no_sample() {
    let mut c: Chunker<usize> = Chunker::new();
    let mut last_end = 0;
    let mut chunks = 0;
    for i in 0..200 {
        let frame: Vec<usize> = (i * FRAME_SAMPLES..(i + 1) * FRAME_SAMPLES).collect();
        if let ChunkAction::Emit(chunk) = c.step(&frame, i % 50 < 20) {
            assert!(chunk[0] >= last_end);
            assert_eq!(chunk[chunk.len() - 1], (i + 1) * FRAME_SAMPLES - 1);
            last_end = chunk[chunk.len() - 1] + 1;
            chunks += 1;
        }
    }
    assert_eq!(chunks, 4);
}

#[test]
fn detectors_that_heard_the_same_agree() {
    let mut a: VadChunker<f32> = VadChunker::new();
    let mut b: VadChunker<f32> = VadChunker::new();
    for f in 0..80usize {
        let pcm: Vec<i16> = (0..FRAME_SAMPLES)
            .map(|i| (((f * 7919 + i * 104_729) % 4001) as i16 - 2000) * (f % 9) as i16)
            .collect();
        a.push_frame(&frame(0.5), &pcm);
        b.push_frame(&frame(0.5), &pcm);
        assert_eq!(a.in_speech(), b.in_speech());
    }
}

#[test]
fn echoes_are_told_by_their_words() {
    let words = |s: &str| s.split(' ').map(str::to_string).collect::<Vec<String>>();
    let mut w = BleedWindow::default();
    w.publish_words(words("one two three"), S);
    assert!(w.is_echo(&words("one two three four five"), S));
    assert!(!w.is_echo(&words("one two four five"), S));
    assert!(!w.is_echo(&words("one two"), S));
    assert!(!w.is_echo(&words("one two three"), 100 * S));
    w.publish_words(Vec::new(), 100 * S);
    assert!(w.is_echo(&words("one two three"), S));
}

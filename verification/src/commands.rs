//! What the windows can ask for.

use vstd::prelude::*;
use crate::agent;
use crate::agent::Ingested;
use crate::alloc_counter;
use crate::alloc_counter::CountingAllocator;
use crate::audio::{AecEnd, CaptureSource, SttEngine};
use crate::backend;
use crate::backend::{
    AgentOutcome, ApiOutcome, BrainModel, ChatRequest, ContextWindows, VisionModel, VisionOutcome,
};
use crate::context_meter;
use crate::error::AppError;
use crate::lang;
use crate::lang::Language;
use crate::metrics;
use crate::metrics::Metrics;
use crate::sse::TokenUsage;
use crate::state::AppState;
use crate::storage;
use crate::storage::{Event, MetaField, MetaValue};
use crate::text;

verus! {

// ── Listening ──────────────────────────────────────────────────────────────

/// Which transcription is wanted.
#[derive(Clone, Copy, Debug, PartialEq, Eq, Structural)]
pub enum SttPreference {
    /// The local Whisper model and nothing else.
    Whisper,
    /// On the device, final lines only.
    Parakeet,
    /// On the device, shown while it is spoken.
    Streaming,
    /// In the cloud.
    Cloud,
}

/// What is wanted: a setting that names an engine decides, or else the switches
/// in the window.
pub open spec fn preference(setting: Seq<char>, local: bool, partials: bool) -> SttPreference {
    if setting == "whisper"@ {
        SttPreference::Whisper
    } else if setting == "sherpa"@ || setting == "parakeet"@ {
        SttPreference::Parakeet
    } else if setting == "streaming"@ || setting == "online"@ {
        SttPreference::Streaming
    } else if local && partials {
        SttPreference::Streaming
    } else if local {
        SttPreference::Parakeet
    } else {
        SttPreference::Cloud
    }
}

pub fn stt_preference(state: &AppState, setting: &str) -> (r: SttPreference)
    ensures
        r == preference(setting@, state.stt_local, state.stt_partials),
{
    if text::same(setting, "whisper") {
        SttPreference::Whisper
    } else if text::same(setting, "sherpa") || text::same(setting, "parakeet") {
        SttPreference::Parakeet
    } else if text::same(setting, "streaming") || text::same(setting, "online") {
        SttPreference::Streaming
    } else if state.stt_local && state.stt_partials {
        SttPreference::Streaming
    } else if state.stt_local {
        SttPreference::Parakeet
    } else {
        SttPreference::Cloud
    }
}

/// Which engines are there.
#[derive(Clone, Copy, Debug, PartialEq, Eq, Structural)]
pub struct SttAvailable {
    /// There is a credential for the cloud.
    pub groq: bool,
    /// The models on the device could be loaded.
    pub parakeet: bool,
    pub streaming: bool,
}

/// The engine where none is asked for, or the one asked for is not there: the
/// cloud, or else a model on the device, or else the local Whisper model.
pub open spec fn default_engine(a: SttAvailable) -> SttEngine {
    if a.groq {
        SttEngine::Groq
    } else if a.parakeet {
        SttEngine::Parakeet
    } else if a.streaming {
        SttEngine::Streaming
    } else {
        SttEngine::LocalWhisper
    }
}

/// The engine that a wish leads to. A missing model is a lesser mode, never an
/// error.
pub open spec fn engine_for(p: SttPreference, a: SttAvailable) -> SttEngine {
    match p {
        SttPreference::Whisper => SttEngine::LocalWhisper,
        SttPreference::Parakeet => if a.parakeet {
            SttEngine::Parakeet
        } else {
            default_engine(a)
        },
        SttPreference::Streaming => if a.streaming {
            SttEngine::Streaming
        } else {
            default_engine(a)
        },
        SttPreference::Cloud => default_engine(a),
    }
}

pub fn default_stt_engine(a: SttAvailable) -> (r: SttEngine)
    ensures
        r == default_engine(a),
{
    if a.groq {
        SttEngine::Groq
    } else if a.parakeet {
        SttEngine::Parakeet
    } else if a.streaming {
        SttEngine::Streaming
    } else {
        SttEngine::LocalWhisper
    }
}

pub fn choose_engine(p: SttPreference, a: SttAvailable) -> (r: SttEngine)
    ensures
        r == engine_for(p, a),
{
    match p {
        SttPreference::Whisper => SttEngine::LocalWhisper,
        SttPreference::Parakeet => if a.parakeet {
            SttEngine::Parakeet
        } else {
            default_stt_engine(a)
        },
        SttPreference::Streaming => if a.streaming {
            SttEngine::Streaming
        } else {
            default_stt_engine(a)
        },
        SttPreference::Cloud => default_stt_engine(a),
    }
}

/// The models to load ahead of time for a wish.
#[derive(Clone, Copy, Debug, PartialEq, Eq, Structural)]
pub struct WarmUp {
    pub parakeet: bool,
    pub streaming: bool,
}

/// A streaming session needs both: the finals come from the other model.
pub fn warm_up(p: SttPreference) -> (r: WarmUp)
    ensures
        r.streaming == (p == SttPreference::Streaming),
        r.parakeet == (p == SttPreference::Streaming || p == SttPreference::Parakeet),
{
    WarmUp {
        parakeet: p == SttPreference::Streaming || p == SttPreference::Parakeet,
        streaming: p == SttPreference::Streaming,
    }
}

/// The models on the device to load before listening begins: those of the wish,
/// and without a credential for the cloud all of them, since one of them may
/// have to stand in for it.
pub fn models_to_load(p: SttPreference, groq: bool) -> (r: WarmUp)
    ensures
        r.parakeet == (!groq || p == SttPreference::Parakeet || p == SttPreference::Streaming),
        r.streaming == (!groq || p == SttPreference::Streaming),
{
    let wished = warm_up(p);
    WarmUp { parakeet: wished.parakeet || !groq, streaming: wished.streaming || !groq }
}

/// One capture to run.
pub struct PipelinePlan {
    pub source: CaptureSource,
    pub speaker: &'static str,
    /// The device by name, or the system's default.
    pub device: Option<String>,
    pub engine: SttEngine,
    pub language: Language,
    /// Whether another pipeline runs along and they share a bleed window.
    pub dual: bool,
    pub aec: Option<AecEnd>,
}

/// `PipelinePlan` over plain text.
#[verifier::ext_equal]
pub struct PlanView {
    pub source: CaptureSource,
    pub speaker: Seq<char>,
    pub device: Option<Seq<char>>,
    pub engine: SttEngine,
    pub language: Language,
    pub dual: bool,
    pub aec: Option<AecEnd>,
}

impl View for PipelinePlan {
    type V = PlanView;

    open spec fn view(&self) -> PlanView {
        PlanView {
            source: self.source,
            speaker: self.speaker@,
            device: match self.device {
                Some(s) => Some(s@),
                None => None,
            },
            engine: self.engine,
            language: self.language,
            dual: self.dual,
            aec: self.aec,
        }
    }
}

/// Who is heard on a source.
pub open spec fn speaker_on(source: CaptureSource) -> Seq<char> {
    match source {
        CaptureSource::Loopback => "interviewer"@,
        CaptureSource::Microphone => "me"@,
    }
}

/// The captures that a source stands for: both sides of the call on the default
/// devices, linked so that the interviewer's voice is kept out of the user's
/// track; or one on the chosen device.
pub open spec fn plans_for(
    source: Option<Seq<char>>,
    device: Option<Seq<char>>,
    engine: SttEngine,
    language: Language,
) -> Seq<PlanView> {
    if source == Some("both"@) {
        seq![
            PlanView {
                source: CaptureSource::Loopback,
                speaker: "interviewer"@,
                device: None,
                engine,
                language,
                dual: true,
                aec: Some(AecEnd::Reference),
            },
            PlanView {
                source: CaptureSource::Microphone,
                speaker: "me"@,
                device: None,
                engine,
                language,
                dual: true,
                aec: Some(AecEnd::Canceller),
            },
        ]
    } else {
        let cs = if source == Some("loopback"@) {
            CaptureSource::Loopback
        } else {
            CaptureSource::Microphone
        };
        seq![
            PlanView {
                source: cs,
                speaker: speaker_on(cs),
                device,
                engine,
                language,
                dual: false,
                aec: None,
            },
        ]
    }
}

/// The value of an optional string.
pub open spec fn opt_view(s: Option<String>) -> Option<Seq<char>> {
    match s {
        Some(v) => Some(v@),
        None => None,
    }
}

/// The captures that a source stands for.
pub fn capture_plans(
    source: Option<&str>,
    device: Option<String>,
    engine: SttEngine,
    language: Language,
) -> (r: Vec<PipelinePlan>)
    ensures
        r@.map_values(|p: PipelinePlan| p@) == plans_for(
            match source {
                Some(s) => Some(s@),
                None => None,
            },
            opt_view(device),
            engine,
            language,
        ),
{
    let ghost wanted = plans_for(
        match source {
            Some(s) => Some(s@),
            None => None,
        },
        opt_view(device),
        engine,
        language,
    );
    let mut out: Vec<PipelinePlan> = Vec::new();
    let both = match source {
        Some(s) => text::same(s, "both"),
        None => false,
    };
    if both {
        out.push(
            PipelinePlan {
                source: CaptureSource::Loopback,
                speaker: "interviewer",
                device: None,
                engine,
                language,
                dual: true,
                aec: Some(AecEnd::Reference),
            },
        );
        out.push(
            PipelinePlan {
                source: CaptureSource::Microphone,
                speaker: "me",
                device: None,
                engine,
                language,
                dual: true,
                aec: Some(AecEnd::Canceller),
            },
        );
    } else {
        let cs = CaptureSource::from_opt(source);
        let speaker: &'static str = match cs {
            CaptureSource::Loopback => "interviewer",
            CaptureSource::Microphone => "me",
        };
        out.push(
            PipelinePlan { source: cs, speaker, device, engine, language, dual: false, aec: None },
        );
    }
    assert(out@.map_values(|p: PipelinePlan| p@) =~= wanted);
    out
}

/// The captures to run for what the user chose.
pub fn plan_listening(
    state: &AppState,
    source: Option<&str>,
    device: Option<String>,
    setting: &str,
    available: SttAvailable,
) -> (r: Vec<PipelinePlan>)
    ensures
        r@.map_values(|p: PipelinePlan| p@) == plans_for(
            match source {
                Some(s) => Some(s@),
                None => None,
            },
            opt_view(device),
            engine_for(preference(setting@, state.stt_local, state.stt_partials), available),
            state.language,
        ),
{
    let wish = stt_preference(state, setting);
    capture_plans(source, device, choose_engine(wish, available), state.language)
}

/// Take up listening, unless it is on already. What follows may still fail; the
/// flag then stays up until listening is stopped.
pub fn start_listening(state: &mut AppState) -> (r: Result<(), AppError>)
    ensures
        final(state).is_listening,
        *final(state) == (AppState { is_listening: true, ..*old(state) }),
        r is Ok <==> !old(state).is_listening,
        r matches Err(e) ==> e matches AppError::Audio(s) && s@ == "Already listening"@,
{
    if state.is_listening {
        return Err(AppError::Audio("Already listening".to_owned()));
    }
    state.is_listening = true;
    Ok(())
}

/// Stop listening. The pipelines see it on their next round.
pub fn stop_listening(state: &mut AppState)
    ensures
        *final(state) == (AppState { is_listening: false, ..*old(state) }),
{
    state.is_listening = false;
}

/// Both sides of a call are told apart and linked: of two pipelines one feeds
/// the bleed window and is the echo's reference, the other reads it and cancels
/// the echo; a single pipeline is linked to nothing.
pub proof fn dual_capture_is_linked(
    source: Option<Seq<char>>,
    device: Option<Seq<char>>,
    engine: SttEngine,
    language: Language,
)
    ensures
        ({
            let plans = plans_for(source, device, engine, language);
            if source == Some("both"@) {
                &&& plans.len() == 2
                &&& crate::streaming::bleed_role(plans[0].speaker, plans[0].dual)
                    == crate::streaming::BleedRole::Feeds
                &&& plans[0].aec == Some(AecEnd::Reference)
                &&& crate::streaming::bleed_role(plans[1].speaker, plans[1].dual)
                    == crate::streaming::BleedRole::Reads
                &&& plans[1].aec == Some(AecEnd::Canceller)
            } else {
                &&& plans.len() == 1
                &&& crate::streaming::bleed_role(plans[0].speaker, plans[0].dual)
                    == crate::streaming::BleedRole::Neither
                &&& plans[0].aec is None
            }
        }),
{
    reveal_strlit("interviewer");
    reveal_strlit("me");
    assert("interviewer"@.len() == 11 && "me"@.len() == 2);
}

/// Something always transcribes: without models on the device a wish for them
/// leads where no wish leads.
pub proof fn missing_models_degrade(p: SttPreference, groq: bool)
    requires
        p != SttPreference::Whisper,
    ensures
        ({
            let a = SttAvailable { groq, parakeet: false, streaming: false };
            engine_for(p, a) == (if groq {
                SttEngine::Groq
            } else {
                SttEngine::LocalWhisper
            })
        }),
{
}

// ── Settings ───────────────────────────────────────────────────────────────

fn unknown(what: &str, tag: &str) -> (r: AppError)
    ensures
        r matches AppError::Other(s) && s@ == "unknown "@ + what@ + ": "@ + tag@,
{
    let mut message = "unknown ".to_owned();
    message.append(what);
    message.append(": ");
    message.append(tag);
    AppError::Other(message)
}

/// Switch the language of transcription and answers. Gives the language whose
/// models are to be loaded.
pub fn set_language(state: &mut AppState, tag: &str) -> (r: Result<Language, AppError>)
    ensures
        match (r, lang::language_of(tag@)) {
            (Ok(got), Some(want)) => got == want && *final(state) == (AppState {
                language: want,
                ..*old(state)
            }),
            (Err(e), None) => {
                &&& e matches AppError::Other(s)
                &&& s@ == "unknown "@ + "language"@ + ": "@ + tag@
                &&& *final(state) == *old(state)
            },
            _ => false,
        },
{
    match Language::from_tag(tag) {
        Some(language) => {
            state.language = language;
            Ok(language)
        },
        None => Err(unknown("language", tag)),
    }
}

pub fn get_language(state: &AppState) -> (r: &'static str)
    ensures
        r@ == lang::language_tag(state.language),
{
    state.language.tag()
}

/// Switch the model that describes screenshots.
pub fn set_vision_model(state: &mut AppState, tag: &str) -> (r: Result<(), AppError>)
    ensures
        match (r, backend::vision_model_of(tag@)) {
            (Ok(_), Some(want)) => *final(state) == (AppState { vision_model: want, ..*old(state) }),
            (Err(e), None) => {
                &&& e matches AppError::Other(s)
                &&& s@ == "unknown "@ + "vision model"@ + ": "@ + tag@
                &&& *final(state) == *old(state)
            },
            _ => false,
        },
{
    match VisionModel::from_tag(tag) {
        Some(model) => {
            state.vision_model = model;
            Ok(())
        },
        None => Err(unknown("vision model", tag)),
    }
}

pub fn get_vision_model(state: &AppState) -> (r: &'static str)
    ensures
        r@ == backend::vision_tag(state.vision_model),
{
    state.vision_model.tag()
}

/// Switch the model that answers.
pub fn set_brain_model(state: &mut AppState, tag: &str) -> (r: Result<(), AppError>)
    ensures
        match (r, backend::brain_model_of(tag@)) {
            (Ok(_), Some(want)) => *final(state) == (AppState { brain_model: want, ..*old(state) }),
            (Err(e), None) => {
                &&& e matches AppError::Other(s)
                &&& s@ == "unknown "@ + "brain model"@ + ": "@ + tag@
                &&& *final(state) == *old(state)
            },
            _ => false,
        },
{
    match BrainModel::from_tag(tag) {
        Some(model) => {
            state.brain_model = model;
            Ok(())
        },
        None => Err(unknown("brain model", tag)),
    }
}

pub fn get_brain_model(state: &AppState) -> (r: &'static str)
    ensures
        r@ == backend::brain_tag(state.brain_model),
{
    state.brain_model.tag()
}

// ── Screenshots ────────────────────────────────────────────────────────────

/// The most screenshots that wait.
pub const MAX_QUEUED_SHOTS: usize = 10;

/// Whether one more screenshot can be taken.
pub fn check_queue(state: &AppState) -> (r: Result<(), AppError>)
    ensures
        r is Ok <==> state.capture_queue@.len() < MAX_QUEUED_SHOTS,
        r matches Err(e) ==> e matches AppError::Vision(s) && s@
            == "screenshot queue is full (10); describe or clear it"@,
{
    if state.capture_queue.len() >= MAX_QUEUED_SHOTS {
        Err(AppError::Vision("screenshot queue is full (10); describe or clear it".to_owned()))
    } else {
        Ok(())
    }
}

/// A screenshot was taken: put it in the queue. Gives the queue's length.
pub fn queue_capture(state: &mut AppState, img: String) -> (r: usize)
    ensures
        final(state).capture_queue@ == old(state).capture_queue@.push(img),
        r == final(state).capture_queue@.len(),
        *final(state) == (AppState { capture_queue: final(state).capture_queue, ..*old(state) }),
{
    state.capture_queue.push(img);
    state.capture_queue.len()
}

/// The queue after the screenshots of a failed description come back: new ones
/// that were queued meanwhile take precedence.
pub open spec fn put_back(queue: Seq<String>, imgs: Seq<String>) -> Seq<String> {
    if queue.len() == 0 {
        imgs
    } else {
        queue
    }
}

/// A failed description costs nothing: it took every screenshot off the queue,
/// and as long as no new one came they are all back, in their order.
pub proof fn failed_description_keeps_the_shots(queue: Seq<String>)
    ensures
        put_back(Seq::<String>::empty(), queue) == queue,
{
}

/// A description under way.
pub struct DescribeJob {
    /// The screenshots, in the order they were taken.
    pub imgs: Vec<String>,
    /// The model that was chosen.
    pub model: VisionModel,
    pub language: Language,
    /// What that model said, where it refused and the stronger one is asked.
    pub refused: Option<VisionOutcome>,
}

/// The model that a description is asked of now.
pub open spec fn model_asked(job: DescribeJob) -> VisionModel {
    if job.refused is Some {
        VisionModel::Gpt55
    } else {
        job.model
    }
}

impl DescribeJob {
    /// Whether the screen has to be captured first: nothing was queued.
    pub fn needs_shot(&self) -> (r: bool)
        ensures
            r == (self.imgs@.len() == 0),
    {
        self.imgs.len() == 0
    }

    /// The screen was captured.
    pub fn add_shot(&mut self, img: String)
        ensures
            final(self).imgs@ == old(self).imgs@.push(img),
            *final(self) == (DescribeJob { imgs: final(self).imgs, ..*old(self) }),
    {
        self.imgs.push(img);
    }

    /// The model to ask now.
    pub fn model_now(&self) -> (r: VisionModel)
        ensures
            r == model_asked(*self),
    {
        match &self.refused {
            Some(_) => VisionModel::Gpt55,
            None => self.model,
        }
    }

    /// The request to send now.
    pub fn request(&self, keys: backend::ApiKeys) -> (r: Result<ChatRequest, String>)
        ensures
            match r {
                Ok(request) => keys.openai && self.imgs@.len() > 0 && request@
                    == backend::describe_chat(
                    text::views(self.imgs@),
                    model_asked(*self),
                    self.language,
                ),
                Err(e) => if !keys.openai {
                    e@ == "vision needs OPENAI_API_KEY (not set)"@
                } else {
                    self.imgs@.len() == 0 && e@ == "no screenshots to describe"@
                },
            },
    {
        backend::describe_request(keys, &self.imgs, self.model_now(), self.language)
    }
}

/// Begin to describe what is queued. The queue is empty from now on.
pub fn begin_describe(state: &mut AppState) -> (r: DescribeJob)
    ensures
        r.imgs@ == old(state).capture_queue@,
        r.model == old(state).vision_model,
        r.language == old(state).language,
        r.refused is None,
        final(state).capture_queue@ == Seq::<String>::empty(),
        *final(state) == (AppState { capture_queue: final(state).capture_queue, ..*old(state) }),
{
    let imgs = crate::samples::take_all(&mut state.capture_queue);
    DescribeJob { imgs, model: state.vision_model, language: state.language, refused: None }
}

/// What follows an attempt at a description.
pub enum DescribeStep {
    /// Ask again.
    Again(DescribeJob),
    /// Give up.
    Failed(AppError),
    /// The description, and the line that it became.
    Done { text: String, line: Option<Ingested> },
}

/// Whether a description is asked for once more, from the stronger model: the
/// first one refused, and was not that model's.
pub open spec fn wants_retry(job: DescribeJob, description: Seq<char>) -> bool {
    job.refused is None && job.model != VisionModel::Gpt55 && text::bytes_in(description)
        < backend::REFUSAL_MAX_BYTES && backend::apologises(text::lowercase(description))
}

/// The numbers after a call to a model was paid for.
pub open spec fn paid(before: Metrics, usage: TokenUsage) -> Metrics {
    Metrics {
        total_prompt_tokens: metrics::spent(before.total_prompt_tokens, usage.prompt),
        total_cached_tokens: metrics::spent(before.total_cached_tokens, usage.cached),
        total_completion_tokens: metrics::spent(before.total_completion_tokens, usage.completion),
        ..before
    }
}

/// What the program is like once a description is kept: it is remembered, and
/// taken into the transcript.
pub open spec fn description_kept(
    before: AppState,
    after: AppState,
    outcome: VisionOutcome,
    now_ns: u64,
    shown: Seq<char>,
    line: Option<Ingested>,
) -> bool {
    &&& shown == outcome.text@
    &&& after.last_description@ == outcome.text@
    &&& line_taken_in(before.agent@, after.agent@, "screen"@, outcome.text@, now_ns, line)
    &&& metrics_after_line(
        Metrics { last_vision_ms: outcome.total_ms, ..before.metrics },
        after.metrics,
        after.agent@,
        line is Some,
    )
    &&& after == (AppState {
        last_description: after.last_description,
        agent: after.agent,
        metrics: after.metrics,
        ..before
    })
}

/// The screen was described, or could not be. A refusal is put to the stronger
/// model once; where that fails too the refusal is kept. A first failure gives
/// the screenshots back to the queue. Every description is paid for, kept or
/// not.
pub fn describe_queue(
    state: &mut AppState,
    job: DescribeJob,
    outcome: Result<VisionOutcome, String>,
    now_ns: u64,
) -> (r: DescribeStep)
    ensures
        match (outcome, job.refused) {
            (Ok(o), _) => if wants_retry(job, o.text@) {
                r == DescribeStep::Again(DescribeJob { refused: Some(o), ..job }) && *final(state)
                    == (AppState { metrics: paid(old(state).metrics, o.usage), ..*old(state) })
            } else {
                r matches DescribeStep::Done { text, line } && description_kept(
                    AppState { metrics: paid(old(state).metrics, o.usage), ..*old(state) },
                    *final(state),
                    o,
                    now_ns,
                    text@,
                    line,
                )
            },
            (Err(_), Some(first)) => r matches DescribeStep::Done { text, line }
                && description_kept(*old(state), *final(state), first, now_ns, text@, line),
            (Err(why), None) => {
                &&& r matches DescribeStep::Failed(e) && e matches AppError::Vision(s) && s@ == why@
                &&& final(state).capture_queue@ == put_back(old(state).capture_queue@, job.imgs@)
                &&& *final(state) == (AppState {
                    capture_queue: final(state).capture_queue,
                    ..*old(state)
                })
            },
        },
{
    match outcome {
        Ok(o) => {
            state.metrics.add_spend(o.usage);
            if job.refused.is_none() && job.model != VisionModel::Gpt55
                && backend::looks_like_refusal(o.text.as_str()) {
                return DescribeStep::Again(
                    DescribeJob {
                        imgs: job.imgs,
                        model: job.model,
                        language: job.language,
                        refused: Some(o),
                    },
                );
            }
            keep_description(state, o, now_ns)
        },
        Err(why) => match job.refused {
            Some(first) => keep_description(state, first, now_ns),
            None => {
                if state.capture_queue.len() == 0 {
                    state.capture_queue = job.imgs;
                }
                DescribeStep::Failed(AppError::Vision(why))
            },
        },
    }
}

fn keep_description(state: &mut AppState, outcome: VisionOutcome, now_ns: u64) -> (r: DescribeStep)
    ensures
        r matches DescribeStep::Done { text, line } && description_kept(
            *old(state),
            *final(state),
            outcome,
            now_ns,
            text@,
            line,
        ),
{
    state.last_description = outcome.text.clone();
    state.metrics.last_vision_ms = outcome.total_ms;
    let line = push_line(state, "screen", outcome.text.as_str(), now_ns);
    DescribeStep::Done { text: outcome.text, line }
}

/// A description is asked for at most twice, and the second time from the
/// stronger model.
pub proof fn describes_at_most_twice(job: DescribeJob, first: VisionOutcome, second: Seq<char>)
    ensures
        ({
            let again = DescribeJob { refused: Some(first), ..job };
            &&& model_asked(again) == VisionModel::Gpt55
            &&& !wants_retry(again, second)
        }),
{
}

pub fn clear_capture_queue(state: &mut AppState)
    ensures
        final(state).capture_queue@ == Seq::<String>::empty(),
        *final(state) == (AppState { capture_queue: final(state).capture_queue, ..*old(state) }),
{
    state.capture_queue = Vec::new();
}

pub fn capture_queue_len(state: &AppState) -> (r: usize)
    ensures
        r == state.capture_queue@.len(),
{
    state.capture_queue.len()
}

// ── Lines ──────────────────────────────────────────────────────────────────

/// What taking in a text of some source does to the session: nothing where it
/// is blank or cannot be tokenized, or else one more line and an event to
/// record.
pub open spec fn line_taken_in(
    before: agent::SessionView,
    after: agent::SessionView,
    speaker: Seq<char>,
    raw: Seq<char>,
    now_ns: u64,
    r: Option<Ingested>,
) -> bool {
    line_filed(before, after, speaker, agent::kind_of(speaker), raw, now_ns, r)
}

/// `line_taken_in` with the kind under which the log files the line.
pub open spec fn line_filed(
    before: agent::SessionView,
    after: agent::SessionView,
    speaker: Seq<char>,
    kind: Seq<char>,
    raw: Seq<char>,
    now_ns: u64,
    r: Option<Ingested>,
) -> bool {
    let said = text::trimmed(raw);
    let t_s = agent::clock(before, now_ns);
    let tokens = context_meter::token_count(agent::line_text(t_s, speaker, said));
    if said.len() == 0 || tokens is None {
        r is None && after == before
    } else {
        &&& after == agent::appended(before, speaker, said, t_s, tokens->0 as int)
        &&& r is Some
        &&& r->0.event@ == (storage::EventView {
            kind,
            speaker: if kind == "transcript"@ {
                Some(speaker)
            } else {
                None
            },
            content: said,
            t_s,
            meta: None,
        })
        &&& r->0.refresh_due == agent::refresh_due(after)
        &&& r->0.wakes_press == (kind == "transcript"@ && speaker == "interviewer"@)
    }
}

/// What taking in a line does to the numbers.
pub open spec fn metrics_after_line(
    before: Metrics,
    after: Metrics,
    session: agent::SessionView,
    taken: bool,
) -> bool {
    after == (if taken {
        Metrics {
            transcript_chars: session.chars_total,
            transcript_lines: metrics::spent(before.transcript_lines, 1),
            ..before
        }
    } else {
        before
    })
}

/// Take in a text of some source.
pub fn push_line(state: &mut AppState, speaker: &'static str, raw: &str, now_ns: u64) -> (r: Option<
    Ingested,
>)
    ensures
        line_taken_in(old(state).agent@, final(state).agent@, speaker@, raw@, now_ns, r),
        metrics_after_line(
            old(state).metrics,
            final(state).metrics,
            final(state).agent@,
            r is Some,
        ),
        *final(state) == (AppState {
            agent: final(state).agent,
            metrics: final(state).metrics,
            ..*old(state)
        }),
{
    let kind = agent::line_kind(speaker);
    push_line_tagged(state, speaker, kind, raw, now_ns)
}

/// Take in a text of some source, filed under a kind of its own.
pub fn push_line_tagged(
    state: &mut AppState,
    speaker: &'static str,
    kind: &'static str,
    raw: &str,
    now_ns: u64,
) -> (r: Option<Ingested>)
    ensures
        line_filed(old(state).agent@, final(state).agent@, speaker@, kind@, raw@, now_ns, r),
        metrics_after_line(
            old(state).metrics,
            final(state).metrics,
            final(state).agent@,
            r is Some,
        ),
        *final(state) == (AppState {
            agent: final(state).agent,
            metrics: final(state).metrics,
            ..*old(state)
        }),
{
    let r = state.agent.push_line_tagged(speaker, kind, raw, now_ns);
    if r.is_some() {
        state.metrics.line_added(state.agent.chars_total());
    }
    r
}

// ── Clipboard ──────────────────────────────────────────────────────────────

/// A copy by hotkey ended. Its text goes into the transcript.
pub fn copy_and_ingest(
    state: &mut AppState,
    outcome: Result<String, String>,
    now_ns: u64,
) -> (r: Result<(String, Option<Ingested>), AppError>)
    ensures
        !final(state).clip.suppressed,
        final(state).clip.enabled == old(state).clip.enabled,
        match (outcome, r) {
            (Ok(s), Ok((got, line))) => {
                &&& s@.len() > 0
                &&& got@ == s@
                &&& final(state).clip.last@ == s@
                &&& line_filed(
                    old(state).agent@,
                    final(state).agent@,
                    "clipboard"@,
                    "clipboard_stealth"@,
                    s@,
                    now_ns,
                    line,
                )
                &&& metrics_after_line(
                    old(state).metrics,
                    final(state).metrics,
                    final(state).agent@,
                    line is Some,
                )
                &&& *final(state) == (AppState {
                    clip: final(state).clip,
                    agent: final(state).agent,
                    metrics: final(state).metrics,
                    ..*old(state)
                })
            },
            (Ok(s), Err(e)) => {
                &&& s@.len() == 0
                &&& e matches AppError::Clipboard(message) && message@
                    == "nothing selected (clipboard has no text)"@
                &&& final(state).clip.last@ == old(state).clip.last@
                &&& *final(state) == (AppState { clip: final(state).clip, ..*old(state) })
            },
            (Err(why), Err(e)) => {
                &&& e matches AppError::Clipboard(message) && message@ == why@
                &&& final(state).clip.last@ == old(state).clip.last@
                &&& *final(state) == (AppState { clip: final(state).clip, ..*old(state) })
            },
            (Err(_), Ok(_)) => false,
        },
{
    match state.clip.end_manual(outcome) {
        Ok(s) => {
            let line = push_line_tagged(
                state,
                "clipboard",
                "clipboard_stealth",
                s.as_str(),
                now_ns,
            );
            Ok((s, line))
        },
        Err(e) => Err(AppError::Clipboard(e)),
    }
}

/// The clipboard changed and holds this clip, if it holds text. Gives whether
/// it is taken in, and the line that it became.
pub fn clipboard_changed(state: &mut AppState, clip: Option<&str>, now_ns: u64) -> (r: (
    bool,
    Option<Ingested>,
))
    ensures
        r.0 == crate::clipboard::takes_clip(
            old(state).clip.enabled,
            old(state).clip.suppressed,
            match clip {
                Some(s) => Some(s@),
                None => None,
            },
            old(state).clip.last@,
        ),
        final(state).clip.enabled == old(state).clip.enabled,
        final(state).clip.suppressed == old(state).clip.suppressed,
        if r.0 {
            &&& final(state).clip.last@ == clip->0@
            &&& line_taken_in(
                old(state).agent@,
                final(state).agent@,
                "clipboard"@,
                clip->0@,
                now_ns,
                r.1,
            )
        } else {
            &&& final(state).clip.last@ == old(state).clip.last@
            &&& final(state).agent == old(state).agent
            &&& r.1 is None
        },
        metrics_after_line(
            old(state).metrics,
            final(state).metrics,
            final(state).agent@,
            r.1 is Some,
        ),
        *final(state) == (AppState {
            clip: final(state).clip,
            agent: final(state).agent,
            metrics: final(state).metrics,
            ..*old(state)
        }),
{
    if !state.clip.changed(clip) {
        return (false, None);
    }
    match clip {
        Some(s) => (true, push_line(state, "clipboard", s, now_ns)),
        None => (true, None),
    }
}

/// Forget the last clip, so that it can be taken in again.
pub fn clear_clipboard(state: &mut AppState)
    ensures
        final(state).clip.last@ == Seq::<char>::empty(),
        final(state).clip.enabled == old(state).clip.enabled,
        final(state).clip.suppressed == old(state).clip.suppressed,
        *final(state) == (AppState { clip: final(state).clip, ..*old(state) }),
{
    state.clip.clear();
}

/// Whether every copy is taken in.
pub fn set_auto_clip(state: &mut AppState, enabled: bool)
    ensures
        final(state).clip == (crate::clipboard::ClipWatch { enabled, ..old(state).clip }),
        *final(state) == (AppState { clip: final(state).clip, ..*old(state) }),
{
    state.clip.enabled = enabled;
}

// ── Answers ────────────────────────────────────────────────────────────────

/// The name of a request, or a dash where it has none.
pub fn trace_id_or_dash(trace_id: Option<String>) -> (r: String)
    ensures
        r@ == (match trace_id {
            Some(s) => s@,
            None => "-"@,
        }),
{
    match trace_id {
        Some(s) => s,
        None => "-".to_owned(),
    }
}

fn text_field(name: &str, value: &str) -> (r: MetaField)
    ensures
        r@ == (storage::MetaFieldView {
            name: name@,
            value: storage::MetaValueView::Text(value@),
        }),
{
    MetaField { name: name.to_owned(), value: MetaValue::Text(value.to_owned()) }
}

fn count_field(name: &str, value: u64) -> (r: MetaField)
    ensures
        r@ == (storage::MetaFieldView {
            name: name@,
            value: storage::MetaValueView::Count(value as nat),
        }),
{
    MetaField { name: name.to_owned(), value: MetaValue::Count(value) }
}

/// A note in words.
pub open spec fn text_note(name: Seq<char>, value: Seq<char>) -> storage::MetaFieldView {
    storage::MetaFieldView { name, value: storage::MetaValueView::Text(value) }
}

/// A note in numbers.
pub open spec fn count_note(name: Seq<char>, value: u64) -> storage::MetaFieldView {
    storage::MetaFieldView { name, value: storage::MetaValueView::Count(value as nat) }
}

/// A question was typed: what is recorded of it.
pub fn question_event(state: &AppState, question: &str, trace_id: &str, now_ns: u64) -> (r: Event)
    ensures
        r@ == (storage::EventView {
            kind: "question"@,
            speaker: None,
            content: question@,
            t_s: agent::clock(state.agent@, now_ns),
            meta: Some(seq![text_note("trace_id"@, trace_id@)]),
        }),
{
    let mut meta: Vec<MetaField> = Vec::new();
    meta.push(text_field("trace_id", trace_id));
    assert(meta@.map_values(|f: MetaField| f@) =~= seq![text_note("trace_id"@, trace_id@)]);
    Event {
        kind: "question",
        speaker: None,
        content: question.to_owned(),
        t_s: state.agent.elapsed_s(now_ns),
        meta: Some(meta),
    }
}

/// A question was answered: keep its numbers, and give what is recorded.
pub fn ask_brain(
    state: &mut AppState,
    outcome: &ApiOutcome,
    question: &str,
    trace_id: &str,
    now_ns: u64,
) -> (r: Event)
    ensures
        final(state).metrics.last_provider@ == outcome.provider@,
        *final(state) == (AppState {
            metrics: Metrics {
                last_llm_ms: outcome.total_ms,
                last_llm_ttft_ms: outcome.ttft_ms,
                last_provider: final(state).metrics.last_provider,
                ..paid(old(state).metrics, outcome.usage)
            },
            ..*old(state)
        }),
        r@ == (storage::EventView {
            kind: "answer"@,
            speaker: None,
            content: outcome.answer@,
            t_s: agent::clock(old(state).agent@, now_ns),
            meta: Some(
                seq![
                    text_note("provider"@, outcome.provider@),
                    text_note("question"@, question@),
                    text_note("trace_id"@, trace_id@),
                    text_note("trigger"@, "ask"@),
                ],
            ),
        }),
{
    state.metrics.last_llm_ms = outcome.total_ms;
    state.metrics.last_llm_ttft_ms = outcome.ttft_ms;
    state.metrics.last_provider = outcome.provider.clone();
    state.metrics.add_spend(outcome.usage);
    let mut meta: Vec<MetaField> = Vec::new();
    meta.push(text_field("provider", outcome.provider.as_str()));
    meta.push(text_field("question", question));
    meta.push(text_field("trace_id", trace_id));
    meta.push(text_field("trigger", "ask"));
    assert(meta@.map_values(|f: MetaField| f@) =~= seq![
        text_note("provider"@, outcome.provider@),
        text_note("question"@, question@),
        text_note("trace_id"@, trace_id@),
        text_note("trigger"@, "ask"@),
    ]);
    Event {
        kind: "answer",
        speaker: None,
        content: outcome.answer.clone(),
        t_s: state.agent.elapsed_s(now_ns),
        meta: Some(meta),
    }
}

/// What an agent press sends, and what it was made from.
pub struct AgentPress {
    pub request: ChatRequest,
    pub transcript: String,
    pub state_block: String,
    pub transcript_lines: usize,
    /// The local count of the transcript's tokens at the press.
    pub line_tokens: u64,
}

/// An agent press: everything heard so far goes to the model. Without anything
/// heard, or without a credential, it is an error.
pub fn agent_press(state: &AppState) -> (r: Result<AgentPress, AppError>)
    ensures
        ({
            let transcript = agent::transcript_of(state.agent@.lines);
            match r {
                Ok(press) => {
                    &&& transcript.len() > 0
                    &&& state.keys.openai
                    &&& press.transcript@ == transcript
                    &&& press.state_block@ == state.agent@.state_block
                    &&& press.transcript_lines == state.agent@.lines.len()
                    &&& press.line_tokens == state.agent@.line_tokens
                    &&& press.request@ == backend::agent_chat(
                        backend::agent_model(state.brain_model),
                        backend::agent_instructions(state.language),
                        transcript,
                        backend::tail_of(state.agent@.state_block, state.language),
                    )
                },
                Err(e) => if transcript.len() == 0 {
                    e matches AppError::Llm(s) && s@
                        == "nothing transcribed yet — the agent has no context to work from"@
                } else {
                    &&& !state.keys.openai
                    &&& e matches AppError::Llm(s)
                    &&& s@ == "agent mode needs OPENAI_API_KEY (not set)"@
                },
            }
        }),
{
    let (transcript, transcript_lines) = state.agent.transcript_text();
    if transcript.as_str().unicode_len() == 0 {
        return Err(
            AppError::Llm(
                "nothing transcribed yet — the agent has no context to work from".to_owned(),
            ),
        );
    }
    let state_block = state.agent.state_block();
    match backend::agent_request(
        state.keys,
        transcript.as_str(),
        state_block.as_str(),
        state.language,
        state.brain_model,
    ) {
        Ok(request) => Ok(
            AgentPress {
                request,
                transcript,
                state_block,
                transcript_lines,
                line_tokens: state.agent.line_tokens_total(),
            },
        ),
        Err(e) => Err(AppError::Llm(e)),
    }
}

/// An agent press was answered: keep its numbers, and give what is recorded.
/// The reported size of the prompt becomes the anchor of the context meter.
pub fn ask_agent(
    state: &mut AppState,
    outcome: &AgentOutcome,
    line_tokens_at_press: u64,
    trace_id: &str,
    now_ns: u64,
) -> (r: Event)
    ensures
        final(state).metrics.last_provider@ == "agent/"@ + outcome.model@,
        *final(state) == (AppState {
            metrics: Metrics {
                last_llm_ms: outcome.total_ms,
                last_llm_ttft_ms: outcome.ttft_ms,
                last_provider: final(state).metrics.last_provider,
                agent_prompt_tokens: outcome.usage.prompt,
                agent_cached_tokens: outcome.usage.cached,
                agent_completion_tokens: outcome.usage.completion,
                agent_anchor_line_tokens: line_tokens_at_press,
                ..paid(old(state).metrics, outcome.usage)
            },
            ..*old(state)
        }),
        r@ == (storage::EventView {
            kind: "answer"@,
            speaker: None,
            content: outcome.answer@,
            t_s: agent::clock(old(state).agent@, now_ns),
            meta: Some(
                seq![
                    count_note("cached_tokens"@, outcome.usage.cached),
                    count_note("completion_tokens"@, outcome.usage.completion),
                    text_note("model"@, outcome.model@),
                    count_note("prompt_tokens"@, outcome.usage.prompt),
                    text_note("trace_id"@, trace_id@),
                    text_note("trigger"@, "agent"@),
                ],
            ),
        }),
{
    state.metrics.last_llm_ms = outcome.total_ms;
    state.metrics.last_llm_ttft_ms = outcome.ttft_ms;
    state.metrics.agent_prompt_tokens = outcome.usage.prompt;
    state.metrics.agent_cached_tokens = outcome.usage.cached;
    state.metrics.agent_completion_tokens = outcome.usage.completion;
    state.metrics.agent_anchor_line_tokens = line_tokens_at_press;
    state.metrics.add_spend(outcome.usage);
    let mut provider = "agent/".to_owned();
    provider.append(outcome.model.as_str());
    state.metrics.last_provider = provider;
    let mut meta: Vec<MetaField> = Vec::new();
    meta.push(count_field("cached_tokens", outcome.usage.cached));
    meta.push(count_field("completion_tokens", outcome.usage.completion));
    meta.push(text_field("model", outcome.model.as_str()));
    meta.push(count_field("prompt_tokens", outcome.usage.prompt));
    meta.push(text_field("trace_id", trace_id));
    meta.push(text_field("trigger", "agent"));
    assert(meta@.map_values(|f: MetaField| f@) =~= seq![
        count_note("cached_tokens"@, outcome.usage.cached),
        count_note("completion_tokens"@, outcome.usage.completion),
        text_note("model"@, outcome.model@),
        count_note("prompt_tokens"@, outcome.usage.prompt),
        text_note("trace_id"@, trace_id@),
        text_note("trigger"@, "agent"@),
    ]);
    Event {
        kind: "answer",
        speaker: None,
        content: outcome.answer.clone(),
        t_s: state.agent.elapsed_s(now_ns),
        meta: Some(meta),
    }
}

/// What a press was made from, as a file for later study.
pub fn dump_agent_prompt(transcript: &str, state_block: &str) -> (r: String)
    ensures
        r@ == "# transcript\n\n"@ + transcript@ + "\n\n# interview state\n\n"@ + state_block@
            + "\n"@,
{
    let mut out = "# transcript\n\n".to_owned();
    out.append(transcript);
    out.append("\n\n# interview state\n\n");
    out.append(state_block);
    out.append("\n");
    out
}

/// What that file ends with once the answer came.
pub fn append_agent_answer(answer: &str) -> (r: String)
    ensures
        r@ == "\n# answer\n\n"@ + answer@ + "\n"@,
{
    let mut out = "\n# answer\n\n".to_owned();
    out.append(answer);
    out.append("\n");
    out
}

// ── The state of the interview ─────────────────────────────────────────────

/// A new state document, and what it took.
pub struct StateUpdate {
    pub document: String,
    pub usage: TokenUsage,
}

/// A refresh of the interview's state ended: with a new document, or without
/// one where it failed.
pub fn refresh_ended(
    state: &mut AppState,
    update: Option<StateUpdate>,
    covered_upto: u64,
    now_epoch_s: u64,
)
    ensures
        ({
            let (before, after) = (old(state).agent@, final(state).agent@);
            match update {
                Some(u) => {
                    &&& after == (agent::SessionView {
                        in_flight: false,
                        ..agent::state_committed(before, u.document@, covered_upto, now_epoch_s)
                    })
                    &&& final(state).metrics == (Metrics {
                        state_epoch_s: now_epoch_s,
                        ..paid(old(state).metrics, u.usage)
                    })
                },
                None => {
                    &&& after == (agent::SessionView { in_flight: false, ..before })
                    &&& final(state).metrics == old(state).metrics
                },
            }
        }),
        *final(state) == (AppState {
            agent: final(state).agent,
            metrics: final(state).metrics,
            ..*old(state)
        }),
{
    match update {
        Some(u) => {
            state.agent.end_refresh(
                agent::RefreshOutcome::Done(u.document),
                covered_upto,
                now_epoch_s,
            );
            state.metrics.add_spend(u.usage);
            state.metrics.state_epoch_s = now_epoch_s;
        },
        None => {
            state.agent.end_refresh(agent::RefreshOutcome::Failed, covered_upto, now_epoch_s);
        },
    }
}

// ── The panel ──────────────────────────────────────────────────────────────

/// One tick of the debug panel: bring the numbers of the heap, where it is
/// counted, and of the context up to date. Gives the count of ticks over a
/// counted heap, and whether the heap is logged on this one.
pub fn panel_tick(
    state: &mut AppState,
    ticks: u64,
    heap: Option<&CountingAllocator>,
    windows: ContextWindows,
) -> (r: (u64, bool))
    requires
        ticks < u64::MAX,
    ensures
        r.0 == (if heap is Some {
            ticks + 1
        } else {
            ticks as int
        }),
        r.1 == (heap is Some && r.0 % 5 == 0),
        *final(state) == (AppState { metrics: final(state).metrics, ..*old(state) }),
        ({
            let (before, after) = (old(state).metrics, final(state).metrics);
            &&& heap matches Some(h) ==> {
                &&& after.heap_live_bytes == alloc_counter::live_of(h@)
                &&& after.heap_total_allocated_bytes == h@.allocated
                &&& after.heap_peak_live_bytes == h@.peak_live
                &&& after.heap_buckets_live@ == h@.live
                &&& after.heap_buckets_total@ == h@.total
            }
            &&& heap is None ==> {
                &&& after.heap_live_bytes == before.heap_live_bytes
                &&& after.heap_total_allocated_bytes == before.heap_total_allocated_bytes
                &&& after.heap_peak_live_bytes == before.heap_peak_live_bytes
                &&& after.heap_buckets_live == before.heap_buckets_live
                &&& after.heap_buckets_total == before.heap_buckets_total
            }
            &&& context_refreshed(*old(state), after, windows)
            &&& after == (Metrics {
                heap_live_bytes: after.heap_live_bytes,
                heap_total_allocated_bytes: after.heap_total_allocated_bytes,
                heap_peak_live_bytes: after.heap_peak_live_bytes,
                heap_buckets_live: after.heap_buckets_live,
                heap_buckets_total: after.heap_buckets_total,
                context_used_tokens: after.context_used_tokens,
                context_pending_tokens: after.context_pending_tokens,
                context_window_tokens: after.context_window_tokens,
                ..before
            })
        }),
{
    let mut count: u64 = ticks;
    let mut log_heap = false;
    if let Some(h) = heap {
        count = ticks + 1;
        state.metrics.refresh_heap(h);
        log_heap = metrics::heap_log_due(count);
    }
    let anchor = context_meter::Anchor {
        prompt_tokens: state.metrics.agent_prompt_tokens,
        line_tokens: state.metrics.agent_anchor_line_tokens,
    };
    let state_block = state.agent.state_block();
    let window: u64 = backend::context_window(windows, state.brain_model.agent_model_id());
    if let Some(gauge) = context_meter::read_gauge(
        anchor,
        state.agent.line_tokens_total(),
        state.language,
        state_block.as_str(),
        window,
    ) {
        state.metrics.refresh_context(gauge);
    }
    (count, log_heap)
}

/// Whether the numbers show the size of the context and the room in the model
/// that an agent press would use: what the meter reads, or what they showed
/// before where it cannot be read.
pub open spec fn context_refreshed(
    state: AppState,
    after: Metrics,
    windows: ContextWindows,
) -> bool {
    let anchor = context_meter::Anchor {
        prompt_tokens: state.metrics.agent_prompt_tokens,
        line_tokens: state.metrics.agent_anchor_line_tokens,
    };
    let base = if anchor.prompt_tokens > 0 {
        Some(0nat)
    } else {
        context_meter::base_tokens(state.language, state.agent@.state_block)
    };
    let lines = state.agent@.line_tokens;
    if base is Some && context_meter::context_size(anchor, lines, base->0) <= u64::MAX {
        &&& after.context_used_tokens == context_meter::context_size(anchor, lines, base->0)
        &&& after.context_pending_tokens == context_meter::unconfirmed(anchor, lines, base->0)
        &&& after.context_window_tokens == backend::window_of(
            windows,
            backend::agent_model(state.brain_model),
        )
    } else {
        &&& after.context_used_tokens == state.metrics.context_used_tokens
        &&& after.context_pending_tokens == state.metrics.context_pending_tokens
        &&& after.context_window_tokens == state.metrics.context_window_tokens
    }
}

// ── The windows' own log ───────────────────────────────────────────────────

/// How loud a log line is.
#[derive(Clone, Copy, Debug, PartialEq, Eq, Structural)]
pub enum LogLevel {
    Error,
    Warn,
    Info,
    Debug,
}

/// A line that a window logs.
pub struct FrontendLogEntry {
    pub level: String,
    pub event: String,
    pub trace_id: Option<String>,
    pub elapsed_ms: Option<u64>,
    /// Anything else, as JSON.
    pub data: Option<String>,
}

/// The line as it is logged.
pub struct LogLine {
    pub level: LogLevel,
    pub event: String,
    pub trace_id: String,
    pub elapsed_ms: u64,
    pub data: String,
}

/// The level of that name. What is not known is information.
pub open spec fn level_of(name: Seq<char>) -> LogLevel {
    if name == "error"@ {
        LogLevel::Error
    } else if name == "warn"@ {
        LogLevel::Warn
    } else if name == "debug"@ {
        LogLevel::Debug
    } else {
        LogLevel::Info
    }
}

pub fn log_from_frontend(entry: FrontendLogEntry) -> (r: LogLine)
    ensures
        r.level == level_of(entry.level@),
        r.event@ == entry.event@,
        r.trace_id@ == (match entry.trace_id {
            Some(s) => s@,
            None => "-"@,
        }),
        r.elapsed_ms == (match entry.elapsed_ms {
            Some(n) => n,
            None => 0,
        }),
        r.data@ == (match entry.data {
            Some(s) => s@,
            None => "{}"@,
        }),
{
    let name = entry.level.as_str();
    let level = if text::same(name, "error") {
        LogLevel::Error
    } else if text::same(name, "warn") {
        LogLevel::Warn
    } else if text::same(name, "debug") {
        LogLevel::Debug
    } else {
        LogLevel::Info
    };
    LogLine {
        level,
        event: entry.event,
        trace_id: trace_id_or_dash(entry.trace_id),
        elapsed_ms: match entry.elapsed_ms {
            Some(n) => n,
            None => 0,
        },
        data: match entry.data {
            Some(s) => s,
            None => "{}".to_owned(),
        },
    }
}

// ── Laws ───────────────────────────────────────────────────────────────────

/// A setting that names an engine decides; without one the switches do: what is
/// spoken stays on the device exactly where the user wants it there.
pub proof fn settings_decide_who_transcribes(setting: Seq<char>, local: bool, partials: bool)
    ensures
        preference("whisper"@, local, partials) == SttPreference::Whisper,
        preference("sherpa"@, local, partials) == SttPreference::Parakeet,
        preference("parakeet"@, local, partials) == SttPreference::Parakeet,
        preference("streaming"@, local, partials) == SttPreference::Streaming,
        preference("online"@, local, partials) == SttPreference::Streaming,
        setting != "whisper"@ && setting != "sherpa"@ && setting != "parakeet"@ && setting
            != "streaming"@ && setting != "online"@ ==> preference(setting, local, partials) == (if
        !local {
            SttPreference::Cloud
        } else if partials {
            SttPreference::Streaming
        } else {
            SttPreference::Parakeet
        }),
{
    reveal_strlit("whisper");
    reveal_strlit("sherpa");
    reveal_strlit("parakeet");
    reveal_strlit("streaming");
    reveal_strlit("online");
    assert("whisper"@.len() == 7 && "sherpa"@.len() == 6 && "parakeet"@.len() == 8);
    assert("streaming"@.len() == 9 && "online"@.len() == 6);
    assert("sherpa"@[0] == 's' && "online"@[0] == 'o');
}

/// A wish is granted wherever its engine is there; where it is not, or there is
/// no wish, the cloud transcribes before any model on the device.
pub proof fn wishes_are_granted(p: SttPreference, a: SttAvailable)
    ensures
        p == SttPreference::Whisper ==> engine_for(p, a) == SttEngine::LocalWhisper,
        p == SttPreference::Parakeet && a.parakeet ==> engine_for(p, a) == SttEngine::Parakeet,
        p == SttPreference::Streaming && a.streaming ==> engine_for(p, a) == SttEngine::Streaming,
        p == SttPreference::Cloud && a.groq ==> engine_for(p, a) == SttEngine::Groq,
        p == SttPreference::Parakeet && !a.parakeet && a.groq ==> engine_for(p, a)
            == SttEngine::Groq,
        p == SttPreference::Streaming && !a.streaming && a.groq ==> engine_for(p, a)
            == SttEngine::Groq,
        p == SttPreference::Cloud && !a.groq && a.parakeet ==> engine_for(p, a)
            == SttEngine::Parakeet,
        p == SttPreference::Cloud && !a.groq && !a.parakeet && a.streaming ==> engine_for(p, a)
            == SttEngine::Streaming,
        engine_for(p, a) == SttEngine::Groq ==> a.groq,
        engine_for(p, a) == SttEngine::Parakeet ==> a.parakeet,
        engine_for(p, a) == SttEngine::Streaming ==> a.streaming,
{
}

/// One source is heard on the device that was chosen for it; both sides of a
/// call are heard at once, each on its own. All of them run on the one engine
/// and in the one language.
pub proof fn sources_are_heard_on_their_devices(
    source: Option<Seq<char>>,
    device: Option<Seq<char>>,
    engine: SttEngine,
    language: Language,
)
    ensures
        ({
            let plans = plans_for(source, device, engine, language);
            &&& forall|i: int|
                0 <= i < plans.len() ==> (#[trigger] plans[i]).engine == engine && plans[i].language
                    == language
            &&& source == Some("both"@) ==> {
                &&& plans.len() == 2
                &&& plans[0].source == CaptureSource::Loopback && plans[0].speaker == "interviewer"@
                &&& plans[1].source == CaptureSource::Microphone && plans[1].speaker == "me"@
            }
            &&& source == Some("loopback"@) ==> {
                &&& plans.len() == 1
                &&& plans[0].source == CaptureSource::Loopback && plans[0].speaker == "interviewer"@
                &&& plans[0].device == device
            }
            &&& source != Some("both"@) && source != Some("loopback"@) ==> {
                &&& plans.len() == 1
                &&& plans[0].source == CaptureSource::Microphone && plans[0].speaker == "me"@
                &&& plans[0].device == device
            }
        }),
{
    reveal_strlit("both");
    reveal_strlit("loopback");
    assert("both"@.len() == 4 && "loopback"@.len() == 8);
}

/// New screenshots are never lost to those of a description that failed.
pub proof fn queued_screenshots_stay_queued(queue: Seq<String>, imgs: Seq<String>)
    ensures
        queue.len() > 0 ==> put_back(queue, imgs) == queue,
        queue.len() == 0 ==> put_back(queue, imgs) == imgs,
{
}

/// A short apology from the smaller model is put to the stronger one; a long
/// description, or one that does not apologise, is kept, and so is whatever the
/// stronger model says.
pub proof fn refusals_are_put_to_the_stronger_model(job: DescribeJob, said: Seq<char>)
    ensures
        job.refused is None && job.model == VisionModel::Gpt4oMini ==> (wants_retry(job, said)
            <==> text::bytes_in(said) < 200 && backend::apologises(text::lowercase(said))),
        job.model == VisionModel::Gpt55 ==> !wants_retry(job, said) && model_asked(job)
            == VisionModel::Gpt55,
        job.refused is None ==> model_asked(job) == job.model,
{
}

/// What a session spends is the sum of what its calls cost, token by token, and
/// paying changes no other number.
pub proof fn every_call_is_paid_for(before: Metrics, first: TokenUsage, second: TokenUsage)
    requires
        before.total_prompt_tokens + first.prompt + second.prompt <= u64::MAX,
        before.total_cached_tokens + first.cached + second.cached <= u64::MAX,
        before.total_completion_tokens + first.completion + second.completion <= u64::MAX,
    ensures
        ({
            let after = paid(paid(before, first), second);
            &&& after.total_prompt_tokens == before.total_prompt_tokens + first.prompt
                + second.prompt
            &&& after.total_cached_tokens == before.total_cached_tokens + first.cached
                + second.cached
            &&& after.total_completion_tokens == before.total_completion_tokens + first.completion
                + second.completion
            &&& after == (Metrics {
                total_prompt_tokens: after.total_prompt_tokens,
                total_cached_tokens: after.total_cached_tokens,
                total_completion_tokens: after.total_completion_tokens,
                ..before
            })
        }),
{
}

/// A text that is taken in is taken in whole, without the white space around
/// it: it ends the transcript and is recorded as it was said. A blank text
/// changes nothing.
pub proof fn texts_are_taken_in_whole(
    before: agent::SessionView,
    after: agent::SessionView,
    speaker: Seq<char>,
    kind: Seq<char>,
    lead: Seq<char>,
    said: Seq<char>,
    trail: Seq<char>,
    now_ns: u64,
    r: Option<Ingested>,
)
    requires
        forall|i: int| 0 <= i < lead.len() ==> text::white_space(#[trigger] lead[i]),
        forall|i: int| 0 <= i < trail.len() ==> text::white_space(#[trigger] trail[i]),
        said.len() > 0 ==> !text::white_space(said[0]) && !text::white_space(said.last()),
        line_filed(before, after, speaker, kind, lead + said + trail, now_ns, r),
    ensures
        said.len() == 0 ==> r is None && after == before,
        r is None ==> after == before,
        r is Some ==> {
            &&& said.len() > 0
            &&& after.lines.len() == before.lines.len() + 1
            &&& after.lines.drop_last() == before.lines
            &&& after.lines.last().text == said
            &&& after.lines.last().speaker == speaker
            &&& agent::transcript_of(after.lines).skip(
                agent::transcript_of(after.lines).len() - said.len(),
            ) == said
            &&& r->0.event@.content == said
            &&& r->0.event@.kind == kind
            &&& r->0.event@.t_s == after.lines.last().t_s
            &&& r->0.event@.t_s == agent::clock(before, now_ns)
            &&& r->0.wakes_press <==> kind == "transcript"@ && speaker == "interviewer"@
            &&& r->0.refresh_due == agent::refresh_due(after)
            &&& r->0.event@.speaker == (if kind == "transcript"@ {
                Some(speaker)
            } else {
                None
            })
        },
{
    text::trimmed_is_what_stands_between(lead, said, trail);
    if r is Some {
        let t_s = agent::clock(before, now_ns);
        let tokens = context_meter::token_count(agent::line_text(t_s, speaker, said));
        let s = agent::Saying { speaker, said, t_s, tokens: tokens->0 };
        agent::sayings_end_the_transcript(before, s);
        assert(after.lines.drop_last() =~= before.lines);
    }
}

/// A description that is kept is shown whole, remembered whole, and ends the
/// transcript.
pub proof fn descriptions_are_kept_whole(
    before: AppState,
    after: AppState,
    outcome: VisionOutcome,
    now_ns: u64,
    shown: Seq<char>,
    line: Option<Ingested>,
)
    requires
        description_kept(before, after, outcome, now_ns, shown, line),
    ensures
        shown == outcome.text@,
        after.last_description@ == outcome.text@,
        line is Some ==> after.agent@.lines.last().text == text::trimmed(outcome.text@),
        line is Some ==> after.agent@.lines.last().speaker == "screen"@,
        line is Some ==> line->0.event@.kind == "screen"@,
        after.metrics.last_vision_ms == outcome.total_ms,
        after.capture_queue == before.capture_queue,
{
    agent::labels_name_the_source("screen"@);
}

/// The panel shows the context that the next press would send: what the provider
/// told last and what came since, out of the room of the model that runs it.
pub proof fn the_panel_shows_the_next_press(
    state: AppState,
    after: Metrics,
    windows: ContextWindows,
)
    requires
        context_refreshed(state, after, windows),
        state.metrics.agent_prompt_tokens > 0,
        state.metrics.agent_anchor_line_tokens <= state.agent@.line_tokens,
        state.metrics.agent_prompt_tokens + state.agent@.line_tokens <= u64::MAX,
    ensures
        after.context_pending_tokens == state.agent@.line_tokens
            - state.metrics.agent_anchor_line_tokens,
        after.context_used_tokens == state.metrics.agent_prompt_tokens
            + after.context_pending_tokens,
        state.brain_model == BrainModel::Gpt4oMini ==> after.context_window_tokens
            == windows.gpt4o_mini,
        state.brain_model != BrainModel::Gpt4oMini ==> after.context_window_tokens == windows.gpt55,
{
    backend::presses_run_on_the_strong_model(state.brain_model, windows);
}

/// A window's log lines keep the level they name; what names none is
/// information.
pub proof fn levels_are_kept(name: Seq<char>)
    ensures
        level_of("error"@) == LogLevel::Error,
        level_of("warn"@) == LogLevel::Warn,
        level_of("debug"@) == LogLevel::Debug,
        name != "error"@ && name != "warn"@ && name != "debug"@ ==> level_of(name)
            == LogLevel::Info,
{
    reveal_strlit("error");
    reveal_strlit("warn");
    reveal_strlit("debug");
    assert("error"@[0] == 'e' && "warn"@[0] == 'w' && "debug"@[0] == 'd');
}

/// The panel counts each line that is taken in, and its bytes, and nothing else
/// changes with it; a text that is not taken in changes no number.
pub proof fn lines_are_counted(
    before: Metrics,
    after: Metrics,
    session: agent::SessionView,
    taken: bool,
)
    requires
        metrics_after_line(before, after, session, taken),
    ensures
        taken && before.transcript_lines < u64::MAX ==> after.transcript_lines
            == before.transcript_lines + 1,
        taken ==> after.transcript_chars == session.chars_total,
        after == (Metrics {
            transcript_lines: after.transcript_lines,
            transcript_chars: after.transcript_chars,
            ..before
        }),
        !taken ==> after == before,
{
}

} // verus!

//! What the whole program shares.

use vstd::prelude::*;
use crate::agent::AgentSession;
use crate::agent;
use crate::backend::{ApiKeys, BrainModel, VisionModel};
use crate::clipboard::ClipWatch;
use crate::lang::Language;
use crate::metrics;
use crate::metrics::Metrics;

verus! {

pub struct AppState {
    pub is_listening: bool,
    /// The transcript and the interview state.
    pub agent: AgentSession,
    pub metrics: Metrics,
    /// Which credentials there are.
    pub keys: ApiKeys,
    /// The model that describes screenshots.
    pub vision_model: VisionModel,
    /// The model that answers.
    pub brain_model: BrainModel,
    /// The last description of the screen.
    pub last_description: String,
    /// Screenshots that wait to be described, in the order they were taken.
    pub capture_queue: Vec<String>,
    /// The watch over copies.
    pub clip: ClipWatch,
    pub language: Language,
    /// Whether speech is transcribed on the device.
    pub stt_local: bool,
    /// Whether it is then shown while it is spoken.
    pub stt_partials: bool,
}

impl AppState {
    /// The program as it starts at `now_ns`: not listening, cloud transcription
    /// in English, every copy taken in.
    pub fn new(keys: ApiKeys, now_ns: u64) -> (r: Self)
        ensures
            !r.is_listening,
            r.agent@ == agent::fresh(now_ns),
            metrics::zeroed(r.metrics),
            r.keys == keys,
            r.vision_model == VisionModel::Gpt4oMini,
            r.brain_model == BrainModel::Auto,
            r.last_description@ == Seq::<char>::empty(),
            r.capture_queue@ == Seq::<String>::empty(),
            r.clip.enabled,
            !r.clip.suppressed,
            r.clip.last@ == Seq::<char>::empty(),
            r.language == Language::English,
            !r.stt_local,
            r.stt_partials,
    {
        let r = AppState {
            is_listening: false,
            agent: AgentSession::new(now_ns),
            metrics: Metrics::default(),
            keys,
            vision_model: VisionModel::Gpt4oMini,
            brain_model: BrainModel::Auto,
            last_description: String::new(),
            capture_queue: Vec::new(),
            clip: ClipWatch::new(),
            language: Language::English,
            stt_local: false,
            stt_partials: true,
        };
        assert(r.last_description@ =~= Seq::<char>::empty());
        r
    }
}

} // verus!

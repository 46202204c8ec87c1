//! The decisions of the audio pipelines: which device to open, which engine
//! transcribes a chunk, which transcripts are worth showing, and which of them
//! are an echo of the other party.

use vstd::prelude::*;
use crate::text;

verus! {

// ── Devices and sources ────────────────────────────────────────────────────

/// A device the user can pick.
pub struct DeviceInfo {
    pub name: String,
    pub is_default: bool,
}

/// Where to capture audio from.
#[derive(Clone, Copy, Debug, PartialEq, Eq, Structural)]
pub enum CaptureSource {
    /// A microphone: the user's own voice.
    Microphone,
    /// What is playing on an output device: the interviewer's voice.
    Loopback,
}

impl CaptureSource {
    /// `"loopback"` names the loopback; anything else is the microphone.
    pub fn from_opt(s: Option<&str>) -> (r: Self)
        ensures
            r == (if s is Some && s->0@ == "loopback"@ {
                CaptureSource::Loopback
            } else {
                CaptureSource::Microphone
            }),
    {
        match s {
            Some(tag) => if text::same(tag, "loopback") {
                CaptureSource::Loopback
            } else {
                CaptureSource::Microphone
            },
            None => CaptureSource::Microphone,
        }
    }
}

/// The devices with those names, the system's default marked among them. With
/// no default, a device without a name counts as one.
pub fn device_list(names: Vec<String>, default_name: Option<String>) -> (r: Vec<DeviceInfo>)
    ensures
        r@.len() == names@.len(),
        forall|i: int|
            0 <= i < names@.len() ==> (#[trigger] r@[i]).name@ == names@[i]@ && r@[i].is_default
                == (names@[i]@ == (match default_name {
                Some(name) => name@,
                None => seq![],
            })),
{
    let default = match default_name {
        Some(name) => name,
        None => String::new(),
    };
    let mut out: Vec<DeviceInfo> = Vec::new();
    let mut k: usize = 0;
    while k < names.len()
        invariant
            k <= names@.len(),
            out@.len() == k,
            forall|i: int|
                0 <= i < k ==> (#[trigger] out@[i]).name@ == names@[i]@ && out@[i].is_default == (
                names@[i]@ == default@),
        decreases names@.len() - k,
    {
        let name = names[k].clone();
        let is_default = text::same(name.as_str(), default.as_str());
        out.push(DeviceInfo { name, is_default });
        k += 1;
    }
    out
}

/// The device a capture opens.
#[derive(Clone, Copy, Debug, PartialEq, Eq, Structural)]
pub enum DeviceChoice {
    /// The one at this place in the list of devices.
    At(usize),
    /// The system's default.
    SystemDefault,
}

/// The place in the list of the first device with that name, where it has one.
pub open spec fn is_first_named(names: Seq<Option<String>>, wanted: Seq<char>, i: int) -> bool {
    &&& 0 <= i < names.len()
    &&& names[i] is Some && names[i]->0@ == wanted
    &&& forall|j: int| 0 <= j < i ==> !(#[trigger] names[j] is Some && names[j]->0@ == wanted)
}

/// Some device in the list has that name.
pub open spec fn is_named(names: Seq<Option<String>>, wanted: Seq<char>) -> bool {
    exists|i: int| 0 <= i < names.len() && (#[trigger] names[i]) is Some && names[i]->0@ == wanted
}

/// The kind of device that a source opens, as error messages name it.
pub open spec fn direction(source: CaptureSource, capital: bool) -> Seq<char> {
    match (source, capital) {
        (CaptureSource::Loopback, true) => "Output"@,
        (CaptureSource::Loopback, false) => "output"@,
        (CaptureSource::Microphone, true) => "Input"@,
        (CaptureSource::Microphone, false) => "input"@,
    }
}

/// Why no device could be chosen.
pub open spec fn no_device_message(source: CaptureSource, wanted: Option<Seq<char>>) -> Seq<char> {
    match wanted {
        Some(name) => direction(source, true) + " device '"@ + name + "' not found"@,
        None => "No default "@ + direction(source, false) + " device"@,
    }
}

/// The device to open: the first of the wanted name, or the system's default
/// where none is asked for. `names` holds the devices of the right direction,
/// with `None` for one whose name cannot be read.
pub fn choose_device(
    source: CaptureSource,
    wanted: Option<&str>,
    names: &Vec<Option<String>>,
    has_default: bool,
) -> (r: Result<DeviceChoice, String>)
    ensures
        match (wanted, r) {
            (Some(name), Ok(DeviceChoice::At(i))) => is_first_named(names@, name@, i as int),
            (Some(name), Ok(DeviceChoice::SystemDefault)) => false,
            (Some(name), Err(e)) => !is_named(names@, name@) && e@ == no_device_message(
                source,
                Some(name@),
            ),
            (None, Ok(choice)) => has_default && choice == DeviceChoice::SystemDefault,
            (None, Err(e)) => !has_default && e@ == no_device_message(source, None),
        },
{
    let mut message = String::new();
    match wanted {
        Some(name) => {
            let mut k: usize = 0;
            while k < names.len()
                invariant
                    wanted == Some(name),
                    k <= names@.len(),
                    forall|j: int|
                        0 <= j < k ==> !(#[trigger] names@[j] is Some && names@[j]->0@ == name@),
                decreases names@.len() - k,
            {
                if let Some(n) = &names[k] {
                    if text::same(n.as_str(), name) {
                        return Ok(DeviceChoice::At(k));
                    }
                }
                k += 1;
            }
            match source {
                CaptureSource::Loopback => message.append("Output"),
                CaptureSource::Microphone => message.append("Input"),
            }
            message.append(" device '");
            message.append(name);
            message.append("' not found");
            assert(message@ =~= no_device_message(source, Some(name@)));
            Err(message)
        },
        None => {
            if has_default {
                return Ok(DeviceChoice::SystemDefault);
            }
            message.append("No default ");
            match source {
                CaptureSource::Loopback => message.append("output"),
                CaptureSource::Microphone => message.append("input"),
            }
            message.append(" device");
            assert(message@ =~= no_device_message(source, None));
            Err(message)
        },
    }
}

// ── Engines ────────────────────────────────────────────────────────────────

/// Which engine transcribes. The local Whisper model backs up the engines that
/// can fail, so a hiccup never leaves the user without transcription.
#[derive(Clone, Copy, Debug, PartialEq, Eq, Structural)]
pub enum SttEngine {
    /// Whisper in the cloud, at Groq.
    Groq,
    /// Parakeet on the device.
    Parakeet,
    /// On the device: a light online model for partials, Parakeet for finals.
    Streaming,
    /// The local Whisper model alone.
    LocalWhisper,
}

/// The engine's name in the log.
pub open spec fn engine_description(engine: SttEngine) -> Seq<char> {
    match engine {
        SttEngine::Groq => "groq/whisper-large-v3-turbo (+ local fallback)"@,
        SttEngine::Parakeet => "parakeet-tdt-0.6b-v2 via sherpa-onnx (+ local fallback)"@,
        SttEngine::Streaming => "hybrid: streaming partials + parakeet finals (sherpa-onnx)"@,
        SttEngine::LocalWhisper => "whisper-rs local (base.en)"@,
    }
}

impl SttEngine {
    pub fn describe(&self) -> (r: &'static str)
        ensures
            r@ == engine_description(*self),
    {
        match self {
            SttEngine::Groq => "groq/whisper-large-v3-turbo (+ local fallback)",
            SttEngine::Parakeet => "parakeet-tdt-0.6b-v2 via sherpa-onnx (+ local fallback)",
            SttEngine::Streaming => "hybrid: streaming partials + parakeet finals (sherpa-onnx)",
            SttEngine::LocalWhisper => "whisper-rs local (base.en)",
        }
    }
}

/// One end of the echo-cancellation link between two pipelines.
#[derive(Clone, Copy, Debug, PartialEq, Eq, Structural)]
pub enum AecEnd {
    /// The loopback pipeline: its audio is the reference signal.
    Reference,
    /// The microphone pipeline: it receives the reference and cancels it.
    Canceller,
}

// ── One chunk of speech ────────────────────────────────────────────────────

/// A piece of work on the way from a chunk to its text.
#[derive(Clone, Copy, Debug, PartialEq, Eq, Structural)]
pub enum SttStage {
    /// Encode the chunk as a WAV file for the cloud.
    EncodeWav,
    /// Send the WAV file to Groq.
    AskGroq,
    /// Run the local Parakeet model.
    RunParakeet,
    /// Run the local Whisper model.
    RunWhisper,
}

/// What to do with a chunk next.
pub enum ChunkStep {
    /// Run this stage and hand back its outcome.
    Run(SttStage),
    /// Drop the chunk: it is below the energy gate.
    Quiet,
    /// Drop the text: it holds no speech.
    NonSpeech(String),
    /// Give the chunk up with this error.
    Failed(String),
    /// Show this line.
    Line(String),
}

/// `ChunkStep` over plain text.
pub enum ChunkStepView {
    Run(SttStage),
    Quiet,
    NonSpeech(Seq<char>),
    Failed(Seq<char>),
    Line(Seq<char>),
}

impl View for ChunkStep {
    type V = ChunkStepView;

    open spec fn view(&self) -> ChunkStepView {
        match self {
            ChunkStep::Run(stage) => ChunkStepView::Run(*stage),
            ChunkStep::Quiet => ChunkStepView::Quiet,
            ChunkStep::NonSpeech(s) => ChunkStepView::NonSpeech(s@),
            ChunkStep::Failed(s) => ChunkStepView::Failed(s@),
            ChunkStep::Line(s) => ChunkStepView::Line(s@),
        }
    }
}

/// A tag in square brackets without a space in it, which Whisper writes where
/// it hears no speech.
pub open spec fn non_speech_tag(s: Seq<char>) -> bool {
    let t = text::trimmed(s);
    t.len() > 0 && t[0] == '[' && t.last() == ']' && !t.contains(' ')
}

pub fn is_whisper_non_speech_tag(s: &str) -> (r: bool)
    ensures
        r == non_speech_tag(s@),
{
    let t = text::trim(s);
    let n: usize = t.unicode_len();
    n > 0 && t.get_char(0) == '[' && t.get_char(n - 1) == ']' && !text::has_char(t, ' ')
}

/// The stage that a chunk starts with.
pub open spec fn first_stage(engine: SttEngine) -> SttStage {
    match engine {
        SttEngine::Groq => SttStage::EncodeWav,
        SttEngine::Parakeet => SttStage::RunParakeet,
        _ => SttStage::RunWhisper,
    }
}

/// What a stage's outcome leads to: the text of an engine is kept, the failure
/// of an engine that has a backup leads to the backup.
pub open spec fn after_stage(stage: SttStage, outcome: Result<Seq<char>, Seq<char>>) -> ChunkStepView {
    match (stage, outcome) {
        (SttStage::EncodeWav, Ok(_)) => ChunkStepView::Run(SttStage::AskGroq),
        (SttStage::AskGroq, Err(_)) => ChunkStepView::Run(SttStage::RunWhisper),
        (SttStage::RunParakeet, Err(_)) => ChunkStepView::Run(SttStage::RunWhisper),
        (_, Err(e)) => ChunkStepView::Failed(e),
        (_, Ok(heard)) => {
            let line = text::trimmed(heard);
            if line.len() == 0 || non_speech_tag(line) {
                ChunkStepView::NonSpeech(line)
            } else {
                ChunkStepView::Line(line)
            }
        },
    }
}

/// Begin on a chunk that is or is not loud enough to be speech.
pub fn start_chunk(engine: SttEngine, loud: bool) -> (r: ChunkStep)
    ensures
        r@ == (if loud {
            ChunkStepView::Run(first_stage(engine))
        } else {
            ChunkStepView::Quiet
        }),
{
    if !loud {
        return ChunkStep::Quiet;
    }
    match engine {
        SttEngine::Groq => ChunkStep::Run(SttStage::EncodeWav),
        SttEngine::Parakeet => ChunkStep::Run(SttStage::RunParakeet),
        _ => ChunkStep::Run(SttStage::RunWhisper),
    }
}

/// The text of an outcome, or the message of its failure.
pub open spec fn outcome_view(outcome: Result<String, String>) -> Result<Seq<char>, Seq<char>> {
    match outcome {
        Ok(s) => Ok(s@),
        Err(e) => Err(e@),
    }
}

/// Go on after a stage. The text of a stage that produces none is ignored.
pub fn next_step(stage: SttStage, outcome: Result<String, String>) -> (r: ChunkStep)
    ensures
        r@ == after_stage(stage, outcome_view(outcome)),
{
    match stage {
        SttStage::EncodeWav => match outcome {
            Ok(_) => ChunkStep::Run(SttStage::AskGroq),
            Err(e) => ChunkStep::Failed(e),
        },
        SttStage::AskGroq => match outcome {
            Ok(heard) => keep_speech(heard),
            Err(_) => ChunkStep::Run(SttStage::RunWhisper),
        },
        SttStage::RunParakeet => match outcome {
            Ok(heard) => keep_speech(heard),
            Err(_) => ChunkStep::Run(SttStage::RunWhisper),
        },
        SttStage::RunWhisper => match outcome {
            Ok(heard) => keep_speech(heard),
            Err(e) => ChunkStep::Failed(e),
        },
    }
}

fn keep_speech(heard: String) -> (r: ChunkStep)
    ensures
        r@ == after_stage(SttStage::RunWhisper, Ok(heard@)),
{
    let line = text::trim(heard.as_str());
    if line.unicode_len() == 0 || is_whisper_non_speech_tag(line) {
        ChunkStep::NonSpeech(line.to_owned())
    } else {
        ChunkStep::Line(line.to_owned())
    }
}

/// The stages that can still follow a stage.
pub open spec fn stages_left(stage: SttStage) -> nat {
    match stage {
        SttStage::EncodeWav => 2,
        SttStage::AskGroq => 1,
        SttStage::RunParakeet => 1,
        SttStage::RunWhisper => 0,
    }
}

/// Every chunk comes to an end: each stage that follows another has fewer left
/// to follow it.
pub proof fn stages_end(stage: SttStage, outcome: Result<Seq<char>, Seq<char>>)
    ensures
        after_stage(stage, outcome) matches ChunkStepView::Run(next) ==> stages_left(next)
            < stages_left(stage),
{
}

/// The local model backs up the others: a chunk is given up only after Whisper
/// itself failed, or where it could not even be encoded.
pub proof fn whisper_is_the_backup(stage: SttStage, outcome: Result<Seq<char>, Seq<char>>)
    requires
        after_stage(stage, outcome) is Failed,
    ensures
        stage == SttStage::RunWhisper || stage == SttStage::EncodeWav,
{
}

// ── Echoes of the other party ──────────────────────────────────────────────

/// How far back the interviewer's words count as a possible source of echo.
pub const BLEED_WINDOW_NS: u64 = 12_000_000_000;

/// Below this an echo is too ambiguous to drop a line for.
pub const BLEED_MIN_TOKENS: usize = 3;

/// What the interviewer said at some time, as words.
pub struct Heard {
    pub at_ns: u64,
    pub words: Vec<String>,
}

/// `Heard` over plain text.
pub struct HeardView {
    pub at_ns: u64,
    pub words: Seq<Seq<char>>,
}

impl View for Heard {
    type V = HeardView;

    open spec fn view(&self) -> HeardView {
        HeardView { at_ns: self.at_ns, words: text::views(self.words@) }
    }
}

/// Which characters of a text belong to words.
pub open spec fn word_chars(s: Seq<char>) -> Seq<bool> {
    s.map_values(|c: char| text::alphanumeric(c))
}

/// The words of a text: its runs of letters and digits, in lower case.
pub open spec fn tokens_of(s: Seq<char>) -> Seq<Seq<char>> {
    text::runs_of(s, word_chars(s)).map_values(|w: Seq<char>| text::lowercase(w))
}

/// Whether words heard then still count now.
pub open spec fn is_recent(at_ns: u64, now_ns: u64) -> bool {
    now_ns - at_ns <= BLEED_WINDOW_NS
}

/// `history` without the entries at its front that no longer count.
pub open spec fn drop_stale(history: Seq<HeardView>, now_ns: u64) -> Seq<HeardView>
    decreases history.len(),
{
    if history.len() > 0 && !is_recent(history[0].at_ns, now_ns) {
        drop_stale(history.drop_first(), now_ns)
    } else {
        history
    }
}

/// The history after some words were said at `now_ns`. None change nothing.
pub open spec fn after_words(
    history: Seq<HeardView>,
    words: Seq<Seq<char>>,
    now_ns: u64,
) -> Seq<HeardView> {
    if words.len() == 0 {
        history
    } else {
        drop_stale(history.push(HeardView { at_ns: now_ns, words }), now_ns)
    }
}

/// The history after a text is published at `now_ns`.
pub open spec fn published(history: Seq<HeardView>, s: Seq<char>, now_ns: u64) -> Seq<HeardView> {
    after_words(history, tokens_of(s), now_ns)
}

/// Whether the interviewer said that word within the window.
pub open spec fn recently_said(history: Seq<HeardView>, now_ns: u64, word: Seq<char>) -> bool {
    exists|i: int|
        0 <= i < history.len() && is_recent((#[trigger] history[i]).at_ns, now_ns)
            && history[i].words.contains(word)
}

/// How many of the words the interviewer said within the window.
pub open spec fn hits(words: Seq<Seq<char>>, history: Seq<HeardView>, now_ns: u64) -> nat
    decreases words.len(),
{
    if words.len() == 0 {
        0
    } else {
        hits(words.drop_last(), history, now_ns) + (if recently_said(
            history,
            now_ns,
            words.last(),
        ) {
            1nat
        } else {
            0nat
        })
    }
}

/// Words are an echo if there are enough of them and three fifths of them are
/// words that the interviewer said within the window.
pub open spec fn echoed(words: Seq<Seq<char>>, history: Seq<HeardView>, now_ns: u64) -> bool {
    words.len() >= BLEED_MIN_TOKENS && 5 * hits(words, history, now_ns) >= 3 * words.len()
}

/// A text is an echo if its words are.
pub open spec fn echoes(s: Seq<char>, history: Seq<HeardView>, now_ns: u64) -> bool {
    echoed(tokens_of(s), history, now_ns)
}

/// Filters acoustic bleed: with a headset the interviewer's voice leaks into
/// the microphone and would come back as the user's own words. The
/// interviewer's pipeline publishes what it hears, and the microphone's drops
/// what mostly repeats it.
pub struct BleedWindow {
    recent: Vec<Heard>,
}

impl View for BleedWindow {
    type V = Seq<HeardView>;

    /// What was published, oldest first.
    closed spec fn view(&self) -> Seq<HeardView> {
        self.recent@.map_values(|h: Heard| h@)
    }
}

impl Default for BleedWindow {
    fn default() -> (r: Self)
        ensures
            r@ == Seq::<HeardView>::empty(),
    {
        let r = BleedWindow { recent: Vec::new() };
        assert(r@ =~= Seq::<HeardView>::empty());
        r
    }
}

impl BleedWindow {
    /// The words of a text.
    pub fn tokenize(s: &str) -> (r: Vec<String>)
        ensures
            text::views(r@) == tokens_of(s@),
    {
        let cs = text::chars_of(s);
        let mut keep: Vec<bool> = Vec::new();
        let mut k: usize = 0;
        while k < cs.len()
            invariant
                k <= cs@.len(),
                cs@ == s@,
                keep@ == word_chars(s@).take(k as int),
            decreases cs@.len() - k,
        {
            keep.push(text::is_alphanumeric(cs[k]));
            k += 1;
            assert(keep@ =~= word_chars(s@).take(k as int));
        }
        assert(keep@ =~= word_chars(s@));
        let runs = text::runs(s, &keep);
        let mut out: Vec<String> = Vec::new();
        let mut j: usize = 0;
        while j < runs.len()
            invariant
                j <= runs@.len(),
                text::views(runs@) == text::runs_of(s@, word_chars(s@)),
                text::views(out@) == tokens_of(s@).take(j as int),
            decreases runs@.len() - j,
        {
            let ghost so_far = out@;
            let word = text::to_lowercase(runs[j].as_str());
            assert(text::views(runs@)[j as int] == runs@[j as int]@);
            out.push(word);
            j += 1;
            assert(text::views(out@) =~= text::views(so_far).push(word@));
            assert(text::views(out@) =~= tokens_of(s@).take(j as int));
        }
        assert(text::views(out@) =~= tokens_of(s@));
        out
    }

    /// Record what the interviewer is saying at `now_ns`.
    pub fn publish(&mut self, s: &str, now_ns: u64)
        ensures
            final(self)@ == published(old(self)@, s@, now_ns),
    {
        self.publish_words(Self::tokenize(s), now_ns);
    }

    /// Record words that the interviewer is saying at `now_ns`.
    pub fn publish_words(&mut self, words: Vec<String>, now_ns: u64)
        ensures
            final(self)@ == after_words(old(self)@, text::views(words@), now_ns),
    {
        assert(words@.len() == text::views(words@).len());
        if words.len() == 0 {
            return;
        }
        let heard = Heard { at_ns: now_ns, words };
        self.recent.push(heard);
        assert(self@ =~= old(self)@.push(heard@));
        let ghost target = drop_stale(self@, now_ns);
        while self.recent.len() > 0 && now_ns.saturating_sub(self.recent[0].at_ns)
            > BLEED_WINDOW_NS
            invariant
                drop_stale(self@, now_ns) == target,
                self@.len() == self.recent@.len(),
            ensures
                self@ == target,
            decreases self.recent@.len(),
        {
            let ghost before = self@;
            assert(before[0].at_ns == self.recent@[0].at_ns);
            let _ = self.recent.remove(0);
            assert(self@ =~= before.drop_first());
        }
    }

    /// Is `s` mostly an echo of the interviewer's recent words?
    pub fn is_bleed(&self, s: &str, now_ns: u64) -> (r: bool)
        ensures
            r == echoes(s@, self@, now_ns),
    {
        let words = Self::tokenize(s);
        self.is_echo(&words, now_ns)
    }

    /// Are these words mostly an echo of the interviewer's recent words?
    pub fn is_echo(&self, words: &Vec<String>, now_ns: u64) -> (r: bool)
        ensures
            r == echoed(text::views(words@), self@, now_ns),
    {
        let ghost tokens = text::views(words@);
        assert(words@.len() == tokens.len());
        if words.len() < BLEED_MIN_TOKENS {
            return false;
        }
        let mut count: usize = 0;
        let mut k: usize = 0;
        assert(tokens.take(0) =~= seq![]);
        while k < words.len()
            invariant
                k <= words@.len(),
                count <= k,
                text::views(words@) == tokens,
                count == hits(tokens.take(k as int), self@, now_ns),
            decreases words@.len() - k,
        {
            let said = self.recently(words[k].as_str(), now_ns);
            assert(tokens[k as int] == words@[k as int]@);
            assert(tokens.take(k + 1).drop_last() =~= tokens.take(k as int));
            if said {
                count += 1;
            }
            k += 1;
        }
        assert(tokens.take(k as int) =~= tokens);
        5 * count as u128 >= 3 * words.len() as u128
    }

    fn recently(&self, word: &str, now_ns: u64) -> (r: bool)
        ensures
            r == recently_said(self@, now_ns, word@),
    {
        let mut i: usize = 0;
        while i < self.recent.len()
            invariant
                i <= self.recent@.len(),
                forall|a: int|
                    0 <= a < i ==> !(is_recent((#[trigger] self@[a]).at_ns, now_ns)
                        && self@[a].words.contains(word@)),
            decreases self.recent@.len() - i,
        {
            let entry = &self.recent[i];
            assert(self@[i as int] == entry@);
            if now_ns.saturating_sub(entry.at_ns) <= BLEED_WINDOW_NS {
                let mut j: usize = 0;
                while j < entry.words.len()
                    invariant
                        j <= entry.words@.len(),
                        i < self.recent@.len(),
                        *entry == self.recent@[i as int],
                        self@[i as int] == entry@,
                        is_recent(entry.at_ns, now_ns),
                        forall|b: int|
                            0 <= b < j ==> (#[trigger] text::views(entry.words@)[b]) != word@,
                    decreases entry.words@.len() - j,
                {
                    if text::same(entry.words[j].as_str(), word) {
                        assert(text::views(entry.words@)[j as int] == word@);
                        assert(self@[i as int].words.contains(word@));
                        return true;
                    }
                    j += 1;
                }
                assert(!self@[i as int].words.contains(word@));
            }
            i += 1;
        }
        false
    }
}

/// Without anything published within the window, nothing is taken for an echo.
pub proof fn echoes_need_a_source(s: Seq<char>, history: Seq<HeardView>, now_ns: u64)
    requires
        forall|i: int|
            0 <= i < history.len() ==> !is_recent((#[trigger] history[i]).at_ns, now_ns),
    ensures
        !echoes(s, history, now_ns),
{
    lemma_no_hits(tokens_of(s), history, now_ns);
}

proof fn lemma_no_hits(words: Seq<Seq<char>>, history: Seq<HeardView>, now_ns: u64)
    requires
        forall|i: int|
            0 <= i < history.len() ==> !is_recent((#[trigger] history[i]).at_ns, now_ns),
    ensures
        hits(words, history, now_ns) == 0,
    decreases words.len(),
{
    if words.len() > 0 {
        lemma_no_hits(words.drop_last(), history, now_ns);
    }
}

/// What the interviewer is saying is recognised at once: a text of three words
/// or more is an echo of itself from the moment it is published until the
/// window closes.
pub proof fn published_text_is_an_echo(
    history: Seq<HeardView>,
    s: Seq<char>,
    published_ns: u64,
    now_ns: u64,
)
    requires
        tokens_of(s).len() >= BLEED_MIN_TOKENS,
        is_recent(published_ns, now_ns),
    ensures
        echoes(s, published(history, s, published_ns), now_ns),
{
    let entry = HeardView { at_ns: published_ns, words: tokens_of(s) };
    let after = published(history, s, published_ns);
    lemma_stale_keeps_last(history.push(entry), published_ns);
    assert(after[after.len() - 1] == entry);
    lemma_all_hit(tokens_of(s), tokens_of(s).len() as int, after, now_ns);
    assert(tokens_of(s).take(tokens_of(s).len() as int) =~= tokens_of(s));
}

proof fn lemma_stale_keeps_last(history: Seq<HeardView>, now_ns: u64)
    requires
        history.len() > 0,
        is_recent(history.last().at_ns, now_ns),
    ensures
        drop_stale(history, now_ns).len() > 0,
        drop_stale(history, now_ns).last() == history.last(),
    decreases history.len(),
{
    if !is_recent(history[0].at_ns, now_ns) {
        lemma_stale_keeps_last(history.drop_first(), now_ns);
    }
}

proof fn lemma_all_hit(words: Seq<Seq<char>>, k: int, history: Seq<HeardView>, now_ns: u64)
    requires
        history.len() > 0,
        history.last().words == words,
        is_recent(history.last().at_ns, now_ns),
        0 <= k <= words.len(),
    ensures
        hits(words.take(k), history, now_ns) == k,
    decreases k,
{
    if k > 0 {
        lemma_all_hit(words, k - 1, history, now_ns);
        assert(words.take(k).drop_last() =~= words.take(k - 1));
        assert(words[k - 1] == words.take(k).last());
        assert(history[history.len() - 1].words.contains(words[k - 1]));
    }
}

/// What an engine heard is shown whole: whatever white space stands around it,
/// the line is the text between, unless that is a tag for no speech.
pub proof fn speech_is_shown_whole(
    stage: SttStage,
    before: Seq<char>,
    core: Seq<char>,
    after: Seq<char>,
)
    requires
        stage != SttStage::EncodeWav,
        forall|i: int| 0 <= i < before.len() ==> text::white_space(#[trigger] before[i]),
        forall|i: int| 0 <= i < after.len() ==> text::white_space(#[trigger] after[i]),
        core.len() > 0 ==> !text::white_space(core[0]) && !text::white_space(core.last()),
    ensures
        after_stage(stage, Ok(before + core + after)) == (if core.len() == 0 || (core[0] == '['
            && core.last() == ']' && !core.contains(' ')) {
            ChunkStepView::NonSpeech(core)
        } else {
            ChunkStepView::Line(core)
        }),
{
    text::trimmed_is_what_stands_between(before, core, after);
    let none = Seq::<char>::empty();
    text::trimmed_is_what_stands_between(none, core, none);
    assert(none + core + none =~= core);
}

/// A failure is never hidden and never final too soon: the engines that have a
/// backup hand the chunk on to it, and the error of the last is passed on as it
/// is.
pub proof fn failures_lead_to_the_backup(stage: SttStage, error: Seq<char>)
    ensures
        after_stage(stage, Err(error)) == (match stage {
            SttStage::AskGroq => ChunkStepView::Run(SttStage::RunWhisper),
            SttStage::RunParakeet => ChunkStepView::Run(SttStage::RunWhisper),
            _ => ChunkStepView::Failed(error),
        }),
        after_stage(SttStage::EncodeWav, Ok(error)) == ChunkStepView::Run(SttStage::AskGroq),
{
}

/// Whether the interviewer said a word no more than twelve seconds before.
pub open spec fn said_within_twelve_seconds(
    history: Seq<HeardView>,
    now_ns: u64,
    word: Seq<char>,
) -> bool {
    exists|k: int|
        0 <= k < history.len() && now_ns - (#[trigger] history[k]).at_ns <= 12_000_000_000
            && history[k].words.contains(word)
}

/// The places of a line that hold a word which the interviewer said within the
/// window.
pub open spec fn repeated_places(
    words: Seq<Seq<char>>,
    history: Seq<HeardView>,
    now_ns: u64,
) -> Set<int> {
    Set::new(
        |i: int| 0 <= i < words.len() && said_within_twelve_seconds(history, now_ns, words[i]),
    )
}

proof fn lemma_repeated_places(words: Seq<Seq<char>>, history: Seq<HeardView>, now_ns: u64)
    ensures
        repeated_places(words, history, now_ns).finite(),
        repeated_places(words, history, now_ns).len() == hits(words, history, now_ns),
    decreases words.len(),
{
    let all = repeated_places(words, history, now_ns);
    if words.len() == 0 {
        assert(all =~= Set::<int>::empty());
    } else {
        let shorter = words.drop_last();
        let last = words.len() - 1;
        let before = repeated_places(shorter, history, now_ns);
        lemma_repeated_places(shorter, history, now_ns);
        assert(!before.contains(last));
        assert(said_within_twelve_seconds(history, now_ns, words[last]) == recently_said(
            history,
            now_ns,
            words.last(),
        ));
        assert forall|i: int| 0 <= i < last implies shorter[i] == words[i] by {}
        if recently_said(history, now_ns, words.last()) {
            assert(all =~= before.insert(last));
        } else {
            assert(all =~= before);
        }
    }
}

/// Only a line that mostly repeats the interviewer is dropped: words are an echo
/// exactly where there are three or more and at least three fifths of their
/// places hold a word that the interviewer said in the last twelve seconds. A
/// line most of whose words are the user's own is kept, however long it is.
pub proof fn echoes_mostly_repeat_the_interviewer(
    words: Seq<Seq<char>>,
    history: Seq<HeardView>,
    now_ns: u64,
)
    ensures
        repeated_places(words, history, now_ns).finite(),
        echoed(words, history, now_ns) <==> words.len() >= 3 && 5 * repeated_places(
            words,
            history,
            now_ns,
        ).len() >= 3 * words.len(),
{
    lemma_repeated_places(words, history, now_ns);
}

/// The user's own words are kept: a line without a word that the interviewer
/// said in the window is never taken for an echo, and neither is a text whose
/// words are not.
pub proof fn own_words_are_kept(s: Seq<char>, history: Seq<HeardView>, now_ns: u64)
    requires
        5 * repeated_places(tokens_of(s), history, now_ns).len() < 3 * tokens_of(s).len()
            || tokens_of(s).len() < 3,
    ensures
        !echoes(s, history, now_ns),
{
    echoes_mostly_repeat_the_interviewer(tokens_of(s), history, now_ns);
}

proof fn lemma_drop_stale_is_end(history: Seq<HeardView>, now_ns: u64)
    ensures
        drop_stale(history, now_ns).len() <= history.len(),
        drop_stale(history, now_ns) == history.skip(
            history.len() - drop_stale(history, now_ns).len(),
        ),
        forall|i: int|
            0 <= i < history.len() - drop_stale(history, now_ns).len() ==> now_ns - (
            #[trigger] history[i]).at_ns > 12_000_000_000,
    decreases history.len(),
{
    if history.len() > 0 && !is_recent(history[0].at_ns, now_ns) {
        let rest = history.drop_first();
        lemma_drop_stale_is_end(rest, now_ns);
        let n = history.len() - drop_stale(history, now_ns).len();
        assert(rest.skip(n - 1) =~= history.skip(n));
        assert forall|i: int| 0 <= i < n implies now_ns - (#[trigger] history[i]).at_ns
            > 12_000_000_000 by {
            if i > 0 {
                assert(history[i] == rest[i - 1]);
            }
        }
    } else {
        assert(history.skip(0) =~= history);
    }
}

/// Publishing forgets nothing that still counts: at that moment and at any later
/// one a word was said within the window exactly if it was said so before or is
/// one of the new words and they still count.
pub proof fn publishing_forgets_nothing_that_counts(
    history: Seq<HeardView>,
    words: Seq<Seq<char>>,
    now_ns: u64,
    later_ns: u64,
    word: Seq<char>,
)
    requires
        now_ns <= later_ns,
    ensures
        said_within_twelve_seconds(after_words(history, words, now_ns), later_ns, word) <==> (
        said_within_twelve_seconds(history, later_ns, word) || (words.contains(word) && later_ns
            - now_ns <= 12_000_000_000)),
{
    let entry = HeardView { at_ns: now_ns, words };
    let all = history.push(entry);
    let after = after_words(history, words, now_ns);
    if words.len() > 0 {
        lemma_drop_stale_is_end(all, now_ns);
        let n = all.len() - after.len();
        if said_within_twelve_seconds(after, later_ns, word) {
            let k = choose|k: int|
                0 <= k < after.len() && later_ns - (#[trigger] after[k]).at_ns <= 12_000_000_000
                    && after[k].words.contains(word);
            assert(after[k] == all[k + n]);
            if k + n < history.len() {
                assert(history[k + n] == after[k]);
            }
        }
        if said_within_twelve_seconds(history, later_ns, word) {
            let k = choose|k: int|
                0 <= k < history.len() && later_ns - (#[trigger] history[k]).at_ns
                    <= 12_000_000_000 && history[k].words.contains(word);
            assert(all[k] == history[k]);
            assert(after[k - n] == all[k]);
        }
        if words.contains(word) && later_ns - now_ns <= 12_000_000_000 {
            let k = history.len() as int;
            assert(all[k] == entry);
            assert(after[k - n] == entry);
        }
    }
}

/// The words of a text hold every letter and digit of it, in order, in lower
/// case, and no word is empty.
pub proof fn words_hold_every_letter(s: Seq<char>)
    ensures
        ({
            let marks = Seq::new(s.len(), |i: int| text::alphanumeric(s[i]));
            let runs = text::runs_of(s, marks);
            &&& tokens_of(s).len() == runs.len()
            &&& forall|i: int|
                0 <= i < runs.len() ==> (#[trigger] tokens_of(s)[i]) == text::lowercase(runs[i])
            &&& runs.flatten() == text::marked(s, marks)
            &&& forall|i: int| 0 <= i < runs.len() ==> (#[trigger] runs[i]).len() > 0
        }),
{
    let marks = Seq::new(s.len(), |i: int| text::alphanumeric(s[i]));
    assert(word_chars(s) =~= marks);
    text::runs_hold_what_is_marked(s, marks);
}

/// Each engine begins a chunk with its own work: the cloud with the file that
/// goes up, the model on the device with the audio itself.
pub proof fn engines_begin_with_their_own_work()
    ensures
        first_stage(SttEngine::Groq) == SttStage::EncodeWav,
        first_stage(SttEngine::Parakeet) == SttStage::RunParakeet,
        first_stage(SttEngine::LocalWhisper) == SttStage::RunWhisper,
        first_stage(SttEngine::Streaming) == SttStage::RunWhisper,
{
}

/// A device that is asked for and not there is named in the error, with its
/// direction.
pub proof fn missing_devices_are_named(name: Seq<char>)
    ensures
        no_device_message(CaptureSource::Loopback, Some(name)) == "Output"@ + " device '"@ + name
            + "' not found"@,
        no_device_message(CaptureSource::Microphone, Some(name)) == "Input"@ + " device '"@ + name
            + "' not found"@,
{
}

/// The device of a name is the first that bears it: there is one such place
/// exactly where the name is borne at all.
pub proof fn names_lead_to_one_device(
    names: Seq<Option<String>>,
    wanted: Seq<char>,
    i: int,
    j: int,
)
    requires
        is_first_named(names, wanted, i),
        0 <= j < names.len(),
        names[j] is Some && names[j]->0@ == wanted,
    ensures
        i <= j,
        names[i] is Some && names[i]->0@ == wanted,
        is_named(names, wanted),
{
    if j < i {
        assert(!(names[j] is Some && names[j]->0@ == wanted));
    }
}

} // verus!

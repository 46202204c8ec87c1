//! Requests to the answering and describing models, and the order in which
//! providers are tried.
//!
//! Answering goes down a chain of providers, fastest first. A provider is
//! committed to once its first token arrives; a failure before that moves on to
//! the next.

use vstd::prelude::*;
use crate::json;
use crate::lang::Language;
use crate::prompts;
use crate::prompts::{
    AGENT_SYS_EN, AGENT_SYS_ES, GROQ_URL, OPENAI_URL, STATE_MODEL, STATE_SYS, SYSTEM_PROMPT_EN,
    SYSTEM_PROMPT_ES, VISION_SYS_EN, VISION_SYS_ES,
};
use crate::sse;
use crate::sse::TokenUsage;
use crate::text;

verus! {

/// Time to the first token of an answer, in seconds, before the next provider
/// is tried.
pub const FIRST_TOKEN_TIMEOUT_S: u64 = 4;

/// Time to the first token of a description.
pub const VISION_FIRST_TOKEN_TIMEOUT_S: u64 = 25;

/// Time to the first token of an agent's answer.
pub const AGENT_FIRST_TOKEN_TIMEOUT_S: u64 = 25;

/// Time for a refresh of the interview state.
pub const STATE_TIMEOUT_S: u64 = 45;

/// Output ceilings, in tokens.
pub const ANSWER_MAX_OUT: u32 = 500;

pub const VISION_MAX_OUT: u32 = 2500;

pub const AGENT_MAX_OUT: u32 = 1200;

pub const STATE_MAX_OUT: u32 = 900;

/// What a reasoning model may think on top of its answer, in tokens.
pub const REASONING_HEADROOM: u32 = 1024;

pub const AGENT_REASONING_HEADROOM: u32 = 2048;

// ── Wording ────────────────────────────────────────────────────────────────

/// The instructions for answers.
pub open spec fn answer_system(language: Language) -> Seq<char> {
    match language {
        Language::English => SYSTEM_PROMPT_EN@,
        Language::Spanish => SYSTEM_PROMPT_ES@,
    }
}

pub fn system_prompt(language: Language) -> (r: &'static str)
    ensures
        r@ == answer_system(language),
{
    match language {
        Language::English => SYSTEM_PROMPT_EN,
        Language::Spanish => SYSTEM_PROMPT_ES,
    }
}

/// The instructions for descriptions.
pub open spec fn description_system(language: Language) -> Seq<char> {
    match language {
        Language::English => VISION_SYS_EN@,
        Language::Spanish => VISION_SYS_ES@,
    }
}

pub fn vision_system(language: Language) -> (r: &'static str)
    ensures
        r@ == description_system(language),
{
    match language {
        Language::English => VISION_SYS_EN,
        Language::Spanish => VISION_SYS_ES,
    }
}

/// The instructions for the agent.
pub open spec fn agent_instructions(language: Language) -> Seq<char> {
    match language {
        Language::English => AGENT_SYS_EN@,
        Language::Spanish => AGENT_SYS_ES@,
    }
}

pub fn agent_system(language: Language) -> (r: &'static str)
    ensures
        r@ == agent_instructions(language),
{
    match language {
        Language::English => AGENT_SYS_EN,
        Language::Spanish => AGENT_SYS_ES,
    }
}

/// The interview state as the agent is shown it: nothing where there is none.
pub open spec fn state_section(state_block: Seq<char>, language: Language) -> Seq<char> {
    if state_block.len() == 0 {
        seq![]
    } else {
        match language {
            Language::English => prompts::STATE_HEADER_EN@ + state_block + prompts::STATE_FOOTER_EN@,
            Language::Spanish => prompts::STATE_HEADER_ES@ + state_block + prompts::STATE_FOOTER_ES@,
        }
    }
}

/// The end of the agent's prompt: the interview state, framed as reference
/// only, and the request for help.
pub open spec fn tail_of(state_block: Seq<char>, language: Language) -> Seq<char> {
    state_section(state_block, language) + (match language {
        Language::English => prompts::HELP_REQUEST_EN@,
        Language::Spanish => prompts::HELP_REQUEST_ES@,
    })
}

pub fn agent_tail(state_block: &str, language: Language) -> (r: String)
    ensures
        r@ == tail_of(state_block@, language),
{
    let mut out = String::new();
    if state_block.unicode_len() > 0 {
        match language {
            Language::English => {
                out.append(prompts::STATE_HEADER_EN);
                out.append(state_block);
                out.append(prompts::STATE_FOOTER_EN);
            },
            Language::Spanish => {
                out.append(prompts::STATE_HEADER_ES);
                out.append(state_block);
                out.append(prompts::STATE_FOOTER_ES);
            },
        }
    }
    assert(out@ =~= state_section(state_block@, language));
    match language {
        Language::English => out.append(prompts::HELP_REQUEST_EN),
        Language::Spanish => out.append(prompts::HELP_REQUEST_ES),
    }
    out
}

/// What is asked of the screenshots. Several are described one by one.
pub open spec fn shots_instruction(language: Language, shots: nat) -> Seq<char> {
    match language {
        Language::English => if shots <= 1 {
            prompts::VISION_ONE_EN@
        } else {
            prompts::VISION_MANY_EN@
        },
        Language::Spanish => if shots <= 1 {
            prompts::VISION_ONE_ES@
        } else {
            prompts::VISION_MANY_ES@
        },
    }
}

pub fn vision_instruction(language: Language, shots: usize) -> (r: &'static str)
    ensures
        r@ == shots_instruction(language, shots as nat),
{
    match language {
        Language::English => if shots <= 1 {
            prompts::VISION_ONE_EN
        } else {
            prompts::VISION_MANY_EN
        },
        Language::Spanish => if shots <= 1 {
            prompts::VISION_ONE_ES
        } else {
            prompts::VISION_MANY_ES
        },
    }
}

/// The question as the brain is asked it, with the recent transcript around it
/// where there is any.
pub open spec fn question_prompt(
    question: Seq<char>,
    context: Seq<char>,
    language: Language,
) -> Seq<char> {
    if context.len() == 0 {
        question
    } else {
        match language {
            Language::English => prompts::CONTEXT_INTRO_EN@ + context + prompts::ASKED_EN@
                + question + prompts::ANSWER_PLEASE_EN@,
            Language::Spanish => prompts::CONTEXT_INTRO_ES@ + context + prompts::ASKED_ES@
                + question + prompts::ANSWER_PLEASE_ES@,
        }
    }
}

pub fn build_user(question: &str, context: &str, language: Language) -> (r: String)
    ensures
        r@ == question_prompt(question@, context@, language),
{
    if context.unicode_len() == 0 {
        return question.to_owned();
    }
    let mut out = String::new();
    match language {
        Language::English => {
            out.append(prompts::CONTEXT_INTRO_EN);
            out.append(context);
            out.append(prompts::ASKED_EN);
            out.append(question);
            out.append(prompts::ANSWER_PLEASE_EN);
        },
        Language::Spanish => {
            out.append(prompts::CONTEXT_INTRO_ES);
            out.append(context);
            out.append(prompts::ASKED_ES);
            out.append(question);
            out.append(prompts::ANSWER_PLEASE_ES);
        },
    }
    assert(out@ =~= question_prompt(question@, context@, language));
    out
}

/// What the state keeper is given: its last document and the new lines.
pub open spec fn state_prompt(prev: Seq<char>, delta: Seq<char>) -> Seq<char> {
    "Previous state document:\n"@ + (if prev.len() == 0 {
        prompts::NO_STATE_YET@
    } else {
        prev
    }) + "\n\nNew transcript lines:\n"@ + delta
}

// ── Models ─────────────────────────────────────────────────────────────────

/// The model that describes the screen.
#[derive(Clone, Copy, Debug, PartialEq, Eq, Structural)]
pub enum VisionModel {
    Gpt4oMini,
    Gpt55,
}

impl Default for VisionModel {
    fn default() -> (r: Self)
        ensures
            r == VisionModel::Gpt4oMini,
    {
        VisionModel::Gpt4oMini
    }
}

/// The name of a describing model at its provider.
pub open spec fn vision_model_id(model: VisionModel) -> Seq<char> {
    match model {
        VisionModel::Gpt4oMini => "gpt-4o-mini"@,
        VisionModel::Gpt55 => "gpt-5.5"@,
    }
}

/// The tag of a describing model in the UI.
pub open spec fn vision_tag(model: VisionModel) -> Seq<char> {
    match model {
        VisionModel::Gpt4oMini => "gpt_4o_mini"@,
        VisionModel::Gpt55 => "gpt_5_5"@,
    }
}

/// The describing model that a tag or a name stands for.
pub open spec fn vision_model_of(tag: Seq<char>) -> Option<VisionModel> {
    if tag == "gpt_4o_mini"@ || tag == "gpt-4o-mini"@ {
        Some(VisionModel::Gpt4oMini)
    } else if tag == "gpt_5_5"@ || tag == "gpt-5.5"@ {
        Some(VisionModel::Gpt55)
    } else {
        None
    }
}

impl VisionModel {
    pub fn model_id(self) -> (r: &'static str)
        ensures
            r@ == vision_model_id(self),
    {
        match self {
            VisionModel::Gpt4oMini => "gpt-4o-mini",
            VisionModel::Gpt55 => "gpt-5.5",
        }
    }

    pub fn tag(self) -> (r: &'static str)
        ensures
            r@ == vision_tag(self),
    {
        match self {
            VisionModel::Gpt4oMini => "gpt_4o_mini",
            VisionModel::Gpt55 => "gpt_5_5",
        }
    }

    pub fn from_tag(tag: &str) -> (r: Option<Self>)
        ensures
            r == vision_model_of(tag@),
    {
        if text::same(tag, "gpt_4o_mini") || text::same(tag, "gpt-4o-mini") {
            Some(VisionModel::Gpt4oMini)
        } else if text::same(tag, "gpt_5_5") || text::same(tag, "gpt-5.5") {
            Some(VisionModel::Gpt55)
        } else {
            None
        }
    }
}

/// Reading back what was written: the tag and the name of a describing model
/// both stand for it.
pub proof fn vision_tags_name_their_model(model: VisionModel)
    ensures
        vision_model_of(vision_tag(model)) == Some(model),
        vision_model_of(vision_model_id(model)) == Some(model),
{
    reveal_strlit("gpt_4o_mini");
    reveal_strlit("gpt-4o-mini");
    reveal_strlit("gpt_5_5");
    reveal_strlit("gpt-5.5");
    assert("gpt_5_5"@.len() == 7 && "gpt-5.5"@.len() == 7);
    assert("gpt_4o_mini"@.len() == 11 && "gpt-4o-mini"@.len() == 11);
}

/// The model that answers. `Auto` is the chain of providers.
#[derive(Clone, Copy, Debug, PartialEq, Eq, Structural)]
pub enum BrainModel {
    Auto,
    Gpt4oMini,
    Gpt55,
}

impl Default for BrainModel {
    fn default() -> (r: Self)
        ensures
            r == BrainModel::Auto,
    {
        BrainModel::Auto
    }
}

/// The tag of an answering model in the UI.
pub open spec fn brain_tag(model: BrainModel) -> Seq<char> {
    match model {
        BrainModel::Auto => "auto"@,
        BrainModel::Gpt4oMini => "gpt_4o_mini"@,
        BrainModel::Gpt55 => "gpt_5_5"@,
    }
}

/// The answering model that a tag or a name stands for.
pub open spec fn brain_model_of(tag: Seq<char>) -> Option<BrainModel> {
    if tag == "auto"@ {
        Some(BrainModel::Auto)
    } else if tag == "gpt_4o_mini"@ || tag == "gpt-4o-mini"@ {
        Some(BrainModel::Gpt4oMini)
    } else if tag == "gpt_5_5"@ || tag == "gpt-5.5"@ {
        Some(BrainModel::Gpt55)
    } else {
        None
    }
}

/// The model that an agent press runs on: a strong one, unless the small one
/// is pinned.
pub open spec fn agent_model(brain: BrainModel) -> Seq<char> {
    match brain {
        BrainModel::Gpt4oMini => "gpt-4o-mini"@,
        _ => "gpt-5.5"@,
    }
}

/// A model at a provider.
#[derive(Clone, Copy, Debug)]
pub struct Provider {
    /// How metrics and logs name it.
    pub name: &'static str,
    pub url: &'static str,
    pub model: &'static str,
    /// The name of the credential that it takes.
    pub key_env: &'static str,
}

/// `Provider` over plain text.
pub struct ProviderView {
    pub name: Seq<char>,
    pub url: Seq<char>,
    pub model: Seq<char>,
    pub key_env: Seq<char>,
}

impl View for Provider {
    type V = ProviderView;

    open spec fn view(&self) -> ProviderView {
        ProviderView {
            name: self.name@,
            url: self.url@,
            model: self.model@,
            key_env: self.key_env@,
        }
    }
}

pub open spec fn groq_small() -> ProviderView {
    ProviderView {
        name: "groq/llama-3.1-8b-instant"@,
        url: GROQ_URL@,
        model: "llama-3.1-8b-instant"@,
        key_env: "GROQ_API_KEY"@,
    }
}

pub open spec fn groq_large() -> ProviderView {
    ProviderView {
        name: "groq/llama-3.3-70b-versatile"@,
        url: GROQ_URL@,
        model: "llama-3.3-70b-versatile"@,
        key_env: "GROQ_API_KEY"@,
    }
}

pub open spec fn openai_small() -> ProviderView {
    ProviderView {
        name: "openai/gpt-4o-mini"@,
        url: OPENAI_URL@,
        model: "gpt-4o-mini"@,
        key_env: "OPENAI_API_KEY"@,
    }
}

pub open spec fn openai_large() -> ProviderView {
    ProviderView {
        name: "openai/gpt-5.5"@,
        url: OPENAI_URL@,
        model: "gpt-5.5"@,
        key_env: "OPENAI_API_KEY"@,
    }
}

/// The providers of an answering model in the order they are tried: for the
/// chain the fastest first and another company last.
pub open spec fn providers_of(brain: BrainModel) -> Seq<ProviderView> {
    match brain {
        BrainModel::Auto => seq![groq_small(), groq_large(), openai_small()],
        BrainModel::Gpt4oMini => seq![openai_small()],
        BrainModel::Gpt55 => seq![openai_large()],
    }
}

/// The views of some providers.
pub open spec fn provider_views(v: Seq<Provider>) -> Seq<ProviderView> {
    v.map_values(|p: Provider| p@)
}

impl BrainModel {
    pub fn providers(self) -> (r: Vec<Provider>)
        ensures
            provider_views(r@) == providers_of(self),
    {
        let small = Provider {
            name: "openai/gpt-4o-mini",
            url: OPENAI_URL,
            model: "gpt-4o-mini",
            key_env: "OPENAI_API_KEY",
        };
        let mut out: Vec<Provider> = Vec::new();
        match self {
            BrainModel::Auto => {
                out.push(
                    Provider {
                        name: "groq/llama-3.1-8b-instant",
                        url: GROQ_URL,
                        model: "llama-3.1-8b-instant",
                        key_env: "GROQ_API_KEY",
                    },
                );
                out.push(
                    Provider {
                        name: "groq/llama-3.3-70b-versatile",
                        url: GROQ_URL,
                        model: "llama-3.3-70b-versatile",
                        key_env: "GROQ_API_KEY",
                    },
                );
                out.push(small);
            },
            BrainModel::Gpt4oMini => {
                out.push(small);
            },
            BrainModel::Gpt55 => {
                out.push(
                    Provider {
                        name: "openai/gpt-5.5",
                        url: OPENAI_URL,
                        model: "gpt-5.5",
                        key_env: "OPENAI_API_KEY",
                    },
                );
            },
        }
        assert(provider_views(out@) =~= providers_of(self));
        out
    }

    pub fn tag(self) -> (r: &'static str)
        ensures
            r@ == brain_tag(self),
    {
        match self {
            BrainModel::Auto => "auto",
            BrainModel::Gpt4oMini => "gpt_4o_mini",
            BrainModel::Gpt55 => "gpt_5_5",
        }
    }

    pub fn from_tag(tag: &str) -> (r: Option<Self>)
        ensures
            r == brain_model_of(tag@),
    {
        if text::same(tag, "auto") {
            Some(BrainModel::Auto)
        } else if text::same(tag, "gpt_4o_mini") || text::same(tag, "gpt-4o-mini") {
            Some(BrainModel::Gpt4oMini)
        } else if text::same(tag, "gpt_5_5") || text::same(tag, "gpt-5.5") {
            Some(BrainModel::Gpt55)
        } else {
            None
        }
    }

    /// The model that an agent press runs on.
    pub fn agent_model_id(self) -> (r: &'static str)
        ensures
            r@ == agent_model(self),
    {
        match self {
            BrainModel::Gpt4oMini => "gpt-4o-mini",
            _ => "gpt-5.5",
        }
    }
}

/// How much each model of an agent press can hold, in tokens.
#[derive(Clone, Copy, Debug, PartialEq, Eq, Structural)]
pub struct ContextWindows {
    pub gpt4o_mini: u64,
    pub gpt55: u64,
}

/// How much a model can hold.
pub open spec fn window_of(windows: ContextWindows, model: Seq<char>) -> u64 {
    if model == "gpt-4o-mini"@ {
        windows.gpt4o_mini
    } else {
        windows.gpt55
    }
}

pub fn context_window(windows: ContextWindows, model: &str) -> (r: u64)
    ensures
        r == window_of(windows, model@),
{
    if text::same(model, "gpt-4o-mini") {
        windows.gpt4o_mini
    } else {
        windows.gpt55
    }
}

/// Reading back what was written: the tag of an answering model stands for it.
pub proof fn brain_tags_name_their_model(model: BrainModel)
    ensures
        brain_model_of(brain_tag(model)) == Some(model),
{
    reveal_strlit("auto");
    reveal_strlit("gpt_4o_mini");
    reveal_strlit("gpt-4o-mini");
    reveal_strlit("gpt_5_5");
    reveal_strlit("gpt-5.5");
    assert("auto"@.len() == 4);
    assert("gpt_5_5"@.len() == 7 && "gpt-5.5"@.len() == 7);
    assert("gpt_4o_mini"@.len() == 11 && "gpt-4o-mini"@.len() == 11);
}

// ── Trying providers ───────────────────────────────────────────────────────

/// Which credentials there are.
#[derive(Clone, Copy, Debug, PartialEq, Eq, Structural)]
pub struct ApiKeys {
    pub groq: bool,
    pub openai: bool,
}

/// Whether the credential of that name is there.
pub open spec fn has_key(keys: ApiKeys, key_env: Seq<char>) -> bool {
    if key_env == "GROQ_API_KEY"@ {
        keys.groq
    } else if key_env == "OPENAI_API_KEY"@ {
        keys.openai
    } else {
        false
    }
}

impl ApiKeys {
    pub fn key_for(&self, key_env: &str) -> (r: bool)
        ensures
            r == has_key(*self, key_env@),
    {
        if text::same(key_env, "GROQ_API_KEY") {
            self.groq
        } else if text::same(key_env, "OPENAI_API_KEY") {
            self.openai
        } else {
            false
        }
    }
}

/// The providers whose credential is there, in order.
pub open spec fn usable(providers: Seq<ProviderView>, keys: ApiKeys) -> Seq<ProviderView>
    decreases providers.len(),
{
    if providers.len() == 0 {
        seq![]
    } else {
        let before = usable(providers.drop_last(), keys);
        if has_key(keys, providers.last().key_env) {
            before.push(providers.last())
        } else {
            before
        }
    }
}

/// The providers yet to be tried for one question, and why the last one tried
/// failed.
pub struct Cascade {
    left: Vec<Provider>,
    last_err: String,
}

impl Cascade {
    /// The providers yet to be tried.
    pub closed spec fn remaining(self) -> Seq<ProviderView> {
        provider_views(self.left@)
    }

    /// The error that the question ends in if none of them answers.
    pub closed spec fn error(self) -> Seq<char> {
        self.last_err@
    }

    /// Every provider of the model whose credential is there.
    pub fn new(brain: BrainModel, keys: ApiKeys) -> (r: Self)
        ensures
            r.remaining() == usable(providers_of(brain), keys),
            r.error() == "no providers available (no API keys?)"@,
    {
        let all = brain.providers();
        let mut left: Vec<Provider> = Vec::new();
        let mut k: usize = 0;
        assert(provider_views(left@) =~= usable(provider_views(all@).take(0), keys));
        while k < all.len()
            invariant
                k <= all@.len(),
                provider_views(left@) == usable(provider_views(all@).take(k as int), keys),
            decreases all@.len() - k,
        {
            let ghost so_far = left@;
            let ghost views = provider_views(all@);
            assert(views.take(k + 1).drop_last() =~= views.take(k as int));
            assert(views.take(k + 1).last() == all@[k as int]@);
            if keys.key_for(all[k].key_env) {
                let p = all[k];
                left.push(p);
                assert(provider_views(left@) =~= provider_views(so_far).push(p@));
            }
            k += 1;
        }
        assert(provider_views(all@).take(k as int) =~= provider_views(all@));
        Cascade { left, last_err: "no providers available (no API keys?)".to_owned() }
    }

    /// The provider to try now.
    pub fn current(&self) -> (r: Option<Provider>)
        ensures
            r is Some <==> self.remaining().len() > 0,
            r is Some ==> r->0@ == self.remaining()[0],
    {
        if self.left.len() > 0 {
            Some(self.left[0])
        } else {
            None
        }
    }

    /// That provider failed before its first token: go on to the next.
    pub fn failed(&mut self, error: String)
        requires
            old(self).remaining().len() > 0,
        ensures
            final(self).remaining() == old(self).remaining().drop_first(),
            final(self).error() == error@,
    {
        let ghost before = self.remaining();
        let _ = self.left.remove(0);
        assert(self.remaining() =~= before.drop_first());
        self.last_err = error;
    }

    /// Nobody answered: why the last one did not.
    pub fn give_up(self) -> (r: String)
        ensures
            r@ == self.error(),
    {
        self.last_err
    }
}

/// The copilot does not go silent for want of one company: with either
/// credential the chain has someone to ask, and with OpenAI's every model has.
pub proof fn someone_can_be_asked(brain: BrainModel, keys: ApiKeys)
    requires
        keys.openai || (keys.groq && brain == BrainModel::Auto),
    ensures
        usable(providers_of(brain), keys).len() > 0,
{
    reveal_strlit("GROQ_API_KEY");
    reveal_strlit("OPENAI_API_KEY");
    assert("GROQ_API_KEY"@.len() == 12 && "OPENAI_API_KEY"@.len() == 14);
    let all = providers_of(brain);
    assert(has_key(keys, openai_small().key_env) == keys.openai);
    assert(has_key(keys, openai_large().key_env) == keys.openai);
    assert(has_key(keys, groq_small().key_env) == keys.groq);
    if keys.openai {
        assert(has_key(keys, all.last().key_env));
    } else {
        assert(all.drop_last().drop_last() =~= seq![groq_small()]);
        reveal_with_fuel(usable, 4);
    }
}

// ── Requests ───────────────────────────────────────────────────────────────

/// Who a message is from.
#[derive(Clone, Copy, Debug, PartialEq, Eq, Structural)]
pub enum Role {
    System,
    User,
}

/// A part of a message that mixes text and pictures.
pub enum Part {
    Text(String),
    /// The address of a picture, to be looked at in detail.
    Image(String),
}

/// What a message says.
pub enum Content {
    Text(String),
    Parts(Vec<Part>),
}

pub struct Message {
    pub role: Role,
    pub content: Content,
}

/// How the length of the output is limited. Models that reason take no
/// temperature, and their limit covers what they think.
#[derive(Clone, Copy, Debug, PartialEq, Eq, Structural)]
pub enum OutputLimit {
    Classic { max_tokens: u32, temperature_tenths: u32 },
    Reasoning { max_completion_tokens: u32 },
}

/// A chat completion to ask for.
pub struct ChatRequest {
    pub model: String,
    pub messages: Vec<Message>,
    pub stream: bool,
    /// Whether the stream is to end with the token usage.
    pub include_usage: bool,
    pub limit: OutputLimit,
    /// Whether the model is to reason only a little.
    pub low_effort: bool,
}

/// `Part` over plain text.
pub enum PartView {
    Text(Seq<char>),
    Image(Seq<char>),
}

/// `Content` over plain text.
pub enum ContentView {
    Text(Seq<char>),
    Parts(Seq<PartView>),
}

/// `Message` over plain text.
pub struct MessageView {
    pub role: Role,
    pub content: ContentView,
}

/// `ChatRequest` over plain text.
#[verifier::ext_equal]
pub struct ChatRequestView {
    pub model: Seq<char>,
    pub messages: Seq<MessageView>,
    pub stream: bool,
    pub include_usage: bool,
    pub limit: OutputLimit,
    pub low_effort: bool,
}

impl View for Part {
    type V = PartView;

    open spec fn view(&self) -> PartView {
        match self {
            Part::Text(s) => PartView::Text(s@),
            Part::Image(s) => PartView::Image(s@),
        }
    }
}

impl View for Content {
    type V = ContentView;

    open spec fn view(&self) -> ContentView {
        match self {
            Content::Text(s) => ContentView::Text(s@),
            Content::Parts(parts) => ContentView::Parts(parts@.map_values(|p: Part| p@)),
        }
    }
}

impl View for Message {
    type V = MessageView;

    open spec fn view(&self) -> MessageView {
        MessageView { role: self.role, content: self.content@ }
    }
}

impl View for ChatRequest {
    type V = ChatRequestView;

    open spec fn view(&self) -> ChatRequestView {
        ChatRequestView {
            model: self.model@,
            messages: self.messages@.map_values(|m: Message| m@),
            stream: self.stream,
            include_usage: self.include_usage,
            limit: self.limit,
            low_effort: self.low_effort,
        }
    }
}

/// Whether a model reasons before it answers.
pub open spec fn reasons(model: Seq<char>) -> bool {
    text::begins_with(model, "gpt-5"@)
}

/// A streamed completion of one message under some instructions.
pub open spec fn chat_of(
    model: Seq<char>,
    system: Seq<char>,
    content: ContentView,
    max_out: u32,
    temperature_tenths: u32,
) -> ChatRequestView {
    ChatRequestView {
        model,
        messages: seq![
            MessageView { role: Role::System, content: ContentView::Text(system) },
            MessageView { role: Role::User, content },
        ],
        stream: true,
        include_usage: false,
        limit: if reasons(model) {
            OutputLimit::Reasoning { max_completion_tokens: (max_out + REASONING_HEADROOM) as u32 }
        } else {
            OutputLimit::Classic { max_tokens: max_out, temperature_tenths }
        },
        low_effort: false,
    }
}

pub fn chat_body(
    model: &str,
    system: &str,
    user_content: Content,
    max_out: u32,
    temperature_tenths: u32,
) -> (r: ChatRequest)
    requires
        max_out <= u32::MAX - REASONING_HEADROOM,
    ensures
        r@ == chat_of(model@, system@, user_content@, max_out, temperature_tenths),
{
    let mut messages: Vec<Message> = Vec::new();
    messages.push(Message { role: Role::System, content: Content::Text(system.to_owned()) });
    messages.push(Message { role: Role::User, content: user_content });
    let limit = if text::starts_with(model, "gpt-5") {
        OutputLimit::Reasoning { max_completion_tokens: max_out + REASONING_HEADROOM }
    } else {
        OutputLimit::Classic { max_tokens: max_out, temperature_tenths }
    };
    let r = ChatRequest {
        model: model.to_owned(),
        messages,
        stream: true,
        include_usage: false,
        limit,
        low_effort: false,
    };
    assert(r@ =~= chat_of(model@, system@, user_content@, max_out, temperature_tenths));
    r
}

/// The agent's request: instructions, transcript, tail. The order carries
/// weight: instructions and transcript only ever grow at their end, so the
/// provider finds them in its cache; what changes comes last.
pub open spec fn agent_chat(
    model: Seq<char>,
    system: Seq<char>,
    transcript: Seq<char>,
    tail: Seq<char>,
) -> ChatRequestView {
    ChatRequestView {
        model,
        messages: seq![
            MessageView { role: Role::System, content: ContentView::Text(system) },
            MessageView { role: Role::User, content: ContentView::Text(transcript) },
            MessageView { role: Role::User, content: ContentView::Text(tail) },
        ],
        stream: true,
        include_usage: true,
        limit: if reasons(model) {
            OutputLimit::Reasoning {
                max_completion_tokens: (AGENT_MAX_OUT + AGENT_REASONING_HEADROOM) as u32,
            }
        } else {
            OutputLimit::Classic { max_tokens: AGENT_MAX_OUT, temperature_tenths: 4 }
        },
        low_effort: reasons(model),
    }
}

pub fn agent_body(model: &str, system: &str, transcript: &str, tail: &str) -> (r: ChatRequest)
    ensures
        r@ == agent_chat(model@, system@, transcript@, tail@),
{
    let mut messages: Vec<Message> = Vec::new();
    messages.push(Message { role: Role::System, content: Content::Text(system.to_owned()) });
    messages.push(Message { role: Role::User, content: Content::Text(transcript.to_owned()) });
    messages.push(Message { role: Role::User, content: Content::Text(tail.to_owned()) });
    let low_effort = text::starts_with(model, "gpt-5");
    let limit = if low_effort {
        OutputLimit::Reasoning { max_completion_tokens: AGENT_MAX_OUT + AGENT_REASONING_HEADROOM }
    } else {
        OutputLimit::Classic { max_tokens: AGENT_MAX_OUT, temperature_tenths: 4 }
    };
    let r = ChatRequest {
        model: model.to_owned(),
        messages,
        stream: true,
        include_usage: true,
        limit,
        low_effort,
    };
    assert(r@ =~= agent_chat(model@, system@, transcript@, tail@));
    r
}

/// A request whose stream is to end with the token usage, so that the session's
/// spend can count it.
pub open spec fn with_usage(r: ChatRequestView) -> ChatRequestView {
    ChatRequestView { include_usage: true, ..r }
}

/// The request that puts a question to one provider.
pub fn answer_request(p: &Provider, question: &str, context: &str, language: Language) -> (r:
    ChatRequest)
    ensures
        r@ == with_usage(
            chat_of(
                p@.model,
                answer_system(language),
                ContentView::Text(question_prompt(question@, context@, language)),
                ANSWER_MAX_OUT,
                4,
            ),
        ),
{
    let prompt = build_user(question, context, language);
    let content = Content::Text(prompt);
    let mut r = chat_body(p.model, system_prompt(language), content, ANSWER_MAX_OUT, 4);
    r.include_usage = true;
    r
}

/// The address of a picture that is sent along.
pub open spec fn data_url(base64: Seq<char>) -> Seq<char> {
    "data:image/jpeg;base64,"@ + base64
}

/// The parts of the message that asks for a description: what is asked, and
/// the screenshots in order.
pub open spec fn describe_parts(imgs: Seq<Seq<char>>, language: Language) -> Seq<PartView> {
    seq![PartView::Text(shots_instruction(language, imgs.len()))] + imgs.map_values(
        |img: Seq<char>| PartView::Image(data_url(img)),
    )
}

/// The request that has screenshots described, all in one message.
pub open spec fn describe_chat(
    imgs: Seq<Seq<char>>,
    model: VisionModel,
    language: Language,
) -> ChatRequestView {
    with_usage(
        chat_of(
            vision_model_id(model),
            description_system(language),
            ContentView::Parts(describe_parts(imgs, language)),
            VISION_MAX_OUT,
            2,
        ),
    )
}

/// Only OpenAI can look at pictures, and there must be one.
pub fn describe_request(
    keys: ApiKeys,
    imgs: &Vec<String>,
    model: VisionModel,
    language: Language,
) -> (r: Result<ChatRequest, String>)
    ensures
        match r {
            Ok(request) => keys.openai && imgs@.len() > 0 && request@ == describe_chat(
                text::views(imgs@),
                model,
                language,
            ),
            Err(e) => if !keys.openai {
                e@ == "vision needs OPENAI_API_KEY (not set)"@
            } else {
                imgs@.len() == 0 && e@ == "no screenshots to describe"@
            },
        },
{
    if !keys.openai {
        return Err("vision needs OPENAI_API_KEY (not set)".to_owned());
    }
    if imgs.len() == 0 {
        return Err("no screenshots to describe".to_owned());
    }
    let ghost all = text::views(imgs@);
    let ghost wanted = describe_parts(all, language);
    let mut parts: Vec<Part> = Vec::new();
    parts.push(Part::Text(vision_instruction(language, imgs.len()).to_owned()));
    let mut k: usize = 0;
    assert(parts@.map_values(|p: Part| p@) =~= wanted.take(1));
    while k < imgs.len()
        invariant
            k <= imgs@.len(),
            all == text::views(imgs@),
            wanted == describe_parts(all, language),
            parts@.map_values(|p: Part| p@) == wanted.take(k + 1),
        decreases imgs@.len() - k,
    {
        let ghost so_far = parts@.map_values(|p: Part| p@);
        let mut url = "data:image/jpeg;base64,".to_owned();
        url.append(imgs[k].as_str());
        let part = Part::Image(url);
        parts.push(part);
        assert(wanted[k + 1] == part@);
        assert(parts@.map_values(|p: Part| p@) =~= so_far.push(part@));
        assert(wanted.take(k + 2) =~= so_far.push(part@));
        k += 1;
    }
    assert(wanted.take(k + 1) =~= wanted);
    let content = Content::Parts(parts);
    let mut r = chat_body(model.model_id(), vision_system(language), content, VISION_MAX_OUT, 2);
    r.include_usage = true;
    Ok(r)
}

/// The agent runs at OpenAI alone.
pub fn agent_request(
    keys: ApiKeys,
    transcript: &str,
    state_block: &str,
    language: Language,
    brain: BrainModel,
) -> (r: Result<ChatRequest, String>)
    ensures
        match r {
            Ok(request) => keys.openai && request@ == agent_chat(
                agent_model(brain),
                agent_instructions(language),
                transcript@,
                tail_of(state_block@, language),
            ),
            Err(e) => !keys.openai && e@ == "agent mode needs OPENAI_API_KEY (not set)"@,
        },
{
    if !keys.openai {
        return Err("agent mode needs OPENAI_API_KEY (not set)".to_owned());
    }
    let tail = agent_tail(state_block, language);
    Ok(agent_body(brain.agent_model_id(), agent_system(language), transcript, tail.as_str()))
}

/// The request that brings the interview state up to date. It is not streamed.
pub open spec fn state_chat(prev: Seq<char>, delta: Seq<char>) -> ChatRequestView {
    ChatRequestView {
        stream: false,
        low_effort: true,
        ..chat_of(
            STATE_MODEL@,
            STATE_SYS@,
            ContentView::Text(state_prompt(prev, delta)),
            STATE_MAX_OUT,
            2,
        )
    }
}

pub fn state_request(keys: ApiKeys, prev_state: &str, delta: &str) -> (r: Result<
    ChatRequest,
    String,
>)
    ensures
        match r {
            Ok(request) => keys.openai && request@ == state_chat(prev_state@, delta@),
            Err(e) => !keys.openai && e@ == "state refresh needs OPENAI_API_KEY (not set)"@,
        },
{
    if !keys.openai {
        return Err("state refresh needs OPENAI_API_KEY (not set)".to_owned());
    }
    let mut user = "Previous state document:\n".to_owned();
    if prev_state.unicode_len() == 0 {
        user.append(prompts::NO_STATE_YET);
    } else {
        user.append(prev_state);
    }
    user.append("\n\nNew transcript lines:\n");
    user.append(delta);
    assert(user@ =~= state_prompt(prev_state@, delta@));
    let mut body = chat_body(STATE_MODEL, STATE_SYS, Content::Text(user), STATE_MAX_OUT, 2);
    body.stream = false;
    body.low_effort = true;
    Ok(body)
}

/// Why the reply to a refresh is of no use.
#[derive(Clone, Copy, Debug, PartialEq, Eq, Structural)]
pub enum StateReplyError {
    /// It is not JSON.
    NotJson,
    /// It holds no text.
    Empty,
}

/// The document in the text that a reply carries, if there is any.
pub open spec fn state_document(content: Option<Seq<char>>) -> Result<Seq<char>, StateReplyError> {
    match content {
        Some(s) if text::trimmed(s).len() > 0 => Ok(text::trimmed(s)),
        _ => Err(StateReplyError::Empty),
    }
}

/// The document in the text that a reply carries.
pub fn read_state_content(content: Option<String>) -> (r: Result<String, StateReplyError>)
    ensures
        match (
            r,
            state_document(
                match content {
                    Some(s) => Some(s@),
                    None => None,
                },
            ),
        ) {
            (Ok(got), Ok(want)) => got@ == want,
            (Err(got), Err(want)) => got == want,
            _ => false,
        },
{
    match content {
        Some(s) => {
            let t = text::trim(s.as_str());
            if t.unicode_len() > 0 {
                Ok(t.to_owned())
            } else {
                Err(StateReplyError::Empty)
            }
        },
        None => Err(StateReplyError::Empty),
    }
}

/// The new state document in the body of a reply.
pub fn state_reply(body: &str) -> (r: Result<String, StateReplyError>)
    ensures
        match r {
            Ok(got) => json::json_node(body@, ""@) is Some && state_document(
                json::text_at(body@, "/choices/0/message/content"@),
            ) == Ok::<Seq<char>, StateReplyError>(got@),
            Err(StateReplyError::NotJson) => json::json_node(body@, ""@) is None,
            Err(StateReplyError::Empty) => json::json_node(body@, ""@) is Some && state_document(
                json::text_at(body@, "/choices/0/message/content"@),
            ) is Err,
        },
{
    if json::json_at(body, "").is_none() {
        return Err(StateReplyError::NotJson);
    }
    read_state_content(json::json_text(body, "/choices/0/message/content"))
}

/// The tokens that a reply was billed for, or none where it does not say.
pub open spec fn billed(body: Seq<char>) -> TokenUsage {
    match sse::event_of(body).usage {
        Some(usage) => usage,
        None => TokenUsage { prompt: 0, cached: 0, completion: 0 },
    }
}

pub fn reply_usage(body: &str) -> (r: TokenUsage)
    ensures
        r == billed(body@),
{
    match sse::read_event(body).usage {
        Some(usage) => usage,
        None => TokenUsage { prompt: 0, cached: 0, completion: 0 },
    }
}

// ── Refusals ───────────────────────────────────────────────────────────────

/// An answer shorter than this that apologises is a refusal, in bytes.
pub const REFUSAL_MAX_BYTES: usize = 200;

/// Whether a text in lower case apologises.
pub open spec fn apologises(lower: Seq<char>) -> bool {
    ||| text::occurs(lower, "no puedo"@)
    ||| text::occurs(lower, "lo siento"@)
    ||| text::occurs(lower, "i can't"@)
    ||| text::occurs(lower, "i cannot"@)
    ||| text::occurs(lower, "sorry"@)
}

/// Whether a description refuses, given its text and that text in lower case.
pub fn is_refusal(full: &str, lower: &str) -> (r: bool)
    ensures
        r == (text::bytes_in(full@) < REFUSAL_MAX_BYTES && apologises(lower@)),
{
    text::byte_len(full) < REFUSAL_MAX_BYTES && (text::contains(lower, "no puedo")
        || text::contains(lower, "lo siento") || text::contains(lower, "i can't")
        || text::contains(lower, "i cannot") || text::contains(lower, "sorry"))
}

/// A tiny completion that apologises is a refusal, not a nearly empty screen.
pub fn looks_like_refusal(full: &str) -> (r: bool)
    ensures
        r == (text::bytes_in(full@) < REFUSAL_MAX_BYTES && apologises(text::lowercase(full@))),
{
    let lower = text::to_lowercase(full);
    is_refusal(full, lower.as_str())
}

// ── Outcomes ───────────────────────────────────────────────────────────────

/// An answer to a question.
pub struct ApiOutcome {
    pub answer: String,
    pub ttft_ms: u64,
    pub total_ms: u64,
    /// Who answered.
    pub provider: String,
    pub usage: TokenUsage,
}

/// An answer to an agent press.
pub struct AgentOutcome {
    pub answer: String,
    pub ttft_ms: u64,
    pub total_ms: u64,
    pub model: String,
    pub usage: TokenUsage,
    /// The provider's name for the request.
    pub request_id: Option<String>,
}

/// A description of the screen.
pub struct VisionOutcome {
    pub text: String,
    pub ttft_ms: u64,
    pub total_ms: u64,
    pub usage: TokenUsage,
}

// ── Laws ───────────────────────────────────────────────────────────────────

/// A question is put word for word, and so is the transcript around it, before
/// it; without any it is put alone.
pub proof fn questions_are_put_whole(question: Seq<char>, context: Seq<char>, language: Language)
    ensures
        context.len() == 0 ==> question_prompt(question, context, language) == question,
        context.len() > 0 ==> exists|intro: Seq<char>, asked: Seq<char>, please: Seq<char>|
            question_prompt(question, context, language) == #[trigger] (intro + context + asked
                + question + please),
        text::occurs(question_prompt(question, context, language), question),
        text::occurs(question_prompt(question, context, language), context),
{
    let prompt = question_prompt(question, context, language);
    let none = Seq::<char>::empty();
    if context.len() == 0 {
        assert(prompt =~= none + question + none);
        text::parts_occur(none, question, none);
        assert(prompt =~= none + context + prompt);
        text::parts_occur(none, context, prompt);
    } else {
        let (intro, asked, please) = match language {
            Language::English => (
                prompts::CONTEXT_INTRO_EN@,
                prompts::ASKED_EN@,
                prompts::ANSWER_PLEASE_EN@,
            ),
            Language::Spanish => (
                prompts::CONTEXT_INTRO_ES@,
                prompts::ASKED_ES@,
                prompts::ANSWER_PLEASE_ES@,
            ),
        };
        assert(prompt == intro + context + asked + question + please);
        text::parts_occur(intro + context + asked, question, please);
        assert(prompt =~= intro + context + (asked + question + please));
        text::parts_occur(intro, context, asked + question + please);
    }
}

/// The agent is shown the whole interview state, before the request for help;
/// before there is one it is shown the request alone.
pub proof fn agents_see_the_whole_state(state_block: Seq<char>, language: Language)
    ensures
        ({
            let request = match language {
                Language::English => prompts::HELP_REQUEST_EN@,
                Language::Spanish => prompts::HELP_REQUEST_ES@,
            };
            &&& state_block.len() == 0 ==> tail_of(state_block, language) == request
            &&& state_block.len() > 0 ==> exists|header: Seq<char>, footer: Seq<char>|
                tail_of(state_block, language) == #[trigger] (header + state_block + footer)
                    + request
        }),
{
    let request = match language {
        Language::English => prompts::HELP_REQUEST_EN@,
        Language::Spanish => prompts::HELP_REQUEST_ES@,
    };
    if state_block.len() == 0 {
        assert(tail_of(state_block, language) =~= request);
    } else {
        let (header, footer) = match language {
            Language::English => (prompts::STATE_HEADER_EN@, prompts::STATE_FOOTER_EN@),
            Language::Spanish => (prompts::STATE_HEADER_ES@, prompts::STATE_FOOTER_ES@),
        };
        assert(tail_of(state_block, language) == (header + state_block + footer) + request);
    }
}

/// The state keeper is given its last document whole, and then every new line.
pub proof fn refreshes_build_on_the_last_state(prev: Seq<char>, delta: Seq<char>)
    ensures
        prev.len() > 0 ==> state_prompt(prev, delta) == "Previous state document:\n"@ + prev
            + "\n\nNew transcript lines:\n"@ + delta,
        text::occurs(state_prompt(prev, delta), delta),
        state_prompt(prev, delta).skip(state_prompt(prev, delta).len() - delta.len()) == delta,
{
    let prompt = state_prompt(prev, delta);
    let lead = prompt.take(prompt.len() - delta.len());
    assert(prompt =~= lead + delta + Seq::<char>::empty());
    text::parts_occur(lead, delta, Seq::<char>::empty());
    assert(prompt.skip(prompt.len() - delta.len()) =~= delta);
}

/// Every screenshot is sent, in order and whole, behind what is asked of them;
/// several are asked for one by one.
pub proof fn every_screenshot_is_sent(imgs: Seq<Seq<char>>, language: Language)
    ensures
        ({
            let parts = describe_parts(imgs, language);
            let one = match language {
                Language::English => prompts::VISION_ONE_EN@,
                Language::Spanish => prompts::VISION_ONE_ES@,
            };
            let many = match language {
                Language::English => prompts::VISION_MANY_EN@,
                Language::Spanish => prompts::VISION_MANY_ES@,
            };
            &&& parts.len() == imgs.len() + 1
            &&& parts[0] == PartView::Text(
                if imgs.len() > 1 {
                    many
                } else {
                    one
                },
            )
            &&& forall|i: int|
                0 <= i < imgs.len() ==> #[trigger] parts[i + 1] == PartView::Image(
                    "data:image/jpeg;base64,"@ + imgs[i],
                )
        }),
{
    let parts = describe_parts(imgs, language);
    assert forall|i: int| 0 <= i < imgs.len() implies #[trigger] parts[i + 1] == PartView::Image(
        "data:image/jpeg;base64,"@ + imgs[i],
    ) by {
        assert(parts[i + 1] == PartView::Image(data_url(imgs[i])));
    }
}

/// Exactly the providers with a credential are tried, each where it stands in
/// the order.
pub proof fn credentials_decide_who_is_asked(
    a: Seq<ProviderView>,
    b: Seq<ProviderView>,
    keys: ApiKeys,
)
    ensures
        usable(a + b, keys) == usable(a, keys) + usable(b, keys),
        a.len() == 1 ==> usable(a, keys) == (if (a[0].key_env == "GROQ_API_KEY"@ && keys.groq)
            || (a[0].key_env == "OPENAI_API_KEY"@ && keys.openai) {
            a
        } else {
            seq![]
        }),
    decreases b.len(),
{
    reveal_strlit("GROQ_API_KEY");
    reveal_strlit("OPENAI_API_KEY");
    assert("GROQ_API_KEY"@.len() == 12 && "OPENAI_API_KEY"@.len() == 14);
    if b.len() == 0 {
        assert(a + b =~= a);
        assert(usable(a, keys) + usable(b, keys) =~= usable(a, keys));
    } else {
        credentials_decide_who_is_asked(a, b.drop_last(), keys);
        assert((a + b).drop_last() =~= a + b.drop_last());
        assert(usable(a + b, keys) =~= usable(a, keys) + usable(b, keys));
    }
    if a.len() == 1 {
        assert(a.drop_last() =~= seq![]);
        assert(usable(a.drop_last(), keys) =~= seq![]);
        assert(a =~= seq![a[0]]);
        assert(usable(a, keys) =~= (if has_key(keys, a[0].key_env) {
            a
        } else {
            seq![]
        }));
    }
}

/// The chain asks Groq's small model, then its large one, then OpenAI; a model
/// that is pinned is asked alone.
pub proof fn the_chain_ends_elsewhere()
    ensures
        ({
            let chain = providers_of(BrainModel::Auto);
            let small = providers_of(BrainModel::Gpt4oMini);
            let large = providers_of(BrainModel::Gpt55);
            &&& chain.len() == 3 && small.len() == 1 && large.len() == 1
            &&& chain[0].model == "llama-3.1-8b-instant"@ && chain[0].url == GROQ_URL@
            &&& chain[1].model == "llama-3.3-70b-versatile"@ && chain[1].url == GROQ_URL@
            &&& chain[0].key_env == "GROQ_API_KEY"@ && chain[1].key_env == "GROQ_API_KEY"@
            &&& chain[2] == small[0]
            &&& small[0].model == "gpt-4o-mini"@ && small[0].url == OPENAI_URL@
            &&& large[0].model == "gpt-5.5"@ && large[0].url == OPENAI_URL@
            &&& small[0].key_env == "OPENAI_API_KEY"@ && large[0].key_env == "OPENAI_API_KEY"@
        }),
{
}

/// A request says what it was given, in order: the instructions, then the
/// message. It is streamed, and a model that reasons has room to think on top
/// of its answer.
pub proof fn requests_say_what_they_were_given(
    model: Seq<char>,
    system: Seq<char>,
    content: ContentView,
    max_out: u32,
    temperature_tenths: u32,
)
    requires
        max_out <= u32::MAX - 1024,
    ensures
        ({
            let r = chat_of(model, system, content, max_out, temperature_tenths);
            &&& r.model == model
            &&& r.messages.len() == 2
            &&& r.messages[0].role == Role::System
            &&& r.messages[0].content == ContentView::Text(system)
            &&& r.messages[1].role == Role::User
            &&& r.messages[1].content == content
            &&& r.stream && !r.low_effort
            &&& text::begins_with(model, "gpt-5"@) ==> r.limit == OutputLimit::Reasoning {
                max_completion_tokens: (max_out + 1024) as u32,
            }
            &&& !text::begins_with(model, "gpt-5"@) ==> r.limit == OutputLimit::Classic {
                max_tokens: max_out,
                temperature_tenths,
            }
            &&& with_usage(r).include_usage
            &&& with_usage(r).messages == r.messages && with_usage(r).model == model
            &&& with_usage(r).limit == r.limit && with_usage(r).stream
        }),
{
}

/// The agent is given its instructions, the whole transcript and the tail, in
/// that order, and room for three thousand tokens where it reasons.
pub proof fn agents_are_given_everything(
    model: Seq<char>,
    system: Seq<char>,
    transcript: Seq<char>,
    tail: Seq<char>,
)
    ensures
        ({
            let r = agent_chat(model, system, transcript, tail);
            &&& r.model == model
            &&& r.messages.len() == 3
            &&& r.messages[0].content == ContentView::Text(system)
            &&& r.messages[1].content == ContentView::Text(transcript)
            &&& r.messages[2].content == ContentView::Text(tail)
            &&& r.messages[0].role == Role::System
            &&& r.messages[1].role == Role::User && r.messages[2].role == Role::User
            &&& r.stream && r.include_usage
            &&& r.low_effort <==> text::begins_with(model, "gpt-5"@)
            &&& r.low_effort ==> r.limit == OutputLimit::Reasoning { max_completion_tokens: 3248 }
            &&& !r.low_effort ==> r.limit == OutputLimit::Classic {
                max_tokens: 1200,
                temperature_tenths: 4,
            }
        }),
{
}

/// The requests for descriptions and for refreshes hold all that they are about.
pub proof fn describing_and_refreshing_hold_everything(
    imgs: Seq<Seq<char>>,
    model: VisionModel,
    language: Language,
    prev: Seq<char>,
    delta: Seq<char>,
)
    ensures
        ({
            let d = describe_chat(imgs, model, language);
            let s = state_chat(prev, delta);
            &&& d.model == vision_model_id(model) && d.include_usage && d.stream
            &&& d.messages.len() == 2
            &&& d.messages[0].content == ContentView::Text(
                match language {
                    Language::English => VISION_SYS_EN@,
                    Language::Spanish => VISION_SYS_ES@,
                },
            )
            &&& d.messages[1].content == ContentView::Parts(describe_parts(imgs, language))
            &&& d.limit == (match model {
                VisionModel::Gpt4oMini => OutputLimit::Classic {
                    max_tokens: 2500,
                    temperature_tenths: 2,
                },
                VisionModel::Gpt55 => OutputLimit::Reasoning { max_completion_tokens: 3524 },
            })
            &&& s.model == STATE_MODEL@ && !s.stream && s.low_effort
            &&& s.messages.len() == 2
            &&& s.messages[0].content == ContentView::Text(STATE_SYS@)
            &&& s.messages[1].content == ContentView::Text(state_prompt(prev, delta))
            &&& s.limit == OutputLimit::Reasoning { max_completion_tokens: 1924 }
        }),
{
    reveal_strlit("gpt-5");
    reveal_strlit("gpt-5.4-mini");
    reveal_strlit("gpt-5.5");
    reveal_strlit("gpt-4o-mini");
    let p = "gpt-5"@;
    assert("gpt-5.4-mini"@.subrange(0, p.len() as int) =~= p);
    assert("gpt-5.5"@.subrange(0, p.len() as int) =~= p);
    assert("gpt-4o-mini"@.subrange(0, p.len() as int)[4] != p[4]);
}

/// A new state document is all of the text of the reply, without the white
/// space around it; a reply of white space alone is no document.
pub proof fn state_documents_are_kept_whole(
    before: Seq<char>,
    document: Seq<char>,
    after: Seq<char>,
)
    requires
        forall|i: int| 0 <= i < before.len() ==> text::white_space(#[trigger] before[i]),
        forall|i: int| 0 <= i < after.len() ==> text::white_space(#[trigger] after[i]),
        document.len() > 0 ==> !text::white_space(document[0]) && !text::white_space(
            document.last(),
        ),
    ensures
        state_document(Some(before + document + after)) == (if document.len() > 0 {
            Ok::<Seq<char>, StateReplyError>(document)
        } else {
            Err(StateReplyError::Empty)
        }),
        state_document(None) is Err,
{
    text::trimmed_is_what_stands_between(before, document, after);
}

/// An apology is heard wherever in the text it stands.
pub proof fn apologies_are_heard_anywhere(before: Seq<char>, after: Seq<char>)
    ensures
        apologises(before + "no puedo"@ + after),
        apologises(before + "lo siento"@ + after),
        apologises(before + "i can't"@ + after),
        apologises(before + "i cannot"@ + after),
        apologises(before + "sorry"@ + after),
{
    text::parts_occur(before, "no puedo"@, after);
    text::parts_occur(before, "lo siento"@, after);
    text::parts_occur(before, "i can't"@, after);
    text::parts_occur(before, "i cannot"@, after);
    text::parts_occur(before, "sorry"@, after);
}

/// What a reply was billed for is read from its usage, and is nothing where it
/// tells none.
pub proof fn bills_are_read_from_the_usage(body: Seq<char>)
    ensures
        json::json_node(body, "/usage"@) == Some(json::JsonView::Object) ==> {
            &&& billed(body).prompt == json::count_at(body, "/usage/prompt_tokens"@)
            &&& billed(body).cached == json::count_at(
                body,
                "/usage/prompt_tokens_details/cached_tokens"@,
            )
            &&& billed(body).completion == json::count_at(body, "/usage/completion_tokens"@)
        },
        json::json_node(body, "/usage"@) != Some(json::JsonView::Object) ==> billed(body)
            == (TokenUsage { prompt: 0, cached: 0, completion: 0 }),
{
}

/// A press runs on the strong model unless the small one is pinned, within that
/// model's own window.
pub proof fn presses_run_on_the_strong_model(brain: BrainModel, windows: ContextWindows)
    ensures
        agent_model(brain) == (if brain == BrainModel::Gpt4oMini {
            "gpt-4o-mini"@
        } else {
            "gpt-5.5"@
        }),
        window_of(windows, agent_model(BrainModel::Gpt4oMini)) == windows.gpt4o_mini,
        brain != BrainModel::Gpt4oMini ==> window_of(windows, agent_model(brain)) == windows.gpt55,
{
    reveal_strlit("gpt-4o-mini");
    reveal_strlit("gpt-5.5");
    assert("gpt-5.5"@.len() == 7 && "gpt-4o-mini"@.len() == 11);
}

/// Every model is instructed in the language of the interview.
pub proof fn instructions_follow_the_language()
    ensures
        answer_system(Language::English) == SYSTEM_PROMPT_EN@,
        answer_system(Language::Spanish) == SYSTEM_PROMPT_ES@,
        description_system(Language::English) == VISION_SYS_EN@,
        description_system(Language::Spanish) == VISION_SYS_ES@,
        agent_instructions(Language::English) == AGENT_SYS_EN@,
        agent_instructions(Language::Spanish) == AGENT_SYS_ES@,
{
}

/// A text in which no apology stands is none.
pub proof fn other_texts_do_not_apologise(lower: Seq<char>)
    requires
        !text::occurs(lower, "no puedo"@),
        !text::occurs(lower, "lo siento"@),
        !text::occurs(lower, "i can't"@),
        !text::occurs(lower, "i cannot"@),
        !text::occurs(lower, "sorry"@),
    ensures
        !apologises(lower),
{
}

} // verus!

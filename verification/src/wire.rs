//! The JSON that goes to the services: compact, with the names of each object
//! in alphabetical order.

use vstd::prelude::*;
use crate::backend::{
    ChatRequest, ChatRequestView, Content, ContentView, Message, MessageView, OutputLimit, Part,
    PartView, Role,
};
use crate::json;
use crate::text;
use crate::tts::{OPENAI_INSTRUCTIONS, OPENAI_VOICE, SPEECH_MODEL};

verus! {

/// One part of a message. Pictures are looked at in detail.
pub open spec fn part_text(p: PartView) -> Seq<char> {
    match p {
        PartView::Text(s) => r#"{"text":"#@ + json::json_literal(s) + r#","type":"text"}"#@,
        PartView::Image(url) => r#"{"image_url":{"detail":"high","url":"#@
            + json::json_literal(url) + r#"},"type":"image_url"}"#@,
    }
}

fn part_json(p: &Part) -> (r: String)
    ensures
        r@ == part_text(p@),
{
    match p {
        Part::Text(s) => {
            let mut out = r#"{"text":"#.to_owned();
            let literal = json::to_json_literal(s.as_str());
            out.append(literal.as_str());
            out.append(r#","type":"text"}"#);
            out
        },
        Part::Image(url) => {
            let mut out = r#"{"image_url":{"detail":"high","url":"#.to_owned();
            let literal = json::to_json_literal(url.as_str());
            out.append(literal.as_str());
            out.append(r#"},"type":"image_url"}"#);
            out
        },
    }
}

/// What a message says: a string, or a list of parts.
pub open spec fn content_text(c: ContentView) -> Seq<char> {
    match c {
        ContentView::Text(s) => json::json_literal(s),
        ContentView::Parts(parts) => "["@ + text::joined(
            parts.map_values(|p: PartView| part_text(p)),
            ","@,
        ) + "]"@,
    }
}

fn content_json(c: &Content) -> (r: String)
    ensures
        r@ == content_text(c@),
{
    match c {
        Content::Text(s) => json::to_json_literal(s.as_str()),
        Content::Parts(parts) => {
            let ghost all = parts@.map_values(|p: Part| p@);
            let ghost wanted = all.map_values(|p: PartView| part_text(p));
            let mut texts: Vec<String> = Vec::new();
            let mut k: usize = 0;
            assert(text::views(texts@) =~= wanted.take(0));
            while k < parts.len()
                invariant
                    k <= parts@.len(),
                    all == parts@.map_values(|p: Part| p@),
                    wanted == all.map_values(|p: PartView| part_text(p)),
                    text::views(texts@) == wanted.take(k as int),
                decreases parts@.len() - k,
            {
                let ghost so_far = texts@;
                let one = part_json(&parts[k]);
                assert(one@ == wanted[k as int]);
                texts.push(one);
                assert(text::views(texts@) =~= text::views(so_far).push(one@));
                k += 1;
                assert(text::views(texts@) =~= wanted.take(k as int));
            }
            assert(wanted.take(k as int) =~= wanted);
            let mut out = "[".to_owned();
            let inner = text::join(&texts, ",");
            out.append(inner.as_str());
            out.append("]");
            out
        },
    }
}

/// One message with the role of its author.
pub open spec fn message_text(m: MessageView) -> Seq<char> {
    r#"{"content":"#@ + content_text(m.content) + (match m.role {
        Role::System => r#","role":"system"}"#@,
        Role::User => r#","role":"user"}"#@,
    })
}

fn message_json(m: &Message) -> (r: String)
    ensures
        r@ == message_text(m@),
{
    let mut out = r#"{"content":"#.to_owned();
    let content = content_json(&m.content);
    out.append(content.as_str());
    match m.role {
        Role::System => out.append(r#","role":"system"}"#),
        Role::User => out.append(r#","role":"user"}"#),
    }
    out
}

/// The bound on the output, by the name that the model knows it under.
pub open spec fn limit_text(limit: OutputLimit) -> Seq<char> {
    match limit {
        OutputLimit::Classic { max_tokens, .. } => r#""max_tokens":"#@ + text::decimal(
            max_tokens as nat,
        ),
        OutputLimit::Reasoning { max_completion_tokens } => r#""max_completion_tokens":"#@
            + text::decimal(max_completion_tokens as nat),
    }
}

/// A number of tenths as a decimal fraction.
pub open spec fn tenths_text(tenths: nat) -> Seq<char> {
    text::decimal(tenths / 10) + "."@ + text::decimal(tenths % 10)
}

/// The temperature, for the models that take one.
pub open spec fn temperature_text(limit: OutputLimit) -> Seq<char> {
    match limit {
        OutputLimit::Classic { temperature_tenths, .. } => r#","temperature":"#@ + tenths_text(
            temperature_tenths as nat,
        ),
        OutputLimit::Reasoning { .. } => seq![],
    }
}

/// A chat request as JSON.
pub open spec fn chat_text(r: ChatRequestView) -> Seq<char> {
    "{"@ + limit_text(r.limit) + r#","messages":["#@ + text::joined(
        r.messages.map_values(|m: MessageView| message_text(m)),
        ","@,
    ) + r#"],"model":"#@ + json::json_literal(r.model) + (if r.low_effort {
        r#","reasoning_effort":"low""#@
    } else {
        seq![]
    }) + (if r.stream {
        r#","stream":true"#@
    } else {
        r#","stream":false"#@
    }) + (if r.include_usage {
        r#","stream_options":{"include_usage":true}"#@
    } else {
        seq![]
    }) + temperature_text(r.limit) + "}"@
}

/// The messages of a request, one after the other.
fn messages_json(messages: &Vec<Message>) -> (r: String)
    ensures
        r@ == text::joined(
            messages@.map_values(|m: Message| m@).map_values(|m: MessageView| message_text(m)),
            ","@,
        ),
{
    let ghost all = messages@.map_values(|m: Message| m@);
    let ghost wanted = all.map_values(|m: MessageView| message_text(m));
    let mut texts: Vec<String> = Vec::new();
    let mut k: usize = 0;
    assert(text::views(texts@) =~= wanted.take(0));
    while k < messages.len()
        invariant
            k <= messages@.len(),
            all == messages@.map_values(|m: Message| m@),
            wanted == all.map_values(|m: MessageView| message_text(m)),
            text::views(texts@) == wanted.take(k as int),
        decreases messages@.len() - k,
    {
        let ghost so_far = texts@;
        let one = message_json(&messages[k]);
        assert(one@ == wanted[k as int]);
        texts.push(one);
        assert(text::views(texts@) =~= text::views(so_far).push(one@));
        k += 1;
        assert(text::views(texts@) =~= wanted.take(k as int));
    }
    assert(wanted.take(k as int) =~= wanted);
    text::join(&texts, ",")
}

/// The body of a chat request.
pub fn chat_json(r: &ChatRequest) -> (body: String)
    ensures
        body@ == chat_text(r@),
{
    let mut out = "{".to_owned();
    match r.limit {
        OutputLimit::Classic { max_tokens, .. } => {
            out.append(r#""max_tokens":"#);
            text::push_decimal(&mut out, max_tokens as u64);
        },
        OutputLimit::Reasoning { max_completion_tokens } => {
            out.append(r#""max_completion_tokens":"#);
            text::push_decimal(&mut out, max_completion_tokens as u64);
        },
    }
    assert(out@ =~= "{"@ + limit_text(r.limit));
    out.append(r#","messages":["#);
    let messages = messages_json(&r.messages);
    out.append(messages.as_str());
    out.append(r#"],"model":"#);
    let model = json::to_json_literal(r.model.as_str());
    out.append(model.as_str());
    if r.low_effort {
        out.append(r#","reasoning_effort":"low""#);
    }
    if r.stream {
        out.append(r#","stream":true"#);
    } else {
        out.append(r#","stream":false"#);
    }
    if r.include_usage {
        out.append(r#","stream_options":{"include_usage":true}"#);
    }
    let ghost untempered = out@;
    if let OutputLimit::Classic { temperature_tenths, .. } = r.limit {
        out.append(r#","temperature":"#);
        text::push_decimal(&mut out, (temperature_tenths / 10) as u64);
        out.append(".");
        text::push_decimal(&mut out, (temperature_tenths % 10) as u64);
    }
    assert(out@ =~= untempered + temperature_text(r.limit));
    out.append("}");
    assert(out@ =~= chat_text(r@));
    out
}

/// The request for a text to be read aloud, as JSON.
pub open spec fn speech_text(input: Seq<char>) -> Seq<char> {
    r#"{"input":"#@ + json::json_literal(input) + r#","instructions":"#@ + json::json_literal(
        OPENAI_INSTRUCTIONS@,
    ) + r#","model":"#@ + json::json_literal(SPEECH_MODEL@)
        + r#","response_format":"wav","voice":"#@ + json::json_literal(OPENAI_VOICE@) + "}"@
}

/// The body of the request for a text to be read aloud.
pub fn speech_json(input: &str) -> (body: String)
    ensures
        body@ == speech_text(input@),
{
    let mut out = r#"{"input":"#.to_owned();
    let literal = json::to_json_literal(input);
    out.append(literal.as_str());
    out.append(r#","instructions":"#);
    let instructions = json::to_json_literal(OPENAI_INSTRUCTIONS);
    out.append(instructions.as_str());
    out.append(r#","model":"#);
    let model = json::to_json_literal(SPEECH_MODEL);
    out.append(model.as_str());
    out.append(r#","response_format":"wav","voice":"#);
    let voice = json::to_json_literal(OPENAI_VOICE);
    out.append(voice.as_str());
    out.append("}");
    out
}

/// Every message of a request is written out, whole: its text as one literal,
/// or each of its parts.
pub proof fn every_message_is_written(r: ChatRequestView, i: int)
    requires
        0 <= i < r.messages.len(),
    ensures
        match r.messages[i].content {
            ContentView::Text(s) => text::occurs(chat_text(r), json::json_literal(s)),
            ContentView::Parts(parts) => forall|k: int|
                #![trigger parts[k]]
                0 <= k < parts.len() ==> text::occurs(
                    chat_text(r),
                    match parts[k] {
                        PartView::Text(s) => json::json_literal(s),
                        PartView::Image(url) => json::json_literal(url),
                    },
                ),
        },
        text::occurs(chat_text(r), json::json_literal(r.model)),
{
    let texts = r.messages.map_values(|m: MessageView| message_text(m));
    let list = text::joined(texts, ","@);
    let m = r.messages[i];
    let c = content_text(m.content);
    let lead = "{"@ + limit_text(r.limit) + r#","messages":["#@;
    let all = chat_text(r);
    assert(all.subrange(lead.len() as int, (lead.len() + list.len()) as int) =~= list);
    assert(text::occurs_at(all, list, lead.len() as int));
    text::joined_texts_occur(texts, ","@, i);
    text::occurrences_carry_over(all, list, message_text(m));
    let role = match m.role {
        Role::System => r#","role":"system"}"#@,
        Role::User => r#","role":"user"}"#@,
    };
    text::parts_occur(r#"{"content":"#@, c, role);
    text::occurrences_carry_over(all, message_text(m), c);
    if let ContentView::Parts(parts) = m.content {
        let pieces = parts.map_values(|p: PartView| part_text(p));
        let inner = text::joined(pieces, ","@);
        text::parts_occur("["@, inner, "]"@);
        text::occurrences_carry_over(all, c, inner);
        assert forall|k: int| #![trigger parts[k]] 0 <= k < parts.len() implies text::occurs(
            all,
            match parts[k] {
                PartView::Text(s) => json::json_literal(s),
                PartView::Image(url) => json::json_literal(url),
            },
        ) by {
            text::joined_texts_occur(pieces, ","@, k);
            text::occurrences_carry_over(all, inner, pieces[k]);
            match parts[k] {
                PartView::Text(s) => {
                    text::parts_occur(
                        r#"{"text":"#@,
                        json::json_literal(s),
                        r#","type":"text"}"#@,
                    );
                    text::occurrences_carry_over(all, pieces[k], json::json_literal(s));
                },
                PartView::Image(url) => {
                    text::parts_occur(
                        r#"{"image_url":{"detail":"high","url":"#@,
                        json::json_literal(url),
                        r#"},"type":"image_url"}"#@,
                    );
                    text::occurrences_carry_over(all, pieces[k], json::json_literal(url));
                },
            }
        }
    }
    let upto = lead + list + r#"],"model":"#@;
    let model = json::json_literal(r.model);
    assert(all.subrange(upto.len() as int, (upto.len() + model.len()) as int) =~= model);
    assert(text::occurs_at(all, model, upto.len() as int));
}

/// The bound and the temperature are written as the numbers they are.
pub proof fn limits_are_written_out(max_tokens: u32, whole: nat, tenth: nat)
    requires
        tenth < 10,
    ensures
        limit_text(OutputLimit::Classic { max_tokens, temperature_tenths: 0 })
            == r#""max_tokens":"#@ + text::decimal(max_tokens as nat),
        limit_text(OutputLimit::Reasoning { max_completion_tokens: max_tokens })
            == r#""max_completion_tokens":"#@ + text::decimal(max_tokens as nat),
        tenths_text(10 * whole + tenth) == text::decimal(whole) + "."@ + text::decimal(tenth),
        temperature_text(OutputLimit::Reasoning { max_completion_tokens: max_tokens })
            == Seq::<char>::empty(),
{
}

/// The text to be read aloud is in the request, whole.
pub proof fn speech_is_asked_for_whole(input: Seq<char>)
    ensures
        text::occurs(speech_text(input), json::json_literal(input)),
{
    let lead = r#"{"input":"#@;
    let literal = json::json_literal(input);
    let all = speech_text(input);
    assert(all.subrange(lead.len() as int, (lead.len() + literal.len()) as int) =~= literal);
    assert(text::occurs_at(all, literal, lead.len() as int));
}

/// What a request asks for besides its messages is written out: how much output,
/// whether it is streamed and ends with the usage, how hard the model thinks and
/// how freely it writes.
pub proof fn every_wish_is_written(r: ChatRequestView)
    ensures
        text::occurs(chat_text(r), limit_text(r.limit)),
        text::occurs(chat_text(r), temperature_text(r.limit)),
        r.stream ==> text::occurs(chat_text(r), r#","stream":true"#@),
        !r.stream ==> text::occurs(chat_text(r), r#","stream":false"#@),
        r.include_usage ==> text::occurs(
            chat_text(r),
            r#","stream_options":{"include_usage":true}"#@,
        ),
        r.low_effort ==> text::occurs(chat_text(r), r#","reasoning_effort":"low""#@),
{
    let all = chat_text(r);
    let effort = if r.low_effort {
        r#","reasoning_effort":"low""#@
    } else {
        seq![]
    };
    let stream = if r.stream {
        r#","stream":true"#@
    } else {
        r#","stream":false"#@
    };
    let usage = if r.include_usage {
        r#","stream_options":{"include_usage":true}"#@
    } else {
        seq![]
    };
    let limit = limit_text(r.limit);
    let heat = temperature_text(r.limit);
    let to_effort = "{"@ + limit + r#","messages":["#@ + text::joined(
        r.messages.map_values(|m: MessageView| message_text(m)),
        ","@,
    ) + r#"],"model":"#@ + json::json_literal(r.model);
    let to_stream = to_effort + effort;
    let to_usage = to_stream + stream;
    let to_heat = to_usage + usage;
    assert(all == to_heat + heat + "}"@);
    lemma_found(all, "{"@.len() as int, limit);
    lemma_found(all, to_effort.len() as int, effort);
    lemma_found(all, to_stream.len() as int, stream);
    lemma_found(all, to_usage.len() as int, usage);
    lemma_found(all, to_heat.len() as int, heat);
}

proof fn lemma_found(all: Seq<char>, at: int, part: Seq<char>)
    requires
        0 <= at,
        at + part.len() <= all.len(),
        forall|k: int| 0 <= k < part.len() ==> all[at + k] == #[trigger] part[k],
    ensures
        text::occurs(all, part),
{
    assert(all.subrange(at, at + part.len()) =~= part);
    assert(text::occurs_at(all, part, at));
}

} // verus!

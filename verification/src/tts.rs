//! Text to speech for rehearsals: who reads a text, and how its recording is
//! called.

use vstd::prelude::*;
use crate::lang::Language;
use crate::sse;
use crate::text;

verus! {

pub const SPEECH_URL: &'static str = "https://api.openai.com/v1/audio/speech";

pub const SPEECH_MODEL: &'static str = "gpt-4o-mini-tts";

pub const OPENAI_VOICE: &'static str = "alloy";

pub const OPENAI_INSTRUCTIONS: &'static str = "Speak like a calm, professional senior engineer conducting a technical \
interview. Neutral American accent, clear and unhurried.";

/// How much of a refusal goes into the error, in characters.
pub const SNIPPET_CHARS: usize = 200;

/// How many words and characters of a text go into a file's name.
pub const SLUG_WORDS: usize = 6;

pub const SLUG_CHARS: usize = 48;

/// Who can read a text.
#[derive(Clone, Copy, Debug, PartialEq, Eq, Structural)]
pub enum Reader {
    /// The model on the device.
    Kokoro,
    /// OpenAI.
    OpenAi,
}

/// The reader's name in the log.
pub open spec fn reader_name(reader: Reader) -> Seq<char> {
    match reader {
        Reader::Kokoro => "kokoro"@,
        Reader::OpenAi => "openai/gpt-4o-mini-tts"@,
    }
}

pub fn provider_name(reader: Reader) -> (r: &'static str)
    ensures
        r@ == reader_name(reader),
{
    match reader {
        Reader::Kokoro => "kokoro",
        Reader::OpenAi => "openai/gpt-4o-mini-tts",
    }
}

/// The readers to try, in order: the one on the device first, where the program
/// has one and it speaks the language. It has no Spanish voice.
pub open spec fn readers_for(language: Language, local: bool) -> Seq<Reader> {
    if local && language == Language::English {
        seq![Reader::Kokoro, Reader::OpenAi]
    } else {
        seq![Reader::OpenAi]
    }
}

pub fn readers(language: Language, local: bool) -> (r: Vec<Reader>)
    ensures
        r@ == readers_for(language, local),
{
    let mut out: Vec<Reader> = Vec::new();
    if local && language == Language::English {
        out.push(Reader::Kokoro);
    }
    out.push(Reader::OpenAi);
    assert(out@ =~= readers_for(language, local));
    out
}

/// Whether OpenAI can be asked.
pub fn check_openai(has_key: bool) -> (r: Result<(), String>)
    ensures
        r is Ok <==> has_key,
        r matches Err(e) ==> e@
            == "no Kokoro and no OPENAI_API_KEY — cannot synthesize speech"@,
{
    if has_key {
        Ok(())
    } else {
        Err("no Kokoro and no OPENAI_API_KEY — cannot synthesize speech".to_owned())
    }
}

/// The error for a request that OpenAI refused.
pub fn speech_error(status: &str, body: &str) -> (r: String)
    ensures
        r@ == "OpenAI TTS "@ + sse::refused(status@, body@, SNIPPET_CHARS as nat),
{
    let mut message = "OpenAI TTS ".to_owned();
    let refused = sse::http_error(status, body, SNIPPET_CHARS);
    message.append(refused.as_str());
    message
}

// ── File names ─────────────────────────────────────────────────────────────

/// An ASCII letter or digit.
pub open spec fn is_plain(c: char) -> bool {
    ('0' <= c && c <= '9') || ('A' <= c && c <= 'Z') || ('a' <= c && c <= 'z')
}

/// An ASCII letter in lower case; any other character as it is.
pub open spec fn ascii_lower(c: char) -> char {
    if 'A' <= c && c <= 'Z' {
        (c as u32 + 32) as char
    } else {
        c
    }
}

/// A text with its ASCII letters in lower case.
pub open spec fn lowered(s: Seq<char>) -> Seq<char> {
    s.map_values(|c: char| ascii_lower(c))
}

fn lower_char(c: char) -> (r: char)
    ensures
        r == ascii_lower(c),
{
    if 'A' <= c && c <= 'Z' {
        (c as u8 + 32) as char
    } else {
        c
    }
}

fn lower(s: &str) -> (r: String)
    ensures
        r@ == lowered(s@),
{
    let cs = text::chars_of(s);
    let mut out = String::new();
    let mut k: usize = 0;
    assert(out@ =~= lowered(cs@.take(0)));
    while k < cs.len()
        invariant
            k <= cs@.len(),
            out@ == lowered(cs@.take(k as int)),
        decreases cs@.len() - k,
    {
        out.push(lower_char(cs[k]));
        k += 1;
        assert(out@ =~= lowered(cs@.take(k as int)));
    }
    assert(cs@.take(k as int) =~= s@);
    out
}

/// The words of a text that can stand in a file's name.
pub open spec fn plain_words(s: Seq<char>) -> Seq<Seq<char>> {
    text::runs_of(s, s.map_values(|c: char| is_plain(c))).map_values(|w: Seq<char>| lowered(w))
}

/// The first words of a text, joined by hyphens and cut to a length; `clip`
/// where it has none.
pub open spec fn slug_of(s: Seq<char>) -> Seq<char> {
    let words = plain_words(s);
    if words.len() == 0 {
        "clip"@
    } else {
        text::head(
            text::joined(
                if words.len() > SLUG_WORDS {
                    words.take(SLUG_WORDS as int)
                } else {
                    words
                },
                "-"@,
            ),
            SLUG_CHARS as nat,
        )
    }
}

pub fn slug(s: &str) -> (r: String)
    ensures
        r@ == slug_of(s@),
{
    let cs = text::chars_of(s);
    let ghost marks = s@.map_values(|c: char| is_plain(c));
    let mut keep: Vec<bool> = Vec::new();
    let mut k: usize = 0;
    while k < cs.len()
        invariant
            k <= cs@.len(),
            cs@ == s@,
            marks == s@.map_values(|c: char| is_plain(c)),
            keep@ == marks.take(k as int),
        decreases cs@.len() - k,
    {
        let c = cs[k];
        keep.push(
            ('0' <= c && c <= '9') || ('A' <= c && c <= 'Z') || ('a' <= c && c <= 'z'),
        );
        k += 1;
        assert(keep@ =~= marks.take(k as int));
    }
    assert(keep@ =~= marks);
    let runs = text::runs(s, &keep);
    let ghost words = plain_words(s@);
    let mut parts: Vec<String> = Vec::new();
    let mut j: usize = 0;
    assert(words.take(0) =~= seq![]);
    while j < runs.len() && j < SLUG_WORDS
        invariant
            j <= runs@.len(),
            j <= SLUG_WORDS,
            text::views(runs@) == text::runs_of(s@, marks),
            words == plain_words(s@),
            marks == s@.map_values(|c: char| is_plain(c)),
            text::views(parts@) == words.take(j as int),
        decreases SLUG_WORDS - j,
    {
        let ghost so_far = parts@;
        let word = lower(runs[j].as_str());
        assert(text::views(runs@)[j as int] == runs@[j as int]@);
        assert(words[j as int] == word@);
        parts.push(word);
        assert(text::views(parts@) =~= text::views(so_far).push(word@));
        j += 1;
        assert(text::views(parts@) =~= words.take(j as int));
    }
    assert(words.len() == runs@.len());
    if runs.len() == 0 {
        return "clip".to_owned();
    }
    assert(words.take(words.len() as int) =~= words);
    let name = text::join(&parts, "-");
    text::take_chars(name.as_str(), SLUG_CHARS).to_owned()
}

/// The name of a recording's file: when it was made, and how it starts.
pub fn clip_name(stamp: &str, said: &str) -> (r: String)
    ensures
        r@ == stamp@ + "-"@ + slug_of(said@) + ".wav"@,
{
    let mut out = stamp.to_owned();
    out.append("-");
    let words = slug(said);
    out.append(words.as_str());
    out.append(".wav");
    out
}

/// A recording, once made.
pub struct TtsOutcome {
    pub provider: String,
    pub wav_path: String,
    pub gen_ms: u64,
}

/// The words for a name are the letters and digits of the text, in lower case,
/// cut where anything else stands.
pub proof fn other_characters_separate_words(a: Seq<char>, c: char, b: Seq<char>)
    requires
        !is_plain(c),
    ensures
        plain_words(a.push(c) + b) == plain_words(a) + plain_words(b),
        (forall|i: int| 0 <= i < b.len() ==> is_plain(#[trigger] b[i])) && b.len() > 0
            ==> plain_words(b) == seq![lowered(b)],
        plain_words(Seq::<char>::empty()) == Seq::<Seq<char>>::empty(),
{
    let f = |c: char| is_plain(c);
    let g = |w: Seq<char>| lowered(w);
    let (ka, kb) = (a.map_values(f), b.map_values(f));
    let s = a.push(c) + b;
    assert(s.map_values(f) =~= ka.push(false) + kb);
    text::unmarked_separates_runs(a, ka, c, b, kb);
    assert(plain_words(s) =~= plain_words(a) + plain_words(b));
    if b.len() > 0 && forall|i: int| 0 <= i < b.len() ==> is_plain(#[trigger] b[i]) {
        assert forall|i: int| 0 <= i < kb.len() implies #[trigger] kb[i] by {
            assert(is_plain(b[i]));
        }
        text::marked_throughout_is_one_run(b, kb);
        assert(plain_words(b) =~= seq![lowered(b)]);
    }
    let none = Seq::<char>::empty();
    text::marked_throughout_is_one_run(none, none.map_values(f));
    assert(plain_words(none) =~= Seq::<Seq<char>>::empty());
}

/// A name holds the first six words, joined by hyphens, up to forty-eight
/// characters; a text without a word is a clip.
pub proof fn names_start_like_the_text(s: Seq<char>)
    ensures
        ({
            let words = plain_words(s);
            let first = if words.len() > 6 {
                words.take(6)
            } else {
                words
            };
            let name = text::joined(first, "-"@);
            &&& words.len() == 0 ==> slug_of(s) == "clip"@
            &&& words.len() > 0 && name.len() <= 48 ==> slug_of(s) == name
            &&& words.len() > 0 && name.len() > 48 ==> slug_of(s) == name.take(48)
        }),
{
}

/// The reader on the device is asked first, for the language it speaks; OpenAI
/// is always there to ask.
pub proof fn someone_can_read(language: Language, local: bool)
    ensures
        readers_for(language, local).last() == Reader::OpenAi,
        readers_for(language, local).contains(Reader::Kokoro) <==> local && language
            == Language::English,
        readers_for(language, local)[0] == Reader::Kokoro || readers_for(language, local).len()
            == 1,
{
    let all = readers_for(language, local);
    if local && language == Language::English {
        assert(all[0] == Reader::Kokoro);
    }
}

/// Only ASCII letters and digits go into a name, the letters in lower case.
pub proof fn names_are_plain_ascii(c: char)
    ensures
        is_plain(c) <==> (48 <= c as u32 <= 57) || (65 <= c as u32 <= 90) || (97 <= c as u32
            <= 122),
        65 <= c as u32 <= 90 ==> ascii_lower(c) as u32 == c as u32 + 32,
        !(65 <= c as u32 <= 90) ==> ascii_lower(c) == c,
        reader_name(Reader::Kokoro) == "kokoro"@,
        reader_name(Reader::OpenAi) == "openai/gpt-4o-mini-tts"@,
{
}

} // verus!

//! The language that speech is transcribed in and answers are written in.
//!
//! English is the default; the user switches from the overlay. The choice
//! takes effect on the next listening session and on the next answer.

use vstd::prelude::*;
use crate::text;

verus! {

/// A language the copilot can transcribe speech in and answer in.
#[derive(Clone, Copy, Debug, PartialEq, Eq, Structural)]
pub enum Language {
    English,
    Spanish,
}

impl Default for Language {
    fn default() -> (r: Self)
        ensures
            r == Language::English,
    {
        Language::English
    }
}

/// The language that a tag names, long form or short.
pub open spec fn language_of(tag: Seq<char>) -> Option<Language> {
    if tag == "english"@ || tag == "en"@ {
        Some(Language::English)
    } else if tag == "spanish"@ || tag == "es"@ {
        Some(Language::Spanish)
    } else {
        None
    }
}

/// The long tag of a language.
pub open spec fn language_tag(language: Language) -> Seq<char> {
    match language {
        Language::English => "english"@,
        Language::Spanish => "spanish"@,
    }
}

/// The ISO-639-1 code of a language.
pub open spec fn language_code(language: Language) -> Seq<char> {
    match language {
        Language::English => "en"@,
        Language::Spanish => "es"@,
    }
}

/// Reading back what was written: both the tag and the code of a language
/// name that language, and no other.
pub proof fn tags_name_their_language(language: Language)
    ensures
        language_of(language_tag(language)) == Some(language),
        language_of(language_code(language)) == Some(language),
{
    reveal_strlit("english");
    reveal_strlit("spanish");
    reveal_strlit("en");
    reveal_strlit("es");
    assert("english"@[0] == 'e' && "spanish"@[0] == 's');
    assert("en"@[1] == 'n' && "es"@[1] == 's');
}

impl Language {
    /// Parse the tag the UI sends. `None` for a tag that names no language.
    pub fn from_tag(s: &str) -> (r: Option<Self>)
        ensures
            r == language_of(s@),
    {
        if text::same(s, "english") || text::same(s, "en") {
            Some(Language::English)
        } else if text::same(s, "spanish") || text::same(s, "es") {
            Some(Language::Spanish)
        } else {
            None
        }
    }

    /// The lower-case tag the UI keeps and the commands exchange.
    pub fn tag(self) -> (r: &'static str)
        ensures
            r@ == language_tag(self),
    {
        match self {
            Language::English => "english",
            Language::Spanish => "spanish",
        }
    }

    /// The ISO-639-1 code handed to Whisper.
    pub fn whisper_code(self) -> (r: &'static str)
        ensures
            r@ == language_code(self),
    {
        match self {
            Language::English => "en",
            Language::Spanish => "es",
        }
    }

    /// The directories, outermost first, that lead from the model store to
    /// this language's copy of an on-device model. English keeps the flat
    /// layout; Spanish nests one level under `es`.
    pub fn sherpa_subdir(self, model: &str) -> (r: Vec<String>)
        ensures
            text::views(r@) == (match self {
                Language::English => seq![model@],
                Language::Spanish => seq!["es"@, model@],
            }),
    {
        let mut parts: Vec<String> = Vec::new();
        if let Language::Spanish = self {
            parts.push("es".to_owned());
        }
        parts.push(model.to_owned());
        assert(text::views(parts@) =~= (match self {
            Language::English => seq![model@],
            Language::Spanish => seq!["es"@, model@],
        }));
        parts
    }
}

} // verus!

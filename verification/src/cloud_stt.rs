//! Speech to text in the cloud: the audio file that goes up and what is made
//! of the reply.

use vstd::prelude::*;
use crate::lang::Language;
use crate::sse;
use crate::text;

verus! {

pub const URL: &'static str = "https://api.groq.com/openai/v1/audio/transcriptions";

pub const MODEL: &'static str = "whisper-large-v3-turbo";

/// How much of a refusal goes into the error, in characters.
pub const SNIPPET_CHARS: usize = 160;

// ── WAV files ──────────────────────────────────────────────────────────────

/// A number in two bytes, low byte first.
pub open spec fn le16(n: int) -> Seq<u8> {
    seq![(n % 256) as u8, ((n / 256) % 256) as u8]
}

/// A number in four bytes, low byte first.
pub open spec fn le32(n: int) -> Seq<u8> {
    le16(n % 65536) + le16(n / 65536)
}

/// A signed sample as the number that its 16 bits stand for without a sign.
pub open spec fn bits16(s: i16) -> int {
    if s < 0 {
        s + 65536
    } else {
        s as int
    }
}

/// Samples, two bytes each.
pub open spec fn pcm_bytes(samples: Seq<i16>) -> Seq<u8>
    decreases samples.len(),
{
    if samples.len() == 0 {
        seq![]
    } else {
        pcm_bytes(samples.drop_last()) + le16(bits16(samples.last()))
    }
}

/// What stands before the samples in a mono file of 16 bits per sample.
pub open spec fn wav_header(count: int, sample_rate: int) -> Seq<u8> {
    seq![0x52u8, 0x49, 0x46, 0x46] + le32(36 + 2 * count) + seq![
        0x57u8,
        0x41,
        0x56,
        0x45,
        0x66,
        0x6d,
        0x74,
        0x20,
    ] + le32(16) + le16(1) + le16(1) + le32(sample_rate) + le32(2 * sample_rate) + le16(2) + le16(
        16,
    ) + seq![0x64u8, 0x61, 0x74, 0x61] + le32(2 * count)
}

/// A mono file of 16 bits per sample.
pub open spec fn wav_file(samples: Seq<i16>, sample_rate: int) -> Seq<u8> {
    wav_header(samples.len() as int, sample_rate) + pcm_bytes(samples)
}

/// `hound::WavWriter` over memory: `new` for one channel of 16-bit integers,
/// `write_sample` for each sample in order, `finalize`. Claims that the file is
/// written and what every byte of it is. The rate must be above 0 and the
/// sizes in the header must fit: it computes with them unchecked.
#[verifier::external_body]
fn write_wav(samples: &[i16], sample_rate: u32) -> (r: Option<Vec<u8>>)
    requires
        0 < sample_rate <= 0x7fff_ffff,
        36 + 2 * samples@.len() <= u32::MAX,
    ensures
        r is Some,
        r->0@ == wav_file(samples@, sample_rate as int),
{
    let sample_format = hound::SampleFormat::Int;
    let spec = hound::WavSpec { channels: 1, sample_rate, bits_per_sample: 16, sample_format };
    let mut cursor = std::io::Cursor::new(Vec::new());
    let mut writer = hound::WavWriter::new(&mut cursor, spec).ok()?;
    for s in samples {
        writer.write_sample(*s).ok()?;
    }
    writer.finalize().ok()?;
    Some(cursor.into_inner())
}

/// The samples as a mono file at that rate.
pub fn encode_wav_mono(samples: &[i16], sample_rate: u32) -> (r: Vec<u8>)
    requires
        0 < sample_rate <= 0x7fff_ffff,
        36 + 2 * samples@.len() <= u32::MAX,
    ensures
        r@ == wav_file(samples@, sample_rate as int),
{
    write_wav(samples, sample_rate).unwrap()
}

/// The samples as a mono file at the rate that the models take.
pub fn encode_wav_16k_mono(samples: &[i16]) -> (r: Vec<u8>)
    requires
        36 + 2 * samples@.len() <= u32::MAX,
    ensures
        r@ == wav_file(samples@, 16_000),
{
    encode_wav_mono(samples, 16_000)
}

/// The sample in two bytes of a file.
pub open spec fn sample_in(low: u8, high: u8) -> int {
    let n = low + 256 * high;
    if n >= 32768 {
        n - 65536
    } else {
        n
    }
}

proof fn lemma_pcm_bytes(samples: Seq<i16>, i: int)
    requires
        0 <= i < samples.len(),
    ensures
        pcm_bytes(samples).len() == 2 * samples.len(),
        sample_in(pcm_bytes(samples)[2 * i], pcm_bytes(samples)[2 * i + 1]) == samples[i],
    decreases samples.len(),
{
    let before = pcm_bytes(samples.drop_last());
    let last = le16(bits16(samples.last()));
    lemma_pcm_len(samples.drop_last());
    if i == samples.len() - 1 {
        assert(pcm_bytes(samples)[2 * i] == last[0]);
        assert(pcm_bytes(samples)[2 * i + 1] == last[1]);
    } else {
        lemma_pcm_bytes(samples.drop_last(), i);
        assert(pcm_bytes(samples)[2 * i] == before[2 * i]);
        assert(pcm_bytes(samples)[2 * i + 1] == before[2 * i + 1]);
    }
}

proof fn lemma_pcm_len(samples: Seq<i16>)
    ensures
        pcm_bytes(samples).len() == 2 * samples.len(),
    decreases samples.len(),
{
    if samples.len() > 0 {
        lemma_pcm_len(samples.drop_last());
    }
}

/// The file gives back what was written: its header is 44 bytes long, and
/// after it every sample stands in its place.
pub proof fn wav_holds_its_samples(samples: Seq<i16>, sample_rate: int, i: int)
    requires
        0 <= i < samples.len(),
    ensures
        wav_file(samples, sample_rate).len() == 44 + 2 * samples.len(),
        sample_in(
            wav_file(samples, sample_rate)[44 + 2 * i],
            wav_file(samples, sample_rate)[44 + 2 * i + 1],
        ) == samples[i],
{
    lemma_pcm_bytes(samples, i);
    assert(wav_header(samples.len() as int, sample_rate).len() == 44);
    let file = wav_file(samples, sample_rate);
    assert(file[44 + 2 * i] == pcm_bytes(samples)[2 * i]);
    assert(file[44 + 2 * i + 1] == pcm_bytes(samples)[2 * i + 1]);
}

// ── The request and its reply ──────────────────────────────────────────────

/// A field of the form that goes up with the file.
pub struct FormField {
    pub name: &'static str,
    pub value: &'static str,
}

/// `FormField` over plain text.
pub struct FormFieldView {
    pub name: Seq<char>,
    pub value: Seq<char>,
}

impl View for FormField {
    type V = FormFieldView;

    open spec fn view(&self) -> FormFieldView {
        FormFieldView { name: self.name@, value: self.value@ }
    }
}

/// The fields of the form: the language is fixed, since the service would guess
/// one otherwise.
pub fn form_fields(language: Language) -> (r: Vec<FormField>)
    ensures
        r@.map_values(|f: FormField| f@) == seq![
            FormFieldView { name: "model"@, value: MODEL@ },
            FormFieldView { name: "language"@, value: crate::lang::language_code(language) },
            FormFieldView { name: "response_format"@, value: "text"@ },
        ],
{
    let mut out: Vec<FormField> = Vec::new();
    out.push(FormField { name: "model", value: MODEL });
    out.push(FormField { name: "language", value: language.whisper_code() });
    out.push(FormField { name: "response_format", value: "text" });
    assert(out@.map_values(|f: FormField| f@) =~= seq![
        FormFieldView { name: "model"@, value: MODEL@ },
        FormFieldView { name: "language"@, value: crate::lang::language_code(language) },
        FormFieldView { name: "response_format"@, value: "text"@ },
    ]);
    out
}

/// What a reply holds: the text without white space around it, or why there is
/// none.
pub fn read_reply(success: bool, status: &str, body: &str) -> (r: Result<String, String>)
    ensures
        match r {
            Ok(heard) => success && heard@ == text::trimmed(body@),
            Err(e) => !success && e@ == "Groq STT "@ + sse::refused(
                status@,
                body@,
                SNIPPET_CHARS as nat,
            ),
        },
{
    if success {
        return Ok(text::trim(body).to_owned());
    }
    let mut message = "Groq STT ".to_owned();
    let refused = sse::http_error(status, body, SNIPPET_CHARS);
    message.append(refused.as_str());
    Err(message)
}

} // verus!

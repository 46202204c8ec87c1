//! Finding the on-device models among the files that were fetched.

use vstd::prelude::*;
use crate::lang::Language;
use crate::text;

verus! {

/// The sample rate that the models take.
pub const SAMPLE_RATE: u32 = 16_000;

/// The voice that reads the interviewer's questions.
pub const KOKORO_SID: i32 = 6;

/// A directory next to others, as far as the search for a model goes.
pub struct Candidate {
    pub is_dir: bool,
    /// Whether it holds the file that marks a model.
    pub has_marker: bool,
}

/// Where a model is.
#[derive(Clone, Copy, Debug, PartialEq, Eq, Structural)]
pub enum ModelRoot {
    /// In the directory itself.
    Here,
    /// In the entry at this place: archives unpack into a directory of their
    /// own.
    Inside(usize),
}

/// Whether an entry of a directory holds a model.
pub open spec fn holds_model(c: Candidate) -> bool {
    c.is_dir && c.has_marker
}

/// Where the model is: in the directory, or in the first entry that holds one.
pub fn find_model_root(has_marker: bool, entries: &Vec<Candidate>) -> (r: Option<ModelRoot>)
    ensures
        match r {
            Some(ModelRoot::Here) => has_marker,
            Some(ModelRoot::Inside(i)) => !has_marker && i < entries@.len() && holds_model(
                entries@[i as int],
            ) && forall|j: int| 0 <= j < i ==> !holds_model(#[trigger] entries@[j]),
            None => !has_marker && forall|j: int|
                0 <= j < entries@.len() ==> !holds_model(#[trigger] entries@[j]),
        },
{
    if has_marker {
        return Some(ModelRoot::Here);
    }
    let mut k: usize = 0;
    while k < entries.len()
        invariant
            k <= entries@.len(),
            !has_marker,
            forall|j: int| 0 <= j < k ==> !holds_model(#[trigger] entries@[j]),
        decreases entries@.len() - k,
    {
        if entries[k].is_dir && entries[k].has_marker {
            return Some(ModelRoot::Inside(k));
        }
        k += 1;
    }
    None
}

/// Two characters are the same letter in any case.
pub open spec fn same_letter(c: char, lower: char, upper: char) -> bool {
    c == lower || c == upper
}

/// A file name ends in `.onnx`, in any case, with something before it.
pub open spec fn is_onnx(name: Seq<char>) -> bool {
    let n = name.len();
    n > 5 && name[n - 5] == '.' && same_letter(name[n - 4], 'o', 'O') && same_letter(
        name[n - 3],
        'n',
        'N',
    ) && same_letter(name[n - 2], 'n', 'N') && same_letter(name[n - 1], 'x', 'X')
}

fn has_onnx_extension(name: &str) -> (r: bool)
    ensures
        r == is_onnx(name@),
{
    let cs = text::chars_of(name);
    let n: usize = cs.len();
    n > 5 && cs[n - 5] == '.' && (cs[n - 4] == 'o' || cs[n - 4] == 'O') && (cs[n - 3] == 'n'
        || cs[n - 3] == 'N') && (cs[n - 2] == 'n' || cs[n - 2] == 'N') && (cs[n - 1] == 'x' || cs[n
        - 1] == 'X')
}

/// A file that can be the wanted part of a model.
pub open spec fn is_part(name: Seq<char>, prefix: Seq<char>) -> bool {
    text::begins_with(name, prefix) && is_onnx(name)
}

/// A part in the smaller form.
pub open spec fn is_small_part(name: Seq<char>, prefix: Seq<char>) -> bool {
    is_part(name, prefix) && text::occurs(name, "int8"@)
}

/// The file with the wanted part of a model: the first in the smaller form,
/// or else the last in the full one.
pub fn find_onnx(names: &Vec<String>, prefix: &str) -> (r: Option<usize>)
    ensures
        ({
            let all = text::views(names@);
            match r {
                Some(i) => {
                    &&& i < names@.len()
                    &&& is_part(all[i as int], prefix@)
                    &&& if is_small_part(all[i as int], prefix@) {
                        forall|j: int|
                            0 <= j < i ==> !is_small_part(#[trigger] all[j], prefix@)
                    } else {
                        &&& forall|j: int|
                            0 <= j < all.len() ==> !is_small_part(#[trigger] all[j], prefix@)
                        &&& forall|j: int|
                            i < j < all.len() ==> !is_part(#[trigger] all[j], prefix@)
                    }
                },
                None => forall|j: int|
                    0 <= j < all.len() ==> !is_part(#[trigger] all[j], prefix@),
            }
        }),
{
    let ghost all = text::views(names@);
    let mut fallback: Option<usize> = None;
    let mut k: usize = 0;
    while k < names.len()
        invariant
            k <= names@.len(),
            all == text::views(names@),
            forall|j: int| 0 <= j < k ==> !is_small_part(#[trigger] all[j], prefix@),
            match fallback {
                Some(i) => i < k && is_part(all[i as int], prefix@) && forall|j: int|
                    i < j < k ==> !is_part(#[trigger] all[j], prefix@),
                None => forall|j: int| 0 <= j < k ==> !is_part(#[trigger] all[j], prefix@),
            },
        decreases names@.len() - k,
    {
        let name = names[k].as_str();
        assert(all[k as int] == name@);
        if text::starts_with(name, prefix) && has_onnx_extension(name) {
            if text::contains(name, "int8") {
                return Some(k);
            }
            fallback = Some(k);
        }
        k += 1;
    }
    fallback
}

/// Where a part is missing, in words.
pub fn part_missing(prefix: &str, dir: &str) -> (r: String)
    ensures
        r@ == "no "@ + prefix@ + "*.onnx found in "@ + dir@,
{
    let mut out = "no ".to_owned();
    out.append(prefix);
    out.append("*.onnx found in ");
    out.append(dir);
    out
}

/// Where a model is missing, in words.
pub fn model_missing(model: &str, language: Language, dir: &str) -> (r: String)
    ensures
        r@ == model@ + " ("@ + crate::lang::language_tag(language) + ") model not found under "@
            + dir@ + " — run scripts/fetch-models.ps1"@,
{
    let mut out = model.to_owned();
    out.append(" (");
    out.append(language.tag());
    out.append(") model not found under ");
    out.append(dir);
    out.append(" — run scripts/fetch-models.ps1");
    out
}

/// The parts of the model that writes finals.
#[derive(Clone, Copy, Debug, PartialEq, Eq, Structural)]
pub struct OfflineModel {
    /// Whether it has a joiner next to its encoder and decoder.
    pub joiner: bool,
    /// Whether it is told which language it hears.
    pub pinned: bool,
}

/// The model that writes finals in a language. The Spanish one is told its
/// language: left alone it drifts into English.
pub fn offline_model(language: Language) -> (r: OfflineModel)
    ensures
        r.joiner == (language == Language::English),
        r.pinned == (language == Language::Spanish),
{
    match language {
        Language::English => OfflineModel { joiner: true, pinned: false },
        Language::Spanish => OfflineModel { joiner: false, pinned: true },
    }
}

/// A part of a model is known by how its name starts and ends, whatever stands
/// between.
pub proof fn parts_are_known_by_name(prefix: Seq<char>, middle: Seq<char>)
    requires
        prefix.len() + middle.len() > 0,
    ensures
        is_part(prefix + middle + ".onnx"@, prefix),
        is_small_part(prefix + middle + "int8"@ + ".onnx"@, prefix),
{
    reveal_strlit(".onnx");
    reveal_strlit("int8");
    let plain = prefix + middle + ".onnx"@;
    assert(plain.subrange(0, prefix.len() as int) =~= prefix);
    let small = prefix + middle + "int8"@ + ".onnx"@;
    assert(small.subrange(0, prefix.len() as int) =~= prefix);
    text::parts_occur(prefix + middle, "int8"@, ".onnx"@);
}

/// Names that end otherwise are no part of a model.
pub proof fn other_files_are_no_part(name: Seq<char>, prefix: Seq<char>)
    requires
        name.len() < 6 || name[name.len() - 5] != '.',
    ensures
        !is_part(name, prefix),
        !is_small_part(name, prefix),
{
}

} // verus!

//! Text from the clipboard: what is taken in of it, and when.

use vstd::prelude::*;
use crate::text;

verus! {

/// The most characters of a clip that are taken in.
pub const MAX_CLIP_CHARS: usize = 100_000;

/// How often the clipboard is read before a copy is given up: the other
/// program may still hold it.
pub const READ_ATTEMPTS: u32 = 3;

/// How often a selection is asked for: the first query may only wake the other
/// program up.
pub const SELECTION_ATTEMPTS: u32 = 2;

/// A text cut to the limit, with a mark where something was cut off.
pub open spec fn capped(s: Seq<char>) -> Seq<char> {
    if s.len() > MAX_CLIP_CHARS {
        s.take(MAX_CLIP_CHARS as int) + "\n…[truncated]"@
    } else {
        s
    }
}

pub fn cap(s: &str) -> (r: String)
    ensures
        r@ == capped(s@),
{
    let mut out = text::take_chars(s, MAX_CLIP_CHARS).to_owned();
    if s.unicode_len() > MAX_CLIP_CHARS {
        out.append("\n…[truncated]");
    }
    out
}

/// What is taken in of a clip.
pub open spec fn clip_of(raw: Seq<char>) -> Seq<char> {
    capped(text::trimmed(raw))
}

pub fn clip_text(raw: &str) -> (r: String)
    ensures
        r@ == clip_of(raw@),
{
    cap(text::trim(raw))
}

/// What is taken in of a selection that came in pieces.
pub fn selection_text(pieces: &Vec<String>) -> (r: Result<String, String>)
    ensures
        ({
            let all = text::trimmed(text::joined(text::views(pieces@), ""@));
            match r {
                Ok(got) => all.len() > 0 && got@ == capped(all),
                Err(e) => all.len() == 0 && e@ == "empty selection via UIA"@,
            }
        }),
{
    let all = text::join(pieces, "");
    let t = text::trim(all.as_str());
    if t.unicode_len() == 0 {
        return Err("empty selection via UIA".to_owned());
    }
    Ok(cap(t))
}

/// What follows an attempt to read the clipboard.
pub enum ReadStep {
    /// The clip.
    Done(String),
    /// Wait a moment and try again.
    Again,
    /// Give up.
    Failed(String),
}

/// An attempt to read the clipboard ended; `attempt` counts from 0.
pub fn read_text(attempt: u32, outcome: Result<String, String>) -> (r: ReadStep)
    ensures
        match (outcome, r) {
            (Ok(raw), ReadStep::Done(clip)) => clip@ == clip_of(raw@),
            (Err(_), ReadStep::Again) => attempt + 1 < READ_ATTEMPTS,
            (Err(e), ReadStep::Failed(why)) => attempt + 1 >= READ_ATTEMPTS && why@
                == "clipboard read: "@ + e@,
            _ => false,
        },
{
    match outcome {
        Ok(raw) => ReadStep::Done(clip_text(raw.as_str())),
        Err(e) => if attempt < READ_ATTEMPTS - 1 {
            ReadStep::Again
        } else {
            let mut why = "clipboard read: ".to_owned();
            why.append(e.as_str());
            ReadStep::Failed(why)
        },
    }
}

/// What follows an attempt to read the selection itself, which the other
/// program does not notice.
pub enum CopyStep {
    /// The selection.
    Done(String),
    /// Wait a moment and ask for it again.
    Again,
    /// It cannot be read: have the other program copy it.
    SyntheticCopy,
}

/// An attempt to read the selection ended; `attempt` counts from 0.
pub fn copy_selection_and_read(attempt: u32, outcome: Result<String, String>) -> (r: CopyStep)
    ensures
        match (outcome, r) {
            (Ok(s), CopyStep::Done(got)) => got@ == s@,
            (Err(_), CopyStep::Again) => attempt + 1 < SELECTION_ATTEMPTS,
            (Err(_), CopyStep::SyntheticCopy) => attempt + 1 >= SELECTION_ATTEMPTS,
            _ => false,
        },
{
    match outcome {
        Ok(s) => CopyStep::Done(s),
        Err(_) => if attempt < SELECTION_ATTEMPTS - 1 {
            CopyStep::Again
        } else {
            CopyStep::SyntheticCopy
        },
    }
}

/// Whether a copy is taken in: copies are watched, the user's own copy by
/// hotkey is not under way, and there is text that differs from the last clip.
pub open spec fn takes_clip(
    enabled: bool,
    suppressed: bool,
    clip: Option<Seq<char>>,
    last: Seq<char>,
) -> bool {
    enabled && !suppressed && clip is Some && clip->0.len() > 0 && clip->0 != last
}

/// Watches copies.
pub struct ClipWatch {
    /// Whether every copy is taken in.
    pub enabled: bool,
    /// Whether a copy by hotkey is under way, which is taken in by its own
    /// path.
    pub suppressed: bool,
    /// The clip taken in last.
    pub last: String,
}

impl ClipWatch {
    /// Copies are watched from the start.
    pub fn new() -> (r: Self)
        ensures
            r.enabled,
            !r.suppressed,
            r.last@ == Seq::<char>::empty(),
    {
        let r = ClipWatch { enabled: true, suppressed: false, last: String::new() };
        assert(r.last@ =~= Seq::<char>::empty());
        r
    }

    /// Whether a change of the clipboard is worth reading it.
    pub fn wants_read(&self) -> (r: bool)
        ensures
            r == (self.enabled && !self.suppressed),
    {
        self.enabled && !self.suppressed
    }

    /// The clipboard changed and holds this clip, if it holds text. Gives
    /// whether it is taken in.
    pub fn changed(&mut self, clip: Option<&str>) -> (r: bool)
        ensures
            r == takes_clip(
                old(self).enabled,
                old(self).suppressed,
                match clip {
                    Some(s) => Some(s@),
                    None => None,
                },
                old(self).last@,
            ),
            final(self).enabled == old(self).enabled,
            final(self).suppressed == old(self).suppressed,
            final(self).last@ == (if r {
                clip->0@
            } else {
                old(self).last@
            }),
    {
        if self.suppressed || !self.enabled {
            return false;
        }
        match clip {
            Some(s) => {
                if s.unicode_len() == 0 || text::same(self.last.as_str(), s) {
                    return false;
                }
                self.last = s.to_owned();
                true
            },
            None => false,
        }
    }

    /// A copy by hotkey begins.
    pub fn begin_manual(&mut self)
        ensures
            *final(self) == (ClipWatch { suppressed: true, ..*old(self) }),
    {
        self.suppressed = true;
    }

    /// A copy by hotkey ended. Its text is taken in even where it repeats the
    /// last clip; no text is an error.
    pub fn end_manual(&mut self, outcome: Result<String, String>) -> (r: Result<String, String>)
        ensures
            final(self).enabled == old(self).enabled,
            !final(self).suppressed,
            match (outcome, r) {
                (Ok(s), Ok(got)) => s@.len() > 0 && got@ == s@ && final(self).last@ == s@,
                (Ok(s), Err(e)) => s@.len() == 0 && e@
                    == "nothing selected (clipboard has no text)"@ && final(self).last@ == old(
                    self,
                ).last@,
                (Err(why), Err(e)) => e@ == why@ && final(self).last@ == old(self).last@,
                (Err(_), Ok(_)) => false,
            },
    {
        self.suppressed = false;
        match outcome {
            Ok(s) => {
                if s.as_str().unicode_len() == 0 {
                    return Err("nothing selected (clipboard has no text)".to_owned());
                }
                self.last = s.clone();
                Ok(s)
            },
            Err(e) => Err(e),
        }
    }

    /// Forget the last clip, so that it can be taken in again.
    pub fn clear(&mut self)
        ensures
            final(self).enabled == old(self).enabled,
            final(self).suppressed == old(self).suppressed,
            final(self).last@ == Seq::<char>::empty(),
    {
        self.last = String::new();
        assert(self.last@ =~= Seq::<char>::empty());
    }
}

/// Copying the same text twice takes it in once: right after a clip was taken
/// in, by either path, the same text is ignored.
pub proof fn same_clip_is_taken_once(enabled: bool, suppressed: bool, clip: Seq<char>)
    ensures
        !takes_clip(enabled, suppressed, Some(clip), clip),
{
}

/// A clip stays within its limit, mark included, and a clip within the limit
/// is kept whole.
pub proof fn clips_are_capped(s: Seq<char>)
    ensures
        capped(s).len() <= MAX_CLIP_CHARS + "\n…[truncated]"@.len(),
        s.len() <= MAX_CLIP_CHARS ==> capped(s) == s,
        s.len() > MAX_CLIP_CHARS ==> capped(s).take(MAX_CLIP_CHARS as int) == s.take(
            MAX_CLIP_CHARS as int,
        ),
{
    if s.len() > MAX_CLIP_CHARS {
        assert(capped(s).take(MAX_CLIP_CHARS as int) =~= s.take(MAX_CLIP_CHARS as int));
    }
}

/// A clip is all of the text without the white space around it, up to a hundred
/// thousand characters; of a longer one the first hundred thousand are kept and
/// the cut is marked.
pub proof fn clips_are_taken_whole(
    before: Seq<char>,
    clip: Seq<char>,
    after: Seq<char>,
    rest: Seq<char>,
)
    requires
        forall|i: int| 0 <= i < before.len() ==> text::white_space(#[trigger] before[i]),
        forall|i: int| 0 <= i < after.len() ==> text::white_space(#[trigger] after[i]),
        clip.len() > 0 ==> !text::white_space(clip[0]) && !text::white_space(clip.last()),
    ensures
        clip.len() <= 100_000 ==> clip_of(before + clip + after) == clip,
        clip.len() == 100_000 && rest.len() > 0 ==> capped(clip + rest) == clip
            + "\n…[truncated]"@,
{
    text::trimmed_is_what_stands_between(before, clip, after);
    assert((clip + rest).take(clip.len() as int) =~= clip);
}

/// While copies are watched every new text is taken in; while they are not, or
/// a copy by hotkey is under way, none is.
pub proof fn new_copies_are_taken(
    enabled: bool,
    suppressed: bool,
    clip: Seq<char>,
    last: Seq<char>,
)
    ensures
        takes_clip(true, false, Some(clip), last) <==> clip.len() > 0 && clip != last,
        !takes_clip(false, suppressed, Some(clip), last),
        !takes_clip(enabled, true, Some(clip), last),
        !takes_clip(enabled, suppressed, None, last),
{
}

} // verus!

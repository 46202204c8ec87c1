//! Hiding and showing the overlay windows.
//!
//! A window is never hidden: that would cost it its protection from screen
//! capture. It is parked far outside every monitor and moved back instead.
//! Where a window is decides whether it counts as hidden; the register only
//! remembers where to put it back, and why it was parked.

use vstd::prelude::*;
use crate::text;

verus! {

/// Where windows are parked, in physical pixels.
pub const OFFSCREEN_XY: i32 = -32_000;

/// Where the auxiliary windows are created, before they are parked.
pub const OFFSCREEN_CREATE_XY: i32 = -12_000;

/// A window at this abscissa or left of it is parked. Real desktops end well
/// to the right of it.
pub const OFFSCREEN_MAX_X: i32 = -20_000;

/// Why a window was parked, which decides who may bring it back.
#[derive(Clone, Copy, Debug, PartialEq, Eq, Structural)]
pub enum ParkReason {
    /// The toggle key parked it; the next press restores it.
    ToggleHidden,
    /// The user closed it, or never opened it: only its own button reveals it.
    Dismissed,
    /// A screen capture parked it for the shot and restores it, unless someone
    /// else claims it meanwhile.
    Transient,
}

/// A parked window: where to put it back (in the middle where it never had a
/// place) and why it was parked.
#[derive(Clone, Copy, Debug)]
pub struct Parked {
    pub saved: Option<(i32, i32)>,
    pub reason: ParkReason,
}

/// Whether a window at that position can be seen. One whose position cannot be
/// read counts as visible: better to move it once too often than to skip a
/// window in plain sight.
pub open spec fn onscreen(position: Option<(i32, i32)>) -> bool {
    match position {
        Some(p) => p.0 > OFFSCREEN_MAX_X,
        None => true,
    }
}

pub fn is_onscreen(position: Option<(i32, i32)>) -> (r: bool)
    ensures
        r == onscreen(position),
{
    match position {
        Some(p) => p.0 > OFFSCREEN_MAX_X,
        None => true,
    }
}

/// One line of the register.
pub struct Entry {
    label: String,
    parked: Parked,
}

/// What a register's lines say about each label.
pub closed spec fn as_map(entries: Seq<Entry>) -> Map<Seq<char>, Parked>
    decreases entries.len(),
{
    if entries.len() == 0 {
        Map::empty()
    } else {
        as_map(entries.drop_last()).insert(entries.last().label@, entries.last().parked)
    }
}

/// No label stands in the register twice.
pub closed spec fn distinct(entries: Seq<Entry>) -> bool {
    forall|i: int, j: int|
        0 <= i < j < entries.len() ==> (#[trigger] entries[i]).label@ != (
        #[trigger] entries[j]).label@
}

proof fn lemma_as_map(entries: Seq<Entry>)
    requires
        distinct(entries),
    ensures
        forall|i: int|
            0 <= i < entries.len() ==> as_map(entries).contains_key(
                (#[trigger] entries[i]).label@,
            ) && as_map(entries)[entries[i].label@] == entries[i].parked,
        forall|l: Seq<char>| #[trigger]
            as_map(entries).contains_key(l) ==> exists|i: int|
                0 <= i < entries.len() && (#[trigger] entries[i]).label@ == l,
    decreases entries.len(),
{
    if entries.len() > 0 {
        let shorter = entries.drop_last();
        assert(distinct(shorter)) by {
            assert forall|i: int, j: int| 0 <= i < j < shorter.len() implies (
            #[trigger] shorter[i]).label@ != (#[trigger] shorter[j]).label@ by {
                assert(shorter[i] == entries[i] && shorter[j] == entries[j]);
            }
        }
        lemma_as_map(shorter);
        assert forall|i: int| 0 <= i < entries.len() implies as_map(entries).contains_key(
            (#[trigger] entries[i]).label@,
        ) && as_map(entries)[entries[i].label@] == entries[i].parked by {
            if i < entries.len() - 1 {
                assert(shorter[i] == entries[i]);
                assert(entries[i].label@ != entries[entries.len() - 1].label@);
            }
        }
        assert forall|l: Seq<char>| #[trigger] as_map(entries).contains_key(l) implies exists|
            i: int,
        | 0 <= i < entries.len() && (#[trigger] entries[i]).label@ == l by {
            if l == entries.last().label@ {
                assert(entries[entries.len() - 1].label@ == l);
            } else {
                assert(as_map(shorter).contains_key(l));
                let i = choose|i: int|
                    0 <= i < shorter.len() && (#[trigger] shorter[i]).label@ == l;
                assert(entries[i].label@ == l);
            }
        }
    }
}

/// Two registers with the same lines in any order say the same.
proof fn lemma_same_map(a: Seq<Entry>, m: Map<Seq<char>, Parked>)
    requires
        distinct(a),
        forall|i: int|
            0 <= i < a.len() ==> m.contains_key((#[trigger] a[i]).label@) && m[a[i].label@]
                == a[i].parked,
        forall|l: Seq<char>| #[trigger]
            m.contains_key(l) ==> exists|i: int|
                0 <= i < a.len() && (#[trigger] a[i]).label@ == l,
    ensures
        as_map(a) == m,
{
    lemma_as_map(a);
    assert forall|l: Seq<char>| as_map(a).contains_key(l) <==> #[trigger] m.contains_key(l) by {
        if as_map(a).contains_key(l) {
            let i = choose|i: int| 0 <= i < a.len() && (#[trigger] a[i]).label@ == l;
            assert(m.contains_key(a[i].label@));
        }
        if m.contains_key(l) {
            let i = choose|i: int| 0 <= i < a.len() && (#[trigger] a[i]).label@ == l;
            assert(as_map(a).contains_key(a[i].label@));
        }
    }
    assert forall|l: Seq<char>| as_map(a).contains_key(l) implies as_map(a)[l] == m[l] by {
        let i = choose|i: int| 0 <= i < a.len() && (#[trigger] a[i]).label@ == l;
        assert(as_map(a)[a[i].label@] == a[i].parked);
    }
    assert(as_map(a) =~= m);
}

/// The register after a window at `position` is parked for a reason, and
/// whether it has to be moved.
pub open spec fn after_park(
    register: Map<Seq<char>, Parked>,
    label: Seq<char>,
    position: Option<(i32, i32)>,
    reason: ParkReason,
) -> (Map<Seq<char>, Parked>, bool) {
    if onscreen(position) {
        (register.insert(label, Parked { saved: position, reason }), true)
    } else if register.contains_key(label) {
        (register.insert(label, Parked { saved: register[label].saved, reason }), false)
    } else {
        (register.insert(label, Parked { saved: None, reason }), true)
    }
}

/// Where a window goes when it is revealed.
#[derive(Clone, Copy, Debug, PartialEq, Eq, Structural)]
pub enum Reveal {
    /// Nowhere: it is not hidden, or someone else claimed it.
    Leave,
    /// Back to where it was.
    MoveTo(i32, i32),
    /// Into the middle of the screen.
    Center,
}

/// The register after a window at `position` is revealed, and where it goes.
/// With `only_if`, only a window parked for that very reason is.
pub open spec fn after_reveal(
    register: Map<Seq<char>, Parked>,
    label: Seq<char>,
    position: Option<(i32, i32)>,
    only_if: Option<ParkReason>,
) -> (Map<Seq<char>, Parked>, Reveal) {
    if register.contains_key(label) {
        if only_if is None || only_if == Some(register[label].reason) {
            (
                register.remove(label),
                match register[label].saved {
                    Some(p) => Reveal::MoveTo(p.0, p.1),
                    None => Reveal::Center,
                },
            )
        } else {
            (register, Reveal::Leave)
        }
    } else if only_if is Some || onscreen(position) {
        (register, Reveal::Leave)
    } else {
        (register, Reveal::Center)
    }
}

/// A window and where it is.
pub struct Spot {
    pub label: String,
    pub position: Option<(i32, i32)>,
}

/// What the toggle key does.
pub enum Toggle {
    /// Park these.
    Hide(Vec<String>),
    /// Reveal these.
    Show(Vec<String>),
}

/// Whether the toggle key hides a window: it can be seen, or a capture is about
/// to bring it back.
pub open spec fn toggle_hides(
    register: Map<Seq<char>, Parked>,
    label: Seq<char>,
    position: Option<(i32, i32)>,
) -> bool {
    ||| onscreen(position)
    ||| register.contains_key(label) && register[label].reason == ParkReason::Transient
}

/// Whether the toggle key parked a window.
pub open spec fn toggle_parked(register: Map<Seq<char>, Parked>, label: Seq<char>) -> bool {
    register.contains_key(label) && register[label].reason == ParkReason::ToggleHidden
}

/// The labels that the toggle key hides, in the order of the windows.
pub open spec fn hide_list(register: Map<Seq<char>, Parked>, windows: Seq<Spot>) -> Seq<Seq<char>>
    decreases windows.len(),
{
    if windows.len() == 0 {
        seq![]
    } else {
        let before = hide_list(register, windows.drop_last());
        if toggle_hides(register, windows.last().label@, windows.last().position) {
            before.push(windows.last().label@)
        } else {
            before
        }
    }
}

/// The labels of the windows in sight, in order.
pub open spec fn in_sight_list(windows: Seq<Spot>) -> Seq<Seq<char>>
    decreases windows.len(),
{
    if windows.len() == 0 {
        seq![]
    } else {
        let before = in_sight_list(windows.drop_last());
        if onscreen(windows.last().position) {
            before.push(windows.last().label@)
        } else {
            before
        }
    }
}

/// The windows that a screen capture parks for the shot: those in sight, which
/// would show up as black boxes.
pub fn capture_hides(windows: &Vec<Spot>) -> (r: Vec<String>)
    ensures
        text::views(r@) == in_sight_list(windows@),
{
    let mut out: Vec<String> = Vec::new();
    let mut k: usize = 0;
    assert(windows@.take(0) =~= seq![]);
    assert(text::views(out@) =~= in_sight_list(windows@.take(0)));
    while k < windows.len()
        invariant
            k <= windows@.len(),
            text::views(out@) == in_sight_list(windows@.take(k as int)),
        decreases windows@.len() - k,
    {
        let ghost so_far = out@;
        assert(windows@.take(k + 1).drop_last() =~= windows@.take(k as int));
        assert(windows@.take(k + 1).last() == windows@[k as int]);
        if is_onscreen(windows[k].position) {
            out.push(windows[k].label.clone());
            assert(text::views(out@) =~= text::views(so_far).push(windows@[k as int].label@));
        }
        k += 1;
    }
    assert(windows@.take(k as int) =~= windows@);
    out
}

/// The parked windows.
pub struct Register {
    entries: Vec<Entry>,
}

impl View for Register {
    type V = Map<Seq<char>, Parked>;

    closed spec fn view(&self) -> Map<Seq<char>, Parked> {
        as_map(self.entries@)
    }
}

impl Register {
    pub closed spec fn wf(self) -> bool {
        distinct(self.entries@)
    }

    pub fn new() -> (r: Self)
        ensures
            r.wf(),
            r@ == Map::<Seq<char>, Parked>::empty(),
    {
        Register { entries: Vec::new() }
    }

    fn find(&self, label: &str) -> (r: Option<usize>)
        requires
            self.wf(),
        ensures
            match r {
                Some(i) => i < self.entries@.len() && self.entries@[i as int].label@ == label@
                    && self@.contains_key(label@) && self@[label@]
                    == self.entries@[i as int].parked,
                None => !self@.contains_key(label@) && forall|j: int|
                    0 <= j < self.entries@.len() ==> (#[trigger] self.entries@[j]).label@
                        != label@,
            },
    {
        let mut k: usize = 0;
        proof {
            lemma_as_map(self.entries@);
        }
        while k < self.entries.len()
            invariant
                k <= self.entries@.len(),
                self.wf(),
                forall|i: int|
                    0 <= i < self.entries@.len() ==> self@.contains_key(
                        (#[trigger] self.entries@[i]).label@,
                    ) && self@[self.entries@[i].label@] == self.entries@[i].parked,
                forall|j: int| 0 <= j < k ==> (#[trigger] self.entries@[j]).label@ != label@,
            decreases self.entries@.len() - k,
        {
            if text::same(self.entries[k].label.as_str(), label) {
                return Some(k);
            }
            k += 1;
        }
        None
    }

    fn put(&mut self, label: &str, parked: Parked)
        requires
            old(self).wf(),
        ensures
            final(self).wf(),
            final(self)@ == old(self)@.insert(label@, parked),
    {
        let ghost before = self.entries@;
        let ghost target = self@.insert(label@, parked);
        proof {
            lemma_as_map(before);
        }
        match self.find(label) {
            Some(i) => {
                let entry = Entry { label: label.to_owned(), parked };
                self.entries.set(i, entry);
                proof {
                    let after = self.entries@;
                    assert forall|a: int, b: int| 0 <= a < b < after.len() implies (
                    #[trigger] after[a]).label@ != (#[trigger] after[b]).label@ by {
                        assert(after[a].label@ == before[a].label@);
                        assert(after[b].label@ == before[b].label@);
                    }
                    assert forall|a: int| 0 <= a < after.len() implies target.contains_key(
                        (#[trigger] after[a]).label@,
                    ) && target[after[a].label@] == after[a].parked by {
                        assert(after[a].label@ == before[a].label@);
                        if a != i {
                            assert(before[a].label@ != before[i as int].label@);
                        }
                    }
                    assert forall|l: Seq<char>| #[trigger] target.contains_key(l) implies exists|
                        a: int,
                    | 0 <= a < after.len() && (#[trigger] after[a]).label@ == l by {
                        if l == label@ {
                            assert(after[i as int].label@ == l);
                        } else {
                            assert(as_map(before).contains_key(l));
                            let a = choose|a: int|
                                0 <= a < before.len() && (#[trigger] before[a]).label@ == l;
                            assert(after[a].label@ == l);
                        }
                    }
                    lemma_same_map(after, target);
                }
            },
            None => {
                let entry = Entry { label: label.to_owned(), parked };
                self.entries.push(entry);
                proof {
                    let after = self.entries@;
                    assert(after.drop_last() =~= before);
                    assert forall|a: int, b: int| 0 <= a < b < after.len() implies (
                    #[trigger] after[a]).label@ != (#[trigger] after[b]).label@ by {
                        assert(after[a] == before[a]);
                        if b < before.len() {
                            assert(after[b] == before[b]);
                        }
                    }
                }
            },
        }
    }

    fn take(&mut self, at: usize)
        requires
            old(self).wf(),
            at < old(self).entries@.len(),
        ensures
            final(self).wf(),
            final(self)@ == old(self)@.remove(old(self).entries@[at as int].label@),
    {
        let ghost before = self.entries@;
        let ghost gone = before[at as int].label@;
        let ghost target = self@.remove(gone);
        let _ = self.entries.remove(at);
        proof {
            lemma_as_map(before);
            let after = self.entries@;
            assert forall|a: int, b: int| 0 <= a < b < after.len() implies (
            #[trigger] after[a]).label@ != (#[trigger] after[b]).label@ by {
                let a0 = if a < at { a } else { a + 1 };
                let b0 = if b < at { b } else { b + 1 };
                assert(after[a] == before[a0] && after[b] == before[b0]);
            }
            assert forall|a: int| 0 <= a < after.len() implies target.contains_key(
                (#[trigger] after[a]).label@,
            ) && target[after[a].label@] == after[a].parked by {
                let a0 = if a < at { a } else { a + 1 };
                assert(after[a] == before[a0]);
                assert(before[a0].label@ != before[at as int].label@);
            }
            assert forall|l: Seq<char>| #[trigger] target.contains_key(l) implies exists|a: int|
                0 <= a < after.len() && (#[trigger] after[a]).label@ == l by {
                assert(as_map(before).contains_key(l));
                let a = choose|a: int|
                    0 <= a < before.len() && (#[trigger] before[a]).label@ == l;
                if a < at {
                    assert(after[a] == before[a]);
                } else {
                    assert(after[a - 1] == before[a]);
                }
            }
            lemma_same_map(after, target);
        }
    }

    /// A window that was created out of sight: only its own button reveals it.
    pub fn created_hidden(&mut self, label: &str)
        requires
            old(self).wf(),
        ensures
            final(self).wf(),
            final(self)@ == old(self)@.insert(
                label@,
                Parked { saved: None, reason: ParkReason::Dismissed },
            ),
    {
        self.put(label, Parked { saved: None, reason: ParkReason::Dismissed });
    }

    /// Park the window that is at `position`. Gives whether it has to be moved
    /// to the parking place: one that is out of sight already stays there and
    /// only takes on the new reason.
    pub fn park_offscreen(
        &mut self,
        label: &str,
        position: Option<(i32, i32)>,
        reason: ParkReason,
    ) -> (moved: bool)
        requires
            old(self).wf(),
        ensures
            final(self).wf(),
            (final(self)@, moved) == after_park(old(self)@, label@, position, reason),
    {
        if is_onscreen(position) {
            self.put(label, Parked { saved: position, reason });
            return true;
        }
        match self.find(label) {
            Some(i) => {
                let saved = self.entries[i].parked.saved;
                self.put(label, Parked { saved, reason });
                false
            },
            None => {
                self.put(label, Parked { saved: None, reason });
                true
            },
        }
    }

    /// Reveal the window that is at `position`; with `only_if`, only where it
    /// is parked for that reason.
    pub fn bring_back(
        &mut self,
        label: &str,
        position: Option<(i32, i32)>,
        only_if: Option<ParkReason>,
    ) -> (r: Reveal)
        requires
            old(self).wf(),
        ensures
            final(self).wf(),
            (final(self)@, r) == after_reveal(old(self)@, label@, position, only_if),
    {
        match self.find(label) {
            Some(i) => {
                let parked = self.entries[i].parked;
                let allowed = match only_if {
                    None => true,
                    Some(reason) => reason == parked.reason,
                };
                if !allowed {
                    return Reveal::Leave;
                }
                self.take(i);
                match parked.saved {
                    Some(p) => Reveal::MoveTo(p.0, p.1),
                    None => Reveal::Center,
                }
            },
            None => {
                if only_if.is_some() || is_onscreen(position) {
                    Reveal::Leave
                } else {
                    Reveal::Center
                }
            },
        }
    }

    /// Reveal a window whatever it was parked for.
    pub fn reveal_onscreen(&mut self, label: &str, position: Option<(i32, i32)>) -> (r: Reveal)
        requires
            old(self).wf(),
        ensures
            final(self).wf(),
            (final(self)@, r) == after_reveal(old(self)@, label@, position, None),
    {
        self.bring_back(label, position, None)
    }

    /// Reveal a window that a capture parked, unless someone claimed it since.
    pub fn reveal_if_transient(&mut self, label: &str, position: Option<(i32, i32)>) -> (r: Reveal)
        requires
            old(self).wf(),
        ensures
            final(self).wf(),
            (final(self)@, r) == after_reveal(
                old(self)@,
                label@,
                position,
                Some(ParkReason::Transient),
            ),
    {
        self.bring_back(label, position, Some(ParkReason::Transient))
    }

    /// What a press of the toggle key does to these windows: hides everything
    /// in sight, or else shows what the key hid, the main window by default.
    pub fn toggle(&self, windows: &Vec<Spot>) -> (r: Toggle)
        requires
            self.wf(),
        ensures
            match r {
                Toggle::Hide(labels) => labels@.len() > 0 && text::views(labels@) == hide_list(
                    self@,
                    windows@,
                ),
                Toggle::Show(labels) => {
                    &&& hide_list(self@, windows@).len() == 0
                    &&& labels@.len() > 0
                    &&& text::views(labels@).no_duplicates()
                    &&& forall|l: Seq<char>|
                        text::views(labels@).contains(l) <==> (#[trigger] toggle_parked(self@, l)
                            || (l == "main"@ && forall|o: Seq<char>| !#[trigger]
                            toggle_parked(self@, o)))
                },
            },
    {
        let mut in_sight: Vec<String> = Vec::new();
        let mut k: usize = 0;
        assert(windows@.take(0) =~= seq![]);
        assert(text::views(in_sight@) =~= hide_list(self@, windows@.take(0)));
        while k < windows.len()
            invariant
                k <= windows@.len(),
                self.wf(),
                text::views(in_sight@) == hide_list(self@, windows@.take(k as int)),
            decreases windows@.len() - k,
        {
            let w = &windows[k];
            let ghost so_far = in_sight@;
            assert(windows@.take(k + 1).drop_last() =~= windows@.take(k as int));
            assert(windows@.take(k + 1).last() == windows@[k as int]);
            let transient = match self.find(w.label.as_str()) {
                Some(i) => self.entries[i].parked.reason == ParkReason::Transient,
                None => false,
            };
            if transient || is_onscreen(w.position) {
                in_sight.push(w.label.clone());
                assert(text::views(in_sight@) =~= text::views(so_far).push(w.label@));
            }
            k += 1;
        }
        assert(windows@.take(k as int) =~= windows@);
        assert(text::views(in_sight@).len() == in_sight@.len());
        if in_sight.len() > 0 {
            return Toggle::Hide(in_sight);
        }
        let mut show: Vec<String> = Vec::new();
        let mut i: usize = 0;
        proof {
            lemma_as_map(self.entries@);
        }
        while i < self.entries.len()
            invariant
                i <= self.entries@.len(),
                self.wf(),
                forall|a: int|
                    0 <= a < self.entries@.len() ==> self@.contains_key(
                        (#[trigger] self.entries@[a]).label@,
                    ) && self@[self.entries@[a].label@] == self.entries@[a].parked,
                forall|b: int|
                    0 <= b < show@.len() ==> toggle_parked(self@, (#[trigger] show@[b])@) && exists|
                        a: int,
                    | 0 <= a < i && (#[trigger] self.entries@[a]).label@ == show@[b]@,
                text::views(show@).no_duplicates(),
                forall|a: int|
                    0 <= a < i && (#[trigger] self.entries@[a]).parked.reason
                        == ParkReason::ToggleHidden ==> text::views(show@).contains(
                        self.entries@[a].label@,
                    ),
            decreases self.entries@.len() - i,
        {
            let ghost so_far = show@;
            if self.entries[i].parked.reason == ParkReason::ToggleHidden {
                let label = self.entries[i].label.clone();
                show.push(label);
                proof {
                    assert(text::views(show@) =~= text::views(so_far).push(label@));
                    assert(text::views(show@)[so_far.len() as int] == label@);
                    assert(self.entries@[i as int].label@ == label@);
                    assert forall|b: int| 0 <= b < so_far.len() implies (#[trigger] so_far[b])@
                        != label@ by {
                        let a = choose|a: int|
                            0 <= a < i && (#[trigger] self.entries@[a]).label@ == so_far[b]@;
                        assert(self.entries@[a].label@ != self.entries@[i as int].label@);
                    }
                    assert forall|b: int, c: int|
                        0 <= b < show@.len() && 0 <= c < show@.len() && b != c implies text::views(
                        show@,
                    )[b] != text::views(show@)[c] by {
                        let old_views = text::views(so_far);
                        if b < so_far.len() && c < so_far.len() {
                            assert(old_views[b] != old_views[c]);
                        } else if b < so_far.len() {
                            assert(so_far[b]@ != label@);
                        } else {
                            assert(so_far[c]@ != label@);
                        }
                    }
                    assert forall|b: int| 0 <= b < show@.len() implies toggle_parked(
                        self@,
                        (#[trigger] show@[b])@,
                    ) && exists|a: int|
                        0 <= a < i + 1 && (#[trigger] self.entries@[a]).label@ == show@[b]@ by {
                        if b < so_far.len() {
                            assert(show@[b] == so_far[b]);
                            let a = choose|a: int|
                                0 <= a < i && (#[trigger] self.entries@[a]).label@ == so_far[b]@;
                            assert(self.entries@[a].label@ == show@[b]@);
                        }
                    }
                    assert forall|a: int|
                        0 <= a < i + 1 && (#[trigger] self.entries@[a]).parked.reason
                            == ParkReason::ToggleHidden implies text::views(show@).contains(
                        self.entries@[a].label@,
                    ) by {
                        if a < i {
                            let l = self.entries@[a].label@;
                            let b = choose|b: int|
                                0 <= b < text::views(so_far).len() && text::views(so_far)[b] == l;
                            assert(text::views(show@)[b] == l);
                        }
                    }
                }
            }
            i += 1;
        }
        proof {
            assert forall|l: Seq<char>|
                text::views(show@).contains(l) <==> #[trigger] toggle_parked(self@, l) by {
                if text::views(show@).contains(l) {
                    let b = choose|b: int|
                        0 <= b < text::views(show@).len() && text::views(show@)[b] == l;
                    assert(toggle_parked(self@, show@[b]@));
                }
                if toggle_parked(self@, l) {
                    let a = choose|a: int|
                        0 <= a < self.entries@.len() && (#[trigger] self.entries@[a]).label@ == l;
                    assert(self.entries@[a].parked.reason == ParkReason::ToggleHidden);
                }
            }
        }
        if show.len() == 0 {
            show.push("main".to_owned());
            proof {
                assert forall|o: Seq<char>| !#[trigger] toggle_parked(self@, o) by {}
                assert(text::views(show@) =~= seq!["main"@]);
                assert(text::views(show@)[0] == "main"@);
            }
        } else {
            proof {
                assert(toggle_parked(self@, show@[0]@));
            }
        }
        Toggle::Show(show)
    }
}

/// Hiding and showing comes out even: a window that was in sight goes back to
/// exactly where it was, and the register forgets it.
pub proof fn park_then_reveal_puts_it_back(
    register: Map<Seq<char>, Parked>,
    label: Seq<char>,
    x: i32,
    y: i32,
    reason: ParkReason,
    later: Option<(i32, i32)>,
)
    requires
        onscreen(Some((x, y))),
    ensures
        ({
            let parked = after_park(register, label, Some((x, y)), reason).0;
            after_reveal(parked, label, later, None) == (
                register.remove(label),
                Reveal::MoveTo(x, y),
            )
        }),
{
    let parked = after_park(register, label, Some((x, y)), reason).0;
    assert(parked.remove(label) =~= register.remove(label));
}

/// A window at the parking place is out of sight.
pub proof fn parked_is_out_of_sight()
    ensures
        !onscreen(Some((OFFSCREEN_XY, OFFSCREEN_XY))),
{
}

/// The latest intent wins: parking a window that is out of sight already keeps
/// the place it goes back to and takes on the new reason.
pub proof fn latest_reason_wins(
    register: Map<Seq<char>, Parked>,
    label: Seq<char>,
    position: Option<(i32, i32)>,
    reason: ParkReason,
)
    requires
        !onscreen(position),
        register.contains_key(label),
    ensures
        ({
            let (next, moved) = after_park(register, label, position, reason);
            &&& !moved
            &&& next[label].reason == reason
            &&& next[label].saved == register[label].saved
        }),
{
}

/// A capture never brings back a window that the user hid while the shot was
/// taken.
pub proof fn capture_respects_the_user(
    register: Map<Seq<char>, Parked>,
    label: Seq<char>,
    position: Option<(i32, i32)>,
    reason: ParkReason,
    later: Option<(i32, i32)>,
)
    requires
        reason != ParkReason::Transient,
    ensures
        ({
            let claimed = after_park(register, label, position, reason).0;
            after_reveal(claimed, label, later, Some(ParkReason::Transient)) == (
                claimed,
                Reveal::Leave,
            )
        }),
{
}

/// The toggle key never brings back a window that the user closed: no label
/// parked for that reason is among those that the key parked.
pub proof fn toggle_leaves_dismissed_windows(
    register: Map<Seq<char>, Parked>,
    label: Seq<char>,
    position: Option<(i32, i32)>,
)
    ensures
        !toggle_parked(after_park(register, label, position, ParkReason::Dismissed).0, label),
{
}

/// A press of the toggle key leaves no window in sight behind: everything that
/// can be seen is on the list of what it hides.
pub proof fn toggle_hides_everything_in_sight(
    register: Map<Seq<char>, Parked>,
    windows: Seq<Spot>,
    i: int,
)
    requires
        0 <= i < windows.len(),
        onscreen(windows[i].position),
    ensures
        hide_list(register, windows).contains(windows[i].label@),
    decreases windows.len(),
{
    let before = hide_list(register, windows.drop_last());
    let last = windows.last();
    if i == windows.len() - 1 {
        assert(before.push(last.label@)[before.len() as int] == last.label@);
    } else {
        toggle_hides_everything_in_sight(register, windows.drop_last(), i);
        let j = choose|j: int| 0 <= j < before.len() && before[j] == windows[i].label@;
        assert(hide_list(register, windows)[j] == windows[i].label@);
    }
}

/// The labels of some windows.
pub open spec fn labels_of(windows: Seq<Spot>) -> Seq<Seq<char>> {
    windows.map_values(|w: Spot| w.label@)
}

/// The register after a press of the toggle key parked what it hides.
pub open spec fn after_hiding(register: Map<Seq<char>, Parked>, windows: Seq<Spot>) -> Map<
    Seq<char>,
    Parked,
>
    decreases windows.len(),
{
    if windows.len() == 0 {
        register
    } else {
        let before = after_hiding(register, windows.drop_last());
        let w = windows.last();
        if toggle_hides(register, w.label@, w.position) {
            after_park(before, w.label@, w.position, ParkReason::ToggleHidden).0
        } else {
            before
        }
    }
}

/// Where a window is after that press: what was in sight was moved to the
/// parking place, and what was not stays where it is.
pub open spec fn place_after_hiding(w: Spot) -> Option<(i32, i32)> {
    if onscreen(w.position) {
        Some((OFFSCREEN_XY, OFFSCREEN_XY))
    } else {
        w.position
    }
}

/// The register after these windows were revealed, one after the other.
pub open spec fn after_showing(register: Map<Seq<char>, Parked>, labels: Seq<Seq<char>>) -> Map<
    Seq<char>,
    Parked,
>
    decreases labels.len(),
{
    if labels.len() == 0 {
        register
    } else {
        let place = Some((OFFSCREEN_XY, OFFSCREEN_XY));
        after_reveal(
            after_showing(register, labels.drop_last()),
            labels.last(),
            place,
            None,
        ).0
    }
}

/// Two registers say the same of a label.
pub open spec fn same_at(
    a: Map<Seq<char>, Parked>,
    b: Map<Seq<char>, Parked>,
    label: Seq<char>,
) -> bool {
    a.contains_key(label) == b.contains_key(label) && (a.contains_key(label) ==> a[label]
        == b[label])
}

/// A press that hides leaves the register alone about every window that it
/// does not hide.
pub proof fn hiding_leaves_the_others(
    register: Map<Seq<char>, Parked>,
    windows: Seq<Spot>,
    label: Seq<char>,
)
    requires
        !hide_list(register, windows).contains(label),
    ensures
        same_at(after_hiding(register, windows), register, label),
    decreases windows.len(),
{
    if windows.len() > 0 {
        let before = hide_list(register, windows.drop_last());
        let all = hide_list(register, windows);
        let w = windows.last();
        if before.contains(label) {
            let at = choose|at: int| 0 <= at < before.len() && before[at] == label;
            assert(all[at] == label);
        }
        if toggle_hides(register, w.label@, w.position) {
            assert(all[before.len() as int] == w.label@);
        }
        hiding_leaves_the_others(register, windows.drop_last(), label);
    }
}

proof fn lemma_hidden_is_wanted(
    register: Map<Seq<char>, Parked>,
    windows: Seq<Spot>,
    label: Seq<char>,
)
    requires
        hide_list(register, windows).contains(label),
    ensures
        exists|k: int|
            0 <= k < windows.len() && windows[k].label@ == label && #[trigger] toggle_hides(
                register,
                windows[k].label@,
                windows[k].position,
            ),
    decreases windows.len(),
{
    let shorter = windows.drop_last();
    let before = hide_list(register, shorter);
    let all = hide_list(register, windows);
    let at = choose|at: int| 0 <= at < all.len() && all[at] == label;
    if at < before.len() {
        assert(before[at] == label);
        lemma_hidden_is_wanted(register, shorter, label);
        let k = choose|k: int|
            0 <= k < shorter.len() && shorter[k].label@ == label && #[trigger] toggle_hides(
                register,
                shorter[k].label@,
                shorter[k].position,
            );
        assert(toggle_hides(register, windows[k].label@, windows[k].position));
    } else {
        let k = windows.len() - 1;
        assert(toggle_hides(register, windows[k].label@, windows[k].position));
    }
}

/// What a press notes about a window that it hides: where it was, or where it
/// is to go back to anyway, and that the toggle key hid it.
proof fn lemma_hidden_entry(register: Map<Seq<char>, Parked>, windows: Seq<Spot>, i: int)
    requires
        labels_of(windows).no_duplicates(),
        0 <= i < windows.len(),
        toggle_hides(register, windows[i].label@, windows[i].position),
    ensures
        after_hiding(register, windows).contains_key(windows[i].label@),
        after_hiding(register, windows)[windows[i].label@] == (Parked {
            saved: if onscreen(windows[i].position) {
                windows[i].position
            } else {
                register[windows[i].label@].saved
            },
            reason: ParkReason::ToggleHidden,
        }),
    decreases windows.len(),
{
    let shorter = windows.drop_last();
    let labels = labels_of(windows);
    let last = windows.len() - 1;
    assert(labels_of(shorter) =~= labels.drop_last());
    assert(labels[i] == windows[i].label@);
    assert(labels[last] == windows[last].label@);
    if i == last {
        if hide_list(register, shorter).contains(windows[i].label@) {
            lemma_hidden_is_wanted(register, shorter, windows[i].label@);
            let j = choose|j: int|
                0 <= j < shorter.len() && shorter[j].label@ == windows[i].label@
                    && #[trigger] toggle_hides(register, shorter[j].label@, shorter[j].position);
            assert(labels[j] == labels[i]);
        }
        hiding_leaves_the_others(register, shorter, windows[i].label@);
    } else {
        assert(labels_of(shorter).no_duplicates());
        lemma_hidden_entry(register, shorter, i);
        assert(labels[i] != labels[last]);
    }
}

proof fn lemma_showing_leaves_the_others(
    register: Map<Seq<char>, Parked>,
    labels: Seq<Seq<char>>,
    label: Seq<char>,
)
    requires
        !labels.contains(label),
    ensures
        same_at(after_showing(register, labels), register, label),
    decreases labels.len(),
{
    if labels.len() > 0 {
        assert(labels[labels.len() - 1] != label);
        if labels.drop_last().contains(label) {
            let at = choose|at: int|
                0 <= at < labels.drop_last().len() && labels.drop_last()[at] == label;
            assert(labels[at] == label);
        }
        lemma_showing_leaves_the_others(register, labels.drop_last(), label);
    }
}

proof fn lemma_nothing_left_to_hide(
    register: Map<Seq<char>, Parked>,
    windows: Seq<Spot>,
    later: Seq<Spot>,
    upto: int,
)
    requires
        labels_of(windows).no_duplicates(),
        later.len() == windows.len(),
        forall|j: int|
            0 <= j < windows.len() ==> (#[trigger] later[j]).label@ == windows[j].label@
                && later[j].position == place_after_hiding(windows[j]),
        0 <= upto <= later.len(),
    ensures
        hide_list(after_hiding(register, windows), later.take(upto)).len() == 0,
    decreases upto,
{
    let hidden = after_hiding(register, windows);
    if upto > 0 {
        let j = upto - 1;
        let label = windows[j].label@;
        assert(later.take(upto).drop_last() =~= later.take(j));
        assert(later.take(upto).last() == later[j]);
        lemma_nothing_left_to_hide(register, windows, later, j);
        parked_is_out_of_sight();
        if toggle_hides(register, label, windows[j].position) {
            lemma_hidden_entry(register, windows, j);
        } else {
            if hide_list(register, windows).contains(label) {
                lemma_hidden_is_wanted(register, windows, label);
                let k = choose|k: int|
                    0 <= k < windows.len() && windows[k].label@ == label && #[trigger] toggle_hides(
                        register,
                        windows[k].label@,
                        windows[k].position,
                    );
                assert(labels_of(windows)[k] == labels_of(windows)[j]);
            }
            hiding_leaves_the_others(register, windows, label);
        }
        assert(!toggle_hides(hidden, later[j].label@, later[j].position));
    }
}

/// Two presses of the toggle key put everything back. After a press that hides,
/// nothing is left to hide, so the next press shows; every window that was
/// hidden is among those it shows, and goes back to exactly where it was, or to
/// where the capture that had parked it would have put it. It does not matter
/// which of them are shown first.
pub proof fn two_presses_put_everything_back(
    register: Map<Seq<char>, Parked>,
    windows: Seq<Spot>,
    later: Seq<Spot>,
    shown_before: Seq<Seq<char>>,
    i: int,
)
    requires
        labels_of(windows).no_duplicates(),
        later.len() == windows.len(),
        forall|j: int|
            0 <= j < windows.len() ==> (#[trigger] later[j]).label@ == windows[j].label@
                && later[j].position == place_after_hiding(windows[j]),
        0 <= i < windows.len(),
        toggle_hides(register, windows[i].label@, windows[i].position),
        !shown_before.contains(windows[i].label@),
    ensures
        ({
            let hidden = after_hiding(register, windows);
            let label = windows[i].label@;
            let home = if onscreen(windows[i].position) {
                windows[i].position
            } else {
                register[label].saved
            };
            &&& hide_list(hidden, later).len() == 0
            &&& toggle_parked(hidden, label)
            &&& after_reveal(
                after_showing(hidden, shown_before),
                label,
                later[i].position,
                None,
            ).1 == (match home {
                Some(p) => Reveal::MoveTo(p.0, p.1),
                None => Reveal::Center,
            })
        }),
{
    let hidden = after_hiding(register, windows);
    assert(later.take(later.len() as int) =~= later);
    lemma_nothing_left_to_hide(register, windows, later, later.len() as int);
    lemma_hidden_entry(register, windows, i);
    lemma_showing_leaves_the_others(hidden, shown_before, windows[i].label@);
}

// ── Events ─────────────────────────────────────────────────────────────────

/// The global shortcuts.
#[derive(Clone, Copy, Debug, PartialEq, Eq, Structural)]
pub enum HotKey {
    ToggleWindows,
    DebugPanel,
    Quit,
    QueueCapture,
    DescribeQueue,
    IngestClipboard,
    AskAgent,
}

/// The event that a shortcut sends to the windows, if it sends one.
pub open spec fn hotkey_event(key: HotKey) -> Option<Seq<char>> {
    match key {
        HotKey::ToggleWindows => None,
        HotKey::DebugPanel => Some("toggle-debug-panel"@),
        HotKey::Quit => None,
        HotKey::QueueCapture => Some("trigger-queue-capture"@),
        HotKey::DescribeQueue => Some("trigger-describe-queue"@),
        HotKey::IngestClipboard => Some("trigger-clipboard-ingest"@),
        HotKey::AskAgent => Some("trigger-agent-query"@),
    }
}

fn event_for(key: HotKey) -> (r: Option<&'static str>)
    ensures
        r is Some <==> hotkey_event(key) is Some,
        r is Some ==> hotkey_event(key) == Some(r->0@),
{
    match key {
        HotKey::ToggleWindows => None,
        HotKey::DebugPanel => Some("toggle-debug-panel"),
        HotKey::Quit => None,
        HotKey::QueueCapture => Some("trigger-queue-capture"),
        HotKey::DescribeQueue => Some("trigger-describe-queue"),
        HotKey::IngestClipboard => Some("trigger-clipboard-ingest"),
        HotKey::AskAgent => Some("trigger-agent-query"),
    }
}

/// What a shortcut does.
pub struct HotKeyAction {
    /// The event to send to the windows.
    pub event: Option<&'static str>,
    /// Hide or show the windows.
    pub toggles: bool,
    /// Close the main window, and the program with it.
    pub quits: bool,
    /// Bring the answer window in.
    pub reveals_answer: bool,
}

/// What a shortcut does. `main` is where the main window is, if there is one:
/// an agent press while it is out of sight brings the answer window in, since
/// nothing else could show the answer.
pub fn on_hotkey(key: HotKey, main: Option<Option<(i32, i32)>>) -> (r: HotKeyAction)
    ensures
        r.event is Some <==> hotkey_event(key) is Some,
        r.event is Some ==> hotkey_event(key) == Some(r.event->0@),
        r.toggles == (key == HotKey::ToggleWindows),
        r.quits == (key == HotKey::Quit),
        r.reveals_answer == (key == HotKey::AskAgent && main is Some && !onscreen(main->0)),
{
    let main_hidden = match main {
        Some(position) => !is_onscreen(position),
        None => false,
    };
    HotKeyAction {
        event: event_for(key),
        toggles: key == HotKey::ToggleWindows,
        quits: key == HotKey::Quit,
        reveals_answer: key == HotKey::AskAgent && main_hidden,
    }
}

/// Whether the program cannot do without a shortcut. The others may be held by
/// another program; their buttons stand in for them.
pub fn is_required(key: HotKey) -> (r: bool)
    ensures
        r == (key == HotKey::ToggleWindows || key == HotKey::DebugPanel || key == HotKey::Quit),
{
    key == HotKey::ToggleWindows || key == HotKey::DebugPanel || key == HotKey::Quit
}

/// The windows that closing only puts away: they are made once and used again.
pub open spec fn is_auxiliary(label: Seq<char>) -> bool {
    label == "answer"@ || label == "manager"@
}

/// Whether a request to close a window parks it instead.
pub fn close_parks(label: &str) -> (r: bool)
    ensures
        r == is_auxiliary(label@),
{
    text::same(label, "answer") || text::same(label, "manager")
}

/// The windows that go down with a window that was destroyed: all others with
/// the main one, none with any other.
pub open spec fn goes_down_with(destroyed: Seq<char>, windows: Seq<Seq<char>>) -> Seq<Seq<char>>
    decreases windows.len(),
{
    if destroyed != "main"@ || windows.len() == 0 {
        seq![]
    } else {
        let before = goes_down_with(destroyed, windows.drop_last());
        if windows.last() != "main"@ {
            before.push(windows.last())
        } else {
            before
        }
    }
}

pub fn destroyed_with(destroyed: &str, windows: &Vec<String>) -> (r: Vec<String>)
    ensures
        text::views(r@) == goes_down_with(destroyed@, text::views(windows@)),
{
    let mut out: Vec<String> = Vec::new();
    let ghost all = text::views(windows@);
    if !text::same(destroyed, "main") {
        assert(text::views(out@) =~= goes_down_with(destroyed@, all));
        return out;
    }
    let mut k: usize = 0;
    assert(text::views(out@) =~= goes_down_with(destroyed@, all.take(0)));
    while k < windows.len()
        invariant
            destroyed@ == "main"@,
            k <= windows@.len(),
            all == text::views(windows@),
            text::views(out@) == goes_down_with(destroyed@, all.take(k as int)),
        decreases windows@.len() - k,
    {
        let ghost so_far = out@;
        assert(all.take(k + 1).drop_last() =~= all.take(k as int));
        assert(all.take(k + 1).last() == windows@[k as int]@);
        if !text::same(windows[k].as_str(), "main") {
            out.push(windows[k].clone());
            assert(text::views(out@) =~= text::views(so_far).push(windows@[k as int]@));
        }
        k += 1;
    }
    assert(all.take(k as int) =~= all);
    out
}

// ── Laws ───────────────────────────────────────────────────────────────────

/// A window is in sight unless it is twenty thousand pixels to the left, or
/// more.
pub proof fn desktops_are_in_sight(x: i32, y: i32)
    ensures
        onscreen(Some((x, y))) <==> x > -20_000,
        onscreen(None),
{
}

/// A press of the toggle key hides exactly the windows that are in sight or
/// that a capture is about to bring back, each in its place.
pub proof fn each_window_is_judged_alone(
    register: Map<Seq<char>, Parked>,
    a: Seq<Spot>,
    b: Seq<Spot>,
)
    ensures
        hide_list(register, a + b) == hide_list(register, a) + hide_list(register, b),
        in_sight_list(a + b) == in_sight_list(a) + in_sight_list(b),
        a.len() == 1 ==> {
            let (label, place) = (a[0].label@, a[0].position);
            let transient = register.contains_key(label) && register[label].reason
                == ParkReason::Transient;
            &&& hide_list(register, a) == (if onscreen(place) || transient {
                seq![label]
            } else {
                seq![]
            })
            &&& in_sight_list(a) == (if onscreen(place) {
                seq![label]
            } else {
                seq![]
            })
        },
    decreases b.len(),
{
    if b.len() == 0 {
        assert(a + b =~= a);
        assert(hide_list(register, a) + hide_list(register, b) =~= hide_list(register, a));
        assert(in_sight_list(a) + in_sight_list(b) =~= in_sight_list(a));
    } else {
        each_window_is_judged_alone(register, a, b.drop_last());
        assert((a + b).drop_last() =~= a + b.drop_last());
        assert(hide_list(register, a + b) =~= hide_list(register, a) + hide_list(register, b));
        assert(in_sight_list(a + b) =~= in_sight_list(a) + in_sight_list(b));
    }
    if a.len() == 1 {
        assert(a.drop_last() =~= seq![]);
        assert(hide_list(register, a.drop_last()) =~= seq![]);
        assert(in_sight_list(a.drop_last()) =~= seq![]);
        let label = a[0].label@;
        assert(seq![].push(label) =~= seq![label]);
    }
}

/// Parking or revealing a window changes nothing about the others.
pub proof fn one_window_at_a_time(
    register: Map<Seq<char>, Parked>,
    label: Seq<char>,
    other: Seq<char>,
    position: Option<(i32, i32)>,
    reason: ParkReason,
    only_if: Option<ParkReason>,
)
    requires
        other != label,
    ensures
        same_at(after_park(register, label, position, reason).0, register, other),
        same_at(after_reveal(register, label, position, only_if).0, register, other),
{
}

/// Whatever is parked can be found again: parking a window always notes it, for
/// the reason given, and moves it where it is in sight or was never noted.
pub proof fn parking_is_always_noted(
    register: Map<Seq<char>, Parked>,
    label: Seq<char>,
    position: Option<(i32, i32)>,
    reason: ParkReason,
)
    ensures
        ({
            let (next, moved) = after_park(register, label, position, reason);
            &&& next.contains_key(label)
            &&& next[label].reason == reason
            &&& onscreen(position) ==> next[label].saved == position
            &&& moved <==> onscreen(position) || !register.contains_key(label)
        }),
{
}

/// A window that was parked before it ever had a place comes back in the middle,
/// and one that nobody parked is left where it can be seen.
pub proof fn windows_without_a_place_are_centered(
    register: Map<Seq<char>, Parked>,
    label: Seq<char>,
    reason: ParkReason,
    position: Option<(i32, i32)>,
)
    ensures
        after_reveal(
            register.insert(label, Parked { saved: None, reason }),
            label,
            position,
            None,
        ).1 == Reveal::Center,
        !register.contains_key(label) ==> after_reveal(register, label, position, None).1 == (if
        onscreen(position) {
            Reveal::Leave
        } else {
            Reveal::Center
        }),
        after_reveal(register, label, position, None).0 == register.remove(label)
            || !register.contains_key(label),
{
}

/// With the main window every other goes down, and with any other none does.
pub proof fn everything_goes_down_with_the_main_window(
    destroyed: Seq<char>,
    a: Seq<Seq<char>>,
    b: Seq<Seq<char>>,
)
    ensures
        goes_down_with("main"@, a + b) == goes_down_with("main"@, a) + goes_down_with("main"@, b),
        a.len() == 1 ==> goes_down_with("main"@, a) == (if a[0] == "main"@ {
            seq![]
        } else {
            a
        }),
        destroyed != "main"@ ==> goes_down_with(destroyed, a) == Seq::<Seq<char>>::empty(),
    decreases b.len(),
{
    let main = "main"@;
    if b.len() == 0 {
        assert(a + b =~= a);
        assert(goes_down_with(main, a) + goes_down_with(main, b) =~= goes_down_with(main, a));
    } else {
        everything_goes_down_with_the_main_window(destroyed, a, b.drop_last());
        assert((a + b).drop_last() =~= a + b.drop_last());
        assert(goes_down_with(main, a + b) =~= goes_down_with(main, a) + goes_down_with(main, b));
    }
    if a.len() == 1 {
        assert(a.drop_last() =~= seq![]);
        assert(goes_down_with(main, a.drop_last()) =~= seq![]);
        assert(seq![].push(a[0]) =~= a);
    }
}

/// Each shortcut asks the windows for something of its own, but for the two that
/// the program answers itself.
pub proof fn shortcuts_ask_for_their_own(a: HotKey, b: HotKey)
    ensures
        hotkey_event(a) is None <==> a == HotKey::ToggleWindows || a == HotKey::Quit,
        hotkey_event(a) is Some && hotkey_event(a) == hotkey_event(b) ==> a == b,
        hotkey_event(HotKey::AskAgent) == Some("trigger-agent-query"@),
        hotkey_event(HotKey::QueueCapture) == Some("trigger-queue-capture"@),
        hotkey_event(HotKey::DescribeQueue) == Some("trigger-describe-queue"@),
        hotkey_event(HotKey::IngestClipboard) == Some("trigger-clipboard-ingest"@),
        hotkey_event(HotKey::DebugPanel) == Some("toggle-debug-panel"@),
{
    reveal_strlit("toggle-debug-panel");
    reveal_strlit("trigger-queue-capture");
    reveal_strlit("trigger-describe-queue");
    reveal_strlit("trigger-clipboard-ingest");
    reveal_strlit("trigger-agent-query");
    assert("toggle-debug-panel"@.len() == 18 && "trigger-queue-capture"@.len() == 21);
    assert("trigger-describe-queue"@.len() == 22 && "trigger-clipboard-ingest"@.len() == 24);
    assert("trigger-agent-query"@.len() == 19);
}

/// The answer and the manager are put away when they are closed; the main window
/// is not.
pub proof fn auxiliary_windows_are_put_away()
    ensures
        is_auxiliary("answer"@),
        is_auxiliary("manager"@),
        !is_auxiliary("main"@),
{
    reveal_strlit("answer");
    reveal_strlit("manager");
    reveal_strlit("main");
    assert("main"@.len() == 4 && "answer"@.len() == 6 && "manager"@.len() == 7);
}

} // verus!

//! What is remembered for a crash: the last events before it, and how the
//! panic itself is put into words.

use vstd::prelude::*;
use crate::text;

verus! {

/// How many events are remembered.
pub const BREADCRUMB_CAPACITY: usize = 50;

/// An event before the crash.
pub struct Breadcrumb {
    /// When it was, in seconds and nanoseconds since the epoch.
    pub at_s: i64,
    pub at_ns: u32,
    pub level: String,
    pub target: String,
    pub message: String,
}

/// `Breadcrumb` over plain text.
pub struct CrumbView {
    pub at_s: i64,
    pub at_ns: u32,
    pub level: Seq<char>,
    pub target: Seq<char>,
    pub message: Seq<char>,
}

impl View for Breadcrumb {
    type V = CrumbView;

    open spec fn view(&self) -> CrumbView {
        CrumbView {
            at_s: self.at_s,
            at_ns: self.at_ns,
            level: self.level@,
            target: self.target@,
            message: self.message@,
        }
    }
}

/// A moment in RFC 3339, in universal time, where the calendar reaches it.
pub uninterp spec fn rfc3339(at_s: i64, at_ns: u32) -> Option<Seq<char>>;

/// `chrono::DateTime::from_timestamp` and `to_rfc3339`. Claims that the text
/// depends on the moment alone.
#[verifier::external_body]
fn to_rfc3339(at_s: i64, at_ns: u32) -> (r: Option<String>)
    ensures
        r is Some <==> rfc3339(at_s, at_ns) is Some,
        r is Some ==> rfc3339(at_s, at_ns) == Some(r->0@),
{
    chrono::DateTime::from_timestamp(at_s, at_ns).map(|at| at.to_rfc3339())
}

/// Whether events of that origin are remembered: not those of the panic hook
/// itself.
pub open spec fn is_remembered(target: Seq<char>) -> bool {
    !text::begins_with(target, "panic"@)
}

/// What is remembered after one more event.
pub open spec fn remembered(crumbs: Seq<CrumbView>, crumb: CrumbView) -> Seq<CrumbView> {
    if !is_remembered(crumb.target) {
        crumbs
    } else if crumbs.len() >= BREADCRUMB_CAPACITY {
        crumbs.drop_first().push(crumb)
    } else {
        crumbs.push(crumb)
    }
}

/// The views of some events.
pub open spec fn crumb_views(crumbs: Seq<Breadcrumb>) -> Seq<CrumbView> {
    crumbs.map_values(|c: Breadcrumb| c@)
}

/// The events before a crash, oldest first.
pub struct BreadcrumbBuffer {
    crumbs: Vec<Breadcrumb>,
}

impl View for BreadcrumbBuffer {
    type V = Seq<CrumbView>;

    closed spec fn view(&self) -> Seq<CrumbView> {
        crumb_views(self.crumbs@)
    }
}

/// An event as the crash report shows it.
pub struct CrumbLine {
    pub at: String,
    pub level: String,
    pub origin: String,
    pub message: String,
}

impl BreadcrumbBuffer {
    pub fn new() -> (r: Self)
        ensures
            r@ == Seq::<CrumbView>::empty(),
    {
        let r = BreadcrumbBuffer { crumbs: Vec::new() };
        assert(r@ =~= Seq::<CrumbView>::empty());
        r
    }

    /// Remembers an event, at the cost of the oldest where there is no room.
    pub fn on_event(&mut self, crumb: Breadcrumb)
        ensures
            final(self)@ == remembered(old(self)@, crumb@),
    {
        if text::starts_with(crumb.target.as_str(), "panic") {
            return;
        }
        let ghost before = self@;
        if self.crumbs.len() >= BREADCRUMB_CAPACITY {
            let _ = self.crumbs.remove(0);
            assert(self@ =~= before.drop_first());
        }
        let ghost kept = self@;
        self.crumbs.push(crumb);
        assert(self@ =~= kept.push(crumb@));
    }

    /// How many events are remembered.
    pub fn len(&self) -> (r: usize)
        ensures
            r == self@.len(),
    {
        self.crumbs.len()
    }

    /// The events as the crash report shows them, oldest first. A moment that
    /// the calendar does not reach shows as `-`.
    pub fn lines(&self) -> (r: Vec<CrumbLine>)
        ensures
            r@.len() == self@.len(),
            forall|i: int|
                0 <= i < r@.len() ==> {
                    let c = self@[i];
                    &&& (#[trigger] r@[i]).at@ == (match rfc3339(c.at_s, c.at_ns) {
                        Some(at) => at,
                        None => "-"@,
                    })
                    &&& r@[i].level@ == c.level
                    &&& r@[i].origin@ == c.target
                    &&& r@[i].message@ == c.message
                },
    {
        let mut out: Vec<CrumbLine> = Vec::new();
        let mut k: usize = 0;
        while k < self.crumbs.len()
            invariant
                k <= self.crumbs@.len(),
                out@.len() == k,
                forall|i: int|
                    0 <= i < k ==> {
                        let c = self@[i];
                        &&& (#[trigger] out@[i]).at@ == (match rfc3339(c.at_s, c.at_ns) {
                            Some(at) => at,
                            None => "-"@,
                        })
                        &&& out@[i].level@ == c.level
                        &&& out@[i].origin@ == c.target
                        &&& out@[i].message@ == c.message
                    },
            decreases self.crumbs@.len() - k,
        {
            let c = &self.crumbs[k];
            assert(self@[k as int] == c@);
            let at = match to_rfc3339(c.at_s, c.at_ns) {
                Some(at) => at,
                None => "-".to_owned(),
            };
            out.push(
                CrumbLine {
                    at,
                    level: c.level.clone(),
                    origin: c.target.clone(),
                    message: c.message.clone(),
                },
            );
            k += 1;
        }
        out
    }
}

/// The buffer never grows past its room, and the newest event is always among
/// those remembered.
pub proof fn buffer_keeps_the_newest(crumbs: Seq<CrumbView>, crumb: CrumbView)
    requires
        crumbs.len() <= BREADCRUMB_CAPACITY,
    ensures
        remembered(crumbs, crumb).len() <= BREADCRUMB_CAPACITY,
        is_remembered(crumb.target) ==> remembered(crumbs, crumb).last() == crumb,
{
}

/// A field of a logged event.
pub struct LogField {
    pub name: String,
    pub value: String,
}

/// The message among an event's fields: the first field of that name that says
/// anything.
pub open spec fn message_of(fields: Seq<LogField>) -> Seq<char>
    decreases fields.len(),
{
    if fields.len() == 0 {
        seq![]
    } else {
        let before = message_of(fields.drop_last());
        if before.len() == 0 && fields.last().name@ == "message"@ {
            fields.last().value@
        } else {
            before
        }
    }
}

/// Takes in an event's next field.
pub fn visit(message: &mut String, field: &LogField)
    ensures
        final(message)@ == (if old(message)@.len() == 0 && field.name@ == "message"@ {
            field.value@
        } else {
            old(message)@
        }),
{
    if message.as_str().unicode_len() == 0 && text::same(field.name.as_str(), "message") {
        *message = field.value.clone();
    }
}

/// The message among an event's fields.
pub fn message_text(fields: &Vec<LogField>) -> (r: String)
    ensures
        r@ == message_of(fields@),
{
    let mut message = String::new();
    let mut k: usize = 0;
    assert(fields@.take(0) =~= seq![]);
    assert(message@ =~= message_of(fields@.take(0)));
    while k < fields.len()
        invariant
            k <= fields@.len(),
            message@ == message_of(fields@.take(k as int)),
        decreases fields@.len() - k,
    {
        visit(&mut message, &fields[k]);
        assert(fields@.take(k + 1).drop_last() =~= fields@.take(k as int));
        k += 1;
    }
    assert(fields@.take(k as int) =~= fields@);
    message
}

/// Where a panic happened, in words.
pub fn location_text(location: Option<(&str, u32)>) -> (r: String)
    ensures
        r@ == (match location {
            Some((file, line)) => file@ + ":"@ + text::decimal(line as nat),
            None => "unknown"@,
        }),
{
    match location {
        Some((file, line)) => {
            let mut out = file.to_owned();
            out.append(":");
            text::push_decimal(&mut out, line as u64);
            out
        },
        None => "unknown".to_owned(),
    }
}

/// What a panic said, in words.
pub fn payload_text(payload: Option<&str>) -> (r: String)
    ensures
        r@ == (match payload {
            Some(s) => s@,
            None => "<non-string panic payload>"@,
        }),
{
    match payload {
        Some(s) => s.to_owned(),
        None => "<non-string panic payload>".to_owned(),
    }
}

/// What is remembered after some events.
pub open spec fn remembered_all(crumbs: Seq<CrumbView>, more: Seq<CrumbView>) -> Seq<CrumbView>
    decreases more.len(),
{
    if more.len() == 0 {
        crumbs
    } else {
        remembered(remembered_all(crumbs, more.drop_last()), more.last())
    }
}

/// However many events come, the last fifty are remembered, in order and as
/// they were.
pub proof fn the_last_events_are_remembered(crumbs: Seq<CrumbView>, more: Seq<CrumbView>)
    requires
        crumbs.len() <= 50,
        forall|i: int|
            0 <= i < more.len() ==> !text::begins_with((#[trigger] more[i]).target, "panic"@),
    ensures
        ({
            let all = crumbs + more;
            remembered_all(crumbs, more) == (if all.len() > 50 {
                all.skip(all.len() - 50)
            } else {
                all
            })
        }),
    decreases more.len(),
{
    let all = crumbs + more;
    if more.len() == 0 {
        assert(all =~= crumbs);
    } else {
        let before = more.drop_last();
        assert forall|i: int| 0 <= i < before.len() implies !text::begins_with(
            (#[trigger] before[i]).target,
            "panic"@,
        ) by {
            assert(before[i] == more[i]);
        }
        the_last_events_are_remembered(crumbs, before);
        assert(!text::begins_with(more[more.len() - 1].target, "panic"@));
        assert(crumbs + before =~= all.drop_last());
        assert(remembered_all(crumbs, more) =~= (if all.len() > 50 {
            all.skip(all.len() - 50)
        } else {
            all
        }));
    }
}

/// What the panic hook itself logs is not remembered.
pub proof fn panics_are_not_remembered(crumbs: Seq<CrumbView>, crumb: CrumbView, rest: Seq<char>)
    requires
        crumb.target == "panic"@ + rest,
    ensures
        remembered(crumbs, crumb) == crumbs,
{
    text::parts_occur(Seq::<char>::empty(), "panic"@, rest);
    assert(Seq::<char>::empty() + "panic"@ + rest =~= crumb.target);
}

/// The message is found whole wherever among the fields it stands, whatever the
/// others hold.
pub proof fn messages_are_found_anywhere(
    before: Seq<LogField>,
    message: LogField,
    after: Seq<LogField>,
)
    requires
        message.name@ == "message"@,
        message.value@.len() > 0,
        forall|i: int|
            0 <= i < before.len() ==> (#[trigger] before[i]).name@ != "message"@
                || before[i].value@.len() == 0,
    ensures
        message_of(before.push(message) + after) == message.value@,
    decreases before.len() + after.len(),
{
    if after.len() > 0 {
        messages_are_found_anywhere(before, message, after.drop_last());
        assert((before.push(message) + after).drop_last() =~= before.push(message)
            + after.drop_last());
    } else {
        assert(before.push(message) + after =~= before.push(message));
        assert(before.push(message).drop_last() =~= before);
        lemma_no_message(before);
    }
}

proof fn lemma_no_message(fields: Seq<LogField>)
    requires
        forall|i: int|
            0 <= i < fields.len() ==> (#[trigger] fields[i]).name@ != "message"@
                || fields[i].value@.len() == 0,
    ensures
        message_of(fields).len() == 0,
    decreases fields.len(),
{
    if fields.len() > 0 {
        let before = fields.drop_last();
        assert forall|i: int| 0 <= i < before.len() implies (#[trigger] before[i]).name@
            != "message"@ || before[i].value@.len() == 0 by {
            assert(before[i] == fields[i]);
        }
        lemma_no_message(before);
        assert(fields[fields.len() - 1].name@ != "message"@ || fields[fields.len()
            - 1].value@.len() == 0);
    }
}

} // verus!

//! The calendar renderer: turns one cycle's aggregated data into a
//! calendar document — one all-day event per distinct due date, a
//! reminder alarm at nine o'clock local time on the prior day, and
//! identifiers derived deterministically from the due date so that
//! re-rendering unchanged data yields the same events.

use vstd::prelude::*;

use crate::aggregate::{distinct_dates_spec, on_date, IopacData};
use crate::dates::{date_string, date_string_spec, prev_day, prev_day_spec, Date};
use crate::rows::{DatumView, IopacDatum};
use crate::text::chars_of;
use vstd::string::StringExecFns;

verus! {

/// The digest of a text under the one-way hash the identifiers use,
/// written as 32 lowercase hexadecimal digits.
pub uninterp spec fn md5_hex_of(s: Seq<char>) -> Seq<char>;

/// Relies on `md5::compute` and the digest's `LowerHex` formatting: the
/// digest is a function of the input alone and prints as exactly 32
/// lowercase hexadecimal digits (two per digest byte).
#[verifier::external_body]
fn md5_hex(data: &str) -> (r: String)
    ensures
        r@ == md5_hex_of(data@),
        r@.len() == 32,
{
    let digest = md5::compute(data);
    format!("{:x}", digest)
}

/// 32 hexadecimal digits written in the fixed 8-4-4-4-12 hyphenated
/// unique-identifier format.
pub open spec fn uuid_format(h: Seq<char>) -> Seq<char> {
    h.subrange(0, 8) + seq!['-'] + h.subrange(8, 12) + seq!['-'] + h.subrange(12, 16) + seq!['-']
        + h.subrange(16, 20) + seq!['-'] + h.subrange(20, 32)
}

/// The stable identifier derived from a text: its digest in hyphenated
/// unique-identifier form.
pub open spec fn make_uid_spec(data: Seq<char>) -> Seq<char> {
    uuid_format(md5_hex_of(data))
}

fn push_range(out: &mut String, v: &Vec<char>, from: usize, to: usize)
    requires
        from <= to <= v@.len(),
    ensures
        final(out)@ == old(out)@ + v@.subrange(from as int, to as int),
{
    let mut i: usize = from;
    while i < to
        invariant
            from <= i <= to <= v@.len(),
            out@ == old(out)@ + v@.subrange(from as int, i as int),
        decreases to - i,
    {
        out.push(v[i]);
        proof {
            assert(v@.subrange(from as int, i + 1 as int) =~= v@.subrange(from as int, i as int).push(
                v@[i as int],
            ));
            assert(out@ =~= old(out)@ + v@.subrange(from as int, i + 1 as int));
        }
        i = i + 1;
    }
}

/// A repeatable identifier for the given text: equal inputs give equal,
/// byte-identical identifiers on every call.
pub fn make_uid(data: &str) -> (r: String)
    ensures
        r@ == make_uid_spec(data@),
{
    let hex = md5_hex(data);
    let hex_chars = chars_of(hex.as_str());
    let mut out = String::new();
    push_range(&mut out, &hex_chars, 0, 8);
    out.push('-');
    push_range(&mut out, &hex_chars, 8, 12);
    out.push('-');
    push_range(&mut out, &hex_chars, 12, 16);
    out.push('-');
    push_range(&mut out, &hex_chars, 16, 20);
    out.push('-');
    push_range(&mut out, &hex_chars, 20, 32);
    proof {
        assert(out@ =~= uuid_format(hex@));
    }
    out
}

/// Relies on chrono's `Local::with_ymd_and_hms` and `DateTime::to_utc`:
/// the given calendar day at nine o'clock is resolved against the
/// machine's time zone; where it names exactly one instant, that
/// instant's UTC rendering is returned.  The result depends on the time
/// zone database, so nothing more is stated of it.
#[verifier::external_body]
fn local_nine_am_utc(year: u32, month: u32, day: u32) -> (r: Option<String>)
    ensures
        r matches Some(s) ==> s@.len() > 0,
{
    match chrono::TimeZone::with_ymd_and_hms(&chrono::Local, year as i32, month, day, 9, 0, 0) {
        chrono::LocalResult::Single(dt) => Some(dt.to_utc().to_string()),
        _ => None,
    }
}

/// One reminder alarm: fires at `local_hour` o'clock local time on
/// `local_date`, the day before its event's due date.
pub struct CalendarAlarm {
    pub uid: String,
    pub description: String,
    pub local_date: Date,
    pub local_hour: u32,
    pub trigger_utc: String,
}

/// One all-day calendar event for one due date.
pub struct CalendarEvent {
    pub uid: String,
    pub summary: String,
    pub description: String,
    pub date: Date,
    pub alarm: Option<CalendarAlarm>,
}

/// The rendered calendar: a fixed feed name and one event per distinct
/// due date.
pub struct CalendarDocument {
    pub name: String,
    pub events: Vec<CalendarEvent>,
}

/// The spec-level face of `CalendarAlarm`.
pub struct AlarmView {
    pub uid: Seq<char>,
    pub description: Seq<char>,
    pub local_date: Date,
    pub local_hour: u32,
    pub trigger_utc: Seq<char>,
}

/// The spec-level face of `CalendarEvent`.
pub struct EventView {
    pub uid: Seq<char>,
    pub summary: Seq<char>,
    pub description: Seq<char>,
    pub date: Date,
    pub alarm: Option<AlarmView>,
}

/// The spec-level face of `CalendarDocument`.
pub struct DocumentView {
    pub name: Seq<char>,
    pub events: Seq<EventView>,
}

impl View for CalendarAlarm {
    type V = AlarmView;

    open spec fn view(&self) -> AlarmView {
        AlarmView {
            uid: self.uid@,
            description: self.description@,
            local_date: self.local_date,
            local_hour: self.local_hour,
            trigger_utc: self.trigger_utc@,
        }
    }
}

impl View for CalendarEvent {
    type V = EventView;

    open spec fn view(&self) -> EventView {
        EventView {
            uid: self.uid@,
            summary: self.summary@,
            description: self.description@,
            date: self.date,
            alarm: match self.alarm {
                Option::Some(a) => Option::Some(a@),
                Option::None => Option::None,
            },
        }
    }
}

impl DeepView for CalendarEvent {
    type V = EventView;

    open spec fn deep_view(&self) -> EventView {
        self.view()
    }
}

impl View for CalendarDocument {
    type V = DocumentView;

    open spec fn view(&self) -> DocumentView {
        DocumentView { name: self.name@, events: self.events.deep_view() }
    }
}

/// One description line: `<account>: <title> [<media type>]`, with the
/// reservation mark appended exactly when the item is reserved.
pub open spec fn record_line(r: DatumView) -> Seq<char> {
    r.account + ": "@ + r.title + " ["@ + r.media_type + "]"@ + (if r.reserved {
        " RESERVIERT"@
    } else {
        Seq::<char>::empty()
    })
}

/// An event's description: one line per record, joined with newlines, in
/// the records' arrival order.
pub open spec fn description_spec(rs: Seq<DatumView>) -> Seq<char>
    decreases rs.len(),
{
    if rs.len() == 0 {
        Seq::empty()
    } else if rs.len() == 1 {
        record_line(rs[0])
    } else {
        description_spec(rs.drop_last()) + "\n"@ + record_line(rs.last())
    }
}

/// The identifier of the event for a due date.
pub open spec fn event_uid_spec(d: Date) -> Seq<char> {
    make_uid_spec(date_string_spec(d))
}

/// The identifier of the alarm for a due date, bound to the alarm's
/// absolute instant.
pub open spec fn alarm_uid_spec(d: Date, instant: Seq<char>) -> Seq<char> {
    make_uid_spec(date_string_spec(d) + instant)
}

/// The event rendered for due date `d` with records `rs`: `instant` is
/// the alarm's absolute UTC rendering where the reminder could be placed,
/// `None` where it could not.
pub open spec fn event_spec(
    d: Date,
    rs: Seq<DatumView>,
    title: Seq<char>,
    instant: Option<Seq<char>>,
) -> EventView {
    EventView {
        uid: event_uid_spec(d),
        summary: title,
        description: description_spec(rs),
        date: d,
        alarm: match instant {
            Option::Some(s) => Option::Some(
                AlarmView {
                    uid: alarm_uid_spec(d, s),
                    description: "Reminder"@,
                    local_date: prev_day_spec(d),
                    local_hour: 9,
                    trigger_utc: s,
                },
            ),
            Option::None => Option::None,
        },
    }
}

/// Whether `ev` is a rendering of due date `d` with records `rs`: exact
/// but for the alarm's absolute instant, which the machine's time zone
/// decides.
pub open spec fn event_renders(ev: EventView, d: Date, rs: Seq<DatumView>, title: Seq<char>) -> bool {
    exists|instant: Option<Seq<char>>| ev == #[trigger] event_spec(d, rs, title, instant)
}

/// Whether `doc` is a rendering of the aggregated `records` under
/// `title`: the fixed feed name, and one event per distinct due date in
/// first-arrival order.
pub open spec fn renders(records: Seq<DatumView>, title: Seq<char>, doc: DocumentView) -> bool {
    &&& doc.name == "IOPAC"@
    &&& doc.events.len() == distinct_dates_spec(records).len()
    &&& forall|k: int|
        0 <= k < doc.events.len() ==> event_renders(
            #[trigger] doc.events[k],
            distinct_dates_spec(records)[k],
            records.filter(on_date(distinct_dates_spec(records)[k])),
            title,
        )
}

/// The description text for the records of one due date.
fn build_description(recs: &Vec<IopacDatum>) -> (s: String)
    ensures
        s@ == description_spec(recs.deep_view()),
{
    let ghost rv = recs.deep_view();
    let n = recs.len();
    let mut s = String::new();
    let mut i: usize = 0;
    while i < n
        invariant
            rv == recs.deep_view(),
            n == rv.len(),
            n == recs@.len(),
            0 <= i <= n,
            s@ == description_spec(rv.take(i as int)),
        decreases n - i,
    {
        proof {
            assert(rv[i as int] == recs@[i as int]@);
        }
        if i > 0 {
            s.append("\n");
        }
        s.append(recs[i].account.as_str());
        s.append(": ");
        s.append(recs[i].title.as_str());
        s.append(" [");
        s.append(recs[i].media_type.as_str());
        s.append("]");
        if recs[i].reserved {
            s.append(" RESERVIERT");
        }
        proof {
            assert(rv.take(i + 1 as int).drop_last() =~= rv.take(i as int));
            assert(rv.take(i + 1 as int).last() == rv[i as int]);
            assert(s@ =~= description_spec(rv.take(i + 1 as int)));
        }
        i = i + 1;
    }
    proof {
        assert(rv.take(n as int) =~= rv);
    }
    s
}

/// Renders one cycle's aggregated data as a calendar document: one
/// all-day event per distinct due date carrying the configured title and
/// the date's records as its description, with a reminder alarm at nine
/// o'clock local time on the prior day where that instant exists, and
/// identifiers derived from the due date alone.
pub fn render_calendar(data: &IopacData, event_title: &str) -> (doc: CalendarDocument)
    ensures
        renders(data.records.deep_view(), event_title@, doc@),
{
    let ghost rv = data.records.deep_view();
    let dates = data.distinct_dates();
    let n = dates.len();
    let mut events: Vec<CalendarEvent> = Vec::new();
    let mut k: usize = 0;
    while k < n
        invariant
            rv == data.records.deep_view(),
            dates@ == distinct_dates_spec(rv),
            n == dates@.len(),
            0 <= k <= n,
            events.deep_view().len() == k,
            forall|k2: int|
                0 <= k2 < k ==> event_renders(
                    #[trigger] events.deep_view()[k2],
                    dates@[k2],
                    rv.filter(on_date(dates@[k2])),
                    event_title@,
                ),
        decreases n - k,
    {
        let d = dates[k];
        let recs = data.records_on_date(d);
        let description = build_description(&recs);
        let date_str = date_string(d);
        let uid = make_uid(date_str.as_str());
        let mut alarm: Option<CalendarAlarm> = None;
        let ghost instant: Option<Seq<char>> = None;
        if d.is_valid() && !(d.year == 0 && d.month == 1 && d.day == 1) {
            let prev = prev_day(d);
            match local_nine_am_utc(prev.year, prev.month, prev.day) {
                Some(trigger) => {
                    let alarm_uid = make_uid(date_str.clone().concat(trigger.as_str()).as_str());
                    proof {
                        instant = Some(trigger@);
                    }
                    alarm = Some(
                        CalendarAlarm {
                            uid: alarm_uid,
                            description: String::from_str("Reminder"),
                            local_date: prev,
                            local_hour: 9,
                            trigger_utc: trigger,
                        },
                    );
                },
                None => {},
            }
        }
        let ghost pre_deep = events.deep_view();
        let ev = CalendarEvent {
            uid,
            summary: event_title.to_owned(),
            description,
            date: d,
            alarm,
        };
        proof {
            assert(ev@ == event_spec(d, rv.filter(on_date(d)), event_title@, instant));
        }
        events.push(ev);
        proof {
            assert(events.deep_view() =~= pre_deep.push(ev@));
            assert(event_renders(ev@, d, rv.filter(on_date(d)), event_title@));
        }
        k = k + 1;
    }
    let doc = CalendarDocument { name: String::from_str("IOPAC"), events };
    doc
}

/// Re-rendering the same aggregated data under the same title yields
/// events with identical identifiers, dates, summaries and descriptions,
/// and identical alarm identifiers wherever the two renderings resolved
/// the alarm to the same instant.
pub proof fn lemma_render_stable(
    records: Seq<DatumView>,
    title: Seq<char>,
    doc1: DocumentView,
    doc2: DocumentView,
)
    requires
        renders(records, title, doc1),
        renders(records, title, doc2),
    ensures
        doc1.events.len() == doc2.events.len(),
        forall|k: int|
            0 <= k < doc1.events.len() ==> {
                &&& (#[trigger] doc1.events[k]).uid == doc2.events[k].uid
                &&& doc1.events[k].date == doc2.events[k].date
                &&& doc1.events[k].summary == doc2.events[k].summary
                &&& doc1.events[k].description == doc2.events[k].description
                &&& match (doc1.events[k].alarm, doc2.events[k].alarm) {
                    (Option::Some(a1), Option::Some(a2)) => a1.trigger_utc == a2.trigger_utc
                        ==> a1.uid == a2.uid,
                    _ => true,
                }
            },
{
    assert forall|k: int| 0 <= k < doc1.events.len() implies {
        &&& (#[trigger] doc1.events[k]).uid == doc2.events[k].uid
        &&& doc1.events[k].date == doc2.events[k].date
        &&& doc1.events[k].summary == doc2.events[k].summary
        &&& doc1.events[k].description == doc2.events[k].description
        &&& match (doc1.events[k].alarm, doc2.events[k].alarm) {
            (Option::Some(a1), Option::Some(a2)) => a1.trigger_utc == a2.trigger_utc ==> a1.uid
                == a2.uid,
            _ => true,
        }
    } by {
        let d = distinct_dates_spec(records)[k];
        let rs = records.filter(on_date(d));
        let i1 = choose|instant: Option<Seq<char>>|
            doc1.events[k] == #[trigger] event_spec(d, rs, title, instant);
        let i2 = choose|instant: Option<Seq<char>>|
            doc2.events[k] == #[trigger] event_spec(d, rs, title, instant);
        assert(doc1.events[k] == event_spec(d, rs, title, i1));
        assert(doc2.events[k] == event_spec(d, rs, title, i2));
    }
}

} // verus!

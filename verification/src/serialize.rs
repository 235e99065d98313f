//! The serializer: the canonical wire text of a calendar, as one pure
//! formatting function over the calendar's view.

use vstd::prelude::*;
use crate::model::{Calendar, CalendarView, Events, EventsView};
use crate::numbers::{spec_u32_digits, u32_string};
use crate::strutil::lemma_cat_assoc;

verus! {

/// One wire line: `KEY:value` and the CRLF terminator.
pub open spec fn spec_line(key: Seq<char>, value: Seq<char>) -> Seq<char> {
    key + seq![':'] + value + "\r\n"@
}

/// The canonical text of one event block: the opening marker, the
/// twelve fields in fixed order, the closing marker.
pub open spec fn spec_event_block(e: EventsView) -> Seq<char> {
    spec_line("BEGIN"@, "VEVENT"@) + (spec_line("DTSTART"@, e.dtstart.canonical()) + (spec_line(
        "DTEND"@,
        e.dtend.canonical(),
    ) + (spec_line("DTSTAMP"@, e.dtstamp.canonical()) + (spec_line("UID"@, e.uid) + (spec_line(
        "CREATED"@,
        e.created.canonical(),
    ) + (spec_line("DESCRIPTION"@, e.description) + (spec_line(
        "LAST-MODIFIED"@,
        e.last_modified.canonical(),
    ) + (spec_line("LOCATION"@, e.location) + (spec_line(
        "SEQUENCE"@,
        spec_u32_digits(e.sequence as int),
    ) + (spec_line("STATUS"@, e.status) + (spec_line("SUMMARY"@, e.summary) + (spec_line(
        "TRANSP"@,
        e.transp,
    ) + spec_line("END"@, "VEVENT"@)))))))))))))
}

/// The event blocks, concatenated in list order.
pub open spec fn spec_event_blocks(events: Seq<EventsView>) -> Seq<char>
    decreases events.len(),
{
    if events.len() == 0 {
        Seq::empty()
    } else {
        spec_event_block(events[0]) + spec_event_blocks(events.drop_first())
    }
}

/// The canonical header part: the opening document marker and the six
/// header fields.
pub open spec fn spec_header(c: CalendarView) -> Seq<char> {
    spec_line("BEGIN"@, "VCALENDAR"@) + (spec_line("PRODID"@, c.prodid) + (spec_line(
        "CALSCALE"@,
        c.calscale,
    ) + (spec_line("VERSION"@, c.version) + (spec_line("METHOD"@, c.method) + (spec_line(
        "X-WR-CALNAME"@,
        c.x_wr_calname,
    ) + spec_line("X-WR-TIMEZONE"@, c.x_wr_timezone))))))
}

/// The canonical wire text of a whole calendar; the closing document
/// marker carries no trailing terminator.
pub open spec fn spec_serialize(c: CalendarView) -> Seq<char> {
    spec_header(c) + (spec_event_blocks(c.events) + "END:VCALENDAR"@)
}

pub proof fn lemma_blocks_snoc(events: Seq<EventsView>, e: EventsView)
    ensures
        spec_event_blocks(events.push(e)) == spec_event_blocks(events) + spec_event_block(e),
    decreases events.len(),
{
    if events.len() == 0 {
        assert(events.push(e)[0] == e);
        assert(events.push(e).drop_first() =~= Seq::<EventsView>::empty());
        assert(spec_event_blocks(Seq::<EventsView>::empty()) =~= Seq::<char>::empty());
        assert(spec_event_block(e) + Seq::<char>::empty() =~= spec_event_block(e));
        assert(Seq::<char>::empty() + spec_event_block(e) =~= spec_event_block(e));
    } else {
        assert(events.push(e)[0] == events[0]);
        assert(events.push(e).drop_first() =~= events.drop_first().push(e));
        lemma_blocks_snoc(events.drop_first(), e);
        assert(spec_event_block(events[0]) + (spec_event_blocks(events.drop_first())
            + spec_event_block(e)) =~= (spec_event_block(events[0]) + spec_event_blocks(
            events.drop_first(),
        )) + spec_event_block(e));
    }
}

/// Formats one wire line, `KEY:value` with the CRLF terminator.
fn line_string(key: &str, value: &str) -> (s: String)
    ensures
        s@ == spec_line(key@, value@),
{
    let mut s = key.to_owned();
    s.append(":");
    s.append(value);
    s.append("\r\n");
    proof {
        reveal_strlit(":");
        assert(":"@ =~= seq![':']);
    }
    s
}

/// Formats one event block.
fn event_block_string(e: &Events) -> (s: String)
    ensures
        s@ == spec_event_block(e@),
{
    let mut s = line_string("BEGIN", "VEVENT");
    s.append(line_string("DTSTART", e.dtstart.canonical_string().as_str()).as_str());
    s.append(line_string("DTEND", e.dtend.canonical_string().as_str()).as_str());
    s.append(line_string("DTSTAMP", e.dtstamp.canonical_string().as_str()).as_str());
    s.append(line_string("UID", e.uid.as_str()).as_str());
    s.append(line_string("CREATED", e.created.canonical_string().as_str()).as_str());
    s.append(line_string("DESCRIPTION", e.description.as_str()).as_str());
    s.append(line_string("LAST-MODIFIED", e.last_modified.canonical_string().as_str()).as_str());
    s.append(line_string("LOCATION", e.location.as_str()).as_str());
    s.append(line_string("SEQUENCE", u32_string(e.sequence).as_str()).as_str());
    s.append(line_string("STATUS", e.status.as_str()).as_str());
    s.append(line_string("SUMMARY", e.summary.as_str()).as_str());
    s.append(line_string("TRANSP", e.transp.as_str()).as_str());
    s.append(line_string("END", "VEVENT").as_str());
    proof {
        let b0 = spec_line("BEGIN"@, "VEVENT"@);
        let b1 = spec_line("DTSTART"@, e@.dtstart.canonical());
        let b2 = spec_line("DTEND"@, e@.dtend.canonical());
        let b3 = spec_line("DTSTAMP"@, e@.dtstamp.canonical());
        let b4 = spec_line("UID"@, e@.uid);
        let b5 = spec_line("CREATED"@, e@.created.canonical());
        let b6 = spec_line("DESCRIPTION"@, e@.description);
        let b7 = spec_line("LAST-MODIFIED"@, e@.last_modified.canonical());
        let b8 = spec_line("LOCATION"@, e@.location);
        let b9 = spec_line("SEQUENCE"@, spec_u32_digits(e@.sequence as int));
        let b10 = spec_line("STATUS"@, e@.status);
        let b11 = spec_line("SUMMARY"@, e@.summary);
        let b12 = spec_line("TRANSP"@, e@.transp);
        let b13 = spec_line("END"@, "VEVENT"@);
        let r13 = b13;
        let r12 = b12 + r13;
        let r11 = b11 + r12;
        let r10 = b10 + r11;
        let r9 = b9 + r10;
        let r8 = b8 + r9;
        let r7 = b7 + r8;
        let r6 = b6 + r7;
        let r5 = b5 + r6;
        let r4 = b4 + r5;
        let r3 = b3 + r4;
        let r2 = b2 + r3;
        let r1 = b1 + r2;
        let p1 = b0 + b1;
        let p2 = p1 + b2;
        let p3 = p2 + b3;
        let p4 = p3 + b4;
        let p5 = p4 + b5;
        let p6 = p5 + b6;
        let p7 = p6 + b7;
        let p8 = p7 + b8;
        let p9 = p8 + b9;
        let p10 = p9 + b10;
        let p11 = p10 + b11;
        let p12 = p11 + b12;
        let p13 = p12 + b13;
        assert(s@ == p13);
        lemma_cat_assoc(p11, b12, r13);
        lemma_cat_assoc(p10, b11, r12);
        lemma_cat_assoc(p9, b10, r11);
        lemma_cat_assoc(p8, b9, r10);
        lemma_cat_assoc(p7, b8, r9);
        lemma_cat_assoc(p6, b7, r8);
        lemma_cat_assoc(p5, b6, r7);
        lemma_cat_assoc(p4, b5, r6);
        lemma_cat_assoc(p3, b4, r5);
        lemma_cat_assoc(p2, b3, r4);
        lemma_cat_assoc(p1, b2, r3);
        lemma_cat_assoc(b0, b1, r2);
        assert(p13 == b0 + r1);
        assert(spec_event_block(e@) == b0 + r1);
    }
    s
}

impl Calendar {
    /// The canonical wire text: a pure formatting of the header fields
    /// and of each event in list order.
    #[verifier::rlimit(100)]
    pub fn ics_text(&self) -> (s: String)
        ensures
            s@ == spec_serialize(self@),
    {
        let mut s = "BEGIN:VCALENDAR\r\n".to_owned();
        s.append("PRODID:");
        s.append(self.prodid.as_str());
        s.append("\r\n");
        s.append("CALSCALE:");
        s.append(self.calscale.as_str());
        s.append("\r\n");
        s.append("VERSION:");
        s.append(self.version.as_str());
        s.append("\r\n");
        s.append("METHOD:");
        s.append(self.method.as_str());
        s.append("\r\n");
        s.append("X-WR-CALNAME:");
        s.append(self.x_wr_calname.as_str());
        s.append("\r\n");
        s.append("X-WR-TIMEZONE:");
        s.append(self.x_wr_timezone.as_str());
        s.append("\r\n");
        proof {
            reveal_strlit("BEGIN:VCALENDAR\r\n");
            reveal_strlit("BEGIN");
            reveal_strlit("VCALENDAR");
            reveal_strlit("\r\n");
            reveal_strlit("PRODID:");
            reveal_strlit("PRODID");
            reveal_strlit("CALSCALE:");
            reveal_strlit("CALSCALE");
            reveal_strlit("VERSION:");
            reveal_strlit("VERSION");
            reveal_strlit("METHOD:");
            reveal_strlit("METHOD");
            reveal_strlit("X-WR-CALNAME:");
            reveal_strlit("X-WR-CALNAME");
            reveal_strlit("X-WR-TIMEZONE:");
            reveal_strlit("X-WR-TIMEZONE");
            assert(s@ =~= spec_header(self@));
            assert(self@.events.take(0) =~= Seq::<EventsView>::empty());
            assert(s@ =~= spec_header(self@) + spec_event_blocks(self@.events.take(0)));
        }
        let n = self.events.len();
        let mut i: usize = 0;
        while i < n
            invariant
                i <= n,
                n == self.events@.len(),
                self@.events.len() == n,
                s@ == spec_header(self@) + spec_event_blocks(self@.events.take(i as int)),
            decreases n - i,
        {
            let b = event_block_string(&self.events[i]);
            s.append(b.as_str());
            proof {
                assert(self@.events[i as int] == self.events@[i as int]@);
                lemma_blocks_snoc(self@.events.take(i as int), self@.events[i as int]);
                assert(self@.events.take(i + 1) =~= self@.events.take(i as int).push(
                    self@.events[i as int],
                ));
                assert((spec_header(self@) + spec_event_blocks(self@.events.take(i as int)))
                    + spec_event_block(self@.events[i as int]) =~= spec_header(self@) + (
                spec_event_blocks(self@.events.take(i as int)) + spec_event_block(
                    self@.events[i as int],
                )));
            }
            i += 1;
        }
        s.append("END:VCALENDAR");
        proof {
            assert(self@.events.take(n as int) =~= self@.events);
            assert((spec_header(self@) + spec_event_blocks(self@.events)) + "END:VCALENDAR"@
                =~= spec_header(self@) + (spec_event_blocks(self@.events) + "END:VCALENDAR"@));
        }
        s
    }
}

} // verus!

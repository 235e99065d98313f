//! The calendar data model: one event entry, and the calendar root
//! that holds the six header fields and the ordered event list.

use vstd::prelude::*;
use crate::datetime::DateTimeUtc;

verus! {

/// One calendar entry (a `VEVENT` block).
#[derive(Clone)]
pub struct Events {
    pub dtstart: DateTimeUtc,
    pub dtend: DateTimeUtc,
    pub dtstamp: DateTimeUtc,
    pub uid: String,
    pub created: DateTimeUtc,
    pub description: String,
    pub last_modified: DateTimeUtc,
    pub location: String,
    pub sequence: u32,
    pub status: String,
    pub summary: String,
    pub transp: String,
}

/// The mathematical view of an event.
#[verifier::ext_equal]
pub struct EventsView {
    pub dtstart: DateTimeUtc,
    pub dtend: DateTimeUtc,
    pub dtstamp: DateTimeUtc,
    pub uid: Seq<char>,
    pub created: DateTimeUtc,
    pub description: Seq<char>,
    pub last_modified: DateTimeUtc,
    pub location: Seq<char>,
    pub sequence: u32,
    pub status: Seq<char>,
    pub summary: Seq<char>,
    pub transp: Seq<char>,
}

impl View for Events {
    type V = EventsView;

    open spec fn view(&self) -> EventsView {
        EventsView {
            dtstart: self.dtstart,
            dtend: self.dtend,
            dtstamp: self.dtstamp,
            uid: self.uid@,
            created: self.created,
            description: self.description@,
            last_modified: self.last_modified,
            location: self.location@,
            sequence: self.sequence,
            status: self.status@,
            summary: self.summary@,
            transp: self.transp@,
        }
    }
}

impl EventsView {
    /// The default event: sentinel instants, `NULL` texts, sequence 0.
    pub open spec fn spec_empty() -> EventsView {
        EventsView {
            dtstart: DateTimeUtc::spec_sentinel(),
            dtend: DateTimeUtc::spec_sentinel(),
            dtstamp: DateTimeUtc::spec_sentinel(),
            uid: "NULL"@,
            created: DateTimeUtc::spec_sentinel(),
            description: "NULL"@,
            last_modified: DateTimeUtc::spec_sentinel(),
            location: "NULL"@,
            sequence: 0,
            status: "NULL"@,
            summary: "NULL"@,
            transp: "NULL"@,
        }
    }

    /// The event covers a full day or more: its end lies at least
    /// twenty-four hours after its start on the library's time scale.
    pub open spec fn spec_is_all_day(self) -> bool {
        self.dtend.spec_timestamp() - self.dtstart.spec_timestamp() >= 86400
    }
}

impl Events {
    /// Check whether the event spans at least a full day.
    pub fn is_all_day(&self) -> (b: bool)
        ensures
            b == self@.spec_is_all_day(),
    {
        let start = self.dtstart.timestamp();
        let end = self.dtend.timestamp();
        end - start >= 86400
    }

    /// A field-for-field copy of the event.
    pub fn duplicate(&self) -> (e: Events)
        ensures
            e@ == self@,
    {
        let e = Events {
            dtstart: self.dtstart,
            dtend: self.dtend,
            dtstamp: self.dtstamp,
            uid: self.uid.clone(),
            created: self.created,
            description: self.description.clone(),
            last_modified: self.last_modified,
            location: self.location.clone(),
            sequence: self.sequence,
            status: self.status.clone(),
            summary: self.summary.clone(),
            transp: self.transp.clone(),
        };
        proof {
            assert(e@ =~= self@);
        }
        e
    }

    /// A fresh event with every field at its sentinel default.
    pub fn empty() -> (e: Events)
        ensures
            e@ == EventsView::spec_empty(),
    {
        let dt = DateTimeUtc::sentinel();
        let e = Events {
            dtstart: dt,
            dtend: dt,
            dtstamp: dt,
            uid: "NULL".to_owned(),
            created: dt,
            description: "NULL".to_owned(),
            last_modified: dt,
            location: "NULL".to_owned(),
            sequence: 0,
            status: "NULL".to_owned(),
            summary: "NULL".to_owned(),
            transp: "NULL".to_owned(),
        };
        proof {
            assert(e@ =~= EventsView::spec_empty());
        }
        e
    }
}

/// The calendar document root: six header fields and the events, in
/// order of appearance or of addition.
#[derive(Clone)]
pub struct Calendar {
    pub prodid: String,
    pub version: String,
    pub calscale: String,
    pub method: String,
    pub x_wr_calname: String,
    pub x_wr_timezone: String,
    pub events: Vec<Events>,
}

/// The mathematical view of a calendar.
#[verifier::ext_equal]
pub struct CalendarView {
    pub prodid: Seq<char>,
    pub version: Seq<char>,
    pub calscale: Seq<char>,
    pub method: Seq<char>,
    pub x_wr_calname: Seq<char>,
    pub x_wr_timezone: Seq<char>,
    pub events: Seq<EventsView>,
}

impl View for Calendar {
    type V = CalendarView;

    open spec fn view(&self) -> CalendarView {
        CalendarView {
            prodid: self.prodid@,
            version: self.version@,
            calscale: self.calscale@,
            method: self.method@,
            x_wr_calname: self.x_wr_calname@,
            x_wr_timezone: self.x_wr_timezone@,
            events: self.events@.map_values(|e: Events| e@),
        }
    }
}

impl Calendar {
    /// Creates a calendar with the six header fields and no events.
    pub fn create(
        prodid: &str,
        version: &str,
        calscale: &str,
        method: &str,
        x_wr_calname: &str,
        x_wr_timezone: &str,
    ) -> (c: Calendar)
        ensures
            c@.prodid == prodid@,
            c@.version == version@,
            c@.calscale == calscale@,
            c@.method == method@,
            c@.x_wr_calname == x_wr_calname@,
            c@.x_wr_timezone == x_wr_timezone@,
            c@.events == Seq::<EventsView>::empty(),
    {
        let c = Calendar {
            prodid: prodid.to_owned(),
            version: version.to_owned(),
            calscale: calscale.to_owned(),
            method: method.to_owned(),
            x_wr_calname: x_wr_calname.to_owned(),
            x_wr_timezone: x_wr_timezone.to_owned(),
            events: Vec::new(),
        };
        proof {
            assert(c@.events =~= Seq::<EventsView>::empty());
        }
        c
    }

    /// Appends an event; the header fields are untouched.
    pub fn add_event(&mut self, event: Events)
        ensures
            final(self)@.events == old(self)@.events.push(event@),
            final(self)@.prodid == old(self)@.prodid,
            final(self)@.version == old(self)@.version,
            final(self)@.calscale == old(self)@.calscale,
            final(self)@.method == old(self)@.method,
            final(self)@.x_wr_calname == old(self)@.x_wr_calname,
            final(self)@.x_wr_timezone == old(self)@.x_wr_timezone,
    {
        let ghost pre = self.events@;
        self.events.push(event);
        proof {
            assert(self.events@.map_values(|e: Events| e@) =~= pre.map_values(|e: Events| e@).push(
                event@,
            ));
        }
    }
}

} // verus!

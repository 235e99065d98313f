//! The tokenizer/dispatcher: splits the document into lines, each line
//! into a key and a value at the first colon, and folds the pairs
//! through a fixed dispatch table into header fields and an event
//! accumulator that is committed on its `END:VEVENT` terminator.

use vstd::prelude::*;
use crate::datetime::{DateTimeUtc, spec_convert_datetime, convert_datetime};
use crate::model::{Calendar, CalendarView, Events, EventsView};
use crate::numbers::{spec_parse_u32, parse_u32};
use crate::strutil::{find_first, find_char, str_eq, spec_lines, split_lines};

verus! {

/// Why a parse fails: the only fatal condition is a `SEQUENCE` line
/// whose value is not an unsigned 32-bit numeral.
#[derive(Clone, Copy, PartialEq, Eq, Structural, Debug)]
pub enum ParseError {
    InvalidSequence,
}

/// The dispatcher's state: header fields gathered so far, the finished
/// events, and the accumulator for the current event.
#[verifier::ext_equal]
pub struct ParseState {
    pub prodid: Seq<char>,
    pub version: Seq<char>,
    pub calscale: Seq<char>,
    pub method: Seq<char>,
    pub x_wr_calname: Seq<char>,
    pub x_wr_timezone: Seq<char>,
    pub events: Seq<EventsView>,
    pub acc: EventsView,
}

impl ParseState {
    /// The state before any line is read: empty header fields, no
    /// events, a default accumulator.
    pub open spec fn init() -> ParseState {
        ParseState {
            prodid: Seq::empty(),
            version: Seq::empty(),
            calscale: Seq::empty(),
            method: Seq::empty(),
            x_wr_calname: Seq::empty(),
            x_wr_timezone: Seq::empty(),
            events: Seq::empty(),
            acc: EventsView::spec_empty(),
        }
    }

    /// The calendar a finished state denotes; the accumulator of an
    /// unterminated trailing event is discarded.
    pub open spec fn to_calendar(self) -> CalendarView {
        CalendarView {
            prodid: self.prodid,
            version: self.version,
            calscale: self.calscale,
            method: self.method,
            x_wr_calname: self.x_wr_calname,
            x_wr_timezone: self.x_wr_timezone,
            events: self.events,
        }
    }
}

/// The keys of the dispatch table.
pub open spec fn recognized_key(key: Seq<char>) -> bool {
    key == "PRODID"@ || key == "VERSION"@ || key == "CALSCALE"@ || key == "METHOD"@ || key
        == "X-WR-CALNAME"@ || key == "X-WR-TIMEZONE"@ || key == "UID"@ || key == "DESCRIPTION"@
        || key == "LOCATION"@ || key == "SEQUENCE"@ || key == "STATUS"@ || key == "SUMMARY"@ || key
        == "TRANSP"@ || key == "DTSTART"@ || key == "DTSTART;VALUE=DATE"@ || key
        == "DTEND;VALUE=DATE"@ || key == "DTSTAMP"@ || key == "CREATED"@ || key == "LAST-MODIFIED"@
        || key == "END"@
}

/// The date a value denotes, or the prior field value when conversion
/// fails.
pub open spec fn date_or(v: Seq<char>, prior: DateTimeUtc) -> DateTimeUtc {
    match spec_convert_datetime(v) {
        Some(dt) => dt,
        None => prior,
    }
}

/// One line through the dispatch table.
#[verifier::opaque]
pub open spec fn spec_step(st: ParseState, line: Seq<char>) -> Option<ParseState> {
    let ci = find_first(line, ':');
    if ci < 0 {
        Some(st)
    } else {
        let key = line.take(ci);
        let value = line.skip(ci + 1);
        if key == "PRODID"@ {
            Some(ParseState { prodid: value, ..st })
        } else if key == "VERSION"@ {
            Some(ParseState { version: value, ..st })
        } else if key == "CALSCALE"@ {
            Some(ParseState { calscale: value, ..st })
        } else if key == "METHOD"@ {
            Some(ParseState { method: value, ..st })
        } else if key == "X-WR-CALNAME"@ {
            Some(ParseState { x_wr_calname: value, ..st })
        } else if key == "X-WR-TIMEZONE"@ {
            Some(ParseState { x_wr_timezone: value, ..st })
        } else if key == "UID"@ {
            Some(ParseState { acc: EventsView { uid: value, ..st.acc }, ..st })
        } else if key == "DESCRIPTION"@ {
            Some(ParseState { acc: EventsView { description: value, ..st.acc }, ..st })
        } else if key == "LOCATION"@ {
            Some(ParseState { acc: EventsView { location: value, ..st.acc }, ..st })
        } else if key == "SEQUENCE"@ {
            match spec_parse_u32(value) {
                Some(n) => Some(ParseState { acc: EventsView { sequence: n, ..st.acc }, ..st }),
                None => None,
            }
        } else if key == "STATUS"@ {
            Some(ParseState { acc: EventsView { status: value, ..st.acc }, ..st })
        } else if key == "SUMMARY"@ {
            Some(ParseState { acc: EventsView { summary: value, ..st.acc }, ..st })
        } else if key == "TRANSP"@ {
            Some(ParseState { acc: EventsView { transp: value, ..st.acc }, ..st })
        } else if key == "DTSTART"@ {
            Some(
                ParseState {
                    acc: EventsView { dtstart: date_or(value, st.acc.dtstart), ..st.acc },
                    ..st
                },
            )
        } else if key == "DTSTART;VALUE=DATE"@ {
            Some(
                ParseState {
                    acc: EventsView {
                        dtstart: date_or(value + "T000000Z"@, st.acc.dtstart),
                        ..st.acc
                    },
                    ..st
                },
            )
        } else if key == "DTEND;VALUE=DATE"@ {
            Some(
                ParseState {
                    acc: EventsView { dtend: date_or(value + "T002611Z"@, st.acc.dtend), ..st.acc },
                    ..st
                },
            )
        } else if key == "DTSTAMP"@ {
            Some(
                ParseState {
                    acc: EventsView { dtstamp: date_or(value, st.acc.dtstamp), ..st.acc },
                    ..st
                },
            )
        } else if key == "CREATED"@ {
            Some(
                ParseState {
                    acc: EventsView { created: date_or(value, st.acc.created), ..st.acc },
                    ..st
                },
            )
        } else if key == "LAST-MODIFIED"@ {
            Some(
                ParseState {
                    acc: EventsView {
                        last_modified: date_or(value, st.acc.last_modified),
                        ..st.acc
                    },
                    ..st
                },
            )
        } else if key == "END"@ && value == "VEVENT"@ {
            Some(ParseState { events: st.events.push(st.acc), acc: EventsView::spec_empty(), ..st })
        } else {
            Some(st)
        }
    }
}

/// The fold of `spec_step` over a sequence of lines.
pub open spec fn spec_run(st: ParseState, lines: Seq<Seq<char>>) -> Option<ParseState>
    decreases lines.len(),
{
    if lines.len() == 0 {
        Some(st)
    } else {
        match spec_step(st, lines[0]) {
            Some(m) => spec_run(m, lines.drop_first()),
            None => None,
        }
    }
}

/// The calendar a document denotes, or `None` on the fatal numeral
/// error.
pub open spec fn spec_parse(text: Seq<char>) -> Option<CalendarView> {
    match spec_run(ParseState::init(), spec_lines(text)) {
        Some(st) => Some(st.to_calendar()),
        None => None,
    }
}

pub proof fn lemma_run_snoc(st: ParseState, lines: Seq<Seq<char>>, l: Seq<char>)
    ensures
        spec_run(st, lines.push(l)) == (match spec_run(st, lines) {
            Some(m) => spec_step(m, l),
            None => None,
        }),
    decreases lines.len(),
{
    if lines.len() == 0 {
        assert(lines.push(l)[0] == l);
        assert(lines.push(l).drop_first() =~= Seq::<Seq<char>>::empty());
        assert(spec_run(st, lines) == Some(st));
        match spec_step(st, l) {
            Some(m) => {
                assert(spec_run(m, Seq::<Seq<char>>::empty()) == Some(m));
            },
            None => (),
        }
    } else {
        assert(lines.push(l)[0] == lines[0]);
        assert(lines.push(l).drop_first() =~= lines.drop_first().push(l));
        match spec_step(st, lines[0]) {
            Some(m) => lemma_run_snoc(m, lines.drop_first(), l),
            None => (),
        }
    }
}

pub proof fn lemma_run_app(st: ParseState, l1: Seq<Seq<char>>, l2: Seq<Seq<char>>)
    ensures
        spec_run(st, l1 + l2) == (match spec_run(st, l1) {
            Some(m) => spec_run(m, l2),
            None => None,
        }),
    decreases l1.len(),
{
    if l1.len() == 0 {
        assert(l1 + l2 =~= l2);
    } else {
        assert((l1 + l2)[0] == l1[0]);
        assert((l1 + l2).drop_first() =~= l1.drop_first() + l2);
        match spec_step(st, l1[0]) {
            Some(m) => lemma_run_app(m, l1.drop_first(), l2),
            None => (),
        }
    }
}

/// One unfolding of the run: a handled first line, then the rest.
pub proof fn lemma_run_cons(st: ParseState, lines: Seq<Seq<char>>, m: ParseState)
    requires
        lines.len() > 0,
        spec_step(st, lines[0]) == Some(m),
    ensures
        spec_run(st, lines) == spec_run(m, lines.drop_first()),
{
}

/// Once a prefix fails, the whole run fails.
pub proof fn lemma_run_prefix_none(st: ParseState, lines: Seq<Seq<char>>, k: int)
    requires
        0 <= k <= lines.len(),
        spec_run(st, lines.take(k)) is None,
    ensures
        spec_run(st, lines) is None,
{
    assert(lines =~= lines.take(k) + lines.skip(k));
    lemma_run_app(st, lines.take(k), lines.skip(k));
}

/// The dispatcher's working state.
struct Parser {
    prodid: String,
    version: String,
    calscale: String,
    method: String,
    x_wr_calname: String,
    x_wr_timezone: String,
    events: Vec<Events>,
    acc: Events,
}

impl View for Parser {
    type V = ParseState;

    closed spec fn view(&self) -> ParseState {
        ParseState {
            prodid: self.prodid@,
            version: self.version@,
            calscale: self.calscale@,
            method: self.method@,
            x_wr_calname: self.x_wr_calname@,
            x_wr_timezone: self.x_wr_timezone@,
            events: self.events@.map_values(|e: Events| e@),
            acc: self.acc@,
        }
    }
}

impl Parser {
    fn new() -> (p: Parser)
        ensures
            p@ == ParseState::init(),
    {
        let p = Parser {
            prodid: String::new(),
            version: String::new(),
            calscale: String::new(),
            method: String::new(),
            x_wr_calname: String::new(),
            x_wr_timezone: String::new(),
            events: Vec::new(),
            acc: Events::empty(),
        };
        proof {
            assert(p@ =~= ParseState::init());
        }
        p
    }

    /// Dispatches one line; `false` reports the fatal numeral error.
    fn step(&mut self, line: &str) -> (ok: bool)
        ensures
            ok ==> spec_step(old(self)@, line@) == Some(final(self)@),
            !ok ==> spec_step(old(self)@, line@) is None,
    {
        proof {
            reveal(spec_step);
        }
        let n = line.unicode_len();
        let ci = match find_char(line, ':') {
            Some(ci) => ci,
            None => {
                return true;
            },
        };
        let key = line.substring_char(0, ci);
        let value = line.substring_char(ci + 1, n);
        proof {
            assert(key@ =~= line@.take(ci as int));
            assert(value@ =~= line@.skip(ci + 1));
        }
        if str_eq(key, "PRODID") {
            self.prodid = value.to_owned();
            proof {
                assert(self@ =~= (ParseState { prodid: value@, ..old(self)@ }));
            }
        } else if str_eq(key, "VERSION") {
            self.version = value.to_owned();
            proof {
                assert(self@ =~= (ParseState { version: value@, ..old(self)@ }));
            }
        } else if str_eq(key, "CALSCALE") {
            self.calscale = value.to_owned();
            proof {
                assert(self@ =~= (ParseState { calscale: value@, ..old(self)@ }));
            }
        } else if str_eq(key, "METHOD") {
            self.method = value.to_owned();
            proof {
                assert(self@ =~= (ParseState { method: value@, ..old(self)@ }));
            }
        } else if str_eq(key, "X-WR-CALNAME") {
            self.x_wr_calname = value.to_owned();
            proof {
                assert(self@ =~= (ParseState { x_wr_calname: value@, ..old(self)@ }));
            }
        } else if str_eq(key, "X-WR-TIMEZONE") {
            self.x_wr_timezone = value.to_owned();
            proof {
                assert(self@ =~= (ParseState { x_wr_timezone: value@, ..old(self)@ }));
            }
        } else if str_eq(key, "UID") {
            self.acc.uid = value.to_owned();
            proof {
                assert(self@ =~= (ParseState {
                    acc: EventsView { uid: value@, ..old(self)@.acc },
                    ..old(self)@
                }));
            }
        } else if str_eq(key, "DESCRIPTION") {
            self.acc.description = value.to_owned();
            proof {
                assert(self@ =~= (ParseState {
                    acc: EventsView { description: value@, ..old(self)@.acc },
                    ..old(self)@
                }));
            }
        } else if str_eq(key, "LOCATION") {
            self.acc.location = value.to_owned();
            proof {
                assert(self@ =~= (ParseState {
                    acc: EventsView { location: value@, ..old(self)@.acc },
                    ..old(self)@
                }));
            }
        } else if str_eq(key, "SEQUENCE") {
            match parse_u32(value) {
                Some(nv) => {
                    self.acc.sequence = nv;
                    proof {
                        assert(self@ =~= (ParseState {
                            acc: EventsView { sequence: nv, ..old(self)@.acc },
                            ..old(self)@
                        }));
                    }
                },
                None => {
                    return false;
                },
            }
        } else if str_eq(key, "STATUS") {
            self.acc.status = value.to_owned();
            proof {
                assert(self@ =~= (ParseState {
                    acc: EventsView { status: value@, ..old(self)@.acc },
                    ..old(self)@
                }));
            }
        } else if str_eq(key, "SUMMARY") {
            self.acc.summary = value.to_owned();
            proof {
                assert(self@ =~= (ParseState {
                    acc: EventsView { summary: value@, ..old(self)@.acc },
                    ..old(self)@
                }));
            }
        } else if str_eq(key, "TRANSP") {
            self.acc.transp = value.to_owned();
            proof {
                assert(self@ =~= (ParseState {
                    acc: EventsView { transp: value@, ..old(self)@.acc },
                    ..old(self)@
                }));
            }
        } else if str_eq(key, "DTSTART") {
            if let Some(dt) = convert_datetime(value) {
                self.acc.dtstart = dt;
            }
            proof {
                assert(self@ =~= (ParseState {
                    acc: EventsView {
                        dtstart: date_or(value@, old(self)@.acc.dtstart),
                        ..old(self)@.acc
                    },
                    ..old(self)@
                }));
            }
        } else if str_eq(key, "DTSTART;VALUE=DATE") {
            let mut aux = value.to_owned();
            aux.append("T000000Z");
            if let Some(dt) = convert_datetime(aux.as_str()) {
                self.acc.dtstart = dt;
            }
            proof {
                assert(self@ =~= (ParseState {
                    acc: EventsView {
                        dtstart: date_or(value@ + "T000000Z"@, old(self)@.acc.dtstart),
                        ..old(self)@.acc
                    },
                    ..old(self)@
                }));
            }
        } else if str_eq(key, "DTEND;VALUE=DATE") {
            let mut aux = value.to_owned();
            aux.append("T002611Z");
            if let Some(dt) = convert_datetime(aux.as_str()) {
                self.acc.dtend = dt;
            }
            proof {
                assert(self@ =~= (ParseState {
                    acc: EventsView {
                        dtend: date_or(value@ + "T002611Z"@, old(self)@.acc.dtend),
                        ..old(self)@.acc
                    },
                    ..old(self)@
                }));
            }
        } else if str_eq(key, "DTSTAMP") {
            if let Some(dt) = convert_datetime(value) {
                self.acc.dtstamp = dt;
            }
            proof {
                assert(self@ =~= (ParseState {
                    acc: EventsView {
                        dtstamp: date_or(value@, old(self)@.acc.dtstamp),
                        ..old(self)@.acc
                    },
                    ..old(self)@
                }));
            }
        } else if str_eq(key, "CREATED") {
            if let Some(dt) = convert_datetime(value) {
                self.acc.created = dt;
            }
            proof {
                assert(self@ =~= (ParseState {
                    acc: EventsView {
                        created: date_or(value@, old(self)@.acc.created),
                        ..old(self)@.acc
                    },
                    ..old(self)@
                }));
            }
        } else if str_eq(key, "LAST-MODIFIED") {
            if let Some(dt) = convert_datetime(value) {
                self.acc.last_modified = dt;
            }
            proof {
                assert(self@ =~= (ParseState {
                    acc: EventsView {
                        last_modified: date_or(value@, old(self)@.acc.last_modified),
                        ..old(self)@.acc
                    },
                    ..old(self)@
                }));
            }
        } else if str_eq(key, "END") {
            if str_eq(value, "VEVENT") {
                let done = self.acc.duplicate();
                self.events.push(done);
                self.acc = Events::empty();
                proof {
                    assert(self@ =~= (ParseState {
                        events: old(self)@.events.push(old(self)@.acc),
                        acc: EventsView::spec_empty(),
                        ..old(self)@
                    }));
                }
            }
        }
        true
    }

    /// The finished calendar.
    fn into_calendar(self) -> (c: Calendar)
        ensures
            c@ == self@.to_calendar(),
    {
        let ghost v = self@;
        let c = Calendar {
            prodid: self.prodid,
            version: self.version,
            calscale: self.calscale,
            method: self.method,
            x_wr_calname: self.x_wr_calname,
            x_wr_timezone: self.x_wr_timezone,
            events: self.events,
        };
        proof {
            assert(c@ =~= v.to_calendar());
        }
        c
    }
}

impl Calendar {
    /// Parses a document into a calendar. The call fails only when a
    /// `SEQUENCE` line carries a malformed numeral; a line without a
    /// colon is skipped, an unrecognized key is ignored, and a
    /// malformed date leaves the field's prior value untouched.
    pub fn new_from_data(data: &str) -> (r: Result<Calendar, ParseError>)
        ensures
            match r {
                Ok(c) => spec_parse(data@) == Some(c@),
                Err(e) => spec_parse(data@) is None && e == ParseError::InvalidSequence,
            },
    {
        let lines = split_lines(data);
        let ghost gl = spec_lines(data@);
        let mut p = Parser::new();
        let mut i: usize = 0;
        proof {
            assert(gl.take(0) =~= Seq::<Seq<char>>::empty());
        }
        while i < lines.len()
            invariant
                i <= lines@.len(),
                lines@.len() == gl.len(),
                forall|k: int| 0 <= k < gl.len() ==> lines@[k]@ == gl[k],
                gl == spec_lines(data@),
                spec_run(ParseState::init(), gl.take(i as int)) == Some(p@),
            decreases lines@.len() - i,
        {
            let ghost pre = p@;
            let ok = p.step(lines[i].as_str());
            proof {
                lemma_run_snoc(ParseState::init(), gl.take(i as int), gl[i as int]);
                assert(gl.take(i + 1) =~= gl.take(i as int).push(gl[i as int]));
            }
            if !ok {
                proof {
                    lemma_run_prefix_none(ParseState::init(), gl, i + 1);
                }
                return Err(ParseError::InvalidSequence);
            }
            i += 1;
        }
        proof {
            assert(gl.take(gl.len() as int) =~= gl);
        }
        let c = p.into_calendar();
        Ok(c)
    }
}

} // verus!

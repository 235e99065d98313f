//! The library's laws: how the serializer's output reads back through
//! the parser, what the day-span classifier decides, and how the
//! parser treats lines it does not understand.

use vstd::prelude::*;
use crate::datetime::{
    DateTimeUtc,
    lemma_convert_canonical,
    lemma_convert_wf,
};
use crate::model::{CalendarView, EventsView};
use crate::numbers::{
    is_digit_char,
    spec_u32_digits,
    lemma_u32_digits_props,
    lemma_parse_u32_of_digits,
};
use crate::parse::{
    ParseState,
    date_or,
    recognized_key,
    spec_step,
    spec_run,
    spec_parse,
    lemma_run_app,
    lemma_run_cons,
};
use crate::numbers::spec_parse_u32;
use crate::serialize::{
    spec_line,
    spec_event_block,
    spec_event_blocks,
    spec_header,
    spec_serialize,
};
use crate::strutil::{
    find_first,
    lemma_find_first_at,
    lemma_find_first_props,
    lemma_find_first_none,
    lemma_cat_assoc,
    strip_cr,
    split_nl,
    lemma_split_nl_len,
    lemma_split_nl_prepend,
    lemma_split_nl_single,
    spec_lines,
    lemma_lines_no_nl,
};

verus! {

/// Text that fits on one wire line: free of newlines.
pub open spec fn text_ok(s: Seq<char>) -> bool {
    forall|j: int| 0 <= j < s.len() ==> s[j] != '\n'
}

pub open spec fn has_colon(l: Seq<char>) -> bool {
    exists|j: int| 0 <= j < l.len() && l[j] == ':'
}

/// An event as the parser builds it: line-fitting texts and
/// well-formed timestamps.
pub open spec fn event_fields_ok(e: EventsView) -> bool {
    e.dtstart.wf() && e.dtend.wf() && e.dtstamp.wf() && e.created.wf() && e.last_modified.wf()
        && text_ok(e.uid) && text_ok(e.description) && text_ok(e.location) && text_ok(e.status)
        && text_ok(e.summary) && text_ok(e.transp)
}

pub open spec fn calendar_fields_ok(c: CalendarView) -> bool {
    text_ok(c.prodid) && text_ok(c.version) && text_ok(c.calscale) && text_ok(c.method) && text_ok(
        c.x_wr_calname,
    ) && text_ok(c.x_wr_timezone) && (forall|i: int|
        0 <= i < c.events.len() ==> event_fields_ok(#[trigger] c.events[i]))
}

/// An event whose serialized block reads back exactly: well-formed
/// fields, and an end timestamp still at the sentinel, since a written
/// `DTEND` line is not in the parser's dispatch table.
pub open spec fn event_round_trip_ok(e: EventsView) -> bool {
    event_fields_ok(e) && e.dtend == DateTimeUtc::spec_sentinel()
}

pub open spec fn calendar_round_trip_ok(c: CalendarView) -> bool {
    text_ok(c.prodid) && text_ok(c.version) && text_ok(c.calscale) && text_ok(c.method) && text_ok(
        c.x_wr_calname,
    ) && text_ok(c.x_wr_timezone) && (forall|i: int|
        0 <= i < c.events.len() ==> event_round_trip_ok(#[trigger] c.events[i]))
}

/// Law: an event whose end lies at least twenty-four hours after its
/// start spans a full day; one whose end precedes its start does not.
pub proof fn lemma_day_span_classifier(e: EventsView)
    ensures
        e.dtend.spec_timestamp() >= e.dtstart.spec_timestamp() + 86400 ==> e.spec_is_all_day(),
        e.dtend.spec_timestamp() < e.dtstart.spec_timestamp() ==> !e.spec_is_all_day(),
{
}

/// Law: a line without a colon is discarded: it changes no state and
/// fails no parse.
pub proof fn lemma_line_without_colon_skipped(st: ParseState, line: Seq<char>)
    requires
        forall|j: int| 0 <= j < line.len() ==> line[j] != ':',
    ensures
        spec_step(st, line) == Some(st),
{
    reveal(spec_step);
    lemma_find_first_none(line, ':');
}

/// Law: a line whose key is not in the dispatch table leaves the whole
/// state unchanged: no field of the calendar or of the accumulator is
/// affected.
pub proof fn lemma_unrecognized_key_ignored(st: ParseState, line: Seq<char>)
    requires
        find_first(line, ':') >= 0,
        !recognized_key(line.take(find_first(line, ':'))),
    ensures
        spec_step(st, line) == Some(st),
{
    reveal(spec_step);
}

/// Locating the colon of a `KEY:value` line.
pub proof fn lemma_line_split(line: Seq<char>, key: Seq<char>, value: Seq<char>)
    requires
        line == key + seq![':'] + value,
        forall|j: int| 0 <= j < key.len() ==> key[j] != ':',
    ensures
        find_first(line, ':') == key.len(),
        line.take(key.len() as int) == key,
        line.skip(key.len() as int + 1) == value,
{
    assert(line[key.len() as int] == ':');
    assert forall|j: int| 0 <= j < key.len() implies line[j] != ':' by {
        assert(line[j] == key[j]);
    }
    lemma_find_first_at(line, ':', key.len() as int);
    assert(line.take(key.len() as int) =~= key);
    assert(line.skip(key.len() as int + 1) =~= value);
}

/// A keyed line contains its colon.
pub proof fn lemma_keyed_line_has_colon(key: Seq<char>, value: Seq<char>)
    ensures
        has_colon(key + seq![':'] + value),
{
    assert((key + seq![':'] + value)[key.len() as int] == ':');
}

/// The canonical text of a timestamp is digits and letters only.
pub proof fn lemma_canonical_text_ok(dt: DateTimeUtc)
    ensures
        text_ok(dt.canonical()),
{
    assert forall|j: int| 0 <= j < dt.canonical().len() implies dt.canonical()[j] != '\n' by {
        let c = dt.canonical()[j];
        assert(c == 'T' || c == 'Z' || is_digit_char(c));
    }
}

/// A decimal numeral is free of newlines.
pub proof fn lemma_digits_text_ok(n: int)
    requires
        0 <= n,
    ensures
        text_ok(spec_u32_digits(n)),
{
    lemma_u32_digits_props(n);
    assert forall|j: int| 0 <= j < spec_u32_digits(n).len() implies spec_u32_digits(n)[j]
        != '\n' by {
        assert(is_digit_char(spec_u32_digits(n)[j]));
    }
}

/// A line of serialized text, followed by anything, splits off as one
/// parsed line.
pub proof fn lemma_lines_prepend(x: Seq<char>, rest: Seq<char>)
    requires
        forall|j: int| 0 <= j < x.len() ==> x[j] != '\n',
    ensures
        spec_lines(x + "\r\n"@ + rest) == seq![x] + spec_lines(rest),
{
    reveal_strlit("\r\n");
    let xr = x + seq!['\r'];
    let t = x + "\r\n"@ + rest;
    assert(t =~= xr + seq!['\n'] + rest);
    assert forall|j: int| 0 <= j < xr.len() implies xr[j] != '\n' by {
        if j < x.len() {
            assert(xr[j] == x[j]);
        } else {
            assert(xr[j] == '\r');
        }
    }
    lemma_split_nl_prepend(xr, rest);
    lemma_split_nl_len(rest);
    let chunks = split_nl(t);
    assert(chunks == seq![xr] + split_nl(rest));
    assert(chunks.last() == split_nl(rest).last());
    assert(xr.last() == '\r');
    assert(xr.drop_last() =~= x);
    assert(strip_cr(xr) == x);
    if split_nl(rest).last().len() == 0 {
        assert(chunks.drop_last() =~= seq![xr] + split_nl(rest).drop_last());
        assert(spec_lines(t) =~= seq![x] + spec_lines(rest));
    } else {
        assert(spec_lines(t) =~= seq![x] + spec_lines(rest));
    }
}

/// The lines of one serialized event block.
pub open spec fn block_lines(e: EventsView) -> Seq<Seq<char>> {
    seq![
        "BEGIN"@ + seq![':'] + "VEVENT"@,
        "DTSTART"@ + seq![':'] + e.dtstart.canonical(),
        "DTEND"@ + seq![':'] + e.dtend.canonical(),
        "DTSTAMP"@ + seq![':'] + e.dtstamp.canonical(),
        "UID"@ + seq![':'] + e.uid,
        "CREATED"@ + seq![':'] + e.created.canonical(),
        "DESCRIPTION"@ + seq![':'] + e.description,
        "LAST-MODIFIED"@ + seq![':'] + e.last_modified.canonical(),
        "LOCATION"@ + seq![':'] + e.location,
        "SEQUENCE"@ + seq![':'] + spec_u32_digits(e.sequence as int),
        "STATUS"@ + seq![':'] + e.status,
        "SUMMARY"@ + seq![':'] + e.summary,
        "TRANSP"@ + seq![':'] + e.transp,
        "END"@ + seq![':'] + "VEVENT"@,
    ]
}

/// The lines of the serialized blocks of a whole event list.
pub open spec fn blocks_lines(events: Seq<EventsView>) -> Seq<Seq<char>>
    decreases events.len(),
{
    if events.len() == 0 {
        Seq::empty()
    } else {
        block_lines(events[0]) + blocks_lines(events.drop_first())
    }
}

/// The lines of the serialized header part.
pub open spec fn header_lines(c: CalendarView) -> Seq<Seq<char>> {
    seq![
        "BEGIN"@ + seq![':'] + "VCALENDAR"@,
        "PRODID"@ + seq![':'] + c.prodid,
        "CALSCALE"@ + seq![':'] + c.calscale,
        "VERSION"@ + seq![':'] + c.version,
        "METHOD"@ + seq![':'] + c.method,
        "X-WR-CALNAME"@ + seq![':'] + c.x_wr_calname,
        "X-WR-TIMEZONE"@ + seq![':'] + c.x_wr_timezone,
    ]
}

/// The lines of a whole serialized document.
pub open spec fn doc_lines(c: CalendarView) -> Seq<Seq<char>> {
    header_lines(c) + blocks_lines(c.events) + seq!["END:VCALENDAR"@]
}

/// One serialized line, followed by anything, splits off as itself.
proof fn lemma_line_glue(key: Seq<char>, value: Seq<char>, rest: Seq<char>)
    requires
        text_ok(key),
        text_ok(value),
    ensures
        spec_lines(spec_line(key, value) + rest) == seq![key + seq![':'] + value] + spec_lines(
            rest,
        ),
{
    lemma_keyed_text_ok(key, value);
    lemma_lines_prepend(key + seq![':'] + value, rest);
}

/// Singleton line sequences, nested to the right, flatten.
#[verifier::rlimit(50)]
proof fn lemma_cons14(
    l0: Seq<char>,
    l1: Seq<char>,
    l2: Seq<char>,
    l3: Seq<char>,
    l4: Seq<char>,
    l5: Seq<char>,
    l6: Seq<char>,
    l7: Seq<char>,
    l8: Seq<char>,
    l9: Seq<char>,
    l10: Seq<char>,
    l11: Seq<char>,
    l12: Seq<char>,
    l13: Seq<char>,
    t: Seq<Seq<char>>,
)
    ensures
        seq![l0] + (seq![l1] + (seq![l2] + (seq![l3] + (seq![l4] + (seq![l5] + (seq![l6] + (
        seq![l7] + (seq![l8] + (seq![l9] + (seq![l10] + (seq![l11] + (seq![l12] + (seq![l13]
            + t))))))))))))) == seq![l0, l1, l2, l3, l4, l5, l6, l7, l8, l9, l10, l11, l12, l13]
            + t,
{
    assert(seq![l0] + (seq![l1] + (seq![l2] + (seq![l3] + (seq![l4] + (seq![l5] + (seq![l6] + (
    seq![l7] + (seq![l8] + (seq![l9] + (seq![l10] + (seq![l11] + (seq![l12] + (seq![l13] + t)))))))))))))
        =~= seq![l0, l1, l2, l3, l4, l5, l6, l7, l8, l9, l10, l11, l12, l13] + t);
}

#[verifier::rlimit(50)]
proof fn lemma_cons7(
    l0: Seq<char>,
    l1: Seq<char>,
    l2: Seq<char>,
    l3: Seq<char>,
    l4: Seq<char>,
    l5: Seq<char>,
    l6: Seq<char>,
    t: Seq<Seq<char>>,
)
    ensures
        seq![l0] + (seq![l1] + (seq![l2] + (seq![l3] + (seq![l4] + (seq![l5] + (seq![l6] + t))))))
            == seq![l0, l1, l2, l3, l4, l5, l6] + t,
{
    assert(seq![l0] + (seq![l1] + (seq![l2] + (seq![l3] + (seq![l4] + (seq![l5] + (seq![l6] + t))))))
        =~= seq![l0, l1, l2, l3, l4, l5, l6] + t);
}

/// A line's text is free of newlines when its key and value are.
proof fn lemma_keyed_text_ok(key: Seq<char>, value: Seq<char>)
    requires
        text_ok(key),
        text_ok(value),
    ensures
        forall|j: int|
            0 <= j < (key + seq![':'] + value).len() ==> (key + seq![':'] + value)[j] != '\n',
{
    let l = key + seq![':'] + value;
    assert forall|j: int| 0 <= j < l.len() implies l[j] != '\n' by {
        if j < key.len() {
            assert(l[j] == key[j]);
        } else if j == key.len() {
            assert(l[j] == ':');
        } else {
            assert(l[j] == value[j - key.len() - 1]);
        }
    }
}

/// One serialized event block, followed by anything, contributes
/// exactly its fourteen lines.
#[verifier::rlimit(100)]
proof fn lemma_block_lines_glue(e: EventsView, rest: Seq<char>)
    requires
        event_fields_ok(e),
    ensures
        spec_lines(spec_event_block(e) + rest) == block_lines(e) + spec_lines(rest),
{
    reveal_strlit("BEGIN");
    reveal_strlit("VEVENT");
    reveal_strlit("END");
    reveal_strlit("DTSTART");
    reveal_strlit("DTEND");
    reveal_strlit("DTSTAMP");
    reveal_strlit("UID");
    reveal_strlit("CREATED");
    reveal_strlit("DESCRIPTION");
    reveal_strlit("LAST-MODIFIED");
    reveal_strlit("LOCATION");
    reveal_strlit("SEQUENCE");
    reveal_strlit("STATUS");
    reveal_strlit("SUMMARY");
    reveal_strlit("TRANSP");
    lemma_canonical_text_ok(e.dtstart);
    lemma_canonical_text_ok(e.dtend);
    lemma_canonical_text_ok(e.dtstamp);
    lemma_canonical_text_ok(e.created);
    lemma_canonical_text_ok(e.last_modified);
    lemma_digits_text_ok(e.sequence as int);
    assert(text_ok("BEGIN"@) && text_ok("VEVENT"@) && text_ok("END"@) && text_ok("DTSTART"@)
        && text_ok("DTEND"@) && text_ok("DTSTAMP"@) && text_ok("UID"@) && text_ok("CREATED"@)
        && text_ok("DESCRIPTION"@) && text_ok("LAST-MODIFIED"@) && text_ok("LOCATION"@) && text_ok(
        "SEQUENCE"@,
    ) && text_ok("STATUS"@) && text_ok("SUMMARY"@) && text_ok("TRANSP"@));
    let b0 = spec_line("BEGIN"@, "VEVENT"@);
    let b1 = spec_line("DTSTART"@, e.dtstart.canonical());
    let b2 = spec_line("DTEND"@, e.dtend.canonical());
    let b3 = spec_line("DTSTAMP"@, e.dtstamp.canonical());
    let b4 = spec_line("UID"@, e.uid);
    let b5 = spec_line("CREATED"@, e.created.canonical());
    let b6 = spec_line("DESCRIPTION"@, e.description);
    let b7 = spec_line("LAST-MODIFIED"@, e.last_modified.canonical());
    let b8 = spec_line("LOCATION"@, e.location);
    let b9 = spec_line("SEQUENCE"@, spec_u32_digits(e.sequence as int));
    let b10 = spec_line("STATUS"@, e.status);
    let b11 = spec_line("SUMMARY"@, e.summary);
    let b12 = spec_line("TRANSP"@, e.transp);
    let b13 = spec_line("END"@, "VEVENT"@);
    let r13 = b13;
    let r12 = b12 + r13;
    let r11 = b11 + r12;
    let r10 = b10 + r11;
    let r9 = b9 + r10;
    let r8 = b8 + r9;
    let r7 = b7 + r8;
    let r6 = b6 + r7;
    let r5 = b5 + r6;
    let r4 = b4 + r5;
    let r3 = b3 + r4;
    let r2 = b2 + r3;
    let r1 = b1 + r2;
    assert(spec_event_block(e) == b0 + r1);
    lemma_cat_assoc(b0, r1, rest);
    lemma_cat_assoc(b1, r2, rest);
    lemma_cat_assoc(b2, r3, rest);
    lemma_cat_assoc(b3, r4, rest);
    lemma_cat_assoc(b4, r5, rest);
    lemma_cat_assoc(b5, r6, rest);
    lemma_cat_assoc(b6, r7, rest);
    lemma_cat_assoc(b7, r8, rest);
    lemma_cat_assoc(b8, r9, rest);
    lemma_cat_assoc(b9, r10, rest);
    lemma_cat_assoc(b10, r11, rest);
    lemma_cat_assoc(b11, r12, rest);
    lemma_cat_assoc(b12, r13, rest);
    let l0 = "BEGIN"@ + seq![':'] + "VEVENT"@;
    let l1 = "DTSTART"@ + seq![':'] + e.dtstart.canonical();
    let l2 = "DTEND"@ + seq![':'] + e.dtend.canonical();
    let l3 = "DTSTAMP"@ + seq![':'] + e.dtstamp.canonical();
    let l4 = "UID"@ + seq![':'] + e.uid;
    let l5 = "CREATED"@ + seq![':'] + e.created.canonical();
    let l6 = "DESCRIPTION"@ + seq![':'] + e.description;
    let l7 = "LAST-MODIFIED"@ + seq![':'] + e.last_modified.canonical();
    let l8 = "LOCATION"@ + seq![':'] + e.location;
    let l9 = "SEQUENCE"@ + seq![':'] + spec_u32_digits(e.sequence as int);
    let l10 = "STATUS"@ + seq![':'] + e.status;
    let l11 = "SUMMARY"@ + seq![':'] + e.summary;
    let l12 = "TRANSP"@ + seq![':'] + e.transp;
    let l13 = "END"@ + seq![':'] + "VEVENT"@;
    lemma_line_glue("BEGIN"@, "VEVENT"@, r1 + rest);
    lemma_line_glue("DTSTART"@, e.dtstart.canonical(), r2 + rest);
    lemma_line_glue("DTEND"@, e.dtend.canonical(), r3 + rest);
    lemma_line_glue("DTSTAMP"@, e.dtstamp.canonical(), r4 + rest);
    lemma_line_glue("UID"@, e.uid, r5 + rest);
    lemma_line_glue("CREATED"@, e.created.canonical(), r6 + rest);
    lemma_line_glue("DESCRIPTION"@, e.description, r7 + rest);
    lemma_line_glue("LAST-MODIFIED"@, e.last_modified.canonical(), r8 + rest);
    lemma_line_glue("LOCATION"@, e.location, r9 + rest);
    lemma_line_glue("SEQUENCE"@, spec_u32_digits(e.sequence as int), r10 + rest);
    lemma_line_glue("STATUS"@, e.status, r11 + rest);
    lemma_line_glue("SUMMARY"@, e.summary, r12 + rest);
    lemma_line_glue("TRANSP"@, e.transp, r13 + rest);
    lemma_line_glue("END"@, "VEVENT"@, rest);
    assert(spec_lines(spec_event_block(e) + rest) == seq![l0] + (seq![l1] + (seq![l2] + (seq![l3]
        + (seq![l4] + (seq![l5] + (seq![l6] + (seq![l7] + (seq![l8] + (seq![l9] + (seq![l10] + (
    seq![l11] + (seq![l12] + (seq![l13] + spec_lines(rest)))))))))))))));
    lemma_cons14(
        l0,
        l1,
        l2,
        l3,
        l4,
        l5,
        l6,
        l7,
        l8,
        l9,
        l10,
        l11,
        l12,
        l13,
        spec_lines(rest),
    );
    assert(block_lines(e) == seq![l0, l1, l2, l3, l4, l5, l6, l7, l8, l9, l10, l11, l12, l13]);
}

/// The serialized event blocks, followed by anything, contribute
/// exactly their lines.
proof fn lemma_blocks_lines_glue(events: Seq<EventsView>, rest: Seq<char>)
    requires
        forall|i: int| 0 <= i < events.len() ==> event_fields_ok(#[trigger] events[i]),
    ensures
        spec_lines(spec_event_blocks(events) + rest) == blocks_lines(events) + spec_lines(rest),
    decreases events.len(),
{
    if events.len() == 0 {
        assert(spec_event_blocks(events) + rest =~= rest);
        assert(blocks_lines(events) + spec_lines(rest) =~= spec_lines(rest));
    } else {
        lemma_cat_assoc(
            spec_event_block(events[0]),
            spec_event_blocks(events.drop_first()),
            rest,
        );
        lemma_block_lines_glue(events[0], spec_event_blocks(events.drop_first()) + rest);
        assert forall|i: int|
            0 <= i < events.drop_first().len() implies event_fields_ok(
            #[trigger] events.drop_first()[i],
        ) by {
            assert(events.drop_first()[i] == events[i + 1]);
        }
        lemma_blocks_lines_glue(events.drop_first(), rest);
        assert(block_lines(events[0]) + (blocks_lines(events.drop_first()) + spec_lines(rest))
            =~= (block_lines(events[0]) + blocks_lines(events.drop_first())) + spec_lines(rest));
    }
}

/// The serialized document splits into exactly its lines.
#[verifier::rlimit(100)]
proof fn lemma_serialize_lines(c: CalendarView)
    requires
        calendar_fields_ok(c),
    ensures
        spec_lines(spec_serialize(c)) == doc_lines(c),
{
    reveal_strlit("BEGIN");
    reveal_strlit("VCALENDAR");
    reveal_strlit("PRODID");
    reveal_strlit("CALSCALE");
    reveal_strlit("VERSION");
    reveal_strlit("METHOD");
    reveal_strlit("X-WR-CALNAME");
    reveal_strlit("X-WR-TIMEZONE");
    reveal_strlit("END:VCALENDAR");
    let tail = spec_event_blocks(c.events) + "END:VCALENDAR"@;
    let h0 = spec_line("BEGIN"@, "VCALENDAR"@);
    let h1 = spec_line("PRODID"@, c.prodid);
    let h2 = spec_line("CALSCALE"@, c.calscale);
    let h3 = spec_line("VERSION"@, c.version);
    let h4 = spec_line("METHOD"@, c.method);
    let h5 = spec_line("X-WR-CALNAME"@, c.x_wr_calname);
    let h6 = spec_line("X-WR-TIMEZONE"@, c.x_wr_timezone);
    let r6 = h6;
    let r5 = h5 + r6;
    let r4 = h4 + r5;
    let r3 = h3 + r4;
    let r2 = h2 + r3;
    let r1 = h1 + r2;
    assert(spec_header(c) == h0 + r1);
    lemma_cat_assoc(h0, r1, tail);
    lemma_cat_assoc(h1, r2, tail);
    lemma_cat_assoc(h2, r3, tail);
    lemma_cat_assoc(h3, r4, tail);
    lemma_cat_assoc(h4, r5, tail);
    lemma_cat_assoc(h5, r6, tail);
    let g0 = "BEGIN"@ + seq![':'] + "VCALENDAR"@;
    let g1 = "PRODID"@ + seq![':'] + c.prodid;
    let g2 = "CALSCALE"@ + seq![':'] + c.calscale;
    let g3 = "VERSION"@ + seq![':'] + c.version;
    let g4 = "METHOD"@ + seq![':'] + c.method;
    let g5 = "X-WR-CALNAME"@ + seq![':'] + c.x_wr_calname;
    let g6 = "X-WR-TIMEZONE"@ + seq![':'] + c.x_wr_timezone;
    assert(text_ok("BEGIN"@) && text_ok("VCALENDAR"@) && text_ok("PRODID"@) && text_ok(
        "CALSCALE"@,
    ) && text_ok("VERSION"@) && text_ok("METHOD"@) && text_ok("X-WR-CALNAME"@) && text_ok(
        "X-WR-TIMEZONE"@,
    ));
    lemma_line_glue("BEGIN"@, "VCALENDAR"@, r1 + tail);
    lemma_line_glue("PRODID"@, c.prodid, r2 + tail);
    lemma_line_glue("CALSCALE"@, c.calscale, r3 + tail);
    lemma_line_glue("VERSION"@, c.version, r4 + tail);
    lemma_line_glue("METHOD"@, c.method, r5 + tail);
    lemma_line_glue("X-WR-CALNAME"@, c.x_wr_calname, r6 + tail);
    lemma_line_glue("X-WR-TIMEZONE"@, c.x_wr_timezone, tail);
    assert(spec_lines(spec_serialize(c)) == seq![g0] + (seq![g1] + (seq![g2] + (seq![g3] + (
    seq![g4] + (seq![g5] + (seq![g6] + spec_lines(tail))))))));
    lemma_cons7(g0, g1, g2, g3, g4, g5, g6, spec_lines(tail));
    lemma_blocks_lines_glue(c.events, "END:VCALENDAR"@);
    let endl = "END:VCALENDAR"@;
    assert forall|j: int| 0 <= j < endl.len() implies endl[j] != '\n' by {}
    lemma_split_nl_single(endl);
    assert(split_nl(endl).last() == endl);
    assert(endl.len() == 13);
    assert(endl.last() != '\r');
    assert(strip_cr(endl) == endl);
    assert(spec_lines(endl) =~= seq![endl]);
    assert(header_lines(c) == seq![g0, g1, g2, g3, g4, g5, g6]);
    assert(doc_lines(c) =~= header_lines(c) + (blocks_lines(c.events) + seq![endl]));
    assert(spec_lines(spec_serialize(c)) == header_lines(c) + (blocks_lines(c.events)
        + spec_lines(endl)));
}

/// The parse state after the serialized header lines.
pub open spec fn header_state(c: CalendarView) -> ParseState {
    ParseState {
        prodid: c.prodid,
        version: c.version,
        calscale: c.calscale,
        method: c.method,
        x_wr_calname: c.x_wr_calname,
        x_wr_timezone: c.x_wr_timezone,
        events: Seq::empty(),
        acc: EventsView::spec_empty(),
    }
}

proof fn lemma_step_prodid(st: ParseState, v: Seq<char>)
    ensures
        spec_step(st, "PRODID"@ + seq![':'] + v) == Some(ParseState { prodid: v, ..st }),
{
    reveal(spec_step);
    reveal_strlit("PRODID");
    reveal_strlit("VERSION");
    reveal_strlit("CALSCALE");
    reveal_strlit("METHOD");
    reveal_strlit("X-WR-CALNAME");
    reveal_strlit("X-WR-TIMEZONE");
    reveal_strlit("UID");
    reveal_strlit("DESCRIPTION");
    reveal_strlit("LOCATION");
    reveal_strlit("SEQUENCE");
    reveal_strlit("STATUS");
    reveal_strlit("SUMMARY");
    reveal_strlit("TRANSP");
    reveal_strlit("DTSTART");
    reveal_strlit("DTSTART;VALUE=DATE");
    reveal_strlit("DTEND;VALUE=DATE");
    reveal_strlit("DTSTAMP");
    reveal_strlit("CREATED");
    reveal_strlit("LAST-MODIFIED");
    reveal_strlit("END");
    lemma_line_split("PRODID"@ + seq![':'] + v, "PRODID"@, v);
}

proof fn lemma_step_version(st: ParseState, v: Seq<char>)
    ensures
        spec_step(st, "VERSION"@ + seq![':'] + v) == Some(ParseState { version: v, ..st }),
{
    reveal(spec_step);
    reveal_strlit("PRODID");
    reveal_strlit("VERSION");
    reveal_strlit("CALSCALE");
    reveal_strlit("METHOD");
    reveal_strlit("X-WR-CALNAME");
    reveal_strlit("X-WR-TIMEZONE");
    reveal_strlit("UID");
    reveal_strlit("DESCRIPTION");
    reveal_strlit("LOCATION");
    reveal_strlit("SEQUENCE");
    reveal_strlit("STATUS");
    reveal_strlit("SUMMARY");
    reveal_strlit("TRANSP");
    reveal_strlit("DTSTART");
    reveal_strlit("DTSTART;VALUE=DATE");
    reveal_strlit("DTEND;VALUE=DATE");
    reveal_strlit("DTSTAMP");
    reveal_strlit("CREATED");
    reveal_strlit("LAST-MODIFIED");
    reveal_strlit("END");
    lemma_line_split("VERSION"@ + seq![':'] + v, "VERSION"@, v);
}

proof fn lemma_step_calscale(st: ParseState, v: Seq<char>)
    ensures
        spec_step(st, "CALSCALE"@ + seq![':'] + v) == Some(ParseState { calscale: v, ..st }),
{
    reveal(spec_step);
    reveal_strlit("PRODID");
    reveal_strlit("VERSION");
    reveal_strlit("CALSCALE");
    reveal_strlit("METHOD");
    reveal_strlit("X-WR-CALNAME");
    reveal_strlit("X-WR-TIMEZONE");
    reveal_strlit("UID");
    reveal_strlit("DESCRIPTION");
    reveal_strlit("LOCATION");
    reveal_strlit("SEQUENCE");
    reveal_strlit("STATUS");
    reveal_strlit("SUMMARY");
    reveal_strlit("TRANSP");
    reveal_strlit("DTSTART");
    reveal_strlit("DTSTART;VALUE=DATE");
    reveal_strlit("DTEND;VALUE=DATE");
    reveal_strlit("DTSTAMP");
    reveal_strlit("CREATED");
    reveal_strlit("LAST-MODIFIED");
    reveal_strlit("END");
    lemma_line_split("CALSCALE"@ + seq![':'] + v, "CALSCALE"@, v);
}

proof fn lemma_step_method(st: ParseState, v: Seq<char>)
    ensures
        spec_step(st, "METHOD"@ + seq![':'] + v) == Some(ParseState { method: v, ..st }),
{
    reveal(spec_step);
    reveal_strlit("PRODID");
    reveal_strlit("VERSION");
    reveal_strlit("CALSCALE");
    reveal_strlit("METHOD");
    reveal_strlit("X-WR-CALNAME");
    reveal_strlit("X-WR-TIMEZONE");
    reveal_strlit("UID");
    reveal_strlit("DESCRIPTION");
    reveal_strlit("LOCATION");
    reveal_strlit("SEQUENCE");
    reveal_strlit("STATUS");
    reveal_strlit("SUMMARY");
    reveal_strlit("TRANSP");
    reveal_strlit("DTSTART");
    reveal_strlit("DTSTART;VALUE=DATE");
    reveal_strlit("DTEND;VALUE=DATE");
    reveal_strlit("DTSTAMP");
    reveal_strlit("CREATED");
    reveal_strlit("LAST-MODIFIED");
    reveal_strlit("END");
    assert("METHOD"@ != "PRODID"@) by { assert("METHOD"@[0] == 'M' && "PRODID"@[0] == 'P'); }
    lemma_line_split("METHOD"@ + seq![':'] + v, "METHOD"@, v);
}

proof fn lemma_step_calname(st: ParseState, v: Seq<char>)
    ensures
        spec_step(st, "X-WR-CALNAME"@ + seq![':'] + v) == Some(ParseState { x_wr_calname: v, ..st }),
{
    reveal(spec_step);
    reveal_strlit("PRODID");
    reveal_strlit("VERSION");
    reveal_strlit("CALSCALE");
    reveal_strlit("METHOD");
    reveal_strlit("X-WR-CALNAME");
    reveal_strlit("X-WR-TIMEZONE");
    reveal_strlit("UID");
    reveal_strlit("DESCRIPTION");
    reveal_strlit("LOCATION");
    reveal_strlit("SEQUENCE");
    reveal_strlit("STATUS");
    reveal_strlit("SUMMARY");
    reveal_strlit("TRANSP");
    reveal_strlit("DTSTART");
    reveal_strlit("DTSTART;VALUE=DATE");
    reveal_strlit("DTEND;VALUE=DATE");
    reveal_strlit("DTSTAMP");
    reveal_strlit("CREATED");
    reveal_strlit("LAST-MODIFIED");
    reveal_strlit("END");
    lemma_line_split("X-WR-CALNAME"@ + seq![':'] + v, "X-WR-CALNAME"@, v);
}

proof fn lemma_step_timezone(st: ParseState, v: Seq<char>)
    ensures
        spec_step(st, "X-WR-TIMEZONE"@ + seq![':'] + v) == Some(ParseState { x_wr_timezone: v, ..st }),
{
    reveal(spec_step);
    reveal_strlit("PRODID");
    reveal_strlit("VERSION");
    reveal_strlit("CALSCALE");
    reveal_strlit("METHOD");
    reveal_strlit("X-WR-CALNAME");
    reveal_strlit("X-WR-TIMEZONE");
    reveal_strlit("UID");
    reveal_strlit("DESCRIPTION");
    reveal_strlit("LOCATION");
    reveal_strlit("SEQUENCE");
    reveal_strlit("STATUS");
    reveal_strlit("SUMMARY");
    reveal_strlit("TRANSP");
    reveal_strlit("DTSTART");
    reveal_strlit("DTSTART;VALUE=DATE");
    reveal_strlit("DTEND;VALUE=DATE");
    reveal_strlit("DTSTAMP");
    reveal_strlit("CREATED");
    reveal_strlit("LAST-MODIFIED");
    reveal_strlit("END");
    lemma_line_split("X-WR-TIMEZONE"@ + seq![':'] + v, "X-WR-TIMEZONE"@, v);
}

/// The serialized header lines assign exactly the six header fields.
#[verifier::rlimit(100)]
proof fn lemma_run_header(c: CalendarView)
    ensures
        spec_run(ParseState::init(), header_lines(c)) == Some(header_state(c)),
{
    let st0 = ParseState::init();
    let g0 = "BEGIN"@ + seq![':'] + "VCALENDAR"@;
    let g1 = "PRODID"@ + seq![':'] + c.prodid;
    let g2 = "CALSCALE"@ + seq![':'] + c.calscale;
    let g3 = "VERSION"@ + seq![':'] + c.version;
    let g4 = "METHOD"@ + seq![':'] + c.method;
    let g5 = "X-WR-CALNAME"@ + seq![':'] + c.x_wr_calname;
    let g6 = "X-WR-TIMEZONE"@ + seq![':'] + c.x_wr_timezone;
    let st1 = ParseState { prodid: c.prodid, ..st0 };
    let st2 = ParseState { calscale: c.calscale, ..st1 };
    let st3 = ParseState { version: c.version, ..st2 };
    let st4 = ParseState { method: c.method, ..st3 };
    let st5 = ParseState { x_wr_calname: c.x_wr_calname, ..st4 };
    let st6 = ParseState { x_wr_timezone: c.x_wr_timezone, ..st5 };
    lemma_step_begin(st0, "VCALENDAR"@);
    lemma_step_prodid(st0, c.prodid);
    lemma_step_calscale(st1, c.calscale);
    lemma_step_version(st2, c.version);
    lemma_step_method(st3, c.method);
    lemma_step_calname(st4, c.x_wr_calname);
    lemma_step_timezone(st5, c.x_wr_timezone);
    let t0 = header_lines(c);
    let t1 = t0.drop_first();
    let t2 = t1.drop_first();
    let t3 = t2.drop_first();
    let t4 = t3.drop_first();
    let t5 = t4.drop_first();
    let t6 = t5.drop_first();
    let t7 = t6.drop_first();
    assert(t0[0] == g0);
    assert(t1[0] == g1);
    assert(t2[0] == g2);
    assert(t3[0] == g3);
    assert(t4[0] == g4);
    assert(t5[0] == g5);
    assert(t6[0] == g6);
    assert(t7.len() == 0);
    lemma_run_cons(st0, t0, st0);
    lemma_run_cons(st0, t1, st1);
    lemma_run_cons(st1, t2, st2);
    lemma_run_cons(st2, t3, st3);
    lemma_run_cons(st3, t4, st4);
    lemma_run_cons(st4, t5, st5);
    lemma_run_cons(st5, t6, st6);
    assert(spec_run(st6, t7) == Some(st6));
    assert(st6 =~= header_state(c));
}

proof fn lemma_step_dtstart(st: ParseState, v: Seq<char>)
    ensures
        spec_step(st, "DTSTART"@ + seq![':'] + v) == Some(
            ParseState { acc: EventsView { dtstart: date_or(v, st.acc.dtstart), ..st.acc }, ..st },
        ),
{
    reveal(spec_step);
    reveal_strlit("PRODID");
    reveal_strlit("VERSION");
    reveal_strlit("CALSCALE");
    reveal_strlit("METHOD");
    reveal_strlit("X-WR-CALNAME");
    reveal_strlit("X-WR-TIMEZONE");
    reveal_strlit("UID");
    reveal_strlit("DESCRIPTION");
    reveal_strlit("LOCATION");
    reveal_strlit("SEQUENCE");
    reveal_strlit("STATUS");
    reveal_strlit("SUMMARY");
    reveal_strlit("TRANSP");
    reveal_strlit("DTSTART");
    reveal_strlit("DTSTART;VALUE=DATE");
    reveal_strlit("DTEND;VALUE=DATE");
    reveal_strlit("DTSTAMP");
    reveal_strlit("CREATED");
    reveal_strlit("LAST-MODIFIED");
    reveal_strlit("END");
    assert("DTSTART"@ != "VERSION"@) by { assert("DTSTART"@[0] == 'D' && "VERSION"@[0] == 'V'); }
    assert("DTSTART"@ != "SUMMARY"@) by { assert("DTSTART"@[0] == 'D' && "SUMMARY"@[0] == 'S'); }
    lemma_line_split("DTSTART"@ + seq![':'] + v, "DTSTART"@, v);
}

proof fn lemma_step_dtstamp(st: ParseState, v: Seq<char>)
    ensures
        spec_step(st, "DTSTAMP"@ + seq![':'] + v) == Some(
            ParseState { acc: EventsView { dtstamp: date_or(v, st.acc.dtstamp), ..st.acc }, ..st },
        ),
{
    reveal(spec_step);
    reveal_strlit("PRODID");
    reveal_strlit("VERSION");
    reveal_strlit("CALSCALE");
    reveal_strlit("METHOD");
    reveal_strlit("X-WR-CALNAME");
    reveal_strlit("X-WR-TIMEZONE");
    reveal_strlit("UID");
    reveal_strlit("DESCRIPTION");
    reveal_strlit("LOCATION");
    reveal_strlit("SEQUENCE");
    reveal_strlit("STATUS");
    reveal_strlit("SUMMARY");
    reveal_strlit("TRANSP");
    reveal_strlit("DTSTART");
    reveal_strlit("DTSTART;VALUE=DATE");
    reveal_strlit("DTEND;VALUE=DATE");
    reveal_strlit("DTSTAMP");
    reveal_strlit("CREATED");
    reveal_strlit("LAST-MODIFIED");
    reveal_strlit("END");
    assert("DTSTAMP"@ != "VERSION"@) by { assert("DTSTAMP"@[0] == 'D' && "VERSION"@[0] == 'V'); }
    assert("DTSTAMP"@ != "SUMMARY"@) by { assert("DTSTAMP"@[0] == 'D' && "SUMMARY"@[0] == 'S'); }
    assert("DTSTAMP"@ != "DTSTART"@) by { assert("DTSTAMP"@[5] == 'M' && "DTSTART"@[5] == 'R'); }
    lemma_line_split("DTSTAMP"@ + seq![':'] + v, "DTSTAMP"@, v);
}

proof fn lemma_step_uid(st: ParseState, v: Seq<char>)
    ensures
        spec_step(st, "UID"@ + seq![':'] + v) == Some(
            ParseState { acc: EventsView { uid: v, ..st.acc }, ..st },
        ),
{
    reveal(spec_step);
    reveal_strlit("PRODID");
    reveal_strlit("VERSION");
    reveal_strlit("CALSCALE");
    reveal_strlit("METHOD");
    reveal_strlit("X-WR-CALNAME");
    reveal_strlit("X-WR-TIMEZONE");
    reveal_strlit("UID");
    reveal_strlit("DESCRIPTION");
    reveal_strlit("LOCATION");
    reveal_strlit("SEQUENCE");
    reveal_strlit("STATUS");
    reveal_strlit("SUMMARY");
    reveal_strlit("TRANSP");
    reveal_strlit("DTSTART");
    reveal_strlit("DTSTART;VALUE=DATE");
    reveal_strlit("DTEND;VALUE=DATE");
    reveal_strlit("DTSTAMP");
    reveal_strlit("CREATED");
    reveal_strlit("LAST-MODIFIED");
    reveal_strlit("END");
    lemma_line_split("UID"@ + seq![':'] + v, "UID"@, v);
}

proof fn lemma_step_created(st: ParseState, v: Seq<char>)
    ensures
        spec_step(st, "CREATED"@ + seq![':'] + v) == Some(
            ParseState { acc: EventsView { created: date_or(v, st.acc.created), ..st.acc }, ..st },
        ),
{
    reveal(spec_step);
    reveal_strlit("PRODID");
    reveal_strlit("VERSION");
    reveal_strlit("CALSCALE");
    reveal_strlit("METHOD");
    reveal_strlit("X-WR-CALNAME");
    reveal_strlit("X-WR-TIMEZONE");
    reveal_strlit("UID");
    reveal_strlit("DESCRIPTION");
    reveal_strlit("LOCATION");
    reveal_strlit("SEQUENCE");
    reveal_strlit("STATUS");
    reveal_strlit("SUMMARY");
    reveal_strlit("TRANSP");
    reveal_strlit("DTSTART");
    reveal_strlit("DTSTART;VALUE=DATE");
    reveal_strlit("DTEND;VALUE=DATE");
    reveal_strlit("DTSTAMP");
    reveal_strlit("CREATED");
    reveal_strlit("LAST-MODIFIED");
    reveal_strlit("END");
    assert("CREATED"@ != "VERSION"@) by { assert("CREATED"@[0] == 'C' && "VERSION"@[0] == 'V'); }
    assert("CREATED"@ != "SUMMARY"@) by { assert("CREATED"@[0] == 'C' && "SUMMARY"@[0] == 'S'); }
    assert("CREATED"@ != "DTSTART"@) by { assert("CREATED"@[0] == 'C' && "DTSTART"@[0] == 'D'); }
    assert("CREATED"@ != "DTSTAMP"@) by { assert("CREATED"@[0] == 'C' && "DTSTAMP"@[0] == 'D'); }
    lemma_line_split("CREATED"@ + seq![':'] + v, "CREATED"@, v);
}

proof fn lemma_step_description(st: ParseState, v: Seq<char>)
    ensures
        spec_step(st, "DESCRIPTION"@ + seq![':'] + v) == Some(
            ParseState { acc: EventsView { description: v, ..st.acc }, ..st },
        ),
{
    reveal(spec_step);
    reveal_strlit("PRODID");
    reveal_strlit("VERSION");
    reveal_strlit("CALSCALE");
    reveal_strlit("METHOD");
    reveal_strlit("X-WR-CALNAME");
    reveal_strlit("X-WR-TIMEZONE");
    reveal_strlit("UID");
    reveal_strlit("DESCRIPTION");
    reveal_strlit("LOCATION");
    reveal_strlit("SEQUENCE");
    reveal_strlit("STATUS");
    reveal_strlit("SUMMARY");
    reveal_strlit("TRANSP");
    reveal_strlit("DTSTART");
    reveal_strlit("DTSTART;VALUE=DATE");
    reveal_strlit("DTEND;VALUE=DATE");
    reveal_strlit("DTSTAMP");
    reveal_strlit("CREATED");
    reveal_strlit("LAST-MODIFIED");
    reveal_strlit("END");
    lemma_line_split("DESCRIPTION"@ + seq![':'] + v, "DESCRIPTION"@, v);
}

proof fn lemma_step_last_modified(st: ParseState, v: Seq<char>)
    ensures
        spec_step(st, "LAST-MODIFIED"@ + seq![':'] + v) == Some(
            ParseState {
                acc: EventsView { last_modified: date_or(v, st.acc.last_modified), ..st.acc },
                ..st
            },
        ),
{
    reveal(spec_step);
    reveal_strlit("PRODID");
    reveal_strlit("VERSION");
    reveal_strlit("CALSCALE");
    reveal_strlit("METHOD");
    reveal_strlit("X-WR-CALNAME");
    reveal_strlit("X-WR-TIMEZONE");
    reveal_strlit("UID");
    reveal_strlit("DESCRIPTION");
    reveal_strlit("LOCATION");
    reveal_strlit("SEQUENCE");
    reveal_strlit("STATUS");
    reveal_strlit("SUMMARY");
    reveal_strlit("TRANSP");
    reveal_strlit("DTSTART");
    reveal_strlit("DTSTART;VALUE=DATE");
    reveal_strlit("DTEND;VALUE=DATE");
    reveal_strlit("DTSTAMP");
    reveal_strlit("CREATED");
    reveal_strlit("LAST-MODIFIED");
    reveal_strlit("END");
    assert("LAST-MODIFIED"@ != "X-WR-TIMEZONE"@) by { assert("LAST-MODIFIED"@[0] == 'L' && "X-WR-TIMEZONE"@[0] == 'X'); }
    lemma_line_split("LAST-MODIFIED"@ + seq![':'] + v, "LAST-MODIFIED"@, v);
}

proof fn lemma_step_location(st: ParseState, v: Seq<char>)
    ensures
        spec_step(st, "LOCATION"@ + seq![':'] + v) == Some(
            ParseState { acc: EventsView { location: v, ..st.acc }, ..st },
        ),
{
    reveal(spec_step);
    reveal_strlit("PRODID");
    reveal_strlit("VERSION");
    reveal_strlit("CALSCALE");
    reveal_strlit("METHOD");
    reveal_strlit("X-WR-CALNAME");
    reveal_strlit("X-WR-TIMEZONE");
    reveal_strlit("UID");
    reveal_strlit("DESCRIPTION");
    reveal_strlit("LOCATION");
    reveal_strlit("SEQUENCE");
    reveal_strlit("STATUS");
    reveal_strlit("SUMMARY");
    reveal_strlit("TRANSP");
    reveal_strlit("DTSTART");
    reveal_strlit("DTSTART;VALUE=DATE");
    reveal_strlit("DTEND;VALUE=DATE");
    reveal_strlit("DTSTAMP");
    reveal_strlit("CREATED");
    reveal_strlit("LAST-MODIFIED");
    reveal_strlit("END");
    assert("LOCATION"@ != "CALSCALE"@) by { assert("LOCATION"@[0] == 'L' && "CALSCALE"@[0] == 'C'); }
    lemma_line_split("LOCATION"@ + seq![':'] + v, "LOCATION"@, v);
}

proof fn lemma_step_sequence(st: ParseState, v: Seq<char>)
    requires
        spec_parse_u32(v) is Some,
    ensures
        spec_step(st, "SEQUENCE"@ + seq![':'] + v) == Some(
            ParseState {
                acc: EventsView { sequence: spec_parse_u32(v).unwrap(), ..st.acc },
                ..st
            },
        ),
{
    reveal(spec_step);
    reveal_strlit("PRODID");
    reveal_strlit("VERSION");
    reveal_strlit("CALSCALE");
    reveal_strlit("METHOD");
    reveal_strlit("X-WR-CALNAME");
    reveal_strlit("X-WR-TIMEZONE");
    reveal_strlit("UID");
    reveal_strlit("DESCRIPTION");
    reveal_strlit("LOCATION");
    reveal_strlit("SEQUENCE");
    reveal_strlit("STATUS");
    reveal_strlit("SUMMARY");
    reveal_strlit("TRANSP");
    reveal_strlit("DTSTART");
    reveal_strlit("DTSTART;VALUE=DATE");
    reveal_strlit("DTEND;VALUE=DATE");
    reveal_strlit("DTSTAMP");
    reveal_strlit("CREATED");
    reveal_strlit("LAST-MODIFIED");
    reveal_strlit("END");
    assert("SEQUENCE"@ != "CALSCALE"@) by { assert("SEQUENCE"@[0] == 'S' && "CALSCALE"@[0] == 'C'); }
    assert("SEQUENCE"@ != "LOCATION"@) by { assert("SEQUENCE"@[0] == 'S' && "LOCATION"@[0] == 'L'); }
    lemma_line_split("SEQUENCE"@ + seq![':'] + v, "SEQUENCE"@, v);
}

proof fn lemma_step_status(st: ParseState, v: Seq<char>)
    ensures
        spec_step(st, "STATUS"@ + seq![':'] + v) == Some(
            ParseState { acc: EventsView { status: v, ..st.acc }, ..st },
        ),
{
    reveal(spec_step);
    reveal_strlit("PRODID");
    reveal_strlit("VERSION");
    reveal_strlit("CALSCALE");
    reveal_strlit("METHOD");
    reveal_strlit("X-WR-CALNAME");
    reveal_strlit("X-WR-TIMEZONE");
    reveal_strlit("UID");
    reveal_strlit("DESCRIPTION");
    reveal_strlit("LOCATION");
    reveal_strlit("SEQUENCE");
    reveal_strlit("STATUS");
    reveal_strlit("SUMMARY");
    reveal_strlit("TRANSP");
    reveal_strlit("DTSTART");
    reveal_strlit("DTSTART;VALUE=DATE");
    reveal_strlit("DTEND;VALUE=DATE");
    reveal_strlit("DTSTAMP");
    reveal_strlit("CREATED");
    reveal_strlit("LAST-MODIFIED");
    reveal_strlit("END");
    assert("STATUS"@ != "PRODID"@) by { assert("STATUS"@[0] == 'S' && "PRODID"@[0] == 'P'); }
    assert("STATUS"@ != "METHOD"@) by { assert("STATUS"@[0] == 'S' && "METHOD"@[0] == 'M'); }
    lemma_line_split("STATUS"@ + seq![':'] + v, "STATUS"@, v);
}

proof fn lemma_step_summary(st: ParseState, v: Seq<char>)
    ensures
        spec_step(st, "SUMMARY"@ + seq![':'] + v) == Some(
            ParseState { acc: EventsView { summary: v, ..st.acc }, ..st },
        ),
{
    reveal(spec_step);
    reveal_strlit("PRODID");
    reveal_strlit("VERSION");
    reveal_strlit("CALSCALE");
    reveal_strlit("METHOD");
    reveal_strlit("X-WR-CALNAME");
    reveal_strlit("X-WR-TIMEZONE");
    reveal_strlit("UID");
    reveal_strlit("DESCRIPTION");
    reveal_strlit("LOCATION");
    reveal_strlit("SEQUENCE");
    reveal_strlit("STATUS");
    reveal_strlit("SUMMARY");
    reveal_strlit("TRANSP");
    reveal_strlit("DTSTART");
    reveal_strlit("DTSTART;VALUE=DATE");
    reveal_strlit("DTEND;VALUE=DATE");
    reveal_strlit("DTSTAMP");
    reveal_strlit("CREATED");
    reveal_strlit("LAST-MODIFIED");
    reveal_strlit("END");
    assert("SUMMARY"@ != "VERSION"@) by { assert("SUMMARY"@[0] == 'S' && "VERSION"@[0] == 'V'); }
    lemma_line_split("SUMMARY"@ + seq![':'] + v, "SUMMARY"@, v);
}

proof fn lemma_step_transp(st: ParseState, v: Seq<char>)
    ensures
        spec_step(st, "TRANSP"@ + seq![':'] + v) == Some(
            ParseState { acc: EventsView { transp: v, ..st.acc }, ..st },
        ),
{
    reveal(spec_step);
    reveal_strlit("PRODID");
    reveal_strlit("VERSION");
    reveal_strlit("CALSCALE");
    reveal_strlit("METHOD");
    reveal_strlit("X-WR-CALNAME");
    reveal_strlit("X-WR-TIMEZONE");
    reveal_strlit("UID");
    reveal_strlit("DESCRIPTION");
    reveal_strlit("LOCATION");
    reveal_strlit("SEQUENCE");
    reveal_strlit("STATUS");
    reveal_strlit("SUMMARY");
    reveal_strlit("TRANSP");
    reveal_strlit("DTSTART");
    reveal_strlit("DTSTART;VALUE=DATE");
    reveal_strlit("DTEND;VALUE=DATE");
    reveal_strlit("DTSTAMP");
    reveal_strlit("CREATED");
    reveal_strlit("LAST-MODIFIED");
    reveal_strlit("END");
    assert("TRANSP"@ != "PRODID"@) by { assert("TRANSP"@[0] == 'T' && "PRODID"@[0] == 'P'); }
    assert("TRANSP"@ != "METHOD"@) by { assert("TRANSP"@[0] == 'T' && "METHOD"@[0] == 'M'); }
    assert("TRANSP"@ != "STATUS"@) by { assert("TRANSP"@[0] == 'T' && "STATUS"@[0] == 'S'); }
    lemma_line_split("TRANSP"@ + seq![':'] + v, "TRANSP"@, v);
}

proof fn lemma_step_end_vevent(st: ParseState)
    ensures
        spec_step(st, "END"@ + seq![':'] + "VEVENT"@) == Some(
            ParseState { events: st.events.push(st.acc), acc: EventsView::spec_empty(), ..st },
        ),
{
    reveal(spec_step);
    reveal_strlit("PRODID");
    reveal_strlit("VERSION");
    reveal_strlit("CALSCALE");
    reveal_strlit("METHOD");
    reveal_strlit("X-WR-CALNAME");
    reveal_strlit("X-WR-TIMEZONE");
    reveal_strlit("UID");
    reveal_strlit("DESCRIPTION");
    reveal_strlit("LOCATION");
    reveal_strlit("SEQUENCE");
    reveal_strlit("STATUS");
    reveal_strlit("SUMMARY");
    reveal_strlit("TRANSP");
    reveal_strlit("DTSTART");
    reveal_strlit("DTSTART;VALUE=DATE");
    reveal_strlit("DTEND;VALUE=DATE");
    reveal_strlit("DTSTAMP");
    reveal_strlit("CREATED");
    reveal_strlit("LAST-MODIFIED");
    reveal_strlit("END");
    assert("END"@ != "UID"@) by { assert("END"@[0] == 'E' && "UID"@[0] == 'U'); }
    lemma_line_split("END"@ + seq![':'] + "VEVENT"@, "END"@, "VEVENT"@);
}

proof fn lemma_step_begin(st: ParseState, v: Seq<char>)
    ensures
        spec_step(st, "BEGIN"@ + seq![':'] + v) == Some(st),
{
    reveal(spec_step);
    reveal_strlit("PRODID");
    reveal_strlit("VERSION");
    reveal_strlit("CALSCALE");
    reveal_strlit("METHOD");
    reveal_strlit("X-WR-CALNAME");
    reveal_strlit("X-WR-TIMEZONE");
    reveal_strlit("UID");
    reveal_strlit("DESCRIPTION");
    reveal_strlit("LOCATION");
    reveal_strlit("SEQUENCE");
    reveal_strlit("STATUS");
    reveal_strlit("SUMMARY");
    reveal_strlit("TRANSP");
    reveal_strlit("DTSTART");
    reveal_strlit("DTSTART;VALUE=DATE");
    reveal_strlit("DTEND;VALUE=DATE");
    reveal_strlit("DTSTAMP");
    reveal_strlit("CREATED");
    reveal_strlit("LAST-MODIFIED");
    reveal_strlit("END");
    reveal_strlit("BEGIN");
    lemma_line_split("BEGIN"@ + seq![':'] + v, "BEGIN"@, v);
    assert(!recognized_key("BEGIN"@));
    lemma_unrecognized_key_ignored(st, "BEGIN"@ + seq![':'] + v);
}

proof fn lemma_step_dtend_ignored(st: ParseState, v: Seq<char>)
    ensures
        spec_step(st, "DTEND"@ + seq![':'] + v) == Some(st),
{
    reveal(spec_step);
    reveal_strlit("PRODID");
    reveal_strlit("VERSION");
    reveal_strlit("CALSCALE");
    reveal_strlit("METHOD");
    reveal_strlit("X-WR-CALNAME");
    reveal_strlit("X-WR-TIMEZONE");
    reveal_strlit("UID");
    reveal_strlit("DESCRIPTION");
    reveal_strlit("LOCATION");
    reveal_strlit("SEQUENCE");
    reveal_strlit("STATUS");
    reveal_strlit("SUMMARY");
    reveal_strlit("TRANSP");
    reveal_strlit("DTSTART");
    reveal_strlit("DTSTART;VALUE=DATE");
    reveal_strlit("DTEND;VALUE=DATE");
    reveal_strlit("DTSTAMP");
    reveal_strlit("CREATED");
    reveal_strlit("LAST-MODIFIED");
    reveal_strlit("END");
    reveal_strlit("DTEND");
    lemma_line_split("DTEND"@ + seq![':'] + v, "DTEND"@, v);
    assert(!recognized_key("DTEND"@));
    lemma_unrecognized_key_ignored(st, "DTEND"@ + seq![':'] + v);
}

/// The first half of a block: the opening marker through the
/// description line.
spec fn block_lines_head(e: EventsView) -> Seq<Seq<char>> {
    seq![
        "BEGIN"@ + seq![':'] + "VEVENT"@,
        "DTSTART"@ + seq![':'] + e.dtstart.canonical(),
        "DTEND"@ + seq![':'] + e.dtend.canonical(),
        "DTSTAMP"@ + seq![':'] + e.dtstamp.canonical(),
        "UID"@ + seq![':'] + e.uid,
        "CREATED"@ + seq![':'] + e.created.canonical(),
        "DESCRIPTION"@ + seq![':'] + e.description,
    ]
}

/// The second half of a block: the last-modified line through the
/// closing marker.
spec fn block_lines_tail(e: EventsView) -> Seq<Seq<char>> {
    seq![
        "LAST-MODIFIED"@ + seq![':'] + e.last_modified.canonical(),
        "LOCATION"@ + seq![':'] + e.location,
        "SEQUENCE"@ + seq![':'] + spec_u32_digits(e.sequence as int),
        "STATUS"@ + seq![':'] + e.status,
        "SUMMARY"@ + seq![':'] + e.summary,
        "TRANSP"@ + seq![':'] + e.transp,
        "END"@ + seq![':'] + "VEVENT"@,
    ]
}

#[verifier::rlimit(100)]
proof fn lemma_run_event_block_head(st: ParseState, e: EventsView)
    requires
        event_round_trip_ok(e),
    ensures
        spec_run(st, block_lines_head(e)) == Some(
            ParseState {
                acc: EventsView {
                    dtstart: e.dtstart,
                    dtstamp: e.dtstamp,
                    uid: e.uid,
                    created: e.created,
                    description: e.description,
                    ..st.acc
                },
                ..st
            },
        ),
{
    let l0 = "BEGIN"@ + seq![':'] + "VEVENT"@;
    let l1 = "DTSTART"@ + seq![':'] + e.dtstart.canonical();
    let l2 = "DTEND"@ + seq![':'] + e.dtend.canonical();
    let l3 = "DTSTAMP"@ + seq![':'] + e.dtstamp.canonical();
    let l4 = "UID"@ + seq![':'] + e.uid;
    let l5 = "CREATED"@ + seq![':'] + e.created.canonical();
    let l6 = "DESCRIPTION"@ + seq![':'] + e.description;
    lemma_convert_canonical(e.dtstart);
    lemma_convert_canonical(e.dtstamp);
    lemma_convert_canonical(e.created);
    lemma_step_begin(st, "VEVENT"@);
    let st1 = ParseState { acc: EventsView { dtstart: e.dtstart, ..st.acc }, ..st };
    lemma_step_dtstart(st, e.dtstart.canonical());
    lemma_step_dtend_ignored(st1, e.dtend.canonical());
    let st3 = ParseState { acc: EventsView { dtstamp: e.dtstamp, ..st1.acc }, ..st1 };
    lemma_step_dtstamp(st1, e.dtstamp.canonical());
    let st4 = ParseState { acc: EventsView { uid: e.uid, ..st3.acc }, ..st3 };
    lemma_step_uid(st3, e.uid);
    let st5 = ParseState { acc: EventsView { created: e.created, ..st4.acc }, ..st4 };
    lemma_step_created(st4, e.created.canonical());
    let st6 = ParseState { acc: EventsView { description: e.description, ..st5.acc }, ..st5 };
    lemma_step_description(st5, e.description);
    let t0 = block_lines_head(e);
    let t1 = t0.drop_first();
    let t2 = t1.drop_first();
    let t3 = t2.drop_first();
    let t4 = t3.drop_first();
    let t5 = t4.drop_first();
    let t6 = t5.drop_first();
    let t7 = t6.drop_first();
    assert(t0[0] == l0);
    assert(t1[0] == l1);
    assert(t2[0] == l2);
    assert(t3[0] == l3);
    assert(t4[0] == l4);
    assert(t5[0] == l5);
    assert(t6[0] == l6);
    assert(t7.len() == 0);
    lemma_run_cons(st, t0, st);
    lemma_run_cons(st, t1, st1);
    lemma_run_cons(st1, t2, st1);
    lemma_run_cons(st1, t3, st3);
    lemma_run_cons(st3, t4, st4);
    lemma_run_cons(st4, t5, st5);
    lemma_run_cons(st5, t6, st6);
    assert(spec_run(st6, t7) == Some(st6));
    assert(st6 =~= (ParseState {
        acc: EventsView {
            dtstart: e.dtstart,
            dtstamp: e.dtstamp,
            uid: e.uid,
            created: e.created,
            description: e.description,
            ..st.acc
        },
        ..st
    }));
}

#[verifier::rlimit(100)]
proof fn lemma_run_event_block_tail(st: ParseState, e: EventsView)
    requires
        event_round_trip_ok(e),
    ensures
        spec_run(st, block_lines_tail(e)) == Some(
            ParseState {
                events: st.events.push(
                    EventsView {
                        last_modified: e.last_modified,
                        location: e.location,
                        sequence: e.sequence,
                        status: e.status,
                        summary: e.summary,
                        transp: e.transp,
                        ..st.acc
                    },
                ),
                acc: EventsView::spec_empty(),
                ..st
            },
        ),
{
    let l7 = "LAST-MODIFIED"@ + seq![':'] + e.last_modified.canonical();
    let l8 = "LOCATION"@ + seq![':'] + e.location;
    let l9 = "SEQUENCE"@ + seq![':'] + spec_u32_digits(e.sequence as int);
    let l10 = "STATUS"@ + seq![':'] + e.status;
    let l11 = "SUMMARY"@ + seq![':'] + e.summary;
    let l12 = "TRANSP"@ + seq![':'] + e.transp;
    let l13 = "END"@ + seq![':'] + "VEVENT"@;
    lemma_convert_canonical(e.last_modified);
    lemma_parse_u32_of_digits(e.sequence);
    let st7 = ParseState {
        acc: EventsView { last_modified: e.last_modified, ..st.acc },
        ..st
    };
    lemma_step_last_modified(st, e.last_modified.canonical());
    let st8 = ParseState { acc: EventsView { location: e.location, ..st7.acc }, ..st7 };
    lemma_step_location(st7, e.location);
    let st9 = ParseState { acc: EventsView { sequence: e.sequence, ..st8.acc }, ..st8 };
    lemma_step_sequence(st8, spec_u32_digits(e.sequence as int));
    let st10 = ParseState { acc: EventsView { status: e.status, ..st9.acc }, ..st9 };
    lemma_step_status(st9, e.status);
    let st11 = ParseState { acc: EventsView { summary: e.summary, ..st10.acc }, ..st10 };
    lemma_step_summary(st10, e.summary);
    let st12 = ParseState { acc: EventsView { transp: e.transp, ..st11.acc }, ..st11 };
    lemma_step_transp(st11, e.transp);
    let st13 = ParseState {
        events: st12.events.push(st12.acc),
        acc: EventsView::spec_empty(),
        ..st12
    };
    lemma_step_end_vevent(st12);
    let t0 = block_lines_tail(e);
    let t1 = t0.drop_first();
    let t2 = t1.drop_first();
    let t3 = t2.drop_first();
    let t4 = t3.drop_first();
    let t5 = t4.drop_first();
    let t6 = t5.drop_first();
    let t7 = t6.drop_first();
    assert(t0[0] == l7);
    assert(t1[0] == l8);
    assert(t2[0] == l9);
    assert(t3[0] == l10);
    assert(t4[0] == l11);
    assert(t5[0] == l12);
    assert(t6[0] == l13);
    assert(t7.len() == 0);
    lemma_run_cons(st, t0, st7);
    lemma_run_cons(st7, t1, st8);
    lemma_run_cons(st8, t2, st9);
    lemma_run_cons(st9, t3, st10);
    lemma_run_cons(st10, t4, st11);
    lemma_run_cons(st11, t5, st12);
    lemma_run_cons(st12, t6, st13);
    assert(spec_run(st13, t7) == Some(st13));
    assert(st13 =~= (ParseState {
        events: st.events.push(
            EventsView {
                last_modified: e.last_modified,
                location: e.location,
                sequence: e.sequence,
                status: e.status,
                summary: e.summary,
                transp: e.transp,
                ..st.acc
            },
        ),
        acc: EventsView::spec_empty(),
        ..st
    }));
}

/// A serialized event block, fed to the dispatcher with a fresh
/// accumulator, appends exactly that event and resets the accumulator.
#[verifier::rlimit(100)]
proof fn lemma_run_event_block(st: ParseState, e: EventsView)
    requires
        st.acc == EventsView::spec_empty(),
        event_round_trip_ok(e),
    ensures
        spec_run(st, block_lines(e)) == Some(
            ParseState { events: st.events.push(e), acc: EventsView::spec_empty(), ..st },
        ),
{
    assert(block_lines(e) =~= block_lines_head(e) + block_lines_tail(e));
    lemma_run_app(st, block_lines_head(e), block_lines_tail(e));
    lemma_run_event_block_head(st, e);
    let mid = ParseState {
        acc: EventsView {
            dtstart: e.dtstart,
            dtstamp: e.dtstamp,
            uid: e.uid,
            created: e.created,
            description: e.description,
            ..st.acc
        },
        ..st
    };
    lemma_run_event_block_tail(mid, e);
    let built = EventsView {
        last_modified: e.last_modified,
        location: e.location,
        sequence: e.sequence,
        status: e.status,
        summary: e.summary,
        transp: e.transp,
        ..mid.acc
    };
    assert(built =~= e);
    assert((ParseState {
        events: mid.events.push(built),
        acc: EventsView::spec_empty(),
        ..mid
    }) =~= (ParseState { events: st.events.push(e), acc: EventsView::spec_empty(), ..st }));
}

/// Serialized blocks, fed in order, append their events in order.
#[verifier::rlimit(100)]
proof fn lemma_run_blocks(st: ParseState, events: Seq<EventsView>)
    requires
        st.acc == EventsView::spec_empty(),
        forall|i: int| 0 <= i < events.len() ==> event_round_trip_ok(#[trigger] events[i]),
    ensures
        spec_run(st, blocks_lines(events)) == Some(
            ParseState { events: st.events + events, acc: EventsView::spec_empty(), ..st },
        ),
    decreases events.len(),
{
    if events.len() == 0 {
        assert(blocks_lines(events) =~= Seq::<Seq<char>>::empty());
        assert(spec_run(st, blocks_lines(events)) == Some(st));
        assert(st.events + events =~= st.events);
        assert((ParseState { events: st.events + events, acc: EventsView::spec_empty(), ..st })
            =~= st);
    } else {
        let e0 = events[0];
        lemma_run_app(st, block_lines(e0), blocks_lines(events.drop_first()));
        lemma_run_event_block(st, e0);
        let m = ParseState { events: st.events.push(e0), acc: EventsView::spec_empty(), ..st };
        assert forall|i: int|
            0 <= i < events.drop_first().len() implies event_round_trip_ok(
            #[trigger] events.drop_first()[i],
        ) by {
            assert(events.drop_first()[i] == events[i + 1]);
        }
        lemma_run_blocks(m, events.drop_first());
        assert(m.events + events.drop_first() =~= st.events + events);
        assert((ParseState {
            events: m.events + events.drop_first(),
            acc: EventsView::spec_empty(),
            ..m
        }) =~= (ParseState { events: st.events + events, acc: EventsView::spec_empty(), ..st }));
    }
}

/// The closing document marker leaves the state unchanged.
#[verifier::rlimit(50)]
proof fn lemma_end_document_line_ignored(st: ParseState)
    ensures
        spec_step(st, "END:VCALENDAR"@) == Some(st),
{
    reveal(spec_step);
    reveal_strlit("PRODID");
    reveal_strlit("VERSION");
    reveal_strlit("CALSCALE");
    reveal_strlit("METHOD");
    reveal_strlit("X-WR-CALNAME");
    reveal_strlit("X-WR-TIMEZONE");
    reveal_strlit("UID");
    reveal_strlit("DESCRIPTION");
    reveal_strlit("LOCATION");
    reveal_strlit("SEQUENCE");
    reveal_strlit("STATUS");
    reveal_strlit("SUMMARY");
    reveal_strlit("TRANSP");
    reveal_strlit("DTSTART");
    reveal_strlit("DTSTART;VALUE=DATE");
    reveal_strlit("DTEND;VALUE=DATE");
    reveal_strlit("DTSTAMP");
    reveal_strlit("CREATED");
    reveal_strlit("LAST-MODIFIED");
    reveal_strlit("END");
    reveal_strlit("VCALENDAR");
    reveal_strlit("VEVENT");
    reveal_strlit("END:VCALENDAR");
    assert("END:VCALENDAR"@ =~= "END"@ + seq![':'] + "VCALENDAR"@);
    assert("END"@ != "UID"@) by { assert("END"@[0] == 'E' && "UID"@[0] == 'U'); }
    lemma_line_split("END"@ + seq![':'] + "VCALENDAR"@, "END"@, "VCALENDAR"@);
    assert("VCALENDAR"@ != "VEVENT"@);
}

/// Law: serializing a calendar fit for the wire format, then parsing
/// the text back, yields exactly the same calendar: every header
/// field, the number of events, and every event field agree.
pub proof fn lemma_serialize_parse_round_trip(c: CalendarView)
    requires
        calendar_round_trip_ok(c),
    ensures
        spec_parse(spec_serialize(c)) == Some(c),
{
    assert(calendar_fields_ok(c)) by {
        assert(DateTimeUtc::spec_sentinel().wf());
        assert forall|i: int| 0 <= i < c.events.len() implies event_fields_ok(
            #[trigger] c.events[i],
        ) by {
            assert(event_round_trip_ok(c.events[i]));
        }
    }
    lemma_serialize_lines(c);
    let hl = header_lines(c);
    let bl = blocks_lines(c.events);
    let el = seq!["END:VCALENDAR"@];
    lemma_run_app(ParseState::init(), hl + bl, el);
    lemma_run_app(ParseState::init(), hl, bl);
    lemma_run_header(c);
    let hs = header_state(c);
    assert forall|i: int|
        0 <= i < c.events.len() implies event_round_trip_ok(#[trigger] c.events[i]) by {}
    lemma_run_blocks(hs, c.events);
    let fs = ParseState { events: hs.events + c.events, acc: EventsView::spec_empty(), ..hs };
    lemma_end_document_line_ignored(fs);
    assert(el[0] == "END:VCALENDAR"@);
    assert(el.drop_first() =~= Seq::<Seq<char>>::empty());
    assert(spec_run(fs, el.drop_first()) == Some(fs));
    assert(spec_run(fs, el) == Some(fs));
    assert(spec_run(ParseState::init(), doc_lines(c)) == Some(fs));
    assert(fs.events =~= c.events);
    assert(fs.to_calendar() =~= c);
}

#[verifier::rlimit(100)]
proof fn lemma_blocks_lines_have_colon(events: Seq<EventsView>)
    ensures
        forall|k: int|
            0 <= k < blocks_lines(events).len() ==> has_colon(#[trigger] blocks_lines(events)[k]),
    decreases events.len(),
{
    if events.len() > 0 {
        lemma_blocks_lines_have_colon(events.drop_first());
        let e = events[0];
        lemma_keyed_line_has_colon("BEGIN"@, "VEVENT"@);
        lemma_keyed_line_has_colon("DTSTART"@, e.dtstart.canonical());
        lemma_keyed_line_has_colon("DTEND"@, e.dtend.canonical());
        lemma_keyed_line_has_colon("DTSTAMP"@, e.dtstamp.canonical());
        lemma_keyed_line_has_colon("UID"@, e.uid);
        lemma_keyed_line_has_colon("CREATED"@, e.created.canonical());
        lemma_keyed_line_has_colon("DESCRIPTION"@, e.description);
        lemma_keyed_line_has_colon("LAST-MODIFIED"@, e.last_modified.canonical());
        lemma_keyed_line_has_colon("LOCATION"@, e.location);
        lemma_keyed_line_has_colon("SEQUENCE"@, spec_u32_digits(e.sequence as int));
        lemma_keyed_line_has_colon("STATUS"@, e.status);
        lemma_keyed_line_has_colon("SUMMARY"@, e.summary);
        lemma_keyed_line_has_colon("TRANSP"@, e.transp);
        lemma_keyed_line_has_colon("END"@, "VEVENT"@);
        assert forall|k: int|
            0 <= k < blocks_lines(events).len() implies has_colon(
            #[trigger] blocks_lines(events)[k],
        ) by {
            if k < 14 {
                assert(blocks_lines(events)[k] == block_lines(e)[k]);
            } else {
                assert(blocks_lines(events)[k] == blocks_lines(events.drop_first())[k - 14]);
            }
        }
    }
}

/// Law: a line without a colon never appears in the serializer's
/// output: every output line carries a `KEY:` prefix or a document
/// marker with its colon.
#[verifier::rlimit(100)]
pub proof fn lemma_output_lines_have_colon(c: CalendarView)
    requires
        calendar_fields_ok(c),
    ensures
        forall|k: int|
            0 <= k < spec_lines(spec_serialize(c)).len() ==> has_colon(
                #[trigger] spec_lines(spec_serialize(c))[k],
            ),
{
    lemma_serialize_lines(c);
    lemma_blocks_lines_have_colon(c.events);
    lemma_keyed_line_has_colon("BEGIN"@, "VCALENDAR"@);
    lemma_keyed_line_has_colon("PRODID"@, c.prodid);
    lemma_keyed_line_has_colon("CALSCALE"@, c.calscale);
    lemma_keyed_line_has_colon("VERSION"@, c.version);
    lemma_keyed_line_has_colon("METHOD"@, c.method);
    lemma_keyed_line_has_colon("X-WR-CALNAME"@, c.x_wr_calname);
    lemma_keyed_line_has_colon("X-WR-TIMEZONE"@, c.x_wr_timezone);
    assert(has_colon("END:VCALENDAR"@)) by {
        reveal_strlit("END:VCALENDAR");
        assert("END:VCALENDAR"@[3] == ':');
    }
    let hl = header_lines(c);
    let bl = blocks_lines(c.events);
    assert forall|k: int|
        0 <= k < spec_lines(spec_serialize(c)).len() implies has_colon(
        #[trigger] spec_lines(spec_serialize(c))[k],
    ) by {
        if k < 7 {
            assert(doc_lines(c)[k] == hl[k]);
        } else if k < 7 + bl.len() {
            assert(doc_lines(c)[k] == bl[k - 7]);
        } else {
            assert(doc_lines(c)[k] == "END:VCALENDAR"@);
        }
    }
}

/// The dispatcher's state as every reachable parse leaves it:
/// newline-free texts and well-formed timestamps throughout.
pub open spec fn state_ok(st: ParseState) -> bool {
    text_ok(st.prodid) && text_ok(st.version) && text_ok(st.calscale) && text_ok(st.method)
        && text_ok(st.x_wr_calname) && text_ok(st.x_wr_timezone) && event_fields_ok(st.acc) && (
    forall|i: int| 0 <= i < st.events.len() ==> event_fields_ok(#[trigger] st.events[i]))
}

#[verifier::rlimit(100)]
proof fn lemma_step_preserves_ok(st: ParseState, line: Seq<char>)
    requires
        state_ok(st),
        text_ok(line),
    ensures
        spec_step(st, line) matches Some(st2) ==> state_ok(st2),
{
    reveal(spec_step);
    let ci = find_first(line, ':');
    if ci >= 0 {
        lemma_find_first_props(line, ':');
        let value = line.skip(ci + 1);
        assert forall|j: int| 0 <= j < value.len() implies value[j] != '\n' by {
            assert(value[j] == line[j + ci + 1]);
        }
        lemma_convert_wf(value);
        lemma_convert_wf(value + "T000000Z"@);
        lemma_convert_wf(value + "T002611Z"@);
        assert(DateTimeUtc::spec_sentinel().wf());
        reveal_strlit("NULL");
        assert(text_ok("NULL"@));
        assert(event_fields_ok(EventsView::spec_empty()));
        match spec_step(st, line) {
            Some(st2) => {
                assert forall|i: int|
                    0 <= i < st2.events.len() implies event_fields_ok(
                    #[trigger] st2.events[i],
                ) by {
                    if i < st.events.len() {
                        assert(st2.events[i] == st.events[i]);
                    }
                }
            },
            None => (),
        }
    }
}

proof fn lemma_run_preserves_ok(st: ParseState, lines: Seq<Seq<char>>)
    requires
        state_ok(st),
        forall|k: int| 0 <= k < lines.len() ==> text_ok(#[trigger] lines[k]),
    ensures
        spec_run(st, lines) matches Some(st2) ==> state_ok(st2),
    decreases lines.len(),
{
    if lines.len() > 0 {
        match spec_step(st, lines[0]) {
            Some(m) => {
                lemma_step_preserves_ok(st, lines[0]);
                assert forall|k: int|
                    0 <= k < lines.drop_first().len() implies text_ok(
                    #[trigger] lines.drop_first()[k],
                ) by {
                    assert(lines.drop_first()[k] == lines[k + 1]);
                }
                lemma_run_preserves_ok(m, lines.drop_first());
            },
            None => (),
        }
    }
}

/// Law: every calendar a parse yields has newline-free header and
/// event texts and well-formed event timestamps.
pub proof fn lemma_parse_output_ok(text: Seq<char>)
    ensures
        spec_parse(text) matches Some(c) ==> calendar_fields_ok(c),
{
    lemma_lines_no_nl(text);
    let ls = spec_lines(text);
    assert(state_ok(ParseState::init())) by {
        reveal_strlit("NULL");
        assert(DateTimeUtc::spec_sentinel().wf());
        assert(text_ok("NULL"@));
    }
    assert forall|k: int| 0 <= k < ls.len() implies text_ok(#[trigger] ls[k]) by {}
    lemma_run_preserves_ok(ParseState::init(), ls);
}

} // verus!

//! Server-sent events: a line parser that turns the `event:`, `data:` and
//! `retry:` fields of a provider stream into records, and the record built
//! from one dispatched event.
use vstd::prelude::*;
use crate::json::{Json, get, json_get, json_parse_outcome, json_text, json_to_text, parse_json};
use crate::text::{
    chars_of, find_char_spec, find_char_vec, lemma_find_char, opt_seq, seq_eq, str_eq,
    string_from_chars, trim, trim_seq,
};
use crate::url::{extend_chars, subvec};

verus! {

/// A stream payload that is not valid JSON: the parser's message and the raw data.
#[derive(Debug)]
pub struct ProviderStreamPayloadError {
    pub message: String,
    pub raw: String,
}

/// One record of a provider stream.
#[derive(Debug)]
pub struct ProviderStreamRecord {
    /// The JSON event name when the payload names one, else the SSE event name.
    pub event: Option<String>,
    pub sse_event: Option<String>,
    pub json_event: Option<String>,
    pub data: String,
    pub retry: Option<u64>,
    pub payload: Option<Json>,
    pub payload_error: Option<ProviderStreamPayloadError>,
    /// The `[DONE]` marker that ends OpenAI-style streams.
    pub done: bool,
}

pub struct RecordView {
    pub event: Option<Seq<char>>,
    pub sse_event: Option<Seq<char>>,
    pub json_event: Option<Seq<char>>,
    pub data: Seq<char>,
    pub retry: Option<u64>,
    pub payload: Option<Json>,
    /// The parser's message and the raw data.
    pub payload_error: Option<(Seq<char>, Seq<char>)>,
    pub done: bool,
}

impl View for ProviderStreamRecord {
    type V = RecordView;

    open spec fn view(&self) -> RecordView {
        RecordView {
            event: opt_seq(self.event),
            sse_event: opt_seq(self.sse_event),
            json_event: opt_seq(self.json_event),
            data: self.data@,
            retry: self.retry,
            payload: self.payload,
            payload_error: match self.payload_error {
                Some(e) => Some((e.message@, e.raw@)),
                None => None,
            },
            done: self.done,
        }
    }
}

pub open spec fn records_view(s: Seq<ProviderStreamRecord>) -> Seq<RecordView> {
    s.map_values(|r: ProviderStreamRecord| r@)
}

/// A member that holds a non-empty string.
pub open spec fn non_empty_str_member(v: Option<Json>) -> Option<Seq<char>> {
    match v {
        Some(Json::Str(s)) => if s@.len() > 0 {
            Some(s@)
        } else {
            None
        },
        _ => None,
    }
}

/// The event a JSON payload names: its `type`, else its `event`, when that
/// is a non-empty string.
pub open spec fn json_event_name(payload: Json) -> Option<Seq<char>> {
    match non_empty_str_member(json_get(payload, "type"@)) {
        Some(t) => Some(t),
        None => non_empty_str_member(json_get(payload, "event"@)),
    }
}

/// The view of a parse result.
pub open spec fn parse_result_view(r: Result<Json, String>) -> Result<Json, Seq<char>> {
    match r {
        Ok(v) => Ok(v),
        Err(m) => Err(m@),
    }
}

/// The record for data that is not the `[DONE]` marker, given how it parsed.
pub open spec fn parsed_record(
    sse_event: Option<Seq<char>>,
    data: Seq<char>,
    retry: Option<u64>,
    parsed: Result<Json, Seq<char>>,
) -> RecordView {
    match parsed {
        Ok(payload) => {
            let json_event = json_event_name(payload);
            RecordView {
                event: if json_event is Some {
                    json_event
                } else {
                    sse_event
                },
                sse_event,
                json_event,
                data,
                retry,
                payload: Some(payload),
                payload_error: None,
                done: false,
            }
        },
        Err(message) => RecordView {
            event: sse_event,
            sse_event,
            json_event: None,
            data,
            retry,
            payload: None,
            payload_error: Some((message, data)),
            done: false,
        },
    }
}

/// Whether the data is the end-of-stream marker.
pub open spec fn is_done_marker(data: Seq<char>) -> bool {
    trim_seq(data) == "[DONE]"@
}

/// The record for one dispatched event.
pub open spec fn sse_record(sse_event: Option<Seq<char>>, data: Seq<char>, retry: Option<u64>) -> RecordView {
    if is_done_marker(data) {
        RecordView {
            event: sse_event,
            sse_event,
            json_event: None,
            data,
            retry,
            payload: None,
            payload_error: None,
            done: true,
        }
    } else {
        parsed_record(sse_event, data, retry, json_parse_outcome(data))
    }
}

// ----- numbers -----
pub open spec fn is_digit(c: char) -> bool {
    '0' <= c && c <= '9'
}

pub open spec fn digit_value(c: char) -> nat {
    (c as int - 48) as nat
}

/// The value of a string of decimal digits.
pub open spec fn digits_value(s: Seq<char>) -> nat
    decreases s.len(),
{
    if s.len() == 0 {
        0
    } else {
        digits_value(s.drop_last()) * 10 + digit_value(s.last())
    }
}

pub open spec fn all_digits(s: Seq<char>) -> bool {
    forall|i: int| 0 <= i < s.len() ==> is_digit(#[trigger] s[i])
}

/// The digits of an unsigned number: without one leading `+`.
pub open spec fn unsigned_digits(s: Seq<char>) -> Seq<char> {
    if s.len() > 0 && s[0] == '+' {
        s.drop_first()
    } else {
        s
    }
}

/// `str::parse::<u64>`: an optional `+`, then at least one decimal digit,
/// and a value that fits.
pub open spec fn parse_u64_spec(s: Seq<char>) -> Option<u64> {
    let d = unsigned_digits(s);
    if d.len() > 0 && all_digits(d) && digits_value(d) <= u64::MAX {
        Some(digits_value(d) as u64)
    } else {
        None
    }
}

proof fn lemma_digits_value_step(s: Seq<char>, i: int)
    requires
        0 <= i < s.len(),
    ensures
        digits_value(s.subrange(0, i + 1)) == digits_value(s.subrange(0, i)) * 10 + digit_value(s[i]),
        digits_value(s.subrange(0, i + 1)) >= digits_value(s.subrange(0, i)),
{
    let t = s.subrange(0, i + 1);
    assert(t.drop_last() =~= s.subrange(0, i));
}

proof fn lemma_digits_value_mono(s: Seq<char>, i: int)
    requires
        0 <= i <= s.len(),
    ensures
        digits_value(s) >= digits_value(s.subrange(0, i)),
    decreases s.len() - i,
{
    if i < s.len() {
        lemma_digits_value_step(s, i);
        lemma_digits_value_mono(s, i + 1);
    } else {
        assert(s.subrange(0, i) =~= s);
    }
}

/// `str::parse::<u64>` on a character sequence.
pub fn parse_u64(v: &Vec<char>) -> (r: Option<u64>)
    ensures
        r == parse_u64_spec(v@),
{
    let mut start: usize = 0;
    if v.len() > 0 && v[0] == '+' {
        start = 1;
    }
    let ghost d = unsigned_digits(v@);
    assert(d =~= v@.subrange(start as int, v@.len() as int));
    if start >= v.len() {
        assert(d.len() == 0);
        return None;
    }
    let mut acc: u64 = 0;
    let mut overflow = false;
    let mut i: usize = start;
    while i < v.len()
        invariant
            start <= i <= v@.len(),
            d == v@.subrange(start as int, v@.len() as int),
            d == unsigned_digits(v@),
            forall|k: int| start <= k < i ==> is_digit(#[trigger] v@[k]),
            !overflow ==> acc == digits_value(d.subrange(0, i - start)),
            overflow ==> digits_value(d.subrange(0, i - start)) > u64::MAX,
        decreases v@.len() - i,
    {
        let c = v[i];
        if !('0' <= c && c <= '9') {
            assert(!is_digit(d[i - start]));
            return None;
        }
        let cv: u32 = c as u32;
        let dg: u64 = (cv - 48) as u64;
        proof {
            lemma_digits_value_step(d, i - start);
            assert(d[i - start] == c);
        }
        if !overflow {
            match acc.checked_mul(10) {
                Some(m) => match m.checked_add(dg) {
                    Some(a) => {
                        acc = a;
                    },
                    None => {
                        overflow = true;
                    },
                },
                None => {
                    overflow = true;
                },
            }
        }
        i = i + 1;
    }
    proof {
        assert(d.subrange(0, d.len() as int) =~= d);
        assert forall|k: int| 0 <= k < d.len() implies is_digit(#[trigger] d[k]) by {
            assert(d[k] == v@[k + start]);
        }
    }
    if overflow {
        None
    } else {
        Some(acc)
    }
}

// ----- records -----
fn non_empty_str_of(v: Option<&Json>) -> (r: Option<String>)
    ensures
        opt_seq(r) == non_empty_str_member(match v {
            Some(x) => Some(*x),
            None => None,
        }),
{
    match v {
        Some(Json::Str(s)) => {
            if s.unicode_len() > 0 {
                Some(s.clone())
            } else {
                None
            }
        },
        _ => None,
    }
}

/// The event a JSON payload names: its `type`, else its `event`, when that
/// is a non-empty string.
pub fn provider_json_event_name(payload: &Json) -> (r: Option<String>)
    ensures
        opt_seq(r) == json_event_name(*payload),
{
    match non_empty_str_of(get(payload, "type")) {
        Some(t) => Some(t),
        None => non_empty_str_of(get(payload, "event")),
    }
}

fn clone_opt(o: &Option<String>) -> (r: Option<String>)
    ensures
        opt_seq(r) == opt_seq(*o),
{
    match o {
        Some(s) => Some(s.clone()),
        None => None,
    }
}

/// The record for data that is not the `[DONE]` marker, given the outcome of
/// parsing it as JSON.
pub fn record_from_parsed(
    sse_event: Option<String>,
    data: String,
    retry: Option<u64>,
    parsed: Result<Json, String>,
) -> (r: ProviderStreamRecord)
    ensures
        r@ == parsed_record(opt_seq(sse_event), data@, retry, parse_result_view(parsed)),
{
    match parsed {
        Ok(payload) => {
            let json_event = provider_json_event_name(&payload);
            let event = match &json_event {
                Some(_) => clone_opt(&json_event),
                None => clone_opt(&sse_event),
            };
            ProviderStreamRecord {
                event,
                sse_event,
                json_event,
                data,
                retry,
                payload: Some(payload),
                payload_error: None,
                done: false,
            }
        },
        Err(message) => {
            let raw = data.clone();
            ProviderStreamRecord {
                event: clone_opt(&sse_event),
                sse_event,
                json_event: None,
                data,
                retry,
                payload: None,
                payload_error: Some(ProviderStreamPayloadError { message, raw }),
                done: false,
            }
        },
    }
}

impl ProviderStreamRecord {
    /// The record of a payload read from a JSON-lines stream.
    pub fn from_json(payload: Json) -> (r: Self)
        ensures
            r@ == (RecordView {
                event: json_event_name(payload),
                sse_event: None,
                json_event: json_event_name(payload),
                data: json_text(payload@),
                retry: None,
                payload: Some(payload),
                payload_error: None,
                done: false,
            }),
    {
        let json_event = provider_json_event_name(&payload);
        let event = clone_opt(&json_event);
        let data = json_to_text(&payload);
        ProviderStreamRecord {
            event,
            sse_event: None,
            json_event,
            data,
            retry: None,
            payload: Some(payload),
            payload_error: None,
            done: false,
        }
    }

    /// The record for the data of one dispatched event: the `[DONE]` marker,
    /// a JSON payload, or data that did not parse.
    pub fn from_sse_data(sse_event: Option<String>, data: String, retry: Option<u64>) -> (r: Self)
        ensures
            r@ == sse_record(opt_seq(sse_event), data@, retry),
    {
        let trimmed = trim(data.as_str());
        if str_eq(trimmed.as_str(), "[DONE]") {
            return ProviderStreamRecord {
                event: clone_opt(&sse_event),
                sse_event,
                json_event: None,
                data,
                retry,
                payload: None,
                payload_error: None,
                done: true,
            };
        }
        let parsed = parse_json(data.as_str());
        proof {
            assert(parse_result_view(parsed) == json_parse_outcome(data@));
        }
        record_from_parsed(sse_event, data, retry, parsed)
    }
}

// ----- the line parser -----
/// The fields of the event being collected.
pub struct SseFields {
    pub event: Option<Seq<char>>,
    pub data_lines: Seq<Seq<char>>,
    pub retry: Option<u64>,
}

pub open spec fn empty_fields() -> SseFields {
    SseFields { event: None, data_lines: Seq::empty(), retry: None }
}

/// The `data` lines joined with line feeds.
pub open spec fn join_lines(lines: Seq<Seq<char>>) -> Seq<char>
    decreases lines.len(),
{
    if lines.len() == 0 {
        Seq::empty()
    } else if lines.len() == 1 {
        lines[0]
    } else {
        join_lines(lines.drop_last()) + seq!['\n'] + lines.last()
    }
}

/// A line without one trailing carriage return.
pub open spec fn strip_cr(line: Seq<char>) -> Seq<char> {
    if line.len() > 0 && line.last() == '\r' {
        line.drop_last()
    } else {
        line
    }
}

/// A field line split at its first colon, the value without one leading
/// space; a line without a colon is a field with an empty value.
pub open spec fn field_split(line: Seq<char>) -> (Seq<char>, Seq<char>) {
    match find_char_spec(line, ':') {
        Some(i) => {
            let v = line.subrange(i + 1, line.len() as int);
            (line.subrange(0, i), if v.len() > 0 && v[0] == ' ' {
                v.drop_first()
            } else {
                v
            })
        },
        None => (line, Seq::empty()),
    }
}

/// Dispatching the collected event: a record when there is data; the fields
/// are cleared either way.
pub open spec fn dispatch(f: SseFields) -> (SseFields, Seq<RecordView>) {
    if f.data_lines.len() == 0 {
        (empty_fields(), Seq::empty())
    } else {
        (empty_fields(), seq![sse_record(f.event, join_lines(f.data_lines), f.retry)])
    }
}

/// One line of the stream: a blank line dispatches, a line starting with a
/// colon is a comment, `event`, `data` and `retry` set their field (a retry
/// that is not a number is ignored) and other fields are ignored.
pub open spec fn process_line(f: SseFields, line: Seq<char>) -> (SseFields, Seq<RecordView>) {
    if line.len() == 0 {
        dispatch(f)
    } else if line[0] == ':' {
        (f, Seq::empty())
    } else {
        let field = field_split(line).0;
        let value = field_split(line).1;
        if field == "event"@ {
            (SseFields { event: Some(value), data_lines: f.data_lines, retry: f.retry }, Seq::empty())
        } else if field == "data"@ {
            (SseFields { event: f.event, data_lines: f.data_lines.push(value), retry: f.retry }, Seq::empty())
        } else if field == "retry"@ {
            match parse_u64_spec(value) {
                Some(n) => (SseFields { event: f.event, data_lines: f.data_lines, retry: Some(n) }, Seq::empty()),
                None => (f, Seq::empty()),
            }
        } else {
            (f, Seq::empty())
        }
    }
}

/// Processing every complete line of the pending text: the fields, the
/// unfinished last line, and the records dispatched.
pub open spec fn drain(f: SseFields, pending: Seq<char>) -> (SseFields, Seq<char>, Seq<RecordView>)
    decreases pending.len(),
{
    match find_char_spec(pending, '\n') {
        Some(i) => if 0 <= i < pending.len() {
            let step = process_line(f, strip_cr(pending.subrange(0, i)));
            let rest = drain(step.0, pending.subrange(i + 1, pending.len() as int));
            (rest.0, rest.1, step.1 + rest.2)
        } else {
            (f, pending, Seq::empty())
        },
        None => (f, pending, Seq::empty()),
    }
}

/// The end of the stream: the unfinished line is processed, then the
/// collected event is dispatched.
pub open spec fn finish_spec(f: SseFields, pending: Seq<char>) -> (SseFields, Seq<RecordView>) {
    if pending.len() > 0 {
        let step = process_line(f, strip_cr(pending));
        let last = dispatch(step.0);
        (last.0, step.1 + last.1)
    } else {
        dispatch(f)
    }
}

/// The records of a whole stream.
pub open spec fn parse_sse_spec(input: Seq<char>) -> Seq<RecordView> {
    let d = drain(empty_fields(), input);
    d.2 + finish_spec(d.0, d.1).1
}

pub open spec fn lines_view(v: Seq<String>) -> Seq<Seq<char>> {
    v.map_values(|s: String| s@)
}

/// An incremental parser of server-sent events.
#[derive(Debug)]
pub struct SseParser {
    event: Option<String>,
    data_lines: Vec<String>,
    retry: Option<u64>,
    pending_line: Vec<char>,
}

impl SseParser {
    /// The fields of the event being collected.
    pub closed spec fn fields(&self) -> SseFields {
        SseFields { event: opt_seq(self.event), data_lines: lines_view(self.data_lines@), retry: self.retry }
    }

    /// The text after the last complete line.
    pub closed spec fn pending(&self) -> Seq<char> {
        self.pending_line@
    }

    /// A parser that has seen nothing.
    pub fn new() -> (p: Self)
        ensures
            p.fields() == empty_fields(),
            p.pending() == Seq::<char>::empty(),
    {
        let p = SseParser { event: None, data_lines: Vec::new(), retry: None, pending_line: Vec::new() };
        assert(lines_view(p.data_lines@) =~= Seq::<Seq<char>>::empty());
        p
    }

    /// Whether anything has been read that no record has come of yet.
    pub fn has_pending_input(&self) -> (r: bool)
        ensures
            r == (self.pending().len() > 0 || self.fields().event is Some
                || self.fields().data_lines.len() > 0 || self.fields().retry is Some),
    {
        self.pending_line.len() > 0 || self.event.is_some() || self.data_lines.len() > 0
            || self.retry.is_some()
    }

    fn clear_fields(&mut self)
        ensures
            final(self).fields() == empty_fields(),
            final(self).pending() == old(self).pending(),
    {
        self.event = None;
        self.retry = None;
        self.data_lines = Vec::new();
        assert(lines_view(self.data_lines@) =~= Seq::<Seq<char>>::empty());
    }

    fn joined_data(&self) -> (r: String)
        requires
            self.data_lines@.len() > 0,
        ensures
            r@ == join_lines(self.fields().data_lines),
    {
        let ghost lines = self.fields().data_lines;
        let mut acc: Vec<char> = chars_of(self.data_lines[0].as_str());
        let mut i: usize = 1;
        assert(lines.subrange(0, 1) =~= seq![lines[0]]);
        while i < self.data_lines.len()
            invariant
                1 <= i <= self.data_lines@.len(),
                lines == lines_view(self.data_lines@),
                acc@ == join_lines(lines.subrange(0, i as int)),
            decreases self.data_lines@.len() - i,
        {
            let line = chars_of(self.data_lines[i].as_str());
            acc.push('\n');
            extend_chars(&mut acc, &line);
            proof {
                let t = lines.subrange(0, i + 1);
                assert(t.drop_last() =~= lines.subrange(0, i as int));
                assert(t.last() == line@);
                assert(acc@ =~= join_lines(t.drop_last()) + seq!['\n'] + t.last());
            }
            i = i + 1;
        }
        assert(lines.subrange(0, lines.len() as int) =~= lines);
        string_from_chars(&acc)
    }

    fn dispatch_event(&mut self, records: &mut Vec<ProviderStreamRecord>)
        ensures
            final(self).fields() == dispatch(old(self).fields()).0,
            final(self).pending() == old(self).pending(),
            records_view(final(records)@) == records_view(old(records)@) + dispatch(old(self).fields()).1,
    {
        if self.data_lines.len() == 0 {
            self.clear_fields();
            assert(records_view(records@) =~= records_view(records@) + Seq::<RecordView>::empty());
            return;
        }
        let data = self.joined_data();
        let event = clone_opt(&self.event);
        let record = ProviderStreamRecord::from_sse_data(event, data, self.retry);
        let ghost before = records@;
        records.push(record);
        self.clear_fields();
        assert(records_view(records@) =~= records_view(before) + seq![record@]);
    }

    fn process_line(&mut self, line: &Vec<char>, records: &mut Vec<ProviderStreamRecord>)
        ensures
            final(self).fields() == process_line(old(self).fields(), line@).0,
            final(self).pending() == old(self).pending(),
            records_view(final(records)@) == records_view(old(records)@) + process_line(old(self).fields(), line@).1,
    {
        if line.len() == 0 {
            self.dispatch_event(records);
            return;
        }
        assert(records_view(records@) =~= records_view(records@) + Seq::<RecordView>::empty());
        if line[0] == ':' {
            return;
        }
        let (field, value) = match find_char_vec(line, ':') {
            Some(i) => {
                let f = subvec(line, 0, i);
                let v = if i + 1 < line.len() && line[i + 1] == ' ' {
                    subvec(line, i + 2, line.len())
                } else {
                    subvec(line, i + 1, line.len())
                };
                proof {
                    let w = line@.subrange(i + 1, line@.len() as int);
                    if w.len() > 0 && w[0] == ' ' {
                        assert(w.drop_first() =~= line@.subrange(i + 2, line@.len() as int));
                    }
                }
                (f, v)
            },
            None => (subvec(line, 0, line.len()), Vec::new()),
        };
        proof {
            assert(line@.subrange(0, line@.len() as int) =~= line@);
            assert(field@ == field_split(line@).0);
            assert(value@ =~= field_split(line@).1);
        }
        if seq_eq(&field, &chars_of("event")) {
            self.event = Some(string_from_chars(&value));
        } else if seq_eq(&field, &chars_of("data")) {
            let ghost before = self.data_lines@;
            self.data_lines.push(string_from_chars(&value));
            assert(lines_view(self.data_lines@) =~= lines_view(before).push(value@));
        } else if seq_eq(&field, &chars_of("retry")) {
            match parse_u64(&value) {
                Some(n) => {
                    self.retry = Some(n);
                },
                None => {},
            }
        }
    }

    /// Reads a chunk of the stream and returns the records of the events that
    /// it completes; an unfinished last line is kept for the next chunk.
    pub fn push_str(&mut self, chunk: &str) -> (r: Vec<ProviderStreamRecord>)
        ensures
            final(self).fields() == drain(old(self).fields(), old(self).pending() + chunk@).0,
            final(self).pending() == drain(old(self).fields(), old(self).pending() + chunk@).1,
            records_view(r@) == drain(old(self).fields(), old(self).pending() + chunk@).2,
    {
        let cv = chars_of(chunk);
        extend_chars(&mut self.pending_line, &cv);
        let ghost f0 = self.fields();
        let ghost p0 = self.pending();
        let mut records: Vec<ProviderStreamRecord> = Vec::new();
        assert(records_view(records@) =~= Seq::<RecordView>::empty());
        assert(drain(f0, p0).2 =~= records_view(records@) + drain(self.fields(), self.pending()).2);
        loop
            invariant
                drain(f0, p0).0 == drain(self.fields(), self.pending()).0,
                drain(f0, p0).1 == drain(self.fields(), self.pending()).1,
                drain(f0, p0).2 == records_view(records@) + drain(self.fields(), self.pending()).2,
            ensures
                find_char_spec(self.pending(), '\n') is None,
            decreases self.pending().len(),
        {
            let n = self.pending_line.len();
            match find_char_vec(&self.pending_line, '\n') {
                Some(i) => {
                    let ghost fs = self.fields();
                    let ghost ps = self.pending();
                    let mut line = subvec(&self.pending_line, 0, i);
                    let rest = subvec(&self.pending_line, i + 1, n);
                    self.pending_line = rest;
                    if line.len() > 0 && line[line.len() - 1] == '\r' {
                        line.pop();
                    }
                    proof {
                        let l0 = ps.subrange(0, i as int);
                        if l0.len() > 0 && l0.last() == '\r' {
                            assert(line@ =~= l0.drop_last());
                        }
                        assert(line@ == strip_cr(l0));
                    }
                    let ghost before = records_view(records@);
                    self.process_line(&line, &mut records);
                    proof {
                        let step = process_line(fs, line@);
                        let rest = drain(step.0, ps.subrange(i + 1, ps.len() as int));
                        assert(drain(fs, ps) == (rest.0, rest.1, step.1 + rest.2));
                        assert(drain(f0, p0).2 =~= records_view(records@) + drain(self.fields(), self.pending()).2);
                    }
                },
                None => {
                    break;
                },
            }
        }
        proof {
            assert(drain(f0, p0).2 =~= records_view(records@));
        }
        records
    }

    /// Ends the stream: processes an unfinished last line and dispatches the
    /// collected event, leaving the parser with nothing pending.
    pub fn finish(&mut self) -> (r: Vec<ProviderStreamRecord>)
        ensures
            final(self).fields() == empty_fields(),
            final(self).fields() == finish_spec(old(self).fields(), old(self).pending()).0,
            final(self).pending() == Seq::<char>::empty(),
            records_view(r@) == finish_spec(old(self).fields(), old(self).pending()).1,
    {
        let mut records: Vec<ProviderStreamRecord> = Vec::new();
        assert(records_view(records@) =~= Seq::<RecordView>::empty());
        if self.pending_line.len() > 0 {
            let ghost ps = self.pending();
            let mut line = subvec(&self.pending_line, 0, self.pending_line.len());
            self.pending_line = Vec::new();
            if line[line.len() - 1] == '\r' {
                line.pop();
            }
            proof {
                assert(ps.subrange(0, ps.len() as int) =~= ps);
                if ps.last() == '\r' {
                    assert(line@ =~= ps.drop_last());
                }
            }
            self.process_line(&line, &mut records);
        }
        self.dispatch_event(&mut records);
        records
    }
}

/// Parses a whole stream: every event, including one not followed by a blank line.
pub fn parse_sse_stream(input: &str) -> (r: Vec<ProviderStreamRecord>)
    ensures
        records_view(r@) == parse_sse_spec(input@),
{
    let mut parser = SseParser::new();
    let mut records = parser.push_str(input);
    assert(Seq::<char>::empty() + input@ =~= input@);
    let mut tail = parser.finish();
    let ghost a = records@;
    let ghost b = tail@;
    records.append(&mut tail);
    assert(records_view(records@) =~= records_view(a) + records_view(b));
    records
}

impl Default for SseParser {
    fn default() -> (p: Self)
        ensures
            p.fields() == empty_fields(),
            p.pending() == Seq::<char>::empty(),
    {
        SseParser::new()
    }
}

proof fn lemma_find_char_prefix(p: Seq<char>, b: Seq<char>, c: char)
    requires
        find_char_spec(p, c) is Some,
    ensures
        find_char_spec(p + b, c) == find_char_spec(p, c),
{
    lemma_find_char(p, c);
    lemma_find_char(p + b, c);
    let i = find_char_spec(p, c)->0;
    assert((p + b)[i] == c);
    match find_char_spec(p + b, c) {
        Some(j) => {
            if j < i {
                assert(p[j] == (p + b)[j]);
            }
        },
        None => {},
    }
}

proof fn lemma_drain_append(f: SseFields, p: Seq<char>, b: Seq<char>)
    ensures
        drain(f, p + b).0 == drain(drain(f, p).0, drain(f, p).1 + b).0,
        drain(f, p + b).1 == drain(drain(f, p).0, drain(f, p).1 + b).1,
        drain(f, p + b).2 == drain(f, p).2 + drain(drain(f, p).0, drain(f, p).1 + b).2,
    decreases p.len(),
{
    lemma_find_char(p, '\n');
    match find_char_spec(p, '\n') {
        Some(i) => {
            lemma_find_char_prefix(p, b, '\n');
            let pb = p + b;
            assert(pb.subrange(0, i) =~= p.subrange(0, i));
            let tail = p.subrange(i + 1, p.len() as int);
            assert(pb.subrange(i + 1, pb.len() as int) =~= tail + b);
            let step = process_line(f, strip_cr(p.subrange(0, i)));
            lemma_drain_append(step.0, tail, b);
            let d1 = drain(step.0, tail);
            let d2 = drain(d1.0, d1.1 + b);
            assert(drain(f, pb).2 =~= step.1 + (d1.2 + d2.2));
            assert(drain(f, p).2 =~= step.1 + d1.2);
            assert(step.1 + (d1.2 + d2.2) =~= (step.1 + d1.2) + d2.2);
        },
        None => {
            assert(drain(f, p).2 =~= Seq::<RecordView>::empty());
            assert(drain(f, p + b).2 =~= drain(f, p).2 + drain(f, p + b).2);
        },
    }
}

/// A stream read in two chunks gives the records of reading it at once:
/// where the chunks are cut does not matter.
pub proof fn lemma_push_split(f: SseFields, pending: Seq<char>, a: Seq<char>, b: Seq<char>)
    ensures
        ({
            let first = drain(f, pending + a);
            let second = drain(first.0, first.1 + b);
            let whole = drain(f, pending + (a + b));
            &&& second.0 == whole.0
            &&& second.1 == whole.1
            &&& first.2 + second.2 == whole.2
        }),
{
    assert(pending + (a + b) =~= (pending + a) + b);
    lemma_drain_append(f, pending + a, b);
}

proof fn lemma_drain_line_end(f: SseFields, t: Seq<char>)
    requires
        t.len() > 0,
        t.last() == '\n',
    ensures
        drain(f, t).1 == Seq::<char>::empty(),
        t.len() >= 2 && t[t.len() - 2] == '\n' ==> drain(f, t).0 == empty_fields(),
    decreases t.len(),
{
    lemma_find_char(t, '\n');
    let i = find_char_spec(t, '\n')->0;
    let step = process_line(f, strip_cr(t.subrange(0, i)));
    let rest = t.subrange(i + 1, t.len() as int);
    assert(drain(f, t) == (drain(step.0, rest).0, drain(step.0, rest).1, step.1 + drain(step.0, rest).2));
    if i + 1 < t.len() {
        assert(rest.last() == '\n');
        lemma_drain_line_end(step.0, rest);
        if t.len() >= 2 && t[t.len() - 2] == '\n' {
            if rest.len() >= 2 {
                assert(rest[rest.len() - 2] == t[t.len() - 2]);
            } else {
                // The first line feed is the second to last character: the
                // last line is blank and dispatches.
                assert(i == t.len() - 2);
                lemma_find_char(rest, '\n');
                assert(rest.subrange(0, 0) =~= Seq::<char>::empty());
                assert(strip_cr(rest.subrange(0, 0)) =~= Seq::<char>::empty());
                let tail = rest.subrange(1, rest.len() as int);
                assert(tail =~= Seq::<char>::empty());
                let step2 = process_line(step.0, strip_cr(rest.subrange(0, 0)));
                assert(step2.0 == empty_fields());
                assert(find_char_spec(tail, '\n') is None);
                assert(drain(step2.0, tail).0 == empty_fields());
                assert(drain(step.0, rest).0 == drain(step2.0, tail).0);
            }
        }
    } else {
        assert(rest =~= Seq::<char>::empty());
        if t.len() >= 2 && t[t.len() - 2] == '\n' {
            assert(false);
        }
    }
}

/// A chunk that ends in a blank line leaves the parser with nothing
/// pending: every event it started has been dispatched, whatever came
/// before it.
pub proof fn lemma_blank_line_leaves_nothing_pending(f: SseFields, pending: Seq<char>, chunk: Seq<char>)
    requires
        chunk.len() >= 2,
        chunk[chunk.len() - 1] == '\n',
        chunk[chunk.len() - 2] == '\n',
    ensures
        drain(f, pending + chunk).0 == empty_fields(),
        drain(f, pending + chunk).1 == Seq::<char>::empty(),
{
    let t = pending + chunk;
    assert(t[t.len() - 1] == chunk[chunk.len() - 1]);
    assert(t[t.len() - 2] == chunk[chunk.len() - 2]);
    lemma_drain_line_end(f, t);
}

} // verus!

//! Performance trace recording: whether a recording runs, the events
//! recorded, and the trace in Chrome Trace Event JSON. Writing the trace
//! to a file is left to the application.

use vstd::prelude::*;
use crate::config::VERSION;
use crate::text::{chars_of, decimal, decimal_spec, owned, push_all, push_str, string_from};

verus! {

/// Options of a recording.
#[derive(Debug)]
pub struct TracingOptions {
    /// Category filter.
    pub category_filter: Option<String>,
    /// Trace options.
    pub trace_options: Option<String>,
    /// Buffer size in KB.
    pub buffer_size: Option<u32>,
}

/// One trace event.
#[derive(Debug)]
pub struct TraceEvent {
    /// Event name.
    pub name: String,
    /// Category.
    pub cat: String,
    /// Timestamp in microseconds.
    pub ts: u64,
    /// Duration in microseconds.
    pub dur: u64,
    /// Process id.
    pub pid: u32,
    /// Thread id.
    pub tid: u32,
    /// Phase (B = begin, E = end, X = complete).
    pub ph: String,
}

/// Why a recording call was refused.
#[derive(Debug, Clone, Copy, PartialEq, Eq, Structural)]
pub enum TracingError {
    /// A recording is already running.
    AlreadyRecording,
    /// No recording is running.
    NotRecording,
}

/// How `serde_json` writes one character inside a string literal: a quote
/// or a backslash behind a backslash; backspace, tab, newline, form feed
/// and carriage return as a backslash and `b`, `t`, `n`, `f`, `r`; the
/// other control characters below 0x20 as a backslash, `u00` and two
/// lowercase hex digits; everything else as it is.
pub open spec fn json_char_escape(c: char) -> Seq<char> {
    let n = c as u32;
    if n == 0x22 {
        seq!['\\', '"']
    } else if n == 0x5C {
        seq!['\\', '\\']
    } else if n == 0x08 {
        seq!['\\', 'b']
    } else if n == 0x09 {
        seq!['\\', 't']
    } else if n == 0x0A {
        seq!['\\', 'n']
    } else if n == 0x0C {
        seq!['\\', 'f']
    } else if n == 0x0D {
        seq!['\\', 'r']
    } else if n < 0x20 {
        seq!['\\', 'u', '0', '0', crate::pack::hex_digit_char((n / 16) as nat), crate::pack::hex_digit_char((n % 16) as nat)]
    } else {
        seq![c]
    }
}

/// The characters of a text, each escaped for a JSON string literal.
pub open spec fn json_escape(s: Seq<char>) -> Seq<char>
    decreases s.len(),
{
    if s.len() == 0 {
        Seq::empty()
    } else {
        json_escape(s.drop_last()) + json_char_escape(s.last())
    }
}

/// A text as a JSON string literal, as `serde_json` writes it.
pub open spec fn json_quote_spec(s: Seq<char>) -> Seq<char> {
    seq!['"'] + json_escape(s) + seq!['"']
}

/// `serde_json::to_string` of a text (which cannot fail for a string):
/// the quoted, escaped JSON string.
#[verifier::external_body]
pub(crate) fn json_quote(s: &str) -> (r: String)
    ensures
        r@ == json_quote_spec(s@),
{
    match serde_json::to_string(s) {
        Ok(t) => t,
        Err(_) => String::new(),
    }
}

/// One event as a JSON object, keys in the sorted order `serde_json` writes.
pub open spec fn event_json(e: TraceEvent) -> Seq<char> {
    "{\"cat\":"@ + json_quote_spec(e.cat@) + ",\"dur\":"@ + decimal_spec(e.dur as nat)
        + ",\"name\":"@ + json_quote_spec(e.name@) + ",\"ph\":"@ + json_quote_spec(e.ph@)
        + ",\"pid\":"@ + decimal_spec(e.pid as nat) + ",\"tid\":"@ + decimal_spec(e.tid as nat)
        + ",\"ts\":"@ + decimal_spec(e.ts as nat) + "}"@
}

/// The events as JSON objects separated by commas.
pub open spec fn events_json(es: Seq<TraceEvent>) -> Seq<char>
    decreases es.len(),
{
    if es.len() == 0 {
        Seq::empty()
    } else if es.len() == 1 {
        event_json(es[0])
    } else {
        events_json(es.drop_last()) + ","@ + event_json(es.last())
    }
}

/// The whole trace document.
pub open spec fn trace_json_spec(es: Seq<TraceEvent>) -> Seq<char> {
    "{\"displayTimeUnit\":\"ms\",\"metadata\":{\"nefu-version\":"@ + json_quote_spec(VERSION@)
        + "},\"traceEvents\":["@ + events_json(es) + "]}"@
}

fn event_text(e: &TraceEvent) -> (r: Vec<char>)
    ensures
        r@ == event_json(*e),
{
    let mut out = chars_of("{\"cat\":");
    push_str(&mut out, json_quote(e.cat.as_str()).as_str());
    push_str(&mut out, ",\"dur\":");
    push_all(&mut out, decimal(e.dur).as_slice());
    push_str(&mut out, ",\"name\":");
    push_str(&mut out, json_quote(e.name.as_str()).as_str());
    push_str(&mut out, ",\"ph\":");
    push_str(&mut out, json_quote(e.ph.as_str()).as_str());
    push_str(&mut out, ",\"pid\":");
    push_all(&mut out, decimal(e.pid as u64).as_slice());
    push_str(&mut out, ",\"tid\":");
    push_all(&mut out, decimal(e.tid as u64).as_slice());
    push_str(&mut out, ",\"ts\":");
    push_all(&mut out, decimal(e.ts).as_slice());
    push_str(&mut out, "}");
    out
}

/// A trace recorder.
#[derive(Debug)]
pub struct ContentTracing {
    recording: bool,
    trace_data: Vec<TraceEvent>,
}

impl ContentTracing {
    /// Whether a recording runs.
    pub closed spec fn recording_spec(&self) -> bool {
        self.recording
    }

    /// The events recorded.
    pub closed spec fn events(&self) -> Seq<TraceEvent> {
        self.trace_data@
    }

    /// Not recording; no events.
    pub fn new() -> (r: ContentTracing)
        ensures
            !r.recording_spec(),
            r.events() == Seq::<TraceEvent>::empty(),
    {
        ContentTracing { recording: false, trace_data: Vec::new() }
    }

    /// Starts a recording with no events; refused while one runs.
    pub fn start_recording(&mut self, options: Option<TracingOptions>) -> (r: Result<(), TracingError>)
        ensures
            final(self).recording_spec(),
            old(self).recording_spec() ==> r == Err::<(), TracingError>(TracingError::AlreadyRecording)
                && final(self).events() == old(self).events(),
            !old(self).recording_spec() ==> r is Ok && final(self).events() == Seq::<TraceEvent>::empty(),
    {
        if self.recording {
            return Err(TracingError::AlreadyRecording);
        }
        self.recording = true;
        self.trace_data = Vec::new();
        Ok(())
    }

    /// Ends the recording and gives the trace document; refused where none
    /// runs.
    pub fn finish_recording(&mut self) -> (r: Result<String, TracingError>)
        ensures
            !final(self).recording_spec(),
            final(self).events() == old(self).events(),
            old(self).recording_spec() ==> r is Ok && r->Ok_0@ == trace_json_spec(old(self).events()),
            !old(self).recording_spec() ==> r == Err::<String, TracingError>(TracingError::NotRecording),
    {
        if !self.recording {
            return Err(TracingError::NotRecording);
        }
        self.recording = false;
        Ok(self.generate_trace_json())
    }

    /// The trace document of the events recorded.
    pub fn generate_trace_json(&self) -> (r: String)
        ensures
            r@ == trace_json_spec(self.events()),
    {
        let mut out = chars_of("{\"displayTimeUnit\":\"ms\",\"metadata\":{\"nefu-version\":");
        push_str(&mut out, json_quote(VERSION).as_str());
        push_str(&mut out, "},\"traceEvents\":[");
        let ghost head = out@;
        let mut body: Vec<char> = Vec::new();
        let mut i: usize = 0;
        while i < self.trace_data.len()
            invariant
                0 <= i <= self.trace_data@.len(),
                body@ == events_json(self.trace_data@.take(i as int)),
            decreases self.trace_data@.len() - i,
        {
            let ghost pre = self.trace_data@.take(i as int + 1);
            assert(pre.drop_last() =~= self.trace_data@.take(i as int));
            assert(pre.last() == self.trace_data@[i as int]);
            if i > 0 {
                push_str(&mut body, ",");
            }
            let t = event_text(&self.trace_data[i]);
            push_all(&mut body, t.as_slice());
            proof {
                if i == 0 {
                    assert(pre.len() == 1);
                    assert(body@ =~= event_json(pre[0]));
                }
            }
            i = i + 1;
        }
        assert(self.trace_data@.take(self.trace_data@.len() as int) =~= self.trace_data@);
        push_all(&mut out, body.as_slice());
        push_str(&mut out, "]}");
        string_from(out.as_slice())
    }

    /// The tracing categories offered.
    pub fn get_categories(&self) -> (r: Vec<String>)
        ensures
            crate::config::string_views(r@) == categories_spec(),
    {
        let mut v: Vec<String> = Vec::new();
        v.push(owned("benchmark"));
        v.push(owned("blink"));
        v.push(owned("blink.console"));
        v.push(owned("blink.net"));
        v.push(owned("cc"));
        v.push(owned("gpu"));
        v.push(owned("ipc"));
        v.push(owned("loading"));
        v.push(owned("memory"));
        v.push(owned("navigation"));
        v.push(owned("net"));
        v.push(owned("renderer"));
        v.push(owned("toplevel"));
        v.push(owned("v8"));
        v.push(owned("v8.execute"));
        assert(crate::config::string_views(v@) =~= categories_spec());
        v
    }

    /// Whether a recording runs.
    pub fn is_recording(&self) -> (r: bool)
        ensures
            r == self.recording_spec(),
    {
        self.recording
    }
}

/// The tracing categories offered.
pub open spec fn categories_spec() -> Seq<Seq<char>> {
    seq![
        "benchmark"@, "blink"@, "blink.console"@, "blink.net"@, "cc"@, "gpu"@, "ipc"@,
        "loading"@, "memory"@, "navigation"@, "net"@, "renderer"@, "toplevel"@, "v8"@,
        "v8.execute"@,
    ]
}

} // verus!

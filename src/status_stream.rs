//! The remote status bridge.
//!
//! A remote diagnostic script writes one JSON envelope per line,
//! `{"step": <string>, "data": <any>}`.  The bridge is a state machine: the
//! caller feeds it what the script's output stream yields (a line, a read
//! failure, the end) and performs the action it answers with.  A synthetic
//! `connecting` step comes before anything is read; empty lines are
//! skipped; a line that is not JSON ends the stream with an error that
//! names the line.
use vstd::prelude::*;
use vstd::string::StringExecFns;
use crate::process::text_opt;

verus! {

/// `serde_json::Value`, carried through as an opaque payload.
#[verifier::external_type_specification]
#[verifier::external_body]
pub struct ExJsonValue(serde_json::Value);

/// `serde_json::Error`, the parser's reason for refusing a line.
#[verifier::external_type_specification]
#[verifier::external_body]
pub struct ExJsonError(serde_json::Error);

/// What serde_json reads in the text `s`: `None` where `s` is not one JSON
/// value; else the text of the value's `step` member, where the value is an
/// object whose `step` is a string.
pub uninterp spec fn envelope_of(s: Seq<char>) -> Option<Option<Seq<char>>>;

/// Whether serde_json accepts `s` as one JSON value.
pub open spec fn parses_as_json(s: Seq<char>) -> bool {
    envelope_of(s) is Some
}

/// Relies on `serde_json::from_str` to parse the line, then on
/// `serde_json::Value::get` and `serde_json::Value::as_str` for its `step`
/// text and `data` member: what is read depends on the line alone.
#[verifier::external_body]
fn read_envelope(line: &str) -> (r: Result<(Option<String>, Option<serde_json::Value>), serde_json::Error>)
    ensures
        match envelope_of(line@) {
            None => r is Err,
            Some(step) => r matches Ok(p) && text_opt(p.0) == step,
        },
{
    let v: serde_json::Value = serde_json::from_str(line)?;
    let step = v.get("step").and_then(serde_json::Value::as_str).map(String::from);
    Ok((step, v.get("data").cloned()))
}

/// One step reported by the remote script.
#[derive(Debug)]
pub struct StatusStep {
    pub step: String,
    pub data: Option<serde_json::Value>,
}

/// Why the stream ended in failure.
#[derive(Debug)]
pub enum StreamError {
    /// A line that is not JSON, and the parser's reason.
    Protocol { line: String, reason: String },
    /// Reading the script's output failed.
    Read(String),
}

impl StreamError {
    /// The error as one line of text, naming the offending line or cause.
    pub fn message(&self) -> (r: String)
        ensures
            match self {
                StreamError::Protocol { line, reason } => r@ == "JSON parse error: "@ + reason@
                    + " for line: "@ + line@,
                StreamError::Read(cause) => r@ == "Read error: "@ + cause@,
            },
    {
        match self {
            StreamError::Protocol { line, reason } => String::from_str("JSON parse error: ").concat(
                reason.as_str(),
            ).concat(" for line: ").concat(line.as_str()),
            StreamError::Read(cause) => String::from_str("Read error: ").concat(cause.as_str()),
        }
    }
}

/// What the script's output stream yielded.
pub enum StreamEvent {
    Line(String),
    ReadFailed(String),
    Closed,
}

/// What the caller does next.
#[derive(Debug)]
pub enum StreamAction {
    /// Forward this step to the listener.
    Emit(StatusStep),
    /// Nothing to forward; read on.
    Skip,
    /// Stop reading; the stream failed.
    Fail(StreamError),
    /// Stop reading; the stream ended normally.
    Finish,
    /// The stream is already over; nothing to do.
    Ignore,
}

#[derive(Clone, Copy, Debug, PartialEq, Eq, Structural)]
pub enum StreamPhase {
    Streaming,
    Finished,
    Failed,
}

pub struct StatusBridge {
    pub phase: StreamPhase,
}

/// The step named by an envelope: its `step` text, or `unknown` where it
/// has none.
pub open spec fn step_label(step: Option<Seq<char>>) -> Seq<char> {
    match step {
        Some(s) => s,
        None => "unknown"@,
    }
}

/// What one line of the script's output makes the bridge do while it
/// streams.
pub ghost enum LineOutcome {
    Skip,
    Emit(Seq<char>),
    Fail,
}

pub open spec fn line_outcome(l: Seq<char>) -> LineOutcome {
    if l.len() == 0 {
        LineOutcome::Skip
    } else {
        match envelope_of(l) {
            Some(step) => LineOutcome::Emit(step_label(step)),
            None => LineOutcome::Fail,
        }
    }
}

/// The steps forwarded, after the synthetic one, for the lines `lines` fed
/// in order to a streaming bridge, and whether a line that is not JSON
/// ended the stream.
pub open spec fn stream_steps(lines: Seq<Seq<char>>) -> (Seq<Seq<char>>, bool)
    decreases lines.len(),
{
    if lines.len() == 0 {
        (seq![], false)
    } else {
        let rest = stream_steps(lines.drop_first());
        match line_outcome(lines[0]) {
            LineOutcome::Skip => rest,
            LineOutcome::Emit(step) => (seq![step] + rest.0, rest.1),
            LineOutcome::Fail => (seq![], true),
        }
    }
}

/// A line that is not JSON ends the stream: the steps forwarded before it
/// stand as they were, and no later line forwards anything.
pub proof fn lemma_failure_keeps_earlier_steps(
    good: Seq<Seq<char>>,
    bad: Seq<char>,
    rest: Seq<Seq<char>>,
)
    requires
        !stream_steps(good).1,
        line_outcome(bad) == LineOutcome::Fail,
    ensures
        stream_steps(good + seq![bad] + rest) == (stream_steps(good).0, true),
    decreases good.len(),
{
    if good.len() == 0 {
        assert((good + seq![bad] + rest).drop_first() =~= rest);
        assert((good + seq![bad] + rest)[0] == bad);
    } else {
        let all = good + seq![bad] + rest;
        assert(all.drop_first() =~= good.drop_first() + seq![bad] + rest);
        assert(all[0] == good[0]);
        if line_outcome(good[0]) != LineOutcome::Fail {
            lemma_failure_keeps_earlier_steps(good.drop_first(), bad, rest);
        }
    }
}

/// Where no line fails, one step is forwarded for each non-empty line, in
/// order, each named by that line's envelope.
pub proof fn lemma_one_step_per_line(lines: Seq<Seq<char>>)
    requires
        forall|k: int| 0 <= k < lines.len() ==> line_outcome(#[trigger] lines[k]) != LineOutcome::Fail,
    ensures
        !stream_steps(lines).1,
        stream_steps(lines).0 == lines.filter(|l: Seq<char>| l.len() > 0).map_values(
            |l: Seq<char>| step_label(envelope_of(l)->0),
        ),
    decreases lines.len(),
{
    reveal_with_fuel(Seq::filter, 1);
    if lines.len() > 0 {
        let t = lines.drop_first();
        assert forall|k: int| 0 <= k < t.len() implies line_outcome(#[trigger] t[k])
            != LineOutcome::Fail by {
            assert(t[k] == lines[k + 1]);
        }
        lemma_one_step_per_line(t);
        assert(line_outcome(lines[0]) != LineOutcome::Fail);
        let f = |l: Seq<char>| step_label(envelope_of(l)->0);
        let p = |l: Seq<char>| l.len() > 0;
        let h = seq![lines[0]];
        assert(lines =~= h + t);
        Seq::filter_distributes_over_add(h, t, p);
        assert(h.filter(p) =~= if lines[0].len() > 0 { h } else { Seq::<Seq<char>>::empty() }) by {
            reveal_with_fuel(Seq::filter, 2);
            assert(h.drop_last() =~= Seq::<Seq<char>>::empty());
        }
        assert(lines.filter(p).map_values(f) =~= h.filter(p).map_values(f) + t.filter(p).map_values(f));
    } else {
        assert(lines.filter(|l: Seq<char>| l.len() > 0) =~= Seq::<Seq<char>>::empty());
    }
}

/// The step that an envelope's `step` text and `data` member make.
pub fn envelope_step(step: Option<String>, data: Option<serde_json::Value>) -> (r: StatusStep)
    ensures
        r.step@ == step_label(text_opt(step)),
        r.data == data,
{
    let name = match step {
        Some(s) => s,
        None => String::from_str("unknown"),
    };
    StatusStep { step: name, data }
}

impl StatusBridge {
    /// A bridge ready for the script's output, and the step to forward
    /// before the script is started.
    pub fn new() -> (r: (StatusBridge, StatusStep))
        ensures
            r.0.phase == StreamPhase::Streaming,
            r.1.step@ == "connecting"@,
            r.1.data is None,
    {
        (StatusBridge { phase: StreamPhase::Streaming }, StatusStep {
            step: String::from_str("connecting"),
            data: None,
        })
    }

    /// Takes what the output stream yielded and says what to do.
    pub fn handle(&mut self, event: StreamEvent) -> (r: StreamAction)
        ensures
            old(self).phase != StreamPhase::Streaming ==> r is Ignore && final(self).phase
                == old(self).phase,
            old(self).phase == StreamPhase::Streaming ==> match event {
                StreamEvent::Line(l) => match line_outcome(l@) {
                    LineOutcome::Skip => r is Skip && final(self).phase == StreamPhase::Streaming,
                    LineOutcome::Emit(step) => {
                        &&& r matches StreamAction::Emit(s) && s.step@ == step
                        &&& final(self).phase == StreamPhase::Streaming
                    },
                    LineOutcome::Fail => {
                        &&& r matches StreamAction::Fail(StreamError::Protocol { line, reason })
                        &&& line@ == l@
                        &&& final(self).phase == StreamPhase::Failed
                    },
                },
                StreamEvent::ReadFailed(cause) => {
                    &&& r matches StreamAction::Fail(StreamError::Read(c))
                    &&& c@ == cause@
                    &&& final(self).phase == StreamPhase::Failed
                },
                StreamEvent::Closed => r is Finish && final(self).phase == StreamPhase::Finished,
            },
    {
        if self.phase != StreamPhase::Streaming {
            return StreamAction::Ignore;
        }
        match event {
            StreamEvent::Line(l) => {
                if l.as_str().is_empty() {
                    return StreamAction::Skip;
                }
                match read_envelope(l.as_str()) {
                    Ok((step, data)) => StreamAction::Emit(envelope_step(step, data)),
                    Err(e) => {
                        self.phase = StreamPhase::Failed;
                        StreamAction::Fail(StreamError::Protocol { line: l, reason: e.to_string() })
                    },
                }
            },
            StreamEvent::ReadFailed(cause) => {
                self.phase = StreamPhase::Failed;
                StreamAction::Fail(StreamError::Read(cause))
            },
            StreamEvent::Closed => {
                self.phase = StreamPhase::Finished;
                StreamAction::Finish
            },
        }
    }
}

} // verus!

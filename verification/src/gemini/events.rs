//! The event stream of a run: which lines hold events, and what the events add up to.

use vstd::prelude::*;
use crate::text::{trim, trim_text, opt_text};
use crate::types::{
    copy_stats, error_info_view, stats_view, ErrorInfo, GeminiStreamEvent, MessageRole, RunStatus,
    StreamStats, StreamStatsView,
};

verus! {

/// The text of a line of the stream that holds an event: the trimmed line, unless it is blank
/// (blank lines are skipped).
pub fn event_line(line: &str) -> (r: Option<String>)
    ensures
        opt_text(r) == (if trim(line@).len() == 0 {
            None
        } else {
            Some(trim(line@))
        }),
{
    let t = trim_text(line);
    if t.as_str().unicode_len() == 0 {
        None
    } else {
        Some(t)
    }
}

/// What the events of a run add up to.
pub struct EventDigest {
    /// The assistant's messages, concatenated in order.
    pub response: Seq<char>,
    /// The session of the last `init` event.
    pub session_id: Option<Seq<char>>,
    /// The model of the last `init` event.
    pub model: Option<Seq<char>>,
    /// The status of the last `result` event (success when there is none).
    pub status: RunStatus,
    /// The statistics of the last `result` event.
    pub stats: Option<StreamStatsView>,
    /// The error of the last `result` event; before any `result` event sets it, the first
    /// `error` event is recorded as a `stream_error`.
    pub error: Option<(Seq<char>, Seq<char>)>,
}

/// The digest of no events.
pub open spec fn empty_digest() -> EventDigest {
    EventDigest {
        response: Seq::empty(),
        session_id: None,
        model: None,
        status: RunStatus::Success,
        stats: None,
        error: None,
    }
}

/// The digest `d` updated by one more event.
pub open spec fn digest_step(d: EventDigest, e: GeminiStreamEvent) -> EventDigest {
    match e {
        GeminiStreamEvent::Init { session_id, model, .. } => EventDigest {
            session_id: Some(session_id@),
            model: Some(model@),
            ..d
        },
        GeminiStreamEvent::Message { role, content, .. } => if role == MessageRole::Assistant {
            EventDigest { response: d.response + content@, ..d }
        } else {
            d
        },
        GeminiStreamEvent::Result { status, error, stats, .. } => EventDigest {
            status,
            stats: stats_view(stats),
            error: error_info_view(error),
            ..d
        },
        GeminiStreamEvent::Error { message, .. } => if d.error is None {
            EventDigest { error: Some(("stream_error"@, message@)), ..d }
        } else {
            d
        },
        _ => d,
    }
}

/// The digest of the events `es`, taken in order.
pub open spec fn digest_events(es: Seq<GeminiStreamEvent>) -> EventDigest
    decreases es.len(),
{
    if es.len() == 0 {
        empty_digest()
    } else {
        digest_step(digest_events(es.drop_last()), es.last())
    }
}


/// The text an event adds to the response: an assistant message's content.
pub open spec fn added_text(e: GeminiStreamEvent) -> Seq<char> {
    match e {
        GeminiStreamEvent::Message { role, content, .. } => if role == MessageRole::Assistant {
            content@
        } else {
            Seq::empty()
        },
        _ => Seq::empty(),
    }
}

proof fn lemma_step_response(d: EventDigest, e: GeminiStreamEvent)
    ensures
        digest_step(d, e).response == d.response + added_text(e),
{
    match e {
        GeminiStreamEvent::Message { role, .. } => {
            if role != MessageRole::Assistant {
                assert(d.response + added_text(e) =~= d.response);
            }
        },
        _ => {
            assert(d.response + added_text(e) =~= d.response);
        },
    }
}

/// What one more event adds to the response: an assistant message adds its content, and any other
/// event (a user message whatever its `delta`, an `init`, a tool event, a result, an error) adds
/// nothing. No events give an empty response.
pub proof fn lemma_event_response(es: Seq<GeminiStreamEvent>, e: GeminiStreamEvent)
    ensures
        digest_events(Seq::<GeminiStreamEvent>::empty()).response == Seq::<char>::empty(),
        e matches GeminiStreamEvent::Message { role, content, .. } ==> digest_events(
            es.push(e),
        ).response == (if role == MessageRole::Assistant {
            digest_events(es).response + content@
        } else {
            digest_events(es).response
        }),
        !(e is Message) ==> digest_events(es.push(e)).response == digest_events(es).response,
{
    assert(es.push(e).drop_last() =~= es);
}

/// The response of a run is built piecewise: the response of two stretches of events, one after
/// the other, is the first one's response followed by the second one's.
pub proof fn lemma_response_concatenates(a: Seq<GeminiStreamEvent>, b: Seq<GeminiStreamEvent>)
    ensures
        digest_events(a + b).response == digest_events(a).response + digest_events(b).response,
    decreases b.len(),
{
    if b.len() == 0 {
        assert(a + b =~= a);
        assert(digest_events(a).response + digest_events(b).response =~= digest_events(a).response);
    } else {
        assert((a + b).drop_last() =~= a + b.drop_last());
        assert((a + b).last() == b.last());
        lemma_response_concatenates(a, b.drop_last());
        lemma_step_response(digest_events(a + b.drop_last()), b.last());
        lemma_step_response(digest_events(b.drop_last()), b.last());
        assert(digest_events(a).response + digest_events(b.drop_last()).response + added_text(
            b.last(),
        ) =~= digest_events(a).response + (digest_events(b.drop_last()).response + added_text(
            b.last(),
        )));
    }
}

/// What the events of a run add up to, as values.
#[derive(Debug)]
pub struct EventSummary {
    pub response: String,
    pub session_id: Option<String>,
    pub model: Option<String>,
    pub status: RunStatus,
    pub stats: Option<StreamStats>,
    pub error: Option<ErrorInfo>,
}

/// The digest that a summary holds.
pub open spec fn summary_view(s: EventSummary) -> EventDigest {
    EventDigest {
        response: s.response@,
        session_id: opt_text(s.session_id),
        model: opt_text(s.model),
        status: s.status,
        stats: stats_view(s.stats),
        error: error_info_view(s.error),
    }
}

fn copy_error_info(e: &Option<ErrorInfo>) -> (r: Option<ErrorInfo>)
    ensures
        error_info_view(r) == error_info_view(*e),
{
    match e {
        Some(i) => Some(ErrorInfo { error_type: i.error_type.clone(), message: i.message.clone() }),
        None => None,
    }
}

/// What the events add up to.
pub fn summarize_events(events: &Vec<GeminiStreamEvent>) -> (r: EventSummary)
    ensures
        summary_view(r) == digest_events(events@),
{
    let mut s = EventSummary {
        response: String::new(),
        session_id: None,
        model: None,
        status: RunStatus::Success,
        stats: None,
        error: None,
    };
    let mut i: usize = 0;
    assert(events@.subrange(0, 0) =~= Seq::<GeminiStreamEvent>::empty());
    while i < events.len()
        invariant
            i <= events.len(),
            summary_view(s) == digest_events(events@.subrange(0, i as int)),
        decreases events.len() - i,
    {
        let ghost before = events@.subrange(0, i as int);
        let ghost after = events@.subrange(0, i + 1);
        assert(after.drop_last() =~= before);
        assert(after.last() == events@[i as int]);
        let ghost d = summary_view(s);
        match &events[i] {
            GeminiStreamEvent::Init { session_id, model, .. } => {
                s.session_id = Some(session_id.clone());
                s.model = Some(model.clone());
            },
            GeminiStreamEvent::Message { role, content, .. } => {
                if *role == MessageRole::Assistant {
                    s.response.append(content.as_str());
                }
            },
            GeminiStreamEvent::Result { status, error, stats, .. } => {
                s.status = *status;
                s.stats = match stats {
                    Some(st) => Some(copy_stats(st)),
                    None => None,
                };
                s.error = copy_error_info(error);
            },
            GeminiStreamEvent::Error { message, .. } => {
                if s.error.is_none() {
                    s.error = Some(
                        ErrorInfo {
                            error_type: String::from_str("stream_error"),
                            message: message.clone(),
                        },
                    );
                }
            },
            _ => {},
        }
        assert(summary_view(s) == digest_step(d, events@[i as int]));
        i = i + 1;
    }
    assert(events@.subrange(0, events.len() as int) =~= events@);
    s
}

} // verus!

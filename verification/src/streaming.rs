//! The event sequence of a streamed chat completion (server-sent events in
//! the OpenAI chunk format).

use vstd::prelude::*;

use crate::api::OpenAiErrorBody;
use crate::error::SetuError;
use crate::json::{Json, JsonValue};
use crate::text::decimal;

verus! {

/// The decimal text of an integer, with a leading `-` when negative.
pub open spec fn signed_decimal(n: int) -> Seq<char> {
    if n < 0 {
        "-"@ + decimal((-n) as nat)
    } else {
        decimal(n as nat)
    }
}

fn signed_decimal_string(n: i64) -> (r: String)
    ensures
        r@ == signed_decimal(n as int),
{
    if n < 0 {
        let m: i128 = -(n as i128);
        let mut s = String::from_str("-");
        s.append(crate::text::decimal_string(m as u64).as_str());
        s
    } else {
        crate::text::decimal_string(n as u64)
    }
}

/// The delta of a chunk: the role and the content, each when given.
pub open spec fn delta_entries(role: Option<Seq<char>>, content: Option<Seq<char>>) -> Seq<(Seq<char>, Json)> {
    (match role {
        Some(r) => seq![("role"@, Json::Str(r))],
        None => Seq::empty(),
    }) + (match content {
        Some(c) => seq![("content"@, Json::Str(c))],
        None => Seq::empty(),
    })
}

/// The single choice of a chunk.
pub open spec fn choice_json(role: Option<Seq<char>>, content: Option<Seq<char>>, finish: Option<Seq<char>>) -> Json {
    Json::Object(
        seq![
            ("index"@, Json::Number("0"@)),
            ("delta"@, Json::Object(delta_entries(role, content))),
            ("finish_reason"@, match finish {
                Some(f) => Json::Str(f),
                None => Json::Null,
            }),
        ],
    )
}

/// One chunk: id, object `chat.completion.chunk`, creation time, model, and
/// one choice whose delta carries the given role and content and whose
/// finish reason is the given one (or null).
pub open spec fn chunk_json(
    id: Seq<char>,
    created: i64,
    model: Seq<char>,
    role: Option<Seq<char>>,
    content: Option<Seq<char>>,
    finish: Option<Seq<char>>,
) -> Json {
    Json::Object(
        seq![
            ("id"@, Json::Str(id)),
            ("object"@, Json::Str("chat.completion.chunk"@)),
            ("created"@, Json::Number(signed_decimal(created as int))),
            ("model"@, Json::Str(model)),
            ("choices"@, Json::Array(seq![choice_json(role, content, finish)])),
        ],
    )
}

/// Build one chunk (see `chunk_json`).
pub fn chunk(id: &str, created: i64, model: &str, role: Option<&str>, content: Option<&str>, finish: Option<&str>) -> (r:
    JsonValue)
    ensures
        r@ == chunk_json(
            id@,
            created,
            model@,
            crate::api::opt_text(role),
            crate::api::opt_text(content),
            crate::api::opt_text(finish),
        ),
{
    let mut delta: Vec<(String, JsonValue)> = Vec::new();
    if let Some(r) = role {
        delta.push((String::from_str("role"), JsonValue::string(r)));
    }
    let ghost first = delta@;
    if let Some(c) = content {
        delta.push((String::from_str("content"), JsonValue::string(c)));
    }
    proof {
        crate::json::lemma_jview_entries(first, first.len() as int);
        crate::json::lemma_jview_entries(delta@, delta@.len() as int);
        let spec_delta = delta_entries(crate::api::opt_text(role), crate::api::opt_text(content));
        assert(crate::json::jview_entries(delta@, delta@.len() as int) =~= spec_delta);
    }
    let fin = match finish {
        Some(f) => JsonValue::string(f),
        None => JsonValue::Null,
    };
    let choice = vec![
        (String::from_str("index"), JsonValue::Number(String::from_str("0"))),
        (String::from_str("delta"), JsonValue::Object(delta)),
        (String::from_str("finish_reason"), fin),
    ];
    let ghost delta_spec = delta_entries(crate::api::opt_text(role), crate::api::opt_text(content));
    let ghost choice_spec = choice_json(
        crate::api::opt_text(role),
        crate::api::opt_text(content),
        crate::api::opt_text(finish),
    );
    proof {
        crate::json::lemma_jview_entries(choice@, 3);
        assert(choice@[1].1@ == Json::Object(delta_spec));
        assert(crate::json::jview_entries(choice@, 3) =~= match choice_spec {
            Json::Object(e) => e,
            _ => Seq::empty(),
        });
    }
    let choices = vec![JsonValue::Object(choice)];
    proof {
        crate::json::lemma_jview_seq(choices@, 1);
        assert(crate::json::jview_seq(choices@, 1) =~= seq![choice_spec]);
    }
    let o = vec![
        (String::from_str("id"), JsonValue::string(id)),
        (String::from_str("object"), JsonValue::string("chat.completion.chunk")),
        (String::from_str("created"), JsonValue::Number(signed_decimal_string(created))),
        (String::from_str("model"), JsonValue::string(model)),
        (String::from_str("choices"), JsonValue::Array(choices)),
    ];
    proof {
        crate::json::lemma_jview_entries(o@, 5);
        assert(o@[4].1@ == Json::Array(seq![choice_spec]));
        assert(o@[2].1@ == Json::Number(signed_decimal(created as int)));
        assert(crate::json::jview_entries(o@, 5) =~= seq![
            ("id"@, Json::Str(id@)),
            ("object"@, Json::Str("chat.completion.chunk"@)),
            ("created"@, Json::Number(signed_decimal(created as int))),
            ("model"@, Json::Str(model@)),
            ("choices"@, Json::Array(seq![choice_spec])),
        ]);
    }
    JsonValue::Object(o)
}

/// The JSON of an OpenAI-style error body.
pub open spec fn error_body_json(b: OpenAiErrorBody) -> Json {
    Json::Object(
        seq![
            ("error"@, Json::Object(
                seq![
                    ("message"@, Json::Str(b.error.message@)),
                    ("type"@, Json::Str(b.error.error_type@)),
                    ("param"@, match b.error.param {
                        Some(p) => Json::Str(p@),
                        None => Json::Null,
                    }),
                    ("code"@, Json::Str(b.error.code@)),
                ],
            )),
        ],
    )
}

impl OpenAiErrorBody {
    /// The body as JSON.
    pub fn to_json(&self) -> (r: JsonValue)
        ensures
            r@ == error_body_json(*self),
    {
        let param = match &self.error.param {
            Some(p) => JsonValue::String(p.clone()),
            None => JsonValue::Null,
        };
        let detail = vec![
            (String::from_str("message"), JsonValue::String(self.error.message.clone())),
            (String::from_str("type"), JsonValue::String(self.error.error_type.clone())),
            (String::from_str("param"), param),
            (String::from_str("code"), JsonValue::String(self.error.code.clone())),
        ];
        let ghost detail_spec = match error_body_json(*self) {
            Json::Object(x) => match x[0].1 {
                Json::Object(y) => y,
                _ => Seq::empty(),
            },
            _ => Seq::empty(),
        };
        proof {
            crate::json::lemma_jview_entries(detail@, 4);
            assert(crate::json::jview_entries(detail@, 4) =~= detail_spec);
        }
        let o = vec![(String::from_str("error"), JsonValue::Object(detail))];
        proof {
            crate::json::lemma_jview_entries(o@, 1);
            assert(crate::json::jview_entries(o@, 1) =~= seq![("error"@, Json::Object(detail_spec))]);
        }
        JsonValue::Object(o)
    }
}

/// The JSON error body of `e` (see `OpenAiErrorBody::from_error`).
pub open spec fn error_json(e: SetuError) -> Json {
    Json::Object(
        seq![
            ("error"@, Json::Object(
                seq![
                    ("message"@, Json::Str(crate::redact::redact_text_spec(e.message@))),
                    ("type"@, Json::Str(crate::error::family_name(crate::error::openai_family(e.kind)))),
                    ("param"@, Json::Null),
                    ("code"@, Json::Str(crate::error::kind_name(e.kind))),
                ],
            )),
        ],
    )
}

/// One server-sent event.
#[derive(Debug, PartialEq)]
pub enum StreamEvent {
    /// A data event holding a JSON chunk.
    Data(JsonValue),
    /// An event named `error` holding an error body.
    Error(JsonValue),
    /// The final `[DONE]` marker.
    Done,
}

/// The mathematical content of an event.
pub enum EventView {
    Data(Json),
    Error(Json),
    Done,
}

impl View for StreamEvent {
    type V = EventView;

    open spec fn view(&self) -> EventView {
        match self {
            StreamEvent::Data(j) => EventView::Data(j@),
            StreamEvent::Error(j) => EventView::Error(j@),
            StreamEvent::Done => EventView::Done,
        }
    }
}

/// The events for one item the provider yielded: a content chunk for a
/// text; for a failure its error event and the end.
pub open spec fn item_events_spec(
    id: Seq<char>,
    created: i64,
    model: Seq<char>,
    item: Result<String, SetuError>,
) -> Seq<EventView> {
    match item {
        Ok(t) => seq![EventView::Data(chunk_json(id, created, model, None, Some(t@), None))],
        Err(e) => seq![EventView::Error(error_json(e)), EventView::Done],
    }
}

/// The events that close a stream whose items all were texts: a chunk
/// finishing with `stop`, and the end.
pub open spec fn closing_spec(id: Seq<char>, created: i64, model: Seq<char>) -> Seq<EventView> {
    seq![EventView::Data(chunk_json(id, created, model, None, None, Some("stop"@))), EventView::Done]
}

/// Events for the provider's items from position `k` on: the events of each
/// item (see `item_events_spec`) up to and including the first failure; when
/// there is none, the closing events (see `closing_spec`).
pub open spec fn stream_body(
    id: Seq<char>,
    created: i64,
    model: Seq<char>,
    items: Seq<Result<String, SetuError>>,
    k: int,
) -> Seq<EventView>
    decreases items.len() - k,
{
    if k < 0 || k >= items.len() {
        closing_spec(id, created, model)
    } else if items[k] is Ok {
        item_events_spec(id, created, model, items[k]) + stream_body(id, created, model, items, k + 1)
    } else {
        item_events_spec(id, created, model, items[k])
    }
}

/// The whole stream: the chunk announcing the assistant role, then the body.
pub open spec fn stream_events_spec(
    id: Seq<char>,
    created: i64,
    model: Seq<char>,
    items: Seq<Result<String, SetuError>>,
) -> Seq<EventView> {
    seq![EventView::Data(chunk_json(id, created, model, Some("assistant"@), None, None))] + stream_body(
        id,
        created,
        model,
        items,
        0,
    )
}

/// The views of events.
pub open spec fn event_views(v: Seq<StreamEvent>) -> Seq<EventView> {
    v.map_values(|e: StreamEvent| e@)
}

/// The chunk that opens a stream, announcing the assistant role.
pub fn stream_opening(id: &str, created: i64, model: &str) -> (r: StreamEvent)
    ensures
        r@ == EventView::Data(chunk_json(id@, created, model@, Some("assistant"@), None, None)),
{
    proof {
        reveal_strlit("assistant");
    }
    StreamEvent::Data(chunk(id, created, model, Some("assistant"), None, None))
}

/// The events for one item the provider yielded (see `item_events_spec`);
/// after a failure the stream has ended.
pub fn stream_item_events(id: &str, created: i64, model: &str, item: &Result<String, SetuError>) -> (r: Vec<
    StreamEvent,
>)
    ensures
        event_views(r@) == item_events_spec(id@, created, model@, *item),
{
    let mut out: Vec<StreamEvent> = Vec::new();
    match item {
        Ok(t) => {
            out.push(StreamEvent::Data(chunk(id, created, model, None, Some(t.as_str()), None)));
            assert(event_views(out@) =~= item_events_spec(id@, created, model@, *item));
        },
        Err(e) => {
            let b = OpenAiErrorBody::from_error(e);
            let body = b.to_json();
            proof {
                let d1 = match error_body_json(b) {
                    Json::Object(x) => match x[0].1 {
                        Json::Object(y) => y,
                        _ => Seq::empty(),
                    },
                    _ => Seq::empty(),
                };
                let d2 = match error_json(*e) {
                    Json::Object(x) => match x[0].1 {
                        Json::Object(y) => y,
                        _ => Seq::empty(),
                    },
                    _ => Seq::empty(),
                };
                assert(d1 =~= d2);
                assert(body@ == error_json(*e));
            }
            out.push(StreamEvent::Error(body));
            out.push(StreamEvent::Done);
            assert(event_views(out@) =~= item_events_spec(id@, created, model@, *item));
        },
    }
    out
}

/// The events that close a stream whose items all were texts (see
/// `closing_spec`).
pub fn stream_closing(id: &str, created: i64, model: &str) -> (r: Vec<StreamEvent>)
    ensures
        event_views(r@) == closing_spec(id@, created, model@),
{
    proof {
        reveal_strlit("stop");
    }
    let mut out: Vec<StreamEvent> = Vec::new();
    out.push(StreamEvent::Data(chunk(id, created, model, None, None, Some("stop"))));
    out.push(StreamEvent::Done);
    assert(event_views(out@) =~= closing_spec(id@, created, model@));
    out
}

/// The events of a stream whose provider yielded `items`: the opening
/// chunk, then each item's events in turn (see `stream_body`).
pub fn stream_events(id: &str, created: i64, model: &str, items: &Vec<Result<String, SetuError>>) -> (r: Vec<
    StreamEvent,
>)
    ensures
        event_views(r@) == stream_events_spec(id@, created, model@, items@),
{
    let mut out: Vec<StreamEvent> = Vec::new();
    out.push(stream_opening(id, created, model));
    let ghost head = event_views(out@);
    assert(head =~= seq![EventView::Data(chunk_json(id@, created, model@, Some("assistant"@), None, None))]);
    let mut i: usize = 0;
    while i < items.len()
        invariant
            i <= items@.len(),
            event_views(out@) + stream_body(id@, created, model@, items@, i as int) == stream_events_spec(
                id@,
                created,
                model@,
                items@,
            ),
        decreases items.len() - i,
    {
        let ghost before = event_views(out@);
        let mut evs = stream_item_events(id, created, model, &items[i]);
        let failed = items[i].is_err();
        let ghost add = event_views(evs@);
        out.append(&mut evs);
        proof {
            assert(event_views(out@) =~= before + add);
        }
        if failed {
            proof {
                assert(stream_body(id@, created, model@, items@, i as int) == add);
                assert(event_views(out@) =~= before + stream_body(id@, created, model@, items@, i as int));
            }
            return out;
        }
        proof {
            assert(before + stream_body(id@, created, model@, items@, i as int) =~= event_views(out@)
                + stream_body(id@, created, model@, items@, i + 1));
        }
        i = i + 1;
    }
    let ghost before = event_views(out@);
    let mut tail = stream_closing(id, created, model);
    let ghost add = event_views(tail@);
    out.append(&mut tail);
    proof {
        assert(event_views(out@) =~= before + add);
    }
    out
}

} // verus!

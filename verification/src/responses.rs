//! The `/v1/responses` endpoint: turning its input into chat messages, and
//! the response objects and stream events it answers with.
use vstd::prelude::*;
use crate::error::{invalid_bare, ApiError, ApiErrorV};
use crate::json::{
    ji64, jat, jget, jget_opt, jstr, jstring, jviews, lemma_view_fields, lemma_view_items, object,
    oview, or_str, owned, view_fields, Json, JsonV,
};
use crate::outside::{
    is_v4_simple, new_v4_simple_string, parse_json, parsed_json, utc_now_timestamp,
};
use crate::text::{
    char_views, chars_of, eq_chars, is_blank, is_blank_str, lemma_split_join, lemma_split_single,
    split, split_chars, starts_with,
    starts_with_chars, string_of, sub_chars, trim, trim_chars, views,
};

pub use crate::api_chat::VideoConfig;

verus! {

/// A request to `/v1/responses`: either chat `messages`, or an `input` that
/// is a string, a list of strings, a list of messages or one message.
#[derive(Debug)]
pub struct ResponsesRequest {
    pub model: String,
    pub input: Option<Json>,
    pub messages: Option<Vec<Json>>,
    pub stream: Option<bool>,
    pub thinking: Option<String>,
    pub video_config: Option<VideoConfig>,
}

/// The position of the first field named `k`, from position `i` on.
pub open spec fn field_index(fs: Seq<(Seq<char>, JsonV)>, k: Seq<char>, i: int) -> Option<int>
    decreases fs.len() - i,
{
    if i < 0 || i >= fs.len() {
        None
    } else if fs[i].0 == k {
        Some(i)
    } else {
        field_index(fs, k, i + 1)
    }
}

pub proof fn lemma_field_index_from(fs: Seq<(Seq<char>, JsonV)>, k: Seq<char>, i: int)
    requires
        0 <= i,
    ensures
        field_index(fs, k, i) matches Some(y) ==> i <= y < fs.len() && fs[y].0 == k,
        field_index(fs, k, i) is None ==> forall|y: int| i <= y < fs.len() ==> #[trigger] fs[y].0 != k,
    decreases fs.len() - i,
{
    if i < fs.len() && fs[i].0 != k {
        lemma_field_index_from(fs, k, i + 1);
    }
}

/// `fs` with the value of its first field named `k` replaced by `v`.
pub open spec fn replace_field(fs: Seq<(Seq<char>, JsonV)>, k: Seq<char>, v: JsonV) -> Seq<
    (Seq<char>, JsonV),
> {
    Seq::new(
        fs.len(),
        |i: int|
            if field_index(fs, k, 0) == Some(i) {
                (k, v)
            } else {
                fs[i]
            },
    )
}

/// An object of the given fields.
pub open spec fn obj(fs: Seq<(Seq<char>, JsonV)>) -> JsonV {
    JsonV::Object(fs)
}

/// A Responses-style content block in chat form: `input_text` becomes a
/// `text` block, `input_image` with a URL an `image_url` block; any other
/// block stays as it is.
pub open spec fn normalize_block(b: JsonV) -> JsonV {
    match jstr(jget(b, "type"@)) {
        Some(t) => if t == "input_text"@ {
            obj(
                seq![
                    ("type"@, JsonV::Str("text"@)),
                    ("text"@, JsonV::Str(or_str(jstr(jget(b, "text"@)), ""@))),
                ],
            )
        } else if t == "input_image"@ {
            let url = match jstr(jget_opt(jget(b, "image_url"@), "url"@)) {
                Some(u) => u,
                None => or_str(jstr(jget(b, "url"@)), ""@),
            };
            if url.len() > 0 {
                obj(
                    seq![
                        ("type"@, JsonV::Str("image_url"@)),
                        ("image_url"@, obj(seq![("url"@, JsonV::Str(url))])),
                    ],
                )
            } else {
                b
            }
        } else {
            b
        },
        None => b,
    }
}

/// Each block in chat form.
pub open spec fn normalize_blocks(arr: Seq<JsonV>) -> Seq<JsonV> {
    arr.map_values(|b: JsonV| normalize_block(b))
}

/// A message in chat form: when its content is an array, each block is normalized.
pub open spec fn normalize(msg: JsonV) -> JsonV {
    match jget(msg, "content"@) {
        Some(JsonV::Array(arr)) => match msg {
            JsonV::Object(fs) => JsonV::Object(
                replace_field(fs, "content"@, JsonV::Array(normalize_blocks(arr))),
            ),
            _ => msg,
        },
        _ => msg,
    }
}

/// A user message with the text `t`.
pub open spec fn user_message(t: Seq<char>) -> JsonV {
    obj(seq![("role"@, JsonV::Str("user"@)), ("content"@, JsonV::Str(t))])
}

/// The chat messages of a Responses request.
pub open spec fn request_messages(messages: Option<Seq<JsonV>>, input: Option<JsonV>) -> Result<
    Seq<JsonV>,
    ApiErrorV,
> {
    if messages matches Some(list) && list.len() > 0 {
        Ok(messages->0.map_values(|m: JsonV| normalize(m)))
    } else {
        match input {
            Some(JsonV::Str(t)) => if is_blank(t) {
                Err(invalid_bare("input cannot be empty"@))
            } else {
                Ok(seq![user_message(t)])
            },
            Some(JsonV::Array(arr)) => if arr.len() == 0 {
                Err(invalid_bare("input cannot be empty"@))
            } else if forall|i: int| 0 <= i < arr.len() ==> #[trigger] arr[i] is Str {
                Ok(arr.map_values(|v: JsonV| user_message(or_str(jstr(Some(v)), ""@))))
            } else if forall|i: int|
                0 <= i < arr.len() ==> #[trigger] jget(arr[i], "role"@) is Some {
                Ok(arr.map_values(|m: JsonV| normalize(m)))
            } else {
                Err(invalid_bare("input is required"@))
            },
            Some(j) => if jget(j, "role"@) is Some {
                Ok(seq![normalize(j)])
            } else {
                Err(invalid_bare("input is required"@))
            },
            None => Err(invalid_bare("input is required"@)),
        }
    }
}

/// The token counts of a usage report: prompt, completion and total, the
/// total defaulting to the sum of the other two.
pub open spec fn usage_counts(usage: Option<JsonV>) -> (int, int, int) {
    let i = match ji64(jget_opt(usage, "prompt_tokens"@)) {
        Some(n) => n,
        None => 0,
    };
    let o = match ji64(jget_opt(usage, "completion_tokens"@)) {
        Some(n) => n,
        None => 0,
    };
    let t = match ji64(jget_opt(usage, "total_tokens"@)) {
        Some(n) => n,
        None => i + o,
    };
    (i, o, t)
}

/// The assistant message of a response, with the text `text`.
pub open spec fn output_message(msg_id: Seq<char>, text: Seq<char>) -> JsonV {
    obj(
        seq![
            ("id"@, JsonV::Str(msg_id)),
            ("type"@, JsonV::Str("message"@)),
            ("role"@, JsonV::Str("assistant"@)),
            (
                "content"@,
                JsonV::Array(
                    seq![
                        obj(
                            seq![
                                ("type"@, JsonV::Str("output_text"@)),
                                ("text"@, JsonV::Str(text)),
                            ],
                        ),
                    ],
                ),
            ),
        ],
    )
}

/// A completed response carrying `text`.
pub open spec fn text_response(
    model: Seq<char>,
    created: int,
    text: Seq<char>,
    usage: Option<JsonV>,
    response_id: Seq<char>,
    msg_id: Seq<char>,
) -> JsonV {
    let (i, o, t) = usage_counts(usage);
    obj(
        seq![
            ("id"@, JsonV::Str(response_id)),
            ("object"@, JsonV::Str("response"@)),
            ("created"@, JsonV::Int(created)),
            ("created_at"@, JsonV::Int(created)),
            ("status"@, JsonV::Str("completed"@)),
            ("model"@, JsonV::Str(model)),
            ("output"@, JsonV::Array(seq![output_message(msg_id, text)])),
            ("output_text"@, JsonV::Str(text)),
            (
                "usage"@,
                obj(
                    seq![
                        ("input_tokens"@, JsonV::Int(i)),
                        ("output_tokens"@, JsonV::Int(o)),
                        ("total_tokens"@, JsonV::Int(t)),
                    ],
                ),
            ),
        ],
    )
}

/// A response id: `resp-` and a random (version 4) UUID in simple form.
pub open spec fn is_response_id(s: Seq<char>) -> bool {
    exists|u: Seq<char>| is_v4_simple(u) && s == "resp-"@ + u
}

/// A message id: `msg-` and a random (version 4) UUID in simple form.
pub open spec fn is_message_id(s: Seq<char>) -> bool {
    exists|u: Seq<char>| is_v4_simple(u) && s == "msg-"@ + u
}

/// `j` is a completed response carrying `text`, under fresh ids.
pub open spec fn is_text_response(
    j: JsonV,
    model: Seq<char>,
    created: int,
    text: Seq<char>,
    usage: Option<JsonV>,
) -> bool {
    exists|rid: Seq<char>, mid: Seq<char>|
        is_response_id(rid) && is_message_id(mid) && j == text_response(
            model,
            created,
            text,
            usage,
            rid,
            mid,
        )
}

/// The text of a collected chat completion: its first choice's message content.
pub open spec fn collected_text(result: JsonV) -> Seq<char> {
    or_str(
        jstr(jget_opt(jget_opt(jat(jget(result, "choices"@), 0), "message"@), "content"@)),
        ""@,
    )
}

/// The event that opens a response stream.
pub open spec fn created_event(response_id: Seq<char>, created: int, model: Seq<char>) -> JsonV {
    obj(
        seq![
            ("type"@, JsonV::Str("response.created"@)),
            (
                "response"@,
                obj(
                    seq![
                        ("id"@, JsonV::Str(response_id)),
                        ("object"@, JsonV::Str("response"@)),
                        ("created"@, JsonV::Int(created)),
                        ("created_at"@, JsonV::Int(created)),
                        ("status"@, JsonV::Str("in_progress"@)),
                        ("model"@, JsonV::Str(model)),
                    ],
                ),
            ),
        ],
    )
}

/// The event carrying a piece of the response text.
pub open spec fn delta_event(response_id: Seq<char>, delta: Seq<char>) -> JsonV {
    obj(
        seq![
            ("type"@, JsonV::Str("response.output_text.delta"@)),
            ("response_id"@, JsonV::Str(response_id)),
            ("output_index"@, JsonV::Int(0)),
            ("content_index"@, JsonV::Int(0)),
            ("delta"@, JsonV::Str(delta)),
        ],
    )
}

/// The event carrying the whole response text once it is complete.
pub open spec fn done_event(response_id: Seq<char>, text: Seq<char>) -> JsonV {
    obj(
        seq![
            ("type"@, JsonV::Str("response.output_text.done"@)),
            ("response_id"@, JsonV::Str(response_id)),
            ("output_index"@, JsonV::Int(0)),
            ("content_index"@, JsonV::Int(0)),
            ("text"@, JsonV::Str(text)),
        ],
    )
}

/// The event that closes a response stream.
pub open spec fn completed_event(
    response_id: Seq<char>,
    msg_id: Seq<char>,
    created: int,
    model: Seq<char>,
    text: Seq<char>,
) -> JsonV {
    obj(
        seq![
            ("type"@, JsonV::Str("response.completed"@)),
            (
                "response"@,
                obj(
                    seq![
                        ("id"@, JsonV::Str(response_id)),
                        ("object"@, JsonV::Str("response"@)),
                        ("created"@, JsonV::Int(created)),
                        ("created_at"@, JsonV::Int(created)),
                        ("status"@, JsonV::Str("completed"@)),
                        ("model"@, JsonV::Str(model)),
                        ("output"@, JsonV::Array(seq![output_message(msg_id, text)])),
                    ],
                ),
            ),
        ],
    )
}

/// The piece of text that a chat completion chunk carries: the content of
/// its first choice's delta.
pub open spec fn chunk_delta(val: JsonV) -> Option<Seq<char>> {
    jstr(jget_opt(jget_opt(jat(jget(val, "choices"@), 0), "delta"@), "content"@))
}

/// `s` with every leading occurrence of `p` removed (`str::trim_start_matches`).
pub open spec fn strip_prefixes(s: Seq<char>, p: Seq<char>) -> Seq<char>
    decreases s.len(),
{
    if p.len() > 0 && starts_with(s, p) {
        strip_prefixes(s.skip(p.len() as int), p)
    } else {
        s
    }
}

/// The payload of one line of a server-sent event stream: the text after
/// `data: ` on a `data:` line, unless it is the `[DONE]` marker.
pub open spec fn line_payload(raw: Seq<char>) -> Option<Seq<char>> {
    let line = trim(raw);
    if !starts_with(line, "data: "@) {
        None
    } else {
        let payload = trim(strip_prefixes(line, "data: "@));
        if payload == "[DONE]"@ {
            None
        } else {
            Some(payload)
        }
    }
}

/// The payloads of the `data:` lines among `lines`, in order.
pub open spec fn payloads_of(lines: Seq<Seq<char>>) -> Seq<Seq<char>>
    decreases lines.len(),
{
    if lines.len() == 0 {
        Seq::empty()
    } else {
        let rest = payloads_of(lines.drop_last());
        match line_payload(lines.last()) {
            Some(p) => rest.push(p),
            None => rest,
        }
    }
}

/// The piece of text that a `data:` payload carries: the delta of the chat
/// completion chunk it holds, when it is JSON.
pub open spec fn payload_delta(payload: Seq<char>) -> Option<Seq<char>> {
    match parsed_json(payload) {
        Some(v) => chunk_delta(v),
        None => None,
    }
}

/// The pieces of text that the payloads `ps` carry, in order.
pub open spec fn deltas_of(ps: Seq<Seq<char>>) -> Seq<Seq<char>>
    decreases ps.len(),
{
    if ps.len() == 0 {
        Seq::empty()
    } else {
        let r = deltas_of(ps.drop_last());
        match payload_delta(ps.last()) {
            Some(d) => r.push(d),
            None => r,
        }
    }
}

/// The pieces of text that a chunk of an event stream carries, in order.
pub open spec fn chunk_deltas(chunk: Seq<char>) -> Seq<Seq<char>> {
    deltas_of(payloads_of(split(chunk, '\n')))
}

/// The concatenation of `ds`.
pub open spec fn concat_all(ds: Seq<Seq<char>>) -> Seq<char>
    decreases ds.len(),
{
    if ds.len() == 0 {
        Seq::empty()
    } else {
        concat_all(ds.drop_last()) + ds.last()
    }
}

/// The delta events of the pieces `ds`, in order.
pub open spec fn delta_events(response_id: Seq<char>, ds: Seq<Seq<char>>) -> Seq<JsonV> {
    Seq::new(ds.len(), |i: int| delta_event(response_id, ds[i]))
}

/// A field holding a string.
fn str_field(name: &str, value: &str) -> (r: (String, Json))
    ensures
        r.0@ == name@,
        r.1@ == JsonV::Str(value@),
{
    (owned(name), jstring(value))
}

/// A field holding a string.
fn string_field(name: &str, value: String) -> (r: (String, Json))
    ensures
        r.0@ == name@,
        r.1@ == JsonV::Str(value@),
{
    (owned(name), Json::Str(value))
}

/// The string under `key` of an optional document.
fn str_under<'a>(obj: Option<&'a Json>, key: &str) -> (r: Option<&'a String>)
    ensures
        match r {
            Some(s) => jstr(jget_opt(oview(obj), key@)) == Some(s@),
            None => jstr(jget_opt(oview(obj), key@)) is None,
        },
{
    match obj {
        Some(o) => match o.get(key) {
            Some(v) => v.as_str(),
            None => None,
        },
        None => None,
    }
}

/// `v.get(key)` on an optional document.
fn get_under<'a>(obj: Option<&'a Json>, key: &str) -> (r: Option<&'a Json>)
    ensures
        oview(r) == jget_opt(oview(obj), key@),
{
    match obj {
        Some(o) => o.get(key),
        None => None,
    }
}

/// A content block in chat form.
pub fn normalize_block_json(b: &Json) -> (r: Json)
    ensures
        r@ == normalize_block(b@),
{
    match str_under(Some(b), "type") {
        Some(t) => {
            if crate::text::str_eq(t.as_str(), "input_text") {
                let text = match str_under(Some(b), "text") {
                    Some(x) => x.clone(),
                    None => owned(""),
                };
                let mut f: Vec<(String, Json)> = Vec::new();
                f.push(str_field("type", "text"));
                f.push(string_field("text", text));
                let ghost fv = f@;
                let r = object(f);
                assert(view_fields(fv) =~= seq![
                    ("type"@, JsonV::Str("text"@)),
                    ("text"@, JsonV::Str(or_str(jstr(jget(b@, "text"@)), ""@))),
                ]);
                return r;
            }
            if crate::text::str_eq(t.as_str(), "input_image") {
                let url = match str_under(get_under(Some(b), "image_url"), "url") {
                    Some(u) => u.clone(),
                    None => match str_under(Some(b), "url") {
                        Some(u) => u.clone(),
                        None => owned(""),
                    },
                };
                if !url.as_str().is_empty() {
                    let ghost uv = url@;
                    let mut inner: Vec<(String, Json)> = Vec::new();
                    inner.push(string_field("url", url));
                    let ghost iv = inner@;
                    let inner_json = object(inner);
                    assert(view_fields(iv) =~= seq![("url"@, JsonV::Str(uv))]);
                    let mut f: Vec<(String, Json)> = Vec::new();
                    f.push(str_field("type", "image_url"));
                    f.push((owned("image_url"), inner_json));
                    let ghost fv = f@;
                    let r = object(f);
                    assert(view_fields(fv) =~= seq![
                        ("type"@, JsonV::Str("image_url"@)),
                        ("image_url"@, obj(seq![("url"@, JsonV::Str(uv))])),
                    ]);
                    return r;
                }
            }
            b.clone_json()
        },
        None => b.clone_json(),
    }
}

/// A message in chat form: `input_text` blocks become `text` blocks and
/// `input_image` blocks with a URL become `image_url` blocks; everything
/// else is kept.
pub fn normalize_message(msg: &Json) -> (r: Json)
    ensures
        r@ == normalize(msg@),
{
    let arr = match msg.get("content") {
        Some(c) => match c.as_array() {
            Some(a) => a,
            None => return msg.clone_json(),
        },
        None => return msg.clone_json(),
    };
    let mut blocks: Vec<Json> = Vec::new();
    let mut i: usize = 0;
    while i < arr.len()
        invariant
            i <= arr.len(),
            jviews(blocks@) == normalize_blocks(jviews(arr@).take(i as int)),
        decreases arr.len() - i,
    {
        let nb = normalize_block_json(&arr[i]);
        let ghost prev = blocks@;
        assert(jviews(prev).len() == i);
        blocks.push(nb);
        assert(jviews(blocks@).len() == i + 1);
        assert forall|k: int| 0 <= k < i + 1 implies #[trigger] jviews(blocks@)[k] == normalize_blocks(jviews(arr@).take(i + 1))[k] by {
            if k < i {
                assert(jviews(blocks@)[k] == jviews(prev)[k]);
            }
        }
        assert(jviews(blocks@) =~= normalize_blocks(jviews(arr@).take(i + 1)));
        i += 1;
    }
    assert(jviews(arr@).take(arr@.len() as int) =~= jviews(arr@));
    proof {
        lemma_view_items(blocks@);
    }
    let new_content = Json::Array(blocks);
    match msg {
        Json::Object(fields) => {
            proof {
                lemma_view_fields(fields@);
            }
            let ghost fs = view_fields(fields@);
            let ghost v = JsonV::Array(normalize_blocks(jviews(arr@)));
            let ghost target = replace_field(fs, "content"@, v);
            let mut out: Vec<(String, Json)> = Vec::new();
            let mut replaced = false;
            let mut j: usize = 0;
            assert(view_fields(out@) =~= target.take(0));
            while j < fields.len()
                invariant
                    j <= fields.len(),
                    fs == view_fields(fields@),
                    fs.len() == fields@.len(),
                    forall|k: int|
                        0 <= k < fields@.len() ==> #[trigger] fs[k] == (
                            fields@[k].0@,
                            fields@[k].1@,
                        ),
                    new_content@ == v,
                    target == replace_field(fs, "content"@, v),
                    view_fields(out@) == target.take(j as int),
                    replaced ==> (field_index(fs, "content"@, 0) matches Some(x) && x < j),
                    !replaced ==> field_index(fs, "content"@, 0) == field_index(
                        fs,
                        "content"@,
                        j as int,
                    ),
                decreases fields.len() - j,
            {
                let ghost prev = out@;
                let hit = !replaced && crate::text::str_eq(fields[j].0.as_str(), "content");
                if hit {
                    out.push((fields[j].0.clone(), new_content.clone_json()));
                    replaced = true;
                    assert(target[j as int] == ("content"@, v));
                } else {
                    proof {
                        lemma_field_index_from(fs, "content"@, j + 1);
                    }
                    out.push((fields[j].0.clone(), fields[j].1.clone_json()));
                    assert(target[j as int] == fs[j as int]);
                }
                assert(out@.drop_last() == prev);
                assert(view_fields(out@) =~= target.take(j + 1));
                j += 1;
            }
            assert(target.take(fields@.len() as int) =~= target);
            Json::Object(out)
        },
        _ => msg.clone_json(),
    }
}

/// The chat messages of the given messages, each in chat form.
fn normalize_all(list: &Vec<Json>) -> (r: Vec<Json>)
    ensures
        jviews(r@) == jviews(list@).map_values(|m: JsonV| normalize(m)),
{
    let mut out: Vec<Json> = Vec::new();
    let mut i: usize = 0;
    while i < list.len()
        invariant
            i <= list.len(),
            jviews(out@) == jviews(list@).take(i as int).map_values(|m: JsonV| normalize(m)),
        decreases list.len() - i,
    {
        let m = normalize_message(&list[i]);
        let ghost prev = out@;
        assert(jviews(prev).len() == i);
        out.push(m);
        assert(jviews(out@).len() == i + 1);
        assert forall|k: int| 0 <= k < i + 1 implies #[trigger] jviews(out@)[k] == jviews(
            list@,
        ).take(i + 1).map_values(|m: JsonV| normalize(m))[k] by {
            if k < i {
                assert(jviews(out@)[k] == jviews(prev)[k]);
            }
        }
        assert(jviews(out@) =~= jviews(list@).take(i + 1).map_values(|m: JsonV| normalize(m)));
        i += 1;
    }
    assert(jviews(list@).take(list@.len() as int) =~= jviews(list@));
    out
}

/// A user message with the text `t`.
fn user_message_json(t: &str) -> (r: Json)
    ensures
        r@ == user_message(t@),
{
    let mut f: Vec<(String, Json)> = Vec::new();
    f.push(str_field("role", "user"));
    f.push(str_field("content", t));
    let ghost fv = f@;
    let r = object(f);
    assert(view_fields(fv) =~= seq![("role"@, JsonV::Str("user"@)), ("content"@, JsonV::Str(t@))]);
    r
}

/// The views of optional chat messages.
pub open spec fn opt_jviews(m: Option<Vec<Json>>) -> Option<Seq<JsonV>> {
    match m {
        Some(v) => Some(jviews(v@)),
        None => None,
    }
}

/// The view of an optional document.
pub open spec fn opt_view(j: Option<Json>) -> Option<JsonV> {
    match j {
        Some(v) => Some(v@),
        None => None,
    }
}

fn input_error(message: &str) -> (e: ApiError)
    ensures
        e@ == invalid_bare(message@),
{
    ApiError::invalid_request(owned(message))
}

/// The chat messages of a Responses request. Non-empty `messages` are taken
/// as they are, in chat form. Otherwise `input` is used: a non-blank string
/// is one user message; a non-empty list of strings is one user message per
/// string; a non-empty list of messages is taken in chat form; one message is
/// taken in chat form. Anything else is refused.
pub fn build_messages(req: &ResponsesRequest) -> (r: Result<Vec<Json>, ApiError>)
    ensures
        match r {
            Ok(v) => request_messages(opt_jviews(req.messages), opt_view(req.input)) == Ok::<
                Seq<JsonV>,
                ApiErrorV,
            >(jviews(v@)),
            Err(e) => request_messages(opt_jviews(req.messages), opt_view(req.input)) == Err::<
                Seq<JsonV>,
                ApiErrorV,
            >(e@),
        },
{
    match &req.messages {
        Some(list) => {
            if list.len() > 0 {
                return Ok(normalize_all(list));
            }
        },
        None => {},
    }
    let input = match &req.input {
        Some(i) => i,
        None => return Err(input_error("input is required")),
    };
    match input {
        Json::Str(t) => {
            if is_blank_str(t.as_str()) {
                return Err(input_error("input cannot be empty"));
            }
            let mut v: Vec<Json> = Vec::new();
            v.push(user_message_json(t.as_str()));
            assert(jviews(v@) =~= seq![user_message(t@)]);
            Ok(v)
        },
        Json::Array(arr) => {
            proof {
                lemma_view_items(arr@);
            }
            let ghost av = jviews(arr@);
            if arr.len() == 0 {
                return Err(input_error("input cannot be empty"));
            }
            let mut all_strings = true;
            let mut i: usize = 0;
            while i < arr.len()
                invariant
                    i <= arr.len(),
                    av == jviews(arr@),
                    all_strings <==> forall|k: int| 0 <= k < i ==> #[trigger] av[k] is Str,
                decreases arr.len() - i,
            {
                assert(av[i as int] == arr@[i as int]@);
                if !arr[i].is_string() {
                    all_strings = false;
                }
                i += 1;
            }
            if all_strings {
                let mut msgs: Vec<Json> = Vec::new();
                let mut i: usize = 0;
                while i < arr.len()
                    invariant
                        i <= arr.len(),
                        av == jviews(arr@),
                        jviews(msgs@) == av.take(i as int).map_values(
                            |v: JsonV| user_message(or_str(jstr(Some(v)), ""@)),
                        ),
                    decreases arr.len() - i,
                {
                    assert(av[i as int] == arr@[i as int]@);
                    let ghost prev = msgs@;
                    assert(jviews(prev).len() == i);
                    match arr[i].as_str() {
                        Some(t) => msgs.push(user_message_json(t.as_str())),
                        None => msgs.push(user_message_json("")),
                    }
                    assert(jviews(msgs@).len() == i + 1);
                    assert forall|k: int| 0 <= k < i + 1 implies #[trigger] jviews(msgs@)[k]
                        == av.take(i + 1).map_values(
                        |v: JsonV| user_message(or_str(jstr(Some(v)), ""@)),
                    )[k] by {
                        if k < i {
                            assert(jviews(msgs@)[k] == jviews(prev)[k]);
                        }
                    }
                    assert(jviews(msgs@) =~= av.take(i + 1).map_values(
                        |v: JsonV| user_message(or_str(jstr(Some(v)), ""@)),
                    ));
                    i += 1;
                }
                assert(av.take(arr@.len() as int) =~= av);
                if msgs.len() == 0 {
                    return Err(input_error("input cannot be empty"));
                }
                return Ok(msgs);
            }
            let mut all_roles = true;
            let mut i: usize = 0;
            while i < arr.len()
                invariant
                    i <= arr.len(),
                    av == jviews(arr@),
                    all_roles <==> forall|k: int|
                        0 <= k < i ==> #[trigger] jget(av[k], "role"@) is Some,
                decreases arr.len() - i,
            {
                assert(av[i as int] == arr@[i as int]@);
                if arr[i].get("role").is_none() {
                    all_roles = false;
                }
                i += 1;
            }
            if all_roles {
                return Ok(normalize_all(arr));
            }
            Err(input_error("input is required"))
        },
        _ => {
            if input.get("role").is_some() {
                let mut v: Vec<Json> = Vec::new();
                v.push(normalize_message(input));
                assert(jviews(v@) =~= seq![normalize(input@)]);
                Ok(v)
            } else {
                Err(input_error("input is required"))
            }
        },
    }
}

/// The sum of the prompt and completion counts of a usage report fits in an `i64`.
pub open spec fn usage_sum_fits(usage: Option<JsonV>) -> bool {
    let (i, o, _) = usage_counts(usage);
    i64::MIN <= i + o <= i64::MAX
}

/// An `i64` count under `key` of a usage report, or zero.
fn count_under(usage: Option<&Json>, key: &str) -> (r: i64)
    ensures
        r == (match ji64(jget_opt(oview(usage), key@)) {
            Some(n) => n,
            None => 0,
        }),
{
    match get_under(usage, key) {
        Some(v) => match v.as_i64() {
            Some(n) => n,
            None => 0,
        },
        None => 0,
    }
}

/// A completed response carrying `text`, under the given ids. The usage
/// counts come from `usage` (`prompt_tokens`, `completion_tokens`,
/// `total_tokens`); a missing count is zero, a missing total the sum of the
/// other two.
pub fn response_from_text_with_ids(
    model: &str,
    created: i64,
    text: &str,
    usage: Option<&Json>,
    response_id: &str,
    msg_id: &str,
) -> (r: Json)
    requires
        usage_sum_fits(oview(usage)),
    ensures
        r@ == text_response(model@, created as int, text@, oview(usage), response_id@, msg_id@),
{
    let input_tokens = count_under(usage, "prompt_tokens");
    let output_tokens = count_under(usage, "completion_tokens");
    let sum = input_tokens + output_tokens;
    let total_tokens = match get_under(usage, "total_tokens") {
        Some(v) => match v.as_i64() {
            Some(n) => n,
            None => sum,
        },
        None => sum,
    };
    let mut part: Vec<(String, Json)> = Vec::new();
    part.push(str_field("type", "output_text"));
    part.push(str_field("text", text));
    let ghost pv = part@;
    let part_json = object(part);
    assert(view_fields(pv) =~= seq![
        ("type"@, JsonV::Str("output_text"@)),
        ("text"@, JsonV::Str(text@)),
    ]);
    let mut content: Vec<Json> = Vec::new();
    content.push(part_json);
    let message = output_message_json(msg_id, Json::Array(content));
    proof {
        lemma_view_items(content@);
        assert(jviews(content@) =~= seq![obj(seq![
            ("type"@, JsonV::Str("output_text"@)),
            ("text"@, JsonV::Str(text@)),
        ])]);
    }
    assert(message@ == output_message(msg_id@, text@));
    let mut output: Vec<Json> = Vec::new();
    output.push(message);
    let output_json = Json::Array(output);
    proof {
        lemma_view_items(output@);
        assert(jviews(output@) =~= seq![output_message(msg_id@, text@)]);
    }
    let mut counts: Vec<(String, Json)> = Vec::new();
    counts.push((owned("input_tokens"), Json::Int(input_tokens as i128)));
    counts.push((owned("output_tokens"), Json::Int(output_tokens as i128)));
    counts.push((owned("total_tokens"), Json::Int(total_tokens as i128)));
    let ghost cv = counts@;
    let counts_json = object(counts);
    let mut f: Vec<(String, Json)> = Vec::new();
    f.push(str_field("id", response_id));
    f.push(str_field("object", "response"));
    f.push((owned("created"), Json::Int(created as i128)));
    f.push((owned("created_at"), Json::Int(created as i128)));
    f.push(str_field("status", "completed"));
    f.push(str_field("model", model));
    f.push((owned("output"), output_json));
    f.push(str_field("output_text", text));
    f.push((owned("usage"), counts_json));
    let ghost fv = f@;
    let r = object(f);
    let ghost (ci, co, ct) = usage_counts(oview(usage));
    assert(view_fields(cv) =~= seq![
        ("input_tokens"@, JsonV::Int(ci)),
        ("output_tokens"@, JsonV::Int(co)),
        ("total_tokens"@, JsonV::Int(ct)),
    ]);
    assert(view_fields(fv) =~= match text_response(
        model@,
        created as int,
        text@,
        oview(usage),
        response_id@,
        msg_id@,
    ) {
        JsonV::Object(fs) => fs,
        _ => Seq::empty(),
    });
    r
}

/// The assistant message of a response, with the content `content`.
fn output_message_json(msg_id: &str, content: Json) -> (r: Json)
    ensures
        r@ == obj(
            seq![
                ("id"@, JsonV::Str(msg_id@)),
                ("type"@, JsonV::Str("message"@)),
                ("role"@, JsonV::Str("assistant"@)),
                ("content"@, content@),
            ],
        ),
{
    let ghost c = content@;
    let mut f: Vec<(String, Json)> = Vec::new();
    f.push(str_field("id", msg_id));
    f.push(str_field("type", "message"));
    f.push(str_field("role", "assistant"));
    f.push((owned("content"), content));
    let ghost fv = f@;
    let r = object(f);
    assert(view_fields(fv) =~= seq![
        ("id"@, JsonV::Str(msg_id@)),
        ("type"@, JsonV::Str("message"@)),
        ("role"@, JsonV::Str("assistant"@)),
        ("content"@, c),
    ]);
    r
}

/// A fresh id: `prefix` and a random (version 4) UUID in simple form.
fn fresh_id(prefix: &str) -> (r: String)
    ensures
        exists|u: Seq<char>| is_v4_simple(u) && r@ == prefix@ + u,
{
    let u = new_v4_simple_string();
    let mut r = owned(prefix);
    r.append(u.as_str());
    assert(is_v4_simple(u@) && r@ == prefix@ + u@);
    r
}

/// A completed response carrying `text`, under fresh random ids.
pub fn response_from_text(model: &str, created: i64, text: &str, usage: Option<&Json>) -> (r: Json)
    requires
        usage_sum_fits(oview(usage)),
    ensures
        is_text_response(r@, model@, created as int, text@, oview(usage)),
{
    let response_id = fresh_id("resp-");
    let msg_id = fresh_id("msg-");
    let r = response_from_text_with_ids(
        model,
        created,
        text,
        usage,
        response_id.as_str(),
        msg_id.as_str(),
    );
    assert(is_response_id(response_id@));
    assert(is_message_id(msg_id@));
    r
}

/// The response for a collected chat completion `result`: its first
/// choice's message content, created at its `created` time (else now), with
/// its usage report.
pub fn response_from_collected(model: &str, result: &Json) -> (r: Json)
    requires
        usage_sum_fits(jget(result@, "usage"@)),
    ensures
        match ji64(jget(result@, "created"@)) {
            Some(c) => is_text_response(
                r@,
                model@,
                c,
                collected_text(result@),
                jget(result@, "usage"@),
            ),
            None => exists|t: int|
                is_text_response(r@, model@, t, collected_text(result@), jget(result@, "usage"@)),
        },
{
    let choice = match result.get("choices") {
        Some(c) => c.get_index(0),
        None => None,
    };
    let message = get_under(choice, "message");
    let content: String = match str_under(message, "content") {
        Some(c) => c.clone(),
        None => owned(""),
    };
    assert(content@ == collected_text(result@));
    let created = match result.get("created") {
        Some(c) => match c.as_i64() {
            Some(n) => n,
            None => utc_now_timestamp(),
        },
        None => utc_now_timestamp(),
    };
    let r = response_from_text(model, created, content.as_str(), result.get("usage"));
    proof {
        if ji64(jget(result@, "created"@)) is None {
            assert(is_text_response(
                r@,
                model@,
                created as int,
                collected_text(result@),
                jget(result@, "usage"@),
            ));
        }
    }
    r
}

/// The state of a streamed response: its ids, its creation time, its model
/// and the text streamed so far.
pub struct ResponseStream {
    pub response_id: String,
    pub msg_id: String,
    pub created: i64,
    pub model: String,
    pub full_text: String,
}

impl ResponseStream {
    /// A stream that has sent nothing yet, under the given ids.
    pub fn with_ids(model: &str, response_id: &str, msg_id: &str, created: i64) -> (s: Self)
        ensures
            s.model@ == model@,
            s.response_id@ == response_id@,
            s.msg_id@ == msg_id@,
            s.created == created,
            s.full_text@ == Seq::<char>::empty(),
    {
        ResponseStream {
            response_id: owned(response_id),
            msg_id: owned(msg_id),
            created,
            model: owned(model),
            full_text: String::new(),
        }
    }

    /// A stream that has sent nothing yet, under fresh random ids, created now.
    pub fn new(model: &str) -> (s: Self)
        ensures
            s.model@ == model@,
            is_response_id(s.response_id@),
            is_message_id(s.msg_id@),
            s.full_text@ == Seq::<char>::empty(),
    {
        let response_id = fresh_id("resp-");
        let msg_id = fresh_id("msg-");
        let created = utc_now_timestamp();
        Self::with_ids(model, response_id.as_str(), msg_id.as_str(), created)
    }

    /// The event that opens the stream.
    pub fn created_event(&self) -> (r: Json)
        ensures
            r@ == created_event(self.response_id@, self.created as int, self.model@),
    {
        let mut f: Vec<(String, Json)> = Vec::new();
        f.push(str_field("id", self.response_id.as_str()));
        f.push(str_field("object", "response"));
        f.push((owned("created"), Json::Int(self.created as i128)));
        f.push((owned("created_at"), Json::Int(self.created as i128)));
        f.push(str_field("status", "in_progress"));
        f.push(str_field("model", self.model.as_str()));
        let ghost fv = f@;
        let inner = object(f);
        assert(view_fields(fv) =~= seq![
            ("id"@, JsonV::Str(self.response_id@)),
            ("object"@, JsonV::Str("response"@)),
            ("created"@, JsonV::Int(self.created as int)),
            ("created_at"@, JsonV::Int(self.created as int)),
            ("status"@, JsonV::Str("in_progress"@)),
            ("model"@, JsonV::Str(self.model@)),
        ]);
        let mut g: Vec<(String, Json)> = Vec::new();
        g.push(str_field("type", "response.created"));
        g.push((owned("response"), inner));
        let ghost gv = g@;
        let r = object(g);
        assert(view_fields(gv) =~= match created_event(
            self.response_id@,
            self.created as int,
            self.model@,
        ) {
            JsonV::Object(fs) => fs,
            _ => Seq::empty(),
        });
        r
    }

    /// Takes in one chat completion chunk. When it carries a piece of text,
    /// the piece is added to the streamed text and its delta event is
    /// answered; otherwise nothing changes and nothing is answered.
    pub fn on_chunk(&mut self, val: &Json) -> (r: Option<Json>)
        ensures
            final(self).response_id == old(self).response_id,
            final(self).msg_id == old(self).msg_id,
            final(self).created == old(self).created,
            final(self).model == old(self).model,
            match chunk_delta(val@) {
                Some(d) => final(self).full_text@ == old(self).full_text@ + d && (r matches Some(e)
                    && e@ == delta_event(old(self).response_id@, d)),
                None => final(self).full_text@ == old(self).full_text@ && r is None,
            },
    {
        let choice = match val.get("choices") {
            Some(c) => c.get_index(0),
            None => None,
        };
        let delta = get_under(choice, "delta");
        let piece = match str_under(delta, "content") {
            Some(d) => d,
            None => return None,
        };
        self.full_text.append(piece.as_str());
        let mut f: Vec<(String, Json)> = Vec::new();
        f.push(str_field("type", "response.output_text.delta"));
        f.push(str_field("response_id", self.response_id.as_str()));
        f.push((owned("output_index"), Json::Int(0)));
        f.push((owned("content_index"), Json::Int(0)));
        f.push(str_field("delta", piece.as_str()));
        let ghost fv = f@;
        let r = object(f);
        assert(view_fields(fv) =~= match delta_event(self.response_id@, piece@) {
            JsonV::Object(fs) => fs,
            _ => Seq::empty(),
        });
        Some(r)
    }

    /// Takes in one `data:` payload: when it is a chat completion chunk that
    /// carries a piece of text, the piece is added to the streamed text and
    /// its delta event is answered; otherwise nothing changes.
    pub fn on_payload(&mut self, payload: &str) -> (r: Option<Json>)
        ensures
            final(self).response_id == old(self).response_id,
            final(self).msg_id == old(self).msg_id,
            final(self).created == old(self).created,
            final(self).model == old(self).model,
            match payload_delta(payload@) {
                Some(d) => final(self).full_text@ == old(self).full_text@ + d && (r matches Some(e)
                    && e@ == delta_event(old(self).response_id@, d)),
                None => final(self).full_text@ == old(self).full_text@ && r is None,
            },
    {
        match parse_json(payload) {
            Some(val) => self.on_chunk(&val),
            None => None,
        }
    }

    /// Takes in one chunk of the processed event stream: every piece of text
    /// that its `data:` payloads carry is added, in order, to the streamed
    /// text, and their delta events are answered in the same order.
    pub fn on_text(&mut self, chunk: &str) -> (r: Vec<Json>)
        ensures
            final(self).response_id == old(self).response_id,
            final(self).msg_id == old(self).msg_id,
            final(self).created == old(self).created,
            final(self).model == old(self).model,
            final(self).full_text@ == old(self).full_text@ + concat_all(chunk_deltas(chunk@)),
            jviews(r@) == delta_events(old(self).response_id@, chunk_deltas(chunk@)),
    {
        let payloads = sse_payloads(chunk);
        let ghost pv = views(payloads@);
        let ghost start = self.full_text@;
        let ghost rid = self.response_id;
        let ghost mid = self.msg_id;
        let ghost model = self.model;
        let ghost created = self.created;
        let mut events: Vec<Json> = Vec::new();
        let mut i: usize = 0;
        assert(pv.take(0) =~= Seq::<Seq<char>>::empty());
        assert(start + concat_all(deltas_of(pv.take(0))) =~= start);
        assert(jviews(events@) =~= delta_events(rid@, deltas_of(pv.take(0))));
        while i < payloads.len()
            invariant
                i <= payloads.len(),
                pv == views(payloads@),
                self.response_id == rid,
                self.msg_id == mid,
                self.model == model,
                self.created == created,
                self.full_text@ == start + concat_all(deltas_of(pv.take(i as int))),
                jviews(events@) == delta_events(rid@, deltas_of(pv.take(i as int))),
            decreases payloads.len() - i,
        {
            assert(pv.take(i + 1).drop_last() == pv.take(i as int));
            assert(pv.take(i + 1).last() == payloads@[i as int]@);
            let ghost before = deltas_of(pv.take(i as int));
            let ghost prev = events@;
            match self.on_payload(payloads[i].as_str()) {
                Some(e) => {
                    let ghost d = payload_delta(payloads@[i as int]@)->0;
                    assert(jviews(prev).len() == before.len());
                    events.push(e);
                    let ghost after = before.push(d);
                    assert(after.drop_last() == before);
                    assert(concat_all(after) == concat_all(before) + d);
                    assert(jviews(events@).len() == after.len());
                    assert forall|k: int| 0 <= k < after.len() implies #[trigger] jviews(events@)[k]
                        == delta_events(rid@, after)[k] by {
                        if k < before.len() {
                            assert(jviews(events@)[k] == jviews(prev)[k]);
                        }
                    }
                    assert(jviews(events@) =~= delta_events(rid@, after));
                    assert(self.full_text@ =~= start + concat_all(after));
                },
                None => {},
            }
            i += 1;
        }
        assert(pv.take(payloads@.len() as int) =~= pv);
        events
    }

    /// The event carrying the whole streamed text.
    pub fn done_event(&self) -> (r: Json)
        ensures
            r@ == done_event(self.response_id@, self.full_text@),
    {
        let mut f: Vec<(String, Json)> = Vec::new();
        f.push(str_field("type", "response.output_text.done"));
        f.push(str_field("response_id", self.response_id.as_str()));
        f.push((owned("output_index"), Json::Int(0)));
        f.push((owned("content_index"), Json::Int(0)));
        f.push(str_field("text", self.full_text.as_str()));
        let ghost fv = f@;
        let r = object(f);
        assert(view_fields(fv) =~= match done_event(self.response_id@, self.full_text@) {
            JsonV::Object(fs) => fs,
            _ => Seq::empty(),
        });
        r
    }

    /// The event that closes the stream, with the whole streamed text.
    pub fn completed_event(&self) -> (r: Json)
        ensures
            r@ == completed_event(
                self.response_id@,
                self.msg_id@,
                self.created as int,
                self.model@,
                self.full_text@,
            ),
    {
        let mut part: Vec<(String, Json)> = Vec::new();
        part.push(str_field("type", "output_text"));
        part.push(str_field("text", self.full_text.as_str()));
        let ghost pv = part@;
        let part_json = object(part);
        assert(view_fields(pv) =~= seq![
            ("type"@, JsonV::Str("output_text"@)),
            ("text"@, JsonV::Str(self.full_text@)),
        ]);
        let mut content: Vec<Json> = Vec::new();
        content.push(part_json);
        let message = output_message_json(self.msg_id.as_str(), Json::Array(content));
        proof {
            lemma_view_items(content@);
            assert(jviews(content@) =~= seq![obj(seq![
                ("type"@, JsonV::Str("output_text"@)),
                ("text"@, JsonV::Str(self.full_text@)),
            ])]);
        }
        let mut output: Vec<Json> = Vec::new();
        output.push(message);
        let output_json = Json::Array(output);
        proof {
            lemma_view_items(output@);
            assert(jviews(output@) =~= seq![output_message(self.msg_id@, self.full_text@)]);
        }
        let mut f: Vec<(String, Json)> = Vec::new();
        f.push(str_field("id", self.response_id.as_str()));
        f.push(str_field("object", "response"));
        f.push((owned("created"), Json::Int(self.created as i128)));
        f.push((owned("created_at"), Json::Int(self.created as i128)));
        f.push(str_field("status", "completed"));
        f.push(str_field("model", self.model.as_str()));
        f.push((owned("output"), output_json));
        let ghost fv = f@;
        let inner = object(f);
        assert(view_fields(fv) =~= seq![
            ("id"@, JsonV::Str(self.response_id@)),
            ("object"@, JsonV::Str("response"@)),
            ("created"@, JsonV::Int(self.created as int)),
            ("created_at"@, JsonV::Int(self.created as int)),
            ("status"@, JsonV::Str("completed"@)),
            ("model"@, JsonV::Str(self.model@)),
            ("output"@, JsonV::Array(seq![output_message(self.msg_id@, self.full_text@)])),
        ]);
        let mut g: Vec<(String, Json)> = Vec::new();
        g.push(str_field("type", "response.completed"));
        g.push((owned("response"), inner));
        let ghost gv = g@;
        let r = object(g);
        assert(view_fields(gv) =~= match completed_event(
            self.response_id@,
            self.msg_id@,
            self.created as int,
            self.model@,
            self.full_text@,
        ) {
            JsonV::Object(fs) => fs,
            _ => Seq::empty(),
        });
        r
    }
}

/// `s` with every leading occurrence of `p` removed.
fn strip_prefixes_chars(s: &Vec<char>, p: &Vec<char>) -> (r: Vec<char>)
    ensures
        r@ == strip_prefixes(s@, p@),
{
    let mut rest = sub_chars(s, 0, s.len());
    assert(rest@ == s@);
    while p.len() > 0 && starts_with_chars(&rest, p)
        invariant
            strip_prefixes(s@, p@) == strip_prefixes(rest@, p@),
        decreases rest@.len(),
    {
        let next = sub_chars(&rest, p.len(), rest.len());
        assert(next@ == rest@.skip(p@.len() as int));
        rest = next;
    }
    rest
}

/// The payload of one line of an event stream, if it is a `data:` line
/// other than the `[DONE]` marker.
fn line_payload_exec(raw: &Vec<char>, data: &Vec<char>, done: &Vec<char>) -> (r: Option<String>)
    requires
        data@ == "data: "@,
        done@ == "[DONE]"@,
    ensures
        match r {
            Some(p) => line_payload(raw@) == Some(p@),
            None => line_payload(raw@) is None,
        },
{
    let line = trim_chars(raw);
    if !starts_with_chars(&line, data) {
        return None;
    }
    let stripped = strip_prefixes_chars(&line, data);
    let payload = trim_chars(&stripped);
    if eq_chars(&payload, done) {
        return None;
    }
    Some(string_of(&payload))
}

/// The payloads of the `data:` lines of a chunk of an event stream, in
/// order, leaving out the `[DONE]` marker.
pub fn sse_payloads(chunk: &str) -> (r: Vec<String>)
    ensures
        views(r@) == payloads_of(split(chunk@, '\n')),
{
    let text = chars_of(chunk);
    let lines = split_chars(&text, '\n');
    let data = chars_of("data: ");
    let done = chars_of("[DONE]");
    let ghost lv = char_views(lines@);
    let mut out: Vec<String> = Vec::new();
    let mut i: usize = 0;
    assert(lv.take(0) =~= Seq::<Seq<char>>::empty());
    assert(views(out@) =~= Seq::<Seq<char>>::empty());
    while i < lines.len()
        invariant
            i <= lines.len(),
            lv == char_views(lines@),
            data@ == "data: "@,
            done@ == "[DONE]"@,
            views(out@) == payloads_of(lv.take(i as int)),
        decreases lines.len() - i,
    {
        assert(lv.take(i + 1).drop_last() == lv.take(i as int));
        assert(lv.take(i + 1).last() == lines@[i as int]@);
        match line_payload_exec(&lines[i], &data, &done) {
            Some(p) => {
                let ghost prev = out@;
                let ghost pv = p@;
                out.push(p);
                assert(views(out@) =~= views(prev).push(pv));
            },
            None => {},
        }
        i += 1;
    }
    assert(lv.take(lines@.len() as int) =~= lv);
    out
}

/// One event of a server-sent event stream: `data: `, the payload and a blank line.
pub fn sse_data(payload: &str) -> (r: String)
    ensures
        r@ == "data: "@ + payload@ + "\n\n"@,
{
    let mut r = owned("data: ");
    r.append(payload);
    r.append("\n\n");
    r
}

/// `lookup` finds the field that `field_index` points at.
pub proof fn lemma_lookup_is_field_index(fs: Seq<(Seq<char>, JsonV)>, k: Seq<char>, i: int)
    requires
        0 <= i,
    ensures
        crate::json::lookup(fs, k, i) == (match field_index(fs, k, i) {
            Some(j) => Some(fs[j].1),
            None => None,
        }),
    decreases fs.len() - i,
{
    if i < fs.len() && fs[i].0 != k {
        lemma_lookup_is_field_index(fs, k, i + 1);
    }
}

/// Replacing a field keeps it the first field of its name.
pub proof fn lemma_replace_keeps_index(
    fs: Seq<(Seq<char>, JsonV)>,
    k: Seq<char>,
    v: JsonV,
    j: int,
    i: int,
)
    requires
        field_index(fs, k, 0) == Some(j),
        0 <= i <= j,
    ensures
        field_index(replace_field(fs, k, v), k, i) == Some(j),
    decreases j - i,
{
    lemma_field_index_from(fs, k, 0);
    let rf = replace_field(fs, k, v);
    if i < j {
        lemma_first_index_before(fs, k, j, i);
        assert(rf[i] == fs[i]);
        lemma_replace_keeps_index(fs, k, v, j, i + 1);
    } else {
        assert(rf[j] == (k, v));
    }
}

/// No field before the first field named `k` is named `k`.
pub proof fn lemma_first_index_before(fs: Seq<(Seq<char>, JsonV)>, k: Seq<char>, j: int, i: int)
    requires
        field_index(fs, k, 0) == Some(j),
        0 <= i < j,
    ensures
        fs[i].0 != k,
{
    lemma_field_index_prefix(fs, k, 0, i);
}

proof fn lemma_field_index_prefix(fs: Seq<(Seq<char>, JsonV)>, k: Seq<char>, a: int, i: int)
    requires
        0 <= a <= i,
        field_index(fs, k, a) matches Some(j) && i < j,
    ensures
        fs[i].0 != k,
        field_index(fs, k, i) == field_index(fs, k, a),
    decreases i - a,
{
    if a < i {
        lemma_field_index_from(fs, k, a);
        lemma_field_index_prefix(fs, k, a + 1, i);
    } else {
        lemma_field_index_from(fs, k, a);
    }
}

/// Normalizing a block twice is normalizing it once.
pub proof fn lemma_normalize_block_idempotent(b: JsonV)
    ensures
        normalize_block(normalize_block(b)) == normalize_block(b),
{
    reveal_strlit("text");
    reveal_strlit("input_text");
    reveal_strlit("input_image");
    reveal_strlit("image_url");
    assert("text"@.len() == 4);
    assert("input_text"@.len() == 10);
    assert("input_image"@.len() == 11);
    assert("image_url"@.len() == 9);
    assert("text"@ != "input_text"@);
    assert("text"@ != "input_image"@);
    assert("image_url"@ != "input_text"@);
    assert("image_url"@ != "input_image"@);
}

/// Putting a message in chat form twice gives what putting it in chat form
/// once gives.
pub proof fn normalize_is_idempotent(m: JsonV)
    ensures
        normalize(normalize(m)) == normalize(m),
{
    let k = "content"@;
    match jget(m, k) {
        Some(JsonV::Array(arr)) => {
            match m {
                JsonV::Object(fs) => {
                    let mapped = normalize_blocks(arr);
                    let v = JsonV::Array(mapped);
                    lemma_lookup_is_field_index(fs, k, 0);
                    lemma_field_index_from(fs, k, 0);
                    let j = field_index(fs, k, 0)->0;
                    let rf = replace_field(fs, k, v);
                    lemma_replace_keeps_index(fs, k, v, j, 0);
                    lemma_lookup_is_field_index(rf, k, 0);
                    assert(rf[j] == (k, v));
                    assert(jget(JsonV::Object(rf), k) == Some(v));
                    assert forall|i: int| 0 <= i < mapped.len() implies #[trigger] normalize_blocks(mapped)[i] == mapped[i] by {
                        lemma_normalize_block_idempotent(arr[i]);
                    }
                    assert(normalize_blocks(mapped) =~= mapped);
                    assert(replace_field(rf, k, v) =~= rf);
                },
                _ => {},
            }
        },
        _ => {},
    }
}

/// A Responses request that is accepted always yields at least one message.
pub proof fn built_messages_are_never_empty(messages: Option<Seq<JsonV>>, input: Option<JsonV>)
    ensures
        request_messages(messages, input) matches Ok(v) ==> v.len() > 0,
{
}

/// The text of the first content part of the first output message of a
/// response object: `output[0].content[0].text`.
pub open spec fn first_output_text(resp: Option<JsonV>) -> Option<Seq<char>> {
    jstr(jget_opt(jat(jget_opt(jat(jget_opt(resp, "output"@), 0), "content"@), 0), "text"@))
}

/// The field names of the response shapes that the text is read through
/// are distinct.
proof fn lemma_response_keys_distinct()
    ensures
        "id"@ != "content"@,
        "type"@ != "content"@,
        "role"@ != "content"@,
        "type"@ != "text"@,
        "id"@ != "output"@,
        "object"@ != "output"@,
        "created"@ != "output"@,
        "created_at"@ != "output"@,
        "status"@ != "output"@,
        "model"@ != "output"@,
        "id"@ != "output_text"@,
        "object"@ != "output_text"@,
        "created"@ != "output_text"@,
        "created_at"@ != "output_text"@,
        "status"@ != "output_text"@,
        "model"@ != "output_text"@,
        "output"@ != "output_text"@,
        "type"@ != "response"@,
        "response_id"@ != "text"@,
        "output_index"@ != "text"@,
        "content_index"@ != "text"@,
{
    reveal_strlit("id");
    assert("id"@.len() == 2);
    reveal_strlit("type");
    assert("type"@.len() == 4);
    reveal_strlit("role");
    assert("role"@.len() == 4);
    reveal_strlit("content");
    assert("content"@.len() == 7);
    reveal_strlit("text");
    assert("text"@.len() == 4);
    reveal_strlit("object");
    assert("object"@.len() == 6);
    reveal_strlit("created");
    assert("created"@.len() == 7);
    reveal_strlit("created_at");
    assert("created_at"@.len() == 10);
    reveal_strlit("status");
    assert("status"@.len() == 6);
    reveal_strlit("model");
    assert("model"@.len() == 5);
    reveal_strlit("output");
    assert("output"@.len() == 6);
    reveal_strlit("output_text");
    assert("output_text"@.len() == 11);
    reveal_strlit("response");
    assert("response"@.len() == 8);
    reveal_strlit("response_id");
    assert("response_id"@.len() == 11);
    reveal_strlit("output_index");
    assert("output_index"@.len() == 12);
    reveal_strlit("content_index");
    assert("content_index"@.len() == 13);
    assert("type"@[1] != "text"@[1]);
    assert("object"@[1] != "output"@[1]);
    assert("status"@[0] != "output"@[0]);
}

proof fn lemma_output_message_text(msg_id: Seq<char>, text: Seq<char>)
    ensures
        jstr(jget_opt(jat(jget(output_message(msg_id, text), "content"@), 0), "text"@)) == Some(
            text,
        ),
{
    lemma_response_keys_distinct();
    reveal_with_fuel(crate::json::lookup, 4);
}

/// The stream's closing events carry the whole streamed text: the done event's
/// `text`, and the text of the completed response's output message, are both
/// `text`; a response built at once carries it the same way, and as its
/// `output_text`.
pub proof fn closing_events_carry_the_streamed_text(
    response_id: Seq<char>,
    msg_id: Seq<char>,
    created: int,
    model: Seq<char>,
    text: Seq<char>,
    usage: Option<JsonV>,
)
    ensures
        jstr(jget(done_event(response_id, text), "text"@)) == Some(text),
        first_output_text(jget(completed_event(response_id, msg_id, created, model, text), "response"@))
            == Some(text),
        first_output_text(Some(text_response(model, created, text, usage, response_id, msg_id)))
            == Some(text),
        jstr(jget(text_response(model, created, text, usage, response_id, msg_id), "output_text"@))
            == Some(text),
{
    lemma_output_message_text(msg_id, text);
    lemma_response_keys_distinct();
    reveal_with_fuel(crate::json::lookup, 8);
}

/// A block in chat form is never an `input_text` block.
proof fn lemma_normalized_block_not_input_text(b: JsonV)
    ensures
        jget(normalize_block(b), "type"@) != Some(JsonV::Str("input_text"@)),
{
    reveal_strlit("text");
    reveal_strlit("input_text");
    reveal_strlit("image_url");
    assert("text"@.len() == 4);
    assert("input_text"@.len() == 10);
    assert("image_url"@.len() == 9);
}

/// The content of a message in chat form holds no `input_text` block.
proof fn lemma_normalized_content(m: JsonV)
    ensures
        jget(normalize(m), "content"@) matches Some(JsonV::Array(arr)) ==> forall|b: int|
            0 <= b < arr.len() ==> jget(#[trigger] arr[b], "type"@) != Some(
                JsonV::Str("input_text"@),
            ),
{
    let k = "content"@;
    match jget(m, k) {
        Some(JsonV::Array(arr)) => {
            match m {
                JsonV::Object(fs) => {
                    let mapped = normalize_blocks(arr);
                    let v = JsonV::Array(mapped);
                    lemma_lookup_is_field_index(fs, k, 0);
                    lemma_field_index_from(fs, k, 0);
                    let j = field_index(fs, k, 0)->0;
                    let rf = replace_field(fs, k, v);
                    lemma_replace_keeps_index(fs, k, v, j, 0);
                    lemma_lookup_is_field_index(rf, k, 0);
                    assert(rf[j] == (k, v));
                    assert(jget(normalize(m), k) == Some(v));
                    assert forall|b: int| 0 <= b < mapped.len() implies jget(
                        #[trigger] mapped[b],
                        "type"@,
                    ) != Some(JsonV::Str("input_text"@)) by {
                        lemma_normalized_block_not_input_text(arr[b]);
                    }
                },
                _ => {},
            }
        },
        _ => {},
    }
}

/// A user message with a string content is already in chat form.
proof fn lemma_user_message_in_chat_form(t: Seq<char>)
    ensures
        normalize(user_message(t)) == user_message(t),
        jget(user_message(t), "content"@) == Some(JsonV::Str(t)),
{
    reveal_strlit("role");
    reveal_strlit("content");
    assert("role"@.len() == 4);
    assert("content"@.len() == 7);
    reveal_with_fuel(crate::json::lookup, 3);
}

/// Whatever form the request gives its messages in (`messages`, a string, a
/// list of strings, a list of messages or one message), every message that
/// is built is in chat form: putting it in chat form changes nothing, and no
/// content block of it is an `input_text` block.
pub proof fn built_messages_are_in_chat_form(messages: Option<Seq<JsonV>>, input: Option<JsonV>)
    ensures
        request_messages(messages, input) matches Ok(v) ==> forall|i: int|
            0 <= i < v.len() ==> normalize(#[trigger] v[i]) == v[i] && (jget(v[i], "content"@) matches Some(
                JsonV::Array(arr),
            ) ==> forall|b: int|
                0 <= b < arr.len() ==> jget(#[trigger] arr[b], "type"@) != Some(
                    JsonV::Str("input_text"@),
                )),
{
    if let Ok(v) = request_messages(messages, input) {
        assert forall|i: int| 0 <= i < v.len() implies normalize(#[trigger] v[i]) == v[i] && (jget(
            v[i],
            "content"@,
        ) matches Some(JsonV::Array(arr)) ==> forall|b: int|
            0 <= b < arr.len() ==> jget(#[trigger] arr[b], "type"@) != Some(
                JsonV::Str("input_text"@),
            )) by {
            if messages matches Some(list) && list.len() > 0 {
                normalize_is_idempotent(messages->0[i]);
                lemma_normalized_content(messages->0[i]);
            } else {
                match input {
                    Some(JsonV::Str(t)) => {
                        lemma_user_message_in_chat_form(t);
                    },
                    Some(JsonV::Array(arr)) => {
                        if forall|q: int| 0 <= q < arr.len() ==> #[trigger] arr[q] is Str {
                            lemma_user_message_in_chat_form(or_str(jstr(Some(arr[i])), ""@));
                        } else {
                            normalize_is_idempotent(arr[i]);
                            lemma_normalized_content(arr[i]);
                        }
                    },
                    Some(j) => {
                        normalize_is_idempotent(j);
                        lemma_normalized_content(j);
                    },
                    None => {},
                }
            }
        }
    }
}

proof fn lemma_payloads_of_append(a: Seq<Seq<char>>, b: Seq<Seq<char>>)
    ensures
        payloads_of(a + b) == payloads_of(a) + payloads_of(b),
    decreases b.len(),
{
    if b.len() == 0 {
        assert(a + b == a);
        assert(payloads_of(a) + Seq::<Seq<char>>::empty() == payloads_of(a));
    } else {
        lemma_payloads_of_append(a, b.drop_last());
        assert((a + b).drop_last() == a + b.drop_last());
        assert((a + b).last() == b.last());
        match line_payload(b.last()) {
            Some(p) => {
                assert((payloads_of(a) + payloads_of(b.drop_last())).push(p) == payloads_of(a) + payloads_of(
                    b.drop_last(),
                ).push(p));
            },
            None => {},
        }
    }
}

proof fn lemma_deltas_of_append(a: Seq<Seq<char>>, b: Seq<Seq<char>>)
    ensures
        deltas_of(a + b) == deltas_of(a) + deltas_of(b),
    decreases b.len(),
{
    if b.len() == 0 {
        assert(a + b == a);
        assert(deltas_of(a) + Seq::<Seq<char>>::empty() == deltas_of(a));
    } else {
        lemma_deltas_of_append(a, b.drop_last());
        assert((a + b).drop_last() == a + b.drop_last());
        assert((a + b).last() == b.last());
        match payload_delta(b.last()) {
            Some(d) => {
                assert((deltas_of(a) + deltas_of(b.drop_last())).push(d) == deltas_of(a) + deltas_of(
                    b.drop_last(),
                ).push(d));
            },
            None => {},
        }
    }
}

/// Reading a chunk is reading its lines one after another: the pieces of
/// text of two chunks joined by a newline are those of the first, then those
/// of the second.
pub proof fn chunks_read_line_by_line(x: Seq<char>, y: Seq<char>)
    ensures
        chunk_deltas(x + "\n"@ + y) == chunk_deltas(x) + chunk_deltas(y),
{
    reveal_strlit("\n");
    assert("\n"@ == seq!['\n']);
    lemma_split_join(x, '\n', y);
    lemma_payloads_of_append(split(x, '\n'), split(y, '\n'));
    lemma_deltas_of_append(payloads_of(split(x, '\n')), payloads_of(split(y, '\n')));
}

/// A `data: ` line whose payload is a chat completion chunk with the piece
/// of text `d` in its first choice's delta gives exactly that piece.
pub proof fn data_line_gives_its_delta(line: Seq<char>, p: Seq<char>, d: Seq<char>)
    requires
        !line.contains('\n'),
        trim(line) == "data: "@ + p,
        trim(p) == p,
        p.len() > 0 && p[0] == '{',
        parsed_json(p) == Some(
            JsonV::Object(
                seq![
                    (
                        "choices"@,
                        JsonV::Array(
                            seq![
                                JsonV::Object(
                                    seq![
                                        (
                                            "delta"@,
                                            JsonV::Object(seq![("content"@, JsonV::Str(d))]),
                                        ),
                                    ],
                                ),
                            ],
                        ),
                    ),
                ],
            ),
        ),
    ensures
        chunk_deltas(line) == seq![d],
{
    reveal_strlit("data: ");
    reveal_strlit("[DONE]");
    assert("data: "@.len() == 6);
    assert("[DONE]"@.len() == 6);
    lemma_split_single(line, '\n');
    let l = "data: "@ + p;
    assert(starts_with(l, "data: "@)) by {
        assert(l.subrange(0, 6) =~= "data: "@);
    }
    assert(l.skip(6) =~= p);
    assert(!starts_with(p, "data: "@)) by {
        if starts_with(p, "data: "@) {
            assert(p.subrange(0, 6)[0] == p[0]);
        }
    }
    assert(strip_prefixes(l, "data: "@) == strip_prefixes(p, "data: "@));
    assert(p != "[DONE]"@) by {
        if p == "[DONE]"@ {
            assert(p[0] == '[');
        }
    }
    assert(line_payload(line) == Some(p));
    assert(seq![line].drop_last() == Seq::<Seq<char>>::empty());
    assert(payloads_of(seq![line]) == seq![p]) by {
        assert(seq![line].last() == line);
        assert(payloads_of(Seq::<Seq<char>>::empty()) == Seq::<Seq<char>>::empty());
        assert(Seq::<Seq<char>>::empty().push(p) == seq![p]);
    }
    assert(seq![p].drop_last() == Seq::<Seq<char>>::empty());
    assert(payload_delta(p) == Some(d));
    assert(deltas_of(seq![p]) == seq![d]) by {
        assert(seq![p].last() == p);
        assert(deltas_of(Seq::<Seq<char>>::empty()) == Seq::<Seq<char>>::empty());
        assert(Seq::<Seq<char>>::empty().push(d) == seq![d]);
    }
}

/// Without messages, a string input becomes one user message with that
/// text, and each string of a list of strings one user message, in order; a
/// blank string input is refused.
pub proof fn string_inputs_become_user_messages(
    messages: Option<Seq<JsonV>>,
    t: Seq<char>,
    ts: Seq<Seq<char>>,
)
    requires
        messages matches Some(list) ==> list.len() == 0,
    ensures
        !is_blank(t) ==> request_messages(messages, Some(JsonV::Str(t))) == Ok::<
            Seq<JsonV>,
            ApiErrorV,
        >(seq![JsonV::Object(seq![("role"@, JsonV::Str("user"@)), ("content"@, JsonV::Str(t))])]),
        is_blank(t) ==> request_messages(messages, Some(JsonV::Str(t))) == Err::<Seq<JsonV>, ApiErrorV>(
            invalid_bare("input cannot be empty"@),
        ),
        ts.len() > 0 ==> (request_messages(
            messages,
            Some(JsonV::Array(ts.map_values(|x: Seq<char>| JsonV::Str(x)))),
        ) matches Ok(v) && v.len() == ts.len() && forall|k: int|
            0 <= k < ts.len() ==> #[trigger] v[k] == JsonV::Object(
                seq![("role"@, JsonV::Str("user"@)), ("content"@, JsonV::Str(ts[k]))],
            )),
{
    let arr = ts.map_values(|x: Seq<char>| JsonV::Str(x));
    assert(forall|q: int| 0 <= q < arr.len() ==> #[trigger] arr[q] is Str);
}

} // verus!

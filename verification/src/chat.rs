//! Turning OpenAI-style chat messages into the single prompt and the list of
//! attachments that a Grok conversation takes, and the shapes of the request
//! sent upstream.
use vstd::prelude::*;
use crate::error::{invalid_bare, upstream, ApiError, ApiErrorV};
use crate::json::{
    jarr, jget, jget_opt, jstr, jviews, lemma_view_items, or_str, owned, Json, JsonV,
};
use crate::json::{bool_field, int_field, jstring, object, view_fields};
use crate::outside::{is_v4_hyphenated, new_v4_string};
use crate::text::{
    chars_of, decimal, decimal_string, is_blank, is_blank_str, join, join_strings, starts_with,
    starts_with_chars, str_eq, string_of_range, views,
};

verus! {

/// What one content item of a message contributes.
pub enum ItemOutcome {
    /// A text part of the message.
    Text(Seq<char>),
    /// An attachment: its kind (`image`, `audio` or `file`) and its URL or data.
    Attach(Seq<char>, Seq<char>),
    /// Nothing.
    Skip,
    /// The item is refused, with this message.
    Refuse(Seq<char>),
}

/// The message refusing audio input to a video model.
pub open spec fn video_audio_refusal() -> Seq<char> {
    "\u{89c6}\u{9891}\u{6a21}\u{578b}\u{4e0d}\u{652f}\u{6301} input_audio \u{7c7b}\u{578b}"@
}

/// The message refusing file input to a video model.
pub open spec fn video_file_refusal() -> Seq<char> {
    "\u{89c6}\u{9891}\u{6a21}\u{578b}\u{4e0d}\u{652f}\u{6301} file \u{7c7b}\u{578b}"@
}

/// The `type` of a content item, or the empty string.
pub open spec fn item_type(item: JsonV) -> Seq<char> {
    or_str(jstr(jget(item, "type"@)), ""@)
}

/// The string under `key` in `obj`, else `obj` itself when it is a string, else empty.
pub open spec fn field_or_self(obj: JsonV, key: Seq<char>) -> Seq<char> {
    match jstr(jget(obj, key)) {
        Some(u) => u,
        None => or_str(jstr(Some(obj)), ""@),
    }
}

/// The location of a `file` item: its `url`, else its `data`, else the item itself as a string.
pub open spec fn file_location(obj: JsonV) -> Seq<char> {
    match jstr(jget(obj, "url"@)) {
        Some(u) => u,
        None => field_or_self(obj, "data"@),
    }
}

/// An attachment of kind `kind` at `loc`, or nothing when `loc` is empty.
pub open spec fn attach_if_present(kind: Seq<char>, loc: Seq<char>) -> ItemOutcome {
    if loc.len() > 0 {
        ItemOutcome::Attach(kind, loc)
    } else {
        ItemOutcome::Skip
    }
}

/// What a content item contributes to its message; a video model refuses
/// audio and file items.
pub open spec fn item_outcome(item: JsonV, is_video: bool) -> ItemOutcome {
    let t = item_type(item);
    if t == "text"@ {
        match jstr(jget(item, "text"@)) {
            Some(x) => if !is_blank(x) {
                ItemOutcome::Text(x)
            } else {
                ItemOutcome::Skip
            },
            None => ItemOutcome::Skip,
        }
    } else if t == "image_url"@ {
        match jget(item, "image_url"@) {
            Some(o) => attach_if_present("image"@, field_or_self(o, "url"@)),
            None => ItemOutcome::Skip,
        }
    } else if t == "input_audio"@ {
        if is_video {
            ItemOutcome::Refuse(video_audio_refusal())
        } else {
            match jget(item, "input_audio"@) {
                Some(o) => attach_if_present("audio"@, field_or_self(o, "data"@)),
                None => ItemOutcome::Skip,
            }
        }
    } else if t == "file"@ {
        if is_video {
            ItemOutcome::Refuse(video_file_refusal())
        } else {
            match jget(item, "file"@) {
                Some(o) => attach_if_present("file"@, file_location(o)),
                None => ItemOutcome::Skip,
            }
        }
    } else {
        ItemOutcome::Skip
    }
}

/// Pairs of strings: (kind, location) attachments, or (role, text) entries.
pub type Pairs = Seq<(Seq<char>, Seq<char>)>;

/// What the content items of a message contribute, in order: its
/// attachments and its text parts, or the first refusal.
pub open spec fn items_outcome(items: Seq<JsonV>, is_video: bool) -> Result<
    (Pairs, Seq<Seq<char>>),
    Seq<char>,
>
    decreases items.len(),
{
    if items.len() == 0 {
        Ok((Seq::empty(), Seq::empty()))
    } else {
        match items_outcome(items.drop_last(), is_video) {
            Err(m) => Err(m),
            Ok((a, p)) => match item_outcome(items.last(), is_video) {
                ItemOutcome::Refuse(m) => Err(m),
                ItemOutcome::Text(x) => Ok((a, p.push(x))),
                ItemOutcome::Attach(k, d) => Ok((a.push((k, d)), p)),
                ItemOutcome::Skip => Ok((a, p)),
            },
        }
    }
}

/// The role of a message, `user` when it has none.
pub open spec fn message_role(msg: JsonV) -> Seq<char> {
    or_str(jstr(jget(msg, "role"@)), "user"@)
}

/// What a message contributes: a string content is one text part unless it
/// is blank; an array content contributes its items; any other content nothing.
pub open spec fn message_outcome(msg: JsonV, is_video: bool) -> Result<
    (Pairs, Seq<Seq<char>>),
    Seq<char>,
> {
    match jget(msg, "content"@) {
        Some(JsonV::Str(t)) => Ok(
            (Seq::empty(), if !is_blank(t) {
                seq![t]
            } else {
                Seq::empty()
            }),
        ),
        Some(JsonV::Array(list)) => items_outcome(list, is_video),
        _ => Ok((Seq::empty(), Seq::empty())),
    }
}

/// The attachments of all messages, and the (role, text) entries of the
/// messages that have text, the text being their parts joined by newlines;
/// or the first refusal.
pub open spec fn messages_outcome(msgs: Seq<JsonV>, is_video: bool) -> Result<
    (Pairs, Pairs),
    Seq<char>,
>
    decreases msgs.len(),
{
    if msgs.len() == 0 {
        Ok((Seq::empty(), Seq::empty()))
    } else {
        match messages_outcome(msgs.drop_last(), is_video) {
            Err(m) => Err(m),
            Ok((a, x)) => match message_outcome(msgs.last(), is_video) {
                Err(m) => Err(m),
                Ok((a2, parts)) => Ok(
                    (a + a2, if parts.len() > 0 {
                        x.push((message_role(msgs.last()), join(parts, "\n"@)))
                    } else {
                        x
                    }),
                ),
            },
        }
    }
}

/// The position of the last entry before `i` whose role is `user`.
pub open spec fn last_user_before(x: Pairs, i: int) -> Option<int>
    decreases i,
{
    if i <= 0 {
        None
    } else if x[i - 1].0 == "user"@ {
        Some(i - 1)
    } else {
        last_user_before(x, i - 1)
    }
}

/// One entry of the prompt: the last user entry as it is, any other as
/// `role: text`, an empty role reading `user`.
pub open spec fn render_entry(x: Pairs, k: int) -> Seq<char> {
    if last_user_before(x, x.len() as int) == Some(k) {
        x[k].1
    } else {
        (if x[k].0.len() == 0 {
            "user"@
        } else {
            x[k].0
        }) + ": "@ + x[k].1
    }
}

/// The prompt: the rendered entries, separated by blank lines.
pub open spec fn render_prompt(x: Pairs) -> Seq<char> {
    join(Seq::new(x.len(), |k: int| render_entry(x, k)), "\n\n"@)
}

/// What `MessageExtractor::extract` answers for `msgs`.
pub open spec fn extraction(msgs: Seq<JsonV>, is_video: bool) -> Result<
    (Seq<char>, Pairs),
    ApiErrorV,
> {
    match messages_outcome(msgs, is_video) {
        Err(m) => Err(invalid_bare(m)),
        Ok((a, x)) => Ok((render_prompt(x), a)),
    }
}

/// The views of a sequence of string pairs.
pub open spec fn pair_views(v: Seq<(String, String)>) -> Pairs {
    v.map_values(|p: (String, String)| (p.0@, p.1@))
}

/// An executable [`ItemOutcome`].
pub enum ItemResult {
    Text(String),
    Attach(String, String),
    Skip,
    Refuse(String),
}

impl View for ItemResult {
    type V = ItemOutcome;

    open spec fn view(&self) -> ItemOutcome {
        match self {
            ItemResult::Text(s) => ItemOutcome::Text(s@),
            ItemResult::Attach(k, d) => ItemOutcome::Attach(k@, d@),
            ItemResult::Skip => ItemOutcome::Skip,
            ItemResult::Refuse(m) => ItemOutcome::Refuse(m@),
        }
    }
}

/// `v.get(key).and_then(as_str)`, falling back to `v.as_str()`, then to the empty string.
fn field_or_self_exec(obj: &Json, key: &str) -> (r: String)
    ensures
        r@ == field_or_self(obj@, key@),
{
    match obj.get(key) {
        Some(v) => match v.as_str() {
            Some(u) => return u.clone(),
            None => {},
        },
        None => {},
    }
    match obj.as_str() {
        Some(u) => u.clone(),
        None => owned(""),
    }
}

/// The string under `key` of `obj`, if there is one.
fn str_field(obj: &Json, key: &str) -> (r: Option<String>)
    ensures
        match r {
            Some(s) => jstr(jget(obj@, key@)) == Some(s@),
            None => jstr(jget(obj@, key@)) is None,
        },
{
    match obj.get(key) {
        Some(v) => match v.as_str() {
            Some(u) => Some(u.clone()),
            None => None,
        },
        None => None,
    }
}

fn attach_exec(kind: &str, loc: String) -> (r: ItemResult)
    ensures
        r@ == attach_if_present(kind@, loc@),
{
    if !loc.as_str().is_empty() {
        ItemResult::Attach(owned(kind), loc)
    } else {
        ItemResult::Skip
    }
}

/// What a content item contributes to its message.
pub fn item_result(item: &Json, is_video: bool) -> (r: ItemResult)
    ensures
        r@ == item_outcome(item@, is_video),
{
    let t = match str_field(item, "type") {
        Some(t) => t,
        None => owned(""),
    };
    if str_eq(t.as_str(), "text") {
        match str_field(item, "text") {
            Some(x) => if !is_blank_str(x.as_str()) {
                ItemResult::Text(x)
            } else {
                ItemResult::Skip
            },
            None => ItemResult::Skip,
        }
    } else if str_eq(t.as_str(), "image_url") {
        match item.get("image_url") {
            Some(o) => attach_exec("image", field_or_self_exec(o, "url")),
            None => ItemResult::Skip,
        }
    } else if str_eq(t.as_str(), "input_audio") {
        if is_video {
            ItemResult::Refuse(
                owned("\u{89c6}\u{9891}\u{6a21}\u{578b}\u{4e0d}\u{652f}\u{6301} input_audio \u{7c7b}\u{578b}"),
            )
        } else {
            match item.get("input_audio") {
                Some(o) => attach_exec("audio", field_or_self_exec(o, "data")),
                None => ItemResult::Skip,
            }
        }
    } else if str_eq(t.as_str(), "file") {
        if is_video {
            ItemResult::Refuse(
                owned("\u{89c6}\u{9891}\u{6a21}\u{578b}\u{4e0d}\u{652f}\u{6301} file \u{7c7b}\u{578b}"),
            )
        } else {
            match item.get("file") {
                Some(o) => {
                    let loc = match str_field(o, "url") {
                        Some(u) => u,
                        None => field_or_self_exec(o, "data"),
                    };
                    attach_exec("file", loc)
                },
                None => ItemResult::Skip,
            }
        }
    } else {
        ItemResult::Skip
    }
}

/// What the content items `items` contribute: attachments and text parts.
pub fn items_result(items: &Vec<Json>, is_video: bool) -> (r: Result<
    (Vec<(String, String)>, Vec<String>),
    String,
>)
    ensures
        match r {
            Ok((a, p)) => items_outcome(jviews(items@), is_video) == Ok::<
                (Pairs, Seq<Seq<char>>),
                Seq<char>,
            >((pair_views(a@), views(p@))),
            Err(m) => items_outcome(jviews(items@), is_video) == Err::<
                (Pairs, Seq<Seq<char>>),
                Seq<char>,
            >(m@),
        },
{
    let mut attachments: Vec<(String, String)> = Vec::new();
    let mut parts: Vec<String> = Vec::new();
    let mut i: usize = 0;
    assert(jviews(items@).take(0) =~= Seq::<JsonV>::empty());
    assert(pair_views(attachments@) =~= Seq::<(Seq<char>, Seq<char>)>::empty());
    assert(views(parts@) =~= Seq::<Seq<char>>::empty());
    while i < items.len()
        invariant
            i <= items.len(),
            items_outcome(jviews(items@).take(i as int), is_video) == Ok::<
                (Pairs, Seq<Seq<char>>),
                Seq<char>,
            >((pair_views(attachments@), views(parts@))),
        decreases items.len() - i,
    {
        let ghost pre = jviews(items@).take(i as int);
        assert(jviews(items@).take(i + 1).drop_last() == pre);
        assert(jviews(items@).take(i + 1).last() == items@[i as int]@);
        match item_result(&items[i], is_video) {
            ItemResult::Refuse(m) => {
                proof {
                    lemma_items_outcome_err_prefix(jviews(items@), is_video, i as int + 1);
                }
                return Err(m);
            },
            ItemResult::Text(x) => {
                let ghost prev = parts@;
                let ghost xv = x@;
                parts.push(x);
                assert(views(parts@) =~= views(prev).push(xv));
            },
            ItemResult::Attach(k, d) => {
                let ghost prev = attachments@;
                attachments.push((k, d));
                assert(pair_views(attachments@) =~= pair_views(prev).push((k@, d@)));
            },
            ItemResult::Skip => {},
        }
        i += 1;
    }
    assert(jviews(items@).take(items@.len() as int) == jviews(items@));
    Ok((attachments, parts))
}

/// A refusal among the first `n` items is the refusal of all of them.
pub proof fn lemma_items_outcome_err_prefix(items: Seq<JsonV>, is_video: bool, n: int)
    requires
        0 <= n <= items.len(),
        items_outcome(items.take(n), is_video) is Err,
    ensures
        items_outcome(items, is_video) == items_outcome(items.take(n), is_video),
    decreases items.len() - n,
{
    if n < items.len() {
        assert(items.take(n + 1).drop_last() == items.take(n));
        lemma_items_outcome_err_prefix(items, is_video, n + 1);
    } else {
        assert(items.take(n) == items);
    }
}

/// A refusal among the first `n` messages is the refusal of all of them.
pub proof fn lemma_messages_outcome_err_prefix(msgs: Seq<JsonV>, is_video: bool, n: int)
    requires
        0 <= n <= msgs.len(),
        messages_outcome(msgs.take(n), is_video) is Err,
    ensures
        messages_outcome(msgs, is_video) == messages_outcome(msgs.take(n), is_video),
    decreases msgs.len() - n,
{
    if n < msgs.len() {
        assert(msgs.take(n + 1).drop_last() == msgs.take(n));
        lemma_messages_outcome_err_prefix(msgs, is_video, n + 1);
    } else {
        assert(msgs.take(n) == msgs);
    }
}

/// What a message contributes: attachments and text parts.
pub fn message_result(msg: &Json, is_video: bool) -> (r: Result<
    (Vec<(String, String)>, Vec<String>),
    String,
>)
    ensures
        match r {
            Ok((a, p)) => message_outcome(msg@, is_video) == Ok::<
                (Pairs, Seq<Seq<char>>),
                Seq<char>,
            >((pair_views(a@), views(p@))),
            Err(m) => message_outcome(msg@, is_video) == Err::<
                (Pairs, Seq<Seq<char>>),
                Seq<char>,
            >(m@),
        },
{
    match msg.get("content") {
        Some(content) => {
            match content {
                Json::Str(t) => {
                    let mut parts: Vec<String> = Vec::new();
                    if !is_blank_str(t.as_str()) {
                        parts.push(t.clone());
                    }
                    let a: Vec<(String, String)> = Vec::new();
                    assert(pair_views(a@) =~= Seq::<(Seq<char>, Seq<char>)>::empty());
                    assert(views(parts@) =~= (if !is_blank(t@) {
                        seq![t@]
                    } else {
                        Seq::<Seq<char>>::empty()
                    }));
                    Ok((a, parts))
                },
                Json::Array(list) => {
                    proof {
                        lemma_view_items(list@);
                    }
                    items_result(list, is_video)
                },
                _ => {
                    let a: Vec<(String, String)> = Vec::new();
                    let p: Vec<String> = Vec::new();
                    assert(pair_views(a@) =~= Seq::<(Seq<char>, Seq<char>)>::empty());
                    assert(views(p@) =~= Seq::<Seq<char>>::empty());
                    Ok((a, p))
                },
            }
        },
        None => {
            let a: Vec<(String, String)> = Vec::new();
            let p: Vec<String> = Vec::new();
            assert(pair_views(a@) =~= Seq::<(Seq<char>, Seq<char>)>::empty());
            assert(views(p@) =~= Seq::<Seq<char>>::empty());
            Ok((a, p))
        },
    }
}

/// The role of a message, `user` when it has none.
fn message_role_exec(msg: &Json) -> (r: String)
    ensures
        r@ == message_role(msg@),
{
    match str_field(msg, "role") {
        Some(r) => r,
        None => owned("user"),
    }
}

/// The position of the last entry of `x` whose role is `user`.
fn last_user_index(x: &Vec<(String, String)>) -> (r: Option<usize>)
    ensures
        match r {
            Some(k) => last_user_before(pair_views(x@), x.len() as int) == Some(k as int),
            None => last_user_before(pair_views(x@), x.len() as int) is None,
        },
{
    let ghost xv = pair_views(x@);
    let mut j: usize = x.len();
    while j > 0
        invariant
            j <= x.len(),
            xv == pair_views(x@),
            last_user_before(xv, x.len() as int) == last_user_before(xv, j as int),
        decreases j,
    {
        assert(xv[j - 1] == (x@[j - 1].0@, x@[j - 1].1@));
        if str_eq(x[j - 1].0.as_str(), "user") {
            return Some(j - 1);
        }
        j -= 1;
    }
    None
}

/// The prompt made of the (role, text) entries `x`.
pub fn render_prompt_exec(x: &Vec<(String, String)>) -> (r: String)
    ensures
        r@ == render_prompt(pair_views(x@)),
{
    let ghost xv = pair_views(x@);
    let last_user = last_user_index(x);
    let mut texts: Vec<String> = Vec::new();
    let mut i: usize = 0;
    assert(views(texts@) =~= Seq::new(0, |k: int| render_entry(xv, k)));
    while i < x.len()
        invariant
            i <= x.len(),
            xv == pair_views(x@),
            match last_user {
                Some(k) => last_user_before(xv, x.len() as int) == Some(k as int),
                None => last_user_before(xv, x.len() as int) is None,
            },
            views(texts@) == Seq::new(i as nat, |k: int| render_entry(xv, k)),
        decreases x.len() - i,
    {
        assert(xv[i as int] == (x@[i as int].0@, x@[i as int].1@));
        let is_last_user = match last_user {
            Some(k) => k == i,
            None => false,
        };
        let entry = if is_last_user {
            x[i].1.clone()
        } else {
            let mut e = if x[i].0.as_str().is_empty() {
                owned("user")
            } else {
                x[i].0.clone()
            };
            e.append(": ");
            e.append(x[i].1.as_str());
            e
        };
        assert(entry@ == render_entry(xv, i as int));
        let ghost prev = texts@;
        assert(views(prev).len() == i);
        texts.push(entry);
        assert(views(texts@).len() == i + 1);
        assert forall|k: int| 0 <= k < i + 1 implies #[trigger] views(texts@)[k] == render_entry(
            xv,
            k,
        ) by {
            if k < i {
                assert(views(texts@)[k] == views(prev)[k]);
            }
        }
        assert(views(texts@) =~= Seq::new((i + 1) as nat, |k: int| render_entry(xv, k)));
        i += 1;
    }
    join_strings(&texts, "\n\n")
}

/// Flattens chat messages into the prompt of a Grok conversation and its attachments.
pub struct MessageExtractor;

impl MessageExtractor {
    /// The prompt and the attachments of `messages`. Each message contributes
    /// its non-blank text parts, joined by newlines, and its image, audio and
    /// file items as (kind, location) attachments. In the prompt, the last
    /// user message stands as it is and every other message as `role: text`;
    /// the messages are separated by blank lines. A video model refuses audio
    /// and file items.
    pub fn extract(messages: &Vec<Json>, is_video: bool) -> (r: Result<
        (String, Vec<(String, String)>),
        ApiError,
    >)
        ensures
            match r {
                Ok((prompt, a)) => extraction(jviews(messages@), is_video) == Ok::<
                    (Seq<char>, Pairs),
                    ApiErrorV,
                >((prompt@, pair_views(a@))),
                Err(e) => extraction(jviews(messages@), is_video) == Err::<
                    (Seq<char>, Pairs),
                    ApiErrorV,
                >(e@),
            },
    {
        let ghost mv = jviews(messages@);
        let mut attachments: Vec<(String, String)> = Vec::new();
        let mut extracted: Vec<(String, String)> = Vec::new();
        let mut i: usize = 0;
        assert(mv.take(0) =~= Seq::<JsonV>::empty());
        assert(pair_views(attachments@) =~= Seq::<(Seq<char>, Seq<char>)>::empty());
        assert(pair_views(extracted@) =~= Seq::<(Seq<char>, Seq<char>)>::empty());
        while i < messages.len()
            invariant
                i <= messages.len(),
                mv == jviews(messages@),
                messages_outcome(mv.take(i as int), is_video) == Ok::<
                    (Pairs, Pairs),
                    Seq<char>,
                >((pair_views(attachments@), pair_views(extracted@))),
            decreases messages.len() - i,
        {
            assert(mv.take(i + 1).drop_last() == mv.take(i as int));
            assert(mv.take(i + 1).last() == messages@[i as int]@);
            let role = message_role_exec(&messages[i]);
            match message_result(&messages[i], is_video) {
                Err(m) => {
                    proof {
                        lemma_messages_outcome_err_prefix(mv, is_video, i as int + 1);
                    }
                    return Err(ApiError::invalid_request(m));
                },
                Ok((mut a, parts)) => {
                    let ghost prev_a = attachments@;
                    let ghost prev_x = extracted@;
                    let ghost av = a@;
                    attachments.append(&mut a);
                    assert(pair_views(attachments@) =~= pair_views(prev_a) + pair_views(av));
                    if parts.len() > 0 {
                        let text = join_strings(&parts, "\n");
                        extracted.push((role, text));
                        assert(pair_views(extracted@) =~= pair_views(prev_x).push(
                            (message_role(messages@[i as int]@), join(views(parts@), "\n"@)),
                        ));
                    }
                },
            }
            i += 1;
        }
        assert(mv.take(messages@.len() as int) == mv);
        let prompt = render_prompt_exec(&extracted);
        Ok((prompt, attachments))
    }
}


/// The browser-like headers that every conversation request carries.
pub open spec fn fixed_headers() -> Pairs {
    seq![
        ("Accept"@, "*/*"@),
        ("Accept-Encoding"@, "gzip, deflate, br, zstd"@),
        ("Accept-Language"@, "zh-CN,zh;q=0.9"@),
        ("Baggage"@, "sentry-environment=production,sentry-release=d6add6fb0460641fd482d767a335ef72b9b6abb8,sentry-public_key=b311e0f2690c81f25e2c4cf6d4f7ce1c"@),
        ("Cache-Control"@, "no-cache"@),
        ("Content-Type"@, "application/json"@),
        ("Origin"@, "https://grok.com"@),
        ("Pragma"@, "no-cache"@),
        ("Priority"@, "u=1, i"@),
        ("Referer"@, "https://grok.com/"@),
        ("Sec-Ch-Ua"@, "\"Google Chrome\";v=\"136\", \"Chromium\";v=\"136\", \"Not(A:Brand\";v=\"24\""@),
        ("Sec-Ch-Ua-Arch"@, "arm"@),
        ("Sec-Ch-Ua-Bitness"@, "64"@),
        ("Sec-Ch-Ua-Mobile"@, "?0"@),
        ("Sec-Ch-Ua-Model"@, ""@),
        ("Sec-Ch-Ua-Platform"@, "\"macOS\""@),
        ("Sec-Fetch-Dest"@, "empty"@),
        ("Sec-Fetch-Mode"@, "cors"@),
        ("Sec-Fetch-Site"@, "same-origin"@),
        ("User-Agent"@, "Mozilla/5.0 (Macintosh; Intel Mac OS X 10_15_7) AppleWebKit/537.36 (KHTML, like Gecko) Chrome/136.0.0.0 Safari/537.36"@),
    ]
}

/// The session token without its `sso=` prefix, if it has one.
pub open spec fn raw_token(token: Seq<char>) -> Seq<char> {
    if starts_with(token, "sso="@) {
        token.skip("sso="@.len() as int)
    } else {
        token
    }
}

/// The cookie of a conversation request: the session token and, when one is
/// configured, the Cloudflare clearance.
pub open spec fn session_cookie(token: Seq<char>, cf_clearance: Seq<char>) -> Seq<char> {
    if cf_clearance.len() == 0 {
        "sso="@ + raw_token(token)
    } else {
        "sso="@ + raw_token(token) + ";cf_clearance="@ + cf_clearance
    }
}

/// The headers of a conversation request, in order.
pub open spec fn chat_headers(
    token: Seq<char>,
    statsig_id: Seq<char>,
    request_id: Seq<char>,
    cf_clearance: Seq<char>,
) -> Pairs {
    fixed_headers() + seq![
        ("x-statsig-id"@, statsig_id),
        ("x-xai-request-id"@, request_id),
        ("Cookie"@, session_cookie(token, cf_clearance)),
    ]
}

/// A JSON array of strings.
pub open spec fn str_array(s: Seq<Seq<char>>) -> JsonV {
    JsonV::Array(Seq::new(s.len(), |i: int| JsonV::Str(s[i])))
}

/// The body of a conversation request.
pub open spec fn chat_payload(
    message: Seq<char>,
    model: Seq<char>,
    mode: Seq<char>,
    temporary: bool,
    files: Seq<Seq<char>>,
    images: Seq<Seq<char>>,
) -> JsonV {
    JsonV::Object(
        seq![
            ("temporary"@, JsonV::Bool(temporary)),
            ("modelName"@, JsonV::Str(model)),
            ("modelMode"@, JsonV::Str(mode)),
            ("message"@, JsonV::Str(message)),
            ("fileAttachments"@, str_array(files)),
            ("imageAttachments"@, str_array(images)),
            ("disableSearch"@, JsonV::Bool(false)),
            ("enableImageGeneration"@, JsonV::Bool(true)),
            ("returnImageBytes"@, JsonV::Bool(false)),
            ("returnRawGrokInXaiRequest"@, JsonV::Bool(false)),
            ("enableImageStreaming"@, JsonV::Bool(true)),
            ("imageGenerationCount"@, JsonV::Int(2)),
            ("forceConcise"@, JsonV::Bool(false)),
            ("toolOverrides"@, JsonV::Object(Seq::empty())),
            ("enableSideBySide"@, JsonV::Bool(true)),
            ("sendFinalMetadata"@, JsonV::Bool(true)),
            ("isReasoning"@, JsonV::Bool(false)),
            ("disableTextFollowUps"@, JsonV::Bool(false)),
            ("responseMetadata"@, response_metadata(model)),
            ("disableMemory"@, JsonV::Bool(false)),
            ("forceSideBySide"@, JsonV::Bool(false)),
            ("isAsyncChat"@, JsonV::Bool(false)),
            ("disableSelfHarmShortCircuit"@, JsonV::Bool(false)),
            ("deviceEnvInfo"@, device_env_info()),
        ],
    )
}

/// The response metadata of a conversation request.
pub open spec fn response_metadata(model: Seq<char>) -> JsonV {
    JsonV::Object(
        seq![
            (
                "modelConfigOverride"@,
                JsonV::Object(seq![("modelMap"@, JsonV::Object(Seq::empty()))]),
            ),
            ("requestModelDetails"@, JsonV::Object(seq![("modelId"@, JsonV::Str(model))])),
        ],
    )
}

/// The device that a conversation request claims to come from.
pub open spec fn device_env_info() -> JsonV {
    JsonV::Object(
        seq![
            ("darkModeEnabled"@, JsonV::Bool(false)),
            ("devicePixelRatio"@, JsonV::Int(2)),
            ("screenWidth"@, JsonV::Int(2056)),
            ("screenHeight"@, JsonV::Int(1329)),
            ("viewportWidth"@, JsonV::Int(2056)),
            ("viewportHeight"@, JsonV::Int(1083)),
        ],
    )
}

/// The session token without its `sso=` prefix.
fn raw_token_exec(token: &str) -> (r: String)
    ensures
        r@ == raw_token(token@),
{
    let t = chars_of(token);
    let prefix = chars_of("sso=");
    if starts_with_chars(&t, &prefix) {
        let r = string_of_range(&t, prefix.len(), t.len());
        assert(r@ == token@.skip("sso="@.len() as int));
        r
    } else {
        owned(token)
    }
}

/// The fixed headers.
fn fixed_headers_exec() -> (r: Vec<(String, String)>)
    ensures
        pair_views(r@) == fixed_headers(),
{
    let mut headers: Vec<(String, String)> = Vec::new();
    headers.push((owned("Accept"), owned("*/*")));
    headers.push((owned("Accept-Encoding"), owned("gzip, deflate, br, zstd")));
    headers.push((owned("Accept-Language"), owned("zh-CN,zh;q=0.9")));
    headers.push((owned("Baggage"), owned("sentry-environment=production,sentry-release=d6add6fb0460641fd482d767a335ef72b9b6abb8,sentry-public_key=b311e0f2690c81f25e2c4cf6d4f7ce1c")));
    headers.push((owned("Cache-Control"), owned("no-cache")));
    headers.push((owned("Content-Type"), owned("application/json")));
    headers.push((owned("Origin"), owned("https://grok.com")));
    headers.push((owned("Pragma"), owned("no-cache")));
    headers.push((owned("Priority"), owned("u=1, i")));
    headers.push((owned("Referer"), owned("https://grok.com/")));
    headers.push((owned("Sec-Ch-Ua"), owned("\"Google Chrome\";v=\"136\", \"Chromium\";v=\"136\", \"Not(A:Brand\";v=\"24\"")));
    headers.push((owned("Sec-Ch-Ua-Arch"), owned("arm")));
    headers.push((owned("Sec-Ch-Ua-Bitness"), owned("64")));
    headers.push((owned("Sec-Ch-Ua-Mobile"), owned("?0")));
    headers.push((owned("Sec-Ch-Ua-Model"), owned("")));
    headers.push((owned("Sec-Ch-Ua-Platform"), owned("\"macOS\"")));
    headers.push((owned("Sec-Fetch-Dest"), owned("empty")));
    headers.push((owned("Sec-Fetch-Mode"), owned("cors")));
    headers.push((owned("Sec-Fetch-Site"), owned("same-origin")));
    headers.push((owned("User-Agent"), owned("Mozilla/5.0 (Macintosh; Intel Mac OS X 10_15_7) AppleWebKit/537.36 (KHTML, like Gecko) Chrome/136.0.0.0 Safari/537.36")));
    assert(pair_views(headers@) =~= fixed_headers());
    headers
}

/// A JSON array of the strings `v`.
pub fn string_array(v: &Vec<String>) -> (r: Json)
    ensures
        r@ == str_array(views(v@)),
{
    let mut items: Vec<Json> = Vec::new();
    let mut i: usize = 0;
    while i < v.len()
        invariant
            i <= v.len(),
            jviews(items@) == Seq::new(i as nat, |k: int| JsonV::Str(views(v@)[k])),
        decreases v.len() - i,
    {
        let ghost prev = items@;
        assert(jviews(prev).len() == i);
        items.push(Json::Str(v[i].clone()));
        assert(jviews(items@).len() == i + 1);
        assert(views(v@)[i as int] == v@[i as int]@);
        assert forall|k: int| 0 <= k < i + 1 implies #[trigger] jviews(items@)[k] == JsonV::Str(
            views(v@)[k],
        ) by {
            if k < i {
                assert(jviews(items@)[k] == jviews(prev)[k]);
            }
        }
        assert(jviews(items@) =~= Seq::new((i + 1) as nat, |k: int| JsonV::Str(views(v@)[k])));
        i += 1;
    }
    proof {
        lemma_view_items(items@);
        assert(views(v@).len() == v@.len());
    }
    Json::Array(items)
}

/// Builds the headers and the body of a Grok conversation request.
pub struct ChatRequestBuilder;

impl ChatRequestBuilder {
    /// The headers of a conversation request, with the request id `request_id`.
    pub fn build_headers_with_id(
        token: &str,
        statsig_id: &str,
        request_id: &str,
        cf_clearance: &str,
    ) -> (r: Vec<(String, String)>)
        ensures
            pair_views(r@) == chat_headers(token@, statsig_id@, request_id@, cf_clearance@),
    {
        let mut headers = fixed_headers_exec();
        let ghost fixed = headers@;
        headers.push((owned("x-statsig-id"), owned(statsig_id)));
        headers.push((owned("x-xai-request-id"), owned(request_id)));
        let mut cookie = owned("sso=");
        cookie.append(raw_token_exec(token).as_str());
        if !cf_clearance.is_empty() {
            cookie.append(";cf_clearance=");
            cookie.append(cf_clearance);
        }
        headers.push((owned("Cookie"), cookie));
        assert(pair_views(fixed).len() == fixed.len());
        assert(fixed_headers().len() == 20);
        assert(pair_views(headers@).len() == 23);
        assert(pair_views(headers@) =~= chat_headers(
            token@,
            statsig_id@,
            request_id@,
            cf_clearance@,
        )) by {
            assert(pair_views(fixed) == fixed_headers());
            assert forall|k: int| 0 <= k < 20 implies #[trigger] pair_views(headers@)[k]
                == fixed_headers()[k] by {
                assert(headers@[k] == fixed[k]);
                assert(pair_views(fixed)[k] == (fixed[k].0@, fixed[k].1@));
            }
        }
        headers
    }

    /// The headers of a conversation request, with a fresh random (version 4)
    /// UUID as request id.
    pub fn build_headers(token: &str, statsig_id: &str, cf_clearance: &str) -> (r: Vec<
        (String, String),
    >)
        ensures
            r.len() == 23,
            is_v4_hyphenated(r@[21].1@),
            pair_views(r@) == chat_headers(token@, statsig_id@, r@[21].1@, cf_clearance@),
    {
        let id = new_v4_string();
        let r = Self::build_headers_with_id(token, statsig_id, id.as_str(), cf_clearance);
        assert(pair_views(r@).len() == r@.len());
        assert(pair_views(r@)[21] == (r@[21].0@, r@[21].1@));
        r
    }

    /// The body of a conversation request. `temporary` is whether the
    /// conversation is kept out of the account's history; `think` does not
    /// enter the body.
    pub fn build_payload(
        message: &str,
        model: &str,
        mode: &str,
        think: Option<bool>,
        temporary: bool,
        file_attachments: &Vec<String>,
        image_attachments: &Vec<String>,
    ) -> (r: Json)
        ensures
            r@ == chat_payload(
                message@,
                model@,
                mode@,
                temporary,
                views(file_attachments@),
                views(image_attachments@),
            ),
    {
        let empty_map = object(Vec::new());
        assert(empty_map@ == JsonV::Object(Seq::empty()));
        let mut model_map: Vec<(String, Json)> = Vec::new();
        model_map.push((owned("modelMap"), empty_map));
        let mut details: Vec<(String, Json)> = Vec::new();
        details.push((owned("modelId"), jstring(model)));
        let ghost mmv = model_map@;
        let ghost detv = details@;
        let model_map_json = object(model_map);
        let details_json = object(details);
        assert(view_fields(mmv) =~= seq![("modelMap"@, JsonV::Object(Seq::<(Seq<char>, JsonV)>::empty()))]);
        assert(view_fields(detv) =~= seq![("modelId"@, JsonV::Str(model@))]);
        let mut meta: Vec<(String, Json)> = Vec::new();
        meta.push((owned("modelConfigOverride"), model_map_json));
        meta.push((owned("requestModelDetails"), details_json));
        let mut device: Vec<(String, Json)> = Vec::new();
        device.push(bool_field("darkModeEnabled", false));
        device.push(int_field("devicePixelRatio", 2));
        device.push(int_field("screenWidth", 2056));
        device.push(int_field("screenHeight", 1329));
        device.push(int_field("viewportWidth", 2056));
        device.push(int_field("viewportHeight", 1083));
        let ghost mv = meta@;
        let ghost dv = device@;
        let meta_json = object(meta);
        let device_json = object(device);
        assert(view_fields(mv) =~= seq![
            (
                "modelConfigOverride"@,
                JsonV::Object(seq![("modelMap"@, JsonV::Object(Seq::empty()))]),
            ),
            ("requestModelDetails"@, JsonV::Object(seq![("modelId"@, JsonV::Str(model@))])),
        ]);
        assert(meta_json@ == response_metadata(model@));
        assert(view_fields(dv) =~= seq![
            ("darkModeEnabled"@, JsonV::Bool(false)),
            ("devicePixelRatio"@, JsonV::Int(2)),
            ("screenWidth"@, JsonV::Int(2056)),
            ("screenHeight"@, JsonV::Int(1329)),
            ("viewportWidth"@, JsonV::Int(2056)),
            ("viewportHeight"@, JsonV::Int(1083)),
        ]);
        assert(device_json@ == device_env_info());
        let mut f: Vec<(String, Json)> = Vec::new();
        f.push(bool_field("temporary", temporary));
        f.push((owned("modelName"), jstring(model)));
        f.push((owned("modelMode"), jstring(mode)));
        f.push((owned("message"), jstring(message)));
        f.push((owned("fileAttachments"), string_array(file_attachments)));
        f.push((owned("imageAttachments"), string_array(image_attachments)));
        f.push(bool_field("disableSearch", false));
        f.push(bool_field("enableImageGeneration", true));
        f.push(bool_field("returnImageBytes", false));
        f.push(bool_field("returnRawGrokInXaiRequest", false));
        f.push(bool_field("enableImageStreaming", true));
        f.push(int_field("imageGenerationCount", 2));
        f.push(bool_field("forceConcise", false));
        let tools = object(Vec::new());
        assert(tools@ == JsonV::Object(Seq::empty()));
        f.push((owned("toolOverrides"), tools));
        f.push(bool_field("enableSideBySide", true));
        f.push(bool_field("sendFinalMetadata", true));
        f.push(bool_field("isReasoning", false));
        f.push(bool_field("disableTextFollowUps", false));
        f.push((owned("responseMetadata"), meta_json));
        f.push(bool_field("disableMemory", false));
        f.push(bool_field("forceSideBySide", false));
        f.push(bool_field("isAsyncChat", false));
        f.push(bool_field("disableSelfHarmShortCircuit", false));
        f.push((owned("deviceEnvInfo"), device_json));
        let ghost fv = f@;
        let r = object(f);
        assert(view_fields(fv) =~= match chat_payload(
            message@,
            model@,
            mode@,
            temporary,
            views(file_attachments@),
            views(image_attachments@),
        ) {
            JsonV::Object(fs) => fs,
            _ => Seq::empty(),
        });
        r
    }
}


/// The attachments of a video model's messages are all images: a video model
/// refuses audio and file items.
pub proof fn video_extraction_attaches_only_images(msgs: Seq<JsonV>)
    ensures
        extraction(msgs, true) matches Ok((_, a)) ==> forall|k: int|
            0 <= k < a.len() ==> #[trigger] a[k].0 == "image"@,
{
    lemma_messages_only_images(msgs);
}

proof fn lemma_items_only_images(items: Seq<JsonV>)
    ensures
        items_outcome(items, true) matches Ok((a, _)) ==> forall|k: int|
            0 <= k < a.len() ==> #[trigger] a[k].0 == "image"@,
    decreases items.len(),
{
    if items.len() > 0 {
        lemma_items_only_images(items.drop_last());
    }
}

proof fn lemma_messages_only_images(msgs: Seq<JsonV>)
    ensures
        messages_outcome(msgs, true) matches Ok((a, _)) ==> forall|k: int|
            0 <= k < a.len() ==> #[trigger] a[k].0 == "image"@,
    decreases msgs.len(),
{
    if msgs.len() > 0 {
        lemma_messages_only_images(msgs.drop_last());
        let last = msgs.last();
        match jget(last, "content"@) {
            Some(JsonV::Array(list)) => lemma_items_only_images(list),
            _ => {},
        }
        if let Ok((a, _)) = messages_outcome(msgs, true) {
            if let Ok((a1, _)) = messages_outcome(msgs.drop_last(), true) {
                if let Ok((a2, _)) = message_outcome(last, true) {
                    assert(a == a1 + a2);
                    assert forall|k: int| 0 <= k < a.len() implies #[trigger] a[k].0 == "image"@ by {
                        if k >= a1.len() {
                            assert(a[k] == a2[k - a1.len()]);
                        }
                    }
                }
            }
        }
    }
}

/// The request's `thinking` switch: `enabled` turns reasoning on,
/// `disabled` off; anything else leaves it to the configuration.
pub open spec fn think_setting(thinking: Option<Seq<char>>) -> Option<bool> {
    match thinking {
        Some(t) => if t == "enabled"@ {
            Some(true)
        } else if t == "disabled"@ {
            Some(false)
        } else {
            None
        },
        None => None,
    }
}

/// The error message of a conversation request that Grok did not accept.
pub open spec fn chat_failed_message(status: nat, content_type: Seq<char>, preview: Seq<char>) -> Seq<
    char,
> {
    "Grok API request failed: "@ + decimal(status) + "; content-type: "@ + content_type
        + "; body: "@ + preview
}

/// The ids of the uploads that are images (`image`) or that are not, in order.
pub open spec fn ids_of_kind(u: Pairs, image: bool) -> Seq<Seq<char>>
    decreases u.len(),
{
    if u.len() == 0 {
        Seq::empty()
    } else {
        let r = ids_of_kind(u.drop_last(), image);
        if (u.last().0 == "image"@) == image {
            r.push(u.last().1)
        } else {
            r
        }
    }
}

/// A chat request as the conversation service takes it.
#[derive(Debug, PartialEq)]
pub struct ChatRequest {
    pub model: String,
    pub messages: Vec<Json>,
    pub stream: Option<bool>,
    pub think: Option<bool>,
}

/// Sends conversations to Grok.
pub struct GrokChatService;

impl GrokChatService {
    /// The service.
    pub fn new() -> Self {
        GrokChatService
    }

    /// The outcome of a conversation request from its HTTP status: status
    /// 200 goes on to the answer's stream; any other is an upstream error
    /// naming the status, the content type and a preview of the body.
    pub fn check_status(status: u16, content_type: &str, preview: &str) -> (r: Result<(), ApiError>)
        ensures
            status == 200 ==> r is Ok,
            status != 200 ==> (r matches Err(e) && e@ == upstream(
                chat_failed_message(status as nat, content_type@, preview@),
            )),
    {
        if status == 200 {
            return Ok(());
        }
        let mut m = owned("Grok API request failed: ");
        m.append(decimal_string(status as usize).as_str());
        m.append("; content-type: ");
        m.append(content_type);
        m.append("; body: ");
        m.append(preview);
        Err(ApiError::upstream(m))
    }

    /// Files the ids of uploaded attachments by their kind: images to the
    /// image attachments, everything else to the file attachments, each list
    /// keeping the upload order. `uploaded` holds (kind, file id) pairs.
    pub fn sort_uploads(uploaded: &Vec<(String, String)>) -> (r: (Vec<String>, Vec<String>))
        ensures
            views(r.0@) == ids_of_kind(pair_views(uploaded@), false),
            views(r.1@) == ids_of_kind(pair_views(uploaded@), true),
    {
        let ghost u = pair_views(uploaded@);
        let mut files: Vec<String> = Vec::new();
        let mut images: Vec<String> = Vec::new();
        let mut i: usize = 0;
        assert(u.take(0) =~= Seq::<(Seq<char>, Seq<char>)>::empty());
        assert(views(files@) =~= Seq::<Seq<char>>::empty());
        assert(views(images@) =~= Seq::<Seq<char>>::empty());
        while i < uploaded.len()
            invariant
                i <= uploaded.len(),
                u == pair_views(uploaded@),
                views(files@) == ids_of_kind(u.take(i as int), false),
                views(images@) == ids_of_kind(u.take(i as int), true),
            decreases uploaded.len() - i,
        {
            assert(u[i as int] == (uploaded@[i as int].0@, uploaded@[i as int].1@));
            assert(u.take(i + 1).drop_last() == u.take(i as int));
            if str_eq(uploaded[i].0.as_str(), "image") {
                let ghost prev = images@;
                images.push(uploaded[i].1.clone());
                assert(views(images@) =~= views(prev).push(uploaded@[i as int].1@));
            } else {
                let ghost prev = files@;
                files.push(uploaded[i].1.clone());
                assert(views(files@) =~= views(prev).push(uploaded@[i as int].1@));
            }
            i += 1;
        }
        assert(u.take(uploaded@.len() as int) == u);
        (files, images)
    }

    /// Whether the answer is streamed and whether reasoning is asked for:
    /// the request's own choices, else the configured defaults.
    pub fn conversation_settings(request: &ChatRequest, default_stream: bool, default_think: bool) -> (r: (
        bool,
        Option<bool>,
    ))
        ensures
            r.0 == (match request.stream {
                Some(s) => s,
                None => default_stream,
            }),
            r.1 == (match request.think {
                Some(t) => Some(t),
                None => Some(default_think),
            }),
    {
        let stream = match request.stream {
            Some(s) => s,
            None => default_stream,
        };
        let think = match request.think {
            Some(t) => Some(t),
            None => Some(default_think),
        };
        (stream, think)
    }
}

/// Serves chat completions from Grok conversations.
pub struct ChatService;

impl ChatService {
    /// The request's `thinking` switch: `enabled` turns reasoning on,
    /// `disabled` off; anything else leaves it to the configuration.
    pub fn think_from_thinking(thinking: Option<&str>) -> (r: Option<bool>)
        ensures
            r == think_setting(
                match thinking {
                    Some(t) => Some(t@),
                    None => None,
                },
            ),
    {
        match thinking {
            Some(t) => if str_eq(t, "enabled") {
                Some(true)
            } else if str_eq(t, "disabled") {
                Some(false)
            } else {
                None
            },
            None => None,
        }
    }

    /// The conversation request for a chat completion.
    pub fn chat_request(
        model: &str,
        messages: Vec<Json>,
        stream: Option<bool>,
        thinking: Option<&str>,
    ) -> (r: ChatRequest)
        ensures
            r.model@ == model@,
            r.messages@ == messages@,
            r.stream == stream,
            r.think == think_setting(
                match thinking {
                    Some(t) => Some(t@),
                    None => None,
                },
            ),
    {
        ChatRequest {
            model: owned(model),
            messages,
            stream,
            think: Self::think_from_thinking(thinking),
        }
    }
}

/// The `sso=` prefix of a session token is optional: a token with it and
/// the same token without it give the same cookie.
pub proof fn sso_prefix_is_optional(token: Seq<char>, cf_clearance: Seq<char>)
    requires
        !starts_with(token, "sso="@),
    ensures
        session_cookie("sso="@ + token, cf_clearance) == session_cookie(token, cf_clearance),
{
    let t = "sso="@ + token;
    assert(t.subrange(0, "sso="@.len() as int) =~= "sso="@);
    assert(t.skip("sso="@.len() as int) =~= token);
}

/// Only a video model refuses content: for any other model, flattening the
/// messages always succeeds.
pub proof fn text_model_extraction_never_fails(msgs: Seq<JsonV>)
    ensures
        extraction(msgs, false) is Ok,
{
    lemma_messages_never_refused(msgs);
}

proof fn lemma_items_never_refused(items: Seq<JsonV>)
    ensures
        items_outcome(items, false) is Ok,
    decreases items.len(),
{
    if items.len() > 0 {
        lemma_items_never_refused(items.drop_last());
    }
}

proof fn lemma_messages_never_refused(msgs: Seq<JsonV>)
    ensures
        messages_outcome(msgs, false) is Ok,
    decreases msgs.len(),
{
    if msgs.len() > 0 {
        lemma_messages_never_refused(msgs.drop_last());
        match jget(msgs.last(), "content"@) {
            Some(JsonV::Array(list)) => lemma_items_never_refused(list),
            _ => {},
        }
    }
}

/// An attachment that an item contributes reaches the attachments of its
/// items, unless an item refuses.
proof fn lemma_items_attach(items: Seq<JsonV>, j: int, is_video: bool)
    requires
        0 <= j < items.len(),
        item_outcome(items[j], is_video) is Attach,
    ensures
        items_outcome(items, is_video) matches Ok((a, _)) ==> a.contains(
            (item_outcome(items[j], is_video)->Attach_0, item_outcome(items[j], is_video)->Attach_1),
        ),
    decreases items.len(),
{
    let x = (item_outcome(items[j], is_video)->Attach_0, item_outcome(items[j], is_video)->Attach_1);
    if j < items.len() - 1 {
        assert(items.drop_last()[j] == items[j]);
        lemma_items_attach(items.drop_last(), j, is_video);
    }
    if let Ok((a, _)) = items_outcome(items, is_video) {
        if let Ok((a0, _)) = items_outcome(items.drop_last(), is_video) {
            if j == items.len() - 1 {
                assert(a == a0.push(x));
                assert(a[a0.len() as int] == x);
            } else {
                let k = choose|k: int| 0 <= k < a0.len() && a0[k] == x;
                match item_outcome(items.last(), is_video) {
                    ItemOutcome::Attach(k2, d2) => {
                        assert(a == a0.push((k2, d2)));
                    },
                    _ => {
                        assert(a == a0);
                    },
                }
                assert(a[k] == x);
            }
        }
    }
}

/// An attachment that a message contributes reaches the attachments of the
/// extraction, unless a message refuses.
proof fn lemma_messages_attach(msgs: Seq<JsonV>, i: int, is_video: bool, x: (Seq<char>, Seq<char>))
    requires
        0 <= i < msgs.len(),
        message_outcome(msgs[i], is_video) matches Ok((a2, _)) && a2.contains(x),
    ensures
        messages_outcome(msgs, is_video) matches Ok((a, _)) ==> a.contains(x),
    decreases msgs.len(),
{
    if i < msgs.len() - 1 {
        assert(msgs.drop_last()[i] == msgs[i]);
        lemma_messages_attach(msgs.drop_last(), i, is_video, x);
    }
    if let Ok((a, _)) = messages_outcome(msgs, is_video) {
        if let Ok((a1, _)) = messages_outcome(msgs.drop_last(), is_video) {
            if let Ok((a2, _)) = message_outcome(msgs.last(), is_video) {
                assert(a == a1 + a2);
                if i == msgs.len() - 1 {
                    let k = choose|k: int| 0 <= k < a2.len() && a2[k] == x;
                    assert(a[a1.len() + k] == x);
                } else {
                    let k = choose|k: int| 0 <= k < a1.len() && a1[k] == x;
                    assert(a[k] == x);
                }
            }
        }
    }
}

/// The content types that an item names are distinct.
proof fn lemma_item_types_distinct()
    ensures
        "file"@ != "text"@,
        "file"@ != "image_url"@,
        "file"@ != "input_audio"@,
        "input_audio"@ != "text"@,
        "input_audio"@ != "image_url"@,
        "image_url"@ != "text"@,
{
    reveal_strlit("file");
    reveal_strlit("text");
    reveal_strlit("image_url");
    reveal_strlit("input_audio");
    assert("file"@.len() == 4);
    assert("text"@.len() == 4);
    assert("image_url"@.len() == 9);
    assert("input_audio"@.len() == 11);
    assert("file"@[0] != "text"@[0]);
}

/// For a model that is not a video model, every item that names a location
/// is attached: an `image_url` item with a `url`, an `input_audio` item with
/// `data`, a `file` item with a `url`, and a `file` item without a `url` but
/// with `data`. Extraction then succeeds, and its attachments hold the item's
/// kind and location.
pub proof fn located_items_are_attached(
    msgs: Seq<JsonV>,
    i: int,
    items: Seq<JsonV>,
    j: int,
    loc: Seq<char>,
)
    requires
        0 <= i < msgs.len(),
        jget(msgs[i], "content"@) == Some(JsonV::Array(items)),
        0 <= j < items.len(),
        loc.len() > 0,
    ensures
        jget(items[j], "type"@) == Some(JsonV::Str("image_url"@)) && jstr(
            jget_opt(jget(items[j], "image_url"@), "url"@),
        ) == Some(loc) ==> (extraction(msgs, false) matches Ok((_, a)) && a.contains(
            ("image"@, loc),
        )),
        jget(items[j], "type"@) == Some(JsonV::Str("input_audio"@)) && jstr(
            jget_opt(jget(items[j], "input_audio"@), "data"@),
        ) == Some(loc) ==> (extraction(msgs, false) matches Ok((_, a)) && a.contains(
            ("audio"@, loc),
        )),
        jget(items[j], "type"@) == Some(JsonV::Str("file"@)) && jstr(
            jget_opt(jget(items[j], "file"@), "url"@),
        ) == Some(loc) ==> (extraction(msgs, false) matches Ok((_, a)) && a.contains(
            ("file"@, loc),
        )),
        jget(items[j], "type"@) == Some(JsonV::Str("file"@)) && jstr(
            jget_opt(jget(items[j], "file"@), "url"@),
        ) is None && jstr(jget_opt(jget(items[j], "file"@), "data"@)) == Some(loc)
            ==> (extraction(msgs, false) matches Ok((_, a)) && a.contains(("file"@, loc))),
{
    lemma_item_types_distinct();
    lemma_messages_never_refused(msgs);
    lemma_items_never_refused(items);
    let it = items[j];
    if item_outcome(it, false) is Attach {
        lemma_items_attach(items, j, false);
        let x = (item_outcome(it, false)->Attach_0, item_outcome(it, false)->Attach_1);
        lemma_messages_attach(msgs, i, false, x);
    }
}

/// A conversation of an earlier message of another role and a closing user
/// message becomes the prompt `role: text`, a blank line, then the user's
/// text as it is; string contents bring no attachments.
pub proof fn earlier_turns_are_labelled_and_last_user_turn_is_bare(
    role: Seq<char>,
    first: Seq<char>,
    last: Seq<char>,
    is_video: bool,
)
    requires
        role.len() > 0,
        role != "user"@,
        !is_blank(first),
        !is_blank(last),
    ensures
        extraction(
            seq![
                JsonV::Object(seq![("role"@, JsonV::Str(role)), ("content"@, JsonV::Str(first))]),
                JsonV::Object(seq![("role"@, JsonV::Str("user"@)), ("content"@, JsonV::Str(last))]),
            ],
            is_video,
        ) == Ok::<(Seq<char>, Pairs), ApiErrorV>(
            (role + ": "@ + first + "\n\n"@ + last, Seq::empty()),
        ),
{
    reveal_strlit("role");
    reveal_strlit("content");
    assert("role"@.len() == 4);
    assert("content"@.len() == 7);
    reveal_with_fuel(crate::json::lookup, 3);
    let m1 = JsonV::Object(seq![("role"@, JsonV::Str(role)), ("content"@, JsonV::Str(first))]);
    let m2 = JsonV::Object(seq![("role"@, JsonV::Str("user"@)), ("content"@, JsonV::Str(last))]);
    let msgs = seq![m1, m2];
    assert(msgs.drop_last() == seq![m1]);
    assert(seq![m1].drop_last() == Seq::<JsonV>::empty());
    assert(join(seq![first], "\n"@) == first);
    assert(join(seq![last], "\n"@) == last);
    let x: Pairs = seq![(role, first), ("user"@, last)];
    assert(messages_outcome(seq![m1], is_video) == Ok::<(Pairs, Pairs), Seq<char>>(
        (Seq::empty(), seq![(role, first)]),
    )) by {
        assert(jget(m1, "content"@) == Some(JsonV::Str(first)));
        assert(message_outcome(m1, is_video) == Ok::<(Pairs, Seq<Seq<char>>), Seq<char>>(
            (Seq::empty(), seq![first]),
        ));
        assert(message_role(m1) == role);
        assert(messages_outcome(Seq::<JsonV>::empty(), is_video) == Ok::<(Pairs, Pairs), Seq<char>>(
            (Seq::empty(), Seq::empty()),
        ));
        assert(Seq::<(Seq<char>, Seq<char>)>::empty().push((role, first)) == seq![(role, first)]);
        assert(Seq::<(Seq<char>, Seq<char>)>::empty() + Seq::<(Seq<char>, Seq<char>)>::empty()
            == Seq::<(Seq<char>, Seq<char>)>::empty());
    }
    assert(seq![(role, first)].push(("user"@, last)) == x);
    assert(Seq::<(Seq<char>, Seq<char>)>::empty() + Seq::<(Seq<char>, Seq<char>)>::empty()
        == Seq::<(Seq<char>, Seq<char>)>::empty());
    assert(messages_outcome(msgs, is_video) == Ok::<(Pairs, Pairs), Seq<char>>(
        (Seq::empty(), x),
    ));
    assert(last_user_before(x, 2) == Some(1int));
    assert(last_user_before(x, 2) != Some(0int));
    let entries = Seq::new(x.len(), |k: int| render_entry(x, k));
    assert(entries[0] == role + ": "@ + first);
    assert(entries[1] == last);
    assert(entries.drop_last() == seq![role + ": "@ + first]);
    assert(join(entries.drop_last(), "\n\n"@) == role + ": "@ + first);
}

} // verus!

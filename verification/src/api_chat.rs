//! The `/v1/chat/completions` request: its shape, the checks a request must
//! pass before it is served, and the settings derived from it.
use vstd::prelude::*;
use crate::error::{invalid, ApiError, ApiErrorV};
use crate::json::{jarr, jget, jget_opt, jstr, jviews, lemma_view_items, or_str, owned, Json, JsonV};
use crate::model::Cost;
use crate::text::{decimal, decimal_string, is_blank, is_blank_str, str_eq};

verus! {

/// The video settings that a request may carry.
#[derive(Debug)]
pub struct VideoConfig {
    pub aspect_ratio: Option<String>,
    pub video_length: Option<i32>,
    pub resolution: Option<String>,
    pub preset: Option<String>,
}

/// A chat completion request.
#[derive(Debug)]
pub struct ChatCompletionRequest {
    pub model: String,
    pub messages: Vec<Json>,
    pub stream: Option<bool>,
    pub thinking: Option<String>,
    pub video_config: Option<VideoConfig>,
}

/// How much of a token's quota a served request uses.
#[derive(Clone, Copy, Debug, PartialEq, Eq, Structural)]
pub enum EffortType {
    Low,
    High,
}

/// The roles a message may have.
pub open spec fn is_valid_role(r: Seq<char>) -> bool {
    r == "developer"@ || r == "system"@ || r == "user"@ || r == "assistant"@
}

/// The content block types a user message may hold.
pub open spec fn is_user_content_type(t: Seq<char>) -> bool {
    t == "text"@ || t == "image_url"@ || t == "input_audio"@ || t == "file"@
}

/// The message refusing an unknown role.
pub open spec fn roles_message() -> Seq<char> {
    "role must be one of [\"developer\", \"system\", \"user\", \"assistant\"]"@
}

/// The path of a field of message `idx`.
pub open spec fn message_param(idx: nat, suffix: Seq<char>) -> Seq<char> {
    "messages."@ + decimal(idx) + suffix
}

/// The path of a field of content block `bidx` of message `idx`.
pub open spec fn block_param(idx: nat, bidx: nat, suffix: Seq<char>) -> Seq<char> {
    "messages."@ + decimal(idx) + ".content."@ + decimal(bidx) + suffix
}

/// What is wrong with content block `bidx` of message `idx`, whose role is `role`.
pub open spec fn block_error(idx: nat, bidx: nat, role: Seq<char>, block: JsonV) -> Option<
    ApiErrorV,
> {
    let t = or_str(jstr(jget(block, "type"@)), ""@);
    if block is Null {
        Some(invalid("Content block cannot be empty"@, block_param(idx, bidx, ""@)))
    } else if t.len() == 0 {
        Some(invalid("Content block 'type' cannot be empty"@, block_param(idx, bidx, ".type"@)))
    } else if role == "user"@ && !is_user_content_type(t) {
        Some(
            invalid(
                "Invalid content block type: '"@ + t + "'"@,
                block_param(idx, bidx, ".type"@),
            ),
        )
    } else if role != "user"@ && t != "text"@ {
        Some(
            invalid(
                "The `"@ + role + "` role only supports 'text' type, got '"@ + t + "'"@,
                block_param(idx, bidx, ".type"@),
            ),
        )
    } else if t == "text"@ {
        if is_blank(or_str(jstr(jget(block, "text"@)), ""@)) {
            Some(invalid("Text content cannot be empty"@, block_param(idx, bidx, ".text"@)))
        } else {
            None
        }
    } else if t == "image_url"@ {
        if jstr(jget_opt(jget(block, "image_url"@), "url"@)) is None {
            Some(
                invalid(
                    "image_url must have a 'url' field"@,
                    block_param(idx, bidx, ".image_url"@),
                ),
            )
        } else {
            None
        }
    } else if t == "input_audio"@ {
        if jstr(jget_opt(jget(block, "input_audio"@), "data"@)) is None {
            Some(
                invalid(
                    "input_audio must have a 'data' field"@,
                    block_param(idx, bidx, ".input_audio"@),
                ),
            )
        } else {
            None
        }
    } else if t == "file"@ {
        let f = jget(block, "file"@);
        if jstr(jget_opt(f, "url"@)) is None && jstr(jget_opt(f, "data"@)) is None {
            Some(
                invalid(
                    "file must have a 'url' or 'data' field"@,
                    block_param(idx, bidx, ".file"@),
                ),
            )
        } else {
            None
        }
    } else {
        None
    }
}

/// The first error among the content blocks of message `idx`, from block `j` on.
pub open spec fn first_block_error(idx: nat, role: Seq<char>, blocks: Seq<JsonV>, j: int) -> Option<
    ApiErrorV,
>
    decreases blocks.len() - j,
{
    if j < 0 || j >= blocks.len() {
        None
    } else {
        match block_error(idx, j as nat, role, blocks[j]) {
            Some(e) => Some(e),
            None => first_block_error(idx, role, blocks, j + 1),
        }
    }
}

/// What is wrong with message `idx`.
pub open spec fn message_error(idx: nat, msg: JsonV) -> Option<ApiErrorV> {
    let role = or_str(jstr(jget(msg, "role"@)), ""@);
    if !is_valid_role(role) {
        Some(invalid(roles_message(), message_param(idx, ".role"@)))
    } else {
        match jget(msg, "content"@) {
            None => Some(
                invalid("Message content cannot be empty"@, message_param(idx, ".content"@)),
            ),
            Some(JsonV::Str(t)) => if is_blank(t) {
                Some(invalid("Message content cannot be empty"@, message_param(idx, ".content"@)))
            } else {
                None
            },
            Some(JsonV::Array(blocks)) => if blocks.len() == 0 {
                Some(
                    invalid(
                        "Message content cannot be an empty array"@,
                        message_param(idx, ".content"@),
                    ),
                )
            } else {
                first_block_error(idx, role, blocks, 0)
            },
            _ => None,
        }
    }
}

/// The first error among the messages, from message `i` on.
pub open spec fn first_message_error(msgs: Seq<JsonV>, i: int) -> Option<ApiErrorV>
    decreases msgs.len() - i,
{
    if i < 0 || i >= msgs.len() {
        None
    } else {
        match message_error(i as nat, msgs[i]) {
            Some(e) => Some(e),
            None => first_message_error(msgs, i + 1),
        }
    }
}

/// A request is accepted when no message has an error; otherwise the first
/// error is answered.
pub open spec fn validation(msgs: Seq<JsonV>) -> Result<(), ApiErrorV> {
    match first_message_error(msgs, 0) {
        Some(e) => Err(e),
        None => Ok(()),
    }
}

/// The effort of a request to a model of cost `cost`.
pub open spec fn effort_of(cost: Cost) -> EffortType {
    if cost == Cost::High {
        EffortType::High
    } else {
        EffortType::Low
    }
}

/// The value of an optional string setting, or its default.
pub open spec fn setting(value: Option<String>, default: Seq<char>) -> Seq<char> {
    match value {
        Some(v) => v@,
        None => default,
    }
}

/// `messages.{idx}{suffix}`.
fn message_param_exec(idx: usize, suffix: &str) -> (r: String)
    ensures
        r@ == message_param(idx as nat, suffix@),
{
    let mut r = owned("messages.");
    r.append(decimal_string(idx).as_str());
    r.append(suffix);
    r
}

/// `messages.{idx}.content.{bidx}{suffix}`.
fn block_param_exec(idx: usize, bidx: usize, suffix: &str) -> (r: String)
    ensures
        r@ == block_param(idx as nat, bidx as nat, suffix@),
{
    let mut r = owned("messages.");
    r.append(decimal_string(idx).as_str());
    r.append(".content.");
    r.append(decimal_string(bidx).as_str());
    r.append(suffix);
    r
}

fn refuse(message: &str, param: String) -> (e: ApiError)
    ensures
        e@ == invalid(message@, param@),
{
    ApiError::invalid_request(owned(message)).with_param(param)
}

/// The string under `key` of an optional document.
fn str_under<'a>(obj: Option<&'a Json>, key: &str) -> (r: Option<&'a String>)
    ensures
        match r {
            Some(s) => jstr(jget_opt(crate::json::oview(obj), key@)) == Some(s@),
            None => jstr(jget_opt(crate::json::oview(obj), key@)) is None,
        },
{
    match obj {
        Some(o) => match o.get(key) {
            Some(v) => v.as_str(),
            None => None,
        },
        None => None,
    }
}

/// What is wrong with content block `bidx` of message `idx`.
fn check_block(idx: usize, bidx: usize, role: &String, block: &Json) -> (r: Option<ApiError>)
    ensures
        match r {
            Some(e) => block_error(idx as nat, bidx as nat, role@, block@) == Some(e@),
            None => block_error(idx as nat, bidx as nat, role@, block@) is None,
        },
{
    if block.is_null() {
        return Some(refuse("Content block cannot be empty", block_param_exec(idx, bidx, "")));
    }
    let t: String = match str_under(Some(block), "type") {
        Some(t) => t.clone(),
        None => owned(""),
    };
    if t.as_str().is_empty() {
        return Some(
            refuse("Content block 'type' cannot be empty", block_param_exec(idx, bidx, ".type")),
        );
    }
    let is_user = str_eq(role.as_str(), "user");
    let is_text = str_eq(t.as_str(), "text");
    let is_image = str_eq(t.as_str(), "image_url");
    let is_audio = str_eq(t.as_str(), "input_audio");
    let is_file = str_eq(t.as_str(), "file");
    if is_user && !(is_text || is_image || is_audio || is_file) {
        let mut m = owned("Invalid content block type: '");
        m.append(t.as_str());
        m.append("'");
        return Some(
            ApiError::invalid_request(m).with_param(block_param_exec(idx, bidx, ".type")),
        );
    }
    if !is_user && !is_text {
        let mut m = owned("The `");
        m.append(role.as_str());
        m.append("` role only supports 'text' type, got '");
        m.append(t.as_str());
        m.append("'");
        return Some(
            ApiError::invalid_request(m).with_param(block_param_exec(idx, bidx, ".type")),
        );
    }
    if is_text {
        let blank = match str_under(Some(block), "text") {
            Some(x) => is_blank_str(x.as_str()),
            None => is_blank_str(""),
        };
        if blank {
            return Some(
                refuse("Text content cannot be empty", block_param_exec(idx, bidx, ".text")),
            );
        }
    } else if is_image {
        if str_under(block.get("image_url"), "url").is_none() {
            return Some(
                refuse(
                    "image_url must have a 'url' field",
                    block_param_exec(idx, bidx, ".image_url"),
                ),
            );
        }
    } else if is_audio {
        if str_under(block.get("input_audio"), "data").is_none() {
            return Some(
                refuse(
                    "input_audio must have a 'data' field",
                    block_param_exec(idx, bidx, ".input_audio"),
                ),
            );
        }
    } else if is_file {
        let f = block.get("file");
        if str_under(f, "url").is_none() && str_under(f, "data").is_none() {
            return Some(
                refuse(
                    "file must have a 'url' or 'data' field",
                    block_param_exec(idx, bidx, ".file"),
                ),
            );
        }
    }
    None
}

/// What is wrong with message `idx`.
fn check_message(idx: usize, msg: &Json) -> (r: Option<ApiError>)
    ensures
        match r {
            Some(e) => message_error(idx as nat, msg@) == Some(e@),
            None => message_error(idx as nat, msg@) is None,
        },
{
    let role: String = match str_under(Some(msg), "role") {
        Some(r) => r.clone(),
        None => owned(""),
    };
    if !(str_eq(role.as_str(), "developer") || str_eq(role.as_str(), "system") || str_eq(
        role.as_str(),
        "user",
    ) || str_eq(role.as_str(), "assistant")) {
        return Some(
            refuse(
                "role must be one of [\"developer\", \"system\", \"user\", \"assistant\"]",
                message_param_exec(idx, ".role"),
            ),
        );
    }
    let content = match msg.get("content") {
        Some(c) => c,
        None => {
            return Some(
                refuse("Message content cannot be empty", message_param_exec(idx, ".content")),
            );
        },
    };
    match content {
        Json::Str(t) => {
            if is_blank_str(t.as_str()) {
                return Some(
                    refuse("Message content cannot be empty", message_param_exec(idx, ".content")),
                );
            }
            None
        },
        Json::Array(blocks) => {
            if blocks.len() == 0 {
                return Some(
                    refuse(
                        "Message content cannot be an empty array",
                        message_param_exec(idx, ".content"),
                    ),
                );
            }
            proof {
                lemma_view_items(blocks@);
            }
            let ghost bv = jviews(blocks@);
            let mut j: usize = 0;
            while j < blocks.len()
                invariant
                    j <= blocks.len(),
                    bv == jviews(blocks@),
                    message_error(idx as nat, msg@) == first_block_error(
                        idx as nat,
                        role@,
                        bv,
                        j as int,
                    ),
                decreases blocks.len() - j,
            {
                assert(bv[j as int] == blocks@[j as int]@);
                match check_block(idx, j, &role, &blocks[j]) {
                    Some(e) => return Some(e),
                    None => {},
                }
                j += 1;
            }
            None
        },
        _ => None,
    }
}

/// Checks the messages of a chat request: every message has a known role
/// and non-empty content; an array content is a non-empty list of blocks,
/// each with a type, a user message's blocks being text, image, audio or
/// file blocks and any other message's being text blocks, and each block
/// carrying what its type needs. The first fault found is refused, naming
/// the offending parameter.
pub fn validate_request(req: &ChatCompletionRequest) -> (r: Result<(), ApiError>)
    ensures
        match r {
            Ok(()) => validation(jviews(req.messages@)) == Ok::<(), ApiErrorV>(()),
            Err(e) => validation(jviews(req.messages@)) == Err::<(), ApiErrorV>(e@),
        },
{
    let ghost mv = jviews(req.messages@);
    let mut i: usize = 0;
    while i < req.messages.len()
        invariant
            i <= req.messages.len(),
            mv == jviews(req.messages@),
            first_message_error(mv, 0) == first_message_error(mv, i as int),
        decreases req.messages.len() - i,
    {
        assert(mv[i as int] == req.messages@[i as int]@);
        match check_message(i, &req.messages[i]) {
            Some(e) => return Err(e),
            None => {},
        }
        i += 1;
    }
    Ok(())
}

/// The effort of a request to a model of cost `cost`: high for a high-cost model.
pub fn effort_for_cost(cost: Cost) -> (r: EffortType)
    ensures
        r == effort_of(cost),
{
    if cost == Cost::High {
        EffortType::High
    } else {
        EffortType::Low
    }
}

fn setting_or(value: Option<String>, default: &str) -> (r: String)
    ensures
        r@ == setting(value, default@),
{
    match value {
        Some(v) => v,
        None => owned(default),
    }
}

impl VideoConfig {
    /// The video settings of a request (aspect ratio, length in seconds,
    /// resolution, preset): each one the request leaves out is `3:2`, `6`,
    /// `SD` or `custom`.
    pub fn resolve(config: Option<VideoConfig>) -> (r: (String, i32, String, String))
        ensures
            match config {
                Some(c) => {
                    &&& r.0@ == setting(c.aspect_ratio, "3:2"@)
                    &&& r.1 == (match c.video_length {
                        Some(n) => n,
                        None => 6,
                    })
                    &&& r.2@ == setting(c.resolution, "SD"@)
                    &&& r.3@ == setting(c.preset, "custom"@)
                },
                None => r.0@ == "3:2"@ && r.1 == 6 && r.2@ == "SD"@ && r.3@ == "custom"@,
            },
    {
        match config {
            Some(c) => (
                setting_or(c.aspect_ratio, "3:2"),
                match c.video_length {
                    Some(n) => n,
                    None => 6,
                },
                setting_or(c.resolution, "SD"),
                setting_or(c.preset, "custom"),
            ),
            None => (owned("3:2"), 6, owned("SD"), owned("custom")),
        }
    }
}

proof fn lemma_first_message_error(msgs: Seq<JsonV>, i: int)
    requires
        0 <= i,
    ensures
        first_message_error(msgs, i) is None <==> forall|k: int|
            i <= k < msgs.len() ==> #[trigger] message_error(k as nat, msgs[k]) is None,
        first_message_error(msgs, i) matches Some(e) ==> exists|k: int|
            i <= k < msgs.len() && message_error(k as nat, msgs[k]) == Some(e) && forall|l: int|
                i <= l < k ==> #[trigger] message_error(l as nat, msgs[l]) is None,
    decreases msgs.len() - i,
{
    if i < msgs.len() {
        lemma_first_message_error(msgs, i + 1);
        if message_error(i as nat, msgs[i]) is None {
            if first_message_error(msgs, i + 1) is None {
                assert forall|k: int| i <= k < msgs.len() implies #[trigger] message_error(
                    k as nat,
                    msgs[k],
                ) is None by {
                    if k > i {
                    }
                }
            }
        }
    }
}

/// A chat request is accepted exactly when none of its messages has a
/// fault; a refused request is answered with the fault of its first faulty
/// message.
pub proof fn validation_refuses_first_faulty_message(msgs: Seq<JsonV>)
    ensures
        validation(msgs) is Ok <==> forall|k: int|
            0 <= k < msgs.len() ==> #[trigger] message_error(k as nat, msgs[k]) is None,
        validation(msgs) matches Err(e) ==> exists|k: int|
            0 <= k < msgs.len() && message_error(k as nat, msgs[k]) == Some(e) && forall|l: int|
                0 <= l < k ==> #[trigger] message_error(l as nat, msgs[l]) is None,
{
    lemma_first_message_error(msgs, 0);
}

/// Blocks that are all non-blank `text` blocks have no error, whatever the role.
proof fn lemma_text_blocks_have_no_error(idx: nat, role: Seq<char>, blocks: Seq<JsonV>, j: int)
    requires
        0 <= j,
        forall|b: int|
            0 <= b < blocks.len() ==> jget(#[trigger] blocks[b], "type"@) == Some(
                JsonV::Str("text"@),
            ) && jstr(jget(blocks[b], "text"@)) is Some && !is_blank(
                jstr(jget(blocks[b], "text"@))->0,
            ),
    ensures
        first_block_error(idx, role, blocks, j) is None,
    decreases blocks.len() - j,
{
    reveal_strlit("text");
    assert("text"@.len() == 4);
    if j < blocks.len() {
        let b = blocks[j];
        assert(jget(b, "type"@) == Some(JsonV::Str("text"@)));
        assert(!(b is Null));
        reveal_strlit("text");
        reveal_strlit("user");
        reveal_strlit("image_url");
        reveal_strlit("input_audio");
        reveal_strlit("file");
        assert(is_user_content_type("text"@));
        lemma_text_blocks_have_no_error(idx, role, blocks, j + 1);
    }
}

/// Every role that the refusal message names is accepted: a request whose
/// messages each have the role `developer`, `system`, `user` or `assistant`
/// and, as content, either a non-blank string or a non-empty list of `text`
/// blocks with non-blank text, passes validation.
pub proof fn named_roles_with_text_are_accepted(msgs: Seq<JsonV>)
    requires
        forall|i: int|
            0 <= i < msgs.len() ==> (jget(#[trigger] msgs[i], "role"@) == Some(
                JsonV::Str("developer"@),
            ) || jget(msgs[i], "role"@) == Some(JsonV::Str("system"@)) || jget(msgs[i], "role"@)
                == Some(JsonV::Str("user"@)) || jget(msgs[i], "role"@) == Some(
                JsonV::Str("assistant"@),
            )),
        forall|i: int|
            0 <= i < msgs.len() ==> (jstr(jget(#[trigger] msgs[i], "content"@)) is Some && !is_blank(
                jstr(jget(msgs[i], "content"@))->0,
            )) || (jarr(jget(msgs[i], "content"@)) is Some && jarr(jget(msgs[i], "content"@))->0.len()
                > 0 && forall|b: int|
                0 <= b < jarr(jget(msgs[i], "content"@))->0.len() ==> jget(
                    #[trigger] jarr(jget(msgs[i], "content"@))->0[b],
                    "type"@,
                ) == Some(JsonV::Str("text"@)) && jstr(
                    jget(jarr(jget(msgs[i], "content"@))->0[b], "text"@),
                ) is Some && !is_blank(
                    jstr(jget(jarr(jget(msgs[i], "content"@))->0[b], "text"@))->0,
                )),
    ensures
        validation(msgs) == Ok::<(), ApiErrorV>(()),
{
    assert forall|k: int| 0 <= k < msgs.len() implies #[trigger] message_error(
        k as nat,
        msgs[k],
    ) is None by {
        let m = msgs[k];
        let role = or_str(jstr(jget(m, "role"@)), ""@);
        assert(is_valid_role(role));
        match jget(m, "content"@) {
            Some(JsonV::Array(blocks)) => {
                lemma_text_blocks_have_no_error(k as nat, role, blocks, 0);
            },
            _ => {},
        }
    }
    lemma_first_message_error(msgs, 0);
}

/// Only the roles that the refusal message names are accepted: when the
/// first message has any other role (or none), the request is refused with
/// that message, naming `messages.0.role`.
pub proof fn other_roles_are_refused(msgs: Seq<JsonV>)
    requires
        msgs.len() > 0,
        jget(msgs[0], "role"@) != Some(JsonV::Str("developer"@)),
        jget(msgs[0], "role"@) != Some(JsonV::Str("system"@)),
        jget(msgs[0], "role"@) != Some(JsonV::Str("user"@)),
        jget(msgs[0], "role"@) != Some(JsonV::Str("assistant"@)),
    ensures
        validation(msgs) == Err::<(), ApiErrorV>(
            invalid(
                "role must be one of [\"developer\", \"system\", \"user\", \"assistant\"]"@,
                "messages.0.role"@,
            ),
        ),
{
    reveal_strlit("messages.0.role");
    reveal_strlit("messages.");
    reveal_strlit(".role");
    reveal_strlit("");
    reveal_strlit("developer");
    reveal_strlit("system");
    reveal_strlit("user");
    reveal_strlit("assistant");
    assert("developer"@.len() == 9);
    assert("system"@.len() == 6);
    assert("user"@.len() == 4);
    assert("assistant"@.len() == 9);
    assert(""@.len() == 0);
    assert(decimal(0) == seq!['0']);
    assert(message_param(0, ".role"@) =~= "messages.0.role"@);
    let role = or_str(jstr(jget(msgs[0], "role"@)), ""@);
    assert(!is_valid_role(role));
}

} // verus!

//! The model list that `/v1/models` serves: the model ids are read from the
//! "model support" tables of the project's published README.
use vstd::prelude::*;
use crate::error::{upstream, ApiError, ApiErrorV};
use crate::json::{jstring, jviews, lemma_view_fields, lemma_view_items, owned, view_fields, Json, JsonV};
use crate::text::{
    before_first, before_first_chars, char_views, chars_of, contains, contains_chars,
    contains_string, decimal, decimal_string, eq_chars, find, find_char, lemma_find_from_bounds,
    lemma_split_join, lemma_split_single, split, split_chars, starts_with, starts_with_chars, string_of, sub_chars, trim, trim_chars,
    trim_pipe_chars, trim_pipes, views,
};

verus! {

/// The heading that opens the model support section.
pub open spec fn models_heading() -> Seq<char> {
    "## \u{6a21}\u{578b}\u{652f}\u{6301}"@
}

/// The text that marks a table's header row.
pub open spec fn header_marker() -> Seq<char> {
    "\u{6a21}\u{578b}\u{540d}"@
}

/// The text between the first two backticks of `t`, trimmed, when it is not empty.
pub open spec fn markdown_code(t: Seq<char>) -> Option<Seq<char>> {
    match find(t, '`') {
        None => None,
        Some(a) => {
            let rest = t.skip(a + 1);
            match find(rest, '`') {
                None => None,
                Some(b) => {
                    let v = trim(rest.take(b));
                    if v.len() == 0 {
                        None
                    } else {
                        Some(v)
                    }
                },
            }
        },
    }
}

/// The first cell of a table row: the text before the first inner `|`,
/// once the outer `|` are stripped, trimmed.
pub open spec fn first_cell(line: Seq<char>) -> Seq<char> {
    trim(before_first(trim_pipes(line), '|'))
}

/// The model id that a trimmed line of the section gives: a table row that is
/// neither a header nor a separator, whose first cell holds a code span.
pub open spec fn row_id(line: Seq<char>) -> Option<Seq<char>> {
    if !starts_with(line, "|"@) || contains(line, ":--"@) || contains(line, header_marker()) {
        None
    } else {
        markdown_code(first_cell(line))
    }
}

/// The model ids of `lines`, in order and with repeats, read while inside
/// the model support section (`in_sec`); the section ends at the next `## ` heading.
pub open spec fn section_ids(lines: Seq<Seq<char>>, in_sec: bool) -> Seq<Seq<char>>
    decreases lines.len(),
{
    if lines.len() == 0 {
        Seq::empty()
    } else {
        let line = trim(lines[0]);
        let rest = lines.drop_first();
        if starts_with(line, "## "@) && line == models_heading() {
            section_ids(rest, true)
        } else if starts_with(line, "## "@) && in_sec {
            Seq::empty()
        } else if !in_sec {
            section_ids(rest, false)
        } else {
            match row_id(line) {
                Some(id) => seq![id] + section_ids(rest, true),
                None => section_ids(rest, true),
            }
        }
    }
}

/// `s` with every element after its first occurrence removed.
pub open spec fn dedup(s: Seq<Seq<char>>) -> Seq<Seq<char>>
    decreases s.len(),
{
    if s.len() == 0 {
        s
    } else {
        let d = dedup(s.drop_last());
        if d.contains(s.last()) {
            d
        } else {
            d.push(s.last())
        }
    }
}

/// The model ids that the README lists, each once, in order of first appearance.
pub open spec fn readme_model_ids(readme: Seq<char>) -> Seq<Seq<char>> {
    dedup(section_ids(split(readme, '\n'), false))
}

/// The `/v1/models` entry of one model id.
pub open spec fn model_entry(id: Seq<char>) -> JsonV {
    JsonV::Object(
        seq![
            ("id"@, JsonV::Str(id)),
            ("object"@, JsonV::Str("model"@)),
            ("created"@, JsonV::Int(0)),
            ("owned_by"@, JsonV::Str("grok2api"@)),
        ],
    )
}

/// The `/v1/models` entries of the model ids `ids`.
pub open spec fn model_entries(ids: Seq<Seq<char>>) -> Seq<JsonV> {
    Seq::new(ids.len(), |i: int| model_entry(ids[i]))
}

/// The `/v1/models` answer for the model ids `ids`.
pub open spec fn model_list(ids: Seq<Seq<char>>) -> JsonV {
    JsonV::Object(
        seq![
            ("object"@, JsonV::Str("list"@)),
            ("data"@, JsonV::Array(model_entries(ids))),
        ],
    )
}

/// The error message when the README could not be fetched.
pub open spec fn fetch_failed_message(status: nat, preview: Seq<char>) -> Seq<char> {
    "Fetch model source failed: "@ + decimal(status) + "; body: "@ + preview
}

/// What fetching the README yields: the ids it lists, or an upstream error
/// when the fetch failed or the README lists none.
pub open spec fn model_source_outcome(
    success: bool,
    status: nat,
    preview: Seq<char>,
    body: Seq<char>,
) -> Result<Seq<Seq<char>>, ApiErrorV> {
    if !success {
        Err(upstream(fetch_failed_message(status, preview)))
    } else if readme_model_ids(body).len() == 0 {
        Err(upstream("No models parsed from model source README"@))
    } else {
        Ok(readme_model_ids(body))
    }
}

/// Pushing `a` adds exactly `a` to what a sequence contains.
pub proof fn lemma_push_contains(d: Seq<Seq<char>>, a: Seq<char>, x: Seq<char>)
    ensures
        d.push(a).contains(x) == (d.contains(x) || a == x),
{
    if d.contains(x) {
        let k = choose|k: int| 0 <= k < d.len() && d[k] == x;
        assert(d.push(a)[k] == x);
    }
    if a == x {
        assert(d.push(a)[d.len() as int] == x);
    }
    if d.push(a).contains(x) {
        let k = choose|k: int| 0 <= k < d.push(a).len() && d.push(a)[k] == x;
        if k < d.len() {
            assert(d[k] == x);
        }
    }
}

pub proof fn lemma_dedup_contains(s: Seq<Seq<char>>, x: Seq<char>)
    ensures
        dedup(s).contains(x) == s.contains(x),
    decreases s.len(),
{
    if s.len() > 0 {
        lemma_dedup_contains(s.drop_last(), x);
        let d = dedup(s.drop_last());
        assert(s == s.drop_last().push(s.last()));
        lemma_push_contains(s.drop_last(), s.last(), x);
        if d.contains(s.last()) {
        } else {
            lemma_push_contains(d, s.last(), x);
        }
    }
}

/// Two positions of `dedup(s)` never hold the same element.
pub proof fn lemma_dedup_distinct(s: Seq<Seq<char>>)
    ensures
        forall|i: int, j: int|
            0 <= i < j < dedup(s).len() ==> dedup(s)[i] != dedup(s)[j],
    decreases s.len(),
{
    if s.len() > 0 {
        lemma_dedup_distinct(s.drop_last());
        let d = dedup(s.drop_last());
        if !d.contains(s.last()) {
            assert forall|i: int, j: int|
                0 <= i < j < dedup(s).len() implies dedup(s)[i] != dedup(s)[j] by {
                if j == d.len() {
                    assert(dedup(s)[i] == d[i]);
                }
            }
        }
    }
}

/// Every element of `dedup(s)` is an element of `s`.
pub proof fn lemma_dedup_subset(s: Seq<Seq<char>>)
    ensures
        forall|i: int| 0 <= i < dedup(s).len() ==> s.contains(#[trigger] dedup(s)[i]),
{
    assert forall|i: int| 0 <= i < dedup(s).len() implies s.contains(#[trigger] dedup(s)[i]) by {
        lemma_dedup_contains(s, dedup(s)[i]);
    }
}

/// A code span is never empty.
pub proof fn lemma_markdown_code_nonempty(t: Seq<char>)
    ensures
        markdown_code(t) matches Some(v) ==> v.len() > 0,
{
}

/// Every id that `section_ids` collects is a non-empty code span.
pub proof fn lemma_section_ids_nonempty(lines: Seq<Seq<char>>, in_sec: bool)
    ensures
        forall|i: int|
            0 <= i < section_ids(lines, in_sec).len() ==> #[trigger] section_ids(
                lines,
                in_sec,
            )[i].len() > 0,
    decreases lines.len(),
{
    if lines.len() > 0 {
        let line = trim(lines[0]);
        let rest = lines.drop_first();
        lemma_section_ids_nonempty(rest, true);
        lemma_section_ids_nonempty(rest, false);
        let r = section_ids(lines, in_sec);
        assert forall|i: int| 0 <= i < r.len() implies #[trigger] r[i].len() > 0 by {
            if starts_with(line, "## "@) && line == models_heading() {
                assert(r[i] == section_ids(rest, true)[i]);
            } else if starts_with(line, "## "@) && in_sec {
            } else if !in_sec {
                assert(r[i] == section_ids(rest, false)[i]);
            } else {
                match row_id(line) {
                    Some(id) => {
                        lemma_markdown_code_nonempty(first_cell(line));
                        if i > 0 {
                            assert(r[i] == section_ids(rest, true)[i - 1]);
                        }
                    },
                    None => {
                        assert(r[i] == section_ids(rest, true)[i]);
                    },
                }
            }
        }
    }
}

/// The README's model ids are distinct and none of them is empty.
pub proof fn readme_ids_distinct_and_nonempty(readme: Seq<char>)
    ensures
        forall|i: int, j: int|
            0 <= i < j < readme_model_ids(readme).len() ==> readme_model_ids(readme)[i]
                != readme_model_ids(readme)[j],
        forall|i: int|
            0 <= i < readme_model_ids(readme).len() ==> #[trigger] readme_model_ids(
                readme,
            )[i].len() > 0,
{
    let c = section_ids(split(readme, '\n'), false);
    lemma_dedup_distinct(c);
    lemma_dedup_subset(c);
    lemma_section_ids_nonempty(split(readme, '\n'), false);
    assert forall|i: int| 0 <= i < readme_model_ids(readme).len() implies #[trigger] readme_model_ids(
        readme,
    )[i].len() > 0 by {
        let k = choose|k: int| 0 <= k < c.len() && c[k] == dedup(c)[i];
        assert(c[k].len() > 0);
    }
}

/// Whether reading `lines` from state `in_sec` ends inside the model section
/// (`Some(true)`), outside it (`Some(false)`), or stopped at a heading that
/// closed the section (`None`).
pub open spec fn state_after(lines: Seq<Seq<char>>, in_sec: bool) -> Option<bool>
    decreases lines.len(),
{
    if lines.len() == 0 {
        Some(in_sec)
    } else {
        let line = trim(lines[0]);
        let rest = lines.drop_first();
        if starts_with(line, "## "@) && line == models_heading() {
            state_after(rest, true)
        } else if starts_with(line, "## "@) && in_sec {
            None
        } else {
            state_after(rest, in_sec)
        }
    }
}

/// The ids that reading goes on to collect from `more` in the state `st`
/// that an earlier part of the text left.
pub open spec fn ids_after(st: Option<bool>, more: Seq<Seq<char>>) -> Seq<Seq<char>> {
    match st {
        Some(in_sec) => section_ids(more, in_sec),
        None => Seq::empty(),
    }
}

/// The ids of two runs of lines are those of the first, then those that the
/// second gives in the state where the first left off.
pub proof fn lemma_section_ids_append(first: Seq<Seq<char>>, more: Seq<Seq<char>>, in_sec: bool)
    ensures
        section_ids(first + more, in_sec) == section_ids(first, in_sec) + ids_after(
            state_after(first, in_sec),
            more,
        ),
    decreases first.len(),
{
    if first.len() == 0 {
        assert(first + more == more);
    } else {
        let all = first + more;
        assert(all[0] == first[0]);
        assert(all.drop_first() == first.drop_first() + more);
        let line = trim(first[0]);
        let rest = first.drop_first();
        lemma_section_ids_append(rest, more, true);
        lemma_section_ids_append(rest, more, false);
        if starts_with(line, "## "@) && line == models_heading() {
        } else if starts_with(line, "## "@) && in_sec {
        } else if !in_sec {
        } else {
            match row_id(line) {
                Some(id) => {
                    assert(seq![id] + (section_ids(rest, true) + ids_after(
                        state_after(rest, true),
                        more,
                    )) == seq![id] + section_ids(rest, true) + ids_after(
                        state_after(rest, true),
                        more,
                    ));
                },
                None => {},
            }
        }
    }
}

/// Once inside the model section, reading never ends outside it without a
/// closing heading.
pub proof fn lemma_state_after_inside(lines: Seq<Seq<char>>)
    ensures
        state_after(lines, true) != Some(false),
    decreases lines.len(),
{
    if lines.len() > 0 {
        lemma_state_after_inside(lines.drop_first());
    }
}

/// Lines that hold the model heading leave reading inside the section or
/// stopped at a closing heading.
pub proof fn lemma_state_after_heading(lines: Seq<Seq<char>>, k: int)
    requires
        0 <= k < lines.len(),
        trim(lines[k]) == models_heading(),
    ensures
        state_after(lines, false) != Some(false),
    decreases lines.len(),
{
    let rest = lines.drop_first();
    lemma_state_after_inside(rest);
    if k == 0 {
        reveal_strlit("## \u{6a21}\u{578b}\u{652f}\u{6301}");
        reveal_strlit("## ");
        assert(models_heading().subrange(0, 3) == "## "@);
    } else {
        assert(rest[k - 1] == lines[k]);
        lemma_state_after_heading(rest, k - 1);
    }
}

/// Once the model section has begun, the next `## ` heading other than the
/// section's own ends it: nothing after that heading adds a model id.
pub proof fn later_heading_ends_model_section(a: Seq<char>, h: Seq<char>, b: Seq<char>)
    requires
        exists|k: int|
            0 <= k < split(a, '\n').len() && #[trigger] trim(split(a, '\n')[k])
                == models_heading(),
        !h.contains('\n'),
        starts_with(trim(h), "## "@),
        trim(h) != models_heading(),
    ensures
        readme_model_ids(a + "\n"@ + h + "\n"@ + b) == readme_model_ids(a),
{
    reveal_strlit("\n");
    let nl: Seq<char> = seq!['\n'];
    assert("\n"@ == nl);
    let k = choose|k: int|
        0 <= k < split(a, '\n').len() && #[trigger] trim(split(a, '\n')[k]) == models_heading();
    lemma_split_join(a, '\n', h);
    lemma_split_join(a + nl + h, '\n', b);
    lemma_split_single(h, '\n');
    let la = split(a, '\n');
    let lb = split(b, '\n');
    assert(split(a + nl + h + nl + b, '\n') == la + (seq![h] + lb));
    lemma_section_ids_append(la, seq![h] + lb, false);
    lemma_state_after_heading(la, k);
    let tail = seq![h] + lb;
    assert(tail[0] == h);
    assert(tail.drop_first() == lb);
    assert(section_ids(tail, true) == Seq::<Seq<char>>::empty());
    assert(section_ids(la, false) + Seq::<Seq<char>>::empty() == section_ids(la, false));
}

/// The text between the first two backticks of `text`, trimmed, or nothing
/// when there are fewer than two backticks or only white space between them.
pub fn extract_markdown_code(text: &str) -> (r: Option<String>)
    ensures
        match r {
            Some(v) => markdown_code(text@) == Some(v@),
            None => markdown_code(text@) is None,
        },
{
    let t = chars_of(text);
    let a = match find_char(&t, '`') {
        Some(a) => a,
        None => return None,
    };
    proof {
        lemma_find_from_bounds(t@, '`', 0);
    }
    let rest = sub_chars(&t, a + 1, t.len());
    assert(rest@ == t@.skip(a + 1));
    let b = match find_char(&rest, '`') {
        Some(b) => b,
        None => return None,
    };
    proof {
        lemma_find_from_bounds(rest@, '`', 0);
    }
    let inner = sub_chars(&rest, 0, b);
    assert(inner@ == rest@.take(b as int));
    let v = trim_chars(&inner);
    if v.len() == 0 {
        None
    } else {
        Some(string_of(&v))
    }
}

/// The model id of a trimmed line of the model support section, if it is a
/// table row whose first cell holds a code span.
fn row_model_id(line: &Vec<char>, pipe: &Vec<char>, separator: &Vec<char>, marker: &Vec<char>) -> (r:
    Option<String>)
    requires
        pipe@ == "|"@,
        separator@ == ":--"@,
        marker@ == header_marker(),
    ensures
        match r {
            Some(v) => row_id(line@) == Some(v@),
            None => row_id(line@) is None,
        },
{
    if !starts_with_chars(line, pipe) || contains_chars(line, separator) || contains_chars(
        line,
        marker,
    ) {
        return None;
    }
    let stripped = trim_pipe_chars(line);
    let cell = before_first_chars(&stripped, '|');
    let cell = trim_chars(&cell);
    let cell_text = string_of(&cell);
    extract_markdown_code(cell_text.as_str())
}

/// The model ids that the README's model support tables list, each once, in
/// order of first appearance. The section runs from the `## 模型支持` heading
/// to the next `## ` heading; in it, every table row other than a header or
/// separator row contributes the code span of its first cell.
pub fn parse_model_ids_from_readme(readme: &str) -> (r: Vec<String>)
    ensures
        views(r@) == readme_model_ids(readme@),
{
    let text = chars_of(readme);
    let lines = split_chars(&text, '\n');
    let heading = chars_of("## ");
    let section = chars_of("## \u{6a21}\u{578b}\u{652f}\u{6301}");
    let pipe = chars_of("|");
    let separator = chars_of(":--");
    let marker = chars_of("\u{6a21}\u{578b}\u{540d}");
    let ghost all = char_views(lines@);
    let mut in_sec = false;
    let mut models: Vec<String> = Vec::new();
    let ghost mut collected: Seq<Seq<char>> = Seq::empty();
    let mut i: usize = 0;
    assert(all.skip(0) == all);
    assert(views(models@) =~= dedup(collected));
    while i < lines.len()
        invariant
            i <= lines.len(),
            all == char_views(lines@),
            all == split(readme@, '\n'),
            heading@ == "## "@,
            section@ == models_heading(),
            pipe@ == "|"@,
            separator@ == ":--"@,
            marker@ == header_marker(),
            section_ids(all, false) == collected + section_ids(all.skip(i as int), in_sec),
            views(models@) == dedup(collected),
        ensures
            views(models@) == readme_model_ids(readme@),
        decreases lines.len() - i,
    {
        let ghost rest = all.skip(i as int);
        assert(rest[0] == lines@[i as int]@);
        assert(rest.drop_first() == all.skip(i + 1));
        let line = trim_chars(&lines[i]);
        let is_heading = starts_with_chars(&line, &heading);
        if is_heading && eq_chars(&line, &section) {
            in_sec = true;
            i += 1;
            continue;
        }
        if is_heading && in_sec {
            assert(collected + Seq::<Seq<char>>::empty() == collected);
            break;
        }
        if !in_sec {
            i += 1;
            continue;
        }
        match row_model_id(&line, &pipe, &separator, &marker) {
            Some(id) => {
                let ghost before = collected;
                proof {
                    collected = collected.push(id@);
                    assert(before + (seq![id@] + section_ids(all.skip(i + 1), true)) == collected
                        + section_ids(all.skip(i + 1), true));
                    assert(collected.drop_last() == before);
                }
                if !contains_string(&models, &id) {
                    models.push(id);
                    assert(views(models@) =~= dedup(before).push(id@));
                }
            },
            None => {},
        }
        i += 1;
    }
    proof {
        if i == lines.len() {
            assert(all.skip(i as int).len() == 0);
            assert(collected + Seq::<Seq<char>>::empty() == collected);
        }
    }
    models
}

/// The `/v1/models` answer: an object of kind "list" with one entry per id.
pub fn model_list_json(ids: &Vec<String>) -> (r: Json)
    ensures
        r@ == model_list(views(ids@)),
{
    let mut data: Vec<Json> = Vec::new();
    let mut i: usize = 0;
    while i < ids.len()
        invariant
            i <= ids.len(),
            jviews(data@) == model_entries(views(ids@).take(i as int)),
        decreases ids.len() - i,
    {
        let mut fields: Vec<(String, Json)> = Vec::new();
        fields.push((owned("id"), Json::Str(ids[i].clone())));
        fields.push((owned("object"), jstring("model")));
        fields.push((owned("created"), Json::Int(0)));
        fields.push((owned("owned_by"), jstring("grok2api")));
        let entry = Json::Object(fields);
        proof {
            lemma_view_fields(fields@);
            assert(view_fields(fields@) =~= seq![
                ("id"@, JsonV::Str(ids@[i as int]@)),
                ("object"@, JsonV::Str("model"@)),
                ("created"@, JsonV::Int(0)),
                ("owned_by"@, JsonV::Str("grok2api"@)),
            ]);
        }
        assert(views(ids@)[i as int] == ids@[i as int]@);
        assert(entry@ == model_entry(ids@[i as int]@));
        let ghost prev = data@;
        assert(jviews(prev).len() == prev.len());
        assert(views(ids@).take(i as int).len() == i);
        assert(prev.len() == i);
        data.push(entry);
        assert(data@.len() == i + 1);
        assert(jviews(data@).len() == i + 1);
        assert forall|k: int| 0 <= k < i + 1 implies #[trigger] jviews(data@)[k] == model_entries(
            views(ids@).take(i + 1),
        )[k] by {
            if k < i {
                assert(jviews(data@)[k] == jviews(prev)[k]);
            }
        }
        assert(jviews(data@) =~= model_entries(views(ids@).take(i + 1)));
        i += 1;
    }
    assert(views(ids@).take(ids@.len() as int) =~= views(ids@));
    proof {
        lemma_view_items(data@);
    }
    let mut top: Vec<(String, Json)> = Vec::new();
    top.push((owned("object"), jstring("list")));
    top.push((owned("data"), Json::Array(data)));
    proof {
        lemma_view_fields(top@);
        assert(view_fields(top@) =~= seq![
            ("object"@, JsonV::Str("list"@)),
            ("data"@, JsonV::Array(model_entries(views(ids@)))),
        ]);
    }
    Json::Object(top)
}

/// What fetching the README yields, from the fetch's status (`success`,
/// `status`), a preview of the body for the error message, and the body.
pub fn model_source_result(success: bool, status: u16, preview: &str, body: &str) -> (r: Result<
    Vec<String>,
    ApiError,
>)
    ensures
        match r {
            Ok(ids) => model_source_outcome(success, status as nat, preview@, body@) == Ok::<
                Seq<Seq<char>>,
                ApiErrorV,
            >(views(ids@)),
            Err(e) => model_source_outcome(success, status as nat, preview@, body@) == Err::<
                Seq<Seq<char>>,
                ApiErrorV,
            >(e@),
        },
{
    if !success {
        let mut m = owned("Fetch model source failed: ");
        m.append(decimal_string(status as usize).as_str());
        m.append("; body: ");
        m.append(preview);
        return Err(ApiError::upstream(m));
    }
    let models = parse_model_ids_from_readme(body);
    if models.len() == 0 {
        return Err(ApiError::upstream(owned("No models parsed from model source README")));
    }
    Ok(models)
}

} // verus!

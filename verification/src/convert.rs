use crate::json::{self, new_items, new_members, new_object, push_item, push_member, text, Json, JsonV};
use crate::text::text_eq;
use vstd::prelude::*;

verus! {

// ---------------------------------------------------------------------------
// Roles and message content
// ---------------------------------------------------------------------------

/// The Chat role for a Responses role: `developer` becomes `system`.
pub open spec fn chat_role(role: Seq<char>) -> Seq<char> {
    if role == "developer"@ {
        "system"@
    } else {
        role
    }
}

/// The text of one content part: its `text` member, or, where there is
/// no `text` member, its `content` member, whichever is a string.
pub open spec fn part_text(part: JsonV) -> Option<Seq<char>> {
    match part.get("text"@) {
        Some(v) => v.as_str(),
        None => json::get_str(part, "content"@),
    }
}

/// The texts of the parts, one after another.
pub open spec fn joined_part_texts(parts: Seq<JsonV>) -> Seq<char>
    decreases parts.len(),
{
    if parts.len() == 0 {
        Seq::empty()
    } else {
        joined_part_texts(parts.drop_last()) + match part_text(parts.last()) {
            Some(t) => t,
            None => Seq::empty(),
        }
    }
}

/// Chat message content for Responses content: an array of parts becomes
/// the string of their texts; anything else is kept.
pub open spec fn chat_content(content: JsonV) -> JsonV {
    match content.as_array() {
        Some(parts) => JsonV::Str(joined_part_texts(parts)),
        None => content,
    }
}

/// The Chat message for a Responses message item, which needs a string `role`.
pub open spec fn chat_message(item: JsonV) -> Option<JsonV> {
    match json::get_str(item, "role"@) {
        Some(role) => Some(
            JsonV::Object(
                seq![
                    ("role"@, json::str_v(chat_role(role))),
                    ("content"@, match item.get("content"@) {
                        Some(c) => chat_content(c),
                        None => json::str_v(""@),
                    }),
                ],
            ),
        ),
        None => None,
    }
}

pub fn responses_role_to_chat_role(role: &str) -> (r: &str)
    ensures
        r@ == chat_role(role@),
{
    if text_eq(role, "developer") {
        "system"
    } else {
        role
    }
}

fn responses_content_to_chat_content(content: &Json) -> (r: Json)
    ensures
        r@ == chat_content(content@),
{
    let parts = match content.as_array() {
        Some(parts) => parts,
        None => return content.clone(),
    };
    let ghost ps = json::items_view(parts@);
    let mut text = String::new();
    proof {
        json::lemma_items_view(parts@);
        assert(ps.take(0) =~= Seq::<JsonV>::empty());
    }
    for i in 0..parts.len()
        invariant
            ps == json::items_view(parts@),
            ps.len() == parts@.len(),
            forall|k: int| 0 <= k < ps.len() ==> #[trigger] ps[k] == json::json_view(parts@[k]),
            text@ == joined_part_texts(ps.take(i as int)),
    {
        assert(ps.take(i + 1).drop_last() =~= ps.take(i as int));
        let part = &parts[i];
        let piece = match part.get("text") {
            Some(v) => v.as_str(),
            None => part.get_str("content"),
        };
        if let Some(t) = piece {
            text.append(t);
        }
        assert(text@ =~= joined_part_texts(ps.take(i + 1)));
    }
    assert(ps.take(parts.len() as int) =~= ps);
    Json::Str(text)
}

pub(crate) fn responses_message_to_chat_message(item: &Json) -> (r: Option<Json>)
    ensures
        json::opt_json_view(r) == chat_message(item@),
{
    let role = match item.get_str("role") {
        Some(role) => role,
        None => return None,
    };
    let role = responses_role_to_chat_role(role);
    let content = match item.get("content") {
        Some(c) => responses_content_to_chat_content(c),
        None => text(""),
    };
    let mut es = new_members();
    push_member(&mut es, "role", text(role));
    push_member(&mut es, "content", content);
    let r = Json::Object(es);
    assert(json::entries_view(es@) =~= chat_message(item@).unwrap()->Object_0);
    Some(r)
}


// ---------------------------------------------------------------------------
// Tool choice and tools
// ---------------------------------------------------------------------------

/// Whether the member `type` of `j` is the string `function`.
pub open spec fn is_function_typed(j: JsonV) -> bool {
    json::get_str(j, "type"@) == Some("function"@)
}

/// The Chat `tool_choice` for a Responses one: a string is kept; a
/// function choice that names its function at the top level is nested
/// under `function` (and dropped when the name is missing or empty); a
/// function choice that already has `function` is kept; anything else is
/// dropped.
pub open spec fn chat_tool_choice(choice: JsonV) -> Option<JsonV> {
    if choice.as_str() is Some {
        Some(choice)
    } else if is_function_typed(choice) && choice.get("function"@) is None {
        match json::get_str(choice, "name"@) {
            Some(name) => if name.len() == 0 {
                None
            } else {
                Some(
                    JsonV::Object(
                        seq![
                            ("type"@, json::str_v("function"@)),
                            ("function"@, JsonV::Object(seq![("name"@, json::str_v(name))])),
                        ],
                    ),
                )
            },
            None => None,
        }
    } else if is_function_typed(choice) {
        Some(choice)
    } else {
        None
    }
}

/// The Responses `tool_choice` for a Chat one: a function choice with a
/// `function.name` is flattened to `{type, name}`; anything else is kept.
pub open spec fn responses_tool_choice(choice: JsonV) -> JsonV {
    match json::path2(choice, "function"@, "name"@) {
        Some(name) => if is_function_typed(choice) {
            JsonV::Object(seq![("type"@, json::str_v("function"@)), ("name"@, name)])
        } else {
            choice
        },
        None => choice,
    }
}

/// The name of a Responses tool: its string `name`, or else its string
/// `function.name`.
pub open spec fn tool_name(tool: JsonV) -> Option<Seq<char>> {
    match json::get_str(tool, "name"@) {
        Some(n) => Some(n),
        None => match json::path2(tool, "function"@, "name"@) {
            Some(v) => v.as_str(),
            None => None,
        },
    }
}

/// The Chat tool for a Responses tool. Only function tools with a non-empty
/// name are kept; a flat one gets its `name`, `description` (default `""`)
/// and `parameters` (default `{}`) nested under `function`.
pub open spec fn chat_tool(tool: JsonV) -> Option<JsonV> {
    if !is_function_typed(tool) {
        None
    } else {
        match tool_name(tool) {
            Some(name) => if name.len() == 0 {
                None
            } else if tool.get("function"@) is None {
                Some(
                    JsonV::Object(
                        seq![
                            ("type"@, json::str_v("function"@)),
                            ("function"@, JsonV::Object(seq![
                                ("name"@, json::str_v(name)),
                                ("description"@, json::get_or(tool, "description"@, json::str_v(""@))),
                                ("parameters"@, json::get_or(tool, "parameters"@, json::empty_object())),
                            ])),
                        ],
                    ),
                )
            } else {
                Some(tool)
            },
            None => None,
        }
    }
}

/// The Chat tools for a list of Responses tools, in order, dropping those
/// that `chat_tool` drops.
pub open spec fn chat_tool_list(tools: Seq<JsonV>) -> Seq<JsonV>
    decreases tools.len(),
{
    if tools.len() == 0 {
        Seq::empty()
    } else {
        match chat_tool(tools.last()) {
            Some(t) => chat_tool_list(tools.drop_last()).push(t),
            None => chat_tool_list(tools.drop_last()),
        }
    }
}

/// Chat `tools` for Responses `tools`: an array is converted tool by tool;
/// anything else is kept.
pub open spec fn chat_tools(tools: JsonV) -> JsonV {
    match tools.as_array() {
        Some(arr) => JsonV::Array(chat_tool_list(arr)),
        None => tools,
    }
}

/// The Responses tool for a Chat tool: a function tool with a `function`
/// member is flattened to `{type, name, description, parameters}` with the
/// defaults `"function"`, `""` and `{}`; anything else is kept.
pub open spec fn responses_tool(tool: JsonV) -> JsonV {
    match tool.get("function"@) {
        Some(func) => if is_function_typed(tool) {
            JsonV::Object(
                seq![
                    ("type"@, json::str_v("function"@)),
                    ("name"@, json::get_or(func, "name"@, json::str_v("function"@))),
                    ("description"@, json::get_or(func, "description"@, json::str_v(""@))),
                    ("parameters"@, json::get_or(func, "parameters"@, json::empty_object())),
                ],
            )
        } else {
            tool
        },
        None => tool,
    }
}

/// Responses `tools` for Chat `tools`: an array is converted tool by tool;
/// anything else is kept.
pub open spec fn responses_tools(tools: JsonV) -> JsonV {
    match tools.as_array() {
        Some(arr) => JsonV::Array(arr.map_values(|t: JsonV| responses_tool(t))),
        None => tools,
    }
}

fn is_function_typed_exec(j: &Json) -> (r: bool)
    ensures
        r == is_function_typed(j@),
{
    match j.get_str("type") {
        Some(t) => text_eq(t, "function"),
        None => false,
    }
}

pub(crate) fn responses_tool_choice_to_chat(choice: &Json) -> (r: Option<Json>)
    ensures
        json::opt_json_view(r) == chat_tool_choice(choice@),
{
    if choice.as_str().is_some() {
        return Some(choice.clone());
    }
    if is_function_typed_exec(choice) && choice.get("function").is_none() {
        let name = match choice.get_str("name") {
            Some(name) => name,
            None => return None,
        };
        if name.is_empty() {
            return None;
        }
        let mut inner = new_members();
        push_member(&mut inner, "name", text(name));
        let mut es = new_members();
        push_member(&mut es, "type", text("function"));
        push_member(&mut es, "function", Json::Object(inner));
        assert(json::entries_view(inner@) =~= seq![("name"@, json::str_v(name@))]);
        assert(json::entries_view(es@) =~= chat_tool_choice(choice@).unwrap()->Object_0);
        return Some(Json::Object(es));
    }
    if is_function_typed_exec(choice) {
        return Some(choice.clone());
    }
    None
}

pub(crate) fn chat_tool_choice_to_responses(choice: &Json) -> (r: Json)
    ensures
        r@ == responses_tool_choice(choice@),
{
    if is_function_typed_exec(choice) {
        if let Some(name) = choice.path2("function", "name") {
            let mut es = new_members();
            push_member(&mut es, "type", text("function"));
            push_member(&mut es, "name", name.clone());
            assert(json::entries_view(es@) =~= responses_tool_choice(choice@)->Object_0);
            return Json::Object(es);
        }
    }
    choice.clone()
}

fn responses_tool_to_chat_tool(tool: &Json) -> (r: Option<Json>)
    ensures
        json::opt_json_view(r) == chat_tool(tool@),
{
    if !is_function_typed_exec(tool) {
        return None;
    }
    let name = match tool.get_str("name") {
        Some(n) => Some(n),
        None => match tool.path2("function", "name") {
            Some(v) => v.as_str(),
            None => None,
        },
    };
    let name = match name {
        Some(n) => n,
        None => return None,
    };
    if name.is_empty() {
        return None;
    }
    if tool.get("function").is_none() {
        let mut func = new_members();
        push_member(&mut func, "name", text(name));
        push_member(&mut func, "description", tool.get_or("description", text("")));
        push_member(&mut func, "parameters", tool.get_or("parameters", new_object()));
        let mut es = new_members();
        push_member(&mut es, "type", text("function"));
        push_member(&mut es, "function", Json::Object(func));
        assert(json::entries_view(func@) =~= chat_tool(tool@).unwrap()->Object_0[1].1->Object_0);
        assert(json::entries_view(es@) =~= chat_tool(tool@).unwrap()->Object_0);
        Some(Json::Object(es))
    } else {
        Some(tool.clone())
    }
}

pub(crate) fn responses_tools_to_chat_tools(tools: &Json) -> (r: Json)
    ensures
        r@ == chat_tools(tools@),
{
    let arr = match tools.as_array() {
        Some(arr) => arr,
        None => return tools.clone(),
    };
    let ghost av = json::items_view(arr@);
    proof {
        json::lemma_items_view(arr@);
        assert(av.take(0) =~= Seq::<JsonV>::empty());
    }
    let mut out = new_items();
    for i in 0..arr.len()
        invariant
            av == json::items_view(arr@),
            av.len() == arr@.len(),
            forall|k: int| 0 <= k < av.len() ==> #[trigger] av[k] == json::json_view(arr@[k]),
            json::items_view(out@) == chat_tool_list(av.take(i as int)),
    {
        assert(av.take(i + 1).drop_last() =~= av.take(i as int));
        assert(av.take(i + 1).last() == av[i as int]);
        if let Some(t) = responses_tool_to_chat_tool(&arr[i]) {
            push_item(&mut out, t);
        }
    }
    assert(av.take(arr.len() as int) =~= av);
    Json::Array(out)
}

fn chat_tool_to_responses_tool(tool: &Json) -> (r: Json)
    ensures
        r@ == responses_tool(tool@),
{
    if is_function_typed_exec(tool) {
        if let Some(func) = tool.get("function") {
            let mut es = new_members();
            push_member(&mut es, "type", text("function"));
            push_member(&mut es, "name", func.get_or("name", text("function")));
            push_member(&mut es, "description", func.get_or("description", text("")));
            push_member(&mut es, "parameters", func.get_or("parameters", new_object()));
            assert(json::entries_view(es@) =~= responses_tool(tool@)->Object_0);
            return Json::Object(es);
        }
    }
    tool.clone()
}

pub(crate) fn chat_tools_to_responses_tools(tools: &Json) -> (r: Json)
    ensures
        r@ == responses_tools(tools@),
{
    let arr = match tools.as_array() {
        Some(arr) => arr,
        None => return tools.clone(),
    };
    let ghost av = json::items_view(arr@);
    proof {
        json::lemma_items_view(arr@);
    }
    let mut out = new_items();
    for i in 0..arr.len()
        invariant
            av == json::items_view(arr@),
            av.len() == arr@.len(),
            forall|k: int| 0 <= k < av.len() ==> #[trigger] av[k] == json::json_view(arr@[k]),
            json::items_view(out@) =~= av.take(i as int).map_values(|t: JsonV| responses_tool(t)),
    {
        push_item(&mut out, chat_tool_to_responses_tool(&arr[i]));
    }
    assert(av.take(arr.len() as int) =~= av);
    Json::Array(out)
}

} // verus!

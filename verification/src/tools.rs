//! The tools that the slide model is offered.

use serde_json::Value;
use vstd::prelude::*;
use vstd::string::*;

use crate::json::{
    array, field, json_entries, json_view, json_views, object, put, put_text, text, text_field,
    JsonView,
};

verus! {

/// The type of a property.
pub open spec fn typed(name: Seq<char>) -> JsonView {
    JsonView::Object(map!["type"@ => JsonView::Text(name)])
}

/// A property that holds a text, with a description.
pub open spec fn described(description: Seq<char>) -> JsonView {
    JsonView::Object(
        map![
            "type"@ => JsonView::Text("string"@),
            "description"@ => JsonView::Text(description),
        ],
    )
}

pub open spec fn text_items(names: Seq<&str>) -> JsonView {
    JsonView::Array(names.map_values(|n: &str| JsonView::Text(n@)))
}

/// An object with these properties, of which some must be there.
pub open spec fn shaped(
    properties: Map<Seq<char>, JsonView>,
    required: Seq<&str>,
) -> JsonView {
    JsonView::Object(
        map![
            "type"@ => JsonView::Text("object"@),
            "properties"@ => JsonView::Object(properties),
            "required"@ => text_items(required),
        ],
    )
}

/// A tool: its name, what it is for, and the arguments that it takes.
pub open spec fn tool(
    name: Seq<char>,
    description: Seq<char>,
    parameters: JsonView,
) -> JsonView {
    JsonView::Object(
        map![
            "type"@ => JsonView::Text("function"@),
            "function"@ => JsonView::Object(
                map![
                    "name"@ => JsonView::Text(name),
                    "description"@ => JsonView::Text(description),
                    "parameters"@ => parameters,
                ],
            ),
        ],
    )
}

fn typed_value(name: &str) -> (r: Value)
    ensures
        json_view(r) == typed(name@),
{
    let mut m = serde_json::Map::new();
    put_text(&mut m, "type", name);
    object(m)
}

pub(crate) fn described_value(description: &str) -> (r: Value)
    ensures
        json_view(r) == described(description@),
{
    let mut m = serde_json::Map::new();
    put_text(&mut m, "type", "string");
    put_text(&mut m, "description", description);
    object(m)
}

pub(crate) fn text_list(names: Vec<&'static str>) -> (r: Value)
    ensures
        json_view(r) == text_items(names@),
{
    let ghost one = |n: &str| JsonView::Text(n@);
    let ghost want = names@.map_values(one);
    let mut items: Vec<Value> = Vec::new();
    let mut i: usize = 0;
    while i < names.len()
        invariant
            i <= names@.len(),
            one == (|n: &str| JsonView::Text(n@)),
            want == names@.map_values(one),
            json_views(items@) =~= want.take(i as int),
        decreases names@.len() - i,
    {
        assert(want[i as int] == JsonView::Text(names@[i as int]@));
        items.push(text(names[i]));
        i = i + 1;
        assert(want.take(i as int) =~= want.take(i - 1).push(want[i - 1]));
    }
    assert(json_views(items@) =~= want);
    array(items)
}

pub(crate) fn shaped_value(
    properties: serde_json::Map<String, Value>,
    required: Vec<&'static str>,
) -> (r: Value)
    ensures
        json_view(r) == shaped(json_entries(properties), required@),
{
    let mut m = serde_json::Map::new();
    put_text(&mut m, "type", "object");
    put(&mut m, "properties", object(properties));
    put(&mut m, "required", text_list(required));
    object(m)
}

fn tool_value(name: &str, description: &str, parameters: Value) -> (r: Value)
    ensures
        json_view(r) == tool(name@, description@, json_view(parameters)),
{
    let mut f = serde_json::Map::new();
    put_text(&mut f, "name", name);
    put_text(&mut f, "description", description);
    put(&mut f, "parameters", parameters);
    let mut m = serde_json::Map::new();
    put_text(&mut m, "type", "function");
    put(&mut m, "function", object(f));
    object(m)
}

/// What one slide of a deck that is written holds.
pub open spec fn slide_schema() -> JsonView {
    JsonView::Object(
        map![
            "type"@ => JsonView::Text("object"@),
            "properties"@ => JsonView::Object(
                map![
                    "title"@ => described("Plain-text slide title for the outline."@),
                    "html"@ => described(
                        "Inner HTML using the fixed class vocabulary. No inline styles or <style> tags."@,
                    ),
                ],
            ),
            "required"@ => text_items(seq!["title", "html"]),
        ],
    )
}

fn slide_schema_value() -> (r: Value)
    ensures
        json_view(r) == slide_schema(),
{
    let mut p = serde_json::Map::new();
    put(&mut p, "title", described_value("Plain-text slide title for the outline."));
    put(
        &mut p,
        "html",
        described_value(
            "Inner HTML using the fixed class vocabulary. No inline styles or <style> tags.",
        ),
    );
    let required = vec!["title", "html"];
    assert(required@ =~= seq!["title", "html"]);
    shaped_value(p, required)
}

/// The tool that replaces the whole deck.
pub open spec fn write_deck_tool() -> JsonView {
    tool(
        "write_deck"@,
        "Replace the ENTIRE deck. Use only for a brand-new deck or a restructure that changes most slides. Include every slide that should exist after, in order."@,
        shaped(
            map![
                "title"@ => typed("string"@),
                "theme_css"@ => typed("string"@),
                "slides"@ => JsonView::Object(
                    map!["type"@ => JsonView::Text("array"@), "items"@ => slide_schema()],
                ),
            ],
            seq!["title", "theme_css", "slides"],
        ),
    )
}

fn write_deck_schema() -> (r: Value)
    ensures
        json_view(r) == write_deck_tool(),
{
    let mut slides = serde_json::Map::new();
    put_text(&mut slides, "type", "array");
    put(&mut slides, "items", slide_schema_value());
    let mut p = serde_json::Map::new();
    put(&mut p, "title", typed_value("string"));
    put(&mut p, "theme_css", typed_value("string"));
    put(&mut p, "slides", object(slides));
    let required = vec!["title", "theme_css", "slides"];
    assert(required@ =~= seq!["title", "theme_css", "slides"]);
    tool_value(
        "write_deck",
        "Replace the ENTIRE deck. Use only for a brand-new deck or a restructure that changes most slides. Include every slide that should exist after, in order.",
        shaped_value(p, required),
    )
}

/// The tool that inserts one slide.
pub open spec fn add_slide_tool() -> JsonView {
    tool(
        "add_slide"@,
        "Insert ONE new slide. By default appends to the end."@,
        shaped(
            map![
                "title"@ => typed("string"@),
                "html"@ => typed("string"@),
                "after_id"@ => described("Insert after the slide with this id. Omit to append."@),
            ],
            seq!["title", "html"],
        ),
    )
}

fn add_slide_schema() -> (r: Value)
    ensures
        json_view(r) == add_slide_tool(),
{
    let mut p = serde_json::Map::new();
    put(&mut p, "title", typed_value("string"));
    put(&mut p, "html", typed_value("string"));
    put(&mut p, "after_id", described_value("Insert after the slide with this id. Omit to append."));
    let required = vec!["title", "html"];
    assert(required@ =~= seq!["title", "html"]);
    tool_value(
        "add_slide",
        "Insert ONE new slide. By default appends to the end.",
        shaped_value(p, required),
    )
}

/// The tool that edits one slide.
pub open spec fn edit_slide_tool() -> JsonView {
    tool(
        "edit_slide"@,
        "Replace the title and/or html of ONE existing slide, identified by id. Other slides untouched."@,
        shaped(
            map![
                "id"@ => typed("string"@),
                "title"@ => typed("string"@),
                "html"@ => typed("string"@),
            ],
            seq!["id"],
        ),
    )
}

fn edit_slide_schema() -> (r: Value)
    ensures
        json_view(r) == edit_slide_tool(),
{
    let mut p = serde_json::Map::new();
    put(&mut p, "id", typed_value("string"));
    put(&mut p, "title", typed_value("string"));
    put(&mut p, "html", typed_value("string"));
    let required = vec!["id"];
    assert(required@ =~= seq!["id"]);
    tool_value(
        "edit_slide",
        "Replace the title and/or html of ONE existing slide, identified by id. Other slides untouched.",
        shaped_value(p, required),
    )
}

/// The tool that removes one slide.
pub open spec fn delete_slide_tool() -> JsonView {
    tool(
        "delete_slide"@,
        "Remove ONE slide by id."@,
        shaped(
            map![
                "id"@ => typed("string"@),
            ],
            seq!["id"],
        ),
    )
}

fn delete_slide_schema() -> (r: Value)
    ensures
        json_view(r) == delete_slide_tool(),
{
    let mut p = serde_json::Map::new();
    put(&mut p, "id", typed_value("string"));
    let required = vec!["id"];
    assert(required@ =~= seq!["id"]);
    tool_value(
        "delete_slide",
        "Remove ONE slide by id.",
        shaped_value(p, required),
    )
}

/// The tool that moves one slide.
pub open spec fn move_slide_tool() -> JsonView {
    tool(
        "move_slide"@,
        "Reorder ONE slide to a new zero-based position."@,
        shaped(
            map![
                "id"@ => typed("string"@),
                "to_index"@ => typed("integer"@),
            ],
            seq!["id", "to_index"],
        ),
    )
}

fn move_slide_schema() -> (r: Value)
    ensures
        json_view(r) == move_slide_tool(),
{
    let mut p = serde_json::Map::new();
    put(&mut p, "id", typed_value("string"));
    put(&mut p, "to_index", typed_value("integer"));
    let required = vec!["id", "to_index"];
    assert(required@ =~= seq!["id", "to_index"]);
    tool_value(
        "move_slide",
        "Reorder ONE slide to a new zero-based position.",
        shaped_value(p, required),
    )
}

/// The tool that restyles the deck.
pub open spec fn set_theme_tool() -> JsonView {
    tool(
        "set_theme"@,
        "Replace theme_css for the whole deck. This is how you restyle / make a deck cohesive — one stylesheet restyles every slide."@,
        shaped(
            map![
                "theme_css"@ => typed("string"@),
            ],
            seq!["theme_css"],
        ),
    )
}

fn set_theme_schema() -> (r: Value)
    ensures
        json_view(r) == set_theme_tool(),
{
    let mut p = serde_json::Map::new();
    put(&mut p, "theme_css", typed_value("string"));
    let required = vec!["theme_css"];
    assert(required@ =~= seq!["theme_css"]);
    tool_value(
        "set_theme",
        "Replace theme_css for the whole deck. This is how you restyle / make a deck cohesive — one stylesheet restyles every slide.",
        shaped_value(p, required),
    )
}

/// The tool that renames the deck.
pub open spec fn set_title_tool() -> JsonView {
    tool(
        "set_title"@,
        "Rename the deck."@,
        shaped(
            map![
                "title"@ => typed("string"@),
            ],
            seq!["title"],
        ),
    )
}

fn set_title_schema() -> (r: Value)
    ensures
        json_view(r) == set_title_tool(),
{
    let mut p = serde_json::Map::new();
    put(&mut p, "title", typed_value("string"));
    let required = vec!["title"];
    assert(required@ =~= seq!["title"]);
    tool_value(
        "set_title",
        "Rename the deck.",
        shaped_value(p, required),
    )
}

/// The tool that makes an image.
pub open spec fn generate_image_tool() -> JsonView {
    tool(
        "generate_image"@,
        "Generate a real image from a text prompt and return its image id. Place it with <img class=\"slide-image\" data-img=\"<id>\">. Multiple calls in one turn run concurrently. Reuse an existing image instead of regenerating."@,
        shaped(
            map![
                "prompt"@ => typed("string"@),
                "size"@ => JsonView::Object(
                    map![
                        "type"@ => JsonView::Text("string"@),
                        "enum"@ => text_items(seq!["1024x1024", "1536x1024", "1024x1536"]),
                    ],
                ),
            ],
            seq!["prompt"],
        ),
    )
}

fn generate_image_schema() -> (r: Value)
    ensures
        json_view(r) == generate_image_tool(),
{
    let mut size = serde_json::Map::new();
    put_text(&mut size, "type", "string");
    let sizes = vec!["1024x1024", "1536x1024", "1024x1536"];
    assert(sizes@ =~= seq!["1024x1024", "1536x1024", "1024x1536"]);
    put(&mut size, "enum", text_list(sizes));
    let mut p = serde_json::Map::new();
    put(&mut p, "prompt", typed_value("string"));
    put(&mut p, "size", object(size));
    let required = vec!["prompt"];
    assert(required@ =~= seq!["prompt"]);
    tool_value(
        "generate_image",
        "Generate a real image from a text prompt and return its image id. Place it with <img class=\"slide-image\" data-img=\"<id>\">. Multiple calls in one turn run concurrently. Reuse an existing image instead of regenerating.",
        shaped_value(p, required),
    )
}

/// The tool that reads a reference file.
pub open spec fn read_reference_tool() -> JsonView {
    tool(
        "read_reference"@,
        "Read the full text of one reference file from the [REFERENCE LIBRARY] manifest, by its id. Call this for any file whose name/preview looks relevant to the instruction before building, then use its facts. Read only what you need."@,
        shaped(
            map![
                "id"@ => described("The reference file id from the manifest, e.g. \"r1\"."@),
            ],
            seq!["id"],
        ),
    )
}

fn read_reference_schema() -> (r: Value)
    ensures
        json_view(r) == read_reference_tool(),
{
    let mut p = serde_json::Map::new();
    put(&mut p, "id", described_value("The reference file id from the manifest, e.g. \"r1\"."));
    let required = vec!["id"];
    assert(required@ =~= seq!["id"]);
    tool_value(
        "read_reference",
        "Read the full text of one reference file from the [REFERENCE LIBRARY] manifest, by its id. Call this for any file whose name/preview looks relevant to the instruction before building, then use its facts. Read only what you need.",
        shaped_value(p, required),
    )
}

/// The tools; that for reference files only where there are some to read.
pub open spec fn tool_schemas(has_refs: bool) -> Seq<JsonView> {
    let always = seq![
        write_deck_tool(),
        add_slide_tool(),
        edit_slide_tool(),
        delete_slide_tool(),
        move_slide_tool(),
        set_theme_tool(),
        set_title_tool(),
        generate_image_tool(),
    ];
    if has_refs {
        always.push(read_reference_tool())
    } else {
        always
    }
}

/// The tools that the slide model is offered.
pub fn tools(has_refs: bool) -> (r: Value)
    ensures
        json_view(r) == JsonView::Array(tool_schemas(has_refs)),
{
    let mut list: Vec<Value> = Vec::new();
    list.push(write_deck_schema());
    list.push(add_slide_schema());
    list.push(edit_slide_schema());
    list.push(delete_slide_schema());
    list.push(move_slide_schema());
    list.push(set_theme_schema());
    list.push(set_title_schema());
    list.push(generate_image_schema());
    if has_refs {
        list.push(read_reference_schema());
    }
    assert(json_views(list@) =~= tool_schemas(has_refs));
    array(list)
}

// ---- Laws --------------------------------------------------------------

/// The name of a tool.
pub open spec fn tool_name(t: JsonView) -> Seq<char> {
    match field(t, "function"@) {
        Some(f) => text_field(f, "name"@),
        None => Seq::empty(),
    }
}

/// What each tool is called.
proof fn lemma_tool_names()
    ensures
        tool_name(write_deck_tool()) == "write_deck"@,
        tool_name(add_slide_tool()) == "add_slide"@,
        tool_name(edit_slide_tool()) == "edit_slide"@,
        tool_name(delete_slide_tool()) == "delete_slide"@,
        tool_name(move_slide_tool()) == "move_slide"@,
        tool_name(set_theme_tool()) == "set_theme"@,
        tool_name(set_title_tool()) == "set_title"@,
        tool_name(generate_image_tool()) == "generate_image"@,
        tool_name(read_reference_tool()) == "read_reference"@,
{
    reveal_strlit("type");
    reveal_strlit("function");
    reveal_strlit("name");
    reveal_strlit("description");
    reveal_strlit("parameters");
    assert("type"@.len() == 4 && "function"@.len() == 8 && "name"@.len() == 4);
    assert("description"@.len() == 11 && "parameters"@.len() == 10);
}

/// The model is told of the tool for reference files exactly where there are files that
/// it can read; of all other tools always.
pub proof fn law_reading_is_offered_only_with_refs(has_refs: bool)
    ensures
        (exists|i: int|
            0 <= i < tool_schemas(has_refs).len() && tool_name(#[trigger] tool_schemas(has_refs)[i])
                == "read_reference"@) <==> has_refs,
        forall|i: int|
            0 <= i < tool_schemas(false).len() ==> #[trigger] tool_schemas(false)[i]
                == tool_schemas(has_refs)[i],
{
    lemma_tool_names();
    reveal_strlit("read_reference");
    reveal_strlit("write_deck");
    reveal_strlit("add_slide");
    reveal_strlit("edit_slide");
    reveal_strlit("delete_slide");
    reveal_strlit("move_slide");
    reveal_strlit("set_theme");
    reveal_strlit("set_title");
    reveal_strlit("generate_image");
    assert("read_reference"@[0] == 'r');
    let s = tool_schemas(has_refs);
    if has_refs {
        assert(tool_name(s[8]) == "read_reference"@);
    }
}

/// The tools that the model is offered, by name and in order, each a function.
pub proof fn law_tools_by_name(has_refs: bool)
    ensures
        ({
            let s = tool_schemas(has_refs);
            &&& s.len() == if has_refs {
                9int
            } else {
                8
            }
            &&& tool_name(s[0]) == "write_deck"@
            &&& tool_name(s[1]) == "add_slide"@
            &&& tool_name(s[2]) == "edit_slide"@
            &&& tool_name(s[3]) == "delete_slide"@
            &&& tool_name(s[4]) == "move_slide"@
            &&& tool_name(s[5]) == "set_theme"@
            &&& tool_name(s[6]) == "set_title"@
            &&& tool_name(s[7]) == "generate_image"@
            &&& has_refs ==> tool_name(s[8]) == "read_reference"@
            &&& forall|i: int|
                0 <= i < s.len() ==> field(#[trigger] s[i], "type"@) == Some(
                    JsonView::Text("function"@),
                )
        }),
{
    lemma_tool_names();
    reveal_strlit("type");
    reveal_strlit("function");
    assert("type"@.len() == 4 && "function"@.len() == 8);
}

/// What a tool takes: an argument of each of these names, and at least those that it needs.
pub open spec fn takes(t: JsonView, all: Set<Seq<char>>, needed: Seq<JsonView>) -> bool {
    &&& field(t, "function"@) matches Some(f)
    &&& field(f, "parameters"@) matches Some(p)
    &&& field(p, "type"@) == Some(JsonView::Text("object"@))
    &&& field(p, "required"@) == Some(JsonView::Array(needed))
    &&& field(p, "properties"@) matches Some(JsonView::Object(m))
    &&& m.dom() =~= all
}

/// Each tool takes the arguments that its operation reads, and needs those without which the
/// operation does nothing.
pub proof fn law_tools_take_what_is_read()
    ensures
        ({
            let s = tool_schemas(true);
            let text = |t: Seq<char>| JsonView::Text(t);
            &&& takes(
                s[0],
                set!["title"@, "theme_css"@, "slides"@],
                seq![text("title"@), text("theme_css"@), text("slides"@)],
            )
            &&& takes(
                s[1],
                set!["title"@, "html"@, "after_id"@],
                seq![text("title"@), text("html"@)],
            )
            &&& takes(s[2], set!["id"@, "title"@, "html"@], seq![text("id"@)])
            &&& takes(s[3], set!["id"@], seq![text("id"@)])
            &&& takes(s[4], set!["id"@, "to_index"@], seq![text("id"@), text("to_index"@)])
            &&& takes(s[5], set!["theme_css"@], seq![text("theme_css"@)])
            &&& takes(s[6], set!["title"@], seq![text("title"@)])
            &&& takes(s[7], set!["prompt"@, "size"@], seq![text("prompt"@)])
            &&& takes(s[8], set!["id"@], seq![text("id"@)])
        }),
{
    reveal_strlit("type");
    reveal_strlit("function");
    reveal_strlit("name");
    reveal_strlit("description");
    reveal_strlit("parameters");
    reveal_strlit("properties");
    reveal_strlit("required");
    assert("type"@.len() == 4 && "function"@.len() == 8 && "name"@.len() == 4);
    assert("description"@.len() == 11 && "parameters"@.len() == 10 && "properties"@.len() == 10);
    assert("required"@.len() == 8 && "type"@[0] == 't' && "name"@[0] == 'n');
    assert("function"@[0] == 'f' && "required"@[0] == 'r' && "parameters"@[1] == 'a');
    assert("properties"@[1] == 'r');
    assert(text_items(seq!["title", "theme_css", "slides"])->Array_0 =~= seq![
        JsonView::Text("title"@),
        JsonView::Text("theme_css"@),
        JsonView::Text("slides"@),
    ]);
    assert(text_items(seq!["title", "html"])->Array_0 =~= seq![
        JsonView::Text("title"@),
        JsonView::Text("html"@),
    ]);
    assert(text_items(seq!["id"])->Array_0 =~= seq![JsonView::Text("id"@)]);
    assert(text_items(seq!["id", "to_index"])->Array_0 =~= seq![
        JsonView::Text("id"@),
        JsonView::Text("to_index"@),
    ]);
    assert(text_items(seq!["theme_css"])->Array_0 =~= seq![JsonView::Text("theme_css"@)]);
    assert(text_items(seq!["title"])->Array_0 =~= seq![JsonView::Text("title"@)]);
    assert(text_items(seq!["prompt"])->Array_0 =~= seq![JsonView::Text("prompt"@)]);
}

/// The schema of an argument of a tool.
pub open spec fn argument(t: JsonView, key: Seq<char>) -> JsonView {
    match field(t, "function"@) {
        Some(f) => match field(f, "parameters"@) {
            Some(p) => match field(p, "properties"@) {
                Some(all) => match field(all, key) {
                    Some(one) => one,
                    None => JsonView::Null,
                },
                None => JsonView::Null,
            },
            None => JsonView::Null,
        },
        None => JsonView::Null,
    }
}

/// Whether an argument has this type.
pub open spec fn has_type(a: JsonView, t: Seq<char>) -> bool {
    field(a, "type"@) == Some(JsonView::Text(t))
}

/// Every argument is a text, but for the place to which a slide is moved, a number, and the
/// slides of a deck, a list of objects with a title and the content; the size of an image is
/// one of three.
pub proof fn law_types_of_arguments()
    ensures
        ({
            let s = tool_schemas(true);
            &&& has_type(argument(s[0], "title"@), "string"@)
            &&& has_type(argument(s[0], "theme_css"@), "string"@)
            &&& has_type(argument(s[0], "slides"@), "array"@)
            &&& has_type(argument(s[1], "title"@), "string"@)
            &&& has_type(argument(s[1], "html"@), "string"@)
            &&& has_type(argument(s[1], "after_id"@), "string"@)
            &&& has_type(argument(s[2], "id"@), "string"@)
            &&& has_type(argument(s[2], "title"@), "string"@)
            &&& has_type(argument(s[2], "html"@), "string"@)
            &&& has_type(argument(s[3], "id"@), "string"@)
            &&& has_type(argument(s[4], "id"@), "string"@)
            &&& has_type(argument(s[4], "to_index"@), "integer"@)
            &&& has_type(argument(s[5], "theme_css"@), "string"@)
            &&& has_type(argument(s[6], "title"@), "string"@)
            &&& has_type(argument(s[7], "prompt"@), "string"@)
            &&& has_type(argument(s[7], "size"@), "string"@)
            &&& field(argument(s[7], "size"@), "enum"@) matches Some(JsonView::Array(sizes))
                && sizes.len() == 3 && sizes[0] == JsonView::Text("1024x1024"@) && sizes[1]
                == JsonView::Text("1536x1024"@) && sizes[2] == JsonView::Text("1024x1536"@)
            &&& has_type(argument(s[8], "id"@), "string"@)
            &&& field(argument(s[0], "slides"@), "items"@) matches Some(one) && has_type(
                one,
                "object"@,
            ) && (field(one, "properties"@) matches Some(p) && (field(p, "title"@) matches Some(t)
                && has_type(t, "string"@)) && (field(p, "html"@) matches Some(h) && has_type(
                h,
                "string"@,
            ))) && (field(one, "required"@) matches Some(JsonView::Array(needed)) && needed.len()
                == 2 && needed[0] == JsonView::Text("title"@) && needed[1] == JsonView::Text(
                "html"@,
            ))
        }),
{
    reveal_strlit("type");
    reveal_strlit("function");
    reveal_strlit("name");
    reveal_strlit("description");
    reveal_strlit("parameters");
    reveal_strlit("properties");
    reveal_strlit("required");
    reveal_strlit("items");
    reveal_strlit("enum");
    assert("type"@.len() == 4 && "function"@.len() == 8 && "name"@.len() == 4);
    assert("description"@.len() == 11 && "parameters"@.len() == 10 && "properties"@.len() == 10);
    assert("required"@.len() == 8 && "items"@.len() == 5 && "enum"@.len() == 4);
    assert("type"@[0] == 't' && "name"@[0] == 'n' && "enum"@[0] == 'e' && "function"@[0] == 'f');
    assert("required"@[0] == 'r' && "parameters"@[1] == 'a' && "properties"@[1] == 'r');
    reveal_strlit("title");
    reveal_strlit("theme_css");
    reveal_strlit("slides");
    reveal_strlit("html");
    reveal_strlit("after_id");
    reveal_strlit("id");
    reveal_strlit("to_index");
    reveal_strlit("prompt");
    reveal_strlit("size");
    assert("title"@.len() == 5 && "theme_css"@.len() == 9 && "slides"@.len() == 6);
    assert("html"@.len() == 4 && "after_id"@.len() == 8 && "id"@.len() == 2);
    assert("to_index"@.len() == 8 && "prompt"@.len() == 6 && "size"@.len() == 4);
    assert("slides"@[0] == 's' && "prompt"@[0] == 'p' && "html"@[0] == 'h' && "size"@[0] == 's');
    assert("after_id"@[0] == 'a' && "to_index"@[0] == 't');
}

} // verus!

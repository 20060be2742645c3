//! Tool calls of a model, and the images that they ask for.

use serde_json::Value;
use vstd::prelude::*;
use vstd::string::*;

use crate::deck::{Image, ImageView};
use crate::json::{
    field, get, items_at, items_of, json_parse, json_view, json_views, no_entries, object, parse,
    sget, text_at, text_field, text_of, JsonView,
};
use crate::text::same;

verus! {

/// One tool call of the model.
pub struct ToolCall {
    pub id: String,
    pub name: String,
    pub args: Value,
}

pub struct CallView {
    pub id: Seq<char>,
    pub name: Seq<char>,
    pub args: JsonView,
}

impl View for ToolCall {
    type V = CallView;

    open spec fn view(&self) -> CallView {
        CallView { id: self.id@, name: self.name@, args: json_view(self.args) }
    }
}

pub open spec fn call_views(s: Seq<ToolCall>) -> Seq<CallView> {
    s.map_values(|c: ToolCall| c@)
}

/// The arguments that a text holds, or none where it is no JSON.
pub open spec fn args_from(text: Seq<char>) -> JsonView {
    match json_parse(text) {
        Some(v) => v,
        None => JsonView::Object(no_entries()),
    }
}

pub(crate) fn read_args(text: &str) -> (r: Value)
    ensures
        json_view(r) == args_from(text@),
{
    match parse(text) {
        Some(v) => v,
        None => object(serde_json::Map::new()),
    }
}

/// The tool call that an entry of a message stands for.
pub open spec fn call_from(v: JsonView) -> CallView {
    let f = match field(v, "function"@) {
        Some(f) => f,
        None => JsonView::Object(no_entries()),
    };
    CallView {
        id: text_field(v, "id"@),
        name: text_field(f, "name"@),
        args: args_from(
            match text_at(f, "arguments"@) {
                Some(t) => t,
                None => "{}"@,
            },
        ),
    }
}

/// The tool calls of a message.
pub open spec fn calls_of(msg: JsonView) -> Seq<CallView> {
    match items_at(msg, "tool_calls"@) {
        Some(items) => items.map_values(|v: JsonView| call_from(v)),
        None => Seq::empty(),
    }
}

fn read_call(v: &Value) -> (r: ToolCall)
    ensures
        r@ == call_from(json_view(*v)),
{
    let id = sget(v, "id");
    match get(v, "function") {
        Some(f) => {
            let args = match text_of(f, "arguments") {
                Some(t) => read_args(t),
                None => read_args("{}"),
            };
            ToolCall { id, name: sget(f, "name"), args }
        },
        None => {
            let r = ToolCall { id, name: String::new(), args: read_args("{}") };
            assert(r.name@ =~= text_field(JsonView::Object(no_entries()), "name"@));
            r
        },
    }
}

/// Reads the tool calls of a message.
pub fn read_calls(msg: &Value) -> (r: Vec<ToolCall>)
    ensures
        call_views(r@) == calls_of(json_view(*msg)),
{
    let mut r: Vec<ToolCall> = Vec::new();
    match items_of(msg, "tool_calls") {
        Some(items) => {
            let ghost all = json_views(items@);
            let ghost one = |v: JsonView| call_from(v);
            let mut i: usize = 0;
            while i < items.len()
                invariant
                    i <= items@.len(),
                    all == json_views(items@),
                    one == (|v: JsonView| call_from(v)),
                    call_views(r@) =~= all.take(i as int).map_values(one),
                decreases items@.len() - i,
            {
                assert(all[i as int] == json_view(items@[i as int]));
                r.push(read_call(&items[i]));
                i = i + 1;
                assert(all.take(i as int).map_values(one) =~= all.take(i - 1).map_values(one).push(
                    one(all[i - 1]),
                ));
            }
            assert(all.take(i as int) =~= all);
        },
        None => {
            assert(call_views(r@) =~= Seq::empty());
        },
    }
    r
}

/// An image that the model asks for: the position of the call, and what it says.
pub struct ImageOrder {
    pub index: usize,
    pub prompt: String,
    pub size: String,
}

pub struct ImageOrderView {
    pub index: nat,
    pub prompt: Seq<char>,
    pub size: Seq<char>,
}

impl View for ImageOrder {
    type V = ImageOrderView;

    open spec fn view(&self) -> ImageOrderView {
        ImageOrderView { index: self.index as nat, prompt: self.prompt@, size: self.size@ }
    }
}

pub open spec fn order_views(s: Seq<ImageOrder>) -> Seq<ImageOrderView> {
    s.map_values(|o: ImageOrder| o@)
}

/// The images that a batch of calls asks for.
pub open spec fn orders_in(calls: Seq<CallView>) -> Seq<ImageOrderView>
    decreases calls.len(),
{
    if calls.len() == 0 {
        Seq::empty()
    } else {
        let before = orders_in(calls.drop_last());
        let c = calls.last();
        if c.name == "generate_image"@ {
            before.push(
                ImageOrderView {
                    index: (calls.len() - 1) as nat,
                    prompt: text_field(c.args, "prompt"@),
                    size: text_field(c.args, "size"@),
                },
            )
        } else {
            before
        }
    }
}

/// The images that a batch of calls asks for.
pub fn read_orders(calls: &Vec<ToolCall>) -> (r: Vec<ImageOrder>)
    ensures
        order_views(r@) == orders_in(call_views(calls@)),
{
    let ghost all = call_views(calls@);
    let mut r: Vec<ImageOrder> = Vec::new();
    let mut i: usize = 0;
    while i < calls.len()
        invariant
            i <= calls@.len(),
            all == call_views(calls@),
            order_views(r@) =~= orders_in(all.take(i as int)),
        decreases calls@.len() - i,
    {
        assert(all.take(i + 1).drop_last() =~= all.take(i as int));
        assert(all[i as int] == calls@[i as int]@);
        let c = &calls[i];
        if same(c.name.as_str(), "generate_image") {
            r.push(ImageOrder { index: i, prompt: sget(&c.args, "prompt"), size: sget(&c.args, "size") });
        }
        i = i + 1;
    }
    assert(all.take(i as int) =~= all);
    r
}

/// An image that was made, or the result that says why it was not.
pub open spec fn picture_view(r: Result<Image, Value>) -> Result<ImageView, JsonView> {
    match r {
        Ok(img) => Ok(img@),
        Err(v) => Err(json_view(v)),
    }
}

pub open spec fn picture_views(s: Seq<(usize, Result<Image, Value>)>) -> Seq<
    (nat, Result<ImageView, JsonView>),
> {
    s.map_values(|p: (usize, Result<Image, Value>)| (p.0 as nat, picture_view(p.1)))
}

/// What came of the image that the call at `i` asked for, where something did.
pub open spec fn picture_at(s: Seq<(nat, Result<ImageView, JsonView>)>, i: nat) -> Option<
    Result<ImageView, JsonView>,
>
    decreases s.len(),
{
    if s.len() == 0 {
        None
    } else if s.last().0 == i {
        Some(s.last().1)
    } else {
        picture_at(s.drop_last(), i)
    }
}

// ---- Laws --------------------------------------------------------------

/// The calls of a message are its entries in their order, each with its own id, name and
/// arguments; arguments that are missing or are no JSON count as none.
pub proof fn law_calls_are_read_in_order(msg: JsonView)
    ensures
        match field(msg, "tool_calls"@) {
            Some(JsonView::Array(items)) => calls_of(msg).len() == items.len() && forall|i: int|
                0 <= i < items.len() ==> {
                    let c = #[trigger] calls_of(msg)[i];
                    &&& c.id == text_field(items[i], "id"@)
                    &&& match field(items[i], "function"@) {
                        Some(f) => c.name == text_field(f, "name"@) && match field(
                            f,
                            "arguments"@,
                        ) {
                            Some(JsonView::Text(t)) => match json_parse(t) {
                                Some(v) => c.args == v,
                                None => c.args == JsonView::Object(Map::empty()),
                            },
                            _ => match json_parse("{}"@) {
                                Some(v) => c.args == v,
                                None => c.args == JsonView::Object(Map::empty()),
                            },
                        },
                        None => c.name.len() == 0,
                    }
                },
            _ => calls_of(msg).len() == 0,
        },
{
    if let Some(JsonView::Array(items)) = field(msg, "tool_calls"@) {
        assert forall|i: int| 0 <= i < items.len() implies #[trigger] calls_of(msg)[i] == call_from(
            items[i],
        ) by {}
    }
}

/// Each call for an image gives one order, with its position, its prompt and its size, and
/// nothing else does; the orders stand in the order of the calls.
pub proof fn law_orders_are_the_image_calls(calls: Seq<CallView>)
    ensures
        forall|k: int|
            0 <= k < orders_in(calls).len() ==> {
                let o = #[trigger] orders_in(calls)[k];
                &&& o.index < calls.len()
                &&& calls[o.index as int].name == "generate_image"@
                &&& o.prompt == text_field(calls[o.index as int].args, "prompt"@)
                &&& o.size == text_field(calls[o.index as int].args, "size"@)
            },
        forall|j: int, k: int|
            0 <= j < k < orders_in(calls).len() ==> (#[trigger] orders_in(calls)[j]).index < (
            #[trigger] orders_in(calls)[k]).index,
        forall|i: int|
            0 <= i < calls.len() && (#[trigger] calls[i]).name == "generate_image"@ ==> exists|
                k: int,
            | 0 <= k < orders_in(calls).len() && (#[trigger] orders_in(calls)[k]).index == i,
    decreases calls.len(),
{
    if calls.len() > 0 {
        let rest = calls.drop_last();
        law_orders_are_the_image_calls(rest);
        let all = orders_in(calls);
        let few = orders_in(rest);
        assert forall|k: int| 0 <= k < few.len() implies #[trigger] all[k] == few[k] by {}
        assert forall|k: int| 0 <= k < all.len() implies {
            let o = #[trigger] all[k];
            &&& o.index < calls.len()
            &&& calls[o.index as int].name == "generate_image"@
            &&& o.prompt == text_field(calls[o.index as int].args, "prompt"@)
            &&& o.size == text_field(calls[o.index as int].args, "size"@)
        } by {
            if k < few.len() {
                assert(few[k].index < rest.len());
                assert(calls[few[k].index as int] == rest[few[k].index as int]);
            }
        }
        assert forall|i: int|
            0 <= i < calls.len() && (#[trigger] calls[i]).name == "generate_image"@ implies exists|
            k: int,
        | 0 <= k < all.len() && (#[trigger] all[k]).index == i by {
            if i < rest.len() {
                assert(rest[i] == calls[i]);
                let k = choose|k: int| 0 <= k < few.len() && (#[trigger] few[k]).index == i;
                assert(all[k].index == i);
            } else {
                assert(all[few.len() as int].index == i);
            }
        }
    }
}

/// What came of a call for an image is the last thing that was reported for its position.
pub proof fn law_last_report_counts(s: Seq<(nat, Result<ImageView, JsonView>)>, i: nat)
    ensures
        match picture_at(s, i) {
            Some(p) => exists|k: int|
                0 <= k < s.len() && #[trigger] s[k] == (i, p) && forall|j: int|
                    k < j < s.len() ==> (#[trigger] s[j]).0 != i,
            None => forall|j: int| 0 <= j < s.len() ==> (#[trigger] s[j]).0 != i,
        },
    decreases s.len(),
{
    if s.len() > 0 {
        let rest = s.drop_last();
        law_last_report_counts(rest, i);
        if s.last().0 == i {
            assert(s[s.len() - 1] == (i, s.last().1));
        } else {
            match picture_at(rest, i) {
                Some(p) => {
                    let k = choose|k: int|
                        0 <= k < rest.len() && #[trigger] rest[k] == (i, p) && forall|j: int|
                            k < j < rest.len() ==> (#[trigger] rest[j]).0 != i;
                    assert(s[k] == (i, p));
                    assert forall|j: int| k < j < s.len() implies (#[trigger] s[j]).0 != i by {
                        if j < rest.len() {
                            assert(rest[j] == s[j]);
                        }
                    }
                },
                None => {
                    assert forall|j: int| 0 <= j < s.len() implies (#[trigger] s[j]).0 != i by {
                        if j < rest.len() {
                            assert(rest[j] == s[j]);
                        }
                    }
                },
            }
        }
    }
}

} // verus!

//! One build: what the model asks for, round by round, and what it is answered.
//!
//! The model is sent the messages so far and answers with tool calls. Images are made
//! and reference files are fetched outside; everything else is decided here.

use serde_json::Value;
use vstd::prelude::*;
use vstd::string::*;

use crate::calls::{
    call_views, calls_of, order_views, orders_in, picture_at, picture_view, picture_views,
    read_calls, read_orders, CallView, ImageOrder, ImageOrderView, ToolCall,
};
use crate::deck::{
    empty_deck, image_id, image_index, image_of, lemma_image_index, Deck, DeckView, Image,
    ImageView,
};
use crate::deck_json::{image_ids, law_model_sees_no_image_data, model_json, slide_ids};
use crate::ids::distinct;
use crate::images::{enabled_views, EnabledImage, EnabledImageView};
use crate::json::{
    copy, field, flag, get, json_print, json_view, json_views, object, print, put, put_text,
    text_at, text_field, text_of, JsonView,
};
use crate::num::{dec, decimal, lemma_dec, lemma_dec_injective};
use crate::ops::{
    dispatch, ids_suffice, law_ops_keep_a_title, law_ops_keep_ids_distinct, law_ops_keep_images,
    lemma_results, mints, performed, quote_text, quoted, refused, refused_json, says_ok,
    slides_in_order, trimmed_field, trimmed_get,
};
use crate::placing::{
    inject_library_images, user_image_lines, user_images_block, with_library,
};
use crate::text::{
    byte_count, bytes_within, clip_bytes, clipped_bytes, holds, in_turn,
    law_longest_beginning_is_kept, lemma_clipped_bytes_fit, lemma_holds, lemma_in_turn, same,
    string_view, string_views, trimmed,
};

verus! {

/// How often the model may answer in one build.
pub const MAX_TOOL_ROUNDS: usize = 4;

/// How many changes one build may make.
pub const MAX_OPS_PER_INSTRUCTION: usize = 40;

/// How many reference files one build may read.
pub const MAX_REFERENCE_READS: usize = 12;

/// How much of one reference file the model is given, in bytes.
pub const MAX_REFERENCE_READ_BYTES: usize = 120_000;

// ---- Reference files ---------------------------------------------------

/// The answer to a request for a reference file, and how many may be read after it.
/// `found` is what the library gave for the id.
pub open spec fn reference_answer(
    args: JsonView,
    reads_left: nat,
    has_library: bool,
    found: Option<Seq<char>>,
) -> (nat, JsonView) {
    let id = trimmed_field(args, "id"@);
    if id.len() == 0 {
        (reads_left, refused_json("missing reference id"@))
    } else if reads_left == 0 {
        (reads_left, refused_json("reference read limit reached for this build"@))
    } else if !has_library {
        (reads_left, refused_json("no reference library"@))
    } else {
        match found {
            Some(t) => (
                (reads_left - 1) as nat,
                JsonView::Object(
                    map![
                        "ok"@ => JsonView::Bool(true),
                        "id"@ => JsonView::Text(id),
                        "content"@ => JsonView::Text(
                            clipped_bytes(t, MAX_REFERENCE_READ_BYTES as nat),
                        ),
                        "truncated"@ => JsonView::Bool(byte_count(t) > MAX_REFERENCE_READ_BYTES),
                    ],
                ),
            ),
            None => (reads_left, refused_json("no enabled reference with id "@ + quoted(id))),
        }
    }
}

/// Answers a request for a reference file.
pub fn handle_read_reference(
    args: &Value,
    reads_left: &mut usize,
    has_library: bool,
    found: Option<String>,
) -> (r: Value)
    ensures
        (*final(reads_left) as nat, json_view(r)) == reference_answer(
            json_view(*args),
            *old(reads_left) as nat,
            has_library,
            string_view(found),
        ),
{
    let id = trimmed_get(args, "id");
    if id.as_str().is_empty() {
        return refused("missing reference id");
    }
    if *reads_left == 0 {
        return refused("reference read limit reached for this build");
    }
    if !has_library {
        return refused("no reference library");
    }
    match found {
        Some(content) => {
            *reads_left = *reads_left - 1;
            let cut = bytes_within(content.as_str(), MAX_REFERENCE_READ_BYTES).is_none();
            let mut m = serde_json::Map::new();
            put(&mut m, "ok", flag(true));
            put_text(&mut m, "id", id.as_str());
            put_text(&mut m, "content", clip_bytes(content.as_str(), MAX_REFERENCE_READ_BYTES));
            put(&mut m, "truncated", flag(cut));
            object(m)
        },
        None => {
            let mut e = "no enabled reference with id ".to_string();
            e.append(quote_text(id.as_str()).as_str());
            refused(e.as_str())
        },
    }
}

// ---- The build ---------------------------------------------------------

/// A build under way.
pub struct Build {
    /// The deck as it stands, apart from the one that is shown.
    pub working: Deck,
    /// What was said so far.
    pub messages: Vec<Value>,
    /// What was done so far.
    pub applied: Vec<String>,
    pub reads_left: usize,
    pub rounds_left: usize,
    /// Whether there is a library of reference files at all.
    pub has_library: bool,
    /// Whether the model was offered reference files.
    pub offers_refs: bool,
    /// The calls of this round, and how many of them were answered.
    pub calls: Vec<ToolCall>,
    pub at: usize,
    /// What came of the images that this round asked for.
    pub pictures: Vec<(usize, Result<Image, Value>)>,
}

pub struct BuildView {
    pub working: DeckView,
    pub messages: Seq<JsonView>,
    pub applied: Seq<Seq<char>>,
    pub reads_left: nat,
    pub rounds_left: nat,
    pub has_library: bool,
    pub offers_refs: bool,
    pub calls: Seq<CallView>,
    pub at: nat,
    pub pictures: Seq<(nat, Result<ImageView, JsonView>)>,
}

impl View for Build {
    type V = BuildView;

    open spec fn view(&self) -> BuildView {
        BuildView {
            working: self.working@,
            messages: json_views(self.messages@),
            applied: string_views(self.applied@),
            reads_left: self.reads_left as nat,
            rounds_left: self.rounds_left as nat,
            has_library: self.has_library,
            offers_refs: self.offers_refs,
            calls: call_views(self.calls@),
            at: self.at as nat,
            pictures: picture_views(self.pictures@),
        }
    }
}

/// What has to be done outside before a build can go on.
pub enum Action {
    /// Send the messages to the model.
    Chat,
    /// Make these images.
    MakeImages(Vec<ImageOrder>),
    /// Fetch the reference file with this id.
    Read(String),
    /// Nothing: the build is over.
    Done,
    /// Nothing: the numbers for new ids are used up.
    OutOfIds,
}

pub enum ActionView {
    Chat,
    MakeImages(Seq<ImageOrderView>),
    Read(Seq<char>),
    Done,
    OutOfIds,
}

impl View for Action {
    type V = ActionView;

    open spec fn view(&self) -> ActionView {
        match self {
            Action::Chat => ActionView::Chat,
            Action::MakeImages(v) => ActionView::MakeImages(order_views(v@)),
            Action::Read(id) => ActionView::Read(id@),
            Action::Done => ActionView::Done,
            Action::OutOfIds => ActionView::OutOfIds,
        }
    }
}

/// Whether a call can only be answered with the text of a reference file.
pub open spec fn wants_reference(b: BuildView, c: CallView) -> bool {
    c.name == "read_reference"@ && trimmed_field(c.args, "id"@).len() > 0 && b.reads_left > 0
        && b.has_library
}

/// Whether the numbers for the ids that a call mints are left.
pub open spec fn ids_left(b: BuildView, c: CallView) -> bool {
    if c.name == "read_reference"@ || b.applied.len() >= MAX_OPS_PER_INSTRUCTION {
        true
    } else if c.name == "generate_image"@ {
        picture_at(b.pictures, b.at) matches Some(Ok(_)) ==> b.working.img_seq < u32::MAX
    } else {
        b.working.seq + mints(c.name, c.args) <= u32::MAX
    }
}

/// The result for an image that was made.
pub open spec fn made_json(id: Seq<char>) -> JsonView {
    JsonView::Object(
        map![
            "ok"@ => JsonView::Bool(true),
            "image_id"@ => JsonView::Text(id),
            "desc"@ => JsonView::Text("generated an image"@),
            "note"@ => JsonView::Text(
                "Use it on a slide with <img class=\"slide-image\" data-img=\""@ + id + "\">."@,
            ),
        ],
    )
}

/// What a call makes of the deck and of the reads that are left, and its result.
pub open spec fn result_of(b: BuildView, c: CallView, found: Option<Seq<char>>) -> (
    DeckView,
    nat,
    JsonView,
) {
    if c.name == "read_reference"@ {
        let (left, result) = reference_answer(c.args, b.reads_left, b.has_library, found);
        (b.working, left, result)
    } else if b.applied.len() >= MAX_OPS_PER_INSTRUCTION {
        (b.working, b.reads_left, refused_json("op limit reached"@))
    } else if c.name == "generate_image"@ {
        match picture_at(b.pictures, b.at) {
            Some(Ok(img)) => {
                let id = image_id(b.working.img_seq + 1);
                (
                    DeckView {
                        images: b.working.images.push((id, img)),
                        img_seq: b.working.img_seq + 1,
                        ..b.working
                    },
                    b.reads_left,
                    made_json(id),
                )
            },
            Some(Err(e)) => (b.working, b.reads_left, e),
            None => (b.working, b.reads_left, refused_json("image task lost"@)),
        }
    } else {
        let (d, result) = performed(b.working, c.name, c.args);
        (d, b.reads_left, result)
    }
}

/// The message that answers a call.
pub open spec fn tool_message(id: Seq<char>, result: JsonView) -> JsonView {
    JsonView::Object(
        map![
            "role"@ => JsonView::Text("tool"@),
            "tool_call_id"@ => JsonView::Text(id),
            "content"@ => JsonView::Text(json_print(result)),
        ],
    )
}

/// The descriptions of what was done, with that of a result added where it has one.
pub open spec fn noted(applied: Seq<Seq<char>>, result: JsonView) -> Seq<Seq<char>> {
    match text_at(result, "desc"@) {
        Some(d) => if says_ok(result) {
            applied.push(d)
        } else {
            applied
        },
        None => applied,
    }
}

/// A build after its next call was answered.
pub open spec fn answered(b: BuildView, found: Option<Seq<char>>) -> BuildView {
    let c = b.calls[b.at as int];
    let (working, reads_left, result) = result_of(b, c, found);
    BuildView {
        working: working,
        reads_left: reads_left,
        applied: noted(b.applied, result),
        messages: b.messages.push(tool_message(c.id, result)),
        at: b.at + 1,
        ..b
    }
}

/// How far a build goes by itself, and what it waits for then.
pub open spec fn ran(b: BuildView) -> (BuildView, ActionView)
    decreases b.calls.len() - b.at,
{
    if b.at >= b.calls.len() {
        (b, if b.rounds_left == 0 {
            ActionView::Done
        } else {
            ActionView::Chat
        })
    } else {
        let c = b.calls[b.at as int];
        if wants_reference(b, c) {
            (b, ActionView::Read(trimmed_field(c.args, "id"@)))
        } else if !ids_left(b, c) {
            (b, ActionView::OutOfIds)
        } else {
            ran(answered(b, None))
        }
    }
}

/// A build after the model has answered with a message.
pub open spec fn replied(b: BuildView, msg: JsonView) -> (BuildView, ActionView) {
    let next = BuildView {
        messages: b.messages.push(msg),
        rounds_left: (b.rounds_left - 1) as nat,
        calls: calls_of(msg),
        at: 0,
        pictures: Seq::empty(),
        ..b
    };
    let orders = orders_in(calls_of(msg));
    if calls_of(msg).len() == 0 {
        (next, ActionView::Done)
    } else if orders.len() > 0 {
        (next, ActionView::MakeImages(orders))
    } else {
        ran(next)
    }
}

/// What the model is asked: the deck, what it may draw on, and the instruction.
pub open spec fn request_text(
    d: DeckView,
    refs_block: Seq<char>,
    images_block: Seq<char>,
    instruction: Seq<char>,
) -> Seq<char> {
    "[CURRENT DECK — JSON, slides carry stable ids]\n"@ + json_print(model_json(d)) + "\n\n"@
        + refs_block + images_block + "[INSTRUCTION]\n"@ + instruction
        + "\n\nApply it with the smallest set of tool calls. Reference slides by id."@
}

pub open spec fn chat_line(role: Seq<char>, content: Seq<char>) -> JsonView {
    JsonView::Object(
        map!["role"@ => JsonView::Text(role), "content"@ => JsonView::Text(content)],
    )
}

/// A build as it starts.
pub open spec fn started(
    d: DeckView,
    system_prompt: Seq<char>,
    instruction: Seq<char>,
    has_library: bool,
    manifest: Option<Seq<char>>,
    enabled: Seq<EnabledImageView>,
) -> BuildView {
    let working = DeckView { images: with_library(d.images, enabled), ..d };
    let refs_block = match manifest {
        Some(m) => m + "\n\n"@,
        None => Seq::empty(),
    };
    BuildView {
        working: working,
        messages: seq![
            chat_line("system"@, system_prompt),
            chat_line(
                "user"@,
                request_text(working, refs_block, user_images_block(enabled), instruction),
            ),
        ],
        applied: Seq::empty(),
        reads_left: MAX_REFERENCE_READS as nat,
        rounds_left: MAX_TOOL_ROUNDS as nat,
        has_library: has_library,
        offers_refs: manifest is Some,
        calls: Seq::empty(),
        at: 0,
        pictures: Seq::empty(),
    }
}

fn chat_message_of(role: &str, content: &str) -> (r: Value)
    ensures
        json_view(r) == chat_line(role@, content@),
{
    let mut m = serde_json::Map::new();
    put_text(&mut m, "role", role);
    put_text(&mut m, "content", content);
    object(m)
}

impl Build {
    /// Starts a build on a copy of a deck. `manifest` is what the library of reference
    /// files shows, `enabled` the user's images.
    pub fn new(
        deck: Deck,
        system_prompt: &str,
        instruction: &str,
        has_library: bool,
        manifest: Option<String>,
        enabled: &Vec<EnabledImage>,
    ) -> (r: Self)
        ensures
            r@ == started(
                deck@,
                system_prompt@,
                instruction@,
                has_library,
                string_view(manifest),
                enabled_views(enabled@),
            ),
    {
        let offers_refs = manifest.is_some();
        let refs_block = match &manifest {
            Some(m) => {
                let mut b = m.clone();
                b.append("\n\n");
                b
            },
            None => String::new(),
        };
        let mut working = deck;
        let images_block = inject_library_images(&mut working, enabled);
        let mut request = "[CURRENT DECK — JSON, slides carry stable ids]\n".to_string();
        request.append(print(&working.to_model_json()).as_str());
        request.append("\n\n");
        request.append(refs_block.as_str());
        request.append(images_block.as_str());
        request.append("[INSTRUCTION]\n");
        request.append(instruction);
        request.append("\n\nApply it with the smallest set of tool calls. Reference slides by id.");
        let mut messages: Vec<Value> = Vec::new();
        messages.push(chat_message_of("system", system_prompt));
        messages.push(chat_message_of("user", request.as_str()));
        let r = Build {
            working,
            messages,
            applied: Vec::new(),
            reads_left: MAX_REFERENCE_READS,
            rounds_left: MAX_TOOL_ROUNDS,
            has_library,
            offers_refs,
            calls: Vec::new(),
            at: 0,
            pictures: Vec::new(),
        };
        proof {
            let want = started(
                deck@,
                system_prompt@,
                instruction@,
                has_library,
                string_view(manifest),
                enabled_views(enabled@),
            );
            assert(r@.messages =~= want.messages);
            assert(r@.applied =~= want.applied);
            assert(r@.calls =~= want.calls);
            assert(r@.pictures =~= want.pictures);
        }
        r
    }

    /// What came of the image that the call at `i` asked for.
    fn picture(&self, i: usize) -> (r: Option<Result<Image, Value>>)
        ensures
            match r {
                Some(p) => picture_at(self@.pictures, i as nat) == Some(picture_view(p)),
                None => picture_at(self@.pictures, i as nat) is None,
            },
    {
        let ghost s = self@.pictures;
        let mut k: usize = self.pictures.len();
        assert(s.take(k as int) =~= s);
        while k > 0
            invariant
                k <= self.pictures@.len(),
                s == self@.pictures,
                picture_at(s, i as nat) == picture_at(s.take(k as int), i as nat),
            decreases k,
        {
            let p = &self.pictures[k - 1];
            assert(s.take(k as int).drop_last() =~= s.take(k - 1));
            assert(s[k - 1] == (p.0 as nat, picture_view(p.1)));
            if p.0 == i {
                return match &p.1 {
                    Ok(img) => Some(Ok(img.clone())),
                    Err(v) => Some(Err(copy(v))),
                };
            }
            k = k - 1;
        }
        None
    }

    /// Answers the next call.
    fn answer(&mut self, found: Option<String>)
        requires
            old(self)@.at < old(self)@.calls.len(),
            ids_left(old(self)@, old(self)@.calls[old(self)@.at as int]),
        ensures
            final(self)@ == answered(old(self)@, string_view(found)),
    {
        let ghost b = self@;
        let ghost c = b.calls[b.at as int];
        assert(c == self.calls[self.at as int]@);
        let name = self.calls[self.at].name.clone();
        let result = if same(name.as_str(), "read_reference") {
            handle_read_reference(
                &self.calls[self.at].args,
                &mut self.reads_left,
                self.has_library,
                found,
            )
        } else if self.applied.len() >= MAX_OPS_PER_INSTRUCTION {
            refused("op limit reached")
        } else if same(name.as_str(), "generate_image") {
            match self.picture(self.at) {
                Some(Ok(img)) => {
                    let id = self.working.new_image_id();
                    let mut note =
                        "Use it on a slide with <img class=\"slide-image\" data-img=\"".to_string();
                    note.append(id.as_str());
                    note.append("\">.");
                    self.working.insert_image(id.clone(), img);
                    let mut m = serde_json::Map::new();
                    put(&mut m, "ok", flag(true));
                    put_text(&mut m, "image_id", id.as_str());
                    put_text(&mut m, "desc", "generated an image");
                    put_text(&mut m, "note", note.as_str());
                    object(m)
                },
                Some(Err(v)) => v,
                None => refused("image task lost"),
            }
        } else {
            dispatch(&mut self.working, name.as_str(), &self.calls[self.at].args)
        };
        assert((self@.working, self@.reads_left, json_view(result)) == result_of(
            b,
            c,
            string_view(found),
        ));
        let ok: bool = match get(&result, "ok") {
            Some(f) => match f.as_bool() {
                Some(v) => v,
                None => false,
            },
            None => false,
        };
        if ok {
            match text_of(&result, "desc") {
                Some(d) => {
                    self.applied.push(d.to_string());
                    assert(self@.applied =~= b.applied.push(d@));
                },
                None => {},
            }
        }
        let mut m = serde_json::Map::new();
        put_text(&mut m, "role", "tool");
        put_text(&mut m, "tool_call_id", self.calls[self.at].id.as_str());
        put_text(&mut m, "content", print(&result).as_str());
        let message = object(m);
        self.messages.push(message);
        assert(self@.messages =~= b.messages.push(tool_message(c.id, json_view(result))));
        let n: usize = self.calls.len();
        assert(self.at < n);
        self.at = self.at + 1;
    }

    /// Goes on as far as nothing from outside is needed.
    fn run(&mut self) -> (r: Action)
        ensures
            (final(self)@, r@) == ran(old(self)@),
    {
        while self.at < self.calls.len()
            invariant
                ran(self@) == ran(old(self)@),
            decreases self@.calls.len() - self@.at,
        {
            let ghost b = self@;
            let c = &self.calls[self.at];
            assert(b.calls[b.at as int] == c@);
            let read = same(c.name.as_str(), "read_reference");
            if read {
                let id = trimmed_get(&c.args, "id");
                if !id.as_str().is_empty() && self.reads_left > 0 && self.has_library {
                    return Action::Read(id);
                }
            } else if self.applied.len() < MAX_OPS_PER_INSTRUCTION {
                if same(c.name.as_str(), "generate_image") {
                    match self.picture(self.at) {
                        Some(Ok(_)) => {
                            if self.working.img_seq == u32::MAX {
                                return Action::OutOfIds;
                            }
                        },
                        _ => {},
                    }
                } else if !ids_suffice(&self.working, c.name.as_str(), &c.args) {
                    return Action::OutOfIds;
                }
            }
            self.answer(None);
        }
        if self.rounds_left == 0 {
            Action::Done
        } else {
            Action::Chat
        }
    }

    /// Goes on with the message that the model has answered with.
    pub fn on_reply(&mut self, msg: Value) -> (r: Action)
        requires
            old(self).rounds_left > 0,
        ensures
            (final(self)@, r@) == replied(old(self)@, json_view(msg)),
    {
        let ghost b = self@;
        let ghost v = json_view(msg);
        self.calls = read_calls(&msg);
        self.messages.push(msg);
        self.rounds_left = self.rounds_left - 1;
        self.at = 0;
        self.pictures = Vec::new();
        assert(self@.messages =~= b.messages.push(v));
        assert(self@.pictures =~= Seq::empty());
        if self.calls.len() == 0 {
            return Action::Done;
        }
        let orders = read_orders(&self.calls);
        if orders.len() > 0 {
            return Action::MakeImages(orders);
        }
        self.run()
    }

    /// Goes on with what came of the images that were asked for, each with the
    /// position of its call.
    pub fn on_images(&mut self, pictures: Vec<(usize, Result<Image, Value>)>) -> (r: Action)
        ensures
            (final(self)@, r@) == ran(
                BuildView { pictures: picture_views(pictures@), ..old(self)@ },
            ),
    {
        self.pictures = pictures;
        self.run()
    }

    /// Goes on with what the library gave for the reference file that was asked for.
    pub fn on_found(&mut self, found: Option<String>) -> (r: Action)
        requires
            old(self)@.at < old(self)@.calls.len(),
            wants_reference(old(self)@, old(self)@.calls[old(self)@.at as int]),
        ensures
            (final(self)@, r@) == ran(answered(old(self)@, string_view(found))),
    {
        self.answer(found);
        self.run()
    }
}

// ---- What is shown meanwhile -------------------------------------------

/// What the browser is told while something is done outside: the state, and a note. Of a
/// reference file it is told only where one was found.
pub open spec fn progress_of(action: ActionView, found: bool) -> Option<(Seq<char>, Seq<char>)> {
    match action {
        ActionView::MakeImages(orders) => Some(("imaging"@, dec(orders.len()) + " image(s)"@)),
        ActionView::Read(id) => if found {
            Some(("reading"@, "reference "@ + id))
        } else {
            None
        },
        _ => None,
    }
}

pub open spec fn progress_view(r: Option<(String, String)>) -> Option<(Seq<char>, Seq<char>)> {
    match r {
        Some(p) => Some((p.0@, p.1@)),
        None => None,
    }
}

/// What the browser is told while an action is carried out; `found` is what the library gave
/// for a reference file.
pub fn progress(action: &Action, found: &Option<String>) -> (r: Option<(String, String)>)
    ensures
        progress_view(r) == progress_of(action@, *found is Some),
{
    match action {
        Action::MakeImages(orders) => {
            let mut note = decimal(orders.len() as u128);
            note.append(" image(s)");
            Some(("imaging".to_string(), note))
        },
        Action::Read(id) => if found.is_some() {
            let mut note = "reference ".to_string();
            note.append(id.as_str());
            Some(("reading".to_string(), note))
        } else {
            None
        },
        _ => None,
    }
}

// ---- Laws --------------------------------------------------------------

proof fn lemma_reference_answer_has_no_desc(
    args: JsonView,
    reads_left: nat,
    has_library: bool,
    found: Option<Seq<char>>,
)
    ensures
        text_at(reference_answer(args, reads_left, has_library, found).1, "desc"@) is None,
        says_ok(reference_answer(args, reads_left, has_library, found).1) ==> reads_left > 0
            && reference_answer(args, reads_left, has_library, found).0 == reads_left - 1,
        !says_ok(reference_answer(args, reads_left, has_library, found).1)
            ==> reference_answer(args, reads_left, has_library, found).0 == reads_left,
{
    reveal_strlit("ok");
    reveal_strlit("id");
    reveal_strlit("content");
    reveal_strlit("truncated");
    reveal_strlit("error");
    reveal_strlit("desc");
    assert("ok"@.len() == 2 && "id"@.len() == 2 && "content"@.len() == 7);
    assert("truncated"@.len() == 9 && "error"@.len() == 5 && "desc"@.len() == 4);
    assert("id"@[0] != "ok"@[0]);
}

/// Reading a reference file changes neither the deck nor the list of what was done,
/// and uses up one of the reads that the build has.
pub proof fn law_reading_changes_no_deck(b: BuildView, found: Option<Seq<char>>)
    requires
        b.at < b.calls.len(),
        b.calls[b.at as int].name == "read_reference"@,
    ensures
        answered(b, found).working == b.working,
        answered(b, found).applied == b.applied,
        wants_reference(b, b.calls[b.at as int]) && found is Some ==> answered(b, found).reads_left
            == b.reads_left - 1,
        !(wants_reference(b, b.calls[b.at as int]) && found is Some) ==> answered(
            b,
            found,
        ).reads_left == b.reads_left,
{
    let c = b.calls[b.at as int];
    lemma_reference_answer_has_no_desc(c.args, b.reads_left, b.has_library, found);
}

/// Where no read is left, no text of a reference file is handed out.
pub proof fn law_no_text_without_reads(b: BuildView, found: Option<Seq<char>>)
    requires
        b.at < b.calls.len(),
        b.calls[b.at as int].name == "read_reference"@,
        b.reads_left == 0,
    ensures
        !says_ok(result_of(b, b.calls[b.at as int], found).2),
{
    let c = b.calls[b.at as int];
    lemma_reference_answer_has_no_desc(c.args, b.reads_left, b.has_library, found);
}

/// Whatever is found of a reference file, the model is given a beginning of it that keeps
/// to the limit.
pub proof fn law_given_text_is_limited(
    args: JsonView,
    reads_left: nat,
    has_library: bool,
    found: Option<Seq<char>>,
)
    ensures
        text_at(reference_answer(args, reads_left, has_library, found).1, "content"@) matches Some(t)
            ==> byte_count(t) <= MAX_REFERENCE_READ_BYTES && found is Some && t.is_prefix_of(
            found->0,
        ),
{
    reveal_strlit("ok");
    reveal_strlit("id");
    reveal_strlit("content");
    reveal_strlit("truncated");
    reveal_strlit("error");
    assert("ok"@.len() == 2 && "id"@.len() == 2 && "content"@.len() == 7);
    assert("truncated"@.len() == 9 && "error"@.len() == 5);
    if let Some(whole) = found {
        lemma_clipped_bytes_fit(whole, MAX_REFERENCE_READ_BYTES as nat);
    }
}

/// A build makes no more changes than it may, whatever is asked for.
pub proof fn law_changes_are_limited(b: BuildView, found: Option<Seq<char>>)
    requires
        b.at < b.calls.len(),
        b.applied.len() <= MAX_OPS_PER_INSTRUCTION,
    ensures
        answered(b, found).applied.len() <= MAX_OPS_PER_INSTRUCTION,
        b.applied.len() == MAX_OPS_PER_INSTRUCTION ==> answered(b, found).working == b.working,
        answered(b, found).reads_left <= b.reads_left,
{
    let c = b.calls[b.at as int];
    lemma_reference_answer_has_no_desc(c.args, b.reads_left, b.has_library, found);
    lemma_results("op limit reached"@);
}

/// However far a build goes by itself, it keeps to its limits, and only a message of
/// the model begins a new round.
pub proof fn law_running_keeps_to_the_limits(b: BuildView)
    requires
        b.applied.len() <= MAX_OPS_PER_INSTRUCTION,
    ensures
        ran(b).0.applied.len() <= MAX_OPS_PER_INSTRUCTION,
        ran(b).0.reads_left <= b.reads_left,
        ran(b).0.rounds_left == b.rounds_left,
        b.rounds_left == 0 ==> ran(b).1 != ActionView::Chat,
    decreases b.calls.len() - b.at,
{
    if b.at < b.calls.len() {
        let c = b.calls[b.at as int];
        if !wants_reference(b, c) && ids_left(b, c) {
            law_changes_are_limited(b, None);
            law_running_keeps_to_the_limits(answered(b, None));
        }
    }
}

/// Each message of the model uses up one round, and after the last the build asks it
/// no more.
pub proof fn law_rounds_are_limited(b: BuildView, msg: JsonView)
    requires
        b.rounds_left > 0,
        b.applied.len() <= MAX_OPS_PER_INSTRUCTION,
    ensures
        replied(b, msg).0.rounds_left == b.rounds_left - 1,
        b.rounds_left == 1 ==> replied(b, msg).1 != ActionView::Chat,
{
    let next = BuildView {
        messages: b.messages.push(msg),
        rounds_left: (b.rounds_left - 1) as nat,
        calls: calls_of(msg),
        at: 0,
        pictures: Seq::empty(),
        ..b
    };
    law_running_keeps_to_the_limits(next);
}

/// Every call is answered, in order, with a message that carries its id: when the build
/// asks the model again, or is done, none is left over.
pub proof fn law_every_call_is_answered(b: BuildView, k: int)
    requires
        b.at <= b.calls.len(),
        b.at <= k < ran(b).0.at,
    ensures
        ran(b).0.calls == b.calls,
        ran(b).0.at <= b.calls.len(),
        ran(b).0.messages.len() == b.messages.len() + ran(b).0.at - b.at,
        text_at(ran(b).0.messages[b.messages.len() + k - b.at], "tool_call_id"@) == Some(
            b.calls[k].id,
        ),
        ran(b).1 == ActionView::Chat || ran(b).1 == ActionView::Done ==> ran(b).0.at
            == b.calls.len(),
    decreases b.calls.len() - b.at,
{
    lemma_ran_counts(b);
    let c = b.calls[b.at as int];
    let next = answered(b, None);
    lemma_tool_message_id(c.id, result_of(b, c, None).2);
    if k == b.at {
        assert(next.messages[b.messages.len() as int] == tool_message(
            c.id,
            result_of(b, c, None).2,
        ));
        lemma_ran_counts(next);
    } else {
        law_every_call_is_answered(next, k);
    }
}

proof fn lemma_tool_message_id(id: Seq<char>, result: JsonView)
    ensures
        text_at(tool_message(id, result), "tool_call_id"@) == Some(id),
{
    reveal_strlit("role");
    reveal_strlit("tool_call_id");
    reveal_strlit("content");
    assert("role"@.len() == 4 && "tool_call_id"@.len() == 12 && "content"@.len() == 7);
}

proof fn lemma_ran_counts(b: BuildView)
    requires
        b.at <= b.calls.len(),
    ensures
        ran(b).0.calls == b.calls,
        b.at <= ran(b).0.at <= b.calls.len(),
        ran(b).0.messages.len() == b.messages.len() + ran(b).0.at - b.at,
        forall|i: int|
            0 <= i < b.messages.len() ==> #[trigger] ran(b).0.messages[i] == b.messages[i],
        ran(b).0.has_library == b.has_library,
        ran(b).0.offers_refs == b.offers_refs,
        ran(b).1 == ActionView::Chat || ran(b).1 == ActionView::Done ==> ran(b).0.at
            == b.calls.len(),
    decreases b.calls.len() - b.at,
{
    if b.at < b.calls.len() {
        let c = b.calls[b.at as int];
        if !wants_reference(b, c) && ids_left(b, c) {
            let next = answered(b, None);
            lemma_ran_counts(next);
            assert forall|i: int| 0 <= i < b.messages.len() implies #[trigger] ran(
                b,
            ).0.messages[i] == b.messages[i] by {
                assert(next.messages[i] == b.messages[i]);
            }
        }
    }
}

/// Whether no image has an id whose number is still to be minted.
pub open spec fn images_behind(d: DeckView) -> bool {
    forall|i: int, n: nat|
        0 <= i < d.images.len() && d.img_seq < n <= u32::MAX ==> (#[trigger] d.images[i]).0
            != #[trigger] image_id(n)
}

proof fn lemma_image_id_injective(m: nat, n: nat)
    requires
        image_id(m) == image_id(n),
    ensures
        m == n,
{
    assert(image_id(m).skip("img"@.len() as int) =~= dec(m));
    assert(image_id(n).skip("img"@.len() as int) =~= dec(n));
    lemma_dec_injective(m, n);
}

/// Whether a deck is as builds leave it: it has a title, no two slides and no two images
/// have the same id, every image has one, and the ids that are still to be minted are not in
/// use.
pub open spec fn well_kept(d: DeckView) -> bool {
    &&& d.title.len() > 0
    &&& slides_in_order(d)
    &&& distinct(image_ids(d.images))
    &&& images_behind(d)
    &&& forall|i: int| 0 <= i < d.images.len() ==> (#[trigger] d.images[i]).0.len() > 0
    &&& d.seq <= u32::MAX
    &&& d.img_seq <= u32::MAX
}

/// Whether all images have ids of the library.
pub open spec fn from_library(enabled: Seq<EnabledImageView>) -> bool {
    forall|i: int| 0 <= i < enabled.len() ==> "lib"@.is_prefix_of((#[trigger] enabled[i]).meta.id)
}

/// A deck without slides is well kept.
pub proof fn law_new_deck_is_well_kept()
    ensures
        well_kept(empty_deck()),
{
    reveal_strlit("Untitled Deck");
    assert("Untitled Deck"@.len() == 13);
    assert(slide_ids(empty_deck().slides) =~= Seq::empty());
}

/// The images of the library can be put among those of a deck without taking the id of
/// another, or one that the deck is still to mint.
pub proof fn law_injection_keeps_deck_well_kept(d: DeckView, enabled: Seq<EnabledImageView>)
    requires
        well_kept(d),
        from_library(enabled),
    ensures
        well_kept(DeckView { images: with_library(d.images, enabled), ..d }),
    decreases enabled.len(),
{
    if enabled.len() > 0 {
        let rest = enabled.drop_last();
        assert forall|i: int| 0 <= i < rest.len() implies "lib"@.is_prefix_of(
            (#[trigger] rest[i]).meta.id,
        ) by {
            assert(rest[i] == enabled[i]);
        }
        law_injection_keeps_deck_well_kept(d, rest);
        let e = enabled.last();
        assert(enabled[enabled.len() - 1] == e);
        let earlier = DeckView { images: with_library(d.images, rest), ..d };
        let before = earlier.images;
        let after = with_library(d.images, enabled);
        lemma_image_index(before, e.meta.id);
        reveal_strlit("lib");
        reveal_strlit("img");
        assert(e.meta.id[0] == "lib"@[0]);
        assert forall|i: int, n: nat|
            0 <= i < after.len() && d.img_seq < n <= u32::MAX implies (#[trigger] after[i]).0
            != #[trigger] image_id(n) by {
            if after[i].0 == e.meta.id {
                assert(image_id(n)[0] == "img"@[0]);
            } else {
                assert(after[i].0 == earlier.images[i].0);
            }
        }
        let ids = image_ids(before);
        assert forall|i: int| 0 <= i < ids.len() implies #[trigger] ids[i] == before[i].0 by {}
        match image_index(before, e.meta.id) {
            Some(k) => {
                assert(image_ids(after) =~= ids);
            },
            None => {
                assert(image_ids(after) =~= ids.push(e.meta.id));
            },
        }
        assert forall|i: int| 0 <= i < after.len() implies (#[trigger] after[i]).0.len() > 0 by {
            if after[i].0 != e.meta.id {
                assert(after[i].0 == earlier.images[i].0);
            }
        }
    }
}

/// Answering a call keeps the deck well kept.
pub proof fn law_answering_keeps_deck_well_kept(b: BuildView, found: Option<Seq<char>>)
    requires
        b.at < b.calls.len(),
        ids_left(b, b.calls[b.at as int]),
        well_kept(b.working),
    ensures
        well_kept(answered(b, found).working),
{
    let c = b.calls[b.at as int];
    let d = b.working;
    let after = answered(b, found).working;
    if c.name == "read_reference"@ || b.applied.len() >= MAX_OPS_PER_INSTRUCTION {
    } else if c.name == "generate_image"@ {
        if let Some(Ok(img)) = picture_at(b.pictures, b.at) {
            let id = image_id(d.img_seq + 1);
            assert(after.images == d.images.push((id, img)));
            assert forall|i: int, n: nat|
                0 <= i < after.images.len() && after.img_seq < n <= u32::MAX implies (
            #[trigger] after.images[i]).0 != #[trigger] image_id(n) by {
                if i < d.images.len() {
                    assert(after.images[i] == d.images[i]);
                } else if image_id(n) == id {
                    lemma_image_id_injective(n, d.img_seq + 1);
                }
            }
            let ids = image_ids(d.images);
            assert(image_ids(after.images) =~= ids.push(id));
            assert forall|i: int| 0 <= i < ids.len() implies #[trigger] ids[i] != id by {
                assert(ids[i] == d.images[i].0);
            }
            lemma_dec(d.img_seq + 1);
        }
    } else {
        law_ops_keep_ids_distinct(d, c.name, c.args);
        law_ops_keep_images(d, c.name, c.args);
        law_ops_keep_a_title(d, c.name, c.args);
    }
}

/// However far a build goes by itself, its deck stays well kept.
pub proof fn law_running_keeps_deck_well_kept(b: BuildView)
    requires
        well_kept(b.working),
    ensures
        well_kept(ran(b).0.working),
    decreases b.calls.len() - b.at,
{
    if b.at < b.calls.len() {
        let c = b.calls[b.at as int];
        if !wants_reference(b, c) && ids_left(b, c) {
            law_answering_keeps_deck_well_kept(b, None);
            law_running_keeps_deck_well_kept(answered(b, None));
        }
    }
}

/// Whether two lists of images have the same ids and show the same, whatever their data.
pub open spec fn same_but_data(
    a: Seq<(Seq<char>, ImageView)>,
    b: Seq<(Seq<char>, ImageView)>,
) -> bool {
    a.len() == b.len() && forall|i: int|
        0 <= i < a.len() ==> (#[trigger] a[i]).0 == b[i].0 && a[i].1.prompt == b[i].1.prompt
}

proof fn lemma_index_ignores_data(
    a: Seq<(Seq<char>, ImageView)>,
    b: Seq<(Seq<char>, ImageView)>,
    id: Seq<char>,
)
    requires
        same_but_data(a, b),
    ensures
        image_index(a, id) == image_index(b, id),
    decreases a.len(),
{
    if a.len() > 0 {
        let p = a.drop_last();
        let q = b.drop_last();
        assert forall|i: int| 0 <= i < p.len() implies (#[trigger] p[i]).0 == q[i].0
            && p[i].1.prompt == q[i].1.prompt by {
            assert(p[i] == a[i]);
        }
        lemma_index_ignores_data(p, q, id);
        assert(a[a.len() - 1].0 == b[b.len() - 1].0);
    }
}

proof fn lemma_injection_ignores_data(
    a: Seq<(Seq<char>, ImageView)>,
    b: Seq<(Seq<char>, ImageView)>,
    x: Seq<EnabledImageView>,
    y: Seq<EnabledImageView>,
)
    requires
        same_but_data(a, b),
        x.len() == y.len(),
        forall|i: int| 0 <= i < x.len() ==> (#[trigger] x[i]).meta == y[i].meta,
    ensures
        same_but_data(with_library(a, x), with_library(b, y)),
        user_image_lines(x) == user_image_lines(y),
    decreases x.len(),
{
    if x.len() > 0 {
        let p = x.drop_last();
        let q = y.drop_last();
        assert forall|i: int| 0 <= i < p.len() implies (#[trigger] p[i]).meta == q[i].meta by {
            assert(p[i] == x[i]);
        }
        lemma_injection_ignores_data(a, b, p, q);
        assert(x[x.len() - 1].meta == y[y.len() - 1].meta);
        lemma_index_ignores_data(with_library(a, p), with_library(b, q), x.last().meta.id);
        lemma_image_index(with_library(a, p), x.last().meta.id);
    }
}

/// What the model is asked holds no image data, neither of the deck nor of the library:
/// it is the same whatever the data are.
pub proof fn law_request_holds_no_image_data(
    d: DeckView,
    images: Seq<(Seq<char>, ImageView)>,
    system_prompt: Seq<char>,
    instruction: Seq<char>,
    has_library: bool,
    manifest: Option<Seq<char>>,
    enabled: Seq<EnabledImageView>,
    others: Seq<EnabledImageView>,
)
    requires
        same_but_data(d.images, images),
        enabled.len() == others.len(),
        forall|i: int| 0 <= i < enabled.len() ==> (#[trigger] enabled[i]).meta == others[i].meta,
    ensures
        started(
            DeckView { images: images, ..d },
            system_prompt,
            instruction,
            has_library,
            manifest,
            others,
        ).messages == started(
            d,
            system_prompt,
            instruction,
            has_library,
            manifest,
            enabled,
        ).messages,
{
    lemma_injection_ignores_data(d.images, images, enabled, others);
    let w = DeckView { images: with_library(d.images, enabled), ..d };
    let v = with_library(images, others);
    assert forall|i: int| 0 <= i < v.len() implies (#[trigger] v[i]).0 == w.images[i].0
        && v[i].1.prompt == w.images[i].1.prompt by {
        assert(w.images[i].0 == v[i].0);
    }
    law_model_sees_no_image_data(w, v);
}

proof fn lemma_tool_names_differ()
    ensures
        "generate_image"@ != "read_reference"@,
{
    reveal_strlit("generate_image");
    reveal_strlit("read_reference");
    assert("generate_image"@.len() == 14 && "read_reference"@.len() == 14);
    assert("generate_image"@[0] == 'g' && "read_reference"@[0] == 'r');
}

/// A call is answered with a message of its own, at the end, that carries its id and its
/// result; what was done is noted where the result says that it was, and then only.
pub proof fn law_answer_carries_the_result(b: BuildView, found: Option<Seq<char>>)
    requires
        b.at < b.calls.len(),
    ensures
        ({
            let c = b.calls[b.at as int];
            let next = answered(b, found);
            let result = result_of(b, c, found).2;
            let m = next.messages.last();
            &&& next.messages.len() == b.messages.len() + 1
            &&& next.messages.drop_last() == b.messages
            &&& field(m, "role"@) == Some(JsonView::Text("tool"@))
            &&& field(m, "tool_call_id"@) == Some(JsonView::Text(c.id))
            &&& field(m, "content"@) == Some(JsonView::Text(json_print(result)))
            &&& match (field(result, "ok"@), field(result, "desc"@)) {
                (Some(JsonView::Bool(true)), Some(JsonView::Text(d))) => next.applied.len()
                    == b.applied.len() + 1 && next.applied.drop_last() == b.applied
                    && next.applied.last() == d,
                _ => next.applied == b.applied,
            }
            &&& next.at == b.at + 1
            &&& next.calls == b.calls
            &&& next.pictures == b.pictures
            &&& next.rounds_left == b.rounds_left
            &&& next.has_library == b.has_library
            &&& next.offers_refs == b.offers_refs
        }),
{
    reveal_strlit("role");
    reveal_strlit("tool_call_id");
    reveal_strlit("content");
    assert("role"@.len() == 4 && "tool_call_id"@.len() == 12 && "content"@.len() == 7);
    let c = b.calls[b.at as int];
    let next = answered(b, found);
    let result = result_of(b, c, found).2;
    assert(next.messages.drop_last() =~= b.messages);
    assert(b.applied.push(text_field(result, "desc"@)).drop_last() =~= b.applied);
}

/// A call for an image that was made puts that image into the deck, its data and its prompt
/// as they were made, under the id that the result names; looking this id up gives it, and
/// whatever else was in the deck is as it was.
pub proof fn law_made_image_is_in_the_deck(
    b: BuildView,
    found: Option<Seq<char>>,
    img: ImageView,
    other: Seq<char>,
)
    requires
        b.at < b.calls.len(),
        b.calls[b.at as int].name == "generate_image"@,
        b.applied.len() < MAX_OPS_PER_INSTRUCTION,
        picture_at(b.pictures, b.at) == Some(Ok::<ImageView, JsonView>(img)),
    ensures
        ({
            let before = b.working;
            let after = answered(b, found).working;
            let result = result_of(b, b.calls[b.at as int], found).2;
            let id = "img"@ + dec(before.img_seq + 1);
            &&& field(result, "ok"@) == Some(JsonView::Bool(true))
            &&& field(result, "image_id"@) == Some(JsonView::Text(id))
            &&& field(result, "desc"@) == Some(JsonView::Text("generated an image"@))
            &&& field(result, "note"@) matches Some(JsonView::Text(note)) && holds(
                note,
                "data-img=\""@ + id + "\""@,
            )
            &&& after.images.len() == before.images.len() + 1
            &&& forall|i: int|
                0 <= i < before.images.len() ==> #[trigger] after.images[i] == before.images[i]
            &&& after.images.last().0 == id
            &&& after.images.last().1.data_uri == img.data_uri
            &&& after.images.last().1.prompt == img.prompt
            &&& (forall|i: int| 0 <= i < before.images.len() ==> (#[trigger] before.images[i]).0 != id)
                ==> image_of(after.images, id) == Some(img)
            &&& images_behind(before) && before.img_seq < u32::MAX ==> image_of(after.images, id)
                == Some(img)
            &&& other != id ==> image_of(after.images, other) == image_of(before.images, other)
            &&& after.slides == before.slides
            &&& after.title == before.title
            &&& after.theme_css == before.theme_css
            &&& after.seq == before.seq
            &&& after.img_seq == before.img_seq + 1
        }),
{
    lemma_tool_names_differ();
    reveal_strlit("ok");
    reveal_strlit("image_id");
    reveal_strlit("desc");
    reveal_strlit("note");
    assert("ok"@.len() == 2 && "image_id"@.len() == 8 && "desc"@.len() == 4 && "note"@.len() == 4);
    assert("desc"@[0] == 'd' && "note"@[0] == 'n');
    let before = b.working;
    let after = answered(b, found).working;
    let id = image_id(before.img_seq + 1);
    assert(after.images.drop_last() =~= before.images);
    assert(after.images[before.images.len() as int] == (id, img));
    lemma_image_index(before.images, id);
    lemma_image_index(after.images, id);
    if images_behind(before) && before.img_seq < u32::MAX {
        assert forall|i: int| 0 <= i < before.images.len() implies (
        #[trigger] before.images[i]).0 != id by {}
    }
    lemma_image_index(before.images, other);
    lemma_image_index(after.images, other);
    lemma_note_shows_use(id);
}

proof fn lemma_note_shows_use(id: Seq<char>)
    ensures
        holds(
            "Use it on a slide with <img class=\"slide-image\" data-img=\""@ + id + "\">."@,
            "data-img=\""@ + id + "\""@,
        ),
{
    let note = "Use it on a slide with <img class=\"slide-image\" data-img=\""@ + id + "\">."@;
    let p = "data-img=\""@ + id + "\""@;
    reveal_strlit("Use it on a slide with <img class=\"slide-image\" data-img=\"");
    reveal_strlit("\">.");
    reveal_strlit("data-img=\"");
    reveal_strlit("\"");
    let head = "Use it on a slide with <img class=\"slide-image\" data-img=\""@;
    let tail = "\">."@;
    assert(head.len() == 58 && tail.len() == 3 && "data-img=\""@.len() == 10 && "\""@.len() == 1);
    assert(head.skip(48) =~= "data-img=\""@);
    assert(tail.take(1) =~= "\""@);
    assert(note =~= head.take(48) + p + tail.skip(1));
    lemma_holds(head.take(48), p, tail.skip(1));
}

/// A call for an image that could not be made is answered with what was reported, and
/// leaves the deck alone.
pub proof fn law_image_not_made_is_reported(b: BuildView, found: Option<Seq<char>>)
    requires
        b.at < b.calls.len(),
        b.calls[b.at as int].name == "generate_image"@,
        b.applied.len() < MAX_OPS_PER_INSTRUCTION,
    ensures
        picture_at(b.pictures, b.at) matches Some(Err(e)) ==> answered(b, found).working
            == b.working && result_of(b, b.calls[b.at as int], found).2 == e,
        picture_at(b.pictures, b.at) is None ==> answered(b, found).working == b.working && field(
            result_of(b, b.calls[b.at as int], found).2,
            "error"@,
        ) == Some(JsonView::Text("image task lost"@)) && !says_ok(
            result_of(b, b.calls[b.at as int], found).2,
        ),
{
    lemma_tool_names_differ();
    reveal_strlit("ok");
    reveal_strlit("error");
    assert("ok"@.len() == 2 && "error"@.len() == 5);
}

/// Any other call does to the deck what the operation that it names does with its arguments,
/// and is answered with the result of that operation; past the limit it is refused.
pub proof fn law_call_performs_its_operation(b: BuildView, found: Option<Seq<char>>)
    requires
        b.at < b.calls.len(),
        b.calls[b.at as int].name != "read_reference"@,
    ensures
        ({
            let c = b.calls[b.at as int];
            let (working, reads_left, result) = result_of(b, c, found);
            &&& answered(b, found).working == working
            &&& answered(b, found).reads_left == b.reads_left
            &&& reads_left == b.reads_left
            &&& b.applied.len() < 40 && c.name != "generate_image"@ ==> working == performed(
                b.working,
                c.name,
                c.args,
            ).0 && result == performed(b.working, c.name, c.args).1
            &&& b.applied.len() >= 40 ==> working == b.working && !says_ok(result) && field(
                result,
                "error"@,
            ) == Some(JsonView::Text("op limit reached"@))
        }),
{
    reveal_strlit("ok");
    reveal_strlit("error");
    assert("ok"@.len() == 2 && "error"@.len() == 5);
}

/// A reference file that was found is handed out under the id that was asked for: whole
/// where it keeps to the limit, and else the longest beginning that does, marked as cut.
pub proof fn law_reference_is_handed_out(
    args: JsonView,
    reads_left: nat,
    has_library: bool,
    text: Seq<char>,
)
    requires
        trimmed(text_field(args, "id"@)).len() > 0,
        reads_left > 0,
        has_library,
    ensures
        ({
            let (left, result) = reference_answer(args, reads_left, has_library, Some(text));
            &&& left == reads_left - 1
            &&& field(result, "ok"@) == Some(JsonView::Bool(true))
            &&& field(result, "id"@) == Some(JsonView::Text(trimmed(text_field(args, "id"@))))
            &&& byte_count(text) <= 120_000 ==> field(result, "content"@) == Some(
                JsonView::Text(text),
            ) && field(result, "truncated"@) == Some(JsonView::Bool(false))
            &&& byte_count(text) > 120_000 ==> field(result, "truncated"@) == Some(
                JsonView::Bool(true),
            ) && exists|k: int|
                0 <= k < text.len() && field(result, "content"@) == Some(
                    JsonView::Text(#[trigger] text.take(k)),
                ) && byte_count(text.take(k)) <= 120_000 && byte_count(text.take(k + 1)) > 120_000
        }),
{
    reveal_strlit("ok");
    reveal_strlit("id");
    reveal_strlit("content");
    reveal_strlit("truncated");
    assert("ok"@.len() == 2 && "id"@.len() == 2 && "content"@.len() == 7);
    assert("truncated"@.len() == 9 && "ok"@[0] == 'o' && "id"@[0] == 'i');
    law_longest_beginning_is_kept(text, 120_000);
}

/// A request for a reference file that cannot be met says why.
pub proof fn law_reference_refusals(
    args: JsonView,
    reads_left: nat,
    has_library: bool,
    found: Option<Seq<char>>,
)
    ensures
        ({
            let id = trimmed(text_field(args, "id"@));
            let (left, result) = reference_answer(args, reads_left, has_library, found);
            let why = |e: Seq<char>|
                left == reads_left && field(result, "ok"@) == Some(JsonView::Bool(false)) && field(
                    result,
                    "error"@,
                ) == Some(JsonView::Text(e));
            &&& id.len() == 0 ==> why("missing reference id"@)
            &&& id.len() > 0 && reads_left == 0 ==> why(
                "reference read limit reached for this build"@,
            )
            &&& id.len() > 0 && reads_left > 0 && !has_library ==> why("no reference library"@)
            &&& id.len() > 0 && reads_left > 0 && has_library && found is None ==> why(
                "no enabled reference with id "@ + quoted(id),
            )
        }),
{
    reveal_strlit("ok");
    reveal_strlit("error");
    assert("ok"@.len() == 2 && "error"@.len() == 5);
}

/// A message of the model is added to what was said, and its calls are what the build goes
/// on with, from the first: with none the build is over, and images that are asked for are
/// made before it goes on.
pub proof fn law_reply_is_taken_up(b: BuildView, msg: JsonView)
    requires
        b.rounds_left > 0,
    ensures
        ({
            let (next, action) = replied(b, msg);
            &&& next.messages.len() > b.messages.len()
            &&& next.messages[b.messages.len() as int] == msg
            &&& next.messages.take(b.messages.len() as int) == b.messages
            &&& next.calls == calls_of(msg)
            &&& calls_of(msg).len() == 0 ==> action == ActionView::Done && next.working
                == b.working && next.applied == b.applied
            &&& orders_in(calls_of(msg)).len() > 0 ==> action == ActionView::MakeImages(
                orders_in(calls_of(msg)),
            ) && next.at == 0 && next.working == b.working && next.applied == b.applied
                && next.pictures.len() == 0
            &&& orders_in(calls_of(msg)).len() > 0 || calls_of(msg).len() == 0 ==> next.reads_left
                == b.reads_left && next.rounds_left == b.rounds_left - 1
            &&& orders_in(calls_of(msg)).len() == 0 && calls_of(msg).len() > 0 ==> !(
            action is MakeImages) && (next, action) == ran(
                BuildView {
                    messages: b.messages.push(msg),
                    rounds_left: (b.rounds_left - 1) as nat,
                    calls: calls_of(msg),
                    at: 0,
                    pictures: Seq::empty(),
                    ..b
                },
            )
            &&& next.has_library == b.has_library
            &&& next.offers_refs == b.offers_refs
        }),
{
    let start = BuildView {
        messages: b.messages.push(msg),
        rounds_left: (b.rounds_left - 1) as nat,
        calls: calls_of(msg),
        at: 0,
        pictures: Seq::empty(),
        ..b
    };
    let next = replied(b, msg).0;
    lemma_ran_counts(start);
    law_what_a_build_waits_for(start);
    if calls_of(msg).len() == 0 {
        assert(orders_in(calls_of(msg)).len() == 0);
    }
    assert(start.messages[b.messages.len() as int] == msg);
    assert forall|i: int| 0 <= i < b.messages.len() implies #[trigger] next.messages[i]
        == b.messages[i] by {
        assert(start.messages[i] == b.messages[i]);
    }
    assert(next.messages.take(b.messages.len() as int) =~= b.messages);
}

/// A build stops to read only for a call that asks for a reference file, with the id that
/// it names; it asks the model again while there are rounds left, and is done when there
/// are none.
pub proof fn law_what_a_build_waits_for(b: BuildView)
    requires
        b.at <= b.calls.len(),
    ensures
        match ran(b).1 {
            ActionView::Read(id) => {
                let n = ran(b).0;
                &&& n.at < n.calls.len()
                &&& n.calls[n.at as int].name == "read_reference"@
                &&& id == trimmed(text_field(n.calls[n.at as int].args, "id"@))
                &&& id.len() > 0
                &&& n.has_library
                &&& n.reads_left > 0
            },
            ActionView::Chat => ran(b).0.at == b.calls.len() && b.rounds_left > 0,
            ActionView::Done => ran(b).0.at == b.calls.len() && b.rounds_left == 0,
            ActionView::MakeImages(_) => false,
            ActionView::OutOfIds => !ids_left(ran(b).0, ran(b).0.calls[ran(b).0.at as int]),
        },
    decreases b.calls.len() - b.at,
{
    if b.at < b.calls.len() {
        let c = b.calls[b.at as int];
        if !wants_reference(b, c) && ids_left(b, c) {
            law_what_a_build_waits_for(answered(b, None));
        }
    }
}

/// A build starts with two messages: the system prompt as it is, and one of the user that
/// holds the deck, the manifest of the reference files, the block on the user's images and
/// the instruction, in this order. Nothing was done yet, and all rounds and reads are left.
pub proof fn law_build_starts_with_what_is_asked(
    d: DeckView,
    system_prompt: Seq<char>,
    instruction: Seq<char>,
    has_library: bool,
    manifest: Option<Seq<char>>,
    enabled: Seq<EnabledImageView>,
)
    ensures
        ({
            let b = started(d, system_prompt, instruction, has_library, manifest, enabled);
            &&& b.messages.len() == 2
            &&& field(b.messages[0], "role"@) == Some(JsonView::Text("system"@))
            &&& field(b.messages[0], "content"@) == Some(JsonView::Text(system_prompt))
            &&& field(b.messages[1], "role"@) == Some(JsonView::Text("user"@))
            &&& field(b.messages[1], "content"@) matches Some(JsonView::Text(request)) && in_turn(
                request,
                seq![
                    json_print(model_json(b.working)),
                    match manifest {
                        Some(m) => m,
                        None => Seq::empty(),
                    },
                    user_images_block(enabled),
                    "[INSTRUCTION]\n"@ + instruction,
                ],
            )
            &&& b.working.slides == d.slides
            &&& b.working.title == d.title
            &&& b.working.theme_css == d.theme_css
            &&& b.working.seq == d.seq
            &&& b.working.img_seq == d.img_seq
            &&& b.working.images == with_library(d.images, enabled)
            &&& b.applied.len() == 0
            &&& b.calls.len() == 0
            &&& b.at == 0
            &&& b.reads_left == 12
            &&& b.rounds_left == 4
            &&& b.has_library == has_library
            &&& b.offers_refs == (manifest is Some)
        }),
{
    reveal_strlit("role");
    reveal_strlit("content");
    assert("role"@.len() == 4 && "content"@.len() == 7);
    let b = started(d, system_prompt, instruction, has_library, manifest, enabled);
    let refs = match manifest {
        Some(m) => m,
        None => Seq::empty(),
    };
    let none = Seq::<char>::empty();
    let x0 = "[CURRENT DECK — JSON, slides carry stable ids]\n"@;
    let x2 = match manifest {
        Some(_) => "\n\n"@,
        None => none,
    };
    let x4 = "\n\nApply it with the smallest set of tool calls. Reference slides by id."@;
    let j = json_print(model_json(b.working));
    let request = text_field(b.messages[1], "content"@);
    let block = user_images_block(enabled);
    let last = "[INSTRUCTION]\n"@ + instruction;
    let s3 = none + last + x4;
    let s2 = x2 + block + s3;
    let s1 = "\n\n"@ + refs + s2;
    assert(request =~= x0 + j + s1);
    lemma_in_turn(none, last, x4, Seq::empty());
    lemma_in_turn(x2, block, s3, seq![last]);
    lemma_in_turn("\n\n"@, refs, s2, seq![block, last]);
    lemma_in_turn(x0, j, s1, seq![refs, block, last]);
}

/// While images are made the browser is told how many, and while a reference file that was
/// found is read, which.
pub proof fn law_progress_names_the_work(action: ActionView, found: bool)
    ensures
        match action {
            ActionView::MakeImages(orders) => progress_of(action, found) matches Some((s, n)) && s
                == "imaging"@ && n == dec(orders.len()) + " image(s)"@,
            ActionView::Read(id) => if found {
                progress_of(action, found) matches Some((s, n)) && s == "reading"@ && n
                    == "reference "@ + id
            } else {
                progress_of(action, found) is None
            },
            _ => progress_of(action, found) is None,
        },
{
}

/// The numbers for new ids have run out for a call just where it would mint one past the
/// highest: a call for an image that was made, or an operation that adds more slides than
/// there are numbers left. A call that changes nothing needs none.
pub proof fn law_when_ids_run_out(b: BuildView, c: CallView)
    ensures
        c.name == "read_reference"@ || b.applied.len() >= 40 ==> ids_left(b, c),
        c.name == "generate_image"@ && b.applied.len() < 40 ==> (!ids_left(b, c) <==> (picture_at(
            b.pictures,
            b.at,
        ) matches Some(Ok(_)) && b.working.img_seq >= u32::MAX)),
        c.name == "add_slide"@ && b.applied.len() < 40 ==> (!ids_left(b, c) <==> b.working.seq
            >= u32::MAX),
        c.name == "write_deck"@ && b.applied.len() < 40 ==> (!ids_left(b, c) <==> match field(
            c.args,
            "slides"@,
        ) {
            Some(JsonView::Array(items)) => b.working.seq + items.len() > u32::MAX,
            _ => b.working.seq > u32::MAX,
        }),
        wants_reference(b, c) <==> c.name == "read_reference"@ && trimmed(
            text_field(c.args, "id"@),
        ).len() > 0 && b.reads_left > 0 && b.has_library,
{
    reveal_strlit("read_reference");
    reveal_strlit("generate_image");
    reveal_strlit("add_slide");
    reveal_strlit("write_deck");
    assert("read_reference"@.len() == 14 && "generate_image"@.len() == 14);
    assert("add_slide"@.len() == 9 && "write_deck"@.len() == 10 && "read_reference"@[0] == 'r');
    assert("generate_image"@[0] == 'g');
}

} // verus!

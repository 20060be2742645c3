//! The slide agent: it holds the deck, and turns an instruction into a new one.
//!
//! A build works on a copy. Only a build that has changed something takes the place of
//! the deck; one that fails leaves everything as it was.

use serde_json::Value;
use vstd::prelude::*;
use vstd::string::*;

use crate::deck::{
    empty_deck, law_ids_are_given_to_the_unnamed, lemma_unnamed_grows, named, unnamed, Deck,
    DeckView, ImageView,
};
use crate::deck_json::{
    deck_from, full_json, has_names, law_snapshot_round_trips, lemma_named, raised, snapshot_text,
    ui_json,
};
use crate::embed::refs_of;
use crate::json::{
    field, json_parse, json_print, json_view, number, object, put, put_text, JsonView,
};
use crate::num::{dec, decimal};
use crate::placing::{
    law_only_unplaced_images_are_dropped, prune_unused_library_images, pruned, unplaced,
};
use crate::render::{deck_page, render_deck_html};
use crate::rounds::well_kept;
use crate::text::{
    capitalize, capitalized, clipped, holds, in_turn, lemma_holds, lemma_in_turn, string_views,
    trim, trimmed, truncate,
};

verus! {

/// The slide agent: the deck, and how many builds there were.
pub struct SlideAgent {
    pub deck: Deck,
    pub run_count: u32,
}

pub struct AgentView {
    pub deck: DeckView,
    pub run_count: nat,
}

impl View for SlideAgent {
    type V = AgentView;

    open spec fn view(&self) -> AgentView {
        AgentView { deck: self.deck@, run_count: self.run_count as nat }
    }
}

// ---- What is said ------------------------------------------------------

/// What the browser is told of the state of a build.
pub open spec fn status_json(state: Seq<char>, note: Seq<char>, run_count: nat) -> JsonView {
    JsonView::Object(
        map![
            "state"@ => JsonView::Text(state),
            "note"@ => JsonView::Text(note),
            "run_count"@ => JsonView::Int(run_count as int),
        ],
    )
}

pub open spec fn slide_count(n: nat) -> Seq<char> {
    dec(n) + " slide"@ + (if n != 1 {
        "s"@
    } else {
        Seq::empty()
    })
}

/// What is said of a build that has changed something.
pub open spec fn summary_of(applied: Seq<Seq<char>>, d: DeckView) -> Seq<char> {
    (if applied.len() == 1 {
        capitalized(applied[0])
    } else {
        "Applied "@ + dec(applied.len()) + " changes"@
    }) + " — "@ + slide_count(d.slides.len()) + " in \u{201c}"@ + d.title + "\u{201d}."@
}

/// What is said of a build that has changed something.
pub fn summarize(applied: &Vec<String>, deck: &Deck) -> (r: String)
    ensures
        r@ == summary_of(string_views(applied@), deck@),
{
    let n: usize = deck.slides.len();
    let mut count = decimal(n as u128);
    count.append(" slide");
    if n != 1 {
        count.append("s");
    } else {
        assert(count@ =~= count@ + Seq::empty());
    }
    assert(count@ == slide_count(n as nat));
    assert(deck@.slides.len() == n);
    let mut r = if applied.len() == 1 {
        assert(string_views(applied@)[0] == applied@[0]@);
        capitalize(applied[0].as_str())
    } else {
        let mut t = "Applied ".to_string();
        t.append(decimal(applied.len() as u128).as_str());
        t.append(" changes");
        t
    };
    r.append(" — ");
    r.append(count.as_str());
    r.append(" in \u{201c}");
    r.append(deck.title.as_str());
    r.append("\u{201d}.");
    r
}

// ---- Builds ------------------------------------------------------------

/// How a build ended: with what was done, or with the reason why it failed.
pub open spec fn ending_view(r: Result<Vec<String>, String>) -> Result<Seq<Seq<char>>, Seq<char>> {
    match r {
        Ok(v) => Ok(string_views(v@)),
        Err(e) => Err(e@),
    }
}

/// What is to be saved and shown after a build that has changed something.
pub struct Publication {
    /// The snapshot of the deck.
    pub snapshot: String,
    /// The page of the deck.
    pub html: String,
    /// What the browser is told.
    pub update: Value,
}

pub struct PublicationView {
    pub snapshot: Seq<char>,
    pub html: Seq<char>,
    pub update: JsonView,
}

impl View for Publication {
    type V = PublicationView;

    open spec fn view(&self) -> PublicationView {
        PublicationView {
            snapshot: self.snapshot@,
            html: self.html@,
            update: json_view(self.update),
        }
    }
}

/// What a build came to.
pub struct BuildEnd {
    /// What the voice agent is told.
    pub reply: String,
    /// What the browser is told of the state.
    pub status: Value,
    /// What is to be saved and shown, where something has changed.
    pub publication: Option<Publication>,
}

pub struct BuildEndView {
    pub reply: Seq<char>,
    pub status: JsonView,
    pub publication: Option<PublicationView>,
}

impl View for BuildEnd {
    type V = BuildEndView;

    open spec fn view(&self) -> BuildEndView {
        BuildEndView {
            reply: self.reply@,
            status: json_view(self.status),
            publication: match self.publication {
                Some(p) => Some(p@),
                None => None,
            },
        }
    }
}

/// The deck that a build has made: with every id, and without images of the library that
/// no slide shows.
pub open spec fn finished(d: DeckView) -> DeckView {
    pruned(
        DeckView { slides: named(d.slides, d.seq), seq: d.seq + unnamed(d.slides), ..d },
    )
}

/// What is saved and shown of a deck.
pub open spec fn published(d: DeckView) -> PublicationView {
    PublicationView {
        snapshot: json_print(full_json(d)),
        html: deck_page(d),
        update: JsonView::Object(
            map!["deck"@ => ui_json(d), "html"@ => JsonView::Text(deck_page(d))],
        ),
    }
}

/// The agent after a build, and what the build came to.
pub open spec fn concluded(
    a: AgentView,
    working: DeckView,
    ending: Result<Seq<Seq<char>>, Seq<char>>,
) -> (AgentView, BuildEndView) {
    match ending {
        Err(e) => (
            a,
            BuildEndView {
                reply: "Slide edit failed: "@ + e + "."@,
                status: status_json("error"@, e, a.run_count),
                publication: None,
            },
        ),
        Ok(applied) => if applied.len() == 0 {
            (
                a,
                BuildEndView {
                    reply: "I didn't change anything — could you rephrase?"@,
                    status: status_json("ready"@, "no change"@, a.run_count),
                    publication: None,
                },
            )
        } else {
            let d = finished(working);
            let summary = summary_of(applied, d);
            (
                AgentView { deck: d, ..a },
                BuildEndView {
                    reply: summary,
                    status: status_json("ready"@, summary, a.run_count),
                    publication: Some(published(d)),
                },
            )
        },
    }
}

pub open spec fn started_view(r: Result<(String, Value), String>) -> Result<
    (Seq<char>, JsonView),
    Seq<char>,
> {
    match r {
        Ok(p) => Ok((p.0@, json_view(p.1))),
        Err(e) => Err(e@),
    }
}

/// Counts one build more.
pub open spec fn next_run(n: nat) -> nat {
    if n == u32::MAX {
        0
    } else {
        n + 1
    }
}

pub open spec fn disk_view(r: Option<Deck>) -> Option<DeckView> {
    match r {
        Some(d) => Some(d@),
        None => None,
    }
}

impl SlideAgent {
    /// An agent that goes on with the deck that was saved, or begins with an empty one.
    pub fn new(saved: Option<Deck>) -> (r: Self)
        ensures
            r@ == (AgentView {
                deck: match disk_view(saved) {
                    Some(d) => d,
                    None => empty_deck(),
                },
                run_count: 0,
            }),
    {
        let deck = match saved {
            Some(d) => d,
            None => Deck::new(),
        };
        SlideAgent { deck, run_count: 0 }
    }

    /// What the browser is told of the state of a build.
    pub fn status(&self, state: &str, note: &str) -> (r: Value)
        ensures
            json_view(r) == status_json(state@, note@, self@.run_count),
    {
        let mut m = serde_json::Map::new();
        put_text(&mut m, "state", state);
        put_text(&mut m, "note", note);
        put(&mut m, "run_count", number(self.run_count as u64));
        object(m)
    }

    /// Begins a build: gives the instruction and what the browser is told, or the reply
    /// where there is nothing to do.
    pub fn begin(&mut self, instruction: &str) -> (r: Result<(String, Value), String>)
        ensures
            trimmed(instruction@).len() == 0 ==> final(self)@ == old(self)@ && started_view(r)
                == Err::<(Seq<char>, JsonView), Seq<char>>("No instruction given."@),
            trimmed(instruction@).len() > 0 ==> final(self)@ == (AgentView {
                run_count: next_run(old(self)@.run_count),
                ..old(self)@
            }) && started_view(r) == Ok::<(Seq<char>, JsonView), Seq<char>>(
                (
                    trimmed(instruction@),
                    status_json(
                        "building"@,
                        clipped(trimmed(instruction@), 80),
                        final(self)@.run_count,
                    ),
                ),
            ),
    {
        let instruction = trim(instruction);
        if instruction.is_empty() {
            return Err("No instruction given.".to_string());
        }
        self.run_count = if self.run_count == u32::MAX {
            0
        } else {
            self.run_count + 1
        };
        let status = self.status("building", truncate(instruction, 80).as_str());
        Ok((instruction.to_string(), status))
    }

    /// Takes up the deck that is saved, with any edits that were made by hand, and gives
    /// a copy to work on.
    pub fn take_up(&mut self, saved: Option<Deck>) -> (r: Deck)
        ensures
            final(self)@ == (AgentView {
                deck: match disk_view(saved) {
                    Some(d) => d,
                    None => old(self)@.deck,
                },
                ..old(self)@
            }),
            r@ == final(self)@.deck,
    {
        match saved {
            Some(d) => {
                self.deck = d;
            },
            None => {},
        }
        self.deck.clone()
    }

    /// Ends a build. What is then saved of the deck is read back as what was written.
    pub fn conclude(&mut self, working: Deck, ending: Result<Vec<String>, String>) -> (r: BuildEnd)
        requires
            ending matches Ok(applied) && applied.len() > 0 ==> working.seq + unnamed(
                working@.slides,
            ) <= u32::MAX,
        ensures
            (final(self)@, r@) == concluded(old(self)@, working@, ending_view(ending)),
            r.publication matches Some(p) ==> json_parse(p.snapshot@) == Some(
                full_json(final(self)@.deck),
            ),
    {
        match ending {
            Err(e) => {
                let mut reply = "Slide edit failed: ".to_string();
                reply.append(e.as_str());
                reply.append(".");
                BuildEnd { reply, status: self.status("error", e.as_str()), publication: None }
            },
            Ok(applied) => {
                if applied.len() == 0 {
                    return BuildEnd {
                        reply: "I didn't change anything — could you rephrase?".to_string(),
                        status: self.status("ready", "no change"),
                        publication: None,
                    };
                }
                let mut deck = working;
                deck.ensure_ids();
                prune_unused_library_images(&mut deck);
                let summary = summarize(&applied, &deck);
                let html = render_deck_html(&deck);
                let mut m = serde_json::Map::new();
                put(&mut m, "deck", deck.to_ui_json());
                put_text(&mut m, "html", html.as_str());
                let publication = Publication {
                    snapshot: snapshot_text(&deck),
                    html,
                    update: object(m),
                };
                self.deck = deck;
                let status = self.status("ready", summary.as_str());
                BuildEnd { reply: summary, status, publication: Some(publication) }
            },
        }
    }
}

/// Whether every slide without an id can get one.
pub fn ids_can_be_minted(deck: &Deck) -> (r: bool)
    ensures
        r == (deck.seq + unnamed(deck@.slides) <= u32::MAX),
{
    let ghost s = deck@.slides;
    let mut left: u32 = u32::MAX - deck.seq;
    let mut i: usize = 0;
    while i < deck.slides.len()
        invariant
            i <= s.len(),
            s == deck@.slides,
            deck.seq + unnamed(s.take(i as int)) + left == u32::MAX,
        decreases s.len() - i,
    {
        assert(s.take(i + 1).drop_last() =~= s.take(i as int));
        assert(s[i as int] == deck.slides[i as int]@);
        if deck.slides[i].id.as_str().is_empty() {
            if left == 0 {
                proof {
                    lemma_unnamed_grows(s, i + 1);
                }
                return false;
            }
            left = left - 1;
        }
        i = i + 1;
    }
    assert(s.take(i as int) =~= s);
    true
}

// ---- Laws --------------------------------------------------------------

/// A build that failed, or that changed nothing, leaves the deck as it was, and nothing
/// is saved or shown of it.
pub proof fn law_failed_build_changes_nothing(
    a: AgentView,
    working: DeckView,
    ending: Result<Seq<Seq<char>>, Seq<char>>,
)
    requires
        ending matches Ok(applied) ==> applied.len() == 0,
    ensures
        concluded(a, working, ending).0 == a,
        concluded(a, working, ending).1.publication is None,
{
}

/// What is saved after a build is the deck that the agent goes on with, and the page that
/// is saved is that of this deck.
pub proof fn law_what_is_saved_is_what_is_shown(
    a: AgentView,
    working: DeckView,
    applied: Seq<Seq<char>>,
)
    requires
        applied.len() > 0,
    ensures
        concluded(a, working, Ok(applied)).1.publication == Some(
            published(concluded(a, working, Ok(applied)).0.deck),
        ),
{
}

/// A build leaves a deck in which everything has its name, so that it is read back from
/// what was saved: a restart goes on with it.
pub proof fn law_finished_deck_is_read_back(working: DeckView)
    requires
        well_kept(working),
        working.seq + unnamed(working.slides) <= u32::MAX,
    ensures
        has_names(finished(working)),
        deck_from(full_json(finished(working))) == raised(finished(working)),
{
    let d = finished(working);
    let named_deck = DeckView {
        slides: named(working.slides, working.seq),
        seq: working.seq + unnamed(working.slides),
        ..working
    };
    lemma_named(working.slides, working.seq);
    let gone = unplaced(named_deck);
    let keep = |p: (Seq<char>, ImageView)| !gone.contains(p.0);
    assert(d.images == working.images.filter(keep));
    assert forall|i: int| 0 <= i < d.images.len() implies (#[trigger] d.images[i]).0.len() > 0 by {
        assert(d.images.contains(d.images[i]));
        working.images.lemma_filter_contains_rev(keep, d.images[i]);
    }
    law_snapshot_round_trips(d);
}

/// What the browser is told of a build carries the state, the note and the number of the
/// build.
pub proof fn law_status_carries_state_and_note(state: Seq<char>, note: Seq<char>, run_count: nat)
    ensures
        field(status_json(state, note, run_count), "state"@) == Some(JsonView::Text(state)),
        field(status_json(state, note, run_count), "note"@) == Some(JsonView::Text(note)),
        field(status_json(state, note, run_count), "run_count"@) == Some(
            JsonView::Int(run_count as int),
        ),
{
    reveal_strlit("state");
    reveal_strlit("note");
    reveal_strlit("run_count");
    assert("state"@.len() == 5 && "note"@.len() == 4 && "run_count"@.len() == 9);
}

/// What is said of a build names what was done where that is one thing, how many things were
/// where they are more, how many slides the deck has now, and its title.
pub proof fn law_summary_says_what_was_done(applied: Seq<Seq<char>>, d: DeckView)
    ensures
        applied.len() == 1 ==> in_turn(
            summary_of(applied, d),
            seq![capitalized(applied[0]), dec(d.slides.len()) + " slide"@, d.title],
        ) && capitalized(applied[0]).is_prefix_of(summary_of(applied, d)),
        applied.len() != 1 ==> in_turn(
            summary_of(applied, d),
            seq![
                "Applied "@ + dec(applied.len()) + " changes"@,
                dec(d.slides.len()) + " slide"@,
                d.title,
            ],
        ),
        d.slides.len() == 1 ==> holds(summary_of(applied, d), " slide in "@),
        d.slides.len() != 1 ==> holds(summary_of(applied, d), " slides in "@),
{
    let s = summary_of(applied, d);
    let what = if applied.len() == 1 {
        capitalized(applied[0])
    } else {
        "Applied "@ + dec(applied.len()) + " changes"@
    };
    let count = dec(d.slides.len()) + " slide"@;
    let plural = if d.slides.len() != 1 {
        "s"@
    } else {
        Seq::empty()
    };
    let none = Seq::<char>::empty();
    let s2 = (plural + " in \u{201c}"@) + d.title + "\u{201d}."@;
    let s1 = " — "@ + count + s2;
    lemma_in_turn(plural + " in \u{201c}"@, d.title, "\u{201d}."@, Seq::empty());
    lemma_in_turn(" — "@, count, s2, seq![d.title]);
    lemma_in_turn(none, what, s1, seq![count, d.title]);
    assert(s =~= none + what + s1);
    assert(s.subrange(0, what.len() as int) =~= what);
    reveal_strlit(" slide");
    reveal_strlit("s");
    reveal_strlit(" in \u{201c}");
    reveal_strlit(" slide in ");
    reveal_strlit(" slides in ");
    let tail = " in \u{201c}"@;
    assert(tail.len() == 5);
    let mid = " slide"@ + plural + tail.take(4);
    assert(d.slides.len() == 1 ==> mid =~= " slide in "@);
    assert(d.slides.len() != 1 ==> mid =~= " slides in "@);
    let a = what + " — "@ + dec(d.slides.len());
    let b = tail.skip(4) + d.title + "\u{201d}."@;
    assert(s =~= a + mid + b);
    lemma_holds(a, mid, b);
}

/// A build that has changed something makes the deck that it worked on the agent's: with the
/// slides that it had, in their order, with their texts, with the title and the theme, and with
/// all images but those of the library that stand on no slide. The voice agent and the browser
/// are told the same summary of it, and what is published is this deck: its snapshot, its page,
/// and its outline with the page.
pub proof fn law_changed_deck_is_published(
    a: AgentView,
    working: DeckView,
    applied: Seq<Seq<char>>,
)
    requires
        applied.len() > 0,
    ensures
        ({
            let (after, end) = concluded(a, working, Ok(applied));
            let d = after.deck;
            &&& after.run_count == a.run_count
            &&& d.title == working.title
            &&& d.theme_css == working.theme_css
            &&& d.img_seq == working.img_seq
            &&& d.slides.len() == working.slides.len()
            &&& forall|i: int|
                0 <= i < d.slides.len() ==> (#[trigger] d.slides[i]).title
                    == working.slides[i].title && d.slides[i].html == working.slides[i].html && (
                working.slides[i].id.len() > 0 ==> d.slides[i].id == working.slides[i].id)
            &&& forall|p: (Seq<char>, ImageView)| #[trigger]
                d.images.contains(p) <==> working.images.contains(p) && (
                !"lib"@.is_prefix_of(p.0) || refs_of(d.slides).contains(p.0))
            &&& end.reply == summary_of(applied, d)
            &&& field(end.status, "state"@) == Some(JsonView::Text("ready"@))
            &&& field(end.status, "note"@) == Some(JsonView::Text(end.reply))
            &&& end.publication matches Some(p) && p.snapshot == json_print(full_json(d)) && p.html
                == deck_page(d) && field(p.update, "deck"@) == Some(ui_json(d)) && field(
                p.update,
                "html"@,
            ) == Some(JsonView::Text(p.html))
        }),
{
    reveal_strlit("state");
    reveal_strlit("note");
    reveal_strlit("run_count");
    reveal_strlit("deck");
    reveal_strlit("html");
    assert("state"@.len() == 5 && "note"@.len() == 4 && "run_count"@.len() == 9);
    assert("deck"@.len() == 4 && "html"@.len() == 4 && "note"@[0] == 'n' && "deck"@[0] == 'd');
    assert("html"@[0] == 'h');
    let d = finished(working);
    let named_deck = DeckView {
        slides: named(working.slides, working.seq),
        seq: working.seq + unnamed(working.slides),
        ..working
    };
    if working.slides.len() > 0 {
        law_ids_are_given_to_the_unnamed(working.slides, working.seq, 0);
    }
    assert forall|i: int| 0 <= i < working.slides.len() implies (#[trigger] d.slides[i]).title
        == working.slides[i].title && d.slides[i].html == working.slides[i].html && (
    working.slides[i].id.len() > 0 ==> d.slides[i].id == working.slides[i].id) by {
        law_ids_are_given_to_the_unnamed(working.slides, working.seq, i);
    }
    assert forall|p: (Seq<char>, ImageView)| #[trigger]
        d.images.contains(p) <==> working.images.contains(p) && (!"lib"@.is_prefix_of(p.0)
            || refs_of(d.slides).contains(p.0)) by {
        law_only_unplaced_images_are_dropped(named_deck, p);
    }
}

/// A build that failed is answered with the reason, for the voice agent and for the browser;
/// one that did nothing is answered so.
pub proof fn law_failed_build_says_why(a: AgentView, working: DeckView, error: Seq<char>)
    ensures
        concluded(a, working, Err(error)).1.reply == "Slide edit failed: "@ + error + "."@,
        field(concluded(a, working, Err(error)).1.status, "state"@) == Some(
            JsonView::Text("error"@),
        ),
        field(concluded(a, working, Err(error)).1.status, "note"@) == Some(JsonView::Text(error)),
        concluded(a, working, Ok(Seq::empty())).1.reply
            == "I didn't change anything — could you rephrase?"@,
        field(concluded(a, working, Ok(Seq::empty())).1.status, "state"@) == Some(
            JsonView::Text("ready"@),
        ),
        field(concluded(a, working, Ok(Seq::empty())).1.status, "note"@) == Some(
            JsonView::Text("no change"@),
        ),
{
    reveal_strlit("state");
    reveal_strlit("note");
    reveal_strlit("run_count");
    assert("state"@.len() == 5 && "note"@.len() == 4 && "run_count"@.len() == 9);
}

/// Each build has the number after the one before it; past the highest they begin anew.
pub proof fn law_builds_are_numbered(n: nat)
    requires
        n <= u32::MAX,
    ensures
        n < u32::MAX ==> next_run(n) == n + 1,
        next_run(n) <= u32::MAX,
        n == u32::MAX ==> next_run(n) == 0,
{
}

} // verus!

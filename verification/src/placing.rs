//! The user's own images in a build: they are offered to the model, and those that it has
//! not placed are dropped again.

use vstd::hash_set::StringHashSet;
use vstd::prelude::*;
use vstd::string::*;

use crate::deck::{
    image_of, images_outside, law_image_put_is_looked_up, law_only_named_images_are_dropped,
    upserted, Deck, DeckView, Image, ImageView,
};
use crate::embed::refs_of;
use crate::images::{enabled_views, EnabledImage, EnabledImageView};
use crate::num::{dec, decimal};
use crate::render::{deck_page, editor_page, law_unreferenced_images_do_not_show, print_page};
use crate::text::{holds, lemma_holds, starts_with};

verus! {

pub open spec fn user_images_head() -> Seq<char> {
    "[USER IMAGES — real images the user has provided for this deck. Each has a stable id; place one on a slide with <img class=\"slide-image\" data-img=\"<id>\" alt=\"…\"> (no src — it is filled in automatically), laying it out per the IMAGES guidance. Use the ones that fit the content and the user's instruction; you need not use every one. Do NOT call generate_image for something a user image already covers.]\n"@
}

/// What the model is told of one image.
pub open spec fn user_image_line(e: EnabledImageView) -> Seq<char> {
    "- id \""@ + e.meta.id + "\" ("@ + e.meta.name + "): "@ + (if e.meta.description.len() == 0 {
        "(no description provided)"@
    } else {
        e.meta.description
    }) + (if e.meta.pinned_slide > 0 {
        " — REQUESTED on slide "@ + dec(e.meta.pinned_slide)
    } else {
        Seq::empty()
    }) + "\n"@
}

pub open spec fn user_image_lines(enabled: Seq<EnabledImageView>) -> Seq<char>
    decreases enabled.len(),
{
    if enabled.len() == 0 {
        Seq::empty()
    } else {
        user_image_lines(enabled.drop_last()) + user_image_line(enabled.last())
    }
}

/// What the model is told of the user's images; nothing where there are none.
pub open spec fn user_images_block(enabled: Seq<EnabledImageView>) -> Seq<char> {
    if enabled.len() == 0 {
        Seq::empty()
    } else {
        (user_images_head() + user_image_lines(enabled)).push('\n')
    }
}

/// An image of the library as an image of a deck.
pub open spec fn as_deck_image(e: EnabledImageView) -> ImageView {
    ImageView {
        data_uri: e.data_uri,
        prompt: if e.meta.description.len() == 0 {
            e.meta.name
        } else {
            e.meta.description
        },
    }
}

/// The images of a deck with those of the library among them.
pub open spec fn with_library(
    images: Seq<(Seq<char>, ImageView)>,
    enabled: Seq<EnabledImageView>,
) -> Seq<(Seq<char>, ImageView)>
    decreases enabled.len(),
{
    if enabled.len() == 0 {
        images
    } else {
        upserted(
            with_library(images, enabled.drop_last()),
            enabled.last().meta.id,
            as_deck_image(enabled.last()),
        )
    }
}

/// Puts the images of the library among those of a deck, and tells the model of them.
pub fn inject_library_images(working: &mut Deck, enabled: &Vec<EnabledImage>) -> (r: String)
    ensures
        r@ == user_images_block(enabled_views(enabled@)),
        final(working)@ == (DeckView {
            images: with_library(old(working)@.images, enabled_views(enabled@)),
            ..old(working)@
        }),
{
    let ghost d = working@;
    let ghost all = enabled_views(enabled@);
    if enabled.len() == 0 {
        return String::new();
    }
    let mut lines = "[USER IMAGES — real images the user has provided for this deck. Each has a stable id; place one on a slide with <img class=\"slide-image\" data-img=\"<id>\" alt=\"…\"> (no src — it is filled in automatically), laying it out per the IMAGES guidance. Use the ones that fit the content and the user's instruction; you need not use every one. Do NOT call generate_image for something a user image already covers.]\n".to_string();
    let mut i: usize = 0;
    assert(user_images_head() + user_image_lines(all.take(0)) =~= user_images_head());
    while i < enabled.len()
        invariant
            i <= enabled@.len(),
            all == enabled_views(enabled@),
            lines@ == user_images_head() + user_image_lines(all.take(i as int)),
            working@ == (DeckView { images: with_library(d.images, all.take(i as int)), ..d }),
        decreases enabled@.len() - i,
    {
        let img = &enabled[i];
        assert(all[i as int] == img@);
        assert(all.take(i + 1).drop_last() =~= all.take(i as int));
        let bare = img.meta.description.as_str().is_empty();
        let mut line = "- id \"".to_string();
        line.append(img.meta.id.as_str());
        line.append("\" (");
        line.append(img.meta.name.as_str());
        line.append("): ");
        if bare {
            line.append("(no description provided)");
        } else {
            line.append(img.meta.description.as_str());
        }
        if img.meta.pinned_slide > 0 {
            let mut pin = " — REQUESTED on slide ".to_string();
            pin.append(decimal(img.meta.pinned_slide as u128).as_str());
            line.append(pin.as_str());
        } else {
            assert(line@ =~= line@ + Seq::empty());
        }
        line.append("\n");
        assert(line@ == user_image_line(img@));
        lines.append(line.as_str());
        assert(lines@ =~= user_images_head() + (user_image_lines(all.take(i as int))
            + user_image_line(img@)));
        let prompt = if bare {
            img.meta.name.clone()
        } else {
            img.meta.description.clone()
        };
        working.set_image(img.meta.id.clone(), Image { data_uri: img.data_uri.clone(), prompt });
        i = i + 1;
    }
    assert(all.take(i as int) =~= all);
    lines.push('\n');
    lines
}

/// The ids of images of the library that no slide shows.
pub open spec fn unplaced(d: DeckView) -> Set<Seq<char>> {
    Set::new(|id: Seq<char>| "lib"@.is_prefix_of(id) && !refs_of(d.slides).contains(id))
}

/// A deck without the images of the library that no slide shows.
pub open spec fn pruned(d: DeckView) -> DeckView {
    DeckView { images: images_outside(d.images, unplaced(d)), ..d }
}

/// Which ids are dropped matters only as far as images have them.
proof fn lemma_outside_agrees(
    images: Seq<(Seq<char>, ImageView)>,
    a: Set<Seq<char>>,
    b: Set<Seq<char>>,
)
    requires
        forall|i: int|
            0 <= i < images.len() ==> (a.contains((#[trigger] images[i]).0) <==> b.contains(
                images[i].0,
            )),
    ensures
        images_outside(images, a) == images_outside(images, b),
    decreases images.len(),
{
    reveal(Seq::filter);
    if images.len() > 0 {
        let rest = images.drop_last();
        assert forall|i: int| 0 <= i < rest.len() implies (a.contains((#[trigger] rest[i]).0)
            <==> b.contains(rest[i].0)) by {
            assert(rest[i] == images[i]);
        }
        lemma_outside_agrees(rest, a, b);
        assert(images[images.len() - 1] == images.last());
    }
}

/// Drops the images of the library that a build has left unplaced.
pub fn prune_unused_library_images(working: &mut Deck)
    ensures
        final(working)@ == pruned(old(working)@),
{
    let ghost d = working@;
    let ghost s = d.images;
    let referenced = working.referenced_image_ids();
    let mut unused = StringHashSet::new();
    let mut i: usize = 0;
    while i < working.images.len()
        invariant
            i <= s.len(),
            d == working@,
            s == d.images,
            referenced@ == refs_of(d.slides),
            forall|id: Seq<char>| #[trigger] unused@.contains(id) ==> unplaced(d).contains(id),
            forall|j: int|
                0 <= j < i && unplaced(d).contains((#[trigger] s[j]).0) ==> unused@.contains(s[j].0),
        decreases s.len() - i,
    {
        assert(s[i as int].0 == working.images[i as int].0@);
        let id = working.images[i].0.as_str();
        if starts_with(id, "lib") && !referenced.contains(id) {
            unused.insert(id.to_string());
        }
        i = i + 1;
    }
    proof {
        lemma_outside_agrees(s, unused@, unplaced(d));
    }
    working.retain_images_not_in(&unused);
}

// ---- Laws --------------------------------------------------------------

/// Dropping the images that no slide shows changes no page.
pub proof fn law_pruning_changes_no_page(d: DeckView)
    ensures
        deck_page(pruned(d)) == deck_page(d),
        print_page(pruned(d)) == print_page(d),
        editor_page(pruned(d)) == editor_page(d),
{
    law_unreferenced_images_do_not_show(d, unplaced(d));
}

/// What the model is told of the user's images names each of them, in their order: its id,
/// its name, what it shows, and the slide on which it is wanted.
pub proof fn law_model_is_told_of_each_image(enabled: Seq<EnabledImageView>, i: int)
    requires
        0 <= i < enabled.len(),
    ensures
        ({
            let m = enabled[i].meta;
            let shown = if m.description.len() == 0 {
                "(no description provided)"@
            } else {
                m.description
            };
            let pin = if m.pinned_slide == 0 {
                "\n"@
            } else {
                " — REQUESTED on slide "@ + dec(m.pinned_slide) + "\n"@
            };
            holds(
                user_images_block(enabled),
                "- id \""@ + m.id + "\" ("@ + m.name + "): "@ + shown + pin,
            )
        }),
        user_image_lines(enabled) == user_image_lines(enabled.take(i)) + user_image_lines(
            enabled.skip(i),
        ),
{
    let m = enabled[i].meta;
    let shown = if m.description.len() == 0 {
        "(no description provided)"@
    } else {
        m.description
    };
    let pin = if m.pinned_slide == 0 {
        "\n"@
    } else {
        " — REQUESTED on slide "@ + dec(m.pinned_slide) + "\n"@
    };
    let line = "- id \""@ + m.id + "\" ("@ + m.name + "): "@ + shown + pin;
    assert(user_image_line(enabled[i]) =~= line);
    lemma_lines_apart(enabled, i);
    lemma_lines_apart(enabled, i + 1);
    assert(enabled.take(i + 1).drop_last() =~= enabled.take(i));
    let a = user_images_head() + user_image_lines(enabled.take(i));
    let b = user_image_lines(enabled.skip(i + 1)).push('\n');
    assert(user_images_block(enabled) =~= a + line + b);
    lemma_holds(a, line, b);
}

proof fn lemma_lines_apart(enabled: Seq<EnabledImageView>, i: int)
    requires
        0 <= i <= enabled.len(),
    ensures
        user_image_lines(enabled) == user_image_lines(enabled.take(i)) + user_image_lines(
            enabled.skip(i),
        ),
    decreases enabled.len(),
{
    if i == enabled.len() {
        assert(enabled.take(i) =~= enabled);
        assert(enabled.skip(i) =~= Seq::empty());
        assert(user_image_lines(enabled) =~= user_image_lines(enabled) + Seq::empty());
    } else {
        lemma_lines_apart(enabled.drop_last(), i);
        assert(enabled.drop_last().take(i) =~= enabled.take(i));
        assert(enabled.drop_last().skip(i) =~= enabled.skip(i).drop_last());
        assert(enabled.skip(i).last() == enabled.last());
        assert(user_image_lines(enabled) =~= user_image_lines(enabled.take(i)) + user_image_lines(
            enabled.skip(i),
        ));
    }
}

/// Where there are no images of the user the model is told nothing, and the deck keeps the
/// images that it has.
pub proof fn law_without_images_nothing_is_told(images: Seq<(Seq<char>, ImageView)>)
    ensures
        user_images_block(Seq::empty()).len() == 0,
        with_library(images, Seq::empty()) == images,
{
}

/// An image of the library is looked up in the deck with its own data and what it shows:
/// its description, or its name where it has none. An id that the library does not have is
/// looked up as before.
pub proof fn law_library_image_is_looked_up(
    images: Seq<(Seq<char>, ImageView)>,
    enabled: Seq<EnabledImageView>,
    i: int,
    other: Seq<char>,
)
    ensures
        0 <= i < enabled.len() && (forall|j: int|
            i < j < enabled.len() ==> (#[trigger] enabled[j]).meta.id != enabled[i].meta.id) ==> {
            let img = image_of(with_library(images, enabled), enabled[i].meta.id);
            &&& img is Some
            &&& img->0.data_uri == enabled[i].data_uri
            &&& enabled[i].meta.description.len() > 0 ==> img->0.prompt
                == enabled[i].meta.description
            &&& enabled[i].meta.description.len() == 0 ==> img->0.prompt == enabled[i].meta.name
        },
        (forall|j: int| 0 <= j < enabled.len() ==> (#[trigger] enabled[j]).meta.id != other)
            ==> image_of(with_library(images, enabled), other) == image_of(images, other),
    decreases enabled.len(),
{
    if enabled.len() > 0 {
        let rest = enabled.drop_last();
        let e = enabled.last();
        let before = with_library(images, rest);
        law_library_image_is_looked_up(images, rest, i, other);
        law_image_put_is_looked_up(before, e.meta.id, as_deck_image(e), other);
        assert(enabled[enabled.len() - 1] == e);
        assert forall|j: int| 0 <= j < rest.len() implies #[trigger] rest[j] == enabled[j] by {}
        if 0 <= i < rest.len() {
            law_image_put_is_looked_up(before, e.meta.id, as_deck_image(e), enabled[i].meta.id);
        }
    }
}

/// What is dropped after a build is just what came from the library and stands on no slide;
/// the slides, the title and the theme stay.
pub proof fn law_only_unplaced_images_are_dropped(d: DeckView, p: (Seq<char>, ImageView))
    ensures
        pruned(d).images.contains(p) <==> d.images.contains(p) && !("lib"@.is_prefix_of(p.0)
            && !refs_of(d.slides).contains(p.0)),
        pruned(d).slides == d.slides,
        pruned(d).title == d.title,
        pruned(d).theme_css == d.theme_css,
        pruned(d).seq == d.seq,
        pruned(d).img_seq == d.img_seq,
{
    law_only_named_images_are_dropped(d.images, unplaced(d), p);
}

} // verus!

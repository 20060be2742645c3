//! The deck: slides, one stylesheet, and the images that the slides show.

use vstd::hash_set::StringHashSet;
use vstd::prelude::*;
use vstd::string::*;

use crate::num::{dec, decimal};
use crate::text::{pos_view, same};

verus! {

/// One slide: a stable id, a title for the outline, and its inner HTML.
#[derive(Debug)]
pub struct Slide {
    pub id: String,
    pub title: String,
    pub html: String,
}

/// One image: its data URI, and what it was asked to show.
#[derive(Debug)]
pub struct Image {
    pub data_uri: String,
    pub prompt: String,
}

/// A deck. The images stand in the order in which they came; `seq` and `img_seq`
/// are the numbers of the last slide id and the last image id that were minted.
#[derive(Debug)]
pub struct Deck {
    pub title: String,
    pub theme_css: String,
    pub slides: Vec<Slide>,
    pub images: Vec<(String, Image)>,
    pub seq: u32,
    pub img_seq: u32,
}

pub struct SlideView {
    pub id: Seq<char>,
    pub title: Seq<char>,
    pub html: Seq<char>,
}

pub struct ImageView {
    pub data_uri: Seq<char>,
    pub prompt: Seq<char>,
}

pub struct DeckView {
    pub title: Seq<char>,
    pub theme_css: Seq<char>,
    pub slides: Seq<SlideView>,
    pub images: Seq<(Seq<char>, ImageView)>,
    pub seq: nat,
    pub img_seq: nat,
}

impl View for Slide {
    type V = SlideView;

    open spec fn view(&self) -> SlideView {
        SlideView { id: self.id@, title: self.title@, html: self.html@ }
    }
}

impl View for Image {
    type V = ImageView;

    open spec fn view(&self) -> ImageView {
        ImageView { data_uri: self.data_uri@, prompt: self.prompt@ }
    }
}

pub open spec fn slide_views(s: Seq<Slide>) -> Seq<SlideView> {
    s.map_values(|x: Slide| x@)
}

pub open spec fn image_views(s: Seq<(String, Image)>) -> Seq<(Seq<char>, ImageView)> {
    s.map_values(|x: (String, Image)| (x.0@, x.1@))
}

impl View for Deck {
    type V = DeckView;

    open spec fn view(&self) -> DeckView {
        DeckView {
            title: self.title@,
            theme_css: self.theme_css@,
            slides: slide_views(self.slides@),
            images: image_views(self.images@),
            seq: self.seq as nat,
            img_seq: self.img_seq as nat,
        }
    }
}

impl Clone for Slide {
    fn clone(&self) -> (r: Self)
        ensures
            r@ == self@,
    {
        Slide { id: self.id.clone(), title: self.title.clone(), html: self.html.clone() }
    }
}

impl Clone for Image {
    fn clone(&self) -> (r: Self)
        ensures
            r@ == self@,
    {
        Image { data_uri: self.data_uri.clone(), prompt: self.prompt.clone() }
    }
}

impl Clone for Deck {
    fn clone(&self) -> (r: Self)
        ensures
            r@ == self@,
    {
        let mut slides: Vec<Slide> = Vec::new();
        let mut i: usize = 0;
        while i < self.slides.len()
            invariant
                i <= self.slides@.len(),
                slide_views(slides@) =~= slide_views(self.slides@).take(i as int),
            decreases self.slides@.len() - i,
        {
            let ghost all = slide_views(self.slides@);
            slides.push(self.slides[i].clone());
            i = i + 1;
            assert(all.take(i as int) =~= all.take(i - 1).push(all[i - 1]));
        }
        let mut images: Vec<(String, Image)> = Vec::new();
        let mut j: usize = 0;
        while j < self.images.len()
            invariant
                j <= self.images@.len(),
                image_views(images@) =~= image_views(self.images@).take(j as int),
            decreases self.images@.len() - j,
        {
            let ghost all = image_views(self.images@);
            images.push((self.images[j].0.clone(), self.images[j].1.clone()));
            j = j + 1;
            assert(all.take(j as int) =~= all.take(j - 1).push(all[j - 1]));
        }
        assert(slide_views(slides@) =~= slide_views(self.slides@));
        assert(image_views(images@) =~= image_views(self.images@));
        Deck {
            title: self.title.clone(),
            theme_css: self.theme_css.clone(),
            slides,
            images,
            seq: self.seq,
            img_seq: self.img_seq,
        }
    }
}

/// The id of the `n`th slide that a deck mints.
pub open spec fn slide_id(n: nat) -> Seq<char> {
    "s"@ + dec(n)
}

/// The id of the `n`th image that a deck mints.
pub open spec fn image_id(n: nat) -> Seq<char> {
    "img"@ + dec(n)
}

/// A deck without slides.
pub open spec fn empty_deck() -> DeckView {
    DeckView {
        title: "Untitled Deck"@,
        theme_css: Seq::empty(),
        slides: Seq::empty(),
        images: Seq::empty(),
        seq: 0,
        img_seq: 0,
    }
}

/// How many slides have no id.
pub open spec fn unnamed(slides: Seq<SlideView>) -> nat
    decreases slides.len(),
{
    if slides.len() == 0 {
        0
    } else {
        unnamed(slides.drop_last()) + (if slides.last().id.len() == 0 {
            1nat
        } else {
            0
        })
    }
}

/// The slides with an id minted for each that has none: the first gets the number
/// after `seq`, and so on.
pub open spec fn named(slides: Seq<SlideView>, seq: nat) -> Seq<SlideView>
    decreases slides.len(),
{
    if slides.len() == 0 {
        Seq::empty()
    } else {
        let last = slides.last();
        named(slides.drop_last(), seq).push(
            if last.id.len() == 0 {
                SlideView { id: slide_id(seq + unnamed(slides)), ..last }
            } else {
                last
            },
        )
    }
}

/// The position of the first slide with this id.
pub open spec fn slide_index(slides: Seq<SlideView>, id: Seq<char>) -> Option<int>
    decreases slides.len(),
{
    if slides.len() == 0 {
        None
    } else {
        match slide_index(slides.drop_last(), id) {
            Some(i) => Some(i),
            None => if slides.last().id == id {
                Some(slides.len() - 1)
            } else {
                None
            },
        }
    }
}

/// The position of the first image with this id.
pub open spec fn image_index(images: Seq<(Seq<char>, ImageView)>, id: Seq<char>) -> Option<int>
    decreases images.len(),
{
    if images.len() == 0 {
        None
    } else {
        match image_index(images.drop_last(), id) {
            Some(i) => Some(i),
            None => if images.last().0 == id {
                Some(images.len() - 1)
            } else {
                None
            },
        }
    }
}

/// The first image with this id.
pub open spec fn image_of(images: Seq<(Seq<char>, ImageView)>, id: Seq<char>) -> Option<ImageView> {
    match image_index(images, id) {
        Some(i) => Some(images[i].1),
        None => None,
    }
}

/// The images with `img` under `id`: in the place of the first image with that id,
/// or at the end where there is none.
pub open spec fn upserted(
    images: Seq<(Seq<char>, ImageView)>,
    id: Seq<char>,
    img: ImageView,
) -> Seq<(Seq<char>, ImageView)> {
    match image_index(images, id) {
        Some(i) => images.update(i, (id, img)),
        None => images.push((id, img)),
    }
}

/// The images whose id is not in `ids`, in their order.
pub open spec fn images_outside(
    images: Seq<(Seq<char>, ImageView)>,
    ids: Set<Seq<char>>,
) -> Seq<(Seq<char>, ImageView)> {
    images.filter(|p: (Seq<char>, ImageView)| !ids.contains(p.0))
}

pub open spec fn image_view(r: Option<&Image>) -> Option<ImageView> {
    match r {
        Some(img) => Some(img@),
        None => None,
    }
}

/// Some ids as a set.
pub fn id_set(ids: &Vec<String>) -> (r: StringHashSet)
    ensures
        forall|id: Seq<char>| #[trigger]
            r@.contains(id) <==> exists|i: int| 0 <= i < ids@.len() && (#[trigger] ids@[i])@ == id,
{
    let mut r = StringHashSet::new();
    let mut i: usize = 0;
    while i < ids.len()
        invariant
            i <= ids@.len(),
            forall|id: Seq<char>| #[trigger]
                r@.contains(id) <==> exists|j: int| 0 <= j < i && (#[trigger] ids@[j])@ == id,
        decreases ids@.len() - i,
    {
        r.insert(ids[i].clone());
        i = i + 1;
        assert(ids@[i - 1]@ == ids@[i - 1]@);
    }
    r
}

impl Deck {
    pub fn new() -> (r: Self)
        ensures
            r@ == empty_deck(),
    {
        let r = Deck {
            title: "Untitled Deck".to_string(),
            theme_css: String::new(),
            slides: Vec::new(),
            images: Vec::new(),
            seq: 0,
            img_seq: 0,
        };
        assert(r@.slides =~= empty_deck().slides);
        assert(r@.images =~= empty_deck().images);
        r
    }

    /// Mints the id of a new slide.
    pub fn new_id(&mut self) -> (r: String)
        requires
            old(self).seq < u32::MAX,
        ensures
            r@ == slide_id(old(self)@.seq + 1),
            final(self)@ == (DeckView { seq: old(self)@.seq + 1, ..old(self)@ }),
    {
        self.seq = self.seq + 1;
        let mut r = "s".to_string();
        r.append(decimal(self.seq as u128).as_str());
        r
    }

    /// Mints the id of a new image.
    pub fn new_image_id(&mut self) -> (r: String)
        requires
            old(self).img_seq < u32::MAX,
        ensures
            r@ == image_id(old(self)@.img_seq + 1),
            final(self)@ == (DeckView { img_seq: old(self)@.img_seq + 1, ..old(self)@ }),
    {
        self.img_seq = self.img_seq + 1;
        let mut r = "img".to_string();
        r.append(decimal(self.img_seq as u128).as_str());
        r
    }

    /// Mints an id for each slide that has none.
    pub fn ensure_ids(&mut self)
        requires
            old(self).seq + unnamed(old(self)@.slides) <= u32::MAX,
        ensures
            final(self)@ == (DeckView {
                slides: named(old(self)@.slides, old(self)@.seq),
                seq: old(self)@.seq + unnamed(old(self)@.slides),
                ..old(self)@
            }),
    {
        let ghost d = self@;
        let n: usize = self.slides.len();
        let mut i: usize = 0;
        while i < n
            invariant
                i <= n,
                n == d.slides.len(),
                self@.slides.len() == n,
                self@.title == d.title,
                self@.theme_css == d.theme_css,
                self@.images == d.images,
                self@.img_seq == d.img_seq,
                d.seq + unnamed(d.slides) <= u32::MAX,
                self@.seq == d.seq + unnamed(d.slides.take(i as int)),
                self@.slides =~= named(d.slides.take(i as int), d.seq) + d.slides.skip(i as int),
            decreases n - i,
        {
            proof {
                lemma_named_len(d.slides.take(i as int), d.seq);
                lemma_unnamed_grows(d.slides, i + 1);
                assert(d.slides.take(i + 1).drop_last() =~= d.slides.take(i as int));
                assert(self@.slides[i as int] == d.slides[i as int]);
            }
            if self.slides[i].id.as_str().is_empty() {
                self.seq = self.seq + 1;
                let mut id = "s".to_string();
                id.append(decimal(self.seq as u128).as_str());
                let ghost before = self@.slides;
                self.slides[i].id = id;
                assert(self@.slides =~= before.update(
                    i as int,
                    SlideView { id: id@, ..before[i as int] },
                ));
            }
            i = i + 1;
        }
        assert(d.slides.take(n as int) =~= d.slides);
        assert(named(d.slides, d.seq) + d.slides.skip(n as int) =~= named(d.slides, d.seq));
    }

    /// The position of the first slide with this id.
    pub fn index_of(&self, id: &str) -> (r: Option<usize>)
        ensures
            pos_view(r) == slide_index(self@.slides, id@),
    {
        let ghost s = self@.slides;
        let mut i: usize = 0;
        while i < self.slides.len()
            invariant
                i <= s.len(),
                s == self@.slides,
                slide_index(s.take(i as int), id@) is None,
            decreases s.len() - i,
        {
            assert(s.take(i + 1).drop_last() =~= s.take(i as int));
            assert(self.slides[i as int]@ == s[i as int]);
            if same(self.slides[i].id.as_str(), id) {
                proof {
                    lemma_slide_index_prefix(s, i + 1, id@);
                }
                return Some(i);
            }
            i = i + 1;
        }
        assert(s.take(s.len() as int) =~= s);
        None
    }

    /// The first image with this id.
    pub fn image(&self, id: &str) -> (r: Option<&Image>)
        ensures
            image_view(r) == image_of(self@.images, id@),
    {
        match self.image_position(id) {
            Some(i) => Some(&self.images[i].1),
            None => None,
        }
    }

    fn image_position(&self, id: &str) -> (r: Option<usize>)
        ensures
            pos_view(r) == image_index(self@.images, id@),
            r matches Some(i) ==> i < self.images@.len(),
    {
        let ghost s = self@.images;
        let mut i: usize = 0;
        while i < self.images.len()
            invariant
                i <= s.len(),
                s == self@.images,
                image_index(s.take(i as int), id@) is None,
            decreases s.len() - i,
        {
            assert(s.take(i + 1).drop_last() =~= s.take(i as int));
            assert(s[i as int].0 == self.images[i as int].0@);
            if same(self.images[i].0.as_str(), id) {
                proof {
                    lemma_image_index_prefix(s, i + 1, id@);
                }
                return Some(i);
            }
            i = i + 1;
        }
        assert(s.take(s.len() as int) =~= s);
        None
    }

    /// Adds an image at the end.
    pub fn insert_image(&mut self, id: String, img: Image)
        ensures
            final(self)@ == (DeckView {
                images: old(self)@.images.push((id@, img@)),
                ..old(self)@
            }),
    {
        self.images.push((id, img));
        assert(self@.images =~= old(self)@.images.push((id@, img@)));
    }

    /// Puts an image in the place of the one with the same id, or at the end.
    pub fn set_image(&mut self, id: String, img: Image)
        ensures
            final(self)@ == (DeckView {
                images: upserted(old(self)@.images, id@, img@),
                ..old(self)@
            }),
    {
        match self.image_position(id.as_str()) {
            Some(i) => {
                self.images[i].1 = img;
                proof {
                    lemma_image_index(old(self)@.images, id@);
                }
                assert(self@.images =~= upserted(old(self)@.images, id@, img@));
            },
            None => {
                self.images.push((id, img));
                assert(self@.images =~= upserted(old(self)@.images, id@, img@));
            },
        }
    }

    /// Drops the images whose id is in `ids`.
    pub fn retain_images_not_in(&mut self, ids: &StringHashSet)
        ensures
            final(self)@ == (DeckView {
                images: images_outside(old(self)@.images, ids@),
                ..old(self)@
            }),
    {
        let ghost s = self@.images;
        let ghost keep = |p: (Seq<char>, ImageView)| !ids@.contains(p.0);
        let mut kept: Vec<(String, Image)> = Vec::new();
        let mut i: usize = 0;
        while i < self.images.len()
            invariant
                i <= s.len(),
                s == self@.images,
                *self == *old(self),
                keep == (|p: (Seq<char>, ImageView)| !ids@.contains(p.0)),
                image_views(kept@) =~= s.take(i as int).filter(keep),
            decreases s.len() - i,
        {
            proof {
                reveal(Seq::filter);
                assert(s.take(i + 1).drop_last() =~= s.take(i as int));
                assert(s[i as int] == (self.images[i as int].0@, self.images[i as int].1@));
            }
            if !ids.contains(self.images[i].0.as_str()) {
                kept.push((self.images[i].0.clone(), self.images[i].1.clone()));
            }
            i = i + 1;
        }
        assert(s.take(s.len() as int) =~= s);
        self.images = kept;
    }
}

proof fn lemma_named_len(slides: Seq<SlideView>, seq: nat)
    ensures
        named(slides, seq).len() == slides.len(),
    decreases slides.len(),
{
    if slides.len() > 0 {
        lemma_named_len(slides.drop_last(), seq);
    }
}

pub proof fn lemma_unnamed_grows(slides: Seq<SlideView>, i: int)
    requires
        0 <= i <= slides.len(),
    ensures
        unnamed(slides.take(i)) <= unnamed(slides),
    decreases slides.len() - i,
{
    if i == slides.len() {
        assert(slides.take(i) =~= slides);
    } else {
        assert(slides.take(i + 1).drop_last() =~= slides.take(i));
        lemma_unnamed_grows(slides, i + 1);
    }
}

proof fn lemma_slide_index_prefix(slides: Seq<SlideView>, n: int, id: Seq<char>)
    requires
        0 <= n <= slides.len(),
        slide_index(slides.take(n), id) is Some,
    ensures
        slide_index(slides, id) == slide_index(slides.take(n), id),
    decreases slides.len() - n,
{
    if n == slides.len() {
        assert(slides.take(n) =~= slides);
    } else {
        assert(slides.take(n + 1).drop_last() =~= slides.take(n));
        lemma_slide_index_prefix(slides, n + 1, id);
    }
}

/// What [`slide_index`] gives: the least position of the id, where it occurs.
pub proof fn lemma_slide_index(slides: Seq<SlideView>, id: Seq<char>)
    ensures
        match slide_index(slides, id) {
            Some(i) => 0 <= i < slides.len() && slides[i].id == id && forall|j: int|
                0 <= j < i ==> (#[trigger] slides[j]).id != id,
            None => forall|j: int| 0 <= j < slides.len() ==> (#[trigger] slides[j]).id != id,
        },
    decreases slides.len(),
{
    if slides.len() > 0 {
        lemma_slide_index(slides.drop_last(), id);
        assert forall|j: int| 0 <= j < slides.len() - 1 implies #[trigger] slides[j]
            == slides.drop_last()[j] by {}
    }
}

proof fn lemma_image_index_prefix(images: Seq<(Seq<char>, ImageView)>, n: int, id: Seq<char>)
    requires
        0 <= n <= images.len(),
        image_index(images.take(n), id) is Some,
    ensures
        image_index(images, id) == image_index(images.take(n), id),
    decreases images.len() - n,
{
    if n == images.len() {
        assert(images.take(n) =~= images);
    } else {
        assert(images.take(n + 1).drop_last() =~= images.take(n));
        lemma_image_index_prefix(images, n + 1, id);
    }
}

/// What [`image_index`] gives: the least position of the id, where it occurs.
pub proof fn lemma_image_index(images: Seq<(Seq<char>, ImageView)>, id: Seq<char>)
    ensures
        match image_index(images, id) {
            Some(i) => 0 <= i < images.len() && images[i].0 == id && forall|j: int|
                0 <= j < i ==> (#[trigger] images[j]).0 != id,
            None => forall|j: int| 0 <= j < images.len() ==> (#[trigger] images[j]).0 != id,
        },
    decreases images.len(),
{
    if images.len() > 0 {
        lemma_image_index(images.drop_last(), id);
        assert forall|j: int| 0 <= j < images.len() - 1 implies #[trigger] images[j]
            == images.drop_last()[j] by {}
    }
}

// ---- Laws --------------------------------------------------------------

/// Looking an image up gives the first that has the id, whole, and nothing where none has
/// it.
pub proof fn law_image_is_looked_up(images: Seq<(Seq<char>, ImageView)>, id: Seq<char>)
    ensures
        match image_of(images, id) {
            Some(img) => exists|i: int|
                0 <= i < images.len() && #[trigger] images[i] == (id, img) && forall|j: int|
                    0 <= j < i ==> (#[trigger] images[j]).0 != id,
            None => forall|j: int| 0 <= j < images.len() ==> (#[trigger] images[j]).0 != id,
        },
{
    lemma_image_index(images, id);
    if let Some(i) = image_index(images, id) {
        assert(images[i] == (id, images[i].1));
    }
}

/// An image that is put under an id is what that id is looked up as; every other id is
/// looked up as before, and no image but the one with that id has given way.
pub proof fn law_image_put_is_looked_up(
    images: Seq<(Seq<char>, ImageView)>,
    id: Seq<char>,
    img: ImageView,
    other: Seq<char>,
)
    ensures
        image_of(upserted(images, id, img), id) == Some(img),
        other != id ==> image_of(upserted(images, id, img), other) == image_of(images, other),
        forall|i: int|
            0 <= i < images.len() && (#[trigger] images[i]).0 != id ==> upserted(
                images,
                id,
                img,
            )[i] == images[i],
        images.len() <= upserted(images, id, img).len() <= images.len() + 1,
{
    let after = upserted(images, id, img);
    lemma_image_index(images, id);
    lemma_image_index(after, id);
    lemma_image_index(images, other);
    lemma_image_index(after, other);
    match image_index(images, id) {
        Some(k) => {
            assert(after[k] == (id, img));
            assert forall|j: int| 0 <= j < images.len() && j != k implies #[trigger] after[j]
                == images[j] by {}
            lemma_same_ids_same_index(images, after, id);
            lemma_same_ids_same_index(images, after, other);
        },
        None => {
            assert forall|j: int| 0 <= j < images.len() implies #[trigger] after[j]
                == images[j] by {}
            assert(after[images.len() as int] == (id, img));
            assert(after.drop_last() =~= images);
        },
    }
}

proof fn lemma_same_ids_same_index(
    images: Seq<(Seq<char>, ImageView)>,
    after: Seq<(Seq<char>, ImageView)>,
    id: Seq<char>,
)
    requires
        after.len() == images.len(),
        forall|j: int| 0 <= j < images.len() ==> (#[trigger] after[j]).0 == images[j].0,
    ensures
        image_index(after, id) == image_index(images, id),
    decreases images.len(),
{
    if images.len() > 0 {
        let a = images.drop_last();
        let b = after.drop_last();
        assert forall|j: int| 0 <= j < a.len() implies (#[trigger] b[j]).0 == a[j].0 by {
            assert(after[j].0 == images[j].0);
        }
        lemma_same_ids_same_index(a, b, id);
        assert(after[images.len() - 1].0 == images[images.len() - 1].0);
    }
}

/// The images that are kept are those whose id is not among the ones to be dropped.
pub proof fn law_only_named_images_are_dropped(
    images: Seq<(Seq<char>, ImageView)>,
    ids: Set<Seq<char>>,
    p: (Seq<char>, ImageView),
)
    ensures
        images_outside(images, ids).contains(p) <==> images.contains(p) && !ids.contains(p.0),
{
    let keep = |p: (Seq<char>, ImageView)| !ids.contains(p.0);
    let kept = images_outside(images, ids);
    if kept.contains(p) {
        let i = choose|i: int| 0 <= i < kept.len() && kept[i] == p;
        images.lemma_filter_pred(keep, i);
        images.lemma_filter_contains_rev(keep, p);
    }
    if images.contains(p) && !ids.contains(p.0) {
        let i = choose|i: int| 0 <= i < images.len() && images[i] == p;
        images.lemma_filter_contains(keep, i);
    }
}

/// The ids that are minted carry their number: that of a slide an `s` before it, that of an
/// image `img`. A slide that has no id gets one; every other keeps its own, and its text and
/// its place stay either way.
pub proof fn law_ids_are_given_to_the_unnamed(slides: Seq<SlideView>, seq: nat, i: int)
    requires
        0 <= i < slides.len(),
    ensures
        slide_id(seq) == "s"@ + dec(seq),
        image_id(seq) == "img"@ + dec(seq),
        named(slides, seq).len() == slides.len(),
        named(slides, seq)[i].title == slides[i].title,
        named(slides, seq)[i].html == slides[i].html,
        slides[i].id.len() > 0 ==> named(slides, seq)[i].id == slides[i].id,
        slides[i].id.len() == 0 ==> named(slides, seq)[i].id == "s"@ + dec(
            seq + unnamed(slides.take(i)) + 1,
        ),
    decreases slides.len(),
{
    lemma_named_len(slides, seq);
    lemma_named_len(slides.drop_last(), seq);
    if i < slides.len() - 1 {
        law_ids_are_given_to_the_unnamed(slides.drop_last(), seq, i);
        assert(slides.drop_last().take(i) =~= slides.take(i));
    } else {
        assert(slides.take(i) =~= slides.drop_last());
    }
}

/// The slides that are counted as unnamed are those whose id is empty.
pub proof fn law_unnamed_are_those_without_an_id(slides: Seq<SlideView>)
    ensures
        unnamed(slides) == slides.filter(|s: SlideView| s.id.len() == 0).len(),
    decreases slides.len(),
{
    reveal(Seq::filter);
    if slides.len() > 0 {
        law_unnamed_are_those_without_an_id(slides.drop_last());
    }
}

} // verus!

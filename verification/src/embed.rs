//! Images on slides: the `data-img="..."` references in the HTML of a slide, and the
//! image data that a rendered slide carries in their place.

use vstd::hash_set::StringHashSet;
use vstd::prelude::*;
use vstd::string::*;

use crate::deck::{
    image_index, image_of, images_outside, lemma_image_index, Deck, ImageView, SlideView,
};
use crate::text::{chars_of, find, find_from, lemma_find_from, occurs_at, string_of};

verus! {

/// What stands before the id of an image.
pub open spec fn needle() -> Seq<char> {
    "data-img=\""@
}

/// What stands after it.
pub open spec fn quote() -> Seq<char> {
    "\""@
}

/// Where the first image id in `s` begins and ends, where there is one that ends.
pub open spec fn next_ref(s: Seq<char>) -> Option<(int, int)> {
    match find_from(s, needle(), 0) {
        Some(p) => match find_from(s, quote(), p + needle().len()) {
            Some(e) => Some((p + needle().len(), e)),
            None => None,
        },
        None => None,
    }
}

pub proof fn lemma_next_ref(s: Seq<char>)
    ensures
        next_ref(s) matches Some((a, b)) ==> 10 <= a <= b < s.len(),
{
    reveal_strlit("data-img=\"");
    reveal_strlit("\"");
    assert(needle().len() == 10 && quote().len() == 1);
    lemma_find_from(s, needle(), 0);
    if let Some(p) = find_from(s, needle(), 0) {
        lemma_find_from(s, quote(), p + needle().len());
    }
}

/// The ids of the images that a slide refers to.
pub open spec fn refs_in(s: Seq<char>) -> Set<Seq<char>>
    decreases s.len(),
{
    match next_ref(s) {
        Some((a, b)) => {
            proof {
                lemma_next_ref(s);
            }
            refs_in(s.skip(b + 1)).insert(s.subrange(a, b))
        },
        None => Set::empty(),
    }
}

/// What follows an image id in a rendered slide: the data of the image, or a mark
/// that hides an image that is missing.
pub open spec fn source_attr(img: Option<ImageView>) -> Seq<char> {
    match img {
        Some(i) => "\" src=\""@ + i.data_uri + "\""@,
        None => "\" data-broken=\"1\" class=\"slide-image broken\""@,
    }
}

/// The HTML of a slide with the data of its images put in.
pub open spec fn injected(s: Seq<char>, images: Seq<(Seq<char>, ImageView)>) -> Seq<char>
    decreases s.len(),
{
    match next_ref(s) {
        Some((a, b)) => {
            proof {
                lemma_next_ref(s);
            }
            s.take(b) + source_attr(image_of(images, s.subrange(a, b))) + injected(
                s.skip(b + 1),
                images,
            )
        },
        None => s,
    }
}

/// The ids of the images that some slide refers to.
pub open spec fn refs_of(slides: Seq<SlideView>) -> Set<Seq<char>>
    decreases slides.len(),
{
    if slides.len() == 0 {
        Set::empty()
    } else {
        refs_of(slides.drop_last()).union(refs_in(slides.last().html))
    }
}

// ---- Positions in the whole text ---------------------------------------

proof fn lemma_find_from_skip(s: Seq<char>, p: Seq<char>, n: int, i: int)
    requires
        0 <= n <= s.len(),
        0 <= i,
    ensures
        find_from(s.skip(n), p, i) == match find_from(s, p, n + i) {
            Some(k) => Some(k - n),
            None => None,
        },
    decreases s.len() - n - i + 1,
{
    if n + i + p.len() <= s.len() {
        assert(s.skip(n).subrange(i, i + p.len()) =~= s.subrange(n + i, n + i + p.len()));
        if !occurs_at(s, p, n + i) {
            lemma_find_from_skip(s, p, n, i + 1);
        }
    }
}

/// The bounds of the first image id from `from` on.
fn find_ref(v: &Vec<char>, from: usize) -> (r: Option<(usize, usize)>)
    requires
        from <= v@.len(),
    ensures
        match r {
            Some((a, b)) => from <= a <= b < v@.len() && next_ref(v@.skip(from as int)) == Some(
                (a - from, b - from),
            ),
            None => next_ref(v@.skip(from as int)) is None,
        },
{
    let ghost s = v@.skip(from as int);
    proof {
        lemma_next_ref(s);
        lemma_find_from_skip(v@, needle(), from as int, 0);
        lemma_find_from(v@, needle(), from as int);
        reveal_strlit("data-img=\"");
        assert(needle().len() == 10);
    }
    let n: usize = v.len();
    let pattern = chars_of("data-img=\"");
    match find(v, &pattern, from) {
        Some(p) => {
            let a: usize = p + 10;
            proof {
                lemma_find_from_skip(v@, quote(), from as int, a - from);
                lemma_find_from(v@, quote(), a as int);
            }
            let end = chars_of("\"");
            match find(v, &end, a) {
                Some(b) => Some((a, b)),
                None => None,
            }
        },
        None => None,
    }
}

/// Adds the ids of the images that a slide refers to.
fn collect_refs(html: &str, ids: &mut StringHashSet)
    ensures
        final(ids)@ == old(ids)@.union(refs_in(html@)),
{
    let v = chars_of(html);
    let n: usize = v.len();
    let mut from: usize = 0;
    assert(v@.skip(0) =~= v@);
    loop
        invariant
            v@ == html@,
            n == v@.len(),
            from <= n,
            ids@.union(refs_in(v@.skip(from as int))) =~= old(ids)@.union(refs_in(html@)),
        decreases v@.len() - from,
    {
        match find_ref(&v, from) {
            Some((a, b)) => {
                let ghost s = v@.skip(from as int);
                assert(s.skip(b - from + 1) =~= v@.skip(b + 1));
                assert(s.subrange(a - from, b - from) =~= v@.subrange(a as int, b as int));
                let id = string_of(&v, a, b);
                ids.insert(id);
                from = b + 1;
            },
            None => {
                assert(ids@ =~= ids@.union(refs_in(v@.skip(from as int))));
                return ;
            },
        }
    }
}

impl Deck {
    /// The ids of the images that some slide refers to.
    pub fn referenced_image_ids(&self) -> (r: StringHashSet)
        ensures
            r@ == refs_of(self@.slides),
    {
        let ghost all = self@.slides;
        let mut ids = StringHashSet::new();
        let mut i: usize = 0;
        while i < self.slides.len()
            invariant
                i <= self.slides@.len(),
                all == self@.slides,
                ids@ == refs_of(all.take(i as int)),
            decreases self.slides@.len() - i,
        {
            assert(all.take(i + 1).drop_last() =~= all.take(i as int));
            assert(all[i as int] == self.slides[i as int]@);
            collect_refs(self.slides[i].html.as_str(), &mut ids);
            i = i + 1;
        }
        assert(all.take(i as int) =~= all);
        ids
    }
}

/// The HTML of a slide with the data of its images put in, so that the rendered deck
/// needs no other file. A reference to an image that the deck lacks is marked broken.
pub fn inject_images(html: &str, deck: &Deck) -> (r: String)
    ensures
        r@ == injected(html@, deck@.images),
{
    let v = chars_of(html);
    let n: usize = v.len();
    let mut out = String::new();
    let mut from: usize = 0;
    assert(v@.skip(0) =~= v@);
    loop
        invariant
            v@ == html@,
            n == v@.len(),
            from <= n,
            out@ + injected(v@.skip(from as int), deck@.images) =~= injected(html@, deck@.images),
        decreases v@.len() - from,
    {
        match find_ref(&v, from) {
            Some((a, b)) => {
                let ghost s = v@.skip(from as int);
                let ghost done = out@;
                assert(s.skip(b - from + 1) =~= v@.skip(b + 1));
                assert(s.subrange(a - from, b - from) =~= v@.subrange(a as int, b as int));
                assert(s.take(b - from) =~= v@.subrange(from as int, b as int));
                let id = string_of(&v, a, b);
                out.append(string_of(&v, from, b).as_str());
                match deck.image(id.as_str()) {
                    Some(img) => {
                        out.append("\" src=\"");
                        out.append(img.data_uri.as_str());
                        out.append("\"");
                    },
                    None => {
                        out.append("\" data-broken=\"1\" class=\"slide-image broken\"");
                    },
                }
                assert(out@ =~= done + s.take(b - from) + source_attr(
                    image_of(deck@.images, s.subrange(a - from, b - from)),
                ));
                from = b + 1;
            },
            None => {
                out.append(string_of(&v, from, v.len()).as_str());
                assert(v@.skip(from as int) =~= v@.subrange(from as int, v@.len() as int));
                return out;
            },
        }
    }
}

// ---- Laws --------------------------------------------------------------

/// Where two image pools agree on every image that a slide refers to, the slide is
/// rendered alike with both.
pub proof fn law_injection_reads_only_references(
    s: Seq<char>,
    images: Seq<(Seq<char>, ImageView)>,
    others: Seq<(Seq<char>, ImageView)>,
)
    requires
        forall|id: Seq<char>| #[trigger]
            refs_in(s).contains(id) ==> image_of(images, id) == image_of(others, id),
    ensures
        injected(s, images) == injected(s, others),
    decreases s.len(),
{
    if let Some((a, b)) = next_ref(s) {
        lemma_next_ref(s);
        assert(refs_in(s).contains(s.subrange(a, b)));
        assert forall|id: Seq<char>| #[trigger] refs_in(s.skip(b + 1)).contains(id) implies image_of(
            images,
            id,
        ) == image_of(others, id) by {
            assert(refs_in(s).contains(id));
        }
        law_injection_reads_only_references(s.skip(b + 1), images, others);
    }
}

/// Dropping other images does not change which image an id stands for.
pub proof fn lemma_image_of_outside(
    images: Seq<(Seq<char>, ImageView)>,
    ids: Set<Seq<char>>,
    id: Seq<char>,
)
    requires
        !ids.contains(id),
    ensures
        image_of(images_outside(images, ids), id) == image_of(images, id),
    decreases images.len(),
{
    reveal(Seq::filter);
    let keep = |p: (Seq<char>, ImageView)| !ids.contains(p.0);
    if images.len() > 0 {
        let rest = images.drop_last();
        lemma_image_of_outside(rest, ids, id);
        lemma_image_index(rest, id);
        let kept = images_outside(rest, ids);
        lemma_image_index(kept, id);
        if keep(images.last()) {
            assert(images_outside(images, ids) == kept.push(images.last()));
            assert(kept.push(images.last()).drop_last() =~= kept);
        } else {
            assert(images_outside(images, ids) == kept);
        }
    }
}

pub proof fn lemma_refs_of(slides: Seq<SlideView>, i: int)
    requires
        0 <= i < slides.len(),
    ensures
        refs_in(slides[i].html).subset_of(refs_of(slides)),
    decreases slides.len(),
{
    if i < slides.len() - 1 {
        lemma_refs_of(slides.drop_last(), i);
        assert(slides.drop_last()[i] == slides[i]);
    }
}

proof fn lemma_first_found(s: Seq<char>, p: Seq<char>, from: int, i: int)
    requires
        0 <= from <= i,
        occurs_at(s, p, i),
        forall|j: int| from <= j < i ==> !#[trigger] occurs_at(s, p, j),
    ensures
        find_from(s, p, from) == Some(i),
{
    lemma_find_from(s, p, from);
    match find_from(s, p, from) {
        Some(k) => {
            if k < i {
                assert(!occurs_at(s, p, k));
            }
            if i < k {
                assert(!occurs_at(s, p, i));
            }
        },
        None => {
            assert(!occurs_at(s, p, i));
        },
    }
}

/// The first reference of a slide, after `a` and before `rest`, is left where it stands, and
/// the data of the image that it names follow it; the rest is treated in the same way. A
/// reference to an image that the deck lacks is marked instead. A text without references
/// stays as it is.
pub proof fn law_reference_gets_the_data_of_its_image(
    a: Seq<char>,
    id: Seq<char>,
    rest: Seq<char>,
    images: Seq<(Seq<char>, ImageView)>,
)
    requires
        forall|i: int|
            0 <= i < a.len() ==> !#[trigger] occurs_at(
                a + "data-img=\""@ + id + "\""@ + rest,
                "data-img=\""@,
                i,
            ),
        !id.contains('"'),
    ensures
        refs_in(a + "data-img=\""@ + id + "\""@ + rest) == refs_in(rest).insert(id),
        forall|k: int|
            0 <= k < images.len() && (#[trigger] images[k]).0 == id && (forall|j: int|
                0 <= j < k ==> (#[trigger] images[j]).0 != id) ==> injected(
                a + "data-img=\""@ + id + "\""@ + rest,
                images,
            ) == a + "data-img=\""@ + id + "\" src=\""@ + images[k].1.data_uri + "\""@ + injected(
                rest,
                images,
            ),
        (forall|j: int| 0 <= j < images.len() ==> (#[trigger] images[j]).0 != id) ==> injected(
            a + "data-img=\""@ + id + "\""@ + rest,
            images,
        ) == a + "data-img=\""@ + id + "\" data-broken=\"1\" class=\"slide-image broken\""@
            + injected(rest, images),
{
    reveal_strlit("data-img=\"");
    reveal_strlit("\"");
    assert(needle().len() == 10 && quote().len() == 1 && quote()[0] == '"');
    let s = a + needle() + id + quote() + rest;
    let p = a.len() as int;
    let e = p + 10 + id.len();
    assert(s.subrange(p, p + 10) =~= needle());
    assert(occurs_at(s, needle(), p));
    lemma_first_found(s, needle(), 0, p);
    assert(s.subrange(e, e + 1) =~= quote());
    assert(occurs_at(s, quote(), e));
    assert forall|j: int| p + 10 <= j < e implies !#[trigger] occurs_at(s, quote(), j) by {
        if occurs_at(s, quote(), j) {
            assert(s.subrange(j, j + 1)[0] == s[j]);
            assert(s[j] == id[j - p - 10]);
            assert(id.contains('"'));
        }
    }
    lemma_first_found(s, quote(), p + 10, e);
    assert(s.subrange(p + 10, e) =~= id);
    assert(s.skip(e + 1) =~= rest);
    assert(s.take(e) =~= a + needle() + id);
    lemma_next_ref(s);
    lemma_image_index(images, id);
    assert forall|k: int|
        0 <= k < images.len() && (#[trigger] images[k]).0 == id && (forall|j: int|
            0 <= j < k ==> (#[trigger] images[j]).0 != id) implies injected(s, images) == a
        + "data-img=\""@ + id + "\" src=\""@ + images[k].1.data_uri + "\""@ + injected(
        rest,
        images,
    ) by {
        let f = image_index(images, id);
        if f->0 < k {
            assert(images[f->0].0 != id);
        }
        assert(image_of(images, id) == Some(images[k].1));
        assert(injected(s, images) =~= a + "data-img=\""@ + id + "\" src=\""@
            + images[k].1.data_uri + "\""@ + injected(rest, images));
    }
    if forall|j: int| 0 <= j < images.len() ==> (#[trigger] images[j]).0 != id {
        assert(image_of(images, id) is None);
        assert(injected(s, images) =~= a + "data-img=\""@ + id
            + "\" data-broken=\"1\" class=\"slide-image broken\""@ + injected(rest, images));
    }
}

/// A text that refers to no image stays as it is.
pub proof fn law_text_without_references_stays(
    s: Seq<char>,
    images: Seq<(Seq<char>, ImageView)>,
)
    requires
        forall|i: int| 0 <= i < s.len() ==> !#[trigger] occurs_at(s, "data-img=\""@, i),
    ensures
        injected(s, images) == s,
        refs_in(s) == Set::<Seq<char>>::empty(),
{
    lemma_find_from(s, needle(), 0);
    reveal_strlit("data-img=\"");
    assert(needle().len() == 10);
    if let Some(p) = find_from(s, needle(), 0) {
        assert(!occurs_at(s, needle(), p));
    }
}

/// The images that a deck refers to are those that one of its slides does.
pub proof fn law_references_are_those_of_the_slides(slides: Seq<SlideView>, id: Seq<char>)
    ensures
        refs_of(slides).contains(id) <==> exists|i: int|
            0 <= i < slides.len() && refs_in((#[trigger] slides[i]).html).contains(id),
    decreases slides.len(),
{
    if slides.len() > 0 {
        let rest = slides.drop_last();
        law_references_are_those_of_the_slides(rest, id);
        if refs_of(rest).contains(id) {
            let i = choose|i: int|
                0 <= i < rest.len() && refs_in((#[trigger] rest[i]).html).contains(id);
            assert(refs_in(slides[i].html).contains(id));
        }
        if refs_in(slides.last().html).contains(id) {
            assert(refs_in(slides[slides.len() - 1].html).contains(id));
        }
        if exists|i: int| 0 <= i < slides.len() && refs_in((#[trigger] slides[i]).html).contains(id) {
            let i = choose|i: int|
                0 <= i < slides.len() && refs_in((#[trigger] slides[i]).html).contains(id);
            if i < rest.len() {
                assert(refs_in(rest[i].html).contains(id));
            }
        }
    }
}

} // verus!

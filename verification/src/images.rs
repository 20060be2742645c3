//! The library of the user's own images.
//!
//! Each has a description, from which the slide model knows what it shows, and may be
//! pinned to a slide. Images that are switched on are offered for every build.

use vstd::hash_map::StringHashMap;
use vstd::prelude::*;
use vstd::string::*;

use crate::deck::image_id;
use crate::ids::{
    distinct, law_next_id_is_fresh, lemma_first_position, lemma_position_of, next_id, position_of,
    raise, top_number,
};
use crate::num::decimal;
use crate::text::{
    byte_count, bytes_within, safe_name, same, sanitize_name, starts_with, string_view, text_in,
    texts_of, trim, trimmed,
};

verus! {

/// The most that the data URI of one image may take, in bytes.
pub const MAX_IMAGE_BYTES: usize = 8 * 1_048_576;

/// What the index says of one image. `pinned_slide` is the number of the slide that
/// the image is asked for on, counted from one, or zero.
#[derive(Debug)]
pub struct ImageMeta {
    pub id: String,
    pub name: String,
    pub description: String,
    pub enabled: bool,
    pub pinned_slide: u32,
    pub bytes: usize,
}

pub struct ImageMetaView {
    pub id: Seq<char>,
    pub name: Seq<char>,
    pub description: Seq<char>,
    pub enabled: bool,
    pub pinned_slide: nat,
    pub bytes: nat,
}

impl View for ImageMeta {
    type V = ImageMetaView;

    open spec fn view(&self) -> ImageMetaView {
        ImageMetaView {
            id: self.id@,
            name: self.name@,
            description: self.description@,
            enabled: self.enabled,
            pinned_slide: self.pinned_slide as nat,
            bytes: self.bytes as nat,
        }
    }
}

impl Clone for ImageMeta {
    fn clone(&self) -> (r: Self)
        ensures
            r@ == self@,
    {
        ImageMeta {
            id: self.id.clone(),
            name: self.name.clone(),
            description: self.description.clone(),
            enabled: self.enabled,
            pinned_slide: self.pinned_slide,
            bytes: self.bytes,
        }
    }
}

/// An image that is offered for a build.
#[derive(Debug)]
pub struct EnabledImage {
    pub meta: ImageMeta,
    pub data_uri: String,
}

pub struct EnabledImageView {
    pub meta: ImageMetaView,
    pub data_uri: Seq<char>,
}

impl View for EnabledImage {
    type V = EnabledImageView;

    open spec fn view(&self) -> EnabledImageView {
        EnabledImageView { meta: self.meta@, data_uri: self.data_uri@ }
    }
}

/// The library: its index, and the data URIs of the images by their ids.
pub struct ImageStore {
    pub items: Vec<ImageMeta>,
    pub files: StringHashMap<String>,
}

pub struct ImageStoreView {
    pub items: Seq<ImageMetaView>,
    pub files: Map<Seq<char>, Seq<char>>,
}

pub open spec fn image_meta_views(s: Seq<ImageMeta>) -> Seq<ImageMetaView> {
    s.map_values(|m: ImageMeta| m@)
}

pub open spec fn enabled_views(s: Seq<EnabledImage>) -> Seq<EnabledImageView> {
    s.map_values(|e: EnabledImage| e@)
}

impl View for ImageStore {
    type V = ImageStoreView;

    open spec fn view(&self) -> ImageStoreView {
        ImageStoreView { items: image_meta_views(self.items@), files: texts_of(self.files@) }
    }
}

pub open spec fn library_ids(items: Seq<ImageMetaView>) -> Seq<Seq<char>> {
    items.map_values(|m: ImageMetaView| m.id)
}

/// Why an image is not taken into the library.
pub open spec fn image_refusal(data_uri: Seq<char>) -> Option<Seq<char>> {
    if !"data:"@.is_prefix_of(data_uri) {
        Some("expected a data: URI"@)
    } else if byte_count(data_uri) > MAX_IMAGE_BYTES {
        Some("image too large"@)
    } else {
        None
    }
}

/// What the index says of an image that is added.
pub open spec fn new_image(
    s: ImageStoreView,
    name: Seq<char>,
    data_uri: Seq<char>,
    description: Seq<char>,
) -> ImageMetaView {
    ImageMetaView {
        id: next_id(library_ids(s.items), "lib"@),
        name: safe_name(name, "image"@),
        description: trimmed(description),
        enabled: true,
        pinned_slide: 0,
        bytes: byte_count(data_uri),
    }
}

/// The library with an image added at the end.
pub open spec fn with_image(
    s: ImageStoreView,
    name: Seq<char>,
    data_uri: Seq<char>,
    description: Seq<char>,
) -> ImageStoreView {
    let m = new_image(s, name, data_uri, description);
    ImageStoreView { items: s.items.push(m), files: s.files.insert(m.id, data_uri) }
}

/// What the index says of an image after an update: what is given replaces what was.
pub open spec fn updated_meta(
    m: ImageMetaView,
    enabled: Option<bool>,
    description: Option<Seq<char>>,
    pinned_slide: Option<u32>,
) -> ImageMetaView {
    ImageMetaView {
        enabled: match enabled {
            Some(v) => v,
            None => m.enabled,
        },
        description: match description {
            Some(v) => trimmed(v),
            None => m.description,
        },
        pinned_slide: match pinned_slide {
            Some(v) => v as nat,
            None => m.pinned_slide,
        },
        ..m
    }
}

/// The library with an image updated.
pub open spec fn updated(
    s: ImageStoreView,
    id: Seq<char>,
    enabled: Option<bool>,
    description: Option<Seq<char>>,
    pinned_slide: Option<u32>,
) -> ImageStoreView {
    match position_of(library_ids(s.items), id) {
        Some(i) => ImageStoreView {
            items: s.items.update(
                i,
                updated_meta(s.items[i], enabled, description, pinned_slide),
            ),
            ..s
        },
        None => s,
    }
}

/// The library without an image.
pub open spec fn without_image(s: ImageStoreView, id: Seq<char>) -> ImageStoreView {
    if position_of(library_ids(s.items), id) is Some {
        ImageStoreView {
            items: s.items.filter(|m: ImageMetaView| m.id != id),
            files: s.files.remove(id),
        }
    } else {
        s
    }
}

/// The images that are switched on and whose data is there, in order.
pub open spec fn available(
    items: Seq<ImageMetaView>,
    files: Map<Seq<char>, Seq<char>>,
) -> Seq<EnabledImageView>
    decreases items.len(),
{
    if items.len() == 0 {
        Seq::empty()
    } else {
        let before = available(items.drop_last(), files);
        let m = items.last();
        match text_in(files, m.id) {
            Some(t) => if m.enabled {
                before.push(EnabledImageView { meta: m, data_uri: t })
            } else {
                before
            },
            None => before,
        }
    }
}

pub open spec fn error_view(r: Result<ImageMeta, String>) -> Option<Seq<char>> {
    match r {
        Ok(_) => None,
        Err(e) => Some(e@),
    }
}

impl ImageStore {
    /// A library without images.
    pub fn new() -> (r: Self)
        ensures
            r@ == (ImageStoreView { items: Seq::empty(), files: Map::empty() }),
    {
        let r = ImageStore { items: Vec::new(), files: StringHashMap::new() };
        assert(r@.items =~= Seq::empty());
        assert(r@.files =~= Map::empty());
        r
    }

    /// Puts the data URI of an image into the library, as it was found in storage.
    pub fn hold(&mut self, id: &str, data_uri: String)
        ensures
            final(self)@ == (ImageStoreView {
                files: old(self)@.files.insert(id@, data_uri@),
                ..old(self)@
            }),
    {
        self.files.insert(id.to_string(), data_uri);
        assert(self@.files =~= old(self)@.files.insert(id@, data_uri@));
    }

    /// The index.
    pub fn list(&self) -> (r: Vec<ImageMeta>)
        ensures
            image_meta_views(r@) == self@.items,
    {
        let mut r: Vec<ImageMeta> = Vec::new();
        let mut i: usize = 0;
        while i < self.items.len()
            invariant
                i <= self.items@.len(),
                image_meta_views(r@) =~= self@.items.take(i as int),
            decreases self.items@.len() - i,
        {
            let ghost all = self@.items;
            r.push(self.items[i].clone());
            i = i + 1;
            assert(all.take(i as int) =~= all.take(i - 1).push(all[i - 1]));
        }
        assert(self@.items.take(i as int) =~= self@.items);
        r
    }

    /// The highest number of an id in the index.
    pub fn top_id(&self) -> (r: u32)
        ensures
            r == top_number(library_ids(self@.items), "lib"@),
    {
        let ghost ids = library_ids(self@.items);
        let mut best: u32 = 0;
        let mut i: usize = 0;
        while i < self.items.len()
            invariant
                i <= self.items@.len(),
                ids == library_ids(self@.items),
                best == top_number(ids.take(i as int), "lib"@),
            decreases self.items@.len() - i,
        {
            assert(ids.take(i + 1).drop_last() =~= ids.take(i as int));
            assert(ids[i as int] == self.items[i as int].id@);
            best = raise(best, self.items[i].id.as_str(), "lib");
            i = i + 1;
        }
        assert(ids.take(i as int) =~= ids);
        best
    }

    /// Adds an image, which must be a `data:` URI of no more than [`MAX_IMAGE_BYTES`].
    pub fn add(&mut self, name: &str, data_uri: &str, description: &str) -> (r: Result<
        ImageMeta,
        String,
    >)
        requires
            image_refusal(data_uri@) is None ==> top_number(library_ids(old(self)@.items), "lib"@)
                < u32::MAX,
        ensures
            error_view(r) == image_refusal(data_uri@),
            r matches Ok(m) ==> m@ == new_image(old(self)@, name@, data_uri@, description@)
                && final(self)@ == with_image(old(self)@, name@, data_uri@, description@),
            r is Err ==> final(self)@ == old(self)@,
    {
        let ghost s = self@;
        if !starts_with(data_uri, "data:") {
            return Err("expected a data: URI".to_string());
        }
        let bytes: usize = match bytes_within(data_uri, MAX_IMAGE_BYTES) {
            Some(n) => n,
            None => {
                return Err("image too large".to_string());
            },
        };
        let mut id = "lib".to_string();
        id.append(decimal(self.top_id() as u128 + 1).as_str());
        let meta = ImageMeta {
            id: id.clone(),
            name: sanitize_name(name, "image"),
            description: trim(description).to_string(),
            enabled: true,
            pinned_slide: 0,
            bytes,
        };
        let copy = meta.clone();
        self.items.push(meta);
        assert(self@.items =~= s.items.push(copy@));
        self.hold(id.as_str(), data_uri.to_string());
        Ok(copy)
    }

    fn position(&self, id: &str) -> (r: Option<usize>)
        ensures
            match r {
                Some(i) => position_of(library_ids(self@.items), id@) == Some(i as int) && i
                    < self.items@.len(),
                None => position_of(library_ids(self@.items), id@) is None,
            },
    {
        let ghost ids = library_ids(self@.items);
        let mut i: usize = 0;
        while i < self.items.len()
            invariant
                i <= self.items@.len(),
                ids == library_ids(self@.items),
                forall|j: int| 0 <= j < i ==> #[trigger] ids[j] != id@,
            decreases self.items@.len() - i,
        {
            assert(ids[i as int] == self.items[i as int].id@);
            if same(self.items[i].id.as_str(), id) {
                proof {
                    lemma_first_position(ids, id@, i as int);
                }
                return Some(i);
            }
            i = i + 1;
        }
        proof {
            lemma_position_of(ids, id@);
        }
        None
    }

    /// Replaces what is given of an image. Says whether there is such an image.
    pub fn update(
        &mut self,
        id: &str,
        enabled: Option<bool>,
        description: Option<String>,
        pinned_slide: Option<u32>,
    ) -> (r: bool)
        ensures
            r == (position_of(library_ids(old(self)@.items), id@) is Some),
            final(self)@ == updated(
                old(self)@,
                id@,
                enabled,
                string_view(description),
                pinned_slide,
            ),
    {
        let ghost s = self@;
        match self.position(id) {
            Some(i) => {
                let mut m = self.items[i].clone();
                assert(m@ == s.items[i as int]);
                match enabled {
                    Some(v) => {
                        m.enabled = v;
                    },
                    None => {},
                }
                match &description {
                    Some(v) => {
                        m.description = trim(v.as_str()).to_string();
                    },
                    None => {},
                }
                match pinned_slide {
                    Some(v) => {
                        m.pinned_slide = v;
                    },
                    None => {},
                }
                let ghost view = m@;
                self.items.set(i, m);
                assert(self@.items =~= s.items.update(i as int, view));
                true
            },
            None => false,
        }
    }

    /// Removes an image. Says whether there was such an image.
    pub fn remove(&mut self, id: &str) -> (r: bool)
        ensures
            r == (position_of(library_ids(old(self)@.items), id@) is Some),
            final(self)@ == without_image(old(self)@, id@),
    {
        let ghost s = self@.items;
        let ghost keep = |m: ImageMetaView| m.id != id@;
        if self.position(id).is_none() {
            return false;
        }
        let mut kept: Vec<ImageMeta> = Vec::new();
        let mut i: usize = 0;
        while i < self.items.len()
            invariant
                i <= s.len(),
                s == self@.items,
                *self == *old(self),
                keep == (|m: ImageMetaView| m.id != id@),
                image_meta_views(kept@) =~= s.take(i as int).filter(keep),
            decreases s.len() - i,
        {
            proof {
                reveal(Seq::filter);
                assert(s.take(i + 1).drop_last() =~= s.take(i as int));
                assert(s[i as int] == self.items[i as int]@);
            }
            if !same(self.items[i].id.as_str(), id) {
                kept.push(self.items[i].clone());
            }
            i = i + 1;
        }
        assert(s.take(s.len() as int) =~= s);
        self.items = kept;
        self.files.remove(id);
        assert(self@.files =~= old(self)@.files.remove(id@));
        true
    }

    /// The data URI of an image.
    pub fn read_data_uri(&self, id: &str) -> (r: Option<String>)
        ensures
            string_view(r) == text_in(self@.files, id@),
    {
        match self.files.get(id) {
            Some(t) => Some(t.clone()),
            None => None,
        }
    }

    /// The images that are offered for a build.
    pub fn enabled_images(&self) -> (r: Vec<EnabledImage>)
        ensures
            enabled_views(r@) == available(self@.items, self@.files),
    {
        let ghost items = self@.items;
        let ghost files = self@.files;
        let mut r: Vec<EnabledImage> = Vec::new();
        let mut i: usize = 0;
        while i < self.items.len()
            invariant
                i <= items.len(),
                items == self@.items,
                files == self@.files,
                enabled_views(r@) =~= available(items.take(i as int), files),
            decreases items.len() - i,
        {
            assert(items.take(i + 1).drop_last() =~= items.take(i as int));
            assert(items[i as int] == self.items[i as int]@);
            if self.items[i].enabled {
                match self.read_data_uri(self.items[i].id.as_str()) {
                    Some(data_uri) => {
                        r.push(EnabledImage { meta: self.items[i].clone(), data_uri });
                    },
                    None => {},
                }
            }
            i = i + 1;
        }
        assert(items.take(i as int) =~= items);
        r
    }
}

// ---- Laws --------------------------------------------------------------

/// An image that was just added is there to be read and is offered, after all that
/// were offered before.
pub proof fn law_added_image_reads_back(
    s: ImageStoreView,
    name: Seq<char>,
    data_uri: Seq<char>,
    description: Seq<char>,
)
    requires
        top_number(library_ids(s.items), "lib"@) < u32::MAX,
    ensures
        text_in(
            with_image(s, name, data_uri, description).files,
            new_image(s, name, data_uri, description).id,
        ) == Some(data_uri),
        available(
            with_image(s, name, data_uri, description).items,
            with_image(s, name, data_uri, description).files,
        ) == available(s.items, s.files).push(
            EnabledImageView {
                meta: new_image(s, name, data_uri, description),
                data_uri: data_uri,
            },
        ),
        distinct(library_ids(s.items)) ==> distinct(
            library_ids(with_image(s, name, data_uri, description).items),
        ),
{
    let m = new_image(s, name, data_uri, description);
    let t = with_image(s, name, data_uri, description);
    law_next_id_is_fresh(library_ids(s.items), "lib"@);
    assert(t.items.drop_last() =~= s.items);
    assert(library_ids(t.items) =~= library_ids(s.items).push(m.id));
    assert forall|i: int| 0 <= i < s.items.len() implies (#[trigger] s.items[i]).id != m.id by {
        assert(library_ids(s.items)[i] == s.items[i].id);
    }
    lemma_available_reads_only_its_files(s.items, s.files, t.files);
}

proof fn lemma_available_reads_only_its_files(
    items: Seq<ImageMetaView>,
    a: Map<Seq<char>, Seq<char>>,
    b: Map<Seq<char>, Seq<char>>,
)
    requires
        forall|i: int|
            0 <= i < items.len() ==> text_in(a, (#[trigger] items[i]).id) == text_in(
                b,
                items[i].id,
            ),
    ensures
        available(items, a) == available(items, b),
    decreases items.len(),
{
    if items.len() > 0 {
        assert forall|i: int| 0 <= i < items.len() - 1 implies text_in(
            a,
            (#[trigger] items.drop_last()[i]).id,
        ) == text_in(b, items.drop_last()[i].id) by {
            assert(items.drop_last()[i] == items[i]);
        }
        lemma_available_reads_only_its_files(items.drop_last(), a, b);
        assert(items[items.len() - 1] == items.last());
    }
}

/// Everything that is offered is switched on, and stands in the index with its data.
pub proof fn law_only_enabled_images_are_offered(
    items: Seq<ImageMetaView>,
    files: Map<Seq<char>, Seq<char>>,
)
    ensures
        forall|i: int|
            0 <= i < available(items, files).len() ==> {
                let e = #[trigger] available(items, files)[i];
                e.meta.enabled && items.contains(e.meta) && text_in(files, e.meta.id) == Some(
                    e.data_uri,
                )
            },
    decreases items.len(),
{
    if items.len() > 0 {
        let rest = items.drop_last();
        law_only_enabled_images_are_offered(rest, files);
        let a = available(rest, files);
        assert forall|i: int| 0 <= i < available(items, files).len() implies {
            let e = #[trigger] available(items, files)[i];
            e.meta.enabled && items.contains(e.meta) && text_in(files, e.meta.id) == Some(
                e.data_uri,
            )
        } by {
            if i < a.len() {
                assert(available(items, files)[i] == a[i]);
                let j = choose|j: int| 0 <= j < rest.len() && rest[j] == a[i].meta;
                assert(items[j] == a[i].meta);
            } else {
                assert(items[items.len() - 1] == available(items, files)[i].meta);
            }
        }
    }
}

/// An image that was removed is gone, data and all; the data of the others stays.
pub proof fn law_removed_image_is_gone(s: ImageStoreView, id: Seq<char>, other: Seq<char>)
    requires
        position_of(library_ids(s.items), id) is Some,
        other != id,
    ensures
        position_of(library_ids(without_image(s, id).items), id) is None,
        text_in(without_image(s, id).files, id) is None,
        text_in(without_image(s, id).files, other) == text_in(s.files, other),
{
    let keep = |m: ImageMetaView| m.id != id;
    let t = without_image(s, id);
    lemma_position_of(library_ids(t.items), id);
    match position_of(library_ids(t.items), id) {
        Some(i) => {
            s.items.lemma_filter_pred(keep, i);
            assert(library_ids(t.items)[i] == t.items[i].id);
        },
        None => {},
    }
}

/// The id of an image of the library is never one that a deck mints, so that the
/// images of the library can stand among those of a deck.
pub proof fn law_library_ids_never_clash(ids: Seq<Seq<char>>, n: nat)
    ensures
        next_id(ids, "lib"@) != image_id(n),
{
    reveal_strlit("lib");
    reveal_strlit("img");
    assert(next_id(ids, "lib"@)[0] == 'l');
    assert(image_id(n)[0] == 'i');
}

/// A new image stands at the end of the library, switched on and wanted on no slide, with the
/// name, the description and the data that it was given under the next free id; the others
/// stay as they are.
pub proof fn law_new_image_is_as_given(
    s: ImageStoreView,
    name: Seq<char>,
    data_uri: Seq<char>,
    description: Seq<char>,
)
    ensures
        ({
            let t = with_image(s, name, data_uri, description);
            let m = new_image(s, name, data_uri, description);
            &&& t.items.len() == s.items.len() + 1
            &&& t.items.drop_last() == s.items
            &&& t.items.last() == m
            &&& m.id == next_id(library_ids(s.items), "lib"@)
            &&& m.name == safe_name(name, "image"@)
            &&& m.description == trimmed(description)
            &&& m.enabled
            &&& m.pinned_slide == 0
            &&& m.bytes == byte_count(data_uri)
            &&& t.files.dom().contains(m.id) && t.files[m.id] == data_uri
            &&& t.files.remove(m.id) == s.files.remove(m.id)
        }),
{
    let t = with_image(s, name, data_uri, description);
    let m = new_image(s, name, data_uri, description);
    assert(t.items.drop_last() =~= s.items);
    assert(t.files.remove(m.id) =~= s.files.remove(m.id));
}

/// An image is refused where it is no data URI or too large, and the reason says which.
pub proof fn law_image_refusals(data_uri: Seq<char>)
    ensures
        !"data:"@.is_prefix_of(data_uri) ==> image_refusal(data_uri) == Some(
            "expected a data: URI"@,
        ),
        "data:"@.is_prefix_of(data_uri) && byte_count(data_uri) > 8 * 1_048_576 ==> image_refusal(
            data_uri,
        ) == Some("image too large"@),
        "data:"@.is_prefix_of(data_uri) && byte_count(data_uri) <= 8 * 1_048_576 ==> image_refusal(
            data_uri,
        ) is None,
{
}

/// A change of an image gives it what is given, each whether or not the rest is, and leaves
/// what is not; its id, its name and its data stay, and so does every other image.
pub proof fn law_image_changes_as_given(
    s: ImageStoreView,
    id: Seq<char>,
    enabled: Option<bool>,
    description: Option<Seq<char>>,
    pinned_slide: Option<u32>,
    i: int,
)
    requires
        0 <= i < s.items.len(),
        s.items[i].id == id,
        forall|j: int| 0 <= j < i ==> (#[trigger] s.items[j]).id != id,
    ensures
        ({
            let t = updated(s, id, enabled, description, pinned_slide);
            let m = t.items[i];
            &&& t.files == s.files
            &&& t.items.len() == s.items.len()
            &&& m.id == id
            &&& m.name == s.items[i].name
            &&& m.bytes == s.items[i].bytes
            &&& enabled matches Some(v) ==> m.enabled == v
            &&& enabled is None ==> m.enabled == s.items[i].enabled
            &&& description matches Some(v) ==> m.description == trimmed(v)
            &&& description is None ==> m.description == s.items[i].description
            &&& pinned_slide matches Some(v) ==> m.pinned_slide == v
            &&& pinned_slide is None ==> m.pinned_slide == s.items[i].pinned_slide
            &&& forall|j: int|
                0 <= j < s.items.len() && j != i ==> #[trigger] t.items[j] == s.items[j]
        }),
{
    let ids = library_ids(s.items);
    assert forall|j: int| 0 <= j < i implies #[trigger] ids[j] != id by {
        assert(ids[j] == s.items[j].id);
    }
    lemma_first_position(ids, id, i);
}

/// What is not in the library is neither changed nor removed.
pub proof fn law_missing_image_changes_nothing(
    s: ImageStoreView,
    id: Seq<char>,
    enabled: Option<bool>,
    description: Option<Seq<char>>,
    pinned_slide: Option<u32>,
)
    requires
        forall|j: int| 0 <= j < s.items.len() ==> (#[trigger] s.items[j]).id != id,
    ensures
        updated(s, id, enabled, description, pinned_slide) == s,
        without_image(s, id) == s,
{
    let ids = library_ids(s.items);
    lemma_position_of(ids, id);
    if let Some(k) = position_of(ids, id) {
        assert(ids[k] == s.items[k].id);
    }
}

/// Removing an image takes out what has its id and leaves the rest.
pub proof fn law_only_the_removed_image_goes(s: ImageStoreView, id: Seq<char>, m: ImageMetaView)
    ensures
        without_image(s, id).items.contains(m) <==> s.items.contains(m) && m.id != id,
{
    let keep = |m: ImageMetaView| m.id != id;
    let ids = library_ids(s.items);
    lemma_position_of(ids, id);
    let t = without_image(s, id);
    if position_of(ids, id) is Some {
        if t.items.contains(m) {
            let i = choose|i: int| 0 <= i < t.items.len() && t.items[i] == m;
            s.items.lemma_filter_pred(keep, i);
            s.items.lemma_filter_contains_rev(keep, m);
        }
        if s.items.contains(m) && m.id != id {
            let i = choose|i: int| 0 <= i < s.items.len() && s.items[i] == m;
            s.items.lemma_filter_contains(keep, i);
        }
    } else if s.items.contains(m) {
        let i = choose|i: int| 0 <= i < s.items.len() && s.items[i] == m;
        assert(ids[i] == m.id);
    }
}

/// Each image that is on and whose data are there is offered, with these data and what the
/// index says of it, in the order of the library.
pub proof fn law_enabled_images_are_offered_in_order(
    items: Seq<ImageMetaView>,
    m: ImageMetaView,
    files: Map<Seq<char>, Seq<char>>,
)
    ensures
        available(Seq::empty(), files).len() == 0,
        m.enabled && files.dom().contains(m.id) ==> ({
            let (a, b) = (available(items, files), available(items.push(m), files));
            &&& b.len() == a.len() + 1
            &&& b.drop_last() == a
            &&& b.last().meta == m
            &&& b.last().data_uri == files[m.id]
        }),
        !(m.enabled && files.dom().contains(m.id)) ==> available(items.push(m), files) == available(
            items,
            files,
        ),
{
    assert(items.push(m).drop_last() =~= items);
    let (a, b) = (available(items, files), available(items.push(m), files));
    if m.enabled && files.dom().contains(m.id) {
        assert(b.drop_last() =~= a);
    }
}

} // verus!

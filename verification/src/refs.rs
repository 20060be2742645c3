//! The library of reference files: texts that the user provides as background.
//!
//! The index lists the files in order, with a switch for each. Only files that are
//! switched on are offered to the model: it is shown a manifest, and reads the files
//! that it asks for.

use vstd::hash_map::StringHashMap;
use vstd::prelude::*;
use vstd::string::*;

use crate::ids::{
    distinct, law_next_id_is_fresh, lemma_first_position, lemma_position_of, next_id, position_of,
    raise, top_number,
};
use crate::num::{decimal, human_bytes, size_text};
use crate::text::{
    byte_count, bytes_within, clip_bytes, clipped_bytes, collapse, collapsed,
    lemma_clipped_bytes_fit, safe_name, same, sanitize_name, string_view, text_in, texts_of,
};

verus! {

/// The most that is kept of one file, in bytes.
pub const MAX_FILE_BYTES: usize = 1_048_576;

/// How many characters of a file the manifest shows.
pub const PREVIEW_CHARS: usize = 240;

/// What the index says of one file.
#[derive(Debug)]
pub struct RefMeta {
    pub id: String,
    pub name: String,
    pub enabled: bool,
    pub bytes: usize,
}

pub struct RefMetaView {
    pub id: Seq<char>,
    pub name: Seq<char>,
    pub enabled: bool,
    pub bytes: nat,
}

impl View for RefMeta {
    type V = RefMetaView;

    open spec fn view(&self) -> RefMetaView {
        RefMetaView {
            id: self.id@,
            name: self.name@,
            enabled: self.enabled,
            bytes: self.bytes as nat,
        }
    }
}

impl Clone for RefMeta {
    fn clone(&self) -> (r: Self)
        ensures
            r@ == self@,
    {
        RefMeta {
            id: self.id.clone(),
            name: self.name.clone(),
            enabled: self.enabled,
            bytes: self.bytes,
        }
    }
}

/// The library: its index, and the texts of the files by their ids.
pub struct RefStore {
    pub items: Vec<RefMeta>,
    pub files: StringHashMap<String>,
}

pub struct RefStoreView {
    pub items: Seq<RefMetaView>,
    pub files: Map<Seq<char>, Seq<char>>,
}

pub open spec fn ref_views(s: Seq<RefMeta>) -> Seq<RefMetaView> {
    s.map_values(|m: RefMeta| m@)
}

impl View for RefStore {
    type V = RefStoreView;

    open spec fn view(&self) -> RefStoreView {
        RefStoreView { items: ref_views(self.items@), files: texts_of(self.files@) }
    }
}

pub open spec fn ref_ids(items: Seq<RefMetaView>) -> Seq<Seq<char>> {
    items.map_values(|m: RefMetaView| m.id)
}

/// What the index says of a file that is added.
pub open spec fn new_ref(s: RefStoreView, name: Seq<char>, content: Seq<char>) -> RefMetaView {
    RefMetaView {
        id: next_id(ref_ids(s.items), "r"@),
        name: safe_name(name, "untitled.txt"@),
        enabled: true,
        bytes: byte_count(clipped_bytes(content, MAX_FILE_BYTES as nat)),
    }
}

/// The library with a file added at the end.
pub open spec fn with_ref(s: RefStoreView, name: Seq<char>, content: Seq<char>) -> RefStoreView {
    let m = new_ref(s, name, content);
    RefStoreView {
        items: s.items.push(m),
        files: s.files.insert(m.id, clipped_bytes(content, MAX_FILE_BYTES as nat)),
    }
}

/// The library with a file switched on or off.
pub open spec fn switched(s: RefStoreView, id: Seq<char>, enabled: bool) -> RefStoreView {
    match position_of(ref_ids(s.items), id) {
        Some(i) => RefStoreView {
            items: s.items.update(i, RefMetaView { enabled: enabled, ..s.items[i] }),
            ..s
        },
        None => s,
    }
}

/// The library without a file.
pub open spec fn without_ref(s: RefStoreView, id: Seq<char>) -> RefStoreView {
    if position_of(ref_ids(s.items), id) is Some {
        RefStoreView {
            items: s.items.filter(|m: RefMetaView| m.id != id),
            files: s.files.remove(id),
        }
    } else {
        s
    }
}

/// Whether the index lists a file with this id that is switched on.
pub open spec fn offered(items: Seq<RefMetaView>, id: Seq<char>) -> bool {
    exists|i: int| 0 <= i < items.len() && (#[trigger] items[i]).id == id && items[i].enabled
}

/// What the model is given when it asks for a file.
pub open spec fn read_ref(s: RefStoreView, id: Seq<char>) -> Option<Seq<char>> {
    if offered(s.items, id) {
        text_in(s.files, id)
    } else {
        None
    }
}

// ---- The manifest ------------------------------------------------------

/// The beginning of a text, on one line.
pub open spec fn preview(content: Seq<char>) -> Seq<char> {
    let line = collapsed(content);
    if line.len() > PREVIEW_CHARS {
        line.take(PREVIEW_CHARS as int) + "…"@
    } else {
        line
    }
}

pub open spec fn manifest_head() -> Seq<char> {
    "[REFERENCE LIBRARY — files the user provided as background for this deck. Call read_reference(id) to read the full text of any that look relevant to the instruction, then use those facts when building or editing slides (do not invent facts that contradict them). Only read what you need.]\n"@
}

/// The line of one file.
pub open spec fn manifest_line(m: RefMetaView, files: Map<Seq<char>, Seq<char>>) -> Seq<char> {
    "- id \""@ + m.id + "\" — "@ + m.name + " ("@ + size_text(m.bytes) + "): "@ + (match text_in(
        files,
        m.id,
    ) {
        Some(t) => preview(t),
        None => Seq::empty(),
    }) + "\n"@
}

/// The lines of the files that are switched on, in order.
pub open spec fn manifest_lines(
    items: Seq<RefMetaView>,
    files: Map<Seq<char>, Seq<char>>,
) -> Seq<char>
    decreases items.len(),
{
    if items.len() == 0 {
        Seq::empty()
    } else {
        let before = manifest_lines(items.drop_last(), files);
        if items.last().enabled {
            before + manifest_line(items.last(), files)
        } else {
            before
        }
    }
}

pub open spec fn some_enabled(items: Seq<RefMetaView>) -> bool {
    exists|i: int| 0 <= i < items.len() && (#[trigger] items[i]).enabled
}

/// What the model is shown of the library; nothing where no file is switched on.
pub open spec fn manifest(s: RefStoreView) -> Option<Seq<char>> {
    if some_enabled(s.items) {
        Some(manifest_head() + manifest_lines(s.items, s.files))
    } else {
        None
    }
}

/// The beginning of a text, on one line.
pub fn preview_of(content: &str) -> (r: String)
    ensures
        r@ == preview(content@),
{
    let line = collapse(content);
    if line.as_str().unicode_len() > PREVIEW_CHARS {
        let cut = line.as_str().substring_char(0, PREVIEW_CHARS);
        assert(cut@ =~= line@.take(PREVIEW_CHARS as int));
        let mut r = cut.to_string();
        r.append("…");
        r
    } else {
        line
    }
}

impl RefStore {
    /// A library without files.
    pub fn new() -> (r: Self)
        ensures
            r@ == (RefStoreView { items: Seq::empty(), files: Map::empty() }),
    {
        let r = RefStore { items: Vec::new(), files: StringHashMap::new() };
        assert(r@.items =~= Seq::empty());
        assert(r@.files =~= Map::empty());
        r
    }

    /// Puts the text of a file into the library, as it was found in storage.
    pub fn hold(&mut self, id: &str, content: String)
        ensures
            final(self)@ == (RefStoreView {
                files: old(self)@.files.insert(id@, content@),
                ..old(self)@
            }),
    {
        self.files.insert(id.to_string(), content);
        assert(self@.files =~= old(self)@.files.insert(id@, content@));
    }

    /// The index.
    pub fn list(&self) -> (r: Vec<RefMeta>)
        ensures
            ref_views(r@) == self@.items,
    {
        let mut r: Vec<RefMeta> = Vec::new();
        let mut i: usize = 0;
        while i < self.items.len()
            invariant
                i <= self.items@.len(),
                ref_views(r@) =~= self@.items.take(i as int),
            decreases self.items@.len() - i,
        {
            let ghost all = self@.items;
            r.push(self.items[i].clone());
            i = i + 1;
            assert(all.take(i as int) =~= all.take(i - 1).push(all[i - 1]));
        }
        assert(self@.items.take(i as int) =~= self@.items);
        r
    }

    /// The highest number of an id in the index.
    pub fn top_id(&self) -> (r: u32)
        ensures
            r == top_number(ref_ids(self@.items), "r"@),
    {
        let ghost ids = ref_ids(self@.items);
        let mut best: u32 = 0;
        let mut i: usize = 0;
        while i < self.items.len()
            invariant
                i <= self.items@.len(),
                ids == ref_ids(self@.items),
                best == top_number(ids.take(i as int), "r"@),
            decreases self.items@.len() - i,
        {
            assert(ids.take(i + 1).drop_last() =~= ids.take(i as int));
            assert(ids[i as int] == self.items[i as int].id@);
            best = raise(best, self.items[i].id.as_str(), "r");
            i = i + 1;
        }
        assert(ids.take(i as int) =~= ids);
        best
    }

    /// Adds a file; of a text that is too long, what fits is kept.
    pub fn add(&mut self, name: &str, content: &str) -> (r: RefMeta)
        requires
            top_number(ref_ids(old(self)@.items), "r"@) < u32::MAX,
        ensures
            r@ == new_ref(old(self)@, name@, content@),
            final(self)@ == with_ref(old(self)@, name@, content@),
    {
        let ghost s = self@;
        let kept = clip_bytes(content, MAX_FILE_BYTES);
        proof {
            lemma_clipped_bytes_fit(content@, MAX_FILE_BYTES as nat);
        }
        let bytes: usize = match bytes_within(kept, MAX_FILE_BYTES) {
            Some(n) => n,
            None => 0,
        };
        let mut id = "r".to_string();
        id.append(decimal(self.top_id() as u128 + 1).as_str());
        let meta = RefMeta {
            id: id.clone(),
            name: sanitize_name(name, "untitled.txt"),
            enabled: true,
            bytes,
        };
        let copy = meta.clone();
        self.items.push(meta);
        assert(self@.items =~= s.items.push(copy@));
        self.hold(id.as_str(), kept.to_string());
        copy
    }

    fn position(&self, id: &str) -> (r: Option<usize>)
        ensures
            match r {
                Some(i) => position_of(ref_ids(self@.items), id@) == Some(i as int) && i
                    < self.items@.len(),
                None => position_of(ref_ids(self@.items), id@) is None,
            },
    {
        let ghost ids = ref_ids(self@.items);
        let mut i: usize = 0;
        while i < self.items.len()
            invariant
                i <= self.items@.len(),
                ids == ref_ids(self@.items),
                forall|j: int| 0 <= j < i ==> #[trigger] ids[j] != id@,
            decreases self.items@.len() - i,
        {
            assert(ids[i as int] == self.items[i as int].id@);
            if same(self.items[i].id.as_str(), id) {
                proof {
                    lemma_first_position(ids, id@, i as int);
                }
                return Some(i);
            }
            i = i + 1;
        }
        proof {
            lemma_position_of(ids, id@);
        }
        None
    }

    /// Switches a file on or off. Says whether there is such a file.
    pub fn set_enabled(&mut self, id: &str, enabled: bool) -> (r: bool)
        ensures
            r == (position_of(ref_ids(old(self)@.items), id@) is Some),
            final(self)@ == switched(old(self)@, id@, enabled),
    {
        let ghost s = self@;
        match self.position(id) {
            Some(i) => {
                self.items[i].enabled = enabled;
                assert(self@.items =~= s.items.update(
                    i as int,
                    RefMetaView { enabled: enabled, ..s.items[i as int] },
                ));
                true
            },
            None => false,
        }
    }

    /// Removes a file. Says whether there was such a file.
    pub fn remove(&mut self, id: &str) -> (r: bool)
        ensures
            r == (position_of(ref_ids(old(self)@.items), id@) is Some),
            final(self)@ == without_ref(old(self)@, id@),
    {
        let ghost s = self@.items;
        let ghost keep = |m: RefMetaView| m.id != id@;
        if self.position(id).is_none() {
            return false;
        }
        let mut kept: Vec<RefMeta> = Vec::new();
        let mut i: usize = 0;
        while i < self.items.len()
            invariant
                i <= s.len(),
                s == self@.items,
                *self == *old(self),
                keep == (|m: RefMetaView| m.id != id@),
                ref_views(kept@) =~= s.take(i as int).filter(keep),
            decreases s.len() - i,
        {
            proof {
                reveal(Seq::filter);
                assert(s.take(i + 1).drop_last() =~= s.take(i as int));
                assert(s[i as int] == self.items[i as int]@);
            }
            if !same(self.items[i].id.as_str(), id) {
                kept.push(self.items[i].clone());
            }
            i = i + 1;
        }
        assert(s.take(s.len() as int) =~= s);
        self.items = kept;
        self.files.remove(id);
        assert(self@.files =~= old(self)@.files.remove(id@));
        true
    }

    /// The text of a file, where it is switched on: the model can never read a file
    /// that the user has switched off.
    pub fn read(&self, id: &str) -> (r: Option<String>)
        ensures
            string_view(r) == read_ref(self@, id@),
    {
        let mut i: usize = 0;
        while i < self.items.len()
            invariant
                i <= self.items@.len(),
                forall|j: int|
                    0 <= j < i ==> !((#[trigger] self@.items[j]).id == id@
                        && self@.items[j].enabled),
            decreases self.items@.len() - i,
        {
            assert(self@.items[i as int] == self.items[i as int]@);
            if self.items[i].enabled && same(self.items[i].id.as_str(), id) {
                return match self.files.get(id) {
                    Some(t) => Some(t.clone()),
                    None => None,
                };
            }
            i = i + 1;
        }
        None
    }

    /// What the model is shown of the library.
    pub fn manifest_block(&self) -> (r: Option<String>)
        ensures
            string_view(r) == manifest(self@),
    {
        let ghost items = self@.items;
        let ghost files = self@.files;
        let mut out = "[REFERENCE LIBRARY — files the user provided as background for this deck. Call read_reference(id) to read the full text of any that look relevant to the instruction, then use those facts when building or editing slides (do not invent facts that contradict them). Only read what you need.]\n".to_string();
        let mut any: bool = false;
        let mut i: usize = 0;
        assert(manifest_head() + manifest_lines(items.take(0), files) =~= manifest_head());
        while i < self.items.len()
            invariant
                i <= self.items@.len(),
                items == self@.items,
                files == self@.files,
                any == (exists|j: int| 0 <= j < i && (#[trigger] items[j]).enabled),
                out@ == manifest_head() + manifest_lines(items.take(i as int), files),
            decreases self.items@.len() - i,
        {
            let m = &self.items[i];
            assert(items[i as int] == m@);
            assert(items.take(i + 1).drop_last() =~= items.take(i as int));
            let ghost before = out@;
            if m.enabled {
                let mut line = "- id \"".to_string();
                line.append(m.id.as_str());
                line.append("\" — ");
                line.append(m.name.as_str());
                line.append(" (");
                line.append(human_bytes(m.bytes).as_str());
                line.append("): ");
                match self.files.get(m.id.as_str()) {
                    Some(t) => {
                        line.append(preview_of(t.as_str()).as_str());
                    },
                    None => {
                        assert(line@ =~= line@ + Seq::empty());
                    },
                }
                line.append("\n");
                assert(line@ == manifest_line(m@, files));
                out.append(line.as_str());
                any = true;
                assert(out@ =~= manifest_head() + (manifest_lines(items.take(i as int), files)
                    + manifest_line(m@, files)));
            }
            i = i + 1;
        }
        assert(items.take(i as int) =~= items);
        if any {
            Some(out)
        } else {
            None
        }
    }
}

// ---- Laws --------------------------------------------------------------

/// A file that was just added is read back as it was given, or the beginning of it
/// that fits.
pub proof fn law_added_ref_reads_back(s: RefStoreView, name: Seq<char>, content: Seq<char>)
    ensures
        read_ref(with_ref(s, name, content), new_ref(s, name, content).id) == Some(
            clipped_bytes(content, MAX_FILE_BYTES as nat),
        ),
        byte_count(content) <= MAX_FILE_BYTES ==> read_ref(
            with_ref(s, name, content),
            new_ref(s, name, content).id,
        ) == Some(content),
        new_ref(s, name, content).bytes <= MAX_FILE_BYTES,
{
    lemma_clipped_bytes_fit(content, MAX_FILE_BYTES as nat);
    let t = with_ref(s, name, content);
    assert(t.items[s.items.len() as int] == new_ref(s, name, content));
}

/// Adding a file leaves what every other file reads as, and mints an id that no file
/// has.
pub proof fn law_adding_a_ref_keeps_the_others(
    s: RefStoreView,
    name: Seq<char>,
    content: Seq<char>,
    id: Seq<char>,
)
    requires
        top_number(ref_ids(s.items), "r"@) < u32::MAX,
        distinct(ref_ids(s.items)),
    ensures
        distinct(ref_ids(with_ref(s, name, content).items)),
        id != new_ref(s, name, content).id ==> read_ref(with_ref(s, name, content), id)
            == read_ref(s, id),
        !offered(s.items, new_ref(s, name, content).id),
{
    let t = with_ref(s, name, content);
    let n = s.items.len() as int;
    let ids = ref_ids(s.items);
    law_next_id_is_fresh(ids, "r"@);
    assert(ref_ids(t.items) =~= ids.push(new_ref(s, name, content).id));
    assert forall|i: int| 0 <= i < n implies (#[trigger] s.items[i]).id != new_ref(
        s,
        name,
        content,
    ).id by {
        assert(ids[i] == s.items[i].id);
    }
    if id != new_ref(s, name, content).id {
        if offered(s.items, id) {
            let i = choose|i: int|
                0 <= i < n && (#[trigger] s.items[i]).id == id && s.items[i].enabled;
            assert(t.items[i] == s.items[i]);
        }
        if offered(t.items, id) {
            let i = choose|i: int|
                0 <= i < t.items.len() && (#[trigger] t.items[i]).id == id && t.items[i].enabled;
            assert(t.items[i] == s.items[i]);
        }
    }
}

/// A file that is switched off cannot be read; switched on again, it reads as before.
pub proof fn law_switch_gates_reading(s: RefStoreView, id: Seq<char>)
    requires
        distinct(ref_ids(s.items)),
    ensures
        distinct(ref_ids(switched(s, id, false).items)),
        distinct(ref_ids(switched(s, id, true).items)),
        read_ref(switched(s, id, false), id) is None,
        position_of(ref_ids(s.items), id) is Some ==> read_ref(switched(s, id, true), id)
            == text_in(s.files, id),
{
    let ids = ref_ids(s.items);
    lemma_position_of(ids, id);
    let off = switched(s, id, false);
    let on = switched(s, id, true);
    assert(ref_ids(off.items) =~= ids);
    assert(ref_ids(on.items) =~= ids);
    if offered(off.items, id) {
        let i = choose|i: int|
            0 <= i < off.items.len() && (#[trigger] off.items[i]).id == id && off.items[i].enabled;
        assert(ids[i] == id);
        match position_of(ids, id) {
            Some(k) => {
                if i != k {
                    assert(ids[i] != ids[k]);
                }
            },
            None => {},
        }
    }
    match position_of(ids, id) {
        Some(k) => {
            assert(ids[k] == s.items[k].id);
            assert(on.items[k].id == id && on.items[k].enabled);
        },
        None => {},
    }
}

/// A file that was removed cannot be read, and every other file reads as before.
pub proof fn law_removed_ref_is_gone(s: RefStoreView, id: Seq<char>, other: Seq<char>)
    requires
        other != id,
    ensures
        read_ref(without_ref(s, id), id) is None,
        read_ref(without_ref(s, id), other) == read_ref(s, other),
{
    let ids = ref_ids(s.items);
    lemma_position_of(ids, id);
    let keep = |m: RefMetaView| m.id != id;
    let t = without_ref(s, id);
    if position_of(ids, id) is Some {
        if offered(t.items, id) {
            let i = choose|i: int|
                0 <= i < t.items.len() && (#[trigger] t.items[i]).id == id && t.items[i].enabled;
            s.items.lemma_filter_pred(keep, i);
        }
        if offered(s.items, other) {
            let i = choose|i: int|
                0 <= i < s.items.len() && (#[trigger] s.items[i]).id == other && s.items[i].enabled;
            s.items.lemma_filter_contains(keep, i);
            let j = choose|j: int| 0 <= j < t.items.len() && t.items[j] == s.items[i];
            assert(t.items[j].id == other);
        }
        if offered(t.items, other) {
            let i = choose|i: int|
                0 <= i < t.items.len() && (#[trigger] t.items[i]).id == other && t.items[i].enabled;
            assert(t.items.contains(t.items[i]));
            s.items.lemma_filter_contains_rev(keep, t.items[i]);
            let j = choose|j: int| 0 <= j < s.items.len() && s.items[j] == t.items[i];
            assert(s.items[j].id == other);
        }
    } else {
        assert forall|i: int| 0 <= i < s.items.len() implies (#[trigger] s.items[i]).id != id by {
            assert(ids[i] == s.items[i].id);
        }
    }
}

pub open spec fn switched_on(items: Seq<RefMetaView>) -> Seq<RefMetaView> {
    items.filter(|m: RefMetaView| m.enabled)
}

proof fn lemma_lines_of_enabled(items: Seq<RefMetaView>, files: Map<Seq<char>, Seq<char>>)
    ensures
        manifest_lines(switched_on(items), files) == manifest_lines(items, files),
        some_enabled(items) <==> switched_on(items).len() > 0,
        forall|i: int|
            0 <= i < switched_on(items).len() ==> (#[trigger] switched_on(items)[i]).enabled,
    decreases items.len(),
{
    reveal(Seq::filter);
    if items.len() > 0 {
        let rest = items.drop_last();
        lemma_lines_of_enabled(rest, files);
        assert forall|i: int| 0 <= i < rest.len() implies #[trigger] rest[i] == items[i] by {}
        if some_enabled(rest) {
            let i = choose|i: int| 0 <= i < rest.len() && (#[trigger] rest[i]).enabled;
            assert(items[i].enabled);
        }
        if items.last().enabled {
            assert(items[items.len() - 1].enabled);
            assert(switched_on(items).drop_last() =~= switched_on(rest));
        } else if some_enabled(items) {
            let i = choose|i: int| 0 <= i < items.len() && (#[trigger] items[i]).enabled;
            assert(rest[i].enabled);
        }
    }
}

proof fn lemma_lines_read_only_their_files(
    items: Seq<RefMetaView>,
    a: Map<Seq<char>, Seq<char>>,
    b: Map<Seq<char>, Seq<char>>,
)
    requires
        forall|i: int|
            0 <= i < items.len() ==> text_in(a, (#[trigger] items[i]).id) == text_in(
                b,
                items[i].id,
            ),
    ensures
        manifest_lines(items, a) == manifest_lines(items, b),
    decreases items.len(),
{
    if items.len() > 0 {
        assert forall|i: int| 0 <= i < items.len() - 1 implies text_in(
            a,
            (#[trigger] items.drop_last()[i]).id,
        ) == text_in(b, items.drop_last()[i].id) by {
            assert(items.drop_last()[i] == items[i]);
        }
        lemma_lines_read_only_their_files(items.drop_last(), a, b);
        assert(items[items.len() - 1] == items.last());
    }
}

/// The manifest says nothing of a file that is switched off: two libraries with the
/// same files switched on, in the same order and with the same texts, have the same.
pub proof fn law_manifest_shows_only_what_is_on(a: RefStoreView, b: RefStoreView)
    requires
        switched_on(a.items) == switched_on(b.items),
        forall|i: int|
            0 <= i < switched_on(a.items).len() ==> text_in(
                a.files,
                (#[trigger] switched_on(a.items)[i]).id,
            ) == text_in(b.files, switched_on(a.items)[i].id),
    ensures
        manifest(a) == manifest(b),
{
    lemma_lines_of_enabled(a.items, a.files);
    lemma_lines_of_enabled(b.items, b.files);
    lemma_lines_read_only_their_files(switched_on(a.items), a.files, b.files);
}

/// However long a file is, the manifest shows no more than its beginning.
pub proof fn law_preview_is_short(content: Seq<char>)
    ensures
        preview(content).len() <= PREVIEW_CHARS + 1,
{
    reveal_strlit("…");
}

/// A new reference file stands at the end of the index, switched on, under the name that it
/// was given and the next free id, with the size of what is kept of it; the others stay as
/// they are.
pub proof fn law_new_ref_is_as_given(s: RefStoreView, name: Seq<char>, content: Seq<char>)
    ensures
        ({
            let t = with_ref(s, name, content);
            let m = new_ref(s, name, content);
            &&& t.items.len() == s.items.len() + 1
            &&& t.items.drop_last() == s.items
            &&& t.items.last() == m
            &&& m.id == next_id(ref_ids(s.items), "r"@)
            &&& m.name == safe_name(name, "untitled.txt"@)
            &&& m.enabled
            &&& t.files.dom().contains(m.id)
            &&& m.bytes == byte_count(t.files[m.id])
            &&& byte_count(content) <= 1_048_576 ==> t.files[m.id] == content
            &&& t.files.remove(m.id) == s.files.remove(m.id)
        }),
{
    let t = with_ref(s, name, content);
    let m = new_ref(s, name, content);
    lemma_clipped_bytes_fit(content, MAX_FILE_BYTES as nat);
    assert(t.items.drop_last() =~= s.items);
    assert(t.files.remove(m.id) =~= s.files.remove(m.id));
}

/// Switching a reference file changes whether it is on, and nothing else of it or of any
/// other.
pub proof fn law_switch_changes_one_flag(s: RefStoreView, id: Seq<char>, enabled: bool, i: int)
    requires
        0 <= i < s.items.len(),
        s.items[i].id == id,
        forall|j: int| 0 <= j < i ==> (#[trigger] s.items[j]).id != id,
    ensures
        ({
            let t = switched(s, id, enabled);
            &&& t.files == s.files
            &&& t.items.len() == s.items.len()
            &&& t.items[i].enabled == enabled
            &&& t.items[i].id == id
            &&& t.items[i].name == s.items[i].name
            &&& t.items[i].bytes == s.items[i].bytes
            &&& forall|j: int|
                0 <= j < s.items.len() && j != i ==> #[trigger] t.items[j] == s.items[j]
        }),
{
    let ids = ref_ids(s.items);
    assert forall|j: int| 0 <= j < i implies #[trigger] ids[j] != id by {
        assert(ids[j] == s.items[j].id);
    }
    lemma_first_position(ids, id, i);
}

/// Removing a reference file takes out what has its id and leaves the rest.
pub proof fn law_only_the_removed_ref_goes(s: RefStoreView, id: Seq<char>, m: RefMetaView)
    ensures
        without_ref(s, id).items.contains(m) <==> s.items.contains(m) && m.id != id,
{
    let keep = |m: RefMetaView| m.id != id;
    let ids = ref_ids(s.items);
    lemma_position_of(ids, id);
    let t = without_ref(s, id);
    if position_of(ids, id) is Some {
        if t.items.contains(m) {
            let i = choose|i: int| 0 <= i < t.items.len() && t.items[i] == m;
            s.items.lemma_filter_pred(keep, i);
            s.items.lemma_filter_contains_rev(keep, m);
        }
        if s.items.contains(m) && m.id != id {
            let i = choose|i: int| 0 <= i < s.items.len() && s.items[i] == m;
            s.items.lemma_filter_contains(keep, i);
        }
    } else if s.items.contains(m) {
        let i = choose|i: int| 0 <= i < s.items.len() && s.items[i] == m;
        assert(ids[i] == m.id);
    }
}

/// A reference file is read by its id where it is switched on, and then as it is.
pub proof fn law_enabled_ref_is_read(s: RefStoreView, id: Seq<char>, i: int)
    ensures
        0 <= i < s.items.len() && s.items[i].id == id && s.items[i].enabled
            && s.files.dom().contains(id) ==> read_ref(s, id) == Some(s.files[id]),
        (forall|j: int|
            0 <= j < s.items.len() && (#[trigger] s.items[j]).id == id ==> !s.items[j].enabled)
            ==> read_ref(s, id) is None,
{
}

/// The manifest begins with its explanation and then has, for one file after the other, a
/// line for each that is on, with its id, its name, its size and the beginning of its own
/// text; a file that is off adds nothing.
pub proof fn law_manifest_lists_each_file(
    items: Seq<RefMetaView>,
    m: RefMetaView,
    files: Map<Seq<char>, Seq<char>>,
)
    ensures
        ({
            let (a, b) = (
                manifest(RefStoreView { items: items, files: files }),
                manifest(RefStoreView { items: items.push(m), files: files }),
            );
            let line = "- id \""@ + m.id + "\" — "@ + m.name + " ("@ + size_text(m.bytes) + "): "@
                + (if files.dom().contains(m.id) {
                preview(files[m.id])
            } else {
                Seq::empty()
            }) + "\n"@;
            &&& !m.enabled ==> a == b
            &&& m.enabled && a is None ==> b == Some(manifest_head() + line)
            &&& m.enabled && a is Some ==> b == Some(a->0 + line)
        }),
        manifest(RefStoreView { items: Seq::empty(), files: files }) is None,
{
    let all = items.push(m);
    assert(all.drop_last() =~= items);
    assert forall|i: int| 0 <= i < items.len() implies #[trigger] all[i] == items[i] by {}
    if some_enabled(items) {
        let i = choose|i: int| 0 <= i < items.len() && (#[trigger] items[i]).enabled;
        assert(all[i].enabled);
    }
    if m.enabled {
        assert(all[items.len() as int].enabled);
        if some_enabled(items) {
            let x = manifest_head() + manifest_lines(items, files);
            assert(manifest_head() + manifest_lines(all, files) =~= x + manifest_line(m, files));
        } else {
            lemma_no_lines(items, files);
            assert(manifest_head() + manifest_lines(all, files) =~= manifest_head() + manifest_line(
                m,
                files,
            ));
        }
    } else if some_enabled(all) {
        let i = choose|i: int| 0 <= i < all.len() && (#[trigger] all[i]).enabled;
        assert(items[i].enabled);
    }
}

proof fn lemma_no_lines(items: Seq<RefMetaView>, files: Map<Seq<char>, Seq<char>>)
    requires
        !some_enabled(items),
    ensures
        manifest_lines(items, files).len() == 0,
    decreases items.len(),
{
    if items.len() > 0 {
        let rest = items.drop_last();
        assert(!items[items.len() - 1].enabled);
        if some_enabled(rest) {
            let i = choose|i: int| 0 <= i < rest.len() && (#[trigger] rest[i]).enabled;
            assert(items[i].enabled);
        }
        lemma_no_lines(rest, files);
    }
}

/// What is shown of a file is its text with the white space collapsed: all of it where it is
/// short, and else the beginning of it with an ellipsis.
pub proof fn law_preview_is_the_beginning(content: Seq<char>)
    ensures
        collapsed(content).len() <= 240 ==> preview(content) == collapsed(content),
        collapsed(content).len() > 240 ==> preview(content) == collapsed(content).take(240) + "…"@,
{
}

} // verus!

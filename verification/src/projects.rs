//! Projects: decks that are kept apart.
//!
//! Each project has a directory of its own for its deck, its reference files and its
//! images. The registry lists the projects and says which one is active.

use serde_json::Value;
use vstd::prelude::*;
use vstd::string::*;

use crate::ids::{distinct, lemma_first_position, lemma_position_of, position_of};
use crate::json::{array, field, json_view, json_views, object, put, put_text, JsonView};
use crate::num::{dec, decimal, lemma_dec, lemma_dec_injective};
use crate::text::{
    chars_of, law_trailing_copies_are_taken, lower, lower_char, same, string_views, trim,
    trim_end_char, trimmed, without_trailing,
};

verus! {

/// One project. The higher `seq`, the more recently it was made active.
#[derive(Debug)]
pub struct Project {
    pub id: String,
    pub name: String,
    pub seq: u64,
}

pub struct ProjectView {
    pub id: Seq<char>,
    pub name: Seq<char>,
    pub seq: nat,
}

impl View for Project {
    type V = ProjectView;

    open spec fn view(&self) -> ProjectView {
        ProjectView { id: self.id@, name: self.name@, seq: self.seq as nat }
    }
}

impl Clone for Project {
    fn clone(&self) -> (r: Self)
        ensures
            r@ == self@,
    {
        Project { id: self.id.clone(), name: self.name.clone(), seq: self.seq }
    }
}

/// The registry: the projects in the order in which they were made, the id of the
/// active one, and the last number that was given out.
#[derive(Debug)]
pub struct ProjectStore {
    pub projects: Vec<Project>,
    pub active: String,
    pub seq: u64,
}

pub struct ProjectStoreView {
    pub projects: Seq<ProjectView>,
    pub active: Seq<char>,
    pub seq: nat,
}

pub open spec fn project_views(s: Seq<Project>) -> Seq<ProjectView> {
    s.map_values(|p: Project| p@)
}

impl View for ProjectStore {
    type V = ProjectStoreView;

    open spec fn view(&self) -> ProjectStoreView {
        ProjectStoreView {
            projects: project_views(self.projects@),
            active: self.active@,
            seq: self.seq as nat,
        }
    }
}

pub open spec fn project_ids(projects: Seq<ProjectView>) -> Seq<Seq<char>> {
    projects.map_values(|p: ProjectView| p.id)
}

pub open spec fn knows(s: ProjectStoreView, id: Seq<char>) -> bool {
    position_of(project_ids(s.projects), id) is Some
}

/// The directory of a project.
pub open spec fn project_path(id: Seq<char>) -> Seq<char> {
    "projects/"@ + id
}

/// The registry once it was looked at: there is a project, and an active one.
pub open spec fn initialized(s: ProjectStoreView) -> ProjectStoreView {
    if s.projects.len() == 0 {
        ProjectStoreView {
            projects: seq![
                ProjectView { id: "default"@, name: "Default"@, seq: s.seq + 1 },
            ],
            active: "default"@,
            seq: s.seq + 1,
        }
    } else if knows(s, s.active) {
        s
    } else {
        ProjectStoreView { active: s.projects[0].id, ..s }
    }
}

// ---- Ids ---------------------------------------------------------------

pub open spec fn alphanumeric(c: char) -> bool {
    '0' <= c <= '9' || 'a' <= c <= 'z' || 'A' <= c <= 'Z'
}

/// A text without the characters `c` that it begins with.
pub open spec fn without_leading(s: Seq<char>, c: char) -> Seq<char>
    decreases s.len(),
{
    if s.len() > 0 && s[0] == c {
        without_leading(s.drop_first(), c)
    } else {
        s
    }
}

/// A name in lower case, with a dash in the place of everything but letters and digits.
pub open spec fn dashed(name: Seq<char>) -> Seq<char> {
    name.map_values(
        |c: char|
            if alphanumeric(c) {
                lower(c)
            } else {
                '-'
            },
    )
}

/// What the id of a project with this name begins with.
pub open spec fn slug(name: Seq<char>) -> Seq<char> {
    let base = without_leading(without_trailing(dashed(name), '-'), '-');
    if base.len() == 0 {
        "project"@
    } else {
        base
    }
}

/// The ids that a project may get, in the order in which they are tried.
pub open spec fn candidate(base: Seq<char>, k: nat) -> Seq<char> {
    if k == 0 {
        base
    } else {
        base + "-"@ + dec(k + 1)
    }
}

/// Whether the `k`th candidate is the first that is not in use.
pub open spec fn first_free(base: Seq<char>, used: Seq<Seq<char>>, k: nat) -> bool {
    &&& !used.contains(candidate(base, k))
    &&& forall|j: nat| j < k ==> used.contains(#[trigger] candidate(base, j))
}

/// The first of the candidates that is not in use.
pub open spec fn free_id(base: Seq<char>, used: Seq<Seq<char>>) -> Seq<char> {
    candidate(base, choose|k: nat| first_free(base, used, k))
}

proof fn lemma_candidate_injective(base: Seq<char>, i: nat, j: nat)
    requires
        candidate(base, i) == candidate(base, j),
    ensures
        i == j,
{
    reveal_strlit("-");
    assert("-"@.len() == 1);
    let n = base.len() as int + 1;
    if i > 0 && j > 0 {
        assert(candidate(base, i).skip(n) =~= dec(i + 1));
        assert(candidate(base, j).skip(n) =~= dec(j + 1));
        lemma_dec_injective(i + 1, j + 1);
    }
}

/// Of more candidates than there are ids in use, one is free.
proof fn lemma_candidates_run_out(base: Seq<char>, used: Seq<Seq<char>>, k: nat)
    requires
        forall|j: nat| j < k ==> used.contains(#[trigger] candidate(base, j)),
    ensures
        k <= used.len(),
{
    let tried = Seq::new(k, |j: int| candidate(base, j as nat));
    assert forall|i: int, j: int| 0 <= i < tried.len() && 0 <= j < tried.len() && i != j implies
        tried[i] != tried[j] by {
        if tried[i] == tried[j] {
            lemma_candidate_injective(base, i as nat, j as nat);
        }
    }
    assert(tried.no_duplicates());
    tried.unique_seq_to_set();
    used.lemma_cardinality_of_set();
    vstd::seq_lib::seq_to_set_is_finite(used);
    assert forall|t: Seq<char>| tried.to_set().contains(t) implies used.to_set().contains(t) by {
        let j = choose|j: int| 0 <= j < tried.len() && tried[j] == t;
        assert(used.contains(candidate(base, j as nat)));
    }
    vstd::set_lib::lemma_len_subset(tried.to_set(), used.to_set());
}

proof fn lemma_free_id(base: Seq<char>, used: Seq<Seq<char>>, k: nat)
    requires
        first_free(base, used, k),
    ensures
        free_id(base, used) == candidate(base, k),
{
    let m = choose|m: nat| first_free(base, used, m);
    assert(first_free(base, used, m));
    if m < k {
        assert(used.contains(candidate(base, m)));
    }
    if k < m {
        assert(used.contains(candidate(base, k)));
    }
}

fn trim_start_char<'a>(s: &'a str, c: char) -> (r: &'a str)
    ensures
        r@ == without_leading(s@, c),
{
    let n: usize = s.unicode_len();
    let mut i: usize = 0;
    assert(s@.skip(0) =~= s@);
    while i < n && s.get_char(i) == c
        invariant
            n == s@.len(),
            i <= n,
            without_leading(s@, c) == without_leading(s@.skip(i as int), c),
        decreases n - i,
    {
        assert(s@.skip(i as int).drop_first() =~= s@.skip(i + 1));
        i = i + 1;
    }
    assert(s@.skip(i as int) =~= s@.subrange(i as int, n as int));
    s.substring_char(i, n)
}

fn make_slug(name: &str) -> (r: String)
    ensures
        r@ == slug(name@),
{
    let v = chars_of(name);
    let mut d = String::new();
    let mut i: usize = 0;
    while i < v.len()
        invariant
            v@ == name@,
            i <= v@.len(),
            d@ =~= dashed(name@).take(i as int),
        decreases v@.len() - i,
    {
        let c = v[i];
        if ('0' <= c && c <= '9') || ('a' <= c && c <= 'z') || ('A' <= c && c <= 'Z') {
            d.push(lower_char(c));
        } else {
            d.push('-');
        }
        i = i + 1;
    }
    assert(dashed(name@).take(i as int) =~= dashed(name@));
    let base = trim_start_char(trim_end_char(d.as_str(), '-'), '-');
    if base.is_empty() {
        "project".to_string()
    } else {
        base.to_string()
    }
}

// ---- Operations --------------------------------------------------------

/// The name that a project gets.
pub open spec fn shown_name(name: Seq<char>) -> Seq<char> {
    if trimmed(name).len() == 0 {
        "Untitled Project"@
    } else {
        trimmed(name)
    }
}

/// The name that a project gets where the user asked for `name`.
pub fn name_shown<'a>(name: &'a str) -> (r: &'a str)
    ensures
        r@ == shown_name(name@),
{
    let t = trim(name);
    if t.is_empty() {
        "Untitled Project"
    } else {
        t
    }
}

/// The id that a new project gets. `taken` are names that something else has in the
/// directory of the projects.
pub open spec fn new_project_id(
    s: ProjectStoreView,
    name: Seq<char>,
    taken: Seq<Seq<char>>,
) -> Seq<char> {
    free_id(slug(shown_name(name)), project_ids(s.projects) + taken)
}

/// The registry with a new project, which is the active one.
pub open spec fn with_project(
    s: ProjectStoreView,
    name: Seq<char>,
    taken: Seq<Seq<char>>,
) -> ProjectStoreView {
    let t = initialized(s);
    let id = new_project_id(t, name, taken);
    ProjectStoreView {
        projects: t.projects.push(
            ProjectView { id: id, name: shown_name(name), seq: t.seq + 1 },
        ),
        active: id,
        seq: t.seq + 1,
    }
}

/// The registry with another project active.
pub open spec fn with_active(s: ProjectStoreView, id: Seq<char>) -> ProjectStoreView {
    match position_of(project_ids(s.projects), id) {
        Some(i) => ProjectStoreView {
            projects: s.projects.update(i, ProjectView { seq: s.seq + 1, ..s.projects[i] }),
            active: id,
            seq: s.seq + 1,
        },
        None => s,
    }
}

/// Why a project cannot be renamed.
pub open spec fn rename_refusal(s: ProjectStoreView, id: Seq<char>, name: Seq<char>) -> Option<
    Seq<char>,
> {
    if trimmed(name).len() == 0 {
        Some("name required"@)
    } else if !knows(s, id) {
        Some("unknown project"@)
    } else {
        None
    }
}

/// The registry with a project renamed.
pub open spec fn with_name(s: ProjectStoreView, id: Seq<char>, name: Seq<char>) -> ProjectStoreView {
    match position_of(project_ids(s.projects), id) {
        Some(i) => ProjectStoreView {
            projects: s.projects.update(i, ProjectView { name: trimmed(name), ..s.projects[i] }),
            ..s
        },
        None => s,
    }
}

/// Why a project cannot be deleted.
pub open spec fn delete_refusal(s: ProjectStoreView, id: Seq<char>) -> Option<Seq<char>> {
    if s.projects.len() <= 1 {
        Some("can't delete the last project"@)
    } else if !knows(s, id) {
        Some("unknown project"@)
    } else {
        None
    }
}

/// The id of the project with the highest number; of several, the last. Nothing where
/// there is no project.
pub open spec fn most_recent(projects: Seq<ProjectView>) -> Option<ProjectView>
    decreases projects.len(),
{
    if projects.len() == 0 {
        None
    } else {
        match most_recent(projects.drop_last()) {
            Some(p) => if projects.last().seq >= p.seq {
                Some(projects.last())
            } else {
                Some(p)
            },
            None => Some(projects.last()),
        }
    }
}

/// The projects but those with this id.
pub open spec fn others(projects: Seq<ProjectView>, id: Seq<char>) -> Seq<ProjectView> {
    projects.filter(|p: ProjectView| p.id != id)
}

/// The registry without a project.
pub open spec fn without_project(s: ProjectStoreView, id: Seq<char>) -> ProjectStoreView {
    let left = others(s.projects, id);
    ProjectStoreView {
        projects: left,
        active: if s.active == id {
            match most_recent(left) {
                Some(p) => p.id,
                None => Seq::empty(),
            }
        } else {
            s.active
        },
        ..s
    }
}

/// Where a project goes in a list with the most recent first: before the first that is
/// less recent.
pub open spec fn place_in(list: Seq<ProjectView>, p: ProjectView) -> int
    decreases list.len(),
{
    if list.len() > 0 && list[0].seq >= p.seq {
        1 + place_in(list.drop_first(), p)
    } else {
        0
    }
}

/// The projects with the most recent first; of those with the same number, the one that
/// comes first stays first.
pub open spec fn recent_first(projects: Seq<ProjectView>) -> Seq<ProjectView>
    decreases projects.len(),
{
    if projects.len() == 0 {
        Seq::empty()
    } else {
        let list = recent_first(projects.drop_last());
        list.insert(place_in(list, projects.last()), projects.last())
    }
}

pub open spec fn project_json(p: ProjectView) -> JsonView {
    JsonView::Object(map!["id"@ => JsonView::Text(p.id), "name"@ => JsonView::Text(p.name)])
}

pub open spec fn registry_json(s: ProjectStoreView) -> JsonView {
    JsonView::Object(
        map![
            "active"@ => JsonView::Text(s.active),
            "projects"@ => JsonView::Array(
                recent_first(s.projects).map_values(|p: ProjectView| project_json(p)),
            ),
        ],
    )
}

pub open spec fn refusal_view(r: Result<(), String>) -> Option<Seq<char>> {
    match r {
        Ok(_) => None,
        Err(e) => Some(e@),
    }
}

fn project_value(p: &Project) -> (r: Value)
    ensures
        json_view(r) == project_json(p@),
{
    let mut m = serde_json::Map::new();
    put_text(&mut m, "id", p.id.as_str());
    put_text(&mut m, "name", p.name.as_str());
    object(m)
}

impl ProjectStore {
    /// A registry without projects.
    pub fn new() -> (r: Self)
        ensures
            r@ == (ProjectStoreView { projects: Seq::empty(), active: Seq::empty(), seq: 0 }),
    {
        let r = ProjectStore { projects: Vec::new(), active: String::new(), seq: 0 };
        assert(r@.projects =~= Seq::empty());
        r
    }

    /// The directory of a project.
    pub fn project_dir(&self, id: &str) -> (r: String)
        ensures
            r@ == project_path(id@),
    {
        let mut r = "projects/".to_string();
        r.append(id);
        r
    }

    fn position(&self, id: &str) -> (r: Option<usize>)
        ensures
            match r {
                Some(i) => position_of(project_ids(self@.projects), id@) == Some(i as int) && i
                    < self.projects@.len(),
                None => position_of(project_ids(self@.projects), id@) is None,
            },
    {
        let ghost ids = project_ids(self@.projects);
        let mut i: usize = 0;
        while i < self.projects.len()
            invariant
                i <= self.projects@.len(),
                ids == project_ids(self@.projects),
                forall|j: int| 0 <= j < i ==> #[trigger] ids[j] != id@,
            decreases self.projects@.len() - i,
        {
            assert(ids[i as int] == self.projects[i as int].id@);
            if same(self.projects[i].id.as_str(), id) {
                proof {
                    lemma_first_position(ids, id@, i as int);
                }
                return Some(i);
            }
            i = i + 1;
        }
        proof {
            lemma_position_of(ids, id@);
        }
        None
    }

    /// Makes sure that there is a project and an active one, and gives the id of that.
    pub fn ensure_initialized(&mut self) -> (r: String)
        requires
            old(self)@.projects.len() == 0 ==> old(self).seq < u64::MAX,
        ensures
            final(self)@ == initialized(old(self)@),
            r@ == final(self)@.active,
    {
        let ghost s = self@;
        if self.projects.len() == 0 {
            self.seq = self.seq + 1;
            let first = Project {
                id: "default".to_string(),
                name: "Default".to_string(),
                seq: self.seq,
            };
            self.active = first.id.clone();
            self.projects.push(first);
            assert(self@.projects =~= initialized(s).projects);
        } else if self.position(self.active.as_str()).is_none() {
            self.active = self.projects[0].id.clone();
        }
        self.active.clone()
    }

    /// The id of the active project.
    pub fn active_id(&mut self) -> (r: String)
        requires
            old(self)@.projects.len() == 0 ==> old(self).seq < u64::MAX,
        ensures
            final(self)@ == initialized(old(self)@),
            r@ == final(self)@.active,
    {
        self.ensure_initialized()
    }

    /// Whether a name stands among the ids or in `taken`.
    fn in_use(&self, id: &str, taken: &Vec<String>) -> (r: bool)
        ensures
            r == (project_ids(self@.projects) + string_views(taken@)).contains(id@),
    {
        let ghost ids = project_ids(self@.projects);
        let ghost names = string_views(taken@);
        let ghost used = ids + names;
        match self.position(id) {
            Some(_) => {
                proof {
                    lemma_position_of(ids, id@);
                    let i = position_of(ids, id@)->Some_0;
                    assert(used[i] == id@);
                }
                return true;
            },
            None => {},
        }
        proof {
            lemma_position_of(ids, id@);
        }
        let mut k: usize = 0;
        while k < taken.len()
            invariant
                k <= taken@.len(),
                ids == project_ids(self@.projects),
                names == string_views(taken@),
                used == ids + names,
                forall|j: int| 0 <= j < k ==> #[trigger] names[j] != id@,
            decreases taken@.len() - k,
        {
            assert(names[k as int] == taken@[k as int]@);
            if same(taken[k].as_str(), id) {
                assert(used[ids.len() + k] == names[k as int]);
                assert(used.contains(used[ids.len() + k]));
                return true;
            }
            k = k + 1;
        }
        assert forall|i: int| 0 <= i < used.len() implies used[i] != id@ by {
            if i < ids.len() {
                assert(ids[i] != id@);
            } else {
                assert(names[i - ids.len()] != id@);
            }
        }
        false
    }

    /// An id for a project with this name that is not in use.
    pub fn unique_id(&self, name: &str, taken: &Vec<String>) -> (r: String)
        ensures
            r@ == free_id(slug(name@), project_ids(self@.projects) + string_views(taken@)),
            !(project_ids(self@.projects) + string_views(taken@)).contains(r@),
    {
        let base = make_slug(name);
        let ghost used = project_ids(self@.projects) + string_views(taken@);
        let mut id = base.clone();
        let mut k: u128 = 0;
        let n: usize = self.projects.len();
        let m: usize = taken.len();
        while self.in_use(id.as_str(), taken)
            invariant
                base@ == slug(name@),
                used == project_ids(self@.projects) + string_views(taken@),
                used.len() == n + m,
                id@ == candidate(base@, k as nat),
                forall|j: nat| j < k ==> used.contains(#[trigger] candidate(base@, j)),
                k <= n + m,
            decreases n + m - k,
        {
            proof {
                assert forall|j: nat| j < k + 1 implies used.contains(
                    #[trigger] candidate(base@, j),
                ) by {
                    if j == k {
                        assert(used.contains(id@));
                    }
                }
                lemma_candidates_run_out(base@, used, (k + 1) as nat);
            }
            k = k + 1;
            id = base.clone();
            id.append("-");
            id.append(decimal(k + 1).as_str());
        }
        proof {
            assert(first_free(base@, used, k as nat));
            lemma_free_id(base@, used, k as nat);
        }
        id
    }

    /// Makes a new project, which becomes the active one, and gives its id. `taken` are
    /// the names of directories that are there already.
    pub fn create(&mut self, name: &str, taken: &Vec<String>) -> (r: String)
        requires
            initialized(old(self)@).seq < u64::MAX,
        ensures
            final(self)@ == with_project(old(self)@, name@, string_views(taken@)),
            r@ == final(self)@.active,
    {
        let _ = self.ensure_initialized();
        let ghost t = self@;
        let shown = name_shown(name);
        self.seq = self.seq + 1;
        let id = self.unique_id(shown, taken);
        self.projects.push(Project { id: id.clone(), name: shown.to_string(), seq: self.seq });
        self.active = id.clone();
        assert(self@.projects =~= t.projects.push(
            ProjectView { id: id@, name: shown@, seq: t.seq + 1 },
        ));
        id
    }

    /// Makes another project the active one.
    pub fn set_active(&mut self, id: &str) -> (r: Result<(), String>)
        requires
            knows(old(self)@, id@) ==> old(self).seq < u64::MAX,
        ensures
            refusal_view(r) == (if knows(old(self)@, id@) {
                None
            } else {
                Some("unknown project"@)
            }),
            final(self)@ == with_active(old(self)@, id@),
    {
        let ghost s = self@;
        match self.position(id) {
            Some(i) => {
                self.seq = self.seq + 1;
                self.projects[i].seq = self.seq;
                self.active = id.to_string();
                assert(self@.projects =~= with_active(s, id@).projects);
                Ok(())
            },
            None => Err("unknown project".to_string()),
        }
    }

    /// Renames a project.
    pub fn rename(&mut self, id: &str, name: &str) -> (r: Result<(), String>)
        ensures
            refusal_view(r) == rename_refusal(old(self)@, id@, name@),
            r is Ok ==> final(self)@ == with_name(old(self)@, id@, name@),
            r is Err ==> final(self)@ == old(self)@,
    {
        let ghost s = self@;
        let t = trim(name);
        if t.is_empty() {
            return Err("name required".to_string());
        }
        match self.position(id) {
            Some(i) => {
                self.projects[i].name = t.to_string();
                assert(self@.projects =~= with_name(s, id@, name@).projects);
                Ok(())
            },
            None => Err("unknown project".to_string()),
        }
    }

    /// Deletes a project, but never the last. If it was the active one, the most recent
    /// of the others becomes that.
    pub fn delete(&mut self, id: &str) -> (r: Result<(), String>)
        ensures
            refusal_view(r) == delete_refusal(old(self)@, id@),
            r is Ok ==> final(self)@ == without_project(old(self)@, id@),
            r is Err ==> final(self)@ == old(self)@,
    {
        let ghost s = self@.projects;
        let ghost keep = |p: ProjectView| p.id != id@;
        if self.projects.len() <= 1 {
            return Err("can't delete the last project".to_string());
        }
        if self.position(id).is_none() {
            return Err("unknown project".to_string());
        }
        let mut kept: Vec<Project> = Vec::new();
        let mut best: Option<Project> = None;
        let mut i: usize = 0;
        while i < self.projects.len()
            invariant
                i <= s.len(),
                s == self@.projects,
                *self == *old(self),
                keep == (|p: ProjectView| p.id != id@),
                project_views(kept@) =~= s.take(i as int).filter(keep),
                match best {
                    Some(b) => most_recent(project_views(kept@)) == Some(b@),
                    None => most_recent(project_views(kept@)) is None,
                },
            decreases s.len() - i,
        {
            proof {
                reveal(Seq::filter);
                assert(s.take(i + 1).drop_last() =~= s.take(i as int));
                assert(s[i as int] == self.projects[i as int]@);
            }
            if !same(self.projects[i].id.as_str(), id) {
                let p = self.projects[i].clone();
                let ghost before = project_views(kept@);
                best = match best {
                    Some(b) => if p.seq >= b.seq {
                        Some(p.clone())
                    } else {
                        Some(b)
                    },
                    None => Some(p.clone()),
                };
                kept.push(p);
                assert(project_views(kept@) =~= before.push(p@));
                assert(project_views(kept@).drop_last() =~= before);
            }
            i = i + 1;
        }
        assert(s.take(s.len() as int) =~= s);
        self.projects = kept;
        if same(self.active.as_str(), id) {
            self.active = match best {
                Some(b) => b.id,
                None => String::new(),
            };
        }
        Ok(())
    }

    /// The listing of the registry, which has a project and an active one afterwards.
    pub fn list_json(&mut self) -> (r: Value)
        requires
            old(self)@.projects.len() == 0 ==> old(self).seq < u64::MAX,
        ensures
            final(self)@ == initialized(old(self)@),
            json_view(r) == registry_json(final(self)@),
    {
        let _ = self.ensure_initialized();
        self.listing()
    }

    /// The projects, the most recently touched one first, and which one is active.
    pub fn listing(&self) -> (r: Value)
        ensures
            json_view(r) == registry_json(self@),
    {
        let list = self.sorted();
        let ghost want = recent_first(self@.projects);
        let ghost one = |p: ProjectView| project_json(p);
        let mut items: Vec<Value> = Vec::new();
        let mut i: usize = 0;
        while i < list.len()
            invariant
                i <= list@.len(),
                want == project_views(list@),
                one == (|p: ProjectView| project_json(p)),
                json_views(items@) =~= want.take(i as int).map_values(one),
            decreases list@.len() - i,
        {
            assert(want[i as int] == list@[i as int]@);
            items.push(project_value(&list[i]));
            i = i + 1;
            assert(want.take(i as int).map_values(one) =~= want.take(i - 1).map_values(one).push(
                one(want[i - 1]),
            ));
        }
        assert(want.take(i as int) =~= want);
        let mut m = serde_json::Map::new();
        put_text(&mut m, "active", self.active.as_str());
        put(&mut m, "projects", array(items));
        object(m)
    }

    fn sorted(&self) -> (r: Vec<Project>)
        ensures
            project_views(r@) == recent_first(self@.projects),
    {
        let ghost s = self@.projects;
        let mut r: Vec<Project> = Vec::new();
        let mut i: usize = 0;
        while i < self.projects.len()
            invariant
                i <= s.len(),
                s == self@.projects,
                project_views(r@) =~= recent_first(s.take(i as int)),
            decreases s.len() - i,
        {
            assert(s.take(i + 1).drop_last() =~= s.take(i as int));
            let p = self.projects[i].clone();
            assert(p@ == s[i as int]);
            let ghost list = project_views(r@);
            let mut at: usize = 0;
            assert(list.skip(0) =~= list);
            while at < r.len() && r[at].seq >= p.seq
                invariant
                    at <= r@.len(),
                    list == project_views(r@),
                    place_in(list, p@) == at + place_in(list.skip(at as int), p@),
                decreases r@.len() - at,
            {
                assert(list[at as int] == r@[at as int]@);
                assert(list.skip(at as int).drop_first() =~= list.skip(at + 1));
                at = at + 1;
            }
            proof {
                if at < r@.len() {
                    assert(list[at as int] == r@[at as int]@);
                    assert(list.skip(at as int)[0] == list[at as int]);
                }
                assert(place_in(list, p@) == at);
            }
            let ghost view = p@;
            r.insert(at, p);
            assert(project_views(r@) =~= list.insert(at as int, view));
            i = i + 1;
        }
        assert(s.take(i as int) =~= s);
        r
    }
}

// ---- Laws --------------------------------------------------------------

/// Whether a registry is as the operations leave it: there is a project, no two have the
/// same id, the active one is among them, and no number was given out twice.
pub open spec fn sound(s: ProjectStoreView) -> bool {
    &&& s.projects.len() > 0
    &&& distinct(project_ids(s.projects))
    &&& knows(s, s.active)
    &&& forall|i: int| 0 <= i < s.projects.len() ==> (#[trigger] s.projects[i]).seq <= s.seq
}

proof fn lemma_known(s: ProjectStoreView, i: int)
    requires
        0 <= i < s.projects.len(),
    ensures
        knows(s, s.projects[i].id),
{
    let ids = project_ids(s.projects);
    lemma_position_of(ids, s.projects[i].id);
    assert(ids[i] == s.projects[i].id);
}

/// Once it was looked at, a registry has a project and an active one.
pub proof fn law_initialized_is_sound(s: ProjectStoreView)
    requires
        distinct(project_ids(s.projects)),
        forall|i: int| 0 <= i < s.projects.len() ==> (#[trigger] s.projects[i]).seq <= s.seq,
    ensures
        sound(initialized(s)),
        sound(s) ==> initialized(s) == s,
{
    let t = initialized(s);
    lemma_known(t, 0);
}

/// A new project is the active one, gets an id and a directory that nothing else has, and
/// leaves every other project as it was.
pub proof fn law_new_project_is_apart(
    s: ProjectStoreView,
    name: Seq<char>,
    taken: Seq<Seq<char>>,
    i: int,
)
    requires
        sound(s),
        0 <= i < s.projects.len(),
    ensures
        sound(with_project(s, name, taken)),
        with_project(s, name, taken).projects[i] == s.projects[i],
        with_project(s, name, taken).active != s.projects[i].id,
        project_path(with_project(s, name, taken).active) != project_path(s.projects[i].id),
        !taken.contains(with_project(s, name, taken).active),
{
    let t = with_project(s, name, taken);
    let ids = project_ids(s.projects);
    let base = slug(shown_name(name));
    let used = ids + taken;
    let id = t.active;
    law_initialized_is_sound(s);
    lemma_some_candidate_is_free(base, used);
    assert forall|j: int| 0 <= j < ids.len() implies #[trigger] ids[j] != id by {
        assert(used[j] == ids[j]);
    }
    assert forall|j: int| 0 <= j < taken.len() implies #[trigger] taken[j] != id by {
        assert(used[ids.len() + j] == taken[j]);
    }
    assert(project_ids(t.projects) =~= ids.push(id));
    assert(ids[i] == s.projects[i].id);
    lemma_known(t, s.projects.len() as int);
    law_directories_are_apart(id, s.projects[i].id);
}

/// Some candidate is always free.
proof fn lemma_some_candidate_is_free(base: Seq<char>, used: Seq<Seq<char>>)
    ensures
        !used.contains(free_id(base, used)),
{
    lemma_free_candidate_from(base, used, 0);
    let k = choose|k: nat| first_free(base, used, k);
    assert(first_free(base, used, k));
}

proof fn lemma_free_candidate_from(base: Seq<char>, used: Seq<Seq<char>>, k: nat)
    requires
        forall|j: nat| j < k ==> used.contains(#[trigger] candidate(base, j)),
    ensures
        exists|m: nat| first_free(base, used, m),
    decreases used.len() + 1 - k,
{
    lemma_candidates_run_out(base, used, k);
    if used.contains(candidate(base, k)) {
        lemma_free_candidate_from(base, used, k + 1);
    } else {
        assert(first_free(base, used, k));
    }
}

/// The characters of a project's id.
pub open spec fn safe_char(c: char) -> bool {
    '0' <= c <= '9' || 'a' <= c <= 'z' || c == '-'
}

pub open spec fn all_safe(s: Seq<char>) -> bool {
    forall|i: int| 0 <= i < s.len() ==> safe_char(#[trigger] s[i])
}

proof fn lemma_trailing_safe(s: Seq<char>, c: char)
    requires
        all_safe(s),
    ensures
        all_safe(without_trailing(s, c)),
    decreases s.len(),
{
    if s.len() > 0 && s.last() == c {
        assert(all_safe(s.drop_last()));
        lemma_trailing_safe(s.drop_last(), c);
    }
}

proof fn lemma_leading_safe(s: Seq<char>, c: char)
    requires
        all_safe(s),
    ensures
        all_safe(without_leading(s, c)),
    decreases s.len(),
{
    if s.len() > 0 && s[0] == c {
        assert(all_safe(s.drop_first()));
        lemma_leading_safe(s.drop_first(), c);
    }
}

proof fn lemma_slug_safe(name: Seq<char>)
    ensures
        slug(name).len() > 0,
        all_safe(slug(name)),
{
    reveal_strlit("project");
    let p = "project"@;
    assert(p.len() == 7 && p[0] == 'p' && p[1] == 'r' && p[2] == 'o' && p[3] == 'j');
    assert(p[4] == 'e' && p[5] == 'c' && p[6] == 't');
    assert(all_safe(dashed(name)));
    lemma_trailing_safe(dashed(name), '-');
    lemma_leading_safe(without_trailing(dashed(name), '-'), '-');
}

/// Whatever a project is called, its id is made of lower-case letters, digits and dashes
/// alone, and is not empty.
pub proof fn law_project_ids_suit_file_names(
    s: ProjectStoreView,
    name: Seq<char>,
    taken: Seq<Seq<char>>,
)
    ensures
        new_project_id(s, name, taken).len() > 0,
        all_safe(new_project_id(s, name, taken)),
{
    let base = slug(shown_name(name));
    let used = project_ids(s.projects) + taken;
    let k = choose|k: nat| first_free(base, used, k);
    lemma_slug_safe(shown_name(name));
    reveal_strlit("-");
    lemma_dec(k + 1);
    let id = candidate(base, k);
    assert forall|i: int| 0 <= i < id.len() implies safe_char(#[trigger] id[i]) by {
        if i < base.len() {
            assert(id[i] == base[i]);
        } else if i > base.len() {
            assert(id[i] == dec(k + 1)[i - base.len() - 1]);
        }
    }
}

/// Different projects have different directories.
pub proof fn law_directories_are_apart(a: Seq<char>, b: Seq<char>)
    requires
        a != b,
    ensures
        project_path(a) != project_path(b),
{
    let n = "projects/"@.len() as int;
    assert(project_path(a).skip(n) =~= a);
    assert(project_path(b).skip(n) =~= b);
}

/// Making another project active, or renaming one, leaves the registry sound, with the
/// same projects.
pub proof fn law_switching_and_renaming_keep_projects(
    s: ProjectStoreView,
    id: Seq<char>,
    name: Seq<char>,
)
    requires
        sound(s),
        knows(s, id),
    ensures
        sound(with_active(s, id)),
        with_active(s, id).active == id,
        project_ids(with_active(s, id).projects) == project_ids(s.projects),
        sound(with_name(s, id, name)),
        with_name(s, id, name).active == s.active,
        project_ids(with_name(s, id, name).projects) == project_ids(s.projects),
{
    let ids = project_ids(s.projects);
    lemma_position_of(ids, id);
    assert(project_ids(with_active(s, id).projects) =~= ids);
    assert(project_ids(with_name(s, id, name).projects) =~= ids);
}

proof fn lemma_most_recent(projects: Seq<ProjectView>)
    ensures
        match most_recent(projects) {
            Some(p) => projects.contains(p) && forall|i: int|
                0 <= i < projects.len() ==> (#[trigger] projects[i]).seq <= p.seq,
            None => projects.len() == 0,
        },
    decreases projects.len(),
{
    if projects.len() > 0 {
        let rest = projects.drop_last();
        lemma_most_recent(rest);
        match most_recent(rest) {
            Some(p) => {
                let j = choose|j: int| 0 <= j < rest.len() && rest[j] == p;
                assert(projects[j] == p);
            },
            None => {},
        }
        assert(projects[projects.len() - 1] == projects.last());
        assert forall|i: int| 0 <= i < projects.len() implies (#[trigger] projects[i]).seq
            <= most_recent(projects)->Some_0.seq by {
            if i < rest.len() {
                assert(rest[i] == projects[i]);
            }
        }
    }
}

/// Deleting a project never leaves the registry without one, or without an active one;
/// and where the active one was deleted, the most recent of the others takes its place.
pub proof fn law_delete_keeps_registry_sound(s: ProjectStoreView, id: Seq<char>)
    requires
        sound(s),
        delete_refusal(s, id) is None,
    ensures
        sound(without_project(s, id)),
        !knows(without_project(s, id), id),
        s.active != id ==> without_project(s, id).active == s.active,
        s.active == id ==> forall|i: int|
            0 <= i < without_project(s, id).projects.len() && (
            #[trigger] without_project(s, id).projects[i]).id == without_project(s, id).active
                ==> forall|j: int|
                0 <= j < without_project(s, id).projects.len() ==> (
                #[trigger] without_project(s, id).projects[j]).seq <= without_project(
                    s,
                    id,
                ).projects[i].seq,
{
    let keep = |p: ProjectView| p.id != id;
    let t = without_project(s, id);
    let left = t.projects;
    let ids = project_ids(s.projects);
    lemma_position_of(ids, id);
    lemma_position_of(ids, s.active);
    let k = if s.projects[0].id != id {
        0
    } else {
        1int
    };
    assert(ids[0] == s.projects[0].id && ids[1] == s.projects[1].id);
    assert(ids[0] != ids[1]);
    s.projects.lemma_filter_contains(keep, k);
    assert(left.len() > 0);
    lemma_filtered(s.projects, id);
    assert forall|i: int, j: int| 0 <= i < j < left.len() implies #[trigger] project_ids(left)[i]
        != #[trigger] project_ids(left)[j] by {
        assert(left[i].id != left[j].id);
    }
    assert forall|i: int| 0 <= i < left.len() implies (#[trigger] left[i]).seq <= t.seq by {
        s.projects.lemma_filter_contains_rev(keep, left[i]);
    }
    lemma_position_of(project_ids(left), id);
    if knows(t, id) {
        let i = position_of(project_ids(left), id)->Some_0;
        s.projects.lemma_filter_pred(keep, i);
        assert(project_ids(left)[i] == left[i].id);
    }
    lemma_most_recent(left);
    if s.active == id {
        let p = most_recent(left)->Some_0;
        let j = choose|j: int| 0 <= j < left.len() && left[j] == p;
        lemma_known(t, j);
        assert forall|i: int| 0 <= i < left.len() && (#[trigger] left[i]).id == t.active implies
            left[i] == p by {
            if i < j {
                assert(left[i].id != left[j].id);
            } else if j < i {
                assert(left[j].id != left[i].id);
            }
        }
    } else {
        let i = position_of(ids, s.active)->Some_0;
        assert(ids[i] == s.projects[i].id);
        s.projects.lemma_filter_contains(keep, i);
        let j = choose|j: int| 0 <= j < left.len() && left[j] == s.projects[i];
        lemma_known(t, j);
    }
}

proof fn lemma_filtered(projects: Seq<ProjectView>, id: Seq<char>)
    requires
        distinct(project_ids(projects)),
    ensures
        forall|i: int, j: int|
            0 <= i < j < others(projects, id).len() ==> (#[trigger] others(projects, id)[i]).id != (
            #[trigger] others(projects, id)[j]).id,
    decreases projects.len(),
{
    reveal(Seq::filter);
    let keep = |p: ProjectView| p.id != id;
    let ids = project_ids(projects);
    if projects.len() > 0 {
        let rest = projects.drop_last();
        assert forall|i: int, j: int| 0 <= i < j < rest.len() implies #[trigger] project_ids(
            rest,
        )[i] != #[trigger] project_ids(rest)[j] by {
            assert(ids[i] != ids[j]);
        }
        lemma_filtered(rest, id);
        let out = others(projects, id);
        let before = others(rest, id);
        assert forall|i: int, j: int| 0 <= i < j < out.len() implies (#[trigger] out[i]).id != (
        #[trigger] out[j]).id by {
            if j < before.len() {
                assert(out[i] == before[i] && out[j] == before[j]);
            } else {
                assert(out[i] == before[i]);
                assert(before.contains(before[i]));
                rest.lemma_filter_contains_rev(keep, before[i]);
                let k = choose|k: int| 0 <= k < rest.len() && rest[k] == before[i];
                assert(ids[k] == before[i].id);
                assert(ids[projects.len() - 1] == out[j].id);
                assert(ids[k] != ids[projects.len() - 1]);
            }
        }
    }
}

proof fn lemma_place_in(list: Seq<ProjectView>, p: ProjectView)
    ensures
        0 <= place_in(list, p) <= list.len(),
        forall|i: int| 0 <= i < place_in(list, p) ==> (#[trigger] list[i]).seq >= p.seq,
        place_in(list, p) < list.len() ==> list[place_in(list, p)].seq < p.seq,
    decreases list.len(),
{
    if list.len() > 0 && list[0].seq >= p.seq {
        let rest = list.drop_first();
        lemma_place_in(rest, p);
        assert forall|i: int| 0 <= i < place_in(list, p) implies (#[trigger] list[i]).seq
            >= p.seq by {
            if i > 0 {
                assert(list[i] == rest[i - 1]);
            }
        }
        if place_in(list, p) < list.len() {
            assert(list[place_in(list, p)] == rest[place_in(rest, p)]);
        }
    }
}

/// The list shows every project once, the most recent first.
pub proof fn law_list_is_recent_first(projects: Seq<ProjectView>)
    ensures
        recent_first(projects).len() == projects.len(),
        recent_first(projects).to_multiset() == projects.to_multiset(),
        forall|i: int, j: int|
            0 <= i < j < projects.len() ==> (#[trigger] recent_first(projects)[i]).seq >= (
            #[trigger] recent_first(projects)[j]).seq,
    decreases projects.len(),
{
    broadcast use vstd::seq_lib::group_to_multiset_ensures;

    if projects.len() > 0 {
        let rest = projects.drop_last();
        let p = projects.last();
        law_list_is_recent_first(rest);
        let list = recent_first(rest);
        let at = place_in(list, p);
        lemma_place_in(list, p);
        let out = recent_first(projects);
        assert forall|i: int, j: int| 0 <= i < j < out.len() implies (#[trigger] out[i]).seq >= (
        #[trigger] out[j]).seq by {
            if i < at {
                assert(out[i] == list[i]);
                if j < at {
                    assert(out[j] == list[j]);
                } else if j > at {
                    assert(out[j] == list[j - 1]);
                }
            } else if i == at {
                assert(out[j] == list[j - 1]);
                if at < j - 1 {
                    assert(list[at].seq >= list[j - 1].seq);
                }
            } else {
                assert(out[i] == list[i - 1] && out[j] == list[j - 1]);
            }
        }
        assert(projects =~= rest.push(p));
    } else {
        assert(recent_first(projects) =~= projects);
    }
}

/// A project that was just made active stands first in the list.
pub proof fn law_active_project_is_listed_first(s: ProjectStoreView, id: Seq<char>)
    requires
        sound(s),
        knows(s, id),
    ensures
        recent_first(with_active(s, id).projects)[0].id == id,
{
    let t = with_active(s, id);
    let ids = project_ids(s.projects);
    lemma_position_of(ids, id);
    let i = position_of(ids, id)->Some_0;
    assert(ids[i] == s.projects[i].id);
    lemma_highest_is_first(t.projects, i);
}

proof fn lemma_highest_is_first(projects: Seq<ProjectView>, i: int)
    requires
        0 <= i < projects.len(),
        forall|j: int|
            0 <= j < projects.len() && j != i ==> (#[trigger] projects[j]).seq < projects[i].seq,
    ensures
        recent_first(projects)[0] == projects[i],
    decreases projects.len(),
{
    let rest = projects.drop_last();
    let p = projects.last();
    let list = recent_first(rest);
    law_list_is_recent_first(rest);
    if i < rest.len() {
        assert forall|j: int| 0 <= j < rest.len() && j != i implies (#[trigger] rest[j]).seq
            < rest[i].seq by {
            assert(projects[j].seq < projects[i].seq);
        }
        lemma_highest_is_first(rest, i);
        assert(projects[projects.len() - 1] == p);
        lemma_place_in(list, p);
        assert(list[0] == projects[i]);
        assert(place_in(list, p) > 0);
    } else {
        lemma_listed_is_project(rest);
        if list.len() > 0 {
            let j = choose|j: int| 0 <= j < rest.len() && rest[j] == list[0];
            assert(projects[j].seq < projects[i].seq);
        }
        assert(place_in(list, p) == 0);
    }
}

proof fn lemma_listed_is_project(projects: Seq<ProjectView>)
    ensures
        recent_first(projects).len() == projects.len(),
        projects.len() > 0 ==> projects.contains(recent_first(projects)[0]),
    decreases projects.len(),
{
    if projects.len() > 0 {
        let rest = projects.drop_last();
        let list = recent_first(rest);
        lemma_listed_is_project(rest);
        lemma_place_in(list, projects.last());
        if place_in(list, projects.last()) > 0 {
            let j = choose|j: int| 0 <= j < rest.len() && rest[j] == list[0];
            assert(projects[j] == list[0]);
        } else {
            assert(projects[projects.len() - 1] == recent_first(projects)[0]);
        }
    }
}

/// A registry without projects gets one of its own, which is active; one whose active project
/// is not there makes the first active; and any other stays.
pub proof fn law_registry_is_set_up(s: ProjectStoreView)
    ensures
        s.projects.len() == 0 ==> ({
            let t = initialized(s);
            &&& t.projects.len() == 1
            &&& t.projects[0].id == "default"@
            &&& t.projects[0].name == "Default"@
            &&& t.projects[0].seq == s.seq + 1
            &&& t.active == "default"@
            &&& t.seq == s.seq + 1
        }),
        s.projects.len() > 0 ==> initialized(s).projects == s.projects && initialized(s).seq
            == s.seq,
        s.projects.len() > 0 && (exists|i: int|
            0 <= i < s.projects.len() && (#[trigger] s.projects[i]).id == s.active)
            ==> initialized(s).active == s.active,
        s.projects.len() > 0 && (forall|i: int|
            0 <= i < s.projects.len() ==> (#[trigger] s.projects[i]).id != s.active) ==> initialized(
            s,
        ).active == s.projects[0].id,
{
    law_known_projects(s, s.active);
}

/// A project is known just where one of the projects has the id.
pub proof fn law_known_projects(s: ProjectStoreView, id: Seq<char>)
    ensures
        knows(s, id) <==> exists|i: int|
            0 <= i < s.projects.len() && (#[trigger] s.projects[i]).id == id,
{
    let ids = project_ids(s.projects);
    lemma_position_of(ids, id);
    if let Some(i) = position_of(ids, id) {
        assert(s.projects[i].id == id);
    }
    if exists|i: int| 0 <= i < s.projects.len() && (#[trigger] s.projects[i]).id == id {
        let i = choose|i: int| 0 <= i < s.projects.len() && (#[trigger] s.projects[i]).id == id;
        assert(ids[i] == id);
    }
}

/// A new project stands behind the others, is the active one and the most recent, and has the
/// name that it was given, without the white space around it; the others stay as they are.
pub proof fn law_new_project_is_as_given(
    s: ProjectStoreView,
    name: Seq<char>,
    taken: Seq<Seq<char>>,
)
    ensures
        ({
            let before = initialized(s);
            let t = with_project(s, name, taken);
            let p = t.projects.last();
            &&& t.projects.len() == before.projects.len() + 1
            &&& t.projects.drop_last() == before.projects
            &&& t.active == p.id
            &&& p.seq == before.seq + 1
            &&& t.seq == before.seq + 1
            &&& trimmed(name).len() > 0 ==> p.name == trimmed(name)
            &&& trimmed(name).len() == 0 ==> p.name == "Untitled Project"@
            &&& p.id == free_id(slug(p.name), project_ids(before.projects) + taken)
        }),
{
    let t = with_project(s, name, taken);
    assert(t.projects.drop_last() =~= initialized(s).projects);
}

/// The id of a new project is its plain name where that is free, and else that with the
/// least number from two on that makes it free.
pub proof fn law_id_is_the_first_that_is_free(base: Seq<char>, used: Seq<Seq<char>>)
    ensures
        !used.contains(base) ==> free_id(base, used) == base,
        used.contains(base) ==> exists|n: nat|
            n >= 2 && free_id(base, used) == #[trigger] (base + "-"@ + dec(n)) && forall|m: nat|
                2 <= m < n ==> used.contains(#[trigger] (base + "-"@ + dec(m))),
        !used.contains(free_id(base, used)),
{
    lemma_some_candidate_is_free(base, used);
    lemma_free_candidate_from(base, used, 0);
    let k = choose|k: nat| first_free(base, used, k);
    if !used.contains(base) {
        assert(first_free(base, used, 0));
        lemma_free_id(base, used, 0);
    } else {
        assert(k > 0);
        assert(free_id(base, used) == base + "-"@ + dec(k + 1));
        assert forall|m: nat| 2 <= m < k + 1 implies used.contains(
            #[trigger] (base + "-"@ + dec(m)),
        ) by {
            assert(used.contains(candidate(base, (m - 1) as nat)));
        }
    }
}

/// The plain name of a project has its letters in lower case and its digits as they are, and a
/// dash for every other character, but none at its ends; where that leaves nothing it is made
/// up.
pub proof fn law_plain_name(name: Seq<char>)
    ensures
        ({
            let d = Seq::new(
                name.len(),
                |i: int|
                    if '0' <= name[i] <= '9' || 'a' <= name[i] <= 'z' {
                        name[i]
                    } else if 'A' <= name[i] <= 'Z' {
                        (name[i] as int + 32) as char
                    } else {
                        '-'
                    },
            );
            &&& (forall|i: int| 0 <= i < d.len() ==> #[trigger] d[i] == '-') ==> slug(name)
                == "project"@
            &&& (exists|i: int| 0 <= i < d.len() && #[trigger] d[i] != '-') ==> slug(name).len() > 0
                && slug(name)[0] != '-' && slug(name).last() != '-' && exists|a: int, b: int|
                0 <= a <= b <= d.len() && slug(name) == #[trigger] d.subrange(a, b) && (forall|
                    i: int,
                | 0 <= i < a ==> #[trigger] d[i] == '-') && (forall|i: int|
                    b <= i < d.len() ==> #[trigger] d[i] == '-')
        }),
{
    let d = Seq::new(
        name.len(),
        |i: int|
            if '0' <= name[i] <= '9' || 'a' <= name[i] <= 'z' {
                name[i]
            } else if 'A' <= name[i] <= 'Z' {
                (name[i] as int + 32) as char
            } else {
                '-'
            },
    );
    assert(dashed(name) =~= d);
    let e = without_trailing(d, '-');
    law_trailing_copies_are_taken(d, '-');
    let a = lemma_leading_copies(e, '-');
    let base = without_leading(e, '-');
    let b = e.len() as int;
    assert(base =~= d.subrange(a, b)) by {
        assert(e =~= d.subrange(0, b));
    }
    assert forall|i: int| 0 <= i < a implies #[trigger] d[i] == '-' by {
        assert(e[i] == '-');
        assert(d.subrange(0, b)[i] == d[i]);
    }
    if base.len() > 0 {
        assert(base[0] == d[a]);
        assert(base.last() == e.last());
    } else {
        assert forall|i: int| 0 <= i < d.len() implies #[trigger] d[i] == '-' by {}
    }
    reveal_strlit("project");
}

proof fn lemma_leading_copies(s: Seq<char>, c: char) -> (a: int)
    ensures
        0 <= a <= s.len(),
        without_leading(s, c) == s.skip(a),
        forall|i: int| 0 <= i < a ==> #[trigger] s[i] == c,
        a < s.len() ==> s[a] != c,
    decreases s.len(),
{
    if s.len() > 0 && s[0] == c {
        let r = s.drop_first();
        let a = lemma_leading_copies(r, c);
        assert(r.skip(a) =~= s.skip(a + 1));
        assert forall|i: int| 0 <= i < a + 1 implies #[trigger] s[i] == c by {
            if i > 0 {
                assert(r[i - 1] == s[i]);
            }
        }
        if a + 1 < s.len() {
            assert(r[a] == s[a + 1]);
        }
        a + 1
    } else {
        assert(s.skip(0) =~= s);
        0
    }
}

/// Making a project active marks it as the most recent, and renaming one gives it its new
/// name, without the white space around it; nothing else of it changes, nor any other project.
pub proof fn law_one_project_changes(
    s: ProjectStoreView,
    id: Seq<char>,
    name: Seq<char>,
    i: int,
)
    requires
        0 <= i < s.projects.len(),
        s.projects[i].id == id,
        forall|j: int| 0 <= j < i ==> (#[trigger] s.projects[j]).id != id,
    ensures
        ({
            let t = with_active(s, id);
            &&& t.active == id
            &&& t.seq == s.seq + 1
            &&& t.projects.len() == s.projects.len()
            &&& t.projects[i].id == id
            &&& t.projects[i].name == s.projects[i].name
            &&& t.projects[i].seq == s.seq + 1
            &&& forall|j: int|
                0 <= j < s.projects.len() && j != i ==> #[trigger] t.projects[j] == s.projects[j]
        }),
        ({
            let t = with_name(s, id, name);
            &&& t.active == s.active
            &&& t.seq == s.seq
            &&& t.projects.len() == s.projects.len()
            &&& t.projects[i].id == id
            &&& t.projects[i].name == trimmed(name)
            &&& t.projects[i].seq == s.projects[i].seq
            &&& forall|j: int|
                0 <= j < s.projects.len() && j != i ==> #[trigger] t.projects[j] == s.projects[j]
        }),
{
    let ids = project_ids(s.projects);
    assert forall|j: int| 0 <= j < i implies #[trigger] ids[j] != id by {
        assert(ids[j] == s.projects[j].id);
    }
    lemma_first_position(ids, id, i);
}

/// A project that is not there changes nothing; a blank name, a project that is not there and
/// the last one are refused, and the reason says which.
pub proof fn law_project_refusals(s: ProjectStoreView, id: Seq<char>, name: Seq<char>)
    ensures
        !knows(s, id) ==> with_active(s, id) == s && with_name(s, id, name) == s,
        trimmed(name).len() == 0 ==> rename_refusal(s, id, name) == Some("name required"@),
        trimmed(name).len() > 0 && !knows(s, id) ==> rename_refusal(s, id, name) == Some(
            "unknown project"@,
        ),
        trimmed(name).len() > 0 && knows(s, id) ==> rename_refusal(s, id, name) is None,
        s.projects.len() <= 1 ==> delete_refusal(s, id) == Some("can't delete the last project"@),
        s.projects.len() > 1 && !knows(s, id) ==> delete_refusal(s, id) == Some(
            "unknown project"@,
        ),
        s.projects.len() > 1 && knows(s, id) ==> delete_refusal(s, id) is None,
{
}

/// Deleting a project takes out what has its id and leaves the rest.
pub proof fn law_only_the_deleted_project_goes(
    s: ProjectStoreView,
    id: Seq<char>,
    p: ProjectView,
)
    ensures
        without_project(s, id).projects.contains(p) <==> s.projects.contains(p) && p.id != id,
        without_project(s, id).seq == s.seq,
{
    let keep = |p: ProjectView| p.id != id;
    let t = without_project(s, id).projects;
    if t.contains(p) {
        let i = choose|i: int| 0 <= i < t.len() && t[i] == p;
        s.projects.lemma_filter_pred(keep, i);
        s.projects.lemma_filter_contains_rev(keep, p);
    }
    if s.projects.contains(p) && p.id != id {
        let i = choose|i: int| 0 <= i < s.projects.len() && s.projects[i] == p;
        s.projects.lemma_filter_contains(keep, i);
    }
}

/// One project more comes into the list behind all that are as recent and before all that
/// are less so; the list is else as it was.
pub proof fn law_project_is_listed_in_its_place(projects: Seq<ProjectView>, p: ProjectView)
    ensures
        ({
            let (a, b) = (recent_first(projects), recent_first(projects.push(p)));
            exists|k: int|
                0 <= k < b.len() && #[trigger] b[k] == p && b.remove(k) == a && (forall|i: int|
                    0 <= i < k ==> (#[trigger] b[i]).seq >= p.seq) && (forall|i: int|
                    k < i < b.len() ==> (#[trigger] b[i]).seq < p.seq)
        }),
{
    assert(projects.push(p).drop_last() =~= projects);
    let (a, b) = (recent_first(projects), recent_first(projects.push(p)));
    let k = place_in(a, p);
    lemma_place_in(a, p);
    law_list_is_recent_first(projects);
    assert(b[k] == p);
    assert(b.remove(k) =~= a);
    assert forall|i: int| 0 <= i < k implies (#[trigger] b[i]).seq >= p.seq by {
        assert(b[i] == a[i]);
    }
    assert forall|i: int| k < i < b.len() implies (#[trigger] b[i]).seq < p.seq by {
        assert(b[i] == a[i - 1]);
        if i - 1 > k {
            assert(a[k].seq >= a[i - 1].seq);
        }
    }
}

/// The browser is shown which project is active, and of every project, in the order of the
/// list, its id and its name.
pub proof fn law_registry_is_shown(s: ProjectStoreView)
    ensures
        field(registry_json(s), "active"@) == Some(JsonView::Text(s.active)),
        field(registry_json(s), "projects"@) matches Some(JsonView::Array(list)) && list.len()
            == recent_first(s.projects).len() && forall|i: int|
            0 <= i < list.len() ==> field(#[trigger] list[i], "id"@) == Some(
                JsonView::Text(recent_first(s.projects)[i].id),
            ) && field(list[i], "name"@) == Some(JsonView::Text(recent_first(s.projects)[i].name)),
{
    reveal_strlit("active");
    reveal_strlit("projects");
    reveal_strlit("id");
    reveal_strlit("name");
    assert("active"@.len() == 6 && "projects"@.len() == 8 && "id"@.len() == 2);
    assert("name"@.len() == 4);
}

/// The most recent project is the one with the highest number, and the last of several that
/// have it; there is one wherever there are projects.
pub proof fn law_most_recent_project(projects: Seq<ProjectView>)
    ensures
        match most_recent(projects) {
            Some(p) => exists|k: int|
                0 <= k < projects.len() && #[trigger] projects[k] == p && (forall|i: int|
                    0 <= i < k ==> (#[trigger] projects[i]).seq <= p.seq) && (forall|i: int|
                    k < i < projects.len() ==> (#[trigger] projects[i]).seq < p.seq),
            None => projects.len() == 0,
        },
    decreases projects.len(),
{
    if projects.len() > 0 {
        let rest = projects.drop_last();
        law_most_recent_project(rest);
        let last = projects.len() - 1;
        assert forall|i: int| 0 <= i < last implies #[trigger] projects[i] == rest[i] by {}
        let p = most_recent(projects)->0;
        if rest.len() > 0 {
            let q = most_recent(rest)->0;
            let k = choose|k: int|
                0 <= k < rest.len() && #[trigger] rest[k] == q && (forall|i: int|
                    0 <= i < k ==> (#[trigger] rest[i]).seq <= q.seq) && (forall|i: int|
                    k < i < rest.len() ==> (#[trigger] rest[i]).seq < q.seq);
            if projects.last().seq >= q.seq {
                assert(projects[last] == p);
                assert forall|i: int| 0 <= i < last implies (#[trigger] projects[i]).seq
                    <= p.seq by {
                    if i == k {
                    } else if i < k {
                        assert(rest[i].seq <= q.seq);
                    } else {
                        assert(rest[i].seq < q.seq);
                    }
                }
            } else {
                assert(projects[k] == p);
            }
        } else {
            assert(projects[last] == p);
        }
    }
}

} // verus!

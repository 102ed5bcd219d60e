//! The local project store: a non-empty collection of working copies, one of
//! which is open, changed only by applying one command at a time.

use vstd::prelude::*;
use vstd::seq_lib::seq_to_set_is_finite;
use vstd::set_lib::{lemma_int_range, lemma_len_subset, set_int_range};

verus! {

/// A local working copy of a project.
pub struct Project {
    pub is_owned: bool,
    pub is_public: bool,
    /// The project's payload, as JSON text.
    pub data: String,
    /// Time-ordered unique id (the 128 bits of a version 7 UUID).
    pub id: u128,
    pub name: String,
    /// Creation time, in milliseconds since the Unix epoch.
    pub created_at: i64,
}

/// A change to the store. Commands are plain data, so they can be queued from
/// any thread and applied later by the owner of the store.
#[allow(inconsistent_fields)]
pub enum Msg {
    New { name: String, data: Option<String> },
    UpdateData { data: String },
    Select { id: u128 },
    Rename { name: String },
    TogglePublic,
    Delete,
}

/// Relies on uuid's `Uuid::now_v7`: a time-ordered random id, as 128 bits.
#[verifier::external_body]
fn fresh_project_id() -> (r: u128) {
    uuid::Uuid::now_v7().as_u128()
}

/// Relies on chrono's `Utc::now` and `DateTime::timestamp_millis`: the time now.
#[verifier::external_body]
fn now_millis() -> (r: i64) {
    chrono::Utc::now().timestamp_millis()
}

/// What a project holds, with its texts as character sequences.
pub struct ProjectView {
    pub is_owned: bool,
    pub is_public: bool,
    pub data: Seq<char>,
    pub id: u128,
    pub name: Seq<char>,
    pub created_at: i64,
}

impl View for Project {
    type V = ProjectView;

    open spec fn view(&self) -> ProjectView {
        ProjectView {
            is_owned: self.is_owned,
            is_public: self.is_public,
            data: self.data@,
            id: self.id,
            name: self.name@,
            created_at: self.created_at,
        }
    }
}

/// A command, with its texts as character sequences.
#[allow(inconsistent_fields)]
pub enum MsgView {
    New { name: Seq<char>, data: Option<Seq<char>> },
    UpdateData { data: Seq<char> },
    Select { id: u128 },
    Rename { name: Seq<char> },
    TogglePublic,
    Delete,
}

impl View for Msg {
    type V = MsgView;

    open spec fn view(&self) -> MsgView {
        match self {
            Msg::New { name, data } => MsgView::New {
                name: name@,
                data: match data {
                    Some(d) => Some(d@),
                    None => None,
                },
            },
            Msg::UpdateData { data } => MsgView::UpdateData { data: data@ },
            Msg::Select { id } => MsgView::Select { id: *id },
            Msg::Rename { name } => MsgView::Rename { name: name@ },
            Msg::TogglePublic => MsgView::TogglePublic,
            Msg::Delete => MsgView::Delete,
        }
    }
}

/// The name given to projects that nobody has named.
pub open spec fn unnamed() -> Seq<char> {
    seq!['U', 'n', 'n', 'a', 'm', 'e', 'd']
}

/// A project freshly made by the store: owned, private, and with an empty
/// payload unless one is given.
pub open spec fn new_project(name: Seq<char>, data: Option<Seq<char>>, id: u128, now: i64) -> ProjectView {
    ProjectView {
        is_owned: true,
        is_public: false,
        data: match data {
            Some(d) => d,
            None => Seq::empty(),
        },
        id,
        name,
        created_at: now,
    }
}

pub open spec fn has_id(ps: Seq<ProjectView>, id: u128) -> bool {
    exists|i: int| 0 <= i < ps.len() && ps[i].id == id
}

/// `i` is the first position in `ps` that holds `id`.
pub open spec fn is_first(ps: Seq<ProjectView>, id: u128, i: int) -> bool {
    &&& 0 <= i < ps.len()
    &&& ps[i].id == id
    &&& forall|j: int| 0 <= j < i ==> ps[j].id != id
}

/// The first position in `ps` that holds `id`.
pub open spec fn position(ps: Seq<ProjectView>, id: u128) -> int {
    choose|i: int| is_first(ps, id, i)
}

/// The store is never empty, and its open id names one of its projects.
pub open spec fn well_formed(ps: Seq<ProjectView>, open: u128) -> bool {
    ps.len() > 0 && has_id(ps, open)
}

/// The projects of `ps` whose id is not `id`, in their order.
pub open spec fn without(ps: Seq<ProjectView>, id: u128) -> Seq<ProjectView>
    decreases ps.len(),
{
    if ps.len() == 0 {
        ps
    } else {
        let rest = without(ps.drop_last(), id);
        if ps.last().id == id {
            rest
        } else {
            rest.push(ps.last())
        }
    }
}

/// The store after one command: its projects and its open id. `fresh` and
/// `now` are the id and the time that a project made by the command gets.
pub open spec fn step(ps: Seq<ProjectView>, open: u128, msg: MsgView, fresh: u128, now: i64) -> (Seq<ProjectView>, u128) {
    let i = position(ps, open);
    let cur = ps[i];
    match msg {
        MsgView::New { name, data } => (ps.push(new_project(name, data, fresh, now)), fresh),
        MsgView::UpdateData { data } => (ps.update(i, ProjectView { data, ..cur }), open),
        MsgView::Select { id } => if has_id(ps, id) {
            (ps, id)
        } else {
            (ps, open)
        },
        MsgView::Rename { name } => (ps.update(i, ProjectView { name, ..cur }), open),
        MsgView::TogglePublic => (ps.update(i, ProjectView { is_public: !cur.is_public, ..cur }), open),
        MsgView::Delete => {
            let rest = without(ps, open);
            if rest.len() > 0 {
                (rest, rest[0].id)
            } else {
                (seq![new_project(unnamed(), None, fresh, now)], fresh)
            }
        },
    }
}

/// The store after `msgs`, applied in order; `stamps` gives the id and the
/// time for each command in turn.
pub open spec fn run(ps: Seq<ProjectView>, open: u128, msgs: Seq<MsgView>, stamps: Seq<(u128, i64)>) -> (Seq<ProjectView>, u128)
    decreases msgs.len(),
{
    if msgs.len() == 0 || stamps.len() == 0 {
        (ps, open)
    } else {
        let next = step(ps, open, msgs[0], stamps[0].0, stamps[0].1);
        run(next.0, next.1, msgs.drop_first(), stamps.drop_first())
    }
}

proof fn lemma_run_snoc(
    ps: Seq<ProjectView>,
    open: u128,
    msgs: Seq<MsgView>,
    stamps: Seq<(u128, i64)>,
    m: MsgView,
    st: (u128, i64),
)
    requires
        stamps.len() == msgs.len(),
    ensures
        run(ps, open, msgs.push(m), stamps.push(st)) == ({
            let r = run(ps, open, msgs, stamps);
            step(r.0, r.1, m, st.0, st.1)
        }),
    decreases msgs.len(),
{
    if msgs.len() > 0 {
        let next = step(ps, open, msgs[0], stamps[0].0, stamps[0].1);
        assert(msgs.push(m).drop_first() =~= msgs.drop_first().push(m));
        assert(stamps.push(st).drop_first() =~= stamps.drop_first().push(st));
        lemma_run_snoc(next.0, next.1, msgs.drop_first(), stamps.drop_first(), m, st);
    } else {
        let m1 = msgs.push(m);
        let s1 = stamps.push(st);
        assert(m1.drop_first().len() == 0);
        assert(run(step(ps, open, m, st.0, st.1).0, step(ps, open, m, st.0, st.1).1, m1.drop_first(), s1.drop_first())
            == step(ps, open, m, st.0, st.1));
    }
}

proof fn lemma_first_exists(ps: Seq<ProjectView>, id: u128, i: int)
    requires
        0 <= i < ps.len(),
        ps[i].id == id,
    ensures
        is_first(ps, id, position(ps, id)),
    decreases i,
{
    if exists|j: int| 0 <= j < i && ps[j].id == id {
        let j = choose|j: int| 0 <= j < i && ps[j].id == id;
        lemma_first_exists(ps, id, j);
    } else {
        assert(is_first(ps, id, i));
    }
}

proof fn lemma_first_unique(ps: Seq<ProjectView>, id: u128, i: int)
    requires
        is_first(ps, id, i),
    ensures
        position(ps, id) == i,
{
    lemma_first_exists(ps, id, i);
    let k = position(ps, id);
    if k < i {
        assert(ps[k].id != id);
    } else if k > i {
        assert(ps[i].id != id);
    }
}

/// Every command keeps the store non-empty, with its open id naming one of
/// its projects.
pub proof fn lemma_step_keeps_well_formed(ps: Seq<ProjectView>, open: u128, msg: MsgView, fresh: u128, now: i64)
    requires
        well_formed(ps, open),
    ensures
        well_formed(step(ps, open, msg, fresh, now).0, step(ps, open, msg, fresh, now).1),
{
    let w = choose|w: int| 0 <= w < ps.len() && ps[w].id == open;
    lemma_first_exists(ps, open, w);
    let i = position(ps, open);
    let r = step(ps, open, msg, fresh, now);
    match msg {
        MsgView::New { name, data } => {
            assert(r.0[ps.len() as int].id == fresh);
        },
        MsgView::Select { id } => {},
        MsgView::Delete => {
            let rest = without(ps, open);
            if rest.len() > 0 {
                assert(r.0[0].id == r.1);
            } else {
                assert(r.0[0].id == fresh);
            }
        },
        _ => {
            assert(r.0[i].id == open);
        },
    }
}

/// Whatever commands are applied, in whatever order, the store stays
/// non-empty and its open id names one of its projects.
pub proof fn lemma_run_keeps_well_formed(ps: Seq<ProjectView>, open: u128, msgs: Seq<MsgView>, stamps: Seq<(u128, i64)>)
    requires
        well_formed(ps, open),
    ensures
        well_formed(run(ps, open, msgs, stamps).0, run(ps, open, msgs, stamps).1),
    decreases msgs.len(),
{
    if msgs.len() > 0 && stamps.len() > 0 {
        lemma_step_keeps_well_formed(ps, open, msgs[0], stamps[0].0, stamps[0].1);
        let next = step(ps, open, msgs[0], stamps[0].0, stamps[0].1);
        lemma_run_keeps_well_formed(next.0, next.1, msgs.drop_first(), stamps.drop_first());
    }
}

/// Deleting the only project leaves exactly one project, a fresh default
/// one, open, under an id other than the deleted one's. The new id is one
/// that no project of the store had, as `apply_update` ensures.
pub proof fn lemma_delete_last_makes_default(ps: Seq<ProjectView>, open: u128, fresh: u128, now: i64)
    requires
        well_formed(ps, open),
        ps.len() == 1,
        !has_id(ps, fresh),
    ensures
        step(ps, open, MsgView::Delete, fresh, now).0.len() == 1,
        step(ps, open, MsgView::Delete, fresh, now).1 != open,
        step(ps, open, MsgView::Delete, fresh, now).0[0] == new_project(unnamed(), None, fresh, now),
        step(ps, open, MsgView::Delete, fresh, now).1 == fresh,
{
    assert(ps[0].id == open);
    if fresh == open {
        assert(has_id(ps, fresh));
    }
    assert(without(ps.drop_last(), open).len() == 0);
    assert(without(ps, open).len() == 0);
}

/// No two projects share an id.
pub open spec fn distinct_ids(ps: Seq<ProjectView>) -> bool {
    forall|i: int, j: int| 0 <= i < ps.len() && 0 <= j < ps.len() && i != j ==> ps[i].id != ps[j].id
}

/// Every id in `ps` is at most `last`.
pub open spec fn ids_at_most(ps: Seq<ProjectView>, last: u128) -> bool {
    forall|i: int| 0 <= i < ps.len() ==> ps[i].id <= last
}

proof fn lemma_without_keeps(ps: Seq<ProjectView>, id: u128)
    requires
        distinct_ids(ps),
    ensures
        distinct_ids(without(ps, id)),
        forall|k: int| 0 <= k < without(ps, id).len() ==> exists|j: int| 0 <= j < ps.len() && #[trigger] without(ps, id)[k] == ps[j],
    decreases ps.len(),
{
    if ps.len() > 0 {
        let d = ps.drop_last();
        lemma_without_keeps(d, id);
        let rest = without(d, id);
        if ps.last().id != id {
            assert forall|k: int| 0 <= k < rest.len() implies rest[k].id != ps.last().id by {
                let j = choose|j: int| 0 <= j < d.len() && rest[k] == d[j];
                assert(ps[j] == d[j]);
            }
            assert forall|k: int| 0 <= k < rest.push(ps.last()).len() implies exists|j: int| 0 <= j < ps.len() && #[trigger] rest.push(ps.last())[k] == ps[j] by {
                if k < rest.len() {
                    let j = choose|j: int| 0 <= j < d.len() && rest[k] == d[j];
                    assert(rest.push(ps.last())[k] == ps[j]);
                } else {
                    assert(rest.push(ps.last())[k] == ps[ps.len() - 1]);
                }
            }
        } else {
            assert forall|k: int| 0 <= k < rest.len() implies exists|j: int| 0 <= j < ps.len() && #[trigger] rest[k] == ps[j] by {
                let j = choose|j: int| 0 <= j < d.len() && rest[k] == d[j];
                assert(rest[k] == ps[j]);
            }
        }
    }
}

/// A command whose new project gets an id not yet in the store keeps the
/// ids distinct, and bounded by the largest id handed out.
pub proof fn lemma_step_keeps_ids_distinct(ps: Seq<ProjectView>, open: u128, msg: MsgView, fresh: u128, now: i64, last: u128)
    requires
        well_formed(ps, open),
        distinct_ids(ps),
        ids_at_most(ps, last),
        !has_id(ps, fresh),
    ensures
        distinct_ids(step(ps, open, msg, fresh, now).0),
        ids_at_most(step(ps, open, msg, fresh, now).0, if fresh > last { fresh } else { last }),
{
    let w = choose|w: int| 0 <= w < ps.len() && ps[w].id == open;
    lemma_first_exists(ps, open, w);
    let i = position(ps, open);
    let r = step(ps, open, msg, fresh, now);
    match msg {
        MsgView::New { name, data } => {
            assert forall|k: int| 0 <= k < ps.len() implies ps[k].id != fresh by {
                if ps[k].id == fresh {
                    assert(has_id(ps, fresh));
                }
            }
            assert(r.0[ps.len() as int].id == fresh);
            assert forall|k: int| 0 <= k < ps.len() implies r.0[k] == ps[k] by {}
        },
        MsgView::Select { id } => {},
        MsgView::Delete => {
            lemma_without_keeps(ps, open);
            let rest = without(ps, open);
            if rest.len() > 0 {
                assert forall|k: int| 0 <= k < rest.len() implies rest[k].id <= last by {
                    let j = choose|j: int| 0 <= j < ps.len() && rest[k] == ps[j];
                }
            }
        },
        _ => {
            assert forall|k: int| 0 <= k < ps.len() implies r.0[k].id == ps[k].id by {}
        },
    }
}

/// The local projects, the id of the open one, and whether their window is
/// shown.
pub struct Projects {
    projects: Vec<Project>,
    open_project: u128,
    window_open: bool,
    /// The largest id handed to a new project so far.
    last_issued: u128,
}

pub open spec fn msg_views(ms: Seq<Msg>) -> Seq<MsgView> {
    ms.map_values(|m: Msg| m@)
}

pub open spec fn views(ps: Seq<Project>) -> Seq<ProjectView> {
    ps.map_values(|p: Project| p@)
}

impl Projects {
    /// The projects, in order of insertion.
    pub closed spec fn items(&self) -> Seq<ProjectView> {
        views(self.projects@)
    }

    /// The id of the open project.
    pub closed spec fn open_id(&self) -> u128 {
        self.open_project
    }

    pub closed spec fn shows_window(&self) -> bool {
        self.window_open
    }

    /// The largest id handed to a new project so far.
    pub closed spec fn last_issued(&self) -> u128 {
        self.last_issued
    }

    /// Non-empty, with a valid open id; ids distinct and none above the
    /// largest one handed out.
    pub open spec fn wf(&self) -> bool {
        &&& well_formed(self.items(), self.open_id())
        &&& distinct_ids(self.items())
        &&& ids_at_most(self.items(), self.last_issued())
    }

    /// A store that holds one fresh "Unnamed" project, open, with its window
    /// shown.
    pub fn new() -> (r: Self)
        ensures
            r.wf(),
            r.items().len() == 1,
            r.items()[0] == new_project(unnamed(), None, r.open_id(), r.items()[0].created_at),
            r.shows_window(),
    {
        let id = fresh_project_id();
        let now = now_millis();
        let name = String::from_str("Unnamed");
        proof {
            reveal_strlit("Unnamed");
            assert(name@ =~= unnamed());
        }
        let p = Self::make_project(name, None, id, now);
        let r = Projects { projects: vec![p], open_project: id, window_open: true, last_issued: id };
        proof {
            assert(r.items()[0].id == id);
            assert(r.items()[0] == new_project(unnamed(), None, id, now));
        }
        r
    }

    fn make_project(name: String, data: Option<String>, id: u128, now: i64) -> (r: Project)
        ensures
            r@ == new_project(name@, match data {
                Some(d) => Some(d@),
                None => None,
            }, id, now),
    {
        let data = match data {
            Some(d) => d,
            None => String::new(),
        };
        Project { is_owned: true, is_public: false, data, id, name, created_at: now }
    }

    /// The projects, in order of insertion.
    pub fn projects(&self) -> (r: &Vec<Project>)
        ensures
            views(r@) == self.items(),
    {
        &self.projects
    }

    /// The id of the open project.
    pub fn open_project(&self) -> (r: u128)
        ensures
            r == self.open_id(),
    {
        self.open_project
    }

    pub fn window_open(&self) -> (r: bool)
        ensures
            r == self.shows_window(),
    {
        self.window_open
    }

    /// Shows the window if it is hidden, and hides it if it is shown.
    pub fn show_toggle(&mut self)
        ensures
            final(self).shows_window() == !old(self).shows_window(),
            final(self).items() == old(self).items(),
            final(self).open_id() == old(self).open_id(),
    {
        self.window_open = !self.window_open;
    }

    /// Whether a project has the id `id`.
    pub fn has_project(&self, id: u128) -> (r: bool)
        ensures
            r == has_id(self.items(), id),
    {
        let mut i: usize = 0;
        while i < self.projects.len()
            invariant
                forall|j: int| 0 <= j < i ==> self.items()[j].id != id,
            decreases self.projects.len() - i,
        {
            if self.projects[i].id == id {
                proof {
                    assert(self.items()[i as int].id == id);
                }
                return true;
            }
            i = i + 1;
        }
        false
    }

    /// The first position that holds the open id.
    fn find_open(&self) -> (i: usize)
        requires
            self.wf(),
        ensures
            is_first(self.items(), self.open_id(), i as int),
            i as int == position(self.items(), self.open_id()),
    {
        let ghost w = choose|w: int| 0 <= w < self.items().len() && self.items()[w].id == self.open_id();
        let mut i: usize = 0;
        while i < self.projects.len()
            invariant
                self.wf(),
                0 <= w < self.items().len(),
                self.items()[w].id == self.open_id(),
                i <= w,
                forall|j: int| 0 <= j < i ==> self.items()[j].id != self.open_id(),
            decreases self.projects.len() - i,
        {
            if self.projects[i].id == self.open_project {
                proof {
                    lemma_first_unique(self.items(), self.open_id(), i as int);
                }
                return i;
            }
            i = i + 1;
        }
        proof {
            assert(false);
        }
        0
    }

    /// Removes every project under the open id, keeping the order of the rest.
    fn remove_open(&mut self)
        ensures
            final(self).items() == without(old(self).items(), old(self).open_id()),
            final(self).open_id() == old(self).open_id(),
            final(self).last_issued() == old(self).last_issued(),
            final(self).shows_window() == old(self).shows_window(),
    {
        let ghost orig = self.projects@;
        let ghost open = self.open_project;
        let mut kept: Vec<Project> = Vec::new();
        let ghost mut k: int = 0;
        while self.projects.len() > 0
            invariant
                0 <= k <= orig.len(),
                self.projects@ == orig.skip(k),
                views(kept@) == without(views(orig.take(k)), open),
                self.open_project == open,
                self.window_open == old(self).window_open,
                self.last_issued == old(self).last_issued,
                orig == old(self).projects@,
                open == old(self).open_project,
            decreases self.projects.len(),
        {
            let p = self.projects.remove(0);
            proof {
                assert(p == orig[k]);
                let t = views(orig.take(k + 1));
                assert(t.drop_last() =~= views(orig.take(k)));
                assert(t.last() == p@);
            }
            if p.id != self.open_project {
                kept.push(p);
                proof {
                    assert(views(kept@) =~= without(views(orig.take(k)), open).push(p@));
                }
            }
            proof {
                k = k + 1;
                assert(self.projects@ =~= orig.skip(k));
            }
        }
        proof {
            assert(orig.take(k) =~= orig);
        }
        self.projects = kept;
    }

    /// Applies one command. `fresh` and `now` are the id and the time that a
    /// project made by the command gets.
    pub fn apply_with(&mut self, msg: Msg, fresh: u128, now: i64)
        requires
            old(self).wf(),
            !has_id(old(self).items(), fresh),
        ensures
            final(self).wf(),
            final(self).last_issued() == match msg@ {
                MsgView::New { .. } | MsgView::Delete => if fresh > old(self).last_issued() {
                    fresh
                } else {
                    old(self).last_issued()
                },
                _ => old(self).last_issued(),
            },
            (final(self).items(), final(self).open_id()) == step(old(self).items(), old(self).open_id(), msg@, fresh, now),
            final(self).shows_window() == old(self).shows_window(),
    {
        proof {
            lemma_step_keeps_well_formed(self.items(), self.open_id(), msg@, fresh, now);
            lemma_step_keeps_ids_distinct(self.items(), self.open_id(), msg@, fresh, now, self.last_issued());
        }
        let makes_project = match &msg {
            Msg::New { .. } | Msg::Delete => true,
            _ => false,
        };
        if makes_project && fresh > self.last_issued {
            self.last_issued = fresh;
        }
        let ghost ps = self.items();
        match msg {
            Msg::New { name, data } => {
                let p = Self::make_project(name, data, fresh, now);
                self.projects.push(p);
                self.open_project = fresh;
                proof {
                    assert(self.items() =~= ps.push(p@));
                }
            },
            Msg::UpdateData { data } => {
                let i = self.find_open();
                let mut p = self.projects.remove(i);
                p.data = data;
                self.projects.insert(i, p);
                proof {
                    assert(self.items() =~= ps.update(i as int, p@));
                }
            },
            Msg::Select { id } => {
                if self.has_project(id) {
                    self.open_project = id;
                }
            },
            Msg::Rename { name } => {
                let i = self.find_open();
                let mut p = self.projects.remove(i);
                p.name = name;
                self.projects.insert(i, p);
                proof {
                    assert(self.items() =~= ps.update(i as int, p@));
                }
            },
            Msg::TogglePublic => {
                let i = self.find_open();
                let mut p = self.projects.remove(i);
                p.is_public = !p.is_public;
                self.projects.insert(i, p);
                proof {
                    assert(self.items() =~= ps.update(i as int, p@));
                }
            },
            Msg::Delete => {
                self.remove_open();
                if self.projects.len() > 0 {
                    self.open_project = self.projects[0].id;
                } else {
                    let name = String::from_str("Unnamed");
                    proof {
                        reveal_strlit("Unnamed");
                        assert(name@ =~= unnamed());
                    }
                    let p = Self::make_project(name, None, fresh, now);
                    self.projects.push(p);
                    self.open_project = fresh;
                    proof {
                        assert(self.items() =~= seq![p@]);
                    }
                }
            },
        }
    }

    /// An id for a new project that no project has: the drawn one when it
    /// is above every id handed out so far, else the next one up. Only once
    /// the top of the id space has been handed out, the smallest unused id.
    fn issue_id(&self, drawn: u128) -> (r: u128)
        requires
            self.wf(),
        ensures
            !has_id(self.items(), r),
            self.last_issued() < u128::MAX ==> r > self.last_issued(),
    {
        if self.last_issued < u128::MAX {
            let r = if drawn > self.last_issued { drawn } else { self.last_issued + 1 };
            proof {
                if has_id(self.items(), r) {
                    let i = choose|i: int| 0 <= i < self.items().len() && self.items()[i].id == r;
                }
            }
            r
        } else {
            let ghost ids = self.items().map_values(|p: ProjectView| p.id as int);
            let n = self.projects.len();
            let mut c: u128 = 0;
            while self.has_project(c)
                invariant
                    self.items().len() == n,
                    self.wf(),
                    ids == self.items().map_values(|p: ProjectView| p.id as int),
                    c <= self.items().len(),
                    forall|k: int| 0 <= k < c ==> #[trigger] ids.to_set().contains(k),
                decreases self.items().len() - c,
            {
                proof {
                    let i = choose|i: int| 0 <= i < self.items().len() && self.items()[i].id == c;
                    assert(ids[i] == c as int);
                    assert(ids.contains(c as int));
                    assert forall|k: int| set_int_range(0, c + 1).contains(k) implies ids.to_set().contains(k) by {
                        if k == c {
                            assert(ids.contains(k));
                        }
                    }
                    lemma_int_range(0, c + 1);
                    seq_to_set_is_finite(ids);
                    lemma_len_subset(set_int_range(0, c + 1), ids.to_set());
                    ids.lemma_cardinality_of_set();
                    assert(c + 1 <= n);
                }
                c = c + 1;
            }
            c
        }
    }

    /// Applies one command. A project that it makes gets the time now and
    /// an id that no project of the store holds. While the id space is not
    /// used up, that id is also above every id handed out before, so no id
    /// is ever reused.
    pub fn apply_update(&mut self, msg: Msg)
        requires
            old(self).wf(),
        ensures
            final(self).wf(),
            exists|st: (u128, i64)|
                (final(self).items(), final(self).open_id()) == #[trigger] step(old(self).items(), old(self).open_id(), msg@, st.0, st.1)
                && !has_id(old(self).items(), st.0)
                && (old(self).last_issued() < u128::MAX ==> st.0 > old(self).last_issued()),
            final(self).last_issued() >= old(self).last_issued(),
            final(self).shows_window() == old(self).shows_window(),
    {
        let makes_project = match &msg {
            Msg::New { .. } | Msg::Delete => true,
            _ => false,
        };
        let (drawn, now) = if makes_project {
            (fresh_project_id(), now_millis())
        } else {
            (0u128, 0i64)
        };
        let fresh = self.issue_id(drawn);
        self.apply_with(msg, fresh, now);
        proof {
            let st = (fresh, now);
            assert((self.items(), self.open_id()) == step(old(self).items(), old(self).open_id(), msg@, st.0, st.1));
        }
    }

    /// Applies the commands in the order given, as one drain of the queue.
    pub fn apply_all(&mut self, msgs: Vec<Msg>)
        requires
            old(self).wf(),
        ensures
            final(self).wf(),
            exists|stamps: Seq<(u128, i64)>|
                stamps.len() == msgs@.len() && (final(self).items(), final(self).open_id()) == #[trigger] run(
                    old(self).items(),
                    old(self).open_id(),
                    msg_views(msgs@),
                    stamps,
                ),
            final(self).shows_window() == old(self).shows_window(),
    {
        let ghost all = msg_views(msgs@);
        let ghost ps0 = self.items();
        let ghost open0 = self.open_id();
        let ghost mut stamps: Seq<(u128, i64)> = Seq::empty();
        let ghost mut k: int = 0;
        let mut msgs = msgs;
        while msgs.len() > 0
            invariant
                self.wf(),
                0 <= k <= all.len(),
                msg_views(msgs@) == all.skip(k),
                stamps.len() == k,
                (self.items(), self.open_id()) == run(ps0, open0, all.take(k), stamps),
                self.shows_window() == old(self).shows_window(),
            decreases msgs.len(),
        {
            proof {
                assert(msg_views(msgs@).len() == msgs@.len());
                assert(msg_views(msgs@)[0] == msgs@[0]@);
                assert(all.skip(k)[0] == all[k]);
            }
            let ghost rest = msgs@.drop_first();
            let ghost prev = msgs@;
            let msg = msgs.remove(0);
            proof {
                assert(msg@ == all[k]);
                assert(msgs@ == rest);
            }
            let ghost before = (self.items(), self.open_id());
            self.apply_update(msg);
            proof {
                let st = choose|st: (u128, i64)|
                    (self.items(), self.open_id()) == step(before.0, before.1, all[k], st.0, st.1);
                assert((self.items(), self.open_id()) == step(before.0, before.1, all[k], st.0, st.1));
                lemma_run_snoc(ps0, open0, all.take(k), stamps, all[k], st);
                assert(all.take(k).push(all[k]) =~= all.take(k + 1));
                stamps = stamps.push(st);
                k = k + 1;
                assert(msg_views(msgs@) =~= all.skip(k)) by {
                    assert forall|j: int| 0 <= j < msgs@.len() implies msg_views(msgs@)[j] == all.skip(k)[j] by {
                        assert(msg_views(msgs@)[j] == msgs@[j]@);
                        assert(msgs@[j] == prev[j + 1]);
                        assert(msg_views(prev)[j + 1] == prev[j + 1]@);
                    }
                }
            }
        }
        proof {
            assert(all.take(k) =~= all);
        }
    }

    /// The open project.
    pub fn current(&self) -> (r: &Project)
        requires
            self.wf(),
        ensures
            r@ == self.items()[position(self.items(), self.open_id())],
    {
        let i = self.find_open();
        &self.projects[i]
    }
}

} // verus!

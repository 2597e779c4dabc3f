//! Bookkeeping for a set of named tasks.
//!
//! A task set hands back finished tasks by their task id; this map keeps the
//! name each task was spawned under, and the abort handle of the latest task
//! spawned under each name. When a task finishes, its name is looked up by
//! id and both entries are dropped.
use vstd::prelude::*;
use tokio::task::{AbortHandle, Id};

verus! {

/// The id tokio gives a task.
#[verifier::external_type_specification]
#[verifier::external_body]
pub struct ExTaskId(Id);

/// A handle that aborts a tokio task.
#[verifier::external_type_specification]
#[verifier::external_body]
pub struct ExAbortHandle(AbortHandle);

/// `tokio::task::Id`'s `==`. Its `PartialEq` is derived over the one number
/// the id holds, so two ids compare equal exactly when they are the same
/// value.
#[verifier::external_body]
fn same_task(a: &Id, b: &Id) -> (r: bool)
    ensures
        r == (*a == *b),
{
    *a == *b
}

/// Names and abort handles of the tasks in a task set.
pub struct JoinMap {
    /// The name of each task, by task id.
    name_map: Vec<(Id, String)>,
    /// The abort handle of the latest task spawned under each name.
    handle_map: Vec<(String, AbortHandle)>,
}

/// `id` occurs as a key of `v`.
pub open spec fn has_id(v: Seq<(Id, String)>, id: Id) -> bool {
    exists|i: int| 0 <= i < v.len() && (#[trigger] v[i]).0 == id
}

/// `name` occurs as a key of `v`.
pub open spec fn has_name(v: Seq<(String, AbortHandle)>, name: Seq<char>) -> bool {
    exists|i: int| 0 <= i < v.len() && (#[trigger] v[i]).0@ == name
}

/// The names of `v` as a map from task id.
pub open spec fn names_view(v: Seq<(Id, String)>) -> Map<Id, Seq<char>> {
    Map::new(
        |id: Id| has_id(v, id),
        |id: Id| v[choose|i: int| 0 <= i < v.len() && (#[trigger] v[i]).0 == id].1@,
    )
}

/// The handles of `v` as a map from name.
pub open spec fn handles_view(v: Seq<(String, AbortHandle)>) -> Map<Seq<char>, AbortHandle> {
    Map::new(
        |name: Seq<char>| has_name(v, name),
        |name: Seq<char>| v[choose|i: int| 0 <= i < v.len() && (#[trigger] v[i]).0@ == name].1,
    )
}

/// No task id occurs twice.
pub open spec fn ids_unique(v: Seq<(Id, String)>) -> bool {
    forall|i: int, k: int| 0 <= i < k < v.len() ==> (#[trigger] v[i]).0 != (#[trigger] v[k]).0
}

/// No name occurs twice.
pub open spec fn names_unique(v: Seq<(String, AbortHandle)>) -> bool {
    forall|i: int, k: int| 0 <= i < k < v.len() ==> (#[trigger] v[i]).0@ != (#[trigger] v[k]).0@
}

/// In a map without repeated keys, the entry found for a key is the one at
/// any position holding it.
proof fn lemma_name_at(v: Seq<(Id, String)>, i: int)
    requires
        ids_unique(v),
        0 <= i < v.len(),
    ensures
        names_view(v).contains_key(v[i].0),
        names_view(v)[v[i].0] == v[i].1@,
{
    let k = choose|k: int| 0 <= k < v.len() && (#[trigger] v[k]).0 == v[i].0;
    if k != i {
        if k < i {
            assert(v[k].0 != v[i].0);
        } else {
            assert(v[i].0 != v[k].0);
        }
    }
}

/// The handle found for a name is the one at any position holding it.
proof fn lemma_handle_at(v: Seq<(String, AbortHandle)>, i: int)
    requires
        names_unique(v),
        0 <= i < v.len(),
    ensures
        handles_view(v).contains_key(v[i].0@),
        handles_view(v)[v[i].0@] == v[i].1,
{
    let k = choose|k: int| 0 <= k < v.len() && (#[trigger] v[k]).0@ == v[i].0@;
    if k != i {
        if k < i {
            assert(v[k].0@ != v[i].0@);
        } else {
            assert(v[i].0@ != v[k].0@);
        }
    }
}

/// Where `id` is held: its position in `v`.
fn position_of_id(v: &Vec<(Id, String)>, id: &Id) -> (r: Option<usize>)
    ensures
        match r {
            Some(i) => i < v@.len() && v@[i as int].0 == *id,
            None => !has_id(v@, *id),
        },
{
    let mut i: usize = 0;
    while i < v.len()
        invariant
            i <= v@.len(),
            forall|k: int| 0 <= k < i ==> (#[trigger] v@[k]).0 != *id,
        decreases v@.len() - i,
    {
        if same_task(&v[i].0, id) {
            return Some(i);
        }
        i = i + 1;
    }
    None
}

/// Where `name` is held: its position in `v`.
fn position_of_name(v: &Vec<(String, AbortHandle)>, name: &String) -> (r: Option<usize>)
    ensures
        match r {
            Some(i) => i < v@.len() && v@[i as int].0@ == name@,
            None => !has_name(v@, name@),
        },
{
    let mut i: usize = 0;
    while i < v.len()
        invariant
            i <= v@.len(),
            forall|k: int| 0 <= k < i ==> (#[trigger] v@[k]).0@ != name@,
        decreases v@.len() - i,
    {
        if v[i].0 == *name {
            return Some(i);
        }
        i = i + 1;
    }
    None
}

impl JoinMap {
    /// The name of each tracked task, by task id.
    pub closed spec fn names(&self) -> Map<Id, Seq<char>> {
        names_view(self.name_map@)
    }

    /// The abort handle kept for each name.
    pub closed spec fn handles(&self) -> Map<Seq<char>, AbortHandle> {
        handles_view(self.handle_map@)
    }

    /// No key twice in either map.
    pub closed spec fn wf(&self) -> bool {
        &&& ids_unique(self.name_map@)
        &&& names_unique(self.handle_map@)
    }

    /// An empty map.
    pub fn new() -> (m: JoinMap)
        ensures
            m.wf(),
            m.names().dom().finite(),
            m.handles().dom().finite(),
            m.names() == Map::<Id, Seq<char>>::empty(),
            m.handles() == Map::<Seq<char>, AbortHandle>::empty(),
    {
        let m = JoinMap { name_map: Vec::new(), handle_map: Vec::new() };
        assert(m.names() =~= Map::<Id, Seq<char>>::empty());
        assert(m.handles() =~= Map::<Seq<char>, AbortHandle>::empty());
        proof {
            m.lemma_maps_finite();
        }
        m
    }

    /// The number of tracked tasks.
    pub fn len(&self) -> (n: usize)
        requires
            self.wf(),
        ensures
            n == self.names().len(),
    {
        proof {
            self.lemma_names_len();
        }
        self.name_map.len()
    }

    /// Whether no task is tracked.
    pub fn is_empty(&self) -> (r: bool)
        requires
            self.wf(),
        ensures
            r == (self.names().len() == 0),
    {
        proof {
            self.lemma_names_len();
        }
        self.name_map.len() == 0
    }

    /// The map tracks as many tasks as it holds entries.
    proof fn lemma_names_len(&self)
        requires
            ids_unique(self.name_map@),
        ensures
            self.names().dom().finite(),
            self.names().len() == self.name_map@.len(),
    {
        lemma_names_len_seq(self.name_map@);
    }

    /// A well-formed map tracks finitely many tasks and keeps finitely many
    /// handles.
    pub proof fn lemma_maps_finite(&self)
        requires
            self.wf(),
        ensures
            self.names().dom().finite(),
            self.handles().dom().finite(),
    {
        lemma_names_len_seq(self.name_map@);
        lemma_handles_len_seq(self.handle_map@);
    }

    /// Records the task `id`, spawned under `name` with abort handle
    /// `handle`. Gives back the name `id` had before and the handle `name`
    /// had before, if any (either means the two maps were out of step).
    pub fn record_spawn(&mut self, id: Id, name: &str, handle: AbortHandle) -> (displaced: (
        Option<String>,
        Option<AbortHandle>,
    ))
        requires
            old(self).wf(),
        ensures
            final(self).wf(),
            final(self).names().dom().finite(),
            final(self).handles().dom().finite(),
            final(self).names().len() == if old(self).names().contains_key(id) {
                old(self).names().len()
            } else {
                old(self).names().len() + 1
            },
            final(self).handles().len() == if old(self).handles().contains_key(name@) {
                old(self).handles().len()
            } else {
                old(self).handles().len() + 1
            },
            final(self).names() == old(self).names().insert(id, name@),
            final(self).handles() == old(self).handles().insert(name@, handle),
            match displaced.0 {
                Some(n) => old(self).names().contains_key(id) && n@ == old(self).names()[id],
                None => !old(self).names().contains_key(id),
            },
            match displaced.1 {
                Some(h) => old(self).handles().contains_key(name@) && h == old(self).handles()[name@],
                None => !old(self).handles().contains_key(name@),
            },
    {
        let ghost old_names = self.name_map@;
        let ghost old_handles = self.handle_map@;
        let ghost pre = *self;
        let name_owned: String = name.to_owned();
        let old_name = match position_of_id(&self.name_map, &id) {
            Some(i) => {
                proof {
                    lemma_name_at(old_names, i as int);
                }
                let (_, prev) = self.name_map.remove(i);
                self.name_map.push((id, name.to_owned()));
                assert(self.name_map@.drop_last() =~= old_names.remove(i as int));
                Some(prev)
            },
            None => {
                self.name_map.push((id, name.to_owned()));
                assert(self.name_map@.drop_last() =~= old_names);
                None
            },
        };
        let old_handle = match position_of_name(&self.handle_map, &name_owned) {
            Some(i) => {
                proof {
                    lemma_handle_at(old_handles, i as int);
                }
                let (_, prev) = self.handle_map.remove(i);
                self.handle_map.push((name_owned, handle));
                assert(self.handle_map@.drop_last() =~= old_handles.remove(i as int));
                Some(prev)
            },
            None => {
                self.handle_map.push((name_owned, handle));
                assert(self.handle_map@.drop_last() =~= old_handles);
                None
            },
        };
        proof {
            lemma_names_after_replace(old_names, self.name_map@, id, name@);
            lemma_handles_after_replace(old_handles, self.handle_map@, name@, handle);
            lemma_names_len_seq(old_names);
            lemma_names_len_seq(self.name_map@);
            lemma_handles_len_seq(old_handles);
            lemma_handles_len_seq(self.handle_map@);
            assert(self.names() == pre.names().insert(id, name@));
            assert(self.handles() == pre.handles().insert(name@, handle));
        }
        (old_name, old_handle)
    }

    /// Settles the task `id` that the task set has just handed back: gives
    /// back the name it was spawned under and drops its entries, or `None`
    /// when the map does not track `id` (the maps are then out of step).
    pub fn record_join(&mut self, id: &Id) -> (name: Option<String>)
        requires
            old(self).wf(),
        ensures
            final(self).wf(),
            final(self).names().dom().finite(),
            final(self).handles().dom().finite(),
            match name {
                Some(n) => {
                    &&& final(self).names().len() + 1 == old(self).names().len()
                    &&& final(self).handles().len() + (if old(self).handles().contains_key(n@) {
                        1int
                    } else {
                        0int
                    }) == old(self).handles().len()
                    &&& old(self).names().contains_key(*id)
                    &&& n@ == old(self).names()[*id]
                    &&& final(self).names() == old(self).names().remove(*id)
                    &&& final(self).handles() == old(self).handles().remove(n@)
                },
                None => {
                    &&& !old(self).names().contains_key(*id)
                    &&& final(self).names() == old(self).names()
                    &&& final(self).handles() == old(self).handles()
                },
            },
    {
        let ghost old_names = self.name_map@;
        let ghost old_handles = self.handle_map@;
        let ghost pre = *self;
        match position_of_id(&self.name_map, id) {
            None => {
                proof {
                    lemma_names_len_seq(old_names);
                    lemma_handles_len_seq(old_handles);
                }
                None
            },
            Some(i) => {
                proof {
                    lemma_name_at(old_names, i as int);
                }
                let (_, name) = self.name_map.remove(i);
                proof {
                    lemma_names_after_remove(old_names, i as int);
                }
                match position_of_name(&self.handle_map, &name) {
                    Some(k) => {
                        self.handle_map.remove(k);
                        proof {
                            lemma_handles_after_remove(old_handles, k as int);
                        }
                    },
                    None => {
                        proof {
                            assert(self.handles() =~= pre.handles().remove(name@));
                        }
                    },
                }
                proof {
                    lemma_names_len_seq(old_names);
                    lemma_names_len_seq(self.name_map@);
                    lemma_handles_len_seq(old_handles);
                    lemma_handles_len_seq(self.handle_map@);
                }
                Some(name)
            },
        }
    }
}

/// Every name that has a handle is the name of some tracked task.
pub open spec fn handles_named(
    names: Map<Id, Seq<char>>,
    handles: Map<Seq<char>, AbortHandle>,
) -> bool {
    forall|name: Seq<char>|
        #[trigger] handles.contains_key(name) ==> exists|id: Id|
            #[trigger] names.contains_key(id) && names[id] == name
}

/// Recording a task under an id that is not tracked yet keeps every handle
/// attached to the name of a tracked task.
pub proof fn lemma_spawn_keeps_handles_named(
    names: Map<Id, Seq<char>>,
    handles: Map<Seq<char>, AbortHandle>,
    id: Id,
    name: Seq<char>,
    handle: AbortHandle,
)
    requires
        handles_named(names, handles),
        !names.contains_key(id),
    ensures
        handles_named(names.insert(id, name), handles.insert(name, handle)),
{
    let names2 = names.insert(id, name);
    assert forall|n: Seq<char>| #[trigger] handles.insert(name, handle).contains_key(n) implies exists|
        t: Id,
    | #[trigger] names2.contains_key(t) && names2[t] == n by {
        if n == name {
            assert(names2.contains_key(id) && names2[id] == n);
        } else {
            let t = choose|t: Id| #[trigger] names.contains_key(t) && names[t] == n;
            assert(names2.contains_key(t) && names2[t] == n);
        }
    }
}

/// Settling a tracked task, which drops its id and the handle kept under its
/// name, keeps every remaining handle attached to the name of a tracked
/// task.
pub proof fn lemma_join_keeps_handles_named(
    names: Map<Id, Seq<char>>,
    handles: Map<Seq<char>, AbortHandle>,
    id: Id,
)
    requires
        handles_named(names, handles),
        names.contains_key(id),
    ensures
        handles_named(names.remove(id), handles.remove(names[id])),
{
    let names2 = names.remove(id);
    assert forall|n: Seq<char>| #[trigger] handles.remove(names[id]).contains_key(n) implies exists|
        t: Id,
    | #[trigger] names2.contains_key(t) && names2[t] == n by {
        let t = choose|t: Id| #[trigger] names.contains_key(t) && names[t] == n;
        assert(t != id);
        assert(names2.contains_key(t) && names2[t] == n);
    }
}

/// Spawning a task under a fresh id and then settling it: the settling
/// gives back the name it was spawned under, the names are as before the
/// spawn, and no handle is left under that name.
pub proof fn lemma_spawn_then_join(
    names: Map<Id, Seq<char>>,
    handles: Map<Seq<char>, AbortHandle>,
    id: Id,
    name: Seq<char>,
    handle: AbortHandle,
)
    requires
        !names.contains_key(id),
    ensures
        names.insert(id, name).contains_key(id),
        names.insert(id, name)[id] == name,
        names.insert(id, name).remove(id) == names,
        handles.insert(name, handle).remove(name) == handles.remove(name),
{
    assert(names.insert(id, name).remove(id) =~= names);
    assert(handles.insert(name, handle).remove(name) =~= handles.remove(name));
}

/// A history of the map: each entry is a task recorded (`true`, its id, its
/// name) or a task settled (`false`, its id, any name).
pub type TaskHistory = Seq<(bool, Id, Seq<char>)>;

/// The names tracked after `events`, starting from an empty map: a recorded
/// task sets its id's name, a settled task drops its id.
pub open spec fn names_after(events: TaskHistory) -> Map<Id, Seq<char>>
    decreases events.len(),
{
    if events.len() == 0 {
        Map::empty()
    } else {
        let prev = names_after(events.drop_last());
        let e = events.last();
        if e.0 {
            prev.insert(e.1, e.2)
        } else {
            prev.remove(e.1)
        }
    }
}

/// How many tasks `events` records.
pub open spec fn spawn_count(events: TaskHistory) -> nat
    decreases events.len(),
{
    if events.len() == 0 {
        0
    } else {
        spawn_count(events.drop_last()) + if events.last().0 {
            1nat
        } else {
            0nat
        }
    }
}

/// How many tasks `events` settles.
pub open spec fn join_count(events: TaskHistory) -> nat
    decreases events.len(),
{
    if events.len() == 0 {
        0
    } else {
        join_count(events.drop_last()) + if events.last().0 {
            0nat
        } else {
            1nat
        }
    }
}

/// Every task is recorded under an id not tracked at that point, and every
/// settled task is one that is tracked at that point.
pub open spec fn history_ok(events: TaskHistory) -> bool {
    forall|i: int|
        0 <= i < events.len() ==> (#[trigger] events[i]).0 != names_after(
            events.take(i),
        ).contains_key(events[i].1)
}

/// A fresh map has the names of the empty history.
pub proof fn lemma_history_start()
    ensures
        names_after(Seq::empty()) == Map::<Id, Seq<char>>::empty(),
{
}

/// Recording a task extends the history: the names after it are the names
/// before with the task's id set to its name (what `record_spawn` does).
pub proof fn lemma_history_spawn(events: TaskHistory, id: Id, name: Seq<char>)
    ensures
        names_after(events.push((true, id, name))) == names_after(events).insert(id, name),
{
    assert(events.push((true, id, name)).drop_last() =~= events);
}

/// Settling a task extends the history: the names after it are the names
/// before without the task's id (what `record_join` does).
pub proof fn lemma_history_join(events: TaskHistory, id: Id, name: Seq<char>)
    ensures
        names_after(events.push((false, id, name))) == names_after(events).remove(id),
{
    assert(events.push((false, id, name)).drop_last() =~= events);
}

/// The counting law: starting from an empty map, after recording tasks
/// under ids not yet tracked and settling tasks that are tracked, the map
/// tracks finitely many tasks, as many as were recorded less those settled.
pub proof fn lemma_history_count(events: TaskHistory)
    requires
        history_ok(events),
    ensures
        names_after(events).dom().finite(),
        names_after(events).len() + join_count(events) == spawn_count(events),
    decreases events.len(),
{
    if events.len() == 0 {
        assert(names_after(events).dom() =~= Set::<Id>::empty());
    } else {
        let prev = events.drop_last();
        assert forall|i: int| 0 <= i < prev.len() implies (#[trigger] prev[i]).0 != names_after(
            prev.take(i),
        ).contains_key(prev[i].1) by {
            assert(prev.take(i) =~= events.take(i));
            assert(prev[i] == events[i]);
        }
        lemma_history_count(prev);
        let k = events.len() - 1;
        assert(events.take(k) =~= prev);
        assert(events[k].0 != names_after(events.take(k)).contains_key(events[k].1));
        let e = events.last();
        if e.0 {
            assert(!names_after(prev).contains_key(e.1));
            assert(names_after(events).dom() =~= names_after(prev).dom().insert(e.1));
        } else {
            assert(names_after(prev).contains_key(e.1));
            assert(names_after(events).dom() =~= names_after(prev).dom().remove(e.1));
        }
    }
}

/// The settling law: a task recorded under `name` and neither settled nor
/// recorded again since is still tracked under that name, so settling it
/// gives back `name` and drops exactly its id.
pub proof fn lemma_history_settle(events: TaskHistory, i: int, other: Seq<char>)
    requires
        0 <= i < events.len(),
        events[i].0,
        forall|j: int| i < j < events.len() ==> (#[trigger] events[j]).1 != events[i].1,
    ensures
        names_after(events).contains_key(events[i].1),
        names_after(events)[events[i].1] == events[i].2,
        names_after(events.push((false, events[i].1, other))) == names_after(events).remove(
            events[i].1,
        ),
        !names_after(events.push((false, events[i].1, other))).contains_key(events[i].1),
    decreases events.len(),
{
    let id = events[i].1;
    lemma_history_join(events, id, other);
    if i == events.len() - 1 {
    } else {
        let prev = events.drop_last();
        assert(prev[i] == events[i]);
        assert forall|j: int| i < j < prev.len() implies (#[trigger] prev[j]).1 != prev[i].1 by {
            assert(prev[j] == events[j]);
        }
        lemma_history_settle(prev, i, other);
        assert(events.last().1 != id);
    }
}

/// A map of distinct keys has as many entries as it has keys.
proof fn lemma_names_len_seq(v: Seq<(Id, String)>)
    requires
        ids_unique(v),
    ensures
        names_view(v).dom().finite(),
        names_view(v).len() == v.len(),
    decreases v.len(),
{
    if v.len() == 0 {
        assert(names_view(v).dom() =~= Set::<Id>::empty());
    } else {
        let w = v.drop_last();
        assert(ids_unique(w));
        lemma_names_len_seq(w);
        let last = v.last().0;
        assert(!has_id(w, last)) by {
            if has_id(w, last) {
                let i = choose|i: int| 0 <= i < w.len() && (#[trigger] w[i]).0 == last;
                assert(v[i].0 == v[v.len() - 1].0);
            }
        }
        assert(names_view(v).dom() =~= names_view(w).dom().insert(last)) by {
            assert forall|t: Id| #[trigger] names_view(v).dom().contains(t) implies names_view(
                w,
            ).dom().insert(last).contains(t) by {
                let i = choose|i: int| 0 <= i < v.len() && (#[trigger] v[i]).0 == t;
                if i < w.len() {
                    assert(w[i].0 == t);
                }
            }
            assert forall|t: Id| #[trigger] names_view(w).dom().insert(last).contains(t) implies names_view(
                v,
            ).dom().contains(t) by {
                if t != last {
                    let i = choose|i: int| 0 <= i < w.len() && (#[trigger] w[i]).0 == t;
                    assert(v[i].0 == t);
                } else {
                    assert(v[v.len() - 1].0 == t);
                }
            }
        }
    }
}

/// A handle list of distinct names has as many entries as it has names.
proof fn lemma_handles_len_seq(v: Seq<(String, AbortHandle)>)
    requires
        names_unique(v),
    ensures
        handles_view(v).dom().finite(),
        handles_view(v).len() == v.len(),
    decreases v.len(),
{
    if v.len() == 0 {
        assert(handles_view(v).dom() =~= Set::<Seq<char>>::empty());
    } else {
        let w = v.drop_last();
        assert(names_unique(w));
        lemma_handles_len_seq(w);
        let last = v.last().0@;
        assert(!has_name(w, last)) by {
            if has_name(w, last) {
                let i = choose|i: int| 0 <= i < w.len() && (#[trigger] w[i]).0@ == last;
                assert(v[i].0@ == v[v.len() - 1].0@);
            }
        }
        assert(handles_view(v).dom() =~= handles_view(w).dom().insert(last)) by {
            assert forall|t: Seq<char>| #[trigger] handles_view(v).dom().contains(t) implies handles_view(
                w,
            ).dom().insert(last).contains(t) by {
                let i = choose|i: int| 0 <= i < v.len() && (#[trigger] v[i]).0@ == t;
                if i < w.len() {
                    assert(w[i].0@ == t);
                }
            }
            assert forall|t: Seq<char>| #[trigger] handles_view(w).dom().insert(last).contains(
                t,
            ) implies handles_view(v).dom().contains(t) by {
                if t != last {
                    let i = choose|i: int| 0 <= i < w.len() && (#[trigger] w[i]).0@ == t;
                    assert(v[i].0@ == t);
                } else {
                    assert(v[v.len() - 1].0@ == t);
                }
            }
        }
    }
}

/// Removing the entry at `i` removes its key and keeps the others.
proof fn lemma_names_after_remove(v: Seq<(Id, String)>, i: int)
    requires
        ids_unique(v),
        0 <= i < v.len(),
    ensures
        ids_unique(v.remove(i)),
        names_view(v.remove(i)) == names_view(v).remove(v[i].0),
{
    let w = v.remove(i);
    assert(ids_unique(w)) by {
        assert forall|a: int, b: int| 0 <= a < b < w.len() implies (#[trigger] w[a]).0 != (
        #[trigger] w[b]).0 by {
            let a2 = if a < i { a } else { a + 1 };
            let b2 = if b < i { b } else { b + 1 };
            assert(w[a] == v[a2] && w[b] == v[b2]);
            assert(v[a2].0 != v[b2].0);
        }
    }
    let target = names_view(v).remove(v[i].0);
    assert forall|t: Id| #[trigger] names_view(w).contains_key(t) <==> target.contains_key(t) by {
        if names_view(w).contains_key(t) {
            let a = choose|a: int| 0 <= a < w.len() && (#[trigger] w[a]).0 == t;
            let a2 = if a < i { a } else { a + 1 };
            assert(w[a] == v[a2]);
            assert(v[a2].0 != v[i].0);
        }
        if target.contains_key(t) {
            let a = choose|a: int| 0 <= a < v.len() && (#[trigger] v[a]).0 == t;
            assert(a != i);
            let a2 = if a < i { a } else { a - 1 };
            assert(w[a2] == v[a]);
        }
    }
    assert forall|t: Id| #[trigger] names_view(w).contains_key(t) implies names_view(w)[t]
        == target[t] by {
        let a = choose|a: int| 0 <= a < w.len() && (#[trigger] w[a]).0 == t;
        let a2 = if a < i { a } else { a + 1 };
        assert(w[a] == v[a2]);
        lemma_name_at(w, a);
        lemma_name_at(v, a2);
    }
    assert(names_view(w) =~= target);
}

/// Removing the entry at `i` removes its name and keeps the others.
proof fn lemma_handles_after_remove(v: Seq<(String, AbortHandle)>, i: int)
    requires
        names_unique(v),
        0 <= i < v.len(),
    ensures
        names_unique(v.remove(i)),
        handles_view(v.remove(i)) == handles_view(v).remove(v[i].0@),
{
    let w = v.remove(i);
    assert(names_unique(w)) by {
        assert forall|a: int, b: int| 0 <= a < b < w.len() implies (#[trigger] w[a]).0@ != (
        #[trigger] w[b]).0@ by {
            let a2 = if a < i { a } else { a + 1 };
            let b2 = if b < i { b } else { b + 1 };
            assert(w[a] == v[a2] && w[b] == v[b2]);
            assert(v[a2].0@ != v[b2].0@);
        }
    }
    let target = handles_view(v).remove(v[i].0@);
    assert forall|t: Seq<char>| #[trigger] handles_view(w).contains_key(t) <==> target.contains_key(
        t,
    ) by {
        if handles_view(w).contains_key(t) {
            let a = choose|a: int| 0 <= a < w.len() && (#[trigger] w[a]).0@ == t;
            let a2 = if a < i { a } else { a + 1 };
            assert(w[a] == v[a2]);
            assert(v[a2].0@ != v[i].0@);
        }
        if target.contains_key(t) {
            let a = choose|a: int| 0 <= a < v.len() && (#[trigger] v[a]).0@ == t;
            assert(a != i);
            let a2 = if a < i { a } else { a - 1 };
            assert(w[a2] == v[a]);
        }
    }
    assert forall|t: Seq<char>| #[trigger] handles_view(w).contains_key(t) implies handles_view(
        w,
    )[t] == target[t] by {
        let a = choose|a: int| 0 <= a < w.len() && (#[trigger] w[a]).0@ == t;
        let a2 = if a < i { a } else { a + 1 };
        assert(w[a] == v[a2]);
        lemma_handle_at(w, a);
        lemma_handle_at(v, a2);
    }
    assert(handles_view(w) =~= target);
}

/// Dropping any entry for `id` and appending `(id, name)` sets the name of
/// `id` and keeps the others.
proof fn lemma_names_after_replace(
    v: Seq<(Id, String)>,
    w: Seq<(Id, String)>,
    id: Id,
    name: Seq<char>,
)
    requires
        ids_unique(v),
        w.len() >= 1,
        w.last().0 == id,
        w.last().1@ == name,
        has_id(v, id) ==> exists|i: int|
            0 <= i < v.len() && v[i].0 == id && #[trigger] w.drop_last() == v.remove(i),
        !has_id(v, id) ==> w.drop_last() == v,
    ensures
        ids_unique(w),
        names_view(w) == names_view(v).insert(id, name),
{
    let u = w.drop_last();
    if has_id(v, id) {
        let i = choose|i: int| 0 <= i < v.len() && v[i].0 == id && #[trigger] w.drop_last() == v.remove(i);
        lemma_names_after_remove(v, i);
    } else {
        assert(names_view(v).remove(id) =~= names_view(v));
    }
    // `u` holds every key but `id`, without repeats.
    assert(!has_id(u, id)) by {
        if has_id(u, id) {
            let a = choose|a: int| 0 <= a < u.len() && (#[trigger] u[a]).0 == id;
            assert(names_view(u).contains_key(id));
        }
    }
    assert(ids_unique(w)) by {
        assert forall|a: int, b: int| 0 <= a < b < w.len() implies (#[trigger] w[a]).0 != (
        #[trigger] w[b]).0 by {
            if b == w.len() - 1 {
                assert(w[a] == u[a]);
                if u[a].0 == id {
                    assert(has_id(u, id));
                }
            } else {
                assert(w[a] == u[a] && w[b] == u[b]);
            }
        }
    }
    let target = names_view(v).insert(id, name);
    assert forall|t: Id| #[trigger] names_view(w).contains_key(t) <==> target.contains_key(t) by {
        if names_view(w).contains_key(t) && t != id {
            let a = choose|a: int| 0 <= a < w.len() && (#[trigger] w[a]).0 == t;
            assert(a != w.len() - 1);
            assert(u[a] == w[a]);
            assert(names_view(u).contains_key(t));
        }
        if target.contains_key(t) {
            if t == id {
                assert(w[w.len() - 1].0 == t);
            } else {
                assert(names_view(u).contains_key(t));
                let a = choose|a: int| 0 <= a < u.len() && (#[trigger] u[a]).0 == t;
                assert(w[a] == u[a]);
            }
        }
    }
    assert forall|t: Id| #[trigger] names_view(w).contains_key(t) implies names_view(w)[t]
        == target[t] by {
        if t == id {
            lemma_name_at(w, w.len() - 1);
        } else {
            let a = choose|a: int| 0 <= a < w.len() && (#[trigger] w[a]).0 == t;
            assert(a != w.len() - 1);
            assert(u[a] == w[a]);
            lemma_name_at(w, a);
            lemma_name_at(u, a);
        }
    }
    assert(names_view(w) =~= target);
}

/// Dropping any entry for `name` and appending `(name, handle)` sets the
/// handle of `name` and keeps the others.
proof fn lemma_handles_after_replace(
    v: Seq<(String, AbortHandle)>,
    w: Seq<(String, AbortHandle)>,
    name: Seq<char>,
    handle: AbortHandle,
)
    requires
        names_unique(v),
        w.len() >= 1,
        w.last().0@ == name,
        w.last().1 == handle,
        has_name(v, name) ==> exists|i: int|
            0 <= i < v.len() && v[i].0@ == name && #[trigger] w.drop_last() == v.remove(i),
        !has_name(v, name) ==> w.drop_last() == v,
    ensures
        names_unique(w),
        handles_view(w) == handles_view(v).insert(name, handle),
{
    let u = w.drop_last();
    if has_name(v, name) {
        let i = choose|i: int|
            0 <= i < v.len() && v[i].0@ == name && #[trigger] w.drop_last() == v.remove(i);
        lemma_handles_after_remove(v, i);
    } else {
        assert(handles_view(v).remove(name) =~= handles_view(v));
    }
    assert(!has_name(u, name)) by {
        if has_name(u, name) {
            assert(handles_view(u).contains_key(name));
        }
    }
    assert(names_unique(w)) by {
        assert forall|a: int, b: int| 0 <= a < b < w.len() implies (#[trigger] w[a]).0@ != (
        #[trigger] w[b]).0@ by {
            if b == w.len() - 1 {
                assert(w[a] == u[a]);
                if u[a].0@ == name {
                    assert(has_name(u, name));
                }
            } else {
                assert(w[a] == u[a] && w[b] == u[b]);
            }
        }
    }
    let target = handles_view(v).insert(name, handle);
    assert forall|t: Seq<char>| #[trigger] handles_view(w).contains_key(t) <==> target.contains_key(
        t,
    ) by {
        if handles_view(w).contains_key(t) && t != name {
            let a = choose|a: int| 0 <= a < w.len() && (#[trigger] w[a]).0@ == t;
            assert(a != w.len() - 1);
            assert(u[a] == w[a]);
            assert(handles_view(u).contains_key(t));
        }
        if target.contains_key(t) {
            if t == name {
                assert(w[w.len() - 1].0@ == t);
            } else {
                assert(handles_view(u).contains_key(t));
                let a = choose|a: int| 0 <= a < u.len() && (#[trigger] u[a]).0@ == t;
                assert(w[a] == u[a]);
            }
        }
    }
    assert forall|t: Seq<char>| #[trigger] handles_view(w).contains_key(t) implies handles_view(
        w,
    )[t] == target[t] by {
        if t == name {
            lemma_handle_at(w, w.len() - 1);
        } else {
            let a = choose|a: int| 0 <= a < w.len() && (#[trigger] w[a]).0@ == t;
            assert(a != w.len() - 1);
            assert(u[a] == w[a]);
            lemma_handle_at(w, a);
            lemma_handle_at(u, a);
        }
    }
    assert(handles_view(w) =~= target);
}

} // verus!

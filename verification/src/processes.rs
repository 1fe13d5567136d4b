use vstd::prelude::*;
use crate::text::text_eq;

verus! {

/// A process the launcher started for an app, and the port it was told to
/// serve on.
#[derive(Clone, Copy, Debug, PartialEq, Eq, Structural)]
pub struct AppProcess {
    pub pid: u32,
    pub port: u16,
}

/// The processes the launcher has started, by app id (at most one per app).
pub struct ProcessTable {
    entries: Vec<(String, AppProcess)>,
}

/// What a table holds for `id`.
pub open spec fn lookup(m: Map<Seq<char>, AppProcess>, id: Seq<char>) -> Option<AppProcess> {
    if m.dom().contains(id) {
        Some(m[id])
    } else {
        None
    }
}

impl ProcessTable {
    /// The table is well formed: no app id is recorded twice.
    pub closed spec fn wf(&self) -> bool {
        forall|a: int, b: int|
            0 <= a < self.entries.len() && 0 <= b < self.entries.len() && a != b
                ==> self.entries@[a].0@ != self.entries@[b].0@
    }

    /// How many entries the table holds.
    pub closed spec fn count(&self) -> nat {
        self.entries@.len()
    }

    /// The id recorded in entry `i`.
    pub closed spec fn id_at(&self, i: int) -> Seq<char> {
        self.entries@[i].0@
    }

    closed spec fn has_id(&self, id: Seq<char>) -> bool {
        exists|i: int| 0 <= i < self.entries.len() && self.entries@[i].0@ == id
    }

    closed spec fn index_of(&self, id: Seq<char>) -> int {
        choose|i: int| 0 <= i < self.entries.len() && self.entries@[i].0@ == id
    }

    /// The table as a map from app id to process.
    pub closed spec fn view(&self) -> Map<Seq<char>, AppProcess> {
        Map::new(|id: Seq<char>| self.has_id(id), |id: Seq<char>| self.entries@[self.index_of(id)].1)
    }

    proof fn lemma_entry(&self, i: int)
        requires
            self.wf(),
            0 <= i < self.entries.len(),
        ensures
            self.view().dom().contains(self.entries@[i].0@),
            self.view()[self.entries@[i].0@] == self.entries@[i].1,
    {
        let id = self.entries@[i].0@;
        assert(self.has_id(id));
        let j = self.index_of(id);
        assert(j == i);
    }

    /// The entries cover the table exactly, each id once.
    pub proof fn lemma_entries(&self)
        requires
            self.wf(),
        ensures
            forall|i: int| 0 <= i < self.count() ==> #[trigger] self.view().dom().contains(self.id_at(i)),
            forall|id: Seq<char>| #[trigger] self.view().dom().contains(id) ==> exists|i: int|
                0 <= i < self.count() && self.id_at(i) == id,
            forall|a: int, b: int|
                0 <= a < self.count() && 0 <= b < self.count() && a != b ==> self.id_at(a)
                    != self.id_at(b),
    {
        assert forall|i: int| 0 <= i < self.count() implies #[trigger] self.view().dom().contains(
            self.id_at(i),
        ) by {
            self.lemma_entry(i);
        }
        assert forall|id: Seq<char>| #[trigger] self.view().dom().contains(id) implies exists|i: int|
            0 <= i < self.count() && self.id_at(i) == id by {
            let i = self.index_of(id);
            assert(self.id_at(i) == id);
        }
    }

    /// An empty table.
    pub fn new() -> (t: ProcessTable)
        ensures
            t.wf(),
            t.view() == Map::<Seq<char>, AppProcess>::empty(),
            t.count() == 0,
    {
        let t = ProcessTable { entries: Vec::new() };
        assert(t.view() =~= Map::<Seq<char>, AppProcess>::empty());
        t
    }

    fn find(&self, id: &str) -> (r: Option<usize>)
        ensures
            match r {
                Some(i) => i < self.entries.len() && self.entries@[i as int].0@ == id@,
                None => !self.has_id(id@),
            },
    {
        let mut i: usize = 0;
        while i < self.entries.len()
            invariant
                i <= self.entries.len(),
                forall|j: int| 0 <= j < i ==> self.entries@[j].0@ != id@,
            decreases self.entries.len() - i,
        {
            if text_eq(self.entries[i].0.as_str(), id) {
                return Some(i);
            }
            i = i + 1;
        }
        None
    }

    /// The number of entries.
    pub fn len(&self) -> (n: usize)
        ensures
            n == self.count(),
    {
        self.entries.len()
    }

    /// Entry `i`: an app id and its process.
    pub fn entry(&self, i: usize) -> (r: (String, AppProcess))
        requires
            self.wf(),
            i < self.count(),
        ensures
            r.0@ == self.id_at(i as int),
            self.view().dom().contains(r.0@),
            self.view()[r.0@] == r.1,
    {
        proof {
            self.lemma_entry(i as int);
        }
        (self.entries[i].0.clone(), self.entries[i].1)
    }

    /// The process recorded for `id`, if any.
    pub fn get(&self, id: &str) -> (r: Option<AppProcess>)
        requires
            self.wf(),
        ensures
            r == lookup(self.view(), id@),
    {
        match self.find(id) {
            Some(i) => {
                proof {
                    self.lemma_entry(i as int);
                }
                Some(self.entries[i].1)
            },
            None => None,
        }
    }

    /// Records `process` for `id`, replacing what was recorded for it.
    pub fn insert(&mut self, id: String, process: AppProcess)
        requires
            old(self).wf(),
        ensures
            final(self).wf(),
            final(self).view() == old(self).view().insert(id@, process),
    {
        let ghost pre = *self;
        let found = self.find(id.as_str());
        let mut entries = Vec::new();
        std::mem::swap(&mut entries, &mut self.entries);
        let ghost id_view = id@;
        match found {
            Some(i) => {
                let _ = entries.remove(i);
                entries.insert(i, (id, process));
                assert(entries@ =~= pre.entries@.update(i as int, (entries@[i as int].0, process)));
            },
            None => {
                entries.push((id, process));
            },
        }
        *self = ProcessTable { entries };
        proof {
            assert forall|k: Seq<char>| #[trigger] self.view().dom().contains(k) == pre.view().insert(
                id_view,
                process,
            ).dom().contains(k) by {
                if self.has_id(k) {
                    let j = choose|j: int| 0 <= j < self.entries.len() && self.entries@[j].0@ == k;
                    if k != id_view {
                        assert(pre.entries@[j] == self.entries@[j]);
                        assert(pre.has_id(k));
                    }
                }
                if pre.has_id(k) {
                    let j = choose|j: int| 0 <= j < pre.entries.len() && pre.entries@[j].0@ == k;
                    if k != id_view {
                        assert(pre.entries@[j] == self.entries@[j]);
                        assert(self.has_id(k));
                    }
                }
                if k == id_view {
                    match found {
                        Some(i) => assert(self.entries@[i as int].0@ == k),
                        None => assert(self.entries@[self.entries.len() - 1].0@ == k),
                    }
                }
            }
            assert forall|k: Seq<char>| #[trigger] self.view().dom().contains(k) implies self.view()[k]
                == pre.view().insert(id_view, process)[k] by {
                let j = choose|j: int| 0 <= j < self.entries.len() && self.entries@[j].0@ == k;
                self.lemma_entry(j);
                if k != id_view {
                    assert(pre.entries@[j] == self.entries@[j]);
                    pre.lemma_entry(j);
                }
            }
            assert(self.view() =~= pre.view().insert(id_view, process));
        }
    }

    /// Forgets what was recorded for `id`, returning it.
    pub fn remove(&mut self, id: &str) -> (r: Option<AppProcess>)
        requires
            old(self).wf(),
        ensures
            final(self).wf(),
            r == lookup(old(self).view(), id@),
            final(self).view() == old(self).view().remove(id@),
    {
        let ghost pre = *self;
        match self.find(id) {
            None => {
                assert(self.view() =~= pre.view().remove(id@));
                None
            },
            Some(i) => {
                proof {
                    pre.lemma_entry(i as int);
                }
                let mut entries = Vec::new();
                std::mem::swap(&mut entries, &mut self.entries);
                let (_, process) = entries.remove(i);
                *self = ProcessTable { entries };
                proof {
                    assert forall|k: Seq<char>| #[trigger] self.view().dom().contains(k)
                        == pre.view().remove(id@).dom().contains(k) by {
                        if self.has_id(k) {
                            let j = choose|j: int|
                                0 <= j < self.entries.len() && self.entries@[j].0@ == k;
                            if j < i {
                                assert(pre.entries@[j] == self.entries@[j]);
                            } else {
                                assert(pre.entries@[j + 1] == self.entries@[j]);
                            }
                        }
                        if pre.has_id(k) && k != id@ {
                            let j = choose|j: int|
                                0 <= j < pre.entries.len() && pre.entries@[j].0@ == k;
                            if j < i {
                                assert(self.entries@[j] == pre.entries@[j]);
                            } else {
                                assert(j != i);
                                assert(self.entries@[j - 1] == pre.entries@[j]);
                            }
                        }
                    }
                    assert forall|k: Seq<char>| #[trigger] self.view().dom().contains(k) implies self.view()[k]
                        == pre.view().remove(id@)[k] by {
                        let j = choose|j: int|
                            0 <= j < self.entries.len() && self.entries@[j].0@ == k;
                        self.lemma_entry(j);
                        if j < i {
                            pre.lemma_entry(j);
                        } else {
                            pre.lemma_entry(j + 1);
                        }
                    }
                    assert(self.view() =~= pre.view().remove(id@));
                }
                Some(process)
            },
        }
    }
}


/// What a launch records is what the table then gives back for that app,
/// and the other apps' records are untouched.
pub proof fn lemma_lookup_after_record(
    m: Map<Seq<char>, AppProcess>,
    id: Seq<char>,
    process: AppProcess,
    other: Seq<char>,
)
    ensures
        lookup(m.insert(id, process), id) == Some(process),
        other != id ==> lookup(m.insert(id, process), other) == lookup(m, other),
{
}

/// Stopping an app right after launching it hands back the process the
/// launch recorded, and leaves the table as it was without that app; a
/// second stop finds nothing.
pub proof fn lemma_stop_after_launch(m: Map<Seq<char>, AppProcess>, id: Seq<char>, process: AppProcess)
    ensures
        lookup(m.insert(id, process), id) == Some(process),
        m.insert(id, process).remove(id) == m.remove(id),
        lookup(m.insert(id, process).remove(id), id) is None,
{
    assert(m.insert(id, process).remove(id) =~= m.remove(id));
}

} // verus!

//! The per-session registry of armed watches, keyed by monitor id. Each
//! entry carries the handle of its background watcher (whatever the
//! caller runs it as) and what `list` shows of it.

use vstd::prelude::*;

use crate::model_lines::strings_view;
use crate::json::{jv, Json};
use crate::monitor::{kill_reply, kill_reply_value, list_reply, list_reply_value, MonitorEntryInfo};
use crate::text::str_eq;

verus! {

/// One armed watch.
pub struct MonitorEntry<H> {
    /// The background watcher; dropping or aborting it stops the watch.
    pub handle: H,
    pub command: Vec<String>,
    pub pattern: String,
    pub persistent: bool,
}

/// What the registry knows of a watch besides its handle.
pub struct MonitorEntryView {
    pub command: Seq<Seq<char>>,
    pub pattern: Seq<char>,
    pub persistent: bool,
}

/// The view of an entry.
pub open spec fn entry_view<H>(e: MonitorEntry<H>) -> MonitorEntryView {
    MonitorEntryView { command: strings_view(e.command@), pattern: e.pattern@, persistent: e.persistent }
}

/// The ids of a list of entries.
pub open spec fn ids_of<H>(s: Seq<(String, MonitorEntry<H>)>) -> Seq<Seq<char>> {
    s.map_values(|p: (String, MonitorEntry<H>)| p.0@)
}

/// The map from id to entry that a list of entries stands for.
pub open spec fn entries_map<H>(s: Seq<(String, MonitorEntry<H>)>) -> Map<Seq<char>, MonitorEntryView>
    decreases s.len(),
{
    if s.len() == 0 {
        Map::empty()
    } else {
        entries_map(s.drop_last()).insert(s.last().0@, entry_view(s.last().1))
    }
}

/// The map from id to watcher handle that a list of entries stands for.
pub open spec fn handles_map<H>(s: Seq<(String, MonitorEntry<H>)>) -> Map<Seq<char>, H>
    decreases s.len(),
{
    if s.len() == 0 {
        Map::empty()
    } else {
        handles_map(s.drop_last()).insert(s.last().0@, s.last().1.handle)
    }
}

/// Per-session registry of armed watches.
pub struct MonitorRegistry<H> {
    entries: Vec<(String, MonitorEntry<H>)>,
}

proof fn lemma_entries_map_dom<H>(s: Seq<(String, MonitorEntry<H>)>)
    requires
        ids_of(s).no_duplicates(),
    ensures
        entries_map(s).dom().finite(),
        entries_map(s).dom().len() == s.len(),
        forall|k: Seq<char>| #[trigger] entries_map(s).dom().contains(k) <==> ids_of(s).contains(k),
        forall|i: int| 0 <= i < s.len() ==> #[trigger] entries_map(s)[s[i].0@] == entry_view(s[i].1),
    decreases s.len(),
{
    if s.len() > 0 {
        let t = s.drop_last();
        assert(ids_of(t) =~= ids_of(s).drop_last());
        lemma_entries_map_dom(t);
        let k = s.last().0@;
        assert(ids_of(s)[s.len() - 1] == k);
        assert(!ids_of(t).contains(k)) by {
            if ids_of(t).contains(k) {
                let j = choose|j: int| 0 <= j < ids_of(t).len() && ids_of(t)[j] == k;
                assert(ids_of(s)[j] == ids_of(s)[s.len() - 1]);
            }
        }
        assert forall|x: Seq<char>| #[trigger] entries_map(s).dom().contains(x) <==> ids_of(s).contains(x) by {
            if ids_of(s).contains(x) {
                let j = choose|j: int| 0 <= j < ids_of(s).len() && ids_of(s)[j] == x;
                if j < t.len() {
                    assert(ids_of(t)[j] == x);
                }
            }
            if ids_of(t).contains(x) {
                let j = choose|j: int| 0 <= j < ids_of(t).len() && ids_of(t)[j] == x;
                assert(ids_of(s)[j] == x);
            }
        }
        assert forall|i: int| 0 <= i < s.len() implies #[trigger] entries_map(s)[s[i].0@] == entry_view(s[i].1) by {
            if i < s.len() - 1 {
                assert(t[i] == s[i]);
                assert(ids_of(s)[i] != ids_of(s)[s.len() - 1]);
            }
        }
    } else {
        assert(entries_map(s).dom() =~= Set::<Seq<char>>::empty());
    }
}

proof fn lemma_entries_map_remove<H>(s: Seq<(String, MonitorEntry<H>)>, i: int)
    requires
        ids_of(s).no_duplicates(),
        0 <= i < s.len(),
    ensures
        entries_map(s.remove(i)) == entries_map(s).remove(s[i].0@),
        ids_of(s.remove(i)).no_duplicates(),
    decreases s.len(),
{
    let t = s.drop_last();
    assert(ids_of(t) =~= ids_of(s).drop_last());
    assert(ids_of(s.remove(i)) =~= ids_of(s).remove(i));
    let ids = ids_of(s);
    assert(ids.remove(i).no_duplicates()) by {
        assert forall|a: int, b: int| 0 <= a < ids.remove(i).len() && 0 <= b < ids.remove(i).len() && a != b implies ids.remove(
            i,
        )[a] != ids.remove(i)[b] by {
            let a2 = if a < i { a } else { a + 1 };
            let b2 = if b < i { b } else { b + 1 };
            assert(ids.remove(i)[a] == ids[a2]);
            assert(ids.remove(i)[b] == ids[b2]);
        }
    }
    lemma_entries_map_dom(t);
    let k = s.last().0@;
    assert(!ids_of(t).contains(k)) by {
        if ids_of(t).contains(k) {
            let j = choose|j: int| 0 <= j < ids_of(t).len() && ids_of(t)[j] == k;
            assert(ids[j] == ids[s.len() - 1]);
        }
    }
    if i == s.len() - 1 {
        assert(s.remove(i) =~= t);
        assert(entries_map(s).remove(k) =~= entries_map(t));
    } else {
        assert(s.remove(i) =~= t.remove(i).push(s.last()));
        lemma_entries_map_remove(t, i);
        assert(t[i] == s[i]);
        assert(ids[i] != ids[s.len() - 1]);
        let u = s.remove(i);
        assert(u.drop_last() =~= t.remove(i));
        assert(u.last() == s.last());
        assert(entries_map(u) == entries_map(t.remove(i)).insert(k, entry_view(s.last().1)));
        assert(entries_map(s.remove(i)) =~= entries_map(s).remove(s[i].0@));
    }
}

proof fn lemma_handles_map_dom<H>(s: Seq<(String, MonitorEntry<H>)>)
    requires
        ids_of(s).no_duplicates(),
    ensures
        handles_map(s).dom().finite(),
        handles_map(s).dom().len() == s.len(),
        forall|k: Seq<char>| #[trigger] handles_map(s).dom().contains(k) <==> ids_of(s).contains(k),
        forall|i: int| 0 <= i < s.len() ==> #[trigger] handles_map(s)[s[i].0@] == s[i].1.handle,
    decreases s.len(),
{
    if s.len() > 0 {
        let t = s.drop_last();
        assert(ids_of(t) =~= ids_of(s).drop_last());
        lemma_handles_map_dom(t);
        let k = s.last().0@;
        assert(ids_of(s)[s.len() - 1] == k);
        assert(!ids_of(t).contains(k)) by {
            if ids_of(t).contains(k) {
                let j = choose|j: int| 0 <= j < ids_of(t).len() && ids_of(t)[j] == k;
                assert(ids_of(s)[j] == ids_of(s)[s.len() - 1]);
            }
        }
        assert forall|x: Seq<char>| #[trigger] handles_map(s).dom().contains(x) <==> ids_of(s).contains(x) by {
            if ids_of(s).contains(x) {
                let j = choose|j: int| 0 <= j < ids_of(s).len() && ids_of(s)[j] == x;
                if j < t.len() {
                    assert(ids_of(t)[j] == x);
                }
            }
            if ids_of(t).contains(x) {
                let j = choose|j: int| 0 <= j < ids_of(t).len() && ids_of(t)[j] == x;
                assert(ids_of(s)[j] == x);
            }
        }
        assert forall|i: int| 0 <= i < s.len() implies #[trigger] handles_map(s)[s[i].0@] == s[i].1.handle by {
            if i < s.len() - 1 {
                assert(t[i] == s[i]);
                assert(ids_of(s)[i] != ids_of(s)[s.len() - 1]);
            }
        }
    } else {
        assert(handles_map(s).dom() =~= Set::<Seq<char>>::empty());
    }
}

proof fn lemma_handles_map_remove<H>(s: Seq<(String, MonitorEntry<H>)>, i: int)
    requires
        ids_of(s).no_duplicates(),
        0 <= i < s.len(),
    ensures
        handles_map(s.remove(i)) == handles_map(s).remove(s[i].0@),
        ids_of(s.remove(i)).no_duplicates(),
    decreases s.len(),
{
    let t = s.drop_last();
    assert(ids_of(t) =~= ids_of(s).drop_last());
    assert(ids_of(s.remove(i)) =~= ids_of(s).remove(i));
    let ids = ids_of(s);
    assert(ids.remove(i).no_duplicates()) by {
        assert forall|a: int, b: int| 0 <= a < ids.remove(i).len() && 0 <= b < ids.remove(i).len() && a != b implies ids.remove(
            i,
        )[a] != ids.remove(i)[b] by {
            let a2 = if a < i { a } else { a + 1 };
            let b2 = if b < i { b } else { b + 1 };
            assert(ids.remove(i)[a] == ids[a2]);
            assert(ids.remove(i)[b] == ids[b2]);
        }
    }
    lemma_handles_map_dom(t);
    let k = s.last().0@;
    assert(!ids_of(t).contains(k)) by {
        if ids_of(t).contains(k) {
            let j = choose|j: int| 0 <= j < ids_of(t).len() && ids_of(t)[j] == k;
            assert(ids[j] == ids[s.len() - 1]);
        }
    }
    if i == s.len() - 1 {
        assert(s.remove(i) =~= t);
        assert(handles_map(s).remove(k) =~= handles_map(t));
    } else {
        assert(s.remove(i) =~= t.remove(i).push(s.last()));
        lemma_handles_map_remove(t, i);
        assert(t[i] == s[i]);
        assert(ids[i] != ids[s.len() - 1]);
        let u = s.remove(i);
        assert(u.drop_last() =~= t.remove(i));
        assert(u.last() == s.last());
        assert(handles_map(u) == handles_map(t.remove(i)).insert(k, s.last().1.handle));
        assert(handles_map(s.remove(i)) =~= handles_map(s).remove(s[i].0@));
    }
}

impl<H> MonitorRegistry<H> {
    /// The ids are distinct.
    #[verifier::type_invariant]
    spec fn distinct_ids(self) -> bool {
        ids_of(self.entries@).no_duplicates()
    }

    /// The armed watches by id.
    pub closed spec fn view(self) -> Map<Seq<char>, MonitorEntryView> {
        entries_map(self.entries@)
    }

    /// The watcher handle of each armed watch, by id.
    pub closed spec fn handles(self) -> Map<Seq<char>, H> {
        handles_map(self.entries@)
    }

    /// An empty registry.
    pub fn new() -> (r: Self)
        ensures
            r.view() == Map::<Seq<char>, MonitorEntryView>::empty(),
            r.handles() == Map::<Seq<char>, H>::empty(),
    {
        let r = MonitorRegistry { entries: Vec::new() };
        assert(ids_of(r.entries@) =~= Seq::<Seq<char>>::empty());
        r
    }

    fn index_of(&self, monitor_id: &str) -> (r: Option<usize>)
        ensures
            match r {
                Some(i) => i < self.entries@.len() && self.entries@[i as int].0@ == monitor_id@,
                None => !ids_of(self.entries@).contains(monitor_id@),
            },
    {
        let mut i: usize = 0;
        while i < self.entries.len()
            invariant
                i <= self.entries@.len(),
                forall|k: int| 0 <= k < i ==> self.entries@[k].0@ != monitor_id@,
            decreases self.entries@.len() - i,
        {
            if str_eq(self.entries[i].0.as_str(), monitor_id) {
                return Some(i);
            }
            i += 1;
        }
        assert forall|k: int| 0 <= k < ids_of(self.entries@).len() implies ids_of(self.entries@)[k] != monitor_id@ by {
            assert(ids_of(self.entries@)[k] == self.entries@[k].0@);
        }
        None
    }

    /// The number of armed watches.
    pub fn len(&self) -> (n: usize)
        ensures
            n == self.view().dom().len(),
    {
        proof {
            use_type_invariant(self);
            lemma_entries_map_dom(self.entries@);
        }
        self.entries.len()
    }

    /// Whether watch `monitor_id` is armed.
    pub fn contains(&self, monitor_id: &str) -> (b: bool)
        ensures
            b == self.view().dom().contains(monitor_id@),
    {
        proof {
            use_type_invariant(self);
            lemma_entries_map_dom(self.entries@);
        }
        match self.index_of(monitor_id) {
            Some(i) => {
                proof {
                    assert(ids_of(self.entries@)[i as int] == monitor_id@);
                }
                true
            },
            None => false,
        }
    }

    /// Register watch `monitor_id`. A watch already armed under that id is
    /// replaced, and its handle handed back.
    pub fn insert(&mut self, monitor_id: String, entry: MonitorEntry<H>) -> (old_handle: Option<H>)
        ensures
            final(self).view() == old(self).view().insert(monitor_id@, entry_view(entry)),
            final(self).handles() == old(self).handles().insert(monitor_id@, entry.handle),
            final(self).handles().dom() == final(self).view().dom(),
            old_handle == (if old(self).view().dom().contains(monitor_id@) {
                Some(old(self).handles()[monitor_id@])
            } else {
                None
            }),
    {
        proof {
            use_type_invariant(&*self);
            lemma_entries_map_dom(self.entries@);
            lemma_handles_map_dom(self.entries@);
        }
        let ghost key = monitor_id@;
        let ghost v = entry_view(entry);
        let found = self.index_of(monitor_id.as_str());
        let mut entries: Vec<(String, MonitorEntry<H>)> = Vec::new();
        std::mem::swap(&mut entries, &mut self.entries);
        let ghost before = entries@;
        let old_handle = match found {
            Some(i) => {
                proof {
                    lemma_entries_map_remove(before, i as int);
                    lemma_handles_map_remove(before, i as int);
                }
                let (_, removed) = entries.remove(i);
                proof {
                    assert(ids_of(before)[i as int] == key);
                }
                Some(removed.handle)
            },
            None => None,
        };
        let ghost mid = entries@;
        proof {
            lemma_entries_map_dom(mid);
            assert(!ids_of(mid).contains(key));
        }
        let ghost h = entry.handle;
        entries.push((monitor_id, entry));
        proof {
            assert(entries@.drop_last() =~= mid);
            assert(ids_of(entries@) =~= ids_of(mid).push(key));
            assert(ids_of(entries@).no_duplicates()) by {
                assert forall|a: int, b: int| 0 <= a < ids_of(entries@).len() && 0 <= b < ids_of(entries@).len() && a
                    != b implies ids_of(entries@)[a] != ids_of(entries@)[b] by {
                    if a == mid.len() {
                        assert(ids_of(mid)[b] == ids_of(entries@)[b]);
                    } else if b == mid.len() {
                        assert(ids_of(mid)[a] == ids_of(entries@)[a]);
                    } else {
                        assert(ids_of(mid)[a] == ids_of(entries@)[a]);
                        assert(ids_of(mid)[b] == ids_of(entries@)[b]);
                    }
                }
            }
            assert(entries_map(entries@) == entries_map(mid).insert(key, v));
            assert(entries_map(entries@) =~= entries_map(before).insert(key, v));
            assert(handles_map(entries@) == handles_map(mid).insert(key, h));
            assert(handles_map(entries@) =~= handles_map(before).insert(key, h));
            lemma_entries_map_dom(entries@);
            lemma_handles_map_dom(entries@);
            assert(handles_map(entries@).dom() =~= entries_map(entries@).dom());
        }
        self.entries = entries;
        old_handle
    }

    /// Disarm watch `monitor_id`: its entry leaves the registry and its
    /// handle is handed back for the caller to abort; `None` when no watch
    /// has that id.
    pub fn kill(&mut self, monitor_id: &str) -> (removed: Option<H>)
        ensures
            final(self).view() == old(self).view().remove(monitor_id@),
            final(self).handles() == old(self).handles().remove(monitor_id@),
            final(self).handles().dom() == final(self).view().dom(),
            removed == (if old(self).view().dom().contains(monitor_id@) {
                Some(old(self).handles()[monitor_id@])
            } else {
                None
            }),
    {
        proof {
            use_type_invariant(&*self);
            lemma_entries_map_dom(self.entries@);
            lemma_handles_map_dom(self.entries@);
        }
        match self.index_of(monitor_id) {
            Some(i) => {
                let mut entries: Vec<(String, MonitorEntry<H>)> = Vec::new();
        std::mem::swap(&mut entries, &mut self.entries);
                let ghost before = entries@;
                proof {
                    lemma_entries_map_remove(before, i as int);
                    lemma_handles_map_remove(before, i as int);
                    assert(ids_of(before)[i as int] == monitor_id@);
                }
                let (_, removed) = entries.remove(i);
                proof {
                    lemma_entries_map_dom(entries@);
                    lemma_handles_map_dom(entries@);
                    assert(handles_map(entries@).dom() =~= entries_map(entries@).dom());
                }
                self.entries = entries;
                Some(removed.handle)
            },
            None => {
                proof {
                    assert(self.view().remove(monitor_id@) =~= self.view());
                    assert(self.handles().remove(monitor_id@) =~= self.handles());
                    assert(self.handles().dom() =~= self.view().dom());
                }
                None
            },
        }
    }

    /// Disarm every watch: the registry empties and every handle is handed
    /// back for the caller to abort.
    pub fn drain(&mut self) -> (handles: Vec<H>)
        ensures
            final(self).view() == Map::<Seq<char>, MonitorEntryView>::empty(),
            final(self).handles() == Map::<Seq<char>, H>::empty(),
            handles@.len() == old(self).view().dom().len(),
            forall|k: Seq<char>| #[trigger] old(self).view().dom().contains(k) ==> handles@.contains(old(self).handles()[k]),
    {
        proof {
            use_type_invariant(&*self);
            lemma_entries_map_dom(self.entries@);
            lemma_handles_map_dom(self.entries@);
        }
        let mut entries: Vec<(String, MonitorEntry<H>)> = Vec::new();
        std::mem::swap(&mut entries, &mut self.entries);
        let ghost before = entries@;
        let n = entries.len();
        let mut handles: Vec<H> = Vec::new();
        while entries.len() > 0
            invariant
                handles@.len() + entries@.len() == n,
                n == before.len(),
                entries@ == before.take(entries@.len() as int),
                forall|j: int| 0 <= j < handles@.len() ==> #[trigger] handles@[j] == before[n - 1 - j].1.handle,
            decreases entries@.len(),
        {
            let ghost len = entries@.len();
            let (_, e) = entries.pop().unwrap();
            assert(e == before[len - 1].1);
            handles.push(e.handle);
            assert(entries@ =~= before.take(entries@.len() as int));
        }
        proof {
            assert(ids_of(self.entries@) =~= Seq::<Seq<char>>::empty());
            assert forall|k: Seq<char>| #[trigger] entries_map(before).dom().contains(k) implies handles@.contains(
                handles_map(before)[k],
            ) by {
                let i = choose|i: int| 0 <= i < ids_of(before).len() && ids_of(before)[i] == k;
                assert(before[i].0@ == k);
                assert(handles@[n - 1 - i] == before[i].1.handle);
            }
        }
        handles
    }

    /// What `list` shows of each armed watch.
    pub fn infos(&self) -> (r: Vec<MonitorEntryInfo>)
        ensures
            r@.len() == self.view().dom().len(),
            forall|i: int|
                0 <= i < r@.len() ==> {
                    &&& #[trigger] self.view().dom().contains(r@[i].monitor_id@)
                    &&& self.view()[r@[i].monitor_id@] == (MonitorEntryView {
                        command: strings_view(r@[i].command@),
                        pattern: r@[i].pattern@,
                        persistent: r@[i].persistent,
                    })
                },
            forall|k: Seq<char>| #[trigger] self.view().dom().contains(k) ==> exists|i: int| 0 <= i < r@.len() && r@[i].monitor_id@ == k,
    {
        proof {
            use_type_invariant(self);
            lemma_entries_map_dom(self.entries@);
        }
        let mut out: Vec<MonitorEntryInfo> = Vec::new();
        let mut i: usize = 0;
        while i < self.entries.len()
            invariant
                i <= self.entries@.len(),
                out@.len() == i,
                forall|j: int|
                    0 <= j < i ==> {
                        &&& #[trigger] out@[j].monitor_id@ == self.entries@[j].0@
                        &&& strings_view(out@[j].command@) == strings_view(self.entries@[j].1.command@)
                        &&& out@[j].pattern@ == self.entries@[j].1.pattern@
                        &&& out@[j].persistent == self.entries@[j].1.persistent
                    },
            decreases self.entries@.len() - i,
        {
            let (id, e) = (&self.entries[i].0, &self.entries[i].1);
            let command = crate::curated_seed::copy_strings(&e.command);
            out.push(
                MonitorEntryInfo {
                    monitor_id: id.clone(),
                    command,
                    pattern: e.pattern.clone(),
                    persistent: e.persistent,
                },
            );
            proof {
                assert(strings_view(out@[i as int].command@) =~= strings_view(self.entries@[i as int].1.command@));
                assert(out@[i as int].monitor_id@ == self.entries@[i as int].0@);
            }
            i += 1;
        }
        proof {
            assert forall|j: int| 0 <= j < out@.len() implies {
                &&& #[trigger] self.view().dom().contains(out@[j].monitor_id@)
                &&& self.view()[out@[j].monitor_id@] == (MonitorEntryView {
                    command: strings_view(out@[j].command@),
                    pattern: out@[j].pattern@,
                    persistent: out@[j].persistent,
                })
            } by {
                assert(ids_of(self.entries@)[j] == self.entries@[j].0@);
            }
            assert forall|k: Seq<char>| #[trigger] self.view().dom().contains(k) implies exists|j: int|
                0 <= j < out@.len() && out@[j].monitor_id@ == k by {
                let j = choose|j: int| 0 <= j < ids_of(self.entries@).len() && ids_of(self.entries@)[j] == k;
                assert(out@[j].monitor_id@ == k);
            }
        }
        out
    }
}

/// Killing a watch disarms it: a second kill of the same id finds nothing,
/// and the other watches stay as they were.
pub proof fn lemma_kill_disarms(m: Map<Seq<char>, MonitorEntryView>, id: Seq<char>, other: Seq<char>)
    requires
        other != id,
    ensures
        !m.remove(id).dom().contains(id),
        m.remove(id).dom().contains(other) == m.dom().contains(other),
        m.dom().contains(other) ==> m.remove(id)[other] == m[other],
{
}

/// `infos` lists exactly the watches of `m`, each once.
pub open spec fn is_listing(m: Map<Seq<char>, MonitorEntryView>, infos: Seq<MonitorEntryInfo>) -> bool {
    &&& infos.len() == m.dom().len()
    &&& forall|i: int|
        0 <= i < infos.len() ==> {
            &&& #[trigger] m.dom().contains(infos[i].monitor_id@)
            &&& m[infos[i].monitor_id@] == (MonitorEntryView {
                command: strings_view(infos[i].command@),
                pattern: infos[i].pattern@,
                persistent: infos[i].persistent,
            })
        }
    &&& forall|k: Seq<char>| #[trigger] m.dom().contains(k) ==> exists|i: int| 0 <= i < infos.len() && infos[i].monitor_id@ == k
}

/// The `kill` action: disarm watch `monitor_id` and answer whether it was
/// armed. The handle of the disarmed watch is handed back for the caller
/// to abort.
pub fn handle_kill<H>(registry: &mut MonitorRegistry<H>, monitor_id: &str) -> (r: (Json, Option<H>))
    ensures
        final(registry).view() == old(registry).view().remove(monitor_id@),
        jv(r.0) == kill_reply_value(monitor_id@, old(registry).view().dom().contains(monitor_id@)),
        final(registry).handles() == old(registry).handles().remove(monitor_id@),
        r.1 == (if old(registry).view().dom().contains(monitor_id@) {
            Some(old(registry).handles()[monitor_id@])
        } else {
            None
        }),
{
    let removed = registry.kill(monitor_id);
    let reply = kill_reply(monitor_id, removed.is_some());
    (reply, removed)
}

/// The `list` action: every armed watch, with its command, pattern and
/// persistence.
pub fn handle_list<H>(registry: &MonitorRegistry<H>) -> (j: Json)
    ensures
        exists|infos: Seq<MonitorEntryInfo>| is_listing(registry.view(), infos) && jv(j) == list_reply_value(infos),
{
    let infos = registry.infos();
    let j = list_reply(infos.as_slice());
    assert(is_listing(registry.view(), infos@));
    j
}

} // verus!

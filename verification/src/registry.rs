//! The tasks that the agent knows, by their identifiers.
use crate::task::{AgentTaskSnapshot, SnapshotView, TaskHandle, TaskView};
use crate::text::{
    comes_before, lemma_precedes_asymmetric, lemma_precedes_total, lemma_precedes_transitive,
    precedes, same,
};
use vstd::prelude::*;
use vstd::string::*;

verus! {

/// How long a task is kept after it has ended.
pub const CLEANUP_DELAY_SECONDS: u64 = 300;

/// The tasks, each under its identifier.
#[derive(Debug, PartialEq, Eq)]
pub struct TaskRegistry {
    entries: Vec<(String, TaskHandle)>,
}

/// The entry `i` stands under the identifier `id`.
spec fn stands_at(entries: Seq<(String, TaskHandle)>, id: Seq<char>, i: int) -> bool {
    0 <= i < entries.len() && entries[i].0@ == id
}

spec fn knows(entries: Seq<(String, TaskHandle)>, id: Seq<char>) -> bool {
    exists|i: int| stands_at(entries, id, i)
}

spec fn place_of(entries: Seq<(String, TaskHandle)>, id: Seq<char>) -> int {
    choose|i: int| stands_at(entries, id, i)
}

spec fn tasks_of(entries: Seq<(String, TaskHandle)>) -> Map<Seq<char>, TaskView> {
    Map::new(|id: Seq<char>| knows(entries, id), |id: Seq<char>| entries[place_of(entries, id)].1@)
}

/// No identifier stands twice.
spec fn distinct(entries: Seq<(String, TaskHandle)>) -> bool {
    forall|i: int, j: int|
        0 <= i < j < entries.len() ==> (#[trigger] entries[i]).0@ != (#[trigger] entries[j]).0@
}

impl View for TaskRegistry {
    type V = Map<Seq<char>, TaskView>;

    closed spec fn view(&self) -> Map<Seq<char>, TaskView> {
        tasks_of(self.entries@)
    }
}

proof fn lemma_place(entries: Seq<(String, TaskHandle)>, id: Seq<char>, i: int)
    requires
        distinct(entries),
        stands_at(entries, id, i),
    ensures
        place_of(entries, id) == i,
        tasks_of(entries).contains_key(id),
        tasks_of(entries)[id] == entries[i].1@,
{
    let p = place_of(entries, id);
    assert(stands_at(entries, id, p));
    if p < i {
        assert(entries[p].0@ != entries[i].0@);
    } else if i < p {
        assert(entries[i].0@ != entries[p].0@);
    }
}

/// The entries differ in the task at `i` at most.
spec fn differs_at(
    before: Seq<(String, TaskHandle)>,
    after: Seq<(String, TaskHandle)>,
    i: int,
) -> bool {
    &&& after.len() == before.len()
    &&& forall|j: int| 0 <= j < after.len() ==> (#[trigger] after[j]).0@ == before[j].0@
    &&& forall|j: int| 0 <= j < after.len() && j != i ==> #[trigger] after[j] == before[j]
}

proof fn lemma_replaced(
    before: Seq<(String, TaskHandle)>,
    after: Seq<(String, TaskHandle)>,
    id: Seq<char>,
    i: int,
)
    requires
        distinct(before),
        stands_at(before, id, i),
        differs_at(before, after, i),
    ensures
        distinct(after),
        tasks_of(after) == tasks_of(before).insert(id, after[i].1@),
{
    assert forall|k: Seq<char>| knows(after, k) == knows(before, k) by {
        if knows(after, k) {
            assert(stands_at(before, k, place_of(after, k)));
        }
        if knows(before, k) {
            let p = place_of(before, k);
            assert(after[p].0@ == before[p].0@);
            assert(stands_at(after, k, p));
        }
    }
    assert(stands_at(after, id, i)) by {
        assert(after[i].0@ == before[i].0@);
    }
    assert(distinct(after)) by {
        assert forall|a: int, b: int| 0 <= a < b < after.len() implies (#[trigger] after[a]).0@ != (
        #[trigger] after[b]).0@ by {
            assert(before[a].0@ != before[b].0@);
        }
    }
    lemma_place(after, id, i);
    assert forall|k: Seq<char>| #[trigger] knows(after, k) implies tasks_of(after)[k] == tasks_of(
        before,
    ).insert(id, after[i].1@)[k] by {
        let p = place_of(before, k);
        assert(stands_at(before, k, p));
        assert(after[p].0@ == before[p].0@);
        lemma_place(before, k, p);
        lemma_place(after, k, p);
    }
    assert(tasks_of(after) =~= tasks_of(before).insert(id, after[i].1@));
}

/// `list` holds the snapshot of every task once, the greatest identifier first; `keys`
/// tells which task each snapshot belongs to.
pub open spec fn is_listing_by(
    tasks: Map<Seq<char>, TaskView>,
    keys: Seq<Seq<char>>,
    list: Seq<SnapshotView>,
) -> bool {
    &&& keys.no_duplicates()
    &&& forall|id: Seq<char>| tasks.contains_key(id) <==> #[trigger] keys.contains(id)
    &&& list.len() == keys.len()
    &&& forall|i: int| 0 <= i < list.len() ==> #[trigger] list[i] == tasks[keys[i]].snapshot
    &&& forall|i: int, j: int|
        0 <= i < j < list.len() ==> !precedes(
            (#[trigger] list[i]).task_id,
            (#[trigger] list[j]).task_id,
        )
}

/// `list` holds the snapshot of every task once, the greatest identifier first.
pub open spec fn is_listing(tasks: Map<Seq<char>, TaskView>, list: Seq<SnapshotView>) -> bool {
    exists|keys: Seq<Seq<char>>| #[trigger] is_listing_by(tasks, keys, list)
}

/// Every task stands under the identifier that its snapshot shows.
pub open spec fn is_keyed(tasks: Map<Seq<char>, TaskView>) -> bool {
    forall|id: Seq<char>| #[trigger] tasks.contains_key(id) ==> tasks[id].snapshot.task_id == id
}

pub open spec fn snapshot_views(list: Seq<AgentTaskSnapshot>) -> Seq<SnapshotView> {
    list.map_values(|snapshot: AgentTaskSnapshot| snapshot@)
}

/// The tasks without one that has ended.
pub open spec fn cleaned(tasks: Map<Seq<char>, TaskView>, id: Seq<char>) -> Map<
    Seq<char>,
    TaskView,
> {
    if tasks.contains_key(id) && tasks[id].snapshot.status.ended() {
        tasks.remove(id)
    } else {
        tasks
    }
}

impl TaskRegistry {
    pub closed spec fn wf(&self) -> bool {
        distinct(self.entries@)
    }

    pub fn new() -> (registry: Self)
        ensures
            registry.wf(),
            registry@ == Map::<Seq<char>, TaskView>::empty(),
    {
        let registry = TaskRegistry { entries: Vec::new() };
        assert(registry@ =~= Map::<Seq<char>, TaskView>::empty());
        registry
    }

    fn find(&self, id: &str) -> (place: Option<usize>)
        requires
            self.wf(),
        ensures
            match place {
                Some(i) => stands_at(self.entries@, id@, i as int),
                None => !knows(self.entries@, id@),
            },
    {
        let mut i: usize = 0;
        while i < self.entries.len()
            invariant
                i <= self.entries@.len(),
                forall|j: int| 0 <= j < i ==> (#[trigger] self.entries@[j]).0@ != id@,
            decreases self.entries.len() - i,
        {
            if same(self.entries[i].0.as_str(), id) {
                return Some(i);
            }
            i = i + 1;
        }
        None
    }

    /// Keeps a task under an identifier, in place of the one that stood there.
    pub fn insert(&mut self, id: String, handle: TaskHandle)
        requires
            old(self).wf(),
        ensures
            final(self).wf(),
            final(self)@ == old(self)@.insert(id@, handle@),
    {
        let ghost before = self.entries@;
        match self.find(id.as_str()) {
            Some(i) => {
                self.entries[i] = (id, handle);
                proof {
                    lemma_replaced(before, self.entries@, id@, i as int);
                }
            },
            None => {
                self.entries.push((id, handle));
                proof {
                    let after = self.entries@;
                    let last = before.len() as int;
                    assert forall|a: int, b: int| 0 <= a < b < after.len() implies (
                    #[trigger] after[a]).0@ != (#[trigger] after[b]).0@ by {
                        if b == last && before[a].0@ == id@ {
                            assert(stands_at(before, id@, a));
                        }
                    }
                    assert(stands_at(after, id@, last));
                    lemma_place(after, id@, last);
                    assert forall|k: Seq<char>| #[trigger]
                        knows(before, k) implies knows(after, k) && tasks_of(after)[k] == tasks_of(
                        before,
                    )[k] by {
                        let p = place_of(before, k);
                        assert(stands_at(before, k, p));
                        assert(after[p] == before[p]);
                        assert(stands_at(after, k, p));
                        lemma_place(before, k, p);
                        lemma_place(after, k, p);
                    }
                    assert forall|k: Seq<char>| knows(after, k) && k != id@ implies #[trigger]
                        knows(before, k) by {
                        let p = place_of(after, k);
                        assert(stands_at(after, k, p));
                        assert(p != last);
                        assert(after[p] == before[p]);
                        assert(stands_at(before, k, p));
                    }
                    assert(tasks_of(after) =~= tasks_of(before).insert(id@, handle@));
                }
            },
        }
    }

    pub fn get(&self, id: &str) -> (handle: Option<&TaskHandle>)
        requires
            self.wf(),
        ensures
            match handle {
                Some(h) => self@.contains_key(id@) && h@ == self@[id@],
                None => !self@.contains_key(id@),
            },
    {
        match self.find(id) {
            Some(i) => {
                proof {
                    lemma_place(self.entries@, id@, i as int);
                }
                Some(&self.entries[i].1)
            },
            None => None,
        }
    }

    pub fn get_mut(&mut self, id: &str) -> (handle: Option<&mut TaskHandle>)
        requires
            old(self).wf(),
        ensures
            final(self).wf(),
            match handle {
                Some(h) => old(self)@.contains_key(id@) && h@ == old(self)@[id@] && final(self)@
                    == old(self)@.insert(id@, final(h)@),
                None => !old(self)@.contains_key(id@) && final(self)@ == old(self)@,
            },
    {
        match self.find(id) {
            Some(i) => {
                proof {
                    lemma_place(self.entries@, id@, i as int);
                }
                proof {
                    let before = self.entries@;
                    assert forall|after: Seq<(String, TaskHandle)>|
                        differs_at(before, after, i as int) implies #[trigger] tasks_of(after)
                        == tasks_of(before).insert(id@, after[i as int].1@) by {
                        lemma_replaced(before, after, id@, i as int);
                    }
                    assert forall|after: Seq<(String, TaskHandle)>|
                        differs_at(before, after, i as int) implies #[trigger] distinct(after) by {
                        lemma_replaced(before, after, id@, i as int);
                    }
                }
                Some(&mut self.entries[i].1)
            },
            None => None,
        }
    }

    /// Forgets a task that has ended.
    pub fn remove_ended(&mut self, id: &str)
        requires
            old(self).wf(),
        ensures
            final(self).wf(),
            final(self)@ == cleaned(old(self)@, id@),
    {
        let ghost before = self.entries@;
        if let Some(i) = self.find(id) {
            proof {
                lemma_place(before, id@, i as int);
            }
            if self.entries[i].1.snapshot.status.is_ended() {
                self.entries.remove(i);
                proof {
                    lemma_removed(before, self.entries@, id@, i as int);
                }
            }
        }
    }

    /// The snapshots of all tasks, the greatest identifier first.
    pub fn list(&self) -> (list: Vec<AgentTaskSnapshot>)
        requires
            self.wf(),
        ensures
            is_listing(self@, snapshot_views(list@)),
    {
        let mut list: Vec<AgentTaskSnapshot> = Vec::new();
        let ghost mut keys: Seq<Seq<char>> = Seq::empty();
        let mut i: usize = 0;
        while i < self.entries.len()
            invariant
                i <= self.entries@.len(),
                distinct(self.entries@),
                keys.len() == list@.len(),
                keys.no_duplicates(),
                forall|k: int|
                    0 <= k < keys.len() ==> shown_at(
                        self.entries@,
                        i as int,
                        #[trigger] keys[k],
                        list@[k]@,
                    ),
                forall|j: int| 0 <= j < i ==> keys.contains((#[trigger] self.entries@[j]).0@),
                descending(list@),
            decreases self.entries.len() - i,
        {
            let ghost old_keys = keys;
            let ghost old_list = list@;
            let ghost key = self.entries@[i as int].0@;
            let snapshot = self.entries[i].1.snapshot.clone();
            let ghost shown = snapshot@;
            let place = place_below(&list, snapshot.task_id.as_str());
            list.insert(place, snapshot);
            proof {
                keys = keys.insert(place as int, key);
                lemma_inserted(self.entries@, i as int, old_keys, old_list, list@, place as int);
            }
            i = i + 1;
        }
        proof {
            let views = snapshot_views(list@);
            assert forall|id: Seq<char>| self@.contains_key(id) <==> #[trigger] keys.contains(id) by {
                if self@.contains_key(id) {
                    let p = place_of(self.entries@, id);
                    assert(stands_at(self.entries@, id, p));
                    assert(keys.contains(self.entries@[p].0@));
                }
                if keys.contains(id) {
                    let k = keys.index_of(id);
                    assert(shown_at(self.entries@, i as int, keys[k], list@[k]@));
                    let p = choose|p: int|
                        0 <= p < i && stands_at(self.entries@, id, p)
                            && self.entries@[p].1@.snapshot == list@[k]@;
                    assert(knows(self.entries@, id));
                }
            }
            assert forall|k: int| 0 <= k < views.len() implies #[trigger] views[k]
                == self@[keys[k]].snapshot by {
                assert(shown_at(self.entries@, i as int, keys[k], list@[k]@));
                let p = choose|p: int|
                    0 <= p < i && stands_at(self.entries@, keys[k], p)
                        && self.entries@[p].1@.snapshot == list@[k]@;
                lemma_place(self.entries@, keys[k], p);
            }
            assert forall|a: int, b: int| 0 <= a < b < views.len() implies !precedes(
                (#[trigger] views[a]).task_id,
                (#[trigger] views[b]).task_id,
            ) by {
                assert(!precedes(list@[a]@.task_id, list@[b]@.task_id));
            }
            assert(is_listing_by(self@, keys, views));
        }
        list
    }
}

/// `shown` is the snapshot of one of the first `i` entries, which stands under `key`.
spec fn shown_at(
    entries: Seq<(String, TaskHandle)>,
    i: int,
    key: Seq<char>,
    shown: SnapshotView,
) -> bool {
    exists|p: int|
        0 <= p < i && #[trigger] stands_at(entries, key, p) && entries[p].1@.snapshot == shown
}

spec fn descending(list: Seq<AgentTaskSnapshot>) -> bool {
    forall|a: int, b: int|
        0 <= a < b < list.len() ==> !precedes(
            (#[trigger] list[a])@.task_id,
            (#[trigger] list[b])@.task_id,
        )
}

proof fn lemma_removed(
    before: Seq<(String, TaskHandle)>,
    after: Seq<(String, TaskHandle)>,
    id: Seq<char>,
    i: int,
)
    requires
        distinct(before),
        stands_at(before, id, i),
        after == before.remove(i),
    ensures
        distinct(after),
        tasks_of(after) == tasks_of(before).remove(id),
{
    let old_place = |j: int|
        if j < i {
            j
        } else {
            j + 1
        };
    assert forall|a: int, b: int| 0 <= a < b < after.len() implies (#[trigger] after[a]).0@ != (
    #[trigger] after[b]).0@ by {
        assert(before[old_place(a)].0@ != before[old_place(b)].0@);
    }
    assert forall|k: Seq<char>| #[trigger] knows(after, k) implies knows(before, k) && k != id
        && tasks_of(after)[k] == tasks_of(before)[k] by {
        let p = place_of(after, k);
        assert(stands_at(after, k, p));
        assert(after[p] == before[old_place(p)]);
        assert(stands_at(before, k, old_place(p)));
        lemma_place(after, k, p);
        lemma_place(before, k, old_place(p));
        if k == id {
            lemma_place(before, id, i);
        }
    }
    assert forall|k: Seq<char>| knows(before, k) && k != id implies #[trigger] knows(after, k) by {
        let p = place_of(before, k);
        assert(stands_at(before, k, p));
        let q = if p < i {
            p
        } else {
            p - 1
        };
        assert(after[q] == before[p]);
        assert(stands_at(after, k, q));
    }
    assert(tasks_of(after) =~= tasks_of(before).remove(id));
}

/// The place in a descending list before which an identifier belongs.
fn place_below(list: &Vec<AgentTaskSnapshot>, id: &str) -> (place: usize)
    requires
        descending(list@),
    ensures
        place <= list@.len(),
        forall|k: int| 0 <= k < place ==> !precedes((#[trigger] list@[k])@.task_id, id@),
        forall|k: int|
            place <= k < list@.len() ==> !precedes(id@, (#[trigger] list@[k])@.task_id),
{
    let mut place: usize = 0;
    while place < list.len() && !comes_before(list[place].task_id.as_str(), id)
        invariant
            place <= list@.len(),
            forall|k: int| 0 <= k < place ==> !precedes((#[trigger] list@[k])@.task_id, id@),
        decreases list.len() - place,
    {
        place = place + 1;
    }
    proof {
        assert forall|k: int| place <= k < list@.len() implies !precedes(
            id@,
            (#[trigger] list@[k])@.task_id,
        ) by {
            let low = list@[place as int]@.task_id;
            let here = list@[k]@.task_id;
            assert(precedes(low, id@));
            if k > place {
                assert(!precedes(low, here));
                lemma_precedes_total(low, here);
                if precedes(here, low) {
                    lemma_precedes_transitive(here, low, id@);
                }
            }
            lemma_precedes_asymmetric(here, id@);
        }
    }
    place
}

proof fn lemma_inserted(
    entries: Seq<(String, TaskHandle)>,
    i: int,
    old_keys: Seq<Seq<char>>,
    old_list: Seq<AgentTaskSnapshot>,
    list: Seq<AgentTaskSnapshot>,
    place: int,
)
    requires
        distinct(entries),
        0 <= i < entries.len(),
        old_keys.len() == old_list.len(),
        old_keys.no_duplicates(),
        0 <= place <= old_list.len(),
        list.len() == old_list.len() + 1,
        list == old_list.insert(place, list[place]),
        list[place]@ == entries[i].1@.snapshot,
        forall|k: int|
            0 <= k < old_keys.len() ==> shown_at(
                entries,
                i,
                #[trigger] old_keys[k],
                old_list[k]@,
            ),
        forall|j: int| 0 <= j < i ==> old_keys.contains((#[trigger] entries[j]).0@),
        descending(old_list),
        forall|k: int|
            0 <= k < place ==> !precedes(
                (#[trigger] old_list[k])@.task_id,
                list[place]@.task_id,
            ),
        forall|k: int|
            place <= k < old_list.len() ==> !precedes(
                list[place]@.task_id,
                (#[trigger] old_list[k])@.task_id,
            ),
    ensures
        ({
            let keys = old_keys.insert(place, entries[i].0@);
            &&& keys.len() == list.len()
            &&& keys.no_duplicates()
            &&& forall|k: int|
                0 <= k < keys.len() ==> shown_at(entries, i + 1, #[trigger] keys[k], list[k]@)
            &&& forall|j: int|
                0 <= j < i + 1 ==> keys.contains((#[trigger] entries[j]).0@)
            &&& descending(list)
        }),
{
    let key = entries[i].0@;
    let keys = old_keys.insert(place, key);
    let old_place = |k: int|
        if k < place {
            k
        } else {
            k - 1
        };
    assert forall|k: int| 0 <= k < old_keys.len() implies #[trigger] old_keys[k] != key by {
        assert(shown_at(entries, i, old_keys[k], old_list[k]@));
        let p = choose|p: int|
            0 <= p < i && #[trigger] stands_at(entries, old_keys[k], p)
                && entries[p].1@.snapshot == old_list[k]@;
        assert(entries[p].0@ != entries[i].0@);
    }
    assert forall|a: int, b: int| 0 <= a < keys.len() && 0 <= b < keys.len() && a != b implies keys[a]
        != keys[b] by {
        if a != place {
            assert(keys[a] == old_keys[old_place(a)]);
        }
        if b != place {
            assert(keys[b] == old_keys[old_place(b)]);
        }
    }
    assert forall|k: int| 0 <= k < keys.len() implies shown_at(
        entries,
        i + 1,
        #[trigger] keys[k],
        list[k]@,
    ) by {
        if k == place {
            assert(stands_at(entries, key, i));
        } else {
            let o = old_place(k);
            assert(keys[k] == old_keys[o]);
            assert(list[k] == old_list[o]);
            assert(shown_at(entries, i, old_keys[o], old_list[o]@));
            let p = choose|p: int|
                0 <= p < i && #[trigger] stands_at(entries, old_keys[o], p)
                    && entries[p].1@.snapshot == old_list[o]@;
            assert(stands_at(entries, keys[k], p));
        }
    }
    assert forall|j: int| 0 <= j < i + 1 implies keys.contains((#[trigger] entries[j]).0@) by {
        if j == i {
            assert(keys[place] == key);
        } else {
            let o = old_keys.index_of(entries[j].0@);
            assert(old_keys.contains(entries[j].0@));
            assert(old_keys[o] == entries[j].0@);
            if o < place {
                assert(keys[o] == old_keys[o]);
            } else {
                assert(keys[o + 1] == old_keys[o]);
            }
        }
    }
    assert forall|a: int, b: int| 0 <= a < b < list.len() implies !precedes(
        (#[trigger] list[a])@.task_id,
        (#[trigger] list[b])@.task_id,
    ) by {
        if a != place {
            assert(list[a] == old_list[old_place(a)]);
        }
        if b != place {
            assert(list[b] == old_list[old_place(b)]);
        }
    }
}

/// Cleaning up after a task forgets no task that has not ended, and no other task.
pub proof fn law_cleanup_forgets_only_ended(
    tasks: Map<Seq<char>, TaskView>,
    id: Seq<char>,
    other: Seq<char>,
)
    ensures
        tasks.contains_key(other) && (other != id || !tasks[other].snapshot.status.ended())
            ==> cleaned(tasks, id).contains_key(other) && cleaned(tasks, id)[other]
            == tasks[other],
        tasks.contains_key(id) && tasks[id].snapshot.status.ended() ==> !cleaned(
            tasks,
            id,
        ).contains_key(id),
{
}

/// In a listing of tasks that stand under their identifiers, the identifiers descend.
proof fn lemma_keys_descend(
    tasks: Map<Seq<char>, TaskView>,
    keys: Seq<Seq<char>>,
    list: Seq<SnapshotView>,
)
    requires
        is_keyed(tasks),
        is_listing_by(tasks, keys, list),
    ensures
        forall|i: int, j: int|
            0 <= i < j < keys.len() ==> precedes(#[trigger] keys[j], #[trigger] keys[i]),
{
    assert forall|i: int, j: int| 0 <= i < j < keys.len() implies precedes(
        #[trigger] keys[j],
        #[trigger] keys[i],
    ) by {
        assert(keys.contains(keys[i]) && keys.contains(keys[j]));
        assert(list[i].task_id == keys[i] && list[j].task_id == keys[j]);
        assert(keys[i] != keys[j]);
        lemma_precedes_total(keys[i], keys[j]);
    }
}

proof fn lemma_same_keys(
    tasks: Map<Seq<char>, TaskView>,
    a: Seq<Seq<char>>,
    b: Seq<Seq<char>>,
    n: int,
)
    requires
        0 <= n <= a.len(),
        n <= b.len(),
        forall|i: int, j: int| 0 <= i < j < a.len() ==> precedes(#[trigger] a[j], #[trigger] a[i]),
        forall|i: int, j: int| 0 <= i < j < b.len() ==> precedes(#[trigger] b[j], #[trigger] b[i]),
        forall|id: Seq<char>| tasks.contains_key(id) <==> #[trigger] a.contains(id),
        forall|id: Seq<char>| tasks.contains_key(id) <==> #[trigger] b.contains(id),
        a.no_duplicates(),
        b.no_duplicates(),
    ensures
        a.take(n) == b.take(n),
    decreases n,
{
    if n > 0 {
        let i = n - 1;
        lemma_same_keys(tasks, a, b, i);
        assert forall|k: int| 0 <= k < i implies a[k] == b[k] by {
            assert(a.take(i)[k] == b.take(i)[k]);
        }
        if a[i] != b[i] {
            assert(a.contains(a[i]) && b.contains(b[i]));
            assert(b.contains(a[i]) && a.contains(b[i]));
            let p = b.index_of(a[i]);
            let q = a.index_of(b[i]);
            assert(b[p] == a[i] && a[q] == b[i]);
            assert(p > i && q > i);
            lemma_precedes_asymmetric(a[i], b[i]);
        }
        assert(a.take(n) =~= b.take(n));
    } else {
        assert(a.take(n) =~= b.take(n));
    }
}

/// There is one listing only of tasks that stand under their identifiers.
pub proof fn law_listing_is_unique(
    tasks: Map<Seq<char>, TaskView>,
    one: Seq<SnapshotView>,
    other: Seq<SnapshotView>,
)
    requires
        is_keyed(tasks),
        is_listing(tasks, one),
        is_listing(tasks, other),
    ensures
        one == other,
{
    let a = choose|keys: Seq<Seq<char>>| #[trigger] is_listing_by(tasks, keys, one);
    let b = choose|keys: Seq<Seq<char>>| #[trigger] is_listing_by(tasks, keys, other);
    lemma_keys_descend(tasks, a, one);
    lemma_keys_descend(tasks, b, other);
    let n = if a.len() <= b.len() {
        a.len() as int
    } else {
        b.len() as int
    };
    lemma_same_keys(tasks, a, b, n);
    assert forall|k: int| 0 <= k < n implies a[k] == b[k] by {
        assert(a.take(n)[k] == b.take(n)[k]);
    }
    if a.len() > n {
        assert(a.contains(a[n]));
        assert(b.contains(a[n]));
        assert(a[b.index_of(a[n])] == a[n]);
    }
    if b.len() > n {
        assert(b.contains(b[n]));
        assert(a.contains(b[n]));
        assert(b[a.index_of(b[n])] == b[n]);
    }
    assert(one =~= other);
}

/// A listing holds every task once, and nothing else; of tasks that stand under their
/// identifiers it holds those with greater identifiers first.
pub proof fn law_listing_shows_every_task(
    tasks: Map<Seq<char>, TaskView>,
    list: Seq<SnapshotView>,
    id: Seq<char>,
)
    requires
        is_keyed(tasks),
        is_listing(tasks, list),
    ensures
        tasks.contains_key(id) <==> exists|i: int|
            0 <= i < list.len() && (#[trigger] list[i]).task_id == id,
        forall|i: int|
            0 <= i < list.len() ==> tasks.contains_key((#[trigger] list[i]).task_id) && list[i]
                == tasks[list[i].task_id].snapshot,
        forall|i: int, j: int|
            0 <= i < j < list.len() ==> precedes(
                (#[trigger] list[j]).task_id,
                (#[trigger] list[i]).task_id,
            ),
{
    let keys = choose|keys: Seq<Seq<char>>| #[trigger] is_listing_by(tasks, keys, list);
    lemma_keys_descend(tasks, keys, list);
    assert forall|i: int| 0 <= i < list.len() implies tasks.contains_key(
        (#[trigger] list[i]).task_id,
    ) && list[i] == tasks[list[i].task_id].snapshot && list[i].task_id == keys[i] by {
        assert(keys.contains(keys[i]));
    }
    if tasks.contains_key(id) {
        assert(keys.contains(id));
        let i = keys.index_of(id);
        assert(list[i].task_id == keys[i]);
    }
    assert forall|i: int, j: int| 0 <= i < j < list.len() implies precedes(
        (#[trigger] list[j]).task_id,
        (#[trigger] list[i]).task_id,
    ) by {
        assert(list[i].task_id == keys[i] && list[j].task_id == keys[j]);
    }
}

} // verus!

//! Mission checkpoints kept for continuity handoffs, keyed by `mission::robot`.
//!
//! The store is generic over the snapshot it keeps; reading and writing it on
//! disk is left to the caller.
use vstd::prelude::*;
use crate::text::{cat3, owned, str_eq};

verus! {

/// The key a mission/robot pair is stored under.
pub open spec fn store_key_spec(mission: Seq<char>, robot: Seq<char>) -> Seq<char> {
    mission + "::"@ + robot
}

/// The store after a snapshot is recorded for a mission/robot pair.
pub open spec fn after_record<S>(m: Map<Seq<char>, S>, mission: Seq<char>, robot: Seq<char>, snapshot: S) -> Map<
    Seq<char>,
    S,
> {
    m.insert(store_key_spec(mission, robot), snapshot)
}

fn store_key(mission: &str, robot: &str) -> (r: String)
    ensures
        r@ == store_key_spec(mission@, robot@),
{
    cat3(mission, "::", robot)
}

/// The map an entry list stands for: each key to the snapshot stored with it.
pub open spec fn entries_map<S>(es: Seq<(String, S)>) -> Map<Seq<char>, S>
    decreases es.len(),
{
    if es.len() == 0 {
        Map::empty()
    } else {
        entries_map(es.drop_last()).insert(es.last().0@, es.last().1)
    }
}

/// No key occurs twice.
pub open spec fn keys_unique<S>(es: Seq<(String, S)>) -> bool {
    forall|i: int, j: int| 0 <= i < j < es.len() ==> (#[trigger] es[i].0)@ != (#[trigger] es[j].0)@
}

proof fn lemma_entry_found<S>(es: Seq<(String, S)>, i: int)
    requires
        keys_unique(es),
        0 <= i < es.len(),
    ensures
        entries_map(es).contains_key(es[i].0@),
        entries_map(es)[es[i].0@] == es[i].1,
    decreases es.len(),
{
    if i < es.len() - 1 {
        let d = es.drop_last();
        assert(d[i] == es[i]);
        assert(keys_unique(d)) by {
            assert forall|a: int, b: int| 0 <= a < b < d.len() implies (#[trigger] d[a].0)@ != (
            #[trigger] d[b].0)@ by {
                assert(d[a] == es[a] && d[b] == es[b]);
            }
        }
        lemma_entry_found(d, i);
        assert(es[i].0@ != es[es.len() - 1].0@);
    }
}

proof fn lemma_entry_absent<S>(es: Seq<(String, S)>, k: Seq<char>)
    requires
        forall|i: int| 0 <= i < es.len() ==> (#[trigger] es[i].0)@ != k,
    ensures
        !entries_map(es).contains_key(k),
    decreases es.len(),
{
    if es.len() > 0 {
        let d = es.drop_last();
        assert forall|i: int| 0 <= i < d.len() implies (#[trigger] d[i].0)@ != k by {
            assert(d[i] == es[i]);
        }
        lemma_entry_absent(d, k);
        assert(es[es.len() - 1].0@ != k);
    }
}

proof fn lemma_entry_update<S>(es: Seq<(String, S)>, i: int, v: S)
    requires
        keys_unique(es),
        0 <= i < es.len(),
    ensures
        entries_map(es.update(i, (es[i].0, v))) == entries_map(es).insert(es[i].0@, v),
        keys_unique(es.update(i, (es[i].0, v))),
    decreases es.len(),
{
    let u = es.update(i, (es[i].0, v));
    let k = es[i].0@;
    assert forall|a: int, b: int| 0 <= a < b < u.len() implies (#[trigger] u[a].0)@ != (#[trigger] u[b].0)@ by {
        assert(u[a].0 == es[a].0 && u[b].0 == es[b].0);
    }
    let d = es.drop_last();
    if i == es.len() - 1 {
        assert(u.drop_last() =~= d);
        assert(entries_map(u) =~= entries_map(es).insert(k, v));
    } else {
        assert(keys_unique(d)) by {
            assert forall|a: int, b: int| 0 <= a < b < d.len() implies (#[trigger] d[a].0)@ != (
            #[trigger] d[b].0)@ by {
                assert(d[a] == es[a] && d[b] == es[b]);
            }
        }
        lemma_entry_update(d, i, v);
        assert(u.drop_last() =~= d.update(i, (d[i].0, v)));
        assert(es.last().0@ != k);
        assert(entries_map(u) =~= entries_map(es).insert(k, v));
    }
}

/// Checkpoint index keyed by `mission::robot`.
///
/// The entries are a `Vec` of key and snapshot whose keys are unique (the type
/// invariant), viewed as a map. A `HashMap<String, _>` is not used: vstd
/// describes a hash map's contents only for key types that obey its key
/// model, which it establishes for integer and `bool` keys and not for
/// `String`, so with a `String` key Verus accepts the calls but proves nothing
/// of what they do, not even that one `insert` into an empty map gives length 1.
#[derive(Debug)]
pub struct ContinuityCheckpointStore<S> {
    entries: Vec<(String, S)>,
}

impl<S> View for ContinuityCheckpointStore<S> {
    type V = Map<Seq<char>, S>;

    closed spec fn view(&self) -> Map<Seq<char>, S> {
        entries_map(self.entries@)
    }
}

impl<S> ContinuityCheckpointStore<S> {
    #[verifier::type_invariant]
    spec fn wf(self) -> bool {
        keys_unique(self.entries@)
    }

    /// An empty store.
    pub fn new() -> (r: Self)
        ensures
            r@ == Map::<Seq<char>, S>::empty(),
    {
        ContinuityCheckpointStore { entries: Vec::new() }
    }

    /// Number of stored checkpoints.
    pub fn len(&self) -> (r: usize)
        ensures
            r == self@.len(),
    {
        proof {
            use_type_invariant(self);
            lemma_map_len(self.entries@);
        }
        self.entries.len()
    }

    /// The stored entries, each key with its snapshot.
    pub fn entries(&self) -> (r: &Vec<(String, S)>)
        ensures
            entries_map(r@) == self@,
            keys_unique(r@),
    {
        proof {
            use_type_invariant(self);
        }
        &self.entries
    }

    /// Store `snapshot` under `key`, replacing what was stored under it.
    pub fn insert_key(&mut self, key: String, snapshot: S)
        ensures
            final(self)@ == old(self)@.insert(key@, snapshot),
    {
        proof {
            use_type_invariant(&*self);
        }
        let mut i: usize = 0;
        while i < self.entries.len()
            invariant
                0 <= i <= self.entries@.len(),
                keys_unique(self.entries@),
                self.entries@ == old(self).entries@,
                forall|k: int| 0 <= k < i ==> (#[trigger] self.entries@[k].0)@ != key@,
            decreases self.entries@.len() - i,
        {
            if str_eq(self.entries[i].0.as_str(), key.as_str()) {
                let ghost before = self.entries@;
                proof {
                    lemma_entry_update(before, i as int, snapshot);
                }
                let old_key = copy_key(&self.entries[i].0);
                let mut entries = Vec::new();
                std::mem::swap(&mut entries, &mut self.entries);
                entries.set(i, (old_key, snapshot));
                assert(entries@ == before.update(i as int, (before[i as int].0, snapshot)));
                self.entries = entries;
                return;
            }
            i = i + 1;
        }
        let ghost before = self.entries@;
        proof {
            lemma_entry_absent(before, key@);
        }
        let mut entries = Vec::new();
        std::mem::swap(&mut entries, &mut self.entries);
        entries.push((key, snapshot));
        assert(entries@.drop_last() =~= before);
        assert forall|a: int, b: int| 0 <= a < b < entries@.len() implies (#[trigger] entries@[a].0)@ != (
        #[trigger] entries@[b].0)@ by {
            if b == entries@.len() - 1 {
                assert(entries@[a] == before[a]);
            } else {
                assert(entries@[a] == before[a] && entries@[b] == before[b]);
            }
        }
        self.entries = entries;
    }

    /// The snapshot stored under `key`, if any.
    pub fn get_key(&self, key: &str) -> (r: Option<&S>)
        ensures
            match r {
                Some(v) => self@.contains_key(key@) && self@[key@] == *v,
                None => !self@.contains_key(key@),
            },
    {
        proof {
            use_type_invariant(self);
        }
        let mut i: usize = 0;
        while i < self.entries.len()
            invariant
                0 <= i <= self.entries@.len(),
                keys_unique(self.entries@),
                forall|k: int| 0 <= k < i ==> (#[trigger] self.entries@[k].0)@ != key@,
            decreases self.entries@.len() - i,
        {
            if str_eq(self.entries[i].0.as_str(), key) {
                proof {
                    lemma_entry_found(self.entries@, i as int);
                }
                return Some(&self.entries[i].1);
            }
            i = i + 1;
        }
        proof {
            lemma_entry_absent(self.entries@, key@);
        }
        None
    }
}

fn copy_key(s: &String) -> (r: String)
    ensures
        r == *s,
{
    s.clone()
}

proof fn lemma_map_len<S>(es: Seq<(String, S)>)
    requires
        keys_unique(es),
    ensures
        entries_map(es).len() == es.len(),
        entries_map(es).dom().finite(),
    decreases es.len(),
{
    if es.len() > 0 {
        let d = es.drop_last();
        assert(keys_unique(d)) by {
            assert forall|a: int, b: int| 0 <= a < b < d.len() implies (#[trigger] d[a].0)@ != (#[trigger] d[b].0)@ by {
                assert(d[a] == es[a] && d[b] == es[b]);
            }
        }
        lemma_map_len(d);
        assert forall|i: int| 0 <= i < d.len() implies (#[trigger] d[i].0)@ != es.last().0@ by {
            assert(d[i] == es[i]);
        }
        lemma_entry_absent(d, es.last().0@);
    }
}

impl<S> Default for ContinuityCheckpointStore<S> {
    fn default() -> (r: Self)
        ensures
            r@ == Map::<Seq<char>, S>::empty(),
    {
        Self::new()
    }
}

/// Default checkpoint store under the project `.spanda/` directory.
pub fn default_checkpoint_store_path() -> (r: String)
    ensures
        r@ == ".spanda/mission-checkpoints.json"@,
{
    owned(".spanda/mission-checkpoints.json")
}

/// Record a snapshot for a mission/robot pair, replacing an earlier one.
pub fn record_checkpoint<S>(store: &mut ContinuityCheckpointStore<S>, mission: &str, robot: &str, snapshot: S)
    ensures
        final(store)@ == after_record(old(store)@, mission@, robot@, snapshot),
{
    store.insert_key(store_key(mission, robot), snapshot);
}

/// Load a stored snapshot for a mission/robot pair (a clone of it).
pub fn load_checkpoint<S: Clone>(store: &ContinuityCheckpointStore<S>, mission: &str, robot: &str) -> (r: Option<S>)
    ensures
        match r {
            Some(v) => store@.contains_key(store_key_spec(mission@, robot@)) && cloned(
                store@[store_key_spec(mission@, robot@)],
                v,
            ),
            None => !store@.contains_key(store_key_spec(mission@, robot@)),
        },
{
    let key = store_key(mission, robot);
    match store.get_key(key.as_str()) {
        Some(v) => Some(v.clone()),
        None => None,
    }
}

/// A fresh store holds no checkpoint for any mission and robot.
pub proof fn law_fresh_store_holds_nothing<S>(mission: Seq<char>, robot: Seq<char>)
    ensures
        !Map::<Seq<char>, S>::empty().contains_key(store_key_spec(mission, robot)),
{
}

/// A checkpoint read back after it was recorded is (a clone of) the recorded snapshot.
pub proof fn law_load_after_record<S>(before: Map<Seq<char>, S>, mission: Seq<char>, robot: Seq<char>, snapshot: S)
    ensures
        after_record(before, mission, robot, snapshot).contains_key(store_key_spec(mission, robot)),
        after_record(before, mission, robot, snapshot)[store_key_spec(mission, robot)] == snapshot,
{
}

/// Recording a checkpoint leaves the checkpoints under every other key unchanged.
pub proof fn law_record_keeps_other_keys<S>(
    before: Map<Seq<char>, S>,
    mission: Seq<char>,
    robot: Seq<char>,
    snapshot: S,
    other: Seq<char>,
)
    requires
        other != store_key_spec(mission, robot),
    ensures
        after_record(before, mission, robot, snapshot).contains_key(other) == before.contains_key(other),
        before.contains_key(other) ==> after_record(before, mission, robot, snapshot)[other] == before[other],
{
}

} // verus!

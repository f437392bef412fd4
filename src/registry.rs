use vstd::prelude::*;
use crate::interval::{ActivityInterval, all_ordered};

verus! {

/// The abstract content of a registry or a snapshot: each client identity
/// mapped to its windows, oldest first.
pub type RegistryView = Map<Seq<char>, Seq<ActivityInterval>>;

/// One client's entry: its identity and its windows in insertion order.
pub struct ClientRecord {
    pub id: String,
    pub intervals: Vec<ActivityInterval>,
}

/// Why a registration is reported. The registration still takes effect.
#[derive(Clone, Copy, Debug, PartialEq, Eq, Structural)]
pub enum RegistryError {
    /// The identity was already present; its earlier record was replaced.
    DuplicateRegistration,
}

/// No identity occurs twice in `recs`.
pub open spec fn ids_unique(recs: Seq<ClientRecord>) -> bool {
    forall|i: int, j: int|
        0 <= i < recs.len() && 0 <= j < recs.len() && i != j ==> (#[trigger] recs[i]).id@
            != (#[trigger] recs[j]).id@
}

/// `recs` lists exactly the entries of `m`, each once.
pub open spec fn lists_exactly(recs: Seq<ClientRecord>, m: RegistryView) -> bool {
    &&& ids_unique(recs)
    &&& forall|i: int|
        0 <= i < recs.len() ==> m.contains_key((#[trigger] recs[i]).id@) && m[recs[i].id@]
            == recs[i].intervals@
    &&& forall|k: Seq<char>|
        m.contains_key(k) ==> exists|i: int| 0 <= i < recs.len() && (#[trigger] recs[i]).id@ == k
}

/// Every window held in `m` is ordered.
pub open spec fn windows_ordered(m: RegistryView) -> bool {
    forall|k: Seq<char>| m.contains_key(k) ==> all_ordered(#[trigger] m[k])
}

/// `m` after `register(id)`: the identity maps to an empty sequence,
/// whatever it held before.
pub open spec fn registered(m: RegistryView, id: Seq<char>) -> RegistryView {
    m.insert(id, Seq::empty())
}

/// `m` after `deregister(id)`: the identity and its record are gone.
pub open spec fn deregistered(m: RegistryView, id: Seq<char>) -> RegistryView {
    m.remove(id)
}

/// `m` after `record_activity(id, iv)`: the window is appended to the
/// identity's record when present; otherwise nothing changes.
pub open spec fn recorded(m: RegistryView, id: Seq<char>, iv: ActivityInterval) -> RegistryView {
    if m.contains_key(id) {
        m.insert(id, m[id].push(iv))
    } else {
        m
    }
}

/// The identity maps to its record; the map from client identity to the
/// sequence of activity windows of that client.
pub struct ActivityRegistry {
    records: Vec<ClientRecord>,
    model: Ghost<RegistryView>,
}

impl View for ActivityRegistry {
    type V = RegistryView;

    closed spec fn view(&self) -> RegistryView {
        self.model@
    }
}

impl ClientRecord {
    /// An independent copy of the record.
    pub fn duplicate(&self) -> (r: ClientRecord)
        ensures
            r.id@ == self.id@,
            r.intervals@ == self.intervals@,
    {
        let mut intervals: Vec<ActivityInterval> = Vec::new();
        let mut t: usize = 0;
        while t < self.intervals.len()
            invariant
                t <= self.intervals@.len(),
                intervals@ == self.intervals@.subrange(0, t as int),
            decreases self.intervals@.len() - t,
        {
            intervals.push(self.intervals[t]);
            t = t + 1;
            proof {
                assert(intervals@ =~= self.intervals@.subrange(0, t as int));
            }
        }
        proof {
            assert(intervals@ =~= self.intervals@);
        }
        ClientRecord { id: self.id.clone(), intervals }
    }
}

impl ActivityRegistry {
    /// Internal consistency: the records list the model exactly, the model
    /// is finite with one entry per record, and every window is ordered.
    pub closed spec fn wf(&self) -> bool {
        &&& lists_exactly(self.records@, self.model@)
        &&& self.model@.dom().finite()
        &&& self.model@.dom().len() == self.records@.len()
        &&& windows_ordered(self.model@)
    }

    /// An empty registry.
    pub fn new() -> (r: ActivityRegistry)
        ensures
            r.wf(),
            r@ == RegistryView::empty(),
    {
        let r = ActivityRegistry { records: Vec::new(), model: Ghost(Map::empty()) };
        proof {
            assert(r.model@.dom() =~= Set::empty());
        }
        r
    }

    /// Position of the record for `id`, if any.
    fn position(&self, id: &String) -> (r: Option<usize>)
        requires
            self.wf(),
        ensures
            r matches Some(i) ==> i < self.records@.len() && self.records@[i as int].id@ == id@,
            r is None ==> !self@.contains_key(id@),
    {
        let mut i: usize = 0;
        while i < self.records.len()
            invariant
                i <= self.records@.len(),
                forall|j: int| 0 <= j < i ==> (#[trigger] self.records@[j]).id@ != id@,
            decreases self.records@.len() - i,
        {
            if self.records[i].id == *id {
                return Some(i);
            }
            i = i + 1;
        }
        None
    }

    /// Number of registered identities.
    pub fn len(&self) -> (r: usize)
        requires
            self.wf(),
        ensures
            r == self@.len(),
    {
        self.records.len()
    }

    /// Whether `id` is registered.
    pub fn contains(&self, id: &String) -> (r: bool)
        requires
            self.wf(),
        ensures
            r == self@.contains_key(id@),
    {
        self.position(id).is_some()
    }

    /// A copy of the windows recorded for `id`; `None` when it is not registered.
    pub fn intervals_of(&self, id: &String) -> (r: Option<Vec<ActivityInterval>>)
        requires
            self.wf(),
        ensures
            r is Some <==> self@.contains_key(id@),
            r matches Some(v) ==> v@ == self@[id@],
    {
        match self.position(id) {
            Some(i) => Some(self.records[i].duplicate().intervals),
            None => None,
        }
    }

    /// Registers `id` with no windows. An identity that is already present
    /// has its record replaced, and the call reports `DuplicateRegistration`.
    pub fn register(&mut self, id: String) -> (r: Result<(), RegistryError>)
        requires
            old(self).wf(),
        ensures
            final(self).wf(),
            final(self)@ == registered(old(self)@, id@),
            r is Err <==> old(self)@.contains_key(id@),
            r matches Err(e) ==> e == RegistryError::DuplicateRegistration,
    {
        let ghost key = id@;
        let ghost m0 = self.model@;
        match self.position(&id) {
            Some(i) => {
                let ghost before = self.records@;
                self.records.set(i, ClientRecord { id, intervals: Vec::new() });
                self.model = Ghost(registered(m0, key));
                proof {
                    let recs = self.records@;
                    let m = self.model@;
                    assert(m.dom() =~= m0.dom());
                    assert forall|a: int, b: int|
                        0 <= a < recs.len() && 0 <= b < recs.len() && a != b implies (
                        #[trigger] recs[a]).id@ != (#[trigger] recs[b]).id@ by {
                        assert(before[a].id@ != before[b].id@);
                    }
                    assert forall|a: int| 0 <= a < recs.len() implies m.contains_key(
                        (#[trigger] recs[a]).id@) && m[recs[a].id@] == recs[a].intervals@ by {
                        if a != i {
                            assert(before[a].id@ != before[i as int].id@);
                        }
                    }
                    assert forall|k: Seq<char>| m.contains_key(k) implies exists|a: int|
                        0 <= a < recs.len() && (#[trigger] recs[a]).id@ == k by {
                        let a = choose|a: int| 0 <= a < before.len() && (#[trigger] before[a]).id@ == k;
                        assert(recs[a].id@ == k);
                    }
                    assert forall|k: Seq<char>| m.contains_key(k) implies all_ordered(
                        #[trigger] m[k]) by {
                        if k != key {
                            assert(all_ordered(m0[k]));
                        }
                    }
                }
                Err(RegistryError::DuplicateRegistration)
            },
            None => {
                let ghost before = self.records@;
                self.records.push(ClientRecord { id, intervals: Vec::new() });
                self.model = Ghost(registered(m0, key));
                proof {
                    let recs = self.records@;
                    let m = self.model@;
                    let n = before.len() as int;
                    assert(m.dom() =~= m0.dom().insert(key));
                    assert forall|a: int, b: int|
                        0 <= a < recs.len() && 0 <= b < recs.len() && a != b implies (
                        #[trigger] recs[a]).id@ != (#[trigger] recs[b]).id@ by {
                        if a < n && b < n {
                            assert(before[a].id@ != before[b].id@);
                        } else if a < n {
                            assert(m0.contains_key(before[a].id@));
                        } else if b < n {
                            assert(m0.contains_key(before[b].id@));
                        }
                    }
                    assert forall|a: int| 0 <= a < recs.len() implies m.contains_key(
                        (#[trigger] recs[a]).id@) && m[recs[a].id@] == recs[a].intervals@ by {
                        if a < n {
                            assert(m0.contains_key(before[a].id@));
                            assert(before[a].id@ != key);
                        }
                    }
                    assert forall|k: Seq<char>| m.contains_key(k) implies exists|a: int|
                        0 <= a < recs.len() && (#[trigger] recs[a]).id@ == k by {
                        if k == key {
                            assert(recs[n].id@ == k);
                        } else {
                            let a = choose|a: int| 0 <= a < before.len() && (#[trigger] before[a]).id@ == k;
                            assert(recs[a].id@ == k);
                        }
                    }
                    assert forall|k: Seq<char>| m.contains_key(k) implies all_ordered(
                        #[trigger] m[k]) by {
                        if k != key {
                            assert(all_ordered(m0[k]));
                        }
                    }
                }
                Ok(())
            },
        }
    }
    /// Appends `iv` to the record of `id`. Activity for an identity that is
    /// not registered (for instance, one deregistered concurrently) is
    /// dropped without error.
    pub fn record_activity(&mut self, id: &String, iv: ActivityInterval)
        requires
            old(self).wf(),
            iv.is_ordered(),
        ensures
            final(self).wf(),
            final(self)@ == recorded(old(self)@, id@, iv),
            !old(self)@.contains_key(id@) ==> final(self)@ == old(self)@,
    {
        let ghost key = id@;
        let ghost m0 = self.model@;
        match self.position(id) {
            Some(i) => {
                let ghost before = self.records@;
                self.records[i].intervals.push(iv);
                self.model = Ghost(recorded(m0, key, iv));
                proof {
                    let recs = self.records@;
                    let m = self.model@;
                    assert(m0.contains_key(key));
                    assert(m.dom() =~= m0.dom());
                    assert forall|a: int, b: int|
                        0 <= a < recs.len() && 0 <= b < recs.len() && a != b implies (
                        #[trigger] recs[a]).id@ != (#[trigger] recs[b]).id@ by {
                        assert(before[a].id@ != before[b].id@);
                    }
                    assert forall|a: int| 0 <= a < recs.len() implies m.contains_key(
                        (#[trigger] recs[a]).id@) && m[recs[a].id@] == recs[a].intervals@ by {
                        if a != i {
                            assert(before[a].id@ != before[i as int].id@);
                        }
                    }
                    assert forall|k: Seq<char>| m.contains_key(k) implies exists|a: int|
                        0 <= a < recs.len() && (#[trigger] recs[a]).id@ == k by {
                        let a = choose|a: int| 0 <= a < before.len() && (#[trigger] before[a]).id@ == k;
                        assert(recs[a].id@ == k);
                    }
                    assert forall|k: Seq<char>| m.contains_key(k) implies all_ordered(
                        #[trigger] m[k]) by {
                        assert(all_ordered(m0[k]));
                        if k == key {
                            assert forall|t: int| 0 <= t < m[k].len() implies (
                            #[trigger] m[k][t]).is_ordered() by {
                                if t < m0[k].len() {
                                    assert(m0[k][t].is_ordered());
                                }
                            }
                        }
                    }
                }
            },
            None => {},
        }
    }

    /// Removes `id` and its record. Removing an absent identity changes nothing.
    pub fn deregister(&mut self, id: &String)
        requires
            old(self).wf(),
        ensures
            final(self).wf(),
            final(self)@ == deregistered(old(self)@, id@),
    {
        let ghost key = id@;
        let ghost m0 = self.model@;
        match self.position(id) {
            Some(i) => {
                let ghost before = self.records@;
                self.records.remove(i);
                self.model = Ghost(deregistered(m0, key));
                proof {
                    let recs = self.records@;
                    let m = self.model@;
                    assert(m0.contains_key(key));
                    assert(m.dom() =~= m0.dom().remove(key));
                    assert forall|a: int|
                        0 <= a < recs.len() implies #[trigger] recs[a] == before[if a < i { a } else { a + 1 }] by {}
                    assert forall|a: int, b: int|
                        0 <= a < recs.len() && 0 <= b < recs.len() && a != b implies (
                        #[trigger] recs[a]).id@ != (#[trigger] recs[b]).id@ by {
                        let a0 = if a < i { a } else { a + 1 };
                        let b0 = if b < i { b } else { b + 1 };
                        assert(before[a0].id@ != before[b0].id@);
                    }
                    assert forall|a: int| 0 <= a < recs.len() implies m.contains_key(
                        (#[trigger] recs[a]).id@) && m[recs[a].id@] == recs[a].intervals@ by {
                        let a0 = if a < i { a } else { a + 1 };
                        assert(before[a0].id@ != before[i as int].id@);
                        assert(m0.contains_key(before[a0].id@));
                    }
                    assert forall|k: Seq<char>| m.contains_key(k) implies exists|a: int|
                        0 <= a < recs.len() && (#[trigger] recs[a]).id@ == k by {
                        let a0 = choose|a: int| 0 <= a < before.len() && (#[trigger] before[a]).id@ == k;
                        assert(a0 != i);
                        let a = if a0 < i { a0 } else { a0 - 1 };
                        assert(recs[a].id@ == k);
                    }
                    assert forall|k: Seq<char>| m.contains_key(k) implies all_ordered(
                        #[trigger] m[k]) by {
                        assert(all_ordered(m0[k]));
                    }
                }
            },
            None => {
                proof {
                    assert(self.model@ =~= deregistered(m0, key));
                }
            },
        }
    }

    /// A point-in-time copy of every record, each identity once, in no
    /// particular order. Later changes to the registry do not reach it.
    pub fn snapshot(&self) -> (r: Vec<ClientRecord>)
        requires
            self.wf(),
        ensures
            lists_exactly(r@, self@),
            r@.len() == self@.len(),
            forall|i: int| 0 <= i < r@.len() ==> all_ordered((#[trigger] r@[i]).intervals@),
    {
        let mut out: Vec<ClientRecord> = Vec::new();
        let mut i: usize = 0;
        while i < self.records.len()
            invariant
                self.wf(),
                i <= self.records@.len(),
                out@.len() == i,
                forall|j: int|
                    0 <= j < i ==> (#[trigger] out@[j]).id@ == self.records@[j].id@
                        && out@[j].intervals@ == self.records@[j].intervals@,
            decreases self.records@.len() - i,
        {
            out.push(self.records[i].duplicate());
            i = i + 1;
        }
        proof {
            let recs = self.records@;
            let m = self.model@;
            assert forall|a: int, b: int|
                0 <= a < out@.len() && 0 <= b < out@.len() && a != b implies (
                #[trigger] out@[a]).id@ != (#[trigger] out@[b]).id@ by {
                assert(recs[a].id@ != recs[b].id@);
            }
            assert forall|a: int| 0 <= a < out@.len() implies m.contains_key(
                (#[trigger] out@[a]).id@) && m[out@[a].id@] == out@[a].intervals@ by {
                assert(m.contains_key(recs[a].id@));
            }
            assert forall|k: Seq<char>| m.contains_key(k) implies exists|a: int|
                0 <= a < out@.len() && (#[trigger] out@[a]).id@ == k by {
                let a = choose|a: int| 0 <= a < recs.len() && (#[trigger] recs[a]).id@ == k;
                assert(out@[a].id@ == k);
            }
            assert forall|a: int| 0 <= a < out@.len() implies all_ordered(
                (#[trigger] out@[a]).intervals@) by {
                assert(m.contains_key(recs[a].id@));
                assert(all_ordered(m[recs[a].id@]));
            }
        }
        out
    }
}

/// The registry content after applying `ops` for one identity, in order:
/// `true` is a registration, `false` a deregistration.
pub open spec fn after_membership_ops(m: RegistryView, id: Seq<char>, ops: Seq<bool>) -> RegistryView
    decreases ops.len(),
{
    if ops.len() == 0 {
        m
    } else {
        let prev = after_membership_ops(m, id, ops.drop_last());
        if ops.last() {
            registered(prev, id)
        } else {
            deregistered(prev, id)
        }
    }
}

/// Registrations in `ops` after its last deregistration (after its start,
/// when it has none).
pub open spec fn registrations_since_removal(ops: Seq<bool>) -> nat
    decreases ops.len(),
{
    if ops.len() == 0 {
        0
    } else if ops.last() {
        registrations_since_removal(ops.drop_last()) + 1
    } else {
        0
    }
}

/// A registry holds an identity after a run of registrations and
/// deregistrations of it exactly when registrations outnumber deregistrations
/// since the last removal; with no removal in the run, an identity that was
/// present stays present. Other identities are untouched.
pub proof fn lemma_membership_follows_net_registrations(
    m: RegistryView,
    id: Seq<char>,
    ops: Seq<bool>,
)
    ensures
        after_membership_ops(m, id, ops).contains_key(id) <==> (registrations_since_removal(ops)
            > 0 || (!ops.contains(false) && m.contains_key(id))),
        after_membership_ops(m, id, ops).remove(id) == m.remove(id),
    decreases ops.len(),
{
    if ops.len() > 0 {
        let pre = ops.drop_last();
        lemma_membership_follows_net_registrations(m, id, pre);
        let prev = after_membership_ops(m, id, pre);
        if ops.last() {
            assert(registered(prev, id).remove(id) =~= prev.remove(id));
            assert(ops.contains(false) == pre.contains(false)) by {
                if pre.contains(false) {
                    let j = choose|j: int| 0 <= j < pre.len() && pre[j] == false;
                    assert(ops[j] == false);
                }
                if ops.contains(false) {
                    let j = choose|j: int| 0 <= j < ops.len() && ops[j] == false;
                    assert(j < pre.len());
                    assert(pre[j] == false);
                }
            }
        } else {
            assert(deregistered(prev, id).remove(id) =~= prev.remove(id));
            assert(ops[ops.len() - 1] == false);
        }
    }
}

/// Every window held by a consistent registry runs forward, so no copy of
/// it shows a negative-length window.
pub proof fn lemma_registry_windows_ordered(reg: &ActivityRegistry)
    requires
        reg.wf(),
    ensures
        windows_ordered(reg@),
{
}

} // verus!

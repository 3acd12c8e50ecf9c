//! A deterministic completion map: completions are consumed strictly in the
//! order in which they arrived.
use crate::history::Event;
use crate::runtime::router::OrchestratorMsg;
use std::collections::VecDeque;
use vstd::prelude::*;

verus! {

/// The kind of completion for deterministic ordering
#[derive(Debug, Clone, Copy, PartialEq, Eq, Structural, Hash)]
pub enum CompletionKind {
    Activity,
    Timer,
    External,
    SubOrchestration,
    Cancel,
}

/// The actual completion value
#[derive(Debug, PartialEq, Eq)]
pub enum CompletionValue {
    ActivityResult(Result<String, String>),
    TimerFired { fire_at_ms: u64 },
    ExternalData { name: String, data: String },
    SubOrchResult(Result<String, String>),
    CancelReason(String),
}

fn clone_result(r: &Result<String, String>) -> (c: Result<String, String>)
    ensures
        c == *r,
{
    match r {
        Ok(s) => Ok(s.clone()),
        Err(e) => Err(e.clone()),
    }
}

impl Clone for CompletionValue {
    fn clone(&self) -> (r: Self)
        ensures
            r == *self,
    {
        match self {
            CompletionValue::ActivityResult(r) => CompletionValue::ActivityResult(clone_result(r)),
            CompletionValue::TimerFired { fire_at_ms } => CompletionValue::TimerFired { fire_at_ms: *fire_at_ms },
            CompletionValue::ExternalData { name, data } => CompletionValue::ExternalData {
                name: name.clone(),
                data: data.clone(),
            },
            CompletionValue::SubOrchResult(r) => CompletionValue::SubOrchResult(clone_result(r)),
            CompletionValue::CancelReason(s) => CompletionValue::CancelReason(s.clone()),
        }
    }
}

/// Data associated with a completion
#[derive(Debug)]
pub struct CompletionData {
    pub kind: CompletionKind,
    pub correlation_id: u64,
    pub data: CompletionValue,
    pub arrival_order: usize,
}

impl Clone for CompletionData {
    fn clone(&self) -> (r: Self)
        ensures
            r == *self,
    {
        CompletionData {
            kind: self.kind,
            correlation_id: self.correlation_id,
            data: self.data.clone(),
            arrival_order: self.arrival_order,
        }
    }
}

/// Entry in the ordered completion list
#[derive(Debug, Clone, Copy, PartialEq, Eq)]
pub struct CompletionEntry {
    pub kind: CompletionKind,
    pub correlation_id: u64,
    pub arrival_order: usize,
    pub consumed: bool,
}

/// The key under which a completion is found: its kind and correlation id.
pub type CompletionKey = (CompletionKind, u64);

/// Completion data indexed by `(kind, correlation id)`.
pub struct CompletionIndex {
    entries: Vec<(CompletionKey, CompletionData)>,
    model: Ghost<Map<CompletionKey, CompletionData>>,
}

impl CompletionIndex {
    /// The entries hold distinct keys and agree with the model.
    pub closed spec fn wf(&self) -> bool {
        &&& forall|i: int, j: int|
            0 <= i < j < self.entries@.len() ==> (#[trigger] self.entries@[i]).0 != (#[trigger] self.entries@[j]).0
        &&& forall|k: CompletionKey|
            #[trigger] self.model@.contains_key(k) <==> exists|i: int| 0 <= i < self.entries@.len() && (#[trigger] self.entries@[i]).0 == k
        &&& forall|i: int| 0 <= i < self.entries@.len() ==> self.model@[(#[trigger] self.entries@[i]).0] == self.entries@[i].1
    }

    /// The completions held, by key.
    pub closed spec fn view(&self) -> Map<CompletionKey, CompletionData> {
        self.model@
    }

    spec fn keys(self) -> Seq<CompletionKey> {
        self.entries@.map_values(|e: (CompletionKey, CompletionData)| e.0)
    }

    /// An empty index.
    pub fn new() -> (r: Self)
        ensures
            r.wf(),
            r@ == Map::<CompletionKey, CompletionData>::empty(),
    {
        CompletionIndex { entries: Vec::new(), model: Ghost(Map::empty()) }
    }

    fn find(&self, key: CompletionKey) -> (r: Option<usize>)
        requires
            self.wf(),
        ensures
            match r {
                Some(i) => i < self.entries@.len() && self.entries@[i as int].0 == key,
                None => !self@.contains_key(key),
            },
    {
        let mut i: usize = 0;
        while i < self.entries.len()
            invariant
                i <= self.entries@.len(),
                forall|j: int| 0 <= j < i ==> (#[trigger] self.entries@[j]).0 != key,
            decreases self.entries.len() - i,
        {
            let k = self.entries[i].0;
            if k.0 == key.0 && k.1 == key.1 {
                return Some(i);
            }
            i += 1;
        }
        None
    }

    /// Whether a completion is held under `key`.
    pub fn contains_key(&self, key: &CompletionKey) -> (r: bool)
        requires
            self.wf(),
        ensures
            r == self@.contains_key(*key),
    {
        self.find(*key).is_some()
    }

    /// The number of completions held.
    pub fn len(&self) -> (r: usize)
        requires
            self.wf(),
        ensures
            r == self@.dom().len(),
    {
        proof {
            let ks = self.keys();
            assert(ks.no_duplicates()) by {
                assert forall|i: int, j: int| 0 <= i < ks.len() && 0 <= j < ks.len() && i != j implies ks[i] != ks[j] by {
                    if i < j {
                        assert(self.entries@[i].0 != self.entries@[j].0);
                    } else {
                        assert(self.entries@[j].0 != self.entries@[i].0);
                    }
                }
            }
            ks.unique_seq_to_set();
            assert(self@.dom() =~= ks.to_set()) by {
                assert forall|k: CompletionKey| self@.dom().contains(k) implies ks.to_set().contains(k) by {
                    let i = choose|i: int| 0 <= i < self.entries@.len() && (#[trigger] self.entries@[i]).0 == k;
                    assert(ks[i] == k);
                }
                assert forall|k: CompletionKey| ks.to_set().contains(k) implies self@.dom().contains(k) by {
                    let i = choose|i: int| 0 <= i < ks.len() && ks[i] == k;
                    assert(self.entries@[i].0 == k);
                }
            }
        }
        self.entries.len()
    }

    /// Stores `data` under `key`, replacing what was there.
    pub fn insert(&mut self, key: CompletionKey, data: CompletionData)
        requires
            old(self).wf(),
        ensures
            final(self).wf(),
            final(self)@ == old(self)@.insert(key, data),
    {
        let found = self.find(key);
        match found {
            Some(i) => {
                let ghost old_entries = self.entries@;
                let ghost new_model = self.model@.insert(key, data);
                self.entries.set(i, (key, data));
                self.model = Ghost(new_model);
                assert forall|k: CompletionKey| #[trigger] self.model@.contains_key(k) <==> exists|j: int|
                    0 <= j < self.entries@.len() && (#[trigger] self.entries@[j]).0 == k by {
                    if self.model@.contains_key(k) && k != key {
                        let j = choose|j: int| 0 <= j < old_entries.len() && (#[trigger] old_entries[j]).0 == k;
                        assert(self.entries@[j].0 == k);
                    }
                    if k == key {
                        assert(self.entries@[i as int].0 == k);
                    }
                    if exists|j: int| 0 <= j < self.entries@.len() && (#[trigger] self.entries@[j]).0 == k {
                        let j = choose|j: int| 0 <= j < self.entries@.len() && (#[trigger] self.entries@[j]).0 == k;
                        if j != i {
                            assert(old_entries[j].0 == k);
                        }
                    }
                }
            },
            None => {
                let ghost old_entries = self.entries@;
                let ghost new_model = self.model@.insert(key, data);
                self.entries.push((key, data));
                self.model = Ghost(new_model);
                assert forall|k: CompletionKey| #[trigger] self.model@.contains_key(k) <==> exists|j: int|
                    0 <= j < self.entries@.len() && (#[trigger] self.entries@[j]).0 == k by {
                    if self.model@.contains_key(k) && k != key {
                        let j = choose|j: int| 0 <= j < old_entries.len() && (#[trigger] old_entries[j]).0 == k;
                        assert(self.entries@[j].0 == k);
                    }
                    if k == key {
                        assert(self.entries@[old_entries.len() as int].0 == k);
                    }
                }
            },
        }
    }

    /// Removes and returns the completion held under `key`.
    pub fn remove(&mut self, key: &CompletionKey) -> (r: Option<CompletionData>)
        requires
            old(self).wf(),
        ensures
            final(self).wf(),
            final(self)@ == old(self)@.remove(*key),
            r == (if old(self)@.contains_key(*key) { Some(old(self)@[*key]) } else { None }),
    {
        let found = self.find(*key);
        match found {
            Some(i) => {
                let ghost old_entries = self.entries@;
                let ghost new_model = self.model@.remove(*key);
                let (_, data) = self.entries.remove(i);
                self.model = Ghost(new_model);
                assert forall|k: CompletionKey| #[trigger] self.model@.contains_key(k) <==> exists|j: int|
                    0 <= j < self.entries@.len() && (#[trigger] self.entries@[j]).0 == k by {
                    if self.model@.contains_key(k) {
                        let j = choose|j: int| 0 <= j < old_entries.len() && (#[trigger] old_entries[j]).0 == k;
                        if j < i {
                            assert(self.entries@[j].0 == k);
                        } else {
                            assert(j != i);
                            assert(self.entries@[j - 1].0 == k);
                        }
                    }
                    if exists|j: int| 0 <= j < self.entries@.len() && (#[trigger] self.entries@[j]).0 == k {
                        let j = choose|j: int| 0 <= j < self.entries@.len() && (#[trigger] self.entries@[j]).0 == k;
                        if j < i {
                            assert(old_entries[j].0 == k);
                            assert(old_entries[i as int].0 != old_entries[j].0);
                        } else {
                            assert(old_entries[j + 1].0 == k);
                            assert(old_entries[i as int].0 != old_entries[j + 1].0);
                        }
                    }
                }
                assert forall|x: int, y: int| 0 <= x < y < self.entries@.len() implies
                    (#[trigger] self.entries@[x]).0 != (#[trigger] self.entries@[y]).0 by {
                    let ox = if x < i { x } else { x + 1 };
                    let oy = if y < i { y } else { y + 1 };
                    assert(old_entries[ox].0 != old_entries[oy].0);
                }
                assert forall|x: int| 0 <= x < self.entries@.len() implies
                    self.model@[(#[trigger] self.entries@[x]).0] == self.entries@[x].1 by {
                    let ox = if x < i { x } else { x + 1 };
                    assert(old_entries[ox].0 != old_entries[i as int].0);
                }
                Some(data)
            },
            None => None,
        }
    }
}

/// A deterministic completion map that ensures futures poll in arrival order
pub struct CompletionMap {
    /// Fast lookup by correlation ID and kind
    pub by_id: CompletionIndex,
    /// Ordered queue of completions by arrival time
    pub ordered: VecDeque<CompletionEntry>,
    /// Next arrival order counter
    pub next_order: usize,
}

/// The position of the first unconsumed entry of `s`.
pub open spec fn first_unconsumed(s: Seq<CompletionEntry>) -> Option<int>
    decreases s.len(),
{
    if s.len() == 0 {
        None
    } else if !s[0].consumed {
        Some(0)
    } else {
        match first_unconsumed(s.drop_first()) {
            Some(i) => Some(i + 1),
            None => None,
        }
    }
}

/// Whether the next completion to consume in `s` is `(kind, correlation_id)`.
pub open spec fn next_ready(s: Seq<CompletionEntry>, kind: CompletionKind, correlation_id: u64) -> bool {
    match first_unconsumed(s) {
        Some(i) => s[i].kind == kind && s[i].correlation_id == correlation_id,
        None => false,
    }
}

/// The `(kind, correlation id)` of every unconsumed entry of `s`, in arrival order.
pub open spec fn unconsumed_keys(s: Seq<CompletionEntry>) -> Seq<CompletionKey>
    decreases s.len(),
{
    if s.len() == 0 {
        Seq::empty()
    } else {
        let rest = unconsumed_keys(s.drop_last());
        if s.last().consumed {
            rest
        } else {
            rest.push((s.last().kind, s.last().correlation_id))
        }
    }
}

/// `s` without its leading run of consumed entries.
pub open spec fn drop_consumed_prefix(s: Seq<CompletionEntry>) -> Seq<CompletionEntry>
    decreases s.len(),
{
    if s.len() > 0 && s[0].consumed {
        drop_consumed_prefix(s.drop_first())
    } else {
        s
    }
}

proof fn lemma_first_unconsumed(s: Seq<CompletionEntry>)
    ensures
        match first_unconsumed(s) {
            Some(i) => 0 <= i < s.len() && !s[i].consumed && forall|j: int| 0 <= j < i ==> (#[trigger] s[j]).consumed,
            None => forall|j: int| 0 <= j < s.len() ==> (#[trigger] s[j]).consumed,
        },
    decreases s.len(),
{
    if s.len() > 0 && s[0].consumed {
        lemma_first_unconsumed(s.drop_first());
        match first_unconsumed(s.drop_first()) {
            Some(i) => {
                assert forall|j: int| 0 <= j < i + 1 implies (#[trigger] s[j]).consumed by {
                    if j > 0 {
                        assert(s[j] == s.drop_first()[j - 1]);
                    }
                }
            },
            None => {
                assert forall|j: int| 0 <= j < s.len() implies (#[trigger] s[j]).consumed by {
                    if j > 0 {
                        assert(s[j] == s.drop_first()[j - 1]);
                    }
                }
            },
        }
    }
}

proof fn lemma_first_unconsumed_char(s: Seq<CompletionEntry>, i: int)
    requires
        0 <= i < s.len(),
        !s[i].consumed,
        forall|j: int| 0 <= j < i ==> (#[trigger] s[j]).consumed,
    ensures
        first_unconsumed(s) == Some(i),
{
    lemma_first_unconsumed(s);
    match first_unconsumed(s) {
        Some(k) => {
            if k < i {
                assert(s[k].consumed);
            }
            if k > i {
                assert(s[i].consumed);
            }
        },
        None => {
            assert(s[i].consumed);
        },
    }
}

proof fn lemma_no_unconsumed(s: Seq<CompletionEntry>)
    requires
        forall|j: int| 0 <= j < s.len() ==> (#[trigger] s[j]).consumed,
    ensures
        first_unconsumed(s) is None,
{
    lemma_first_unconsumed(s);
}

/// The key of an entry.
pub open spec fn entry_key(e: CompletionEntry) -> CompletionKey {
    (e.kind, e.correlation_id)
}

/// The pending keys of a non-empty sequence, read from its front.
proof fn lemma_unconsumed_front(s: Seq<CompletionEntry>)
    requires
        s.len() > 0,
    ensures
        unconsumed_keys(s) == (if s[0].consumed {
            Seq::<CompletionKey>::empty()
        } else {
            seq![entry_key(s[0])]
        }) + unconsumed_keys(s.drop_first()),
    decreases s.len(),
{
    if s.len() == 1 {
        assert(s.drop_last() =~= Seq::<CompletionEntry>::empty());
        assert(s.drop_first() =~= Seq::<CompletionEntry>::empty());
    } else {
        lemma_unconsumed_front(s.drop_last());
        assert(s.drop_last().drop_first() =~= s.drop_first().drop_last());
        assert(s.drop_last()[0] == s[0]);
        assert(s.drop_first().last() == s.last());
    }
}

/// Deterministic ordering: the completion that may be taken next is the
/// earliest-arrived one not yet taken.
pub proof fn lemma_next_ready_is_oldest_pending(s: Seq<CompletionEntry>, kind: CompletionKind, correlation_id: u64)
    ensures
        next_ready(s, kind, correlation_id) <==> (unconsumed_keys(s).len() > 0 && unconsumed_keys(s)[0] == (
        kind,
        correlation_id,
    )),
    decreases s.len(),
{
    if s.len() > 0 {
        lemma_unconsumed_front(s);
        if s[0].consumed {
            lemma_next_ready_is_oldest_pending(s.drop_first(), kind, correlation_id);
            lemma_first_unconsumed(s.drop_first());
            match first_unconsumed(s.drop_first()) {
                Some(i) => {
                    assert(s[i + 1] == s.drop_first()[i]);
                },
                None => {},
            }
            assert(unconsumed_keys(s) == unconsumed_keys(s.drop_first()));
        }
    }
}

/// Taking the next completion removes exactly the oldest pending key.
pub proof fn lemma_take_removes_oldest(s: Seq<CompletionEntry>, kind: CompletionKind, correlation_id: u64)
    requires
        next_ready(s, kind, correlation_id),
    ensures
        ({
            let i = first_unconsumed(s)->0;
            unconsumed_keys(s.update(i, CompletionEntry { consumed: true, ..s[i] })) == unconsumed_keys(s).drop_first()
        }),
    decreases s.len(),
{
    let i = first_unconsumed(s)->0;
    let t = s.update(i, CompletionEntry { consumed: true, ..s[i] });
    lemma_first_unconsumed(s);
    lemma_unconsumed_front(s);
    lemma_unconsumed_front(t);
    if i == 0 {
        assert(t.drop_first() =~= s.drop_first());
    } else {
        assert(s[0].consumed);
        let d = s.drop_first();
        assert(first_unconsumed(d) == Some(i - 1));
        assert(d[i - 1] == s[i]);
        lemma_take_removes_oldest(d, kind, correlation_id);
        assert(t.drop_first() =~= d.update(i - 1, CompletionEntry { consumed: true, ..d[i - 1] }));
        assert(unconsumed_keys(s) == unconsumed_keys(d));
        assert(unconsumed_keys(t) == unconsumed_keys(t.drop_first()));
    }
}

/// A new arrival is pending after every earlier one.
pub proof fn lemma_arrival_is_pending_last(s: Seq<CompletionEntry>, e: CompletionEntry)
    requires
        !e.consumed,
    ensures
        unconsumed_keys(s.push(e)) == unconsumed_keys(s).push(entry_key(e)),
{
    assert(s.push(e).drop_last() == s);
}

/// Cleanup forgets only completions already taken: the pending keys, and
/// so the next one ready, stay the same.
pub proof fn lemma_cleanup_keeps_pending(s: Seq<CompletionEntry>)
    ensures
        unconsumed_keys(drop_consumed_prefix(s)) == unconsumed_keys(s),
        first_unconsumed(s) is Some <==> first_unconsumed(drop_consumed_prefix(s)) is Some,
    decreases s.len(),
{
    if s.len() > 0 && s[0].consumed {
        lemma_unconsumed_front(s);
        lemma_cleanup_keeps_pending(s.drop_first());
    }
}

/// The completion data that a message stores, or `None` for an external event
/// (which is routed by name through `add_external_completion`).
pub open spec fn completion_of_msg(msg: OrchestratorMsg) -> Option<(CompletionKey, CompletionValue)> {
    match msg {
        OrchestratorMsg::ActivityCompleted { id, result, .. } => Some(
            ((CompletionKind::Activity, id), CompletionValue::ActivityResult(Ok(result))),
        ),
        OrchestratorMsg::ActivityFailed { id, error, .. } => Some(
            ((CompletionKind::Activity, id), CompletionValue::ActivityResult(Err(error))),
        ),
        OrchestratorMsg::TimerFired { id, fire_at_ms, .. } => Some(
            ((CompletionKind::Timer, id), CompletionValue::TimerFired { fire_at_ms }),
        ),
        OrchestratorMsg::ExternalByName { .. } => None,
        OrchestratorMsg::SubOrchCompleted { id, result, .. } => Some(
            ((CompletionKind::SubOrchestration, id), CompletionValue::SubOrchResult(Ok(result))),
        ),
        OrchestratorMsg::SubOrchFailed { id, error, .. } => Some(
            ((CompletionKind::SubOrchestration, id), CompletionValue::SubOrchResult(Err(error))),
        ),
        OrchestratorMsg::CancelRequested { reason, .. } => Some(
            ((CompletionKind::Cancel, 0), CompletionValue::CancelReason(reason)),
        ),
    }
}

/// The ack token that a message carries.
pub open spec fn msg_ack_token(msg: OrchestratorMsg) -> Option<String> {
    match msg {
        OrchestratorMsg::ActivityCompleted { ack_token, .. } => ack_token,
        OrchestratorMsg::ActivityFailed { ack_token, .. } => ack_token,
        OrchestratorMsg::TimerFired { ack_token, .. } => ack_token,
        OrchestratorMsg::ExternalByName { ack_token, .. } => ack_token,
        OrchestratorMsg::SubOrchCompleted { ack_token, .. } => ack_token,
        OrchestratorMsg::SubOrchFailed { ack_token, .. } => ack_token,
        OrchestratorMsg::CancelRequested { ack_token, .. } => ack_token,
    }
}

/// The map after recording a new completion under `key` at the next arrival position.
pub open spec fn recorded(old_map: CompletionMap, new_map: CompletionMap, key: CompletionKey, value: CompletionValue) -> bool {
    &&& new_map.by_id@ == old_map.by_id@.insert(
        key,
        CompletionData { kind: key.0, correlation_id: key.1, data: value, arrival_order: old_map.next_order },
    )
    &&& new_map.ordered@ == old_map.ordered@.push(
        CompletionEntry { kind: key.0, correlation_id: key.1, arrival_order: old_map.next_order, consumed: false },
    )
    &&& new_map.next_order == old_map.next_order + 1
}

/// The map is unchanged.
pub open spec fn unchanged(old_map: CompletionMap, new_map: CompletionMap) -> bool {
    &&& new_map.by_id@ == old_map.by_id@
    &&& new_map.ordered@ == old_map.ordered@
    &&& new_map.next_order == old_map.next_order
}

impl CompletionMap {
    pub fn new() -> (r: Self)
        ensures
            r.by_id.wf(),
            r.by_id@ == Map::<CompletionKey, CompletionData>::empty(),
            r.ordered@ == Seq::<CompletionEntry>::empty(),
            r.next_order == 0,
    {
        CompletionMap { by_id: CompletionIndex::new(), ordered: VecDeque::new(), next_order: 0 }
    }

    fn record(&mut self, key: CompletionKey, value: CompletionValue)
        requires
            old(self).next_order < usize::MAX,
            old(self).by_id.wf(),
        ensures
            final(self).by_id.wf(),
            recorded(*old(self), *final(self), key, value),
    {
        let arrival_order = self.next_order;
        self.next_order = self.next_order + 1;
        self.by_id.insert(key, CompletionData { kind: key.0, correlation_id: key.1, data: value, arrival_order });
        self.ordered.push_back(
            CompletionEntry { kind: key.0, correlation_id: key.1, arrival_order, consumed: false },
        );
    }

    /// Add a completion from an orchestrator message
    ///
    /// The first completion recorded for a `(kind, id)` wins; later duplicates
    /// are ignored. External events are not recorded here. The message's ack
    /// token is returned in every case.
    pub fn add_completion(&mut self, msg: OrchestratorMsg) -> (r: Option<String>)
        requires
            old(self).next_order < usize::MAX,
            old(self).by_id.wf(),
        ensures
            final(self).by_id.wf(),
            r == msg_ack_token(msg),
            match completion_of_msg(msg) {
                Some((key, value)) => if old(self).by_id@.contains_key(key) {
                    unchanged(*old(self), *final(self))
                } else {
                    recorded(*old(self), *final(self), key, value)
                },
                None => unchanged(*old(self), *final(self)),
            },
    {
        let (kind, correlation_id, value, ack_token) = match msg {
            OrchestratorMsg::ActivityCompleted { id, result, ack_token, .. } => {
                (CompletionKind::Activity, id, CompletionValue::ActivityResult(Ok(result)), ack_token)
            },
            OrchestratorMsg::ActivityFailed { id, error, ack_token, .. } => {
                (CompletionKind::Activity, id, CompletionValue::ActivityResult(Err(error)), ack_token)
            },
            OrchestratorMsg::TimerFired { id, fire_at_ms, ack_token, .. } => {
                (CompletionKind::Timer, id, CompletionValue::TimerFired { fire_at_ms }, ack_token)
            },
            OrchestratorMsg::ExternalByName { ack_token, .. } => {
                return ack_token;
            },
            OrchestratorMsg::SubOrchCompleted { id, result, ack_token, .. } => {
                (CompletionKind::SubOrchestration, id, CompletionValue::SubOrchResult(Ok(result)), ack_token)
            },
            OrchestratorMsg::SubOrchFailed { id, error, ack_token, .. } => {
                (CompletionKind::SubOrchestration, id, CompletionValue::SubOrchResult(Err(error)), ack_token)
            },
            OrchestratorMsg::CancelRequested { reason, ack_token, .. } => {
                (CompletionKind::Cancel, 0, CompletionValue::CancelReason(reason), ack_token)
            },
        };
        let key = (kind, correlation_id);
        if self.by_id.contains_key(&key) {
            return ack_token;
        }
        self.record(key, value);
        ack_token
    }

    fn first_unconsumed_index(&self) -> (r: Option<usize>)
        ensures
            match r {
                Some(i) => first_unconsumed(self.ordered@) == Some(i as int) && i < self.ordered@.len(),
                None => first_unconsumed(self.ordered@) is None,
            },
    {
        let mut i: usize = 0;
        while i < self.ordered.len()
            invariant
                i <= self.ordered@.len(),
                forall|j: int| 0 <= j < i ==> (#[trigger] self.ordered@[j]).consumed,
            decreases self.ordered.len() - i,
        {
            if !self.ordered[i].consumed {
                proof {
                    lemma_first_unconsumed_char(self.ordered@, i as int);
                }
                return Some(i);
            }
            i += 1;
        }
        proof {
            lemma_no_unconsumed(self.ordered@);
        }
        None
    }

    /// Check if a specific completion is the next one ready to be consumed
    /// This ensures deterministic polling order
    pub fn is_next_ready(&self, kind: CompletionKind, correlation_id: u64) -> (r: bool)
        ensures
            r == next_ready(self.ordered@, kind, correlation_id),
    {
        match self.first_unconsumed_index() {
            Some(i) => self.ordered[i].kind == kind && self.ordered[i].correlation_id == correlation_id,
            None => false,
        }
    }

    /// Get completion data if it exists and is ready to be consumed
    ///
    /// Only the next completion in arrival order can be taken; taking it marks
    /// its entry consumed and removes its data.
    pub fn get_ready_completion(&mut self, kind: CompletionKind, correlation_id: u64) -> (r: Option<CompletionData>)
        requires
            old(self).by_id.wf(),
        ensures
            final(self).by_id.wf(),
            if next_ready(old(self).ordered@, kind, correlation_id) {
                let i = first_unconsumed(old(self).ordered@)->0;
                &&& final(self).ordered@ == old(self).ordered@.update(i, CompletionEntry { consumed: true, ..old(self).ordered@[i] })
                &&& final(self).by_id@ == old(self).by_id@.remove((kind, correlation_id))
                &&& final(self).next_order == old(self).next_order
                &&& r == (if old(self).by_id@.contains_key((kind, correlation_id)) {
                    Some(old(self).by_id@[(kind, correlation_id)])
                } else {
                    None
                })
            } else {
                &&& unchanged(*old(self), *final(self))
                &&& r is None
            },
    {
        let first = self.first_unconsumed_index();
        let i = match first {
            Some(i) => i,
            None => return None,
        };
        if !(self.ordered[i].kind == kind && self.ordered[i].correlation_id == correlation_id) {
            return None;
        }
        let entry = self.ordered[i];
        let ghost before = self.ordered@;
        self.ordered.remove(i);
        self.ordered.insert(i, CompletionEntry { consumed: true, ..entry });
        assert(self.ordered@ =~= before.update(i as int, CompletionEntry { consumed: true, ..before[i as int] }));
        self.by_id.remove(&(kind, correlation_id))
    }

    /// Check if there are any unconsumed completions
    pub fn has_unconsumed(&self) -> (r: bool)
        ensures
            r == (first_unconsumed(self.ordered@) is Some),
    {
        self.first_unconsumed_index().is_some()
    }

    /// Get all unconsumed completions (for error reporting)
    pub fn get_unconsumed(&self) -> (r: Vec<CompletionKey>)
        ensures
            r@ == unconsumed_keys(self.ordered@),
    {
        let mut out: Vec<CompletionKey> = Vec::new();
        let mut i: usize = 0;
        while i < self.ordered.len()
            invariant
                i <= self.ordered@.len(),
                out@ == unconsumed_keys(self.ordered@.subrange(0, i as int)),
            decreases self.ordered.len() - i,
        {
            proof {
                let pre = self.ordered@.subrange(0, i + 1);
                assert(pre.drop_last() == self.ordered@.subrange(0, i as int));
                assert(pre.last() == self.ordered@[i as int]);
            }
            let e = self.ordered[i];
            if !e.consumed {
                out.push((e.kind, e.correlation_id));
            }
            i += 1;
        }
        assert(self.ordered@.subrange(0, self.ordered@.len() as int) == self.ordered@);
        out
    }

    /// Clear consumed entries to free memory
    pub fn cleanup_consumed(&mut self)
        ensures
            final(self).by_id.wf() == old(self).by_id.wf(),
            final(self).ordered@ == drop_consumed_prefix(old(self).ordered@),
            final(self).by_id@ == old(self).by_id@,
            final(self).next_order == old(self).next_order,
    {
        while self.ordered.len() > 0 && self.ordered[0].consumed
            invariant
                drop_consumed_prefix(self.ordered@) == drop_consumed_prefix(old(self).ordered@),
                self.by_id@ == old(self).by_id@,
                self.by_id.wf() == old(self).by_id.wf(),
                self.next_order == old(self).next_order,
            decreases self.ordered@.len(),
        {
            let ghost before = self.ordered@;
            self.ordered.pop_front();
            assert(self.ordered@ == before.drop_first());
        }
    }

    /// Handle external events by finding the corresponding subscription
    ///
    /// The event goes to the most recent subscription with its name in
    /// `history`; it is dropped when there is none, or when that subscription
    /// already has a completion. The ack token is returned in every case.
    pub fn add_external_completion(
        &mut self,
        name: String,
        data: String,
        history: &[Event],
        ack_token: Option<String>,
    ) -> (r: Option<String>)
        requires
            old(self).next_order < usize::MAX,
            old(self).by_id.wf(),
        ensures
            final(self).by_id.wf(),
            r == ack_token,
            match latest_subscription(history@, name@) {
                Some(id) => if old(self).by_id@.contains_key((CompletionKind::External, id)) {
                    unchanged(*old(self), *final(self))
                } else {
                    recorded(
                        *old(self),
                        *final(self),
                        (CompletionKind::External, id),
                        CompletionValue::ExternalData { name, data },
                    )
                },
                None => unchanged(*old(self), *final(self)),
            },
    {
        let subscription_id = find_latest_subscription(history, &name);
        match subscription_id {
            Some(correlation_id) => {
                let key = (CompletionKind::External, correlation_id);
                if self.by_id.contains_key(&key) {
                    return ack_token;
                }
                self.record(key, CompletionValue::ExternalData { name, data });
                ack_token
            },
            None => ack_token,
        }
    }
}

/// The id of the most recent subscription named `name` in `history`.
pub open spec fn latest_subscription(history: Seq<Event>, name: Seq<char>) -> Option<u64>
    decreases history.len(),
{
    if history.len() == 0 {
        None
    } else {
        match history.last() {
            Event::ExternalSubscribed { id, name: n } if n@ == name => Some(id),
            _ => latest_subscription(history.drop_last(), name),
        }
    }
}

/// The id of `e` where it subscribes to external events named `name`.
pub open spec fn subscription_to(e: Event, name: Seq<char>) -> Option<u64> {
    match e {
        Event::ExternalSubscribed { id, name: n } => if n@ == name {
            Some(id)
        } else {
            None
        },
        _ => None,
    }
}

/// The chosen subscription is the last one with that name: its id is that of
/// a subscription named `name` after which no other subscription with that
/// name occurs; there is none only where history subscribes to that name
/// nowhere.
pub proof fn lemma_latest_subscription_is_last(history: Seq<Event>, name: Seq<char>)
    ensures
        match latest_subscription(history, name) {
            Some(id) => exists|j: int|
                0 <= j < history.len() && subscription_to(#[trigger] history[j], name) == Some(id) && forall|k: int|
                    j < k < history.len() ==> subscription_to(#[trigger] history[k], name) is None,
            None => forall|k: int| 0 <= k < history.len() ==> subscription_to(#[trigger] history[k], name) is None,
        },
    decreases history.len(),
{
    if history.len() == 0 {
        return;
    }
    let pre = history.drop_last();
    lemma_latest_subscription_is_last(pre, name);
    let n = history.len() - 1;
    assert(history[n] == history.last());
    assert forall|k: int| 0 <= k < pre.len() implies #[trigger] pre[k] == history[k] by {}
    if subscription_to(history.last(), name) is Some {
        assert(subscription_to(history[n], name) == latest_subscription(history, name));
    } else {
        assert(latest_subscription(history, name) == latest_subscription(pre, name));
        match latest_subscription(pre, name) {
            Some(id) => {
                let j = choose|j: int|
                    0 <= j < pre.len() && subscription_to(#[trigger] pre[j], name) == Some(id) && forall|k: int|
                        j < k < pre.len() ==> subscription_to(#[trigger] pre[k], name) is None;
                assert(subscription_to(history[j], name) == Some(id));
                assert forall|k: int| j < k < history.len() implies subscription_to(#[trigger] history[k], name) is None by {
                    if k < pre.len() {
                        assert(pre[k] == history[k]);
                    }
                }
            },
            None => {
                assert forall|k: int| 0 <= k < history.len() implies subscription_to(#[trigger] history[k], name) is None by {
                    if k < pre.len() {
                        assert(pre[k] == history[k]);
                    }
                }
            },
        }
    }
}

/// Finds the id of the most recent subscription named `name` in `history`.
pub fn find_latest_subscription(history: &[Event], name: &String) -> (r: Option<u64>)
    ensures
        r == latest_subscription(history@, name@),
        match r {
            Some(id) => exists|j: int|
                0 <= j < history@.len() && subscription_to(#[trigger] history@[j], name@) == Some(id) && forall|k: int|
                    j < k < history@.len() ==> subscription_to(#[trigger] history@[k], name@) is None,
            None => forall|k: int| 0 <= k < history@.len() ==> subscription_to(#[trigger] history@[k], name@) is None,
        },
{
    proof {
        lemma_latest_subscription_is_last(history@, name@);
    }
    let mut i: usize = history.len();
    assert(history@.subrange(0, history@.len() as int) == history@);
    while i > 0
        invariant
            i <= history@.len(),
            latest_subscription(history@, name@) == latest_subscription(history@.subrange(0, i as int), name@),
        decreases i,
    {
        let ghost pre = history@.subrange(0, i as int);
        assert(pre.drop_last() == history@.subrange(0, i - 1));
        assert(pre.last() == history@[i - 1]);
        match &history[i - 1] {
            Event::ExternalSubscribed { id, name: n } => {
                if *n == *name {
                    proof {
                        lemma_latest_subscription_is_last(history@, name@);
                    }
                    return Some(*id);
                }
            },
            _ => {},
        }
        i -= 1;
    }
    None
}

impl Default for CompletionMap {
    fn default() -> (r: Self)
        ensures
            r.by_id.wf(),
            r.by_id@ == Map::<CompletionKey, CompletionData>::empty(),
            r.ordered@ == Seq::<CompletionEntry>::empty(),
            r.next_order == 0,
    {
        Self::new()
    }
}

} // verus!

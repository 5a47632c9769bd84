//! Registry of the functions the orchestrator manages: each identifier maps
//! to the function's configuration and lifecycle state machine.

use vstd::prelude::*;

use dashmap::DashMap;

use crate::config::FunctionConfig;
use crate::error::{AetherError, HardValidationError, StateTransitionError};
use crate::state::{
    state_name, valid_transition, FunctionState, FunctionStateMachine, StateMachineMetrics,
};
use crate::types::FunctionId;

verus! {

/// The concurrent map of the `dashmap` crate.
#[verifier::external_type_specification]
#[verifier::external_body]
#[verifier::reject_recursive_types(K)]
#[verifier::reject_recursive_types(V)]
#[verifier::reject_recursive_types(S)]
pub struct ExDashMap<K, V, S>(DashMap<K, V, S>);

/// A registered function: its configuration and its lifecycle.
#[derive(Debug)]
pub struct FunctionEntry {
    pub config: FunctionConfig,
    pub state_machine: FunctionStateMachine,
}

impl FunctionEntry {
    /// A new entry, its lifecycle in `Uninitialized`.
    pub fn new(config: FunctionConfig) -> (r: FunctionEntry)
        ensures
            r.config == config,
            r.state_machine@.function_id == config@.id,
            r.state_machine@.state == FunctionState::Uninitialized,
            r.state_machine@.transition_count == 0,
    {
        let state_machine = FunctionStateMachine::new(config.id.clone());
        FunctionEntry { config, state_machine }
    }
}

/// What the registry's map holds: entries keyed by identifier text.
pub uninterp spec fn registry_entries(m: DashMap<FunctionId, FunctionEntry>) -> Map<
    Seq<char>,
    FunctionEntry,
>;

/// Calls `DashMap::new`: an empty map.
#[verifier::external_body]
fn map_new() -> (r: DashMap<FunctionId, FunctionEntry>)
    ensures
        registry_entries(r).dom() == Set::<Seq<char>>::empty(),
{
    DashMap::new()
}

/// Calls `DashMap::contains_key`: whether an entry has this key. Keys are
/// compared by `FunctionId`'s derived equality, that is by their text.
#[verifier::external_body]
fn map_contains(m: &DashMap<FunctionId, FunctionEntry>, id: &FunctionId) -> (r: bool)
    ensures
        r == registry_entries(*m).contains_key(id@),
{
    m.contains_key(id)
}

/// Calls `DashMap::insert`: the key now maps to the value; the value it
/// replaced, if any, is returned.
#[verifier::external_body]
fn map_insert(m: &mut DashMap<FunctionId, FunctionEntry>, id: FunctionId, e: FunctionEntry) -> (r:
    Option<FunctionEntry>)
    ensures
        registry_entries(*final(m)) == registry_entries(*old(m)).insert(id@, e),
        match r {
            Some(v) => registry_entries(*old(m)).contains_key(id@) && v == registry_entries(
                *old(m),
            )[id@],
            None => !registry_entries(*old(m)).contains_key(id@),
        },
{
    m.insert(id, e)
}

/// Calls `DashMap::remove`: the key no longer maps to anything; the stored
/// key and value, if there were any, are returned.
#[verifier::external_body]
fn map_remove(m: &mut DashMap<FunctionId, FunctionEntry>, id: &FunctionId) -> (r: Option<
    (FunctionId, FunctionEntry),
>)
    ensures
        registry_entries(*final(m)) == registry_entries(*old(m)).remove(id@),
        match r {
            Some((k, v)) => registry_entries(*old(m)).contains_key(id@) && k@ == id@ && v
                == registry_entries(*old(m))[id@],
            None => !registry_entries(*old(m)).contains_key(id@),
        },
{
    m.remove(id)
}

/// Calls `DashMap::len`: the number of entries.
#[verifier::external_body]
fn map_len(m: &DashMap<FunctionId, FunctionEntry>) -> (r: usize)
    ensures
        r == registry_entries(*m).len(),
{
    m.len()
}

/// Calls `DashMap::iter` and clones each key: every key once, in the order
/// the map's shards are walked, which is not described.
#[verifier::external_body]
fn map_keys(m: &DashMap<FunctionId, FunctionEntry>) -> (r: Vec<FunctionId>)
    ensures
        r@.map_values(|f: FunctionId| f@).to_set() == registry_entries(*m).dom(),
        forall|i: int, j: int| 0 <= i < j < r@.len() ==> (#[trigger] r@[i])@ != (#[trigger] r@[j])@,
{
    m.iter().map(|r| r.key().clone()).collect()
}

/// Calls `DashMap::view` with a closure that reads the entry's state with
/// the verified `FunctionStateMachine::state`.
#[verifier::external_body]
fn map_get_state(m: &DashMap<FunctionId, FunctionEntry>, id: &FunctionId) -> (r: Option<FunctionState>)
    ensures
        r == (if registry_entries(*m).contains_key(id@) {
            Some(registry_entries(*m)[id@].state_machine@.state)
        } else {
            None
        }),
{
    m.view(id, |_, entry| entry.state_machine.state())
}

/// Calls `DashMap::view` with a closure that copies the entry's
/// configuration with the verified `FunctionConfig::clone`.
#[verifier::external_body]
fn map_get_config(m: &DashMap<FunctionId, FunctionEntry>, id: &FunctionId) -> (r: Option<FunctionConfig>)
    ensures
        match r {
            Some(c) => registry_entries(*m).contains_key(id@) && c@ == registry_entries(
                *m,
            )[id@].config@,
            None => !registry_entries(*m).contains_key(id@),
        },
{
    m.view(id, |_, entry| entry.config.clone())
}

/// Calls `DashMap::view` with a closure that copies the entry's lifecycle
/// with the verified `FunctionStateMachine::clone`.
#[verifier::external_body]
fn map_get_state_machine(m: &DashMap<FunctionId, FunctionEntry>, id: &FunctionId) -> (r: Option<
    FunctionStateMachine,
>)
    ensures
        match r {
            Some(sm) => registry_entries(*m).contains_key(id@) && sm@ == registry_entries(
                *m,
            )[id@].state_machine@,
            None => !registry_entries(*m).contains_key(id@),
        },
{
    m.view(id, |_, entry| entry.state_machine.clone())
}

/// The functions the orchestrator manages.
#[derive(Debug)]
pub struct FunctionRegistry {
    functions: DashMap<FunctionId, FunctionEntry>,
}

impl View for FunctionRegistry {
    type V = Map<Seq<char>, FunctionEntry>;

    closed spec fn view(&self) -> Map<Seq<char>, FunctionEntry> {
        registry_entries(self.functions)
    }
}

/// Entries are filed under their own function's identifier.
pub open spec fn registry_wf(m: Map<Seq<char>, FunctionEntry>) -> bool {
    &&& m.dom().finite()
    &&& forall|k: Seq<char>| #[trigger] m.contains_key(k) ==> m[k].config@.id == k && m[k].state_machine@.function_id == k
}

/// `after` is `before` with the function of `config` added, in
/// `Uninitialized` with no transition yet, and every other entry as it was.
pub open spec fn registered(
    before: Map<Seq<char>, FunctionEntry>,
    after: Map<Seq<char>, FunctionEntry>,
    config: FunctionConfig,
) -> bool {
    &&& after.dom() == before.dom().insert(config@.id)
    &&& after[config@.id].config == config
    &&& after[config@.id].state_machine@.state == FunctionState::Uninitialized
    &&& after[config@.id].state_machine@.function_id == config@.id
    &&& after[config@.id].state_machine@.transition_count == 0
    &&& forall|k: Seq<char>| k != config@.id && #[trigger] before.contains_key(k) ==> after[k] == before[k]
}

/// `after` is `before` with function `id` moved to `target`: the same
/// configuration and identifier, one more transition, every other entry as
/// it was.
pub open spec fn transitioned(
    before: Map<Seq<char>, FunctionEntry>,
    after: Map<Seq<char>, FunctionEntry>,
    id: Seq<char>,
    target: FunctionState,
) -> bool {
    &&& after.dom() == before.dom()
    &&& after[id].config == before[id].config
    &&& after[id].state_machine@.state == target
    &&& after[id].state_machine@.function_id == before[id].state_machine@.function_id
    &&& after[id].state_machine@.transition_count == before[id].state_machine@.transition_count + 1
    &&& forall|k: Seq<char>| k != id && #[trigger] before.contains_key(k) ==> after[k] == before[k]
}

/// A function just registered is found under its identifier with the
/// configuration it was registered with, in `Uninitialized`; the other
/// functions are found as before.
pub proof fn law_registered_function_is_found(
    before: Map<Seq<char>, FunctionEntry>,
    after: Map<Seq<char>, FunctionEntry>,
    config: FunctionConfig,
    other: Seq<char>,
)
    requires
        registered(before, after, config),
    ensures
        after.contains_key(config@.id),
        after[config@.id].config@ == config@,
        after[config@.id].state_machine@.state == FunctionState::Uninitialized,
        other != config@.id ==> (after.contains_key(other) <==> before.contains_key(other)),
        other != config@.id && before.contains_key(other) ==> after[other] == before[other],
{
    assert(after.dom().contains(config@.id));
    if other != config@.id {
        assert(after.dom().contains(other) <==> before.dom().contains(other));
    }
}

/// After a transition to `target` a function is found in `target`, still
/// with its configuration, and the registry holds as many functions as
/// before.
pub proof fn law_transition_then_state(
    before: Map<Seq<char>, FunctionEntry>,
    after: Map<Seq<char>, FunctionEntry>,
    id: Seq<char>,
    target: FunctionState,
)
    requires
        before.contains_key(id),
        transitioned(before, after, id, target),
    ensures
        after.contains_key(id),
        after[id].state_machine@.state == target,
        after[id].config == before[id].config,
        after.len() == before.len(),
{
}

impl FunctionRegistry {
    #[verifier::type_invariant]
    closed spec fn inv(self) -> bool {
        registry_wf(registry_entries(self.functions))
    }

    /// An empty registry.
    pub fn new() -> (r: FunctionRegistry)
        ensures
            r@ == Map::<Seq<char>, FunctionEntry>::empty(),
            registry_wf(r@),
    {
        let r = FunctionRegistry { functions: map_new() };
        assert(r@ =~= Map::<Seq<char>, FunctionEntry>::empty());
        r
    }

    /// Register a function in `Uninitialized`; an identifier that is already
    /// registered is a validation error.
    pub fn register(&mut self, config: FunctionConfig) -> (res: Result<(), AetherError>)
        ensures
            registry_wf(final(self)@),
            res is Ok <==> !old(self)@.contains_key(config@.id),
            match res {
                Ok(_) => registered(old(self)@, final(self)@, config) && final(self)@.len() == old(
                    self,
                )@.len() + 1,
                Err(e) => final(self)@ == old(self)@ && (e matches AetherError::HardValidation(
                    HardValidationError::DuplicateFunctionId { id },
                ) && id@ == config@.id),
            },
    {
        proof {
            use_type_invariant(&*self);
        }
        let id = config.id.clone();
        if map_contains(&self.functions, &id) {
            return Err(
                AetherError::HardValidation(
                    HardValidationError::DuplicateFunctionId { id: id.as_str().to_string() },
                ),
            );
        }
        let entry = FunctionEntry::new(config);
        let mut m = map_new();
        std::mem::swap(&mut m, &mut self.functions);
        let _ = map_insert(&mut m, id, entry);
        proof {
            assert(registry_entries(m).dom() =~= old(self)@.dom().insert(config@.id));
        }
        self.functions = m;
        Ok(())
    }

    /// Remove a function and hand back its entry.
    pub fn unregister(&mut self, id: &FunctionId) -> (res: Result<FunctionEntry, AetherError>)
        ensures
            registry_wf(final(self)@),
            res is Ok <==> old(self)@.contains_key(id@),
            final(self)@ == old(self)@.remove(id@),
            match res {
                Ok(e) => e == old(self)@[id@],
                Err(e) => e matches AetherError::FunctionNotFound(f) && f@ == id@,
            },
    {
        proof {
            use_type_invariant(&*self);
        }
        let mut m = map_new();
        std::mem::swap(&mut m, &mut self.functions);
        let removed = map_remove(&mut m, id);
        proof {
            assert(registry_wf(registry_entries(m)));
        }
        self.functions = m;
        match removed {
            Some((_, entry)) => Ok(entry),
            None => {
                proof {
                    assert(self@ =~= old(self)@.remove(id@));
                }
                Err(AetherError::FunctionNotFound(id.clone()))
            },
        }
    }

    /// The lifecycle state of a function.
    pub fn get_state(&self, id: &FunctionId) -> (res: Result<FunctionState, AetherError>)
        ensures
            res is Ok <==> self@.contains_key(id@),
            match res {
                Ok(s) => s == self@[id@].state_machine@.state,
                Err(e) => e matches AetherError::FunctionNotFound(f) && f@ == id@,
            },
    {
        match map_get_state(&self.functions, id) {
            Some(s) => Ok(s),
            None => Err(AetherError::FunctionNotFound(id.clone())),
        }
    }

    /// Move a function's lifecycle to `target`; an unknown function or a
    /// transition the lifecycle does not allow is refused and changes
    /// nothing.
    pub fn transition(&mut self, id: &FunctionId, target: FunctionState) -> (res: Result<(), AetherError>)
        requires
            old(self)@.contains_key(id@) ==> old(self)@[id@].state_machine@.transition_count < u64::MAX,
        ensures
            registry_wf(final(self)@),
            res is Ok <==> old(self)@.contains_key(id@) && valid_transition(old(self)@[id@].state_machine@.state, target),
            final(self)@.dom() == old(self)@.dom(),
            forall|k: Seq<char>| k != id@ && #[trigger] old(self)@.contains_key(k) ==> final(self)@[k] == old(self)@[k],
            res is Ok ==> transitioned(old(self)@, final(self)@, id@, target),
            res is Err ==> final(self)@ == old(self)@,
            match res {
                Err(AetherError::FunctionNotFound(f)) => !old(self)@.contains_key(id@) && f@ == id@,
                Err(AetherError::InvalidStateTransition(StateTransitionError::InvalidTransition { from, to, .. })) =>
                    old(self)@.contains_key(id@) && from@ == state_name(old(self)@[id@].state_machine@.state) && to@ == state_name(target),
                Err(_) => false,
                Ok(_) => true,
            },
    {
        proof {
            use_type_invariant(&*self);
        }
        let mut m = map_new();
        std::mem::swap(&mut m, &mut self.functions);
        match map_remove(&mut m, id) {
            None => {
                proof {
                    assert(registry_entries(m) =~= old(self)@);
                }
                self.functions = m;
                Err(AetherError::FunctionNotFound(id.clone()))
            },
            Some((key, entry)) => {
                let mut entry = entry;
                let result = entry.state_machine.transition_to(target);
                let _ = map_insert(&mut m, key, entry);
                proof {
                    assert(registry_entries(m).dom() =~= old(self)@.dom());
                    if result is Err {
                        assert(registry_entries(m) =~= old(self)@);
                    }
                }
                self.functions = m;
                match result {
                    Ok(()) => Ok(()),
                    Err(e) => Err(AetherError::InvalidStateTransition(e)),
                }
            },
        }
    }

    /// Whether a function is registered.
    pub fn contains(&self, id: &FunctionId) -> (r: bool)
        ensures
            r == self@.contains_key(id@),
    {
        map_contains(&self.functions, id)
    }

    /// Number of registered functions.
    pub fn len(&self) -> (r: usize)
        ensures
            r == self@.len(),
    {
        map_len(&self.functions)
    }

    /// Whether no function is registered.
    pub fn is_empty(&self) -> (r: bool)
        ensures
            r == (self@.len() == 0),
    {
        map_len(&self.functions) == 0
    }

    /// The registered identifiers, each once, in no particular order.
    pub fn function_ids(&self) -> (r: Vec<FunctionId>)
        ensures
            r@.len() == self@.len(),
            forall|i: int| 0 <= i < r@.len() ==> self@.contains_key(#[trigger] r@[i]@),
            forall|i: int, j: int| 0 <= i < j < r@.len() ==> (#[trigger] r@[i])@ != (#[trigger] r@[j])@,
    {
        let ids = map_keys(&self.functions);
        proof {
            lemma_keys_cover(ids@, self@);
        }
        ids
    }

    /// The functions in state `state`, each once, in no particular order.
    pub fn functions_in_state(&self, state: FunctionState) -> (r: Vec<FunctionId>)
        ensures
            forall|i: int| 0 <= i < r@.len() ==> self@.contains_key(#[trigger] r@[i]@) && self@[r@[i]@].state_machine@.state == state,
            forall|k: Seq<char>| #[trigger] self@.contains_key(k) && self@[k].state_machine@.state == state ==> exists|i: int| 0 <= i < r@.len() && (#[trigger] r@[i])@ == k,
            forall|i: int, j: int| 0 <= i < j < r@.len() ==> (#[trigger] r@[i])@ != (#[trigger] r@[j])@,
    {
        let ids = map_keys(&self.functions);
        proof {
            lemma_keys_cover(ids@, self@);
        }
        let mut out: Vec<FunctionId> = Vec::new();
        let ghost mut src: Seq<int> = Seq::empty();
        let ghost mut at: Map<int, int> = Map::empty();
        let n = ids.len();
        let mut i: usize = 0;
        while i < n
            invariant
                i <= n,
                n == ids@.len(),
                ids@.len() == self@.len(),
                forall|a: int| 0 <= a < ids@.len() ==> self@.contains_key(#[trigger] ids@[a]@),
                forall|a: int, b: int| 0 <= a < b < ids@.len() ==> (#[trigger] ids@[a])@ != (#[trigger] ids@[b])@,
                src.len() == out@.len(),
                forall|a: int| 0 <= a < out@.len() ==> 0 <= #[trigger] src[a] < i && out@[a]@ == ids@[src[a]]@,
                forall|a: int, c: int| 0 <= a < c < out@.len() ==> #[trigger] src[a] < #[trigger] src[c],
                forall|a: int| 0 <= a < out@.len() ==> self@[(#[trigger] out@[a])@].state_machine@.state == state,
                forall|b: int| 0 <= b < i && self@[(#[trigger] ids@[b])@].state_machine@.state == state ==> at.contains_key(b) && 0 <= at[b] < out@.len() && out@[at[b]]@ == ids@[b]@,
            decreases n - i,
        {
            let s = map_get_state(&self.functions, &ids[i]);
            if s == Some(state) {
                let ghost k = out@.len() as int;
                out.push(ids[i].clone());
                proof {
                    src = src.push(i as int);
                    at = at.insert(i as int, k);
                }
            }
            i = i + 1;
        }
        proof {
            assert forall|a: int| 0 <= a < out@.len() implies self@.contains_key(#[trigger] out@[a]@) && self@[out@[a]@].state_machine@.state == state by {
                assert(self@.contains_key(ids@[src[a]]@));
            }
            assert forall|a: int, c: int| 0 <= a < c < out@.len() implies (#[trigger] out@[a])@ != (#[trigger] out@[c])@ by {
                assert(src[a] < src[c]);
                assert(ids@[src[a]]@ != ids@[src[c]]@);
            }
            assert forall|k: Seq<char>| #[trigger] self@.contains_key(k) && self@[k].state_machine@.state == state implies exists|i: int| 0 <= i < out@.len() && (#[trigger] out@[i])@ == k by {
                let b = choose|b: int| 0 <= b < ids@.len() && (#[trigger] ids@[b])@ == k;
                assert(self@[ids@[b]@].state_machine@.state == state);
                assert(out@[at[b]]@ == k);
            }
        }
        out
    }

    /// Metrics of every registered function, each once, in no particular
    /// order: its identifier, the name of its state and its transitions.
    pub fn metrics(&self) -> (r: Vec<StateMachineMetrics>)
        ensures
            r@.len() == self@.len(),
            forall|i: int|
                0 <= i < r@.len() ==> {
                    &&& self@.contains_key((#[trigger] r@[i]).function_id@)
                    &&& r@[i].current_state@ == state_name(self@[r@[i].function_id@].state_machine@.state)
                    &&& r@[i].transition_count == self@[r@[i].function_id@].state_machine@.transition_count
                },
            forall|i: int, j: int| 0 <= i < j < r@.len() ==> (#[trigger] r@[i]).function_id@ != (#[trigger] r@[j]).function_id@,
    {
        proof {
            use_type_invariant(self);
        }
        let ids = map_keys(&self.functions);
        proof {
            lemma_keys_cover(ids@, self@);
        }
        let mut out: Vec<StateMachineMetrics> = Vec::new();
        let n = ids.len();
        let mut i: usize = 0;
        while i < n
            invariant
                i <= n,
                n == ids@.len(),
                ids@.len() == self@.len(),
                registry_wf(self@),
                forall|a: int| 0 <= a < ids@.len() ==> self@.contains_key(#[trigger] ids@[a]@),
                forall|a: int, b: int| 0 <= a < b < ids@.len() ==> (#[trigger] ids@[a])@ != (#[trigger] ids@[b])@,
                out@.len() == i,
                forall|a: int|
                    0 <= a < out@.len() ==> {
                        &&& (#[trigger] out@[a]).function_id@ == ids@[a]@
                        &&& self@.contains_key(out@[a].function_id@)
                        &&& out@[a].current_state@ == state_name(self@[out@[a].function_id@].state_machine@.state)
                        &&& out@[a].transition_count == self@[out@[a].function_id@].state_machine@.transition_count
                    },
            decreases n - i,
        {
            match map_get_state_machine(&self.functions, &ids[i]) {
                Some(sm) => {
                    out.push(StateMachineMetrics::from_state_machine(&sm));
                },
                None => {
                    assert(self@.contains_key(ids@[i as int]@));
                },
            }
            i = i + 1;
        }
        out
    }

    /// A copy of a function's configuration.
    pub fn get_config(&self, id: &FunctionId) -> (res: Result<FunctionConfig, AetherError>)
        ensures
            res is Ok <==> self@.contains_key(id@),
            match res {
                Ok(c) => c@ == self@[id@].config@,
                Err(e) => e matches AetherError::FunctionNotFound(f) && f@ == id@,
            },
    {
        match map_get_config(&self.functions, id) {
            Some(c) => Ok(c),
            None => Err(AetherError::FunctionNotFound(id.clone())),
        }
    }

    /// Replace a registered function's configuration, keeping its
    /// lifecycle; an unknown function is refused.
    pub fn update_config(&mut self, config: FunctionConfig) -> (res: Result<(), AetherError>)
        ensures
            registry_wf(final(self)@),
            res is Ok <==> old(self)@.contains_key(config@.id),
            final(self)@.dom() == old(self)@.dom(),
            forall|k: Seq<char>| k != config@.id && #[trigger] old(self)@.contains_key(k) ==> final(self)@[k] == old(self)@[k],
            res is Ok ==> final(self)@[config@.id].config == config && final(self)@[config@.id].state_machine == old(self)@[config@.id].state_machine,
            res is Err ==> final(self)@ == old(self)@,
            match res {
                Err(e) => e matches AetherError::FunctionNotFound(f) && f@ == config@.id,
                Ok(_) => true,
            },
    {
        proof {
            use_type_invariant(&*self);
        }
        let id = config.id.clone();
        let mut m = map_new();
        std::mem::swap(&mut m, &mut self.functions);
        match map_remove(&mut m, &id) {
            None => {
                proof {
                    assert(registry_entries(m) =~= old(self)@);
                }
                self.functions = m;
                Err(AetherError::FunctionNotFound(id))
            },
            Some((key, entry)) => {
                let entry = FunctionEntry { config, state_machine: entry.state_machine };
                let _ = map_insert(&mut m, key, entry);
                proof {
                    assert(registry_entries(m).dom() =~= old(self)@.dom());
                }
                self.functions = m;
                Ok(())
            },
        }
    }
}


impl Default for FunctionRegistry {
    fn default() -> (r: FunctionRegistry)
        ensures
            r@ == Map::<Seq<char>, FunctionEntry>::empty(),
    {
        FunctionRegistry::new()
    }
}

/// A list of distinct identifiers whose texts are exactly a map's keys has
/// one element per key, and every key appears in it.
proof fn lemma_keys_cover(ids: Seq<FunctionId>, m: Map<Seq<char>, FunctionEntry>)
    requires
        ids.map_values(|f: FunctionId| f@).to_set() == m.dom(),
        forall|a: int, b: int| 0 <= a < b < ids.len() ==> (#[trigger] ids[a])@ != (#[trigger] ids[b])@,
    ensures
        ids.len() == m.len(),
        forall|a: int| 0 <= a < ids.len() ==> m.contains_key(#[trigger] ids[a]@),
        forall|k: Seq<char>| #[trigger] m.contains_key(k) ==> exists|a: int| 0 <= a < ids.len() && (#[trigger] ids[a])@ == k,
{
    let vs = ids.map_values(|f: FunctionId| f@);
    assert(vs.no_duplicates()) by {
        assert forall|a: int, b: int| 0 <= a < vs.len() && 0 <= b < vs.len() && a != b implies vs[a] != vs[b] by {
            if a < b {
                assert(ids[a]@ != ids[b]@);
            } else {
                assert(ids[b]@ != ids[a]@);
            }
        }
    }
    vs.unique_seq_to_set();
    assert forall|a: int| 0 <= a < ids.len() implies m.contains_key(#[trigger] ids[a]@) by {
        assert(vs[a] == ids[a]@);
        assert(vs.to_set().contains(vs[a]));
    }
    assert forall|k: Seq<char>| #[trigger] m.contains_key(k) implies exists|a: int| 0 <= a < ids.len() && (#[trigger] ids[a])@ == k by {
        assert(vs.to_set().contains(k));
        let a = choose|a: int| 0 <= a < vs.len() && vs[a] == k;
        assert(ids[a]@ == k);
    }
}

} // verus!

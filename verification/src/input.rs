//! Raw keyboard state and its mapping to game actions.
use vstd::prelude::*;

use std::collections::{HashMap, HashSet};
use vstd::std_specs::hash::spec_hash_map_iter;
use vstd::std_specs::iter::IteratorSpec;

use crate::game::{action_code, lemma_action_code_injective, GameAction};

verus! {

/// Which physical keys are held down; a key is named by its key code.
pub struct RawInputState {
    held_keys: HashSet<u32>,
}

impl View for RawInputState {
    type V = Set<u32>;

    closed spec fn view(&self) -> Set<u32> {
        self.held_keys@
    }
}

impl RawInputState {
    /// No key held.
    pub fn new() -> (s: Self)
        ensures
            s@ == Set::<u32>::empty(),
    {
        RawInputState { held_keys: HashSet::new() }
    }

    /// Records a key going down (`pressed`) or up.
    pub fn set_key(&mut self, key: u32, pressed: bool)
        ensures
            final(self)@ == if pressed {
                old(self)@.insert(key)
            } else {
                old(self)@.remove(key)
            },
    {
        if pressed {
            self.held_keys.insert(key);
        } else {
            self.held_keys.remove(&key);
        }
    }

    /// The key is held down.
    pub fn is_key_held(&self, key: u32) -> (held: bool)
        ensures
            held == self@.contains(key),
    {
        self.held_keys.contains(&key)
    }

    /// Releases every key (for instance when the window loses focus).
    pub fn clear(&mut self)
        ensures
            final(self)@ == Set::<u32>::empty(),
    {
        self.held_keys.clear();
    }
}

impl Default for RawInputState {
    fn default() -> (s: Self)
        ensures
            s@ == Set::<u32>::empty(),
    {
        RawInputState::new()
    }
}

/// The set of actions active in a frame.
pub struct ActionState {
    active: HashSet<u8>,
}

impl View for ActionState {
    type V = Set<GameAction>;

    closed spec fn view(&self) -> Set<GameAction> {
        Set::new(|a: GameAction| self.active@.contains(action_code(a)))
    }
}

impl ActionState {
    /// The action is active.
    pub fn is_active(&self, action: GameAction) -> (r: bool)
        ensures
            r == self@.contains(action),
    {
        self.active.contains(&action.code())
    }
}

/// Bindings from key codes to the actions they trigger.
pub struct ActionMap {
    bindings: HashMap<u32, Vec<GameAction>>,
}

impl View for ActionMap {
    type V = Map<u32, Seq<GameAction>>;

    closed spec fn view(&self) -> Map<u32, Seq<GameAction>> {
        self.bindings@.map_values(|v: Vec<GameAction>| v@)
    }
}

/// The actions bound to `key`, in binding order.
pub open spec fn bound_actions(m: Map<u32, Seq<GameAction>>, key: u32) -> Seq<GameAction> {
    if m.contains_key(key) {
        m[key]
    } else {
        Seq::empty()
    }
}

/// An action is active when some held key is bound to it.
pub open spec fn resolves_to(
    bindings: Map<u32, Seq<GameAction>>,
    held: Set<u32>,
    a: GameAction,
) -> bool {
    exists|k: u32| held.contains(k) && #[trigger] bound_actions(bindings, k).contains(a)
}

impl ActionMap {
    /// No bindings.
    pub fn new() -> (m: Self)
        ensures
            m@ == Map::<u32, Seq<GameAction>>::empty(),
    {
        let m = ActionMap { bindings: HashMap::new() };
        assert(m@ =~= Map::<u32, Seq<GameAction>>::empty());
        m
    }

    /// Adds `action` to the actions of `key`; earlier bindings stay. Returns the map
    /// itself, so that bindings can be chained.
    pub fn bind(&mut self, key: u32, action: GameAction) -> (r: &mut Self)
        ensures
            (*r)@ == old(self)@.insert(key, bound_actions(old(self)@, key).push(action)),
            *final(self) == *final(r),
    {
        let ghost before = self.bindings@;
        let mut actions = match self.bindings.remove(&key) {
            Some(v) => v,
            None => Vec::new(),
        };
        actions.push(action);
        self.bindings.insert(key, actions);
        proof {
            assert(self@ =~= old(self)@.insert(key, bound_actions(old(self)@, key).push(action)));
        }
        self
    }
}

impl ActionMap {
    /// The actions active for the held keys: every action bound to at least one held key.
    pub fn resolve(&self, raw_input: &RawInputState) -> (state: ActionState)
        ensures
            forall|a: GameAction| #[trigger] state@.contains(a) <==> resolves_to(self@, raw_input@, a),
    {
        broadcast use vstd::std_specs::hash::group_hash_axioms;

        let mut active: HashSet<u8> = HashSet::new();
        let ghost m = self.bindings@;
        let ghost v = spec_hash_map_iter(&self.bindings).remaining();
        let ghost mut done: int = 0;
        for kv in it: self.bindings.iter()
            invariant
                it.seq() == v,
                done == it.index(),
                m == self.bindings@,
                forall|c: u8|
                    #[trigger] active@.contains(c) <==> exists|p: int, q: int|
                        0 <= p < done && raw_input@.contains(*v[p].0) && 0 <= q < v[p].1@.len()
                            && action_code(#[trigger] v[p].1@[q]) == c,
        {
            let (key, actions) = kv;
            assert(v[done] == kv);
            if raw_input.is_key_held(*key) {
                let mut q: usize = 0;
                while q < actions.len()
                    invariant
                        q <= actions@.len(),
                        0 <= done < v.len(),
                        v[done] == kv,
                        forall|c: u8|
                            #[trigger] active@.contains(c) <==> (exists|p: int, q2: int|
                                0 <= p < done && raw_input@.contains(*v[p].0) && 0 <= q2
                                    < v[p].1@.len() && action_code(#[trigger] v[p].1@[q2]) == c)
                                || (exists|q2: int|
                                0 <= q2 < q && action_code(#[trigger] actions@[q2]) == c),
                    decreases actions@.len() - q,
                {
                    active.insert(actions[q].code());
                    q = q + 1;
                }
                proof {
                    assert forall|c: u8| #[trigger] active@.contains(c) <==> exists|p: int, q2: int|
                        0 <= p < done + 1 && raw_input@.contains(*v[p].0) && 0 <= q2 < v[p].1@.len()
                            && action_code(#[trigger] v[p].1@[q2]) == c by {
                        if active@.contains(c) {
                            if !(exists|p: int, q2: int|
                                0 <= p < done && raw_input@.contains(*v[p].0) && 0 <= q2
                                    < v[p].1@.len() && action_code(#[trigger] v[p].1@[q2]) == c) {
                                let q2 = choose|q2: int| 0 <= q2 < actions@.len() && action_code(#[trigger] actions@[q2]) == c;
                                assert(action_code(v[done].1@[q2]) == c);
                            }
                        } else {
                            if exists|p: int, q2: int|
                                0 <= p < done + 1 && raw_input@.contains(*v[p].0) && 0 <= q2 < v[p].1@.len()
                                    && action_code(#[trigger] v[p].1@[q2]) == c {
                                let (p, q2) = choose|p: int, q2: int|
                                    0 <= p < done + 1 && raw_input@.contains(*v[p].0) && 0 <= q2 < v[p].1@.len()
                                        && action_code(#[trigger] v[p].1@[q2]) == c;
                                if p == done {
                                    assert(action_code(actions@[q2]) == c);
                                }
                            }
                        }
                    }
                }
            } else {
                proof {
                    assert forall|c: u8| #[trigger] active@.contains(c) <==> exists|p: int, q2: int|
                        0 <= p < done + 1 && raw_input@.contains(*v[p].0) && 0 <= q2 < v[p].1@.len()
                            && action_code(#[trigger] v[p].1@[q2]) == c by {
                        if exists|p: int, q2: int|
                            0 <= p < done + 1 && raw_input@.contains(*v[p].0) && 0 <= q2 < v[p].1@.len()
                                && action_code(#[trigger] v[p].1@[q2]) == c {
                            let (p, q2) = choose|p: int, q2: int|
                                0 <= p < done + 1 && raw_input@.contains(*v[p].0) && 0 <= q2 < v[p].1@.len()
                                    && action_code(#[trigger] v[p].1@[q2]) == c;
                            assert(p != done);
                        }
                    }
                }
            }
            proof {
                done = done + 1;
            }
        }
        let state = ActionState { active };
        proof {
            assert(done == v.len());
            assert forall|a: GameAction| #[trigger] state@.contains(a) <==> resolves_to(
                self@,
                raw_input@,
                a,
            ) by {
                let c = action_code(a);
                if state@.contains(a) {
                    assert(active@.contains(c));
                    let (p, q) = choose|p: int, q: int|
                        0 <= p < v.len() && raw_input@.contains(*v[p].0) && 0 <= q < v[p].1@.len()
                            && action_code(#[trigger] v[p].1@[q]) == c;
                    let k = *v[p].0;
                    assert(m.contains_key(k) && m[k] == *v[p].1);
                    lemma_action_code_injective(v[p].1@[q], a);
                    assert(bound_actions(self@, k) == v[p].1@);
                    assert(bound_actions(self@, k)[q] == a);
                    assert(bound_actions(self@, k).contains(a));
                }
                if resolves_to(self@, raw_input@, a) {
                    let k = choose|k: u32| raw_input@.contains(k) && #[trigger] bound_actions(self@, k).contains(a);
                    assert(self@.contains_key(k));
                    assert(m.contains_key(k));
                    assert(v.contains((&k, &m[k])));
                    let p = choose|p: int| 0 <= p < v.len() && v[p] == (&k, &m[k]);
                    let q = choose|q: int| 0 <= q < bound_actions(self@, k).len() && bound_actions(self@, k)[q] == a;
                    assert(v[p].1@[q] == a);
                    assert(action_code(v[p].1@[q]) == c);
                    assert(active@.contains(c));
                }
            }
        }
        state
    }
}

impl Default for ActionMap {
    fn default() -> (m: Self)
        ensures
            m@ == Map::<u32, Seq<GameAction>>::empty(),
    {
        ActionMap::new()
    }
}


/// A key that was just bound to an action triggers it whenever the key is held, and
/// binding never takes away an action that was active before.
pub proof fn lemma_bind_then_hold_activates(
    bindings: Map<u32, Seq<GameAction>>,
    held: Set<u32>,
    key: u32,
    action: GameAction,
    other: GameAction,
)
    ensures
        held.contains(key) ==> resolves_to(
            bindings.insert(key, bound_actions(bindings, key).push(action)),
            held,
            action,
        ),
        resolves_to(bindings, held, other) ==> resolves_to(
            bindings.insert(key, bound_actions(bindings, key).push(action)),
            held,
            other,
        ),
{
    let after = bindings.insert(key, bound_actions(bindings, key).push(action));
    if held.contains(key) {
        assert(bound_actions(after, key).last() == action);
        assert(bound_actions(after, key).contains(action));
    }
    if resolves_to(bindings, held, other) {
        let k = choose|k: u32| held.contains(k) && #[trigger] bound_actions(bindings, k).contains(other);
        let q = choose|q: int| 0 <= q < bound_actions(bindings, k).len() && bound_actions(bindings, k)[q] == other;
        assert(bound_actions(after, k)[q] == other);
        assert(bound_actions(after, k).contains(other));
    }
}

/// The bindings of a map made by `ActionMap::new` followed by `bind(key, action)` for
/// each pair of `binds`, in order.
pub open spec fn bindings_after(binds: Seq<(u32, GameAction)>) -> Map<u32, Seq<GameAction>>
    decreases binds.len(),
{
    if binds.len() == 0 {
        Map::empty()
    } else {
        let m = bindings_after(binds.drop_last());
        let (key, action) = binds.last();
        m.insert(key, bound_actions(m, key).push(action))
    }
}

proof fn lemma_bound_after_contains(binds: Seq<(u32, GameAction)>, key: u32, a: GameAction)
    ensures
        bound_actions(bindings_after(binds), key).contains(a) <==> exists|i: int|
            0 <= i < binds.len() && #[trigger] binds[i] == (key, a),
    decreases binds.len(),
{
    if binds.len() > 0 {
        let front = binds.drop_last();
        lemma_bound_after_contains(front, key, a);
        let m = bindings_after(front);
        let (k, b) = binds.last();
        let after = bindings_after(binds);
        if k == key {
            assert(bound_actions(after, key) == bound_actions(m, key).push(b));
            if bound_actions(after, key).contains(a) {
                let q = choose|q: int| 0 <= q < bound_actions(after, key).len() && bound_actions(after, key)[q] == a;
                if q < bound_actions(m, key).len() {
                    assert(bound_actions(m, key)[q] == a);
                    let i = choose|i: int| 0 <= i < front.len() && #[trigger] front[i] == (key, a);
                    assert(binds[i] == (key, a));
                } else {
                    assert(binds[binds.len() - 1] == (key, a));
                }
            }
            if exists|i: int| 0 <= i < binds.len() && #[trigger] binds[i] == (key, a) {
                let i = choose|i: int| 0 <= i < binds.len() && #[trigger] binds[i] == (key, a);
                if i < front.len() {
                    assert(front[i] == (key, a));
                    let q = choose|q: int| 0 <= q < bound_actions(m, key).len() && bound_actions(m, key)[q] == a;
                    assert(bound_actions(after, key)[q] == a);
                } else {
                    assert(bound_actions(after, key).last() == a);
                }
            }
        } else {
            assert(bound_actions(after, key) == bound_actions(m, key));
            if exists|i: int| 0 <= i < binds.len() && #[trigger] binds[i] == (key, a) {
                let i = choose|i: int| 0 <= i < binds.len() && #[trigger] binds[i] == (key, a);
                assert(i < front.len());
                assert(front[i] == (key, a));
            }
            if exists|i: int| 0 <= i < front.len() && #[trigger] front[i] == (key, a) {
                let i = choose|i: int| 0 <= i < front.len() && #[trigger] front[i] == (key, a);
                assert(binds[i] == (key, a));
            }
        }
    }
}

/// After `ActionMap::new` and a sequence of `bind(key, action)` calls, an action is
/// active for the held keys exactly when some binding pairs a held key with it.
pub proof fn lemma_bound_sequence_activates(binds: Seq<(u32, GameAction)>, held: Set<u32>, a: GameAction)
    ensures
        resolves_to(bindings_after(binds), held, a) <==> exists|i: int|
            0 <= i < binds.len() && held.contains(#[trigger] binds[i].0) && binds[i].1 == a,
{
    let m = bindings_after(binds);
    if resolves_to(m, held, a) {
        let k = choose|k: u32| held.contains(k) && #[trigger] bound_actions(m, k).contains(a);
        lemma_bound_after_contains(binds, k, a);
        let i = choose|i: int| 0 <= i < binds.len() && #[trigger] binds[i] == (k, a);
        assert(held.contains(binds[i].0) && binds[i].1 == a);
    }
    if exists|i: int| 0 <= i < binds.len() && held.contains(#[trigger] binds[i].0) && binds[i].1 == a {
        let i = choose|i: int| 0 <= i < binds.len() && held.contains(#[trigger] binds[i].0) && binds[i].1 == a;
        let k = binds[i].0;
        assert(binds[i] == (k, a));
        lemma_bound_after_contains(binds, k, a);
        assert(bound_actions(m, k).contains(a));
    }
}

/// With no key held, no action is active.
pub proof fn lemma_nothing_held_nothing_active(bindings: Map<u32, Seq<GameAction>>, a: GameAction)
    ensures
        !resolves_to(bindings, Set::<u32>::empty(), a),
{
}

/// A key's state is the last event seen for it: pressing then releasing leaves it up,
/// releasing then pressing leaves it down, and other keys are untouched.
pub proof fn lemma_key_state_follows_last_event(held: Set<u32>, key: u32, other: u32)
    ensures
        !held.insert(key).remove(key).contains(key),
        held.remove(key).insert(key).contains(key),
        other != key ==> (held.insert(key).contains(other) == held.contains(other) && held.remove(
            key,
        ).contains(other) == held.contains(other)),
{
}

} // verus!

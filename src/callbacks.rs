use std::collections::HashMap;
use vstd::prelude::*;

verus! {

broadcast use vstd::std_specs::hash::group_hash_axioms;

/// The per-layer evaluation hooks of running decodes, by the id that the runtime
/// hands back to the hook.
pub struct EvalCallbacks<C> {
    map: HashMap<usize, C>,
}

impl<C> View for EvalCallbacks<C> {
    type V = Map<usize, C>;

    closed spec fn view(&self) -> Map<usize, C> {
        self.map@
    }
}

impl<C> EvalCallbacks<C> {
    pub fn new() -> (r: EvalCallbacks<C>)
        ensures
            r@ == Map::<usize, C>::empty(),
    {
        EvalCallbacks { map: HashMap::new() }
    }

    pub fn len(&self) -> (r: usize)
        ensures
            r == self@.len(),
    {
        proof {
            vstd::std_specs::hash::axiom_spec_hash_map_len(&self.map);
        }
        self.map.len()
    }

    pub fn contains(&self, id: usize) -> (r: bool)
        ensures
            r == self@.contains_key(id),
    {
        self.map.contains_key(&id)
    }
}

/// Registers `callback` under `id`; returns the callback that it replaces, if any.
pub fn register_eval_callback<C>(callbacks: &mut EvalCallbacks<C>, id: usize, callback: C) -> (r: Option<C>)
    ensures
        final(callbacks)@ == old(callbacks)@.insert(id, callback),
        r == (if old(callbacks)@.contains_key(id) {
            Some(old(callbacks)@[id])
        } else {
            None
        }),
{
    callbacks.map.insert(id, callback)
}

/// Removes the callback registered under `id` and returns it, if any.
pub fn unregister_eval_callback<C>(callbacks: &mut EvalCallbacks<C>, id: usize) -> (r: Option<C>)
    ensures
        final(callbacks)@ == old(callbacks)@.remove(id),
        r == (if old(callbacks)@.contains_key(id) {
            Some(old(callbacks)@[id])
        } else {
            None
        }),
{
    callbacks.map.remove(&id)
}

/// The least time, in milliseconds, between two progress events that leave the core.
pub const PROGRESS_FLOOR_MS: u64 = 500;

/// Rate-limits progress events: one passes, then none until `floor_ms` have elapsed.
pub struct Throttle {
    pub floor_ms: u64,
    pub last_emit: Option<u64>,
}

impl Throttle {
    pub fn new(floor_ms: u64) -> (r: Throttle)
        ensures
            r.floor_ms == floor_ms,
            r.last_emit is None,
    {
        Throttle { floor_ms, last_emit: None }
    }

    /// Whether an event at time `now_ms` passes; a passing event becomes the last one.
    pub fn should_emit(&mut self, now_ms: u64) -> (r: bool)
        ensures
            r == match old(self).last_emit {
                None => true,
                Some(t) => t <= now_ms && now_ms - t >= old(self).floor_ms,
            },
            final(self).floor_ms == old(self).floor_ms,
            final(self).last_emit == (if r { Some(now_ms) } else { old(self).last_emit }),
    {
        let pass = match self.last_emit {
            None => true,
            Some(t) => t <= now_ms && now_ms - t >= self.floor_ms,
        };
        if pass {
            self.last_emit = Some(now_ms);
        }
        pass
    }
}

} // verus!

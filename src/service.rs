use std::collections::{HashMap, HashSet};
use vstd::prelude::*;

use crate::gpt::create::Error as CreateError;
use crate::session::{Session, SessionView};

verus! {

broadcast use vstd::std_specs::hash::group_hash_axioms;

/// What the runtime reports of a loaded model.
#[derive(Debug, Clone, Copy, PartialEq, Eq, Structural)]
pub struct SimularityModelInfo {
    pub n_params: u64,
    pub size: u64,
    pub n_ctx_train: i64,
}

#[derive(Debug, Clone, Copy, PartialEq, Eq, Structural)]
pub enum ModelLoadError {
    /// The runtime could not load the weights.
    LoadFailed,
}

#[derive(Debug, Clone, Copy, PartialEq, Eq, Structural)]
pub enum ModelHashError {
    ModelNotFound,
}

#[derive(Debug, Clone, Copy, PartialEq, Eq, Structural)]
pub enum ModelUnloadError {
    ModelNotFound,
    /// Sessions still use the model.
    InUse,
}

/// A loaded model: its id, content hash, what the runtime reports of it, and how
/// many sessions use it.
pub struct ModelRecord {
    pub id: String,
    pub hash: u64,
    pub info: SimularityModelInfo,
    pub refcount: usize,
}

/// A live session, the model it runs on, and when it was last used (in seconds).
pub struct SessionEntry {
    pub session: Session,
    pub model_id: String,
    pub last_used: u64,
}

/// The process-wide state: loaded models, live sessions, and the session limits.
pub struct Service {
    models: Vec<ModelRecord>,
    sessions: HashMap<u32, SessionEntry>,
    /// Sessions that an operation has taken out of `sessions` until it hands them back,
    /// with the model each runs on.
    busy: HashMap<u32, String>,
    /// Sessions whose abort flag is set.
    aborts: HashSet<u32>,
    next_id: u32,
    ttl_secs: u64,
    max_sessions: usize,
}

/// The index of the model `id` in `ms`, or -1.
pub open spec fn model_pos(ms: Seq<ModelRecord>, id: Seq<char>) -> int
    decreases ms.len(),
{
    if ms.len() == 0 {
        -1
    } else if ms.last().id@ == id {
        ms.len() - 1
    } else {
        model_pos(ms.drop_last(), id)
    }
}

/// No two model records have the same id.
pub open spec fn ids_unique(ms: Seq<ModelRecord>) -> bool {
    forall|i: int, j: int| 0 <= i < ms.len() && 0 <= j < ms.len() && i != j ==> ms[i].id@ != ms[j].id@
}

proof fn lemma_model_pos(ms: Seq<ModelRecord>, id: Seq<char>)
    ensures
        -1 <= model_pos(ms, id) < ms.len(),
        model_pos(ms, id) >= 0 ==> ms[model_pos(ms, id)].id@ == id,
        model_pos(ms, id) == -1 ==> forall|i: int| 0 <= i < ms.len() ==> ms[i].id@ != id,
    decreases ms.len(),
{
    if ms.len() > 0 && ms.last().id@ != id {
        lemma_model_pos(ms.drop_last(), id);
        if model_pos(ms, id) == -1 {
            assert forall|i: int| 0 <= i < ms.len() implies ms[i].id@ != id by {
                if i < ms.len() - 1 {
                    assert(ms.drop_last()[i] == ms[i]);
                }
            }
        }
    }
}

proof fn lemma_model_pos_at(ms: Seq<ModelRecord>, id: Seq<char>, i: int)
    requires
        ids_unique(ms),
        0 <= i < ms.len(),
        ms[i].id@ == id,
    ensures
        model_pos(ms, id) == i,
{
    lemma_model_pos(ms, id);
}

/// Whether a session last used at `last_used` has expired at `now` under `ttl`
/// seconds; a ttl of zero never expires.
pub open spec fn expired(last_used: u64, now: u64, ttl: u64) -> bool {
    ttl > 0 && last_used < now && now - last_used > ttl
}

impl Service {
    pub closed spec fn models(&self) -> Seq<ModelRecord> {
        self.models@
    }

    pub closed spec fn sessions(&self) -> Map<u32, SessionEntry> {
        self.sessions@
    }

    pub closed spec fn busy_models(&self) -> Map<u32, String> {
        self.busy@
    }

    /// The sessions that an operation holds.
    pub open spec fn busy(&self) -> Set<u32> {
        self.busy_models().dom()
    }

    /// The model that the live session `id` runs on.
    pub open spec fn model_of(&self, id: u32) -> Seq<char> {
        if self.sessions().contains_key(id) {
            self.sessions()[id].model_id@
        } else {
            self.busy_models()[id]@
        }
    }

    /// The live sessions that run on the model `mid`.
    pub open spec fn users(&self, mid: Seq<char>) -> Set<u32> {
        Set::new(|id: u32| self.is_live(id) && self.model_of(id) == mid)
    }

    pub closed spec fn aborts(&self) -> Set<u32> {
        self.aborts@
    }

    pub closed spec fn next_id(&self) -> u32 {
        self.next_id
    }

    pub closed spec fn ttl(&self) -> u64 {
        self.ttl_secs
    }

    pub closed spec fn max_sessions(&self) -> nat {
        self.max_sessions as nat
    }

    /// Every idle session is well formed, no id is both idle and busy, only live
    /// sessions carry an abort flag, model ids are unique, every live session runs on a
    /// loaded model, and each model's use count is the number of live sessions on it.
    pub open spec fn wf(&self) -> bool {
        &&& forall|id: u32| #[trigger] self.sessions().contains_key(id) ==> self.sessions()[id].session@.wf()
        &&& forall|id: u32| #[trigger] self.busy().contains(id) ==> !self.sessions().contains_key(id)
        &&& forall|id: u32| #[trigger] self.aborts().contains(id) ==> self.is_live(id)
        &&& self.sessions().dom().finite()
        &&& self.busy().finite()
        &&& ids_unique(self.models())
        &&& forall|id: u32| #[trigger] self.is_live(id) ==> model_pos(self.models(), self.model_of(id)) >= 0
        &&& forall|i: int|
            0 <= i < self.models().len() ==> (#[trigger] self.models()[i]).refcount == self.users(
                self.models()[i].id@,
            ).len()
    }

    /// Whether the idle session `id` exists and has not expired at `now`.
    pub open spec fn found(&self, id: u32, now: u64) -> bool {
        self.sessions().contains_key(id) && !expired(self.sessions()[id].last_used, now, self.ttl())
    }

    /// What the idle session `id` holds.
    pub open spec fn session_view(&self, id: u32) -> SessionView {
        self.sessions()[id].session@
    }

    /// Whether a session with this id exists, idle or in use.
    pub open spec fn is_live(&self, id: u32) -> bool {
        self.sessions().contains_key(id) || self.busy().contains(id)
    }

    /// The number of live sessions.
    pub open spec fn live_count(&self) -> nat {
        self.sessions().len() + self.busy().len()
    }

    /// A service with no model and no session; `0` (or none) disables each limit.
    pub fn init(session_ttl_secs: Option<u32>, session_max: Option<u32>) -> (r: Service)
        ensures
            r.wf(),
            r.models().len() == 0,
            r.sessions() == Map::<u32, SessionEntry>::empty(),
            r.busy() == Set::<u32>::empty(),
            r.aborts() == Set::<u32>::empty(),
            r.next_id() == 1,
            r.ttl() == (match session_ttl_secs { Some(t) => t as u64, None => 0 }),
            r.max_sessions() == (match session_max { Some(m) => m as nat, None => 0 }),
    {
        let ttl = match session_ttl_secs {
            Some(t) => t as u64,
            None => 0,
        };
        let max = match session_max {
            Some(m) => m as usize,
            None => 0,
        };
        let r = Service {
            models: Vec::new(),
            sessions: HashMap::new(),
            busy: HashMap::new(),
            aborts: HashSet::new(),
            next_id: 1,
            ttl_secs: ttl,
            max_sessions: max,
        };
        proof {
            assert(r.busy() =~= Set::<u32>::empty());
            assert(r.sessions().dom() =~= Set::<u32>::empty());
        }
        r
    }

    /// The index of the model `id`.
    pub fn find_model(&self, id: &str) -> (r: Option<usize>)
        ensures
            r matches Some(i) ==> i == model_pos(self.models(), id@) && i < self.models().len(),
            r is None ==> model_pos(self.models(), id@) == -1,
    {
        let key = id.to_owned();
        let mut i: usize = self.models.len();
        assert(self.models@.subrange(0, i as int) =~= self.models@);
        while i > 0
            invariant
                i <= self.models@.len(),
                key@ == id@,
                model_pos(self.models@, id@) == model_pos(self.models@.subrange(0, i as int), id@),
            decreases i,
        {
            let ghost sub = self.models@.subrange(0, i as int);
            assert(sub.drop_last() =~= self.models@.subrange(0, i - 1));
            assert(sub.last() == self.models@[i - 1]);
            if self.models[i - 1].id == key {
                return Some(i - 1);
            }
            i = i - 1;
        }
        assert(self.models@.subrange(0, 0) =~= Seq::<ModelRecord>::empty());
        None
    }

    /// What the runtime reported of the model `id`, where it is loaded.
    pub fn model_info(&self, id: &str) -> (r: Option<SimularityModelInfo>)
        ensures
            model_pos(self.models(), id@) >= 0 ==> r == Some(self.models()[model_pos(self.models(), id@)].info),
            model_pos(self.models(), id@) < 0 ==> r is None,
    {
        match self.find_model(id) {
            Some(i) => Some(self.models[i].info),
            None => None,
        }
    }

    /// Registers the model `id`. Loading an id again returns the info it was loaded
    /// with and touches nothing; otherwise `loaded` is what the runtime made of the
    /// weights (`None` where it failed), and the model starts with no session.
    pub fn model_load(
        &mut self,
        id: &str,
        loaded: Option<(u64, SimularityModelInfo)>,
    ) -> (r: Result<SimularityModelInfo, ModelLoadError>)
        requires
            old(self).wf(),
        ensures
            final(self).wf(),
            final(self).sessions() == old(self).sessions(),
            final(self).busy_models() == old(self).busy_models(),
            final(self).aborts() == old(self).aborts(),
            final(self).next_id() == old(self).next_id(),
            final(self).ttl() == old(self).ttl(),
            final(self).max_sessions() == old(self).max_sessions(),
            model_pos(old(self).models(), id@) >= 0 ==> final(self).models() == old(self).models()
                && r == Ok::<SimularityModelInfo, ModelLoadError>(
                old(self).models()[model_pos(old(self).models(), id@)].info,
            ),
            model_pos(old(self).models(), id@) < 0 && loaded is None ==> final(self).models() == old(
                self,
            ).models() && r == Err::<SimularityModelInfo, ModelLoadError>(ModelLoadError::LoadFailed),
            model_pos(old(self).models(), id@) < 0 && loaded is Some ==> {
                let (hash, info) = loaded.unwrap();
                &&& r == Ok::<SimularityModelInfo, ModelLoadError>(info)
                &&& final(self).models().len() == old(self).models().len() + 1
                &&& final(self).models().drop_last() == old(self).models()
                &&& final(self).models().last().id@ == id@
                &&& final(self).models().last().hash == hash
                &&& final(self).models().last().info == info
                &&& final(self).models().last().refcount == 0
            },
    {
        match self.find_model(id) {
            Some(i) => Ok(self.models[i].info),
            None => match loaded {
                None => Err(ModelLoadError::LoadFailed),
                Some((hash, info)) => {
                    self.models.push(ModelRecord { id: id.to_owned(), hash, info, refcount: 0 });
                    proof {
                        let ms = old(self).models();
                        let ns = self.models();
                        assert(ns.drop_last() =~= ms);
                        lemma_model_pos(ms, id@);
                        assert forall|a: int, b: int|
                            0 <= a < ns.len() && 0 <= b < ns.len() && a != b implies ns[a].id@ != ns[b].id@ by {
                            if a < ms.len() {
                                assert(ns[a] == ms[a]);
                            }
                            if b < ms.len() {
                                assert(ns[b] == ms[b]);
                            }
                        }
                        assert forall|k: u32| #[trigger] self.is_live(k) implies model_pos(ns, self.model_of(k)) >= 0 by {
                            assert(old(self).is_live(k));
                            let m = old(self).model_of(k);
                            lemma_model_pos(ms, m);
                            lemma_model_pos(ns, m);
                            let q = model_pos(ms, m);
                            assert(ns[q] == ms[q]);
                        }
                        assert forall|k: u32| #[trigger] self.aborts().contains(k) implies self.is_live(k) by {
                            assert(old(self).aborts().contains(k));
                        }
                        lemma_same_users(old(self), self);
                        assert forall|j: int| 0 <= j < ns.len() implies (#[trigger] ns[j]).refcount == self.users(
                            ns[j].id@,
                        ).len() by {
                            if j < ms.len() {
                                assert(ns[j] == ms[j]);
                            } else {
                                assert forall|k: u32| !(#[trigger] old(self).users(id@).contains(k)) by {
                                    if old(self).is_live(k) && old(self).model_of(k) == id@ {
                                        assert(model_pos(ms, old(self).model_of(k)) >= 0);
                                    }
                                }
                                assert(old(self).users(id@) =~= Set::<u32>::empty());
                            }
                        }
                    }
                    Ok(info)
                },
            },
        }
    }

    /// The content hash of the model `id`.
    pub fn model_hash(&self, id: &str) -> (r: Result<u64, ModelHashError>)
        ensures
            model_pos(self.models(), id@) >= 0 ==> r == Ok::<u64, ModelHashError>(
                self.models()[model_pos(self.models(), id@)].hash,
            ),
            model_pos(self.models(), id@) < 0 ==> r == Err::<u64, ModelHashError>(ModelHashError::ModelNotFound),
    {
        match self.find_model(id) {
            Some(i) => Ok(self.models[i].hash),
            None => Err(ModelHashError::ModelNotFound),
        }
    }

    /// Unloads the model `id`; refused while a session uses it.
    pub fn model_unload(&mut self, id: &str) -> (r: Result<(), ModelUnloadError>)
        requires
            old(self).wf(),
        ensures
            final(self).wf(),
            final(self).sessions() == old(self).sessions(),
            final(self).busy_models() == old(self).busy_models(),
            final(self).aborts() == old(self).aborts(),
            final(self).next_id() == old(self).next_id(),
            final(self).ttl() == old(self).ttl(),
            final(self).max_sessions() == old(self).max_sessions(),
            model_pos(old(self).models(), id@) < 0 ==> r == Err::<(), ModelUnloadError>(ModelUnloadError::ModelNotFound)
                && final(self).models() == old(self).models(),
            model_pos(old(self).models(), id@) >= 0 && old(self).models()[model_pos(old(self).models(), id@)].refcount > 0
                ==> r == Err::<(), ModelUnloadError>(ModelUnloadError::InUse) && final(self).models() == old(self).models(),
            model_pos(old(self).models(), id@) >= 0 && old(self).models()[model_pos(old(self).models(), id@)].refcount == 0
                ==> r is Ok && final(self).models() == old(self).models().remove(model_pos(old(self).models(), id@)),
            r is Ok ==> old(self).users(id@).len() == 0,
    {
        match self.find_model(id) {
            None => Err(ModelUnloadError::ModelNotFound),
            Some(i) => {
                if self.models[i].refcount > 0 {
                    Err(ModelUnloadError::InUse)
                } else {
                    let _removed = self.models.remove(i);
                    proof {
                        let ms = old(self).models();
                        let ns = self.models();
                        let ii = i as int;
                        assert(ns =~= ms.remove(ii));
                        lemma_model_pos(ms, id@);
                        assert(ms[ii].id@ == id@);
                        assert(old(self).models()[ii].refcount == old(self).users(id@).len());
                        lemma_users_finite(old(self), id@);
                        old(self).users(id@).lemma_len0_is_empty();
                        assert forall|j: int| 0 <= j < ns.len() implies #[trigger] ns[j] == ms[if j < ii { j } else { j + 1 }] by {}
                        assert forall|a: int, b: int|
                            0 <= a < ns.len() && 0 <= b < ns.len() && a != b implies ns[a].id@ != ns[b].id@ by {
                            assert(ns[a] == ms[if a < ii { a } else { a + 1 }]);
                            assert(ns[b] == ms[if b < ii { b } else { b + 1 }]);
                        }
                        assert forall|k: u32| #[trigger] self.is_live(k) implies model_pos(ns, self.model_of(k)) >= 0 by {
                            let m = old(self).model_of(k);
                            assert(old(self).is_live(k));
                            assert(!old(self).users(id@).contains(k));
                            lemma_model_pos(ms, m);
                            let q = model_pos(ms, m);
                            assert(q != ii);
                            let q2 = if q < ii { q } else { q - 1 };
                            assert(ns[q2] == ms[q]);
                            lemma_model_pos(ns, m);
                        }
                        assert forall|k: u32| #[trigger] self.aborts().contains(k) implies self.is_live(k) by {
                            assert(old(self).aborts().contains(k));
                        }
                        lemma_same_users(old(self), self);
                        assert forall|j: int| 0 <= j < ns.len() implies (#[trigger] ns[j]).refcount == self.users(
                            ns[j].id@,
                        ).len() by {
                            assert(ns[j] == ms[if j < ii { j } else { j + 1 }]);
                        }
                    }
                    Ok(())
                }
            },
        }
    }

    /// Whether the model `model_id` is loaded.
    pub fn model_loaded(&self, model_id: &str) -> (r: bool)
        ensures
            r == (model_pos(self.models(), model_id@) >= 0),
    {
        self.find_model(model_id).is_some()
    }
}


proof fn lemma_users_finite(s: &Service, mid: Seq<char>)
    requires
        s.sessions().dom().finite(),
        s.busy().finite(),
    ensures
        s.users(mid).finite(),
{
    let u = s.sessions().dom() + s.busy();
    assert(s.users(mid).subset_of(u));
    vstd::set_lib::lemma_set_subset_finite(u, s.users(mid));
}

/// Two states whose live sessions run on the same models have the same users.
proof fn lemma_same_users(a: &Service, b: &Service)
    requires
        forall|k: u32| #[trigger] a.is_live(k) == b.is_live(k),
        forall|k: u32| #[trigger] a.is_live(k) ==> a.model_of(k) == b.model_of(k),
    ensures
        forall|mid: Seq<char>| #[trigger] a.users(mid) == b.users(mid),
{
    assert forall|mid: Seq<char>| #[trigger] a.users(mid) == b.users(mid) by {
        assert(a.users(mid) =~= b.users(mid));
    }
}

/// A state with one live session more, `id`.
proof fn lemma_users_insert(a: &Service, b: &Service, id: u32)
    requires
        !a.is_live(id),
        b.is_live(id),
        forall|k: u32| k != id ==> #[trigger] a.is_live(k) == b.is_live(k),
        forall|k: u32| k != id && #[trigger] a.is_live(k) ==> a.model_of(k) == b.model_of(k),
    ensures
        forall|mid: Seq<char>| #[trigger] b.users(mid) == if mid == b.model_of(id) {
            a.users(mid).insert(id)
        } else {
            a.users(mid)
        },
{
    assert forall|mid: Seq<char>| #[trigger] b.users(mid) == if mid == b.model_of(id) {
        a.users(mid).insert(id)
    } else {
        a.users(mid)
    } by {
        if mid == b.model_of(id) {
            assert(b.users(mid) =~= a.users(mid).insert(id));
        } else {
            assert(b.users(mid) =~= a.users(mid));
        }
    }
}

/// A state with one live session fewer, `id`.
proof fn lemma_users_remove(a: &Service, b: &Service, id: u32)
    requires
        a.is_live(id),
        !b.is_live(id),
        forall|k: u32| k != id ==> #[trigger] a.is_live(k) == b.is_live(k),
        forall|k: u32| k != id && #[trigger] a.is_live(k) ==> a.model_of(k) == b.model_of(k),
    ensures
        forall|mid: Seq<char>| #[trigger] b.users(mid) == if mid == a.model_of(id) {
            a.users(mid).remove(id)
        } else {
            a.users(mid)
        },
{
    assert forall|mid: Seq<char>| #[trigger] b.users(mid) == if mid == a.model_of(id) {
        a.users(mid).remove(id)
    } else {
        a.users(mid)
    } by {
        if mid == a.model_of(id) {
            assert(b.users(mid) =~= a.users(mid).remove(id));
        } else {
            assert(b.users(mid) =~= a.users(mid));
        }
    }
}

/// Records with the same ids, position by position, find every id at the same place.
proof fn lemma_model_pos_same_ids(ms: Seq<ModelRecord>, ns: Seq<ModelRecord>, id: Seq<char>)
    requires
        ms.len() == ns.len(),
        forall|j: int| 0 <= j < ms.len() ==> #[trigger] ns[j].id@ == ms[j].id@,
    ensures
        model_pos(ns, id) == model_pos(ms, id),
    decreases ms.len(),
{
    if ms.len() > 0 {
        assert(ns.last().id@ == ms.last().id@);
        assert forall|j: int| 0 <= j < ms.drop_last().len() implies #[trigger] ns.drop_last()[j].id@ == ms.drop_last()[j].id@ by {
            assert(ns.drop_last()[j] == ns[j]);
            assert(ms.drop_last()[j] == ms[j]);
        }
        lemma_model_pos_same_ids(ms.drop_last(), ns.drop_last(), id);
    }
}

/// After one use count changes, the ids are unique and found as before, and every
/// other record keeps its users.
proof fn lemma_refcount_change(a: &Service, b: &Service, i: int, n: nat)
    requires
        a.wf(),
        0 <= i < a.models().len(),
        refcount_set(a.models(), b.models(), i, n),
        forall|mid: Seq<char>| mid != a.models()[i].id@ ==> #[trigger] b.users(mid) == a.users(mid),
        n == b.users(a.models()[i].id@).len(),
        forall|k: u32| #[trigger] b.is_live(k) ==> model_pos(a.models(), b.model_of(k)) >= 0,
    ensures
        ids_unique(b.models()),
        forall|k: u32| #[trigger] b.is_live(k) ==> model_pos(b.models(), b.model_of(k)) >= 0,
        forall|j: int|
            0 <= j < b.models().len() ==> (#[trigger] b.models()[j]).refcount == b.users(b.models()[j].id@).len(),
{
    let ms = a.models();
    let ns = b.models();
    assert forall|j: int| 0 <= j < ms.len() implies #[trigger] ns[j].id@ == ms[j].id@ by {
        if j != i {
            assert(ns[j] == ms[j]);
        }
    }
    assert forall|k: u32| #[trigger] b.is_live(k) implies model_pos(ns, b.model_of(k)) >= 0 by {
        lemma_model_pos_same_ids(ms, ns, b.model_of(k));
    }
    assert forall|j: int| 0 <= j < ns.len() implies (#[trigger] ns[j]).refcount == b.users(ns[j].id@).len() by {
        if j != i {
            assert(ns[j] == ms[j]);
            assert(ms[j].id@ != ms[i].id@);
            assert(b.users(ms[j].id@) == a.users(ms[j].id@));
        }
    }
}

/// Why a live session could not be taken for an operation.
#[derive(Debug, Clone, Copy, PartialEq, Eq, Structural)]
pub enum Lookup {
    /// No such session, or it expired.
    NotFound,
    /// Another operation holds it.
    Busy,
}

/// Why an abort request was refused.
#[derive(Debug, Clone, Copy, PartialEq, Eq, Structural)]
pub enum AbortError {
    SessionNotFound,
    AbortAlreadyPending,
}

/// The id handed out after `id`: ids count up from 1 and wrap around, skipping 0.
pub open spec fn id_after(id: u32) -> u32 {
    if id == u32::MAX {
        1
    } else {
        (id + 1) as u32
    }
}

/// The model records after the use count of the one at `i` changes to `n`.
pub open spec fn refcount_set(old_ms: Seq<ModelRecord>, new_ms: Seq<ModelRecord>, i: int, n: nat) -> bool {
    &&& new_ms.len() == old_ms.len()
    &&& forall|j: int| 0 <= j < old_ms.len() && j != i ==> #[trigger] new_ms[j] == old_ms[j]
    &&& new_ms[i].id == old_ms[i].id
    &&& new_ms[i].hash == old_ms[i].hash
    &&& new_ms[i].info == old_ms[i].info
    &&& new_ms[i].refcount == n
}

impl Service {
    /// Whether creating one more session would pass the session limit, or the next id is
    /// still taken (after the ids wrapped around). At the limit a new session is refused;
    /// no idle session is evicted to make room.
    pub open spec fn limit_reached(&self) -> bool {
        (self.max_sessions() > 0 && self.live_count() >= self.max_sessions()) || self.is_live(self.next_id())
    }

    /// Whether a session on the model at `i` cannot be created: the limit is reached or
    /// the model's use count is at its largest value.
    pub open spec fn create_blocked(&self, i: int) -> bool {
        self.limit_reached() || self.models()[i].refcount == usize::MAX
    }

    pub fn create_blocked_exec(&self, i: usize) -> (r: bool)
        requires
            self.wf(),
            i < self.models().len(),
        ensures
            r == self.create_blocked(i as int),
    {
        self.limit_reached_exec() || self.models[i].refcount == usize::MAX
    }

    pub fn model_record_info(&self, i: usize) -> (r: SimularityModelInfo)
        requires
            i < self.models().len(),
        ensures
            r == self.models()[i as int].info,
    {
        self.models[i].info
    }

    pub fn is_busy(&self, id: u32) -> (r: bool)
        ensures
            r == self.busy().contains(id),
    {
        self.busy.contains_key(&id)
    }

    pub fn is_aborted(&self, id: u32) -> (r: bool)
        ensures
            r == self.aborts().contains(id),
    {
        self.aborts.contains(&id)
    }

    fn set_refcount(&mut self, i: usize, n: usize)
        requires
            i < old(self).models().len(),
        ensures
            refcount_set(old(self).models(), final(self).models(), i as int, n as nat),
            final(self).sessions() == old(self).sessions(),
            final(self).busy_models() == old(self).busy_models(),
            final(self).aborts() == old(self).aborts(),
            final(self).next_id() == old(self).next_id(),
            final(self).ttl() == old(self).ttl(),
            final(self).max_sessions() == old(self).max_sessions(),
    {
        let mut rec = self.models.remove(i);
        rec.refcount = n;
        self.models.insert(i, rec);
    }

    /// One session fewer uses the model `model_id`.
    fn release_model(&mut self, model_id: &String)
        ensures
            final(self).sessions() == old(self).sessions(),
            final(self).busy_models() == old(self).busy_models(),
            final(self).aborts() == old(self).aborts(),
            final(self).next_id() == old(self).next_id(),
            final(self).ttl() == old(self).ttl(),
            final(self).max_sessions() == old(self).max_sessions(),
            ({
                let p = model_pos(old(self).models(), model_id@);
                if p >= 0 && old(self).models()[p].refcount > 0 {
                    refcount_set(old(self).models(), final(self).models(), p, (old(self).models()[p].refcount - 1) as nat)
                } else {
                    final(self).models() == old(self).models()
                }
            }),
    {
        if let Some(i) = self.find_model(model_id.as_str()) {
            let n = self.models[i].refcount;
            if n > 0 {
                self.set_refcount(i, n - 1);
            }
        }
    }

    pub fn limit_reached_exec(&self) -> (r: bool)
        requires
            self.wf(),
        ensures
            r == self.limit_reached(),
    {
        proof {
            vstd::std_specs::hash::axiom_spec_hash_map_len(&self.sessions);
        }
        let n_idle = self.sessions.len();
        let n_busy = self.busy.len();
        let full = self.max_sessions > 0 && (n_idle >= self.max_sessions || n_busy >= self.max_sessions - n_idle);
        full || self.sessions.contains_key(&self.next_id) || self.busy.contains_key(&self.next_id)
    }

    /// Adds `session`, on the model `model_id`, as a new idle session last used at `now`;
    /// returns its id. Fails where the model is not loaded or the limit is reached.
    pub fn insert_session(&mut self, model_id: &str, session: Session, now: u64) -> (r: Result<u32, CreateError>)
        requires
            old(self).wf(),
            session@.wf(),
        ensures
            final(self).wf(),
            final(self).ttl() == old(self).ttl(),
            final(self).max_sessions() == old(self).max_sessions(),
            final(self).busy_models() == old(self).busy_models(),
            final(self).aborts() == old(self).aborts(),
            model_pos(old(self).models(), model_id@) < 0 ==> r == Err::<u32, CreateError>(CreateError::ModelNotFound)
                && *final(self) == *old(self),
            model_pos(old(self).models(), model_id@) >= 0 && old(self).create_blocked(model_pos(old(self).models(), model_id@))
                ==> r == Err::<u32, CreateError>(
                CreateError::SessionLimitReached,
            ) && *final(self) == *old(self),
            model_pos(old(self).models(), model_id@) >= 0 && !old(self).create_blocked(model_pos(old(self).models(), model_id@))
                ==> {
                let i = model_pos(old(self).models(), model_id@);
                let id = old(self).next_id();
                &&& r == Ok::<u32, CreateError>(id)
                &&& final(self).next_id() == id_after(id)
                &&& final(self).sessions().contains_key(id)
                &&& final(self).sessions()[id].session == session
                &&& final(self).sessions()[id].model_id@ == model_id@
                &&& final(self).sessions()[id].last_used == now
                &&& final(self).sessions().remove(id) == old(self).sessions()
                &&& refcount_set(old(self).models(), final(self).models(), i, (old(self).models()[i].refcount + 1) as nat)
            },
    {
        let i = match self.find_model(model_id) {
            None => return Err(CreateError::ModelNotFound),
            Some(i) => i,
        };
        if self.limit_reached_exec() {
            return Err(CreateError::SessionLimitReached);
        }
        let n = self.models[i].refcount;
        if n == usize::MAX {
            return Err(CreateError::SessionLimitReached);
        }
        let id = self.next_id;
        self.set_refcount(i, n + 1);
        self.next_id = if id == u32::MAX {
            1
        } else {
            id + 1
        };
        let entry = SessionEntry { session, model_id: model_id.to_owned(), last_used: now };
        self.sessions.insert(id, entry);
        proof {
            let ii = i as int;
            let m = old(self).models()[ii].id@;
            assert(self.sessions@.remove(id) =~= old(self).sessions@);
            assert forall|k: u32| #[trigger] self.aborts().contains(k) implies self.is_live(k) by {
                assert(old(self).aborts().contains(k));
            }
            assert forall|k: u32| #[trigger] self.sessions().contains_key(k) implies self.sessions()[k].session@.wf() by {
                if k != id {
                    assert(old(self).sessions().contains_key(k));
                }
            }
            assert forall|k: u32| #[trigger] self.busy().contains(k) implies !self.sessions().contains_key(k) by {
                assert(old(self).busy().contains(k));
            }
            lemma_model_pos(old(self).models(), model_id@);
            assert(self.model_of(id) == m);
            lemma_users_insert(old(self), self, id);
            lemma_users_finite(old(self), m);
            assert(!old(self).users(m).contains(id));
            assert forall|k: u32| #[trigger] self.is_live(k) implies model_pos(old(self).models(), self.model_of(k)) >= 0 by {
                if k == id {
                    lemma_model_pos_at(old(self).models(), m, ii);
                } else {
                    assert(old(self).is_live(k));
                }
            }
            lemma_refcount_change(old(self), self, ii, (n + 1) as nat);
        }
        Ok(id)
    }
}

impl Service {
    /// Takes the session `id` out for one operation, marking it busy. A session that has
    /// expired at `now` is dropped instead and counts as not found.
    pub fn checkout(&mut self, id: u32, now: u64) -> (r: Result<SessionEntry, Lookup>)
        requires
            old(self).wf(),
        ensures
            final(self).wf(),
            final(self).next_id() == old(self).next_id(),
            final(self).ttl() == old(self).ttl(),
            final(self).max_sessions() == old(self).max_sessions(),
            final(self).models().len() == old(self).models().len(),
            old(self).busy().contains(id) ==> r == Err::<SessionEntry, Lookup>(Lookup::Busy) && *final(self) == *old(self),
            !old(self).is_live(id) ==> r == Err::<SessionEntry, Lookup>(Lookup::NotFound) && *final(self) == *old(self),
            old(self).sessions().contains_key(id) && expired(old(self).sessions()[id].last_used, now, old(self).ttl()) ==> {
                &&& r == Err::<SessionEntry, Lookup>(Lookup::NotFound)
                &&& final(self).sessions() == old(self).sessions().remove(id)
                &&& final(self).busy_models() == old(self).busy_models()
                &&& final(self).aborts() == old(self).aborts().remove(id)
            },
            old(self).sessions().contains_key(id) && !expired(old(self).sessions()[id].last_used, now, old(self).ttl()) ==> {
                &&& r matches Ok(e) && e == old(self).sessions()[id]
                &&& final(self).sessions() == old(self).sessions().remove(id)
                &&& final(self).busy() == old(self).busy().insert(id)
                &&& final(self).busy_models().remove(id) == old(self).busy_models()
                &&& final(self).busy_models()[id]@ == old(self).sessions()[id].model_id@
                &&& final(self).aborts() == old(self).aborts()
                &&& final(self).models() == old(self).models()
            },
    {
        if self.busy.contains_key(&id) {
            return Err(Lookup::Busy);
        }
        if !self.sessions.contains_key(&id) {
            return Err(Lookup::NotFound);
        }
        let entry = match self.sessions.remove(&id) {
            None => return Err(Lookup::NotFound),
            Some(e) => e,
        };
        let stale = self.ttl_secs > 0 && entry.last_used < now && now - entry.last_used > self.ttl_secs;
        if stale {
            self.aborts.remove(&id);
            let ghost before = *self;
            self.release_model(&entry.model_id);
            proof {
                let m = entry.model_id@;
                assert(old(self).model_of(id) == m);
                assert forall|k: u32| #[trigger] self.sessions().contains_key(k) implies self.sessions()[k].session@.wf() by {
                    assert(old(self).sessions().contains_key(k));
                }
                assert forall|k: u32| #[trigger] self.busy().contains(k) implies !self.sessions().contains_key(k) by {
                    assert(old(self).busy().contains(k));
                }
                assert forall|k: u32| #[trigger] self.aborts().contains(k) implies self.is_live(k) by {
                    assert(old(self).aborts().contains(k));
                }
                lemma_users_remove(old(self), self, id);
                lemma_users_finite(old(self), m);
                assert(old(self).users(m).contains(id));
                lemma_model_pos(old(self).models(), m);
                let p = model_pos(old(self).models(), m);
                assert(old(self).models()[p].refcount == old(self).users(m).len());
                assert forall|k: u32| #[trigger] self.is_live(k) implies model_pos(old(self).models(), self.model_of(k)) >= 0 by {
                    assert(old(self).is_live(k));
                }
                lemma_refcount_change(old(self), self, p, (old(self).models()[p].refcount - 1) as nat);
            }
            return Err(Lookup::NotFound);
        }
        self.busy.insert(id, entry.model_id.clone());
        proof {
            assert(self.busy() =~= old(self).busy().insert(id));
            assert(self.busy_models().remove(id) =~= old(self).busy_models());
            assert forall|k: u32| #[trigger] self.sessions().contains_key(k) implies self.sessions()[k].session@.wf() by {
                assert(old(self).sessions().contains_key(k));
            }
            assert forall|k: u32| #[trigger] self.busy().contains(k) implies !self.sessions().contains_key(k) by {
                if k != id {
                    assert(old(self).busy().contains(k));
                }
            }
            assert forall|k: u32| #[trigger] self.aborts().contains(k) implies self.is_live(k) by {
                assert(old(self).aborts().contains(k));
            }
            assert forall|k: u32| #[trigger] old(self).is_live(k) implies old(self).model_of(k) == self.model_of(k) by {
                if k != id && old(self).busy().contains(k) {
                    assert(self.busy_models()[k] == old(self).busy_models()[k]);
                }
            }
            lemma_same_users(old(self), self);
            assert forall|k: u32| #[trigger] self.is_live(k) implies model_pos(self.models(), self.model_of(k)) >= 0 by {
                assert(old(self).is_live(k));
            }
            assert forall|j: int| 0 <= j < self.models().len() implies (#[trigger] self.models()[j]).refcount == self.users(
                self.models()[j].id@,
            ).len() by {
                assert(old(self).models()[j] == self.models()[j]);
            }
        }
        Ok(entry)
    }

    /// Hands back the session `id` after an operation, last used at `now`.
    pub fn checkin(&mut self, id: u32, entry: SessionEntry, now: u64)
        requires
            old(self).wf(),
            old(self).busy().contains(id),
            entry.session@.wf(),
            entry.model_id@ == old(self).busy_models()[id]@,
        ensures
            final(self).wf(),
            final(self).next_id() == old(self).next_id(),
            final(self).ttl() == old(self).ttl(),
            final(self).max_sessions() == old(self).max_sessions(),
            final(self).models() == old(self).models(),
            final(self).aborts() == old(self).aborts(),
            final(self).busy_models() == old(self).busy_models().remove(id),
            final(self).busy() == old(self).busy().remove(id),
            final(self).sessions() == old(self).sessions().insert(
                id,
                SessionEntry { last_used: now, ..entry },
            ),
    {
        let mut entry = entry;
        entry.last_used = now;
        self.sessions.insert(id, entry);
        self.busy.remove(&id);
        proof {
            assert(self.busy() =~= old(self).busy().remove(id));
            assert forall|k: u32| #[trigger] self.sessions().contains_key(k) implies self.sessions()[k].session@.wf() by {
                if k != id {
                    assert(old(self).sessions().contains_key(k));
                }
            }
            assert forall|k: u32| #[trigger] self.busy().contains(k) implies !self.sessions().contains_key(k) by {
                assert(old(self).busy().contains(k));
            }
            assert forall|k: u32| #[trigger] self.aborts().contains(k) implies self.is_live(k) by {
                assert(old(self).aborts().contains(k));
            }
            assert forall|k: u32| #[trigger] old(self).is_live(k) == self.is_live(k) by {}
            assert forall|k: u32| #[trigger] old(self).is_live(k) implies old(self).model_of(k) == self.model_of(k) by {
                if k != id && old(self).sessions().contains_key(k) {
                    assert(self.sessions()[k] == old(self).sessions()[k]);
                }
            }
            lemma_same_users(old(self), self);
            assert forall|k: u32| #[trigger] self.is_live(k) implies model_pos(self.models(), self.model_of(k)) >= 0 by {
                assert(old(self).is_live(k));
            }
        }
    }

    /// Drops a session taken out by `checkout`; its model has one session fewer.
    pub fn drop_checked_out(&mut self, id: u32)
        requires
            old(self).wf(),
            old(self).busy().contains(id),
        ensures
            final(self).wf(),
            final(self).next_id() == old(self).next_id(),
            final(self).ttl() == old(self).ttl(),
            final(self).max_sessions() == old(self).max_sessions(),
            final(self).models().len() == old(self).models().len(),
            final(self).aborts() == old(self).aborts().remove(id),
            final(self).busy_models() == old(self).busy_models().remove(id),
            final(self).sessions() == old(self).sessions(),
    {
        let removed = self.busy.remove(&id);
        self.aborts.remove(&id);
        if let Some(model_id) = removed {
            self.release_model(&model_id);
            proof {
                let m = model_id@;
                assert(old(self).model_of(id) == m);
                assert forall|k: u32| #[trigger] self.busy().contains(k) implies !self.sessions().contains_key(k) by {
                    assert(old(self).busy().contains(k));
                }
                assert forall|k: u32| #[trigger] self.aborts().contains(k) implies self.is_live(k) by {
                    assert(old(self).aborts().contains(k));
                }
                assert forall|k: u32| k != id implies #[trigger] old(self).is_live(k) == self.is_live(k) by {}
                assert forall|k: u32| k != id && #[trigger] old(self).is_live(k) implies old(self).model_of(k) == self.model_of(k) by {
                    if old(self).busy().contains(k) {
                        assert(self.busy_models()[k] == old(self).busy_models()[k]);
                    }
                }
                lemma_users_remove(old(self), self, id);
                lemma_users_finite(old(self), m);
                assert(old(self).users(m).contains(id));
                lemma_model_pos(old(self).models(), m);
                let p = model_pos(old(self).models(), m);
                assert forall|k: u32| #[trigger] self.is_live(k) implies model_pos(old(self).models(), self.model_of(k)) >= 0 by {
                    assert(old(self).is_live(k));
                }
                lemma_refcount_change(old(self), self, p, (old(self).models()[p].refcount - 1) as nat);
            }
        }
    }

    /// Sets the abort flag of the live session `id`; refused where it is already set.
    pub fn abort_inference(&mut self, id: u32) -> (r: Result<(), AbortError>)
        requires
            old(self).wf(),
        ensures
            final(self).wf(),
            final(self).sessions() == old(self).sessions(),
            final(self).busy_models() == old(self).busy_models(),
            final(self).models() == old(self).models(),
            final(self).next_id() == old(self).next_id(),
            !old(self).is_live(id) ==> r == Err::<(), AbortError>(AbortError::SessionNotFound)
                && final(self).aborts() == old(self).aborts(),
            old(self).is_live(id) && old(self).aborts().contains(id) ==> r == Err::<(), AbortError>(
                AbortError::AbortAlreadyPending,
            ) && final(self).aborts() == old(self).aborts(),
            old(self).is_live(id) && !old(self).aborts().contains(id) ==> r is Ok
                && final(self).aborts() == old(self).aborts().insert(id),
    {
        if !self.sessions.contains_key(&id) && !self.busy.contains_key(&id) {
            return Err(AbortError::SessionNotFound);
        }
        if self.aborts.contains(&id) {
            return Err(AbortError::AbortAlreadyPending);
        }
        self.aborts.insert(id);
        proof {
            assert forall|k: u32| #[trigger] self.aborts().contains(k) implies self.is_live(k) by {
                if k != id {
                    assert(old(self).aborts().contains(k));
                }
            }
            lemma_same_users(old(self), self);
            assert forall|k: u32| #[trigger] self.is_live(k) implies model_pos(self.models(), self.model_of(k)) >= 0 by {
                assert(old(self).is_live(k));
            }
            assert forall|j: int| 0 <= j < self.models().len() implies (#[trigger] self.models()[j]).refcount == self.users(
                self.models()[j].id@,
            ).len() by {
                assert(old(self).models()[j] == self.models()[j]);
            }
        }
        Ok(())
    }

    /// Reads and clears the abort flag of `id`.
    pub fn take_abort(&mut self, id: u32) -> (r: bool)
        requires
            old(self).wf(),
        ensures
            final(self).wf(),
            r == old(self).aborts().contains(id),
            final(self).aborts() == old(self).aborts().remove(id),
            final(self).sessions() == old(self).sessions(),
            final(self).busy_models() == old(self).busy_models(),
            final(self).models() == old(self).models(),
            final(self).next_id() == old(self).next_id(),
    {
        let r = self.aborts.remove(&id);
        proof {
            assert forall|k: u32| #[trigger] self.aborts().contains(k) implies self.is_live(k) by {
                assert(old(self).aborts().contains(k));
            }
            lemma_same_users(old(self), self);
            assert forall|k: u32| #[trigger] self.is_live(k) implies model_pos(self.models(), self.model_of(k)) >= 0 by {
                assert(old(self).is_live(k));
            }
            assert forall|j: int| 0 <= j < self.models().len() implies (#[trigger] self.models()[j]).refcount == self.users(
                self.models()[j].id@,
            ).len() by {
                assert(old(self).models()[j] == self.models()[j]);
            }
        }
        r
    }
}

} // verus!

//! The pool of fingerprint-chromium browser instances that run side by side.

use vstd::prelude::*;
use crate::search::{
    first_index, first_index_from, first_match, lemma_first_index, lemma_first_index_none,
    lemma_first_index_unique, lemma_first_match_filtered, lemma_first_match_push,
    lemma_first_match_update,
};
use crate::config::copy_opt_text;
use crate::stamp::{is_rfc3339_text, is_uuid_v4_text, new_uuid, now_rfc3339};
use crate::text::same_text;

verus! {

broadcast use vstd::seq_lib::group_filter_ensures;

/// Where a browser instance is in its life.
#[derive(Debug, PartialEq)]
pub enum BrowserInstanceStatus {
    /// Created, not started.
    Created,
    Starting,
    Running,
    Stopping,
    Stopped,
    Error(String),
}

impl Clone for BrowserInstanceStatus {
    fn clone(&self) -> (r: Self)
        ensures
            r == *self,
    {
        match self {
            BrowserInstanceStatus::Created => BrowserInstanceStatus::Created,
            BrowserInstanceStatus::Starting => BrowserInstanceStatus::Starting,
            BrowserInstanceStatus::Running => BrowserInstanceStatus::Running,
            BrowserInstanceStatus::Stopping => BrowserInstanceStatus::Stopping,
            BrowserInstanceStatus::Stopped => BrowserInstanceStatus::Stopped,
            BrowserInstanceStatus::Error(m) => BrowserInstanceStatus::Error(m.clone()),
        }
    }
}

impl BrowserInstanceStatus {
    pub fn is_running(&self) -> (r: bool)
        ensures
            r == (*self is Running),
    {
        match self {
            BrowserInstanceStatus::Running => true,
            _ => false,
        }
    }

    pub fn is_stopped(&self) -> (r: bool)
        ensures
            r == (*self is Stopped),
    {
        match self {
            BrowserInstanceStatus::Stopped => true,
            _ => false,
        }
    }
}

/// One browser instance.
#[derive(Debug)]
pub struct BrowserInstance {
    /// Unique among the pool's instances.
    pub instance_id: String,
    pub env_uuid: String,
    pub profile_id: String,
    pub pid: Option<u32>,
    pub user_data_dir: String,
    pub status: BrowserInstanceStatus,
    pub created_at: String,
    pub started_at: Option<String>,
    pub stopped_at: Option<String>,
}

impl Clone for BrowserInstance {
    fn clone(&self) -> (r: Self)
        ensures
            r == *self,
    {
        BrowserInstance {
            instance_id: self.instance_id.clone(),
            env_uuid: self.env_uuid.clone(),
            profile_id: self.profile_id.clone(),
            pid: self.pid,
            user_data_dir: self.user_data_dir.clone(),
            status: self.status.clone(),
            created_at: self.created_at.clone(),
            started_at: copy_opt_text(&self.started_at),
            stopped_at: copy_opt_text(&self.stopped_at),
        }
    }
}

/// What `{:?}` writes for the text `s`: the `Debug` form of `str`, which
/// quotes the text and escapes what needs it. It depends on `s` alone.
pub uninterp spec fn debug_quoted(s: Seq<char>) -> Seq<char>;

/// `format!("{:?}", s)`: std's `Debug` form of the text `s`.
#[verifier::external_body]
fn debug_text(s: &str) -> (t: String)
    ensures
        t@ == debug_quoted(s@),
{
    format!("{:?}", s)
}

/// The text that the derived `Debug` writes for a status: the variant's
/// name, and for `Error` its message in the `Debug` form of a string.
pub open spec fn status_text(s: BrowserInstanceStatus) -> Seq<char> {
    match s {
        BrowserInstanceStatus::Created => "Created"@,
        BrowserInstanceStatus::Starting => "Starting"@,
        BrowserInstanceStatus::Running => "Running"@,
        BrowserInstanceStatus::Stopping => "Stopping"@,
        BrowserInstanceStatus::Stopped => "Stopped"@,
        BrowserInstanceStatus::Error(m) => "Error("@ + debug_quoted(m@) + ")"@,
    }
}

impl BrowserInstanceStatus {
    /// The status as its `Debug` form writes it, as requests report it.
    pub fn status_string(&self) -> (t: String)
        ensures
            t@ == status_text(*self),
    {
        match self {
            BrowserInstanceStatus::Created => String::from_str("Created"),
            BrowserInstanceStatus::Starting => String::from_str("Starting"),
            BrowserInstanceStatus::Running => String::from_str("Running"),
            BrowserInstanceStatus::Stopping => String::from_str("Stopping"),
            BrowserInstanceStatus::Stopped => String::from_str("Stopped"),
            BrowserInstanceStatus::Error(m) => {
                let mut t = String::from_str("Error(");
                let q = debug_text(m.as_str());
                t.append(q.as_str());
                t.append(")");
                t
            },
        }
    }
}

/// What a request reports of an instance: its fields, with the status
/// written as text.
pub struct InstanceSummary {
    pub instance_id: String,
    pub env_uuid: String,
    pub profile_id: String,
    pub pid: Option<u32>,
    pub status: String,
    pub created_at: String,
    pub started_at: Option<String>,
    pub stopped_at: Option<String>,
}

impl BrowserInstance {
    /// The report of this instance.
    pub fn summary(&self) -> (r: InstanceSummary)
        ensures
            r.instance_id == self.instance_id,
            r.env_uuid == self.env_uuid,
            r.profile_id == self.profile_id,
            r.pid == self.pid,
            r.status@ == status_text(self.status),
            r.created_at == self.created_at,
            r.started_at == self.started_at,
            r.stopped_at == self.stopped_at,
    {
        InstanceSummary {
            instance_id: self.instance_id.clone(),
            env_uuid: self.env_uuid.clone(),
            profile_id: self.profile_id.clone(),
            pid: self.pid,
            status: self.status.status_string(),
            created_at: self.created_at.clone(),
            started_at: copy_opt_text(&self.started_at),
            stopped_at: copy_opt_text(&self.stopped_at),
        }
    }
}

/// Whether an instance has the identifier `id`.
pub open spec fn has_instance_id(id: Seq<char>) -> spec_fn(BrowserInstance) -> bool {
    |b: BrowserInstance| b.instance_id@ == id
}

/// Whether an instance has an identifier other than `id`.
pub open spec fn other_instance_id(id: Seq<char>) -> spec_fn(BrowserInstance) -> bool {
    |b: BrowserInstance| b.instance_id@ != id
}

/// Whether an instance belongs to the environment `env`.
pub open spec fn in_env(env: Seq<char>) -> spec_fn(BrowserInstance) -> bool {
    |b: BrowserInstance| b.env_uuid@ == env
}

/// Whether an instance is running.
pub open spec fn is_running_instance() -> spec_fn(BrowserInstance) -> bool {
    |b: BrowserInstance| b.status is Running
}

/// No two instances share an identifier.
pub open spec fn ids_unique(s: Seq<BrowserInstance>) -> bool {
    forall|i: int, j: int|
        0 <= i < s.len() && 0 <= j < s.len() && (#[trigger] s[i]).instance_id@ == (#[trigger] s[j]).instance_id@
            ==> i == j
}

/// The instances with `b` stored under its identifier: it replaces the
/// instance of that identifier, or comes last when there is none.
pub open spec fn put_instance(s: Seq<BrowserInstance>, b: BrowserInstance) -> Seq<BrowserInstance> {
    match first_index(s, has_instance_id(b.instance_id@)) {
        Some(i) => s.update(i, b),
        None => s.push(b),
    }
}

/// A freshly created instance.
pub open spec fn created_instance(
    instance_id: String,
    env_uuid: String,
    profile_id: String,
    user_data_dir: String,
    now: String,
) -> BrowserInstance {
    BrowserInstance {
        instance_id,
        env_uuid,
        profile_id,
        pid: None,
        user_data_dir,
        status: BrowserInstanceStatus::Created,
        created_at: now,
        started_at: None,
        stopped_at: None,
    }
}

/// `b` in the status `status` at the time `now`: entering `Running` records
/// the start time, entering `Stopped` the stop time.
pub open spec fn with_status(b: BrowserInstance, status: BrowserInstanceStatus, now: String) -> BrowserInstance {
    BrowserInstance {
        instance_id: b.instance_id,
        env_uuid: b.env_uuid,
        profile_id: b.profile_id,
        pid: b.pid,
        user_data_dir: b.user_data_dir,
        status: status,
        created_at: b.created_at,
        started_at: if status is Running { Some(now) } else { b.started_at },
        stopped_at: if status is Stopped { Some(now) } else { b.stopped_at },
    }
}

/// `b` with the process identifier `pid`.
pub open spec fn with_pid(b: BrowserInstance, pid: u32) -> BrowserInstance {
    BrowserInstance {
        instance_id: b.instance_id,
        env_uuid: b.env_uuid,
        profile_id: b.profile_id,
        pid: Some(pid),
        user_data_dir: b.user_data_dir,
        status: b.status,
        created_at: b.created_at,
        started_at: b.started_at,
        stopped_at: b.stopped_at,
    }
}

/// The message for an instance that is not in the pool.
pub open spec fn instance_not_found(id: Seq<char>) -> Seq<char> {
    "Instance "@ + id + " not found"@
}

fn not_found_message(id: &str) -> (m: String)
    ensures
        m@ == instance_not_found(id@),
{
    let mut m = String::from_str("Instance ");
    m.append(id);
    m.append(" not found");
    m
}

fn find_instance_index(instances: &Vec<BrowserInstance>, id: &str) -> (r: Option<usize>)
    ensures
        r matches Some(i) ==> i < instances@.len(),
        match r {
            Some(i) => first_index(instances@, has_instance_id(id@)) == Some(i as int),
            None => first_index(instances@, has_instance_id(id@)) == None::<int>,
        },
{
    let n = instances.len();
    let mut i: usize = 0;
    while i < n
        invariant
            n == instances@.len(),
            i <= n,
            first_index(instances@, has_instance_id(id@)) == first_index_from(instances@, has_instance_id(id@), i as int),
        decreases n - i,
    {
        if same_text(instances[i].instance_id.as_str(), id) {
            return Some(i);
        }
        i = i + 1;
    }
    None
}

/// Storing an instance keeps the identifiers unique.
pub proof fn lemma_put_keeps_unique(s: Seq<BrowserInstance>, b: BrowserInstance)
    requires
        ids_unique(s),
    ensures
        ids_unique(put_instance(s, b)),
{
    lemma_first_index(s, has_instance_id(b.instance_id@));
    let r = put_instance(s, b);
    match first_index(s, has_instance_id(b.instance_id@)) {
        Some(k) => {
            assert forall|i: int, j: int|
                0 <= i < r.len() && 0 <= j < r.len() && (#[trigger] r[i]).instance_id@ == (#[trigger] r[j]).instance_id@
                implies i == j by {
                if i != k && j != k {
                    assert(r[i] == s[i] && r[j] == s[j]);
                } else if i == k && j != k {
                    assert(s[j].instance_id@ == s[k].instance_id@);
                } else if j == k && i != k {
                    assert(s[i].instance_id@ == s[k].instance_id@);
                }
            }
        },
        None => {
            assert forall|i: int, j: int|
                0 <= i < r.len() && 0 <= j < r.len() && (#[trigger] r[i]).instance_id@ == (#[trigger] r[j]).instance_id@
                implies i == j by {
                if i < s.len() && j < s.len() {
                    assert(r[i] == s[i] && r[j] == s[j]);
                } else if i < s.len() {
                    assert(r[i] == s[i]);
                    assert(!has_instance_id(b.instance_id@)(s[i]));
                } else if j < s.len() {
                    assert(r[j] == s[j]);
                    assert(!has_instance_id(b.instance_id@)(s[j]));
                }
            }
        },
    }
}

/// The pool of browser instances, keyed by instance identifier.
pub struct BrowserInstancePool {
    instances: Vec<BrowserInstance>,
}

impl View for BrowserInstancePool {
    type V = Seq<BrowserInstance>;

    closed spec fn view(&self) -> Seq<BrowserInstance> {
        self.instances@
    }
}

impl Default for BrowserInstancePool {
    fn default() -> (p: Self)
        ensures
            p@ == Seq::<BrowserInstance>::empty(),
    {
        BrowserInstancePool::new()
    }
}

/// Replacing an instance by one of the same identifier keeps the
/// identifiers unique.
pub proof fn lemma_update_keeps_unique(s: Seq<BrowserInstance>, i: int, b: BrowserInstance)
    requires
        ids_unique(s),
        0 <= i < s.len(),
        b.instance_id@ == s[i].instance_id@,
    ensures
        ids_unique(s.update(i, b)),
{
    let t = s.update(i, b);
    assert forall|x: int, y: int|
        0 <= x < t.len() && 0 <= y < t.len() && (#[trigger] t[x]).instance_id@ == (#[trigger] t[y]).instance_id@
        implies x == y by {
        assert(t[x].instance_id@ == s[x].instance_id@);
        assert(t[y].instance_id@ == s[y].instance_id@);
    }
}

impl BrowserInstancePool {
    /// Instance identifiers are unique.
    #[verifier::type_invariant]
    spec fn ids_are_unique(self) -> bool {
        ids_unique(self.instances@)
    }

    pub fn new() -> (p: Self)
        ensures
            p@ == Seq::<BrowserInstance>::empty(),
    {
        BrowserInstancePool { instances: Vec::new() }
    }

    /// Stores a new instance, created at the time `now`, under
    /// `instance_id`; it replaces an instance of that identifier.
    pub fn create_instance_at(
        &mut self,
        instance_id: String,
        env_uuid: String,
        profile_id: String,
        user_data_dir: String,
        now: String,
    ) -> (r: Result<String, String>)
        ensures
            ids_unique(final(self)@),
            final(self)@ == put_instance(
                old(self)@,
                created_instance(instance_id, env_uuid, profile_id, user_data_dir, now),
            ),
            r == Ok::<String, String>(instance_id),
    {
        proof {
            use_type_invariant(&*self);
        }
        let id = instance_id.clone();
        let b = BrowserInstance {
            instance_id,
            env_uuid,
            profile_id,
            pid: None,
            user_data_dir,
            status: BrowserInstanceStatus::Created,
            created_at: now,
            started_at: None,
            stopped_at: None,
        };
        proof {
            lemma_put_keeps_unique(self@, b);
        }
        let mut v: Vec<BrowserInstance> = Vec::new();
        std::mem::swap(&mut v, &mut self.instances);
        match find_instance_index(&v, id.as_str()) {
            Some(i) => {
                v.set(i, b);
            },
            None => {
                v.push(b);
            },
        }
        self.instances = v;
        Ok(id)
    }

    /// Stores a new instance, created now, under `instance_id`; it replaces
    /// an instance of that identifier.
    pub fn create_instance(
        &mut self,
        instance_id: String,
        env_uuid: String,
        profile_id: String,
        user_data_dir: String,
    ) -> (r: Result<String, String>)
        ensures
            ids_unique(final(self)@),
            exists|now: String|
                is_rfc3339_text(now@) && final(self)@ == put_instance(
                    old(self)@,
                    #[trigger] created_instance(instance_id, env_uuid, profile_id, user_data_dir, now),
                ),
            r == Ok::<String, String>(instance_id),
    {
        let now = now_rfc3339();
        self.create_instance_at(instance_id, env_uuid, profile_id, user_data_dir, now)
    }

    /// Puts the instance `instance_id` into `status` at the time `now`; an
    /// error, with the pool unchanged, when there is no such instance.
    pub fn update_instance_status_at(
        &mut self,
        instance_id: &str,
        status: BrowserInstanceStatus,
        now: String,
    ) -> (r: Result<(), String>)
        ensures
            ids_unique(final(self)@),
            match first_index(old(self)@, has_instance_id(instance_id@)) {
                Some(i) => r is Ok && final(self)@ == old(self)@.update(i, with_status(old(self)@[i], status, now)),
                None => r matches Err(e) && e@ == instance_not_found(instance_id@) && final(self)@ == old(self)@,
            },
    {
        proof {
            use_type_invariant(&*self);
        }
        match find_instance_index(&self.instances, instance_id) {
            Some(i) => {
                let ghost o = self@;
                let running = status.is_running();
                let stopped = status.is_stopped();
                let mut v: Vec<BrowserInstance> = Vec::new();
                std::mem::swap(&mut v, &mut self.instances);
                let mut b = v.remove(i);
                b.status = status;
                if running {
                    b.started_at = Some(now);
                } else if stopped {
                    b.stopped_at = Some(now);
                }
                v.insert(i, b);
                assert(v@ =~= o.update(i as int, with_status(o[i as int], status, now)));
                proof {
                    lemma_update_keeps_unique(o, i as int, with_status(o[i as int], status, now));
                }
                self.instances = v;
                Ok(())
            },
            None => Err(not_found_message(instance_id)),
        }
    }

    /// Puts the instance `instance_id` into `status` now; an error, with the
    /// pool unchanged, when there is no such instance.
    pub fn update_instance_status(&mut self, instance_id: &str, status: BrowserInstanceStatus) -> (r: Result<(), String>)
        ensures
            ids_unique(final(self)@),
            match first_index(old(self)@, has_instance_id(instance_id@)) {
                Some(i) => r is Ok && exists|now: String|
                    is_rfc3339_text(now@) && final(self)@ == old(self)@.update(
                        i,
                        #[trigger] with_status(old(self)@[i], status, now),
                    ),
                None => r matches Err(e) && e@ == instance_not_found(instance_id@) && final(self)@ == old(self)@,
            },
    {
        let now = now_rfc3339();
        self.update_instance_status_at(instance_id, status, now)
    }

    /// Records the process identifier of the instance `instance_id`; an
    /// error, with the pool unchanged, when there is no such instance.
    pub fn set_instance_pid(&mut self, instance_id: &str, pid: u32) -> (r: Result<(), String>)
        ensures
            ids_unique(final(self)@),
            match first_index(old(self)@, has_instance_id(instance_id@)) {
                Some(i) => r is Ok && final(self)@ == old(self)@.update(i, with_pid(old(self)@[i], pid)),
                None => r matches Err(e) && e@ == instance_not_found(instance_id@) && final(self)@ == old(self)@,
            },
    {
        proof {
            use_type_invariant(&*self);
        }
        match find_instance_index(&self.instances, instance_id) {
            Some(i) => {
                let ghost o = self@;
                let mut v: Vec<BrowserInstance> = Vec::new();
                std::mem::swap(&mut v, &mut self.instances);
                let mut b = v.remove(i);
                b.pid = Some(pid);
                v.insert(i, b);
                assert(v@ =~= o.update(i as int, with_pid(o[i as int], pid)));
                proof {
                    lemma_update_keeps_unique(o, i as int, with_pid(o[i as int], pid));
                }
                self.instances = v;
                Ok(())
            },
            None => Err(not_found_message(instance_id)),
        }
    }

    /// A copy of the instance `instance_id`, if there is one.
    pub fn get_instance(&self, instance_id: &str) -> (r: Result<Option<BrowserInstance>, String>)
        ensures
            r == Ok::<Option<BrowserInstance>, String>(first_match(self@, has_instance_id(instance_id@))),
    {
        match find_instance_index(&self.instances, instance_id) {
            Some(i) => Ok(Some(self.instances[i].clone())),
            None => Ok(None),
        }
    }

    /// Copies of the instances of the environment `env_uuid`, in pool order.
    pub fn get_env_instances(&self, env_uuid: &str) -> (r: Result<Vec<BrowserInstance>, String>)
        ensures
            r matches Ok(v) && v@ == self@.filter(in_env(env_uuid@)),
    {
        let n = self.instances.len();
        let ghost s = self@;
        let mut out: Vec<BrowserInstance> = Vec::new();
        let mut i: usize = 0;
        while i < n
            invariant
                n == s.len(),
                s == self@,
                i <= n,
                out@ == s.take(i as int).filter(in_env(env_uuid@)),
            decreases n - i,
        {
            proof {
                assert(s.take(i + 1) =~= s.take(i as int).push(s[i as int]));
                s.take(i as int).lemma_filter_push(s[i as int], in_env(env_uuid@));
            }
            if same_text(self.instances[i].env_uuid.as_str(), env_uuid) {
                out.push(self.instances[i].clone());
            }
            i = i + 1;
        }
        assert(s.take(n as int) =~= s);
        Ok(out)
    }

    /// Copies of the running instances, in pool order.
    pub fn get_running_instances(&self) -> (r: Result<Vec<BrowserInstance>, String>)
        ensures
            r matches Ok(v) && v@ == self@.filter(is_running_instance()),
    {
        let n = self.instances.len();
        let ghost s = self@;
        let mut out: Vec<BrowserInstance> = Vec::new();
        let mut i: usize = 0;
        while i < n
            invariant
                n == s.len(),
                s == self@,
                i <= n,
                out@ == s.take(i as int).filter(is_running_instance()),
            decreases n - i,
        {
            proof {
                assert(s.take(i + 1) =~= s.take(i as int).push(s[i as int]));
                s.take(i as int).lemma_filter_push(s[i as int], is_running_instance());
            }
            if self.instances[i].status.is_running() {
                out.push(self.instances[i].clone());
            }
            i = i + 1;
        }
        assert(s.take(n as int) =~= s);
        Ok(out)
    }

    /// Drops the instance `instance_id`, if there is one.
    pub fn remove_instance(&mut self, instance_id: &str) -> (r: Result<(), String>)
        ensures
            ids_unique(final(self)@),
            final(self)@ == old(self)@.filter(other_instance_id(instance_id@)),
            r is Ok,
    {
        proof {
            use_type_invariant(&*self);
        }
        let mut rest = Vec::new();
        std::mem::swap(&mut rest, &mut self.instances);
        let ghost orig = rest@;
        let mut kept: Vec<BrowserInstance> = Vec::new();
        let ghost mut i: int = 0;
        while rest.len() > 0
            invariant
                0 <= i <= orig.len(),
                rest@ == orig.skip(i),
                kept@ == orig.take(i).filter(other_instance_id(instance_id@)),
            decreases rest@.len(),
        {
            let b = rest.remove(0);
            proof {
                assert(orig.take(i + 1) =~= orig.take(i).push(b));
                orig.take(i).lemma_filter_push(b, other_instance_id(instance_id@));
            }
            if !same_text(b.instance_id.as_str(), instance_id) {
                kept.push(b);
            }
            proof {
                assert(rest@ =~= orig.skip(i + 1));
                i = i + 1;
            }
        }
        assert(orig.take(i) =~= orig);
        proof {
            lemma_filter_keeps_unique(orig, other_instance_id(instance_id@));
        }
        self.instances = kept;
        Ok(())
    }

    /// The number of running instances.
    pub fn count_running(&self) -> (r: Result<usize, String>)
        ensures
            r matches Ok(n) && n == self@.filter(is_running_instance()).len(),
    {
        let n = self.instances.len();
        let ghost s = self@;
        let mut count: usize = 0;
        let mut i: usize = 0;
        while i < n
            invariant
                n == s.len(),
                s == self@,
                i <= n,
                count == s.take(i as int).filter(is_running_instance()).len(),
            decreases n - i,
        {
            proof {
                assert(s.take(i + 1) =~= s.take(i as int).push(s[i as int]));
                s.take(i as int).lemma_filter_push(s[i as int], is_running_instance());
                s.take(i as int).lemma_filter_len(is_running_instance());
            }
            if self.instances[i].status.is_running() {
                count = count + 1;
            }
            i = i + 1;
        }
        assert(s.take(n as int) =~= s);
        Ok(count)
    }
}

/// Keeping only some instances keeps the identifiers unique.
pub proof fn lemma_filter_keeps_unique(s: Seq<BrowserInstance>, pred: spec_fn(BrowserInstance) -> bool)
    requires
        ids_unique(s),
    ensures
        ids_unique(s.filter(pred)),
    decreases s.len(),
{
    reveal(Seq::filter);
    if s.len() > 0 {
        lemma_filter_keeps_unique(s.drop_last(), pred);
        let f = s.drop_last().filter(pred);
        assert(ids_unique(s.drop_last())) by {
            assert forall|i: int, j: int|
                0 <= i < s.drop_last().len() && 0 <= j < s.drop_last().len()
                    && (#[trigger] s.drop_last()[i]).instance_id@ == (#[trigger] s.drop_last()[j]).instance_id@
                implies i == j by {
                assert(s[i] == s.drop_last()[i] && s[j] == s.drop_last()[j]);
            }
        }
        if pred(s.last()) {
            let r = f.push(s.last());
            assert forall|i: int, j: int|
                0 <= i < r.len() && 0 <= j < r.len() && (#[trigger] r[i]).instance_id@ == (#[trigger] r[j]).instance_id@
                implies i == j by {
                if i < f.len() && j == f.len() {
                    assert(f[i] == r[i]);
                    assert(f.contains(r[i]));
                    s.drop_last().lemma_filter_contains_rev(pred, r[i]);
                    let k = choose|k: int| 0 <= k < s.drop_last().len() && s.drop_last()[k] == r[i];
                    assert(s[k].instance_id@ == s[s.len() - 1].instance_id@);
                } else if j < f.len() && i == f.len() {
                    assert(f[j] == r[j]);
                    assert(f.contains(r[j]));
                    s.drop_last().lemma_filter_contains_rev(pred, r[j]);
                    let k = choose|k: int| 0 <= k < s.drop_last().len() && s.drop_last()[k] == r[j];
                    assert(s[k].instance_id@ == s[s.len() - 1].instance_id@);
                } else if i < f.len() && j < f.len() {
                    assert(r[i] == f[i] && r[j] == f[j]);
                }
            }
        }
    }
}

/// The user data directory given, or a fresh one named by `dir_uuid`.
pub open spec fn user_data_dir_or(user_data_dir: Option<String>, dir_uuid: Seq<char>) -> Seq<char> {
    match user_data_dir {
        Some(d) => d@,
        None => "/tmp/simprint/browser/"@ + dir_uuid,
    }
}

/// Whether `b` is the instance that starting creates: identifier
/// `instance_id`, environment `env_uuid`, profile `profile_id`, user data
/// directory `dir`, in status `Created` with no process, created at `now`.
pub open spec fn is_started_instance(
    b: BrowserInstance,
    instance_id: Seq<char>,
    env_uuid: String,
    profile_id: String,
    dir: Seq<char>,
    now: String,
) -> bool {
    &&& b.instance_id@ == instance_id
    &&& b.env_uuid == env_uuid
    &&& b.profile_id == profile_id
    &&& b.pid is None
    &&& b.user_data_dir@ == dir
    &&& b.status is Created
    &&& b.created_at == now
    &&& b.started_at is None
    &&& b.stopped_at is None
}

/// Creates a browser instance of `env_uuid` and `profile_id` under the
/// identifier "inst-" followed by `instance_uuid`, at the time `now`; its
/// user data directory is the one given or one named by `dir_uuid`.
pub fn start_browser_instance_with(
    pool: &mut BrowserInstancePool,
    env_uuid: String,
    profile_id: String,
    user_data_dir: Option<String>,
    instance_uuid: String,
    dir_uuid: String,
    now: String,
) -> (r: Result<String, String>)
    ensures
        ids_unique(final(pool)@),
        r matches Ok(id) && id@ == "inst-"@ + instance_uuid@,
        exists|b: BrowserInstance|
            final(pool)@ == put_instance(old(pool)@, b) && #[trigger] is_started_instance(
                b,
                "inst-"@ + instance_uuid@,
                env_uuid,
                profile_id,
                user_data_dir_or(user_data_dir, dir_uuid@),
                now,
            ),
{
    let mut instance_id = String::from_str("inst-");
    instance_id.append(instance_uuid.as_str());
    let dir = match user_data_dir {
        Some(d) => d,
        None => {
            let mut d = String::from_str("/tmp/simprint/browser/");
            d.append(dir_uuid.as_str());
            d
        },
    };
    let ghost b = created_instance(instance_id, env_uuid, profile_id, dir, now);
    let r = pool.create_instance_at(instance_id, env_uuid, profile_id, dir, now);
    assert(is_started_instance(b, "inst-"@ + instance_uuid@, env_uuid, profile_id, user_data_dir_or(user_data_dir, dir_uuid@), now));
    r
}

/// Creates a browser instance of `env_uuid` and `profile_id` under a fresh
/// identifier starting with "inst-", now; its user data directory is the one
/// given or a fresh one under "/tmp/simprint/browser/".
pub fn start_browser_instance(
    pool: &mut BrowserInstancePool,
    env_uuid: String,
    profile_id: String,
    user_data_dir: Option<String>,
) -> (r: Result<String, String>)
    ensures
        ids_unique(final(pool)@),
        r is Ok,
        exists|instance_uuid: Seq<char>, dir_uuid: Seq<char>, b: BrowserInstance, now: String|
            is_uuid_v4_text(instance_uuid) && (user_data_dir is None ==> is_uuid_v4_text(dir_uuid))
            && is_rfc3339_text(now@)
            && r->Ok_0@ == b.instance_id@
            && final(pool)@ == put_instance(old(pool)@, b) && #[trigger] is_started_instance(
                b,
                "inst-"@ + instance_uuid,
                env_uuid,
                profile_id,
                user_data_dir_or(user_data_dir, dir_uuid),
                now,
            ),
{
    let instance_uuid = new_uuid();
    let dir_uuid = match user_data_dir {
        Some(_) => String::new(),
        None => new_uuid(),
    };
    let now = now_rfc3339();
    let ghost iu = instance_uuid@;
    let ghost du = dir_uuid@;
    let ghost old_pool = pool@;
    let ghost udd = user_data_dir;
    let r = start_browser_instance_with(pool, env_uuid, profile_id, user_data_dir, instance_uuid, dir_uuid, now);
    let ghost b = choose|b: BrowserInstance|
        pool@ == put_instance(old_pool, b) && #[trigger] is_started_instance(
            b, "inst-"@ + iu, env_uuid, profile_id, user_data_dir_or(udd, du), now);
    assert(pool@ == put_instance(old_pool, b) && is_started_instance(
            b, "inst-"@ + iu, env_uuid, profile_id, user_data_dir_or(udd, du), now));
    r
}

/// Replacing an instance by one of the same identifier keeps where the
/// first instance of each identifier is.
pub proof fn lemma_update_same_id(s: Seq<BrowserInstance>, i: int, b: BrowserInstance, id: Seq<char>)
    requires
        0 <= i < s.len(),
        b.instance_id@ == s[i].instance_id@,
    ensures
        first_index(s.update(i, b), has_instance_id(id)) == first_index(s, has_instance_id(id)),
{
    let t = s.update(i, b);
    let pred = has_instance_id(id);
    lemma_first_index(s, pred);
    match first_index(s, pred) {
        Some(k) => {
            assert(pred(t[k]));
            assert forall|j: int| 0 <= j < k implies !pred(#[trigger] t[j]) by {
                assert(!pred(s[j]));
            }
            lemma_first_index_unique(t, pred, k);
        },
        None => {
            assert forall|j: int| 0 <= j < t.len() implies !pred(#[trigger] t[j]) by {
                assert(!pred(s[j]));
            }
            lemma_first_index_none(t, pred);
        },
    }
}

/// Starts to stop the instance `instance_id` at the time `now`: it enters
/// `Stopping`, and the instance comes back as it now stands, so that the
/// caller ends its process before marking it `Stopped`. An error, with the
/// pool unchanged, when there is no such instance.
pub fn begin_stop_browser_instance_at(
    pool: &mut BrowserInstancePool,
    instance_id: &str,
    now: String,
) -> (r: Result<BrowserInstance, String>)
    ensures
        ids_unique(final(pool)@),
        match first_index(old(pool)@, has_instance_id(instance_id@)) {
            Some(i) => r == Ok::<BrowserInstance, String>(
                with_status(old(pool)@[i], BrowserInstanceStatus::Stopping, now),
            ) && final(pool)@ == old(pool)@.update(
                i,
                with_status(old(pool)@[i], BrowserInstanceStatus::Stopping, now),
            ),
            None => r matches Err(e) && e@ == instance_not_found(instance_id@) && final(pool)@ == old(pool)@,
        },
{
    let ghost s0 = pool@;
    match pool.update_instance_status_at(instance_id, BrowserInstanceStatus::Stopping, now) {
        Ok(()) => {},
        Err(e) => return Err(e),
    }
    proof {
        let i = first_index(s0, has_instance_id(instance_id@))->Some_0;
        lemma_first_index(s0, has_instance_id(instance_id@));
        law_get_after_status_update(s0, i, BrowserInstanceStatus::Stopping, now);
    }
    match pool.get_instance(instance_id) {
        Ok(Some(b)) => Ok(b),
        _ => Err(not_found_message(instance_id)),
    }
}

/// Starts to stop the instance `instance_id` now; see
/// `begin_stop_browser_instance_at`.
pub fn begin_stop_browser_instance(pool: &mut BrowserInstancePool, instance_id: &str) -> (r: Result<
    BrowserInstance,
    String,
>)
    ensures
        ids_unique(final(pool)@),
        match first_index(old(pool)@, has_instance_id(instance_id@)) {
            Some(i) => exists|now: String|
                is_rfc3339_text(now@) && r == Ok::<BrowserInstance, String>(
                    #[trigger] with_status(old(pool)@[i], BrowserInstanceStatus::Stopping, now),
                ) && final(pool)@ == old(pool)@.update(
                    i,
                    with_status(old(pool)@[i], BrowserInstanceStatus::Stopping, now),
                ),
            None => r matches Err(e) && e@ == instance_not_found(instance_id@) && final(pool)@ == old(pool)@,
        },
{
    let now = now_rfc3339();
    begin_stop_browser_instance_at(pool, instance_id, now)
}

/// Stops the instance `instance_id` at the time `now`: it passes through
/// `Stopping` into `Stopped`. An error, with the pool unchanged, when there
/// is no such instance.
pub fn stop_browser_instance_at(pool: &mut BrowserInstancePool, instance_id: &str, now: String) -> (r: Result<(), String>)
    ensures
        ids_unique(final(pool)@),
        match first_index(old(pool)@, has_instance_id(instance_id@)) {
            Some(i) => r is Ok && final(pool)@ == old(pool)@.update(
                i,
                with_status(with_status(old(pool)@[i], BrowserInstanceStatus::Stopping, now), BrowserInstanceStatus::Stopped, now),
            ),
            None => r matches Err(e) && e@ == instance_not_found(instance_id@) && final(pool)@ == old(pool)@,
        },
{
    let ghost s0 = pool@;
    let stamp = now.clone();
    match pool.update_instance_status_at(instance_id, BrowserInstanceStatus::Stopping, stamp) {
        Ok(()) => {},
        Err(e) => return Err(e),
    }
    proof {
        let i = first_index(s0, has_instance_id(instance_id@))->Some_0;
        lemma_first_index(s0, has_instance_id(instance_id@));
        lemma_update_same_id(s0, i, with_status(s0[i], BrowserInstanceStatus::Stopping, now), instance_id@);
    }
    let r = pool.update_instance_status_at(instance_id, BrowserInstanceStatus::Stopped, now);
    proof {
        let i = first_index(s0, has_instance_id(instance_id@))->Some_0;
        let s1 = s0.update(i, with_status(s0[i], BrowserInstanceStatus::Stopping, now));
        assert(pool@ =~= s1.update(i, with_status(s1[i], BrowserInstanceStatus::Stopped, now)));
        assert(pool@ =~= s0.update(i, with_status(with_status(s0[i], BrowserInstanceStatus::Stopping, now), BrowserInstanceStatus::Stopped, now)));
    }
    r
}

/// Stops the instance `instance_id` now: it passes through `Stopping` into
/// `Stopped`. An error, with the pool unchanged, when there is no such
/// instance.
pub fn stop_browser_instance(pool: &mut BrowserInstancePool, instance_id: &str) -> (r: Result<(), String>)
    ensures
        ids_unique(final(pool)@),
        match first_index(old(pool)@, has_instance_id(instance_id@)) {
            Some(i) => r is Ok && exists|now: String| is_rfc3339_text(now@) && final(pool)@ == old(pool)@.update(
                i,
                #[trigger] with_status(with_status(old(pool)@[i], BrowserInstanceStatus::Stopping, now), BrowserInstanceStatus::Stopped, now),
            ),
            None => r matches Err(e) && e@ == instance_not_found(instance_id@) && final(pool)@ == old(pool)@,
        },
{
    let now = now_rfc3339();
    stop_browser_instance_at(pool, instance_id, now)
}

/// An instance stored in the pool is what its identifier then finds.
pub proof fn law_get_after_create(s: Seq<BrowserInstance>, b: BrowserInstance)
    ensures
        first_match(put_instance(s, b), has_instance_id(b.instance_id@)) == Some(b),
{
    let pred = has_instance_id(b.instance_id@);
    match first_index(s, pred) {
        Some(i) => {
            lemma_first_match_update(s, i, b, pred);
        },
        None => {
            lemma_first_match_push(s, b, pred);
            lemma_first_index(s, pred);
        },
    }
}

/// Storing an instance leaves what every other identifier finds.
pub proof fn law_create_keeps_others(s: Seq<BrowserInstance>, b: BrowserInstance, id: Seq<char>)
    requires
        ids_unique(s),
        id != b.instance_id@,
    ensures
        first_match(put_instance(s, b), has_instance_id(id)) == first_match(s, has_instance_id(id)),
{
    let pred = has_instance_id(id);
    let bp = has_instance_id(b.instance_id@);
    lemma_first_index(s, bp);
    lemma_first_index(s, pred);
    let t = put_instance(s, b);
    match first_index(s, bp) {
        Some(i) => {
            match first_index(s, pred) {
                Some(k) => {
                    assert(k != i);
                    assert forall|j: int| 0 <= j < k implies !pred(#[trigger] t[j]) by {
                        if j != i {
                            assert(t[j] == s[j]);
                        }
                    }
                    assert(t[k] == s[k]);
                    lemma_first_index_unique(t, pred, k);
                },
                None => {
                    assert forall|j: int| 0 <= j < t.len() implies !pred(#[trigger] t[j]) by {
                        if j != i {
                            assert(t[j] == s[j]);
                        }
                    }
                    lemma_first_index_none(t, pred);
                },
            }
        },
        None => {
            lemma_first_match_push(s, b, pred);
        },
    }
}

/// After a status change, the instance's identifier finds it in the new
/// status.
pub proof fn law_get_after_status_update(
    s: Seq<BrowserInstance>,
    i: int,
    status: BrowserInstanceStatus,
    now: String,
)
    requires
        0 <= i < s.len(),
    ensures
        first_index(s, has_instance_id(s[i].instance_id@)) == Some(i) ==> first_match(
            s.update(i, with_status(s[i], status, now)),
            has_instance_id(s[i].instance_id@),
        ) == Some(with_status(s[i], status, now)),
{
    if first_index(s, has_instance_id(s[i].instance_id@)) == Some(i) {
        lemma_first_match_update(s, i, with_status(s[i], status, now), has_instance_id(s[i].instance_id@));
    }
}

/// After an instance is removed, its identifier finds nothing.
pub proof fn law_get_after_remove(s: Seq<BrowserInstance>, id: Seq<char>)
    ensures
        first_match(s.filter(other_instance_id(id)), has_instance_id(id)) == None::<BrowserInstance>,
{
    assert forall|b: BrowserInstance| #[trigger] has_instance_id(id)(b) implies !other_instance_id(id)(b) by {}
    lemma_first_match_filtered(s, other_instance_id(id), has_instance_id(id));
}

/// A newly created instance is not running, so creating one under a new
/// identifier leaves the running instances as they were.
pub proof fn law_create_keeps_running(s: Seq<BrowserInstance>, b: BrowserInstance)
    requires
        first_index(s, has_instance_id(b.instance_id@)) is None,
        b.status is Created,
    ensures
        put_instance(s, b).filter(is_running_instance()) == s.filter(is_running_instance()),
{
    s.lemma_filter_push(b, is_running_instance());
}

/// After the status of the instance `id` is changed to `status` at the time
/// `now`, `id` finds that instance with exactly the status `status`, its
/// identity, process and creation time as before, the start time set to
/// `now` when it enters `Running` and the stop time set to `now` when it
/// enters `Stopped`, each kept otherwise.
pub proof fn law_status_update_sets_status(
    s: Seq<BrowserInstance>,
    id: Seq<char>,
    i: int,
    status: BrowserInstanceStatus,
    now: String,
)
    requires
        first_index(s, has_instance_id(id)) == Some(i),
    ensures
        first_match(s.update(i, with_status(s[i], status, now)), has_instance_id(id)) matches Some(b) && {
            &&& b.status == status
            &&& b.instance_id == s[i].instance_id
            &&& b.env_uuid == s[i].env_uuid
            &&& b.profile_id == s[i].profile_id
            &&& b.pid == s[i].pid
            &&& b.user_data_dir == s[i].user_data_dir
            &&& b.created_at == s[i].created_at
            &&& (status is Running ==> b.started_at == Some(now))
            &&& (!(status is Running) ==> b.started_at == s[i].started_at)
            &&& (status is Stopped ==> b.stopped_at == Some(now))
            &&& (!(status is Stopped) ==> b.stopped_at == s[i].stopped_at)
        },
{
    lemma_first_index(s, has_instance_id(id));
    law_get_after_status_update(s, i, status, now);
}

/// Stopping the instance at `i` at the time `now` leaves it `Stopped`, with
/// the stop time `now` and its start time as before.
pub proof fn law_stop_marks_stopped(s: Seq<BrowserInstance>, i: int, now: String)
    requires
        0 <= i < s.len(),
    ensures
        ({
            let b = with_status(with_status(s[i], BrowserInstanceStatus::Stopping, now), BrowserInstanceStatus::Stopped, now);
            &&& b.status == BrowserInstanceStatus::Stopped
            &&& b.stopped_at == Some(now)
            &&& b.started_at == s[i].started_at
            &&& b.instance_id == s[i].instance_id
            &&& b.pid == s[i].pid
        }),
{
}

/// The instances of an environment are all the pool's instances of that
/// environment, whatever their status, and only those.
pub proof fn law_env_instances_are_those_of_env(s: Seq<BrowserInstance>, env: Seq<char>)
    ensures
        forall|i: int|
            #![trigger s[i]]
            0 <= i < s.len() && s[i].env_uuid@ == env ==> s.filter(in_env(env)).contains(s[i]),
        forall|b: BrowserInstance|
            #[trigger] s.filter(in_env(env)).contains(b) ==> s.contains(b) && b.env_uuid@ == env,
{
    assert forall|i: int|
        #![trigger s[i]]
        0 <= i < s.len() && s[i].env_uuid@ == env implies s.filter(in_env(env)).contains(s[i]) by {
        s.lemma_filter_contains(in_env(env), i);
    }
    assert forall|b: BrowserInstance| #[trigger] s.filter(in_env(env)).contains(b) implies s.contains(b)
        && b.env_uuid@ == env by {
        s.lemma_filter_contains_rev(in_env(env), b);
        let j = choose|j: int| 0 <= j < s.filter(in_env(env)).len() && s.filter(in_env(env))[j] == b;
        s.lemma_filter_pred(in_env(env), j);
    }
}

/// The running instances are all the pool's instances whose status is
/// `Running`, and only those.
pub proof fn law_running_instances_are_those_running(s: Seq<BrowserInstance>)
    ensures
        forall|i: int|
            #![trigger s[i]]
            0 <= i < s.len() && s[i].status is Running ==> s.filter(is_running_instance()).contains(s[i]),
        forall|b: BrowserInstance|
            #[trigger] s.filter(is_running_instance()).contains(b) ==> s.contains(b) && b.status is Running,
{
    assert forall|i: int|
        #![trigger s[i]]
        0 <= i < s.len() && s[i].status is Running implies s.filter(is_running_instance()).contains(s[i]) by {
        s.lemma_filter_contains(is_running_instance(), i);
    }
    assert forall|b: BrowserInstance| #[trigger] s.filter(is_running_instance()).contains(b) implies s.contains(b)
        && b.status is Running by {
        s.lemma_filter_contains_rev(is_running_instance(), b);
        let j = choose|j: int|
            0 <= j < s.filter(is_running_instance()).len() && s.filter(is_running_instance())[j] == b;
        s.lemma_filter_pred(is_running_instance(), j);
    }
}

/// Removing the instance `id` keeps exactly the instances of other
/// identifiers.
pub proof fn law_remove_instance_keeps_others(s: Seq<BrowserInstance>, id: Seq<char>)
    ensures
        forall|i: int|
            #![trigger s[i]]
            0 <= i < s.len() && s[i].instance_id@ != id ==> s.filter(other_instance_id(id)).contains(s[i]),
        forall|b: BrowserInstance|
            #[trigger] s.filter(other_instance_id(id)).contains(b) ==> s.contains(b) && b.instance_id@ != id,
{
    assert forall|i: int|
        #![trigger s[i]]
        0 <= i < s.len() && s[i].instance_id@ != id implies s.filter(other_instance_id(id)).contains(s[i]) by {
        s.lemma_filter_contains(other_instance_id(id), i);
    }
    assert forall|b: BrowserInstance| #[trigger] s.filter(other_instance_id(id)).contains(b) implies s.contains(b)
        && b.instance_id@ != id by {
        s.lemma_filter_contains_rev(other_instance_id(id), b);
        let j = choose|j: int|
            0 <= j < s.filter(other_instance_id(id)).len() && s.filter(other_instance_id(id))[j] == b;
        s.lemma_filter_pred(other_instance_id(id), j);
    }
}

/// Looking an instance up by `id` finds the pool's instance with that
/// identifier, and finds nothing exactly when no instance has it.
pub proof fn law_get_instance_finds_id(s: Seq<BrowserInstance>, id: Seq<char>)
    ensures
        first_match(s, has_instance_id(id)) matches Some(b) ==> s.contains(b) && b.instance_id@ == id,
        first_match(s, has_instance_id(id)) is None <==> forall|j: int|
            0 <= j < s.len() ==> (#[trigger] s[j]).instance_id@ != id,
{
    lemma_first_index(s, has_instance_id(id));
    match first_index(s, has_instance_id(id)) {
        Some(k) => {
            assert(s[k].instance_id@ == id);
            assert(!(forall|j: int| 0 <= j < s.len() ==> (#[trigger] s[j]).instance_id@ != id));
        },
        None => {
            assert forall|j: int| 0 <= j < s.len() implies (#[trigger] s[j]).instance_id@ != id by {
                assert(!has_instance_id(id)(s[j]));
            }
        },
    }
}

/// A created instance is in status `Created`, has no process and no start
/// or stop time, and carries what it was created with.
pub proof fn law_created_instance_fields(
    instance_id: String,
    env_uuid: String,
    profile_id: String,
    user_data_dir: String,
    now: String,
)
    ensures
        ({
            let b = created_instance(instance_id, env_uuid, profile_id, user_data_dir, now);
            &&& b.status == BrowserInstanceStatus::Created
            &&& b.pid == None::<u32>
            &&& b.started_at == None::<String>
            &&& b.stopped_at == None::<String>
            &&& b.instance_id == instance_id
            &&& b.env_uuid == env_uuid
            &&& b.profile_id == profile_id
            &&& b.user_data_dir == user_data_dir
            &&& b.created_at == now
        }),
{
}

/// Recording a process identifier changes only the process identifier.
pub proof fn law_with_pid_sets_only_pid(b: BrowserInstance, pid: u32)
    ensures
        with_pid(b, pid).pid == Some(pid),
        with_pid(b, pid).status == b.status,
        with_pid(b, pid).instance_id == b.instance_id,
        with_pid(b, pid).env_uuid == b.env_uuid,
        with_pid(b, pid).profile_id == b.profile_id,
        with_pid(b, pid).user_data_dir == b.user_data_dir,
        with_pid(b, pid).created_at == b.created_at,
        with_pid(b, pid).started_at == b.started_at,
        with_pid(b, pid).stopped_at == b.stopped_at,
{
}

} // verus!

use vstd::prelude::*;
use crate::models::User;

verus! {

/// Failures of the durable stores.
#[derive(Debug, PartialEq, Eq, Structural, Clone, Copy)]
pub enum StoreError {
    /// The key to insert already exists.
    Conflict,
    /// The key to read or update does not exist.
    NotFound,
}

/// One issued artifact: its caller-opaque identifier, owning account, the
/// original payload, a monotonically increasing scan counter, and the
/// creation time as a unix timestamp in seconds.
pub struct Artifact {
    pub id: String,
    pub user_id: i64,
    pub data: String,
    pub scans: i32,
    pub created_at: i64,
}

/// The durable record of issued artifacts, keyed by artifact identifier.
/// Identifiers are immutable and unique for the lifetime of the store, scan
/// counters start at zero and never decrease, and artifacts are never
/// deleted.
pub struct ArtifactStore {
    arts: Vec<Artifact>,
}

impl ArtifactStore {
    /// Identifiers are unique, scan counts are never negative, creation
    /// times are unix timestamps (never negative).
    pub closed spec fn wf(&self) -> bool {
        &&& forall|i: int, j: int|
            0 <= i < j < self.arts@.len() ==> !(#[trigger] self.arts@[i].id@
                == #[trigger] self.arts@[j].id@)
        &&& forall|i: int|
            0 <= i < self.arts@.len() ==> #[trigger] self.arts@[i].scans >= 0
                && self.arts@[i].created_at >= 0
    }

    /// Whether an artifact with this identifier has been issued.
    pub closed spec fn has(&self, id: Seq<char>) -> bool {
        exists|i: int| 0 <= i < self.arts@.len() && #[trigger] self.arts@[i].id@ == id
    }

    /// The position of the artifact with this identifier.
    pub closed spec fn spec_idx(&self, id: Seq<char>) -> int {
        choose|i: int| 0 <= i < self.arts@.len() && #[trigger] self.arts@[i].id@ == id
    }

    /// The artifact stored under this identifier.
    pub closed spec fn spec_artifact(&self, id: Seq<char>) -> Artifact {
        self.arts@[self.spec_idx(id)]
    }

    /// The scan counter of this artifact.
    pub open spec fn scans_of(&self, id: Seq<char>) -> int {
        self.spec_artifact(id).scans as int
    }

    /// The payload stored for this artifact.
    pub open spec fn data_of(&self, id: Seq<char>) -> Seq<char> {
        self.spec_artifact(id).data@
    }

    /// The creation timestamp of this artifact.
    pub open spec fn created_of(&self, id: Seq<char>) -> int {
        self.spec_artifact(id).created_at as int
    }

    /// The account that owns this artifact.
    pub open spec fn owner_of(&self, id: Seq<char>) -> i64 {
        self.spec_artifact(id).user_id
    }

    /// A new store holds no artifacts.
    pub fn new() -> (s: ArtifactStore)
        ensures
            s.wf(),
            forall|id: Seq<char>| !s.has(id),
    {
        ArtifactStore { arts: Vec::new() }
    }

    /// Finds the position of this identifier's artifact, if it is stored.
    fn find(&self, id: &str) -> (r: Option<usize>)
        requires
            self.wf(),
        ensures
            match r {
                Some(i) => {
                    &&& i < self.arts@.len()
                    &&& self.arts@[i as int].id@ == id@
                    &&& self.has(id@)
                    &&& self.spec_idx(id@) == i as int
                    &&& self.spec_artifact(id@) == self.arts@[i as int]
                },
                None => !self.has(id@),
            },
    {
        let key: String = id.to_owned();
        let mut i: usize = 0;
        while i < self.arts.len()
            invariant
                self.wf(),
                key@ == id@,
                0 <= i <= self.arts@.len(),
                forall|j: int| 0 <= j < i ==> #[trigger] self.arts@[j].id@ != id@,
            decreases self.arts@.len() - i,
        {
            let e = &self.arts[i];
            if e.id == key {
                proof {
                    assert(self.has(id@));
                    let w = self.spec_idx(id@);
                    if w < i as int {
                        assert(self.arts@[w].id@ == self.arts@[i as int].id@);
                        assert(false);
                    }
                    if w > i as int {
                        assert(self.arts@[i as int].id@ == self.arts@[w].id@);
                        assert(false);
                    }
                }
                return Some(i);
            }
            i = i + 1;
        }
        None
    }

    /// Inserts a new artifact row with a scan counter of zero. Fails with
    /// `Conflict`, changing nothing, exactly when the identifier already
    /// exists; an existing artifact is never overwritten.
    pub fn create_qr_code(&mut self, id: String, user_id: i64, data: String, created_at: i64) -> (r:
        Result<(), StoreError>)
        requires
            old(self).wf(),
            created_at >= 0,
        ensures
            final(self).wf(),
            r is Ok <==> !old(self).has(id@),
            r is Err ==> *final(self) == *old(self) && r == Err::<(), StoreError>(
                StoreError::Conflict,
            ),
            r is Ok ==> {
                &&& final(self).has(id@)
                &&& final(self).scans_of(id@) == 0
                &&& final(self).data_of(id@) == data@
                &&& final(self).created_of(id@) == created_at
                &&& final(self).owner_of(id@) == user_id
                &&& forall|o: Seq<char>| o != id@ ==> #[trigger] final(self).has(o) == old(
                    self,
                ).has(o)
                &&& forall|o: Seq<char>|
                    o != id@ && old(self).has(o) ==> #[trigger] final(self).spec_artifact(o)
                        == old(self).spec_artifact(o)
            },
    {
        let ghost pre = *self;
        match self.find(id.as_str()) {
            Some(_) => Err(StoreError::Conflict),
            None => {
                let row = Artifact { id, user_id, data, scans: 0, created_at };
                self.arts.push(row);
                proof {
                    let k = pre.arts@.len() as int;
                    assert(self.arts@ == pre.arts@.push(row));
                    assert(self.arts@[k] == row);
                    Self::lemma_store_update(pre, *self, k);
                    assert(self.spec_artifact(id@) == row);
                    assert(self.scans_of(id@) == 0);
                    assert(self.data_of(id@) == data@);
                }
                Ok(())
            },
        }
    }

    /// Atomically increments the scan counter of this artifact; everything
    /// else about it, and every other artifact, is untouched. Fails with
    /// `NotFound`, changing nothing, exactly when the identifier is unknown.
    pub fn increment_scan_count(&mut self, id: &str) -> (r: Result<(), StoreError>)
        requires
            old(self).wf(),
            old(self).has(id@) ==> old(self).scans_of(id@) < i32::MAX,
        ensures
            final(self).wf(),
            r is Ok <==> old(self).has(id@),
            r is Err ==> *final(self) == *old(self) && r == Err::<(), StoreError>(
                StoreError::NotFound,
            ),
            r is Ok ==> {
                &&& final(self).has(id@)
                &&& final(self).scans_of(id@) == old(self).scans_of(id@) + 1
                &&& final(self).data_of(id@) == old(self).data_of(id@)
                &&& final(self).created_of(id@) == old(self).created_of(id@)
                &&& final(self).owner_of(id@) == old(self).owner_of(id@)
                &&& forall|o: Seq<char>| o != id@ ==> #[trigger] final(self).has(o) == old(
                    self,
                ).has(o)
                &&& forall|o: Seq<char>|
                    o != id@ && old(self).has(o) ==> #[trigger] final(self).spec_artifact(o)
                        == old(self).spec_artifact(o)
            },
    {
        let ghost pre = *self;
        match self.find(id) {
            None => Err(StoreError::NotFound),
            Some(i) => {
                let e = &self.arts[i];
                let upd = Artifact {
                    id: e.id.clone(),
                    user_id: e.user_id,
                    data: e.data.clone(),
                    scans: e.scans + 1,
                    created_at: e.created_at,
                };
                self.arts.set(i, upd);
                proof {
                    assert(self.arts@[i as int] == upd);
                    Self::lemma_store_update(pre, *self, i as int);
                    assert(self.spec_artifact(id@) == upd);
                    assert(self.scans_of(id@) == pre.scans_of(id@) + 1);
                    assert(self.data_of(id@) == pre.data_of(id@));
                }
                Ok(())
            },
        }
    }

    /// Reads the payload stored for this artifact; `NotFound` exactly when
    /// the identifier is unknown.
    pub fn get_qr_data(&self, id: &str) -> (r: Result<String, StoreError>)
        requires
            self.wf(),
        ensures
            r is Ok <==> self.has(id@),
            r matches Ok(d) ==> d@ == self.data_of(id@),
            r is Err ==> r == Err::<String, StoreError>(StoreError::NotFound),
    {
        match self.find(id) {
            None => Err(StoreError::NotFound),
            Some(i) => Ok(self.arts[i].data.clone()),
        }
    }

    /// Reads the scan counter and creation timestamp of this artifact;
    /// `NotFound` exactly when the identifier is unknown.
    pub fn get_stats(&self, id: &str) -> (r: Result<(i32, i64), StoreError>)
        requires
            self.wf(),
        ensures
            r is Ok <==> self.has(id@),
            r matches Ok(st) ==> st.0 == self.scans_of(id@) && st.1 == self.created_of(id@)
                && st.0 >= 0 && st.1 >= 0,
            r is Err ==> r == Err::<(i32, i64), StoreError>(StoreError::NotFound),
    {
        match self.find(id) {
            None => Err(StoreError::NotFound),
            Some(i) => {
                let e = &self.arts[i];
                Ok((e.scans, e.created_at))
            },
        }
    }

    /// After writing position `k` (all other positions kept, the identifier
    /// at `k` fresh if it was pushed, unchanged if it was updated), lookups
    /// of the identifier at `k` land on `k` and every other identifier reads
    /// as before.
    proof fn lemma_store_update(pre: ArtifactStore, post: ArtifactStore, k: int)
        requires
            pre.wf(),
            0 <= k < post.arts@.len(),
            post.arts@.len() == pre.arts@.len() || post.arts@.len() == pre.arts@.len() + 1,
            post.arts@.len() == pre.arts@.len() + 1 ==> k == pre.arts@.len() && !pre.has(
                post.arts@[k].id@,
            ),
            forall|j: int| 0 <= j < pre.arts@.len() && j != k ==> post.arts@[j] == pre.arts@[j],
            k < pre.arts@.len() ==> pre.arts@[k].id@ == post.arts@[k].id@,
            post.arts@[k].scans >= 0,
            post.arts@[k].created_at >= 0,
        ensures
            post.wf(),
            post.has(post.arts@[k].id@),
            post.spec_idx(post.arts@[k].id@) == k,
            post.spec_artifact(post.arts@[k].id@) == post.arts@[k],
            forall|o: Seq<char>| o != post.arts@[k].id@ ==> #[trigger] post.has(o) == pre.has(o),
            forall|o: Seq<char>|
                o != post.arts@[k].id@ && pre.has(o) ==> #[trigger] post.spec_artifact(o)
                    == pre.spec_artifact(o),
    {
        let id = post.arts@[k].id@;
        assert forall|i: int, j: int| 0 <= i < j < post.arts@.len() implies !(
        #[trigger] post.arts@[i].id@ == #[trigger] post.arts@[j].id@) by {
            if i != k && j != k {
                assert(post.arts@[i] == pre.arts@[i]);
                assert(post.arts@[j] == pre.arts@[j]);
            } else {
                let o = if i == k {
                    j
                } else {
                    i
                };
                if o < pre.arts@.len() {
                    assert(post.arts@[o] == pre.arts@[o]);
                    if k < pre.arts@.len() {
                        assert(pre.arts@[k].id@ == id);
                    } else {
                        if pre.arts@[o].id@ == id {
                            assert(pre.has(id));
                            assert(false);
                        }
                    }
                }
            }
        }
        assert forall|i: int| 0 <= i < post.arts@.len() implies #[trigger] post.arts@[i].scans >= 0
            && post.arts@[i].created_at >= 0 by {
            if i != k {
                assert(post.arts@[i] == pre.arts@[i]);
            }
        }
        assert(post.has(id));
        let w = post.spec_idx(id);
        if w != k {
            assert(post.arts@[w].id@ == post.arts@[k].id@);
            assert(false);
        }
        assert forall|o: Seq<char>|
            o != id implies #[trigger] post.has(o) == pre.has(o) && (pre.has(o)
            ==> post.spec_artifact(o) == pre.spec_artifact(o)) by {
            if pre.has(o) {
                let a = pre.spec_idx(o);
                assert(pre.arts@[a].id@ == o);
                assert(a != k);
                assert(post.arts@[a] == pre.arts@[a]);
                assert(post.has(o));
            }
            if post.has(o) {
                let b = post.spec_idx(o);
                assert(post.arts@[b].id@ == o);
                assert(b != k);
                assert(pre.arts@[b] == post.arts@[b]);
                assert(pre.has(o));
                let a2 = pre.spec_idx(o);
                assert(pre.arts@[a2].id@ == o);
                if a2 != b {
                    assert(pre.arts@[a2].id@ == pre.arts@[b].id@);
                    assert(false);
                }
            }
        }
    }
}

/// The identity store: maps an opaque account credential to an account
/// record. Credentials are generated, never caller-supplied; a duplicate key
/// is rejected rather than silently overwritten.
pub struct IdentityStore {
    users: Vec<User>,
    next_id: i64,
}

impl IdentityStore {
    /// Credentials and account ids are unique; ids are assigned from a
    /// counter, so every stored id is below `next_id`.
    pub closed spec fn wf(&self) -> bool {
        &&& forall|i: int, j: int|
            0 <= i < j < self.users@.len() ==> !(#[trigger] self.users@[i].api_key@
                == #[trigger] self.users@[j].api_key@)
        &&& forall|i: int|
            0 <= i < self.users@.len() ==> 1 <= #[trigger] self.users@[i].id < self.next_id
        &&& forall|i: int, j: int|
            0 <= i < j < self.users@.len() ==> #[trigger] self.users@[i].id
                != #[trigger] self.users@[j].id
        &&& self.next_id >= 1
    }

    /// Whether an account is registered under this credential.
    pub closed spec fn has_key(&self, api_key: Seq<char>) -> bool {
        exists|i: int| 0 <= i < self.users@.len() && #[trigger] self.users@[i].api_key@ == api_key
    }

    /// The position of the account registered under this credential.
    pub closed spec fn key_idx(&self, api_key: Seq<char>) -> int {
        choose|i: int| 0 <= i < self.users@.len() && #[trigger] self.users@[i].api_key@ == api_key
    }

    /// The account registered under this credential.
    pub closed spec fn spec_user(&self, api_key: Seq<char>) -> User {
        self.users@[self.key_idx(api_key)]
    }

    /// The id that the next registration will be assigned.
    pub closed spec fn spec_next_id(&self) -> int {
        self.next_id as int
    }

    /// A new identity store knows no credentials.
    pub fn new() -> (s: IdentityStore)
        ensures
            s.wf(),
            forall|k: Seq<char>| !s.has_key(k),
            s.spec_next_id() == 1,
    {
        IdentityStore { users: Vec::new(), next_id: 1 }
    }

    /// Finds the position of this credential's account, if it has one.
    fn find(&self, api_key: &str) -> (r: Option<usize>)
        requires
            self.wf(),
        ensures
            match r {
                Some(i) => {
                    &&& i < self.users@.len()
                    &&& self.users@[i as int].api_key@ == api_key@
                    &&& self.has_key(api_key@)
                    &&& self.key_idx(api_key@) == i as int
                    &&& self.spec_user(api_key@) == self.users@[i as int]
                },
                None => !self.has_key(api_key@),
            },
    {
        let key: String = api_key.to_owned();
        let mut i: usize = 0;
        while i < self.users.len()
            invariant
                self.wf(),
                key@ == api_key@,
                0 <= i <= self.users@.len(),
                forall|j: int| 0 <= j < i ==> #[trigger] self.users@[j].api_key@ != api_key@,
            decreases self.users@.len() - i,
        {
            let u = &self.users[i];
            if u.api_key == key {
                proof {
                    assert(self.has_key(api_key@));
                    let w = self.key_idx(api_key@);
                    if w < i as int {
                        assert(self.users@[w].api_key@ == self.users@[i as int].api_key@);
                        assert(false);
                    }
                    if w > i as int {
                        assert(self.users@[i as int].api_key@ == self.users@[w].api_key@);
                        assert(false);
                    }
                }
                return Some(i);
            }
            i = i + 1;
        }
        None
    }

    /// Registers a new account under a generated credential, on the default
    /// plan tier "free" and with a fresh id. Fails with `Conflict`, changing
    /// nothing, exactly when the credential is already taken (a generation
    /// collision): a duplicate key is rejected, never overwritten.
    pub fn create_user(&mut self, api_key: String, created_at: i64) -> (r: Result<i64, StoreError>)
        requires
            old(self).wf(),
            old(self).spec_next_id() < i64::MAX,
            created_at >= 0,
        ensures
            final(self).wf(),
            r is Ok <==> !old(self).has_key(api_key@),
            r is Err ==> *final(self) == *old(self) && r == Err::<i64, StoreError>(
                StoreError::Conflict,
            ),
            r matches Ok(uid) ==> {
                &&& final(self).has_key(api_key@)
                &&& final(self).spec_user(api_key@).id == uid
                &&& final(self).spec_user(api_key@).plan@ == "free"@
                &&& final(self).spec_user(api_key@).api_key@ == api_key@
                &&& final(self).spec_user(api_key@).created_at == created_at
                &&& uid == old(self).spec_next_id()
                &&& final(self).spec_next_id() == old(self).spec_next_id() + 1
                &&& forall|o: Seq<char>| o != api_key@ ==> #[trigger] final(self).has_key(o)
                    == old(self).has_key(o)
                &&& forall|o: Seq<char>|
                    o != api_key@ && old(self).has_key(o) ==> #[trigger] final(self).spec_user(o)
                        == old(self).spec_user(o)
            },
    {
        let ghost pre = *self;
        match self.find(api_key.as_str()) {
            Some(_) => Err(StoreError::Conflict),
            None => {
                let uid = self.next_id;
                let row = User {
                    id: uid,
                    api_key,
                    plan: String::from_str("free"),
                    stripe_customer_id: None,
                    created_at,
                };
                self.users.push(row);
                self.next_id = uid + 1;
                proof {
                    Self::lemma_user_insert(pre, *self, pre.users@.len() as int);
                }
                Ok(uid)
            },
        }
    }

    /// Resolves a credential to its account record; `NotFound` exactly when
    /// the credential is unrecognized.
    pub fn get_user_by_api_key(&self, api_key: &str) -> (r: Result<User, StoreError>)
        requires
            self.wf(),
        ensures
            r is Ok <==> self.has_key(api_key@),
            r matches Ok(u) ==> u == self.spec_user(api_key@),
            r is Err ==> r == Err::<User, StoreError>(StoreError::NotFound),
    {
        match self.find(api_key) {
            None => Err(StoreError::NotFound),
            Some(i) => {
                let u = &self.users[i];
                let sid = match &u.stripe_customer_id {
                    Some(s) => Some(s.clone()),
                    None => None,
                };
                Ok(
                    User {
                        id: u.id,
                        api_key: u.api_key.clone(),
                        plan: u.plan.clone(),
                        stripe_customer_id: sid,
                        created_at: u.created_at,
                    },
                )
            },
        }
    }

    /// After pushing a fresh credential at position `k`, lookups of that
    /// credential land on `k` and every other credential reads as before.
    proof fn lemma_user_insert(pre: IdentityStore, post: IdentityStore, k: int)
        requires
            pre.wf(),
            post.users@.len() == pre.users@.len() + 1,
            k == pre.users@.len(),
            !pre.has_key(post.users@[k].api_key@),
            forall|j: int| 0 <= j < pre.users@.len() ==> post.users@[j] == pre.users@[j],
            1 <= post.users@[k].id < post.next_id,
            post.users@[k].id == pre.next_id,
            post.next_id == pre.next_id + 1,
        ensures
            post.wf(),
            post.has_key(post.users@[k].api_key@),
            post.key_idx(post.users@[k].api_key@) == k,
            post.spec_user(post.users@[k].api_key@) == post.users@[k],
            forall|o: Seq<char>|
                o != post.users@[k].api_key@ ==> #[trigger] post.has_key(o) == pre.has_key(o),
            forall|o: Seq<char>|
                o != post.users@[k].api_key@ && pre.has_key(o) ==> #[trigger] post.spec_user(o)
                    == pre.spec_user(o),
    {
        let key = post.users@[k].api_key@;
        assert forall|i: int, j: int| 0 <= i < j < post.users@.len() implies !(
        #[trigger] post.users@[i].api_key@ == #[trigger] post.users@[j].api_key@) by {
            if j == k {
                assert(post.users@[i] == pre.users@[i]);
                if pre.users@[i].api_key@ == key {
                    assert(pre.has_key(key));
                    assert(false);
                }
            } else {
                assert(post.users@[i] == pre.users@[i]);
                assert(post.users@[j] == pre.users@[j]);
            }
        }
        assert forall|i: int| 0 <= i < post.users@.len() implies 1 <= #[trigger] post.users@[i].id
            < post.next_id by {
            if i != k {
                assert(post.users@[i] == pre.users@[i]);
            }
        }
        assert forall|i: int, j: int| 0 <= i < j < post.users@.len() implies #[trigger] post.users@[i].id
            != #[trigger] post.users@[j].id by {
            if j == k {
                assert(post.users@[i] == pre.users@[i]);
            } else {
                assert(post.users@[i] == pre.users@[i]);
                assert(post.users@[j] == pre.users@[j]);
            }
        }
        assert(post.has_key(key));
        let w = post.key_idx(key);
        if w != k {
            assert(post.users@[w].api_key@ == post.users@[k].api_key@);
            assert(false);
        }
        assert forall|o: Seq<char>| o != key implies post.has_key(o) == pre.has_key(o) && (
        pre.has_key(o) ==> #[trigger] post.spec_user(o) == pre.spec_user(o)) by {
            if pre.has_key(o) {
                let a = pre.key_idx(o);
                assert(pre.users@[a].api_key@ == o);
                assert(post.users@[a] == pre.users@[a]);
                assert(post.has_key(o));
            }
            if post.has_key(o) {
                let b = post.key_idx(o);
                assert(post.users@[b].api_key@ == o);
                assert(b != k);
                assert(pre.users@[b] == post.users@[b]);
                assert(pre.has_key(o));
                let a2 = pre.key_idx(o);
                assert(pre.users@[a2].api_key@ == o);
                if a2 != b {
                    assert(pre.users@[a2].api_key@ == pre.users@[b].api_key@);
                    assert(false);
                }
            }
        }
    }
}

} // verus!

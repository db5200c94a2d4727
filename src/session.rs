use vstd::prelude::*;

verus! {

/// What the e-mail bridge keeps while a login is in flight.
pub struct EmailBridgeData {
    /// A slow hash of the one-time code sent by mail.
    pub code_hash: String,
    /// Unix time after which the code is void.
    pub expires_at: u64,
    /// Codes tried so far.
    pub attempts: u32,
}

/// What the OIDC bridge keeps while a login is in flight.
pub struct OidcBridgeData {
    pub upstream_state: String,
    pub upstream_nonce: String,
    pub provider_id: String,
}

/// Session data stored by bridges.
pub enum BridgeData {
    Email(EmailBridgeData),
    Oidc(OidcBridgeData),
}

/// The parameters of the relying party's request, replayed when returning to it.
pub struct ReturnParams {
    pub client_id: String,
    pub redirect_uri: String,
    pub response_mode: String,
    pub response_type: String,
    pub scope: String,
    pub state: String,
    pub nonce: String,
}

/// One login in flight.
pub struct SessionRecord {
    pub session_id: String,
    pub return_params: ReturnParams,
    pub email: String,
    pub email_addr: String,
    pub bridge_data: BridgeData,
    pub created_at: u64,
}

/// A stored session: its id, record and expiry time.
pub struct StoredSession<V> {
    pub id: String,
    pub record: V,
    pub expires_at: u64,
}

/// Keyed, single-use storage of sessions with a time to live.
pub struct SessionStore<V> {
    entries: Vec<StoredSession<V>>,
}

/// Why a session could not be stored.
#[derive(Debug, PartialEq, Eq, Structural)]
pub enum StoreError {
    /// A live session with this id is stored already.
    Duplicate,
}

/// Why a login could not be completed.
#[derive(Debug, PartialEq, Eq, Structural)]
pub enum CompleteError {
    /// No session with this id: never stored, or already completed or cancelled.
    UnknownSession,
    /// The session with this id has expired.
    Expired,
}

/// The map from session id to record and expiry time that a list of stored sessions
/// denotes.
pub open spec fn entries_map<V>(s: Seq<StoredSession<V>>) -> Map<Seq<char>, (V, nat)>
    decreases s.len(),
{
    if s.len() == 0 {
        Map::empty()
    } else {
        entries_map(s.drop_last()).insert(
            s.last().id@,
            (s.last().record, s.last().expires_at as nat),
        )
    }
}

/// No two stored sessions share an id.
pub open spec fn ids_unique<V>(s: Seq<StoredSession<V>>) -> bool {
    forall|i: int, j: int| 0 <= i < j < s.len() ==> s[i].id@ != s[j].id@
}

/// A session stored under `id` that has not expired at `now`.
pub open spec fn is_live<V>(m: Map<Seq<char>, (V, nat)>, id: Seq<char>, now: nat) -> bool {
    m.contains_key(id) && m[id].1 > now
}

/// What taking `id` at `now` returns: the record of a live session, else nothing.
pub open spec fn take_result<V>(m: Map<Seq<char>, (V, nat)>, id: Seq<char>, now: nat) -> Option<V> {
    if is_live(m, id, now) {
        Some(m[id].0)
    } else {
        None
    }
}

/// The expiry time of a session stored at `now` for `ttl` seconds.
pub open spec fn expiry(now: u64, ttl: u64) -> nat {
    if now + ttl > u64::MAX {
        u64::MAX as nat
    } else {
        (now + ttl) as nat
    }
}

proof fn lemma_absent<V>(s: Seq<StoredSession<V>>, id: Seq<char>)
    requires
        forall|i: int| 0 <= i < s.len() ==> (#[trigger] s[i]).id@ != id,
    ensures
        !entries_map(s).contains_key(id),
    decreases s.len(),
{
    if s.len() > 0 {
        assert(s.last() == s[s.len() - 1]);
        lemma_absent(s.drop_last(), id);
    }
}

proof fn lemma_present<V>(s: Seq<StoredSession<V>>, i: int)
    requires
        ids_unique(s),
        0 <= i < s.len(),
    ensures
        entries_map(s).contains_key(s[i].id@),
        entries_map(s)[s[i].id@] == (s[i].record, s[i].expires_at as nat),
    decreases s.len(),
{
    if i < s.len() - 1 {
        lemma_present(s.drop_last(), i);
    }
}

proof fn lemma_remove<V>(s: Seq<StoredSession<V>>, i: int)
    requires
        ids_unique(s),
        0 <= i < s.len(),
    ensures
        entries_map(s.remove(i)) == entries_map(s).remove(s[i].id@),
        ids_unique(s.remove(i)),
    decreases s.len(),
{
    let k = s[i].id@;
    if i == s.len() - 1 {
        assert(s.remove(i) =~= s.drop_last());
        lemma_absent(s.drop_last(), k);
        assert(entries_map(s.drop_last()) =~= entries_map(s).remove(k));
    } else {
        lemma_remove(s.drop_last(), i);
        assert(s.remove(i).drop_last() =~= s.drop_last().remove(i));
        assert(s.remove(i).last() == s.last());
        assert(s.last().id@ != k);
        assert(entries_map(s.remove(i)) =~= entries_map(s).remove(k));
    }
}

impl<V> SessionStore<V> {
    /// The stored sessions: id to record and expiry time.
    pub closed spec fn view(&self) -> Map<Seq<char>, (V, nat)> {
        entries_map(self.entries@)
    }

    /// The store's internal invariant.
    pub closed spec fn wf(&self) -> bool {
        ids_unique(self.entries@)
    }

    /// An empty store.
    pub fn new() -> (r: SessionStore<V>)
        ensures
            r.wf(),
            r@ == Map::<Seq<char>, (V, nat)>::empty(),
    {
        SessionStore { entries: Vec::new() }
    }

    /// The index of the session stored under `id`.
    fn position(&self, id: &str) -> (r: Option<usize>)
        requires
            self.wf(),
        ensures
            match r {
                Some(i) => {
                    &&& i < self.entries@.len()
                    &&& self.entries@[i as int].id@ == id@
                    &&& self@.contains_key(id@)
                    &&& self@[id@] == (
                        self.entries@[i as int].record,
                        self.entries@[i as int].expires_at as nat,
                    )
                },
                None => !self@.contains_key(id@),
            },
    {
        let mut i: usize = 0;
        while i < self.entries.len()
            invariant
                self.wf(),
                i <= self.entries@.len(),
                forall|j: int| 0 <= j < i ==> (#[trigger] self.entries@[j]).id@ != id@,
            decreases self.entries@.len() - i,
        {
            if self.entries[i].id == id.to_owned() {
                proof {
                    lemma_present(self.entries@, i as int);
                }
                return Some(i);
            }
            i = i + 1;
        }
        proof {
            lemma_absent(self.entries@, id@);
        }
        None
    }

    /// Stores a record under `id` for `ttl` seconds from `now`, refusing an id under
    /// which a live session is stored.
    pub fn put(&mut self, id: String, record: V, ttl: u64, now: u64) -> (r: Result<(), StoreError>)
        requires
            old(self).wf(),
        ensures
            final(self).wf(),
            is_live(old(self)@, id@, now as nat) ==> r == Err::<(), StoreError>(StoreError::Duplicate)
                && final(self)@ == old(self)@,
            !is_live(old(self)@, id@, now as nat) ==> r is Ok && final(self)@ == old(self)@.insert(
                id@,
                (record, expiry(now, ttl)),
            ),
    {
        if let Some(i) = self.position(id.as_str()) {
            if self.entries[i].expires_at > now {
                return Err(StoreError::Duplicate);
            }
            proof {
                lemma_remove(self.entries@, i as int);
            }
            self.entries.remove(i);
        }
        let expires_at = now.saturating_add(ttl);
        let ghost before = self.entries@;
        proof {
            if exists|j: int| 0 <= j < before.len() && (#[trigger] before[j]).id@ == id@ {
                let j = choose|j: int| 0 <= j < before.len() && (#[trigger] before[j]).id@ == id@;
                lemma_present(before, j);
            }
        }
        self.entries.push(StoredSession { id, record, expires_at });
        proof {
            assert(self.entries@.drop_last() =~= before);
            assert forall|a: int, b: int| 0 <= a < b < self.entries@.len() implies self.entries@[a].id@
                != self.entries@[b].id@ by {
                if b == before.len() {
                    assert(before[a] == self.entries@[a]);
                }
            }
        }
        Ok(())
    }

    /// Takes the session stored under `id` out of the store, returning its record if it
    /// has not expired at `now`.
    pub fn take(&mut self, id: &str, now: u64) -> (r: Option<V>)
        requires
            old(self).wf(),
        ensures
            final(self).wf(),
            r == take_result(old(self)@, id@, now as nat),
            final(self)@ == old(self)@.remove(id@),
    {
        match self.position(id) {
            Some(i) => {
                proof {
                    lemma_remove(self.entries@, i as int);
                }
                let entry = self.entries.remove(i);
                if entry.expires_at > now {
                    Some(entry.record)
                } else {
                    None
                }
            },
            None => {
                assert(self@ =~= self@.remove(id@));
                None
            },
        }
    }

    /// Whether a session is stored under `id`, live or expired.
    pub fn contains(&self, id: &str) -> (r: bool)
        requires
            self.wf(),
        ensures
            r == self@.contains_key(id@),
    {
        self.position(id).is_some()
    }

    /// Removes the session stored under `id`, if any.
    pub fn remove(&mut self, id: &str)
        requires
            old(self).wf(),
        ensures
            final(self).wf(),
            final(self)@ == old(self)@.remove(id@),
    {
        let _ = self.take(id, 0);
    }
}

/// Completes a login: takes the session out of the store, so that it is redeemed at most
/// once, and returns its record.
pub fn complete_auth(store: &mut SessionStore<SessionRecord>, session_id: &str, now: u64) -> (r:
    Result<SessionRecord, CompleteError>)
    requires
        old(store).wf(),
    ensures
        final(store).wf(),
        final(store)@ == old(store)@.remove(session_id@),
        match take_result(old(store)@, session_id@, now as nat) {
            Some(rec) => r == Ok::<SessionRecord, CompleteError>(rec),
            None => r == Err::<SessionRecord, CompleteError>(
                if old(store)@.contains_key(session_id@) {
                    CompleteError::Expired
                } else {
                    CompleteError::UnknownSession
                },
            ),
        },
{
    let stored = store.contains(session_id);
    match store.take(session_id, now) {
        Some(rec) => Ok(rec),
        None => if stored {
            Err(CompleteError::Expired)
        } else {
            Err(CompleteError::UnknownSession)
        },
    }
}

/// A session stored with `put` is returned by exactly one `take`: the first take before
/// it expires returns its record, and every take after that returns nothing.
pub proof fn lemma_take_once<V>(
    m: Map<Seq<char>, (V, nat)>,
    id: Seq<char>,
    record: V,
    expires_at: nat,
    now1: nat,
    now2: nat,
)
    requires
        now1 < expires_at,
    ensures
        take_result(m.insert(id, (record, expires_at)), id, now1) == Some(record),
        take_result(m.insert(id, (record, expires_at)).remove(id), id, now2) is None,
{
}

} // verus!

//! The table of the peers connected to the relay, keyed by their readable
//! peer id. Each registration carries the number of the connection that made
//! it, so that a closing connection removes its own entry only.
use vstd::prelude::*;
use vstd::string::*;
use vstd::utf8::*;

verus! {

/// Compares two strings by their bytes.
pub fn str_eq(a: &str, b: &str) -> (r: bool)
    ensures
        r == (a@ == b@),
{
    let x = a.as_bytes();
    let y = b.as_bytes();
    proof {
        broadcast use encode_utf8_decode_utf8;
        if a@ == b@ {
            assert(x@ == y@);
        }
    }
    if x.len() != y.len() {
        return false;
    }
    let n = x.len();
    for i in 0..n
        invariant
            n == x@.len(),
            n == y@.len(),
            a@ == b@ ==> x@ == y@,
            forall|j: int| 0 <= j < i ==> x@[j] == y@[j],
    {
        if x[i] != y[i] {
            return false;
        }
    }
    proof {
        broadcast use encode_utf8_decode_utf8;
        assert(x@ =~= y@);
        assert(decode_utf8(encode_utf8(a@)) == a@);
        assert(decode_utf8(encode_utf8(b@)) == b@);
    }
    true
}

/// One registration: the readable peer id, the number of the connection that
/// registered it, and its sending half.
struct PeerEntry<T> {
    peer_id: String,
    conn: u64,
    peer_tx: T,
}

/// The peer table after the connection `conn` deregisters `peer_id`.
pub open spec fn spec_delete<T>(peers: Map<Seq<char>, (u64, T)>, peer_id: Seq<char>, conn: u64) -> Map<
    Seq<char>,
    (u64, T),
> {
    if peers.contains_key(peer_id) && peers[peer_id].0 == conn {
        peers.remove(peer_id)
    } else {
        peers
    }
}

/// The peers connected to the relay.
pub struct Store<T> {
    peers: Vec<PeerEntry<T>>,
}

impl<T> View for Store<T> {
    type V = Map<Seq<char>, (u64, T)>;

    /// Each peer id maps to the connection number and the sending half
    /// registered for it.
    closed spec fn view(&self) -> Map<Seq<char>, (u64, T)> {
        Map::new(
            |k: Seq<char>| exists|i: int| 0 <= i < self.peers@.len() && #[trigger] self.peers@[i].peer_id@ == k,
            |k: Seq<char>|
                {
                    let i = choose|i: int| 0 <= i < self.peers@.len() && #[trigger] self.peers@[i].peer_id@ == k;
                    (self.peers@[i].conn, self.peers@[i].peer_tx)
                },
        )
    }
}

impl<T> Store<T> {
    /// No peer id is registered twice.
    pub closed spec fn wf(&self) -> bool {
        forall|i: int, j: int|
            0 <= i < j < self.peers@.len() ==> #[trigger] self.peers@[i].peer_id@
                != #[trigger] self.peers@[j].peer_id@
    }

    proof fn lemma_view_at(&self, i: int)
        requires
            self.wf(),
            0 <= i < self.peers@.len(),
        ensures
            self@.contains_key(self.peers@[i].peer_id@),
            self@[self.peers@[i].peer_id@] == (self.peers@[i].conn, self.peers@[i].peer_tx),
    {
        let k = self.peers@[i].peer_id@;
        assert(self.peers@[i].peer_id@ == k);
        let j = choose|j: int| 0 <= j < self.peers@.len() && #[trigger] self.peers@[j].peer_id@ == k;
        if j != i {
            if j < i {
                assert(self.peers@[j].peer_id@ != self.peers@[i].peer_id@);
            } else {
                assert(self.peers@[i].peer_id@ != self.peers@[j].peer_id@);
            }
        }
    }

    proof fn lemma_view_absent(&self, k: Seq<char>)
        requires
            forall|i: int| 0 <= i < self.peers@.len() ==> self.peers@[i].peer_id@ != k,
        ensures
            !self@.contains_key(k),
    {
    }

    /// The number of registered peers.
    pub closed spec fn spec_len(&self) -> nat {
        self.peers@.len()
    }

    proof fn lemma_len(&self)
        requires
            self.wf(),
        ensures
            self@.dom().finite(),
            self@.dom().len() == self.spec_len(),
        decreases self.peers@.len(),
    {
        let keys = self.peers@.map_values(|e: PeerEntry<T>| e.peer_id@);
        assert forall|i: int, j: int| 0 <= i < j < keys.len() implies keys[i] != keys[j] by {
            assert(self.peers@[i].peer_id@ != self.peers@[j].peer_id@);
        }
        assert(keys.no_duplicates());
        assert forall|k: Seq<char>| self@.dom().contains(k) <==> keys.to_set().contains(k) by {
            if self@.dom().contains(k) {
                let i = choose|i: int| 0 <= i < self.peers@.len() && #[trigger] self.peers@[i].peer_id@ == k;
                assert(keys[i] == k);
            }
            if keys.to_set().contains(k) {
                let i = choose|i: int| 0 <= i < keys.len() && keys[i] == k;
                self.lemma_view_at(i);
            }
        }
        assert(self@.dom() =~= keys.to_set());
        keys.unique_seq_to_set();
    }

    /// Creates an empty store.
    pub fn new() -> (r: Self)
        ensures
            r.wf(),
            r@ == Map::<Seq<char>, (u64, T)>::empty(),
    {
        let r = Store { peers: Vec::new() };
        assert(r@ =~= Map::<Seq<char>, (u64, T)>::empty());
        r
    }

    /// The position of `peer_id` in the table.
    fn find(&self, peer_id: &str) -> (r: Option<usize>)
        requires
            self.wf(),
        ensures
            match r {
                Some(i) => i < self.peers@.len() && self.peers@[i as int].peer_id@ == peer_id@,
                None => forall|i: int|
                    0 <= i < self.peers@.len() ==> self.peers@[i].peer_id@ != peer_id@,
            },
    {
        let n = self.peers.len();
        for i in 0..n
            invariant
                n == self.peers@.len(),
                forall|j: int| 0 <= j < i ==> self.peers@[j].peer_id@ != peer_id@,
        {
            if str_eq(self.peers[i].peer_id.as_str(), peer_id) {
                return Some(i);
            }
        }
        None
    }

    /// Registers `peer_tx` as the sending half of `peer_id` for the connection
    /// `conn`. A peer that registers again under the same id replaces the
    /// earlier registration.
    pub fn add_peer(&mut self, peer_id: String, conn: u64, peer_tx: T)
        requires
            old(self).wf(),
        ensures
            final(self).wf(),
            final(self)@ == old(self)@.insert(peer_id@, (conn, peer_tx)),
    {
        let ghost key = peer_id@;
        let ghost old_self = *self;
        match self.find(peer_id.as_str()) {
            Some(i) => {
                self.peers.set(i, PeerEntry { peer_id, conn, peer_tx });
                proof {
                    assert(self.peers@ == old_self.peers@.update(i as int, PeerEntry { peer_id: self.peers@[i as int].peer_id, conn, peer_tx }));
                    assert forall|a: int, b: int|
                        0 <= a < b < self.peers@.len() implies #[trigger] self.peers@[a].peer_id@
                        != #[trigger] self.peers@[b].peer_id@ by {
                        assert(old_self.peers@[a].peer_id@ != old_self.peers@[b].peer_id@);
                    }
                    self.lemma_view_at(i as int);
                    assert forall|k: Seq<char>| self@.contains_key(k) <==> old_self@.insert(key, (conn, peer_tx)).contains_key(k) by {
                        if self@.contains_key(k) {
                            let j = choose|j: int| 0 <= j < self.peers@.len() && #[trigger] self.peers@[j].peer_id@ == k;
                            if j != i {
                                old_self.lemma_view_at(j);
                            }
                        }
                        if old_self@.contains_key(k) && k != key {
                            let j = choose|j: int| 0 <= j < old_self.peers@.len() && #[trigger] old_self.peers@[j].peer_id@ == k;
                            self.lemma_view_at(j);
                        }
                    }
                    assert forall|k: Seq<char>| #[trigger] self@.contains_key(k) implies self@[k] == old_self@.insert(key, (conn, peer_tx))[k] by {
                        if k != key {
                            let j = choose|j: int| 0 <= j < self.peers@.len() && #[trigger] self.peers@[j].peer_id@ == k;
                            self.lemma_view_at(j);
                            old_self.lemma_view_at(j);
                        }
                    }
                    assert(self@ =~= old_self@.insert(key, (conn, peer_tx)));
                }
            },
            None => {
                self.peers.push(PeerEntry { peer_id, conn, peer_tx });
                proof {
                    let n = old_self.peers@.len() as int;
                    assert(self.peers@ == old_self.peers@.push(self.peers@[n]));
                    assert forall|a: int, b: int|
                        0 <= a < b < self.peers@.len() implies #[trigger] self.peers@[a].peer_id@
                        != #[trigger] self.peers@[b].peer_id@ by {
                        if b < n {
                            assert(old_self.peers@[a].peer_id@ != old_self.peers@[b].peer_id@);
                        }
                    }
                    self.lemma_view_at(n);
                    assert forall|k: Seq<char>| self@.contains_key(k) <==> old_self@.insert(key, (conn, peer_tx)).contains_key(k) by {
                        if self@.contains_key(k) {
                            let j = choose|j: int| 0 <= j < self.peers@.len() && #[trigger] self.peers@[j].peer_id@ == k;
                            if j != n {
                                old_self.lemma_view_at(j);
                            }
                        }
                        if old_self@.contains_key(k) {
                            let j = choose|j: int| 0 <= j < old_self.peers@.len() && #[trigger] old_self.peers@[j].peer_id@ == k;
                            self.lemma_view_at(j);
                        }
                    }
                    assert forall|k: Seq<char>| #[trigger] self@.contains_key(k) implies self@[k] == old_self@.insert(key, (conn, peer_tx))[k] by {
                        if k != key {
                            let j = choose|j: int| 0 <= j < self.peers@.len() && #[trigger] self.peers@[j].peer_id@ == k;
                            self.lemma_view_at(j);
                            old_self.lemma_view_at(j);
                        }
                    }
                    assert(self@ =~= old_self@.insert(key, (conn, peer_tx)));
                }
            },
        }
    }

    /// Removes the registration of `peer_id` when the connection `conn` made
    /// it; a registration made by another connection stays.
    pub fn delete_peer(&mut self, peer_id: &str, conn: u64)
        requires
            old(self).wf(),
        ensures
            final(self).wf(),
            final(self)@ == spec_delete(old(self)@, peer_id@, conn),
    {
        let ghost key = peer_id@;
        let ghost old_self = *self;
        match self.find(peer_id) {
            None => {
                proof {
                    old_self.lemma_view_absent(key);
                }
            },
            Some(i) => {
                proof {
                    old_self.lemma_view_at(i as int);
                }
                if self.peers[i].conn != conn {
                    return;
                }
                self.peers.remove(i);
                proof {
                    let n = old_self.peers@.len() as int;
                    assert(self.peers@ == old_self.peers@.remove(i as int));
                    assert forall|a: int, b: int|
                        0 <= a < b < self.peers@.len() implies #[trigger] self.peers@[a].peer_id@
                        != #[trigger] self.peers@[b].peer_id@ by {
                        let a0 = if a < i { a } else { a + 1 };
                        let b0 = if b < i { b } else { b + 1 };
                        assert(self.peers@[a] == old_self.peers@[a0]);
                        assert(self.peers@[b] == old_self.peers@[b0]);
                        assert(old_self.peers@[a0].peer_id@ != old_self.peers@[b0].peer_id@);
                    }
                    assert forall|k: Seq<char>| self@.contains_key(k) <==> old_self@.remove(key).contains_key(k) by {
                        if self@.contains_key(k) {
                            let j = choose|j: int| 0 <= j < self.peers@.len() && #[trigger] self.peers@[j].peer_id@ == k;
                            let j0 = if j < i { j } else { j + 1 };
                            assert(self.peers@[j] == old_self.peers@[j0]);
                            old_self.lemma_view_at(j0);
                            if j < i {
                                assert(old_self.peers@[j0].peer_id@ != old_self.peers@[i as int].peer_id@);
                            } else {
                                assert(old_self.peers@[i as int].peer_id@ != old_self.peers@[j0].peer_id@);
                            }
                        }
                        if old_self@.contains_key(k) && k != key {
                            let j = choose|j: int| 0 <= j < old_self.peers@.len() && #[trigger] old_self.peers@[j].peer_id@ == k;
                            assert(j != i);
                            let j1 = if j < i { j } else { j - 1 };
                            assert(self.peers@[j1] == old_self.peers@[j]);
                            self.lemma_view_at(j1);
                        }
                    }
                    assert forall|k: Seq<char>| #[trigger] self@.contains_key(k) implies self@[k] == old_self@.remove(key)[k] by {
                        let j = choose|j: int| 0 <= j < self.peers@.len() && #[trigger] self.peers@[j].peer_id@ == k;
                        let j0 = if j < i { j } else { j + 1 };
                        assert(self.peers@[j] == old_self.peers@[j0]);
                        self.lemma_view_at(j);
                        old_self.lemma_view_at(j0);
                    }
                    assert(self@ =~= old_self@.remove(key));
                }
            },
        }
    }

    /// Returns the sending half registered for `id`.
    pub fn get_peer(&self, id: &str) -> (r: Option<&T>)
        requires
            self.wf(),
        ensures
            match r {
                Some(tx) => self@.contains_key(id@) && *tx == self@[id@].1,
                None => !self@.contains_key(id@),
            },
    {
        match self.find(id) {
            Some(i) => {
                proof {
                    self.lemma_view_at(i as int);
                }
                Some(&self.peers[i].peer_tx)
            },
            None => {
                proof {
                    self.lemma_view_absent(id@);
                }
                None
            },
        }
    }

    /// Whether a peer is registered under `id`.
    pub fn contains_peer(&self, id: &str) -> (r: bool)
        requires
            self.wf(),
        ensures
            r == self@.contains_key(id@),
    {
        self.get_peer(id).is_some()
    }

    /// The number of registered peers.
    pub fn len(&self) -> (r: usize)
        requires
            self.wf(),
        ensures
            r == self@.dom().len(),
    {
        proof {
            self.lemma_len();
        }
        self.peers.len()
    }

    /// Returns the sending halves of all the registered peers, one per peer
    /// id, in no particular order.
    pub fn get_all_peers(&self) -> (r: Vec<&T>)
        requires
            self.wf(),
        ensures
            exists|keys: Seq<Seq<char>>|
                {
                    &&& keys.len() == r@.len()
                    &&& keys.no_duplicates()
                    &&& forall|k: Seq<char>| #[trigger] keys.contains(k) <==> self@.contains_key(k)
                    &&& forall|i: int| 0 <= i < keys.len() ==> *r@[i] == self@[#[trigger] keys[i]].1
                },
    {
        let mut r: Vec<&T> = Vec::new();
        let n = self.peers.len();
        let ghost keys = self.peers@.map_values(|e: PeerEntry<T>| e.peer_id@);
        for i in 0..n
            invariant
                n == self.peers@.len(),
                self.wf(),
                keys == self.peers@.map_values(|e: PeerEntry<T>| e.peer_id@),
                r@.len() == i,
                forall|j: int| 0 <= j < i ==> *r@[j] == self.peers@[j].peer_tx,
        {
            r.push(&self.peers[i].peer_tx);
        }
        proof {
            assert forall|a: int, b: int| 0 <= a < b < keys.len() implies keys[a] != keys[b] by {
                assert(self.peers@[a].peer_id@ != self.peers@[b].peer_id@);
            }
            assert forall|k: Seq<char>| #[trigger] keys.contains(k) <==> self@.contains_key(k) by {
                if keys.contains(k) {
                    let j = choose|j: int| 0 <= j < keys.len() && keys[j] == k;
                    self.lemma_view_at(j);
                }
                if self@.contains_key(k) {
                    let j = choose|j: int| 0 <= j < self.peers@.len() && #[trigger] self.peers@[j].peer_id@ == k;
                    assert(keys[j] == k);
                }
            }
            assert forall|i: int| 0 <= i < keys.len() implies *r@[i] == self@[#[trigger] keys[i]].1 by {
                self.lemma_view_at(i);
            }
        }
        r
    }
}


/// A registration can be looked up under its peer id until it is removed.
pub proof fn lemma_registration_visible<T>(peers: Map<Seq<char>, (u64, T)>, peer_id: Seq<char>, conn: u64, peer_tx: T)
    ensures
        peers.insert(peer_id, (conn, peer_tx)).contains_key(peer_id),
        peers.insert(peer_id, (conn, peer_tx))[peer_id] == (conn, peer_tx),
{
}

/// A connection that deregisters its own registration leaves no entry for
/// its peer id.
pub proof fn lemma_register_then_deregister<T>(peers: Map<Seq<char>, (u64, T)>, peer_id: Seq<char>, conn: u64, peer_tx: T)
    ensures
        spec_delete(peers.insert(peer_id, (conn, peer_tx)), peer_id, conn) == peers.remove(peer_id),
        !spec_delete(peers.insert(peer_id, (conn, peer_tx)), peer_id, conn).contains_key(peer_id),
{
    assert(peers.insert(peer_id, (conn, peer_tx)).remove(peer_id) =~= peers.remove(peer_id));
}

/// A connection that closes after another connection registered the same
/// peer id leaves the newer registration in place.
pub proof fn lemma_stale_deregister_keeps_newer<T>(
    peers: Map<Seq<char>, (u64, T)>,
    peer_id: Seq<char>,
    conn: u64,
    peer_tx: T,
    stale_conn: u64,
)
    requires
        stale_conn != conn,
    ensures
        spec_delete(peers.insert(peer_id, (conn, peer_tx)), peer_id, stale_conn) == peers.insert(
            peer_id,
            (conn, peer_tx),
        ),
{
}

/// Registering again under the same peer id replaces the earlier
/// registration.
pub proof fn lemma_reregister_replaces<T>(
    peers: Map<Seq<char>, (u64, T)>,
    peer_id: Seq<char>,
    conn1: u64,
    tx1: T,
    conn2: u64,
    tx2: T,
)
    ensures
        peers.insert(peer_id, (conn1, tx1)).insert(peer_id, (conn2, tx2)) == peers.insert(
            peer_id,
            (conn2, tx2),
        ),
{
    assert(peers.insert(peer_id, (conn1, tx1)).insert(peer_id, (conn2, tx2)) =~= peers.insert(
        peer_id,
        (conn2, tx2),
    ));
}

/// Deregistering a peer leaves every other peer's registration as it was.
pub proof fn lemma_deregister_keeps_others<T>(
    peers: Map<Seq<char>, (u64, T)>,
    peer_id: Seq<char>,
    conn: u64,
    other: Seq<char>,
)
    requires
        other != peer_id,
    ensures
        spec_delete(peers, peer_id, conn).contains_key(other) == peers.contains_key(other),
        peers.contains_key(other) ==> spec_delete(peers, peer_id, conn)[other] == peers[other],
{
}


/// A call that changes the peer table: `add_peer` or `delete_peer`.
pub enum StoreOp<T> {
    /// `add_peer(peer_id, conn, peer_tx)`.
    Add(Seq<char>, u64, T),
    /// `delete_peer(peer_id, conn)`.
    Delete(Seq<char>, u64),
}

/// The peer table after one call, as `add_peer` and `delete_peer` state it.
pub open spec fn apply_op<T>(peers: Map<Seq<char>, (u64, T)>, op: StoreOp<T>) -> Map<
    Seq<char>,
    (u64, T),
> {
    match op {
        StoreOp::Add(peer_id, conn, peer_tx) => peers.insert(peer_id, (conn, peer_tx)),
        StoreOp::Delete(peer_id, conn) => spec_delete(peers, peer_id, conn),
    }
}

/// The peer table after a sequence of calls, starting from `peers`.
pub open spec fn apply_ops<T>(peers: Map<Seq<char>, (u64, T)>, ops: Seq<StoreOp<T>>) -> Map<
    Seq<char>,
    (u64, T),
>
    decreases ops.len(),
{
    if ops.len() == 0 {
        peers
    } else {
        apply_op(apply_ops(peers, ops.drop_last()), ops.last())
    }
}

/// Whether the call registers `peer_id`.
pub open spec fn op_adds<T>(op: StoreOp<T>, peer_id: Seq<char>) -> bool {
    op matches StoreOp::Add(k, _, _) && k == peer_id
}

/// Whether the call deregisters `peer_id` for the connection `conn`.
pub open spec fn op_deletes<T>(op: StoreOp<T>, peer_id: Seq<char>, conn: u64) -> bool {
    op matches StoreOp::Delete(k, c) && k == peer_id && c == conn
}

/// The connection number of a call.
pub open spec fn op_conn<T>(op: StoreOp<T>) -> u64 {
    match op {
        StoreOp::Add(_, conn, _) => conn,
        StoreOp::Delete(_, conn) => conn,
    }
}

/// The sending half that a registration carries.
pub open spec fn op_tx<T>(op: StoreOp<T>) -> T
    recommends
        op is Add,
{
    match op {
        StoreOp::Add(_, _, peer_tx) => peer_tx,
        StoreOp::Delete(_, _) => arbitrary(),
    }
}

/// Call `i` is the last registration of `peer_id`, and its connection has not
/// deregistered it since.
pub open spec fn live_registration<T>(ops: Seq<StoreOp<T>>, peer_id: Seq<char>, i: int) -> bool {
    &&& 0 <= i < ops.len()
    &&& op_adds(ops[i], peer_id)
    &&& forall|j: int|
        i < j < ops.len() ==> !op_adds(#[trigger] ops[j], peer_id) && !op_deletes(
            ops[j],
            peer_id,
            op_conn(ops[i]),
        )
}

proof fn lemma_live_registration_unique<T>(ops: Seq<StoreOp<T>>, peer_id: Seq<char>, i: int, k: int)
    requires
        live_registration(ops, peer_id, i),
        live_registration(ops, peer_id, k),
    ensures
        i == k,
{
    if i < k {
        assert(!op_adds(ops[k], peer_id));
    } else if k < i {
        assert(!op_adds(ops[i], peer_id));
    }
}

/// After any sequence of `add_peer` and `delete_peer` calls on a new store, a
/// peer id maps to its last registration unless the connection that made it
/// has deregistered it since; otherwise it is absent.
pub proof fn lemma_store_history<T>(ops: Seq<StoreOp<T>>, peer_id: Seq<char>)
    ensures
        apply_ops(Map::<Seq<char>, (u64, T)>::empty(), ops).contains_key(peer_id) <==> exists|i: int|
            #[trigger] live_registration(ops, peer_id, i),
        forall|i: int|
            #[trigger] live_registration(ops, peer_id, i) ==> apply_ops(
                Map::<Seq<char>, (u64, T)>::empty(),
                ops,
            )[peer_id] == (op_conn(ops[i]), op_tx(ops[i])),
    decreases ops.len(),
{
    let empty = Map::<Seq<char>, (u64, T)>::empty();
    if ops.len() == 0 {
        return;
    }
    let prefix = ops.drop_last();
    let n = ops.len() - 1;
    let last = ops.last();
    lemma_store_history(prefix, peer_id);
    let before = apply_ops(empty, prefix);
    let after = apply_ops(empty, ops);
    assert(after == apply_op(before, last));
    // A live registration of the whole sequence before its last call is one
    // of the prefix too.
    assert forall|i: int| 0 <= i < n && #[trigger] live_registration(ops, peer_id, i) implies live_registration(prefix, peer_id, i) by {
        assert forall|j: int| i < j < prefix.len() implies !op_adds(#[trigger] prefix[j], peer_id)
            && !op_deletes(prefix[j], peer_id, op_conn(prefix[i])) by {
            assert(prefix[j] == ops[j]);
        }
    }
    if op_adds(last, peer_id) {
        assert(live_registration(ops, peer_id, n));
        assert forall|i: int| #[trigger] live_registration(ops, peer_id, i) implies after[peer_id] == (
            op_conn(ops[i]),
            op_tx(ops[i]),
        ) by {
            lemma_live_registration_unique(ops, peer_id, i, n);
        }
    } else {
        // The last call does not register `peer_id`.
        assert(!live_registration(ops, peer_id, n));
        let deletes_live = match last {
            StoreOp::Delete(k, c) => k == peer_id && before.contains_key(peer_id) && before[peer_id].0
                == c,
            _ => false,
        };
        if deletes_live {
            assert(!after.contains_key(peer_id));
            let w = choose|w: int| #[trigger] live_registration(prefix, peer_id, w);
            assert forall|i: int| !#[trigger] live_registration(ops, peer_id, i) by {
                if live_registration(ops, peer_id, i) {
                    lemma_live_registration_unique(prefix, peer_id, i, w);
                    assert(op_deletes(ops[n], peer_id, op_conn(ops[i])));
                }
            }
        } else {
            assert(after.contains_key(peer_id) == before.contains_key(peer_id));
            assert(before.contains_key(peer_id) ==> after[peer_id] == before[peer_id]);
            // A live registration of the prefix stays live.
            assert forall|i: int| #[trigger] live_registration(prefix, peer_id, i) implies live_registration(ops, peer_id, i) by {
                assert forall|j: int| i < j < ops.len() implies !op_adds(#[trigger] ops[j], peer_id)
                    && !op_deletes(ops[j], peer_id, op_conn(ops[i])) by {
                    if j < n {
                        assert(prefix[j] == ops[j]);
                    } else {
                        assert(prefix[i] == ops[i]);
                    }
                }
            }
            assert forall|i: int| #[trigger] live_registration(ops, peer_id, i) implies after[peer_id] == (
                op_conn(ops[i]),
                op_tx(ops[i]),
            ) by {
                assert(prefix[i] == ops[i]);
            }
            if after.contains_key(peer_id) {
                let w = choose|w: int| #[trigger] live_registration(prefix, peer_id, w);
                assert(live_registration(ops, peer_id, w));
            }
        }
    }
}

} // verus!

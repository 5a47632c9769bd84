//! Cluster membership by gossip: signed messages, the table of known peers,
//! and the storage updates peers share.

use vstd::prelude::*;

use crate::storage::Storage;
use hmac::Mac;
use vstd::string::StringSliceAdditionalSpecFns;
use vstd::utf8::encode_utf8;

verus! {

/// A gossip message between nodes.
#[derive(Debug, Clone)]
pub enum GossipMessage {
    /// A node announces itself and the address peers reach it at.
    Hello { node_id: String, rpc_addr: String },
    /// A node is still alive.
    Heartbeat { node_id: String, timestamp: u64 },
    /// A node leaves the cluster.
    Goodbye { node_id: String, timestamp: u64 },
    /// A key of the shared storage changed.
    StorageUpdate { key: String, value: Vec<u8>, timestamp: u64 },
}

/// A known peer.
#[derive(Debug, Clone)]
pub struct PeerNode {
    pub id: String,
    pub rpc_addr: String,
    pub last_seen: u64,
}

/// What a peer entry holds.
pub struct PeerView {
    pub id: Seq<char>,
    pub rpc_addr: Seq<char>,
    pub last_seen: u64,
}

impl View for PeerNode {
    type V = PeerView;

    open spec fn view(&self) -> PeerView {
        PeerView { id: self.id@, rpc_addr: self.rpc_addr@, last_seen: self.last_seen }
    }
}

/// The lower-case hexadecimal digit of a value below sixteen.
pub open spec fn hex_digit(n: u8) -> char {
    if n < 10 {
        (('0' as u8) + n) as char
    } else {
        (('a' as u8) + (n - 10)) as char
    }
}

/// Bytes written as lower-case hexadecimal, two digits per byte, high
/// nibble first.
pub open spec fn hex_lower(bytes: Seq<u8>) -> Seq<char>
    decreases bytes.len(),
{
    if bytes.len() == 0 {
        Seq::empty()
    } else {
        hex_lower(bytes.drop_last()) + seq![hex_digit(bytes.last() / 16), hex_digit(bytes.last() % 16)]
    }
}

/// The HMAC-SHA256 tag of `data` under `key`.
pub uninterp spec fn hmac_sha256_tag(key: Seq<u8>, data: Seq<u8>) -> Seq<u8>;

/// HMAC-SHA256 with the `hmac` and `sha2` crates: `Hmac::<Sha256>::new_from_slice`
/// (which accepts a key of any length), `update` with `data`, `finalize`,
/// `into_bytes`. Claimed: the result is `hmac_sha256_tag(key, data)`, 32
/// bytes long.
#[verifier::external_body]
fn hmac_sha256(key: &[u8], data: &[u8]) -> (r: Vec<u8>)
    ensures
        r@ == hmac_sha256_tag(key@, data@),
        r@.len() == 32,
{
    let mut mac = hmac::Hmac::<sha2::Sha256>::new_from_slice(key).expect("any key length");
    mac.update(data);
    mac.finalize().into_bytes().to_vec()
}

/// `hex::encode`: the bytes as lower-case hexadecimal, two digits per byte.
#[verifier::external_body]
fn hex_encode(data: &[u8]) -> (r: String)
    ensures
        r@ == hex_lower(data@),
{
    hex::encode(data)
}

/// The signature of a payload: the hexadecimal HMAC-SHA256 tag of its
/// encoding under the shared secret.
pub open spec fn signature_of(secret: Seq<u8>, payload_bytes: Seq<u8>) -> Seq<char> {
    hex_lower(hmac_sha256_tag(secret, payload_bytes))
}

/// A message one node signs is accepted by every node that holds the same
/// secret: the signature is a function of the secret and the payload's
/// encoding alone.
pub proof fn law_signed_by_peer_is_accepted(
    signer_secret: Seq<u8>,
    receiver_secret: Seq<u8>,
    payload_bytes: Seq<u8>,
    sig: Seq<char>,
)
    requires
        sig == signature_of(signer_secret, payload_bytes),
        receiver_secret == signer_secret,
    ensures
        sig == signature_of(receiver_secret, payload_bytes),
{
}

/// A gossip message with the signature of its encoding.
#[derive(Debug, Clone)]
pub struct SignedMessage {
    pub sig: String,
    pub payload: GossipMessage,
}

impl SignedMessage {
    /// Sign `payload`, whose JSON encoding is `payload_bytes`, with
    /// `secret`.
    pub fn new(payload: GossipMessage, payload_bytes: &[u8], secret: &[u8]) -> (r: SignedMessage)
        ensures
            r.payload == payload,
            r.sig@ == signature_of(secret@, payload_bytes@),
    {
        let tag = hmac_sha256(secret, payload_bytes);
        let sig = hex_encode(tag.as_slice());
        SignedMessage { sig, payload }
    }

    /// Whether the signature is that of `payload_bytes`, the JSON encoding
    /// of the payload, under `secret`.
    pub fn verify(&self, payload_bytes: &[u8], secret: &[u8]) -> (r: bool)
        ensures
            r == (self.sig@ == signature_of(secret@, payload_bytes@)),
    {
        let tag = hmac_sha256(secret, payload_bytes);
        let expected = hex_encode(tag.as_slice());
        self.sig == expected
    }
}


/// No two entries of a peer table share a node identifier.
pub open spec fn peers_distinct(peers: Seq<(Seq<char>, PeerView)>) -> bool {
    forall|i: int, j: int|
        0 <= i < peers.len() && 0 <= j < peers.len() && i != j ==> (#[trigger] peers[i]).0 != (#[trigger] peers[j]).0
}

/// The position of node `id` in a peer table, if it is there.
pub open spec fn peer_position(peers: Seq<(Seq<char>, PeerView)>, id: Seq<char>) -> Option<int> {
    if exists|i: int| 0 <= i < peers.len() && (#[trigger] peers[i]).0 == id {
        Some(choose|i: int| 0 <= i < peers.len() && (#[trigger] peers[i]).0 == id)
    } else {
        None
    }
}


/// The peer table after a hello from `id` reachable at `addr`, received at
/// `now`: the entry for `id` is replaced, or added at the end.
pub open spec fn peers_after_hello(
    peers: Seq<(Seq<char>, PeerView)>,
    id: Seq<char>,
    addr: Seq<char>,
    now: u64,
) -> Seq<(Seq<char>, PeerView)> {
    let entry = (id, PeerView { id: Seq::empty(), rpc_addr: addr, last_seen: now });
    match peer_position(peers, id) {
        Some(i) => peers.update(i, entry),
        None => peers.push(entry),
    }
}

/// The peer table after a heartbeat from `id` received at `now`: a known
/// peer's time is refreshed; an unknown sender changes nothing.
pub open spec fn peers_after_heartbeat(
    peers: Seq<(Seq<char>, PeerView)>,
    id: Seq<char>,
    now: u64,
) -> Seq<(Seq<char>, PeerView)> {
    match peer_position(peers, id) {
        Some(i) => peers.update(i, (id, PeerView { last_seen: now, ..peers[i].1 })),
        None => peers,
    }
}

/// The peer table after a goodbye from `id`: its entry is dropped.
pub open spec fn peers_after_goodbye(peers: Seq<(Seq<char>, PeerView)>, id: Seq<char>) -> Seq<(Seq<char>, PeerView)> {
    match peer_position(peers, id) {
        Some(i) => peers.remove(i),
        None => peers,
    }
}

/// The position of `id` in a table without repeated identifiers is the one
/// entry that holds it.
proof fn lemma_position_unique(peers: Seq<(Seq<char>, PeerView)>, id: Seq<char>, i: int)
    requires
        peers_distinct(peers),
        0 <= i < peers.len(),
        peers[i].0 == id,
    ensures
        peer_position(peers, id) == Some(i),
{
    let c = choose|k: int| 0 <= k < peers.len() && (#[trigger] peers[k]).0 == id;
    assert(c == i);
}

/// A hello makes its sender a known peer, at the address it gave and seen
/// at the time it arrived, and keeps identifiers unrepeated.
pub proof fn law_hello_makes_peer_known(peers: Seq<(Seq<char>, PeerView)>, id: Seq<char>, addr: Seq<char>, now: u64)
    requires
        peers_distinct(peers),
    ensures
        peers_distinct(peers_after_hello(peers, id, addr, now)),
        peer_position(peers_after_hello(peers, id, addr, now), id) is Some,
        ({
            let after = peers_after_hello(peers, id, addr, now);
            let p = peer_position(after, id)->0;
            after[p].1.rpc_addr == addr && after[p].1.last_seen == now
        }),
{
    let after = peers_after_hello(peers, id, addr, now);
    match peer_position(peers, id) {
        Some(i) => {
            assert(peers[i].0 == id);
            assert forall|a: int, b: int|
                0 <= a < after.len() && 0 <= b < after.len() && a != b implies (#[trigger] after[a]).0 != (#[trigger] after[b]).0 by {
                if a != i && b != i {
                    assert(after[a] == peers[a] && after[b] == peers[b]);
                } else if a == i {
                    assert(after[b] == peers[b]);
                } else {
                    assert(after[a] == peers[a]);
                }
            }
            lemma_position_unique(after, id, i);
        },
        None => {
            assert forall|k: int| 0 <= k < peers.len() implies (#[trigger] peers[k]).0 != id by {
                if peers[k].0 == id {
                    assert(exists|m: int| 0 <= m < peers.len() && (#[trigger] peers[m]).0 == id);
                }
            }
            assert forall|a: int, b: int|
                0 <= a < after.len() && 0 <= b < after.len() && a != b implies (#[trigger] after[a]).0 != (#[trigger] after[b]).0 by {
                if a < peers.len() && b < peers.len() {
                    assert(after[a] == peers[a] && after[b] == peers[b]);
                } else if a < peers.len() {
                    assert(after[a] == peers[a]);
                } else {
                    assert(after[b] == peers[b]);
                }
            }
            lemma_position_unique(after, id, peers.len() as int);
        },
    }
}

/// A goodbye makes its sender unknown and leaves identifiers unrepeated.
pub proof fn law_goodbye_forgets_peer(peers: Seq<(Seq<char>, PeerView)>, id: Seq<char>)
    requires
        peers_distinct(peers),
    ensures
        peers_distinct(peers_after_goodbye(peers, id)),
        peer_position(peers_after_goodbye(peers, id), id) is None,
{
    let after = peers_after_goodbye(peers, id);
    match peer_position(peers, id) {
        Some(i) => {
            assert(peers[i].0 == id);
            assert forall|a: int, b: int|
                0 <= a < after.len() && 0 <= b < after.len() && a != b implies (#[trigger] after[a]).0 != (#[trigger] after[b]).0 by {
                let pa = if a < i { a } else { a + 1 };
                let pb = if b < i { b } else { b + 1 };
                assert(after[a] == peers[pa] && after[b] == peers[pb]);
            }
            assert forall|k: int| 0 <= k < after.len() implies (#[trigger] after[k]).0 != id by {
                let pk = if k < i { k } else { k + 1 };
                assert(after[k] == peers[pk]);
            }
        },
        None => {
            assert forall|k: int| 0 <= k < peers.len() implies (#[trigger] peers[k]).0 != id by {
                if peers[k].0 == id {
                    assert(exists|m: int| 0 <= m < peers.len() && (#[trigger] peers[m]).0 == id);
                }
            }
        },
    }
}

/// The entries of a peer table as plain values.
pub open spec fn peers_view(peers: Seq<(String, PeerNode)>) -> Seq<(Seq<char>, PeerView)> {
    peers.map_values(|e: (String, PeerNode)| (e.0@, e.1@))
}

/// The position of node `id` in a peer table.
fn find_peer(peers: &Vec<(String, PeerNode)>, id: &String) -> (r: Option<usize>)
    requires
        peers_distinct(peers_view(peers@)),
    ensures
        match r {
            Some(i) => peer_position(peers_view(peers@), id@) == Some(i as int),
            None => peer_position(peers_view(peers@), id@) is None,
        },
{
    let ghost pv = peers_view(peers@);
    let mut i: usize = 0;
    while i < peers.len()
        invariant
            i <= peers@.len(),
            pv == peers_view(peers@),
            peers_distinct(pv),
            forall|j: int| 0 <= j < i ==> (#[trigger] pv[j]).0 != id@,
        decreases peers@.len() - i,
    {
        if peers[i].0 == *id {
            proof {
                assert(pv[i as int].0 == id@);
                lemma_position_unique(pv, id@, i as int);
            }
            return Some(i);
        }
        proof {
            assert(pv[i as int].0 != id@);
        }
        i = i + 1;
    }
    None
}

/// The gossip state of this node: who it is, the peers it knows (each under
/// its node identifier), the storage peers update, and the shared secret.
pub struct ClusterManager {
    node_id: String,
    bind_addr: String,
    peers: Vec<(String, PeerNode)>,
    storage: Storage,
    secret_key: Vec<u8>,
}

/// What a cluster manager holds.
pub struct ClusterView {
    pub node_id: Seq<char>,
    pub bind_addr: Seq<char>,
    pub peers: Seq<(Seq<char>, PeerView)>,
    pub storage: Map<Seq<char>, Seq<u8>>,
    pub secret_key: Seq<u8>,
}

impl View for ClusterManager {
    type V = ClusterView;

    closed spec fn view(&self) -> ClusterView {
        ClusterView {
            node_id: self.node_id@,
            bind_addr: self.bind_addr@,
            peers: peers_view(self.peers@),
            storage: self.storage@,
            secret_key: self.secret_key@,
        }
    }
}

/// The secret used when none is configured.
pub open spec fn default_secret() -> Seq<char> {
    "default-insecure-secret"@
}

/// The bytes of a string.
fn bytes_of(s: &str) -> (r: Vec<u8>)
    ensures
        r@ == s.spec_bytes(),
{
    let b = s.as_bytes();
    let mut v: Vec<u8> = Vec::new();
    let mut i: usize = 0;
    while i < b.len()
        invariant
            i <= b@.len(),
            b@ == s.spec_bytes(),
            v@ == b@.take(i as int),
        decreases b@.len() - i,
    {
        v.push(b[i]);
        proof {
            assert(v@ =~= b@.take(i + 1));
        }
        i = i + 1;
    }
    proof {
        assert(v@ =~= b@);
    }
    v
}

impl ClusterManager {
    #[verifier::type_invariant]
    closed spec fn inv(self) -> bool {
        peers_distinct(peers_view(self.peers@))
    }

    /// Gossip state for node `node_id` reachable at `bind_addr`, with no
    /// known peer; the secret is `secret_key`, or a fixed default secret.
    pub fn new(bind_addr: &str, node_id: &str, storage: Storage, secret_key: Option<String>) -> (r: ClusterManager)
        ensures
            r@.node_id == node_id@,
            r@.bind_addr == bind_addr@,
            r@.peers == Seq::<(Seq<char>, PeerView)>::empty(),
            r@.storage == storage@,
            match secret_key {
                Some(s) => r@.secret_key == encode_utf8(s@),
                None => r@.secret_key == encode_utf8(default_secret()),
            },
            peers_distinct(r@.peers),
    {
        let secret = match &secret_key {
            Some(s) => bytes_of(s.as_str()),
            None => {
                proof {
                    reveal_strlit("default-insecure-secret");
                }
                bytes_of("default-insecure-secret")
            },
        };
        let r = ClusterManager {
            node_id: node_id.to_string(),
            bind_addr: bind_addr.to_string(),
            peers: Vec::new(),
            storage,
            secret_key: secret,
        };
        assert(r@.peers =~= Seq::<(Seq<char>, PeerView)>::empty());
        r
    }

    /// Apply a gossip message received at time `now` (seconds): a hello
    /// records (or replaces) the sender as a peer seen now, a heartbeat
    /// refreshes a known peer's time, a goodbye forgets the peer, and a
    /// storage update is written to the shared storage.
    pub fn handle_message(&mut self, msg: GossipMessage, now: u64)
        ensures
            peers_distinct(final(self)@.peers),
            final(self)@.node_id == old(self)@.node_id,
            final(self)@.bind_addr == old(self)@.bind_addr,
            final(self)@.secret_key == old(self)@.secret_key,
            match msg {
                GossipMessage::Hello { node_id, rpc_addr } => {
                    &&& final(self)@.storage == old(self)@.storage
                    &&& final(self)@.peers == peers_after_hello(old(self)@.peers, node_id@, rpc_addr@, now)
                },
                GossipMessage::Heartbeat { node_id, .. } => {
                    &&& final(self)@.storage == old(self)@.storage
                    &&& final(self)@.peers == peers_after_heartbeat(old(self)@.peers, node_id@, now)
                },
                GossipMessage::Goodbye { node_id, .. } => {
                    &&& final(self)@.storage == old(self)@.storage
                    &&& final(self)@.peers == peers_after_goodbye(old(self)@.peers, node_id@)
                },
                GossipMessage::StorageUpdate { key, value, .. } => {
                    &&& final(self)@.storage == old(self)@.storage.insert(key@, value@)
                    &&& final(self)@.peers == old(self)@.peers
                },
            },
    {
        proof {
            use_type_invariant(&*self);
        }
        let ghost before = self@.peers;
        let mut peers: Vec<(String, PeerNode)> = Vec::new();
        std::mem::swap(&mut peers, &mut self.peers);
        match msg {
            GossipMessage::Hello { node_id, rpc_addr } => {
                let ghost key = node_id@;
                let ghost addr = rpc_addr@;
                let found = find_peer(&peers, &node_id);
                let peer = PeerNode { id: String::new(), rpc_addr, last_seen: now };
                match found {
                    Some(i) => {
                        peers.set(i, (node_id, peer));
                        proof {
                            assert(peers_view(peers@) =~= before.update(
                                i as int,
                                (key, PeerView { id: Seq::empty(), rpc_addr: addr, last_seen: now }),
                            ));
                        }
                    },
                    None => {
                        peers.push((node_id, peer));
                        proof {
                            assert(peers_view(peers@) =~= before.push(
                                (key, PeerView { id: Seq::empty(), rpc_addr: addr, last_seen: now }),
                            ));
                            assert forall|j: int| 0 <= j < before.len() implies (#[trigger] before[j]).0 != key by {
                                if before[j].0 == key {
                                    assert(exists|k: int| 0 <= k < before.len() && (#[trigger] before[k]).0 == key);
                                }
                            }
                        }
                    },
                }
            },
            GossipMessage::Heartbeat { node_id, timestamp } => {
                match find_peer(&peers, &node_id) {
                    Some(i) => {
                        let (k, p) = peers.remove(i);
                        let ghost kv = k@;
                        let updated = PeerNode { id: p.id, rpc_addr: p.rpc_addr, last_seen: now };
                        peers.insert(i, (k, updated));
                        proof {
                            let c = choose|m: int| 0 <= m < before.len() && (#[trigger] before[m]).0 == node_id@;
                            assert(before[i as int].0 == node_id@);
                            assert(kv == node_id@);
                            assert(peers_view(peers@) =~= before.update(
                                i as int,
                                (node_id@, PeerView { last_seen: now, ..before[i as int].1 }),
                            ));
                        }
                    },
                    None => {},
                }
            },
            GossipMessage::Goodbye { node_id, timestamp } => {
                match find_peer(&peers, &node_id) {
                    Some(i) => {
                        let _ = peers.remove(i);
                        proof {
                            assert(peers_view(peers@) =~= before.remove(i as int));
                        }
                    },
                    None => {},
                }
            },
            GossipMessage::StorageUpdate { key, value, timestamp } => {
                let mut storage = Storage::new();
                std::mem::swap(&mut storage, &mut self.storage);
                storage.put(key, value);
                self.storage = storage;
            },
        }
        self.peers = peers;
    }

    /// The addresses of the known peers, in table order.
    pub fn peer_addresses(&self) -> (r: Vec<String>)
        ensures
            r@.len() == self@.peers.len(),
            forall|i: int| 0 <= i < r@.len() ==> (#[trigger] r@[i])@ == self@.peers[i].1.rpc_addr,
    {
        let mut out: Vec<String> = Vec::new();
        let mut i: usize = 0;
        while i < self.peers.len()
            invariant
                i <= self.peers@.len(),
                out@.len() == i,
                forall|j: int| 0 <= j < i ==> (#[trigger] out@[j])@ == self@.peers[j].1.rpc_addr,
            decreases self.peers@.len() - i,
        {
            out.push(self.peers[i].1.rpc_addr.clone());
            i = i + 1;
        }
        out
    }

    /// The hello this node sends to a seed: its identifier and address.
    pub fn hello_message(&self) -> (r: GossipMessage)
        ensures
            r matches GossipMessage::Hello { node_id, rpc_addr } && node_id@ == self@.node_id && rpc_addr@
                == self@.bind_addr,
    {
        GossipMessage::Hello { node_id: self.node_id.clone(), rpc_addr: self.bind_addr.clone() }
    }

    /// The heartbeat this node sends at time `now` (seconds).
    pub fn heartbeat_message(&self, now: u64) -> (r: GossipMessage)
        ensures
            r matches GossipMessage::Heartbeat { node_id, timestamp } && node_id@ == self@.node_id
                && timestamp == now,
    {
        GossipMessage::Heartbeat { node_id: self.node_id.clone(), timestamp: now }
    }

    /// Sign `msg`, whose JSON encoding is `payload_bytes`, with this node's
    /// secret.
    pub fn sign(&self, msg: GossipMessage, payload_bytes: &[u8]) -> (r: SignedMessage)
        ensures
            r.payload == msg,
            r.sig@ == signature_of(self@.secret_key, payload_bytes@),
    {
        SignedMessage::new(msg, payload_bytes, self.secret_key.as_slice())
    }

    /// Whether a received message carries this node's signature of
    /// `payload_bytes`, the JSON encoding of its payload.
    pub fn accepts(&self, signed: &SignedMessage, payload_bytes: &[u8]) -> (r: bool)
        ensures
            r == (signed.sig@ == signature_of(self@.secret_key, payload_bytes@)),
    {
        signed.verify(payload_bytes, self.secret_key.as_slice())
    }

    /// The shared storage.
    pub fn storage(&self) -> (r: &Storage)
        ensures
            r@ == self@.storage,
    {
        &self.storage
    }
}

} // verus!

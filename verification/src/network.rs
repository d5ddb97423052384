//! Peer identities, the list of connected peers, and connection tokens
//! that carry a peer and a file id.
use vstd::prelude::*;
use vstd::string::*;
use vstd::utf8::*;
use crate::encoding::{
    base64_encode, base64_len_fits, base64_url_decoding, decode_base64_url,
    encode_url_safe_no_pad, lemma_base64_len_monotone, lemma_base64_url_decoding,
    lemma_encode_utf8_concat, lemma_encode_utf8_len, string_from_utf8,
};

verus! {

/// Longest base-58 text of a peer id.
pub const MAX_PEER_TEXT_LEN: usize = 100;

/// The bytes are a peer id that `libp2p` accepts (`PeerId::from_bytes`
/// succeeds on them).
pub uninterp spec fn peer_id_bytes_ok(bytes: Seq<u8>) -> bool;

/// The base-58 text of the peer id with these bytes (`PeerId::to_base58`).
pub uninterp spec fn peer_id_text(bytes: Seq<u8>) -> Seq<char>;

/// The bytes of the multiaddress that `libp2p` reads from `text`, or `None`
/// where it reads none.
pub uninterp spec fn multiaddr_from_text(text: Seq<char>) -> Option<Seq<u8>>;

/// The error type of peer id parsing.
#[verifier::external_type_specification]
#[verifier::external_body]
pub struct ExPeerIdParseError(libp2p::identity::ParseError);

/// `identity::Keypair::generate_ed25519()`, its public key turned into a
/// `PeerId` and that into bytes: the bytes of a fresh peer id, which
/// `PeerId::from_bytes` accepts. Which key is not stated.
#[verifier::external_body]
fn ed25519_peer_id_bytes() -> (r: Vec<u8>)
    ensures
        peer_id_bytes_ok(r@),
{
    let keypair = libp2p::identity::Keypair::generate_ed25519();
    libp2p::PeerId::from(keypair.public()).to_bytes()
}

/// `PeerId::from_bytes` followed by `to_base58`: succeeds exactly on the
/// bytes that `peer_id_bytes_ok` accepts, with the text that `peer_id_text`
/// names, written in the base-58 alphabet, which has no `:`. An accepted
/// peer id is a multihash of at most 66 bytes (a one-byte code, a one-byte
/// length and at most 64 bytes of digest), and base 58 writes fewer than 1.37
/// characters per byte, so the text has at most 100 characters.
#[verifier::external_body]
fn peer_id_base58(bytes: &[u8]) -> (r: Result<String, libp2p::identity::ParseError>)
    ensures
        r is Ok <==> peer_id_bytes_ok(bytes@),
        r matches Ok(t) ==> t@ == peer_id_text(bytes@),
        r matches Ok(t) ==> !t@.contains(':'),
        r matches Ok(t) ==> t@.len() <= MAX_PEER_TEXT_LEN,
{
    libp2p::PeerId::from_bytes(bytes).map(|p| p.to_base58())
}

/// `str::parse::<PeerId>` followed by `to_bytes`: what it reads is an
/// accepted peer id whose base-58 text is `text`; and it reads every
/// accepted peer id back from its text (base-58 decoding undoes encoding).
#[verifier::external_body]
fn peer_id_parse(text: &str) -> (r: Result<Vec<u8>, libp2p::identity::ParseError>)
    ensures
        r matches Ok(b) ==> peer_id_bytes_ok(b@) && peer_id_text(b@) == text@,
        forall|b: Seq<u8>|
            peer_id_bytes_ok(b) && #[trigger] peer_id_text(b) == text@ ==> (r is Ok && r->Ok_0@
                == b),
{
    text.parse::<libp2p::PeerId>().map(|p| p.to_bytes())
}

/// `str::parse::<Multiaddr>` followed by `to_vec`: the bytes that
/// `multiaddr_from_text` names. It reads every local TCP address that names
/// an accepted peer id: `127.0.0.1` is an IPv4 address, `3001` a port, and
/// the `p2p` part decodes the base-58 text back to the peer id's bytes,
/// which `PeerId::from_bytes` accepts.
#[verifier::external_body]
fn multiaddr_parse(text: &str) -> (r: Option<Vec<u8>>)
    ensures
        r is Some <==> multiaddr_from_text(text@) is Some,
        r matches Some(b) ==> multiaddr_from_text(text@) == Some(b@),
        forall|b: Seq<u8>|
            peer_id_bytes_ok(b) && text@ == #[trigger] local_address_text(peer_id_text(b)) ==> r is Some,
{
    text.parse::<libp2p::multiaddr::Multiaddr>().ok().map(|a| a.to_vec())
}

/// `rand::random::<[u8; 16]>()`: 16 random bytes. Which bytes is not stated.
#[verifier::external_body]
fn random_16_bytes() -> (r: Vec<u8>)
    ensures
        r@.len() == 16,
{
    rand::random::<[u8; 16]>().to_vec()
}

/// Whether two byte strings are equal.
fn bytes_equal(a: &[u8], b: &[u8]) -> (r: bool)
    ensures
        r == (a@ == b@),
{
    if a.len() != b.len() {
        return false;
    }
    let mut i: usize = 0;
    while i < a.len()
        invariant
            a@.len() == b@.len(),
            i <= a@.len(),
            forall|j: int| 0 <= j < i ==> a@[j] == b@[j],
        decreases a@.len() - i,
    {
        if a[i] != b[i] {
            return false;
        }
        i = i + 1;
    }
    assert(a@ =~= b@);
    true
}

/// The identity of a peer: the bytes of its multihash, and its base-58 text.
#[derive(Debug)]
pub struct PeerId {
    bytes: Vec<u8>,
    text: String,
}

impl View for PeerId {
    type V = Seq<u8>;

    closed spec fn view(&self) -> Seq<u8> {
        self.bytes@
    }
}

impl PeerId {
    #[verifier::type_invariant]
    spec fn inv(self) -> bool {
        &&& peer_id_bytes_ok(self.bytes@)
        &&& self.text@ == peer_id_text(self.bytes@)
        &&& !self.text@.contains(':')
        &&& self.text@.len() <= MAX_PEER_TEXT_LEN
    }

    /// The peer id with these bytes, given that `libp2p` accepts them.
    fn from_accepted_bytes(bytes: Vec<u8>) -> (r: PeerId)
        requires
            peer_id_bytes_ok(bytes@),
        ensures
            r@ == bytes@,
    {
        match peer_id_base58(bytes.as_slice()) {
            Ok(text) => PeerId { bytes, text },
            Err(_) => {
                proof {
                    assert(false);
                }
                PeerId { bytes, text: String::new() }
            },
        }
    }

    /// The peer id of a fresh random Ed25519 key pair.
    pub fn generate_ed25519() -> (r: PeerId)
        ensures
            peer_id_bytes_ok(r@),
    {
        PeerId::from_accepted_bytes(ed25519_peer_id_bytes())
    }

    /// The peer id with these bytes, where `libp2p` accepts them.
    pub fn from_bytes(bytes: &[u8]) -> (r: Option<PeerId>)
        ensures
            r is Some <==> peer_id_bytes_ok(bytes@),
            r matches Some(p) ==> p@ == bytes@,
    {
        match peer_id_base58(bytes) {
            Ok(text) => Some(PeerId { bytes: vstd::slice::slice_to_vec(bytes), text }),
            Err(_) => None,
        }
    }

    /// The peer id written as `text` in base 58, where there is one.
    pub fn parse(text: &str) -> (r: Option<PeerId>)
        ensures
            r is Some <==> exists|b: Seq<u8>| peer_id_bytes_ok(b) && #[trigger] peer_id_text(b) == text@,
            r matches Some(p) ==> peer_id_text(p@) == text@,
            forall|b: Seq<u8>|
                peer_id_bytes_ok(b) && #[trigger] peer_id_text(b) == text@ ==> (r is Some && r->Some_0@ == b),
    {
        match peer_id_parse(text) {
            Ok(bytes) => {
                let p = PeerId::from_accepted_bytes(bytes);
                Some(p)
            },
            Err(_) => None,
        }
    }

    /// The bytes of the peer id.
    pub fn to_bytes(&self) -> (r: Vec<u8>)
        ensures
            r@ == self@,
    {
        self.bytes.clone()
    }

    /// The base-58 text of the peer id.
    pub fn to_string(&self) -> (r: String)
        ensures
            r@ == peer_id_text(self@),
            !r@.contains(':'),
            r@.len() <= MAX_PEER_TEXT_LEN,
            peer_id_bytes_ok(self@),
    {
        proof {
            use_type_invariant(self);
        }
        self.text.clone()
    }

    /// Whether both are the same peer.
    pub fn equals(&self, other: &PeerId) -> (r: bool)
        ensures
            r == (self@ == other@),
    {
        bytes_equal(self.bytes.as_slice(), other.bytes.as_slice())
    }

    /// A copy of the peer id.
    pub fn duplicate(&self) -> (r: PeerId)
        ensures
            r@ == self@,
    {
        proof {
            use_type_invariant(self);
        }
        PeerId { bytes: self.bytes.clone(), text: self.text.clone() }
    }
}

/// An address in the multiaddress format, by its bytes.
#[derive(Debug, Clone)]
pub struct Multiaddr {
    bytes: Vec<u8>,
}

impl View for Multiaddr {
    type V = Seq<u8>;

    closed spec fn view(&self) -> Seq<u8> {
        self.bytes@
    }
}

impl Multiaddr {
    /// The multiaddress written as `text`, where there is one; a local TCP
    /// address that names an accepted peer id is always read.
    pub fn parse(text: &str) -> (r: Option<Multiaddr>)
        ensures
            r is Some <==> multiaddr_from_text(text@) is Some,
            r matches Some(a) ==> multiaddr_from_text(text@) == Some(a@),
            forall|b: Seq<u8>|
                peer_id_bytes_ok(b) && text@ == #[trigger] local_address_text(peer_id_text(b)) ==> r is Some,
    {
        match multiaddr_parse(text) {
            Some(bytes) => Some(Multiaddr { bytes }),
            None => None,
        }
    }

    /// The bytes of the address.
    pub fn to_bytes(&self) -> (r: Vec<u8>)
        ensures
            r@ == self@,
    {
        self.bytes.clone()
    }

    /// A copy of the address.
    pub fn duplicate(&self) -> (r: Multiaddr)
        ensures
            r@ == self@,
    {
        Multiaddr { bytes: self.bytes.clone() }
    }
}

/// The peers of a list, by their bytes.
pub open spec fn peer_views(v: Seq<PeerId>) -> Seq<Seq<u8>> {
    v.map_values(|p: PeerId| p@)
}

/// The list after adding `p`: unchanged where it is there already,
/// otherwise with `p` at its end.
pub open spec fn with_peer(s: Seq<Seq<u8>>, p: Seq<u8>) -> Seq<Seq<u8>> {
    if s.contains(p) {
        s
    } else {
        s.push(p)
    }
}

/// The text of the local address for a peer: a TCP address on the loopback
/// interface, port 3001, that names the peer.
pub open spec fn local_address_text(peer_text: Seq<char>) -> Seq<char> {
    "/ip4/127.0.0.1/tcp/3001/p2p/"@ + peer_text
}

/// What a connection token carries before encoding: the peer's text, `:`,
/// the file id (both in UTF-8), then the random suffix.
pub open spec fn token_payload(peer_text: Seq<char>, file_id: Seq<char>, suffix: Seq<u8>) -> Seq<u8> {
    encode_utf8(peer_text + seq![':'] + file_id) + suffix
}

/// A file id short enough that every connection token for it can be
/// encoded: a payload is the peer text (at most 400 bytes), `:`, the file id
/// and 16 bytes, so at most 420 bytes longer than the file id, and the
/// encoding of that many bytes has a length that fits in a `usize`.
pub open spec fn file_id_fits(file_id: Seq<char>) -> bool {
    base64_len_fits((encode_utf8(file_id).len() + 4 * MAX_PEER_TEXT_LEN + 20) as nat, false)
}

proof fn lemma_payload_fits(peer_text: Seq<char>, file_id: Seq<char>, suffix: Seq<u8>)
    requires
        peer_text.len() <= MAX_PEER_TEXT_LEN,
        suffix.len() == 16,
        file_id_fits(file_id),
    ensures
        base64_len_fits(token_payload(peer_text, file_id, suffix).len(), false),
{
    lemma_encode_utf8_concat(peer_text + seq![':'], file_id);
    lemma_encode_utf8_concat(peer_text, seq![':']);
    lemma_encode_utf8_len(peer_text);
    lemma_encode_utf8_len(seq![':']);
    let head = peer_text + seq![':'] + file_id;
    assert(encode_utf8(head).len() == encode_utf8(peer_text).len() + encode_utf8(seq![':']).len()
        + encode_utf8(file_id).len());
    assert(token_payload(peer_text, file_id, suffix).len() == encode_utf8(head).len() + 16);
    lemma_base64_len_monotone(
        token_payload(peer_text, file_id, suffix).len(),
        (encode_utf8(file_id).len() + 4 * MAX_PEER_TEXT_LEN + 20) as nat,
        false,
    );
}

/// The text before and after the first `:` of `text`, where it holds one.
pub open spec fn split_first_colon(text: Seq<char>) -> Option<(Seq<char>, Seq<char>)> {
    match text.index_of_first(':') {
        Some(i) => Some((text.take(i), text.skip(i + 1))),
        None => None,
    }
}

/// The peer text and file id that the decoded bytes of a token hold, where
/// they are UTF-8 text with a `:`.
pub open spec fn payload_fields(payload: Seq<u8>) -> Option<(Seq<char>, Seq<char>)> {
    if valid_utf8(payload) {
        split_first_colon(decode_utf8(payload))
    } else {
        None
    }
}

/// The peer text and file id that a token holds: its base64 decoding, less
/// the 16 random bytes at its end, read as UTF-8 text and split at the first
/// `:`.
pub open spec fn token_fields(token: Seq<char>) -> Option<(Seq<char>, Seq<char>)> {
    match base64_url_decoding(token) {
        Some(payload) => if payload.len() >= 16 {
            payload_fields(payload.take(payload.len() - 16))
        } else {
            None
        },
        None => None,
    }
}

/// Some accepted peer id has this text.
pub open spec fn is_peer_text(t: Seq<char>) -> bool {
    exists|b: Seq<u8>| peer_id_bytes_ok(b) && #[trigger] peer_id_text(b) == t
}

/// The network node: its peer id, its address if one was set, and the peers
/// it is connected to, each once.
pub struct Network {
    peer_id: PeerId,
    multiaddr: Option<Multiaddr>,
    connected_peers: Vec<PeerId>,
}

impl Network {
    #[verifier::type_invariant]
    spec fn inv(self) -> bool {
        peer_views(self.connected_peers@).no_duplicates()
    }

    /// The local peer id.
    pub closed spec fn local_peer(&self) -> Seq<u8> {
        self.peer_id@
    }

    /// The base-58 text of the local peer id.
    pub closed spec fn local_peer_text(&self) -> Seq<char> {
        self.peer_id.text@
    }

    /// The connected peers, in the order they connected.
    pub closed spec fn peers(&self) -> Seq<Seq<u8>> {
        peer_views(self.connected_peers@)
    }

    /// The address set for this node, if any.
    pub closed spec fn address(&self) -> Option<Seq<u8>> {
        match self.multiaddr {
            Some(a) => Some(a@),
            None => None,
        }
    }

    /// The node's peer id, its address if set, and its connected peers.
    pub open spec fn state(&self) -> NodeState {
        (self.local_peer(), self.address(), self.peers())
    }

    /// A node with a fresh Ed25519 identity, no address set and no peers.
    pub fn new() -> (r: Network)
        ensures
            peer_id_bytes_ok(r.local_peer()),
            r.peers() == Seq::<Seq<u8>>::empty(),
            r.address() is None,
    {
        let r = Network {
            peer_id: PeerId::generate_ed25519(),
            multiaddr: None,
            connected_peers: Vec::new(),
        };
        assert(peer_views(r.connected_peers@) =~= Seq::<Seq<u8>>::empty());
        r
    }

    /// The local peer id.
    pub fn peer_id(&self) -> (r: PeerId)
        ensures
            r@ == self.local_peer(),
    {
        self.peer_id.duplicate()
    }

    /// The address of this node: the one set, or else the local TCP address
    /// that names its peer id, where `libp2p` reads one from that text.
    pub fn get_multiaddr(&self) -> (r: Option<Multiaddr>)
        ensures
            r is Some,
            self.address() is Some ==> r is Some && r->Some_0@ == self.address()->Some_0,
            self.address() is None ==> (r is Some <==> multiaddr_from_text(
                local_address_text(peer_id_text(self.local_peer())),
            ) is Some),
            self.address() is None ==> (r matches Some(a) ==> multiaddr_from_text(
                local_address_text(peer_id_text(self.local_peer())),
            ) == Some(a@)),
    {
        let mut text = "/ip4/127.0.0.1/tcp/3001/p2p/".to_owned();
        let peer_text = self.peer_id.to_string();
        text.append(peer_text.as_str());
        let parsed = Multiaddr::parse(text.as_str());
        match &self.multiaddr {
            Some(a) => Some(a.duplicate()),
            None => parsed,
        }
    }

    /// The position of `peer` in the list, if it is there.
    fn peer_position(&self, peer: &PeerId) -> (r: Option<usize>)
        ensures
            r is Some <==> self.peers().contains(peer@),
            r matches Some(i) ==> i < self.peers().len() && self.peers()[i as int] == peer@,
            r matches Some(i) ==> forall|j: int| 0 <= j < i ==> self.peers()[j] != peer@,
    {
        let mut i: usize = 0;
        while i < self.connected_peers.len()
            invariant
                i <= self.connected_peers@.len(),
                forall|j: int| 0 <= j < i ==> self.peers()[j] != peer@,
            decreases self.connected_peers@.len() - i,
        {
            if self.connected_peers[i].equals(peer) {
                proof {
                    assert(self.peers()[i as int] == peer@);
                }
                return Some(i);
            }
            i = i + 1;
        }
        None
    }

    /// Adds a peer to the connected peers, unless it is there already.
    pub fn add_peer(&mut self, peer: PeerId)
        ensures
            final(self).state() == node_step(old(self).state(), PeerChange::Add(peer@)),
            final(self).peers() == with_peer(old(self).peers(), peer@),
            final(self).local_peer() == old(self).local_peer(),
            final(self).address() == old(self).address(),
    {
        proof {
            use_type_invariant(&*self);
        }
        if self.peer_position(&peer).is_none() {
            let ghost p = peer@;
            let mut peers: Vec<PeerId> = Vec::new();
            std::mem::swap(&mut peers, &mut self.connected_peers);
            let ghost before = peer_views(peers@);
            peers.push(peer);
            proof {
                assert(peer_views(peers@) =~= before.push(p));
            }
            self.connected_peers = peers;
        }
    }

    /// Removes a peer from the connected peers, where it is there.
    pub fn remove_peer(&mut self, peer: &PeerId)
        ensures
            final(self).state() == node_step(old(self).state(), PeerChange::Remove(peer@)),
            final(self).peers() == old(self).peers().remove_value(peer@),
            final(self).local_peer() == old(self).local_peer(),
            final(self).address() == old(self).address(),
    {
        proof {
            use_type_invariant(&*self);
            old(self).peers().index_of_first_ensures(peer@);
        }
        match self.peer_position(peer) {
            Some(i) => {
                let mut peers: Vec<PeerId> = Vec::new();
                std::mem::swap(&mut peers, &mut self.connected_peers);
                let ghost before = peer_views(peers@);
                peers.remove(i);
                proof {
                    assert(peer_views(peers@) =~= before.remove(i as int));
                    assert(before.index_of_first(peer@) == Some(i as int));
                }
                self.connected_peers = peers;
            },
            None => {},
        }
    }

    /// The connected peers, in the order they connected, each once.
    pub fn get_connected_peers(&self) -> (r: Vec<PeerId>)
        ensures
            peer_views(r@) == self.peers(),
            peer_views(r@).no_duplicates(),
    {
        proof {
            use_type_invariant(self);
        }
        let mut r: Vec<PeerId> = Vec::new();
        let mut i: usize = 0;
        while i < self.connected_peers.len()
            invariant
                i <= self.connected_peers@.len(),
                peer_views(r@) =~= self.peers().take(i as int),
            decreases self.connected_peers@.len() - i,
        {
            r.push(self.connected_peers[i].duplicate());
            proof {
                assert(self.peers().take(i as int + 1) =~= self.peers().take(i as int).push(self.peers()[i as int]));
            }
            i = i + 1;
        }
        proof {
            assert(self.peers().take(i as int) =~= self.peers());
        }
        r
    }

    /// The connection token for `file_id` with the given random suffix: the
    /// URL-safe unpadded base64 of the peer's text, `:`, the file id and the
    /// suffix.
    pub fn connection_token_with_suffix(&self, file_id: &str, suffix: &[u8]) -> (r: String)
        requires
            suffix@.len() == 16,
            file_id_fits(file_id@),
        ensures
            r@ == base64_encode(token_payload(peer_id_text(self.local_peer()), file_id@, suffix@), true, false),
            token_fields(r@) == Some((peer_id_text(self.local_peer()), file_id@)),
    {
        proof {
            use_type_invariant(self);
            use_type_invariant(&self.peer_id);
            lemma_payload_fits(peer_id_text(self.local_peer()), file_id@, suffix@);
            law_token_reads_back(peer_id_text(self.local_peer()), file_id@, suffix@);
        }
        let mut text = self.peer_id.to_string();
        text.append(":");
        text.append(file_id);
        let ghost chars = text@;
        proof {
            reveal_strlit(":");
            assert(chars =~= peer_id_text(self.local_peer()) + seq![':'] + file_id@);
        }
        let head = text.as_str().as_bytes_vec();
        let mut data: Vec<u8> = head;
        let mut i: usize = 0;
        while i < suffix.len()
            invariant
                i <= suffix@.len(),
                data@ =~= encode_utf8(chars) + suffix@.take(i as int),
            decreases suffix@.len() - i,
        {
            data.push(suffix[i]);
            proof {
                assert(suffix@.take(i as int + 1) =~= suffix@.take(i as int).push(suffix@[i as int]));
            }
            i = i + 1;
        }
        proof {
            assert(suffix@.take(i as int) =~= suffix@);
        }
        encode_url_safe_no_pad(data.as_slice())
    }

    /// A connection token for `file_id`: the peer's text, `:` and the file
    /// id, followed by 16 random bytes, in URL-safe unpadded base64. It reads
    /// back as the peer's text and the file id.
    pub fn generate_connection_token(&self, file_id: &str) -> (r: String)
        requires
            file_id_fits(file_id@),
        ensures
            token_fields(r@) == Some((peer_id_text(self.local_peer()), file_id@)),
            exists|suffix: Seq<u8>|
                suffix.len() == 16 && r@ == #[trigger] base64_encode(
                    token_payload(peer_id_text(self.local_peer()), file_id@, suffix),
                    true,
                    false,
                ),
    {
        let suffix = random_16_bytes();
        self.connection_token_with_suffix(file_id, suffix.as_slice())
    }

    /// Reads a connection token back: its base64 decoding, less the 16 random
    /// bytes at its end, as UTF-8 text, split at the first `:` into the
    /// peer's text, which must name a peer, and the file id, which is
    /// everything after that `:`.
    pub fn parse_connection_token(token: &str) -> (r: Option<(PeerId, String)>)
        ensures
            r is Some <==> (token_fields(token@) matches Some((pt, f)) && is_peer_text(pt)),
            r matches Some((p, f)) ==> token_fields(token@) == Some((peer_id_text(p@), f@)),
            forall|b: Seq<u8>|
                peer_id_bytes_ok(b) && (token_fields(token@) matches Some((pt, f)) && #[trigger] peer_id_text(b) == pt)
                    ==> (r is Some && r->Some_0.0@ == b),
    {
        let decoded = match decode_base64_url(token) {
            Ok(d) => d,
            Err(_) => {
                return None;
            },
        };
        if decoded.len() < 16 {
            return None;
        }
        let keep = decoded.len() - 16;
        let mut head: Vec<u8> = Vec::new();
        let mut j: usize = 0;
        while j < keep
            invariant
                keep <= decoded@.len(),
                j <= keep,
                head@ =~= decoded@.take(j as int),
            decreases keep - j,
        {
            head.push(decoded[j]);
            proof {
                assert(decoded@.take(j as int + 1) =~= decoded@.take(j as int).push(decoded@[j as int]));
            }
            j = j + 1;
        }
        let text = match string_from_utf8(head) {
            Some(t) => t,
            None => {
                return None;
            },
        };
        let ghost t = text@;
        let s = text.as_str();
        let n = s.unicode_len();
        let mut i: usize = 0;
        while i < n
            invariant
                n == t.len(),
                s@ == t,
                i <= n,
                forall|j: int| 0 <= j < i ==> t[j] != ':',
            ensures
                i <= n,
                forall|j: int| 0 <= j < i ==> t[j] != ':',
                i < n ==> t[i as int] == ':',
            decreases n - i,
        {
            if s.get_char(i) == ':' {
                break;
            }
            i = i + 1;
        }
        proof {
            t.index_of_first_ensures(':');
        }
        if i == n {
            assert(!t.contains(':'));
            return None;
        }
        proof {
            assert(t[i as int] == ':');
            assert(t.index_of_first(':') == Some(i as int));
        }
        let peer_part = s.substring_char(0, i);
        let file_part = s.substring_char(i + 1, n);
        proof {
            assert(peer_part@ =~= t.take(i as int));
            assert(file_part@ =~= t.skip(i as int + 1));
        }
        match PeerId::parse(peer_part) {
            Some(p) => Some((p, file_part.to_owned())),
            None => None,
        }
    }
}

/// A connection token reads back as the peer's text and the file id it was
/// made for, whatever its 16-byte suffix, where the peer's text holds no `:`.
pub proof fn law_token_reads_back(peer_text: Seq<char>, file_id: Seq<char>, suffix: Seq<u8>)
    requires
        !peer_text.contains(':'),
        suffix.len() == 16,
    ensures
        token_fields(base64_encode(token_payload(peer_text, file_id, suffix), true, false)) == Some(
            (peer_text, file_id),
        ),
{
    let payload = token_payload(peer_text, file_id, suffix);
    let head = peer_text + seq![':'] + file_id;
    lemma_base64_url_decoding(payload);
    assert(payload.take(payload.len() - 16) =~= encode_utf8(head));
    encode_utf8_valid_utf8(head);
    encode_utf8_decode_utf8(head);
    let i = peer_text.len() as int;
    assert(head[i] == ':');
    assert forall|j: int| 0 <= j < i implies head[j] != ':' by {
        assert(head[j] == peer_text[j]);
    }
    head.index_of_first_ensures(':');
    assert(head.index_of_first(':') == Some(i));
    assert(head.take(i) =~= peer_text);
    assert(head.skip(i + 1) =~= file_id);
}

/// Adding a peer leaves it in the list, and keeps every peer there once.
pub proof fn law_add_peer(s: Seq<Seq<u8>>, p: Seq<u8>)
    requires
        s.no_duplicates(),
    ensures
        with_peer(s, p).contains(p),
        with_peer(s, p).no_duplicates(),
        forall|q: Seq<u8>| q != p ==> (with_peer(s, p).contains(q) <==> s.contains(q)),
{
    if !s.contains(p) {
        assert(s.push(p)[s.len() as int] == p);
        assert forall|q: Seq<u8>| q != p implies (s.push(p).contains(q) <==> s.contains(q)) by {
            if s.contains(q) {
                let i = choose|i: int| 0 <= i < s.len() && s[i] == q;
                assert(s.push(p)[i] == q);
            }
            if s.push(p).contains(q) {
                let i = choose|i: int| 0 <= i < s.push(p).len() && s.push(p)[i] == q;
                assert(s[i] == q);
            }
        }
    }
}

/// A change to the list of connected peers.
pub enum PeerChange {
    Add(Seq<u8>),
    Remove(Seq<u8>),
}

/// The list after a sequence of changes, made in order.
pub open spec fn apply_changes(s: Seq<Seq<u8>>, changes: Seq<PeerChange>) -> Seq<Seq<u8>>
    decreases changes.len(),
{
    if changes.len() == 0 {
        s
    } else {
        let t = apply_changes(s, changes.drop_last());
        match changes.last() {
            PeerChange::Add(p) => with_peer(t, p),
            PeerChange::Remove(p) => t.remove_value(p),
        }
    }
}

/// Whether `q` is connected after the changes: as the last change that
/// names it says, or as it was before where none does.
pub open spec fn connected_after(changes: Seq<PeerChange>, q: Seq<u8>, before: bool) -> bool
    decreases changes.len(),
{
    if changes.len() == 0 {
        before
    } else {
        match changes.last() {
            PeerChange::Add(p) => if p == q {
                true
            } else {
                connected_after(changes.drop_last(), q, before)
            },
            PeerChange::Remove(p) => if p == q {
                false
            } else {
                connected_after(changes.drop_last(), q, before)
            },
        }
    }
}

/// What a node is, as far as its calls go: its peer id, its address if one
/// was set, and its connected peers in the order they connected.
pub type NodeState = (Seq<u8>, Option<Seq<u8>>, Seq<Seq<u8>>);

/// The node after one change to its peers: the same peer id and address.
pub open spec fn node_step(node: NodeState, change: PeerChange) -> NodeState {
    match change {
        PeerChange::Add(p) => (node.0, node.1, with_peer(node.2, p)),
        PeerChange::Remove(p) => (node.0, node.1, node.2.remove_value(p)),
    }
}

/// The node after a sequence of changes, one step at a time.
pub open spec fn node_after(node: NodeState, changes: Seq<PeerChange>) -> NodeState
    decreases changes.len(),
{
    if changes.len() == 0 {
        node
    } else {
        node_step(node_after(node, changes.drop_last()), changes.last())
    }
}

/// Whatever adds and removes a node goes through, it keeps its peer id and
/// its address, and its peers are the list that the changes make, each
/// there once.
pub proof fn law_node_changes(node: NodeState, changes: Seq<PeerChange>)
    requires
        node.2.no_duplicates(),
    ensures
        node_after(node, changes).0 == node.0,
        node_after(node, changes).1 == node.1,
        node_after(node, changes).2 == apply_changes(node.2, changes),
        node_after(node, changes).2.no_duplicates(),
    decreases changes.len(),
{
    if changes.len() > 0 {
        law_node_changes(node, changes.drop_last());
    }
    law_peer_changes(node.2, changes, Seq::empty());
}

/// Two batches of changes made one after the other are the one batch of both, in turn.
pub proof fn law_node_changes_compose(node: NodeState, first: Seq<PeerChange>, second: Seq<PeerChange>)
    ensures
        node_after(node_after(node, first), second) == node_after(node, first + second),
    decreases second.len(),
{
    if second.len() == 0 {
        assert(first + second =~= first);
    } else {
        law_node_changes_compose(node, first, second.drop_last());
        assert((first + second).drop_last() =~= first + second.drop_last());
        assert((first + second).last() == second.last());
    }
}

/// After any sequence of adds and removes, every peer is connected at most
/// once, and a peer is connected exactly where the last change naming it
/// added it (or, where none names it, where it was connected before).
#[verifier::rlimit(40)]
pub proof fn law_peer_changes(s: Seq<Seq<u8>>, changes: Seq<PeerChange>, q: Seq<u8>)
    requires
        s.no_duplicates(),
    ensures
        apply_changes(s, changes).no_duplicates(),
        apply_changes(s, changes).contains(q) == connected_after(changes, q, s.contains(q)),
    decreases changes.len(),
{
    if changes.len() > 0 {
        let rest = changes.drop_last();
        law_peer_changes(s, rest, q);
        let t = apply_changes(s, rest);
        let was = connected_after(rest, q, s.contains(q));
        assert(t.contains(q) == was);
        match changes.last() {
            PeerChange::Add(p) => {
                assert(apply_changes(s, changes) == with_peer(t, p));
                law_add_peer(t, p);
                if p != q {
                    assert(connected_after(changes, q, s.contains(q)) == was);
                }
            },
            PeerChange::Remove(p) => {
                assert(apply_changes(s, changes) == t.remove_value(p));
                law_remove_peer(t, p);
                if p != q {
                    assert(connected_after(changes, q, s.contains(q)) == was);
                }
            },
        }
    }
}

/// Adding a peer twice is adding it once.
pub proof fn law_add_peer_idempotent(s: Seq<Seq<u8>>, p: Seq<u8>)
    ensures
        with_peer(with_peer(s, p), p) == with_peer(s, p),
{
    if !s.contains(p) {
        assert(s.push(p)[s.len() as int] == p);
    }
}

/// Removing a peer that was just added, where it was not there before,
/// gives back the list as it was.
pub proof fn law_remove_undoes_add(s: Seq<Seq<u8>>, p: Seq<u8>)
    requires
        !s.contains(p),
    ensures
        with_peer(s, p).remove_value(p) == s,
{
    let t = s.push(p);
    t.index_of_first_ensures(p);
    assert(t[s.len() as int] == p);
    let i = t.index_of_first(p)->Some_0;
    if i < s.len() {
        assert(s[i] == p);
    }
    assert(t.remove(s.len() as int) =~= s);
}

/// Once removed, a peer is no longer in a list without duplicates, and every
/// other peer stays.
pub proof fn law_remove_peer(s: Seq<Seq<u8>>, p: Seq<u8>)
    requires
        s.no_duplicates(),
    ensures
        !s.remove_value(p).contains(p),
        s.remove_value(p).no_duplicates(),
        forall|q: Seq<u8>| q != p ==> (s.remove_value(p).contains(q) <==> s.contains(q)),
{
    s.index_of_first_ensures(p);
    if s.contains(p) {
        let i = s.index_of_first(p)->Some_0;
        let r = s.remove(i);
        assert forall|a: int, b: int| 0 <= a < r.len() && 0 <= b < r.len() && a != b implies r[a] != r[b] by {
            let a2 = if a < i { a } else { a + 1 };
            let b2 = if b < i { b } else { b + 1 };
            assert(r[a] == s[a2]);
            assert(r[b] == s[b2]);
        }
        assert forall|j: int| 0 <= j < r.len() implies r[j] != p by {
            if j < i {
                assert(r[j] == s[j]);
            } else {
                assert(r[j] == s[j + 1]);
            }
        }
        assert forall|q: Seq<u8>| q != p implies (r.contains(q) <==> s.contains(q)) by {
            if s.contains(q) {
                let k = choose|k: int| 0 <= k < s.len() && s[k] == q;
                if k < i {
                    assert(r[k] == q);
                } else {
                    assert(k != i);
                    assert(r[k - 1] == q);
                }
            }
            if r.contains(q) {
                let k = choose|k: int| 0 <= k < r.len() && r[k] == q;
                if k < i {
                    assert(s[k] == q);
                } else {
                    assert(s[k + 1] == q);
                }
            }
        }
    }
}

} // verus!

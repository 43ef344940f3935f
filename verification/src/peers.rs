//! The registry of peer channels, keyed by the public key of the peer.

use vstd::prelude::*;
use crate::bytes::{copy_bytes, same_bytes};
use crate::channel::{
    decrypt_peer_channel, encrypt_peer_channel, is_peer_request, Phase, ProtocolState,
};
use crate::error::{ClientError, ErrorView, ProtocolFailure};
use crate::handshake::{
    begin, finish, is_written, keys_fit, noise_builds, read_step, write_step,
};
use crate::hex::{hex_encode, hex_string};
use crate::protocol::{
    Encoding, HandshakeMessage, HandshakeView, RequestMessage, SealedEnvelope, SessionId,
    MAX_NOISE_MESSAGE, TAGLEN,
};

verus! {

/// One channel of the registry with the key it is stored under.
struct PeerEntry {
    key: Vec<u8>,
    state: ProtocolState,
}

/// The channels to the peers of a client.
///
/// No two entries hold the same key.
pub struct Peers {
    entries: Vec<PeerEntry>,
}

/// The map that a list of distinct keys and the list of their phases stand
/// for.
pub open spec fn table(keys: Seq<Seq<u8>>, phases: Seq<Phase>) -> Map<Seq<u8>, Phase> {
    Map::new(|key: Seq<u8>| keys.contains(key), |key: Seq<u8>| phases[keys.index_of(key)])
}

/// In a list of distinct keys, a key stands at one place only.
pub proof fn lemma_place(keys: Seq<Seq<u8>>, i: int)
    requires
        keys.no_duplicates(),
        0 <= i < keys.len(),
    ensures
        keys.contains(keys[i]),
        keys.index_of(keys[i]) == i,
{
    let key = keys[i];
    assert(keys.contains(key));
    let j = keys.index_of(key);
    assert(0 <= j < keys.len() && keys[j] == key);
}

/// Taking one entry out of the lists takes its key out of the map.
pub proof fn lemma_table_remove(keys: Seq<Seq<u8>>, phases: Seq<Phase>, i: int)
    requires
        keys.no_duplicates(),
        keys.len() == phases.len(),
        0 <= i < keys.len(),
    ensures
        keys.remove(i).no_duplicates(),
        !keys.remove(i).contains(keys[i]),
        table(keys.remove(i), phases.remove(i)) == table(keys, phases).remove(keys[i]),
{
    let keys2 = keys.remove(i);
    let phases2 = phases.remove(i);
    assert forall|a: int, b: int| 0 <= a < keys2.len() && 0 <= b < keys2.len() && a != b implies keys2[a]
        != keys2[b] by {
        let a1 = if a < i { a } else { a + 1 };
        let b1 = if b < i { b } else { b + 1 };
        assert(keys2[a] == keys[a1] && keys2[b] == keys[b1]);
    }
    assert forall|key: Seq<u8>| keys2.contains(key) <==> (keys.contains(key) && key != keys[i]) by {
        if keys2.contains(key) {
            let j2 = keys2.index_of(key);
            let j = if j2 < i { j2 } else { j2 + 1 };
            assert(keys2[j2] == keys[j]);
            assert(keys.contains(key));
        }
        if keys.contains(key) && key != keys[i] {
            let j = keys.index_of(key);
            let j2 = if j < i { j } else { j - 1 };
            assert(keys2[j2] == key);
        }
    }
    assert forall|key: Seq<u8>| keys2.contains(key) implies phases2[keys2.index_of(key)]
        == phases[keys.index_of(key)] by {
        let j2 = keys2.index_of(key);
        let j = if j2 < i { j2 } else { j2 + 1 };
        assert(keys2[j2] == keys[j]);
        lemma_place(keys, j);
    }
    assert(table(keys2, phases2) =~= table(keys, phases).remove(keys[i]));
}

/// Putting an entry with a new key into the lists puts it into the map.
pub proof fn lemma_table_insert(
    keys: Seq<Seq<u8>>,
    phases: Seq<Phase>,
    i: int,
    key: Seq<u8>,
    phase: Phase,
)
    requires
        keys.no_duplicates(),
        keys.len() == phases.len(),
        0 <= i <= keys.len(),
        !keys.contains(key),
    ensures
        keys.insert(i, key).no_duplicates(),
        table(keys.insert(i, key), phases.insert(i, phase)) == table(keys, phases).insert(
            key,
            phase,
        ),
{
    let keys2 = keys.insert(i, key);
    let phases2 = phases.insert(i, phase);
    assert forall|a: int, b: int| 0 <= a < keys2.len() && 0 <= b < keys2.len() && a != b implies keys2[a]
        != keys2[b] by {
        if a != i {
            let a1 = if a < i { a } else { a - 1 };
            assert(keys2[a] == keys[a1]);
            assert(keys.contains(keys[a1]));
        }
        if b != i {
            let b1 = if b < i { b } else { b - 1 };
            assert(keys2[b] == keys[b1]);
            assert(keys.contains(keys[b1]));
        }
    }
    assert(keys2[i] == key);
    assert forall|other: Seq<u8>| keys2.contains(other) <==> (keys.contains(other) || other == key) by {
        if keys2.contains(other) && other != key {
            let j2 = keys2.index_of(other);
            let j = if j2 < i { j2 } else { j2 - 1 };
            assert(keys2[j2] == keys[j]);
            assert(keys.contains(other));
        }
        if keys.contains(other) {
            let j = keys.index_of(other);
            let j2 = if j < i { j } else { j + 1 };
            assert(keys2[j2] == other);
        }
    }
    lemma_place(keys2, i);
    assert forall|other: Seq<u8>| keys.contains(other) implies phases2[keys2.index_of(other)]
        == phases[keys.index_of(other)] by {
        let j = keys.index_of(other);
        let j2 = if j < i { j } else { j + 1 };
        assert(keys2[j2] == other);
        lemma_place(keys2, j2);
    }
    assert(table(keys2, phases2) =~= table(keys, phases).insert(key, phase));
}

/// What encrypting and decrypting return for a peer whose channel cannot
/// carry a payload: `PeerNotFound` with the key in hexadecimal where the
/// peer has no channel, `NotTransportState` where its handshake is open.
pub open spec fn refusal(peers: Map<Seq<u8>, Phase>, peer_key: Seq<u8>) -> Option<ErrorView> {
    if !peers.dom().contains(peer_key) {
        Some(ErrorView::PeerNotFound(hex_string(peer_key)))
    } else if peers[peer_key] == Phase::Handshake {
        Some(ErrorView::NotTransportState)
    } else {
        None
    }
}

/// What completing a handshake returns for a peer whose channel has no
/// handshake to complete: `PeerNotFound` with the key in hexadecimal where
/// the peer has no channel, `NotHandshakeState` where its channel is in the
/// transport phase.
pub open spec fn completion_refusal(peers: Map<Seq<u8>, Phase>, peer_key: Seq<u8>) -> Option<
    ErrorView,
> {
    if !peers.dom().contains(peer_key) {
        Some(ErrorView::PeerNotFound(hex_string(peer_key)))
    } else if peers[peer_key] == Phase::Transport {
        Some(ErrorView::NotHandshakeState)
    } else {
        None
    }
}

/// What answering the handshake of a peer does to the registry.
///
/// A success is had only for a peer without a channel, with keys of the
/// pattern's length for which the Noise library builds the responder, and
/// with a length within the buffer: the peer then has a channel in its
/// transport phase, and the reply is the responder's message. A failure
/// changes nothing. It is `PeerAlreadyExistsMaybeRace` where the peer has a
/// channel; else invalid input where the keys have another length or the
/// length lies beyond the buffer; else a protocol error.
pub open spec fn responded(
    pre: Map<Seq<u8>, Phase>,
    post: Map<Seq<u8>, Phase>,
    local_private: Seq<u8>,
    peer_key: Seq<u8>,
    len: usize,
    buf_len: nat,
    r: Result<HandshakeView, ErrorView>,
) -> bool {
    match r {
        Ok(reply) => {
            &&& !pre.dom().contains(peer_key)
            &&& post == pre.insert(peer_key, Phase::Transport)
            &&& is_written(reply, true)
            &&& keys_fit(local_private, peer_key)
            &&& noise_builds(local_private, peer_key, false)
            &&& len <= buf_len
        },
        Err(e) => {
            &&& post == pre
            &&& if pre.dom().contains(peer_key) {
                e == ErrorView::PeerAlreadyExistsMaybeRace
            } else if !keys_fit(local_private, peer_key) || len > buf_len {
                e == ErrorView::ProtocolError(ProtocolFailure::Input)
            } else {
                e is ProtocolError
            }
        },
    }
}

impl View for Peers {
    type V = Map<Seq<u8>, Phase>;

    /// The phase of the channel of each peer that has one.
    open spec fn view(&self) -> Map<Seq<u8>, Phase> {
        table(self.keys(), self.phases())
    }
}

impl Peers {
    /// The keys of the entries, in the order in which they are stored.
    pub closed spec fn keys(&self) -> Seq<Seq<u8>> {
        Seq::new(self.entries@.len(), |i: int| self.entries@[i].key@)
    }

    /// The phases of the entries, in the order in which they are stored.
    pub closed spec fn phases(&self) -> Seq<Phase> {
        Seq::new(self.entries@.len(), |i: int| self.entries@[i].state.phase())
    }

    /// The invariant of the registry: each entry has a key and a phase, and
    /// no key occurs twice.
    #[verifier::type_invariant]
    pub open spec fn wf(&self) -> bool {
        self.keys().len() == self.phases().len() && self.keys().no_duplicates()
    }

    /// The registry holds at most one entry for a key.
    pub proof fn law_one_entry_per_key(&self, i: int, j: int)
        requires
            self.wf(),
            0 <= i < self.keys().len(),
            0 <= j < self.keys().len(),
            self.keys()[i] == self.keys()[j],
        ensures
            i == j,
    {
    }

    /// An entry is found under its own key: the registry maps the key of
    /// each entry to the phase of that entry.
    pub proof fn law_entry_under_its_key(&self, i: int)
        requires
            self.wf(),
            0 <= i < self.keys().len(),
        ensures
            self@.dom().contains(self.keys()[i]),
            self@[self.keys()[i]] == self.phases()[i],
    {
        lemma_place(self.keys(), i);
    }

    /// Takes the entry at a place out of the registry.
    fn take_entry(&mut self, i: usize) -> (entry: PeerEntry)
        requires
            i < old(self).keys().len(),
        ensures
            entry.key@ == old(self).keys()[i as int],
            entry.state.phase() == old(self).phases()[i as int],
            final(self).keys() == old(self).keys().remove(i as int),
            final(self).phases() == old(self).phases().remove(i as int),
            final(self)@ == old(self)@.remove(entry.key@),
            !final(self)@.dom().contains(entry.key@),
    {
        proof {
            use_type_invariant(&*self);
            lemma_table_remove(self.keys(), self.phases(), i as int);
        }
        let ghost before = *self;
        let mut entries: Vec<PeerEntry> = Vec::new();
        std::mem::swap(&mut entries, &mut self.entries);
        let entry = entries.remove(i);
        proof {
            let after = Peers { entries };
            assert(after.keys() =~= before.keys().remove(i as int));
            assert(after.phases() =~= before.phases().remove(i as int));
        }
        std::mem::swap(&mut entries, &mut self.entries);
        entry
    }

    /// Puts an entry with a new key into the registry, at a place.
    fn put_entry(&mut self, i: usize, entry: PeerEntry)
        requires
            i <= old(self).keys().len(),
            !old(self)@.dom().contains(entry.key@),
        ensures
            final(self).keys() == old(self).keys().insert(i as int, entry.key@),
            final(self).phases() == old(self).phases().insert(i as int, entry.state.phase()),
            final(self)@ == old(self)@.insert(entry.key@, entry.state.phase()),
    {
        proof {
            use_type_invariant(&*self);
            lemma_table_insert(
                self.keys(),
                self.phases(),
                i as int,
                entry.key@,
                entry.state.phase(),
            );
        }
        let ghost before = *self;
        let ghost key = entry.key@;
        let ghost phase = entry.state.phase();
        let mut entries: Vec<PeerEntry> = Vec::new();
        std::mem::swap(&mut entries, &mut self.entries);
        entries.insert(i, entry);
        proof {
            let after = Peers { entries };
            assert(after.keys() =~= before.keys().insert(i as int, key));
            assert(after.phases() =~= before.phases().insert(i as int, phase));
        }
        std::mem::swap(&mut entries, &mut self.entries);
    }

    /// A registry without entries.
    pub fn new() -> (r: Peers)
        ensures
            r@ == Map::<Seq<u8>, Phase>::empty(),
    {
        let r = Peers { entries: Vec::new() };
        assert(r.keys() =~= Seq::<Seq<u8>>::empty());
        assert(r@ =~= Map::<Seq<u8>, Phase>::empty());
        r
    }

    /// The place of the entry of a peer, if it has one.
    fn position(&self, peer_key: &[u8]) -> (r: Option<usize>)
        ensures
            match r {
                Some(i) => i < self.keys().len() && self.keys()[i as int] == peer_key@,
                None => !self.keys().contains(peer_key@),
            },
    {
        let mut i: usize = 0;
        while i < self.entries.len()
            invariant
                0 <= i <= self.entries@.len(),
                self.keys().len() == self.entries@.len(),
                forall|j: int| 0 <= j < i ==> self.keys()[j] != peer_key@,
            decreases self.entries@.len() - i,
        {
            if same_bytes(self.entries[i].key.as_slice(), peer_key) {
                return Some(i);
            }
            i += 1;
        }
        None
    }

    /// The phase of the channel of a peer, if it has one.
    pub fn phase(&self, peer_key: &[u8]) -> (r: Option<Phase>)
        ensures
            r == (if self@.dom().contains(peer_key@) {
                Some(self@[peer_key@])
            } else {
                None
            }),
    {
        proof {
            use_type_invariant(self);
        }
        match self.position(peer_key) {
            Some(i) => {
                proof {
                    self.law_entry_under_its_key(i as int);
                }
                Some(self.entries[i].state.current_phase())
            },
            None => None,
        }
    }

    /// Encrypts a payload for a peer and addresses it.
    ///
    /// No channel changes its phase.
    pub fn encrypt(
        &mut self,
        peer_key: &[u8],
        plaintext: &[u8],
        encoding: Encoding,
        broadcast: bool,
        session_id: Option<SessionId>,
    ) -> (r: Result<RequestMessage, ClientError>)
        ensures
            final(self)@ == old(self)@,
            match refusal(old(self)@, peer_key@) {
                Some(e) => r is Err && r->Err_0@ == e,
                None => match r {
                    Ok(request) => is_peer_request(
                        request@,
                        peer_key@,
                        session_id,
                        encoding,
                        broadcast,
                        plaintext@.len(),
                    ),
                    Err(e) => e@ is ProtocolError,
                },
            },
            plaintext@.len() + TAGLEN > MAX_NOISE_MESSAGE ==> r is Err,
            refusal(old(self)@, peer_key@) is None && plaintext@.len() + TAGLEN > MAX_NOISE_MESSAGE
                ==> r is Err && r->Err_0@ == ErrorView::ProtocolError(ProtocolFailure::Input),
    {
        proof {
            use_type_invariant(&*self);
        }
        match self.position(peer_key) {
            Some(i) => {
                proof {
                    self.law_entry_under_its_key(i as int);
                }
                let ghost before = self@;
                let mut entry = self.take_entry(i);
                let r = encrypt_peer_channel(
                    peer_key,
                    &mut entry.state,
                    plaintext,
                    encoding,
                    broadcast,
                    session_id,
                );
                self.put_entry(i, entry);
                proof {
                    assert(self@ =~= before);
                }
                r
            },
            None => Err(ClientError::PeerNotFound(hex_encode(peer_key))),
        }
    }

    /// Decrypts the envelope of a message that a peer sent.
    ///
    /// No channel changes its phase.
    pub fn decrypt(&mut self, peer_key: &[u8], envelope: &SealedEnvelope) -> (r: Result<
        Vec<u8>,
        ClientError,
    >)
        ensures
            final(self)@ == old(self)@,
            match refusal(old(self)@, peer_key@) {
                Some(e) => r is Err && r->Err_0@ == e,
                None => match r {
                    Ok(plaintext) => plaintext@.len() + TAGLEN == envelope.length,
                    Err(e) => e@ is ProtocolError,
                },
            },
            envelope.length > envelope.payload@.len() || envelope.length < TAGLEN
                || envelope.length > MAX_NOISE_MESSAGE ==> r is Err,
            refusal(old(self)@, peer_key@) is None && envelope.length > envelope.payload@.len()
                ==> r is Err && r->Err_0@ == ErrorView::ProtocolError(ProtocolFailure::Input),
    {
        proof {
            use_type_invariant(&*self);
        }
        match self.position(peer_key) {
            Some(i) => {
                proof {
                    self.law_entry_under_its_key(i as int);
                }
                let ghost before = self@;
                let mut entry = self.take_entry(i);
                let r = decrypt_peer_channel(&mut entry.state, envelope);
                self.put_entry(i, entry);
                proof {
                    assert(self@ =~= before);
                }
                r
            },
            None => Err(ClientError::PeerNotFound(hex_encode(peer_key))),
        }
    }

    /// Opens a handshake towards a peer and returns its first message.
    ///
    /// Fails with `PeerAlreadyExists` where the peer has a channel. The
    /// channel is stored, in its handshake phase, only when the message was
    /// written; a failure leaves the registry as it was. A success is had
    /// only with keys of the pattern's length for which the Noise library
    /// builds the initiator.
    pub fn begin_initiator(&mut self, local_private: &[u8], peer_key: &[u8]) -> (r: Result<
        HandshakeMessage,
        ClientError,
    >)
        ensures
            match r {
                Ok(message) => {
                    &&& !old(self)@.dom().contains(peer_key@)
                    &&& final(self)@ == old(self)@.insert(peer_key@, Phase::Handshake)
                    &&& is_written(message@, false)
                    &&& keys_fit(local_private@, peer_key@)
                    &&& noise_builds(local_private@, peer_key@, true)
                },
                Err(e) => {
                    &&& final(self)@ == old(self)@
                    &&& (if old(self)@.dom().contains(peer_key@) {
                        e@ == ErrorView::PeerAlreadyExists
                    } else {
                        e@ is ProtocolError
                    })
                },
            },
            !old(self)@.dom().contains(peer_key@) && !keys_fit(local_private@, peer_key@) ==> r
                is Err && r->Err_0@ == ErrorView::ProtocolError(ProtocolFailure::Input),
    {
        proof {
            use_type_invariant(&*self);
        }
        match self.position(peer_key) {
            Some(i) => {
                proof {
                    self.law_entry_under_its_key(i as int);
                }
                Err(ClientError::PeerAlreadyExists)
            },
            None => {
                let mut initiator = begin(local_private, peer_key, true)?;
                let message = write_step(&mut initiator, false)?;
                let entry = PeerEntry {
                    key: copy_bytes(peer_key),
                    state: ProtocolState::Handshake(initiator),
                };
                let end = self.entries.len();
                self.put_entry(end, entry);
                Ok(message)
            },
        }
    }

    /// Answers the handshake that a peer opened: consumes its first message,
    /// and returns the reply.
    ///
    /// Fails with `PeerAlreadyExistsMaybeRace` where the peer has a channel.
    /// For a peer without one, keys of another length than the pattern's and
    /// a length beyond the buffer are refused as invalid input. The channel
    /// is stored, in its transport phase, only when the whole exchange
    /// succeeded; a failure leaves the registry as it was.
    pub fn begin_responder(
        &mut self,
        local_private: &[u8],
        peer_key: &[u8],
        len: usize,
        buf: &[u8],
    ) -> (r: Result<HandshakeMessage, ClientError>)
        ensures
            responded(
                old(self)@,
                final(self)@,
                local_private@,
                peer_key@,
                len,
                buf@.len(),
                match r {
                    Ok(reply) => Ok(reply@),
                    Err(e) => Err(e@),
                },
            ),
    {
        proof {
            use_type_invariant(&*self);
        }
        match self.position(peer_key) {
            Some(i) => {
                proof {
                    self.law_entry_under_its_key(i as int);
                }
                Err(ClientError::PeerAlreadyExistsMaybeRace)
            },
            None => {
                if len > buf.len() {
                    return Err(ClientError::ProtocolError(ProtocolFailure::Input));
                }
                let mut responder = begin(local_private, peer_key, false)?;
                read_step(&mut responder, len, buf)?;
                let reply = write_step(&mut responder, true)?;
                let transport = finish(responder)?;
                let entry = PeerEntry {
                    key: copy_bytes(peer_key),
                    state: ProtocolState::Transport(transport),
                };
                let end = self.entries.len();
                self.put_entry(end, entry);
                Ok(reply)
            },
        }
    }

    /// Completes the handshake that this client opened towards a peer, with
    /// the reply of the peer.
    ///
    /// Fails with `PeerNotFound` where the peer has no channel and with
    /// `NotHandshakeState` where its channel is in the transport phase; both
    /// leave the registry as it was. A reply that the Noise library refuses
    /// leaves the handshake in place; if the library refuses the transition
    /// itself, the entry is lost.
    pub fn complete_initiator(&mut self, peer_key: &[u8], len: usize, buf: &[u8]) -> (r: Result<
        (),
        ClientError,
    >)
        ensures
            match completion_refusal(old(self)@, peer_key@) {
                Some(e) => final(self)@ == old(self)@ && r is Err && r->Err_0@ == e,
                None => match r {
                    Ok(_) => final(self)@ == old(self)@.insert(peer_key@, Phase::Transport),
                    Err(e) => e@ is ProtocolError && (final(self)@ == old(self)@ || final(self)@
                        == old(self)@.remove(peer_key@)),
                },
            },
            completion_refusal(old(self)@, peer_key@) is None && len > buf@.len() ==> final(self)@
                == old(self)@ && r is Err && r->Err_0@ == ErrorView::ProtocolError(
                ProtocolFailure::Input,
            ),
    {
        proof {
            use_type_invariant(&*self);
        }
        let i = match self.position(peer_key) {
            Some(i) => i,
            None => {
                return Err(ClientError::PeerNotFound(hex_encode(peer_key)));
            },
        };
        proof {
            self.law_entry_under_its_key(i as int);
        }
        let ghost before = self@;
        let entry = self.take_entry(i);
        let PeerEntry { key, state } = entry;
        match state {
            ProtocolState::Handshake(mut initiator) => {
                match read_step(&mut initiator, len, buf) {
                    Ok(_) => {},
                    Err(e) => {
                        self.put_entry(i, PeerEntry { key, state: ProtocolState::Handshake(initiator) });
                        proof {
                            assert(self@ =~= before);
                        }
                        return Err(e);
                    },
                }
                let transport = finish(initiator)?;
                self.put_entry(i, PeerEntry { key, state: ProtocolState::Transport(transport) });
                proof {
                    assert(self@ =~= before.insert(peer_key@, Phase::Transport));
                }
                Ok(())
            },
            ProtocolState::Transport(transport) => {
                self.put_entry(i, PeerEntry { key, state: ProtocolState::Transport(transport) });
                proof {
                    assert(self@ =~= before);
                }
                Err(ClientError::NotHandshakeState)
            },
        }
    }
}

} // verus!

//! A message under its seal, as it crosses the network in either direction.

use crate::crypto;
use crate::crypto::Crypto;
use crate::protocol;
use crate::protocol::{Message, MessageView};
use vstd::prelude::*;

verus! {

broadcast use vstd::seq::group_seq_axioms;

/// The data is the message, sealed with the key.
pub open spec fn carries(key: Seq<u8>, data: Seq<u8>, m: MessageView) -> bool {
    crypto::opened(key, data) == Some(protocol::encode(m)) && protocol::encodable(m)
}

/// The data opens with the key to bytes that start with the message.
pub open spec fn holds(key: Seq<u8>, data: Seq<u8>, m: MessageView) -> bool {
    &&& crypto::opened(key, data) is Some
    &&& protocol::encodable(m)
    &&& protocol::encode(m).is_prefix_of(crypto::opened(key, data)->0)
}

/// The message is too long to be sealed.
pub open spec fn too_long(m: MessageView) -> bool {
    protocol::encode(m).len() > crypto::MAX_PLAINTEXT
}

/// Serializes and seals a message. Fails exactly where it is too long.
pub fn seal(crypto: &Crypto, msg: &Message) -> (r: Option<Vec<u8>>)
    ensures
        match r {
            Some(data) => !too_long(msg@) && carries(crypto.key(), data@, msg@),
            None => too_long(msg@),
        },
{
    match msg.to_bytes() {
        Ok(bytes) => match crypto.encrypt(bytes.as_slice()) {
            Ok(data) => Some(data),
            Err(_) => None,
        },
        Err(_) => None,
    }
}

/// Why bytes were not taken for a message.
#[derive(Debug, Clone, Copy, PartialEq, Eq, Structural)]
pub enum EnvelopeError {
    /// They were not sealed with the key.
    Undecryptable,
    /// What they open to is no message.
    Unreadable,
}

/// Opens and reads a message.
pub fn open(crypto: &Crypto, data: &[u8]) -> (r: Result<Message, EnvelopeError>)
    ensures
        match r {
            Ok(m) => holds(crypto.key(), data@, m@),
            Err(EnvelopeError::Undecryptable) => crypto::opened(crypto.key(), data@) is None,
            Err(EnvelopeError::Unreadable) => {
                &&& crypto::opened(crypto.key(), data@) is Some
                &&& forall|m: MessageView| !#[trigger] holds(crypto.key(), data@, m)
            },
        },
{
    match crypto.decrypt(data) {
        Err(_) => Err(EnvelopeError::Undecryptable),
        Ok(plaintext) => match Message::from_bytes(plaintext.as_slice()) {
            Ok(m) => Ok(m),
            Err(_) => Err(EnvelopeError::Unreadable),
        },
    }
}

/// A message that was sealed with the key is opened with it, and what is read is that
/// message and no other.
pub proof fn what_is_sealed_is_opened(
    key: Seq<u8>,
    data: Seq<u8>,
    sent: MessageView,
    received: MessageView,
)
    requires
        carries(key, data, sent),
    ensures
        holds(key, data, received) <==> received == sent,
{
    let rest = Seq::<u8>::empty();
    assert(protocol::encode(sent) + rest =~= protocol::encode(sent));
    if holds(key, data, received) {
        protocol::reading_undoes_writing(sent, received, rest);
    }
    assert(protocol::encode(sent).is_prefix_of(protocol::encode(sent))) by {
        assert(protocol::encode(sent) =~= protocol::encode(sent).subrange(
            0,
            protocol::encode(sent).len() as int,
        ));
    }
}

/// At most one message is read out of some data.
pub proof fn one_message_at_most(key: Seq<u8>, data: Seq<u8>, x: MessageView, y: MessageView)
    requires
        holds(key, data, x),
        holds(key, data, y),
    ensures
        x == y,
{
    protocol::encoding_is_unique(x, y, crypto::opened(key, data)->0);
}

/// Data holds a message exactly where it opens to bytes that start with the form of that
/// message, and carries it where it opens to that form and nothing more.
pub proof fn envelopes_hold_the_form_of_a_message(
    key: Seq<u8>,
    data: Seq<u8>,
    m: MessageView,
    rest: Seq<u8>,
)
    requires
        protocol::encodable(m),
    ensures
        crypto::opened(key, data) == Some(protocol::encode(m) + rest) ==> holds(key, data, m),
        crypto::opened(key, data) == Some(protocol::encode(m)) <==> carries(key, data, m),
        crypto::opened(key, data) is None ==> !holds(key, data, m) && !carries(key, data, m),
        carries(key, data, m) ==> holds(key, data, m),
        too_long(m) <==> protocol::encode(m).len() > 0x3f_ffff_ff80,
{
    let e = protocol::encode(m);
    assert(e =~= (e + rest).subrange(0, e.len() as int));
    assert(e =~= e.subrange(0, e.len() as int));
}

} // verus!

//! The message envelope that nodes exchange, and the rule by which a reply is
//! made from a request.

use vstd::prelude::*;

verus! {

/// A message between two nodes.
#[derive(Debug, Clone, PartialEq, Eq)]
pub struct Message<Payload> {
    pub src: String,
    pub dest: String,
    pub body: MessageBody<Payload>,
}

/// The identifiers of a message and what it carries.
#[derive(Debug, Clone, PartialEq, Eq)]
pub struct MessageBody<Payload> {
    pub msg_id: Option<usize>,
    pub in_reply_to: Option<usize>,
    pub payload: Payload,
}

/// A message as a mathematical value.
pub struct MessageView<V> {
    pub src: Seq<char>,
    pub dest: Seq<char>,
    pub body: MessageBodyView<V>,
}

/// A message body as a mathematical value.
pub struct MessageBodyView<V> {
    pub msg_id: Option<nat>,
    pub in_reply_to: Option<nat>,
    pub payload: V,
}

/// An optional identifier as an optional natural number.
pub open spec fn id_view(id: Option<usize>) -> Option<nat> {
    match id {
        Some(n) => Some(n as nat),
        None => None,
    }
}

impl<Payload: View> View for MessageBody<Payload> {
    type V = MessageBodyView<Payload::V>;

    open spec fn view(&self) -> Self::V {
        MessageBodyView {
            msg_id: id_view(self.msg_id),
            in_reply_to: id_view(self.in_reply_to),
            payload: self.payload@,
        }
    }
}

impl<Payload: View> View for Message<Payload> {
    type V = MessageView<Payload::V>;

    open spec fn view(&self) -> Self::V {
        MessageView { src: self.src@, dest: self.dest@, body: self.body@ }
    }
}

/// The reply to a request that came from `src` for `dest` under `request_id`:
/// it goes back from `dest` to `src`, carries `msg_id` as its own identifier
/// and refers to the request's identifier where the request had one.
pub open spec fn reply_view<V>(
    src: Seq<char>,
    dest: Seq<char>,
    request_id: Option<nat>,
    msg_id: nat,
    payload: V,
) -> MessageView<V> {
    MessageView {
        src: dest,
        dest: src,
        body: MessageBodyView { msg_id: Some(msg_id), in_reply_to: request_id, payload },
    }
}

impl<V> MessageView<V> {
    /// The reply to `self` that carries `payload` under the identifier `msg_id`.
    pub open spec fn reply(self, msg_id: nat, payload: V) -> MessageView<V> {
        reply_view(self.src, self.dest, self.body.msg_id, msg_id, payload)
    }

    /// Whether `self` answers `request`: the addresses are swapped and the
    /// request's identifier, if any, is referred to.
    pub open spec fn answers(self, request: MessageView<V>) -> bool {
        &&& self.src == request.dest
        &&& self.dest == request.src
        &&& self.body.in_reply_to == request.body.msg_id
    }
}

/// Builds the reply to a request that came from `src` for `dest` under
/// `request_id`.
pub fn reply<Payload: View>(
    src: String,
    dest: String,
    request_id: Option<usize>,
    msg_id: usize,
    payload: Payload,
) -> (r: Message<Payload>)
    ensures
        r@ == reply_view(src@, dest@, id_view(request_id), msg_id as nat, payload@),
        r.body.msg_id == Some(msg_id),
        r.body.in_reply_to == request_id,
{
    Message {
        src: dest,
        dest: src,
        body: MessageBody { msg_id: Some(msg_id), in_reply_to: request_id, payload },
    }
}

} // verus!

//! What every node promises: how it answers, and how it fails.

use vstd::prelude::*;
use crate::message::{reply, reply_view, id_view, Message};

verus! {

/// Why a node refused to take a step.
#[derive(Debug, Clone, Copy, PartialEq, Eq, Structural)]
pub enum NodeError {
    /// The input is of a kind that the node only ever sends.
    UnexpectedMessageKind,
    /// The node has no message identifier left to give to a reply.
    MsgIdsExhausted,
    /// The clock stands before the start of the epoch.
    ClockBeforeEpoch,
}

impl<Payload> Message<Payload> {
    /// Whether `self` is addressed and correlated as a reply to `request`: it
    /// goes from the request's destination back to its source, and refers to
    /// the request's identifier exactly where the request has one.
    pub open spec fn is_reply_to(self, request: Message<Payload>) -> bool {
        &&& self.src@ == request.dest@
        &&& self.dest@ == request.src@
        &&& self.body.in_reply_to == request.body.msg_id
    }
}

/// Whether `replies` are replies to `request` under identifiers that lie in
/// `first_id..next_id` and grow strictly from each reply to the next.
pub open spec fn are_replies<Payload>(
    replies: Seq<Message<Payload>>,
    request: Message<Payload>,
    first_id: nat,
    next_id: nat,
) -> bool {
    &&& first_id <= next_id
    &&& forall|i: int|
        0 <= i < replies.len() ==> {
            &&& (#[trigger] replies[i]).is_reply_to(request)
            &&& replies[i].body.msg_id is Some
            &&& first_id <= replies[i].body.msg_id->0 < next_id
        }
    &&& forall|i: int, j: int|
        0 <= i < j < replies.len() ==> (#[trigger] replies[i]).body.msg_id->0 < (
        #[trigger] replies[j]).body.msg_id->0
}

/// What a successful step does to the output: it keeps what was there and
/// appends replies to `request` under identifiers from `first_id..next_id`.
pub open spec fn answered<Payload>(
    request: Message<Payload>,
    first_id: nat,
    next_id: nat,
    before: Seq<Message<Payload>>,
    after: Seq<Message<Payload>>,
) -> bool {
    &&& before.len() <= after.len()
    &&& after.take(before.len() as int) == before
    &&& are_replies(after.skip(before.len() as int), request, first_id, next_id)
}

/// A step that appends one reply under the identifier `id` has answered.
pub proof fn lemma_answered_once<Payload>(
    request: Message<Payload>,
    id: usize,
    before: Seq<Message<Payload>>,
    after: Seq<Message<Payload>>,
)
    requires
        after.len() == before.len() + 1,
        after.drop_last() == before,
        after.last().is_reply_to(request),
        after.last().body.msg_id == Some(id),
    ensures
        answered(request, id as nat, id as nat + 1, before, after),
{
    assert(after.skip(before.len() as int) == seq![after.last()]);
}

/// Emits the reply to a request that came from `src` for `dest` under
/// `request_id`: the reply carries `payload` and the identifier `*id`, which is
/// then used up. Where no identifier is left, nothing is emitted.
pub fn emit<Payload: View>(
    id: &mut usize,
    src: String,
    dest: String,
    request_id: Option<usize>,
    payload: Payload,
    output: &mut Vec<Message<Payload>>,
) -> (r: Result<(), NodeError>)
    ensures
        *old(id) < usize::MAX ==> {
            &&& r is Ok
            &&& *final(id) == *old(id) + 1
            &&& final(output)@.len() == old(output)@.len() + 1
            &&& final(output)@.drop_last() == old(output)@
            &&& final(output)@.take(old(output)@.len() as int) == old(output)@
            &&& final(output)@.last()@ == reply_view(
                src@,
                dest@,
                id_view(request_id),
                *old(id) as nat,
                payload@,
            )
            &&& final(output)@.last().body.msg_id == Some(*old(id))
            &&& final(output)@.last().body.in_reply_to == request_id
        },
        *old(id) == usize::MAX ==> {
            &&& r == Err::<(), NodeError>(NodeError::MsgIdsExhausted)
            &&& *final(id) == *old(id)
            &&& final(output)@ == old(output)@
        },
{
    if *id == usize::MAX {
        return Err(NodeError::MsgIdsExhausted);
    }
    output.push(reply(src, dest, request_id, *id, payload));
    *id = *id + 1;
    proof {
        assert(output@.take(old(output)@.len() as int) == old(output)@);
    }
    Ok(())
}

/// A node: it takes one message at a time and appends its replies to `output`.
pub trait Node<T>: Sized {
    /// The identifier that the node's next reply will carry.
    spec fn next_msg_id(&self) -> nat;

    /// What a step of this kind of node may do: whether, on `input`, a node
    /// may go from `self` to `post` and the output from `before` to `after`
    /// while the step returns `r`.
    spec fn stepped(
        self,
        input: Message<T>,
        post: Self,
        before: Seq<Message<T>>,
        after: Seq<Message<T>>,
        r: Result<(), NodeError>,
    ) -> bool;

    /// Handles `input` as `stepped` says. Whatever the node, on success the
    /// replies stand at the end of `output`, each addressed back to the sender
    /// and correlated with `input`, under fresh, growing identifiers; on
    /// failure nothing is emitted and no identifier is used up.
    fn step(&mut self, input: Message<T>, output: &mut Vec<Message<T>>) -> (r: Result<
        (),
        NodeError,
    >)
        ensures
            old(self).stepped(input, *final(self), old(output)@, final(output)@, r),
            r is Ok ==> answered(
                input,
                old(self).next_msg_id(),
                final(self).next_msg_id(),
                old(output)@,
                final(output)@,
            ),
            r is Err ==> final(output)@ == old(output)@ && final(self).next_msg_id() == old(
                self,
            ).next_msg_id(),
    ;
}

} // verus!

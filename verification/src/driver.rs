//! The driver: it hands the records of an input to a node one by one, in
//! their order, and collects each reply as a line of text. It stops at the
//! first record that is no message and at the first step that fails.

use vstd::prelude::*;
use crate::codec::{decode_value, encode, envelope_json, json_envelope, text_envelope, Wire};
use crate::json::{json_of, json_text, parse_value};
use crate::message::{Message, MessageView};
use crate::node::{are_replies, Node, NodeError};

verus! {

/// Why the driver stopped.
#[derive(Debug, Clone, Copy, PartialEq, Eq, Structural)]
pub enum DriverError {
    /// A record is no message.
    MalformedInput,
    /// The node refused to take a step, for the reason given.
    NodeStepFailed(NodeError),
}

/// The record at which the driver stopped, counted from zero, and why.
#[derive(Debug, Clone, Copy, PartialEq, Eq, Structural)]
pub struct Failure {
    pub record: usize,
    pub error: DriverError,
}

/// Whether `after` is `before` with one line more for each of `replies`, in
/// their order, each line being the text of its reply.
pub open spec fn written<P: Wire>(
    before: Seq<String>,
    after: Seq<String>,
    replies: Seq<Message<P>>,
) -> bool {
    &&& after.len() == before.len() + replies.len()
    &&& after.take(before.len() as int) == before
    &&& forall|i: int|
        0 <= i < replies.len() ==> (#[trigger] after[before.len() + i])@ == json_text(
            envelope_json::<P>(replies[i]@),
        )
}

/// Writes each of `replies` as a line at the end of `output`.
pub fn write_replies<P: Wire>(replies: &Vec<Message<P>>, output: &mut Vec<String>)
    ensures
        written(old(output)@, final(output)@, replies@),
{
    let mut i: usize = 0;
    assert(output@.take(output@.len() as int) == output@);
    while i < replies.len()
        invariant
            i <= replies@.len(),
            written(old(output)@, output@, replies@.take(i as int)),
        decreases replies@.len() - i,
    {
        let ghost lines = output@;
        let line = encode(&replies[i]);
        output.push(line);
        i = i + 1;
        proof {
            let before = old(output)@;
            let sent = replies@.take(i as int);
            assert(output@.take(before.len() as int) == lines.take(before.len() as int));
            assert forall|j: int| 0 <= j < sent.len() implies (#[trigger] output@[before.len()
                + j])@ == json_text(envelope_json::<P>(sent[j]@)) by {
                if j < i - 1 {
                    assert(output@[before.len() + j] == lines[before.len() + j]);
                    assert(sent[j] == replies@.take(i - 1)[j]);
                }
            }
        }
    }
    assert(replies@.take(i as int) == replies@);
}

/// What ends the handling of a record once the node has taken its step with
/// the outcome `stepped`: where the step succeeded, its `replies` are written
/// to the output, in their order; where it failed, nothing is written and the
/// failure is passed on with its cause.
pub open spec fn concluded<P: Wire>(
    stepped: Result<(), NodeError>,
    replies: Seq<Message<P>>,
    before: Seq<String>,
    after: Seq<String>,
    r: Result<(), DriverError>,
) -> bool {
    match stepped {
        Ok(_) => r is Ok && written(before, after, replies),
        Err(cause) => r == Err::<(), DriverError>(DriverError::NodeStepFailed(cause)) && after
            == before,
    }
}

/// What handling one record does, where `envelope` is the message that the
/// record holds, if it holds one: the node goes from `pre` to `post`, the
/// output from `before` to `after`, and `r` is returned.
///
/// A record that is no message is refused and changes nothing. Any other is
/// handed to the node, which takes one step on it, and the handling ends as
/// `concluded` says.
pub open spec fn handled<S: Node<P>, P: Wire>(
    envelope: Option<MessageView<P::V>>,
    pre: S,
    post: S,
    before: Seq<String>,
    after: Seq<String>,
    r: Result<(), DriverError>,
) -> bool {
    match envelope {
        None => r == Err::<(), DriverError>(DriverError::MalformedInput) && post == pre && after
            == before,
        Some(envelope) => exists|
            input: Message<P>,
            replies: Seq<Message<P>>,
            stepped: Result<(), NodeError>,
        |
            {
                &&& input@ == envelope
                &&& #[trigger] pre.stepped(input, post, Seq::empty(), replies, stepped)
                &&& stepped is Ok ==> are_replies(
                    replies,
                    input,
                    pre.next_msg_id(),
                    post.next_msg_id(),
                )
                &&& stepped is Err ==> post.next_msg_id() == pre.next_msg_id()
                &&& concluded(stepped, replies, before, after, r)
            },
    }
}

/// Ends the handling of a record once the node has taken its step.
pub fn conclude<P: Wire>(
    stepped: Result<(), NodeError>,
    replies: &Vec<Message<P>>,
    output: &mut Vec<String>,
) -> (r: Result<(), DriverError>)
    ensures
        concluded(stepped, replies@, old(output)@, final(output)@, r),
{
    match stepped {
        Ok(_) => {
            write_replies(replies, output);
            Ok(())
        },
        Err(cause) => Err(DriverError::NodeStepFailed(cause)),
    }
}

/// Handles one record that was read as a document.
pub fn process_value<S: Node<P>, P: Wire>(
    state: &mut S,
    record: &serde_json::Value,
    output: &mut Vec<String>,
) -> (r: Result<(), DriverError>)
    ensures
        handled::<S, P>(
            json_envelope::<P>(json_of(*record)),
            *old(state),
            *final(state),
            old(output)@,
            final(output)@,
            r,
        ),
{
    let input = match decode_value::<P>(record) {
        Ok(input) => input,
        Err(_) => {
            return Err(DriverError::MalformedInput);
        },
    };
    let ghost request = input;
    let mut replies: Vec<Message<P>> = Vec::new();
    let stepped = state.step(input, &mut replies);
    let r = conclude(stepped, &replies, output);
    proof {
        assert(replies@.skip(0) == replies@);
        assert(old(state).stepped(request, *state, Seq::empty(), replies@, stepped));
    }
    r
}

/// Handles one record given as text.
pub fn process_record<S: Node<P>, P: Wire>(
    state: &mut S,
    record: &str,
    output: &mut Vec<String>,
) -> (r: Result<(), DriverError>)
    ensures
        handled::<S, P>(
            text_envelope::<P>(record@),
            *old(state),
            *final(state),
            old(output)@,
            final(output)@,
            r,
        ),
{
    match parse_value(record) {
        Ok(v) => process_value(state, &v, output),
        Err(_) => Err(DriverError::MalformedInput),
    }
}

/// Whether the identifiers of `replies` lie in `first_id..next_id` and grow
/// strictly from each reply to the next.
pub open spec fn ids_ascend<P>(replies: Seq<Message<P>>, first_id: nat, next_id: nat) -> bool {
    &&& first_id <= next_id
    &&& forall|i: int|
        0 <= i < replies.len() ==> (#[trigger] replies[i]).body.msg_id is Some && first_id
            <= replies[i].body.msg_id->0 < next_id
    &&& forall|i: int, j: int|
        0 <= i < j < replies.len() ==> (#[trigger] replies[i]).body.msg_id->0 < (
        #[trigger] replies[j]).body.msg_id->0
}

/// Whether `reply` answers the message of one of the first `count` records.
pub open spec fn answers_a_record<P: Wire>(
    reply: Message<P>,
    records: Seq<String>,
    count: int,
) -> bool {
    exists|k: int|
        0 <= k < count && k < records.len() && (#[trigger] text_envelope::<P>(records[k]@)) is Some
            && reply@.answers(text_envelope::<P>(records[k]@)->0)
}

/// Identifiers never go back: where the replies `sent` so far carry
/// identifiers that grow strictly, and a further step emits `replies`, the
/// identifiers of all of them, in the order of their emission, grow strictly.
pub proof fn lemma_successive_ids_ascend<P>(
    sent: Seq<Message<P>>,
    replies: Seq<Message<P>>,
    request: Message<P>,
    first_id: nat,
    middle_id: nat,
    next_id: nat,
)
    requires
        ids_ascend(sent, first_id, middle_id),
        are_replies(replies, request, middle_id, next_id),
    ensures
        ids_ascend(sent + replies, first_id, next_id),
{
    let all = sent + replies;
    assert forall|i: int| 0 <= i < all.len() implies (#[trigger] all[i]).body.msg_id is Some
        && first_id <= all[i].body.msg_id->0 < next_id by {
        if i < sent.len() {
            assert(all[i] == sent[i]);
        } else {
            assert(all[i] == replies[i - sent.len()]);
        }
    }
    assert forall|i: int, j: int| 0 <= i < j < all.len() implies (#[trigger] all[i]).body.msg_id->0
        < (#[trigger] all[j]).body.msg_id->0 by {
        if i < sent.len() {
            assert(all[i] == sent[i]);
        } else {
            assert(all[i] == replies[i - sent.len()]);
        }
        if j < sent.len() {
            assert(all[j] == sent[j]);
        } else {
            assert(all[j] == replies[j - sent.len()]);
        }
    }
}

/// How a run ends whose last record was handled with the outcome `last`: well
/// where that record was handled well, and else with the failure at that
/// record, which is the record number `record`.
pub open spec fn ended_at(record: int, last: Result<(), DriverError>) -> Result<(), Failure> {
    match last {
        Ok(_) => Ok(()),
        Err(error) => Err(Failure { record: record as usize, error }),
    }
}

/// Names a point that a run may have come to: the node, the output and the
/// outcome so far. It holds of every point.
pub open spec fn run_point<S>(node: S, output: Seq<String>, r: Result<(), Failure>) -> bool {
    true
}

/// What a run over `records` does: the node goes from `pre` to `post`, the
/// output from `before` to `after`, and `r` is returned.
///
/// The records are handled one by one, in their order, each as `handled` says
/// and from where the one before left the node and the output. The run ends
/// well after the last record, and it ends at the first record whose handling
/// fails: no later record is looked at.
pub open spec fn ran<S: Node<P>, P: Wire>(
    pre: S,
    records: Seq<String>,
    post: S,
    before: Seq<String>,
    after: Seq<String>,
    r: Result<(), Failure>,
) -> bool
    decreases records.len(),
{
    if records.len() == 0 {
        r is Ok && post == pre && after == before
    } else {
        exists|mid: S, lines: Seq<String>, earlier: Result<(), Failure>|
            {
                &&& #[trigger] run_point(mid, lines, earlier)
                &&& ran::<S, P>(pre, records.drop_last(), mid, before, lines, earlier)
                &&& match earlier {
                    Err(_) => r == earlier && post == mid && after == lines,
                    Ok(_) => exists|last: Result<(), DriverError>|
                        {
                            &&& #[trigger] handled::<S, P>(
                                text_envelope::<P>(records.last()@),
                                mid,
                                post,
                                lines,
                                after,
                                last,
                            )
                            &&& r == ended_at(records.len() - 1, last)
                        },
                }
            }
    }
}

/// A run that has failed stays as it is, however many records follow.
proof fn lemma_ran_stops<S: Node<P>, P: Wire>(
    pre: S,
    records: Seq<String>,
    count: int,
    post: S,
    before: Seq<String>,
    after: Seq<String>,
    r: Result<(), Failure>,
    more: int,
)
    requires
        0 <= count <= more <= records.len(),
        r is Err,
        ran::<S, P>(pre, records.take(count), post, before, after, r),
    ensures
        ran::<S, P>(pre, records.take(more), post, before, after, r),
    decreases more - count,
{
    if count < more {
        lemma_ran_stops::<S, P>(pre, records, count, post, before, after, r, more - 1);
        assert(records.take(more).drop_last() == records.take(more - 1));
        assert(run_point(post, after, r));
    }
}

/// Runs a node over `records`, as `ran` says, and writes the replies to
/// `output`, one line each.
///
/// Whatever the node and however the run ends, the output keeps what it held,
/// and what was added are replies to records of this run, each addressed back
/// to the sender of its record, under identifiers that grow strictly. A run
/// that ends well has found a message in every record; one that fails names
/// the first record that is no message or on which the node's step failed.
pub fn main_loop<S: Node<P>, P: Wire>(
    state: &mut S,
    records: &Vec<String>,
    output: &mut Vec<String>,
) -> (r: Result<(), Failure>)
    ensures
        ran::<S, P>(*old(state), records@, *final(state), old(output)@, final(output)@, r),
        exists|replies: Seq<Message<P>>|
            {
                &&& #[trigger] written(old(output)@, final(output)@, replies)
                &&& ids_ascend(replies, old(state).next_msg_id(), final(state).next_msg_id())
                &&& forall|i: int|
                    0 <= i < replies.len() ==> answers_a_record(
                        #[trigger] replies[i],
                        records@,
                        records@.len() as int,
                    )
            },
        match r {
            Ok(_) => forall|k: int|
                0 <= k < records@.len() ==> (#[trigger] text_envelope::<P>(records@[k]@)) is Some,
            Err(failure) => {
                &&& failure.record < records@.len()
                &&& forall|k: int|
                    0 <= k < failure.record ==> (#[trigger] text_envelope::<P>(
                        records@[k]@,
                    )) is Some
                &&& match failure.error {
                    DriverError::MalformedInput => text_envelope::<P>(
                        records@[failure.record as int]@,
                    ) is None,
                    DriverError::NodeStepFailed(_) => text_envelope::<P>(
                        records@[failure.record as int]@,
                    ) is Some,
                }
            },
        },
{
    let ghost mut sent: Seq<Message<P>> = Seq::empty();
    let mut i: usize = 0;
    assert(output@.take(output@.len() as int) == output@);
    while i < records.len()
        invariant
            i <= records@.len(),
            ran::<S, P>(
                *old(state),
                records@.take(i as int),
                *state,
                old(output)@,
                output@,
                Ok::<(), Failure>(()),
            ),
            written(old(output)@, output@, sent),
            ids_ascend(sent, old(state).next_msg_id(), state.next_msg_id()),
            forall|j: int|
                0 <= j < sent.len() ==> answers_a_record(#[trigger] sent[j], records@, i as int),
            forall|k: int| 0 <= k < i ==> (#[trigger] text_envelope::<P>(records@[k]@)) is Some,
        decreases records@.len() - i,
    {
        let ghost pre = *state;
        let ghost lines = output@;
        let last = process_record(state, records[i].as_str(), output);
        proof {
            let upto = records@.take(i + 1);
            assert(upto.drop_last() == records@.take(i as int));
            assert(upto.last() == records@[i as int]);
            assert(handled::<S, P>(
                text_envelope::<P>(upto.last()@),
                pre,
                *state,
                lines,
                output@,
                last,
            ));
            assert(run_point(pre, lines, Ok::<(), Failure>(())));
            assert(ran::<S, P>(
                *old(state),
                upto,
                *state,
                old(output)@,
                output@,
                ended_at(i as int, last),
            ));
        }
        match last {
            Ok(_) => {
                proof {
                    let envelope = text_envelope::<P>(records@[i as int]@)->0;
                    let (input, replies, stepped) = choose|
                        input: Message<P>,
                        replies: Seq<Message<P>>,
                        stepped: Result<(), NodeError>,
                    |
                        {
                            &&& input@ == envelope
                            &&& #[trigger] pre.stepped(
                                input,
                                *state,
                                Seq::empty(),
                                replies,
                                stepped,
                            )
                            &&& stepped is Ok ==> are_replies(
                                replies,
                                input,
                                pre.next_msg_id(),
                                state.next_msg_id(),
                            )
                            &&& stepped is Err ==> state.next_msg_id() == pre.next_msg_id()
                            &&& concluded(stepped, replies, lines, output@, last)
                        };
                    lemma_successive_ids_ascend(
                        sent,
                        replies,
                        input,
                        old(state).next_msg_id(),
                        pre.next_msg_id(),
                        state.next_msg_id(),
                    );
                    let all = sent + replies;
                    let before = old(output)@;
                    assert(output@.take(before.len() as int) == lines.take(before.len() as int));
                    assert forall|j: int| 0 <= j < all.len() implies (#[trigger] output@[before.len(
                    ) + j])@ == json_text(envelope_json::<P>(all[j]@)) by {
                        if j < sent.len() {
                            assert(output@.take(lines.len() as int)[before.len() + j]
                                == lines[before.len() + j]);
                        } else {
                            assert(output@[lines.len() + (j - sent.len())]@ == json_text(
                                envelope_json::<P>(replies[j - sent.len()]@),
                            ));
                        }
                    }
                    assert forall|j: int| 0 <= j < all.len() implies answers_a_record(
                        #[trigger] all[j],
                        records@,
                        i + 1,
                    ) by {
                        if j < sent.len() {
                            assert(answers_a_record(sent[j], records@, i as int));
                        } else {
                            assert(all[j].is_reply_to(input));
                            assert(text_envelope::<P>(records@[i as int]@) is Some);
                        }
                    }
                    sent = all;
                }
            },
            Err(error) => {
                proof {
                    lemma_ran_stops::<S, P>(
                        *old(state),
                        records@,
                        i + 1,
                        *state,
                        old(output)@,
                        output@,
                        ended_at(i as int, last),
                        records@.len() as int,
                    );
                    assert(records@.take(records@.len() as int) == records@);
                    assert forall|j: int| 0 <= j < sent.len() implies answers_a_record(
                        #[trigger] sent[j],
                        records@,
                        records@.len() as int,
                    ) by {
                        assert(answers_a_record(sent[j], records@, i as int));
                    }
                }
                return Err(Failure { record: i, error });
            },
        }
        i = i + 1;
    }
    assert(records@.take(i as int) == records@);
    Ok(())
}

} // verus!

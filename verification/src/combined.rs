//! A node that serves two workloads at once: it echoes text and it makes
//! unique identifiers.

use vstd::prelude::*;
use crate::codec::Wire;
use crate::members::{
    init_members, init_object, insert_text, is_kind, lemma_member_names_differ,
    lemma_member_of_submap, lemma_texts_read_back, read_text, read_texts, tagged,
    tagged_object, text_member, texts_member,
};
use crate::json::Json;
use crate::clock::epoch_seconds;
use crate::message::{Message, MessageBody, MessageView};
use crate::node::{answered, emit, lemma_answered_once, Node, NodeError};
use crate::topology::names;
use crate::unique_id::{format_unique_id, unique_id};

verus! {

/// What a message to or from the combined node carries.
#[derive(Debug, Clone, PartialEq, Eq)]
pub enum Payload {
    Echo { echo: String },
    EchoOk { echo: String },
    Init { node_id: String, node_ids: Vec<String> },
    InitOk {  },
    Generate {  },
    GenerateOk { id: String },
}

/// A payload of the combined node as a mathematical value.
pub enum PayloadView {
    Echo { echo: Seq<char> },
    EchoOk { echo: Seq<char> },
    Init { node_id: Seq<char>, node_ids: Seq<Seq<char>> },
    InitOk,
    Generate,
    GenerateOk { id: Seq<char> },
}

impl View for Payload {
    type V = PayloadView;

    open spec fn view(&self) -> PayloadView {
        match *self {
            Payload::Echo { echo } => PayloadView::Echo { echo: echo@ },
            Payload::EchoOk { echo } => PayloadView::EchoOk { echo: echo@ },
            Payload::Init { node_id, node_ids } => PayloadView::Init {
                node_id: node_id@,
                node_ids: names(node_ids@),
            },
            Payload::InitOk {  } => PayloadView::InitOk,
            Payload::Generate {  } => PayloadView::Generate,
            Payload::GenerateOk { id } => PayloadView::GenerateOk { id: id@ },
        }
    }
}

/// The kinds that the combined node knows are different texts.
pub proof fn lemma_combined_kinds_differ()
    ensures
        "echo"@ != "echo_ok"@,
        "echo"@ != "init"@,
        "echo"@ != "init_ok"@,
        "echo"@ != "generate"@,
        "echo"@ != "generate_ok"@,
        "echo_ok"@ != "init"@,
        "echo_ok"@ != "init_ok"@,
        "echo_ok"@ != "generate"@,
        "echo_ok"@ != "generate_ok"@,
        "init"@ != "init_ok"@,
        "init"@ != "generate"@,
        "init"@ != "generate_ok"@,
        "init_ok"@ != "generate"@,
        "init_ok"@ != "generate_ok"@,
        "generate"@ != "generate_ok"@,
{
    reveal_strlit("echo");
    reveal_strlit("echo_ok");
    reveal_strlit("init");
    reveal_strlit("init_ok");
    reveal_strlit("generate");
    reveal_strlit("generate_ok");
    assert("echo"@.len() != "echo_ok"@.len());
    assert("echo"@[0] != "init"@[0]);
    assert("echo"@.len() != "init_ok"@.len());
    assert("echo"@.len() != "generate"@.len());
    assert("echo"@.len() != "generate_ok"@.len());
    assert("echo_ok"@.len() != "init"@.len());
    assert("echo_ok"@[0] != "init_ok"@[0]);
    assert("echo_ok"@.len() != "generate"@.len());
    assert("echo_ok"@.len() != "generate_ok"@.len());
    assert("init"@.len() != "init_ok"@.len());
    assert("init"@.len() != "generate"@.len());
    assert("init"@.len() != "generate_ok"@.len());
    assert("init_ok"@.len() != "generate"@.len());
    assert("init_ok"@.len() != "generate_ok"@.len());
    assert("generate"@.len() != "generate_ok"@.len());
}

impl Wire for Payload {
    open spec fn members(payload: PayloadView) -> Map<Seq<char>, Json> {
        match payload {
            PayloadView::Echo { echo } => tagged("echo"@).insert("echo"@, Json::Str(echo)),
            PayloadView::EchoOk { echo } => tagged("echo_ok"@).insert("echo"@, Json::Str(echo)),
            PayloadView::Init { node_id, node_ids } => init_members(node_id, node_ids),
            PayloadView::InitOk => tagged("init_ok"@),
            PayloadView::Generate => tagged("generate"@),
            PayloadView::GenerateOk { id } => tagged("generate_ok"@).insert("id"@, Json::Str(id)),
        }
    }

    open spec fn payload_of(members: Map<Seq<char>, Json>) -> Option<PayloadView> {
        let kind = text_member(members, "type"@);
        if kind == Some("echo"@) {
            match text_member(members, "echo"@) {
                Some(echo) => Some(PayloadView::Echo { echo }),
                None => None,
            }
        } else if kind == Some("echo_ok"@) {
            match text_member(members, "echo"@) {
                Some(echo) => Some(PayloadView::EchoOk { echo }),
                None => None,
            }
        } else if kind == Some("init"@) {
            match (text_member(members, "node_id"@), texts_member(members, "node_ids"@)) {
                (Some(node_id), Some(node_ids)) => Some(PayloadView::Init { node_id, node_ids }),
                _ => None,
            }
        } else if kind == Some("init_ok"@) {
            Some(PayloadView::InitOk)
        } else if kind == Some("generate"@) {
            Some(PayloadView::Generate)
        } else if kind == Some("generate_ok"@) {
            match text_member(members, "id"@) {
                Some(id) => Some(PayloadView::GenerateOk { id }),
                None => None,
            }
        } else {
            None
        }
    }

    fn read(body: &serde_json::Value) -> (r: Option<Payload>) {
        if is_kind(body, "echo") {
            match read_text(body, "echo") {
                Some(echo) => Some(Payload::Echo { echo }),
                None => None,
            }
        } else if is_kind(body, "echo_ok") {
            match read_text(body, "echo") {
                Some(echo) => Some(Payload::EchoOk { echo }),
                None => None,
            }
        } else if is_kind(body, "init") {
            match (read_text(body, "node_id"), read_texts(body, "node_ids")) {
                (Some(node_id), Some(node_ids)) => Some(Payload::Init { node_id, node_ids }),
                _ => None,
            }
        } else if is_kind(body, "init_ok") {
            Some(Payload::InitOk {  })
        } else if is_kind(body, "generate") {
            Some(Payload::Generate {  })
        } else if is_kind(body, "generate_ok") {
            match read_text(body, "id") {
                Some(id) => Some(Payload::GenerateOk { id }),
                None => None,
            }
        } else {
            None
        }
    }

    fn write(&self) -> (r: serde_json::Map<String, serde_json::Value>) {
        match self {
            Payload::Echo { echo } => {
                let mut members = tagged_object("echo");
                insert_text(&mut members, "echo", echo);
                members
            },
            Payload::EchoOk { echo } => {
                let mut members = tagged_object("echo_ok");
                insert_text(&mut members, "echo", echo);
                members
            },
            Payload::Init { node_id, node_ids } => init_object(node_id, node_ids),
            Payload::InitOk {  } => tagged_object("init_ok"),
            Payload::Generate {  } => tagged_object("generate"),
            Payload::GenerateOk { id } => {
                let mut members = tagged_object("generate_ok");
                insert_text(&mut members, "id", id);
                members
            },
        }
    }

    proof fn lemma_read_back(payload: PayloadView, body: Map<Seq<char>, Json>) {
        lemma_member_names_differ();
        lemma_combined_kinds_differ();
        let members = Self::members(payload);
        lemma_member_of_submap(members, body, "type"@);
        match payload {
            PayloadView::Echo { echo } => {
                lemma_member_of_submap(members, body, "echo"@);
            },
            PayloadView::EchoOk { echo } => {
                lemma_member_of_submap(members, body, "echo"@);
            },
            PayloadView::Init { node_id, node_ids } => {
                lemma_member_of_submap(members, body, "node_id"@);
                lemma_member_of_submap(members, body, "node_ids"@);
                lemma_texts_read_back(node_ids);
            },
            PayloadView::InitOk => {},
            PayloadView::Generate => {},
            PayloadView::GenerateOk { id } => {
                lemma_member_of_submap(members, body, "id"@);
            },
        }
    }

    proof fn lemma_members_hold_no_id(payload: PayloadView) {
        lemma_member_names_differ();
    }
}

/// What the reply to a request carries, where the request was sent to `dest`,
/// the node's counter stands at `counter` and the clock reads `clock`; or why
/// there is no reply: the payload is of a kind that the node only sends, or an
/// identifier is asked for while the clock stands before the epoch.
pub open spec fn combined_answer(
    payload: PayloadView,
    dest: Seq<char>,
    counter: nat,
    clock: Option<u64>,
) -> Result<PayloadView, NodeError> {
    match payload {
        PayloadView::Init { .. } => Ok(PayloadView::InitOk),
        PayloadView::Echo { echo } => Ok(PayloadView::EchoOk { echo }),
        PayloadView::Generate => match clock {
            Some(seconds) => Ok(
                PayloadView::GenerateOk { id: unique_id(seconds as nat, dest, counter) },
            ),
            None => Err(NodeError::ClockBeforeEpoch),
        },
        PayloadView::EchoOk { .. } | PayloadView::InitOk | PayloadView::GenerateOk { .. } => Err(
            NodeError::UnexpectedMessageKind,
        ),
    }
}

/// What a step on `input` does when the clock reads `clock`: the counter goes
/// from `pre` to `post`, the output from `before` to `after`, and the step
/// returns `r`.
pub open spec fn combined_stepped(
    pre: nat,
    input: MessageView<PayloadView>,
    clock: Option<u64>,
    post: nat,
    before: Seq<Message<Payload>>,
    after: Seq<Message<Payload>>,
    r: Result<(), NodeError>,
) -> bool {
    match combined_answer(input.body.payload, input.dest, pre, clock) {
        Err(e) => r == Err::<(), NodeError>(e) && post == pre && after == before,
        Ok(answer) => if pre < usize::MAX {
            &&& r is Ok
            &&& post == pre + 1
            &&& after.len() == before.len() + 1
            &&& after.drop_last() == before
            &&& after.last()@ == input.reply(pre, answer)
        } else {
            &&& r == Err::<(), NodeError>(NodeError::MsgIdsExhausted)
            &&& post == pre
            &&& after == before
        },
    }
}

/// A node that answers `echo` with the same text and `generate` with a fresh
/// identifier.
pub struct EchoNode {
    id: usize,
}

impl EchoNode {
    /// A node that has sent nothing yet.
    pub fn new() -> (node: EchoNode)
        ensures
            node.next_msg_id() == 0,
    {
        EchoNode { id: 0 }
    }

    /// A node whose next reply will carry the identifier `next_msg_id`.
    pub fn starting_at(next_msg_id: usize) -> (node: EchoNode)
        ensures
            node.next_msg_id() == next_msg_id,
    {
        EchoNode { id: next_msg_id }
    }

    /// Makes an identifier from the wall clock, the name under which the node
    /// was addressed and the node's counter. It fails only where the clock
    /// stands before the epoch.
    pub fn gen_unique_id(&self, dest_node_id: &str) -> (r: Result<String, NodeError>)
        ensures
            r matches Ok(id) ==> exists|seconds: u64|
                id@ == unique_id(seconds as nat, dest_node_id@, self.next_msg_id()),
            r matches Err(e) ==> e == NodeError::ClockBeforeEpoch,
    {
        match epoch_seconds() {
            Some(seconds) => {
                let id = format_unique_id(seconds, dest_node_id, self.id);
                assert(id@ == unique_id(seconds as nat, dest_node_id@, self.next_msg_id()));
                Ok(id)
            },
            None => Err(NodeError::ClockBeforeEpoch),
        }
    }

    /// Takes one step with the clock reading given: a request is answered by
    /// exactly one reply, as `combined_answer` says, which uses up one
    /// identifier; a failed step changes nothing.
    pub fn step_at(
        &mut self,
        input: Message<Payload>,
        clock: Option<u64>,
        output: &mut Vec<Message<Payload>>,
    ) -> (r: Result<(), NodeError>)
        ensures
            combined_stepped(
                old(self).next_msg_id(),
                input@,
                clock,
                final(self).next_msg_id(),
                old(output)@,
                final(output)@,
                r,
            ),
            r is Ok ==> answered(
                input,
                old(self).next_msg_id(),
                final(self).next_msg_id(),
                old(output)@,
                final(output)@,
            ),
    {
        let Message { src, dest, body } = input;
        let MessageBody { msg_id, in_reply_to: _, payload } = body;
        let answer = match payload {
            Payload::Init { .. } => Payload::InitOk {  },
            Payload::Echo { echo } => Payload::EchoOk { echo },
            Payload::EchoOk { .. } | Payload::InitOk {  } | Payload::GenerateOk { .. } => {
                return Err(NodeError::UnexpectedMessageKind);
            },
            Payload::Generate {  } => match clock {
                Some(seconds) => Payload::GenerateOk {
                    id: format_unique_id(seconds, dest.as_str(), self.id),
                },
                None => {
                    return Err(NodeError::ClockBeforeEpoch);
                },
            },
        };
        let r = emit(&mut self.id, src, dest, msg_id, answer, output);
        proof {
            if r is Ok {
                lemma_answered_once(input, old(self).id, old(output)@, output@);
            }
        }
        r
    }
}

impl Node<Payload> for EchoNode {
    closed spec fn next_msg_id(&self) -> nat {
        self.id as nat
    }

    /// The step is the one that `step_at` takes for some reading of the
    /// clock.
    open spec fn stepped(
        self,
        input: Message<Payload>,
        post: EchoNode,
        before: Seq<Message<Payload>>,
        after: Seq<Message<Payload>>,
        r: Result<(), NodeError>,
    ) -> bool {
        exists|clock: Option<u64>|
            combined_stepped(
                self.next_msg_id(),
                input@,
                clock,
                post.next_msg_id(),
                before,
                after,
                r,
            )
    }

    /// Takes one step, as `stepped` says: it reads the wall clock where an
    /// identifier is asked for, and goes on as `step_at` does.
    fn step(&mut self, input: Message<Payload>, output: &mut Vec<Message<Payload>>) -> (r: Result<
        (),
        NodeError,
    >) {
        let clock = match input.body.payload {
            Payload::Generate {  } => epoch_seconds(),
            _ => None,
        };
        self.step_at(input, clock, output)
    }
}

} // verus!

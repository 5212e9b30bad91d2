//! The echo node: it hands back the text it is sent.

use vstd::prelude::*;
use crate::codec::Wire;
use crate::members::{
    init_members, init_object, insert_text, is_kind, lemma_member_names_differ,
    lemma_member_of_submap, lemma_texts_read_back, read_text, read_texts, tagged,
    tagged_object, text_member, texts_member,
};
use crate::json::Json;
use crate::message::{Message, MessageBody};
use crate::node::{emit, lemma_answered_once, Node, NodeError};
use crate::topology::names;

verus! {

/// What a message of the echo workload carries.
#[derive(Debug, Clone, PartialEq, Eq)]
pub enum EchoPayload {
    Init { node_id: String, node_ids: Vec<String> },
    InitOk {  },
    Echo { echo: String },
    EchoOk { echo: String },
}

/// An echo payload as a mathematical value.
pub enum EchoPayloadView {
    Init { node_id: Seq<char>, node_ids: Seq<Seq<char>> },
    InitOk,
    Echo { echo: Seq<char> },
    EchoOk { echo: Seq<char> },
}

impl View for EchoPayload {
    type V = EchoPayloadView;

    open spec fn view(&self) -> EchoPayloadView {
        match *self {
            EchoPayload::Init { node_id, node_ids } => EchoPayloadView::Init {
                node_id: node_id@,
                node_ids: names(node_ids@),
            },
            EchoPayload::InitOk {  } => EchoPayloadView::InitOk,
            EchoPayload::Echo { echo } => EchoPayloadView::Echo { echo: echo@ },
            EchoPayload::EchoOk { echo } => EchoPayloadView::EchoOk { echo: echo@ },
        }
    }
}

/// The kinds of the echo workload are different texts.
pub proof fn lemma_echo_kinds_differ()
    ensures
        "init"@ != "init_ok"@,
        "init"@ != "echo"@,
        "init"@ != "echo_ok"@,
        "init_ok"@ != "echo"@,
        "init_ok"@ != "echo_ok"@,
        "echo"@ != "echo_ok"@,
{
    reveal_strlit("init");
    reveal_strlit("init_ok");
    reveal_strlit("echo");
    reveal_strlit("echo_ok");
    assert("init"@.len() != "init_ok"@.len());
    assert("init"@[0] != "echo"@[0]);
    assert("init"@.len() != "echo_ok"@.len());
    assert("init_ok"@.len() != "echo"@.len());
    assert("init_ok"@[0] != "echo_ok"@[0]);
    assert("echo"@.len() != "echo_ok"@.len());
}

impl Wire for EchoPayload {
    open spec fn members(payload: EchoPayloadView) -> Map<Seq<char>, Json> {
        match payload {
            EchoPayloadView::Init { node_id, node_ids } => init_members(node_id, node_ids),
            EchoPayloadView::InitOk => tagged("init_ok"@),
            EchoPayloadView::Echo { echo } => tagged("echo"@).insert("echo"@, Json::Str(echo)),
            EchoPayloadView::EchoOk { echo } => tagged("echo_ok"@).insert(
                "echo"@,
                Json::Str(echo),
            ),
        }
    }

    open spec fn payload_of(members: Map<Seq<char>, Json>) -> Option<EchoPayloadView> {
        let kind = text_member(members, "type"@);
        if kind == Some("init"@) {
            match (text_member(members, "node_id"@), texts_member(members, "node_ids"@)) {
                (Some(node_id), Some(node_ids)) => Some(
                    EchoPayloadView::Init { node_id, node_ids },
                ),
                _ => None,
            }
        } else if kind == Some("init_ok"@) {
            Some(EchoPayloadView::InitOk)
        } else if kind == Some("echo"@) {
            match text_member(members, "echo"@) {
                Some(echo) => Some(EchoPayloadView::Echo { echo }),
                None => None,
            }
        } else if kind == Some("echo_ok"@) {
            match text_member(members, "echo"@) {
                Some(echo) => Some(EchoPayloadView::EchoOk { echo }),
                None => None,
            }
        } else {
            None
        }
    }

    fn read(body: &serde_json::Value) -> (r: Option<EchoPayload>) {
        if is_kind(body, "init") {
            match (read_text(body, "node_id"), read_texts(body, "node_ids")) {
                (Some(node_id), Some(node_ids)) => Some(EchoPayload::Init { node_id, node_ids }),
                _ => None,
            }
        } else if is_kind(body, "init_ok") {
            Some(EchoPayload::InitOk {  })
        } else if is_kind(body, "echo") {
            match read_text(body, "echo") {
                Some(echo) => Some(EchoPayload::Echo { echo }),
                None => None,
            }
        } else if is_kind(body, "echo_ok") {
            match read_text(body, "echo") {
                Some(echo) => Some(EchoPayload::EchoOk { echo }),
                None => None,
            }
        } else {
            None
        }
    }

    fn write(&self) -> (r: serde_json::Map<String, serde_json::Value>) {
        match self {
            EchoPayload::Init { node_id, node_ids } => init_object(node_id, node_ids),
            EchoPayload::InitOk {  } => tagged_object("init_ok"),
            EchoPayload::Echo { echo } => {
                let mut members = tagged_object("echo");
                insert_text(&mut members, "echo", echo);
                members
            },
            EchoPayload::EchoOk { echo } => {
                let mut members = tagged_object("echo_ok");
                insert_text(&mut members, "echo", echo);
                members
            },
        }
    }

    proof fn lemma_read_back(payload: EchoPayloadView, body: Map<Seq<char>, Json>) {
        lemma_member_names_differ();
        lemma_echo_kinds_differ();
        let members = Self::members(payload);
        lemma_member_of_submap(members, body, "type"@);
        match payload {
            EchoPayloadView::Init { node_id, node_ids } => {
                lemma_member_of_submap(members, body, "node_id"@);
                lemma_member_of_submap(members, body, "node_ids"@);
                lemma_texts_read_back(node_ids);
            },
            EchoPayloadView::InitOk => {},
            EchoPayloadView::Echo { echo } => {
                lemma_member_of_submap(members, body, "echo"@);
            },
            EchoPayloadView::EchoOk { echo } => {
                lemma_member_of_submap(members, body, "echo"@);
            },
        }
    }

    proof fn lemma_members_hold_no_id(payload: EchoPayloadView) {
        lemma_member_names_differ();
    }
}

/// What the reply to a request with `payload` carries, or nothing where the
/// payload is of a kind that an echo node only sends.
pub open spec fn echo_answer(payload: EchoPayloadView) -> Option<EchoPayloadView> {
    match payload {
        EchoPayloadView::Init { .. } => Some(EchoPayloadView::InitOk),
        EchoPayloadView::Echo { echo } => Some(EchoPayloadView::EchoOk { echo }),
        EchoPayloadView::InitOk | EchoPayloadView::EchoOk { .. } => None,
    }
}

/// A node that answers each `echo` with the same text.
pub struct EchoNode {
    id: usize,
}

impl EchoNode {
    /// A node that has sent nothing yet.
    pub fn new() -> (node: EchoNode)
        ensures
            node.next_msg_id() == 0,
    {
        EchoNode { id: 0 }
    }

    /// A node whose next reply will carry the identifier `next_msg_id`.
    pub fn starting_at(next_msg_id: usize) -> (node: EchoNode)
        ensures
            node.next_msg_id() == next_msg_id,
    {
        EchoNode { id: next_msg_id }
    }
}

impl Node<EchoPayload> for EchoNode {
    closed spec fn next_msg_id(&self) -> nat {
        self.id as nat
    }

    /// A request is answered by exactly one reply, as `echo_answer` says,
    /// which uses up one identifier. On a payload that such a node only sends,
    /// and when no identifier is left, the step fails and changes nothing.
    open spec fn stepped(
        self,
        input: Message<EchoPayload>,
        post: EchoNode,
        before: Seq<Message<EchoPayload>>,
        after: Seq<Message<EchoPayload>>,
        r: Result<(), NodeError>,
    ) -> bool {
        match echo_answer(input@.body.payload) {
            None => {
                &&& r == Err::<(), NodeError>(NodeError::UnexpectedMessageKind)
                &&& post.next_msg_id() == self.next_msg_id()
                &&& after == before
            },
            Some(answer) => if self.next_msg_id() < usize::MAX {
                &&& r is Ok
                &&& post.next_msg_id() == self.next_msg_id() + 1
                &&& after.len() == before.len() + 1
                &&& after.drop_last() == before
                &&& after.last()@ == input@.reply(self.next_msg_id(), answer)
            } else {
                &&& r == Err::<(), NodeError>(NodeError::MsgIdsExhausted)
                &&& post.next_msg_id() == self.next_msg_id()
                &&& after == before
            },
        }
    }

    /// Takes one step, as `stepped` says.
    fn step(&mut self, input: Message<EchoPayload>, output: &mut Vec<Message<EchoPayload>>) -> (r:
        Result<(), NodeError>) {
        let Message { src, dest, body } = input;
        let MessageBody { msg_id, in_reply_to: _, payload } = body;
        let answer = match payload {
            EchoPayload::Init { .. } => EchoPayload::InitOk {  },
            EchoPayload::Echo { echo } => EchoPayload::EchoOk { echo },
            EchoPayload::EchoOk { .. } | EchoPayload::InitOk {  } => {
                return Err(NodeError::UnexpectedMessageKind);
            },
        };
        let r = emit(&mut self.id, src, dest, msg_id, answer, output);
        proof {
            if r is Ok {
                lemma_answered_once(input, old(self).id, old(output)@, output@);
            }
        }
        r
    }
}

} // verus!

//! The broadcast node: it collects the values it is sent, hands them out on
//! request, and keeps the topology it was last told.

use vstd::prelude::*;
use vstd::string::StringExecFns;
use crate::codec::Wire;
use crate::members::{
    adjacency_json, adjacency_member, adjacency_value, init_members, init_object, int32_member,
    int32s_json, int32s_member, int32s_value, is_kind, lemma_adjacency_read_back,
    lemma_int32s_read_back, lemma_member_names_differ, lemma_member_of_submap,
    lemma_texts_read_back, read_adjacency, read_int32, read_int32s, read_text, read_texts,
    tagged, tagged_object, text_member, texts_member,
};
use crate::json::{object_insert, value_from_i64, Json};
use crate::message::{Message, MessageBody};
use crate::node::{emit, lemma_answered_once, Node, NodeError};
use crate::topology::{names, Topology};

verus! {

/// What a message of the broadcast workload carries.
#[derive(Debug, Clone, PartialEq, Eq)]
pub enum BroadcastPayload {
    Init { node_id: String, node_ids: Vec<String> },
    InitOk {  },
    Broadcast { message: i32 },
    BroadcastOk {  },
    Read {  },
    ReadOk { messages: Vec<i32> },
    Topology { topology: Topology },
    TopologyOk {  },
}

/// A broadcast payload as a mathematical value.
pub enum BroadcastPayloadView {
    Init { node_id: Seq<char>, node_ids: Seq<Seq<char>> },
    InitOk,
    Broadcast { message: i32 },
    BroadcastOk,
    Read,
    ReadOk { messages: Seq<i32> },
    Topology { topology: Map<Seq<char>, Seq<Seq<char>>> },
    TopologyOk,
}

impl View for BroadcastPayload {
    type V = BroadcastPayloadView;

    open spec fn view(&self) -> BroadcastPayloadView {
        match *self {
            BroadcastPayload::Init { node_id, node_ids } => BroadcastPayloadView::Init {
                node_id: node_id@,
                node_ids: names(node_ids@),
            },
            BroadcastPayload::InitOk {  } => BroadcastPayloadView::InitOk,
            BroadcastPayload::Broadcast { message } => BroadcastPayloadView::Broadcast { message },
            BroadcastPayload::BroadcastOk {  } => BroadcastPayloadView::BroadcastOk,
            BroadcastPayload::Read {  } => BroadcastPayloadView::Read,
            BroadcastPayload::ReadOk { messages } => BroadcastPayloadView::ReadOk {
                messages: messages@,
            },
            BroadcastPayload::Topology { topology } => BroadcastPayloadView::Topology {
                topology: topology@,
            },
            BroadcastPayload::TopologyOk {  } => BroadcastPayloadView::TopologyOk,
        }
    }
}

/// The kinds of the broadcast workload are different texts.
pub proof fn lemma_broadcast_kinds_differ()
    ensures
        "init"@ != "init_ok"@,
        "init"@ != "broadcast"@,
        "init"@ != "broadcast_ok"@,
        "init"@ != "read"@,
        "init"@ != "read_ok"@,
        "init"@ != "topology"@,
        "init"@ != "topology_ok"@,
        "init_ok"@ != "broadcast"@,
        "init_ok"@ != "broadcast_ok"@,
        "init_ok"@ != "read"@,
        "init_ok"@ != "read_ok"@,
        "init_ok"@ != "topology"@,
        "init_ok"@ != "topology_ok"@,
        "broadcast"@ != "broadcast_ok"@,
        "broadcast"@ != "read"@,
        "broadcast"@ != "read_ok"@,
        "broadcast"@ != "topology"@,
        "broadcast"@ != "topology_ok"@,
        "broadcast_ok"@ != "read"@,
        "broadcast_ok"@ != "read_ok"@,
        "broadcast_ok"@ != "topology"@,
        "broadcast_ok"@ != "topology_ok"@,
        "read"@ != "read_ok"@,
        "read"@ != "topology"@,
        "read"@ != "topology_ok"@,
        "read_ok"@ != "topology"@,
        "read_ok"@ != "topology_ok"@,
        "topology"@ != "topology_ok"@,
{
    reveal_strlit("init");
    reveal_strlit("init_ok");
    reveal_strlit("broadcast");
    reveal_strlit("broadcast_ok");
    reveal_strlit("read");
    reveal_strlit("read_ok");
    reveal_strlit("topology");
    reveal_strlit("topology_ok");
    assert("init"@.len() != "init_ok"@.len());
    assert("init"@.len() != "broadcast"@.len());
    assert("init"@.len() != "broadcast_ok"@.len());
    assert("init"@[0] != "read"@[0]);
    assert("init"@.len() != "read_ok"@.len());
    assert("init"@.len() != "topology"@.len());
    assert("init"@.len() != "topology_ok"@.len());
    assert("init_ok"@.len() != "broadcast"@.len());
    assert("init_ok"@.len() != "broadcast_ok"@.len());
    assert("init_ok"@.len() != "read"@.len());
    assert("init_ok"@[0] != "read_ok"@[0]);
    assert("init_ok"@.len() != "topology"@.len());
    assert("init_ok"@.len() != "topology_ok"@.len());
    assert("broadcast"@.len() != "broadcast_ok"@.len());
    assert("broadcast"@.len() != "read"@.len());
    assert("broadcast"@.len() != "read_ok"@.len());
    assert("broadcast"@.len() != "topology"@.len());
    assert("broadcast"@.len() != "topology_ok"@.len());
    assert("broadcast_ok"@.len() != "read"@.len());
    assert("broadcast_ok"@.len() != "read_ok"@.len());
    assert("broadcast_ok"@.len() != "topology"@.len());
    assert("broadcast_ok"@.len() != "topology_ok"@.len());
    assert("read"@.len() != "read_ok"@.len());
    assert("read"@.len() != "topology"@.len());
    assert("read"@.len() != "topology_ok"@.len());
    assert("read_ok"@.len() != "topology"@.len());
    assert("read_ok"@.len() != "topology_ok"@.len());
    assert("topology"@.len() != "topology_ok"@.len());
}

impl Wire for BroadcastPayload {
    open spec fn members(payload: BroadcastPayloadView) -> Map<Seq<char>, Json> {
        match payload {
            BroadcastPayloadView::Init { node_id, node_ids } => init_members(node_id, node_ids),
            BroadcastPayloadView::InitOk => tagged("init_ok"@),
            BroadcastPayloadView::Broadcast { message } => tagged("broadcast"@).insert(
                "message"@,
                Json::Int(message as int),
            ),
            BroadcastPayloadView::BroadcastOk => tagged("broadcast_ok"@),
            BroadcastPayloadView::Read => tagged("read"@),
            BroadcastPayloadView::ReadOk { messages } => tagged("read_ok"@).insert(
                "messages"@,
                int32s_json(messages),
            ),
            BroadcastPayloadView::Topology { topology } => tagged("topology"@).insert(
                "topology"@,
                adjacency_json(topology),
            ),
            BroadcastPayloadView::TopologyOk => tagged("topology_ok"@),
        }
    }

    open spec fn payload_of(members: Map<Seq<char>, Json>) -> Option<BroadcastPayloadView> {
        let kind = text_member(members, "type"@);
        if kind == Some("init"@) {
            match (text_member(members, "node_id"@), texts_member(members, "node_ids"@)) {
                (Some(node_id), Some(node_ids)) => Some(
                    BroadcastPayloadView::Init { node_id, node_ids },
                ),
                _ => None,
            }
        } else if kind == Some("init_ok"@) {
            Some(BroadcastPayloadView::InitOk)
        } else if kind == Some("broadcast"@) {
            match int32_member(members, "message"@) {
                Some(message) => Some(BroadcastPayloadView::Broadcast { message }),
                None => None,
            }
        } else if kind == Some("broadcast_ok"@) {
            Some(BroadcastPayloadView::BroadcastOk)
        } else if kind == Some("read"@) {
            Some(BroadcastPayloadView::Read)
        } else if kind == Some("read_ok"@) {
            match int32s_member(members, "messages"@) {
                Some(messages) => Some(BroadcastPayloadView::ReadOk { messages }),
                None => None,
            }
        } else if kind == Some("topology"@) {
            match adjacency_member(members, "topology"@) {
                Some(topology) => Some(BroadcastPayloadView::Topology { topology }),
                None => None,
            }
        } else if kind == Some("topology_ok"@) {
            Some(BroadcastPayloadView::TopologyOk)
        } else {
            None
        }
    }

    fn read(body: &serde_json::Value) -> (r: Option<BroadcastPayload>) {
        if is_kind(body, "init") {
            match (read_text(body, "node_id"), read_texts(body, "node_ids")) {
                (Some(node_id), Some(node_ids)) => Some(
                    BroadcastPayload::Init { node_id, node_ids },
                ),
                _ => None,
            }
        } else if is_kind(body, "init_ok") {
            Some(BroadcastPayload::InitOk {  })
        } else if is_kind(body, "broadcast") {
            match read_int32(body, "message") {
                Some(message) => Some(BroadcastPayload::Broadcast { message }),
                None => None,
            }
        } else if is_kind(body, "broadcast_ok") {
            Some(BroadcastPayload::BroadcastOk {  })
        } else if is_kind(body, "read") {
            Some(BroadcastPayload::Read {  })
        } else if is_kind(body, "read_ok") {
            match read_int32s(body, "messages") {
                Some(messages) => Some(BroadcastPayload::ReadOk { messages }),
                None => None,
            }
        } else if is_kind(body, "topology") {
            match read_adjacency(body, "topology") {
                Some(topology) => Some(BroadcastPayload::Topology { topology }),
                None => None,
            }
        } else if is_kind(body, "topology_ok") {
            Some(BroadcastPayload::TopologyOk {  })
        } else {
            None
        }
    }

    fn write(&self) -> (r: serde_json::Map<String, serde_json::Value>) {
        match self {
            BroadcastPayload::Init { node_id, node_ids } => init_object(node_id, node_ids),
            BroadcastPayload::InitOk {  } => tagged_object("init_ok"),
            BroadcastPayload::Broadcast { message } => {
                let mut members = tagged_object("broadcast");
                object_insert(
                    &mut members,
                    String::from_str("message"),
                    value_from_i64(*message as i64),
                );
                members
            },
            BroadcastPayload::BroadcastOk {  } => tagged_object("broadcast_ok"),
            BroadcastPayload::Read {  } => tagged_object("read"),
            BroadcastPayload::ReadOk { messages } => {
                let mut members = tagged_object("read_ok");
                object_insert(&mut members, String::from_str("messages"), int32s_value(messages));
                members
            },
            BroadcastPayload::Topology { topology } => {
                let mut members = tagged_object("topology");
                object_insert(
                    &mut members,
                    String::from_str("topology"),
                    adjacency_value(topology),
                );
                members
            },
            BroadcastPayload::TopologyOk {  } => tagged_object("topology_ok"),
        }
    }

    proof fn lemma_read_back(payload: BroadcastPayloadView, body: Map<Seq<char>, Json>) {
        lemma_member_names_differ();
        lemma_broadcast_kinds_differ();
        let members = Self::members(payload);
        lemma_member_of_submap(members, body, "type"@);
        match payload {
            BroadcastPayloadView::Init { node_id, node_ids } => {
                lemma_member_of_submap(members, body, "node_id"@);
                lemma_member_of_submap(members, body, "node_ids"@);
                lemma_texts_read_back(node_ids);
            },
            BroadcastPayloadView::Broadcast { message } => {
                lemma_member_of_submap(members, body, "message"@);
            },
            BroadcastPayloadView::ReadOk { messages } => {
                lemma_member_of_submap(members, body, "messages"@);
                lemma_int32s_read_back(messages);
            },
            BroadcastPayloadView::Topology { topology } => {
                lemma_member_of_submap(members, body, "topology"@);
                lemma_adjacency_read_back(topology);
            },
            BroadcastPayloadView::InitOk
            | BroadcastPayloadView::BroadcastOk
            | BroadcastPayloadView::Read
            | BroadcastPayloadView::TopologyOk => {},
        }
    }

    proof fn lemma_members_hold_no_id(payload: BroadcastPayloadView) {
        lemma_member_names_differ();
    }
}

/// The state of a broadcast node as a mathematical value.
pub struct BroadcastState {
    /// The identifier that the next reply will carry.
    pub next_msg_id: nat,
    /// The name that the node was last given.
    pub node_id: Seq<char>,
    /// The values received, in the order of their receipt.
    pub messages: Seq<i32>,
    /// The adjacency that the node was last told.
    pub topology: Map<Seq<char>, Seq<Seq<char>>>,
}

/// What a broadcast node does on a request: the state it goes to and what
/// its reply carries.
pub struct BroadcastReaction {
    pub state: BroadcastState,
    pub answer: BroadcastPayloadView,
}

/// How a broadcast node in `state` reacts to a request that carries `payload`,
/// or nothing where the payload is of a kind that such a node only sends.
pub open spec fn broadcast_reaction(state: BroadcastState, payload: BroadcastPayloadView) -> Option<
    BroadcastReaction,
> {
    let next_msg_id = state.next_msg_id + 1;
    match payload {
        BroadcastPayloadView::Init { node_id, node_ids } => Some(
            BroadcastReaction {
                state: BroadcastState { next_msg_id, node_id, ..state },
                answer: BroadcastPayloadView::InitOk,
            },
        ),
        BroadcastPayloadView::Broadcast { message } => Some(
            BroadcastReaction {
                state: BroadcastState {
                    next_msg_id,
                    messages: state.messages.push(message),
                    ..state
                },
                answer: BroadcastPayloadView::BroadcastOk,
            },
        ),
        BroadcastPayloadView::Read => Some(
            BroadcastReaction {
                state: BroadcastState { next_msg_id, ..state },
                answer: BroadcastPayloadView::ReadOk { messages: state.messages },
            },
        ),
        BroadcastPayloadView::Topology { topology } => Some(
            BroadcastReaction {
                state: BroadcastState { next_msg_id, topology, ..state },
                answer: BroadcastPayloadView::TopologyOk,
            },
        ),
        BroadcastPayloadView::InitOk
        | BroadcastPayloadView::BroadcastOk
        | BroadcastPayloadView::ReadOk { .. }
        | BroadcastPayloadView::TopologyOk => None,
    }
}

/// The state after a run of `broadcast` requests that carry `values`, in
/// their order.
pub open spec fn after_broadcasts(state: BroadcastState, values: Seq<i32>) -> BroadcastState
    decreases values.len(),
{
    if values.len() == 0 {
        state
    } else {
        broadcast_reaction(
            after_broadcasts(state, values.drop_last()),
            BroadcastPayloadView::Broadcast { message: values.last() },
        )->0.state
    }
}

/// Values accumulate: after a run of `broadcast` requests the node holds what
/// it held before, followed by the values of the requests in the order of
/// their receipt, duplicates included, and a `read` is answered with all of
/// them.
pub proof fn lemma_broadcasts_accumulate(state: BroadcastState, values: Seq<i32>)
    ensures
        after_broadcasts(state, values).messages == state.messages + values,
        after_broadcasts(state, values).next_msg_id == state.next_msg_id + values.len(),
        after_broadcasts(state, values).topology == state.topology,
        after_broadcasts(state, values).node_id == state.node_id,
        broadcast_reaction(after_broadcasts(state, values), BroadcastPayloadView::Read)->0.answer
            == (BroadcastPayloadView::ReadOk { messages: state.messages + values }),
    decreases values.len(),
{
    if values.len() == 0 {
        assert(state.messages + values == state.messages);
    } else {
        lemma_broadcasts_accumulate(state, values.drop_last());
        assert(state.messages + values == (state.messages + values.drop_last()).push(
            values.last(),
        ));
    }
}

/// The last topology counts: after two `topology` requests in a row the node
/// holds the adjacency of the second and nothing of the first.
pub proof fn lemma_topology_is_replaced(
    state: BroadcastState,
    first: Map<Seq<char>, Seq<Seq<char>>>,
    second: Map<Seq<char>, Seq<Seq<char>>>,
)
    ensures
        broadcast_reaction(
            broadcast_reaction(state, BroadcastPayloadView::Topology { topology: first })->0.state,
            BroadcastPayloadView::Topology { topology: second },
        )->0.state.topology == second,
{
}

/// A node that stores the values that are broadcast to it.
pub struct BroadcastNode {
    id: usize,
    node_id: String,
    messages: Vec<i32>,
    topology: Topology,
}

impl View for BroadcastNode {
    type V = BroadcastState;

    closed spec fn view(&self) -> BroadcastState {
        BroadcastState {
            next_msg_id: self.id as nat,
            node_id: self.node_id@,
            messages: self.messages@,
            topology: self.topology@,
        }
    }
}

impl BroadcastNode {
    /// A node that has no name yet, has received nothing and knows no
    /// topology.
    pub fn new() -> (node: BroadcastNode)
        ensures
            node@ == (BroadcastState {
                next_msg_id: 0,
                node_id: Seq::empty(),
                messages: Seq::empty(),
                topology: Map::empty(),
            }),
            node.next_msg_id() == 0,
    {
        BroadcastNode {
            id: 0,
            node_id: String::new(),
            messages: Vec::new(),
            topology: Topology::new(),
        }
    }

    /// A node like a new one, but whose next reply will carry the identifier
    /// `next_msg_id`.
    pub fn starting_at(next_msg_id: usize) -> (node: BroadcastNode)
        ensures
            node@ == (BroadcastState {
                next_msg_id: next_msg_id as nat,
                node_id: Seq::empty(),
                messages: Seq::empty(),
                topology: Map::empty(),
            }),
            node.next_msg_id() == next_msg_id,
    {
        BroadcastNode {
            id: next_msg_id,
            node_id: String::new(),
            messages: Vec::new(),
            topology: Topology::new(),
        }
    }

    /// The name that the node was last given.
    pub fn node_id(&self) -> (r: &String)
        ensures
            r@ == self@.node_id,
    {
        &self.node_id
    }

    /// The values received so far, in the order of their receipt.
    pub fn messages(&self) -> (r: &Vec<i32>)
        ensures
            r@ == self@.messages,
    {
        &self.messages
    }

    /// The adjacency that the node was last told.
    pub fn topology(&self) -> (r: &Topology)
        ensures
            r@ == self@.topology,
    {
        &self.topology
    }
}

impl Node<BroadcastPayload> for BroadcastNode {
    closed spec fn next_msg_id(&self) -> nat {
        self.id as nat
    }

    /// On a request the node changes as `broadcast_reaction` says and emits
    /// exactly one reply. On a payload that such a node only sends, and when
    /// no identifier is left, the step fails and changes nothing.
    open spec fn stepped(
        self,
        input: Message<BroadcastPayload>,
        post: BroadcastNode,
        before: Seq<Message<BroadcastPayload>>,
        after: Seq<Message<BroadcastPayload>>,
        r: Result<(), NodeError>,
    ) -> bool {
        &&& post.next_msg_id() == post@.next_msg_id
        &&& match broadcast_reaction(self@, input@.body.payload) {
            None => {
                &&& r == Err::<(), NodeError>(NodeError::UnexpectedMessageKind)
                &&& post@ == self@
                &&& after == before
            },
            Some(reaction) => if self@.next_msg_id < usize::MAX {
                &&& r is Ok
                &&& post@ == reaction.state
                &&& after.len() == before.len() + 1
                &&& after.drop_last() == before
                &&& after.last()@ == input@.reply(self@.next_msg_id, reaction.answer)
            } else {
                &&& r == Err::<(), NodeError>(NodeError::MsgIdsExhausted)
                &&& post@ == self@
                &&& after == before
            },
        }
    }

    /// Takes one step, as `stepped` says.
    fn step(
        &mut self,
        input: Message<BroadcastPayload>,
        output: &mut Vec<Message<BroadcastPayload>>,
    ) -> (r: Result<(), NodeError>) {
        let Message { src, dest, body } = input;
        let MessageBody { msg_id, in_reply_to: _, payload } = body;
        let answer = match payload {
            BroadcastPayload::Init { node_id, node_ids: _ } => {
                if self.id == usize::MAX {
                    return Err(NodeError::MsgIdsExhausted);
                }
                self.node_id = node_id;
                BroadcastPayload::InitOk {  }
            },
            BroadcastPayload::Broadcast { message } => {
                if self.id == usize::MAX {
                    return Err(NodeError::MsgIdsExhausted);
                }
                self.messages.push(message);
                BroadcastPayload::BroadcastOk {  }
            },
            BroadcastPayload::Read {  } => {
                if self.id == usize::MAX {
                    return Err(NodeError::MsgIdsExhausted);
                }
                BroadcastPayload::ReadOk { messages: self.messages.clone() }
            },
            BroadcastPayload::Topology { topology } => {
                if self.id == usize::MAX {
                    return Err(NodeError::MsgIdsExhausted);
                }
                self.topology = topology;
                BroadcastPayload::TopologyOk {  }
            },
            BroadcastPayload::InitOk {  }
            | BroadcastPayload::BroadcastOk {  }
            | BroadcastPayload::ReadOk { .. }
            | BroadcastPayload::TopologyOk {  } => {
                return Err(NodeError::UnexpectedMessageKind);
            },
        };
        let r = emit(&mut self.id, src, dest, msg_id, answer, output);
        proof {
            lemma_answered_once(input, old(self).id, old(output)@, output@);
        }
        r
    }
}

} // verus!

//! The unique-id node: it makes identifiers that never repeat.

use vstd::prelude::*;
use vstd::string::StringExecFns;
use crate::codec::Wire;
use crate::members::{
    init_members, init_object, insert_text, is_kind, lemma_member_names_differ,
    lemma_member_of_submap, lemma_texts_read_back, read_text, read_texts, tagged,
    tagged_object, text_member, texts_member,
};
use crate::json::Json;
use crate::clock::epoch_seconds;
use crate::decimal::{decimal, decimal_string, lemma_decimal_digits, lemma_decimal_injective};
use crate::message::{Message, MessageBody, MessageView};
use crate::node::{answered, emit, lemma_answered_once, Node, NodeError};
use crate::topology::names;

verus! {

/// The identifier made at `seconds` since the start of the epoch on the node
/// called `node` whose counter stands at `counter`: the three joined by
/// underscores, the numbers in decimal.
pub open spec fn unique_id(seconds: nat, node: Seq<char>, counter: nat) -> Seq<char> {
    decimal(seconds) + seq!['_'] + node + seq!['_'] + decimal(counter)
}

/// Two texts that end in an underscore and a run of digits are equal only if
/// the runs of digits are.
proof fn lemma_tail_after_underscore(a: Seq<char>, x: Seq<char>, b: Seq<char>, y: Seq<char>)
    requires
        a + seq!['_'] + x == b + seq!['_'] + y,
        forall|i: int| 0 <= i < x.len() ==> x[i] != '_',
        forall|i: int| 0 <= i < y.len() ==> y[i] != '_',
    ensures
        x == y,
{
    let s = a + seq!['_'] + x;
    let t = b + seq!['_'] + y;
    assert(s.len() == a.len() + 1 + x.len());
    assert(t.len() == b.len() + 1 + y.len());
    if x.len() < y.len() {
        assert(s[a.len() as int] == '_');
        assert(t[a.len() as int] == y[a.len() - b.len() - 1]);
    } else if y.len() < x.len() {
        assert(t[b.len() as int] == '_');
        assert(s[b.len() as int] == x[b.len() - a.len() - 1]);
    } else {
        assert forall|i: int| 0 <= i < x.len() implies x[i] == y[i] by {
            assert(s[a.len() + 1 + i] == x[i]);
            assert(t[b.len() + 1 + i] == y[i]);
        }
        assert(x =~= y);
    }
}

/// Identifiers made with different counter values differ, whatever the clock
/// showed and whatever the node was called: one node, whose counter never
/// repeats, never makes the same identifier twice.
pub proof fn lemma_unique_id_no_collision(
    seconds_a: nat,
    node_a: Seq<char>,
    counter_a: nat,
    seconds_b: nat,
    node_b: Seq<char>,
    counter_b: nat,
)
    requires
        counter_a != counter_b,
    ensures
        unique_id(seconds_a, node_a, counter_a) != unique_id(seconds_b, node_b, counter_b),
{
    if unique_id(seconds_a, node_a, counter_a) == unique_id(seconds_b, node_b, counter_b) {
        lemma_decimal_digits(counter_a);
        lemma_decimal_digits(counter_b);
        lemma_tail_after_underscore(
            decimal(seconds_a) + seq!['_'] + node_a,
            decimal(counter_a),
            decimal(seconds_b) + seq!['_'] + node_b,
            decimal(counter_b),
        );
        lemma_decimal_injective(counter_a, counter_b);
    }
}

/// Writes the identifier for a clock reading, a node name and a counter value.
pub fn format_unique_id(seconds: u64, node: &str, counter: usize) -> (id: String)
    ensures
        id@ == unique_id(seconds as nat, node@, counter as nat),
{
    proof {
        reveal_strlit("_");
    }
    let mut id = decimal_string(seconds);
    id.append("_");
    id.append(node);
    id.append("_");
    let count = decimal_string(counter as u64);
    id.append(count.as_str());
    assert(id@ =~= unique_id(seconds as nat, node@, counter as nat));
    id
}

/// What a message of the unique-id workload carries.
#[derive(Debug, Clone, PartialEq, Eq)]
pub enum UniqueIDPayload {
    Init { node_id: String, node_ids: Vec<String> },
    InitOk {  },
    Generate {  },
    GenerateOk { id: String },
}

/// A unique-id payload as a mathematical value.
pub enum UniqueIDPayloadView {
    Init { node_id: Seq<char>, node_ids: Seq<Seq<char>> },
    InitOk,
    Generate,
    GenerateOk { id: Seq<char> },
}

impl View for UniqueIDPayload {
    type V = UniqueIDPayloadView;

    open spec fn view(&self) -> UniqueIDPayloadView {
        match *self {
            UniqueIDPayload::Init { node_id, node_ids } => UniqueIDPayloadView::Init {
                node_id: node_id@,
                node_ids: names(node_ids@),
            },
            UniqueIDPayload::InitOk {  } => UniqueIDPayloadView::InitOk,
            UniqueIDPayload::Generate {  } => UniqueIDPayloadView::Generate,
            UniqueIDPayload::GenerateOk { id } => UniqueIDPayloadView::GenerateOk { id: id@ },
        }
    }
}

/// The kinds of the unique-id workload are different texts.
pub proof fn lemma_unique_id_kinds_differ()
    ensures
        "init"@ != "init_ok"@,
        "init"@ != "generate"@,
        "init"@ != "generate_ok"@,
        "init_ok"@ != "generate"@,
        "init_ok"@ != "generate_ok"@,
        "generate"@ != "generate_ok"@,
{
    reveal_strlit("init");
    reveal_strlit("init_ok");
    reveal_strlit("generate");
    reveal_strlit("generate_ok");
    assert("init"@.len() != "init_ok"@.len());
    assert("init"@.len() != "generate"@.len());
    assert("init"@.len() != "generate_ok"@.len());
    assert("init_ok"@.len() != "generate"@.len());
    assert("init_ok"@.len() != "generate_ok"@.len());
    assert("generate"@.len() != "generate_ok"@.len());
}

impl Wire for UniqueIDPayload {
    open spec fn members(payload: UniqueIDPayloadView) -> Map<Seq<char>, Json> {
        match payload {
            UniqueIDPayloadView::Init { node_id, node_ids } => init_members(node_id, node_ids),
            UniqueIDPayloadView::InitOk => tagged("init_ok"@),
            UniqueIDPayloadView::Generate => tagged("generate"@),
            UniqueIDPayloadView::GenerateOk { id } => tagged("generate_ok"@).insert(
                "id"@,
                Json::Str(id),
            ),
        }
    }

    open spec fn payload_of(members: Map<Seq<char>, Json>) -> Option<UniqueIDPayloadView> {
        let kind = text_member(members, "type"@);
        if kind == Some("init"@) {
            match (text_member(members, "node_id"@), texts_member(members, "node_ids"@)) {
                (Some(node_id), Some(node_ids)) => Some(
                    UniqueIDPayloadView::Init { node_id, node_ids },
                ),
                _ => None,
            }
        } else if kind == Some("init_ok"@) {
            Some(UniqueIDPayloadView::InitOk)
        } else if kind == Some("generate"@) {
            Some(UniqueIDPayloadView::Generate)
        } else if kind == Some("generate_ok"@) {
            match text_member(members, "id"@) {
                Some(id) => Some(UniqueIDPayloadView::GenerateOk { id }),
                None => None,
            }
        } else {
            None
        }
    }

    fn read(body: &serde_json::Value) -> (r: Option<UniqueIDPayload>) {
        if is_kind(body, "init") {
            match (read_text(body, "node_id"), read_texts(body, "node_ids")) {
                (Some(node_id), Some(node_ids)) => Some(
                    UniqueIDPayload::Init { node_id, node_ids },
                ),
                _ => None,
            }
        } else if is_kind(body, "init_ok") {
            Some(UniqueIDPayload::InitOk {  })
        } else if is_kind(body, "generate") {
            Some(UniqueIDPayload::Generate {  })
        } else if is_kind(body, "generate_ok") {
            match read_text(body, "id") {
                Some(id) => Some(UniqueIDPayload::GenerateOk { id }),
                None => None,
            }
        } else {
            None
        }
    }

    fn write(&self) -> (r: serde_json::Map<String, serde_json::Value>) {
        match self {
            UniqueIDPayload::Init { node_id, node_ids } => init_object(node_id, node_ids),
            UniqueIDPayload::InitOk {  } => tagged_object("init_ok"),
            UniqueIDPayload::Generate {  } => tagged_object("generate"),
            UniqueIDPayload::GenerateOk { id } => {
                let mut members = tagged_object("generate_ok");
                insert_text(&mut members, "id", id);
                members
            },
        }
    }

    proof fn lemma_read_back(payload: UniqueIDPayloadView, body: Map<Seq<char>, Json>) {
        lemma_member_names_differ();
        lemma_unique_id_kinds_differ();
        let members = Self::members(payload);
        lemma_member_of_submap(members, body, "type"@);
        match payload {
            UniqueIDPayloadView::Init { node_id, node_ids } => {
                lemma_member_of_submap(members, body, "node_id"@);
                lemma_member_of_submap(members, body, "node_ids"@);
                lemma_texts_read_back(node_ids);
            },
            UniqueIDPayloadView::InitOk => {},
            UniqueIDPayloadView::Generate => {},
            UniqueIDPayloadView::GenerateOk { id } => {
                lemma_member_of_submap(members, body, "id"@);
            },
        }
    }

    proof fn lemma_members_hold_no_id(payload: UniqueIDPayloadView) {
        lemma_member_names_differ();
    }
}

/// What the reply to a request carries, where the request was sent to `dest`,
/// the node's counter stands at `counter` and the clock reads `clock`; or why
/// there is no reply: the payload is of a kind that such a node only sends, or
/// an identifier is asked for while the clock stands before the epoch.
pub open spec fn unique_id_answer(
    payload: UniqueIDPayloadView,
    dest: Seq<char>,
    counter: nat,
    clock: Option<u64>,
) -> Result<UniqueIDPayloadView, NodeError> {
    match payload {
        UniqueIDPayloadView::Init { .. } => Ok(UniqueIDPayloadView::InitOk),
        UniqueIDPayloadView::Generate => match clock {
            Some(seconds) => Ok(
                UniqueIDPayloadView::GenerateOk { id: unique_id(seconds as nat, dest, counter) },
            ),
            None => Err(NodeError::ClockBeforeEpoch),
        },
        UniqueIDPayloadView::InitOk | UniqueIDPayloadView::GenerateOk { .. } => Err(
            NodeError::UnexpectedMessageKind,
        ),
    }
}

/// What a step on `input` does when the clock reads `clock`: the counter goes
/// from `pre` to `post`, the output from `before` to `after`, and the step
/// returns `r`.
pub open spec fn unique_id_stepped(
    pre: nat,
    input: MessageView<UniqueIDPayloadView>,
    clock: Option<u64>,
    post: nat,
    before: Seq<Message<UniqueIDPayload>>,
    after: Seq<Message<UniqueIDPayload>>,
    r: Result<(), NodeError>,
) -> bool {
    match unique_id_answer(input.body.payload, input.dest, pre, clock) {
        Err(e) => r == Err::<(), NodeError>(e) && post == pre && after == before,
        Ok(answer) => if pre < usize::MAX {
            &&& r is Ok
            &&& post == pre + 1
            &&& after.len() == before.len() + 1
            &&& after.drop_last() == before
            &&& after.last()@ == input.reply(pre, answer)
        } else {
            &&& r == Err::<(), NodeError>(NodeError::MsgIdsExhausted)
            &&& post == pre
            &&& after == before
        },
    }
}

/// A node that answers each `generate` with a fresh identifier.
pub struct UniqueIDNode {
    id: usize,
}

impl UniqueIDNode {
    /// A node that has sent nothing yet.
    pub fn new() -> (node: UniqueIDNode)
        ensures
            node.next_msg_id() == 0,
    {
        UniqueIDNode { id: 0 }
    }

    /// A node whose next reply will carry the identifier `next_msg_id`.
    pub fn starting_at(next_msg_id: usize) -> (node: UniqueIDNode)
        ensures
            node.next_msg_id() == next_msg_id,
    {
        UniqueIDNode { id: next_msg_id }
    }

    /// Makes an identifier from the wall clock, the name under which the node
    /// was addressed and the node's counter. It fails only where the clock
    /// stands before the epoch.
    pub fn gen_unique_id(&self, dest_node_id: &str) -> (r: Result<String, NodeError>)
        ensures
            r matches Ok(id) ==> exists|seconds: u64|
                id@ == unique_id(seconds as nat, dest_node_id@, self.next_msg_id()),
            r matches Err(e) ==> e == NodeError::ClockBeforeEpoch,
    {
        match epoch_seconds() {
            Some(seconds) => {
                let id = format_unique_id(seconds, dest_node_id, self.id);
                assert(id@ == unique_id(seconds as nat, dest_node_id@, self.next_msg_id()));
                Ok(id)
            },
            None => Err(NodeError::ClockBeforeEpoch),
        }
    }

    /// Takes one step with the clock reading given: a request is answered by
    /// exactly one reply, as `unique_id_answer` says, which uses up one
    /// identifier; a failed step changes nothing.
    pub fn step_at(
        &mut self,
        input: Message<UniqueIDPayload>,
        clock: Option<u64>,
        output: &mut Vec<Message<UniqueIDPayload>>,
    ) -> (r: Result<(), NodeError>)
        ensures
            unique_id_stepped(
                old(self).next_msg_id(),
                input@,
                clock,
                final(self).next_msg_id(),
                old(output)@,
                final(output)@,
                r,
            ),
            r is Ok ==> answered(
                input,
                old(self).next_msg_id(),
                final(self).next_msg_id(),
                old(output)@,
                final(output)@,
            ),
    {
        let Message { src, dest, body } = input;
        let MessageBody { msg_id, in_reply_to: _, payload } = body;
        let answer = match payload {
            UniqueIDPayload::Init { .. } => UniqueIDPayload::InitOk {  },
            UniqueIDPayload::Generate {  } => match clock {
                Some(seconds) => UniqueIDPayload::GenerateOk {
                    id: format_unique_id(seconds, dest.as_str(), self.id),
                },
                None => {
                    return Err(NodeError::ClockBeforeEpoch);
                },
            },
            UniqueIDPayload::InitOk {  } | UniqueIDPayload::GenerateOk { .. } => {
                return Err(NodeError::UnexpectedMessageKind);
            },
        };
        let r = emit(&mut self.id, src, dest, msg_id, answer, output);
        proof {
            if r is Ok {
                lemma_answered_once(input, old(self).id, old(output)@, output@);
            }
        }
        r
    }

}

impl Node<UniqueIDPayload> for UniqueIDNode {
    closed spec fn next_msg_id(&self) -> nat {
        self.id as nat
    }

    /// The step is the one that `step_at` takes for some reading of the
    /// clock.
    open spec fn stepped(
        self,
        input: Message<UniqueIDPayload>,
        post: UniqueIDNode,
        before: Seq<Message<UniqueIDPayload>>,
        after: Seq<Message<UniqueIDPayload>>,
        r: Result<(), NodeError>,
    ) -> bool {
        exists|clock: Option<u64>|
            unique_id_stepped(
                self.next_msg_id(),
                input@,
                clock,
                post.next_msg_id(),
                before,
                after,
                r,
            )
    }

    /// Takes one step, as `stepped` says: it reads the wall clock where an
    /// identifier is asked for, and goes on as `step_at` does.
    fn step(
        &mut self,
        input: Message<UniqueIDPayload>,
        output: &mut Vec<Message<UniqueIDPayload>>,
    ) -> (r: Result<(), NodeError>) {
        let clock = match input.body.payload {
            UniqueIDPayload::Generate {  } => epoch_seconds(),
            _ => None,
        };
        self.step_at(input, clock, output)
    }
}

} // verus!

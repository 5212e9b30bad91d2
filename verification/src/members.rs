//! The members of a JSON object, read as and written from plain values: texts,
//! numbers, identifiers, lists and adjacencies.

use vstd::prelude::*;
use vstd::string::StringExecFns;
use crate::json::{
    json_of, jsons, listed, object_insert, object_keys, object_new, object_of, same_text,
    value_as_array, value_as_i64, value_as_object, value_as_str, value_as_u64, value_from_array,
    value_from_i64, value_from_object, value_from_string, value_get, value_is_null, Json,
};
use crate::message::id_view;
use crate::topology::{adjacency, names, Topology};

verus! {

/// The members of a document that is an object; no members for any other.
pub open spec fn members_of(j: Json) -> Map<Seq<char>, Json> {
    if j is Object {
        j->Object_0
    } else {
        Map::empty()
    }
}

/// The text of the member `key`, where there is such a member and it is a
/// string.
pub open spec fn text_member(members: Map<Seq<char>, Json>, key: Seq<char>) -> Option<Seq<char>> {
    if members.contains_key(key) && members[key] is Str {
        Some(members[key]->Str_0)
    } else {
        None
    }
}

/// The texts of a list of documents, where each of them is a string.
pub open spec fn texts_of(items: Seq<Json>) -> Option<Seq<Seq<char>>> {
    if forall|i: int| 0 <= i < items.len() ==> (#[trigger] items[i]) is Str {
        Some(Seq::new(items.len(), |i: int| items[i]->Str_0))
    } else {
        None
    }
}

/// The texts of the member `key`, where there is such a member and it is an
/// array of strings.
pub open spec fn texts_member(members: Map<Seq<char>, Json>, key: Seq<char>) -> Option<
    Seq<Seq<char>>,
> {
    if members.contains_key(key) && members[key] is Array {
        texts_of(members[key]->Array_0)
    } else {
        None
    }
}

/// Whether a document is an integer number that fits in 32 bits with a sign.
pub open spec fn is_int32(j: Json) -> bool {
    j is Int && i32::MIN <= j->Int_0 <= i32::MAX
}

/// The number of the member `key`, where there is such a member and it is an
/// integer of 32 bits.
pub open spec fn int32_member(members: Map<Seq<char>, Json>, key: Seq<char>) -> Option<i32> {
    if members.contains_key(key) && is_int32(members[key]) {
        Some(members[key]->Int_0 as i32)
    } else {
        None
    }
}

/// The numbers of a list of documents, where each of them is an integer of 32
/// bits.
pub open spec fn int32s_of(items: Seq<Json>) -> Option<Seq<i32>> {
    if forall|i: int| 0 <= i < items.len() ==> is_int32(#[trigger] items[i]) {
        Some(Seq::new(items.len(), |i: int| items[i]->Int_0 as i32))
    } else {
        None
    }
}

/// The numbers of the member `key`, where there is such a member and it is an
/// array of integers of 32 bits.
pub open spec fn int32s_member(members: Map<Seq<char>, Json>, key: Seq<char>) -> Option<
    Seq<i32>,
> {
    if members.contains_key(key) && members[key] is Array {
        int32s_of(members[key]->Array_0)
    } else {
        None
    }
}

/// The identifier that the member `key` gives: none where the member is
/// missing or null, the number where it is an integer that an identifier can
/// hold. Any other member is malformed, which the outer `None` says.
pub open spec fn id_member(members: Map<Seq<char>, Json>, key: Seq<char>) -> Option<Option<nat>> {
    if !members.contains_key(key) || members[key] is Null {
        Some(None)
    } else if members[key] is Int && 0 <= members[key]->Int_0 <= usize::MAX {
        Some(Some(members[key]->Int_0 as nat))
    } else {
        None
    }
}

/// Whether a document lists neighbours: an array of strings.
pub open spec fn is_texts(j: Json) -> bool {
    j is Array && texts_of(j->Array_0) is Some
}

/// The adjacency that an object gives whose members are arrays of strings:
/// for each member, its texts.
pub open spec fn adjacency_of(members: Map<Seq<char>, Json>) -> Map<Seq<char>, Seq<Seq<char>>> {
    Map::new(
        |node: Seq<char>| members.contains_key(node),
        |node: Seq<char>| texts_of(members[node]->Array_0)->0,
    )
}

/// The adjacency that the member `key` gives, where there is such a member
/// and it is an object whose members are arrays of strings.
pub open spec fn adjacency_member(members: Map<Seq<char>, Json>, key: Seq<char>) -> Option<
    Map<Seq<char>, Seq<Seq<char>>>,
> {
    if members.contains_key(key) && members[key] is Object && (forall|node: Seq<char>|
        #[trigger] members[key]->Object_0.contains_key(node) ==> is_texts(
            members[key]->Object_0[node],
        )) {
        Some(adjacency_of(members[key]->Object_0))
    } else {
        None
    }
}

/// A list of texts as a document: an array of strings.
pub open spec fn texts_json(texts: Seq<Seq<char>>) -> Json {
    Json::Array(Seq::new(texts.len(), |i: int| Json::Str(texts[i])))
}

/// A list of numbers as a document: an array of integers.
pub open spec fn int32s_json(values: Seq<i32>) -> Json {
    Json::Array(Seq::new(values.len(), |i: int| Json::Int(values[i] as int)))
}

/// The members of the object that stands for an adjacency: for each node, the
/// array of its neighbours.
pub open spec fn adjacency_members(topology: Map<Seq<char>, Seq<Seq<char>>>) -> Map<
    Seq<char>,
    Json,
> {
    Map::new(
        |node: Seq<char>| topology.contains_key(node),
        |node: Seq<char>| texts_json(topology[node]),
    )
}

/// An adjacency as a document.
pub open spec fn adjacency_json(topology: Map<Seq<char>, Seq<Seq<char>>>) -> Json {
    Json::Object(adjacency_members(topology))
}

/// The members with the identifier `id` under `key`, where there is one.
pub open spec fn with_id(members: Map<Seq<char>, Json>, key: Seq<char>, id: Option<nat>) -> Map<
    Seq<char>,
    Json,
> {
    match id {
        Some(n) => members.insert(key, Json::Int(n as int)),
        None => members,
    }
}

/// Reads the member `key` of an object as a text.
pub fn read_text(v: &serde_json::Value, key: &str) -> (r: Option<String>)
    ensures
        match text_member(members_of(json_of(*v)), key@) {
            Some(text) => r is Some && r->0@ == text,
            None => r is None,
        },
{
    match value_get(v, key) {
        Some(member) => match value_as_str(member) {
            Some(text) => Some(text.to_owned()),
            None => None,
        },
        None => None,
    }
}

/// Reads the member `key` of an object as a list of texts.
pub fn read_texts(v: &serde_json::Value, key: &str) -> (r: Option<Vec<String>>)
    ensures
        match texts_member(members_of(json_of(*v)), key@) {
            Some(texts) => r is Some && names(r->0@) == texts,
            None => r is None,
        },
{
    match value_get(v, key) {
        Some(member) => texts_of_value(member),
        None => None,
    }
}

/// Reads an array of strings as a list of texts.
pub fn texts_of_value(v: &serde_json::Value) -> (r: Option<Vec<String>>)
    ensures
        r is Some <==> is_texts(json_of(*v)),
        r matches Some(texts) ==> names(texts@) == texts_of(json_of(*v)->Array_0)->0,
{
    let items = match value_as_array(v) {
        Some(items) => items,
        None => {
            return None;
        },
    };
    let mut texts: Vec<String> = Vec::new();
    let mut i: usize = 0;
    while i < items.len()
        invariant
            json_of(*v) is Array,
            jsons(items@) == json_of(*v)->Array_0,
            i <= items@.len(),
            texts@.len() == i,
            forall|j: int|
                0 <= j < i ==> (#[trigger] jsons(items@)[j]) is Str && texts@[j]@ == jsons(
                    items@,
                )[j]->Str_0,
        decreases items@.len() - i,
    {
        match value_as_str(&items[i]) {
            Some(text) => {
                texts.push(text.to_owned());
            },
            None => {
                assert(!(jsons(items@)[i as int] is Str));
                return None;
            },
        }
        i = i + 1;
    }
    Some(texts)
}

/// Reads the member `key` of an object as an integer of 32 bits.
pub fn read_int32(v: &serde_json::Value, key: &str) -> (r: Option<i32>)
    ensures
        r == int32_member(members_of(json_of(*v)), key@),
{
    match value_get(v, key) {
        Some(member) => int32_of_value(member),
        None => None,
    }
}

/// Reads a number as an integer of 32 bits.
pub fn int32_of_value(v: &serde_json::Value) -> (r: Option<i32>)
    ensures
        r is Some <==> is_int32(json_of(*v)),
        r matches Some(n) ==> n == json_of(*v)->Int_0,
{
    match value_as_i64(v) {
        Some(n) => if -0x8000_0000 <= n && n <= 0x7fff_ffff {
            Some(n as i32)
        } else {
            None
        },
        None => None,
    }
}

/// Reads the member `key` of an object as a list of integers of 32 bits.
pub fn read_int32s(v: &serde_json::Value, key: &str) -> (r: Option<Vec<i32>>)
    ensures
        match int32s_member(members_of(json_of(*v)), key@) {
            Some(values) => r is Some && r->0@ == values,
            None => r is None,
        },
{
    match value_get(v, key) {
        Some(member) => int32s_of_value(member),
        None => None,
    }
}

/// Reads an array of numbers as a list of integers of 32 bits.
pub fn int32s_of_value(v: &serde_json::Value) -> (r: Option<Vec<i32>>)
    ensures
        r is Some <==> json_of(*v) is Array && int32s_of(json_of(*v)->Array_0) is Some,
        r matches Some(values) ==> values@ == int32s_of(json_of(*v)->Array_0)->0,
{
    let items = match value_as_array(v) {
        Some(items) => items,
        None => {
            return None;
        },
    };
    let mut values: Vec<i32> = Vec::new();
    let mut i: usize = 0;
    while i < items.len()
        invariant
            json_of(*v) is Array,
            jsons(items@) == json_of(*v)->Array_0,
            i <= items@.len(),
            values@.len() == i,
            forall|j: int|
                0 <= j < i ==> is_int32(#[trigger] jsons(items@)[j]) && values@[j] == jsons(
                    items@,
                )[j]->Int_0,
        decreases items@.len() - i,
    {
        match int32_of_value(&items[i]) {
            Some(n) => {
                values.push(n);
            },
            None => {
                assert(!is_int32(jsons(items@)[i as int]));
                return None;
            },
        }
        i = i + 1;
    }
    Some(values)
}

/// Reads the member `key` of an object as an identifier that may be missing.
/// The outer `None` says that the member is malformed.
pub fn read_id(v: &serde_json::Value, key: &str) -> (r: Option<Option<usize>>)
    ensures
        match id_member(members_of(json_of(*v)), key@) {
            Some(id) => r is Some && id_view(r->0) == id,
            None => r is None,
        },
{
    match value_get(v, key) {
        None => Some(None),
        Some(member) => if value_is_null(member) {
            Some(None)
        } else {
            match value_as_u64(member) {
                Some(n) => if n <= usize::MAX as u64 {
                    Some(Some(n as usize))
                } else {
                    None
                },
                None => None,
            }
        },
    }
}

/// Reads the member `key` of an object as an adjacency.
pub fn read_adjacency(v: &serde_json::Value, key: &str) -> (r: Option<Topology>)
    ensures
        match adjacency_member(members_of(json_of(*v)), key@) {
            Some(topology) => r is Some && r->0@ == topology,
            None => r is None,
        },
{
    let member = match value_get(v, key) {
        Some(member) => member,
        None => {
            return None;
        },
    };
    let members = match value_as_object(member) {
        Some(members) => members,
        None => {
            return None;
        },
    };
    let nodes = object_keys(members);
    let mut topology = Topology::new();
    let mut i: usize = 0;
    while i < nodes.len()
        invariant
            members_of(json_of(*v)).contains_key(key@),
            members_of(json_of(*v))[key@] == json_of(*member),
            json_of(*member) is Object,
            object_of(*members) == json_of(*member)->Object_0,
            forall|k: Seq<char>|
                object_of(*members).contains_key(k) <==> listed(nodes@, nodes@.len() as int, k),
            i <= nodes@.len(),
            forall|j: int|
                0 <= j < i ==> is_texts(object_of(*members)[(#[trigger] nodes@[j])@]),
            topology@ == Map::new(
                |node: Seq<char>| listed(nodes@, i as int, node),
                |node: Seq<char>| texts_of(object_of(*members)[node]->Array_0)->0,
            ),
        decreases nodes@.len() - i,
    {
        let node = &nodes[i];
        match value_get(member, node.as_str()) {
            Some(entry) => match texts_of_value(entry) {
                Some(neighbours) => {
                    topology.insert(node.clone(), neighbours);
                },
                None => {
                    return None;
                },
            },
            None => {
                return None;
            },
        }
        i = i + 1;
        proof {
            assert forall|k: Seq<char>| listed(nodes@, i as int, k) <==> (k == nodes@[i - 1]@
                || listed(nodes@, i - 1, k)) by {
                if listed(nodes@, i as int, k) {
                    let j = choose|j: int|
                        0 <= j < i && j < nodes@.len() && (#[trigger] nodes@[j])@ == k;
                    if j < i - 1 {
                        assert(listed(nodes@, i - 1, k));
                    }
                }
                if listed(nodes@, i - 1, k) || k == nodes@[i - 1]@ {
                    assert(listed(nodes@, i as int, k));
                }
            }
            assert(topology@ =~= Map::new(
                |node: Seq<char>| listed(nodes@, i as int, node),
                |node: Seq<char>| texts_of(object_of(*members)[node]->Array_0)->0,
            ));
        }
    }
    Some(topology)
}

/// A list of texts as an array of strings.
pub fn texts_value(texts: &Vec<String>) -> (r: serde_json::Value)
    ensures
        json_of(r) == texts_json(names(texts@)),
{
    let mut items: Vec<serde_json::Value> = Vec::new();
    let mut i: usize = 0;
    while i < texts.len()
        invariant
            i <= texts@.len(),
            items@.len() == i,
            forall|j: int| 0 <= j < i ==> json_of(#[trigger] items@[j]) == Json::Str(texts@[j]@),
        decreases texts@.len() - i,
    {
        items.push(value_from_string(texts[i].clone()));
        i = i + 1;
    }
    assert(jsons(items@) =~= texts_json(names(texts@))->Array_0);
    value_from_array(items)
}

/// A list of numbers as an array of integers.
pub fn int32s_value(values: &Vec<i32>) -> (r: serde_json::Value)
    ensures
        json_of(r) == int32s_json(values@),
{
    let mut items: Vec<serde_json::Value> = Vec::new();
    let mut i: usize = 0;
    while i < values.len()
        invariant
            i <= values@.len(),
            items@.len() == i,
            forall|j: int|
                0 <= j < i ==> json_of(#[trigger] items@[j]) == Json::Int(values@[j] as int),
        decreases values@.len() - i,
    {
        items.push(value_from_i64(values[i] as i64));
        i = i + 1;
    }
    assert(jsons(items@) =~= int32s_json(values@)->Array_0);
    value_from_array(items)
}

/// An adjacency as an object that gives for each node the array of its
/// neighbours.
pub fn adjacency_value(topology: &Topology) -> (r: serde_json::Value)
    ensures
        json_of(r) == adjacency_json(topology@),
{
    let mut members = object_new();
    let mut i: usize = 0;
    while i < topology.entries.len()
        invariant
            i <= topology.entries@.len(),
            object_of(members) == adjacency_members(adjacency(topology.entries@.take(i as int))),
        decreases topology.entries@.len() - i,
    {
        let node = topology.entries[i].0.clone();
        let neighbours = texts_value(&topology.entries[i].1);
        object_insert(&mut members, node, neighbours);
        assert(topology.entries@.take(i + 1).drop_last() == topology.entries@.take(i as int));
        i = i + 1;
    }
    assert(topology.entries@.take(i as int) == topology.entries@);
    value_from_object(members)
}

/// The members of a body that holds nothing but its `type`.
pub open spec fn tagged(kind: Seq<char>) -> Map<Seq<char>, Json> {
    Map::<Seq<char>, Json>::empty().insert("type"@, Json::Str(kind))
}

/// The members of the body of an `init` message.
pub open spec fn init_members(node_id: Seq<char>, node_ids: Seq<Seq<char>>) -> Map<
    Seq<char>,
    Json,
> {
    tagged("init"@).insert("node_id"@, Json::Str(node_id)).insert("node_ids"@, texts_json(node_ids))
}

/// Sets the member `key` of an object to the string `text`.
pub fn insert_text(
    members: &mut serde_json::Map<String, serde_json::Value>,
    key: &str,
    text: &String,
)
    ensures
        object_of(*final(members)) == object_of(*old(members)).insert(key@, Json::Str(text@)),
{
    object_insert(members, String::from_str(key), value_from_string(text.clone()));
}

/// An object that holds nothing but its `type`.
pub fn tagged_object(kind: &str) -> (r: serde_json::Map<String, serde_json::Value>)
    ensures
        object_of(r) == tagged(kind@),
{
    let mut members = object_new();
    let kind = String::from_str(kind);
    insert_text(&mut members, "type", &kind);
    members
}

/// The body of an `init` message.
pub fn init_object(node_id: &String, node_ids: &Vec<String>) -> (r: serde_json::Map<
    String,
    serde_json::Value,
>)
    ensures
        object_of(r) == init_members(node_id@, names(node_ids@)),
{
    let mut members = tagged_object("init");
    insert_text(&mut members, "node_id", node_id);
    object_insert(&mut members, String::from_str("node_ids"), texts_value(node_ids));
    members
}

/// Whether the body of a message is of the kind `kind`.
pub fn is_kind(body: &serde_json::Value, kind: &str) -> (r: bool)
    ensures
        r == (text_member(members_of(json_of(*body)), "type"@) == Some(kind@)),
{
    match value_get(body, "type") {
        Some(member) => match value_as_str(member) {
            Some(text) => same_text(text, kind),
            None => false,
        },
        None => false,
    }
}

/// A map holds each member of a map that lies within it.
pub proof fn lemma_member_of_submap(
    inner: Map<Seq<char>, Json>,
    outer: Map<Seq<char>, Json>,
    key: Seq<char>,
)
    requires
        inner.submap_of(outer),
        inner.contains_key(key),
    ensures
        outer.contains_key(key),
        outer[key] == inner[key],
{
    assert(inner.dom().contains(key) ==> outer.dom().contains(key));
}

/// The texts of an array of strings are the texts that it was made of.
pub proof fn lemma_texts_read_back(texts: Seq<Seq<char>>)
    ensures
        is_texts(texts_json(texts)),
        texts_of(texts_json(texts)->Array_0) == Some(texts),
{
}

/// The numbers of an array of integers are the numbers that it was made of.
pub proof fn lemma_int32s_read_back(values: Seq<i32>)
    ensures
        int32s_of(int32s_json(values)->Array_0) == Some(values),
{
}

/// The adjacency of the object that stands for an adjacency is that
/// adjacency.
pub proof fn lemma_adjacency_read_back(topology: Map<Seq<char>, Seq<Seq<char>>>)
    ensures
        forall|node: Seq<char>| #[trigger]
            adjacency_members(topology).contains_key(node) ==> is_texts(
                adjacency_members(topology)[node],
            ),
        adjacency_of(adjacency_members(topology)) == topology,
{
    assert forall|node: Seq<char>| #[trigger]
        adjacency_members(topology).contains_key(node) implies is_texts(
        adjacency_members(topology)[node],
    ) && texts_of(adjacency_members(topology)[node]->Array_0)->0 == topology[node] by {
        lemma_texts_read_back(topology[node]);
    }
}

/// The names of the members of a body are different texts.
pub proof fn lemma_member_names_differ()
    ensures
        "msg_id"@ != "in_reply_to"@,
        "msg_id"@ != "type"@,
        "msg_id"@ != "node_id"@,
        "msg_id"@ != "node_ids"@,
        "msg_id"@ != "echo"@,
        "msg_id"@ != "id"@,
        "msg_id"@ != "message"@,
        "msg_id"@ != "messages"@,
        "msg_id"@ != "topology"@,
        "in_reply_to"@ != "type"@,
        "in_reply_to"@ != "node_id"@,
        "in_reply_to"@ != "node_ids"@,
        "in_reply_to"@ != "echo"@,
        "in_reply_to"@ != "id"@,
        "in_reply_to"@ != "message"@,
        "in_reply_to"@ != "messages"@,
        "in_reply_to"@ != "topology"@,
        "type"@ != "node_id"@,
        "type"@ != "node_ids"@,
        "type"@ != "echo"@,
        "type"@ != "id"@,
        "type"@ != "message"@,
        "type"@ != "messages"@,
        "type"@ != "topology"@,
        "node_id"@ != "node_ids"@,
        "node_id"@ != "echo"@,
        "node_id"@ != "id"@,
        "node_id"@ != "message"@,
        "node_id"@ != "messages"@,
        "node_id"@ != "topology"@,
        "node_ids"@ != "echo"@,
        "node_ids"@ != "id"@,
        "node_ids"@ != "message"@,
        "node_ids"@ != "messages"@,
        "node_ids"@ != "topology"@,
        "echo"@ != "id"@,
        "echo"@ != "message"@,
        "echo"@ != "messages"@,
        "echo"@ != "topology"@,
        "id"@ != "message"@,
        "id"@ != "messages"@,
        "id"@ != "topology"@,
        "message"@ != "messages"@,
        "message"@ != "topology"@,
        "messages"@ != "topology"@,
{
    reveal_strlit("msg_id");
    reveal_strlit("in_reply_to");
    reveal_strlit("type");
    reveal_strlit("node_id");
    reveal_strlit("node_ids");
    reveal_strlit("echo");
    reveal_strlit("id");
    reveal_strlit("message");
    reveal_strlit("messages");
    reveal_strlit("topology");
    assert("msg_id"@.len() != "in_reply_to"@.len());
    assert("msg_id"@.len() != "type"@.len());
    assert("msg_id"@.len() != "node_id"@.len());
    assert("msg_id"@.len() != "node_ids"@.len());
    assert("msg_id"@.len() != "echo"@.len());
    assert("msg_id"@.len() != "id"@.len());
    assert("msg_id"@.len() != "message"@.len());
    assert("msg_id"@.len() != "messages"@.len());
    assert("msg_id"@.len() != "topology"@.len());
    assert("in_reply_to"@.len() != "type"@.len());
    assert("in_reply_to"@.len() != "node_id"@.len());
    assert("in_reply_to"@.len() != "node_ids"@.len());
    assert("in_reply_to"@.len() != "echo"@.len());
    assert("in_reply_to"@.len() != "id"@.len());
    assert("in_reply_to"@.len() != "message"@.len());
    assert("in_reply_to"@.len() != "messages"@.len());
    assert("in_reply_to"@.len() != "topology"@.len());
    assert("type"@.len() != "node_id"@.len());
    assert("type"@.len() != "node_ids"@.len());
    assert("type"@[0] != "echo"@[0]);
    assert("type"@.len() != "id"@.len());
    assert("type"@.len() != "message"@.len());
    assert("type"@.len() != "messages"@.len());
    assert("type"@.len() != "topology"@.len());
    assert("node_id"@.len() != "node_ids"@.len());
    assert("node_id"@.len() != "echo"@.len());
    assert("node_id"@.len() != "id"@.len());
    assert("node_id"@[0] != "message"@[0]);
    assert("node_id"@.len() != "messages"@.len());
    assert("node_id"@.len() != "topology"@.len());
    assert("node_ids"@.len() != "echo"@.len());
    assert("node_ids"@.len() != "id"@.len());
    assert("node_ids"@.len() != "message"@.len());
    assert("node_ids"@[0] != "messages"@[0]);
    assert("node_ids"@[0] != "topology"@[0]);
    assert("echo"@.len() != "id"@.len());
    assert("echo"@.len() != "message"@.len());
    assert("echo"@.len() != "messages"@.len());
    assert("echo"@.len() != "topology"@.len());
    assert("id"@.len() != "message"@.len());
    assert("id"@.len() != "messages"@.len());
    assert("id"@.len() != "topology"@.len());
    assert("message"@.len() != "messages"@.len());
    assert("message"@.len() != "topology"@.len());
    assert("messages"@[0] != "topology"@[0]);
}

} // verus!

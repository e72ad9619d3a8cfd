//! The context that a template is rendered against.
//!
//! The context is one JSON object. It always holds the message and the
//! payload under their own names, with the JSON text of the payload beside
//! them. Where the pipeline carries state, the state and its JSON text are
//! there too, a node of the state that the invocation addresses is added
//! under `node`, and the members of `state.input` and then those of `state`
//! itself are added under their own keys, as shortcuts: such a member never
//! replaces one that is already there, and never takes a reserved key.

use crate::capabilities::Capabilities;
use crate::invocation::{Invocation, InvocationView};
use crate::json::{
    find_member, lemma_members_view_push, members_view, put_member, Json, JsonView,
};
use crate::value::{json_text, to_json_text};
use crate::views::option_view;
use vstd::prelude::*;

verus! {

/// The reserved keys: those that belong to the structure of the context.
pub open spec fn reserved_keys() -> Set<Seq<char>> {
    set![
        "state"@,
        "payload"@,
        "msg"@,
        "config"@,
        "templates"@,
        "routing"@,
        "state_json"@,
        "payload_json"@,
        "node"@,
        "node_id"@,
        "node_payload"@,
    ]
}

/// Whether a key is reserved. No member of the state is ever added under a
/// reserved key.
pub open spec fn is_reserved(key: Seq<char>) -> bool {
    reserved_keys().contains(key)
}

/// What every context starts from.
pub open spec fn seeded(msg: JsonView, payload: JsonView, payload_json: Seq<char>) -> Map<
    Seq<char>,
    JsonView,
> {
    Map::empty().insert("msg"@, msg).insert("payload"@, payload).insert(
        "payload_json"@,
        JsonView::String(payload_json),
    )
}

/// `base` with the state and its JSON text.
pub open spec fn with_state(
    base: Map<Seq<char>, JsonView>,
    state: JsonView,
    state_json: Seq<char>,
) -> Map<Seq<char>, JsonView> {
    base.insert("state"@, state).insert("state_json"@, JsonView::String(state_json))
}

/// The node that an invocation addresses: `state.nodes[node_id]`, where
/// that is an object.
pub open spec fn addressed_node(state: JsonView, node_id: Option<Seq<char>>) -> Option<JsonView> {
    match node_id {
        None => None,
        Some(id) => match state.member("nodes"@) {
            None => None,
            Some(nodes) => match nodes.member(id) {
                Some(node) => if node is Object {
                    Some(node)
                } else {
                    None
                },
                None => None,
            },
        },
    }
}

/// `base` with the addressed node: the node under `node`, its id under
/// `node_id`, and its `payload` member, where it has one, under
/// `node_payload`. Without an addressed node, `base` as it is.
pub open spec fn with_node(
    base: Map<Seq<char>, JsonView>,
    state: JsonView,
    node_id: Option<Seq<char>>,
) -> Map<Seq<char>, JsonView> {
    match addressed_node(state, node_id) {
        None => base,
        Some(node) => {
            let named = base.insert("node"@, node).insert("node_id"@, JsonView::String(node_id->0));
            match node.member("payload"@) {
                Some(payload) => named.insert("node_payload"@, payload),
                None => named,
            }
        },
    }
}

/// `base` with the members of `source` as shortcuts: each member of
/// `source` whose key is not reserved and not in `base` is added; what is in
/// `base` stays as it is.
pub open spec fn flattened(
    base: Map<Seq<char>, JsonView>,
    source: Map<Seq<char>, JsonView>,
) -> Map<Seq<char>, JsonView> {
    Map::new(
        |key: Seq<char>| base.contains_key(key) || (source.contains_key(key) && !is_reserved(key)),
        |key: Seq<char>|
            if base.contains_key(key) {
                base[key]
            } else {
                source[key]
            },
    )
}

/// The members of `state.input`, where that is an object.
pub open spec fn state_input(state: JsonView) -> Map<Seq<char>, JsonView> {
    match state.member("input"@) {
        Some(input) => input.members(),
        None => Map::empty(),
    }
}

/// The members of `state` itself, but for `input`.
pub open spec fn state_members(state: JsonView) -> Map<Seq<char>, JsonView> {
    state.members().remove("input"@)
}

/// The structure of a context: the members that are there under their own,
/// reserved names.
pub open spec fn structure_of(
    capabilities: Capabilities,
    msg: JsonView,
    payload: JsonView,
    payload_json: Seq<char>,
    state: JsonView,
    state_json: Seq<char>,
    node_id: Option<Seq<char>>,
) -> Map<Seq<char>, JsonView> {
    let seed = seeded(msg, payload, payload_json);
    if !capabilities.supports_state {
        seed
    } else if !capabilities.supports_node_addressing {
        with_state(seed, state, state_json)
    } else {
        with_node(with_state(seed, state, state_json), state, node_id)
    }
}

/// The context of an invocation, given the JSON text of its payload and of
/// its state: the structure, then the shortcuts into `state.input`, then
/// those into `state`. Without state there are no shortcuts.
pub open spec fn context_of(
    capabilities: Capabilities,
    msg: JsonView,
    payload: JsonView,
    payload_json: Seq<char>,
    state: JsonView,
    state_json: Seq<char>,
    node_id: Option<Seq<char>>,
) -> JsonView {
    let structure = structure_of(
        capabilities,
        msg,
        payload,
        payload_json,
        state,
        state_json,
        node_id,
    );
    if capabilities.supports_state {
        JsonView::Object(flattened(flattened(structure, state_input(state)), state_members(state)))
    } else {
        JsonView::Object(structure)
    }
}

/// The context of an invocation.
pub open spec fn context_for(capabilities: Capabilities, invocation: InvocationView) -> JsonView {
    context_of(
        capabilities,
        invocation.msg,
        invocation.payload,
        json_text(invocation.payload),
        invocation.state,
        json_text(invocation.state),
        invocation.node_id,
    )
}

/// Whether `key` is the text `literal`.
fn is_text(key: &String, literal: &str) -> (answer: bool)
    ensures
        answer == (key@ == literal@),
{
    *key == literal.to_owned()
}

/// The reserved keys, as a list.
pub fn reserved_key_list() -> (keys: Vec<&'static str>)
    ensures
        keys@.len() == 11,
        forall|key: Seq<char>|
            is_reserved(key) <==> exists|i: int| 0 <= i < keys@.len() && (#[trigger] keys@[i])@ == key,
{
    let keys = vec![
        "state",
        "payload",
        "msg",
        "config",
        "templates",
        "routing",
        "state_json",
        "payload_json",
        "node",
        "node_id",
        "node_payload",
    ];
    proof {
        assert forall|key: Seq<char>| is_reserved(key) implies exists|i: int|
            0 <= i < keys@.len() && (#[trigger] keys@[i])@ == key by {
            if key == "state"@ {
                assert(keys@[0]@ == key);
            } else if key == "payload"@ {
                assert(keys@[1]@ == key);
            } else if key == "msg"@ {
                assert(keys@[2]@ == key);
            } else if key == "config"@ {
                assert(keys@[3]@ == key);
            } else if key == "templates"@ {
                assert(keys@[4]@ == key);
            } else if key == "routing"@ {
                assert(keys@[5]@ == key);
            } else if key == "state_json"@ {
                assert(keys@[6]@ == key);
            } else if key == "payload_json"@ {
                assert(keys@[7]@ == key);
            } else if key == "node"@ {
                assert(keys@[8]@ == key);
            } else if key == "node_id"@ {
                assert(keys@[9]@ == key);
            } else {
                assert(keys@[10]@ == key);
            }
        }
    }
    keys
}

/// Whether `key` is reserved.
pub fn is_reserved_key(key: &String) -> (answer: bool)
    ensures
        answer == is_reserved(key@),
{
    let keys = reserved_key_list();
    let mut i: usize = 0;
    while i < keys.len()
        invariant
            i <= keys.len(),
            forall|j: int| 0 <= j < i ==> (#[trigger] keys@[j])@ != key@,
            forall|reserved: Seq<char>|
                is_reserved(reserved) <==> exists|j: int|
                    0 <= j < keys@.len() && (#[trigger] keys@[j])@ == reserved,
        decreases keys.len() - i,
    {
        if is_text(key, keys[i]) {
            return true;
        }
        i += 1;
    }
    false
}

/// The eight keys of the structure of a context differ from each other.
proof fn lemma_structure_keys()
    ensures
        "msg"@.len() == 3,
        "payload"@.len() == 7,
        "payload_json"@.len() == 12,
        "state"@.len() == 5,
        "state_json"@.len() == 10,
        "node"@.len() == 4,
        "node_id"@.len() == 7,
        "node_payload"@.len() == 12,
        "payload"@ != "node_id"@,
        "payload_json"@ != "node_payload"@,
{
    reveal_strlit("msg");
    reveal_strlit("payload");
    reveal_strlit("payload_json");
    reveal_strlit("state");
    reveal_strlit("state_json");
    reveal_strlit("node");
    reveal_strlit("node_id");
    reveal_strlit("node_payload");
    assert("payload"@[0] != "node_id"@[0]);
    assert("payload_json"@[0] != "node_payload"@[0]);
}

/// The members that `source` offers as shortcuts: all of them, or all but
/// `input`.
pub open spec fn offered(source: Seq<(String, Json)>, without_input: bool) -> Map<
    Seq<char>,
    JsonView,
> {
    if without_input {
        members_view(source).remove("input"@)
    } else {
        members_view(source)
    }
}

/// Adds the members of `source` as shortcuts, in their order: a member is
/// passed over where its key is reserved or already there, and, with
/// `without_input`, where its key is `input`.
fn flatten_into(
    members: &mut Vec<(String, Json)>,
    source: &Vec<(String, Json)>,
    without_input: bool,
)
    ensures
        members_view(final(members)@) == flattened(
            members_view(old(members)@),
            offered(source@, without_input),
        ),
{
    let ghost base = members_view(members@);
    let mut i: usize = 0;
    proof {
        assert(source@.take(0) == Seq::<(String, Json)>::empty());
        assert(members_view(members@) =~= flattened(base, offered(source@.take(0), without_input)));
    }
    while i < source.len()
        invariant
            i <= source.len(),
            members_view(members@) == flattened(
                base,
                offered(source@.take(i as int), without_input),
            ),
        decreases source.len() - i,
    {
        let key = &source[i].0;
        let ghost before = source@.take(i as int);
        let ghost after = source@.take(i as int + 1);
        proof {
            lemma_members_view_push(before, source@[i as int].0, source@[i as int].1);
            assert(before.push(source@[i as int]) == after);
        }
        if without_input && is_text(key, "input") {
            proof {
                assert(offered(after, without_input) =~= offered(before, without_input));
            }
        } else if is_reserved_key(key) {
            proof {
                assert(flattened(base, offered(after, without_input)) =~= flattened(
                    base,
                    offered(before, without_input),
                ));
            }
        } else if find_member(members, key).is_some() {
            proof {
                assert(flattened(base, offered(after, without_input)) =~= flattened(
                    base,
                    offered(before, without_input),
                ));
            }
        } else {
            let value = source[i].1.clone();
            let owned = key.clone();
            proof {
                lemma_members_view_push(members@, owned, value);
                assert(flattened(base, offered(after, without_input)) =~= flattened(
                    base,
                    offered(before, without_input),
                ).insert(key@, value@));
            }
            members.push((owned, value));
        }
        i += 1;
    }
    proof {
        assert(source@.take(source.len() as int) == source@);
    }
}

/// Adds the addressed node of `state`, where there is one.
fn add_node(members: &mut Vec<(String, Json)>, state: &Json, node_id: &Option<String>)
    requires
        !members_view(old(members)@).contains_key("node"@),
        !members_view(old(members)@).contains_key("node_id"@),
        !members_view(old(members)@).contains_key("node_payload"@),
    ensures
        members_view(final(members)@) == with_node(
            members_view(old(members)@),
            state@,
            option_view(*node_id),
        ),
{
    proof {
        lemma_structure_keys();
    }
    if let Some(id) = node_id {
        if let Some(nodes) = state.get("nodes") {
            if let Some(node) = nodes.get(id.as_str()) {
                if node.is_object() {
                    put_member(members, "node", node.clone());
                    put_member(members, "node_id", Json::String(id.clone()));
                    if let Some(node_payload) = node.get("payload") {
                        put_member(members, "node_payload", node_payload.clone());
                    }
                }
            }
        }
    }
}

/// Adds the shortcuts into `state.input` and then those into `state`.
fn add_shortcuts(members: &mut Vec<(String, Json)>, state: &Json)
    ensures
        members_view(final(members)@) == flattened(
            flattened(members_view(old(members)@), state_input(state@)),
            state_members(state@),
        ),
{
    match state.get("input") {
        Some(Json::Object(input)) => {
            flatten_into(members, input, false);
        },
        _ => {
            proof {
                assert(flattened(members_view(members@), state_input(state@)) =~= members_view(
                    members@,
                ));
            }
        },
    }
    match state {
        Json::Object(top) => {
            flatten_into(members, top, true);
        },
        _ => {
            proof {
                assert(state_members(state@) =~= Map::<Seq<char>, JsonView>::empty());
                assert(flattened(members_view(members@), state_members(state@)) =~= members_view(
                    members@,
                ));
            }
        },
    }
}

/// Builds the context from the parts of an invocation and the JSON text of
/// its payload and of its state.
pub fn assemble_context(
    capabilities: &Capabilities,
    msg: &Json,
    payload: &Json,
    payload_json: &str,
    state: &Json,
    state_json: &str,
    node_id: &Option<String>,
) -> (context: Json)
    ensures
        context@ == context_of(
            *capabilities,
            msg@,
            payload@,
            payload_json@,
            state@,
            state_json@,
            option_view(*node_id),
        ),
{
    proof {
        lemma_structure_keys();
    }
    let mut members: Vec<(String, Json)> = Vec::new();
    put_member(&mut members, "msg", msg.clone());
    put_member(&mut members, "payload", payload.clone());
    put_member(&mut members, "payload_json", Json::string(payload_json));
    if capabilities.supports_state {
        put_member(&mut members, "state", state.clone());
        put_member(&mut members, "state_json", Json::string(state_json));
        if capabilities.supports_node_addressing {
            add_node(&mut members, state, node_id);
        }
        add_shortcuts(&mut members, state);
    }
    Json::Object(members)
}

/// Builds the context of an invocation.
pub fn build_context(capabilities: &Capabilities, invocation: &Invocation) -> (context: Json)
    ensures
        context@ == context_for(*capabilities, invocation@),
{
    let payload_json = to_json_text(&invocation.payload);
    let state_json = to_json_text(&invocation.state);
    assemble_context(
        capabilities,
        &invocation.msg,
        &invocation.payload,
        payload_json.as_str(),
        &invocation.state,
        state_json.as_str(),
        &invocation.node_id,
    )
}

/// Every key of the structure of a context is reserved.
pub proof fn law_structure_is_reserved(
    capabilities: Capabilities,
    msg: JsonView,
    payload: JsonView,
    payload_json: Seq<char>,
    state: JsonView,
    state_json: Seq<char>,
    node_id: Option<Seq<char>>,
    key: Seq<char>,
)
    requires
        structure_of(
            capabilities,
            msg,
            payload,
            payload_json,
            state,
            state_json,
            node_id,
        ).contains_key(key),
    ensures
        is_reserved(key),
{
}

/// Under a reserved key the context holds what its structure holds, and
/// nothing where the structure has no such key: the state cannot put a
/// member of its own there.
pub proof fn law_reserved_keys_are_kept(
    capabilities: Capabilities,
    msg: JsonView,
    payload: JsonView,
    payload_json: Seq<char>,
    state: JsonView,
    state_json: Seq<char>,
    node_id: Option<Seq<char>>,
    key: Seq<char>,
)
    requires
        is_reserved(key),
    ensures
        context_of(capabilities, msg, payload, payload_json, state, state_json, node_id).member(
            key,
        ) == JsonView::Object(
            structure_of(capabilities, msg, payload, payload_json, state, state_json, node_id),
        ).member(key),
{
}

/// The message and the payload are in every context under their own names,
/// with the JSON text of the payload beside them, and so are the state and
/// its JSON text where the pipeline carries state: whatever members the
/// state has, it does not shadow them.
pub proof fn law_structure_is_never_shadowed(
    capabilities: Capabilities,
    msg: JsonView,
    payload: JsonView,
    payload_json: Seq<char>,
    state: JsonView,
    state_json: Seq<char>,
    node_id: Option<Seq<char>>,
)
    ensures
        ({
            let context = context_of(
                capabilities,
                msg,
                payload,
                payload_json,
                state,
                state_json,
                node_id,
            );
            &&& context.member("msg"@) == Some(msg)
            &&& context.member("payload"@) == Some(payload)
            &&& context.member("payload_json"@) == Some(JsonView::String(payload_json))
            &&& capabilities.supports_state ==> context.member("state"@) == Some(state)
            &&& capabilities.supports_state ==> context.member("state_json"@) == Some(
                JsonView::String(state_json),
            )
        }),
{
    lemma_structure_keys();
}

/// A member of `state.input` under a key that is not reserved is in the
/// context under that key, also where `state` itself has a member under the
/// same key.
pub proof fn law_input_comes_before_state(
    capabilities: Capabilities,
    msg: JsonView,
    payload: JsonView,
    payload_json: Seq<char>,
    state: JsonView,
    state_json: Seq<char>,
    node_id: Option<Seq<char>>,
    key: Seq<char>,
)
    requires
        capabilities.supports_state,
        !is_reserved(key),
        state_input(state).contains_key(key),
    ensures
        context_of(capabilities, msg, payload, payload_json, state, state_json, node_id).member(
            key,
        ) == Some(state_input(state)[key]),
{
}

/// A member of `state` under a key that is not reserved, is not `input`
/// and is not a key of `state.input` is in the context under that key.
pub proof fn law_state_members_are_shortcuts(
    capabilities: Capabilities,
    msg: JsonView,
    payload: JsonView,
    payload_json: Seq<char>,
    state: JsonView,
    state_json: Seq<char>,
    node_id: Option<Seq<char>>,
    key: Seq<char>,
)
    requires
        capabilities.supports_state,
        !is_reserved(key),
        key != "input"@,
        !state_input(state).contains_key(key),
        state.members().contains_key(key),
    ensures
        context_of(capabilities, msg, payload, payload_json, state, state_json, node_id).member(
            key,
        ) == Some(state.members()[key]),
{
}

/// A context has no members but those of its structure and the shortcuts.
pub proof fn law_context_keys(
    capabilities: Capabilities,
    msg: JsonView,
    payload: JsonView,
    payload_json: Seq<char>,
    state: JsonView,
    state_json: Seq<char>,
    node_id: Option<Seq<char>>,
    key: Seq<char>,
)
    ensures
        context_of(
            capabilities,
            msg,
            payload,
            payload_json,
            state,
            state_json,
            node_id,
        ).members().contains_key(key) <==> structure_of(
            capabilities,
            msg,
            payload,
            payload_json,
            state,
            state_json,
            node_id,
        ).contains_key(key) || (capabilities.supports_state && !is_reserved(key) && (state_input(
            state,
        ).contains_key(key) || (key != "input"@ && state.members().contains_key(key)))),
{
}

/// Each of two invocations sees the state of its own: a shortcut into the
/// state of one shows the member of that state, whatever the other holds
/// under the same key.
pub proof fn law_contexts_are_separate(
    capabilities: Capabilities,
    a: InvocationView,
    b: InvocationView,
    key: Seq<char>,
)
    requires
        capabilities.supports_state,
        !is_reserved(key),
        key != "input"@,
        a.state.members().contains_key(key),
        b.state.members().contains_key(key),
        !state_input(a.state).contains_key(key),
        !state_input(b.state).contains_key(key),
    ensures
        context_for(capabilities, a).member(key) == Some(a.state.members()[key]),
        context_for(capabilities, b).member(key) == Some(b.state.members()[key]),
        context_for(capabilities, a).member("state"@) == Some(a.state),
        context_for(capabilities, b).member("state"@) == Some(b.state),
        context_for(capabilities, a).member("msg"@) == Some(a.msg),
        context_for(capabilities, b).member("msg"@) == Some(b.msg),
{
    lemma_structure_keys();
}

} // verus!

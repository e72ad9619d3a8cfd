//! One invocation: what a caller hands over to have a template rendered.

use crate::json::{items_view, lemma_items_view, Json, JsonView};
use crate::views::{option_view, result_view};
use vstd::prelude::*;

verus! {

/// The parts of an invocation.
#[derive(Debug)]
pub struct Invocation {
    /// The configuration of the operation, still as JSON.
    pub config: Json,
    /// The message envelope.
    pub msg: Json,
    /// The payload that the template is rendered for.
    pub payload: Json,
    /// The state of the flow so far; an empty object where there is none.
    pub state: Json,
    /// The node of the state that the invocation addresses.
    pub node_id: Option<String>,
    /// The names of the connections of the node; nothing here reads them.
    pub connections: Vec<String>,
}

/// An [`Invocation`] as plain values.
pub struct InvocationView {
    pub config: JsonView,
    pub msg: JsonView,
    pub payload: JsonView,
    pub state: JsonView,
    pub node_id: Option<Seq<char>>,
    pub connections: Seq<Seq<char>>,
}

/// The texts of a list of strings.
pub open spec fn texts(list: Seq<String>) -> Seq<Seq<char>> {
    Seq::new(list.len(), |i: int| list[i]@)
}

impl View for Invocation {
    type V = InvocationView;

    open spec fn view(&self) -> InvocationView {
        InvocationView {
            config: self.config@,
            msg: self.msg@,
            payload: self.payload@,
            state: self.state@,
            node_id: option_view(self.node_id),
            connections: texts(self.connections@),
        }
    }
}

/// The connections that an invocation names: none where the member is
/// absent, else the strings of the list; anything but a list of strings is
/// refused.
pub open spec fn connections_of(root: JsonView) -> Result<Seq<Seq<char>>, ()> {
    match root.member("connections"@) {
        None => Ok(Seq::empty()),
        Some(JsonView::Array(items)) => if forall|i: int|
            0 <= i < items.len() ==> (#[trigger] items[i]) is String {
            Ok(Seq::new(items.len(), |i: int| items[i]->String_0))
        } else {
            Err(())
        },
        Some(_) => Err(()),
    }
}

/// The state that an invocation carries: an empty object where it names
/// none.
pub open spec fn state_of(root: JsonView) -> JsonView {
    match root.member("state"@) {
        Some(state) => state,
        None => JsonView::Object(Map::empty()),
    }
}

/// The invocation that a JSON value holds, or why it holds none.
pub open spec fn invocation_of(root: JsonView) -> Result<InvocationView, Seq<char>> {
    if !(root is Object) {
        Err("the invocation must be an object"@)
    } else if root.member("config"@) is None {
        Err("the invocation is missing `config`"@)
    } else if root.member("msg"@) is None {
        Err("the invocation is missing `msg`"@)
    } else if root.member("payload"@) is None {
        Err("the invocation is missing `payload`"@)
    } else if root.optional_member("node_id"@) is Err {
        Err("`node_id` must be a string"@)
    } else if connections_of(root) is Err {
        Err("`connections` must be a list of strings"@)
    } else {
        Ok(
            InvocationView {
                config: root.member("config"@)->0,
                msg: root.member("msg"@)->0,
                payload: root.member("payload"@)->0,
                state: state_of(root),
                node_id: root.optional_member("node_id"@)->Ok_0,
                connections: connections_of(root)->Ok_0,
            },
        )
    }
}

/// Reads the connections of an invocation.
fn read_connections(root: &Json) -> (read: Result<Vec<String>, ()>)
    ensures
        match read {
            Ok(list) => connections_of(root@) == Ok::<Seq<Seq<char>>, ()>(texts(list@)),
            Err(_) => connections_of(root@) is Err,
        },
{
    match root.get("connections") {
        None => {
            proof {
                assert(texts(Seq::<String>::empty()) == Seq::<Seq<char>>::empty());
            }
            Ok(Vec::new())
        },
        Some(Json::Array(items)) => {
            let mut list: Vec<String> = Vec::new();
            let mut i: usize = 0;
            proof {
                lemma_items_view(items@);
            }
            while i < items.len()
                invariant
                    i <= items.len(),
                    list@.len() == i,
                    root@.member("connections"@) == Some(JsonView::Array(items_view(items@))),
                    items_view(items@).len() == items@.len(),
                    forall|j: int|
                        0 <= j < items@.len() ==> #[trigger] items_view(items@)[j] == items@[j]@,
                    forall|j: int|
                        0 <= j < i ==> items_view(items@)[j] == JsonView::String(
                            (#[trigger] list@[j])@,
                        ),
                decreases items.len() - i,
            {
                match &items[i] {
                    Json::String(text) => {
                        list.push(text.clone());
                    },
                    _ => {
                        proof {
                            assert(!(items_view(items@)[i as int] is String));
                        }
                        return Err(());
                    },
                }
                i += 1;
            }
            proof {
                let trees = items_view(items@);
                assert forall|j: int| 0 <= j < trees.len() implies (#[trigger] trees[j]) is String by {
                    assert(trees[j] == JsonView::String(list@[j]@));
                }
                assert(texts(list@) =~= Seq::new(trees.len(), |j: int| trees[j]->String_0));
            }
            Ok(list)
        },
        Some(_) => Err(()),
    }
}

/// Reads an invocation from its JSON form: an object with `config`, `msg`
/// and `payload`, and optionally `state`, `node_id` and `connections`.
/// The error is the reason for which the value is refused.
pub fn read_invocation(root: &Json) -> (reading: Result<Invocation, String>)
    ensures
        result_view(reading) == invocation_of(root@),
{
    if !root.is_object() {
        return Err("the invocation must be an object".to_owned());
    }
    let config = match root.get("config") {
        Some(config) => config.clone(),
        None => {
            return Err("the invocation is missing `config`".to_owned());
        },
    };
    let msg = match root.get("msg") {
        Some(msg) => msg.clone(),
        None => {
            return Err("the invocation is missing `msg`".to_owned());
        },
    };
    let payload = match root.get("payload") {
        Some(payload) => payload.clone(),
        None => {
            return Err("the invocation is missing `payload`".to_owned());
        },
    };
    let state = match root.get("state") {
        Some(state) => state.clone(),
        None => Json::empty_object(),
    };
    let node_id = match root.optional_member("node_id") {
        Ok(node_id) => node_id,
        Err(_) => {
            return Err("`node_id` must be a string".to_owned());
        },
    };
    let connections = match read_connections(root) {
        Ok(connections) => connections,
        Err(_) => {
            return Err("`connections` must be a list of strings".to_owned());
        },
    };
    Ok(Invocation { config, msg, payload, state, node_id, connections })
}

} // verus!

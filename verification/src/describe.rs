//! The manifest: what the component says of itself.

use crate::json::{put_member, Json, JsonView};
use crate::value::{json_text, to_json_text};
use vstd::prelude::*;

verus! {

/// The schemas that the manifest names.
pub open spec fn schemas_tree() -> JsonView {
    JsonView::Object(
        Map::empty().insert(
            "component"@,
            JsonView::String("schemas/component.schema.json"@),
        ).insert("input"@, JsonView::String("schemas/io/input.schema.json"@)).insert(
            "output"@,
            JsonView::String("schemas/io/output.schema.json"@),
        ),
    )
}

/// The manifest as a tree: the name, the organisation, the version and the
/// world of the component, and its schemas, all under `component`.
pub open spec fn manifest_tree() -> JsonView {
    JsonView::Object(
        Map::empty().insert(
            "component"@,
            JsonView::Object(
                Map::empty().insert("name"@, JsonView::String("component-templates"@)).insert(
                    "org"@,
                    JsonView::String("ai.greentic"@),
                ).insert("version"@, JsonView::String("0.1.0"@)).insert(
                    "world"@,
                    JsonView::String("greentic:component/component@0.5.0"@),
                ).insert("schemas"@, schemas_tree()),
            ),
        ),
    )
}

/// The keys of the manifest differ from each other.
proof fn lemma_manifest_keys()
    ensures
        "component"@.len() == 9,
        "input"@.len() == 5,
        "output"@.len() == 6,
        "name"@.len() == 4,
        "org"@.len() == 3,
        "version"@.len() == 7,
        "world"@.len() == 5,
        "schemas"@.len() == 7,
        "version"@ != "schemas"@,
{
    reveal_strlit("component");
    reveal_strlit("input");
    reveal_strlit("output");
    reveal_strlit("name");
    reveal_strlit("org");
    reveal_strlit("version");
    reveal_strlit("world");
    reveal_strlit("schemas");
    assert("version"@[0] != "schemas"@[0]);
}

/// The manifest as JSON.
pub fn manifest() -> (json: Json)
    ensures
        json@ == manifest_tree(),
{
    proof {
        lemma_manifest_keys();
    }
    let mut schemas: Vec<(String, Json)> = Vec::new();
    put_member(&mut schemas, "component", Json::string("schemas/component.schema.json"));
    put_member(&mut schemas, "input", Json::string("schemas/io/input.schema.json"));
    put_member(&mut schemas, "output", Json::string("schemas/io/output.schema.json"));
    let mut component: Vec<(String, Json)> = Vec::new();
    put_member(&mut component, "name", Json::string("component-templates"));
    put_member(&mut component, "org", Json::string("ai.greentic"));
    put_member(&mut component, "version", Json::string("0.1.0"));
    put_member(&mut component, "world", Json::string("greentic:component/component@0.5.0"));
    put_member(&mut component, "schemas", Json::Object(schemas));
    let mut top: Vec<(String, Json)> = Vec::new();
    put_member(&mut top, "component", Json::Object(component));
    Json::Object(top)
}

/// The manifest as JSON text.
pub fn describe_payload() -> (text: String)
    ensures
        text@ == json_text(manifest_tree()),
{
    to_json_text(&manifest())
}

} // verus!

//! The payload of a result: the rendered text, bare or nested under a dotted
//! path.

use crate::config::TemplateConfig;
use crate::json::{lemma_members_view_push, members_view, Json, JsonView};
use crate::text::{
    chars_of, dotted, is_key, law_segments_of_dotted, law_segments_of_key, segments, split_path,
    string_of,
};
use crate::views::option_view;
use vstd::prelude::*;

verus! {

/// The path under which rendered text goes where the configuration names
/// none: `text`.
pub open spec fn default_output_path() -> Seq<char> {
    "text"@
}

/// The path under which rendered text goes: the configured one, or the
/// default where none is configured or the configured one is empty.
pub open spec fn effective_path(output_path: Option<Seq<char>>) -> Seq<char> {
    match output_path {
        Some(path) => if path.len() > 0 {
            path
        } else {
            default_output_path()
        },
        None => default_output_path(),
    }
}

/// `rendered` under the keys `parts`, the first of them outermost; with no
/// keys, the bare string.
pub open spec fn nested(parts: Seq<Seq<char>>, rendered: Seq<char>) -> JsonView
    decreases parts.len(),
{
    if parts.len() == 0 {
        JsonView::String(rendered)
    } else {
        JsonView::Object(Map::empty().insert(parts[0], nested(parts.drop_first(), rendered)))
    }
}

/// The payload for `rendered`: the bare string without `wrap`, else the
/// string nested under the segments of the effective path.
pub open spec fn shaped(rendered: Seq<char>, wrap: bool, output_path: Option<Seq<char>>) -> JsonView {
    if wrap {
        nested(segments(effective_path(output_path)), rendered)
    } else {
        JsonView::String(rendered)
    }
}

/// Nests `rendered` under the segments of the dotted `path`: one object per
/// segment, each with the segment as its only key.
pub fn nest_payload(path: &str, rendered: &str) -> (payload: Json)
    ensures
        payload@ == nested(segments(path@), rendered@),
{
    let path_chars = chars_of(path);
    let parts = split_path(&path_chars);
    let ghost keys = segments(path@);
    let mut payload = Json::String(rendered.to_owned());
    let mut i: usize = parts.len();
    proof {
        assert(keys.skip(parts.len() as int).len() == 0);
    }
    while i > 0
        invariant
            i <= parts.len(),
            parts@.len() == keys.len(),
            forall|j: int| 0 <= j < parts@.len() ==> (#[trigger] parts@[j])@ == keys[j],
            payload@ == nested(keys.skip(i as int), rendered@),
        decreases i,
    {
        i -= 1;
        let key = string_of(&parts[i]);
        let mut members: Vec<(String, Json)> = Vec::new();
        proof {
            lemma_members_view_push(members@, key, payload);
            assert(members_view(members@) == Map::<Seq<char>, JsonView>::empty());
            assert(keys.skip(i as int).drop_first() == keys.skip(i as int + 1));
            assert(keys.skip(i as int)[0] == keys[i as int]);
        }
        members.push((key, payload));
        payload = Json::Object(members);
    }
    proof {
        assert(keys.skip(0) == keys);
    }
    payload
}

/// The payload of a result whose template rendered to `rendered`.
pub fn build_payload(rendered: &str, config: &TemplateConfig) -> (payload: Json)
    ensures
        payload@ == shaped(rendered@, config.wrap, option_view(config.output_path)),
{
    if !config.wrap {
        return Json::String(rendered.to_owned());
    }
    match &config.output_path {
        Some(path) => {
            if path.as_str().is_empty() {
                nest_payload("text", rendered)
            } else {
                nest_payload(path.as_str(), rendered)
            }
        },
        None => nest_payload("text", rendered),
    }
}


/// The object whose only member is `value` under `key`.
pub open spec fn under(key: Seq<char>, value: JsonView) -> JsonView {
    JsonView::Object(Map::empty().insert(key, value))
}

/// Without `wrap` the payload is the rendered text as a bare string,
/// whatever the output path says.
pub proof fn law_bare_payload(rendered: Seq<char>, output_path: Option<Seq<char>>)
    ensures
        shaped(rendered, false, output_path) == JsonView::String(rendered),
{
}

/// With `wrap` and an output path of three keys, the rendered text lies
/// under the three keys, the first of them outermost.
pub proof fn law_nested_payload(rendered: Seq<char>, a: Seq<char>, b: Seq<char>, c: Seq<char>)
    requires
        is_key(a),
        is_key(b),
        is_key(c),
    ensures
        shaped(rendered, true, Some(dotted(seq![a, b, c]))) == under(
            a,
            under(b, under(c, JsonView::String(rendered))),
        ),
{
    let keys = seq![a, b, c];
    law_segments_of_dotted(keys);
    assert(dotted(keys).len() > 0) by {
        assert(dotted(keys) == a + seq!['.'] + dotted(keys.drop_first()));
    }
    assert(keys.drop_first() == seq![b, c]);
    assert(seq![b, c].drop_first() == seq![c]);
    assert(seq![c].drop_first() == Seq::<Seq<char>>::empty());
    assert(nested(Seq::empty(), rendered) == JsonView::String(rendered));
    assert(nested(seq![c], rendered) == under(c, JsonView::String(rendered)));
    assert(nested(seq![b, c], rendered) == under(b, under(c, JsonView::String(rendered))));
}

/// With `wrap` and the output path `a.b.c`, the rendered text lies under
/// `a`, then `b`, then `c`.
pub proof fn law_nested_payload_a_b_c(rendered: Seq<char>)
    ensures
        shaped(rendered, true, Some("a.b.c"@)) == under(
            "a"@,
            under("b"@, under("c"@, JsonView::String(rendered))),
        ),
{
    reveal_strlit("a.b.c");
    reveal_strlit("a");
    reveal_strlit("b");
    reveal_strlit("c");
    let keys = seq!["a"@, "b"@, "c"@];
    assert(dotted(keys) == "a"@ + seq!['.'] + dotted(keys.drop_first()));
    assert(keys.drop_first() == seq!["b"@, "c"@]);
    assert(dotted(seq!["b"@, "c"@]) == "b"@ + seq!['.'] + dotted(seq!["b"@, "c"@].drop_first()));
    assert(seq!["b"@, "c"@].drop_first() == seq!["c"@]);
    assert(dotted(seq!["c"@]) == "c"@);
    assert(dotted(keys) == "a.b.c"@);
    law_nested_payload(rendered, "a"@, "b"@, "c"@);
}

/// With `wrap` and no output path, or an empty one, the rendered text lies
/// under `text`.
pub proof fn law_default_output_path(rendered: Seq<char>)
    ensures
        shaped(rendered, true, None) == under("text"@, JsonView::String(rendered)),
        shaped(rendered, true, Some(Seq::empty())) == under("text"@, JsonView::String(rendered)),
{
    reveal_strlit("text");
    law_segments_of_key("text"@);
    assert(seq!["text"@].drop_first() == Seq::<Seq<char>>::empty());
    assert(nested(Seq::empty(), rendered) == JsonView::String(rendered));
    assert(nested(seq!["text"@], rendered) == under("text"@, JsonView::String(rendered)));
}

} // verus!

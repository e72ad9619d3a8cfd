//! Rewrites bare placeholders for the payload and the state.
//!
//! `payload` and `state` are trees. A template that names one of them bare,
//! as in `{{payload}}`, means its JSON text, which the context holds under
//! `payload_json` and `state_json`. The rewrite replaces a fixed list of
//! spellings and nothing else: `{{payload.text}}` stays as it is.

use crate::text::{
    chars_of, law_replaced_without_occurrence, occurs_at, replace_all, replaced, string_of,
};
use vstd::prelude::*;

verus! {

/// The spellings that are rewritten, each with what replaces it, in the
/// order in which they are applied.
pub open spec fn alias_table() -> Seq<(Seq<char>, Seq<char>)> {
    seq![
        ("{{{payload}}}"@, "{{{payload_json}}}"@),
        ("{{{ payload }}}"@, "{{{ payload_json }}}"@),
        ("{{payload}}"@, "{{payload_json}}"@),
        ("{{ payload }}"@, "{{ payload_json }}"@),
        ("{{{state}}}"@, "{{{state_json}}}"@),
        ("{{{ state }}}"@, "{{{ state_json }}}"@),
        ("{{state}}"@, "{{state_json}}"@),
        ("{{ state }}"@, "{{ state_json }}"@),
    ]
}

/// `template` after the entries of `table` were applied one after the
/// other, each to the whole text that the one before it left.
pub open spec fn rewritten(template: Seq<char>, table: Seq<(Seq<char>, Seq<char>)>) -> Seq<char>
    decreases table.len(),
{
    if table.len() == 0 {
        template
    } else {
        rewritten(replaced(template, table[0].0, table[0].1), table.drop_first())
    }
}

/// The template that the engine is given for `template`.
pub open spec fn normalized(template: Seq<char>) -> Seq<char> {
    rewritten(template, alias_table())
}

/// Applying one more entry at the end.
proof fn lemma_rewritten_push(
    template: Seq<char>,
    table: Seq<(Seq<char>, Seq<char>)>,
    entry: (Seq<char>, Seq<char>),
)
    ensures
        rewritten(template, table.push(entry)) == replaced(
            rewritten(template, table),
            entry.0,
            entry.1,
        ),
    decreases table.len(),
{
    let longer = table.push(entry);
    if table.len() == 0 {
        assert(longer.drop_first() == table);
        assert(rewritten(replaced(template, entry.0, entry.1), table) == replaced(
            template,
            entry.0,
            entry.1,
        ));
    } else {
        assert(longer.drop_first() == table.drop_first().push(entry));
        lemma_rewritten_push(replaced(template, table[0].0, table[0].1), table.drop_first(), entry);
    }
}

/// The table as character vectors.
fn alias_entries() -> (entries: Vec<(Vec<char>, Vec<char>)>)
    ensures
        entries@.len() == alias_table().len(),
        forall|i: int|
            0 <= i < entries@.len() ==> (#[trigger] entries@[i]).0@ == alias_table()[i].0
                && entries@[i].1@ == alias_table()[i].1,
{
    let mut entries: Vec<(Vec<char>, Vec<char>)> = Vec::new();
    entries.push((chars_of("{{{payload}}}"), chars_of("{{{payload_json}}}")));
    entries.push((chars_of("{{{ payload }}}"), chars_of("{{{ payload_json }}}")));
    entries.push((chars_of("{{payload}}"), chars_of("{{payload_json}}")));
    entries.push((chars_of("{{ payload }}"), chars_of("{{ payload_json }}")));
    entries.push((chars_of("{{{state}}}"), chars_of("{{{state_json}}}")));
    entries.push((chars_of("{{{ state }}}"), chars_of("{{{ state_json }}}")));
    entries.push((chars_of("{{state}}"), chars_of("{{state_json}}")));
    entries.push((chars_of("{{ state }}"), chars_of("{{ state_json }}")));
    entries
}

/// Rewrites the bare placeholders of `template`.
pub fn normalize_template(template: &str) -> (out: String)
    ensures
        out@ == normalized(template@),
{
    let entries = alias_entries();
    let ghost table = alias_table();
    let mut current = chars_of(template);
    let mut i: usize = 0;
    proof {
        assert(table.take(0) == Seq::<(Seq<char>, Seq<char>)>::empty());
    }
    while i < entries.len()
        invariant
            i <= entries.len(),
            table == alias_table(),
            entries@.len() == table.len(),
            forall|j: int|
                0 <= j < entries@.len() ==> (#[trigger] entries@[j]).0@ == table[j].0
                    && entries@[j].1@ == table[j].1,
            current@ == rewritten(template@, table.take(i as int)),
        decreases entries.len() - i,
    {
        proof {
            lemma_rewritten_push(template@, table.take(i as int), table[i as int]);
            assert(table.take(i as int).push(table[i as int]) == table.take(i as int + 1));
        }
        current = replace_all(&current, &entries[i].0, &entries[i].1);
        i += 1;
    }
    proof {
        assert(table.take(table.len() as int) == table);
    }
    string_of(&current)
}


/// A template in which no entry of `table` occurs is left as it is by the
/// table.
proof fn lemma_rewritten_without_occurrence(
    template: Seq<char>,
    table: Seq<(Seq<char>, Seq<char>)>,
)
    requires
        forall|i: int, at: int| 0 <= i < table.len() ==> !occurs_at(template, table[i].0, at),
    ensures
        rewritten(template, table) == template,
    decreases table.len(),
{
    if table.len() > 0 {
        assert forall|at: int| !occurs_at(template, table[0].0, at) by {
            assert(0 <= 0 < table.len());
        }
        law_replaced_without_occurrence(template, table[0].0, table[0].1);
        let rest = table.drop_first();
        assert forall|i: int, at: int| 0 <= i < rest.len() implies !occurs_at(
            template,
            rest[i].0,
            at,
        ) by {
            assert(rest[i] == table[i + 1]);
        }
        lemma_rewritten_without_occurrence(template, rest);
    }
}

/// The rewrite touches the listed spellings only: a template that holds
/// none of them is handed to the engine as it is.
pub proof fn law_other_templates_are_kept(template: Seq<char>)
    requires
        forall|i: int, at: int|
            0 <= i < alias_table().len() ==> !occurs_at(template, alias_table()[i].0, at),
    ensures
        normalized(template) == template,
{
    lemma_rewritten_without_occurrence(template, alias_table());
}

} // verus!

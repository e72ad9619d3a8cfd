//! Work on text as sequences of characters: copying between strings and
//! character vectors, literal replacement, and dotted paths.

use vstd::prelude::*;

verus! {

/// The characters of `s`, in order.
pub fn chars_of(s: &str) -> (chars: Vec<char>)
    ensures
        chars@ == s@,
{
    let mut chars: Vec<char> = Vec::new();
    for c in it: s.chars()
        invariant
            chars@ == it.seq().take(it.index()),
            it.seq() == s@,
    {
        chars.push(c);
    }
    chars
}

/// `String::from_iter` over the characters of `chars`: the string that
/// holds exactly these characters, in order.
#[verifier::external_body]
pub(crate) fn string_of(chars: &Vec<char>) -> (s: String)
    ensures
        s@ == chars@,
{
    chars.iter().collect()
}

/// Whether `c` is one of the white-space characters of ASCII: space, tab,
/// line feed, form feed, carriage return.
pub open spec fn is_space(c: char) -> bool {
    c == ' ' || c == '\t' || c == '\n' || c == '\x0C' || c == '\r'
}

/// A text is blank where it holds nothing but white space.
pub open spec fn blank(text: Seq<char>) -> bool {
    forall|i: int| 0 <= i < text.len() ==> is_space(#[trigger] text[i])
}

/// Whether `text` is blank.
pub fn is_blank(text: &str) -> (answer: bool)
    ensures
        answer == blank(text@),
{
    let chars = chars_of(text);
    let mut i: usize = 0;
    while i < chars.len()
        invariant
            i <= chars.len(),
            chars@ == text@,
            forall|j: int| 0 <= j < i ==> is_space(#[trigger] chars@[j]),
        decreases chars.len() - i,
    {
        let c = chars[i];
        if !(c == ' ' || c == '\t' || c == '\n' || c == '\x0C' || c == '\r') {
            return false;
        }
        i += 1;
    }
    true
}

/// `text` holds `pattern` at position `at`.
pub open spec fn occurs_at(text: Seq<char>, pattern: Seq<char>, at: int) -> bool {
    &&& 0 <= at
    &&& at + pattern.len() <= text.len()
    &&& text.subrange(at, at + pattern.len()) == pattern
}

/// `text` with each occurrence of `from` replaced by `to`. Occurrences are
/// found from the left, and one that begins inside an occurrence already
/// found is not one. An empty `from` occurs nowhere.
pub open spec fn replaced(text: Seq<char>, from: Seq<char>, to: Seq<char>) -> Seq<char>
    decreases text.len(),
{
    if from.len() == 0 || text.len() < from.len() {
        text
    } else if occurs_at(text, from, 0) {
        to + replaced(text.skip(from.len() as int), from, to)
    } else {
        seq![text[0]] + replaced(text.skip(1), from, to)
    }
}

/// Whether `text` holds `pattern` at position `at`.
pub fn holds_at(text: &Vec<char>, pattern: &Vec<char>, at: usize) -> (answer: bool)
    requires
        at <= text.len(),
    ensures
        answer == occurs_at(text@, pattern@, at as int),
{
    if pattern.len() > text.len() - at {
        return false;
    }
    let mut k: usize = 0;
    while k < pattern.len()
        invariant
            k <= pattern.len(),
            at + pattern.len() <= text.len(),
            forall|j: int| 0 <= j < k ==> text@[at + j] == pattern@[j],
        decreases pattern.len() - k,
    {
        if text[at + k] != pattern[k] {
            proof {
                let part = text@.subrange(at as int, at + pattern.len());
                assert(part[k as int] == text@[at + k]);
            }
            return false;
        }
        k += 1;
    }
    proof {
        assert(text@.subrange(at as int, at + pattern.len()) =~= pattern@);
    }
    true
}

/// Replaces each occurrence of `from` in `text` by `to`.
pub fn replace_all(text: &Vec<char>, from: &Vec<char>, to: &Vec<char>) -> (out: Vec<char>)
    ensures
        out@ == replaced(text@, from@, to@),
{
    let mut out: Vec<char> = Vec::new();
    let mut i: usize = 0;
    proof {
        assert(text@.skip(0) == text@);
    }
    while i < text.len()
        invariant
            i <= text.len(),
            out@ + replaced(text@.skip(i as int), from@, to@) == replaced(text@, from@, to@),
        decreases text.len() - i,
    {
        let ghost rest = text@.skip(i as int);
        if from.len() > 0 && holds_at(text, from, i) {
            proof {
                assert(rest.subrange(0, from.len() as int) == text@.subrange(
                    i as int,
                    i + from.len(),
                ));
                assert(rest.skip(from.len() as int) == text@.skip(i + from.len()));
                assert(out@ + (to@ + replaced(rest.skip(from.len() as int), from@, to@)) == (out@
                    + to@) + replaced(rest.skip(from.len() as int), from@, to@));
            }
            let mut k: usize = 0;
            let ghost before = out@;
            while k < to.len()
                invariant
                    k <= to.len(),
                    out@ == before + to@.take(k as int),
                decreases to.len() - k,
            {
                out.push(to[k]);
                proof {
                    assert(to@.take(k as int).push(to@[k as int]) == to@.take(k as int + 1));
                }
                k += 1;
            }
            proof {
                assert(to@.take(to.len() as int) == to@);
            }
            i += from.len();
        } else {
            proof {
                if from.len() > 0 && rest.len() >= from.len() {
                    assert(rest.subrange(0, from.len() as int) == text@.subrange(
                        i as int,
                        i + from.len(),
                    ));
                    assert(rest.skip(1) == text@.skip(i as int + 1));
                    assert(out@ + (seq![rest[0]] + replaced(rest.skip(1), from@, to@)) == out@.push(
                        text@[i as int],
                    ) + replaced(rest.skip(1), from@, to@));
                } else {
                    lemma_replaced_short(rest.skip(1), from@, to@);
                    assert(rest.skip(1) == text@.skip(i as int + 1));
                    assert(out@ + rest == out@.push(text@[i as int]) + rest.skip(1));
                }
            }
            out.push(text[i]);
            i += 1;
        }
    }
    proof {
        assert(text@.skip(text.len() as int).len() == 0);
    }
    out
}

/// A text that is shorter than the pattern, or any text under an empty
/// pattern, stays as it is.
pub proof fn lemma_replaced_short(text: Seq<char>, from: Seq<char>, to: Seq<char>)
    requires
        from.len() == 0 || text.len() < from.len(),
    ensures
        replaced(text, from, to) == text,
{
}

/// The position of the first `.` of `path`, or the length of `path` where
/// it has none.
pub open spec fn first_dot(path: Seq<char>) -> int
    decreases path.len(),
{
    if path.len() == 0 || path[0] == '.' {
        0
    } else {
        1 + first_dot(path.skip(1))
    }
}

/// The pieces of a dotted path: what lies before its first dot, between
/// each two dots and after its last dot, in order, empty pieces included.
pub open spec fn pieces(path: Seq<char>) -> Seq<Seq<char>>
    decreases path.len(),
{
    let dot: int = first_dot(path);
    if 0 <= dot < path.len() {
        seq![path.take(dot)] + pieces(path.skip(dot + 1))
    } else {
        seq![path]
    }
}

/// The segments of a dotted path: its pieces without the empty ones.
pub open spec fn segments(path: Seq<char>) -> Seq<Seq<char>> {
    pieces(path).filter(|piece: Seq<char>| piece.len() > 0)
}

/// The segments of a path, told from its first dot: the piece before the
/// dot, unless it is empty, and then the segments of what follows the dot.
pub open spec fn segments_at_first_dot(path: Seq<char>) -> Seq<Seq<char>> {
    let dot: int = first_dot(path);
    let rest = if 0 <= dot < path.len() {
        segments(path.skip(dot + 1))
    } else {
        Seq::empty()
    };
    if dot > 0 {
        seq![path.take(dot)] + rest
    } else {
        rest
    }
}

/// `first_dot` is where the first dot is: within the path, with no dot
/// before it.
pub proof fn lemma_first_dot(path: Seq<char>)
    ensures
        0 <= first_dot(path) <= path.len(),
        forall|j: int| 0 <= j < first_dot(path) ==> path[j] != '.',
        first_dot(path) < path.len() ==> path[first_dot(path)] == '.',
    decreases path.len(),
{
    if path.len() > 0 && path[0] != '.' {
        let rest = path.skip(1);
        lemma_first_dot(rest);
        assert forall|j: int| 0 <= j < first_dot(path) implies path[j] != '.' by {
            if j > 0 {
                assert(path[j] == rest[j - 1]);
            }
        }
        if first_dot(path) < path.len() {
            assert(path[first_dot(path)] == rest[first_dot(rest)]);
        }
    }
}

/// A position with no dot before it, and a dot or the end at it, is
/// `first_dot`.
pub proof fn lemma_first_dot_is(path: Seq<char>, at: int)
    requires
        0 <= at <= path.len(),
        forall|j: int| 0 <= j < at ==> path[j] != '.',
        at < path.len() ==> path[at] == '.',
    ensures
        first_dot(path) == at,
{
    lemma_first_dot(path);
    let dot: int = first_dot(path);
    if dot < at {
        assert(path[dot] == '.');
    } else if dot > at {
        assert(path[at] != '.');
    }
}

/// The segments of a path are those told from its first dot.
pub proof fn lemma_segments_at_first_dot(path: Seq<char>)
    ensures
        segments(path) == segments_at_first_dot(path),
{
    reveal(Seq::filter);
    lemma_first_dot(path);
    let kept = |piece: Seq<char>| piece.len() > 0;
    let dot: int = first_dot(path);
    let first = seq![path.take(dot)];
    assert(first.drop_last() == Seq::<Seq<char>>::empty());
    assert(first.last() == path.take(dot));
    assert(first.filter(kept) == if dot > 0 {
        first
    } else {
        Seq::<Seq<char>>::empty()
    });
    if dot < path.len() {
        Seq::filter_distributes_over_add(first, pieces(path.skip(dot + 1)), kept);
        if dot == 0 {
            assert(Seq::<Seq<char>>::empty() + segments(path.skip(dot + 1)) == segments(
                path.skip(dot + 1),
            ));
        }
    } else {
        assert(path.take(dot) == path);
        if dot > 0 {
            assert(first + Seq::<Seq<char>>::empty() == first);
        }
    }
}

/// The segments of `path`, as character vectors.
pub fn split_path(path: &Vec<char>) -> (parts: Vec<Vec<char>>)
    ensures
        parts@.len() == segments(path@).len(),
        forall|i: int| 0 <= i < parts@.len() ==> (#[trigger] parts@[i])@ == segments(path@)[i],
{
    let mut parts: Vec<Vec<char>> = Vec::new();
    let mut current: Vec<char> = Vec::new();
    let mut start: usize = 0;
    let mut i: usize = 0;
    let ghost mut done: Seq<Seq<char>> = Seq::empty();
    proof {
        assert(path@.skip(0) == path@);
    }
    while i < path.len()
        invariant
            start <= i <= path.len(),
            done.len() == parts@.len(),
            forall|j: int| 0 <= j < parts@.len() ==> (#[trigger] parts@[j])@ == done[j],
            done + segments(path@.skip(start as int)) == segments(path@),
            current@ == path@.subrange(start as int, i as int),
            forall|j: int| start <= j < i ==> path@[j] != '.',
        decreases path.len() - i,
    {
        if path[i] == '.' {
            let ghost rest = path@.skip(start as int);
            proof {
                assert forall|j: int| 0 <= j < i - start implies rest[j] != '.' by {
                    assert(rest[j] == path@[start + j]);
                }
                lemma_first_dot_is(rest, i - start);
                lemma_segments_at_first_dot(rest);
                assert(rest.skip(i - start + 1) == path@.skip(i as int + 1));
                assert(rest.take(i - start) == path@.subrange(start as int, i as int));
            }
            if current.len() > 0 {
                proof {
                    assert(done + (seq![current@] + segments(path@.skip(i as int + 1))) == done.push(
                        current@,
                    ) + segments(path@.skip(i as int + 1)));
                    done = done.push(current@);
                }
                parts.push(current);
                current = Vec::new();
            }
            start = i + 1;
            proof {
                assert(path@.subrange(start as int, start as int) == Seq::<char>::empty());
            }
        } else {
            current.push(path[i]);
            proof {
                assert(path@.subrange(start as int, i as int).push(path@[i as int])
                    == path@.subrange(start as int, i as int + 1));
            }
        }
        i += 1;
    }
    let ghost rest = path@.skip(start as int);
    proof {
        assert forall|j: int| 0 <= j < i - start implies rest[j] != '.' by {
            assert(rest[j] == path@[start + j]);
        }
        lemma_first_dot_is(rest, i - start);
        lemma_segments_at_first_dot(rest);
        assert(rest.take(i - start) == path@.subrange(start as int, i as int));
    }
    if current.len() > 0 {
        proof {
            assert(done + seq![current@] == done.push(current@));
            done = done.push(current@);
        }
        parts.push(current);
    }
    parts
}


/// A key of a dotted path: a text that is not empty and holds no dot.
pub open spec fn is_key(part: Seq<char>) -> bool {
    part.len() > 0 && forall|i: int| 0 <= i < part.len() ==> part[i] != '.'
}

/// The dotted path of a list of keys: the keys with one dot between each
/// two of them.
pub open spec fn dotted(keys: Seq<Seq<char>>) -> Seq<char>
    decreases keys.len(),
{
    if keys.len() == 0 {
        Seq::empty()
    } else if keys.len() == 1 {
        keys[0]
    } else {
        keys[0] + seq!['.'] + dotted(keys.drop_first())
    }
}

/// The path of a single key has that key as its only segment.
pub proof fn law_segments_of_key(key: Seq<char>)
    requires
        is_key(key),
    ensures
        segments(key) == seq![key],
{
    lemma_first_dot_is(key, key.len() as int);
    lemma_segments_at_first_dot(key);
    assert(key.take(key.len() as int) == key);
    assert(seq![key] + Seq::<Seq<char>>::empty() == seq![key]);
}

/// Splitting the dotted path of a list of keys gives the keys back.
pub proof fn law_segments_of_dotted(keys: Seq<Seq<char>>)
    requires
        forall|i: int| 0 <= i < keys.len() ==> is_key(#[trigger] keys[i]),
    ensures
        segments(dotted(keys)) == keys,
    decreases keys.len(),
{
    if keys.len() == 0 {
        lemma_segments_at_first_dot(dotted(keys));
    } else if keys.len() == 1 {
        law_segments_of_key(keys[0]);
        assert(seq![keys[0]] == keys);
    } else {
        let first = keys[0];
        let others = keys.drop_first();
        let path = dotted(keys);
        assert forall|i: int| 0 <= i < others.len() implies is_key(#[trigger] others[i]) by {
            assert(others[i] == keys[i + 1]);
        }
        law_segments_of_dotted(others);
        assert(is_key(first));
        assert forall|j: int| 0 <= j < first.len() implies path[j] != '.' by {
            assert(path[j] == first[j]);
        }
        assert(path[first.len() as int] == '.');
        lemma_first_dot_is(path, first.len() as int);
        lemma_segments_at_first_dot(path);
        assert(path.take(first.len() as int) == first);
        assert(path.skip(first.len() as int + 1) == dotted(others));
        assert(seq![first] + others == keys);
    }
}


/// A text in which `from` does not occur stays as it is.
pub proof fn law_replaced_without_occurrence(text: Seq<char>, from: Seq<char>, to: Seq<char>)
    requires
        forall|at: int| !occurs_at(text, from, at),
    ensures
        replaced(text, from, to) == text,
    decreases text.len(),
{
    if from.len() == 0 || text.len() < from.len() {
    } else {
        let rest = text.skip(1);
        assert(!occurs_at(text, from, 0));
        assert forall|at: int| !occurs_at(rest, from, at) by {
            if occurs_at(rest, from, at) {
                assert(rest.subrange(at, at + from.len()) == text.subrange(
                    at + 1,
                    at + 1 + from.len(),
                ));
                assert(occurs_at(text, from, at + 1));
            }
        }
        law_replaced_without_occurrence(rest, from, to);
        assert(seq![text[0]] + rest == text);
    }
}

} // verus!

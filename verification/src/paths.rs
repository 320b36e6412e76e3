//! Unix paths as text: their components, and what is built from them.

use vstd::prelude::*;

use crate::text::{cat, chars_of, same_text, slice_of};

verus! {

broadcast use vstd::string::group_string_axioms;

/// The parts of a text between its slashes. Empty parts count, so there is
/// always at least one.
pub open spec fn segments_of(p: Seq<char>) -> Seq<Seq<char>>
    decreases p.len(),
{
    if p.len() == 0 {
        seq![seq![]]
    } else {
        let before = segments_of(p.drop_last());
        if p.last() == '/' {
            before.push(seq![])
        } else {
            before.drop_last().push(before.last().push(p.last()))
        }
    }
}

/// A segment that names nothing: an empty one, or the current directory.
pub open spec fn is_void(segment: Seq<char>) -> bool {
    segment.len() == 0 || (segment.len() == 1 && segment[0] == '.')
}

/// The segments that name something, in their order.
pub open spec fn named(segments: Seq<Seq<char>>) -> Seq<Seq<char>>
    decreases segments.len(),
{
    if segments.len() == 0 {
        seq![]
    } else if is_void(segments.last()) {
        named(segments.drop_last())
    } else {
        named(segments.drop_last()).push(segments.last())
    }
}

/// What the first segment of a path stands for: the root if the path starts
/// with a slash, else itself, a leading current directory included.
pub open spec fn head_of(segments: Seq<Seq<char>>) -> Seq<Seq<char>> {
    if segments[0].len() > 0 {
        seq![segments[0]]
    } else if segments.len() > 1 {
        seq![seq!['/']]
    } else {
        seq![]
    }
}

/// The components of a path, each as text, the root as a slash. Repeated and
/// trailing slashes make none, nor does the current directory but at the start
/// of a relative path.
pub open spec fn components_of(p: Seq<char>) -> Seq<Seq<char>> {
    let segments = segments_of(p);
    head_of(segments) + named(segments.drop_first())
}

/// The last component, if it is a name.
pub open spec fn file_name_of(p: Seq<char>) -> Option<Seq<char>> {
    let parts = components_of(p);
    if parts.len() == 0 || parts.last() =~= seq!['/'] || parts.last() =~= seq!['.']
        || parts.last() =~= seq!['.', '.'] {
        None
    } else {
        Some(parts.last())
    }
}

/// The least length from `from` on at which the start of `p` has the components
/// `parts`, or the length of `p` if there is none.
pub open spec fn shortest_with(p: Seq<char>, parts: Seq<Seq<char>>, from: int) -> int
    decreases p.len() - from,
{
    if from >= p.len() || components_of(p.take(from)) == parts {
        from
    } else {
        shortest_with(p, parts, from + 1)
    }
}

/// The path without its last component: the shortest start of its text that has
/// all the other components. The root and the empty path have no parent.
pub open spec fn parent_of(p: Seq<char>) -> Option<Seq<char>> {
    let parts = components_of(p);
    if parts.len() == 0 || (parts.len() == 1 && parts[0] =~= seq!['/']) {
        None
    } else {
        Some(p.take(shortest_with(p, parts.drop_last(), 0)))
    }
}

/// `p` as seen from `base`: an absolute `p` stands for itself.
pub open spec fn joined(base: Seq<char>, p: Seq<char>) -> Seq<char> {
    if p.len() > 0 && p[0] == '/' {
        p
    } else if base.len() == 0 || base.last() == '/' {
        base + p
    } else {
        base.push('/') + p
    }
}

/// Whether the components of `base` are the first ones of `p`.
pub open spec fn is_under(p: Seq<char>, base: Seq<char>) -> bool {
    components_of(base).is_prefix_of(components_of(p))
}

proof fn lemma_segments_nonempty(p: Seq<char>)
    ensures
        segments_of(p).len() > 0,
    decreases p.len(),
{
    if p.len() > 0 {
        lemma_segments_nonempty(p.drop_last());
    }
}

fn segments(p: &str) -> (res: Vec<String>)
    ensures
        res.deep_view() == segments_of(p@),
{
    let chars = chars_of(p);
    let mut res: Vec<String> = Vec::new();
    let mut start: usize = 0;
    let mut i: usize = 0;
    proof {
        assert(p@.take(0) == Seq::<char>::empty());
        assert(p@.subrange(0, 0) == Seq::<char>::empty());
        assert(segments_of(p@.take(0)) == res.deep_view().push(p@.subrange(0, 0)));
    }
    while i < chars.len()
        invariant
            chars@ == p@,
            start <= i <= chars@.len(),
            segments_of(p@.take(i as int)) == res.deep_view().push(
                p@.subrange(start as int, i as int),
            ),
        decreases chars@.len() - i,
    {
        let ghost before = res.deep_view();
        let ghost open = p@.subrange(start as int, i as int);
        proof {
            assert(p@.take(i + 1).drop_last() == p@.take(i as int));
            assert(before.push(open).drop_last() == before);
        }
        if chars[i] == '/' {
            let segment = slice_of(&chars, start, i);
            res.push(segment);
            proof {
                assert(res.deep_view() == before.push(open));
                assert(p@.subrange(i + 1, i + 1) == Seq::<char>::empty());
            }
            start = i + 1;
        } else {
            proof {
                assert(p@.subrange(start as int, i + 1) == open.push(p@[i as int]));
            }
        }
        i += 1;
    }
    let ghost before = res.deep_view();
    let segment = slice_of(&chars, start, chars.len());
    res.push(segment);
    proof {
        assert(res.deep_view() == before.push(segment@));
        assert(p@.take(i as int) == p@);
    }
    res
}

fn is_void_segment(segment: &str) -> (res: bool)
    ensures
        res == is_void(segment@),
{
    proof {
        reveal_strlit(".");
        if is_void(segment@) && segment@.len() > 0 {
            assert(segment@ =~= "."@);
        }
    }
    segment.is_empty() || same_text(segment, ".")
}

pub fn components(p: &str) -> (res: Vec<String>)
    ensures
        res.deep_view() == components_of(p@),
{
    let segments = segments(p);
    let ghost parts = segments.deep_view();
    proof {
        lemma_segments_nonempty(p@);
    }
    let mut res: Vec<String> = Vec::new();
    if !segments[0].as_str().is_empty() {
        res.push(segments[0].clone());
    } else if segments.len() > 1 {
        proof {
            reveal_strlit("/");
            assert("/"@ == seq!['/']);
        }
        res.push("/".to_owned());
    }
    proof {
        assert(parts[0] == segments@[0]@);
        assert(res.deep_view() == head_of(parts));
        assert(parts.subrange(1, 1) == Seq::<Seq<char>>::empty());
        assert(head_of(parts) + named(parts.subrange(1, 1)) == head_of(parts));
    }
    let mut i: usize = 1;
    while i < segments.len()
        invariant
            parts == segments.deep_view(),
            1 <= i <= segments@.len(),
            res.deep_view() == head_of(parts) + named(parts.subrange(1, i as int)),
        decreases segments@.len() - i,
    {
        let ghost before = res.deep_view();
        proof {
            assert(parts[i as int] == segments@[i as int]@);
            assert(parts.subrange(1, i + 1).drop_last() == parts.subrange(1, i as int));
        }
        if !is_void_segment(segments[i].as_str()) {
            res.push(segments[i].clone());
            proof {
                assert(res.deep_view() == before.push(parts[i as int]));
            }
        }
        i += 1;
    }
    proof {
        assert(parts.subrange(1, i as int) == parts.drop_first());
    }
    res
}

pub fn file_name(p: &str) -> (res: Option<String>)
    ensures
        res.deep_view() == file_name_of(p@),
{
    let parts = components(p);
    proof {
        reveal_strlit("/");
        reveal_strlit(".");
        reveal_strlit("..");
        assert("/"@ == seq!['/']);
        assert("."@ == seq!['.']);
        assert(".."@ == seq!['.', '.']);
        assert(parts.deep_view().len() == parts@.len());
    }
    if parts.len() == 0 {
        return None;
    }
    let last = &parts[parts.len() - 1];
    proof {
        assert(parts.deep_view().last() == last@);
    }
    if same_text(last.as_str(), "/") || same_text(last.as_str(), ".") || same_text(
        last.as_str(),
        "..",
    ) {
        return None;
    }
    Some(last.clone())
}

pub fn join(base: &str, p: &str) -> (res: String)
    ensures
        res@ == joined(base@, p@),
{
    let tail = chars_of(p);
    let head = chars_of(base);
    if tail.len() > 0 && tail[0] == '/' {
        p.to_owned()
    } else if head.len() == 0 || head[head.len() - 1] == '/' {
        cat(base, p)
    } else {
        let mut res = base.to_owned();
        res.push('/');
        res.append(p);
        res
    }
}

pub fn starts_with(p: &str, base: &str) -> (res: bool)
    ensures
        res == is_under(p@, base@),
{
    let parts = components(p);
    let wanted = components(base);
    let ghost all = parts.deep_view();
    let ghost first = wanted.deep_view();
    if wanted.len() > parts.len() {
        return false;
    }
    let mut i: usize = 0;
    while i < wanted.len()
        invariant
            all == parts.deep_view(),
            all == components_of(p@),
            first == wanted.deep_view(),
            first == components_of(base@),
            i <= wanted@.len() <= parts@.len(),
            first.take(i as int) == all.take(i as int),
        decreases wanted@.len() - i,
    {
        proof {
            assert(all[i as int] == parts@[i as int]@);
            assert(first[i as int] == wanted@[i as int]@);
        }
        if wanted[i] != parts[i] {
            proof {
                assert(first[i as int] != all.subrange(0, first.len() as int)[i as int]);
            }
            return false;
        }
        i += 1;
    }
    proof {
        assert(first.take(i as int) == first);
        assert(all.take(i as int) == all.subrange(0, first.len() as int));
    }
    true
}

/// How one more character changes the components of a path.
proof fn lemma_components_push(p: Seq<char>, c: char)
    ensures
        ({
            let old_parts = components_of(p);
            let new_parts = components_of(p.push(c));
            let segments = segments_of(p);
            let open = segments.last();
            let alone = segments.len() == 1;
            if c == '/' {
                if p.len() == 0 {
                    old_parts.len() == 0 && new_parts == seq![seq!['/']]
                } else {
                    new_parts == old_parts
                }
            } else if !alone && is_void(open.push(c)) {
                new_parts == old_parts
            } else if open.len() == 0 || (!alone && is_void(open)) {
                new_parts == old_parts.push(open.push(c))
            } else {
                &&& old_parts.len() > 0
                &&& old_parts.last() == open
                &&& new_parts == old_parts.drop_last().push(open.push(c))
            }
        }),
{
    let segments = segments_of(p);
    let longer = segments_of(p.push(c));
    lemma_segments_nonempty(p);
    assert(p.push(c).drop_last() == p);
    if c == '/' {
        assert(longer == segments.push(seq![]));
        assert(longer.drop_first().drop_last() == segments.drop_first());
        if p.len() > 0 && segments[0].len() == 0 {
            lemma_first_segment_empty(p);
        }
    } else {
        let open = segments.last();
        let wider = open.push(c);
        assert(longer == segments.drop_last().push(wider));
        if segments.len() == 1 {
            assert(longer == seq![wider]);
            assert(longer.drop_first() == Seq::<Seq<char>>::empty());
            assert(segments.drop_first() == Seq::<Seq<char>>::empty());
            assert(components_of(p.push(c)) == seq![wider]);
            if open.len() > 0 {
                assert(components_of(p) == seq![open]);
            } else {
                assert(components_of(p) == Seq::<Seq<char>>::empty());
            }
        } else {
            assert(longer[0] == segments[0]);
            assert(longer.drop_first().drop_last() == segments.drop_first().drop_last());
            assert(longer.drop_first().last() == wider);
            assert(segments.drop_first().last() == open);
            let head = head_of(segments);
            let kept = named(segments.drop_first().drop_last());
            assert(head_of(longer) == head);
            if !is_void(open) {
                assert(components_of(p) == (head + kept).push(open));
                assert((head + kept).push(open).drop_last() == head + kept);
                assert(wider.len() >= 2);
            }
            if !is_void(wider) {
                assert(components_of(p.push(c)) == (head + kept).push(wider));
            }
        }
    }
}

/// A path whose first segment is empty is empty or has a second segment.
proof fn lemma_first_segment_empty(p: Seq<char>)
    requires
        p.len() > 0,
        segments_of(p)[0].len() == 0,
    ensures
        segments_of(p).len() > 1,
    decreases p.len(),
{
    lemma_segments_nonempty(p.drop_last());
}

/// The number of characters in all the components.
spec fn weight(parts: Seq<Seq<char>>) -> nat
    decreases parts.len(),
{
    if parts.len() == 0 {
        0
    } else {
        weight(parts.drop_last()) + parts.last().len()
    }
}

proof fn lemma_weight_push(parts: Seq<Seq<char>>, part: Seq<char>)
    ensures
        weight(parts.push(part)) == weight(parts) + part.len(),
{
    assert(parts.push(part).drop_last() == parts);
}

proof fn lemma_weight_grows(p: Seq<char>, from: int, to: int)
    requires
        0 <= from <= to <= p.len(),
    ensures
        weight(components_of(p.take(from))) <= weight(components_of(p.take(to))),
    decreases to - from,
{
    if from < to {
        lemma_weight_grows(p, from, to - 1);
        lemma_weight_step(p, to - 1);
    }
}

/// The components of one more character are the same ones or weigh more.
proof fn lemma_weight_step(p: Seq<char>, at: int)
    requires
        0 <= at < p.len(),
    ensures
        ({
            let old_parts = components_of(p.take(at));
            let new_parts = components_of(p.take(at + 1));
            new_parts == old_parts || weight(old_parts) < weight(new_parts)
        }),
{
    let c = p[at];
    let shorter = p.take(at);
    assert(p.take(at + 1) == shorter.push(c));
    lemma_components_push(shorter, c);
    let old_parts = components_of(shorter);
    let open = segments_of(shorter).last();
    lemma_weight_push(old_parts, open.push(c));
    if old_parts.len() > 0 {
        lemma_weight_push(old_parts.drop_last(), open.push(c));
    }
    assert(weight(seq![seq!['/']]) == 1) by {
        reveal_with_fuel(weight, 2);
    }
}

/// Whether `len` is the least length at which the start of `p` has the
/// components `parts`.
spec fn first_at(p: Seq<char>, parts: Seq<Seq<char>>, len: int) -> bool {
    &&& 0 <= len <= p.len()
    &&& components_of(p.take(len)) == parts
    &&& forall|k: int| 0 <= k < len ==> components_of(#[trigger] p.take(k)) != parts
}

proof fn lemma_shortest_with(p: Seq<char>, parts: Seq<Seq<char>>, from: int, len: int)
    requires
        first_at(p, parts, len),
        0 <= from <= len,
    ensures
        shortest_with(p, parts, from) == len,
    decreases len - from,
{
    if from < len {
        assert(components_of(p.take(from)) != parts);
        lemma_shortest_with(p, parts, from + 1, len);
    }
}

/// New components are seen for the first time where they arise.
proof fn lemma_first_at_new(p: Seq<char>, at: int)
    requires
        0 <= at < p.len(),
        components_of(p.take(at + 1)) != components_of(p.take(at)),
    ensures
        first_at(p, components_of(p.take(at + 1)), at + 1),
{
    lemma_weight_step(p, at);
    assert forall|k: int| 0 <= k < at + 1 implies components_of(#[trigger] p.take(k))
        != components_of(p.take(at + 1)) by {
        lemma_weight_grows(p, k, at);
    }
}

pub fn parent(p: &str) -> (res: Option<String>)
    ensures
        res.deep_view() == parent_of(p@),
{
    let parts = components(p);
    proof {
        reveal_strlit("/");
        assert("/"@ == seq!['/']);
        assert(parts.deep_view().len() == parts@.len());
        if parts@.len() == 1 {
            assert(parts.deep_view()[0] == parts@[0]@);
        }
    }
    if parts.len() == 0 || (parts.len() == 1 && same_text(parts[0].as_str(), "/")) {
        return None;
    }
    let chars = chars_of(p);
    // Where the open segment starts, where the components were first complete,
    // and where all but the last of them were.
    let mut start: usize = 0;
    let mut whole: usize = 0;
    let mut cut: usize = 0;
    let mut i: usize = 0;
    proof {
        assert(p@.take(0) == Seq::<char>::empty());
        assert(segments_of(p@.take(0)) == seq![Seq::<char>::empty()]);
        assert(p@.subrange(0, 0) == Seq::<char>::empty());
        assert(components_of(p@.take(0)).len() == 0);
    }
    while i < chars.len()
        invariant
            chars@ == p@,
            start <= i <= chars@.len(),
            whole <= i,
            cut <= i,
            segments_of(p@.take(i as int)).len() > 0,
            segments_of(p@.take(i as int)).last() == p@.subrange(start as int, i as int),
            (segments_of(p@.take(i as int)).len() == 1) == (start == 0),
            first_at(p@, components_of(p@.take(i as int)), whole as int),
            components_of(p@.take(i as int)).len() > 0 ==> first_at(
                p@,
                components_of(p@.take(i as int)).drop_last(),
                cut as int,
            ),
        decreases chars@.len() - i,
    {
        let c = chars[i];
        let ghost shorter = p@.take(i as int);
        let ghost old_parts = components_of(shorter);
        let ghost open = p@.subrange(start as int, i as int);
        proof {
            assert(p@.take(i + 1) == shorter.push(c));
            assert(shorter.push(c).drop_last() == shorter);
            lemma_components_push(shorter, c);
            if start > 0 && i == start + 1 {
                assert(open =~= seq![chars@[start as int]]);
            }
            if i == start {
                assert(open.push(c) =~= seq![c]);
            }
        }
        if c == '/' {
            if i == 0 {
                proof {
                    assert(old_parts == Seq::<Seq<char>>::empty());
                    assert(seq![seq!['/']].drop_last() == old_parts);
                    lemma_first_at_new(p@, i as int);
                }
                cut = whole;
                whole = i + 1;
            }
            start = i + 1;
            proof {
                assert(p@.subrange(i + 1, i + 1) == Seq::<char>::empty());
            }
        } else {
            let alone = start == 0;
            let was_void = i == start || (!alone && i == start + 1 && chars[start] == '.');
            let stays_void = !alone && i == start && c == '.';
            proof {
                assert(p@.subrange(start as int, i + 1) == open.push(c));
                assert(stays_void == (!alone && is_void(open.push(c))));
                assert(was_void == (open.len() == 0 || (!alone && is_void(open))));
            }
            if !stays_void {
                proof {
                    let new_parts = components_of(p@.take(i + 1));
                    if was_void {
                        assert(new_parts.drop_last() == old_parts);
                        assert(new_parts.len() != old_parts.len());
                    } else {
                        assert(new_parts.drop_last() == old_parts.drop_last());
                        assert(new_parts.last().len() != old_parts.last().len());
                    }
                    lemma_first_at_new(p@, i as int);
                }
                if was_void {
                    cut = whole;
                }
                whole = i + 1;
            }
        }
        i += 1;
    }
    proof {
        assert(p@.take(i as int) == p@);
        lemma_shortest_with(p@, components_of(p@).drop_last(), 0, cut as int);
    }
    Some(slice_of(&chars, 0, cut))
}

/// The parts of a path that goes on behind a slash are those of both its parts.
proof fn lemma_segments_concat(q: Seq<char>, p: Seq<char>)
    requires
        segments_of(q).last().len() == 0,
    ensures
        segments_of(q + p) == segments_of(q).drop_last() + segments_of(p),
    decreases p.len(),
{
    let kept = segments_of(q).drop_last();
    lemma_segments_nonempty(q);
    if p.len() == 0 {
        assert(q + p == q);
        assert(segments_of(q).last() == Seq::<char>::empty());
        assert(segments_of(q) == kept + segments_of(p));
    } else {
        let shorter = p.drop_last();
        lemma_segments_concat(q, shorter);
        lemma_segments_nonempty(shorter);
        assert((q + p).drop_last() == q + shorter);
        assert((kept + segments_of(shorter)).drop_last() == kept + segments_of(
            shorter,
        ).drop_last());
        assert(segments_of(q + p) == kept + segments_of(p));
    }
}

proof fn lemma_named_concat(first: Seq<Seq<char>>, second: Seq<Seq<char>>)
    ensures
        named(first + second) == named(first) + named(second),
    decreases second.len(),
{
    if second.len() == 0 {
        assert(first + second == first);
    } else {
        lemma_named_concat(first, second.drop_last());
        assert((first + second).drop_last() == first + second.drop_last());
    }
}

/// A relative path that is joined to another one adds what it names, and nothing
/// else.
pub proof fn law_join_appends(base: Seq<char>, p: Seq<char>)
    requires
        base.len() > 0,
        p.len() > 0 ==> p[0] != '/',
    ensures
        components_of(joined(base, p)) == components_of(base) + named(segments_of(p)),
{
    let open = if base.last() == '/' {
        base
    } else {
        base.push('/')
    };
    assert(base.push('/').drop_last() == base);
    lemma_components_push(base, '/');
    let segments = segments_of(open);
    lemma_segments_nonempty(open.drop_last());
    assert(segments.last().len() == 0);
    lemma_segments_concat(open, p);
    lemma_segments_nonempty(p);
    assert(segments.len() > 1);
    let kept = segments.drop_first().drop_last();
    let longer = segments_of(open + p);
    assert(longer.drop_first() == kept + segments_of(p));
    assert(head_of(longer) == head_of(segments));
    lemma_named_concat(kept, segments_of(p));
    assert(joined(base, p) == open + p);
}

/// What a path is made of, told from its end: behind a slash follows a name, or
/// nothing that counts. With what a path without slashes is made of, this says it
/// of every path.
pub proof fn law_components_exact(base: Seq<char>, name: Seq<char>)
    requires
        !name.contains('/'),
    ensures
        components_of(name) == (if name.len() == 0 {
            seq![]
        } else {
            seq![name]
        }),
        ({
            let before = if base.len() == 0 {
                seq![seq!['/']]
            } else {
                components_of(base)
            };
            components_of(base.push('/') + name) == (if name.len() == 0 || name == seq!['.'] {
                before
            } else {
                before.push(name)
            })
        }),
{
    lemma_single_segment(name);
    let alone = seq![name];
    assert(alone.drop_first() == Seq::<Seq<char>>::empty());
    assert(components_of(name) == head_of(alone));
    let open = base.push('/');
    assert(open.drop_last() == base);
    lemma_components_push(base, '/');
    let segments = segments_of(open);
    lemma_segments_nonempty(base);
    assert(segments.last().len() == 0);
    lemma_segments_concat(open, name);
    assert(segments.len() > 1);
    let kept = segments.drop_first().drop_last();
    let longer = segments_of(open + name);
    assert(longer.drop_first() == kept + alone);
    assert(head_of(longer) == head_of(segments));
    lemma_named_concat(kept, alone);
    assert(alone.drop_last() == Seq::<Seq<char>>::empty());
    assert(is_void(name) == (name.len() == 0 || name == seq!['.'])) by {
        if is_void(name) && name.len() > 0 {
            assert(name =~= seq!['.']);
        }
    }
    assert(named(alone) == if is_void(name) {
        Seq::<Seq<char>>::empty()
    } else {
        alone
    }) by {
        reveal_with_fuel(named, 2);
    }
}

/// An absolute path that is joined to another one stands for itself. A relative
/// one follows the other one, with one slash between them where it had none.
pub proof fn law_join_exact(base: Seq<char>, p: Seq<char>)
    ensures
        joined(base, seq!['/'] + p) == seq!['/'] + p,
        p.len() == 0 || p[0] != '/' ==> {
            &&& joined(seq![], p) == p
            &&& joined(base.push('/'), p) == base.push('/') + p
            &&& base.len() > 0 && base.last() != '/' ==> joined(base, p) == base.push('/') + p
        },
{
    assert(Seq::<char>::empty() + p == p);
}

/// A path lies under another one if and only if its components go on from those
/// of the other one.
pub proof fn law_under_exact(p: Seq<char>, base: Seq<char>)
    ensures
        is_under(p, base) <==> exists|rest: Seq<Seq<char>>|
            components_of(p) == #[trigger] (components_of(base) + rest),
{
    let parts = components_of(p);
    let first = components_of(base);
    if is_under(p, base) {
        assert(parts == first + parts.skip(first.len() as int));
    }
    if exists|rest: Seq<Seq<char>>| parts == #[trigger] (first + rest) {
        let rest = choose|rest: Seq<Seq<char>>| parts == #[trigger] (first + rest);
        assert(parts.subrange(0, first.len() as int) == first);
    }
}

/// The name of a path is its last component, unless that is the root or stands
/// for the current directory or the one above.
pub proof fn law_file_name_exact(p: Seq<char>)
    ensures
        ({
            let parts = components_of(p);
            let no_name = parts.len() == 0 || parts.last() == seq!['/'] || parts.last()
                == seq!['.'] || parts.last() == seq!['.', '.'];
            file_name_of(p) == if no_name {
                None
            } else {
                Some(parts.last())
            }
        }),
{
}

/// A path has a parent unless it is empty or the root. The parent is a start of
/// its text, the shortest that has all its components but the last one.
pub proof fn law_parent_exact(p: Seq<char>)
    ensures
        parent_of(p) is None <==> components_of(p).len() == 0 || components_of(p)
            == seq![seq!['/']],
        parent_of(p) matches Some(dir) ==> {
            &&& dir.len() <= p.len() && dir == p.take(dir.len() as int)
            &&& components_of(dir) == components_of(p).drop_last()
            &&& forall|k: int|
                0 <= k < dir.len() ==> components_of(#[trigger] p.take(k)) != components_of(
                    p,
                ).drop_last()
        },
{
    let parts = components_of(p);
    if parts.len() == 1 && parts[0] =~= seq!['/'] {
        assert(parts =~= seq![seq!['/']]);
    }
    if parent_of(p) is Some {
        let at = lemma_cut(p);
        let wanted = parts.drop_last();
        lemma_shortest_found(p, wanted, 0, at);
        assert forall|k: int| 0 <= k < shortest_with(p, wanted, 0) implies components_of(
            #[trigger] p.take(k),
        ) != wanted by {
            if components_of(p.take(k)) == wanted {
                lemma_shortest_found(p, wanted, 0, k);
            }
        }
    }
}

/// A path without slashes is its own only part.
proof fn lemma_single_segment(name: Seq<char>)
    requires
        !name.contains('/'),
    ensures
        segments_of(name) == seq![name],
    decreases name.len(),
{
    if name.len() > 0 {
        assert(name.last() == name[name.len() - 1]);
        assert forall|i: int| 0 <= i < name.drop_last().len() implies name.drop_last()[i]
            != '/' by {
            assert(name[i] != '/');
        }
        lemma_single_segment(name.drop_last());
        assert(name.drop_last().push(name.last()) == name);
        assert(segments_of(name) == seq![name]);
    } else {
        assert(name == Seq::<char>::empty());
    }
}

/// Whether a text can name a file in a directory.
pub open spec fn is_plain_name(name: Seq<char>) -> bool {
    !is_void(name) && !name.contains('/')
}

/// A name that is joined to a path is one more component of it.
pub proof fn law_join_name(base: Seq<char>, name: Seq<char>)
    requires
        is_plain_name(name),
    ensures
        components_of(joined(base, name)) == components_of(base).push(name),
{
    lemma_single_segment(name);
    assert(name.contains(name[0]));
    let alone = seq![name];
    assert(alone.drop_last() == Seq::<Seq<char>>::empty());
    assert(named(alone) == seq![name]) by {
        reveal_with_fuel(named, 2);
    }
    if base.len() > 0 {
        law_join_appends(base, name);
    } else {
        assert(base + name == name);
        assert(alone.drop_first() == Seq::<Seq<char>>::empty());
        assert(segments_of(base).drop_first() == Seq::<Seq<char>>::empty());
    }
}

/// What a relative path is joined to, the result lies under.
pub proof fn law_join_under(base: Seq<char>, p: Seq<char>)
    requires
        p.len() > 0 ==> p[0] != '/',
    ensures
        is_under(joined(base, p), base),
{
    if base.len() > 0 {
        law_join_appends(base, p);
        let parts = components_of(base);
        assert((parts + named(segments_of(p))).subrange(0, parts.len() as int) == parts);
    } else {
        assert(segments_of(base).drop_first() == Seq::<Seq<char>>::empty());
        assert(components_of(base) == Seq::<Seq<char>>::empty());
    }
}

/// Some start of a path has all its components but the last one.
proof fn lemma_cut(p: Seq<char>) -> (at: int)
    requires
        components_of(p).len() > 0,
    ensures
        0 <= at <= p.len(),
        components_of(p.take(at)) == components_of(p).drop_last(),
    decreases p.len(),
{
    if p.len() == 0 {
        assert(segments_of(p).drop_first() == Seq::<Seq<char>>::empty());
        0
    } else {
        let shorter = p.drop_last();
        let c = p.last();
        let parts = components_of(p);
        let old_parts = components_of(shorter);
        assert(shorter.push(c) == p);
        assert(p.take(p.len() - 1) == shorter);
        lemma_components_push(shorter, c);
        if parts.drop_last() =~= old_parts {
            p.len() - 1
        } else {
            let at = lemma_cut(shorter);
            assert(p.take(at) == shorter.take(at));
            assert(parts.drop_last() == old_parts.drop_last());
            at
        }
    }
}

proof fn lemma_shortest_found(p: Seq<char>, parts: Seq<Seq<char>>, from: int, at: int)
    requires
        0 <= from <= at <= p.len(),
        components_of(p.take(at)) == parts,
    ensures
        from <= shortest_with(p, parts, from) <= at,
        components_of(p.take(shortest_with(p, parts, from))) == parts,
    decreases at - from,
{
    if from < at && components_of(p.take(from)) != parts {
        lemma_shortest_found(p, parts, from + 1, at);
    }
}

/// The parent of a path has all its components but the last one.
pub proof fn law_parent_drops_last(p: Seq<char>)
    requires
        parent_of(p) is Some,
    ensures
        components_of(parent_of(p)->0) == components_of(p).drop_last(),
{
    let at = lemma_cut(p);
    lemma_shortest_found(p, components_of(p).drop_last(), 0, at);
}

/// A path that ends in a name is its parent with that name joined to it.
pub proof fn law_parent_and_name(p: Seq<char>)
    requires
        file_name_of(p) is Some,
    ensures
        parent_of(p) is Some,
        components_of(joined(parent_of(p)->0, file_name_of(p)->0)) == components_of(p),
{
    let parts = components_of(p);
    assert(parts[parts.len() - 1] == parts.last());
    law_parent_drops_last(p);
    lemma_plain_parts(p);
    law_join_name(parent_of(p)->0, parts.last());
    assert(parts.drop_last().push(parts.last()) == parts);
}

/// What a path ends in names a file in a directory.
pub proof fn law_file_name_plain(p: Seq<char>)
    requires
        file_name_of(p) is Some,
    ensures
        is_plain_name(file_name_of(p)->0),
{
    lemma_plain_parts(p);
    let parts = components_of(p);
    assert(parts[parts.len() - 1] == parts.last());
}

/// The components of a path are names, but for a root or a current directory at
/// its start.
proof fn lemma_plain_parts(p: Seq<char>)
    ensures
        forall|i: int|
            0 <= i < components_of(p).len() ==> {
                ||| is_plain_name(#[trigger] components_of(p)[i])
                ||| components_of(p)[i] =~= seq!['/']
                ||| components_of(p)[i] =~= seq!['.']
            },
{
    let segments = segments_of(p);
    lemma_segments_nonempty(p);
    lemma_slashless(p);
    lemma_named_plain(segments.drop_first());
    let head = head_of(segments);
    let rest = named(segments.drop_first());
    assert forall|i: int| 0 <= i < components_of(p).len() implies {
        ||| is_plain_name(#[trigger] components_of(p)[i])
        ||| components_of(p)[i] =~= seq!['/']
        ||| components_of(p)[i] =~= seq!['.']
    } by {
        if i < head.len() {
            assert(components_of(p)[i] == head[i]);
            assert(!segments[0].contains('/'));
        } else {
            assert(components_of(p)[i] == rest[i - head.len()]);
            assert(is_plain_name(rest[i - head.len()]));
        }
    }
}

proof fn lemma_slashless(p: Seq<char>)
    ensures
        forall|i: int| 0 <= i < segments_of(p).len() ==> !(#[trigger] segments_of(p)[i]).contains('/'),
    decreases p.len(),
{
    if p.len() > 0 {
        let before = segments_of(p.drop_last());
        lemma_slashless(p.drop_last());
        lemma_segments_nonempty(p.drop_last());
        assert forall|i: int| 0 <= i < segments_of(p).len() implies !(
        #[trigger] segments_of(p)[i]).contains('/') by {
            if i < before.len() - 1 {
                assert(segments_of(p)[i] == before[i]);
            } else if p.last() == '/' && i == before.len() - 1 {
                assert(segments_of(p)[i] == before[i]);
            } else if p.last() != '/' {
                let open = before[before.len() - 1];
                let wider = segments_of(p)[i];
                assert(wider == open.push(p.last()));
                assert forall|k: int| 0 <= k < wider.len() implies wider[k] != '/' by {
                    if k < open.len() {
                        assert(open.contains(open[k]));
                    }
                }
            }
        }
    }
}

proof fn lemma_named_plain(segments: Seq<Seq<char>>)
    requires
        forall|i: int| 0 <= i < segments.len() ==> !(#[trigger] segments[i]).contains('/'),
    ensures
        forall|i: int| 0 <= i < named(segments).len() ==> is_plain_name(#[trigger] named(segments)[i]),
    decreases segments.len(),
{
    if segments.len() > 0 {
        let rest = segments.drop_last();
        assert forall|i: int| 0 <= i < rest.len() implies !(#[trigger] rest[i]).contains('/') by {
            assert(rest[i] == segments[i]);
        }
        lemma_named_plain(rest);
        assert(!segments[segments.len() - 1].contains('/'));
        assert forall|i: int| 0 <= i < named(segments).len() implies is_plain_name(
            #[trigger] named(segments)[i],
        ) by {
            if i < named(rest).len() {
                assert(named(segments)[i] == named(rest)[i]);
            }
        }
    }
}

} // verus!

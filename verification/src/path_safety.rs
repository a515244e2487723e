//! The path-safety gate: library names, relative paths, and containment
//! under a root.

use crate::text::{
    chars_of, contains_char, join_strings, join_texts, text_of_range, text_view, texts, trim_text,
    trimmed,
};
use vstd::prelude::*;
use vstd::string::StringExecFns;

verus! {

/// Why a library name or a path was refused.
#[derive(Clone, Copy, Debug, PartialEq, Eq, Structural)]
pub enum PathError {
    /// The library name is empty once trimmed.
    EmptyLibraryName,
    /// The library name is `.` or `..`.
    TraversalLibraryName,
    /// The library name holds `/` or `\`.
    NestedLibraryName,
    /// The library name holds `~` or `$`.
    ShellSyntaxInLibraryName,
    /// The path starts with `/`.
    AbsolutePath,
    /// The path holds `~`.
    HomeExpansion,
    /// The path holds `$`.
    VariableExpansion,
    /// The path has a `..` component.
    ParentTraversal,
    /// A path that had to be relative has a root or a `..` component.
    ForbiddenComponent,
    /// The path has no named component.
    EmptyPath,
    /// The resolved path does not lie under the root it must stay in.
    EscapesRoot,
}

/// The pieces of `s` between its `/` characters, empty pieces included.
pub open spec fn segments(s: Seq<char>) -> Seq<Seq<char>>
    decreases s.len(),
{
    if s.len() == 0 {
        seq![Seq::<char>::empty()]
    } else {
        let before = segments(s.drop_last());
        if s.last() == '/' {
            before.push(Seq::<char>::empty())
        } else {
            before.drop_last().push(before.last().push(s.last()))
        }
    }
}

/// A segment that names something: not empty and not `.`.
pub open spec fn is_named_component(segment: Seq<char>) -> bool {
    segment.len() > 0 && segment != seq!['.']
}

/// [`is_named_component`] as a predicate value.
pub open spec fn named_only() -> spec_fn(Seq<char>) -> bool {
    |segment: Seq<char>| is_named_component(segment)
}

/// The named components of a path, in order; `..` counts as one.
pub open spec fn components(s: Seq<char>) -> Seq<Seq<char>> {
    segments(s).filter(named_only())
}

/// Whether the path starts at the root.
pub open spec fn is_absolute(s: Seq<char>) -> bool {
    s.len() > 0 && s[0] == '/'
}

/// Whether one of the path's components is `..`.
pub open spec fn has_parent_component(s: Seq<char>) -> bool {
    exists|i: int| 0 <= i < components(s).len() && #[trigger] components(s)[i] == seq!['.', '.']
}

/// The components joined by single `/` characters.
pub open spec fn join_components(parts: Seq<Seq<char>>) -> Seq<char> {
    join_texts(parts, seq!['/'])
}

/// The canonical posix form of a path: its named components joined by `/`.
pub open spec fn canonical_form(s: Seq<char>) -> Seq<char> {
    join_components(components(s))
}

/// What a path starts with besides its named components: the root of an
/// absolute path, or the `.` that a relative path may begin with.
pub open spec fn leading_item(s: Seq<char>) -> Seq<Seq<char>> {
    if is_absolute(s) {
        seq![seq!['/']]
    } else if first_segment(s) == seq!['.'] {
        seq![seq!['.']]
    } else {
        Seq::<Seq<char>>::empty()
    }
}

/// A path as the list of items that prefix tests compare: the leading item,
/// if any, then the named components.
pub open spec fn path_items(s: Seq<char>) -> Seq<Seq<char>> {
    leading_item(s) + components(s)
}

/// Whether `path` lies at or under `base`, compared component by component.
pub open spec fn path_has_prefix(path: Seq<char>, base: Seq<char>) -> bool {
    path_items(base).is_prefix_of(path_items(path))
}

/// `relative` appended to `root` as a path: nothing is added for an empty
/// `relative`, and a `/` is put between the two unless `root` is empty or
/// already ends with one.
pub open spec fn joined_path(root: Seq<char>, relative: Seq<char>) -> Seq<char> {
    if relative.len() == 0 {
        root
    } else if root.len() == 0 || root.last() == '/' {
        root + relative
    } else {
        root + seq!['/'] + relative
    }
}

/// The rule a raw relative path breaks first, if any.
pub open spec fn relative_path_fault(raw: Seq<char>) -> Option<PathError> {
    if is_absolute(raw) {
        Some(PathError::AbsolutePath)
    } else if raw.contains('~') {
        Some(PathError::HomeExpansion)
    } else if raw.contains('$') {
        Some(PathError::VariableExpansion)
    } else if has_parent_component(raw) {
        Some(PathError::ParentTraversal)
    } else {
        None
    }
}

/// The rule that keeps a path from being stored in posix form, if any.
pub open spec fn posix_form_fault(path: Seq<char>) -> Option<PathError> {
    if is_absolute(path) || has_parent_component(path) {
        Some(PathError::ForbiddenComponent)
    } else if components(path).len() == 0 {
        Some(PathError::EmptyPath)
    } else {
        None
    }
}

/// The rule a trimmed library name breaks first, if any.
pub open spec fn library_name_fault(name: Seq<char>) -> Option<PathError> {
    if name.len() == 0 {
        Some(PathError::EmptyLibraryName)
    } else if name == seq!['.'] || name == seq!['.', '.'] {
        Some(PathError::TraversalLibraryName)
    } else if name.contains('/') || name.contains('\\') {
        Some(PathError::NestedLibraryName)
    } else if name.contains('~') || name.contains('$') {
        Some(PathError::ShellSyntaxInLibraryName)
    } else {
        None
    }
}

/// Every text has at least one segment.
pub proof fn lemma_segments_nonempty(s: Seq<char>)
    ensures
        segments(s).len() >= 1,
    decreases s.len(),
{
    if s.len() > 0 {
        lemma_segments_nonempty(s.drop_last());
    }
}

/// The characters of `s` before its first `/`, or all of it.
pub open spec fn first_segment(s: Seq<char>) -> Seq<char>
    decreases s.len(),
{
    if s.len() == 0 || s[0] == '/' {
        Seq::<char>::empty()
    } else {
        seq![s[0]] + first_segment(s.drop_first())
    }
}

/// A path starts with a `.` component exactly if its first character is `.`
/// and the path ends there or goes on with `/`.
proof fn lemma_first_segment_is_dot(s: Seq<char>)
    ensures
        (first_segment(s) == seq!['.']) == (s.len() > 0 && s[0] == '.' && (s.len() == 1 || s[1]
            == '/')),
{
    let dot = seq!['.'];
    assert(dot.len() == 1 && dot[0] == '.');
    if s.len() > 0 && s[0] != '/' {
        let tail = s.drop_first();
        assert(first_segment(s) == seq![s[0]] + first_segment(tail));
        if tail.len() == 0 || tail[0] == '/' {
            assert(first_segment(tail) =~= Seq::<char>::empty());
            assert(first_segment(s) =~= seq![s[0]]);
            if s[0] == '.' {
                assert(first_segment(s) =~= dot);
            } else {
                assert(first_segment(s)[0] != dot[0]);
            }
        } else {
            assert(first_segment(tail) == seq![tail[0]] + first_segment(tail.drop_first()));
            assert(first_segment(s).len() >= 2);
        }
    } else {
        assert(first_segment(s).len() == 0);
    }
}

proof fn lemma_named_by_shape(segment: Seq<char>)
    ensures
        is_named_component(segment) == (segment.len() > 0 && !(segment.len() == 1 && segment[0]
            == '.')),
{
    let dot = seq!['.'];
    assert(dot.len() == 1 && dot[0] == '.');
    if segment.len() == 1 && segment[0] == '.' {
        assert(segment =~= dot);
    }
}

/// The named components of the characters `chars`, in order.
pub fn components_of(chars: &Vec<char>) -> (parts: Vec<String>)
    ensures
        texts(parts@) == components(chars@),
{
    let mut parts: Vec<String> = Vec::new();
    let mut start: usize = 0;
    let mut i: usize = 0;
    proof {
        reveal(Seq::filter);
        assert(chars@.take(0) =~= Seq::<char>::empty());
        assert(segments(chars@.take(0)).drop_last() =~= Seq::<Seq<char>>::empty());
        assert(texts(parts@) =~= Seq::<Seq<char>>::empty());
        assert(chars@.subrange(0, 0) =~= Seq::<char>::empty());
    }
    while i < chars.len()
        invariant
            start <= i <= chars.len(),
            segments(chars@.take(i as int)).len() >= 1,
            segments(chars@.take(i as int)).last() == chars@.subrange(start as int, i as int),
            texts(parts@) == segments(chars@.take(i as int)).drop_last().filter(named_only()),
        decreases chars.len() - i,
    {
        let ghost before = segments(chars@.take(i as int));
        proof {
            assert(chars@.take(i + 1).drop_last() =~= chars@.take(i as int));
            assert(chars@.take(i + 1).last() == chars@[i as int]);
        }
        if chars[i] == '/' {
            proof {
                reveal(Seq::filter);
                assert(before.push(Seq::<char>::empty()).drop_last() =~= before);
                assert(before.drop_last().push(before.last()) =~= before);
            }
            let named = i - start > 0 && !(i - start == 1 && chars[start] == '.');
            proof {
                lemma_named_by_shape(chars@.subrange(start as int, i as int));
            }
            if named {
                let part = text_of_range(chars, start, i);
                let ghost old_parts = parts@;
                parts.push(part);
                assert(texts(parts@) =~= texts(old_parts).push(part@));
            }
            start = i + 1;
            assert(chars@.subrange(start as int, i + 1) =~= Seq::<char>::empty());
        } else {
            proof {
                assert(before.drop_last().push(before.last().push(chars@[i as int])).drop_last()
                    =~= before.drop_last());
                assert(chars@.subrange(start as int, i + 1) =~= chars@.subrange(
                    start as int,
                    i as int,
                ).push(chars@[i as int]));
            }
        }
        i += 1;
    }
    let ghost all = segments(chars@);
    proof {
        reveal(Seq::filter);
        assert(chars@.take(chars@.len() as int) =~= chars@);
        assert(all.drop_last().push(all.last()) =~= all);
    }
    let named = i - start > 0 && !(i - start == 1 && chars[start] == '.');
    proof {
        lemma_named_by_shape(chars@.subrange(start as int, i as int));
    }
    if named {
        let part = text_of_range(chars, start, i);
        let ghost old_parts = parts@;
        parts.push(part);
        assert(texts(parts@) =~= texts(old_parts).push(part@));
    }
    parts
}

/// How the segments of two texts written one after the other come from the
/// segments of each: the last segment of the first text and the first segment
/// of the second become one.
pub proof fn lemma_segments_concat(a: Seq<char>, b: Seq<char>)
    ensures
        segments(a + b) == segments(a).drop_last().push(segments(a).last() + segments(b)[0])
            + segments(b).skip(1),
    decreases b.len(),
{
    lemma_segments_nonempty(a);
    lemma_segments_nonempty(b);
    let sa = segments(a);
    let sb = segments(b);
    let merged = sa.drop_last().push(sa.last() + sb[0]) + sb.skip(1);
    if b.len() == 0 {
        assert(a + b =~= a);
        assert(sa.last() + sb[0] =~= sa.last());
        assert(merged =~= sa);
    } else {
        let front = b.drop_last();
        let c = b.last();
        lemma_segments_concat(a, front);
        lemma_segments_nonempty(front);
        assert((a + b).drop_last() =~= a + front);
        assert((a + b).last() == c);
        let sf = segments(front);
        let prev = segments(a + front);
        if c == '/' {
            assert(sb =~= sf.push(Seq::<char>::empty()));
            assert(sb.skip(1) =~= sf.skip(1).push(Seq::<char>::empty()));
            assert(segments(a + b) =~= merged);
        } else {
            assert(sb =~= sf.drop_last().push(sf.last().push(c)));
            if sf.len() == 1 {
                assert(sf.skip(1) =~= Seq::<Seq<char>>::empty());
                assert(sb.skip(1) =~= Seq::<Seq<char>>::empty());
                assert(prev =~= sa.drop_last().push(sa.last() + sf[0]));
                assert(prev.drop_last() =~= sa.drop_last());
                assert((sa.last() + sf[0]).push(c) =~= sa.last() + sf[0].push(c));
                assert(sb[0] == sf[0].push(c));
                assert(segments(a + b) =~= merged);
            } else {
                assert(sb[0] == sf[0]);
                assert(sb.skip(1) =~= sf.skip(1).drop_last().push(sf.last().push(c)));
                assert(prev.last() == sf.last());
                assert(prev.drop_last() =~= sa.drop_last().push(sa.last() + sf[0]) + sf.skip(
                    1,
                ).drop_last());
                assert(segments(a + b) =~= merged);
            }
        }
    }
}

/// No segment holds a `/`, and every character of a segment is one of the
/// text.
pub proof fn lemma_segments_are_slices(s: Seq<char>)
    ensures
        forall|i: int, c: char|
            0 <= i < segments(s).len() && #[trigger] segments(s)[i].contains(c) ==> c != '/'
                && s.contains(c),
    decreases s.len(),
{
    lemma_segments_nonempty(s);
    if s.len() > 0 {
        let front = s.drop_last();
        lemma_segments_are_slices(front);
        lemma_segments_nonempty(front);
        let sf = segments(front);
        assert forall|i: int, c: char|
            0 <= i < segments(s).len() && #[trigger] segments(s)[i].contains(c) implies c != '/'
            && s.contains(c) by {
            let k = choose|k: int| 0 <= k < segments(s)[i].len() && segments(s)[i][k] == c;
            if s.last() == '/' {
                assert(i < sf.len());
                assert(sf[i].contains(c));
                let m = choose|m: int| 0 <= m < front.len() && front[m] == c;
                assert(s[m] == c);
            } else if i < sf.len() - 1 {
                assert(sf[i].contains(c));
                let m = choose|m: int| 0 <= m < front.len() && front[m] == c;
                assert(s[m] == c);
            } else if k < sf.last().len() {
                assert(sf[sf.len() - 1][k] == c);
                assert(sf[sf.len() - 1].contains(c));
                let m = choose|m: int| 0 <= m < front.len() && front[m] == c;
                assert(s[m] == c);
            } else {
                assert(c == s.last());
                assert(s[s.len() - 1] == c);
            }
        }
    }
}

/// A text without `/` is its own single segment.
pub proof fn lemma_segments_of_plain(t: Seq<char>)
    requires
        !t.contains('/'),
    ensures
        segments(t) == seq![t],
    decreases t.len(),
{
    if t.len() > 0 {
        let front = t.drop_last();
        assert(t[t.len() - 1] != '/');
        assert forall|i: int| 0 <= i < front.len() implies front[i] != '/' by {
            assert(t[i] == front[i]);
        }
        lemma_segments_of_plain(front);
        let before = seq![front];
        assert(before.drop_last() =~= Seq::<Seq<char>>::empty());
        assert(before.last() == front);
        assert(front.push(t.last()) =~= t);
        assert(Seq::<Seq<char>>::empty().push(t) =~= seq![t]);
    } else {
        assert(t =~= Seq::<char>::empty());
    }
}

/// Components that can be stored: each is named and holds no `/`.
pub open spec fn storable_components(parts: Seq<Seq<char>>) -> bool {
    forall|i: int|
        0 <= i < parts.len() ==> is_named_component(#[trigger] parts[i]) && !parts[i].contains('/')
}

proof fn lemma_filter_keeps_named(parts: Seq<Seq<char>>)
    requires
        storable_components(parts),
    ensures
        parts.filter(named_only()) == parts,
    decreases parts.len(),
{
    reveal(Seq::filter);
    if parts.len() > 0 {
        let front = parts.drop_last();
        assert forall|i: int| 0 <= i < front.len() implies is_named_component(#[trigger] front[i])
            && !front[i].contains('/') by {
            assert(front[i] == parts[i]);
        }
        lemma_filter_keeps_named(front);
        assert(is_named_component(parts[parts.len() - 1]));
        assert(front.push(parts.last()) =~= parts);
    }
}

/// Splitting the joined form of storable components gives them back.
pub proof fn lemma_components_of_join(parts: Seq<Seq<char>>)
    requires
        storable_components(parts),
    ensures
        components(join_components(parts)) == parts,
        parts.len() > 0 ==> segments(join_components(parts)) == parts,
    decreases parts.len(),
{
    reveal(Seq::filter);
    let slash = seq!['/'];
    if parts.len() == 0 {
        let only = seq![Seq::<char>::empty()];
        assert(only.drop_last() =~= Seq::<Seq<char>>::empty());
        assert(only.drop_last().filter(named_only()) =~= Seq::<Seq<char>>::empty());
        assert(!is_named_component(only.last()));
        assert(segments(join_components(parts)) == only);
        assert(components(join_components(parts)) =~= parts);
    } else if parts.len() == 1 {
        lemma_segments_of_plain(parts[0]);
        assert(seq![parts[0]] =~= parts);
        lemma_filter_keeps_named(parts);
    } else {
        let front = parts.drop_last();
        let last = parts.last();
        assert(last == parts[parts.len() - 1]);
        assert forall|i: int| 0 <= i < front.len() implies is_named_component(#[trigger] front[i])
            && !front[i].contains('/') by {
            assert(front[i] == parts[i]);
        }
        lemma_components_of_join(front);
        let joined_front = join_components(front);
        assert(slash.drop_last() =~= Seq::<char>::empty());
        assert(segments(slash.drop_last()) == seq![Seq::<char>::empty()]);
        assert(slash.last() == '/');
        assert(segments(slash) =~= seq![Seq::<char>::empty(), Seq::<char>::empty()]);
        lemma_segments_concat(joined_front, slash);
        assert(front.last() + Seq::<char>::empty() =~= front.last());
        assert(segments(slash).skip(1) =~= seq![Seq::<char>::empty()]);
        assert(segments(joined_front + slash) =~= front.push(Seq::<char>::empty()));
        lemma_segments_of_plain(last);
        lemma_segments_concat(joined_front + slash, last);
        assert(Seq::<char>::empty() + last =~= last);
        assert(seq![last].skip(1) =~= Seq::<Seq<char>>::empty());
        assert(front.push(Seq::<char>::empty()).drop_last() =~= front);
        assert(segments(joined_front + slash + last) =~= front.push(last));
        assert(front.push(last) =~= parts);
        lemma_filter_keeps_named(parts);
    }
}

/// The components of any path are storable.
pub proof fn lemma_components_are_storable(s: Seq<char>)
    ensures
        storable_components(components(s)),
        forall|i: int, c: char|
            0 <= i < components(s).len() && #[trigger] components(s)[i].contains(c) ==> s.contains(
                c,
            ),
{
    lemma_segments_are_slices(s);
    let all = segments(s);
    let kept = components(s);
    assert forall|i: int| 0 <= i < kept.len() implies is_named_component(#[trigger] kept[i])
        && !kept[i].contains('/') by {
        all.lemma_filter_pred(named_only(), i);
        assert(kept.contains(kept[i]));
        all.lemma_filter_contains_rev(named_only(), kept[i]);
        let k = choose|k: int| 0 <= k < all.len() && all[k] == kept[i];
        if kept[i].contains('/') {
            assert(all[k].contains('/'));
        }
    }
    assert forall|i: int, c: char|
        0 <= i < kept.len() && #[trigger] kept[i].contains(c) implies s.contains(c) by {
        assert(kept.contains(kept[i]));
        all.lemma_filter_contains_rev(named_only(), kept[i]);
        let k = choose|k: int| 0 <= k < all.len() && all[k] == kept[i];
        assert(all[k].contains(c));
    }
}

/// Every character of a joined form is a `/` or comes from a component, and
/// the joined form of a non-empty list starts with its first component.
proof fn lemma_join_characters(parts: Seq<Seq<char>>)
    ensures
        forall|c: char| #[trigger]
            join_components(parts).contains(c) ==> c == '/' || exists|i: int|
                0 <= i < parts.len() && #[trigger] parts[i].contains(c),
        parts.len() > 0 ==> parts[0].is_prefix_of(join_components(parts)),
    decreases parts.len(),
{
    let joined = join_components(parts);
    if parts.len() == 0 {
    } else if parts.len() == 1 {
        assert(parts[0] =~= joined.subrange(0, parts[0].len() as int));
        assert forall|c: char| #[trigger] joined.contains(c) implies c == '/' || exists|i: int|
            0 <= i < parts.len() && #[trigger] parts[i].contains(c) by {
            assert(parts[0].contains(c));
        }
    } else {
        let front = parts.drop_last();
        lemma_join_characters(front);
        let jf = join_components(front);
        let slash = seq!['/'];
        assert(front[0] == parts[0]);
        assert(parts[0] =~= joined.subrange(0, parts[0].len() as int)) by {
            assert(parts[0] =~= jf.subrange(0, parts[0].len() as int));
        }
        assert forall|c: char| #[trigger] joined.contains(c) implies c == '/' || exists|i: int|
            0 <= i < parts.len() && #[trigger] parts[i].contains(c) by {
            let k = choose|k: int| 0 <= k < joined.len() && joined[k] == c;
            if k < jf.len() {
                assert(jf[k] == c);
                assert(jf.contains(c));
                if c != '/' {
                    let i = choose|i: int| 0 <= i < front.len() && #[trigger] front[i].contains(c);
                    assert(parts[i].contains(c));
                }
            } else if k == jf.len() {
                assert(c == '/');
            } else {
                assert(parts.last()[k - jf.len() - 1] == c);
                assert(parts[parts.len() - 1].contains(c));
            }
        }
    }
}

/// A relative path that passed validation is stored in a form that reads back
/// as itself: its canonical form has the same components, is its own canonical
/// form, and breaks none of the rules (no root, no `~`, no `$`, no `..`).
pub proof fn lemma_validated_path_is_canonical(raw: Seq<char>)
    requires
        relative_path_fault(raw) is None,
    ensures
        components(canonical_form(raw)) == components(raw),
        canonical_form(canonical_form(raw)) == canonical_form(raw),
        relative_path_fault(canonical_form(raw)) is None,
{
    let parts = components(raw);
    let stored = canonical_form(raw);
    lemma_components_are_storable(raw);
    lemma_components_of_join(parts);
    lemma_join_characters(parts);
    if stored.contains('~') {
        let i = choose|i: int| 0 <= i < parts.len() && #[trigger] parts[i].contains('~');
        assert(raw.contains('~'));
    }
    if stored.contains('$') {
        let i = choose|i: int| 0 <= i < parts.len() && #[trigger] parts[i].contains('$');
        assert(raw.contains('$'));
    }
    if is_absolute(stored) {
        assert(parts.len() > 0);
        assert(is_named_component(parts[0]));
        assert(stored.subrange(0, parts[0].len() as int)[0] == stored[0]);
        assert(parts[0][0] == '/');
        assert(parts[0].contains('/'));
    }
}

/// The first segment of two texts written one after the other: that of the
/// first text if it holds a `/`, else the first text followed by the first
/// segment of the second.
proof fn lemma_first_segment_concat(a: Seq<char>, b: Seq<char>)
    ensures
        a.contains('/') ==> first_segment(a + b) == first_segment(a),
        !a.contains('/') ==> first_segment(a + b) == a + first_segment(b),
    decreases a.len(),
{
    if a.len() == 0 {
        assert(a + b =~= b);
        assert(a + first_segment(b) =~= first_segment(b));
    } else {
        assert((a + b)[0] == a[0]);
        if a[0] == '/' {
            assert(a.contains('/'));
        } else {
            let tail = a.drop_first();
            assert((a + b).drop_first() =~= tail + b);
            lemma_first_segment_concat(tail, b);
            if a.contains('/') {
                let k = choose|k: int| 0 <= k < a.len() && a[k] == '/';
                assert(tail[k - 1] == '/');
            } else {
                assert forall|k: int| 0 <= k < tail.len() implies tail[k] != '/' by {
                    assert(a[k + 1] == tail[k]);
                }
                assert(seq![a[0]] + (tail + first_segment(b)) =~= a + first_segment(b));
            }
        }
    }
}

/// The components of the empty path: none.
proof fn lemma_components_of_empty()
    ensures
        components(Seq::<char>::empty()) == Seq::<Seq<char>>::empty(),
{
    reveal(Seq::filter);
    let only = seq![Seq::<char>::empty()];
    assert(only.drop_last() =~= Seq::<Seq<char>>::empty());
    assert(only.drop_last().filter(named_only()) =~= Seq::<Seq<char>>::empty());
    assert(!is_named_component(only.last()));
}

/// A relative path that passed validation, joined under a root, stays under
/// it: the joined path is made of the root's items followed by the relative
/// path's components, none of which is `..`.
pub proof fn lemma_joined_path_stays_under_root(root: Seq<char>, relative: Seq<char>)
    requires
        relative_path_fault(relative) is None,
    ensures
        path_has_prefix(joined_path(root, relative), root),
        components(joined_path(root, relative)) == components(root) + components(relative),
        !has_parent_component(relative),
{
    lemma_joined_path_extends_root(root, relative);
}

/// A path joined under a root has the root's items first and its own
/// components after them.
pub proof fn lemma_joined_path_extends_root(root: Seq<char>, relative: Seq<char>)
    ensures
        path_has_prefix(joined_path(root, relative), root),
        components(joined_path(root, relative)) == components(root) + components(relative),
{
    reveal(Seq::filter);
    let joined = joined_path(root, relative);
    let slash = seq!['/'];
    let none = Seq::<char>::empty();
    let sr = segments(root);
    let srel = segments(relative);
    lemma_segments_nonempty(root);
    lemma_segments_nonempty(relative);
    lemma_components_of_empty();
    if relative.len() == 0 {
        assert(relative =~= none);
        assert(components(root) + components(relative) =~= components(root));
        assert(path_items(root) =~= path_items(joined).subrange(0, path_items(root).len() as int));
    } else if root.len() == 0 {
        assert(root =~= none);
        assert(joined =~= relative);
        assert(first_segment(root).len() == 0);
        assert(path_items(root) =~= Seq::<Seq<char>>::empty());
        assert(components(root) + components(relative) =~= components(relative));
        assert(path_items(root) =~= path_items(joined).subrange(0, 0));
    } else {
        assert(joined[0] == root[0]);
        if root.last() == '/' {
            assert(root[root.len() - 1] == '/');
            lemma_segments_concat(root, relative);
            assert(sr.last() == none);
            assert(none + srel[0] =~= srel[0]);
            assert(sr.drop_last().push(srel[0]) + srel.skip(1) =~= sr.drop_last() + srel);
            Seq::filter_distributes_over_add(sr.drop_last(), srel, named_only());
            assert(sr.drop_last().push(sr.last()) =~= sr);
            assert(components(joined) == components(root) + components(relative));
            lemma_first_segment_concat(root, relative);
        } else {
            assert(slash.drop_last() =~= none);
            assert(segments(slash.drop_last()) == seq![none]);
            assert(slash.last() == '/');
            assert(segments(slash) =~= seq![none, none]);
            lemma_segments_concat(root, slash);
            assert(sr.last() + none =~= sr.last());
            assert(segments(slash).skip(1) =~= seq![none]);
            assert(sr.drop_last().push(sr.last()) =~= sr);
            assert(segments(root + slash) =~= sr.push(none));
            lemma_segments_concat(root + slash, relative);
            assert(none + srel[0] =~= srel[0]);
            assert(sr.push(none).drop_last() =~= sr);
            assert(sr.push(srel[0]) + srel.skip(1) =~= sr + srel);
            Seq::filter_distributes_over_add(sr, srel, named_only());
            assert(components(joined) == components(root) + components(relative));
            assert(root + slash + relative =~= root + (slash + relative));
            lemma_first_segment_concat(root, slash + relative);
            lemma_first_segment_concat(root, none);
            assert(root + none =~= root);
            assert(first_segment(none).len() == 0);
            assert((slash + relative)[0] == '/');
            assert(first_segment(slash + relative).len() == 0);
            assert(root + first_segment(slash + relative) =~= root);
            assert(root + first_segment(none) =~= root);
        }
        assert(first_segment(joined) == first_segment(root));
        assert(leading_item(joined) == leading_item(root));
        let whole = path_items(root) + components(relative);
        assert(path_items(joined) =~= whole);
        assert(path_items(root) =~= whole.subrange(0, path_items(root).len() as int));
    }
}

/// What lies under a path that lies under a root lies under the root.
pub proof fn lemma_prefix_is_transitive(path: Seq<char>, middle: Seq<char>, root: Seq<char>)
    requires
        path_has_prefix(path, middle),
        path_has_prefix(middle, root),
    ensures
        path_has_prefix(path, root),
{
    let a = path_items(root);
    let b = path_items(middle);
    let c = path_items(path);
    assert(a =~= c.subrange(0, a.len() as int)) by {
        assert(a =~= b.subrange(0, a.len() as int));
        assert(b =~= c.subrange(0, b.len() as int));
    }
}

/// The canonical form of a validated relative path, joined under a root,
/// lies under the root.
pub proof fn lemma_validated_path_stays_under_root(root: Seq<char>, raw: Seq<char>)
    requires
        relative_path_fault(raw) is None,
    ensures
        path_has_prefix(joined_path(root, canonical_form(raw)), root),
        components(joined_path(root, canonical_form(raw))) == components(root) + components(raw),
        !has_parent_component(raw),
{
    lemma_validated_path_is_canonical(raw);
    lemma_joined_path_stays_under_root(root, canonical_form(raw));
}

/// Whether one of the parts is `..`.
fn any_parent_token(parts: &Vec<String>) -> (found: bool)
    ensures
        found == exists|i: int| 0 <= i < parts@.len() && #[trigger] texts(parts@)[i] == seq!['.', '.'],
{
    let mut i: usize = 0;
    while i < parts.len()
        invariant
            i <= parts.len(),
            forall|j: int| 0 <= j < i ==> #[trigger] texts(parts@)[j] != seq!['.', '.'],
        decreases parts.len() - i,
    {
        let part = chars_of(parts[i].as_str());
        if part.len() == 2 && part[0] == '.' && part[1] == '.' {
            assert(part@ =~= seq!['.', '.']);
            assert(texts(parts@)[i as int] == part@);
            return true;
        }
        proof {
            let dots = seq!['.', '.'];
            assert(dots.len() == 2 && dots[0] == '.' && dots[1] == '.');
            assert(texts(parts@)[i as int] == part@);
        }
        i += 1;
    }
    false
}

/// The canonical posix form of the components.
fn join_parts(parts: &Vec<String>) -> (out: String)
    ensures
        out@ == join_components(texts(parts@)),
{
    proof {
        reveal_strlit("/");
        assert("/"@ =~= seq!['/']);
    }
    join_strings(parts, "/")
}

/// Checks a relative path that came from outside and puts it in canonical
/// posix form: it may not start at the root, hold `~` or `$`, or climb with
/// `..`; empty and `.` components are dropped.
pub fn validate_relative_path(raw_path: &str) -> (result: Result<String, PathError>)
    ensures
        match result {
            Ok(path) => relative_path_fault(raw_path@) is None && path@ == canonical_form(
                raw_path@,
            ),
            Err(fault) => relative_path_fault(raw_path@) == Some(fault),
        },
{
    let chars = chars_of(raw_path);
    if chars.len() > 0 && chars[0] == '/' {
        return Err(PathError::AbsolutePath);
    }
    if contains_char(&chars, '~') {
        return Err(PathError::HomeExpansion);
    }
    if contains_char(&chars, '$') {
        return Err(PathError::VariableExpansion);
    }
    let parts = components_of(&chars);
    if any_parent_token(&parts) {
        return Err(PathError::ParentTraversal);
    }
    Ok(join_parts(&parts))
}

/// The canonical posix form of a path that must be relative, free of `..`
/// and not empty.
pub fn to_posix_relative_path(path: &str) -> (result: Result<String, PathError>)
    ensures
        match result {
            Ok(posix) => posix_form_fault(path@) is None && posix@ == canonical_form(path@),
            Err(fault) => posix_form_fault(path@) == Some(fault),
        },
{
    let chars = chars_of(path);
    if chars.len() > 0 && chars[0] == '/' {
        return Err(PathError::ForbiddenComponent);
    }
    let parts = components_of(&chars);
    if any_parent_token(&parts) {
        return Err(PathError::ForbiddenComponent);
    }
    if parts.len() == 0 {
        return Err(PathError::EmptyPath);
    }
    Ok(join_parts(&parts))
}

/// Checks a library name that is already trimmed: it names a direct child of
/// the libraries root and holds no shell expansion syntax.
pub fn check_library_name(name: &str) -> (result: Result<(), PathError>)
    ensures
        match result {
            Ok(_) => library_name_fault(name@) is None,
            Err(fault) => library_name_fault(name@) == Some(fault),
        },
{
    let chars = chars_of(name);
    if chars.len() == 0 {
        return Err(PathError::EmptyLibraryName);
    }
    proof {
        let dot = seq!['.'];
        let dots = seq!['.', '.'];
        assert(dot.len() == 1 && dot[0] == '.');
        assert(dots.len() == 2 && dots[0] == '.' && dots[1] == '.');
        if chars.len() == 1 && chars[0] == '.' {
            assert(chars@ =~= dot);
        }
        if chars.len() == 2 && chars[0] == '.' && chars[1] == '.' {
            assert(chars@ =~= dots);
        }
    }
    if (chars.len() == 1 && chars[0] == '.') || (chars.len() == 2 && chars[0] == '.' && chars[1]
        == '.') {
        return Err(PathError::TraversalLibraryName);
    }
    if contains_char(&chars, '/') || contains_char(&chars, '\\') {
        return Err(PathError::NestedLibraryName);
    }
    if contains_char(&chars, '~') || contains_char(&chars, '$') {
        return Err(PathError::ShellSyntaxInLibraryName);
    }
    Ok(())
}

/// Trims a library name and checks it with [`check_library_name`].
pub fn normalize_library_name(raw_name: &str) -> (result: Result<String, PathError>)
    ensures
        match result {
            Ok(name) => library_name_fault(trimmed(raw_name@)) is None && name@ == trimmed(
                raw_name@,
            ),
            Err(fault) => library_name_fault(trimmed(raw_name@)) == Some(fault),
        },
{
    let name = trim_text(raw_name);
    match check_library_name(name) {
        Ok(_) => Ok(String::from_str(name)),
        Err(fault) => Err(fault),
    }
}

/// The items of a path that prefix tests compare.
pub fn path_items_of(path: &str) -> (items: Vec<String>)
    ensures
        texts(items@) == path_items(path@),
{
    let chars = chars_of(path);
    let mut items: Vec<String> = Vec::new();
    proof {
        assert(texts(items@) =~= Seq::<Seq<char>>::empty());
    }
    if chars.len() > 0 && chars[0] == '/' {
        let root = text_of_range(&chars, 0, 1);
        proof {
            assert(root@ =~= seq!['/']);
        }
        items.push(root);
    } else if chars.len() > 0 && chars[0] == '.' && (chars.len() == 1 || chars[1] == '/') {
        let dot = text_of_range(&chars, 0, 1);
        proof {
            assert(dot@ =~= seq!['.']);
            lemma_first_segment_is_dot(chars@);
        }
        items.push(dot);
    } else {
        proof {
            lemma_first_segment_is_dot(chars@);
        }
    }
    let ghost lead = items@;
    assert(texts(lead) =~= leading_item(path@));
    let mut parts = components_of(&chars);
    let ghost named = parts@;
    items.append(&mut parts);
    assert(texts(items@) =~= texts(lead) + texts(named));
    items
}

/// Whether `path` lies at or under `base`, compared component by component.
pub fn path_starts_with(path: &str, base: &str) -> (under: bool)
    ensures
        under == path_has_prefix(path@, base@),
{
    let items = path_items_of(path);
    let prefix = path_items_of(base);
    if prefix.len() > items.len() {
        return false;
    }
    let mut i: usize = 0;
    while i < prefix.len()
        invariant
            i <= prefix.len() <= items.len(),
            texts(items@) == path_items(path@),
            texts(prefix@) == path_items(base@),
            forall|j: int| 0 <= j < i ==> #[trigger] texts(prefix@)[j] == texts(items@)[j],
        decreases prefix.len() - i,
    {
        if prefix[i] != items[i] {
            assert(texts(prefix@)[i as int] != texts(items@)[i as int]);
            assert(texts(items@).subrange(0, prefix@.len() as int)[i as int] == texts(
                items@,
            )[i as int]);
            return false;
        }
        assert(texts(prefix@)[i as int] == texts(items@)[i as int]);
        i += 1;
    }
    assert(texts(prefix@) =~= texts(items@).subrange(0, prefix@.len() as int));
    true
}

/// Accepts a library root that has been resolved on disk only if it lies at or
/// under the resolved libraries root.
pub fn resolve_root_under_libraries(libraries_root_real: &str, root_real: &str) -> (result: Result<
    String,
    PathError,
>)
    ensures
        match result {
            Ok(root) => path_has_prefix(root_real@, libraries_root_real@) && root@ == root_real@,
            Err(fault) => !path_has_prefix(root_real@, libraries_root_real@) && fault
                == PathError::EscapesRoot,
        },
{
    if path_starts_with(root_real, libraries_root_real) {
        Ok(String::from_str(root_real))
    } else {
        Err(PathError::EscapesRoot)
    }
}

/// `relative` appended to `root` as a path.
pub fn join_under(root: &str, relative: &str) -> (path: String)
    ensures
        path@ == joined_path(root@, relative@),
{
    let mut path = String::from_str(root);
    let tail = chars_of(relative);
    if tail.len() == 0 {
        return path;
    }
    let head = chars_of(root);
    if head.len() > 0 && head[head.len() - 1] != '/' {
        proof {
            reveal_strlit("/");
            assert("/"@ =~= seq!['/']);
        }
        path.append("/");
    }
    path.append(relative);
    path
}

/// What a path error says.
pub open spec fn path_error_text(fault: PathError) -> Seq<char> {
    match fault {
        PathError::EmptyLibraryName => "library name cannot be empty"@,
        PathError::TraversalLibraryName => "library name cannot be traversal token"@,
        PathError::NestedLibraryName => "library name must be direct child of /libraries"@,
        PathError::ShellSyntaxInLibraryName => "library name cannot contain shell expansion syntax"@,
        PathError::AbsolutePath => "path must be relative"@,
        PathError::HomeExpansion => "home expansion is not allowed"@,
        PathError::VariableExpansion => "environment variable expansion is not allowed"@,
        PathError::ParentTraversal => "path traversal is not allowed"@,
        PathError::ForbiddenComponent => "relative path contains forbidden component"@,
        PathError::EmptyPath => "empty relative path is not allowed"@,
        PathError::EscapesRoot => "path escapes /libraries"@,
    }
}

impl PathError {
    /// What the error says.
    pub fn message(&self) -> (text: &'static str)
        ensures
            text@ == path_error_text(*self),
    {
        match self {
            PathError::EmptyLibraryName => "library name cannot be empty",
            PathError::TraversalLibraryName => "library name cannot be traversal token",
            PathError::NestedLibraryName => "library name must be direct child of /libraries",
            PathError::ShellSyntaxInLibraryName => "library name cannot contain shell expansion syntax",
            PathError::AbsolutePath => "path must be relative",
            PathError::HomeExpansion => "home expansion is not allowed",
            PathError::VariableExpansion => "environment variable expansion is not allowed",
            PathError::ParentTraversal => "path traversal is not allowed",
            PathError::ForbiddenComponent => "relative path contains forbidden component",
            PathError::EmptyPath => "empty relative path is not allowed",
            PathError::EscapesRoot => "path escapes /libraries",
        }
    }
}

/// The path that a list of items stands for: the root, if the list starts
/// with it, then the other items joined by `/`.
pub open spec fn path_of_items(items: Seq<Seq<char>>) -> Seq<char> {
    if items.len() > 0 && items[0] == seq!['/'] {
        seq!['/'] + join_components(items.skip(1))
    } else {
        join_components(items)
    }
}

/// The directory that holds the last component of a path; none for a path
/// without components.
pub open spec fn parent_of(path: Seq<char>) -> Option<Seq<char>> {
    if components(path).len() == 0 {
        None
    } else {
        Some(path_of_items(path_items(path).drop_last()))
    }
}

/// The last component of a path, where it names something: none for a path
/// without components or one that ends in `..`.
pub open spec fn file_name_of(path: Seq<char>) -> Option<Seq<char>> {
    if components(path).len() == 0 || components(path).last() == seq!['.', '.'] {
        None
    } else {
        Some(components(path).last())
    }
}

/// Splits a path into the directory that holds its last component and that
/// component.
pub fn split_last(path: &str) -> (parts: (Option<String>, Option<String>))
    ensures
        text_view(parts.0) == parent_of(path@),
        text_view(parts.1) == file_name_of(path@),
{
    let chars = chars_of(path);
    let named = components_of(&chars);
    if named.len() == 0 {
        return (None, None);
    }
    let mut items = path_items_of(path);
    proof {
        assert(texts(items@) == leading_item(path@) + components(path@));
        assert(texts(items@).len() >= 1);
        assert(texts(items@).last() == components(path@).last());
    }
    let ghost all = texts(items@);
    let last = match items.pop() {
        Some(last) => last,
        None => {
            return (None, None);
        },
    };
    assert(texts(items@) =~= all.drop_last());
    let rooted = items.len() > 0 && is_root_item(items[0].as_str());
    let parent = if rooted {
        let root = items.remove(0);
        let ghost rest = items@;
        assert(texts(rest) =~= all.drop_last().skip(1));
        let mut parent = String::from_str("/");
        proof {
            reveal_strlit("/");
            assert("/"@ =~= seq!['/']);
        }
        let joined = join_parts(&items);
        parent.append(joined.as_str());
        parent
    } else {
        join_parts(&items)
    };
    let last_chars = chars_of(last.as_str());
    let is_parent_token = last_chars.len() == 2 && last_chars[0] == '.' && last_chars[1] == '.';
    proof {
        let dots = seq!['.', '.'];
        assert(dots.len() == 2 && dots[0] == '.' && dots[1] == '.');
        if is_parent_token {
            assert(last@ =~= dots);
        }
    }
    if is_parent_token {
        (Some(parent), None)
    } else {
        (Some(parent), Some(last))
    }
}

/// Whether an item is the root.
fn is_root_item(item: &str) -> (root: bool)
    ensures
        root == (item@ == seq!['/']),
{
    let chars = chars_of(item);
    proof {
        let slash = seq!['/'];
        assert(slash.len() == 1 && slash[0] == '/');
        if chars.len() == 1 && chars[0] == '/' {
            assert(chars@ =~= slash);
        }
    }
    chars.len() == 1 && chars[0] == '/'
}

} // verus!

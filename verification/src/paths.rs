//! Unix paths held as text: joining, components, prefixes and lexical normalization.
//!
//! A path is a `String` whose separator is `/`. Its components are the pieces
//! between separators, leaving out empty pieces and every `.` (a leading `./` too,
//! which `std::path` would keep); whether it starts at the root is told by a leading
//! `/`.
use vstd::prelude::*;

use crate::seqs::{join_with, lemma_split_shape, lemma_split_join, pieces_avoid, split_on, split_str, join_strs};

verus! {

/// A path starts at the filesystem root when its first character is `/`.
pub open spec fn is_absolute(p: Seq<char>) -> bool {
    p.len() > 0 && p[0] == '/'
}

/// `base` joined with `rel` as `Path::join` does on Unix: an absolute `rel`
/// replaces `base`; otherwise a separator is put between them unless `base` is
/// empty or already ends with one.
pub open spec fn join_path(base: Seq<char>, rel: Seq<char>) -> Seq<char> {
    if is_absolute(rel) {
        rel
    } else if base.len() == 0 {
        rel
    } else if base.last() == '/' {
        base + rel
    } else {
        base + seq!['/'] + rel
    }
}

/// A piece that names something: neither empty nor the current directory `.`.
pub open spec fn is_named(piece: Seq<char>) -> bool {
    piece.len() > 0 && piece != seq!['.']
}

/// The pieces of `pieces` that name something, in order.
pub open spec fn keep_named(pieces: Seq<Seq<char>>) -> Seq<Seq<char>>
    decreases pieces.len(),
{
    if pieces.len() == 0 {
        Seq::<Seq<char>>::empty()
    } else if is_named(pieces.last()) {
        keep_named(pieces.drop_last()).push(pieces.last())
    } else {
        keep_named(pieces.drop_last())
    }
}

/// The components of a path.
pub open spec fn components(p: Seq<char>) -> Seq<Seq<char>> {
    keep_named(split_on(p, '/'))
}

/// Each piece names something and holds no separator: the shape of a component.
pub open spec fn all_components(parts: Seq<Seq<char>>) -> bool {
    &&& forall|i: int| 0 <= i < parts.len() ==> is_named(#[trigger] parts[i])
    &&& pieces_avoid(parts, '/')
}

/// The relative path whose components are `parts`.
pub open spec fn render(parts: Seq<Seq<char>>) -> Seq<char> {
    join_with(parts, seq!['/'])
}

/// `path` with the leading components of `prefix` taken off, as `Path::strip_prefix`
/// does: `None` unless both start at the root or neither does, and the components of
/// `prefix` are the first components of `path`. The rest is written out with one `/`
/// between components. Unlike `Path`, which keeps a leading `./` of a relative path as
/// a component of its own, every `.` is left out here, so `./a` and `a` have the same
/// components.
pub open spec fn strip_prefix(path: Seq<char>, prefix: Seq<char>) -> Option<Seq<char>> {
    let pc = components(path);
    let qc = components(prefix);
    if is_absolute(path) == is_absolute(prefix) && qc.len() <= pc.len() && pc.take(qc.len() as int)
        == qc {
        Some(render(pc.skip(qc.len() as int)))
    } else {
        None
    }
}

/// Components with each `..` taking away the component before it; `None` when a
/// `..` has nothing left to take away.
pub open spec fn resolve_parents(parts: Seq<Seq<char>>) -> Option<Seq<Seq<char>>>
    decreases parts.len(),
{
    if parts.len() == 0 {
        Some(Seq::<Seq<char>>::empty())
    } else {
        match resolve_parents(parts.drop_last()) {
            None => None,
            Some(stack) => if parts.last() == seq!['.', '.'] {
                if stack.len() == 0 {
                    None
                } else {
                    Some(stack.drop_last())
                }
            } else {
                Some(stack.push(parts.last()))
            },
        }
    }
}

/// Whether `path`, taken relative to the directory `root`, stays inside it once `..`
/// components are resolved; `None` when resolving climbs above the start (above `/`
/// for an absolute root).
pub open spec fn spec_under_root(path: Seq<char>, root: Seq<char>) -> Option<bool> {
    match resolve_parents(components(join_path(root, path))) {
        None => None,
        Some(resolved) => Some(
            components(root).len() <= resolved.len() && resolved.take(components(root).len() as int)
                == components(root),
        ),
    }
}

/// A path could not be resolved: it climbs above the filesystem root.
#[derive(Debug, PartialEq, Eq)]
pub struct NormalizationError {
    pub path: String,
}

impl NormalizationError {
    /// The sentence that says what went wrong.
    pub fn describe(&self) -> (text: String)
        ensures
            text@ == "Path "@ + self.path@ + " climbs above the filesystem root."@,
    {
        let mut text = "Path ".to_owned();
        text.append(self.path.as_str());
        text.append(" climbs above the filesystem root.");
        text
    }
}

/// A path does not start with the prefix that was to be taken off.
#[derive(Debug, PartialEq, Eq)]
pub struct PathNotPrefixed {
    pub path: String,
    pub prefix: String,
}

/// Joins `rel` onto `base`.
pub fn join(base: &str, rel: &str) -> (joined: String)
    ensures
        joined@ == join_path(base@, rel@),
{
    let base_len = base.unicode_len();
    let rel_len = rel.unicode_len();
    if rel_len > 0 && rel.get_char(0) == '/' {
        return rel.to_owned();
    }
    if base_len == 0 {
        return rel.to_owned();
    }
    let mut joined = base.to_owned();
    if base.get_char(base_len - 1) != '/' {
        let sep = "/";
        proof {
            reveal_strlit("/");
        }
        assert(sep@ =~= seq!['/']);
        joined.append(sep);
    }
    joined.append(rel);
    joined
}

fn is_dot(piece: &String) -> (r: bool)
    ensures
        r == (piece@ == seq!['.']),
{
    let n = piece.as_str().unicode_len();
    if n == 1 && piece.as_str().get_char(0) == '.' {
        assert(piece@ =~= seq!['.']);
        true
    } else {
        false
    }
}

fn is_dot_dot(piece: &String) -> (r: bool)
    ensures
        r == (piece@ == seq!['.', '.']),
{
    let n = piece.as_str().unicode_len();
    if n == 2 && piece.as_str().get_char(0) == '.' && piece.as_str().get_char(1) == '.' {
        assert(piece@ =~= seq!['.', '.']);
        true
    } else {
        false
    }
}

/// The components of `p`.
pub fn path_components(p: &str) -> (parts: Vec<String>)
    ensures
        parts.deep_view() == components(p@),
{
    let pieces = split_str(p, '/');
    let n = pieces.len();
    let mut parts: Vec<String> = Vec::new();
    let mut i: usize = 0;
    while i < n
        invariant
            n == pieces.len(),
            i <= n,
            parts.deep_view() == keep_named(pieces.deep_view().take(i as int)),
        decreases n - i,
    {
        let ghost before = parts.deep_view();
        let ghost next = pieces.deep_view().take(i as int + 1);
        assert(next.drop_last() =~= pieces.deep_view().take(i as int));
        assert(next.last() == pieces[i as int]@);
        let piece = &pieces[i];
        if piece.as_str().unicode_len() > 0 && !is_dot(piece) {
            parts.push(piece.clone());
            assert(parts.deep_view() =~= before.push(pieces[i as int]@));
        }
        i = i + 1;
    }
    assert(pieces.deep_view().take(n as int) =~= pieces.deep_view());
    parts
}

/// Whether `parts` begins with `prefix`.
fn starts_with_parts(parts: &Vec<String>, prefix: &Vec<String>) -> (r: bool)
    ensures
        r == (prefix.deep_view().len() <= parts.deep_view().len() && parts.deep_view().take(
            prefix.deep_view().len() as int,
        ) == prefix.deep_view()),
{
    let n = prefix.len();
    if n > parts.len() {
        return false;
    }
    let mut i: usize = 0;
    while i < n
        invariant
            n == prefix.len(),
            n <= parts.len(),
            i <= n,
            forall|j: int| 0 <= j < i ==> parts.deep_view()[j] == prefix.deep_view()[j],
        decreases n - i,
    {
        if parts[i] != prefix[i] {
            assert(parts.deep_view().take(n as int)[i as int] != prefix.deep_view()[i as int]);
            return false;
        }
        i = i + 1;
    }
    assert(parts.deep_view().take(n as int) =~= prefix.deep_view());
    true
}

/// Takes the leading components of `prefix` off `path`.
pub fn strip_path_prefix(path: &str, prefix: &str) -> (stripped: Result<String, PathNotPrefixed>)
    ensures
        match stripped {
            Ok(rest) => strip_prefix(path@, prefix@) == Some(rest@),
            Err(e) => strip_prefix(path@, prefix@) is None && e.path@ == path@ && e.prefix@
                == prefix@,
        },
{
    let path_abs = path.unicode_len() > 0 && path.get_char(0) == '/';
    let prefix_abs = prefix.unicode_len() > 0 && prefix.get_char(0) == '/';
    let pc = path_components(path);
    let qc = path_components(prefix);
    if path_abs != prefix_abs || !starts_with_parts(&pc, &qc) {
        return Err(PathNotPrefixed { path: path.to_owned(), prefix: prefix.to_owned() });
    }
    let n = pc.len();
    let k = qc.len();
    let mut rest: Vec<String> = Vec::new();
    let mut i: usize = k;
    while i < n
        invariant
            n == pc.len(),
            k <= i <= n,
            rest.deep_view() == pc.deep_view().skip(k as int).take(i - k),
        decreases n - i,
    {
        let ghost before = rest.deep_view();
        rest.push(pc[i].clone());
        assert(rest.deep_view() =~= before.push(pc.deep_view()[i as int]));
        assert(rest.deep_view() =~= pc.deep_view().skip(k as int).take(i - k + 1));
        i = i + 1;
    }
    assert(pc.deep_view().skip(k as int).take(n - k) =~= pc.deep_view().skip(k as int));
    let sep = "/";
    proof {
        reveal_strlit("/");
    }
    assert(sep@ =~= seq!['/']);
    Ok(join_strs(&rest, sep))
}

/// Whether `path`, taken relative to the directory `root`, stays inside it.
pub fn under_root(path: &str, root: &str) -> (inside: Result<bool, NormalizationError>)
    ensures
        match inside {
            Ok(b) => spec_under_root(path@, root@) == Some(b),
            Err(e) => spec_under_root(path@, root@) is None && e.path@ == path@,
        },
{
    let full = join(root, path);
    let parts = path_components(full.as_str());
    let n = parts.len();
    let mut stack: Vec<String> = Vec::new();
    let mut i: usize = 0;
    while i < n
        invariant
            n == parts.len(),
            i <= n,
            resolve_parents(parts.deep_view().take(i as int)) == Some(stack.deep_view()),
            parts.deep_view() == components(join_path(root@, path@)),
        decreases n - i,
    {
        let ghost before = stack.deep_view();
        let ghost next = parts.deep_view().take(i as int + 1);
        assert(next.drop_last() =~= parts.deep_view().take(i as int));
        assert(next.last() == parts[i as int]@);
        if is_dot_dot(&parts[i]) {
            if stack.len() == 0 {
                proof {
                    lemma_resolve_fails_onward(parts.deep_view(), i as int + 1);
                }
                assert(parts.deep_view().take(n as int) =~= parts.deep_view());
                assert(resolve_parents(parts.deep_view()) is None);
                assert(resolve_parents(components(join_path(root@, path@))) is None);
                return Err(NormalizationError { path: path.to_owned() });
            }
            let _ = stack.pop();
            assert(stack.deep_view() =~= before.drop_last());
        } else {
            stack.push(parts[i].clone());
            assert(stack.deep_view() =~= before.push(parts[i as int]@));
        }
        i = i + 1;
    }
    assert(parts.deep_view().take(n as int) =~= parts.deep_view());
    let root_parts = path_components(root);
    Ok(starts_with_parts(&stack, &root_parts))
}

/// Once resolving fails on a prefix, it fails on every longer prefix.
proof fn lemma_resolve_fails_onward(parts: Seq<Seq<char>>, k: int)
    requires
        0 <= k <= parts.len(),
        resolve_parents(parts.take(k)) is None,
    ensures
        resolve_parents(parts) is None,
    decreases parts.len() - k,
{
    if k < parts.len() {
        let next = parts.take(k + 1);
        assert(next.drop_last() =~= parts.take(k));
        lemma_resolve_fails_onward(parts, k + 1);
    } else {
        assert(parts.take(k) =~= parts);
    }
}


/// Splitting text with a separator in the middle splits each side on its own.
proof fn lemma_split_around(a: Seq<char>, b: Seq<char>, sep: char)
    ensures
        split_on(a + seq![sep] + b, sep) == split_on(a, sep) + split_on(b, sep),
    decreases b.len(),
{
    lemma_split_shape(a, sep);
    if b.len() == 0 {
        assert(a + seq![sep] + b =~= a.push(sep));
        assert((a + seq![sep] + b).drop_last() =~= a);
        assert(split_on(a, sep) + split_on(b, sep) =~= split_on(a, sep).push(Seq::<char>::empty()));
    } else {
        let b0 = b.drop_last();
        lemma_split_around(a, b0, sep);
        lemma_split_shape(b0, sep);
        let whole = a + seq![sep] + b;
        assert(whole.drop_last() =~= a + seq![sep] + b0);
        assert(whole.last() == b.last());
        let left = split_on(a, sep);
        let right0 = split_on(b0, sep);
        if b.last() == sep {
            assert((left + right0).push(Seq::<char>::empty()) =~= left + right0.push(
                Seq::<char>::empty(),
            ));
        } else {
            let both = left + right0;
            assert(both.last() == right0.last());
            assert(both.update(both.len() - 1, both.last().push(b.last())) =~= left + right0.update(
                right0.len() - 1,
                right0.last().push(b.last()),
            ));
        }
    }
}

/// Keeping the named pieces of two runs of pieces keeps those of each.
proof fn lemma_keep_concat(x: Seq<Seq<char>>, y: Seq<Seq<char>>)
    ensures
        keep_named(x + y) == keep_named(x) + keep_named(y),
    decreases y.len(),
{
    if y.len() == 0 {
        assert(x + y =~= x);
        assert(keep_named(x) + keep_named(y) =~= keep_named(x));
    } else {
        lemma_keep_concat(x, y.drop_last());
        assert((x + y).drop_last() =~= x + y.drop_last());
        assert((x + y).last() == y.last());
        if is_named(y.last()) {
            assert((keep_named(x) + keep_named(y.drop_last())).push(y.last()) =~= keep_named(x)
                + keep_named(y.drop_last()).push(y.last()));
        }
    }
}

/// The components of a path have the shape of components.
pub proof fn lemma_components_shape(p: Seq<char>)
    ensures
        all_components(components(p)),
{
    lemma_split_shape(p, '/');
    lemma_keep_shape(split_on(p, '/'));
}

proof fn lemma_keep_shape(pieces: Seq<Seq<char>>)
    requires
        pieces_avoid(pieces, '/'),
    ensures
        all_components(keep_named(pieces)),
    decreases pieces.len(),
{
    if pieces.len() > 0 {
        let init = pieces.drop_last();
        assert forall|i: int, j: int| 0 <= i < init.len() && 0 <= j < init[i].len() implies init[i][j]
            != '/' by {
            assert(init[i] == pieces[i]);
        }
        lemma_keep_shape(init);
        let kept = keep_named(pieces);
        if is_named(pieces.last()) {
            let k0 = keep_named(init);
            assert forall|i: int| 0 <= i < kept.len() implies is_named(#[trigger] kept[i]) by {
                if i < k0.len() {
                    assert(kept[i] == k0[i]);
                }
            }
            assert forall|i: int, j: int| 0 <= i < kept.len() && 0 <= j < kept[i].len() implies kept[i][j]
                != '/' by {
                if i < k0.len() {
                    assert(kept[i] == k0[i]);
                } else {
                    assert(kept[i] == pieces[pieces.len() - 1]);
                }
            }
        }
    }
}

/// Keeping the named pieces of pieces that all name something changes nothing.
proof fn lemma_keep_all_named(parts: Seq<Seq<char>>)
    requires
        forall|i: int| 0 <= i < parts.len() ==> is_named(#[trigger] parts[i]),
    ensures
        keep_named(parts) == parts,
    decreases parts.len(),
{
    if parts.len() > 0 {
        let init = parts.drop_last();
        assert forall|i: int| 0 <= i < init.len() implies is_named(#[trigger] init[i]) by {
            assert(init[i] == parts[i]);
        }
        lemma_keep_all_named(init);
        assert(is_named(parts[parts.len() - 1]));
        assert(init.push(parts.last()) =~= parts);
    }
}

/// The empty path has no components.
proof fn lemma_components_empty()
    ensures
        components(Seq::<char>::empty()) == Seq::<Seq<char>>::empty(),
{
    let one = seq![Seq::<char>::empty()];
    assert(split_on(Seq::<char>::empty(), '/') == one);
    assert(one.last() == Seq::<char>::empty());
    assert(!is_named(one.last()));
    assert(one.drop_last() =~= Seq::<Seq<char>>::empty());
    assert(keep_named(one) == keep_named(one.drop_last()));
}

/// Writing components out as a relative path and reading them back gives them back.
pub proof fn lemma_components_render(parts: Seq<Seq<char>>)
    requires
        all_components(parts),
    ensures
        components(render(parts)) == parts,
        !is_absolute(render(parts)),
{
    if parts.len() == 0 {
        lemma_components_empty();
        assert(render(parts) == Seq::<char>::empty());
    } else {
        lemma_split_join(parts, '/');
        lemma_keep_all_named(parts);
        lemma_render_first(parts);
    }
}

proof fn lemma_render_first(parts: Seq<Seq<char>>)
    requires
        parts.len() >= 1,
        all_components(parts),
    ensures
        render(parts).len() >= parts[0].len(),
        render(parts).subrange(0, parts[0].len() as int) == parts[0],
        !is_absolute(render(parts)),
    decreases parts.len(),
{
    assert(is_named(parts[0]));
    if parts.len() > 1 {
        let init = parts.drop_last();
        assert forall|i: int| 0 <= i < init.len() implies is_named(#[trigger] init[i]) by {
            assert(init[i] == parts[i]);
        }
        assert forall|i: int, j: int| 0 <= i < init.len() && 0 <= j < init[i].len() implies init[i][j]
            != '/' by {
            assert(init[i] == parts[i]);
        }
        lemma_render_first(init);
        let r = render(parts);
        assert(r == render(init) + seq!['/'] + parts.last());
        assert(r.subrange(0, parts[0].len() as int) =~= render(init).subrange(
            0,
            parts[0].len() as int,
        ));
    } else {
        assert(render(parts) == parts[0]);
        assert(parts[0].subrange(0, parts[0].len() as int) =~= parts[0]);
    }
    let r = render(parts);
    assert(r[0] == parts[0][0]) by {
        assert(r.subrange(0, parts[0].len() as int)[0] == r[0]);
    }
    assert(parts[0][0] != '/');
}

/// Joining a relative path onto a base puts its components after the base's.
pub proof fn lemma_components_join(base: Seq<char>, rel: Seq<char>)
    requires
        !is_absolute(rel),
    ensures
        components(join_path(base, rel)) == components(base) + components(rel),
        is_absolute(join_path(base, rel)) == is_absolute(base),
{
    if base.len() == 0 {
        lemma_components_empty();
        assert(base =~= Seq::<char>::empty());
        assert(components(base) + components(rel) =~= components(rel));
    } else if base.last() == '/' {
        let b0 = base.drop_last();
        assert(base + rel =~= b0 + seq!['/'] + rel);
        lemma_split_around(b0, rel, '/');
        lemma_keep_concat(split_on(b0, '/'), split_on(rel, '/'));
        assert(base.drop_last() =~= b0);
        lemma_split_shape(b0, '/');
        assert(split_on(base, '/') == split_on(b0, '/').push(Seq::<char>::empty()));
        assert(split_on(b0, '/').push(Seq::<char>::empty()).drop_last() =~= split_on(b0, '/'));
        assert((base + rel)[0] == base[0]);
    } else {
        lemma_split_around(base, rel, '/');
        lemma_keep_concat(split_on(base, '/'), split_on(rel, '/'));
        assert((base + seq!['/'] + rel)[0] == base[0]);
    }
}

/// Taking a base off a relative path joined onto it gives back the path's components.
pub proof fn lemma_strip_join(base: Seq<char>, rel: Seq<char>)
    requires
        !is_absolute(rel),
    ensures
        strip_prefix(join_path(base, rel), base) == Some(render(components(rel))),
        components(render(components(rel))) == components(rel),
{
    lemma_components_join(base, rel);
    let pc = components(join_path(base, rel));
    let qc = components(base);
    assert(pc.take(qc.len() as int) =~= qc);
    assert(pc.skip(qc.len() as int) =~= components(rel));
    lemma_components_shape(rel);
    lemma_components_render(components(rel));
}


/// No component of `parts` is the parent directory `..`.
pub open spec fn no_parent_steps(parts: Seq<Seq<char>>) -> bool {
    forall|i: int| 0 <= i < parts.len() ==> #[trigger] parts[i] != seq!['.', '.']
}

/// Components without `..` resolve to themselves.
proof fn lemma_resolve_plain(parts: Seq<Seq<char>>)
    requires
        no_parent_steps(parts),
    ensures
        resolve_parents(parts) == Some(parts),
    decreases parts.len(),
{
    if parts.len() > 0 {
        let init = parts.drop_last();
        assert forall|i: int| 0 <= i < init.len() implies #[trigger] init[i] != seq!['.', '.'] by {
            assert(init[i] == parts[i]);
        }
        lemma_resolve_plain(init);
        assert(parts.last() != seq!['.', '.']) by {
            assert(parts[parts.len() - 1] != seq!['.', '.']);
        }
        assert(init.push(parts.last()) =~= parts);
    }
}

/// A relative path without `..` stays under any absolute root without `..`.
pub proof fn lemma_plain_path_under_root(path: Seq<char>, root: Seq<char>)
    requires
        is_absolute(root),
        !is_absolute(path),
        no_parent_steps(components(root)),
        no_parent_steps(components(path)),
    ensures
        spec_under_root(path, root) == Some(true),
{
    lemma_components_join(root, path);
    let a = components(root);
    let b = components(path);
    assert forall|i: int| 0 <= i < (a + b).len() implies #[trigger] (a + b)[i] != seq!['.', '.'] by {
        if i < a.len() {
            assert((a + b)[i] == a[i]);
        } else {
            assert((a + b)[i] == b[i - a.len()]);
        }
    }
    lemma_resolve_plain(a + b);
    assert((a + b).take(a.len() as int) =~= a);
}


/// An absolute path made by joining a relative path without `..` onto an absolute
/// root without `..` stays under that root.
pub proof fn lemma_joined_path_under_root(root: Seq<char>, rel: Seq<char>)
    requires
        is_absolute(root),
        !is_absolute(rel),
        no_parent_steps(components(root)),
        no_parent_steps(components(rel)),
    ensures
        is_absolute(join_path(root, rel)),
        spec_under_root(join_path(root, rel), root) == Some(true),
{
    lemma_components_join(root, rel);
    let full = join_path(root, rel);
    assert(join_path(root, full) == full);
    let a = components(root);
    let b = components(rel);
    assert forall|i: int| 0 <= i < (a + b).len() implies #[trigger] (a + b)[i] != seq!['.', '.'] by {
        if i < a.len() {
            assert((a + b)[i] == a[i]);
        } else {
            assert((a + b)[i] == b[i - a.len()]);
        }
    }
    lemma_resolve_plain(a + b);
    assert((a + b).take(a.len() as int) =~= a);
}

} // verus!

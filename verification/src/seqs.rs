//! Splitting and joining character sequences on a separator.
use vstd::prelude::*;

verus! {

/// The pieces of `s` between occurrences of `sep`, as `str::split` yields them:
/// there is always at least one piece, and an empty input gives one empty piece.
pub open spec fn split_on(s: Seq<char>, sep: char) -> Seq<Seq<char>>
    decreases s.len(),
{
    if s.len() == 0 {
        seq![Seq::<char>::empty()]
    } else {
        let init = split_on(s.drop_last(), sep);
        if s.last() == sep {
            init.push(Seq::<char>::empty())
        } else {
            init.update(init.len() - 1, init.last().push(s.last()))
        }
    }
}

/// The pieces of `parts` written one after another with `sep` between each two,
/// as `[String]::join` does.
pub open spec fn join_with(parts: Seq<Seq<char>>, sep: Seq<char>) -> Seq<char>
    decreases parts.len(),
{
    if parts.len() == 0 {
        Seq::<char>::empty()
    } else if parts.len() == 1 {
        parts[0]
    } else {
        join_with(parts.drop_last(), sep) + sep + parts.last()
    }
}

/// No piece of `parts` holds the character `c`.
pub open spec fn pieces_avoid(parts: Seq<Seq<char>>, c: char) -> bool {
    forall|i: int, j: int| 0 <= i < parts.len() && 0 <= j < parts[i].len() ==> parts[i][j] != c
}

/// Splitting always gives at least one piece, and no piece holds the separator.
pub proof fn lemma_split_shape(s: Seq<char>, sep: char)
    ensures
        split_on(s, sep).len() >= 1,
        pieces_avoid(split_on(s, sep), sep),
    decreases s.len(),
{
    if s.len() > 0 {
        lemma_split_shape(s.drop_last(), sep);
        let init = split_on(s.drop_last(), sep);
        let out = split_on(s, sep);
        if s.last() != sep {
            assert forall|i: int, j: int| 0 <= i < out.len() && 0 <= j < out[i].len() implies out[i][j]
                != sep by {
                if i == init.len() - 1 {
                    if j < init.last().len() {
                        assert(out[i][j] == init[i][j]);
                    }
                }
            }
        } else {
            assert forall|i: int, j: int| 0 <= i < out.len() && 0 <= j < out[i].len() implies out[i][j]
                != sep by {
                if i < init.len() {
                    assert(out[i] == init[i]);
                }
            }
        }
    }
}

/// Extending the last piece by a character extends the joined text by that character.
proof fn lemma_join_extend_last(parts: Seq<Seq<char>>, sep: Seq<char>, c: char)
    requires
        parts.len() >= 1,
    ensures
        join_with(parts.update(parts.len() - 1, parts.last().push(c)), sep) == join_with(
            parts,
            sep,
        ).push(c),
{
    let q = parts.update(parts.len() - 1, parts.last().push(c));
    if parts.len() == 1 {
        assert(q[0] == parts[0].push(c));
    } else {
        assert(q.drop_last() =~= parts.drop_last());
        assert(join_with(q, sep) == join_with(q.drop_last(), sep) + sep + q.last());
        assert(join_with(q, sep) =~= join_with(parts, sep).push(c));
    }
}

/// Joining the pieces of a split with the same separator gives the text back.
pub proof fn lemma_join_split(s: Seq<char>, sep: char)
    ensures
        join_with(split_on(s, sep), seq![sep]) == s,
    decreases s.len(),
{
    if s.len() == 0 {
        assert(join_with(split_on(s, sep), seq![sep]) =~= s);
    } else {
        let t = s.drop_last();
        lemma_join_split(t, sep);
        lemma_split_shape(t, sep);
        let init = split_on(t, sep);
        if s.last() == sep {
            let out = init.push(Seq::<char>::empty());
            assert(out.drop_last() =~= init);
            assert(join_with(out, seq![sep]) == join_with(init, seq![sep]) + seq![sep]
                + Seq::<char>::empty());
            assert(join_with(out, seq![sep]) =~= s);
        } else {
            lemma_join_extend_last(init, seq![sep], s.last());
            assert(t.push(s.last()) =~= s);
        }
    }
}

/// Appending text without the separator extends the last piece of the split.
proof fn lemma_split_append_plain(s: Seq<char>, t: Seq<char>, sep: char)
    requires
        forall|j: int| 0 <= j < t.len() ==> t[j] != sep,
    ensures
        split_on(s + t, sep) == split_on(s, sep).update(
            split_on(s, sep).len() - 1,
            split_on(s, sep).last() + t,
        ),
    decreases t.len(),
{
    lemma_split_shape(s, sep);
    let base = split_on(s, sep);
    if t.len() == 0 {
        assert(s + t =~= s);
        assert(base.last() + t =~= base.last());
        assert(base.update(base.len() - 1, base.last() + t) =~= base);
    } else {
        let t0 = t.drop_last();
        lemma_split_append_plain(s, t0, sep);
        assert((s + t).drop_last() =~= s + t0);
        assert((s + t).last() == t.last());
        let mid = base.update(base.len() - 1, base.last() + t0);
        assert(split_on(s + t, sep) == mid.update(mid.len() - 1, mid.last().push(t.last())));
        assert((base.last() + t0).push(t.last()) =~= base.last() + t);
        assert(mid.update(mid.len() - 1, mid.last().push(t.last())) =~= base.update(
            base.len() - 1,
            base.last() + t,
        ));
    }
}

/// Splitting a join gives the pieces back, when no piece holds the separator.
pub proof fn lemma_split_join(parts: Seq<Seq<char>>, sep: char)
    requires
        parts.len() >= 1,
        pieces_avoid(parts, sep),
    ensures
        split_on(join_with(parts, seq![sep]), sep) == parts,
    decreases parts.len(),
{
    let last = parts.last();
    assert forall|j: int| 0 <= j < last.len() implies last[j] != sep by {
        assert(parts[parts.len() - 1][j] != sep);
    }
    if parts.len() == 1 {
        lemma_split_append_plain(Seq::<char>::empty(), parts[0], sep);
        assert(Seq::<char>::empty() + parts[0] =~= parts[0]);
        assert(split_on(Seq::<char>::empty(), sep) == seq![Seq::<char>::empty()]);
        assert(seq![Seq::<char>::empty()].update(0, Seq::<char>::empty() + parts[0]) =~= parts);
    } else {
        let init = parts.drop_last();
        assert forall|i: int, j: int| 0 <= i < init.len() && 0 <= j < init[i].len() implies init[i][j]
            != sep by {
            assert(init[i] == parts[i]);
        }
        lemma_split_join(init, sep);
        let head = join_with(init, seq![sep]) + seq![sep];
        assert(head.drop_last() =~= join_with(init, seq![sep]));
        assert(split_on(head, sep) == split_on(join_with(init, seq![sep]), sep).push(
            Seq::<char>::empty(),
        ));
        lemma_split_append_plain(head, last, sep);
        assert(join_with(parts, seq![sep]) =~= head + last);
        assert(Seq::<char>::empty() + last =~= last);
        assert(init.push(Seq::<char>::empty()).update(init.len() as int, Seq::<char>::empty() + last)
            =~= parts);
    }
}


/// The pieces of `s` between occurrences of `sep`.
pub fn split_str(s: &str, sep: char) -> (parts: Vec<String>)
    ensures
        parts.deep_view() == split_on(s@, sep),
{
    let n = s.unicode_len();
    let mut parts: Vec<String> = Vec::new();
    let mut start: usize = 0;
    let mut i: usize = 0;
    assert(s@.subrange(0, 0) =~= Seq::<char>::empty());
    assert(parts.deep_view().push(s@.subrange(0, 0)) =~= split_on(s@.subrange(0, 0), sep));
    while i < n
        invariant
            n == s@.len(),
            start <= i <= n,
            parts.deep_view().push(s@.subrange(start as int, i as int)) == split_on(
                s@.subrange(0, i as int),
                sep,
            ),
        decreases n - i,
    {
        let c = s.get_char(i);
        let ghost before = parts.deep_view();
        let ghost prefix = s@.subrange(0, i as int + 1);
        assert(prefix.drop_last() =~= s@.subrange(0, i as int));
        assert(prefix.last() == c);
        if c == sep {
            let piece = s.substring_char(start, i).to_owned();
            parts.push(piece);
            assert(parts.deep_view() =~= before.push(s@.subrange(start as int, i as int)));
            start = i + 1;
            assert(s@.subrange(start as int, i as int + 1) =~= Seq::<char>::empty());
        } else {
            assert(s@.subrange(start as int, i as int).push(c) =~= s@.subrange(
                start as int,
                i as int + 1,
            ));
            assert(before.push(s@.subrange(start as int, i as int)).update(
                before.len() as int,
                s@.subrange(start as int, i as int).push(c),
            ) =~= before.push(s@.subrange(start as int, i as int + 1)));
        }
        i = i + 1;
    }
    let piece = s.substring_char(start, n).to_owned();
    let ghost before = parts.deep_view();
    parts.push(piece);
    assert(parts.deep_view() =~= before.push(s@.subrange(start as int, n as int)));
    assert(s@.subrange(0, n as int) =~= s@);
    parts
}

/// The pieces of `parts` written one after another with `sep` between each two.
pub fn join_strs(parts: &Vec<String>, sep: &str) -> (joined: String)
    ensures
        joined@ == join_with(parts.deep_view(), sep@),
{
    let n = parts.len();
    if n == 0 {
        return String::new();
    }
    let mut joined = parts[0].clone();
    let mut i: usize = 1;
    assert(parts.deep_view().take(1) =~= seq![parts[0]@]);
    while i < n
        invariant
            n == parts.len(),
            1 <= i <= n,
            joined@ == join_with(parts.deep_view().take(i as int), sep@),
        decreases n - i,
    {
        joined.append(sep);
        joined.append(parts[i].as_str());
        let ghost next = parts.deep_view().take(i as int + 1);
        assert(next.drop_last() =~= parts.deep_view().take(i as int));
        assert(next.last() == parts[i as int]@);
        i = i + 1;
    }
    assert(parts.deep_view().take(n as int) =~= parts.deep_view());
    joined
}

/// A domain with its dot-separated labels in the opposite order.
pub open spec fn reversed_domain(domain: Seq<char>) -> Seq<char> {
    join_with(split_on(domain, '.').reverse(), seq!['.'])
}

/// Reversing a domain twice gives the domain back.
pub proof fn lemma_reversed_domain_involution(domain: Seq<char>)
    ensures
        reversed_domain(reversed_domain(domain)) == domain,
{
    let labels = split_on(domain, '.');
    lemma_split_shape(domain, '.');
    let rev = labels.reverse();
    assert forall|i: int, j: int| 0 <= i < rev.len() && 0 <= j < rev[i].len() implies rev[i][j]
        != '.' by {
        assert(rev[i] == labels[labels.len() - 1 - i]);
    }
    lemma_split_join(rev, '.');
    assert(rev.reverse() =~= labels);
    lemma_join_split(domain, '.');
}

/// The number of characters in all the pieces together.
pub open spec fn total_len(parts: Seq<Seq<char>>) -> int
    decreases parts.len(),
{
    if parts.len() == 0 {
        0
    } else {
        total_len(parts.drop_last()) + parts.last().len()
    }
}

/// How many times `c` occurs in `s`.
pub open spec fn count_char(s: Seq<char>, c: char) -> nat
    decreases s.len(),
{
    if s.len() == 0 {
        0
    } else {
        count_char(s.drop_last(), c) + if s.last() == c {
            1nat
        } else {
            0nat
        }
    }
}

proof fn lemma_total_len_concat(a: Seq<Seq<char>>, b: Seq<Seq<char>>)
    ensures
        total_len(a + b) == total_len(a) + total_len(b),
    decreases b.len(),
{
    if b.len() == 0 {
        assert(a + b =~= a);
    } else {
        lemma_total_len_concat(a, b.drop_last());
        assert((a + b).drop_last() =~= a + b.drop_last());
        assert((a + b).last() == b.last());
    }
}

proof fn lemma_total_len_reverse(parts: Seq<Seq<char>>)
    ensures
        total_len(parts.reverse()) == total_len(parts),
    decreases parts.len(),
{
    if parts.len() > 0 {
        let init = parts.drop_last();
        lemma_total_len_reverse(init);
        assert(parts.reverse() =~= seq![parts.last()] + init.reverse());
        lemma_total_len_concat(seq![parts.last()], init.reverse());
        let one = seq![parts.last()];
        assert(one.drop_last() =~= Seq::<Seq<char>>::empty());
        assert(total_len(one.drop_last()) == 0);
        assert(total_len(one) == total_len(one.drop_last()) + one.last().len());
        assert(total_len(parts) == total_len(init) + parts.last().len());
    } else {
        assert(parts.reverse() =~= parts);
    }
}

proof fn lemma_join_len(parts: Seq<Seq<char>>, c: char)
    requires
        parts.len() >= 1,
    ensures
        join_with(parts, seq![c]).len() == total_len(parts) + parts.len() - 1,
    decreases parts.len(),
{
    if parts.len() > 1 {
        lemma_join_len(parts.drop_last(), c);
        assert(join_with(parts, seq![c]) == join_with(parts.drop_last(), seq![c]) + seq![c]
            + parts.last());
        assert(total_len(parts) == total_len(parts.drop_last()) + parts.last().len());
    } else {
        assert(parts.drop_last() =~= Seq::<Seq<char>>::empty());
        assert(total_len(parts.drop_last()) == 0);
        assert(total_len(parts) == total_len(parts.drop_last()) + parts.last().len());
        assert(parts.last() == parts[0]);
    }
}

proof fn lemma_count_concat(a: Seq<char>, b: Seq<char>, c: char)
    ensures
        count_char(a + b, c) == count_char(a, c) + count_char(b, c),
    decreases b.len(),
{
    if b.len() == 0 {
        assert(a + b =~= a);
    } else {
        lemma_count_concat(a, b.drop_last(), c);
        assert((a + b).drop_last() =~= a + b.drop_last());
        assert((a + b).last() == b.last());
    }
}

proof fn lemma_count_absent(s: Seq<char>, c: char)
    requires
        forall|j: int| 0 <= j < s.len() ==> s[j] != c,
    ensures
        count_char(s, c) == 0,
    decreases s.len(),
{
    if s.len() > 0 {
        lemma_count_absent(s.drop_last(), c);
        assert(s.last() == s[s.len() - 1]);
    }
}

proof fn lemma_count_join(parts: Seq<Seq<char>>, c: char)
    requires
        parts.len() >= 1,
        pieces_avoid(parts, c),
    ensures
        count_char(join_with(parts, seq![c]), c) == parts.len() - 1,
    decreases parts.len(),
{
    let last = parts.last();
    assert forall|j: int| 0 <= j < last.len() implies last[j] != c by {
        assert(parts[parts.len() - 1][j] != c);
    }
    lemma_count_absent(last, c);
    if parts.len() > 1 {
        let init = parts.drop_last();
        assert forall|i: int, j: int| 0 <= i < init.len() && 0 <= j < init[i].len() implies init[i][j]
            != c by {
            assert(init[i] == parts[i]);
        }
        lemma_count_join(init, c);
        let head = join_with(init, seq![c]);
        lemma_count_concat(head, seq![c], c);
        lemma_count_concat(head + seq![c], last, c);
        assert(seq![c].drop_last() =~= Seq::<char>::empty());
        assert(count_char(Seq::<char>::empty(), c) == 0);
        assert(count_char(seq![c], c) == count_char(seq![c].drop_last(), c) + 1);
        assert(join_with(parts, seq![c]) == head + seq![c] + last);
    } else {
        assert(join_with(parts, seq![c]) == parts[0]);
        assert(parts[0] == last);
    }
}

/// Reversing a domain keeps its length and its number of dots.
pub proof fn lemma_reversed_domain_shape(domain: Seq<char>)
    ensures
        reversed_domain(domain).len() == domain.len(),
        count_char(reversed_domain(domain), '.') == count_char(domain, '.'),
{
    let labels = split_on(domain, '.');
    lemma_split_shape(domain, '.');
    let rev = labels.reverse();
    assert forall|i: int, j: int| 0 <= i < rev.len() && 0 <= j < rev[i].len() implies rev[i][j]
        != '.' by {
        assert(rev[i] == labels[labels.len() - 1 - i]);
    }
    lemma_join_split(domain, '.');
    lemma_join_len(labels, '.');
    lemma_join_len(rev, '.');
    lemma_total_len_reverse(labels);
    lemma_count_join(labels, '.');
    lemma_count_join(rev, '.');
}

/// Reverses the order of the dot-separated labels of `domain`.
pub fn reverse_domain_str(domain: &str) -> (reversed: String)
    ensures
        reversed@ == reversed_domain(domain@),
{
    let labels = split_str(domain, '.');
    let n = labels.len();
    let mut rev: Vec<String> = Vec::new();
    let mut i: usize = 0;
    while i < n
        invariant
            n == labels.len(),
            i <= n,
            rev.deep_view() == labels.deep_view().reverse().take(i as int),
        decreases n - i,
    {
        let ghost before = rev.deep_view();
        rev.push(labels[n - 1 - i].clone());
        assert(labels.deep_view().reverse()[i as int] == labels.deep_view()[n - 1 - i]);
        assert(rev.deep_view() =~= before.push(labels.deep_view()[n - 1 - i]));
        assert(rev.deep_view() =~= labels.deep_view().reverse().take(i as int + 1));
        i = i + 1;
    }
    assert(labels.deep_view().reverse().take(n as int) =~= labels.deep_view().reverse());
    let dot = ".";
    proof {
        reveal_strlit(".");
    }
    assert(dot@ =~= seq!['.']);
    join_strs(&rev, dot)
}

} // verus!

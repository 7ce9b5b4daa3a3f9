use vstd::prelude::*;
use vstd::string::StrSliceExecFns;

verus! {

/// The labels of a domain name: the maximal runs of characters between dots,
/// in the order in which they are written. A text without a dot is a single
/// label; two adjacent dots, or a dot at either end, give an empty label.
pub open spec fn split_labels(s: Seq<char>) -> Seq<Seq<char>>
    decreases s.len(),
{
    if s.len() == 0 {
        seq![Seq::<char>::empty()]
    } else {
        let init = split_labels(s.drop_last());
        if s.last() == '.' {
            init.push(Seq::<char>::empty())
        } else {
            init.update(init.len() - 1, init.last().push(s.last()))
        }
    }
}

/// A domain is accepted when it is not empty and no label but the first is
/// empty. This rules out a trailing dot and two adjacent dots.
pub open spec fn valid_domain(s: Seq<char>) -> bool {
    &&& s.len() > 0
    &&& forall|i: int| 1 <= i < split_labels(s).len() ==> #[trigger] split_labels(s)[i].len() > 0
}

/// The character sequences of a list of string slices.
pub open spec fn label_views(parts: Seq<&str>) -> Seq<Seq<char>> {
    Seq::new(parts.len(), |i: int| parts[i]@)
}

/// The labels written one after the other, with a dot between each two.
pub open spec fn join_labels(labels: Seq<Seq<char>>) -> Seq<char>
    decreases labels.len(),
{
    if labels.len() == 0 {
        Seq::<char>::empty()
    } else if labels.len() == 1 {
        labels[0]
    } else {
        join_labels(labels.drop_last()).push('.') + labels.last()
    }
}

/// Splitting loses nothing and leaves no dot behind: the labels of a text
/// hold no dot, and joined with dots they spell the text again.
pub proof fn lemma_split_labels_join(s: Seq<char>)
    ensures
        join_labels(split_labels(s)) == s,
        forall|i: int| 0 <= i < split_labels(s).len() ==> !(#[trigger] split_labels(s)[i]).contains('.'),
    decreases s.len(),
{
    let labels = split_labels(s);
    if s.len() == 0 {
        assert(join_labels(labels) =~= s);
    } else {
        let init = split_labels(s.drop_last());
        lemma_split_labels_join(s.drop_last());
        lemma_split_labels_nonempty(s.drop_last());
        if s.last() == '.' {
            assert(labels.drop_last() =~= init);
            assert(join_labels(labels) =~= s);
        } else {
            let k = init.len() - 1;
            if k == 0 {
                assert(join_labels(init) == init[0]);
                assert(join_labels(labels) =~= s);
            } else {
                let front = join_labels(init.drop_last()).push('.');
                assert(labels.drop_last() =~= init.drop_last());
                assert(join_labels(init) == front + init.last());
                assert(join_labels(labels) == front + init.last().push(s.last()));
                assert(s =~= s.drop_last().push(s.last()));
                assert(front + init.last().push(s.last()) =~= (front + init.last()).push(
                    s.last(),
                ));
            }
            assert forall|i: int| 0 <= i < labels.len() implies !(#[trigger] labels[i]).contains(
                '.',
            ) by {
                if i == k {
                    if labels[i].contains('.') {
                        let j = choose|j: int| 0 <= j < labels[i].len() && labels[i][j] == '.';
                        if j < init[k].len() {
                            assert(init[k][j] == '.');
                        }
                    }
                } else {
                    assert(labels[i] == init[i]);
                }
            }
        }
    }
}

/// Every text has at least one label.
pub proof fn lemma_split_labels_nonempty(s: Seq<char>)
    ensures
        split_labels(s).len() >= 1,
    decreases s.len(),
{
    if s.len() > 0 {
        lemma_split_labels_nonempty(s.drop_last());
    }
}

/// A text without a dot is its own single label.
pub proof fn lemma_single_label(s: Seq<char>)
    ensures
        split_labels(s).len() == 1 <==> !s.contains('.'),
        split_labels(s).len() == 1 ==> split_labels(s)[0] == s,
    decreases s.len(),
{
    if s.len() > 0 {
        let init = s.drop_last();
        lemma_single_label(init);
        lemma_split_labels_nonempty(init);
        if s.last() == '.' {
            assert(s[s.len() - 1] == '.');
        } else {
            if init.contains('.') {
                let i = choose|i: int| 0 <= i < init.len() && init[i] == '.';
                assert(s[i] == '.');
            }
            if s.contains('.') {
                let i = choose|i: int| 0 <= i < s.len() && s[i] == '.';
                assert(init[i] == '.');
            }
            if split_labels(s).len() == 1 {
                assert(split_labels(s)[0] =~= s);
            }
        }
    } else {
        assert(split_labels(s)[0] =~= s);
    }
}

/// Reading on never changes a label that a dot has closed: the labels of a
/// prefix, but for its last, are labels of the whole text at the same place.
pub proof fn lemma_closed_labels_stay(s: Seq<char>, j: int)
    requires
        0 <= j <= s.len(),
    ensures
        split_labels(s.take(j)).len() <= split_labels(s).len(),
        forall|k: int|
            0 <= k < split_labels(s.take(j)).len() - 1 ==> #[trigger] split_labels(s)[k]
                == split_labels(s.take(j))[k],
    decreases s.len(),
{
    if j == s.len() {
        assert(s.take(j) =~= s);
    } else {
        let init = s.drop_last();
        assert(init.take(j) =~= s.take(j));
        lemma_closed_labels_stay(init, j);
        lemma_split_labels_nonempty(s.take(j));
    }
}

/// A text with two dots in a row has an empty label after its first label,
/// so it is not a valid domain.
pub proof fn lemma_adjacent_dots_are_invalid(s: Seq<char>, i: int)
    requires
        0 <= i,
        i + 1 < s.len(),
        s[i] == '.',
        s[i + 1] == '.',
    ensures
        !valid_domain(s),
{
    let one = s.take(i + 1);
    let two = s.take(i + 2);
    assert(two.drop_last() =~= one);
    assert(two.last() == '.');
    assert(one.last() == '.');
    lemma_split_labels_nonempty(one.drop_last());
    let k = split_labels(one).len() - 1;
    assert(split_labels(one)[k].len() == 0);
    assert(split_labels(two)[k] == split_labels(one)[k]);
    lemma_closed_labels_stay(s, i + 2);
    assert(split_labels(s)[k].len() == 0);
}

pub fn valid_and_split_domain(domain: &str) -> (res: (Option<Vec<&str>>, bool))
    ensures
        res.1 == valid_domain(domain@),
        res.1 ==> res.0 is Some && label_views(res.0->0@) == split_labels(domain@),
        !res.1 ==> res.0 is None,
{
    let n = domain.unicode_len();
    let mut parts: Vec<&str> = Vec::new();
    let mut start: usize = 0;
    let mut i: usize = 0;
    proof {
        assert(domain@.take(0) =~= Seq::<char>::empty());
        assert(domain@.subrange(0, 0) =~= Seq::<char>::empty());
        assert(label_views(parts@).push(domain@.subrange(0, 0)) =~= seq![Seq::<char>::empty()]);
    }
    for c in it: domain.chars()
        invariant
            n == domain@.len(),
            it.seq() == domain@,
            i == it.index(),
            start <= i <= n,
            split_labels(domain@.take(i as int)) == label_views(parts@).push(
                domain@.subrange(start as int, i as int),
            ),
    {
        proof {
            let prev = domain@.take(i as int);
            let next = domain@.take(i + 1);
            assert(next.drop_last() =~= prev);
            assert(next.last() == c);
            lemma_split_labels_nonempty(prev);
        }
        if c == '.' {
            let ghost before = label_views(parts@);
            let label = domain.substring_char(start, i);
            parts.push(label);
            start = i + 1;
            proof {
                assert(domain@.subrange(start as int, i + 1) =~= Seq::<char>::empty());
                assert(label_views(parts@) =~= before.push(label@));
            }
        } else {
            proof {
                assert(domain@.subrange(start as int, i + 1) =~= domain@.subrange(
                    start as int,
                    i as int,
                ).push(c));
                let done = label_views(parts@);
                let open_label = domain@.subrange(start as int, i as int);
                assert(done.push(open_label).update(done.len() as int, open_label.push(c))
                    =~= done.push(open_label.push(c)));
            }
        }
        i = i + 1;
    }
    let ghost before = label_views(parts@);
    let last = domain.substring_char(start, n);
    parts.push(last);
    proof {
        assert(domain@.take(n as int) =~= domain@);
        assert(label_views(parts@) =~= before.push(last@));
    }
    if parts.len() == 1 {
        proof {
            lemma_single_label(domain@);
            assert(label_views(parts@)[0] == parts[0]@);
        }
        if parts[0].is_empty() {
            return (None, false);
        }
        return (Some(parts), true);
    }
    let mut k: usize = 1;
    while k < parts.len()
        invariant
            1 <= k <= parts.len(),
            domain@.len() > 0,
            label_views(parts@) == split_labels(domain@),
            forall|j: int| 1 <= j < k ==> #[trigger] split_labels(domain@)[j].len() > 0,
        decreases parts.len() - k,
    {
        if parts[k].is_empty() {
            assert(split_labels(domain@)[k as int].len() == 0);
            return (None, false);
        }
        k = k + 1;
    }
    (Some(parts), true)
}

} // verus!

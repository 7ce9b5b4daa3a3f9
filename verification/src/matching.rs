use vstd::prelude::*;

use crate::domain::{lemma_split_labels_nonempty, split_labels, valid_domain};

verus! {

/// The label that stands for exactly one label of a searched domain.
pub open spec fn wildcard() -> Seq<char> {
    seq!['*']
}

/// The leading label that makes an inserted domain stand for itself without
/// that label and for every domain that ends in it.
pub open spec fn complex_wildcard() -> Seq<char> {
    seq!['+']
}

/// The empty label, which stands for one or more labels at the front of a
/// searched domain.
pub open spec fn dot_wildcard() -> Seq<char> {
    Seq::<char>::empty()
}

/// The entries of `m` whose path starts with `label`, each without that
/// first label.
pub open spec fn below<T>(m: Map<Seq<Seq<char>>, T>, label: Seq<char>) -> Map<Seq<Seq<char>>, T> {
    Map::new(
        |path: Seq<Seq<char>>| m.dom().contains(seq![label] + path),
        |path: Seq<Seq<char>>| m[seq![label] + path],
    )
}

/// The path of the entry of `m` that matches the labels `labels` of a
/// domain, read from the last label to the first. At each step an edge with
/// the label itself is tried first, then a wildcard edge, and only when
/// neither leads to an entry does a dot-wildcard entry at this depth match.
pub open spec fn best_match<T>(m: Map<Seq<Seq<char>>, T>, labels: Seq<Seq<char>>) -> Option<
    Seq<Seq<char>>,
>
    decreases labels.len(),
{
    if labels.len() == 0 {
        if m.dom().contains(Seq::empty()) {
            Some(Seq::empty())
        } else {
            None
        }
    } else {
        let label = labels.last();
        let rest = labels.drop_last();
        let exact = best_match(below(m, label), rest);
        let wild = best_match(below(m, wildcard()), rest);
        if exact is Some {
            Some(seq![label] + exact->0)
        } else if wild is Some {
            Some(seq![wildcard()] + wild->0)
        } else if m.dom().contains(seq![dot_wildcard()]) {
            Some(seq![dot_wildcard()])
        } else {
            None
        }
    }
}

/// What a search for `domain` finds in `m`: nothing for a domain that is not
/// valid or starts with a dot, else the best match of its labels.
pub open spec fn search_key<T>(m: Map<Seq<Seq<char>>, T>, domain: Seq<char>) -> Option<
    Seq<Seq<char>>,
> {
    if valid_domain(domain) && split_labels(domain)[0].len() > 0 {
        best_match(m, split_labels(domain))
    } else {
        None
    }
}

/// The entries after `domain` was inserted with `value`. The path of an
/// entry is the list of labels from the last to the first. A leading `+`
/// gives two entries: one without it, one with the empty label in its place.
pub open spec fn inserted<T>(m: Map<Seq<Seq<char>>, T>, domain: Seq<char>, value: T) -> Map<
    Seq<Seq<char>>,
    T,
> {
    let labels = split_labels(domain);
    if !valid_domain(domain) {
        m
    } else if labels[0] == complex_wildcard() {
        m.insert(labels.drop_first().reverse(), value).insert(
            labels.update(0, dot_wildcard()).reverse(),
            value,
        )
    } else {
        m.insert(labels.reverse(), value)
    }
}

/// Only a path with an entry is ever matched.
pub proof fn lemma_best_match_is_entry<T>(m: Map<Seq<Seq<char>>, T>, labels: Seq<Seq<char>>)
    ensures
        best_match(m, labels) matches Some(path) ==> m.dom().contains(path),
    decreases labels.len(),
{
    if labels.len() > 0 {
        lemma_best_match_is_entry(below(m, labels.last()), labels.drop_last());
        lemma_best_match_is_entry(below(m, wildcard()), labels.drop_last());
    }
}

/// An entry is the best match of the labels that spell its own path: the
/// edge with the label itself is tried before any wildcard.
pub proof fn lemma_best_match_finds_inserted<T>(
    m: Map<Seq<Seq<char>>, T>,
    labels: Seq<Seq<char>>,
    value: T,
)
    ensures
        best_match(m.insert(labels.reverse(), value), labels) == Some(labels.reverse()),
    decreases labels.len(),
{
    let key = labels.reverse();
    let with_entry = m.insert(key, value);
    if labels.len() == 0 {
        assert(key =~= Seq::<Seq<char>>::empty());
    } else {
        let label = labels.last();
        let rest = labels.drop_last();
        let sub = below(m, label).insert(rest.reverse(), value);
        assert(key =~= seq![label] + rest.reverse());
        assert forall|p: Seq<Seq<char>>|
            #![trigger below(with_entry, label).dom().contains(p)]
            #![trigger sub.dom().contains(p)]
            (below(with_entry, label).dom().contains(p) <==> sub.dom().contains(p)) && (below(
                with_entry,
                label,
            ).dom().contains(p) ==> below(with_entry, label)[p] == sub[p]) by {
            let full = seq![label] + p;
            assert(full.drop_first() =~= p);
            assert(key.drop_first() =~= rest.reverse());
            if p == rest.reverse() {
                assert(full =~= key);
            }
        }
        assert(below(with_entry, label) =~= sub);
        lemma_best_match_finds_inserted(below(m, label), rest, value);
    }
}

/// A domain that was inserted is found again, with the value it was
/// inserted with, whatever else the trie holds. This is for domains that a
/// search accepts and an insertion stores as they are: those that are valid
/// and start neither with a dot nor with the label `+`.
pub proof fn lemma_search_finds_inserted<T>(
    m: Map<Seq<Seq<char>>, T>,
    domain: Seq<char>,
    value: T,
)
    requires
        valid_domain(domain),
        split_labels(domain)[0] != complex_wildcard(),
        split_labels(domain)[0] != dot_wildcard(),
    ensures
        search_key(inserted(m, domain, value), domain) == Some(split_labels(domain).reverse()),
        inserted(m, domain, value)[split_labels(domain).reverse()] == value,
{
    lemma_best_match_finds_inserted(m, split_labels(domain), value);
    assert(split_labels(domain)[0].len() > 0) by {
        if split_labels(domain)[0].len() == 0 {
            assert(split_labels(domain)[0] =~= dot_wildcard());
        }
    }
}

/// No search gives a path without an entry: the node that a search returns
/// always holds a value.
pub proof fn lemma_search_gives_entry<T>(m: Map<Seq<Seq<char>>, T>, domain: Seq<char>)
    ensures
        search_key(m, domain) matches Some(path) ==> m.dom().contains(path),
{
    lemma_best_match_is_entry(m, split_labels(domain));
}

/// The empty text and every text that ends in a dot are not valid domains,
/// so inserting one changes nothing and searching one finds nothing.
pub proof fn lemma_trailing_dot_is_invalid<T>(m: Map<Seq<Seq<char>>, T>, domain: Seq<char>, value: T)
    requires
        domain.len() == 0 || domain.last() == '.',
    ensures
        !valid_domain(domain),
        inserted(m, domain, value) == m,
        search_key(m, domain) is None,
{
    if domain.len() > 0 {
        let init = split_labels(domain.drop_last());
        lemma_split_labels_nonempty(domain.drop_last());
        let labels = split_labels(domain);
        assert(labels == init.push(Seq::<char>::empty()));
        assert(labels[labels.len() - 1].len() == 0);
    }
}

} // verus!

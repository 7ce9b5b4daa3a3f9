use std::marker::PhantomData;
use std::sync::Arc;
use vstd::prelude::*;

use crate::domain::{label_views, lemma_split_labels_nonempty, split_labels, valid_domain};
use crate::keys::{
    first_index, lemma_first_index, lemma_first_index_is, lemma_first_index_push, same_text,
};
use crate::matching::{
    below, best_match, complex_wildcard, dot_wildcard, inserted, lemma_best_match_is_entry,
    search_key, wildcard,
};
use crate::trusted::share;

pub use crate::domain::valid_and_split_domain;

verus! {

/// A node of the trie: the edges to its children, each under its own label,
/// and the value stored at this node, if any.
pub struct Node<T: Sync + Send> {
    children: Vec<(String, Node<T>)>,
    data: Option<Arc<T>>,
}

/// The labels of a list of edges, in the order of the edges.
pub open spec fn edge_labels<T: Sync + Send>(edges: Seq<(String, Node<T>)>) -> Seq<Seq<char>> {
    Seq::new(edges.len(), |i: int| edges[i].0@)
}

/// A node is seen as the map from each path that ends in a node with a value
/// to that value. A path lists the labels of the edges from the node down.
impl<T: Sync + Send> View for Node<T> {
    type V = Map<Seq<Seq<char>>, T>;

    open spec fn view(&self) -> Map<Seq<Seq<char>>, T> {
        Map::new(
            |path: Seq<Seq<char>>|
                self.descend(path) is Some && self.descend(path)->0.value() is Some,
            |path: Seq<Seq<char>>| self.descend(path)->0.value()->0,
        )
    }
}

impl<T: Sync + Send> Node<T> {
    /// The value stored at this node.
    pub closed spec fn value(&self) -> Option<T> {
        match self.data {
            Some(d) => Some(*d),
            None => None,
        }
    }

    /// The child under the edge labelled `label`.
    pub closed spec fn child(&self, label: Seq<char>) -> Option<Node<T>> {
        let i = first_index(edge_labels(self.children@), label);
        if i < self.children.len() {
            Some(self.children[i].1)
        } else {
            None
        }
    }

    /// No two edges of this node carry the same label.
    pub closed spec fn distinct_labels(&self) -> bool {
        edge_labels(self.children@).no_duplicates()
    }

    /// No node from this one down has two edges with the same label.
    pub open spec fn wf(&self) -> bool {
        forall|path: Seq<Seq<char>>| #[trigger]
            self.descend(path) matches Some(node) ==> node.distinct_labels()
    }

    /// The node reached from this one along `path`, one label per edge.
    pub open spec fn descend(&self, path: Seq<Seq<char>>) -> Option<Node<T>>
        decreases path.len(),
    {
        if path.len() == 0 {
            Some(*self)
        } else {
            match self.child(path[0]) {
                Some(c) => c.descend(path.drop_first()),
                None => None,
            }
        }
    }

    pub fn new() -> (node: Self)
        ensures
            node.value() is None,
            forall|label: Seq<char>| node.child(label) is None,
            node@ == Map::<Seq<Seq<char>>, T>::empty(),
            node.distinct_labels(),
            node.wf(),
    {
        let node = Node { children: Vec::new(), data: None };
        proof {
            assert forall|path: Seq<Seq<char>>| #[trigger]
                node.descend(path) is Some implies node.descend(path)->0.distinct_labels() by {
                if path.len() > 0 {
                    assert(node.child(path[0]) is None);
                }
            }
            assert forall|path: Seq<Seq<char>>| !node@.dom().contains(path) by {
                if path.len() > 0 {
                    assert(node.child(path[0]) is None);
                }
            }
            assert(node@ =~= Map::<Seq<Seq<char>>, T>::empty());
        }
        node
    }

    pub fn get_data(&self) -> (res: Option<&T>)
        ensures
            res == match self.value() {
                Some(v) => Some(&v),
                None => None,
            },
    {
        match &self.data {
            Some(d) => Some(&**d),
            None => None,
        }
    }

    fn edge_position(&self, s: &str) -> (i: usize)
        ensures
            i == first_index(edge_labels(self.children@), s@),
            i <= self.children.len(),
    {
        let ghost labels = edge_labels(self.children@);
        let mut i: usize = 0;
        while i < self.children.len()
            invariant
                i <= self.children.len(),
                labels == edge_labels(self.children@),
                forall|j: int| 0 <= j < i ==> #[trigger] labels[j] != s@,
            decreases self.children.len() - i,
        {
            if same_text(self.children[i].0.as_str(), s) {
                proof {
                    assert(labels[i as int] == s@);
                    lemma_first_index_is(labels, s@, i as int);
                }
                return i;
            }
            i = i + 1;
        }
        proof {
            lemma_first_index_is(labels, s@, i as int);
        }
        i
    }

    pub fn get_child(&self, s: &str) -> (res: Option<&Self>)
        ensures
            res == match self.child(s@) {
                Some(c) => Some(&c),
                None => None,
            },
    {
        let i = self.edge_position(s);
        if i < self.children.len() {
            Some(&self.children[i].1)
        } else {
            None
        }
    }

    pub fn get_child_mut(&mut self, s: &str) -> (res: Option<&mut Self>)
        ensures
            match res {
                Some(c) => {
                    &&& old(self).child(s@) == Some(*c)
                    &&& final(self).value() == old(self).value()
                    &&& final(self).distinct_labels() == old(self).distinct_labels()
                    &&& forall|label: Seq<char>|
                        #[trigger] final(self).child(label) == if label == s@ {
                            Some(*final(c))
                        } else {
                            old(self).child(label)
                        }
                },
                None => old(self).child(s@) is None && *final(self) == *old(self),
            },
    {
        let i = self.edge_position(s);
        if i < self.children.len() {
            proof {
                let before = self.children@;
                let data = self.data;
                assert forall|after: Node<T>, label: Seq<char>|
                    after.data == data && after.children@.len() == before.len() && (forall|
                        j: int,
                    |
                        0 <= j < before.len() ==> (#[trigger] after.children@[j]).0 == before[j].0)
                        && (forall|j: int|
                        0 <= j < before.len() && j != i ==> (#[trigger] after.children@[j])
                            == before[j]) implies #[trigger] after.child(label) == if label == s@ {
                        Some(after.children@[i as int].1)
                    } else {
                        self.child(label)
                    } by {
                    assert(edge_labels(after.children@) =~= edge_labels(before));
                    lemma_first_index(edge_labels(before), label);
                    lemma_first_index(edge_labels(before), s@);
                }
                assert forall|after: Node<T>|
                    after.children@.len() == before.len() && (forall|j: int|
                        0 <= j < before.len() ==> (#[trigger] after.children@[j]).0
                            == before[j].0) implies #[trigger] after.distinct_labels()
                    == self.distinct_labels() by {
                    assert(edge_labels(after.children@) =~= edge_labels(before));
                }
            }
            let c = &mut self.children[i].1;
            Some(c)
        } else {
            None
        }
    }

    pub fn has_child(&self, s: &str) -> (res: bool)
        ensures
            res == self.child(s@).is_some(),
    {
        self.get_child(s).is_some()
    }

    /// Puts `child` under the label `s`, in place of the child that was
    /// there, if any.
    pub fn add_child(&mut self, s: &str, child: Node<T>)
        ensures
            final(self).value() == old(self).value(),
            final(self).distinct_labels() == old(self).distinct_labels(),
            forall|label: Seq<char>|
                #[trigger] final(self).child(label) == if label == s@ {
                    Some(child)
                } else {
                    old(self).child(label)
                },
    {
        let i = self.edge_position(s);
        let ghost before = self.children@;
        if i < self.children.len() {
            self.children[i].1 = child;
            proof {
                assert(edge_labels(self.children@) =~= edge_labels(before));
                assert forall|label: Seq<char>|
                    #[trigger] self.child(label) == if label == s@ {
                        Some(child)
                    } else {
                        old(self).child(label)
                    } by {
                    lemma_first_index(edge_labels(before), label);
                    lemma_first_index(edge_labels(before), s@);
                }
            }
        } else {
            let edge = (s.to_owned(), child);
            self.children.push(edge);
            proof {
                let labels = edge_labels(before);
                assert(edge_labels(self.children@) =~= labels.push(s@));
                lemma_first_index(labels, s@);
                if labels.no_duplicates() {
                    assert(labels.push(s@).no_duplicates());
                } else {
                    let (a, b) = choose|a: int, b: int|
                        0 <= a < labels.len() && 0 <= b < labels.len() && a != b && labels[a]
                            == labels[b];
                    assert(labels.push(s@)[a] == labels.push(s@)[b]);
                }
                assert forall|label: Seq<char>|
                    #[trigger] self.child(label) == if label == s@ {
                        Some(child)
                    } else {
                        old(self).child(label)
                    } by {
                    assert(edge_labels(self.children@) =~= edge_labels(before).push(s@));
                    lemma_first_index_push(edge_labels(before), s@, label);
                    lemma_first_index(edge_labels(before), label);
                }
            }
        }
    }
}

/// The entries below a label are the entries of the child under it.
pub proof fn lemma_below_child<T: Sync + Send>(node: Node<T>, label: Seq<char>)
    ensures
        below(node@, label) == match node.child(label) {
            Some(c) => c@,
            None => Map::empty(),
        },
{
    let sub = match node.child(label) {
        Some(c) => c@,
        None => Map::empty(),
    };
    assert forall|path: Seq<Seq<char>>| below(node@, label).dom().contains(path) <==> sub.dom().contains(path) by {
        let full = seq![label] + path;
        assert(full[0] == label);
        assert(full.drop_first() =~= path);
    }
    assert forall|path: Seq<Seq<char>>| below(node@, label).dom().contains(path) implies below(node@, label)[path] == sub[path] by {
        let full = seq![label] + path;
        assert(full[0] == label);
        assert(full.drop_first() =~= path);
    }
    assert(below(node@, label) =~= sub);
}

/// A node whose own labels are distinct, over well-formed children, is
/// well-formed.
pub proof fn lemma_wf_from_children<T: Sync + Send>(node: Node<T>)
    requires
        node.distinct_labels(),
        forall|label: Seq<char>| #[trigger] node.child(label) is Some ==> node.child(label)->0.wf(),
    ensures
        node.wf(),
{
    assert forall|path: Seq<Seq<char>>| #[trigger] node.descend(path) is Some implies node.descend(
        path,
    )->0.distinct_labels() by {
        if path.len() > 0 {
            let c = node.child(path[0])->0;
            assert(c.wf());
            assert(c.descend(path.drop_first()) is Some);
        }
    }
}

/// The children of a well-formed node are well-formed, and its own labels
/// are distinct.
pub proof fn lemma_wf_of_child<T: Sync + Send>(node: Node<T>, label: Seq<char>)
    requires
        node.wf(),
    ensures
        node.distinct_labels(),
        node.child(label) is Some ==> node.child(label)->0.wf(),
{
    assert(node.descend(Seq::empty()) == Some(node));
    if node.child(label) is Some {
        let c = node.child(label)->0;
        assert forall|path: Seq<Seq<char>>| #[trigger] c.descend(path) is Some implies c.descend(
            path,
        )->0.distinct_labels() by {
            let full = seq![label] + path;
            assert(full[0] == label);
            assert(full.drop_first() =~= path);
            assert(node.descend(full) == c.descend(path));
        }
    }
}

/// Inserting under the child that a label selects inserts under the node,
/// with that label put in front of the path.
pub proof fn lemma_insert_below<T: Sync + Send>(
    before: Node<T>,
    after: Node<T>,
    label: Seq<char>,
    path: Seq<Seq<char>>,
    value: T,
)
    requires
        after.value() == before.value(),
        forall|l: Seq<char>| l != label ==> #[trigger] after.child(l) == before.child(l),
        after.child(label) is Some,
        after.child(label)->0@ == below(before@, label).insert(path, value),
    ensures
        after@ == before@.insert(seq![label] + path, value),
{
    let key = seq![label] + path;
    let target = before@.insert(key, value);
    let sub = after.child(label)->0;
    assert(key[0] == label);
    assert(key.drop_first() =~= path);
    assert forall|q: Seq<Seq<char>>|
        #![trigger after@.dom().contains(q)]
        #![trigger target.dom().contains(q)]
        (after@.dom().contains(q) <==> target.dom().contains(q)) && (after@.dom().contains(q)
            ==> after@[q] == target[q]) by {
        if q.len() == 0 {
            assert(after.descend(q) == Some(after));
            assert(before.descend(q) == Some(before));
        } else if q[0] != label {
            assert(after.child(q[0]) == before.child(q[0]));
            assert(after.descend(q) == before.descend(q));
        } else {
            let tail = q.drop_first();
            assert(seq![label] + tail =~= q);
            assert(after.descend(q) == sub.descend(tail));
            assert(sub@.dom().contains(tail) == after@.dom().contains(q));
            assert(below(before@, label).dom().contains(tail) == before@.dom().contains(q));
            if tail == path {
                assert(q == key);
                assert(sub@[tail] == value);
            } else {
                assert(q != key);
                if sub@.dom().contains(tail) {
                    assert(sub@[tail] == below(before@, label)[tail]);
                    assert(below(before@, label)[tail] == before@[q]);
                }
            }
        }
    }
    assert(after@ =~= target);
}

/// The value that a shared handle refers to.
pub open spec fn held<T>(data: Arc<T>) -> T {
    *data
}

/// A trie of domain names. Labels are stored from the last to the first, so
/// the top-level domain hangs directly under the root.
pub struct StringTrie<T: Sync + Send> {
    root: Node<T>,
    __type_holder: PhantomData<T>,
}

impl<T: Sync + Send> View for StringTrie<T> {
    type V = Map<Seq<Seq<char>>, T>;

    open spec fn view(&self) -> Map<Seq<Seq<char>>, T> {
        self.root_node()@
    }
}

impl<T: Sync + Send> StringTrie<T> {
    /// The node from which every path starts.
    pub closed spec fn root_node(&self) -> Node<T> {
        self.root
    }

    /// No node of the trie has two edges with the same label.
    pub open spec fn wf(&self) -> bool {
        self.root_node().wf()
    }

    pub fn new() -> (trie: Self)
        ensures
            trie@ == Map::<Seq<Seq<char>>, T>::empty(),
            trie.wf(),
    {
        StringTrie { root: Node::new(), __type_holder: PhantomData }
    }

    /// Stores `data` under `domain`. A domain that is not valid is refused and
    /// leaves the trie as it was.
    pub fn insert(&mut self, domain: &str, data: Arc<T>) -> (res: bool)
        ensures
            res == valid_domain(domain@),
            final(self)@ == inserted(old(self)@, domain@, *data),
            !res ==> *final(self) == *old(self),
            old(self).wf() ==> final(self).wf(),
    {
        let (parts, valid) = valid_and_split_domain(domain);
        if !valid {
            return false;
        }
        let mut parts = parts.unwrap();
        let n = parts.len();
        let ghost labels = split_labels(domain@);
        proof {
            lemma_split_labels_nonempty(domain@);
            assert(label_views(parts@)[0] == parts[0]@);
            assert(label_views(parts@).subrange(0, n as int) =~= labels);
            assert(label_views(parts@).subrange(1, n as int) =~= labels.drop_first());
            reveal_strlit("+");
            reveal_strlit("");
            assert("+"@ =~= complex_wildcard());
            assert(""@ =~= dot_wildcard());
        }
        if same_text(parts[0], "+") {
            Self::insert_inner(&mut self.root, &parts, 1, n, share(&data));
            parts.set(0, "");
            proof {
                assert(label_views(parts@).subrange(0, n as int) =~= labels.update(
                    0,
                    dot_wildcard(),
                ));
            }
            Self::insert_inner(&mut self.root, &parts, 0, n, data);
        } else {
            Self::insert_inner(&mut self.root, &parts, 0, n, data);
        }
        true
    }

    /// Walks from `node` along the labels `parts[from..n]`, the last one
    /// first, makes the nodes that are missing, and stores `data` at the end.
    fn insert_inner(node: &mut Node<T>, parts: &Vec<&str>, from: usize, n: usize, data: Arc<T>)
        requires
            from <= n <= parts.len(),
        ensures
            final(node)@ == old(node)@.insert(
                label_views(parts@).subrange(from as int, n as int).reverse(),
                *data,
            ),
            old(node).wf() ==> final(node).wf(),
        decreases n - from,
    {
        let ghost before = *node;
        let ghost value = held(data);
        let ghost path = label_views(parts@).subrange(from as int, n as int).reverse();
        if n == from {
            node.data = Some(data);
            proof {
                assert(path =~= Seq::<Seq<char>>::empty());
                let target = before@.insert(path, value);
                assert forall|q: Seq<Seq<char>>|
                    #![trigger node@.dom().contains(q)]
                    #![trigger target.dom().contains(q)]
                    (node@.dom().contains(q) <==> target.dom().contains(q)) && (
                    node@.dom().contains(q) ==> node@[q] == target[q]) by {
                    if q.len() > 0 {
                        assert(node.child(q[0]) == before.child(q[0]));
                        assert(node.descend(q) == before.descend(q));
                    } else {
                        assert(q =~= path);
                        assert(node.descend(q) == Some(*node));
                        assert(node.value() == Some(value));
                    }
                }
                assert(node@ =~= target);
                if before.wf() {
                    assert forall|label: Seq<char>| #[trigger]
                        node.child(label) is Some implies node.child(label)->0.wf() by {
                        assert(node.child(label) == before.child(label));
                        lemma_wf_of_child(before, label);
                    }
                    lemma_wf_of_child(before, Seq::empty());
                    lemma_wf_from_children(*node);
                }
            }
            return ;
        }
        let part = parts[n - 1];
        let ghost rest = label_views(parts@).subrange(from as int, n - 1).reverse();
        proof {
            assert(path =~= seq![part@] + rest);
            lemma_below_child(before, part@);
        }
        if !node.has_child(part) {
            node.add_child(part, Node::new());
        }
        proof {
            if before.wf() {
                lemma_wf_of_child(before, part@);
            }
        }
        match node.get_child_mut(part) {
            Some(c) => {
                Self::insert_inner(c, parts, from, n - 1, data);
            },
            None => {},
        }
        proof {
            lemma_insert_below(before, *node, part@, rest, value);
            if before.wf() {
                assert forall|label: Seq<char>| #[trigger]
                    node.child(label) is Some implies node.child(label)->0.wf() by {
                    lemma_wf_of_child(before, label);
                }
                lemma_wf_of_child(before, part@);
                lemma_wf_from_children(*node);
            }
        }
    }

    /// Looks for `domain` and gives the node of the best match. The node
    /// always holds a value.
    pub fn search(&self, domain: &str) -> (res: Option<&Node<T>>)
        ensures
            match search_key(self@, domain@) {
                Some(path) => res is Some && self.root_node().descend(path) == Some(*res->0)
                    && res->0.value() == Some(self@[path]),
                None => res is None,
            },
            res matches Some(node) ==> node.value() is Some,
    {
        let (parts, valid) = valid_and_split_domain(domain);
        if !valid {
            return None;
        }
        let parts = parts.unwrap();
        proof {
            lemma_split_labels_nonempty(domain@);
            assert(label_views(parts@)[0] == parts[0]@);
        }
        if parts[0].is_empty() {
            return None;
        }
        proof {
            assert(label_views(parts@).take(parts.len() as int) =~= label_views(parts@));
            lemma_best_match_is_entry(self@, split_labels(domain@));
        }
        self.search_inner(&self.root, &parts, parts.len())
    }

    /// Matches the first `n` of `parts` against the paths that start at
    /// `node`.
    fn search_inner<'a>(&'a self, node: &'a Node<T>, parts: &Vec<&str>, n: usize) -> (res: Option<
        &'a Node<T>,
    >)
        requires
            n <= parts.len(),
        ensures
            match best_match(node@, label_views(parts@).take(n as int)) {
                Some(path) => res is Some && node.descend(path) == Some(*res->0),
                None => res is None,
            },
        decreases n,
    {
        let ghost labels = label_views(parts@).take(n as int);
        if n == 0 {
            return if node.data.is_some() {
                Some(node)
            } else {
                None
            };
        }
        let part = parts[n - 1];
        proof {
            assert(labels.last() == part@);
            assert(labels.drop_last() =~= label_views(parts@).take(n - 1));
            lemma_below_child(*node, part@);
            lemma_below_child(*node, wildcard());
            lemma_best_match_is_entry(Map::<Seq<Seq<char>>, T>::empty(), labels.drop_last());
            reveal_strlit("*");
            reveal_strlit("");
            assert("*"@ =~= wildcard());
            assert(""@ =~= dot_wildcard());
        }
        if let Some(c) = node.get_child(part) {
            if let Some(found) = self.search_inner(c, parts, n - 1) {
                proof {
                    let below_path = best_match(c@, labels.drop_last())->0;
                    let path = seq![part@] + below_path;
                    assert(path[0] == part@);
                    assert(path.drop_first() =~= below_path);
                }
                return Some(found);
            }
        }
        if let Some(c) = node.get_child("*") {
            if let Some(found) = self.search_inner(c, parts, n - 1) {
                proof {
                    let below_path = best_match(c@, labels.drop_last())->0;
                    let path = seq![wildcard()] + below_path;
                    assert(path[0] == wildcard());
                    assert(path.drop_first() =~= below_path);
                }
                return Some(found);
            }
        }
        proof {
            let path = seq![dot_wildcard()];
            assert(path[0] == dot_wildcard());
            assert(path.drop_first() =~= Seq::<Seq<char>>::empty());
            if let Some(c) = node.child(dot_wildcard()) {
                assert(c.descend(path.drop_first()) == Some(c));
            }
        }
        match node.get_child("") {
            Some(c) => if c.data.is_some() {
                Some(c)
            } else {
                None
            },
            None => None,
        }
    }
}

} // verus!

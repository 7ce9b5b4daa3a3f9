use std::sync::Arc;

use clash_lib::trie::{valid_and_split_domain, Node, StringTrie};

const LOCAL_IP: [u8; 4] = [127, 0, 0, 1];

#[test]
fn test_basic() {
    let mut tree = StringTrie::new();

    let domains = vec!["example.com", "google.com", "localhost"];

    for d in domains {
        tree.insert(d, Arc::new(LOCAL_IP));
    }

    let node = tree.search("example.com").expect("should be not nil");
    assert_eq!(node.get_data(), Some(&LOCAL_IP));
    assert_eq!(tree.insert("", Arc::new(LOCAL_IP)), false);
    assert!(tree.search("").is_none());
    assert!(tree.search("localhost").is_some());
    assert!(tree.search("www.google.com").is_none());
}

#[test]
fn test_wildcard() {
    let mut tree = StringTrie::new();

    let domains = vec![
        "*.example.com",
        "sub.*.example.com",
        "*.dev",
        ".org",
        ".example.net",
        ".apple.*",
        "+.foo.com",
        "+.stun.*.*",
        "+.stun.*.*.*",
        "+.stun.*.*.*.*",
        "stun.l.google.com",
    ];

    for d in domains {
        tree.insert(d, Arc::new(LOCAL_IP));
    }

    assert!(tree.search("sub.example.com").is_some());
    assert!(tree.search("sub.foo.example.com").is_some());
    assert!(tree.search("test.org").is_some());
    assert!(tree.search("test.example.net").is_some());
    assert!(tree.search("test.apple.com").is_some());
    assert!(tree.search("foo.com").is_some());
    assert!(tree.search("global.stun.website.com").is_some());

    assert!(tree.search("foo.sub.example.com").is_none());
    assert!(tree.search("foo.example.dev").is_none());
    assert!(tree.search("example.com").is_none());
}

#[test]
fn test_priority() {
    let mut tree = StringTrie::new();

    let domains = vec![".dev", "example.dev", "*.example.dev", "test.example.dev"];

    for (idx, d) in domains.iter().enumerate() {
        tree.insert(d, Arc::new(idx));
    }

    let assert_fn = |k: &str| -> Arc<usize> { Arc::new(*tree.search(k).unwrap().get_data().unwrap()) };

    assert_eq!(assert_fn("test.dev"), Arc::new(0));
    assert_eq!(assert_fn("foo.bar.dev"), Arc::new(0));
    assert_eq!(assert_fn("example.dev"), Arc::new(1));
    assert_eq!(assert_fn("foo.example.dev"), Arc::new(2));
    assert_eq!(assert_fn("test.example.dev"), Arc::new(3));
}

#[test]
fn test_boundary() {
    let mut tree = StringTrie::new();

    tree.insert("*.dev", Arc::new(LOCAL_IP));
    assert!(!tree.insert(".", Arc::new(LOCAL_IP)));
    assert!(!tree.insert("..dev", Arc::new(LOCAL_IP)));
    assert!(tree.search("dev").is_none());
}

#[test]
fn test_wildcard_boundary() {
    let mut tree = StringTrie::new();
    tree.insert("+.*", Arc::new(LOCAL_IP));
    tree.insert("stun.*.*.*", Arc::new(LOCAL_IP));

    assert!(tree.search("example.com").is_some());
}

#[test]
fn split_keeps_labels_in_order() {
    let (parts, valid) = valid_and_split_domain("www.example.com");
    assert!(valid);
    assert_eq!(parts, Some(vec!["www", "example", "com"]));
    let (parts, valid) = valid_and_split_domain(".dev");
    assert!(valid);
    assert_eq!(parts, Some(vec!["", "dev"]));
    let (parts, valid) = valid_and_split_domain("localhost");
    assert!(valid);
    assert_eq!(parts, Some(vec!["localhost"]));
}

#[test]
fn split_refuses_empty_labels() {
    for d in ["", ".", "..dev", "foo.", "a..b", "a.b."] {
        assert_eq!(valid_and_split_domain(d), (None, false));
    }
}

#[test]
fn refused_insert_leaves_trie_unchanged() {
    let mut tree = StringTrie::new();
    assert!(tree.insert("example.com", Arc::new(1u32)));
    for d in ["", ".", "..dev", "foo."] {
        assert!(!tree.insert(d, Arc::new(2u32)));
    }
    assert_eq!(tree.search("example.com").and_then(|n| n.get_data()), Some(&1));
    assert!(tree.search("dev").is_none());
    assert!(tree.search("foo").is_none());
}

#[test]
fn insert_then_search_finds_the_value() {
    let mut tree = StringTrie::new();
    tree.insert("*.example.com", Arc::new(1u32));
    tree.insert("+.example.com", Arc::new(2u32));
    assert!(tree.insert("www.example.com", Arc::new(3u32)));
    assert_eq!(tree.search("www.example.com").and_then(|n| n.get_data()), Some(&3));
    assert!(tree.insert("www.example.com", Arc::new(4u32)));
    assert_eq!(tree.search("www.example.com").and_then(|n| n.get_data()), Some(&4));
    assert_eq!(tree.search("ftp.example.com").and_then(|n| n.get_data()), Some(&1));
    assert_eq!(tree.search("example.com").and_then(|n| n.get_data()), Some(&2));
    assert_eq!(tree.search("a.b.example.com").and_then(|n| n.get_data()), Some(&2));
}

#[test]
fn unicode_labels_are_split_by_character() {
    let mut tree = StringTrie::new();
    assert!(tree.insert("bücher.example", Arc::new(7u32)));
    assert_eq!(tree.search("bücher.example").and_then(|n| n.get_data()), Some(&7));
    assert!(tree.search("bucher.example").is_none());
}

#[test]
fn node_children_are_kept_by_label() {
    let mut node: Node<u32> = Node::new();
    assert!(node.get_data().is_none());
    assert!(!node.has_child("com"));
    assert!(node.get_child("com").is_none());
    assert!(node.get_child_mut("com").is_none());
    node.add_child("com", Node::new());
    node.add_child("org", Node::new());
    assert!(node.has_child("com"));
    assert!(node.has_child("org"));
    assert!(!node.has_child("net"));
    node.get_child_mut("com").unwrap().add_child("example", Node::new());
    assert!(node.get_child("com").unwrap().has_child("example"));
    assert!(!node.get_child("org").unwrap().has_child("example"));
    node.add_child("com", Node::new());
    assert!(!node.get_child("com").unwrap().has_child("example"));
}

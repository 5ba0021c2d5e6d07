//! The node tree: construction, attribute lookup and navigation.

use platformtree::node::{AttrValue, Tree};

#[test]
fn children_and_parents_link_up() {
    let mut t = Tree::new();
    let root = t.add_root("mcu".to_string(), Some("soc".to_string())).unwrap();
    let a = t.add_child(root, "gpio".to_string(), None).unwrap();
    let b = t.add_child(a, "PortA".to_string(), None).unwrap();
    assert_eq!(t.nodes[root].children, vec![a]);
    assert_eq!(t.nodes[a].parent, Some(root));
    assert_eq!(t.nodes[b].parent, Some(a));
    assert_eq!(t.nodes[b].path, "PortA");
}

#[test]
fn sibling_paths_must_differ() {
    let mut t = Tree::new();
    let root = t.add_root("mcu".to_string(), None).unwrap();
    assert!(t.add_child(root, "gpio".to_string(), None).is_some());
    assert!(t.add_child(root, "gpio".to_string(), None).is_none());
    assert!(t.add_child(root, "timer".to_string(), None).is_some());
}

#[test]
fn root_paths_must_differ() {
    let mut t = Tree::new();
    assert!(t.add_root("mcu".to_string(), None).is_some());
    assert!(t.add_root("mcu".to_string(), None).is_none());
    assert!(t.add_root("os".to_string(), None).is_some());
}

#[test]
fn attribute_keys_are_unique_and_typed() {
    let mut t = Tree::new();
    let root = t.add_root("clock".to_string(), None).unwrap();
    assert!(t.set_attr(root, "source".to_string(), AttrValue::Str("MOSC".to_string())));
    assert!(!t.set_attr(root, "source".to_string(), AttrValue::Str("HOSC".to_string())));
    assert!(t.set_attr(root, "source_frequency".to_string(), AttrValue::Int(16_000_000)));
    assert!(t.set_attr(root, "enabled".to_string(), AttrValue::Bool(true)));
    assert!(t.set_attr(root, "buddy".to_string(), AttrValue::Ref("other".to_string())));
    assert_eq!(
        t.get_string_attr(root, &"source".to_string()),
        Some("MOSC".to_string())
    );
    assert_eq!(t.get_int_attr(root, &"source_frequency".to_string()), Some(16_000_000));
    assert_eq!(t.get_bool_attr(root, &"enabled".to_string()), Some(true));
    assert_eq!(t.get_ref_attr(root, &"buddy".to_string()), Some("other".to_string()));
    // lookups are typed: the wrong getter misses
    assert_eq!(t.get_int_attr(root, &"source".to_string()), None);
    assert_eq!(t.get_string_attr(root, &"missing".to_string()), None);
}

#[test]
fn full_paths_join_with_slashes() {
    let mut t = Tree::new();
    let root = t.add_root("mcu".to_string(), None).unwrap();
    let gpio = t.add_child(root, "gpio".to_string(), None).unwrap();
    let porta = t.add_child(gpio, "PortA".to_string(), None).unwrap();
    let pin = t.add_child(porta, "1".to_string(), Some("led1".to_string())).unwrap();
    assert_eq!(t.full_path(root), "mcu");
    assert_eq!(t.full_path(pin), "mcu/gpio/PortA/1");
}

#[test]
fn find_named_returns_the_first_match() {
    let mut t = Tree::new();
    let root = t.add_root("mcu".to_string(), None).unwrap();
    let a = t.add_child(root, "a".to_string(), Some("x".to_string())).unwrap();
    let _b = t.add_child(root, "b".to_string(), Some("y".to_string())).unwrap();
    assert_eq!(t.find_named(&"x".to_string()), Some(a));
    assert_eq!(t.find_named(&"nope".to_string()), None);
}

use kdl_doc::document::{
    Document, KDL_Document_get, KDL_Document_get_arg, KDL_Document_nodes,
};
use kdl_doc::entry::{Entry, KDL_Entry_name, KDL_Entry_ty, KDL_Entry_value};
use kdl_doc::identifier::{Identifier, KDL_Identifier_value, RawForm};
use kdl_doc::node::{
    KDL_Node_children, KDL_Node_entries, KDL_Node_get_arg, KDL_Node_get_prop, KDL_Node_name,
    KDL_Node_ty, Node,
};
use kdl_doc::value::{Base, StringKind, Value};

fn bare(name: &str) -> Identifier {
    Identifier { raw_form: RawForm::Bare, value: name.to_string() }
}

fn quoted(name: &str) -> Identifier {
    Identifier { raw_form: RawForm::Quoted, value: name.to_string() }
}

fn argument(number: i64) -> Entry {
    Entry { name: None, ty: None, value: Value::Int(number, Base::Ten) }
}

fn property(key: &str, number: i64) -> Entry {
    Entry { name: Some(bare(key)), ty: None, value: Value::Int(number, Base::Ten) }
}

fn node(name: &str, entries: Vec<Entry>) -> Node {
    Node { name: bare(name), ty: None, entries, children: None }
}

fn number(entry: &Entry) -> i64 {
    match KDL_Entry_value(entry) {
        Value::Int(number, _) => *number,
        other => panic!("not an integer: {:?}", other),
    }
}

#[test]
fn document_get_finds_the_first_node_of_that_name() {
    let document = Document {
        nodes: vec![
            node("a", vec![argument(1)]),
            node("b", vec![argument(2)]),
            node("a", vec![argument(3)]),
        ],
    };
    let found = KDL_Document_get(&document, "a").unwrap();
    assert!(std::ptr::eq(found, &document.nodes[0]));
    assert_eq!(number(&found.entries[0]), 1);
    assert!(std::ptr::eq(KDL_Document_get(&document, "b").unwrap(), &document.nodes[1]));
}

#[test]
fn document_get_finds_nothing_where_no_node_has_the_name() {
    let document = Document { nodes: vec![node("a", vec![]), node("b", vec![])] };
    assert!(KDL_Document_get(&document, "c").is_none());
    assert!(KDL_Document_get(&document, "").is_none());
    assert!(KDL_Document_get(&document, "A").is_none());
    assert!(KDL_Document_get(&document, "ab").is_none());
    let empty = Document { nodes: vec![] };
    assert!(KDL_Document_get(&empty, "a").is_none());
}

#[test]
fn document_get_compares_whole_names() {
    let document = Document {
        nodes: vec![node("ab", vec![]), node("a", vec![]), node("\u{e9}", vec![]), node("", vec![])],
    };
    assert!(std::ptr::eq(KDL_Document_get(&document, "a").unwrap(), &document.nodes[1]));
    assert!(std::ptr::eq(KDL_Document_get(&document, "\u{e9}").unwrap(), &document.nodes[2]));
    assert!(std::ptr::eq(KDL_Document_get(&document, "").unwrap(), &document.nodes[3]));
    assert!(KDL_Document_get(&document, "e").is_none());
}

#[test]
fn document_get_ignores_how_the_name_was_written() {
    let document = Document {
        nodes: vec![Node { name: quoted("a b"), ty: None, entries: vec![], children: None }],
    };
    assert!(KDL_Document_get(&document, "a b").is_some());
}

#[test]
fn document_get_does_not_look_into_children() {
    let inner = Document { nodes: vec![node("inner", vec![argument(1)])] };
    let document = Document {
        nodes: vec![Node { name: bare("outer"), ty: None, entries: vec![], children: Some(inner) }],
    };
    assert!(KDL_Document_get(&document, "inner").is_none());
    let outer = KDL_Document_get(&document, "outer").unwrap();
    let children = KDL_Node_children(outer).unwrap();
    assert!(KDL_Document_get(children, "inner").is_some());
    assert_eq!(number_of(KDL_Document_get_arg(children, "inner")), Some(1));
}

fn number_of(value: Option<&Value>) -> Option<i64> {
    value.map(|value| match value {
        Value::Int(number, _) => *number,
        other => panic!("not an integer: {:?}", other),
    })
}

#[test]
fn document_get_arg_is_the_first_argument_of_the_first_node() {
    let document = Document {
        nodes: vec![
            node("a", vec![property("k", 1), argument(2), argument(3)]),
            node("a", vec![argument(4)]),
            node("b", vec![property("k", 5)]),
            node("b", vec![argument(6)]),
            node("c", vec![]),
        ],
    };
    assert_eq!(number_of(KDL_Document_get_arg(&document, "a")), Some(2));
    assert_eq!(number_of(KDL_Document_get_arg(&document, "b")), None);
    assert_eq!(number_of(KDL_Document_get_arg(&document, "c")), None);
    assert_eq!(number_of(KDL_Document_get_arg(&document, "d")), None);
    let found = KDL_Document_get_arg(&document, "a").unwrap();
    assert!(std::ptr::eq(found, &document.nodes[0].entries[1].value));
}

#[test]
fn document_nodes_are_all_nodes_in_order() {
    let document = Document { nodes: vec![node("x", vec![]), node("y", vec![]), node("x", vec![])] };
    let nodes = KDL_Document_nodes(&document);
    assert_eq!(nodes.len(), 3);
    for (i, node) in nodes.iter().enumerate() {
        assert!(std::ptr::eq(node, &document.nodes[i]));
    }
    assert_eq!(KDL_Document_nodes(&Document { nodes: vec![] }).len(), 0);
}

#[test]
fn node_fields() {
    let children = Document { nodes: vec![node("c", vec![])] };
    let subject = Node {
        name: quoted("the name"),
        ty: Some(bare("kind")),
        entries: vec![argument(1), property("k", 2)],
        children: Some(children),
    };
    assert_eq!(KDL_Identifier_value(KDL_Node_name(&subject)), "the name");
    assert!(std::ptr::eq(KDL_Node_name(&subject), &subject.name));
    assert_eq!(KDL_Identifier_value(KDL_Node_ty(&subject).unwrap()), "kind");
    let entries = KDL_Node_entries(&subject);
    assert_eq!(entries.len(), 2);
    assert!(std::ptr::eq(&entries[0], &subject.entries[0]));
    assert!(std::ptr::eq(&entries[1], &subject.entries[1]));
    let found = KDL_Node_children(&subject).unwrap();
    assert!(std::ptr::eq(found, subject.children.as_ref().unwrap()));

    let plain = node("n", vec![]);
    assert!(KDL_Node_ty(&plain).is_none());
    assert!(KDL_Node_children(&plain).is_none());
    assert_eq!(KDL_Node_entries(&plain).len(), 0);
}

#[test]
fn node_get_prop_finds_the_first_property_of_that_key() {
    let subject = node(
        "n",
        vec![argument(0), property("a", 1), property("b", 2), property("a", 3), argument(4)],
    );
    let found = KDL_Node_get_prop(&subject, "a").unwrap();
    assert!(std::ptr::eq(found, &subject.entries[1]));
    assert_eq!(number(found), 1);
    assert_eq!(number(KDL_Node_get_prop(&subject, "b").unwrap()), 2);
    assert!(KDL_Node_get_prop(&subject, "c").is_none());
    assert!(KDL_Node_get_prop(&subject, "").is_none());
    assert!(KDL_Node_get_prop(&node("n", vec![]), "a").is_none());
    assert!(KDL_Node_get_prop(&node("n", vec![argument(1)]), "a").is_none());
}

#[test]
fn node_get_prop_does_not_mistake_a_string_argument_for_a_key() {
    let subject = node(
        "n",
        vec![
            Entry { name: None, ty: None, value: Value::String("a".to_string(), StringKind::Quoted) },
            Entry { name: Some(bare("k")), ty: Some(bare("a")), value: Value::Null },
        ],
    );
    assert!(KDL_Node_get_prop(&subject, "a").is_none());
    assert!(KDL_Node_get_prop(&subject, "k").is_some());
}

#[test]
fn node_get_arg_counts_arguments_only() {
    let subject = node(
        "n",
        vec![property("p", 9), argument(10), property("q", 8), property("r", 7), argument(11), argument(12)],
    );
    assert!(std::ptr::eq(KDL_Node_get_arg(&subject, 0).unwrap(), &subject.entries[1]));
    assert!(std::ptr::eq(KDL_Node_get_arg(&subject, 1).unwrap(), &subject.entries[4]));
    assert!(std::ptr::eq(KDL_Node_get_arg(&subject, 2).unwrap(), &subject.entries[5]));
    assert!(KDL_Node_get_arg(&subject, 3).is_none());
    assert!(KDL_Node_get_arg(&subject, 6).is_none());
    assert!(KDL_Node_get_arg(&subject, usize::MAX).is_none());
    assert!(KDL_Node_get_arg(&subject, usize::MAX - 1).is_none());
}

#[test]
fn node_get_arg_on_nodes_without_arguments() {
    assert!(KDL_Node_get_arg(&node("n", vec![]), 0).is_none());
    assert!(KDL_Node_get_arg(&node("n", vec![property("a", 1)]), 0).is_none());
}

#[test]
fn entry_fields() {
    let subject = Entry {
        name: Some(bare("key")),
        ty: Some(quoted("u 8")),
        value: Value::Int(5, Base::Sixteen),
    };
    assert_eq!(KDL_Identifier_value(KDL_Entry_name(&subject).unwrap()), "key");
    assert!(std::ptr::eq(KDL_Entry_name(&subject).unwrap(), subject.name.as_ref().unwrap()));
    assert_eq!(KDL_Identifier_value(KDL_Entry_ty(&subject).unwrap()), "u 8");
    assert!(std::ptr::eq(KDL_Entry_value(&subject), &subject.value));
    assert!(matches!(KDL_Entry_value(&subject), Value::Int(5, Base::Sixteen)));

    let positional = argument(1);
    assert!(KDL_Entry_name(&positional).is_none());
    assert!(KDL_Entry_ty(&positional).is_none());
}

#[test]
fn identifier_value_and_equality() {
    assert_eq!(KDL_Identifier_value(&bare("node")), "node");
    assert_eq!(KDL_Identifier_value(&quoted("two words")), "two words");
    assert_eq!(KDL_Identifier_value(&quoted("")), "");
    assert!(bare("a") == quoted("a"));
    assert!(bare("a") == bare("a"));
    assert!(bare("a") != bare("b"));
    assert!(bare("a") != quoted("A"));
}

fn same<T>(once: Option<&T>, again: Option<&T>) -> bool {
    match (once, again) {
        (Some(once), Some(again)) => std::ptr::eq(once, again),
        (None, None) => true,
        _ => false,
    }
}

#[test]
fn reading_twice_gives_the_same_answers() {
    let document = Document {
        nodes: vec![
            node("a", vec![property("k", 1), argument(2)]),
            node("b", vec![]),
        ],
    };
    for name in ["a", "b", "c"] {
        assert!(same(KDL_Document_get(&document, name), KDL_Document_get(&document, name)));
        assert!(same(
            KDL_Document_get_arg(&document, name),
            KDL_Document_get_arg(&document, name)
        ));
    }
    assert!(std::ptr::eq(KDL_Document_nodes(&document), KDL_Document_nodes(&document)));
    let subject = &document.nodes[0];
    for key in ["k", "x"] {
        assert!(same(KDL_Node_get_prop(subject, key), KDL_Node_get_prop(subject, key)));
    }
    for index in [0, 1, 2] {
        assert!(same(KDL_Node_get_arg(subject, index), KDL_Node_get_arg(subject, index)));
    }
    assert!(std::ptr::eq(KDL_Node_name(subject), KDL_Node_name(subject)));
    assert!(std::ptr::eq(KDL_Node_entries(subject), KDL_Node_entries(subject)));
    assert!(same(KDL_Node_ty(subject), KDL_Node_ty(subject)));
    assert!(same(KDL_Node_children(subject), KDL_Node_children(subject)));
    assert_eq!(format!("{:?}", document), format!("{:?}", document));
}

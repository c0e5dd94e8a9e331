use gauntlet_ui_core::model::NodeContent;
use gauntlet_ui_core::payload::serialize_tree;
use gauntlet_ui_core::model::Property;
use gauntlet_ui_core::model::PropertyValue;
use gauntlet_ui_core::model::UiError;
use gauntlet_ui_core::model::UiWidget;
use gauntlet_ui_core::model::ValidationError;
use gauntlet_ui_core::schema::ChildrenRule;
use gauntlet_ui_core::schema::ComponentDecl;
use gauntlet_ui_core::schema::ComponentModel;
use gauntlet_ui_core::schema::PropertyDecl;
use gauntlet_ui_core::schema::PropertyType;
use gauntlet_ui_core::tree::WidgetTree;

fn w(id: u32) -> UiWidget {
    UiWidget { widget_id: id }
}

fn text_prop(name: &str, value: &str) -> Property {
    Property { name: name.to_string(), value: PropertyValue::Text(value.to_string()) }
}

fn small_model() -> ComponentModel {
    let decls = vec![
        ComponentDecl {
            name: "root".to_string(),
            props: Vec::new(),
            children: ChildrenRule { kinds: vec!["box".to_string()], allow_text: false },
        },
        ComponentDecl {
            name: "box".to_string(),
            props: vec![
                PropertyDecl { name: "title".to_string(), prop_type: PropertyType::Text },
                PropertyDecl { name: "count".to_string(), prop_type: PropertyType::Number },
                PropertyDecl { name: "onSelect".to_string(), prop_type: PropertyType::Function },
            ],
            children: ChildrenRule { kinds: vec!["box".to_string()], allow_text: true },
        },
    ];
    ComponentModel::new(decls).expect("model has no duplicate declarations")
}

fn snapshot(tree: &WidgetTree) -> Vec<(bool, Option<u32>, Vec<u32>)> {
    tree.nodes
        .iter()
        .map(|n| (n.alive, n.parent, n.children.clone()))
        .collect()
}

#[test]
fn append_builds_child_order() {
    let mut tree = WidgetTree::new("root".to_string());
    let a = tree.create_instance("box".to_string(), Vec::new());
    let b = tree.create_instance("box".to_string(), Vec::new());
    assert_eq!(a, 1);
    assert_eq!(b, 2);
    assert!(tree.append_child(w(0), w(a)).is_ok());
    assert!(tree.append_child(w(0), w(b)).is_ok());
    assert_eq!(tree.nodes[0].children, vec![1, 2]);
}

#[test]
fn unknown_id_is_lookup_error_and_tree_unchanged() {
    let mut tree = WidgetTree::new("root".to_string());
    let a = tree.create_instance("box".to_string(), Vec::new());
    tree.append_child(w(0), w(a)).unwrap();
    let before = snapshot(&tree);
    assert_eq!(tree.append_child(w(0), w(99)), Err(UiError::NotFound));
    assert_eq!(tree.append_child(w(99), w(a)), Err(UiError::NotFound));
    assert_eq!(tree.remove_child(w(0), w(77)), Err(UiError::NotFound));
    assert_eq!(tree.set_text(w(42), "x".to_string()), Err(UiError::NotFound));
    assert_eq!(snapshot(&tree), before);
}

#[test]
fn removed_id_is_lookup_error_afterwards() {
    let mut tree = WidgetTree::new("root".to_string());
    let a = tree.create_instance("box".to_string(), Vec::new());
    let b = tree.create_instance("box".to_string(), Vec::new());
    tree.append_child(w(0), w(a)).unwrap();
    tree.append_child(w(a), w(b)).unwrap();
    tree.remove_child(w(0), w(a)).unwrap();
    let before = snapshot(&tree);
    // both the removed child and its whole subtree are gone
    assert_eq!(tree.append_child(w(0), w(a)), Err(UiError::NotFound));
    assert_eq!(tree.append_child(w(0), w(b)), Err(UiError::NotFound));
    assert_eq!(tree.set_text(w(b), "x".to_string()), Err(UiError::NotFound));
    assert_eq!(snapshot(&tree), before);
}

#[test]
fn remove_detaches_only_the_named_subtree() {
    let mut tree = WidgetTree::new("root".to_string());
    let a = tree.create_instance("box".to_string(), Vec::new());
    let b = tree.create_instance("box".to_string(), Vec::new());
    tree.append_child(w(0), w(a)).unwrap();
    tree.append_child(w(0), w(b)).unwrap();
    tree.remove_child(w(0), w(a)).unwrap();
    assert_eq!(tree.nodes[0].children, vec![b]);
    assert!(tree.nodes[b as usize].alive);
    assert!(!tree.nodes[a as usize].alive);
}

#[test]
fn insert_before_places_child_at_reference_position() {
    let mut tree = WidgetTree::new("root".to_string());
    let a = tree.create_instance("box".to_string(), Vec::new());
    let b = tree.create_instance("box".to_string(), Vec::new());
    let c = tree.create_instance("box".to_string(), Vec::new());
    tree.append_child(w(0), w(a)).unwrap();
    tree.append_child(w(0), w(b)).unwrap();
    assert!(tree.insert_before(w(0), w(c), w(b)).is_ok());
    // c sits immediately before b's original position; a and b keep order
    assert_eq!(tree.nodes[0].children, vec![a, c, b]);
}

#[test]
fn insert_before_fails_if_reference_is_not_a_child() {
    let mut tree = WidgetTree::new("root".to_string());
    let a = tree.create_instance("box".to_string(), Vec::new());
    let b = tree.create_instance("box".to_string(), Vec::new());
    let c = tree.create_instance("box".to_string(), Vec::new());
    tree.append_child(w(0), w(a)).unwrap();
    let before = snapshot(&tree);
    // b was never attached under the root
    assert_eq!(tree.insert_before(w(0), w(c), w(b)), Err(UiError::NotAChild));
    assert_eq!(snapshot(&tree), before);
}

#[test]
fn append_refuses_attached_child_and_cycles() {
    let mut tree = WidgetTree::new("root".to_string());
    let a = tree.create_instance("box".to_string(), Vec::new());
    let b = tree.create_instance("box".to_string(), Vec::new());
    tree.append_child(w(a), w(b)).unwrap();
    assert_eq!(tree.append_child(w(0), w(b)), Err(UiError::AlreadyAttached));
    // attaching a's component below its own descendant would close a cycle
    assert_eq!(tree.append_child(w(b), w(a)), Err(UiError::WouldCycle));
    assert_eq!(tree.append_child(w(a), w(a)), Err(UiError::WouldCycle));
}

#[test]
fn append_to_text_node_is_not_an_element() {
    let mut tree = WidgetTree::new("root".to_string());
    let t = tree.create_text_instance("hi".to_string());
    let a = tree.create_instance("box".to_string(), Vec::new());
    assert_eq!(tree.append_child(w(t), w(a)), Err(UiError::NotAnElement));
    assert_eq!(tree.set_properties(&small_model(), w(t), Vec::new()), Err(UiError::NotAnElement));
    assert_eq!(tree.set_text(w(a), "x".to_string()), Err(UiError::NotAText));
}

#[test]
fn set_properties_replaces_in_place_and_appends() {
    let model = small_model();
    let mut tree = WidgetTree::new("root".to_string());
    let a = tree.create_instance("box".to_string(), vec![text_prop("title", "old")]);
    let batch = vec![
        text_prop("title", "new"),
        Property { name: "count".to_string(), value: PropertyValue::Number(7) },
    ];
    tree.set_properties(&model, w(a), batch).unwrap();
    match &tree.nodes[a as usize].content {
        NodeContent::Element { widget_type, properties } => {
            assert_eq!(widget_type, "box");
            assert_eq!(properties.len(), 2);
            assert_eq!(properties[0].name, "title");
            match &properties[0].value {
                PropertyValue::Text(s) => assert_eq!(s, "new"),
                other => panic!("title is not text: {:?}", other),
            }
            assert_eq!(properties[1].name, "count");
        }
        NodeContent::Text { .. } => panic!("expected an element"),
    }
}

#[test]
fn set_properties_is_atomic_on_invalid_batch() {
    let model = small_model();
    let mut tree = WidgetTree::new("root".to_string());
    let a = tree.create_instance("box".to_string(), vec![text_prop("title", "old")]);
    // one undeclared property poisons the whole batch
    let batch = vec![text_prop("title", "new"), text_prop("bogus", "x")];
    assert_eq!(
        tree.set_properties(&model, w(a), batch),
        Err(UiError::Validation(ValidationError::UndeclaredProperty))
    );
    // one mismatched value tag poisons the whole batch too
    let batch = vec![
        text_prop("title", "new"),
        Property { name: "count".to_string(), value: PropertyValue::Bool(true) },
    ];
    assert_eq!(
        tree.set_properties(&model, w(a), batch),
        Err(UiError::Validation(ValidationError::PropertyTypeMismatch))
    );
    match &tree.nodes[a as usize].content {
        NodeContent::Element { properties, .. } => {
            assert_eq!(properties.len(), 1);
            match &properties[0].value {
                PropertyValue::Text(s) => assert_eq!(s, "old"),
                other => panic!("title is not text: {:?}", other),
            }
        }
        NodeContent::Text { .. } => panic!("expected an element"),
    }
}

#[test]
fn set_properties_unknown_kind_is_validation_error() {
    let model = small_model();
    let mut tree = WidgetTree::new("root".to_string());
    let a = tree.create_instance("mystery".to_string(), Vec::new());
    assert_eq!(
        tree.set_properties(&model, w(a), Vec::new()),
        Err(UiError::Validation(ValidationError::UnknownKind))
    );
}

#[test]
fn set_text_then_serialize_shows_only_new_text() {
    let mut tree = WidgetTree::new("root".to_string());
    let container = tree.create_instance("box".to_string(), Vec::new());
    let text = tree.create_text_instance("Hello".to_string());
    assert_eq!(container, 1);
    assert_eq!(text, 2);
    tree.append_child(w(0), w(container)).unwrap();
    tree.append_child(w(container), w(text)).unwrap();
    tree.set_text(w(text), "Goodbye".to_string()).unwrap();
    let payload = serialize_tree(&tree);
    assert_eq!(payload.nodes.len(), 3);
    assert_eq!(payload.nodes[1].id, 1);
    assert_eq!(payload.nodes[2].id, 2);
    assert_eq!(payload.nodes[2].parent_index, Some(1));
    let mut texts = Vec::new();
    for node in &payload.nodes {
        if let NodeContent::Text { text } = &node.content {
            texts.push(text.clone());
        }
    }
    assert_eq!(texts, vec!["Goodbye".to_string()]);
}

#[test]
fn clone_instance_gets_fresh_id() {
    let mut tree = WidgetTree::new("root".to_string());
    let a = tree.create_instance("box".to_string(), vec![text_prop("title", "t")]);
    let b = tree.clone_instance("box".to_string(), vec![text_prop("title", "t")]);
    assert_ne!(a, b);
    assert_eq!(b, 2);
    assert!(tree.nodes[b as usize].parent.is_none());
}

#[test]
fn duplicate_names_in_one_batch_apply_in_order() {
    let model = small_model();
    let mut tree = WidgetTree::new("root".to_string());
    let a = tree.create_instance("box".to_string(), Vec::new());
    let batch = vec![text_prop("title", "first"), text_prop("title", "second")];
    tree.set_properties(&model, w(a), batch).unwrap();
    match &tree.nodes[a as usize].content {
        NodeContent::Element { properties, .. } => {
            assert_eq!(properties.len(), 1);
            match &properties[0].value {
                PropertyValue::Text(s) => assert_eq!(s, "second"),
                other => panic!("title is not text: {:?}", other),
            }
        }
        NodeContent::Text { .. } => panic!("expected an element"),
    }
}

#[test]
fn get_container_is_the_singleton_root() {
    let tree = WidgetTree::new("root".to_string());
    assert_eq!(tree.get_container().widget_id, 0);
}

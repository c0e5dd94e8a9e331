use gauntlet_ui_core::gather::GatherOutcome;
use gauntlet_ui_core::gather::ImageGatherer;
use gauntlet_ui_core::gather::ImageSource;
use gauntlet_ui_core::model::NativeUiPropertyValue;
use gauntlet_ui_core::model::NodeContent;
use gauntlet_ui_core::model::Property;
use gauntlet_ui_core::model::PropertyValue;
use gauntlet_ui_core::model::UiError;
use gauntlet_ui_core::model::UiWidget;
use gauntlet_ui_core::model::ValidationError;
use gauntlet_ui_core::payload::serialize_tree;
use gauntlet_ui_core::payload::validate_payload;
use gauntlet_ui_core::payload::PayloadNode;
use gauntlet_ui_core::payload::RenderPayload;
use gauntlet_ui_core::schema::ChildrenRule;
use gauntlet_ui_core::schema::ComponentDecl;
use gauntlet_ui_core::schema::ComponentModel;
use gauntlet_ui_core::schema::PropertyDecl;
use gauntlet_ui_core::schema::PropertyType;
use gauntlet_ui_core::tree::WidgetTree;
use gauntlet_ui_core::wire::from_dbus;
use gauntlet_ui_core::wire::DBusUiPropertyContainer;
use gauntlet_ui_core::wire::DBusUiPropertyValueType;
use gauntlet_ui_core::wire::WireValue;

fn w(id: u32) -> UiWidget {
    UiWidget { widget_id: id }
}

fn text_prop(name: &str, value: &str) -> Property {
    Property { name: name.to_string(), value: PropertyValue::Text(value.to_string()) }
}

fn image_model() -> ComponentModel {
    let decls = vec![
        ComponentDecl {
            name: "root".to_string(),
            props: Vec::new(),
            children: ChildrenRule { kinds: vec!["image".to_string()], allow_text: false },
        },
        ComponentDecl {
            name: "image".to_string(),
            props: vec![
                PropertyDecl { name: "sourceAsset".to_string(), prop_type: PropertyType::Text },
                PropertyDecl { name: "sourceUrl".to_string(), prop_type: PropertyType::Text },
            ],
            children: ChildrenRule { kinds: Vec::new(), allow_text: false },
        },
    ];
    ComponentModel::new(decls).expect("model has no duplicate declarations")
}

#[test]
fn built_tree_serializes_to_accepted_payload() {
    let model = image_model();
    let mut tree = WidgetTree::new("root".to_string());
    let a = tree.create_instance(
        "image".to_string(),
        vec![text_prop("sourceAsset", "icon.png")],
    );
    let b = tree.create_instance("image".to_string(), Vec::new());
    tree.append_child(w(0), w(a)).unwrap();
    tree.append_child(w(0), w(b)).unwrap();
    let payload = serialize_tree(&tree);
    assert_eq!(validate_payload(&payload, &model), Ok(()));
}

#[test]
fn extra_undeclared_property_is_rejected() {
    let model = image_model();
    let mut tree = WidgetTree::new("root".to_string());
    let a = tree.create_instance(
        "image".to_string(),
        vec![text_prop("sourceAsset", "icon.png"), text_prop("surprise", "x")],
    );
    tree.append_child(w(0), w(a)).unwrap();
    let payload = serialize_tree(&tree);
    assert_eq!(
        validate_payload(&payload, &model),
        Err(ValidationError::UndeclaredProperty)
    );
}

#[test]
fn unknown_kind_and_bad_child_are_rejected() {
    let model = image_model();
    let mut tree = WidgetTree::new("root".to_string());
    let a = tree.create_instance("mystery".to_string(), Vec::new());
    tree.append_child(w(0), w(a)).unwrap();
    let payload = serialize_tree(&tree);
    assert_eq!(validate_payload(&payload, &model), Err(ValidationError::UnknownKind));

    let mut tree = WidgetTree::new("root".to_string());
    let t = tree.create_text_instance("hi".to_string());
    tree.append_child(w(0), w(t)).unwrap();
    let payload = serialize_tree(&tree);
    // the root declaration does not accept text children
    assert_eq!(validate_payload(&payload, &model), Err(ValidationError::TextNotPermitted));
}

#[test]
fn impermissible_child_kind_is_rejected() {
    let model = image_model();
    let mut tree = WidgetTree::new("root".to_string());
    let a = tree.create_instance("root".to_string(), Vec::new());
    // "root" is declared, but not a permitted child of "root"
    tree.append_child(w(0), w(a)).unwrap();
    let payload = serialize_tree(&tree);
    assert_eq!(
        validate_payload(&payload, &model),
        Err(ValidationError::ChildKindNotPermitted)
    );
}

#[test]
fn malformed_structure_is_rejected() {
    let model = image_model();
    let empty = RenderPayload { nodes: Vec::new() };
    assert_eq!(validate_payload(&empty, &model), Err(ValidationError::MalformedStructure));

    let duplicate_ids = RenderPayload {
        nodes: vec![
            PayloadNode {
                id: 0,
                content: NodeContent::Element {
                    widget_type: "root".to_string(),
                    properties: Vec::new(),
                },
                parent_index: None,
            },
            PayloadNode {
                id: 0,
                content: NodeContent::Element {
                    widget_type: "image".to_string(),
                    properties: Vec::new(),
                },
                parent_index: Some(0),
            },
        ],
    };
    assert_eq!(
        validate_payload(&duplicate_ids, &model),
        Err(ValidationError::MalformedStructure)
    );
}

#[test]
fn gatherer_collects_each_image_node_once() {
    let model = image_model();
    let mut tree = WidgetTree::new("root".to_string());
    let a = tree.create_instance(
        "image".to_string(),
        vec![text_prop("sourceAsset", "icon.png")],
    );
    let b = tree.create_instance(
        "image".to_string(),
        vec![text_prop("sourceUrl", "https://example.invalid/x.png")],
    );
    let c = tree.create_instance("image".to_string(), Vec::new());
    tree.append_child(w(0), w(a)).unwrap();
    tree.append_child(w(0), w(b)).unwrap();
    tree.append_child(w(0), w(c)).unwrap();
    let payload = serialize_tree(&tree);
    assert_eq!(validate_payload(&payload, &model), Ok(()));
    let requests = ImageGatherer::gather_image_requests(&payload);
    assert_eq!(requests.len(), 2);
    assert_eq!(requests[0].0, a);
    match &requests[0].1 {
        ImageSource::ImageSourceAsset { asset } => assert_eq!(asset, "icon.png"),
        ImageSource::ImageSourceUrl { .. } => panic!("expected a bundled asset"),
    }
    assert_eq!(requests[1].0, b);
    match &requests[1].1 {
        ImageSource::ImageSourceUrl { url } => {
            assert_eq!(url, "https://example.invalid/x.png")
        }
        ImageSource::ImageSourceAsset { .. } => panic!("expected a remote locator"),
    }
}

#[test]
fn gatherer_isolates_failures_per_node() {
    // three image-bearing nodes, one configured to fail: two payloads come
    // back, one failure is reported, nothing aborts, one outcome per id
    let requests = vec![
        (4u32, ImageSource::ImageSourceAsset { asset: "a".to_string() }),
        (7u32, ImageSource::ImageSourceUrl { url: "https://example.invalid/b".to_string() }),
        (9u32, ImageSource::ImageSourceAsset { asset: "c".to_string() }),
    ];
    let outcomes: Vec<Result<Vec<u8>, String>> = vec![
        Ok(vec![1, 2, 3]),
        Err("connection refused".to_string()),
        Ok(vec![9]),
    ];
    let GatherOutcome { resolved, failed } = ImageGatherer::run_gatherer(requests, outcomes);
    assert_eq!(resolved.len(), 2);
    assert_eq!(failed.len(), 1);
    assert_eq!(resolved[0], (4, vec![1, 2, 3]));
    assert_eq!(resolved[1], (9, vec![9]));
    assert_eq!(failed[0].0, 7);
    assert_eq!(failed[0].1, "connection refused");
    let mut ids: Vec<u32> = resolved.iter().map(|r| r.0).chain(failed.iter().map(|f| f.0)).collect();
    ids.sort();
    ids.dedup();
    assert_eq!(ids.len(), 3);
}

#[test]
fn wire_decode_accepts_matching_tags() {
    let container = DBusUiPropertyContainer {
        properties: vec![
            (
                "title".to_string(),
                (DBusUiPropertyValueType::Text, WireValue::Str("hello".to_string())),
            ),
            ("count".to_string(), (DBusUiPropertyValueType::Number, WireValue::Number(42))),
            ("flag".to_string(), (DBusUiPropertyValueType::Bool, WireValue::Bool(true))),
            ("onSelect".to_string(), (DBusUiPropertyValueType::Function, WireValue::Other)),
        ],
    };
    let decoded = from_dbus(container).expect("all tags match");
    assert_eq!(decoded.len(), 4);
    assert_eq!(decoded[0].0, "title");
    match &decoded[0].1 {
        NativeUiPropertyValue::Text(s) => assert_eq!(s, "hello"),
        other => panic!("expected text, got {:?}", other),
    }
    match decoded[1].1 {
        NativeUiPropertyValue::Number(x) => assert_eq!(x, 42),
        ref other => panic!("expected a number, got {:?}", other),
    }
    match decoded[2].1 {
        NativeUiPropertyValue::Bool(b) => assert!(b),
        ref other => panic!("expected a bool, got {:?}", other),
    }
    assert!(matches!(decoded[3].1, NativeUiPropertyValue::Function));
}

#[test]
fn wire_decode_rejects_mismatched_tag() {
    let container = DBusUiPropertyContainer {
        properties: vec![
            (
                "title".to_string(),
                (DBusUiPropertyValueType::Text, WireValue::Str("ok".to_string())),
            ),
            ("count".to_string(), (DBusUiPropertyValueType::Number, WireValue::Bool(false))),
        ],
    };
    assert_eq!(
        from_dbus(container).unwrap_err(),
        UiError::Validation(ValidationError::PropertyTypeMismatch)
    );
}

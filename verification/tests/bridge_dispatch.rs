use gauntlet_ui_core::bridge::PollOutcome;
use gauntlet_ui_core::bridge::RequestBridge;
use gauntlet_ui_core::dispatch::EventPoll;
use gauntlet_ui_core::host::HostState;
use gauntlet_ui_core::host::UiResponse;
use gauntlet_ui_core::model::UiError;
use gauntlet_ui_core::model::UiEvent;
use gauntlet_ui_core::model::UiRequestData;
use gauntlet_ui_core::model::UiResponseData;
use gauntlet_ui_core::model::UiWidget;
use gauntlet_ui_core::model::ValidationError;
use gauntlet_ui_core::ops;
use gauntlet_ui_core::ops::JsUiPropertyValue;
use gauntlet_ui_core::ops::PluginData;
use gauntlet_ui_core::ops::PluginRuntime;
use gauntlet_ui_core::ops::ReactContext;
use gauntlet_ui_core::payload::serialize_tree;
use gauntlet_ui_core::schema::ChildrenRule;
use gauntlet_ui_core::schema::ComponentDecl;
use gauntlet_ui_core::schema::ComponentModel;
use gauntlet_ui_core::schema::PropertyDecl;
use gauntlet_ui_core::schema::PropertyType;
use gauntlet_ui_core::tree::WidgetTree;

fn w(id: u32) -> UiWidget {
    UiWidget { widget_id: id }
}

fn small_model() -> ComponentModel {
    let decls = vec![
        ComponentDecl {
            name: "root".to_string(),
            props: Vec::new(),
            children: ChildrenRule { kinds: vec!["box".to_string()], allow_text: true },
        },
        ComponentDecl {
            name: "box".to_string(),
            props: vec![
                PropertyDecl { name: "title".to_string(), prop_type: PropertyType::Text },
                PropertyDecl { name: "onSelect".to_string(), prop_type: PropertyType::Function },
            ],
            children: ChildrenRule { kinds: vec!["box".to_string()], allow_text: true },
        },
    ];
    ComponentModel::new(decls).expect("model has no duplicate declarations")
}

fn take_ready(
    bridge: &mut RequestBridge<UiRequestData, UiResponse>,
    rid: usize,
) -> UiResponse {
    match bridge.try_take_reply(rid) {
        PollOutcome::Ready(resp) => resp,
        PollOutcome::Pending => panic!("reply is still pending"),
        PollOutcome::Disconnected => panic!("bridge is disconnected"),
    }
}

#[test]
fn ops_round_trip_through_host() {
    let mut ctx = ReactContext::new();
    let mut host = HostState::new("root".to_string(), small_model());
    let r0 = ops::op_gtk_get_container(&mut ctx);
    let r1 = ops::op_gtk_create_instance(&mut ctx, "box".to_string());
    let r2 = ops::op_gtk_create_text_instance(&mut ctx, "Hello".to_string());
    gauntlet_ui_core::host::process_requests(&mut host, &mut ctx.bridge);
    match take_ready(&mut ctx.bridge, r0) {
        Ok(UiResponseData::GetContainer { container }) => assert_eq!(container.widget_id, 0),
        other => panic!("unexpected response: {:?}", other),
    }
    let a = match take_ready(&mut ctx.bridge, r1) {
        Ok(UiResponseData::CreateInstance { widget }) => widget,
        other => panic!("unexpected response: {:?}", other),
    };
    let t = match take_ready(&mut ctx.bridge, r2) {
        Ok(UiResponseData::CreateTextInstance { widget }) => widget,
        other => panic!("unexpected response: {:?}", other),
    };
    assert_eq!(a.widget_id, 1);
    assert_eq!(t.widget_id, 2);
    let r3 = ops::op_gtk_append_child(&mut ctx, w(0), a);
    let r4 = ops::op_gtk_append_child(&mut ctx, a, t);
    let r5 = ops::op_gtk_set_text(&mut ctx, t, "Goodbye".to_string());
    gauntlet_ui_core::host::process_requests(&mut host, &mut ctx.bridge);
    assert!(matches!(take_ready(&mut ctx.bridge, r3), Ok(UiResponseData::Unit)));
    assert!(matches!(take_ready(&mut ctx.bridge, r4), Ok(UiResponseData::Unit)));
    assert!(matches!(take_ready(&mut ctx.bridge, r5), Ok(UiResponseData::Unit)));
    // the host-side tree now carries the text under the container
    assert_eq!(host.tree.nodes[0].children, vec![1]);
    assert_eq!(host.tree.nodes[1].children, vec![2]);
}

#[test]
fn host_answers_failures_without_dropping_requests() {
    let mut ctx = ReactContext::new();
    let mut host = HostState::new("root".to_string(), small_model());
    let r0 = ops::op_gtk_append_child(&mut ctx, w(0), w(55));
    let r1 = ops::op_gtk_remove_child(&mut ctx, w(0), w(1));
    gauntlet_ui_core::host::process_requests(&mut host, &mut ctx.bridge);
    assert!(matches!(take_ready(&mut ctx.bridge, r0), Err(UiError::NotFound)));
    assert!(matches!(take_ready(&mut ctx.bridge, r1), Err(UiError::NotFound)));
}

#[test]
fn dropped_reply_slot_surfaces_disconnect_not_a_hang() {
    let mut ctx = ReactContext::new();
    let rid = ops::op_gtk_get_container(&mut ctx);
    // the request is in flight, so the caller would wait
    assert!(matches!(ctx.bridge.try_take_reply(rid), PollOutcome::Pending));
    // the host tears the bridge down mid-call: the waiter resolves at once
    ctx.bridge.teardown();
    assert!(matches!(ctx.bridge.try_take_reply(rid), PollOutcome::Disconnected));
    // a submission after teardown is born disconnected, it never hangs either
    let rid2 = ops::op_gtk_get_container(&mut ctx);
    assert!(matches!(ctx.bridge.try_take_reply(rid2), PollOutcome::Disconnected));
}

#[test]
fn one_reply_per_request() {
    let mut bridge: RequestBridge<UiRequestData, UiResponse> = RequestBridge::new();
    let rid = bridge.submit(UiRequestData::GetContainer);
    let env = bridge.host_next().expect("one envelope is queued");
    assert_eq!(env.0, rid);
    assert!(bridge.host_reply(rid, Ok(UiResponseData::Unit)).is_ok());
    // a second deposit on the same slot is refused and handed back
    assert!(bridge.host_reply(rid, Ok(UiResponseData::Unit)).is_err());
    assert!(matches!(bridge.try_take_reply(rid), PollOutcome::Ready(_)));
    // the reply is consumed; the one-shot slot never yields it twice
    assert!(matches!(bridge.try_take_reply(rid), PollOutcome::Disconnected));
}

#[test]
fn event_poll_drains_then_disconnects() {
    let mut ctx = ReactContext::new();
    ctx.receiver.host_push(UiEvent { widget_id: 5, event_name: "onSelect".to_string() });
    ctx.receiver.teardown();
    match ops::op_get_next_pending_ui_event(&mut ctx) {
        EventPoll::Ready(ev) => {
            assert_eq!(ev.widget_id, 5);
            assert_eq!(ev.event_name, "onSelect");
        }
        EventPoll::Pending => panic!("expected the queued event, not a wait"),
        EventPoll::Disconnected => panic!("expected the queued event, not a disconnect"),
    }
    assert!(matches!(ops::op_get_next_pending_ui_event(&mut ctx), EventPoll::Disconnected));
}

#[test]
fn event_poll_waits_while_connected() {
    let mut ctx = ReactContext::new();
    assert!(matches!(ops::op_get_next_pending_ui_event(&mut ctx), EventPoll::Pending));
}

#[test]
fn listener_dispatch_invokes_exactly_the_registered_callback() {
    let mut ctx = ReactContext::new();
    let props = vec![
        ("onSelect".to_string(), JsUiPropertyValue::Function(101)),
        ("title".to_string(), JsUiPropertyValue::Text("x".to_string())),
    ];
    let (_, pending) = ops::op_gtk_set_properties(&mut ctx, w(5), props);
    ops::complete_set_properties(&mut ctx, w(5), pending, &Ok(UiResponseData::Unit));
    let other = vec![("onSelect".to_string(), JsUiPropertyValue::Function(202))];
    let (_, pending) = ops::op_gtk_set_properties(&mut ctx, w(6), other);
    ops::complete_set_properties(&mut ctx, w(6), pending, &Ok(UiResponseData::Unit));
    // deliver {widget: 5, event: onSelect}: exactly callback 101 runs
    let name = "onSelect".to_string();
    let run = ops::op_call_event_listener(&mut ctx, w(5), &name);
    assert_eq!(run, Some(101));
    assert_eq!(ctx.handlers.scheduled, vec![101]);
    // other widgets' and other names' callbacks are untouched
    let wrong_name = "onOpen".to_string();
    assert_eq!(ops::op_call_event_listener(&mut ctx, w(5), &wrong_name), None);
    assert_eq!(ops::op_call_event_listener(&mut ctx, w(7), &name), None);
    assert_eq!(ctx.handlers.scheduled, vec![101]);
}

#[test]
fn set_properties_filters_children_and_converts_tags() {
    let mut ctx = ReactContext::new();
    let props = vec![
        ("children".to_string(), JsUiPropertyValue::Text("dropped".to_string())),
        ("title".to_string(), JsUiPropertyValue::Text("kept".to_string())),
        ("onSelect".to_string(), JsUiPropertyValue::Function(7)),
    ];
    let (_, pending) = ops::op_gtk_set_properties(&mut ctx, w(3), props);
    // the registrations wait for the host's acceptance
    assert_eq!(pending, vec![("onSelect".to_string(), 7)]);
    assert!(ctx.handlers.inner.listeners.is_empty());
    let env = ctx.bridge.host_next().expect("the request was queued");
    match env.1 {
        UiRequestData::SetProperties { widget, properties } => {
            assert_eq!(widget.widget_id, 3);
            assert_eq!(properties.len(), 2);
            assert_eq!(properties[0].name, "title");
            assert_eq!(properties[1].name, "onSelect");
            assert!(matches!(
                properties[1].value,
                gauntlet_ui_core::model::PropertyValue::Function
            ));
        }
        other => panic!("unexpected request: {:?}", other),
    }
}

#[test]
fn replace_view_validates_before_submitting() {
    let model = small_model();
    let mut rt = PluginRuntime {
        data: PluginData {
            inline_view_entrypoint_id: Some("inline".to_string()),
            entrypoint_names: vec![("main".to_string(), "Main View".to_string())],
        },
        component_model: model,
        backend: RequestBridge::new(),
    };
    let mut tree = WidgetTree::new("root".to_string());
    let a = tree.create_instance("box".to_string(), Vec::new());
    tree.append_child(w(0), w(a)).unwrap();
    let good = serialize_tree(&tree);
    let r = ops::op_react_replace_view(
        &mut rt,
        gauntlet_ui_core::model::JsUiRenderLocation::View,
        true,
        "main".to_string(),
        "Main View".to_string(),
        good,
    );
    assert!(r.is_ok());
    assert_eq!(rt.backend.queue.len(), 1);

    // a tree with an undeclared kind is rejected and nothing is posted
    let mut bad_tree = WidgetTree::new("root".to_string());
    let b = bad_tree.create_instance("mystery".to_string(), Vec::new());
    bad_tree.append_child(w(0), w(b)).unwrap();
    let bad = serialize_tree(&bad_tree);
    let r = ops::op_react_replace_view(
        &mut rt,
        gauntlet_ui_core::model::JsUiRenderLocation::View,
        true,
        "main".to_string(),
        "Main View".to_string(),
        bad,
    );
    assert_eq!(r, Err(UiError::Validation(ValidationError::UnknownKind)));
    assert_eq!(rt.backend.queue.len(), 1);

    // an unknown entrypoint identity is rejected before validation
    let mut tree2 = WidgetTree::new("root".to_string());
    let c = tree2.create_instance("box".to_string(), Vec::new());
    tree2.append_child(w(0), w(c)).unwrap();
    let ok_payload = serialize_tree(&tree2);
    let r = ops::op_react_replace_view(
        &mut rt,
        gauntlet_ui_core::model::JsUiRenderLocation::InlineView,
        false,
        "nobody".to_string(),
        "Nobody".to_string(),
        ok_payload,
    );
    assert_eq!(r, Err(UiError::Validation(ValidationError::UnknownEntrypoint)));
    assert_eq!(rt.backend.queue.len(), 1);
}

#[test]
fn shortcut_reply_and_asset_request() {
    let mut rt = PluginRuntime {
        data: PluginData {
            inline_view_entrypoint_id: None,
            entrypoint_names: vec![("main".to_string(), "Main".to_string())],
        },
        component_model: small_model(),
        backend: RequestBridge::new(),
    };
    let rid = ops::fetch_action_id_for_shortcut(
        &mut rt,
        "main".to_string(),
        "k".to_string(),
        true,
        false,
        false,
        false,
    );
    let env = rt.backend.host_next().expect("the lookup was queued");
    assert_eq!(env.0, rid);
    assert!(matches!(env.1, ops::HostRequest::GetActionIdForShortcut { .. }));
    rt.backend
        .host_reply(rid, ops::HostResponse::ActionId(Some("copy".to_string())))
        .ok()
        .expect("one reply is accepted");
    let resp = match rt.backend.try_take_reply(rid) {
        gauntlet_ui_core::bridge::PollOutcome::Ready(resp) => resp,
        _ => panic!("the reply was deposited"),
    };
    assert_eq!(ops::complete_action_id(resp), Some("copy".to_string()));

    let rid2 = ops::get_asset_data(&mut rt, "icon.png".to_string());
    let env2 = rt.backend.host_next().expect("the fetch was queued");
    assert_eq!(env2.0, rid2);
    assert!(matches!(env2.1, ops::HostRequest::GetAssetData { .. }));
}

#[test]
fn later_function_registration_wins() {
    let mut ctx = ReactContext::new();
    let props = vec![
        ("onSelect".to_string(), JsUiPropertyValue::Function(1)),
        ("onSelect".to_string(), JsUiPropertyValue::Function(2)),
    ];
    let (_, pending) = ops::op_gtk_set_properties(&mut ctx, w(4), props);
    ops::complete_set_properties(&mut ctx, w(4), pending, &Ok(UiResponseData::Unit));
    let name = "onSelect".to_string();
    assert_eq!(ops::op_call_event_listener(&mut ctx, w(4), &name), Some(2));
}

#[test]
fn refused_batch_registers_no_listener() {
    // a batch the host rejects applies no property and installs no callback
    let mut ctx = ReactContext::new();
    let mut host = HostState::new("root".to_string(), small_model());
    let create = ops::op_gtk_create_instance(&mut ctx, "box".to_string());
    gauntlet_ui_core::host::process_requests(&mut host, &mut ctx.bridge);
    let a = match take_ready(&mut ctx.bridge, create) {
        Ok(UiResponseData::CreateInstance { widget }) => widget,
        other => panic!("unexpected response: {:?}", other),
    };
    let props = vec![
        ("onSelect".to_string(), JsUiPropertyValue::Function(7)),
        ("bogus".to_string(), JsUiPropertyValue::Text("x".to_string())),
    ];
    let (rid, pending) = ops::op_gtk_set_properties(&mut ctx, a, props);
    gauntlet_ui_core::host::process_requests(&mut host, &mut ctx.bridge);
    let resp = take_ready(&mut ctx.bridge, rid);
    assert!(matches!(
        resp,
        Err(UiError::Validation(ValidationError::UndeclaredProperty))
    ));
    ops::complete_set_properties(&mut ctx, a, pending, &resp);
    // neither the tree nor the dispatcher changed
    match &host.tree.nodes[a.widget_id as usize].content {
        gauntlet_ui_core::model::NodeContent::Element { properties, .. } => {
            assert!(properties.is_empty())
        }
        _ => panic!("expected an element"),
    }
    let name = "onSelect".to_string();
    assert_eq!(ops::op_call_event_listener(&mut ctx, a, &name), None);
    assert!(ctx.handlers.scheduled.is_empty());
}

#[test]
fn plugin_reads_and_notices() {
    let mut rt = PluginRuntime {
        data: PluginData {
            inline_view_entrypoint_id: None,
            entrypoint_names: vec![("main".to_string(), "Main".to_string())],
        },
        component_model: small_model(),
        backend: RequestBridge::new(),
    };
    assert!(ops::op_inline_view_entrypoint_id(&rt).is_none());
    assert_eq!(ops::op_entrypoint_names(&rt).len(), 1);
    assert_eq!(ops::op_component_model(&rt).len(), 2);
    ops::show_hud(&mut rt, "Copied".to_string());
    ops::hide_window(&mut rt);
    ops::clear_inline_view(&mut rt);
    ops::update_loading_bar(&mut rt, "main".to_string(), true);
    ops::show_plugin_error_view(
        &mut rt,
        "main".to_string(),
        gauntlet_ui_core::model::JsUiRenderLocation::View,
    );
    ops::show_preferences_required_view(&mut rt, "main".to_string(), true, false);
    ops::fetch_action_id_for_shortcut(
        &mut rt,
        "main".to_string(),
        "k".to_string(),
        false,
        true,
        false,
        false,
    );
    assert_eq!(rt.backend.queue.len(), 7);
    let first = rt.backend.host_next().expect("first notice");
    assert!(matches!(first.1, ops::HostRequest::ShowHud { .. }));
}

//! The capability op surface: the enumerated operations sandboxed code may
//! invoke. Each op validates its arguments, then either reads host-held state
//! synchronously or posts a typed request envelope on a bridge and hands the
//! caller the request id to await. Fire-and-forget ops acknowledge submission
//! only; awaited ops complete when the caller takes the reply.

use vstd::prelude::*;
use vstd::string::StringExecFns;

use crate::bridge::RequestBridge;
use crate::dispatch::EventHandlers;
use crate::dispatch::EventPoll;
use crate::dispatch::EventReceiver;
use crate::dispatch::HandlerId;
use crate::host::UiResponse;
use crate::model::EntrypointId;
use crate::model::JsUiRenderLocation;
use crate::model::Property;
use crate::model::PropertyValue;
use crate::model::UiError;
use crate::model::UiEventName;
use crate::model::UiRenderLocation;
use crate::model::UiRequestData;
use crate::model::UiResponseData;
use crate::model::UiWidget;
use crate::model::ValidationError;
use crate::payload::payload_valid;
use crate::payload::validate_payload;
use crate::payload::RenderPayload;
use crate::schema::ComponentDecl;
use crate::schema::ComponentModel;

verus! {

/// A property value as the scripting interpreter hands it across: functions
/// arrive as opaque callback handles from the sandbox's indirection table.
pub enum JsUiPropertyValue {
    Function(HandlerId),
    Text(String),
    Number(u64),
    Bool(bool),
}

/// The sandbox side of the react renderer: the bridge to the host, the
/// callback registrations, and the pending-event queue.
pub struct ReactContext {
    pub bridge: RequestBridge<UiRequestData, UiResponse>,
    pub handlers: EventHandlers,
    pub receiver: EventReceiver,
}

impl ReactContext {
    pub open spec fn wf(self) -> bool {
        self.bridge.wf() && self.handlers.wf()
    }

    pub fn new() -> (c: ReactContext)
        ensures
            c.wf(),
            c.bridge.queue@.len() == 0,
            c.bridge.slots@.len() == 0,
            c.bridge.connected,
            c.handlers.inner.listeners@.len() == 0,
            c.handlers.scheduled@.len() == 0,
            c.receiver.pending@.len() == 0,
            c.receiver.connected,
    {
        ReactContext {
            bridge: RequestBridge::new(),
            handlers: EventHandlers::new(),
            receiver: EventReceiver::new(),
        }
    }
}

/// Posts one request envelope for the host and returns the id under which
/// the reply will arrive.
pub fn make_request(
    bridge: &mut RequestBridge<UiRequestData, UiResponse>,
    data: UiRequestData,
) -> (rid: usize)
    requires
        old(bridge).wf(),
        old(bridge).slots@.len() < usize::MAX as int,
    ensures
        final(bridge).wf(),
        rid as int == old(bridge).slots@.len(),
        crate::bridge::submission(*old(bridge), *final(bridge), rid),
        old(bridge).connected ==> final(bridge).queue@ == old(bridge).queue@.push((rid, data)),
        !old(bridge).connected ==> final(bridge).queue@ == old(bridge).queue@
            && final(bridge).slots@[rid as int] is Dropped,
{
    bridge.submit(data)
}

/// Asks the host for the singleton root container of the render location.
pub fn op_gtk_get_container(ctx: &mut ReactContext) -> (rid: usize)
    requires
        old(ctx).wf(),
        old(ctx).bridge.slots@.len() < usize::MAX as int,
    ensures
        final(ctx).wf(),
        rid as int == old(ctx).bridge.slots@.len(),
        crate::bridge::submission(old(ctx).bridge, final(ctx).bridge, rid),
        final(ctx).handlers == old(ctx).handlers,
        final(ctx).receiver == old(ctx).receiver,
        old(ctx).bridge.connected ==> final(ctx).bridge.queue@ == old(ctx).bridge.queue@.push(
            (rid, UiRequestData::GetContainer),
        ),
{
    make_request(&mut ctx.bridge, UiRequestData::GetContainer)
}

/// Asks the host to append `child` at the end of `parent`'s child list.
pub fn op_gtk_append_child(ctx: &mut ReactContext, parent: UiWidget, child: UiWidget) -> (rid:
    usize)
    requires
        old(ctx).wf(),
        old(ctx).bridge.slots@.len() < usize::MAX as int,
    ensures
        final(ctx).wf(),
        rid as int == old(ctx).bridge.slots@.len(),
        crate::bridge::submission(old(ctx).bridge, final(ctx).bridge, rid),
        final(ctx).handlers == old(ctx).handlers,
        final(ctx).receiver == old(ctx).receiver,
        old(ctx).bridge.connected ==> final(ctx).bridge.queue@ == old(ctx).bridge.queue@.push(
            (rid, UiRequestData::AppendChild { parent, child }),
        ),
{
    make_request(&mut ctx.bridge, UiRequestData::AppendChild { parent, child })
}

/// Asks the host to detach `child` from `parent` and destroy its subtree.
pub fn op_gtk_remove_child(ctx: &mut ReactContext, parent: UiWidget, child: UiWidget) -> (rid:
    usize)
    requires
        old(ctx).wf(),
        old(ctx).bridge.slots@.len() < usize::MAX as int,
    ensures
        final(ctx).wf(),
        rid as int == old(ctx).bridge.slots@.len(),
        crate::bridge::submission(old(ctx).bridge, final(ctx).bridge, rid),
        final(ctx).handlers == old(ctx).handlers,
        final(ctx).receiver == old(ctx).receiver,
        old(ctx).bridge.connected ==> final(ctx).bridge.queue@ == old(ctx).bridge.queue@.push(
            (rid, UiRequestData::RemoveChild { parent, child }),
        ),
{
    make_request(&mut ctx.bridge, UiRequestData::RemoveChild { parent, child })
}

/// Asks the host to insert `child` immediately before `before_child` under
/// `parent`.
pub fn op_gtk_insert_before(
    ctx: &mut ReactContext,
    parent: UiWidget,
    child: UiWidget,
    before_child: UiWidget,
) -> (rid: usize)
    requires
        old(ctx).wf(),
        old(ctx).bridge.slots@.len() < usize::MAX as int,
    ensures
        final(ctx).wf(),
        rid as int == old(ctx).bridge.slots@.len(),
        crate::bridge::submission(old(ctx).bridge, final(ctx).bridge, rid),
        final(ctx).handlers == old(ctx).handlers,
        final(ctx).receiver == old(ctx).receiver,
        old(ctx).bridge.connected ==> final(ctx).bridge.queue@ == old(ctx).bridge.queue@.push(
            (rid, UiRequestData::InsertBefore { parent, child, before_child }),
        ),
{
    make_request(&mut ctx.bridge, UiRequestData::InsertBefore { parent, child, before_child })
}

/// Asks the host to create an element instance of the given kind.
pub fn op_gtk_create_instance(ctx: &mut ReactContext, widget_type: String) -> (rid: usize)
    requires
        old(ctx).wf(),
        old(ctx).bridge.slots@.len() < usize::MAX as int,
    ensures
        final(ctx).wf(),
        rid as int == old(ctx).bridge.slots@.len(),
        crate::bridge::submission(old(ctx).bridge, final(ctx).bridge, rid),
        final(ctx).handlers == old(ctx).handlers,
        final(ctx).receiver == old(ctx).receiver,
        old(ctx).bridge.connected ==> final(ctx).bridge.queue@.len() == old(ctx).bridge.queue@.len() + 1 && {
            let env = final(ctx).bridge.queue@.last();
            &&& final(ctx).bridge.queue@.drop_last() == old(ctx).bridge.queue@
            &&& env.0 == rid
            &&& env.1 matches UiRequestData::CreateInstance { widget_type: wt, properties }
                && wt@ == widget_type@ && properties@.len() == 0
        },
{
    make_request(
        &mut ctx.bridge,
        UiRequestData::CreateInstance { widget_type, properties: Vec::new() },
    )
}

/// Asks the host to create a text instance with the given text.
pub fn op_gtk_create_text_instance(ctx: &mut ReactContext, text: String) -> (rid: usize)
    requires
        old(ctx).wf(),
        old(ctx).bridge.slots@.len() < usize::MAX as int,
    ensures
        final(ctx).wf(),
        rid as int == old(ctx).bridge.slots@.len(),
        crate::bridge::submission(old(ctx).bridge, final(ctx).bridge, rid),
        final(ctx).handlers == old(ctx).handlers,
        final(ctx).receiver == old(ctx).receiver,
        old(ctx).bridge.connected ==> final(ctx).bridge.queue@ == old(ctx).bridge.queue@.push(
            (rid, UiRequestData::CreateTextInstance { text }),
        ),
{
    make_request(&mut ctx.bridge, UiRequestData::CreateTextInstance { text })
}

/// Asks the host to replace the text of a text instance.
pub fn op_gtk_set_text(ctx: &mut ReactContext, widget: UiWidget, text: String) -> (rid: usize)
    requires
        old(ctx).wf(),
        old(ctx).bridge.slots@.len() < usize::MAX as int,
    ensures
        final(ctx).wf(),
        rid as int == old(ctx).bridge.slots@.len(),
        crate::bridge::submission(old(ctx).bridge, final(ctx).bridge, rid),
        final(ctx).handlers == old(ctx).handlers,
        final(ctx).receiver == old(ctx).receiver,
        old(ctx).bridge.connected ==> final(ctx).bridge.queue@ == old(ctx).bridge.queue@.push(
            (rid, UiRequestData::SetText { widget, text }),
        ),
{
    make_request(&mut ctx.bridge, UiRequestData::SetText { widget, text })
}

/// The runtime property batch that a scripted property map converts to:
/// the reserved "children" entry is dropped (children travel as tree edges),
/// and function values are replaced by the opaque `Function` tag.
pub open spec fn convert_props(input: Seq<(String, JsUiPropertyValue)>) -> Seq<Property>
    decreases input.len(),
{
    if input.len() == 0 {
        Seq::empty()
    } else {
        let head = convert_props(input.drop_last());
        let item = input.last();
        if item.0@ == "children"@ {
            head
        } else {
            head.push(Property { name: item.0, value: convert_value(item.1) })
        }
    }
}

pub open spec fn convert_value(v: JsUiPropertyValue) -> PropertyValue {
    match v {
        JsUiPropertyValue::Function(_) => PropertyValue::Function,
        JsUiPropertyValue::Text(s) => PropertyValue::Text(s),
        JsUiPropertyValue::Number(x) => PropertyValue::Number(x),
        JsUiPropertyValue::Bool(b) => PropertyValue::Bool(b),
    }
}

/// The callback registrations a scripted property map asks for: one per
/// function-valued property, in map order, the reserved "children" entry
/// excluded.
pub open spec fn pending_listeners(input: Seq<(String, JsUiPropertyValue)>) -> Seq<
    (String, HandlerId),
>
    decreases input.len(),
{
    if input.len() == 0 {
        Seq::empty()
    } else {
        let head = pending_listeners(input.drop_last());
        let item = input.last();
        if item.0@ != "children"@ && item.1 is Function {
            head.push((item.0, item.1->Function_0))
        } else {
            head
        }
    }
}

/// Converts a scripted property map and posts the `SetProperties` request.
/// Nothing is registered with the event dispatcher yet: the function-valued
/// properties come back as pending registrations, to be installed by
/// `complete_set_properties` only once the host has accepted the whole batch,
/// so a refused batch changes neither the tree nor the dispatcher.
pub fn op_gtk_set_properties(
    ctx: &mut ReactContext,
    widget: UiWidget,
    props: Vec<(String, JsUiPropertyValue)>,
) -> (r: (usize, Vec<(UiEventName, HandlerId)>))
    requires
        old(ctx).wf(),
        old(ctx).bridge.slots@.len() < usize::MAX as int,
    ensures
        final(ctx).wf(),
        r.0 as int == old(ctx).bridge.slots@.len(),
        crate::bridge::submission(old(ctx).bridge, final(ctx).bridge, r.0),
        final(ctx).handlers == old(ctx).handlers,
        final(ctx).receiver == old(ctx).receiver,
        r.1@ == pending_listeners(props@),
        old(ctx).bridge.connected ==> final(ctx).bridge.queue@.len() == old(ctx).bridge.queue@.len() + 1 && {
            let env = final(ctx).bridge.queue@.last();
            &&& final(ctx).bridge.queue@.drop_last() == old(ctx).bridge.queue@
            &&& env.0 == r.0
            &&& env.1 matches UiRequestData::SetProperties { widget: w2, properties } && w2
                == widget && properties@ == convert_props(props@)
        },
{
    let children_name = String::from_str("children");
    proof {
        reveal_strlit("children");
    }
    let mut converted: Vec<Property> = Vec::new();
    let mut pending: Vec<(UiEventName, HandlerId)> = Vec::new();
    let n = props.len();
    let mut i: usize = 0;
    while i < n
        invariant
            n == props@.len(),
            i <= n,
            children_name@ == "children"@,
            converted@ == convert_props(props@.take(i as int)),
            pending@ == pending_listeners(props@.take(i as int)),
        decreases n - i,
    {
        let (name, value) = &props[i];
        if !(*name == children_name) {
            match value {
                JsUiPropertyValue::Function(h) => {
                    pending.push((name.clone(), *h));
                    converted.push(Property { name: name.clone(), value: PropertyValue::Function });
                },
                JsUiPropertyValue::Text(s) => {
                    converted.push(
                        Property { name: name.clone(), value: PropertyValue::Text(s.clone()) },
                    );
                },
                JsUiPropertyValue::Number(x) => {
                    converted.push(
                        Property { name: name.clone(), value: PropertyValue::Number(*x) },
                    );
                },
                JsUiPropertyValue::Bool(b) => {
                    converted.push(Property { name: name.clone(), value: PropertyValue::Bool(*b) });
                },
            }
        }
        proof {
            assert(props@.take(i + 1).drop_last() =~= props@.take(i as int));
            assert(props@.take(i + 1).last() == props@[i as int]);
            assert(converted@ =~= convert_props(props@.take(i + 1)));
            assert(pending@ =~= pending_listeners(props@.take(i + 1)));
        }
        i += 1;
    }
    proof {
        assert(props@.take(n as int) =~= props@);
    }
    let rid = make_request(
        &mut ctx.bridge,
        UiRequestData::SetProperties { widget, properties: converted },
    );
    (rid, pending)
}

/// Installs the callback registrations of one property batch after the host
/// has answered it. On a success reply every pending (name, handle) pair is
/// registered against the widget under its property name — the property name
/// becomes the event name, and when one name appears several times the last
/// registration wins. On a failure reply nothing at all is registered, so a
/// batch the host refused leaves the dispatcher exactly as it was, matching
/// the untouched tree.
pub fn complete_set_properties(
    ctx: &mut ReactContext,
    widget: UiWidget,
    pending: Vec<(UiEventName, HandlerId)>,
    resp: &UiResponse,
)
    requires
        old(ctx).handlers.wf(),
    ensures
        final(ctx).bridge == old(ctx).bridge,
        final(ctx).receiver == old(ctx).receiver,
        final(ctx).handlers.wf(),
        final(ctx).handlers.scheduled@ == old(ctx).handlers.scheduled@,
        resp is Err ==> final(ctx).handlers == old(ctx).handlers,
        resp is Ok ==> forall|k: int|
            0 <= k < pending@.len() && (forall|k2: int|
                k < k2 < pending@.len() ==> (#[trigger] pending@[k2]).0@ != pending@[k].0@)
                ==> final(ctx).handlers.has_listener(widget.widget_id, (#[trigger] pending@[k]).0@)
                && final(ctx).handlers.listener_for(widget.widget_id, pending@[k].0@) == pending@[
                k
            ].1,
        resp is Ok ==> forall|w2: crate::model::UiWidgetId, n2: Seq<char>|
            (w2 != widget.widget_id || (forall|k: int|
                0 <= k < pending@.len() ==> (#[trigger] pending@[k]).0@ != n2)) ==> #[trigger] final(ctx).handlers.has_listener(w2, n2) == old(ctx).handlers.has_listener(w2, n2) && (old(ctx).handlers.has_listener(w2, n2) ==> final(ctx).handlers.listener_for(w2, n2) == old(ctx).handlers.listener_for(w2, n2)),
{
    if resp.is_err() {
        return ;
    }
    let n = pending.len();
    let mut i: usize = 0;
    while i < n
        invariant
            n == pending@.len(),
            i <= n,
            ctx.bridge == old(ctx).bridge,
            ctx.receiver == old(ctx).receiver,
            ctx.handlers.wf(),
            ctx.handlers.scheduled@ == old(ctx).handlers.scheduled@,
            forall|k: int|
                0 <= k < i && (forall|k2: int|
                    k < k2 < i ==> (#[trigger] pending@[k2]).0@ != pending@[k].0@)
                    ==> ctx.handlers.has_listener(widget.widget_id, (#[trigger] pending@[k]).0@)
                    && ctx.handlers.listener_for(widget.widget_id, pending@[k].0@) == pending@[
                    k
                ].1,
            forall|w2: crate::model::UiWidgetId, n2: Seq<char>|
                (w2 != widget.widget_id || (forall|k: int|
                    0 <= k < i ==> (#[trigger] pending@[k]).0@ != n2)) ==> #[trigger] ctx.handlers.has_listener(
                    w2,
                    n2,
                ) == old(ctx).handlers.has_listener(w2, n2) && (old(ctx).handlers.has_listener(
                    w2,
                    n2,
                ) ==> ctx.handlers.listener_for(w2, n2) == old(ctx).handlers.listener_for(w2, n2)),
        decreases n - i,
    {
        let (name, handle) = &pending[i];
        ctx.handlers.add_listener(widget.widget_id, name.clone(), *handle);
        i += 1;
    }
}

/// A call on the host RPC surface, posted on the backend bridge.
pub enum HostRequest {
    Render {
        entrypoint_id: EntrypointId,
        entrypoint_name: String,
        render_location: UiRenderLocation,
        top_level_view: bool,
        container: RenderPayload,
    },
    ShowPluginErrorView { entrypoint_id: EntrypointId, render_location: UiRenderLocation },
    ShowPreferencesRequiredView {
        entrypoint_id: EntrypointId,
        plugin_preferences_required: bool,
        entrypoint_preferences_required: bool,
    },
    ClearInlineView,
    ShowHud { display: String },
    HideWindow,
    UpdateLoadingBar { entrypoint_id: EntrypointId, show: bool },
    GetActionIdForShortcut {
        entrypoint_id: EntrypointId,
        key: String,
        modifier_shift: bool,
        modifier_control: bool,
        modifier_alt: bool,
        modifier_meta: bool,
    },
    GetAssetData { asset: String },
}

/// The host's answer to one RPC call.
pub enum HostResponse {
    Unit,
    ActionId(Option<String>),
    AssetData(Result<Vec<u8>, UiError>),
}

/// Host-held, read-only data about this plugin instance, loaded at sandbox
/// start.
pub struct PluginData {
    pub inline_view_entrypoint_id: Option<String>,
    pub entrypoint_names: Vec<(String, String)>,
}

impl PluginData {
    /// The entrypoint rendered in the inline location, if the plugin has one.
    pub fn inline_view_entrypoint_id(&self) -> (r: &Option<String>)
        ensures
            r == &self.inline_view_entrypoint_id,
    {
        &self.inline_view_entrypoint_id
    }

    /// The display names of the plugin's entrypoints, by entrypoint id.
    pub fn entrypoint_names(&self) -> (r: &Vec<(String, String)>)
        ensures
            r == &self.entrypoint_names,
    {
        &self.entrypoint_names
    }

    /// The entrypoint id is one of this plugin's entrypoints.
    pub open spec fn knows_entrypoint(self, id: Seq<char>) -> bool {
        exists|k: int|
            0 <= k < self.entrypoint_names@.len() && (#[trigger] self.entrypoint_names@[k]).0@
                == id
    }

    fn check_entrypoint(&self, id: &String) -> (r: bool)
        ensures
            r == self.knows_entrypoint(id@),
    {
        let mut k: usize = 0;
        while k < self.entrypoint_names.len()
            invariant
                k <= self.entrypoint_names@.len(),
                forall|x: int|
                    0 <= x < k ==> (#[trigger] self.entrypoint_names@[x]).0@ != id@,
            decreases self.entrypoint_names@.len() - k,
        {
            if self.entrypoint_names[k].0 == *id {
                return true;
            }
            k += 1;
        }
        false
    }
}

/// The sandbox-side state behind the plugin runtime ops: the plugin's data,
/// the immutable component model, and the bridge to the backend.
pub struct PluginRuntime {
    pub data: PluginData,
    pub component_model: ComponentModel,
    pub backend: RequestBridge<HostRequest, HostResponse>,
}

/// Maps the render location as the interpreter serializes it onto the host's
/// vocabulary, one-to-one.
pub open spec fn spec_map_location(l: JsUiRenderLocation) -> UiRenderLocation {
    match l {
        JsUiRenderLocation::InlineView => UiRenderLocation::InlineView,
        JsUiRenderLocation::View => UiRenderLocation::View,
    }
}

fn map_location(l: JsUiRenderLocation) -> (r: UiRenderLocation)
    ensures
        r == spec_map_location(l),
{
    match l {
        JsUiRenderLocation::InlineView => UiRenderLocation::InlineView,
        JsUiRenderLocation::View => UiRenderLocation::View,
    }
}

impl PluginRuntime {
    pub open spec fn wf(self) -> bool {
        self.backend.wf() && self.component_model.wf()
    }
}

/// Fire-and-forget: asks the host to show the error view for an entrypoint.
/// The sandbox learns that the request was submitted, not that it completed.
pub fn show_plugin_error_view(
    rt: &mut PluginRuntime,
    entrypoint_id: String,
    render_location: JsUiRenderLocation,
) -> (rid: usize)
    requires
        old(rt).wf(),
        old(rt).backend.slots@.len() < usize::MAX as int,
    ensures
        final(rt).wf(),
        final(rt).data == old(rt).data,
        final(rt).component_model == old(rt).component_model,
        old(rt).backend.connected ==> final(rt).backend.queue@ == old(rt).backend.queue@.push(
            (
                rid,
                HostRequest::ShowPluginErrorView {
                    entrypoint_id: EntrypointId { id: entrypoint_id },
                    render_location: spec_map_location(render_location),
                },
            ),
        ),
{
    let location = map_location(render_location);
    rt.backend.submit(
        HostRequest::ShowPluginErrorView {
            entrypoint_id: EntrypointId { id: entrypoint_id },
            render_location: location,
        },
    )
}

/// Fire-and-forget: asks the host to show the preferences-required view.
pub fn show_preferences_required_view(
    rt: &mut PluginRuntime,
    entrypoint_id: String,
    plugin_preferences_required: bool,
    entrypoint_preferences_required: bool,
) -> (rid: usize)
    requires
        old(rt).wf(),
        old(rt).backend.slots@.len() < usize::MAX as int,
    ensures
        final(rt).wf(),
        final(rt).data == old(rt).data,
        final(rt).component_model == old(rt).component_model,
        old(rt).backend.connected ==> final(rt).backend.queue@ == old(rt).backend.queue@.push(
            (
                rid,
                HostRequest::ShowPreferencesRequiredView {
                    entrypoint_id: EntrypointId { id: entrypoint_id },
                    plugin_preferences_required,
                    entrypoint_preferences_required,
                },
            ),
        ),
{
    rt.backend.submit(
        HostRequest::ShowPreferencesRequiredView {
            entrypoint_id: EntrypointId { id: entrypoint_id },
            plugin_preferences_required,
            entrypoint_preferences_required,
        },
    )
}

/// Fire-and-forget: asks the host to clear the inline view.
pub fn clear_inline_view(rt: &mut PluginRuntime) -> (rid: usize)
    requires
        old(rt).wf(),
        old(rt).backend.slots@.len() < usize::MAX as int,
    ensures
        final(rt).wf(),
        final(rt).data == old(rt).data,
        final(rt).component_model == old(rt).component_model,
        old(rt).backend.connected ==> final(rt).backend.queue@ == old(rt).backend.queue@.push(
            (rid, HostRequest::ClearInlineView),
        ),
{
    rt.backend.submit(HostRequest::ClearInlineView)
}

/// Synchronous read: the inline-view entrypoint id of this plugin, if any.
pub fn op_inline_view_entrypoint_id(rt: &PluginRuntime) -> (r: &Option<String>)
    ensures
        r == &rt.data.inline_view_entrypoint_id,
{
    rt.data.inline_view_entrypoint_id()
}

/// Synchronous read: the entrypoint display names of this plugin.
pub fn op_entrypoint_names(rt: &PluginRuntime) -> (r: &Vec<(String, String)>)
    ensures
        r == &rt.data.entrypoint_names,
{
    rt.data.entrypoint_names()
}

/// Synchronous read: the immutable component model snapshot.
pub fn op_component_model(rt: &PluginRuntime) -> (r: &Vec<ComponentDecl>)
    ensures
        r@ == rt.component_model.components@,
{
    rt.component_model.components()
}

/// Render submission. The deserialized root container is validated against
/// the component model and the entrypoint identity is checked before anything
/// is posted: a payload with an unknown entrypoint, a malformed structure, an
/// undeclared kind or property, a mismatched value tag, or an impermissible
/// child fails with that typed validation error and leaves the backend bridge
/// untouched — no partial tree is ever installed. Exactly the valid
/// submissions are posted, unchanged, for the host renderer.
pub fn op_react_replace_view(
    rt: &mut PluginRuntime,
    render_location: JsUiRenderLocation,
    top_level_view: bool,
    entrypoint_id: String,
    entrypoint_name: String,
    container: RenderPayload,
) -> (r: Result<usize, UiError>)
    requires
        old(rt).wf(),
        old(rt).backend.slots@.len() < usize::MAX as int,
    ensures
        final(rt).wf(),
        final(rt).data == old(rt).data,
        final(rt).component_model == old(rt).component_model,
        r is Ok <==> old(rt).data.knows_entrypoint(entrypoint_id@) && payload_valid(
            container,
            old(rt).component_model,
        ),
        r == Err::<usize, UiError>(UiError::Validation(ValidationError::UnknownEntrypoint))
            <==> !old(rt).data.knows_entrypoint(entrypoint_id@),
        r matches Err(e) ==> e is Validation,
        r is Err ==> *final(rt) == *old(rt),
        r matches Ok(rid) ==> rid as int == old(rt).backend.slots@.len()
            && crate::bridge::submission(old(rt).backend, final(rt).backend, rid) && (old(rt).backend.connected ==> final(rt).backend.queue@.len() == old(rt).backend.queue@.len() + 1
            && {
            let env = final(rt).backend.queue@.last();
            &&& final(rt).backend.queue@.drop_last() == old(rt).backend.queue@
            &&& env.0 == rid
            &&& env.1 matches HostRequest::Render {
                entrypoint_id: eid,
                entrypoint_name: en,
                render_location: rl,
                top_level_view: tl,
                container: c,
            } && eid.id@ == entrypoint_id@ && en@ == entrypoint_name@ && rl == spec_map_location(
                render_location,
            ) && tl == top_level_view && c == container
        }),
{
    if !rt.data.check_entrypoint(&entrypoint_id) {
        return Err(UiError::Validation(ValidationError::UnknownEntrypoint));
    }
    match validate_payload(&container, &rt.component_model) {
        Err(e) => Err(UiError::Validation(e)),
        Ok(()) => {
            let location = map_location(render_location);
            let rid = rt.backend.submit(
                HostRequest::Render {
                    entrypoint_id: EntrypointId { id: entrypoint_id },
                    entrypoint_name,
                    render_location: location,
                    top_level_view,
                    container,
                },
            );
            Ok(rid)
        },
    }
}

/// Awaited round trip: asks the host which action, if any, the given physical
/// key with the given modifiers is bound to under this entrypoint.
pub fn fetch_action_id_for_shortcut(
    rt: &mut PluginRuntime,
    entrypoint_id: String,
    key: String,
    modifier_shift: bool,
    modifier_control: bool,
    modifier_alt: bool,
    modifier_meta: bool,
) -> (rid: usize)
    requires
        old(rt).wf(),
        old(rt).backend.slots@.len() < usize::MAX as int,
    ensures
        final(rt).wf(),
        final(rt).data == old(rt).data,
        final(rt).component_model == old(rt).component_model,
        rid as int == old(rt).backend.slots@.len(),
        crate::bridge::submission(old(rt).backend, final(rt).backend, rid),
        old(rt).backend.connected ==> final(rt).backend.queue@.len() == old(rt).backend.queue@.len() + 1 && {
            let env = final(rt).backend.queue@.last();
            &&& final(rt).backend.queue@.drop_last() == old(rt).backend.queue@
            &&& env.0 == rid
            &&& env.1 matches HostRequest::GetActionIdForShortcut {
                entrypoint_id: eid,
                key: k,
                modifier_shift: ms,
                modifier_control: mc,
                modifier_alt: ma,
                modifier_meta: mm,
            } && eid.id@ == entrypoint_id@ && k@ == key@ && ms == modifier_shift && mc
                == modifier_control && ma == modifier_alt && mm == modifier_meta
        },
{
    rt.backend.submit(
        HostRequest::GetActionIdForShortcut {
            entrypoint_id: EntrypointId { id: entrypoint_id },
            key,
            modifier_shift,
            modifier_control,
            modifier_alt,
            modifier_meta,
        },
    )
}

/// Awaited round trip: asks the host for the raw bytes of a bundled asset.
pub fn get_asset_data(rt: &mut PluginRuntime, asset: String) -> (rid: usize)
    requires
        old(rt).wf(),
        old(rt).backend.slots@.len() < usize::MAX as int,
    ensures
        final(rt).wf(),
        final(rt).data == old(rt).data,
        final(rt).component_model == old(rt).component_model,
        rid as int == old(rt).backend.slots@.len(),
        crate::bridge::submission(old(rt).backend, final(rt).backend, rid),
        old(rt).backend.connected ==> final(rt).backend.queue@ == old(rt).backend.queue@.push(
            (rid, HostRequest::GetAssetData { asset }),
        ),
{
    rt.backend.submit(HostRequest::GetAssetData { asset })
}

/// Interprets the host's reply to a shortcut lookup.
pub fn complete_action_id(resp: HostResponse) -> (r: Option<String>)
    requires
        resp is ActionId,
    ensures
        Some(r) == (match resp {
            HostResponse::ActionId(a) => Some(a),
            _ => None,
        }),
{
    match resp {
        HostResponse::ActionId(a) => a,
        _ => None,
    }
}

/// Awaited round trip: shows a transient notice.
pub fn show_hud(rt: &mut PluginRuntime, display: String) -> (rid: usize)
    requires
        old(rt).wf(),
        old(rt).backend.slots@.len() < usize::MAX as int,
    ensures
        final(rt).wf(),
        final(rt).data == old(rt).data,
        final(rt).component_model == old(rt).component_model,
        rid as int == old(rt).backend.slots@.len(),
        crate::bridge::submission(old(rt).backend, final(rt).backend, rid),
        old(rt).backend.connected ==> final(rt).backend.queue@ == old(rt).backend.queue@.push(
            (rid, HostRequest::ShowHud { display }),
        ),
{
    rt.backend.submit(HostRequest::ShowHud { display })
}

/// Awaited round trip: hides the launcher window.
pub fn hide_window(rt: &mut PluginRuntime) -> (rid: usize)
    requires
        old(rt).wf(),
        old(rt).backend.slots@.len() < usize::MAX as int,
    ensures
        final(rt).wf(),
        final(rt).data == old(rt).data,
        final(rt).component_model == old(rt).component_model,
        rid as int == old(rt).backend.slots@.len(),
        crate::bridge::submission(old(rt).backend, final(rt).backend, rid),
        old(rt).backend.connected ==> final(rt).backend.queue@ == old(rt).backend.queue@.push(
            (rid, HostRequest::HideWindow),
        ),
{
    rt.backend.submit(HostRequest::HideWindow)
}

/// Awaited round trip: shows or hides the loading indicator of an entrypoint.
pub fn update_loading_bar(rt: &mut PluginRuntime, entrypoint_id: String, show: bool) -> (rid:
    usize)
    requires
        old(rt).wf(),
        old(rt).backend.slots@.len() < usize::MAX as int,
    ensures
        final(rt).wf(),
        final(rt).data == old(rt).data,
        final(rt).component_model == old(rt).component_model,
        rid as int == old(rt).backend.slots@.len(),
        crate::bridge::submission(old(rt).backend, final(rt).backend, rid),
        old(rt).backend.connected ==> final(rt).backend.queue@.len() == old(rt).backend.queue@.len() + 1 && {
            let env = final(rt).backend.queue@.last();
            &&& final(rt).backend.queue@.drop_last() == old(rt).backend.queue@
            &&& env.0 == rid
            &&& env.1 matches HostRequest::UpdateLoadingBar { entrypoint_id: eid, show: sh }
                && eid.id@ == entrypoint_id@ && sh == show
        },
{
    rt.backend.submit(
        HostRequest::UpdateLoadingBar { entrypoint_id: EntrypointId { id: entrypoint_id }, show },
    )
}

/// One cooperative poll of the pending-event queue: the oldest notification,
/// a wait while the queue is live but empty, or a disconnect failure once the
/// host tore the queue down — the waiting loop is never left hanging.
pub fn op_get_next_pending_ui_event(ctx: &mut ReactContext) -> (r: EventPoll)
    ensures
        final(ctx).bridge == old(ctx).bridge,
        final(ctx).handlers == old(ctx).handlers,
        old(ctx).receiver.pending@.len() > 0 ==> r == EventPoll::Ready(
            old(ctx).receiver.pending@[0],
        ) && final(ctx).receiver.pending@ == old(ctx).receiver.pending@.drop_first(),
        old(ctx).receiver.pending@.len() == 0 && old(ctx).receiver.connected ==> r is Pending
            && final(ctx).receiver == old(ctx).receiver,
        old(ctx).receiver.pending@.len() == 0 && !old(ctx).receiver.connected ==> r
            is Disconnected && final(ctx).receiver == old(ctx).receiver,
{
    ctx.receiver.poll_next()
}

/// Delivers one polled event: schedules exactly the callback registered for
/// its (widget id, event name) pair on the sandbox run queue, and no other.
pub fn op_call_event_listener(ctx: &mut ReactContext, widget: UiWidget, event_name: &UiEventName)
    -> (r: Option<HandlerId>)
    requires
        old(ctx).handlers.wf(),
    ensures
        final(ctx).bridge == old(ctx).bridge,
        final(ctx).receiver == old(ctx).receiver,
        final(ctx).handlers.wf(),
        final(ctx).handlers.inner.listeners@ == old(ctx).handlers.inner.listeners@,
        old(ctx).handlers.has_listener(widget.widget_id, event_name@) ==> r == Some(
            old(ctx).handlers.listener_for(widget.widget_id, event_name@),
        ) && final(ctx).handlers.scheduled@ == old(ctx).handlers.scheduled@.push(
            old(ctx).handlers.listener_for(widget.widget_id, event_name@),
        ),
        !old(ctx).handlers.has_listener(widget.widget_id, event_name@) ==> r is None && final(ctx).handlers.scheduled@ == old(ctx).handlers.scheduled@,
{
    ctx.handlers.call_listener_handler(widget.widget_id, event_name)
}

} // verus!

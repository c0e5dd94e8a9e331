//! Shared vocabulary of the sandbox/host boundary: widget identities, property
//! values, request and response envelopes, events, and the error taxonomy.
//!
//! The sandbox never holds references into host memory: a widget is known to it
//! only as an integer id handed back by a create operation. Numeric property
//! values cross the boundary as their raw 64-bit encoding; this core never
//! inspects the number, it only carries it.

use vstd::prelude::*;

verus! {

/// Process-unique widget identity, assigned monotonically by the host tree.
pub type UiWidgetId = u32;

/// The same identity on the host-renderer side of the boundary.
pub type NativeUiWidgetId = u32;

/// Name of a user-interaction event, e.g. the property name under which a
/// callback was registered.
pub type UiEventName = String;

/// A widget as the sandbox sees it: an integer id and nothing else.
#[derive(Clone, Copy, Debug, PartialEq, Eq, Structural)]
pub struct UiWidget {
    pub widget_id: UiWidgetId,
}

/// A widget as the host-side renderer protocol sees it; identical shape,
/// kept separate so each side of the boundary names its own vocabulary.
#[derive(Clone, Copy, Debug, PartialEq, Eq, Structural)]
pub struct NativeUiWidget {
    pub widget_id: UiWidgetId,
}

/// A runtime property value: a closed sum. Function-valued properties carry an
/// opaque callback handle registered in the sandbox-side dispatcher; the host
/// never receives or invokes the callback itself. Numbers are carried as their
/// raw 64-bit encoding and never interpreted by this core.
#[derive(Clone, Debug)]
pub enum PropertyValue {
    /// An opaque callback reference; the handle lives in the sandbox's table.
    Function,
    Text(String),
    Number(u64),
    Bool(bool),
}

/// The same closed sum on the host-renderer side of the boundary.
#[derive(Clone, Debug)]
pub enum NativeUiPropertyValue {
    Function,
    Text(String),
    Number(u64),
    Bool(bool),
}

/// One named, typed property of a widget. A widget's properties are an ordered
/// sequence of these.
#[derive(Clone, Debug)]
pub struct Property {
    pub name: String,
    pub value: PropertyValue,
}

impl PropertyValue {
    /// A deep copy, equal to the original.
    pub fn duplicate(&self) -> (r: PropertyValue)
        ensures
            r == *self,
    {
        match self {
            PropertyValue::Function => PropertyValue::Function,
            PropertyValue::Text(s) => PropertyValue::Text(s.clone()),
            PropertyValue::Number(x) => PropertyValue::Number(*x),
            PropertyValue::Bool(b) => PropertyValue::Bool(*b),
        }
    }
}

impl Property {
    /// A deep copy, equal to the original.
    pub fn duplicate(&self) -> (r: Property)
        ensures
            r == *self,
    {
        Property { name: self.name.clone(), value: self.value.duplicate() }
    }
}

/// Some property of the sequence bears this name.
pub open spec fn has_prop(props: Seq<Property>, name: Seq<char>) -> bool {
    exists|k: int| 0 <= k < props.len() && (#[trigger] props[k]).name@ == name
}

/// The first position bearing the name (meaningful when `has_prop`).
pub open spec fn prop_first_idx(props: Seq<Property>, name: Seq<char>) -> int
    decreases props.len(),
{
    if props.len() == 0 {
        0
    } else if props[0].name@ == name {
        0
    } else {
        1 + prop_first_idx(props.drop_first(), name)
    }
}

/// Applying one property: replace the first one of the same name in place, or
/// append it at the end.
pub open spec fn apply_one(props: Seq<Property>, p: Property) -> Seq<Property> {
    if has_prop(props, p.name@) {
        props.update(prop_first_idx(props, p.name@), p)
    } else {
        props.push(p)
    }
}

/// Applying a batch, first to last.
pub open spec fn apply_batch(props: Seq<Property>, batch: Seq<Property>) -> Seq<Property>
    decreases batch.len(),
{
    if batch.len() == 0 {
        props
    } else {
        apply_batch(apply_one(props, batch[0]), batch.drop_first())
    }
}

/// `prop_first_idx` is exactly the position of the first name match.
pub proof fn lemma_prop_first_idx(props: Seq<Property>, name: Seq<char>, j: int)
    requires
        0 <= j < props.len(),
        props[j].name@ == name,
        forall|i: int| 0 <= i < j ==> (#[trigger] props[i]).name@ != name,
    ensures
        prop_first_idx(props, name) == j,
    decreases j,
{
    if j > 0 {
        lemma_prop_first_idx(props.drop_first(), name, j - 1);
    }
}

/// Applying a batch one longer applies the batch, then its last property.
pub proof fn lemma_apply_batch_snoc(props: Seq<Property>, batch: Seq<Property>, p: Property)
    ensures
        apply_batch(props, batch.push(p)) == apply_one(apply_batch(props, batch), p),
    decreases batch.len(),
{
    if batch.len() == 0 {
        assert(batch.push(p).drop_first() =~= Seq::<Property>::empty());
        assert(apply_batch(props, batch.push(p)) == apply_batch(apply_one(props, p), Seq::<
            Property,
        >::empty()));
    } else {
        assert(batch.push(p)[0] == batch[0]);
        assert(batch.push(p).drop_first() =~= batch.drop_first().push(p));
        lemma_apply_batch_snoc(apply_one(props, batch[0]), batch.drop_first(), p);
    }
}

/// The first position of a property of this name, if any.
pub fn find_named(props: &Vec<Property>, name: &String) -> (r: Option<usize>)
    ensures
        match r {
            Some(j) => j < props@.len() && props@[j as int].name@ == name@ && forall|i: int|
                0 <= i < j ==> (#[trigger] props@[i]).name@ != name@,
            None => !has_prop(props@, name@),
        },
{
    let mut j: usize = 0;
    while j < props.len()
        invariant
            j <= props@.len(),
            forall|i: int| 0 <= i < j ==> (#[trigger] props@[i]).name@ != name@,
        decreases props@.len() - j,
    {
        if props[j].name == *name {
            return Some(j);
        }
        j += 1;
    }
    None
}

/// Builds the property sequence that results from applying `batch` over
/// `base`, first to last: each batch property replaces the first property of
/// its name in place, or is appended.
pub fn apply_properties(base: &Vec<Property>, batch: &Vec<Property>) -> (r: Vec<Property>)
    ensures
        r@ == apply_batch(base@, batch@),
{
    let mut cur: Vec<Property> = Vec::new();
    let mut i: usize = 0;
    while i < base.len()
        invariant
            i <= base@.len(),
            cur@ =~= base@.take(i as int),
        decreases base@.len() - i,
    {
        cur.push(base[i].duplicate());
        proof {
            assert(cur@ =~= base@.take(i + 1));
        }
        i += 1;
    }
    proof {
        assert(cur@ =~= base@);
        assert(batch@.take(0) =~= Seq::<Property>::empty());
    }
    let mut b: usize = 0;
    while b < batch.len()
        invariant
            b <= batch@.len(),
            cur@ == apply_batch(base@, batch@.take(b as int)),
        decreases batch@.len() - b,
    {
        let p = batch[b].duplicate();
        let ghost pre = cur@;
        match find_named(&cur, &p.name) {
            Some(j) => {
                proof {
                    lemma_prop_first_idx(pre, p.name@, j as int);
                    assert(has_prop(pre, p.name@));
                }
                let slot = &mut cur[j];
                *slot = p;
                proof {
                    assert(cur@ =~= apply_one(pre, batch@[b as int]));
                }
            },
            None => {
                cur.push(p);
                proof {
                    assert(cur@ =~= apply_one(pre, batch@[b as int]));
                }
            },
        }
        proof {
            assert(batch@.take(b + 1) =~= batch@.take(b as int).push(batch@[b as int]));
            lemma_apply_batch_snoc(base@, batch@.take(b as int), batch@[b as int]);
        }
        b += 1;
    }
    proof {
        assert(batch@.take(batch@.len() as int) =~= batch@);
    }
    cur
}

/// What one widget node holds besides its identity and its children: either an
/// element of some declared kind with its ordered properties, or a plain text
/// instance. A node's kind is fixed at creation and never changes.
#[derive(Clone, Debug)]
pub enum NodeContent {
    Element { widget_type: String, properties: Vec<Property> },
    Text { text: String },
}

/// The two contents are indistinguishable: the same variant, and the same
/// kind tag, properties or text.
pub open spec fn content_matches(a: NodeContent, b: NodeContent) -> bool {
    &&& a.is_element() == b.is_element()
    &&& a.is_element() ==> a.spec_widget_type() == b.spec_widget_type() && a.spec_properties()
        == b.spec_properties()
    &&& a.is_text() ==> a.spec_text() == b.spec_text()
}

impl NodeContent {
    pub open spec fn is_element(self) -> bool {
        self matches NodeContent::Element { .. }
    }

    pub open spec fn is_text(self) -> bool {
        self matches NodeContent::Text { .. }
    }

    /// The kind tag of an element (meaningful when `is_element`).
    pub open spec fn spec_widget_type(self) -> Seq<char> {
        self->Element_widget_type@
    }

    /// The ordered properties of an element (meaningful when `is_element`).
    pub open spec fn spec_properties(self) -> Seq<Property> {
        self->Element_properties@
    }

    /// The text of a text instance (meaningful when `is_text`).
    pub open spec fn spec_text(self) -> Seq<char> {
        self->Text_text@
    }

    /// A deep copy, indistinguishable from the original.
    pub fn duplicate(&self) -> (r: NodeContent)
        ensures
            content_matches(r, *self),
    {
        match self {
            NodeContent::Text { text } => NodeContent::Text { text: text.clone() },
            NodeContent::Element { widget_type, properties } => {
                let mut props: Vec<Property> = Vec::new();
                let mut i: usize = 0;
                while i < properties.len()
                    invariant
                        i <= properties@.len(),
                        props@ =~= properties@.take(i as int),
                    decreases properties@.len() - i,
                {
                    props.push(properties[i].duplicate());
                    proof {
                        assert(props@ =~= properties@.take(i + 1));
                    }
                    i += 1;
                }
                proof {
                    assert(props@ =~= properties@);
                }
                NodeContent::Element { widget_type: widget_type.clone(), properties: props }
            },
        }
    }
}

/// A user-interaction notification: identified by the (widget id, event name)
/// pair it targets. Arguments, if any, were carried at registration time.
#[derive(Clone, Debug)]
pub struct UiEvent {
    pub widget_id: UiWidgetId,
    pub event_name: UiEventName,
}

/// An extension-defined view or command instance, named by an opaque string.
#[derive(Clone, Debug)]
pub struct EntrypointId {
    pub id: String,
}

/// An installed extension, named by an opaque string.
#[derive(Clone, Debug)]
pub struct PluginId {
    pub id: String,
}

/// One search hit shown by the host launcher; pure data.
#[derive(Clone, Debug)]
pub struct NativeUiSearchResult {
    pub plugin_id: PluginId,
    pub plugin_name: String,
    pub entrypoint_id: EntrypointId,
    pub entrypoint_name: String,
}

/// The two admissible rendering contexts.
#[derive(Clone, Copy, Debug, PartialEq, Eq, Structural)]
pub enum UiRenderLocation {
    InlineView,
    View,
}

/// Render location as the sandbox serializes it; mapped one-to-one onto
/// `UiRenderLocation` by the capability ops.
#[derive(Clone, Copy, Debug, PartialEq, Eq, Structural)]
pub enum JsUiRenderLocation {
    InlineView,
    View,
}

/// Why a capability op was refused. Validation and lookup failures are
/// surfaced synchronously and leave all host state unchanged; `Disconnected`
/// marks a torn-down channel, distinct from a refusal.
#[derive(Clone, Copy, Debug, PartialEq, Eq, Structural)]
pub enum UiError {
    /// A referenced widget id is unknown to the current tree or was removed.
    NotFound,
    /// A children- or property-bearing operation targeted a text node.
    NotAnElement,
    /// A text operation targeted an element node.
    NotAText,
    /// The child to attach is the root or already has a parent.
    AlreadyAttached,
    /// `insert_before` named a reference node that is not a child of the parent.
    NotAChild,
    /// Attaching would place a node inside its own subtree.
    WouldCycle,
    /// Attaching would push the depth bookkeeping past its bound.
    TooDeep,
    /// A property batch or render payload violated the declared schema.
    Validation(ValidationError),
    /// The bridge or event queue was torn down while the caller waited.
    Disconnected,
    /// The id space of the tree is spent; no further node can be created.
    CapacityExhausted,
}

/// The precise schema violation found by validation.
#[derive(Clone, Copy, Debug, PartialEq, Eq, Structural)]
pub enum ValidationError {
    /// A widget kind has no declaration in the component model.
    UnknownKind,
    /// A property name is not declared for the widget's kind.
    UndeclaredProperty,
    /// A property value's tag differs from the declared type.
    PropertyTypeMismatch,
    /// An element child's kind is not permitted under its parent.
    ChildKindNotPermitted,
    /// A text child under a parent that does not accept text.
    TextNotPermitted,
    /// The payload is not a well-formed tree.
    MalformedStructure,
    /// The named entrypoint is unknown to this plugin instance.
    UnknownEntrypoint,
}

/// A sandbox-to-host call over the render bridge.
#[derive(Clone, Debug)]
pub enum UiRequestData {
    GetContainer,
    CreateInstance { widget_type: String, properties: Vec<Property> },
    CreateTextInstance { text: String },
    CloneInstance { widget_type: String, properties: Vec<Property> },
    AppendChild { parent: UiWidget, child: UiWidget },
    RemoveChild { parent: UiWidget, child: UiWidget },
    InsertBefore { parent: UiWidget, child: UiWidget, before_child: UiWidget },
    SetProperties { widget: UiWidget, properties: Vec<Property> },
    SetText { widget: UiWidget, text: String },
}

/// The host's answer to one `UiRequestData`.
#[derive(Clone, Debug)]
pub enum UiResponseData {
    GetContainer { container: UiWidget },
    CreateInstance { widget: UiWidget },
    CreateTextInstance { widget: UiWidget },
    CloneInstance { widget: UiWidget },
    Unit,
}

/// The host-renderer protocol's request vocabulary, mirroring the bridge ops.
#[derive(Clone, Debug)]
pub enum NativeUiRequestData {
    GetContainer,
    CreateInstance { widget_type: String, properties: Vec<Property> },
    CreateTextInstance { text: String },
    CloneInstance { widget_type: String, properties: Vec<Property> },
    ReplaceContainerChildren { container: NativeUiWidget, new_children: Vec<NativeUiWidget> },
}

/// The host-renderer protocol's response vocabulary.
#[derive(Clone, Debug)]
pub enum NativeUiResponseData {
    GetContainer { container: NativeUiWidget },
    CreateInstance { widget: NativeUiWidget },
    CreateTextInstance { widget: NativeUiWidget },
    CloneInstance { widget: NativeUiWidget },
}

} // verus!

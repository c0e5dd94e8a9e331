//! The host-side consumer of the render bridge: it takes request envelopes in
//! order and performs each one against the host-owned widget tree, answering
//! every request with exactly one typed response or typed failure. Lookup and
//! validation failures leave the tree untouched.

use vstd::prelude::*;

use crate::model::UiError;
use crate::model::UiRequestData;
use crate::model::UiResponseData;
use crate::model::UiWidget;
use crate::model::ValidationError;
use crate::schema::ComponentModel;
use crate::tree::WidgetTree;

verus! {

/// The host's answer to one bridge request.
pub type UiResponse = Result<UiResponseData, UiError>;

/// Host-held render state: the widget tree of the current render location and
/// the immutable component model it is validated against.
pub struct HostState {
    pub tree: WidgetTree,
    pub model: ComponentModel,
}

/// How one performed request relates the host state before it to the state
/// after it and to the reply. This is the whole behaviour of the consumer on
/// one envelope: every create answers the fresh id, every mutation answers
/// `Unit` on success, every failure is the tree operation's exact typed error
/// with the tree unchanged, and a request naming an id the tree does not know
/// always fails with a lookup error.
pub open spec fn request_step(
    pre: HostState,
    post: HostState,
    req: UiRequestData,
    r: UiResponse,
) -> bool {
    &&& post.wf()
    &&& post.model == pre.model
    &&& (req matches UiRequestData::GetContainer ==> r == Ok::<UiResponseData, UiError>(
        UiResponseData::GetContainer { container: UiWidget { widget_id: 0 } },
    ) && post.tree == pre.tree)
    &&& (req matches UiRequestData::CreateInstance { widget_type, properties } ==> {
        if pre.tree.len() < u32::MAX as int {
            &&& r matches Ok(UiResponseData::CreateInstance { widget }) && widget.widget_id as int
                == pre.tree.len()
            &&& post.tree.len() == pre.tree.len() + 1
            &&& post.tree.detached(pre.tree.len())
            &&& post.tree.is_element(pre.tree.len())
            &&& post.tree.widget_type_of(pre.tree.len()) == widget_type@
            &&& post.tree.properties_of(pre.tree.len()) == properties@
            &&& post.tree.children_of(pre.tree.len()) == Seq::<u32>::empty()
            &&& forall|i: int|
                #![trigger post.tree.nodes@[i]]
                0 <= i < pre.tree.len() ==> pre.tree.node_same(post.tree, i)
        } else {
            r == Err::<UiResponseData, UiError>(UiError::CapacityExhausted) && post.tree
                == pre.tree
        }
    })
    &&& (req matches UiRequestData::CreateTextInstance { text } ==> {
        if pre.tree.len() < u32::MAX as int {
            &&& r matches Ok(UiResponseData::CreateTextInstance { widget })
                && widget.widget_id as int == pre.tree.len()
            &&& post.tree.len() == pre.tree.len() + 1
            &&& post.tree.detached(pre.tree.len())
            &&& post.tree.is_text(pre.tree.len())
            &&& post.tree.text_of(pre.tree.len()) == text@
            &&& post.tree.children_of(pre.tree.len()) == Seq::<u32>::empty()
            &&& forall|i: int|
                #![trigger post.tree.nodes@[i]]
                0 <= i < pre.tree.len() ==> pre.tree.node_same(post.tree, i)
        } else {
            r == Err::<UiResponseData, UiError>(UiError::CapacityExhausted) && post.tree
                == pre.tree
        }
    })
    &&& (req matches UiRequestData::CloneInstance { widget_type, properties } ==> {
        if pre.tree.len() < u32::MAX as int {
            &&& r matches Ok(UiResponseData::CloneInstance { widget }) && widget.widget_id as int
                == pre.tree.len()
            &&& post.tree.len() == pre.tree.len() + 1
            &&& post.tree.detached(pre.tree.len())
            &&& post.tree.is_element(pre.tree.len())
            &&& post.tree.widget_type_of(pre.tree.len()) == widget_type@
            &&& post.tree.properties_of(pre.tree.len()) == properties@
            &&& forall|i: int|
                #![trigger post.tree.nodes@[i]]
                0 <= i < pre.tree.len() ==> pre.tree.node_same(post.tree, i)
        } else {
            r == Err::<UiResponseData, UiError>(UiError::CapacityExhausted) && post.tree
                == pre.tree
        }
    })
    &&& (req matches UiRequestData::AppendChild { parent, child } ==> {
        let p = parent.widget_id as int;
        let c = child.widget_id as int;
        &&& (r is Ok <==> pre.tree.can_attach(p, c))
        &&& (r is Ok ==> r == Ok::<UiResponseData, UiError>(UiResponseData::Unit) && post.tree.len()
            == pre.tree.len() && post.tree.children_of(p) == pre.tree.children_of(p).push(
            child.widget_id,
        ) && post.tree.children_of(c) == pre.tree.children_of(c) && post.tree.parent_of(c) == Some(
            parent.widget_id,
        ) && post.tree.nodes@[p].content == pre.tree.nodes@[p].content && post.tree.nodes@[c].content
            == pre.tree.nodes@[c].content && forall|i: int|
            #![trigger post.tree.nodes@[i]]
            0 <= i < pre.tree.len() && i != p && i != c ==> pre.tree.node_same_shape(post.tree, i))
        &&& (r is Err ==> post.tree == pre.tree)
        &&& (r == Err::<UiResponseData, UiError>(UiError::NotFound) <==> !pre.tree.live(p)
            || !pre.tree.live(c))
        &&& (r == Err::<UiResponseData, UiError>(UiError::NotAnElement) <==> pre.tree.live(p)
            && pre.tree.live(c) && !pre.tree.is_element(p))
        &&& (r == Err::<UiResponseData, UiError>(UiError::AlreadyAttached) <==> pre.tree.live(p)
            && pre.tree.live(c) && pre.tree.is_element(p) && !pre.tree.detached(c))
        &&& (r == Err::<UiResponseData, UiError>(UiError::WouldCycle) <==> pre.tree.live(p)
            && pre.tree.live(c) && pre.tree.is_element(p) && pre.tree.detached(c)
            && pre.tree.nodes@[p].comp_root == child.widget_id)
        &&& (r == Err::<UiResponseData, UiError>(UiError::TooDeep) <==> pre.tree.live(p)
            && pre.tree.live(c) && pre.tree.is_element(p) && pre.tree.detached(c)
            && pre.tree.nodes@[p].comp_root != child.widget_id && !pre.tree.depth_fits(p, c))
    })
    &&& (req matches UiRequestData::RemoveChild { parent, child } ==> {
        let p = parent.widget_id as int;
        let c = child.widget_id as int;
        &&& (r is Ok <==> pre.tree.live(p) && pre.tree.live(c) && pre.tree.children_of(p).contains(
            child.widget_id,
        ))
        &&& (r is Ok ==> r == Ok::<UiResponseData, UiError>(UiResponseData::Unit) && forall|j: int|
            0 <= j < pre.tree.len() && pre.tree.in_subtree(c, j) ==> !post.tree.live(j))
        &&& (r == Err::<UiResponseData, UiError>(UiError::NotFound) <==> !pre.tree.live(p)
            || !pre.tree.live(c))
        &&& (r == Err::<UiResponseData, UiError>(UiError::NotAChild) <==> pre.tree.live(p)
            && pre.tree.live(c) && !pre.tree.children_of(p).contains(child.widget_id))
        &&& (r is Err ==> post.tree == pre.tree)
    })
    &&& (req matches UiRequestData::InsertBefore { parent, child, before_child } ==> {
        let p = parent.widget_id as int;
        let c = child.widget_id as int;
        &&& (r is Ok <==> pre.tree.can_attach(p, c) && pre.tree.children_of(p).contains(
            before_child.widget_id,
        ))
        &&& (r is Ok ==> r == Ok::<UiResponseData, UiError>(UiResponseData::Unit))
        &&& (r == Err::<UiResponseData, UiError>(UiError::NotFound) <==> !pre.tree.live(p)
            || !pre.tree.live(c))
        &&& (r == Err::<UiResponseData, UiError>(UiError::NotAnElement) <==> pre.tree.live(p)
            && pre.tree.live(c) && !pre.tree.is_element(p))
        &&& (r == Err::<UiResponseData, UiError>(UiError::AlreadyAttached) <==> pre.tree.live(p)
            && pre.tree.live(c) && pre.tree.is_element(p) && !pre.tree.detached(c))
        &&& (r == Err::<UiResponseData, UiError>(UiError::WouldCycle) <==> pre.tree.live(p)
            && pre.tree.live(c) && pre.tree.is_element(p) && pre.tree.detached(c)
            && pre.tree.nodes@[p].comp_root == child.widget_id)
        &&& (r == Err::<UiResponseData, UiError>(UiError::TooDeep) <==> pre.tree.live(p)
            && pre.tree.live(c) && pre.tree.is_element(p) && pre.tree.detached(c)
            && pre.tree.nodes@[p].comp_root != child.widget_id && !pre.tree.depth_fits(p, c))
        &&& (r == Err::<UiResponseData, UiError>(UiError::NotAChild) <==> pre.tree.can_attach(p, c)
            && !pre.tree.children_of(p).contains(before_child.widget_id))
        &&& (r is Err ==> post.tree == pre.tree)
    })
    &&& (req matches UiRequestData::SetProperties { widget, properties } ==> {
        let w = widget.widget_id as int;
        &&& (r is Ok <==> pre.tree.live(w) && pre.tree.is_element(w) && pre.model.has_decl(
            pre.tree.widget_type_of(w),
        ) && pre.model.decl_of(pre.tree.widget_type_of(w)).allows_batch(properties@))
        &&& (r is Ok ==> r == Ok::<UiResponseData, UiError>(UiResponseData::Unit)
            && post.tree.properties_of(w) == crate::model::apply_batch(
            pre.tree.properties_of(w),
            properties@,
        ) && post.tree.is_element(w) && post.tree.widget_type_of(w) == pre.tree.widget_type_of(w)
            && post.tree.len() == pre.tree.len() && forall|i: int|
            #![trigger post.tree.nodes@[i]]
            0 <= i < pre.tree.len() && i != w ==> pre.tree.node_same(post.tree, i))
        &&& (r == Err::<UiResponseData, UiError>(UiError::NotFound) <==> !pre.tree.live(w))
        &&& (r == Err::<UiResponseData, UiError>(UiError::NotAnElement) <==> pre.tree.live(w)
            && !pre.tree.is_element(w))
        &&& (r == Err::<UiResponseData, UiError>(UiError::Validation(ValidationError::UnknownKind))
            <==> pre.tree.live(w) && pre.tree.is_element(w) && !pre.model.has_decl(
            pre.tree.widget_type_of(w),
        ))
        &&& (r matches Err(e) ==> (e is NotFound || e is NotAnElement || e is Validation))
        &&& (r matches Err(UiError::Validation(ve)) ==> (ve is UnknownKind || ve
            is UndeclaredProperty || ve is PropertyTypeMismatch))
        &&& (r is Err ==> post.tree == pre.tree)
    })
    &&& (req matches UiRequestData::SetText { widget, text } ==> {
        let w = widget.widget_id as int;
        &&& (r is Ok <==> pre.tree.live(w) && pre.tree.is_text(w))
        &&& (r is Ok ==> r == Ok::<UiResponseData, UiError>(UiResponseData::Unit)
            && post.tree.text_of(w) == text@ && post.tree.is_text(w) && post.tree.len()
            == pre.tree.len() && forall|i: int|
            #![trigger post.tree.nodes@[i]]
            0 <= i < pre.tree.len() && i != w ==> pre.tree.node_same(post.tree, i))
        &&& (r == Err::<UiResponseData, UiError>(UiError::NotFound) <==> !pre.tree.live(w))
        &&& (r == Err::<UiResponseData, UiError>(UiError::NotAText) <==> pre.tree.live(w)
            && !pre.tree.is_text(w))
        &&& (r is Err ==> post.tree == pre.tree)
    })
}

impl HostState {
    pub open spec fn wf(self) -> bool {
        self.tree.wf() && self.model.wf()
    }

    pub fn new(root_widget_type: String, model: ComponentModel) -> (h: HostState)
        requires
            model.wf(),
        ensures
            h.wf(),
            h.tree.len() == 1,
            h.model == model,
    {
        HostState { tree: WidgetTree::new(root_widget_type), model }
    }

    /// Performs one request against the tree; `request_step` relates the
    /// state before the call, the state after it, and the reply.
    pub fn handle_request(&mut self, req: UiRequestData) -> (r: UiResponse)
        requires
            old(self).wf(),
        ensures
            final(self).wf(),
            final(self).model == old(self).model,
            request_step(*old(self), *final(self), req, r),
    {
        match req {
            UiRequestData::GetContainer => {
                Ok(UiResponseData::GetContainer { container: self.tree.get_container() })
            },
            UiRequestData::CreateInstance { widget_type, properties } => {
                if self.tree.nodes.len() < u32::MAX as usize {
                    let id = self.tree.create_instance(widget_type, properties);
                    Ok(UiResponseData::CreateInstance { widget: UiWidget { widget_id: id } })
                } else {
                    Err(UiError::CapacityExhausted)
                }
            },
            UiRequestData::CreateTextInstance { text } => {
                if self.tree.nodes.len() < u32::MAX as usize {
                    let id = self.tree.create_text_instance(text);
                    Ok(UiResponseData::CreateTextInstance { widget: UiWidget { widget_id: id } })
                } else {
                    Err(UiError::CapacityExhausted)
                }
            },
            UiRequestData::CloneInstance { widget_type, properties } => {
                if self.tree.nodes.len() < u32::MAX as usize {
                    let id = self.tree.clone_instance(widget_type, properties);
                    Ok(UiResponseData::CloneInstance { widget: UiWidget { widget_id: id } })
                } else {
                    Err(UiError::CapacityExhausted)
                }
            },
            UiRequestData::AppendChild { parent, child } => {
                match self.tree.append_child(parent, child) {
                    Ok(()) => Ok(UiResponseData::Unit),
                    Err(e) => Err(e),
                }
            },
            UiRequestData::RemoveChild { parent, child } => {
                match self.tree.remove_child(parent, child) {
                    Ok(()) => Ok(UiResponseData::Unit),
                    Err(e) => Err(e),
                }
            },
            UiRequestData::InsertBefore { parent, child, before_child } => {
                match self.tree.insert_before(parent, child, before_child) {
                    Ok(()) => Ok(UiResponseData::Unit),
                    Err(e) => Err(e),
                }
            },
            UiRequestData::SetProperties { widget, properties } => {
                match self.tree.set_properties(&self.model, widget, properties) {
                    Ok(()) => Ok(UiResponseData::Unit),
                    Err(e) => Err(e),
                }
            },
            UiRequestData::SetText { widget, text } => {
                match self.tree.set_text(widget, text) {
                    Ok(()) => Ok(UiResponseData::Unit),
                    Err(e) => Err(e),
                }
            },
        }
    }
}

/// The consumer loop performed the whole queue: some chain of host states
/// steps through the envelopes in order, each step obeying `request_step`,
/// and each envelope's slot holds exactly the reply its step produced.
pub open spec fn process_trace(
    pre_host: HostState,
    post_host: HostState,
    queue: Seq<(usize, UiRequestData)>,
    slots: Seq<crate::bridge::SlotState<UiResponse>>,
    hs: Seq<HostState>,
    rs: Seq<UiResponse>,
) -> bool {
    &&& hs.len() == queue.len() + 1
    &&& rs.len() == queue.len()
    &&& hs[0] == pre_host
    &&& hs[queue.len() as int] == post_host
    &&& forall|k: int|
        0 <= k < queue.len() ==> request_step(#[trigger] hs[k], hs[k + 1], queue[k].1, rs[k])
            && slots[queue[k].0 as int] == crate::bridge::SlotState::<UiResponse>::Replied(rs[k])
}

/// Drains the render bridge: takes every queued envelope in submission order,
/// performs it against the host state, and deposits exactly one reply per
/// request — the host-side half of the strictly sequential consumer loop.
/// Every envelope that was queued ends with a deposited reply, untouched
/// slots keep their state, and a step chain obeying `request_step` leads from
/// the old host state to the new one.
pub fn process_requests(
    host: &mut HostState,
    bridge: &mut crate::bridge::RequestBridge<UiRequestData, UiResponse>,
)
    requires
        old(host).wf(),
        old(bridge).wf(),
    ensures
        final(host).wf(),
        final(bridge).wf(),
        final(bridge).queue@.len() == 0,
        final(host).model == old(host).model,
        final(bridge).connected == old(bridge).connected,
        final(bridge).slots@.len() == old(bridge).slots@.len(),
        forall|k: int|
            0 <= k < old(bridge).queue@.len() ==> final(bridge).slots@[(#[trigger] old(
                bridge,
            ).queue@[k]).0 as int] is Replied,
        forall|i: int|
            0 <= i < old(bridge).slots@.len() && (forall|k: int|
                0 <= k < old(bridge).queue@.len() ==> (#[trigger] old(bridge).queue@[k]).0 as int
                    != i) ==> #[trigger] final(bridge).slots@[i] == old(bridge).slots@[i],
        exists|hs: Seq<HostState>, rs: Seq<UiResponse>|
            process_trace(*old(host), *final(host), old(bridge).queue@, final(bridge).slots@, hs, rs),
{
    let ghost gq = bridge.queue@;
    let ghost mut hs: Seq<HostState> = seq![*host];
    let ghost mut rs: Seq<UiResponse> = Seq::empty();
    let ghost mut j: int = 0;
    loop
        invariant
            host.wf(),
            bridge.wf(),
            host.model == old(host).model,
            bridge.connected == old(bridge).connected,
            bridge.slots@.len() == old(bridge).slots@.len(),
            gq == old(bridge).queue@,
            0 <= j <= gq.len(),
            bridge.queue@ == gq.skip(j),
            hs.len() == j + 1,
            rs.len() == j,
            hs[0] == *old(host),
            hs[j] == *host,
            forall|k1: int, k2: int| 0 <= k1 < k2 < gq.len() ==> gq[k1].0 != gq[k2].0,
            forall|k: int|
                0 <= k < gq.len() ==> (#[trigger] gq[k]).0 < old(bridge).slots@.len(),
            forall|k: int|
                0 <= k < j ==> request_step(#[trigger] hs[k], hs[k + 1], gq[k].1, rs[k])
                    && bridge.slots@[gq[k].0 as int]
                    == crate::bridge::SlotState::<UiResponse>::Replied(rs[k]),
            forall|k: int|
                j <= k < gq.len() ==> bridge.slots@[(#[trigger] gq[k]).0 as int] == old(
                    bridge,
                ).slots@[gq[k].0 as int],
            forall|i: int|
                0 <= i < old(bridge).slots@.len() && (forall|k: int|
                    0 <= k < gq.len() ==> (#[trigger] gq[k]).0 as int != i)
                    ==> #[trigger] bridge.slots@[i] == old(bridge).slots@[i],
        decreases bridge.queue@.len(),
    {
        match bridge.host_next() {
            None => {
                proof {
                    assert(j == gq.len());
                    assert(process_trace(*old(host), *host, gq, bridge.slots@, hs, rs));
                }
                return ;
            },
            Some((rid, data)) => {
                proof {
                    assert(gq.skip(j)[0] == gq[j]);
                    assert(rid == gq[j].0 && data == gq[j].1);
                    assert(bridge.queue@ =~= gq.skip(j + 1));
                }
                let ghost pre = *host;
                let resp = host.handle_request(data);
                let ghost gresp = resp;
                let reply_outcome = bridge.host_reply(rid, resp);
                proof {
                    assert(reply_outcome is Ok);
                    hs = hs.push(*host);
                    rs = rs.push(gresp);
                    assert forall|k: int|
                        0 <= k < j + 1 implies request_step(
                        #[trigger] hs[k],
                        hs[k + 1],
                        gq[k].1,
                        rs[k],
                    ) && bridge.slots@[gq[k].0 as int]
                        == crate::bridge::SlotState::<UiResponse>::Replied(rs[k]) by {
                        if k < j {
                            assert(hs[k] == hs.drop_last()[k]);
                            assert(rs[k] == rs.drop_last()[k]);
                        }
                    }
                    j = j + 1;
                }
            },
        }
    }
}

} // verus!

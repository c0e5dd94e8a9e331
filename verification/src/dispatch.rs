//! The event dispatcher. The host never calls into the sandbox: user
//! interaction only enqueues (widget id, event name) notifications, which the
//! sandbox's own run loop polls cooperatively. Delivery then happens entirely
//! on the sandbox side: the registered callback handle for exactly that pair
//! is looked up and scheduled on the sandbox's run queue, so only the
//! sandbox's one thread ever executes extension code.

use vstd::prelude::*;

use crate::model::UiEvent;
use crate::model::UiEventName;
use crate::model::UiWidgetId;

verus! {

/// An opaque callback reference: an index into the sandbox's own table of
/// interpreter-native functions. This core never inspects or invokes it.
pub type HandlerId = u64;

/// One registration: the callback to schedule when the named event fires on
/// the widget.
pub struct ListenerEntry {
    pub widget_id: UiWidgetId,
    pub event_name: UiEventName,
    pub handler: HandlerId,
}

/// The registrations, at most one per (widget id, event name) pair.
pub struct EventHandlersInner {
    pub listeners: Vec<ListenerEntry>,
}

/// Sandbox-side callback bookkeeping: the registrations, and the run queue of
/// handles scheduled for execution by the sandbox's own loop.
pub struct EventHandlers {
    pub inner: EventHandlersInner,
    pub scheduled: Vec<HandlerId>,
}

impl EventHandlers {
    /// At most one registration per (widget id, event name) pair.
    pub open spec fn wf(self) -> bool {
        forall|a: int, b: int|
            0 <= a < b < self.inner.listeners@.len() ==> !(self.inner.listeners@[a].widget_id
                == self.inner.listeners@[b].widget_id && self.inner.listeners@[a].event_name@
                == self.inner.listeners@[b].event_name@)
    }

    /// A callback is registered for the pair.
    pub open spec fn has_listener(self, widget: UiWidgetId, name: Seq<char>) -> bool {
        exists|a: int|
            0 <= a < self.inner.listeners@.len() && (#[trigger] self.inner.listeners@[a]).widget_id
                == widget && self.inner.listeners@[a].event_name@ == name
    }

    /// The registered callback for the pair (meaningful when `has_listener`).
    pub open spec fn listener_for(self, widget: UiWidgetId, name: Seq<char>) -> HandlerId {
        let a = choose|a: int|
            0 <= a < self.inner.listeners@.len() && (#[trigger] self.inner.listeners@[a]).widget_id
                == widget && self.inner.listeners@[a].event_name@ == name;
        self.inner.listeners@[a].handler
    }

    pub fn new() -> (h: EventHandlers)
        ensures
            h.wf(),
            h.inner.listeners@.len() == 0,
            h.scheduled@.len() == 0,
    {
        EventHandlers { inner: EventHandlersInner { listeners: Vec::new() }, scheduled: Vec::new() }
    }

    fn find_entry(&self, widget: UiWidgetId, name: &String) -> (r: Option<usize>)
        requires
            self.wf(),
        ensures
            match r {
                Some(a) => a < self.inner.listeners@.len() && self.inner.listeners@[a as int].widget_id
                    == widget && self.inner.listeners@[a as int].event_name@ == name@
                    && self.has_listener(widget, name@) && self.listener_for(widget, name@)
                    == self.inner.listeners@[a as int].handler,
                None => !self.has_listener(widget, name@),
            },
    {
        let mut a: usize = 0;
        while a < self.inner.listeners.len()
            invariant
                a <= self.inner.listeners@.len(),
                self.wf(),
                forall|x: int|
                    0 <= x < a ==> !((#[trigger] self.inner.listeners@[x]).widget_id == widget
                        && self.inner.listeners@[x].event_name@ == name@),
            decreases self.inner.listeners@.len() - a,
        {
            if self.inner.listeners[a].widget_id == widget && self.inner.listeners[a].event_name
                == *name {
                proof {
                    let w = choose|w: int|
                        0 <= w < self.inner.listeners@.len() && (#[trigger] self.inner.listeners@[
                            w
                        ]).widget_id == widget && self.inner.listeners@[w].event_name@ == name@;
                    assert(w == a as int);
                }
                return Some(a);
            }
            a += 1;
        }
        None
    }

    /// Registers (or re-registers) the callback for the pair; every other
    /// registration and the run queue stay as they were.
    pub fn add_listener(&mut self, widget: UiWidgetId, event_name: UiEventName, handler: HandlerId)
        requires
            old(self).wf(),
        ensures
            final(self).wf(),
            final(self).has_listener(widget, event_name@),
            final(self).listener_for(widget, event_name@) == handler,
            forall|w2: UiWidgetId, n2: Seq<char>|
                !(w2 == widget && n2 == event_name@) ==> #[trigger] final(self).has_listener(w2, n2)
                    == old(self).has_listener(w2, n2),
            forall|w2: UiWidgetId, n2: Seq<char>|
                !(w2 == widget && n2 == event_name@) && old(self).has_listener(w2, n2)
                    ==> #[trigger] final(self).listener_for(w2, n2) == old(self).listener_for(
                    w2,
                    n2,
                ),
            final(self).scheduled@ == old(self).scheduled@,
    {
        let entry = ListenerEntry { widget_id: widget, event_name, handler };
        let idx: usize = match self.find_entry(widget, &entry.event_name) {
            Some(a) => {
                let slot = &mut self.inner.listeners[a];
                *slot = entry;
                a
            },
            None => {
                self.inner.listeners.push(entry);
                self.inner.listeners.len() - 1
            },
        };
        proof {
            let t = *self;
            let o = *old(self);
            assert(t.inner.listeners@[idx as int].widget_id == widget);
            assert(t.inner.listeners@[idx as int].event_name@ == event_name@);
            assert(t.inner.listeners@[idx as int].handler == handler);
            assert forall|a: int, b: int|
                0 <= a < b < t.inner.listeners@.len() implies !(t.inner.listeners@[a].widget_id
                == t.inner.listeners@[b].widget_id && t.inner.listeners@[a].event_name@
                == t.inner.listeners@[b].event_name@) by {
                if a < o.inner.listeners@.len() && b < o.inner.listeners@.len() {
                    if a != idx as int && b != idx as int {
                        assert(t.inner.listeners@[a] == o.inner.listeners@[a]);
                        assert(t.inner.listeners@[b] == o.inner.listeners@[b]);
                    } else if a == idx as int {
                        assert(t.inner.listeners@[b] == o.inner.listeners@[b]);
                        assert(o.inner.listeners@[idx as int].widget_id == widget
                            && o.inner.listeners@[idx as int].event_name@ == event_name@);
                    } else {
                        assert(t.inner.listeners@[a] == o.inner.listeners@[a]);
                        assert(o.inner.listeners@[idx as int].widget_id == widget
                            && o.inner.listeners@[idx as int].event_name@ == event_name@);
                    }
                } else {
                    // only a push adds an entry, and then its pair was absent
                    assert(b == idx as int);
                    assert(t.inner.listeners@[a] == o.inner.listeners@[a]);
                    assert(!o.has_listener(widget, event_name@));
                }
            }
            assert(t.wf());
            assert(t.has_listener(widget, event_name@));
            let aw = choose|a: int|
                0 <= a < t.inner.listeners@.len() && (#[trigger] t.inner.listeners@[a]).widget_id
                    == widget && t.inner.listeners@[a].event_name@ == event_name@;
            assert(aw == idx as int);
            assert(t.listener_for(widget, event_name@) == handler);
            assert forall|w2: UiWidgetId, n2: Seq<char>|
                !(w2 == widget && n2 == event_name@) implies #[trigger] t.has_listener(w2, n2)
                == o.has_listener(w2, n2) by {
                if o.has_listener(w2, n2) {
                    let a = choose|a: int|
                        0 <= a < o.inner.listeners@.len() && (#[trigger] o.inner.listeners@[a]).widget_id
                            == w2 && o.inner.listeners@[a].event_name@ == n2;
                    assert(t.inner.listeners@[a].widget_id == w2 && t.inner.listeners@[a].event_name@
                        == n2);
                }
                if t.has_listener(w2, n2) {
                    let a = choose|a: int|
                        0 <= a < t.inner.listeners@.len() && (#[trigger] t.inner.listeners@[a]).widget_id
                            == w2 && t.inner.listeners@[a].event_name@ == n2;
                    assert(0 <= a < o.inner.listeners@.len());
                    assert(o.inner.listeners@[a].widget_id == w2 && o.inner.listeners@[a].event_name@
                        == n2);
                }
            }
            assert forall|w2: UiWidgetId, n2: Seq<char>|
                !(w2 == widget && n2 == event_name@) && o.has_listener(w2, n2) implies #[trigger] t.listener_for(
                w2,
                n2,
            ) == o.listener_for(w2, n2) by {
                let a1 = choose|a: int|
                    0 <= a < t.inner.listeners@.len() && (#[trigger] t.inner.listeners@[a]).widget_id
                        == w2 && t.inner.listeners@[a].event_name@ == n2;
                let a2 = choose|a: int|
                    0 <= a < o.inner.listeners@.len() && (#[trigger] o.inner.listeners@[a]).widget_id
                        == w2 && o.inner.listeners@[a].event_name@ == n2;
                assert(t.inner.listeners@[a2].widget_id == w2 && t.inner.listeners@[a2].event_name@
                    == n2);
                assert(a1 == a2);
            }
        }
    }

    /// Delivers one event on the sandbox side: exactly the callback
    /// registered for this (widget id, event name) pair — and no other — is
    /// scheduled once on the run queue; with no registration, nothing is
    /// scheduled. Registrations are never changed by delivery.
    pub fn call_listener_handler(&mut self, widget: UiWidgetId, event_name: &UiEventName) -> (r:
        Option<HandlerId>)
        requires
            old(self).wf(),
        ensures
            final(self).wf(),
            final(self).inner.listeners@ == old(self).inner.listeners@,
            old(self).has_listener(widget, event_name@) ==> r == Some(
                old(self).listener_for(widget, event_name@),
            ) && final(self).scheduled@ == old(self).scheduled@.push(
                old(self).listener_for(widget, event_name@),
            ),
            !old(self).has_listener(widget, event_name@) ==> r is None && final(self).scheduled@
                == old(self).scheduled@,
    {
        match self.find_entry(widget, event_name) {
            Some(a) => {
                let h = self.inner.listeners[a].handler;
                self.scheduled.push(h);
                Some(h)
            },
            None => None,
        }
    }
}

/// The sandbox's pending-event queue, fed by the host on user interaction and
/// drained by the sandbox's cooperative poll loop.
pub struct EventReceiver {
    pub pending: Vec<UiEvent>,
    pub connected: bool,
}

/// What one poll of the event queue observes.
pub enum EventPoll {
    Ready(UiEvent),
    Pending,
    Disconnected,
}

impl EventReceiver {
    pub fn new() -> (r: EventReceiver)
        ensures
            r.pending@.len() == 0,
            r.connected,
    {
        EventReceiver { pending: Vec::new(), connected: true }
    }

    /// The host enqueues a notification; on a torn-down queue it is dropped.
    pub fn host_push(&mut self, event: UiEvent)
        ensures
            old(self).connected ==> final(self).pending@ == old(self).pending@.push(event),
            !old(self).connected ==> *final(self) == *old(self),
            final(self).connected == old(self).connected,
    {
        if self.connected {
            self.pending.push(event);
        }
    }

    /// One cooperative poll: the oldest pending event if there is one, a wait
    /// while the queue is live but empty, and a disconnect failure — never a
    /// hang — once the queue was torn down and drained.
    pub fn poll_next(&mut self) -> (r: EventPoll)
        ensures
            final(self).connected == old(self).connected,
            old(self).pending@.len() > 0 ==> r == EventPoll::Ready(old(self).pending@[0])
                && final(self).pending@ == old(self).pending@.drop_first(),
            old(self).pending@.len() == 0 && old(self).connected ==> r is Pending && *final(self)
                == *old(self),
            old(self).pending@.len() == 0 && !old(self).connected ==> r is Disconnected
                && *final(self) == *old(self),
    {
        if self.pending.len() > 0 {
            let ev = self.pending.remove(0);
            proof {
                assert(self.pending@ =~= old(self).pending@.drop_first());
            }
            EventPoll::Ready(ev)
        } else if self.connected {
            EventPoll::Pending
        } else {
            EventPoll::Disconnected
        }
    }

    /// The host abandons the queue; pending events may still be drained, and
    /// polls after that resolve with a disconnect.
    pub fn teardown(&mut self)
        ensures
            !final(self).connected,
            final(self).pending@ == old(self).pending@,
    {
        self.connected = false;
    }
}

} // verus!

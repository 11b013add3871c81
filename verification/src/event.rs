//! Semantic navigation events and the callback registry that dispatches
//! them.
//!
//! The registry keeps, per event kind, an ordered list of handler ids; a
//! single counter issues ids that are never reused.  Dispatch copies the
//! list for the event's kind before invoking anything, so a handler may
//! register or deregister during dispatch without disturbing the in-flight
//! iteration, and stops at the first handler that answers
//! [`EventState::Final`].

use vstd::prelude::*;
use crate::fx::Fx;
use crate::control::PixelPoint;

verus! {

/// Identity of a mouse button.
#[derive(Clone, Copy, Debug, PartialEq, Eq, Structural)]
pub enum MouseButton {
    Left,
    Right,
    Middle,
    Other(u16),
}

/// A press and a release close together: a click at a position.
#[derive(Clone, Copy, Debug, PartialEq, Eq, Structural)]
pub struct ClickEvent {
    pub cursor_position: PixelPoint,
    pub button: MouseButton,
}

/// Two clicks close together.
#[derive(Clone, Copy, Debug, PartialEq, Eq, Structural)]
pub struct DoubleClickEvent {}

/// A cursor move while a button is held: a pixel delta, the button (by the
/// fixed left-over-right-over-middle priority), and the cursor position.
#[derive(Clone, Copy, Debug, PartialEq, Eq, Structural)]
pub struct DragEvent {
    pub dx: i32,
    pub dy: i32,
    pub button: MouseButton,
    pub curr_cursor_position: PixelPoint,
}

/// A wheel turn mapped to a multiplicative resolution factor, anchored at
/// the cursor.
#[derive(Clone, Copy, Debug, PartialEq, Eq, Structural)]
pub struct ZoomEvent {
    pub delta: Fx,
    pub cursor_position: PixelPoint,
}

/// What a handler answers: keep dispatching, or stop after this handler.
#[derive(Clone, Copy, Debug, PartialEq, Eq, Structural)]
pub enum EventState {
    Continue,
    Final,
}

/// The event kinds the registry distinguishes.
#[derive(Clone, Copy, Debug, PartialEq, Eq, Structural)]
pub enum EventKind {
    Click,
    DoubleClick,
    Drag,
    Zoom,
}

/// One semantic navigation event.
#[derive(Clone, Copy, Debug, PartialEq, Eq, Structural)]
pub enum MapEvent {
    Click(ClickEvent),
    DoubleClick(DoubleClickEvent),
    Drag(DragEvent),
    Zoom(ZoomEvent),
}

impl MapEvent {
    /// The kind under which handlers for this event register.
    pub open spec fn spec_kind(self) -> EventKind {
        match self {
            MapEvent::Click(_) => EventKind::Click,
            MapEvent::DoubleClick(_) => EventKind::DoubleClick,
            MapEvent::Drag(_) => EventKind::Drag,
            MapEvent::Zoom(_) => EventKind::Zoom,
        }
    }

    /// The kind under which handlers for this event register.
    pub fn kind(&self) -> (k: EventKind)
        ensures
            k == self.spec_kind(),
    {
        match self {
            MapEvent::Click(_) => EventKind::Click,
            MapEvent::DoubleClick(_) => EventKind::DoubleClick,
            MapEvent::Drag(_) => EventKind::Drag,
            MapEvent::Zoom(_) => EventKind::Zoom,
        }
    }
}

/// What dispatch calls back into: one object that interprets handler ids.
/// The registry stores only ids; the handler decides what each id does and
/// may mutate the registry while handling (registration during dispatch is
/// safe because dispatch iterates over a snapshot).
pub trait EventHandler {
    /// Handles one dispatched event under the given handler id.
    fn handle(&mut self, store: &mut HandlerStore, handler_id: usize, event: &MapEvent) -> (r:
        EventState)
        requires
            old(store).wf(),
        ensures
            final(store).wf(),
            old(store).next_id <= final(store).next_id,
    ;
}

/// The callback registry: per event kind an ordered list of handler ids,
/// and the counter that issues them.
pub struct HandlerStore {
    pub next_id: usize,
    pub click: Vec<usize>,
    pub double_click: Vec<usize>,
    pub drag: Vec<usize>,
    pub zoom: Vec<usize>,
}

impl HandlerStore {
    /// The registered ids for one kind, in registration order.
    pub open spec fn spec_list(self, kind: EventKind) -> Seq<usize> {
        match kind {
            EventKind::Click => self.click@,
            EventKind::DoubleClick => self.double_click@,
            EventKind::Drag => self.drag@,
            EventKind::Zoom => self.zoom@,
        }
    }

    /// Well-formed: ids never exceed the counter, and each list ascends
    /// strictly — registration order, every id at most once, and a removed
    /// id can never return because the counter only grows.
    pub open spec fn wf(self) -> bool {
        &&& forall|kind: EventKind, i: int|
            0 <= i < self.spec_list(kind).len() ==> #[trigger] self.spec_list(kind)[i]
                <= self.next_id
        &&& forall|kind: EventKind, i: int, j: int|
            0 <= i < j < self.spec_list(kind).len() ==> #[trigger] self.spec_list(kind)[i]
                < #[trigger] self.spec_list(kind)[j]
    }

    /// An empty registry.
    pub fn new() -> (r: Self)
        ensures
            r.wf(),
            r.next_id == 0,
            forall|kind: EventKind| #[trigger] r.spec_list(kind) == Seq::<usize>::empty(),
    {
        let r = Self {
            next_id: 0,
            click: Vec::new(),
            double_click: Vec::new(),
            drag: Vec::new(),
            zoom: Vec::new(),
        };
        proof {
            assert forall|kind: EventKind| #[trigger] r.spec_list(kind) =~= Seq::<usize>::empty()
                by {}
        }
        r
    }

    /// Registers a handler id under the given kind and returns it.  Ids are
    /// issued by a single counter, so an id is never reused, even after
    /// removal.
    pub fn on(&mut self, kind: EventKind) -> (id: usize)
        requires
            old(self).wf(),
            old(self).next_id < usize::MAX,
        ensures
            final(self).wf(),
            id == old(self).next_id + 1,
            final(self).next_id == id,
            final(self).spec_list(kind) == old(self).spec_list(kind).push(id),
            forall|k: EventKind|
                k != kind ==> #[trigger] final(self).spec_list(k) == old(self).spec_list(k),
            forall|k: EventKind| !(#[trigger] old(self).spec_list(k)).contains(id),
    {
        self.next_id = self.next_id + 1;
        let id = self.next_id;
        match kind {
            EventKind::Click => self.click.push(id),
            EventKind::DoubleClick => self.double_click.push(id),
            EventKind::Drag => self.drag.push(id),
            EventKind::Zoom => self.zoom.push(id),
        }
        proof {
            assert forall|k: EventKind| !(#[trigger] old(self).spec_list(k)).contains(id) by {
                if old(self).spec_list(k).contains(id) {
                    let w = choose|w: int|
                        0 <= w < old(self).spec_list(k).len() && old(self).spec_list(k)[w] == id;
                    assert(old(self).spec_list(k)[w] <= old(self).next_id);
                }
            }
            assert(self.spec_list(kind) == old(self).spec_list(kind).push(id));
            assert forall|k: EventKind, i: int|
                0 <= i < self.spec_list(k).len() implies #[trigger] self.spec_list(k)[i]
                <= self.next_id by {
                if k == kind {
                    if i < old(self).spec_list(k).len() {
                        assert(self.spec_list(k)[i] == old(self).spec_list(k)[i]);
                        assert(old(self).spec_list(k)[i] <= old(self).next_id);
                    } else {
                        assert(self.spec_list(k)[i] == id);
                    }
                } else {
                    assert(self.spec_list(k) == old(self).spec_list(k));
                    assert(old(self).spec_list(k)[i] <= old(self).next_id);
                }
            }
            assert forall|k: EventKind, i: int, j: int|
                0 <= i < j < self.spec_list(k).len() implies #[trigger] self.spec_list(k)[i]
                < #[trigger] self.spec_list(k)[j] by {
                if k == kind {
                    if j < old(self).spec_list(k).len() {
                        assert(self.spec_list(k)[i] == old(self).spec_list(k)[i]);
                        assert(self.spec_list(k)[j] == old(self).spec_list(k)[j]);
                        assert(old(self).spec_list(k)[i] < old(self).spec_list(k)[j]);
                    } else {
                        assert(self.spec_list(k)[j] == id);
                        assert(self.spec_list(k)[i] == old(self).spec_list(k)[i]);
                        assert(old(self).spec_list(k)[i] <= old(self).next_id);
                    }
                } else {
                    assert(self.spec_list(k) == old(self).spec_list(k));
                    assert(old(self).spec_list(k)[i] < old(self).spec_list(k)[j]);
                }
            }
        }
        id
    }

    /// Deregisters the handler id from the given kind's list; an unknown id
    /// is a silent no-op.
    pub fn off(&mut self, kind: EventKind, handler_id: usize)
        requires
            old(self).wf(),
        ensures
            final(self).wf(),
            final(self).next_id == old(self).next_id,
            forall|k: EventKind|
                k != kind ==> #[trigger] final(self).spec_list(k) == old(self).spec_list(k),
            !old(self).spec_list(kind).contains(handler_id) ==> final(self).spec_list(kind) == old(
                self,
            ).spec_list(kind),
            old(self).spec_list(kind).contains(handler_id) ==> exists|w: int|
                0 <= w < old(self).spec_list(kind).len() && old(self).spec_list(kind)[w]
                    == handler_id && final(self).spec_list(kind) == old(self).spec_list(
                    kind,
                ).remove(w),
            !final(self).spec_list(kind).contains(handler_id),
    {
        proof {
            assert forall|i: int, j: int|
                0 <= i < j < self.spec_list(kind).len() implies #[trigger] self.spec_list(
                kind,
            )[i] < #[trigger] self.spec_list(kind)[j] by {}
        }
        match kind {
            EventKind::Click => remove_first_id(&mut self.click, handler_id),
            EventKind::DoubleClick => remove_first_id(&mut self.double_click, handler_id),
            EventKind::Drag => remove_first_id(&mut self.drag, handler_id),
            EventKind::Zoom => remove_first_id(&mut self.zoom, handler_id),
        }
        proof {
            assert forall|k: EventKind, i: int|
                0 <= i < self.spec_list(k).len() implies #[trigger] self.spec_list(k)[i]
                <= self.next_id by {
                if k == kind {
                    assert(old(self).spec_list(k).contains(self.spec_list(k)[i]));
                    let w = choose|w: int|
                        0 <= w < old(self).spec_list(k).len() && old(self).spec_list(k)[w]
                            == self.spec_list(k)[i];
                    assert(old(self).spec_list(k)[w] <= old(self).next_id);
                } else {
                    assert(self.spec_list(k) == old(self).spec_list(k));
                    assert(old(self).spec_list(k)[i] <= old(self).next_id);
                }
            }
            assert forall|k: EventKind, i: int, j: int|
                0 <= i < j < self.spec_list(k).len() implies #[trigger] self.spec_list(k)[i]
                < #[trigger] self.spec_list(k)[j] by {
                if k != kind {
                    assert(self.spec_list(k) == old(self).spec_list(k));
                    assert(old(self).spec_list(k)[i] < old(self).spec_list(k)[j]);
                }
            }
        }
    }

    /// A copy of the registered ids for one kind, in registration order:
    /// the snapshot that dispatch iterates.
    pub fn get_store(&self, kind: EventKind) -> (r: Vec<usize>)
        ensures
            r@ == self.spec_list(kind),
    {
        match kind {
            EventKind::Click => copy_ids(&self.click),
            EventKind::DoubleClick => copy_ids(&self.double_click),
            EventKind::Drag => copy_ids(&self.drag),
            EventKind::Zoom => copy_ids(&self.zoom),
        }
    }
}

impl Default for HandlerStore {
    /// An empty registry.
    fn default() -> (r: Self)
        ensures
            r.wf(),
            r.next_id == 0,
            forall|kind: EventKind| #[trigger] r.spec_list(kind) == Seq::<usize>::empty(),
    {
        Self::new()
    }
}

/// Dispatches one event: copies the id list for the event's kind, then
/// invokes the handler on each id in registration order, recording each
/// answer, and stops after the first `Final` answer.  Ids registered or
/// removed by a handler while dispatching take effect for later triggers,
/// never for this one.  Returns the invoked ids with their answers: a
/// prefix of the snapshot in which every answer but the last is
/// `Continue`, and which ends before the snapshot's end only on a `Final`
/// answer — so while the handler keeps answering `Continue`, dispatch
/// walks the whole snapshot.
pub fn trigger_event<H: EventHandler>(
    store: &mut HandlerStore,
    handler: &mut H,
    event: &MapEvent,
) -> (invoked: Vec<(usize, EventState)>)
    requires
        old(store).wf(),
    ensures
        final(store).wf(),
        old(store).next_id <= final(store).next_id,
        ({
            let snap = old(store).spec_list(event.spec_kind());
            &&& invoked@.len() <= snap.len()
            &&& forall|i: int| 0 <= i < invoked@.len() ==> (#[trigger] invoked@[i]).0 == snap[i]
            &&& forall|i: int|
                0 <= i < invoked@.len() - 1 ==> (#[trigger] invoked@[i]).1 == EventState::Continue
            &&& invoked@.len() < snap.len() ==> invoked@.len() >= 1 && invoked@[invoked@.len()
                - 1].1 == EventState::Final
        }),
        invoked@.len() == 0 ==> *final(store) == *old(store),
{
    let snapshot = store.get_store(event.kind());
    let mut invoked: Vec<(usize, EventState)> = Vec::new();
    let mut i: usize = 0;
    while i < snapshot.len()
        invariant
            store.wf(),
            old(store).next_id <= store.next_id,
            i <= snapshot.len(),
            snapshot@ == old(store).spec_list(event.spec_kind()),
            invoked@.len() == i,
            forall|k: int| 0 <= k < i ==> (#[trigger] invoked@[k]).0 == snapshot@[k],
            forall|k: int| 0 <= k < i ==> (#[trigger] invoked@[k]).1 == EventState::Continue,
            i == 0 ==> *store == *old(store),
        decreases snapshot.len() - i,
    {
        let id = snapshot[i];
        let answer = handler.handle(store, id, event);
        invoked.push((id, answer));
        if answer == EventState::Final {
            return invoked;
        }
        i += 1;
    }
    invoked
}

/// Removes the first occurrence of `id` from a strictly ascending id list.
fn remove_first_id(v: &mut Vec<usize>, id: usize)
    requires
        forall|i: int, j: int| 0 <= i < j < old(v)@.len() ==> old(v)@[i] < old(v)@[j],
    ensures
        forall|i: int, j: int| 0 <= i < j < final(v)@.len() ==> final(v)@[i] < final(v)@[j],
        forall|i: int|
            0 <= i < final(v)@.len() ==> old(v)@.contains(#[trigger] final(v)@[i]),
        !old(v)@.contains(id) ==> final(v)@ == old(v)@,
        old(v)@.contains(id) ==> exists|w: int|
            0 <= w < old(v)@.len() && old(v)@[w] == id && final(v)@ == old(v)@.remove(w),
        !final(v)@.contains(id),
{
    let ghost before = v@;
    let mut i: usize = 0;
    while i < v.len()
        invariant
            i <= v.len(),
            v@ == before,
            before == old(v)@,
            forall|x: int, y: int| 0 <= x < y < before.len() ==> before[x] < before[y],
            forall|j: int| 0 <= j < i ==> before[j] != id,
        decreases v.len() - i,
    {
        if v[i] == id {
            v.remove(i);
            proof {
                before.remove_ensures(i as int);
                let after = v@;
                assert forall|x: int, y: int| 0 <= x < y < after.len() implies after[x] < after[y]
                    by {
                    let px: int = if x < i as int {
                        x
                    } else {
                        x + 1
                    };
                    let py: int = if y < i as int {
                        y
                    } else {
                        y + 1
                    };
                    assert(after[x] == before[px]);
                    assert(after[y] == before[py]);
                }
                assert forall|j: int| 0 <= j < after.len() implies old(v)@.contains(#[trigger] after[j])
                    by {
                    if j < i {
                        assert(after[j] == before[j]);
                    } else {
                        assert(after[j] == before[j + 1]);
                    }
                }
                assert(before[i as int] == id);
                assert(before.contains(id));
                assert forall|j: int| 0 <= j < after.len() implies after[j] != id by {
                    if j < i {
                        assert(after[j] == before[j]);
                    } else {
                        assert(after[j] == before[j + 1]);
                        assert(before[i as int] < before[j + 1]);
                    }
                }
            }
            return ;
        }
        i += 1;
    }
}

/// A copy of an id list.
fn copy_ids(v: &Vec<usize>) -> (r: Vec<usize>)
    ensures
        r@ == v@,
{
    let mut out: Vec<usize> = Vec::new();
    let mut i: usize = 0;
    while i < v.len()
        invariant
            i <= v.len(),
            out@ == v@.take(i as int),
        decreases v.len() - i,
    {
        out.push(v[i]);
        proof {
            assert(out@ =~= v@.take(i as int + 1));
        }
        i += 1;
    }
    proof {
        assert(out@ =~= v@);
    }
    out
}

} // verus!

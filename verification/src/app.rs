//! The application: the element arena, the reactive store, the event
//! dispatch decisions and the compositing of a frame.

use vstd::prelude::*;

use slotmap::DefaultKey;

use crate::arena::ElemStore;
use crate::arena::elem_entries;
use crate::arena::elem_issued;
use crate::arena::elem_map_get;
use crate::arena::elem_map_get_mut;
use crate::arena::elem_map_insert;
use crate::arena::elem_map_keys;
use crate::arena::elem_map_new;
use crate::arena::elem_map_remove;
use crate::color::Color;
use crate::element::Element;
use crate::element::Registry;
use crate::element::active_tokens;
use crate::event::ButtonState;
use crate::event::Event;
use crate::event::Modifiers;
use crate::event::MouseButton;
use crate::event::MouseEvent;
use crate::event::MouseMoveEvent;
use crate::event::ResizeEvent;
use crate::react::Context;
use crate::react::IntervalId;
use crate::react::ProxyEvent;
use crate::react::ReadSignal;
use crate::react::SignalValue;
use crate::react::TimeoutId;
use crate::react::WriteSignal;
use crate::util::IVec2;

verus! {

/// The generational identifier of an element in the arena. It is never
/// forged from a raw integer, and it never aliases an element inserted
/// after its own was removed.
#[derive(Debug, Clone, Copy, PartialEq, Eq)]
pub struct ElementId(pub DefaultKey);

/// A reference to a handler registered on the application itself rather
/// than on an element.
#[derive(Debug, Clone, Copy, PartialEq, Eq, Structural)]
pub enum AppHandlerId {
    Resize(usize),
}

/// Window coordinates stay far inside the signed range, so pointer deltas
/// never overflow.
pub open spec fn coord_bounded(v: IVec2) -> bool {
    -0x2000_0000 <= v.x <= 0x2000_0000 && -0x2000_0000 <= v.y <= 0x2000_0000
}

/// The pointer position lies inside the element's box.
pub open spec fn pointer_hits(entries: Map<DefaultKey, Element>, id: ElementId, pos: IVec2) -> bool {
    entries.dom().contains(id.0) && entries[id.0].spec_bounding_box().spec_contains(pos)
}

/// `post` is `pre` with exactly the element at `k` having absorbed the
/// notification: its widget updated, all its other state and every other
/// element untouched.
pub open spec fn element_updated_at(
    pre: Map<DefaultKey, Element>,
    post: Map<DefaultKey, Element>,
    k: DefaultKey,
    ev: Event,
) -> bool {
    &&& post.dom() == pre.dom()
    &&& crate::element::ElementInner::updated_from(
        pre[k].spec_inner(),
        post[k].spec_inner(),
        ev,
    )
    &&& post[k].spec_classes() == pre[k].spec_classes()
    &&& post[k].spec_hidden() == pre[k].spec_hidden()
    &&& post[k].spec_offset() == pre[k].spec_offset()
    &&& post[k].spec_z_index() == pre[k].spec_z_index()
    &&& post[k].spec_handlers() == pre[k].spec_handlers()
    &&& forall|k2: DefaultKey| k2 != k && pre.dom().contains(k2) ==> post[k2] == pre[k2]
}

/// The frame a sequence of elements composes, drawn in order onto a
/// background-filled buffer.
pub open spec fn spec_render(
    entries: Map<DefaultKey, Element>,
    ks: Seq<DefaultKey>,
    width: int,
    height: int,
    background: Color,
) -> Seq<Color>
    decreases ks.len(),
{
    if ks.len() == 0 {
        Seq::new((width * height) as nat, |i: int| background)
    } else {
        entries[ks.last()].spec_drawn_onto(
            spec_render(entries, ks.drop_last(), width, height, background),
            width,
            height,
        )
    }
}

/// A draw order: each live element exactly once.
pub open spec fn valid_key_order(ks: Seq<DefaultKey>, dom: Set<DefaultKey>) -> bool {
    ks.no_duplicates() && (forall|k: DefaultKey| #[trigger] ks.contains(k) <==> dom.contains(k))
}

/// Arena generational safety: take any application, remove an element, then
/// insert a new one — even into the same underlying slot. The insertion's
/// identifier differs from the removed one, the removed identifier resolves
/// to nothing, and the new identifier resolves to the new element. The
/// hypotheses are exactly what `remove_element` and `insert_element` ensure.
pub proof fn lemma_arena_generational_safety(
    pre: Application,
    mid: Application,
    post: Application,
    removed: ElementId,
    fresh: ElementId,
    el: Element,
)
    requires
        pre.spec_elements_issued().contains(removed.0),
        mid.spec_elements() == pre.spec_elements().remove(removed.0),
        mid.spec_elements_issued() == pre.spec_elements_issued(),
        !mid.spec_elements_issued().contains(fresh.0),
        post.spec_elements() == mid.spec_elements().insert(fresh.0, el),
    ensures
        fresh != removed,
        !post.spec_elements().dom().contains(removed.0),
        post.spec_elements().dom().contains(fresh.0),
        post.spec_elements()[fresh.0] == el,
{
}

/// The single-threaded owner of the element arena, the reactive store and
/// the dispatch decisions.
pub struct Application {
    background: Color,
    mouse_position: IVec2,
    modifiers: Modifiers,
    elements: ElemStore,
    ctx: Context,
    resize_handlers: Registry,
    element_inserts: u64,
}

impl Application {
    pub closed spec fn spec_background(self) -> Color {
        self.background
    }

    pub closed spec fn spec_mouse_position(self) -> IVec2 {
        self.mouse_position
    }

    pub closed spec fn spec_modifiers(self) -> Modifiers {
        self.modifiers
    }

    pub closed spec fn spec_elements(self) -> Map<DefaultKey, Element> {
        elem_entries(self.elements)
    }

    pub closed spec fn spec_elements_issued(self) -> Set<DefaultKey> {
        elem_issued(self.elements)
    }

    pub closed spec fn spec_ctx(self) -> Context {
        self.ctx
    }

    pub closed spec fn spec_resize_handlers(self) -> Seq<Option<u64>> {
        self.resize_handlers@
    }

    pub closed spec fn spec_element_inserts(self) -> u64 {
        self.element_inserts
    }

    /// Every stored element is well-formed, the issued-key count is bounded
    /// by the insertion counter, and the reactive store is well-formed.
    pub open spec fn well_formed(self) -> bool {
        &&& self.spec_elements_issued().finite()
        &&& self.spec_elements_issued().len() <= self.spec_element_inserts()
        &&& self.spec_elements().dom().subset_of(self.spec_elements_issued())
        &&& forall|k: DefaultKey|
            self.spec_elements().dom().contains(k) ==> (#[trigger] self.spec_elements()[
                k
            ]).well_formed()
        &&& self.spec_ctx().well_formed()
        &&& coord_bounded(self.spec_mouse_position())
    }

    /// All state other than the elements is the same.
    pub open spec fn non_element_state_unchanged(pre: Application, post: Application) -> bool {
        &&& post.spec_background() == pre.spec_background()
        &&& post.spec_mouse_position() == pre.spec_mouse_position()
        &&& post.spec_modifiers() == pre.spec_modifiers()
        &&& post.spec_ctx() == pre.spec_ctx()
        &&& post.spec_resize_handlers() == pre.spec_resize_handlers()
        &&& post.spec_element_inserts() == pre.spec_element_inserts()
    }

    /// All state other than the reactive store is the same.
    pub open spec fn non_ctx_state_unchanged(pre: Application, post: Application) -> bool {
        &&& post.spec_background() == pre.spec_background()
        &&& post.spec_mouse_position() == pre.spec_mouse_position()
        &&& post.spec_modifiers() == pre.spec_modifiers()
        &&& post.spec_elements() == pre.spec_elements()
        &&& post.spec_elements_issued() == pre.spec_elements_issued()
        &&& post.spec_resize_handlers() == pre.spec_resize_handlers()
        &&& post.spec_element_inserts() == pre.spec_element_inserts()
    }

    /// A fresh application around a black background, used by the builder.
    pub fn builder() -> (b: ApplicationBuilder)
        ensures
            b.spec_app().spec_background() == Color(false),
            b.spec_app().spec_elements() == (Map::<DefaultKey, Element>::empty()),
            b.spec_app().spec_elements_issued() == (Set::<DefaultKey>::empty()),
            b.spec_app().spec_ctx().spec_signals() == Seq::<SignalValue>::empty(),
            b.spec_app().spec_ctx().spec_clean(),
            b.spec_app().spec_ctx().spec_pending() == Seq::<ProxyEvent>::empty(),
            b.spec_app().spec_resize_handlers() == Seq::<Option<u64>>::empty(),
            b.spec_app().well_formed(),
    {
        ApplicationBuilder {
            app: Application {
                background: Color::black(),
                mouse_position: IVec2::new(0, 0),
                modifiers: Modifiers::default(),
                elements: elem_map_new(),
                ctx: Context::new(),
                resize_handlers: Registry::new(),
                element_inserts: 0,
            },
        }
    }

    /// Inserts an element and returns a stable identifier no earlier or
    /// later element of this application ever shares.
    pub fn insert_element(&mut self, element: Element) -> (id: ElementId)
        requires
            old(self).well_formed(),
            element.well_formed(),
            old(self).spec_element_inserts() < 0x8000_0000,
        ensures
            !old(self).spec_elements_issued().contains(id.0),
            final(self).spec_elements() == old(self).spec_elements().insert(id.0, element),
            final(self).spec_elements_issued() == old(self).spec_elements_issued().insert(id.0),
            final(self).spec_element_inserts() == old(self).spec_element_inserts() + 1,
            final(self).spec_background() == old(self).spec_background(),
            final(self).spec_mouse_position() == old(self).spec_mouse_position(),
            final(self).spec_modifiers() == old(self).spec_modifiers(),
            final(self).spec_ctx() == old(self).spec_ctx(),
            final(self).spec_resize_handlers() == old(self).spec_resize_handlers(),
            final(self).well_formed(),
    {
        let key = elem_map_insert(&mut self.elements, element);
        self.element_inserts = self.element_inserts + 1;
        ElementId(key)
    }

    /// Removes an element; its identifier resolves to nothing from now on,
    /// forever.
    pub fn remove_element(&mut self, id: ElementId) -> (r: Option<Element>)
        requires
            old(self).well_formed(),
        ensures
            final(self).spec_elements() == old(self).spec_elements().remove(id.0),
            final(self).spec_elements_issued() == old(self).spec_elements_issued(),
            match r {
                Some(el) => old(self).spec_elements().dom().contains(id.0) && el == old(self).spec_elements()[id.0],
                None => !old(self).spec_elements().dom().contains(id.0),
            },
            Application::non_element_state_unchanged(*old(self), *final(self)),
            final(self).well_formed(),
    {
        elem_map_remove(&mut self.elements, id.0)
    }

    /// Borrows a live element. The caller must know the identifier is live;
    /// otherwise use `try_get`.
    pub fn get(&self, id: ElementId) -> (r: &Element)
        requires
            self.spec_elements().dom().contains(id.0),
        ensures
            *r == self.spec_elements()[id.0],
    {
        match elem_map_get(&self.elements, id.0) {
            Some(el) => el,
            None => vstd::pervasive::unreached(),
        }
    }

    /// Borrows an element if its identifier is still live.
    pub fn try_get(&self, id: ElementId) -> (r: Option<&Element>)
        ensures
            match r {
                Some(el) => self.spec_elements().dom().contains(id.0) && *el == self.spec_elements()[
                    id.0
                ],
                None => !self.spec_elements().dom().contains(id.0),
            },
    {
        elem_map_get(&self.elements, id.0)
    }

    /// Mutably borrows a live element. Keeping the element well-formed
    /// keeps the application well-formed.
    pub fn get_mut(&mut self, id: ElementId) -> (r: &mut Element)
        requires
            old(self).well_formed(),
            old(self).spec_elements().dom().contains(id.0),
        ensures
            *r == old(self).spec_elements()[id.0],
            final(self).spec_elements() == old(self).spec_elements().insert(id.0, *final(r)),
            final(self).spec_elements_issued() == old(self).spec_elements_issued(),
            Application::non_element_state_unchanged(*old(self), *final(self)),
            final(r).well_formed() ==> final(self).well_formed(),
    {
        match elem_map_get_mut(&mut self.elements, id.0) {
            Some(el) => el,
            None => vstd::pervasive::unreached(),
        }
    }

    /// Mutably borrows an element if its identifier is still live.
    pub fn try_get_mut(&mut self, id: ElementId) -> (r: Option<&mut Element>)
        requires
            old(self).well_formed(),
        ensures
            final(self).spec_elements_issued() == old(self).spec_elements_issued(),
            Application::non_element_state_unchanged(*old(self), *final(self)),
            match r {
                Some(el) => old(self).spec_elements().dom().contains(id.0) && *el == old(self).spec_elements()[id.0] && final(self).spec_elements() == old(self).spec_elements().insert(id.0, *final(el)) && (final(el).well_formed() ==> final(self).well_formed()),
                None => !old(self).spec_elements().dom().contains(id.0) && final(self).spec_elements() == old(self).spec_elements() && final(self).well_formed(),
            },
    {
        elem_map_get_mut(&mut self.elements, id.0)
    }

    /// How many elements have ever been inserted; the arena accepts new
    /// elements while this stays below its capacity bound.
    pub fn element_insert_count(&self) -> (r: u64)
        ensures
            r == self.spec_element_inserts(),
    {
        self.element_inserts
    }

    /// How many one-shot timers have ever been scheduled.
    pub fn timeout_count(&self) -> (r: u64)
        ensures
            r == self.spec_ctx().spec_timeout_count(),
    {
        self.ctx.timeout_count()
    }

    /// How many repeating timers have ever been scheduled.
    pub fn interval_count(&self) -> (r: u64)
        ensures
            r == self.spec_ctx().spec_interval_count(),
    {
        self.ctx.interval_count()
    }

    pub fn get_background(&self) -> (c: Color)
        ensures
            c == self.spec_background(),
    {
        self.background
    }

    pub fn set_background(&mut self, background: Color)
        ensures
            final(self).spec_background() == background,
            final(self).spec_mouse_position() == old(self).spec_mouse_position(),
            final(self).spec_modifiers() == old(self).spec_modifiers(),
            final(self).spec_elements() == old(self).spec_elements(),
            final(self).spec_elements_issued() == old(self).spec_elements_issued(),
            final(self).spec_ctx() == old(self).spec_ctx(),
            final(self).spec_resize_handlers() == old(self).spec_resize_handlers(),
            final(self).spec_element_inserts() == old(self).spec_element_inserts(),
            old(self).well_formed() ==> final(self).well_formed(),
    {
        self.background = background;
    }

    /// Registers an application-level window-resize handler token.
    pub fn on_resize(&mut self, token: u64) -> (id: AppHandlerId)
        ensures
            id == AppHandlerId::Resize(old(self).spec_resize_handlers().len() as usize),
            final(self).spec_resize_handlers() == old(self).spec_resize_handlers().push(
                Some(token),
            ),
            final(self).spec_background() == old(self).spec_background(),
            final(self).spec_mouse_position() == old(self).spec_mouse_position(),
            final(self).spec_modifiers() == old(self).spec_modifiers(),
            final(self).spec_elements() == old(self).spec_elements(),
            final(self).spec_elements_issued() == old(self).spec_elements_issued(),
            final(self).spec_ctx() == old(self).spec_ctx(),
            final(self).spec_element_inserts() == old(self).spec_element_inserts(),
            old(self).well_formed() ==> final(self).well_formed(),
    {
        let id = self.resize_handlers.insert(token);
        AppHandlerId::Resize(id)
    }

    /// The application-level resize handler tokens, in registration order.
    pub fn app_resize_tokens(&self) -> (r: Vec<u64>)
        ensures
            r@ == active_tokens(self.spec_resize_handlers()),
    {
        self.resize_handlers.tokens()
    }

    /// Allocates a signal cell; see the reactive store.
    pub fn create_signal(&mut self, init: SignalValue) -> (r: (ReadSignal, WriteSignal))
        ensures
            final(self).spec_ctx().spec_signals() == old(self).spec_ctx().spec_signals().push(
                init,
            ),
            r.0.spec_id().0 == old(self).spec_ctx().spec_signals().len(),
            r.1.spec_id() == r.0.spec_id(),
            final(self).spec_ctx().spec_clean() == old(self).spec_ctx().spec_clean(),
            final(self).spec_ctx().spec_pending() == old(self).spec_ctx().spec_pending(),
            Context::timers_unchanged(old(self).spec_ctx(), final(self).spec_ctx()),
            Application::non_ctx_state_unchanged(*old(self), *final(self)),
            old(self).well_formed() ==> final(self).well_formed(),
    {
        self.ctx.create_signal(init)
    }

    /// Writes a signal cell through its write handle, coalescing the
    /// re-render notification.
    pub fn signal_set(&mut self, handle: &WriteSignal, data: SignalValue)
        requires
            handle.spec_id().0 < old(self).spec_ctx().spec_signals().len(),
            data.spec_kind() == old(self).spec_ctx().spec_signals()[
                handle.spec_id().0 as int
            ].spec_kind(),
        ensures
            final(self).spec_ctx().spec_signals() == old(self).spec_ctx().spec_signals().update(
                handle.spec_id().0 as int,
                data,
            ),
            final(self).spec_ctx().spec_flag() == crate::react::spec_write_step(
                old(self).spec_ctx().spec_flag(),
            ),
            Context::timers_unchanged(old(self).spec_ctx(), final(self).spec_ctx()),
            Application::non_ctx_state_unchanged(*old(self), *final(self)),
            old(self).well_formed() ==> final(self).well_formed(),
    {
        handle.set(&mut self.ctx, data);
    }

    /// The try variant of `signal_set` for unvetted identifiers.
    pub fn signal_try_set(&mut self, handle: &WriteSignal, data: SignalValue) -> (r: Result<
        (),
        crate::react::SignalError,
    >)
        ensures
            r is Err ==> final(self).spec_ctx() == old(self).spec_ctx(),
            r is Ok ==> handle.spec_id().0 < old(self).spec_ctx().spec_signals().len()
                && data.spec_kind() == old(self).spec_ctx().spec_signals()[
                handle.spec_id().0 as int
            ].spec_kind() && final(self).spec_ctx().spec_signals() == old(self).spec_ctx().spec_signals().update(handle.spec_id().0 as int, data) && final(self).spec_ctx().spec_flag() == crate::react::spec_write_step(
                old(self).spec_ctx().spec_flag(),
            ),
            Context::timers_unchanged(old(self).spec_ctx(), final(self).spec_ctx()),
            Application::non_ctx_state_unchanged(*old(self), *final(self)),
            old(self).well_formed() ==> final(self).well_formed(),
    {
        handle.try_set(&mut self.ctx, data)
    }

    /// Reads a signal cell through its read handle.
    pub fn signal_get(&self, handle: &ReadSignal) -> (r: SignalValue)
        requires
            handle.spec_id().0 < self.spec_ctx().spec_signals().len(),
        ensures
            r == self.spec_ctx().spec_signals()[handle.spec_id().0 as int],
    {
        handle.get(&self.ctx)
    }

    /// The try variant of `signal_get` for unvetted identifiers.
    pub fn signal_try_get(&self, handle: &ReadSignal) -> (r: Option<SignalValue>)
        ensures
            match r {
                Some(v) => handle.spec_id().0 < self.spec_ctx().spec_signals().len() && v
                    == self.spec_ctx().spec_signals()[handle.spec_id().0 as int],
                None => handle.spec_id().0 >= self.spec_ctx().spec_signals().len(),
            },
    {
        handle.try_get(&self.ctx)
    }

    /// Schedules a one-shot timer under an identifier never issued before.
    pub fn set_timeout(&mut self, delay_ms: i64, token: u64) -> (id: TimeoutId)
        requires
            old(self).well_formed(),
            old(self).spec_ctx().spec_timeout_count() < 0x8000_0000,
        ensures
            !old(self).spec_ctx().spec_timeouts_issued().contains(id.0),
            final(self).spec_ctx().spec_timeouts() == old(self).spec_ctx().spec_timeouts().insert(
                id.0,
                crate::react::TimerEntry { token, delay_ms },
            ),
            final(self).spec_ctx().spec_timeouts_issued() == old(self).spec_ctx().spec_timeouts_issued().insert(id.0),
            final(self).spec_ctx().spec_intervals() == old(self).spec_ctx().spec_intervals(),
            final(self).spec_ctx().spec_intervals_issued() == old(self).spec_ctx().spec_intervals_issued(),
            Context::signals_and_flag_unchanged(old(self).spec_ctx(), final(self).spec_ctx()),
            Application::non_ctx_state_unchanged(*old(self), *final(self)),
            final(self).well_formed(),
    {
        self.ctx.set_timeout(delay_ms, token)
    }

    /// Cancels a one-shot timer: no invocation of it can follow, even if a
    /// firing notification is already queued.
    pub fn clear_timeout(&mut self, id: TimeoutId)
        ensures
            final(self).spec_ctx().spec_timeouts() == old(self).spec_ctx().spec_timeouts().remove(
                id.0,
            ),
            final(self).spec_ctx().spec_timeouts_issued() == old(self).spec_ctx().spec_timeouts_issued(),
            final(self).spec_ctx().spec_intervals() == old(self).spec_ctx().spec_intervals(),
            final(self).spec_ctx().spec_intervals_issued() == old(self).spec_ctx().spec_intervals_issued(),
            final(self).spec_ctx().spec_timeout_count() == old(self).spec_ctx().spec_timeout_count(),
            final(self).spec_ctx().spec_interval_count() == old(self).spec_ctx().spec_interval_count(),
            Context::signals_and_flag_unchanged(old(self).spec_ctx(), final(self).spec_ctx()),
            Application::non_ctx_state_unchanged(*old(self), *final(self)),
            old(self).well_formed() ==> final(self).well_formed(),
    {
        self.ctx.clear_timeout(id);
    }

    /// Schedules a repeating timer under an identifier never issued before.
    pub fn set_interval(&mut self, delay_ms: i64, token: u64) -> (id: IntervalId)
        requires
            old(self).well_formed(),
            old(self).spec_ctx().spec_interval_count() < 0x8000_0000,
        ensures
            !old(self).spec_ctx().spec_intervals_issued().contains(id.0),
            final(self).spec_ctx().spec_intervals() == old(self).spec_ctx().spec_intervals().insert(
                id.0,
                crate::react::TimerEntry { token, delay_ms },
            ),
            final(self).spec_ctx().spec_intervals_issued() == old(self).spec_ctx().spec_intervals_issued().insert(id.0),
            final(self).spec_ctx().spec_timeouts() == old(self).spec_ctx().spec_timeouts(),
            final(self).spec_ctx().spec_timeouts_issued() == old(self).spec_ctx().spec_timeouts_issued(),
            Context::signals_and_flag_unchanged(old(self).spec_ctx(), final(self).spec_ctx()),
            Application::non_ctx_state_unchanged(*old(self), *final(self)),
            final(self).well_formed(),
    {
        self.ctx.set_interval(delay_ms, token)
    }

    /// Cancels a repeating timer: no invocation of it can follow.
    pub fn clear_interval(&mut self, id: IntervalId)
        ensures
            final(self).spec_ctx().spec_intervals() == old(self).spec_ctx().spec_intervals().remove(id.0),
            final(self).spec_ctx().spec_intervals_issued() == old(self).spec_ctx().spec_intervals_issued(),
            final(self).spec_ctx().spec_timeouts() == old(self).spec_ctx().spec_timeouts(),
            final(self).spec_ctx().spec_timeouts_issued() == old(self).spec_ctx().spec_timeouts_issued(),
            Context::signals_and_flag_unchanged(old(self).spec_ctx(), final(self).spec_ctx()),
            Application::non_ctx_state_unchanged(*old(self), *final(self)),
            old(self).well_formed() ==> final(self).well_formed(),
    {
        self.ctx.clear_interval(id);
    }

    /// Consumes a fired one-shot timer: at most one invocation ever, none
    /// after a cancellation.
    pub fn timer_fired(&mut self, id: TimeoutId) -> (r: Option<u64>)
        ensures
            r == (if old(self).spec_ctx().spec_timeouts().dom().contains(id.0) {
                Some(old(self).spec_ctx().spec_timeouts()[id.0].token)
            } else {
                Option::<u64>::None
            }),
            final(self).spec_ctx().spec_timeouts() == old(self).spec_ctx().spec_timeouts().remove(
                id.0,
            ),
            final(self).spec_ctx().spec_timeouts_issued() == old(
                self,
            ).spec_ctx().spec_timeouts_issued(),
            final(self).spec_ctx().spec_intervals() == old(self).spec_ctx().spec_intervals(),
            final(self).spec_ctx().spec_intervals_issued() == old(
                self,
            ).spec_ctx().spec_intervals_issued(),
            final(self).spec_ctx().spec_timeout_count() == old(
                self,
            ).spec_ctx().spec_timeout_count(),
            final(self).spec_ctx().spec_interval_count() == old(
                self,
            ).spec_ctx().spec_interval_count(),
            Context::signals_and_flag_unchanged(old(self).spec_ctx(), final(self).spec_ctx()),
            Application::non_ctx_state_unchanged(*old(self), *final(self)),
            old(self).well_formed() ==> final(self).well_formed(),
    {
        self.ctx.take_timeout(id)
    }

    /// Looks a fired repeating timer up; a cancelled interval yields
    /// nothing.
    pub fn interval_fired(&self, id: IntervalId) -> (r: Option<u64>)
        ensures
            r == (if self.spec_ctx().spec_intervals().dom().contains(id.0) {
                Some(self.spec_ctx().spec_intervals()[id.0].token)
            } else {
                Option::<u64>::None
            }),
    {
        self.ctx.get_interval(id)
    }

    /// Opens a new coalescing batch: the dispatch engine calls this at the
    /// start of a re-render pass.
    pub fn mark_clean(&mut self)
        ensures
            final(self).spec_ctx().spec_clean(),
            final(self).spec_ctx().spec_signals() == old(self).spec_ctx().spec_signals(),
            final(self).spec_ctx().spec_pending() == old(self).spec_ctx().spec_pending(),
            Context::timers_unchanged(old(self).spec_ctx(), final(self).spec_ctx()),
            Application::non_ctx_state_unchanged(*old(self), *final(self)),
            old(self).well_formed() ==> final(self).well_formed(),
    {
        self.ctx.clean();
    }

    /// Hands the queued cross-thread notifications out in order.
    pub fn drain_pending(&mut self) -> (r: Vec<ProxyEvent>)
        ensures
            r@ == old(self).spec_ctx().spec_pending(),
            final(self).spec_ctx().spec_pending() == Seq::<ProxyEvent>::empty(),
            final(self).spec_ctx().spec_signals() == old(self).spec_ctx().spec_signals(),
            final(self).spec_ctx().spec_clean() == old(self).spec_ctx().spec_clean(),
            Context::timers_unchanged(old(self).spec_ctx(), final(self).spec_ctx()),
            Application::non_ctx_state_unchanged(*old(self), *final(self)),
            old(self).well_formed() ==> final(self).well_formed(),
    {
        self.ctx.drain_pending()
    }

    /// Moves the pointer: the step is measured from the previous position.
    pub fn pointer_moved(&mut self, new_pos: IVec2) -> (ev: MouseMoveEvent)
        requires
            old(self).well_formed(),
            coord_bounded(new_pos),
        ensures
            final(self).spec_mouse_position() == new_pos,
            ev.pos == new_pos,
            ev.delta.x == old(self).spec_mouse_position().x - new_pos.x,
            ev.delta.y == old(self).spec_mouse_position().y - new_pos.y,
            ev.modifiers == old(self).spec_modifiers(),
            final(self).spec_background() == old(self).spec_background(),
            final(self).spec_modifiers() == old(self).spec_modifiers(),
            final(self).spec_elements() == old(self).spec_elements(),
            final(self).spec_elements_issued() == old(self).spec_elements_issued(),
            final(self).spec_ctx() == old(self).spec_ctx(),
            final(self).spec_resize_handlers() == old(self).spec_resize_handlers(),
            final(self).spec_element_inserts() == old(self).spec_element_inserts(),
            final(self).well_formed(),
    {
        let delta = IVec2::new(self.mouse_position.x - new_pos.x, self.mouse_position.y - new_pos.y);
        self.mouse_position = new_pos;
        MouseMoveEvent { pos: new_pos, modifiers: self.modifiers, delta }
    }

    /// The pointer-button event for the current pointer position.
    pub fn mouse_event(&self, state: ButtonState, button: MouseButton) -> (ev: MouseEvent)
        ensures
            ev.pos == self.spec_mouse_position(),
            ev.modifiers == self.spec_modifiers(),
            ev.state == state,
            ev.button == button,
    {
        MouseEvent { pos: self.mouse_position, modifiers: self.modifiers, state, button }
    }

    /// Every live element's identifier, each exactly once, in the arena's
    /// own iteration order.
    pub fn element_ids(&self) -> (r: Vec<ElementId>)
        ensures
            forall|i: int, j: int|
                0 <= i < j < r@.len() ==> (#[trigger] r@[i]).0 != (#[trigger] r@[j]).0,
            forall|i: int|
                0 <= i < r@.len() ==> self.spec_elements().dom().contains((#[trigger] r@[i]).0),
            forall|k: DefaultKey| #[trigger]
                self.spec_elements().dom().contains(k) ==> exists|i: int|
                    0 <= i < r@.len() && r@[i].0 == k,
    {
        let keys = elem_map_keys(&self.elements);
        let mut r: Vec<ElementId> = Vec::new();
        let mut i: usize = 0;
        while i < keys.len()
            invariant
                0 <= i <= keys@.len(),
                r@.len() == i,
                forall|j: int| 0 <= j < i ==> (#[trigger] r@[j]).0 == keys@[j],
            decreases keys@.len() - i,
        {
            r.push(ElementId(keys[i]));
            i = i + 1;
        }
        proof {
            assert forall|j: int| 0 <= j < r@.len() implies self.spec_elements().dom().contains(
                (#[trigger] r@[j]).0,
            ) by {
                assert(keys@.contains(keys@[j]));
            }
            assert forall|k: DefaultKey| #[trigger]
                self.spec_elements().dom().contains(k) implies exists|j: int|
                0 <= j < r@.len() && r@[j].0 == k by {
                assert(keys@.contains(k));
                let j = choose|j: int| 0 <= j < keys@.len() && keys@[j] == k;
                assert(r@[j].0 == k);
            }
        }
        r
    }

    /// Hit-tests and delivers a pointer-button event to one element: the
    /// widget absorbs it and the element's pointer-button handler tokens
    /// come back in registration order. A removed element, or one the
    /// pointer is not over, gets nothing.
    pub fn deliver_mouse(&mut self, id: ElementId, ev: MouseEvent) -> (r: Vec<u64>)
        requires
            old(self).well_formed(),
        ensures
            final(self).well_formed(),
            Application::non_element_state_unchanged(*old(self), *final(self)),
            final(self).spec_elements_issued() == old(self).spec_elements_issued(),
            r@ == (if pointer_hits(old(self).spec_elements(), id, ev.pos) {
                active_tokens(old(self).spec_elements()[id.0].spec_handlers().spec_mouse())
            } else {
                Seq::<u64>::empty()
            }),
            if pointer_hits(old(self).spec_elements(), id, ev.pos) {
                element_updated_at(
                    old(self).spec_elements(),
                    final(self).spec_elements(),
                    id.0,
                    Event::Mouse(ev),
                )
            } else {
                final(self).spec_elements() == old(self).spec_elements()
            },
    {
        let ghost pre = self.spec_elements();
        match elem_map_get_mut(&mut self.elements, id.0) {
            Some(el) => {
                if el.intersects(ev.pos) {
                    el.update(Event::Mouse(ev));
                    let toks = el.mouse_tokens();
                    proof {
                        assert(pre.insert(id.0, pre[id.0]).dom() =~= pre.dom());
                    }
                    toks
                } else {
                    proof {
                        assert(pre.insert(id.0, pre[id.0]) =~= pre);
                    }
                    Vec::new()
                }
            },
            None => Vec::new(),
        }
    }

    /// Hit-tests and delivers a pointer-move event to one element;
    /// analogous to `deliver_mouse`, with the pointer-move partition.
    pub fn deliver_mouse_move(&mut self, id: ElementId, ev: MouseMoveEvent) -> (r: Vec<u64>)
        requires
            old(self).well_formed(),
        ensures
            final(self).well_formed(),
            Application::non_element_state_unchanged(*old(self), *final(self)),
            final(self).spec_elements_issued() == old(self).spec_elements_issued(),
            r@ == (if pointer_hits(old(self).spec_elements(), id, ev.pos) {
                active_tokens(old(self).spec_elements()[id.0].spec_handlers().spec_mouse_move())
            } else {
                Seq::<u64>::empty()
            }),
            if pointer_hits(old(self).spec_elements(), id, ev.pos) {
                element_updated_at(
                    old(self).spec_elements(),
                    final(self).spec_elements(),
                    id.0,
                    Event::MouseMove(ev),
                )
            } else {
                final(self).spec_elements() == old(self).spec_elements()
            },
    {
        let ghost pre = self.spec_elements();
        match elem_map_get_mut(&mut self.elements, id.0) {
            Some(el) => {
                if el.intersects(ev.pos) {
                    el.update(Event::MouseMove(ev));
                    let toks = el.mouse_move_tokens();
                    proof {
                        assert(pre.insert(id.0, pre[id.0]).dom() =~= pre.dom());
                    }
                    toks
                } else {
                    proof {
                        assert(pre.insert(id.0, pre[id.0]) =~= pre);
                    }
                    Vec::new()
                }
            },
            None => Vec::new(),
        }
    }

    /// Delivers a window-resize event to one element — every element is
    /// notified, there is no hit test — and returns its resize handler
    /// tokens in registration order.
    pub fn deliver_resize(&mut self, id: ElementId, ev: ResizeEvent) -> (r: Vec<u64>)
        requires
            old(self).well_formed(),
        ensures
            final(self).well_formed(),
            Application::non_element_state_unchanged(*old(self), *final(self)),
            final(self).spec_elements_issued() == old(self).spec_elements_issued(),
            r@ == (if old(self).spec_elements().dom().contains(id.0) {
                active_tokens(old(self).spec_elements()[id.0].spec_handlers().spec_resize())
            } else {
                Seq::<u64>::empty()
            }),
            if old(self).spec_elements().dom().contains(id.0) {
                element_updated_at(
                    old(self).spec_elements(),
                    final(self).spec_elements(),
                    id.0,
                    Event::Resize(ev),
                )
            } else {
                final(self).spec_elements() == old(self).spec_elements()
            },
    {
        let ghost pre = self.spec_elements();
        match elem_map_get_mut(&mut self.elements, id.0) {
            Some(el) => {
                el.update(Event::Resize(ev));
                let toks = el.resize_tokens();
                proof {
                    assert(pre.insert(id.0, pre[id.0]).dom() =~= pre.dom());
                }
                toks
            },
            None => Vec::new(),
        }
    }

    /// The re-render handler tokens of one element, in registration order;
    /// a removed element has none.
    pub fn rehydrate_tokens(&self, id: ElementId) -> (r: Vec<u64>)
        ensures
            r@ == (if self.spec_elements().dom().contains(id.0) {
                active_tokens(self.spec_elements()[id.0].spec_handlers().spec_rehydrate())
            } else {
                Seq::<u64>::empty()
            }),
    {
        match elem_map_get(&self.elements, id.0) {
            Some(el) => el.rehydrate_tokens(),
            None => Vec::new(),
        }
    }

    /// The identifiers of the elements that carry the tag: every live
    /// element that carries it appears, each exactly once, and nothing else.
    pub fn query_class(&self, target: &String) -> (r: Vec<ElementId>)
        ensures
            forall|i: int, j: int|
                0 <= i < j < r@.len() ==> (#[trigger] r@[i]).0 != (#[trigger] r@[j]).0,
            forall|i: int|
                0 <= i < r@.len() ==> self.spec_elements().dom().contains((#[trigger] r@[i]).0),
            forall|i: int|
                0 <= i < r@.len() ==> self.spec_elements()[(#[trigger] r@[i]).0].spec_has_class(
                    target@,
                ),
            forall|k: DefaultKey|
                #[trigger] self.spec_elements().dom().contains(k) && self.spec_elements()[
                    k
                ].spec_has_class(target@) ==> exists|i: int| 0 <= i < r@.len() && r@[i].0 == k,
    {
        let keys = elem_map_keys(&self.elements);
        let mut r: Vec<ElementId> = Vec::new();
        let mut i: usize = 0;
        while i < keys.len()
            invariant
                0 <= i <= keys@.len(),
                keys@.no_duplicates(),
                forall|k: DefaultKey| #[trigger]
                    keys@.contains(k) <==> self.spec_elements().dom().contains(k),
                forall|j1: int, j2: int|
                    0 <= j1 < j2 < r@.len() ==> (#[trigger] r@[j1]).0 != (#[trigger] r@[j2]).0,
                forall|j: int|
                    0 <= j < r@.len() ==> exists|jj: int|
                        0 <= jj < i && keys@[jj] == (#[trigger] r@[j]).0,
                forall|j: int|
                    0 <= j < r@.len() ==> self.spec_elements().dom().contains(
                        (#[trigger] r@[j]).0,
                    ),
                forall|j: int|
                    0 <= j < r@.len() ==> self.spec_elements()[
                        (#[trigger] r@[j]).0
                    ].spec_has_class(target@),
                forall|jj: int|
                    0 <= jj < i && self.spec_elements()[#[trigger] keys@[jj]].spec_has_class(
                        target@,
                    ) ==> exists|j: int| 0 <= j < r@.len() && r@[j].0 == keys@[jj],
            decreases keys@.len() - i,
        {
            let key = keys[i];
            proof {
                assert(keys@.contains(keys@[i as int]));
            }
            match elem_map_get(&self.elements, key) {
                Some(el) => {
                    if el.contains_class(target) {
                        let ghost at = r@.len() as int;
                        let ghost prior = r@;
                        proof {
                            assert forall|j: int|
                                0 <= j < r@.len() implies (#[trigger] r@[j]).0 != keys@[
                                i as int
                            ] by {
                                let jj = choose|jj: int|
                                    0 <= jj < i && keys@[jj] == r@[j].0;
                                assert(keys@[jj] != keys@[i as int]);
                            }
                        }
                        r.push(ElementId(key));
                        proof {
                            assert(r@[at].0 == keys@[i as int]);
                            assert forall|jj: int|
                                0 <= jj < i && self.spec_elements()[
                                    #[trigger] keys@[jj]
                                ].spec_has_class(target@) implies exists|j: int|
                                0 <= j < r@.len() && r@[j].0 == keys@[jj] by {
                                let j0 = choose|j0: int|
                                    0 <= j0 < prior.len() && prior[j0].0 == keys@[jj];
                                assert(r@[j0].0 == keys@[jj]);
                            }
                        }
                    } else {
                        proof {
                            assert(!self.spec_elements()[keys@[i as int]].spec_has_class(
                                target@,
                            ));
                        }
                    }
                },
                None => {},
            }
            i = i + 1;
        }
        proof {
            assert forall|k: DefaultKey|
                #[trigger] self.spec_elements().dom().contains(k) && self.spec_elements()[
                    k
                ].spec_has_class(target@) implies exists|j: int|
                0 <= j < r@.len() && r@[j].0 == k by {
                assert(keys@.contains(k));
                let jj = choose|jj: int| 0 <= jj < keys@.len() && keys@[jj] == k;
                assert(self.spec_elements()[keys@[jj]].spec_has_class(target@));
            }
        }
        r
    }

    /// Composes the frame: a window-sized buffer filled with the
    /// background, onto which every live element draws in the arena's own
    /// iteration order — hidden elements draw nothing, the rest blit their
    /// widget's pixels clipped to the frame.
    pub fn render(&self, width: usize, height: usize) -> (r: Vec<Color>)
        requires
            self.well_formed(),
            width * height <= usize::MAX,
            width <= isize::MAX,
            height <= isize::MAX,
        ensures
            r.len() == width * height,
            exists|ks: Seq<DefaultKey>|
                #[trigger] valid_key_order(ks, self.spec_elements().dom()) && r@ == spec_render(
                    self.spec_elements(),
                    ks,
                    width as int,
                    height as int,
                    self.spec_background(),
                ),
    {
        let area = width * height;
        let mut buf: Vec<Color> = Vec::new();
        let mut i: usize = 0;
        while i < area
            invariant
                0 <= i <= area,
                buf.len() == i,
                forall|j: int| 0 <= j < buf.len() ==> buf[j] == self.spec_background(),
            decreases area - i,
        {
            buf.push(self.background);
            i = i + 1;
        }
        proof {
            assert(buf@ =~= spec_render(
                self.spec_elements(),
                Seq::<DefaultKey>::empty(),
                width as int,
                height as int,
                self.spec_background(),
            ));
        }

        let keys = elem_map_keys(&self.elements);
        let mut j: usize = 0;
        while j < keys.len()
            invariant
                0 <= j <= keys@.len(),
                self.well_formed(),
                width * height <= usize::MAX,
                width <= isize::MAX,
                height <= isize::MAX,
                buf.len() == width * height,
                forall|k: DefaultKey| #[trigger]
                    keys@.contains(k) <==> self.spec_elements().dom().contains(k),
                buf@ == spec_render(
                    self.spec_elements(),
                    keys@.take(j as int),
                    width as int,
                    height as int,
                    self.spec_background(),
                ),
            decreases keys@.len() - j,
        {
            let key = keys[j];
            proof {
                assert(keys@.contains(keys@[j as int]));
            }
            match elem_map_get(&self.elements, key) {
                Some(el) => {
                    el.draw(&mut buf, width, height);
                },
                None => {
                    proof {
                        assert(false);
                    }
                },
            }
            proof {
                assert(keys@.take(j + 1).drop_last() =~= keys@.take(j as int));
                assert(keys@.take(j + 1).last() == keys@[j as int]);
            }
            j = j + 1;
        }
        proof {
            assert(keys@.take(keys@.len() as int) =~= keys@);
            assert(valid_key_order(keys@, self.spec_elements().dom()));
        }
        buf
    }
}

/// Builds an application before the platform loop starts: the same
/// registration surface, handed to the loop by `build`.
pub struct ApplicationBuilder {
    app: Application,
}

impl ApplicationBuilder {
    pub closed spec fn spec_app(self) -> Application {
        self.app
    }

    /// Hands the configured application to the platform loop.
    pub fn build(self) -> (app: Application)
        ensures
            app == self.spec_app(),
    {
        self.app
    }

    pub fn set_background(&mut self, background: Color)
        ensures
            final(self).spec_app().spec_background() == background,
            old(self).spec_app().well_formed() ==> final(self).spec_app().well_formed(),
    {
        self.app.set_background(background);
    }

    pub fn with_background(self, background: Color) -> (b: ApplicationBuilder)
        ensures
            b.spec_app().spec_background() == background,
            self.spec_app().well_formed() ==> b.spec_app().well_formed(),
    {
        let mut b = self;
        b.set_background(background);
        b
    }

    /// Inserts an element before the loop starts; see the application.
    pub fn insert_element(&mut self, element: Element) -> (id: ElementId)
        requires
            old(self).spec_app().well_formed(),
            element.well_formed(),
            old(self).spec_app().spec_element_inserts() < 0x8000_0000,
        ensures
            !old(self).spec_app().spec_elements_issued().contains(id.0),
            final(self).spec_app().spec_elements() == old(self).spec_app().spec_elements().insert(
                id.0,
                element,
            ),
            final(self).spec_app().well_formed(),
    {
        self.app.insert_element(element)
    }

    /// Allocates a signal cell before the loop starts.
    pub fn create_signal(&mut self, init: SignalValue) -> (r: (ReadSignal, WriteSignal))
        ensures
            final(self).spec_app().spec_ctx().spec_signals() == old(self).spec_app().spec_ctx().spec_signals().push(init),
            r.0.spec_id().0 == old(self).spec_app().spec_ctx().spec_signals().len(),
            r.1.spec_id() == r.0.spec_id(),
            old(self).spec_app().well_formed() ==> final(self).spec_app().well_formed(),
    {
        self.app.create_signal(init)
    }

    /// Schedules a one-shot timer before the loop starts.
    pub fn set_timeout(&mut self, delay_ms: i64, token: u64) -> (id: TimeoutId)
        requires
            old(self).spec_app().well_formed(),
            old(self).spec_app().spec_ctx().spec_timeout_count() < 0x8000_0000,
        ensures
            final(self).spec_app().spec_ctx().spec_timeouts() == old(self).spec_app().spec_ctx().spec_timeouts().insert(
                id.0,
                crate::react::TimerEntry { token, delay_ms },
            ),
            final(self).spec_app().well_formed(),
    {
        self.app.set_timeout(delay_ms, token)
    }

    pub fn clear_timeout(&mut self, id: TimeoutId)
        ensures
            final(self).spec_app().spec_ctx().spec_timeouts() == old(self).spec_app().spec_ctx().spec_timeouts().remove(id.0),
            old(self).spec_app().well_formed() ==> final(self).spec_app().well_formed(),
    {
        self.app.clear_timeout(id);
    }

    /// Schedules a repeating timer before the loop starts.
    pub fn set_interval(&mut self, delay_ms: i64, token: u64) -> (id: IntervalId)
        requires
            old(self).spec_app().well_formed(),
            old(self).spec_app().spec_ctx().spec_interval_count() < 0x8000_0000,
        ensures
            final(self).spec_app().spec_ctx().spec_intervals() == old(self).spec_app().spec_ctx().spec_intervals().insert(
                id.0,
                crate::react::TimerEntry { token, delay_ms },
            ),
            final(self).spec_app().well_formed(),
    {
        self.app.set_interval(delay_ms, token)
    }

    pub fn clear_interval(&mut self, id: IntervalId)
        ensures
            final(self).spec_app().spec_ctx().spec_intervals() == old(self).spec_app().spec_ctx().spec_intervals().remove(id.0),
            old(self).spec_app().well_formed() ==> final(self).spec_app().well_formed(),
    {
        self.app.clear_interval(id);
    }

    /// Registers an application-level resize handler token.
    pub fn on_resize(&mut self, token: u64) -> (id: AppHandlerId)
        ensures
            id == AppHandlerId::Resize(
                old(self).spec_app().spec_resize_handlers().len() as usize,
            ),
            final(self).spec_app().spec_resize_handlers() == old(self).spec_app().spec_resize_handlers().push(Some(token)),
            old(self).spec_app().well_formed() ==> final(self).spec_app().well_formed(),
    {
        self.app.on_resize(token)
    }

    /// The identifiers of the elements that carry the tag: every live
    /// element that carries it appears, each exactly once, and nothing else.
    pub fn query_class(&self, target: &String) -> (r: Vec<ElementId>)
        ensures
            forall|i: int, j: int|
                0 <= i < j < r@.len() ==> (#[trigger] r@[i]).0 != (#[trigger] r@[j]).0,
            forall|i: int|
                0 <= i < r@.len() ==> self.spec_app().spec_elements().dom().contains(
                    (#[trigger] r@[i]).0,
                ),
            forall|i: int|
                0 <= i < r@.len() ==> self.spec_app().spec_elements()[
                    (#[trigger] r@[i]).0
                ].spec_has_class(target@),
            forall|k: DefaultKey|
                #[trigger] self.spec_app().spec_elements().dom().contains(k)
                    && self.spec_app().spec_elements()[k].spec_has_class(target@)
                    ==> exists|i: int| 0 <= i < r@.len() && r@[i].0 == k,
    {
        self.app.query_class(target)
    }
}

} // verus!

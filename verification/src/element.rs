//! Visual elements: a widget payload with layout, tags, visibility and a
//! per-element registry of event handlers.

pub mod button;
pub mod canvas;
pub mod icon;
pub mod rect;

use vstd::prelude::*;

use crate::color::Color;
use crate::draw::spec_blit;
use crate::draw::write_all;
use crate::element::button::Button;
use crate::element::button::button_pixel;
use crate::element::canvas::Canvas;
use crate::element::canvas::packed_bit;
use crate::element::icon::Icon;
use crate::element::rect::Rect;
use crate::event::Event;
use crate::util::BoundingBox;
use crate::util::IVec2;
use crate::util::UVec2;

verus! {

/// One partition of a handler registry: handler slots in registration
/// order, each holding the caller's token until the handler is removed.
/// Slots are never reused, so an identifier stays tied to the registration
/// it came from.
pub struct Registry {
    slots: Vec<Option<u64>>,
}

/// The still-registered tokens of a partition, in registration order.
pub open spec fn active_tokens(s: Seq<Option<u64>>) -> Seq<u64>
    decreases s.len(),
{
    if s.len() == 0 {
        Seq::empty()
    } else {
        let rest = active_tokens(s.drop_last());
        match s.last() {
            Some(t) => rest.push(t),
            None => rest,
        }
    }
}

impl Registry {
    pub closed spec fn view(&self) -> Seq<Option<u64>> {
        self.slots@
    }

    pub fn new() -> (r: Registry)
        ensures
            r@ == Seq::<Option<u64>>::empty(),
    {
        Registry { slots: Vec::new() }
    }

    /// Registers a token; the returned slot index identifies it.
    pub fn insert(&mut self, token: u64) -> (id: usize)
        ensures
            id == old(self)@.len(),
            final(self)@ == old(self)@.push(Some(token)),
    {
        let id = self.slots.len();
        self.slots.push(Some(token));
        id
    }

    /// Unregisters the slot; an unknown or already-empty slot is a no-op.
    pub fn remove(&mut self, id: usize)
        ensures
            final(self)@ == (if id < old(self)@.len() {
                old(self)@.update(id as int, None)
            } else {
                old(self)@
            }),
    {
        if id < self.slots.len() {
            self.slots.set(id, None);
        }
    }

    /// The registered tokens, in the order they were registered.
    pub fn tokens(&self) -> (r: Vec<u64>)
        ensures
            r@ == active_tokens(self@),
    {
        let mut r: Vec<u64> = Vec::new();
        let mut i: usize = 0;
        while i < self.slots.len()
            invariant
                0 <= i <= self@.len(),
                r@ == active_tokens(self@.take(i as int)),
            decreases self@.len() - i,
        {
            match self.slots[i] {
                Some(t) => {
                    r.push(t);
                },
                None => {},
            }
            proof {
                assert(self@.take(i + 1).drop_last() =~= self@.take(i as int));
                assert(self@.take(i + 1).last() == self@[i as int]);
            }
            i = i + 1;
        }
        proof {
            assert(self@.take(self@.len() as int) =~= self@);
        }
        r
    }
}

/// A reference to one registered handler. The identifier carries the event
/// kind it was issued for, so removal can only ever touch that partition.
#[derive(Debug, Clone, Copy, PartialEq, Eq, Structural)]
pub enum HandlerId {
    Mouse(usize),
    Key(usize),
    MouseMove(usize),
    Rehydrate(usize),
    Resize(usize),
}

/// The per-element handler registry, partitioned by event kind.
pub struct Handlers {
    mouse: Registry,
    mouse_move: Registry,
    key: Registry,
    rehydrate: Registry,
    resize: Registry,
}

impl Handlers {
    pub open spec fn spec_mouse(self) -> Seq<Option<u64>> {
        self.spec_registry(HandlerKind::Mouse)
    }

    pub open spec fn spec_mouse_move(self) -> Seq<Option<u64>> {
        self.spec_registry(HandlerKind::MouseMove)
    }

    pub open spec fn spec_key(self) -> Seq<Option<u64>> {
        self.spec_registry(HandlerKind::Key)
    }

    pub open spec fn spec_rehydrate(self) -> Seq<Option<u64>> {
        self.spec_registry(HandlerKind::Rehydrate)
    }

    pub open spec fn spec_resize(self) -> Seq<Option<u64>> {
        self.spec_registry(HandlerKind::Resize)
    }

    pub closed spec fn spec_registry(self, kind: HandlerKind) -> Seq<Option<u64>> {
        match kind {
            HandlerKind::Mouse => self.mouse@,
            HandlerKind::MouseMove => self.mouse_move@,
            HandlerKind::Key => self.key@,
            HandlerKind::Rehydrate => self.rehydrate@,
            HandlerKind::Resize => self.resize@,
        }
    }

    pub open spec fn is_empty(self) -> bool {
        self.spec_mouse().len() == 0 && self.spec_mouse_move().len() == 0 && self.spec_key().len()
            == 0 && self.spec_rehydrate().len() == 0 && self.spec_resize().len() == 0
    }

    fn new() -> (h: Handlers)
        ensures
            h.is_empty(),
    {
        Handlers {
            mouse: Registry::new(),
            mouse_move: Registry::new(),
            key: Registry::new(),
            rehydrate: Registry::new(),
            resize: Registry::new(),
        }
    }

    /// Removes the handler the identifier was issued for. An identifier only
    /// ever addresses the partition of its own event kind: the other four
    /// partitions are untouched, whatever the slot index.
    fn remove_handler(&mut self, id: HandlerId)
        ensures
            final(self).spec_mouse() == (match id {
                HandlerId::Mouse(i) => if i < old(self).spec_mouse().len() {
                    old(self).spec_mouse().update(i as int, None)
                } else {
                    old(self).spec_mouse()
                },
                _ => old(self).spec_mouse(),
            }),
            final(self).spec_mouse_move() == (match id {
                HandlerId::MouseMove(i) => if i < old(self).spec_mouse_move().len() {
                    old(self).spec_mouse_move().update(i as int, None)
                } else {
                    old(self).spec_mouse_move()
                },
                _ => old(self).spec_mouse_move(),
            }),
            final(self).spec_key() == (match id {
                HandlerId::Key(i) => if i < old(self).spec_key().len() {
                    old(self).spec_key().update(i as int, None)
                } else {
                    old(self).spec_key()
                },
                _ => old(self).spec_key(),
            }),
            final(self).spec_rehydrate() == (match id {
                HandlerId::Rehydrate(i) => if i < old(self).spec_rehydrate().len() {
                    old(self).spec_rehydrate().update(i as int, None)
                } else {
                    old(self).spec_rehydrate()
                },
                _ => old(self).spec_rehydrate(),
            }),
            final(self).spec_resize() == (match id {
                HandlerId::Resize(i) => if i < old(self).spec_resize().len() {
                    old(self).spec_resize().update(i as int, None)
                } else {
                    old(self).spec_resize()
                },
                _ => old(self).spec_resize(),
            }),
    {
        match id {
            HandlerId::Mouse(id) => {
                self.mouse.remove(id);
            },
            HandlerId::MouseMove(id) => {
                self.mouse_move.remove(id);
            },
            HandlerId::Key(id) => {
                self.key.remove(id);
            },
            HandlerId::Rehydrate(id) => {
                self.rehydrate.remove(id);
            },
            HandlerId::Resize(id) => {
                self.resize.remove(id);
            },
        }
    }
}

/// An event kind a handler can be registered for.
#[derive(Debug, Clone, Copy, PartialEq, Eq, Structural)]
pub enum HandlerKind {
    Mouse,
    Key,
    MouseMove,
    Rehydrate,
    Resize,
}

/// The widget payload of an element.
pub enum ElementInner {
    Icon(Icon),
    Canvas(Canvas),
    Button(Button),
    Rect(Rect),
}

impl ElementInner {
    /// The widget's reported size.
    pub open spec fn spec_size(self) -> UVec2 {
        match self {
            ElementInner::Icon(ico) => ico.spec_size(),
            ElementInner::Canvas(cv) => cv.spec_size(),
            ElementInner::Button(but) => but.spec_size(),
            ElementInner::Rect(rec) => rec.spec_size(),
        }
    }

    pub open spec fn well_formed(self) -> bool {
        &&& match self {
            ElementInner::Icon(ico) => ico.well_formed(),
            ElementInner::Canvas(cv) => cv.well_formed(),
            ElementInner::Button(but) => but.well_formed(),
            ElementInner::Rect(rec) => rec.well_formed(),
        }
        &&& self.spec_size().x * self.spec_size().y <= usize::MAX
        &&& self.spec_size().x <= isize::MAX
        &&& self.spec_size().y <= isize::MAX
    }

    /// The pixels the widget renders, row-major.
    pub open spec fn spec_draw(self) -> Seq<Color> {
        let area = self.spec_size().x * self.spec_size().y;
        match self {
            ElementInner::Icon(ico) => ico.spec_content(),
            ElementInner::Canvas(cv) => Seq::new(area as nat, |i: int| Color(packed_bit(cv.spec_content(), i))),
            ElementInner::Button(but) => Seq::new(
                area as nat,
                |i: int|
                    button_pixel(
                        but.spec_size(),
                        but.spec_color(),
                        but.spec_depressed(),
                        i % (but.spec_size().x as int),
                        i / (but.spec_size().x as int),
                    ),
            ),
            ElementInner::Rect(rec) => Seq::new(area as nat, |i: int| rec.spec_color()),
        }
    }

    pub fn get_size(&self) -> (s: UVec2)
        ensures
            s == self.spec_size(),
    {
        match self {
            ElementInner::Icon(ico) => ico.get_size(),
            ElementInner::Canvas(cv) => cv.get_size(),
            ElementInner::Button(but) => but.get_size(),
            ElementInner::Rect(rec) => rec.get_size(),
        }
    }

    fn draw(&self) -> (r: (Vec<Color>, UVec2))
        requires
            self.well_formed(),
        ensures
            r.1 == self.spec_size(),
            r.0@ == self.spec_draw(),
    {
        let r = match self {
            ElementInner::Icon(ico) => ico.draw(),
            ElementInner::Canvas(cv) => cv.draw(),
            ElementInner::Button(but) => but.draw(),
            ElementInner::Rect(rec) => rec.draw(),
        };
        proof {
            assert(r.0@ =~= self.spec_draw());
        }
        r
    }

    /// `post` is `pre` after it absorbed the notification: only a button
    /// changes, and only its depressed flag.
    pub open spec fn updated_from(pre: ElementInner, post: ElementInner, ev: Event) -> bool {
        match pre {
            ElementInner::Button(b) => post matches ElementInner::Button(b2) && b2.spec_size()
                == b.spec_size() && b2.spec_color() == b.spec_color() && b2.spec_depressed()
                == b.spec_depressed_after(ev),
            _ => post == pre,
        }
    }

    fn update(&mut self, ev: &Event)
        ensures
            ElementInner::updated_from(*old(self), *final(self), *ev),
            final(self).spec_size() == old(self).spec_size(),
            old(self).well_formed() ==> final(self).well_formed(),
    {
        match self {
            ElementInner::Button(but) => but.update(ev),
            _ => {},
        }
    }
}

/// A visual node: a widget with string tags, a visibility flag, a pixel
/// offset from the window origin, a draw-order key, and its own event
/// handlers.
pub struct Element {
    inner: ElementInner,
    classes: Vec<String>,
    hidden: bool,
    offset: IVec2,
    z_index: usize,
    handlers: Handlers,
}

impl Element {
    pub closed spec fn spec_inner(self) -> ElementInner {
        self.inner
    }

    pub closed spec fn spec_classes(self) -> Seq<String> {
        self.classes@
    }

    pub closed spec fn spec_hidden(self) -> bool {
        self.hidden
    }

    pub closed spec fn spec_offset(self) -> IVec2 {
        self.offset
    }

    pub closed spec fn spec_z_index(self) -> usize {
        self.z_index
    }

    pub closed spec fn spec_handlers(self) -> Handlers {
        self.handlers
    }

    /// The widget is well-formed and the element's window-space box fits the
    /// signed coordinate range.
    pub open spec fn well_formed(self) -> bool {
        &&& self.spec_inner().well_formed()
        &&& self.spec_offset().x + self.spec_inner().spec_size().x <= isize::MAX
        &&& self.spec_offset().y + self.spec_inner().spec_size().y <= isize::MAX
    }

    pub fn new(inner: ElementInner) -> (el: Element)
        requires
            inner.well_formed(),
        ensures
            el.spec_inner() == inner,
            el.spec_classes() == Seq::<String>::empty(),
            !el.spec_hidden(),
            el.spec_offset() == (IVec2 { x: 0, y: 0 }),
            el.spec_z_index() == 0,
            el.spec_handlers().is_empty(),
            el.well_formed(),
    {
        Element {
            inner,
            classes: Vec::new(),
            hidden: false,
            offset: IVec2::default(),
            z_index: 0,
            handlers: Handlers::new(),
        }
    }

    /// A fresh button element at the window origin.
    pub fn button(width: usize, height: usize, color: Color) -> (el: Element)
        requires
            width * height <= usize::MAX,
            width <= isize::MAX,
            height <= isize::MAX,
        ensures
            el.spec_inner() matches ElementInner::Button(b) && b.spec_size() == (UVec2 {
                x: width,
                y: height,
            }) && b.spec_color() == color && !b.spec_depressed(),
            el.spec_classes() == Seq::<String>::empty(),
            !el.spec_hidden(),
            el.spec_offset() == (IVec2 { x: 0, y: 0 }),
            el.spec_handlers().is_empty(),
            el.well_formed(),
    {
        Element::new(ElementInner::Button(Button::new(width, height, color)))
    }

    /// A fresh flat rectangle element at the window origin.
    pub fn rect(width: usize, height: usize, color: Color) -> (el: Element)
        requires
            width * height <= usize::MAX,
            width <= isize::MAX,
            height <= isize::MAX,
        ensures
            el.spec_inner() matches ElementInner::Rect(r) && r.spec_size() == (UVec2 {
                x: width,
                y: height,
            }) && r.spec_color() == color,
            el.spec_classes() == Seq::<String>::empty(),
            !el.spec_hidden(),
            el.spec_offset() == (IVec2 { x: 0, y: 0 }),
            el.spec_handlers().is_empty(),
            el.well_formed(),
    {
        Element::new(ElementInner::Rect(Rect::new(width, height, color)))
    }

    pub fn append_class(&mut self, class: String)
        ensures
            final(self).spec_classes() == old(self).spec_classes().push(class),
            unchanged_but_classes(*old(self), *final(self)),
    {
        self.classes.push(class);
    }

    pub fn with_class(self, class: String) -> (el: Element)
        ensures
            el.spec_classes() == self.spec_classes().push(class),
            unchanged_but_classes(self, el),
    {
        let mut el = self;
        el.append_class(class);
        el
    }

    /// The widget payload.
    pub fn get_inner(&self) -> (r: &ElementInner)
        ensures
            *r == self.spec_inner(),
    {
        &self.inner
    }

    pub fn get_classes(&self) -> (r: &Vec<String>)
        ensures
            r@ == self.spec_classes(),
    {
        &self.classes
    }

    pub fn get_z_index(&self) -> (z: usize)
        ensures
            z == self.spec_z_index(),
    {
        self.z_index
    }

    pub fn set_z_index(&mut self, z_index: usize)
        ensures
            final(self).spec_z_index() == z_index,
            unchanged_but_z_index(*old(self), *final(self)),
    {
        self.z_index = z_index;
    }

    /// Draws the element into the frame buffer: hidden elements draw
    /// nothing, visible ones blit their widget's pixels through the
    /// element's window-space box, clipped to the frame.
    pub fn draw(&self, buf: &mut Vec<Color>, width: usize, height: usize)
        requires
            self.well_formed(),
            old(buf).len() == width * height,
            width <= isize::MAX,
            height <= isize::MAX,
        ensures
            final(buf)@ == self.spec_drawn_onto(old(buf)@, width as int, height as int),
    {
        if !self.hidden {
            let (graphic, size) = self.inner.draw();
            let bounds = BoundingBox::from_size(self.offset, size);
            write_all(buf, width, height, bounds, graphic);
        }
    }

    /// The frame buffer after this element drew itself onto it.
    pub open spec fn spec_drawn_onto(
        self,
        buf: Seq<Color>,
        width: int,
        height: int,
    ) -> Seq<Color> {
        if self.spec_hidden() {
            buf
        } else {
            spec_blit(buf, width, height, self.spec_bounding_box(), self.spec_inner().spec_draw())
        }
    }

    /// Lets the widget absorb a notification; tags, visibility, layout and
    /// handlers stay as they were.
    pub fn update(&mut self, event: Event)
        ensures
            ElementInner::updated_from(
                old(self).spec_inner(),
                final(self).spec_inner(),
                event,
            ),
            final(self).spec_inner().spec_size() == old(self).spec_inner().spec_size(),
            old(self).well_formed() ==> final(self).well_formed(),
            final(self).spec_classes() == old(self).spec_classes(),
            final(self).spec_hidden() == old(self).spec_hidden(),
            final(self).spec_offset() == old(self).spec_offset(),
            final(self).spec_z_index() == old(self).spec_z_index(),
            final(self).spec_handlers() == old(self).spec_handlers(),
    {
        self.inner.update(&event);
    }

    pub fn set_hidden(&mut self, hidden: bool)
        ensures
            final(self).spec_hidden() == hidden,
            unchanged_but_hidden(*old(self), *final(self)),
    {
        self.hidden = hidden;
    }

    /// Moves the element. The new box must stay inside the signed
    /// coordinate range.
    pub fn set_offset(&mut self, x: isize, y: isize)
        requires
            x + old(self).spec_inner().spec_size().x <= isize::MAX,
            y + old(self).spec_inner().spec_size().y <= isize::MAX,
        ensures
            final(self).spec_offset() == (IVec2 { x: x, y: y }),
            unchanged_but_offset(*old(self), *final(self)),
            old(self).well_formed() ==> final(self).well_formed(),
    {
        self.offset = IVec2::new(x, y);
    }

    pub fn with_offset(self, x: isize, y: isize) -> (el: Element)
        requires
            x + self.spec_inner().spec_size().x <= isize::MAX,
            y + self.spec_inner().spec_size().y <= isize::MAX,
        ensures
            el.spec_offset() == (IVec2 { x: x, y: y }),
            unchanged_but_offset(self, el),
            self.well_formed() ==> el.well_formed(),
    {
        let mut el = self;
        el.set_offset(x, y);
        el
    }

    /// One of the element's tags reads `t`.
    pub open spec fn spec_has_class(self, t: Seq<char>) -> bool {
        exists|i: int| 0 <= i < self.spec_classes().len() && self.spec_classes()[i]@ == t
    }

    /// Whether one of the element's tags equals `target`.
    pub fn contains_class(&self, target: &String) -> (r: bool)
        ensures
            r == self.spec_has_class(target@),
    {
        let mut i: usize = 0;
        while i < self.classes.len()
            invariant
                0 <= i <= self.spec_classes().len(),
                forall|j: int| 0 <= j < i ==> self.spec_classes()[j]@ != target@,
            decreases self.spec_classes().len() - i,
        {
            if self.classes[i] == *target {
                proof {
                    assert(self.spec_classes()[i as int]@ == target@);
                }
                return true;
            }
            i = i + 1;
        }
        false
    }

    /// The element's box in window space, derived from its offset and its
    /// widget's reported size.
    pub open spec fn spec_bounding_box(self) -> BoundingBox {
        BoundingBox::spec_from_size(self.spec_offset(), self.spec_inner().spec_size())
    }

    pub fn get_bounding_box(&self) -> (b: BoundingBox)
        requires
            self.well_formed(),
        ensures
            b == self.spec_bounding_box(),
    {
        BoundingBox::from_size(self.offset, self.inner.get_size())
    }

    pub fn remove_handler(&mut self, id: HandlerId)
        ensures
            final(self).spec_handlers().spec_mouse() == (match id {
                HandlerId::Mouse(i) => if i < old(self).spec_handlers().spec_mouse().len() {
                    old(self).spec_handlers().spec_mouse().update(i as int, None)
                } else {
                    old(self).spec_handlers().spec_mouse()
                },
                _ => old(self).spec_handlers().spec_mouse(),
            }),
            final(self).spec_handlers().spec_mouse_move() == (match id {
                HandlerId::MouseMove(i) => if i < old(self).spec_handlers().spec_mouse_move().len() {
                    old(self).spec_handlers().spec_mouse_move().update(i as int, None)
                } else {
                    old(self).spec_handlers().spec_mouse_move()
                },
                _ => old(self).spec_handlers().spec_mouse_move(),
            }),
            final(self).spec_handlers().spec_key() == (match id {
                HandlerId::Key(i) => if i < old(self).spec_handlers().spec_key().len() {
                    old(self).spec_handlers().spec_key().update(i as int, None)
                } else {
                    old(self).spec_handlers().spec_key()
                },
                _ => old(self).spec_handlers().spec_key(),
            }),
            final(self).spec_handlers().spec_rehydrate() == (match id {
                HandlerId::Rehydrate(i) => if i < old(self).spec_handlers().spec_rehydrate().len() {
                    old(self).spec_handlers().spec_rehydrate().update(i as int, None)
                } else {
                    old(self).spec_handlers().spec_rehydrate()
                },
                _ => old(self).spec_handlers().spec_rehydrate(),
            }),
            final(self).spec_handlers().spec_resize() == (match id {
                HandlerId::Resize(i) => if i < old(self).spec_handlers().spec_resize().len() {
                    old(self).spec_handlers().spec_resize().update(i as int, None)
                } else {
                    old(self).spec_handlers().spec_resize()
                },
                _ => old(self).spec_handlers().spec_resize(),
            }),
            unchanged_but_handlers(*old(self), *final(self)),
    {
        self.handlers.remove_handler(id);
    }

    /// Whether the pointer position lies inside the element's box. Every
    /// widget kind is hit-tested by its box alone: no kind matches every
    /// position unconditionally.
    pub fn intersects(&self, target: IVec2) -> (r: bool)
        requires
            self.well_formed(),
        ensures
            r == self.spec_bounding_box().spec_contains(target),
    {
        self.get_bounding_box().intersects(target)
    }

    /// Registers a pointer-button handler token; runs on clicks inside the
    /// element's box, in registration order.
    pub fn on_click(&mut self, token: u64) -> (id: HandlerId)
        ensures
            id == HandlerId::Mouse(old(self).spec_handlers().spec_mouse().len() as usize),
            final(self).spec_handlers().spec_mouse() == old(self).spec_handlers().spec_mouse().push(
                Some(token),
            ),
            other_partitions_unchanged(*old(self), *final(self), HandlerKind::Mouse),
            unchanged_but_handlers(*old(self), *final(self)),
    {
        let id = self.handlers.mouse.insert(token);
        HandlerId::Mouse(id)
    }

    /// Registers a pointer-move handler token.
    pub fn on_mouse_move(&mut self, token: u64) -> (id: HandlerId)
        ensures
            id == HandlerId::MouseMove(
                old(self).spec_handlers().spec_mouse_move().len() as usize,
            ),
            final(self).spec_handlers().spec_mouse_move() == old(self).spec_handlers().spec_mouse_move().push(Some(token)),
            other_partitions_unchanged(*old(self), *final(self), HandlerKind::MouseMove),
            unchanged_but_handlers(*old(self), *final(self)),
    {
        let id = self.handlers.mouse_move.insert(token);
        HandlerId::MouseMove(id)
    }

    /// Registers a key handler token.
    pub fn on_key(&mut self, token: u64) -> (id: HandlerId)
        ensures
            id == HandlerId::Key(old(self).spec_handlers().spec_key().len() as usize),
            final(self).spec_handlers().spec_key() == old(self).spec_handlers().spec_key().push(
                Some(token),
            ),
            other_partitions_unchanged(*old(self), *final(self), HandlerKind::Key),
            unchanged_but_handlers(*old(self), *final(self)),
    {
        let id = self.handlers.key.insert(token);
        HandlerId::Key(id)
    }

    /// Registers a re-render handler token; runs on every coalesced
    /// re-render pass.
    pub fn on_rehydrate(&mut self, token: u64) -> (id: HandlerId)
        ensures
            id == HandlerId::Rehydrate(old(self).spec_handlers().spec_rehydrate().len() as usize),
            final(self).spec_handlers().spec_rehydrate() == old(self).spec_handlers().spec_rehydrate().push(Some(token)),
            other_partitions_unchanged(*old(self), *final(self), HandlerKind::Rehydrate),
            unchanged_but_handlers(*old(self), *final(self)),
    {
        let id = self.handlers.rehydrate.insert(token);
        HandlerId::Rehydrate(id)
    }

    /// Registers a window-resize handler token.
    pub fn on_resize(&mut self, token: u64) -> (id: HandlerId)
        ensures
            id == HandlerId::Resize(old(self).spec_handlers().spec_resize().len() as usize),
            final(self).spec_handlers().spec_resize() == old(self).spec_handlers().spec_resize().push(Some(token)),
            other_partitions_unchanged(*old(self), *final(self), HandlerKind::Resize),
            unchanged_but_handlers(*old(self), *final(self)),
    {
        let id = self.handlers.resize.insert(token);
        HandlerId::Resize(id)
    }

    /// The registered pointer-button handler tokens, in registration order.
    pub fn mouse_tokens(&self) -> (r: Vec<u64>)
        ensures
            r@ == active_tokens(self.spec_handlers().spec_mouse()),
    {
        self.handlers.mouse.tokens()
    }

    /// The registered pointer-move handler tokens, in registration order.
    pub fn mouse_move_tokens(&self) -> (r: Vec<u64>)
        ensures
            r@ == active_tokens(self.spec_handlers().spec_mouse_move()),
    {
        self.handlers.mouse_move.tokens()
    }

    /// The registered re-render handler tokens, in registration order.
    pub fn rehydrate_tokens(&self) -> (r: Vec<u64>)
        ensures
            r@ == active_tokens(self.spec_handlers().spec_rehydrate()),
    {
        self.handlers.rehydrate.tokens()
    }

    /// The registered window-resize handler tokens, in registration order.
    pub fn resize_tokens(&self) -> (r: Vec<u64>)
        ensures
            r@ == active_tokens(self.spec_handlers().spec_resize()),
    {
        self.handlers.resize.tokens()
    }
}

/// All element state but the tag list is the same.
pub open spec fn unchanged_but_classes(pre: Element, post: Element) -> bool {
    &&& post.spec_inner() == pre.spec_inner()
    &&& post.spec_hidden() == pre.spec_hidden()
    &&& post.spec_offset() == pre.spec_offset()
    &&& post.spec_z_index() == pre.spec_z_index()
    &&& post.spec_handlers() == pre.spec_handlers()
}

/// All element state but the visibility flag is the same.
pub open spec fn unchanged_but_hidden(pre: Element, post: Element) -> bool {
    &&& post.spec_inner() == pre.spec_inner()
    &&& post.spec_classes() == pre.spec_classes()
    &&& post.spec_offset() == pre.spec_offset()
    &&& post.spec_z_index() == pre.spec_z_index()
    &&& post.spec_handlers() == pre.spec_handlers()
}

/// All element state but the offset is the same.
pub open spec fn unchanged_but_offset(pre: Element, post: Element) -> bool {
    &&& post.spec_inner() == pre.spec_inner()
    &&& post.spec_classes() == pre.spec_classes()
    &&& post.spec_hidden() == pre.spec_hidden()
    &&& post.spec_z_index() == pre.spec_z_index()
    &&& post.spec_handlers() == pre.spec_handlers()
}

/// All element state but the draw-order key is the same.
pub open spec fn unchanged_but_z_index(pre: Element, post: Element) -> bool {
    &&& post.spec_inner() == pre.spec_inner()
    &&& post.spec_classes() == pre.spec_classes()
    &&& post.spec_hidden() == pre.spec_hidden()
    &&& post.spec_offset() == pre.spec_offset()
    &&& post.spec_handlers() == pre.spec_handlers()
}

/// All element state but the handler registry is the same.
pub open spec fn unchanged_but_handlers(pre: Element, post: Element) -> bool {
    &&& post.spec_inner() == pre.spec_inner()
    &&& post.spec_classes() == pre.spec_classes()
    &&& post.spec_hidden() == pre.spec_hidden()
    &&& post.spec_offset() == pre.spec_offset()
    &&& post.spec_z_index() == pre.spec_z_index()
}

/// The four handler partitions other than `kind` are the same.
pub open spec fn other_partitions_unchanged(pre: Element, post: Element, kind: HandlerKind) -> bool {
    &&& kind != HandlerKind::Mouse ==> post.spec_handlers().spec_mouse()
        == pre.spec_handlers().spec_mouse()
    &&& kind != HandlerKind::MouseMove ==> post.spec_handlers().spec_mouse_move()
        == pre.spec_handlers().spec_mouse_move()
    &&& kind != HandlerKind::Key ==> post.spec_handlers().spec_key()
        == pre.spec_handlers().spec_key()
    &&& kind != HandlerKind::Rehydrate ==> post.spec_handlers().spec_rehydrate()
        == pre.spec_handlers().spec_rehydrate()
    &&& kind != HandlerKind::Resize ==> post.spec_handlers().spec_resize()
        == pre.spec_handlers().spec_resize()
}

} // verus!

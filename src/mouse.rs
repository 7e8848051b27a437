use vstd::prelude::*;

verus! {

/// What a pointer event does.
#[derive(Clone, Copy, PartialEq, Eq, Structural, Debug)]
pub enum MouseEventKind {
    Press,
    Release,
    Move,
}

/// The button of a pointer event; wheel events carry how far they scroll.
#[derive(Clone, Copy, PartialEq, Eq, Structural, Debug)]
pub enum MouseButton {
    Left,
    Middle,
    Right,
    WheelUp(usize),
    WheelDown(usize),
    NoButton,
}

/// A pointer event, at a cell of the terminal, with the modifier keys held.
#[derive(Clone, Copy, PartialEq, Eq, Structural, Debug)]
pub struct MouseEvent {
    pub kind: MouseEventKind,
    pub button: MouseButton,
    pub x: usize,
    pub y: i64,
    pub modifiers: u16,
}

/// The sum of two wheel distances, held at `usize::MAX`.
pub open spec fn wheel_sum(a: usize, b: usize) -> usize {
    if a + b > usize::MAX {
        usize::MAX
    } else {
        (a + b) as usize
    }
}

/// The queue after one event is appended. With the same modifiers as the
/// last queued event, a move that follows a move with the same button takes
/// its place, and a wheel scroll that follows one in the same direction adds
/// to it; any other event goes to the back.
pub open spec fn coalesced(q: Seq<MouseEvent>, e: MouseEvent) -> Seq<MouseEvent> {
    if q.len() > 0 && q.last().modifiers == e.modifiers {
        let last = q.last();
        if last.kind == MouseEventKind::Move && e.kind == MouseEventKind::Move && last.button
            == e.button {
            q.update(q.len() - 1, e)
        } else {
            match (last.button, e.button) {
                (MouseButton::WheelUp(a), MouseButton::WheelUp(b)) => q.update(
                    q.len() - 1,
                    MouseEvent { button: MouseButton::WheelUp(wheel_sum(a, b)), ..last },
                ),
                (MouseButton::WheelDown(a), MouseButton::WheelDown(b)) => q.update(
                    q.len() - 1,
                    MouseEvent { button: MouseButton::WheelDown(wheel_sum(a, b)), ..last },
                ),
                _ => q.push(e),
            }
        }
    } else {
        q.push(e)
    }
}

/// The queue after the events are appended one by one.
pub open spec fn coalesced_all(q: Seq<MouseEvent>, es: Seq<MouseEvent>) -> Seq<MouseEvent>
    decreases es.len(),
{
    if es.len() == 0 {
        q
    } else {
        coalesced(coalesced_all(q, es.drop_last()), es.last())
    }
}

/// Pointer events not yet sent, and whether one is being sent. At most one
/// is in flight at any time, and they leave in the order they were queued.
pub struct MouseQueue {
    queue: Vec<MouseEvent>,
    pending: bool,
}

impl MouseQueue {
    pub closed spec fn events(&self) -> Seq<MouseEvent> {
        self.queue@
    }

    pub closed spec fn sending(&self) -> bool {
        self.pending
    }

    /// An empty queue with nothing in flight.
    pub fn new() -> (r: MouseQueue)
        ensures
            r.events() == Seq::<MouseEvent>::empty(),
            !r.sending(),
    {
        MouseQueue { queue: Vec::new(), pending: false }
    }

    /// Queues an event, merging it into the last one where it can.
    pub fn append(&mut self, event: MouseEvent)
        ensures
            final(self).events() == coalesced(old(self).events(), event),
            final(self).sending() == old(self).sending(),
    {
        let n = self.queue.len();
        if n > 0 {
            let last = self.queue[n - 1];
            if last.modifiers == event.modifiers {
                if last.kind == MouseEventKind::Move && event.kind == MouseEventKind::Move
                    && last.button == event.button {
                    self.queue.set(n - 1, event);
                    return;
                }
                match (last.button, event.button) {
                    (MouseButton::WheelUp(a), MouseButton::WheelUp(b)) => {
                        let sum = if a > usize::MAX - b {
                            usize::MAX
                        } else {
                            a + b
                        };
                        self.queue.set(n - 1, MouseEvent { button: MouseButton::WheelUp(sum), ..last });
                        return;
                    },
                    (MouseButton::WheelDown(a), MouseButton::WheelDown(b)) => {
                        let sum = if a > usize::MAX - b {
                            usize::MAX
                        } else {
                            a + b
                        };
                        self.queue.set(
                            n - 1,
                            MouseEvent { button: MouseButton::WheelDown(sum), ..last },
                        );
                        return;
                    },
                    _ => {},
                }
            }
        }
        self.queue.push(event);
    }

    /// The front event, taken off the queue, unless one is in flight.
    pub fn pop(&mut self) -> (r: Option<MouseEvent>)
        ensures
            final(self).sending() == old(self).sending(),
            old(self).sending() || old(self).events().len() == 0 ==> r is None && final(self).events()
                == old(self).events(),
            !old(self).sending() && old(self).events().len() > 0 ==> r == Some(old(self).events()[0])
                && final(self).events() == old(self).events().subrange(1, old(self).events().len() as int),
    {
        if !self.pending && self.queue.len() > 0 {
            let e = self.queue.remove(0);
            assert(self.queue@ =~= old(self).queue@.subrange(1, old(self).queue@.len() as int));
            Some(e)
        } else {
            None
        }
    }

    /// Starts sending the next event, if nothing is in flight: the event
    /// returned is to be sent now, and is in flight until `send_finished`.
    pub fn next(&mut self) -> (r: Option<MouseEvent>)
        ensures
            old(self).sending() || old(self).events().len() == 0 ==> r is None && final(self).events()
                == old(self).events() && final(self).sending() == old(self).sending(),
            !old(self).sending() && old(self).events().len() > 0 ==> r == Some(old(self).events()[0])
                && final(self).events() == old(self).events().subrange(1, old(self).events().len() as int)
                && final(self).sending(),
    {
        let r = self.pop();
        if r.is_some() {
            self.pending = true;
        }
        r
    }

    /// The event in flight was sent, or failed to be; either way the next
    /// one may go.
    pub fn send_finished(&mut self)
        ensures
            final(self).events() == old(self).events(),
            !final(self).sending(),
    {
        self.pending = false;
    }

    /// How many events wait to be sent.
    pub fn len(&self) -> (r: usize)
        ensures
            r == self.events().len(),
    {
        self.queue.len()
    }

    /// The queued event at `i`.
    pub fn get(&self, i: usize) -> (r: MouseEvent)
        requires
            i < self.events().len(),
        ensures
            r == self.events()[i as int],
    {
        self.queue[i]
    }

    /// Whether an event is in flight.
    pub fn is_sending(&self) -> (r: bool)
        ensures
            r == self.sending(),
    {
        self.pending
    }
}

/// A run of moves with the same modifiers and button, appended to an empty
/// queue, leaves one event: the last of them.
pub proof fn moves_collapse_to_last(es: Seq<MouseEvent>)
    requires
        es.len() >= 1,
        forall|i: int| 0 <= i < es.len() ==> (#[trigger] es[i]).kind == MouseEventKind::Move,
        forall|i: int| 0 <= i < es.len() ==> (#[trigger] es[i]).modifiers == es[0].modifiers,
        forall|i: int| 0 <= i < es.len() ==> (#[trigger] es[i]).button == es[0].button,
    ensures
        coalesced_all(Seq::empty(), es) == seq![es.last()],
    decreases es.len(),
{
    if es.len() == 1 {
        assert(es.drop_last() =~= Seq::<MouseEvent>::empty());
        assert(coalesced_all(Seq::empty(), es.drop_last()) == Seq::<MouseEvent>::empty());
        assert(coalesced(Seq::empty(), es.last()) =~= seq![es.last()]);
    } else {
        let init = es.drop_last();
        assert forall|i: int| 0 <= i < init.len() implies (#[trigger] init[i]).kind == MouseEventKind::Move
            && init[i].modifiers == init[0].modifiers && init[i].button == init[0].button by {
            assert(init[i] == es[i]);
            assert(init[0] == es[0]);
        }
        moves_collapse_to_last(init);
        assert(es[es.len() - 1] == es.last());
        assert(coalesced(seq![init.last()], es.last()) =~= seq![es.last()]);
    }
}

/// Two wheel scrolls in the same direction, with the same modifiers,
/// appended to an empty queue, leave one scroll by the sum of the two.
pub proof fn wheel_scrolls_add(first: MouseEvent, second: MouseEvent, a: usize, b: usize, up: bool)
    requires
        first.modifiers == second.modifiers,
        first.kind != MouseEventKind::Move || second.kind != MouseEventKind::Move,
        up ==> first.button == MouseButton::WheelUp(a) && second.button == MouseButton::WheelUp(b),
        !up ==> first.button == MouseButton::WheelDown(a) && second.button == MouseButton::WheelDown(b),
        a + b <= usize::MAX,
    ensures
        coalesced_all(Seq::empty(), seq![first, second]) == seq![
            MouseEvent {
                button: if up {
                    MouseButton::WheelUp((a + b) as usize)
                } else {
                    MouseButton::WheelDown((a + b) as usize)
                },
                ..first
            },
        ],
{
    let es = seq![first, second];
    assert(es.drop_last() =~= seq![first]);
    assert(es.drop_last().drop_last() =~= Seq::<MouseEvent>::empty());
    assert(coalesced(Seq::empty(), first) =~= seq![first]);
    assert(coalesced_all(Seq::empty(), es.drop_last().drop_last()) == Seq::<MouseEvent>::empty());
    assert(coalesced_all(Seq::empty(), es.drop_last()) == seq![first]);
    let expected = seq![
        MouseEvent {
            button: if up {
                MouseButton::WheelUp((a + b) as usize)
            } else {
                MouseButton::WheelDown((a + b) as usize)
            },
            ..first
        },
    ];
    assert(coalesced(seq![first], second) =~= expected);
}

} // verus!

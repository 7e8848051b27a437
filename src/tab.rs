use vstd::prelude::*;
use crate::lines::{after_diff, lines_view, reported, waits_for};
use crate::mouse::{MouseEvent, MouseQueue, coalesced};
use crate::poll::BASE_POLL_INTERVAL_MS;
use crate::render::{
    CursorPosition, DiffOutcome, RenderDelta, RenderState, RenderableDimensions, cursor_rows,
};

verus! {

/// The identifier of a tab.
pub type TabId = usize;

/// The size of a terminal, in cells and in pixels.
#[derive(Clone, Copy, PartialEq, Eq, Structural, Debug)]
pub struct TermSize {
    pub rows: u16,
    pub cols: u16,
    pub pixel_width: u16,
    pub pixel_height: u16,
}

/// A message that the remote endpoint pushes without being asked.
pub enum Pdu {
    /// The screen changed.
    RenderChanges(RenderDelta),
    /// The remote side sets the clipboard.
    SetClipboard(Option<String>),
    /// Any other message, by name.
    Other(String),
}

/// What handling a pushed message asks of the caller.
pub enum Unilateral {
    /// A diff was applied.
    Applied(DiffOutcome),
    /// Hand these contents to the registered clipboard.
    SetClipboard(Option<String>),
    /// No clipboard is registered: the contents are dropped.
    ClipboardIgnored(Option<String>),
}

/// A pushed message of a kind that a tab does not handle.
pub struct UnhandledPdu {
    pub name: String,
}

/// The local stand-in for a tab that lives on a remote endpoint: it pairs a
/// local identifier with the remote one for its whole life, mirrors the
/// remote screen, and serialises pointer events to it.
pub struct ClientTab {
    local_tab_id: TabId,
    remote_tab_id: TabId,
    renderable: RenderState,
    mouse: MouseQueue,
    clipboard: bool,
    mouse_grabbed: bool,
}

impl ClientTab {
    pub closed spec fn local_id(&self) -> TabId {
        self.local_tab_id
    }

    pub closed spec fn remote_id(&self) -> TabId {
        self.remote_tab_id
    }

    pub closed spec fn render(&self) -> RenderState {
        self.renderable
    }

    pub closed spec fn mouse_queue(&self) -> MouseQueue {
        self.mouse
    }

    pub closed spec fn has_clipboard(&self) -> bool {
        self.clipboard
    }

    pub closed spec fn grabbed(&self) -> bool {
        self.mouse_grabbed
    }

    pub open spec fn wf(&self) -> bool {
        self.render().wf()
    }

    /// A tab known locally as `local_tab_id` and remotely as
    /// `remote_tab_id`, of the given size, with nothing cached, no pointer
    /// events queued and no clipboard; polled last at `now_ms`.
    pub fn new(local_tab_id: TabId, remote_tab_id: TabId, size: TermSize, title: &str, now_ms: u64) -> (r:
        ClientTab)
        ensures
            r.wf(),
            r.local_id() == local_tab_id,
            r.remote_id() == remote_tab_id,
            r.render().cache().epoch() == 0,
            forall|y: i64| r.render().cache().row(y) is None,
            r.render().cursor() == (CursorPosition { x: 0, y: 0 }),
            r.render().dims() == (RenderableDimensions {
                cols: size.cols as usize,
                viewport_rows: size.rows as usize,
                scrollback_rows: size.rows as usize,
                physical_top: 0,
                scrollback_top: 0,
            }),
            r.render().title_view() == title@,
            r.render().working_dir_view() is None,
            r.render().scheduler().interval() == BASE_POLL_INTERVAL_MS,
            !r.render().scheduler().polling(),
            !r.render().scheduler().dead(),
            r.mouse_queue().events().len() == 0,
            !r.mouse_queue().sending(),
            !r.has_clipboard(),
            !r.grabbed(),
    {
        ClientTab {
            local_tab_id,
            remote_tab_id,
            renderable: RenderState::new(size.cols as usize, size.rows as usize, title, now_ms),
            mouse: MouseQueue::new(),
            clipboard: false,
            mouse_grabbed: false,
        }
    }

    /// Handles a message pushed by the remote endpoint. A diff is applied
    /// (see `RenderState::apply_changes`) and sets whether the remote side
    /// grabs the mouse; clipboard contents go to the clipboard if one is
    /// registered and are dropped otherwise; any other message is an error.
    pub fn process_unilateral(&mut self, pdu: Pdu) -> (r: Result<Unilateral, UnhandledPdu>)
        requires
            old(self).wf(),
            (pdu is RenderChanges) ==> old(self).render().cache().epoch() < u64::MAX,
        ensures
            final(self).wf(),
            final(self).local_id() == old(self).local_id(),
            final(self).remote_id() == old(self).remote_id(),
            final(self).mouse_queue() == old(self).mouse_queue(),
            final(self).has_clipboard() == old(self).has_clipboard(),
            match pdu {
                Pdu::RenderChanges(delta) => {
                    &&& r matches Ok(Unilateral::Applied(out))
                    &&& final(self).grabbed() == delta.mouse_grabbed
                    &&& final(self).render().cursor() == delta.cursor_position
                    &&& final(self).render().dims() == delta.dimensions
                    &&& final(self).render().title_view() == delta.title@
                    &&& final(self).render().working_dir_view() == delta.working_dir
                    &&& final(self).render().scheduler().interval() == BASE_POLL_INTERVAL_MS
                    &&& final(self).render().cache().epoch() == old(self).render().cache().epoch() + 1
                    &&& out.fetch.epoch == old(self).render().cache().epoch()
                    &&& forall|y: i64| #[trigger] final(self).render().cache().row(y) == after_diff(
                        old(self).render().cache().row(y),
                        delta.dirty_lines@,
                        lines_view(delta.bonus_lines@),
                        cursor_rows(old(self).render().cursor(), delta.cursor_position),
                        delta.dimensions.physical_top,
                        out.fetch.epoch,
                        y,
                    )
                    &&& out.fetch.rows@.no_duplicates()
                    &&& forall|y: i64| #[trigger] out.fetch.rows@.contains(y) <==> (reported(
                        delta.dirty_lines@,
                        lines_view(delta.bonus_lines@),
                        cursor_rows(old(self).render().cursor(), delta.cursor_position),
                        y,
                    ) && y >= delta.dimensions.physical_top)
                    &&& forall|y: i64| #[trigger] waits_for(final(self).render().cache().row(y), out.fetch.epoch)
                        <==> out.fetch.rows@.contains(y)
                    &&& out.redraw <==> exists|y: i64| final(self).render().cache().row(y) != old(
                        self,
                    ).render().cache().row(y)
                },
                Pdu::SetClipboard(c) => {
                    &&& final(self).render() == old(self).render()
                    &&& final(self).grabbed() == old(self).grabbed()
                    &&& old(self).has_clipboard() ==> r == Ok::<Unilateral, UnhandledPdu>(
                        Unilateral::SetClipboard(c),
                    )
                    &&& !old(self).has_clipboard() ==> r == Ok::<Unilateral, UnhandledPdu>(
                        Unilateral::ClipboardIgnored(c),
                    )
                },
                Pdu::Other(name) => {
                    &&& final(self).render() == old(self).render()
                    &&& final(self).grabbed() == old(self).grabbed()
                    &&& r matches Err(e) && e.name == name
                },
            },
    {
        match pdu {
            Pdu::RenderChanges(delta) => {
                self.mouse_grabbed = delta.mouse_grabbed;
                let out = self.renderable.apply_changes(delta);
                Ok(Unilateral::Applied(out))
            },
            Pdu::SetClipboard(c) => {
                if self.clipboard {
                    Ok(Unilateral::SetClipboard(c))
                } else {
                    Ok(Unilateral::ClipboardIgnored(c))
                }
            },
            Pdu::Other(name) => Err(UnhandledPdu { name }),
        }
    }

    /// The identifier of this tab on the remote endpoint.
    pub fn remote_tab_id(&self) -> (r: TabId)
        ensures
            r == self.remote_id(),
    {
        self.remote_tab_id
    }

    /// The local identifier of this tab.
    pub fn tab_id(&self) -> (r: TabId)
        ensures
            r == self.local_id(),
    {
        self.local_tab_id
    }

    /// Registers a clipboard to which pushed clipboard contents go.
    pub fn set_clipboard(&mut self)
        ensures
            final(self).has_clipboard(),
            final(self).render() == old(self).render(),
            final(self).mouse_queue() == old(self).mouse_queue(),
            final(self).local_id() == old(self).local_id(),
            final(self).remote_id() == old(self).remote_id(),
            final(self).grabbed() == old(self).grabbed(),
    {
        self.clipboard = true;
    }

    /// Takes a new size (see `RenderState::resize`). When it tells of a
    /// change, the remote endpoint is to be told of the new size.
    pub fn resize(&mut self, size: TermSize) -> (r: bool)
        requires
            old(self).wf(),
        ensures
            final(self).wf(),
            r == (old(self).render().dims().cols != size.cols as usize || old(self).render().dims().viewport_rows
                != size.rows as usize),
            final(self).render().cursor() == old(self).render().cursor(),
            final(self).render().scheduler() == old(self).render().scheduler(),
            final(self).render().cache().epoch() == old(self).render().cache().epoch(),
            !r ==> final(self).render() == old(self).render(),
            r ==> final(self).render().dims() == (RenderableDimensions {
                cols: size.cols as usize,
                viewport_rows: size.rows as usize,
                ..old(self).render().dims()
            }),
            r ==> forall|y: i64| #[trigger] final(self).render().cache().row(y)
                == crate::lines::invalidated(old(self).render().cache().row(y)),
            final(self).mouse_queue() == old(self).mouse_queue(),
            final(self).remote_id() == old(self).remote_id(),
    {
        self.renderable.resize(size.cols as usize, size.rows as usize)
    }

    /// Queues a pointer event, merging it where it can, and starts sending
    /// the front one if nothing is in flight: that event is returned, to be
    /// sent now.
    pub fn mouse_event(&mut self, event: MouseEvent) -> (r: Option<MouseEvent>)
        ensures
            final(self).render() == old(self).render(),
            final(self).local_id() == old(self).local_id(),
            final(self).remote_id() == old(self).remote_id(),
            final(self).has_clipboard() == old(self).has_clipboard(),
            final(self).grabbed() == old(self).grabbed(),
            old(self).mouse_queue().sending() ==> r is None && final(self).mouse_queue().events()
                == coalesced(old(self).mouse_queue().events(), event) && final(self).mouse_queue().sending(),
            !old(self).mouse_queue().sending() ==> {
                let q = coalesced(old(self).mouse_queue().events(), event);
                &&& r == Some(q[0])
                &&& final(self).mouse_queue().events() == q.subrange(1, q.len() as int)
                &&& final(self).mouse_queue().sending()
            },
    {
        self.mouse.append(event);
        self.mouse.next()
    }

    /// The event in flight was sent, or failed to be; the next one, if any,
    /// is returned, to be sent now.
    pub fn mouse_event_done(&mut self) -> (r: Option<MouseEvent>)
        ensures
            final(self).render() == old(self).render(),
            final(self).local_id() == old(self).local_id(),
            final(self).remote_id() == old(self).remote_id(),
            final(self).has_clipboard() == old(self).has_clipboard(),
            final(self).grabbed() == old(self).grabbed(),
            old(self).mouse_queue().events().len() == 0 ==> r is None && final(self).mouse_queue().events()
                == old(self).mouse_queue().events() && !final(self).mouse_queue().sending(),
            old(self).mouse_queue().events().len() > 0 ==> r == Some(old(self).mouse_queue().events()[0])
                && final(self).mouse_queue().events() == old(self).mouse_queue().events().subrange(
                1,
                old(self).mouse_queue().events().len() as int,
            ) && final(self).mouse_queue().sending(),
    {
        self.mouse.send_finished();
        self.mouse.next()
    }

    /// Whether the remote session has ended for good.
    pub fn is_dead(&self) -> (r: bool)
        ensures
            r == self.render().scheduler().dead(),
    {
        self.renderable.is_dead()
    }

    /// Whether the remote side grabs the mouse.
    pub fn is_mouse_grabbed(&self) -> (r: bool)
        ensures
            r == self.grabbed(),
    {
        self.mouse_grabbed
    }

    /// The title of the remote terminal.
    pub fn get_title(&self) -> (r: String)
        ensures
            r@ == self.render().title_view(),
    {
        self.renderable.get_title()
    }

    /// The working directory that the remote terminal reported, if any.
    pub fn get_current_working_dir(&self) -> (r: Option<String>)
        ensures
            r == self.render().working_dir_view(),
    {
        self.renderable.get_working_dir()
    }

    /// The render state, to read from.
    pub fn renderer(&self) -> (r: &RenderState)
        ensures
            *r == self.render(),
    {
        &self.renderable
    }

    /// The render state, to query and update.
    pub fn renderer_mut(&mut self) -> (r: &mut RenderState)
        ensures
            *r == old(self).render(),
            final(self).render() == *final(r),
            final(self).mouse_queue() == old(self).mouse_queue(),
            final(self).local_id() == old(self).local_id(),
            final(self).remote_id() == old(self).remote_id(),
    {
        &mut self.renderable
    }
}

} // verus!

//! The downward context a view handles events with: the event queue it posts
//! to and the cross-view requests it defers to the event pump.
use vstd::prelude::*;
use crate::command::Command;
use crate::event::Event;
use crate::view::ViewId;

verus! {

/// A request a view cannot perform itself (it holds no reference to its
/// siblings) and leaves to the pump.
#[derive(Clone, Copy, Debug, PartialEq, Eq, Structural)]
pub enum Deferred {
    /// Set the given parameters of a scroll bar; `None` keeps the current one.
    ScrollBarSetParams {
        id: ViewId,
        value: Option<i32>,
        min: Option<i32>,
        max: Option<i32>,
        page_step: Option<i32>,
        arrow_step: Option<i32>,
    },
    /// Read the list's scroll bars and call back into the list.
    SyncListViewer { list: ViewId, h: Option<ViewId>, v: Option<ViewId> },
    /// Focus the view within its owner.
    FocusById(ViewId),
    /// Show or hide a view.
    SetVisible { id: ViewId, visible: bool },
    /// Refresh the view's enabled-command snapshot.
    UpdateMenu(ViewId),
}

/// What a view may do while it handles an event: post events and defer
/// requests. Both are appended in order.
#[derive(Clone, Debug)]
pub struct Context {
    /// Events posted, oldest first.
    pub out: Vec<Event>,
    /// Deferred requests, oldest first.
    pub deferred: Vec<Deferred>,
}

impl Context {
    /// A context with nothing posted or deferred.
    pub fn new() -> (c: Self)
        ensures
            c.out@ == Seq::<Event>::empty(),
            c.deferred@ == Seq::<Deferred>::empty(),
    {
        Context { out: Vec::new(), deferred: Vec::new() }
    }

    /// Post a command event (`putEvent(evCommand)`).
    pub fn post(&mut self, cmd: Command)
        ensures
            final(self).out@ == old(self).out@.push(Event::Command(cmd)),
            final(self).deferred@ == old(self).deferred@,
    {
        self.out.push(Event::Command(cmd));
    }

    /// Broadcast `cmd` concerning `source` to every view.
    pub fn broadcast(&mut self, cmd: Command, source: Option<ViewId>)
        ensures
            final(self).out@ == old(self).out@.push(Event::Broadcast { command: cmd, source }),
            final(self).deferred@ == old(self).deferred@,
    {
        self.out.push(Event::Broadcast { command: cmd, source });
    }

    /// Defer a scroll-bar parameter update.
    pub fn request_scroll_bar_params(
        &mut self,
        id: ViewId,
        value: Option<i32>,
        min: Option<i32>,
        max: Option<i32>,
        page_step: Option<i32>,
        arrow_step: Option<i32>,
    )
        ensures
            final(self).deferred@ == old(self).deferred@.push(
                Deferred::ScrollBarSetParams { id, value, min, max, page_step, arrow_step },
            ),
            final(self).out@ == old(self).out@,
    {
        self.deferred.push(Deferred::ScrollBarSetParams { id, value, min, max, page_step, arrow_step });
    }

    /// Defer a list/scroll-bar read-sync.
    pub fn request_sync_list_viewer(&mut self, list: ViewId, h: Option<ViewId>, v: Option<ViewId>)
        ensures
            final(self).deferred@ == old(self).deferred@.push(Deferred::SyncListViewer { list, h, v }),
            final(self).out@ == old(self).out@,
    {
        self.deferred.push(Deferred::SyncListViewer { list, h, v });
    }

    /// Defer focusing `id` within its owner.
    pub fn request_focus(&mut self, id: ViewId)
        ensures
            final(self).deferred@ == old(self).deferred@.push(Deferred::FocusById(id)),
            final(self).out@ == old(self).out@,
    {
        self.deferred.push(Deferred::FocusById(id));
    }

    /// Defer showing or hiding `id`.
    pub fn request_set_visible(&mut self, id: ViewId, visible: bool)
        ensures
            final(self).deferred@ == old(self).deferred@.push(Deferred::SetVisible { id, visible }),
            final(self).out@ == old(self).out@,
    {
        self.deferred.push(Deferred::SetVisible { id, visible });
    }

    /// Defer refreshing `id`'s enabled-command snapshot.
    pub fn request_update_menu(&mut self, id: ViewId)
        ensures
            final(self).deferred@ == old(self).deferred@.push(Deferred::UpdateMenu(id)),
            final(self).out@ == old(self).out@,
    {
        self.deferred.push(Deferred::UpdateMenu(id));
    }
}

} // verus!

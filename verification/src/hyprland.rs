use vstd::prelude::*;
use crate::listeners::ListenerList;

verus! {

/// What the compositor reports when the active window changes.
#[derive(Clone, Debug)]
pub struct WindowEventData {
    pub window_class: String,
    pub window_title: String,
}

/// The compositor events the bar forwards to its widgets.
#[derive(Clone, Debug)]
pub enum HyprlandEvent {
    ActiveWindowChange(Option<WindowEventData>),
    ActiveWorkspaceChange,
}

/// The compositor service: every event goes to each subscriber, and one
/// that can no longer be reached is dropped.
pub struct HyprlandService<L> {
    pub listeners: ListenerList<L>,
}

impl<L> HyprlandService<L> {
    /// A service with no subscribers yet.
    pub fn new() -> (service: Self)
        ensures
            service.listeners@ == Seq::<L>::empty(),
    {
        HyprlandService { listeners: ListenerList::new() }
    }
}

/// What a subscriber to window changes is handed for `event`: the window
/// data of a window change, nothing for any other event.
pub fn window_change_of(event: HyprlandEvent) -> (data: Option<Option<WindowEventData>>)
    ensures
        match event {
            HyprlandEvent::ActiveWindowChange(window) => data == Some(window),
            HyprlandEvent::ActiveWorkspaceChange => data is None,
        },
{
    match event {
        HyprlandEvent::ActiveWindowChange(window) => Some(window),
        HyprlandEvent::ActiveWorkspaceChange => None,
    }
}

/// Whether a subscriber to workspace changes is called for `event`.
pub fn is_workspace_change(event: &HyprlandEvent) -> (change: bool)
    ensures
        change <==> event is ActiveWorkspaceChange,
{
    match event {
        HyprlandEvent::ActiveWindowChange(_) => false,
        HyprlandEvent::ActiveWorkspaceChange => true,
    }
}

/// The text of the window-title label: the title of the active window when
/// the bar started, then the title of each newly active window.
pub struct WindowTitle {
    pub text: Option<String>,
}

impl WindowTitle {
    /// The label for the window that was active at start, if any.
    pub fn new(initial: Option<String>) -> (title: Self)
        ensures
            title.text == initial,
    {
        WindowTitle { text: initial }
    }

    /// Follows a window change: the label shows the new window's title; a
    /// change to no window leaves it as it was. Returns whether the label
    /// was given a new text.
    pub fn on_window_change(&mut self, data: Option<WindowEventData>) -> (changed: bool)
        ensures
            changed <==> data is Some,
            match data {
                Some(window) => final(self).text matches Some(t) && t@ == window.window_title@,
                None => final(self).text == old(self).text,
            },
    {
        match data {
            Some(window) => {
                self.text = Some(window.window_title);
                true
            },
            None => false,
        }
    }
}

} // verus!

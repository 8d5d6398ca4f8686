//! The launcher's own title bar: its buttons and what each asks of the window.

use vstd::prelude::*;

verus! {

/// The launcher's window, which draws its own title bar.
pub struct App {}

/// What the window receives.
#[derive(Debug, Clone, Copy, PartialEq, Eq, Structural)]
pub enum Event {
    Titlebar(TitlebarEvent),
}

/// A press of one of the title bar's buttons.
#[derive(Debug, Clone, Copy, PartialEq, Eq, Structural)]
pub enum TitlebarEvent {
    Hide,
    Maximize,
    Close,
}

/// What the window is asked to do.
#[derive(Debug, Clone, Copy, PartialEq, Eq, Structural)]
pub enum WindowTask {
    /// Minimize the window.
    Minimize,
    /// Maximize the window.
    Maximize,
    /// Find out whether the window is maximized, and switch it to the other state.
    ToggleMaximize,
    /// Close the window.
    Close,
}

impl App {
    /// A new window, which starts maximized.
    pub fn new() -> (r: (App, WindowTask))
        ensures
            r.1 == WindowTask::Maximize,
    {
        (App {}, WindowTask::Maximize)
    }

    /// What a title bar button asks of the window.
    pub fn update(&mut self, event: Event) -> (r: WindowTask)
        ensures
            r == task_for(event),
            match event {
                Event::Titlebar(TitlebarEvent::Hide) => r == WindowTask::Minimize,
                Event::Titlebar(TitlebarEvent::Maximize) => r == WindowTask::ToggleMaximize,
                Event::Titlebar(TitlebarEvent::Close) => r == WindowTask::Close,
            },
    {
        match event {
            Event::Titlebar(titlebar) => match titlebar {
                TitlebarEvent::Hide => WindowTask::Minimize,
                TitlebarEvent::Maximize => WindowTask::ToggleMaximize,
                TitlebarEvent::Close => WindowTask::Close,
            },
        }
    }
}

/// Whether the window is to be maximized after a press of the maximize button,
/// given whether it is maximized now (`None` where the window could not say,
/// and it is left as it is).
pub fn maximize_toggle(maximized: Option<bool>) -> (r: Option<bool>)
    ensures
        r == maximize_toggle_spec(maximized),
{
    match maximized {
        Some(true) => Some(false),
        Some(false) => Some(true),
        None => None,
    }
}

/// The task that the window is given for an event.
pub open spec fn task_for(event: Event) -> WindowTask {
    match event {
        Event::Titlebar(TitlebarEvent::Hide) => WindowTask::Minimize,
        Event::Titlebar(TitlebarEvent::Maximize) => WindowTask::ToggleMaximize,
        Event::Titlebar(TitlebarEvent::Close) => WindowTask::Close,
    }
}

/// Whether the window is maximized once a task has run, given whether it was
/// before: the toggle switches to the state that `maximize_toggle` asks for,
/// maximizing maximizes, and the other tasks leave that state alone.
pub open spec fn maximized_after(task: WindowTask, maximized: bool) -> bool {
    match task {
        WindowTask::ToggleMaximize => match maximize_toggle_spec(Some(maximized)) {
            Some(b) => b,
            None => maximized,
        },
        WindowTask::Maximize => true,
        WindowTask::Minimize => maximized,
        WindowTask::Close => maximized,
    }
}

/// Two presses of the title bar's maximize button, each task run to its end,
/// leave the window maximized exactly when it was before.
pub proof fn maximize_button_twice(maximized: bool)
    ensures
        ({
            let press = task_for(Event::Titlebar(TitlebarEvent::Maximize));
            maximized_after(press, maximized_after(press, maximized)) == maximized
        }),
{
}

/// Two presses of the maximize button give back the state one started from.
pub proof fn maximize_toggle_twice(m: bool)
    ensures
        (match maximize_toggle_spec(maximize_toggle_spec(Some(m))) {
            Some(b) => b == m,
            None => false,
        }),
{
}

/// The state that a press of the maximize button asks for.
pub open spec fn maximize_toggle_spec(maximized: Option<bool>) -> Option<bool> {
    match maximized {
        Some(m) => Some(!m),
        None => None,
    }
}

} // verus!

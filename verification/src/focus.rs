use vstd::prelude::*;

verus! {

/// Remembers the process of the application that was in front before the
/// picker opened, so that focus can be handed back to it before pasting.
/// A negative identifier means that no application is remembered.
pub struct FrontmostMemory {
    prev_pid: i32,
}

impl FrontmostMemory {
    /// The remembered process identifier.
    pub closed spec fn remembered(&self) -> i32 {
        self.prev_pid
    }

    /// Nothing remembered yet.
    pub fn new() -> (m: FrontmostMemory)
        ensures
            m.remembered() == -1,
    {
        FrontmostMemory { prev_pid: -1 }
    }

    /// Remembers the process that is in front now.
    pub fn remember(&mut self, pid: i32)
        ensures
            final(self).remembered() == pid,
    {
        self.prev_pid = pid;
    }

    /// The process to bring back to the front, if one is remembered.
    pub fn restore_target(&self) -> (r: Option<i32>)
        ensures
            r == (if self.remembered() < 0 {
                None
            } else {
                Some(self.remembered())
            }),
    {
        if self.prev_pid < 0 {
            None
        } else {
            Some(self.prev_pid)
        }
    }
}

/// What a press of the hotkey (or a click on the tray icon) does to the
/// picker window.
#[derive(Clone, Copy, PartialEq, Eq, Structural, Debug)]
pub enum PickerAction {
    /// Hide the picker.
    Hide,
    /// Remember the application in front, centre the picker on the cursor's
    /// screen and show it.
    RememberAndShow,
}

/// The picker is hidden when it is known to be visible and shown otherwise;
/// `visible` is `None` when the window could not report its visibility.
pub fn picker_toggle_action(visible: Option<bool>) -> (a: PickerAction)
    ensures
        a == (if visible == Some(true) {
            PickerAction::Hide
        } else {
            PickerAction::RememberAndShow
        }),
{
    match visible {
        Some(true) => PickerAction::Hide,
        _ => PickerAction::RememberAndShow,
    }
}

} // verus!

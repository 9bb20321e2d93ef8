//! The interaction mode of the terminal session.
use vstd::prelude::*;

use crate::text::{string_pop, string_push};

verus! {

/// The application: the mode it is in.
pub struct App {
    pub status: Status,
}

/// The mode of the application.
pub enum Status {
    /// Composing text: `edit` is the text so far, and `previous` the
    /// position of the task being edited, or `None` for a new task.
    Editing { edit: String, previous: Option<usize> },
    /// Browsing the list.
    Idle,
    /// Asking whether to quit.
    Exiting,
}

impl Status {
    /// The text being composed; empty outside composing.
    pub open spec fn buffer(self) -> Seq<char> {
        match self {
            Status::Editing { edit, .. } => edit@,
            _ => Seq::empty(),
        }
    }

    /// The position of the task being edited, if any.
    pub open spec fn edited(self) -> Option<usize> {
        match self {
            Status::Editing { previous, .. } => previous,
            _ => None,
        }
    }
}

impl App {
    /// An application that is browsing.
    pub fn new() -> (r: App)
        ensures
            r.status is Idle,
    {
        App { status: Status::Idle }
    }

    /// Enters the given mode.
    pub fn switch_status(&mut self, new_status: Status)
        ensures
            final(self).status == new_status,
    {
        self.status = new_status;
    }

    /// Appends a character to the text being composed; outside composing,
    /// nothing changes.
    pub fn add_char(&mut self, ch: char)
        ensures
            match old(self).status {
                Status::Editing { edit, previous } => final(self).status matches Status::Editing {
                    edit: e,
                    previous: p,
                } && e@ == edit@.push(ch) && p == previous,
                _ => *final(self) == *old(self),
            },
    {
        if let Status::Editing { edit, previous: _ } = &mut self.status {
            string_push(edit, ch);
        }
    }

    /// Removes the last character of the text being composed, if there is
    /// one; outside composing, nothing changes.
    pub fn pop_char(&mut self)
        ensures
            match old(self).status {
                Status::Editing { edit, previous } => final(self).status matches Status::Editing {
                    edit: e,
                    previous: p,
                } && p == previous && (if edit@.len() == 0 {
                    e@ == edit@
                } else {
                    e@ == edit@.drop_last()
                }),
                _ => *final(self) == *old(self),
            },
    {
        if let Status::Editing { edit, previous: _ } = &mut self.status {
            let _ = string_pop(edit);
        }
    }

    /// The text being composed; empty outside composing.
    pub fn get_editing_task(&self) -> (r: String)
        ensures
            r@ == self.status.buffer(),
    {
        if let Status::Editing { edit, previous: _ } = &self.status {
            edit.clone()
        } else {
            String::new()
        }
    }

    /// The position of the task being edited; `None` when composing a new
    /// task or not composing.
    pub fn get_prev_task(&self) -> (r: Option<usize>)
        ensures
            r == self.status.edited(),
    {
        if let Status::Editing { edit: _, previous } = &self.status {
            *previous
        } else {
            None
        }
    }
}

impl Default for App {
    fn default() -> (r: App)
        ensures
            r.status is Idle,
    {
        App::new()
    }
}

} // verus!

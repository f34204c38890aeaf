//! The right-click menus of a task and of a task in the recycle bin.

use vstd::prelude::*;

verus! {

/// The task a menu was opened on.
#[derive(Debug)]
pub struct ContextMenuTask {
    pub id: i64,
    pub text: String,
    pub status: bool,
    pub bold: bool,
    pub color: String,
    pub timer_type: String,
    pub timer_remaining: i32,
}

impl Clone for ContextMenuTask {
    fn clone(&self) -> (r: Self)
        ensures
            r == *self,
    {
        ContextMenuTask {
            id: self.id,
            text: self.text.clone(),
            status: self.status,
            bold: self.bold,
            color: self.color.clone(),
            timer_type: self.timer_type.clone(),
            timer_remaining: self.timer_remaining,
        }
    }
}

/// Remembers what the menus were last opened on.
pub struct ContextMenuManager {
    current_task: Option<ContextMenuTask>,
    current_trash_task_id: Option<i64>,
}

impl ContextMenuManager {
    pub closed spec fn task(&self) -> Option<ContextMenuTask> {
        self.current_task
    }

    pub closed spec fn trash_task_id(&self) -> Option<i64> {
        self.current_trash_task_id
    }

    pub fn new() -> (r: Self)
        ensures
            r.task() is None,
            r.trash_task_id() is None,
    {
        ContextMenuManager { current_task: None, current_trash_task_id: None }
    }

    pub fn set_current_task(&mut self, task: ContextMenuTask)
        ensures
            final(self).task() == Some(task),
            final(self).trash_task_id() == old(self).trash_task_id(),
    {
        self.current_task = Some(task);
    }

    pub fn get_current_task(&self) -> (r: Option<ContextMenuTask>)
        ensures
            r == self.task(),
    {
        match &self.current_task {
            Some(t) => Some(t.clone()),
            None => None,
        }
    }

    pub fn set_current_trash_task_id(&mut self, task_id: i64)
        ensures
            final(self).trash_task_id() == Some(task_id),
            final(self).task() == old(self).task(),
    {
        self.current_trash_task_id = Some(task_id);
    }

    pub fn get_current_trash_task_id(&self) -> (r: Option<i64>)
        ensures
            r == self.trash_task_id(),
    {
        self.current_trash_task_id
    }
}

/// The width of both menus, in logical pixels.
pub const MENU_WIDTH: u32 = 160;

/// The height of one button.
pub const BTN_HEIGHT: u32 = 25;

/// The height of a divider.
pub const DIVIDER_HEIGHT: u32 = 9;

/// The height of a section title.
pub const SECTION_TITLE_HEIGHT: u32 = 18;

/// The padding above and below the buttons.
pub const CONTAINER_PADDING: u32 = 8;

/// The height of a task's menu, in logical pixels: twelve buttons for an open
/// task, nine for a done one (it cannot be timed or recoloured), three
/// dividers, the padding and 4 pixels to spare.
pub fn calc_main_menu_height(status: bool) -> (h: u32)
    ensures
        h == CONTAINER_PADDING + 4 + BTN_HEIGHT * (if status { 9u32 } else { 12u32 }) + DIVIDER_HEIGHT * 3,
        h == (if status { 264u32 } else { 339u32 }),
{
    let mut height: u32 = CONTAINER_PADDING + 4;
    if !status {
        height = height + BTN_HEIGHT * 12;
        height = height + DIVIDER_HEIGHT * 3;
    } else {
        height = height + BTN_HEIGHT * 9;
        height = height + DIVIDER_HEIGHT * 3;
    }
    height
}

/// The height of the recycle bin's menu: two buttons, a divider, a section
/// title, four more buttons, the padding and 4 pixels to spare.
pub fn calc_trash_menu_height() -> (h: u32)
    ensures
        h == CONTAINER_PADDING + BTN_HEIGHT * 2 + DIVIDER_HEIGHT + SECTION_TITLE_HEIGHT + BTN_HEIGHT * 4 + 4,
        h == 189,
{
    CONTAINER_PADDING + BTN_HEIGHT * 2 + DIVIDER_HEIGHT + SECTION_TITLE_HEIGHT + BTN_HEIGHT * 4 + 4
}

/// The task an action of the recycle bin's menu applies to: the one given, or
/// for 0 the one the menu was opened on (0 when there is none).
pub fn effective_trash_task_id(task_id: i64, stored: Option<i64>) -> (r: i64)
    ensures
        r == (if task_id == 0 {
            match stored {
                Some(id) => id,
                None => 0,
            }
        } else {
            task_id
        }),
{
    if task_id == 0 {
        match stored {
            Some(id) => id,
            None => 0,
        }
    } else {
        task_id
    }
}

} // verus!

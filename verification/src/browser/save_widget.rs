//! One row of the save list on screen.

use vstd::prelude::*;

use crate::browser::save_entry::SaveEntry;

verus! {

/// What the pointer did to a row.
#[derive(Debug, Clone, Copy, PartialEq, Eq)]
pub enum SaveWidgetMessage {
    HoverEnter,
    HoverExit,
}

/// One row of the save list: the number of its file, what the slot holds, and whether
/// the pointer is over it.
#[derive(Debug, PartialEq, Eq)]
pub struct SaveWidget {
    pub file_index: usize,
    pub save_entry: Option<SaveEntry>,
    pub is_hovered: bool,
}

impl SaveWidget {
    /// The row of an empty slot.
    pub fn empty(file_index: usize) -> (widget: Self)
        ensures
            widget.file_index == file_index,
            widget.save_entry is None,
            !widget.is_hovered,
    {
        Self { file_index, save_entry: None, is_hovered: false }
    }

    /// The row of a filled slot.
    pub fn new(file_index: usize, entry: SaveEntry) -> (widget: Self)
        ensures
            widget.file_index == file_index,
            widget.save_entry == Some(entry),
            !widget.is_hovered,
    {
        Self { file_index, save_entry: Some(entry), is_hovered: false }
    }

    /// The pointer came or went: the row is under it after it came, and no longer after
    /// it went. Nothing else changes.
    pub fn update(&mut self, msg: SaveWidgetMessage)
        ensures
            final(self).is_hovered == (msg is HoverEnter),
            final(self).file_index == old(self).file_index,
            final(self).save_entry == old(self).save_entry,
    {
        match msg {
            SaveWidgetMessage::HoverEnter => {
                self.is_hovered = true;
            },
            SaveWidgetMessage::HoverExit => {
                self.is_hovered = false;
            },
        }
    }
}

} // verus!

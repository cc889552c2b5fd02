//! The browser window: what it holds, and what a message does to it.

use vstd::prelude::*;

use crate::browser::save_widget::SaveWidget;
use crate::browser::save_widget::SaveWidgetMessage;
use crate::browser::saves_state::SavesState;

verus! {

/// What can happen to the window.
#[derive(Debug, Clone)]
pub enum Message {
    /// The text of the directory field is now this.
    DirectoryChanged(String),
    /// The button that opens the directory dialog was pressed.
    OpenDirectoryDialog,
    SaveSelectionChanged(String),
    /// The pointer did something to the row of this number.
    SaveWidgetMessage(usize, SaveWidgetMessage),
    FontLoaded,
}

/// What is left to do outside the window once a message has changed it.
#[derive(Debug, PartialEq, Eq, Clone, Copy, Structural)]
pub enum Effect {
    Nothing,
    /// Read the save list of the window's directory, and hand it to `App::show`.
    LoadSaves,
    /// Let a directory be picked, and send it as `Message::DirectoryChanged`.
    PickDirectory,
}

/// The name of the save list file in a save directory.
pub const GLOBAL_FILE_NAME: &'static str = "global.rpgsave";

/// What the window holds: the save directory, and its save list.
#[derive(Debug, Default)]
pub struct App {
    pub save_directory: String,
    pub saves: SavesState,
}

/// The rows after the pointer did `msg` to row `index`: that row is under the pointer
/// or no longer so, and nothing else has changed.
pub open spec fn rows_after_hover(
    before: Seq<SaveWidget>,
    after: Seq<SaveWidget>,
    index: int,
    msg: SaveWidgetMessage,
) -> bool {
    &&& after.len() == before.len()
    &&& forall|i: int| 0 <= i < before.len() && i != index ==> #[trigger] after[i] == before[i]
    &&& after[index].is_hovered == (msg is HoverEnter)
    &&& after[index].file_index == before[index].file_index
    &&& after[index].save_entry == before[index].save_entry
}

impl App {
    /// Takes a message in.
    ///
    /// A new directory is noted, and its save list is to be read. The dialog button
    /// asks for a directory to be picked. A message for a row that is on screen goes
    /// to that row. No other message changes anything.
    pub fn update(&mut self, msg: Message) -> (effect: Effect)
        ensures
            match msg {
                Message::DirectoryChanged(directory) => {
                    &&& effect == Effect::LoadSaves
                    &&& final(self).save_directory@ == directory@
                    &&& final(self).saves == old(self).saves
                },
                Message::OpenDirectoryDialog => {
                    &&& effect == Effect::PickDirectory
                    &&& *final(self) == *old(self)
                },
                Message::SaveWidgetMessage(index, row_msg) => {
                    &&& effect == Effect::Nothing
                    &&& final(self).save_directory == old(self).save_directory
                    &&& match old(self).saves {
                        SavesState::Loaded { entries: before } if index < before@.len() => {
                            final(self).saves matches SavesState::Loaded { entries: after }
                                && rows_after_hover(before@, after@, index as int, row_msg)
                        },
                        _ => final(self).saves == old(self).saves,
                    }
                },
                Message::SaveSelectionChanged(_) | Message::FontLoaded => {
                    &&& effect == Effect::Nothing
                    &&& *final(self) == *old(self)
                },
            },
    {
        match msg {
            Message::DirectoryChanged(directory) => {
                self.save_directory = directory;
                Effect::LoadSaves
            },
            Message::OpenDirectoryDialog => Effect::PickDirectory,
            Message::SaveSelectionChanged(_) => Effect::Nothing,
            Message::SaveWidgetMessage(index, row_msg) => {
                match &mut self.saves {
                    SavesState::Loaded { entries } => {
                        if index < entries.len() {
                            entries[index].update(row_msg);
                        }
                    },
                    _ => {},
                }
                Effect::Nothing
            },
            Message::FontLoaded => Effect::Nothing,
        }
    }

    /// Puts a save list on screen, in place of the one that was there.
    pub fn show(&mut self, saves: SavesState)
        ensures
            final(self).saves == saves,
            final(self).save_directory == old(self).save_directory,
    {
        self.saves = saves;
    }
}

} // verus!

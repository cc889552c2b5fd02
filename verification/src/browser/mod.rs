//! What the save browser decides: which sheets a save list needs, what each slot shows,
//! and how a message changes what is on screen.

pub mod error;
pub mod save_entry;
pub mod save_widget;
pub mod saves_state;
pub mod app;

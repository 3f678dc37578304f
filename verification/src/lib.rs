//! The logic of a movie and series manager: what the library holds, what is
//! watched next, how link patterns become episodes, how VLC is asked to play
//! them, and what the window shows.
//!
//! The library is held in memory as plain rows ([`tables`]); every change to it
//! is written down in a journal, which the application carries out in its
//! database. What the user does is a method of the application's state
//! ([`state`]); what it does to the state is stated as a function on views.
//!
//! What comes of it is proved apart from these functions, from the rows and the
//! texts alone: of forms and questions in [`outcomes`], of watching in
//! [`watching`], of what is shown in [`browsing`], and of documents in [`moving`].

pub mod adding;
pub mod browsing;
pub mod db;
pub mod deleting;
pub mod editing;
pub mod json;
pub mod journaling;
pub mod landing;
pub mod laws;
pub mod links;
pub mod marking;
pub mod models;
pub mod moving;
pub mod outcomes;
pub mod pattern;
pub mod playback;
pub mod playing;
pub mod posters;
pub mod readback;
pub mod restoring;
mod rows;
pub mod screen;
pub mod seasons;
pub mod selection;
pub mod showing;
pub mod sidebar;
pub mod sorting;
pub mod state;
pub mod storing;
pub mod tables;
pub mod text;
pub mod timeline;
pub mod transfer;
pub mod vlc;
pub mod watching;

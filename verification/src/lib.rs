//! Note-taking core: an ordered list of notes that can be created, read,
//! updated, deleted and searched by keyword, with every operation's result
//! stated over a model of the notes as sequences of characters.

pub mod ids;
pub mod laws;
pub mod manager;
pub mod note;
pub mod request;
pub mod stamps;
pub mod text;

pub use manager::NoteManager;
pub use note::Note;
pub use request::FfiRequest;

//! The requests that a host application sends to the note store.

use vstd::prelude::*;

verus! {

/// One request to the note store, with its parameters.
#[derive(Debug, Clone)]
pub enum FfiRequest {
    /// Start with an empty store.
    Init,
    /// Create a note.
    CreateNote { title: String, content: String },
    /// List every note.
    GetAllNotes,
    /// Read one note.
    GetNote { id: String },
    /// Revise a note.
    UpdateNote { id: String, title: String, content: String },
    /// Remove a note.
    DeleteNote { id: String },
    /// Find the notes that contain a keyword.
    SearchNotes { keyword: String },
}

} // verus!

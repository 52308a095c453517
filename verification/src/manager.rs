//! The note store: an ordered list of notes with create, read, update,
//! delete and keyword search.

use vstd::prelude::*;

use crate::note::{Note, NoteView, views_of};
use crate::ids::{candidate, candidate_id, lemma_some_candidate_unused, pow16};
use crate::stamps::{current_timestamp, is_v4_uuid_text, new_note_id, Clock};
use crate::text::{chars_of, contains_seq, occurs_in};

verus! {

broadcast use vstd::string::group_string_axioms;

/// `i` is the position of the first note whose id is `id`.
pub open spec fn is_first_with_id(notes: Seq<NoteView>, id: Seq<char>, i: int) -> bool {
    &&& 0 <= i < notes.len()
    &&& notes[i].id == id
    &&& forall|j: int| 0 <= j < i ==> notes[j].id != id
}

/// Some note has the id `id`.
pub open spec fn has_id(notes: Seq<NoteView>, id: Seq<char>) -> bool {
    exists|i: int| 0 <= i < notes.len() && notes[i].id == id
}

/// The position of the first note whose id is `id`, if there is one.
pub open spec fn first_with_id(notes: Seq<NoteView>, id: Seq<char>) -> Option<int> {
    if exists|i: int| is_first_with_id(notes, id, i) {
        Some(choose|i: int| is_first_with_id(notes, id, i))
    } else {
        None
    }
}

/// The first note whose id is `id`, if there is one.
pub open spec fn lookup(notes: Seq<NoteView>, id: Seq<char>) -> Option<NoteView> {
    match first_with_id(notes, id) {
        Some(i) => Some(notes[i]),
        None => None,
    }
}

/// A new note: both timestamps are `now`.
pub open spec fn fresh_note(
    id: Seq<char>,
    title: Seq<char>,
    content: Seq<char>,
    now: Seq<char>,
) -> NoteView {
    NoteView { id, title, content, created_at: now, updated_at: now }
}

/// `note` with a new title, body and update time; id and creation time kept.
pub open spec fn revised(
    note: NoteView,
    title: Seq<char>,
    content: Seq<char>,
    now: Seq<char>,
) -> NoteView {
    NoteView { title, content, updated_at: now, ..note }
}

/// The notes after revising the first one whose id is `id`; unchanged if none has it.
pub open spec fn updated(
    notes: Seq<NoteView>,
    id: Seq<char>,
    title: Seq<char>,
    content: Seq<char>,
    now: Seq<char>,
) -> Seq<NoteView> {
    match first_with_id(notes, id) {
        Some(i) => notes.update(i, revised(notes[i], title, content, now)),
        None => notes,
    }
}

/// The notes without the first one whose id is `id`; unchanged if none has it.
pub open spec fn removed(notes: Seq<NoteView>, id: Seq<char>) -> Seq<NoteView> {
    match first_with_id(notes, id) {
        Some(i) => notes.remove(i),
        None => notes,
    }
}

/// The keyword occurs in the note's title or in its body.
pub open spec fn note_matches(note: NoteView, keyword: Seq<char>) -> bool {
    contains_seq(note.title, keyword) || contains_seq(note.content, keyword)
}

/// The notes that match `keyword`, in their order.
pub open spec fn search_results(notes: Seq<NoteView>, keyword: Seq<char>) -> Seq<NoteView> {
    notes.filter(|n: NoteView| note_matches(n, keyword))
}

/// The note store.
pub struct NoteManager {
    notes: Vec<Note>,
    clock: Clock,
}

impl NoteManager {
    /// The notes held, in the order they were created.
    pub closed spec fn notes_view(&self) -> Seq<NoteView> {
        views_of(self.notes@)
    }

    /// The clock readings this store has taken, oldest first: one for each
    /// note created and each note revised through `create_note` and
    /// `update_note`.
    pub closed spec fn clock_readings(&self) -> Seq<Seq<char>> {
        self.clock.readings()
    }
}

impl View for NoteManager {
    type V = Seq<NoteView>;

    open spec fn view(&self) -> Seq<NoteView> {
        self.notes_view()
    }
}

impl NoteManager {
    /// An empty store.
    pub fn new() -> (m: NoteManager)
        ensures
            m@ == Seq::<NoteView>::empty(),
            m.clock_readings() == Seq::<Seq<char>>::empty(),
    {
        let m = NoteManager { notes: Vec::new(), clock: Clock::new() };
        assert(m@ =~= Seq::<NoteView>::empty());
        m
    }

    /// Appends a note with the given id and the time `now` as both
    /// timestamps, and returns a copy of it.
    pub fn create_note_with(&mut self, title: String, content: String, id: String, now: String) -> (note: Note)
        ensures
            note@ == fresh_note(id@, title@, content@, now@),
            final(self)@ == old(self)@.push(note@),
            final(self).clock_readings() == old(self).clock_readings(),
    {
        let note = Note {
            id,
            title,
            content,
            created_at: now.clone(),
            updated_at: now,
        };
        let copy = note.clone();
        self.notes.push(note);
        assert(self@ =~= old(self)@.push(copy@));
        copy
    }

    /// Appends a note with a fresh random id, stamped with the current time,
    /// and returns a copy of it.
    pub fn create_note(&mut self, title: String, content: String) -> (note: Note)
        ensures
            note@.title == title@,
            note@.content == content@,
            is_v4_uuid_text(note@.id),
            !has_id(old(self)@, note@.id),
            crate::stamps::is_rfc3339_with_offset(note@.created_at),
            note@ == fresh_note(note@.id, title@, content@, note@.created_at),
            final(self)@ == old(self)@.push(note@),
            final(self).clock_readings() == old(self).clock_readings().push(note@.created_at),
    {
        let id = self.unused_id(new_note_id());
        let now = current_timestamp(&mut self.clock);
        self.create_note_with(title, content, id, now)
    }

    /// A copy of every note, in order.
    pub fn get_all_notes(&self) -> (all: Vec<Note>)
        ensures
            views_of(all@) == self@,
    {
        let all = self.notes.clone();
        assert(views_of(all@) =~= self@) by {
            assert forall|i: int| 0 <= i < all@.len() implies all@[i] == self.notes@[i] by {
                assert(vstd::pervasive::cloned(self.notes@[i], all@[i]));
            }
        }
        all
    }

    /// The position of the first note whose id is `id`.
    fn position_of(&self, id: &String) -> (pos: Option<usize>)
        ensures
            match pos {
                Some(i) => first_with_id(self@, id@) == Some(i as int),
                None => first_with_id(self@, id@) is None && !has_id(self@, id@),
            },
    {
        let n = self.notes.len();
        let mut i: usize = 0;
        while i < n
            invariant
                n == self.notes@.len(),
                self@.len() == n,
                i <= n,
                forall|j: int| 0 <= j < i ==> #[trigger] self@[j].id != id@,
            decreases n - i,
        {
            if self.notes[i].id == *id {
                assert(is_first_with_id(self@, id@, i as int));
                return Some(i);
            }
            i = i + 1;
        }
        None
    }

    /// `drawn` if no note has it; otherwise the first candidate id derived
    /// from it that no note has.
    fn unused_id(&self, drawn: String) -> (id: String)
        requires
            is_v4_uuid_text(drawn@),
        ensures
            is_v4_uuid_text(id@),
            !has_id(self@, id@),
            !has_id(self@, drawn@) ==> id@ == drawn@,
    {
        match self.position_of(&drawn) {
            None => return drawn,
            Some(p) => {
                assert(is_first_with_id(self@, drawn@, p as int));
            },
        }
        let n = self.notes.len();
        let ghost ids = self@.map_values(|v: NoteView| v.id);
        proof {
            assert(n < pow16(16)) by {
                reveal_with_fuel(pow16, 17);
            }
            lemma_some_candidate_unused(ids, drawn@);
        }
        let mut j: usize = 0;
        loop
            invariant
                j <= n,
                n == self@.len(),
                ids == self@.map_values(|v: NoteView| v.id),
                is_v4_uuid_text(drawn@),
                has_id(self@, drawn@),
                exists|k: nat| j <= k <= n && !ids.contains(#[trigger] candidate_id(drawn@, k)),
            decreases n - j,
        {
            let c = candidate(&drawn, j);
            if self.position_of(&c).is_none() {
                return c;
            }
            proof {
                assert(ids.contains(candidate_id(drawn@, j as nat))) by {
                    let i = choose|i: int| 0 <= i < self@.len() && self@[i].id == c@;
                    assert(ids[i] == c@);
                }
            }
            if j == n {
                return c;
            }
            j = j + 1;
        }
    }

    /// A copy of the first note whose id is `id`, if there is one.
    pub fn get_note(&self, id: &str) -> (found: Option<Note>)
        ensures
            match found {
                Some(note) => lookup(self@, id@) == Some(note@),
                None => lookup(self@, id@) is None,
            },
    {
        let key = id.to_string();
        match self.position_of(&key) {
            Some(i) => Some(self.notes[i].clone()),
            None => None,
        }
    }

    /// Revises the note at `i`: new title, body and update time.
    fn revise_at(&mut self, i: usize, title: String, content: String, now: String) -> (note: Note)
        requires
            i < old(self)@.len(),
        ensures
            note@ == revised(old(self)@[i as int], title@, content@, now@),
            final(self)@ == old(self)@.update(i as int, note@),
            final(self).clock_readings() == old(self).clock_readings(),
    {
        let note = Note {
            id: self.notes[i].id.clone(),
            title,
            content,
            created_at: self.notes[i].created_at.clone(),
            updated_at: now,
        };
        let copy = note.clone();
        self.notes.set(i, note);
        assert(self@ =~= old(self)@.update(i as int, copy@));
        copy
    }

    /// Revises the first note whose id is `id` with the given title, body
    /// and update time `now`, and returns a copy of it; `None`, with nothing
    /// changed, if no note has that id.
    pub fn update_note_with(&mut self, id: String, title: String, content: String, now: String) -> (result: Option<Note>)
        ensures
            final(self)@ == updated(old(self)@, id@, title@, content@, now@),
            match result {
                Some(note) => {
                    &&& lookup(final(self)@, id@) == Some(note@)
                    &&& lookup(old(self)@, id@) matches Some(before)
                    &&& note@ == revised(before, title@, content@, now@)
                },
                None => lookup(old(self)@, id@) is None,
            },
            final(self).clock_readings() == old(self).clock_readings(),
    {
        match self.position_of(&id) {
            Some(i) => {
                let note = self.revise_at(i, title, content, now);
                proof { lemma_first_after_update(old(self)@, id@, i as int, note@); }
                Some(note)
            },
            None => None,
        }
    }

    /// Revises the first note whose id is `id` with the given title and body,
    /// stamps it with the current time, and returns a copy of it; `None`,
    /// with nothing changed, if no note has that id.
    pub fn update_note(&mut self, id: String, title: String, content: String) -> (result: Option<Note>)
        ensures
            match result {
                Some(note) => {
                    &&& crate::stamps::is_rfc3339_with_offset(note@.updated_at)
                    &&& final(self)@ == updated(old(self)@, id@, title@, content@, note@.updated_at)
                    &&& lookup(final(self)@, id@) == Some(note@)
                    &&& lookup(old(self)@, id@) matches Some(before)
                    &&& note@ == revised(before, title@, content@, note@.updated_at)
                    &&& final(self).clock_readings() == old(self).clock_readings().push(note@.updated_at)
                },
                None => {
                    &&& lookup(old(self)@, id@) is None
                    &&& final(self)@ == old(self)@
                    &&& final(self).clock_readings() == old(self).clock_readings()
                },
            },
    {
        match self.position_of(&id) {
            Some(i) => {
                let now = current_timestamp(&mut self.clock);
                let note = self.revise_at(i, title, content, now);
                proof { lemma_first_after_update(old(self)@, id@, i as int, note@); }
                Some(note)
            },
            None => None,
        }
    }

    /// Removes the first note whose id is `id`; true when one was removed.
    pub fn delete_note(&mut self, id: &str) -> (deleted: bool)
        ensures
            deleted == has_id(old(self)@, id@),
            final(self)@ == removed(old(self)@, id@),
            final(self).clock_readings() == old(self).clock_readings(),
    {
        let key = id.to_string();
        match self.position_of(&key) {
            Some(i) => {
                assert(self@[i as int].id == id@);
                let _gone = self.notes.remove(i);
                assert(self@ =~= old(self)@.remove(i as int));
                true
            },
            None => false,
        }
    }

    /// Copies of the notes whose title or body contains `keyword`, in order.
    pub fn search_notes(&self, keyword: &str) -> (found: Vec<Note>)
        ensures
            views_of(found@) == search_results(self@, keyword@),
    {
        let key = chars_of(keyword);
        let n = self.notes.len();
        let mut found: Vec<Note> = Vec::new();
        let ghost pred = |v: NoteView| note_matches(v, keyword@);
        let mut i: usize = 0;
        while i < n
            invariant
                n == self.notes@.len(),
                self@.len() == n,
                i <= n,
                key@ == keyword@,
                pred == (|v: NoteView| note_matches(v, keyword@)),
                views_of(found@) == self@.take(i as int).filter(pred),
            decreases n - i,
        {
            proof { reveal_with_fuel(Seq::<_>::filter, 1); }
            let title = chars_of(self.notes[i].title.as_str());
            let hit = if occurs_in(&title, &key) {
                true
            } else {
                let content = chars_of(self.notes[i].content.as_str());
                occurs_in(&content, &key)
            };
            if hit {
                let copy = self.notes[i].clone();
                found.push(copy);
            }
            assert(self@.take(i + 1).drop_last() =~= self@.take(i as int));
            assert(views_of(found@) =~= self@.take(i + 1).filter(pred));
            i = i + 1;
        }
        assert(self@.take(n as int) =~= self@);
        found
    }
}

/// After the note at the first position `i` with `id` is revised (its id
/// kept), `i` is still the first position with that id.
proof fn lemma_first_after_update(notes: Seq<NoteView>, id: Seq<char>, i: int, note: NoteView)
    requires
        first_with_id(notes, id) == Some(i),
        note.id == id,
    ensures
        first_with_id(notes.update(i, note), id) == Some(i),
{
    let before = choose|k: int| is_first_with_id(notes, id, k);
    assert(is_first_with_id(notes, id, before));
    assert(is_first_with_id(notes.update(i, note), id, i));
}

} // verus!

//! Properties of the store that span operations, stated over the models
//! that the operations' contracts use.

use vstd::prelude::*;

use crate::manager::{
    first_with_id, fresh_note, has_id, is_first_with_id, lookup, note_matches, removed, revised,
    search_results, updated,
};
use crate::note::NoteView;
use crate::text::{contains_seq, occurs_at};

verus! {

/// No two notes share an id.
pub open spec fn ids_unique(notes: Seq<NoteView>) -> bool {
    forall|i: int, j: int|
        0 <= i < notes.len() && 0 <= j < notes.len() && i != j ==> notes[i].id != notes[j].id
}

/// Whenever some note has the id, there is a first such note, and
/// `first_with_id` names it; otherwise `first_with_id` is `None`.
pub proof fn lemma_first_with_id(notes: Seq<NoteView>, id: Seq<char>)
    ensures
        has_id(notes, id) <==> first_with_id(notes, id) is Some,
        first_with_id(notes, id) matches Some(i) ==> is_first_with_id(notes, id, i),
    decreases notes.len(),
{
    if has_id(notes, id) {
        if notes[0].id == id {
            assert(is_first_with_id(notes, id, 0));
        } else {
            let rest = notes.drop_first();
            let k = choose|k: int| 0 <= k < notes.len() && notes[k].id == id;
            assert(rest[k - 1] == notes[k]);
            lemma_first_with_id(rest, id);
            let j = first_with_id(rest, id)->0;
            assert forall|m: int| 0 <= m < j + 1 implies notes[m].id != id by {
                if m > 0 {
                    assert(notes[m] == rest[m - 1]);
                }
            }
            assert(is_first_with_id(notes, id, j + 1));
        }
    }
}

/// Reading back what was written: after a note is created with an id that
/// no note had, looking that id up gives the new note.
pub proof fn law_lookup_after_create(notes: Seq<NoteView>, note: NoteView)
    requires
        !has_id(notes, note.id),
    ensures
        lookup(notes.push(note), note.id) == Some(note),
        has_id(notes.push(note), note.id),
{
    let after = notes.push(note);
    assert(is_first_with_id(after, note.id, notes.len() as int));
}

/// Creating a note with a new id and then deleting that id reports success
/// and gives back the notes as they were.
pub proof fn law_delete_undoes_create(notes: Seq<NoteView>, note: NoteView)
    requires
        !has_id(notes, note.id),
    ensures
        has_id(notes.push(note), note.id),
        removed(notes.push(note), note.id) == notes,
{
    law_lookup_after_create(notes, note);
    let after = notes.push(note);
    assert(is_first_with_id(after, note.id, notes.len() as int));
    assert(after.remove(notes.len() as int) =~= notes);
}

/// Deleting removes exactly one note when the id is present, none otherwise.
pub proof fn law_delete_length(notes: Seq<NoteView>, id: Seq<char>)
    ensures
        has_id(notes, id) ==> removed(notes, id).len() == notes.len() - 1,
        !has_id(notes, id) ==> removed(notes, id) == notes,
{
    lemma_first_with_id(notes, id);
}

/// When ids are unique, a deleted id can no longer be found, and every
/// other note can still be found as it was.
pub proof fn law_lookup_after_delete(notes: Seq<NoteView>, id: Seq<char>, other: Seq<char>)
    requires
        ids_unique(notes),
        other != id,
    ensures
        lookup(removed(notes, id), id) is None,
        lookup(removed(notes, id), other) == lookup(notes, other),
        ids_unique(removed(notes, id)),
{
    lemma_first_with_id(notes, id);
    lemma_first_with_id(notes, other);
    let after = removed(notes, id);
    lemma_first_with_id(after, id);
    lemma_first_with_id(after, other);
    match first_with_id(notes, id) {
        Some(i) => {
            assert(after == notes.remove(i));
            assert forall|k: int| 0 <= k < after.len() implies after[k].id != id by {
                if k < i {
                    assert(after[k] == notes[k]);
                } else {
                    assert(after[k] == notes[k + 1]);
                }
            }
            assert(!has_id(after, id));
            assert forall|a: int, b: int|
                0 <= a < after.len() && 0 <= b < after.len() && a != b implies after[a].id
                != after[b].id by {
                let ia = if a < i { a } else { a + 1 };
                let ib = if b < i { b } else { b + 1 };
                assert(after[a] == notes[ia]);
                assert(after[b] == notes[ib]);
            }
            if has_id(notes, other) {
                let o = first_with_id(notes, other)->0;
                assert(o != i);
                let p = if o < i { o } else { o - 1 };
                assert(after[p] == notes[o]);
                assert forall|m: int| 0 <= m < p implies after[m].id != other by {
                    if m < i {
                        assert(after[m] == notes[m]);
                    } else {
                        assert(after[m] == notes[m + 1]);
                    }
                }
                assert(is_first_with_id(after, other, p));
            } else {
                assert forall|k: int| 0 <= k < after.len() implies after[k].id != other by {
                    if k < i {
                        assert(after[k] == notes[k]);
                    } else {
                        assert(after[k] == notes[k + 1]);
                    }
                }
            }
        },
        None => {},
    }
}

/// Updating changes only the first note with the id: every note keeps its
/// position, its id and its creation time, and the others stay as they were.
pub proof fn law_update_keeps_the_rest(
    notes: Seq<NoteView>,
    id: Seq<char>,
    title: Seq<char>,
    content: Seq<char>,
    now: Seq<char>,
)
    ensures
        updated(notes, id, title, content, now).len() == notes.len(),
        forall|k: int|
            0 <= k < notes.len() ==> {
                &&& (#[trigger] updated(notes, id, title, content, now)[k]).id == notes[k].id
                &&& updated(notes, id, title, content, now)[k].created_at == notes[k].created_at
                &&& first_with_id(notes, id) != Some(k) ==> updated(notes, id, title, content, now)[k]
                    == notes[k]
            },
        !has_id(notes, id) ==> updated(notes, id, title, content, now) == notes,
{
    lemma_first_with_id(notes, id);
}

/// Reading back an update: after updating an id that is present, looking it
/// up gives the revised note, with the new title, body and update time.
pub proof fn law_lookup_after_update(
    notes: Seq<NoteView>,
    id: Seq<char>,
    title: Seq<char>,
    content: Seq<char>,
    now: Seq<char>,
)
    requires
        has_id(notes, id),
    ensures
        lookup(updated(notes, id, title, content, now), id) == Some(
            revised(lookup(notes, id)->0, title, content, now),
        ),
{
    lemma_first_with_id(notes, id);
    let i = first_with_id(notes, id)->0;
    let after = updated(notes, id, title, content, now);
    assert(is_first_with_id(after, id, i));
    lemma_first_with_id(after, id);
}

/// Creating a note with an unused id keeps ids unique.
pub proof fn law_create_keeps_ids_unique(notes: Seq<NoteView>, note: NoteView)
    requires
        ids_unique(notes),
        !has_id(notes, note.id),
    ensures
        ids_unique(notes.push(note)),
{
    let after = notes.push(note);
    assert forall|a: int, b: int|
        0 <= a < after.len() && 0 <= b < after.len() && a != b implies after[a].id
        != after[b].id by {
        if a < notes.len() && b < notes.len() {
            assert(after[a] == notes[a] && after[b] == notes[b]);
        } else if a < notes.len() {
            assert(after[a] == notes[a]);
        } else {
            assert(after[b] == notes[b]);
        }
    }
}

/// Updating keeps ids unique.
pub proof fn law_update_keeps_ids_unique(
    notes: Seq<NoteView>,
    id: Seq<char>,
    title: Seq<char>,
    content: Seq<char>,
    now: Seq<char>,
)
    requires
        ids_unique(notes),
    ensures
        ids_unique(updated(notes, id, title, content, now)),
{
    law_update_keeps_the_rest(notes, id, title, content, now);
    let after = updated(notes, id, title, content, now);
    assert forall|a: int, b: int|
        0 <= a < after.len() && 0 <= b < after.len() && a != b implies after[a].id
        != after[b].id by {
        assert(after[a].id == notes[a].id);
        assert(after[b].id == notes[b].id);
    }
}

/// The empty sequence occurs in every text, and every text occurs in itself.
pub proof fn law_contains_empty_and_self(text: Seq<char>)
    ensures
        contains_seq(text, Seq::<char>::empty()),
        contains_seq(text, text),
{
    assert(text.subrange(0, 0) =~= Seq::<char>::empty());
    assert(occurs_at(text, Seq::<char>::empty(), 0));
    assert(text.subrange(0, text.len() as int) =~= text);
    assert(occurs_at(text, text, 0));
}

/// Searching finds only matching notes, finds every matching note, keeps
/// their order, and never finds more notes than there are.
pub proof fn law_search_sound_and_complete(notes: Seq<NoteView>, keyword: Seq<char>)
    ensures
        search_results(notes, keyword).len() <= notes.len(),
        forall|k: int|
            0 <= k < search_results(notes, keyword).len() ==> note_matches(
                #[trigger] search_results(notes, keyword)[k],
                keyword,
            ) && notes.contains(search_results(notes, keyword)[k]),
        forall|k: int|
            0 <= k < notes.len() && note_matches(#[trigger] notes[k], keyword) ==> search_results(
                notes,
                keyword,
            ).contains(notes[k]),
{
    let pred = |n: NoteView| note_matches(n, keyword);
    broadcast use vstd::seq_lib::group_filter_ensures;
    assert forall|k: int| 0 <= k < search_results(notes, keyword).len() implies note_matches(
        #[trigger] search_results(notes, keyword)[k],
        keyword,
    ) && notes.contains(search_results(notes, keyword)[k]) by {
        notes.lemma_filter_pred(pred, k);
        notes.lemma_filter_contains_rev(pred, search_results(notes, keyword)[k]);
    }
    assert forall|k: int| 0 <= k < notes.len() && note_matches(#[trigger] notes[k], keyword)
        implies search_results(notes, keyword).contains(notes[k]) by {
        notes.lemma_filter_contains(pred, k);
    }
    notes.lemma_filter_len(pred);
}

/// Searching for the empty keyword finds every note, in order.
pub proof fn law_search_empty_keyword(notes: Seq<NoteView>)
    ensures
        search_results(notes, Seq::<char>::empty()) == notes,
    decreases notes.len(),
{
    reveal_with_fuel(Seq::<_>::filter, 1);
    if notes.len() > 0 {
        law_search_empty_keyword(notes.drop_last());
        law_contains_empty_and_self(notes.last().title);
        assert(notes.drop_last().push(notes.last()) =~= notes);
    }
}

/// Searching after a create: the new note is found, at the end of the
/// results, exactly when it matches; the earlier results stay as they were.
pub proof fn law_search_after_create(notes: Seq<NoteView>, note: NoteView, keyword: Seq<char>)
    ensures
        search_results(notes.push(note), keyword) == if note_matches(note, keyword) {
            search_results(notes, keyword).push(note)
        } else {
            search_results(notes, keyword)
        },
{
    reveal_with_fuel(Seq::<_>::filter, 1);
    assert(notes.push(note).drop_last() =~= notes);
}

/// A new note is found by searching for its own title (and for its own body).
pub proof fn law_new_note_found_by_title(
    notes: Seq<NoteView>,
    id: Seq<char>,
    title: Seq<char>,
    content: Seq<char>,
    now: Seq<char>,
)
    ensures
        search_results(notes.push(fresh_note(id, title, content, now)), title).last() == fresh_note(
            id,
            title,
            content,
            now,
        ),
        search_results(notes.push(fresh_note(id, title, content, now)), content).last()
            == fresh_note(id, title, content, now),
{
    let note = fresh_note(id, title, content, now);
    law_contains_empty_and_self(title);
    law_contains_empty_and_self(content);
    law_search_after_create(notes, note, title);
    law_search_after_create(notes, note, content);
}

/// A note created with an id that no held note has (as `create_note`
/// guarantees) differs in id from every held note, is what looking up its id
/// gives, is what deleting its id removes, and keeps ids unique.
pub proof fn law_new_id_is_unused(notes: Seq<NoteView>, note: NoteView)
    requires
        !has_id(notes, note.id),
    ensures
        forall|i: int| 0 <= i < notes.len() ==> #[trigger] notes[i].id != note.id,
        lookup(notes.push(note), note.id) == Some(note),
        removed(notes.push(note), note.id) == notes,
        ids_unique(notes) ==> ids_unique(notes.push(note)),
{
    law_lookup_after_create(notes, note);
    law_delete_undoes_create(notes, note);
    if ids_unique(notes) {
        law_create_keeps_ids_unique(notes, note);
    }
}

/// A created note carries the clock reading taken by its own create call
/// (as `create_note` records it): the newest reading is both its creation
/// and its update time, and the earlier readings are left as they were.
pub proof fn law_create_carries_its_reading(
    before: Seq<Seq<char>>,
    after: Seq<Seq<char>>,
    note: NoteView,
)
    requires
        after == before.push(note.created_at),
        note.updated_at == note.created_at,
    ensures
        after.len() == before.len() + 1,
        after.last() == note.created_at,
        after.last() == note.updated_at,
        after.subrange(0, before.len() as int) == before,
{
    assert(after.subrange(0, before.len() as int) =~= before);
}

/// Two creates in a row: the first note carries the first of the two new
/// readings, the second note the second.
pub proof fn law_successive_creates_carry_successive_readings(
    r0: Seq<Seq<char>>,
    r1: Seq<Seq<char>>,
    r2: Seq<Seq<char>>,
    first: NoteView,
    second: NoteView,
)
    requires
        r1 == r0.push(first.created_at),
        r2 == r1.push(second.created_at),
    ensures
        r2.len() == r0.len() + 2,
        r2[r0.len() as int] == first.created_at,
        r2[r0.len() + 1int] == second.created_at,
{
}

/// An update stamps the revised note with the clock reading taken by this
/// update call, and keeps its creation time.
pub proof fn law_update_carries_its_reading(
    notes: Seq<NoteView>,
    id: Seq<char>,
    title: Seq<char>,
    content: Seq<char>,
    before: Seq<Seq<char>>,
    after: Seq<Seq<char>>,
    now: Seq<char>,
)
    requires
        has_id(notes, id),
        after == before.push(now),
    ensures
        lookup(updated(notes, id, title, content, now), id) matches Some(n) && n.updated_at
            == after.last() && n.created_at == lookup(notes, id)->0.created_at,
{
    law_lookup_after_update(notes, id, title, content, now);
}

} // verus!

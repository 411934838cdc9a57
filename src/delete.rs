use vstd::prelude::*;

use crate::types::{Note, NoteFile, NoteView};

verus! {

/// The notes of `notes` whose name is not `name`, in their order.
pub open spec fn without_name(notes: Seq<NoteView>, name: Seq<char>) -> Seq<NoteView> {
    notes.filter(|n: NoteView| n.name != name)
}

/// Removes every note named exactly `note_name`; no note of that name is no
/// error.
pub fn delete_note(note_file: &mut NoteFile, note_name: &str)
    ensures
        final(note_file)@ == without_name(old(note_file)@, note_name@),
{
    let target = String::from_str(note_name);
    let mut all: Vec<Note> = Vec::new();
    std::mem::swap(&mut note_file.notes, &mut all);
    let ghost start = all@.map_values(|n: Note| n@);
    let mut i: usize = 0;
    while i < all.len()
        invariant
            i <= all@.len(),
            target@ == note_name@,
            start == all@.map_values(|n: Note| n@),
            note_file@ == without_name(start.subrange(0, i as int), note_name@),
        decreases all.len() - i,
    {
        let keep = !(all[i].name == target);
        if keep {
            let copy = all[i].duplicate();
            note_file.notes.push(copy);
        }
        proof {
            let prev = start.subrange(0, i as int);
            let cur = start.subrange(0, i + 1);
            assert(cur.drop_last() =~= prev);
            assert(cur.last() == all@[i as int]@);
            reveal(Seq::filter);
            assert(note_file@ =~= without_name(cur, note_name@));
        }
        i = i + 1;
    }
    assert(start.subrange(0, start.len() as int) =~= start);
}

/// Deleting a name that no note carries leaves the collection as it was.
pub proof fn lemma_delete_absent_is_noop(notes: Seq<NoteView>, name: Seq<char>)
    requires
        forall|i: int| 0 <= i < notes.len() ==> #[trigger] notes[i].name != name,
    ensures
        without_name(notes, name) == notes,
    decreases notes.len(),
{
    reveal(Seq::filter);
    if notes.len() > 0 {
        let rest = notes.drop_last();
        assert forall|i: int| 0 <= i < rest.len() implies #[trigger] rest[i].name != name by {
            assert(rest[i] == notes[i]);
        }
        lemma_delete_absent_is_noop(rest, name);
        assert(notes.last() == notes[notes.len() - 1]);
        assert(rest.push(notes.last()) =~= notes);
    }
}

} // verus!

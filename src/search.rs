use vstd::prelude::*;

use crate::text::{lower_of, lowercase, occurs_in, text_contains};
use crate::types::{Note, NoteFile, NoteView};

verus! {

/// The parts separated by single spaces.
pub open spec fn space_joined(parts: Seq<Seq<char>>) -> Seq<char>
    decreases parts.len(),
{
    if parts.len() == 0 {
        Seq::empty()
    } else if parts.len() == 1 {
        parts[0]
    } else {
        space_joined(parts.drop_last()) + seq![' '] + parts.last()
    }
}

/// The text that a query is looked for in: the note's rule names joined by
/// spaces, then its name, then its contents, separated by spaces.
pub open spec fn search_text(note: NoteView) -> Seq<char> {
    space_joined(note.rules) + seq![' '] + note.name + seq![' '] + note.contents
}

/// The note matches `query`, ignoring case.
pub open spec fn note_found(note: NoteView, query: Seq<char>) -> bool {
    occurs_in(lower_of(query), lower_of(search_text(note)))
}

/// The notes that match `query`, in collection order.
pub open spec fn found_notes(notes: Seq<NoteView>, query: Seq<char>) -> Seq<NoteView> {
    notes.filter(|n: NoteView| note_found(n, query))
}

/// The text that a query is looked for in, for one note.
pub fn note_search_text(note: &Note) -> (r: String)
    ensures
        r@ == search_text(note@),
{
    let space = " ";
    proof {
        reveal_strlit(" ");
    }
    let mut r = String::new();
    let mut i: usize = 0;
    while i < note.rules.len()
        invariant
            i <= note@.rules.len(),
            space@ == seq![' '],
            r@ == space_joined(note@.rules.subrange(0, i as int)),
        decreases note.rules.len() - i,
    {
        if i > 0 {
            r.append(space);
        }
        r.append(note.rules[i].as_str());
        proof {
            let cur = note@.rules.subrange(0, i + 1);
            assert(cur.drop_last() =~= note@.rules.subrange(0, i as int));
            if i == 0 {
                assert(r@ =~= cur[0]);
            } else {
                assert(r@ =~= space_joined(cur.drop_last()) + seq![' '] + cur.last());
            }
        }
        i = i + 1;
    }
    assert(note@.rules.subrange(0, note@.rules.len() as int) =~= note@.rules);
    r.append(space);
    r.append(note.name.as_str());
    r.append(space);
    r.append(note.contents.as_str());
    r
}

/// The notes whose rule names, name or contents hold `query`, ignoring
/// case, in collection order; an empty query finds every note.
pub fn search_notes(note_file: &NoteFile, query: &str) -> (r: Vec<Note>)
    ensures
        r@.map_values(|n: Note| n@) == found_notes(note_file@, query@),
{
    let wanted = lowercase(query);
    let mut r: Vec<Note> = Vec::new();
    let mut i: usize = 0;
    while i < note_file.notes.len()
        invariant
            i <= note_file@.len(),
            wanted@ == lower_of(query@),
            r@.map_values(|n: Note| n@) == found_notes(note_file@.subrange(0, i as int), query@),
        decreases note_file.notes.len() - i,
    {
        let note = &note_file.notes[i];
        let text = note_search_text(note);
        let lowered = lowercase(text.as_str());
        let hit = text_contains(lowered.as_str(), wanted.as_str());
        let ghost before = r@;
        if hit {
            r.push(note.duplicate());
        }
        proof {
            let all = note_file@;
            let prev = all.subrange(0, i as int);
            let cur = all.subrange(0, i + 1);
            assert(cur.drop_last() =~= prev);
            assert(cur.last() == note@);
            reveal(Seq::filter);
            if hit {
                assert(found_notes(cur, query@) == found_notes(prev, query@).push(note@));
                assert(r@.map_values(|n: Note| n@) =~= before.map_values(|n: Note| n@).push(note@));
            } else {
                assert(found_notes(cur, query@) == found_notes(prev, query@));
                assert(r@ == before);
            }
        }
        i = i + 1;
    }
    assert(note_file@.subrange(0, note_file@.len() as int) =~= note_file@);
    r
}

} // verus!

use vstd::prelude::*;

use crate::rule::{matching_rules, rules_for};
use crate::types::{NoteFile, NoteView, RuleFile, RuleView};

verus! {

/// `note` with its rule names recomputed against `rules`.
pub open spec fn reindexed_note(note: NoteView, rules: Seq<RuleView>) -> NoteView {
    NoteView {
        name: note.name,
        contents: note.contents,
        time: note.time,
        rules: rules_for(note.contents, rules),
    }
}

/// Every note of `notes` with its rule names recomputed against `rules`.
pub open spec fn reindexed(notes: Seq<NoteView>, rules: Seq<RuleView>) -> Seq<NoteView> {
    notes.map_values(|n: NoteView| reindexed_note(n, rules))
}

/// Every note's rule names are those that `rules` give for its contents.
pub open spec fn notes_current(notes: Seq<NoteView>, rules: Seq<RuleView>) -> bool {
    forall|i: int| 0 <= i < notes.len() ==> #[trigger] notes[i].rules == rules_for(notes[i].contents, rules)
}

/// Recomputes the rule names of every note against the current rules.
pub fn index_notes(note_file: &mut NoteFile, rule_file: &RuleFile)
    ensures
        final(note_file)@ == reindexed(old(note_file)@, rule_file@),
        notes_current(final(note_file)@, rule_file@),
{
    let ghost start = note_file@;
    let mut i: usize = 0;
    while i < note_file.notes.len()
        invariant
            i <= start.len(),
            note_file.notes@.len() == start.len(),
            forall|j: int| 0 <= j < i ==> #[trigger] note_file.notes@[j]@ == reindexed_note(start[j], rule_file@),
            forall|j: int| i <= j < start.len() ==> #[trigger] note_file.notes@[j]@ == start[j],
        decreases note_file.notes.len() - i,
    {
        let tags = matching_rules(note_file.notes[i].contents.as_str(), rule_file);
        let ghost before = note_file.notes@;
        note_file.notes[i].rules = tags;
        assert(note_file.notes@ == before.update(i as int, note_file.notes@[i as int]));
        assert(note_file.notes@[i as int].contents == before[i as int].contents);
        assert(note_file.notes@[i as int].name == before[i as int].name);
        assert(note_file.notes@[i as int].time == before[i as int].time);
        assert(note_file.notes@[i as int].rules == tags);
        assert(start[i as int] == before[i as int]@);
        assert(note_file.notes@[i as int]@.rules == rules_for(start[i as int].contents, rule_file@));
        assert(note_file.notes@[i as int]@ == reindexed_note(start[i as int], rule_file@));
        i = i + 1;
    }
    assert(note_file@ =~= reindexed(start, rule_file@));
}

/// Indexing a second time with the same rules changes nothing.
pub proof fn lemma_reindex_idempotent(notes: Seq<NoteView>, rules: Seq<RuleView>)
    ensures
        reindexed(reindexed(notes, rules), rules) == reindexed(notes, rules),
{
    assert(reindexed(reindexed(notes, rules), rules) =~= reindexed(notes, rules));
}

/// After indexing, every note carries exactly the names of the rules that
/// match its contents.
pub proof fn lemma_reindex_current(notes: Seq<NoteView>, rules: Seq<RuleView>)
    ensures
        notes_current(reindexed(notes, rules), rules),
{
}

} // verus!

use vstd::prelude::*;

use crate::index::notes_current;
use crate::rule::{matching_rules, rules_for};
use crate::types::{Note, NoteFile, NoteView, PileError, RuleFile, RuleView};

verus! {

/// The note that `name` and `contents` make at `time`, tagged against `rules`.
pub open spec fn new_note(
    name: Seq<char>,
    contents: Seq<char>,
    time: Seq<char>,
    rules: Seq<RuleView>,
) -> NoteView {
    NoteView { name, contents, time, rules: rules_for(contents, rules) }
}

/// Appends a note stamped with `time`, tagged with the rules that match
/// `note_contents` now.
pub fn create_note_at(
    note_file: &mut NoteFile,
    rule_file: &RuleFile,
    note_name: &str,
    note_contents: &str,
    time: &str,
)
    ensures
        final(note_file)@ == old(note_file)@.push(new_note(note_name@, note_contents@, time@, rule_file@)),
        notes_current(old(note_file)@, rule_file@) ==> notes_current(final(note_file)@, rule_file@),
{
    let note = Note {
        name: String::from_str(note_name),
        contents: String::from_str(note_contents),
        time: String::from_str(time),
        rules: matching_rules(note_contents, rule_file),
    };
    note_file.notes.push(note);
    assert(note_file@ =~= old(note_file)@.push(new_note(note_name@, note_contents@, time@, rule_file@)));
}

/// Appends a note stamped with the current local time and tagged with the
/// rules that match its contents; fails, changing nothing, when the local
/// time cannot be read.
pub fn create_note(
    note_file: &mut NoteFile,
    rule_file: &RuleFile,
    note_name: &str,
    note_contents: &str,
) -> (r: Result<(), PileError>)
    ensures
        r matches Ok(_) ==> exists|t: Seq<char>|
            final(note_file)@ == old(note_file)@.push(#[trigger] new_note(note_name@, note_contents@, t, rule_file@)),
        r matches Err(e) ==> e == PileError::TimeUnavailable && final(note_file)@ == old(note_file)@,
        notes_current(old(note_file)@, rule_file@) ==> notes_current(final(note_file)@, rule_file@),
{
    match time::OffsetDateTime::now_local() {
        Ok(now) => {
            let stamp = now.to_string();
            create_note_at(note_file, rule_file, note_name, note_contents, stamp.as_str());
            Ok(())
        },
        Err(_) => Err(PileError::TimeUnavailable),
    }
}

} // verus!

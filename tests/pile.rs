use pile::delete::delete_note;
use pile::index::index_notes;
use pile::note::{create_note, create_note_at};
use pile::rule::{create_rule, create_rule_lowered, matching_rules, matching_rules_lowered};
use pile::search::{note_search_text, search_notes};
use pile::text::text_contains;
use pile::types::{Note, NoteFile, PileError, Rule, RuleFile, RuleKind};

fn rule(name: &str, keywords: &[&str]) -> Rule {
    Rule {
        name: name.to_string(),
        kind: RuleKind::Keywords,
        keywords: keywords.iter().map(|k| k.to_string()).collect(),
    }
}

fn note(name: &str, contents: &str, rules: &[&str]) -> Note {
    Note {
        name: name.to_string(),
        contents: contents.to_string(),
        time: "2024-01-01 10:00:00.0 +00:00:00".to_string(),
        rules: rules.iter().map(|r| r.to_string()).collect(),
    }
}

fn names(notes: &[Note]) -> Vec<String> {
    notes.iter().map(|n| n.name.clone()).collect()
}

#[test]
fn created_note_is_tagged_with_matching_rule() {
    let rules = RuleFile { rules: vec![rule("work", &["meeting"])] };
    let mut notes = NoteFile { notes: vec![] };
    create_note_at(&mut notes, &rules, "standup", "Team meeting at 10", "now");
    assert_eq!(notes.notes.len(), 1);
    assert_eq!(notes.notes[0].rules, vec!["work".to_string()]);
    assert_eq!(notes.notes[0].name, "standup");
    assert_eq!(notes.notes[0].contents, "Team meeting at 10");
    assert_eq!(notes.notes[0].time, "now");
}

#[test]
fn create_note_stamps_or_reports_missing_time() {
    let rules = RuleFile { rules: vec![rule("work", &["meeting"])] };
    let mut notes = NoteFile { notes: vec![note("old", "x", &[])] };
    match create_note(&mut notes, &rules, "standup", "Team meeting at 10") {
        Ok(()) => {
            assert_eq!(notes.notes.len(), 2);
            assert_eq!(notes.notes[1].rules, vec!["work".to_string()]);
            assert!(!notes.notes[1].time.is_empty());
        }
        Err(e) => {
            assert_eq!(e, PileError::TimeUnavailable);
            assert_eq!(notes.notes.len(), 1);
        }
    }
}

#[test]
fn new_rule_is_appended_and_notes_reindexed() {
    let mut rules = RuleFile { rules: vec![rule("work", &["meeting"])] };
    let mut notes = NoteFile {
        notes: vec![note("a", "Reply ASAP", &[]), note("b", "meeting notes", &[])],
    };
    create_rule(&mut rules, &mut notes, "urgent", Some("asap"));
    assert_eq!(rules.rules.len(), 2);
    assert_eq!(rules.rules[1].name, "urgent");
    assert_eq!(rules.rules[1].kind, RuleKind::Keywords);
    assert_eq!(rules.rules[1].keywords, vec!["asap".to_string()]);
    assert_eq!(notes.notes[0].rules, vec!["urgent".to_string()]);
    assert_eq!(notes.notes[1].rules, vec!["work".to_string()]);
}

#[test]
fn search_finds_only_matching_note() {
    let notes = NoteFile {
        notes: vec![note("A", "sky is blue", &[]), note("B", "red car", &[])],
    };
    let found = search_notes(&notes, "blue");
    assert_eq!(names(&found), vec!["A".to_string()]);
    assert_eq!(found[0].contents, "sky is blue");
}

#[test]
fn upsert_without_keyword_keeps_keywords_and_reindexes() {
    let mut rules = RuleFile { rules: vec![rule("work", &["meeting", "standup"])] };
    let mut notes = NoteFile {
        notes: vec![note("a", "Daily standup", &["stale"]), note("b", "lunch", &["work"])],
    };
    create_rule(&mut rules, &mut notes, "work", None);
    assert_eq!(rules.rules.len(), 1);
    assert_eq!(rules.rules[0].keywords, vec!["meeting".to_string(), "standup".to_string()]);
    assert_eq!(notes.notes[0].rules, vec!["work".to_string()]);
    assert!(notes.notes[1].rules.is_empty());
}

#[test]
fn upsert_lowercases_and_appends_keyword() {
    let mut rules = RuleFile { rules: vec![rule("home", &["garden"]), rule("work", &["meeting"])] };
    let mut notes = NoteFile { notes: vec![note("a", "Call the Boss", &[])] };
    create_rule(&mut rules, &mut notes, "work", Some("BOSS"));
    assert_eq!(rules.rules.len(), 2);
    assert_eq!(rules.rules[0].keywords, vec!["garden".to_string()]);
    assert_eq!(rules.rules[1].name, "work");
    assert_eq!(rules.rules[1].keywords, vec!["meeting".to_string(), "boss".to_string()]);
    assert_eq!(notes.notes[0].rules, vec!["work".to_string()]);
}

#[test]
fn upsert_keeps_duplicate_keywords() {
    let mut rules = RuleFile { rules: vec![rule("work", &["meeting"])] };
    let mut notes = NoteFile { notes: vec![] };
    create_rule(&mut rules, &mut notes, "work", Some("meeting"));
    assert_eq!(rules.rules[0].keywords, vec!["meeting".to_string(), "meeting".to_string()]);
}

#[test]
fn upsert_of_new_rule_without_keyword_matches_nothing() {
    let mut rules = RuleFile { rules: vec![] };
    let mut notes = NoteFile { notes: vec![note("a", "anything", &["old"])] };
    create_rule(&mut rules, &mut notes, "empty", None);
    assert_eq!(rules.rules.len(), 1);
    assert_eq!(rules.rules[0].name, "empty");
    assert!(rules.rules[0].keywords.is_empty());
    assert!(notes.notes[0].rules.is_empty());
}

#[test]
fn upsert_extends_first_of_duplicate_names() {
    let mut rules = RuleFile { rules: vec![rule("x", &["a"]), rule("x", &["b"])] };
    let mut notes = NoteFile { notes: vec![] };
    create_rule_lowered(&mut rules, &mut notes, "x", Some("c"));
    assert_eq!(rules.rules[0].keywords, vec!["a".to_string(), "c".to_string()]);
    assert_eq!(rules.rules[1].keywords, vec!["b".to_string()]);
}

#[test]
fn lowered_upsert_takes_keyword_as_given() {
    let mut rules = RuleFile { rules: vec![] };
    let mut notes = NoteFile { notes: vec![] };
    create_rule_lowered(&mut rules, &mut notes, "r", Some("MiXed"));
    assert_eq!(rules.rules[0].keywords, vec!["MiXed".to_string()]);
}

#[test]
fn matching_keeps_rule_order() {
    let rules = RuleFile {
        rules: vec![rule("c", &["x"]), rule("a", &["y"]), rule("b", &["zzz"]), rule("d", &["x", "q"])],
    };
    let got = matching_rules("X and Y", &rules);
    assert_eq!(got, vec!["c".to_string(), "a".to_string(), "d".to_string()]);
}

#[test]
fn keywordless_rule_never_matches() {
    let rules = RuleFile { rules: vec![rule("none", &[]), rule("all", &[""])] };
    assert_eq!(matching_rules("", &rules), vec!["all".to_string()]);
    assert_eq!(matching_rules("some text", &rules), vec!["all".to_string()]);
}

#[test]
fn matching_is_case_insensitive_on_contents_only() {
    let rules = RuleFile { rules: vec![rule("upper", &["Meeting"]), rule("lower", &["meeting"])] };
    assert_eq!(matching_rules("MEETING", &rules), vec!["lower".to_string()]);
}

#[test]
fn matching_reports_duplicate_names() {
    let rules = RuleFile { rules: vec![rule("dup", &["a"]), rule("dup", &["b"])] };
    assert_eq!(matching_rules("ab", &rules), vec!["dup".to_string(), "dup".to_string()]);
}

#[test]
fn lowered_matching_does_not_fold_case() {
    let rules = RuleFile { rules: vec![rule("r", &["blue"])] };
    assert!(matching_rules_lowered("BLUE", &rules).is_empty());
    assert_eq!(matching_rules_lowered("blue", &rules), vec!["r".to_string()]);
}

#[test]
fn matching_with_no_rules_is_empty() {
    let rules = RuleFile { rules: vec![] };
    assert!(matching_rules("anything", &rules).is_empty());
}

#[test]
fn index_refreshes_every_note() {
    let rules = RuleFile { rules: vec![rule("work", &["meeting"]), rule("fun", &["party"])] };
    let mut notes = NoteFile {
        notes: vec![note("a", "Meeting then party", &["old"]), note("b", "nothing", &["work"])],
    };
    index_notes(&mut notes, &rules);
    assert_eq!(notes.notes[0].rules, vec!["work".to_string(), "fun".to_string()]);
    assert!(notes.notes[1].rules.is_empty());
    assert_eq!(notes.notes[0].name, "a");
    assert_eq!(notes.notes[0].contents, "Meeting then party");
}

#[test]
fn index_twice_equals_index_once() {
    let rules = RuleFile { rules: vec![rule("work", &["meeting"])] };
    let mut notes = NoteFile { notes: vec![note("a", "meeting", &[]), note("b", "x", &["work"])] };
    index_notes(&mut notes, &rules);
    let once: Vec<Vec<String>> = notes.notes.iter().map(|n| n.rules.clone()).collect();
    index_notes(&mut notes, &rules);
    let twice: Vec<Vec<String>> = notes.notes.iter().map(|n| n.rules.clone()).collect();
    assert_eq!(once, twice);
}

#[test]
fn delete_removes_every_note_of_that_name() {
    let mut notes = NoteFile {
        notes: vec![note("a", "1", &[]), note("b", "2", &[]), note("a", "3", &[])],
    };
    delete_note(&mut notes, "a");
    assert_eq!(names(&notes.notes), vec!["b".to_string()]);
    assert_eq!(notes.notes[0].contents, "2");
}

#[test]
fn delete_of_absent_name_changes_nothing() {
    let mut notes = NoteFile { notes: vec![note("a", "1", &["r"]), note("b", "2", &[])] };
    delete_note(&mut notes, "A");
    assert_eq!(names(&notes.notes), vec!["a".to_string(), "b".to_string()]);
    assert_eq!(notes.notes[0].contents, "1");
    assert_eq!(notes.notes[0].rules, vec!["r".to_string()]);
}

#[test]
fn delete_from_empty_collection() {
    let mut notes = NoteFile { notes: vec![] };
    delete_note(&mut notes, "a");
    assert!(notes.notes.is_empty());
}

#[test]
fn search_ignores_case_of_query_and_note() {
    let notes = NoteFile { notes: vec![note("A", "Sky is Blue", &[]), note("B", "red car", &[])] };
    assert_eq!(names(&search_notes(&notes, "BLUE")), vec!["A".to_string()]);
}

#[test]
fn search_looks_at_rule_names_and_note_name() {
    let notes = NoteFile {
        notes: vec![note("Groceries", "milk", &["Home"]), note("B", "eggs", &["work"])],
    };
    assert_eq!(names(&search_notes(&notes, "home")), vec!["Groceries".to_string()]);
    assert_eq!(names(&search_notes(&notes, "grocer")), vec!["Groceries".to_string()]);
    assert_eq!(names(&search_notes(&notes, "work b eggs")), vec!["B".to_string()]);
}

#[test]
fn empty_query_finds_every_note() {
    let notes = NoteFile { notes: vec![note("A", "x", &[]), note("B", "y", &[])] };
    assert_eq!(names(&search_notes(&notes, "")), vec!["A".to_string(), "B".to_string()]);
}

#[test]
fn search_text_joins_rules_name_and_contents() {
    let n = note("Name", "Body text", &["r1", "r2"]);
    assert_eq!(note_search_text(&n), "r1 r2 Name Body text");
    let bare = note("N", "c", &[]);
    assert_eq!(note_search_text(&bare), " N c");
}

#[test]
fn text_contains_exact_values() {
    assert!(text_contains("sky is blue", "blue"));
    assert!(text_contains("abc", ""));
    assert!(text_contains("", ""));
    assert!(!text_contains("", "a"));
    assert!(!text_contains("ab", "abc"));
    assert!(!text_contains("aab", "abb"));
    assert!(text_contains("aab", "ab"));
    assert!(text_contains("héllo wörld", "ö"));
}

#[test]
fn error_messages() {
    assert_eq!(PileError::CouldNotFindHome.message(), "Could not find home directory");
    assert_eq!(PileError::TimeUnavailable.message(), "Could not determine the local time");
}

use vstd::prelude::*;

verus! {

/// How a rule decides whether it applies to a note.
#[derive(Clone, Copy, Debug, PartialEq, Eq, Structural)]
pub enum RuleKind {
    Keywords,
    Regex,
}

/// A named set of keywords; a note is tagged with the rule's name when one
/// of the keywords occurs in its lower-cased contents.
pub struct Rule {
    pub name: String,
    pub kind: RuleKind,
    pub keywords: Vec<String>,
}

/// The mathematical value of a rule.
pub struct RuleView {
    pub name: Seq<char>,
    pub kind: RuleKind,
    pub keywords: Seq<Seq<char>>,
}

impl View for Rule {
    type V = RuleView;

    open spec fn view(&self) -> RuleView {
        RuleView {
            name: self.name@,
            kind: self.kind,
            keywords: self.keywords@.map_values(|k: String| k@),
        }
    }
}

/// The rule collection, in insertion order.
pub struct RuleFile {
    pub rules: Vec<Rule>,
}

impl View for RuleFile {
    type V = Seq<RuleView>;

    open spec fn view(&self) -> Seq<RuleView> {
        self.rules@.map_values(|r: Rule| r@)
    }
}

/// A timestamped piece of text with the names of the rules that match it.
pub struct Note {
    pub name: String,
    pub contents: String,
    pub time: String,
    pub rules: Vec<String>,
}

/// The mathematical value of a note.
pub struct NoteView {
    pub name: Seq<char>,
    pub contents: Seq<char>,
    pub time: Seq<char>,
    pub rules: Seq<Seq<char>>,
}

impl View for Note {
    type V = NoteView;

    open spec fn view(&self) -> NoteView {
        NoteView {
            name: self.name@,
            contents: self.contents@,
            time: self.time@,
            rules: self.rules@.map_values(|r: String| r@),
        }
    }
}

/// The note collection, in insertion order.
pub struct NoteFile {
    pub notes: Vec<Note>,
}

impl View for NoteFile {
    type V = Seq<NoteView>;

    open spec fn view(&self) -> Seq<NoteView> {
        self.notes@.map_values(|n: Note| n@)
    }
}

/// The conditions that end an invocation.
#[derive(Clone, Copy, Debug, PartialEq, Eq, Structural)]
pub enum PileError {
    /// The user's home directory could not be found.
    CouldNotFindHome,
    /// The local time could not be read, so a note cannot be stamped.
    TimeUnavailable,
}

impl PileError {
    /// A sentence for the user.
    pub fn message(&self) -> (r: String) {
        match self {
            PileError::CouldNotFindHome => String::from_str("Could not find home directory"),
            PileError::TimeUnavailable => String::from_str("Could not determine the local time"),
        }
    }
}

/// Copies a sequence of strings one by one.
fn copy_strings(v: &Vec<String>) -> (r: Vec<String>)
    ensures
        r@.map_values(|s: String| s@) == v@.map_values(|s: String| s@),
{
    let mut r: Vec<String> = Vec::new();
    let mut i: usize = 0;
    while i < v.len()
        invariant
            i <= v.len(),
            r@.len() == i,
            forall|j: int| 0 <= j < i ==> r@[j]@ == v@[j]@,
        decreases v.len() - i,
    {
        r.push(v[i].clone());
        i = i + 1;
    }
    assert(r@.map_values(|s: String| s@) =~= v@.map_values(|s: String| s@));
    r
}

impl Note {
    /// A copy of the note, field by field.
    pub fn duplicate(&self) -> (r: Note)
        ensures
            r@ == self@,
    {
        Note {
            name: self.name.clone(),
            contents: self.contents.clone(),
            time: self.time.clone(),
            rules: copy_strings(&self.rules),
        }
    }
}

} // verus!

use vstd::prelude::*;

use crate::index::{index_notes, notes_current, reindexed};
use crate::text::{lower_of, lowercase, occurs_in, text_contains};
use crate::types::{NoteFile, Rule, RuleFile, RuleKind, RuleView};

verus! {

/// Some keyword of `rule` occurs in `text`, whatever the rule's kind; a rule
/// without keywords applies to nothing.
pub open spec fn rule_applies(rule: RuleView, text: Seq<char>) -> bool {
    exists|k: int| 0 <= k < rule.keywords.len() && occurs_in(#[trigger] rule.keywords[k], text)
}

/// The rules of `rules` that apply to the already lower-cased `text`, in
/// collection order.
pub open spec fn applying_rules(text: Seq<char>, rules: Seq<RuleView>) -> Seq<RuleView> {
    rules.filter(|r: RuleView| rule_applies(r, text))
}

/// The names of the rules that apply to the already lower-cased `text`, in
/// collection order, one entry per applying rule.
pub open spec fn matched_names(text: Seq<char>, rules: Seq<RuleView>) -> Seq<Seq<char>> {
    applying_rules(text, rules).map_values(|r: RuleView| r.name)
}

/// The names of the rules that tag a note with the given contents.
pub open spec fn rules_for(contents: Seq<char>, rules: Seq<RuleView>) -> Seq<Seq<char>> {
    matched_names(lower_of(contents), rules)
}

/// The positions in `rules` of the rules that apply to `text`, in order.
pub open spec fn applying_positions(text: Seq<char>, rules: Seq<RuleView>) -> Seq<int>
    decreases rules.len(),
{
    if rules.len() == 0 {
        Seq::empty()
    } else {
        let prev = applying_positions(text, rules.drop_last());
        if rule_applies(rules.last(), text) {
            prev.push(rules.len() - 1)
        } else {
            prev
        }
    }
}

/// `names` are the names of the rules of `rules` at the strictly increasing
/// positions `pos`, those positions being exactly the rules that apply to
/// `text`.
pub open spec fn picked_in_order(pos: Seq<int>, names: Seq<Seq<char>>, rules: Seq<RuleView>, text: Seq<char>) -> bool {
    &&& pos.len() == names.len()
    &&& forall|a: int, b: int| 0 <= a < b < pos.len() ==> pos[a] < pos[b]
    &&& forall|a: int| #![trigger pos[a]] 0 <= a < pos.len() ==> {
        &&& 0 <= pos[a] < rules.len()
        &&& rules[pos[a]].name == names[a]
        &&& rule_applies(rules[pos[a]], text)
    }
    &&& forall|k: int| 0 <= k < rules.len() && rule_applies(#[trigger] rules[k], text) ==> pos.contains(k)
}

proof fn lemma_positions(text: Seq<char>, rules: Seq<RuleView>)
    ensures
        picked_in_order(applying_positions(text, rules), matched_names(text, rules), rules, text),
    decreases rules.len(),
{
    reveal(Seq::filter);
    if rules.len() > 0 {
        let rest = rules.drop_last();
        lemma_positions(text, rest);
        let prev = applying_positions(text, rest);
        let pos = applying_positions(text, rules);
        assert forall|k: int| 0 <= k < rules.len() && rule_applies(#[trigger] rules[k], text) implies pos.contains(k) by {
            if k < rules.len() - 1 {
                assert(rest[k] == rules[k]);
                let a = choose|a: int| 0 <= a < prev.len() && prev[a] == k;
                assert(pos[a] == k);
            } else {
                assert(pos[pos.len() - 1] == k);
            }
        }
    }
}

/// Matching keeps the order of the collection: the names that come out are
/// those of the applying rules at strictly increasing positions, and every
/// applying rule is among them.
pub proof fn lemma_matching_keeps_order(contents: Seq<char>, rules: Seq<RuleView>)
    ensures
        exists|pos: Seq<int>| #[trigger] picked_in_order(pos, rules_for(contents, rules), rules, lower_of(contents)),
{
    lemma_positions(lower_of(contents), rules);
    assert(picked_in_order(applying_positions(lower_of(contents), rules), rules_for(contents, rules), rules, lower_of(contents)));
}

proof fn lemma_drop_keywordless(text: Seq<char>, rules: Seq<RuleView>)
    ensures
        applying_rules(text, rules.filter(|r: RuleView| r.keywords.len() > 0)) == applying_rules(text, rules),
    decreases rules.len(),
{
    reveal(Seq::filter);
    if rules.len() > 0 {
        let q = |r: RuleView| r.keywords.len() > 0;
        let rest = rules.drop_last();
        lemma_drop_keywordless(text, rest);
        let r = rules.last();
        if r.keywords.len() == 0 {
            assert(!rule_applies(r, text));
            assert(rules.filter(q) == rest.filter(q));
        } else {
            let kept = rules.filter(q);
            assert(kept == rest.filter(q).push(r));
            assert(kept.drop_last() =~= rest.filter(q));
            assert(kept.last() == r);
        }
    }
}

/// A rule without keywords never matches: it is never among the applying
/// rules, and taking all such rules out of the collection changes no result.
pub proof fn lemma_keywordless_rules_never_match(contents: Seq<char>, rules: Seq<RuleView>)
    ensures
        forall|k: int|
            0 <= k < rules.len() && (#[trigger] rules[k]).keywords.len() == 0
                ==> !applying_rules(lower_of(contents), rules).contains(rules[k]),
        rules_for(contents, rules.filter(|r: RuleView| r.keywords.len() > 0)) == rules_for(contents, rules),
{
    let text = lower_of(contents);
    lemma_drop_keywordless(text, rules);
    assert forall|k: int|
        0 <= k < rules.len() && (#[trigger] rules[k]).keywords.len() == 0
            implies !applying_rules(text, rules).contains(rules[k]) by {
        if applying_rules(text, rules).contains(rules[k]) {
            let a = choose|a: int| 0 <= a < applying_rules(text, rules).len() && applying_rules(text, rules)[a] == rules[k];
            rules.lemma_filter_pred(|r: RuleView| rule_applies(r, text), a);
        }
    }
}

/// Whether some keyword of `rule` occurs in `text`.
fn rule_hits(rule: &Rule, text: &str) -> (r: bool)
    ensures
        r == rule_applies(rule@, text@),
{
    let mut i: usize = 0;
    while i < rule.keywords.len()
        invariant
            i <= rule.keywords@.len(),
            forall|k: int| 0 <= k < i ==> !occurs_in(#[trigger] rule@.keywords[k], text@),
        decreases rule.keywords.len() - i,
    {
        if text_contains(text, rule.keywords[i].as_str()) {
            assert(occurs_in(rule@.keywords[i as int], text@));
            return true;
        }
        i = i + 1;
    }
    false
}

/// The names of the rules whose keywords occur in `lowered`, a text that is
/// already in lower case, in collection order.
pub fn matching_rules_lowered(lowered: &str, rule_file: &RuleFile) -> (r: Vec<String>)
    ensures
        r@.map_values(|s: String| s@) == matched_names(lowered@, rule_file@),
{
    let mut r: Vec<String> = Vec::new();
    let mut i: usize = 0;
    while i < rule_file.rules.len()
        invariant
            i <= rule_file@.len(),
            r@.map_values(|s: String| s@) == matched_names(lowered@, rule_file@.subrange(0, i as int)),
        decreases rule_file.rules.len() - i,
    {
        let rule = &rule_file.rules[i];
        let hit = rule_hits(rule, lowered);
        let ghost before = r@;
        if hit {
            r.push(rule.name.clone());
        }
        proof {
            let all = rule_file@;
            let pred = |x: RuleView| rule_applies(x, lowered@);
            assert(all.subrange(0, i + 1).drop_last() =~= all.subrange(0, i as int));
            reveal(Seq::filter);
            let prev = all.subrange(0, i as int);
            let cur = all.subrange(0, i + 1);
            assert(cur.last() == rule@);
            if hit {
                assert(applying_rules(lowered@, cur) == applying_rules(lowered@, prev).push(rule@));
                assert(r@ =~= before.push(r@.last()));
                assert(r@.map_values(|s: String| s@) =~= before.map_values(|s: String| s@).push(rule@.name));
            } else {
                assert(applying_rules(lowered@, cur) == applying_rules(lowered@, prev));
            }
            assert(r@.map_values(|s: String| s@) =~= matched_names(lowered@, cur));
        }
        i = i + 1;
    }
    assert(rule_file@.subrange(0, rule_file@.len() as int) =~= rule_file@);
    r
}

/// The names of the rules that tag a note with `contents`: a rule applies
/// when one of its keywords occurs in the lower-cased contents.
pub fn matching_rules(contents: &str, rule_file: &RuleFile) -> (r: Vec<String>)
    ensures
        r@.map_values(|s: String| s@) == rules_for(contents@, rule_file@),
{
    let lowered = lowercase(contents);
    matching_rules_lowered(lowered.as_str(), rule_file)
}

/// `i` is the position of the first rule named `name`.
pub open spec fn is_first_named(rules: Seq<RuleView>, name: Seq<char>, i: int) -> bool {
    &&& 0 <= i < rules.len()
    &&& rules[i].name == name
    &&& forall|j: int| 0 <= j < i ==> #[trigger] rules[j].name != name
}

/// `keywords` with `keyword` appended, when one is given.
pub open spec fn with_keyword(keywords: Seq<Seq<char>>, keyword: Option<Seq<char>>) -> Seq<Seq<char>> {
    match keyword {
        Some(k) => keywords.push(k),
        None => keywords,
    }
}

/// The rules after naming `name` with an optional new keyword: the first
/// rule of that name gets the keyword appended in place; with no such rule a
/// keyword rule of that name is appended, holding the keyword if one is given.
pub open spec fn upserted(rules: Seq<RuleView>, name: Seq<char>, keyword: Option<Seq<char>>) -> Seq<RuleView> {
    if exists|i: int| is_first_named(rules, name, i) {
        let i = choose|i: int| is_first_named(rules, name, i);
        rules.update(
            i,
            RuleView { name: rules[i].name, kind: rules[i].kind, keywords: with_keyword(rules[i].keywords, keyword) },
        )
    } else {
        rules.push(RuleView { name, kind: RuleKind::Keywords, keywords: with_keyword(Seq::empty(), keyword) })
    }
}

/// The text of an optional string.
pub open spec fn opt_text(s: Option<&str>) -> Option<Seq<char>> {
    match s {
        Some(t) => Some(t@),
        None => None,
    }
}

/// The lower-cased text of an optional string.
pub open spec fn opt_lower(s: Option<&str>) -> Option<Seq<char>> {
    match s {
        Some(t) => Some(lower_of(t@)),
        None => None,
    }
}

/// Creates or extends the rule `rule_name` with `keyword`, taken as it is,
/// then brings every note's rule names up to date.
pub fn create_rule_lowered(
    rule_file: &mut RuleFile,
    note_file: &mut NoteFile,
    rule_name: &str,
    keyword: Option<&str>,
)
    ensures
        final(rule_file)@ == upserted(old(rule_file)@, rule_name@, opt_text(keyword)),
        final(note_file)@ == reindexed(old(note_file)@, final(rule_file)@),
        notes_current(final(note_file)@, final(rule_file)@),
{
    let target = String::from_str(rule_name);
    let ghost start = rule_file@;
    let mut i: usize = 0;
    while i < rule_file.rules.len()
        invariant
            i <= start.len(),
            rule_file@ == start,
            target@ == rule_name@,
            forall|j: int| 0 <= j < i ==> #[trigger] start[j].name != rule_name@,
        ensures
            i <= start.len(),
            i < start.len() ==> start[i as int].name == rule_name@,
            forall|j: int| 0 <= j < i ==> #[trigger] start[j].name != rule_name@,
        decreases rule_file.rules.len() - i,
    {
        if rule_file.rules[i].name == target {
            break;
        }
        i = i + 1;
    }
    if i < rule_file.rules.len() {
        assert(is_first_named(start, rule_name@, i as int));
        assert forall|j: int| is_first_named(start, rule_name@, j) implies j == i by {
            if j < i {
            } else if j > i {
                assert(start[i as int].name != rule_name@);
            }
        }
        let ghost before = rule_file.rules@;
        match keyword {
            Some(k) => {
                rule_file.rules[i].keywords.push(String::from_str(k));
            },
            None => {},
        }
        proof {
            assert(rule_file.rules@ == before.update(i as int, rule_file.rules@[i as int]));
            assert(rule_file.rules@[i as int]@.keywords =~= with_keyword(start[i as int].keywords, opt_text(keyword)));
            assert(rule_file.rules@[i as int]@ == RuleView {
                name: start[i as int].name,
                kind: start[i as int].kind,
                keywords: with_keyword(start[i as int].keywords, opt_text(keyword)),
            });
            assert(rule_file@ =~= upserted(start, rule_name@, opt_text(keyword)));
        }
    } else {
        let mut keywords: Vec<String> = Vec::new();
        match keyword {
            Some(k) => {
                keywords.push(String::from_str(k));
            },
            None => {},
        }
        let ghost before = rule_file.rules@;
        rule_file.rules.push(Rule { name: target, kind: RuleKind::Keywords, keywords });
        proof {
            assert(rule_file.rules@ == before.push(rule_file.rules@.last()));
            assert(rule_file.rules@.last()@.keywords =~= with_keyword(Seq::empty(), opt_text(keyword)));
            assert(rule_file@ =~= upserted(start, rule_name@, opt_text(keyword)));
        }
    }
    index_notes(note_file, rule_file);
}

/// Creates the rule `rule_name`, or extends the first rule of that name, with
/// the lower-cased `keyword` if one is given, then brings every note's rule
/// names up to date.
pub fn create_rule(rule_file: &mut RuleFile, note_file: &mut NoteFile, rule_name: &str, keyword: Option<&str>)
    ensures
        final(rule_file)@ == upserted(old(rule_file)@, rule_name@, opt_lower(keyword)),
        final(note_file)@ == reindexed(old(note_file)@, final(rule_file)@),
        notes_current(final(note_file)@, final(rule_file)@),
{
    match keyword {
        Some(k) => {
            let lowered = lowercase(k);
            create_rule_lowered(rule_file, note_file, rule_name, Some(lowered.as_str()));
        },
        None => {
            create_rule_lowered(rule_file, note_file, rule_name, None);
        },
    }
}

} // verus!

//! Building the candidate list of an input.
//!
//! An [`Assembly`] starts from what the engine returned and passes through the
//! stages below in this order: expansion of embedded syntax, phrases, marks and
//! ranks, display order, folding of duplicates, retrieval scope, frequencies,
//! adjustments, completion, the English head. Between the stages the host supplies
//! what its dictionaries and stores say; each stage decides what that does to the
//! list.

use crate::candidate::{
    blank_candidate, clone_candidates, models, opt_view, Candidate, CandidateModel,
    CandidateSource, MatchRank,
};
use crate::coordinator::Coordinator;
use crate::ranking::{
    display_sorted, first_of_each_text, fold_duplicates, folded_duplicates, folded_models,
    sort_for_display, DisplayRule, Folded,
};
use crate::state::{FilterMode, State};
use crate::text::{char_count, has_char, joined, same};
use vstd::prelude::*;
use vstd::string::*;

verus! {

/// What an engine returned for an input.
#[derive(Debug)]
pub struct ConvertResult {
    pub candidates: Vec<Candidate>,
    /// Entries with a longer code, for an input that matches nothing.
    pub completion_hints: Vec<Candidate>,
    pub preedit_pinyin: String,
    pub preedit_fullpinyin: String,
    pub preedit_abbrev: String,
    pub preedit_codetable: String,
    pub shadow_code: String,
    /// The engine would commit `commit_text` by itself.
    pub should_commit: bool,
    pub commit_text: String,
    /// The engine would clear a full input that matches nothing.
    pub should_clear: bool,
}

/// What the embedded syntax of a dictionary entry stands for.
#[derive(Debug)]
pub enum DictExpansion {
    /// The entry holds no syntax.
    Plain,
    /// The syntax stands for nothing this time.
    Drop,
    /// One text, and the command behind it where there is one.
    Single { display: String, command_src: Option<String> },
    /// A named group of texts, each with its command where there is one.
    Group { name: String, items: Vec<GroupItem> },
}

/// A member of a group.
#[derive(Debug)]
pub struct GroupItem {
    pub display: String,
    pub command_src: Option<String>,
}

/// Whether a text may hold embedded syntax.
pub open spec fn has_markup(t: Seq<char>) -> bool {
    t.contains('$') || t.contains('{')
}

/// Whether a candidate is taken as it stands, without looking for syntax.
pub open spec fn is_settled(c: CandidateModel) -> bool {
    c.is_phrase || c.is_command
}

/// Whether some candidate of `s` has syntax to expand.
pub open spec fn any_markup(s: Seq<CandidateModel>) -> bool {
    exists|i: int| 0 <= i < s.len() && !is_settled(#[trigger] s[i]) && has_markup(s[i].text)
}

/// `c` showing `display`, running `command` when there is one.
pub open spec fn shown_as(
    c: CandidateModel,
    display: Seq<char>,
    command: Option<Seq<char>>,
) -> CandidateModel {
    match command {
        Some(src) => CandidateModel {
            text: display,
            phrase_template: src,
            is_command: true,
            ..c
        },
        None => CandidateModel { text: display, ..c },
    }
}

/// `c` as the closed form of the group `name`.
pub open spec fn closed_group(c: CandidateModel, name: Seq<char>) -> CandidateModel {
    CandidateModel {
        group_code: c.code,
        group_name: name,
        group_template: c.text,
        text: name,
        is_group: true,
        ..c
    }
}

/// What becomes of `c` under expansion `e`: a group opens when the code is complete
/// and stays closed while it is not.
pub open spec fn expanded(c: CandidateModel, e: DictExpansion, input: Seq<char>) -> Seq<
    CandidateModel,
> {
    if is_settled(c) {
        seq![c]
    } else {
        match e {
            DictExpansion::Plain => seq![c],
            DictExpansion::Drop => Seq::empty(),
            DictExpansion::Single { display, command_src } => seq![
                shown_as(c, display@, opt_view(command_src)),
            ],
            DictExpansion::Group { name, items } => if c.code.len() == 0 || c.code == input {
                items@.map_values(|it: GroupItem| shown_as(c, it.display@, opt_view(it.command_src)))
            } else {
                seq![closed_group(c, name@)]
            },
        }
    }
}

/// What becomes of a list, candidate by candidate.
pub open spec fn all_expanded(
    s: Seq<CandidateModel>,
    e: Seq<DictExpansion>,
    input: Seq<char>,
) -> Seq<CandidateModel>
    decreases s.len(),
{
    if s.len() == 0 || e.len() < s.len() {
        Seq::empty()
    } else {
        all_expanded(s.drop_last(), e.take(s.len() - 1), input) + expanded(
            s.last(),
            e[s.len() - 1],
            input,
        )
    }
}

/// Whether some candidate has embedded syntax to expand.
pub fn needs_expansion(raw: &Vec<Candidate>) -> (r: bool)
    ensures
        r == any_markup(models(raw@)),
{
    let ghost m = models(raw@);
    let mut i: usize = 0;
    while i < raw.len()
        invariant
            i <= raw@.len(),
            m == models(raw@),
            forall|k: int| 0 <= k < i ==> is_settled(#[trigger] m[k]) || !has_markup(m[k].text),
        decreases raw.len() - i,
    {
        let c = &raw[i];
        if !c.is_phrase && !c.is_command && (has_char(c.text.as_str(), '$') || has_char(
            c.text.as_str(),
            '{',
        )) {
            assert(!is_settled(m[i as int]) && has_markup(m[i as int].text));
            return true;
        }
        i = i + 1;
    }
    false
}

fn show_text(cand: Candidate, display: &str) -> (c: Candidate)
    ensures
        c@ == shown_as(cand@, display@, None),
{
    Candidate { text: display.to_owned(), ..cand }
}

fn show_command(cand: Candidate, display: &str, src: &str) -> (c: Candidate)
    ensures
        c@ == shown_as(cand@, display@, Some(src@)),
{
    Candidate {
        text: display.to_owned(),
        phrase_template: src.to_owned(),
        is_command: true,
        ..cand
    }
}

fn show_as(cand: &Candidate, display: &str, command: &Option<String>) -> (c: Candidate)
    ensures
        c@ == shown_as(cand@, display@, opt_view(*command)),
{
    match command {
        Some(src) => show_command(cand.clone(), display, src.as_str()),
        None => show_text(cand.clone(), display),
    }
}

fn close_group(cand: Candidate, name: &str) -> (c: Candidate)
    ensures
        c@ == closed_group(cand@, name@),
{
    Candidate {
        group_code: cand.code.clone(),
        group_name: name.to_owned(),
        group_template: cand.text.clone(),
        text: name.to_owned(),
        is_group: true,
        ..cand
    }
}

fn push_group(out: &mut Vec<Candidate>, cand: &Candidate, items: &Vec<GroupItem>)
    ensures
        models(final(out)@) == models(old(out)@) + items@.map_values(
            |it: GroupItem| shown_as(cand@, it.display@, opt_view(it.command_src)),
        ),
{
    let ghost before = models(out@);
    let ghost all = items@.map_values(
        |it: GroupItem| shown_as(cand@, it.display@, opt_view(it.command_src)),
    );
    let mut i: usize = 0;
    assert(models(out@) =~= before + all.take(0));
    while i < items.len()
        invariant
            i <= items@.len(),
            all == items@.map_values(
                |it: GroupItem| shown_as(cand@, it.display@, opt_view(it.command_src)),
            ),
            models(out@) == before + all.take(i as int),
        decreases items.len() - i,
    {
        let c = show_as(cand, items[i].display.as_str(), &items[i].command_src);
        let ghost prev = models(out@);
        out.push(c);
        assert(models(out@) =~= prev.push(c@));
        assert(models(out@) =~= before + all.take(i as int + 1));
        i = i + 1;
    }
    assert(all.take(all.len() as int) =~= all);
}

fn push_expanded(out: &mut Vec<Candidate>, cand: Candidate, e: &DictExpansion, input: &str)
    ensures
        models(final(out)@) == models(old(out)@) + expanded(cand@, *e, input@),
{
    let ghost before = models(out@);
    if cand.is_phrase || cand.is_command {
        out.push(cand);
        assert(models(out@) =~= before + seq![cand@]);
        return;
    }
    match e {
        DictExpansion::Plain => {
            out.push(cand);
            assert(models(out@) =~= before + seq![cand@]);
        },
        DictExpansion::Drop => {
            assert(models(out@) =~= before + Seq::empty());
        },
        DictExpansion::Single { display, command_src } => {
            let c = show_as(&cand, display.as_str(), command_src);
            out.push(c);
            assert(models(out@) =~= before + seq![c@]);
        },
        DictExpansion::Group { name, items } => {
            if cand.code.as_str().is_empty() || same(cand.code.as_str(), input) {
                push_group(out, &cand, items);
            } else {
                let g = close_group(cand, name.as_str());
                out.push(g);
                assert(models(out@) =~= before + seq![g@]);
            }
        },
    }
}

/// Expands the syntax embedded in dictionary entries: `expansions` holds, for each
/// candidate, what the entry stands for. A list without syntax is returned as it is.
pub fn finalize_candidates(raw: Vec<Candidate>, expansions: &Vec<DictExpansion>, input: &str) -> (r:
    Vec<Candidate>)
    requires
        expansions@.len() == raw@.len(),
    ensures
        models(r@) == (if any_markup(models(raw@)) {
            all_expanded(models(raw@), expansions@, input@)
        } else {
            models(raw@)
        }),
{
    if !needs_expansion(&raw) {
        return raw;
    }
    let ghost m = models(raw@);
    let mut out: Vec<Candidate> = Vec::new();
    let mut i: usize = 0;
    assert(models(out@) =~= Seq::empty());
    while i < raw.len()
        invariant
            i <= raw@.len(),
            m == models(raw@),
            expansions@.len() == raw@.len(),
            models(out@) == all_expanded(m.take(i as int), expansions@.take(i as int), input@),
        decreases raw.len() - i,
    {
        let c = raw[i].clone();
        push_expanded(&mut out, c, &expansions[i], input);
        proof {
            let n = i as int + 1;
            assert(m.take(n).drop_last() =~= m.take(i as int));
            assert(m.take(n).last() == m[i as int]);
            assert(expansions@.take(n).take(n - 1) =~= expansions@.take(i as int));
        }
        i = i + 1;
    }
    assert(m.take(m.len() as int) =~= m);
    assert(expansions@.take(m.len() as int) =~= expansions@);
    out
}

/// A phrase found for an input.
#[derive(Debug)]
pub struct PhraseHit {
    pub text: String,
    pub weight: i32,
    /// Command behind the phrase.
    pub command_src: Option<String>,
    /// Text of the record, before expansion.
    pub source_text: String,
    /// Full code, for a phrase found by prefix.
    pub nav_code: Option<String>,
    pub comment: String,
    pub is_system: bool,
}

/// The identity of a phrase that does not change with its wording: empty when the
/// record has no text.
pub open spec fn phrase_id(code: Seq<char>, raw: Seq<char>) -> Seq<char> {
    if raw.len() == 0 {
        Seq::empty()
    } else {
        "phrase:"@ + code + seq![':'] + raw
    }
}

/// The candidate of a phrase whose code is the input.
pub open spec fn exact_phrase(h: PhraseHit, input: Seq<char>) -> CandidateModel {
    CandidateModel {
        text: h.text@,
        weight: h.weight,
        is_phrase: true,
        is_command: h.command_src is Some,
        is_exact_code: true,
        phrase_template: match h.command_src {
            Some(src) => src@,
            None => h.source_text@,
        },
        id: phrase_id(input, h.source_text@),
        source: CandidateSource::Phrase,
        is_system_phrase: h.is_system,
        ..blank_candidate()
    }
}

/// The candidate of a phrase whose code starts with the input: a command runs at
/// once, a phrase with a code of its own opens as a group, and any other stands for
/// its text. All three are placed alike.
pub open spec fn prefix_phrase(h: PhraseHit, input: Seq<char>, is_prefix: bool) -> CandidateModel {
    let base = CandidateModel {
        text: h.text@,
        weight: h.weight,
        is_phrase: true,
        is_prefix,
        comment: h.comment@,
        source: CandidateSource::Phrase,
        is_system_phrase: h.is_system,
        ..blank_candidate()
    };
    let nav = match h.nav_code {
        Some(code) => code@,
        None => Seq::empty(),
    };
    match h.command_src {
        Some(src) => CandidateModel {
            is_command: true,
            phrase_template: src@,
            group_code: nav,
            id: phrase_id(nav, src@),
            ..base
        },
        None => match h.nav_code {
            Some(code) => CandidateModel {
                is_group: true,
                group_code: code@,
                group_name: h.text@,
                phrase_template: h.source_text@,
                id: phrase_id(code@, h.source_text@),
                ..base
            },
            None => CandidateModel {
                phrase_template: h.source_text@,
                id: phrase_id(input, h.source_text@),
                ..base
            },
        },
    }
}

/// All three forms of a phrase found by prefix share what decides their place.
pub proof fn prefix_phrases_are_placed_alike(
    h: PhraseHit,
    input: Seq<char>,
    is_prefix: bool,
)
    ensures
        ({
            let c = prefix_phrase(h, input, is_prefix);
            &&& !c.is_exact_code
            &&& c.is_prefix == is_prefix
            &&& c.weight == h.weight
            &&& c.is_phrase
            &&& c.source == CandidateSource::Phrase
        }),
{
}

fn exact_phrase_candidate(h: &PhraseHit, input: &str) -> (c: Candidate)
    ensures
        c@ == exact_phrase(*h, input@),
{
    let mut c = Candidate::default();
    c.text = h.text.clone();
    c.weight = h.weight;
    c.is_phrase = true;
    c.is_command = h.command_src.is_some();
    c.is_exact_code = true;
    c.phrase_template = match &h.command_src {
        Some(src) => src.clone(),
        None => h.source_text.clone(),
    };
    c.id = Coordinator::phrase_cand_id(input, h.source_text.as_str());
    c.source = CandidateSource::Phrase;
    c.is_system_phrase = h.is_system;
    c
}

fn prefix_phrase_candidate(h: &PhraseHit, input: &str, is_prefix: bool) -> (c: Candidate)
    ensures
        c@ == prefix_phrase(*h, input@, is_prefix),
{
    let mut c = Candidate::default();
    c.text = h.text.clone();
    c.weight = h.weight;
    c.is_phrase = true;
    c.is_prefix = is_prefix;
    c.comment = h.comment.clone();
    c.source = CandidateSource::Phrase;
    c.is_system_phrase = h.is_system;
    match &h.command_src {
        Some(src) => {
            let code: String = match &h.nav_code {
                Some(code) => code.clone(),
                None => String::new(),
            };
            c.is_command = true;
            c.phrase_template = src.clone();
            c.id = Coordinator::phrase_cand_id(code.as_str(), src.as_str());
            c.group_code = code;
        },
        None => match &h.nav_code {
            Some(code) => {
                c.is_group = true;
                c.group_code = code.clone();
                c.group_name = h.text.clone();
                c.phrase_template = h.source_text.clone();
                c.id = Coordinator::phrase_cand_id(code.as_str(), h.source_text.as_str());
            },
            None => {
                c.phrase_template = h.source_text.clone();
                c.id = Coordinator::phrase_cand_id(input, h.source_text.as_str());
            },
        },
    }
    c
}

/// What is done with phrases found by prefix.
#[derive(Clone, Copy, PartialEq, Eq, Structural, Debug)]
pub enum PrefixUse {
    /// They are not looked up.
    Skip,
    /// They join the list.
    Append,
    /// They wait in case nothing else is found.
    Pool,
}

/// Whether the characters of a candidate are common, and whether the user marked
/// one of them rare.
#[derive(Clone, Copy, Debug)]
pub struct CommonVerdict {
    pub is_common: bool,
    pub user_rare: bool,
}

/// A list split by the retrieval scope.
#[derive(Debug)]
pub struct FilterOutcome {
    pub kept: Vec<Candidate>,
    pub filtered: Vec<Candidate>,
}

/// `c` with the verdict noted; phrases are left alone.
pub open spec fn marked(c: CandidateModel, v: CommonVerdict) -> CandidateModel {
    if c.is_phrase {
        c
    } else {
        CandidateModel { is_common: v.is_common, user_rare: v.user_rare, ..c }
    }
}

/// `s` with the verdict on each candidate noted.
pub open spec fn all_marked(s: Seq<CandidateModel>, v: Seq<CommonVerdict>) -> Seq<CandidateModel> {
    Seq::new(s.len(), |i: int| marked(s[i], v[i]))
}

/// `s` with the rank of each candidate noted.
pub open spec fn all_ranked(s: Seq<CandidateModel>, v: Seq<MatchRank>) -> Seq<CandidateModel> {
    Seq::new(s.len(), |i: int| CandidateModel { rank: v[i], ..s[i] })
}

/// Notes which candidates are made of common characters; without a table nothing
/// is noted.
pub fn mark_common(list: &mut Vec<Candidate>, verdicts: &Option<Vec<CommonVerdict>>)
    requires
        verdicts matches Some(v) ==> v@.len() == old(list)@.len(),
    ensures
        models(final(list)@) == (match *verdicts {
            Some(v) => all_marked(models(old(list)@), v@),
            None => models(old(list)@),
        }),
{
    match verdicts {
        Some(v) => {
            let ghost s = models(list@);
            let mut i: usize = 0;
            while i < list.len()
                invariant
                    i <= list@.len(),
                    list@.len() == s.len(),
                    v@.len() == s.len(),
                    forall|k: int| 0 <= k < i ==> (#[trigger] list@[k])@ == marked(s[k], v@[k]),
                    forall|k: int| i <= k < s.len() ==> (#[trigger] list@[k])@ == s[k],
                decreases list.len() - i,
            {
                let mut c = list[i].clone();
                if !c.is_phrase {
                    c.is_common = v[i].is_common;
                    c.user_rare = v[i].user_rare;
                }
                list.set(i, c);
                i = i + 1;
            }
            assert(models(list@) =~= all_marked(s, v@));
        },
        None => {},
    }
}

/// Notes the comparison ranks of the candidates.
pub fn assign_ranks(list: &mut Vec<Candidate>, ranks: &Vec<MatchRank>)
    requires
        ranks@.len() == old(list)@.len(),
    ensures
        models(final(list)@) == all_ranked(models(old(list)@), ranks@),
{
    let ghost s = models(list@);
    let mut i: usize = 0;
    while i < list.len()
        invariant
            i <= list@.len(),
            list@.len() == s.len(),
            ranks@.len() == s.len(),
            forall|k: int|
                0 <= k < i ==> (#[trigger] list@[k])@ == (CandidateModel { rank: ranks@[k], ..s[k] }),
            forall|k: int| i <= k < s.len() ==> (#[trigger] list@[k])@ == s[k],
        decreases list.len() - i,
    {
        let mut c = list[i].clone();
        c.rank = ranks[i];
        list.set(i, c);
        i = i + 1;
    }
    assert(models(list@) =~= all_ranked(s, ranks@));
}

/// `s` with every candidate marked as outside the retrieval scope.
pub open spec fn out_of_scope(s: Seq<CandidateModel>) -> Seq<CandidateModel> {
    s.map_values(|c: CandidateModel| CandidateModel { is_scope_filtered: true, ..c })
}

/// Whether the retrieval scope splits the list at all: not in the widest scope and
/// not without a table of common characters.
pub fn filter_applies(state: &State, table_missing: bool) -> (r: bool)
    ensures
        r == (state.filter_mode != FilterMode::Gb18030 && !table_missing),
        table_missing ==> !r,
        state.filter_mode == FilterMode::Gb18030 ==> !r,
        (state.filter_mode == FilterMode::Smart || state.filter_mode == FilterMode::General)
            && !table_missing ==> r,
{
    state.filter_mode != FilterMode::Gb18030 && !table_missing
}

/// The list under the retrieval scope: what lies inside, and behind it, marked,
/// what lies outside while the scope is relaxed.
pub fn apply_filter(state: &State, outcome: FilterOutcome) -> (r: Vec<Candidate>)
    ensures
        models(r@) == (if state.scope_relaxed {
            models(outcome.kept@) + out_of_scope(models(outcome.filtered@))
        } else {
            models(outcome.kept@)
        }),
        models(outcome.kept@).is_prefix_of(models(r@)),
        !state.scope_relaxed ==> r@.len() == outcome.kept@.len(),
        state.scope_relaxed ==> r@.len() == outcome.kept@.len() + outcome.filtered@.len(),
        state.scope_relaxed ==> forall|i: int|
            outcome.kept@.len() <= i < r@.len() ==> (#[trigger] r@[i]).is_scope_filtered,
{
    let mut list = outcome.kept;
    if !state.scope_relaxed {
        return list;
    }
    let rest = outcome.filtered;
    let ghost kept = models(list@);
    let ghost tail = out_of_scope(models(rest@));
    let mut i: usize = 0;
    assert(models(list@) =~= kept + tail.take(0));
    while i < rest.len()
        invariant
            i <= rest@.len(),
            tail == out_of_scope(models(rest@)),
            models(list@) == kept + tail.take(i as int),
        decreases rest.len() - i,
    {
        let mut c = rest[i].clone();
        c.is_scope_filtered = true;
        let ghost prev = models(list@);
        list.push(c);
        assert(models(list@) =~= prev.push(c@));
        assert(models(list@) =~= kept + tail.take(i as int + 1));
        i = i + 1;
    }
    assert(tail.take(tail.len() as int) =~= tail);
    proof {
        assert forall|k: int| kept.len() <= k < list@.len() implies (
        #[trigger] list@[k]).is_scope_filtered by {
            assert(models(list@)[k] == tail[k - kept.len()]);
        }
    }
    list
}

/// How many candidates at the front of `s` lie inside the retrieval scope.
pub open spec fn in_scope_len(s: Seq<CandidateModel>) -> int
    decreases s.len(),
{
    if s.len() == 0 || s[0].is_scope_filtered {
        0
    } else {
        1 + in_scope_len(s.drop_first())
    }
}

/// How many candidates at the front of the list may be reordered by frequency:
/// those before the first one that only a relaxed scope let in.
pub fn rerank_len(list: &Vec<Candidate>) -> (n: usize)
    ensures
        n == in_scope_len(models(list@)),
        n <= list@.len(),
        forall|i: int| 0 <= i < n ==> !(#[trigger] list@[i]).is_scope_filtered,
        n < list@.len() ==> list@[n as int].is_scope_filtered,
{
    let ghost s = models(list@);
    let mut i: usize = 0;
    assert(s.skip(0) =~= s);
    while i < list.len() && !list[i].is_scope_filtered
        invariant
            i <= list@.len(),
            s == models(list@),
            in_scope_len(s) == i + in_scope_len(s.skip(i as int)),
            forall|k: int| 0 <= k < i ==> !(#[trigger] list@[k]).is_scope_filtered,
        decreases list.len() - i,
    {
        assert(s.skip(i as int)[0] == s[i as int]);
        assert(s.skip(i as int).drop_first() =~= s.skip(i as int + 1));
        i = i + 1;
    }
    proof {
        if i < s.len() {
            assert(s.skip(i as int)[0] == s[i as int]);
        }
    }
    i
}

/// A list that is being built.
#[derive(Debug)]
pub struct Assembly {
    /// The candidates so far.
    pub list: Vec<Candidate>,
    /// Phrases that step in when nothing else is found.
    pub pool: Vec<Candidate>,
    /// Engine entries that step in when nothing else is found.
    pub completion: Vec<Candidate>,
    /// How many candidates the engine returned.
    pub engine_count: usize,
    /// Text the engine would commit by itself.
    pub intent: Option<String>,
    /// The engine would clear the input.
    pub should_clear: bool,
    /// The user fixed the order of this input.
    pub user_pinned: bool,
}

/// `s` with the candidates of phrases found for exactly this input behind it.
pub open spec fn with_exact_phrases(
    s: Seq<CandidateModel>,
    hits: Seq<PhraseHit>,
    input: Seq<char>,
) -> Seq<CandidateModel> {
    s + hits.map_values(|h: PhraseHit| exact_phrase(h, input))
}

/// `s` with the candidates of phrases found by prefix behind it.
pub open spec fn with_prefix_phrases(
    s: Seq<CandidateModel>,
    hits: Seq<PhraseHit>,
    input: Seq<char>,
    is_prefix: bool,
) -> Seq<CandidateModel> {
    s + hits.map_values(|h: PhraseHit| prefix_phrase(h, input, is_prefix))
}

fn push_exact_phrases(list: &mut Vec<Candidate>, hits: &Vec<PhraseHit>, input: &str)
    ensures
        models(final(list)@) == with_exact_phrases(models(old(list)@), hits@, input@),
{
    let ghost before = models(list@);
    let ghost all = hits@.map_values(|h: PhraseHit| exact_phrase(h, input@));
    let mut i: usize = 0;
    assert(models(list@) =~= before + all.take(0));
    while i < hits.len()
        invariant
            i <= hits@.len(),
            all == hits@.map_values(|h: PhraseHit| exact_phrase(h, input@)),
            models(list@) == before + all.take(i as int),
        decreases hits.len() - i,
    {
        let c = exact_phrase_candidate(&hits[i], input);
        let ghost prev = models(list@);
        list.push(c);
        assert(models(list@) =~= prev.push(c@));
        assert(models(list@) =~= before + all.take(i as int + 1));
        i = i + 1;
    }
    assert(all.take(all.len() as int) =~= all);
}

fn push_prefix_phrases(
    list: &mut Vec<Candidate>,
    hits: &Vec<PhraseHit>,
    input: &str,
    is_prefix: bool,
)
    ensures
        models(final(list)@) == with_prefix_phrases(models(old(list)@), hits@, input@, is_prefix),
{
    let ghost before = models(list@);
    let ghost all = hits@.map_values(|h: PhraseHit| prefix_phrase(h, input@, is_prefix));
    let mut i: usize = 0;
    assert(models(list@) =~= before + all.take(0));
    while i < hits.len()
        invariant
            i <= hits@.len(),
            all == hits@.map_values(|h: PhraseHit| prefix_phrase(h, input@, is_prefix)),
            models(list@) == before + all.take(i as int),
        decreases hits.len() - i,
    {
        let c = prefix_phrase_candidate(&hits[i], input, is_prefix);
        let ghost prev = models(list@);
        list.push(c);
        assert(models(list@) =~= prev.push(c@));
        assert(models(list@) =~= before + all.take(i as int + 1));
        i = i + 1;
    }
    assert(all.take(all.len() as int) =~= all);
}

/// Whether `t` is the text of a candidate of `s`.
pub open spec fn shows_text(s: Seq<CandidateModel>, t: Seq<char>) -> bool {
    exists|i: int| 0 <= i < s.len() && (#[trigger] s[i]).text == t
}

fn list_shows(list: &Vec<Candidate>, t: &str) -> (r: bool)
    ensures
        r == shows_text(models(list@), t@),
{
    let ghost m = models(list@);
    let mut i: usize = 0;
    while i < list.len()
        invariant
            i <= list@.len(),
            m == models(list@),
            forall|k: int| 0 <= k < i ==> (#[trigger] m[k]).text != t@,
        decreases list.len() - i,
    {
        if same(list[i].text.as_str(), t) {
            assert(m[i as int].text == t@);
            return true;
        }
        i = i + 1;
    }
    false
}

/// `s` without the candidates whose text a candidate of `head` shows.
pub open spec fn without_texts_of(s: Seq<CandidateModel>, head: Seq<CandidateModel>) -> Seq<
    CandidateModel,
>
    decreases s.len(),
{
    if s.len() == 0 {
        s
    } else if shows_text(head, s.last().text) {
        without_texts_of(s.drop_last(), head)
    } else {
        without_texts_of(s.drop_last(), head).push(s.last())
    }
}

/// Puts `head` in front of the list and takes out what it already shows, letter for
/// letter.
pub fn put_head_first(list: &mut Vec<Candidate>, head: Vec<Candidate>)
    ensures
        models(final(list)@) == (if head@.len() == 0 {
            models(old(list)@)
        } else {
            models(head@) + without_texts_of(models(old(list)@), models(head@))
        }),
        models(head@).is_prefix_of(models(final(list)@)),
        head@.len() == 0 ==> models(final(list)@) == models(old(list)@),
{
    if head.len() == 0 {
        return;
    }
    let ghost s = models(list@);
    let ghost h = models(head@);
    let mut out = clone_candidates(&head);
    let mut i: usize = 0;
    assert(models(out@) =~= h + without_texts_of(s.take(0), h));
    while i < list.len()
        invariant
            i <= list@.len(),
            s == models(list@),
            h == models(head@),
            models(out@) == h + without_texts_of(s.take(i as int), h),
        decreases list.len() - i,
    {
        proof {
            assert(s.take(i as int + 1).drop_last() =~= s.take(i as int));
            assert(s.take(i as int + 1).last() == s[i as int]);
        }
        if !list_shows(&head, list[i].text.as_str()) {
            let c = list[i].clone();
            let ghost prev = models(out@);
            out.push(c);
            assert(models(out@) =~= prev.push(c@));
            assert(models(out@) =~= h + without_texts_of(s.take(i as int + 1), h));
        }
        i = i + 1;
    }
    assert(s.take(s.len() as int) =~= s);
    *list = out;
}

impl Assembly {
    /// Starts from an engine result whose syntax has been expanded: `list` and
    /// `completion` are its candidates and its completion hints.
    pub fn begin(
        list: Vec<Candidate>,
        completion: Vec<Candidate>,
        engine_count: usize,
        should_commit: bool,
        commit_text: &str,
        should_clear: bool,
    ) -> (a: Assembly)
        ensures
            a.list == list,
            a.completion == completion,
            a.pool@.len() == 0,
            a.engine_count == engine_count,
            opt_view(a.intent) == (if should_commit && commit_text@.len() > 0 {
                Some(commit_text@)
            } else {
                None
            }),
            a.intent is Some ==> should_commit && a.intent->0@.len() > 0,
            a.should_clear == should_clear,
            !a.user_pinned,
            should_commit && commit_text@.len() > 0 ==> (a.intent matches Some(t) && t@ == commit_text@),
    {
        let intent = if should_commit && !commit_text.is_empty() {
            Some(commit_text.to_owned())
        } else {
            None
        };
        Assembly {
            list,
            pool: Vec::new(),
            completion,
            engine_count,
            intent,
            should_clear,
            user_pinned: false,
        }
    }

    /// Adds the phrases whose code is the input.
    pub fn add_exact_phrases(&mut self, hits: &Vec<PhraseHit>, input: &str)
        ensures
            models(final(self).list@) == with_exact_phrases(models(old(self).list@), hits@, input@),
            *final(self) == (Assembly { list: final(self).list, ..*old(self) }),
    {
        push_exact_phrases(&mut self.list, hits, input);
    }

    /// Adds the phrases whose code starts with the input, where `to` says.
    pub fn add_prefix_phrases(
        &mut self,
        hits: &Vec<PhraseHit>,
        input: &str,
        is_prefix: bool,
        to: PrefixUse,
    )
        ensures
            *final(self) == (Assembly {
                list: final(self).list,
                pool: final(self).pool,
                ..*old(self)
            }),
            models(final(self).list@) == (if to == PrefixUse::Append {
                with_prefix_phrases(models(old(self).list@), hits@, input@, is_prefix)
            } else {
                models(old(self).list@)
            }),
            models(final(self).pool@) == (if to == PrefixUse::Pool {
                with_prefix_phrases(models(old(self).pool@), hits@, input@, is_prefix)
            } else {
                models(old(self).pool@)
            }),
            to == PrefixUse::Skip ==> models(final(self).list@) == models(old(self).list@) && models(
                final(self).pool@,
            ) == models(old(self).pool@),
            to == PrefixUse::Append ==> models(final(self).list@).len() == models(
                old(self).list@,
            ).len() + hits@.len(),
            to == PrefixUse::Pool ==> models(final(self).pool@).len() == models(
                old(self).pool@,
            ).len() + hits@.len(),
    {
        match to {
            PrefixUse::Skip => {},
            PrefixUse::Append => {
                push_prefix_phrases(&mut self.list, hits, input, is_prefix);
            },
            PrefixUse::Pool => {
                push_prefix_phrases(&mut self.pool, hits, input, is_prefix);
            },
        }
    }

    /// Puts the list into display order and keeps the first candidate of each text;
    /// the others come back with the place of the one that takes over their codes.
    pub fn order_and_fold(&mut self, rule: DisplayRule) -> (dropped: Vec<Folded>)
        ensures
            *final(self) == (Assembly { list: final(self).list, ..*old(self) }),
            models(final(self).list@) == first_of_each_text(
                display_sorted(models(old(self).list@), rule),
            ),
            folded_models(dropped@) == folded_duplicates(
                display_sorted(models(old(self).list@), rule),
            ),
    {
        let mut list: Vec<Candidate> = Vec::new();
        std::mem::swap(&mut list, &mut self.list);
        sort_for_display(&mut list, rule);
        let (kept, dropped) = fold_duplicates(list);
        self.list = kept;
        dropped
    }

    /// Takes over the order that frequencies give the front of the list; what only a
    /// relaxed scope let in stays behind, in its order.
    pub fn adopt_rerank(&mut self, front: Vec<Candidate>)
        ensures
            *final(self) == (Assembly { list: final(self).list, ..*old(self) }),
            models(final(self).list@) == models(front@) + models(old(self).list@).skip(
                in_scope_len(models(old(self).list@)),
            ),
    {
        let n = rerank_len(&self.list);
        let ghost s = models(self.list@);
        let ghost f = models(front@);
        let mut out = front;
        let mut i: usize = n;
        assert(models(out@) =~= f + s.subrange(n as int, n as int));
        while i < self.list.len()
            invariant
                n <= i <= self.list@.len(),
                s == models(self.list@),
                models(out@) == f + s.subrange(n as int, i as int),
            decreases self.list.len() - i,
        {
            let c = self.list[i].clone();
            let ghost prev = models(out@);
            out.push(c);
            assert(models(out@) =~= prev.push(c@));
            assert(models(out@) =~= f + s.subrange(n as int, i as int + 1));
            i = i + 1;
        }
        assert(s.subrange(n as int, s.len() as int) =~= s.skip(n as int));
        self.list = out;
    }

    /// Takes over the list the user's adjustments leave, and whether one of them
    /// fixed a place.
    pub fn adopt_adjusted(&mut self, list: Vec<Candidate>, pinned: bool)
        ensures
            *final(self) == (Assembly {
                list,
                user_pinned: old(self).user_pinned || pinned,
                ..*old(self)
            }),
            pinned ==> final(self).user_pinned,
            old(self).user_pinned ==> final(self).user_pinned,
            !pinned && !old(self).user_pinned ==> !final(self).user_pinned,
    {
        self.list = list;
        self.user_pinned = self.user_pinned || pinned;
    }

    /// Whether the list is still empty and something could step in.
    pub fn wants_completion(&self) -> (r: bool)
        ensures
            r == (self.list@.len() == 0 && self.pool@.len() + self.completion@.len() > 0),
            self.list@.len() > 0 ==> !r,
            self.list@.len() == 0 && (self.pool@.len() > 0 || self.completion@.len() > 0) ==> r,
    {
        self.list.len() == 0 && (self.pool.len() > 0 || self.completion.len() > 0)
    }

    /// Everything that could step in: the phrases, then the engine's hints.
    pub fn take_pool(&mut self) -> (r: Vec<Candidate>)
        ensures
            models(r@) == models(old(self).pool@) + models(old(self).completion@),
            final(self).pool@.len() == 0,
            final(self).completion@.len() == 0,
            *final(self) == (Assembly {
                pool: final(self).pool,
                completion: final(self).completion,
                ..*old(self)
            }),
    {
        let mut pool: Vec<Candidate> = Vec::new();
        let mut more: Vec<Candidate> = Vec::new();
        std::mem::swap(&mut pool, &mut self.pool);
        std::mem::swap(&mut more, &mut self.completion);
        let ghost a = pool@;
        let ghost b = more@;
        pool.append(&mut more);
        assert(models(pool@) =~= models(a) + models(b));
        pool
    }

    /// Hands the finished list to the state and says how many candidates the engine
    /// returned.
    pub fn install(&mut self, state: &mut State) -> (engine_count: usize)
        ensures
            engine_count == old(self).engine_count,
            *final(state) == (State { candidates: old(self).list, ..*old(state) }),
            final(self).list@.len() == 0,
            *final(self) == (Assembly { list: final(self).list, ..*old(self) }),
    {
        let mut list: Vec<Candidate> = Vec::new();
        std::mem::swap(&mut list, &mut self.list);
        state.candidates = list;
        self.engine_count
    }

    /// Lets the one candidate of `pool` that would be shown first step in for an
    /// empty list; the text settles what the display order leaves open.
    pub fn complete(&mut self, pool: Vec<Candidate>, rule: DisplayRule)
        ensures
            *final(self) == (Assembly { list: final(self).list, ..*old(self) }),
            models(final(self).list@) == (if old(self).list@.len() > 0 || pool@.len() == 0 {
                models(old(self).list@)
            } else {
                seq![display_sorted(models(pool@), (DisplayRule { by_text: true, ..rule }))[0]]
            }),
            old(self).list@.len() > 0 ==> models(final(self).list@) == models(old(self).list@),
            old(self).list@.len() == 0 && pool@.len() > 0 ==> final(self).list@.len() == 1,
    {
        if self.list.len() > 0 || pool.len() == 0 {
            return;
        }
        let rule = DisplayRule { by_text: true, ..rule };
        let mut pool = pool;
        proof {
            crate::ranking::sorting_orders_and_keeps(models(pool@), rule);
        }
        sort_for_display(&mut pool, rule);
        assert(models(pool@).len() == pool@.len());
        let c = pool[0].clone();
        self.list.push(c);
        assert(models(self.list@) =~= seq![models(pool@)[0]]);
    }
}

/// What an input comes to besides its candidates.
#[derive(Debug)]
pub enum InputOutcome {
    /// The composition goes on.
    Normal,
    /// The text is committed.
    AutoCommit(String),
    /// The command of the candidate runs.
    AutoCommand(Candidate),
    /// The input is cleared.
    Clear,
}

/// What an [`InputOutcome`] says.
pub ghost enum OutcomeModel {
    Normal,
    AutoCommit(Seq<char>),
    AutoCommand(CandidateModel),
    Clear,
}

impl View for InputOutcome {
    type V = OutcomeModel;

    open spec fn view(&self) -> OutcomeModel {
        match *self {
            InputOutcome::Normal => OutcomeModel::Normal,
            InputOutcome::AutoCommit(t) => OutcomeModel::AutoCommit(t@),
            InputOutcome::AutoCommand(c) => OutcomeModel::AutoCommand(c@),
            InputOutcome::Clear => OutcomeModel::Clear,
        }
    }
}

/// What the host knows when an input is judged.
#[derive(Debug)]
pub struct OutcomeFacts {
    /// Text the engine would commit, judged by what it returned or by what is shown.
    pub intent: Option<String>,
    /// The engine would clear the input.
    pub should_clear: bool,
    /// A phrase has this code or a longer one.
    pub phrase_owns_code: bool,
    /// Text of the first candidate's command; nothing when it has side effects.
    pub first_command_text: Option<String>,
    /// The code table holds a longer code.
    pub longer_code: bool,
    /// A phrase has a longer code.
    pub longer_phrase: bool,
}

/// The outcome of a command that may commit by itself: its text when it is nothing
/// but text, nothing when that text is empty, and otherwise the command.
pub open spec fn command_outcome(c: CandidateModel, text: Option<Seq<char>>) -> OutcomeModel {
    match text {
        Some(t) => if t.len() > 0 {
            OutcomeModel::AutoCommit(t)
        } else {
            OutcomeModel::Normal
        },
        None => OutcomeModel::AutoCommand(c),
    }
}

/// Whether `t` is still on offer: shown as it is, or the source of a command shown
/// under its label.
pub open spec fn still_offered(s: Seq<CandidateModel>, t: Seq<char>) -> bool {
    exists|i: int|
        0 <= i < s.len() && ((#[trigger] s[i]).text == t || (s[i].is_command && s[i].phrase_template
            == t))
}

#[verifier::spinoff_prover]
#[verifier::rlimit(60)]
fn offers(list: &Vec<Candidate>, t: &str) -> (r: bool)
    ensures
        r == still_offered(models(list@), t@),
{
    let ghost m = models(list@);
    let mut i: usize = 0;
    while i < list.len()
        invariant
            i <= list@.len(),
            m == models(list@),
            forall|k: int|
                0 <= k < i ==> (#[trigger] m[k]).text != t@ && !(m[k].is_command
                    && m[k].phrase_template == t@),
        decreases list.len() - i,
    {
        let c = &list[i];
        let shown = same(c.text.as_str(), t);
        let run = c.is_command && same(c.phrase_template.as_str(), t);
        assert(m[i as int].text == c.text@);
        assert(m[i as int].is_command == c.is_command);
        assert(m[i as int].phrase_template == c.phrase_template@);
        if shown || run {
            return true;
        }
        i = i + 1;
    }
    false
}

impl Coordinator {
    /// The identity of a phrase that does not change with its wording.
    pub fn phrase_cand_id(code: &str, raw: &str) -> (r: String)
        ensures
            r@ == phrase_id(code@, raw@),
    {
        if raw.is_empty() {
            return String::new();
        }
        let mut s = joined("phrase:", code);
        s.push(':');
        s.append(raw);
        assert(s@ =~= "phrase:"@ + code@ + seq![':'] + raw@);
        s
    }

    /// What is done with phrases found by prefix: in exact-match input they are left
    /// out, unless completion is on, nothing was found and the code is not full.
    pub open spec fn prefix_use_of(self, nothing_found: bool, input: Seq<char>) -> PrefixUse {
        let ct = self.engine.codetable;
        if !(self.engine.is_codetable && ct.single_code_input) {
            PrefixUse::Append
        } else if ct.single_code_complete && nothing_found && input.len()
            < self.engine.max_code_length {
            PrefixUse::Pool
        } else {
            PrefixUse::Skip
        }
    }

    /// Which candidates made of the input itself lead the list: the input as typed,
    /// and the input in other cases. Only English offers them.
    pub fn english_head_wanted(&self) -> (r: (bool, bool))
        ensures
            r == (
                self.engine.is_english && self.settings.english_raw_candidate,
                self.engine.is_english && self.settings.english_case_variants,
            ),
            !self.engine.is_english ==> r == (false, false),
            self.engine.is_english ==> r == (
                self.settings.english_raw_candidate,
                self.settings.english_case_variants,
            ),
    {
        (
            self.engine.is_english && self.settings.english_raw_candidate,
            self.engine.is_english && self.settings.english_case_variants,
        )
    }

    /// What is done with phrases found by prefix.
    pub fn prefix_use(&self, nothing_found: bool, input: &str) -> (r: PrefixUse)
        ensures
            r == self.prefix_use_of(nothing_found, input@),
    {
        let ct = &self.engine.codetable;
        if !(self.engine.is_codetable && ct.single_code_input) {
            PrefixUse::Append
        } else if ct.single_code_complete && nothing_found && char_count(input)
            < self.engine.max_code_length {
            PrefixUse::Pool
        } else {
            PrefixUse::Skip
        }
    }

    /// The schema that converts the rest of an input whose last chosen segment is
    /// pinyin: the secondary schema of the mixed schema, where it names one.
    pub fn forced_schema(state: &State, secondary: &Option<String>) -> (r: Option<String>)
        ensures
            opt_view(r) == (if state.committed_segs@.len() > 0
                && state.committed_segs@.last().source == CandidateSource::Pinyin
                && secondary is Some && secondary->0@.len() > 0 {
                Some(secondary->0@)
            } else {
                None
            }),
            r matches Some(t) ==> t@.len() > 0 && opt_view(*secondary) == Some(t@),
            r is Some ==> state.committed_segs@.len() > 0 && state.committed_segs@.last().source
                == CandidateSource::Pinyin,
            state.committed_segs@.len() > 0 && state.committed_segs@.last().source == CandidateSource::Pinyin
                ==> (secondary matches Some(t) ==> (t@.len() > 0 ==> r is Some)),
    {
        let n = state.committed_segs.len();
        if n == 0 || state.committed_segs[n - 1].source != CandidateSource::Pinyin {
            return None;
        }
        match secondary {
            Some(s) => if s.as_str().is_empty() {
                None
            } else {
                Some(s.clone())
            },
            None => None,
        }
    }

    /// Takes over the forms of the input that a conversion reports.
    pub fn adopt_conversion(state: &mut State, result: &ConvertResult)
        ensures
            final(state).preedit_split_body@ == result.preedit_pinyin@,
            final(state).preedit_fp_body@ == result.preedit_fullpinyin@,
            final(state).preedit_abbrev_body@ == result.preedit_abbrev@,
            final(state).preedit_codetable_body@ == result.preedit_codetable@,
            final(state).shadow_code@ == result.shadow_code@,
            *final(state) == (State {
                preedit_split_body: final(state).preedit_split_body,
                preedit_fp_body: final(state).preedit_fp_body,
                preedit_abbrev_body: final(state).preedit_abbrev_body,
                preedit_codetable_body: final(state).preedit_codetable_body,
                shadow_code: final(state).shadow_code,
                ..*old(state)
            }),
    {
        state.preedit_split_body = result.preedit_pinyin.clone();
        state.preedit_fp_body = result.preedit_fullpinyin.clone();
        state.preedit_abbrev_body = result.preedit_abbrev.clone();
        state.preedit_codetable_body = result.preedit_codetable.clone();
        state.shadow_code = result.shadow_code.clone();
    }

    /// The outcome of a command that may commit by itself.
    pub fn command_auto_outcome(c: &Candidate, text: &Option<String>) -> (r: InputOutcome)
        ensures
            r@ == command_outcome(c@, opt_view(*text)),
    {
        match text {
            Some(t) => if t.as_str().is_empty() {
                InputOutcome::Normal
            } else {
                InputOutcome::AutoCommit(t.clone())
            },
            None => InputOutcome::AutoCommand(c.clone()),
        }
    }

    /// Shortest input at which a phrase may commit by itself.
    pub open spec fn phrase_min_len(self) -> usize {
        if self.engine.codetable.auto_commit_min_len > 0 {
            self.engine.codetable.auto_commit_min_len
        } else {
            self.engine.max_code_length
        }
    }

    /// Shortest input at which a phrase may commit by itself: as for code tables.
    pub fn phrase_auto_commit_min_len(&self) -> (r: usize)
        ensures
            r == self.phrase_min_len(),
    {
        crate::ranking::resolve_auto_commit_min_len(
            self.engine.codetable.auto_commit_min_len,
            self.engine.max_code_length,
        )
    }

    /// Whether a phrase commits by itself: committing at full length is on, the input
    /// is long enough, the phrase is the only candidate and its code is the input,
    /// and neither side knows a longer code.
    pub open spec fn phrase_commits(
        self,
        input: Seq<char>,
        s: Seq<CandidateModel>,
        longer_code: bool,
        longer_phrase: bool,
    ) -> bool {
        &&& self.engine.codetable.auto_commit_at_full
        &&& input.len() >= self.phrase_min_len()
        &&& s.len() == 1
        &&& s[0].is_phrase && !s[0].is_prefix && !s[0].is_group
        &&& !longer_code && !longer_phrase
    }

    /// What a phrase that commits by itself comes to, if one does.
    pub open spec fn phrase_outcome(
        self,
        input: Seq<char>,
        s: Seq<CandidateModel>,
        facts: OutcomeFacts,
    ) -> Option<OutcomeModel> {
        if !self.phrase_commits(input, s, facts.longer_code, facts.longer_phrase) {
            None
        } else if s[0].is_command {
            Some(command_outcome(s[0], opt_view(facts.first_command_text)))
        } else if s[0].text.len() == 0 {
            None
        } else {
            Some(OutcomeModel::AutoCommit(s[0].text))
        }
    }

    /// What a phrase that commits by itself comes to; nothing when none does.
    pub fn phrase_auto_commit(&self, state: &State, facts: &OutcomeFacts) -> (r: Option<
        InputOutcome,
    >)
        ensures
            (match r {
                Some(o) => Some(o@),
                None => None,
            }) == self.phrase_outcome(state.input_buffer@, models(state.candidates@), *facts),
    {
        let ghost m = models(state.candidates@);
        if !self.engine.codetable.auto_commit_at_full {
            return None;
        }
        if char_count(state.input_buffer.as_str()) < self.phrase_auto_commit_min_len() {
            return None;
        }
        if state.candidates.len() != 1 {
            return None;
        }
        let c = &state.candidates[0];
        assert(m[0] == c@);
        if !c.is_phrase || c.is_prefix || c.is_group {
            return None;
        }
        if facts.longer_code || facts.longer_phrase {
            return None;
        }
        if c.is_command {
            return Some(Self::command_auto_outcome(c, &facts.first_command_text));
        }
        if c.text.as_str().is_empty() {
            return None;
        }
        Some(InputOutcome::AutoCommit(c.text.clone()))
    }

    /// What an input comes to, given the list that is shown for it.
    ///
    /// A text the engine would commit counts only while it is still on offer and no
    /// phrase claims the code; then the candidate shown first is committed, provided
    /// it comes from the code table. Otherwise an input the engine would clear is
    /// cleared unless a candidate explains all of it, and where nothing else happens
    /// a phrase may commit.
    pub open spec fn outcome_of(
        self,
        input: Seq<char>,
        s: Seq<CandidateModel>,
        facts: OutcomeFacts,
    ) -> OutcomeModel {
        let engine = if facts.intent is Some && still_offered(s, facts.intent->0@)
            && !facts.phrase_owns_code {
            if s[0].source != CandidateSource::CodeTable {
                OutcomeModel::Normal
            } else if s[0].is_command {
                command_outcome(s[0], opt_view(facts.first_command_text))
            } else {
                OutcomeModel::AutoCommit(s[0].text)
            }
        } else if facts.should_clear && !blocks_clearing(s, input.len() as int) {
            OutcomeModel::Clear
        } else {
            OutcomeModel::Normal
        };
        if engine is Normal {
            match self.phrase_outcome(input, s, facts) {
                Some(o) => o,
                None => OutcomeModel::Normal,
            }
        } else {
            engine
        }
    }

    /// What an input comes to, given the list that is shown for it.
    pub fn input_outcome(&self, state: &State, facts: &OutcomeFacts) -> (r: InputOutcome)
        ensures
            r@ == self.outcome_of(state.input_buffer@, models(state.candidates@), *facts),
    {
        let ghost m = models(state.candidates@);
        let offered = match &facts.intent {
            Some(t) => offers(&state.candidates, t.as_str()),
            None => false,
        };
        let first = if offered && !facts.phrase_owns_code {
            let c = &state.candidates[0];
            assert(m[0] == c@);
            if c.source != CandidateSource::CodeTable {
                InputOutcome::Normal
            } else if c.is_command {
                Self::command_auto_outcome(c, &facts.first_command_text)
            } else {
                InputOutcome::AutoCommit(c.text.clone())
            }
        } else if facts.should_clear && !blocked(&state.candidates, char_count(
            state.input_buffer.as_str(),
        )) {
            InputOutcome::Clear
        } else {
            InputOutcome::Normal
        };
        match first {
            InputOutcome::Normal => match self.phrase_auto_commit(state, facts) {
                Some(o) => o,
                None => InputOutcome::Normal,
            },
            other => other,
        }
    }
}

/// Whether some candidate keeps a fruitless input from being cleared.
pub open spec fn blocks_clearing(s: Seq<CandidateModel>, input_len: int) -> bool {
    exists|i: int|
        0 <= i < s.len() && ((#[trigger] s[i]).source != CandidateSource::Pinyin
            || crate::ranking::consumed_of(s[i], input_len) >= input_len)
}

fn blocked(list: &Vec<Candidate>, input_len: usize) -> (r: bool)
    ensures
        r == blocks_clearing(models(list@), input_len as int),
{
    let r = crate::ranking::clear_blocked_by_candidates(list, input_len);
    proof {
        let m = models(list@);
        if r {
            let i = choose|i: int|
                0 <= i < list.len() && {
                    let c = (#[trigger] list[i])@;
                    c.source != CandidateSource::Pinyin || crate::ranking::consumed_of(
                        c,
                        input_len as int,
                    ) >= input_len
                };
            assert(m[i] == list[i]@);
        } else if blocks_clearing(m, input_len as int) {
            let i = choose|i: int|
                0 <= i < m.len() && ((#[trigger] m[i]).source != CandidateSource::Pinyin
                    || crate::ranking::consumed_of(m[i], input_len as int) >= input_len);
            assert(m[i] == list[i]@);
        }
    }
    r
}

/// A phrase that claims the code keeps the engine from committing for the user:
/// whatever the engine intends, only a phrase may then commit.
pub proof fn phrases_veto_engine_commits(
    c: Coordinator,
    input: Seq<char>,
    s: Seq<CandidateModel>,
    facts: OutcomeFacts,
)
    requires
        facts.phrase_owns_code,
        c.outcome_of(input, s, facts) is AutoCommit,
    ensures
        c.phrase_outcome(input, s, facts) == Some(c.outcome_of(input, s, facts)),
{
}

/// The engine never commits a text that is not what the first candidate shows or
/// says: an automatic commit of a plain candidate is the text shown first.
pub proof fn auto_commit_matches_what_is_shown(
    c: Coordinator,
    input: Seq<char>,
    s: Seq<CandidateModel>,
    facts: OutcomeFacts,
)
    requires
        s.len() > 0,
        !s[0].is_command,
        c.outcome_of(input, s, facts) is AutoCommit,
    ensures
        c.outcome_of(input, s, facts) == OutcomeModel::AutoCommit(s[0].text),
{
}

/// A text may hold syntax where a dollar sign or an opening brace occurs in it.
pub proof fn syntax_starts_with_a_sign(t: Seq<char>, i: int)
    ensures
        0 <= i < t.len() && (t[i] == '$' || t[i] == '{') ==> has_markup(t),
        (forall|k: int| 0 <= k < t.len() ==> #[trigger] t[k] != '$' && t[k] != '{') ==> !has_markup(t),
{
}

/// Phrases and commands stand as they are, whatever their text looks like.
pub proof fn settled_candidates_stand_as_they_are(
    c: CandidateModel,
    e: DictExpansion,
    input: Seq<char>,
)
    ensures
        c.is_phrase || c.is_command ==> expanded(c, e, input) == seq![c],
        e is Plain ==> expanded(c, e, input) == seq![c],
        !c.is_phrase && !c.is_command && e is Drop ==> expanded(c, e, input).len() == 0,
{
}

/// Syntax that stands for one text gives one candidate that shows it; with a command behind
/// it the candidate runs that command.
pub proof fn single_texts_take_the_place_of_syntax(
    c: CandidateModel,
    display: String,
    command_src: Option<String>,
    input: Seq<char>,
)
    requires
        !c.is_phrase,
        !c.is_command,
    ensures
        ({
            let r = expanded(c, DictExpansion::Single { display, command_src }, input);
            &&& r.len() == 1
            &&& r[0].text == display@
            &&& r[0].code == c.code && r[0].weight == c.weight && r[0].source == c.source
            &&& r[0].is_command == (command_src is Some)
            &&& command_src matches Some(src) ==> r[0].phrase_template == src@
            &&& command_src is None ==> r[0].phrase_template == c.phrase_template
        }),
{
}

/// A group opens where the code is complete: each member is a candidate, in order. Where it is
/// not, one candidate shows the name and leads to the code.
pub proof fn groups_open_on_their_code(
    c: CandidateModel,
    name: String,
    items: Vec<GroupItem>,
    input: Seq<char>,
)
    requires
        !c.is_phrase,
        !c.is_command,
    ensures
        ({
            let r = expanded(c, DictExpansion::Group { name, items }, input);
            &&& c.code.len() == 0 || c.code == input ==> {
                &&& r.len() == items@.len()
                &&& forall|i: int|
                    0 <= i < r.len() ==> (#[trigger] r[i]).text == items@[i].display@
                        && r[i].is_command == (items@[i].command_src is Some)
                        && r[i].is_group == c.is_group
            }
            &&& c.code.len() > 0 && c.code != input ==> {
                &&& r.len() == 1
                &&& r[0].is_group && r[0].text == name@ && r[0].group_name == name@
                &&& r[0].group_code == c.code
                &&& r[0].group_template == c.text
                &&& !r[0].is_command
            }
        }),
{
}

/// A list is expanded candidate by candidate, each in its place.
pub proof fn lists_are_expanded_in_place(
    s: Seq<CandidateModel>,
    e: Seq<DictExpansion>,
    c: CandidateModel,
    x: DictExpansion,
    input: Seq<char>,
)
    requires
        e.len() == s.len(),
    ensures
        all_expanded(s, e, input).is_prefix_of(all_expanded(s.push(c), e.push(x), input)),
        all_expanded(s.push(c), e.push(x), input).skip(all_expanded(s, e, input).len() as int)
            == expanded(c, x, input),
        all_expanded(Seq::empty(), Seq::empty(), input).len() == 0,
{
    let t = s.push(c);
    let f = e.push(x);
    assert(t.drop_last() =~= s);
    assert(f.take(s.len() as int) =~= e);
    let before = all_expanded(s, e, input);
    assert(all_expanded(t, f, input) =~= before + expanded(c, x, input));
    assert((before + expanded(c, x, input)).skip(before.len() as int) =~= expanded(c, x, input));
}

/// A phrase is known by its code and the text of its record, so a change of either is another
/// phrase; a record without a text is not known at all.
pub proof fn phrases_are_known_by_code_and_record(
    code: Seq<char>,
    raw: Seq<char>,
    other: Seq<char>,
)
    ensures
        raw.len() == 0 ==> phrase_id(code, raw).len() == 0,
        raw.len() > 0 ==> phrase_id(code, raw).len() > 0 && "phrase:"@.is_prefix_of(
            phrase_id(code, raw),
        ),
        raw.len() > 0 ==> phrase_id(code, raw).len() == 8 + code.len() + raw.len(),
        raw.len() > 0 ==> phrase_id(code, raw).subrange(7, 7 + code.len() as int) == code,
        raw.len() > 0 ==> phrase_id(code, raw).skip(8 + code.len() as int) == raw,
        raw != other ==> phrase_id(code, raw) != phrase_id(code, other),
{
    reveal_strlit("phrase:");
    let p = "phrase:"@;
    assert(p.len() == 7);
    if raw.len() > 0 {
        let id = phrase_id(code, raw);
        assert(id == p + code + seq![':'] + raw);
        assert(id.subrange(7, 7 + code.len() as int) =~= code);
        assert(id.skip(8 + code.len() as int) =~= raw);
    }
    if raw != other && phrase_id(code, raw) == phrase_id(code, other) {
        if raw.len() > 0 && other.len() > 0 {
            assert(phrase_id(code, other).skip(8 + code.len() as int) =~= other);
        } else if raw.len() == 0 && other.len() == 0 {
            assert(raw =~= other);
        }
    }
}

/// A phrase with the code that was typed is an exact match; a command behind it is what it
/// runs, and else its record is what it stands for.
pub proof fn exact_phrases_match_the_input(h: PhraseHit, input: Seq<char>)
    ensures
        ({
            let c = exact_phrase(h, input);
            &&& c.text == h.text@ && c.weight == h.weight
            &&& c.is_phrase && c.is_exact_code && !c.is_prefix && !c.is_group
            &&& c.source == CandidateSource::Phrase
            &&& c.is_system_phrase == h.is_system
            &&& c.is_command == (h.command_src is Some)
            &&& h.command_src matches Some(src) ==> c.phrase_template == src@
            &&& h.command_src is None ==> c.phrase_template == h.source_text@
            &&& c.id == phrase_id(input, h.source_text@)
        }),
{
}

/// A phrase whose code goes on is a command, a group that leads to its code, or its text.
pub proof fn prefix_phrases_lead_to_their_code(h: PhraseHit, input: Seq<char>, is_prefix: bool)
    ensures
        ({
            let c = prefix_phrase(h, input, is_prefix);
            &&& c.text == h.text@ && c.comment == h.comment@
            &&& c.is_system_phrase == h.is_system
            &&& c.is_command == (h.command_src is Some)
            &&& c.is_group == (h.command_src is None && h.nav_code is Some)
            &&& h.command_src matches Some(src) ==> c.phrase_template == src@
            &&& h.command_src is None ==> c.phrase_template == h.source_text@
            &&& h.nav_code matches Some(code) ==> c.group_code == code@
            &&& h.nav_code is None ==> c.group_code.len() == 0
            &&& c.is_group ==> c.group_name == h.text@
            &&& h.command_src is None ==> c.id == phrase_id(
                match h.nav_code {
                    Some(code) => code@,
                    None => input,
                },
                h.source_text@,
            )
        }),
{
}

/// Verdicts are noted on everything but phrases, and ranks on everything; neither changes what
/// is shown or where.
pub proof fn marks_change_no_text(
    s: Seq<CandidateModel>,
    v: Seq<CommonVerdict>,
    ranks: Seq<MatchRank>,
    i: int,
)
    requires
        0 <= i < s.len(),
    ensures
        all_marked(s, v).len() == s.len(),
        all_ranked(s, ranks).len() == s.len(),
        s[i].is_phrase ==> all_marked(s, v)[i] == s[i],
        !s[i].is_phrase ==> all_marked(s, v)[i].is_common == v[i].is_common
            && all_marked(s, v)[i].user_rare == v[i].user_rare,
        all_marked(s, v)[i].text == s[i].text && all_marked(s, v)[i].weight == s[i].weight,
        all_ranked(s, ranks)[i].rank == ranks[i],
        all_ranked(s, ranks)[i].text == s[i].text && all_ranked(s, ranks)[i].weight == s[i].weight
            && all_ranked(s, ranks)[i].is_common == s[i].is_common,
{
}

/// What lies outside the scope is marked, and is otherwise what it was.
pub proof fn what_is_out_of_scope_is_marked(s: Seq<CandidateModel>, i: int)
    requires
        0 <= i < s.len(),
    ensures
        out_of_scope(s).len() == s.len(),
        out_of_scope(s)[i].is_scope_filtered,
        out_of_scope(s)[i].text == s[i].text,
        s[i].is_scope_filtered ==> out_of_scope(s)[i] == s[i],
{
}

/// The front of a list that lies inside the scope ends before the first candidate that does
/// not.
pub proof fn the_scope_ends_before_the_first_outsider(s: Seq<CandidateModel>)
    ensures
        0 <= in_scope_len(s) <= s.len(),
        forall|i: int| 0 <= i < in_scope_len(s) ==> !(#[trigger] s[i]).is_scope_filtered,
        in_scope_len(s) < s.len() ==> s[in_scope_len(s)].is_scope_filtered,
    decreases s.len(),
{
    if s.len() > 0 && !s[0].is_scope_filtered {
        let d = s.drop_first();
        the_scope_ends_before_the_first_outsider(d);
        assert forall|i: int| 0 <= i < in_scope_len(s) implies !(
        #[trigger] s[i]).is_scope_filtered by {
            if i > 0 {
                assert(s[i] == d[i - 1]);
            }
        }
        if in_scope_len(s) < s.len() {
            assert(s[in_scope_len(s)] == d[in_scope_len(d)]);
        }
    }
}

/// Phrases join behind what is there, in the order in which they were found.
pub proof fn phrases_join_at_the_end(
    s: Seq<CandidateModel>,
    hits: Seq<PhraseHit>,
    input: Seq<char>,
    is_prefix: bool,
    i: int,
)
    ensures
        s.is_prefix_of(with_exact_phrases(s, hits, input)),
        s.is_prefix_of(with_prefix_phrases(s, hits, input, is_prefix)),
        with_exact_phrases(s, hits, input).len() == s.len() + hits.len(),
        with_prefix_phrases(s, hits, input, is_prefix).len() == s.len() + hits.len(),
        0 <= i < hits.len() ==> with_exact_phrases(s, hits, input)[s.len() + i].text
            == hits[i].text@ && with_exact_phrases(s, hits, input)[s.len() + i].is_exact_code,
        0 <= i < hits.len() ==> with_prefix_phrases(s, hits, input, is_prefix)[s.len() + i].text
            == hits[i].text@ && !with_prefix_phrases(s, hits, input, is_prefix)[s.len()
            + i].is_exact_code,
{
}

/// Whether `at` tells where each candidate of `rest` stood in `s`: the places rise, and they
/// are those whose text a head does not show.
pub open spec fn rest_places(
    s: Seq<CandidateModel>,
    head: Seq<CandidateModel>,
    rest: Seq<CandidateModel>,
    at: Seq<int>,
) -> bool {
    &&& at.len() == rest.len()
    &&& forall|i: int|
        0 <= i < at.len() ==> 0 <= #[trigger] at[i] < s.len() && rest[i] == s[at[i]]
            && !shows_text(head, s[at[i]].text)
    &&& forall|i: int, j: int| 0 <= i < j < at.len() ==> #[trigger] at[i] < #[trigger] at[j]
    &&& forall|k: int| 0 <= k < s.len() && !shows_text(head, s[k].text) ==> #[trigger] at.contains(k)
}

/// Behind a head everything stays that the head does not show, in its order, and nothing that
/// it shows does.
pub proof fn a_head_takes_only_its_own_texts(
    s: Seq<CandidateModel>,
    head: Seq<CandidateModel>,
) -> (at: Seq<int>)
    ensures
        rest_places(s, head, without_texts_of(s, head), at),
    decreases s.len(),
{
    if s.len() == 0 {
        Seq::empty()
    } else {
        let n = s.len() - 1;
        let front = s.drop_last();
        let before = a_head_takes_only_its_own_texts(front, head);
        let rest = without_texts_of(s, head);
        let at = if shows_text(head, s.last().text) {
            before
        } else {
            before.push(n)
        };
        assert forall|i: int| 0 <= i < before.len() implies s[#[trigger] before[i]]
            == front[before[i]] by {}
        assert forall|i: int| 0 <= i < at.len() implies 0 <= #[trigger] at[i] < s.len() && rest[i]
            == s[at[i]] && !shows_text(head, s[at[i]].text) by {
            if i < before.len() {
                assert(at[i] == before[i]);
                assert(rest[i] == without_texts_of(front, head)[i]);
            }
        }
        assert forall|k: int|
            0 <= k < s.len() && !shows_text(head, s[k].text) implies #[trigger] at.contains(k) by {
            if k < n {
                assert(front[k] == s[k]);
                assert(before.contains(k));
                let i = choose|i: int| 0 <= i < before.len() && before[i] == k;
                assert(at[i] == k);
            } else {
                assert(at[before.len() as int] == k);
            }
        }
        at
    }
}

/// In exact-match input the phrases whose code goes on are left out, unless completion is on,
/// nothing was found and the code can still grow: they wait then. Anywhere else they join the
/// list.
pub proof fn prefix_phrases_keep_out_of_exact_input(
    c: Coordinator,
    nothing_found: bool,
    input: Seq<char>,
)
    ensures
        !c.engine.is_codetable || !c.engine.codetable.single_code_input ==> c.prefix_use_of(
            nothing_found,
            input,
        ) == PrefixUse::Append,
        c.engine.is_codetable && c.engine.codetable.single_code_input ==> {
            &&& c.prefix_use_of(nothing_found, input) != PrefixUse::Append
            &&& c.prefix_use_of(nothing_found, input) == PrefixUse::Pool
                <==> c.engine.codetable.single_code_complete && nothing_found && input.len()
                < c.engine.max_code_length
        },
{
}

/// A command that may commit by itself commits its text where it is nothing but text, does
/// nothing where that text is empty, and else runs.
pub proof fn commands_commit_their_text_or_run(c: CandidateModel, t: Seq<char>)
    ensures
        t.len() > 0 ==> command_outcome(c, Some(t)) == OutcomeModel::AutoCommit(t),
        t.len() == 0 ==> command_outcome(c, Some(t)) == OutcomeModel::Normal,
        command_outcome(c, None) == OutcomeModel::AutoCommand(c),
{
}

/// A text is on offer where a candidate shows it, or where it is the source of a command.
pub proof fn offers_are_shown_or_run(s: Seq<CandidateModel>, i: int)
    requires
        0 <= i < s.len(),
    ensures
        still_offered(s, s[i].text),
        s[i].is_command ==> still_offered(s, s[i].phrase_template),
        forall|t: Seq<char>|
            (forall|k: int|
                0 <= k < s.len() ==> (#[trigger] s[k]).text != t && !(s[k].is_command
                    && s[k].phrase_template == t)) ==> !#[trigger] still_offered(s, t),
{
}

/// The shortest input at which a phrase commits is the length that is set, and else that of a
/// full code.
pub proof fn phrases_wait_for_a_full_code(c: Coordinator)
    ensures
        c.engine.codetable.auto_commit_min_len > 0 ==> c.phrase_min_len()
            == c.engine.codetable.auto_commit_min_len,
        c.engine.codetable.auto_commit_min_len == 0 ==> c.phrase_min_len()
            == c.engine.max_code_length,
{
}

/// A phrase that is alone, has the code that was typed and cannot be continued commits by
/// itself once the code is full: its text, or what its command comes to.
pub proof fn a_lone_phrase_commits(
    c: Coordinator,
    input: Seq<char>,
    p: CandidateModel,
    facts: OutcomeFacts,
)
    requires
        c.engine.codetable.auto_commit_at_full,
        input.len() >= c.phrase_min_len(),
        p.is_phrase,
        !p.is_prefix,
        !p.is_group,
        !facts.longer_code,
        !facts.longer_phrase,
    ensures
        !p.is_command && p.text.len() > 0 ==> c.phrase_outcome(input, seq![p], facts) == Some(
            OutcomeModel::AutoCommit(p.text),
        ),
        !p.is_command && p.text.len() == 0 ==> c.phrase_outcome(input, seq![p], facts) is None,
        p.is_command ==> c.phrase_outcome(input, seq![p], facts) == Some(
            command_outcome(p, opt_view(facts.first_command_text)),
        ),
{
}

/// No phrase commits by itself where that is switched off, before the code is full, beside
/// other candidates, as the start of a longer code or as a group, or while a longer code is
/// known.
pub proof fn phrases_commit_only_alone(
    c: Coordinator,
    input: Seq<char>,
    s: Seq<CandidateModel>,
    facts: OutcomeFacts,
)
    requires
        ({
            ||| !c.engine.codetable.auto_commit_at_full
            ||| input.len() < c.phrase_min_len()
            ||| s.len() != 1
            ||| !s[0].is_phrase
            ||| s[0].is_prefix
            ||| s[0].is_group
            ||| facts.longer_code
            ||| facts.longer_phrase
        }),
    ensures
        c.phrase_outcome(input, s, facts) is None,
{
}

/// What the engine would commit is committed as the first candidate shows it, while the text
/// is still on offer, no phrase claims the code and the first candidate comes from the code
/// table; a command there comes to its own outcome.
pub proof fn the_engine_commits_what_leads_the_list(
    c: Coordinator,
    input: Seq<char>,
    s: Seq<CandidateModel>,
    facts: OutcomeFacts,
)
    requires
        s.len() > 0,
        facts.intent is Some,
        still_offered(s, facts.intent->0@),
        !facts.phrase_owns_code,
        s[0].source == CandidateSource::CodeTable,
    ensures
        !s[0].is_command ==> c.outcome_of(input, s, facts) == OutcomeModel::AutoCommit(s[0].text),
        s[0].is_command && facts.first_command_text is None ==> c.outcome_of(input, s, facts)
            == OutcomeModel::AutoCommand(s[0]),
        s[0].is_command ==> (facts.first_command_text matches Some(t) ==> (t@.len() > 0
            ==> c.outcome_of(input, s, facts) == OutcomeModel::AutoCommit(t@))),
{
}

/// Nothing but a phrase commits where the engine intends nothing, where what it intends is no
/// longer on offer, where a phrase claims the code, and where another source leads the list.
pub proof fn the_engine_commits_nothing_else(
    c: Coordinator,
    input: Seq<char>,
    s: Seq<CandidateModel>,
    facts: OutcomeFacts,
)
    requires
        facts.intent is None || !still_offered(s, facts.intent->0@) || facts.phrase_owns_code
            || s[0].source != CandidateSource::CodeTable,
    ensures
        c.outcome_of(input, s, facts) is AutoCommit || c.outcome_of(input, s, facts) is AutoCommand
            ==> c.phrase_outcome(input, s, facts) == Some(c.outcome_of(input, s, facts)),
        !(c.outcome_of(input, s, facts) is Clear) ==> (match c.phrase_outcome(input, s, facts) {
            Some(o) => c.outcome_of(input, s, facts) == o,
            None => c.outcome_of(input, s, facts) == OutcomeModel::Normal,
        }),
{
}

/// A fruitless input is cleared where the engine would clear it and every candidate is pinyin
/// for a part of it. A candidate of another source, or one that explains the whole input, keeps
/// it, and nothing is cleared against the engine.
pub proof fn fruitless_input_is_cleared(
    c: Coordinator,
    input: Seq<char>,
    s: Seq<CandidateModel>,
    facts: OutcomeFacts,
)
    requires
        facts.intent is None,
    ensures
        facts.should_clear && (forall|i: int|
            0 <= i < s.len() ==> (#[trigger] s[i]).source == CandidateSource::Pinyin && 0
                < s[i].consumed_length < input.len()) ==> c.outcome_of(input, s, facts)
            == OutcomeModel::Clear,
        (exists|i: int|
            0 <= i < s.len() && ((#[trigger] s[i]).source != CandidateSource::Pinyin
                || s[i].consumed_length == 0 || s[i].consumed_length >= input.len())) ==> !(
        c.outcome_of(input, s, facts) is Clear),
        !facts.should_clear ==> !(c.outcome_of(input, s, facts) is Clear),
{
}

} // verus!

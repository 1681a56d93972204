//! Candidates and the lists they form.

use vstd::prelude::*;

verus! {

/// Where a candidate comes from.
#[derive(Clone, Copy, PartialEq, Eq, Structural, Debug)]
pub enum CandidateSource {
    Unset,
    CodeTable,
    Pinyin,
    English,
    Phrase,
    Assoc,
}

/// Ranks the candidate library assigns; a smaller rank is shown first.
///
/// `layer` ranks how closely the candidate matches the input, `extra` counts the
/// syllables a completion adds, and `tier` ranks sources against each other.
#[derive(Clone, Copy, PartialEq, Eq, Structural, Debug)]
pub struct MatchRank {
    pub layer: u32,
    pub extra: u32,
    pub tier: u32,
}

/// The characters of an optional string.
pub open spec fn opt_view(s: Option<String>) -> Option<Seq<char>> {
    match s {
        Some(t) => Some(t@),
        None => None,
    }
}

/// The characters of each string of a list.
pub open spec fn strings_view(s: Seq<String>) -> Seq<Seq<char>> {
    s.map_values(|t: String| t@)
}

/// Copies an optional string.
pub fn clone_opt(s: &Option<String>) -> (r: Option<String>)
    ensures
        opt_view(r) == opt_view(*s),
{
    match s {
        Some(t) => Some(t.clone()),
        None => None,
    }
}

/// Copies a list of strings.
pub fn clone_strings(s: &Vec<String>) -> (r: Vec<String>)
    ensures
        strings_view(r@) == strings_view(s@),
{
    let mut r: Vec<String> = Vec::new();
    let mut i: usize = 0;
    while i < s.len()
        invariant
            i <= s.len(),
            strings_view(r@) == strings_view(s@).take(i as int),
        decreases s.len() - i,
    {
        let t = s[i].clone();
        proof {
            assert(strings_view(r@.push(t)) =~= strings_view(r@).push(t@));
            assert(strings_view(s@).take(i as int + 1) =~= strings_view(s@).take(i as int).push(
                s@[i as int]@,
            ));
        }
        r.push(t);
        i = i + 1;
    }
    assert(strings_view(s@).take(s@.len() as int) =~= strings_view(s@));
    r
}

/// One entry of the candidate list.
#[derive(Debug)]
pub struct Candidate {
    /// What the candidate window shows.
    pub text: String,
    /// Stored code of the entry; empty when the engine gives none.
    pub code: String,
    /// Weight of the entry in its dictionary.
    pub weight: i32,
    /// Bytes of input the candidate explains; 0 stands for the whole input.
    pub consumed_length: usize,
    /// Order of the dictionary the entry comes from.
    pub base_order: i32,
    /// Order of the entry inside its dictionary.
    pub natural_order: i32,
    /// Where the candidate comes from.
    pub source: CandidateSource,
    /// Defined by the phrase layer.
    pub is_phrase: bool,
    /// Selecting it runs a command kept in `phrase_template`.
    pub is_command: bool,
    /// Selecting it completes the input to `group_code`.
    pub is_group: bool,
    /// Matches a longer code than the one typed.
    pub is_prefix: bool,
    /// Its code equals the input.
    pub is_exact_code: bool,
    /// Made of common characters only.
    pub is_common: bool,
    /// Holds a character the user marked rare.
    pub user_rare: bool,
    /// Outside the retrieval scope, shown only because the scope is relaxed.
    pub is_scope_filtered: bool,
    /// A whole-sentence solution.
    pub is_sentence: bool,
    /// Composed by the engine rather than stored.
    pub is_synthesized: bool,
    /// Reached through an abbreviated spelling.
    pub is_abbrev: bool,
    /// Reached by reading double-pinyin keys as full pinyin.
    pub is_fullpinyin_fallback: bool,
    /// Carries side-effect actions.
    pub has_actions: bool,
    /// Command source, or the phrase text before expansion.
    pub phrase_template: String,
    /// Full code of a group or of a command found by prefix.
    pub group_code: String,
    /// Name of the group.
    pub group_name: String,
    /// Group source before expansion.
    pub group_template: String,
    /// Annotation shown beside the text.
    pub comment: String,
    /// Stable identity; empty when the text is the identity.
    pub id: String,
    /// Output text that replaces simplified-to-traditional conversion.
    pub s2t_override: Option<String>,
    /// Text to commit when it differs from the shown text.
    pub commit_override: Option<String>,
    /// Bit `i` set when a syllable starts at byte `i` of the code.
    pub boundary: u64,
    /// Codes of duplicates folded into this candidate.
    pub merged_codes: Vec<String>,
    /// Backed by a user-word record.
    pub is_user_dict: bool,
    /// Backed by a temporary-word record.
    pub is_temp_dict: bool,
    /// A phrase shipped with the program.
    pub is_system_phrase: bool,
    /// Code of the backing store record.
    pub store_code: Option<String>,
    /// Comparison ranks assigned by the candidate library.
    pub rank: MatchRank,
}

/// What a [`Candidate`] holds.
pub ghost struct CandidateModel {
    pub text: Seq<char>,
    pub code: Seq<char>,
    pub weight: i32,
    pub consumed_length: usize,
    pub base_order: i32,
    pub natural_order: i32,
    pub source: CandidateSource,
    pub is_phrase: bool,
    pub is_command: bool,
    pub is_group: bool,
    pub is_prefix: bool,
    pub is_exact_code: bool,
    pub is_common: bool,
    pub user_rare: bool,
    pub is_scope_filtered: bool,
    pub is_sentence: bool,
    pub is_synthesized: bool,
    pub is_abbrev: bool,
    pub is_fullpinyin_fallback: bool,
    pub has_actions: bool,
    pub phrase_template: Seq<char>,
    pub group_code: Seq<char>,
    pub group_name: Seq<char>,
    pub group_template: Seq<char>,
    pub comment: Seq<char>,
    pub id: Seq<char>,
    pub s2t_override: Option<Seq<char>>,
    pub commit_override: Option<Seq<char>>,
    pub boundary: u64,
    pub merged_codes: Seq<Seq<char>>,
    pub is_user_dict: bool,
    pub is_temp_dict: bool,
    pub is_system_phrase: bool,
    pub store_code: Option<Seq<char>>,
    pub rank: MatchRank,
}

impl View for Candidate {
    type V = CandidateModel;

    open spec fn view(&self) -> CandidateModel {
        CandidateModel {
            text: self.text@,
            code: self.code@,
            weight: self.weight,
            consumed_length: self.consumed_length,
            base_order: self.base_order,
            natural_order: self.natural_order,
            source: self.source,
            is_phrase: self.is_phrase,
            is_command: self.is_command,
            is_group: self.is_group,
            is_prefix: self.is_prefix,
            is_exact_code: self.is_exact_code,
            is_common: self.is_common,
            user_rare: self.user_rare,
            is_scope_filtered: self.is_scope_filtered,
            is_sentence: self.is_sentence,
            is_synthesized: self.is_synthesized,
            is_abbrev: self.is_abbrev,
            is_fullpinyin_fallback: self.is_fullpinyin_fallback,
            has_actions: self.has_actions,
            phrase_template: self.phrase_template@,
            group_code: self.group_code@,
            group_name: self.group_name@,
            group_template: self.group_template@,
            comment: self.comment@,
            id: self.id@,
            s2t_override: opt_view(self.s2t_override),
            commit_override: opt_view(self.commit_override),
            boundary: self.boundary,
            merged_codes: strings_view(self.merged_codes@),
            is_user_dict: self.is_user_dict,
            is_temp_dict: self.is_temp_dict,
            is_system_phrase: self.is_system_phrase,
            store_code: opt_view(self.store_code),
            rank: self.rank,
        }
    }
}

/// The model of a candidate with no text, no code and no flag set.
pub open spec fn blank_candidate() -> CandidateModel {
    CandidateModel {
        text: Seq::empty(),
        code: Seq::empty(),
        weight: 0,
        consumed_length: 0,
        base_order: 0,
        natural_order: 0,
        source: CandidateSource::Unset,
        is_phrase: false,
        is_command: false,
        is_group: false,
        is_prefix: false,
        is_exact_code: false,
        is_common: false,
        user_rare: false,
        is_scope_filtered: false,
        is_sentence: false,
        is_synthesized: false,
        is_abbrev: false,
        is_fullpinyin_fallback: false,
        has_actions: false,
        phrase_template: Seq::empty(),
        group_code: Seq::empty(),
        group_name: Seq::empty(),
        group_template: Seq::empty(),
        comment: Seq::empty(),
        id: Seq::empty(),
        s2t_override: None,
        commit_override: None,
        boundary: 0,
        merged_codes: Seq::empty(),
        is_user_dict: false,
        is_temp_dict: false,
        is_system_phrase: false,
        store_code: None,
        rank: MatchRank { layer: 0, extra: 0, tier: 0 },
    }
}

impl Default for Candidate {
    fn default() -> (c: Self)
        ensures
            c@ == blank_candidate(),
    {
        let c = Candidate {
            text: String::new(),
            code: String::new(),
            weight: 0,
            consumed_length: 0,
            base_order: 0,
            natural_order: 0,
            source: CandidateSource::Unset,
            is_phrase: false,
            is_command: false,
            is_group: false,
            is_prefix: false,
            is_exact_code: false,
            is_common: false,
            user_rare: false,
            is_scope_filtered: false,
            is_sentence: false,
            is_synthesized: false,
            is_abbrev: false,
            is_fullpinyin_fallback: false,
            has_actions: false,
            phrase_template: String::new(),
            group_code: String::new(),
            group_name: String::new(),
            group_template: String::new(),
            comment: String::new(),
            id: String::new(),
            s2t_override: None,
            commit_override: None,
            boundary: 0,
            merged_codes: Vec::new(),
            is_user_dict: false,
            is_temp_dict: false,
            is_system_phrase: false,
            store_code: None,
            rank: MatchRank { layer: 0, extra: 0, tier: 0 },
        };
        assert(strings_view(c.merged_codes@) =~= Seq::<Seq<char>>::empty());
        c
    }
}

impl Clone for Candidate {
    fn clone(&self) -> (c: Self)
        ensures
            c@ == self@,
    {
        Candidate {
            text: self.text.clone(),
            code: self.code.clone(),
            weight: self.weight,
            consumed_length: self.consumed_length,
            base_order: self.base_order,
            natural_order: self.natural_order,
            source: self.source,
            is_phrase: self.is_phrase,
            is_command: self.is_command,
            is_group: self.is_group,
            is_prefix: self.is_prefix,
            is_exact_code: self.is_exact_code,
            is_common: self.is_common,
            user_rare: self.user_rare,
            is_scope_filtered: self.is_scope_filtered,
            is_sentence: self.is_sentence,
            is_synthesized: self.is_synthesized,
            is_abbrev: self.is_abbrev,
            is_fullpinyin_fallback: self.is_fullpinyin_fallback,
            has_actions: self.has_actions,
            phrase_template: self.phrase_template.clone(),
            group_code: self.group_code.clone(),
            group_name: self.group_name.clone(),
            group_template: self.group_template.clone(),
            comment: self.comment.clone(),
            id: self.id.clone(),
            s2t_override: clone_opt(&self.s2t_override),
            commit_override: clone_opt(&self.commit_override),
            boundary: self.boundary,
            merged_codes: clone_strings(&self.merged_codes),
            is_user_dict: self.is_user_dict,
            is_temp_dict: self.is_temp_dict,
            is_system_phrase: self.is_system_phrase,
            store_code: clone_opt(&self.store_code),
            rank: self.rank,
        }
    }
}

/// The models of a list of candidates.
pub open spec fn models(s: Seq<Candidate>) -> Seq<CandidateModel> {
    s.map_values(|c: Candidate| c@)
}

/// Copies a list of candidates.
pub fn clone_candidates(s: &Vec<Candidate>) -> (r: Vec<Candidate>)
    ensures
        models(r@) == models(s@),
{
    let mut r: Vec<Candidate> = Vec::new();
    let mut i: usize = 0;
    while i < s.len()
        invariant
            i <= s.len(),
            models(r@) == models(s@).take(i as int),
        decreases s.len() - i,
    {
        let c = s[i].clone();
        proof {
            assert(models(r@.push(c)) =~= models(r@).push(c@));
            assert(models(s@).take(i as int + 1) =~= models(s@).take(i as int).push(s@[i as int]@));
        }
        r.push(c);
        i = i + 1;
    }
    assert(models(s@).take(s@.len() as int) =~= models(s@));
    r
}

/// A blank candidate shows nothing, is nothing special, explains the whole input and ranks
/// first in everything.
pub proof fn a_blank_candidate_is_nothing_special()
    ensures
        ({
            let c = blank_candidate();
            &&& c.text.len() == 0 && c.code.len() == 0 && c.comment.len() == 0 && c.id.len() == 0
            &&& c.phrase_template.len() == 0 && c.group_code.len() == 0 && c.group_name.len() == 0
                && c.group_template.len() == 0
            &&& c.weight == 0 && c.consumed_length == 0 && c.boundary == 0
            &&& c.base_order == 0 && c.natural_order == 0
            &&& c.rank.layer == 0 && c.rank.extra == 0 && c.rank.tier == 0
            &&& c.source == CandidateSource::Unset
            &&& !c.is_phrase && !c.is_command && !c.is_group && !c.is_prefix && !c.is_exact_code
            &&& !c.is_common && !c.user_rare && !c.is_scope_filtered && !c.is_sentence
            &&& !c.is_synthesized && !c.is_abbrev && !c.is_fullpinyin_fallback && !c.has_actions
            &&& !c.is_user_dict && !c.is_temp_dict && !c.is_system_phrase
            &&& c.s2t_override is None && c.commit_override is None && c.store_code is None
            &&& c.merged_codes.len() == 0
        }),
{
}

} // verus!

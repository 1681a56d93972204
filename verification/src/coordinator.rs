//! The coordinator: what it is told of its surroundings, and the state it keeps.

use crate::candidate::{models, strings_view};
use crate::keys::KeyMods;
use crate::state::State;
use std::collections::VecDeque;
use vstd::prelude::*;
use vstd::string::*;

verus! {

/// What kind of engine turns keys into candidates.
#[derive(Clone, Copy, PartialEq, Eq, Structural, Debug)]
pub enum EngineType {
    CodeTable,
    Pinyin,
    Mixed,
    English,
}

/// How a composition is opened behind a text that lands at the same moment.
#[derive(Clone, Copy, PartialEq, Eq, Structural, Debug)]
pub enum TopCommitMode {
    /// Text and composition travel together.
    PreConfirm,
    /// The text lands, and the composition opens when the key is released.
    DirectCommit,
}

/// Learning words from single characters committed one after the other.
#[derive(Clone, Copy, Debug)]
pub struct AutoPhraseSettings {
    pub enabled: bool,
    pub min_phrase_len: usize,
    pub max_phrase_len: usize,
    pub promote_count: usize,
    pub idle_timeout_ms: u64,
    pub temp_max_entries: usize,
}

/// Learning words from pinyin chosen piece by piece.
#[derive(Clone, Copy, Debug)]
pub struct AutoLearnSettings {
    pub enabled: bool,
    pub min_word_length: usize,
    pub max_word_length: usize,
    pub promote_count: usize,
}

/// Behaviour of code-table schemas.
#[derive(Clone, Copy, Debug)]
pub struct CodetableSettings {
    pub single_code_input: bool,
    pub single_code_complete: bool,
    pub auto_commit_at_full: bool,
    pub auto_commit_min_len: usize,
    pub z_key_repeat: bool,
    pub auto_phrase: AutoPhraseSettings,
}

/// What the engines report about the schema in use.
#[derive(Debug)]
pub struct EngineFacts {
    /// Id of the schema in use.
    pub active_schema: String,
    /// Engine its definition names.
    pub schema_type: Option<EngineType>,
    /// Engine that is loaded.
    pub engine_type: Option<EngineType>,
    pub is_pinyin: bool,
    pub is_codetable: bool,
    pub is_english: bool,
    /// Length of a full code; 0 when the engine has no such notion.
    pub max_code_length: usize,
    /// The base order leaves weights out.
    pub ignores_weight: bool,
    /// English frequencies are kept per input rather than per word.
    pub english_code_by_input: bool,
    /// Primary code-table schema of a mixed schema.
    pub mixed_primary: Option<String>,
    pub codetable: CodetableSettings,
    pub auto_learn: AutoLearnSettings,
    /// A store for user data is there.
    pub has_store: bool,
}

/// What the user configured.
#[derive(Debug)]
pub struct Settings {
    /// Candidates on a page.
    pub per_page: usize,
    /// Candidates on a page of an overlay mode; 0 stands for the ordinary number.
    pub per_page_extended: usize,
    /// What a digit beyond the page does: `commit`, `commit_and_input` or nothing.
    pub overflow_number_key: String,
    /// What a selection key beyond the page does.
    pub overflow_select_key: String,
    /// What a character key does when the word is too short.
    pub overflow_select_char_key: String,
    pub top_commit_mode: TopCommitMode,
    /// How long a deferred composition waits at most.
    pub deferred_ms: u32,
    /// English: offer the input itself.
    pub english_raw_candidate: bool,
    /// English: offer the input in other cases.
    pub english_case_variants: bool,
    /// English: a space follows what is committed.
    pub english_commit_space: bool,
    /// Shortest input that lists phrases by prefix.
    pub phrase_min_prefix: usize,
    /// Associations are offered after a commit.
    pub assoc_enabled: bool,
    /// An association that was chosen leads to the next.
    pub assoc_continuous: bool,
    /// How long associations stay; 0 stands for ever.
    pub assoc_hide_after_ms: u64,
    /// What the code line shows while associations are offered.
    pub assoc_hint: String,
    /// The composition is shown in the application, so there is no code line.
    pub preedit_inline: bool,
    /// The return key only closes the associations.
    pub assoc_enter_cancels_only: bool,
    /// The backspace key only closes the associations.
    pub assoc_backspace_cancels_only: bool,
    /// Modifiers that make a digit delete a candidate.
    pub delete_candidate: Option<KeyMods>,
    /// Modifiers that make a digit pin a candidate.
    pub pin_candidate: Option<KeyMods>,
    /// Schema of each special mode.
    pub special_schemas: Vec<String>,
}

/// The coordinator of one input session.
#[derive(Debug)]
pub struct Coordinator {
    pub settings: Settings,
    pub engine: EngineFacts,
    pub state: State,
    /// Texts committed lately, newest first.
    pub recent_commits: VecDeque<String>,
    /// UTF-16 length of the text that landed last.
    pub last_commit_len: usize,
    /// Names the association showing in force; an older timer carries another.
    pub assoc_hide_token: u64,
    /// The application still shows a placeholder nobody will close.
    pub assoc_placeholder_orphaned: bool,
    /// Words written to the temporary layer so far.
    pub auto_phrase_writes: usize,
}

/// Most texts the commit history keeps.
pub const HISTORY_LIMIT: usize = 16;

/// Weight of a word that was learned.
pub const LEARN_ADD_WEIGHT: i32 = 800;

/// Schema of the built-in English dictionary.
pub open spec fn english_schema() -> Seq<char> {
    "english"@
}

/// Puts the page and the highlight back to the start.
pub fn reset_candidate_view(state: &mut State)
    ensures
        *final(state) == (State {
            current_page: 0,
            selected_index: 0,
            hover_index: None,
            ..*old(state)
        }),
{
    state.current_page = 0;
    state.selected_index = 0;
    state.hover_index = None;
}

/// Whether `b` is `a` with no keys, nothing chosen and the view at its start; the
/// candidates and the composition text may be anything, and everything else is as it
/// was.
pub open spec fn input_dropped(a: State, b: State) -> bool {
    &&& b.input_buffer@.len() == 0
    &&& b.input_buffer_cased@.len() == 0
    &&& b.committed_text@.len() == 0
    &&& b.committed_segs@.len() == 0
    &&& b == (State {
        input_buffer: b.input_buffer,
        input_buffer_cased: b.input_buffer_cased,
        input_cursor_pos: 0,
        preedit: b.preedit,
        committed_text: b.committed_text,
        committed_segs: b.committed_segs,
        candidates: b.candidates,
        current_page: 0,
        selected_index: 0,
        hover_index: None,
        ..a
    })
}

/// Whether `b` is `a` with the composition emptied: no keys, nothing chosen,
/// nothing shown, the view at its start, and everything else as it was.
pub open spec fn composition_cleared(a: State, b: State) -> bool {
    &&& input_dropped(a, b)
    &&& b.preedit@.len() == 0
    &&& b.candidates@.len() == 0
}

/// Empties the composition.
pub fn reset_pinyin_composition(state: &mut State)
    ensures
        composition_cleared(*old(state), *final(state)),
{
    state.input_buffer = String::new();
    state.input_buffer_cased = String::new();
    state.input_cursor_pos = 0;
    state.preedit = String::new();
    state.committed_text = String::new();
    state.committed_segs = Vec::new();
    state.candidates = Vec::new();
    reset_candidate_view(state);
}

/// Whether `b` is `a` with no overlay mode in force and nothing typed in any.
pub open spec fn modes_left(a: State, b: State) -> bool {
    &&& b.temp_pinyin_buffer@.len() == 0
    &&& b.temp_pinyin_prefix@.len() == 0
    &&& b.temp_english_buffer@.len() == 0
    &&& b.temp_english_prefix@.len() == 0
    &&& b.special_buffer@.len() == 0
    &&& b.special_prefix@.len() == 0
    &&& b.mix_buffer@.len() == 0
    &&& b.mix_prefix@.len() == 0
    &&& b.url_buffer@.len() == 0
    &&& b.overlay_body@.len() == 0
    &&& b == (State {
        active: None,
        aux_code: None,
        temp_pinyin_buffer: b.temp_pinyin_buffer,
        temp_pinyin_prefix: b.temp_pinyin_prefix,
        temp_pinyin_cursor: 0,
        temp_english_buffer: b.temp_english_buffer,
        temp_english_prefix: b.temp_english_prefix,
        temp_english_cursor: 0,
        special_buffer: b.special_buffer,
        special_prefix: b.special_prefix,
        special_cursor: 0,
        mix_buffer: b.mix_buffer,
        mix_prefix: b.mix_prefix,
        mix_cursor: 0,
        url_buffer: b.url_buffer,
        url_cursor: 0,
        overlay_body: b.overlay_body,
        ..a
    })
}

/// Leaves whatever overlay mode is in force.
pub fn reset_exclusive_modes(state: &mut State)
    ensures
        modes_left(*old(state), *final(state)),
{
    state.active = None;
    state.aux_code = None;
    state.temp_pinyin_buffer = String::new();
    state.temp_pinyin_prefix = String::new();
    state.temp_pinyin_cursor = 0;
    state.temp_english_buffer = String::new();
    state.temp_english_prefix = String::new();
    state.temp_english_cursor = 0;
    state.special_buffer = String::new();
    state.special_prefix = String::new();
    state.special_cursor = 0;
    state.mix_buffer = String::new();
    state.mix_prefix = String::new();
    state.mix_cursor = 0;
    state.url_buffer = String::new();
    state.url_cursor = 0;
    state.overlay_body = String::new();
}

/// Whether `b` is `a` with no overlay mode in force and the composition emptied.
pub open spec fn typing_dropped(a: State, b: State) -> bool {
    exists|m: State| #[trigger] modes_left(a, m) && composition_cleared(m, b)
}

/// Drops whatever is being typed, in an overlay mode or not.
pub fn drop_typing(state: &mut State)
    ensures
        typing_dropped(*old(state), *final(state)),
{
    reset_exclusive_modes(state);
    let ghost m = *state;
    reset_pinyin_composition(state);
    assert(modes_left(*old(state), m) && composition_cleared(m, *state));
}

impl Coordinator {
    /// A coordinator at the start of a session: nothing typed, nothing committed, and
    /// one character to take back.
    pub fn new(settings: Settings, engine: EngineFacts) -> (r: Self)
        ensures
            r.settings == settings,
            r.engine == engine,
            r.state.is_blank(),
            r.recent_commits@.len() == 0,
            r.last_commit_len == 1,
            r.assoc_hide_token == 0,
            !r.assoc_placeholder_orphaned,
            r.auto_phrase_writes == 0,
    {
        Coordinator {
            settings,
            engine,
            state: State::new(),
            recent_commits: VecDeque::new(),
            last_commit_len: 1,
            assoc_hide_token: 0,
            assoc_placeholder_orphaned: false,
            auto_phrase_writes: 0,
        }
    }

    /// The commit history, newest first.
    pub open spec fn history(self) -> Seq<Seq<char>> {
        strings_view(self.recent_commits@)
    }

    /// How many candidates there are.
    pub fn debug_candidate_count(&self) -> (n: usize)
        ensures
            n == self.state.candidates@.len(),
    {
        self.state.candidates.len()
    }

    /// The text of every candidate, on every page.
    pub fn debug_all_candidate_texts(&self) -> (r: Vec<String>)
        ensures
            strings_view(r@) == models(self.state.candidates@).map_values(
                |c: crate::candidate::CandidateModel| c.text,
            ),
    {
        let list = &self.state.candidates;
        let mut r: Vec<String> = Vec::new();
        let mut i: usize = 0;
        while i < list.len()
            invariant
                i <= list.len(),
                r@.len() == i,
                forall|k: int| 0 <= k < i ==> (#[trigger] r@[k])@ == list@[k].text@,
            decreases list.len() - i,
        {
            r.push(list[i].text.clone());
            i = i + 1;
        }
        assert(strings_view(r@) =~= models(list@).map_values(
            |c: crate::candidate::CandidateModel| c.text,
        ));
        r
    }
}

/// The history keeps sixteen texts, a learned word weighs eight hundred, and English words
/// belong to the schema of that name.
pub proof fn sessions_have_fixed_measures()
    ensures
        HISTORY_LIMIT == 16,
        LEARN_ADD_WEIGHT == 800,
        english_schema() == "english"@,
{
}

/// Dropping the input leaves no keys and nothing chosen, and the view at its start; the modes
/// and the switches stay.
pub proof fn dropping_the_input_keeps_the_modes(a: State, b: State)
    requires
        input_dropped(a, b),
    ensures
        b.input_buffer@.len() == 0 && b.input_buffer_cased@.len() == 0,
        b.committed_text@.len() == 0 && b.committed_segs@.len() == 0,
        b.input_cursor_pos == 0 && b.current_page == 0 && b.selected_index == 0,
        b.active == a.active && b.chinese_mode == a.chinese_mode && b.full_width == a.full_width,
        b.filter_mode == a.filter_mode && b.s2t_enabled == a.s2t_enabled,
{
}

/// A composition that is cleared shows nothing and offers nothing.
pub proof fn a_cleared_composition_is_empty(a: State, b: State)
    requires
        composition_cleared(a, b),
    ensures
        input_dropped(a, b),
        b.preedit@.len() == 0,
        b.candidates@.len() == 0,
{
}

/// Dropping what is typed leaves every mode and empties the composition, whatever mode was in
/// force; the switches stay.
pub proof fn dropping_what_is_typed_leaves_every_mode(a: State, b: State)
    requires
        typing_dropped(a, b),
    ensures
        b.active is None,
        b.aux_code is None,
        b.input_buffer@.len() == 0 && b.committed_text@.len() == 0,
        b.preedit@.len() == 0 && b.candidates@.len() == 0,
        b.temp_pinyin_buffer@.len() == 0 && b.temp_english_buffer@.len() == 0,
        b.special_buffer@.len() == 0 && b.mix_buffer@.len() == 0 && b.url_buffer@.len() == 0,
        b.temp_pinyin_prefix@.len() == 0 && b.temp_english_prefix@.len() == 0
            && b.special_prefix@.len() == 0 && b.mix_prefix@.len() == 0 && b.overlay_body@.len()
            == 0,
        b.temp_pinyin_cursor == 0 && b.temp_english_cursor == 0 && b.special_cursor == 0
            && b.mix_cursor == 0 && b.url_cursor == 0,
        b.chinese_mode == a.chinese_mode && b.full_width == a.full_width,
{
}

} // verus!

//! The state of one composition.

use crate::candidate::{Candidate, CandidateSource};
use vstd::prelude::*;

verus! {

/// An overlay mode; the number names the configured mode it stands for.
#[derive(Clone, Copy, PartialEq, Eq, Structural, Debug)]
pub enum ModeKind {
    TempPinyin,
    TempEnglish,
    Url,
    Special(usize),
    RareChar,
    Mix(usize),
    AuxCode,
}

/// Which characters candidates may hold.
#[derive(Clone, Copy, PartialEq, Eq, Structural, Debug)]
pub enum FilterMode {
    Smart,
    General,
    Gb18030,
}

/// A piece of text chosen while the rest of the input is still being converted.
#[derive(Debug)]
pub struct Seg {
    /// Keys the segment took from the input.
    pub raw_code: String,
    /// Its code in the dictionary's own form.
    pub code: String,
    /// The text chosen.
    pub text: String,
    /// Where the chosen candidate came from.
    pub source: CandidateSource,
    /// Syllable boundaries of `code`.
    pub boundary: u64,
}

/// What a [`Seg`] holds.
pub ghost struct SegModel {
    pub raw_code: Seq<char>,
    pub code: Seq<char>,
    pub text: Seq<char>,
    pub source: CandidateSource,
    pub boundary: u64,
}

impl View for Seg {
    type V = SegModel;

    open spec fn view(&self) -> SegModel {
        SegModel {
            raw_code: self.raw_code@,
            code: self.code@,
            text: self.text@,
            source: self.source,
            boundary: self.boundary,
        }
    }
}

/// The models of a list of segments.
pub open spec fn seg_models(s: Seq<Seg>) -> Seq<SegModel> {
    s.map_values(|g: Seg| g@)
}

/// The texts of segments, one after the other.
pub open spec fn seg_texts(s: Seq<SegModel>) -> Seq<char>
    decreases s.len(),
{
    if s.len() == 0 {
        Seq::empty()
    } else {
        seg_texts(s.drop_last()) + s.last().text
    }
}

/// The candidates an auxiliary-code session narrows, and what it has typed.
#[derive(Debug)]
pub struct AuxCodeOverlay {
    /// Candidates at the start of the session.
    pub snapshot: Vec<Candidate>,
    /// Auxiliary code typed so far.
    pub buffer: String,
    /// Composition at the start of the session.
    pub preedit_base: String,
    /// What the composition shows before the auxiliary code.
    pub preedit_prefix: String,
}

/// Everything a composition carries from one key to the next.
#[derive(Debug)]
pub struct State {
    /// Keys typed and not yet turned into text.
    pub input_buffer: String,
    /// The same keys with the capitals the user typed; empty without capitals.
    pub input_buffer_cased: String,
    /// Byte position of the cursor in `input_buffer`.
    pub input_cursor_pos: usize,
    /// What the composition shows.
    pub preedit: String,
    /// Input split into pinyin syllables.
    pub preedit_split_body: String,
    /// Input split as full pinyin.
    pub preedit_fp_body: String,
    /// Input split as abbreviated pinyin.
    pub preedit_abbrev_body: String,
    /// Input split into code-table units.
    pub preedit_codetable_body: String,
    /// Input in the form candidate adjustments are keyed by; empty when it is the input itself.
    pub shadow_code: String,
    /// Text already chosen in this composition.
    pub committed_text: String,
    /// The segments `committed_text` is made of.
    pub committed_segs: Vec<Seg>,
    /// All candidates, best first.
    pub candidates: Vec<Candidate>,
    /// Input the candidates belong to.
    pub candidate_input: String,
    /// How many engine candidates were asked for.
    pub candidate_limit: usize,
    /// The engine may hold more candidates.
    pub has_more: bool,
    /// Page shown, from 0.
    pub current_page: usize,
    /// Highlighted row of the page, from 0.
    pub selected_index: usize,
    /// Row under the mouse.
    pub hover_index: Option<usize>,
    /// Overlay mode in force.
    pub active: Option<ModeKind>,
    /// Chinese input is on.
    pub chinese_mode: bool,
    /// Full-width characters are on.
    pub full_width: bool,
    /// Retrieval scope.
    pub filter_mode: FilterMode,
    /// The retrieval scope is relaxed for now.
    pub scope_relaxed: bool,
    /// Output is converted to traditional characters.
    pub s2t_enabled: bool,
    /// Keys of the temporary pinyin mode.
    pub temp_pinyin_buffer: String,
    /// Lead of the temporary pinyin composition.
    pub temp_pinyin_prefix: String,
    /// Cursor in `temp_pinyin_buffer`.
    pub temp_pinyin_cursor: usize,
    /// Keys of the temporary English mode.
    pub temp_english_buffer: String,
    /// Lead of the temporary English composition.
    pub temp_english_prefix: String,
    /// Cursor in `temp_english_buffer`.
    pub temp_english_cursor: usize,
    /// Keys of a special mode.
    pub special_buffer: String,
    /// Lead of a special composition.
    pub special_prefix: String,
    /// Cursor in `special_buffer`.
    pub special_cursor: usize,
    /// Keys of a mix mode.
    pub mix_buffer: String,
    /// Lead of a mix composition.
    pub mix_prefix: String,
    /// Cursor in `mix_buffer`.
    pub mix_cursor: usize,
    /// Keys of the URL mode.
    pub url_buffer: String,
    /// Cursor in `url_buffer`.
    pub url_cursor: usize,
    /// Body the engine shows for a temporary pinyin or mix composition.
    pub overlay_body: String,
    /// The auxiliary-code session.
    pub aux_code: Option<AuxCodeOverlay>,
    /// The add-word panel is open.
    pub add_word_active: bool,
    /// Characters committed lately, oldest first.
    pub add_word_chars: Vec<char>,
    /// Characters of the word being added.
    pub add_word_len: usize,
    /// Code computed for it.
    pub add_word_code: String,
    /// Syllable boundaries of that code.
    pub add_word_boundary: u64,
    /// The word is taken from the clipboard.
    pub add_word_from_clip: bool,
    /// Clipboard characters, once they have been read.
    pub add_word_clip: Option<Vec<char>>,
}

impl State {
    /// Whether nothing is typed, chosen, shown or in force.
    pub open spec fn is_blank(self) -> bool {
        let s = self;
        &&& s.input_buffer@.len() == 0
        &&& s.input_buffer_cased@.len() == 0
        &&& s.input_cursor_pos == 0
        &&& s.preedit@.len() == 0
        &&& s.preedit_split_body@.len() == 0
        &&& s.preedit_fp_body@.len() == 0
        &&& s.preedit_abbrev_body@.len() == 0
        &&& s.preedit_codetable_body@.len() == 0
        &&& s.shadow_code@.len() == 0
        &&& s.committed_text@.len() == 0
        &&& s.committed_segs@.len() == 0
        &&& s.candidates@.len() == 0
        &&& s.candidate_input@.len() == 0
        &&& s.candidate_limit == 0
        &&& !s.has_more
        &&& s.current_page == 0
        &&& s.selected_index == 0
        &&& s.hover_index is None
        &&& s.active is None
        &&& !s.chinese_mode
        &&& !s.full_width
        &&& s.filter_mode == FilterMode::Smart
        &&& !s.scope_relaxed
        &&& !s.s2t_enabled
        &&& s.temp_pinyin_buffer@.len() == 0
        &&& s.temp_pinyin_prefix@.len() == 0
        &&& s.temp_pinyin_cursor == 0
        &&& s.temp_english_buffer@.len() == 0
        &&& s.temp_english_prefix@.len() == 0
        &&& s.temp_english_cursor == 0
        &&& s.special_buffer@.len() == 0
        &&& s.special_prefix@.len() == 0
        &&& s.special_cursor == 0
        &&& s.mix_buffer@.len() == 0
        &&& s.mix_prefix@.len() == 0
        &&& s.mix_cursor == 0
        &&& s.url_buffer@.len() == 0
        &&& s.url_cursor == 0
        &&& s.overlay_body@.len() == 0
        &&& s.aux_code is None
        &&& !s.add_word_active
        &&& s.add_word_chars@.len() == 0
        &&& s.add_word_len == 0
        &&& s.add_word_code@.len() == 0
        &&& s.add_word_boundary == 0
        &&& !s.add_word_from_clip
        &&& s.add_word_clip is None
    }

    /// A state with nothing typed and nothing shown.
    pub fn new() -> (s: Self)
        ensures
            s.is_blank(),
    {
        State {
            input_buffer: String::new(),
            input_buffer_cased: String::new(),
            input_cursor_pos: 0,
            preedit: String::new(),
            preedit_split_body: String::new(),
            preedit_fp_body: String::new(),
            preedit_abbrev_body: String::new(),
            preedit_codetable_body: String::new(),
            shadow_code: String::new(),
            committed_text: String::new(),
            committed_segs: Vec::new(),
            candidates: Vec::new(),
            candidate_input: String::new(),
            candidate_limit: 0,
            has_more: false,
            current_page: 0,
            selected_index: 0,
            hover_index: None,
            active: None,
            chinese_mode: false,
            full_width: false,
            filter_mode: FilterMode::Smart,
            scope_relaxed: false,
            s2t_enabled: false,
            temp_pinyin_buffer: String::new(),
            temp_pinyin_prefix: String::new(),
            temp_pinyin_cursor: 0,
            temp_english_buffer: String::new(),
            temp_english_prefix: String::new(),
            temp_english_cursor: 0,
            special_buffer: String::new(),
            special_prefix: String::new(),
            special_cursor: 0,
            mix_buffer: String::new(),
            mix_prefix: String::new(),
            mix_cursor: 0,
            url_buffer: String::new(),
            url_cursor: 0,
            overlay_body: String::new(),
            aux_code: None,
            add_word_active: false,
            add_word_chars: Vec::new(),
            add_word_len: 0,
            add_word_code: String::new(),
            add_word_boundary: 0,
            add_word_from_clip: false,
            add_word_clip: None,
        }
    }
}

/// A blank state has nothing typed, chosen or shown, no mode in force and every switch off.
pub proof fn a_blank_state_shows_nothing(s: State)
    requires
        s.is_blank(),
    ensures
        s.input_buffer@.len() == 0 && s.committed_text@.len() == 0 && s.committed_segs@.len() == 0,
        s.candidates@.len() == 0 && s.preedit@.len() == 0,
        s.current_page == 0 && s.selected_index == 0,
        s.active is None && s.aux_code is None,
        !s.chinese_mode && !s.full_width && !s.s2t_enabled && !s.scope_relaxed,
        s.filter_mode == FilterMode::Smart,
        !s.add_word_active && s.add_word_clip is None,
{
}

} // verus!

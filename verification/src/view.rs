//! What the user sees of a composition: pages, the highlight, the composition text
//! and its cursor, and how the list is refreshed.

use crate::candidate::{
    blank_candidate, models, opt_view, strings_view, Candidate, CandidateModel, CandidateSource,
};
use crate::coordinator::{reset_candidate_view, Coordinator, EngineType};
use crate::action::{Effect, EffectModel, Outbox};
use crate::keys::{VK_BACKTICK, VK_END, VK_HOME, VK_LEFT, VK_QUOTE, VK_RIGHT};
use crate::ranking::wants_codetable_split;
use crate::state::{seg_models, seg_texts, ModeKind, State};
use crate::text::{
    ascii_letter, byte_size, char_count, is_ascii_letter, joined, same,
};
use vstd::prelude::*;
use vstd::string::*;
use vstd::utf8::*;

verus! {

/// Most engine candidates ever asked for.
pub const MAX_CANDIDATE_LIMIT: usize = 5000;

/// What a cursor position is computed from: a fixed lead, the keys, the form they
/// are shown in, and the cursor among the keys.
#[derive(Debug)]
pub struct CaretParts {
    pub prefix: String,
    pub buffer: String,
    pub body: String,
    pub cursor: usize,
}

/// What [`CaretParts`] hold.
pub ghost struct CaretModel {
    pub prefix: Seq<char>,
    pub buffer: Seq<char>,
    pub body: Seq<char>,
    pub cursor: usize,
}

impl View for CaretParts {
    type V = CaretModel;

    open spec fn view(&self) -> CaretModel {
        CaretModel {
            prefix: self.prefix@,
            buffer: self.buffer@,
            body: self.body@,
            cursor: self.cursor,
        }
    }
}

/// How many engine candidates are asked for at first: short code-table inputs match
/// a great deal, so they start small.
pub fn initial_candidate_limit_of(engine_type: Option<EngineType>, input: &str) -> (r: usize)
    ensures
        r == (if engine_type != Some(EngineType::CodeTable) {
            300
        } else if input@.len() <= 1 {
            100
        } else if input@.len() == 2 {
            300
        } else {
            1000usize
        }),
        engine_type == Some(EngineType::CodeTable) ==> {
            &&& input@.len() < 2 ==> r == 100
            &&& input@.len() == 2 ==> r == 300
            &&& input@.len() > 2 ==> r == 1000
        },
        engine_type != Some(EngineType::CodeTable) ==> r == 300,
{
    let n = char_count(input);
    match engine_type {
        Some(EngineType::CodeTable) => if n <= 1 {
            100
        } else if n == 2 {
            300
        } else {
            1000
        },
        _ => 300,
    }
}

/// The keys candidate adjustments are kept under: the normal form the engine gave,
/// or the keys as typed.
pub open spec fn shadow_code_model(state: State) -> Seq<char> {
    if state.shadow_code@.len() == 0 {
        state.input_buffer@
    } else {
        state.shadow_code@
    }
}

/// The single characters a simplified character may turn into, and the one it turns
/// into by default.
#[derive(Debug)]
pub struct VariantReply {
    pub variants: Vec<String>,
    pub default_out: String,
}

/// Whether variants of `c` are listed: a single character with no fixed output that
/// is neither a command nor a group.
pub open spec fn takes_variants(c: CandidateModel) -> bool {
    !c.is_command && !c.is_group && c.s2t_override is None && c.text.len() == 1
}

/// `c` once for each variant that differs from the default output.
pub open spec fn variant_forms(c: CandidateModel, v: Seq<Seq<char>>, default_out: Seq<char>) -> Seq<
    CandidateModel,
>
    decreases v.len(),
{
    if v.len() == 0 {
        Seq::empty()
    } else if v.last() == default_out {
        variant_forms(c, v.drop_last(), default_out)
    } else {
        variant_forms(c, v.drop_last(), default_out).push(
            CandidateModel { s2t_override: Some(v.last()), ..c },
        )
    }
}

/// `s` with the variants of each single character right behind it.
pub open spec fn with_variants(s: Seq<CandidateModel>, replies: Seq<VariantReply>) -> Seq<
    CandidateModel,
>
    decreases s.len(),
{
    if s.len() == 0 || replies.len() < s.len() {
        Seq::empty()
    } else {
        let n = s.len() - 1;
        let front = with_variants(s.drop_last(), replies.take(n)).push(s.last());
        if takes_variants(s.last()) {
            front + variant_forms(
                s.last(),
                strings_view(replies[n].variants@),
                replies[n].default_out@,
            )
        } else {
            front
        }
    }
}

fn with_override(c: Candidate, out: &str) -> (r: Candidate)
    ensures
        r@ == (CandidateModel { s2t_override: Some(out@), ..c@ }),
{
    Candidate { s2t_override: Some(out.to_owned()), ..c }
}

fn push_variants(out: &mut Vec<Candidate>, c: &Candidate, reply: &VariantReply)
    ensures
        models(final(out)@) == models(old(out)@) + variant_forms(
            c@,
            strings_view(reply.variants@),
            reply.default_out@,
        ),
{
    let ghost before = models(out@);
    let ghost v = strings_view(reply.variants@);
    let ghost d = reply.default_out@;
    let mut i: usize = 0;
    assert(v.take(0) =~= Seq::empty());
    assert(models(out@) =~= before + variant_forms(c@, v.take(0), d));
    while i < reply.variants.len()
        invariant
            i <= reply.variants@.len(),
            v == strings_view(reply.variants@),
            d == reply.default_out@,
            models(out@) == before + variant_forms(c@, v.take(i as int), d),
        decreases reply.variants.len() - i,
    {
        proof {
            assert(v.take(i as int + 1).drop_last() =~= v.take(i as int));
            assert(v.take(i as int + 1).last() == reply.variants@[i as int]@);
        }
        if !same(reply.variants[i].as_str(), reply.default_out.as_str()) {
            let nc = with_override(c.clone(), reply.variants[i].as_str());
            let ghost prev = models(out@);
            out.push(nc);
            assert(models(out@) =~= prev.push(nc@));
            assert(models(out@) =~= before + variant_forms(c@, v.take(i as int + 1), d));
        }
        i = i + 1;
    }
    assert(v.take(v.len() as int) =~= v);
}

/// Lists the traditional variants of single characters behind them while conversion
/// is on; `replies` holds, for each candidate, what the conversion table says.
pub fn expand_s2t_variants(state: &mut State, replies: &Vec<VariantReply>)
    requires
        old(state).s2t_enabled ==> replies@.len() == old(state).candidates@.len(),
    ensures
        models(final(state).candidates@) == (if old(state).s2t_enabled {
            with_variants(models(old(state).candidates@), replies@)
        } else {
            models(old(state).candidates@)
        }),
        *final(state) == (State { candidates: final(state).candidates, ..*old(state) }),
{
    if !state.s2t_enabled {
        return;
    }
    let list = &state.candidates;
    let ghost m = models(list@);
    let mut out: Vec<Candidate> = Vec::new();
    let mut i: usize = 0;
    assert(models(out@) =~= Seq::empty());
    while i < list.len()
        invariant
            i <= list@.len(),
            m == models(list@),
            replies@.len() == list@.len(),
            models(out@) == with_variants(m.take(i as int), replies@.take(i as int)),
        decreases list.len() - i,
    {
        let c = &list[i];
        let ghost prev = models(out@);
        proof {
            let n = i as int + 1;
            assert(m.take(n).drop_last() =~= m.take(i as int));
            assert(m.take(n).last() == c@);
            assert(replies@.take(n).take(n - 1) =~= replies@.take(i as int));
        }
        let copy = c.clone();
        out.push(copy);
        assert(models(out@) =~= prev.push(c@));
        if !c.is_command && !c.is_group && c.s2t_override.is_none() && char_count(c.text.as_str())
            == 1 {
            push_variants(&mut out, c, &replies[i]);
        }
        i = i + 1;
    }
    assert(m.take(m.len() as int) =~= m);
    assert(replies@.take(m.len() as int) =~= replies@);
    state.candidates = out;
}

/// A list that holds no single character to convert is left as it is.
pub proof fn only_single_characters_get_variants(s: Seq<CandidateModel>, replies: Seq<VariantReply>)
    requires
        replies.len() == s.len(),
        forall|i: int| 0 <= i < s.len() ==> !takes_variants(#[trigger] s[i]),
    ensures
        with_variants(s, replies) == s,
    decreases s.len(),
{
    if s.len() > 0 {
        only_single_characters_get_variants(s.drop_last(), replies.take(s.len() - 1));
        assert(s.drop_last().push(s.last()) =~= s);
    } else {
        assert(with_variants(s, replies) =~= s);
    }
}

/// The cursor keys of an overlay composition.
#[derive(Clone, Copy, PartialEq, Eq, Structural, Debug)]
pub enum CursorMove {
    Left,
    Right,
    Home,
    End,
}

/// Whether `i` lies between characters of `s`.
pub open spec fn boundary_at(s: Seq<char>, i: int) -> bool {
    is_char_boundary(encode_utf8(s), i)
}

/// Whether `r` is where the cursor goes; nothing when it stays. Left and right move
/// over one character.
pub open spec fn cursor_goes(
    buffer: Seq<char>,
    cursor: usize,
    m: CursorMove,
    r: Option<usize>,
) -> bool {
    let end = byte_size(buffer);
    match m {
        CursorMove::Home => r == (if cursor == 0 {
            None
        } else {
            Some(0usize)
        }),
        CursorMove::End => r == (if cursor == end {
            None
        } else {
            Some(end)
        }),
        CursorMove::Left => {
            &&& r is None <==> cursor == 0
            &&& r matches Some(c) ==> {
                &&& c < cursor
                &&& c == 0 || boundary_at(buffer, c as int)
                &&& forall|k: int| c < k < cursor ==> !boundary_at(buffer, k)
            }
        },
        CursorMove::Right => {
            &&& r is None <==> cursor == end
            &&& r matches Some(c) ==> {
                &&& cursor < c <= end
                &&& c == end || boundary_at(buffer, c as int)
                &&& forall|k: int| cursor < k < c ==> !boundary_at(buffer, k)
            }
        },
    }
}

/// Where the cursor goes; nothing when it stays.
pub fn moved_cursor(buffer: &str, cursor: usize, m: CursorMove) -> (r: Option<usize>)
    requires
        cursor <= byte_size(buffer@),
        byte_size(buffer@) == encode_utf8(buffer@).len(),
    ensures
        cursor_goes(buffer@, cursor, m, r),
{
    let n: usize = buffer.len();
    match m {
        CursorMove::Home => if cursor == 0 {
            None
        } else {
            Some(0)
        },
        CursorMove::End => if cursor == n {
            None
        } else {
            Some(n)
        },
        CursorMove::Left => {
            if cursor == 0 {
                return None;
            }
            let mut c: usize = cursor - 1;
            while c > 0 && !buffer.is_char_boundary(c)
                invariant
                    c < cursor,
                    forall|k: int| c < k < cursor ==> !boundary_at(buffer@, k),
                decreases c,
            {
                c = c - 1;
            }
            Some(c)
        },
        CursorMove::Right => {
            if cursor >= n {
                return None;
            }
            let mut c: usize = cursor + 1;
            while c < n && !buffer.is_char_boundary(c)
                invariant
                    cursor < c <= n,
                    forall|k: int| cursor < k < c ==> !boundary_at(buffer@, k),
                decreases n - c,
            {
                c = c + 1;
            }
            Some(c)
        },
    }
}

/// Which buffer an overlay mode edits.
#[derive(Clone, Copy, PartialEq, Eq, Structural, Debug)]
pub enum OverlayBuffer {
    TempPinyin,
    TempEnglish,
    Url,
    Special,
    Mix,
}

/// Which buffer the mode in force edits: the rare-character mode shares the special
/// one, and an auxiliary code is only ever added to at its end.
pub fn overlay_buf_edit(state: &State) -> (r: Option<OverlayBuffer>)
    ensures
        r == (match state.active {
            Some(ModeKind::TempPinyin) => Some(OverlayBuffer::TempPinyin),
            Some(ModeKind::TempEnglish) => Some(OverlayBuffer::TempEnglish),
            Some(ModeKind::Url) => Some(OverlayBuffer::Url),
            Some(ModeKind::Special(_)) => Some(OverlayBuffer::Special),
            Some(ModeKind::RareChar) => Some(OverlayBuffer::Special),
            Some(ModeKind::Mix(_)) => Some(OverlayBuffer::Mix),
            Some(ModeKind::AuxCode) => None,
            None => None,
        }),
        r is Some <==> overlay_edit(*state) is Some,
        r matches Some(b) ==> edited_keys(*state) == (match b {
            OverlayBuffer::TempPinyin => state.temp_pinyin_buffer@,
            OverlayBuffer::TempEnglish => state.temp_english_buffer@,
            OverlayBuffer::Url => state.url_buffer@,
            OverlayBuffer::Special => state.special_buffer@,
            OverlayBuffer::Mix => state.mix_buffer@,
        }),
{
    match state.active {
        Some(ModeKind::TempPinyin) => Some(OverlayBuffer::TempPinyin),
        Some(ModeKind::TempEnglish) => Some(OverlayBuffer::TempEnglish),
        Some(ModeKind::Url) => Some(OverlayBuffer::Url),
        Some(ModeKind::Special(_)) => Some(OverlayBuffer::Special),
        Some(ModeKind::RareChar) => Some(OverlayBuffer::Special),
        Some(ModeKind::Mix(_)) => Some(OverlayBuffer::Mix),
        Some(ModeKind::AuxCode) => None,
        None => None,
    }
}

/// The cursor key a key code stands for.
pub open spec fn cursor_move_of(key_code: u32) -> Option<CursorMove> {
    if key_code == VK_LEFT {
        Some(CursorMove::Left)
    } else if key_code == VK_RIGHT {
        Some(CursorMove::Right)
    } else if key_code == VK_HOME {
        Some(CursorMove::Home)
    } else if key_code == VK_END {
        Some(CursorMove::End)
    } else {
        None
    }
}

/// The keys and the cursor of the mode in force; nothing where no cursor moves.
pub open spec fn overlay_edit(state: State) -> Option<(Seq<char>, usize)> {
    match state.active {
        Some(ModeKind::TempPinyin) => Some((state.temp_pinyin_buffer@, state.temp_pinyin_cursor)),
        Some(ModeKind::TempEnglish) => Some(
            (state.temp_english_buffer@, state.temp_english_cursor),
        ),
        Some(ModeKind::Url) => Some((state.url_buffer@, state.url_cursor)),
        Some(ModeKind::Special(_)) | Some(ModeKind::RareChar) => Some(
            (state.special_buffer@, state.special_cursor),
        ),
        Some(ModeKind::Mix(_)) => Some((state.mix_buffer@, state.mix_cursor)),
        Some(ModeKind::AuxCode) | None => None,
    }
}

/// The keys of the mode in force; none where no cursor moves.
pub open spec fn edited_keys(state: State) -> Seq<char> {
    match overlay_edit(state) {
        Some((keys, _)) => keys,
        None => Seq::empty(),
    }
}

/// The state with the cursor of the mode in force elsewhere.
pub open spec fn with_overlay_cursor(state: State, c: usize) -> State {
    match state.active {
        Some(ModeKind::TempPinyin) => State { temp_pinyin_cursor: c, ..state },
        Some(ModeKind::TempEnglish) => State { temp_english_cursor: c, ..state },
        Some(ModeKind::Url) => State { url_cursor: c, ..state },
        Some(ModeKind::Special(_)) | Some(ModeKind::RareChar) => State {
            special_cursor: c,
            ..state
        },
        Some(ModeKind::Mix(_)) => State { mix_cursor: c, ..state },
        Some(ModeKind::AuxCode) | None => state,
    }
}

/// Moves the cursor of an overlay composition. `None` means that the key is none of
/// the cursor keys, or that there is no cursor to move; else the result says whether
/// the cursor moved. A key that moves nothing is still taken, so that the
/// application's cursor does not leave the composition.
pub fn overlay_cursor_key(state: &mut State, key_code: u32, out: &mut Outbox) -> (r: Option<bool>)
    requires
        overlay_edit(*old(state)) matches Some(e) ==> e.1 <= byte_size(e.0) && byte_size(e.0)
            == encode_utf8(e.0).len(),
    ensures
        r is Some == (cursor_move_of(key_code) is Some && overlay_edit(*old(state)) is Some),
        r != Some(true) ==> *final(state) == *old(state) && final(out)@ == old(out)@,
        r matches Some(moved) ==> {
            let e = overlay_edit(*old(state))->0;
            let (_, at) = overlay_edit(*final(state))->0;
            &&& cursor_goes(
                e.0,
                e.1,
                cursor_move_of(key_code)->0,
                if moved {
                    Some(at)
                } else {
                    None
                },
            )
            &&& moved ==> {
                &&& *final(state) == with_overlay_cursor(*old(state), at)
                &&& final(out)@ == old(out)@.push(EffectModel::UiUpdate)
            }
        },
{
    let m = if key_code == VK_LEFT {
        CursorMove::Left
    } else if key_code == VK_RIGHT {
        CursorMove::Right
    } else if key_code == VK_HOME {
        CursorMove::Home
    } else if key_code == VK_END {
        CursorMove::End
    } else {
        return None;
    };
    let which = match overlay_buf_edit(state) {
        Some(b) => b,
        None => {
            return None;
        },
    };
    let to = match which {
        OverlayBuffer::TempPinyin => moved_cursor(
            state.temp_pinyin_buffer.as_str(),
            state.temp_pinyin_cursor,
            m,
        ),
        OverlayBuffer::TempEnglish => moved_cursor(
            state.temp_english_buffer.as_str(),
            state.temp_english_cursor,
            m,
        ),
        OverlayBuffer::Url => moved_cursor(state.url_buffer.as_str(), state.url_cursor, m),
        OverlayBuffer::Special => moved_cursor(
            state.special_buffer.as_str(),
            state.special_cursor,
            m,
        ),
        OverlayBuffer::Mix => moved_cursor(state.mix_buffer.as_str(), state.mix_cursor, m),
    };
    let c: usize = match to {
        Some(c) => c,
        None => {
            return Some(false);
        },
    };
    match which {
        OverlayBuffer::TempPinyin => {
            state.temp_pinyin_cursor = c;
        },
        OverlayBuffer::TempEnglish => {
            state.temp_english_cursor = c;
        },
        OverlayBuffer::Url => {
            state.url_cursor = c;
        },
        OverlayBuffer::Special => {
            state.special_cursor = c;
        },
        OverlayBuffer::Mix => {
            state.mix_cursor = c;
        },
    }
    out.put(Effect::UiUpdate);
    Some(true)
}

/// Where the cursor of an overlay composition is: at `at`, which is what its parts come
/// to, and at the end of the text in ordinary input.
pub fn overlay_caret(state: &State, at: u32) -> (r: u32)
    ensures
        r == (if overlay_caret_model(*state) is Some {
            at
        } else {
            state.preedit@.len() as u32
        }),
        state.active is None ==> r == state.preedit@.len() as u32,
        overlay_edit(*state) is Some ==> r == at,
{
    match overlay_caret_parts(state) {
        Some(_) => at,
        None => {
            let n: usize = char_count(state.preedit.as_str());
            n as u32
        },
    }
}

/// The place a row or a character named by its number has, counted from 0.
pub fn offset_of_ordinal(ordinal: Option<u8>) -> (r: Option<usize>)
    requires
        ordinal matches Some(n) ==> n >= 1,
    ensures
        r == (match ordinal {
            Some(n) => Some((n - 1) as usize),
            None => None,
        }),
        ordinal matches Some(n) ==> (r matches Some(i) && i + 1 == n),
        ordinal is None ==> r is None,
{
    match ordinal {
        Some(n) => Some(n as usize - 1),
        None => None,
    }
}

/// The parts of the cursor position of an overlay composition.
pub open spec fn overlay_caret_model(state: State) -> Option<CaretModel> {
    match state.active {
        Some(ModeKind::TempPinyin) => Some(
            CaretModel {
                prefix: state.temp_pinyin_prefix@ + state.committed_text@,
                buffer: state.temp_pinyin_buffer@,
                body: state.overlay_body@,
                cursor: state.temp_pinyin_cursor,
            },
        ),
        Some(ModeKind::Mix(_)) => Some(
            CaretModel {
                prefix: state.mix_prefix@ + state.committed_text@,
                buffer: state.mix_buffer@,
                body: state.overlay_body@,
                cursor: state.mix_cursor,
            },
        ),
        Some(ModeKind::TempEnglish) => Some(
            CaretModel {
                prefix: state.temp_english_prefix@,
                buffer: state.temp_english_buffer@,
                body: state.temp_english_buffer@,
                cursor: state.temp_english_cursor,
            },
        ),
        Some(ModeKind::Special(_)) | Some(ModeKind::RareChar) => Some(
            CaretModel {
                prefix: state.special_prefix@,
                buffer: state.special_buffer@,
                body: state.special_buffer@,
                cursor: state.special_cursor,
            },
        ),
        Some(ModeKind::Url) => Some(
            CaretModel {
                prefix: Seq::empty(),
                buffer: state.url_buffer@,
                body: state.url_buffer@,
                cursor: state.url_cursor,
            },
        ),
        Some(ModeKind::AuxCode) => match state.aux_code {
            Some(o) => Some(
                CaretModel {
                    prefix: o.preedit_prefix@,
                    buffer: o.buffer@,
                    body: o.buffer@,
                    cursor: byte_size(o.buffer@),
                },
            ),
            None => None,
        },
        None => None,
    }
}

/// The parts of the cursor position of an overlay composition; nothing in ordinary
/// input.
pub fn overlay_caret_parts(state: &State) -> (r: Option<CaretParts>)
    ensures
        (match r {
            Some(p) => Some(p@),
            None => None,
        }) == overlay_caret_model(*state),
{
    match state.active {
        None => None,
        Some(ModeKind::TempPinyin) => Some(
            CaretParts {
                prefix: joined(state.temp_pinyin_prefix.as_str(), state.committed_text.as_str()),
                buffer: state.temp_pinyin_buffer.clone(),
                body: state.overlay_body.clone(),
                cursor: state.temp_pinyin_cursor,
            },
        ),
        Some(ModeKind::Mix(_)) => Some(
            CaretParts {
                prefix: joined(state.mix_prefix.as_str(), state.committed_text.as_str()),
                buffer: state.mix_buffer.clone(),
                body: state.overlay_body.clone(),
                cursor: state.mix_cursor,
            },
        ),
        Some(ModeKind::TempEnglish) => Some(
            CaretParts {
                prefix: state.temp_english_prefix.clone(),
                buffer: state.temp_english_buffer.clone(),
                body: state.temp_english_buffer.clone(),
                cursor: state.temp_english_cursor,
            },
        ),
        Some(ModeKind::Special(_)) | Some(ModeKind::RareChar) => Some(
            CaretParts {
                prefix: state.special_prefix.clone(),
                buffer: state.special_buffer.clone(),
                body: state.special_buffer.clone(),
                cursor: state.special_cursor,
            },
        ),
        Some(ModeKind::Url) => Some(
            CaretParts {
                prefix: String::new(),
                buffer: state.url_buffer.clone(),
                body: state.url_buffer.clone(),
                cursor: state.url_cursor,
            },
        ),
        Some(ModeKind::AuxCode) => match &state.aux_code {
            Some(o) => {
                let n: usize = o.buffer.as_str().len();
                Some(
                    CaretParts {
                        prefix: o.preedit_prefix.clone(),
                        buffer: o.buffer.clone(),
                        body: o.buffer.clone(),
                        cursor: n,
                    },
                )
            },
            None => None,
        },
    }
}

/// Where a candidate of the page is committed.
#[derive(Clone, Copy, PartialEq, Eq, Structural, Debug)]
pub enum PageChoice {
    /// By the temporary pinyin mode.
    TempPinyin { index: usize },
    /// By the temporary English mode.
    TempEnglish { index: usize },
    /// By a special mode.
    Special { index: usize },
    /// By a mix mode, which counts from the start of the page.
    Mix { offset: usize },
    /// By the auxiliary-code mode.
    AuxCode { index: usize },
    /// By ordinary input.
    Main { index: usize },
}

/// What a modifier key that is released comes to.
#[derive(Clone, Copy, PartialEq, Eq, Structural, Debug)]
pub enum KeyUpChoice {
    /// It is left to others.
    Leave,
    /// It is swallowed.
    Swallow,
    /// It commits a candidate.
    Select(PageChoice),
}

/// What decides whether a key is a syllable separator.
#[derive(Debug)]
pub struct SeparatorFacts {
    pub is_pinyin: bool,
    /// Whole sentences are input in the code table.
    pub sentence_input: bool,
    /// `none`, `quote`, `backtick`, or anything else for a free key.
    pub mode: String,
    /// The quote key selects nothing and is bound to nothing.
    pub quote_free: bool,
    /// The backtick key selects nothing and is bound to nothing.
    pub backtick_free: bool,
}

/// Whether a key is a syllable separator.
pub open spec fn separates(key_code: u32, f: SeparatorFacts) -> bool {
    if !f.is_pinyin && !f.sentence_input {
        false
    } else if f.mode@ == "none"@ {
        false
    } else if f.mode@ == "quote"@ {
        key_code == VK_QUOTE
    } else if f.mode@ == "backtick"@ {
        key_code == VK_BACKTICK
    } else if f.quote_free {
        key_code == VK_QUOTE
    } else {
        key_code == VK_BACKTICK && f.backtick_free
    }
}

/// Whether a key is a syllable separator: the key the user named, or else the first
/// of quote and backtick that has no other use.
pub fn manual_separator_key_of(key_code: u32, f: &SeparatorFacts) -> (r: bool)
    ensures
        r == separates(key_code, *f),
{
    if !f.is_pinyin && !f.sentence_input {
        return false;
    }
    let mode = f.mode.as_str();
    if same(mode, "none") {
        false
    } else if same(mode, "quote") {
        key_code == VK_QUOTE
    } else if same(mode, "backtick") {
        key_code == VK_BACKTICK
    } else if f.quote_free {
        key_code == VK_QUOTE
    } else {
        key_code == VK_BACKTICK && f.backtick_free
    }
}

/// A key that has another use is never taken as a separator unless the user named
/// it.
pub proof fn separators_never_take_a_used_key(key_code: u32, f: SeparatorFacts)
    requires
        f.mode@ != "quote"@,
        f.mode@ != "backtick"@,
        separates(key_code, f),
    ensures
        key_code == VK_QUOTE ==> f.quote_free,
        key_code == VK_BACKTICK ==> f.backtick_free,
        key_code == VK_QUOTE || key_code == VK_BACKTICK,
{
}

impl Coordinator {
    /// Candidates on a page of the mode in force: an auxiliary code narrows the
    /// ordinary list, so it keeps the ordinary page.
    pub open spec fn page_size(self, active: Option<ModeKind>) -> usize {
        if active is None || active == Some(ModeKind::AuxCode) || self.settings.per_page_extended
            == 0 {
            self.settings.per_page
        } else {
            self.settings.per_page_extended
        }
    }

    /// Candidates on a page of the mode in force.
    pub fn per_page(&self, active: Option<ModeKind>) -> (r: usize)
        ensures
            r == self.page_size(active),
    {
        let main = match active {
            None => true,
            Some(m) => m == ModeKind::AuxCode,
        };
        if main || self.settings.per_page_extended == 0 {
            self.settings.per_page
        } else {
            self.settings.per_page_extended
        }
    }

    /// Whether the end of the page shown can be counted in machine integers.
    pub open spec fn page_fits(self, state: State) -> bool {
        state.current_page * self.page_size(state.active) + self.page_size(state.active)
            <= usize::MAX
    }

    /// Whether the page and the row shown can be counted in machine integers.
    pub open spec fn paging_fits(self, state: State) -> bool {
        state.current_page * self.page_size(state.active) + self.page_size(state.active)
            + state.selected_index <= usize::MAX
    }

    /// The first candidate of the page.
    pub open spec fn page_start(self, state: State) -> int {
        state.current_page * self.page_size(state.active)
    }

    /// The end of the page: one past its last candidate.
    pub open spec fn page_end(self, state: State) -> int {
        if self.page_start(state) + self.page_size(state.active) <= state.candidates@.len() {
            self.page_start(state) + self.page_size(state.active)
        } else {
            state.candidates@.len() as int
        }
    }

    /// The range of candidates on the page.
    pub fn page_range(&self, state: &State) -> (r: (usize, usize))
        requires
            self.page_fits(*state),
        ensures
            r.0 == self.page_start(*state),
            r.1 == self.page_end(*state),
    {
        let pp = self.per_page(state.active);
        proof {
            assert(0 <= state.current_page * pp) by (nonlinear_arith)
                requires
                    0 <= state.current_page,
                    0 <= pp,
            ;
        }
        let start: usize = state.current_page * pp;
        let end: usize = if start + pp <= state.candidates.len() {
            start + pp
        } else {
            state.candidates.len()
        };
        (start, end)
    }

    /// The highlighted candidate, counted over all pages.
    pub open spec fn highlight(self, state: State) -> int {
        self.page_start(state) + state.selected_index
    }

    /// The highlighted candidate, counted over all pages.
    pub fn highlighted_global_index(&self, state: &State) -> (r: usize)
        requires
            self.paging_fits(*state),
        ensures
            r == self.highlight(*state),
    {
        let (start, _) = self.page_range(state);
        start + state.selected_index
    }

    /// The form the input is shown in: the code units of a highlighted code-table
    /// sentence; the keys when there is no syllable split; the syllables while part of
    /// the input is converted; else the form that fits the highlighted candidate.
    pub open spec fn preedit_body(self, state: State) -> Seq<char> {
        let hi = self.highlight(state);
        let cand = if 0 <= hi < state.candidates@.len() {
            Some(state.candidates@[hi])
        } else {
            None
        };
        if state.preedit_codetable_body@.len() > 0 && cand is Some && cand->0.is_sentence
            && cand->0.source == CandidateSource::CodeTable {
            state.preedit_codetable_body@
        } else if state.preedit_split_body@.len() == 0 {
            state.input_buffer@
        } else if state.committed_text@.len() > 0 {
            state.preedit_split_body@
        } else if state.preedit_abbrev_body@.len() > 0 && cand is Some && cand->0.is_abbrev {
            state.preedit_abbrev_body@
        } else if state.preedit_fp_body@.len() > 0 && cand is Some
            && cand->0.is_fullpinyin_fallback {
            state.preedit_fp_body@
        } else if cand is None || cand->0.source == CandidateSource::Pinyin {
            state.preedit_split_body@
        } else {
            state.input_buffer@
        }
    }

    /// The form the input is shown in.
    pub fn effective_preedit_body(&self, state: &State) -> (r: String)
        requires
            self.paging_fits(*state),
        ensures
            r@ == self.preedit_body(*state),
    {
        let hi = self.highlighted_global_index(state);
        let cand: Option<&Candidate> = if hi < state.candidates.len() {
            Some(&state.candidates[hi])
        } else {
            None
        };
        if wants_codetable_split(state.preedit_codetable_body.as_str(), cand) {
            return state.preedit_codetable_body.clone();
        }
        if state.preedit_split_body.as_str().is_empty() {
            return state.input_buffer.clone();
        }
        if !state.committed_text.as_str().is_empty() {
            return state.preedit_split_body.clone();
        }
        match cand {
            None => state.preedit_split_body.clone(),
            Some(c) => if !state.preedit_abbrev_body.as_str().is_empty() && c.is_abbrev {
                state.preedit_abbrev_body.clone()
            } else if !state.preedit_fp_body.as_str().is_empty() && c.is_fullpinyin_fallback {
                state.preedit_fp_body.clone()
            } else if c.source == CandidateSource::Pinyin {
                state.preedit_split_body.clone()
            } else {
                state.input_buffer.clone()
            },
        }
    }

    /// Shows the composition: what is chosen already, then `body`, which is the form
    /// of the input with the capitals the user typed.
    pub fn sync_preedit_to_highlight(state: &mut State, body: &str)
        ensures
            final(state).preedit@ == old(state).committed_text@ + body@,
            *final(state) == (State { preedit: final(state).preedit, ..*old(state) }),
            old(state).committed_text@.is_prefix_of(final(state).preedit@),
            final(state).preedit@.len() == old(state).committed_text@.len() + body@.len(),
            final(state).input_buffer == old(state).input_buffer,
    {
        state.preedit = joined(state.committed_text.as_str(), body);
    }

    /// The parts of the cursor position of ordinary input.
    pub fn composition_caret(&self, state: &State) -> (r: CaretParts)
        requires
            self.paging_fits(*state),
        ensures
            r@ == (CaretModel {
                prefix: state.committed_text@,
                buffer: state.input_buffer@,
                body: self.preedit_body(*state),
                cursor: state.input_cursor_pos,
            }),
            r.prefix@ == state.committed_text@,
            r.buffer@ == state.input_buffer@,
            r.cursor == state.input_cursor_pos,
    {
        CaretParts {
            prefix: state.committed_text.clone(),
            buffer: state.input_buffer.clone(),
            body: self.effective_preedit_body(state),
            cursor: state.input_cursor_pos,
        }
    }

    /// The parts of the cursor position of whatever is being composed.
    pub fn ui_caret_bytes(&self, state: &State) -> (r: CaretParts)
        requires
            self.paging_fits(*state),
        ensures
            r@ == (match overlay_caret_model(*state) {
                Some(p) => p,
                None => CaretModel {
                    prefix: state.committed_text@,
                    buffer: state.input_buffer@,
                    body: self.preedit_body(*state),
                    cursor: state.input_cursor_pos,
                },
            }),
            state.active is None ==> r.prefix@ == state.committed_text@ && r.buffer@ == state.input_buffer@
                && r.cursor == state.input_cursor_pos,
            overlay_edit(*state) matches Some(e) ==> r.buffer@ == e.0 && r.cursor == e.1,
    {
        match overlay_caret_parts(state) {
            Some(p) => p,
            None => self.composition_caret(state),
        }
    }

    /// The keys candidate adjustments are kept under.
    pub fn shadow_code_of(state: &State) -> (r: String)
        ensures
            r@ == shadow_code_model(*state),
    {
        if state.shadow_code.as_str().is_empty() {
            state.input_buffer.clone()
        } else {
            state.shadow_code.clone()
        }
    }

    /// Empties the list before the input is converted anew. Without input nothing is
    /// left to convert, and the composition shows what is chosen already.
    pub fn begin_update(state: &mut State) -> (convert: bool)
        ensures
            convert == (old(state).input_buffer@.len() > 0),
            final(state).candidates@.len() == 0,
            final(state).preedit@ == (if convert {
                old(state).input_buffer@
            } else {
                old(state).committed_text@
            }),
            final(state).preedit_split_body@.len() == 0,
            final(state).preedit_fp_body@.len() == 0,
            final(state).preedit_abbrev_body@.len() == 0,
            final(state).preedit_codetable_body@.len() == 0,
            final(state).shadow_code@.len() == 0,
            final(state).has_more == (convert && old(state).has_more),
            final(state).candidate_input@ == (if convert {
                old(state).candidate_input@
            } else {
                Seq::empty()
            }),
            *final(state) == (State {
                candidates: final(state).candidates,
                preedit: final(state).preedit,
                preedit_split_body: final(state).preedit_split_body,
                preedit_fp_body: final(state).preedit_fp_body,
                preedit_abbrev_body: final(state).preedit_abbrev_body,
                preedit_codetable_body: final(state).preedit_codetable_body,
                shadow_code: final(state).shadow_code,
                has_more: final(state).has_more,
                candidate_input: final(state).candidate_input,
                ..*old(state)
            }),
            old(state).input_buffer@.len() == 0 ==> !convert && final(state).preedit@ == old(
                state,
            ).committed_text@ && !final(state).has_more,
            old(state).input_buffer@.len() > 0 ==> convert && final(state).preedit@ == old(state).input_buffer@,
            final(state).input_buffer == old(state).input_buffer,
            final(state).committed_text == old(state).committed_text,
    {
        state.candidates = Vec::new();
        state.preedit = state.input_buffer.clone();
        state.preedit_split_body = String::new();
        state.preedit_fp_body = String::new();
        state.preedit_abbrev_body = String::new();
        state.preedit_codetable_body = String::new();
        state.shadow_code = String::new();
        if state.input_buffer.as_str().is_empty() {
            state.has_more = false;
            state.candidate_input = String::new();
            state.preedit = state.committed_text.clone();
            return false;
        }
        true
    }

    /// The text that repeats the last commit when the leading letter is typed alone.
    ///
    /// The `z` switch offers the newest commit whatever else is found. A letter bound
    /// to a mix that repeats only fills a frame that would otherwise be empty.
    pub open spec fn repeat_text(
        self,
        buffer: Seq<char>,
        frame_empty: bool,
        mix_repeats: bool,
    ) -> Option<Seq<char>> {
        let h = self.history();
        if buffer.len() != 1 || !ascii_letter(buffer[0]) {
            None
        } else if buffer[0] == 'z' && self.z_repeats() && h.len() > 0 {
            Some(h[0])
        } else if frame_empty && mix_repeats {
            first_nonempty(h)
        } else {
            None
        }
    }

    /// Whether `z` repeats the last commit: a code-table or mixed engine with the
    /// switch on.
    pub open spec fn z_repeats(self) -> bool {
        (self.engine.engine_type == Some(EngineType::CodeTable) || self.engine.engine_type == Some(
            EngineType::Mixed,
        )) && self.engine.codetable.z_key_repeat
    }

    /// The newest commit when `z` repeats it.
    pub fn z_key_repeat_text(&self) -> (r: Option<String>)
        ensures
            opt_view(r) == (if self.z_repeats() && self.history().len() > 0 {
                Some(self.history()[0])
            } else {
                None
            }),
            self.history().len() > 0 ==> opt_view(r) == self.repeat_text(seq!['z'], false, false),
    {
        let fits = match self.engine.engine_type {
            Some(EngineType::CodeTable) => true,
            Some(EngineType::Mixed) => true,
            _ => false,
        };
        if fits && self.engine.codetable.z_key_repeat && self.recent_commits.len() > 0 {
            let t = self.recent_commits[0].clone();
            assert(t@ == self.history()[0]);
            Some(t)
        } else {
            None
        }
    }

    /// The newest commit that is not empty.
    fn first_in_history(&self) -> (r: Option<String>)
        ensures
            opt_view(r) == first_nonempty(self.history()),
    {
        let ghost h = self.history();
        let mut i: usize = 0;
        assert(h.skip(0) =~= h);
        while i < self.recent_commits.len()
            invariant
                i <= self.recent_commits@.len(),
                h == self.history(),
                first_nonempty(h) == first_nonempty(h.skip(i as int)),
            decreases self.recent_commits.len() - i,
        {
            let t = &self.recent_commits[i];
            assert(h.skip(i as int)[0] == t@);
            if !t.as_str().is_empty() {
                return Some(t.clone());
            }
            assert(h.skip(i as int).drop_first() =~= h.skip(i as int + 1));
            i = i + 1;
        }
        None
    }

    /// The text that repeats the last commit when the leading letter is typed alone.
    pub fn leading_letter_repeat_text(&self, buffer: &str, frame_empty: bool, mix_repeats: bool) -> (r:
        Option<String>)
        ensures
            opt_view(r) == self.repeat_text(buffer@, frame_empty, mix_repeats),
    {
        if char_count(buffer) != 1 {
            return None;
        }
        let c = buffer.get_char(0);
        if !is_ascii_letter(c) {
            return None;
        }
        if c == 'z' {
            let t = self.z_key_repeat_text();
            if t.is_some() {
                return t;
            }
        }
        if !frame_empty || !mix_repeats {
            return None;
        }
        self.first_in_history()
    }

    /// Finishes an update once the list is installed: the repeated commit leads it,
    /// and the page and the highlight go back to the start.
    pub fn finish_update(&self, state: &mut State, engine_count: usize, limit: usize, mix_repeats: bool)
        ensures
            ({
                let s = models(old(state).candidates@);
                let rep = self.repeat_text(old(state).input_buffer@, s.len() == 0, mix_repeats);
                models(final(state).candidates@) == (match rep {
                    Some(t) => seq![repeated(t)] + s,
                    None => s,
                })
            }),
            final(state).candidate_input@ == old(state).input_buffer@,
            final(state).candidate_limit == limit,
            final(state).has_more == (engine_count >= limit),
            *final(state) == (State {
                candidates: final(state).candidates,
                candidate_input: final(state).candidate_input,
                candidate_limit: limit,
                has_more: final(state).has_more,
                current_page: 0,
                selected_index: 0,
                hover_index: None,
                ..*old(state)
            }),
            engine_count >= limit <==> final(state).has_more,
            final(state).candidates@.len() >= old(state).candidates@.len(),
            old(state).input_buffer@.len() != 1 ==> models(final(state).candidates@) == models(
                old(state).candidates@,
            ),
            final(state).current_page == 0 && final(state).selected_index == 0,
    {
        let empty = state.candidates.len() == 0;
        match self.leading_letter_repeat_text(state.input_buffer.as_str(), empty, mix_repeats) {
            Some(t) => {
                let c = repeat_candidate(t);
                let ghost s = models(state.candidates@);
                state.candidates.insert(0, c);
                assert(models(state.candidates@) =~= seq![c@] + s);
            },
            None => {},
        }
        state.candidate_input = state.input_buffer.clone();
        state.candidate_limit = limit;
        state.has_more = engine_count >= limit;
        reset_candidate_view(state);
    }

    /// How many candidates to load when the end of the list is reached: twice as many
    /// as before. Nothing when there are no more, when the list belongs to another
    /// input, or while an auxiliary code narrows it.
    pub fn begin_expand(state: &mut State) -> (r: Option<usize>)
        ensures
            ({
                let s = *old(state);
                let doubled = if 2 * s.candidate_limit <= MAX_CANDIDATE_LIMIT {
                    2 * s.candidate_limit
                } else {
                    MAX_CANDIDATE_LIMIT as int
                };
                let may = s.has_more && s.candidate_input@ == s.input_buffer@ && s.active != Some(
                    ModeKind::AuxCode,
                );
                &&& r == (if may && doubled > s.candidate_limit {
                    Some(doubled as usize)
                } else {
                    None
                })
                &&& *final(state) == (State {
                    has_more: s.has_more && !(may && doubled <= s.candidate_limit),
                    ..s
                })
            }),
            r matches Some(n) ==> {
                &&& old(state).has_more
                &&& old(state).candidate_input@ == old(state).input_buffer@
                &&& old(state).active != Some(ModeKind::AuxCode)
                &&& old(state).candidate_limit < n <= 2 * old(state).candidate_limit
                &&& n <= 5000
                &&& n < 5000 ==> n == 2 * old(state).candidate_limit
            },
            old(state).has_more && old(state).candidate_input@ == old(state).input_buffer@ && old(
                state,
            ).active != Some(ModeKind::AuxCode) && 0 < old(state).candidate_limit < 5000 ==> r
                is Some,
            r is Some ==> *final(state) == *old(state),
            final(state).has_more ==> old(state).has_more,
    {
        if !state.has_more || !same(state.candidate_input.as_str(), state.input_buffer.as_str()) {
            return None;
        }
        let aux = match state.active {
            Some(m) => m == ModeKind::AuxCode,
            None => false,
        };
        if aux {
            return None;
        }
        let limit = state.candidate_limit;
        let new_limit: usize = if limit <= MAX_CANDIDATE_LIMIT / 2 {
            limit * 2
        } else {
            MAX_CANDIDATE_LIMIT
        };
        if new_limit <= limit {
            state.has_more = false;
            return None;
        }
        Some(new_limit)
    }

    /// Finishes an expansion once the longer list is installed: without growth the
    /// end is reached, and the old limit stays.
    pub fn finish_expand(
        state: &mut State,
        prev_len: usize,
        engine_count: usize,
        new_limit: usize,
    ) -> (grown: bool)
        ensures
            grown == (old(state).candidates@.len() > prev_len),
            *final(state) == (if grown {
                State {
                    candidate_limit: new_limit,
                    has_more: engine_count >= new_limit,
                    ..*old(state)
                }
            } else {
                State { has_more: false, ..*old(state) }
            }),
            grown ==> final(state).candidate_limit == new_limit && (final(state).has_more
                <==> engine_count >= new_limit),
            !grown ==> final(state).candidate_limit == old(state).candidate_limit,
            !grown ==> !final(state).has_more,
            grown <==> final(state).candidates@.len() > prev_len,
    {
        if state.candidates.len() <= prev_len {
            state.has_more = false;
            return false;
        }
        state.candidate_limit = new_limit;
        state.has_more = engine_count >= new_limit;
        true
    }

    /// Which mode commits row `offset` of the page; nothing beyond the page, and
    /// nothing in the URL mode, which lists nothing.
    pub open spec fn page_choice(self, state: State, offset: int) -> Option<PageChoice> {
        let gi = self.page_start(state) + offset;
        if gi >= self.page_end(state) {
            None
        } else {
            match state.active {
                Some(ModeKind::TempPinyin) => Some(PageChoice::TempPinyin { index: gi as usize }),
                Some(ModeKind::TempEnglish) => Some(PageChoice::TempEnglish { index: gi as usize }),
                Some(ModeKind::Special(_)) | Some(ModeKind::RareChar) => Some(
                    PageChoice::Special { index: gi as usize },
                ),
                Some(ModeKind::Mix(_)) => Some(PageChoice::Mix { offset: offset as usize }),
                Some(ModeKind::Url) => None,
                Some(ModeKind::AuxCode) => Some(PageChoice::AuxCode { index: gi as usize }),
                None => Some(PageChoice::Main { index: gi as usize }),
            }
        }
    }

    /// Which mode commits row `offset` of the page.
    pub fn select_page_candidate(&self, state: &State, offset: usize) -> (r: Option<PageChoice>)
        requires
            self.page_fits(*state),
        ensures
            r == self.page_choice(*state, offset as int),
    {
        let (start, end) = self.page_range(state);
        if start >= end || offset >= end - start {
            return None;
        }
        let gi: usize = start + offset;
        match state.active {
            Some(ModeKind::TempPinyin) => Some(PageChoice::TempPinyin { index: gi }),
            Some(ModeKind::TempEnglish) => Some(PageChoice::TempEnglish { index: gi }),
            Some(ModeKind::Special(_)) | Some(ModeKind::RareChar) => Some(
                PageChoice::Special { index: gi },
            ),
            Some(ModeKind::Mix(_)) => Some(PageChoice::Mix { offset }),
            Some(ModeKind::Url) => None,
            Some(ModeKind::AuxCode) => Some(PageChoice::AuxCode { index: gi }),
            None => Some(PageChoice::Main { index: gi }),
        }
    }

    /// What a modifier key bound to a row comes to when it is released: with
    /// candidates on screen it selects, or is swallowed beyond the page, and never
    /// falls through to switching the language.
    pub fn handle_select_key_up(&self, state: &State, key_up_only: bool, offset: Option<usize>) -> (r:
        KeyUpChoice)
        requires
            self.page_fits(*state),
        ensures
            r == (if !key_up_only || offset is None || !state.chinese_mode
                || state.candidates@.len() == 0 {
                KeyUpChoice::Leave
            } else {
                match self.page_choice(*state, offset->0 as int) {
                    Some(c) => KeyUpChoice::Select(c),
                    None => KeyUpChoice::Swallow,
                }
            }),
            r is Leave <==> !(key_up_only && offset is Some && state.chinese_mode
                && state.candidates@.len() > 0),
            r matches KeyUpChoice::Select(c) ==> self.page_choice(*state, offset->0 as int) == Some(c),
            r is Swallow ==> self.page_choice(*state, offset->0 as int) is None,
    {
        if !key_up_only {
            return KeyUpChoice::Leave;
        }
        match offset {
            None => KeyUpChoice::Leave,
            Some(offset) => {
                if !state.chinese_mode || state.candidates.len() == 0 {
                    return KeyUpChoice::Leave;
                }
                match self.select_page_candidate(state, offset) {
                    Some(c) => KeyUpChoice::Select(c),
                    None => KeyUpChoice::Swallow,
                }
            },
        }
    }

    /// Whether printable keys turn pages in the mode in force: always where they are
    /// never input, as the mix says, and in temporary English unless the character is
    /// one the user types there.
    pub fn nav_include_printable(
        state: &State,
        mix_printable: bool,
        typed_symbol_allowed: Option<bool>,
    ) -> (r: bool)
        ensures
            r == (match state.active {
                Some(ModeKind::Special(_)) | Some(ModeKind::RareChar) | Some(
                    ModeKind::TempPinyin,
                ) => true,
                Some(ModeKind::Mix(_)) => mix_printable,
                Some(ModeKind::TempEnglish) => typed_symbol_allowed != Some(true),
                _ => false,
            }),
            r ==> state.active is Some && state.active != Some(ModeKind::Url) && state.active
                != Some(ModeKind::AuxCode),
            state.active == Some(ModeKind::RareChar) || state.active == Some(ModeKind::TempPinyin)
                || state.active is Some && state.active->0 is Special ==> r,
            state.active is Some && state.active->0 is Mix ==> r == mix_printable,
            state.active == Some(ModeKind::TempEnglish) ==> (!r <==> typed_symbol_allowed == Some(
                true,
            )),
    {
        match state.active {
            Some(ModeKind::Special(_)) | Some(ModeKind::RareChar) | Some(ModeKind::TempPinyin) => {
                true
            },
            Some(ModeKind::Mix(_)) => mix_printable,
            Some(ModeKind::TempEnglish) => match typed_symbol_allowed {
                Some(allowed) => !allowed,
                None => true,
            },
            _ => false,
        }
    }

    /// Takes back the last chosen segment: its keys return to the front of the input
    /// and the cursor goes to the end. Nothing happens without a segment. Once the input
    /// is converted anew, [`Coordinator::complete_pop`] gives the reply.
    pub fn pop_committed_seg(state: &mut State) -> (requery: bool)
        ensures
            requery == (old(state).committed_segs@.len() > 0),
            !requery ==> *final(state) == *old(state),
            requery ==> {
                let segs = seg_models(old(state).committed_segs@);
                let raw = segs.last().raw_code;
                &&& seg_models(final(state).committed_segs@) == segs.drop_last()
                &&& final(state).committed_text@ == seg_texts(segs.drop_last())
                &&& final(state).input_buffer@ == raw + old(state).input_buffer@
                &&& final(state).input_buffer_cased@ == (if old(state).input_buffer_cased@.len()
                    == 0 {
                    old(state).input_buffer_cased@
                } else {
                    raw + old(state).input_buffer_cased@
                })
                &&& final(state).input_cursor_pos == byte_size(final(state).input_buffer@)
                &&& *final(state) == (State {
                    committed_segs: final(state).committed_segs,
                    committed_text: final(state).committed_text,
                    input_buffer: final(state).input_buffer,
                    input_buffer_cased: final(state).input_buffer_cased,
                    input_cursor_pos: final(state).input_cursor_pos,
                    ..*old(state)
                })
            },
            requery ==> final(state).committed_segs@.len() + 1 == old(state).committed_segs@.len(),
            requery ==> final(state).input_buffer@.len() == old(state).input_buffer@.len() + seg_models(
                old(state).committed_segs@,
            ).last().raw_code.len(),
            old(state).committed_segs@.len() == 0 ==> !requery,
    {
        let ghost segs = seg_models(state.committed_segs@);
        if state.committed_segs.len() == 0 {
            return false;
        }
        let last = match state.committed_segs.pop() {
            Some(s) => s,
            None => {
                return false;
            },
        };
        proof {
            assert(segs.last() == last@);
            assert(seg_models(state.committed_segs@) =~= segs.drop_last());
        }
        state.committed_text = crate::learning::join_texts(&state.committed_segs, 0);
        proof {
            assert(segs.drop_last().skip(0) =~= segs.drop_last());
        }
        if !state.input_buffer_cased.as_str().is_empty() {
            state.input_buffer_cased = joined(
                last.raw_code.as_str(),
                state.input_buffer_cased.as_str(),
            );
        }
        state.input_buffer = joined(last.raw_code.as_str(), state.input_buffer.as_str());
        state.input_cursor_pos = state.input_buffer.as_str().len();
        true
    }
}

/// The first entry of `h` that is not empty.
pub open spec fn first_nonempty(h: Seq<Seq<char>>) -> Option<Seq<char>>
    decreases h.len(),
{
    if h.len() == 0 {
        None
    } else if h[0].len() > 0 {
        Some(h[0])
    } else {
        first_nonempty(h.drop_first())
    }
}

/// The candidate that offers a repeated commit.
pub open spec fn repeated(t: Seq<char>) -> CandidateModel {
    CandidateModel { text: t, natural_order: (-1) as i32, ..blank_candidate() }
}

fn repeat_candidate(t: String) -> (c: Candidate)
    ensures
        c@ == repeated(t@),
{
    let base = Candidate::default();
    Candidate { text: t, natural_order: -1, ..base }
}

/// A page never reaches past the list, and with a positive page size it holds at
/// most that many candidates.
pub proof fn page_stays_inside(c: Coordinator, state: State)
    requires
        c.page_start(state) <= state.candidates@.len(),
    ensures
        c.page_start(state) <= c.page_end(state) <= state.candidates@.len(),
        c.page_end(state) - c.page_start(state) <= c.page_size(state.active),
{
}

/// Entering the auxiliary-code mode does not change where pages begin and end.
pub proof fn aux_code_keeps_pages(c: Coordinator, state: State)
    requires
        state.active is None,
    ensures
        ({
            let aux = State { active: Some(ModeKind::AuxCode), ..state };
            &&& c.page_start(aux) == c.page_start(state)
            &&& c.page_end(aux) == c.page_end(state)
        }),
{
}

/// The composition shows the input in the form that led to the highlighted candidate. With a
/// syllable split and nothing chosen yet, a pinyin candidate shows the syllables and a
/// candidate of another source the keys, unless it is one with a form of its own.
pub proof fn the_composition_fits_the_source(c: Coordinator, state: State, hi: int)
    requires
        hi == c.highlight(state),
        0 <= hi < state.candidates@.len(),
        state.preedit_split_body@.len() > 0,
        state.committed_text@.len() == 0,
        !state.candidates@[hi].is_abbrev,
        !state.candidates@[hi].is_fullpinyin_fallback,
    ensures
        state.candidates@[hi].source == CandidateSource::Pinyin ==> c.preedit_body(state)
            == state.preedit_split_body@,
        state.candidates@[hi].source != CandidateSource::Pinyin && state.candidates@[hi].source
            != CandidateSource::CodeTable ==> c.preedit_body(state) == state.input_buffer@,
        state.candidates@[hi].source == CandidateSource::CodeTable
            && !state.candidates@[hi].is_sentence ==> c.preedit_body(state) == state.input_buffer@,
{
}

/// Abbreviations and full pinyin that stood in for another reading are shown in their own
/// split, where there is one; an abbreviation comes before a stand-in.
pub proof fn the_composition_shows_other_readings(c: Coordinator, state: State, hi: int)
    requires
        hi == c.highlight(state),
        0 <= hi < state.candidates@.len(),
        state.preedit_split_body@.len() > 0,
        state.committed_text@.len() == 0,
        state.candidates@[hi].source != CandidateSource::CodeTable,
    ensures
        state.candidates@[hi].is_abbrev && state.preedit_abbrev_body@.len() > 0 ==> c.preedit_body(
            state,
        ) == state.preedit_abbrev_body@,
        !state.candidates@[hi].is_abbrev && state.candidates@[hi].is_fullpinyin_fallback
            && state.preedit_fp_body@.len() > 0 ==> c.preedit_body(state) == state.preedit_fp_body@,
        state.preedit_abbrev_body@.len() == 0 && state.preedit_fp_body@.len() == 0
            && state.candidates@[hi].source == CandidateSource::Pinyin ==> c.preedit_body(state)
            == state.preedit_split_body@,
{
}

/// A sentence of the code table shows its code units, whatever else there is to show.
pub proof fn the_composition_splits_codetable_sentences(c: Coordinator, state: State, hi: int)
    requires
        hi == c.highlight(state),
        0 <= hi < state.candidates@.len(),
        state.candidates@[hi].is_sentence,
        state.candidates@[hi].source == CandidateSource::CodeTable,
        state.preedit_codetable_body@.len() > 0,
    ensures
        c.preedit_body(state) == state.preedit_codetable_body@,
{
}

/// Apart from sentences of the code table the keys are shown while there is no split, and
/// the syllables once a part has been chosen or while nothing is highlighted.
pub proof fn the_composition_follows_the_split(c: Coordinator, state: State)
    requires
        state.preedit_codetable_body@.len() == 0,
    ensures
        state.preedit_split_body@.len() == 0 ==> c.preedit_body(state) == state.input_buffer@,
        state.preedit_split_body@.len() > 0 && state.committed_text@.len() > 0 ==> c.preedit_body(
            state,
        ) == state.preedit_split_body@,
        state.preedit_split_body@.len() > 0 && c.highlight(state) >= state.candidates@.len()
            ==> c.preedit_body(state) == state.preedit_split_body@,
{
    pages_start_inside_the_count(c, state);
}

/// The first page starts with the first candidate, and every further page a page size behind
/// the one before.
pub proof fn pages_start_inside_the_count(c: Coordinator, state: State)
    ensures
        c.page_start(state) >= 0,
        state.current_page == 0 ==> c.page_start(state) == 0,
        forall|next: State|
            next.active == state.active && next.current_page == state.current_page + 1
                ==> #[trigger] c.page_start(next) == c.page_start(state) + c.page_size(state.active),
{
    let p = state.current_page as int;
    let n = c.page_size(state.active) as int;
    assert(p * n >= 0) by (nonlinear_arith)
        requires
            p >= 0,
            n >= 0,
    ;
    assert((p + 1) * n == p * n + n) by (nonlinear_arith);
    if p == 0 {
        assert(p * n == 0) by (nonlinear_arith)
            requires
                p == 0,
        ;
    }
}

/// Every candidate is on one page, and on that page in one row: the pages follow each other
/// without a gap.
pub proof fn every_candidate_is_on_one_page(c: Coordinator, state: State, i: int)
    requires
        c.page_size(state.active) > 0,
        0 <= i < state.candidates@.len(),
    ensures
        c.page_start(state) <= i < c.page_end(state) <==> state.current_page == i / (c.page_size(
            state.active,
        ) as int),
        state.current_page == i / (c.page_size(state.active) as int) ==> i - c.page_start(state)
            == i % (c.page_size(state.active) as int),
{
    let n = c.page_size(state.active) as int;
    let p = state.current_page as int;
    let q = i / n;
    assert(i == q * n + i % n && 0 <= i % n < n) by (nonlinear_arith)
        requires
            n > 0,
            q == i / n,
    ;
    if p < q {
        assert(p * n + n <= q * n) by (nonlinear_arith)
            requires
                p + 1 <= q,
                n > 0,
        ;
    } else if p > q {
        assert(q * n + n <= p * n) by (nonlinear_arith)
            requires
                q + 1 <= p,
                n > 0,
        ;
    }
}

/// A page of ordinary input and of an auxiliary code has the ordinary size; a page of an
/// overlay mode has its own, where one is set.
pub proof fn overlay_modes_have_pages_of_their_own(c: Coordinator, active: Option<ModeKind>)
    ensures
        active is None || active == Some(ModeKind::AuxCode) ==> c.page_size(active)
            == c.settings.per_page,
        c.settings.per_page_extended == 0 ==> c.page_size(active) == c.settings.per_page,
        c.settings.per_page_extended > 0 && active is Some && active != Some(ModeKind::AuxCode)
            ==> c.page_size(active) == c.settings.per_page_extended,
{
}

/// The highlight is in its row of the page shown.
pub proof fn the_highlight_is_on_its_row(c: Coordinator, state: State)
    requires
        c.page_start(state) + state.selected_index < c.page_end(state),
    ensures
        c.page_start(state) <= c.highlight(state) < c.page_end(state),
        c.highlight(state) - c.page_start(state) == state.selected_index,
{
}

/// A row of the page is committed by the mode in force, and names the candidate that stands
/// there; a mix counts rows. Beyond the page, and in the URL mode, nothing is committed.
pub proof fn rows_name_the_candidates_of_the_page(c: Coordinator, state: State, row: int)
    requires
        0 <= row,
        c.page_end(state) <= usize::MAX,
    ensures
        c.page_start(state) + row >= c.page_end(state) ==> c.page_choice(state, row) is None,
        c.page_start(state) + row < c.page_end(state) ==> match c.page_choice(state, row) {
            None => state.active == Some(ModeKind::Url),
            Some(PageChoice::Main { index }) => state.active is None && index == c.page_start(state)
                + row,
            Some(PageChoice::AuxCode { index }) => state.active == Some(ModeKind::AuxCode) && index
                == c.page_start(state) + row,
            Some(PageChoice::TempPinyin { index }) => state.active == Some(ModeKind::TempPinyin)
                && index == c.page_start(state) + row,
            Some(PageChoice::TempEnglish { index }) => state.active == Some(ModeKind::TempEnglish)
                && index == c.page_start(state) + row,
            Some(PageChoice::Special { index }) => state.active is Some && (state.active == Some(
                ModeKind::RareChar,
            ) || state.active->0 is Special) && index == c.page_start(state) + row,
            Some(PageChoice::Mix { offset }) => state.active is Some && state.active->0 is Mix
                && offset == row,
        },
        state.active == Some(ModeKind::Url) ==> c.page_choice(state, row) is None,
{
    pages_start_inside_the_count(c, state);
}

/// The newest commit that is not empty: nothing newer has a text, and there is none only
/// where all are empty.
pub proof fn the_newest_text_is_repeated(h: Seq<Seq<char>>)
    ensures
        match first_nonempty(h) {
            Some(t) => t.len() > 0 && exists|i: int|
                0 <= i < h.len() && #[trigger] h[i] == t && forall|k: int|
                    0 <= k < i ==> (#[trigger] h[k]).len() == 0,
            None => forall|i: int| 0 <= i < h.len() ==> (#[trigger] h[i]).len() == 0,
        },
    decreases h.len(),
{
    if h.len() > 0 {
        if h[0].len() > 0 {
            assert(h[0] == first_nonempty(h)->0);
        } else {
            let d = h.drop_first();
            the_newest_text_is_repeated(d);
            match first_nonempty(h) {
                Some(t) => {
                    let i = choose|i: int|
                        0 <= i < d.len() && #[trigger] d[i] == t && forall|k: int|
                            0 <= k < i ==> (#[trigger] d[k]).len() == 0;
                    assert(h[i + 1] == t);
                    assert forall|k: int| 0 <= k < i + 1 implies (#[trigger] h[k]).len() == 0 by {
                        if k > 0 {
                            assert(d[k - 1] == h[k]);
                        }
                    }
                },
                None => {
                    assert forall|i: int| 0 <= i < h.len() implies (#[trigger] h[i]).len() == 0 by {
                        if i > 0 {
                            assert(d[i - 1] == h[i]);
                        }
                    }
                },
            }
        }
    }
}

/// A letter typed alone repeats the last commit: `z` in a code table or a mixed engine whose
/// switch is on, whatever else is found, and a letter of a mix that repeats only where nothing
/// is. More or fewer keys, and anything but a letter, repeat nothing.
pub proof fn a_letter_alone_repeats_the_last_commit(
    c: Coordinator,
    buffer: Seq<char>,
    frame_empty: bool,
    mix_repeats: bool,
)
    ensures
        buffer.len() != 1 || !ascii_letter(buffer[0]) ==> c.repeat_text(
            buffer,
            frame_empty,
            mix_repeats,
        ) is None,
        buffer == seq!['z'] && c.engine.codetable.z_key_repeat && c.history().len() > 0 && (
        c.engine.engine_type == Some(EngineType::CodeTable) || c.engine.engine_type == Some(
            EngineType::Mixed,
        )) ==> c.repeat_text(buffer, frame_empty, mix_repeats) == Some(c.history()[0]),
        buffer.len() == 1 && ascii_letter(buffer[0]) && (buffer[0] != 'z'
            || !c.engine.codetable.z_key_repeat || c.engine.engine_type == Some(EngineType::Pinyin)
            || c.engine.engine_type == Some(EngineType::English)) ==> c.repeat_text(
            buffer,
            frame_empty,
            mix_repeats,
        ) == (if frame_empty && mix_repeats {
            first_nonempty(c.history())
        } else {
            None
        }),
        c.history().len() == 0 ==> c.repeat_text(buffer, frame_empty, mix_repeats) is None,
{
}

/// A repeated commit is offered as plain text in front of everything that has an order.
pub proof fn a_repeated_commit_is_plain_text(t: Seq<char>)
    ensures
        repeated(t).text == t,
        repeated(t).natural_order == -1,
        repeated(t).source == CandidateSource::Unset,
        repeated(t).code.len() == 0,
        repeated(t).consumed_length == 0,
        !repeated(t).is_command && !repeated(t).is_group && !repeated(t).is_phrase,
{
}

/// Variants are listed of single characters whose output is not fixed, and of nothing else.
pub proof fn variants_are_for_single_characters(c: CandidateModel)
    ensures
        c.is_command || c.is_group || c.s2t_override is Some || c.text.len() != 1
            ==> !takes_variants(c),
        !c.is_command && !c.is_group && c.s2t_override is None && c.text.len() == 1
            ==> takes_variants(c),
{
}

/// Whether `form` is `c` with `out` as its output.
pub open spec fn puts_out(form: CandidateModel, c: CandidateModel, out: Seq<char>) -> bool {
    form == (CandidateModel { s2t_override: Some(out), ..c })
}

/// Whether `at` tells which output each form of `c` has: the places rise, and every output
/// but the default has its form.
#[verifier::opaque]
pub open spec fn form_places(
    c: CandidateModel,
    v: Seq<Seq<char>>,
    default_out: Seq<char>,
    forms: Seq<CandidateModel>,
    at: Seq<int>,
) -> bool {
    &&& at.len() == forms.len()
    &&& forall|i: int|
        0 <= i < at.len() ==> 0 <= #[trigger] at[i] < v.len() && v[at[i]] != default_out
            && puts_out(forms[i], c, v[at[i]])
    &&& forall|i: int, j: int| 0 <= i < j < at.len() ==> #[trigger] at[i] < #[trigger] at[j]
    &&& forall|k: int| 0 <= k < v.len() && v[k] != default_out ==> #[trigger] at.contains(k)
}

#[verifier::spinoff_prover]
#[verifier::rlimit(60)]
proof fn lemma_one_more_form(
    c: CandidateModel,
    v: Seq<Seq<char>>,
    default_out: Seq<char>,
    forms: Seq<CandidateModel>,
    at: Seq<int>,
    x: Seq<char>,
)
    requires
        form_places(c, v, default_out, forms, at),
    ensures
        x == default_out ==> form_places(c, v.push(x), default_out, forms, at),
        x != default_out ==> form_places(
            c,
            v.push(x),
            default_out,
            forms.push(CandidateModel { s2t_override: Some(x), ..c }),
            at.push(v.len() as int),
        ),
{
    reveal(form_places);
    let w = v.push(x);
    let n = v.len() as int;
    let form = CandidateModel { s2t_override: Some(x), ..c };
    assert(puts_out(form, c, x));
    let more = at.push(n);
    assert forall|i: int| 0 <= i < at.len() implies w[#[trigger] at[i]] == v[at[i]] by {}
    assert forall|k: int| 0 <= k < w.len() && w[k] != default_out implies #[trigger] more.contains(
        k,
    ) by {
        if k < n {
            assert(at.contains(k));
            let i = choose|i: int| 0 <= i < at.len() && at[i] == k;
            assert(more[i] == k);
        } else {
            assert(more[at.len() as int] == k);
        }
    }
    if x == default_out {
        assert forall|k: int| 0 <= k < w.len() && w[k] != default_out implies #[trigger] at.contains(
            k,
        ) by {
            assert(v[k] == w[k]);
        }
    } else {
        assert forall|i: int| 0 <= i < more.len() implies 0 <= #[trigger] more[i] < w.len()
            && w[more[i]] != default_out && puts_out(forms.push(form)[i], c, w[more[i]]) by {
            if i < at.len() {
                assert(more[i] == at[i]);
            }
        }
    }
}

proof fn lemma_variant_forms_push(
    c: CandidateModel,
    v: Seq<Seq<char>>,
    default_out: Seq<char>,
    x: Seq<char>,
)
    ensures
        variant_forms(c, v.push(x), default_out) == (if x == default_out {
            variant_forms(c, v, default_out)
        } else {
            variant_forms(c, v, default_out).push(CandidateModel { s2t_override: Some(x), ..c })
        }),
{
    assert(v.push(x).drop_last() =~= v);
    assert(v.push(x).last() == x);
}

proof fn lemma_form_places_exist(c: CandidateModel, v: Seq<Seq<char>>, default_out: Seq<char>)
    ensures
        exists|at: Seq<int>|
            #[trigger] form_places(c, v, default_out, variant_forms(c, v, default_out), at),
    decreases v.len(),
{
    if v.len() == 0 {
        reveal(form_places);
        assert(form_places(
            c,
            v,
            default_out,
            variant_forms(c, v, default_out),
            Seq::<int>::empty(),
        ));
    } else {
        let front = v.drop_last();
        let x = v.last();
        lemma_form_places_exist(c, front, default_out);
        let forms = variant_forms(c, front, default_out);
        let before = choose|at: Seq<int>|
            #[trigger] form_places(c, front, default_out, forms, at);
        lemma_one_more_form(c, front, default_out, forms, before, x);
        lemma_variant_forms_push(c, front, default_out, x);
        assert(front.push(x) =~= v);
    }
}

/// Each variant that is not the default output is listed, once for each time it is named and
/// in that order, as the same candidate with that output; the default is not.
pub proof fn every_other_output_is_listed(
    c: CandidateModel,
    v: Seq<Seq<char>>,
    default_out: Seq<char>,
) -> (at: Seq<int>)
    ensures
        form_places(c, v, default_out, variant_forms(c, v, default_out), at),
{
    lemma_form_places_exist(c, v, default_out);
    choose|at: Seq<int>|
        #[trigger] form_places(c, v, default_out, variant_forms(c, v, default_out), at)
}

/// The variants of a candidate stand right behind it, and the list is expanded piece by
/// piece: each candidate stays, and one that takes no variants gets none.
pub proof fn variants_stand_behind_their_character(
    s: Seq<CandidateModel>,
    replies: Seq<VariantReply>,
    c: CandidateModel,
    reply: VariantReply,
)
    requires
        replies.len() == s.len(),
    ensures
        ({
            let before = with_variants(s, replies);
            let after = with_variants(s.push(c), replies.push(reply));
            &&& before.is_prefix_of(after)
            &&& after.len() > before.len()
            &&& after[before.len() as int] == c
            &&& after.skip(before.len() as int + 1) == (if takes_variants(c) {
                variant_forms(c, strings_view(reply.variants@), reply.default_out@)
            } else {
                Seq::empty()
            })
        }),
        with_variants(Seq::empty(), Seq::empty()).len() == 0,
{
    let t = s.push(c);
    let r = replies.push(reply);
    assert(t.drop_last() =~= s);
    assert(r.take(s.len() as int) =~= replies);
    let before = with_variants(s, replies);
    let after = with_variants(t, r);
    let forms = if takes_variants(c) {
        variant_forms(c, strings_view(reply.variants@), reply.default_out@)
    } else {
        Seq::empty()
    };
    assert(after =~= before.push(c) + forms);
    assert(after.skip(before.len() as int + 1) =~= forms);
}

/// The cursor keys lead to the ends of the keys, or over one character; what moves the cursor
/// to the left is undone by moving it to the right.
pub proof fn the_cursor_comes_back(buffer: Seq<char>, cursor: usize, there: usize, back: usize)
    requires
        cursor <= byte_size(buffer),
        cursor == byte_size(buffer) || boundary_at(buffer, cursor as int),
        cursor_goes(buffer, cursor, CursorMove::Left, Some(there)),
        cursor_goes(buffer, there, CursorMove::Right, Some(back)),
    ensures
        there < cursor,
        back == cursor,
{
}

/// The home and end keys lead to the first and behind the last key, and nowhere from there.
pub proof fn home_and_end_lead_to_the_ends(
    buffer: Seq<char>,
    cursor: usize,
    home: Option<usize>,
    end: Option<usize>,
)
    requires
        cursor_goes(buffer, cursor, CursorMove::Home, home),
        cursor_goes(buffer, cursor, CursorMove::End, end),
    ensures
        cursor > 0 ==> home == Some(0usize),
        cursor == 0 ==> home is None,
        cursor < byte_size(buffer) ==> end == Some(byte_size(buffer)),
        cursor == byte_size(buffer) ==> end is None,
{
}

/// The cursor stays only at the end it cannot leave, and never leaves the keys.
pub proof fn the_cursor_stays_within_the_keys(
    buffer: Seq<char>,
    cursor: usize,
    m: CursorMove,
    r: Option<usize>,
)
    requires
        cursor <= byte_size(buffer),
        cursor_goes(buffer, cursor, m, r),
    ensures
        r matches Some(c) ==> c <= byte_size(buffer) && c != cursor,
        m is Left && cursor > 0 ==> (r matches Some(c) && c < cursor),
        m is Right && cursor < byte_size(buffer) ==> (r matches Some(c) && c > cursor),
{
}

/// The arrows, home and end move the cursor, each its own way, and no other key does.
pub proof fn four_keys_move_the_cursor(key_code: u32)
    ensures
        cursor_move_of(key_code) == Some(CursorMove::Left) <==> key_code == 0x25,
        cursor_move_of(key_code) == Some(CursorMove::Right) <==> key_code == 0x27,
        cursor_move_of(key_code) == Some(CursorMove::Home) <==> key_code == 0x24,
        cursor_move_of(key_code) == Some(CursorMove::End) <==> key_code == 0x23,
{
}

/// Moving the cursor of the mode in force changes that cursor and nothing else: the keys stay,
/// and the cursor is where it was moved to.
pub proof fn moving_the_cursor_keeps_the_keys(state: State, c: usize)
    ensures
        overlay_edit(state) matches Some(e) ==> overlay_edit(with_overlay_cursor(state, c)) == Some(
            (e.0, c),
        ),
        overlay_edit(state) is None ==> with_overlay_cursor(state, c) == state,
        with_overlay_cursor(state, c).active == state.active,
        with_overlay_cursor(state, c).input_cursor_pos == state.input_cursor_pos,
        overlay_edit(state) matches Some(e) ==> with_overlay_cursor(
            with_overlay_cursor(state, c),
            e.1,
        ) == state,
{
}

/// Each overlay mode edits the keys typed in it, with its own cursor; the rare-character mode
/// shares those of the special modes, and ordinary input has no overlay to edit.
pub proof fn each_mode_edits_its_own_keys(state: State)
    ensures
        match state.active {
            None => overlay_edit(state) is None,
            Some(ModeKind::AuxCode) => overlay_edit(state) is None,
            Some(ModeKind::TempPinyin) => overlay_edit(state) == Some(
                (state.temp_pinyin_buffer@, state.temp_pinyin_cursor),
            ),
            Some(ModeKind::TempEnglish) => overlay_edit(state) == Some(
                (state.temp_english_buffer@, state.temp_english_cursor),
            ),
            Some(ModeKind::Url) => overlay_edit(state) == Some((state.url_buffer@, state.url_cursor)),
            Some(ModeKind::Special(_)) => overlay_edit(state) == Some(
                (state.special_buffer@, state.special_cursor),
            ),
            Some(ModeKind::RareChar) => overlay_edit(state) == Some(
                (state.special_buffer@, state.special_cursor),
            ),
            Some(ModeKind::Mix(_)) => overlay_edit(state) == Some((state.mix_buffer@, state.mix_cursor)),
        },
{
}

/// The cursor is shown among the keys it moves in: wherever a cursor can be moved, its place
/// is computed from the same keys and the same cursor. What is chosen already stands in front
/// of temporary pinyin and of a mix.
pub proof fn the_cursor_is_shown_where_it_moves(state: State)
    ensures
        overlay_edit(state) matches Some(e) ==> (overlay_caret_model(state) matches Some(p)
            && p.buffer == e.0 && p.cursor == e.1),
        state.active is None ==> overlay_caret_model(state) is None,
        state.active == Some(ModeKind::TempPinyin) ==> overlay_caret_model(state)->0.prefix
            == state.temp_pinyin_prefix@ + state.committed_text@ && overlay_caret_model(state)->0.body
            == state.overlay_body@,
        state.active is Some && state.active->0 is Mix ==> overlay_caret_model(state)->0.prefix
            == state.mix_prefix@ + state.committed_text@ && overlay_caret_model(state)->0.body
            == state.overlay_body@,
        state.active == Some(ModeKind::TempEnglish) ==> overlay_caret_model(state)->0.prefix
            == state.temp_english_prefix@,
        state.active == Some(ModeKind::RareChar) || state.active is Some && state.active->0
            is Special ==> overlay_caret_model(state)->0.prefix == state.special_prefix@,
        state.active == Some(ModeKind::Url) ==> overlay_caret_model(state)->0.prefix.len() == 0,
        overlay_edit(state) is Some && state.active != Some(ModeKind::TempPinyin)
            && !(state.active->0 is Mix) ==> overlay_caret_model(state)->0.body
            == overlay_caret_model(state)->0.buffer,
        state.active == Some(ModeKind::AuxCode) ==> (match state.aux_code {
            Some(o) => overlay_caret_model(state) == Some(
                CaretModel {
                    prefix: o.preedit_prefix@,
                    buffer: o.buffer@,
                    body: o.buffer@,
                    cursor: byte_size(o.buffer@),
                },
            ),
            None => overlay_caret_model(state) is None,
        }),
{
}

/// The separator is the key the user named; where none is named it is the quote key, or the
/// backtick key where only that has no other use. There is none outside pinyin and sentence
/// input, or where the user wants none.
pub proof fn one_key_separates_syllables(key_code: u32, f: SeparatorFacts)
    ensures
        !f.is_pinyin && !f.sentence_input ==> !separates(key_code, f),
        f.mode@ == "none"@ ==> !separates(key_code, f),
        (f.is_pinyin || f.sentence_input) && f.mode@ != "none"@ ==> {
            &&& f.mode@ == "quote"@ ==> (separates(key_code, f) <==> key_code == 0xDE)
            &&& f.mode@ == "backtick"@ && f.mode@ != "quote"@ ==> (separates(key_code, f)
                <==> key_code == 0xC0)
            &&& f.mode@ != "quote"@ && f.mode@ != "backtick"@ ==> {
                &&& f.quote_free ==> (separates(key_code, f) <==> key_code == 0xDE)
                &&& !f.quote_free && f.backtick_free ==> (separates(key_code, f) <==> key_code
                    == 0xC0)
                &&& !f.quote_free && !f.backtick_free ==> !separates(key_code, f)
            }
        },
{
}

/// Adjustments are kept under the engine's form of the input, and under the keys where it
/// gave none.
pub proof fn adjustments_go_by_the_engine_form(state: State)
    ensures
        state.shadow_code@.len() > 0 ==> shadow_code_model(state) == state.shadow_code@,
        state.shadow_code@.len() == 0 ==> shadow_code_model(state) == state.input_buffer@,
{
}

} // verus!

//! Adding words by hand: the add-word panel, its two sources, and the command that
//! adds a given text.

use crate::action::{Effect, EffectModel, KeyAction, ActionModel, Outbox};
use crate::candidate::opt_view;
use crate::coordinator::{drop_typing, typing_dropped, Coordinator, EngineType};
use crate::keys::{KeyEventData, VK_BACK, VK_DOWN, VK_ESCAPE, VK_RETURN, VK_TAB, VK_UP};
use crate::state::State;
use crate::text::{
    all_han, all_han_chars, ascii_letter, char_count, char_width, chars_of, decimal, decimal_text,
    has_char, has_white, holds_white, is_ascii_letter, joined, lower_text, lowered_text, string_of,
    string_of_range, trim, trimmed, utf8_offset,
};
use vstd::prelude::*;
use vstd::string::*;
use vstd::utf8::*;

verus! {

/// Shortest word the panel adds.
pub const ADD_WORD_MIN_LEN: usize = 1;

/// Length a word from recent input starts with.
pub const ADD_WORD_DEFAULT_LEN: usize = 2;

/// Longest word the panel adds.
pub const ADD_WORD_MAX_LEN: usize = 10;

/// Weight of a word added by hand.
pub const ADD_WORD_WEIGHT: i32 = 1200;

/// Characters of a word a message shows at most.
pub const TOAST_MAX: usize = 16;

/// A code and its syllable boundaries: bit `i` says that a syllable starts at byte `i`.
#[derive(Debug)]
pub struct WordCode {
    pub code: String,
    pub boundary: u64,
}

impl View for WordCode {
    type V = (Seq<char>, u64);

    open spec fn view(&self) -> (Seq<char>, u64) {
        (self.code@, self.boundary)
    }
}

/// A word to be written to the user's dictionary.
#[derive(Debug)]
pub struct UserWord {
    pub schema: String,
    pub code: String,
    pub word: String,
    pub weight: i32,
    pub boundary: u64,
}

/// What a [`UserWord`] holds.
pub ghost struct UserWordModel {
    pub schema: Seq<char>,
    pub code: Seq<char>,
    pub word: Seq<char>,
    pub weight: i32,
    pub boundary: u64,
}

impl View for UserWord {
    type V = UserWordModel;

    open spec fn view(&self) -> UserWordModel {
        UserWordModel {
            schema: self.schema@,
            code: self.code@,
            word: self.word@,
            weight: self.weight,
            boundary: self.boundary,
        }
    }
}

/// What an add-word page starts from when nothing else is given.
#[derive(Debug)]
pub struct AddWordContext {
    /// Schema the word is added to.
    pub schema_id: String,
    /// Text committed lately, as much of it as a word may hold.
    pub recent_text: String,
    /// Longest word that can be added.
    pub max_len: usize,
}

/// Why a text was not added.
#[derive(Clone, Copy, PartialEq, Eq, Structural, Debug)]
pub enum DictAddError {
    /// There is no store.
    NoStore,
    /// Nothing but white space.
    Empty,
    /// More than one line.
    LineBreak,
    /// More characters than a code can be derived for.
    TooLong { count: usize },
    /// Characters no code can be derived for.
    NotHan,
    /// The schema gives no code.
    NoCode,
    /// No schema to write to.
    NoSchema,
}

impl DictAddError {
    /// The message shown for the error; it never holds the text itself.
    pub open spec fn text(self) -> Seq<char> {
        match self {
            DictAddError::NoStore => "无词库存储"@,
            DictAddError::Empty => "内容为空"@,
            DictAddError::LineBreak => "内容含换行，请只复制一个词"@,
            DictAddError::TooLong { count } => "内容过长（"@ + decimal(count as nat) + " 字，上限 "@
                + decimal(ADD_WORD_MAX_LEN as nat) + "）"@,
            DictAddError::NotHan => "含非汉字，无法自动取码"@,
            DictAddError::NoCode => "当前方案取不出编码"@,
            DictAddError::NoSchema => "混输方案主码表缺失，无法归属加词"@,
        }
    }

    /// The message shown for the error.
    pub fn message(&self) -> (r: String)
        ensures
            r@ == self.text(),
    {
        match self {
            DictAddError::NoStore => "无词库存储".to_owned(),
            DictAddError::Empty => "内容为空".to_owned(),
            DictAddError::LineBreak => "内容含换行，请只复制一个词".to_owned(),
            DictAddError::TooLong { count } => {
                let n = decimal_text(*count);
                let a = joined("内容过长（", n.as_str());
                let b = joined(a.as_str(), " 字，上限 ");
                let m = decimal_text(ADD_WORD_MAX_LEN);
                let c = joined(b.as_str(), m.as_str());
                joined(c.as_str(), "）")
            },
            DictAddError::NotHan => "含非汉字，无法自动取码".to_owned(),
            DictAddError::NoCode => "当前方案取不出编码".to_owned(),
            DictAddError::NoSchema => "混输方案主码表缺失，无法归属加词".to_owned(),
        }
    }
}

/// Whether a text runs over more than one line.
pub open spec fn multi_line(s: Seq<char>) -> bool {
    s.contains('\r') || s.contains('\n')
}

/// A text without the white space around it, when that is a single line with
/// something on it. Nothing inside the text is changed or cut.
pub fn sanitize_dict_add_text(raw: &str) -> (r: Result<String, DictAddError>)
    ensures
        match r {
            Ok(s) => s@ == trimmed(raw@) && s@.len() > 0 && !multi_line(s@),
            Err(e) => e == (if trimmed(raw@).len() == 0 {
                DictAddError::Empty
            } else {
                DictAddError::LineBreak
            }) && (trimmed(raw@).len() == 0 || multi_line(trimmed(raw@))),
        },
        r is Ok <==> trimmed(raw@).len() > 0 && !multi_line(trimmed(raw@)),
        r matches Err(e) ==> (e == DictAddError::Empty <==> trimmed(raw@).len() == 0) && (e
            == DictAddError::Empty || e == DictAddError::LineBreak),
{
    let s = trim(raw);
    if s.as_str().is_empty() {
        return Err(DictAddError::Empty);
    }
    if has_char(s.as_str(), '\r') || has_char(s.as_str(), '\n') {
        return Err(DictAddError::LineBreak);
    }
    Ok(s)
}

/// Why no code can be derived for a word, if so: it is too long, or not all of it is
/// Chinese characters.
pub open spec fn underivable(word: Seq<char>) -> Option<DictAddError> {
    if word.len() > ADD_WORD_MAX_LEN {
        Some(DictAddError::TooLong { count: word.len() as usize })
    } else if !all_han_chars(word) {
        Some(DictAddError::NotHan)
    } else {
        None
    }
}

/// Whether a code can be derived for a word.
pub fn check_derivable_word(word: &str) -> (r: Result<(), DictAddError>)
    ensures
        r == (match underivable(word@) {
            Some(e) => Err(e),
            None => Ok(()),
        }),
{
    let n: usize = char_count(word);
    if n > ADD_WORD_MAX_LEN {
        return Err(DictAddError::TooLong { count: n });
    }
    if !all_han(word) {
        return Err(DictAddError::NotHan);
    }
    Ok(())
}

/// Whether a syllable starts at character `k`, behind the first.
pub open spec fn syllable_starts(s: Seq<char>, boundary: u64, k: int) -> bool {
    let at = utf8_offset(s.take(k));
    0 < at < 64 && (boundary >> (at as u64)) & 1 == 1
}

/// The first `k` characters of a code, with a space in front of every syllable but
/// the first.
pub open spec fn spaced(s: Seq<char>, boundary: u64, k: int) -> Seq<char>
    decreases k,
{
    if k <= 0 {
        Seq::empty()
    } else if syllable_starts(s, boundary, k - 1) {
        spaced(s, boundary, k - 1).push(' ').push(s[k - 1])
    } else {
        spaced(s, boundary, k - 1).push(s[k - 1])
    }
}

/// A code as it is shown: its syllables apart.
pub open spec fn shown_code(code: Seq<char>, boundary: u64) -> Seq<char> {
    spaced(code, boundary, code.len() as int)
}

/// A code as it is shown: its syllables apart.
pub fn display_code(code: &str, boundary: u64) -> (r: String)
    ensures
        r@ == shown_code(code@, boundary),
{
    let v = chars_of(code);
    let mut r: String = String::new();
    let mut i: usize = 0;
    let mut at: u64 = 0;
    proof {
        assert(v@.take(0) =~= Seq::empty());
    }
    while i < v.len()
        invariant
            i <= v.len(),
            v@ == code@,
            at < 64 || utf8_offset(v@.take(i as int)) < 64 ==> at == utf8_offset(
                v@.take(i as int),
            ),
            at < 70,
            r@ == spaced(code@, boundary, i as int),
        decreases v.len() - i,
    {
        proof {
            assert(v@.take(i as int + 1).drop_last() =~= v@.take(i as int));
            assert(v@.take(i as int + 1).last() == v@[i as int]);
        }
        if 0 < at && at < 64 && (boundary >> at) & 1 == 1 {
            r.push(' ');
        }
        r.push(v[i]);
        if at < 64 {
            at = at + char_width(v[i]);
        }
        i = i + 1;
    }
    r
}

/// Where no bit is set, as in a code table, a code is shown as it is.
pub proof fn codes_without_syllables_are_shown_as_they_are(code: Seq<char>)
    ensures
        shown_code(code, 0) == code,
{
    lemma_unspaced(code, code.len() as int);
    assert(code.take(code.len() as int) =~= code);
}

proof fn lemma_unspaced(code: Seq<char>, k: int)
    requires
        0 <= k <= code.len(),
    ensures
        spaced(code, 0, k) == code.take(k),
    decreases k,
{
    if k > 0 {
        lemma_unspaced(code, k - 1);
        let at = utf8_offset(code.take(k - 1)) as u64;
        assert((0u64 >> at) & 1 == 0) by (bit_vector);
        assert(code.take(k) =~= code.take(k - 1).push(code[k - 1]));
    } else {
        assert(code.take(0) =~= Seq::empty());
    }
}

/// A word as a message shows it: cut, with an ellipsis, where it is long.
pub open spec fn clamped(word: Seq<char>) -> Seq<char> {
    if word.len() <= TOAST_MAX {
        word
    } else {
        word.take(TOAST_MAX as int) + "…"@
    }
}

/// A word as a message shows it.
pub fn toast_clamp(word: &str) -> (r: String)
    ensures
        r@ == clamped(word@),
{
    if char_count(word) <= TOAST_MAX {
        return word.to_owned();
    }
    let v = chars_of(word);
    let head = string_of_range(&v, 0, TOAST_MAX);
    proof {
        assert(v@.subrange(0, TOAST_MAX as int) =~= v@.take(TOAST_MAX as int));
    }
    joined(head.as_str(), "…")
}

/// One argument of the settings program; a value with white space is quoted.
pub open spec fn settings_arg(name: Seq<char>, value: Seq<char>) -> Seq<char> {
    if holds_white(value) {
        "--"@ + name + "=\""@ + value + "\""@
    } else {
        "--"@ + name + "="@ + value
    }
}

/// The arguments of the settings program, apart by a space; an empty value is left out.
pub open spec fn settings_args(pairs: Seq<(Seq<char>, Seq<char>)>) -> Seq<char>
    decreases pairs.len(),
{
    if pairs.len() == 0 {
        Seq::empty()
    } else {
        let rest = settings_args(pairs.drop_last());
        let (name, value) = pairs.last();
        if value.len() == 0 {
            rest
        } else if rest.len() == 0 {
            settings_arg(name, value)
        } else {
            rest + " "@ + settings_arg(name, value)
        }
    }
}

/// What names and values hold.
pub open spec fn pairs_view(pairs: Seq<(&str, &str)>) -> Seq<(Seq<char>, Seq<char>)> {
    pairs.map_values(|p: (&str, &str)| (p.0@, p.1@))
}

fn one_arg(name: &str, value: &str) -> (r: String)
    ensures
        r@ == settings_arg(name@, value@),
{
    let a = joined("--", name);
    if has_white(value) {
        let b = joined(a.as_str(), "=\"");
        let c = joined(b.as_str(), value);
        joined(c.as_str(), "\"")
    } else {
        let b = joined(a.as_str(), "=");
        joined(b.as_str(), value)
    }
}

/// The arguments of the settings program for names and values.
pub fn build_settings_args(pairs: &[(&str, &str)]) -> (r: String)
    ensures
        r@ == settings_args(pairs_view(pairs@)),
{
    let mut r: String = String::new();
    let ghost all = pairs_view(pairs@);
    let mut i: usize = 0;
    assert(all.take(0) =~= Seq::empty());
    while i < pairs.len()
        invariant
            i <= pairs@.len(),
            all == pairs_view(pairs@),
            r@ == settings_args(all.take(i as int)),
        decreases pairs.len() - i,
    {
        let (name, value) = pairs[i];
        proof {
            assert(all.take(i as int + 1).drop_last() =~= all.take(i as int));
            assert(all.take(i as int + 1).last() == (name@, value@));
        }
        if !value.is_empty() {
            let a = one_arg(name, value);
            if r.as_str().is_empty() {
                r = a;
            } else {
                let b = joined(r.as_str(), " ");
                r = joined(b.as_str(), a.as_str());
            }
        }
        i = i + 1;
    }
    assert(all.take(all.len() as int) =~= all);
    r
}

/// What the add-word panel holds.
pub ghost struct PanelModel {
    /// The panel is open.
    pub active: bool,
    /// Characters committed lately, oldest first.
    pub recent: Seq<char>,
    /// Characters of the word.
    pub len: usize,
    /// Code of the word.
    pub code: Seq<char>,
    /// Its syllable boundaries.
    pub boundary: u64,
    /// The word is taken from the clipboard.
    pub from_clip: bool,
    /// Clipboard characters, once they have been read.
    pub clip: Option<Seq<char>>,
}

impl PanelModel {
    /// The characters the word is taken from.
    pub open spec fn pool(self) -> Seq<char> {
        if !self.from_clip {
            self.recent
        } else {
            match self.clip {
                Some(c) => c,
                None => Seq::empty(),
            }
        }
    }

    /// The word: the end of what was committed, or the start of the clipboard.
    pub open spec fn word(self) -> Seq<char> {
        let pool = self.pool();
        let len = if self.len < pool.len() {
            self.len as int
        } else {
            pool.len() as int
        };
        if self.from_clip {
            pool.take(len)
        } else {
            pool.skip(pool.len() - len)
        }
    }

    /// Whether there is no word.
    pub open spec fn wordless(self) -> bool {
        self.len < ADD_WORD_MIN_LEN || self.pool().len() < ADD_WORD_MIN_LEN
    }

    /// The panel with no code.
    pub open spec fn uncoded(self) -> PanelModel {
        PanelModel { code: Seq::empty(), boundary: 0, ..self }
    }

    /// The panel with the word its source starts with, not yet coded: all of the
    /// clipboard, or the last characters committed.
    pub open spec fn restarted(self) -> PanelModel {
        PanelModel { len: start_len(self.from_clip, self.pool().len()) as usize, ..self.uncoded() }
    }

    /// What is missing before the panel can be shown: the code of its word.
    pub open spec fn missing(self) -> NeedModel {
        if self.len < ADD_WORD_MIN_LEN || self.pool().len() < self.len {
            NeedModel::Nothing
        } else {
            NeedModel::Code { word: self.word() }
        }
    }

    /// The panel with its other source.
    pub open spec fn switched(self) -> PanelModel {
        PanelModel { from_clip: !self.from_clip, ..self }
    }

    /// Whether the clipboard has to be read before the panel can go on.
    pub open spec fn unread(self) -> bool {
        self.from_clip && self.clip is None
    }

    /// The panel once the clipboard has been read: what was read first stays, and a
    /// panel without recent input goes over to it.
    pub open spec fn supplied(self, chars: Seq<char>) -> PanelModel {
        let clip = match self.clip {
            Some(c) => c,
            None => chars,
        };
        PanelModel {
            clip: Some(clip),
            from_clip: self.from_clip || (self.recent.len() < ADD_WORD_MIN_LEN && clip.len()
                >= ADD_WORD_MIN_LEN),
            ..self
        }.restarted()
    }

    /// The length of the word after it was changed by `delta`: at least one character,
    /// and no more than there are.
    pub open spec fn resized(self, delta: i32) -> int {
        let pool = self.pool().len();
        let max = if pool < ADD_WORD_MAX_LEN {
            pool as int
        } else {
            ADD_WORD_MAX_LEN as int
        };
        let want = self.len + delta;
        if want < ADD_WORD_MIN_LEN {
            ADD_WORD_MIN_LEN as int
        } else if want > max {
            max
        } else {
            want
        }
    }

    /// The panel after its word was made longer or shorter.
    pub open spec fn adjusted(self, delta: i32) -> PanelModel {
        if self.pool().len() < ADD_WORD_MIN_LEN || self.resized(delta) == self.len {
            self
        } else {
            PanelModel { len: self.resized(delta) as usize, ..self.uncoded() }
        }
    }
}

/// The length a word starts with.
pub open spec fn start_len(from_clip: bool, pool_len: nat) -> int {
    let most = if from_clip {
        ADD_WORD_MAX_LEN
    } else {
        ADD_WORD_DEFAULT_LEN
    };
    if pool_len < most {
        pool_len as int
    } else {
        most as int
    }
}

/// A closed panel.
pub open spec fn closed_panel() -> PanelModel {
    PanelModel {
        active: false,
        recent: Seq::empty(),
        len: 0,
        code: Seq::empty(),
        boundary: 0,
        from_clip: false,
        clip: None,
    }
}

/// What the panel waits for.
#[derive(Debug)]
pub enum AddWordNeed {
    Nothing,
    /// The text of the clipboard.
    Clipboard,
    /// The code of a word.
    Code { word: String },
}

/// What an [`AddWordNeed`] says.
pub ghost enum NeedModel {
    Nothing,
    Clipboard,
    Code { word: Seq<char> },
}

impl View for AddWordNeed {
    type V = NeedModel;

    open spec fn view(&self) -> NeedModel {
        match *self {
            AddWordNeed::Nothing => NeedModel::Nothing,
            AddWordNeed::Clipboard => NeedModel::Clipboard,
            AddWordNeed::Code { word } => NeedModel::Code { word: word@ },
        }
    }
}

/// What a key comes to in the panel.
#[derive(Debug)]
pub struct AddWordStep {
    /// The reply to the key.
    pub action: KeyAction,
    /// What has to be supplied next.
    pub need: AddWordNeed,
    /// A word to be written.
    pub write: Option<UserWord>,
}

/// What an [`AddWordStep`] says.
pub ghost struct StepModel {
    pub action: ActionModel,
    pub need: NeedModel,
    pub write: Option<UserWordModel>,
}

impl View for AddWordStep {
    type V = StepModel;

    open spec fn view(&self) -> StepModel {
        StepModel {
            action: self.action@,
            need: self.need@,
            write: match self.write {
                Some(w) => Some(w@),
                None => None,
            },
        }
    }
}

/// What is announced of a word once the store has answered: that its dictionary changed,
/// where it was written.
pub open spec fn announced(write: Option<UserWordModel>, written: bool) -> Seq<EffectModel> {
    match write {
        Some(w) if written => seq![EffectModel::DictChanged { schema: w.schema }],
        _ => Seq::empty(),
    }
}

/// Ends a step of the panel once the store has answered: the reply to the key. `written`
/// says that the store took the word; a step without a word announces nothing.
pub fn finish_add_word(step: AddWordStep, written: bool, out: &mut Outbox) -> (r: KeyAction)
    ensures
        r@ == step@.action,
        final(out)@ == old(out)@ + announced(step@.write, written),
{
    let ghost sent = out@;
    let ghost write = step@.write;
    match step.write {
        Some(w) => {
            if written {
                out.put(Effect::DictChanged { schema: w.schema });
            }
        },
        None => {},
    }
    assert(out@ =~= sent + announced(write, written));
    step.action
}

/// A row of the panel.
#[derive(Debug)]
pub struct PanelRow {
    pub text: String,
    pub comment: String,
    /// The row has no number.
    pub no_index: bool,
}

/// What a [`PanelRow`] holds.
pub ghost struct RowModel {
    pub text: Seq<char>,
    pub comment: Seq<char>,
    pub no_index: bool,
}

impl View for PanelRow {
    type V = RowModel;

    open spec fn view(&self) -> RowModel {
        RowModel { text: self.text@, comment: self.comment@, no_index: self.no_index }
    }
}

impl State {
    /// What the add-word panel holds.
    pub open spec fn panel(self) -> PanelModel {
        PanelModel {
            active: self.add_word_active,
            recent: self.add_word_chars@,
            len: self.add_word_len,
            code: self.add_word_code@,
            boundary: self.add_word_boundary,
            from_clip: self.add_word_from_clip,
            clip: match self.add_word_clip {
                Some(c) => Some(c@),
                None => None,
            },
        }
    }

    /// Whether `other` differs in the add-word panel only.
    pub open spec fn same_but_panel(self, other: State) -> bool {
        other == (State {
            add_word_active: other.add_word_active,
            add_word_chars: other.add_word_chars,
            add_word_len: other.add_word_len,
            add_word_code: other.add_word_code,
            add_word_boundary: other.add_word_boundary,
            add_word_from_clip: other.add_word_from_clip,
            add_word_clip: other.add_word_clip,
            ..self
        })
    }
}

/// The texts of a history, the oldest first, in one.
pub open spec fn history_text(h: Seq<Seq<char>>) -> Seq<char>
    decreases h.len(),
{
    if h.len() == 0 {
        Seq::empty()
    } else {
        history_text(h.drop_first()) + h[0]
    }
}

/// The last `n` characters of a text.
pub open spec fn last_chars(s: Seq<char>, n: int) -> Seq<char> {
    if s.len() > n {
        s.skip(s.len() - n)
    } else {
        s
    }
}

/// The characters of a clipboard text that can be a word: none when it is blank or
/// has several lines, and only the first ones of a long text.
pub open spec fn clip_chars(raw: Seq<char>) -> Seq<char> {
    let s = trimmed(raw);
    if s.len() == 0 || multi_line(s) {
        Seq::empty()
    } else if s.len() > ADD_WORD_MAX_LEN {
        s.take(ADD_WORD_MAX_LEN as int)
    } else {
        s
    }
}

/// The characters of a clipboard text that can be a word.
pub fn clipboard_add_word_chars(raw: &str) -> (r: Vec<char>)
    ensures
        r@ == clip_chars(raw@),
{
    let s = match sanitize_dict_add_text(raw) {
        Ok(s) => s,
        Err(_) => {
            return Vec::new();
        },
    };
    let mut v = chars_of(s.as_str());
    if v.len() > ADD_WORD_MAX_LEN {
        v.truncate(ADD_WORD_MAX_LEN);
        assert(v@ =~= s@.take(ADD_WORD_MAX_LEN as int));
    }
    v
}

/// A text that is longer than a word gives its start rather than nothing.
pub proof fn long_clipboards_are_cut_not_refused(raw: Seq<char>)
    requires
        trimmed(raw).len() > 0,
        !multi_line(trimmed(raw)),
    ensures
        0 < clip_chars(raw).len() <= ADD_WORD_MAX_LEN,
        clip_chars(raw).is_prefix_of(trimmed(raw)),
{
}

/// The length a word starts with.
pub fn default_add_word_len(from_clip: bool, pool_len: usize) -> (r: usize)
    ensures
        r == start_len(from_clip, pool_len as nat),
{
    let most: usize = if from_clip {
        ADD_WORD_MAX_LEN
    } else {
        ADD_WORD_DEFAULT_LEN
    };
    if pool_len < most {
        pool_len
    } else {
        most
    }
}

/// How many characters the word can be taken from.
fn pool_len(state: &State) -> (r: usize)
    ensures
        r == state.panel().pool().len(),
{
    if !state.add_word_from_clip {
        state.add_word_chars.len()
    } else {
        match &state.add_word_clip {
            Some(c) => c.len(),
            None => 0,
        }
    }
}

/// The characters the word can be taken from.
pub fn add_word_pool(state: &State) -> (r: Vec<char>)
    ensures
        r@ == state.panel().pool(),
{
    if !state.add_word_from_clip {
        copy_chars(&state.add_word_chars)
    } else {
        match &state.add_word_clip {
            Some(c) => copy_chars(c),
            None => Vec::new(),
        }
    }
}

fn copy_chars(v: &Vec<char>) -> (r: Vec<char>)
    ensures
        r@ == v@,
{
    let mut r: Vec<char> = Vec::new();
    let mut i: usize = 0;
    while i < v.len()
        invariant
            i <= v.len(),
            r@ == v@.take(i as int),
        decreases v.len() - i,
    {
        r.push(v[i]);
        proof {
            assert(v@.take(i as int).push(v@[i as int]) =~= v@.take(i as int + 1));
        }
        i = i + 1;
    }
    assert(v@.take(v@.len() as int) =~= v@);
    r
}

/// The word of the panel.
pub fn add_word_current_word(state: &State) -> (r: String)
    ensures
        r@ == state.panel().word(),
{
    let pool = add_word_pool(state);
    let len: usize = if state.add_word_len < pool.len() {
        state.add_word_len
    } else {
        pool.len()
    };
    if state.add_word_from_clip {
        proof {
            assert(pool@.subrange(0, len as int) =~= pool@.take(len as int));
        }
        string_of_range(&pool, 0, len)
    } else {
        proof {
            assert(pool@.subrange(pool@.len() - len, pool@.len() as int) =~= pool@.skip(
                pool@.len() - len,
            ));
        }
        string_of_range(&pool, pool.len() - len, pool.len())
    }
}

/// The code of the panel as it is shown.
pub fn add_word_display_code(state: &State) -> (r: String)
    ensures
        r@ == shown_code(state.add_word_code@, state.add_word_boundary),
{
    display_code(state.add_word_code.as_str(), state.add_word_boundary)
}

/// Drops the code of the panel and says which word needs one.
fn update_add_word_code(state: &mut State) -> (r: AddWordNeed)
    ensures
        old(state).same_but_panel(*final(state)),
        final(state).panel() == old(state).panel().uncoded(),
        r@ == final(state).panel().missing(),
{
    state.add_word_code = String::new();
    state.add_word_boundary = 0;
    if state.add_word_len < ADD_WORD_MIN_LEN || pool_len(state) < state.add_word_len {
        AddWordNeed::Nothing
    } else {
        AddWordNeed::Code { word: add_word_current_word(state) }
    }
}

/// Gives the panel the word its source starts with.
pub fn reset_add_word_len_for_source(state: &mut State) -> (r: AddWordNeed)
    ensures
        old(state).same_but_panel(*final(state)),
        final(state).panel() == old(state).panel().restarted(),
        r@ == final(state).panel().missing(),
{
    state.add_word_len = default_add_word_len(state.add_word_from_clip, pool_len(state));
    update_add_word_code(state)
}

/// What is waiting once the panel is shown, if it can be shown at once.
pub open spec fn shown_if_ready(o: Seq<EffectModel>, need: NeedModel) -> Seq<EffectModel> {
    if need is Nothing {
        o.push(EffectModel::UiAddWordPanel)
    } else {
        o
    }
}

fn show_if_ready(need: &AddWordNeed, out: &mut Outbox)
    ensures
        final(out)@ == shown_if_ready(old(out)@, need@),
{
    match need {
        AddWordNeed::Nothing => {
            out.put(Effect::UiAddWordPanel);
        },
        _ => {},
    }
}

/// Takes in the text of the clipboard.
pub fn add_word_clip_pool(state: &mut State, raw: &str, out: &mut Outbox) -> (r: AddWordNeed)
    ensures
        old(state).same_but_panel(*final(state)),
        final(state).panel() == old(state).panel().supplied(clip_chars(raw@)),
        r@ == final(state).panel().missing(),
        final(out)@ == shown_if_ready(old(out)@, r@),
{
    let known = match &state.add_word_clip {
        Some(_) => true,
        None => false,
    };
    if !known {
        state.add_word_clip = Some(clipboard_add_word_chars(raw));
    }
    let filled = match &state.add_word_clip {
        Some(c) => c.len() >= ADD_WORD_MIN_LEN,
        None => false,
    };
    if state.add_word_chars.len() < ADD_WORD_MIN_LEN && filled {
        state.add_word_from_clip = true;
    }
    let need = reset_add_word_len_for_source(state);
    show_if_ready(&need, out);
    need
}

/// Takes in the code of the panel's word, and shows the panel.
pub fn add_word_coded(state: &mut State, found: WordCode, out: &mut Outbox)
    ensures
        old(state).same_but_panel(*final(state)),
        final(state).panel() == (PanelModel {
            code: found.code@,
            boundary: found.boundary,
            ..old(state).panel()
        }),
        final(out)@ == old(out)@.push(EffectModel::UiAddWordPanel),
        final(state).add_word_code@ == found.code@ && final(state).add_word_boundary == found.boundary,
{
    state.add_word_code = found.code;
    state.add_word_boundary = found.boundary;
    out.put(Effect::UiAddWordPanel);
}

/// Closes the panel.
pub fn exit_add_word_mode(state: &mut State, out: &mut Outbox)
    ensures
        old(state).same_but_panel(*final(state)),
        final(state).panel() == closed_panel(),
        final(out)@ == old(out)@.push(EffectModel::UiHide),
        !final(state).add_word_active,
{
    state.add_word_active = false;
    state.add_word_chars = Vec::new();
    state.add_word_clip = None;
    state.add_word_from_clip = false;
    state.add_word_len = 0;
    state.add_word_code = String::new();
    state.add_word_boundary = 0;
    out.put(Effect::UiHide);
    assert(state.panel().recent =~= Seq::empty());
    assert(state.panel().code =~= Seq::empty());
}

/// Makes the word longer or shorter.
pub fn adjust_add_word_length(state: &mut State, delta: i32) -> (r: AddWordStep)
    ensures
        old(state).same_but_panel(*final(state)),
        final(state).panel() == old(state).panel().adjusted(delta),
        r@ == (StepModel {
            action: ActionModel::Consumed,
            need: if old(state).panel().pool().len() < ADD_WORD_MIN_LEN || old(
                state,
            ).panel().resized(delta) == old(state).add_word_len {
                NeedModel::Nothing
            } else {
                final(state).panel().missing()
            },
            write: None,
        }),
        r@.write is None && r@.action == ActionModel::Consumed,
        final(state).add_word_from_clip == old(state).add_word_from_clip,
        !(r@.need is Clipboard),
{
    let n: usize = pool_len(state);
    if n < ADD_WORD_MIN_LEN {
        return AddWordStep {
            action: KeyAction::Consumed,
            need: AddWordNeed::Nothing,
            write: None,
        };
    }
    let max: usize = if n < ADD_WORD_MAX_LEN {
        n
    } else {
        ADD_WORD_MAX_LEN
    };
    let want: i128 = state.add_word_len as i128 + delta as i128;
    let new_len: usize = if want < ADD_WORD_MIN_LEN as i128 {
        ADD_WORD_MIN_LEN
    } else if want > max as i128 {
        max
    } else {
        want as usize
    };
    if new_len == state.add_word_len {
        return AddWordStep {
            action: KeyAction::Consumed,
            need: AddWordNeed::Nothing,
            write: None,
        };
    }
    state.add_word_len = new_len;
    let need = update_add_word_code(state);
    AddWordStep { action: KeyAction::Consumed, need, write: None }
}

/// Goes over to the other source.
pub fn toggle_add_word_source(state: &mut State, out: &mut Outbox) -> (r: AddWordStep)
    ensures
        old(state).same_but_panel(*final(state)),
        ({
            let p = old(state).panel().switched();
            if p.unread() {
                &&& final(state).panel() == p
                &&& r@ == (StepModel {
                    action: ActionModel::Consumed,
                    need: NeedModel::Clipboard,
                    write: None,
                })
                &&& final(out)@ == old(out)@
            } else {
                &&& final(state).panel() == p.restarted()
                &&& r@ == (StepModel {
                    action: ActionModel::Consumed,
                    need: p.restarted().missing(),
                    write: None,
                })
                &&& final(out)@ == shown_if_ready(old(out)@, p.restarted().missing())
            }
        }),
        final(state).add_word_from_clip == !old(state).add_word_from_clip,
        r@.need is Clipboard <==> !old(state).add_word_from_clip && old(state).add_word_clip is None,
        r@.write is None && r@.action == ActionModel::Consumed,
{
    state.add_word_from_clip = !state.add_word_from_clip;
    let known = match &state.add_word_clip {
        Some(_) => true,
        None => false,
    };
    if state.add_word_from_clip && !known {
        return AddWordStep {
            action: KeyAction::Consumed,
            need: AddWordNeed::Clipboard,
            write: None,
        };
    }
    let need = reset_add_word_len_for_source(state);
    show_if_ready(&need, out);
    AddWordStep { action: KeyAction::Consumed, need, write: None }
}

fn panel_row(text: &str, comment: &str) -> (r: PanelRow)
    ensures
        r@ == (RowModel { text: text@, comment: comment@, no_index: true }),
{
    PanelRow { text: text.to_owned(), comment: comment.to_owned(), no_index: true }
}

/// The rows of the panel: where the word comes from, the word with its code, and the
/// keys. Where there is no word, the second row says why.
pub open spec fn panel_rows(p: PanelModel) -> Seq<RowModel> {
    let row = |text: Seq<char>, comment: Seq<char>| RowModel { text, comment, no_index: true };
    let title = if p.from_clip {
        "快捷加词 · 剪贴板"@
    } else {
        "快捷加词 · 最近输入"@
    };
    let body = if p.wordless() {
        if p.from_clip {
            row("剪贴板无可用内容"@, "需要单行文本"@)
        } else {
            row("无最近输入"@, "请先输入文字后再使用"@)
        }
    } else {
        row(
            p.word(),
            if p.code.len() == 0 {
                "无法计算编码"@
            } else {
                shown_code(p.code, p.boundary)
            },
        )
    };
    let hint = if p.wordless() {
        "Tab切换来源  Esc关闭"@
    } else {
        "↑↓调整长度  Tab切换来源  Enter添加  Ctrl+Enter编辑  Esc取消"@
    };
    seq![row(title, ""@), body, row(""@, hint)]
}

/// The rows of the panel.
pub fn add_word_panel_rows(state: &State) -> (r: Vec<PanelRow>)
    ensures
        r@.map_values(|x: PanelRow| x@) == panel_rows(state.panel()),
{
    let title = if state.add_word_from_clip {
        panel_row("快捷加词 · 剪贴板", "")
    } else {
        panel_row("快捷加词 · 最近输入", "")
    };
    let empty = pool_len(state) < ADD_WORD_MIN_LEN || state.add_word_len < ADD_WORD_MIN_LEN;
    let body = if empty {
        if state.add_word_from_clip {
            panel_row("剪贴板无可用内容", "需要单行文本")
        } else {
            panel_row("无最近输入", "请先输入文字后再使用")
        }
    } else {
        let word = add_word_current_word(state);
        if state.add_word_code.as_str().is_empty() {
            panel_row(word.as_str(), "无法计算编码")
        } else {
            let code = add_word_display_code(state);
            panel_row(word.as_str(), code.as_str())
        }
    };
    let hint = if empty {
        panel_row("", "Tab切换来源  Esc关闭")
    } else {
        panel_row(
            "",
            "↑↓调整长度  Tab切换来源  Enter添加  Ctrl+Enter编辑  Esc取消",
        )
    };
    let mut r: Vec<PanelRow> = Vec::new();
    r.push(title);
    r.push(body);
    r.push(hint);
    assert(r@.map_values(|x: PanelRow| x@) =~= panel_rows(state.panel()));
    r
}

/// The code of an English word: the word itself in lower case. A word with white
/// space, with anything but ASCII or without a letter has none.
pub open spec fn english_code(word: Seq<char>) -> Seq<char> {
    if !is_ascii_chars(word) || holds_white(word) || !has_letter(word) {
        Seq::empty()
    } else {
        lowered_text(word)
    }
}

/// Whether a text holds an ASCII letter.
pub open spec fn has_letter(s: Seq<char>) -> bool {
    exists|i: int| 0 <= i < s.len() && ascii_letter(#[trigger] s[i])
}

fn some_letter(s: &str) -> (r: bool)
    ensures
        r == has_letter(s@),
{
    let v = chars_of(s);
    let mut i: usize = 0;
    while i < v.len()
        invariant
            i <= v.len(),
            v@ == s@,
            forall|k: int| 0 <= k < i ==> !ascii_letter(#[trigger] v@[k]),
        decreases v.len() - i,
    {
        if is_ascii_letter(v[i]) {
            assert(ascii_letter(s@[i as int]));
            return true;
        }
        i = i + 1;
    }
    false
}

/// Where the code of a word comes from.
#[derive(Debug)]
pub enum CodeRoute {
    /// It is known.
    Known(WordCode),
    /// From the readings of its characters.
    Pinyin,
    /// From the code table of the schema.
    Table,
}

/// What the engines say of a word: its reading, and its code in the code table.
#[derive(Debug)]
pub struct CodeReplies {
    pub pinyin: WordCode,
    pub table: Option<String>,
}

impl Coordinator {
    /// The last characters committed, oldest first.
    pub open spec fn recent_chars(self, max_len: int) -> Seq<char> {
        last_chars(history_text(self.history()), max_len)
    }

    /// The last characters committed, oldest first.
    pub fn add_word_recent_chars(&self, max_len: usize) -> (r: Vec<char>)
        ensures
            r@ == self.recent_chars(max_len as int),
    {
        let mut chars: Vec<char> = Vec::new();
        let ghost h = self.history();
        let mut i: usize = self.recent_commits.len();
        assert(h.skip(h.len() as int) =~= Seq::empty());
        while i > 0
            invariant
                i <= self.recent_commits@.len(),
                h == self.history(),
                chars@ == history_text(h.skip(i as int)),
            decreases i,
        {
            let mut more = chars_of(self.recent_commits[i - 1].as_str());
            proof {
                assert(h.skip(i as int - 1).drop_first() =~= h.skip(i as int));
                assert(h.skip(i as int - 1)[0] == more@);
            }
            chars.append(&mut more);
            i = i - 1;
        }
        assert(h.skip(0) =~= h);
        let n: usize = chars.len();
        if n > max_len {
            let r = chars.split_off(n - max_len);
            assert(r@ =~= history_text(h).skip(n - max_len));
            r
        } else {
            chars
        }
    }

    /// Opens the panel on what was committed lately. What was being typed is dropped,
    /// and the application gets a placeholder so that further keys arrive. The
    /// clipboard is asked for only when nothing was committed.
    pub fn enter_add_word_mode(&self, state: &mut State, out: &mut Outbox) -> (r: AddWordStep)
        ensures
            ({
                let p = PanelModel {
                    active: true,
                    recent: self.recent_chars(ADD_WORD_MAX_LEN as int),
                    from_clip: false,
                    clip: None,
                    ..old(state).panel()
                };
                let held = p.recent.len() < ADD_WORD_MIN_LEN;
                let after = if held {
                    p
                } else {
                    p.restarted()
                };
                &&& final(state).panel() == after
                &&& r@ == (StepModel {
                    action: ActionModel::UpdateComposition { text: " "@, caret_pos: 0 },
                    need: if held {
                        NeedModel::Clipboard
                    } else {
                        after.missing()
                    },
                    write: None,
                })
                &&& final(out)@ == (if held {
                    old(out)@.push(EffectModel::UiHide)
                } else {
                    shown_if_ready(old(out)@.push(EffectModel::UiHide), after.missing())
                })
            }),
            exists|b: State| #[trigger]
                typing_dropped(*old(state), b) && b.same_but_panel(*final(state)),
            final(state).add_word_active && !final(state).add_word_from_clip && final(state).add_word_clip
                is None,
            final(state).add_word_chars@.len() <= 10,
            r@.need is Clipboard <==> history_text(self.history()).len() == 0,
            r@.write is None,
            r@.action is UpdateComposition,
            final(state).active is None && final(state).input_buffer@.len() == 0,
    {
        drop_typing(state);
        let ghost b = *state;
        out.put(Effect::UiHide);
        state.add_word_chars = self.add_word_recent_chars(ADD_WORD_MAX_LEN);
        state.add_word_clip = None;
        state.add_word_from_clip = false;
        state.add_word_active = true;
        let action = KeyAction::UpdateComposition { text: " ".to_owned(), caret_pos: 0 };
        if state.add_word_chars.len() < ADD_WORD_MIN_LEN {
            assert(b.same_but_panel(*state));
            return AddWordStep { action, need: AddWordNeed::Clipboard, write: None };
        }
        let need = reset_add_word_len_for_source(state);
        show_if_ready(&need, out);
        assert(b.same_but_panel(*state));
        AddWordStep { action, need, write: None }
    }

    /// The schema a word is added to: the code-table schema of a mixed one, where it
    /// has one, and else the schema in use.
    pub open spec fn target_schema(self) -> Seq<char> {
        if self.engine.schema_type == Some(EngineType::Mixed) && self.engine.mixed_primary is Some {
            self.engine.mixed_primary->0@
        } else {
            self.engine.active_schema@
        }
    }

    /// The schema a word is added to.
    pub fn add_word_target_schema(&self) -> (r: String)
        ensures
            r@ == self.target_schema(),
    {
        if self.mixed() {
            match &self.engine.mixed_primary {
                Some(p) => p.clone(),
                None => self.engine.active_schema.clone(),
            }
        } else {
            self.engine.active_schema.clone()
        }
    }

    fn mixed(&self) -> (r: bool)
        ensures
            r == (self.engine.schema_type == Some(EngineType::Mixed)),
    {
        match self.engine.schema_type {
            Some(t) => t == EngineType::Mixed,
            None => false,
        }
    }

    /// What an add-word page starts from.
    pub fn add_word_context(&self) -> (r: AddWordContext)
        ensures
            r.schema_id@ == self.target_schema(),
            r.recent_text@ == self.recent_chars(ADD_WORD_MAX_LEN as int),
            r.max_len == ADD_WORD_MAX_LEN,
    {
        let chars = self.add_word_recent_chars(ADD_WORD_MAX_LEN);
        AddWordContext {
            schema_id: self.add_word_target_schema(),
            recent_text: string_of(&chars),
            max_len: ADD_WORD_MAX_LEN,
        }
    }

    /// The arguments the add-word page is opened with.
    pub open spec fn dialog_args(word: Seq<char>, code: Seq<char>, schema: Seq<char>) -> Seq<char> {
        settings_args(seq![("text"@, word), ("code"@, code), ("schema"@, schema)])
    }

    /// Opens the add-word page.
    pub fn open_add_word_dialog_with(
        &self,
        word: &str,
        code: &str,
        schema: &str,
        out: &mut Outbox,
    ) -> (r: KeyAction)
        ensures
            r@ == ActionModel::ClearComposition,
            final(out)@ == old(out)@.push(
                EffectModel::OpenAddWordDialog {
                    args: Self::dialog_args(word@, code@, schema@),
                },
            ),
    {
        let pairs = [("text", word), ("code", code), ("schema", schema)];
        proof {
            assert(pairs_view(pairs@) =~= seq![
                ("text"@, word@),
                ("code"@, code@),
                ("schema"@, schema@),
            ]);
        }
        let args = build_settings_args(&pairs);
        out.put(Effect::OpenAddWordDialog { args });
        KeyAction::ClearComposition
    }

    /// Leaves the panel for the add-word page, which starts with its word and code.
    pub fn open_add_word_dialog(&self, state: &mut State, out: &mut Outbox) -> (r: KeyAction)
        ensures
            old(state).same_but_panel(*final(state)),
            final(state).panel() == closed_panel(),
            r@ == ActionModel::ClearComposition,
            ({
                let p = old(state).panel();
                let args = if p.wordless() {
                    Self::dialog_args(Seq::empty(), Seq::empty(), self.target_schema())
                } else {
                    Self::dialog_args(
                        p.word(),
                        shown_code(p.code, p.boundary),
                        self.target_schema(),
                    )
                };
                final(out)@ == old(out)@.push(EffectModel::UiHide).push(
                    EffectModel::OpenAddWordDialog { args },
                )
            }),
            !final(state).add_word_active,
            final(out)@.len() == old(out)@.len() + 2,
    {
        let (word, code) = if state.add_word_len >= ADD_WORD_MIN_LEN && pool_len(state)
            >= ADD_WORD_MIN_LEN {
            (add_word_current_word(state), add_word_display_code(state))
        } else {
            (String::new(), String::new())
        };
        let schema = self.add_word_target_schema();
        exit_add_word_mode(state, out);
        self.open_add_word_dialog_with(word.as_str(), code.as_str(), schema.as_str(), out)
    }

    /// The word the add-word page starts with when it is opened directly: the
    /// clipboard, or else the last characters committed.
    pub open spec fn history_word(self, clip: Seq<char>) -> Seq<char> {
        let c = clip_chars(clip);
        if c.len() >= ADD_WORD_MIN_LEN {
            c
        } else {
            last_chars(self.recent_chars(ADD_WORD_MAX_LEN as int), ADD_WORD_DEFAULT_LEN as int)
        }
    }

    /// The word the add-word page starts with when it is opened directly.
    pub fn add_word_history_word(&self, clip: &str) -> (r: String)
        ensures
            r@ == self.history_word(clip@),
    {
        let c = clipboard_add_word_chars(clip);
        if c.len() >= ADD_WORD_MIN_LEN {
            return string_of(&c);
        }
        let chars = self.add_word_recent_chars(ADD_WORD_MAX_LEN);
        if chars.len() > ADD_WORD_DEFAULT_LEN {
            proof {
                assert(chars@.subrange(
                    chars@.len() - ADD_WORD_DEFAULT_LEN,
                    chars@.len() as int,
                ) =~= chars@.skip(chars@.len() - ADD_WORD_DEFAULT_LEN));
            }
            string_of_range(&chars, chars.len() - ADD_WORD_DEFAULT_LEN, chars.len())
        } else {
            string_of(&chars)
        }
    }

    /// The word and the code the add-word page starts with when it is opened directly.
    /// `found` is the code of the word.
    pub fn add_word_prefill_from_history(&self, clip: &str, found: &WordCode) -> (r: (
        String,
        String,
    ))
        ensures
            r.0@ == self.history_word(clip@),
            r.1@ == (if self.history_word(clip@).len() == 0 {
                Seq::empty()
            } else {
                shown_code(found.code@, found.boundary)
            }),
    {
        let word = self.add_word_history_word(clip);
        if word.as_str().is_empty() {
            return (word, String::new());
        }
        let code = display_code(found.code.as_str(), found.boundary);
        (word, code)
    }

    /// Opens the add-word page directly. What was being typed is dropped; the panel is
    /// not opened.
    pub fn open_add_word_from_history(
        &self,
        state: &mut State,
        clip: &str,
        found: &WordCode,
        out: &mut Outbox,
    ) -> (r: KeyAction)
        ensures
            r@ == ActionModel::ClearComposition,
            typing_dropped(*old(state), *final(state)),
            final(out)@ == old(out)@.push(EffectModel::UiHide).push(
                EffectModel::OpenAddWordDialog {
                    args: Self::dialog_args(
                        self.history_word(clip@),
                        if self.history_word(clip@).len() == 0 {
                            Seq::empty()
                        } else {
                            shown_code(found.code@, found.boundary)
                        },
                        self.target_schema(),
                    ),
                },
            ),
            final(state).active is None && final(state).input_buffer@.len() == 0,
            final(out)@.len() == old(out)@.len() + 2 && final(out)@.last() is OpenAddWordDialog,
    {
        drop_typing(state);
        out.put(Effect::UiHide);
        let (word, code) = self.add_word_prefill_from_history(clip, found);
        let schema = self.add_word_target_schema();
        self.open_add_word_dialog_with(word.as_str(), code.as_str(), schema.as_str(), out)
    }

    /// The engine of the schema words are added to; `primary_type` is that of the
    /// primary schema of a mixed one.
    pub open spec fn target_type(self, primary_type: Option<EngineType>) -> Option<EngineType> {
        if self.engine.schema_type == Some(EngineType::Mixed) && self.engine.mixed_primary is Some {
            primary_type
        } else {
            self.engine.schema_type
        }
    }

    /// The code of a word, from what the engines say of it: of an English word the
    /// word itself, of a pinyin word its reading, if every character has one, and else
    /// what the code table gives.
    pub open spec fn word_code(
        self,
        word: Seq<char>,
        primary_type: Option<EngineType>,
        pinyin: (Seq<char>, u64),
        table: Option<Seq<char>>,
    ) -> (Seq<char>, u64) {
        let t = self.target_type(primary_type);
        if t == Some(EngineType::English) {
            (english_code(word), 0)
        } else if t == Some(EngineType::Pinyin) {
            if all_han_chars(word) {
                pinyin
            } else {
                (Seq::empty(), 0)
            }
        } else {
            match table {
                Some(c) => (c, 0),
                None => (Seq::empty(), 0),
            }
        }
    }

    /// The code of an English word.
    pub fn english_add_word_code(word: &str) -> (r: (String, u64))
        ensures
            r.0@ == english_code(word@),
            r.1 == 0,
    {
        if !word.is_ascii() || has_white(word) || !some_letter(word) {
            (String::new(), 0)
        } else {
            (lower_text(word), 0)
        }
    }

    /// Whether the code of a word is known without the engines, and which of them is
    /// to be asked else.
    pub fn add_word_code_route(&self, word: &str, primary_type: Option<EngineType>) -> (r:
        CodeRoute)
        ensures
            match r {
                CodeRoute::Known(c) => forall|p: (Seq<char>, u64), t: Option<Seq<char>>|
                    c@ == #[trigger] self.word_code(word@, primary_type, p, t),
                CodeRoute::Pinyin => forall|p: (Seq<char>, u64), t: Option<Seq<char>>|
                    p == #[trigger] self.word_code(word@, primary_type, p, t),
                CodeRoute::Table => forall|p: (Seq<char>, u64), t: Option<Seq<char>>|
                    (match t {
                        Some(c) => (c, 0u64),
                        None => (Seq::<char>::empty(), 0u64),
                    }) == #[trigger] self.word_code(word@, primary_type, p, t),
            },
    {
        let t = if self.mixed() && self.has_primary() {
            primary_type
        } else {
            self.engine.schema_type
        };
        match t {
            Some(EngineType::English) => {
                let (code, boundary) = Self::english_add_word_code(word);
                CodeRoute::Known(WordCode { code, boundary })
            },
            Some(EngineType::Pinyin) => if all_han(word) {
                CodeRoute::Pinyin
            } else {
                let w = WordCode { code: String::new(), boundary: 0 };
                assert(w@ == (Seq::<char>::empty(), 0u64));
                CodeRoute::Known(w)
            },
            _ => CodeRoute::Table,
        }
    }

    fn has_primary(&self) -> (r: bool)
        ensures
            r == (self.engine.mixed_primary is Some),
    {
        match &self.engine.mixed_primary {
            Some(_) => true,
            None => false,
        }
    }

    /// The code of a word, from what the engines say of it.
    pub fn calc_add_word_code(
        &self,
        word: &str,
        primary_type: Option<EngineType>,
        replies: CodeReplies,
    ) -> (r: WordCode)
        ensures
            r@ == self.word_code(word@, primary_type, replies.pinyin@, opt_view(replies.table)),
    {
        match self.add_word_code_route(word, primary_type) {
            CodeRoute::Known(c) => {
                assert(c@ == self.word_code(
                    word@,
                    primary_type,
                    replies.pinyin@,
                    opt_view(replies.table),
                ));
                c
            },
            CodeRoute::Pinyin => {
                assert(replies.pinyin@ == self.word_code(
                    word@,
                    primary_type,
                    replies.pinyin@,
                    opt_view(replies.table),
                ));
                replies.pinyin
            },
            CodeRoute::Table => {
                let ghost w = self.word_code(
                    word@,
                    primary_type,
                    replies.pinyin@,
                    opt_view(replies.table),
                );
                match replies.table {
                    Some(code) => WordCode { code, boundary: 0 },
                    None => {
                        let r = WordCode { code: String::new(), boundary: 0 };
                        assert(r@ == w);
                        r
                    },
                }
            },
        }
    }

    /// The word the panel writes: none without a word, without a code, without a store
    /// or without a schema to write to.
    pub open spec fn panel_write(self, p: PanelModel, schema: Option<Seq<char>>) -> Option<
        UserWordModel,
    > {
        if p.wordless() || p.code.len() == 0 || !self.engine.has_store || schema is None {
            None
        } else {
            Some(
                UserWordModel {
                    schema: schema->0,
                    code: p.code,
                    word: p.word(),
                    weight: ADD_WORD_WEIGHT,
                    boundary: p.boundary,
                },
            )
        }
    }

    /// Adds the word of the panel, and closes it. `schema` is where words of the
    /// schema in use are written. [`finish_add_word`] takes what the store answers.
    pub fn confirm_add_word(
        &self,
        state: &mut State,
        schema: Option<String>,
        out: &mut Outbox,
    ) -> (r: AddWordStep)
        ensures
            old(state).same_but_panel(*final(state)),
            final(state).panel() == closed_panel(),
            final(out)@ == old(out)@.push(EffectModel::UiHide),
            r@ == (StepModel {
                action: ActionModel::ClearComposition,
                need: NeedModel::Nothing,
                write: self.panel_write(old(state).panel(), opt_view(schema)),
            }),
            !final(state).add_word_active,
            r@.write matches Some(w) ==> w.weight == 1200 && w.code == old(state).add_word_code@ && w.boundary
                == old(state).add_word_boundary && w.word.len() > 0,
    {
        let write = if state.add_word_len < ADD_WORD_MIN_LEN || pool_len(state) < ADD_WORD_MIN_LEN
            || state.add_word_code.as_str().is_empty() || !self.engine.has_store {
            None
        } else {
            match schema {
                Some(schema) => Some(
                    UserWord {
                        schema,
                        code: state.add_word_code.clone(),
                        word: add_word_current_word(state),
                        weight: ADD_WORD_WEIGHT,
                        boundary: state.add_word_boundary,
                    },
                ),
                None => None,
            }
        };
        exit_add_word_mode(state, out);
        AddWordStep { action: KeyAction::ClearComposition, need: AddWordNeed::Nothing, write }
    }

    /// What a key does while the panel is open; every key is taken. `schema` is where
    /// words of the schema in use are written.
    pub fn handle_add_word_key(
        &self,
        state: &mut State,
        data: &KeyEventData,
        schema: Option<String>,
        out: &mut Outbox,
    ) -> (r: AddWordStep)
        ensures
            old(state).same_but_panel(*final(state)),
            r@ == self.key_step(old(state).panel(), *data, opt_view(schema)),
            final(state).panel() == self.key_panel(old(state).panel(), *data),
            final(out)@ == old(out)@ + self.key_effects(old(state).panel(), *data),
            r@.write is Some ==> data.key_code == VK_RETURN && !data.mods.ctrl,
            data.key_code == VK_ESCAPE ==> !final(state).add_word_active,
    {
        if data.key_code == VK_ESCAPE || data.key_code == VK_BACK {
            exit_add_word_mode(state, out);
            assert(out@ =~= old(out)@ + seq![EffectModel::UiHide]);
            return AddWordStep {
                action: KeyAction::ClearComposition,
                need: AddWordNeed::Nothing,
                write: None,
            };
        }
        if data.key_code == VK_UP {
            let r = adjust_add_word_length(state, 1);
            assert(out@ =~= old(out)@ + Seq::<EffectModel>::empty());
            return r;
        }
        if data.key_code == VK_DOWN {
            let r = adjust_add_word_length(state, -1);
            assert(out@ =~= old(out)@ + Seq::<EffectModel>::empty());
            return r;
        }
        if data.key_code == VK_TAB {
            let r = toggle_add_word_source(state, out);
            assert(out@ =~= old(out)@ + self.key_effects(old(state).panel(), *data));
            return r;
        }
        if data.key_code == VK_RETURN && data.mods.ctrl {
            let action = self.open_add_word_dialog(state, out);
            assert(out@ =~= old(out)@ + self.key_effects(old(state).panel(), *data));
            return AddWordStep { action, need: AddWordNeed::Nothing, write: None };
        }
        if data.key_code == VK_RETURN {
            let r = self.confirm_add_word(state, schema, out);
            assert(out@ =~= old(out)@ + seq![EffectModel::UiHide]);
            return r;
        }
        assert(out@ =~= old(out)@ + Seq::<EffectModel>::empty());
        AddWordStep { action: KeyAction::Consumed, need: AddWordNeed::Nothing, write: None }
    }

    /// How a key changes the panel.
    pub open spec fn key_panel(self, p: PanelModel, data: KeyEventData) -> PanelModel {
        let k = data.key_code;
        if k == VK_ESCAPE || k == VK_BACK || k == VK_RETURN {
            closed_panel()
        } else if k == VK_UP {
            p.adjusted(1)
        } else if k == VK_DOWN {
            p.adjusted((-1) as i32)
        } else if k == VK_TAB {
            if p.switched().unread() {
                p.switched()
            } else {
                p.switched().restarted()
            }
        } else {
            p
        }
    }

    /// What a key comes to while the panel is open.
    pub open spec fn key_step(self, p: PanelModel, data: KeyEventData, schema: Option<Seq<char>>) ->
        StepModel {
        let k = data.key_code;
        let quiet = StepModel {
            action: ActionModel::Consumed,
            need: NeedModel::Nothing,
            write: None,
        };
        let done = StepModel { action: ActionModel::ClearComposition, ..quiet };
        if k == VK_ESCAPE || k == VK_BACK {
            done
        } else if k == VK_RETURN {
            StepModel {
                write: if data.mods.ctrl {
                    None
                } else {
                    self.panel_write(p, schema)
                },
                ..done
            }
        } else if k == VK_TAB && p.switched().unread() {
            StepModel { need: NeedModel::Clipboard, ..quiet }
        } else if k == VK_TAB || ((k == VK_UP || k == VK_DOWN) && self.key_panel(p, data).len
            != p.len) {
            StepModel { need: self.key_panel(p, data).missing(), ..quiet }
        } else {
            quiet
        }
    }

    /// What a key sets off while the panel is open.
    pub open spec fn key_effects(self, p: PanelModel, data: KeyEventData) -> Seq<EffectModel> {
        let k = data.key_code;
        if k == VK_RETURN && data.mods.ctrl {
            let args = if p.wordless() {
                Self::dialog_args(Seq::empty(), Seq::empty(), self.target_schema())
            } else {
                Self::dialog_args(p.word(), shown_code(p.code, p.boundary), self.target_schema())
            };
            seq![EffectModel::UiHide, EffectModel::OpenAddWordDialog { args }]
        } else if k == VK_ESCAPE || k == VK_BACK || k == VK_RETURN {
            seq![EffectModel::UiHide]
        } else if k == VK_TAB && !p.switched().unread() && p.switched().restarted().missing()
            is Nothing {
            seq![EffectModel::UiAddWordPanel]
        } else {
            Seq::empty()
        }
    }

    /// Which word a code has to be found for before a text can be added, if any, or why
    /// the text cannot be added.
    pub open spec fn code_wanted(self, text: Seq<char>, code: Seq<char>) -> Result<
        Option<Seq<char>>,
        DictAddError,
    > {
        let word = trimmed(text);
        if !self.engine.has_store {
            Err(DictAddError::NoStore)
        } else if word.len() == 0 {
            Err(DictAddError::Empty)
        } else if multi_line(word) {
            Err(DictAddError::LineBreak)
        } else if code.len() > 0 {
            Ok(None)
        } else {
            match underivable(word) {
                Some(e) => Err(e),
                None => Ok(Some(word)),
            }
        }
    }

    /// Which word a code has to be found for before a text can be added, if any.
    pub fn dict_add_needs_code(&self, text: &str, code: &str) -> (r: Result<
        Option<String>,
        DictAddError,
    >)
        ensures
            match r {
                Ok(w) => self.code_wanted(text@, code@) == Ok::<_, DictAddError>(opt_view(w)),
                Err(e) => self.code_wanted(text@, code@) == Err::<Option<Seq<char>>, _>(e),
            },
    {
        if !self.engine.has_store {
            return Err(DictAddError::NoStore);
        }
        let word = match sanitize_dict_add_text(text) {
            Ok(w) => w,
            Err(e) => {
                return Err(e);
            },
        };
        if !code.is_empty() {
            return Ok(None);
        }
        match check_derivable_word(word.as_str()) {
            Ok(_) => Ok(Some(word)),
            Err(e) => Err(e),
        }
    }

    /// What adding a text comes to: the word that is written, or why not.
    pub open spec fn dict_added(
        self,
        text: Seq<char>,
        code: Seq<char>,
        found: (Seq<char>, u64),
        schema: Option<Seq<char>>,
    ) -> Result<UserWordModel, DictAddError> {
        match self.code_wanted(text, code) {
            Err(e) => Err(e),
            Ok(w) => {
                let (c, b) = if w is Some {
                    found
                } else {
                    (code, 0)
                };
                if c.len() == 0 {
                    Err(DictAddError::NoCode)
                } else {
                    match schema {
                        None => Err(DictAddError::NoSchema),
                        Some(schema) => Ok(
                            UserWordModel {
                                schema,
                                code: c,
                                word: trimmed(text),
                                weight: ADD_WORD_WEIGHT,
                                boundary: b,
                            },
                        ),
                    }
                }
            },
        }
    }

    /// Adds a text under a code, or under the code found for it when none is given.
    /// `schema` is where words of the schema in use are written.
    pub fn try_dict_add(
        &self,
        text: &str,
        code: &str,
        found: &WordCode,
        schema: Option<String>,
    ) -> (r: Result<UserWord, DictAddError>)
        ensures
            (match r {
                Ok(w) => Ok::<_, DictAddError>(w@),
                Err(e) => Err(e),
            }) == self.dict_added(text@, code@, found@, opt_view(schema)),
    {
        let derived = match self.dict_add_needs_code(text, code) {
            Ok(w) => match w {
                Some(_) => true,
                None => false,
            },
            Err(e) => {
                return Err(e);
            },
        };
        let (c, boundary): (String, u64) = if derived {
            (found.code.clone(), found.boundary)
        } else {
            (code.to_owned(), 0)
        };
        if c.as_str().is_empty() {
            return Err(DictAddError::NoCode);
        }
        match schema {
            Some(schema) => Ok(
                UserWord { schema, code: c, word: trim(text), weight: ADD_WORD_WEIGHT, boundary },
            ),
            None => Err(DictAddError::NoSchema),
        }
    }

    /// The message shown once a text was added.
    pub fn cmd_dict_add(&self, added: &UserWord) -> (r: String)
        ensures
            r@ == "已加词："@ + clamped(added.word@),
            added.word@.len() <= 16 ==> r@ == "已加词："@ + added.word@,
    {
        let w = toast_clamp(added.word.as_str());
        joined("已加词：", w.as_str())
    }
}

/// The length of a word stays within what can be added and what there is.
pub proof fn word_length_stays_in_bounds(p: PanelModel, delta: i32)
    requires
        p.pool().len() >= ADD_WORD_MIN_LEN,
    ensures
        ADD_WORD_MIN_LEN <= p.adjusted(delta).len <= ADD_WORD_MAX_LEN,
        p.adjusted(delta).len <= p.pool().len(),
        p.adjusted(delta).pool() == p.pool(),
{
}

/// Going over to the other source and back leads to the same source and the same
/// characters, starting afresh.
pub proof fn switching_twice_comes_back(p: PanelModel)
    ensures
        p.switched().restarted().switched().restarted() == p.restarted(),
{
}

/// A panel with recent input never asks for the clipboard on its own: only going over
/// to it does.
pub proof fn clipboard_waits_for_the_tab_key(
    c: Coordinator,
    p: PanelModel,
    data: KeyEventData,
    schema: Option<Seq<char>>,
)
    ensures
        c.key_step(p, data, schema).need is Clipboard ==> data.key_code == VK_TAB && !p.from_clip
            && p.clip is None,
{
}

/// Once it has been read, the clipboard is not read again while the panel is open.
pub proof fn clipboard_is_read_once(
    c: Coordinator,
    p: PanelModel,
    data: KeyEventData,
    schema: Option<Seq<char>>,
)
    requires
        p.clip is Some,
    ensures
        !(c.key_step(p, data, schema).need is Clipboard),
        c.key_panel(p, data).clip == p.clip || c.key_panel(p, data) == closed_panel(),
{
}

/// What is read of the clipboard is kept, whatever it holds.
pub proof fn reading_settles_the_clipboard(p: PanelModel, chars: Seq<char>)
    ensures
        p.supplied(chars).clip is Some,
        p.clip is None ==> p.supplied(chars).clip == Some(chars),
        p.clip is Some ==> p.supplied(chars).clip == p.clip,
{
}

/// Escape and backspace close the panel from every state, and write nothing.
pub proof fn escape_always_closes(
    c: Coordinator,
    p: PanelModel,
    data: KeyEventData,
    schema: Option<Seq<char>>,
)
    requires
        data.key_code == VK_ESCAPE || data.key_code == VK_BACK,
    ensures
        c.key_panel(p, data) == closed_panel(),
        c.key_step(p, data, schema).action is ClearComposition,
        c.key_step(p, data, schema).write is None,
{
}

/// A word is only written under a code.
pub proof fn no_word_is_written_without_a_code(
    c: Coordinator,
    p: PanelModel,
    text: Seq<char>,
    code: Seq<char>,
    found: (Seq<char>, u64),
    schema: Option<Seq<char>>,
)
    ensures
        c.panel_write(p, schema) matches Some(w) ==> w.code.len() > 0,
        c.dict_added(text, code, found, schema) matches Ok(w) ==> w.code.len() > 0 && w.word.len()
            > 0,
{
}

/// With a code given, any single line can be added; the limits hold only where the
/// code has to be found.
pub proof fn given_codes_lift_the_limits(
    c: Coordinator,
    text: Seq<char>,
    code: Seq<char>,
    found: (Seq<char>, u64),
    schema: Seq<char>,
)
    requires
        c.engine.has_store,
        code.len() > 0,
        trimmed(text).len() > 0,
        !multi_line(trimmed(text)),
    ensures
        c.dict_added(text, code, found, Some(schema)) is Ok,
{
}

/// A word of the panel is announced, in the dictionary it belongs to, if and only if the
/// store took it: a word refused by the store is not, and where nothing is to be written
/// nothing is.
pub proof fn only_written_words_are_announced(
    c: Coordinator,
    p: PanelModel,
    schema: Option<Seq<char>>,
    written: bool,
)
    ensures
        announced(c.panel_write(p, schema), written) == (if written && !p.wordless() && p.code.len()
            > 0 && c.engine.has_store && schema is Some {
            seq![EffectModel::DictChanged { schema: schema->0 }]
        } else {
            Seq::empty()
        }),
{
}

/// A word has one to ten characters and starts with two of recent input; it weighs more than
/// one that was learned, and a message shows sixteen characters of it.
pub proof fn added_words_have_their_limits()
    ensures
        ADD_WORD_MIN_LEN == 1,
        ADD_WORD_DEFAULT_LEN == 2,
        ADD_WORD_MAX_LEN == 10,
        ADD_WORD_WEIGHT == 1200,
        ADD_WORD_WEIGHT > crate::coordinator::LEARN_ADD_WEIGHT,
        TOAST_MAX == 16,
{
}

/// A text has several lines where a line end of either kind occurs in it.
pub proof fn line_ends_part_lines(s: Seq<char>, i: int)
    ensures
        0 <= i < s.len() && (s[i] == '\n' || s[i] == '\r') ==> multi_line(s),
        (forall|k: int| 0 <= k < s.len() ==> #[trigger] s[k] != '\n' && s[k] != '\r')
            ==> !multi_line(s),
{
}

/// A code can be derived for a word of up to ten ideographs. A longer text is refused for its
/// length, and any other for its characters.
pub proof fn codes_are_derived_for_short_words(word: Seq<char>)
    requires
        word.len() <= usize::MAX,
    ensures
        word.len() <= 10 && all_han_chars(word) ==> underivable(word) is None,
        word.len() > 10 ==> underivable(word) == Some(
            DictAddError::TooLong { count: word.len() as usize },
        ),
        word.len() <= 10 && !all_han_chars(word) ==> underivable(word) == Some(
            DictAddError::NotHan,
        ),
{
}

/// Each error is told in its own words; one about the length names the length and the limit.
pub proof fn errors_are_told_apart(count: usize)
    ensures
        DictAddError::NoStore.text() == "无词库存储"@,
        DictAddError::Empty.text() == "内容为空"@,
        DictAddError::LineBreak.text() == "内容含换行，请只复制一个词"@,
        (DictAddError::TooLong { count }).text() == "内容过长（"@ + decimal(count as nat)
            + " 字，上限 "@ + decimal(10) + "）"@,
        DictAddError::NotHan.text() == "含非汉字，无法自动取码"@,
        DictAddError::NoCode.text() == "当前方案取不出编码"@,
        DictAddError::NoSchema.text() == "混输方案主码表缺失，无法归属加词"@,
{
}

/// In a code of plain letters a syllable starts where its bit is set, but for the first.
pub proof fn syllables_start_where_their_bit_is_set(s: Seq<char>, boundary: u64, k: int)
    requires
        is_ascii_chars(s),
        0 <= k <= s.len(),
    ensures
        k == 0 || k >= 64 ==> !syllable_starts(s, boundary, k),
        0 < k < 64 ==> (syllable_starts(s, boundary, k) <==> (boundary >> (k as u64)) & 1 == 1),
{
    let t = s.take(k);
    assert(is_ascii_chars(t)) by {
        assert forall|i: int| 0 <= i < t.len() implies 0 <= (#[trigger] t[i]) as u32 <= 127 by {
            assert(t[i] == s[i]);
        }
    }
    lemma_ascii_offset(t);
}

proof fn lemma_ascii_offset(s: Seq<char>)
    requires
        is_ascii_chars(s),
    ensures
        utf8_offset(s) == s.len(),
    decreases s.len(),
{
    if s.len() > 0 {
        let d = s.drop_last();
        assert forall|i: int| 0 <= i < d.len() implies 0 <= (#[trigger] d[i]) as u32 <= 127 by {
            assert(d[i] == s[i]);
        }
        lemma_ascii_offset(d);
        assert(0 <= s[s.len() - 1] as u32 <= 127);
    }
}

proof fn lemma_spaced_front(s: Seq<char>, c: char, boundary: u64, k: int)
    requires
        0 <= k <= s.len(),
    ensures
        spaced(s.push(c), boundary, k) == spaced(s, boundary, k),
    decreases k,
{
    if k > 0 {
        lemma_spaced_front(s, c, boundary, k - 1);
        assert(s.push(c).take(k - 1) =~= s.take(k - 1));
        assert(s.push(c)[k - 1] == s[k - 1]);
    }
}

/// A code is shown letter by letter, with one space in front of each letter that starts a
/// syllable and nothing else between.
pub proof fn codes_are_shown_syllable_by_syllable(s: Seq<char>, c: char, boundary: u64)
    ensures
        syllable_starts(s.push(c), boundary, s.len() as int) ==> shown_code(s.push(c), boundary)
            == shown_code(s, boundary) + seq![' ', c],
        !syllable_starts(s.push(c), boundary, s.len() as int) ==> shown_code(s.push(c), boundary)
            == shown_code(s, boundary) + seq![c],
        shown_code(Seq::empty(), boundary).len() == 0,
{
    let n = s.len() as int;
    lemma_spaced_front(s, c, boundary, n);
    let before = shown_code(s, boundary);
    assert(before.push(' ').push(c) =~= before + seq![' ', c]);
    assert(before.push(c) =~= before + seq![c]);
    assert(s.push(c)[n] == c);
}

/// A message shows a short word whole, and of a long one the first sixteen characters with an
/// ellipsis.
pub proof fn messages_show_the_front_of_long_words(word: Seq<char>)
    ensures
        word.len() <= 16 ==> clamped(word) == word,
        word.len() > 16 ==> clamped(word) == word.take(16).push('…'),
{
    reveal_strlit("…");
    if word.len() > 16 {
        assert(clamped(word) =~= word.take(16).push('…'));
    }
}

/// An argument names its value, and quotes it where it holds white space.
pub proof fn arguments_quote_white_space(name: Seq<char>, value: Seq<char>)
    ensures
        !holds_white(value) ==> settings_arg(name, value) == seq!['-', '-'] + name + seq!['=']
            + value,
        holds_white(value) ==> settings_arg(name, value) == seq!['-', '-'] + name + seq!['=', '"']
            + value + seq!['"'],
{
    reveal_strlit("--");
    reveal_strlit("=\"");
    reveal_strlit("\"");
    reveal_strlit("=");
    assert("--"@ =~= seq!['-', '-']);
    assert("=\""@ =~= seq!['=', '"']);
    assert("\""@ =~= seq!['"']);
    assert("="@ =~= seq!['=']);
}

/// Arguments stand in their order, apart by one space; one without a value is left out.
pub proof fn arguments_stand_in_order(
    pairs: Seq<(Seq<char>, Seq<char>)>,
    name: Seq<char>,
    value: Seq<char>,
)
    ensures
        value.len() == 0 ==> settings_args(pairs.push((name, value))) == settings_args(pairs),
        value.len() > 0 && settings_args(pairs).len() == 0 ==> settings_args(
            pairs.push((name, value)),
        ) == settings_arg(name, value),
        value.len() > 0 && settings_args(pairs).len() > 0 ==> settings_args(
            pairs.push((name, value)),
        ) == settings_args(pairs).push(' ') + settings_arg(name, value),
        settings_args(Seq::empty()).len() == 0,
{
    let p = pairs.push((name, value));
    assert(p.drop_last() =~= pairs);
    reveal_strlit(" ");
    assert(settings_args(pairs) + " "@ =~= settings_args(pairs).push(' '));
}

/// The page is opened with the word, its code and the schema, in that order.
pub proof fn the_page_is_told_word_code_and_schema(
    word: Seq<char>,
    code: Seq<char>,
    schema: Seq<char>,
)
    requires
        word.len() > 0,
        code.len() > 0,
        schema.len() > 0,
    ensures
        Coordinator::dialog_args(word, code, schema) == settings_arg("text"@, word).push(' ')
            + settings_arg("code"@, code).push(' ') + settings_arg("schema"@, schema),
{
    let none = Seq::<(Seq<char>, Seq<char>)>::empty();
    let one = none.push(("text"@, word));
    let two = one.push(("code"@, code));
    let three = two.push(("schema"@, schema));
    arguments_stand_in_order(none, "text"@, word);
    arguments_stand_in_order(one, "code"@, code);
    arguments_stand_in_order(two, "schema"@, schema);
    arguments_quote_white_space("text"@, word);
    assert(settings_arg("text"@, word).len() > 0);
    assert(seq![("text"@, word), ("code"@, code), ("schema"@, schema)] =~= three);
    assert(Coordinator::dialog_args(word, code, schema) =~= settings_arg("text"@, word).push(' ')
        + settings_arg("code"@, code).push(' ') + settings_arg("schema"@, schema));
}

/// The word is as long as the panel says, as far as there is text: the end of recent input, or
/// the start of the clipboard.
pub proof fn the_word_is_the_end_or_the_start(p: PanelModel)
    ensures
        !p.from_clip ==> p.pool() == p.recent,
        p.from_clip ==> (p.clip matches Some(c) ==> p.pool() == c),
        p.from_clip && p.clip is None ==> p.pool().len() == 0,
        p.len <= p.pool().len() ==> p.word().len() == p.len,
        p.len > p.pool().len() ==> p.word() == p.pool(),
        p.from_clip ==> p.word().is_prefix_of(p.pool()),
        !p.from_clip ==> p.word() == p.recent.skip(p.recent.len() - p.word().len()),
        p.wordless() <==> p.word().len() == 0,
{
    if p.len > p.pool().len() {
        assert(p.pool().take(p.pool().len() as int) =~= p.pool());
        assert(p.pool().skip(0) =~= p.pool());
    }
}

/// A source starts with all of the clipboard, up to ten characters, or with the last two
/// characters of recent input, and with no code.
pub proof fn sources_start_with_their_word(p: PanelModel)
    ensures
        p.from_clip ==> start_len(p.from_clip, p.pool().len()) <= 10,
        p.from_clip && p.pool().len() <= 10 ==> p.restarted().word() == p.pool(),
        p.from_clip && p.pool().len() > 10 ==> p.restarted().word() == p.pool().take(10),
        !p.from_clip && p.pool().len() < 2 ==> p.restarted().word() == p.pool(),
        !p.from_clip && p.pool().len() >= 2 ==> p.restarted().word() == p.pool().skip(
            p.pool().len() - 2,
        ),
        p.restarted().code.len() == 0,
        p.restarted().boundary == 0,
        p.restarted().pool() == p.pool(),
        p.restarted().active == p.active,
{
    assert(p.pool().take(p.pool().len() as int) =~= p.pool());
    assert(p.pool().skip(0) =~= p.pool());
}

/// What a panel waits for is the code of its word, and nothing where it has none.
pub proof fn a_panel_waits_for_the_code_of_its_word(p: PanelModel)
    ensures
        p.len > 0 && p.len <= p.pool().len() ==> p.missing() == (NeedModel::Code {
            word: p.word(),
        }),
        p.len == 0 || p.len > p.pool().len() ==> p.missing() == NeedModel::Nothing,
{
}

/// Changing the length moves it by what was asked for, as far as there is text for one to ten
/// characters, and drops the code; a length that stays keeps it.
pub proof fn words_grow_and_shrink_as_asked(p: PanelModel, delta: i32)
    requires
        p.pool().len() >= 1,
        1 <= p.len + delta <= 10,
        p.len + delta <= p.pool().len(),
    ensures
        p.adjusted(delta).len == p.len + delta,
        delta != 0 ==> p.adjusted(delta).code.len() == 0 && p.adjusted(delta).boundary == 0,
        delta == 0 ==> p.adjusted(delta) == p,
        p.adjusted(delta).from_clip == p.from_clip && p.adjusted(delta).recent == p.recent
            && p.adjusted(delta).clip == p.clip && p.adjusted(delta).active == p.active,
{
}

/// At its limits a word neither grows nor shrinks, and without text nothing changes.
pub proof fn words_stop_at_their_limits(p: PanelModel)
    ensures
        p.pool().len() == 0 ==> p.adjusted(1) == p && p.adjusted((-1) as i32) == p,
        p.len == 1 ==> p.adjusted((-1) as i32) == p,
        p.len == 10 && p.pool().len() >= 10 ==> p.adjusted(1) == p,
        p.len == p.pool().len() && p.len <= 10 ==> p.adjusted(1) == p,
{
}

/// Going over changes the source and keeps what was read from either; the clipboard has to be
/// read where it is the source and was not.
pub proof fn going_over_keeps_what_was_read(p: PanelModel)
    ensures
        p.switched().from_clip == !p.from_clip,
        p.switched().recent == p.recent && p.switched().clip == p.clip,
        p.switched().unread() <==> !p.from_clip && p.clip is None,
        p.unread() <==> p.from_clip && p.clip is None,
{
}

/// A panel without recent input goes over to the clipboard once that has been read and holds
/// something; a panel with recent input stays where it is.
pub proof fn empty_panels_go_over_to_the_clipboard(p: PanelModel, chars: Seq<char>)
    requires
        p.clip is None,
    ensures
        p.recent.len() == 0 && chars.len() > 0 ==> p.supplied(chars).from_clip,
        p.recent.len() > 0 || chars.len() == 0 ==> p.supplied(chars).from_clip == p.from_clip,
        p.supplied(chars).recent == p.recent,
        p.supplied(chars).active == p.active,
        p.supplied(chars).code.len() == 0,
{
}

/// A closed panel holds nothing.
pub proof fn a_closed_panel_holds_nothing()
    ensures
        !closed_panel().active,
        closed_panel().recent.len() == 0,
        closed_panel().len == 0,
        closed_panel().code.len() == 0,
        closed_panel().boundary == 0,
        !closed_panel().from_clip,
        closed_panel().clip is None,
{
}

/// The history is read from the oldest text to the newest, and only its end is used.
pub proof fn the_newest_text_comes_last(h: Seq<Seq<char>>, t: Seq<char>, n: int)
    requires
        n >= 0,
    ensures
        history_text(seq![t] + h) == history_text(h) + t,
        history_text(Seq::empty()).len() == 0,
        history_text(h).len() <= n ==> last_chars(history_text(h), n) == history_text(h),
        history_text(h).len() > n ==> last_chars(history_text(h), n).len() == n && history_text(
            h,
        ).skip(history_text(h).len() - n) == last_chars(history_text(h), n),
{
    assert((seq![t] + h).drop_first() =~= h);
    assert((seq![t] + h)[0] == t);
}

/// What the panel takes of the clipboard is the text without the white space around it, up to
/// ten characters; of a blank text, or of several lines, it takes nothing.
pub proof fn the_clipboard_gives_one_line(raw: Seq<char>)
    ensures
        trimmed(raw).len() == 0 || multi_line(trimmed(raw)) ==> clip_chars(raw).len() == 0,
        0 < trimmed(raw).len() <= 10 && !multi_line(trimmed(raw)) ==> clip_chars(raw) == trimmed(
            raw,
        ),
        trimmed(raw).len() > 10 && !multi_line(trimmed(raw)) ==> clip_chars(raw) == trimmed(
            raw,
        ).take(10),
{
}

/// The panel shows where the word comes from, the word with its code, and the keys; none of
/// its rows has a number.
pub proof fn the_panel_shows_word_and_code(p: PanelModel)
    ensures
        panel_rows(p).len() == 3,
        forall|i: int| 0 <= i < 3 ==> (#[trigger] panel_rows(p)[i]).no_index,
        p.from_clip ==> panel_rows(p)[0].text == "快捷加词 · 剪贴板"@,
        !p.from_clip ==> panel_rows(p)[0].text == "快捷加词 · 最近输入"@,
        !p.wordless() ==> panel_rows(p)[1].text == p.word(),
        !p.wordless() && p.code.len() > 0 ==> panel_rows(p)[1].comment == shown_code(
            p.code,
            p.boundary,
        ),
        !p.wordless() && p.code.len() == 0 ==> panel_rows(p)[1].comment == "无法计算编码"@,
        p.wordless() && p.from_clip ==> panel_rows(p)[1].text == "剪贴板无可用内容"@
            && panel_rows(p)[1].comment == "需要单行文本"@,
        p.wordless() && !p.from_clip ==> panel_rows(p)[1].text == "无最近输入"@ && panel_rows(
            p,
        )[1].comment == "请先输入文字后再使用"@,
        p.wordless() ==> panel_rows(p)[2].comment == "Tab切换来源  Esc关闭"@,
        !p.wordless() ==> panel_rows(p)[2].comment
            == "↑↓调整长度  Tab切换来源  Enter添加  Ctrl+Enter编辑  Esc取消"@,
{
}

/// An English word is its own code, in lower case; white space, anything but ASCII, and a text
/// without a letter give no code.
pub proof fn english_words_are_their_own_code(word: Seq<char>)
    ensures
        is_ascii_chars(word) && !holds_white(word) && has_letter(word) ==> english_code(word)
            == lowered_text(word) && english_code(word).len() == word.len(),
        !is_ascii_chars(word) || holds_white(word) || !has_letter(word) ==> english_code(word).len()
            == 0,
{
}

/// Words of a mixed schema go to its primary code table, where it names one, and are coded by
/// the engine of that; any other schema takes its own words.
pub proof fn mixed_schemas_add_to_their_code_table(
    c: Coordinator,
    primary_type: Option<EngineType>,
)
    ensures
        c.engine.schema_type == Some(EngineType::Mixed) ==> (c.engine.mixed_primary matches Some(p)
            ==> c.target_schema() == p@ && c.target_type(primary_type) == primary_type),
        c.engine.schema_type != Some(EngineType::Mixed) || c.engine.mixed_primary is None
            ==> c.target_schema() == c.engine.active_schema@ && c.target_type(primary_type)
            == c.engine.schema_type,
{
}

/// The page that is opened directly starts with the clipboard where that holds a word, and else
/// with the last two characters committed.
pub proof fn the_page_starts_with_the_clipboard(c: Coordinator, clip: Seq<char>)
    ensures
        clip_chars(clip).len() > 0 ==> c.history_word(clip) == clip_chars(clip),
        clip_chars(clip).len() == 0 ==> c.history_word(clip) == last_chars(c.recent_chars(10), 2),
        clip_chars(clip).len() == 0 && history_text(c.history()).len() >= 2 ==> c.history_word(
            clip,
        ) == history_text(c.history()).skip(history_text(c.history()).len() - 2),
{
    let h = history_text(c.history());
    if h.len() >= 2 {
        let r = c.recent_chars(10);
        assert(last_chars(r, 2) =~= h.skip(h.len() - 2));
    }
}

/// The code of a word comes from the engine of the schema it is added to: English spells it,
/// pinyin reads it where every character is an ideograph, and a code table looks it up.
pub proof fn engines_code_their_own_words(
    c: Coordinator,
    word: Seq<char>,
    primary_type: Option<EngineType>,
    pinyin: (Seq<char>, u64),
    table: Option<Seq<char>>,
)
    ensures
        ({
            let t = c.target_type(primary_type);
            let r = c.word_code(word, primary_type, pinyin, table);
            &&& t == Some(EngineType::English) ==> r == (english_code(word), 0u64)
            &&& t == Some(EngineType::Pinyin) && all_han_chars(word) ==> r == pinyin
            &&& t == Some(EngineType::Pinyin) && !all_han_chars(word) ==> r == (
                Seq::<char>::empty(),
                0u64,
            )
            &&& t != Some(EngineType::English) && t != Some(EngineType::Pinyin) ==> {
                &&& table matches Some(code) ==> r == (code, 0u64)
                &&& table is None ==> r == (Seq::<char>::empty(), 0u64)
            }
        }),
{
}

/// A panel with a word and its code writes that word under that code, with the weight of a word
/// added by hand, wherever it can be written.
pub proof fn panels_write_their_word(c: Coordinator, p: PanelModel, schema: Seq<char>)
    ensures
        p.word().len() > 0 && p.code.len() > 0 && c.engine.has_store ==> c.panel_write(
            p,
            Some(schema),
        ) == Some(
            UserWordModel {
                schema,
                code: p.code,
                word: p.word(),
                weight: 1200,
                boundary: p.boundary,
            },
        ),
        p.word().len() == 0 || p.code.len() == 0 || !c.engine.has_store ==> c.panel_write(
            p,
            Some(schema),
        ) is None,
        c.panel_write(p, None) is None,
{
    the_word_is_the_end_or_the_start(p);
}

/// The arrows change the length by one character, the tabulator goes over to the other source,
/// return, escape and backspace close the panel, and any other key does nothing to it.
pub proof fn each_key_has_its_part_in_the_panel(c: Coordinator, p: PanelModel, data: KeyEventData)
    ensures
        data.key_code == 0x26 ==> c.key_panel(p, data) == p.adjusted(1),
        data.key_code == 0x28 ==> c.key_panel(p, data) == p.adjusted((-1) as i32),
        data.key_code == 0x09 ==> c.key_panel(p, data).from_clip == !p.from_clip,
        data.key_code == 0x09 && (p.from_clip || p.clip is Some) ==> c.key_panel(p, data)
            == p.switched().restarted(),
        data.key_code == 0x09 && !p.from_clip && p.clip is None ==> c.key_panel(p, data)
            == p.switched(),
        data.key_code == 0x0D || data.key_code == 0x1B || data.key_code == 0x08 ==> c.key_panel(
            p,
            data,
        ) == closed_panel(),
        data.key_code != 0x26 && data.key_code != 0x28 && data.key_code != 0x09 && data.key_code
            != 0x0D && data.key_code != 0x1B && data.key_code != 0x08 ==> c.key_panel(p, data) == p,
{
}

/// Return writes the word and ends the composition; with control it opens the page instead.
/// Escape and backspace only end it. Every other key is taken and writes nothing.
pub proof fn return_writes_the_word(
    c: Coordinator,
    p: PanelModel,
    data: KeyEventData,
    schema: Option<Seq<char>>,
)
    ensures
        data.key_code == 0x0D && !data.mods.ctrl ==> c.key_step(p, data, schema).write
            == c.panel_write(p, schema) && c.key_step(p, data, schema).action
            == ActionModel::ClearComposition && c.key_effects(p, data) == seq![EffectModel::UiHide],
        data.key_code == 0x0D && data.mods.ctrl ==> c.key_step(p, data, schema).write is None
            && c.key_step(p, data, schema).action == ActionModel::ClearComposition && c.key_effects(
            p,
            data,
        ).len() == 2 && c.key_effects(p, data)[0] == EffectModel::UiHide && c.key_effects(
            p,
            data,
        )[1] is OpenAddWordDialog,
        data.key_code == 0x1B || data.key_code == 0x08 ==> c.key_step(p, data, schema).action
            == ActionModel::ClearComposition && c.key_effects(p, data) == seq![EffectModel::UiHide],
        data.key_code != 0x0D ==> c.key_step(p, data, schema).write is None,
        data.key_code != 0x0D && data.key_code != 0x1B && data.key_code != 0x08 ==> c.key_step(
            p,
            data,
            schema,
        ).action == ActionModel::Consumed,
{
}

/// A page that is opened from the panel gets its word and code, as they are shown.
pub proof fn the_page_takes_over_the_word(c: Coordinator, p: PanelModel, data: KeyEventData)
    requires
        data.key_code == 0x0D,
        data.mods.ctrl,
    ensures
        p.word().len() > 0 ==> c.key_effects(p, data)[1] == (EffectModel::OpenAddWordDialog {
            args: Coordinator::dialog_args(
                p.word(),
                shown_code(p.code, p.boundary),
                c.target_schema(),
            ),
        }),
        p.word().len() == 0 ==> c.key_effects(p, data)[1] == (EffectModel::OpenAddWordDialog {
            args: Coordinator::dialog_args(Seq::empty(), Seq::empty(), c.target_schema()),
        }),
{
    the_word_is_the_end_or_the_start(p);
}

/// A word that changed needs its code: what the panel asks for after a key is the code of the
/// word it holds then, and the clipboard where that has to be read first.
pub proof fn changed_words_need_a_code(
    c: Coordinator,
    p: PanelModel,
    data: KeyEventData,
    schema: Option<Seq<char>>,
)
    ensures
        data.key_code == 0x09 && !p.from_clip && p.clip is None ==> c.key_step(p, data, schema).need
            == NeedModel::Clipboard,
        data.key_code == 0x09 && (p.from_clip || p.clip is Some) ==> c.key_step(
            p,
            data,
            schema,
        ).need == c.key_panel(p, data).missing(),
        (data.key_code == 0x26 || data.key_code == 0x28) && c.key_panel(p, data).len != p.len
            ==> c.key_step(p, data, schema).need == c.key_panel(p, data).missing(),
        (data.key_code == 0x26 || data.key_code == 0x28) && c.key_panel(p, data).len == p.len
            ==> c.key_step(p, data, schema).need == NeedModel::Nothing,
        data.key_code != 0x09 && data.key_code != 0x26 && data.key_code != 0x28 ==> c.key_step(
            p,
            data,
            schema,
        ).need == NeedModel::Nothing,
{
}

/// A panel that needs nothing more after the tabulator is shown at once.
pub proof fn panels_that_need_nothing_are_shown(
    c: Coordinator,
    p: PanelModel,
    data: KeyEventData,
    schema: Option<Seq<char>>,
    o: Seq<EffectModel>,
    need: NeedModel,
)
    ensures
        data.key_code == 0x09 ==> c.key_effects(p, data) == (if c.key_step(p, data, schema).need
            is Nothing {
            seq![EffectModel::UiAddWordPanel]
        } else {
            Seq::empty()
        }),
        data.key_code != 0x09 && data.key_code != 0x0D && data.key_code != 0x1B && data.key_code
            != 0x08 ==> c.key_effects(p, data).len() == 0,
        need is Nothing ==> shown_if_ready(o, need) == o.push(EffectModel::UiAddWordPanel),
        !(need is Nothing) ==> shown_if_ready(o, need) == o,
{
}

/// A text that is added needs a store and has to be one line with something on it; a code that
/// is given is taken as it is, and else one is needed for the text without the white space
/// around it.
pub proof fn texts_are_added_as_one_line(c: Coordinator, text: Seq<char>, code: Seq<char>)
    ensures
        !c.engine.has_store ==> c.code_wanted(text, code) == Err::<Option<Seq<char>>, DictAddError>(
            DictAddError::NoStore,
        ),
        c.engine.has_store && trimmed(text).len() == 0 ==> c.code_wanted(text, code) == Err::<
            Option<Seq<char>>,
            DictAddError,
        >(DictAddError::Empty),
        c.engine.has_store && trimmed(text).len() > 0 && multi_line(trimmed(text)) ==> c.code_wanted(
            text,
            code,
        ) == Err::<Option<Seq<char>>, DictAddError>(DictAddError::LineBreak),
        c.engine.has_store && trimmed(text).len() > 0 && !multi_line(trimmed(text)) && code.len()
            > 0 ==> c.code_wanted(text, code) == Ok::<Option<Seq<char>>, DictAddError>(None),
        c.engine.has_store && 0 < trimmed(text).len() <= 10 && !multi_line(trimmed(text))
            && all_han_chars(trimmed(text)) && code.len() == 0 ==> c.code_wanted(text, code)
            == Ok::<Option<Seq<char>>, DictAddError>(Some(trimmed(text))),
        c.engine.has_store && trimmed(text).len() > 10 && !multi_line(trimmed(text)) && code.len()
            == 0 ==> (c.code_wanted(text, code) matches Err(e) && e is TooLong),
        c.engine.has_store && 0 < trimmed(text).len() <= 10 && !multi_line(trimmed(text))
            && !all_han_chars(trimmed(text)) && code.len() == 0 ==> c.code_wanted(text, code)
            == Err::<Option<Seq<char>>, DictAddError>(DictAddError::NotHan),
{
}

/// A text that can be added is written under the code that is given, or under the one that was
/// found, with the weight of a word added by hand. It is refused where no code was found, and
/// where there is no schema to write to; an error found before is told first.
pub proof fn texts_are_added_under_their_code(
    c: Coordinator,
    text: Seq<char>,
    code: Seq<char>,
    found: (Seq<char>, u64),
    schema: Seq<char>,
)
    ensures
        c.code_wanted(text, code) matches Err(e) ==> c.dict_added(text, code, found, Some(schema))
            == Err::<UserWordModel, DictAddError>(e),
        c.code_wanted(text, code) is Ok && code.len() > 0 ==> c.dict_added(
            text,
            code,
            found,
            Some(schema),
        ) == Ok::<UserWordModel, DictAddError>(
            UserWordModel { schema, code, word: trimmed(text), weight: 1200, boundary: 0 },
        ),
        c.code_wanted(text, code) is Ok && code.len() == 0 ==> {
            let (k, b) = found;
            &&& k.len() > 0 ==> c.dict_added(text, code, found, Some(schema)) == Ok::<
                UserWordModel,
                DictAddError,
            >(UserWordModel { schema, code: k, word: trimmed(text), weight: 1200, boundary: b })
            &&& k.len() == 0 ==> c.dict_added(text, code, found, Some(schema)) == Err::<
                UserWordModel,
                DictAddError,
            >(DictAddError::NoCode)
        },
        c.code_wanted(text, code) is Ok && code.len() > 0 ==> c.dict_added(text, code, found, None)
            == Err::<UserWordModel, DictAddError>(DictAddError::NoSchema),
{
}

} // verus!

//! Choices made with digits, selection keys, the mouse, and by typing past a full
//! code.

use crate::action::{ActionModel, Effect, EffectModel, KeyAction, Outbox};
use crate::candidate::{opt_view, Candidate, CandidateModel, CandidateSource};
use crate::coordinator::{
    composition_cleared, reset_candidate_view, reset_pinyin_composition, Coordinator, TopCommitMode,
};
use crate::freq::freq_code_of;
use crate::selection::{cased_tail, command_input, keep_cased_tail, plain_insert};
use crate::state::{ModeKind, State};
use crate::text::{byte_size, char_count, joined, same};
use crate::view::pages_start_inside_the_count;
use vstd::prelude::*;
use vstd::string::*;

verus! {

/// What the user configured for a key that points past the list.
#[derive(Clone, Copy, PartialEq, Eq, Structural, Debug)]
pub enum OverflowRule {
    /// The key is swallowed.
    Ignore,
    /// The highlighted candidate is committed.
    Commit,
    /// The highlighted candidate is committed and the key's character follows.
    CommitAndInput,
}

/// The rule a configuration value names; an unknown one stands for ignoring the key.
pub open spec fn rule_named(s: Seq<char>) -> OverflowRule {
    if s == "commit"@ {
        OverflowRule::Commit
    } else if s == "commit_and_input"@ {
        OverflowRule::CommitAndInput
    } else {
        OverflowRule::Ignore
    }
}

/// The rule a configuration value names.
pub fn overflow_rule(s: &str) -> (r: OverflowRule)
    ensures
        r == rule_named(s@),
{
    if same(s, "commit") {
        OverflowRule::Commit
    } else if same(s, "commit_and_input") {
        OverflowRule::CommitAndInput
    } else {
        OverflowRule::Ignore
    }
}

/// What a key that chooses comes to.
#[derive(Debug)]
pub enum ChoiceStep {
    /// The key is answered at once.
    Reply(KeyAction),
    /// The candidate is committed, and `extra` is put behind what it inserts.
    Commit { index: usize, position: i32, extra: String },
}

/// What a [`ChoiceStep`] says.
pub ghost enum ChoiceModel {
    Reply(ActionModel),
    Commit { index: usize, position: i32, extra: Seq<char> },
}

impl View for ChoiceStep {
    type V = ChoiceModel;

    open spec fn view(&self) -> ChoiceModel {
        match *self {
            ChoiceStep::Reply(a) => ChoiceModel::Reply(a@),
            ChoiceStep::Commit { index, position, extra } => ChoiceModel::Commit {
                index,
                position,
                extra: extra@,
            },
        }
    }
}

/// What choosing a character of the highlighted word comes to.
#[derive(Debug)]
pub enum CharChoice {
    /// No character can be chosen.
    Fail,
    /// The key is swallowed: a group has to be opened first.
    Swallow,
    /// `to_convert` is committed once converted.
    Take { to_convert: String },
}

/// What a [`CharChoice`] says.
pub ghost enum CharChoiceModel {
    Fail,
    Swallow,
    Take { to_convert: Seq<char> },
}

impl View for CharChoice {
    type V = CharChoiceModel;

    open spec fn view(&self) -> CharChoiceModel {
        match *self {
            CharChoice::Fail => CharChoiceModel::Fail,
            CharChoice::Swallow => CharChoiceModel::Swallow,
            CharChoice::Take { to_convert } => CharChoiceModel::Take { to_convert: to_convert@ },
        }
    }
}

/// What a character key comes to.
#[derive(Debug)]
pub enum CharStep {
    /// `to_convert` is committed once converted.
    Take { to_convert: String },
    /// The rule for overflow decides.
    Choice(ChoiceStep),
}

/// What a [`CharStep`] says.
pub ghost enum CharStepModel {
    Take { to_convert: Seq<char> },
    Choice(ChoiceModel),
}

impl View for CharStep {
    type V = CharStepModel;

    open spec fn view(&self) -> CharStepModel {
        match *self {
            CharStep::Take { to_convert } => CharStepModel::Take { to_convert: to_convert@ },
            CharStep::Choice(c) => CharStepModel::Choice(c@),
        }
    }
}

/// What choosing a candidate by its place in the list comes to.
#[derive(Debug)]
pub enum SelectStep {
    /// There is no such candidate.
    Ignore,
    /// A command runs; nothing is left to do.
    Ran,
    /// The candidate is committed as a key would, or by the auxiliary-code mode.
    Commit { index: usize, position: usize, aux: bool },
    /// A group was opened: the input is converted anew.
    Requery,
    /// The candidate of an overlay mode is committed whole, recorded under `code`.
    CommitOverlay { index: usize, code: String },
}

/// What a [`SelectStep`] says.
pub ghost enum SelectModel {
    Ignore,
    Ran,
    Commit { index: usize, position: usize, aux: bool },
    Requery,
    CommitOverlay { index: usize, code: Seq<char> },
}

impl View for SelectStep {
    type V = SelectModel;

    open spec fn view(&self) -> SelectModel {
        match *self {
            SelectStep::Ignore => SelectModel::Ignore,
            SelectStep::Ran => SelectModel::Ran,
            SelectStep::Commit { index, position, aux } => SelectModel::Commit {
                index,
                position,
                aux,
            },
            SelectStep::Requery => SelectModel::Requery,
            SelectStep::CommitOverlay { index, code } => SelectModel::CommitOverlay {
                index,
                code: code@,
            },
        }
    }
}

/// Whether `b` is `a` after a whole commit: no keys and no candidates, the
/// composition text empty and the view at its start.
pub open spec fn committed_whole(a: State, b: State) -> bool {
    &&& b.input_buffer@.len() == 0
    &&& b.preedit@.len() == 0
    &&& b.candidates@.len() == 0
    &&& b == (State {
        input_buffer: b.input_buffer,
        preedit: b.preedit,
        candidates: b.candidates,
        current_page: 0,
        selected_index: 0,
        hover_index: None,
        ..a
    })
}

/// The text that is evaluated when `c` is a command that is nothing but text.
pub open spec fn commits_text(c: CandidateModel, text: Option<Seq<char>>) -> bool {
    c.is_command && text is Some && text->0.len() > 0
}

/// Whether ordinary input commits candidates: with no mode in force, or with an
/// auxiliary code narrowing the list.
pub open spec fn on_main_path(state: State) -> bool {
    state.active is None || state.active == Some(ModeKind::AuxCode)
}

fn is_on_main_path(state: &State) -> (r: bool)
    ensures
        r == on_main_path(*state),
{
    match state.active {
        None => true,
        Some(m) => m == ModeKind::AuxCode,
    }
}

/// The digit a key types: its last one, in the width asked for.
pub open spec fn digit_text(num: int, full_width: bool) -> Seq<char> {
    seq![
        (num % 10 + if full_width {
            0xFF10int
        } else {
            0x30int
        }) as char,
    ]
}

/// The digit a key types: its last one, in the width asked for.
pub fn overflow_digit(num: usize, full_width: bool) -> (r: String)
    ensures
        r@ == digit_text(num as int, full_width),
{
    let d: usize = num % 10;
    let ch: char = if !full_width {
        (0x30 + d as u8) as char
    } else {
        match d {
            0 => '０',
            1 => '１',
            2 => '２',
            3 => '３',
            4 => '４',
            5 => '５',
            6 => '６',
            7 => '７',
            8 => '８',
            _ => '９',
        }
    };
    let mut text = String::new();
    text.push(ch);
    assert(text@ =~= seq![ch]);
    text
}

impl Coordinator {
    /// What a key that points past the list comes to while there are candidates.
    pub open spec fn past_the_list(
        self,
        state: State,
        rule: OverflowRule,
        piece: Seq<char>,
    ) -> ChoiceModel {
        let hi = self.highlight(state);
        if hi >= state.candidates@.len() || rule == OverflowRule::Ignore {
            ChoiceModel::Reply(ActionModel::Consumed)
        } else {
            ChoiceModel::Commit {
                index: hi as usize,
                position: state.selected_index as i32,
                extra: if rule == OverflowRule::CommitAndInput {
                    piece
                } else {
                    Seq::empty()
                },
            }
        }
    }

    fn overflow_on_list(&self, state: &State, rule: OverflowRule, piece: &str) -> (r: ChoiceStep)
        requires
            self.paging_fits(*state),
        ensures
            r@ == self.past_the_list(*state, rule, piece@),
    {
        let hi = self.highlighted_global_index(state);
        if hi >= state.candidates.len() || rule == OverflowRule::Ignore {
            return ChoiceStep::Reply(KeyAction::Consumed);
        }
        let extra = if rule == OverflowRule::CommitAndInput {
            piece.to_owned()
        } else {
            String::new()
        };
        assert(rule != OverflowRule::CommitAndInput ==> extra@ =~= Seq::empty());
        ChoiceStep::Commit { index: hi, position: state.selected_index as i32, extra }
    }

    /// What digit key `num` comes to when it points past the page; `numpad_raw` says that
    /// it belongs to a numeric keypad that types as it is. Without candidates the key is
    /// swallowed.
    pub fn handle_overflow_number_key(&self, state: &State, num: usize, numpad_raw: bool) -> (r:
        ChoiceStep)
        requires
            self.paging_fits(*state),
        ensures
            r@ == (if state.candidates@.len() == 0 {
                ChoiceModel::Reply(ActionModel::Consumed)
            } else {
                self.past_the_list(
                    *state,
                    rule_named(self.settings.overflow_number_key@),
                    digit_text(num as int, state.full_width && !numpad_raw),
                )
            }),
            state.candidates@.len() == 0 ==> r@ == ChoiceModel::Reply(ActionModel::Consumed),
            state.candidates@.len() > 0 && self.settings.overflow_number_key@ == "commit"@ && self.highlight(
                *state,
            ) < state.candidates@.len() ==> (r@ matches ChoiceModel::Commit { index, position, extra } && index
                == self.highlight(*state) && extra.len() == 0),
    {
        if state.candidates.len() == 0 {
            return ChoiceStep::Reply(KeyAction::Consumed);
        }
        let rule = overflow_rule(self.settings.overflow_number_key.as_str());
        let digit = overflow_digit(num, state.full_width && !numpad_raw);
        self.overflow_on_list(state, rule, digit.as_str())
    }

    /// What digit key `num` comes to.
    pub open spec fn digit_choice(self, state: State, num: int, numpad_raw: bool) -> ChoiceModel {
        if self.page_start(state) + num - 1 < self.page_end(state) {
            ChoiceModel::Commit {
                index: (self.page_start(state) + num - 1) as usize,
                position: (num - 1) as i32,
                extra: Seq::empty(),
            }
        } else if state.candidates@.len() == 0 {
            ChoiceModel::Reply(ActionModel::Consumed)
        } else {
            self.past_the_list(
                state,
                rule_named(self.settings.overflow_number_key@),
                digit_text(num, state.full_width && !numpad_raw),
            )
        }
    }

    /// What digit key `num` comes to: row `num` of the page, counted from 1, or what
    /// the rule for digits past the page says.
    pub fn handle_number_key_select(&self, state: &State, num: usize, numpad_raw: bool) -> (r:
        ChoiceStep)
        requires
            1 <= num,
            self.paging_fits(*state),
        ensures
            r@ == self.digit_choice(*state, num as int, numpad_raw),
    {
        let (start, end) = self.page_range(state);
        if start < end && num - 1 < end - start {
            let extra = String::new();
            assert(extra@ =~= Seq::empty());
            return ChoiceStep::Commit {
                index: start + (num - 1),
                position: (num - 1) as i32,
                extra,
            };
        }
        self.handle_overflow_number_key(state, num, numpad_raw)
    }

    /// What a key that points past the list comes to when the list may be empty.
    pub open spec fn past_any_list(
        self,
        state: State,
        rule: OverflowRule,
        piece: Seq<char>,
    ) -> ChoiceModel {
        if state.candidates@.len() > 0 {
            self.past_the_list(state, rule, piece)
        } else {
            match rule {
                OverflowRule::Ignore => ChoiceModel::Reply(ActionModel::Consumed),
                OverflowRule::Commit => ChoiceModel::Reply(ActionModel::ClearComposition),
                OverflowRule::CommitAndInput => ChoiceModel::Reply(
                    plain_insert(piece, state.chinese_mode),
                ),
            }
        }
    }

    /// Whether such a key drops the composition: there are no candidates, and the
    /// rule is not to ignore it.
    pub open spec fn drops_composition(state: State, rule: OverflowRule) -> bool {
        state.candidates@.len() == 0 && rule != OverflowRule::Ignore
    }

    fn overflow_any(&self, state: &mut State, rule: OverflowRule, piece: &str, out: &mut Outbox) -> (r:
        ChoiceStep)
        requires
            self.paging_fits(*old(state)),
        ensures
            r@ == self.past_any_list(*old(state), rule, piece@),
            Self::drops_composition(*old(state), rule) ==> {
                &&& composition_cleared(*old(state), *final(state))
                &&& final(out)@ == old(out)@.push(EffectModel::UiHide)
            },
            !Self::drops_composition(*old(state), rule) ==> {
                &&& *final(state) == *old(state)
                &&& final(out)@ == old(out)@
            },
    {
        if state.candidates.len() > 0 {
            return self.overflow_on_list(state, rule, piece);
        }
        match rule {
            OverflowRule::Ignore => ChoiceStep::Reply(KeyAction::Consumed),
            OverflowRule::Commit => {
                reset_pinyin_composition(state);
                out.put(Effect::UiHide);
                ChoiceStep::Reply(KeyAction::ClearComposition)
            },
            OverflowRule::CommitAndInput => {
                reset_pinyin_composition(state);
                out.put(Effect::UiHide);
                ChoiceStep::Reply(Self::commit_action(piece.to_owned(), state.chinese_mode))
            },
        }
    }

    /// What a selection key that points past the page comes to; `piece` is the key's
    /// character as it would be inserted.
    pub fn handle_overflow_select_key(&self, state: &mut State, piece: &str, out: &mut Outbox) -> (r:
        ChoiceStep)
        requires
            self.paging_fits(*old(state)),
        ensures
            r@ == self.past_any_list(
                *old(state),
                rule_named(self.settings.overflow_select_key@),
                piece@,
            ),
            Self::drops_composition(*old(state), rule_named(self.settings.overflow_select_key@))
                ==> {
                &&& composition_cleared(*old(state), *final(state))
                &&& final(out)@ == old(out)@.push(EffectModel::UiHide)
            },
            !Self::drops_composition(*old(state), rule_named(self.settings.overflow_select_key@))
                ==> {
                &&& *final(state) == *old(state)
                &&& final(out)@ == old(out)@
            },
    {
        let rule = overflow_rule(self.settings.overflow_select_key.as_str());
        self.overflow_any(state, rule, piece, out)
    }

    /// What choosing character `i` of the highlighted word comes to.
    pub open spec fn char_choice(self, state: State, i: int) -> CharChoiceModel {
        let hi = self.highlight(state);
        if state.candidates@.len() == 0 || state.input_buffer@.len() == 0 || hi
            >= state.candidates@.len() {
            CharChoiceModel::Fail
        } else if state.candidates@[hi].is_group {
            CharChoiceModel::Swallow
        } else if i >= state.candidates@[hi].text@.len() {
            CharChoiceModel::Fail
        } else {
            CharChoiceModel::Take {
                to_convert: state.committed_text@.push(state.candidates@[hi].text@[i]),
            }
        }
    }

    /// What choosing character `i` of the highlighted word leaves in the records: the
    /// character, not the word, and nothing for a candidate with side effects.
    pub open spec fn char_records(self, state: State, i: int) -> Seq<EffectModel> {
        let c = state.candidates@[self.highlight(state)];
        if c.has_actions {
            Seq::empty()
        } else {
            seq![
                EffectModel::RecordSelection {
                    code: freq_code_of(
                        state.input_buffer@,
                        c@,
                        self.engine.english_code_by_input,
                    ),
                    text: seq![c.text@[i]],
                    source: c.source,
                },
            ]
        }
    }

    /// Chooses character `char_index` of the highlighted word. The character, not the
    /// word, is recorded, unless the candidate has side effects. A word that is too
    /// short, an empty list and an empty input leave the key to the rule for
    /// overflow; a closed group swallows it.
    pub fn handle_select_char(&self, state: &State, char_index: usize, out: &mut Outbox) -> (r:
        CharChoice)
        requires
            self.paging_fits(*state),
        ensures
            r@ == self.char_choice(*state, char_index as int),
            final(out)@ == (if r@ is Take {
                old(out)@ + self.char_records(*state, char_index as int)
            } else {
                old(out)@
            }),
    {
        if state.candidates.len() == 0 || state.input_buffer.as_str().is_empty() {
            return CharChoice::Fail;
        }
        let hi = self.highlighted_global_index(state);
        if hi >= state.candidates.len() {
            return CharChoice::Fail;
        }
        let cand = &state.candidates[hi];
        if cand.is_group {
            return CharChoice::Swallow;
        }
        if char_index >= char_count(cand.text.as_str()) {
            return CharChoice::Fail;
        }
        let ch = cand.text.as_str().get_char(char_index);
        let ghost sent = out@;
        if !cand.has_actions {
            let code = self.freq_code(state.input_buffer.as_str(), cand);
            let mut text = String::new();
            text.push(ch);
            assert(text@ =~= seq![ch]);
            out.put(Effect::RecordSelection { code, text, source: cand.source });
        }
        assert(out@ =~= sent + self.char_records(*state, char_index as int));
        let mut to_convert = state.committed_text.clone();
        to_convert.push(ch);
        CharChoice::Take { to_convert }
    }

    /// Commits a chosen character once it has been converted.
    pub fn finish_select_char(state: &mut State, converted: String, out: &mut Outbox) -> (r: KeyAction)
        ensures
            r@ == plain_insert(converted@, old(state).chinese_mode),
            composition_cleared(*old(state), *final(state)),
            final(out)@ == old(out)@.push(EffectModel::UiHide),
    {
        let chinese = state.chinese_mode;
        reset_pinyin_composition(state);
        out.put(Effect::UiHide);
        Self::commit_action(converted, chinese)
    }

    /// What a character key comes to once [`Coordinator::handle_select_char`] has
    /// failed; `piece` is the key's character as it would be inserted, empty when it
    /// has none.
    pub fn handle_select_char_overflow(&self, state: &mut State, piece: &str, out: &mut Outbox) -> (r:
        ChoiceStep)
        requires
            self.paging_fits(*old(state)),
        ensures
            r@ == self.past_any_list(
                *old(state),
                rule_named(self.settings.overflow_select_char_key@),
                piece@,
            ),
            Self::drops_composition(
                *old(state),
                rule_named(self.settings.overflow_select_char_key@),
            ) ==> {
                &&& composition_cleared(*old(state), *final(state))
                &&& final(out)@ == old(out)@.push(EffectModel::UiHide)
            },
            !Self::drops_composition(
                *old(state),
                rule_named(self.settings.overflow_select_char_key@),
            ) ==> {
                &&& *final(state) == *old(state)
                &&& final(out)@ == old(out)@
            },
    {
        let rule = overflow_rule(self.settings.overflow_select_char_key.as_str());
        self.overflow_any(state, rule, piece, out)
    }

    /// Chooses character `char_index` of the highlighted word, and falls back on the rule
    /// for overflow where that fails. `piece` is the key's character as it would be
    /// inserted.
    pub fn handle_select_char_with_overflow(
        &self,
        state: &mut State,
        char_index: usize,
        piece: &str,
        out: &mut Outbox,
    ) -> (r: CharStep)
        requires
            self.paging_fits(*old(state)),
        ensures
            ({
                let rule = rule_named(self.settings.overflow_select_char_key@);
                let drops = Self::drops_composition(*old(state), rule);
                match self.char_choice(*old(state), char_index as int) {
                    CharChoiceModel::Take { to_convert } => {
                        &&& r@ == CharStepModel::Take { to_convert }
                        &&& *final(state) == *old(state)
                        &&& final(out)@ == old(out)@ + self.char_records(
                            *old(state),
                            char_index as int,
                        )
                    },
                    CharChoiceModel::Swallow => r@ == CharStepModel::Choice(
                        ChoiceModel::Reply(ActionModel::Consumed),
                    ) && *final(state) == *old(state) && final(out)@ == old(out)@,
                    CharChoiceModel::Fail => {
                        &&& r@ == CharStepModel::Choice(
                            self.past_any_list(*old(state), rule, piece@),
                        )
                        &&& drops ==> {
                            &&& composition_cleared(*old(state), *final(state))
                            &&& final(out)@ == old(out)@.push(EffectModel::UiHide)
                        }
                        &&& !drops ==> *final(state) == *old(state) && final(out)@ == old(out)@
                    },
                }
            }),
    {
        match self.handle_select_char(state, char_index, out) {
            CharChoice::Take { to_convert } => CharStep::Take { to_convert },
            CharChoice::Swallow => CharStep::Choice(ChoiceStep::Reply(KeyAction::Consumed)),
            CharChoice::Fail => CharStep::Choice(
                self.handle_select_char_overflow(state, piece, out),
            ),
        }
    }

    /// Commits a text whole: it is recorded under `freq_code`, and what is put out is
    /// its fixed output or `converted`, with a space after English.
    pub fn commit_candidate(
        &self,
        state: &mut State,
        text: &str,
        s2t_override: &Option<String>,
        converted: &str,
        source: CandidateSource,
        freq_code: &str,
        out: &mut Outbox,
    ) -> (r: String)
        ensures
            r@ == ({
                let body = match *s2t_override {
                    Some(t) => t@,
                    None => converted@,
                };
                if self.appends_space(source, text@, old(state).input_buffer@) {
                    body.push(' ')
                } else {
                    body
                }
            }),
            committed_whole(*old(state), *final(state)),
            final(out)@ == old(out)@.push(
                EffectModel::RecordSelection { code: freq_code@, text: text@, source },
            ),
            s2t_override is None && !self.appends_space(source, text@, old(state).input_buffer@) ==> r@
                == converted@,
            s2t_override is Some && !self.appends_space(source, text@, old(state).input_buffer@) ==> r@
                == s2t_override->0@,
            self.appends_space(source, text@, old(state).input_buffer@) ==> r@.len() > 0 && r@.last() == ' ',
            final(state).input_buffer@.len() == 0 && final(state).candidates@.len() == 0,
    {
        out.put(
            Effect::RecordSelection { code: freq_code.to_owned(), text: text.to_owned(), source },
        );
        let mut r = match s2t_override {
            Some(t) => t.clone(),
            None => converted.to_owned(),
        };
        if self.english_appends_space(source, text, state.input_buffer.as_str()) {
            r.push(' ');
        }
        state.input_buffer = String::new();
        state.preedit = String::new();
        state.candidates = Vec::new();
        reset_candidate_view(state);
        r
    }

    /// Whether choosing a candidate commits text a command stands for; `text` is what
    /// the command evaluates to when it is nothing but text.
    pub fn command_commits_text(cand: &Candidate, text: &Option<String>) -> (r: bool)
        ensures
            r == commits_text(cand@, opt_view(*text)),
    {
        match text {
            Some(t) => cand.is_command && !t.as_str().is_empty(),
            None => false,
        }
    }

    /// Chooses a command. One that is nothing but text is committed like a phrase,
    /// while the composition is still open; any other clears the composition and runs
    /// on its own. `converted` is the text in the output script.
    pub fn commit_command(
        &self,
        state: &mut State,
        cand: &Candidate,
        input: &str,
        text: &Option<String>,
        converted: &str,
        out: &mut Outbox,
    ) -> (r: KeyAction)
        ensures
            text matches Some(t) && t@.len() > 0 ==> {
                &&& r@ == plain_insert(
                    if self.appends_space(
                        cand.source,
                        text->0@,
                        old(state).input_buffer@,
                    ) {
                        converted@.push(' ')
                    } else {
                        converted@
                    },
                    old(state).chinese_mode,
                )
                &&& committed_whole(*old(state), *final(state))
                &&& final(out)@ == old(out)@.push(
                    EffectModel::RecordSelection {
                        code: input@,
                        text: text->0@,
                        source: cand.source,
                    },
                ).push(EffectModel::UiHide)
            },
            !(text matches Some(t) && t@.len() > 0) ==> {
                &&& r@ == ActionModel::ClearComposition
                &&& composition_cleared(*old(state), *final(state))
                &&& final(out)@ == old(out)@.push(EffectModel::UiHide).push(
                    EffectModel::SpawnCommand { src: cand.phrase_template@, input: input@ },
                )
            },
            text is None ==> r@ == ActionModel::ClearComposition && (final(out)@.last()
                matches EffectModel::SpawnCommand { src, input: i } && src == cand.phrase_template@ && i
                == input@),
            text matches Some(t) ==> (t@.len() > 0 ==> r@ is InsertText && final(out)@.last()
                == EffectModel::UiHide && final(out)@.len() == old(out)@.len() + 2),
            final(state).input_buffer@.len() == 0 && final(state).candidates@.len() == 0,
    {
        if let Some(t) = text {
            if !t.as_str().is_empty() {
                let chinese_mode = state.chinese_mode;
                let none: Option<String> = None;
                let r = self.commit_candidate(
                    state,
                    t.as_str(),
                    &none,
                    converted,
                    cand.source,
                    input,
                    out,
                );
                out.put(Effect::UiHide);
                return Self::commit_action(r, chinese_mode);
            }
        }
        reset_pinyin_composition(state);
        Self::spawn_command_action(cand, input, out)
    }

    /// Hides the candidates and runs a command on its own; the composition in the
    /// application ends.
    pub fn spawn_command_action(cand: &Candidate, input: &str, out: &mut Outbox) -> (r: KeyAction)
        ensures
            r@ == ActionModel::ClearComposition,
            final(out)@ == old(out)@.push(EffectModel::UiHide).push(
                EffectModel::SpawnCommand { src: cand.phrase_template@, input: input@ },
            ),
    {
        out.put(Effect::UiHide);
        out.put(
            Effect::SpawnCommand { src: cand.phrase_template.clone(), input: input.to_owned() },
        );
        KeyAction::ClearComposition
    }

    /// The input a command chosen in an overlay mode is evaluated for; nothing when
    /// the candidate is no command.
    pub fn overlay_command_input(cand: &Candidate, code: &str) -> (r: Option<String>)
        ensures
            opt_view(r) == (if cand.is_command {
                Some(command_input(cand@, code@))
            } else {
                None
            }),
            !cand.is_command ==> r is None,
            cand.is_command && cand.group_code@.len() > 0 ==> opt_view(r) == Some(cand.group_code@),
            cand.is_command && cand.group_code@.len() == 0 ==> opt_view(r) == Some(code@),
    {
        if !cand.is_command {
            return None;
        }
        if cand.group_code.as_str().is_empty() {
            Some(code.to_owned())
        } else {
            Some(cand.group_code.clone())
        }
    }

    /// The highlighted candidate when it is a command: a key that would commit it
    /// runs it instead. The highlight is taken back into the list where it lies
    /// behind it.
    pub fn top_commit_command_guard(&self, state: &State) -> (r: Option<usize>)
        requires
            self.paging_fits(*state),
        ensures
            ({
                let n = state.candidates@.len();
                let hi = self.highlight(*state);
                let at = if hi < n {
                    hi
                } else {
                    n - 1
                };
                r == (if n > 0 && state.candidates@[at].is_command {
                    Some(at as usize)
                } else {
                    None
                })
            }),
            r matches Some(i) ==> i < state.candidates@.len() && state.candidates@[i as int].is_command,
            r is Some && self.highlight(*state) < state.candidates@.len() ==> r->0
                == self.highlight(*state),
            r is None && self.highlight(*state) < state.candidates@.len()
                ==> !state.candidates@[self.highlight(*state)].is_command,
            r is None && state.candidates@.len() > 0 && self.highlight(*state)
                >= state.candidates@.len() ==> !state.candidates@.last().is_command,
    {
        if state.candidates.len() == 0 {
            return None;
        }
        let hi = self.highlighted_global_index(state);
        let at: usize = if hi < state.candidates.len() {
            hi
        } else {
            state.candidates.len() - 1
        };
        if state.candidates[at].is_command {
            Some(at)
        } else {
            None
        }
    }

    /// Starts a commit by typing past a full code: the text that is pushed out is
    /// recorded under the code it took, and the rest of the keys become the input,
    /// which is then converted.
    pub fn begin_top_commit(
        state: &mut State,
        prefix: &str,
        top_text: &str,
        remainder: &str,
        source: CandidateSource,
        out: &mut Outbox,
    )
        ensures
            final(out)@ == (if top_text@.len() == 0 {
                old(out)@
            } else {
                old(out)@.push(
                    EffectModel::RecordSelection { code: prefix@, text: top_text@, source },
                ).push(
                    EffectModel::RecordCommit {
                        text: top_text@,
                        code_len: byte_size(prefix@),
                        position: 0,
                    },
                )
            }),
            final(state).input_buffer@ == remainder@,
            final(state).input_buffer_cased@ == cased_tail(
                remainder@,
                old(state).input_buffer_cased@,
            ),
            final(state).input_cursor_pos == byte_size(remainder@),
            *final(state) == (State {
                input_buffer: final(state).input_buffer,
                input_buffer_cased: final(state).input_buffer_cased,
                input_cursor_pos: final(state).input_cursor_pos,
                ..*old(state)
            }),
            top_text@.len() == 0 ==> final(out)@ == old(out)@,
            top_text@.len() > 0 ==> final(out)@.len() == old(out)@.len() + 2 && (final(out)@.last()
                matches EffectModel::RecordCommit { text, code_len, position } && text == top_text@ && code_len
                == byte_size(prefix@) && position == 0),
            final(state).input_buffer@ == remainder@,
            final(state).input_buffer_cased@.len() <= remainder@.len(),
    {
        if !top_text.is_empty() {
            out.put(
                Effect::RecordSelection {
                    code: prefix.to_owned(),
                    text: top_text.to_owned(),
                    source,
                },
            );
            let code_len: usize = prefix.len();
            out.put(Effect::RecordCommit { text: top_text.to_owned(), code_len, position: 0 });
        }
        Self::continue_with(state, remainder);
    }

    fn continue_with(state: &mut State, remainder: &str)
        ensures
            final(state).input_buffer@ == remainder@,
            final(state).input_buffer_cased@ == cased_tail(
                remainder@,
                old(state).input_buffer_cased@,
            ),
            final(state).input_cursor_pos == byte_size(remainder@),
            *final(state) == (State {
                input_buffer: final(state).input_buffer,
                input_buffer_cased: final(state).input_buffer_cased,
                input_cursor_pos: final(state).input_cursor_pos,
                ..*old(state)
            }),
    {
        state.input_buffer = remainder.to_owned();
        state.input_buffer_cased = keep_cased_tail(remainder, state.input_buffer_cased.as_str());
        state.input_cursor_pos = remainder.len();
    }

    /// Finishes a commit by typing past a full code, once the rest is converted:
    /// `converted` is the text pushed out, in the output script.
    pub fn commit_top_text(
        &self,
        state: &State,
        s2t_override: &Option<String>,
        converted: &str,
        out: &mut Outbox,
    ) -> (r: KeyAction)
        ensures
            ({
                let text = match *s2t_override {
                    Some(t) => t@,
                    None => converted@,
                };
                let more = state.input_buffer@.len() > 0;
                r@ == (if more && self.settings.top_commit_mode == TopCommitMode::DirectCommit {
                    ActionModel::CommitThenDeferComposition {
                        commit_text: text,
                        deferred_composition: state.preedit@,
                        timeout_ms: self.settings.deferred_ms,
                    }
                } else {
                    ActionModel::InsertText {
                        text,
                        new_composition: if more {
                            Some(state.preedit@)
                        } else {
                            None
                        },
                        mode_changed: false,
                        chinese_mode: true,
                        has_new_composition: more,
                    }
                })
            }),
            state.input_buffer@.len() == 0 ==> r@ == plain_insert(
                match *s2t_override {
                    Some(t) => t@,
                    None => converted@,
                },
                true,
            ),
            state.input_buffer@.len() > 0 && state.preedit@.len() > 0 ==> r@
                == self.commit_then_open(
                match *s2t_override {
                    Some(t) => t@,
                    None => converted@,
                },
                state.preedit@,
            ),
            final(out)@ == old(out)@.push(EffectModel::UiResetFirstShow).push(
                EffectModel::UiUpdate,
            ),
    {
        let text = match s2t_override {
            Some(t) => t.clone(),
            None => converted.to_owned(),
        };
        out.put(Effect::UiResetFirstShow);
        out.put(Effect::UiUpdate);
        let more = !state.input_buffer.as_str().is_empty();
        if more && self.settings.top_commit_mode == TopCommitMode::DirectCommit {
            return KeyAction::CommitThenDeferComposition {
                commit_text: text,
                deferred_composition: state.preedit.clone(),
                timeout_ms: self.settings.deferred_ms,
            };
        }
        let new_composition = if more {
            Some(state.preedit.clone())
        } else {
            None
        };
        KeyAction::InsertText {
            text,
            new_composition,
            mode_changed: false,
            chinese_mode: true,
            has_new_composition: more,
        }
    }

    /// Starts a command by typing past its code. Without further keys the composition
    /// ends and the command runs; otherwise the rest becomes the input, which is then
    /// converted.
    pub fn begin_top_command(
        state: &mut State,
        cand: &Candidate,
        prefix: &str,
        remainder: &str,
        out: &mut Outbox,
    ) -> (r: Option<KeyAction>)
        ensures
            remainder@.len() == 0 ==> {
                &&& r is Some
                &&& r->0@ == ActionModel::ClearComposition
                &&& composition_cleared(*old(state), *final(state))
                &&& final(out)@ == old(out)@.push(EffectModel::UiHide).push(
                    EffectModel::SpawnCommand {
                        src: cand.phrase_template@,
                        input: command_input(cand@, prefix@),
                    },
                )
            },
            remainder@.len() > 0 ==> {
                &&& r is None
                &&& final(out)@ == old(out)@
                &&& final(state).input_buffer@ == remainder@
                &&& final(state).input_buffer_cased@ == cased_tail(
                    remainder@,
                    old(state).input_buffer_cased@,
                )
                &&& final(state).input_cursor_pos == byte_size(remainder@)
                &&& *final(state) == (State {
                    input_buffer: final(state).input_buffer,
                    input_buffer_cased: final(state).input_buffer_cased,
                    input_cursor_pos: final(state).input_cursor_pos,
                    ..*old(state)
                })
            },
            r is Some <==> remainder@.len() == 0,
            r is Some ==> (final(out)@.last() matches EffectModel::SpawnCommand { src, input } && src
                == cand.phrase_template@ && (cand.group_code@.len() == 0 ==> input == prefix@)),
    {
        if remainder.is_empty() {
            reset_pinyin_composition(state);
            let input = if cand.group_code.as_str().is_empty() {
                prefix.to_owned()
            } else {
                cand.group_code.clone()
            };
            return Some(Self::spawn_command_action(cand, input.as_str(), out));
        }
        Self::continue_with(state, remainder);
        None
    }

    /// Finishes a command run by typing past its code, once the rest is converted: it
    /// runs on its own and the composition of the rest opens behind nothing.
    pub fn top_commit_command_with_remainder(
        state: &State,
        cand: &Candidate,
        prefix: &str,
        out: &mut Outbox,
    ) -> (r: KeyAction)
        ensures
            r@ == (ActionModel::InsertText {
                text: Seq::empty(),
                new_composition: Some(state.preedit@),
                mode_changed: false,
                chinese_mode: true,
                has_new_composition: true,
            }),
            final(out)@ == old(out)@.push(EffectModel::UiResetFirstShow).push(
                EffectModel::UiHide,
            ).push(
                EffectModel::SpawnCommand {
                    src: cand.phrase_template@,
                    input: command_input(cand@, prefix@),
                },
            ).push(EffectModel::UiUpdate),
            final(out)@.len() == old(out)@.len() + 4,
            final(out)@.last() == EffectModel::UiUpdate,
            r@ matches ActionModel::InsertText { text, new_composition, .. } && text.len() == 0
                && new_composition == Some(state.preedit@),
    {
        out.put(Effect::UiResetFirstShow);
        let input = if cand.group_code.as_str().is_empty() {
            prefix.to_owned()
        } else {
            cand.group_code.clone()
        };
        let _ = Self::spawn_command_action(cand, input.as_str(), out);
        out.put(Effect::UiUpdate);
        let text = String::new();
        assert(text@ =~= Seq::empty());
        KeyAction::InsertText {
            text,
            new_composition: Some(state.preedit.clone()),
            mode_changed: false,
            chinese_mode: true,
            has_new_composition: true,
        }
    }

    /// What entering a mode commits: the text chosen so far, which is taken out of
    /// the state, and the highlighted candidate, which is recorded. Associations were
    /// guessed rather than typed for, so they are not committed.
    pub fn take_committed_with_highlight(&self, state: &mut State, out: &mut Outbox) -> (r: (
        String,
        Option<usize>,
    ))
        requires
            self.paging_fits(*old(state)),
        ensures
            r.0@ == old(state).committed_text@,
            final(state).committed_text@.len() == 0,
            final(state).committed_segs@.len() == 0,
            *final(state) == (State {
                committed_text: final(state).committed_text,
                committed_segs: final(state).committed_segs,
                ..*old(state)
            }),
            ({
                let n = old(state).candidates@.len();
                let hi = self.highlight(*old(state));
                let at = if hi < n {
                    hi
                } else {
                    n - 1
                };
                let start = self.page_start(*old(state));
                if n == 0 || crate::assoc::offers_assoc(*old(state)) {
                    &&& r.1 is None
                    &&& final(out)@ == old(out)@
                } else {
                    let c = old(state).candidates@[at];
                    &&& r.1 == Some(at as usize)
                    &&& final(out)@ == old(out)@.push(
                        EffectModel::RecordSelection {
                            code: freq_code_of(
                                old(state).input_buffer@,
                                c@,
                                self.engine.english_code_by_input,
                            ),
                            text: c.text@,
                            source: c.source,
                        },
                    ).push(
                        EffectModel::RecordCommit {
                            text: c.text@,
                            code_len: byte_size(old(state).input_buffer@),
                            position: if at >= start {
                                (at - start) as i32
                            } else {
                                0
                            },
                        },
                    )
                }
            }),
            r.1 is None <==> old(state).candidates@.len() == 0 || old(state).candidates@[0].source
                == CandidateSource::Assoc,
            r.1 is Some ==> final(out)@.len() == old(out)@.len() + 2,
            r.1 is Some && self.highlight(*old(state)) < old(state).candidates@.len() ==> {
                &&& r.1->0 == self.highlight(*old(state))
                &&& final(out)@.last() matches EffectModel::RecordCommit {
                    text,
                    code_len,
                    position,
                } && position == old(state).selected_index as i32 && text
                    == old(state).candidates@[self.highlight(*old(state))].text@
            },
    {
        let (start, _) = self.page_range(state);
        let hi = self.highlighted_global_index(state);
        let mut prefix = String::new();
        std::mem::swap(&mut prefix, &mut state.committed_text);
        state.committed_segs = Vec::new();
        if state.candidates.len() == 0 || state.assoc_active() {
            return (prefix, None);
        }
        let at: usize = if hi < state.candidates.len() {
            hi
        } else {
            state.candidates.len() - 1
        };
        let cand = &state.candidates[at];
        let code = self.freq_code(state.input_buffer.as_str(), cand);
        out.put(
            Effect::RecordSelection { code, text: cand.text.clone(), source: cand.source },
        );
        let code_len: usize = state.input_buffer.as_str().len();
        let position: i32 = if at >= start {
            (at - start) as i32
        } else {
            0
        };
        out.put(Effect::RecordCommit { text: cand.text.clone(), code_len, position });
        (prefix, Some(at))
    }

    /// The text entering a mode commits, from the two parts in the output script:
    /// nothing when there is neither a candidate nor a text.
    pub fn committed_output(prefix: String, cand: &Option<String>) -> (r: Option<String>)
        ensures
            opt_view(r) == (match *cand {
                Some(c) => Some(prefix@ + c@),
                None => if prefix@.len() > 0 {
                    Some(prefix@)
                } else {
                    None
                },
            }),
            cand is None && prefix@.len() == 0 ==> r is None,
            cand is None && prefix@.len() > 0 ==> opt_view(r) == Some(prefix@),
            cand matches Some(c) ==> (r matches Some(t) && prefix@.is_prefix_of(t@) && t@.len() == prefix@.len()
                + c@.len()),
    {
        match cand {
            Some(c) => Some(joined(prefix.as_str(), c.as_str())),
            None => if prefix.as_str().is_empty() {
                None
            } else {
                Some(prefix)
            },
        }
    }

    /// What choosing candidate `idx` comes to.
    pub open spec fn select_step(
        self,
        state: State,
        idx: int,
        command_text: Option<Seq<char>>,
    ) -> SelectModel {
        if idx >= state.candidates@.len() {
            SelectModel::Ignore
        } else {
            let c = state.candidates@[idx];
            let start = self.page_start(state);
            if c.is_command && !(on_main_path(state) && commits_text(c@, command_text)) {
                SelectModel::Ran
            } else if on_main_path(state) {
                SelectModel::Commit {
                    index: idx as usize,
                    position: if idx >= start {
                        (idx - start) as usize
                    } else {
                        0
                    },
                    aux: state.active == Some(ModeKind::AuxCode),
                }
            } else if c.is_group {
                SelectModel::Requery
            } else {
                SelectModel::CommitOverlay {
                    index: idx as usize,
                    code: freq_code_of(
                        state.input_buffer@,
                        c@,
                        self.engine.english_code_by_input,
                    ),
                }
            }
        }
    }

    /// What choosing candidate `idx` changes: a command that runs empties the
    /// composition, a group becomes the input, and anything else changes nothing yet.
    pub open spec fn select_changes(
        step: SelectModel,
        idx: int,
        a: State,
        b: State,
        before: Seq<EffectModel>,
        after: Seq<EffectModel>,
    ) -> bool {
        let c = a.candidates@[idx];
        match step {
            SelectModel::Ran => {
                &&& composition_cleared((State { active: None, ..a }), b)
                &&& after == before.push(EffectModel::UiHide).push(
                    EffectModel::ClearHostComposition,
                ).push(
                    EffectModel::SpawnCommand {
                        src: c.phrase_template@,
                        input: command_input(c@, a.input_buffer@),
                    },
                )
            },
            SelectModel::Requery => {
                &&& b.input_buffer@ == c.group_code@
                &&& b.input_cursor_pos == byte_size(c.group_code@)
                &&& b == (State {
                    input_buffer: b.input_buffer,
                    input_cursor_pos: b.input_cursor_pos,
                    ..a
                })
                &&& after == before
            },
            _ => b == a && after == before,
        }
    }

    /// Chooses a candidate by its place in the whole list, with the mouse or on a
    /// touch screen. `command_text` is what the candidate's command evaluates to when
    /// it is nothing but text.
    ///
    /// A command with side effects runs at once: no key is waiting for a reply, so the
    /// composition is emptied here and the application told to end its own.
    pub fn select_candidate_at(
        &self,
        state: &mut State,
        idx: usize,
        command_text: &Option<String>,
        out: &mut Outbox,
    ) -> (r: SelectStep)
        requires
            self.page_fits(*old(state)),
        ensures
            r@ == self.select_step(*old(state), idx as int, opt_view(*command_text)),
            Self::select_changes(
                r@,
                idx as int,
                *old(state),
                *final(state),
                old(out)@,
                final(out)@,
            ),
    {
        if idx >= state.candidates.len() {
            return SelectStep::Ignore;
        }
        let (start, _) = self.page_range(state);
        let position: usize = if idx >= start {
            idx - start
        } else {
            0
        };
        let main = is_on_main_path(state);
        let commits = main && Self::command_commits_text(&state.candidates[idx], command_text);
        if state.candidates[idx].is_command && !commits {
            let src = state.candidates[idx].phrase_template.clone();
            let input = if state.candidates[idx].group_code.as_str().is_empty() {
                state.input_buffer.clone()
            } else {
                state.candidates[idx].group_code.clone()
            };
            reset_pinyin_composition(state);
            state.active = None;
            out.put(Effect::UiHide);
            out.put(Effect::ClearHostComposition);
            out.put(Effect::SpawnCommand { src, input });
            return SelectStep::Ran;
        }
        if main {
            let aux = match state.active {
                Some(m) => m == ModeKind::AuxCode,
                None => false,
            };
            return SelectStep::Commit { index: idx, position, aux };
        }
        if state.candidates[idx].is_group {
            let code = state.candidates[idx].group_code.clone();
            state.input_buffer = code;
            state.input_cursor_pos = state.input_buffer.as_str().len();
            return SelectStep::Requery;
        }
        let code = self.freq_code(state.input_buffer.as_str(), &state.candidates[idx]);
        SelectStep::CommitOverlay { index: idx, code }
    }

    /// Commits the candidate of an overlay mode whole and leaves the mode; the text
    /// is sent on its own, since no key is waiting for a reply.
    pub fn finish_overlay_select(
        &self,
        state: &mut State,
        cand: &Candidate,
        code: &str,
        converted: &str,
        out: &mut Outbox,
    )
        ensures
            ({
                let body = match cand.s2t_override {
                    Some(t) => t@,
                    None => converted@,
                };
                let text = if self.appends_space(
                    cand.source,
                    cand.text@,
                    old(state).input_buffer@,
                ) {
                    body.push(' ')
                } else {
                    body
                };
                final(out)@ == old(out)@.push(
                    EffectModel::RecordSelection {
                        code: code@,
                        text: cand.text@,
                        source: cand.source,
                    },
                ).push(EffectModel::UiHide).push(
                    EffectModel::PushText { text, chinese_mode: old(state).chinese_mode },
                )
            }),
            final(state).input_buffer@.len() == 0,
            final(state).preedit@.len() == 0,
            final(state).candidates@.len() == 0,
            final(state).temp_pinyin_buffer@.len() == 0,
            final(state).temp_pinyin_prefix@.len() == 0,
            final(state).temp_english_buffer@.len() == 0,
            *final(state) == (State {
                input_buffer: final(state).input_buffer,
                preedit: final(state).preedit,
                candidates: final(state).candidates,
                current_page: 0,
                selected_index: 0,
                hover_index: None,
                active: None,
                temp_pinyin_buffer: final(state).temp_pinyin_buffer,
                temp_pinyin_prefix: final(state).temp_pinyin_prefix,
                temp_english_buffer: final(state).temp_english_buffer,
                ..*old(state)
            }),
            final(state).active is None,
            final(out)@.len() == old(out)@.len() + 3,
            cand.s2t_override is None && !self.appends_space(
                cand.source,
                cand.text@,
                old(state).input_buffer@,
            ) ==> final(out)@.last() == (EffectModel::PushText {
                text: converted@,
                chinese_mode: old(state).chinese_mode,
            }),
    {
        let chinese_mode = state.chinese_mode;
        let text = self.commit_candidate(
            state,
            cand.text.as_str(),
            &cand.s2t_override,
            converted,
            cand.source,
            code,
            out,
        );
        state.active = None;
        state.temp_pinyin_buffer = String::new();
        state.temp_pinyin_prefix = String::new();
        state.temp_english_buffer = String::new();
        out.put(Effect::UiHide);
        out.put(Effect::PushText { text, chinese_mode });
    }

    /// Chooses row `page_local` of the page with the mouse; a row past the page is
    /// none.
    pub fn mouse_select_action(
        &self,
        state: &mut State,
        page_local: usize,
        command_text: &Option<String>,
        out: &mut Outbox,
    ) -> (r: SelectStep)
        requires
            self.page_fits(*old(state)),
        ensures
            ({
                let idx = self.page_start(*old(state)) + page_local;
                &&& r@ == (if idx >= self.page_end(*old(state)) {
                    SelectModel::Ignore
                } else {
                    self.select_step(*old(state), idx, opt_view(*command_text))
                })
                &&& Self::select_changes(
                    r@,
                    idx,
                    *old(state),
                    *final(state),
                    old(out)@,
                    final(out)@,
                )
            }),
            self.page_start(*old(state)) + page_local >= self.page_end(*old(state)) ==> r@
                == SelectModel::Ignore && *final(state) == *old(state),
            r@ matches SelectModel::Commit { index, position, aux } ==> index == self.page_start(*old(state))
                + page_local && position == page_local,
    {
        let (start, end) = self.page_range(state);
        if start >= end || page_local >= end - start {
            return SelectStep::Ignore;
        }
        self.select_candidate_at(state, start + page_local, command_text, out)
    }

    /// Chooses row `page_local` of the page shown with the mouse.
    pub fn debug_mouse_select(
        &mut self,
        page_local: usize,
        command_text: &Option<String>,
        out: &mut Outbox,
    ) -> (r: SelectStep)
        requires
            old(self).page_fits(old(self).state),
        ensures
            ({
                let idx = old(self).page_start(old(self).state) + page_local;
                &&& r@ == (if idx >= old(self).page_end(old(self).state) {
                    SelectModel::Ignore
                } else {
                    old(self).select_step(old(self).state, idx, opt_view(*command_text))
                })
                &&& Self::select_changes(
                    r@,
                    idx,
                    old(self).state,
                    final(self).state,
                    old(out)@,
                    final(out)@,
                )
            }),
            *final(self) == (Coordinator { state: final(self).state, ..*old(self) }),
    {
        let mut state = State::new();
        std::mem::swap(&mut state, &mut self.state);
        let r = self.mouse_select_action(&mut state, page_local, command_text, out);
        std::mem::swap(&mut state, &mut self.state);
        r
    }

    /// What a reply comes to where no key is waiting for it: a composition and an
    /// inserted text are sent on their own, and any other reply is dropped.
    pub fn push_no_key_ctx_action(act: &KeyAction, chinese_mode: bool, out: &mut Outbox)
        ensures
            final(out)@ == (match act@ {
                ActionModel::UpdateComposition { text, caret_pos } => old(out)@.push(
                    EffectModel::PushComposition { text, caret_pos },
                ),
                ActionModel::InsertText { text, .. } => old(out)@.push(
                    EffectModel::PushText { text, chinese_mode },
                ),
                _ => old(out)@,
            }),
            act@ matches ActionModel::InsertText { text, .. } ==> final(out)@.last() == (EffectModel::PushText {
                text,
                chinese_mode,
            }),
            act@ is UpdateComposition ==> final(out)@.len() == old(out)@.len() + 1,
            !(act@ is InsertText) && !(act@ is UpdateComposition) ==> final(out)@ == old(out)@,
    {
        match act {
            KeyAction::UpdateComposition { text, caret_pos } => {
                out.put(Effect::PushComposition { text: text.clone(), caret_pos: *caret_pos });
            },
            KeyAction::InsertText { text, .. } => {
                out.put(Effect::PushText { text: text.clone(), chinese_mode });
            },
            _ => {},
        }
    }

    /// Sends the text of a command that runs on its own; an empty text is not sent.
    pub fn push_commit_text(text: &str, out: &mut Outbox)
        ensures
            final(out)@ == (if text@.len() == 0 {
                old(out)@
            } else {
                old(out)@.push(EffectModel::PushText { text: text@, chinese_mode: true })
            }),
            text@.len() == 0 ==> final(out)@ == old(out)@,
            text@.len() > 0 ==> final(out)@.last() == (EffectModel::PushText {
                text: text@,
                chinese_mode: true,
            }) && final(out)@.len() == old(out)@.len() + 1,
    {
        if !text.is_empty() {
            out.put(Effect::PushText { text: text.to_owned(), chinese_mode: true });
        }
    }
}

/// The mouse and the digit keys choose alike: in ordinary input, and while an auxiliary
/// code narrows the list, a row of the page that holds no command is the same candidate
/// at the same place for both.
pub proof fn mouse_and_digits_choose_alike(
    c: Coordinator,
    state: State,
    row: int,
    numpad_raw: bool,
    command_text: Option<Seq<char>>,
)
    requires
        0 <= row < 10,
        on_main_path(state),
        c.page_start(state) + row < c.page_end(state),
        c.page_end(state) <= usize::MAX,
        !state.candidates@[c.page_start(state) + row].is_command,
    ensures
        c.digit_choice(state, row + 1, numpad_raw) matches ChoiceModel::Commit { index, position, extra }
            && extra.len() == 0 && c.select_step(
            state,
            c.page_start(state) + row,
            command_text,
        ) == (SelectModel::Commit {
            index,
            position: position as usize,
            aux: state.active == Some(ModeKind::AuxCode),
        }),
{
    assert(c.page_start(state) >= 0) by (nonlinear_arith)
        requires
            c.page_start(state) == state.current_page * c.page_size(state.active),
    ;
}

/// Each configuration value names its rule, and every other value stands for ignoring the
/// key.
pub proof fn overflow_rules_have_their_names(s: Seq<char>)
    ensures
        rule_named("commit"@) == OverflowRule::Commit,
        rule_named("commit_and_input"@) == OverflowRule::CommitAndInput,
        s != "commit"@ && s != "commit_and_input"@ ==> rule_named(s) == OverflowRule::Ignore,
{
    reveal_strlit("commit");
    reveal_strlit("commit_and_input");
    assert("commit"@.len() != "commit_and_input"@.len());
}

/// A digit key types its own digit, the tenth the zero, in the width asked for.
pub proof fn digits_type_themselves(num: int, full_width: bool)
    requires
        0 <= num <= 10,
    ensures
        digit_text(num, full_width).len() == 1,
        num < 10 && !full_width ==> digit_text(num, full_width)[0] as int == '0' as int + num,
        num < 10 && full_width ==> digit_text(num, full_width)[0] as int == 0xFF10 + num,
        digit_text(10, false) == seq!['0'],
        digit_text(num, full_width) != digit_text(num, !full_width),
{
    assert(digit_text(num, full_width)[0] != digit_text(num, !full_width)[0]);
    assert(digit_text(10, false)[0] == '0');
}

/// A key that points past the list does what its rule says: nothing, the highlighted
/// candidate, or that with the key's own character behind it.
pub proof fn keys_past_the_list_follow_their_rule(
    c: Coordinator,
    state: State,
    rule: OverflowRule,
    piece: Seq<char>,
)
    requires
        c.highlight(state) <= usize::MAX,
    ensures
        rule == OverflowRule::Ignore ==> c.past_the_list(state, rule, piece) == ChoiceModel::Reply(
            ActionModel::Consumed,
        ),
        rule != OverflowRule::Ignore && c.highlight(state) < state.candidates@.len() ==> (
        c.past_the_list(state, rule, piece) matches ChoiceModel::Commit { index, position, extra }
            && index == c.page_start(state) + state.selected_index && position
            == state.selected_index as i32 && (rule == OverflowRule::Commit ==> extra.len() == 0)
            && (rule == OverflowRule::CommitAndInput ==> extra == piece)),
        c.highlight(state) >= state.candidates@.len() ==> c.past_the_list(state, rule, piece)
            == ChoiceModel::Reply(ActionModel::Consumed),
{
    pages_start_inside_the_count(c, state);
}

/// Without candidates such a key drops the composition unless it is ignored, and types its own
/// character where that follows a commit.
pub proof fn keys_past_an_empty_list_drop_the_composition(
    c: Coordinator,
    state: State,
    rule: OverflowRule,
    piece: Seq<char>,
)
    ensures
        state.candidates@.len() == 0 && rule == OverflowRule::Ignore ==> c.past_any_list(
            state,
            rule,
            piece,
        ) == ChoiceModel::Reply(ActionModel::Consumed),
        state.candidates@.len() == 0 && rule == OverflowRule::Commit ==> c.past_any_list(
            state,
            rule,
            piece,
        ) == ChoiceModel::Reply(ActionModel::ClearComposition),
        state.candidates@.len() == 0 && rule == OverflowRule::CommitAndInput ==> c.past_any_list(
            state,
            rule,
            piece,
        ) == ChoiceModel::Reply(plain_insert(piece, state.chinese_mode)),
        state.candidates@.len() > 0 ==> c.past_any_list(state, rule, piece) == c.past_the_list(
            state,
            rule,
            piece,
        ),
        Coordinator::drops_composition(state, rule) <==> state.candidates@.len() == 0 && (rule
            == OverflowRule::Commit || rule == OverflowRule::CommitAndInput),
{
}

/// A digit key chooses its row of the page, counted from 1. Past the page its own rule decides
/// while there are candidates, and it types its digit in the width in force, unless it belongs
/// to a keypad that types as it is.
pub proof fn digits_choose_their_row(c: Coordinator, state: State, num: int, numpad_raw: bool)
    requires
        1 <= num <= 10,
        c.page_end(state) <= usize::MAX,
    ensures
        c.page_start(state) + num <= c.page_end(state) ==> (c.digit_choice(state, num, numpad_raw)
            matches ChoiceModel::Commit { index, position, extra } && index + 1 == c.page_start(
            state,
        ) + num && position + 1 == num && extra.len() == 0),
        c.page_start(state) + num > c.page_end(state) && state.candidates@.len() == 0
            ==> c.digit_choice(state, num, numpad_raw) == ChoiceModel::Reply(ActionModel::Consumed),
        c.page_start(state) + num > c.page_end(state) && state.candidates@.len() > 0
            ==> c.digit_choice(state, num, numpad_raw) == c.past_the_list(
            state,
            rule_named(c.settings.overflow_number_key@),
            digit_text(num, state.full_width && !numpad_raw),
        ),
{
    pages_start_inside_the_count(c, state);
}

/// A character key commits that character of the highlighted word, behind what was chosen
/// already. A closed group takes the key and nothing else happens; a word that is too short
/// and an empty list leave it to its rule.
pub proof fn character_keys_take_one_character(c: Coordinator, state: State, i: int)
    requires
        0 <= i,
        0 <= c.highlight(state) < state.candidates@.len(),
        state.input_buffer@.len() > 0,
    ensures
        state.candidates@[c.highlight(state)].is_group ==> c.char_choice(state, i)
            == CharChoiceModel::Swallow,
        !state.candidates@[c.highlight(state)].is_group ==> {
            let text = state.candidates@[c.highlight(state)].text@;
            &&& i >= text.len() ==> c.char_choice(state, i) == CharChoiceModel::Fail
            &&& i < text.len() ==> c.char_choice(state, i) == (CharChoiceModel::Take {
                to_convert: state.committed_text@ + seq![text[i]],
            })
        },
{
    let text = state.candidates@[c.highlight(state)].text@;
    if i < text.len() {
        assert(state.committed_text@.push(text[i]) =~= state.committed_text@ + seq![text[i]]);
    }
}

/// Without candidates, without input and behind the list there is no character to take.
pub proof fn character_keys_need_a_word(c: Coordinator, state: State, i: int)
    requires
        state.candidates@.len() == 0 || state.input_buffer@.len() == 0 || c.highlight(state)
            >= state.candidates@.len(),
    ensures
        c.char_choice(state, i) == CharChoiceModel::Fail,
{
}

/// The character that is taken is what is recorded, under the code of its word; nothing is
/// recorded of a candidate with side effects.
pub proof fn the_character_is_what_is_recorded(c: Coordinator, state: State, i: int)
    requires
        0 <= c.highlight(state) < state.candidates@.len(),
        0 <= i < state.candidates@[c.highlight(state)].text@.len(),
    ensures
        ({
            let cand = state.candidates@[c.highlight(state)];
            let r = c.char_records(state, i);
            &&& cand.has_actions ==> r.len() == 0
            &&& !cand.has_actions ==> r.len() == 1 && (r[0] matches EffectModel::RecordSelection {
                code,
                text,
                source,
            } && text == seq![cand.text@[i]] && source == cand.source && code == freq_code_of(
                state.input_buffer@,
                cand@,
                c.engine.english_code_by_input,
            ))
        }),
{
}

/// A candidate chosen by its place is committed, in its row of the page: by ordinary input, or
/// whole by the overlay mode in force, under the code its choices count under.
pub proof fn places_name_their_candidate(
    c: Coordinator,
    state: State,
    idx: int,
    command_text: Option<Seq<char>>,
)
    requires
        0 <= idx < state.candidates@.len() <= usize::MAX,
        !state.candidates@[idx].is_command,
    ensures
        on_main_path(state) ==> (c.select_step(state, idx, command_text)
            matches SelectModel::Commit { index, position, aux } && index == idx && (idx
            >= c.page_start(state) ==> c.page_start(state) + position == idx) && aux == (
        state.active == Some(ModeKind::AuxCode))),
        !on_main_path(state) && state.candidates@[idx].is_group ==> c.select_step(
            state,
            idx,
            command_text,
        ) == SelectModel::Requery,
        !on_main_path(state) && !state.candidates@[idx].is_group ==> (c.select_step(
            state,
            idx,
            command_text,
        ) matches SelectModel::CommitOverlay { index, code } && index == idx && code
            == freq_code_of(
            state.input_buffer@,
            state.candidates@[idx]@,
            c.engine.english_code_by_input,
        )),
{
    pages_start_inside_the_count(c, state);
}

/// Behind the list there is nothing to choose.
pub proof fn places_behind_the_list_are_ignored(
    c: Coordinator,
    state: State,
    idx: int,
    command_text: Option<Seq<char>>,
)
    requires
        idx >= state.candidates@.len(),
    ensures
        c.select_step(state, idx, command_text) == SelectModel::Ignore,
{
}

/// A command that is chosen runs; only one that is nothing but text, in ordinary input, is
/// committed like any other candidate.
pub proof fn commands_run_unless_they_are_text(
    c: Coordinator,
    state: State,
    idx: int,
    command_text: Option<Seq<char>>,
)
    requires
        0 <= idx < state.candidates@.len(),
        state.candidates@[idx].is_command,
    ensures
        !on_main_path(state) || command_text is None || command_text->0.len() == 0 ==> c.select_step(
            state,
            idx,
            command_text,
        ) == SelectModel::Ran,
        on_main_path(state) ==> (command_text matches Some(t) ==> (t.len() > 0 ==> c.select_step(
            state,
            idx,
            command_text,
        ) is Commit)),
{
}

/// Running a command leaves every mode, empties the composition here and in the application,
/// and starts the command for its own code, or for the keys where it has none. Opening a group
/// makes its code the input. No other choice changes anything by itself.
pub proof fn choosing_changes_what_it_must(
    step: SelectModel,
    idx: int,
    a: State,
    b: State,
    before: Seq<EffectModel>,
    after: Seq<EffectModel>,
)
    requires
        Coordinator::select_changes(step, idx, a, b, before, after),
        0 <= idx < a.candidates@.len(),
    ensures
        step is Ran ==> {
            &&& b.active is None
            &&& b.input_buffer@.len() == 0 && b.candidates@.len() == 0 && b.preedit@.len() == 0
            &&& b.committed_text@.len() == 0
            &&& after.len() == before.len() + 3
            &&& after[before.len() as int] == EffectModel::UiHide
            &&& after[before.len() as int + 1] == EffectModel::ClearHostComposition
            &&& after.last() matches EffectModel::SpawnCommand { src, input } && src
                == a.candidates@[idx].phrase_template@ && (a.candidates@[idx].group_code@.len() > 0
                ==> input == a.candidates@[idx].group_code@) && (
            a.candidates@[idx].group_code@.len() == 0 ==> input == a.input_buffer@)
        },
        step is Requery ==> b.input_buffer@ == a.candidates@[idx].group_code@ && after == before
            && b.candidates == a.candidates,
        step is Commit || step is Ignore || step is CommitOverlay ==> b == a && after == before,
{
}

/// Ordinary input is on the main path, and so is an auxiliary code; no other mode is.
pub proof fn only_an_auxiliary_code_stays_on_the_main_path(state: State)
    ensures
        state.active is None ==> on_main_path(state),
        state.active == Some(ModeKind::AuxCode) ==> on_main_path(state),
        state.active is Some && state.active != Some(ModeKind::AuxCode) ==> !on_main_path(state),
{
}

/// A whole commit leaves no keys, no candidates and no composition, and the view at its start.
pub proof fn a_whole_commit_leaves_nothing_behind(a: State, b: State)
    requires
        committed_whole(a, b),
    ensures
        b.input_buffer@.len() == 0,
        b.preedit@.len() == 0,
        b.candidates@.len() == 0,
        b.current_page == 0,
        b.selected_index == 0,
        b.active == a.active,
        b.chinese_mode == a.chinese_mode,
{
}

} // verus!

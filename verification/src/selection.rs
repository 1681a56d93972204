//! Committing candidates.
//!
//! A choice runs in steps: [`Coordinator::commit_selected`] says what has to happen
//! outside, and [`Coordinator::settle_commit`], [`Coordinator::complete_requery`] or
//! [`Coordinator::commit_command`] turns the answer into the reply to the key.

use crate::action::{ActionModel, Effect, EffectModel, KeyAction, Outbox};
use crate::assoc::{assoc_candidate, assoc_composition, next_token, offers_assoc, AssocHit};
use crate::candidate::{models, opt_view, Candidate, CandidateModel, CandidateSource};
use crate::coordinator::{
    composition_cleared, input_dropped, reset_pinyin_composition, Coordinator, TopCommitMode,
    LEARN_ADD_WEIGHT,
};
use crate::freq::{code_of, freq_code_of, probe_key, record_schema, FreqScope};
use crate::learning::{FreqPolicy, LearnRequest};
use crate::ranking::consumed_of;
use crate::state::{seg_models, seg_texts, ModeKind, Seg, SegModel, State};
use crate::text::{byte_size, char_count, chars_of, joined, same, string_of_range};
use vstd::prelude::*;
use vstd::string::*;
use vstd::utf8::*;

verus! {

/// The characters in the first `n` bytes of `s`.
pub open spec fn byte_prefix(s: Seq<char>, n: int) -> Seq<char> {
    decode_utf8(encode_utf8(s).subrange(0, n))
}

/// The characters behind the first `n` bytes of `s`.
pub open spec fn byte_suffix(s: Seq<char>, n: int) -> Seq<char> {
    decode_utf8(encode_utf8(s).subrange(n, encode_utf8(s).len() as int))
}

/// Cutting at a character boundary loses nothing.
pub proof fn cutting_keeps_every_character(s: Seq<char>, n: int)
    requires
        is_char_boundary(encode_utf8(s), n),
    ensures
        byte_prefix(s, n) + byte_suffix(s, n) == s,
{
    let b = encode_utf8(s);
    encode_utf8_valid_utf8(s);
    encode_utf8_decode_utf8(s);
    decode_utf8_split(b, n);
}

fn cut(s: &str, n: usize) -> (r: (String, String))
    requires
        is_char_boundary(encode_utf8(s@), n as int),
    ensures
        r.0@ == byte_prefix(s@, n as int),
        r.1@ == byte_suffix(s@, n as int),
{
    let (a, b) = s.split_at(n);
    proof {
        encode_utf8_decode_utf8(a@);
        encode_utf8_decode_utf8(b@);
    }
    (a.to_owned(), b.to_owned())
}

/// Whether a candidate takes only the front of the input.
pub open spec fn takes_part(c: CandidateModel, buf: Seq<char>) -> bool {
    &&& c.consumed_length > 0
    &&& c.consumed_length < byte_size(buf)
    &&& is_char_boundary(encode_utf8(buf), c.consumed_length as int)
}

/// The keys with capitals that go with the rest `buf` of the input: as many from
/// the back as the rest has characters.
pub open spec fn cased_tail(buf: Seq<char>, cased: Seq<char>) -> Seq<char> {
    if cased.len() <= buf.len() {
        cased
    } else {
        cased.skip(cased.len() - buf.len())
    }
}

/// The keys with capitals that go with the rest `buf` of the input.
pub fn keep_cased_tail(buf: &str, cased: &str) -> (r: String)
    ensures
        r@ == cased_tail(buf@, cased@),
{
    let n = char_count(buf);
    let v = chars_of(cased);
    if v.len() <= n {
        return cased.to_owned();
    }
    let from: usize = v.len() - n;
    let r = string_of_range(&v, from, v.len());
    assert(v@.subrange(from as int, v@.len() as int) =~= v@.skip(from as int));
    r
}

/// What has to happen outside before a choice can be finished.
#[derive(Debug)]
pub enum CommitStep {
    /// The input of the state is converted anew. `group` says that a group was
    /// opened rather than a part of the input chosen.
    Requery { group: bool },
    /// The command `src` is evaluated for `input`.
    Command { src: String, input: String },
    /// A word may be learned, `to_convert` is converted to the output script, and
    /// associations of `context` are looked up.
    Settle { code: String, to_convert: String, context: String, learn: bool },
}

/// What a [`CommitStep`] asks for.
pub ghost enum StepModel {
    Requery { group: bool },
    Command { src: Seq<char>, input: Seq<char> },
    Settle { code: Seq<char>, to_convert: Seq<char>, context: Seq<char>, learn: bool },
}

impl View for CommitStep {
    type V = StepModel;

    open spec fn view(&self) -> StepModel {
        match *self {
            CommitStep::Requery { group } => StepModel::Requery { group },
            CommitStep::Command { src, input } => StepModel::Command { src: src@, input: input@ },
            CommitStep::Settle { code, to_convert, context, learn } => StepModel::Settle {
                code: code@,
                to_convert: to_convert@,
                context: context@,
                learn,
            },
        }
    }
}

/// The input a command is evaluated for: its full code where it has one.
pub open spec fn command_input(c: CandidateModel, buf: Seq<char>) -> Seq<char> {
    if c.group_code.len() == 0 {
        buf
    } else {
        c.group_code
    }
}

/// The text a full choice commits, before conversion: what was chosen already and
/// the candidate's own text, or the part of it that is still missing.
pub open spec fn chosen_text(c: CandidateModel, committed: Seq<char>) -> Seq<char> {
    match c.commit_override {
        Some(t) => committed + t,
        None => committed + c.text,
    }
}

/// The segment a choice adds.
pub open spec fn chosen_seg(c: CandidateModel, buf: Seq<char>) -> SegModel {
    SegModel {
        raw_code: if takes_part(c, buf) {
            byte_prefix(buf, c.consumed_length as int)
        } else {
            buf
        },
        code: code_of(buf, c),
        text: c.text,
        source: c.source,
        boundary: c.boundary,
    }
}

/// What a choice leaves in the records: a selection, unless an association was
/// chosen, and a commit.
pub open spec fn choice_records(
    c: CandidateModel,
    buf: Seq<char>,
    english_by_input: bool,
    position: i32,
) -> Seq<EffectModel> {
    let commit = EffectModel::RecordCommit {
        text: c.text,
        code_len: byte_size(code_of(buf, c)),
        position,
    };
    if c.source == CandidateSource::Assoc {
        seq![commit]
    } else {
        seq![
            EffectModel::RecordSelection {
                code: freq_code_of(buf, c, english_by_input),
                text: c.text,
                source: c.source,
            },
            commit,
        ]
    }
}

/// The answers to a [`CommitStep::Settle`].
#[derive(Debug)]
pub struct CommitReplies {
    /// The text to convert, converted.
    pub converted: String,
    /// Associations of the context.
    pub hits: Vec<AssocHit>,
}

/// The reply that inserts `text` and nothing else.
pub open spec fn plain_insert(text: Seq<char>, chinese_mode: bool) -> ActionModel {
    ActionModel::InsertText {
        text,
        new_composition: None,
        mode_changed: false,
        chinese_mode,
        has_new_composition: false,
    }
}

impl Coordinator {
    /// The reply that inserts `text` and nothing else.
    pub fn commit_action(text: String, chinese_mode: bool) -> (r: KeyAction)
        ensures
            r@ == plain_insert(text@, chinese_mode),
    {
        KeyAction::InsertText {
            text,
            new_composition: None,
            mode_changed: false,
            chinese_mode,
            has_new_composition: false,
        }
    }

    /// `act` with `extra` behind the text it inserts; any other reply as it is.
    pub fn append_to_insert_text(act: KeyAction, extra: &str) -> (r: KeyAction)
        ensures
            r@ == (match act@ {
                ActionModel::InsertText {
                    text,
                    new_composition,
                    mode_changed,
                    chinese_mode,
                    has_new_composition,
                } => ActionModel::InsertText {
                    text: text + extra@,
                    new_composition,
                    mode_changed,
                    chinese_mode,
                    has_new_composition,
                },
                other => other,
            }),
            act@ matches ActionModel::InsertText { text, .. } ==> (r@ matches ActionModel::InsertText {
                text: t,
                ..
            } && text.is_prefix_of(t) && t.len() == text.len() + extra@.len()),
            !(act@ is InsertText) ==> r@ == act@,
    {
        match act {
            KeyAction::InsertText {
                text,
                new_composition,
                mode_changed,
                chinese_mode,
                has_new_composition,
            } => KeyAction::InsertText {
                text: joined(text.as_str(), extra),
                new_composition,
                mode_changed,
                chinese_mode,
                has_new_composition,
            },
            other => other,
        }
    }

    /// The reply that commits `text` and opens the composition `comp`.
    pub open spec fn commit_then_open(self, text: Seq<char>, comp: Seq<char>) -> ActionModel {
        if comp.len() > 0 && self.settings.top_commit_mode == TopCommitMode::DirectCommit {
            ActionModel::CommitThenDeferComposition {
                commit_text: text,
                deferred_composition: comp,
                timeout_ms: self.settings.deferred_ms,
            }
        } else {
            ActionModel::InsertText {
                text,
                new_composition: if comp.len() > 0 {
                    Some(comp)
                } else {
                    None
                },
                mode_changed: false,
                chinese_mode: true,
                has_new_composition: comp.len() > 0,
            }
        }
    }

    /// The reply that commits `text` and opens the composition `new_comp` behind it;
    /// without a composition the text is committed alone.
    pub fn commit_then_new_composition(&self, text: String, new_comp: String) -> (r: KeyAction)
        ensures
            r@ == self.commit_then_open(text@, new_comp@),
    {
        if new_comp.as_str().is_empty() {
            return KeyAction::InsertText {
                text,
                new_composition: None,
                mode_changed: false,
                chinese_mode: true,
                has_new_composition: false,
            };
        }
        if self.settings.top_commit_mode == TopCommitMode::DirectCommit {
            return KeyAction::CommitThenDeferComposition {
                commit_text: text,
                deferred_composition: new_comp,
                timeout_ms: self.settings.deferred_ms,
            };
        }
        KeyAction::InsertText {
            text,
            new_composition: Some(new_comp),
            mode_changed: false,
            chinese_mode: true,
            has_new_composition: true,
        }
    }

    /// Whether a space follows a commit, with nothing known of the candidate: the
    /// switch is on and English is being typed.
    pub open spec fn english_space(self, in_temp_english: bool) -> bool {
        self.settings.english_commit_space && (self.engine.is_english || in_temp_english)
    }

    /// Whether a space follows a commit in the schema in use.
    pub fn english_space_enabled(&self) -> (r: bool)
        ensures
            r == self.english_space(false),
    {
        self.settings.english_commit_space && self.engine.is_english
    }

    /// Whether a space follows a commit in the mode in force.
    pub fn english_space_enabled_in(&self, state: &State) -> (r: bool)
        ensures
            r == self.english_space(state.active == Some(ModeKind::TempEnglish)),
    {
        let temp = match state.active {
            Some(m) => m == ModeKind::TempEnglish,
            None => false,
        };
        self.settings.english_commit_space && (self.engine.is_english || temp)
    }

    /// Whether a space follows the commit of a candidate: it is an English word, or
    /// it is the input itself.
    pub open spec fn appends_space(
        self,
        source: CandidateSource,
        text: Seq<char>,
        input: Seq<char>,
    ) -> bool {
        (source == CandidateSource::English || (input.len() > 0 && text == input))
            && self.english_space(false)
    }

    /// Whether a space follows the commit of a candidate.
    pub fn english_appends_space(&self, source: CandidateSource, text: &str, input: &str) -> (r:
        bool)
        ensures
            r == self.appends_space(source, text@, input@),
    {
        (source == CandidateSource::English || (!input.is_empty() && same(text, input)))
            && self.english_space_enabled()
    }

    /// The keys a choice took from the input: its front, or all of it.
    pub fn raw_consumed_code(buf: &str, consumed: usize, partial: bool) -> (r: String)
        requires
            partial ==> is_char_boundary(encode_utf8(buf@), consumed as int),
        ensures
            r@ == (if partial {
                byte_prefix(buf@, consumed as int)
            } else {
                buf@
            }),
            !partial ==> r@ == buf@,
            partial ==> r@ + byte_suffix(buf@, consumed as int) == buf@,
    {
        if partial {
            proof {
                cutting_keeps_every_character(buf@, consumed as int);
            }
            cut(buf, consumed).0
        } else {
            buf.to_owned()
        }
    }

    /// Starts the choice of a candidate.
    ///
    /// A group completes the input to its code. A command is handed out. Any other
    /// candidate is recorded; one that takes only the front of the input joins what
    /// is chosen already and the rest is converted anew, and one that takes all of it
    /// goes on to [`Coordinator::settle_commit`].
    pub fn commit_selected(
        &self,
        state: &mut State,
        cand: &Candidate,
        position: i32,
        out: &mut Outbox,
    ) -> (r: CommitStep)
        ensures
            cand.is_group ==> {
                &&& r@ == StepModel::Requery { group: true }
                &&& final(state).input_buffer@ == cand.group_code@
                &&& final(state).input_cursor_pos == byte_size(cand.group_code@)
                &&& *final(state) == (State {
                    input_buffer: final(state).input_buffer,
                    input_cursor_pos: final(state).input_cursor_pos,
                    ..*old(state)
                })
                &&& final(out)@ == old(out)@
            },
            !cand.is_group && cand.is_command ==> {
                &&& r@ == StepModel::Command {
                    src: cand.phrase_template@,
                    input: command_input(cand@, old(state).input_buffer@),
                }
                &&& *final(state) == *old(state)
                &&& final(out)@ == old(out)@
            },
            !cand.is_group && !cand.is_command ==> final(out)@ == old(out)@ + choice_records(
                cand@,
                old(state).input_buffer@,
                self.engine.english_code_by_input,
                position,
            ),
            !cand.is_group && !cand.is_command && takes_part(cand@, old(state).input_buffer@) ==> {
                let buf = old(state).input_buffer@;
                let rest = byte_suffix(buf, cand.consumed_length as int);
                &&& r@ == StepModel::Requery { group: false }
                &&& seg_models(final(state).committed_segs@) == seg_models(
                    old(state).committed_segs@,
                ).push(chosen_seg(cand@, buf))
                &&& final(state).committed_text@ == old(state).committed_text@ + cand.text@
                &&& final(state).input_buffer@ == rest
                &&& final(state).input_buffer_cased@ == cased_tail(
                    rest,
                    old(state).input_buffer_cased@,
                )
                &&& final(state).input_cursor_pos == byte_size(rest)
                &&& *final(state) == (State {
                    committed_segs: final(state).committed_segs,
                    committed_text: final(state).committed_text,
                    input_buffer: final(state).input_buffer,
                    input_buffer_cased: final(state).input_buffer_cased,
                    input_cursor_pos: final(state).input_cursor_pos,
                    ..*old(state)
                })
            },
            !cand.is_group && !cand.is_command && !takes_part(cand@, old(state).input_buffer@) ==> {
                let buf = old(state).input_buffer@;
                let assoc = cand.source == CandidateSource::Assoc;
                let whole = chosen_text(cand@, old(state).committed_text@);
                &&& r@ == StepModel::Settle {
                    code: code_of(buf, cand@),
                    to_convert: if cand.s2t_override is Some {
                        old(state).committed_text@
                    } else {
                        whole
                    },
                    context: if assoc {
                        cand.text@
                    } else {
                        whole
                    },
                    learn: !assoc,
                }
                &&& seg_models(final(state).committed_segs@) == (if assoc {
                    seg_models(old(state).committed_segs@)
                } else {
                    seg_models(old(state).committed_segs@).push(chosen_seg(cand@, buf))
                })
                &&& *final(state) == (State {
                    committed_segs: final(state).committed_segs,
                    ..*old(state)
                })
            },
            r@ is Settle <==> !cand.is_group && !cand.is_command && !takes_part(
                cand@,
                old(state).input_buffer@,
            ),
            r@ matches StepModel::Settle { code, to_convert, context, learn } ==> {
                &&& learn <==> cand.source != CandidateSource::Assoc
                &&& cand.s2t_override is Some ==> to_convert == old(state).committed_text@
                &&& cand.s2t_override is None && cand.commit_override is None ==> to_convert
                    == old(state).committed_text@ + cand.text@
                &&& cand.source == CandidateSource::Assoc ==> context == cand.text@
                    && final(state).committed_segs@.len() == old(state).committed_segs@.len()
                &&& cand.source != CandidateSource::Assoc ==> final(state).committed_segs@.len()
                    == old(state).committed_segs@.len() + 1
                &&& cand.source != CandidateSource::Assoc && cand.commit_override is None ==> context
                    == old(state).committed_text@ + cand.text@
            },
            r@ == (StepModel::Requery { group: false }) ==> byte_prefix(
                old(state).input_buffer@,
                cand.consumed_length as int,
            ) + final(state).input_buffer@ == old(state).input_buffer@,
    {
        if cand.is_group {
            state.input_buffer = cand.group_code.clone();
            state.input_cursor_pos = state.input_buffer.as_str().len();
            return CommitStep::Requery { group: true };
        }
        if cand.is_command {
            let input = if cand.group_code.as_str().is_empty() {
                state.input_buffer.clone()
            } else {
                cand.group_code.clone()
            };
            return CommitStep::Command { src: cand.phrase_template.clone(), input };
        }
        let from_assoc = cand.source == CandidateSource::Assoc;
        let ghost buf = state.input_buffer@;
        let total: usize = state.input_buffer.as_str().len();
        let consumed = cand.consumed_length;
        let code = Self::cand_code(state.input_buffer.as_str(), cand);
        let partial = consumed > 0 && consumed < total
            && state.input_buffer.as_str().is_char_boundary(consumed);
        let ghost sent = out@;
        if !from_assoc {
            let freq = self.freq_code(state.input_buffer.as_str(), cand);
            out.put(
                Effect::RecordSelection {
                    code: freq,
                    text: cand.text.clone(),
                    source: cand.source,
                },
            );
        }
        let code_len: usize = code.as_str().len();
        out.put(Effect::RecordCommit { text: cand.text.clone(), code_len, position });
        assert(out@ =~= sent + choice_records(
            cand@,
            buf,
            self.engine.english_code_by_input,
            position,
        ));
        let raw_code = Self::raw_consumed_code(state.input_buffer.as_str(), consumed, partial);
        let ghost segs = seg_models(state.committed_segs@);
        if partial {
            let seg = Seg {
                raw_code,
                code,
                text: cand.text.clone(),
                source: cand.source,
                boundary: cand.boundary,
            };
            state.committed_segs.push(seg);
            assert(seg_models(state.committed_segs@) =~= segs.push(seg@));
            state.committed_text = joined(state.committed_text.as_str(), cand.text.as_str());
            let (_, rest) = cut(state.input_buffer.as_str(), consumed);
            state.input_buffer = rest;
            state.input_buffer_cased = keep_cased_tail(
                state.input_buffer.as_str(),
                state.input_buffer_cased.as_str(),
            );
            state.input_cursor_pos = state.input_buffer.as_str().len();
            proof {
                cutting_keeps_every_character(buf, consumed as int);
            }
            return CommitStep::Requery { group: false };
        }
        if !from_assoc {
            let seg = Seg {
                raw_code,
                code: code.clone(),
                text: cand.text.clone(),
                source: cand.source,
                boundary: cand.boundary,
            };
            state.committed_segs.push(seg);
            assert(seg_models(state.committed_segs@) =~= segs.push(seg@));
        }
        let whole = match &cand.commit_override {
            Some(t) => joined(state.committed_text.as_str(), t.as_str()),
            None => joined(state.committed_text.as_str(), cand.text.as_str()),
        };
        let to_convert = if cand.s2t_override.is_some() {
            state.committed_text.clone()
        } else {
            whole.clone()
        };
        let context = if from_assoc {
            cand.text.clone()
        } else {
            whole
        };
        CommitStep::Settle { code, to_convert, context, learn: !from_assoc }
    }

    /// The reply once the input has been converted anew: the composition shows the
    /// state. Behind an opened group the cursor is at the end; behind a part that was
    /// chosen it is at `caret`.
    pub fn complete_requery(state: &State, group: bool, caret: u32, out: &mut Outbox) -> (r:
        KeyAction)
        ensures
            r@ == (ActionModel::UpdateComposition {
                text: state.preedit@,
                caret_pos: if group {
                    state.preedit@.len() as u32
                } else {
                    caret
                },
            }),
            final(out)@ == old(out)@.push(EffectModel::UiUpdate),
            group ==> r@ == (ActionModel::UpdateComposition {
                text: state.preedit@,
                caret_pos: state.preedit@.len() as u32,
            }),
            !group ==> r@ == (ActionModel::UpdateComposition { text: state.preedit@, caret_pos: caret }),
    {
        out.put(Effect::UiUpdate);
        let caret_pos: u32 = if group {
            char_count(state.preedit.as_str()) as u32
        } else {
            caret
        };
        KeyAction::UpdateComposition { text: state.preedit.clone(), caret_pos }
    }

    /// The reply to taking back the choice made last: the composition shows the rest once
    /// it has been converted anew, with the cursor at `caret`. Without a choice the key is
    /// swallowed. `popped` is what [`Coordinator::pop_committed_seg`] said.
    pub fn complete_pop(state: &State, popped: bool, caret: u32, out: &mut Outbox) -> (r: KeyAction)
        ensures
            r@ == (if popped {
                ActionModel::UpdateComposition { text: state.preedit@, caret_pos: caret }
            } else {
                ActionModel::Consumed
            }),
            final(out)@ == (if popped {
                old(out)@.push(EffectModel::UiUpdate)
            } else {
                old(out)@
            }),
            !popped ==> r@ == ActionModel::Consumed && final(out)@ == old(out)@,
            popped ==> r@ is UpdateComposition && final(out)@.len() == old(out)@.len() + 1,
    {
        if popped {
            Self::complete_requery(state, false, caret, out)
        } else {
            KeyAction::Consumed
        }
    }

    /// Whether choosing a candidate also counts as a use of a temporary word: it is
    /// no phrase, a store is there, and the word was not written under the same code
    /// a moment ago.
    pub fn touches_temp_word(&self, cand: &Candidate, code: &str, learned: &Option<String>) -> (r:
        bool)
        ensures
            r == (!cand.is_phrase && self.engine.has_store && opt_view(*learned) != Some(code@)),
            cand.is_phrase || !self.engine.has_store ==> !r,
            opt_view(*learned) == Some(code@) ==> !r,
            !cand.is_phrase && self.engine.has_store && *learned is None ==> r,
    {
        let fresh = match learned {
            Some(l) => same(l.as_str(), code),
            None => false,
        };
        !cand.is_phrase && self.engine.has_store && !fresh
    }

    /// The use of a temporary word that choosing a candidate counts as: the word as it was
    /// chosen, in the store of its source. It counts where the temporary layer holds the
    /// word under that code.
    pub fn temp_word_use(&self, cand: &Candidate, code: &str, learned: &Option<String>) -> (r:
        Option<LearnRequest>)
        ensures
            r is Some == (!cand.is_phrase && self.engine.has_store && opt_view(*learned) != Some(
                code@,
            )),
            r matches Some(w) ==> {
                &&& w.code@ == code@
                &&& w.text@ == cand.text@
                &&& w.weight == LEARN_ADD_WEIGHT
                &&& w.boundary == cand.boundary
                &&& w.owner == Some(cand.source)
            },
            cand.is_phrase || !self.engine.has_store ==> r is None,
            opt_view(*learned) == Some(code@) ==> r is None,
            r matches Some(w) ==> w.weight == 800 && w.owner is Some,
            !cand.is_phrase && self.engine.has_store && *learned is None ==> r is Some,
    {
        if !self.touches_temp_word(cand, code, learned) {
            return None;
        }
        Some(
            LearnRequest {
                code: code.to_owned(),
                text: cand.text.clone(),
                boundary: cand.boundary,
                weight: LEARN_ADD_WEIGHT,
                owner: Some(cand.source),
            },
        )
    }

    /// Whether a temporary word moves to the user dictionary once it has been used `count`
    /// times.
    pub fn temp_word_moves(&self, count: u32) -> (r: bool)
        ensures
            r == (self.promote_after() > 0 && count >= self.promote_after()),
            self.promote_after() == 0 ==> !r,
            r ==> count >= self.promote_after(),
            self.promote_after() > 0 && count >= self.promote_after() ==> r,
    {
        Self::maybe_promote_temp(count, self.temp_promote_count())
    }

    /// How often a temporary word has to be used before it moves to the user
    /// dictionary; 0 stands for never.
    pub open spec fn promote_after(self) -> usize {
        if self.engine.is_pinyin {
            self.engine.auto_learn.promote_count
        } else {
            self.engine.codetable.auto_phrase.promote_count
        }
    }

    /// How often a temporary word has to be used before it moves to the user
    /// dictionary.
    pub fn temp_promote_count(&self) -> (r: usize)
        ensures
            r == self.promote_after(),
    {
        if self.engine.is_pinyin {
            self.engine.auto_learn.promote_count
        } else {
            self.engine.codetable.auto_phrase.promote_count
        }
    }

    /// The text a full choice puts out: the converted text, the candidate's fixed
    /// output where it has one, and a space after English.
    pub open spec fn output_text(self, c: CandidateModel, converted: Seq<char>, buf: Seq<char>) -> Seq<
        char,
    > {
        let body = match c.s2t_override {
            Some(t) => converted + t,
            None => converted,
        };
        if self.appends_space(c.source, c.text, buf) {
            body.push(' ')
        } else {
            body
        }
    }

    fn output_of(&self, cand: &Candidate, converted: &str, buf: &str) -> (r: String)
        ensures
            r@ == self.output_text(cand@, converted@, buf@),
    {
        let mut text = match &cand.s2t_override {
            Some(t) => joined(converted, t.as_str()),
            None => converted.to_owned(),
        };
        if self.english_appends_space(cand.source, cand.text.as_str(), buf) {
            text.push(' ');
        }
        text
    }

    /// Whether associations follow a choice.
    pub open spec fn associations_follow(self, c: CandidateModel, hits: Seq<AssocHit>) -> bool {
        &&& c.source != CandidateSource::Assoc || self.settings.assoc_continuous
        &&& self.settings.assoc_enabled
        &&& hits.len() > 0
    }

    /// Finishes a full choice: the text is put out and the composition cleared, and
    /// where associations follow they become the candidates of a placeholder
    /// composition that opens behind the text.
    pub fn settle_commit(
        &mut self,
        state: &mut State,
        cand: &Candidate,
        replies: &CommitReplies,
        out: &mut Outbox,
    ) -> (r: KeyAction)
        ensures
            r@ == (if old(self).associations_follow(cand@, replies.hits@) {
                old(self).commit_then_open(
                    old(self).output_text(cand@, replies.converted@, old(state).input_buffer@),
                    assoc_composition(),
                )
            } else {
                plain_insert(
                    old(self).output_text(cand@, replies.converted@, old(state).input_buffer@),
                    true,
                )
            }),
            input_dropped(*old(state), *final(state)),
            old(self).associations_follow(cand@, replies.hits@) ==> {
                &&& models(final(state).candidates@) == replies.hits@.map_values(
                    |h: AssocHit| assoc_candidate(h),
                )
                &&& offers_assoc(*final(state))
                &&& final(state).preedit@ == (if old(self).settings.preedit_inline {
                    Seq::empty()
                } else {
                    old(self).settings.assoc_hint@
                })
                &&& *final(self) == (Coordinator {
                    assoc_hide_token: next_token(old(self).assoc_hide_token),
                    ..*old(self)
                })
                &&& final(out)@ == (if old(self).settings.assoc_hide_after_ms == 0 {
                    old(out)@
                } else {
                    old(out)@.push(
                        EffectModel::ArmAssocHide {
                            ms: old(self).settings.assoc_hide_after_ms,
                            token: next_token(old(self).assoc_hide_token),
                        },
                    )
                }).push(EffectModel::UiUpdate)
            },
            !old(self).associations_follow(cand@, replies.hits@) ==> {
                &&& composition_cleared(*old(state), *final(state))
                &&& *final(self) == *old(self)
                &&& final(out)@ == old(out)@.push(EffectModel::UiHide)
            },
            final(state).input_buffer@.len() == 0 && final(state).committed_text@.len() == 0,
            offers_assoc(*final(state)) <==> old(self).associations_follow(cand@, replies.hits@),
            replies.hits@.len() == 0 ==> r@ is InsertText && final(state).candidates@.len() == 0,
    {
        let text = self.output_of(cand, replies.converted.as_str(), state.input_buffer.as_str());
        reset_pinyin_composition(state);
        let from_assoc = cand.source == CandidateSource::Assoc;
        if self.assoc_may_chain(from_assoc) {
            if self.maybe_enter_assoc(state, &replies.hits, out) {
                out.put(Effect::UiUpdate);
                let mut comp = String::new();
                comp.push(' ');
                assert(comp@ =~= assoc_composition());
                return self.commit_then_new_composition(text, comp);
            }
        }
        out.put(Effect::UiHide);
        Self::commit_action(text, true)
    }
}

/// Taking back the last choice undoes it: the keys it took stand in front of the rest
/// again, and what was chosen before is what is left. `a` is a composition, `b` the one
/// after a part of its input was chosen, and `c` the one after that was taken back.
pub proof fn taking_back_undoes_a_choice(
    a: State,
    b: State,
    c: State,
    cand: CandidateModel,
)
    requires
        takes_part(cand, a.input_buffer@),
        a.committed_text@ == seg_texts(seg_models(a.committed_segs@)),
        seg_models(b.committed_segs@) == seg_models(a.committed_segs@).push(
            chosen_seg(cand, a.input_buffer@),
        ),
        b.input_buffer@ == byte_suffix(a.input_buffer@, cand.consumed_length as int),
        seg_models(c.committed_segs@) == seg_models(b.committed_segs@).drop_last(),
        c.committed_text@ == seg_texts(seg_models(b.committed_segs@).drop_last()),
        c.input_buffer@ == seg_models(b.committed_segs@).last().raw_code + b.input_buffer@,
    ensures
        c.input_buffer@ == a.input_buffer@,
        c.committed_text@ == a.committed_text@,
        seg_models(c.committed_segs@) == seg_models(a.committed_segs@),
{
    cutting_keeps_every_character(a.input_buffer@, cand.consumed_length as int);
    let segs = seg_models(a.committed_segs@);
    assert(segs.push(chosen_seg(cand, a.input_buffer@)).drop_last() =~= segs);
}

/// What is shown as chosen is what the chosen segments say, after a further choice too.
pub proof fn chosen_text_follows_the_segments(segs: Seq<SegModel>, seg: SegModel)
    ensures
        seg_texts(segs.push(seg)) == seg_texts(segs) + seg.text,
{
    assert(segs.push(seg).drop_last() =~= segs);
}

/// Reading and writing agree: the record that choosing a candidate for the whole input
/// adds to is the record looked up for it when the same input is typed again, in the
/// schema that owns it.
pub proof fn lookup_finds_what_selection_wrote(
    c: Coordinator,
    cand: CandidateModel,
    input: Seq<char>,
    position: i32,
    policy: FreqPolicy,
    scope: FreqScope,
)
    requires
        !cand.is_phrase,
        cand.source != CandidateSource::Assoc,
        consumed_of(cand, byte_size(input) as int) >= byte_size(input),
        scope.english_code_by_input == c.engine.english_code_by_input,
        opt_view(policy.schema) == record_schema(cand, scope),
    ensures
        choice_records(cand, input, c.engine.english_code_by_input, position)[0] matches
            EffectModel::RecordSelection { code, text, source } && (c.keeps_frequency(
            text,
            source,
            policy,
        ) ==> c.frequency_key(code, text, source, policy) == probe_key(
            cand,
            input,
            scope,
            policy.excluded,
        )),
{
}

/// The front that is cut off has as many bytes as were asked for, and the rest has the others.
pub proof fn cutting_counts_bytes(s: Seq<char>, n: int)
    requires
        is_char_boundary(encode_utf8(s), n),
    ensures
        encode_utf8(byte_prefix(s, n)).len() == n,
        encode_utf8(byte_prefix(s, n)).len() + encode_utf8(byte_suffix(s, n)).len() == encode_utf8(
            s,
        ).len(),
{
    let b = encode_utf8(s);
    encode_utf8_valid_utf8(s);
    valid_utf8_split(b, n);
    lemma_boundary_inside(b, n);
    decode_utf8_encode_utf8(b.subrange(0, n));
    decode_utf8_encode_utf8(b.subrange(n, b.len() as int));
}

proof fn lemma_boundary_inside(b: Seq<u8>, n: int)
    requires
        valid_utf8(b),
        is_char_boundary(b, n),
    ensures
        0 <= n <= b.len(),
    decreases b.len(),
{
    if n > 0 && b.len() > 0 {
        let rest = pop_first_scalar(b);
        lemma_boundary_inside(rest, n - length_of_first_scalar(b));
    }
}

/// A candidate takes a part of the input where it says how many bytes and there are more; one
/// that does not say, or says as many as there are or more, takes all of it.
pub proof fn candidates_without_a_length_take_everything(c: CandidateModel, buf: Seq<char>)
    ensures
        c.consumed_length == 0 ==> !takes_part(c, buf),
        c.consumed_length >= byte_size(buf) ==> !takes_part(c, buf),
        0 < c.consumed_length < byte_size(buf) && is_char_boundary(
            encode_utf8(buf),
            c.consumed_length as int,
        ) ==> takes_part(c, buf),
{
}

/// The keys with capitals that are kept are the last ones, no more than the rest has and as
/// many as there are.
pub proof fn capitals_stay_with_their_keys(buf: Seq<char>, cased: Seq<char>)
    ensures
        cased_tail(buf, cased).len() <= buf.len(),
        cased.len() >= buf.len() ==> cased_tail(buf, cased).len() == buf.len(),
        cased.len() <= buf.len() ==> cased_tail(buf, cased) == cased,
        exists|front: Seq<char>| #[trigger] (front + cased_tail(buf, cased)) == cased,
{
    let t = cased_tail(buf, cased);
    let front = cased.take(cased.len() - t.len());
    assert(front + t =~= cased);
}

/// A command is evaluated for its full code where it has one, and else for the keys.
pub proof fn commands_are_evaluated_for_their_code(c: CandidateModel, buf: Seq<char>)
    ensures
        c.group_code.len() > 0 ==> command_input(c, buf) == c.group_code,
        c.group_code.len() == 0 ==> command_input(c, buf) == buf,
{
}

/// A choice commits what was chosen before, and behind it the candidate's text, or the text
/// that it commits in its place.
pub proof fn choices_follow_what_was_chosen(c: CandidateModel, committed: Seq<char>)
    ensures
        committed.is_prefix_of(chosen_text(c, committed)),
        c.commit_override is None ==> chosen_text(c, committed).skip(committed.len() as int)
            == c.text,
        c.commit_override matches Some(t) ==> chosen_text(c, committed).skip(committed.len() as int)
            == t,
{
    assert((committed + c.text).skip(committed.len() as int) =~= c.text);
    match c.commit_override {
        Some(t) => {
            assert((committed + t).skip(committed.len() as int) =~= t);
        },
        None => {},
    }
}

/// A segment holds the keys the choice took, and with the keys that are left they are the
/// input; its text, source and boundaries are those of the candidate, its code too, and the
/// keys where that has none.
pub proof fn segments_hold_the_keys_they_took(c: CandidateModel, buf: Seq<char>)
    ensures
        takes_part(c, buf) ==> chosen_seg(c, buf).raw_code + byte_suffix(
            buf,
            c.consumed_length as int,
        ) == buf && encode_utf8(chosen_seg(c, buf).raw_code).len() == c.consumed_length,
        !takes_part(c, buf) ==> chosen_seg(c, buf).raw_code == buf,
        chosen_seg(c, buf).text == c.text,
        chosen_seg(c, buf).source == c.source,
        chosen_seg(c, buf).boundary == c.boundary,
        c.code.len() > 0 ==> chosen_seg(c, buf).code == c.code,
        c.code.len() == 0 ==> chosen_seg(c, buf).code == buf,
{
    if takes_part(c, buf) {
        cutting_keeps_every_character(buf, c.consumed_length as int);
        cutting_counts_bytes(buf, c.consumed_length as int);
    }
}

/// Every choice is recorded as a commit, with its place and the length of its code; the choice
/// of anything but an association is recorded as a selection before.
pub proof fn choices_are_recorded(
    c: CandidateModel,
    buf: Seq<char>,
    english_by_input: bool,
    position: i32,
)
    ensures
        ({
            let r = choice_records(c, buf, english_by_input, position);
            &&& r.last() == (EffectModel::RecordCommit {
                text: c.text,
                code_len: byte_size(
                    if c.code.len() > 0 {
                        c.code
                    } else {
                        buf
                    },
                ),
                position,
            })
            &&& c.source == CandidateSource::Assoc ==> r.len() == 1
            &&& c.source != CandidateSource::Assoc ==> r.len() == 2 && r[0] == (
            EffectModel::RecordSelection {
                code: freq_code_of(buf, c, english_by_input),
                text: c.text,
                source: c.source,
            })
        }),
{
}

/// A plain insertion inserts the text, opens no composition and changes no mode.
pub proof fn a_plain_insertion_opens_nothing(text: Seq<char>, chinese_mode: bool)
    ensures
        plain_insert(text, chinese_mode) matches ActionModel::InsertText {
            text: t,
            new_composition,
            mode_changed,
            chinese_mode: m,
            has_new_composition,
        } && t == text && new_composition is None && !mode_changed && m == chinese_mode
            && !has_new_composition,
{
}

/// A composition that opens behind a commit travels with it, or waits for the key to be
/// released where text is committed directly; without one the text is committed alone.
pub proof fn compositions_open_behind_a_commit(c: Coordinator, text: Seq<char>, comp: Seq<char>)
    ensures
        comp.len() == 0 ==> c.commit_then_open(text, comp) == plain_insert(text, true),
        comp.len() > 0 && c.settings.top_commit_mode == TopCommitMode::DirectCommit ==> (
        c.commit_then_open(text, comp) matches ActionModel::CommitThenDeferComposition {
            commit_text,
            deferred_composition,
            timeout_ms,
        } && commit_text == text && deferred_composition == comp && timeout_ms
            == c.settings.deferred_ms),
        comp.len() > 0 && c.settings.top_commit_mode == TopCommitMode::PreConfirm ==> (
        c.commit_then_open(text, comp) matches ActionModel::InsertText {
            text: t,
            new_composition,
            mode_changed,
            chinese_mode,
            has_new_composition,
        } && t == text && new_composition == Some(comp) && has_new_composition && !mode_changed
            && chinese_mode),
{
}

/// A space follows an English word, and the input committed as it is, where the switch is on
/// and English is typed; it follows nothing else.
pub proof fn spaces_follow_english(
    c: Coordinator,
    source: CandidateSource,
    text: Seq<char>,
    input: Seq<char>,
)
    ensures
        c.appends_space(source, text, input) ==> c.settings.english_commit_space
            && c.engine.is_english,
        c.settings.english_commit_space && c.engine.is_english && source == CandidateSource::English
            ==> c.appends_space(source, text, input),
        c.settings.english_commit_space && c.engine.is_english && input.len() > 0 && text == input
            ==> c.appends_space(source, text, input),
        source != CandidateSource::English && (input.len() == 0 || text != input)
            ==> !c.appends_space(source, text, input),
        c.english_space(true) == c.settings.english_commit_space,
        c.english_space(false) == (c.settings.english_commit_space && c.engine.is_english),
{
}

/// What is put out is the converted text with the candidate's fixed output behind it, and with
/// a space behind that where one follows.
pub proof fn output_ends_with_what_is_fixed(
    c: Coordinator,
    cand: CandidateModel,
    converted: Seq<char>,
    buf: Seq<char>,
)
    ensures
        converted.is_prefix_of(c.output_text(cand, converted, buf)),
        !c.appends_space(cand.source, cand.text, buf) && cand.s2t_override is None
            ==> c.output_text(cand, converted, buf) == converted,
        !c.appends_space(cand.source, cand.text, buf) ==> (cand.s2t_override matches Some(t)
            ==> c.output_text(cand, converted, buf) == converted + t),
        c.appends_space(cand.source, cand.text, buf) ==> c.output_text(cand, converted, buf).last()
            == ' ' && c.output_text(cand, converted, buf).len() == converted.len() + 1 + (
        match cand.s2t_override {
            Some(t) => t.len(),
            None => 0,
        }),
{
}

/// Temporary words move after as many uses as the engine in use asks for: pinyin and code
/// tables each have their own number.
pub proof fn engines_have_their_own_thresholds(c: Coordinator)
    ensures
        c.engine.is_pinyin ==> c.promote_after() == c.engine.auto_learn.promote_count,
        !c.engine.is_pinyin ==> c.promote_after() == c.engine.codetable.auto_phrase.promote_count,
{
}

/// Associations follow a choice where they are on and there are any; behind an association
/// only where one may lead to the next.
pub proof fn associations_follow_where_they_may(
    c: Coordinator,
    cand: CandidateModel,
    hits: Seq<AssocHit>,
)
    ensures
        hits.len() == 0 || !c.settings.assoc_enabled ==> !c.associations_follow(cand, hits),
        c.settings.assoc_enabled && hits.len() > 0 && cand.source != CandidateSource::Assoc
            ==> c.associations_follow(cand, hits),
        c.settings.assoc_enabled && hits.len() > 0 && cand.source == CandidateSource::Assoc
            ==> c.associations_follow(cand, hits) == c.settings.assoc_continuous,
{
}

} // verus!

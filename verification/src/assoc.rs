//! Associations: candidates offered after a commit, with no input behind them.

use crate::action::{ActionModel, Effect, EffectModel, KeyAction, Outbox};
use crate::candidate::{
    blank_candidate, models, opt_view, Candidate, CandidateModel, CandidateSource,
};
use crate::coordinator::{reset_candidate_view, Coordinator};
use crate::state::State;
use crate::text::{chars_of, same, starts_with, string_of_range};
use vstd::prelude::*;
use vstd::string::*;

verus! {

/// The composition kept open while associations are offered, so that the keys that
/// follow still reach the coordinator.
pub open spec fn assoc_composition() -> Seq<char> {
    seq![' ']
}

/// A suggestion: what is shown, and what is committed where that differs.
#[derive(Debug)]
pub struct AssocHit {
    pub text: String,
    pub commit: Option<String>,
}

/// A word of the dictionary with its weight.
#[derive(Debug)]
pub struct PrefixWord {
    pub word: String,
    pub weight: i32,
}

/// The candidate of a suggestion.
pub open spec fn assoc_candidate(h: AssocHit) -> CandidateModel {
    CandidateModel {
        text: h.text@,
        commit_override: if h.commit is Some && h.commit->0@ != h.text@ {
            Some(h.commit->0@)
        } else {
            None
        },
        source: CandidateSource::Assoc,
        ..blank_candidate()
    }
}

/// The rest of `word` behind `context`; the whole word when it does not start with
/// it.
pub open spec fn rest_of(word: Seq<char>, context: Seq<char>) -> Seq<char> {
    if context.is_prefix_of(word) {
        word.skip(context.len() as int)
    } else {
        word
    }
}

/// A suggestion commits exactly what is missing: behind the context, its commit
/// text gives the word.
pub proof fn suggestion_completes_the_word(word: Seq<char>, context: Seq<char>)
    requires
        context.is_prefix_of(word),
    ensures
        context + rest_of(word, context) == word,
{
    assert(context + rest_of(word, context) =~= word);
}

fn strip_context(word: &str, context: &str) -> (r: String)
    ensures
        r@ == rest_of(word@, context@),
{
    if !starts_with(word, context) {
        return word.to_owned();
    }
    let v = chars_of(word);
    let n = crate::text::char_count(context);
    let r = string_of_range(&v, n, v.len());
    assert(v@.subrange(n as int, v@.len() as int) =~= v@.skip(n as int));
    r
}

/// The suggestions words of the dictionary give for a context: the whole word is
/// shown and its rest is committed. None without a schema or with room for none.
pub fn suggest(schema: &str, words: &Vec<PrefixWord>, context: &str, limit: usize) -> (r: Vec<
    AssocHit,
>)
    ensures
        limit == 0 || schema@.len() == 0 ==> r@.len() == 0,
        limit > 0 && schema@.len() > 0 ==> {
            &&& r@.len() == words@.len()
            &&& forall|i: int|
                0 <= i < r@.len() ==> {
                    &&& (#[trigger] r@[i]).text@ == words@[i].word@
                    &&& opt_view(r@[i].commit) == Some(rest_of(words@[i].word@, context@))
                }
        },
        forall|i: int|
            0 <= i < r@.len() && context@.is_prefix_of(words@[i].word@) ==> context@
                + (#[trigger] r@[i]).commit->0@ == words@[i].word@,
        r@.len() > 0 ==> limit > 0 && schema@.len() > 0,
{
    let mut out: Vec<AssocHit> = Vec::new();
    if limit == 0 || schema.is_empty() {
        return out;
    }
    let mut i: usize = 0;
    while i < words.len()
        invariant
            i <= words@.len(),
            out@.len() == i,
            forall|k: int|
                0 <= k < i ==> {
                    &&& (#[trigger] out@[k]).text@ == words@[k].word@
                    &&& opt_view(out@[k].commit) == Some(rest_of(words@[k].word@, context@))
                },
        decreases words.len() - i,
    {
        let commit = strip_context(words[i].word.as_str(), context);
        out.push(AssocHit { text: words[i].word.clone(), commit: Some(commit) });
        i = i + 1;
    }
    out
}

fn candidate_of(h: &AssocHit) -> (c: Candidate)
    ensures
        c@ == assoc_candidate(*h),
{
    let over: Option<String> = match &h.commit {
        Some(t) => if same(t.as_str(), h.text.as_str()) {
            None
        } else {
            Some(t.clone())
        },
        None => None,
    };
    let base = Candidate::default();
    Candidate {
        text: h.text.clone(),
        commit_override: over,
        source: CandidateSource::Assoc,
        ..base
    }
}

/// Whether the candidates of `state` are associations.
pub open spec fn offers_assoc(state: State) -> bool {
    state.candidates@.len() > 0 && state.candidates@[0].source == CandidateSource::Assoc
}

impl State {
    /// Whether the candidates are associations. The list itself tells: there is no
    /// second record that could disagree with it.
    pub fn assoc_active(&self) -> (r: bool)
        ensures
            r == offers_assoc(*self),
    {
        self.candidates.len() > 0 && self.candidates[0].source == CandidateSource::Assoc
    }
}

/// The token after `t`.
pub open spec fn next_token(t: u64) -> u64 {
    if t == u64::MAX {
        0
    } else {
        (t + 1) as u64
    }
}

/// What becomes of an orphaned placeholder under an action.
#[derive(Clone, Copy, PartialEq, Eq, Structural, Debug)]
pub enum Fate {
    /// The action ends or replaces the composition.
    Absorbs,
    /// The key goes back to the application and the placeholder stays.
    LeavesOrphan,
    /// The action does not touch the composition.
    Untouched,
}

/// What becomes of an orphaned placeholder under an action.
pub open spec fn fate_of(a: ActionModel) -> Fate {
    match a {
        ActionModel::PassThrough | ActionModel::NotHandled => Fate::LeavesOrphan,
        ActionModel::StatusUpdate
        | ActionModel::Consumed
        | ActionModel::MoveCursorRight { .. }
        | ActionModel::DeletePair => Fate::Untouched,
        _ => Fate::Absorbs,
    }
}

/// The reply that goes out in place of `a`, and whether an orphan is left behind it.
pub open spec fn adopted(orphaned: bool, a: ActionModel) -> (ActionModel, bool) {
    (
        if orphaned && fate_of(a) == Fate::LeavesOrphan {
            ActionModel::ClearCompositionThenPassThrough
        } else {
            a
        },
        orphaned && fate_of(a) == Fate::Untouched,
    )
}

fn fate(a: &KeyAction) -> (r: Fate)
    ensures
        r == fate_of(a@),
{
    match a {
        KeyAction::InsertText { .. }
        | KeyAction::InsertTextWithCursor { .. }
        | KeyAction::UpdateComposition { .. }
        | KeyAction::ClearComposition
        | KeyAction::ClearCompositionThenPassThrough
        | KeyAction::ReplaceBackward { .. }
        | KeyAction::HoldComposition { .. }
        | KeyAction::CommitReplacingHeld { .. }
        | KeyAction::CommitAndHoldComposition { .. }
        | KeyAction::CommitThenDeferComposition { .. } => Fate::Absorbs,
        KeyAction::PassThrough | KeyAction::NotHandled => Fate::LeavesOrphan,
        KeyAction::StatusUpdate
        | KeyAction::Consumed
        | KeyAction::MoveCursorRight { .. }
        | KeyAction::DeletePair => Fate::Untouched,
    }
}

/// Whether `b` is `a` with its associations closed.
pub open spec fn assoc_closed(a: State, b: State) -> bool {
    &&& b.candidates@.len() == 0
    &&& b.preedit@.len() == 0
    &&& b == (State {
        candidates: b.candidates,
        preedit: b.preedit,
        current_page: 0,
        selected_index: 0,
        hover_index: None,
        ..a
    })
}

impl Coordinator {
    /// Closes the associations and gives up the timer that would have closed them;
    /// nothing happens when there are none.
    pub fn exit_assoc(&mut self, state: &mut State) -> (closed: bool)
        ensures
            closed == offers_assoc(*old(state)),
            !closed ==> *final(state) == *old(state) && *final(self) == *old(self),
            closed ==> {
                &&& assoc_closed(*old(state), *final(state))
                &&& *final(self) == (Coordinator {
                    assoc_hide_token: next_token(old(self).assoc_hide_token),
                    ..*old(self)
                })
            },
            !offers_assoc(*final(state)),
            closed ==> final(self).assoc_hide_token != old(self).assoc_hide_token,
    {
        if !state.assoc_active() {
            return false;
        }
        state.candidates = Vec::new();
        state.preedit = String::new();
        reset_candidate_view(state);
        self.bump_assoc_token();
        true
    }

    fn bump_assoc_token(&mut self) -> (t: u64)
        ensures
            t == next_token(old(self).assoc_hide_token),
            *final(self) == (Coordinator { assoc_hide_token: t, ..*old(self) }),
    {
        let t: u64 = if self.assoc_hide_token == u64::MAX {
            0
        } else {
            self.assoc_hide_token + 1
        };
        self.assoc_hide_token = t;
        t
    }

    /// Starts the timer that closes the associations, under a fresh token; a time of
    /// 0 only gives up the timer that is running.
    pub fn arm_assoc_hide(&mut self, ms: u64, out: &mut Outbox)
        ensures
            *final(self) == (Coordinator {
                assoc_hide_token: next_token(old(self).assoc_hide_token),
                ..*old(self)
            }),
            final(out)@ == (if ms == 0 {
                old(out)@
            } else {
                old(out)@.push(
                    EffectModel::ArmAssocHide { ms, token: next_token(old(self).assoc_hide_token) },
                )
            }),
            ms == 0 ==> final(out)@ == old(out)@,
            ms > 0 ==> final(out)@.last() == (EffectModel::ArmAssocHide {
                ms,
                token: final(self).assoc_hide_token,
            }),
            final(self).assoc_hide_token != old(self).assoc_hide_token,
    {
        let token = self.bump_assoc_token();
        if ms > 0 {
            out.put(Effect::ArmAssocHide { ms, token });
        }
    }

    /// Offers `hits` as candidates after a commit: nothing when associations are
    /// switched off or there are none. The code line names the mode unless the
    /// composition is shown in the application.
    pub fn maybe_enter_assoc(
        &mut self,
        state: &mut State,
        hits: &Vec<AssocHit>,
        out: &mut Outbox,
    ) -> (entered: bool)
        ensures
            entered == (old(self).settings.assoc_enabled && hits@.len() > 0),
            entered ==> final(state).candidates@.len() == hits@.len(),
            entered ==> final(self).assoc_hide_token != old(self).assoc_hide_token,
            !old(self).settings.assoc_enabled || hits@.len() == 0 ==> !entered,
            !entered ==> {
                &&& *final(self) == *old(self)
                &&& *final(state) == *old(state)
                &&& final(out)@ == old(out)@
            },
            entered ==> {
                &&& models(final(state).candidates@) == hits@.map_values(
                    |h: AssocHit| assoc_candidate(h),
                )
                &&& final(state).preedit@ == (if old(self).settings.preedit_inline {
                    Seq::empty()
                } else {
                    old(self).settings.assoc_hint@
                })
                &&& *final(state) == (State {
                    candidates: final(state).candidates,
                    preedit: final(state).preedit,
                    current_page: 0,
                    selected_index: 0,
                    hover_index: None,
                    ..*old(state)
                })
                &&& *final(self) == (Coordinator {
                    assoc_hide_token: next_token(old(self).assoc_hide_token),
                    ..*old(self)
                })
                &&& final(out)@ == (if old(self).settings.assoc_hide_after_ms == 0 {
                    old(out)@
                } else {
                    old(out)@.push(
                        EffectModel::ArmAssocHide {
                            ms: old(self).settings.assoc_hide_after_ms,
                            token: next_token(old(self).assoc_hide_token),
                        },
                    )
                })
                &&& offers_assoc(*final(state))
            },
            old(self).settings.assoc_enabled && hits@.len() > 0 ==> entered,
    {
        if !self.settings.assoc_enabled || hits.len() == 0 {
            return false;
        }
        let mut list: Vec<Candidate> = Vec::new();
        let mut i: usize = 0;
        while i < hits.len()
            invariant
                i <= hits@.len(),
                list@.len() == i,
                forall|k: int| 0 <= k < i ==> (#[trigger] list@[k])@ == assoc_candidate(hits@[k]),
            decreases hits.len() - i,
        {
            list.push(candidate_of(&hits[i]));
            i = i + 1;
        }
        assert(models(list@) =~= hits@.map_values(|h: AssocHit| assoc_candidate(h)));
        assert(list@[0]@ == assoc_candidate(hits@[0]));
        state.candidates = list;
        reset_candidate_view(state);
        state.preedit = if self.settings.preedit_inline {
            String::new()
        } else {
            self.settings.assoc_hint.clone()
        };
        let ms = self.settings.assoc_hide_after_ms;
        self.arm_assoc_hide(ms, out);
        true
    }

    /// Closes the associations when their timer fires. A timer that was given up
    /// meanwhile carries an older token and does nothing. No key is waiting for a
    /// reply, so the placeholder in the application is left for the next one.
    pub fn fire_assoc_hide(&mut self, token: u64, out: &mut Outbox)
        ensures
            token != old(self).assoc_hide_token || !offers_assoc(old(self).state) ==> {
                &&& *final(self) == *old(self)
                &&& final(out)@ == old(out)@
            },
            token == old(self).assoc_hide_token && offers_assoc(old(self).state) ==> {
                &&& assoc_closed(old(self).state, final(self).state)
                &&& *final(self) == (Coordinator {
                    state: final(self).state,
                    assoc_hide_token: next_token(token),
                    assoc_placeholder_orphaned: true,
                    ..*old(self)
                })
                &&& final(out)@ == old(out)@.push(EffectModel::UiHide)
            },
            token == old(self).assoc_hide_token && offers_assoc(old(self).state) ==> !offers_assoc(
                final(self).state,
            ) && final(self).assoc_placeholder_orphaned && final(self).assoc_hide_token != token,
    {
        if self.assoc_hide_token != token || !self.state.assoc_active() {
            return;
        }
        let mut state = State::new();
        std::mem::swap(&mut state, &mut self.state);
        let _ = self.exit_assoc(&mut state);
        std::mem::swap(&mut state, &mut self.state);
        self.assoc_placeholder_orphaned = true;
        out.put(Effect::UiHide);
    }

    /// Forgets the orphaned placeholder once something else has closed it.
    pub fn clear_orphaned_placeholder(&mut self)
        ensures
            *final(self) == (Coordinator { assoc_placeholder_orphaned: false, ..*old(self) }),
    {
        self.assoc_placeholder_orphaned = false;
    }

    /// Lets the reply to a key close an orphaned placeholder: a reply that ends or
    /// replaces the composition does so by itself; one that hands the key back is
    /// made to end the composition first; one that leaves the composition alone
    /// leaves the orphan for the next key.
    pub fn adopt_orphaned_placeholder(&mut self, action: KeyAction) -> (r: KeyAction)
        ensures
            (r@, final(self).assoc_placeholder_orphaned) == adopted(
                old(self).assoc_placeholder_orphaned,
                action@,
            ),
            *final(self) == (Coordinator {
                assoc_placeholder_orphaned: final(self).assoc_placeholder_orphaned,
                ..*old(self)
            }),
    {
        if !self.assoc_placeholder_orphaned {
            return action;
        }
        match fate(&action) {
            Fate::Absorbs => {
                self.assoc_placeholder_orphaned = false;
                action
            },
            Fate::LeavesOrphan => {
                self.assoc_placeholder_orphaned = false;
                KeyAction::ClearCompositionThenPassThrough
            },
            Fate::Untouched => action,
        }
    }

    /// Closes the associations on a key; the key is swallowed or handed back.
    pub fn assoc_dismiss_with(&mut self, state: &mut State, cancels_only: bool, out: &mut Outbox) -> (r:
        KeyAction)
        ensures
            r@ == (if cancels_only {
                ActionModel::ClearComposition
            } else {
                ActionModel::ClearCompositionThenPassThrough
            }),
            final(out)@ == old(out)@.push(EffectModel::UiHide),
            !offers_assoc(*old(state)) ==> *final(state) == *old(state) && *final(self) == *old(
                self,
            ),
            offers_assoc(*old(state)) ==> {
                &&& assoc_closed(*old(state), *final(state))
                &&& *final(self) == (Coordinator {
                    assoc_hide_token: next_token(old(self).assoc_hide_token),
                    ..*old(self)
                })
            },
            cancels_only <==> r@ == ActionModel::ClearComposition,
            !offers_assoc(*final(state)),
    {
        let _ = self.exit_assoc(state);
        out.put(Effect::UiHide);
        if cancels_only {
            KeyAction::ClearComposition
        } else {
            KeyAction::ClearCompositionThenPassThrough
        }
    }

    /// The return key while associations are offered.
    pub fn assoc_enter(&mut self, state: &mut State, out: &mut Outbox) -> (r: KeyAction)
        ensures
            r@ == (if old(self).settings.assoc_enter_cancels_only {
                ActionModel::ClearComposition
            } else {
                ActionModel::ClearCompositionThenPassThrough
            }),
            final(out)@ == old(out)@.push(EffectModel::UiHide),
            offers_assoc(*old(state)) ==> assoc_closed(*old(state), *final(state)),
            !offers_assoc(*old(state)) ==> *final(state) == *old(state),
            *final(self) == (Coordinator {
                assoc_hide_token: if offers_assoc(*old(state)) {
                    next_token(old(self).assoc_hide_token)
                } else {
                    old(self).assoc_hide_token
                },
                ..*old(self)
            }),
            old(self).settings.assoc_enter_cancels_only <==> r@ == ActionModel::ClearComposition,
            !offers_assoc(*final(state)),
    {
        let cancels_only = self.settings.assoc_enter_cancels_only;
        self.assoc_dismiss_with(state, cancels_only, out)
    }

    /// The backspace key while associations are offered.
    pub fn assoc_backspace(&mut self, state: &mut State, out: &mut Outbox) -> (r: KeyAction)
        ensures
            r@ == (if old(self).settings.assoc_backspace_cancels_only {
                ActionModel::ClearComposition
            } else {
                ActionModel::ClearCompositionThenPassThrough
            }),
            final(out)@ == old(out)@.push(EffectModel::UiHide),
            offers_assoc(*old(state)) ==> assoc_closed(*old(state), *final(state)),
            !offers_assoc(*old(state)) ==> *final(state) == *old(state),
            *final(self) == (Coordinator {
                assoc_hide_token: if offers_assoc(*old(state)) {
                    next_token(old(self).assoc_hide_token)
                } else {
                    old(self).assoc_hide_token
                },
                ..*old(self)
            }),
            old(self).settings.assoc_backspace_cancels_only <==> r@ == ActionModel::ClearComposition,
            !offers_assoc(*final(state)),
    {
        let cancels_only = self.settings.assoc_backspace_cancels_only;
        self.assoc_dismiss_with(state, cancels_only, out)
    }

    /// Whether a commit may lead to associations: always, unless an association was
    /// chosen and only one round is offered.
    pub fn assoc_may_chain(&self, from_assoc: bool) -> (r: bool)
        ensures
            r == (!from_assoc || self.settings.assoc_continuous),
            !from_assoc ==> r,
            from_assoc ==> r == self.settings.assoc_continuous,
    {
        !from_assoc || self.settings.assoc_continuous
    }
}

/// Closed associations stay closed: nothing is offered afterwards.
pub proof fn closing_ends_the_offer(a: State, b: State)
    requires
        assoc_closed(a, b),
    ensures
        !offers_assoc(b),
{
}

/// An orphan is closed by the first reply that touches the composition or hands the
/// key back: what goes out then ends or replaces the composition, and every later reply
/// goes out as it is.
pub proof fn an_orphan_is_closed_once(a: ActionModel, b: ActionModel)
    requires
        fate_of(a) != Fate::Untouched,
    ensures
        fate_of(adopted(true, a).0) == Fate::Absorbs,
        adopted(adopted(true, a).1, b) == (b, false),
{
}

/// A timer armed before the associations were closed does nothing to a later round:
/// its token has passed.
pub proof fn closing_retires_the_timer(token: u64)
    ensures
        next_token(token) != token,
{
}

/// A suggestion is shown whole, and commits what it says only where that differs from what is
/// shown.
pub proof fn suggestions_show_their_text(h: AssocHit)
    ensures
        assoc_candidate(h).text == h.text@,
        assoc_candidate(h).source == CandidateSource::Assoc,
        h.commit is None ==> assoc_candidate(h).commit_override is None,
        h.commit matches Some(t) ==> (if t@ == h.text@ {
            assoc_candidate(h).commit_override is None
        } else {
            assoc_candidate(h).commit_override == Some(t@)
        }),
        !assoc_candidate(h).is_command && !assoc_candidate(h).is_group,
        assoc_candidate(h).code.len() == 0,
{
}

/// A word that does not continue the context is committed whole.
pub proof fn other_words_are_committed_whole(word: Seq<char>, context: Seq<char>)
    ensures
        !context.is_prefix_of(word) ==> rest_of(word, context) == word,
        context.len() == 0 ==> rest_of(word, context) == word,
        context.is_prefix_of(word) ==> rest_of(word, context).len() + context.len() == word.len(),
{
    if context.len() == 0 {
        assert(word.skip(0) =~= word);
    }
}

/// Associations are on offer where the list leads with one.
pub proof fn the_first_candidate_tells_associations(state: State)
    ensures
        state.candidates@.len() == 0 ==> !offers_assoc(state),
        state.candidates@.len() > 0 ==> (offers_assoc(state) <==> state.candidates@[0].source
            == CandidateSource::Assoc),
{
}

/// Tokens go up by one, and start again behind the last.
pub proof fn tokens_count_up(token: u64)
    ensures
        token < u64::MAX ==> next_token(token) == token + 1,
        next_token(u64::MAX) == 0,
{
}

/// A key that goes back to the application leaves an orphan; what leaves the composition alone
/// leaves it where it is; a reply that inserts, replaces, composes or clears takes it along.
pub proof fn replies_take_an_orphan_along(a: ActionModel)
    ensures
        fate_of(ActionModel::PassThrough) == Fate::LeavesOrphan,
        fate_of(ActionModel::NotHandled) == Fate::LeavesOrphan,
        fate_of(ActionModel::Consumed) == Fate::Untouched,
        fate_of(ActionModel::StatusUpdate) == Fate::Untouched,
        fate_of(ActionModel::DeletePair) == Fate::Untouched,
        a is MoveCursorRight ==> fate_of(a) == Fate::Untouched,
        a is InsertText || a is InsertTextWithCursor || a is ReplaceBackward || a is UpdateComposition
            || a is ClearComposition || a is ClearCompositionThenPassThrough
            || a is CommitAndHoldComposition || a is CommitThenDeferComposition ==> fate_of(a)
            == Fate::Absorbs,
        fate_of(a) == Fate::LeavesOrphan ==> a == ActionModel::PassThrough || a
            == ActionModel::NotHandled,
{
}

/// Without an orphan every reply goes out as it is. With one a reply that hands the key back
/// ends the composition first; a reply that leaves the composition alone leaves the orphan.
pub proof fn orphans_are_closed_by_the_reply(a: ActionModel)
    ensures
        adopted(false, a) == (a, false),
        fate_of(a) == Fate::LeavesOrphan ==> adopted(true, a) == (
            ActionModel::ClearCompositionThenPassThrough,
            false,
        ),
        fate_of(a) == Fate::Untouched ==> adopted(true, a) == (a, true),
        fate_of(a) == Fate::Absorbs ==> adopted(true, a) == (a, false),
{
}

/// Closing the associations empties the list and the code line and leaves what was typed and
/// chosen alone.
pub proof fn closing_leaves_the_input_alone(a: State, b: State)
    requires
        assoc_closed(a, b),
    ensures
        b.candidates@.len() == 0,
        b.preedit@.len() == 0,
        b.current_page == 0 && b.selected_index == 0,
        b.input_buffer == a.input_buffer,
        b.committed_text == a.committed_text,
        b.active == a.active,
{
}

/// The placeholder composition is a single space, so that it is there and shows nothing.
pub proof fn the_placeholder_is_one_space()
    ensures
        assoc_composition().len() == 1,
        assoc_composition()[0] == ' ',
{
}

} // verus!

//! Auxiliary codes: narrowing the candidates of a pinyin input by the shape of their
//! characters, without touching the input.

use crate::action::{ActionModel, Effect, EffectModel, KeyAction, Outbox};
use crate::candidate::{clone_candidates, models, Candidate, CandidateModel};
use crate::choosing::{on_main_path, ChoiceModel, SelectModel};
use crate::coordinator::{reset_candidate_view, Coordinator};
use crate::keys::{
    KeyEventData, VK_1, VK_9, VK_A, VK_BACK, VK_ESCAPE, VK_RETURN, VK_SPACE, VK_Z,
};
use crate::state::{AuxCodeOverlay, ModeKind, State};
use crate::text::{char_count, chars_of, joined, string_of, utf16_len, utf16_total};
use crate::view::pages_start_inside_the_count;
use vstd::prelude::*;
use vstd::string::*;

verus! {

/// How a session is entered.
#[derive(Clone, Copy, PartialEq, Eq, Structural, Debug)]
pub enum AuxCodeTrigger {
    /// By a key of its own.
    Direct,
    /// By a key that also turns the page, which has been turned already.
    FromPage,
}

/// What a key is bound to while candidates are shown.
#[derive(Clone, Copy, PartialEq, Eq, Structural, Debug)]
pub enum SessionAction {
    PagePrev,
    PageNext,
    /// Turns the page, and enters a session.
    PageNextAuxCode,
    HighlightUp,
    HighlightDown,
    Cancel,
    AuxCode,
    /// Anything else.
    Other,
}

/// What becomes of a key with control or alt that arrives in a session.
#[derive(Clone, Copy, PartialEq, Eq, Structural, Debug)]
pub struct Guarded {
    /// The session is left.
    pub leaves: bool,
    /// The composition is cleared; else the key goes to the application.
    pub clears: bool,
}

/// What is known of a key that arrives in a session.
#[derive(Clone, Copy, Debug)]
pub struct AuxKeyFacts {
    /// The key is caught before it can spell a code. What becomes of it depends on
    /// [`aux_has_input`].
    pub guard: Option<Guarded>,
    /// What the key is bound to.
    pub bound: Option<SessionAction>,
    /// What the key is bound to when printable keys may navigate.
    pub nav: Option<SessionAction>,
    /// The row the key selects, counted from 0.
    pub select_offset: Option<usize>,
}

/// What a key comes to in a session.
#[derive(Debug)]
pub enum AuxStep {
    /// The key is answered.
    Reply(KeyAction),
    /// The previous page is shown; `was_first` says that the first one was.
    PagePrev { was_first: bool },
    /// The next page is shown.
    PageNext,
    /// The highlight moves. Where it does not, the key is asked about again as one that
    /// navigates nothing.
    Highlight,
    /// The whole composition is dropped.
    Cancel,
    /// The code changed: the candidates are matched against it.
    Filter,
    /// The session is over, and the composition is shown as it was.
    Exited,
    /// A candidate is committed.
    Commit { index: usize, offset: i32 },
}

/// What an [`AuxStep`] says.
pub ghost enum AuxModel {
    Reply(ActionModel),
    PagePrev { was_first: bool },
    PageNext,
    Highlight,
    Cancel,
    Filter,
    Exited,
    Commit { index: usize, offset: i32 },
}

impl View for AuxStep {
    type V = AuxModel;

    open spec fn view(&self) -> AuxModel {
        match *self {
            AuxStep::Reply(a) => AuxModel::Reply(a@),
            AuxStep::PagePrev { was_first } => AuxModel::PagePrev { was_first },
            AuxStep::PageNext => AuxModel::PageNext,
            AuxStep::Highlight => AuxModel::Highlight,
            AuxStep::Cancel => AuxModel::Cancel,
            AuxStep::Filter => AuxModel::Filter,
            AuxStep::Exited => AuxModel::Exited,
            AuxStep::Commit { index, offset } => AuxModel::Commit { index, offset },
        }
    }
}

/// What a session holds.
pub ghost struct SessionModel {
    /// Candidates at its start.
    pub snapshot: Seq<CandidateModel>,
    /// The code typed.
    pub buffer: Seq<char>,
    /// Composition at its start.
    pub base: Seq<char>,
    /// What the composition shows before the code.
    pub prefix: Seq<char>,
}

impl View for AuxCodeOverlay {
    type V = SessionModel;

    open spec fn view(&self) -> SessionModel {
        SessionModel {
            snapshot: models(self.snapshot@),
            buffer: self.buffer@,
            base: self.preedit_base@,
            prefix: self.preedit_prefix@,
        }
    }
}

/// A session that starts with a list and a composition.
pub open spec fn fresh_session(list: Seq<CandidateModel>, preedit: Seq<char>) -> SessionModel {
    SessionModel {
        snapshot: list,
        buffer: Seq::empty(),
        base: preedit,
        prefix: preedit + "    "@,
    }
}

impl State {
    /// What the session holds.
    pub open spec fn aux(self) -> Option<SessionModel> {
        match self.aux_code {
            Some(o) => Some(o@),
            None => None,
        }
    }
}

/// The members of a list that are flagged, in their order.
pub open spec fn kept(s: Seq<CandidateModel>, keep: Seq<bool>) -> Seq<CandidateModel>
    decreases s.len(),
{
    if s.len() == 0 {
        Seq::empty()
    } else if keep[s.len() - 1] {
        kept(s.drop_last(), keep).push(s.last())
    } else {
        kept(s.drop_last(), keep)
    }
}

/// The candidates a session shows: those that match its code, and all of them while
/// there is none.
pub open spec fn narrowed(m: SessionModel, keep: Seq<bool>) -> Seq<CandidateModel> {
    if m.buffer.len() == 0 {
        m.snapshot
    } else {
        kept(m.snapshot, keep)
    }
}

/// A list with everything flagged stays whole.
pub proof fn keeping_all_keeps_the_list(s: Seq<CandidateModel>, keep: Seq<bool>)
    requires
        keep.len() >= s.len(),
        forall|i: int| 0 <= i < s.len() ==> keep[i],
    ensures
        kept(s, keep) == s,
    decreases s.len(),
{
    if s.len() > 0 {
        keeping_all_keeps_the_list(s.drop_last(), keep);
        assert(s.drop_last().push(s.last()) =~= s);
    } else {
        assert(kept(s, keep) =~= s);
    }
}

/// Where each member that is kept stood: the places rise, and each is flagged.
pub open spec fn kept_places(n: int, keep: Seq<bool>) -> Seq<int>
    decreases n,
{
    if n <= 0 {
        Seq::empty()
    } else if keep[n - 1] {
        kept_places(n - 1, keep).push(n - 1)
    } else {
        kept_places(n - 1, keep)
    }
}

/// Narrowing only leaves out: what stays is in its old order, and everything that
/// matches stays.
pub proof fn narrowing_keeps_order(s: Seq<CandidateModel>, keep: Seq<bool>)
    requires
        keep.len() >= s.len(),
    ensures
        ({
            let p = kept_places(s.len() as int, keep);
            let k = kept(s, keep);
            &&& p.len() == k.len()
            &&& forall|i: int| 0 <= i < p.len() ==> 0 <= #[trigger] p[i] < s.len() && keep[p[i]]
                && k[i] == s[p[i]]
            &&& forall|i: int, j: int| 0 <= i < j < p.len() ==> p[i] < p[j]
            &&& forall|x: int| 0 <= x < s.len() && keep[x] ==> p.contains(x)
        }),
    decreases s.len(),
{
    if s.len() > 0 {
        let t = s.drop_last();
        narrowing_keeps_order(t, keep);
        let q = kept_places(t.len() as int, keep);
        let p = kept_places(s.len() as int, keep);
        assert forall|x: int| 0 <= x < s.len() && keep[x] implies p.contains(x) by {
            if x < t.len() {
                assert(q.contains(x));
                let i = q.index_of(x);
                assert(p[i] == x);
            } else {
                assert(p[p.len() - 1] == x);
            }
        }
    }
}

fn keep_flagged(snapshot: &Vec<Candidate>, keep: &Vec<bool>) -> (r: Vec<Candidate>)
    requires
        keep@.len() >= snapshot@.len(),
    ensures
        models(r@) == kept(models(snapshot@), keep@),
{
    let ghost m = models(snapshot@);
    let mut r: Vec<Candidate> = Vec::new();
    let mut i: usize = 0;
    assert(models(r@) =~= kept(m.take(0), keep@));
    while i < snapshot.len()
        invariant
            i <= snapshot@.len(),
            keep@.len() >= snapshot@.len(),
            m == models(snapshot@),
            models(r@) == kept(m.take(i as int), keep@),
        decreases snapshot.len() - i,
    {
        proof {
            assert(m.take(i as int + 1).drop_last() =~= m.take(i as int));
            assert(m.take(i as int + 1).last() == snapshot@[i as int]@);
        }
        if keep[i] {
            let ghost prev = models(r@);
            let c = snapshot[i].clone();
            r.push(c);
            assert(models(r@) =~= prev.push(c@));
        }
        i = i + 1;
    }
    assert(m.take(m.len() as int) =~= m);
    r
}

/// The composition as it is sent: its text, with the cursor at the end.
pub open spec fn composed_at_end(state: State) -> ActionModel {
    ActionModel::UpdateComposition {
        text: state.preedit@,
        caret_pos: utf16_len(state.preedit@) as u32,
    }
}

fn compose_at_end(state: &State) -> (r: KeyAction)
    ensures
        r@ == composed_at_end(*state),
{
    let n: u128 = utf16_total(state.preedit.as_str());
    KeyAction::UpdateComposition { text: state.preedit.clone(), caret_pos: n as u32 }
}

fn start_session(state: &mut State)
    ensures
        final(state).aux() == Some(
            fresh_session(models(old(state).candidates@), old(state).preedit@),
        ),
        models(final(state).candidates@) == models(old(state).candidates@),
        final(state).preedit@ == old(state).preedit@ + "    "@,
        *final(state) == (State {
            aux_code: final(state).aux_code,
            candidates: final(state).candidates,
            preedit: final(state).preedit,
            current_page: 0,
            selected_index: 0,
            hover_index: None,
            ..*old(state)
        }),
{
    let snapshot = clone_candidates(&state.candidates);
    let base = state.preedit.clone();
    let prefix = joined(base.as_str(), "    ");
    state.preedit = prefix.clone();
    let o = AuxCodeOverlay {
        snapshot,
        buffer: String::new(),
        preedit_base: base,
        preedit_prefix: prefix,
    };
    assert(o@ == fresh_session(models(old(state).candidates@), old(state).preedit@));
    state.aux_code = Some(o);
    reset_candidate_view(state);
}

/// Shows what matches the code of the session. `keep` says of each candidate the
/// session started with whether it does.
pub fn refresh_aux_code_candidates(state: &mut State, keep: &Vec<bool>)
    requires
        old(state).aux() matches Some(m) ==> keep@.len() >= m.snapshot.len(),
    ensures
        match old(state).aux() {
            None => *final(state) == *old(state),
            Some(m) => {
                &&& models(final(state).candidates@) == narrowed(m, keep@)
                &&& final(state).preedit@ == m.prefix + m.buffer
                &&& *final(state) == (State {
                    candidates: final(state).candidates,
                    preedit: final(state).preedit,
                    current_page: 0,
                    selected_index: 0,
                    hover_index: None,
                    ..*old(state)
                })
            },
        },
        old(state).aux() matches Some(m) ==> final(state).preedit@.len() == m.prefix.len() + m.buffer.len()
            && final(state).current_page == 0 && (m.buffer.len() == 0 ==> models(final(state).candidates@)
            == m.snapshot),
{
    let (list, preedit) = match &state.aux_code {
        None => {
            return;
        },
        Some(o) => {
            let list = if o.buffer.as_str().is_empty() {
                clone_candidates(&o.snapshot)
            } else {
                keep_flagged(&o.snapshot, keep)
            };
            (list, joined(o.preedit_prefix.as_str(), o.buffer.as_str()))
        },
    };
    state.candidates = list;
    state.preedit = preedit;
    reset_candidate_view(state);
}

/// Whether `after` is `before` with its session ended: the candidates and the
/// composition are what they were at its start.
pub open spec fn session_left(before: State, after: State) -> bool {
    match before.aux() {
        None => after == before,
        Some(m) => {
            &&& models(after.candidates@) == m.snapshot
            &&& after.preedit@ == m.base
            &&& after == (State {
                active: None,
                aux_code: None,
                candidates: after.candidates,
                preedit: after.preedit,
                ..before
            })
        },
    }
}

/// Ends the session.
pub fn exit_aux_code(state: &mut State)
    ensures
        session_left(*old(state), *final(state)),
{
    let mut taken: Option<AuxCodeOverlay> = None;
    std::mem::swap(&mut taken, &mut state.aux_code);
    match taken {
        None => {},
        Some(o) => {
            state.active = None;
            state.candidates = o.snapshot;
            state.preedit = o.preedit_base;
        },
    }
}

/// Ends the session after a commit, which has set the candidates and the composition.
pub fn finish_aux_code_after_commit(state: &mut State)
    ensures
        *final(state) == (State { active: None, aux_code: None, ..*old(state) }),
{
    state.active = None;
    state.aux_code = None;
}

/// Starts the session afresh on what is left of the input after a part was chosen.
pub fn rearm_aux_code_session(state: &mut State)
    requires
        old(state).aux_code is Some,
    ensures
        final(state).aux() == Some(
            fresh_session(models(old(state).candidates@), old(state).preedit@),
        ),
        models(final(state).candidates@) == models(old(state).candidates@),
        final(state).preedit@ == old(state).preedit@ + "    "@,
        *final(state) == (State {
            aux_code: final(state).aux_code,
            candidates: final(state).candidates,
            preedit: final(state).preedit,
            current_page: 0,
            selected_index: 0,
            hover_index: None,
            ..*old(state)
        }),
{
    start_session(state);
}

/// Whether a key does nothing but enter a session. Letters never do: they spell codes.
pub fn is_dedicated_aux_trigger(key_code: u32, bound: Option<SessionAction>) -> (r: bool)
    ensures
        r == (!(VK_A <= key_code <= VK_Z) && bound == Some(SessionAction::AuxCode)),
        VK_A <= key_code <= VK_Z ==> !r,
        r ==> bound == Some(SessionAction::AuxCode),
        bound == Some(SessionAction::AuxCode) && (key_code < VK_A || key_code > VK_Z) ==> r,
{
    if VK_A <= key_code && key_code <= VK_Z {
        return false;
    }
    match bound {
        Some(a) => a == SessionAction::AuxCode,
        None => false,
    }
}

/// Whether anything is typed or chosen while a session is on.
pub fn aux_has_input(state: &State) -> (r: bool)
    ensures
        r == ((state.aux() matches Some(m) && m.buffer.len() > 0) || state.input_buffer@.len() > 0
            || state.committed_text@.len() > 0),
        state.input_buffer@.len() > 0 || state.committed_text@.len() > 0 ==> r,
        state.aux() is None && state.input_buffer@.len() == 0 && state.committed_text@.len() == 0 ==> !r,
        state.aux() matches Some(m) ==> (m.buffer.len() > 0 ==> r),
{
    let coded = match &state.aux_code {
        Some(o) => !o.buffer.as_str().is_empty(),
        None => false,
    };
    coded || !state.input_buffer.as_str().is_empty() || !state.committed_text.as_str().is_empty()
}

/// Answers a code that changed: `keep` says which candidates match.
pub fn aux_code_updated(state: &mut State, keep: &Vec<bool>, out: &mut Outbox) -> (r: KeyAction)
    requires
        old(state).aux() matches Some(m) ==> keep@.len() >= m.snapshot.len(),
    ensures
        match old(state).aux() {
            None => *final(state) == *old(state),
            Some(m) => {
                &&& models(final(state).candidates@) == narrowed(m, keep@)
                &&& final(state).preedit@ == m.prefix + m.buffer
                &&& *final(state) == (State {
                    candidates: final(state).candidates,
                    preedit: final(state).preedit,
                    current_page: 0,
                    selected_index: 0,
                    hover_index: None,
                    ..*old(state)
                })
            },
        },
        r@ == composed_at_end(*final(state)),
        final(out)@ == old(out)@.push(EffectModel::UiUpdate),
{
    refresh_aux_code_candidates(state, keep);
    out.put(Effect::UiUpdate);
    compose_at_end(state)
}

/// Answers a page turned back: coming back to the first page without a code ends the
/// session.
pub fn aux_page_turned_back(state: &mut State, was_first: bool, moved: bool, out: &mut Outbox) -> (r:
    KeyAction)
    ensures
        ({
            let m = old(state).aux();
            let leaves = moved && !was_first && old(state).current_page == 0 && m is Some
                && m->0.buffer.len() == 0;
            &&& final(out)@ == (if moved {
                old(out)@.push(EffectModel::UiUpdate)
            } else {
                old(out)@
            })
            &&& !leaves ==> *final(state) == *old(state) && r@ == ActionModel::Consumed
            &&& leaves ==> {
                &&& session_left(*old(state), *final(state))
                &&& r@ == (ActionModel::UpdateComposition {
                    text: m->0.base,
                    caret_pos: m->0.base.len() as u32,
                })
            }
        }),
        r@ != ActionModel::Consumed ==> moved && !was_first && old(state).current_page == 0
            && final(state).aux() is None,
        moved && !was_first && old(state).current_page == 0 ==> (old(state).aux() matches Some(m)
            ==> (m.buffer.len() == 0 ==> r@ is UpdateComposition)),
{
    if !moved {
        return KeyAction::Consumed;
    }
    out.put(Effect::UiUpdate);
    let uncoded = match &state.aux_code {
        Some(o) => o.buffer.as_str().is_empty(),
        None => false,
    };
    if state.current_page == 0 && !was_first && uncoded {
        exit_aux_code(state);
        let n: usize = char_count(state.preedit.as_str());
        return KeyAction::UpdateComposition { text: state.preedit.clone(), caret_pos: n as u32 };
    }
    KeyAction::Consumed
}

/// Answers a page turned forward.
pub fn aux_page_turned_on(moved: bool, out: &mut Outbox) -> (r: KeyAction)
    ensures
        r@ == ActionModel::Consumed,
        final(out)@ == (if moved {
            old(out)@.push(EffectModel::UiUpdate)
        } else {
            old(out)@
        }),
        !moved ==> final(out)@ == old(out)@,
        moved ==> final(out)@.len() == old(out)@.len() + 1,
{
    if moved {
        out.put(Effect::UiUpdate);
    }
    KeyAction::Consumed
}

/// Answers a session that was left: the composition is shown as it was, with the
/// cursor at `caret`.
pub fn aux_code_exited(state: &State, caret: u32, out: &mut Outbox) -> (r: KeyAction)
    ensures
        r@ == (ActionModel::UpdateComposition { text: state.preedit@, caret_pos: caret }),
        final(out)@ == old(out)@.push(EffectModel::UiUpdate),
{
    out.put(Effect::UiUpdate);
    KeyAction::UpdateComposition { text: state.preedit.clone(), caret_pos: caret }
}

/// Answers a commit made in a session; `act` is what the commit came to. While part of
/// the input is left the session goes on with the candidates of the rest; else it is
/// over.
pub fn aux_code_committed(state: &mut State, act: KeyAction, out: &mut Outbox) -> (r: KeyAction)
    requires
        old(state).input_buffer@.len() > 0 ==> old(state).aux_code is Some,
    ensures
        old(state).input_buffer@.len() == 0 ==> {
            &&& r@ == act@
            &&& *final(state) == (State { active: None, aux_code: None, ..*old(state) })
            &&& final(out)@ == old(out)@
        },
        old(state).input_buffer@.len() > 0 ==> {
            &&& final(state).aux() == Some(
                fresh_session(models(old(state).candidates@), old(state).preedit@),
            )
            &&& models(final(state).candidates@) == models(old(state).candidates@)
            &&& final(state).preedit@ == old(state).preedit@ + "    "@
            &&& *final(state) == (State {
                aux_code: final(state).aux_code,
                candidates: final(state).candidates,
                preedit: final(state).preedit,
                current_page: 0,
                selected_index: 0,
                hover_index: None,
                ..*old(state)
            })
            &&& r@ == composed_at_end(*final(state))
            &&& final(out)@ == old(out)@.push(EffectModel::UiUpdate)
        },
        old(state).input_buffer@.len() == 0 ==> final(state).active is None && final(state).aux() is None,
        old(state).input_buffer@.len() > 0 ==> (final(state).aux() matches Some(m) && m.buffer.len() == 0)
            && final(state).active == old(state).active,
{
    if !state.input_buffer.as_str().is_empty() {
        rearm_aux_code_session(state);
        out.put(Effect::UiUpdate);
        return compose_at_end(state);
    }
    finish_aux_code_after_commit(state);
    act
}

/// Adds a character to the code.
fn push_code(state: &mut State, ch: char)
    ensures
        match old(state).aux() {
            None => *final(state) == *old(state),
            Some(m) => {
                &&& final(state).aux() == Some(SessionModel { buffer: m.buffer.push(ch), ..m })
                &&& *final(state) == (State { aux_code: final(state).aux_code, ..*old(state) })
            },
        },
{
    let mut taken: Option<AuxCodeOverlay> = None;
    std::mem::swap(&mut taken, &mut state.aux_code);
    match taken {
        None => {},
        Some(o) => {
            let mut buffer = o.buffer;
            buffer.push(ch);
            state.aux_code = Some(AuxCodeOverlay { buffer, ..o });
        },
    }
}

/// Takes the last character from the code; says whether there was one.
fn pop_code(state: &mut State) -> (popped: bool)
    ensures
        match old(state).aux() {
            None => *final(state) == *old(state) && !popped,
            Some(m) => {
                &&& popped == (m.buffer.len() > 0)
                &&& !popped ==> *final(state) == *old(state)
                &&& popped ==> final(state).aux() == Some(
                    SessionModel { buffer: m.buffer.drop_last(), ..m },
                )
                &&& *final(state) == (State { aux_code: final(state).aux_code, ..*old(state) })
            },
        },
{
    let shorter = match &state.aux_code {
        None => {
            return false;
        },
        Some(o) => {
            let mut v = chars_of(o.buffer.as_str());
            if v.len() == 0 {
                return false;
            }
            let ghost all = v@;
            v.truncate(v.len() - 1);
            assert(v@ =~= all.drop_last());
            string_of(&v)
        },
    };
    let mut taken: Option<AuxCodeOverlay> = None;
    std::mem::swap(&mut taken, &mut state.aux_code);
    match taken {
        None => false,
        Some(o) => {
            state.aux_code = Some(AuxCodeOverlay { buffer: shorter, ..o });
            true
        },
    }
}

/// Whether a key is answered by the page shown: it is neither caught, nor bound to
/// navigate, nor one that changes the code or leaves the session.
pub open spec fn reads_page(data: KeyEventData, f: AuxKeyFacts) -> bool {
    let k = data.key_code;
    let letter = VK_A <= k <= VK_Z;
    &&& f.guard is None
    &&& letter || f.bound != Some(SessionAction::AuxCode)
    &&& f.nav is None || f.nav == Some(SessionAction::AuxCode) || f.nav == Some(
        SessionAction::Other,
    )
    &&& k != VK_ESCAPE && k != VK_BACK
    &&& !(letter && !data.mods.ctrl && !data.mods.alt)
}

/// Whether a key is answered by the page shown.
pub fn aux_key_reads_page(data: &KeyEventData, facts: &AuxKeyFacts) -> (r: bool)
    ensures
        r == reads_page(*data, *facts),
{
    let k = data.key_code;
    let letter = VK_A <= k && k <= VK_Z;
    let trigger = match facts.bound {
        Some(b) => b == SessionAction::AuxCode,
        None => false,
    };
    let still = match facts.nav {
        Some(n) => n == SessionAction::AuxCode || n == SessionAction::Other,
        None => true,
    };
    facts.guard.is_none() && (letter || !trigger) && still && k != VK_ESCAPE && k != VK_BACK && !(
    letter && !data.mods.ctrl && !data.mods.alt)
}

impl Coordinator {
    /// Enters a session: only from ordinary input, with the feature on, a code table
    /// to match against and candidates to match. The list stays as it is. `None` leaves
    /// the key to others.
    pub fn enter_aux_code(
        &self,
        state: &mut State,
        trigger: AuxCodeTrigger,
        enabled: bool,
        has_files: bool,
        out: &mut Outbox,
    ) -> (r: Option<KeyAction>)
        ensures
            ({
                let enters = old(state).active is None && enabled && has_files && old(
                    state,
                ).candidates@.len() > 0;
                &&& r is Some == enters
                &&& r is Some ==> old(state).active is None && enabled && has_files
                &&& r is None ==> old(state).active is Some || !enabled || !has_files || old(
                    state,
                ).candidates@.len() == 0
                &&& r is Some && trigger == AuxCodeTrigger::Direct ==> final(state).current_page == 0
                &&& r is Some && trigger == AuxCodeTrigger::FromPage ==> final(state).current_page
                    == old(state).current_page
                &&& r is Some ==> final(state).selected_index == 0
                &&& !enters ==> *final(state) == *old(state) && final(out)@ == old(out)@
                &&& enters ==> {
                    &&& final(state).aux() == Some(
                        fresh_session(models(old(state).candidates@), old(state).preedit@),
                    )
                    &&& models(final(state).candidates@) == models(old(state).candidates@)
                    &&& final(state).preedit@ == old(state).preedit@ + "    "@
                    &&& *final(state) == (State {
                        active: Some(ModeKind::AuxCode),
                        aux_code: final(state).aux_code,
                        candidates: final(state).candidates,
                        preedit: final(state).preedit,
                        current_page: if trigger == AuxCodeTrigger::FromPage {
                            old(state).current_page
                        } else {
                            0
                        },
                        selected_index: 0,
                        hover_index: None,
                        ..*old(state)
                    })
                    &&& r->0@ == composed_at_end(*final(state))
                    &&& final(out)@ == old(out)@.push(EffectModel::UiUpdate)
                }
            }),
    {
        let free = match state.active {
            None => true,
            Some(_) => false,
        };
        if !free || !enabled || !has_files || state.candidates.len() == 0 {
            return None;
        }
        let page: usize = state.current_page;
        state.active = Some(ModeKind::AuxCode);
        start_session(state);
        let act = compose_at_end(state);
        if trigger == AuxCodeTrigger::FromPage {
            state.current_page = page;
        }
        out.put(Effect::UiUpdate);
        Some(act)
    }

    /// The highlighted candidate and its row, as a commit; the session is left when
    /// there is none.
    pub open spec fn commit_highlight(self, state: State) -> AuxModel {
        let len = state.candidates@.len();
        let hi = self.highlight(state);
        let idx = if hi < len {
            hi
        } else {
            len - 1
        };
        if len == 0 {
            AuxModel::Exited
        } else {
            AuxModel::Commit {
                index: idx as usize,
                offset: (idx - self.page_start(state)) as i32,
            }
        }
    }

    /// Whether the page shown starts inside the list.
    pub open spec fn page_inside(self, state: State) -> bool {
        state.candidates@.len() == 0 || self.page_start(state) < state.candidates@.len()
    }

    fn highlighted_candidate(&self, state: &State) -> (r: Option<(usize, i32)>)
        requires
            self.paging_fits(*state),
            self.page_inside(*state),
        ensures
            (match r {
                Some(p) => AuxModel::Commit { index: p.0, offset: p.1 },
                None => AuxModel::Exited,
            }) == self.commit_highlight(*state),
    {
        if state.candidates.len() == 0 {
            return None;
        }
        let (start, _) = self.page_range(state);
        let hi: usize = start + state.selected_index;
        let idx: usize = if hi < state.candidates.len() {
            hi
        } else {
            state.candidates.len() - 1
        };
        Some((idx, (idx - start) as i32))
    }

    /// What a key comes to in a session: a key that is caught is answered at once; its
    /// own trigger key is swallowed; then come the navigation keys; escape leaves;
    /// backspace shortens the code, and leaves when there is none; space and return commit
    /// the highlight; a digit or a selection key commits its row; letters spell the code;
    /// any other key commits the highlight.
    pub open spec fn aux_step(self, state: State, data: KeyEventData, f: AuxKeyFacts) -> AuxModel {
        let k = data.key_code;
        let letter = VK_A <= k <= VK_Z;
        let row = if VK_1 <= k <= VK_9 && !data.mods.shift {
            Some((k - VK_1) as int)
        } else if f.select_offset is Some && !data.mods.shift {
            Some(f.select_offset->0 as int)
        } else {
            None
        };
        let on_page = row is Some && self.page_start(state) + row->0 < self.page_end(state);
        let chosen = AuxModel::Commit {
            index: (self.page_start(state) + row->0) as usize,
            offset: row->0 as i32,
        };
        if f.guard is Some {
            AuxModel::Reply(
                if f.guard->0.clears {
                    ActionModel::ClearComposition
                } else {
                    ActionModel::PassThrough
                },
            )
        } else if !letter && f.bound == Some(SessionAction::AuxCode) {
            AuxModel::Reply(ActionModel::Consumed)
        } else if f.nav == Some(SessionAction::PagePrev) {
            AuxModel::PagePrev { was_first: state.current_page == 0 }
        } else if f.nav == Some(SessionAction::PageNext) || f.nav == Some(
            SessionAction::PageNextAuxCode,
        ) {
            AuxModel::PageNext
        } else if f.nav == Some(SessionAction::HighlightUp) || f.nav == Some(
            SessionAction::HighlightDown,
        ) {
            AuxModel::Highlight
        } else if f.nav == Some(SessionAction::Cancel) {
            AuxModel::Cancel
        } else if k == VK_ESCAPE {
            AuxModel::Exited
        } else if k == VK_BACK {
            if state.aux() matches Some(m) && m.buffer.len() > 0 {
                AuxModel::Filter
            } else {
                AuxModel::Exited
            }
        } else if k == VK_SPACE || k == VK_RETURN {
            self.commit_highlight(state)
        } else if VK_1 <= k <= VK_9 && !data.mods.shift {
            if on_page {
                chosen
            } else {
                AuxModel::Reply(ActionModel::Consumed)
            }
        } else if letter && !data.mods.ctrl && !data.mods.alt {
            AuxModel::Filter
        } else if on_page {
            chosen
        } else {
            self.commit_highlight(state)
        }
    }

    /// Whether a key commits the highlight, if there is one: it names no row of the page.
    pub open spec fn takes_highlight(
        self,
        state: State,
        data: KeyEventData,
        f: AuxKeyFacts,
    ) -> bool {
        let k = data.key_code;
        &&& reads_page(data, f)
        &&& k == VK_SPACE || k == VK_RETURN || !(VK_1 <= k <= VK_9 && !data.mods.shift || (
        f.select_offset is Some && !data.mods.shift && self.page_start(state) + f.select_offset->0
            < self.page_end(state)))
    }

    /// Whether a key commits the highlight, if there is one.
    pub fn aux_key_takes_highlight(
        &self,
        state: &State,
        data: &KeyEventData,
        facts: &AuxKeyFacts,
    ) -> (r: bool)
        requires
            reads_page(*data, *facts) ==> self.page_fits(*state),
        ensures
            r == self.takes_highlight(*state, *data, *facts),
    {
        if !aux_key_reads_page(data, facts) {
            return false;
        }
        let k = data.key_code;
        if k == VK_SPACE || k == VK_RETURN {
            return true;
        }
        if data.mods.shift {
            return true;
        }
        if VK_1 <= k && k <= VK_9 {
            return false;
        }
        match facts.select_offset {
            Some(row) => {
                let (start, end) = self.page_range(state);
                !(start < end && row < end - start)
            },
            None => true,
        }
    }

    fn decide_aux_key(&self, state: &State, data: &KeyEventData, facts: &AuxKeyFacts) -> (r: AuxStep)
        requires
            reads_page(*data, *facts) ==> self.paging_fits(*state),
            self.takes_highlight(*state, *data, *facts) ==> self.page_inside(*state),
        ensures
            r@ == self.aux_step(*state, *data, *facts),
    {
        match facts.guard {
            Some(g) => {
                return AuxStep::Reply(
                    if g.clears {
                        KeyAction::ClearComposition
                    } else {
                        KeyAction::PassThrough
                    },
                );
            },
            None => {},
        }
        if is_dedicated_aux_trigger(data.key_code, facts.bound) {
            return AuxStep::Reply(KeyAction::Consumed);
        }
        match facts.nav {
            Some(SessionAction::PagePrev) => {
                return AuxStep::PagePrev { was_first: state.current_page == 0 };
            },
            Some(SessionAction::PageNext) | Some(SessionAction::PageNextAuxCode) => {
                return AuxStep::PageNext;
            },
            Some(SessionAction::HighlightUp) | Some(SessionAction::HighlightDown) => {
                return AuxStep::Highlight;
            },
            Some(SessionAction::Cancel) => {
                return AuxStep::Cancel;
            },
            _ => {},
        }
        let k = data.key_code;
        if k == VK_ESCAPE {
            return AuxStep::Exited;
        }
        if k == VK_BACK {
            return match &state.aux_code {
                Some(o) => if o.buffer.as_str().is_empty() {
                    AuxStep::Exited
                } else {
                    AuxStep::Filter
                },
                None => AuxStep::Exited,
            };
        }
        if VK_A <= k && k <= VK_Z && !data.mods.ctrl && !data.mods.alt {
            return AuxStep::Filter;
        }
        if k != VK_SPACE && k != VK_RETURN {
            let (start, end) = self.page_range(state);
            if VK_1 <= k && k <= VK_9 && !data.mods.shift {
                let row: usize = (k - VK_1) as usize;
                if start < end && row < end - start {
                    return AuxStep::Commit { index: start + row, offset: row as i32 };
                }
                return AuxStep::Reply(KeyAction::Consumed);
            }
            if !data.mods.shift {
                match facts.select_offset {
                    Some(row) => {
                        if start < end && row < end - start {
                            return AuxStep::Commit { index: start + row, offset: row as i32 };
                        }
                    },
                    None => {},
                }
            }
        }
        match self.highlighted_candidate(state) {
            Some((index, offset)) => AuxStep::Commit { index, offset },
            None => AuxStep::Exited,
        }
    }

    /// What a key comes to in a session.
    pub fn handle_aux_code_key(
        &self,
        state: &mut State,
        data: &KeyEventData,
        facts: &AuxKeyFacts,
    ) -> (r: AuxStep)
        requires
            reads_page(*data, *facts) ==> self.paging_fits(*old(state)),
            self.takes_highlight(*old(state), *data, *facts) ==> self.page_inside(*old(state)),
        ensures
            r@ == self.aux_step(*old(state), *data, *facts),
            match r@ {
                AuxModel::Exited => session_left(*old(state), *final(state)),
                AuxModel::Reply(_) => if facts.guard matches Some(g) && g.leaves {
                    session_left(*old(state), *final(state))
                } else {
                    *final(state) == *old(state)
                },
                AuxModel::Filter => match old(state).aux() {
                    None => *final(state) == *old(state),
                    Some(m) => {
                        &&& final(state).aux() == Some(
                            SessionModel {
                                buffer: if data.key_code == VK_BACK {
                                    m.buffer.drop_last()
                                } else {
                                    m.buffer.push(code_letter(data.key_code))
                                },
                                ..m
                            },
                        )
                        &&& *final(state) == (State {
                            aux_code: final(state).aux_code,
                            ..*old(state)
                        })
                    },
                },
                _ => *final(state) == *old(state),
            },
    {
        let step = self.decide_aux_key(state, data, facts);
        match step {
            AuxStep::Exited => {
                exit_aux_code(state);
            },
            AuxStep::Reply(_) => {
                match facts.guard {
                    Some(g) => {
                        if g.leaves {
                            exit_aux_code(state);
                        }
                    },
                    None => {},
                }
            },
            AuxStep::Filter => {
                if data.key_code == VK_BACK {
                    let _popped = pop_code(state);
                } else {
                    push_code(state, letter_of(data.key_code));
                }
            },
            _ => {},
        }
        step
    }
}

/// The letter a key spells.
pub open spec fn code_letter(k: u32) -> char {
    (0x61 + (k - VK_A)) as char
}

fn letter_of(k: u32) -> (r: char)
    requires
        VK_A <= k <= VK_Z,
    ensures
        r == code_letter(k),
{
    let b: u8 = (k - VK_A) as u8;
    (0x61 + b) as char
}

/// Leaving a session puts the composition and the list back, whatever code was typed:
/// `a` is the composition before, `b` the one a session was entered with, `c` the same
/// session with some code, and `d` what leaving it makes of `c`.
pub proof fn leaving_restores_what_was_there(a: State, b: State, c: State, d: State, code: Seq<char>)
    requires
        b.aux() == Some(fresh_session(models(a.candidates@), a.preedit@)),
        c.aux() == Some(SessionModel { buffer: code, ..b.aux()->0 }),
        session_left(c, d),
    ensures
        models(d.candidates@) == models(a.candidates@),
        d.preedit@ == a.preedit@,
{
}

/// Taking back every letter shows the whole list again: a session without a code
/// narrows nothing, whatever its table says.
pub proof fn an_empty_code_narrows_nothing(m: SessionModel, keep: Seq<bool>)
    requires
        m.buffer.len() == 0,
    ensures
        narrowed(m, keep) == m.snapshot,
{
}

/// A letter typed and taken back leaves the session as it was, and so what it shows:
/// `b` is the session of `a` with a letter more, and `c` that of `b` with one less.
pub proof fn backspace_undoes_a_letter(
    a: SessionModel,
    b: SessionModel,
    c: SessionModel,
    key: u32,
    keep: Seq<bool>,
)
    requires
        b == (SessionModel { buffer: a.buffer.push(code_letter(key)), ..a }),
        c == (SessionModel { buffer: b.buffer.drop_last(), ..b }),
    ensures
        c == a,
        narrowed(c, keep) == narrowed(a, keep),
{
    assert(c.buffer =~= a.buffer);
}

/// Letters spell codes in every session, whatever else they are bound to enter.
pub proof fn letters_are_never_swallowed(
    c: Coordinator,
    state: State,
    data: KeyEventData,
    f: AuxKeyFacts,
)
    requires
        VK_A <= data.key_code <= VK_Z,
        f.guard is None,
        f.nav is None,
        !data.mods.ctrl,
        !data.mods.alt,
    ensures
        c.aux_step(state, data, f) == AuxModel::Filter,
{
}

/// Whether a key reaches the code and the page of a session: it is neither caught nor bound
/// to navigate or to enter a session.
pub open spec fn unbound(f: AuxKeyFacts) -> bool {
    f.guard is None && f.bound != Some(SessionAction::AuxCode) && f.nav is None
}

/// A digit chooses its row of the page, from 1 on: in a session it is the candidate, and the
/// place, that the same digit and the mouse on that row stand for in ordinary input.
pub proof fn digits_choose_their_row_in_a_session(
    c: Coordinator,
    state: State,
    data: KeyEventData,
    f: AuxKeyFacts,
    row: int,
    numpad_raw: bool,
    command_text: Option<Seq<char>>,
)
    requires
        0 <= row < 9,
        data.key_code == '1' as u32 + row,
        !data.mods.shift,
        unbound(f),
        c.page_start(state) + row < c.page_end(state),
        c.page_end(state) <= usize::MAX,
    ensures
        c.aux_step(state, data, f) == (AuxModel::Commit {
            index: (c.page_start(state) + row) as usize,
            offset: row as i32,
        }),
        c.digit_choice(state, row + 1, numpad_raw) == (ChoiceModel::Commit {
            index: (c.page_start(state) + row) as usize,
            position: row as i32,
            extra: Seq::empty(),
        }),
        on_main_path(state) && !state.candidates@[c.page_start(state) + row].is_command
            ==> c.select_step(state, c.page_start(state) + row, command_text) == (
        SelectModel::Commit {
            index: (c.page_start(state) + row) as usize,
            position: row as usize,
            aux: state.active == Some(ModeKind::AuxCode),
        }),
{
    pages_start_inside_the_count(c, state);
}

/// A digit for which the page has no row does nothing in a session.
pub proof fn digits_past_the_page_do_nothing_in_a_session(
    c: Coordinator,
    state: State,
    data: KeyEventData,
    f: AuxKeyFacts,
    row: int,
)
    requires
        0 <= row < 9,
        data.key_code == '1' as u32 + row,
        !data.mods.shift,
        unbound(f),
        c.page_start(state) + row >= c.page_end(state),
    ensures
        c.aux_step(state, data, f) == AuxModel::Reply(ActionModel::Consumed),
{
}

/// Whether a key has no meaning of its own in a session: it is no digit, no letter, and none
/// of escape, backspace, space and return.
pub open spec fn plain_key(k: u32) -> bool {
    &&& !('1' as u32 <= k <= '9' as u32)
    &&& !('A' as u32 <= k <= 'Z' as u32)
    &&& k != 0x1B && k != 0x08 && k != 0x20 && k != 0x0D
}

/// A selection key commits its row of the page, as a digit does. Without such a row, with
/// shift, and where it selects nothing, the key commits the highlight.
pub proof fn selection_keys_choose_their_row_in_a_session(
    c: Coordinator,
    state: State,
    data: KeyEventData,
    f: AuxKeyFacts,
)
    requires
        plain_key(data.key_code),
        unbound(f),
        c.page_end(state) <= usize::MAX,
    ensures
        f.select_offset matches Some(row) ==> (!data.mods.shift && c.page_start(state) + row
            < c.page_end(state) ==> c.aux_step(state, data, f) == (AuxModel::Commit {
            index: (c.page_start(state) + row) as usize,
            offset: row as i32,
        })),
        f.select_offset matches Some(row) ==> (c.page_start(state) + row >= c.page_end(state)
            ==> c.aux_step(state, data, f) == c.commit_highlight(state)),
        f.select_offset is None || data.mods.shift ==> c.aux_step(state, data, f)
            == c.commit_highlight(state),
{
}

/// Escape leaves a session; backspace takes back a letter, and leaves where there is none;
/// space and return commit the highlight; letters spell the code.
pub proof fn each_key_has_its_part_in_a_session(
    c: Coordinator,
    state: State,
    data: KeyEventData,
    f: AuxKeyFacts,
)
    requires
        unbound(f),
    ensures
        data.key_code == 0x1B ==> c.aux_step(state, data, f) == AuxModel::Exited,
        data.key_code == 0x08 ==> (state.aux() matches Some(m) ==> c.aux_step(state, data, f) == (
        if m.buffer.len() > 0 {
            AuxModel::Filter
        } else {
            AuxModel::Exited
        })),
        data.key_code == 0x20 || data.key_code == 0x0D ==> c.aux_step(state, data, f)
            == c.commit_highlight(state),
        'A' as u32 <= data.key_code <= 'Z' as u32 && !data.mods.ctrl && !data.mods.alt
            ==> c.aux_step(state, data, f) == AuxModel::Filter,
        '1' as u32 <= data.key_code <= '9' as u32 && data.mods.shift ==> c.aux_step(state, data, f)
            == c.commit_highlight(state),
{
}

/// A key that is caught is answered at once: it clears the composition or goes to the
/// application. The key that enters sessions does nothing in one.
pub proof fn caught_keys_are_answered_at_once(
    c: Coordinator,
    state: State,
    data: KeyEventData,
    f: AuxKeyFacts,
)
    ensures
        f.guard matches Some(g) ==> c.aux_step(state, data, f) == AuxModel::Reply(
            if g.clears {
                ActionModel::ClearComposition
            } else {
                ActionModel::PassThrough
            },
        ),
        f.guard is None && f.bound == Some(SessionAction::AuxCode) && !('A' as u32 <= data.key_code
            <= 'Z' as u32) ==> c.aux_step(state, data, f) == AuxModel::Reply(
            ActionModel::Consumed,
        ),
{
}

/// Keys that navigate do so in a session too, whatever else they stand for: they turn the
/// page, move the highlight or drop the composition.
pub proof fn navigation_comes_before_the_code(
    c: Coordinator,
    state: State,
    data: KeyEventData,
    f: AuxKeyFacts,
)
    requires
        f.guard is None,
        f.bound != Some(SessionAction::AuxCode),
    ensures
        f.nav == Some(SessionAction::PagePrev) ==> c.aux_step(state, data, f) == (
        AuxModel::PagePrev { was_first: state.current_page == 0 }),
        f.nav == Some(SessionAction::PageNext) || f.nav == Some(SessionAction::PageNextAuxCode)
            ==> c.aux_step(state, data, f) == AuxModel::PageNext,
        f.nav == Some(SessionAction::HighlightUp) || f.nav == Some(SessionAction::HighlightDown)
            ==> c.aux_step(state, data, f) == AuxModel::Highlight,
        f.nav == Some(SessionAction::Cancel) ==> c.aux_step(state, data, f) == AuxModel::Cancel,
{
}

/// The highlight that is committed is the row that is highlighted; where that lies behind the
/// list it is the last candidate, and without candidates the session is left.
pub proof fn the_highlight_is_committed_with_its_row(c: Coordinator, state: State)
    requires
        c.highlight(state) <= usize::MAX,
        state.selected_index <= i32::MAX,
        state.candidates@.len() <= i32::MAX,
    ensures
        state.candidates@.len() == 0 ==> c.commit_highlight(state) == AuxModel::Exited,
        c.page_start(state) + state.selected_index < state.candidates@.len() ==> c.commit_highlight(
            state,
        ) == (AuxModel::Commit {
            index: (c.page_start(state) + state.selected_index) as usize,
            offset: state.selected_index as i32,
        }),
        state.candidates@.len() > 0 && c.page_start(state) + state.selected_index
            >= state.candidates@.len() && c.page_start(state) < state.candidates@.len() ==> (
        c.commit_highlight(state) matches AuxModel::Commit { index, offset } && index + 1
            == state.candidates@.len() && c.page_start(state) + offset == index),
{
    pages_start_inside_the_count(c, state);
}

/// Only keys that are answered by the page commit anything, and those that take the highlight
/// commit it.
pub proof fn only_the_page_commits(
    c: Coordinator,
    state: State,
    data: KeyEventData,
    f: AuxKeyFacts,
)
    ensures
        c.aux_step(state, data, f) is Commit ==> f.guard is None && data.key_code != 0x1B
            && data.key_code != 0x08,
        c.aux_step(state, data, f) is Commit && f.nav is None ==> reads_page(data, f),
        c.takes_highlight(state, data, f) ==> c.aux_step(state, data, f) == c.commit_highlight(
            state,
        ),
        reads_page(data, f) && !c.takes_highlight(state, data, f) ==> c.aux_step(state, data, f)
            is Commit || c.aux_step(state, data, f) == AuxModel::Reply(ActionModel::Consumed),
{
}

/// A letter key spells its own letter, in lower case.
pub proof fn letters_spell_themselves(k: u32)
    requires
        'A' as u32 <= k <= 'Z' as u32,
    ensures
        code_letter(k) as u32 == k + ('a' as u32 - 'A' as u32),
        'a' as u32 <= code_letter(k) as u32 <= 'z' as u32,
{
}

/// A session starts with the list and the composition that are there, with no code, and shows
/// its code behind the composition, apart by four spaces.
pub proof fn a_session_starts_from_what_is_shown(list: Seq<CandidateModel>, preedit: Seq<char>)
    ensures
        fresh_session(list, preedit).snapshot == list,
        fresh_session(list, preedit).buffer.len() == 0,
        fresh_session(list, preedit).base == preedit,
        fresh_session(list, preedit).prefix == preedit + seq![' ', ' ', ' ', ' '],
{
    reveal_strlit("    ");
    assert("    "@ =~= seq![' ', ' ', ' ', ' ']);
}

/// With a code only what matches is shown.
pub proof fn a_code_shows_what_matches(m: SessionModel, keep: Seq<bool>, i: int)
    requires
        m.buffer.len() > 0,
        keep.len() >= m.snapshot.len(),
        0 <= i < narrowed(m, keep).len(),
    ensures
        exists|k: int| 0 <= k < m.snapshot.len() && keep[k] && #[trigger] m.snapshot[k]
            == narrowed(m, keep)[i],
{
    narrowing_keeps_order(m.snapshot, keep);
    let p = kept_places(m.snapshot.len() as int, keep);
    assert(m.snapshot[p[i]] == narrowed(m, keep)[i]);
}

/// A session that is left is over, and the keys that were typed before it are still there.
pub proof fn leaving_ends_the_session(a: State, b: State)
    requires
        session_left(a, b),
        a.aux() is Some,
    ensures
        b.active is None,
        b.aux() is None,
        b.input_buffer == a.input_buffer,
        b.committed_text == a.committed_text,
        b.current_page == a.current_page,
        b.selected_index == a.selected_index,
        models(b.candidates@) == a.aux()->0.snapshot,
        b.preedit@ == a.aux()->0.base,
{
}

/// A page that is shown starts inside the list, unless there is none.
pub proof fn pages_shown_start_inside_the_list(c: Coordinator, state: State)
    ensures
        state.candidates@.len() == 0 ==> c.page_inside(state),
        state.candidates@.len() > 0 ==> (c.page_inside(state) <==> c.page_start(state)
            < state.candidates@.len()),
        c.page_start(state) < c.page_end(state) ==> c.page_inside(state),
{
}

/// Space and return take the highlight, and so does every other plain key that names no row of
/// the page; a digit never does, and neither does a letter that spells.
pub proof fn keys_without_a_row_take_the_highlight(
    c: Coordinator,
    state: State,
    data: KeyEventData,
    f: AuxKeyFacts,
)
    requires
        unbound(f),
    ensures
        data.key_code == 0x20 || data.key_code == 0x0D ==> c.takes_highlight(state, data, f),
        '1' as u32 <= data.key_code <= '9' as u32 && !data.mods.shift ==> !c.takes_highlight(
            state,
            data,
            f,
        ),
        plain_key(data.key_code) && (f.select_offset is None || data.mods.shift)
            ==> c.takes_highlight(state, data, f),
        plain_key(data.key_code) && !data.mods.shift ==> (f.select_offset matches Some(row) ==> (
        c.takes_highlight(state, data, f) <==> c.page_start(state) + row >= c.page_end(state))),
        data.key_code == 0x1B || data.key_code == 0x08 ==> !reads_page(data, f),
        'A' as u32 <= data.key_code <= 'Z' as u32 && !data.mods.ctrl && !data.mods.alt
            ==> !reads_page(data, f),
{
}

} // verus!

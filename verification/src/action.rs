//! What a key press comes to, and the work that is left to the host.

use crate::candidate::{opt_view, CandidateSource};
use vstd::prelude::*;

verus! {

/// The reply to a key press.
#[derive(Debug)]
pub enum KeyAction {
    /// The key goes to the application untouched.
    PassThrough,
    /// The key is not one this program handles.
    NotHandled,
    /// The key is swallowed.
    Consumed,
    /// Only the status shown to the user changes.
    StatusUpdate,
    /// `text` lands, and a new composition may follow.
    InsertText {
        text: String,
        new_composition: Option<String>,
        mode_changed: bool,
        chinese_mode: bool,
        has_new_composition: bool,
    },
    /// `text` lands and the caret moves back.
    InsertTextWithCursor { text: String, cursor_offset: u32 },
    /// The composition becomes `text`.
    UpdateComposition { text: String, caret_pos: u32 },
    /// The composition ends with nothing.
    ClearComposition,
    /// The composition ends and the key is handed back.
    ClearCompositionThenPassThrough,
    /// The caret moves right.
    MoveCursorRight { count: u32 },
    /// A pair around the caret is removed.
    DeletePair,
    /// `count` characters before the caret become `text`.
    ReplaceBackward { count: u32, text: String },
    /// The composition is held back for a while.
    HoldComposition { text: String, timeout_ms: u32 },
    /// What was held is replaced by `text`.
    CommitReplacingHeld { text: String },
    /// `commit_text` lands and `hold_text` is held back.
    CommitAndHoldComposition { commit_text: String, hold_text: String, timeout_ms: u32 },
    /// `commit_text` lands and the next composition opens later.
    CommitThenDeferComposition {
        commit_text: String,
        deferred_composition: String,
        timeout_ms: u32,
    },
}

/// What a [`KeyAction`] says.
pub ghost enum ActionModel {
    PassThrough,
    NotHandled,
    Consumed,
    StatusUpdate,
    InsertText {
        text: Seq<char>,
        new_composition: Option<Seq<char>>,
        mode_changed: bool,
        chinese_mode: bool,
        has_new_composition: bool,
    },
    InsertTextWithCursor { text: Seq<char>, cursor_offset: u32 },
    UpdateComposition { text: Seq<char>, caret_pos: u32 },
    ClearComposition,
    ClearCompositionThenPassThrough,
    MoveCursorRight { count: u32 },
    DeletePair,
    ReplaceBackward { count: u32, text: Seq<char> },
    HoldComposition { text: Seq<char>, timeout_ms: u32 },
    CommitReplacingHeld { text: Seq<char> },
    CommitAndHoldComposition { commit_text: Seq<char>, hold_text: Seq<char>, timeout_ms: u32 },
    CommitThenDeferComposition {
        commit_text: Seq<char>,
        deferred_composition: Seq<char>,
        timeout_ms: u32,
    },
}

impl View for KeyAction {
    type V = ActionModel;

    open spec fn view(&self) -> ActionModel {
        match *self {
            KeyAction::PassThrough => ActionModel::PassThrough,
            KeyAction::NotHandled => ActionModel::NotHandled,
            KeyAction::Consumed => ActionModel::Consumed,
            KeyAction::StatusUpdate => ActionModel::StatusUpdate,
            KeyAction::InsertText {
                text,
                new_composition,
                mode_changed,
                chinese_mode,
                has_new_composition,
            } => ActionModel::InsertText {
                text: text@,
                new_composition: opt_view(new_composition),
                mode_changed,
                chinese_mode,
                has_new_composition,
            },
            KeyAction::InsertTextWithCursor {
                text,
                cursor_offset,
            } => ActionModel::InsertTextWithCursor {
                text: text@,
                cursor_offset,
            },
            KeyAction::UpdateComposition { text, caret_pos } => ActionModel::UpdateComposition {
                text: text@,
                caret_pos,
            },
            KeyAction::ClearComposition => ActionModel::ClearComposition,
            KeyAction::ClearCompositionThenPassThrough => ActionModel::ClearCompositionThenPassThrough,
            KeyAction::MoveCursorRight { count } => ActionModel::MoveCursorRight { count },
            KeyAction::DeletePair => ActionModel::DeletePair,
            KeyAction::ReplaceBackward { count, text } => ActionModel::ReplaceBackward {
                count,
                text: text@,
            },
            KeyAction::HoldComposition { text, timeout_ms } => ActionModel::HoldComposition {
                text: text@,
                timeout_ms,
            },
            KeyAction::CommitReplacingHeld { text } => ActionModel::CommitReplacingHeld {
                text: text@,
            },
            KeyAction::CommitAndHoldComposition {
                commit_text,
                hold_text,
                timeout_ms,
            } => ActionModel::CommitAndHoldComposition {
                commit_text: commit_text@,
                hold_text: hold_text@,
                timeout_ms,
            },
            KeyAction::CommitThenDeferComposition {
                commit_text,
                deferred_composition,
                timeout_ms,
            } => ActionModel::CommitThenDeferComposition {
                commit_text: commit_text@,
                deferred_composition: deferred_composition@,
                timeout_ms,
            },
        }
    }
}

/// Work outside the coordinator that a decision asks for.
#[derive(Debug)]
pub enum Effect {
    /// The candidate window shows the current state.
    UiUpdate,
    /// The candidate window is hidden.
    UiHide,
    /// The next showing waits for fresh caret coordinates.
    UiResetFirstShow,
    /// A selection is recorded under `code`.
    RecordSelection { code: String, text: String, source: CandidateSource },
    /// A commit is counted in the input statistics.
    RecordCommit { text: String, code_len: usize, position: i32 },
    /// A command runs on a thread of its own.
    SpawnCommand { src: String, input: String },
    /// The application is told to end its composition.
    ClearHostComposition,
    /// `text` is sent to the application outside a key reply.
    PushText { text: String, chinese_mode: bool },
    /// The composition is sent outside a key reply.
    PushComposition { text: String, caret_pos: u32 },
    /// Associations are closed after `ms`, under `token`.
    ArmAssocHide { ms: u64, token: u64 },
    /// The add-word panel shows the current state.
    UiAddWordPanel,
    /// The settings program opens its add-word page with `args`.
    OpenAddWordDialog { args: String },
    /// The common or rare mark of `text` is flipped.
    ToggleCommon { text: String },
    /// The user dictionary of `schema` has changed: who shows it is told.
    DictChanged { schema: String },
}

/// What an [`Effect`] asks for.
pub ghost enum EffectModel {
    UiUpdate,
    UiHide,
    UiResetFirstShow,
    RecordSelection { code: Seq<char>, text: Seq<char>, source: CandidateSource },
    RecordCommit { text: Seq<char>, code_len: usize, position: i32 },
    SpawnCommand { src: Seq<char>, input: Seq<char> },
    ClearHostComposition,
    PushText { text: Seq<char>, chinese_mode: bool },
    PushComposition { text: Seq<char>, caret_pos: u32 },
    ArmAssocHide { ms: u64, token: u64 },
    UiAddWordPanel,
    OpenAddWordDialog { args: Seq<char> },
    ToggleCommon { text: Seq<char> },
    DictChanged { schema: Seq<char> },
}

impl View for Effect {
    type V = EffectModel;

    open spec fn view(&self) -> EffectModel {
        match *self {
            Effect::UiUpdate => EffectModel::UiUpdate,
            Effect::UiHide => EffectModel::UiHide,
            Effect::UiResetFirstShow => EffectModel::UiResetFirstShow,
            Effect::RecordSelection { code, text, source } => EffectModel::RecordSelection {
                code: code@,
                text: text@,
                source,
            },
            Effect::RecordCommit { text, code_len, position } => EffectModel::RecordCommit {
                text: text@,
                code_len,
                position,
            },
            Effect::SpawnCommand { src, input } => EffectModel::SpawnCommand {
                src: src@,
                input: input@,
            },
            Effect::ClearHostComposition => EffectModel::ClearHostComposition,
            Effect::PushText { text, chinese_mode } => EffectModel::PushText {
                text: text@,
                chinese_mode,
            },
            Effect::PushComposition { text, caret_pos } => EffectModel::PushComposition {
                text: text@,
                caret_pos,
            },
            Effect::ArmAssocHide { ms, token } => EffectModel::ArmAssocHide { ms, token },
            Effect::UiAddWordPanel => EffectModel::UiAddWordPanel,
            Effect::OpenAddWordDialog { args } => EffectModel::OpenAddWordDialog { args: args@ },
            Effect::ToggleCommon { text } => EffectModel::ToggleCommon { text: text@ },
            Effect::DictChanged { schema } => EffectModel::DictChanged { schema: schema@ },
        }
    }
}

/// Effects waiting for the host, oldest first.
#[derive(Debug)]
pub struct Outbox {
    pub pending: Vec<Effect>,
}

impl View for Outbox {
    type V = Seq<EffectModel>;

    open spec fn view(&self) -> Seq<EffectModel> {
        self.pending@.map_values(|e: Effect| e@)
    }
}

impl Outbox {
    /// An outbox with nothing in it.
    pub fn new() -> (o: Self)
        ensures
            o@ == Seq::<EffectModel>::empty(),
    {
        let o = Outbox { pending: Vec::new() };
        assert(o@ =~= Seq::empty());
        o
    }

    /// Adds an effect behind the ones already waiting.
    pub fn put(&mut self, e: Effect)
        ensures
            final(self)@ == old(self)@.push(e@),
    {
        let ghost before = self.pending@;
        self.pending.push(e);
        assert(before.push(e).map_values(|e: Effect| e@) =~= before.map_values(
            |e: Effect| e@,
        ).push(e@));
    }
}

} // verus!

//! Operations on a single candidate: pinning, moving, deleting, restoring.

use crate::candidate::{opt_view, strings_view, Candidate, CandidateModel};
use crate::coordinator::{english_schema, Coordinator, EngineType};
use crate::keys::{KeyEventData, KeyMods};
use crate::state::{ModeKind, State};
use crate::text::{list_has, lowered_text, same};
use crate::view::shadow_code_model;
use vstd::prelude::*;
use vstd::string::*;
use vstd::utf8::*;

verus! {

/// What `str::to_lowercase` makes of a text.
pub uninterp spec fn lowercase(s: Seq<char>) -> Seq<char>;

/// `str::to_lowercase` of std: the Unicode lowercase form, which is fixed by the
/// text alone; for ASCII it turns exactly the letters `A` to `Z` into `a` to `z`. Each
/// character has at least one in its place, so a text does not become empty.
#[verifier::external_body]
fn to_lowercase(s: &str) -> (r: String)
    ensures
        r@ == lowercase(s@),
        is_ascii_chars(s@) ==> r@ == lowered_text(s@),
        s@.len() > 0 ==> r@.len() > 0,
{
    s.to_lowercase()
}

/// An operation on a candidate.
#[derive(Clone, Copy, PartialEq, Eq, Structural, Debug)]
pub enum CandidateOp {
    MoveTop,
    MoveUp,
    MoveDown,
    Delete,
    Reset,
    ToggleCommon,
}

/// What operations on the candidates shown apply to.
#[derive(Debug)]
pub struct CandidateOpScope {
    /// Schema whose engine gave the candidates.
    pub schema: String,
    /// Input in the form adjustments are kept under.
    pub code: String,
    /// Input as typed.
    pub raw_code: String,
    /// Engine that gave the candidates.
    pub engine_type: Option<EngineType>,
    /// The candidates belong to a special mode.
    pub special: bool,
}

/// What a [`CandidateOpScope`] holds, save for the engine.
pub ghost struct ScopeModel {
    pub schema: Seq<char>,
    pub code: Seq<char>,
    pub raw_code: Seq<char>,
    pub special: bool,
}

impl CandidateOpScope {
    /// What the scope holds, save for the engine.
    pub open spec fn model(self) -> ScopeModel {
        ScopeModel {
            schema: self.schema@,
            code: self.code@,
            raw_code: self.raw_code@,
            special: self.special,
        }
    }
}

/// What an operation writes.
#[derive(Debug)]
pub enum OpWrite {
    /// The word is fixed at a place.
    Pin { schema: String, code: String, word: String, cand_id: Option<String>, position: usize },
    /// The word is deleted, by its source.
    Delete { schema: String, code: String, index: usize },
    /// What was fixed or hidden is undone.
    Unpin { schema: String, code: String, word: String, cand_id: Option<String> },
}

/// What an [`OpWrite`] says.
pub ghost enum WriteModel {
    Pin {
        schema: Seq<char>,
        code: Seq<char>,
        word: Seq<char>,
        cand_id: Option<Seq<char>>,
        position: usize,
    },
    Delete { schema: Seq<char>, code: Seq<char>, index: usize },
    Unpin { schema: Seq<char>, code: Seq<char>, word: Seq<char>, cand_id: Option<Seq<char>> },
}

impl View for OpWrite {
    type V = WriteModel;

    open spec fn view(&self) -> WriteModel {
        match *self {
            OpWrite::Pin { schema, code, word, cand_id, position } => WriteModel::Pin {
                schema: schema@,
                code: code@,
                word: word@,
                cand_id: opt_view(cand_id),
                position,
            },
            OpWrite::Delete { schema, code, index } => WriteModel::Delete {
                schema: schema@,
                code: code@,
                index,
            },
            OpWrite::Unpin { schema, code, word, cand_id } => WriteModel::Unpin {
                schema: schema@,
                code: code@,
                word: word@,
                cand_id: opt_view(cand_id),
            },
        }
    }
}

/// What an operation comes to.
#[derive(Debug)]
pub enum OpStep {
    /// Nothing happens.
    Nothing,
    /// The common or rare mark of a text is flipped.
    ToggleCommon { text: String },
    /// Something is written, where there is a store, and the list is built anew, by
    /// the special mode or by ordinary input.
    Apply { write: Option<OpWrite>, special: bool },
}

/// What an [`OpStep`] says.
pub ghost enum OpModel {
    Nothing,
    ToggleCommon { text: Seq<char> },
    Apply { write: Option<WriteModel>, special: bool },
}

impl View for OpStep {
    type V = OpModel;

    open spec fn view(&self) -> OpModel {
        match *self {
            OpStep::Nothing => OpModel::Nothing,
            OpStep::ToggleCommon { text } => OpModel::ToggleCommon { text: text@ },
            OpStep::Apply { write, special } => OpModel::Apply {
                write: match write {
                    Some(w) => Some(w@),
                    None => None,
                },
                special,
            },
        }
    }
}

/// How a candidate is deleted.
#[derive(Debug)]
pub enum DeletePlan {
    /// It is not: there is no store.
    Nothing,
    /// The phrase is switched off.
    DisablePhrase { code: String, text: String },
    /// The records of the word are removed, in each layer that holds it, under the
    /// first of the codes it is held under.
    RemoveWords { codes: Vec<String>, user: bool, temp: bool },
    /// The word is hidden for the code.
    Hide { code: String, text: String },
}

/// What a [`DeletePlan`] says.
pub ghost enum DeleteModel {
    Nothing,
    DisablePhrase { code: Seq<char>, text: Seq<char> },
    RemoveWords { codes: Seq<Seq<char>>, user: bool, temp: bool },
    Hide { code: Seq<char>, text: Seq<char> },
}

impl View for DeletePlan {
    type V = DeleteModel;

    open spec fn view(&self) -> DeleteModel {
        match *self {
            DeletePlan::Nothing => DeleteModel::Nothing,
            DeletePlan::DisablePhrase { code, text } => DeleteModel::DisablePhrase {
                code: code@,
                text: text@,
            },
            DeletePlan::RemoveWords { codes, user, temp } => DeleteModel::RemoveWords {
                codes: strings_view(codes@),
                user,
                temp,
            },
            DeletePlan::Hide { code, text } => DeleteModel::Hide { code: code@, text: text@ },
        }
    }
}

/// `s` with `c` behind it, unless it is there.
pub open spec fn with_code(s: Seq<Seq<char>>, c: Seq<char>) -> Seq<Seq<char>> {
    if s.contains(c) {
        s
    } else {
        s.push(c)
    }
}

/// `s` with each of `more` behind it, unless it is there.
pub open spec fn with_codes(s: Seq<Seq<char>>, more: Seq<Seq<char>>) -> Seq<Seq<char>>
    decreases more.len(),
{
    if more.len() == 0 {
        s
    } else {
        with_code(with_codes(s, more.drop_last()), more.last())
    }
}

/// The codes the record of a candidate may be kept under, the likeliest first: the
/// record's own code, the candidate's, the codes merged into it, and the input.
pub open spec fn record_codes(c: CandidateModel, input: Seq<char>) -> Seq<Seq<char>> {
    let own = match c.store_code {
        Some(s) => seq![s],
        None => Seq::empty(),
    };
    let named = if c.code.len() > 0 {
        with_code(own, c.code)
    } else {
        own
    };
    let merged = with_codes(named, c.merged_codes);
    if input.len() > 0 {
        with_code(merged, input)
    } else {
        merged
    }
}

proof fn lemma_with_code_distinct(s: Seq<Seq<char>>, c: Seq<char>)
    requires
        s.no_duplicates(),
    ensures
        with_code(s, c).no_duplicates(),
{
    if !s.contains(c) {
        let r = s.push(c);
        assert forall|i: int, j: int| 0 <= i < r.len() && 0 <= j < r.len() && i != j implies r[i]
            != r[j] by {
            if i == s.len() {
                assert(s[j] == r[j]);
            } else if j == s.len() {
                assert(s[i] == r[i]);
            }
        }
    }
}

proof fn lemma_with_codes_distinct(s: Seq<Seq<char>>, more: Seq<Seq<char>>)
    requires
        s.no_duplicates(),
    ensures
        with_codes(s, more).no_duplicates(),
    decreases more.len(),
{
    if more.len() > 0 {
        lemma_with_codes_distinct(s, more.drop_last());
        lemma_with_code_distinct(with_codes(s, more.drop_last()), more.last());
    }
}

/// No code is tried twice.
pub proof fn each_code_is_tried_once(c: CandidateModel, input: Seq<char>)
    ensures
        record_codes(c, input).no_duplicates(),
{
    let own = match c.store_code {
        Some(s) => seq![s],
        None => Seq::empty(),
    };
    lemma_with_code_distinct(own, c.code);
    let named = if c.code.len() > 0 {
        with_code(own, c.code)
    } else {
        own
    };
    lemma_with_codes_distinct(named, c.merged_codes);
    lemma_with_code_distinct(with_codes(named, c.merged_codes), input);
}

fn add_code(list: &mut Vec<String>, c: &str)
    ensures
        strings_view(final(list)@) == with_code(strings_view(old(list)@), c@),
{
    if !list_has(list, c) {
        let t: String = c.to_owned();
        let ghost s = strings_view(list@);
        list.push(t);
        assert(strings_view(list@) =~= s.push(c@));
    }
}

fn codes_of_record(cand: &Candidate, input: &str) -> (r: Vec<String>)
    ensures
        strings_view(r@) == record_codes(cand@, input@),
{
    let mut r: Vec<String> = Vec::new();
    assert(strings_view(r@) =~= Seq::empty());
    match &cand.store_code {
        Some(s) => {
            r.push(s.clone());
            assert(strings_view(r@) =~= seq![s@]);
        },
        None => {},
    }
    if !cand.code.as_str().is_empty() {
        add_code(&mut r, cand.code.as_str());
    }
    let ghost named = strings_view(r@);
    let ghost more = strings_view(cand.merged_codes@);
    let mut i: usize = 0;
    assert(more.take(0) =~= Seq::empty());
    while i < cand.merged_codes.len()
        invariant
            i <= cand.merged_codes@.len(),
            more == strings_view(cand.merged_codes@),
            strings_view(r@) == with_codes(named, more.take(i as int)),
        decreases cand.merged_codes.len() - i,
    {
        proof {
            assert(more.take(i as int + 1).drop_last() =~= more.take(i as int));
            assert(more.take(i as int + 1).last() == cand.merged_codes@[i as int]@);
        }
        add_code(&mut r, cand.merged_codes[i].as_str());
        i = i + 1;
    }
    assert(more.take(more.len() as int) =~= more);
    if !input.is_empty() {
        add_code(&mut r, input);
    }
    r
}

/// The first code of the list a layer holds the word under; `held` says for each
/// code whether it does.
pub fn code_to_remove(codes: &Vec<String>, held: &Vec<bool>) -> (r: Option<usize>)
    requires
        held@.len() == codes@.len(),
    ensures
        match r {
            Some(i) => i < codes@.len() && held@[i as int] && forall|k: int|
                0 <= k < i ==> !held@[k],
            None => forall|k: int| 0 <= k < codes@.len() ==> !held@[k],
        },
{
    let mut i: usize = 0;
    while i < codes.len()
        invariant
            i <= codes@.len(),
            held@.len() == codes@.len(),
            forall|k: int| 0 <= k < i ==> !held@[k],
        decreases codes.len() - i,
    {
        if held[i] {
            return Some(i);
        }
        i = i + 1;
    }
    None
}

/// The row a digit key names: the digit, and 10 for the zero.
pub open spec fn row_of_digit(key_code: u32) -> int {
    if key_code == 0x30 {
        10
    } else if 0x31 <= key_code <= 0x39 {
        key_code - 0x30
    } else {
        0
    }
}

/// The row a digit key names under the template `want`: 0 unless the modifiers are
/// just those of the template.
pub open spec fn templated_row(want: Option<KeyMods>, data: KeyEventData) -> int {
    if want == Some(data.mods) {
        row_of_digit(data.key_code)
    } else {
        0
    }
}

impl Coordinator {
    /// The schema that owns what is learned in the mode in force, where that is not
    /// the schema in use: a special mode's own, and English for temporary English.
    pub open spec fn data_schema_of(self, state: State) -> Option<Seq<char>> {
        match state.active {
            Some(ModeKind::Special(idx)) => if idx < self.settings.special_schemas@.len() {
                Some(self.settings.special_schemas@[idx as int]@)
            } else {
                None
            },
            Some(ModeKind::TempEnglish) => Some(english_schema()),
            _ => None,
        }
    }

    /// The schema that owns what is learned in the mode in force, where that is not
    /// the schema in use.
    pub fn effective_data_schema(&self, state: &State) -> (r: Option<String>)
        ensures
            opt_view(r) == self.data_schema_of(*state),
    {
        match state.active {
            Some(ModeKind::Special(idx)) => if idx < self.settings.special_schemas.len() {
                Some(self.settings.special_schemas[idx].clone())
            } else {
                None
            },
            Some(ModeKind::TempEnglish) => Some("english".to_owned()),
            _ => None,
        }
    }

    /// What operations on the candidates shown apply to: nothing without candidates,
    /// nothing in a mode that owns no words, and nothing for an empty code, save in a
    /// special mode, which lists candidates before a key is typed.
    pub open spec fn op_scope(self, state: State) -> Option<ScopeModel> {
        let found = match state.active {
            None => Some(
                ScopeModel {
                    schema: self.engine.active_schema@,
                    code: shadow_code_model(state),
                    raw_code: state.input_buffer@,
                    special: false,
                },
            ),
            Some(ModeKind::Special(_)) => match self.data_schema_of(state) {
                Some(schema) => Some(
                    ScopeModel {
                        schema,
                        code: state.special_buffer@,
                        raw_code: state.special_buffer@,
                        special: true,
                    },
                ),
                None => None,
            },
            Some(ModeKind::RareChar) => Some(
                ScopeModel {
                    schema: self.engine.active_schema@,
                    code: state.special_buffer@,
                    raw_code: state.special_buffer@,
                    special: false,
                },
            ),
            Some(ModeKind::TempEnglish) => Some(
                ScopeModel {
                    schema: english_schema(),
                    code: lowercase(state.temp_english_buffer@),
                    raw_code: state.temp_english_buffer@,
                    special: false,
                },
            ),
            _ => None,
        };
        if state.candidates@.len() == 0 || found is None || (found->0.code.len() == 0
            && !found->0.special) {
            None
        } else {
            found
        }
    }

    /// What operations on the candidates shown apply to. `loaded` is the engine
    /// loaded for a schema other than the one in use.
    pub fn candidate_op_scope(&self, state: &State, loaded: Option<EngineType>) -> (r: Option<
        CandidateOpScope,
    >)
        ensures
            (match r {
                Some(s) => Some(s.model()),
                None => None,
            }) == self.op_scope(*state),
            r matches Some(s) ==> s.engine_type == (if s.schema@ == self.engine.active_schema@ {
                self.engine.engine_type
            } else {
                loaded
            }),
            state.active == Some(ModeKind::TempEnglish) && state.candidates@.len() > 0 ==> (r is Some
                <==> state.temp_english_buffer@.len() > 0),
    {
        if state.candidates.len() == 0 {
            return None;
        }
        let (schema, code, raw_code, special): (String, String, String, bool) = match state.active {
            None => (
                self.engine.active_schema.clone(),
                Self::shadow_code_of(state),
                state.input_buffer.clone(),
                false,
            ),
            Some(ModeKind::Special(_)) => match self.effective_data_schema(state) {
                Some(schema) => (
                    schema,
                    state.special_buffer.clone(),
                    state.special_buffer.clone(),
                    true,
                ),
                None => {
                    return None;
                },
            },
            Some(ModeKind::RareChar) => (
                self.engine.active_schema.clone(),
                state.special_buffer.clone(),
                state.special_buffer.clone(),
                false,
            ),
            Some(ModeKind::TempEnglish) => (
                "english".to_owned(),
                to_lowercase(state.temp_english_buffer.as_str()),
                state.temp_english_buffer.clone(),
                false,
            ),
            _ => {
                return None;
            },
        };
        if code.as_str().is_empty() && !special {
            return None;
        }
        let engine_type = if same(schema.as_str(), self.engine.active_schema.as_str()) {
            self.engine.engine_type
        } else {
            loaded
        };
        Some(CandidateOpScope { schema, code, raw_code, engine_type, special })
    }

    /// The schema and the code operations on the candidates shown apply to.
    pub fn debug_candidate_op_scope(&self) -> (r: Option<(String, String)>)
        ensures
            match r {
                Some(p) => {
                    &&& self.op_scope(self.state) is Some
                    &&& p.0@ == self.op_scope(self.state)->0.schema
                    &&& p.1@ == self.op_scope(self.state)->0.code
                },
                None => self.op_scope(self.state) is None,
            },
            self.state.active == Some(ModeKind::TempEnglish) && self.state.candidates@.len() > 0 ==> (r is Some
                <==> self.state.temp_english_buffer@.len() > 0),
    {
        match self.candidate_op_scope(&self.state, None) {
            Some(s) => Some((s.schema, s.code)),
            None => None,
        }
    }

    /// What an operation on candidate `idx` writes.
    pub open spec fn op_write(
        self,
        op: CandidateOp,
        c: CandidateModel,
        idx: int,
        last: int,
        scope: ScopeModel,
    ) -> Option<WriteModel> {
        let cand_id = if c.id.len() > 0 {
            Some(c.id)
        } else {
            None
        };
        let pin = |position: int| WriteModel::Pin {
            schema: scope.schema,
            code: scope.code,
            word: c.text,
            cand_id,
            position: position as usize,
        };
        if !self.engine.has_store {
            None
        } else {
            match op {
                CandidateOp::MoveTop => Some(pin(0)),
                CandidateOp::MoveUp => Some(
                    pin(
                        if idx > 0 {
                            idx - 1
                        } else {
                            0
                        },
                    ),
                ),
                CandidateOp::MoveDown => Some(
                    pin(
                        if idx < last {
                            idx + 1
                        } else {
                            last
                        },
                    ),
                ),
                CandidateOp::Delete => Some(
                    WriteModel::Delete {
                        schema: scope.schema,
                        code: scope.raw_code,
                        index: idx as usize,
                    },
                ),
                CandidateOp::Reset => Some(
                    WriteModel::Unpin {
                        schema: scope.schema,
                        code: scope.code,
                        word: c.text,
                        cand_id,
                    },
                ),
                CandidateOp::ToggleCommon => None,
            }
        }
    }

    /// Whether an operation is refused for a candidate: a member of a group has no
    /// place of its own; places of pinyin candidates shift, so only the top can be
    /// fixed; and what is first cannot go higher.
    pub open spec fn op_refused(
        op: CandidateOp,
        c: CandidateModel,
        idx: int,
        group_member: bool,
        engine_type: Option<EngineType>,
    ) -> bool {
        ||| group_member
        ||| (op == CandidateOp::MoveUp || op == CandidateOp::MoveDown) && !c.is_command
            && engine_type == Some(EngineType::Pinyin)
        ||| op == CandidateOp::MoveTop && idx == 0
    }

    /// What operation `op` on row `page_local` comes to. `group_member` says that the
    /// candidate is a member of an opened group, and `loaded` is the engine loaded for
    /// a schema other than the one in use.
    pub fn candidate_op(
        &self,
        state: &State,
        op: CandidateOp,
        page_local: usize,
        group_member: bool,
        loaded: Option<EngineType>,
    ) -> (r: OpStep)
        requires
            self.page_fits(*state),
        ensures
            ({
                let idx = self.page_start(*state) + page_local;
                r@ == (if idx >= self.page_end(*state) {
                    OpModel::Nothing
                } else {
                    let c = state.candidates@[idx]@;
                    if op == CandidateOp::ToggleCommon {
                        OpModel::ToggleCommon { text: c.text }
                    } else {
                        match self.op_scope(*state) {
                            None => OpModel::Nothing,
                            Some(scope) => {
                                let engine = if scope.schema == self.engine.active_schema@ {
                                    self.engine.engine_type
                                } else {
                                    loaded
                                };
                                if Self::op_refused(op, c, idx, group_member, engine) {
                                    OpModel::Nothing
                                } else {
                                    OpModel::Apply {
                                        write: self.op_write(
                                            op,
                                            c,
                                            idx,
                                            state.candidates@.len() - 1,
                                            scope,
                                        ),
                                        special: scope.special,
                                    }
                                }
                            },
                        }
                    }
                })
            }),
            self.page_start(*state) + page_local >= self.page_end(*state) ==> r@ == OpModel::Nothing,
            self.page_start(*state) + page_local < self.page_end(*state) && op == CandidateOp::ToggleCommon
                ==> r@ == (OpModel::ToggleCommon {
                text: state.candidates@[self.page_start(*state) + page_local].text@,
            }),
            op != CandidateOp::ToggleCommon && (group_member || self.op_scope(*state) is None) ==> r@
                == OpModel::Nothing,
            r@ matches OpModel::Apply { write, special } ==> (self.engine.has_store <==> write is Some)
                && special == self.op_scope(*state)->0.special,
    {
        let (start, end) = self.page_range(state);
        if start >= end || page_local >= end - start {
            return OpStep::Nothing;
        }
        let idx: usize = start + page_local;
        let cand = &state.candidates[idx];
        if op == CandidateOp::ToggleCommon {
            return OpStep::ToggleCommon { text: cand.text.clone() };
        }
        let scope = match self.candidate_op_scope(state, loaded) {
            Some(s) => s,
            None => {
                return OpStep::Nothing;
            },
        };
        if group_member {
            return OpStep::Nothing;
        }
        let pinyin = match scope.engine_type {
            Some(t) => t == EngineType::Pinyin,
            None => false,
        };
        if (op == CandidateOp::MoveUp || op == CandidateOp::MoveDown) && !cand.is_command
            && pinyin {
            return OpStep::Nothing;
        }
        if op == CandidateOp::MoveTop && idx == 0 {
            return OpStep::Nothing;
        }
        let special = scope.special;
        if !self.engine.has_store {
            return OpStep::Apply { write: None, special };
        }
        let last: usize = state.candidates.len() - 1;
        let word = cand.text.clone();
        let cand_id = if cand.id.as_str().is_empty() {
            None
        } else {
            Some(cand.id.clone())
        };
        let write = match op {
            CandidateOp::MoveTop => OpWrite::Pin {
                schema: scope.schema,
                code: scope.code,
                word,
                cand_id,
                position: 0,
            },
            CandidateOp::MoveUp => OpWrite::Pin {
                schema: scope.schema,
                code: scope.code,
                word,
                cand_id,
                position: if idx > 0 {
                    idx - 1
                } else {
                    0
                },
            },
            CandidateOp::MoveDown => OpWrite::Pin {
                schema: scope.schema,
                code: scope.code,
                word,
                cand_id,
                position: if idx < last {
                    idx + 1
                } else {
                    last
                },
            },
            CandidateOp::Delete => OpWrite::Delete {
                schema: scope.schema,
                code: scope.raw_code,
                index: idx,
            },
            CandidateOp::Reset => OpWrite::Unpin {
                schema: scope.schema,
                code: scope.code,
                word,
                cand_id,
            },
            CandidateOp::ToggleCommon => {
                return OpStep::Nothing;
            },
        };
        OpStep::Apply { write: Some(write), special }
    }

    /// What operation `op` on row `page_local` of the current page comes to.
    pub fn debug_candidate_op(
        &self,
        op: CandidateOp,
        page_local: usize,
        group_member: bool,
        loaded: Option<EngineType>,
    ) -> (r: OpStep)
        requires
            self.page_fits(self.state),
        ensures
            self.page_start(self.state) + page_local >= self.page_end(self.state) ==> r@
                == OpModel::Nothing,
            self.page_start(self.state) + page_local < self.page_end(self.state) ==> {
                let idx = self.page_start(self.state) + page_local;
                let c = self.state.candidates@[idx]@;
                r@ == (if op == CandidateOp::ToggleCommon {
                    OpModel::ToggleCommon { text: c.text }
                } else {
                    match self.op_scope(self.state) {
                        None => OpModel::Nothing,
                        Some(scope) => if Self::op_refused(
                            op,
                            c,
                            idx,
                            group_member,
                            if scope.schema == self.engine.active_schema@ {
                                self.engine.engine_type
                            } else {
                                loaded
                            },
                        ) {
                            OpModel::Nothing
                        } else {
                            OpModel::Apply {
                                write: self.op_write(
                                    op,
                                    c,
                                    idx,
                                    self.state.candidates@.len() - 1,
                                    scope,
                                ),
                                special: scope.special,
                            }
                        },
                    }
                })
            },
    {
        self.candidate_op(&self.state, op, page_local, group_member, loaded)
    }

    /// How a candidate is deleted: a phrase is switched off under its full code and
    /// its unexpanded text, a word of the user's is removed from the store, and any
    /// other is hidden for the input.
    pub open spec fn delete_plan(self, code: Seq<char>, c: CandidateModel) -> DeleteModel {
        if !self.engine.has_store {
            DeleteModel::Nothing
        } else if c.is_phrase {
            DeleteModel::DisablePhrase {
                code: if c.group_code.len() == 0 {
                    code
                } else {
                    c.group_code
                },
                text: if c.phrase_template.len() == 0 {
                    c.text
                } else {
                    c.phrase_template
                },
            }
        } else if c.is_user_dict || c.is_temp_dict {
            DeleteModel::RemoveWords {
                codes: record_codes(c, code),
                user: c.is_user_dict,
                temp: c.is_temp_dict,
            }
        } else {
            DeleteModel::Hide { code, text: c.text }
        }
    }

    /// How a candidate is deleted.
    pub fn delete_candidate_by_source(&self, code: &str, cand: &Candidate) -> (r: DeletePlan)
        ensures
            r@ == self.delete_plan(code@, cand@),
    {
        if !self.engine.has_store {
            return DeletePlan::Nothing;
        }
        if cand.is_phrase {
            let text = if cand.phrase_template.as_str().is_empty() {
                cand.text.clone()
            } else {
                cand.phrase_template.clone()
            };
            let pcode = if cand.group_code.as_str().is_empty() {
                code.to_owned()
            } else {
                cand.group_code.clone()
            };
            return DeletePlan::DisablePhrase { code: pcode, text };
        }
        if cand.is_user_dict || cand.is_temp_dict {
            return DeletePlan::RemoveWords {
                codes: codes_of_record(cand, code),
                user: cand.is_user_dict,
                temp: cand.is_temp_dict,
            };
        }
        DeletePlan::Hide { code: code.to_owned(), text: cand.text.clone() }
    }

    /// The row a digit key with modifiers names, counted from 1; 0 when the key or
    /// the modifiers do not fit. The modifiers have to be the same, not just present,
    /// so that a wider template never takes the keys of a narrower one.
    pub fn match_candidate_action_key(want: Option<KeyMods>, data: &KeyEventData) -> (r: usize)
        ensures
            r == templated_row(want, *data),
    {
        let num: usize = if data.key_code == 0x30 {
            10
        } else if 0x31 <= data.key_code && data.key_code <= 0x39 {
            (data.key_code - 0x30) as usize
        } else {
            return 0;
        };
        match want {
            Some(m) => if m == data.mods {
                num
            } else {
                0
            },
            None => 0,
        }
    }

    /// The operation a key names.
    pub open spec fn hotkey_op(self, data: KeyEventData) -> Option<(CandidateOp, usize)> {
        let row = row_of_digit(data.key_code);
        if !data.mods.ctrl || row == 0 {
            None
        } else if self.settings.delete_candidate == Some(data.mods) {
            Some((CandidateOp::Delete, (row - 1) as usize))
        } else if self.settings.pin_candidate == Some(data.mods) {
            Some((CandidateOp::MoveTop, (row - 1) as usize))
        } else {
            None
        }
    }

    /// The operation a key asks for, with its row counted from 0: deleting or
    /// pinning, while Chinese is typed, candidates are shown and operations apply to
    /// them.
    pub fn handle_candidate_action_hotkey(&self, state: &State, data: &KeyEventData) -> (r: Option<
        (CandidateOp, usize),
    >)
        ensures
            r == (if state.chinese_mode && self.op_scope(*state) is Some {
                self.hotkey_op(*data)
            } else {
                None
            }),
            r is Some ==> state.chinese_mode && self.op_scope(*state) is Some && data.mods.ctrl,
            state.chinese_mode && self.op_scope(*state) is Some ==> r == self.hotkey_op(*data),
    {
        if !data.mods.ctrl {
            return None;
        }
        let del = Self::match_candidate_action_key(self.settings.delete_candidate, data);
        let pin = Self::match_candidate_action_key(self.settings.pin_candidate, data);
        let (op, num): (CandidateOp, usize) = if del > 0 {
            (CandidateOp::Delete, del)
        } else if pin > 0 {
            (CandidateOp::MoveTop, pin)
        } else {
            return None;
        };
        if !state.chinese_mode {
            return None;
        }
        match self.candidate_op_scope(state, None) {
            Some(_) => Some((op, num - 1)),
            None => None,
        }
    }
}

/// Different templates never take the same key, not even where one holds all the
/// modifiers of the other.
pub proof fn templates_exclude_each_other(a: KeyMods, b: KeyMods, data: KeyEventData)
    requires
        a != b,
    ensures
        templated_row(Some(a), data) == 0 || templated_row(Some(b), data) == 0,
{
}

/// What is pinned while typing is looked up under the same code: the code of an
/// operation in ordinary input is the one adjustments are read by.
pub proof fn adjustments_are_read_where_they_are_written(c: Coordinator, state: State)
    requires
        state.active is None,
        c.op_scope(state) is Some,
    ensures
        c.op_scope(state)->0.code == shadow_code_model(state),
{
}

/// Where operations apply in a mode of its own, what is learned goes to the same
/// schema.
pub proof fn operations_and_learning_share_a_schema(c: Coordinator, state: State)
    requires
        c.op_scope(state) is Some,
    ensures
        c.op_scope(state)->0.schema == (match c.data_schema_of(state) {
            Some(s) => s,
            None => c.engine.active_schema@,
        }),
{
}

/// The codes a record may be kept under are its own, the candidate's, those merged into it and
/// the keys; the record's own is tried first, and the keys behind the codes merged in.
pub proof fn records_are_looked_for_under_every_code(
    c: CandidateModel,
    input: Seq<char>,
    x: Seq<char>,
)
    ensures
        c.store_code matches Some(own) ==> record_codes(c, input).len() > 0 && record_codes(
            c,
            input,
        )[0] == own,
        c.store_code is None && c.code.len() > 0 ==> record_codes(c, input)[0] == c.code,
        record_codes(c, input).contains(x) <==> c.store_code == Some(x) || (c.code.len() > 0 && x
            == c.code) || c.merged_codes.contains(x) || (input.len() > 0 && x == input),
{
    let own: Seq<Seq<char>> = match c.store_code {
        Some(s) => seq![s],
        None => Seq::empty(),
    };
    assert(own.contains(x) <==> c.store_code == Some(x)) by {
        if c.store_code == Some(x) {
            assert(own[0] == x);
        }
    }
    let named = if c.code.len() > 0 {
        with_code(own, c.code)
    } else {
        own
    };
    lemma_with_code(own, c.code, x);
    let merged = with_codes(named, c.merged_codes);
    lemma_with_codes(named, c.merged_codes, x);
    lemma_with_code(merged, input, x);
}

proof fn lemma_with_code(s: Seq<Seq<char>>, c: Seq<char>, x: Seq<char>)
    ensures
        with_code(s, c).contains(x) <==> s.contains(x) || x == c,
        s.is_prefix_of(with_code(s, c)),
        s.len() > 0 ==> with_code(s, c).len() > 0 && with_code(s, c)[0] == s[0],
        s.len() == 0 ==> with_code(s, c).len() > 0 && with_code(s, c)[0] == c,
{
    let r = with_code(s, c);
    if !s.contains(c) {
        assert(r[s.len() as int] == c);
        if s.contains(x) {
            let i = choose|i: int| 0 <= i < s.len() && s[i] == x;
            assert(r[i] == x);
        }
        if r.contains(x) && x != c {
            let i = choose|i: int| 0 <= i < r.len() && r[i] == x;
            assert(s[i] == x);
        }
    }
}

proof fn lemma_with_codes(s: Seq<Seq<char>>, more: Seq<Seq<char>>, x: Seq<char>)
    ensures
        with_codes(s, more).contains(x) <==> s.contains(x) || more.contains(x),
        s.is_prefix_of(with_codes(s, more)),
        s.len() > 0 ==> with_codes(s, more).len() > 0 && with_codes(s, more)[0] == s[0],
    decreases more.len(),
{
    if more.len() > 0 {
        let d = more.drop_last();
        lemma_with_codes(s, d, x);
        lemma_with_code(with_codes(s, d), more.last(), x);
        assert(more.contains(x) <==> d.contains(x) || x == more.last()) by {
            if d.contains(x) {
                let i = choose|i: int| 0 <= i < d.len() && d[i] == x;
                assert(more[i] == x);
            }
            if x == more.last() {
                assert(more[more.len() - 1] == x);
            }
            if more.contains(x) && x != more.last() {
                let i = choose|i: int| 0 <= i < more.len() && more[i] == x;
                assert(d[i] == x);
            }
        }
    }
}

/// A digit names the row it stands for, the zero the tenth; no other key names a row.
pub proof fn digits_name_rows(key_code: u32)
    ensures
        '1' as u32 <= key_code <= '9' as u32 ==> row_of_digit(key_code) == key_code - '0' as u32,
        key_code == '0' as u32 ==> row_of_digit(key_code) == 10,
        !('0' as u32 <= key_code <= '9' as u32) ==> row_of_digit(key_code) == 0,
{
}

/// A template takes the digits typed with just its modifiers, and no template takes any.
pub proof fn templates_take_their_own_modifiers(want: KeyMods, data: KeyEventData)
    ensures
        data.mods == want ==> templated_row(Some(want), data) == row_of_digit(data.key_code),
        data.mods != want ==> templated_row(Some(want), data) == 0,
        templated_row(None, data) == 0,
{
}

/// What is learned in a special mode belongs to the schema of that mode, and in temporary
/// English to the English one; in every other mode there is no such schema.
pub proof fn modes_own_what_they_learn(c: Coordinator, state: State, i: usize)
    ensures
        state.active == Some(ModeKind::Special(i)) && i < c.settings.special_schemas@.len()
            ==> c.data_schema_of(state) == Some(c.settings.special_schemas@[i as int]@),
        state.active == Some(ModeKind::Special(i)) && i >= c.settings.special_schemas@.len()
            ==> c.data_schema_of(state) is None,
        state.active == Some(ModeKind::TempEnglish) ==> c.data_schema_of(state) == Some(
            "english"@,
        ),
        !(state.active == Some(ModeKind::TempEnglish)) && !(state.active is Some && state.active->0
            is Special) ==> c.data_schema_of(state) is None,
{
}

/// Operations apply to the candidates that are shown: in ordinary input by the code adjustments
/// are read by, in a special mode by what is typed there, even where that is nothing yet, and
/// in temporary English in lower case. They apply to nothing without candidates, and in modes
/// that own no words.
pub proof fn operations_apply_to_what_is_shown(c: Coordinator, state: State, i: usize)
    ensures
        state.candidates@.len() == 0 ==> c.op_scope(state) is None,
        state.active == Some(ModeKind::TempPinyin) || state.active == Some(ModeKind::Url)
            || state.active == Some(ModeKind::AuxCode) || state.active == Some(ModeKind::Mix(i))
            ==> c.op_scope(state) is None,
        state.active is None && state.candidates@.len() > 0 && shadow_code_model(state).len() > 0
            ==> c.op_scope(state) == Some(
            ScopeModel {
                schema: c.engine.active_schema@,
                code: shadow_code_model(state),
                raw_code: state.input_buffer@,
                special: false,
            },
        ),
        state.active is None && shadow_code_model(state).len() == 0 ==> c.op_scope(state) is None,
        state.active == Some(ModeKind::Special(i)) && i < c.settings.special_schemas@.len()
            && state.candidates@.len() > 0 ==> c.op_scope(state) == Some(
            ScopeModel {
                schema: c.settings.special_schemas@[i as int]@,
                code: state.special_buffer@,
                raw_code: state.special_buffer@,
                special: true,
            },
        ),
        state.active == Some(ModeKind::Special(i)) && i >= c.settings.special_schemas@.len()
            ==> c.op_scope(state) is None,
        state.active == Some(ModeKind::RareChar) && state.candidates@.len() > 0
            && state.special_buffer@.len() > 0 ==> c.op_scope(state) == Some(
            ScopeModel {
                schema: c.engine.active_schema@,
                code: state.special_buffer@,
                raw_code: state.special_buffer@,
                special: false,
            },
        ),
        state.active == Some(ModeKind::TempEnglish) && state.candidates@.len() > 0 && lowercase(
            state.temp_english_buffer@,
        ).len() > 0 ==> c.op_scope(state) == Some(
            ScopeModel {
                schema: "english"@,
                code: lowercase(state.temp_english_buffer@),
                raw_code: state.temp_english_buffer@,
                special: false,
            },
        ),
{
}

/// Pinning fixes the word where it goes: at the top, one place up or one place down, without
/// leaving the list. Deleting names the candidate, under the keys as they were typed; resetting
/// names the word. Without a store nothing is written.
pub proof fn operations_write_where_the_word_goes(
    c: Coordinator,
    op: CandidateOp,
    cand: CandidateModel,
    idx: int,
    last: int,
    scope: ScopeModel,
)
    requires
        0 <= idx <= last <= usize::MAX,
    ensures
        !c.engine.has_store ==> c.op_write(op, cand, idx, last, scope) is None,
        c.engine.has_store && op == CandidateOp::MoveTop ==> (c.op_write(op, cand, idx, last, scope)
            matches Some(WriteModel::Pin { schema, code, word, cand_id, position }) && position == 0
            && word == cand.text && code == scope.code && schema == scope.schema),
        c.engine.has_store && op == CandidateOp::MoveUp ==> (c.op_write(op, cand, idx, last, scope)
            matches Some(WriteModel::Pin { schema, code, word, cand_id, position }) && (idx > 0
            ==> position + 1 == idx) && (idx == 0 ==> position == 0) && word == cand.text && code
            == scope.code && schema == scope.schema),
        c.engine.has_store && op == CandidateOp::MoveDown ==> (c.op_write(
            op,
            cand,
            idx,
            last,
            scope,
        ) matches Some(WriteModel::Pin { schema, code, word, cand_id, position }) && (idx < last
            ==> position == idx + 1) && (idx == last ==> position == idx) && word == cand.text
            && code == scope.code && schema == scope.schema),
        c.engine.has_store && op == CandidateOp::Delete ==> (c.op_write(op, cand, idx, last, scope)
            matches Some(WriteModel::Delete { schema, code, index }) && index == idx && code
            == scope.raw_code && schema == scope.schema),
        c.engine.has_store && op == CandidateOp::Reset ==> (c.op_write(op, cand, idx, last, scope)
            matches Some(WriteModel::Unpin { schema, code, word, cand_id }) && word == cand.text
            && code == scope.code && schema == scope.schema),
        op == CandidateOp::ToggleCommon ==> c.op_write(op, cand, idx, last, scope) is None,
{
}

/// A word is pinned and unpinned under one name: its identity, where it has one.
pub proof fn words_are_unpinned_as_they_were_pinned(
    c: Coordinator,
    cand: CandidateModel,
    idx: int,
    last: int,
    scope: ScopeModel,
)
    requires
        c.engine.has_store,
    ensures
        c.op_write(CandidateOp::MoveTop, cand, idx, last, scope) matches Some(
            WriteModel::Pin { schema, code, word, cand_id, position },
        ) && c.op_write(CandidateOp::Reset, cand, idx, last, scope) == Some(
            WriteModel::Unpin { schema, code, word, cand_id },
        ) && (cand_id is Some <==> cand.id.len() > 0) && (cand_id is Some ==> cand_id->0 == cand.id),
{
}

/// A member of an open group is left alone; pinyin candidates can be pinned to the top but not
/// moved, unless they are commands; what stands first cannot go higher. Nothing else is
/// refused.
pub proof fn operations_are_refused_where_places_shift(
    op: CandidateOp,
    cand: CandidateModel,
    idx: int,
    group_member: bool,
    engine_type: Option<EngineType>,
)
    ensures
        group_member ==> Coordinator::op_refused(op, cand, idx, group_member, engine_type),
        op == CandidateOp::MoveTop && idx == 0 ==> Coordinator::op_refused(
            op,
            cand,
            idx,
            group_member,
            engine_type,
        ),
        op == CandidateOp::MoveTop && idx > 0 && !group_member ==> !Coordinator::op_refused(
            op,
            cand,
            idx,
            group_member,
            engine_type,
        ),
        (op == CandidateOp::MoveUp || op == CandidateOp::MoveDown) && !group_member ==> (
        Coordinator::op_refused(op, cand, idx, group_member, engine_type) <==> !cand.is_command
            && engine_type == Some(EngineType::Pinyin)),
        (op == CandidateOp::Delete || op == CandidateOp::Reset || op == CandidateOp::ToggleCommon)
            && !group_member ==> !Coordinator::op_refused(
            op,
            cand,
            idx,
            group_member,
            engine_type,
        ),
{
}

/// A phrase is switched off by its full code and its unexpanded text, a word of the user's is
/// removed from the layers that hold it, and any other word is hidden for the keys. Without a
/// store nothing is deleted.
pub proof fn candidates_are_deleted_by_their_source(
    c: Coordinator,
    code: Seq<char>,
    cand: CandidateModel,
)
    ensures
        !c.engine.has_store ==> c.delete_plan(code, cand) == DeleteModel::Nothing,
        c.engine.has_store && cand.is_phrase ==> (c.delete_plan(code, cand)
            matches DeleteModel::DisablePhrase { code: k, text } && (cand.group_code.len() > 0
            ==> k == cand.group_code) && (cand.group_code.len() == 0 ==> k == code) && (
        cand.phrase_template.len() > 0 ==> text == cand.phrase_template) && (
        cand.phrase_template.len() == 0 ==> text == cand.text)),
        c.engine.has_store && !cand.is_phrase && (cand.is_user_dict || cand.is_temp_dict) ==> (
        c.delete_plan(code, cand) matches DeleteModel::RemoveWords { codes, user, temp } && user
            == cand.is_user_dict && temp == cand.is_temp_dict && codes == record_codes(cand, code)),
        c.engine.has_store && !cand.is_phrase && !cand.is_user_dict && !cand.is_temp_dict
            ==> c.delete_plan(code, cand) == (DeleteModel::Hide { code, text: cand.text }),
{
}

/// A digit with the modifiers that are set deletes or pins its row, counted from 0; deleting
/// comes first, and without the control key nothing does.
pub proof fn hotkeys_delete_and_pin_their_row(c: Coordinator, data: KeyEventData)
    ensures
        !data.mods.ctrl ==> c.hotkey_op(data) is None,
        row_of_digit(data.key_code) == 0 ==> c.hotkey_op(data) is None,
        data.mods.ctrl && row_of_digit(data.key_code) > 0 && c.settings.delete_candidate == Some(
            data.mods,
        ) ==> (c.hotkey_op(data) matches Some((op, row)) && op == CandidateOp::Delete && row + 1
            == row_of_digit(data.key_code)),
        data.mods.ctrl && row_of_digit(data.key_code) > 0 && c.settings.delete_candidate != Some(
            data.mods,
        ) && c.settings.pin_candidate == Some(data.mods) ==> (c.hotkey_op(data) matches Some(
            (op, row),
        ) && op == CandidateOp::MoveTop && row + 1 == row_of_digit(data.key_code)),
        c.settings.delete_candidate != Some(data.mods) && c.settings.pin_candidate != Some(
            data.mods,
        ) ==> c.hotkey_op(data) is None,
{
}

} // verus!

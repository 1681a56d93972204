//! Operations on candidates, and the codes and schemas that choices are kept under.

use wind_coordinator::action::{Effect, Outbox};
use wind_coordinator::candidate::{Candidate, CandidateSource};
use wind_coordinator::choosing::SelectStep;
use wind_coordinator::coordinator::{
    AutoLearnSettings, AutoPhraseSettings, CodetableSettings, Coordinator, EngineFacts, EngineType,
    Settings, TopCommitMode,
};
use wind_coordinator::keys::{KeyEventData, KeyMods};
use wind_coordinator::ops::{code_to_remove, CandidateOp, DeletePlan, OpStep, OpWrite};
use wind_coordinator::state::{ModeKind, State};

fn engine() -> EngineFacts {
    EngineFacts {
        active_schema: "pinyin".to_string(),
        schema_type: None,
        engine_type: None,
        is_pinyin: false,
        is_codetable: false,
        is_english: false,
        max_code_length: 0,
        ignores_weight: false,
        english_code_by_input: false,
        mixed_primary: None,
        codetable: CodetableSettings {
            single_code_input: false,
            single_code_complete: false,
            auto_commit_at_full: false,
            auto_commit_min_len: 0,
            z_key_repeat: false,
            auto_phrase: AutoPhraseSettings {
                enabled: false,
                min_phrase_len: 2,
                max_phrase_len: 4,
                promote_count: 0,
                idle_timeout_ms: 0,
                temp_max_entries: 0,
            },
        },
        auto_learn: AutoLearnSettings {
            enabled: false,
            min_word_length: 2,
            max_word_length: 0,
            promote_count: 0,
        },
        has_store: true,
    }
}

fn settings() -> Settings {
    Settings {
        per_page: 9,
        per_page_extended: 0,
        overflow_number_key: "ignore".to_string(),
        overflow_select_key: "ignore".to_string(),
        overflow_select_char_key: "ignore".to_string(),
        top_commit_mode: TopCommitMode::PreConfirm,
        deferred_ms: 150,
        english_raw_candidate: false,
        english_case_variants: false,
        english_commit_space: false,
        phrase_min_prefix: 2,
        assoc_enabled: false,
        assoc_continuous: false,
        assoc_hide_after_ms: 3000,
        assoc_hint: "联想输入".to_string(),
        preedit_inline: true,
        assoc_enter_cancels_only: false,
        assoc_backspace_cancels_only: true,
        delete_candidate: None,
        pin_candidate: None,
        special_schemas: Vec::new(),
    }
}

fn plain_coord() -> Coordinator {
    Coordinator::new(settings(), engine())
}

fn cand(text: &str, code: &str, source: CandidateSource) -> Candidate {
    Candidate { text: text.into(), code: code.into(), source, ..Default::default() }
}

/// A composition of `buf` with three candidates.
fn typing(buf: &str) -> State {
    let mut st = State::new();
    st.chinese_mode = true;
    st.input_buffer = buf.to_string();
    st.preedit = buf.to_string();
    st.candidates = vec![
        cand("甲", "x", CandidateSource::CodeTable),
        cand("乙", "xy", CandidateSource::CodeTable),
        Candidate { id: "phrase:x:t".to_string(), ..cand("丙", "x", CandidateSource::Phrase) },
    ];
    st
}

fn mods(ctrl: bool, shift: bool, alt: bool) -> KeyMods {
    KeyMods { ctrl, shift, alt }
}

fn recorded(out: &Outbox) -> Vec<(String, String)> {
    out.pending
        .iter()
        .filter_map(|e| match e {
            Effect::RecordSelection { code, text, .. } => Some((code.clone(), text.clone())),
            _ => None,
        })
        .collect()
}

/// Code-table choices are recorded under the input, pinyin ones under the code of the
/// candidate, whichever way the candidate is chosen.
#[test]
fn every_record_selection_call_goes_through_freq_code() {
    let c = plain_coord();
    let picks = [
        (cand("有", "def", CandidateSource::CodeTable), "de", "de"),
        (cand("东西", "dongxi", CandidateSource::Pinyin), "d", "dongxi"),
        (cand("hello", "hello", CandidateSource::English), "hel", "hello"),
    ];
    for (cand, buf, code) in picks {
        let mut st = typing(buf);
        st.candidates = vec![cand.clone()];
        let mut out = Outbox::new();
        let _ = c.commit_selected(&mut st, &cand, 0, &mut out);
        assert_eq!(recorded(&out), vec![(code.to_string(), cand.text.clone())]);

        let mut st = typing(buf);
        st.candidates = vec![cand.clone()];
        let mut out = Outbox::new();
        let (_, taken) = c.take_committed_with_highlight(&mut st, &mut out);
        assert_eq!(taken, Some(0));
        assert_eq!(recorded(&out), vec![(code.to_string(), cand.text.clone())]);

        let mut st = typing(buf);
        st.candidates = vec![cand.clone()];
        st.active = Some(ModeKind::TempPinyin);
        let mut out = Outbox::new();
        match c.select_candidate_at(&mut st, 0, &None, &mut out) {
            SelectStep::CommitOverlay { index: 0, code: kept } => {
                assert_eq!(kept, code);
                c.finish_overlay_select(&mut st, &cand, &kept, &cand.text, &mut out);
            }
            other => panic!("{other:?}"),
        }
        assert_eq!(recorded(&out), vec![(code.to_string(), cand.text.clone())]);

        assert_eq!(Coordinator::freq_code_with(buf, &cand, false), code);
        assert_eq!(c.freq_code(buf, &cand), code);
    }
    let mut st = typing("aaaab");
    let mut out = Outbox::new();
    Coordinator::begin_top_commit(
        &mut st,
        "aaaa",
        "工",
        "b",
        CandidateSource::CodeTable,
        &mut out,
    );
    assert_eq!(recorded(&out), vec![("aaaa".to_string(), "工".to_string())]);
    assert_eq!(st.input_buffer, "b");
}

/// The schema of an operation is the schema that owns what is learned.
#[test]
fn schema_scoped_reads_writes_and_debug_share_one_source() {
    let mut c = plain_coord();
    c.settings.special_schemas = vec!["qsym".to_string()];
    let mut st = typing("x");
    assert_eq!(c.effective_data_schema(&st), None);
    assert_eq!(c.candidate_op_scope(&st, None).unwrap().schema, "pinyin");
    st.active = Some(ModeKind::Special(0));
    st.special_buffer = "s".to_string();
    assert_eq!(c.effective_data_schema(&st).as_deref(), Some("qsym"));
    let scope = c.candidate_op_scope(&st, Some(EngineType::CodeTable)).unwrap();
    assert_eq!((scope.schema.as_str(), scope.code.as_str(), scope.special), ("qsym", "s", true));
    assert_eq!(scope.engine_type, Some(EngineType::CodeTable));
    st.active = Some(ModeKind::Special(1));
    assert!(c.candidate_op_scope(&st, None).is_none());
    st.active = Some(ModeKind::TempEnglish);
    assert_eq!(c.effective_data_schema(&st).as_deref(), Some("english"));
}

/// Adjustments are written under the code they are read by.
#[test]
fn every_shadow_read_goes_through_normalized_code() {
    let mut c = plain_coord();
    c.state = typing("hc");
    c.state.shadow_code = "hao".to_string();
    assert_eq!(
        c.debug_candidate_op_scope(),
        Some(("pinyin".to_string(), Coordinator::shadow_code_of(&c.state)))
    );
    match c.debug_candidate_op(CandidateOp::MoveTop, 1, false, None) {
        OpStep::Apply { write: Some(OpWrite::Pin { code, word, position, .. }), .. } => {
            assert_eq!((code.as_str(), word.as_str(), position), ("hao", "乙", 0));
        }
        other => panic!("{other:?}"),
    }
}

#[test]
fn temporary_english_is_kept_in_lower_case() {
    let mut c = plain_coord();
    c.state = typing("");
    c.state.active = Some(ModeKind::TempEnglish);
    c.state.temp_english_buffer = "HeLLo".to_string();
    assert_eq!(
        c.debug_candidate_op_scope(),
        Some(("english".to_string(), "hello".to_string()))
    );
    c.state.temp_english_buffer = "ÀÉ".to_string();
    assert_eq!(c.debug_candidate_op_scope().unwrap().1, "àé");
}

#[test]
fn operations_need_candidates_and_a_code() {
    let mut c = plain_coord();
    c.state = typing("");
    assert_eq!(c.debug_candidate_op_scope(), None);
    c.state.active = Some(ModeKind::Url);
    c.state.input_buffer = "x".to_string();
    assert_eq!(c.debug_candidate_op_scope(), None);
    c.state.active = Some(ModeKind::RareChar);
    c.state.special_buffer = "q".to_string();
    assert_eq!(c.debug_candidate_op_scope(), Some(("pinyin".to_string(), "q".to_string())));
    c.state.candidates.clear();
    assert_eq!(c.debug_candidate_op_scope(), None);
    assert!(matches!(c.debug_candidate_op(CandidateOp::Delete, 0, false, None), OpStep::Nothing));
}

#[test]
fn candidates_move_one_place_at_a_time() {
    let mut c = plain_coord();
    c.state = typing("x");
    let place = |c: &Coordinator, op, row| match c.debug_candidate_op(op, row, false, None) {
        OpStep::Apply { write: Some(OpWrite::Pin { position, .. }), special: false } => Some(position),
        OpStep::Nothing => None,
        other => panic!("{other:?}"),
    };
    assert_eq!(place(&c, CandidateOp::MoveUp, 2), Some(1));
    assert_eq!(place(&c, CandidateOp::MoveUp, 0), Some(0));
    assert_eq!(place(&c, CandidateOp::MoveDown, 1), Some(2));
    assert_eq!(place(&c, CandidateOp::MoveDown, 2), Some(2));
    assert_eq!(place(&c, CandidateOp::MoveTop, 2), Some(0));
    assert_eq!(place(&c, CandidateOp::MoveTop, 0), None, "it is there already");
    assert_eq!(place(&c, CandidateOp::MoveTop, 3), None, "no such row");
    c.engine.engine_type = Some(EngineType::Pinyin);
    assert_eq!(place(&c, CandidateOp::MoveUp, 2), None, "pinyin places shift");
    assert_eq!(place(&c, CandidateOp::MoveTop, 2), Some(0));
    c.state.candidates[2].is_command = true;
    assert_eq!(place(&c, CandidateOp::MoveUp, 2), Some(1));
}

#[test]
fn the_other_operations() {
    let mut c = plain_coord();
    c.state = typing("x");
    match c.debug_candidate_op(CandidateOp::Reset, 2, false, None) {
        OpStep::Apply { write: Some(OpWrite::Unpin { cand_id, word, .. }), .. } => {
            assert_eq!((cand_id.as_deref(), word.as_str()), (Some("phrase:x:t"), "丙"));
        }
        other => panic!("{other:?}"),
    }
    match c.debug_candidate_op(CandidateOp::Delete, 1, false, None) {
        OpStep::Apply { write: Some(OpWrite::Delete { code, index, .. }), .. } => {
            assert_eq!((code.as_str(), index), ("x", 1));
        }
        other => panic!("{other:?}"),
    }
    match c.debug_candidate_op(CandidateOp::ToggleCommon, 0, true, None) {
        OpStep::ToggleCommon { text } => assert_eq!(text, "甲"),
        other => panic!("{other:?}"),
    }
    assert!(matches!(
        c.debug_candidate_op(CandidateOp::Delete, 1, true, None),
        OpStep::Nothing
    ));
    c.engine.has_store = false;
    assert!(matches!(
        c.debug_candidate_op(CandidateOp::Delete, 1, false, None),
        OpStep::Apply { write: None, special: false }
    ));
}

#[test]
fn words_are_deleted_by_their_source() {
    let mut c = plain_coord();
    let phrase = Candidate {
        is_phrase: true,
        group_code: "date".to_string(),
        phrase_template: "$Y".to_string(),
        ..cand("2026", "d", CandidateSource::Phrase)
    };
    match c.delete_candidate_by_source("d", &phrase) {
        DeletePlan::DisablePhrase { code, text } => {
            assert_eq!((code.as_str(), text.as_str()), ("date", "$Y"));
        }
        other => panic!("{other:?}"),
    }
    let word = Candidate {
        is_user_dict: true,
        store_code: Some("nihao".to_string()),
        merged_codes: vec!["nihao".to_string(), "nh".to_string()],
        ..cand("你好", "nihao", CandidateSource::Pinyin)
    };
    match c.delete_candidate_by_source("nih", &word) {
        DeletePlan::RemoveWords { codes, user, temp } => {
            assert_eq!(codes, vec!["nihao", "nh", "nih"]);
            assert!(user && !temp);
        }
        other => panic!("{other:?}"),
    }
    match c.delete_candidate_by_source("x", &cand("工", "x", CandidateSource::CodeTable)) {
        DeletePlan::Hide { code, text } => assert_eq!((code.as_str(), text.as_str()), ("x", "工")),
        other => panic!("{other:?}"),
    }
    c.engine.has_store = false;
    assert!(matches!(c.delete_candidate_by_source("x", &word), DeletePlan::Nothing));
    let codes: Vec<String> = vec!["a".into(), "b".into(), "c".into()];
    assert_eq!(code_to_remove(&codes, &vec![false, true, true]), Some(1));
    assert_eq!(code_to_remove(&codes, &vec![false, false, false]), None);
}

#[test]
fn digit_keys_fire_under_exactly_their_modifiers() {
    let mut c = plain_coord();
    c.settings.delete_candidate = Some(mods(true, true, false));
    c.settings.pin_candidate = Some(mods(true, false, false));
    let st = typing("x");
    let key = |code: u32, m: KeyMods| KeyEventData { key_code: code, mods: m };
    let hit = |k: &KeyEventData| c.handle_candidate_action_hotkey(&st, k);
    assert_eq!(hit(&key(0x32, mods(true, false, false))), Some((CandidateOp::MoveTop, 1)));
    assert_eq!(hit(&key(0x32, mods(true, true, false))), Some((CandidateOp::Delete, 1)));
    assert_eq!(hit(&key(0x30, mods(true, false, false))), Some((CandidateOp::MoveTop, 9)));
    assert_eq!(hit(&key(0x32, mods(true, false, true))), None);
    assert_eq!(hit(&key(0x32, mods(false, false, false))), None);
    assert_eq!(hit(&key(0x41, mods(true, false, false))), None);
    let mut english = typing("x");
    english.chinese_mode = false;
    assert_eq!(
        c.handle_candidate_action_hotkey(&english, &key(0x32, mods(true, false, false))),
        None
    );
    let wide = Some(mods(true, true, false));
    let k = key(0x33, mods(true, false, false));
    assert_eq!(Coordinator::match_candidate_action_key(wide, &k), 0);
    assert_eq!(Coordinator::match_candidate_action_key(Some(k.mods), &k), 3);
}

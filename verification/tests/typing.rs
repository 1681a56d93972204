//! Typing: what is chosen, what is shown, what is learned, and what an input comes to.

use wind_coordinator::action::{Effect, KeyAction, Outbox};
use wind_coordinator::assembly::{
    Assembly, ConvertResult, DictExpansion, FilterOutcome, InputOutcome, OutcomeFacts, PhraseHit,
};
use wind_coordinator::building::{BuildReply, BuildStage, Gathered};
use wind_coordinator::candidate::{Candidate, CandidateSource, MatchRank};
use wind_coordinator::choosing::{overflow_digit, CharChoice, ChoiceStep, SelectStep};
use wind_coordinator::coordinator::{
    AutoLearnSettings, AutoPhraseSettings, CodetableSettings, Coordinator, EngineFacts, EngineType,
    Settings, TopCommitMode, LEARN_ADD_WEIGHT,
};
use wind_coordinator::freq::FreqScope;
use wind_coordinator::keys::{VK_BACKTICK, VK_LEFT, VK_QUOTE};
use wind_coordinator::learning::{FlushReplies, FlushStep, FreqPolicy, LearnReply};
use wind_coordinator::selection::{CommitReplies, CommitStep};
use wind_coordinator::state::{ModeKind, Seg, State};
use wind_coordinator::text::{decimal_text, hex_text, split, trim, utf16_total};
use wind_coordinator::view::{
    expand_s2t_variants, manual_separator_key_of, offset_of_ordinal, overlay_caret,
    overlay_cursor_key, PageChoice, SeparatorFacts, VariantReply,
};

fn engine() -> EngineFacts {
    EngineFacts {
        active_schema: "pinyin".to_string(),
        schema_type: None,
        engine_type: None,
        is_pinyin: false,
        is_codetable: false,
        is_english: false,
        max_code_length: 0,
        ignores_weight: false,
        english_code_by_input: false,
        mixed_primary: None,
        codetable: CodetableSettings {
            single_code_input: false,
            single_code_complete: false,
            auto_commit_at_full: false,
            auto_commit_min_len: 0,
            z_key_repeat: false,
            auto_phrase: AutoPhraseSettings {
                enabled: false,
                min_phrase_len: 2,
                max_phrase_len: 4,
                promote_count: 0,
                idle_timeout_ms: 0,
                temp_max_entries: 0,
            },
        },
        auto_learn: AutoLearnSettings {
            enabled: false,
            min_word_length: 2,
            max_word_length: 0,
            promote_count: 0,
        },
        has_store: true,
    }
}

fn settings() -> Settings {
    Settings {
        per_page: 9,
        per_page_extended: 0,
        overflow_number_key: "ignore".to_string(),
        overflow_select_key: "ignore".to_string(),
        overflow_select_char_key: "ignore".to_string(),
        top_commit_mode: TopCommitMode::PreConfirm,
        deferred_ms: 150,
        english_raw_candidate: false,
        english_case_variants: false,
        english_commit_space: false,
        phrase_min_prefix: 2,
        assoc_enabled: false,
        assoc_continuous: false,
        assoc_hide_after_ms: 3000,
        assoc_hint: "联想输入".to_string(),
        preedit_inline: true,
        assoc_enter_cancels_only: false,
        assoc_backspace_cancels_only: true,
        delete_candidate: None,
        pin_candidate: None,
        special_schemas: Vec::new(),
    }
}

fn plain_coord() -> Coordinator {
    Coordinator::new(settings(), engine())
}

fn cand(text: &str, code: &str, source: CandidateSource) -> Candidate {
    Candidate { text: text.into(), code: code.into(), source, ..Default::default() }
}

fn typing(buf: &str, list: Vec<Candidate>) -> State {
    let mut st = State::new();
    st.chinese_mode = true;
    st.input_buffer = buf.to_string();
    st.input_cursor_pos = buf.len();
    st.preedit = buf.to_string();
    st.candidates = list;
    st
}

fn texts(list: &[Candidate]) -> Vec<&str> {
    list.iter().map(|c| c.text.as_str()).collect()
}

#[test]
fn a_choice_is_taken_back_whole() {
    let c = plain_coord();
    let pick = Candidate { consumed_length: 2, ..cand("你", "ni", CandidateSource::Pinyin) };
    let mut st = typing("nihao", vec![pick.clone()]);
    let mut out = Outbox::new();
    let step = c.commit_selected(&mut st, &pick, 0, &mut out);
    assert!(matches!(step, CommitStep::Requery { group: false }));
    assert_eq!((st.committed_text.as_str(), st.input_buffer.as_str()), ("你", "hao"));
    assert_eq!(st.input_cursor_pos, 3);
    assert!(Coordinator::pop_committed_seg(&mut st));
    assert_eq!((st.committed_text.as_str(), st.input_buffer.as_str()), ("", "nihao"));
    assert!(st.committed_segs.is_empty());
    st.preedit = "ni'hao".to_string();
    let mut out = Outbox::new();
    match Coordinator::complete_pop(&st, true, 6, &mut out) {
        KeyAction::UpdateComposition { text, caret_pos } => {
            assert_eq!((text.as_str(), caret_pos), ("ni'hao", 6))
        }
        other => panic!("{other:?}"),
    }
    assert!(matches!(out.pending[..], [Effect::UiUpdate]));
    assert!(!Coordinator::pop_committed_seg(&mut st));
    assert!(matches!(Coordinator::complete_pop(&st, false, 0, &mut out), KeyAction::Consumed));
    assert_eq!(out.pending.len(), 1);
}

#[test]
fn a_whole_choice_lands() {
    let mut c = plain_coord();
    let pick = cand("你好", "nihao", CandidateSource::Pinyin);
    let mut st = typing("nihao", vec![pick.clone()]);
    st.committed_text = "说".to_string();
    let mut out = Outbox::new();
    let to_convert = match c.commit_selected(&mut st, &pick, 2, &mut out) {
        CommitStep::Settle { to_convert, code, .. } => {
            assert_eq!(code, "nihao");
            to_convert
        }
        other => panic!("{other:?}"),
    };
    assert_eq!(to_convert, "说你好");
    assert!(out
        .pending
        .iter()
        .any(|e| matches!(e, Effect::RecordCommit { position: 2, code_len: 5, .. })));
    let replies = CommitReplies { converted: "說你好".to_string(), hits: Vec::new() };
    match c.settle_commit(&mut st, &pick, &replies, &mut out) {
        KeyAction::InsertText { text, has_new_composition: false, .. } => assert_eq!(text, "說你好"),
        other => panic!("{other:?}"),
    }
    assert!(st.input_buffer.is_empty() && st.candidates.is_empty());
}

#[test]
fn groups_and_commands_are_not_committed() {
    let c = plain_coord();
    let group = Candidate {
        is_group: true,
        group_code: "arrx".to_string(),
        ..cand("箭头", "arrx", CandidateSource::CodeTable)
    };
    let mut st = typing("arr", vec![]);
    let mut out = Outbox::new();
    assert!(matches!(
        c.commit_selected(&mut st, &group, 0, &mut out),
        CommitStep::Requery { group: true }
    ));
    assert_eq!((st.input_buffer.as_str(), st.input_cursor_pos), ("arrx", 4));
    let command = Candidate {
        is_command: true,
        phrase_template: "$CC(x)".to_string(),
        ..cand("命令", "", CandidateSource::Phrase)
    };
    match c.commit_selected(&mut st, &command, 0, &mut out) {
        CommitStep::Command { src, input } => {
            assert_eq!((src.as_str(), input.as_str()), ("$CC(x)", "arrx"))
        }
        other => panic!("{other:?}"),
    }
    assert!(out.pending.is_empty());
}

#[test]
fn the_next_composition_waits_where_asked() {
    let mut c = plain_coord();
    assert!(matches!(
        c.commit_then_new_composition("甲".into(), String::new()),
        KeyAction::InsertText { new_composition: None, has_new_composition: false, .. }
    ));
    match c.commit_then_new_composition("甲".into(), "b".into()) {
        KeyAction::InsertText { new_composition, has_new_composition: true, .. } => {
            assert_eq!(new_composition.as_deref(), Some("b"))
        }
        other => panic!("{other:?}"),
    }
    c.settings.top_commit_mode = TopCommitMode::DirectCommit;
    match c.commit_then_new_composition("甲".into(), "b".into()) {
        KeyAction::CommitThenDeferComposition { commit_text, deferred_composition, timeout_ms } => {
            assert_eq!(
                (commit_text.as_str(), deferred_composition.as_str(), timeout_ms),
                ("甲", "b", 150)
            )
        }
        other => panic!("{other:?}"),
    }
    match Coordinator::append_to_insert_text(Coordinator::commit_action("甲".into(), true), "1") {
        KeyAction::InsertText { text, .. } => assert_eq!(text, "甲1"),
        other => panic!("{other:?}"),
    }
}

#[test]
fn digits_choose_rows_and_overflow_by_rule() {
    let mut c = plain_coord();
    c.settings.per_page = 2;
    let list = || {
        vec![
            cand("甲", "", CandidateSource::CodeTable),
            cand("乙", "", CandidateSource::CodeTable),
            cand("丙", "", CandidateSource::CodeTable),
        ]
    };
    let mut st = typing("x", list());
    st.current_page = 1;
    assert!(matches!(
        c.handle_number_key_select(&st, 1, false),
        ChoiceStep::Commit { index: 2, position: 0, .. }
    ));
    assert!(matches!(
        c.handle_number_key_select(&st, 2, false),
        ChoiceStep::Reply(KeyAction::Consumed)
    ));
    c.settings.overflow_number_key = "commit".to_string();
    match c.handle_number_key_select(&st, 2, false) {
        ChoiceStep::Commit { index: 2, position: 0, extra } => assert_eq!(extra, ""),
        other => panic!("{other:?}"),
    }
    c.settings.overflow_number_key = "commit_and_input".to_string();
    match c.handle_number_key_select(&st, 2, false) {
        ChoiceStep::Commit { index: 2, position: 0, extra } => assert_eq!(extra, "2"),
        other => panic!("{other:?}"),
    }
    st.full_width = true;
    match c.handle_number_key_select(&st, 12, false) {
        ChoiceStep::Commit { index: 2, position: 0, extra } => assert_eq!(extra, "２"),
        other => panic!("{other:?}"),
    }
    match c.handle_number_key_select(&st, 10, true) {
        ChoiceStep::Commit { index: 2, position: 0, extra } => assert_eq!(extra, "0"),
        other => panic!("{other:?}"),
    }
    let wide: String = (0..10).map(|d| overflow_digit(d, true)).collect();
    assert_eq!(wide, "０１２３４５６７８９");
    st.candidates.clear();
    st.current_page = 0;
    assert!(matches!(
        c.handle_overflow_number_key(&st, 2, false),
        ChoiceStep::Reply(KeyAction::Consumed)
    ));
}

#[test]
fn a_character_of_a_word_is_chosen() {
    let c = plain_coord();
    let st = typing("nihao", vec![cand("你好", "nihao", CandidateSource::Pinyin)]);
    let mut out = Outbox::new();
    match c.handle_select_char(&st, 1, &mut out) {
        CharChoice::Take { to_convert } => assert_eq!(to_convert, "好"),
        other => panic!("{other:?}"),
    }
    assert!(matches!(c.handle_select_char(&st, 2, &mut out), CharChoice::Fail));
    let mut group = typing("x", vec![cand("组", "x", CandidateSource::Phrase)]);
    group.candidates[0].is_group = true;
    assert!(matches!(c.handle_select_char(&group, 0, &mut out), CharChoice::Swallow));
}

#[test]
fn the_mouse_runs_commands_at_once() {
    let mut c = plain_coord();
    c.state = typing(
        "co",
        vec![Candidate {
            is_command: true,
            phrase_template: "$CC(x)".to_string(),
            ..cand("命令", "", CandidateSource::Phrase)
        }],
    );
    let mut out = Outbox::new();
    assert!(matches!(c.debug_mouse_select(3, &None, &mut out), SelectStep::Ignore));
    assert!(matches!(c.debug_mouse_select(0, &None, &mut out), SelectStep::Ran));
    assert!(matches!(
        &out.pending[..],
        [Effect::UiHide, Effect::ClearHostComposition, Effect::SpawnCommand { src, input }]
            if src == "$CC(x)" && input == "co"
    ));
    assert_eq!(c.debug_candidate_count(), 0);
    assert!(c.state.input_buffer.is_empty());
}

#[test]
fn replies_without_a_key_are_pushed() {
    let mut out = Outbox::new();
    Coordinator::push_no_key_ctx_action(&Coordinator::commit_action("甲".into(), true), false, &mut out);
    Coordinator::push_no_key_ctx_action(
        &KeyAction::UpdateComposition { text: "ab".into(), caret_pos: 1 },
        true,
        &mut out,
    );
    Coordinator::push_no_key_ctx_action(&KeyAction::Consumed, true, &mut out);
    Coordinator::push_commit_text("", &mut out);
    Coordinator::push_commit_text("乙", &mut out);
    assert!(matches!(
        &out.pending[..],
        [
            Effect::PushText { chinese_mode: false, .. },
            Effect::PushComposition { caret_pos: 1, .. },
            Effect::PushText { chinese_mode: true, .. },
        ]
    ));
}

fn outcome_facts(intent: Option<&str>) -> OutcomeFacts {
    OutcomeFacts {
        intent: intent.map(|s| s.to_string()),
        should_clear: false,
        phrase_owns_code: false,
        first_command_text: None,
        longer_code: false,
        longer_phrase: false,
    }
}

#[test]
fn an_input_commits_what_is_shown_first() {
    let c = plain_coord();
    let list = || {
        vec![
            cand("工", "aaaa", CandidateSource::CodeTable),
            cand("共", "aaaa", CandidateSource::CodeTable),
        ]
    };
    let st = typing("aaaa", list());
    match c.input_outcome(&st, &outcome_facts(Some("共"))) {
        InputOutcome::AutoCommit(t) => assert_eq!(t, "工"),
        other => panic!("{other:?}"),
    }
    let gone = outcome_facts(Some("没有"));
    assert!(matches!(c.input_outcome(&st, &gone), InputOutcome::Normal));
    let owned = OutcomeFacts { phrase_owns_code: true, ..outcome_facts(Some("工")) };
    assert!(matches!(c.input_outcome(&st, &owned), InputOutcome::Normal));
    let mut pinyin_first = typing("aaaa", list());
    pinyin_first.candidates[0].source = CandidateSource::Pinyin;
    assert!(matches!(
        c.input_outcome(&pinyin_first, &outcome_facts(Some("工"))),
        InputOutcome::Normal
    ));
}

#[test]
fn a_fruitless_input_is_cleared() {
    let c = plain_coord();
    let clear = || OutcomeFacts { should_clear: true, ..outcome_facts(None) };
    assert!(matches!(c.input_outcome(&typing("nunl", vec![]), &clear()), InputOutcome::Clear));
    let part = Candidate { consumed_length: 3, ..cand("嫩", "nun", CandidateSource::Pinyin) };
    let st = typing("nunl", vec![part]);
    assert!(matches!(c.input_outcome(&st, &clear()), InputOutcome::Clear));
    let st = typing("nunl", vec![cand("地址", "nunl", CandidateSource::Phrase)]);
    assert!(matches!(c.input_outcome(&st, &clear()), InputOutcome::Normal));
}

#[test]
fn a_lone_phrase_commits_at_full_length() {
    let mut c = plain_coord();
    c.engine.codetable.auto_commit_at_full = true;
    c.engine.max_code_length = 4;
    let phrase = Candidate {
        is_phrase: true,
        ..cand("地址", "zzbd", CandidateSource::Phrase)
    };
    let st = typing("zzbd", vec![phrase.clone()]);
    let facts = OutcomeFacts { phrase_owns_code: true, ..outcome_facts(None) };
    match c.input_outcome(&st, &facts) {
        InputOutcome::AutoCommit(t) => assert_eq!(t, "地址"),
        other => panic!("{other:?}"),
    }
    let short = typing("zzb", vec![phrase.clone()]);
    assert!(matches!(c.input_outcome(&short, &facts), InputOutcome::Normal));
    let longer = OutcomeFacts { longer_phrase: true, ..outcome_facts(None) };
    assert!(matches!(c.input_outcome(&st, &longer), InputOutcome::Normal));
}

fn found(list: Vec<Candidate>) -> ConvertResult {
    ConvertResult {
        candidates: list,
        completion_hints: Vec::new(),
        preedit_pinyin: "ni'hao".to_string(),
        preedit_fullpinyin: String::new(),
        preedit_abbrev: String::new(),
        preedit_codetable: String::new(),
        shadow_code: "nihao".to_string(),
        should_commit: false,
        commit_text: String::new(),
        should_clear: false,
    }
}

fn phrase_hit(text: &str, weight: i32) -> PhraseHit {
    PhraseHit {
        text: text.to_string(),
        weight,
        command_src: None,
        source_text: text.to_string(),
        nav_code: None,
        comment: String::new(),
        is_system: false,
    }
}

#[test]
fn a_list_is_gathered_ordered_and_folded() {
    let c = plain_coord();
    let mut st = typing("nihao", vec![]);
    let list = vec![
        Candidate { weight: 1, ..cand("你号", "nihao", CandidateSource::Pinyin) },
        Candidate { weight: 9, ..cand("你好", "nihao", CandidateSource::Pinyin) },
        Candidate { weight: 5, ..cand("你好", "nh", CandidateSource::Pinyin) },
    ];
    let g = Gathered {
        result: found(list),
        expansions: vec![DictExpansion::Plain, DictExpansion::Plain, DictExpansion::Plain],
        hint_expansions: Vec::new(),
        phrases_open: true,
        exact: vec![phrase_hit("短语", 100)],
        prefix: Vec::new(),
    };
    let mut a: Assembly = c.gather_candidates(&mut st, g);
    assert_eq!(a.list.len(), 4);
    assert_eq!(a.engine_count, 3);
    assert_eq!(st.preedit_split_body, "ni'hao");
    assert_eq!(Coordinator::shadow_code_of(&st), "nihao");
    let ranks = vec![MatchRank { layer: 0, extra: 0, tier: 0 }; 4];
    let dropped = c.rank_candidates(&mut a, &None, &ranks, "nihao");
    assert_eq!(texts(&a.list), vec!["短语", "你好", "你号"]);
    assert_eq!(dropped.len(), 1);
    assert_eq!((dropped[0].into, dropped[0].dropped.code.as_str()), (1, "nh"));
    let n = c.finish_candidates(&mut st, &mut a, Vec::new());
    c.finish_update(&mut st, n, 3, false);
    assert!(st.has_more);
    assert_eq!(texts(&st.candidates), vec!["短语", "你好", "你号"]);
}

#[test]
fn a_list_is_built_stage_by_stage() {
    let mut c = plain_coord();
    c.engine.is_english = true;
    let old = vec![cand("旧", "x", CandidateSource::Pinyin)];
    let mut st = typing("hi", old);
    let g = Gathered {
        result: ConvertResult {
            should_clear: true,
            ..found(vec![
                Candidate { weight: 1, ..cand("乙", "hi", CandidateSource::Pinyin) },
                Candidate { weight: 9, ..cand("甲", "hi", CandidateSource::Pinyin) },
                Candidate { weight: 5, ..cand("甲", "h", CandidateSource::Pinyin) },
            ])
        },
        expansions: vec![DictExpansion::Plain, DictExpansion::Plain, DictExpansion::Plain],
        hint_expansions: Vec::new(),
        phrases_open: false,
        exact: Vec::new(),
        prefix: Vec::new(),
    };
    let b = c.begin_build(&mut st, g);
    assert_eq!((b.stage, b.input.as_str()), (BuildStage::Rank, "hi"));
    let (b, folded) = c.build_candidates(&mut st, b, BuildReply::Listed(Vec::new()));
    assert_eq!((b.stage, b.assembly.list.len(), folded.len()), (BuildStage::Rank, 3, 0));
    let ranks = vec![MatchRank { layer: 0, extra: 0, tier: 0 }; 3];
    let (b, folded) = c.build_candidates(&mut st, b, BuildReply::Ranked { verdicts: None, ranks });
    assert_eq!((b.stage, texts(&b.assembly.list)), (BuildStage::Absorb, vec!["甲", "乙"]));
    assert_eq!((folded.len(), folded[0].into), (1, 0));
    let list = b.assembly.list.clone();
    let (b, folded) = c.build_candidates(&mut st, b, BuildReply::Listed(list.clone()));
    assert_eq!((b.stage, folded.len()), (BuildStage::Scope, 0));
    let outcome = FilterOutcome { kept: list.clone(), filtered: Vec::new() };
    let (b, _) = c.build_candidates(&mut st, b, BuildReply::Scoped(outcome));
    assert_eq!(b.stage, BuildStage::Rerank);
    let front = vec![list[1].clone(), list[0].clone()];
    let (b, _) = c.build_candidates(&mut st, b, BuildReply::Listed(front));
    assert_eq!((b.stage, texts(&b.assembly.list)), (BuildStage::Adjust, vec!["乙", "甲"]));
    let reply = BuildReply::Adjusted { list: vec![list[0].clone()], pinned: true };
    let (b, _) = c.build_candidates(&mut st, b, reply);
    assert_eq!((b.stage, b.assembly.user_pinned), (BuildStage::Yield, true));
    let list = b.assembly.list.clone();
    let (b, _) = c.build_candidates(&mut st, b, BuildReply::Listed(list));
    assert_eq!(b.stage, BuildStage::Head);
    assert_eq!(texts(&st.candidates), vec!["旧"]);
    let head = vec![cand("hi", "hi", CandidateSource::English)];
    let (b, _) = c.build_candidates(&mut st, b, BuildReply::Listed(head));
    assert_eq!((b.stage, b.assembly.engine_count), (BuildStage::Done, 3));
    assert_eq!(texts(&st.candidates), vec!["hi", "甲"]);
    assert!(matches!(c.build_outcome(&st, b, outcome_facts(None)), InputOutcome::Normal));
}

#[test]
fn a_first_command_is_evaluated_with_the_input() {
    let c = plain_coord();
    let command = Candidate {
        is_command: true,
        phrase_template: "$CC(date)".to_string(),
        group_code: "coad".to_string(),
        ..cand("日期", "co", CandidateSource::CodeTable)
    };
    let st = typing("co", vec![command]);
    let request = c.first_command(&st).unwrap();
    assert_eq!((request.src.as_str(), request.ctx.input.as_str()), ("$CC(date)", "co"));
    let plain = typing("co", vec![cand("甲", "co", CandidateSource::CodeTable)]);
    assert!(c.first_command(&plain).is_none());
    assert!(c.first_command(&typing("co", vec![])).is_none());
}

#[test]
fn an_empty_list_is_completed_by_one_candidate() {
    let c = plain_coord();
    let mut st = typing("zz", vec![]);
    let hint = cand("补", "zzz", CandidateSource::CodeTable);
    let g = Gathered {
        result: ConvertResult {
            should_commit: true,
            commit_text: "补".to_string(),
            completion_hints: vec![hint.clone()],
            ..found(Vec::new())
        },
        expansions: Vec::new(),
        hint_expansions: vec![DictExpansion::Plain],
        phrases_open: false,
        exact: Vec::new(),
        prefix: Vec::new(),
    };
    let mut b = c.begin_build(&mut st, g);
    for stage in [BuildStage::Rank, BuildStage::Absorb, BuildStage::Scope, BuildStage::Rerank] {
        assert_eq!(b.stage, stage);
        let reply = match stage {
            BuildStage::Rank => BuildReply::Ranked { verdicts: None, ranks: Vec::new() },
            BuildStage::Scope => {
                BuildReply::Scoped(FilterOutcome { kept: Vec::new(), filtered: Vec::new() })
            }
            _ => BuildReply::Listed(Vec::new()),
        };
        b = c.build_candidates(&mut st, b, reply).0;
    }
    let none = BuildReply::Adjusted { list: Vec::new(), pinned: false };
    let (b, _) = c.build_candidates(&mut st, b, none);
    assert_eq!((b.stage, texts(&b.assembly.pool)), (BuildStage::PoolMark, vec!["补"]));
    let (b, _) = c.build_candidates(&mut st, b, BuildReply::Marked(None));
    assert_eq!((b.stage, b.assembly.pool.len()), (BuildStage::PoolScope, 1));
    let pool = vec![Candidate { text: "次".to_string(), ..hint.clone() }, hint];
    let outcome = FilterOutcome { kept: pool.clone(), filtered: Vec::new() };
    let (b, _) = c.build_candidates(&mut st, b, BuildReply::Scoped(outcome));
    assert_eq!((b.stage, b.assembly.pool.len()), (BuildStage::PoolAdjust, 2));
    let (b, _) =
        c.build_candidates(&mut st, b, BuildReply::Adjusted { list: pool, pinned: false });
    assert_eq!((b.stage, b.assembly.list.len()), (BuildStage::PoolRank, 0));
    let ranks = vec![MatchRank { layer: 0, extra: 0, tier: 0 }; 2];
    let (b, _) = c.build_candidates(&mut st, b, BuildReply::Measured(ranks));
    assert_eq!((b.stage, b.assembly.list.len()), (BuildStage::Yield, 1));
    let shown = b.assembly.list[0].text.clone();
    assert_eq!(shown, "次");
    let list = b.assembly.list.clone();
    let (b, _) = c.build_candidates(&mut st, b, BuildReply::Listed(list));
    let (b, _) = c.build_candidates(&mut st, b, BuildReply::Listed(Vec::new()));
    assert_eq!(b.stage, BuildStage::Done);
    assert_eq!(texts(&st.candidates), vec!["次"]);
    // What the engine would commit goes before what the list suggests.
    let facts = outcome_facts(Some("次"));
    assert!(matches!(c.build_outcome(&st, b, facts), InputOutcome::Normal));
}

#[test]
fn the_newest_commit_leads_a_bounded_history() {
    let mut c = plain_coord();
    for i in 0..300 {
        c.push_commit_history(&format!("词{i}"));
    }
    c.push_commit_history("");
    let h = c.recent_commits_snapshot();
    assert_eq!(h[0], "词299");
    assert_eq!(h.len(), 16);
    assert_eq!(h[15], "词284");
    c.push_commit_history("新");
    assert_eq!(c.recent_commits_snapshot().len(), 16);
    assert_eq!(c.recent_commits_snapshot()[0], "新");
}

#[test]
fn the_last_commit_is_repeated() {
    let mut c = plain_coord();
    c.engine.is_codetable = true;
    c.engine.engine_type = Some(EngineType::CodeTable);
    c.engine.codetable.z_key_repeat = true;
    c.push_commit_history("你好");
    assert_eq!(c.leading_letter_repeat_text("z", true, false).as_deref(), Some("你好"));
    assert_eq!(c.leading_letter_repeat_text("zz", true, false), None);
}

#[test]
fn words_are_learned_only_when_new() {
    let mut c = plain_coord();
    c.engine.is_codetable = true;
    c.engine.engine_type = Some(EngineType::CodeTable);
    c.engine.active_schema = "wubi86".to_string();
    c.engine.codetable.auto_phrase.enabled = true;
    let mut k = FlushReplies { ready: None, code: None, existing: None, schema: None, known: None };
    assert!(matches!(c.flush_auto_phrase(false, &k), FlushStep::Stop));
    assert!(matches!(c.flush_auto_phrase(true, &k), FlushStep::AskReady { .. }));
    k.ready = Some(false);
    assert!(matches!(c.flush_auto_phrase(true, &k), FlushStep::Warm { .. }));
    k.ready = Some(true);
    assert!(matches!(c.flush_auto_phrase(true, &k), FlushStep::AskCode { .. }));
    k.code = Some(Some("wqvb".to_string()));
    assert!(matches!(c.flush_auto_phrase(true, &k), FlushStep::AskExisting { .. }));
    k.existing = Some("abcd/wqvb".to_string());
    assert!(matches!(c.flush_auto_phrase(true, &k), FlushStep::Stop));
    k.existing = Some("abcd".to_string());
    assert!(matches!(c.flush_auto_phrase(true, &k), FlushStep::AskOwner));
    k.schema = Some(Some("wubi86".to_string()));
    assert!(matches!(c.flush_auto_phrase(true, &k), FlushStep::AskKnown { .. }));
    k.known = Some(false);
    match c.flush_auto_phrase(true, &k) {
        FlushStep::Write { schema, code, boundary: 0, .. } => {
            assert_eq!((schema.as_str(), code.as_str()), ("wubi86", "wqvb"))
        }
        other => panic!("{other:?}"),
    }
}

#[test]
fn counted_words_are_promoted() {
    let mut c = plain_coord();
    let l = c.settle_learn("nihao", LearnReply::Counted(3), 3);
    assert_eq!(l.code.as_deref(), Some("nihao"));
    assert!(l.promote);
    let l = c.settle_learn("nihao", LearnReply::Counted(2), 3);
    assert!(!l.promote);
    assert_eq!(c.settle_learn("nihao", LearnReply::Known, 3).code, None);
    assert!(!Coordinator::maybe_promote_temp(5, 0));
    assert!(Coordinator::maybe_promote_temp(5, 5));
}

#[test]
fn pages_stay_inside_the_list() {
    let mut c = plain_coord();
    c.settings.per_page = 2;
    let list = ["甲", "乙", "丙"].map(|t| cand(t, "", CandidateSource::Pinyin));
    let mut st = typing("x", list.to_vec());
    assert_eq!(c.page_range(&st), (0, 2));
    st.current_page = 1;
    assert_eq!(c.page_range(&st), (2, 3));
    assert_eq!(c.highlighted_global_index(&st), 2);
    assert!(matches!(c.select_page_candidate(&st, 0), Some(PageChoice::Main { index: 2 })));
    assert!(c.select_page_candidate(&st, 1).is_none());
    st.active = Some(ModeKind::TempPinyin);
    assert!(matches!(
        c.select_page_candidate(&st, 0),
        Some(PageChoice::TempPinyin { index: 2 })
    ));
}

#[test]
fn lists_grow_by_doubling() {
    let mut st = typing("x", vec![]);
    st.has_more = true;
    st.candidate_input = "x".to_string();
    st.candidate_limit = 100;
    assert_eq!(Coordinator::begin_expand(&mut st), Some(200));
    st.candidate_limit = 4000;
    assert_eq!(Coordinator::begin_expand(&mut st), Some(5000));
    st.candidate_limit = 5000;
    assert_eq!(Coordinator::begin_expand(&mut st), None);
    assert!(!st.has_more);
    st.has_more = true;
    st.candidate_limit = 100;
    st.candidate_input = "y".to_string();
    assert_eq!(Coordinator::begin_expand(&mut st), None);
}

#[test]
fn single_characters_are_listed_with_their_variants() {
    let mut st = typing(
        "fa",
        vec![
            cand("发", "fa", CandidateSource::Pinyin),
            cand("发展", "fazhan", CandidateSource::Pinyin),
        ],
    );
    st.s2t_enabled = true;
    let reply = |v: &[&str], d: &str| VariantReply {
        variants: v.iter().map(|s| s.to_string()).collect(),
        default_out: d.to_string(),
    };
    expand_s2t_variants(&mut st, &vec![reply(&["發", "髮"], "發"), reply(&["x"], "y")]);
    assert_eq!(texts(&st.candidates), vec!["发", "发", "发展"]);
    assert_eq!(st.candidates[1].s2t_override.as_deref(), Some("髮"));
    assert_eq!(st.candidates[0].s2t_override, None);
}

#[test]
fn separators_leave_used_keys_alone() {
    let facts = |mode: &str, quote_free: bool, backtick_free: bool| SeparatorFacts {
        is_pinyin: true,
        sentence_input: false,
        mode: mode.to_string(),
        quote_free,
        backtick_free,
    };
    assert!(manual_separator_key_of(VK_QUOTE, &facts("auto", true, true)));
    assert!(!manual_separator_key_of(VK_QUOTE, &facts("auto", false, true)));
    assert!(manual_separator_key_of(VK_BACKTICK, &facts("auto", false, true)));
    assert!(!manual_separator_key_of(VK_BACKTICK, &facts("auto", true, true)));
    assert!(!manual_separator_key_of(VK_BACKTICK, &facts("auto", false, false)));
    assert!(manual_separator_key_of(VK_QUOTE, &facts("quote", false, false)));
    assert!(!manual_separator_key_of(VK_QUOTE, &facts("none", true, true)));
}

#[test]
fn cursors_move_inside_an_overlay() {
    let mut st = typing("", vec![]);
    let mut out = Outbox::new();
    assert_eq!(overlay_cursor_key(&mut st, VK_LEFT, &mut out), None);
    st.active = Some(ModeKind::TempPinyin);
    st.temp_pinyin_buffer = "ni".to_string();
    st.temp_pinyin_cursor = 2;
    assert!(overlay_cursor_key(&mut st, VK_LEFT, &mut out).is_some());
    assert_eq!(st.temp_pinyin_cursor, 1);
}

#[test]
fn records_are_read_under_the_code_they_are_written_under() {
    let mut c = plain_coord();
    let scope = FreqScope {
        enabled: true,
        mixed: false,
        schema: "wubi86".to_string(),
        codetable: None,
        pinyin: None,
        english_code_by_input: false,
    };
    let list = vec![
        cand("有", "def", CandidateSource::CodeTable),
        Candidate { is_phrase: true, ..cand("短语", "de", CandidateSource::Phrase) },
        cand("东西", "dongxi", CandidateSource::Pinyin),
    ];
    let keys = c.freq_probe(&list, 3, "de", &scope, &vec![false, false, false]);
    let got: Vec<(&str, &str)> = keys.iter().map(|k| (k.code.as_str(), k.text.as_str())).collect();
    assert_eq!(got, vec![("de", "有"), ("dongxi", "东西")]);
    for k in &keys {
        let cand = list.iter().find(|x| x.text == k.text).unwrap();
        assert_eq!(k.code, Coordinator::freq_code_with("de", cand, false));
        let policy =
            FreqPolicy { enabled: true, excluded: false, schema: Some("wubi86".to_string()) };
        let code = c.freq_code("de", cand);
        let w = c.record_selection_in(&code, &cand.text, cand.source, &policy).unwrap();
        assert_eq!((&w.schema, &w.code, &w.text), (&k.schema, &k.code, &k.text));
    }
}

#[test]
fn texts_are_measured_and_cut() {
    assert_eq!(trim("  \u{3000}你好\r\n"), "你好");
    assert_eq!(utf16_total("a😀好"), 4);
    assert_eq!(split("a.b..c", '.'), vec!["a", "b", "", "c"]);
    assert_eq!(decimal_text(0), "0");
    assert_eq!(decimal_text(1205), "1205");
    assert_eq!(hex_text(0x20, 4), "0020");
    assert_eq!(hex_text(0x1f300, 4), "1F300");
}

#[test]
fn choosing_a_temporary_word_counts_as_a_use() {
    let mut c = plain_coord();
    let pick = Candidate { boundary: 0b101, ..cand("你好", "nihao", CandidateSource::Pinyin) };
    let r = c.temp_word_use(&pick, "nihao", &None).unwrap();
    assert_eq!((r.code.as_str(), r.text.as_str(), r.boundary), ("nihao", "你好", 0b101));
    assert_eq!((r.weight, r.owner), (LEARN_ADD_WEIGHT, Some(CandidateSource::Pinyin)));
    assert!(c.temp_word_use(&pick, "nihao", &Some("nihao".to_string())).is_none());
    assert!(c.temp_word_use(&pick, "nihao", &Some("nh".to_string())).is_some());
    let phrase = Candidate { is_phrase: true, ..pick.clone() };
    assert!(c.temp_word_use(&phrase, "nihao", &None).is_none());
    c.engine.codetable.auto_phrase.promote_count = 3;
    c.engine.auto_learn.promote_count = 2;
    assert!(!c.temp_word_moves(2) && c.temp_word_moves(3));
    c.engine.is_pinyin = true;
    assert!(!c.temp_word_moves(1) && c.temp_word_moves(2));
    c.engine.auto_learn.promote_count = 0;
    assert!(!c.temp_word_moves(9));
    c.engine.has_store = false;
    assert!(c.temp_word_use(&pick, "nihao", &None).is_none());
}

#[test]
fn a_command_commits_its_text_or_runs() {
    let c = plain_coord();
    let command = Candidate {
        phrase_template: "$CC(date)".to_string(),
        ..cand("日期", "", CandidateSource::Phrase)
    };
    let mut st = typing("date", vec![command.clone()]);
    let mut out = Outbox::new();
    let text = Some("今天".to_string());
    match c.commit_command(&mut st, &command, "date", &text, "今天", &mut out) {
        KeyAction::InsertText { text, .. } => assert_eq!(text, "今天"),
        other => panic!("{other:?}"),
    }
    assert!(st.input_buffer.is_empty());
    assert!(matches!(out.pending[..], [Effect::RecordSelection { .. }, Effect::UiHide]));
    for none in [None, Some(String::new())] {
        let mut st = typing("date", vec![command.clone()]);
        let mut out = Outbox::new();
        let act = c.commit_command(&mut st, &command, "date", &none, "", &mut out);
        assert!(matches!(act, KeyAction::ClearComposition));
        assert!(matches!(out.pending[..], [Effect::UiHide, Effect::SpawnCommand { .. }]));
    }
}

#[test]
fn learned_phrases_join_the_segments() {
    let mut c = plain_coord();
    c.engine.is_pinyin = true;
    c.engine.engine_type = Some(EngineType::Pinyin);
    c.engine.auto_learn.enabled = true;
    let seg = |t: &str, code: &str, b: u64| Seg {
        raw_code: code.to_string(),
        code: code.to_string(),
        text: t.to_string(),
        source: CandidateSource::Pinyin,
        boundary: b,
    };
    let mut st = typing("", vec![]);
    st.committed_segs = vec![seg("你", "ni", 0b1), seg("好", "hao", 0b1)];
    let r = c.learn_phrase_on_commit(&st, false).expect("two segments make a word");
    assert_eq!((r.code.as_str(), r.text.as_str(), r.boundary), ("nihao", "你好", 0b101));
    st.committed_segs.truncate(1);
    assert!(c.learn_phrase_on_commit(&st, false).is_none());
}

#[test]
fn reordering_leaves_what_is_out_of_scope_behind() {
    let c = plain_coord();
    let mut st = typing("x", vec![]);
    let list = vec![
        cand("甲", "x", CandidateSource::Pinyin),
        cand("乙", "x", CandidateSource::Pinyin),
        Candidate { is_scope_filtered: true, ..cand("僻", "x", CandidateSource::Pinyin) },
    ];
    let g = Gathered {
        result: found(list),
        expansions: vec![DictExpansion::Plain, DictExpansion::Plain, DictExpansion::Plain],
        hint_expansions: Vec::new(),
        phrases_open: false,
        exact: Vec::new(),
        prefix: Vec::new(),
    };
    let mut a = c.gather_candidates(&mut st, g);
    a.adopt_rerank(vec![
        cand("乙", "x", CandidateSource::Pinyin),
        cand("甲", "x", CandidateSource::Pinyin),
    ]);
    assert_eq!(texts(&a.list), vec!["乙", "甲", "僻"]);
    let rest = vec![cand("甲", "x", CandidateSource::Pinyin)];
    a.adopt_adjusted(rest, true);
    assert_eq!(texts(&a.list), vec!["甲"]);
    assert!(a.user_pinned);
}

#[test]
fn selection_keys_overflow_by_their_own_rule() {
    let mut c = plain_coord();
    let mut out = Outbox::new();
    let mut st = typing("x", vec![cand("甲", "x", CandidateSource::CodeTable)]);
    assert!(matches!(
        c.handle_overflow_select_key(&mut st, "；", &mut out),
        ChoiceStep::Reply(KeyAction::Consumed)
    ));
    c.settings.overflow_select_key = "commit_and_input".to_string();
    match c.handle_overflow_select_key(&mut st, "；", &mut out) {
        ChoiceStep::Commit { index: 0, position: 0, extra } => assert_eq!(extra, "；"),
        other => panic!("{other:?}"),
    }
    assert!(out.pending.is_empty());
    let mut empty = typing("x", vec![]);
    match c.handle_overflow_select_key(&mut empty, "；", &mut out) {
        ChoiceStep::Reply(KeyAction::InsertText { text, .. }) => assert_eq!(text, "；"),
        other => panic!("{other:?}"),
    }
    assert!(empty.input_buffer.is_empty());
    assert!(matches!(out.pending[..], [Effect::UiHide]));
}

#[test]
fn the_mouse_and_the_digits_choose_alike() {
    let mut c = plain_coord();
    c.settings.per_page = 2;
    let list = ["甲", "乙", "丙"].map(|t| cand(t, "", CandidateSource::Pinyin));
    let mut st = typing("x", list.to_vec());
    st.current_page = 1;
    let mut out = Outbox::new();
    let by_mouse = c.mouse_select_action(&mut st, 0, &None, &mut out);
    assert!(matches!(by_mouse, SelectStep::Commit { index: 2, position: 0, aux: false }));
    assert!(matches!(
        c.handle_number_key_select(&st, 1, false),
        ChoiceStep::Commit { index: 2, position: 0, .. }
    ));
}

#[test]
fn cursors_are_told_from_their_parts() {
    let c = plain_coord();
    let mut st = typing("nihao", vec![]);
    st.committed_text = "说".to_string();
    let p = c.ui_caret_bytes(&st);
    assert_eq!((p.prefix.as_str(), p.buffer.as_str(), p.body.as_str()), ("说", "nihao", "nihao"));
    assert_eq!(p.cursor, 5);
    assert_eq!(overlay_caret(&st, 9), 5, "ordinary input ends the composition");
    st.active = Some(ModeKind::TempPinyin);
    st.temp_pinyin_prefix = "`".to_string();
    st.temp_pinyin_buffer = "ni".to_string();
    st.temp_pinyin_cursor = 1;
    let p = c.ui_caret_bytes(&st);
    assert_eq!((p.prefix.as_str(), p.buffer.as_str(), p.cursor), ("`说", "ni", 1));
    assert_eq!(overlay_caret(&st, 9), 9);
}

#[test]
fn rows_and_characters_are_named_from_one() {
    assert_eq!(offset_of_ordinal(Some(1)), Some(0));
    assert_eq!(offset_of_ordinal(Some(3)), Some(2));
    assert_eq!(offset_of_ordinal(None), None);
}

#[test]
fn printable_keys_navigate_where_they_are_no_input() {
    let mut st = typing("x", vec![]);
    assert!(!Coordinator::nav_include_printable(&st, true, None));
    st.active = Some(ModeKind::TempPinyin);
    assert!(Coordinator::nav_include_printable(&st, false, None));
    st.active = Some(ModeKind::Mix(0));
    assert!(Coordinator::nav_include_printable(&st, true, None));
    assert!(!Coordinator::nav_include_printable(&st, false, None));
    st.active = Some(ModeKind::TempEnglish);
    assert!(Coordinator::nav_include_printable(&st, false, Some(false)));
    assert!(!Coordinator::nav_include_printable(&st, false, Some(true)));
}

#[test]
fn spaces_follow_english() {
    let mut c = plain_coord();
    let mut st = typing("he", vec![]);
    c.settings.english_commit_space = true;
    assert!(!c.english_space_enabled() && !c.english_space_enabled_in(&st));
    st.active = Some(ModeKind::TempEnglish);
    assert!(c.english_space_enabled_in(&st));
    c.engine.is_english = true;
    assert!(c.english_space_enabled());
    c.settings.english_commit_space = false;
    assert!(!c.english_space_enabled_in(&st));
}

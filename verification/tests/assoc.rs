//! Associations: when they are offered, how they are closed, and what the
//! application's placeholder is left with.

use std::mem;
use wind_coordinator::action::{Effect, KeyAction, Outbox};
use wind_coordinator::assoc::{suggest, AssocHit, PrefixWord};
use wind_coordinator::candidate::{Candidate, CandidateSource};
use wind_coordinator::coordinator::{
    AutoLearnSettings, AutoPhraseSettings, CodetableSettings, Coordinator, EngineFacts, Settings,
    TopCommitMode,
};
use wind_coordinator::state::State;

fn engine() -> EngineFacts {
    EngineFacts {
        active_schema: "pinyin".to_string(),
        schema_type: None,
        engine_type: None,
        is_pinyin: false,
        is_codetable: false,
        is_english: false,
        max_code_length: 0,
        ignores_weight: false,
        english_code_by_input: false,
        mixed_primary: None,
        codetable: CodetableSettings {
            single_code_input: false,
            single_code_complete: false,
            auto_commit_at_full: false,
            auto_commit_min_len: 0,
            z_key_repeat: false,
            auto_phrase: AutoPhraseSettings {
                enabled: false,
                min_phrase_len: 2,
                max_phrase_len: 4,
                promote_count: 0,
                idle_timeout_ms: 0,
                temp_max_entries: 0,
            },
        },
        auto_learn: AutoLearnSettings {
            enabled: false,
            min_word_length: 2,
            max_word_length: 0,
            promote_count: 0,
        },
        has_store: true,
    }
}

fn settings() -> Settings {
    Settings {
        per_page: 9,
        per_page_extended: 0,
        overflow_number_key: "ignore".to_string(),
        overflow_select_key: "ignore".to_string(),
        overflow_select_char_key: "ignore".to_string(),
        top_commit_mode: TopCommitMode::PreConfirm,
        deferred_ms: 150,
        english_raw_candidate: false,
        english_case_variants: false,
        english_commit_space: false,
        phrase_min_prefix: 2,
        assoc_enabled: false,
        assoc_continuous: false,
        assoc_hide_after_ms: 3000,
        assoc_hint: "联想输入".to_string(),
        preedit_inline: true,
        assoc_enter_cancels_only: false,
        assoc_backspace_cancels_only: true,
        delete_candidate: None,
        pin_candidate: None,
        special_schemas: Vec::new(),
    }
}

fn plain_coord() -> Coordinator {
    Coordinator::new(settings(), engine())
}

fn coord_smart() -> Coordinator {
    coord_with(|_| {})
}

fn coord_with(tweak: impl FnOnce(&mut Settings)) -> Coordinator {
    let mut s = settings();
    s.assoc_enabled = true;
    tweak(&mut s);
    let mut c = Coordinator::new(s, engine());
    c.state.chinese_mode = true;
    c
}

/// What follows any text: punctuation.
fn punct() -> Vec<AssocHit> {
    ["，", "。"]
        .iter()
        .map(|t| AssocHit { text: t.to_string(), commit: None })
        .collect()
}

/// Runs `f` on the coordinator and its state at once.
fn with_state<T>(c: &mut Coordinator, f: impl FnOnce(&mut Coordinator, &mut State) -> T) -> T {
    let mut st = mem::replace(&mut c.state, State::new());
    let r = f(c, &mut st);
    c.state = st;
    r
}

fn enter(c: &mut Coordinator, _text: &str) -> bool {
    let mut out = Outbox::new();
    with_state(c, |c, st| c.maybe_enter_assoc(st, &punct(), &mut out))
}

fn texts(c: &Coordinator) -> Vec<String> {
    if c.state.assoc_active() {
        c.debug_all_candidate_texts()
    } else {
        Vec::new()
    }
}

#[test]
fn desktop_defaults_to_off() {
    let mut c = plain_coord();
    c.state.chinese_mode = true;
    assert!(!enter(&mut c, "你好"), "桌面不该进联想");
}

#[test]
fn smart_kind_enters() {
    let mut c = coord_smart();
    assert!(enter(&mut c, "你好"));
    assert_eq!(texts(&c)[0], "，");
}

#[test]
fn candidates_carry_assoc_source() {
    let mut c = coord_smart();
    assert!(enter(&mut c, "你好"));
    let st = &c.state;
    assert!(
        st.candidates.iter().all(|x| x.source == CandidateSource::Assoc),
        "整批候选都该标成 Assoc，否则「是不是联想」的判据会时真时假"
    );
    assert!(st.assoc_active());
}

#[test]
fn normal_candidates_are_not_assoc() {
    let mut c = coord_smart();
    c.state.candidates = vec![Candidate {
        text: "普通".into(),
        source: CandidateSource::Pinyin,
        ..Default::default()
    }];
    assert!(!c.state.assoc_active());
    assert!(texts(&c).is_empty());
}

#[test]
fn hint_fills_and_clears_when_not_inline() {
    let mut c = coord_with(|s| s.preedit_inline = false);
    assert!(enter(&mut c, "你好"));
    assert_eq!(c.state.preedit, "联想输入");
    with_state(&mut c, |c, st| c.exit_assoc(st));
    assert!(c.state.preedit.is_empty(), "退出必须把标识清掉");
}

#[test]
fn no_hint_when_inline() {
    let mut c = coord_smart();
    assert!(enter(&mut c, "你好"), "前提：进了联想态");
    assert!(
        c.state.preedit.is_empty(),
        "嵌入模式不该给编码栏标识——那会让候选窗高度一跳"
    );
}

#[test]
fn empty_hint_shows_nothing() {
    let mut c = coord_with(|s| {
        s.preedit_inline = false;
        s.assoc_hint = String::new();
    });
    assert!(enter(&mut c, "你好"));
    assert!(c.state.preedit.is_empty());
}

#[test]
fn hide_timer_closes_the_window() {
    let mut c = coord_smart();
    assert!(enter(&mut c, "你好"));
    let t = c.assoc_hide_token;
    let mut out = Outbox::new();
    c.fire_assoc_hide(t, &mut out);
    assert!(texts(&c).is_empty(), "计时到期该收窗");
    assert!(c.state.preedit.is_empty(), "标识一并清掉");
    assert!(matches!(out.pending[..], [Effect::UiHide]));
}

#[test]
fn exiting_invalidates_pending_hide_timer() {
    let mut c = coord_smart();
    assert!(enter(&mut c, "你好"));
    let t1 = c.assoc_hide_token;
    with_state(&mut c, |c, st| c.exit_assoc(st));
    assert_ne!(t1, c.assoc_hide_token, "退出时须 bump 令牌");
    assert!(enter(&mut c, "你好"), "重新进入");
    c.fire_assoc_hide(t1, &mut Outbox::new());
    assert!(!texts(&c).is_empty(), "陈旧计时不得收掉新一轮的联想窗");
}

#[test]
fn zero_hide_after_ms_keeps_it_open() {
    let mut c = coord_with(|s| s.assoc_hide_after_ms = 0);
    assert!(enter(&mut c, "你好"));
    assert!(!texts(&c).is_empty());
}

#[test]
fn the_timer_is_armed_under_the_new_token() {
    let mut c = coord_smart();
    c.assoc_hide_token = u64::MAX;
    let mut out = Outbox::new();
    with_state(&mut c, |c, st| c.maybe_enter_assoc(st, &punct(), &mut out));
    assert_eq!(c.assoc_hide_token, 0, "the token wraps around");
    assert!(matches!(out.pending[..], [Effect::ArmAssocHide { ms: 3000, token: 0 }]));
    let mut none = Outbox::new();
    c.arm_assoc_hide(0, &mut none);
    assert!(none.pending.is_empty());
    assert_eq!(c.assoc_hide_token, 1);
}

#[test]
fn timeout_leaves_placeholder_orphaned() {
    let mut c = coord_smart();
    assert!(enter(&mut c, "你好"));
    assert!(
        !c.assoc_placeholder_orphaned,
        "刚进联想态时组合有主，不该有孤儿标记"
    );
    let t = c.assoc_hide_token;
    c.fire_assoc_hide(t, &mut Outbox::new());
    assert!(
        c.assoc_placeholder_orphaned,
        "超时收窗没有按键应答可搭载收口动作，必须留标记等下一次按键"
    );
    c.clear_orphaned_placeholder();
    assert!(!c.assoc_placeholder_orphaned);
}

#[test]
fn key_path_dismiss_leaves_no_orphan() {
    let mut c = coord_smart();
    assert!(enter(&mut c, "你好"));
    let action = with_state(&mut c, |c, st| c.assoc_enter(st, &mut Outbox::new()));
    assert!(
        matches!(
            action,
            KeyAction::ClearComposition | KeyAction::ClearCompositionThenPassThrough
        ),
        "按键路径的收口动作搭着这次应答就送到宿主了"
    );
    assert!(!c.assoc_placeholder_orphaned);
}

#[test]
fn the_two_closing_keys_follow_their_own_settings() {
    let mut c = coord_smart();
    assert!(enter(&mut c, "你好"));
    let a = with_state(&mut c, |c, st| c.assoc_enter(st, &mut Outbox::new()));
    assert!(matches!(a, KeyAction::ClearCompositionThenPassThrough));
    assert!(enter(&mut c, "你好"));
    let a = with_state(&mut c, |c, st| c.assoc_backspace(st, &mut Outbox::new()));
    assert!(matches!(a, KeyAction::ClearComposition));
    assert!(texts(&c).is_empty());
}

#[test]
fn orphan_rewrites_passthrough_into_clear_then_pass() {
    let mut c = coord_smart();
    c.assoc_placeholder_orphaned = true;
    assert!(matches!(
        c.adopt_orphaned_placeholder(KeyAction::PassThrough),
        KeyAction::ClearCompositionThenPassThrough
    ));
    assert!(!c.assoc_placeholder_orphaned, "收口一次即撤标记");
    assert!(
        matches!(
            c.adopt_orphaned_placeholder(KeyAction::PassThrough),
            KeyAction::PassThrough
        ),
        "标记已撤，后续透传不得再被改判——否则每个透传键都白挨一次收口 + 重放"
    );
}

#[test]
fn passthrough_untouched_without_orphan() {
    let mut c = coord_smart();
    assert!(matches!(
        c.adopt_orphaned_placeholder(KeyAction::PassThrough),
        KeyAction::PassThrough
    ));
}

#[test]
fn non_composition_actions_keep_the_orphan() {
    let mut c = coord_smart();
    for action in [
        KeyAction::StatusUpdate,
        KeyAction::Consumed,
        KeyAction::MoveCursorRight { count: 1 },
        KeyAction::DeletePair,
    ] {
        c.assoc_placeholder_orphaned = true;
        let out = c.adopt_orphaned_placeholder(action);
        assert!(
            c.assoc_placeholder_orphaned,
            "{out:?} 不碰宿主组合，孤儿还在，标记必须留到下一次按键"
        );
    }
}

#[test]
fn composition_absorbing_actions_clear_the_orphan() {
    let mut c = coord_smart();
    for action in [
        KeyAction::ClearComposition,
        KeyAction::UpdateComposition { text: "a".to_string(), caret_pos: 1 },
        KeyAction::InsertText {
            text: "你".to_string(),
            new_composition: None,
            mode_changed: false,
            chinese_mode: true,
            has_new_composition: false,
        },
    ] {
        c.assoc_placeholder_orphaned = true;
        let out = c.adopt_orphaned_placeholder(action);
        assert!(
            !c.assoc_placeholder_orphaned,
            "{out:?} 到了宿主那边会结束或替换组合，孤儿已被顺带收掉"
        );
    }
}

#[test]
fn chosen_associations_chain_only_when_asked() {
    let once = coord_smart();
    assert!(once.assoc_may_chain(false));
    assert!(!once.assoc_may_chain(true));
    let on = coord_with(|s| s.assoc_continuous = true);
    assert!(on.assoc_may_chain(true));
}

#[test]
fn suggestions_commit_what_the_context_lacks() {
    let words = |v: &[&str]| {
        v.iter().map(|w| PrefixWord { word: w.to_string(), weight: 1 }).collect::<Vec<_>>()
    };
    let hits = suggest("wubi86", &words(&["中国", "中华", "外国"]), "中", 10);
    let got: Vec<(String, Option<String>)> = hits.into_iter().map(|h| (h.text, h.commit)).collect();
    assert_eq!(
        got,
        vec![
            ("中国".to_string(), Some("国".to_string())),
            ("中华".to_string(), Some("华".to_string())),
            ("外国".to_string(), Some("外国".to_string())),
        ]
    );
    assert!(suggest("", &words(&["中国"]), "中", 10).is_empty());
    assert!(suggest("wubi86", &words(&["中国"]), "中", 0).is_empty());
}

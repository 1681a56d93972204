//! Auxiliary codes: entering a session, narrowing, leaving, and committing from it.

use wind_coordinator::action::{KeyAction, Outbox};
use wind_coordinator::aux_code::{
    aux_code_committed, aux_code_exited, aux_code_updated, aux_has_input, aux_key_reads_page,
    aux_page_turned_back, aux_page_turned_on, exit_aux_code, is_dedicated_aux_trigger, AuxCodeTrigger, AuxKeyFacts,
    AuxStep, Guarded, SessionAction,
};
use wind_coordinator::candidate::{Candidate, CandidateSource};
use wind_coordinator::choosing::SelectStep;
use wind_coordinator::coordinator::{
    AutoLearnSettings, AutoPhraseSettings, CodetableSettings, Coordinator, EngineFacts, Settings,
    TopCommitMode,
};
use wind_coordinator::keys::{
    KeyEventData, KeyMods, VK_A, VK_BACK, VK_DOWN, VK_ESCAPE, VK_SPACE, VK_TAB,
};
use wind_coordinator::selection::{CommitReplies, CommitStep};
use wind_coordinator::state::{ModeKind, State};
use wind_coordinator::view::PageChoice;

fn engine() -> EngineFacts {
    EngineFacts {
        active_schema: "pinyin".to_string(),
        schema_type: None,
        engine_type: None,
        is_pinyin: false,
        is_codetable: false,
        is_english: false,
        max_code_length: 0,
        ignores_weight: false,
        english_code_by_input: false,
        mixed_primary: None,
        codetable: CodetableSettings {
            single_code_input: false,
            single_code_complete: false,
            auto_commit_at_full: false,
            auto_commit_min_len: 0,
            z_key_repeat: false,
            auto_phrase: AutoPhraseSettings {
                enabled: false,
                min_phrase_len: 2,
                max_phrase_len: 4,
                promote_count: 0,
                idle_timeout_ms: 0,
                temp_max_entries: 0,
            },
        },
        auto_learn: AutoLearnSettings {
            enabled: false,
            min_word_length: 2,
            max_word_length: 0,
            promote_count: 0,
        },
        has_store: true,
    }
}

fn settings() -> Settings {
    Settings {
        per_page: 9,
        per_page_extended: 0,
        overflow_number_key: "ignore".to_string(),
        overflow_select_key: "ignore".to_string(),
        overflow_select_char_key: "ignore".to_string(),
        top_commit_mode: TopCommitMode::PreConfirm,
        deferred_ms: 150,
        english_raw_candidate: false,
        english_case_variants: false,
        english_commit_space: false,
        phrase_min_prefix: 2,
        assoc_enabled: false,
        assoc_continuous: false,
        assoc_hide_after_ms: 3000,
        assoc_hint: "联想输入".to_string(),
        preedit_inline: true,
        assoc_enter_cancels_only: false,
        assoc_backspace_cancels_only: true,
        delete_candidate: None,
        pin_candidate: None,
        special_schemas: Vec::new(),
    }
}

fn plain_coord() -> Coordinator {
    Coordinator::new(settings(), engine())
}

const VK_PRIOR: u32 = 0x21;
const VK_NEXT: u32 = 0x22;

/// A coordinator with a small table of auxiliary codes, an engine that finds nothing,
/// and what keys are bound to.
struct Session {
    c: Coordinator,
    enabled: bool,
    bindings: Vec<(u32, SessionAction)>,
    out: Outbox,
}

fn coord_with(_tag: &str) -> Session {
    Session {
        c: plain_coord(),
        enabled: true,
        bindings: vec![
            (VK_PRIOR, SessionAction::PagePrev),
            (VK_NEXT, SessionAction::PageNext),
            (VK_DOWN, SessionAction::HighlightDown),
        ],
        out: Outbox::new(),
    }
}

fn code_of(text: &str) -> &'static str {
    match text {
        "李" => "mz",
        "樱" => "my",
        "河" => "sk",
        _ => "",
    }
}

fn vk_letter(c: char) -> u32 {
    VK_A + (c as u32 - 'A' as u32)
}

fn key(vk: u32) -> KeyEventData {
    KeyEventData { key_code: vk, mods: KeyMods { ctrl: false, shift: false, alt: false } }
}

fn key_with(vk: u32, ctrl: bool, alt: bool) -> KeyEventData {
    KeyEventData { key_code: vk, mods: KeyMods { ctrl, shift: false, alt } }
}

fn cand(text: &str) -> Candidate {
    Candidate { text: text.into(), source: CandidateSource::Pinyin, ..Default::default() }
}

fn seed_composition(_s: &Session) -> State {
    let mut st = State::new();
    st.chinese_mode = true;
    st.input_buffer = "li".to_string();
    st.candidates = vec![cand("李"), cand("樱"), cand("河")];
    st.selected_index = 0;
    st.current_page = 0;
    st.preedit = "li".to_string();
    st
}

fn shown(st: &State) -> Vec<&str> {
    st.candidates.iter().map(|c| c.text.as_str()).collect()
}

fn code_typed(st: &State) -> &str {
    &st.aux_code.as_ref().expect("辅助码模式必持 overlay").buffer
}

impl Session {
    fn bind(mut self, vk: u32, action: SessionAction) -> Session {
        self.bindings.push((vk, action));
        self
    }

    fn bound(&self, vk: u32) -> Option<SessionAction> {
        self.bindings.iter().find(|b| b.0 == vk).map(|b| b.1)
    }

    fn enter(&mut self, st: &mut State, trigger: AuxCodeTrigger) -> Option<KeyAction> {
        self.c.enter_aux_code(st, trigger, self.enabled, true, &mut self.out)
    }

    fn pages(&self, st: &State) -> usize {
        st.candidates.len().div_ceil(self.c.per_page(st.active)).max(1)
    }

    fn keep(st: &State) -> Vec<bool> {
        match &st.aux_code {
            None => Vec::new(),
            Some(o) => {
                o.snapshot.iter().map(|c| code_of(&c.text).starts_with(&o.buffer)).collect()
            }
        }
    }

    /// Commits a candidate the way a key does; the engine finds nothing for the rest.
    fn commit(&mut self, st: &mut State, index: usize, offset: i32) -> KeyAction {
        let cand = st.candidates[index].clone();
        let act = match self.c.commit_selected(st, &cand, offset, &mut self.out) {
            CommitStep::Requery { group } => {
                if Coordinator::begin_update(st) {
                    self.c.finish_update(st, 0, 100, false);
                    let body = self.c.effective_preedit_body(st);
                    Coordinator::sync_preedit_to_highlight(st, &body);
                }
                Coordinator::complete_requery(st, group, 0, &mut self.out)
            }
            CommitStep::Settle { to_convert, .. } => {
                let replies = CommitReplies { converted: to_convert, hits: Vec::new() };
                self.c.settle_commit(st, &cand, &replies, &mut self.out)
            }
            CommitStep::Command { .. } => panic!("no commands here"),
        };
        aux_code_committed(st, act, &mut self.out)
    }

    fn press(&mut self, st: &mut State, vk: u32) -> KeyAction {
        self.press_with(st, key(vk))
    }

    fn press_with(&mut self, st: &mut State, data: KeyEventData) -> KeyAction {
        let vk = data.key_code;
        let input = aux_has_input(st);
        let letter = (VK_A..VK_A + 26).contains(&vk);
        let facts = AuxKeyFacts {
            guard: if data.mods.ctrl || data.mods.alt {
                Some(Guarded { leaves: input, clears: input })
            } else {
                None
            },
            bound: self.bound(vk),
            nav: if letter { None } else { self.bound(vk) },
            select_offset: None,
        };
        match self.c.handle_aux_code_key(st, &data, &facts) {
            AuxStep::Reply(a) => a,
            AuxStep::PagePrev { was_first } => {
                let moved = st.current_page > 0;
                if moved {
                    st.current_page -= 1;
                }
                aux_page_turned_back(st, was_first, moved, &mut self.out)
            }
            AuxStep::PageNext => {
                let moved = st.current_page + 1 < self.pages(st);
                if moved {
                    st.current_page += 1;
                }
                aux_page_turned_on(moved, &mut self.out)
            }
            AuxStep::Highlight => {
                if st.selected_index + 1 < st.candidates.len() {
                    st.selected_index += 1;
                } else if let Some(_limit) = Coordinator::begin_expand(st) {
                    st.candidates.clear();
                }
                KeyAction::Consumed
            }
            AuxStep::Cancel => panic!("no key is bound to cancel"),
            AuxStep::Exited => aux_code_exited(st, 2, &mut self.out),
            AuxStep::Filter => {
                let keep = Session::keep(st);
                aux_code_updated(st, &keep, &mut self.out)
            }
            AuxStep::Commit { index, offset } => self.commit(st, index, offset),
        }
    }
}

#[test]
fn enter_requires_candidates() {
    let mut s = coord_with("guard");
    let mut st = State::new();
    st.chinese_mode = true;
    assert!(s.enter(&mut st, AuxCodeTrigger::Direct).is_none());
    assert_eq!(st.active, None);
}

#[test]
fn enter_sets_mode_and_preserves_pinyin_preedit() {
    let mut s = coord_with("enter");
    let mut st = seed_composition(&s);
    let act = s.enter(&mut st, AuxCodeTrigger::Direct).expect("有候选应进入");
    assert_eq!(st.active, Some(ModeKind::AuxCode));
    let overlay = st.aux_code.as_ref().expect("辅助码 overlay 已建立");
    assert!(overlay.buffer.is_empty());
    assert_eq!(overlay.preedit_base, "li");
    assert_eq!(st.preedit, "li    ");
    assert!(matches!(act, KeyAction::UpdateComposition { .. }));
}

#[test]
fn aux_letters_filter_and_drop_tail() {
    let mut s = coord_with("filter");
    let mut st = seed_composition(&s);
    let _ = s.enter(&mut st, AuxCodeTrigger::Direct);
    let act = s.press(&mut st, vk_letter('M'));
    assert!(matches!(act, KeyAction::UpdateComposition { .. }));
    assert_eq!(
        shown(&st),
        vec!["李", "樱"],
        "筛选后 = 命中子序列，被滤候选不再出现在候选窗"
    );
    assert_eq!(st.preedit, "li    m");
}

#[test]
fn deeper_aux_code_narrows_again() {
    let mut s = coord_with("narrow");
    let mut st = seed_composition(&s);
    let _ = s.enter(&mut st, AuxCodeTrigger::Direct);
    let _ = s.press(&mut st, vk_letter('M'));
    let _ = s.press(&mut st, vk_letter('Y'));
    assert_eq!(shown(&st), vec!["樱"]);
    assert_eq!(st.preedit, "li    my");
}

#[test]
fn esc_exits_and_restores_pinyin_composition() {
    let mut s = coord_with("esc");
    let mut st = seed_composition(&s);
    let _ = s.enter(&mut st, AuxCodeTrigger::Direct);
    let _ = s.press(&mut st, vk_letter('M'));
    let act = s.press(&mut st, VK_ESCAPE);
    assert_eq!(st.active, None, "Esc 退出辅助码");
    assert_eq!(st.preedit, "li", "退出还原拼音组合区");
    assert!(st.aux_code.is_none(), "退出销毁整个 overlay（会话/基线/前缀）");
    assert_eq!(st.candidates.len(), 3);
    assert!(matches!(act, KeyAction::UpdateComposition { .. }));
}

#[test]
fn backspace_to_empty_stays_for_reinput() {
    let mut s = coord_with("back");
    let mut st = seed_composition(&s);
    let _ = s.enter(&mut st, AuxCodeTrigger::Direct);
    let _ = s.press(&mut st, vk_letter('M'));
    let _ = s.press(&mut st, VK_BACK);
    assert_eq!(st.active, Some(ModeKind::AuxCode), "删空后不退出辅助码");
    assert!(code_typed(&st).is_empty());
    assert_eq!(st.candidates.len(), 3);
    assert_eq!(st.preedit, "li    ");
    let _ = s.press(&mut st, vk_letter('M'));
    assert_eq!(shown(&st), vec!["李", "樱"]);
    let _ = s.press(&mut st, VK_BACK);
    assert_eq!(st.active, Some(ModeKind::AuxCode), "删空这一下保持空码态");
    let act = s.press(&mut st, VK_BACK);
    assert_eq!(st.active, None, "空码再退格退出辅助码");
    assert_eq!(st.preedit, "li");
    assert!(
        st.aux_code.is_none(),
        "退格退出销毁整个 overlay（会话/基线/前缀）"
    );
    assert_eq!(st.candidates.len(), 3);
    assert!(matches!(act, KeyAction::UpdateComposition { .. }));
}

#[test]
fn backspace_without_input_exits_aux_mode() {
    let mut s = coord_with("back_no_input");
    let mut st = seed_composition(&s);
    let _ = s.enter(&mut st, AuxCodeTrigger::Direct);
    assert_eq!(st.active, Some(ModeKind::AuxCode));
    let act = s.press(&mut st, VK_BACK);
    assert_eq!(st.active, None, "无输入退格退出辅助码");
    assert!(st.aux_code.is_none());
    assert_eq!(st.preedit, "li");
    assert_eq!(st.candidates.len(), 3);
    assert!(matches!(act, KeyAction::UpdateComposition { .. }));
}

#[test]
fn backspace_restores_previous_filter_level() {
    let mut s = coord_with("prev");
    let mut st = seed_composition(&s);
    let _ = s.enter(&mut st, AuxCodeTrigger::Direct);
    let _ = s.press(&mut st, vk_letter('M'));
    let _ = s.press(&mut st, vk_letter('Y'));
    assert_eq!(shown(&st), vec!["樱"]);
    let _ = s.press(&mut st, VK_BACK);
    assert_eq!(shown(&st), vec!["李", "樱"], "退格还原到上一层筛选结果");
    assert_eq!(st.preedit, "li    m");
    let _ = s.press(&mut st, VK_BACK);
    assert_eq!(st.active, Some(ModeKind::AuxCode), "删空后不退出");
    assert_eq!(st.candidates.len(), 3);
    assert_eq!(st.preedit, "li    ");
}

#[test]
fn wrong_aux_code_backspace_restores_all() {
    let mut s = coord_with("wrong");
    let mut st = seed_composition(&s);
    let _ = s.enter(&mut st, AuxCodeTrigger::Direct);
    let _ = s.press(&mut st, vk_letter('Z'));
    let _ = s.press(&mut st, vk_letter('Z'));
    assert!(
        st.candidates.is_empty(),
        "错误码下候选窗为空（全部被滤丢弃）"
    );
    let _ = s.press(&mut st, VK_BACK);
    assert_eq!(st.active, Some(ModeKind::AuxCode));
    assert!(
        st.candidates.is_empty(),
        "z 仍匹配不上任何候选，列表保持为空"
    );
    let act = s.press(&mut st, VK_BACK);
    assert_eq!(st.active, Some(ModeKind::AuxCode), "删空后不退出辅助码");
    assert_eq!(shown(&st), vec!["李", "樱", "河"]);
    assert!(matches!(act, KeyAction::UpdateComposition { .. }));
}

#[test]
fn space_commits_highlighted_and_exits() {
    let mut s = coord_with("space");
    let mut st = seed_composition(&s);
    let _ = s.enter(&mut st, AuxCodeTrigger::Direct);
    let _ = s.press(&mut st, vk_letter('M'));
    let act = s.press(&mut st, VK_SPACE);
    assert_eq!(st.active, None, "上屏后退出辅助码");
    assert!(
        st.aux_code.is_none(),
        "上屏后销毁整个 overlay（会话/基线/前缀）"
    );
    match act {
        KeyAction::InsertText { text, .. } => assert_eq!(text, "李"),
        other => panic!("{other:?}"),
    }
}

#[test]
fn ctrl_alt_guard_does_not_consume_as_code() {
    let mut s = coord_with("ctrl");
    {
        let mut st = seed_composition(&s);
        let _ = s.enter(&mut st, AuxCodeTrigger::Direct);
        assert!(aux_has_input(&st));
        let act = s.press_with(&mut st, key_with(vk_letter('M'), true, false));
        assert_eq!(st.active, None);
        assert!(matches!(act, KeyAction::ClearComposition));
    }
    let mut st2 = seed_composition(&s);
    let _ = s.enter(&mut st2, AuxCodeTrigger::Direct);
    st2.input_buffer.clear();
    st2.committed_text.clear();
    assert!(!aux_has_input(&st2));
    let act = s.press_with(&mut st2, key_with(vk_letter('M'), false, true));
    assert!(matches!(act, KeyAction::PassThrough));
}

#[test]
fn a_session_is_left_with_everything_restored() {
    let mut s = coord_with("exit");
    let mut st = seed_composition(&s);
    let _ = s.enter(&mut st, AuxCodeTrigger::Direct);
    exit_aux_code(&mut st);
    assert_eq!((st.active, st.preedit.as_str()), (None, "li"));
    assert_eq!(shown(&st), vec!["李", "樱", "河"]);
}

#[test]
fn partial_commit_stays_in_aux_mode_for_continuous_filter() {
    let mut s = coord_with("continuous");
    let mut st = seed_composition(&s);
    st.candidates[0].consumed_length = 1;
    let _ = s.enter(&mut st, AuxCodeTrigger::Direct);
    let _ = s.press(&mut st, vk_letter('M'));
    assert_eq!(st.active, Some(ModeKind::AuxCode));
    let act = s.press(&mut st, VK_SPACE);
    assert_eq!(
        st.active,
        Some(ModeKind::AuxCode),
        "部分消费后不退出辅助码，继续筛下一段"
    );
    assert!(st.aux_code.is_some(), "overlay 仍在（重建的会话）");
    assert_eq!(st.committed_text, "李", "逐步转换：已转换前缀并入");
    assert_eq!(st.input_buffer, "i", "缓冲裁剪为剩余编码");
    assert!(
        code_typed(&st).is_empty(),
        "重建会话辅助码缓冲清空，可继续输入下一段辅助码"
    );
    assert!(
        st.preedit.starts_with("李i"),
        "组合区 = 已转换前缀 + 剩余拼音 + 分隔符前缀"
    );
    assert!(matches!(act, KeyAction::UpdateComposition { .. }));
}

#[test]
fn select_page_candidate_partial_commit_stays_in_aux_mode() {
    let mut s = coord_with("continuous_selectkey");
    let mut st = seed_composition(&s);
    st.candidates[0].consumed_length = 1;
    let _ = s.enter(&mut st, AuxCodeTrigger::Direct);
    let _ = s.press(&mut st, vk_letter('M'));
    assert_eq!(st.active, Some(ModeKind::AuxCode));

    let act = match s.c.select_page_candidate(&st, 0).expect("页内有候选，不应越界") {
        PageChoice::AuxCode { index } => s.commit(&mut st, index, 0),
        other => panic!("{other:?}"),
    };
    assert_eq!(
        st.active,
        Some(ModeKind::AuxCode),
        "部分消费后不得退出辅助码——否则与按 `2` 选同一个候选结果不同"
    );
    assert!(st.aux_code.is_some(), "overlay 三件套应已重建");
    assert_eq!(st.committed_text, "李");
    assert_eq!(st.input_buffer, "i", "缓冲应裁剪为剩余编码");
    assert!(code_typed(&st).is_empty(), "重建会话的辅助码缓冲应清空");
    assert!(matches!(act, KeyAction::UpdateComposition { .. }));
}

#[test]
fn select_page_candidate_full_commit_exits_aux_mode() {
    let mut s = coord_with("continuous_selectkey_exit");
    let mut st = seed_composition(&s);
    let _ = s.enter(&mut st, AuxCodeTrigger::Direct);
    match s.c.select_page_candidate(&st, 0).expect("页内有候选") {
        PageChoice::AuxCode { index } => s.commit(&mut st, index, 0),
        other => panic!("{other:?}"),
    };
    assert_eq!(st.active, None, "整串消费仍退出辅助码");
    assert!(st.aux_code.is_none(), "overlay 三件套应整体销毁");
}

#[test]
fn full_commit_still_exits_aux_mode() {
    let mut s = coord_with("continuous_exit");
    let mut st = seed_composition(&s);
    let _ = s.enter(&mut st, AuxCodeTrigger::Direct);
    let act = s.press(&mut st, VK_SPACE);
    assert_eq!(st.active, None, "整串消费仍退出辅助码");
    assert!(st.aux_code.is_none());
    assert!(matches!(act, KeyAction::InsertText { .. }));
}

#[test]
fn arrow_navigation_does_not_lose_filter() {
    let mut s = coord_with("nav");
    let mut st = seed_composition(&s);
    let _ = s.enter(&mut st, AuxCodeTrigger::Direct);
    let _ = s.press(&mut st, vk_letter('M'));
    st.has_more = true;
    st.candidate_input = "li".to_string();
    st.candidate_limit = 10;
    let _ = s.press(&mut st, VK_DOWN);
    let _ = s.press(&mut st, VK_DOWN);
    assert_eq!(shown(&st), vec!["李", "樱"], "↓ 不得丢失辅助码过滤结果");
    assert_eq!(st.active, Some(ModeKind::AuxCode));
}

#[test]
fn aux_code_disabled_by_default_does_not_enter() {
    let mut s = coord_with("default_off");
    s.enabled = false;
    let mut st = seed_composition(&s);
    let act = s.enter(&mut st, AuxCodeTrigger::Direct);
    assert!(
        act.is_none(),
        "出厂未启用时门卫必须不吞键（落普通标点流程）"
    );
    assert_eq!(st.active, None, "不得进入辅助码模式");
    assert!(st.aux_code.is_none());
    assert_eq!(st.candidates.len(), 3, "候选原封不动（未被 take 走）");
    assert_eq!(st.preedit, "li", "组合区原封不动");
}

#[test]
fn a_session_needs_a_table() {
    let s = coord_with("no_files");
    let mut st = seed_composition(&s);
    let act = s.c.enter_aux_code(
        &mut st,
        AuxCodeTrigger::Direct,
        true,
        false,
        &mut Outbox::new(),
    );
    assert!(act.is_none());
    assert_eq!(st.active, None);
}

#[test]
fn dedicated_trigger_is_consumed_not_exit_in_aux() {
    let mut s = coord_with("sess_reenter").bind(VK_TAB, SessionAction::AuxCode);
    let mut st = seed_composition(&s);
    s.enter(&mut st, AuxCodeTrigger::Direct).expect("应进入");
    assert_eq!(st.active, Some(ModeKind::AuxCode));
    let after_enter = st.preedit.clone();
    assert_eq!(after_enter, "li    ", "进入后 = 拼音 + 4 空格");

    let act = s.press(&mut st, VK_TAB);
    assert!(
        matches!(act, KeyAction::Consumed),
        "专用触发键在辅助码态内应被静默消费"
    );
    assert_eq!(
        st.active,
        Some(ModeKind::AuxCode),
        "触发键再按一次不得退出辅助码"
    );
    assert!(st.aux_code.is_some(), "overlay 三件套应保留");
    assert_eq!(st.preedit, "li    ", "组合区不应再被拼一遍（不重入）");
    assert_eq!(st.candidates.len(), 3, "候选不变");
}

#[test]
fn trigger_key_does_not_commit_in_aux() {
    let mut s = coord_with("sess_nocommit").bind(VK_TAB, SessionAction::AuxCode);
    let mut st = seed_composition(&s);
    s.enter(&mut st, AuxCodeTrigger::Direct).expect("应进入");
    let _ = s.press(&mut st, VK_TAB);
    assert_eq!(
        st.candidates.len(),
        3,
        "触发键不得吃掉候选（那意味着上屏了）"
    );
    assert_eq!(st.input_buffer, "li", "触发键不得消费编码缓冲");
    assert!(st.committed_text.is_empty(), "不该有待上屏文本");
}

#[test]
fn letter_stays_code_input_even_when_bound_as_trigger() {
    let mut s = coord_with("sess_zletter").bind(vk_letter('Z'), SessionAction::AuxCode);
    let mut st = seed_composition(&s);
    s.enter(&mut st, AuxCodeTrigger::Direct).expect("反引号应进得去");
    let _ = s.press(&mut st, vk_letter('Z'));
    assert_eq!(
        st.active,
        Some(ModeKind::AuxCode),
        "z 是码元，不得当成退出键"
    );
    assert_eq!(code_typed(&st), "z", "z 应累积进辅助码缓冲");
    assert!(!is_dedicated_aux_trigger(vk_letter('Z'), Some(SessionAction::AuxCode)));
    assert!(is_dedicated_aux_trigger(VK_TAB, Some(SessionAction::AuxCode)));
    assert!(!is_dedicated_aux_trigger(VK_TAB, Some(SessionAction::PageNextAuxCode)));
}

#[test]
fn enter_is_refused_from_any_overlay_mode() {
    let mut s = coord_with("overlay_guard");
    let mut st = seed_composition(&s);
    for mode in [ModeKind::TempPinyin, ModeKind::TempEnglish, ModeKind::AuxCode] {
        st.active = Some(mode);
        assert!(
            s.enter(&mut st, AuxCodeTrigger::Direct).is_none(),
            "{mode:?} 态下不得进入辅助码"
        );
        assert_eq!(st.active, Some(mode), "被拒时不得改动 active");
        assert_eq!(st.candidates.len(), 3, "被拒时候选必须原封不动");
        assert_eq!(st.preedit, "li", "被拒时组合区必须原封不动");
    }
}

#[test]
fn mouse_click_commit_keeps_stepwise_conversion() {
    let mut s = coord_with("mouse_partial");
    let mut st = seed_composition(&s);
    st.candidates[0].consumed_length = 1;
    let _ = s.enter(&mut st, AuxCodeTrigger::Direct);
    let _ = s.press(&mut st, vk_letter('M'));
    assert_eq!(st.active, Some(ModeKind::AuxCode));
    match s.c.select_candidate_at(&mut st, 0, &None, &mut s.out) {
        SelectStep::Commit { index, position, aux } => {
            assert!(aux);
            s.commit(&mut st, index, position as i32)
        }
        other => panic!("{other:?}"),
    };
    assert_eq!(
        st.active,
        Some(ModeKind::AuxCode),
        "部分消费：鼠标点选也应留在辅助码模式继续筛下一段（同键盘）"
    );
    assert_eq!(st.committed_text, "李", "逐步转换：已转换前缀并入");
    assert_eq!(st.input_buffer, "i", "剩余编码必须保留，不得被 clear 掉");
    assert!(st.aux_code.is_some(), "overlay 已按新候选重建，不是残留");
    assert!(
        code_typed(&st).is_empty(),
        "重建会话的辅助码缓冲应清空，可继续输入下一段"
    );
}

#[test]
fn mouse_click_full_commit_clears_overlay() {
    let mut s = coord_with("mouse_full");
    let mut st = seed_composition(&s);
    let _ = s.enter(&mut st, AuxCodeTrigger::Direct);
    match s.c.select_candidate_at(&mut st, 0, &None, &mut s.out) {
        SelectStep::Commit { index, position, .. } => s.commit(&mut st, index, position as i32),
        other => panic!("{other:?}"),
    };
    assert_eq!(st.active, None, "整串消费后退出辅助码");
    assert!(
        st.aux_code.is_none(),
        "overlay 必须随模式一起销毁——否则候选快照会一直挂着"
    );
}

#[test]
fn aux_code_keeps_main_path_per_page() {
    let mut s = coord_with("per_page");
    s.c.settings.per_page = 5;
    s.c.settings.per_page_extended = 9;
    assert_eq!(s.c.per_page(None), 5, "主输入路用 per_page");
    assert_eq!(
        s.c.per_page(Some(ModeKind::TempPinyin)),
        9,
        "真正的 overlay 模式（临拼另起一套候选）才用扩展档"
    );
    assert_eq!(
        s.c.per_page(Some(ModeKind::AuxCode)),
        5,
        "辅助码只是把主路径候选筛了一轮，分页档位须与主输入路一致"
    );

    let mut st = seed_composition(&s);
    st.candidates = (0..12).map(|i| cand(&format!("字{i}"))).collect();
    let pages_before = s.pages(&st);
    assert_eq!(pages_before, 3, "前置：主路径 12 条 / 每页 5 = 3 页");
    let _ = s.enter(&mut st, AuxCodeTrigger::Direct).expect("有候选应进入");
    assert_eq!(s.pages(&st), pages_before, "进辅助码的瞬间总页数不得跳变");
}

#[test]
fn auto_exit_on_first_page_no_aux_input() {
    let mut s = coord_with("auto_exit_first");
    let mut st = seed_composition(&s);
    st.candidates = (0..12).map(|i| cand(&format!("候选{i}"))).collect();
    let _ = s.enter(&mut st, AuxCodeTrigger::Direct);
    assert_eq!(st.active, Some(ModeKind::AuxCode));
    let _ = s.press(&mut st, VK_NEXT);
    assert_eq!(st.current_page, 1, "应翻到第二页");
    let act = s.press(&mut st, VK_PRIOR);
    assert_eq!(st.active, None, "从非首页翻回+空缓冲应自动退出");
    assert!(st.aux_code.is_none());
    assert!(matches!(act, KeyAction::UpdateComposition { .. }));
}

#[test]
fn no_auto_exit_when_single_page() {
    let mut s = coord_with("single_page");
    let mut st = seed_composition(&s);
    let _ = s.enter(&mut st, AuxCodeTrigger::Direct);
    assert_eq!(st.active, Some(ModeKind::AuxCode));
    let _act = s.press(&mut st, VK_PRIOR);
    assert_eq!(st.active, Some(ModeKind::AuxCode), "只有一页不应自动退出");
}

#[test]
fn no_auto_exit_when_aux_input_exists() {
    let mut s = coord_with("no_exit");
    let mut st = seed_composition(&s);
    st.candidates = (0..12).map(|i| cand(&format!("候选{i}"))).collect();
    let _ = s.enter(&mut st, AuxCodeTrigger::Direct);
    assert_eq!(st.active, Some(ModeKind::AuxCode));
    let _ = s.press(&mut st, vk_letter('M'));
    assert!(!code_typed(&st).is_empty());
    st.current_page = 1;
    st.candidates = (0..12).map(|i| cand(&format!("候选{i}"))).collect();
    let act = s.press(&mut st, VK_PRIOR);
    assert_eq!(st.active, Some(ModeKind::AuxCode), "有辅助码输入不退出");
    assert_eq!(st.current_page, 0);
    assert!(matches!(
        act,
        KeyAction::Consumed | KeyAction::UpdateComposition { .. }
    ));
}

#[test]
fn page_key_only_no_aux_trigger() {
    let mut s = coord_with("page_only");
    let mut st = seed_composition(&s);
    let act = s.enter(&mut st, AuxCodeTrigger::Direct);
    assert!(act.is_some(), "非辅助码触发键正常进入辅助码");
    assert_eq!(st.active, Some(ModeKind::AuxCode));
}

#[test]
fn existing_trigger_key_still_works() {
    let mut s = coord_with("existing_trigger");
    let mut st = seed_composition(&s);
    let act = s.enter(&mut st, AuxCodeTrigger::Direct);
    assert!(act.is_some(), "原有触发键应正常进入辅助码");
    assert_eq!(st.active, Some(ModeKind::AuxCode));
    assert!(st.aux_code.is_some(), "应创建 overlay");
}

/// The page is turned first, and the session keeps the page.
#[test]
fn page_next_aux_code_enters_and_pages() {
    let mut s = coord_with("pna_enter").bind(VK_TAB, SessionAction::PageNextAuxCode);
    let mut st = seed_composition(&s);
    st.candidates = (0..12).map(|i| cand(&format!("候选{i}"))).collect();
    st.current_page = 1;
    let act = s.enter(&mut st, AuxCodeTrigger::FromPage).expect("应进入辅助码模式");
    assert_eq!(st.active, Some(ModeKind::AuxCode), "应进入辅助码模式");
    assert!(st.aux_code.is_some(), "应建立 overlay");
    assert!(matches!(act, KeyAction::UpdateComposition { .. }));
    assert_eq!(st.current_page, 1, "翻到第二页后页码应保留");
}

#[test]
fn page_next_aux_code_no_candidates_passes_through() {
    let mut s = coord_with("pna_empty").bind(VK_TAB, SessionAction::PageNextAuxCode);
    let mut st = State::new();
    st.chinese_mode = true;
    assert!(s.enter(&mut st, AuxCodeTrigger::FromPage).is_none());
    assert_eq!(st.active, None, "空缓冲不进辅助码");
}

#[test]
fn page_next_aux_code_continues_paging_in_aux() {
    let mut s = coord_with("pna_paging").bind(VK_TAB, SessionAction::PageNextAuxCode);
    let mut st = seed_composition(&s);
    st.candidates = (0..12).map(|i| cand(&format!("候选{i}"))).collect();
    st.current_page = 1;
    let _ = s.enter(&mut st, AuxCodeTrigger::FromPage);
    assert_eq!(st.active, Some(ModeKind::AuxCode));
    assert_eq!(st.current_page, 1, "已进入且翻到第二页");
    let _ = s.press(&mut st, vk_letter('A'));
    let act = s.press(&mut st, VK_TAB);
    assert_eq!(st.active, Some(ModeKind::AuxCode), "模式内不应退出");
    assert!(matches!(
        act,
        KeyAction::Consumed | KeyAction::UpdateComposition { .. }
    ));
}

#[test]
fn page_next_aux_code_disabled_pure_page() {
    let mut s = coord_with("pna_disabled").bind(VK_TAB, SessionAction::PageNextAuxCode);
    s.enabled = false;
    let mut st = seed_composition(&s);
    st.candidates = (0..12).map(|i| cand(&format!("候选{i}"))).collect();
    let _ = s.enter(&mut st, AuxCodeTrigger::FromPage);
    assert_eq!(st.active, None, "辅助码未启用不应进入辅助码模式");
    assert!(st.aux_code.is_none(), "不应创建 overlay");
}

#[test]
fn only_the_highlight_needs_a_page_inside_the_list() {
    let mut s = coord_with("page");
    let mut st = seed_composition(&s);
    let _ = s.enter(&mut st, AuxCodeTrigger::Direct);
    st.current_page = 7;
    let facts = AuxKeyFacts { guard: None, bound: None, nav: None, select_offset: None };
    assert!(!aux_key_reads_page(&key(VK_ESCAPE), &facts));
    assert!(aux_key_reads_page(&key(VK_SPACE), &facts));
    assert!(s.c.aux_key_takes_highlight(&st, &key(VK_SPACE), &facts));
    assert!(!s.c.aux_key_takes_highlight(&st, &key(0x31), &facts), "a digit names its row");
    assert!(matches!(s.press(&mut st, 0x31), KeyAction::Consumed));
    let _ = s.press(&mut st, vk_letter('M'));
    assert_eq!(code_typed(&st), "m");
    let _ = s.press(&mut st, VK_ESCAPE);
    assert_eq!(st.active, None);
    assert_eq!(shown(&st), vec!["李", "樱", "河"]);
}

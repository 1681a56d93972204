//! Adding words: the panel, its sources, and the command.

use wind_coordinator::action::{Effect, KeyAction, Outbox};
use wind_coordinator::addword::{
    add_word_clip_pool, add_word_coded, add_word_current_word, add_word_display_code,
    add_word_panel_rows, add_word_pool, adjust_add_word_length, build_settings_args,
    check_derivable_word, default_add_word_len, display_code, exit_add_word_mode, finish_add_word,
    sanitize_dict_add_text, toast_clamp, toggle_add_word_source, AddWordNeed, AddWordStep,
    CodeReplies, CodeRoute, DictAddError, WordCode, ADD_WORD_MAX_LEN, ADD_WORD_WEIGHT,
};
use wind_coordinator::candidate::CandidateSource;
use wind_coordinator::coordinator::{
    AutoLearnSettings, AutoPhraseSettings, CodetableSettings, Coordinator, EngineFacts, EngineType,
    Settings, TopCommitMode,
};
use wind_coordinator::keys::{
    KeyEventData, KeyMods, VK_BACK, VK_DOWN, VK_ESCAPE, VK_RETURN, VK_SPACE, VK_TAB, VK_UP,
};
use wind_coordinator::learning::{trim_segs_start, LearnReply};
use wind_coordinator::state::{ModeKind, Seg, State};

fn engine() -> EngineFacts {
    EngineFacts {
        active_schema: "pinyin".to_string(),
        schema_type: None,
        engine_type: None,
        is_pinyin: false,
        is_codetable: false,
        is_english: false,
        max_code_length: 0,
        ignores_weight: false,
        english_code_by_input: false,
        mixed_primary: None,
        codetable: CodetableSettings {
            single_code_input: false,
            single_code_complete: false,
            auto_commit_at_full: false,
            auto_commit_min_len: 0,
            z_key_repeat: false,
            auto_phrase: AutoPhraseSettings {
                enabled: false,
                min_phrase_len: 2,
                max_phrase_len: 4,
                promote_count: 0,
                idle_timeout_ms: 0,
                temp_max_entries: 0,
            },
        },
        auto_learn: AutoLearnSettings {
            enabled: false,
            min_word_length: 2,
            max_word_length: 0,
            promote_count: 0,
        },
        has_store: true,
    }
}

fn settings() -> Settings {
    Settings {
        per_page: 9,
        per_page_extended: 0,
        overflow_number_key: "ignore".to_string(),
        overflow_select_key: "ignore".to_string(),
        overflow_select_char_key: "ignore".to_string(),
        top_commit_mode: TopCommitMode::PreConfirm,
        deferred_ms: 150,
        english_raw_candidate: false,
        english_case_variants: false,
        english_commit_space: false,
        phrase_min_prefix: 2,
        assoc_enabled: false,
        assoc_continuous: false,
        assoc_hide_after_ms: 3000,
        assoc_hint: "联想输入".to_string(),
        preedit_inline: true,
        assoc_enter_cancels_only: false,
        assoc_backspace_cancels_only: true,
        delete_candidate: None,
        pin_candidate: None,
        special_schemas: Vec::new(),
    }
}

fn plain_coord() -> Coordinator {
    Coordinator::new(settings(), engine())
}

/// A session with a clipboard that counts how often it is read, and an engine that
/// knows few words.
struct Session {
    c: Coordinator,
    clip: String,
    reads: usize,
    out: Outbox,
    primary: Option<EngineType>,
}

fn no_code() -> WordCode {
    WordCode { code: String::new(), boundary: 0 }
}

/// What the pinyin engine knows of a word.
fn reading(word: &str) -> WordCode {
    if word == "你好" {
        WordCode { code: "nihao".to_string(), boundary: 0b101 }
    } else {
        no_code()
    }
}

impl Session {
    fn new(clip: &str) -> Session {
        Session {
            c: plain_coord(),
            clip: clip.to_string(),
            reads: 0,
            primary: None,
            out: Outbox::new(),
        }
    }

    fn settle(&mut self, st: &mut State, need: AddWordNeed) {
        let mut need = need;
        loop {
            need = match need {
                AddWordNeed::Nothing => return,
                AddWordNeed::Clipboard => {
                    self.reads += 1;
                    add_word_clip_pool(st, &self.clip, &mut self.out)
                }
                AddWordNeed::Code { word } => {
                    let replies = CodeReplies { pinyin: reading(&word), table: None };
                    let code = self.c.calc_add_word_code(&word, self.primary, replies);
                    add_word_coded(st, code, &mut self.out);
                    AddWordNeed::Nothing
                }
            };
        }
    }

    fn enter(&mut self, st: &mut State) -> KeyAction {
        let s = self.c.enter_add_word_mode(st, &mut self.out);
        self.settle(st, s.need);
        s.action
    }

    fn toggle(&mut self, st: &mut State) -> KeyAction {
        let s = toggle_add_word_source(st, &mut self.out);
        self.settle(st, s.need);
        s.action
    }

    fn adjust(&mut self, st: &mut State, delta: i32) {
        let s = adjust_add_word_length(st, delta);
        self.settle(st, s.need);
    }

    fn confirm(&mut self, st: &mut State) -> AddWordStep {
        self.c.confirm_add_word(st, Some("pinyin".to_string()), &mut self.out)
    }

    fn key(&mut self, st: &mut State, data: &KeyEventData) -> AddWordStep {
        self.c.handle_add_word_key(st, data, Some("pinyin".to_string()), &mut self.out)
    }
}

fn coord(_tag: &str) -> Session {
    Session::new("")
}

fn coord_with_clip(_tag: &str, clip: &str) -> Session {
    Session::new(clip)
}

fn key(vk: u32, ctrl: bool) -> KeyEventData {
    KeyEventData { key_code: vk, mods: KeyMods { ctrl, shift: false, alt: false } }
}

fn push_commits(c: &mut Coordinator, items: &[&str]) {
    for it in items {
        c.recent_commits.push_front(it.to_string());
    }
}

#[test]
fn self_commit_is_marked_for_every_landed_variant() {
    let landed: Vec<KeyAction> = vec![
        KeyAction::InsertText {
            text: "大".into(),
            new_composition: None,
            mode_changed: false,
            chinese_mode: true,
            has_new_composition: false,
        },
        KeyAction::InsertTextWithCursor { text: "大".into(), cursor_offset: 0 },
        KeyAction::ReplaceBackward { count: 1, text: "大".into() },
        KeyAction::CommitAndHoldComposition {
            commit_text: "大".into(),
            hold_text: "d".into(),
            timeout_ms: 150,
        },
        KeyAction::CommitThenDeferComposition {
            commit_text: "大".into(),
            deferred_composition: "d".into(),
            timeout_ms: 150,
        },
    ];
    for action in landed {
        let mut c = plain_coord();
        let note = c.note_commit_action(&action);
        assert!(
            note.self_commit,
            "落屏变体必须打点，否则它引发的 SelectionChanged 会被误判成用户移动光标：{action:?}"
        );
    }
}

#[test]
fn self_commit_is_not_marked_before_text_lands() {
    let mut c = plain_coord();
    let note =
        c.note_commit_action(&KeyAction::UpdateComposition { text: "d".into(), caret_pos: 1 });
    assert!(!note.self_commit, "组合区更新还没落屏，不该算作自提交");
}

#[test]
fn english_add_word_code_is_lowercased_word() {
    let f = Coordinator::english_add_word_code;
    assert_eq!(f("Hello"), ("hello".to_string(), 0));
    assert_eq!(f("WindInput"), ("windinput".to_string(), 0));
    assert_eq!(f("well-known"), ("well-known".to_string(), 0));
    assert_eq!(f("utf8"), ("utf8".to_string(), 0));
    assert_eq!(f("thank you").0, "", "带空格的码会让前缀查询永远查不到");
    assert_eq!(f("你好").0, "");
    assert_eq!(f("café").0, "");
    assert_eq!(f("123").0, "");
    assert_eq!(f("---").0, "");
    assert_eq!(f("").0, "");
}

#[test]
fn undo_commit_len_tracks_last_commit() {
    let mut c = coord("undo_len").c;
    assert_eq!(c.last_commit_len, 1, "默认删 1");
    c.note_commit_action(&Coordinator::commit_action("你好".into(), true));
    assert_eq!(c.last_commit_len, 2, "中文整词记 2");
    c.note_commit_action(&Coordinator::commit_action("a".into(), false));
    assert_eq!(c.last_commit_len, 1, "英文覆盖为 1");
    c.note_commit_action(&Coordinator::commit_action("😀".into(), true));
    assert_eq!(c.last_commit_len, 2, "emoji 记 2 单元");
    c.note_commit_action(&KeyAction::PassThrough);
    assert_eq!(c.last_commit_len, 2, "组合态不覆盖");
    c.note_commit_action(&KeyAction::ReplaceBackward { count: 2, text: "—".into() });
    assert_eq!(c.last_commit_len, 1, "替换后记新符号长");
}

#[test]
fn undo_commit_ignored_while_composing() {
    let mut c = coord("undo_composing").c;
    c.last_commit_len = 5;
    c.state.input_buffer = "abc".to_string();
    let asked = c.cmd_undo_commit();
    assert_eq!(c.last_commit_len, 5, "缓冲非空应忽略，计数不变");
    assert!(asked.is_none());
}

#[test]
fn undo_commit_takes_back_the_last_text() {
    let mut c = coord("undo").c;
    c.last_commit_len = 5;
    assert_eq!(c.cmd_undo_commit(), Some(5));
    assert_eq!(c.last_commit_len, 1);
}

#[test]
fn recent_chars_order_and_truncate() {
    let mut c = coord("recent").c;
    push_commits(&mut c, &["你", "好", "世界"]);
    assert_eq!(c.add_word_recent_chars(20).iter().collect::<String>(), "你好世界");
    assert_eq!(c.add_word_recent_chars(2).iter().collect::<String>(), "世界");
}

#[test]
fn enter_sets_default_len_and_word() {
    let mut s = coord("enter");
    push_commits(&mut s.c, &["你", "好"]);
    let mut st = State::new();
    s.enter(&mut st);
    assert!(st.add_word_active);
    assert_eq!(st.add_word_len, 2);
    assert_eq!(add_word_current_word(&st), "你好");
}

#[test]
fn enter_single_char_caps_len_to_one() {
    let mut s = coord("single");
    push_commits(&mut s.c, &["好"]);
    let mut st = State::new();
    s.enter(&mut st);
    assert_eq!(st.add_word_len, 1);
    assert_eq!(add_word_current_word(&st), "好");
}

#[test]
fn enter_no_history_zero_len() {
    let mut s = coord("empty");
    let mut st = State::new();
    s.enter(&mut st);
    assert!(st.add_word_active);
    assert_eq!(st.add_word_len, 0);
    assert!(st.add_word_code.is_empty());
}

#[test]
fn entering_drops_what_was_typed() {
    let mut s = coord("drop");
    push_commits(&mut s.c, &["你", "好"]);
    let mut st = State::new();
    st.input_buffer = "ni".to_string();
    st.preedit = "ni".to_string();
    st.active = Some(ModeKind::TempEnglish);
    st.temp_english_buffer = "he".to_string();
    let act = s.enter(&mut st);
    assert!(st.input_buffer.is_empty() && st.preedit.is_empty());
    assert!(st.temp_english_buffer.is_empty());
    assert_eq!(st.active, None);
    match act {
        KeyAction::UpdateComposition { text, caret_pos } => {
            assert_eq!(text, " ");
            assert_eq!(caret_pos, 0);
        }
        other => panic!("{other:?}"),
    }
    assert!(matches!(s.out.pending[0], Effect::UiHide));
    assert!(matches!(s.out.pending[1], Effect::UiAddWordPanel));
}

#[test]
fn adjust_length_clamps() {
    let mut s = coord("adjust");
    push_commits(&mut s.c, &["一", "二", "三"]);
    let mut st = State::new();
    s.enter(&mut st);
    assert_eq!(st.add_word_len, 2);
    s.adjust(&mut st, 1);
    assert_eq!(st.add_word_len, 3);
    s.adjust(&mut st, 1);
    assert_eq!(st.add_word_len, 3);
    assert_eq!(add_word_current_word(&st), "一二三");
    s.adjust(&mut st, -5);
    assert_eq!(st.add_word_len, 1);
    assert_eq!(add_word_current_word(&st), "三");
}

#[test]
fn adjusting_asks_for_the_code_of_the_new_word() {
    let mut s = coord("adjust_code");
    push_commits(&mut s.c, &["一", "二", "三"]);
    let mut st = State::new();
    s.enter(&mut st);
    st.add_word_code = "old".to_string();
    let step = adjust_add_word_length(&mut st, 1);
    match step.need {
        AddWordNeed::Code { word } => assert_eq!(word, "一二三"),
        other => panic!("{other:?}"),
    }
    assert!(st.add_word_code.is_empty());
    let step = adjust_add_word_length(&mut st, 1);
    assert!(matches!(step.need, AddWordNeed::Nothing));
}

#[test]
fn confirm_empty_code_aborts_without_write() {
    let mut s = coord("abort");
    push_commits(&mut s.c, &["你", "好"]);
    let mut st = State::new();
    s.enter(&mut st);
    assert!(st.add_word_code.is_empty(), "headless 无引擎，编码应为空");
    let r = s.confirm(&mut st);
    assert!(!st.add_word_active, "确认后应退出加词模式");
    assert!(r.write.is_none());
}

#[test]
fn confirm_with_code_writes_user_word() {
    let mut s = coord("write");
    push_commits(&mut s.c, &["你", "好"]);
    let mut st = State::new();
    s.enter(&mut st);
    st.add_word_code = "nihao".to_string();
    let r = s.confirm(&mut st);
    assert!(!st.add_word_active);
    let w = r.write.expect("应写入 1 条用户词");
    assert_eq!(w.code, "nihao");
    assert_eq!(w.word, "你好");
    assert_eq!(w.weight, 1200);
    assert!(matches!(r.action, KeyAction::ClearComposition));
}

#[test]
fn only_a_word_the_store_took_is_announced() {
    let mut s = coord("announce");
    push_commits(&mut s.c, &["你", "好"]);
    let mut st = State::new();
    s.enter(&mut st);
    let none = s.key(&mut st, &key(VK_RETURN, false));
    assert!(none.write.is_none());
    let mut out = Outbox::new();
    assert!(matches!(finish_add_word(none, true, &mut out), KeyAction::ClearComposition));
    assert!(out.pending.is_empty(), "nothing was to be written");
    for written in [false, true] {
        s.enter(&mut st);
        st.add_word_code = "nihao".to_string();
        let r = s.key(&mut st, &key(VK_RETURN, false));
        assert!(r.write.is_some());
        assert!(matches!(s.out.pending.last(), Some(Effect::UiHide)));
        let mut out = Outbox::new();
        assert!(matches!(finish_add_word(r, written, &mut out), KeyAction::ClearComposition));
        match &out.pending[..] {
            [] => assert!(!written),
            [Effect::DictChanged { schema }] => assert!(written && schema == "pinyin"),
            other => panic!("{other:?}"),
        }
    }
}

#[test]
fn pinyin_rejects_non_han_word_and_adds_han_word() {
    let mut s = coord("fallback");
    s.primary = Some(EngineType::Pinyin);
    s.c.engine.schema_type = Some(EngineType::Pinyin);
    let mut written: Vec<(String, String)> = Vec::new();
    push_commits(&mut s.c, &["你", "好", "a"]);
    let mut st = State::new();
    s.enter(&mut st);
    s.adjust(&mut st, 1);
    assert_eq!(add_word_current_word(&st), "你好a");
    assert!(st.add_word_code.is_empty(), "含非汉字应取不出码");
    written.extend(s.confirm(&mut st).write.map(|w| (w.code, w.word)));
    assert!(written.is_empty(), "不得把丢了字母的「ni hao → 你好a」写进库");
    push_commits(&mut s.c, &["你", "好"]);
    s.enter(&mut st);
    assert_eq!(add_word_current_word(&st), "你好");
    assert_eq!(st.add_word_code, "nihao", "落库 code 必须扁平、无空格");
    assert_eq!(st.add_word_boundary, 0b101, "音节边界 ni|hao");
    assert_eq!(add_word_display_code(&st), "ni hao");
    written.extend(s.confirm(&mut st).write.map(|w| (w.code, w.word)));
    assert_eq!(written, vec![("nihao".to_string(), "你好".to_string())]);
}

#[test]
fn learn_phrase_promotes_at_threshold_via_6a() {
    let mut c = plain_coord();
    c.engine.auto_learn.enabled = true;
    c.engine.auto_learn.promote_count = 2;
    let seg = |code: &str, text: &str| Seg {
        raw_code: code.to_string(),
        code: code.to_string(),
        text: text.to_string(),
        source: CandidateSource::CodeTable,
        boundary: 0,
    };
    let mut st = State::new();
    let mut temp: Option<u32> = None;
    let mut user: Vec<(String, String)> = Vec::new();
    let mut learn = |c: &mut Coordinator, st: &mut State, temp: &mut Option<u32>| {
        st.committed_segs = vec![seg("aa", "工"), seg("bb", "人")];
        let r = c.learn_phrase_on_commit(st, false).expect("两段成词");
        assert_eq!((r.code.as_str(), r.text.as_str()), ("aabb", "工人"));
        *temp = Some(temp.unwrap_or(0) + 1);
        let promote = c.engine.auto_learn.promote_count;
        let l = c.settle_learn(&r.code, LearnReply::Counted(temp.unwrap()), promote);
        if l.promote {
            *temp = None;
            user.push((r.code, r.text));
        }
    };
    learn(&mut c, &mut st, &mut temp);
    assert_eq!(temp, Some(1), "第 1 次造词后临时层 count 应为 1");
    learn(&mut c, &mut st, &mut temp);
    assert_eq!(temp, None, "晋升后临时层应删除");
    assert!(user.iter().any(|(_, t)| t == "工人"), "用户词层应含晋升的词");
}

#[test]
fn confirm_needs_a_store_and_a_schema() {
    let mut s = coord("nostore");
    push_commits(&mut s.c, &["你", "好"]);
    let mut st = State::new();
    s.enter(&mut st);
    st.add_word_code = "nihao".to_string();
    assert!(s.c.confirm_add_word(&mut st, None, &mut s.out).write.is_none());
    s.c.engine.has_store = false;
    s.enter(&mut st);
    st.add_word_code = "nihao".to_string();
    assert!(s.confirm(&mut st).write.is_none());
}

#[test]
fn exit_resets_state() {
    let mut s = coord("exit");
    push_commits(&mut s.c, &["你", "好"]);
    let mut st = State::new();
    s.enter(&mut st);
    assert!(st.add_word_active);
    exit_add_word_mode(&mut st, &mut s.out);
    assert!(!st.add_word_active);
    assert!(st.add_word_chars.is_empty());
    assert_eq!(st.add_word_len, 0);
    assert!(st.add_word_code.is_empty());
}

#[test]
fn trim_segs_keeps_tail_within_max() {
    let seg = |c: &str, t: &str| Seg {
        raw_code: c.to_string(),
        code: c.to_string(),
        text: t.to_string(),
        source: CandidateSource::CodeTable,
        boundary: 0u64,
    };
    let segs = vec![seg("aa", "工人"), seg("bb", "们"), seg("cc", "好的")];
    assert_eq!(trim_segs_start(&segs, 3), 1);
    assert_eq!(trim_segs_start(&segs, 0), 0);
    assert_eq!(trim_segs_start(&segs, 1), 3);
}

#[test]
fn build_page_omits_empty_fields() {
    let args = |w, c, s| build_settings_args(&[("text", w), ("code", c), ("schema", s)]);
    assert_eq!(args("你好", "nihao", "pinyin"), "--text=你好 --code=nihao --schema=pinyin");
    assert_eq!(args("", "", ""), "");
    assert_eq!(args("你好", "", "wubi"), "--text=你好 --schema=wubi");
}

#[test]
fn build_args_quotes_values_with_whitespace() {
    assert_eq!(
        build_settings_args(&[("text", "hello world"), ("schema", "wubi86")]),
        "--text=\"hello world\" --schema=wubi86"
    );
}

#[test]
fn display_code_restores_syllable_spaces() {
    assert_eq!(display_code("nihao", 0b101), "ni hao");
    assert_eq!(display_code("chongqing", 0b100001), "chong qing");
    assert_eq!(display_code("aabb", 0), "aabb");
    assert_eq!(display_code("ni", 0b1), "ni");
    assert_eq!(display_code("", 0), "");
}

#[test]
fn display_code_counts_bytes() {
    assert_eq!(display_code("é1a", 0b101), "é 1a");
    assert_eq!(display_code("中a", 0b1001), "中 a");
}

#[test]
fn add_word_display_code_reads_boundary_from_state() {
    let mut s = coord("display_code_state");
    push_commits(&mut s.c, &["你", "好"]);
    let mut st = State::new();
    s.enter(&mut st);
    st.add_word_code = "nihao".to_string();
    st.add_word_boundary = 0b101;
    assert_eq!(
        add_word_display_code(&st),
        "ni hao",
        "展示形态必须带音节空格，与设置页「出码」按钮及词库列表同形"
    );
    st.add_word_code = "aabb".to_string();
    st.add_word_boundary = 0;
    assert_eq!(add_word_display_code(&st), "aabb");
}

#[test]
fn prefill_args_quote_spaced_code() {
    let code = display_code("nihao", 0b101);
    assert_eq!(
        build_settings_args(&[("text", "你好"), ("code", &code), ("schema", "pinyin")]),
        "--text=你好 --code=\"ni hao\" --schema=pinyin"
    );
}

#[test]
fn tab_switches_to_clipboard_and_selects_whole() {
    let mut s = coord_with_clip("tabclip", "量子纠缠态");
    push_commits(&mut s.c, &["你", "好"]);
    let mut st = State::new();
    s.enter(&mut st);
    assert!(!st.add_word_from_clip, "有最近输入时默认来源必须是最近输入");
    assert_eq!(add_word_current_word(&st), "你好");
    s.toggle(&mut st);
    assert!(st.add_word_from_clip);
    assert_eq!(st.add_word_len, 5, "剪贴板来源默认全选");
    assert_eq!(add_word_current_word(&st), "量子纠缠态");
    s.toggle(&mut st);
    assert!(!st.add_word_from_clip);
    assert_eq!(st.add_word_len, 2);
    assert_eq!(add_word_current_word(&st), "你好");
}

#[test]
fn clipboard_source_trims_from_tail() {
    let mut s = coord_with_clip("cliptrim", "量子纠缠态");
    push_commits(&mut s.c, &["你", "好"]);
    let mut st = State::new();
    s.enter(&mut st);
    s.toggle(&mut st);
    s.adjust(&mut st, -1);
    assert_eq!(add_word_current_word(&st), "量子纠缠");
    s.adjust(&mut st, -1);
    assert_eq!(add_word_current_word(&st), "量子纠");
}

#[test]
fn enter_auto_lands_on_clipboard_when_no_recent() {
    let mut s = coord_with_clip("autoclip", "量子纠缠");
    let mut st = State::new();
    s.enter(&mut st);
    assert!(st.add_word_from_clip, "没有最近输入时应直接落在剪贴板");
    assert_eq!(add_word_current_word(&st), "量子纠缠");
    s.toggle(&mut st);
    assert!(!st.add_word_from_clip);
    assert_eq!(st.add_word_len, 0);
}

#[test]
fn enter_keeps_recent_when_available() {
    for (tag, clip) in [("keepempty", ""), ("keepfull", "剪贴内容")] {
        let mut s = coord_with_clip(tag, clip);
        push_commits(&mut s.c, &["你", "好"]);
        let mut st = State::new();
        s.enter(&mut st);
        assert!(!st.add_word_from_clip, "{tag}: 有最近输入就该停在最近输入");
    }
}

#[test]
fn tab_switches_even_when_clipboard_unusable() {
    for (tag, clip) in [
        ("clipempty", "".to_string()),
        ("clipblank", "   \t ".to_string()),
        ("clipmulti", "第一行\n第二行".to_string()),
    ] {
        let mut s = coord_with_clip(tag, &clip);
        push_commits(&mut s.c, &["你", "好"]);
        let mut st = State::new();
        s.enter(&mut st);
        assert!(
            add_word_pool(&st).is_empty() || !st.add_word_from_clip,
            "{tag}: 不合规的剪贴板必须当作空池"
        );
        s.toggle(&mut st);
        assert!(st.add_word_from_clip, "{tag}: 空的一侧也必须切得过去");
        assert_eq!(st.add_word_len, 0, "{tag}: 空池无可选词");
        let rows = add_word_panel_rows(&st);
        assert_eq!(rows[0].text, "快捷加词 · 剪贴板");
        assert_eq!(rows[1].text, "剪贴板无可用内容");
        s.toggle(&mut st);
        assert_eq!(add_word_current_word(&st), "你好", "{tag}: 切得回来");
    }
}

#[test]
fn clipboard_at_max_len_is_usable() {
    let word = "字".repeat(ADD_WORD_MAX_LEN);
    let mut s = coord_with_clip("clipmax", &word);
    push_commits(&mut s.c, &["你", "好"]);
    let mut st = State::new();
    s.enter(&mut st);
    s.toggle(&mut st);
    assert!(st.add_word_from_clip);
    assert_eq!(add_word_current_word(&st), word);
}

#[test]
fn tab_uses_frozen_pool_not_a_fresh_read() {
    let mut s = coord_with_clip("clipfrozen", "定格");
    push_commits(&mut s.c, &["你", "好"]);
    let mut st = State::new();
    s.enter(&mut st);
    st.add_word_clip = Some("改过".chars().collect());
    s.toggle(&mut st);
    assert_eq!(
        add_word_current_word(&st),
        "改过",
        "Tab 必须用 State 里定格的池，而不是现读剪贴板"
    );
    assert_eq!(s.reads, 0);
}

#[test]
fn exit_clears_clipboard_source() {
    let mut s = coord_with_clip("clipexit", "残留");
    push_commits(&mut s.c, &["你", "好"]);
    let mut st = State::new();
    s.enter(&mut st);
    s.toggle(&mut st);
    assert!(st.add_word_from_clip);
    exit_add_word_mode(&mut st, &mut s.out);
    assert!(!st.add_word_from_clip, "退出必须复位来源");
    assert!(st.add_word_clip.is_none(), "退出必须把剪贴板池复位成「没读过」");
}

#[test]
fn overlong_clipboard_is_truncated_not_rejected() {
    let long: String = "量子纠缠态的测量与坍缩过程很复杂".to_string();
    assert!(long.chars().count() > ADD_WORD_MAX_LEN, "夹具本身要够长");
    let head: String = long.chars().take(ADD_WORD_MAX_LEN).collect();
    let mut s = coord_with_clip("cliptrunc", &long);
    push_commits(&mut s.c, &["你", "好"]);
    let mut st = State::new();
    s.enter(&mut st);
    s.toggle(&mut st);
    assert_eq!(add_word_current_word(&st), head);
    assert_eq!(st.add_word_len, ADD_WORD_MAX_LEN, "截断后仍是全选");
    let (word, _) = s.c.add_word_prefill_from_history(&long, &no_code());
    assert_eq!(word, head, "超长剪贴板须截断取用，不得回退最近输入");
}

#[test]
fn entering_with_recent_input_never_reads_clipboard() {
    let mut s = coord_with_clip("lazyenter", "剪贴内容");
    push_commits(&mut s.c, &["你", "好"]);
    let mut st = State::new();
    s.enter(&mut st);
    assert_eq!(s.reads, 0, "有最近上屏时进入加词模式不得读剪贴板");
    s.adjust(&mut st, 1);
    s.adjust(&mut st, -1);
    assert_eq!(s.reads, 0, "调词长不得读剪贴板");
}

#[test]
fn clipboard_is_read_once_and_reused() {
    let mut s = coord_with_clip("lazyonce", "量子纠缠");
    let mut st = State::new();
    s.enter(&mut st);
    assert_eq!(s.reads, 1, "自动落点判断读一次");
    assert!(st.add_word_from_clip);
    s.toggle(&mut st);
    s.toggle(&mut st);
    assert_eq!(s.reads, 1, "Tab 复用定格池，不得重读");
    assert_eq!(add_word_current_word(&st), "量子纠缠");
}

#[test]
fn tab_reads_clipboard_on_demand() {
    let mut s = coord_with_clip("lazytab", "量子纠缠");
    push_commits(&mut s.c, &["你", "好"]);
    let mut st = State::new();
    s.enter(&mut st);
    assert_eq!(s.reads, 0);
    s.toggle(&mut st);
    assert_eq!(s.reads, 1, "切到剪贴板时读一次");
    assert_eq!(add_word_current_word(&st), "量子纠缠");
    s.toggle(&mut st);
    s.toggle(&mut st);
    assert_eq!(s.reads, 1, "只读那一次");
}

#[test]
fn escape_exits_from_every_state() {
    let cases: [(&str, &str, &[&str], bool); 3] = [
        ("esc_recent", "剪贴内容", &["你", "好"], false),
        ("esc_clip", "量子纠缠", &["你", "好"], true),
        ("esc_empty", "", &[], false),
    ];
    for (tag, clip, commits, switch) in cases {
        let mut s = coord_with_clip(tag, clip);
        push_commits(&mut s.c, commits);
        let mut st = State::new();
        s.enter(&mut st);
        if switch {
            s.toggle(&mut st);
        }
        assert!(st.add_word_active, "{tag}: 前提——已进入加词模式");
        let act = s.key(&mut st, &key(VK_ESCAPE, false));
        assert!(
            matches!(act.action, KeyAction::ClearComposition),
            "{tag}: ESC 必须清掉占位组合，否则宿主那边的组合区留着不动"
        );
        assert!(!st.add_word_active, "{tag}: ESC 必须退出加词模式");
        assert!(st.add_word_clip.is_none(), "{tag}: 退出须复位剪贴板池");
        assert!(!st.add_word_from_clip, "{tag}: 退出须复位来源");
    }
}

#[test]
fn backspace_exits_like_escape() {
    let mut s = coord_with_clip("escback", "");
    push_commits(&mut s.c, &["你", "好"]);
    let mut st = State::new();
    s.enter(&mut st);
    s.key(&mut st, &key(VK_BACK, false));
    assert!(!st.add_word_active, "退格应与 ESC 同样退出");
}

#[test]
fn keys_of_the_panel() {
    let mut s = coord_with_clip("keys", "剪贴内容");
    push_commits(&mut s.c, &["一", "二", "三"]);
    let mut st = State::new();
    s.enter(&mut st);
    let step = s.key(&mut st, &key(VK_UP, false));
    assert_eq!(st.add_word_len, 3);
    s.settle(&mut st, step.need);
    let step = s.key(&mut st, &key(VK_DOWN, false));
    assert_eq!(st.add_word_len, 2);
    s.settle(&mut st, step.need);
    let step = s.key(&mut st, &key(VK_TAB, false));
    assert!(matches!(step.need, AddWordNeed::Clipboard));
    s.settle(&mut st, step.need);
    assert_eq!(add_word_current_word(&st), "剪贴内容");
    let step = s.key(&mut st, &key(VK_SPACE, false));
    assert!(matches!(step.action, KeyAction::Consumed));
    assert!(st.add_word_active);
    st.add_word_code = "jtnr".to_string();
    let step = s.key(&mut st, &key(VK_RETURN, false));
    assert_eq!(step.write.unwrap().word, "剪贴内容");
}

#[test]
fn ctrl_return_hands_the_word_to_the_settings_program() {
    let mut s = coord("dialog");
    push_commits(&mut s.c, &["你", "好"]);
    let mut st = State::new();
    s.enter(&mut st);
    st.add_word_code = "nihao".to_string();
    st.add_word_boundary = 0b101;
    let step = s.key(&mut st, &key(VK_RETURN, true));
    assert!(step.write.is_none());
    assert!(!st.add_word_active);
    match s.out.pending.last() {
        Some(Effect::OpenAddWordDialog { args }) => {
            assert_eq!(args, "--text=你好 --code=\"ni hao\" --schema=pinyin")
        }
        other => panic!("{other:?}"),
    }
}

#[test]
fn panel_hint_is_a_dim_third_row() {
    let mut s = coord_with_clip("panelrows", "剪贴内容");
    push_commits(&mut s.c, &["你", "好"]);
    let mut st = State::new();
    s.enter(&mut st);
    let rows = add_word_panel_rows(&st);
    assert_eq!(rows.len(), 3, "标题 / 词与编码 / 提示");
    assert_eq!(rows[0].text, "快捷加词 · 最近输入");
    assert!(rows[0].comment.is_empty(), "标题行不再挂提示，否则又被撑宽");
    assert_eq!(rows[1].text, "你好");
    assert_eq!(rows[1].comment, "无法计算编码");
    assert!(
        rows[2].text.is_empty(),
        "提示必须留在 comment 走注释色，放 text 会比标题还抢眼"
    );
    assert!(rows[2].comment.contains("Tab切换来源"));
    assert!(rows.iter().all(|r| r.no_index), "三行都不显序号");
}

#[test]
fn panel_looks_the_same_on_both_sources() {
    let mut s = coord("panelbothempty");
    let mut st = State::new();
    s.enter(&mut st);
    let rows = add_word_panel_rows(&st);
    assert_eq!(rows[0].text, "快捷加词 · 最近输入", "空也要标来源");
    assert_eq!(rows[1].text, "无最近输入");
    assert_eq!(rows[2].comment, "Tab切换来源  Esc关闭");
    s.toggle(&mut st);
    let rows = add_word_panel_rows(&st);
    assert_eq!(rows[0].text, "快捷加词 · 剪贴板");
    assert_eq!(rows[1].text, "剪贴板无可用内容");
    assert_eq!(
        rows[1].comment, "需要单行文本",
        "空态须交代准入条件，否则用户以为复制没生效"
    );
    assert_eq!(rows[2].comment, "Tab切换来源  Esc关闭", "两侧提示同形");
}

#[test]
fn from_history_prefers_clipboard() {
    let mut s = coord_with_clip("histclip", "量子纠缠");
    push_commits(&mut s.c, &["你", "好"]);
    let (word, _) = s.c.add_word_prefill_from_history(&s.clip, &no_code());
    assert_eq!(word, "量子纠缠", "剪贴板可用时必须优先于最近输入");
}

#[test]
fn from_history_falls_back_to_recent() {
    for (tag, clip) in [
        ("histempty", "".to_string()),
        ("histmulti", "一行\n二行".to_string()),
    ] {
        let mut s = coord_with_clip(tag, &clip);
        push_commits(&mut s.c, &["世", "界", "和", "平"]);
        let (word, _) = s.c.add_word_prefill_from_history(&s.clip, &no_code());
        assert_eq!(word, "和平", "{tag}: 剪贴板不可用须回退最近输入末尾 2 字");
    }
}

#[test]
fn from_history_empty_when_no_source() {
    let s = coord_with_clip("histnone", "");
    let (word, code) = s.c.add_word_prefill_from_history(
        &s.clip,
        &WordCode { code: "x".to_string(), boundary: 0 },
    );
    assert!(word.is_empty() && code.is_empty());
}

#[test]
fn from_history_does_not_enter_add_word_mode() {
    let mut s = coord("fromhist");
    push_commits(&mut s.c, &["你", "好"]);
    let mut st = State::new();
    s.c.open_add_word_from_history(&mut st, &s.clip, &no_code(), &mut s.out);
    assert!(!st.add_word_active, "直开加词界面不应进入加词模式");
    assert!(st.add_word_chars.is_empty(), "不应填充加词字符池");
}

#[test]
fn sanitize_trims_but_never_truncates() {
    assert_eq!(sanitize_dict_add_text("  你好 \r\n").unwrap(), "你好");
    assert!(sanitize_dict_add_text("你好\n世界").is_err(), "内含换行应拒绝");
    assert!(sanitize_dict_add_text("   \t \n ").is_err(), "空白串应拒绝");
    assert!(sanitize_dict_add_text("").is_err());
}

#[test]
fn derivable_word_rejects_non_han_and_overlong() {
    assert!(check_derivable_word("你好").is_ok());
    assert!(check_derivable_word("hello").is_err(), "纯英文取不出码");
    assert!(check_derivable_word("你好abc").is_err(), "混入非汉字应拒绝");
    assert!(check_derivable_word("你好，").is_err(), "中文标点应拒绝");
    let long: String = std::iter::repeat_n('好', ADD_WORD_MAX_LEN + 1).collect();
    assert!(check_derivable_word(&long).is_err(), "超上限应拒绝");
    let ok: String = std::iter::repeat_n('好', ADD_WORD_MAX_LEN).collect();
    assert!(check_derivable_word(&ok).is_ok(), "恰好等于上限应放行");
}

#[test]
fn toast_clamp_limits_length() {
    assert_eq!(toast_clamp("你好"), "你好");
    let long: String = std::iter::repeat_n('好', 40).collect();
    let out = toast_clamp(&long);
    assert_eq!(out.chars().count(), 17, "16 字 + 省略号");
    assert!(out.ends_with('…'));
}

#[test]
fn dict_add_with_explicit_code_writes_user_word() {
    let s = coord("dictadd_code");
    let w = s
        .c
        .try_dict_add("(╯°□°)╯", "kaomoji", &no_code(), Some("pinyin".to_string()))
        .unwrap();
    assert_eq!(w.code, "kaomoji");
    assert_eq!(w.word, "(╯°□°)╯");
    assert_eq!(w.boundary, 0);
    assert_eq!(w.weight, ADD_WORD_WEIGHT);
    assert_eq!(s.c.cmd_dict_add(&w), "已加词：(╯°□°)╯");
}

#[test]
fn dict_add_without_code_takes_derive_path_and_reports() {
    let s = coord("dictadd_derive");
    let err = s
        .c
        .try_dict_add("你好", "", &no_code(), Some("pinyin".to_string()))
        .unwrap_err()
        .message();
    assert!(err.contains("取不出编码"), "应走推导路径并如实报因: {err}");
    assert!(!err.contains("你好"), "错误消息不得含词本身: {err}");
}

#[test]
fn dict_add_rejects_multiline_clipboard() {
    let s = coord("dictadd_multiline");
    let err = s
        .c
        .try_dict_add("第一行\n第二行", "", &no_code(), Some("pinyin".to_string()))
        .unwrap_err()
        .message();
    assert!(err.contains("换行"), "应因换行被拒: {err}");
    assert!(!err.contains("第一行"), "错误消息不得含剪贴板内容: {err}");
}

#[test]
fn every_reason_not_to_add() {
    let mut s = coord("reasons");
    let schema = || Some("pinyin".to_string());
    let found = WordCode { code: "nihao".to_string(), boundary: 0b101 };
    let added = s.c.try_dict_add(" 你好 ", "", &found, schema()).unwrap();
    assert_eq!(added.word, "你好");
    assert_eq!((added.code.as_str(), added.boundary), ("nihao", 0b101));
    assert_eq!(
        s.c.dict_add_needs_code("你好", "").unwrap(),
        Some("你好".to_string())
    );
    assert_eq!(s.c.dict_add_needs_code("你好", "x").unwrap(), None);
    assert_eq!(
        s.c.try_dict_add("你好", "", &found, None).unwrap_err(),
        DictAddError::NoSchema
    );
    assert_eq!(
        s.c.try_dict_add("  ", "", &found, schema()).unwrap_err(),
        DictAddError::Empty
    );
    assert_eq!(
        s.c.try_dict_add("hello", "", &found, schema()).unwrap_err(),
        DictAddError::NotHan
    );
    let long = s.c.try_dict_add("好好好好好好好好好好好", "", &found, schema()).unwrap_err();
    assert_eq!(long, DictAddError::TooLong { count: 11 });
    assert_eq!(long.message(), "内容过长（11 字，上限 10）");
    assert_eq!(DictAddError::Empty.message(), "内容为空");
    assert_eq!(DictAddError::NotHan.message(), "含非汉字，无法自动取码");
    assert_eq!(DictAddError::NoSchema.message(), "混输方案主码表缺失，无法归属加词");
    s.c.engine.has_store = false;
    let err = s.c.try_dict_add("你好", "", &found, schema()).unwrap_err();
    assert_eq!(err, DictAddError::NoStore);
    assert_eq!(err.message(), "无词库存储");
}

#[test]
fn codes_come_from_where_the_schema_says() {
    let mut s = coord("route");
    let replies = || CodeReplies {
        pinyin: WordCode { code: "nihao".to_string(), boundary: 0b101 },
        table: Some("wqvb".to_string()),
    };
    s.c.engine.schema_type = Some(EngineType::English);
    assert_eq!(s.c.calc_add_word_code("Hello", None, replies()).code, "hello");
    assert!(matches!(s.c.add_word_code_route("Hello", None), CodeRoute::Known(_)));
    s.c.engine.schema_type = Some(EngineType::Pinyin);
    let c = s.c.calc_add_word_code("你好", None, replies());
    assert_eq!((c.code.as_str(), c.boundary), ("nihao", 0b101));
    assert_eq!(s.c.calc_add_word_code("你好a", None, replies()).code, "");
    s.c.engine.schema_type = Some(EngineType::Mixed);
    s.c.engine.mixed_primary = Some("wubi86".to_string());
    let c = s.c.calc_add_word_code("你好", Some(EngineType::CodeTable), replies());
    assert_eq!((c.code.as_str(), c.boundary), ("wqvb", 0));
    assert_eq!(s.c.add_word_target_schema(), "wubi86");
    s.c.engine.mixed_primary = None;
    assert_eq!(s.c.add_word_target_schema(), "pinyin");
}

#[test]
fn context_holds_the_longest_word_there_could_be() {
    let mut s = coord("context");
    push_commits(&mut s.c, &["一二三四五六", "七八九十百"]);
    let ctx = s.c.add_word_context();
    assert_eq!(ctx.recent_text, "二三四五六七八九十百");
    assert_eq!(ctx.max_len, 10);
    assert_eq!(ctx.schema_id, "pinyin");
}

#[test]
fn default_lengths_differ_by_source() {
    assert_eq!(default_add_word_len(true, 7), 7);
    assert_eq!(default_add_word_len(true, 12), 10);
    assert_eq!(default_add_word_len(false, 7), 2);
    assert_eq!(default_add_word_len(false, 1), 1);
}

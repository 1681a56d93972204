//! Candidates: expansion, order, codes, and what keeps an input from being cleared.

use wind_coordinator::assembly::{finalize_candidates, DictExpansion, GroupItem};
use wind_coordinator::candidate::{Candidate, CandidateSource, MatchRank};
use wind_coordinator::coordinator::{
    AutoLearnSettings, AutoPhraseSettings, CodetableSettings, Coordinator, EngineFacts, Settings,
    TopCommitMode,
};
use wind_coordinator::learning::FreqPolicy;
use wind_coordinator::ranking::{
    candidate_display_order, clear_blocked_by_candidates, resolve_auto_commit_min_len,
    sort_for_display, wants_codetable_split, DisplayRule,
};
use wind_coordinator::state::State;

fn engine() -> EngineFacts {
    EngineFacts {
        active_schema: "pinyin".to_string(),
        schema_type: None,
        engine_type: None,
        is_pinyin: false,
        is_codetable: false,
        is_english: false,
        max_code_length: 0,
        ignores_weight: false,
        english_code_by_input: false,
        mixed_primary: None,
        codetable: CodetableSettings {
            single_code_input: false,
            single_code_complete: false,
            auto_commit_at_full: false,
            auto_commit_min_len: 0,
            z_key_repeat: false,
            auto_phrase: AutoPhraseSettings {
                enabled: false,
                min_phrase_len: 2,
                max_phrase_len: 4,
                promote_count: 0,
                idle_timeout_ms: 0,
                temp_max_entries: 0,
            },
        },
        auto_learn: AutoLearnSettings {
            enabled: false,
            min_word_length: 2,
            max_word_length: 0,
            promote_count: 0,
        },
        has_store: true,
    }
}

fn settings() -> Settings {
    Settings {
        per_page: 9,
        per_page_extended: 0,
        overflow_number_key: "ignore".to_string(),
        overflow_select_key: "ignore".to_string(),
        overflow_select_char_key: "ignore".to_string(),
        top_commit_mode: TopCommitMode::PreConfirm,
        deferred_ms: 150,
        english_raw_candidate: false,
        english_case_variants: false,
        english_commit_space: false,
        phrase_min_prefix: 2,
        assoc_enabled: false,
        assoc_continuous: false,
        assoc_hide_after_ms: 3000,
        assoc_hint: "联想输入".to_string(),
        preedit_inline: true,
        assoc_enter_cancels_only: false,
        assoc_backspace_cancels_only: true,
        delete_candidate: None,
        pin_candidate: None,
        special_schemas: Vec::new(),
    }
}

fn plain_coord() -> Coordinator {
    Coordinator::new(settings(), engine())
}

#[test]
fn zero_follows_max_code_length() {
    assert_eq!(resolve_auto_commit_min_len(0, 4), 4);
}

#[test]
fn explicit_value_wins_over_max_code_length() {
    assert_eq!(resolve_auto_commit_min_len(2, 4), 2);
    assert_eq!(resolve_auto_commit_min_len(6, 4), 6);
}

#[test]
fn no_max_code_length_disables_gate() {
    assert_eq!(resolve_auto_commit_min_len(0, 0), 0);
}

fn cand(text: &str) -> Candidate {
    Candidate { text: text.to_string(), ..Default::default() }
}

fn cand_code(text: &str, code: &str) -> Candidate {
    Candidate { text: text.to_string(), code: code.to_string(), ..Default::default() }
}

#[test]
fn freq_code_splits_codetable_from_pinyin() {
    let mut ct = cand_code("有", "def");
    ct.source = CandidateSource::CodeTable;
    assert_eq!(
        Coordinator::freq_code_with("de", &ct, false),
        "de",
        "码表须按输入码记账，否则 d/de/def 三个码位会互相串扰"
    );
    assert_eq!(Coordinator::freq_code_with("d", &ct, false), "d");
    assert_eq!(Coordinator::freq_code_with("def", &ct, false), "def");

    let mut py = cand_code("东西", "dongxi");
    py.source = CandidateSource::Pinyin;
    assert_eq!(
        Coordinator::freq_code_with("d", &py, false),
        "dongxi",
        "拼音按候选码——跨码位共享才是想要的行为"
    );
    assert_eq!(
        Coordinator::freq_code_with("d", &py, true),
        "dongxi",
        "英文开关不得波及拼音"
    );

    let mut bare = cand_code("啊", "");
    bare.source = CandidateSource::Pinyin;
    assert_eq!(Coordinator::freq_code_with("a", &bare, false), "a");
}

#[test]
fn freq_code_english_scope_is_switchable() {
    let mut en = cand_code("hello", "hello");
    en.source = CandidateSource::English;
    assert_eq!(
        Coordinator::freq_code_with("hel", &en, false),
        "hello",
        "默认 candidate：打 hel 选 hello 后，打 he 也该受益"
    );
    assert_eq!(
        Coordinator::freq_code_with("hel", &en, true),
        "hel",
        "切到 input：各前缀独立学习，与码表同侧"
    );
}

/// What a group of single characters stands for.
fn group(name: &str, chars: &str) -> DictExpansion {
    DictExpansion::Group {
        name: name.to_string(),
        items: chars
            .chars()
            .map(|c| GroupItem { display: c.to_string(), command_src: None })
            .collect(),
    }
}

#[test]
fn aa_group_expands_inline_when_code_absent() {
    let out = finalize_candidates(
        vec![cand(r#"$AA("数字", "①②③")"#)],
        &vec![group("数字", "①②③")],
        "sz",
    );
    let texts: Vec<&str> = out.iter().map(|c| c.text.as_str()).collect();
    assert_eq!(texts, vec!["①", "②", "③"], "$AA 应一对多炸开为逐字符候选");
    assert!(out.iter().all(|c| !c.is_command && !c.is_group));
}

#[test]
fn aa_group_expands_inline_at_exact_code() {
    let out = finalize_candidates(
        vec![cand_code(r#"$AA("箭头", "←↑→↓")"#, "arrx")],
        &vec![group("箭头", "←↑→↓")],
        "arrx",
    );
    let texts: Vec<&str> = out.iter().map(|c| c.text.as_str()).collect();
    assert_eq!(texts, vec!["←", "↑", "→", "↓"]);
}

#[test]
fn aa_group_collapses_to_name_at_prefix() {
    let out = finalize_candidates(
        vec![cand_code(r#"$AA("箭头", "←↑→↓")"#, "arrx")],
        &vec![group("箭头", "←↑→↓")],
        "arr",
    );
    assert_eq!(out.len(), 1, "前缀应折叠为单个组名候选");
    assert_eq!(out[0].text, "箭头", "折叠候选显示组名");
    assert!(out[0].is_group, "折叠候选标 is_group");
    assert_eq!(
        out[0].group_code, "arrx",
        "group_code 为完整码，选中补全后重查展开"
    );
    assert!(!out[0].is_command);
}

#[test]
fn marks_cc_command_and_keeps_source() {
    let src = r#"$CC("切简繁", ime.toggle("s2t"))"#;
    let expansion = DictExpansion::Single {
        display: "切简繁".to_string(),
        command_src: Some(src.to_string()),
    };
    let out = finalize_candidates(vec![cand(src)], &vec![expansion], "co");
    assert_eq!(out.len(), 1);
    assert_eq!(out[0].text, "切简繁", "$CC display 作候选文本");
    assert!(out[0].is_command, "$CC 应标 is_command");
    assert_eq!(out[0].phrase_template, src, "命令源留存供选中执行");
}

#[test]
fn plain_candidates_pass_through_unchanged() {
    let out = finalize_candidates(
        vec![cand("你好"), cand("价格$5")],
        &vec![DictExpansion::Plain, DictExpansion::Plain],
        "nh",
    );
    let texts: Vec<&str> = out.iter().map(|c| c.text.as_str()).collect();
    assert_eq!(texts, vec!["你好", "价格$5"]);
    assert!(out.iter().all(|c| !c.is_command));
}

#[test]
fn already_command_candidate_is_not_re_expanded() {
    let mut pre = cand(r#"$AA("x","ab")"#);
    pre.is_command = true;
    let out = finalize_candidates(vec![pre], &vec![group("x", "ab")], "x");
    assert_eq!(out.len(), 1, "已标命令不应被再炸开");
    assert!(out[0].is_command);
}

/// Syntax that stands for nothing leaves no candidate.
#[test]
fn dropped_entries_leave_nothing() {
    let out = finalize_candidates(
        vec![cand("好"), cand("{x}")],
        &vec![DictExpansion::Plain, DictExpansion::Drop],
        "h",
    );
    assert_eq!(out.len(), 1);
    assert_eq!(out[0].text, "好");
}

const XU_LEN: usize = 2;

fn rule(ignore_weight: bool, mixed: bool) -> DisplayRule {
    DisplayRule { ignore_weight, mixed, input_len: XU_LEN, by_text: false }
}

fn ranked(layer: u32, tier: u32) -> MatchRank {
    MatchRank { layer, extra: 0, tier }
}

fn cand_ordered(text: &str, base_order: i32, natural_order: i32, weight: i32) -> Candidate {
    Candidate {
        text: text.into(),
        code: "y".into(),
        base_order,
        natural_order,
        weight,
        ..Default::default()
    }
}

/// Mixed input `xu`: an exact code-table entry, an exact pinyin one, and a code-table
/// completion.
fn xu_scene() -> (Candidate, Candidate, Candidate) {
    let ct_exact = Candidate {
        text: "弱".into(),
        code: "xu".into(),
        weight: 9950,
        is_common: true,
        is_exact_code: true,
        source: CandidateSource::CodeTable,
        rank: ranked(0, 0),
        ..Default::default()
    };
    let py_exact = Candidate {
        text: "需".into(),
        code: "xu".into(),
        weight: 69,
        is_common: true,
        source: CandidateSource::Pinyin,
        rank: ranked(0, 1),
        ..Default::default()
    };
    let ct_prefix = Candidate {
        text: "弹幕".into(),
        code: "xuaj".into(),
        weight: 1554,
        is_common: true,
        source: CandidateSource::CodeTable,
        rank: ranked(0, 2),
        ..Default::default()
    };
    (ct_exact, py_exact, ct_prefix)
}

#[test]
fn mixed_pinyin_exact_sits_between_codetable_exact_and_prefix() {
    let (ct_exact, py_exact, ct_prefix) = xu_scene();
    let mut cands = [ct_prefix, py_exact, ct_exact];
    cands.sort_by(|a, b| candidate_display_order(a, b, rule(false, true)));
    let order: Vec<&str> = cands.iter().map(|c| c.text.as_str()).collect();
    assert_eq!(
        order,
        vec!["弱", "需", "弹幕"],
        "混输应为「码表精确 → 拼音精确 → 码表前缀补全」"
    );
}

#[test]
fn non_mixed_keeps_weight_order_for_pinyin() {
    let (_, py_exact, ct_prefix) = xu_scene();
    let mut cands = [py_exact, ct_prefix];
    cands.sort_by(|a, b| candidate_display_order(a, b, rule(false, false)));
    assert_eq!(
        cands[0].text, "弹幕",
        "非混输时应回落到纯权重序（1554 > 69），拼音精确档不得生效"
    );
}

#[test]
fn mixed_prefix_phrase_sits_below_codetable_prefix() {
    let (_, _, ct_prefix) = xu_scene();
    let prefix_phrase = Candidate {
        text: "短语正文".into(),
        weight: 99_999,
        is_phrase: true,
        is_exact_code: false,
        source: CandidateSource::Phrase,
        rank: ranked(0, 3),
        ..Default::default()
    };
    let mut cands = [prefix_phrase, ct_prefix];
    cands.sort_by(|a, b| candidate_display_order(a, b, rule(false, true)));
    assert_eq!(
        cands[0].text, "弹幕",
        "码表前缀补全须先于前缀短语，且与两者的权重取值无关"
    );
}

#[test]
fn mixed_rare_pinyin_char_stays_below_codetable_prefix() {
    let (_, py_exact, ct_prefix) = xu_scene();
    let rare = Candidate {
        text: "𬣙".into(),
        weight: 0,
        is_common: false,
        rank: ranked(0, 4),
        ..py_exact
    };
    let mut cands = [rare, ct_prefix];
    cands.sort_by(|a, b| candidate_display_order(a, b, rule(false, true)));
    assert_eq!(
        cands[0].text, "弹幕",
        "生僻同音字不得越过码表前缀补全（否则 329 条同音字会挤爆配额）"
    );
}

#[test]
fn mixed_within_pinyin_exact_tier_weight_still_decides() {
    let (_, py_exact, _) = xu_scene();
    let xu_low = Candidate { text: "序".into(), weight: 13, ..py_exact.clone() };
    let mut cands = [xu_low, py_exact];
    cands.sort_by(|a, b| candidate_display_order(a, b, rule(false, true)));
    assert_eq!(cands[0].text, "需", "同档内仍按权重降序（69 > 13）");
}

#[test]
fn base_order_wins_over_cross_dict_natural_order() {
    let yi = cand_ordered("一", 0, 57285, 0);
    let youshi = cand_ordered("有时", 2, 24, 0);
    for ignore_weight in [false, true] {
        let mut cands = [youshi.clone(), yi.clone()];
        cands.sort_by(|a, b| candidate_display_order(a, b, rule(ignore_weight, false)));
        assert_eq!(
            cands[0].text, "一",
            "base_order=0 主库候选应排在 base_order=2 次选库候选之前（ignore_weight={ignore_weight}）"
        );
        assert_eq!(cands[1].text, "有时");
    }
}

#[test]
fn natural_mode_ignores_weight_weight_mode_respects_it() {
    let main_low = cand_ordered("主低", 0, 100, 1);
    let extra_high = cand_ordered("扩高", 1, 5, 999);
    let mut w = [main_low.clone(), extra_high.clone()];
    w.sort_by(|a, b| candidate_display_order(a, b, rule(false, false)));
    assert_eq!(w[0].text, "扩高", "weight 模式高权重应靠前");
    let mut n = [main_low, extra_high];
    n.sort_by(|a, b| candidate_display_order(a, b, rule(true, false)));
    assert_eq!(
        n[0].text, "主低",
        "natural 模式忽略权重、按 base_order 升序，主库应靠前"
    );
}

#[test]
fn exact_code_outranks_prefix_but_stays_within_match_layer() {
    let exact = Candidate {
        text: "新".into(),
        code: "usr".into(),
        weight: 11777,
        natural_order: 10,
        is_exact_code: true,
        ..Default::default()
    };
    let prefix_word = Candidate {
        text: "新的".into(),
        code: "usrq".into(),
        weight: 47487,
        natural_order: 20,
        ..Default::default()
    };
    let prefix_phrase = Candidate {
        text: "短语".into(),
        weight: 2000,
        is_phrase: true,
        is_prefix: true,
        rank: ranked(1, 0),
        ..Default::default()
    };
    let guide_group = |weight: i32| Candidate {
        text: "组名".into(),
        weight,
        is_phrase: true,
        is_group: true,
        is_exact_code: true,
        ..Default::default()
    };
    let order_of = |group: Candidate, ignore_weight: bool| -> Vec<String> {
        let mut cands =
            vec![prefix_phrase.clone(), prefix_word.clone(), exact.clone(), group];
        cands.sort_by(|a, b| candidate_display_order(a, b, rule(ignore_weight, false)));
        cands.into_iter().map(|c| c.text).collect()
    };

    assert_eq!(
        order_of(guide_group(1230), false),
        vec!["新", "组名", "新的", "短语"],
        "精确档内按权重：组短语 1230 < 简码 11777 ⇒ 排其后；两者仍先于前缀词组"
    );
    assert_eq!(
        order_of(guide_group(20000), false),
        vec!["组名", "新", "新的", "短语"],
        "精确档内按权重：组短语 20000 > 简码 11777 ⇒ 回到首位"
    );
    for w in [1230, 20000] {
        assert_eq!(
            order_of(guide_group(w), true),
            vec!["组名", "新", "新的", "短语"],
            "natural 模式下精确档按 natural_order，与权重 {w} 无关"
        );
    }
}

/// Candidates that explain more input come first, and ties keep their order.
#[test]
fn sorting_is_stable_and_prefers_longer_matches() {
    let mut list = vec![
        Candidate { consumed_length: 1, weight: 99, ..cand("短") },
        cand("甲"),
        cand("乙"),
    ];
    sort_for_display(&mut list, rule(false, false));
    let texts: Vec<&str> = list.iter().map(|c| c.text.as_str()).collect();
    assert_eq!(texts, vec!["甲", "乙", "短"]);
    let by_text = DisplayRule { by_text: true, ..rule(false, false) };
    sort_for_display(&mut list, by_text);
    let texts: Vec<&str> = list.iter().map(|c| c.text.as_str()).collect();
    assert_eq!(texts, vec!["乙", "甲", "短"], "U+4E59 comes before U+7532");
}

fn pinyin(text: &str, consumed: usize) -> Candidate {
    Candidate {
        text: text.into(),
        source: CandidateSource::Pinyin,
        consumed_length: consumed,
        ..Default::default()
    }
}

fn codetable(text: &str) -> Candidate {
    Candidate {
        text: text.into(),
        source: CandidateSource::CodeTable,
        consumed_length: 0,
        ..Default::default()
    }
}

#[test]
fn codetable_split_shows_only_on_highlighted_sentence() {
    let sentence = Candidate {
        text: "工作工作".into(),
        source: CandidateSource::CodeTable,
        is_sentence: true,
        ..Default::default()
    };
    let plain = codetable("工作");

    assert!(
        wants_codetable_split("aawt'aawt", Some(&sentence)),
        "高亮整句候选时应显示切分"
    );
    assert!(
        !wants_codetable_split("aawt'aawt", Some(&plain)),
        "高亮普通码表候选时不得显示切分——那个切法不对应它"
    );
    assert!(!wants_codetable_split("", Some(&sentence)), "没有切分串时不显示");
    assert!(!wants_codetable_split("aawt'aawt", None), "无候选时不显示");
    let pinyin_sentence = Candidate {
        text: "工作".into(),
        source: CandidateSource::Pinyin,
        is_sentence: true,
        ..Default::default()
    };
    assert!(!wants_codetable_split("aawt'aawt", Some(&pinyin_sentence)));
}

#[test]
fn empty_list_never_blocks() {
    assert!(!clear_blocked_by_candidates(&vec![], 4), "空列表不得拦清空");
}

#[test]
fn partial_pinyin_candidate_does_not_block() {
    let cands = vec![pinyin("嫩", 3)];
    assert!(
        !clear_blocked_by_candidates(&cands, 4),
        "拼音部分匹配（consumed 3 < 4）不得替整串挡下清空"
    );
}

#[test]
fn full_pinyin_candidate_blocks() {
    let cands = vec![pinyin("暖", 4)];
    assert!(
        clear_blocked_by_candidates(&cands, 4),
        "拼音消费整串 → 有效匹配，必须拦住清空"
    );
}

#[test]
fn non_pinyin_candidate_always_blocks() {
    assert!(
        clear_blocked_by_candidates(&vec![codetable("工")], 4),
        "码表候选（consumed_length=0 未标注）须视为整串匹配并拦住清空"
    );
    let phrase = Candidate { text: "地址".into(), is_phrase: true, ..Default::default() };
    assert!(
        clear_blocked_by_candidates(&vec![phrase], 4),
        "短语候选必须拦住清空（zzbd 等码表无字但短语命中）"
    );
}

#[test]
fn mixed_list_blocks_only_on_effective_candidate() {
    let only_partial = vec![pinyin("嫩", 3), pinyin("女", 2)];
    assert!(
        !clear_blocked_by_candidates(&only_partial, 4),
        "全是拼音部分匹配 → 不拦"
    );
    let with_full = vec![pinyin("嫩", 3), pinyin("暖", 4)];
    assert!(
        clear_blocked_by_candidates(&with_full, 4),
        "混有一条消费整串的拼音候选 → 拦住"
    );
}

#[test]
fn phrase_cand_id_shape() {
    assert_eq!(
        Coordinator::phrase_cand_id("date", "$Y-$MM-$DD"),
        "phrase:date:$Y-$MM-$DD"
    );
    assert_eq!(Coordinator::phrase_cand_id("date", ""), "");
}

/// A store of adjustments that moves `word` to the front under `code`.
fn adjusted(list: &[&str], code: &str, rules: &[(&str, &str)]) -> Vec<String> {
    let mut list: Vec<String> = list.iter().map(|s| s.to_string()).collect();
    for (at, word) in rules {
        if *at == code {
            if let Some(i) = list.iter().position(|t| t == word) {
                let t = list.remove(i);
                list.insert(0, t);
            }
        }
    }
    list
}

#[test]
fn shuangpin_keystroke_reads_rule_written_under_full_pinyin() {
    let rules = [("hao", "好")];
    let code = {
        let mut state = State::new();
        state.input_buffer = "hc".into();
        state.shadow_code = "hao".into();
        Coordinator::shadow_code_of(&state)
    };
    assert_eq!(code, "hao", "归一码非空时必须优先于击键缓冲");
    assert_eq!(
        adjusted(&["耗", "好", "号"], &code, &rules),
        ["好", "耗", "号"],
        "双拼 hc 应读到全拼 hao 下的置顶规则"
    );
    assert_eq!(
        adjusted(&["耗", "好", "号"], "hc", &rules),
        ["耗", "好", "号"],
        "击键码 hc 下没有规则，顺序必须原样——否则上面那条断言证明不了归一起了作用"
    );
}

#[test]
fn full_pinyin_shadow_code_is_identity() {
    let mut state = State::new();
    assert_eq!(Coordinator::shadow_code_of(&state), "");
    state.input_buffer = "xi'an".into();
    state.shadow_code.clear();
    assert_eq!(
        Coordinator::shadow_code_of(&state),
        "xi'an",
        "全拼须原样取击键（含手动分隔符——`'` 是硬边界，剥掉会与 xian 撞 key）"
    );
}

#[test]
fn phrase_commit_does_not_record_freq() {
    let mut c = plain_coord();
    let policy =
        FreqPolicy { enabled: true, excluded: false, schema: Some("pinyin".to_string()) };
    let w = c.record_selection_in("date", "2026-07-29", CandidateSource::Phrase, &policy);
    assert!(w.is_none(), "短语候选不得写入词频");
    assert_eq!(
        c.recent_commits_snapshot().first().map(|s| s.as_str()),
        Some("2026-07-29"),
        "不记词频不等于不记上屏历史"
    );
    let w = c.record_selection_in("date", "日期", CandidateSource::CodeTable, &policy).unwrap();
    assert_eq!((w.schema.as_str(), w.code.as_str(), w.text.as_str()), ("pinyin", "date", "日期"));
}

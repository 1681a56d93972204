//! Commands: the directory they start in, their arguments, and their run.

use std::path::Path;
use wind_coordinator::command::{
    choose_workdir, eval_command_text_only, resolve_workdir_with, shell_quote_args, ActionKind,
    CmdbarCtx, CommandEval, CommandRun, CommandStart, TextPush, TextStep, WorkdirFallback,
};
use wind_coordinator::coordinator::{
    AutoLearnSettings, AutoPhraseSettings, CodetableSettings, Coordinator, EngineFacts, Settings,
    TopCommitMode,
};

fn engine() -> EngineFacts {
    EngineFacts {
        active_schema: "pinyin".to_string(),
        schema_type: None,
        engine_type: None,
        is_pinyin: false,
        is_codetable: false,
        is_english: false,
        max_code_length: 0,
        ignores_weight: false,
        english_code_by_input: false,
        mixed_primary: None,
        codetable: CodetableSettings {
            single_code_input: false,
            single_code_complete: false,
            auto_commit_at_full: false,
            auto_commit_min_len: 0,
            z_key_repeat: false,
            auto_phrase: AutoPhraseSettings {
                enabled: false,
                min_phrase_len: 2,
                max_phrase_len: 4,
                promote_count: 0,
                idle_timeout_ms: 0,
                temp_max_entries: 0,
            },
        },
        auto_learn: AutoLearnSettings {
            enabled: false,
            min_word_length: 2,
            max_word_length: 0,
            promote_count: 0,
        },
        has_store: true,
    }
}

fn settings() -> Settings {
    Settings {
        per_page: 9,
        per_page_extended: 0,
        overflow_number_key: "ignore".to_string(),
        overflow_select_key: "ignore".to_string(),
        overflow_select_char_key: "ignore".to_string(),
        top_commit_mode: TopCommitMode::PreConfirm,
        deferred_ms: 150,
        english_raw_candidate: false,
        english_case_variants: false,
        english_commit_space: false,
        phrase_min_prefix: 2,
        assoc_enabled: false,
        assoc_continuous: false,
        assoc_hide_after_ms: 3000,
        assoc_hint: "联想输入".to_string(),
        preedit_inline: true,
        assoc_enter_cancels_only: false,
        assoc_backspace_cancels_only: true,
        delete_candidate: None,
        pin_candidate: None,
        special_schemas: Vec::new(),
    }
}

fn plain_coord() -> Coordinator {
    Coordinator::new(settings(), engine())
}

fn dirs(list: &'static [&'static str]) -> impl Fn(&str) -> bool {
    move |p: &str| list.iter().any(|d| Path::new(d) == Path::new(p))
}

fn home() -> Option<String> {
    Some("C:/Users/me".to_string())
}

fn no_home() -> Option<String> {
    None
}

#[test]
fn defaults_to_directory_of_target_program() {
    let (dir, fb) = resolve_workdir_with("D:/Dict/dict.exe", "", dirs(&["D:/Dict"]), home);
    assert_eq!(dir, "D:/Dict");
    assert_eq!(fb, None);
}

#[test]
fn bare_command_name_falls_back_to_home_not_empty() {
    let (dir, fb) = resolve_workdir_with("notepad.exe", "", dirs(&[]), home);
    assert_eq!(dir, "C:/Users/me");
    assert_eq!(fb, Some(WorkdirFallback::NoTargetDir));
}

/// The only known directory is the one a path reading of the address would give.
#[test]
fn url_target_does_not_go_through_path_parent() {
    let url = "https://www.zdic.net/hans/x";
    let bogus_parent = Path::new(url).parent().unwrap().to_string_lossy().into_owned();
    let (dir, fb) =
        resolve_workdir_with(url, "", move |p: &str| Path::new(p) == Path::new(&bogus_parent), home);
    assert_eq!(dir, "C:/Users/me", "URL 不应被当成路径拆父目录");
    assert_eq!(fb, Some(WorkdirFallback::NoTargetDir));
}

#[test]
fn explicit_cwd_wins_over_target_dir() {
    let (dir, fb) = resolve_workdir_with(
        "D:/Dict/dict.exe",
        "E:/Data",
        dirs(&["D:/Dict", "E:/Data"]),
        home,
    );
    assert_eq!(dir, "E:/Data");
    assert_eq!(fb, None);
}

#[test]
fn missing_explicit_cwd_degrades_with_reason() {
    let (dir, fb) = resolve_workdir_with("D:/Dict/dict.exe", "E:/typo", dirs(&["D:/Dict"]), home);
    assert_eq!(dir, "C:/Users/me");
    assert_eq!(fb, Some(WorkdirFallback::ExplicitMissing));
}

#[test]
fn nonexistent_target_dir_is_not_passed_through() {
    let (dir, _) = resolve_workdir_with("D:/gone/x.exe", "", dirs(&[]), home);
    assert_eq!(dir, "C:/Users/me");
}

#[test]
fn empty_only_when_nothing_resolvable() {
    let (dir, fb) = resolve_workdir_with("notepad.exe", "", dirs(&[]), no_home);
    assert_eq!(dir, "");
    assert_eq!(fb, Some(WorkdirFallback::Unresolved));
}

#[test]
fn blank_explicit_cwd_is_treated_as_unset() {
    let (dir, fb) = resolve_workdir_with("D:/Dict/d.exe", "   ", dirs(&["D:/Dict"]), home);
    assert_eq!(dir, "D:/Dict");
    assert_eq!(fb, None);
}

#[test]
fn an_empty_target_goes_home() {
    assert_eq!(
        resolve_workdir_with("", "", dirs(&[""]), home),
        ("C:/Users/me".to_string(), Some(WorkdirFallback::NoTargetDir))
    );
}

#[test]
fn the_directory_of_a_target_may_be_nested() {
    let (dir, fb) = resolve_workdir_with("/opt/dict/bin/d", "", dirs(&["/opt/dict/bin"]), home);
    assert_eq!((dir.as_str(), fb), ("/opt/dict/bin", None));
}

#[test]
fn the_directory_is_chosen_from_the_answers() {
    let target = || Some("D:/Dict".to_string());
    assert_eq!(
        choose_workdir("D:/Dict/d.exe", "E:/Data", target(), true, true, home()),
        ("E:/Data".to_string(), None)
    );
    assert_eq!(
        choose_workdir("D:/Dict/d.exe", "", target(), false, true, home()),
        ("D:/Dict".to_string(), None)
    );
    assert_eq!(
        choose_workdir("D:/Dict/d.exe", "", target(), false, false, home()),
        ("C:/Users/me".to_string(), Some(WorkdirFallback::NoTargetDir))
    );
    assert_eq!(
        choose_workdir("D:/Dict/d.exe", "E:/typo", target(), false, true, None),
        (String::new(), Some(WorkdirFallback::Unresolved))
    );
}

#[test]
fn arguments_are_quoted_where_they_need_it() {
    let line = |a: &[&str]| shell_quote_args(&a.iter().map(|s| s.to_string()).collect());
    assert_eq!(line(&[]), "");
    assert_eq!(line(&["a", "b"]), "a b");
    assert_eq!(line(&["a b", "c"]), "\"a b\" c");
    assert_eq!(line(&["say \"hi\""]), "\"say \\\"hi\\\"\"");
    assert_eq!(line(&["x", ""]), "x ");
}

fn run_of(kinds: Vec<ActionKind>) -> CommandRun {
    match CommandRun::start(CommandEval::Single(kinds)) {
        CommandStart::Run(r) => r,
        other => panic!("{other:?}"),
    }
}

fn pushed(p: Option<TextPush>) -> Option<(bool, String)> {
    p.map(|p| (p.pause, p.text))
}

#[test]
fn texts_arrive_before_effects_run() {
    let mut r = run_of(vec![
        ActionKind::Text,
        ActionKind::Text,
        ActionKind::Effect,
        ActionKind::Effect,
        ActionKind::Text,
    ]);
    assert_eq!(r.ready(), Some((0, false)));
    assert_eq!(pushed(r.done(Ok("甲".to_string()))), Some((true, "甲".to_string())));
    assert_eq!(r.ready(), Some((1, false)));
    assert_eq!(pushed(r.done(Ok("乙".to_string()))), Some((false, "乙".to_string())));
    assert_eq!(r.ready(), Some((2, true)), "a text is on its way");
    assert_eq!(pushed(r.done(Ok("ignored".to_string()))), None);
    assert_eq!(r.ready(), Some((3, false)), "the pause came already");
    assert_eq!(pushed(r.done(Ok(String::new()))), None);
    assert_eq!(r.ready(), Some((4, false)));
    assert_eq!(pushed(r.done(Ok(String::new()))), None, "an empty text is not sent");
    assert_eq!(r.ready(), None);
    assert_eq!(r.finish(), None);
}

#[test]
fn the_first_error_is_reported_at_the_end() {
    let mut r = run_of(vec![ActionKind::Effect, ActionKind::Text, ActionKind::Effect]);
    assert_eq!(r.ready(), Some((0, false)));
    assert_eq!(pushed(r.done(Err("first".to_string()))), None);
    assert_eq!(r.ready(), Some((1, false)));
    assert_eq!(pushed(r.done(Ok("字".to_string()))), Some((true, "字".to_string())));
    assert_eq!(r.ready(), Some((2, true)));
    assert_eq!(pushed(r.done(Err("second".to_string()))), None);
    assert_eq!(r.ready(), None);
    assert_eq!(r.finish(), Some("命令执行失败：first".to_string()));
}

#[test]
fn groups_and_failures_run_nothing() {
    assert!(matches!(CommandRun::start(CommandEval::Array), CommandStart::Nothing));
    match CommandRun::start(CommandEval::Failed("语法错误".to_string())) {
        CommandStart::Toast(t) => assert_eq!(t, "命令执行失败：语法错误"),
        other => panic!("{other:?}"),
    }
}

/// The text of a command whose actions give `texts` when they are run.
fn text_of(eval: &CommandEval, texts: &[Option<String>]) -> Option<String> {
    let mut given = Vec::new();
    loop {
        match eval_command_text_only(eval, &given) {
            TextStep::Run(i) => {
                assert_eq!(i, given.len(), "one after the other");
                given.push(texts[i].clone());
            }
            TextStep::Done(t) => return t,
        }
    }
}

#[test]
fn only_pure_texts_have_a_text() {
    let texts = |v: &[Option<&str>]| v.iter().map(|t| t.map(|s| s.to_string())).collect::<Vec<_>>();
    let two = || CommandEval::Single(vec![ActionKind::Text, ActionKind::Text]);
    assert_eq!(
        text_of(&two(), &texts(&[Some("甲"), Some("乙")])),
        Some("甲乙".to_string())
    );
    assert_eq!(text_of(&two(), &texts(&[Some("甲"), None])), None);
    let mixed = CommandEval::Single(vec![ActionKind::Text, ActionKind::Effect]);
    assert_eq!(text_of(&mixed, &texts(&[Some("甲"), Some("乙")])), None);
    assert!(matches!(eval_command_text_only(&mixed, &Vec::new()), TextStep::Done(None)));
    assert_eq!(text_of(&CommandEval::Array, &texts(&[])), None);
}

#[test]
fn commands_see_the_history_as_it_was() {
    let mut c = plain_coord();
    c.push_commit_history("一");
    c.push_commit_history("二");
    let r = c.run_command_candidate("$CC(\"x\", last(1))", "co");
    c.push_commit_history("三");
    assert_eq!(r.src, "$CC(\"x\", last(1))");
    assert_eq!(r.ctx.input, "co");
    assert_eq!(r.ctx.last, vec!["二", "一"]);
    assert_eq!(r.ctx.last(1), "二");
    assert_eq!(r.ctx.last(2), "一");
    assert_eq!(r.ctx.last(3), "");
    assert_eq!(r.ctx.last(0), "");
    assert_eq!(r.ctx.last(-1), "");
    assert_eq!(c.debug_run_command("src").ctx.input, "");
    assert_eq!(c.recent_commits_snapshot(), vec!["三", "二", "一"]);
    let blank = CmdbarCtx { input: String::new(), last: Vec::new() };
    assert_eq!(blank.last(i64::MAX), "");
}

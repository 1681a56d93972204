//! Character classes: their listing, their adjustments, and what files do to them.

use std::collections::BTreeMap;
use wind_coordinator::charset::{
    charset_import_undo, charset_rows, CharsetClassRow, CharsetDef, CharsetDoc, CharsetEdit,
    CharsetError, CharsetFacts, CharsetImported, ClassInfo, Commonality, ImportItem, OverrideRow,
    SavePlan,
};
use wind_coordinator::coordinator::{
    AutoLearnSettings, AutoPhraseSettings, CodetableSettings, Coordinator, EngineFacts, Settings,
    TopCommitMode,
};

fn engine() -> EngineFacts {
    EngineFacts {
        active_schema: "pinyin".to_string(),
        schema_type: None,
        engine_type: None,
        is_pinyin: false,
        is_codetable: false,
        is_english: false,
        max_code_length: 0,
        ignores_weight: false,
        english_code_by_input: false,
        mixed_primary: None,
        codetable: CodetableSettings {
            single_code_input: false,
            single_code_complete: false,
            auto_commit_at_full: false,
            auto_commit_min_len: 0,
            z_key_repeat: false,
            auto_phrase: AutoPhraseSettings {
                enabled: false,
                min_phrase_len: 2,
                max_phrase_len: 4,
                promote_count: 0,
                idle_timeout_ms: 0,
                temp_max_entries: 0,
            },
        },
        auto_learn: AutoLearnSettings {
            enabled: false,
            min_word_length: 2,
            max_word_length: 0,
            promote_count: 0,
        },
        has_store: true,
    }
}

fn settings() -> Settings {
    Settings {
        per_page: 9,
        per_page_extended: 0,
        overflow_number_key: "ignore".to_string(),
        overflow_select_key: "ignore".to_string(),
        overflow_select_char_key: "ignore".to_string(),
        top_commit_mode: TopCommitMode::PreConfirm,
        deferred_ms: 150,
        english_raw_candidate: false,
        english_case_variants: false,
        english_commit_space: false,
        phrase_min_prefix: 2,
        assoc_enabled: false,
        assoc_continuous: false,
        assoc_hide_after_ms: 3000,
        assoc_hint: "联想输入".to_string(),
        preedit_inline: true,
        assoc_enter_cancels_only: false,
        assoc_backspace_cancels_only: true,
        delete_candidate: None,
        pin_candidate: None,
        special_schemas: Vec::new(),
    }
}

fn plain_coord() -> Coordinator {
    Coordinator::new(settings(), engine())
}

fn def(key: &str) -> CharsetDef {
    CharsetDef {
        key: key.to_string(),
        name: None,
        ranges: None,
        file: None,
        scope: None,
        default: None,
        outside: None,
        order: None,
        no_freq: None,
        in_rare: None,
        enabled: None,
    }
}

fn doc(def: CharsetDef) -> CharsetDoc {
    CharsetDoc { def, added: Vec::new(), removed: Vec::new() }
}

fn class(key: &str, name: &str, order: i32) -> ClassInfo {
    ClassInfo {
        key: key.to_string(),
        name: name.to_string(),
        ranges: vec![(0x4e00, 0x9fff), (0x20, 0x20), (0x1f300, 0x1f5ff)],
        member_count: 3,
        order,
        default_common: Some(true),
        no_freq: false,
        in_rare: true,
    }
}

fn facts() -> CharsetFacts {
    CharsetFacts {
        classes: vec![class("b", "", 20), class("a", "甲", 20), class("c", "丙", 10)],
        factory: vec!["a".to_string(), "emoji".to_string()],
        user: vec![
            doc(CharsetDef { no_freq: Some(true), ..def("a") }),
            doc(CharsetDef { enabled: Some(false), order: Some(15), ..def("emoji") }),
            doc(CharsetDef { enabled: Some(false), ..def("c") }),
        ],
        decided: vec![Some("a".to_string()), None, Some("a".to_string()), Some("emoji".to_string())],
        default_order: 1000,
    }
}

/// What is on record after `plan`.
fn recorded(plan: SavePlan) -> Option<CharsetDoc> {
    match plan {
        SavePlan::Remove { .. } => None,
        SavePlan::Write { doc } => Some(doc),
    }
}

#[test]
fn rows_follow_the_order_of_deciding() {
    let rows = charset_rows(&facts());
    let keys: Vec<&str> = rows.iter().map(|r| r.key.as_str()).collect();
    assert_eq!(keys, vec!["c", "emoji", "a", "b"]);
    assert_eq!(
        rows[2],
        CharsetClassRow {
            key: "a".to_string(),
            name: "甲".to_string(),
            ranges: vec![
                "U+4E00-U+9FFF".to_string(),
                "U+0020".to_string(),
                "U+1F300-U+1F5FF".to_string()
            ],
            member_count: 3,
            order: 20,
            default_common: Some(true),
            no_freq: false,
            in_rare: true,
            enabled: true,
            builtin: true,
            overridden: true,
            override_count: 2,
        }
    );
    assert_eq!(rows[3].name, "b", "a class without a name goes by its key");
    assert!(!rows[3].builtin && !rows[3].overridden);
}

#[test]
fn a_class_switched_off_is_still_listed() {
    let rows = charset_rows(&facts());
    let row = rows.iter().find(|r| r.key == "emoji").unwrap();
    assert!(!row.enabled && row.overridden && row.builtin);
    assert_eq!((row.order, row.override_count, row.member_count), (15, 1, 0));
    assert_eq!(rows.iter().filter(|r| r.key == "c").count(), 1, "in force: listed once");
}

#[test]
fn a_default_is_set_and_taken_back() {
    let c = plain_coord();
    let rare = CharsetEdit { default_common: Some("rare".into()), ..Default::default() };
    let kept = recorded(c.charset_edit("emoji", &rare, true, None).unwrap()).unwrap();
    assert_eq!(kept.def.key, "emoji");
    assert_eq!(kept.def.default, Some(Commonality::Rare));
    assert!(kept.def.ranges.is_none(), "only what was changed is kept");
    let back = CharsetEdit { default_common: Some("inherit".into()), ..Default::default() };
    assert!(recorded(c.charset_edit("emoji", &back, true, Some(kept)).unwrap()).is_none());
    let common = CharsetEdit { default_common: Some("common".into()), ..Default::default() };
    let kept = recorded(c.charset_edit("emoji", &common, true, None).unwrap()).unwrap();
    assert_eq!(kept.def.default, Some(Commonality::Common));
}

#[test]
fn switching_off_and_on_leaves_no_record() {
    let c = plain_coord();
    let off = CharsetEdit { enabled: Some(false), ..Default::default() };
    let on = CharsetEdit { enabled: Some(true), ..Default::default() };
    let kept = recorded(c.charset_edit("emoji", &off, true, None).unwrap()).unwrap();
    assert_eq!(kept.def.enabled, Some(false));
    match c.charset_edit("emoji", &on, false, Some(kept)).unwrap() {
        SavePlan::Remove { key } => assert_eq!(key, "emoji"),
        other => panic!("{other:?}"),
    }
}

#[test]
fn flags_and_places_are_kept() {
    let c = plain_coord();
    let edit = CharsetEdit {
        no_freq: Some(true),
        in_rare: Some(true),
        order: Some(3),
        ..Default::default()
    };
    let kept = recorded(c.charset_edit("emoji", &edit, true, None).unwrap()).unwrap();
    assert_eq!((kept.def.no_freq, kept.def.in_rare, kept.def.order), (Some(true), Some(true), Some(3)));
    let undo = CharsetEdit { no_freq: Some(false), in_rare: Some(false), ..Default::default() };
    let kept = recorded(c.charset_edit("emoji", &undo, true, Some(kept)).unwrap()).unwrap();
    assert_eq!((kept.def.no_freq, kept.def.in_rare, kept.def.order), (None, None, Some(3)));
}

#[test]
fn records_of_other_classes_are_not_taken_over() {
    let c = plain_coord();
    let strange = doc(CharsetDef { order: Some(7), ..def("other") });
    let edit = CharsetEdit { no_freq: Some(true), ..Default::default() };
    let kept = recorded(c.charset_edit("emoji", &edit, true, Some(strange)).unwrap()).unwrap();
    assert_eq!((kept.def.key.as_str(), kept.def.order), ("emoji", None));
}

#[test]
fn every_reason_not_to_change_a_class() {
    let mut c = plain_coord();
    let edit = CharsetEdit { default_common: Some("rare".into()), ..Default::default() };
    let e = c.charset_edit("没有这个类", &edit, false, None).unwrap_err();
    assert!(matches!(e, CharsetError::Unknown { .. }));
    assert_eq!(e.message(), "没有名为「没有这个类」的字符类");
    let maybe = CharsetEdit { default_common: Some("maybe".into()), ..Default::default() };
    let e = c.charset_edit("emoji", &maybe, true, None).unwrap_err();
    assert_eq!(e.message(), "default 只能是 common / rare / inherit，收到「maybe」");
    let e = c.charset_delete("emoji", true).unwrap_err();
    assert!(matches!(e, CharsetError::Factory { .. }));
    assert_eq!(
        e.message(),
        "「emoji」是出厂类，不能删除；要去掉它请停用，要撤销调整请恢复默认"
    );
    assert!(matches!(c.charset_delete("mine", false), Ok(SavePlan::Remove { .. })));
    assert!(Coordinator::charset_deleted("mine", true).is_ok());
    assert!(matches!(
        Coordinator::charset_deleted("mine", false),
        Err(CharsetError::Unknown { .. })
    ));
    assert!(matches!(c.charset_reset("emoji"), Ok(SavePlan::Remove { .. })));
    assert!(c.charset_export_edit("mine", false, None).is_err());
    assert!(c.charset_export_edit("emoji", true, None).is_ok());
    assert!(matches!(
        c.charset_clear_redundant("emoji", false, &vec![]),
        Err(CharsetError::Unknown { .. })
    ));
    c.engine.has_store = false;
    let e = c.charset_edit("emoji", &edit, true, None).unwrap_err();
    assert!(matches!(e, CharsetError::NoStore));
    assert_eq!(e.message(), "无持久化存储，字符类的调整无处落盘");
    assert!(matches!(c.charset_reset("emoji"), Err(CharsetError::NoStore)));
}

#[test]
fn files_are_taken_whole_or_not_at_all() {
    let mut c = plain_coord();
    assert!(matches!(c.charset_import_file(vec![]), Err(CharsetError::NoClasses)));
    assert_eq!(CharsetError::NoClasses.message(), "文件里没有任何字符类");
    let good = || ImportItem {
        factory_name: Some("表情".to_string()),
        key: "emoji".to_string(),
        diff: Ok(CharsetDoc {
            def: CharsetDef { default: Some(Commonality::Rare), ..def("emoji") },
            added: Vec::new(),
            removed: vec!["😀".to_string()],
        }),
    };
    let mine = ImportItem {
        factory_name: None,
        key: "我的".to_string(),
        diff: Ok(CharsetDoc {
            def: CharsetDef { name: Some("我的符号".to_string()), ..def("我的") },
            added: vec!["★".to_string(), "☆".to_string()],
            removed: Vec::new(),
        }),
    };
    let untouched = ImportItem {
        factory_name: Some("汉字".to_string()),
        key: "common_han".to_string(),
        diff: Ok(doc(def("common_han"))),
    };
    let bad = ImportItem {
        factory_name: None,
        key: "x".to_string(),
        diff: Err("冲突".to_string()),
    };
    match c.charset_import_file(vec![good(), bad]) {
        Err(CharsetError::Diff { message }) => assert_eq!(message, "冲突"),
        other => panic!("{other:?}"),
    }
    let (plans, reports) = c.charset_import_file(vec![good(), mine, untouched]).unwrap();
    assert_eq!(
        reports,
        vec![
            CharsetImported {
                key: "emoji".to_string(),
                name: "表情".to_string(),
                builtin: true,
                added: 0,
                removed: 1,
                fields: 1,
            },
            CharsetImported {
                key: "我的".to_string(),
                name: "我的符号".to_string(),
                builtin: false,
                added: 2,
                removed: 0,
                fields: 1,
            },
            CharsetImported {
                key: "common_han".to_string(),
                name: "汉字".to_string(),
                builtin: true,
                added: 0,
                removed: 0,
                fields: 0,
            },
        ]
    );
    assert!(matches!(plans[0], SavePlan::Write { .. }));
    assert!(matches!(plans[1], SavePlan::Write { .. }));
    assert!(matches!(plans[2], SavePlan::Remove { .. }), "an untouched class leaves no record");
    c.engine.has_store = false;
    assert!(matches!(c.charset_import_file(vec![good()]), Err(CharsetError::NoStore)));
    assert!(matches!(c.charset_import_file(vec![]), Err(CharsetError::NoClasses)));
}

#[test]
fn a_save_that_fails_is_taken_back() {
    let plans = vec![
        SavePlan::Write { doc: doc(CharsetDef { order: Some(1), ..def("emoji") }) },
        SavePlan::Remove { key: "mine".to_string() },
        SavePlan::Write { doc: doc(def("new")) },
    ];
    let old = |key: &str| match key {
        "emoji" => None,
        "mine" => Some("mine, as it was".to_string()),
        _ => None,
    };
    let keys: Vec<String> = plans.iter().map(|p| p.key()).collect();
    assert_eq!(keys, vec!["emoji", "mine", "new"]);
    let back = charset_import_undo(&plans, keys.iter().map(|k| old(k)).collect());
    let mut store: BTreeMap<String, String> = BTreeMap::new();
    store.insert("emoji".to_string(), "order: 1".to_string());
    store.insert("other".to_string(), "stays".to_string());
    for r in back {
        match r.record {
            Some(t) => store.insert(r.key, t),
            None => store.remove(&r.key),
        };
    }
    let left: Vec<(&str, &str)> = store.iter().map(|(k, v)| (k.as_str(), v.as_str())).collect();
    assert_eq!(left, vec![("mine", "mine, as it was"), ("other", "stays")]);
}

#[test]
fn of_several_adjustments_with_one_key_the_last_counts() {
    let off = |key: &str, order: i32| {
        doc(CharsetDef { enabled: Some(false), order: Some(order), ..def(key) })
    };
    let mut f = facts();
    f.user = vec![off("emoji", 1), off("emoji", 7), off("gone", 2), doc(def("gone"))];
    let rows = charset_rows(&f);
    let emoji: Vec<i32> = rows.iter().filter(|r| r.key == "emoji").map(|r| r.order).collect();
    assert_eq!(emoji, vec![7], "listed once, by the last");
    assert!(!rows.iter().any(|r| r.key == "gone"), "the last does not switch it off");
}

#[test]
fn a_new_class_gets_a_free_key() {
    let taken = |v: &[&str]| v.iter().map(|s| s.to_string()).collect::<Vec<_>>();
    let first = Coordinator::charset_export_template(&taken(&[]));
    assert_eq!(first.def.key, "my_class_1");
    assert_eq!(first.def.name.as_deref(), Some("我的字符类"));
    assert_eq!(first.def.ranges.as_ref().map(|r| r.len()), Some(0));
    let second = Coordinator::charset_export_template(&taken(&[first.def.key.as_str()]));
    assert_eq!(second.def.key, "my_class_2");
    let both = taken(&[first.def.key.as_str(), second.def.key.as_str()]);
    let third = Coordinator::charset_export_template(&both);
    assert_eq!(third.def.key, "my_class_3");
}

#[test]
fn only_decisions_that_change_nothing_are_cleared() {
    let c = plain_coord();
    let row = |ch: &str, common: bool, class: Option<&str>, default_common: bool| OverrideRow {
        ch: ch.to_string(),
        common,
        class: class.map(|s| s.to_string()),
        default_common,
    };
    let rows = vec![
        row("😀", true, Some("emoji"), true),
        row("😃", false, Some("emoji"), true),
        row("我", true, Some("common_han"), true),
        row("😄", false, Some("emoji"), false),
        row("?", true, None, true),
    ];
    let (out, doomed) = c.charset_clear_redundant("emoji", true, &rows).unwrap();
    assert_eq!((out.scanned, out.removed), (3, 2));
    assert_eq!(doomed, vec!["😀", "😄"]);
}

/// A class that came with the program.
struct Factory {
    key: &'static str,
    members: Vec<String>,
    order: i32,
    default_common: Option<bool>,
}

/// The classes of a program with a store: what is decided is carried out, and the classes
/// in force are put together anew.
struct Program {
    c: Coordinator,
    factory: Vec<Factory>,
    store: BTreeMap<String, CharsetDoc>,
}

fn copy(d: &CharsetDoc) -> CharsetDoc {
    let f = &d.def;
    CharsetDoc {
        def: CharsetDef {
            key: f.key.clone(),
            name: f.name.clone(),
            ranges: f.ranges.clone(),
            file: f.file.clone(),
            scope: f.scope.clone(),
            default: f.default,
            outside: f.outside,
            order: f.order,
            no_freq: f.no_freq,
            in_rare: f.in_rare,
            enabled: f.enabled,
        },
        added: d.added.clone(),
        removed: d.removed.clone(),
    }
}

fn program() -> Program {
    let emoji = (0x1f300..0x1f8f0u32).filter_map(char::from_u32).map(|c| c.to_string());
    let class = |key, members, order, default_common| Factory { key, members, order, default_common };
    Program {
        c: plain_coord(),
        factory: vec![
            class("其它", Vec::new(), 900, None),
            class("emoji", emoji.collect(), 10, None),
            class("common_han", vec!["我".to_string()], 20, Some(true)),
            class("符号", Vec::new(), 30, None),
            class("基本汉字", Vec::new(), 40, None),
        ],
        store: BTreeMap::new(),
    }
}

impl Program {
    fn factory_of(&self, key: &str) -> Option<&Factory> {
        self.factory.iter().find(|f| f.key == key)
    }

    /// The classes in force with their members.
    fn registry(&self) -> Vec<(ClassInfo, Vec<String>)> {
        let own = self.store.keys().filter(|k| self.factory_of(k).is_none()).map(|k| k.as_str());
        let keys = self.factory.iter().map(|f| f.key).chain(own);
        let mut out = Vec::new();
        for key in keys {
            let d = self.store.get(key);
            if d.is_some_and(|d| d.def.enabled == Some(false)) {
                continue;
            }
            let f = self.factory_of(key);
            let mut members = f.map(|f| f.members.clone()).unwrap_or_default();
            if let Some(d) = d {
                members.retain(|m| !d.removed.contains(m));
                members.extend(d.added.clone());
            }
            let default = d.and_then(|d| d.def.default).map(|v| v == Commonality::Common);
            let info = ClassInfo {
                key: key.to_string(),
                name: String::new(),
                ranges: Vec::new(),
                member_count: members.len(),
                order: d.and_then(|d| d.def.order).or(f.map(|f| f.order)).unwrap_or(1000),
                default_common: default.or(f.and_then(|f| f.default_common)),
                no_freq: d.is_some_and(|d| d.def.no_freq == Some(true)),
                in_rare: d.is_some_and(|d| d.def.in_rare == Some(true)),
            };
            out.push((info, members));
        }
        out.sort_by(|a, b| (a.0.order, &a.0.key).cmp(&(b.0.order, &b.0.key)));
        out
    }

    fn holds(&self, key: &str) -> bool {
        self.registry().iter().any(|(c, _)| c.key == key)
    }

    fn is_common(&self, s: &str) -> bool {
        let reg = self.registry();
        let of = |(c, m): &(ClassInfo, Vec<String>)| {
            if m.iter().any(|x| x == s) { c.default_common } else { None }
        };
        reg.iter().find_map(of).unwrap_or(true)
    }

    fn no_freq(&self, s: &str) -> bool {
        self.registry().iter().any(|(c, m)| c.no_freq && m.iter().any(|x| x == s))
    }

    fn in_rare(&self, s: &str) -> bool {
        self.registry().iter().any(|(c, m)| c.in_rare && m.iter().any(|x| x == s))
    }

    fn stored(&self, key: &str) -> Option<&CharsetDoc> {
        self.store.get(key)
    }

    fn save(&mut self, plan: SavePlan) -> bool {
        match plan {
            SavePlan::Remove { key } => self.store.remove(&key).is_some(),
            SavePlan::Write { doc } => {
                self.store.insert(doc.def.key.clone(), doc);
                false
            }
        }
    }

    fn edit(&mut self, key: &str, edit: &CharsetEdit) -> Result<(), CharsetError> {
        let plan = self.c.charset_edit(key, edit, self.holds(key), self.stored(key).map(copy))?;
        self.save(plan);
        Ok(())
    }

    fn delete(&mut self, key: &str) -> Result<(), CharsetError> {
        let plan = self.c.charset_delete(key, self.factory_of(key).is_some())?;
        let removed = self.save(plan);
        Coordinator::charset_deleted(key, removed)
    }

    fn rows(&self) -> Vec<CharsetClassRow> {
        charset_rows(&CharsetFacts {
            classes: self.registry().into_iter().map(|(c, _)| c).collect(),
            factory: self.factory.iter().map(|f| f.key.to_string()).collect(),
            user: self.store.values().map(copy).collect(),
            decided: Vec::new(),
            default_order: 1000,
        })
    }

    /// What the edit file of a class shows: its adjustment, and all its members.
    fn export(&self, key: &str) -> (CharsetDef, Vec<String>) {
        let builtin = self.factory_of(key).is_some();
        let d = self.c.charset_export_edit(key, builtin, self.stored(key).map(copy)).unwrap();
        let reg = self.registry();
        let members = reg.into_iter().find(|(c, _)| c.key == key).map(|(_, m)| m);
        (d.def, members.unwrap_or_default())
    }

    /// How a class of a file differs from the one that came with the program.
    fn item(&self, def: CharsetDef, members: Vec<String>) -> ImportItem {
        let key = def.key.clone();
        let Some(f) = self.factory_of(&key) else {
            let diff = Ok(CharsetDoc { def, added: members, removed: Vec::new() });
            return ImportItem { factory_name: None, key, diff };
        };
        let diff = if def.ranges.is_some() {
            Err(format!("「{key}」是出厂类，范围只读"))
        } else {
            let added = members.iter().filter(|m| !f.members.contains(m)).cloned().collect();
            let removed = f.members.iter().filter(|m| !members.contains(m)).cloned().collect();
            Ok(CharsetDoc { def, added, removed })
        };
        ImportItem { factory_name: Some(f.key.to_string()), key, diff }
    }

    fn import(&mut self, items: Vec<ImportItem>) -> Result<Vec<CharsetImported>, CharsetError> {
        let (plans, out) = self.c.charset_import_file(items)?;
        for plan in plans {
            self.save(plan);
        }
        Ok(out)
    }
}

#[test]
fn setting_a_class_default_reaches_the_verdict() {
    let mut p = program();
    assert!(p.is_common("😀"), "出厂 emoji 类不表态 ⇒ 兜底判常用");
    p.edit("emoji", &CharsetEdit { default_common: Some("rare".into()), ..Default::default() })
        .unwrap();
    assert!(!p.is_common("😀"), "改完 default 应立即生效");
    assert!(p.is_common("我"), "常用汉字不该被带累");
    let d = p.stored("emoji").expect("改动必须落库，否则重启就没了");
    assert_eq!(d.def.default, Some(Commonality::Rare));
    assert!(d.def.ranges.is_none(), "只写用户改过的字段——写全量会把出厂值固化进用户层");
}

#[test]
fn inherit_removes_the_opinion_rather_than_pinning_it() {
    let mut p = program();
    p.edit("emoji", &CharsetEdit { default_common: Some("rare".into()), ..Default::default() })
        .unwrap();
    assert!(!p.is_common("😀"));
    p.edit("emoji", &CharsetEdit { default_common: Some("inherit".into()), ..Default::default() })
        .unwrap();
    assert!(p.is_common("😀"), "改回 inherit 应恢复到不表态");
    assert!(p.stored("emoji").is_none(), "整份调整已空 ⇒ 该删记录而不是留一份只有 key 的空壳");
}

#[test]
fn union_flags_take_effect_immediately() {
    let mut p = program();
    assert!(!p.no_freq("😀"), "出厂不免词频");
    assert!(!p.in_rare("😀"), "出厂不进生僻模式");
    let edit = CharsetEdit { no_freq: Some(true), in_rare: Some(true), ..Default::default() };
    p.edit("emoji", &edit).unwrap();
    assert!(p.no_freq("😀"));
    assert!(p.in_rare("😀"));
    assert!(!p.no_freq("我"), "汉字不该被带累");
}

#[test]
fn disabling_a_class_removes_it_and_enabling_brings_it_back() {
    let mut p = program();
    assert!(p.holds("emoji"));
    p.edit("emoji", &CharsetEdit { enabled: Some(false), ..Default::default() }).unwrap();
    assert!(!p.holds("emoji"), "停用的类不该还在 registry 里");
    p.edit("emoji", &CharsetEdit { enabled: Some(true), ..Default::default() }).unwrap();
    assert!(p.holds("emoji"), "恢复启用后该回来");
    assert!(p.stored("emoji").is_none(), "enabled=true 是默认值，不该留一条永远等于默认的记录");
}

#[test]
fn a_disabled_class_stays_visible_so_it_can_be_re_enabled() {
    let mut p = program();
    p.edit("emoji", &CharsetEdit { enabled: Some(false), ..Default::default() }).unwrap();
    let rows = p.rows();
    let row = rows
        .iter()
        .find(|r| r.key == "emoji")
        .expect("停用的类必须还在列表里，否则用户找不回它");
    assert!(!row.enabled, "该标成停用");
    assert!(row.overridden, "它的状态来自用户层调整");
    assert!(row.builtin, "停用了也还是出厂类");
}

#[test]
fn resetting_drops_every_adjustment() {
    let mut p = program();
    let edit = CharsetEdit {
        default_common: Some("rare".into()),
        no_freq: Some(true),
        order: Some(3),
        ..Default::default()
    };
    p.edit("emoji", &edit).unwrap();
    assert!(!p.is_common("😀"));
    let plan = p.c.charset_reset("emoji").unwrap();
    p.save(plan);
    assert!(p.is_common("😀"), "恢复默认后判定该回到出厂");
    assert!(!p.no_freq("😀"));
    assert!(p.stored("emoji").is_none());
}

#[test]
fn editing_an_unknown_class_fails_loudly() {
    let mut p = program();
    let edit = CharsetEdit { default_common: Some("rare".into()), ..Default::default() };
    let e = p.edit("没有这个类", &edit).unwrap_err();
    assert!(e.message().contains("没有名为"), "错误信息要说清是什么问题");
    assert!(p.store.is_empty(), "拒绝之后不该留下任何记录");
}

#[test]
fn an_invalid_default_value_is_rejected() {
    let mut p = program();
    let edit = CharsetEdit { default_common: Some("maybe".into()), ..Default::default() };
    let e = p.edit("emoji", &edit).unwrap_err();
    assert!(e.message().contains("common / rare / inherit"));
}

#[test]
fn rows_list_every_class_in_arbitration_order() {
    let p = program();
    let rows = p.rows();
    for key in ["emoji", "common_han", "符号", "基本汉字", "其它"] {
        let r = rows
            .iter()
            .find(|r| r.key == key)
            .unwrap_or_else(|| panic!("字符类列表里缺 {key}"));
        assert!(r.builtin, "{key} 是出厂类");
        assert!(!r.overridden, "出厂状态下没有调整");
    }
    let orders: Vec<i32> = rows.iter().map(|r| r.order).collect();
    let mut sorted = orders.clone();
    sorted.sort();
    assert_eq!(orders, sorted, "列表顺序必须与仲裁顺序一致");
    let emoji = rows.iter().find(|r| r.key == "emoji").unwrap();
    assert_eq!(emoji.default_common, None);
    assert!(emoji.member_count > 1400, "emoji 类该带着那份精确字表");
    let han = rows.iter().find(|r| r.key == "common_han").unwrap();
    assert_eq!(han.default_common, Some(true));
}

#[test]
fn export_edit_import_changes_the_verdict() {
    let mut p = program();
    let (def, mut members) = p.export("emoji");
    assert!(members.iter().any(|m| m == "😀"), "完整视图里该有出厂成员");
    members.retain(|m| m != "😀");
    let item = p.item(CharsetDef { default: Some(Commonality::Rare), ..def }, members);
    let out = p.import(vec![item]).unwrap();
    assert_eq!(out.len(), 1);
    assert_eq!(out[0].key, "emoji");
    assert!(out[0].builtin);
    assert_eq!((out[0].added, out[0].removed, out[0].fields), (0, 1, 1));
    assert!(!p.is_common("😃"), "整类判生僻生效");
    assert!(p.is_common("😀"), "被拿掉的那个不再属于 emoji 类 ⇒ 兜底判常用");
    let d = p.stored("emoji").unwrap();
    assert_eq!(d.removed, vec!["😀"], "库里是稀疏 diff");
    assert!(d.added.is_empty(), "没改的成员不该进库");
}

#[test]
fn importing_an_untouched_export_leaves_no_trace() {
    let mut p = program();
    let (def, members) = p.export("common_han");
    let item = p.item(def, members);
    let out = p.import(vec![item]).unwrap();
    assert_eq!((out[0].added, out[0].removed, out[0].fields), (0, 0, 0));
    assert!(p.stored("common_han").is_none());
    assert!(p.is_common("我"));
}

#[test]
fn importing_a_new_key_creates_a_custom_class_that_can_be_deleted() {
    let mut p = program();
    assert!(p.is_common("★"), "出厂不认识 ★ ⇒ 兜底判常用");
    let mine = CharsetDef {
        name: Some("我的生僻符号".to_string()),
        default: Some(Commonality::Rare),
        order: Some(1),
        ..def("我的生僻符号")
    };
    let item = p.item(mine, vec!["★".to_string(), "☆".to_string()]);
    let out = p.import(vec![item]).unwrap();
    assert!(!out[0].builtin);
    assert_eq!(out[0].added, 2);
    assert!(!p.is_common("★"), "自建类的 default 生效");
    let rows = p.rows();
    let row = rows.iter().find(|r| r.key == "我的生僻符号").unwrap();
    assert!(!row.builtin);
    assert!(row.overridden);
    assert_eq!(row.member_count, 2);
    p.delete("我的生僻符号").unwrap();
    assert!(p.is_common("★"), "删了之后判定回到出厂");
    assert!(!p.rows().iter().any(|r| r.key == "我的生僻符号"));
}

#[test]
fn deleting_a_factory_class_is_refused() {
    let mut p = program();
    let e = p.delete("emoji").unwrap_err();
    assert!(e.message().contains("出厂类"));
    assert!(p.holds("emoji"));
}

#[test]
fn importing_changed_factory_ranges_is_refused_and_leaves_the_store_untouched() {
    let mut p = program();
    let def = CharsetDef { ranges: Some(vec!["U+0000-U+FFFF".to_string()]), ..def("符号") };
    let item = p.item(def, Vec::new());
    let e = p.import(vec![item]).unwrap_err();
    assert!(e.message().contains("范围只读"));
    assert!(p.stored("符号").is_none());
}

#[test]
fn the_new_class_template_has_a_fresh_key() {
    let mut p = program();
    let mut taken: Vec<String> = p.factory.iter().map(|f| f.key.to_string()).collect();
    taken.extend(p.store.keys().cloned());
    let d = Coordinator::charset_export_template(&taken);
    assert_eq!(d.def.key, "my_class_1");
    let item = p.item(d.def, d.added);
    let out = p.import(vec![item]).unwrap();
    assert!(!out[0].builtin);
}

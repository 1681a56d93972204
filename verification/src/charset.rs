//! Character classes: listing them, adjusting them, and the file a class is edited in.

use crate::candidate::{opt_view, strings_view};
use crate::coordinator::Coordinator;
use crate::ranking::{
    text_before, text_is_before, text_order_irreflexive, text_order_total, text_order_transitive,
};
use crate::text::{decimal, decimal_text, hex, hex_text, joined, list_has, same};
use vstd::prelude::*;
use vstd::string::*;

verus! {

/// Whether characters count as common.
#[derive(Clone, Copy, PartialEq, Eq, Structural, Debug)]
pub enum Commonality {
    Common,
    Rare,
}

/// What a class says of itself; a field left out says nothing.
#[derive(Debug)]
pub struct CharsetDef {
    pub key: String,
    pub name: Option<String>,
    pub ranges: Option<Vec<String>>,
    pub file: Option<String>,
    pub scope: Option<String>,
    pub default: Option<Commonality>,
    pub outside: Option<Commonality>,
    pub order: Option<i32>,
    pub no_freq: Option<bool>,
    pub in_rare: Option<bool>,
    pub enabled: Option<bool>,
}

/// The user's adjustment of a class, or a class of the user's own.
#[derive(Debug)]
pub struct CharsetDoc {
    pub def: CharsetDef,
    /// Members added.
    pub added: Vec<String>,
    /// Members taken away.
    pub removed: Vec<String>,
}

/// A class as the listing shows it.
#[derive(Debug, Clone, PartialEq, Eq)]
pub struct CharsetClassRow {
    /// The name the class goes by in configurations.
    pub key: String,
    /// The name shown.
    pub name: String,
    /// Its code points, as text.
    pub ranges: Vec<String>,
    /// How many single members it has.
    pub member_count: usize,
    /// Its place among the classes; lower ones decide first.
    pub order: i32,
    /// Whether its characters are common; nothing when it does not say.
    pub default_common: Option<bool>,
    /// Its characters gather no frequency.
    pub no_freq: bool,
    /// It takes part in the rare-character mode.
    pub in_rare: bool,
    /// It is in force.
    pub enabled: bool,
    /// It came with the program: it cannot be deleted.
    pub builtin: bool,
    /// The user has adjusted it.
    pub overridden: bool,
    /// How many single characters of the class the user has decided on, which the
    /// class no longer reaches.
    pub override_count: usize,
}

/// A change to a class; a field left out is not changed.
#[derive(Debug, Clone, Default, PartialEq, Eq)]
pub struct CharsetEdit {
    /// `common`, `rare`, or `inherit` to say nothing.
    pub default_common: Option<String>,
    pub no_freq: Option<bool>,
    pub in_rare: Option<bool>,
    pub enabled: Option<bool>,
    pub order: Option<i32>,
}

/// What clearing away came to.
#[derive(Debug, Clone, Copy, Default, PartialEq, Eq)]
pub struct CharsetCleanupOutcome {
    /// Decisions looked at.
    pub scanned: usize,
    /// Decisions removed, since they said what holds anyway.
    pub removed: usize,
}

/// A class that was read from a file.
#[derive(Debug, Clone, PartialEq, Eq)]
pub struct CharsetImported {
    pub key: String,
    pub name: String,
    /// It adjusts a class that came with the program.
    pub builtin: bool,
    /// Members added, members taken away, and fields set.
    pub added: usize,
    pub removed: usize,
    pub fields: usize,
}

/// A class in force, as the registry reports it.
#[derive(Debug)]
pub struct ClassInfo {
    pub key: String,
    pub name: String,
    pub ranges: Vec<(u32, u32)>,
    pub member_count: usize,
    pub order: i32,
    pub default_common: Option<bool>,
    pub no_freq: bool,
    pub in_rare: bool,
}

/// A decision on a single character.
#[derive(Debug)]
pub struct OverrideRow {
    /// The character.
    pub ch: String,
    /// The user's decision.
    pub common: bool,
    /// The class that would decide.
    pub class: Option<String>,
    /// What would hold without the decision.
    pub default_common: bool,
}

/// What is to be done to the store.
#[derive(Debug)]
pub enum SavePlan {
    /// The record of a class is removed.
    Remove { key: String },
    /// The record of a class is written.
    Write { doc: CharsetDoc },
}

/// Why a class cannot be changed.
#[derive(Debug)]
pub enum CharsetError {
    /// There is no store.
    NoStore,
    /// There is no such class.
    Unknown { key: String },
    /// The class came with the program.
    Factory { key: String },
    /// A commonality nobody knows.
    BadDefault { value: String },
    /// The file holds no class.
    NoClasses,
    /// A class of the file cannot be told apart from the one that came with the
    /// program.
    Diff { message: String },
}

/// What a [`CharsetError`] says.
pub ghost enum CharsetErrorModel {
    NoStore,
    Unknown { key: Seq<char> },
    Factory { key: Seq<char> },
    BadDefault { value: Seq<char> },
    NoClasses,
    Diff { message: Seq<char> },
}

impl View for CharsetError {
    type V = CharsetErrorModel;

    open spec fn view(&self) -> CharsetErrorModel {
        match *self {
            CharsetError::NoStore => CharsetErrorModel::NoStore,
            CharsetError::Unknown { key } => CharsetErrorModel::Unknown { key: key@ },
            CharsetError::Factory { key } => CharsetErrorModel::Factory { key: key@ },
            CharsetError::BadDefault { value } => CharsetErrorModel::BadDefault { value: value@ },
            CharsetError::NoClasses => CharsetErrorModel::NoClasses,
            CharsetError::Diff { message } => CharsetErrorModel::Diff { message: message@ },
        }
    }
}

impl CharsetErrorModel {
    /// The message shown for the error.
    pub open spec fn text(self) -> Seq<char> {
        match self {
            CharsetErrorModel::NoStore => "无持久化存储，字符类的调整无处落盘"@,
            CharsetErrorModel::Unknown { key } => "没有名为「"@ + key + "」的字符类"@,
            CharsetErrorModel::Factory { key } => "「"@ + key
                + "」是出厂类，不能删除；要去掉它请停用，要撤销调整请恢复默认"@,
            CharsetErrorModel::BadDefault { value } =>
                "default 只能是 common / rare / inherit，收到「"@ + value + "」"@,
            CharsetErrorModel::NoClasses => "文件里没有任何字符类"@,
            CharsetErrorModel::Diff { message } => message,
        }
    }
}

impl CharsetError {
    /// The message shown for the error.
    pub fn message(&self) -> (r: String)
        ensures
            r@ == self@.text(),
    {
        match self {
            CharsetError::NoStore => "无持久化存储，字符类的调整无处落盘".to_owned(),
            CharsetError::Unknown { key } => {
                let a = joined("没有名为「", key.as_str());
                joined(a.as_str(), "」的字符类")
            },
            CharsetError::Factory { key } => {
                let a = joined("「", key.as_str());
                joined(
                    a.as_str(),
                    "」是出厂类，不能删除；要去掉它请停用，要撤销调整请恢复默认",
                )
            },
            CharsetError::BadDefault { value } => {
                let a = joined(
                    "default 只能是 common / rare / inherit，收到「",
                    value.as_str(),
                );
                joined(a.as_str(), "」")
            },
            CharsetError::NoClasses => "文件里没有任何字符类".to_owned(),
            CharsetError::Diff { message } => message.clone(),
        }
    }
}

/// How many of a list of statements hold.
pub open spec fn trues(s: Seq<bool>) -> nat
    decreases s.len(),
{
    if s.len() == 0 {
        0
    } else {
        trues(s.drop_last()) + (if s.last() {
            1nat
        } else {
            0nat
        })
    }
}

impl CharsetDef {
    /// The name shown: the key where there is none.
    pub open spec fn shown_name(self) -> Seq<char> {
        match self.name {
            Some(n) => n@,
            None => self.key@,
        }
    }

    /// The name shown.
    pub fn display_name(&self) -> (r: String)
        ensures
            r@ == self.shown_name(),
    {
        match &self.name {
            Some(n) => n.clone(),
            None => self.key.clone(),
        }
    }

    /// Whether it says nothing.
    pub open spec fn says_nothing(self) -> bool {
        &&& self.name is None
        &&& self.ranges is None
        &&& self.file is None
        &&& self.scope is None
        &&& self.default is None
        &&& self.outside is None
        &&& self.order is None
        &&& self.no_freq is None
        &&& self.in_rare is None
        &&& self.enabled is None
    }

    /// Which fields it sets.
    pub open spec fn fields(self) -> Seq<bool> {
        seq![
            self.name is Some,
            self.ranges is Some,
            self.file is Some,
            self.scope is Some,
            self.default is Some,
            self.outside is Some,
            self.order is Some,
            self.no_freq is Some,
            self.in_rare is Some,
            self.enabled is Some,
        ]
    }

    /// How many fields it sets.
    pub open spec fn fields_set(self) -> nat {
        trues(self.fields())
    }
}

impl CharsetDoc {
    /// Whether it adjusts nothing.
    pub open spec fn is_blank(self) -> bool {
        self.def.says_nothing() && self.added@.len() == 0 && self.removed@.len() == 0
    }
}

proof fn lemma_trues_bound(s: Seq<bool>)
    ensures
        trues(s) <= s.len(),
    decreases s.len(),
{
    if s.len() > 0 {
        lemma_trues_bound(s.drop_last());
    }
}

fn count_trues(v: &Vec<bool>) -> (r: usize)
    ensures
        r == trues(v@),
{
    let mut n: usize = 0;
    let mut i: usize = 0;
    assert(v@.take(0) =~= Seq::empty());
    while i < v.len()
        invariant
            i <= v@.len(),
            n == trues(v@.take(i as int)),
        decreases v.len() - i,
    {
        proof {
            assert(v@.take(i as int + 1).drop_last() =~= v@.take(i as int));
            assert(v@.take(i as int + 1).last() == v@[i as int]);
            lemma_trues_bound(v@.take(i as int));
        }
        if v[i] {
            n = n + 1;
        }
        i = i + 1;
    }
    assert(v@.take(v@.len() as int) =~= v@);
    n
}

fn count_fields(d: &CharsetDef) -> (r: usize)
    ensures
        r == d.fields_set(),
{
    let v: Vec<bool> = vec![
        d.name.is_some(),
        d.ranges.is_some(),
        d.file.is_some(),
        d.scope.is_some(),
        d.default.is_some(),
        d.outside.is_some(),
        d.order.is_some(),
        d.no_freq.is_some(),
        d.in_rare.is_some(),
        d.enabled.is_some(),
    ];
    assert(v@ =~= d.fields());
    count_trues(&v)
}

/// Whether an adjustment adjusts nothing.
pub fn is_empty_override(doc: &CharsetDoc) -> (r: bool)
    ensures
        r == doc.is_blank(),
{
    let d = &doc.def;
    d.name.is_none() && d.ranges.is_none() && d.file.is_none() && d.scope.is_none()
        && d.default.is_none() && d.outside.is_none() && d.order.is_none() && d.no_freq.is_none()
        && d.in_rare.is_none() && d.enabled.is_none() && doc.added.len() == 0
        && doc.removed.len() == 0
}

/// Whether `d` is the adjustment of a class: the one on record, if it is that of this
/// class, and else one that adjusts nothing.
pub open spec fn is_adjustment(key: Seq<char>, found: Option<CharsetDoc>, d: CharsetDoc) -> bool {
    &&& d.def.key@ == key
    &&& match found {
        Some(f) => if f.def.key@ == key {
            d == f
        } else {
            d.is_blank()
        },
        None => d.is_blank(),
    }
}

/// The adjustment of a class: the one on record, if it is there, can be read and is
/// that of this class; else one that adjusts nothing.
pub fn user_doc(key: &str, found: Option<CharsetDoc>) -> (r: CharsetDoc)
    ensures
        is_adjustment(key@, found, r),
{
    match found {
        Some(d) => if same(d.def.key.as_str(), key) {
            return d;
        },
        None => {},
    }
    CharsetDoc {
        def: CharsetDef {
            key: key.to_owned(),
            name: None,
            ranges: None,
            file: None,
            scope: None,
            default: None,
            outside: None,
            order: None,
            no_freq: None,
            in_rare: None,
            enabled: None,
        },
        added: Vec::new(),
        removed: Vec::new(),
    }
}

/// What is done to the store for an adjustment: one that adjusts nothing is removed.
pub fn save_user_doc(doc: CharsetDoc) -> (r: SavePlan)
    ensures
        match r {
            SavePlan::Remove { key } => doc.is_blank() && key@ == doc.def.key@,
            SavePlan::Write { doc: d } => !doc.is_blank() && d == doc,
        },
{
    if is_empty_override(&doc) {
        SavePlan::Remove { key: doc.def.key }
    } else {
        SavePlan::Write { doc }
    }
}

/// What a word for a commonality says: nothing for `inherit`, and no answer for a word
/// nobody knows.
pub open spec fn commonality_named(v: Seq<char>) -> Option<Option<Commonality>> {
    if v == "common"@ {
        Some(Some(Commonality::Common))
    } else if v == "rare"@ {
        Some(Some(Commonality::Rare))
    } else if v == "inherit"@ {
        Some(None)
    } else {
        None
    }
}

/// The adjustment after a change. What is switched to its ordinary position is left to
/// the class rather than fixed.
pub open spec fn edited(d: CharsetDef, edit: CharsetEdit) -> CharsetDef {
    let flag = |old: Option<bool>, new: Option<bool>, kept: bool| match new {
        None => old,
        Some(v) => if v == kept {
            Some(v)
        } else {
            None
        },
    };
    CharsetDef {
        default: match edit.default_common {
            None => d.default,
            Some(v) => match commonality_named(v@) {
                Some(c) => c,
                None => d.default,
            },
        },
        no_freq: flag(d.no_freq, edit.no_freq, true),
        in_rare: flag(d.in_rare, edit.in_rare, true),
        enabled: flag(d.enabled, edit.enabled, false),
        order: match edit.order {
            None => d.order,
            Some(v) => Some(v),
        },
        ..d
    }
}

/// The error of a change that cannot be made.
pub open spec fn edit_error(edit: CharsetEdit) -> Option<CharsetErrorModel> {
    match edit.default_common {
        Some(v) => if commonality_named(v@) is None {
            Some(CharsetErrorModel::BadDefault { value: v@ })
        } else {
            None
        },
        None => None,
    }
}

/// Changes an adjustment.
pub fn apply_edit(doc: CharsetDoc, edit: &CharsetEdit) -> (r: Result<CharsetDoc, CharsetError>)
    ensures
        match r {
            Ok(d) => edit_error(*edit) is None && d == (CharsetDoc {
                def: edited(doc.def, *edit),
                ..doc
            }),
            Err(e) => edit_error(*edit) == Some(e@),
        },
{
    let mut d = doc.def;
    match &edit.default_common {
        Some(v) => {
            if same(v.as_str(), "common") {
                d.default = Some(Commonality::Common);
            } else if same(v.as_str(), "rare") {
                d.default = Some(Commonality::Rare);
            } else if same(v.as_str(), "inherit") {
                d.default = None;
            } else {
                return Err(CharsetError::BadDefault { value: v.clone() });
            }
        },
        None => {},
    }
    match edit.no_freq {
        Some(v) => {
            d.no_freq = if v {
                Some(true)
            } else {
                None
            };
        },
        None => {},
    }
    match edit.in_rare {
        Some(v) => {
            d.in_rare = if v {
                Some(true)
            } else {
                None
            };
        },
        None => {},
    }
    match edit.enabled {
        Some(v) => {
            d.enabled = if v {
                None
            } else {
                Some(false)
            };
        },
        None => {},
    }
    match edit.order {
        Some(v) => {
            d.order = Some(v);
        },
        None => {},
    }
    Ok(CharsetDoc { def: d, added: doc.added, removed: doc.removed })
}

/// The code points of a class, as text.
pub open spec fn range_text(lo: u32, hi: u32) -> Seq<char> {
    if lo == hi {
        "U+"@ + hex(lo as nat, 4)
    } else {
        "U+"@ + hex(lo as nat, 4) + "-U+"@ + hex(hi as nat, 4)
    }
}

fn text_of_range(lo: u32, hi: u32) -> (r: String)
    ensures
        r@ == range_text(lo, hi),
{
    let l = hex_text(lo, 4);
    let a = joined("U+", l.as_str());
    if lo == hi {
        return a;
    }
    let b = joined(a.as_str(), "-U+");
    let h = hex_text(hi, 4);
    joined(b.as_str(), h.as_str())
}

fn texts_of_ranges(ranges: &Vec<(u32, u32)>) -> (r: Vec<String>)
    ensures
        strings_view(r@) == ranges@.map_values(|p: (u32, u32)| range_text(p.0, p.1)),
{
    let ghost all = ranges@.map_values(|p: (u32, u32)| range_text(p.0, p.1));
    let mut r: Vec<String> = Vec::new();
    let mut i: usize = 0;
    assert(strings_view(r@) =~= all.take(0));
    while i < ranges.len()
        invariant
            i <= ranges@.len(),
            all == ranges@.map_values(|p: (u32, u32)| range_text(p.0, p.1)),
            strings_view(r@) == all.take(i as int),
        decreases ranges.len() - i,
    {
        let (lo, hi) = ranges[i];
        let t = text_of_range(lo, hi);
        let ghost prev = strings_view(r@);
        r.push(t);
        assert(strings_view(r@) =~= prev.push(t@));
        assert(prev.push(t@) =~= all.take(i as int + 1));
        i = i + 1;
    }
    assert(all.take(all.len() as int) =~= all);
    r
}

/// What a [`CharsetClassRow`] holds.
pub ghost struct RowModel {
    pub key: Seq<char>,
    pub name: Seq<char>,
    pub ranges: Seq<Seq<char>>,
    pub member_count: usize,
    pub order: i32,
    pub default_common: Option<bool>,
    pub no_freq: bool,
    pub in_rare: bool,
    pub enabled: bool,
    pub builtin: bool,
    pub overridden: bool,
    pub override_count: int,
}

impl View for CharsetClassRow {
    type V = RowModel;

    open spec fn view(&self) -> RowModel {
        RowModel {
            key: self.key@,
            name: self.name@,
            ranges: strings_view(self.ranges@),
            member_count: self.member_count,
            order: self.order,
            default_common: self.default_common,
            no_freq: self.no_freq,
            in_rare: self.in_rare,
            enabled: self.enabled,
            builtin: self.builtin,
            overridden: self.overridden,
            override_count: self.override_count as int,
        }
    }
}

/// The models of rows.
pub open spec fn row_models(s: Seq<CharsetClassRow>) -> Seq<RowModel> {
    s.map_values(|r: CharsetClassRow| r@)
}

/// How many decisions fall to a class; `classes` names the class of each decision.
pub open spec fn decided(classes: Seq<Option<String>>, key: Seq<char>) -> nat
    decreases classes.len(),
{
    if classes.len() == 0 {
        0
    } else {
        decided(classes.drop_last(), key) + (if opt_view(classes.last()) == Some(key) {
            1nat
        } else {
            0nat
        })
    }
}

proof fn lemma_decided_bound(classes: Seq<Option<String>>, key: Seq<char>)
    ensures
        decided(classes, key) <= classes.len(),
    decreases classes.len(),
{
    if classes.len() > 0 {
        lemma_decided_bound(classes.drop_last(), key);
    }
}

/// How many decisions fall to a class.
pub fn override_count_of(classes: &Vec<Option<String>>, key: &str) -> (r: usize)
    ensures
        r == decided(classes@, key@),
{
    let mut n: usize = 0;
    let mut i: usize = 0;
    assert(classes@.take(0) =~= Seq::empty());
    while i < classes.len()
        invariant
            i <= classes@.len(),
            n == decided(classes@.take(i as int), key@),
        decreases classes.len() - i,
    {
        proof {
            assert(classes@.take(i as int + 1).drop_last() =~= classes@.take(i as int));
            assert(classes@.take(i as int + 1).last() == classes@[i as int]);
            lemma_decided_bound(classes@.take(i as int), key@);
        }
        match &classes[i] {
            Some(k) => {
                if same(k.as_str(), key) {
                    n = n + 1;
                }
            },
            None => {},
        }
        i = i + 1;
    }
    assert(classes@.take(classes@.len() as int) =~= classes@);
    n
}

/// Whether a list of documents has one for a key.
pub open spec fn has_doc(docs: Seq<CharsetDoc>, key: Seq<char>) -> bool {
    exists|i: int| 0 <= i < docs.len() && (#[trigger] docs[i]).def.key@ == key
}

fn has_doc_for(docs: &Vec<CharsetDoc>, key: &str) -> (r: bool)
    ensures
        r == has_doc(docs@, key@),
{
    let mut i: usize = 0;
    while i < docs.len()
        invariant
            i <= docs@.len(),
            forall|k: int| 0 <= k < i ==> (#[trigger] docs@[k]).def.key@ != key@,
        decreases docs.len() - i,
    {
        if same(docs[i].def.key.as_str(), key) {
            return true;
        }
        i = i + 1;
    }
    false
}

/// Whether a class of a key is in force.
pub open spec fn in_force(classes: Seq<ClassInfo>, key: Seq<char>) -> bool {
    exists|i: int| 0 <= i < classes.len() && (#[trigger] classes[i]).key@ == key
}

fn is_in_force(classes: &Vec<ClassInfo>, key: &str) -> (r: bool)
    ensures
        r == in_force(classes@, key@),
{
    let mut i: usize = 0;
    while i < classes.len()
        invariant
            i <= classes@.len(),
            forall|k: int| 0 <= k < i ==> (#[trigger] classes@[k]).key@ != key@,
        decreases classes.len() - i,
    {
        if same(classes[i].key.as_str(), key) {
            return true;
        }
        i = i + 1;
    }
    false
}

/// What the listing is made of.
#[derive(Debug)]
pub struct CharsetFacts {
    /// Classes in force.
    pub classes: Vec<ClassInfo>,
    /// Keys of the classes that came with the program.
    pub factory: Vec<String>,
    /// The user's adjustments. Of several with one key the last counts.
    pub user: Vec<CharsetDoc>,
    /// The class of each single character the user has decided on.
    pub decided: Vec<Option<String>>,
    /// Place of a class that does not say.
    pub default_order: i32,
}

/// The row of a class in force.
pub open spec fn active_row(c: ClassInfo, f: CharsetFacts) -> RowModel {
    RowModel {
        key: c.key@,
        name: if c.name@.len() == 0 {
            c.key@
        } else {
            c.name@
        },
        ranges: c.ranges@.map_values(|p: (u32, u32)| range_text(p.0, p.1)),
        member_count: c.member_count,
        order: c.order,
        default_common: c.default_common,
        no_freq: c.no_freq,
        in_rare: c.in_rare,
        enabled: true,
        builtin: strings_view(f.factory@).contains(c.key@),
        overridden: has_doc(f.user@, c.key@),
        override_count: decided(f.decided@, c.key@) as int,
    }
}

/// Whether a document is the last one for its key.
pub open spec fn counts(docs: Seq<CharsetDoc>, i: int) -> bool {
    forall|j: int| i < j < docs.len() ==> (#[trigger] docs[j]).def.key@ != docs[i].def.key@
}

/// Whether adjustment `i` lists a class that is not in force: it counts for its key,
/// and switches the class off.
pub open spec fn switched_off(f: CharsetFacts, i: int) -> bool {
    let d = f.user@[i];
    counts(f.user@, i) && d.def.enabled == Some(false) && !in_force(f.classes@, d.def.key@)
}

/// The row of a class that was switched off.
pub open spec fn disabled_row(d: CharsetDoc, f: CharsetFacts) -> RowModel {
    RowModel {
        key: d.def.key@,
        name: d.def.shown_name(),
        ranges: match d.def.ranges {
            Some(r) => strings_view(r@),
            None => Seq::empty(),
        },
        member_count: d.added.len(),
        order: match d.def.order {
            Some(o) => o,
            None => f.default_order,
        },
        default_common: match d.def.default {
            Some(c) => Some(c == Commonality::Common),
            None => None,
        },
        no_freq: d.def.no_freq == Some(true),
        in_rare: d.def.in_rare == Some(true),
        enabled: false,
        builtin: strings_view(f.factory@).contains(d.def.key@),
        overridden: true,
        override_count: decided(f.decided@, d.def.key@) as int,
    }
}

/// The rows of those among the first `n` adjustments that switch a class off.
pub open spec fn disabled_rows(f: CharsetFacts, n: int) -> Seq<RowModel>
    decreases n,
{
    if n <= 0 {
        Seq::empty()
    } else if switched_off(f, n - 1) {
        disabled_rows(f, n - 1).push(disabled_row(f.user@[n - 1], f))
    } else {
        disabled_rows(f, n - 1)
    }
}

/// The rows of all classes, in no order yet.
pub open spec fn unsorted_rows(f: CharsetFacts) -> Seq<RowModel> {
    f.classes@.map_values(|c: ClassInfo| active_row(c, f)) + disabled_rows(
        f,
        f.user@.len() as int,
    )
}

/// Whether a row is listed before another: by the place of its class, and by its key
/// where that is the same.
pub open spec fn row_before(a: RowModel, b: RowModel) -> bool {
    if a.order != b.order {
        a.order < b.order
    } else {
        text_before(a.key, b.key)
    }
}

/// An ordered list with a row put behind everything it does not precede.
pub open spec fn placed(s: Seq<RowModel>, x: RowModel) -> Seq<RowModel>
    decreases s.len(),
{
    if s.len() > 0 && row_before(x, s.last()) {
        placed(s.drop_last(), x).push(s.last())
    } else {
        s.push(x)
    }
}

/// A list in order.
pub open spec fn sorted_rows(s: Seq<RowModel>) -> Seq<RowModel>
    decreases s.len(),
{
    if s.len() == 0 {
        s
    } else {
        placed(sorted_rows(s.drop_last()), s.last())
    }
}

/// Whether nothing in a list precedes what stands before it.
pub open spec fn rows_ordered(s: Seq<RowModel>) -> bool {
    forall|i: int, j: int| 0 <= i < j < s.len() ==> !row_before(#[trigger] s[j], #[trigger] s[i])
}

proof fn lemma_row_before_transitive(a: RowModel, b: RowModel, c: RowModel)
    requires
        row_before(a, b),
        row_before(b, c),
    ensures
        row_before(a, c),
{
    if a.order == b.order && b.order == c.order {
        text_order_transitive(a.key, b.key, c.key);
    }
}

proof fn lemma_not_before_transitive(a: RowModel, b: RowModel, c: RowModel)
    requires
        !row_before(b, a),
        !row_before(c, b),
    ensures
        !row_before(c, a),
{
    if row_before(c, a) {
        text_order_total(a.key, b.key);
        text_order_total(b.key, c.key);
        text_order_irreflexive(a.key);
        if row_before(a, b) {
            lemma_row_before_transitive(c, a, b);
        } else {
            assert(a.order == b.order && a.key == b.key);
        }
    }
}

proof fn lemma_placed(s: Seq<RowModel>, x: RowModel)
    requires
        rows_ordered(s),
    ensures
        rows_ordered(placed(s, x)),
        placed(s, x).to_multiset() == s.to_multiset().insert(x),
        placed(s, x).len() == s.len() + 1,
        forall|y: RowModel| #[trigger]
            placed(s, x).contains(y) ==> s.contains(y) || y == x,
    decreases s.len(),
{
    broadcast use vstd::seq_lib::group_to_multiset_ensures;

    let p = placed(s, x);
    if s.len() > 0 && row_before(x, s.last()) {
        let t = s.drop_last();
        let q = placed(t, x);
        assert(rows_ordered(t)) by {
            assert forall|i: int, j: int| 0 <= i < j < t.len() implies !row_before(
                #[trigger] t[j],
                #[trigger] t[i],
            ) by {
                assert(t[i] == s[i] && t[j] == s[j]);
            }
        }
        lemma_placed(t, x);
        assert forall|i: int, j: int| 0 <= i < j < p.len() implies !row_before(
            #[trigger] p[j],
            #[trigger] p[i],
        ) by {
            if j < q.len() {
                assert(p[i] == q[i] && p[j] == q[j]);
            } else {
                assert(p[j] == s.last());
                assert(p[i] == q[i]);
                assert(q.contains(q[i]));
                if q[i] == x {
                    if row_before(s.last(), x) {
                        lemma_row_before_transitive(x, s.last(), x);
                        text_order_irreflexive(x.key);
                    }
                } else {
                    assert(t.contains(q[i]));
                    let k = t.index_of(q[i]);
                    assert(s[k] == q[i]);
                    assert(s[s.len() - 1] == s.last());
                }
            }
        }
        assert(s =~= t.push(s.last()));
        assert(p.to_multiset() =~= s.to_multiset().insert(x));
        assert forall|y: RowModel| #[trigger] p.contains(y) implies s.contains(y) || y == x by {
            let k = p.index_of(y);
            if k < q.len() {
                assert(q[k] == y);
                assert(q.contains(y));
                if y != x {
                    let m = t.index_of(y);
                    assert(s[m] == y);
                }
            } else {
                assert(s[s.len() - 1] == y);
            }
        }
    } else {
        assert forall|i: int, j: int| 0 <= i < j < p.len() implies !row_before(
            #[trigger] p[j],
            #[trigger] p[i],
        ) by {
            if j < s.len() {
                assert(p[i] == s[i] && p[j] == s[j]);
            } else {
                assert(p[j] == x && p[i] == s[i]);
                if i < s.len() - 1 {
                    assert(!row_before(s[s.len() - 1], s[i]));
                    lemma_not_before_transitive(s[i], s.last(), x);
                }
            }
        }
        assert forall|y: RowModel| #[trigger] p.contains(y) implies s.contains(y) || y == x by {
            let k = p.index_of(y);
            if k < s.len() {
                assert(s[k] == y);
            }
        }
    }
}

/// The listing is in the order in which classes decide, and lists what there is to list,
/// no more and no less.
pub proof fn listing_follows_the_order_of_deciding(s: Seq<RowModel>)
    ensures
        rows_ordered(sorted_rows(s)),
        sorted_rows(s).to_multiset() == s.to_multiset(),
    decreases s.len(),
{
    broadcast use vstd::seq_lib::group_to_multiset_ensures;

    if s.len() > 0 {
        listing_follows_the_order_of_deciding(s.drop_last());
        lemma_placed(sorted_rows(s.drop_last()), s.last());
        assert(s =~= s.drop_last().push(s.last()));
        assert(sorted_rows(s).to_multiset() =~= s.to_multiset());
    }
}

/// Whether no two rows have one key.
pub open spec fn keys_distinct(s: Seq<RowModel>) -> bool {
    forall|i: int, j: int| 0 <= i < j < s.len() ==> (#[trigger] s[i]).key != (#[trigger] s[j]).key
}

/// Whether no two classes have one key.
pub open spec fn classes_distinct(s: Seq<ClassInfo>) -> bool {
    forall|i: int, j: int|
        0 <= i < j < s.len() ==> (#[trigger] s[i]).key@ != (#[trigger] s[j]).key@
}

/// Whether `key` is the key of a row.
pub open spec fn has_row(s: Seq<RowModel>, key: Seq<char>) -> bool {
    exists|i: int| 0 <= i < s.len() && (#[trigger] s[i]).key == key
}

proof fn lemma_placed_distinct(s: Seq<RowModel>, x: RowModel)
    requires
        keys_distinct(s),
        !has_row(s, x.key),
    ensures
        keys_distinct(placed(s, x)),
        forall|k: Seq<char>| #[trigger] has_row(placed(s, x), k) ==> has_row(s, k) || k == x.key,
    decreases s.len(),
{
    let p = placed(s, x);
    if s.len() > 0 && row_before(x, s.last()) {
        let t = s.drop_last();
        let q = placed(t, x);
        assert forall|i: int, j: int| 0 <= i < j < t.len() implies (#[trigger] t[i]).key != (
        #[trigger] t[j]).key by {
            assert(t[i] == s[i] && t[j] == s[j]);
        }
        if has_row(t, x.key) {
            let i = choose|i: int| 0 <= i < t.len() && (#[trigger] t[i]).key == x.key;
            assert(s[i].key == x.key);
        }
        lemma_placed_distinct(t, x);
        assert forall|i: int, j: int| 0 <= i < j < p.len() implies (#[trigger] p[i]).key != (
        #[trigger] p[j]).key by {
            if j < q.len() {
                assert(p[i] == q[i] && p[j] == q[j]);
            } else {
                assert(p[i] == q[i] && p[j] == s[s.len() - 1]);
                assert(has_row(q, q[i].key));
                if q[i].key == x.key {
                    assert(!has_row(s, x.key));
                } else {
                    let k = choose|k: int| 0 <= k < t.len() && (#[trigger] t[k]).key == q[i].key;
                    assert(s[k].key == q[i].key);
                }
            }
        }
        assert forall|k: Seq<char>| #[trigger] has_row(p, k) implies has_row(s, k) || k
            == x.key by {
            let i = choose|i: int| 0 <= i < p.len() && (#[trigger] p[i]).key == k;
            if i < q.len() {
                assert(q[i].key == k);
                assert(has_row(q, k));
                if k != x.key {
                    let m = choose|m: int| 0 <= m < t.len() && (#[trigger] t[m]).key == k;
                    assert(s[m].key == k);
                }
            } else {
                assert(s[s.len() - 1].key == k);
            }
        }
    } else {
        assert forall|i: int, j: int| 0 <= i < j < p.len() implies (#[trigger] p[i]).key != (
        #[trigger] p[j]).key by {
            assert(p[i] == s[i]);
            if j < s.len() {
                assert(p[j] == s[j]);
            }
        }
        assert forall|k: Seq<char>| #[trigger] has_row(p, k) implies has_row(s, k) || k
            == x.key by {
            let i = choose|i: int| 0 <= i < p.len() && (#[trigger] p[i]).key == k;
            if i < s.len() {
                assert(s[i].key == k);
            }
        }
    }
}

proof fn lemma_sorted_distinct(s: Seq<RowModel>)
    requires
        keys_distinct(s),
    ensures
        keys_distinct(sorted_rows(s)),
        forall|k: Seq<char>| #[trigger] has_row(sorted_rows(s), k) ==> has_row(s, k),
    decreases s.len(),
{
    if s.len() > 0 {
        let t = s.drop_last();
        let x = s.last();
        assert forall|i: int, j: int| 0 <= i < j < t.len() implies (#[trigger] t[i]).key != (
        #[trigger] t[j]).key by {
            assert(t[i] == s[i] && t[j] == s[j]);
        }
        lemma_sorted_distinct(t);
        if has_row(sorted_rows(t), x.key) {
            assert(has_row(t, x.key));
            let i = choose|i: int| 0 <= i < t.len() && (#[trigger] t[i]).key == x.key;
            assert(s[i].key == s[s.len() - 1].key);
        }
        lemma_placed_distinct(sorted_rows(t), x);
        assert forall|k: Seq<char>| #[trigger] has_row(sorted_rows(s), k) implies has_row(
            s,
            k,
        ) by {
            if k == x.key {
                assert(s[s.len() - 1].key == k);
            } else {
                assert(has_row(t, k));
                let i = choose|i: int| 0 <= i < t.len() && (#[trigger] t[i]).key == k;
                assert(s[i].key == k);
            }
        }
    }
}

proof fn lemma_disabled_distinct(f: CharsetFacts, n: int)
    requires
        0 <= n <= f.user@.len(),
    ensures
        keys_distinct(disabled_rows(f, n)),
        forall|k: Seq<char>| #[trigger]
            has_row(disabled_rows(f, n), k) ==> exists|i: int|
                0 <= i < n && #[trigger] switched_off(f, i) && f.user@[i].def.key@ == k,
    decreases n,
{
    if n > 0 {
        lemma_disabled_distinct(f, n - 1);
        let t = disabled_rows(f, n - 1);
        let d = disabled_rows(f, n);
        if switched_off(f, n - 1) {
            let x = disabled_row(f.user@[n - 1], f);
            assert forall|i: int, j: int| 0 <= i < j < d.len() implies (#[trigger] d[i]).key != (
            #[trigger] d[j]).key by {
                assert(d[i] == t[i]);
                if j < t.len() {
                    assert(d[j] == t[j]);
                } else {
                    assert(d[j] == x);
                    assert(has_row(t, t[i].key));
                    let m = choose|m: int|
                        0 <= m < n - 1 && #[trigger] switched_off(f, m) && f.user@[m].def.key@
                            == t[i].key;
                    assert(f.user@[n - 1].def.key@ != f.user@[m].def.key@);
                }
            }
        }
        assert forall|k: Seq<char>| #[trigger] has_row(d, k) implies exists|i: int|
            0 <= i < n && #[trigger] switched_off(f, i) && f.user@[i].def.key@ == k by {
            let i = choose|i: int| 0 <= i < d.len() && (#[trigger] d[i]).key == k;
            if i < t.len() {
                assert(t[i].key == k);
                assert(has_row(t, k));
            } else {
                assert(switched_off(f, n - 1) && f.user@[n - 1].def.key@ == k);
            }
        }
    }
}

/// No class is listed twice, however many adjustments carry one key; the registry holds
/// one class for a key.
pub proof fn every_class_is_listed_once(f: CharsetFacts)
    requires
        classes_distinct(f.classes@),
    ensures
        keys_distinct(sorted_rows(unsorted_rows(f))),
{
    let a = f.classes@.map_values(|c: ClassInfo| active_row(c, f));
    let n = f.user@.len() as int;
    let d = disabled_rows(f, n);
    let u = unsorted_rows(f);
    lemma_disabled_distinct(f, n);
    assert forall|i: int, j: int| 0 <= i < j < u.len() implies (#[trigger] u[i]).key != (
    #[trigger] u[j]).key by {
        if j < a.len() {
            assert(u[i].key == f.classes@[i].key@ && u[j].key == f.classes@[j].key@);
        } else if i < a.len() {
            assert(u[i].key == f.classes@[i].key@);
            assert(u[j] == d[j - a.len()]);
            assert(has_row(d, u[j].key));
            let m = choose|m: int|
                0 <= m < n && #[trigger] switched_off(f, m) && f.user@[m].def.key@ == u[j].key;
            assert(!in_force(f.classes@, u[j].key));
        } else {
            assert(u[i] == d[i - a.len()] && u[j] == d[j - a.len()]);
        }
    }
    lemma_sorted_distinct(u);
}

/// A class that the user switched off stays in the listing, marked as off, so that it
/// can be switched on again.
pub proof fn switched_off_classes_stay_listed(f: CharsetFacts, i: int)
    requires
        0 <= i < f.user@.len(),
        switched_off(f, i),
    ensures
        unsorted_rows(f).contains(disabled_row(f.user@[i], f)),
        !disabled_row(f.user@[i], f).enabled,
{
    let d = disabled_rows(f, f.user@.len() as int);
    lemma_disabled_listed(f, f.user@.len() as int, i);
    let x = disabled_row(f.user@[i], f);
    let k = d.index_of(x);
    let a = f.classes@.map_values(|c: ClassInfo| active_row(c, f));
    assert(unsorted_rows(f)[a.len() + k] == x);
}

proof fn lemma_disabled_listed(f: CharsetFacts, n: int, i: int)
    requires
        0 <= i < n <= f.user@.len(),
        switched_off(f, i),
    ensures
        disabled_rows(f, n).contains(disabled_row(f.user@[i], f)),
    decreases n,
{
    let x = disabled_row(f.user@[i], f);
    let d = disabled_rows(f, n);
    if i == n - 1 {
        assert(d[d.len() - 1] == x);
    } else {
        lemma_disabled_listed(f, n - 1, i);
        let e = disabled_rows(f, n - 1);
        let k = e.index_of(x);
        assert(d[k] == x);
    }
}

fn comes_before(a: &CharsetClassRow, b: &CharsetClassRow) -> (r: bool)
    ensures
        r == row_before(a@, b@),
{
    if a.order != b.order {
        a.order < b.order
    } else {
        text_is_before(a.key.as_str(), b.key.as_str())
    }
}

proof fn lemma_placed_from(s: Seq<RowModel>, x: RowModel, k: int)
    requires
        0 <= k <= s.len(),
        forall|j: int| k <= j < s.len() ==> row_before(x, #[trigger] s[j]),
        k > 0 ==> !row_before(x, s[k - 1]),
    ensures
        placed(s, x) == s.insert(k, x),
    decreases s.len(),
{
    if k < s.len() {
        let t = s.drop_last();
        assert(row_before(x, s[s.len() - 1]));
        lemma_placed_from(t, x, k);
        assert(placed(s, x) == placed(t, x).push(s.last()));
        assert(t.insert(k, x).push(s.last()) =~= s.insert(k, x));
    } else {
        assert(s.push(x) =~= s.insert(k, x));
    }
}

fn place_row(rows: &mut Vec<CharsetClassRow>, x: CharsetClassRow)
    ensures
        row_models(final(rows)@) == placed(row_models(old(rows)@), x@),
{
    let mut k: usize = rows.len();
    let ghost m = row_models(rows@);
    while k > 0 && comes_before(&x, &rows[k - 1])
        invariant
            k <= rows@.len(),
            m == row_models(rows@),
            forall|j: int| k <= j < m.len() ==> row_before(x@, #[trigger] m[j]),
        ensures
            k <= rows@.len(),
            forall|j: int| k <= j < m.len() ==> row_before(x@, #[trigger] m[j]),
            k > 0 ==> !row_before(x@, m[k - 1]),
        decreases k,
    {
        assert(m[k - 1] == rows@[k - 1]@);
        k = k - 1;
    }
    proof {
        lemma_placed_from(m, x@, k as int);
    }
    let ghost before = rows@;
    rows.insert(k, x);
    assert(row_models(before.insert(k as int, x)) =~= m.insert(k as int, x@));
}

fn row_of_class(c: &ClassInfo, f: &CharsetFacts) -> (r: CharsetClassRow)
    ensures
        r@ == active_row(*c, *f),
{
    let name = if c.name.as_str().is_empty() {
        c.key.clone()
    } else {
        c.name.clone()
    };
    CharsetClassRow {
        key: c.key.clone(),
        name,
        ranges: texts_of_ranges(&c.ranges),
        member_count: c.member_count,
        order: c.order,
        default_common: c.default_common,
        no_freq: c.no_freq,
        in_rare: c.in_rare,
        enabled: true,
        builtin: list_has(&f.factory, c.key.as_str()),
        overridden: has_doc_for(&f.user, c.key.as_str()),
        override_count: override_count_of(&f.decided, c.key.as_str()),
    }
}

fn row_of_doc(d: &CharsetDoc, f: &CharsetFacts) -> (r: CharsetClassRow)
    ensures
        r@ == disabled_row(*d, *f),
{
    let ranges = match &d.def.ranges {
        Some(r) => crate::candidate::clone_strings(r),
        None => {
            let v: Vec<String> = Vec::new();
            assert(strings_view(v@) =~= Seq::empty());
            v
        },
    };
    let order: i32 = match d.def.order {
        Some(o) => o,
        None => f.default_order,
    };
    let default_common = match d.def.default {
        Some(c) => Some(c == Commonality::Common),
        None => None,
    };
    let no_freq = match d.def.no_freq {
        Some(v) => v,
        None => false,
    };
    let in_rare = match d.def.in_rare {
        Some(v) => v,
        None => false,
    };
    CharsetClassRow {
        key: d.def.key.clone(),
        name: d.def.display_name(),
        ranges,
        member_count: d.added.len(),
        order,
        default_common,
        no_freq,
        in_rare,
        enabled: false,
        builtin: list_has(&f.factory, d.def.key.as_str()),
        overridden: true,
        override_count: override_count_of(&f.decided, d.def.key.as_str()),
    }
}

fn does_count(docs: &Vec<CharsetDoc>, i: usize) -> (r: bool)
    requires
        i < docs@.len(),
    ensures
        r == counts(docs@, i as int),
{
    let n = docs.len();
    let mut j: usize = i + 1;
    while j < n
        invariant
            i < j <= n == docs@.len(),
            forall|k: int| i < k < j ==> (#[trigger] docs@[k]).def.key@ != docs@[i as int].def.key@,
        decreases n - j,
    {
        if same(docs[j].def.key.as_str(), docs[i].def.key.as_str()) {
            return false;
        }
        j = j + 1;
    }
    true
}

fn is_switched_off(f: &CharsetFacts, i: usize) -> (r: bool)
    requires
        i < f.user@.len(),
    ensures
        r == switched_off(*f, i as int),
{
    let off = match f.user[i].def.enabled {
        Some(v) => !v,
        None => false,
    };
    off && does_count(&f.user, i) && !is_in_force(&f.classes, f.user[i].def.key.as_str())
}

/// All classes, in the order in which they decide, each of them once.
pub fn charset_rows(f: &CharsetFacts) -> (r: Vec<CharsetClassRow>)
    ensures
        row_models(r@) == sorted_rows(unsorted_rows(*f)),
        rows_ordered(row_models(r@)),
        classes_distinct(f.classes@) ==> keys_distinct(row_models(r@)),
{
    proof {
        listing_follows_the_order_of_deciding(unsorted_rows(*f));
        if classes_distinct(f.classes@) {
            every_class_is_listed_once(*f);
        }
    }
    list_rows(f)
}

fn list_rows(f: &CharsetFacts) -> (r: Vec<CharsetClassRow>)
    ensures
        row_models(r@) == sorted_rows(unsorted_rows(*f)),
{
    let mut rows: Vec<CharsetClassRow> = Vec::new();
    let ghost a = f.classes@.map_values(|c: ClassInfo| active_row(c, *f));
    let mut i: usize = 0;
    assert(row_models(rows@) =~= sorted_rows(a.take(0)));
    while i < f.classes.len()
        invariant
            i <= f.classes@.len(),
            a == f.classes@.map_values(|c: ClassInfo| active_row(c, *f)),
            row_models(rows@) == sorted_rows(a.take(i as int)),
        decreases f.classes.len() - i,
    {
        proof {
            assert(a.take(i as int + 1).drop_last() =~= a.take(i as int));
            assert(a.take(i as int + 1).last() == active_row(f.classes@[i as int], *f));
        }
        let x = row_of_class(&f.classes[i], f);
        place_row(&mut rows, x);
        i = i + 1;
    }
    let mut j: usize = 0;
    assert(a.take(a.len() as int) =~= a);
    assert(a + disabled_rows(*f, 0) =~= a);
    while j < f.user.len()
        invariant
            j <= f.user@.len(),
            row_models(rows@) == sorted_rows(a + disabled_rows(*f, j as int)),
        decreases f.user.len() - j,
    {
        if is_switched_off(f, j) {
            let x = row_of_doc(&f.user[j], f);
            proof {
                let n = a + disabled_rows(*f, j as int + 1);
                assert(n.drop_last() =~= a + disabled_rows(*f, j as int));
                assert(n.last() == x@);
            }
            place_row(&mut rows, x);
        }
        j = j + 1;
    }
    rows
}

/// The name of a new class.
pub open spec fn class_name(n: nat) -> Seq<char> {
    "my_class_"@ + decimal(n)
}

proof fn lemma_decimal_injective(a: nat, b: nat)
    requires
        decimal(a) == decimal(b),
    ensures
        a == b,
    decreases a,
{
    let x = decimal(a);
    let y = decimal(b);
    lemma_decimal_len(a);
    lemma_decimal_len(b);
    assert(x.last() == y.last());
    if a < 10 && b < 10 {
        assert(x[0] == y[0]);
    } else if a >= 10 && b >= 10 {
        assert(x.drop_last() =~= decimal(a / 10));
        assert(y.drop_last() =~= decimal(b / 10));
        lemma_decimal_injective(a / 10, b / 10);
        assert(a % 10 == b % 10);
    } else {
        lemma_decimal_len(a / 10);
        lemma_decimal_len(b / 10);
    }
}

proof fn lemma_decimal_len(a: nat)
    ensures
        decimal(a).len() >= 1,
        a >= 10 ==> decimal(a).len() == decimal(a / 10).len() + 1,
    decreases a,
{
    if a >= 10 {
        lemma_decimal_len(a / 10);
    }
}

/// However many names are taken, there is one left among the first few: names that are
/// all taken are no more than there are.
proof fn lemma_names_run_out(taken: Seq<Seq<char>>, n: nat)
    requires
        forall|k: nat| 1 <= k <= n ==> taken.contains(#[trigger] class_name(k)),
    ensures
        n <= taken.len(),
{
    let names = Seq::new(n, |i: int| class_name((i + 1) as nat));
    assert(names.no_duplicates()) by {
        assert forall|i: int, j: int|
            0 <= i < names.len() && 0 <= j < names.len() && i != j implies names[i]
            != names[j] by {
            let a = (i + 1) as nat;
            let b = (j + 1) as nat;
            if class_name(a) == class_name(b) {
                let l = "my_class_"@.len() as int;
                assert(class_name(a).skip(l) =~= decimal(a));
                assert(class_name(b).skip(l) =~= decimal(b));
                lemma_decimal_injective(a, b);
            }
        }
    }
    names.unique_seq_to_set();
    taken.lemma_cardinality_of_set();
    assert(names.to_set().subset_of(taken.to_set())) by {
        assert forall|x: Seq<char>| names.to_set().contains(x) implies taken.to_set().contains(
            x,
        ) by {
            let i = choose|i: int| 0 <= i < names.len() && names[i] == x;
            assert(taken.contains(class_name((i + 1) as nat)));
        }
    }
    vstd::seq_lib::seq_to_set_is_finite(taken);
    vstd::set_lib::lemma_len_subset(names.to_set(), taken.to_set());
}

/// The name a new class starts with: the first that is not taken, neither by the
/// program nor by the user.
pub fn fresh_class_key(taken: &Vec<String>) -> (r: String)
    requires
        taken@.len() < usize::MAX,
    ensures
        !strings_view(taken@).contains(r@),
        exists|n: nat|
            n >= 1 && r@ == #[trigger] class_name(n) && forall|k: nat|
                1 <= k < n ==> strings_view(taken@).contains(#[trigger] class_name(k)),
{
    let ghost all = strings_view(taken@);
    let mut n: usize = 1;
    let mut name = numbered_class(n);
    while list_has(taken, name.as_str())
        invariant
            all == strings_view(taken@),
            taken@.len() < usize::MAX,
            1 <= n,
            name@ == class_name(n as nat),
            forall|k: nat| 1 <= k < n ==> all.contains(#[trigger] class_name(k)),
            n - 1 <= all.len(),
        decreases all.len() + 1 - n,
    {
        proof {
            lemma_names_run_out(all, n as nat);
        }
        n = n + 1;
        name = numbered_class(n);
    }
    name
}

fn numbered_class(n: usize) -> (r: String)
    ensures
        r@ == class_name(n as nat),
{
    let d = decimal_text(n);
    joined("my_class_", d.as_str())
}

/// A class read from a file.
#[derive(Debug)]
pub struct ImportItem {
    /// The class that came with the program under this key: the name it is shown by.
    pub factory_name: Option<String>,
    /// Its key.
    pub key: String,
    /// How it differs from that class, or why that cannot be told.
    pub diff: Result<CharsetDoc, String>,
}

/// What an [`ImportItem`] is reported as.
pub open spec fn imported(i: ImportItem) -> (Seq<char>, Seq<char>, bool, int, int, int) {
    let d = i.diff->Ok_0;
    (
        i.key@,
        match i.factory_name {
            Some(n) => n@,
            None => d.def.shown_name(),
        },
        i.factory_name is Some,
        d.added@.len() as int,
        d.removed@.len() as int,
        d.def.fields_set() as int,
    )
}

/// What a [`CharsetImported`] says.
pub open spec fn import_view(i: CharsetImported) -> (Seq<char>, Seq<char>, bool, int, int, int) {
    (
        i.key@,
        i.name@,
        i.builtin,
        i.added as int,
        i.removed as int,
        i.fields as int,
    )
}

/// What is done to the store for an adjustment.
pub open spec fn saves(p: SavePlan, d: CharsetDoc) -> bool {
    match p {
        SavePlan::Remove { key } => d.is_blank() && key@ == d.def.key@,
        SavePlan::Write { doc } => !d.is_blank() && doc == d,
    }
}

/// The first class of a file that cannot be taken, if any.
pub open spec fn first_bad(items: Seq<ImportItem>) -> Option<Seq<char>>
    decreases items.len(),
{
    if items.len() == 0 {
        None
    } else {
        match items[0].diff {
            Err(m) => Some(m@),
            Ok(_) => first_bad(items.drop_first()),
        }
    }
}

fn find_bad(items: &Vec<ImportItem>) -> (r: Option<String>)
    ensures
        opt_view(r) == first_bad(items@),
        r is None ==> forall|k: int| 0 <= k < items@.len() ==> (#[trigger] items@[k]).diff is Ok,
{
    let mut i: usize = 0;
    assert(items@.skip(0) =~= items@);
    while i < items.len()
        invariant
            i <= items@.len(),
            first_bad(items@) == first_bad(items@.skip(i as int)),
            forall|k: int| 0 <= k < i ==> (#[trigger] items@[k]).diff is Ok,
        decreases items.len() - i,
    {
        proof {
            assert(items@.skip(i as int)[0] == items@[i as int]);
            assert(items@.skip(i as int).drop_first() =~= items@.skip(i as int + 1));
        }
        match &items[i].diff {
            Err(m) => {
                return Some(m.clone());
            },
            Ok(_) => {},
        }
        i = i + 1;
    }
    None
}

fn report_of(item: &ImportItem, d: &CharsetDoc) -> (r: CharsetImported)
    requires
        item.diff == Ok::<CharsetDoc, String>(*d),
    ensures
        import_view(r) == imported(*item),
{
    let name = match &item.factory_name {
        Some(n) => n.clone(),
        None => d.def.display_name(),
    };
    CharsetImported {
        key: item.key.clone(),
        name,
        builtin: item.factory_name.is_some(),
        added: d.added.len(),
        removed: d.removed.len(),
        fields: count_fields(&d.def),
    }
}

fn plan_import(items: Vec<ImportItem>) -> (p: (Vec<SavePlan>, Vec<CharsetImported>))
    requires
        forall|k: int| 0 <= k < items@.len() ==> (#[trigger] items@[k]).diff is Ok,
    ensures
        p.0@.len() == items@.len(),
        p.1@.len() == items@.len(),
        forall|i: int|
            0 <= i < items@.len() ==> saves(#[trigger] p.0@[i], items@[i].diff->Ok_0),
        forall|i: int|
            0 <= i < items@.len() ==> import_view(#[trigger] p.1@[i]) == imported(items@[i]),
{
    let ghost all = items@;
    let mut rest = items;
    let mut plans: Vec<SavePlan> = Vec::new();
    let mut reports: Vec<CharsetImported> = Vec::new();
    let total: usize = rest.len();
    let mut i: usize = 0;
    assert(all.skip(0) =~= all);
    while i < total
        invariant
            i <= total == all.len(),
            rest@ == all.skip(i as int),
            forall|k: int| 0 <= k < all.len() ==> (#[trigger] all[k]).diff is Ok,
            plans@.len() == i,
            reports@.len() == i,
            forall|k: int| 0 <= k < i ==> saves(#[trigger] plans@[k], all[k].diff->Ok_0),
            forall|k: int| 0 <= k < i ==> import_view(#[trigger] reports@[k]) == imported(all[k]),
        decreases total - i,
    {
        let item = rest.remove(0);
        proof {
            assert(all.skip(i as int)[0] == all[i as int]);
            assert(rest@ =~= all.skip(i as int + 1));
        }
        assert(item == all[i as int]);
        match &item.diff {
            Ok(d) => {
                reports.push(report_of(&item, d));
            },
            Err(_) => {},
        }
        match item.diff {
            Ok(d) => {
                plans.push(save_user_doc(d));
            },
            Err(_) => {},
        }
        i = i + 1;
    }
    (plans, reports)
}

/// The class whose record a plan changes.
pub open spec fn plan_key(p: SavePlan) -> Seq<char> {
    match p {
        SavePlan::Remove { key } => key@,
        SavePlan::Write { doc } => doc.def.key@,
    }
}

impl SavePlan {
    /// The class whose record is changed.
    pub fn key(&self) -> (r: String)
        ensures
            r@ == plan_key(*self),
    {
        match self {
            SavePlan::Remove { key } => key.clone(),
            SavePlan::Write { doc } => doc.def.key.clone(),
        }
    }
}

/// A record put back: what the store held under a key, or that it held nothing.
#[derive(Debug)]
pub struct Restore {
    pub key: String,
    pub record: Option<String>,
}

/// The record a store holds under a key.
pub open spec fn record_of(store: Map<Seq<char>, Seq<char>>, key: Seq<char>) -> Option<Seq<char>> {
    if store.dom().contains(key) {
        Some(store[key])
    } else {
        None
    }
}

/// A store with `record` under a key.
pub open spec fn with_record(
    store: Map<Seq<char>, Seq<char>>,
    key: Seq<char>,
    record: Option<Seq<char>>,
) -> Map<Seq<char>, Seq<char>> {
    match record {
        Some(t) => store.insert(key, t),
        None => store.remove(key),
    }
}

/// A store after the first `n` plans; `texts` holds what each of them writes.
pub open spec fn saved(
    store: Map<Seq<char>, Seq<char>>,
    plans: Seq<SavePlan>,
    texts: Seq<Seq<char>>,
    n: int,
) -> Map<Seq<char>, Seq<char>>
    decreases n,
{
    if n <= 0 {
        store
    } else {
        with_record(
            saved(store, plans, texts, n - 1),
            plan_key(plans[n - 1]),
            if plans[n - 1] is Write {
                Some(texts[n - 1])
            } else {
                None
            },
        )
    }
}

/// A store after the first `n` records were put back.
pub open spec fn restored(
    store: Map<Seq<char>, Seq<char>>,
    back: Seq<Restore>,
    n: int,
) -> Map<Seq<char>, Seq<char>>
    decreases n,
{
    if n <= 0 {
        store
    } else {
        with_record(
            restored(store, back, n - 1),
            back[n - 1].key@,
            opt_view(back[n - 1].record),
        )
    }
}

/// Whether `back` puts the records of all classes that `plans` change back to `records`.
pub open spec fn undoes(
    back: Seq<Restore>,
    plans: Seq<SavePlan>,
    records: Seq<Option<String>>,
) -> bool {
    &&& back.len() == plans.len()
    &&& forall|i: int|
        0 <= i < plans.len() ==> (#[trigger] back[i]).key@ == plan_key(plans[i]) && opt_view(
            back[i].record,
        ) == opt_view(records[i])
}

/// What puts the store back when a plan of a file cannot be carried out; `records` holds,
/// for each plan, what the store held under its class before the first of them.
pub fn charset_import_undo(plans: &Vec<SavePlan>, records: Vec<Option<String>>) -> (r: Vec<Restore>)
    requires
        records@.len() == plans@.len(),
    ensures
        undoes(r@, plans@, records@),
{
    let mut back: Vec<Restore> = Vec::new();
    let mut i: usize = 0;
    while i < plans.len()
        invariant
            i <= plans@.len() == records@.len(),
            back@.len() == i,
            forall|k: int|
                0 <= k < i ==> (#[trigger] back@[k]).key@ == plan_key(plans@[k]) && opt_view(
                    back@[k].record,
                ) == opt_view(records@[k]),
        decreases plans.len() - i,
    {
        let record = crate::candidate::clone_opt(&records[i]);
        back.push(Restore { key: plans[i].key(), record });
        i = i + 1;
    }
    back
}

proof fn lemma_saved_elsewhere(
    store: Map<Seq<char>, Seq<char>>,
    plans: Seq<SavePlan>,
    texts: Seq<Seq<char>>,
    n: int,
    key: Seq<char>,
)
    requires
        n <= plans.len(),
        forall|i: int| 0 <= i < plans.len() ==> plan_key(#[trigger] plans[i]) != key,
    ensures
        record_of(saved(store, plans, texts, n), key) == record_of(store, key),
    decreases n,
{
    if n > 0 {
        lemma_saved_elsewhere(store, plans, texts, n - 1, key);
        assert(plan_key(plans[n - 1]) != key);
    }
}

proof fn lemma_restored(
    store: Map<Seq<char>, Seq<char>>,
    back: Seq<Restore>,
    n: int,
    key: Seq<char>,
    record: Option<Seq<char>>,
)
    requires
        0 <= n <= back.len(),
        forall|i: int|
            0 <= i < n && (#[trigger] back[i]).key@ == key ==> opt_view(back[i].record) == record,
    ensures
        record_of(restored(store, back, n), key) == (if exists|i: int|
            0 <= i < n && (#[trigger] back[i]).key@ == key {
            record
        } else {
            record_of(store, key)
        }),
    decreases n,
{
    if n > 0 {
        lemma_restored(store, back, n - 1, key, record);
        if back[n - 1].key@ != key && exists|i: int|
            0 <= i < n && (#[trigger] back[i]).key@ == key {
            let i = choose|i: int| 0 <= i < n && (#[trigger] back[i]).key@ == key;
            assert(0 <= i < n - 1);
        }
    }
}

/// A file of which one class cannot be saved leaves the store as it was: whatever number
/// of plans was carried out, putting the records back gives the store before the import.
pub proof fn a_failed_import_leaves_the_store_untouched(
    before: Map<Seq<char>, Seq<char>>,
    plans: Seq<SavePlan>,
    texts: Seq<Seq<char>>,
    done: int,
    records: Seq<Option<String>>,
    back: Seq<Restore>,
)
    requires
        0 <= done <= plans.len(),
        records.len() == plans.len(),
        forall|i: int|
            0 <= i < plans.len() ==> opt_view(#[trigger] records[i]) == record_of(
                before,
                plan_key(plans[i]),
            ),
        undoes(back, plans, records),
    ensures
        restored(saved(before, plans, texts, done), back, back.len() as int) == before,
{
    let after = saved(before, plans, texts, done);
    let end = restored(after, back, back.len() as int);
    assert forall|key: Seq<char>| #[trigger] record_of(end, key) == record_of(before, key) by {
        assert forall|i: int| 0 <= i < back.len() && (#[trigger] back[i]).key@ == key implies
            opt_view(back[i].record) == record_of(before, key) by {
            assert(opt_view(records[i]) == record_of(before, plan_key(plans[i])));
        }
        lemma_restored(after, back, back.len() as int, key, record_of(before, key));
        if !exists|i: int| 0 <= i < back.len() && (#[trigger] back[i]).key@ == key {
            assert forall|i: int| 0 <= i < plans.len() implies plan_key(#[trigger] plans[i])
                != key by {
                assert(back[i].key@ == plan_key(plans[i]));
            }
            lemma_saved_elsewhere(before, plans, texts, done, key);
        }
    }
    assert forall|key: Seq<char>| #[trigger] end.dom().contains(key) == before.dom().contains(
        key,
    ) by {
        assert(record_of(end, key) == record_of(before, key));
    }
    assert(end.dom() =~= before.dom());
    assert forall|key: Seq<char>| #[trigger] end.dom().contains(key) implies end[key]
        == before[key] by {
        assert(record_of(end, key) == record_of(before, key));
    }
    assert(end =~= before);
}

/// A file left as it was exported leaves no trace. A class that came with the program and
/// is not adjusted is exported without an adjustment; where what is read back differs
/// from that class in nothing, nothing is reported as changed, and the store ends without
/// a record of the class.
pub proof fn an_untouched_export_leaves_no_trace(
    exported: CharsetDoc,
    item: ImportItem,
    plan: SavePlan,
    store: Map<Seq<char>, Seq<char>>,
    text: Seq<char>,
)
    requires
        is_adjustment(item.key@, None, exported),
        item.factory_name is Some,
        item.diff matches Ok(d) && d.def.key@ == item.key@ && d.is_blank(),
        saves(plan, item.diff->Ok_0),
    ensures
        exported.is_blank(),
        imported(item) == (item.key@, item.factory_name->0@, true, 0int, 0int, 0int),
        record_of(saved(store, seq![plan], seq![text], 1), item.key@) is None,
{
    let f = item.diff->Ok_0.def.fields();
    lemma_no_trues(f);
    reveal_with_fuel(saved, 2);
}

proof fn lemma_no_trues(s: Seq<bool>)
    requires
        forall|i: int| 0 <= i < s.len() ==> !#[trigger] s[i],
    ensures
        trues(s) == 0,
    decreases s.len(),
{
    if s.len() > 0 {
        lemma_no_trues(s.drop_last());
    }
}

/// Whether a decision on a character of a class says what would hold anyway.
pub open spec fn redundant(o: OverrideRow, key: Seq<char>) -> bool {
    opt_view(o.class) == Some(key) && o.default_common == o.common
}

/// How many of the decisions are on characters of a class.
pub open spec fn scanned_of(rows: Seq<OverrideRow>, key: Seq<char>) -> nat
    decreases rows.len(),
{
    if rows.len() == 0 {
        0
    } else {
        scanned_of(rows.drop_last(), key) + (if opt_view(rows.last().class) == Some(key) {
            1nat
        } else {
            0nat
        })
    }
}

/// The characters whose decision says what would hold anyway.
pub open spec fn doomed_of(rows: Seq<OverrideRow>, key: Seq<char>) -> Seq<Seq<char>>
    decreases rows.len(),
{
    if rows.len() == 0 {
        Seq::empty()
    } else if redundant(rows.last(), key) {
        doomed_of(rows.drop_last(), key).push(rows.last().ch@)
    } else {
        doomed_of(rows.drop_last(), key)
    }
}

proof fn lemma_scanned_bound(rows: Seq<OverrideRow>, key: Seq<char>)
    ensures
        scanned_of(rows, key) <= rows.len(),
        doomed_of(rows, key).len() <= scanned_of(rows, key),
    decreases rows.len(),
{
    if rows.len() > 0 {
        lemma_scanned_bound(rows.drop_last(), key);
    }
}

fn find_redundant(rows: &Vec<OverrideRow>, key: &str) -> (r: (usize, Vec<String>))
    ensures
        r.0 == scanned_of(rows@, key@),
        strings_view(r.1@) == doomed_of(rows@, key@),
{
    let mut n: usize = 0;
    let mut doomed: Vec<String> = Vec::new();
    let mut i: usize = 0;
    assert(rows@.take(0) =~= Seq::empty());
    assert(strings_view(doomed@) =~= Seq::empty());
    while i < rows.len()
        invariant
            i <= rows@.len(),
            n == scanned_of(rows@.take(i as int), key@),
            strings_view(doomed@) == doomed_of(rows@.take(i as int), key@),
        decreases rows.len() - i,
    {
        proof {
            assert(rows@.take(i as int + 1).drop_last() =~= rows@.take(i as int));
            assert(rows@.take(i as int + 1).last() == rows@[i as int]);
            lemma_scanned_bound(rows@.take(i as int), key@);
        }
        let row = &rows[i];
        let mine = match &row.class {
            Some(k) => same(k.as_str(), key),
            None => false,
        };
        if mine {
            n = n + 1;
            if row.default_common == row.common {
                let ghost prev = strings_view(doomed@);
                let c = row.ch.clone();
                doomed.push(c);
                assert(strings_view(doomed@) =~= prev.push(c@));
            }
        }
        i = i + 1;
    }
    assert(rows@.take(rows@.len() as int) =~= rows@);
    (n, doomed)
}

/// Clearing away changes nothing that anyone sees: only decisions that agree with what
/// would hold anyway go.
pub proof fn clearing_keeps_every_verdict(rows: Seq<OverrideRow>, key: Seq<char>, i: int)
    requires
        0 <= i < rows.len(),
        redundant(rows[i], key),
    ensures
        rows[i].default_common == rows[i].common,
        doomed_of(rows, key).contains(rows[i].ch@),
    decreases rows.len(),
{
    let d = doomed_of(rows, key);
    if i == rows.len() - 1 {
        assert(d[d.len() - 1] == rows[i].ch@);
    } else {
        clearing_keeps_every_verdict(rows.drop_last(), key, i);
        let e = doomed_of(rows.drop_last(), key);
        let k = e.index_of(rows[i].ch@);
        assert(d[k] == rows[i].ch@);
    }
}

impl Coordinator {
    /// Changes a class: what is done to the store. `known` says that the class is in
    /// force, and `found` is the user's adjustment on record. A class that was switched
    /// off is not in force, but its adjustment shows that it is there.
    pub fn charset_edit(
        &self,
        key: &str,
        edit: &CharsetEdit,
        known: bool,
        found: Option<CharsetDoc>,
    ) -> (r: Result<SavePlan, CharsetError>)
        ensures
            ({
                let there = known || (found matches Some(d) && d.def.key@ == key@
                    && !d.is_blank());
                match r {
                    Ok(p) => {
                        &&& self.engine.has_store
                        &&& there
                        &&& edit_error(*edit) is None
                        &&& exists|d: CharsetDoc| #[trigger]
                            is_adjustment(key@, found, d) && saves(
                                p,
                                (CharsetDoc { def: edited(d.def, *edit), ..d }),
                            )
                    },
                    Err(e) => e@ == (if !self.engine.has_store {
                        CharsetErrorModel::NoStore
                    } else if !there {
                        CharsetErrorModel::Unknown { key: key@ }
                    } else {
                        edit_error(*edit)->0
                    }) && (!self.engine.has_store || !there || edit_error(*edit) is Some),
                }
            }),
            r is Ok <==> self.engine.has_store && edit_error(*edit) is None && (known || (found matches Some(d)
                && d.def.key@ == key@ && !d.is_blank())),
            r matches Ok(p) ==> plan_key(p) == key@,
    {
        if !self.engine.has_store {
            return Err(CharsetError::NoStore);
        }
        let doc = user_doc(key, found);
        assert(is_adjustment(key@, found, doc));
        if !known && is_empty_override(&doc) {
            return Err(CharsetError::Unknown { key: key.to_owned() });
        }
        match apply_edit(doc, edit) {
            Ok(d) => {
                let p = save_user_doc(d);
                Ok(p)
            },
            Err(e) => Err(e),
        }
    }

    /// Undoes every adjustment of a class: its record is removed.
    pub fn charset_reset(&self, key: &str) -> (r: Result<SavePlan, CharsetError>)
        ensures
            match r {
                Ok(p) => self.engine.has_store && (p matches SavePlan::Remove { key: k } && k@
                    == key@),
                Err(e) => !self.engine.has_store && e@ == CharsetErrorModel::NoStore,
            },
            r is Ok <==> self.engine.has_store,
            r matches Ok(p) ==> p is Remove && plan_key(p) == key@,
    {
        if !self.engine.has_store {
            return Err(CharsetError::NoStore);
        }
        Ok(SavePlan::Remove { key: key.to_owned() })
    }

    /// Deletes a class of the user's own: its record is removed. A class that came with
    /// the program cannot be deleted.
    pub fn charset_delete(&self, key: &str, builtin: bool) -> (r: Result<SavePlan, CharsetError>)
        ensures
            match r {
                Ok(p) => !builtin && self.engine.has_store && (p matches SavePlan::Remove {
                    key: k,
                } && k@ == key@),
                Err(e) => e@ == (if builtin {
                    CharsetErrorModel::Factory { key: key@ }
                } else {
                    CharsetErrorModel::NoStore
                }) && (builtin || !self.engine.has_store),
            },
            builtin ==> r is Err,
            !builtin && self.engine.has_store ==> r is Ok,
            r matches Ok(p) ==> p is Remove && plan_key(p) == key@,
    {
        if builtin {
            return Err(CharsetError::Factory { key: key.to_owned() });
        }
        self.charset_reset(key)
    }

    /// What a deletion comes to once it was tried; `removed` says whether there was a
    /// record.
    pub fn charset_deleted(key: &str, removed: bool) -> (r: Result<(), CharsetError>)
        ensures
            match r {
                Ok(_) => removed,
                Err(e) => !removed && e@ == (CharsetErrorModel::Unknown { key: key@ }),
            },
            r is Ok <==> removed,
    {
        if removed {
            Ok(())
        } else {
            Err(CharsetError::Unknown { key: key.to_owned() })
        }
    }

    /// What a file of classes comes to: what is done to the store, and what is reported,
    /// in the order of the file. One class that cannot be taken stops the whole file. A
    /// plan that cannot be carried out is answered by [`charset_import_undo`].
    pub fn charset_import_file(&self, items: Vec<ImportItem>) -> (r: Result<
        (Vec<SavePlan>, Vec<CharsetImported>),
        CharsetError,
    >)
        ensures
            match r {
                Ok(p) => {
                    &&& items@.len() > 0
                    &&& first_bad(items@) is None
                    &&& self.engine.has_store
                    &&& p.0@.len() == items@.len()
                    &&& p.1@.len() == items@.len()
                    &&& forall|i: int|
                        0 <= i < items@.len() ==> saves(
                            #[trigger] p.0@[i],
                            items@[i].diff->Ok_0,
                        ) && items@[i].diff is Ok
                    &&& forall|i: int|
                        0 <= i < items@.len() ==> import_view(#[trigger] p.1@[i]) == imported(
                            items@[i],
                        )
                },
                Err(e) => e@ == (if items@.len() == 0 {
                    CharsetErrorModel::NoClasses
                } else if first_bad(items@) is Some {
                    CharsetErrorModel::Diff { message: first_bad(items@)->0 }
                } else {
                    CharsetErrorModel::NoStore
                }) && (items@.len() == 0 || first_bad(items@) is Some || !self.engine.has_store),
            },
            r is Ok <==> self.engine.has_store && items@.len() > 0 && forall|i: int|
                0 <= i < items@.len() ==> (#[trigger] items@[i]).diff is Ok,
    {
        if items.len() == 0 {
            return Err(CharsetError::NoClasses);
        }
        match find_bad(&items) {
            Some(message) => {
                proof {
                    the_first_bad_class_is_told(items@);
                }
                return Err(CharsetError::Diff { message });
            },
            None => {},
        }
        if !self.engine.has_store {
            return Err(CharsetError::NoStore);
        }
        Ok(plan_import(items))
    }

    /// The adjustment that goes into the file a class is edited in; the class has to
    /// have come with the program, or to be adjusted.
    pub fn charset_export_edit(&self, key: &str, builtin: bool, found: Option<CharsetDoc>) -> (r:
        Result<CharsetDoc, CharsetError>)
        ensures
            ({
                let there = builtin || (found matches Some(d) && d.def.key@ == key@
                    && !d.is_blank());
                match r {
                    Ok(d) => {
                        &&& self.engine.has_store
                        &&& there
                        &&& is_adjustment(key@, found, d)
                    },
                    Err(e) => e@ == (if !self.engine.has_store {
                        CharsetErrorModel::NoStore
                    } else {
                        CharsetErrorModel::Unknown { key: key@ }
                    }) && (!self.engine.has_store || !there),
                }
            }),
            r is Ok <==> self.engine.has_store && (builtin || (found matches Some(d) && d.def.key@ == key@
                && !d.is_blank())),
    {
        if !self.engine.has_store {
            return Err(CharsetError::NoStore);
        }
        let doc = user_doc(key, found);
        if !builtin && is_empty_override(&doc) {
            return Err(CharsetError::Unknown { key: key.to_owned() });
        }
        Ok(doc)
    }

    /// The class a new file starts with. `taken` holds the keys of all classes.
    pub fn charset_export_template(taken: &Vec<String>) -> (r: CharsetDoc)
        requires
            taken@.len() < usize::MAX,
        ensures
            !strings_view(taken@).contains(r.def.key@),
            exists|n: nat|
                n >= 1 && r.def.key@ == #[trigger] class_name(n) && forall|k: nat|
                    1 <= k < n ==> strings_view(taken@).contains(#[trigger] class_name(k)),
            opt_view(r.def.name) == Some("我的字符类"@),
            r.def.ranges matches Some(v) && v@.len() == 0,
            r.added@.len() == 0,
            r.removed@.len() == 0,
            r.def == (CharsetDef {
                key: r.def.key,
                name: r.def.name,
                ranges: r.def.ranges,
                file: None,
                scope: None,
                default: None,
                outside: None,
                order: None,
                no_freq: None,
                in_rare: None,
                enabled: None,
            }),
    {
        let key = fresh_class_key(taken);
        CharsetDoc {
            def: CharsetDef {
                key,
                name: Some("我的字符类".to_owned()),
                ranges: Some(Vec::new()),
                file: None,
                scope: None,
                default: None,
                outside: None,
                order: None,
                no_freq: None,
                in_rare: None,
                enabled: None,
            },
            added: Vec::new(),
            removed: Vec::new(),
        }
    }

    /// Which decisions on characters of a class can go: those that say what would hold
    /// anyway. `known` says that the class is in force.
    pub fn charset_clear_redundant(&self, key: &str, known: bool, rows: &Vec<OverrideRow>) -> (r:
        Result<(CharsetCleanupOutcome, Vec<String>), CharsetError>)
        ensures
            match r {
                Ok(p) => {
                    &&& self.engine.has_store
                    &&& known
                    &&& p.0.scanned == scanned_of(rows@, key@)
                    &&& p.0.removed == doomed_of(rows@, key@).len()
                    &&& strings_view(p.1@) == doomed_of(rows@, key@)
                },
                Err(e) => e@ == (if !self.engine.has_store {
                    CharsetErrorModel::NoStore
                } else {
                    CharsetErrorModel::Unknown { key: key@ }
                }) && (!self.engine.has_store || !known),
            },
            r is Ok <==> self.engine.has_store && known,
            r matches Ok(p) ==> p.0.removed <= p.0.scanned && p.0.removed == p.1@.len(),
    {
        if !self.engine.has_store {
            return Err(CharsetError::NoStore);
        }
        if !known {
            return Err(CharsetError::Unknown { key: key.to_owned() });
        }
        let (scanned, doomed) = find_redundant(rows, key);
        assert(doomed@.len() == strings_view(doomed@).len());
        proof {
            fewer_decisions_go_than_are_looked_at(rows@, key@);
        }
        Ok((CharsetCleanupOutcome { scanned, removed: doomed.len() }, doomed))
    }
}

/// Switching a class off and on again leaves no adjustment behind.
pub proof fn switching_on_again_leaves_no_trace(d: CharsetDef, off: CharsetEdit, on: CharsetEdit)
    requires
        off == (CharsetEdit {
            default_common: None,
            no_freq: None,
            in_rare: None,
            enabled: Some(false),
            order: None,
        }),
        on == (CharsetEdit { enabled: Some(true), ..off }),
    ensures
        edited(d, off).enabled == Some(false),
        edited(edited(d, off), on) == (CharsetDef { enabled: None, ..d }),
{
}

/// Taking a commonality back says nothing, rather than that characters are common.
pub proof fn inheriting_says_nothing(d: CharsetDef, edit: CharsetEdit)
    requires
        edit.default_common matches Some(v) && v@ == "inherit"@,
    ensures
        edited(d, edit).default is None,
{
    reveal_strlit("common");
    reveal_strlit("rare");
    reveal_strlit("inherit");
    assert("common"@.len() == 6);
    assert("rare"@.len() == 4);
    assert("inherit"@.len() == 7);
}

/// Each error is told in its own words and names what it is about.
pub proof fn class_errors_are_told_apart(key: Seq<char>)
    ensures
        CharsetErrorModel::NoStore.text() == "无持久化存储，字符类的调整无处落盘"@,
        (CharsetErrorModel::Unknown { key }).text() == "没有名为「"@ + key + "」的字符类"@,
        (CharsetErrorModel::Factory { key }).text() == "「"@ + key
            + "」是出厂类，不能删除；要去掉它请停用，要撤销调整请恢复默认"@,
        (CharsetErrorModel::BadDefault { value: key }).text()
            == "default 只能是 common / rare / inherit，收到「"@ + key + "」"@,
        CharsetErrorModel::NoClasses.text() == "文件里没有任何字符类"@,
        (CharsetErrorModel::Diff { message: key }).text() == key,
{
}

/// Counting what holds counts each once.
pub proof fn each_truth_counts_once(s: Seq<bool>, b: bool)
    ensures
        trues(Seq::empty()) == 0,
        b ==> trues(s.push(b)) == trues(s) + 1,
        !b ==> trues(s.push(b)) == trues(s),
{
    assert(s.push(b).drop_last() =~= s);
}

/// A class is shown by its name, and by its key where it has none.
pub proof fn classes_are_shown_by_name(d: CharsetDef)
    ensures
        d.name matches Some(n) ==> d.shown_name() == n@,
        d.name is None ==> d.shown_name() == d.key@,
{
}

/// One for a statement that holds, and nothing for one that does not.
pub open spec fn one_if(b: bool) -> nat {
    if b {
        1
    } else {
        0
    }
}

proof fn lemma_trues_take(s: Seq<bool>, k: int)
    requires
        0 <= k < s.len(),
    ensures
        trues(s.take(k + 1)) == trues(s.take(k)) + one_if(s[k]),
{
    assert(s.take(k + 1).drop_last() =~= s.take(k));
    assert(s.take(k + 1).last() == s[k]);
}

proof fn lemma_ten_trues(s: Seq<bool>)
    requires
        s.len() == 10,
    ensures
        trues(s) == one_if(s[0]) + one_if(s[1]) + one_if(s[2]) + one_if(s[3]) + one_if(s[4])
            + one_if(s[5]) + one_if(s[6]) + one_if(s[7]) + one_if(s[8]) + one_if(s[9]),
{
    assert(s.take(0) =~= Seq::<bool>::empty());
    assert(s.take(10) =~= s);
    lemma_trues_take(s, 0);
    lemma_trues_take(s, 1);
    lemma_trues_take(s, 2);
    lemma_trues_take(s, 3);
    lemma_trues_take(s, 4);
    lemma_trues_take(s, 5);
    lemma_trues_take(s, 6);
    lemma_trues_take(s, 7);
    lemma_trues_take(s, 8);
    lemma_trues_take(s, 9);
}

proof fn lemma_zero_trues(s: Seq<bool>, i: int)
    requires
        trues(s) == 0,
        0 <= i < s.len(),
    ensures
        !s[i],
    decreases s.len(),
{
    if i < s.len() - 1 {
        lemma_zero_trues(s.drop_last(), i);
    }
}

/// Each field that is set counts once.
#[verifier::spinoff_prover]
#[verifier::rlimit(60)]
pub proof fn every_field_set_counts_once(d: CharsetDef)
    ensures
        d.fields_set() == one_if(d.name is Some) + one_if(d.ranges is Some) + one_if(d.file is Some)
            + one_if(d.scope is Some) + one_if(d.default is Some) + one_if(d.outside is Some)
            + one_if(d.order is Some) + one_if(d.no_freq is Some) + one_if(d.in_rare is Some)
            + one_if(d.enabled is Some),
{
    lemma_ten_trues(d.fields());
}

/// A class says nothing where it sets no field, and only there.
#[verifier::spinoff_prover]
#[verifier::rlimit(60)]
pub proof fn classes_that_set_nothing_say_nothing(d: CharsetDef)
    ensures
        d.says_nothing() <==> d.fields_set() == 0,
{
    let f = d.fields();
    if d.fields_set() == 0 {
        lemma_zero_trues(f, 0);
        lemma_zero_trues(f, 1);
        lemma_zero_trues(f, 2);
        lemma_zero_trues(f, 3);
        lemma_zero_trues(f, 4);
        lemma_zero_trues(f, 5);
        lemma_zero_trues(f, 6);
        lemma_zero_trues(f, 7);
        lemma_zero_trues(f, 8);
        lemma_zero_trues(f, 9);
    }
    if d.says_nothing() {
        lemma_no_trues(f);
    }
}

/// An adjustment adjusts nothing where it sets no field and neither adds nor takes away a
/// member; what it is done for in the store follows from that.
pub proof fn blank_adjustments_are_removed(doc: CharsetDoc, p: SavePlan)
    ensures
        doc.is_blank() <==> doc.def.fields_set() == 0 && doc.added@.len() == 0 && doc.removed@.len()
            == 0,
        saves(p, doc) && doc.is_blank() ==> p is Remove && plan_key(p) == doc.def.key@,
        saves(p, doc) && !doc.is_blank() ==> p == (SavePlan::Write { doc }) && plan_key(p)
            == doc.def.key@,
{
    classes_that_set_nothing_say_nothing(doc.def);
}

/// The adjustment of a class is the one on record for it, and adjusts nothing where there is
/// none or where the record is another class's.
pub proof fn adjustments_belong_to_their_class(
    key: Seq<char>,
    found: Option<CharsetDoc>,
    d: CharsetDoc,
)
    requires
        is_adjustment(key, found, d),
    ensures
        d.def.key@ == key,
        found is None ==> d.is_blank(),
        found matches Some(f) ==> (if f.def.key@ == key {
            d == f
        } else {
            d.is_blank()
        }),
{
}

/// The three words for a commonality say common, rare and nothing; no other word says anything,
/// and a change that uses one is refused.
pub proof fn three_words_name_a_commonality(edit: CharsetEdit, v: Seq<char>)
    ensures
        commonality_named("common"@) == Some(Some(Commonality::Common)),
        commonality_named("rare"@) == Some(Some(Commonality::Rare)),
        commonality_named("inherit"@) == Some(None::<Commonality>),
        v != "common"@ && v != "rare"@ && v != "inherit"@ ==> commonality_named(v) is None,
        edit.default_common is None ==> edit_error(edit) is None,
        edit.default_common matches Some(w) ==> (edit_error(edit) is Some <==> w@ != "common"@ && w@
            != "rare"@ && w@ != "inherit"@),
        edit.default_common matches Some(w) ==> (edit_error(edit) matches Some(e) ==> e == (
        CharsetErrorModel::BadDefault { value: w@ })),
{
    reveal_strlit("common");
    reveal_strlit("rare");
    reveal_strlit("inherit");
    assert("common"@.len() != "rare"@.len());
    assert("common"@.len() != "inherit"@.len());
    assert("rare"@.len() != "inherit"@.len());
}

/// A change that leaves a field out leaves it as it was; a switch that goes to its ordinary
/// position is left to the class, and one that leaves it is fixed; a place is fixed. Nothing
/// else of the class changes.
pub proof fn changes_change_what_they_name(d: CharsetDef, edit: CharsetEdit)
    ensures
        edit.default_common is None ==> edited(d, edit).default == d.default,
        edit.default_common matches Some(v) ==> (v@ == "common"@ ==> edited(d, edit).default == Some(
            Commonality::Common,
        )),
        edit.default_common matches Some(v) ==> (v@ == "rare"@ ==> edited(d, edit).default == Some(
            Commonality::Rare,
        )),
        edit.no_freq is None ==> edited(d, edit).no_freq == d.no_freq,
        edit.no_freq == Some(true) ==> edited(d, edit).no_freq == Some(true),
        edit.no_freq == Some(false) ==> edited(d, edit).no_freq is None,
        edit.in_rare is None ==> edited(d, edit).in_rare == d.in_rare,
        edit.in_rare == Some(true) ==> edited(d, edit).in_rare == Some(true),
        edit.in_rare == Some(false) ==> edited(d, edit).in_rare is None,
        edit.enabled is None ==> edited(d, edit).enabled == d.enabled,
        edit.enabled == Some(true) ==> edited(d, edit).enabled is None,
        edit.enabled == Some(false) ==> edited(d, edit).enabled == Some(false),
        edit.order is None ==> edited(d, edit).order == d.order,
        edit.order is Some ==> edited(d, edit).order == edit.order,
        edited(d, edit).key == d.key && edited(d, edit).name == d.name && edited(d, edit).ranges
            == d.ranges && edited(d, edit).file == d.file && edited(d, edit).scope == d.scope
            && edited(d, edit).outside == d.outside,
{
    three_words_name_a_commonality(edit, "common"@);
}

/// A range is written as its ends in hexadecimal, and as one where it has one code point.
pub proof fn ranges_name_their_ends(lo: u32, hi: u32)
    ensures
        range_text(lo, lo) == seq!['U', '+'] + hex(lo as nat, 4),
        lo != hi ==> range_text(lo, hi) == seq!['U', '+'] + hex(lo as nat, 4) + seq!['-', 'U', '+']
            + hex(hi as nat, 4),
{
    reveal_strlit("U+");
    reveal_strlit("-U+");
    assert("U+"@ =~= seq!['U', '+']);
    assert("-U+"@ =~= seq!['-', 'U', '+']);
}

/// A class in force is listed as it is, by its key where it has no name, and switched on; it is
/// built in where it came with the program, and overridden where the user adjusted it.
pub proof fn classes_in_force_are_listed_as_they_are(c: ClassInfo, f: CharsetFacts)
    ensures
        active_row(c, f).key == c.key@,
        c.name@.len() > 0 ==> active_row(c, f).name == c.name@,
        c.name@.len() == 0 ==> active_row(c, f).name == c.key@,
        active_row(c, f).enabled,
        active_row(c, f).member_count == c.member_count,
        active_row(c, f).order == c.order,
        active_row(c, f).default_common == c.default_common,
        active_row(c, f).no_freq == c.no_freq,
        active_row(c, f).in_rare == c.in_rare,
        active_row(c, f).builtin <==> exists|i: int|
            0 <= i < f.factory@.len() && (#[trigger] f.factory@[i])@ == c.key@,
        active_row(c, f).overridden <==> exists|i: int|
            0 <= i < f.user@.len() && (#[trigger] f.user@[i]).def.key@ == c.key@,
        active_row(c, f).ranges.len() == c.ranges@.len(),
        active_row(c, f).override_count == decided(f.decided@, c.key@),
{
    let v = strings_view(f.factory@);
    if v.contains(c.key@) {
        let i = choose|i: int| 0 <= i < v.len() && v[i] == c.key@;
        assert(f.factory@[i]@ == c.key@);
    }
    if exists|i: int| 0 <= i < f.factory@.len() && (#[trigger] f.factory@[i])@ == c.key@ {
        let i = choose|i: int| 0 <= i < f.factory@.len() && (#[trigger] f.factory@[i])@ == c.key@;
        assert(v[i] == c.key@);
    }
}

/// A class that was switched off is listed by what its adjustment says, as off and overridden.
pub proof fn classes_switched_off_are_listed_by_their_adjustment(d: CharsetDoc, f: CharsetFacts)
    ensures
        disabled_row(d, f).key == d.def.key@,
        disabled_row(d, f).name == d.def.shown_name(),
        !disabled_row(d, f).enabled,
        disabled_row(d, f).overridden,
        disabled_row(d, f).member_count == d.added@.len(),
        d.def.order matches Some(o) ==> disabled_row(d, f).order == o,
        d.def.order is None ==> disabled_row(d, f).order == f.default_order,
        d.def.default is None ==> disabled_row(d, f).default_common is None,
        d.def.default == Some(Commonality::Common) ==> disabled_row(d, f).default_common == Some(
            true,
        ),
        d.def.default == Some(Commonality::Rare) ==> disabled_row(d, f).default_common == Some(
            false,
        ),
        disabled_row(d, f).no_freq <==> d.def.no_freq == Some(true),
        disabled_row(d, f).in_rare <==> d.def.in_rare == Some(true),
        disabled_row(d, f).builtin == strings_view(f.factory@).contains(d.def.key@),
        d.def.ranges is None ==> disabled_row(d, f).ranges.len() == 0,
        d.def.ranges matches Some(r) ==> disabled_row(d, f).ranges == strings_view(r@),
        disabled_row(d, f).override_count == decided(f.decided@, d.def.key@),
{
}

/// Every class in force has its row, and so has every class whose last adjustment switches it
/// off; no other class has.
pub proof fn the_listing_holds_every_class(f: CharsetFacts, i: int)
    ensures
        0 <= i < f.classes@.len() ==> unsorted_rows(f).contains(active_row(f.classes@[i], f)),
        0 <= i < f.user@.len() && f.user@[i].def.enabled == Some(false) && !in_force(
            f.classes@,
            f.user@[i].def.key@,
        ) && (forall|j: int|
            i < j < f.user@.len() ==> (#[trigger] f.user@[j]).def.key@ != f.user@[i].def.key@)
            ==> unsorted_rows(f).contains(disabled_row(f.user@[i], f)),
        0 <= i < unsorted_rows(f).len() ==> in_force(f.classes@, unsorted_rows(f)[i].key)
            || !unsorted_rows(f)[i].enabled,
{
    let rows = f.classes@.map_values(|c: ClassInfo| active_row(c, f));
    let off = disabled_rows(f, f.user@.len() as int);
    let all = unsorted_rows(f);
    assert(all =~= rows + off);
    if 0 <= i < f.classes@.len() {
        assert(all[i] == active_row(f.classes@[i], f));
    }
    if 0 <= i < f.user@.len() && switched_off(f, i) {
        switched_off_classes_stay_listed(f, i);
    }
    if 0 <= i < all.len() {
        if i < rows.len() {
            assert(f.classes@[i].key@ == all[i].key);
        } else {
            lemma_disabled_rows_are_off(f, f.user@.len() as int, i - rows.len());
        }
    }
}

proof fn lemma_disabled_rows_are_off(f: CharsetFacts, n: int, i: int)
    requires
        0 <= i < disabled_rows(f, n).len(),
    ensures
        !disabled_rows(f, n)[i].enabled,
    decreases n,
{
    if n > 0 && i < disabled_rows(f, n - 1).len() {
        lemma_disabled_rows_are_off(f, n - 1, i);
        assert(disabled_rows(f, n)[i] == disabled_rows(f, n - 1)[i]);
    }
}

/// Classes are listed by their place, the lower first, and by their key where two share one.
pub proof fn lower_places_are_listed_first(a: RowModel, b: RowModel)
    ensures
        a.order < b.order ==> row_before(a, b) && !row_before(b, a),
        a.order == b.order ==> (row_before(a, b) <==> text_before(a.key, b.key)),
{
}

/// In the listing whatever comes before another stands before it.
pub proof fn listed_classes_follow_their_order(s: Seq<RowModel>, i: int, j: int)
    requires
        0 <= i < sorted_rows(s).len(),
        0 <= j < sorted_rows(s).len(),
        row_before(sorted_rows(s)[i], sorted_rows(s)[j]),
    ensures
        i < j,
{
    listing_follows_the_order_of_deciding(s);
    text_order_irreflexive(sorted_rows(s)[i].key);
}

/// Each decision counts once, for the class it falls to.
pub proof fn each_decision_counts_for_its_class(
    classes: Seq<Option<String>>,
    x: Option<String>,
    key: Seq<char>,
)
    ensures
        decided(Seq::empty(), key) == 0,
        opt_view(x) == Some(key) ==> decided(classes.push(x), key) == decided(classes, key) + 1,
        opt_view(x) != Some(key) ==> decided(classes.push(x), key) == decided(classes, key),
{
    assert(classes.push(x).drop_last() =~= classes);
}

/// New classes are numbered, each number giving a name of its own.
pub proof fn new_classes_are_numbered(a: nat, b: nat)
    ensures
        class_name(a) == "my_class_"@ + decimal(a),
        a != b ==> class_name(a) != class_name(b),
{
    if class_name(a) == class_name(b) {
        let p = "my_class_"@;
        assert(class_name(a).skip(p.len() as int) =~= decimal(a));
        assert(class_name(b).skip(p.len() as int) =~= decimal(b));
        lemma_decimal_injective(a, b);
    }
}

/// A class that was read is reported by its key, with the name of the class it adjusts or else
/// its own, and with what it adds, takes away and sets.
pub proof fn classes_read_are_reported(i: ImportItem, d: CharsetDoc)
    requires
        i.diff == Ok::<CharsetDoc, String>(d),
    ensures
        ({
            let (key, name, builtin, added, removed, fields) = imported(i);
            &&& key == i.key@
            &&& i.factory_name matches Some(n) ==> name == n@ && builtin
            &&& i.factory_name is None ==> name == d.def.shown_name() && !builtin
            &&& added == d.added@.len()
            &&& removed == d.removed@.len()
            &&& fields == d.def.fields_set()
        }),
{
}

/// The first class that cannot be taken is the one that is told; there is none where all can
/// be.
pub proof fn the_first_bad_class_is_told(items: Seq<ImportItem>)
    ensures
        match first_bad(items) {
            Some(m) => exists|i: int|
                0 <= i < items.len() && (#[trigger] items[i]).diff is Err && items[i].diff->Err_0@
                    == m && forall|k: int| 0 <= k < i ==> (#[trigger] items[k]).diff is Ok,
            None => forall|i: int| 0 <= i < items.len() ==> (#[trigger] items[i]).diff is Ok,
        },
    decreases items.len(),
{
    if items.len() > 0 {
        match items[0].diff {
            Err(m) => {
                assert(items[0].diff is Err);
            },
            Ok(_) => {
                let d = items.drop_first();
                the_first_bad_class_is_told(d);
                match first_bad(items) {
                    Some(m) => {
                        let i = choose|i: int|
                            0 <= i < d.len() && (#[trigger] d[i]).diff is Err && d[i].diff->Err_0@
                                == m && forall|k: int|
                                0 <= k < i ==> (#[trigger] d[k]).diff is Ok;
                        assert(items[i + 1] == d[i]);
                        assert forall|k: int| 0 <= k < i + 1 implies (
                        #[trigger] items[k]).diff is Ok by {
                            if k > 0 {
                                assert(items[k] == d[k - 1]);
                            }
                        }
                    },
                    None => {
                        assert forall|i: int| 0 <= i < items.len() implies (
                        #[trigger] items[i]).diff is Ok by {
                            if i > 0 {
                                assert(items[i] == d[i - 1]);
                            }
                        }
                    },
                }
            },
        }
    }
}

/// A decision can go where it is on a character of the class and agrees with what would hold
/// anyway; one that says something else stays, and so does one of another class.
pub proof fn decisions_that_say_something_stay(o: OverrideRow, key: Seq<char>)
    ensures
        o.common != o.default_common ==> !redundant(o, key),
        opt_view(o.class) != Some(key) ==> !redundant(o, key),
        opt_view(o.class) == Some(key) && o.common == o.default_common ==> redundant(o, key),
{
}

/// Every decision on a character of the class is looked at, and each that can go is named once,
/// in order; no other character is named.
pub proof fn redundant_decisions_are_named_in_order(
    rows: Seq<OverrideRow>,
    o: OverrideRow,
    key: Seq<char>,
)
    ensures
        scanned_of(Seq::empty(), key) == 0,
        doomed_of(Seq::empty(), key).len() == 0,
        scanned_of(rows.push(o), key) == scanned_of(rows, key) + (if opt_view(o.class) == Some(key) {
            1int
        } else {
            0int
        }),
        opt_view(o.class) == Some(key) && o.common == o.default_common ==> doomed_of(
            rows.push(o),
            key,
        ) == doomed_of(rows, key).push(o.ch@),
        opt_view(o.class) != Some(key) || o.common != o.default_common ==> doomed_of(
            rows.push(o),
            key,
        ) == doomed_of(rows, key),
{
    assert(rows.push(o).drop_last() =~= rows);
}

/// No more decisions go than are looked at, and no more are looked at than there are.
pub proof fn fewer_decisions_go_than_are_looked_at(rows: Seq<OverrideRow>, key: Seq<char>)
    ensures
        doomed_of(rows, key).len() <= scanned_of(rows, key) <= rows.len(),
{
    lemma_scanned_bound(rows, key);
}

} // verus!

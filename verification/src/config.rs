//! Reading and toggling single configuration values.

use crate::candidate::strings_view;
use crate::text::{joined, same, split, split_parts};
use vstd::prelude::*;
use vstd::string::*;

verus! {

/// `serde_json::Value`: a JSON document.
#[verifier::external_type_specification]
#[verifier::external_body]
pub struct ExValue(serde_json::Value);

/// The places of a document that can be reached by keys of objects, one inside the
/// other, each with what stands there written as compact JSON.
pub uninterp spec fn json_dumps(v: serde_json::Value) -> Map<Seq<Seq<char>>, Seq<char>>;

/// The places of a document that hold a string, each with that string.
pub uninterp spec fn json_strings(v: serde_json::Value) -> Map<Seq<Seq<char>>, Seq<char>>;

/// Whether the map `sub` holds what `m` holds behind `lead`, and nothing else.
pub open spec fn behind<T>(
    m: Map<Seq<Seq<char>>, T>,
    lead: Seq<Seq<char>>,
    sub: Map<Seq<Seq<char>>, T>,
) -> bool {
    forall|p: Seq<Seq<char>>| #[trigger]
        sub.dom().contains(p) == m.dom().contains(lead + p) && (sub.dom().contains(p) ==> sub[p]
            == m[lead + p])
}

/// Whether no place of `m` lies behind a key.
pub open spec fn unreachable_through<T>(m: Map<Seq<Seq<char>>, T>, key: Seq<char>) -> bool {
    forall|p: Seq<Seq<char>>| !m.dom().contains(#[trigger] (seq![key] + p))
}

/// `serde_json::Value::get` with a string: the value an object holds under that key.
/// What can be reached from it is what can be reached from the document by going
/// through the key first. Where the document is no object, or has no such key,
/// nothing can be reached through it.
#[verifier::external_body]
fn json_get<'a>(v: &'a serde_json::Value, key: &str) -> (r: Option<&'a serde_json::Value>)
    ensures
        match r {
            Some(w) => {
                &&& behind(json_dumps(*v), seq![key@], json_dumps(*w))
                &&& behind(json_strings(*v), seq![key@], json_strings(*w))
            },
            None => unreachable_through(json_dumps(*v), key@) && unreachable_through(
                json_strings(*v),
                key@,
            ),
        },
{
    v.get(key)
}

/// `serde_json::Value::as_str`: the text of a value that is a string, and nothing for
/// any other value.
#[verifier::external_body]
fn json_as_str(v: &serde_json::Value) -> (r: Option<String>)
    ensures
        r is Some == json_strings(*v).dom().contains(Seq::empty()),
        r matches Some(s) ==> s@ == json_strings(*v)[Seq::empty()],
{
    v.as_str().map(|s| s.to_owned())
}

/// `serde_json::Value`'s `Display`: the value as compact JSON.
#[verifier::external_body]
fn json_dump(v: &serde_json::Value) -> (r: String)
    ensures
        json_dumps(*v).contains_pair(Seq::empty(), r@),
{
    v.to_string()
}

/// Why a configuration value cannot be read or toggled.
#[derive(Debug)]
pub enum ConfigError {
    /// No such key is registered.
    Unknown { key: String },
    /// The part of the configuration the key is in could not be read, so its value is
    /// the factory one and must not be written back.
    Degraded { key: String },
    /// The configuration holds nothing under the key.
    Missing { key: String },
    /// The key holds neither a switch nor a choice.
    NotToggled { key: String },
}

/// What a [`ConfigError`] says.
pub ghost enum ConfigErrorModel {
    Unknown { key: Seq<char> },
    Degraded { key: Seq<char> },
    Missing { key: Seq<char> },
    NotToggled { key: Seq<char> },
}

impl View for ConfigError {
    type V = ConfigErrorModel;

    open spec fn view(&self) -> ConfigErrorModel {
        match *self {
            ConfigError::Unknown { key } => ConfigErrorModel::Unknown { key: key@ },
            ConfigError::Degraded { key } => ConfigErrorModel::Degraded { key: key@ },
            ConfigError::Missing { key } => ConfigErrorModel::Missing { key: key@ },
            ConfigError::NotToggled { key } => ConfigErrorModel::NotToggled { key: key@ },
        }
    }
}

impl ConfigErrorModel {
    /// The message shown for the error.
    pub open spec fn text(self) -> Seq<char> {
        match self {
            ConfigErrorModel::Unknown { key } => "未登记的配置键: "@ + key,
            ConfigErrorModel::Degraded { key } => "本次配置加载中 ["@ + key
                + "] 所在段解析失败并回落了出厂默认值，翻转它会覆盖你的真实设置，故拒绝；请先修好报错的配置键（见日志 WARN）。"@,
            ConfigErrorModel::Missing { key } => "配置缺少键 "@ + key,
            ConfigErrorModel::NotToggled { key } => "config.toggle 仅支持 bool / 枚举键: "@ + key,
        }
    }
}

impl ConfigError {
    /// The message shown for the error.
    pub fn message(&self) -> (r: String)
        ensures
            r@ == self@.text(),
    {
        match self {
            ConfigError::Unknown { key } => joined("未登记的配置键: ", key.as_str()),
            ConfigError::Degraded { key } => {
                let a = joined("本次配置加载中 [", key.as_str());
                joined(
                    a.as_str(),
                    "] 所在段解析失败并回落了出厂默认值，翻转它会覆盖你的真实设置，故拒绝；请先修好报错的配置键（见日志 WARN）。",
                )
            },
            ConfigError::Missing { key } => joined("配置缺少键 ", key.as_str()),
            ConfigError::NotToggled { key } => joined(
                "config.toggle 仅支持 bool / 枚举键: ",
                key.as_str(),
            ),
        }
    }
}

/// The text of a configuration value: a string as it is, and anything else as compact
/// JSON; nothing where the document holds nothing.
pub open spec fn value_text(full: serde_json::Value, path: Seq<Seq<char>>) -> Option<Seq<char>> {
    if json_strings(full).dom().contains(path) {
        Some(json_strings(full)[path])
    } else if json_dumps(full).dom().contains(path) {
        Some(json_dumps(full)[path])
    } else {
        None
    }
}

proof fn lemma_behind_trans<T>(
    m: Map<Seq<Seq<char>>, T>,
    a: Seq<Seq<char>>,
    n: Map<Seq<Seq<char>>, T>,
    k: Seq<char>,
    o: Map<Seq<Seq<char>>, T>,
)
    requires
        behind(m, a, n),
        behind(n, seq![k], o),
    ensures
        behind(m, a.push(k), o),
{
    assert forall|p: Seq<Seq<char>>| #[trigger]
        o.dom().contains(p) == m.dom().contains(a.push(k) + p) && (o.dom().contains(p) ==> o[p]
            == m[a.push(k) + p]) by {
        let q = seq![k] + p;
        assert(a + q =~= a.push(k) + p);
        assert(n.dom().contains(q) == m.dom().contains(a + q));
    }
}

/// Follows the keys of a path. Nothing when the document ends before the path does.
fn follow<'a>(full: &'a serde_json::Value, path: &Vec<String>) -> (r: Option<&'a serde_json::Value>)
    ensures
        match r {
            Some(v) => {
                &&& behind(json_dumps(*full), strings_view(path@), json_dumps(*v))
                &&& behind(json_strings(*full), strings_view(path@), json_strings(*v))
            },
            None => value_text(*full, strings_view(path@)) is None,
        },
{
    let ghost all = strings_view(path@);
    let mut cur = full;
    let mut i: usize = 0;
    proof {
        assert(all.take(0) =~= Seq::empty());
        assert forall|p: Seq<Seq<char>>| all.take(0) + p == p by {
            assert(all.take(0) + p =~= p);
        }
    }
    while i < path.len()
        invariant
            i <= path@.len(),
            all == strings_view(path@),
            behind(json_dumps(*full), all.take(i as int), json_dumps(*cur)),
            behind(json_strings(*full), all.take(i as int), json_strings(*cur)),
        decreases path.len() - i,
    {
        let key = path[i].as_str();
        let ghost lead = all.take(i as int);
        assert(lead.push(key@) =~= all.take(i as int + 1));
        match json_get(cur, key) {
            Some(w) => {
                proof {
                    lemma_behind_trans(
                        json_dumps(*full),
                        lead,
                        json_dumps(*cur),
                        key@,
                        json_dumps(*w),
                    );
                    lemma_behind_trans(
                        json_strings(*full),
                        lead,
                        json_strings(*cur),
                        key@,
                        json_strings(*w),
                    );
                }
                cur = w;
            },
            None => {
                proof {
                    let rest = all.skip(i as int + 1);
                    let q = seq![key@] + rest;
                    assert(lead + q =~= all);
                    assert(!json_dumps(*cur).dom().contains(q));
                    assert(!json_strings(*cur).dom().contains(q));
                }
                return None;
            },
        }
        i = i + 1;
    }
    assert(all.take(all.len() as int) =~= all);
    Some(cur)
}

/// The text of a configuration value. `known` says that the key is registered,
/// `blocked` that the part of the configuration it is in fell back to factory values;
/// that only matters to a caller who will write the value back. `full` is the whole
/// configuration.
pub fn load_value(
    key: &str,
    known: bool,
    require_trustworthy: bool,
    blocked: bool,
    full: &serde_json::Value,
) -> (r: Result<String, ConfigError>)
    ensures
        match r {
            Ok(s) => known && !(require_trustworthy && blocked) && value_text(
                *full,
                split_parts(key@, '.'),
            ) == Some(s@),
            Err(e) => e@ == (if !known {
                ConfigErrorModel::Unknown { key: key@ }
            } else if require_trustworthy && blocked {
                ConfigErrorModel::Degraded { key: key@ }
            } else {
                ConfigErrorModel::Missing { key: key@ }
            }) && (known && !(require_trustworthy && blocked) ==> value_text(
                *full,
                split_parts(key@, '.'),
            ) is None),
        },
        !known ==> r is Err,
        blocked && require_trustworthy ==> r is Err,
        known && !(blocked && require_trustworthy) && value_text(
            *full,
            split_parts(key@, '.'),
        ) is Some ==> r is Ok,
{
    if !known {
        return Err(ConfigError::Unknown { key: key.to_owned() });
    }
    if require_trustworthy && blocked {
        return Err(ConfigError::Degraded { key: key.to_owned() });
    }
    let path = split(key, '.');
    let v = match follow(full, &path) {
        Some(v) => v,
        None => {
            return Err(ConfigError::Missing { key: key.to_owned() });
        },
    };
    let ghost p = strings_view(path@);
    proof {
        assert(p + Seq::<Seq<char>>::empty() =~= p);
    }
    match json_as_str(v) {
        Some(s) => {
            assert(json_strings(*v).dom().contains(Seq::empty()));
            Ok(s)
        },
        None => {
            let s = json_dump(v);
            assert(!json_strings(*v).dom().contains(Seq::empty()));
            assert(json_dumps(*v).dom().contains(Seq::empty()));
            Ok(s)
        },
    }
}

/// What a configuration value can be.
#[derive(Debug)]
pub enum FieldType {
    /// A switch.
    Bool,
    /// One of a list of words.
    Enum(Vec<String>),
    /// Anything else.
    Other,
}

/// The next of a list of words, which starts again at its end; the first when `cur` is
/// not in the list.
pub open spec fn next_word(words: Seq<Seq<char>>, cur: Seq<char>) -> Seq<char> {
    if words.contains(cur) {
        let at = words.index_of_first(cur)->0;
        if at + 1 < words.len() {
            words[at + 1]
        } else {
            words[0]
        }
    } else {
        words[0]
    }
}

/// The value a key gets when it is toggled; nothing for a key that is neither a switch
/// nor a choice.
pub open spec fn toggled(ty: FieldType, cur: Seq<char>) -> Option<Seq<char>> {
    match ty {
        FieldType::Bool => Some(
            if cur == "true"@ {
                "false"@
            } else {
                "true"@
            },
        ),
        FieldType::Enum(words) => Some(next_word(strings_view(words@), cur)),
        FieldType::Other => None,
    }
}

/// The value a key gets when it is toggled.
pub fn toggle(key: &str, ty: &FieldType, cur: &str) -> (r: Result<String, ConfigError>)
    requires
        *ty matches FieldType::Enum(words) ==> words@.len() > 0,
    ensures
        match r {
            Ok(s) => toggled(*ty, cur@) == Some(s@),
            Err(e) => toggled(*ty, cur@) is None && e@ == (ConfigErrorModel::NotToggled {
                key: key@,
            }),
        },
{
    match ty {
        FieldType::Bool => if same(cur, "true") {
            Ok("false".to_owned())
        } else {
            Ok("true".to_owned())
        },
        FieldType::Enum(words) => {
            let i = next_index(words, cur);
            Ok(words[i].clone())
        },
        FieldType::Other => Err(ConfigError::NotToggled { key: key.to_owned() }),
    }
}

fn next_index(words: &Vec<String>, cur: &str) -> (r: usize)
    requires
        words@.len() > 0,
    ensures
        r < words@.len(),
        words@[r as int]@ == next_word(strings_view(words@), cur@),
{
    let ghost all = strings_view(words@);
    let mut i: usize = 0;
    while i < words.len()
        invariant
            i <= words@.len(),
            words@.len() > 0,
            all == strings_view(words@),
            forall|k: int| 0 <= k < i ==> all[k] != cur@,
        decreases words.len() - i,
    {
        if same(words[i].as_str(), cur) {
            proof {
                assert(all[i as int] == cur@);
                assert(all.contains(cur@));
                all.index_of_first_ensures(cur@);
                let at = all.index_of_first(cur@)->0;
                assert(at == i);
            }
            return if i + 1 < words.len() {
                i + 1
            } else {
                0
            };
        }
        i = i + 1;
    }
    assert(!all.contains(cur@)) by {
        if all.contains(cur@) {
            let k = choose|k: int| 0 <= k < all.len() && all[k] == cur@;
            assert(all[k] != cur@);
        }
    }
    0
}

/// Toggling a switch twice leaves it as it was.
pub proof fn toggling_a_switch_twice_restores_it(cur: Seq<char>)
    requires
        cur == "true"@ || cur == "false"@,
    ensures
        toggled(FieldType::Bool, toggled(FieldType::Bool, cur)->0) == Some(cur),
{
    reveal_strlit("true");
    reveal_strlit("false");
    assert("true"@.len() == 4);
    assert("false"@.len() == 5);
}

/// Toggling a choice goes through its words one after the other, and starts again.
pub proof fn toggling_walks_the_words(words: Seq<Seq<char>>, i: int)
    requires
        0 <= i < words.len(),
        words.no_duplicates(),
    ensures
        next_word(words, words[i]) == words[(i + 1) % (words.len() as int)],
{
    assert(words.contains(words[i]));
    words.index_of_first_ensures(words[i]);
    let at = words.index_of_first(words[i])->0;
    assert(at == i);
    if i + 1 < words.len() {
        assert((i + 1) % (words.len() as int) == i + 1) by (nonlinear_arith)
            requires
                0 <= i + 1 < words.len(),
        ;
    } else {
        assert((i + 1) % (words.len() as int) == 0) by (nonlinear_arith)
            requires
                i + 1 == words.len(),
                words.len() > 0,
        ;
    }
}

/// Each error names the key it is about, in its own words.
pub proof fn configuration_errors_name_their_key(key: Seq<char>)
    ensures
        (ConfigErrorModel::Unknown { key }).text() == "未登记的配置键: "@ + key,
        (ConfigErrorModel::Missing { key }).text() == "配置缺少键 "@ + key,
        (ConfigErrorModel::NotToggled { key }).text() == "config.toggle 仅支持 bool / 枚举键: "@ + key,
        (ConfigErrorModel::Degraded { key }).text() == "本次配置加载中 ["@ + key
            + "] 所在段解析失败并回落了出厂默认值，翻转它会覆盖你的真实设置，故拒绝；请先修好报错的配置键（见日志 WARN）。"@,
{
}

/// A value that is a string is given as it is, any other as compact JSON, and where there is
/// nothing there is no text.
pub proof fn strings_are_given_as_they_are(full: serde_json::Value, path: Seq<Seq<char>>)
    ensures
        json_strings(full).dom().contains(path) ==> value_text(full, path) == Some(
            json_strings(full)[path],
        ),
        !json_strings(full).dom().contains(path) && json_dumps(full).dom().contains(path)
            ==> value_text(full, path) == Some(json_dumps(full)[path]),
        !json_strings(full).dom().contains(path) && !json_dumps(full).dom().contains(path)
            ==> value_text(full, path) is None,
{
}

/// A switch that is on goes off, and one that says anything else goes on.
pub proof fn switches_go_on_and_off(cur: Seq<char>)
    ensures
        toggled(FieldType::Bool, "true"@) == Some("false"@),
        cur != "true"@ ==> toggled(FieldType::Bool, cur) == Some("true"@),
        toggled(FieldType::Other, cur) is None,
{
}

/// A choice that holds none of its words starts with the first, and a choice always goes to one
/// of its words.
pub proof fn choices_go_to_one_of_their_words(words: Vec<String>, cur: Seq<char>)
    requires
        words@.len() > 0,
    ensures
        !strings_view(words@).contains(cur) ==> toggled(FieldType::Enum(words), cur) == Some(
            words@[0]@,
        ),
        toggled(FieldType::Enum(words), cur) == Some(next_word(strings_view(words@), cur)),
        strings_view(words@).contains(next_word(strings_view(words@), cur)),
{
    let w = strings_view(words@);
    assert(w.contains(w[0]));
    if w.contains(cur) {
        w.index_of_first_ensures(cur);
        let at = w.index_of_first(cur)->0;
        if at + 1 < w.len() {
            assert(w.contains(w[at + 1]));
        }
    }
}

} // verus!

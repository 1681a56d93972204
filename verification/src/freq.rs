//! Which frequency records bear on a list, and under which code they are kept.

use crate::candidate::{models, opt_view, Candidate, CandidateModel, CandidateSource};
use crate::coordinator::Coordinator;
use crate::ranking::consumed_of;
use crate::text::byte_size;
use vstd::prelude::*;
use vstd::string::*;

verus! {

/// The code of a candidate: its own, or the whole input when it has none.
pub open spec fn code_of(buf: Seq<char>, c: CandidateModel) -> Seq<char> {
    if c.code.len() == 0 {
        buf
    } else {
        c.code
    }
}

/// The code a frequency is kept under.
///
/// A code table keeps each input apart, so that a choice made for one code leaves
/// the others alone; pinyin keeps the reading of the word, so that every input that
/// leads to it profits. English follows either rule.
pub open spec fn freq_code_of(buf: Seq<char>, c: CandidateModel, english_by_input: bool) -> Seq<
    char,
> {
    if c.source == CandidateSource::CodeTable {
        buf
    } else if c.source == CandidateSource::English && english_by_input {
        buf
    } else {
        code_of(buf, c)
    }
}

/// For a code table, the frequency of a choice depends on the input alone: two
/// inputs never share a record.
pub proof fn codetable_codes_stay_apart(
    a: Seq<char>,
    b: Seq<char>,
    c: CandidateModel,
    english_by_input: bool,
)
    requires
        c.source == CandidateSource::CodeTable,
    ensures
        freq_code_of(a, c, english_by_input) == freq_code_of(b, c, english_by_input) <==> a == b,
{
}

/// For pinyin, the record depends on the word alone: whatever was typed, a
/// candidate with a code is found under that code.
pub proof fn pinyin_codes_are_shared(
    a: Seq<char>,
    b: Seq<char>,
    c: CandidateModel,
    english_by_input: bool,
)
    requires
        c.source == CandidateSource::Pinyin,
        c.code.len() > 0,
    ensures
        freq_code_of(a, c, english_by_input) == freq_code_of(b, c, english_by_input),
{
}

/// Where the records of a schema are kept.
#[derive(Debug)]
pub struct FreqScope {
    /// Frequencies are kept.
    pub enabled: bool,
    /// The schema is mixed, and its sources keep their own records.
    pub mixed: bool,
    /// Schema of the records, unless it is mixed.
    pub schema: String,
    /// Schema of the code table's records, where they can be attributed.
    pub codetable: Option<String>,
    /// Schema of the pinyin records, where they can be attributed.
    pub pinyin: Option<String>,
    /// English records are kept per input.
    pub english_code_by_input: bool,
}

/// The key of a record.
#[derive(Debug)]
pub struct FreqKey {
    pub schema: String,
    pub code: String,
    pub text: String,
}

/// What a [`FreqKey`] holds.
pub ghost struct FreqKeyModel {
    pub schema: Seq<char>,
    pub code: Seq<char>,
    pub text: Seq<char>,
}

impl View for FreqKey {
    type V = FreqKeyModel;

    open spec fn view(&self) -> FreqKeyModel {
        FreqKeyModel { schema: self.schema@, code: self.code@, text: self.text@ }
    }
}

/// The models of a list of keys.
pub open spec fn key_models(s: Seq<FreqKey>) -> Seq<FreqKeyModel> {
    s.map_values(|k: FreqKey| k@)
}

/// How often a text was chosen, and when last.
#[derive(Clone, Copy, Debug)]
pub struct FreqRecord {
    pub count: u32,
    pub last_used: u64,
}

/// A text with its record.
#[derive(Debug)]
pub struct FreqHit {
    pub text: String,
    pub record: FreqRecord,
}

/// How a list is reordered by frequency.
#[derive(Clone, Copy, PartialEq, Eq, Structural, Debug)]
pub enum Rerank {
    /// It is not.
    Keep,
    /// Candidates move up by places.
    Positional,
    /// Used candidates go first.
    UsedFirst,
}

/// The schema that keeps the record of a candidate.
pub open spec fn record_schema(c: CandidateModel, scope: FreqScope) -> Option<Seq<char>> {
    if !scope.mixed {
        Some(scope.schema@)
    } else if c.source == CandidateSource::CodeTable {
        opt_view(scope.codetable)
    } else if c.source == CandidateSource::Pinyin {
        opt_view(scope.pinyin)
    } else {
        None
    }
}

/// The key to look up for a candidate; nothing for a phrase, for an excluded text,
/// for a candidate that explains only part of the input, and where the record
/// cannot be attributed.
pub open spec fn probe_key(
    c: CandidateModel,
    code: Seq<char>,
    scope: FreqScope,
    excluded: bool,
) -> Option<FreqKeyModel> {
    if c.is_phrase || excluded || consumed_of(c, byte_size(code) as int) < byte_size(code) {
        None
    } else {
        match record_schema(c, scope) {
            Some(schema) => Some(
                FreqKeyModel {
                    schema,
                    code: freq_code_of(code, c, scope.english_code_by_input),
                    text: c.text,
                },
            ),
            None => None,
        }
    }
}

/// The keys to look up for a list, in its order.
pub open spec fn probe_keys(
    s: Seq<CandidateModel>,
    code: Seq<char>,
    scope: FreqScope,
    excluded: Seq<bool>,
) -> Seq<FreqKeyModel>
    decreases s.len(),
{
    if s.len() == 0 {
        Seq::empty()
    } else {
        let front = probe_keys(s.drop_last(), code, scope, excluded);
        match probe_key(s.last(), code, scope, excluded[s.len() - 1]) {
            Some(k) => front.push(k),
            None => front,
        }
    }
}

/// The texts whose record shows a use, with their records, in order.
pub open spec fn used_hits(keys: Seq<FreqKeyModel>, found: Seq<Option<FreqRecord>>) -> Seq<
    (Seq<char>, FreqRecord),
>
    decreases keys.len(),
{
    if keys.len() == 0 {
        Seq::empty()
    } else {
        let n = keys.len() - 1;
        let front = used_hits(keys.drop_last(), found);
        if n < found.len() && found[n] is Some && found[n]->0.count > 0 {
            front.push((keys.last().text, found[n]->0))
        } else {
            front
        }
    }
}

/// The models of a list of hits.
pub open spec fn hit_models(s: Seq<FreqHit>) -> Seq<(Seq<char>, FreqRecord)> {
    s.map_values(|h: FreqHit| (h.text@, h.record))
}

impl Coordinator {
    /// The code of a candidate: its own, or the whole input when it has none.
    pub fn cand_code(buf: &str, cand: &Candidate) -> (r: String)
        ensures
            r@ == code_of(buf@, cand@),
    {
        if cand.code.as_str().is_empty() {
            buf.to_owned()
        } else {
            cand.code.clone()
        }
    }

    /// The code a frequency is kept under.
    pub fn freq_code_with(buf: &str, cand: &Candidate, english_by_input: bool) -> (r: String)
        ensures
            r@ == freq_code_of(buf@, cand@, english_by_input),
    {
        if cand.source == CandidateSource::CodeTable || (cand.source == CandidateSource::English
            && english_by_input) {
            buf.to_owned()
        } else {
            Self::cand_code(buf, cand)
        }
    }

    /// The code a frequency is kept under in the schema in use.
    pub fn freq_code(&self, buf: &str, cand: &Candidate) -> (r: String)
        ensures
            r@ == freq_code_of(buf@, cand@, self.engine.english_code_by_input),
    {
        Self::freq_code_with(buf, cand, self.engine.english_code_by_input)
    }

    /// The keys to look up before the first `n` candidates are reordered: none
    /// without a store, without a code, with frequencies switched off, or with fewer
    /// than two candidates.
    pub fn freq_probe(
        &self,
        candidates: &Vec<Candidate>,
        n: usize,
        code: &str,
        scope: &FreqScope,
        excluded: &Vec<bool>,
    ) -> (r: Vec<FreqKey>)
        requires
            n <= candidates@.len(),
            excluded@.len() == n,
        ensures
            key_models(r@) == (if self.engine.has_store && code@.len() > 0 && n >= 2
                && scope.enabled {
                probe_keys(models(candidates@).take(n as int), code@, *scope, excluded@)
            } else {
                Seq::empty()
            }),
            r@.len() > 0 ==> self.engine.has_store && scope.enabled && code@.len() > 0 && n > 1,
            self.engine.has_store && scope.enabled && code@.len() > 0 ==> forall|k: int|
                0 <= k < n && n > 1 && probe_key(
                    (#[trigger] candidates@[k])@,
                    code@,
                    *scope,
                    excluded@[k],
                ) is Some ==> key_models(r@).contains(
                    probe_key(candidates@[k]@, code@, *scope, excluded@[k])->0,
                ),
    {
        let mut out: Vec<FreqKey> = Vec::new();
        assert(key_models(out@) =~= Seq::empty());
        if !self.engine.has_store || code.is_empty() || n < 2 || !scope.enabled {
            return out;
        }
        let input_len: usize = code.len();
        let ghost m = models(candidates@).take(n as int);
        let mut i: usize = 0;
        assert(m.take(0) =~= Seq::empty());
        while i < n
            invariant
                i <= n <= candidates@.len(),
                excluded@.len() == n,
                m == models(candidates@).take(n as int),
                input_len == byte_size(code@),
                key_models(out@) == probe_keys(m.take(i as int), code@, *scope, excluded@),
            decreases n - i,
        {
            let c = &candidates[i];
            proof {
                assert(m.take(i as int + 1).drop_last() =~= m.take(i as int));
                assert(m.take(i as int + 1).last() == c@);
            }
            let whole = c.consumed_length == 0 || c.consumed_length >= input_len;
            if !c.is_phrase && !excluded[i] && whole {
                let schema: Option<String> = if !scope.mixed {
                    Some(scope.schema.clone())
                } else if c.source == CandidateSource::CodeTable {
                    crate::candidate::clone_opt(&scope.codetable)
                } else if c.source == CandidateSource::Pinyin {
                    crate::candidate::clone_opt(&scope.pinyin)
                } else {
                    None
                };
                match schema {
                    Some(schema) => {
                        let k = FreqKey {
                            schema,
                            code: Self::freq_code_with(code, c, scope.english_code_by_input),
                            text: c.text.clone(),
                        };
                        assert(key_models(out@.push(k)) =~= key_models(out@).push(k@));
                        out.push(k);
                    },
                    None => {},
                }
            }
            i = i + 1;
        }
        assert(m.take(n as int) =~= m);
        proof {
            let at = lists_are_looked_up_candidate_by_candidate(m, code@, *scope, excluded@);
            assert forall|k: int|
                0 <= k < n && n > 1 && probe_key(
                    (#[trigger] candidates@[k])@,
                    code@,
                    *scope,
                    excluded@[k],
                ) is Some implies key_models(out@).contains(
                probe_key(candidates@[k]@, code@, *scope, excluded@[k])->0,
            ) by {
                assert(m[k] == candidates@[k]@);
                assert(at.contains(k));
                let j = choose|j: int| 0 <= j < at.len() && at[j] == k;
                assert(probe_key(m[at[j]], code@, *scope, excluded@[at[j]]) == Some(
                    key_models(out@)[j],
                ));
            }
        }
        out
    }

    /// The texts whose record shows a use, with their records.
    pub fn freq_hits(keys: &Vec<FreqKey>, found: &Vec<Option<FreqRecord>>) -> (r: Vec<FreqHit>)
        ensures
            hit_models(r@) == used_hits(key_models(keys@), found@),
            forall|i: int| 0 <= i < r@.len() ==> (#[trigger] r@[i]).record.count > 0,
            forall|k: int|
                0 <= k < keys@.len() && k < found@.len() && (#[trigger] found@[k]) is Some
                    && found@[k]->0.count > 0 ==> hit_models(r@).contains(
                    (keys@[k].text@, found@[k]->0),
                ),
    {
        let ghost m = key_models(keys@);
        let mut out: Vec<FreqHit> = Vec::new();
        let mut i: usize = 0;
        assert(m.take(0) =~= Seq::empty());
        assert(hit_models(out@) =~= Seq::empty());
        while i < keys.len()
            invariant
                i <= keys@.len(),
                m == key_models(keys@),
                hit_models(out@) == used_hits(m.take(i as int), found@),
            decreases keys.len() - i,
        {
            proof {
                assert(m.take(i as int + 1).drop_last() =~= m.take(i as int));
                assert(m.take(i as int + 1).last() == keys@[i as int]@);
            }
            if i < found.len() {
                match found[i] {
                    Some(rec) => {
                        if rec.count > 0 {
                            let h = FreqHit { text: keys[i].text.clone(), record: rec };
                            assert(hit_models(out@.push(h)) =~= hit_models(out@).push(
                                (h.text@, rec),
                            ));
                            out.push(h);
                        }
                    },
                    None => {},
                }
            }
            i = i + 1;
        }
        assert(m.take(m.len() as int) =~= m);
        proof {
            let hits = used_hits(m, found@);
            let at = hits_are_the_records_that_show_a_use(m, found@);
            assert forall|j: int| 0 <= j < out@.len() implies (#[trigger] out@[j]).record.count
                > 0 by {
                assert(0 <= at[j] < m.len());
                assert(hit_models(out@)[j] == hits[j]);
            }
            assert forall|k: int|
                0 <= k < keys@.len() && k < found@.len() && (#[trigger] found@[k]) is Some
                    && found@[k]->0.count > 0 implies hit_models(out@).contains(
                (keys@[k].text@, found@[k]->0),
            ) by {
                assert(at.contains(k));
                let j = choose|j: int| 0 <= j < at.len() && at[j] == k;
                assert(hits[j] == (m[k].text, found@[k]->0));
            }
        }
        out
    }

    /// How the list is reordered: not at all without a use on record, by places in
    /// pinyin, and used candidates first elsewhere.
    pub fn rerank_kind(&self, hits: &Vec<FreqHit>) -> (r: Rerank)
        ensures
            r == (if hits@.len() == 0 {
                Rerank::Keep
            } else if self.engine.is_pinyin {
                Rerank::Positional
            } else {
                Rerank::UsedFirst
            }),
            r == Rerank::Keep <==> hits@.len() == 0,
            r == Rerank::Positional ==> self.engine.is_pinyin,
            r == Rerank::UsedFirst ==> !self.engine.is_pinyin,
    {
        if hits.len() == 0 {
            Rerank::Keep
        } else if self.engine.is_pinyin {
            Rerank::Positional
        } else {
            Rerank::UsedFirst
        }
    }
}

/// Whether `at` tells from which key each hit comes: the places rise, the record found for
/// the key there shows a use and is the record of the hit, and every key whose record shows
/// a use has its hit.
pub open spec fn hit_places(
    keys: Seq<FreqKeyModel>,
    found: Seq<Option<FreqRecord>>,
    hits: Seq<(Seq<char>, FreqRecord)>,
    at: Seq<int>,
) -> bool {
    &&& at.len() == hits.len()
    &&& forall|i: int|
        0 <= i < at.len() ==> {
            &&& 0 <= #[trigger] at[i] < keys.len()
            &&& at[i] < found.len()
            &&& found[at[i]] == Some(hits[i].1)
            &&& hits[i].1.count > 0
            &&& keys[at[i]].text == hits[i].0
        }
    &&& forall|i: int, j: int| 0 <= i < j < at.len() ==> #[trigger] at[i] < #[trigger] at[j]
    &&& forall|k: int|
        0 <= k < keys.len() && k < found.len() && (#[trigger] found[k]) is Some
            && found[k]->0.count > 0 ==> at.contains(k)
}

/// The hits are the texts that were used: each key whose record counts a use has one, with
/// its text and that record, no other key has, and they come in the order of the keys.
pub proof fn hits_are_the_records_that_show_a_use(
    keys: Seq<FreqKeyModel>,
    found: Seq<Option<FreqRecord>>,
) -> (at: Seq<int>)
    ensures
        hit_places(keys, found, used_hits(keys, found), at),
    decreases keys.len(),
{
    if keys.len() == 0 {
        Seq::empty()
    } else {
        let n = keys.len() - 1;
        let front = keys.drop_last();
        let before = hits_are_the_records_that_show_a_use(front, found);
        assert forall|i: int| 0 <= i < before.len() implies keys[#[trigger] before[i]]
            == front[before[i]] by {}
        if n < found.len() && found[n] is Some && found[n]->0.count > 0 {
            let at = before.push(n);
            assert forall|k: int|
                0 <= k < keys.len() && k < found.len() && (#[trigger] found[k]) is Some
                    && found[k]->0.count > 0 implies at.contains(k) by {
                if k < n {
                    assert(before.contains(k));
                    let i = choose|i: int| 0 <= i < before.len() && before[i] == k;
                    assert(at[i] == k);
                } else {
                    assert(at[before.len() as int] == k);
                }
            }
            assert forall|i: int| 0 <= i < at.len() implies {
                &&& 0 <= #[trigger] at[i] < keys.len()
                &&& at[i] < found.len()
                &&& found[at[i]] == Some(used_hits(keys, found)[i].1)
                &&& used_hits(keys, found)[i].1.count > 0
                &&& keys[at[i]].text == used_hits(keys, found)[i].0
            } by {
                if i < before.len() {
                    assert(at[i] == before[i]);
                    assert(used_hits(keys, found)[i] == used_hits(front, found)[i]);
                }
            }
            at
        } else {
            before
        }
    }
}

/// Phrases, texts that are left out and candidates for a part of the input have no record
/// to look up.
pub proof fn some_candidates_are_not_looked_up(
    c: CandidateModel,
    code: Seq<char>,
    scope: FreqScope,
    excluded: bool,
)
    requires
        c.is_phrase || excluded || 0 < c.consumed_length < byte_size(code),
    ensures
        probe_key(c, code, scope, excluded) is None,
{
}

/// Any other candidate is looked up by its text in the schema that keeps its records: the
/// schema in use, or in a mixed schema that of its source. Where a mixed schema cannot say
/// whose record it is, there is none.
pub proof fn other_candidates_are_looked_up_where_they_belong(
    c: CandidateModel,
    code: Seq<char>,
    scope: FreqScope,
)
    requires
        !c.is_phrase,
        c.consumed_length == 0 || c.consumed_length >= byte_size(code),
    ensures
        !scope.mixed ==> (probe_key(c, code, scope, false) matches Some(k) && k.schema
            == scope.schema@ && k.text == c.text),
        scope.mixed && c.source == CandidateSource::CodeTable ==> (match scope.codetable {
            Some(s) => probe_key(c, code, scope, false) == Some(
                FreqKeyModel { schema: s@, code, text: c.text },
            ),
            None => probe_key(c, code, scope, false) is None,
        }),
        scope.mixed && c.source == CandidateSource::Pinyin && c.code.len() > 0 ==> (
        match scope.pinyin {
            Some(s) => probe_key(c, code, scope, false) == Some(
                FreqKeyModel { schema: s@, code: c.code, text: c.text },
            ),
            None => probe_key(c, code, scope, false) is None,
        }),
        scope.mixed && c.source != CandidateSource::CodeTable && c.source
            != CandidateSource::Pinyin ==> probe_key(c, code, scope, false) is None,
{
}

/// A code table counts a choice under the keys that were typed, and so does English where
/// it counts by input. Any other choice counts under the candidate's own code, and under the
/// keys where it has none.
pub proof fn choices_count_under_one_code(
    buf: Seq<char>,
    c: CandidateModel,
    english_by_input: bool,
)
    ensures
        c.source == CandidateSource::CodeTable ==> freq_code_of(buf, c, english_by_input) == buf,
        c.source == CandidateSource::English && english_by_input ==> freq_code_of(
            buf,
            c,
            english_by_input,
        ) == buf,
        c.source == CandidateSource::English && !english_by_input && c.code.len() > 0
            ==> freq_code_of(buf, c, english_by_input) == c.code,
        c.source != CandidateSource::CodeTable && c.source != CandidateSource::English
            && c.code.len() > 0 ==> freq_code_of(buf, c, english_by_input) == c.code,
        c.code.len() == 0 ==> freq_code_of(buf, c, english_by_input) == buf && code_of(buf, c)
            == buf,
        c.code.len() > 0 ==> code_of(buf, c) == c.code,
{
}

/// Whether `at` tells for which candidate each key is: the places rise, and every candidate
/// that has a key to look up has it there.
pub open spec fn probe_places(
    s: Seq<CandidateModel>,
    code: Seq<char>,
    scope: FreqScope,
    excluded: Seq<bool>,
    keys: Seq<FreqKeyModel>,
    at: Seq<int>,
) -> bool {
    &&& at.len() == keys.len()
    &&& forall|i: int|
        0 <= i < at.len() ==> 0 <= #[trigger] at[i] < s.len() && probe_key(
            s[at[i]],
            code,
            scope,
            excluded[at[i]],
        ) == Some(keys[i])
    &&& forall|i: int, j: int| 0 <= i < j < at.len() ==> #[trigger] at[i] < #[trigger] at[j]
    &&& forall|k: int|
        0 <= k < s.len() && probe_key(#[trigger] s[k], code, scope, excluded[k]) is Some
            ==> at.contains(k)
}

/// What is looked up for a list is what is looked up for its candidates, one by one and in
/// their order.
pub proof fn lists_are_looked_up_candidate_by_candidate(
    s: Seq<CandidateModel>,
    code: Seq<char>,
    scope: FreqScope,
    excluded: Seq<bool>,
) -> (at: Seq<int>)
    ensures
        probe_places(s, code, scope, excluded, probe_keys(s, code, scope, excluded), at),
    decreases s.len(),
{
    if s.len() == 0 {
        Seq::empty()
    } else {
        let n = s.len() - 1;
        let front = s.drop_last();
        let before = lists_are_looked_up_candidate_by_candidate(front, code, scope, excluded);
        let keys = probe_keys(s, code, scope, excluded);
        assert forall|i: int| 0 <= i < before.len() implies s[#[trigger] before[i]]
            == front[before[i]] by {}
        let at = if probe_key(s[n], code, scope, excluded[n]) is Some {
            before.push(n)
        } else {
            before
        };
        assert forall|k: int|
            0 <= k < s.len() && probe_key(#[trigger] s[k], code, scope, excluded[k])
                is Some implies at.contains(k) by {
            if k < n {
                assert(front[k] == s[k]);
                assert(before.contains(k));
                let i = choose|i: int| 0 <= i < before.len() && before[i] == k;
                assert(at[i] == k);
            } else {
                assert(at[before.len() as int] == k);
            }
        }
        assert forall|i: int| 0 <= i < at.len() implies 0 <= #[trigger] at[i] < s.len()
            && probe_key(s[at[i]], code, scope, excluded[at[i]]) == Some(keys[i]) by {
            if i < before.len() {
                assert(at[i] == before[i]);
                assert(keys[i] == probe_keys(front, code, scope, excluded)[i]);
            }
        }
        at
    }
}

/// Outside a mixed schema every record belongs to the schema in use. In one, code table and
/// pinyin have records of their own, and nothing else has.
pub proof fn sources_keep_their_own_records(c: CandidateModel, scope: FreqScope)
    ensures
        !scope.mixed ==> record_schema(c, scope) == Some(scope.schema@),
        scope.mixed && c.source == CandidateSource::CodeTable ==> record_schema(c, scope)
            == opt_view(scope.codetable),
        scope.mixed && c.source == CandidateSource::Pinyin ==> record_schema(c, scope) == opt_view(
            scope.pinyin,
        ),
        scope.mixed && c.source != CandidateSource::CodeTable && c.source
            != CandidateSource::Pinyin ==> record_schema(c, scope) is None,
{
}

} // verus!

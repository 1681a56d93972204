//! The order in which candidates are shown, and how duplicates are folded.

use crate::candidate::{models, Candidate, CandidateModel, CandidateSource};
use crate::text::chars_of;
use std::cmp::Ordering;
use vstd::prelude::*;
use vstd::string::*;

verus! {

/// What decides the place of a candidate; keys are compared field by field from
/// the top, and the smaller value is shown first.
pub ghost struct DisplayKey {
    pub unconsumed: int,
    pub layer: int,
    pub extra: int,
    pub inexact: int,
    pub tier: int,
    pub lightness: int,
    pub base_order: int,
    pub natural_order: int,
    pub text: Seq<char>,
}

/// How the key of a candidate is taken.
///
/// `ignore_weight` leaves the weight out, `mixed` lets sources be ranked against
/// each other, `input_len` is the length of the input in bytes, and `by_text`
/// settles what is left over by the text itself.
#[derive(Clone, Copy, Debug)]
pub struct DisplayRule {
    pub ignore_weight: bool,
    pub mixed: bool,
    pub input_len: usize,
    pub by_text: bool,
}

/// Bytes of input a candidate explains; an unmarked one explains everything.
pub open spec fn consumed_of(c: CandidateModel, input_len: int) -> int {
    if c.consumed_length == 0 {
        input_len
    } else {
        c.consumed_length as int
    }
}

/// The key of `c` under `rule`.
pub open spec fn display_key(c: CandidateModel, rule: DisplayRule) -> DisplayKey {
    DisplayKey {
        unconsumed: -consumed_of(c, rule.input_len as int),
        layer: c.rank.layer as int,
        extra: c.rank.extra as int,
        inexact: if c.is_exact_code { 0 } else { 1 },
        tier: if rule.mixed { c.rank.tier as int } else { 0 },
        lightness: if rule.ignore_weight { 0 } else { -(c.weight as int) },
        base_order: c.base_order as int,
        natural_order: c.natural_order as int,
        text: if rule.by_text { c.text } else { Seq::empty() },
    }
}

/// Whether `a` comes before `b` in code-point order.
pub open spec fn text_before(a: Seq<char>, b: Seq<char>) -> bool
    decreases a.len(),
{
    if b.len() == 0 {
        false
    } else if a.len() == 0 {
        true
    } else if a[0] != b[0] {
        (a[0] as int) < (b[0] as int)
    } else {
        text_before(a.drop_first(), b.drop_first())
    }
}

impl DisplayKey {
    /// Whether the candidate with this key is shown before the one with key `o`.
    pub open spec fn before(self, o: DisplayKey) -> bool {
        if self.unconsumed != o.unconsumed {
            self.unconsumed < o.unconsumed
        } else if self.layer != o.layer {
            self.layer < o.layer
        } else if self.extra != o.extra {
            self.extra < o.extra
        } else if self.inexact != o.inexact {
            self.inexact < o.inexact
        } else if self.tier != o.tier {
            self.tier < o.tier
        } else if self.lightness != o.lightness {
            self.lightness < o.lightness
        } else if self.base_order != o.base_order {
            self.base_order < o.base_order
        } else if self.natural_order != o.natural_order {
            self.natural_order < o.natural_order
        } else {
            text_before(self.text, o.text)
        }
    }
}

/// Whether `a` is shown strictly before `b`.
pub open spec fn shown_before(a: CandidateModel, b: CandidateModel, rule: DisplayRule) -> bool {
    display_key(a, rule).before(display_key(b, rule))
}

/// No text comes before itself.
pub proof fn text_order_irreflexive(a: Seq<char>)
    ensures
        !text_before(a, a),
    decreases a.len(),
{
    if a.len() > 0 {
        text_order_irreflexive(a.drop_first());
    }
}

/// The order of texts is transitive.
pub proof fn text_order_transitive(a: Seq<char>, b: Seq<char>, c: Seq<char>)
    requires
        text_before(a, b),
        text_before(b, c),
    ensures
        text_before(a, c),
    decreases a.len(),
{
    if a.len() > 0 && a[0] == b[0] && b[0] == c[0] {
        text_order_transitive(a.drop_first(), b.drop_first(), c.drop_first());
    }
}

/// Of two different texts one comes first.
pub proof fn text_order_total(a: Seq<char>, b: Seq<char>)
    ensures
        text_before(a, b) || text_before(b, a) || a == b,
    decreases a.len(),
{
    if a.len() > 0 && b.len() > 0 && a[0] == b[0] {
        text_order_total(a.drop_first(), b.drop_first());
        if a.drop_first() == b.drop_first() {
            assert(a =~= seq![a[0]] + a.drop_first());
            assert(b =~= seq![b[0]] + b.drop_first());
        }
    } else if a.len() == 0 && b.len() == 0 {
        assert(a =~= b);
    }
}

/// The display order is a strict order: nothing precedes itself.
pub proof fn display_order_irreflexive(a: CandidateModel, rule: DisplayRule)
    ensures
        !shown_before(a, a, rule),
{
    text_order_irreflexive(display_key(a, rule).text);
}

/// The display order is transitive.
pub proof fn display_order_transitive(
    a: CandidateModel,
    b: CandidateModel,
    c: CandidateModel,
    rule: DisplayRule,
)
    requires
        shown_before(a, b, rule),
        shown_before(b, c, rule),
    ensures
        shown_before(a, c, rule),
{
    let ta = display_key(a, rule).text;
    let tb = display_key(b, rule).text;
    let tc = display_key(c, rule).text;
    if text_before(ta, tb) && text_before(tb, tc) {
        text_order_transitive(ta, tb, tc);
    }
}

/// Two candidates neither of which precedes the other have the same key, so the
/// order leaves nothing open but ties on every listed criterion.
pub proof fn display_order_total(a: CandidateModel, b: CandidateModel, rule: DisplayRule)
    ensures
        shown_before(a, b, rule) || shown_before(b, a, rule) || display_key(a, rule)
            == display_key(b, rule),
{
    text_order_total(display_key(a, rule).text, display_key(b, rule).text);
}

/// A candidate that explains more of the input is shown before one that explains
/// less, whatever else is true of them.
pub proof fn longer_match_first(a: CandidateModel, b: CandidateModel, rule: DisplayRule)
    requires
        consumed_of(a, rule.input_len as int) > consumed_of(b, rule.input_len as int),
    ensures
        shown_before(a, b, rule),
{
}

/// Outside mixed input the source tiers have no say: two candidates that differ
/// only in their tier are tied.
pub proof fn tiers_only_count_in_mixed_input(a: CandidateModel, tier: u32, rule: DisplayRule)
    requires
        !rule.mixed,
    ensures
        display_key(a, rule) == display_key(
            (CandidateModel { rank: (crate::candidate::MatchRank { tier, ..a.rank }), ..a }),
            rule,
        ),
{
}

/// Ignoring weights makes the weight irrelevant to the place of a candidate.
pub proof fn weights_do_not_count_when_ignored(a: CandidateModel, weight: i32, rule: DisplayRule)
    requires
        rule.ignore_weight,
    ensures
        display_key(a, rule) == display_key((CandidateModel { weight, ..a }), rule),
{
}

/// Whether `a` comes before `b` in code-point order.
pub fn text_is_before(a: &str, b: &str) -> (r: bool)
    ensures
        r == text_before(a@, b@),
{
    let x = chars_of(a);
    let y = chars_of(b);
    let mut i: usize = 0;
    assert(x@.skip(0) =~= x@);
    assert(y@.skip(0) =~= y@);
    while i < x.len() && i < y.len()
        invariant
            i <= x.len(),
            i <= y.len(),
            x@ == a@,
            y@ == b@,
            text_before(a@, b@) == text_before(x@.skip(i as int), y@.skip(i as int)),
        decreases x.len() - i,
    {
        if x[i] != y[i] {
            return x[i] < y[i];
        }
        assert(x@.skip(i as int).drop_first() =~= x@.skip(i as int + 1));
        assert(y@.skip(i as int).drop_first() =~= y@.skip(i as int + 1));
        i = i + 1;
    }
    i < y.len()
}

/// Compares two candidates for display: the one explaining more input first, then
/// the closer match, the shorter completion, the exact code, the better source
/// (mixed input only), the heavier weight (unless ignored), the earlier dictionary
/// and the earlier entry.
pub fn candidate_display_order(a: &Candidate, b: &Candidate, rule: DisplayRule) -> (r: Ordering)
    ensures
        r == (if shown_before(a@, b@, rule) {
            Ordering::Less
        } else if shown_before(b@, a@, rule) {
            Ordering::Greater
        } else {
            Ordering::Equal
        }),
        r == Ordering::Less <==> shown_before(a@, b@, rule),
        r == Ordering::Greater <==> shown_before(b@, a@, rule),
{
    proof {
        if shown_before(a@, b@, rule) && shown_before(b@, a@, rule) {
            display_order_transitive(a@, b@, a@, rule);
            display_order_irreflexive(a@, rule);
        }
    }
    let ca: usize = if a.consumed_length == 0 { rule.input_len } else { a.consumed_length };
    let cb: usize = if b.consumed_length == 0 { rule.input_len } else { b.consumed_length };
    if ca != cb {
        return if ca > cb { Ordering::Less } else { Ordering::Greater };
    }
    if a.rank.layer != b.rank.layer {
        return if a.rank.layer < b.rank.layer { Ordering::Less } else { Ordering::Greater };
    }
    if a.rank.extra != b.rank.extra {
        return if a.rank.extra < b.rank.extra { Ordering::Less } else { Ordering::Greater };
    }
    if a.is_exact_code != b.is_exact_code {
        return if a.is_exact_code { Ordering::Less } else { Ordering::Greater };
    }
    if rule.mixed && a.rank.tier != b.rank.tier {
        return if a.rank.tier < b.rank.tier { Ordering::Less } else { Ordering::Greater };
    }
    if !rule.ignore_weight && a.weight != b.weight {
        return if a.weight > b.weight { Ordering::Less } else { Ordering::Greater };
    }
    if a.base_order != b.base_order {
        return if a.base_order < b.base_order { Ordering::Less } else { Ordering::Greater };
    }
    if a.natural_order != b.natural_order {
        return if a.natural_order < b.natural_order { Ordering::Less } else { Ordering::Greater };
    }
    if rule.by_text {
        if text_is_before(a.text.as_str(), b.text.as_str()) {
            Ordering::Less
        } else if text_is_before(b.text.as_str(), a.text.as_str()) {
            Ordering::Greater
        } else {
            Ordering::Equal
        }
    } else {
        proof {
            text_order_irreflexive(Seq::empty());
        }
        Ordering::Equal
    }
}

fn is_shown_before(a: &Candidate, b: &Candidate, rule: DisplayRule) -> (r: bool)
    ensures
        r == shown_before(a@, b@, rule),
{
    match candidate_display_order(a, b, rule) {
        Ordering::Less => true,
        _ => false,
    }
}

/// `s` with `c` put behind everything it does not precede.
pub open spec fn insert_sorted(
    s: Seq<CandidateModel>,
    c: CandidateModel,
    rule: DisplayRule,
) -> Seq<CandidateModel>
    decreases s.len(),
{
    if s.len() == 0 || !shown_before(c, s.last(), rule) {
        s.push(c)
    } else {
        insert_sorted(s.drop_last(), c, rule).push(s.last())
    }
}

/// `s` in display order; candidates that tie keep the order they had.
pub open spec fn display_sorted(s: Seq<CandidateModel>, rule: DisplayRule) -> Seq<CandidateModel>
    decreases s.len(),
{
    if s.len() == 0 {
        s
    } else {
        insert_sorted(display_sorted(s.drop_last(), rule), s.last(), rule)
    }
}

/// Whether no candidate of `s` precedes an earlier one.
pub open spec fn in_display_order(s: Seq<CandidateModel>, rule: DisplayRule) -> bool {
    forall|i: int, j: int| 0 <= i < j < s.len() ==> !#[trigger] shown_before(s[j], s[i], rule)
}

proof fn lemma_insert_sorted_at(
    s: Seq<CandidateModel>,
    c: CandidateModel,
    j: int,
    rule: DisplayRule,
)
    requires
        0 <= j <= s.len(),
        forall|m: int| j <= m < s.len() ==> shown_before(c, #[trigger] s[m], rule),
        j == 0 || !shown_before(c, s[j - 1], rule),
    ensures
        insert_sorted(s, c, rule) == s.take(j).push(c) + s.skip(j),
    decreases s.len(),
{
    if j == s.len() {
        assert(s.take(j).push(c) + s.skip(j) =~= s.push(c));
    } else {
        lemma_insert_sorted_at(s.drop_last(), c, j, rule);
        assert(s.drop_last().take(j) =~= s.take(j));
        assert((s.take(j).push(c) + s.drop_last().skip(j)).push(s.last()) =~= s.take(j).push(c)
            + s.skip(j));
    }
}

proof fn lemma_insert_sorted_len(s: Seq<CandidateModel>, c: CandidateModel, rule: DisplayRule)
    ensures
        insert_sorted(s, c, rule).len() == s.len() + 1,
        insert_sorted(s, c, rule).to_multiset() == s.to_multiset().insert(c),
    decreases s.len(),
{
    broadcast use vstd::seq_lib::group_to_multiset_ensures;

    if s.len() == 0 || !shown_before(c, s.last(), rule) {
    } else {
        lemma_insert_sorted_len(s.drop_last(), c, rule);
        assert(s =~= s.drop_last().push(s.last()));
        assert(s.drop_last().to_multiset().insert(c).insert(s.last())
            =~= s.drop_last().to_multiset().insert(s.last()).insert(c));
    }
}

proof fn lemma_insert_sorted_order(s: Seq<CandidateModel>, c: CandidateModel, rule: DisplayRule)
    requires
        in_display_order(s, rule),
    ensures
        in_display_order(insert_sorted(s, c, rule), rule),
        forall|i: int|
            0 <= i < insert_sorted(s, c, rule).len() ==> {
                let x = #[trigger] insert_sorted(s, c, rule)[i];
                x == c || s.contains(x)
            },
    decreases s.len(),
{
    let r = insert_sorted(s, c, rule);
    lemma_insert_sorted_len(s, c, rule);
    if s.len() == 0 || !shown_before(c, s.last(), rule) {
        assert forall|i: int, j: int| 0 <= i < j < r.len() implies !#[trigger] shown_before(
            r[j],
            r[i],
            rule,
        ) by {
            if j == s.len() {
                if shown_before(c, s[i], rule) {
                    if i < s.len() - 1 {
                        display_order_total(s[i], s.last(), rule);
                        assert(!shown_before(s[s.len() - 1], s[i], rule));
                        if shown_before(s[i], s.last(), rule) {
                            display_order_transitive(c, s[i], s.last(), rule);
                        }
                    }
                }
            }
        }
        assert forall|i: int| 0 <= i < r.len() implies ({
            let x = #[trigger] r[i];
            x == c || s.contains(x)
        }) by {
            if i < s.len() {
                assert(s[i] == r[i]);
            }
        }
    } else {
        let p = insert_sorted(s.drop_last(), c, rule);
        lemma_insert_sorted_order(s.drop_last(), c, rule);
        lemma_insert_sorted_len(s.drop_last(), c, rule);
        assert forall|i: int, j: int| 0 <= i < j < r.len() implies !#[trigger] shown_before(
            r[j],
            r[i],
            rule,
        ) by {
            if j < p.len() {
                assert(r[i] == p[i] && r[j] == p[j]);
            } else {
                assert(r[i] == p[i]);
                if p[i] == c {
                    if shown_before(s.last(), c, rule) {
                        display_order_transitive(c, s.last(), c, rule);
                        display_order_irreflexive(c, rule);
                    }
                } else {
                    let m = choose|m: int| 0 <= m < s.drop_last().len() && s.drop_last()[m] == p[i];
                    assert(!shown_before(s[s.len() - 1], s[m], rule));
                }
            }
        }
        assert forall|i: int| 0 <= i < r.len() implies ({
            let x = #[trigger] r[i];
            x == c || s.contains(x)
        }) by {
            if i < p.len() {
                assert(r[i] == p[i]);
                if p[i] != c {
                    let m = choose|m: int| 0 <= m < s.drop_last().len() && s.drop_last()[m] == p[i];
                    assert(s[m] == r[i]);
                }
            } else {
                assert(s[s.len() - 1] == r[i]);
            }
        }
    }
}

/// Sorting keeps every candidate exactly as often as it occurred and leaves the
/// list in display order.
pub proof fn sorting_orders_and_keeps(s: Seq<CandidateModel>, rule: DisplayRule)
    ensures
        display_sorted(s, rule).len() == s.len(),
        display_sorted(s, rule).to_multiset() == s.to_multiset(),
        in_display_order(display_sorted(s, rule), rule),
    decreases s.len(),
{
    broadcast use vstd::seq_lib::group_to_multiset_ensures;

    if s.len() > 0 {
        let p = display_sorted(s.drop_last(), rule);
        sorting_orders_and_keeps(s.drop_last(), rule);
        lemma_insert_sorted_len(p, s.last(), rule);
        lemma_insert_sorted_order(p, s.last(), rule);
        assert(s =~= s.drop_last().push(s.last()));
    }
}

/// The candidates of `s` whose key is `k`, in order.
pub open spec fn with_key(s: Seq<CandidateModel>, k: DisplayKey, rule: DisplayRule) -> Seq<
    CandidateModel,
>
    decreases s.len(),
{
    if s.len() == 0 {
        s
    } else if display_key(s.last(), rule) == k {
        with_key(s.drop_last(), k, rule).push(s.last())
    } else {
        with_key(s.drop_last(), k, rule)
    }
}

proof fn lemma_with_key_push(
    s: Seq<CandidateModel>,
    c: CandidateModel,
    k: DisplayKey,
    rule: DisplayRule,
)
    ensures
        with_key(s.push(c), k, rule) == (if display_key(c, rule) == k {
            with_key(s, k, rule).push(c)
        } else {
            with_key(s, k, rule)
        }),
{
    assert(s.push(c).drop_last() =~= s);
}

proof fn lemma_insert_sorted_with_key(
    s: Seq<CandidateModel>,
    c: CandidateModel,
    k: DisplayKey,
    rule: DisplayRule,
)
    ensures
        with_key(insert_sorted(s, c, rule), k, rule) == with_key(s.push(c), k, rule),
    decreases s.len(),
{
    if s.len() == 0 || !shown_before(c, s.last(), rule) {
    } else {
        let p = insert_sorted(s.drop_last(), c, rule);
        lemma_insert_sorted_with_key(s.drop_last(), c, k, rule);
        lemma_with_key_push(p, s.last(), k, rule);
        lemma_with_key_push(s.drop_last(), c, k, rule);
        lemma_with_key_push(s, c, k, rule);
        display_order_irreflexive(c, rule);
        assert(display_key(c, rule) != display_key(s.last(), rule));
    }
}

/// Sorting is stable: candidates with the same key keep the order they had.
pub proof fn sorting_is_stable(s: Seq<CandidateModel>, k: DisplayKey, rule: DisplayRule)
    ensures
        with_key(display_sorted(s, rule), k, rule) == with_key(s, k, rule),
    decreases s.len(),
{
    if s.len() > 0 {
        let p = display_sorted(s.drop_last(), rule);
        sorting_is_stable(s.drop_last(), k, rule);
        lemma_insert_sorted_with_key(p, s.last(), k, rule);
        lemma_with_key_push(p, s.last(), k, rule);
        lemma_with_key_push(s.drop_last(), s.last(), k, rule);
        assert(s =~= s.drop_last().push(s.last()));
    }
}

/// Puts a list of candidates into display order; ties keep their order.
pub fn sort_for_display(list: &mut Vec<Candidate>, rule: DisplayRule)
    ensures
        models(final(list)@) == display_sorted(models(old(list)@), rule),
{
    let ghost start = models(list@);
    let mut i: usize = 0;
    assert(start.take(0) =~= Seq::empty());
    assert(models(list@).skip(0) =~= models(list@));
    assert(models(list@).take(0) =~= Seq::empty());
    while i < list.len()
        invariant
            i <= list.len(),
            list.len() == start.len(),
            models(list@).take(i as int) == display_sorted(start.take(i as int), rule),
            models(list@).skip(i as int) == start.skip(i as int),
        decreases list.len() - i,
    {
        let ghost m = models(list@);
        let ghost c = m[i as int];
        let mut j: usize = i;
        while j > 0 && is_shown_before(&list[i], &list[j - 1], rule)
            invariant
                j <= i < list.len(),
                m == models(list@),
                c == m[i as int],
                forall|k: int| j <= k < i ==> shown_before(c, #[trigger] m[k], rule),
            ensures
                j <= i,
                forall|k: int| j <= k < i ==> shown_before(c, #[trigger] m[k], rule),
                j == 0 || !shown_before(c, m[j - 1], rule),
            decreases j,
        {
            j = j - 1;
        }
        let moved = list.remove(i);
        list.insert(j, moved);
        proof {
            let n = i as int + 1;
            lemma_insert_sorted_at(m.take(i as int), c, j as int, rule);
            assert(c == start.skip(i as int)[0]);
            assert(start.take(n).drop_last() =~= start.take(i as int));
            assert(start.take(n).last() == c);
            assert(models(list@).take(n) =~= m.take(i as int).take(j as int).push(c) + m.take(
                i as int,
            ).skip(j as int));
            assert(models(list@).skip(n) =~= m.skip(i as int).skip(1));
            assert(start.skip(n) =~= start.skip(i as int).skip(1));
        }
        i = i + 1;
    }
    assert(models(list@).take(i as int) =~= models(list@));
    assert(start.take(i as int) =~= start);
}

/// Where text `t` stands in `s`; the length of `s` when it does not occur.
pub open spec fn text_index(s: Seq<CandidateModel>, t: Seq<char>) -> int
    decreases s.len(),
{
    if s.len() == 0 {
        0
    } else if s[0].text == t {
        0
    } else {
        1 + text_index(s.drop_first(), t)
    }
}

proof fn lemma_text_index(s: Seq<CandidateModel>, t: Seq<char>)
    ensures
        0 <= text_index(s, t) <= s.len(),
        forall|k: int| 0 <= k < text_index(s, t) ==> (#[trigger] s[k]).text != t,
        text_index(s, t) < s.len() ==> s[text_index(s, t)].text == t,
    decreases s.len(),
{
    if s.len() > 0 && s[0].text != t {
        lemma_text_index(s.drop_first(), t);
        assert forall|k: int| 0 <= k < text_index(s, t) implies (#[trigger] s[k]).text != t by {
            if k > 0 {
                assert(s[k] == s.drop_first()[k - 1]);
            }
        }
    }
}

/// `s` with only the first candidate of each text.
pub open spec fn first_of_each_text(s: Seq<CandidateModel>) -> Seq<CandidateModel>
    decreases s.len(),
{
    if s.len() == 0 {
        s
    } else {
        let kept = first_of_each_text(s.drop_last());
        if text_index(kept, s.last().text) < kept.len() {
            kept
        } else {
            kept.push(s.last())
        }
    }
}

/// Each dropped candidate of `s` with the place of the one that stands for it.
pub open spec fn folded_duplicates(s: Seq<CandidateModel>) -> Seq<(int, CandidateModel)>
    decreases s.len(),
{
    if s.len() == 0 {
        Seq::empty()
    } else {
        let kept = first_of_each_text(s.drop_last());
        let at = text_index(kept, s.last().text);
        if at < kept.len() {
            folded_duplicates(s.drop_last()).push((at, s.last()))
        } else {
            folded_duplicates(s.drop_last())
        }
    }
}

/// After folding, no two candidates show the same text, and every text that was
/// shown before still is.
pub proof fn folding_leaves_each_text_once(s: Seq<CandidateModel>)
    ensures
        forall|i: int, j: int|
            0 <= i < j < first_of_each_text(s).len() ==> (#[trigger] first_of_each_text(s)[i]).text
                != (#[trigger] first_of_each_text(s)[j]).text,
        forall|i: int|
            0 <= i < s.len() ==> text_index(first_of_each_text(s), (#[trigger] s[i]).text)
                < first_of_each_text(s).len(),
        first_of_each_text(s).len() + folded_duplicates(s).len() == s.len(),
    decreases s.len(),
{
    if s.len() > 0 {
        let p = s.drop_last();
        folding_leaves_each_text_once(p);
        let kept = first_of_each_text(p);
        let r = first_of_each_text(s);
        lemma_text_index(kept, s.last().text);
        assert forall|i: int| 0 <= i < s.len() implies text_index(r, (#[trigger] s[i]).text)
            < r.len() by {
            lemma_text_index(r, s[i].text);
            lemma_text_index(kept, s[i].text);
            if i < p.len() {
                assert(p[i] == s[i]);
                let at = text_index(kept, s[i].text);
                assert(r[at] == kept[at]);
            } else if text_index(kept, s.last().text) >= kept.len() {
                assert(r[kept.len() as int] == s.last());
            }
        }
    }
}

/// A dropped duplicate and the place of the candidate that stands for it.
pub struct Folded {
    pub into: usize,
    pub dropped: Candidate,
}

/// The models of folded duplicates.
pub open spec fn folded_models(s: Seq<Folded>) -> Seq<(int, CandidateModel)> {
    s.map_values(|f: Folded| (f.into as int, f.dropped@))
}

/// Keeps the first candidate of each text and hands out the rest, each with the
/// place of the one that stands for it, so that its codes can be merged there.
pub fn fold_duplicates(list: Vec<Candidate>) -> (r: (Vec<Candidate>, Vec<Folded>))
    ensures
        models(r.0@) == first_of_each_text(models(list@)),
        folded_models(r.1@) == folded_duplicates(models(list@)),
{
    let ghost s = models(list@);
    let mut rest = list;
    let mut kept: Vec<Candidate> = Vec::new();
    let mut dropped: Vec<Folded> = Vec::new();
    let ghost mut done: int = 0;
    assert(s.take(0) =~= Seq::empty());
    assert(s.skip(0) =~= s);
    assert(models(kept@) =~= Seq::empty());
    assert(folded_models(dropped@) =~= Seq::empty());
    while rest.len() > 0
        invariant
            0 <= done <= s.len(),
            models(rest@) == s.skip(done),
            models(kept@) == first_of_each_text(s.take(done)),
            folded_models(dropped@) == folded_duplicates(s.take(done)),
        decreases rest.len(),
    {
        let ghost before = models(rest@);
        assert(before.len() == rest.len());
        let c = rest.remove(0);
        let ghost k = models(kept@);
        proof {
            assert(c@ == before[0]);
            assert(models(rest@) =~= before.skip(1));
            assert(s.take(done + 1).drop_last() =~= s.take(done));
            assert(s.take(done + 1).last() == c@);
            assert(models(rest@) =~= s.skip(done + 1));
            lemma_text_index(k, c@.text);
        }
        let mut at: usize = 0;
        while at < kept.len() && kept[at].text != c.text
            invariant
                at <= kept.len(),
                k == models(kept@),
                forall|m: int| 0 <= m < at ==> (#[trigger] k[m]).text != c@.text,
            ensures
                at <= kept.len(),
                forall|m: int| 0 <= m < at ==> (#[trigger] k[m]).text != c@.text,
                at < kept.len() ==> k[at as int].text == c@.text,
            decreases kept.len() - at,
        {
            assert(k[at as int].text == kept@[at as int].text@);
            at = at + 1;
        }
        assert(at == text_index(k, c@.text));
        if at < kept.len() {
            let f = Folded { into: at, dropped: c };
            assert(folded_models(dropped@.push(f)) =~= folded_models(dropped@).push(
                (at as int, c@),
            ));
            dropped.push(f);
        } else {
            assert(models(kept@.push(c)) =~= k.push(c@));
            kept.push(c);
        }
        proof {
            done = done + 1;
        }
    }
    assert(s.take(done) =~= s) by {
        assert(s.skip(done).len() == 0);
    }
    (kept, dropped)
}

/// Whether some candidate keeps a full but fruitless input from being cleared:
/// any candidate that is not pinyin, or a pinyin one explaining the whole input.
pub fn clear_blocked_by_candidates(candidates: &Vec<Candidate>, input_len: usize) -> (r: bool)
    ensures
        r == exists|i: int|
            0 <= i < candidates.len() && {
                let c = (#[trigger] candidates[i])@;
                c.source != CandidateSource::Pinyin || consumed_of(c, input_len as int) >= input_len
            },
        forall|i: int|
            0 <= i < candidates@.len() && (#[trigger] candidates@[i]).source != CandidateSource::Pinyin
                ==> r,
        forall|i: int|
            0 <= i < candidates@.len() && ((#[trigger] candidates@[i]).consumed_length == 0
                || candidates@[i].consumed_length >= input_len) ==> r,
        candidates@.len() == 0 ==> !r,
{
    let mut i: usize = 0;
    while i < candidates.len()
        invariant
            i <= candidates.len(),
            forall|k: int|
                0 <= k < i ==> {
                    let c = (#[trigger] candidates[k])@;
                    c.source == CandidateSource::Pinyin && consumed_of(c, input_len as int)
                        < input_len
                },
        decreases candidates.len() - i,
    {
        let c = &candidates[i];
        if c.source != CandidateSource::Pinyin || c.consumed_length == 0 || c.consumed_length
            >= input_len {
            assert(candidates[i as int]@.source == c.source);
            return true;
        }
        i = i + 1;
    }
    false
}

/// The shortest input that may commit by itself: the configured length, or the
/// full code length when none is configured.
pub fn resolve_auto_commit_min_len(configured: usize, max_code_length: usize) -> (r: usize)
    ensures
        r == (if configured > 0 { configured } else { max_code_length }),
        configured > 0 ==> r == configured,
        configured == 0 ==> r == max_code_length,
{
    if configured > 0 {
        configured
    } else {
        max_code_length
    }
}

/// Whether the composition shows the code split of a code-table sentence: there is
/// a split, and the highlighted candidate is that sentence.
pub fn wants_codetable_split(body: &str, cand: Option<&Candidate>) -> (r: bool)
    ensures
        r == (body@.len() > 0 && (cand matches Some(c) && c.is_sentence && c.source
            == CandidateSource::CodeTable)),
        cand is None || body@.len() == 0 ==> !r,
        cand matches Some(c) ==> (r ==> c.source == CandidateSource::CodeTable && c.is_sentence),
        cand matches Some(c) ==> (body@.len() > 0 && c.source == CandidateSource::CodeTable && c.is_sentence
            ==> r),
{
    if body.is_empty() {
        return false;
    }
    match cand {
        Some(c) => c.is_sentence && c.source == CandidateSource::CodeTable,
        None => false,
    }
}

/// Whether two candidates explain equally much of an input. One that does not say how
/// much it explains explains all of it.
pub open spec fn explain_alike(a: CandidateModel, b: CandidateModel, rule: DisplayRule) -> bool {
    ||| a.consumed_length == b.consumed_length
    ||| a.consumed_length == 0 && b.consumed_length == rule.input_len
    ||| b.consumed_length == 0 && a.consumed_length == rule.input_len
}

/// A candidate that explains more bytes of the input comes first, and one that does not
/// say how many explains as many as the input has.
pub proof fn more_explained_bytes_come_first(
    a: CandidateModel,
    b: CandidateModel,
    rule: DisplayRule,
)
    ensures
        a.consumed_length > b.consumed_length && b.consumed_length > 0 ==> shown_before(a, b, rule)
            && !shown_before(b, a, rule),
        a.consumed_length == 0 && 0 < b.consumed_length < rule.input_len ==> shown_before(
            a,
            b,
            rule,
        ) && !shown_before(b, a, rule),
        b.consumed_length == 0 && a.consumed_length > rule.input_len ==> shown_before(a, b, rule)
            && !shown_before(b, a, rule),
{
}

/// Where two candidates explain equally much, the closer layer comes first.
pub proof fn closer_layers_come_first(a: CandidateModel, b: CandidateModel, rule: DisplayRule)
    requires
        explain_alike(a, b, rule),
        a.rank.layer < b.rank.layer,
    ensures
        shown_before(a, b, rule),
        !shown_before(b, a, rule),
{
}

/// In one layer the completion that adds fewer syllables comes first.
pub proof fn shorter_completions_come_first(a: CandidateModel, b: CandidateModel, rule: DisplayRule)
    requires
        explain_alike(a, b, rule),
        a.rank.layer == b.rank.layer,
        a.rank.extra < b.rank.extra,
    ensures
        shown_before(a, b, rule),
        !shown_before(b, a, rule),
{
}

/// Among equally close matches those whose code is the input come first.
pub proof fn exact_codes_come_first(a: CandidateModel, b: CandidateModel, rule: DisplayRule)
    requires
        explain_alike(a, b, rule),
        a.rank.layer == b.rank.layer,
        a.rank.extra == b.rank.extra,
        a.is_exact_code,
        !b.is_exact_code,
    ensures
        shown_before(a, b, rule),
        !shown_before(b, a, rule),
{
}

/// In mixed input the better source comes first among equally close matches.
pub proof fn better_tiers_come_first_in_mixed_input(
    a: CandidateModel,
    b: CandidateModel,
    rule: DisplayRule,
)
    requires
        explain_alike(a, b, rule),
        a.rank.layer == b.rank.layer,
        a.rank.extra == b.rank.extra,
        a.is_exact_code == b.is_exact_code,
        rule.mixed,
        a.rank.tier < b.rank.tier,
    ensures
        shown_before(a, b, rule),
        !shown_before(b, a, rule),
{
}

/// Whether nothing above the weight tells two candidates apart.
pub open spec fn match_alike(a: CandidateModel, b: CandidateModel, rule: DisplayRule) -> bool {
    &&& explain_alike(a, b, rule)
    &&& a.rank.layer == b.rank.layer
    &&& a.rank.extra == b.rank.extra
    &&& a.is_exact_code == b.is_exact_code
    &&& !rule.mixed || a.rank.tier == b.rank.tier
}

/// Unless weights are ignored, the heavier of two equal matches comes first.
pub proof fn heavier_candidates_come_first(a: CandidateModel, b: CandidateModel, rule: DisplayRule)
    requires
        match_alike(a, b, rule),
        !rule.ignore_weight,
        a.weight > b.weight,
    ensures
        shown_before(a, b, rule),
        !shown_before(b, a, rule),
{
}

/// Where weights settle nothing the earlier dictionary comes first, and in one dictionary
/// the earlier entry.
pub proof fn earlier_entries_come_first(a: CandidateModel, b: CandidateModel, rule: DisplayRule)
    requires
        match_alike(a, b, rule),
        rule.ignore_weight || a.weight == b.weight,
        a.base_order < b.base_order || (a.base_order == b.base_order && a.natural_order
            < b.natural_order),
    ensures
        shown_before(a, b, rule),
        !shown_before(b, a, rule),
{
}

/// What is still open is settled by the texts where the rule says so, and left open where
/// it does not.
pub proof fn texts_settle_what_is_left(a: CandidateModel, b: CandidateModel, rule: DisplayRule)
    requires
        match_alike(a, b, rule),
        rule.ignore_weight || a.weight == b.weight,
        a.base_order == b.base_order,
        a.natural_order == b.natural_order,
    ensures
        rule.by_text ==> (shown_before(a, b, rule) <==> text_before(a.text, b.text)),
        !rule.by_text ==> !shown_before(a, b, rule) && !shown_before(b, a, rule),
{
    text_order_irreflexive(Seq::empty());
}

/// Texts are ordered by the first character in which they differ, and a text comes before
/// every longer one that starts with it.
pub proof fn texts_are_ordered_by_their_first_difference(a: Seq<char>, b: Seq<char>, k: int)
    requires
        0 <= k <= a.len(),
        k < b.len(),
        forall|i: int| 0 <= i < k ==> a[i] == b[i],
        k < a.len() ==> (a[k] as int) < (b[k] as int),
    ensures
        text_before(a, b),
        !text_before(b, a),
    decreases k,
{
    if k > 0 {
        assert forall|i: int| 0 <= i < k - 1 implies a.drop_first()[i] == b.drop_first()[i] by {
            assert(a[i + 1] == b[i + 1]);
        }
        assert(a[0] == b[0]);
        if k < a.len() {
            assert(a.drop_first()[k - 1] == a[k]);
        }
        assert(b.drop_first()[k - 1] == b[k]);
        texts_are_ordered_by_their_first_difference(a.drop_first(), b.drop_first(), k - 1);
    }
}

/// In a sorted list whatever is shown before another stands before it.
pub proof fn sorted_lists_follow_the_display_order(
    s: Seq<CandidateModel>,
    rule: DisplayRule,
    i: int,
    j: int,
)
    requires
        0 <= i < display_sorted(s, rule).len(),
        0 <= j < display_sorted(s, rule).len(),
        shown_before(display_sorted(s, rule)[i], display_sorted(s, rule)[j], rule),
    ensures
        i < j,
{
    sorting_orders_and_keeps(s, rule);
    display_order_irreflexive(display_sorted(s, rule)[i], rule);
}

/// The candidate that leads a sorted list is one of the list, and none of the list is shown
/// before it.
pub proof fn nothing_is_shown_before_the_first(
    s: Seq<CandidateModel>,
    rule: DisplayRule,
    i: int,
)
    requires
        0 <= i < s.len(),
    ensures
        s.contains(display_sorted(s, rule)[0]),
        !shown_before(s[i], display_sorted(s, rule)[0], rule),
{
    broadcast use vstd::seq_lib::group_to_multiset_ensures;

    let d = display_sorted(s, rule);
    sorting_orders_and_keeps(s, rule);
    assert(s.to_multiset().count(s[i]) > 0);
    assert(d.contains(s[i]));
    let k = choose|k: int| 0 <= k < d.len() && d[k] == s[i];
    display_order_irreflexive(d[0], rule);
    if k > 0 {
        assert(!shown_before(d[k], d[0], rule));
    }
    assert(d.to_multiset().count(d[0]) > 0);
}

/// Whether `at` tells where each candidate of `kept` stood in `s`: the places rise, and
/// each is that of the first candidate with its text.
pub open spec fn first_places(
    s: Seq<CandidateModel>,
    kept: Seq<CandidateModel>,
    at: Seq<int>,
) -> bool {
    &&& at.len() == kept.len()
    &&& forall|i: int|
        0 <= i < at.len() ==> 0 <= #[trigger] at[i] < s.len() && kept[i] == s[at[i]]
    &&& forall|i: int, j: int| 0 <= i < j < at.len() ==> #[trigger] at[i] < #[trigger] at[j]
    &&& forall|i: int, m: int|
        0 <= i < at.len() && 0 <= m < at[i] ==> (#[trigger] s[m]).text != (#[trigger] kept[i]).text
}

/// Folding keeps, of each text, the candidate that stood first, and what is kept stays in
/// its order.
pub proof fn folding_keeps_the_first_of_each_text(s: Seq<CandidateModel>) -> (at: Seq<int>)
    ensures
        first_places(s, first_of_each_text(s), at),
    decreases s.len(),
{
    if s.len() == 0 {
        Seq::empty()
    } else {
        let p = s.drop_last();
        let kept = first_of_each_text(p);
        let before = folding_keeps_the_first_of_each_text(p);
        let t = s.last().text;
        lemma_text_index(kept, t);
        folding_leaves_each_text_once(p);
        if text_index(kept, t) < kept.len() {
            assert forall|i: int, m: int|
                0 <= i < before.len() && 0 <= m < before[i] implies (#[trigger] s[m]).text != (
            #[trigger] kept[i]).text by {
                assert(p[m] == s[m]);
            }
            before
        } else {
            let at = before.push(p.len() as int);
            let r = kept.push(s.last());
            assert forall|i: int| 0 <= i < at.len() implies 0 <= #[trigger] at[i] < s.len() && r[i]
                == s[at[i]] by {
                if i < before.len() {
                    assert(at[i] == before[i]);
                }
            }
            assert forall|i: int, m: int|
                0 <= i < at.len() && 0 <= m < at[i] implies (#[trigger] s[m]).text != (
            #[trigger] r[i]).text by {
                assert(p[m] == s[m]);
                if i < before.len() {
                    assert(at[i] == before[i]);
                    assert(r[i] == kept[i]);
                } else {
                    lemma_text_index(kept, p[m].text);
                    let x = text_index(kept, p[m].text);
                    assert(kept[x].text == p[m].text);
                    assert(kept[x].text != t);
                }
            }
            at
        }
    }
}

/// What is folded away names the place of a candidate that shows the same text, and is
/// itself a candidate of the list.
pub proof fn what_is_folded_shows_the_same_text(s: Seq<CandidateModel>, i: int)
    requires
        0 <= i < folded_duplicates(s).len(),
    ensures
        0 <= folded_duplicates(s)[i].0 < first_of_each_text(s).len(),
        first_of_each_text(s)[folded_duplicates(s)[i].0].text == folded_duplicates(s)[i].1.text,
        s.contains(folded_duplicates(s)[i].1),
    decreases s.len(),
{
    let p = s.drop_last();
    let kept = first_of_each_text(p);
    lemma_text_index(kept, s.last().text);
    if i < folded_duplicates(p).len() {
        what_is_folded_shows_the_same_text(p, i);
        let k = choose|k: int| 0 <= k < p.len() && p[k] == folded_duplicates(p)[i].1;
        assert(s[k] == folded_duplicates(p)[i].1);
    } else {
        assert(s[s.len() - 1] == s.last());
    }
}

} // verus!

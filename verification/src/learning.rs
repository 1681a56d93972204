//! What is remembered of a commit: the history, frequencies, and learned words.

use crate::action::{ActionModel, KeyAction};
use crate::candidate::{opt_view, strings_view, CandidateSource};
use crate::coordinator::{Coordinator, EngineType, HISTORY_LIMIT, LEARN_ADD_WEIGHT};
use crate::freq::FreqKeyModel;
use crate::state::{seg_models, seg_texts, Seg, SegModel, State};
use crate::text::{
    all_han, all_han_chars, byte_size, char_count, list_has, split, split_parts, utf16_total,
    utf16_len,
};
use vstd::prelude::*;
use vstd::string::*;

verus! {

/// Words are evicted from the temporary layer once per this many writes.
pub const EVICT_CHECK_INTERVAL: usize = 64;

/// Longest pause between characters of one word when none is configured.
pub const DEFAULT_IDLE_TIMEOUT_MS: u64 = 5000;

/// Characters of the segments from `k` on.
pub open spec fn tail_chars(s: Seq<SegModel>, k: int) -> nat
    decreases s.len() - k,
{
    if k < 0 || k >= s.len() {
        0
    } else {
        s[k].text.len() + tail_chars(s, k + 1)
    }
}

/// The smallest place at or before `k` from which the segments still come to at
/// most `max_chars` characters, going back one segment at a time.
pub open spec fn fit_from(s: Seq<SegModel>, k: int, max_chars: int) -> int
    decreases k,
{
    if k > 0 && tail_chars(s, k - 1) <= max_chars {
        fit_from(s, k - 1, max_chars)
    } else {
        k
    }
}

/// The first of the segments that are kept when only `max_chars` characters may be;
/// 0 stands for no limit.
pub open spec fn kept_start(s: Seq<SegModel>, max_chars: int) -> int {
    if max_chars == 0 {
        0
    } else {
        fit_from(s, s.len() as int, max_chars)
    }
}

/// Where to cut so that whole segments are kept from the back and their texts come
/// to at most `max_chars` characters; 0 stands for no limit. The cut keeps as many
/// segments as fit.
pub fn trim_segs_start(segs: &Vec<Seg>, max_chars: usize) -> (r: usize)
    ensures
        r == kept_start(seg_models(segs@), max_chars as int),
        max_chars > 0 ==> {
            &&& r <= segs@.len()
            &&& tail_chars(seg_models(segs@), r as int) <= max_chars
            &&& r > 0 ==> tail_chars(seg_models(segs@), r - 1) > max_chars
        },
        max_chars == 0 ==> r == 0,
{
    if max_chars == 0 {
        return 0;
    }
    let ghost m = seg_models(segs@);
    let mut total: usize = 0;
    let mut start: usize = segs.len();
    while start > 0
        invariant
            start <= segs@.len(),
            m == seg_models(segs@),
            max_chars > 0,
            total == tail_chars(m, start as int),
            total <= max_chars,
            kept_start(m, max_chars as int) == fit_from(m, start as int, max_chars as int),
        decreases start,
    {
        let n = char_count(segs[start - 1].text.as_str());
        assert(m[start - 1].text.len() == n);
        if n > max_chars - total {
            return start;
        }
        total = total + n;
        start = start - 1;
    }
    start
}

/// The text an action puts in front of the caret at once; empty when it puts none.
pub open spec fn landed_text(a: ActionModel) -> Seq<char> {
    match a {
        ActionModel::InsertText { text, .. } => text,
        ActionModel::InsertTextWithCursor { text, .. } => text,
        ActionModel::ReplaceBackward { text, .. } => text,
        ActionModel::CommitAndHoldComposition { commit_text, .. } => commit_text,
        ActionModel::CommitThenDeferComposition { commit_text, .. } => commit_text,
        _ => Seq::empty(),
    }
}

/// The text an action inserts as a fresh piece, which word learning may feed on.
pub open spec fn fresh_text(a: ActionModel) -> Seq<char> {
    match a {
        ActionModel::InsertText { text, .. } => text,
        ActionModel::InsertTextWithCursor { text, .. } => text,
        _ => Seq::empty(),
    }
}

/// What follows from the reply to a key.
#[derive(Debug)]
pub struct CommitNote {
    /// Text landed, so the application is about to report a moved caret.
    pub self_commit: bool,
    /// Text for word learning.
    pub feed: Option<String>,
}

/// How a committed text bears on the characters collected for a word.
#[derive(Clone, Copy, PartialEq, Eq, Structural, Debug)]
pub enum Feed {
    /// Nothing is collected.
    Ignore,
    /// The text joins the collection.
    Append,
    /// The text ends the collection and stays out of it.
    Terminate,
}

/// Where a frequency may be written, and whether it may.
#[derive(Debug)]
pub struct FreqPolicy {
    /// Frequencies are kept for the schema.
    pub enabled: bool,
    /// The text lies in a block that is left out.
    pub excluded: bool,
    /// Schema that owns the record; nothing when the source cannot be attributed.
    pub schema: Option<String>,
}

/// A frequency record to write.
#[derive(Debug)]
pub struct FreqWrite {
    pub schema: String,
    pub code: String,
    pub text: String,
}

/// The key of a record to write.
pub open spec fn write_key(w: Option<FreqWrite>) -> Option<FreqKeyModel> {
    match w {
        Some(w) => Some(FreqKeyModel { schema: w.schema@, code: w.code@, text: w.text@ }),
        None => None,
    }
}

/// The commit history after `text` was committed: newest first, nothing for an
/// empty text, at most [`HISTORY_LIMIT`] entries.
pub open spec fn history_with(h: Seq<Seq<char>>, text: Seq<char>) -> Seq<Seq<char>> {
    if text.len() == 0 {
        h
    } else if h.len() + 1 > HISTORY_LIMIT {
        (seq![text] + h).take(HISTORY_LIMIT as int)
    } else {
        seq![text] + h
    }
}

/// The history never grows past its limit.
pub proof fn history_stays_bounded(h: Seq<Seq<char>>, text: Seq<char>)
    requires
        h.len() <= HISTORY_LIMIT,
    ensures
        history_with(h, text).len() <= HISTORY_LIMIT,
{
}

/// A text that was committed is the newest entry of the history.
pub proof fn newest_commit_leads_history(h: Seq<Seq<char>>, text: Seq<char>)
    requires
        text.len() > 0,
    ensures
        history_with(h, text).len() > 0,
        history_with(h, text)[0] == text,
{
}

/// A word to write to the temporary layer.
#[derive(Debug)]
pub struct LearnRequest {
    pub code: String,
    pub text: String,
    pub boundary: u64,
    pub weight: i32,
    /// Source whose store the word belongs to; nothing for the schema's own store.
    pub owner: Option<CandidateSource>,
}

/// What became of a [`LearnRequest`].
#[derive(Clone, Copy, PartialEq, Eq, Structural, Debug)]
pub enum LearnReply {
    /// No store can be attributed.
    NoOwner,
    /// The user dictionary holds the word under that code.
    Known,
    /// Writing failed.
    Failed,
    /// Written; the word has been seen this often.
    Counted(u32),
}

/// What follows a write to the temporary layer.
#[derive(Debug)]
pub struct Learned {
    /// Code the word was written under.
    pub code: Option<String>,
    /// The word moves to the user dictionary.
    pub promote: bool,
    /// The temporary layer is trimmed.
    pub evict: bool,
}

/// The codes of segments, one after the other.
pub open spec fn seg_codes(s: Seq<SegModel>) -> Seq<char>
    decreases s.len(),
{
    if s.len() == 0 {
        Seq::empty()
    } else {
        seg_codes(s.drop_last()) + s.last().code
    }
}

/// Syllable boundaries of the joined codes: each segment's boundaries moved to
/// where its code starts. Nothing when a segment has none or the code is too long
/// for the bits.
pub open spec fn seg_boundaries(s: Seq<SegModel>) -> Option<u64>
    decreases s.len(),
{
    if s.len() == 0 {
        Some(0)
    } else {
        let at = byte_size(seg_codes(s.drop_last()));
        match seg_boundaries(s.drop_last()) {
            Some(b) if s.last().boundary != 0 && at < 64 && at + byte_size(s.last().code) <= 64 => {
                Some(b | (s.last().boundary << at))
            },
            _ => None,
        }
    }
}

/// Joins the codes of segments `from` and on, with their boundaries.
fn join_codes(segs: &Vec<Seg>, from: usize) -> (r: (String, u64))
    requires
        from <= segs@.len(),
    ensures
        r.0@ == seg_codes(seg_models(segs@).skip(from as int)),
        r.1 == (match seg_boundaries(seg_models(segs@).skip(from as int)) {
            Some(b) => b,
            None => 0,
        }),
{
    let ghost m = seg_models(segs@).skip(from as int);
    let mut code = String::new();
    let mut boundary: u64 = 0;
    let mut ok = true;
    let mut i: usize = from;
    assert(m.take(0) =~= Seq::empty());
    while i < segs.len()
        invariant
            from <= i <= segs@.len(),
            m == seg_models(segs@).skip(from as int),
            code@ == seg_codes(m.take(i - from)),
            seg_boundaries(m.take(i - from)) == (if ok {
                Some(boundary)
            } else {
                None
            }),
        decreases segs.len() - i,
    {
        let at: usize = code.as_str().len();
        let c = &segs[i].code;
        let b = segs[i].boundary;
        proof {
            assert(m.take(i - from + 1).drop_last() =~= m.take(i - from));
            assert(m.take(i - from + 1).last() == segs@[i as int]@);
        }
        if b == 0 || at >= 64 || c.as_str().len() > 64 - at {
            ok = false;
        } else {
            boundary = boundary | (b << at);
        }
        code.append(c.as_str());
        i = i + 1;
    }
    assert(m.take(m.len() as int) =~= m);
    (code, if ok { boundary } else { 0 })
}

/// Joins the texts of segments `from` and on.
pub fn join_texts(segs: &Vec<Seg>, from: usize) -> (r: String)
    requires
        from <= segs@.len(),
    ensures
        r@ == seg_texts(seg_models(segs@).skip(from as int)),
{
    let ghost m = seg_models(segs@).skip(from as int);
    let mut text = String::new();
    let mut i: usize = from;
    assert(m.take(0) =~= Seq::empty());
    while i < segs.len()
        invariant
            from <= i <= segs@.len(),
            m == seg_models(segs@).skip(from as int),
            text@ == seg_texts(m.take(i - from)),
        decreases segs.len() - i,
    {
        proof {
            assert(m.take(i - from + 1).drop_last() =~= m.take(i - from));
            assert(m.take(i - from + 1).last() == segs@[i as int]@);
        }
        text.append(segs[i].text.as_str());
        i = i + 1;
    }
    assert(m.take(m.len() as int) =~= m);
    text
}

/// Whether every segment of `s` has source `src`.
pub open spec fn all_from(s: Seq<SegModel>, src: CandidateSource) -> bool {
    forall|i: int| 0 <= i < s.len() ==> (#[trigger] s[i]).source == src
}

/// Whether segments `from` and on all have source `src`.
fn share_source(segs: &Vec<Seg>, from: usize, src: CandidateSource) -> (r: bool)
    requires
        from <= segs@.len(),
    ensures
        r == all_from(seg_models(segs@).skip(from as int), src),
{
    let ghost m = seg_models(segs@).skip(from as int);
    let mut i: usize = from;
    while i < segs.len()
        invariant
            from <= i <= segs@.len(),
            m == seg_models(segs@).skip(from as int),
            forall|k: int| 0 <= k < i - from ==> (#[trigger] m[k]).source == src,
        decreases segs.len() - i,
    {
        if segs[i].source != src {
            assert(m[i - from].source != src);
            return false;
        }
        i = i + 1;
    }
    true
}

impl Coordinator {
    /// Whether the kept segments `kept` of the chosen segments `all` make a word
    /// worth learning.
    pub open spec fn learnable(
        self,
        all: Seq<SegModel>,
        kept: Seq<SegModel>,
        single_is_synthesized: bool,
    ) -> bool {
        let al = self.engine.auto_learn;
        let text = seg_texts(kept);
        &&& all.len() >= 2 || (all.len() == 1 && single_is_synthesized)
        &&& !self.engine.is_codetable
        &&& al.enabled
        &&& kept.len() > 0
        &&& kept.len() >= 2 || all.len() == 1
        &&& seg_codes(kept).len() > 0
        &&& text.len() >= (if al.min_word_length == 0 {
            2
        } else {
            al.min_word_length as nat
        })
        &&& al.max_word_length > 0 ==> text.len() <= al.max_word_length
        &&& self.engine.has_store
        &&& self.engine.schema_type == Some(EngineType::Mixed) ==> {
            &&& all_from(kept, kept[0].source)
            &&& kept[0].source != CandidateSource::CodeTable
        }
    }

    /// The segments that count for learning: as many from the back as the length
    /// limit allows.
    pub open spec fn learned_segs(self, all: Seq<SegModel>) -> Seq<SegModel> {
        all.skip(kept_start(all, self.engine.auto_learn.max_word_length as int))
    }

    /// Whether several pinyin choices make one word that is learned whole: learning is on
    /// outside a code table, there is a store, the choices have codes, and their texts
    /// together are as long as a learned word may be.
    pub open spec fn teaches_pinyin(self, all: Seq<SegModel>) -> bool {
        let al = self.engine.auto_learn;
        let len = seg_texts(all).len();
        &&& al.enabled
        &&& !self.engine.is_codetable
        &&& self.engine.has_store
        &&& all.len() >= 2
        &&& all_from(all, CandidateSource::Pinyin)
        &&& seg_codes(all).len() > 0
        &&& len >= 2 && len >= al.min_word_length || al.min_word_length == 1 && len == 1
        &&& al.max_word_length == 0 || len <= al.max_word_length
    }

    /// The word a composition made of several choices, or of one synthesized
    /// sentence, teaches: its code is the joined codes of the kept segments, and in a
    /// mixed schema it belongs to the one source they all share.
    pub fn learn_phrase_on_commit(&self, state: &State, single_is_synthesized: bool) -> (r: Option<
        LearnRequest,
    >)
        ensures
            ({
                let all = seg_models(state.committed_segs@);
                let kept = self.learned_segs(all);
                match r {
                    Some(w) => {
                        &&& self.learnable(all, kept, single_is_synthesized)
                        &&& w.code@ == seg_codes(kept)
                        &&& w.text@ == seg_texts(kept)
                        &&& w.boundary == (match seg_boundaries(kept) {
                            Some(b) => b,
                            None => 0,
                        })
                        &&& w.weight == LEARN_ADD_WEIGHT
                        &&& w.owner == (if self.engine.schema_type == Some(EngineType::Mixed) {
                            Some(kept[0].source)
                        } else {
                            None
                        })
                    },
                    None => !self.learnable(all, kept, single_is_synthesized),
                }
            }),
            self.engine.schema_type == Some(EngineType::Mixed) ==> (r matches Some(w) ==> w.owner
                is Some && w.owner != Some(CandidateSource::CodeTable) && forall|i: int|
                0 <= i < self.learned_segs(seg_models(state.committed_segs@)).len() ==> Some(
                    (#[trigger] self.learned_segs(seg_models(state.committed_segs@))[i]).source,
                ) == w.owner),
            self.engine.schema_type != Some(EngineType::Mixed) ==> (r matches Some(w) ==> w.owner
                is None),
            self.teaches_pinyin(seg_models(state.committed_segs@)) ==> (r matches Some(w) && w.owner
                == (if self.engine.schema_type == Some(EngineType::Mixed) {
                Some(CandidateSource::Pinyin)
            } else {
                None
            }) && w.text@ == seg_texts(seg_models(state.committed_segs@)) && w.code@ == seg_codes(
                seg_models(state.committed_segs@),
            )),
            r matches Some(w) ==> w.weight == 800 && w.code@.len() > 0 && w.text@.len() > 0,
    {
        let segs = &state.committed_segs;
        let al = self.engine.auto_learn;
        let start = trim_segs_start(segs, al.max_word_length);
        let ghost all = seg_models(segs@);
        let ghost kept = all.skip(start as int);
        proof {
            if self.teaches_pinyin(all) {
                pinyin_words_are_learned(*self, all, single_is_synthesized);
            }
        }
        if segs.len() < 2 && !(segs.len() == 1 && single_is_synthesized) {
            return None;
        }
        if self.engine.is_codetable || !al.enabled {
            return None;
        }
        let n = segs.len() - start;
        if n == 0 || (n < 2 && segs.len() != 1) {
            return None;
        }
        let (code, boundary) = join_codes(segs, start);
        let text = join_texts(segs, start);
        let min_len: usize = if al.min_word_length == 0 { 2 } else { al.min_word_length };
        let n_chars = char_count(text.as_str());
        if n_chars < min_len || code.as_str().is_empty() {
            return None;
        }
        if al.max_word_length > 0 && n_chars > al.max_word_length {
            return None;
        }
        if !self.engine.has_store {
            return None;
        }
        let mixed = match self.engine.schema_type {
            Some(t) => t == EngineType::Mixed,
            None => false,
        };
        let owner = if mixed {
            let first = segs[start].source;
            if !share_source(segs, start, first) {
                return None;
            }
            if first == CandidateSource::CodeTable {
                return None;
            }
            Some(first)
        } else {
            None
        };
        Some(LearnRequest { code, text, boundary, weight: LEARN_ADD_WEIGHT, owner })
    }

    /// Whether a temporary word seen `count` times moves to the user dictionary; a
    /// threshold of 0 never does.
    pub fn maybe_promote_temp(count: u32, promote_count: usize) -> (r: bool)
        ensures
            r == (promote_count > 0 && count >= promote_count),
            promote_count == 0 ==> !r,
            r ==> count >= promote_count,
            promote_count > 0 && count >= promote_count ==> r,
    {
        promote_count > 0 && count as usize >= promote_count
    }

    /// Counts a write to the temporary layer and says whether the layer is to be
    /// trimmed now: every [`EVICT_CHECK_INTERVAL`] writes, never without a limit.
    pub fn maybe_evict_temp(&mut self) -> (r: bool)
        ensures
            old(self).engine.codetable.auto_phrase.temp_max_entries == 0 ==> {
                &&& !r
                &&& *final(self) == *old(self)
            },
            old(self).engine.codetable.auto_phrase.temp_max_entries > 0 ==> {
                &&& final(self).auto_phrase_writes == (if old(self).auto_phrase_writes
                    == usize::MAX {
                    0
                } else {
                    (old(self).auto_phrase_writes + 1) as usize
                })
                &&& *final(self) == (Coordinator {
                    auto_phrase_writes: final(self).auto_phrase_writes,
                    ..*old(self)
                })
                &&& r == (final(self).auto_phrase_writes % EVICT_CHECK_INTERVAL == 0)
            },
            r ==> final(self).auto_phrase_writes % 64 == 0 && final(self).auto_phrase_writes != old(
                self,
            ).auto_phrase_writes,
            old(self).engine.codetable.auto_phrase.temp_max_entries > 0 && old(self).auto_phrase_writes % 64
                == 63 ==> r,
    {
        if self.engine.codetable.auto_phrase.temp_max_entries == 0 {
            return false;
        }
        let n: usize = if self.auto_phrase_writes == usize::MAX {
            0
        } else {
            self.auto_phrase_writes + 1
        };
        self.auto_phrase_writes = n;
        n % EVICT_CHECK_INTERVAL == 0
    }

    /// What follows once the store has answered a request to learn `code`.
    pub fn settle_learn(&mut self, code: &str, reply: LearnReply, promote_count: usize) -> (r:
        Learned)
        ensures
            opt_view(r.code) == (if reply is Counted {
                Some(code@)
            } else {
                None
            }),
            r.promote == (reply matches LearnReply::Counted(n) && promote_count > 0 && n
                >= promote_count),
            !(reply is Counted) ==> !r.evict && *final(self) == *old(self),
            reply is Counted ==> {
                let limited = old(self).engine.codetable.auto_phrase.temp_max_entries > 0;
                &&& *final(self) == (Coordinator {
                    auto_phrase_writes: final(self).auto_phrase_writes,
                    ..*old(self)
                })
                &&& final(self).auto_phrase_writes == (if !limited {
                    old(self).auto_phrase_writes
                } else if old(self).auto_phrase_writes == usize::MAX {
                    0
                } else {
                    (old(self).auto_phrase_writes + 1) as usize
                })
                &&& r.evict == (limited && final(self).auto_phrase_writes % EVICT_CHECK_INTERVAL
                    == 0)
            },
            reply == LearnReply::Known || reply == LearnReply::Failed || reply == LearnReply::NoOwner ==> r.code
                is None && !r.promote && !r.evict,
            reply matches LearnReply::Counted(n) ==> (r.promote <==> promote_count > 0 && n >= promote_count),
    {
        match reply {
            LearnReply::Counted(n) => {
                let promote = Self::maybe_promote_temp(n, promote_count);
                let evict = self.maybe_evict_temp();
                Learned { code: Some(code.to_owned()), promote, evict }
            },
            _ => Learned { code: None, promote: false, evict: false },
        }
    }

    /// Notes the reply to a key: a text that landed sets the length an undo would
    /// remove, marks the caret move it causes, and, when it is a fresh piece, feeds
    /// word learning. What has not landed leaves everything as it was.
    pub fn note_commit_action(&mut self, action: &KeyAction) -> (r: CommitNote)
        ensures
            final(self).last_commit_len == (if landed_text(action@).len() > 0 {
                utf16_len(landed_text(action@)) as usize
            } else {
                old(self).last_commit_len
            }),
            *final(self) == (Coordinator {
                last_commit_len: final(self).last_commit_len,
                ..*old(self)
            }),
            r.self_commit == (landed_text(action@).len() > 0),
            opt_view(r.feed) == (if fresh_text(action@).len() > 0 {
                Some(fresh_text(action@))
            } else {
                None
            }),
            action@ matches ActionModel::InsertText { text, .. } ==> (text.len() > 0 ==> {
                &&& final(self).last_commit_len == utf16_len(text) as usize
                &&& r.self_commit
                &&& opt_view(r.feed) == Some(text)
            }),
            action@ == ActionModel::Consumed || action@ == ActionModel::PassThrough || action@
                == ActionModel::ClearComposition ==> *final(self) == *old(self) && !r.self_commit && r.feed
                is None,
            r.feed is Some ==> r.self_commit,
    {
        let (landed, fresh): (&str, bool) = match action {
            KeyAction::InsertText { text, .. } => (text.as_str(), true),
            KeyAction::InsertTextWithCursor { text, .. } => (text.as_str(), true),
            KeyAction::ReplaceBackward { text, .. } => (text.as_str(), false),
            KeyAction::CommitAndHoldComposition { commit_text, .. } => (
                commit_text.as_str(),
                false,
            ),
            KeyAction::CommitThenDeferComposition { commit_text, .. } => (
                commit_text.as_str(),
                false,
            ),
            _ => {
                return CommitNote { self_commit: false, feed: None };
            },
        };
        if landed.is_empty() {
            return CommitNote { self_commit: false, feed: None };
        }
        let n: u128 = utf16_total(landed);
        self.last_commit_len = n as usize;
        let feed = if fresh { Some(landed.to_owned()) } else { None };
        CommitNote { self_commit: true, feed }
    }

    /// The length to remove when the last commit is taken back; nothing while keys
    /// are being typed. After it only one unit is left to remove.
    pub fn cmd_undo_commit(&mut self) -> (r: Option<usize>)
        ensures
            old(self).state.input_buffer@.len() > 0 ==> r is None && *final(self) == *old(self),
            old(self).state.input_buffer@.len() == 0 ==> {
                &&& r == Some(old(self).last_commit_len)
                &&& *final(self) == (Coordinator { last_commit_len: 1, ..*old(self) })
            },
            r is Some <==> old(self).state.input_buffer@.len() == 0,
            r matches Some(n) ==> n == old(self).last_commit_len && final(self).last_commit_len == 1,
    {
        if !self.state.input_buffer.as_str().is_empty() {
            return None;
        }
        let n = self.last_commit_len;
        self.last_commit_len = 1;
        Some(n)
    }

    /// Whether single characters are collected into words.
    pub fn auto_phrase_enabled(&self) -> (r: bool)
        ensures
            r == (!self.engine.is_pinyin && self.engine.codetable.auto_phrase.enabled),
            self.engine.is_pinyin ==> !r,
            !self.engine.is_pinyin && self.engine.codetable.auto_phrase.enabled ==> r,
    {
        !self.engine.is_pinyin && self.engine.codetable.auto_phrase.enabled
    }

    /// How a committed text bears on the characters collected for a word: ideographs
    /// join, anything else ends the collection.
    pub fn feed_auto_phrase(&self, text: &str) -> (r: Feed)
        ensures
            r == (if self.engine.is_pinyin || !self.engine.codetable.auto_phrase.enabled {
                Feed::Ignore
            } else if all_han_chars(text@) {
                Feed::Append
            } else {
                Feed::Terminate
            }),
            self.engine.is_pinyin || !self.engine.codetable.auto_phrase.enabled ==> r == Feed::Ignore,
            !self.engine.is_pinyin && self.engine.codetable.auto_phrase.enabled ==> (r == Feed::Append
                <==> all_han_chars(text@)) && r != Feed::Ignore,
    {
        if !self.auto_phrase_enabled() {
            Feed::Ignore
        } else if all_han(text) {
            Feed::Append
        } else {
            Feed::Terminate
        }
    }

    /// How an event that ends a run of characters bears on the collection.
    pub fn terminate_auto_phrase(&self) -> (r: Feed)
        ensures
            r == (if self.engine.is_pinyin || !self.engine.codetable.auto_phrase.enabled {
                Feed::Ignore
            } else {
                Feed::Terminate
            }),
            r == Feed::Terminate <==> !self.engine.is_pinyin && self.engine.codetable.auto_phrase.enabled,
            r != Feed::Append,
    {
        if self.auto_phrase_enabled() {
            Feed::Terminate
        } else {
            Feed::Ignore
        }
    }

    /// Longest pause, in milliseconds, between characters of one word.
    pub fn auto_phrase_idle_timeout(&self) -> (r: u64)
        ensures
            r == (if self.engine.codetable.auto_phrase.idle_timeout_ms == 0 {
                DEFAULT_IDLE_TIMEOUT_MS
            } else {
                self.engine.codetable.auto_phrase.idle_timeout_ms
            }),
            self.engine.codetable.auto_phrase.idle_timeout_ms > 0 ==> r
                == self.engine.codetable.auto_phrase.idle_timeout_ms,
            self.engine.codetable.auto_phrase.idle_timeout_ms == 0 ==> r == 5000,
    {
        let ms = self.engine.codetable.auto_phrase.idle_timeout_ms;
        if ms == 0 {
            DEFAULT_IDLE_TIMEOUT_MS
        } else {
            ms
        }
    }

    /// Puts a committed text in front of the history.
    pub fn push_commit_history(&mut self, text: &str)
        ensures
            final(self).history() == history_with(old(self).history(), text@),
            *final(self) == (Coordinator {
                recent_commits: final(self).recent_commits,
                ..*old(self)
            }),
    {
        if text.is_empty() {
            return;
        }
        let t: String = text.to_owned();
        let ghost h = self.recent_commits@;
        self.recent_commits.push_front(t);
        proof {
            assert(strings_view(self.recent_commits@) =~= seq![text@] + strings_view(h));
        }
        if self.recent_commits.len() > HISTORY_LIMIT {
            let ghost w = self.recent_commits@;
            self.recent_commits.truncate(HISTORY_LIMIT);
            proof {
                assert(strings_view(self.recent_commits@) =~= strings_view(w).take(
                    HISTORY_LIMIT as int,
                ));
            }
        }
    }

    /// Whether selecting `text` from `source` is written to the frequency table.
    pub open spec fn keeps_frequency(
        self,
        text: Seq<char>,
        source: CandidateSource,
        policy: FreqPolicy,
    ) -> bool {
        &&& text.len() > 0
        &&& source != CandidateSource::Phrase
        &&& self.engine.has_store
        &&& policy.enabled
        &&& !policy.excluded
        &&& policy.schema is Some
    }

    /// The record that selecting `text` from `source` adds to.
    pub open spec fn frequency_key(
        self,
        code: Seq<char>,
        text: Seq<char>,
        source: CandidateSource,
        policy: FreqPolicy,
    ) -> Option<FreqKeyModel> {
        if self.keeps_frequency(text, source, policy) {
            Some(FreqKeyModel { schema: policy.schema->0@, code, text })
        } else {
            None
        }
    }

    /// Records a selection: the text always joins the history; a frequency is
    /// written unless the text comes from a phrase, whose wording may change from
    /// day to day, or the policy keeps it out.
    pub fn record_selection_in(
        &mut self,
        code: &str,
        text: &str,
        source: CandidateSource,
        policy: &FreqPolicy,
    ) -> (r: Option<FreqWrite>)
        ensures
            final(self).history() == history_with(old(self).history(), text@),
            *final(self) == (Coordinator {
                recent_commits: final(self).recent_commits,
                ..*old(self)
            }),
            write_key(r) == old(self).frequency_key(code@, text@, source, *policy),
    {
        if text.is_empty() {
            return None;
        }
        self.push_commit_history(text);
        if source == CandidateSource::Phrase || !self.engine.has_store || !policy.enabled
            || policy.excluded {
            return None;
        }
        match &policy.schema {
            Some(schema) => Some(
                FreqWrite { schema: schema.clone(), code: code.to_owned(), text: text.to_owned() },
            ),
            None => None,
        }
    }
}

/// What is known so far about a word that could be made of collected characters.
#[derive(Debug)]
pub struct FlushReplies {
    /// The dictionary index is built.
    pub ready: Option<bool>,
    /// Code of the word; the inner option is empty when it has none.
    pub code: Option<Option<String>>,
    /// Codes the dictionary holds the word under, separated by `/`.
    pub existing: Option<String>,
    /// Schema that would own the word.
    pub schema: Option<Option<String>>,
    /// The user dictionary holds the word under that code.
    pub known: Option<bool>,
}

/// What to do next about a word that could be made of collected characters.
#[derive(Debug)]
pub enum FlushStep {
    /// Nothing is learned.
    Stop,
    /// Ask whether the index of the schema is built.
    AskReady { schema: String },
    /// Nothing is learned; build the index of the schema for the next time.
    Warm { schema: String },
    /// Ask for the code of the word under the schema.
    AskCode { schema: String },
    /// Ask which codes the schema's dictionary holds the word under.
    AskExisting { schema: String },
    /// Ask which schema would own the word.
    AskOwner,
    /// Ask whether the user dictionary holds the word under the code.
    AskKnown { schema: String, code: String },
    /// Write the word to the temporary layer.
    Write { schema: String, code: String, weight: i32, boundary: u64 },
}

/// What a [`FlushStep`] says.
pub ghost enum FlushModel {
    Stop,
    AskReady { schema: Seq<char> },
    Warm { schema: Seq<char> },
    AskCode { schema: Seq<char> },
    AskExisting { schema: Seq<char> },
    AskOwner,
    AskKnown { schema: Seq<char>, code: Seq<char> },
    Write { schema: Seq<char>, code: Seq<char>, weight: i32, boundary: u64 },
}

impl View for FlushStep {
    type V = FlushModel;

    open spec fn view(&self) -> FlushModel {
        match *self {
            FlushStep::Stop => FlushModel::Stop,
            FlushStep::AskReady { schema } => FlushModel::AskReady { schema: schema@ },
            FlushStep::Warm { schema } => FlushModel::Warm { schema: schema@ },
            FlushStep::AskCode { schema } => FlushModel::AskCode { schema: schema@ },
            FlushStep::AskExisting { schema } => FlushModel::AskExisting { schema: schema@ },
            FlushStep::AskOwner => FlushModel::AskOwner,
            FlushStep::AskKnown { schema, code } => FlushModel::AskKnown {
                schema: schema@,
                code: code@,
            },
            FlushStep::Write { schema, code, weight, boundary } => FlushModel::Write {
                schema: schema@,
                code: code@,
                weight,
                boundary,
            },
        }
    }
}

impl Coordinator {
    /// The schema whose rules encode a collected word: the primary code table of a
    /// mixed schema, else the schema in use.
    pub open spec fn encoding_schema(self) -> Option<Seq<char>> {
        if self.engine.schema_type == Some(EngineType::Mixed) {
            opt_view(self.engine.mixed_primary)
        } else {
            Some(self.engine.active_schema@)
        }
    }

    /// The schema whose rules encode a collected word.
    pub fn auto_phrase_schema(&self) -> (r: Option<String>)
        ensures
            opt_view(r) == self.encoding_schema(),
    {
        let mixed = match self.engine.schema_type {
            Some(t) => t == EngineType::Mixed,
            None => false,
        };
        if mixed {
            crate::candidate::clone_opt(&self.engine.mixed_primary)
        } else {
            Some(self.engine.active_schema.clone())
        }
    }

    /// The next step about a collected word, given what is known so far.
    pub open spec fn flush_next(self, word: bool, k: FlushReplies) -> FlushModel {
        match self.encoding_schema() {
            None => FlushModel::Stop,
            Some(schema) => if !word {
                FlushModel::Stop
            } else if k.ready is None {
                FlushModel::AskReady { schema }
            } else if k.ready == Some(false) {
                FlushModel::Warm { schema }
            } else if k.code is None {
                FlushModel::AskCode { schema }
            } else if k.code->0 is None {
                FlushModel::Stop
            } else if k.existing is None {
                FlushModel::AskExisting { schema }
            } else if split_parts(k.existing->0@, '/').contains(k.code->0->0@) {
                FlushModel::Stop
            } else if !self.engine.has_store {
                FlushModel::Stop
            } else if k.schema is None {
                FlushModel::AskOwner
            } else if k.schema->0 is None {
                FlushModel::Stop
            } else if k.known is None {
                FlushModel::AskKnown { schema: k.schema->0->0@, code: k.code->0->0@ }
            } else if k.known == Some(true) {
                FlushModel::Stop
            } else {
                FlushModel::Write {
                    schema: k.schema->0->0@,
                    code: k.code->0->0@,
                    weight: LEARN_ADD_WEIGHT,
                    boundary: 0,
                }
            },
        }
    }

    /// Decides the next step about collected characters. `word` says whether they
    /// have the length of a word; without that, without a schema to encode by, with
    /// an index that is not built yet, with no code, or with a word that some
    /// dictionary holds under that code already, nothing is learned.
    pub fn flush_auto_phrase(&self, word: bool, known: &FlushReplies) -> (r: FlushStep)
        ensures
            r@ == self.flush_next(word, *known),
    {
        let encode = match self.auto_phrase_schema() {
            Some(s) => s,
            None => {
                return FlushStep::Stop;
            },
        };
        if !word {
            return FlushStep::Stop;
        }
        match known.ready {
            None => {
                return FlushStep::AskReady { schema: encode };
            },
            Some(false) => {
                return FlushStep::Warm { schema: encode };
            },
            Some(true) => {},
        }
        let code = match &known.code {
            None => {
                return FlushStep::AskCode { schema: encode };
            },
            Some(None) => {
                return FlushStep::Stop;
            },
            Some(Some(c)) => c,
        };
        match &known.existing {
            None => {
                return FlushStep::AskExisting { schema: encode };
            },
            Some(list) => {
                let parts = split(list.as_str(), '/');
                if list_has(&parts, code.as_str()) {
                    return FlushStep::Stop;
                }
            },
        }
        if !self.engine.has_store {
            return FlushStep::Stop;
        }
        let owner = match &known.schema {
            None => {
                return FlushStep::AskOwner;
            },
            Some(None) => {
                return FlushStep::Stop;
            },
            Some(Some(s)) => s,
        };
        match known.known {
            None => FlushStep::AskKnown { schema: owner.clone(), code: code.clone() },
            Some(true) => FlushStep::Stop,
            Some(false) => FlushStep::Write {
                schema: owner.clone(),
                code: code.clone(),
                weight: LEARN_ADD_WEIGHT,
                boundary: 0,
            },
        }
    }

    /// Nothing is written unless the index was ready, the word has a code, no
    /// dictionary holds the word under it, and an owner is known.
    pub proof fn flush_writes_only_new_words(self, word: bool, k: FlushReplies)
        requires
            self.flush_next(word, k) is Write,
        ensures
            word,
            k.ready == Some(true),
            k.code matches Some(Some(c)) && k.existing matches Some(e) && !split_parts(
                e@,
                '/',
            ).contains(c@),
            k.known == Some(false),
            k.schema matches Some(Some(_)),
            self.engine.has_store,
    {
    }
}

/// The texts of segments are those of the front and those of the rest, and a single segment
/// has its own; the same holds of their codes.
pub proof fn segments_join_in_order(a: Seq<SegModel>, b: Seq<SegModel>, g: SegModel)
    ensures
        seg_texts(a + b) == seg_texts(a) + seg_texts(b),
        seg_codes(a + b) == seg_codes(a) + seg_codes(b),
        seg_texts(seq![g]) == g.text,
        seg_codes(seq![g]) == g.code,
        seg_texts(Seq::empty()).len() == 0,
        seg_codes(Seq::empty()).len() == 0,
    decreases b.len(),
{
    reveal_with_fuel(seg_texts, 2);
    reveal_with_fuel(seg_codes, 2);
    assert(seq![g].drop_last() =~= Seq::<SegModel>::empty());
    assert(seg_texts(seq![g]) =~= g.text);
    assert(seg_codes(seq![g]) =~= g.code);
    if b.len() == 0 {
        assert(a + b =~= a);
        assert(seg_texts(a) + seg_texts(b) =~= seg_texts(a));
        assert(seg_codes(a) + seg_codes(b) =~= seg_codes(a));
    } else {
        segments_join_in_order(a, b.drop_last(), g);
        assert((a + b).drop_last() =~= a + b.drop_last());
        assert(seg_texts(a + b) =~= seg_texts(a) + seg_texts(b));
        assert(seg_codes(a + b) =~= seg_codes(a) + seg_codes(b));
    }
}

proof fn lemma_tail_chars(s: Seq<SegModel>, k: int)
    requires
        0 <= k <= s.len(),
    ensures
        tail_chars(s, k) == seg_texts(s.skip(k)).len(),
    decreases s.len() - k,
{
    if k < s.len() {
        lemma_tail_chars(s, k + 1);
        assert(s.skip(k) =~= seq![s[k]] + s.skip(k + 1));
        segments_join_in_order(seq![s[k]], s.skip(k + 1), s[k]);
    } else {
        assert(s.skip(k) =~= Seq::empty());
    }
}

proof fn lemma_fit_from(s: Seq<SegModel>, k: int, max_chars: int)
    requires
        0 <= k <= s.len(),
        tail_chars(s, k) <= max_chars,
    ensures
        0 <= fit_from(s, k, max_chars) <= k,
        tail_chars(s, fit_from(s, k, max_chars)) <= max_chars,
        fit_from(s, k, max_chars) > 0 ==> tail_chars(s, fit_from(s, k, max_chars) - 1) > max_chars,
    decreases k,
{
    if k > 0 && tail_chars(s, k - 1) <= max_chars {
        lemma_fit_from(s, k - 1, max_chars);
    }
}

/// Whole segments are kept from the back, as many as fit into the limit: those kept are no
/// longer than it, and with one more they would be. Without a limit all are kept.
pub proof fn as_many_segments_are_kept_as_fit(s: Seq<SegModel>, max_chars: int)
    requires
        max_chars >= 0,
    ensures
        max_chars == 0 ==> kept_start(s, max_chars) == 0,
        max_chars > 0 ==> {
            let k = kept_start(s, max_chars);
            &&& 0 <= k <= s.len()
            &&& seg_texts(s.skip(k)).len() <= max_chars
            &&& k > 0 ==> seg_texts(s.skip(k - 1)).len() > max_chars
        },
{
    if max_chars > 0 {
        let n = s.len() as int;
        lemma_fit_from(s, n, max_chars);
        let k = kept_start(s, max_chars);
        lemma_tail_chars(s, k);
        if k > 0 {
            lemma_tail_chars(s, k - 1);
        }
    }
}

proof fn lemma_tail_chars_fall(s: Seq<SegModel>, k: int)
    requires
        0 <= k <= s.len(),
    ensures
        tail_chars(s, k) <= tail_chars(s, 0),
    decreases k,
{
    if k > 0 {
        lemma_tail_chars_fall(s, k - 1);
    }
}

/// A text within the limit is kept whole.
pub proof fn short_texts_are_kept_whole(s: Seq<SegModel>, max_chars: int)
    requires
        max_chars == 0 || 0 < seg_texts(s).len() <= max_chars,
    ensures
        kept_start(s, max_chars) == 0,
{
    if max_chars > 0 {
        let k = kept_start(s, max_chars);
        assert(s.skip(0) =~= s);
        lemma_tail_chars(s, 0);
        lemma_fit_from(s, s.len() as int, max_chars);
        if k > 0 {
            lemma_tail_chars_fall(s, k - 1);
        }
    }
}

/// Several pinyin choices that make a word of a length that may be learned are learned as
/// one word, in a mixed schema as in any other that is no code table.
pub proof fn pinyin_words_are_learned(
    c: Coordinator,
    all: Seq<SegModel>,
    single_is_synthesized: bool,
)
    requires
        c.teaches_pinyin(all),
    ensures
        c.learned_segs(all) == all,
        c.learnable(all, all, single_is_synthesized),
{
    short_texts_are_kept_whole(all, c.engine.auto_learn.max_word_length as int);
    assert(all.skip(0) =~= all);
    assert(all_from(all, all[0].source)) by {
        assert(all[0].source == CandidateSource::Pinyin);
    }
}

/// Outside a mixed schema the sources of the choices do not count: a word of a length that
/// may be learned is learned, from several choices or from one that was synthesized.
pub proof fn unmixed_words_are_learned(
    c: Coordinator,
    all: Seq<SegModel>,
    single_is_synthesized: bool,
)
    requires
        c.engine.schema_type != Some(EngineType::Mixed),
        !c.engine.is_codetable,
        c.engine.auto_learn.enabled,
        c.engine.has_store,
        all.len() >= 2 || all.len() == 1 && single_is_synthesized,
        seg_codes(all).len() > 0,
        seg_texts(all).len() >= 2,
        seg_texts(all).len() >= c.engine.auto_learn.min_word_length,
        c.engine.auto_learn.max_word_length == 0 || seg_texts(all).len()
            <= c.engine.auto_learn.max_word_length,
    ensures
        c.learned_segs(all) == all,
        c.learnable(all, all, single_is_synthesized),
{
    short_texts_are_kept_whole(all, c.engine.auto_learn.max_word_length as int);
    assert(all.skip(0) =~= all);
}

/// Nothing is learned in a code table, with learning switched off, without a store, from a
/// single choice that was not synthesized, without a code, from a text that is too short or
/// too long, and in a mixed schema from choices of several sources or of the code table.
pub proof fn words_are_learned_only_where_they_may_be(
    c: Coordinator,
    all: Seq<SegModel>,
    kept: Seq<SegModel>,
    single_is_synthesized: bool,
)
    requires
        c.learnable(all, kept, single_is_synthesized),
    ensures
        !c.engine.is_codetable,
        c.engine.auto_learn.enabled,
        c.engine.has_store,
        all.len() > 0,
        all.len() == 1 ==> single_is_synthesized,
        all.len() > 1 ==> kept.len() > 1,
        seg_codes(kept).len() > 0,
        c.engine.auto_learn.min_word_length == 0 ==> seg_texts(kept).len() >= 2,
        seg_texts(kept).len() >= c.engine.auto_learn.min_word_length,
        c.engine.auto_learn.max_word_length > 0 ==> seg_texts(kept).len()
            <= c.engine.auto_learn.max_word_length,
        c.engine.schema_type == Some(EngineType::Mixed) ==> forall|i: int, j: int|
            0 <= i < kept.len() && 0 <= j < kept.len() ==> (#[trigger] kept[i]).source == (
            #[trigger] kept[j]).source && kept[i].source != CandidateSource::CodeTable,
{
    if c.engine.schema_type == Some(EngineType::Mixed) {
        assert forall|i: int, j: int| 0 <= i < kept.len() && 0 <= j < kept.len() implies (
        #[trigger] kept[i]).source == (#[trigger] kept[j]).source && kept[i].source
            != CandidateSource::CodeTable by {
            assert(kept[0].source == kept[0].source);
        }
    }
}

/// Joining one more segment keeps the syllable boundaries found so far and adds its own,
/// moved to where its code starts. There are none in all where a segment has none, or where
/// the codes together are too long for the bits.
pub proof fn boundaries_move_with_their_codes(s: Seq<SegModel>, g: SegModel, b: u64, at: u64)
    requires
        seg_boundaries(s) == Some(b),
        at == byte_size(seg_codes(s)),
    ensures
        g.boundary == 0 ==> seg_boundaries(s.push(g)) is None,
        at + byte_size(g.code) > 64 ==> seg_boundaries(s.push(g)) is None,
        g.boundary != 0 && at < 64 && at + byte_size(g.code) <= 64 ==> {
            &&& seg_boundaries(s.push(g)) is Some
            &&& forall|j: u64|
                j < 64 ==> ((#[trigger] (seg_boundaries(s.push(g))->0 >> j)) & 1 == 1 <==> (b >> j)
                    & 1 == 1 || (j >= at && (g.boundary >> ((j - at) as u64)) & 1 == 1))
        },
{
    assert(s.push(g).drop_last() =~= s);
    assert(s.push(g).last() == g);
    if g.boundary != 0 && at < 64 && at + byte_size(g.code) <= 64 {
        let l = g.boundary;
        let r = seg_boundaries(s.push(g))->0;
        assert(r == (b | (l << at)));
        assert forall|j: u64| j < 64 implies ((#[trigger] (r >> j)) & 1 == 1 <==> (b >> j) & 1 == 1
            || (j >= at && (l >> ((j - at) as u64)) & 1 == 1)) by {
            if j >= at {
                let d = (j - at) as u64;
                assert(((b | (l << at)) >> j) & 1 == 1 <==> (b >> j) & 1 == 1 || (l >> d) & 1 == 1)
                    by (bit_vector)
                    requires
                        at < 64,
                        j < 64,
                        d < 64,
                        j == at + d,
                ;
            } else {
                assert(((b | (l << at)) >> j) & 1 == 1 <==> (b >> j) & 1 == 1) by (bit_vector)
                    requires
                        at < 64,
                        j < at,
                ;
            }
        }
    }
}

/// A segment that stands alone keeps its boundaries.
pub proof fn a_single_segment_keeps_its_boundaries(g: SegModel)
    requires
        byte_size(g.code) <= 64,
    ensures
        seg_boundaries(seq![g]) == (if g.boundary != 0 {
            Some(g.boundary)
        } else {
            None
        }),
        seg_boundaries(Seq::empty()) == Some(0u64),
{
    let e = Seq::<SegModel>::empty();
    assert(seq![g].drop_last() =~= e);
    assert(seg_codes(e) =~= Seq::<char>::empty());
    let l = g.boundary;
    assert((0u64 | (l << 0u64)) == l) by (bit_vector);
}

/// A commit leaves the newest sixteen texts, in their order: what was there moves back by
/// one place, and an empty text changes nothing.
pub proof fn commits_push_the_history_back(h: Seq<Seq<char>>, text: Seq<char>, i: int)
    ensures
        text.len() == 0 ==> history_with(h, text) == h,
        text.len() > 0 && h.len() < 16 ==> history_with(h, text).len() == h.len() + 1,
        text.len() > 0 && h.len() >= 16 ==> history_with(h, text).len() == 16,
        text.len() > 0 && 0 < i < history_with(h, text).len() ==> history_with(h, text)[i] == h[i
            - 1],
{
}

/// What lands at once is the text an action inserts, puts in place of another, or commits
/// ahead of a composition; every other action lands nothing. Only text that is inserted is a
/// fresh piece.
pub proof fn actions_land_their_text(a: ActionModel)
    ensures
        match a {
            ActionModel::InsertText { text, .. } => landed_text(a) == text && fresh_text(a) == text,
            ActionModel::InsertTextWithCursor { text, .. } => landed_text(a) == text && fresh_text(
                a,
            ) == text,
            ActionModel::ReplaceBackward { text, .. } => landed_text(a) == text && fresh_text(
                a,
            ).len() == 0,
            ActionModel::CommitAndHoldComposition { commit_text, .. } => landed_text(a)
                == commit_text && fresh_text(a).len() == 0,
            ActionModel::CommitThenDeferComposition { commit_text, .. } => landed_text(a)
                == commit_text && fresh_text(a).len() == 0,
            _ => landed_text(a).len() == 0 && fresh_text(a).len() == 0,
        },
{
}

/// A choice is counted wherever it can be: any text that is no phrase, in a schema that keeps
/// frequencies, under the code it was chosen by. Phrases are never counted, nor is anything
/// without a store, with frequencies off, in a block that is left out, or without an owner.
pub proof fn choices_are_counted_where_they_can_be(
    c: Coordinator,
    code: Seq<char>,
    text: Seq<char>,
    source: CandidateSource,
    policy: FreqPolicy,
)
    ensures
        c.frequency_key(code, text, source, policy) is Some <==> text.len() > 0 && source
            != CandidateSource::Phrase && c.engine.has_store && policy.enabled && !policy.excluded
            && policy.schema is Some,
        c.frequency_key(code, text, source, policy) matches Some(k) ==> k.code == code && k.text
            == text && Some(k.schema) == opt_view(policy.schema),
{
}

/// A word that has a code, that no dictionary holds under it and that someone owns is
/// written as a learned word, once all of that is known.
pub proof fn flush_writes_every_new_word(
    c: Coordinator,
    k: FlushReplies,
    code: String,
    existing: String,
    owner: String,
)
    requires
        c.engine.schema_type == Some(EngineType::Mixed) ==> c.engine.mixed_primary is Some,
        c.engine.has_store,
        k.ready == Some(true),
        k.code == Some(Some(code)),
        k.existing == Some(existing),
        !split_parts(existing@, '/').contains(code@),
        k.schema == Some(Some(owner)),
        k.known == Some(false),
    ensures
        c.flush_next(true, k) == (FlushModel::Write {
            schema: owner@,
            code: code@,
            weight: 800,
            boundary: 0,
        }),
{
}

/// Each thing is asked about once, and of the schema that encodes the word: the primary code
/// table of a mixed schema, and else the schema in use. The owner is asked whether it has the
/// word under its code.
pub proof fn flush_asks_for_what_is_missing(c: Coordinator, word: bool, k: FlushReplies)
    ensures
        ({
            let schema = if c.engine.schema_type == Some(EngineType::Mixed) {
                opt_view(c.engine.mixed_primary)
            } else {
                Some(c.engine.active_schema@)
            };
            match c.flush_next(word, k) {
                FlushModel::AskReady { schema: s } => k.ready is None && schema == Some(s),
                FlushModel::Warm { schema: s } => k.ready == Some(false) && schema == Some(s),
                FlushModel::AskCode { schema: s } => k.code is None && schema == Some(s),
                FlushModel::AskExisting { schema: s } => k.existing is None && schema == Some(s),
                FlushModel::AskOwner => k.schema is None,
                FlushModel::AskKnown { schema: s, code } => k.known is None && (
                k.schema matches Some(Some(o)) && o@ == s) && (k.code matches Some(Some(x)) && x@
                    == code),
                _ => true,
            }
        }),
{
}

/// Nothing is learned, and nothing asked, of characters that make no word or have no schema
/// to encode them; what is known to be held already, to have no code or to have no owner is
/// left alone as well.
pub proof fn flush_stops_where_nothing_is_to_learn(c: Coordinator, word: bool, k: FlushReplies)
    requires
        ({
            ||| !word
            ||| c.engine.schema_type == Some(EngineType::Mixed) && c.engine.mixed_primary is None
            ||| k.ready == Some(true) && k.code == Some(None::<String>)
            ||| k.ready == Some(true) && (k.code matches Some(Some(x)) && k.existing matches Some(e)
                && split_parts(e@, '/').contains(x@))
            ||| k.ready == Some(true) && k.code is Some && k.existing is Some && !c.engine.has_store
            ||| k.ready == Some(true) && k.code is Some && k.existing is Some && k.schema == Some(
                None::<String>,
            )
            ||| k.ready == Some(true) && k.code is Some && k.existing is Some && k.schema is Some
                && k.known == Some(true)
        }),
    ensures
        c.flush_next(word, k) == FlushModel::Stop,
{
}

/// A word that is long enough is never dropped before it is known why: with a schema to
/// encode it the index is asked for first, then the code, then who holds it, then the owner.
pub proof fn flush_follows_its_questions(c: Coordinator, k: FlushReplies)
    requires
        c.engine.schema_type != Some(EngineType::Mixed) || c.engine.mixed_primary is Some,
        c.engine.has_store,
    ensures
        k.ready is None ==> c.flush_next(true, k) is AskReady,
        k.ready == Some(false) ==> c.flush_next(true, k) is Warm,
        k.ready == Some(true) && k.code is None ==> c.flush_next(true, k) is AskCode,
        k.ready == Some(true) && k.existing is None ==> (k.code matches Some(Some(_))
            ==> c.flush_next(true, k) is AskExisting),
        k.ready == Some(true) && k.schema is None ==> (k.code matches Some(Some(x)) ==> (
        k.existing matches Some(e) ==> (!split_parts(e@, '/').contains(x@) ==> c.flush_next(true, k)
            is AskOwner))),
        k.ready == Some(true) && k.known is None ==> (k.code matches Some(Some(x)) ==> (
        k.existing matches Some(e) ==> (k.schema matches Some(Some(_)) ==> (!split_parts(
            e@,
            '/',
        ).contains(x@) ==> c.flush_next(true, k) is AskKnown)))),
{
}

} // verus!

//! Building the list of an input: the stages of [`crate::assembly`] in the order in
//! which they follow each other, with the questions to the host between them.

use crate::assembly::{
    a_head_takes_only_its_own_texts, all_expanded, all_marked, all_ranked, any_markup,
    apply_filter, assign_ranks, the_scope_ends_before_the_first_outsider,
    finalize_candidates, in_scope_len, mark_common, out_of_scope, put_head_first, shows_text,
    with_exact_phrases, with_prefix_phrases, without_texts_of, Assembly, CommonVerdict,
    ConvertResult, DictExpansion, FilterOutcome, InputOutcome, OutcomeFacts, PhraseHit, PrefixUse,
};
use crate::candidate::{models, opt_view, strings_view, Candidate, CandidateModel, MatchRank};
use crate::command::CommandRequest;
use crate::coordinator::{Coordinator, EngineType};
use crate::ranking::{
    display_sorted, first_of_each_text, folded_duplicates, folded_models,
    folding_keeps_the_first_of_each_text, folding_leaves_each_text_once, in_display_order,
    nothing_is_shown_before_the_first, shown_before, sorting_orders_and_keeps,
    what_is_folded_shows_the_same_text, DisplayRule, Folded,
};
use crate::state::State;
use crate::text::byte_size;
use vstd::prelude::*;
use vstd::string::*;

verus! {

/// What the host found for an input.
#[derive(Debug)]
pub struct Gathered {
    /// What the engine returned.
    pub result: ConvertResult,
    /// What the syntax in each of its candidates stands for.
    pub expansions: Vec<DictExpansion>,
    /// What the syntax in each of its completion hints stands for.
    pub hint_expansions: Vec<DictExpansion>,
    /// Phrases take part in this schema.
    pub phrases_open: bool,
    /// Phrases whose code is the input.
    pub exact: Vec<PhraseHit>,
    /// Phrases whose code starts with the input.
    pub prefix: Vec<PhraseHit>,
}

/// What a list that is being built waits for.
#[derive(Clone, Copy, PartialEq, Eq, Structural, Debug)]
pub enum BuildStage {
    /// Which candidates are common, and how closely each matches.
    Rank,
    /// The list with the codes of what was folded taken over.
    Absorb,
    /// What the retrieval scope keeps.
    Scope,
    /// The front of the list in the order frequencies give it.
    Rerank,
    /// The list with the user's adjustments.
    Adjust,
    /// Which of those that could step in for an empty list are common.
    PoolMark,
    /// What the retrieval scope keeps of them.
    PoolScope,
    /// They with the user's adjustments.
    PoolAdjust,
    /// How closely each of them matches.
    PoolRank,
    /// The list with short codes yielding to longer ones.
    Yield,
    /// The forms of the input that lead the list in English.
    Head,
    /// Nothing: the list is shown.
    Done,
}

/// An answer to what a list waits for.
#[derive(Debug)]
pub enum BuildReply {
    /// The verdicts and the ranks, one for each candidate.
    Ranked { verdicts: Option<Vec<CommonVerdict>>, ranks: Vec<MatchRank> },
    /// The verdicts, one for each candidate.
    Marked(Option<Vec<CommonVerdict>>),
    /// The ranks, one for each candidate.
    Measured(Vec<MatchRank>),
    /// What the retrieval scope keeps.
    Scoped(FilterOutcome),
    /// A list, and whether the user fixed a place in it.
    Adjusted { list: Vec<Candidate>, pinned: bool },
    /// A list.
    Listed(Vec<Candidate>),
}

/// A list that is being built for an input.
#[derive(Debug)]
pub struct Build {
    pub input: String,
    pub assembly: Assembly,
    pub stage: BuildStage,
}

impl Build {
    /// The same input at another stage with another list.
    pub open spec fn moved(self, stage: BuildStage, list: Vec<Candidate>) -> Build {
        Build { assembly: Assembly { list, ..self.assembly }, stage, ..self }
    }

    /// The same input at another stage with another pool.
    pub open spec fn pooled(self, stage: BuildStage, pool: Vec<Candidate>) -> Build {
        Build { assembly: Assembly { pool, ..self.assembly }, stage, ..self }
    }

    /// Whether `reply` answers what is waited for.
    pub open spec fn answered_by(self, reply: BuildReply) -> bool {
        match self.stage {
            BuildStage::Rank => reply is Ranked,
            BuildStage::Scope | BuildStage::PoolScope => reply is Scoped,
            BuildStage::Adjust | BuildStage::PoolAdjust => reply is Adjusted,
            BuildStage::PoolMark => reply is Marked,
            BuildStage::PoolRank => reply is Measured,
            BuildStage::Absorb
            | BuildStage::Rerank
            | BuildStage::Yield
            | BuildStage::Head => reply is Listed,
            BuildStage::Done => false,
        }
    }
}

/// What follows the user's adjustments: something may step in for an empty list.
pub open spec fn after_adjusting(list_len: nat, spare: nat) -> BuildStage {
    if list_len == 0 && spare > 0 {
        BuildStage::PoolMark
    } else {
        BuildStage::Yield
    }
}

/// How far a list has come.
pub open spec fn stage_number(stage: BuildStage) -> int {
    match stage {
        BuildStage::Rank => 0,
        BuildStage::Absorb => 1,
        BuildStage::Scope => 2,
        BuildStage::Rerank => 3,
        BuildStage::Adjust => 4,
        BuildStage::PoolMark => 5,
        BuildStage::PoolScope => 6,
        BuildStage::PoolAdjust => 7,
        BuildStage::PoolRank => 8,
        BuildStage::Yield => 9,
        BuildStage::Head => 10,
        BuildStage::Done => 11,
    }
}

/// Candidates with the syntax in them expanded.
pub open spec fn finalized(
    s: Seq<CandidateModel>,
    e: Seq<DictExpansion>,
    input: Seq<char>,
) -> Seq<CandidateModel> {
    if any_markup(s) {
        all_expanded(s, e, input)
    } else {
        s
    }
}

/// A list with the verdicts and the ranks noted.
pub open spec fn noted(
    s: Seq<CandidateModel>,
    verdicts: Option<Vec<CommonVerdict>>,
    ranks: Seq<MatchRank>,
) -> Seq<CandidateModel> {
    all_ranked(
        match verdicts {
            Some(v) => all_marked(s, v@),
            None => s,
        },
        ranks,
    )
}

/// A list under the retrieval scope.
pub open spec fn scoped(state: State, outcome: FilterOutcome) -> Seq<CandidateModel> {
    if state.scope_relaxed {
        models(outcome.kept@) + out_of_scope(models(outcome.filtered@))
    } else {
        models(outcome.kept@)
    }
}

/// A list with candidates in front that take the place of those with the same text.
pub open spec fn headed(s: Seq<CandidateModel>, head: Seq<CandidateModel>) -> Seq<CandidateModel> {
    if head.len() == 0 {
        s
    } else {
        head + without_texts_of(s, head)
    }
}

impl Coordinator {
    /// How the list of an input is ordered.
    pub open spec fn rule_for(self, input: Seq<char>) -> DisplayRule {
        DisplayRule {
            ignore_weight: self.engine.ignores_weight,
            mixed: self.engine.engine_type == Some(EngineType::Mixed),
            input_len: byte_size(input),
            by_text: false,
        }
    }

    /// How the list of an input is ordered.
    pub fn display_rule(&self, input: &str) -> (r: DisplayRule)
        ensures
            r == self.rule_for(input@),
    {
        let mixed = match self.engine.engine_type {
            Some(t) => t == EngineType::Mixed,
            None => false,
        };
        DisplayRule {
            ignore_weight: self.engine.ignores_weight,
            mixed,
            input_len: input.len(),
            by_text: false,
        }
    }

    /// The list an input starts with, in no order yet: what the engine found, the
    /// phrases with this code, and, where they join it, the phrases whose code starts
    /// with it.
    pub open spec fn gathered_list(self, input: Seq<char>, g: Gathered) -> Seq<CandidateModel> {
        let found = self.found_list(input, g);
        if g.phrases_open && self.prefix_use_of(found.len() == 0, input) == PrefixUse::Append {
            with_prefix_phrases(found, g.prefix@, input, !self.engine.is_codetable)
        } else {
            found
        }
    }

    /// What the engine found, and the phrases with this code.
    pub open spec fn found_list(self, input: Seq<char>, g: Gathered) -> Seq<CandidateModel> {
        let list = finalized(models(g.result.candidates@), g.expansions@, input);
        if g.phrases_open {
            with_exact_phrases(list, g.exact@, input)
        } else {
            list
        }
    }

    /// The phrases that step in when nothing else is found.
    pub open spec fn gathered_pool(self, input: Seq<char>, g: Gathered) -> Seq<CandidateModel> {
        let found = self.found_list(input, g);
        if g.phrases_open && self.prefix_use_of(found.len() == 0, input) == PrefixUse::Pool {
            with_prefix_phrases(Seq::empty(), g.prefix@, input, !self.engine.is_codetable)
        } else {
            Seq::empty()
        }
    }

    /// Takes over what the host found for the input of the state.
    pub fn gather_candidates(&self, state: &mut State, g: Gathered) -> (a: Assembly)
        requires
            g.expansions@.len() == g.result.candidates@.len(),
            g.hint_expansions@.len() == g.result.completion_hints@.len(),
        ensures
            models(a.list@) == self.gathered_list(old(state).input_buffer@, g),
            models(a.pool@) == self.gathered_pool(old(state).input_buffer@, g),
            models(a.completion@) == finalized(
                models(g.result.completion_hints@),
                g.hint_expansions@,
                old(state).input_buffer@,
            ),
            a.engine_count == g.result.candidates@.len(),
            opt_view(a.intent) == (if g.result.should_commit && g.result.commit_text@.len() > 0 {
                Some(g.result.commit_text@)
            } else {
                None
            }),
            a.should_clear == g.result.should_clear,
            !a.user_pinned,
            final(state).preedit_split_body@ == g.result.preedit_pinyin@,
            final(state).preedit_fp_body@ == g.result.preedit_fullpinyin@,
            final(state).preedit_abbrev_body@ == g.result.preedit_abbrev@,
            final(state).preedit_codetable_body@ == g.result.preedit_codetable@,
            final(state).shadow_code@ == g.result.shadow_code@,
            *final(state) == (State {
                preedit_split_body: final(state).preedit_split_body,
                preedit_fp_body: final(state).preedit_fp_body,
                preedit_abbrev_body: final(state).preedit_abbrev_body,
                preedit_codetable_body: final(state).preedit_codetable_body,
                shadow_code: final(state).shadow_code,
                ..*old(state)
            }),
    {
        Self::adopt_conversion(state, &g.result);
        let r = g.result;
        let input = state.input_buffer.as_str();
        let engine_count = r.candidates.len();
        let completion = finalize_candidates(r.completion_hints, &g.hint_expansions, input);
        let list = finalize_candidates(r.candidates, &g.expansions, input);
        let mut a = Assembly::begin(
            list,
            completion,
            engine_count,
            r.should_commit,
            r.commit_text.as_str(),
            r.should_clear,
        );
        assert(models(a.pool@) =~= Seq::empty());
        if g.phrases_open {
            a.add_exact_phrases(&g.exact, input);
            assert(models(a.list@).len() == a.list@.len());
            let to = self.prefix_use(a.list.len() == 0, input);
            a.add_prefix_phrases(&g.prefix, input, !self.engine.is_codetable, to);
        }
        a
    }

    /// Puts the gathered list into order and keeps the first candidate of each text.
    /// Which candidates are common is noted before, since the order depends on it.
    /// What is dropped comes back with the place of the one that takes over its codes.
    pub fn rank_candidates(
        &self,
        a: &mut Assembly,
        verdicts: &Option<Vec<CommonVerdict>>,
        ranks: &Vec<MatchRank>,
        input: &str,
    ) -> (dropped: Vec<Folded>)
        requires
            verdicts matches Some(v) ==> v@.len() == old(a).list@.len(),
            ranks@.len() == old(a).list@.len(),
        ensures
            *final(a) == (Assembly { list: final(a).list, ..*old(a) }),
            ({
                let sorted = display_sorted(
                    noted(models(old(a).list@), *verdicts, ranks@),
                    self.rule_for(input@),
                );
                &&& models(final(a).list@) == first_of_each_text(sorted)
                &&& folded_models(dropped@) == folded_duplicates(sorted)
            }),
    {
        let rule = self.display_rule(input);
        let mut list: Vec<Candidate> = Vec::new();
        std::mem::swap(&mut list, &mut a.list);
        mark_common(&mut list, verdicts);
        assert(models(list@).len() == list@.len());
        assign_ranks(&mut list, ranks);
        a.list = list;
        a.order_and_fold(rule)
    }

    /// Takes over the list the retrieval scope leaves.
    pub fn scope_candidates(state: &State, a: &mut Assembly, outcome: FilterOutcome)
        ensures
            models(final(a).list@) == scoped(*state, outcome),
            *final(a) == (Assembly { list: final(a).list, ..*old(a) }),
    {
        a.list = apply_filter(state, outcome);
    }

    /// Lets one candidate step in for a list that ended up empty. `pool` is what could,
    /// after the same retrieval scope and the same adjustments as the list.
    pub fn fill_empty_list(&self, a: &mut Assembly, pool: Vec<Candidate>, input: &str)
        ensures
            ({
                let empty = old(a).list@.len() == 0;
                &&& models(final(a).list@) == (if !empty || pool@.len() == 0 {
                    models(old(a).list@)
                } else {
                    seq![
                        display_sorted(
                            models(pool@),
                            (DisplayRule { by_text: true, ..self.rule_for(input@) }),
                        )[0],
                    ]
                })
                &&& *final(a) == (Assembly { list: final(a).list, ..*old(a) })
            }),
    {
        let rule = self.display_rule(input);
        a.complete(pool, rule);
    }

    /// Hands the finished list to the state and says how many candidates the engine
    /// returned. `head` leads the list in English.
    pub fn finish_candidates(
        &self,
        state: &mut State,
        a: &mut Assembly,
        head: Vec<Candidate>,
    ) -> (engine_count: usize)
        ensures
            models(final(state).candidates@) == (if self.engine.is_english {
                headed(models(old(a).list@), models(head@))
            } else {
                models(old(a).list@)
            }),
            *final(state) == (State { candidates: final(state).candidates, ..*old(state) }),
            final(a).list@.len() == 0,
            *final(a) == (Assembly { list: final(a).list, ..*old(a) }),
            engine_count == old(a).engine_count,
    {
        if self.engine.is_english {
            put_head_first(&mut a.list, head);
        }
        a.install(state)
    }

    /// Starts the list of the input of the state with what the host found for it.
    pub fn begin_build(&self, state: &mut State, g: Gathered) -> (b: Build)
        requires
            g.expansions@.len() == g.result.candidates@.len(),
            g.hint_expansions@.len() == g.result.completion_hints@.len(),
        ensures
            b.stage == BuildStage::Rank,
            b.input@ == old(state).input_buffer@,
            models(b.assembly.list@) == self.gathered_list(b.input@, g),
            models(b.assembly.pool@) == self.gathered_pool(b.input@, g),
            models(b.assembly.completion@) == finalized(
                models(g.result.completion_hints@),
                g.hint_expansions@,
                b.input@,
            ),
            b.assembly.engine_count == g.result.candidates@.len(),
            opt_view(b.assembly.intent) == (if g.result.should_commit
                && g.result.commit_text@.len() > 0 {
                Some(g.result.commit_text@)
            } else {
                None
            }),
            b.assembly.should_clear == g.result.should_clear,
            !b.assembly.user_pinned,
            final(state).preedit_split_body@ == g.result.preedit_pinyin@,
            final(state).preedit_fp_body@ == g.result.preedit_fullpinyin@,
            final(state).preedit_abbrev_body@ == g.result.preedit_abbrev@,
            final(state).preedit_codetable_body@ == g.result.preedit_codetable@,
            final(state).shadow_code@ == g.result.shadow_code@,
            *final(state) == (State {
                preedit_split_body: final(state).preedit_split_body,
                preedit_fp_body: final(state).preedit_fp_body,
                preedit_abbrev_body: final(state).preedit_abbrev_body,
                preedit_codetable_body: final(state).preedit_codetable_body,
                shadow_code: final(state).shadow_code,
                ..*old(state)
            }),
    {
        let input = state.input_buffer.clone();
        let assembly = self.gather_candidates(state, g);
        Build { input, assembly, stage: BuildStage::Rank }
    }

    /// What a list becomes with the answer it waits for.
    pub open spec fn builds(
        self,
        b: Build,
        reply: BuildReply,
        n: Build,
        dropped: Seq<(int, CandidateModel)>,
        before: State,
        after: State,
    ) -> bool {
        let list = models(b.assembly.list@);
        let next = models(n.assembly.list@);
        let pool = models(b.assembly.pool@);
        &&& b.stage != BuildStage::Rank ==> dropped.len() == 0
        &&& b.stage != BuildStage::Head ==> after == before
        &&& match (b.stage, reply) {
            (BuildStage::Rank, BuildReply::Ranked { verdicts, ranks }) => {
                let sorted = display_sorted(
                    noted(list, verdicts, ranks@),
                    self.rule_for(b.input@),
                );
                &&& n == b.moved(BuildStage::Absorb, n.assembly.list)
                &&& next == first_of_each_text(sorted)
                &&& dropped == folded_duplicates(sorted)
            },
            (BuildStage::Absorb, BuildReply::Listed(v)) => n == b.moved(BuildStage::Scope, v),
            (BuildStage::Scope, BuildReply::Scoped(outcome)) => {
                &&& n == b.moved(BuildStage::Rerank, n.assembly.list)
                &&& next == scoped(before, outcome)
            },
            (BuildStage::Rerank, BuildReply::Listed(front)) => {
                &&& n == b.moved(BuildStage::Adjust, n.assembly.list)
                &&& next == models(front@) + list.skip(in_scope_len(list))
            },
            (BuildStage::Adjust, BuildReply::Adjusted { list: v, pinned }) => {
                let stage = after_adjusting(
                    v@.len(),
                    b.assembly.pool@.len() + b.assembly.completion@.len(),
                );
                &&& n == (Build {
                    assembly: Assembly {
                        list: v,
                        user_pinned: b.assembly.user_pinned || pinned,
                        pool: n.assembly.pool,
                        completion: n.assembly.completion,
                        ..b.assembly
                    },
                    stage,
                    ..b
                })
                &&& if stage == BuildStage::PoolMark {
                    &&& models(n.assembly.pool@) == models(b.assembly.pool@) + models(
                        b.assembly.completion@,
                    )
                    &&& n.assembly.completion@.len() == 0
                } else {
                    n.assembly.pool == b.assembly.pool && n.assembly.completion
                        == b.assembly.completion
                }
            },
            (BuildStage::PoolMark, BuildReply::Marked(verdicts)) => {
                &&& n == b.pooled(BuildStage::PoolScope, n.assembly.pool)
                &&& models(n.assembly.pool@) == (match verdicts {
                    Some(v) => all_marked(pool, v@),
                    None => pool,
                })
            },
            (BuildStage::PoolScope, BuildReply::Scoped(outcome)) => {
                &&& n == b.pooled(BuildStage::PoolAdjust, n.assembly.pool)
                &&& models(n.assembly.pool@) == scoped(before, outcome)
            },
            (BuildStage::PoolAdjust, BuildReply::Adjusted { list: v, pinned }) => n == (Build {
                assembly: Assembly {
                    pool: v,
                    user_pinned: b.assembly.user_pinned || pinned,
                    ..b.assembly
                },
                stage: BuildStage::PoolRank,
                ..b
            }),
            (BuildStage::PoolRank, BuildReply::Measured(ranks)) => {
                &&& n == (Build {
                    assembly: Assembly {
                        list: n.assembly.list,
                        pool: n.assembly.pool,
                        ..b.assembly
                    },
                    stage: BuildStage::Yield,
                    ..b
                })
                &&& n.assembly.pool@.len() == 0
                &&& next == (if list.len() > 0 || pool.len() == 0 {
                    list
                } else {
                    seq![
                        display_sorted(
                            all_ranked(pool, ranks@),
                            (DisplayRule { by_text: true, ..self.rule_for(b.input@) }),
                        )[0],
                    ]
                })
            },
            (BuildStage::Yield, BuildReply::Listed(v)) => n == b.moved(BuildStage::Head, v),
            (BuildStage::Head, BuildReply::Listed(head)) => {
                &&& n == b.moved(BuildStage::Done, n.assembly.list)
                &&& next.len() == 0
                &&& models(after.candidates@) == (if self.engine.is_english {
                    headed(list, models(head@))
                } else {
                    list
                })
                &&& after == (State { candidates: after.candidates, ..before })
            },
            _ => n == b && dropped.len() == 0 && after == before,
        }
    }

    /// Takes a list one stage further with the answer it waits for; an answer to
    /// something else changes nothing. What is folded away comes back with the place of
    /// the candidate that takes over its codes.
    pub fn build_candidates(&self, state: &mut State, b: Build, reply: BuildReply) -> (r: (
        Build,
        Vec<Folded>,
    ))
        requires
            b.stage == BuildStage::Rank ==> (reply matches BuildReply::Ranked { verdicts, ranks }
                ==> (verdicts matches Some(v) ==> v@.len() == b.assembly.list@.len())
                && ranks@.len() == b.assembly.list@.len()),
            b.stage == BuildStage::PoolMark ==> (reply matches BuildReply::Marked(Some(v))
                ==> v@.len() == b.assembly.pool@.len()),
            b.stage == BuildStage::PoolRank ==> (reply matches BuildReply::Measured(ranks)
                ==> ranks@.len() == b.assembly.pool@.len()),
        ensures
            self.builds(b, reply, r.0, folded_models(r.1@), *old(state), *final(state)),
    {
        let ghost first = b;
        let Build { input, assembly: mut a, stage } = b;
        let none: Vec<Folded> = Vec::new();
        assert(folded_models(none@) =~= Seq::empty());
        assert(models(a.list@).len() == a.list@.len());
        match (stage, reply) {
            (BuildStage::Rank, BuildReply::Ranked { verdicts, ranks }) => {
                let dropped = self.rank_candidates(&mut a, &verdicts, &ranks, input.as_str());
                (Build { input, assembly: a, stage: BuildStage::Absorb }, dropped)
            },
            (BuildStage::Absorb, BuildReply::Listed(v)) => {
                a.list = v;
                (Build { input, assembly: a, stage: BuildStage::Scope }, none)
            },
            (BuildStage::Scope, BuildReply::Scoped(outcome)) => {
                Self::scope_candidates(state, &mut a, outcome);
                (Build { input, assembly: a, stage: BuildStage::Rerank }, none)
            },
            (BuildStage::Rerank, BuildReply::Listed(front)) => {
                a.adopt_rerank(front);
                (Build { input, assembly: a, stage: BuildStage::Adjust }, none)
            },
            (BuildStage::Adjust, BuildReply::Adjusted { list, pinned }) => {
                a.adopt_adjusted(list, pinned);
                let stage = if a.wants_completion() {
                    let pool = a.take_pool();
                    a.pool = pool;
                    BuildStage::PoolMark
                } else {
                    BuildStage::Yield
                };
                (Build { input, assembly: a, stage }, none)
            },
            (BuildStage::PoolMark, BuildReply::Marked(verdicts)) => {
                mark_common(&mut a.pool, &verdicts);
                (Build { input, assembly: a, stage: BuildStage::PoolScope }, none)
            },
            (BuildStage::PoolScope, BuildReply::Scoped(outcome)) => {
                a.pool = apply_filter(state, outcome);
                (Build { input, assembly: a, stage: BuildStage::PoolAdjust }, none)
            },
            (BuildStage::PoolAdjust, BuildReply::Adjusted { list, pinned }) => {
                a.pool = list;
                a.user_pinned = a.user_pinned || pinned;
                (Build { input, assembly: a, stage: BuildStage::PoolRank }, none)
            },
            (BuildStage::PoolRank, BuildReply::Measured(ranks)) => {
                let mut pool: Vec<Candidate> = Vec::new();
                std::mem::swap(&mut pool, &mut a.pool);
                assert(models(pool@).len() == pool@.len());
                assign_ranks(&mut pool, &ranks);
                assert(models(pool@).len() == pool@.len());
                self.fill_empty_list(&mut a, pool, input.as_str());
                (Build { input, assembly: a, stage: BuildStage::Yield }, none)
            },
            (BuildStage::Yield, BuildReply::Listed(v)) => {
                a.list = v;
                (Build { input, assembly: a, stage: BuildStage::Head }, none)
            },
            (BuildStage::Head, BuildReply::Listed(head)) => {
                let _count = self.finish_candidates(state, &mut a, head);
                assert(models(a.list@).len() == a.list@.len());
                (Build { input, assembly: a, stage: BuildStage::Done }, none)
            },
            _ => {
                assert(first == (Build { input, assembly: a, stage }));
                (Build { input, assembly: a, stage }, none)
            },
        }
    }

    /// What the command of the first candidate is evaluated with when it might commit by
    /// itself: its source, and the input. Nothing where the first is no command.
    pub fn first_command(&self, state: &State) -> (r: Option<CommandRequest>)
        ensures
            r is Some <==> state.candidates@.len() > 0 && state.candidates@[0].is_command,
            r matches Some(q) ==> {
                &&& q.src@ == state.candidates@[0].phrase_template@
                &&& q.ctx.input@ == state.input_buffer@
                &&& strings_view(q.ctx.last@) == self.history()
            },
    {
        if state.candidates.len() == 0 || !state.candidates[0].is_command {
            return None;
        }
        Some(
            self.run_command_candidate(
                state.candidates[0].phrase_template.as_str(),
                state.input_buffer.as_str(),
            ),
        )
    }

    /// What an input comes to once its list is shown. The text that `facts` would commit
    /// counts where the engine named none; whether the input is cleared is as the engine
    /// said.
    pub fn build_outcome(&self, state: &State, b: Build, facts: OutcomeFacts) -> (r: InputOutcome)
        ensures
            r@ == self.outcome_of(
                state.input_buffer@,
                models(state.candidates@),
                (OutcomeFacts {
                    intent: if b.assembly.intent is Some {
                        b.assembly.intent
                    } else {
                        facts.intent
                    },
                    should_clear: b.assembly.should_clear,
                    ..facts
                }),
            ),
            b.assembly.intent is Some ==> r@ == self.outcome_of(
                state.input_buffer@,
                models(state.candidates@),
                (OutcomeFacts {
                    intent: b.assembly.intent,
                    should_clear: b.assembly.should_clear,
                    ..facts
                }),
            ),
            b.assembly.intent is None && b.assembly.should_clear == facts.should_clear ==> r@
                == self.outcome_of(state.input_buffer@, models(state.candidates@), facts),
            r@ is Clear ==> b.assembly.should_clear,
    {
        let mut known = facts;
        known.should_clear = b.assembly.should_clear;
        if b.assembly.intent.is_some() {
            known.intent = b.assembly.intent;
        }
        self.input_outcome(state, &known)
    }
}

/// Each answer takes a list nearer to being shown, so it is after no more answers than
/// there are stages.
pub proof fn every_answer_leads_on(
    c: Coordinator,
    b: Build,
    reply: BuildReply,
    n: Build,
    dropped: Seq<(int, CandidateModel)>,
    before: State,
    after: State,
)
    requires
        b.answered_by(reply),
        c.builds(b, reply, n, dropped, before, after),
    ensures
        stage_number(b.stage) < stage_number(n.stage) <= stage_number(BuildStage::Done),
{
}

/// What the engine returned, what it would commit and whether it would clear the input
/// stay as they were found, whatever happens to the list.
pub proof fn findings_survive_the_building(
    c: Coordinator,
    b: Build,
    reply: BuildReply,
    n: Build,
    dropped: Seq<(int, CandidateModel)>,
    before: State,
    after: State,
)
    requires
        c.builds(b, reply, n, dropped, before, after),
    ensures
        n.input == b.input,
        n.assembly.engine_count == b.assembly.engine_count,
        n.assembly.intent == b.assembly.intent,
        n.assembly.should_clear == b.assembly.should_clear,
        b.assembly.user_pinned ==> n.assembly.user_pinned,
{
}

/// Nothing is shown before its place is settled: until the last answer the candidates
/// of the state stay as they are.
pub proof fn the_list_is_shown_at_the_end(
    c: Coordinator,
    b: Build,
    reply: BuildReply,
    n: Build,
    dropped: Seq<(int, CandidateModel)>,
    before: State,
    after: State,
)
    requires
        c.builds(b, reply, n, dropped, before, after),
        n.stage != BuildStage::Done,
    ensures
        after == before,
{
}

/// Whether a list is another in some order.
pub open spec fn rearranges(v: Seq<CandidateModel>, s: Seq<CandidateModel>) -> bool {
    v.to_multiset() == s.to_multiset()
}

/// Whether a list holds nothing but what another holds, and nothing more often.
pub open spec fn thins(v: Seq<CandidateModel>, s: Seq<CandidateModel>) -> bool {
    v.to_multiset().subset_of(s.to_multiset())
}

/// Whether no two candidates show one text.
pub open spec fn texts_distinct(s: Seq<CandidateModel>) -> bool {
    forall|i: int, j: int|
        0 <= i < j < s.len() ==> (#[trigger] s[i]).text != (#[trigger] s[j]).text
}

/// Whether two lists show the same texts in the same order.
pub open spec fn same_texts(v: Seq<CandidateModel>, s: Seq<CandidateModel>) -> bool {
    &&& v.len() == s.len()
    &&& forall|i: int| 0 <= i < s.len() ==> (#[trigger] v[i]).text == s[i].text
}

impl Build {
    /// Whether a list that answers is made of the list handed out: taking over codes
    /// changes no text, reordering moves candidates and no more, and scoping and
    /// adjusting leave some out besides. What leads in English names each text once.
    pub open spec fn faithful(self, reply: BuildReply) -> bool {
        let list = models(self.assembly.list@);
        match (self.stage, reply) {
            (BuildStage::Absorb, BuildReply::Listed(v)) => same_texts(models(v@), list),
            (BuildStage::Scope, BuildReply::Scoped(o)) => thins(
                models(o.kept@) + models(o.filtered@),
                list,
            ),
            (BuildStage::Rerank, BuildReply::Listed(front)) => rearranges(
                models(front@),
                list.take(in_scope_len(list)),
            ),
            (BuildStage::Adjust, BuildReply::Adjusted { list: v, pinned }) => thins(
                models(v@),
                list,
            ),
            (BuildStage::Yield, BuildReply::Listed(v)) => rearranges(models(v@), list),
            (BuildStage::Head, BuildReply::Listed(head)) => texts_distinct(models(head@)),
            _ => true,
        }
    }
}

proof fn lemma_in_scope_len(s: Seq<CandidateModel>)
    ensures
        0 <= in_scope_len(s) <= s.len(),
    decreases s.len(),
{
    if s.len() > 0 && !s[0].is_scope_filtered {
        lemma_in_scope_len(s.drop_first());
    }
}

proof fn lemma_thinned(v: Seq<CandidateModel>, s: Seq<CandidateModel>)
    requires
        thins(v, s),
        texts_distinct(s),
    ensures
        texts_distinct(v),
{
    broadcast use vstd::seq_lib::group_to_multiset_ensures;

    assert forall|i: int, j: int| 0 <= i < s.len() && 0 <= j < s.len() && i != j implies s[i]
        != s[j] by {
        if i < j {
            assert(s[i].text != s[j].text);
        } else {
            assert(s[j].text != s[i].text);
        }
    }
    s.lemma_multiset_has_no_duplicates();
    assert forall|x: CandidateModel| v.to_multiset().contains(x) implies v.to_multiset().count(x)
        == 1 by {
        assert(v.to_multiset().count(x) <= s.to_multiset().count(x));
        assert(s.to_multiset().contains(x));
    }
    v.lemma_multiset_has_no_duplicates_conv();
    assert forall|i: int, j: int| 0 <= i < j < v.len() implies (#[trigger] v[i]).text != (
    #[trigger] v[j]).text by {
        assert(v.contains(v[i]) && v.contains(v[j]));
        assert(v.to_multiset().count(v[i]) <= s.to_multiset().count(v[i]));
        assert(v.to_multiset().count(v[j]) <= s.to_multiset().count(v[j]));
        assert(s.contains(v[i]) && s.contains(v[j]));
        let p = s.index_of(v[i]);
        let q = s.index_of(v[j]);
        assert(v[i] != v[j]);
        if p < q {
            assert(s[p].text != s[q].text);
        } else {
            assert(s[q].text != s[p].text);
        }
    }
}

proof fn lemma_without_texts(s: Seq<CandidateModel>, head: Seq<CandidateModel>)
    requires
        texts_distinct(s),
    ensures
        texts_distinct(without_texts_of(s, head)),
        forall|i: int|
            0 <= i < without_texts_of(s, head).len() ==> !shows_text(
                head,
                (#[trigger] without_texts_of(s, head)[i]).text,
            ),
        forall|i: int|
            0 <= i < without_texts_of(s, head).len() ==> shows_text(
                s,
                (#[trigger] without_texts_of(s, head)[i]).text,
            ),
    decreases s.len(),
{
    if s.len() > 0 {
        let t = s.drop_last();
        let w = without_texts_of(t, head);
        let r = without_texts_of(s, head);
        assert forall|i: int, j: int| 0 <= i < j < t.len() implies (#[trigger] t[i]).text != (
        #[trigger] t[j]).text by {
            assert(t[i] == s[i] && t[j] == s[j]);
        }
        lemma_without_texts(t, head);
        assert forall|i: int| 0 <= i < r.len() implies shows_text(s, (#[trigger] r[i]).text) by {
            if i < w.len() {
                assert(r[i] == w[i]);
                let k = choose|k: int| 0 <= k < t.len() && (#[trigger] t[k]).text == w[i].text;
                assert(s[k].text == r[i].text);
            } else {
                assert(s[s.len() - 1].text == r[i].text);
            }
        }
        assert forall|i: int, j: int| 0 <= i < j < r.len() implies (#[trigger] r[i]).text != (
        #[trigger] r[j]).text by {
            assert(r[i] == w[i]);
            if j < w.len() {
                assert(r[j] == w[j]);
            } else {
                let k = choose|k: int| 0 <= k < t.len() && (#[trigger] t[k]).text == w[i].text;
                assert(s[k].text != s[s.len() - 1].text);
            }
        }
        assert forall|i: int| 0 <= i < r.len() implies !shows_text(
            head,
            (#[trigger] r[i]).text,
        ) by {
            if i < w.len() {
                assert(r[i] == w[i]);
            }
        }
    }
}

proof fn lemma_rerank_keeps(front: Seq<CandidateModel>, s: Seq<CandidateModel>, k: int)
    requires
        0 <= k <= s.len(),
        rearranges(front, s.take(k)),
    ensures
        rearranges(front + s.skip(k), s),
{
    vstd::seq_lib::lemma_multiset_commutative(front, s.skip(k));
    vstd::seq_lib::lemma_multiset_commutative(s.take(k), s.skip(k));
    assert(s.take(k) + s.skip(k) =~= s);
}

/// Reordering loses no candidate and adds none, as long as what comes back is what was
/// handed out.
pub proof fn reordering_keeps_every_candidate(
    c: Coordinator,
    b: Build,
    reply: BuildReply,
    n: Build,
    dropped: Seq<(int, CandidateModel)>,
    before: State,
    after: State,
)
    requires
        c.builds(b, reply, n, dropped, before, after),
        b.answered_by(reply),
        b.faithful(reply),
        b.stage == BuildStage::Rerank || b.stage == BuildStage::Yield,
    ensures
        rearranges(models(n.assembly.list@), models(b.assembly.list@)),
{
    let list = models(b.assembly.list@);
    if b.stage == BuildStage::Rerank {
        lemma_in_scope_len(list);
        match reply {
            BuildReply::Listed(front) => {
                lemma_rerank_keeps(models(front@), list, in_scope_len(list));
            },
            _ => {},
        }
    }
}

/// No text is shown twice: folding leaves each text once, and no stage behind it brings
/// one back, as long as what comes back is made of what was handed out.
pub proof fn no_text_is_shown_twice(
    c: Coordinator,
    b: Build,
    reply: BuildReply,
    n: Build,
    dropped: Seq<(int, CandidateModel)>,
    before: State,
    after: State,
)
    requires
        c.builds(b, reply, n, dropped, before, after),
        b.answered_by(reply),
        b.faithful(reply),
        b.stage != BuildStage::Rank ==> texts_distinct(models(b.assembly.list@)),
    ensures
        texts_distinct(models(n.assembly.list@)),
        n.stage == BuildStage::Done ==> texts_distinct(models(after.candidates@)),
{
    let list = models(b.assembly.list@);
    let next = models(n.assembly.list@);
    match (b.stage, reply) {
        (BuildStage::Rank, BuildReply::Ranked { verdicts, ranks }) => {
            folding_leaves_each_text_once(
                display_sorted(noted(list, verdicts, ranks@), c.rule_for(b.input@)),
            );
        },
        (BuildStage::Absorb, BuildReply::Listed(v)) => {
            assert forall|i: int, j: int| 0 <= i < j < next.len() implies (
            #[trigger] next[i]).text != (#[trigger] next[j]).text by {
                assert(list[i].text != list[j].text);
            }
        },
        (BuildStage::Scope, BuildReply::Scoped(o)) => {
            let both = models(o.kept@) + models(o.filtered@);
            lemma_thinned(both, list);
            assert forall|i: int, j: int| 0 <= i < j < next.len() implies (
            #[trigger] next[i]).text != (#[trigger] next[j]).text by {
                assert(next[i].text == both[i].text && next[j].text == both[j].text);
            }
        },
        (BuildStage::Rerank, BuildReply::Listed(front)) => {
            reordering_keeps_every_candidate(c, b, reply, n, dropped, before, after);
            lemma_thinned(next, list);
        },
        (BuildStage::Adjust, BuildReply::Adjusted { list: v, pinned }) => {
            lemma_thinned(next, list);
        },
        (BuildStage::Yield, BuildReply::Listed(v)) => {
            lemma_thinned(next, list);
        },
        (BuildStage::Head, BuildReply::Listed(head)) => {
            let h = models(head@);
            let shown = models(after.candidates@);
            lemma_without_texts(list, h);
            let w = without_texts_of(list, h);
            assert forall|i: int, j: int| 0 <= i < j < shown.len() implies (
            #[trigger] shown[i]).text != (#[trigger] shown[j]).text by {
                if c.engine.is_english && h.len() > 0 && i < h.len() && j >= h.len() {
                    assert(shown[j] == w[j - h.len()]);
                    assert(!shows_text(h, w[j - h.len()].text));
                    assert(shown[i] == h[i]);
                }
            }
        },
        _ => {},
    }
}

/// A list that was built shows no text twice. `builds` are the stages of one list from the
/// first question to the last, `states` the states at each of them, and `replies` what
/// answered them, each made of what was handed out.
pub proof fn a_built_list_repeats_no_text(
    c: Coordinator,
    builds: Seq<Build>,
    replies: Seq<BuildReply>,
    dropped: Seq<Seq<(int, CandidateModel)>>,
    states: Seq<State>,
)
    requires
        replies.len() > 0,
        builds.len() == replies.len() + 1,
        states.len() == builds.len(),
        builds[0].stage == BuildStage::Rank,
        builds.last().stage == BuildStage::Done,
        forall|i: int|
            0 <= i < replies.len() ==> {
                &&& builds[i].answered_by(#[trigger] replies[i])
                &&& builds[i].faithful(replies[i])
                &&& c.builds(
                    builds[i],
                    replies[i],
                    builds[i + 1],
                    dropped[i],
                    states[i],
                    states[i + 1],
                )
            },
    ensures
        texts_distinct(models(states.last().candidates@)),
{
    let n = replies.len() - 1;
    lemma_distinct_up_to(c, builds, replies, dropped, states, n);
    assert(builds[n].answered_by(replies[n]));
    no_text_is_shown_twice(
        c,
        builds[n],
        replies[n],
        builds[n + 1],
        dropped[n],
        states[n],
        states[n + 1],
    );
}

proof fn lemma_distinct_up_to(
    c: Coordinator,
    builds: Seq<Build>,
    replies: Seq<BuildReply>,
    dropped: Seq<Seq<(int, CandidateModel)>>,
    states: Seq<State>,
    n: int,
)
    requires
        0 <= n < replies.len(),
        builds.len() == replies.len() + 1,
        builds[0].stage == BuildStage::Rank,
        forall|i: int|
            0 <= i < replies.len() ==> {
                &&& builds[i].answered_by(#[trigger] replies[i])
                &&& builds[i].faithful(replies[i])
                &&& c.builds(
                    builds[i],
                    replies[i],
                    builds[i + 1],
                    dropped[i],
                    states[i],
                    states[i + 1],
                )
            },
    ensures
        builds[n].stage != BuildStage::Rank ==> texts_distinct(models(builds[n].assembly.list@)),
    decreases n,
{
    if n > 0 {
        let m = n - 1;
        lemma_distinct_up_to(c, builds, replies, dropped, states, m);
        assert(builds[m].answered_by(replies[m]));
        no_text_is_shown_twice(
            c,
            builds[m],
            replies[m],
            builds[m + 1],
            dropped[m],
            states[m],
            states[m + 1],
        );
    }
}

/// Lists are ordered for the input they belong to: by weight unless the engine leaves weights
/// out, by source in a mixed engine only, and never by text.
pub proof fn lists_are_ordered_for_their_input(c: Coordinator, input: Seq<char>)
    ensures
        c.rule_for(input).ignore_weight == c.engine.ignores_weight,
        c.rule_for(input).mixed <==> c.engine.engine_type == Some(EngineType::Mixed),
        c.rule_for(input).input_len == byte_size(input),
        !c.rule_for(input).by_text,
{
}

/// Each stage follows the one before: a list is ranked, its folded codes are taken over, it is
/// scoped, reordered and adjusted; where it ended up empty and something could step in, that
/// goes through the same; then short codes yield, the English head joins, and the list is
/// shown.
pub proof fn stages_follow_each_other(
    c: Coordinator,
    b: Build,
    reply: BuildReply,
    n: Build,
    dropped: Seq<(int, CandidateModel)>,
    before: State,
    after: State,
)
    requires
        c.builds(b, reply, n, dropped, before, after),
        b.answered_by(reply),
    ensures
        b.stage == BuildStage::Rank ==> n.stage == BuildStage::Absorb,
        b.stage == BuildStage::Absorb ==> n.stage == BuildStage::Scope,
        b.stage == BuildStage::Scope ==> n.stage == BuildStage::Rerank,
        b.stage == BuildStage::Rerank ==> n.stage == BuildStage::Adjust,
        b.stage == BuildStage::Adjust ==> (reply matches BuildReply::Adjusted { list, pinned } ==> (
        if list@.len() == 0 && b.assembly.pool@.len() + b.assembly.completion@.len() > 0 {
            n.stage == BuildStage::PoolMark
        } else {
            n.stage == BuildStage::Yield
        })),
        b.stage == BuildStage::PoolMark ==> n.stage == BuildStage::PoolScope,
        b.stage == BuildStage::PoolScope ==> n.stage == BuildStage::PoolAdjust,
        b.stage == BuildStage::PoolAdjust ==> n.stage == BuildStage::PoolRank,
        b.stage == BuildStage::PoolRank ==> n.stage == BuildStage::Yield,
        b.stage == BuildStage::Yield ==> n.stage == BuildStage::Head,
        b.stage == BuildStage::Head ==> n.stage == BuildStage::Done,
{
}

/// An answer to something else changes nothing.
pub proof fn other_answers_change_nothing(
    c: Coordinator,
    b: Build,
    reply: BuildReply,
    n: Build,
    dropped: Seq<(int, CandidateModel)>,
    before: State,
    after: State,
)
    requires
        c.builds(b, reply, n, dropped, before, after),
        !b.answered_by(reply),
    ensures
        n == b,
        dropped.len() == 0,
        after == before,
{
}

/// A ranked list is in display order, and of the candidates with one text it holds the one
/// that is shown first.
pub proof fn ranked_lists_are_in_display_order(
    c: Coordinator,
    b: Build,
    verdicts: Option<Vec<CommonVerdict>>,
    ranks: Vec<MatchRank>,
    n: Build,
    dropped: Seq<(int, CandidateModel)>,
    before: State,
    after: State,
)
    requires
        b.stage == BuildStage::Rank,
        c.builds(b, BuildReply::Ranked { verdicts, ranks }, n, dropped, before, after),
    ensures
        in_display_order(models(n.assembly.list@), c.rule_for(b.input@)),
        n.assembly.list@.len() + dropped.len() == b.assembly.list@.len(),
        forall|i: int|
            0 <= i < dropped.len() ==> 0 <= (#[trigger] dropped[i]).0 < n.assembly.list@.len()
                && dropped[i].1.text == n.assembly.list@[dropped[i].0].text@,
{
    let rule = c.rule_for(b.input@);
    let marked = noted(models(b.assembly.list@), verdicts, ranks@);
    let sorted = display_sorted(marked, rule);
    sorting_orders_and_keeps(marked, rule);
    folding_leaves_each_text_once(sorted);
    let next = first_of_each_text(sorted);
    let at = folding_keeps_the_first_of_each_text(sorted);
    assert forall|i: int, j: int| 0 <= i < j < next.len() implies !#[trigger] shown_before(
        next[j],
        next[i],
        rule,
    ) by {
        assert(at[i] < at[j]);
        assert(!shown_before(sorted[at[j]], sorted[at[i]], rule));
    }
    assert forall|i: int| 0 <= i < dropped.len() implies 0 <= (#[trigger] dropped[i]).0
        < n.assembly.list@.len() && dropped[i].1.text == n.assembly.list@[dropped[i].0].text@ by {
        what_is_folded_shows_the_same_text(sorted, i);
        assert(models(n.assembly.list@)[dropped[i].0].text == n.assembly.list@[dropped[i].0].text@);
    }
}

/// What the scope keeps comes first; what lies outside follows only while the scope is relaxed,
/// and is marked.
pub proof fn the_scope_keeps_what_lies_inside(state: State, outcome: FilterOutcome)
    ensures
        models(outcome.kept@).is_prefix_of(scoped(state, outcome)),
        !state.scope_relaxed ==> scoped(state, outcome) == models(outcome.kept@),
        state.scope_relaxed ==> scoped(state, outcome).len() == outcome.kept@.len()
            + outcome.filtered@.len(),
        state.scope_relaxed ==> forall|i: int|
            outcome.kept@.len() <= i < scoped(state, outcome).len() ==> (#[trigger] scoped(
                state,
                outcome,
            )[i]).is_scope_filtered && scoped(state, outcome)[i].text == outcome.filtered@[i
                - outcome.kept@.len()].text@,
{
}

/// Reordering by frequency touches the front that lies inside the scope: what only a relaxed
/// scope let in stays behind it, as it was.
pub proof fn reordering_leaves_outsiders_behind(
    c: Coordinator,
    b: Build,
    front: Vec<Candidate>,
    n: Build,
    dropped: Seq<(int, CandidateModel)>,
    before: State,
    after: State,
    i: int,
)
    requires
        b.stage == BuildStage::Rerank,
        c.builds(b, BuildReply::Listed(front), n, dropped, before, after),
        0 <= i < b.assembly.list@.len(),
        b.assembly.list@[i].is_scope_filtered,
    ensures
        models(front@).is_prefix_of(models(n.assembly.list@)),
        exists|k: int|
            front@.len() <= k < n.assembly.list@.len() && #[trigger] models(n.assembly.list@)[k]
                == models(b.assembly.list@)[i],
{
    let list = models(b.assembly.list@);
    let m = in_scope_len(list);
    the_scope_ends_before_the_first_outsider(list);
    assert(list[i].is_scope_filtered);
    assert(m <= i);
    let next = models(n.assembly.list@);
    let k = front@.len() + (i - m);
    assert(next[k] == list.skip(m)[i - m]);
}

/// What steps in for an empty list is one candidate, and none of those that could is shown
/// before it.
pub proof fn the_best_steps_in_for_an_empty_list(
    c: Coordinator,
    b: Build,
    ranks: Vec<MatchRank>,
    n: Build,
    dropped: Seq<(int, CandidateModel)>,
    before: State,
    after: State,
    i: int,
)
    requires
        b.stage == BuildStage::PoolRank,
        ranks@.len() == b.assembly.pool@.len(),
        c.builds(b, BuildReply::Measured(ranks), n, dropped, before, after),
        b.assembly.list@.len() == 0,
        0 <= i < b.assembly.pool@.len(),
    ensures
        n.assembly.list@.len() == 1,
        !shown_before(
            all_ranked(models(b.assembly.pool@), ranks@)[i],
            models(n.assembly.list@)[0],
            DisplayRule { by_text: true, ..c.rule_for(b.input@) },
        ),
        all_ranked(models(b.assembly.pool@), ranks@).contains(models(n.assembly.list@)[0]),
{
    let rule = DisplayRule { by_text: true, ..c.rule_for(b.input@) };
    let pool = all_ranked(models(b.assembly.pool@), ranks@);
    nothing_is_shown_before_the_first(pool, rule, i);
    assert(models(n.assembly.list@) == seq![display_sorted(pool, rule)[0]]);
}

/// Nothing steps in for a list that has candidates.
pub proof fn nothing_steps_in_for_a_list_with_candidates(
    c: Coordinator,
    b: Build,
    ranks: Vec<MatchRank>,
    n: Build,
    dropped: Seq<(int, CandidateModel)>,
    before: State,
    after: State,
)
    requires
        b.stage == BuildStage::PoolRank,
        c.builds(b, BuildReply::Measured(ranks), n, dropped, before, after),
        b.assembly.list@.len() > 0,
    ensures
        models(n.assembly.list@) == models(b.assembly.list@),
{
}

/// In English the forms of the input lead the list that is shown, and what they show is not
/// shown again; elsewhere the list is shown as it is.
pub proof fn english_leads_with_the_input(
    c: Coordinator,
    b: Build,
    head: Vec<Candidate>,
    n: Build,
    dropped: Seq<(int, CandidateModel)>,
    before: State,
    after: State,
    i: int,
)
    requires
        b.stage == BuildStage::Head,
        c.builds(b, BuildReply::Listed(head), n, dropped, before, after),
    ensures
        !c.engine.is_english || head@.len() == 0 ==> models(after.candidates@) == models(
            b.assembly.list@,
        ),
        c.engine.is_english ==> models(head@).is_prefix_of(models(after.candidates@)),
        c.engine.is_english && head@.len() <= i < after.candidates@.len() && head@.len() > 0
            ==> !shows_text(models(head@), models(after.candidates@)[i].text),
        after.input_buffer == before.input_buffer,
        n.assembly.list@.len() == 0,
{
    let list = models(b.assembly.list@);
    let h = models(head@);
    let shown = models(after.candidates@);
    if c.engine.is_english && head@.len() > 0 {
        let at = a_head_takes_only_its_own_texts(list, h);
        if head@.len() <= i < after.candidates@.len() {
            let k = i - head@.len();
            assert(h.len() == head@.len());
            assert(shown.len() == after.candidates@.len());
            assert(shown == h + without_texts_of(list, h));
            assert(shown[i] == without_texts_of(list, h)[k]);
            assert(0 <= at[k] < list.len());
        }
    }
}

/// The user's adjustments are taken over, and a place once fixed stays fixed.
pub proof fn adjustments_are_taken_over(
    c: Coordinator,
    b: Build,
    list: Vec<Candidate>,
    pinned: bool,
    n: Build,
    dropped: Seq<(int, CandidateModel)>,
    before: State,
    after: State,
)
    requires
        b.stage == BuildStage::Adjust,
        c.builds(b, BuildReply::Adjusted { list, pinned }, n, dropped, before, after),
    ensures
        n.assembly.list == list,
        n.assembly.user_pinned <==> b.assembly.user_pinned || pinned,
        n.stage == BuildStage::PoolMark ==> models(n.assembly.pool@) == models(b.assembly.pool@)
            + models(b.assembly.completion@),
{
}

/// What is gathered for an input starts with what the engine found, as it stands where it holds
/// no syntax; phrases join only where they take part, those with this code first.
pub proof fn gathering_starts_with_the_engine(c: Coordinator, input: Seq<char>, g: Gathered)
    requires
        !any_markup(models(g.result.candidates@)),
    ensures
        models(g.result.candidates@).is_prefix_of(c.gathered_list(input, g)),
        !g.phrases_open ==> c.gathered_list(input, g) == models(g.result.candidates@)
            && c.gathered_pool(input, g).len() == 0,
        g.phrases_open ==> c.found_list(input, g).len() == g.result.candidates@.len()
            + g.exact@.len() && c.found_list(input, g).is_prefix_of(c.gathered_list(input, g)),
{
    let s = models(g.result.candidates@);
    assert(finalized(s, g.expansions@, input) == s);
}

/// A phrase whose code goes on is in the list or among those that may step in, never in both.
pub proof fn prefix_phrases_are_used_once(c: Coordinator, input: Seq<char>, g: Gathered)
    ensures
        c.gathered_pool(input, g).len() > 0 ==> c.gathered_list(input, g) == c.found_list(input, g)
            && c.found_list(input, g).len() == 0,
        g.phrases_open && !c.engine.is_codetable ==> c.gathered_list(input, g).len()
            == c.found_list(input, g).len() + g.prefix@.len(),
        c.gathered_pool(input, g).len() == 0 || c.gathered_pool(input, g).len() == g.prefix@.len(),
{
}

/// Something steps in only for an empty list, and only where there is something.
pub proof fn empty_lists_look_for_a_stand_in(list_len: nat, spare: nat)
    ensures
        list_len == 0 && spare > 0 ==> after_adjusting(list_len, spare) == BuildStage::PoolMark,
        list_len > 0 || spare == 0 ==> after_adjusting(list_len, spare) == BuildStage::Yield,
{
}

/// A head stands in front of the list, which loses what the head shows and nothing else;
/// without a head the list stays.
pub proof fn heads_stand_in_front(s: Seq<CandidateModel>, head: Seq<CandidateModel>, i: int)
    ensures
        head.len() == 0 ==> headed(s, head) == s,
        head.is_prefix_of(headed(s, head)),
        0 <= i < s.len() && !shows_text(head, s[i].text) ==> headed(s, head).contains(s[i]),
{
    if head.len() == 0 {
        if 0 <= i < s.len() {
            assert(s.contains(s[i]));
        }
    } else {
        let rest = without_texts_of(s, head);
        let at = a_head_takes_only_its_own_texts(s, head);
        if 0 <= i < s.len() && !shows_text(head, s[i].text) {
            assert(at.contains(i));
            let k = choose|k: int| 0 <= k < at.len() && at[k] == i;
            assert(rest[k] == s[i]);
            assert(headed(s, head)[head.len() + k] == s[i]);
        }
    }
}

/// Outside exact-match input the phrases whose code goes on join the list behind what was
/// found. In exact-match input they do not; they wait where completion is on, nothing was found
/// and the code can still grow, and are left out elsewhere.
pub proof fn prefix_phrases_join_or_wait(c: Coordinator, input: Seq<char>, g: Gathered, i: int)
    requires
        g.phrases_open,
    ensures
        ({
            let exact = c.engine.is_codetable && c.engine.codetable.single_code_input;
            let found = c.found_list(input, g);
            let waits = c.engine.codetable.single_code_complete && found.len() == 0 && input.len()
                < c.engine.max_code_length;
            &&& !exact ==> c.gathered_list(input, g).len() == found.len() + g.prefix@.len()
                && c.gathered_pool(input, g).len() == 0
            &&& !exact && 0 <= i < g.prefix@.len() ==> c.gathered_list(input, g)[found.len()
                + i].text == g.prefix@[i].text@ && c.gathered_list(input, g)[found.len()
                + i].is_prefix == !c.engine.is_codetable
            &&& exact ==> c.gathered_list(input, g) == found
            &&& exact && waits ==> c.gathered_pool(input, g).len() == g.prefix@.len()
            &&& exact && waits && 0 <= i < g.prefix@.len() ==> c.gathered_pool(input, g)[i].text
                == g.prefix@[i].text@
            &&& exact && !waits ==> c.gathered_pool(input, g).len() == 0
        }),
{
}

/// Each stage touches its own part: what could step in is left alone while the list is built,
/// and the list while they are. Only ranking folds anything away, and only the last stage shows
/// anything.
pub proof fn stages_touch_their_own_part(
    c: Coordinator,
    b: Build,
    reply: BuildReply,
    n: Build,
    dropped: Seq<(int, CandidateModel)>,
    before: State,
    after: State,
)
    requires
        c.builds(b, reply, n, dropped, before, after),
    ensures
        b.stage != BuildStage::Rank ==> dropped.len() == 0,
        b.stage != BuildStage::Head ==> after == before,
        b.stage == BuildStage::PoolMark || b.stage == BuildStage::PoolScope || b.stage
            == BuildStage::PoolAdjust ==> n.assembly.list == b.assembly.list
            && n.assembly.completion == b.assembly.completion,
        b.stage == BuildStage::Rank || b.stage == BuildStage::Absorb || b.stage == BuildStage::Scope
            || b.stage == BuildStage::Rerank || b.stage == BuildStage::Yield || b.stage
            == BuildStage::Head ==> n.assembly.pool == b.assembly.pool && n.assembly.completion
            == b.assembly.completion,
        b.stage == BuildStage::Adjust && n.stage == BuildStage::Yield ==> n.assembly.pool
            == b.assembly.pool && n.assembly.completion == b.assembly.completion,
        b.stage == BuildStage::Adjust && n.stage == BuildStage::PoolMark
            ==> n.assembly.completion@.len() == 0 && n.assembly.pool@.len()
            == b.assembly.pool@.len() + b.assembly.completion@.len(),
        b.stage == BuildStage::Absorb || b.stage == BuildStage::Yield ==> (
        reply matches BuildReply::Listed(v) ==> n.assembly.list == v),
        b.stage == BuildStage::PoolAdjust ==> (reply matches BuildReply::Adjusted { list, pinned }
            ==> n.assembly.pool == list),
        b.stage == BuildStage::Scope ==> (reply matches BuildReply::Scoped(outcome) ==> models(
            outcome.kept@,
        ).is_prefix_of(models(n.assembly.list@))),
        b.stage == BuildStage::PoolScope ==> (reply matches BuildReply::Scoped(outcome) ==> models(
            outcome.kept@,
        ).is_prefix_of(models(n.assembly.pool@))),
        b.stage == BuildStage::PoolMark ==> (reply matches BuildReply::Marked(verdicts)
            ==> n.assembly.pool@.len() == b.assembly.pool@.len()),
        b.stage == BuildStage::PoolMark ==> (reply matches BuildReply::Marked(None) ==> models(
            n.assembly.pool@,
        ) == models(b.assembly.pool@)),
{
    if b.stage == BuildStage::PoolMark {
        assert(models(n.assembly.pool@).len() == n.assembly.pool@.len());
        assert(models(b.assembly.pool@).len() == b.assembly.pool@.len());
    }
    if b.stage == BuildStage::Adjust {
        assert(models(n.assembly.pool@).len() == n.assembly.pool@.len());
    }
}

/// Syntax is expanded where there is any, and a list without it stands as it is.
pub proof fn lists_without_syntax_stand_as_they_are(
    s: Seq<CandidateModel>,
    e: Seq<DictExpansion>,
    input: Seq<char>,
)
    ensures
        !any_markup(s) ==> finalized(s, e, input) == s,
        any_markup(s) ==> finalized(s, e, input) == all_expanded(s, e, input),
{
}

/// Verdicts and ranks are noted on each candidate; without a table only the ranks are.
pub proof fn ranks_are_noted_with_or_without_verdicts(
    s: Seq<CandidateModel>,
    verdicts: Option<Vec<CommonVerdict>>,
    ranks: Seq<MatchRank>,
    i: int,
)
    requires
        0 <= i < s.len(),
    ensures
        noted(s, verdicts, ranks).len() == s.len(),
        noted(s, verdicts, ranks)[i].rank == ranks[i],
        noted(s, verdicts, ranks)[i].text == s[i].text,
        verdicts is None ==> noted(s, verdicts, ranks)[i].is_common == s[i].is_common,
        verdicts matches Some(v) ==> (!s[i].is_phrase ==> noted(s, verdicts, ranks)[i].is_common
            == v@[i].is_common),
{
}

} // verus!

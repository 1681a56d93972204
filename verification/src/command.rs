//! Commands: what runs, in which order, and in which directory.

use crate::candidate::{opt_view, strings_view};
use crate::coordinator::Coordinator;
use crate::text::{chars_of, has_char, joined, trim, trimmed};
use vstd::prelude::*;
use vstd::string::*;

verus! {

/// What a command sees of the session, frozen when it starts.
#[derive(Debug)]
pub struct CmdbarCtx {
    /// The code that named the command.
    pub input: String,
    /// Texts committed lately, newest first.
    pub last: Vec<String>,
}

impl CmdbarCtx {
    /// The text committed `n` commits ago, from 1; empty where there is none.
    pub open spec fn last_text(self, n: int) -> Seq<char> {
        if 1 <= n <= self.last@.len() {
            self.last@[n - 1]@
        } else {
            Seq::empty()
        }
    }

    /// The text committed `n` commits ago, from 1; empty where there is none.
    pub fn last(&self, n: i64) -> (r: String)
        ensures
            r@ == self.last_text(n as int),
    {
        if n < 1 {
            return String::new();
        }
        let k: u64 = (n - 1) as u64;
        if k < self.last.len() as u64 {
            self.last[k as usize].clone()
        } else {
            String::new()
        }
    }
}

/// A command that is to be evaluated.
#[derive(Debug)]
pub struct CommandRequest {
    pub src: String,
    pub ctx: CmdbarCtx,
}

/// What a command does in one of its actions.
#[derive(Clone, Copy, PartialEq, Eq, Structural, Debug)]
pub enum ActionKind {
    /// It types a text.
    Text,
    /// It does anything else.
    Effect,
}

/// What a command evaluates to.
#[derive(Debug)]
pub enum CommandEval {
    /// A chain of actions.
    Single(Vec<ActionKind>),
    /// A group, whose members are run when they are chosen.
    Array,
    /// It cannot be evaluated.
    Failed(String),
}

/// How far a chain of actions has come.
#[derive(Debug)]
pub struct CommandRun {
    /// The actions.
    pub kinds: Vec<ActionKind>,
    /// The next action.
    pub at: usize,
    /// Text was sent, and may not have arrived.
    pub text_pending: bool,
    /// No text was sent yet.
    pub first_text: bool,
    /// The first error.
    pub first_err: Option<String>,
}

/// What a [`CommandRun`] holds.
pub ghost struct RunModel {
    pub kinds: Seq<ActionKind>,
    pub at: int,
    pub text_pending: bool,
    pub first_text: bool,
    pub first_err: Option<Seq<char>>,
}

impl View for CommandRun {
    type V = RunModel;

    open spec fn view(&self) -> RunModel {
        RunModel {
            kinds: self.kinds@,
            at: self.at as int,
            text_pending: self.text_pending,
            first_text: self.first_text,
            first_err: opt_view(self.first_err),
        }
    }
}

/// How a command starts.
#[derive(Debug)]
pub enum CommandStart {
    /// Its actions are run.
    Run(CommandRun),
    /// Nothing happens.
    Nothing,
    /// A message is shown.
    Toast(String),
}

/// A text to be sent, after a pause where there is one.
#[derive(Debug)]
pub struct TextPush {
    pub pause: bool,
    pub text: String,
}

/// A chain of actions at its start.
pub open spec fn fresh_run(kinds: Seq<ActionKind>) -> RunModel {
    RunModel { kinds, at: 0, text_pending: false, first_text: true, first_err: None }
}

impl RunModel {
    /// Whether a pause comes before the next action: before anything but typing, while
    /// a text may not have arrived.
    pub open spec fn pauses(self) -> bool {
        self.kinds[self.at] == ActionKind::Effect && self.text_pending
    }

    /// The run once the next action may start.
    pub open spec fn readied(self) -> RunModel {
        RunModel {
            text_pending: if self.kinds[self.at] == ActionKind::Effect {
                false
            } else {
                self.text_pending
            },
            ..self
        }
    }

    /// The text an action sends, and whether a pause comes before it: the first text
    /// waits until the composition of the command's code is gone.
    pub open spec fn push_of(self, result: Result<Seq<char>, Seq<char>>) -> Option<(bool, Seq<char>)> {
        if self.kinds[self.at] == ActionKind::Text && result is Ok && result->Ok_0.len() > 0 {
            Some((self.first_text, result->Ok_0))
        } else {
            None
        }
    }

    /// The run once the next action is done.
    pub open spec fn advanced(self, result: Result<Seq<char>, Seq<char>>) -> RunModel {
        let sent = self.push_of(result) is Some;
        RunModel {
            at: self.at + 1,
            text_pending: self.text_pending || sent,
            first_text: self.first_text && !sent,
            first_err: if self.first_err is None && result is Err {
                Some(result->Err_0)
            } else {
                self.first_err
            },
            ..self
        }
    }
}

/// What the result of an action holds.
pub open spec fn result_view(r: Result<String, String>) -> Result<Seq<char>, Seq<char>> {
    match r {
        Ok(s) => Ok(s@),
        Err(e) => Err(e@),
    }
}

/// The message shown for a command that failed.
pub open spec fn failure_text(msg: Seq<char>) -> Seq<char> {
    "命令执行失败："@ + msg
}

/// The message shown for a command that failed.
pub fn show_command_error(msg: &str) -> (r: String)
    ensures
        r@ == failure_text(msg@),
{
    joined("命令执行失败：", msg)
}

impl CommandRun {
    /// How a command starts, from what it evaluates to.
    pub fn start(eval: CommandEval) -> (r: CommandStart)
        ensures
            match eval {
                CommandEval::Single(kinds) => r matches CommandStart::Run(run) && run@ == fresh_run(
                    kinds@,
                ),
                CommandEval::Array => r is Nothing,
                CommandEval::Failed(e) => r matches CommandStart::Toast(t) && t@ == failure_text(
                    e@,
                ),
            },
    {
        match eval {
            CommandEval::Single(kinds) => CommandStart::Run(
                CommandRun { kinds, at: 0, text_pending: false, first_text: true, first_err: None },
            ),
            CommandEval::Array => CommandStart::Nothing,
            CommandEval::Failed(e) => CommandStart::Toast(show_command_error(e.as_str())),
        }
    }

    /// Gets ready for the next action: its number, and whether a pause comes first.
    /// Nothing when all are done.
    pub fn ready(&mut self) -> (r: Option<(usize, bool)>)
        ensures
            old(self)@.at >= old(self)@.kinds.len() ==> r is None && final(self)@ == old(self)@,
            old(self)@.at < old(self)@.kinds.len() ==> {
                &&& r == Some((old(self).at, old(self)@.pauses()))
                &&& final(self)@ == old(self)@.readied()
            },
            r is None <==> old(self).at >= old(self).kinds@.len(),
            final(self).at == old(self).at,
    {
        if self.at >= self.kinds.len() {
            return None;
        }
        let pause = self.kinds[self.at] == ActionKind::Effect && self.text_pending;
        if pause {
            self.text_pending = false;
        }
        Some((self.at, pause))
    }

    /// Takes in what the next action came to, and says what is sent.
    pub fn done(&mut self, result: Result<String, String>) -> (r: Option<TextPush>)
        requires
            old(self)@.at < old(self)@.kinds.len(),
        ensures
            final(self)@ == old(self)@.advanced(result_view(result)),
            (match r {
                Some(p) => Some((p.pause, p.text@)),
                None => None,
            }) == old(self)@.push_of(result_view(result)),
    {
        let kind = self.kinds[self.at];
        assert(self.at < self.kinds.len());
        self.at = self.at + 1;
        match result {
            Ok(text) => {
                if kind == ActionKind::Text && !text.as_str().is_empty() {
                    let pause = self.first_text;
                    self.first_text = false;
                    self.text_pending = true;
                    Some(TextPush { pause, text })
                } else {
                    None
                }
            },
            Err(e) => {
                if self.first_err.is_none() {
                    self.first_err = Some(e);
                }
                None
            },
        }
    }

    /// The message shown once all is done: that of the first error.
    pub fn finish(self) -> (r: Option<String>)
        ensures
            opt_view(r) == (match self@.first_err {
                Some(e) => Some(failure_text(e)),
                None => None,
            }),
            self.first_err is None ==> r is None,
            self.first_err is Some ==> r is Some,
    {
        match self.first_err {
            Some(e) => Some(show_command_error(e.as_str())),
            None => None,
        }
    }
}

/// Whether every action types.
pub open spec fn only_text(kinds: Seq<ActionKind>) -> bool {
    forall|i: int| 0 <= i < kinds.len() ==> kinds[i] == ActionKind::Text
}

/// The texts of actions in one, where each gave a text.
pub open spec fn all_text(texts: Seq<Option<String>>) -> Option<Seq<char>>
    decreases texts.len(),
{
    if texts.len() == 0 {
        Some(Seq::empty())
    } else {
        match (all_text(texts.drop_last()), texts.last()) {
            (Some(a), Some(b)) => Some(a + b@),
            _ => None,
        }
    }
}

/// How the text of a command is found.
#[derive(Debug)]
pub enum TextStep {
    /// This action is run for its text.
    Run(usize),
    /// It is found, or there is none.
    Done(Option<String>),
}

/// What a [`TextStep`] says.
pub ghost enum TextStepModel {
    Run(int),
    Done(Option<Seq<char>>),
}

impl View for TextStep {
    type V = TextStepModel;

    open spec fn view(&self) -> TextStepModel {
        match *self {
            TextStep::Run(i) => TextStepModel::Run(i as int),
            TextStep::Done(t) => TextStepModel::Done(opt_view(t)),
        }
    }
}

/// How the text of a command is found once its first actions gave `texts`: only a command
/// that does nothing but type has one, and an action without a text leaves it without one.
pub open spec fn text_step(eval: CommandEval, texts: Seq<Option<String>>) -> TextStepModel {
    match eval {
        CommandEval::Single(kinds) => if !only_text(kinds@) || all_text(texts) is None {
            TextStepModel::Done(None)
        } else if texts.len() < kinds@.len() {
            TextStepModel::Run(texts.len() as int)
        } else {
            TextStepModel::Done(all_text(texts))
        },
        _ => TextStepModel::Done(None),
    }
}

/// The text of a command that does nothing but type; nothing for any other. `texts`
/// holds what its first actions gave.
pub fn eval_command_text_only(eval: &CommandEval, texts: &Vec<Option<String>>) -> (r: TextStep)
    requires
        eval matches CommandEval::Single(kinds) ==> only_text(kinds@) ==> texts@.len()
            <= kinds@.len(),
    ensures
        r@ == text_step(*eval, texts@),
{
    let kinds = match eval {
        CommandEval::Single(k) => k,
        _ => {
            return TextStep::Done(None);
        },
    };
    if !types_only(kinds) {
        return TextStep::Done(None);
    }
    match join_all(texts) {
        None => TextStep::Done(None),
        Some(t) => if texts.len() < kinds.len() {
            TextStep::Run(texts.len())
        } else {
            TextStep::Done(Some(t))
        },
    }
}

/// Finding the text of a command has no side effects: what is run types, and so does
/// everything behind it, and a text is found only once every action gave one.
pub proof fn finding_a_text_runs_no_effect(eval: CommandEval, texts: Seq<Option<String>>)
    requires
        eval matches CommandEval::Single(kinds) ==> only_text(kinds@) ==> texts.len()
            <= kinds@.len(),
    ensures
        text_step(eval, texts) matches TextStepModel::Run(i) ==> (eval matches
            CommandEval::Single(kinds) && only_text(kinds@) && i == texts.len() && 0 <= i
            < kinds@.len()),
        text_step(eval, texts) matches TextStepModel::Done(Some(t)) ==> (eval matches
            CommandEval::Single(kinds) && only_text(kinds@) && texts.len() == kinds@.len()
            && all_text(texts) == Some(t)),
{
}

fn types_only(kinds: &Vec<ActionKind>) -> (r: bool)
    ensures
        r == only_text(kinds@),
{
    let mut i: usize = 0;
    while i < kinds.len()
        invariant
            i <= kinds@.len(),
            forall|k: int| 0 <= k < i ==> kinds@[k] == ActionKind::Text,
        decreases kinds.len() - i,
    {
        if kinds[i] != ActionKind::Text {
            return false;
        }
        i = i + 1;
    }
    true
}

proof fn lemma_all_text_none(texts: Seq<Option<String>>, i: int)
    requires
        0 <= i < texts.len(),
        texts[i] is None,
    ensures
        all_text(texts) is None,
    decreases texts.len(),
{
    if i < texts.len() - 1 {
        lemma_all_text_none(texts.drop_last(), i);
    }
}

fn join_all(texts: &Vec<Option<String>>) -> (r: Option<String>)
    ensures
        opt_view(r) == all_text(texts@),
{
    let mut r: String = String::new();
    let mut i: usize = 0;
    assert(texts@.take(0) =~= Seq::empty());
    while i < texts.len()
        invariant
            i <= texts@.len(),
            all_text(texts@.take(i as int)) == Some(r@),
        decreases texts.len() - i,
    {
        proof {
            assert(texts@.take(i as int + 1).drop_last() =~= texts@.take(i as int));
            assert(texts@.take(i as int + 1).last() == texts@[i as int]);
        }
        match &texts[i] {
            Some(t) => {
                r = joined(r.as_str(), t.as_str());
            },
            None => {
                proof {
                    lemma_all_text_none(texts@, i as int);
                }
                return None;
            },
        }
        i = i + 1;
    }
    assert(texts@.take(texts@.len() as int) =~= texts@);
    Some(r)
}

impl Coordinator {
    /// What a command is evaluated with: its source, the code that named it, and the
    /// history as it is now.
    pub fn run_command_candidate(&self, src: &str, input: &str) -> (r: CommandRequest)
        ensures
            r.src@ == src@,
            r.ctx.input@ == input@,
            strings_view(r.ctx.last@) == self.history(),
    {
        CommandRequest {
            src: src.to_owned(),
            ctx: CmdbarCtx { input: input.to_owned(), last: self.recent_commits_snapshot() },
        }
    }

    /// What a command without a code is evaluated with.
    pub fn debug_run_command(&self, src: &str) -> (r: CommandRequest)
        ensures
            r.src@ == src@,
            r.ctx.input@ == ""@,
            strings_view(r.ctx.last@) == self.history(),
    {
        self.run_command_candidate(src, "")
    }

    /// The commit history, newest first.
    pub fn recent_commits_snapshot(&self) -> (r: Vec<String>)
        ensures
            strings_view(r@) == self.history(),
    {
        let ghost h = self.history();
        let mut r: Vec<String> = Vec::new();
        let mut i: usize = 0;
        assert(strings_view(r@) =~= h.take(0));
        while i < self.recent_commits.len()
            invariant
                i <= self.recent_commits@.len(),
                h == self.history(),
                strings_view(r@) == h.take(i as int),
            decreases self.recent_commits.len() - i,
        {
            let ghost prev = strings_view(r@);
            let t = self.recent_commits[i].clone();
            r.push(t);
            assert(strings_view(r@) =~= prev.push(t@));
            assert(prev.push(t@) =~= h.take(i as int + 1));
            i = i + 1;
        }
        assert(h.take(h.len() as int) =~= h);
        r
    }
}

/// An argument with its quotes escaped.
pub open spec fn escaped(s: Seq<char>) -> Seq<char>
    decreases s.len(),
{
    if s.len() == 0 {
        Seq::empty()
    } else if s.last() == '"' {
        escaped(s.drop_last()).push('\\').push('"')
    } else {
        escaped(s.drop_last()).push(s.last())
    }
}

/// An argument as it stands on a command line: quoted where it holds a space or a
/// quote.
pub open spec fn shell_arg(s: Seq<char>) -> Seq<char> {
    if s.contains(' ') || s.contains('"') {
        seq!['"'] + escaped(s) + seq!['"']
    } else {
        s
    }
}

/// Arguments as a command line, apart by a space.
pub open spec fn shell_line(args: Seq<Seq<char>>) -> Seq<char>
    decreases args.len(),
{
    if args.len() == 0 {
        Seq::empty()
    } else if args.len() == 1 {
        shell_arg(args[0])
    } else {
        shell_line(args.drop_last()).push(' ') + shell_arg(args.last())
    }
}

fn quote_arg(a: &str) -> (r: String)
    ensures
        r@ == shell_arg(a@),
{
    if !has_char(a, ' ') && !has_char(a, '"') {
        return a.to_owned();
    }
    let v = chars_of(a);
    let mut r: String = String::new();
    r.push('"');
    assert(r@ =~= seq!['"'] + escaped(v@.take(0)));
    let mut i: usize = 0;
    while i < v.len()
        invariant
            i <= v.len(),
            v@ == a@,
            r@ == seq!['"'] + escaped(v@.take(i as int)),
        decreases v.len() - i,
    {
        proof {
            assert(v@.take(i as int + 1).drop_last() =~= v@.take(i as int));
            assert(v@.take(i as int + 1).last() == v@[i as int]);
        }
        if v[i] == '"' {
            r.push('\\');
        }
        r.push(v[i]);
        assert(r@ =~= seq!['"'] + escaped(v@.take(i as int + 1)));
        i = i + 1;
    }
    assert(v@.take(v@.len() as int) =~= v@);
    r.push('"');
    assert(r@ =~= seq!['"'] + escaped(a@) + seq!['"']);
    r
}

/// Arguments as a command line.
pub fn shell_quote_args(args: &Vec<String>) -> (r: String)
    ensures
        r@ == shell_line(strings_view(args@)),
{
    let ghost all = strings_view(args@);
    let mut r: String = String::new();
    let mut i: usize = 0;
    assert(r@ =~= shell_line(all.take(0)));
    while i < args.len()
        invariant
            i <= args@.len(),
            all == strings_view(args@),
            r@ == shell_line(all.take(i as int)),
        decreases args.len() - i,
    {
        proof {
            assert(all.take(i as int + 1).drop_last() =~= all.take(i as int));
            assert(all.take(i as int + 1).last() == args@[i as int]@);
        }
        let a = quote_arg(args[i].as_str());
        if i == 0 {
            r = a;
        } else {
            r.push(' ');
            r = joined(r.as_str(), a.as_str());
        }
        i = i + 1;
    }
    assert(all.take(all.len() as int) =~= all);
    r
}

/// Why a program is started in a directory nobody asked for.
#[derive(Clone, Copy, PartialEq, Eq, Structural, Debug)]
pub enum WorkdirFallback {
    /// The directory asked for does not exist.
    ExplicitMissing,
    /// None was asked for, and the target has none.
    NoTargetDir,
    /// There is not even a home directory.
    Unresolved,
}

/// Whether a target is an address rather than a path.
pub open spec fn is_url(cmd: Seq<char>) -> bool {
    exists|i: int| 0 <= i && i + 3 <= cmd.len() && #[trigger] cmd.subrange(i, i + 3) == "://"@
}

fn looks_like_url(cmd: &str) -> (r: bool)
    ensures
        r == is_url(cmd@),
{
    let v = chars_of(cmd);
    proof {
        reveal_strlit("://");
    }
    let mut i: usize = 0;
    while i < v.len()
        invariant
            i <= v.len(),
            v@ == cmd@,
            "://"@ =~= seq![':', '/', '/'],
            forall|k: int|
                0 <= k < i && k + 3 <= v@.len() ==> #[trigger] v@.subrange(k, k + 3) != "://"@,
        decreases v.len() - i,
    {
        if v.len() - i >= 3 && v[i] == ':' && v[i + 1] == '/' && v[i + 2] == '/' {
            assert(v@.subrange(i as int, i + 3) =~= "://"@);
            return true;
        }
        proof {
            if i + 3 <= v@.len() {
                let s = v@.subrange(i as int, i + 3);
                assert(s[0] == v@[i as int] && s[1] == v@[i + 1] && s[2] == v@[i + 2]);
                assert(s != "://"@);
            }
        }
        i = i + 1;
    }
    false
}

/// The home directory, for a reason, or nothing to be set at all.
pub open spec fn home_or_nothing(home: Option<Seq<char>>, why: WorkdirFallback) -> (
    Seq<char>,
    Option<WorkdirFallback>,
) {
    match home {
        Some(h) => (h, Some(why)),
        None => (Seq::empty(), Some(WorkdirFallback::Unresolved)),
    }
}

/// Where a program is started: in the directory asked for, if it exists; where none is
/// asked for, in the directory `target` its path names, if that exists; and else at
/// home. `explicit_dir` and `target_dir` say whether these two exist.
pub open spec fn workdir(
    cmd: Seq<char>,
    explicit: Seq<char>,
    target: Option<Seq<char>>,
    explicit_dir: bool,
    target_dir: bool,
    home: Option<Seq<char>>,
) -> (Seq<char>, Option<WorkdirFallback>) {
    if trimmed(explicit).len() > 0 {
        if explicit_dir {
            (explicit, None)
        } else {
            home_or_nothing(home, WorkdirFallback::ExplicitMissing)
        }
    } else if is_url(cmd) {
        home_or_nothing(home, WorkdirFallback::NoTargetDir)
    } else {
        match target {
            Some(t) => if t.len() > 0 && target_dir {
                (t, None)
            } else {
                home_or_nothing(home, WorkdirFallback::NoTargetDir)
            },
            None => home_or_nothing(home, WorkdirFallback::NoTargetDir),
        }
    }
}

fn go_home(home: Option<String>, why: WorkdirFallback) -> (r: (String, Option<WorkdirFallback>))
    ensures
        (r.0@, r.1) == home_or_nothing(opt_view(home), why),
{
    match home {
        Some(h) => (h, Some(why)),
        None => {
            let e = String::new();
            assert(e@ =~= Seq::empty());
            (e, Some(WorkdirFallback::Unresolved))
        },
    }
}

/// Where a program is started.
pub fn choose_workdir(
    cmd: &str,
    explicit: &str,
    target: Option<String>,
    explicit_dir: bool,
    target_dir: bool,
    home: Option<String>,
) -> (r: (String, Option<WorkdirFallback>))
    ensures
        (r.0@, r.1) == workdir(
            cmd@,
            explicit@,
            opt_view(target),
            explicit_dir,
            target_dir,
            opt_view(home),
        ),
{
    let asked = trim(explicit);
    if !asked.as_str().is_empty() {
        if explicit_dir {
            return (explicit.to_owned(), None);
        }
        return go_home(home, WorkdirFallback::ExplicitMissing);
    }
    if looks_like_url(cmd) {
        return go_home(home, WorkdirFallback::NoTargetDir);
    }
    match target {
        Some(t) => if !t.as_str().is_empty() && target_dir {
            (t, None)
        } else {
            go_home(home, WorkdirFallback::NoTargetDir)
        },
        None => go_home(home, WorkdirFallback::NoTargetDir),
    }
}

/// Whether a path is a single name: nothing in it separates components or names a
/// drive on any system.
pub open spec fn is_bare_name(path: Seq<char>) -> bool {
    path.len() > 0 && !path.contains('/') && !path.contains('\\') && !path.contains(':')
}

/// Whether `path` is the directory `dir`, a slash, and a name, in a form that every
/// system reads alike.
pub open spec fn lies_in(path: Seq<char>, dir: Seq<char>) -> bool {
    let name = path.skip(dir.len() as int + 1);
    &&& 0 < dir.len() < path.len()
    &&& path == dir + seq!['/'] + name
    &&& is_bare_name(name)
    &&& name != seq!['.']
    &&& !dir.contains('\\')
    &&& dir.last() != '/' && dir.last() != ':' && dir.last() != '.'
    &&& !(dir.len() >= 2 && dir[0] == '/' && dir[1] == '/')
}

/// What every system says of the path without its last component: it is a beginning
/// of the path. There is none for an empty path, an empty one for a single name, and
/// for a directory, a slash and a name it is the directory.
pub open spec fn may_be_parent(path: Seq<char>, r: Option<Seq<char>>) -> bool {
    &&& path.len() == 0 ==> r is None
    &&& r matches Some(t) ==> t.len() < path.len() && t == path.take(t.len() as int)
    &&& is_bare_name(path) ==> r == Some(Seq::<char>::empty())
    &&& forall|dir: Seq<char>| #[trigger] lies_in(path, dir) ==> r == Some(dir)
}

/// `std::path::Path::parent`: the path without its last component. What separates
/// components differs between systems, so only what [`may_be_parent`] says is claimed.
#[verifier::external_body]
fn parent_dir(path: &str) -> (r: Option<String>)
    ensures
        may_be_parent(path@, opt_view(r)),
{
    std::path::Path::new(path).parent().map(|p| p.to_string_lossy().into_owned())
}

/// Whether `r` is the home directory, or the lack of one, for the reason `why`.
pub open spec fn went_home<H: Fn() -> Option<String>>(
    home: H,
    why: WorkdirFallback,
    r: (Seq<char>, Option<WorkdirFallback>),
) -> bool {
    exists|h: Option<String>| #[trigger]
        call_ensures(home, (), h) && r == home_or_nothing(opt_view(h), why)
}

/// Whether `is_dir` may answer `b` for the directory `dir`.
pub open spec fn may_say<D: Fn(&str) -> bool>(is_dir: D, dir: Seq<char>, b: bool) -> bool {
    exists|p: &str| p@ == dir && #[trigger] call_ensures(is_dir, (p,), b)
}

/// Where a program is started; `is_dir` says whether a directory exists, and `home`
/// where the user's own is.
pub fn resolve_workdir_with<D: Fn(&str) -> bool, H: Fn() -> Option<String>>(
    cmd: &str,
    explicit: &str,
    is_dir: D,
    home: H,
) -> (r: (String, Option<WorkdirFallback>))
    requires
        forall|p: &str| call_requires(is_dir, (p,)),
        call_requires(home, ()),
    ensures
        trimmed(explicit@).len() > 0 ==> ({
            ||| call_ensures(is_dir, (explicit,), true) && r.0@ == explicit@ && r.1 is None
            ||| call_ensures(is_dir, (explicit,), false) && went_home(
                home,
                WorkdirFallback::ExplicitMissing,
                (r.0@, r.1),
            )
        }),
        trimmed(explicit@).len() == 0 && is_url(cmd@) ==> went_home(
            home,
            WorkdirFallback::NoTargetDir,
            (r.0@, r.1),
        ),
        trimmed(explicit@).len() == 0 && (cmd@.len() == 0 || is_bare_name(cmd@)) ==> went_home(
            home,
            WorkdirFallback::NoTargetDir,
            (r.0@, r.1),
        ),
        forall|dir: Seq<char>| #[trigger]
            lies_in(cmd@, dir) && trimmed(explicit@).len() == 0 && !is_url(cmd@) ==> {
                ||| may_say(is_dir, dir, true) && r.0@ == dir && r.1 is None
                ||| may_say(is_dir, dir, false) && went_home(
                    home,
                    WorkdirFallback::NoTargetDir,
                    (r.0@, r.1),
                )
            },
        trimmed(explicit@).len() == 0 ==> ({
            ||| {
                &&& r.1 is None
                &&& 0 < r.0@.len() < cmd@.len()
                &&& r.0@ == cmd@.take(r.0@.len() as int)
                &&& may_say(is_dir, r.0@, true)
            }
            ||| went_home(home, WorkdirFallback::NoTargetDir, (r.0@, r.1))
        }),
{
    let asked = trim(explicit);
    if !asked.as_str().is_empty() {
        if is_dir(explicit) {
            return choose_workdir(cmd, explicit, None, true, false, None);
        }
        let h = home();
        return choose_workdir(cmd, explicit, None, false, false, h);
    }
    if looks_like_url(cmd) {
        let h = home();
        return choose_workdir(cmd, explicit, None, false, false, h);
    }
    match parent_dir(cmd) {
        Some(t) => {
            if !t.as_str().is_empty() {
                let p = t.as_str();
                if is_dir(p) {
                    assert(may_say(is_dir, t@, true));
                    return choose_workdir(cmd, explicit, Some(t), false, true, None);
                }
                assert(may_say(is_dir, t@, false));
            }
            let h = home();
            choose_workdir(cmd, explicit, None, false, false, h)
        },
        None => {
            let h = home();
            choose_workdir(cmd, explicit, None, false, false, h)
        },
    }
}

/// While there is a home directory, a program is never started just anywhere, and
/// never in a directory that does not exist.
pub proof fn programs_start_somewhere_known(
    cmd: Seq<char>,
    explicit: Seq<char>,
    target: Option<Seq<char>>,
    explicit_dir: bool,
    target_dir: bool,
    home: Seq<char>,
)
    requires
        home.len() > 0,
    ensures
        ({
            let r = workdir(cmd, explicit, target, explicit_dir, target_dir, Some(home));
            &&& r.0.len() > 0
            &&& r.0 == home || (r.0 == explicit && explicit_dir) || (Some(r.0) == target
                && target_dir)
        }),
{
    if explicit.len() == 0 {
        assert(trimmed(explicit).len() == 0);
    }
}

/// Nothing is set only where nothing can be found, and then that is said.
pub proof fn an_empty_directory_is_reported(
    cmd: Seq<char>,
    explicit: Seq<char>,
    target: Option<Seq<char>>,
    explicit_dir: bool,
    target_dir: bool,
    home: Option<Seq<char>>,
)
    requires
        home matches Some(h) ==> h.len() > 0,
        workdir(cmd, explicit, target, explicit_dir, target_dir, home).0.len() == 0,
    ensures
        workdir(cmd, explicit, target, explicit_dir, target_dir, home).1 == Some(
            WorkdirFallback::Unresolved,
        ),
{
    if explicit.len() == 0 {
        assert(trimmed(explicit).len() == 0);
    }
}

/// An effect only runs once the texts before it had time to arrive: when it starts,
/// no text is pending, and a pause came if one was.
pub proof fn effects_wait_for_texts(m: RunModel)
    requires
        0 <= m.at < m.kinds.len(),
        m.kinds[m.at] == ActionKind::Effect,
    ensures
        !m.readied().text_pending,
        m.text_pending ==> m.pauses(),
{
}

/// Only the first error is kept.
pub proof fn first_error_stays(m: RunModel, result: Result<Seq<char>, Seq<char>>)
    requires
        m.first_err is Some,
    ensures
        m.advanced(result).first_err == m.first_err,
        m.readied().first_err == m.first_err,
{
}

/// Only the first text waits for the composition to go, and an empty text is never
/// sent.
pub proof fn only_the_first_text_waits(m: RunModel, result: Result<Seq<char>, Seq<char>>)
    ensures
        m.push_of(result) matches Some(p) ==> {
            &&& p.1.len() > 0
            &&& p.0 == m.first_text
            &&& !m.advanced(result).first_text
        },
{
}

/// A run of the first `n` actions, which came to `results`.
pub open spec fn run_after(
    kinds: Seq<ActionKind>,
    results: Seq<Result<Seq<char>, Seq<char>>>,
    n: int,
) -> RunModel
    decreases n,
{
    if n <= 0 {
        fresh_run(kinds)
    } else {
        run_after(kinds, results, n - 1).readied().advanced(results[n - 1])
    }
}

/// Whether action `i` sends a text.
pub open spec fn sends(
    kinds: Seq<ActionKind>,
    results: Seq<Result<Seq<char>, Seq<char>>>,
    i: int,
) -> bool {
    kinds[i] == ActionKind::Text && results[i] is Ok && results[i]->Ok_0.len() > 0
}

/// A whole run goes through its actions one by one, whatever they come to. A text waits if
/// and only if none was sent before it; an effect waits if and only if a text was sent
/// and no effect came between; and the error shown is that of the first action that
/// failed.
pub proof fn a_run_goes_through_its_actions(
    kinds: Seq<ActionKind>,
    results: Seq<Result<Seq<char>, Seq<char>>>,
    n: int,
)
    requires
        0 <= n <= kinds.len(),
        results.len() == kinds.len(),
    ensures
        run_after(kinds, results, n).at == n,
        run_after(kinds, results, n).kinds == kinds,
        run_after(kinds, results, n).first_text <==> forall|i: int|
            0 <= i < n ==> !#[trigger] sends(kinds, results, i),
        run_after(kinds, results, n).text_pending <==> exists|i: int|
            0 <= i < n && #[trigger] sends(kinds, results, i) && forall|j: int|
                i < j < n ==> kinds[j] != ActionKind::Effect,
        match run_after(kinds, results, n).first_err {
            None => forall|i: int| 0 <= i < n ==> (#[trigger] results[i]) is Ok,
            Some(e) => exists|i: int|
                0 <= i < n && #[trigger] results[i] == Err::<Seq<char>, Seq<char>>(e) && forall|
                    j: int,
                |
                    0 <= j < i ==> (#[trigger] results[j]) is Ok,
        },
    decreases n,
{
    if n > 0 {
        let m = n - 1;
        let r = run_after(kinds, results, m);
        let q = run_after(kinds, results, n);
        a_run_goes_through_its_actions(kinds, results, m);
        assert(r.readied().push_of(results[m]) is Some == sends(kinds, results, m));
        if q.text_pending {
            if sends(kinds, results, m) {
                assert(forall|j: int| m < j < n ==> kinds[j] != ActionKind::Effect);
            } else {
                assert(kinds[m] != ActionKind::Effect && r.text_pending);
                let i = choose|i: int|
                    0 <= i < m && #[trigger] sends(kinds, results, i) && forall|j: int|
                        i < j < m ==> kinds[j] != ActionKind::Effect;
                assert(forall|j: int| i < j < n ==> kinds[j] != ActionKind::Effect);
            }
        }
        if exists|i: int|
            0 <= i < n && #[trigger] sends(kinds, results, i) && forall|j: int|
                i < j < n ==> kinds[j] != ActionKind::Effect {
            let i = choose|i: int|
                0 <= i < n && #[trigger] sends(kinds, results, i) && forall|j: int|
                    i < j < n ==> kinds[j] != ActionKind::Effect;
            if i < m {
                assert(kinds[m] != ActionKind::Effect);
                assert(r.text_pending);
            }
            assert(q.text_pending);
        }
        if r.first_err is None && results[m] is Err {
            assert(results[m] == Err::<Seq<char>, Seq<char>>(q.first_err->0));
        }
    }
}

/// A command reads the history from the newest text on, counted from 1; there is nothing
/// before and nothing behind.
pub proof fn commands_count_commits_from_one(ctx: CmdbarCtx, n: int)
    ensures
        1 <= n <= ctx.last@.len() ==> ctx.last_text(n) == ctx.last@[n - 1]@,
        ctx.last@.len() > 0 ==> ctx.last_text(1) == ctx.last@[0]@,
        n < 1 || n > ctx.last@.len() ==> ctx.last_text(n).len() == 0,
{
}

/// A run starts with its first action, with nothing sent and nothing failed.
pub proof fn runs_start_at_their_first_action(kinds: Seq<ActionKind>)
    ensures
        fresh_run(kinds).at == 0,
        fresh_run(kinds).kinds == kinds,
        !fresh_run(kinds).text_pending,
        fresh_run(kinds).first_text,
        fresh_run(kinds).first_err is None,
{
}

/// Typing never waits for what was typed before, and an effect waits only where a text is
/// pending.
pub proof fn only_effects_wait_for_texts(m: RunModel)
    requires
        0 <= m.at < m.kinds.len(),
    ensures
        m.kinds[m.at] == ActionKind::Text ==> !m.pauses() && m.readied() == m,
        m.kinds[m.at] == ActionKind::Effect ==> m.pauses() == m.text_pending,
        m.readied().at == m.at && m.readied().first_text == m.first_text,
{
}

/// An action that types sends its text where it has one; an effect, a failure and an empty text
/// send nothing.
pub proof fn texts_are_sent_where_there_are_any(m: RunModel, t: Seq<char>, e: Seq<char>)
    requires
        0 <= m.at < m.kinds.len(),
    ensures
        m.kinds[m.at] == ActionKind::Text && t.len() > 0 ==> m.push_of(
            Ok::<Seq<char>, Seq<char>>(t),
        ) == Some((m.first_text, t)),
        m.kinds[m.at] == ActionKind::Text && t.len() == 0 ==> m.push_of(
            Ok::<Seq<char>, Seq<char>>(t),
        ) is None,
        m.kinds[m.at] == ActionKind::Effect ==> m.push_of(Ok::<Seq<char>, Seq<char>>(t)) is None,
        m.push_of(Err::<Seq<char>, Seq<char>>(e)) is None,
        m.advanced(Err::<Seq<char>, Seq<char>>(e)).at == m.at + 1,
        m.first_err is None ==> m.advanced(Err::<Seq<char>, Seq<char>>(e)).first_err == Some(e),
{
}

/// A failure is shown with what went wrong.
pub proof fn failures_say_what_went_wrong(msg: Seq<char>)
    ensures
        failure_text(msg) == "命令执行失败："@ + msg,
{
}

/// Texts are joined in order, and there is one only where every action gave one.
pub proof fn every_action_adds_its_text(texts: Seq<Option<String>>, t: Option<String>)
    ensures
        all_text(Seq::empty()) == Some(Seq::<char>::empty()),
        t is None ==> all_text(texts.push(t)) is None,
        all_text(texts) is None ==> all_text(texts.push(t)) is None,
        all_text(texts) matches Some(a) ==> (t matches Some(b) ==> all_text(texts.push(t)) == Some(
            a + b@,
        )),
{
    assert(texts.push(t).drop_last() =~= texts);
    assert(texts.push(t).last() == t);
}

/// The text of a command that does nothing but type is found by running its actions one after
/// the other, and is what they gave together. Any other command has none.
pub proof fn texts_are_found_action_by_action(kinds: Vec<ActionKind>, texts: Seq<Option<String>>)
    ensures
        only_text(kinds@) && all_text(texts) is Some && texts.len() < kinds@.len() ==> text_step(
            CommandEval::Single(kinds),
            texts,
        ) == TextStepModel::Run(texts.len() as int),
        only_text(kinds@) && texts.len() == kinds@.len() ==> text_step(
            CommandEval::Single(kinds),
            texts,
        ) == TextStepModel::Done(all_text(texts)),
        only_text(kinds@) && all_text(texts) is None ==> text_step(
            CommandEval::Single(kinds),
            texts,
        ) == TextStepModel::Done(None),
        (exists|i: int| 0 <= i < kinds@.len() && kinds@[i] == ActionKind::Effect) ==> text_step(
            CommandEval::Single(kinds),
            texts,
        ) == TextStepModel::Done(None),
        text_step(CommandEval::Array, texts) == TextStepModel::Done(None),
{
}

/// A quote gets a backslash in front of it, and every other character stays.
pub proof fn quotes_are_escaped(a: Seq<char>, b: Seq<char>, c: char)
    ensures
        escaped(a + b) == escaped(a) + escaped(b),
        escaped(seq!['"']) == seq!['\\', '"'],
        c != '"' ==> escaped(seq![c]) == seq![c],
        escaped(Seq::empty()).len() == 0,
    decreases b.len(),
{
    reveal_with_fuel(escaped, 2);
    assert(seq![c].drop_last() =~= Seq::<char>::empty());
    assert(seq!['"'].drop_last() =~= Seq::<char>::empty());
    assert(escaped(seq!['"']) =~= seq!['\\', '"']);
    if c != '"' {
        assert(escaped(seq![c]) =~= seq![c]);
    }
    if b.len() == 0 {
        assert(a + b =~= a);
        assert(escaped(a) + escaped(b) =~= escaped(a));
    } else {
        quotes_are_escaped(a, b.drop_last(), c);
        assert((a + b).drop_last() =~= a + b.drop_last());
        assert((a + b).last() == b.last());
        assert(escaped(a + b) =~= escaped(a) + escaped(b));
    }
}

/// An argument with a space or a quote in it stands in quotes, and any other stands as it is.
pub proof fn arguments_are_quoted_where_they_must_be(s: Seq<char>)
    ensures
        !s.contains(' ') && !s.contains('"') ==> shell_arg(s) == s,
        s.contains(' ') || s.contains('"') ==> shell_arg(s) == seq!['"'] + escaped(s) + seq!['"'],
{
}

/// Arguments stand on the line in their order, apart by one space.
pub proof fn arguments_stand_apart_by_a_space(args: Seq<Seq<char>>, a: Seq<char>)
    ensures
        shell_line(Seq::empty()).len() == 0,
        shell_line(seq![a]) == shell_arg(a),
        args.len() > 0 ==> shell_line(args.push(a)) == shell_line(args) + seq![' '] + shell_arg(a),
{
    if args.len() > 0 {
        assert(args.push(a).drop_last() =~= args);
        assert(shell_line(args).push(' ') =~= shell_line(args) + seq![' ']);
    }
}

/// A target is an address where a colon and two slashes stand together in it.
pub proof fn addresses_hold_a_colon_and_slashes(cmd: Seq<char>, i: int)
    ensures
        0 <= i && i + 2 < cmd.len() && cmd[i] == ':' && cmd[i + 1] == '/' && cmd[i + 2] == '/'
            ==> is_url(cmd),
        !cmd.contains(':') || !cmd.contains('/') ==> !is_url(cmd),
{
    reveal_strlit("://");
    if 0 <= i && i + 2 < cmd.len() && cmd[i] == ':' && cmd[i + 1] == '/' && cmd[i + 2] == '/' {
        assert(cmd.subrange(i, i + 3) =~= "://"@);
    }
    if is_url(cmd) {
        let k = choose|k: int|
            0 <= k && k + 3 <= cmd.len() && #[trigger] cmd.subrange(k, k + 3) == "://"@;
        let t = cmd.subrange(k, k + 3);
        assert(t[0] == cmd[k] && t[1] == cmd[k + 1]);
        assert(t[0] == ':' && t[1] == '/');
    }
}

/// A program starts in the directory that was asked for, where it exists; where none was, in
/// the directory its path names; and else at home, with the reason.
pub proof fn programs_start_where_they_are_asked_to(
    cmd: Seq<char>,
    explicit: Seq<char>,
    target: Option<Seq<char>>,
    target_dir: bool,
    home: Option<Seq<char>>,
    h: Seq<char>,
)
    ensures
        trimmed(explicit).len() > 0 ==> workdir(cmd, explicit, target, true, target_dir, home) == (
            explicit,
            None::<WorkdirFallback>,
        ),
        trimmed(explicit).len() > 0 ==> workdir(cmd, explicit, target, false, target_dir, Some(h))
            == (h, Some(WorkdirFallback::ExplicitMissing)),
        trimmed(explicit).len() == 0 && !is_url(cmd) ==> (target matches Some(t) ==> (t.len() > 0
            ==> workdir(cmd, explicit, target, false, true, home) == (t, None::<WorkdirFallback>))),
        trimmed(explicit).len() == 0 && (is_url(cmd) || !target_dir || target is None) ==> workdir(
            cmd,
            explicit,
            target,
            true,
            target_dir,
            Some(h),
        ) == (h, Some(WorkdirFallback::NoTargetDir)),
        trimmed(explicit).len() > 0 ==> workdir(cmd, explicit, target, false, target_dir, None) == (
            Seq::<char>::empty(),
            Some(WorkdirFallback::Unresolved),
        ),
        trimmed(explicit).len() == 0 && is_url(cmd) ==> workdir(
            cmd,
            explicit,
            target,
            true,
            target_dir,
            None,
        ) == (Seq::<char>::empty(), Some(WorkdirFallback::Unresolved)),
{
}

/// Going home leads to the directory that is named as home, for the reason given; where none
/// is named, that is the reason.
pub proof fn home_is_where_the_host_says<H: Fn() -> Option<String>>(
    home: H,
    why: WorkdirFallback,
    r: (Seq<char>, Option<WorkdirFallback>),
    h: Option<String>,
)
    requires
        went_home(home, why, r),
        forall|x: Option<String>| #[trigger] call_ensures(home, (), x) ==> opt_view(x) == opt_view(h),
    ensures
        h matches Some(dir) ==> r == (dir@, Some(why)),
        h is None ==> r == (Seq::<char>::empty(), Some(WorkdirFallback::Unresolved)),
{
}

} // verus!

//! Snapshots of a git work tree and the way back to them.

use vstd::prelude::*;
use vstd::utf8::encode_utf8;
use crate::json::{as_nat, as_text, field, is_json, json_read, json_skims, lemma_items_said, members_said, object, object_text, pairs_said, parse, quoted, reads_alone, render_members, text, Json, JsonV, Members, Reading};
use crate::members::{can_read_names, law_written_members_come_apart, names_are_read, only_value, parts_of, parts_written, split_members, told_once, values_named, Parts};
use crate::order::{in_order, law_in_order, law_newest_comes_last, rising, sort_stable};
use crate::paths::{below, climbs, has_parent_part, join_path};
use crate::text::{behind, after_prefix, blank, chars_of, cut_first, cut_last, dec, first_at, has_at, hex, hex_u64, is_one_line, is_white, join, joined, last_at, law_lines_read_back, lemma_joined_with_feeds, lemma_lines_are_single, lines, lines_of, opt_text, rsplit_once, split_once, str_eq, strip_prefix, texts, trim, trimmed, trimmed_end, trimmed_start, with_feeds};

verus! {

/// How long one git command may take, in seconds.
pub const GIT_TIMEOUT_SEC: u64 = 30;

/// How long the lock of a repository is waited for, in milliseconds.
pub const LOCK_ACQUIRE_TIMEOUT_MS: u64 = 30_000;

/// How long is waited between two tries to take the lock, in milliseconds.
pub const LOCK_POLL_INTERVAL_MS: u64 = 50;

/// How many snapshots the index of a repository holds at most.
pub const SNAPSHOT_INDEX_MAX: usize = 100;

/// The file name of the index, in the git directory.
pub const SNAPSHOT_INDEX_NAME: &'static str = "fe-snapshots.ndjson";

/// The file name of the lock, in the git directory.
pub const LOCK_NAME: &'static str = "fe-rollback.lock";

/// The start of the FNV-1a hash.
pub const FNV_OFFSET: u64 = 0xcbf29ce484222325;

/// The factor of the FNV-1a hash.
pub const FNV_PRIME: u64 = 0x100000001b3;

/// The FNV-1a hash of some bytes.
pub open spec fn fnv(bytes: Seq<u8>) -> u64
    decreases bytes.len(),
{
    if bytes.len() == 0 {
        FNV_OFFSET
    } else {
        (fnv(bytes.drop_last()) ^ bytes.last() as u64).wrapping_mul(FNV_PRIME)
    }
}

/// The FNV-1a hash of a text, in sixteen hexadecimal digits.
pub open spec fn fnv_said(s: Seq<char>) -> Seq<char> {
    hex(fnv(encode_utf8(s)) as nat, 16)
}

/// The FNV-1a hash of a text, in sixteen hexadecimal digits.
pub fn fnv1a_64(s: &str) -> (r: String)
    ensures
        r@ == fnv_said(s@),
{
    let bytes = s.as_bytes();
    let mut h: u64 = FNV_OFFSET;
    let mut i: usize = 0;
    while i < bytes.len()
        invariant
            i <= bytes@.len(),
            h == fnv(bytes@.take(i as int)),
        decreases bytes@.len() - i,
    {
        proof {
            assert(bytes@.take(i + 1).drop_last() =~= bytes@.take(i as int));
        }
        h = (h ^ (bytes[i] as u64)).wrapping_mul(FNV_PRIME);
        i = i + 1;
    }
    proof {
        assert(bytes@.take(i as int) =~= bytes@);
    }
    hex_u64(h, 16)
}

/// Whether a character is a hexadecimal digit.
pub open spec fn is_hex(c: char) -> bool {
    ||| '0' <= c && c <= '9'
    ||| 'a' <= c && c <= 'f'
    ||| 'A' <= c && c <= 'F'
}

/// Whether a text is made of hexadecimal digits alone.
pub open spec fn all_hex(s: Seq<char>) -> bool {
    forall|i: int| 0 <= i < s.len() ==> is_hex(#[trigger] s[i])
}

/// Whether a text may stand for a commit: `HEAD`, or seven to forty hexadecimal digits.
pub open spec fn is_ref(s: Seq<char>) -> bool {
    s == "HEAD"@ || (7 <= s.len() <= 40 && all_hex(s))
}

/// No text that may stand for a commit can be taken for a flag.
pub proof fn law_ref_is_no_flag(s: Seq<char>)
    requires
        is_ref(s),
    ensures
        s.len() > 0,
        s[0] != '-',
{
    reveal_strlit("HEAD");
    if s != "HEAD"@ {
        assert(is_hex(s[0]));
    }
}

/// The way back from a change: what was done, or why nothing was.
#[derive(Debug, Clone)]
pub struct RollbackOutcome {
    pub applied: bool,
    pub skipped_reason: Option<String>,
    pub wip_sha: Option<String>,
}

/// What an outcome says.
pub struct OutcomeV {
    pub applied: bool,
    pub skipped_reason: Option<Seq<char>>,
    pub wip_sha: Option<Seq<char>>,
}

impl View for RollbackOutcome {
    type V = OutcomeV;

    open spec fn view(&self) -> OutcomeV {
        OutcomeV {
            applied: self.applied,
            skipped_reason: opt_text(self.skipped_reason),
            wip_sha: opt_text(self.wip_sha),
        }
    }
}

/// The outcome of a rollback that was done.
pub open spec fn applied_said(wip: Option<Seq<char>>) -> OutcomeV {
    OutcomeV { applied: true, skipped_reason: None, wip_sha: wip }
}

/// The outcome of a rollback that was not done.
pub open spec fn skipped_said(reason: Seq<char>) -> OutcomeV {
    OutcomeV { applied: false, skipped_reason: Some(reason), wip_sha: None }
}

impl RollbackOutcome {
    /// The outcome of a rollback that was done.
    pub fn applied(wip_sha: Option<String>) -> (r: Self)
        ensures
            r@ == applied_said(opt_text(wip_sha)),
    {
        RollbackOutcome { applied: true, skipped_reason: None, wip_sha }
    }

    /// The outcome of a rollback that was not done.
    pub fn skipped(reason: &str) -> (r: Self)
        ensures
            r@ == skipped_said(reason@),
    {
        RollbackOutcome { applied: false, skipped_reason: Some(reason.to_owned()), wip_sha: None }
    }
}

/// The identifier of a snapshot: the commit of a clean tree, or the commit that holds the changes
/// with the commit below them; and the repository, where it is known.
pub open spec fn snapshot_said(head: Seq<char>, stash: Seq<char>, repo: Seq<char>) -> Seq<char> {
    let tag = if repo.len() == 0 {
        Seq::<char>::empty()
    } else {
        ",repo:"@ + repo
    };
    if stash.len() == 0 {
        "head:"@ + head + tag
    } else {
        "stash:"@ + stash + ",base:"@ + head + tag
    }
}

/// The identifier of a snapshot.
pub fn snapshot_id(head: &str, stash: &str, repo: &str) -> (r: String)
    ensures
        r@ == snapshot_said(head@, stash@, repo@),
{
    let mut out: String = String::new();
    if stash.is_empty() {
        out.append("head:");
        out.append(head);
    } else {
        out.append("stash:");
        out.append(stash);
        out.append(",base:");
        out.append(head);
    }
    if !repo.is_empty() {
        out.append(",repo:");
        out.append(repo);
    }
    proof {
        let tag = if repo@.len() == 0 {
            Seq::<char>::empty()
        } else {
            ",repo:"@ + repo@
        };
        if stash@.len() == 0 {
            assert(out@ =~= "head:"@ + head@ + tag);
        } else {
            assert(out@ =~= "stash:"@ + stash@ + ",base:"@ + head@ + tag);
        }
    }
    out
}

/// A text, where it is not empty.
pub open spec fn nonempty(s: Seq<char>) -> Option<Seq<char>> {
    if s.len() == 0 {
        None
    } else {
        Some(s)
    }
}

/// A string, where it is not empty.
fn some_nonempty(s: String) -> (r: Option<String>)
    ensures
        opt_text(r) == nonempty(s@),
{
    if s.as_str().is_empty() {
        None
    } else {
        Some(s)
    }
}

/// The parts of an identifier before and behind the mark of the repository.
pub open spec fn repo_split(s: Seq<char>) -> (Seq<char>, Option<Seq<char>>) {
    match cut_last(s, ",repo:"@) {
        Some((core, repo)) => (core, Some(repo)),
        None => (s, None),
    }
}

/// What an identifier says: its kind, the commit with the changes, the commit below them and the
/// repository.
pub open spec fn parsed_id(id: Seq<char>) -> Option<(Seq<char>, Option<Seq<char>>, Option<Seq<char>>, Option<Seq<char>>)> {
    match after_prefix(id, "head:"@) {
        Some(rest) => {
            let (sha, repo) = repo_split(rest);
            Some(("head"@, None, nonempty(sha), repo))
        },
        None => match after_prefix(id, "stash:"@) {
            Some(rest) => {
                let (core, repo) = repo_split(rest);
                match cut_first(core, ",base:"@) {
                    Some((stash, base)) => Some(("stash"@, Some(stash), nonempty(base), repo)),
                    None => Some(("stash"@, Some(core), None, repo)),
                }
            },
            None => None,
        },
    }
}

/// The texts of a parsed identifier.
pub open spec fn parts_said(p: Option<(&'static str, Option<String>, Option<String>, Option<String>)>) -> Option<(Seq<char>, Option<Seq<char>>, Option<Seq<char>>, Option<Seq<char>>)> {
    match p {
        Some((k, s, b, r)) => Some((k@, opt_text(s), opt_text(b), opt_text(r))),
        None => None,
    }
}

/// What a rollback would go back to: the commit to reset to, and the commit to apply on top; or the
/// reason why it may not.
pub enum Choice<T> {
    Go { baseline: T, stash: Option<T> },
    Skip(T),
}

/// What a rollback to an identifier would go back to.
pub open spec fn chosen(id: Seq<char>) -> Choice<Seq<char>> {
    match parsed_id(id) {
        Some((kind, stash, base, repo)) => {
            let baseline = match base {
                Some(b) => b,
                None => "HEAD"@,
            };
            match stash {
                None => if is_ref(baseline) {
                    Choice::Go { baseline, stash: None }
                } else {
                    Choice::Skip("baseline 非合法 ref"@)
                },
                Some(s) => if !is_ref(s) {
                    Choice::Skip("stash SHA 非合法 ref"@)
                } else if !is_ref(baseline) {
                    Choice::Skip("baseline 非合法 ref"@)
                } else {
                    Choice::Go { baseline, stash: Some(s) }
                },
            }
        },
        None => Choice::Skip("snapshot_id 解析失败"@),
    }
}

impl View for Choice<String> {
    type V = Choice<Seq<char>>;

    open spec fn view(&self) -> Choice<Seq<char>> {
        match self {
            Choice::Go { baseline, stash } => Choice::Go { baseline: baseline@, stash: opt_text(*stash) },
            Choice::Skip(r) => Choice::Skip(r@),
        }
    }
}

/// What a run over a repository is for.
pub enum Job<T> {
    /// To take a snapshot.
    Snapshot,
    /// To go back to a snapshot.
    Rollback { snapshot_id: T },
    /// To go back to the committed form of one file.
    File { path: T },
}

impl View for Job<String> {
    type V = Job<Seq<char>>;

    open spec fn view(&self) -> Job<Seq<char>> {
        match self {
            Job::Snapshot => Job::Snapshot,
            Job::Rollback { snapshot_id } => Job::Rollback { snapshot_id: snapshot_id@ },
            Job::File { path } => Job::File { path: path@ },
        }
    }
}

/// Where a run stands: each stage but the last waits for one answer.
pub enum Stage<T, O> {
    /// May this directory be worked in, going by the path as it is written?
    LiteralDir,
    /// Which directory does the path lead to?
    Canonical,
    /// May the directory that it leads to be worked in?
    RealDir { target: T },
    /// Is the directory in a work tree of git?
    IsRepo,
    /// Was the lock of the repository taken?
    Lock,
    /// What does `git rev-parse HEAD` give?
    Head,
    /// What does `git stash create` give, for a new snapshot?
    Stash { head: T },
    /// What does `git rev-parse --git-common-dir` give, to name the repository of a snapshot?
    NameDir { head: T, stash: T },
    /// Which directory does this path lead to, to name the repository of a snapshot?
    NameReal { head: T, stash: T, dir: T },
    /// What does `git rev-parse --git-common-dir` give, to compare the repository?
    MatchDir { expected: T },
    /// Which directory does this path lead to, to compare the repository?
    MatchReal { expected: T, dir: T },
    /// What does `git stash create` give, to keep what is about to be reset?
    Wip { baseline: T, stash: Option<T> },
    /// How did `git reset --hard` to this commit end?
    Reset { baseline: T, stash: Option<T>, wip: Option<T> },
    /// How did `git stash apply` of this commit end?
    Apply { stash: T, wip: Option<T> },
    /// How did `git checkout` of the file end?
    Checkout,
    /// The run is over.
    Over(End<T, O>),
}

/// How a run ends.
pub enum End<T, O> {
    /// It was refused, or could not be carried out.
    Refused(T),
    /// It gave the identifier of a snapshot, which is empty outside a repository.
    Taken(T),
    /// It gave the outcome of a rollback.
    Rolled(O),
    /// It went back to the committed form of a file, or not.
    File(bool),
}

impl View for End<String, RollbackOutcome> {
    type V = End<Seq<char>, OutcomeV>;

    open spec fn view(&self) -> End<Seq<char>, OutcomeV> {
        match self {
            End::Refused(s) => End::Refused(s@),
            End::Taken(s) => End::Taken(s@),
            End::Rolled(o) => End::Rolled(o@),
            End::File(b) => End::File(*b),
        }
    }
}

impl View for Stage<String, RollbackOutcome> {
    type V = Stage<Seq<char>, OutcomeV>;

    open spec fn view(&self) -> Stage<Seq<char>, OutcomeV> {
        match self {
            Stage::LiteralDir => Stage::LiteralDir,
            Stage::Canonical => Stage::Canonical,
            Stage::RealDir { target } => Stage::RealDir { target: target@ },
            Stage::IsRepo => Stage::IsRepo,
            Stage::Lock => Stage::Lock,
            Stage::Head => Stage::Head,
            Stage::Stash { head } => Stage::Stash { head: head@ },
            Stage::NameDir { head, stash } => Stage::NameDir { head: head@, stash: stash@ },
            Stage::NameReal { head, stash, dir } => Stage::NameReal { head: head@, stash: stash@, dir: dir@ },
            Stage::MatchDir { expected } => Stage::MatchDir { expected: expected@ },
            Stage::MatchReal { expected, dir } => Stage::MatchReal { expected: expected@, dir: dir@ },
            Stage::Wip { baseline, stash } => Stage::Wip { baseline: baseline@, stash: opt_text(*stash) },
            Stage::Reset { baseline, stash, wip } => Stage::Reset { baseline: baseline@, stash: opt_text(*stash), wip: opt_text(*wip) },
            Stage::Apply { stash, wip } => Stage::Apply { stash: stash@, wip: opt_text(*wip) },
            Stage::Checkout => Stage::Checkout,
            Stage::Over(e) => Stage::Over(e@),
        }
    }
}

/// What the surroundings answer to a stage.
pub enum Answer<T> {
    /// A directory may be worked in, or may not for a reason.
    Verdict { allowed: bool, reason: Option<T> },
    /// The directory that a path leads to, where there is one.
    Leads(Option<T>),
    /// Yes or no.
    Is(bool),
    /// The lock was taken, or was not for a reason.
    Locked(Option<T>),
    /// What a git command wrote.
    Wrote(T),
    /// Why a git command failed.
    Failed(T),
}

impl View for Answer<String> {
    type V = Answer<Seq<char>>;

    open spec fn view(&self) -> Answer<Seq<char>> {
        match self {
            Answer::Verdict { allowed, reason } => Answer::Verdict { allowed: *allowed, reason: opt_text(*reason) },
            Answer::Leads(p) => Answer::Leads(opt_text(*p)),
            Answer::Is(b) => Answer::Is(*b),
            Answer::Locked(e) => Answer::Locked(opt_text(*e)),
            Answer::Wrote(s) => Answer::Wrote(s@),
            Answer::Failed(s) => Answer::Failed(s@),
        }
    }
}

/// A run over a repository: what it is for, where, and where it stands.
pub struct Run<T, O> {
    pub job: Job<T>,
    pub cwd: T,
    pub stage: Stage<T, O>,
}

impl View for Run<String, RollbackOutcome> {
    type V = Run<Seq<char>, OutcomeV>;

    open spec fn view(&self) -> Run<Seq<char>, OutcomeV> {
        Run { job: self.job@, cwd: self.cwd@, stage: self.stage@ }
    }
}

/// The stage of a run that was refused.
pub open spec fn refused(reason: Seq<char>) -> Stage<Seq<char>, OutcomeV> {
    Stage::Over(End::Refused(reason))
}

/// The stage of a rollback that was not done.
pub open spec fn skip(reason: Seq<char>) -> Stage<Seq<char>, OutcomeV> {
    Stage::Over(End::Rolled(skipped_said(reason)))
}

/// A text, or the empty text where there is none.
pub open spec fn or_empty(s: Option<Seq<char>>) -> Seq<char> {
    match s {
        Some(s) => s,
        None => Seq::empty(),
    }
}

/// How a run starts: without a directory, or with one above another, it is refused.
pub open spec fn run_start(cwd: Seq<char>) -> Stage<Seq<char>, OutcomeV> {
    if trimmed(cwd).len() == 0 {
        refused("cwd 为空, 拒绝执行回滚操作"@)
    } else if climbs(cwd) {
        refused("cwd 含 .. 组件, 拒绝: "@ + cwd)
    } else {
        Stage::LiteralDir
    }
}

/// How a run goes on once it is known whether it is in a repository.
pub open spec fn after_repo(job: Job<Seq<char>>, is_repo: bool) -> Stage<Seq<char>, OutcomeV> {
    match job {
        Job::Snapshot => if is_repo {
            Stage::Lock
        } else {
            Stage::Over(End::Taken(Seq::empty()))
        },
        Job::Rollback { snapshot_id } => if !is_repo {
            skip("非 git 仓库"@)
        } else if snapshot_id.len() == 0 {
            skip("空 snapshot_id"@)
        } else {
            Stage::Lock
        },
        Job::File { path } => if is_repo {
            Stage::Lock
        } else {
            Stage::Over(End::File(false))
        },
    }
}

/// How a rollback goes on once the repository is known to be the right one.
pub open spec fn after_match(id: Seq<char>) -> Stage<Seq<char>, OutcomeV> {
    match chosen(id) {
        Choice::Go { baseline, stash } => Stage::Wip { baseline, stash },
        Choice::Skip(reason) => skip(reason),
    }
}

/// How a run goes on once it has the lock.
pub open spec fn after_lock(job: Job<Seq<char>>) -> Stage<Seq<char>, OutcomeV> {
    match job {
        Job::Snapshot => Stage::Head,
        Job::Rollback { snapshot_id } => match parsed_id(snapshot_id) {
            Some((kind, stash, base, repo)) => match repo {
                Some(expected) => Stage::MatchDir { expected },
                None => after_match(snapshot_id),
            },
            None => skip("snapshot_id 解析失败"@),
        },
        Job::File { path } => Stage::Checkout,
    }
}

/// How a rollback goes on with the name of the repository that it is in.
pub open spec fn after_name(job: Job<Seq<char>>, expected: Seq<char>, actual: Seq<char>) -> Stage<Seq<char>, OutcomeV> {
    if actual.len() == 0 {
        skip("cwd repo 标识不可解析"@)
    } else if actual != expected {
        skip("repo 标识不匹配 cwd"@)
    } else {
        match job {
            Job::Rollback { snapshot_id } => after_match(snapshot_id),
            _ => skip("snapshot_id 解析失败"@),
        }
    }
}

/// The stage behind a stage and its answer; an answer that does not fit changes nothing.
pub open spec fn next_stage(r: Run<Seq<char>, OutcomeV>, a: Answer<Seq<char>>) -> Stage<Seq<char>, OutcomeV> {
    match (r.stage, a) {
        (Stage::LiteralDir, Answer::Verdict { allowed, reason }) => if allowed {
            Stage::Canonical
        } else {
            refused("cwd 校验失败: "@ + or_empty(reason))
        },
        (Stage::Canonical, Answer::Leads(target)) => match target {
            Some(target) => Stage::RealDir { target },
            None => Stage::IsRepo,
        },
        (Stage::RealDir { target }, Answer::Verdict { allowed, reason }) => if allowed {
            Stage::IsRepo
        } else {
            refused("cwd 校验失败 (符号链接解析): "@ + or_empty(reason))
        },
        (Stage::IsRepo, Answer::Is(b)) => after_repo(r.job, b),
        (Stage::Lock, Answer::Locked(e)) => match e {
            Some(e) => refused(e),
            None => after_lock(r.job),
        },
        (Stage::Head, Answer::Wrote(s)) => Stage::Stash { head: trimmed(s) },
        (Stage::Head, Answer::Failed(e)) => refused(e),
        (Stage::Stash { head }, Answer::Wrote(s)) => Stage::NameDir { head, stash: trimmed(s) },
        (Stage::Stash { head }, Answer::Failed(e)) => refused(e),
        (Stage::NameDir { head, stash }, Answer::Wrote(s)) => if trimmed(s).len() == 0 {
            Stage::Over(End::Taken(snapshot_said(head, stash, Seq::empty())))
        } else {
            Stage::NameReal { head, stash, dir: below(r.cwd, trimmed(s)) }
        },
        (Stage::NameDir { head, stash }, Answer::Failed(e)) => Stage::Over(
            End::Taken(snapshot_said(head, stash, Seq::empty())),
        ),
        (Stage::NameReal { head, stash, dir }, Answer::Leads(p)) => Stage::Over(
            End::Taken(
                snapshot_said(
                    head,
                    stash,
                    fnv_said(
                        match p {
                            Some(p) => p,
                            None => dir,
                        },
                    ),
                ),
            ),
        ),
        (Stage::MatchDir { expected }, Answer::Wrote(s)) => if trimmed(s).len() == 0 {
            after_name(r.job, expected, Seq::empty())
        } else {
            Stage::MatchReal { expected, dir: below(r.cwd, trimmed(s)) }
        },
        (Stage::MatchDir { expected }, Answer::Failed(e)) => after_name(r.job, expected, Seq::empty()),
        (Stage::MatchReal { expected, dir }, Answer::Leads(p)) => after_name(
            r.job,
            expected,
            fnv_said(
                match p {
                    Some(p) => p,
                    None => dir,
                },
            ),
        ),
        (Stage::Wip { baseline, stash }, Answer::Wrote(s)) => Stage::Reset { baseline, stash, wip: nonempty(trimmed(s)) },
        (Stage::Wip { baseline, stash }, Answer::Failed(e)) => Stage::Reset { baseline, stash, wip: None },
        (Stage::Reset { baseline, stash, wip }, Answer::Wrote(s)) => match stash {
            Some(stash) => Stage::Apply { stash, wip },
            None => Stage::Over(End::Rolled(applied_said(wip))),
        },
        (Stage::Reset { baseline, stash, wip }, Answer::Failed(e)) => match stash {
            Some(stash) => skip("stash 回滚 reset --hard 失败"@),
            None => skip("reset --hard 失败"@),
        },
        (Stage::Apply { stash, wip }, Answer::Wrote(s)) => Stage::Over(End::Rolled(applied_said(wip))),
        (Stage::Apply { stash, wip }, Answer::Failed(e)) => skip("stash apply 失败"@),
        (Stage::Checkout, Answer::Wrote(s)) => Stage::Over(End::File(true)),
        (Stage::Checkout, Answer::Failed(e)) => Stage::Over(End::File(false)),
        _ => r.stage,
    }
}

/// A run with the stage behind an answer.
pub open spec fn run_next(r: Run<Seq<char>, OutcomeV>, a: Answer<Seq<char>>) -> Run<Seq<char>, OutcomeV> {
    Run { job: r.job, cwd: r.cwd, stage: next_stage(r, a) }
}

/// Takes snapshots of a work tree and goes back to them.
#[derive(Debug, Clone)]
pub struct RollbackManager {}

impl RollbackManager {
    /// A manager.
    pub fn new() -> (r: Self)
        ensures
            r == (RollbackManager {  }),
    {
        RollbackManager {  }
    }

    /// Whether a text may stand for a commit.
    pub fn is_valid_ref(s: &str) -> (r: bool)
        ensures
            r == is_ref(s@),
    {
        if str_eq(s, "HEAD") {
            return true;
        }
        let v = chars_of(s);
        if v.len() < 7 || v.len() > 40 {
            return false;
        }
        let mut i: usize = 0;
        while i < v.len()
            invariant
                v@ == s@,
                i <= v@.len(),
                s@ != "HEAD"@,
                forall|k: int| 0 <= k < i ==> is_hex(#[trigger] s@[k]),
            decreases v@.len() - i,
        {
            let c = v[i];
            let ok = ('0' <= c && c <= '9') || ('a' <= c && c <= 'f') || ('A' <= c && c <= 'F');
            if !ok {
                proof {
                    assert(!is_hex(s@[i as int]));
                }
                return false;
            }
            i = i + 1;
        }
        true
    }

    /// The parts of an identifier before and behind the mark of the repository.
    pub fn split_repo_tag(s: &str) -> (r: (String, Option<String>))
        ensures
            (r.0@, opt_text(r.1)) == repo_split(s@),
    {
        match rsplit_once(s, ",repo:") {
            Some((core, repo)) => (core, Some(repo)),
            None => (s.to_owned(), None),
        }
    }

    /// What an identifier says.
    pub fn parse_snapshot(id: &str) -> (r: Option<(&'static str, Option<String>, Option<String>, Option<String>)>)
        ensures
            parts_said(r) == parsed_id(id@),
    {
        if let Some(rest) = strip_prefix(id, "head:") {
            let (sha, repo) = Self::split_repo_tag(rest.as_str());
            return Some(("head", None, some_nonempty(sha), repo));
        }
        if let Some(rest) = strip_prefix(id, "stash:") {
            let (core, repo) = Self::split_repo_tag(rest.as_str());
            return match split_once(core.as_str(), ",base:") {
                Some((stash, base)) => Some(("stash", Some(stash), some_nonempty(base), repo)),
                None => Some(("stash", Some(core), None, repo)),
            };
        }
        None
    }

    /// What a rollback to an identifier would go back to.
    pub fn choose_target(id: &str) -> (r: Choice<String>)
        ensures
            r@ == chosen(id@),
    {
        match Self::parse_snapshot(id) {
            Some((_kind, stash, base, _repo)) => {
                let baseline = match base {
                    Some(b) => b,
                    None => "HEAD".to_owned(),
                };
                match stash {
                    None => {
                        if Self::is_valid_ref(baseline.as_str()) {
                            Choice::Go { baseline, stash: None }
                        } else {
                            Choice::Skip("baseline 非合法 ref".to_owned())
                        }
                    },
                    Some(s) => {
                        if !Self::is_valid_ref(s.as_str()) {
                            Choice::Skip("stash SHA 非合法 ref".to_owned())
                        } else if !Self::is_valid_ref(baseline.as_str()) {
                            Choice::Skip("baseline 非合法 ref".to_owned())
                        } else {
                            Choice::Go { baseline, stash: Some(s) }
                        }
                    },
                }
            },
            None => Choice::Skip("snapshot_id 解析失败".to_owned()),
        }
    }
}

impl Default for RollbackManager {
    fn default() -> (r: Self)
        ensures
            r == (RollbackManager {  }),
    {
        RollbackManager::new()
    }
}

/// The stage of a run that was refused.
fn refuse(reason: String) -> (r: Stage<String, RollbackOutcome>)
    ensures
        r@ == refused(reason@),
{
    Stage::Over(End::Refused(reason))
}

/// The stage of a rollback that was not done.
fn skip_for(reason: &str) -> (r: Stage<String, RollbackOutcome>)
    ensures
        r@ == skip(reason@),
{
    Stage::Over(End::Rolled(RollbackOutcome::skipped(reason)))
}

/// The stage behind the lock of a rollback to the right repository.
fn go_to(id: &str) -> (r: Stage<String, RollbackOutcome>)
    ensures
        r@ == after_match(id@),
{
    match RollbackManager::choose_target(id) {
        Choice::Go { baseline, stash } => Stage::Wip { baseline, stash },
        Choice::Skip(reason) => skip_for(reason.as_str()),
    }
}

/// The stage behind the name of the repository.
fn compare_name(job: &Job<String>, expected: &str, actual: &str) -> (r: Stage<String, RollbackOutcome>)
    ensures
        r@ == after_name(job@, expected@, actual@),
{
    if actual.is_empty() {
        skip_for("cwd repo 标识不可解析")
    } else if !str_eq(actual, expected) {
        skip_for("repo 标识不匹配 cwd")
    } else {
        match job {
            Job::Rollback { snapshot_id } => go_to(snapshot_id.as_str()),
            _ => skip_for("snapshot_id 解析失败"),
        }
    }
}

/// The stage behind the question whether there is a repository.
fn check_repo(job: &Job<String>, is_repo: bool) -> (r: Stage<String, RollbackOutcome>)
    ensures
        r@ == after_repo(job@, is_repo),
{
    match job {
        Job::Snapshot => if is_repo {
            Stage::Lock
        } else {
            Stage::Over(End::Taken(String::new()))
        },
        Job::Rollback { snapshot_id } => if !is_repo {
            skip_for("非 git 仓库")
        } else if snapshot_id.as_str().is_empty() {
            skip_for("空 snapshot_id")
        } else {
            Stage::Lock
        },
        Job::File { path: _ } => if is_repo {
            Stage::Lock
        } else {
            Stage::Over(End::File(false))
        },
    }
}

/// The stage behind the lock.
fn with_lock(job: &Job<String>) -> (r: Stage<String, RollbackOutcome>)
    ensures
        r@ == after_lock(job@),
{
    match job {
        Job::Snapshot => Stage::Head,
        Job::Rollback { snapshot_id } => match RollbackManager::parse_snapshot(snapshot_id.as_str()) {
            Some((_kind, _stash, _base, repo)) => match repo {
                Some(expected) => Stage::MatchDir { expected },
                None => go_to(snapshot_id.as_str()),
            },
            None => skip_for("snapshot_id 解析失败"),
        },
        Job::File { path: _ } => Stage::Checkout,
    }
}

impl RollbackManager {
    /// Checks a directory before anything is done in it.
    fn validate_cwd(cwd: &str) -> (r: Stage<String, RollbackOutcome>)
        ensures
            r@ == run_start(cwd@),
    {
        if blank(cwd) {
            refuse("cwd 为空, 拒绝执行回滚操作".to_owned())
        } else if has_parent_part(cwd) {
            refuse(behind("cwd 含 .. 组件, 拒绝: ", cwd))
        } else {
            Stage::LiteralDir
        }
    }

    /// Starts to take a snapshot.
    pub fn snapshot_create(&self, cwd: &str) -> (r: Run<String, RollbackOutcome>)
        ensures
            r@ == (Run { job: Job::Snapshot, cwd: cwd@, stage: run_start(cwd@) }),
    {
        let stage = Self::validate_cwd(cwd);
        Run { job: Job::Snapshot, cwd: cwd.to_owned(), stage }
    }

    /// Starts to go back to a snapshot.
    pub fn rollback(&self, snapshot_id: &str, cwd: &str) -> (r: Run<String, RollbackOutcome>)
        ensures
            r@ == (Run { job: Job::Rollback { snapshot_id: snapshot_id@ }, cwd: cwd@, stage: run_start(cwd@) }),
    {
        let stage = Self::validate_cwd(cwd);
        Run { job: Job::Rollback { snapshot_id: snapshot_id.to_owned() }, cwd: cwd.to_owned(), stage }
    }

    /// Starts to go back to the committed form of one file.
    pub fn rollback_file(&self, path: &str, cwd: &str) -> (r: Run<String, RollbackOutcome>)
        ensures
            r@ == (Run { job: Job::File { path: path@ }, cwd: cwd@, stage: run_start(cwd@) }),
    {
        let stage = Self::validate_cwd(cwd);
        Run { job: Job::File { path: path.to_owned() }, cwd: cwd.to_owned(), stage }
    }
}

/// A string, or the empty string where there is none.
fn unwrap_text(s: Option<String>) -> (r: String)
    ensures
        r@ == or_empty(opt_text(s)),
{
    match s {
        Some(s) => s,
        None => String::new(),
    }
}

/// Goes on behind the first question about the directory.
fn on_literal_dir(job: &Job<String>, cwd: &str, answer: Answer<String>) -> (r: Stage<String, RollbackOutcome>)
    ensures
        r@ == next_stage(Run { job: job@, cwd: cwd@, stage: Stage::LiteralDir }, answer@),
{
    match answer {
        Answer::Verdict { allowed, reason } => if allowed {
            Stage::Canonical
        } else {
            let why = unwrap_text(reason);
            refuse(behind("cwd 校验失败: ", why.as_str()))
        },
        _ => Stage::LiteralDir,
    }
}

/// Goes on with the directory that the path leads to.
fn on_canonical(job: &Job<String>, cwd: &str, answer: Answer<String>) -> (r: Stage<String, RollbackOutcome>)
    ensures
        r@ == next_stage(Run { job: job@, cwd: cwd@, stage: Stage::Canonical }, answer@),
{
    match answer {
        Answer::Leads(target) => match target {
            Some(target) => Stage::RealDir { target },
            None => Stage::IsRepo,
        },
        _ => Stage::Canonical,
    }
}

/// Goes on behind the second question about the directory.
fn on_real_dir(job: &Job<String>, cwd: &str, target: String, answer: Answer<String>) -> (r: Stage<String, RollbackOutcome>)
    ensures
        r@ == next_stage(Run { job: job@, cwd: cwd@, stage: Stage::RealDir { target: target@ } }, answer@),
{
    match answer {
        Answer::Verdict { allowed, reason } => if allowed {
            Stage::IsRepo
        } else {
            let why = unwrap_text(reason);
            refuse(behind("cwd 校验失败 (符号链接解析): ", why.as_str()))
        },
        _ => Stage::RealDir { target },
    }
}

/// Goes on with the commit below a new snapshot.
fn on_head(job: &Job<String>, cwd: &str, answer: Answer<String>) -> (r: Stage<String, RollbackOutcome>)
    ensures
        r@ == next_stage(Run { job: job@, cwd: cwd@, stage: Stage::Head }, answer@),
{
    match answer {
        Answer::Wrote(s) => Stage::Stash { head: trim(s.as_str()) },
        Answer::Failed(e) => refuse(e),
        _ => Stage::Head,
    }
}

/// Goes on with the commit that holds the changes.
fn on_stash(job: &Job<String>, cwd: &str, head: String, answer: Answer<String>) -> (r: Stage<String, RollbackOutcome>)
    ensures
        r@ == next_stage(Run { job: job@, cwd: cwd@, stage: Stage::Stash { head: head@ } }, answer@),
{
    match answer {
        Answer::Wrote(s) => Stage::NameDir { head, stash: trim(s.as_str()) },
        Answer::Failed(e) => refuse(e),
        _ => Stage::Stash { head },
    }
}

/// Goes on with the git directory of a new snapshot.
fn on_name_dir(job: &Job<String>, cwd: &str, head: String, stash: String, answer: Answer<String>) -> (r: Stage<String, RollbackOutcome>)
    ensures
        r@ == next_stage(Run { job: job@, cwd: cwd@, stage: Stage::NameDir { head: head@, stash: stash@ } }, answer@),
{
    proof {
        reveal_strlit("");
        assert(""@ =~= Seq::<char>::empty());
    }
    match answer {
        Answer::Wrote(s) => {
            let dir = trim(s.as_str());
            if dir.as_str().is_empty() {
                Stage::Over(End::Taken(snapshot_id(head.as_str(), stash.as_str(), "")))
            } else {
                Stage::NameReal { head, stash, dir: join_path(cwd, dir.as_str()) }
            }
        },
        Answer::Failed(_) => Stage::Over(End::Taken(snapshot_id(head.as_str(), stash.as_str(), ""))),
        _ => Stage::NameDir { head, stash },
    }
}

/// Goes on with the place of the git directory of a new snapshot.
fn on_name_real(job: &Job<String>, cwd: &str, head: String, stash: String, dir: String, answer: Answer<String>) -> (r: Stage<String, RollbackOutcome>)
    ensures
        r@ == next_stage(Run { job: job@, cwd: cwd@, stage: Stage::NameReal { head: head@, stash: stash@, dir: dir@ } }, answer@),
{
    match answer {
        Answer::Leads(p) => {
            let place = match p {
                Some(p) => p,
                None => dir,
            };
            let repo = fnv1a_64(place.as_str());
            Stage::Over(End::Taken(snapshot_id(head.as_str(), stash.as_str(), repo.as_str())))
        },
        _ => Stage::NameReal { head, stash, dir },
    }
}

/// Goes on with the git directory that is compared.
fn on_match_dir(job: &Job<String>, cwd: &str, expected: String, answer: Answer<String>) -> (r: Stage<String, RollbackOutcome>)
    ensures
        r@ == next_stage(Run { job: job@, cwd: cwd@, stage: Stage::MatchDir { expected: expected@ } }, answer@),
{
    proof {
        reveal_strlit("");
        assert(""@ =~= Seq::<char>::empty());
    }
    match answer {
        Answer::Wrote(s) => {
            let dir = trim(s.as_str());
            if dir.as_str().is_empty() {
                compare_name(job, expected.as_str(), "")
            } else {
                Stage::MatchReal { expected, dir: join_path(cwd, dir.as_str()) }
            }
        },
        Answer::Failed(_) => compare_name(job, expected.as_str(), ""),
        _ => Stage::MatchDir { expected },
    }
}

/// Goes on with the place of the git directory that is compared.
fn on_match_real(job: &Job<String>, cwd: &str, expected: String, dir: String, answer: Answer<String>) -> (r: Stage<String, RollbackOutcome>)
    ensures
        r@ == next_stage(Run { job: job@, cwd: cwd@, stage: Stage::MatchReal { expected: expected@, dir: dir@ } }, answer@),
{
    match answer {
        Answer::Leads(p) => {
            let place = match p {
                Some(p) => p,
                None => dir,
            };
            let actual = fnv1a_64(place.as_str());
            compare_name(job, expected.as_str(), actual.as_str())
        },
        _ => Stage::MatchReal { expected, dir },
    }
}

/// Goes on with the commit that keeps what is about to be reset.
fn capture_wip(job: &Job<String>, cwd: &str, baseline: String, stash: Option<String>, answer: Answer<String>) -> (r: Stage<String, RollbackOutcome>)
    ensures
        r@ == next_stage(Run { job: job@, cwd: cwd@, stage: Stage::Wip { baseline: baseline@, stash: opt_text(stash) } }, answer@),
{
    match answer {
        Answer::Wrote(s) => {
            let wip = some_nonempty(trim(s.as_str()));
            Stage::Reset { baseline, stash, wip }
        },
        Answer::Failed(_) => Stage::Reset { baseline, stash, wip: None },
        _ => Stage::Wip { baseline, stash },
    }
}

/// Goes on behind the reset.
fn on_reset(job: &Job<String>, cwd: &str, baseline: String, stash: Option<String>, wip: Option<String>, answer: Answer<String>) -> (r: Stage<String, RollbackOutcome>)
    ensures
        r@ == next_stage(Run { job: job@, cwd: cwd@, stage: Stage::Reset { baseline: baseline@, stash: opt_text(stash), wip: opt_text(wip) } }, answer@),
{
    match answer {
        Answer::Wrote(_) => match stash {
            Some(stash) => Stage::Apply { stash, wip },
            None => Stage::Over(End::Rolled(RollbackOutcome::applied(wip))),
        },
        Answer::Failed(_) => match stash {
            Some(_) => skip_for("stash 回滚 reset --hard 失败"),
            None => skip_for("reset --hard 失败"),
        },
        _ => Stage::Reset { baseline, stash, wip },
    }
}

/// Goes on behind the application of the changes.
fn on_apply(job: &Job<String>, cwd: &str, stash: String, wip: Option<String>, answer: Answer<String>) -> (r: Stage<String, RollbackOutcome>)
    ensures
        r@ == next_stage(Run { job: job@, cwd: cwd@, stage: Stage::Apply { stash: stash@, wip: opt_text(wip) } }, answer@),
{
    match answer {
        Answer::Wrote(_) => Stage::Over(End::Rolled(RollbackOutcome::applied(wip))),
        Answer::Failed(_) => skip_for("stash apply 失败"),
        _ => Stage::Apply { stash, wip },
    }
}

impl Run<String, RollbackOutcome> {
    /// Goes on with the answer to the stage that was waited for.
    pub fn step(self, answer: Answer<String>) -> (r: Run<String, RollbackOutcome>)
        ensures
            r@ == run_next(self@, answer@),
    {
        let job = self.job;
        let cwd = self.cwd;
        let at = cwd.as_str();
        let stage = match self.stage {
            Stage::LiteralDir => on_literal_dir(&job, at, answer),
            Stage::Canonical => on_canonical(&job, at, answer),
            Stage::RealDir { target } => on_real_dir(&job, at, target, answer),
            Stage::IsRepo => match answer {
                Answer::Is(b) => check_repo(&job, b),
                _ => Stage::IsRepo,
            },
            Stage::Lock => match answer {
                Answer::Locked(Some(e)) => refuse(e),
                Answer::Locked(None) => with_lock(&job),
                _ => Stage::Lock,
            },
            Stage::Head => on_head(&job, at, answer),
            Stage::Stash { head } => on_stash(&job, at, head, answer),
            Stage::NameDir { head, stash } => on_name_dir(&job, at, head, stash, answer),
            Stage::NameReal { head, stash, dir } => on_name_real(&job, at, head, stash, dir, answer),
            Stage::MatchDir { expected } => on_match_dir(&job, at, expected, answer),
            Stage::MatchReal { expected, dir } => on_match_real(&job, at, expected, dir, answer),
            Stage::Wip { baseline, stash } => capture_wip(&job, at, baseline, stash, answer),
            Stage::Reset { baseline, stash, wip } => on_reset(&job, at, baseline, stash, wip, answer),
            Stage::Apply { stash, wip } => on_apply(&job, at, stash, wip, answer),
            Stage::Checkout => match answer {
                Answer::Wrote(_) => Stage::Over(End::File(true)),
                Answer::Failed(_) => Stage::Over(End::File(false)),
                _ => Stage::Checkout,
            },
            Stage::Over(e) => Stage::Over(e),
        };
        Run { job, cwd, stage }
    }
}

/// Whether what a run is about to do is harmless: it resets only to, and applies only, what may
/// stand for a commit, and only for a rollback whose identifier says so.
pub open spec fn run_is_safe(r: Run<Seq<char>, OutcomeV>) -> bool {
    match r.stage {
        Stage::Wip { baseline, stash } => {
            &&& r.job is Rollback
            &&& chosen(r.job->snapshot_id) == Choice::Go { baseline, stash }
        },
        Stage::Reset { baseline, stash, wip } => {
            &&& r.job is Rollback
            &&& chosen(r.job->snapshot_id) == Choice::Go { baseline, stash }
        },
        Stage::Apply { stash, wip } => {
            &&& r.job is Rollback
            &&& chosen(r.job->snapshot_id) is Go
            &&& chosen(r.job->snapshot_id)->stash == Some(stash)
        },
        _ => true,
    }
}

/// Every run starts harmless, and every answer leaves it so.
pub proof fn law_runs_stay_safe(r: Run<Seq<char>, OutcomeV>, a: Answer<Seq<char>>)
    requires
        run_is_safe(r),
    ensures
        run_is_safe(run_next(r, a)),
        run_is_safe(Run { job: r.job, cwd: r.cwd, stage: run_start(r.cwd) }),
{
}

/// What is reset to or applied may stand for a commit, so no identifier can smuggle in a flag.
pub proof fn law_only_commits_are_reset_to(r: Run<Seq<char>, OutcomeV>)
    requires
        run_is_safe(r),
    ensures
        r.stage matches Stage::Reset { baseline, stash, wip } ==> is_ref(baseline),
        r.stage matches Stage::Apply { stash, wip } ==> is_ref(stash),
{
}

/// A snapshot that names its repository is gone back to only where the repository has that name.
pub proof fn law_other_repository_is_left_alone(r: Run<Seq<char>, OutcomeV>, a: Answer<Seq<char>>)
    requires
        r.stage is MatchReal,
        run_next(r, a).stage is Wip,
    ensures
        a is Leads,
        r.stage->MatchReal_expected == fnv_said(
            match a->Leads_0 {
                Some(p) => p,
                None => r.stage->MatchReal_dir,
            },
        ),
{
}

/// The repository that an identifier names.
pub open spec fn repo_named(id: Seq<char>) -> Option<Seq<char>> {
    match parsed_id(id) {
        Some((kind, stash, base, repo)) => repo,
        None => None,
    }
}

/// With the lock taken, a snapshot that names its repository is first compared with the one at hand.
pub proof fn law_named_repository_is_compared(r: Run<Seq<char>, OutcomeV>)
    requires
        r.job is Rollback,
        r.stage is Lock,
        repo_named(r.job->snapshot_id) is Some,
    ensures
        run_next(r, Answer::Locked(None)).stage == (Stage::<Seq<char>, OutcomeV>::MatchDir {
            expected: repo_named(r.job->snapshot_id)->0,
        }),
{
}

/// A reset comes only behind the try to keep what is about to be lost.
pub proof fn law_reset_comes_behind_capture(r: Run<Seq<char>, OutcomeV>, a: Answer<Seq<char>>)
    requires
        r.stage !is Reset,
        run_next(r, a).stage is Reset,
    ensures
        r.stage is Wip,
{
}

/// A rollback that is over was done, or says why it was not.
pub proof fn law_skipped_rollback_gives_a_reason(r: Run<Seq<char>, OutcomeV>, a: Answer<Seq<char>>)
    requires
        r.stage !is Over,
    ensures
        run_next(r, a).stage matches Stage::Over(End::Rolled(o)) ==> (o.applied <==> o.skipped_reason is None),
{
}

/// A text without commas behind the mark of a repository is found there.
proof fn lemma_repo_mark(core: Seq<char>, repo: Seq<char>)
    requires
        !repo.contains(','),
    ensures
        repo_split(core + ",repo:"@ + repo) == (core, Some(repo)),
{
    reveal_strlit(",repo:");
    let mark = ",repo:"@;
    let s = core + mark + repo;
    assert(mark.len() == 6 && mark[0] == ',');
    assert(s.subrange(core.len() as int, core.len() as int + 6) =~= mark);
    lemma_last_mark(s, mark, core.len() as int, s.len() as int);
    assert(s.subrange(0, core.len() as int) =~= core);
    assert(s.subrange(core.len() as int + 6, s.len() as int) =~= repo);
}

/// Without a comma behind it, a mark that starts with one is the last of its kind.
proof fn lemma_last_mark(s: Seq<char>, mark: Seq<char>, at: int, i: int)
    requires
        0 <= at <= i,
        mark.len() == 6,
        mark[0] == ',',
        forall|k: int| 0 < k < 6 ==> #[trigger] mark[k] != ',',
        has_at(s, mark, at),
        forall|k: int| at + 6 <= k < s.len() ==> #[trigger] s[k] != ',',
    ensures
        last_at(s, mark, i) == Some(at),
    decreases i,
{
    if i > at {
        if has_at(s, mark, i) {
            assert(s.subrange(i, i + 6)[0] == s[i]);
            assert(s[i] == ',');
            assert(s.subrange(at, at + 6)[i - at] == s[i]);
        }
        lemma_last_mark(s, mark, at, i - 1);
    }
}

/// A text without commas holds no mark that starts with one.
proof fn lemma_no_mark(s: Seq<char>, mark: Seq<char>, i: int)
    requires
        mark.len() > 0,
        mark[0] == ',',
        !s.contains(','),
    ensures
        last_at(s, mark, i) is None,
    decreases i + 1,
{
    if i >= 0 {
        if has_at(s, mark, i) {
            assert(s.subrange(i, i + mark.len())[0] == s[i]);
            assert(s.contains(s[i]));
        }
        lemma_no_mark(s, mark, i - 1);
    }
}

/// The first mark behind a text without commas is the one that follows it.
proof fn lemma_first_mark(stash: Seq<char>, mark: Seq<char>, rest: Seq<char>, i: int)
    requires
        mark.len() > 0,
        mark[0] == ',',
        !stash.contains(','),
        0 <= i <= stash.len(),
    ensures
        first_at(stash + mark + rest, mark, i) == Some(stash.len() as int),
    decreases stash.len() - i,
{
    let s = stash + mark + rest;
    assert(s.subrange(stash.len() as int, stash.len() as int + mark.len() as int) =~= mark);
    if i < stash.len() {
        if has_at(s, mark, i) {
            assert(s.subrange(i, i + mark.len())[0] == s[i]);
            assert(s[i] == stash[i]);
            assert(stash.contains(stash[i]));
        }
        lemma_first_mark(stash, mark, rest, i + 1);
    }
}

/// An identifier made from commits and a repository without commas is read back as it was made.
pub proof fn law_identifier_reads_back(head: Seq<char>, stash: Seq<char>, repo: Seq<char>)
    requires
        head.len() > 0,
        !head.contains(','),
        !stash.contains(','),
        !repo.contains(','),
    ensures
        parsed_id(snapshot_said(head, stash, repo)) == Some(
            (
                if stash.len() == 0 {
                    "head"@
                } else {
                    "stash"@
                },
                nonempty(stash),
                Some(head),
                nonempty(repo),
            ),
        ),
{
    reveal_strlit("head:");
    reveal_strlit("stash:");
    reveal_strlit(",repo:");
    reveal_strlit(",base:");
    let id = snapshot_said(head, stash, repo);
    let tag = if repo.len() == 0 {
        Seq::<char>::empty()
    } else {
        ",repo:"@ + repo
    };
    let core = if stash.len() == 0 {
        head
    } else {
        stash + ",base:"@ + head
    };
    let name = if stash.len() == 0 {
        "head:"@
    } else {
        "stash:"@
    };
    assert(id =~= name + (core + tag));
    assert(name.is_prefix_of(id)) by {
        assert(id.subrange(0, name.len() as int) =~= name);
    }
    assert(id.subrange(name.len() as int, id.len() as int) =~= core + tag);
    if stash.len() > 0 {
        assert(id[0] == 's');
        assert(!"head:"@.is_prefix_of(id)) by {
            if "head:"@.is_prefix_of(id) {
                assert(id.subrange(0, 5)[0] == 'h');
            }
        }
    }
    if repo.len() == 0 {
        assert(core + tag =~= core);
        lemma_core_has_no_repo(head, stash, core.len() as int);
    } else {
        assert(core + tag =~= core + ",repo:"@ + repo);
        lemma_repo_mark(core, repo);
    }
    if stash.len() > 0 {
        lemma_first_mark(stash, ",base:"@, head, 0);
        assert(core.subrange(0, stash.len() as int) =~= stash);
        assert(core.subrange(stash.len() as int + 6, core.len() as int) =~= head);
    }
}

/// The part of an identifier in front of the repository does not hold the mark of one.
proof fn lemma_core_has_no_repo(head: Seq<char>, stash: Seq<char>, i: int)
    requires
        !head.contains(','),
        !stash.contains(','),
    ensures
        ({
            let core = if stash.len() == 0 {
                head
            } else {
                stash + ",base:"@ + head
            };
            last_at(core, ",repo:"@, i) is None
        }),
    decreases i + 1,
{
    reveal_strlit(",repo:");
    reveal_strlit(",base:");
    let core = if stash.len() == 0 {
        head
    } else {
        stash + ",base:"@ + head
    };
    let mark = ",repo:"@;
    if i >= 0 {
        if has_at(core, mark, i) {
            assert(core.subrange(i, i + 6)[0] == core[i]);
            assert(core.subrange(i, i + 6)[1] == core[i + 1]);
            assert(core[i] == ',' && core[i + 1] == 'r');
            if stash.len() == 0 {
                assert(head.contains(head[i]));
            } else if i < stash.len() {
                assert(core[i] == stash[i]);
                assert(stash.contains(stash[i]));
            } else if i >= stash.len() + 6 {
                assert(core[i] == head[i - stash.len() - 6]);
                assert(head.contains(head[i - stash.len() - 6]));
            } else {
                assert(core[i] == ",base:"@[i - stash.len()]);
                assert(i == stash.len());
                assert(core[i + 1] == ",base:"@[1]);
            }
        }
        lemma_core_has_no_repo(head, stash, i - 1);
    }
}

/// The path of a git directory that git wrote, as seen from a working directory.
pub open spec fn git_dir_said(cwd: Seq<char>, wrote: Option<Seq<char>>) -> Option<Seq<char>> {
    match wrote {
        Some(s) => if trimmed(s).len() == 0 {
            None
        } else {
            Some(below(cwd, trimmed(s)))
        },
        None => None,
    }
}

/// The path of the git directory of a working directory, from what
/// `git rev-parse --git-common-dir` wrote there.
pub fn resolve_git_dir(cwd: &str, wrote: &Option<String>) -> (r: Option<String>)
    ensures
        opt_text(r) == git_dir_said(cwd@, opt_text(*wrote)),
{
    match wrote {
        Some(s) => {
            let dir = trim(s.as_str());
            if dir.as_str().is_empty() {
                None
            } else {
                Some(join_path(cwd, dir.as_str()))
            }
        },
        None => None,
    }
}

/// The place of a file in the git directory: in the one that git knows, else in the directory
/// `.git` where there is one, else nowhere.
pub open spec fn git_file_said(cwd: Seq<char>, git_dir: Option<Seq<char>>, dot_git: bool, name: Seq<char>) -> Option<Seq<char>> {
    match git_dir {
        Some(d) => Some(below(d, name)),
        None => if dot_git {
            Some(below(below(cwd, ".git"@), name))
        } else {
            None
        },
    }
}

/// The place of a file in the git directory.
fn git_file(cwd: &str, git_dir: &Option<String>, dot_git: bool, name: &str) -> (r: Option<String>)
    ensures
        opt_text(r) == git_file_said(cwd@, opt_text(*git_dir), dot_git, name@),
{
    match git_dir {
        Some(d) => Some(join_path(d.as_str(), name)),
        None => if dot_git {
            let d = join_path(cwd, ".git");
            Some(join_path(d.as_str(), name))
        } else {
            None
        },
    }
}

/// The place of the index of snapshots; outside a repository there is none.
pub fn snapshot_index_path(cwd: &str, git_dir: &Option<String>, dot_git: bool) -> (r: Option<String>)
    ensures
        opt_text(r) == git_file_said(cwd@, opt_text(*git_dir), dot_git, SNAPSHOT_INDEX_NAME@),
{
    git_file(cwd, git_dir, dot_git, SNAPSHOT_INDEX_NAME)
}

/// The place of the lock; outside a repository nothing is locked.
pub fn lock_path(cwd: &str, git_dir: &Option<String>, dot_git: bool) -> (r: Option<String>)
    ensures
        opt_text(r) == git_file_said(cwd@, opt_text(*git_dir), dot_git, LOCK_NAME@),
{
    git_file(cwd, git_dir, dot_git, LOCK_NAME)
}

/// How one try to take a lock ended.
pub enum LockTry {
    Taken,
    HeldByOther,
    Broken,
}

/// What to do behind a try to take a lock.
pub enum LockStep<T> {
    /// It is held.
    Hold,
    /// Wait as long as the interval says and try again.
    TryAgain,
    /// Give up with this message.
    GiveUp(T),
}

impl View for LockStep<String> {
    type V = LockStep<Seq<char>>;

    open spec fn view(&self) -> LockStep<Seq<char>> {
        match self {
            LockStep::Hold => LockStep::Hold,
            LockStep::TryAgain => LockStep::TryAgain,
            LockStep::GiveUp(s) => LockStep::GiveUp(s@),
        }
    }
}

/// What to do behind a try to take the lock at a path, with the time waited so far.
pub open spec fn lock_next(t: LockTry, waited_ms: u64, path: Seq<char>) -> LockStep<Seq<char>> {
    match t {
        LockTry::Taken => LockStep::Hold,
        LockTry::HeldByOther => if waited_ms >= LOCK_ACQUIRE_TIMEOUT_MS {
            LockStep::GiveUp("获取回滚锁超时 (30000ms): "@ + path)
        } else {
            LockStep::TryAgain
        },
        LockTry::Broken => LockStep::GiveUp("获取回滚锁失败 (IO 错误): "@ + path),
    }
}

/// What to do behind a try to take the lock at a path.
pub fn acquire(t: LockTry, waited_ms: u64, path: &str) -> (r: LockStep<String>)
    ensures
        r@ == lock_next(t, waited_ms, path@),
{
    match t {
        LockTry::Taken => LockStep::Hold,
        LockTry::HeldByOther => if waited_ms >= LOCK_ACQUIRE_TIMEOUT_MS {
            LockStep::GiveUp(behind("获取回滚锁超时 (30000ms): ", path))
        } else {
            LockStep::TryAgain
        },
        LockTry::Broken => LockStep::GiveUp(behind("获取回滚锁失败 (IO 错误): ", path)),
    }
}

/// One line of the index: a snapshot and when it was taken.
#[derive(Debug, Clone)]
pub struct SnapshotInfo {
    pub id: String,
    pub created_ms: u64,
    pub kind: String,
}

/// What a line of the index says.
pub struct SnapshotV {
    pub id: Seq<char>,
    pub created_ms: u64,
    pub kind: Seq<char>,
}

impl View for SnapshotInfo {
    type V = SnapshotV;

    open spec fn view(&self) -> SnapshotV {
        SnapshotV { id: self.id@, created_ms: self.created_ms, kind: self.kind@ }
    }
}

/// The kind of a snapshot.
pub open spec fn kind_said(id: Seq<char>) -> Option<Seq<char>> {
    match parsed_id(id) {
        Some((kind, stash, base, repo)) => Some(kind),
        None => None,
    }
}

/// The kind of a snapshot.
pub fn snapshot_kind(id: &str) -> (r: Option<&'static str>)
    ensures
        crate::text::opt_str(r) == kind_said(id@),
{
    match RollbackManager::parse_snapshot(id) {
        Some((kind, _stash, _base, _repo)) => Some(kind),
        None => None,
    }
}

/// The snapshot of an identifier, a time and a kind, where each is a value of its type.
pub open spec fn entry_with(id: Option<JsonV>, created_ms: Option<JsonV>, kind: Option<JsonV>) -> Option<SnapshotV> {
    match (as_text(id), as_nat(created_ms), as_text(kind)) {
        (Some(id), Some(created_ms), Some(kind)) => Some(SnapshotV { id, created_ms, kind }),
        _ => None,
    }
}

/// The snapshot that the members of an object describe: each of the three is there once, and the
/// name of every member can be read.
pub open spec fn entry_in_object(parts: Parts) -> Option<SnapshotV> {
    if names_are_read(parts) {
        entry_with(told_once(parts, "id"@), told_once(parts, "created_ms"@), told_once(parts, "kind"@))
    } else {
        None
    }
}

/// The snapshot that the items of an array describe: they are three, by their places.
pub open spec fn entry_in_array(j: Reading) -> Option<SnapshotV> {
    match j {
        Reading::Value(JsonV::Arr(v)) => if v.len() == 3 {
            entry_with(Some(v[0]), Some(v[1]), Some(v[2]))
        } else {
            None
        },
        _ => None,
    }
}

/// The snapshot that a line of the index describes, as an object or as an array.
pub open spec fn entry_said(line: Seq<char>) -> Option<SnapshotV> {
    if parts_of(line).len() == 0 {
        entry_in_array(json_read(line))
    } else if json_skims(line) {
        entry_in_object(parts_of(line))
    } else {
        None
    }
}

/// What an optional snapshot says.
pub open spec fn opt_entry(e: Option<SnapshotInfo>) -> Option<SnapshotV> {
    match e {
        Some(e) => Some(e@),
        None => None,
    }
}

/// The snapshot of an identifier, a time and a kind, where each is a value of its type.
fn entry_from(id: &Json, created_ms: &Json, kind: &Json) -> (r: Option<SnapshotInfo>)
    ensures
        opt_entry(r) == entry_with(Some(id@), Some(created_ms@), Some(kind@)),
{
    match (id.to_text(), created_ms.to_u64(), kind.to_text()) {
        (Some(id), Some(created_ms), Some(kind)) => Some(SnapshotInfo { id, created_ms, kind }),
        _ => None,
    }
}

/// The snapshot that a line of the index describes, as an object or as an array.
pub fn entry_of(line: &str) -> (r: Option<SnapshotInfo>)
    ensures
        opt_entry(r) == entry_said(line@),
{
    let parts = split_members(line);
    if parts.len() == 0 {
        return match parse(line) {
            Ok(Json::Arr(v)) => {
                proof {
                    lemma_items_said(v@);
                }
                if v.len() == 3 {
                    entry_from(&v[0], &v[1], &v[2])
                } else {
                    None
                }
            },
            _ => None,
        };
    }
    if !is_json(line) || !can_read_names(&parts) {
        return None;
    }
    match (only_value(&parts, "id"), only_value(&parts, "created_ms"), only_value(&parts, "kind")) {
        (Some(id), Some(created_ms), Some(kind)) => entry_from(&id, &created_ms, &kind),
        _ => None,
    }
}

/// The JSON object for a snapshot.
pub open spec fn entry_json(e: SnapshotV) -> JsonV {
    JsonV::Obj(
        map![
            "id"@ => JsonV::Str(e.id),
            "created_ms"@ => JsonV::UInt(e.created_ms),
            "kind"@ => JsonV::Str(e.kind)
        ],
    )
}

/// The JSON object for a snapshot.
pub fn entry_object(e: &SnapshotInfo) -> (r: Json)
    ensures
        r@ == entry_json(e@),
{
    let mut m: Vec<(String, Json)> = Vec::new();
    m.push(field("id", text(e.id.as_str())));
    m.push(field("created_ms", Json::UInt(e.created_ms)));
    m.push(field("kind", text(e.kind.as_str())));
    proof {
        reveal_with_fuel(members_said, 4);
        assert(m@.drop_last().drop_last().drop_last() =~= Seq::empty());
    }
    object(m)
}

/// The members of the line for a snapshot, in their order.
pub open spec fn entry_members(e: SnapshotV) -> Members {
    seq![("id"@, JsonV::Str(e.id)), ("created_ms"@, JsonV::UInt(e.created_ms)), ("kind"@, JsonV::Str(e.kind))]
}

/// The line for a snapshot, without its line feed.
pub open spec fn entry_line(e: SnapshotV) -> Seq<char> {
    object_text(entry_members(e))->0
}

/// The line for a snapshot, without its line feed. It is read as the same snapshot.
pub fn write_entry(e: &SnapshotInfo) -> (r: String)
    ensures
        r@ == entry_line(e@),
        entry_said(r@) == Some(e@),
        is_one_line(r@),
        r@.len() > 0,
        r@[0] == '{',
{
    let mut m: Vec<(String, Json)> = Vec::new();
    m.push(field("id", text(e.id.as_str())));
    m.push(field("created_ms", Json::UInt(e.created_ms)));
    m.push(field("kind", text(e.kind.as_str())));
    let r = render_members(&m);
    proof {
        assert(pairs_said(m@) =~= entry_members(e@));
        lemma_entry_reads_back(e@);
        assert(reads_alone(pairs_said(m@)[0].0, pairs_said(m@)[0].1));
        assert(reads_alone(pairs_said(m@)[1].0, pairs_said(m@)[1].1));
        assert(reads_alone(pairs_said(m@)[2].0, pairs_said(m@)[2].1));
    }
    match r {
        Some(line) => line,
        None => String::new(),
    }
}

/// The line for a snapshot can be written and, where its parts are read as what they are, is read as
/// the same snapshot.
proof fn lemma_entry_reads_back(e: SnapshotV)
    ensures
        object_text(entry_members(e)) is Some,
        entry_line(e).len() > 0,
        entry_line(e)[0] == '{',
        ({
            &&& json_skims(entry_line(e))
            &&& reads_alone("id"@, JsonV::Str(e.id))
            &&& reads_alone("created_ms"@, JsonV::UInt(e.created_ms))
            &&& reads_alone("kind"@, JsonV::Str(e.kind))
        }) ==> entry_said(entry_line(e)) == Some(e),
{
    let m = entry_members(e);
    law_written_members_come_apart(m);
    let parts = parts_written(m);
    assert(parts =~= seq![(quoted("id"@), quoted(e.id)), (quoted("created_ms"@), dec(e.created_ms as nat)), (quoted("kind"@), quoted(e.kind))]);
    if reads_alone("id"@, JsonV::Str(e.id)) && reads_alone("created_ms"@, JsonV::UInt(e.created_ms)) && reads_alone("kind"@, JsonV::Str(e.kind)) {
        reveal_strlit("id");
        reveal_strlit("created_ms");
        reveal_strlit("kind");
        assert("id"@.len() != "created_ms"@.len());
        assert("id"@.len() != "kind"@.len());
        assert("kind"@.len() != "created_ms"@.len());
        let p2 = parts.drop_last();
        let p1 = p2.drop_last();
        assert(p1.drop_last() =~= Seq::empty());
        reveal_with_fuel(values_named, 4);
        assert(parts.last().0 == quoted("kind"@));
        assert(p2.last().0 == quoted("created_ms"@));
        assert(p1.last().0 == quoted("id"@));
        assert(values_named(parts, "id"@) =~= seq![quoted(e.id)]);
        assert(values_named(parts, "created_ms"@) =~= seq![dec(e.created_ms as nat)]);
        assert(values_named(parts, "kind"@) =~= seq![quoted(e.kind)]);
    }
}

/// The lines of some that are not blank.
pub open spec fn filled(ls: Seq<Seq<char>>) -> Seq<Seq<char>>
    decreases ls.len(),
{
    if ls.len() == 0 {
        Seq::empty()
    } else if trimmed(ls.last()).len() == 0 {
        filled(ls.drop_last())
    } else {
        filled(ls.drop_last()).push(ls.last())
    }
}

/// The lines of a text that are not blank.
fn filled_lines(body: &str) -> (r: Vec<String>)
    ensures
        texts(r@) == filled(lines_of(body@)),
{
    let ls = lines(body);
    let mut out: Vec<String> = Vec::new();
    let mut i: usize = 0;
    while i < ls.len()
        invariant
            i <= ls@.len(),
            texts(out@) == filled(texts(ls@).take(i as int)),
        decreases ls@.len() - i,
    {
        proof {
            assert(texts(ls@).take(i + 1).drop_last() =~= texts(ls@).take(i as int));
        }
        if !blank(ls[i].as_str()) {
            let ghost before = texts(out@);
            out.push(ls[i].clone());
            proof {
                assert(texts(out@) =~= before.push(ls@[i as int]@));
            }
        }
        i = i + 1;
    }
    proof {
        assert(texts(ls@).take(i as int) =~= texts(ls@));
    }
    out
}

/// When the snapshot of a line was taken; a line that describes none counts as older than any.
pub open spec fn line_age(line: Seq<char>) -> u128 {
    match entry_said(line) {
        Some(e) => (e.created_ms + 1) as u128,
        None => 0,
    }
}

/// Lines beside their ages.
pub open spec fn aged(ls: Seq<Seq<char>>) -> Seq<(u128, Seq<char>)> {
    ls.map_values(|l: Seq<char>| (line_age(l), l))
}

/// The things of pairs without their numbers.
pub open spec fn unnumbered<T>(s: Seq<(u128, T)>) -> Seq<T> {
    s.map_values(|p: (u128, T)| p.1)
}

/// The lines that an index keeps: all of them while there are not too many, else the newest in
/// rising order of their age.
pub open spec fn pruned(ls: Seq<Seq<char>>) -> Seq<Seq<char>> {
    if ls.len() <= SNAPSHOT_INDEX_MAX {
        ls
    } else {
        let all = in_order(aged(ls));
        unnumbered(all.subrange(all.len() - SNAPSHOT_INDEX_MAX, all.len() as int))
    }
}

/// Keeps the newest lines of an index.
pub fn prune(ls: Vec<String>) -> (r: Vec<String>)
    ensures
        texts(r@) == pruned(texts(ls@)),
{
    if ls.len() <= SNAPSHOT_INDEX_MAX {
        return ls;
    }
    let ghost said = texts(ls@);
    let f = Ghost(|s: String| s@);
    let mut pairs: Vec<(u128, String)> = Vec::new();
    let mut i: usize = 0;
    while i < ls.len()
        invariant
            i <= ls@.len(),
            said == texts(ls@),
            pairs@.len() == i,
            forall|k: int| 0 <= k < i ==> (#[trigger] pairs@[k]).0 == line_age(said[k]) && pairs@[k].1@ == said[k],
        decreases ls@.len() - i,
    {
        let age: u128 = match entry_of(ls[i].as_str()) {
            Some(e) => (e.created_ms as u128) + 1,
            None => 0,
        };
        pairs.push((age, ls[i].clone()));
        i = i + 1;
    }
    proof {
        assert(crate::order::relabel(pairs@, f@) =~= aged(said));
        crate::order::lemma_order_relabel(pairs@, f@);
    }
    let sorted = sort_stable(pairs);
    proof {
        law_in_order(aged(said));
        assert(in_order(aged(said)) == crate::order::relabel(sorted@, f@));
    }
    let mut out: Vec<String> = Vec::new();
    let mut j: usize = sorted.len() - SNAPSHOT_INDEX_MAX;
    let ghost first = j;
    while j < sorted.len()
        invariant
            first == sorted@.len() - SNAPSHOT_INDEX_MAX,
            first <= j <= sorted@.len(),
            out@.len() == j - first,
            forall|k: int| 0 <= k < j - first ==> #[trigger] out@[k]@ == sorted@[first + k].1@,
        decreases sorted@.len() - j,
    {
        out.push(sorted[j].1.clone());
        j = j + 1;
    }
    proof {
        let all = in_order(aged(said));
        assert(texts(out@) =~= unnumbered(all.subrange(all.len() - SNAPSHOT_INDEX_MAX, all.len() as int)));
    }
    out
}

/// What is written to the index for a new snapshot, or nothing where the identifier is none.
pub open spec fn recorded(body: Option<Seq<char>>, id: Seq<char>, now_ms: u64) -> Option<Seq<char>> {
    match kind_said(id) {
        Some(kind) => {
            let before = filled(lines_of(or_empty(body)));
            Some(joined(pruned(before.push(entry_line(SnapshotV { id, created_ms: now_ms, kind }))), "\n"@) + "\n"@)
        },
        None => None,
    }
}

/// Whether a snapshot taken at this time is no older than any in an index.
pub open spec fn is_newest(body: Seq<char>, now_ms: u64) -> bool {
    forall|i: int|
        0 <= i < filled(lines_of(body)).len() ==> line_age(#[trigger] filled(lines_of(body))[i]) <= now_ms + 1
}

/// Adds a snapshot to what the index holds and drops the oldest lines that are too many. Unless the
/// clock was set back, the listing of what is written ends with the snapshot.
pub fn record_snapshot_index(body: &Option<String>, id: &str, now_ms: u64) -> (r: Option<String>)
    ensures
        opt_text(r) == recorded(opt_text(*body), id@, now_ms),
        r is Some == (kind_said(id@) is Some),
        (r matches Some(b) && !or_empty(opt_text(*body)).contains('\r')) ==> !r->Some_0@.contains('\r'),
        (r matches Some(b) && !or_empty(opt_text(*body)).contains('\r') && is_newest(or_empty(opt_text(*body)), now_ms)) ==> ends_with_snapshot(
            listed(r->Some_0@),
            SnapshotV { id: id@, created_ms: now_ms, kind: kind_said(id@)->Some_0 },
        ),
{
    let kind = match snapshot_kind(id) {
        Some(k) => k,
        None => {
            return None;
        },
    };
    let info = SnapshotInfo { id: id.to_owned(), created_ms: now_ms, kind: kind.to_owned() };
    let entry = write_entry(&info);
    let mut ls = match body {
        Some(b) => filled_lines(b.as_str()),
        None => Vec::new(),
    };
    proof {
        if *body is None {
            assert(texts(ls@) =~= filled(lines_of(or_empty(None))));
        }
    }
    let ghost before = texts(ls@);
    ls.push(entry);
    proof {
        assert(texts(ls@) =~= before.push(entry@));
    }
    let kept = prune(ls);
    let mut out = join(&kept, "\n");
    out.append("\n");
    proof {
        let old_body = or_empty(opt_text(*body));
        lemma_written_index(old_body, entry@, info@);
    }
    Some(out)
}

/// The snapshots that some lines describe, beside the times at which they were taken.
pub open spec fn entries(ls: Seq<Seq<char>>) -> Seq<(u128, SnapshotV)>
    decreases ls.len(),
{
    if ls.len() == 0 {
        Seq::empty()
    } else {
        match entry_said(ls.last()) {
            Some(e) => entries(ls.drop_last()).push((e.created_ms as u128, e)),
            None => entries(ls.drop_last()),
        }
    }
}

/// The snapshots in an index, the oldest first; lines that describe none are passed over.
pub open spec fn listed(body: Seq<char>) -> Seq<SnapshotV> {
    unnumbered(in_order(entries(filled(lines_of(body)))))
}

/// Whether a listing ends with a snapshot.
pub open spec fn ends_with_snapshot(l: Seq<SnapshotV>, e: SnapshotV) -> bool {
    l.len() > 0 && l.last() == e
}

/// The lines that are not blank are lines, and none of them is blank.
proof fn lemma_filled(ls: Seq<Seq<char>>, k: int)
    requires
        0 <= k < filled(ls).len(),
    ensures
        ls.contains(filled(ls)[k]),
        trimmed(filled(ls)[k]).len() > 0,
    decreases ls.len(),
{
    let front = ls.drop_last();
    if trimmed(ls.last()).len() > 0 && k == filled(front).len() {
        assert(ls.contains(ls.last()));
    } else {
        lemma_filled(front, k);
        let p = choose|p: int| 0 <= p < front.len() && front[p] == filled(ls)[k];
        assert(ls[p] == filled(ls)[k]);
    }
}

/// Lines of which none is blank are all kept.
proof fn lemma_none_is_blank(ls: Seq<Seq<char>>)
    requires
        forall|i: int| 0 <= i < ls.len() ==> trimmed(#[trigger] ls[i]).len() > 0,
    ensures
        filled(ls) == ls,
    decreases ls.len(),
{
    if ls.len() > 0 {
        let front = ls.drop_last();
        assert forall|i: int| 0 <= i < front.len() implies trimmed(#[trigger] front[i]).len() > 0 by {
            assert(front[i] == ls[i]);
        }
        lemma_none_is_blank(front);
        assert(trimmed(ls[ls.len() - 1]).len() > 0);
        assert(front.push(ls.last()) =~= ls);
    } else {
        assert(filled(ls) =~= ls);
    }
}

/// A text that begins with a curly bracket is not blank.
proof fn lemma_bracket_is_not_blank(s: Seq<char>)
    requires
        s.len() > 0,
        s[0] == '{',
    ensures
        trimmed(s).len() > 0,
    decreases s.len(),
{
    assert(trimmed_start(s) == s);
    lemma_end_keeps_the_first(s);
}

/// Taking white space off the end keeps a first character that is none.
proof fn lemma_end_keeps_the_first(s: Seq<char>)
    requires
        s.len() > 0,
        !is_white(s[0]),
    ensures
        trimmed_end(s).len() > 0,
    decreases s.len(),
{
    if is_white(s.last()) {
        assert(s.len() > 1);
        lemma_end_keeps_the_first(s.drop_last());
    }
}

/// The lines that an index keeps are among its lines.
proof fn lemma_kept_lines(ls: Seq<Seq<char>>, k: int)
    requires
        0 <= k < pruned(ls).len(),
    ensures
        ls.contains(pruned(ls)[k]),
{
    broadcast use vstd::seq_lib::group_to_multiset_ensures;

    if ls.len() > SNAPSHOT_INDEX_MAX {
        let all = in_order(aged(ls));
        law_in_order(aged(ls));
        let at = all.len() - SNAPSHOT_INDEX_MAX + k;
        let x = all[at];
        assert(all.contains(x));
        assert(all.to_multiset().count(x) > 0);
        assert(aged(ls).to_multiset().count(x) > 0);
        assert(aged(ls).contains(x));
        let p = choose|p: int| 0 <= p < aged(ls).len() && aged(ls)[p] == x;
        assert(ls[p] == x.1);
        assert(pruned(ls)[k] == x.1);
    } else {
        assert(ls[k] == pruned(ls)[k]);
    }
}

/// The snapshots that some lines describe are no younger than the youngest of them.
proof fn lemma_entries_are_no_younger(ls: Seq<Seq<char>>, now_ms: u64, k: int)
    requires
        forall|i: int| 0 <= i < ls.len() ==> line_age(#[trigger] ls[i]) <= now_ms + 1,
        0 <= k < entries(ls).len(),
    ensures
        entries(ls)[k].0 <= now_ms,
    decreases ls.len(),
{
    let front = ls.drop_last();
    assert(line_age(ls[ls.len() - 1]) <= now_ms + 1);
    assert forall|i: int| 0 <= i < front.len() implies line_age(#[trigger] front[i]) <= now_ms + 1 by {
        assert(front[i] == ls[i]);
    }
    if k < entries(front).len() {
        lemma_entries_are_no_younger(front, now_ms, k);
    }
}

/// What is written with a new line for a snapshot is read back: it holds no carriage return where
/// nothing did before, and where the snapshot is the newest its listing ends with it.
proof fn lemma_written_index(body: Seq<char>, entry: Seq<char>, e: SnapshotV)
    requires
        is_one_line(entry),
        entry.len() > 0,
        entry[0] == '{',
        entry_said(entry) == Some(e),
    ensures
        ({
            let written = joined(pruned(filled(lines_of(body)).push(entry)), "\n"@) + "\n"@;
            &&& !body.contains('\r') ==> !written.contains('\r')
            &&& !body.contains('\r') && is_newest(body, e.created_ms) ==> ends_with_snapshot(listed(written), e)
        }),
{
    let before = filled(lines_of(body));
    let all = before.push(entry);
    let kept = pruned(all);
    let written = joined(kept, "\n"@) + "\n"@;
    law_in_order(aged(all));
    assert(kept.len() > 0);
    lemma_joined_with_feeds(kept);
    if !body.contains('\r') {
        assert forall|i: int| 0 <= i < kept.len() implies is_one_line(#[trigger] kept[i]) && trimmed(kept[i]).len() > 0 by {
            lemma_kept_lines(all, i);
            let p = choose|p: int| 0 <= p < all.len() && all[p] == kept[i];
            if p < before.len() {
                lemma_filled(lines_of(body), p);
                let q = choose|q: int| 0 <= q < lines_of(body).len() && lines_of(body)[q] == before[p];
                lemma_lines_are_single(body, 0, q);
            } else {
                lemma_bracket_is_not_blank(entry);
            }
        }
        lemma_feeds_are_plain(kept);
        law_lines_read_back(kept);
        lemma_none_is_blank(kept);
        if is_newest(body, e.created_ms) {
            law_newest_line_is_kept(before, entry);
            let front = kept.drop_last();
            let es = entries(front);
            let x = (e.created_ms as u128, e);
            assert(entries(kept) == es.push(x));
            assert forall|i: int| 0 <= i < es.len() implies (#[trigger] es[i]).0 <= x.0 by {
                assert forall|k: int| 0 <= k < front.len() implies line_age(#[trigger] front[k]) <= e.created_ms + 1 by {
                    assert(front[k] == kept[k]);
                    lemma_kept_lines(all, k);
                    let p = choose|p: int| 0 <= p < all.len() && all[p] == kept[k];
                    if p < before.len() {
                        assert(line_age(before[p]) <= e.created_ms + 1);
                    }
                }
                lemma_entries_are_no_younger(front, e.created_ms, i);
            }
            law_newest_comes_last(es, x);
            assert(in_order(entries(kept)).last() == x);
        }
    }
}

/// Lines without carriage returns stay so when each gets its line feed.
proof fn lemma_feeds_are_plain(ls: Seq<Seq<char>>)
    requires
        forall|i: int| 0 <= i < ls.len() ==> is_one_line(#[trigger] ls[i]),
    ensures
        !with_feeds(ls).contains('\r'),
    decreases ls.len(),
{
    if ls.len() > 0 {
        let rest = ls.skip(1);
        assert forall|i: int| 0 <= i < rest.len() implies is_one_line(#[trigger] rest[i]) by {
            assert(rest[i] == ls[i + 1]);
        }
        lemma_feeds_are_plain(rest);
        let s = with_feeds(ls);
        assert(is_one_line(ls[0]));
        if s.contains('\r') {
            let p = choose|p: int| 0 <= p < s.len() && s[p] == '\r';
            if p < ls[0].len() {
                assert(ls[0].contains(ls[0][p]));
            } else if p > ls[0].len() {
                assert(with_feeds(rest)[p - ls[0].len() - 1] == '\r');
                assert(with_feeds(rest).contains('\r'));
            }
        }
    }
}

/// What some snapshots say.
pub open spec fn infos(v: Seq<SnapshotInfo>) -> Seq<SnapshotV> {
    v.map_values(|e: SnapshotInfo| e@)
}

impl RollbackManager {
    /// The snapshots in an index, the oldest first.
    pub fn list_snapshots(body: &str) -> (r: Vec<SnapshotInfo>)
        ensures
            infos(r@) == listed(body@),
    {
        let ls = filled_lines(body);
        let f = Ghost(|e: SnapshotInfo| e@);
        let mut pairs: Vec<(u128, SnapshotInfo)> = Vec::new();
        let mut i: usize = 0;
        proof {
            assert(crate::order::relabel(pairs@, f@) =~= entries(texts(ls@).take(0)));
        }
        while i < ls.len()
            invariant
                i <= ls@.len(),
                f@ == (|e: SnapshotInfo| e@),
                crate::order::relabel(pairs@, f@) == entries(texts(ls@).take(i as int)),
            decreases ls@.len() - i,
        {
            proof {
                assert(texts(ls@).take(i + 1).drop_last() =~= texts(ls@).take(i as int));
                assert(texts(ls@).take(i + 1).last() == ls@[i as int]@);
            }
            if let Some(e) = entry_of(ls[i].as_str()) {
                let ghost before = pairs@;
                pairs.push((e.created_ms as u128, e));
                proof {
                    assert(crate::order::relabel(pairs@, f@) =~= crate::order::relabel(before, f@).push((e.created_ms as u128, e@)));
                }
            }
            i = i + 1;
        }
        proof {
            assert(texts(ls@).take(i as int) =~= texts(ls@));
            crate::order::lemma_order_relabel(pairs@, f@);
        }
        let mut sorted = sort_stable(pairs);
        let ghost all = sorted@;
        let mut back: Vec<SnapshotInfo> = Vec::new();
        while sorted.len() > 0
            invariant
                sorted@ == all.take(sorted@.len() as int),
                sorted@.len() + back@.len() == all.len(),
                forall|k: int| 0 <= k < back@.len() ==> #[trigger] back@[k] == all[all.len() - 1 - k].1,
            decreases sorted@.len(),
        {
            let ghost before = sorted@;
            let p = sorted.pop().unwrap();
            proof {
                assert(before.last() == all[before.len() - 1]);
                assert(sorted@ =~= all.take(sorted@.len() as int));
            }
            back.push(p.1);
        }
        let mut out: Vec<SnapshotInfo> = Vec::new();
        while back.len() > 0
            invariant
                out@.len() + back@.len() == all.len(),
                forall|k: int| 0 <= k < back@.len() ==> #[trigger] back@[k] == all[all.len() - 1 - k].1,
                forall|k: int| 0 <= k < out@.len() ==> #[trigger] out@[k] == all[k].1,
            decreases back@.len(),
        {
            let e = back.pop().unwrap();
            out.push(e);
        }
        proof {
            assert(infos(out@) =~= unnumbered(crate::order::relabel(all, f@)));
        }
        out
    }
}

/// An index never holds more lines than it may.
pub proof fn law_index_is_bounded(ls: Seq<Seq<char>>)
    ensures
        pruned(ls).len() <= SNAPSHOT_INDEX_MAX,
{
    law_in_order(aged(ls));
}

/// The lines that an index drops are no newer than those that it keeps, and with those they are all
/// of its lines.
pub proof fn law_oldest_lines_are_dropped(ls: Seq<Seq<char>>, dropped: int, kept: int)
    requires
        ls.len() > SNAPSHOT_INDEX_MAX,
        0 <= dropped < ls.len() - SNAPSHOT_INDEX_MAX,
        ls.len() - SNAPSHOT_INDEX_MAX <= kept < ls.len(),
    ensures
        in_order(aged(ls)).len() == ls.len(),
        in_order(aged(ls)).to_multiset() == aged(ls).to_multiset(),
        in_order(aged(ls))[dropped].0 <= in_order(aged(ls))[kept].0,
        pruned(ls)[kept - (ls.len() - SNAPSHOT_INDEX_MAX)] == in_order(aged(ls))[kept].1,
{
    law_in_order(aged(ls));
}

/// A line that is no older than any other is kept, as the last one.
pub proof fn law_newest_line_is_kept(ls: Seq<Seq<char>>, entry: Seq<char>)
    requires
        forall|i: int| 0 <= i < ls.len() ==> line_age(#[trigger] ls[i]) <= line_age(entry),
    ensures
        pruned(ls.push(entry)).len() > 0,
        pruned(ls.push(entry)).last() == entry,
{
    let x = (line_age(entry), entry);
    assert(aged(ls.push(entry)) =~= aged(ls).push(x));
    assert forall|i: int| 0 <= i < aged(ls).len() implies (#[trigger] aged(ls)[i]).0 <= x.0 by {
        assert(line_age(ls[i]) <= line_age(entry));
    }
    law_newest_comes_last(aged(ls), x);
    law_in_order(aged(ls));
}

/// The snapshots in an index are listed in rising order of the times at which they were taken.
pub proof fn law_listing_is_rising(body: Seq<char>, i: int, j: int)
    requires
        0 <= i <= j < listed(body).len(),
    ensures
        listed(body)[i].created_ms <= listed(body)[j].created_ms,
{
    let es = entries(filled(lines_of(body)));
    law_in_order(es);
    lemma_entries_are_keyed(filled(lines_of(body)));
    lemma_order_keeps_keys(es, i);
    lemma_order_keeps_keys(es, j);
}

/// Whether each snapshot stands beside the time at which it was taken.
spec fn keyed(es: Seq<(u128, SnapshotV)>) -> bool {
    forall|k: int| 0 <= k < es.len() ==> (#[trigger] es[k]).0 == es[k].1.created_ms
}

/// Each snapshot stands beside the time at which it was taken.
proof fn lemma_entries_are_keyed(ls: Seq<Seq<char>>)
    ensures
        keyed(entries(ls)),
    decreases ls.len(),
{
    if ls.len() > 0 {
        lemma_entries_are_keyed(ls.drop_last());
    }
}

/// Each snapshot still stands beside the time at which it was taken once they are in order.
proof fn lemma_order_keeps_keys(es: Seq<(u128, SnapshotV)>, i: int)
    requires
        keyed(es),
        0 <= i < in_order(es).len(),
    ensures
        in_order(es)[i].0 == in_order(es)[i].1.created_ms,
{
    broadcast use vstd::seq_lib::group_to_multiset_ensures;

    law_in_order(es);
    let x = in_order(es)[i];
    assert(in_order(es).contains(x));
    assert(in_order(es).to_multiset().count(x) > 0);
    assert(es.to_multiset().count(x) > 0);
    assert(es.contains(x));
}

/// What may stand for a commit: the word for the current one, or seven to forty hexadecimal digits.
pub proof fn law_refs_are_commits(s: Seq<char>)
    ensures
        is_ref(s) <==> s == "HEAD"@ || (7 <= s.len() <= 40 && forall|i: int| 0 <= i < s.len() ==> ('0' <= #[trigger] s[i] <= '9' || 'a' <= s[i] <= 'f' || 'A' <= s[i] <= 'F')),
{
    if s != "HEAD"@ && 7 <= s.len() <= 40 && forall|i: int| 0 <= i < s.len() ==> ('0' <= #[trigger] s[i] <= '9' || 'a' <= s[i] <= 'f' || 'A' <= s[i] <= 'F') {
        assert(all_hex(s));
    }
    if all_hex(s) {
        assert forall|i: int| 0 <= i < s.len() implies ('0' <= #[trigger] s[i] <= '9' || 'a' <= s[i] <= 'f' || 'A' <= s[i] <= 'F') by {
            assert(is_hex(s[i]));
        }
    }
}

/// A commit has no comma.
proof fn lemma_ref_has_no_comma(s: Seq<char>)
    requires
        is_ref(s),
    ensures
        !s.contains(','),
        s.len() > 0,
{
    reveal_strlit("HEAD");
    if s.contains(',') {
        let i = choose|i: int| 0 <= i < s.len() && s[i] == ',';
        if s != "HEAD"@ {
            assert(is_hex(s[i]));
        }
    }
}

/// Going back to a snapshot goes back to what it was taken of: the identifier of a snapshot leads to
/// a reset to the commit that was current, and to the stash that was made, where one was; and where
/// there was nothing to stash, none is applied.
pub proof fn law_rollback_goes_back_to_the_snapshot(head: Seq<char>, stash: Seq<char>, repo: Seq<char>)
    requires
        is_ref(head),
        stash.len() == 0 || is_ref(stash),
        !repo.contains(','),
    ensures
        ({
            let go = chosen(snapshot_said(head, stash, repo));
            &&& go matches Choice::Go { baseline, stash: s } && baseline == head && (stash.len() == 0 ==> s is None) && (stash.len() > 0 ==> s == Some(stash))
            &&& repo.len() > 0 ==> repo_named(snapshot_said(head, stash, repo)) == Some(repo)
            &&& repo.len() == 0 ==> repo_named(snapshot_said(head, stash, repo)) is None
            &&& kind_said(snapshot_said(head, stash, repo)) == Some(
                if stash.len() == 0 {
                    "head"@
                } else {
                    "stash"@
                },
            )
        }),
{
    lemma_ref_has_no_comma(head);
    if stash.len() > 0 {
        lemma_ref_has_no_comma(stash);
    }
    law_identifier_reads_back(head, stash, repo);
}

/// A snapshot is made of what git gives: the current commit, the stash that it makes, and the name
/// of the repository where it has one.
pub proof fn law_snapshot_is_what_git_gives(r: Run<Seq<char>, OutcomeV>, s: Seq<char>, path: Option<Seq<char>>, e: Seq<char>)
    requires
        r.job is Snapshot,
    ensures
        r.stage is Head ==> run_next(r, Answer::Wrote(s)).stage == (Stage::<Seq<char>, OutcomeV>::Stash { head: trimmed(s) }),
        r.stage matches Stage::Stash { head } ==> run_next(r, Answer::Wrote(s)).stage == (Stage::<Seq<char>, OutcomeV>::NameDir { head, stash: trimmed(s) }),
        r.stage is Head || r.stage is Stash ==> run_next(r, Answer::Failed(e)).stage == Stage::<Seq<char>, OutcomeV>::Over(End::Refused(e)),
        r.stage matches Stage::NameDir { head, stash } ==> {
            &&& trimmed(s).len() > 0 ==> (run_next(r, Answer::Wrote(s)).stage matches Stage::NameReal { head: h, stash: t, dir } && h == head && t == stash)
            &&& trimmed(s).len() == 0 ==> run_next(r, Answer::Wrote(s)).stage == Stage::<Seq<char>, OutcomeV>::Over(End::Taken(snapshot_said(head, stash, Seq::empty())))
            &&& run_next(r, Answer::Failed(e)).stage == Stage::<Seq<char>, OutcomeV>::Over(End::Taken(snapshot_said(head, stash, Seq::empty())))
        },
        r.stage matches Stage::NameReal { head, stash, dir } ==> {
            &&& path is Some ==> run_next(r, Answer::Leads(path)).stage == Stage::<Seq<char>, OutcomeV>::Over(End::Taken(snapshot_said(head, stash, fnv_said(path->0))))
            &&& path is None ==> run_next(r, Answer::Leads(path)).stage == Stage::<Seq<char>, OutcomeV>::Over(End::Taken(snapshot_said(head, stash, fnv_said(dir))))
        },
{
}

/// A rollback keeps what is about to be lost, then resets to the commit of the snapshot, and then
/// applies its stash where it has one: it was done just where git did all of that, and then names
/// what was kept. Where git failed at the reset or the stash, it was not done, for a reason.
pub proof fn law_rollback_is_done_where_git_did_it(r: Run<Seq<char>, OutcomeV>, s: Seq<char>, e: Seq<char>)
    ensures
        r.stage matches Stage::Wip { baseline, stash } ==> {
            &&& run_next(r, Answer::Wrote(s)).stage matches Stage::Reset { baseline: b, stash: t, wip } && b == baseline && t == stash && (if trimmed(s).len() > 0 {
                wip == Some(trimmed(s))
            } else {
                wip is None
            })
            &&& run_next(r, Answer::Failed(e)).stage == (Stage::<Seq<char>, OutcomeV>::Reset { baseline, stash, wip: None })
        },
        r.stage matches Stage::Reset { baseline, stash, wip } ==> {
            &&& stash is Some ==> run_next(r, Answer::Wrote(s)).stage == (Stage::<Seq<char>, OutcomeV>::Apply { stash: stash->0, wip })
            &&& stash is None ==> (run_next(r, Answer::Wrote(s)).stage matches Stage::Over(End::Rolled(o)) && o.applied && o.wip_sha == wip && o.skipped_reason is None)
            &&& run_next(r, Answer::Failed(e)).stage matches Stage::Over(End::Rolled(o)) && !o.applied && o.skipped_reason is Some
        },
        r.stage matches Stage::Apply { stash, wip } ==> {
            &&& run_next(r, Answer::Wrote(s)).stage matches Stage::Over(End::Rolled(o)) && o.applied && o.wip_sha == wip && o.skipped_reason is None
            &&& run_next(r, Answer::Failed(e)).stage matches Stage::Over(End::Rolled(o)) && !o.applied && o.skipped_reason is Some
        },
        r.stage is Checkout ==> run_next(r, Answer::Wrote(s)).stage == Stage::<Seq<char>, OutcomeV>::Over(End::File(true)) && run_next(r, Answer::Failed(e)).stage == Stage::<Seq<char>, OutcomeV>::Over(End::File(false)),
{
}

/// With the lock taken, a rollback to a snapshot that names no repository goes on to what the
/// snapshot leads to, and so does one whose repository is the one at hand; a snapshot of another
/// repository, or one that leads to no commit, is not gone back to. A file is checked out, and a
/// snapshot is begun with the current commit.
pub proof fn law_locked_run_goes_on(r: Run<Seq<char>, OutcomeV>, expected: Seq<char>, actual: Seq<char>, e: Seq<char>)
    requires
        r.stage is Lock,
    ensures
        run_next(r, Answer::Locked(Some(e))).stage == Stage::<Seq<char>, OutcomeV>::Over(End::Refused(e)),
        r.job is Snapshot ==> run_next(r, Answer::Locked(None)).stage is Head,
        r.job is File ==> run_next(r, Answer::Locked(None)).stage is Checkout,
        r.job matches Job::Rollback { snapshot_id } ==> {
            &&& repo_named(snapshot_id) is None && chosen(snapshot_id) is Go ==> run_next(r, Answer::Locked(None)).stage == (Stage::<Seq<char>, OutcomeV>::Wip { baseline: chosen(snapshot_id)->baseline, stash: chosen(snapshot_id)->stash })
            &&& repo_named(snapshot_id) is None && !(chosen(snapshot_id) is Go) ==> (run_next(r, Answer::Locked(None)).stage matches Stage::Over(End::Rolled(o)) && !o.applied && o.skipped_reason is Some)
            &&& actual.len() > 0 && actual == expected && chosen(snapshot_id) is Go ==> after_name(r.job, expected, actual) == (Stage::<Seq<char>, OutcomeV>::Wip { baseline: chosen(snapshot_id)->baseline, stash: chosen(snapshot_id)->stash })
            &&& actual != expected || actual.len() == 0 ==> (after_name(r.job, expected, actual) matches Stage::Over(End::Rolled(o)) && !o.applied && o.skipped_reason is Some)
        },
{
}

/// A run begins with the verdict on its directory as it is written, goes on to where that leads, and
/// to the verdict on that; a refusal ends it with its reason. A directory that is empty, or that
/// climbs, is refused at once.
pub proof fn law_directory_is_judged_twice(r: Run<Seq<char>, OutcomeV>, reason: Option<Seq<char>>, target: Option<Seq<char>>)
    ensures
        trimmed(r.cwd).len() > 0 && !climbs(r.cwd) <==> run_start(r.cwd) is LiteralDir,
        !(run_start(r.cwd) is LiteralDir) ==> run_start(r.cwd) is Over && run_start(r.cwd)->Over_0 is Refused,
        r.stage is LiteralDir ==> run_next(r, Answer::Verdict { allowed: true, reason }).stage is Canonical,
        r.stage is LiteralDir || r.stage is RealDir ==> (run_next(r, Answer::Verdict { allowed: false, reason }).stage matches Stage::Over(End::Refused(why)) && (reason is Some ==> reason->0.is_suffix_of(why))),
        r.stage is Canonical && target is Some ==> run_next(r, Answer::Leads(target)).stage == (Stage::<Seq<char>, OutcomeV>::RealDir { target: target->0 }),
        r.stage is Canonical && target is None ==> run_next(r, Answer::Leads(target)).stage is IsRepo,
        r.stage is RealDir ==> run_next(r, Answer::Verdict { allowed: true, reason }).stage is IsRepo,
{
    if let Some(w) = reason {
        let a = "cwd 校验失败: "@ + w;
        let b = "cwd 校验失败 (符号链接解析): "@ + w;
        assert(a.subrange(a.len() - w.len(), a.len() as int) =~= w);
        assert(b.subrange(b.len() - w.len(), b.len() as int) =~= w);
    }
}

/// In a repository the lock is taken; outside one a snapshot is empty, a rollback is not done and a
/// file is not set back. A rollback to an empty identifier is not done either.
pub proof fn law_only_repositories_are_worked_in(r: Run<Seq<char>, OutcomeV>)
    requires
        r.stage is IsRepo,
    ensures
        r.job is Snapshot || r.job is File || (r.job is Rollback && r.job->snapshot_id.len() > 0) ==> run_next(r, Answer::Is(true)).stage is Lock,
        r.job is Snapshot ==> (run_next(r, Answer::Is(false)).stage matches Stage::Over(End::Taken(id)) && id.len() == 0),
        r.job is File ==> run_next(r, Answer::Is(false)).stage == Stage::<Seq<char>, OutcomeV>::Over(End::File(false)),
        r.job is Rollback ==> (run_next(r, Answer::Is(false)).stage matches Stage::Over(End::Rolled(o)) && !o.applied && o.skipped_reason == Some("非 git 仓库"@)),
        r.job is Rollback && r.job->snapshot_id.len() == 0 ==> (run_next(r, Answer::Is(true)).stage matches Stage::Over(End::Rolled(o)) && !o.applied && o.skipped_reason is Some),
{
}

/// A lock that another holds is tried for again until half a minute has gone by; one that is taken is
/// held, and one that cannot be had is given up at once.
pub proof fn law_lock_is_waited_for(waited_ms: u64, path: Seq<char>)
    ensures
        lock_next(LockTry::Taken, waited_ms, path) is Hold,
        waited_ms < 30_000 <==> lock_next(LockTry::HeldByOther, waited_ms, path) is TryAgain,
        waited_ms >= 30_000 <==> lock_next(LockTry::HeldByOther, waited_ms, path) is GiveUp,
        lock_next(LockTry::Broken, waited_ms, path) is GiveUp,
{
}

/// The files of a repository lie in its own directory, below the work tree's where that has one, and
/// there are none outside a repository.
pub proof fn law_files_lie_in_the_repository(cwd: Seq<char>, git_dir: Option<Seq<char>>, dot_git: bool, name: Seq<char>, wrote: Option<Seq<char>>)
    ensures
        git_dir is Some ==> git_file_said(cwd, git_dir, dot_git, name) == Some(below(git_dir->0, name)),
        git_dir is None && dot_git ==> git_file_said(cwd, git_dir, dot_git, name) == Some(below(below(cwd, ".git"@), name)),
        git_dir is None && !dot_git ==> git_file_said(cwd, git_dir, dot_git, name) is None,
        wrote is Some && trimmed(wrote->0).len() > 0 ==> git_dir_said(cwd, wrote) == Some(below(cwd, trimmed(wrote->0))),
        wrote is None || trimmed(wrote->0).len() == 0 ==> git_dir_said(cwd, wrote) is None,
{
}

/// The lines that are kept of some are those that are not blank.
pub proof fn law_blank_lines_are_dropped(ls: Seq<Seq<char>>, l: Seq<char>)
    ensures
        filled(ls).contains(l) <==> ls.contains(l) && trimmed(l).len() > 0,
        filled(ls).len() <= ls.len(),
    decreases ls.len(),
{
    if ls.len() > 0 {
        let front = ls.drop_last();
        law_blank_lines_are_dropped(front, l);
        let out = filled(ls);
        if front.contains(l) {
            let i = choose|i: int| 0 <= i < front.len() && front[i] == l;
            assert(ls[i] == l);
        }
        if filled(front).contains(l) {
            let i = choose|i: int| 0 <= i < filled(front).len() && filled(front)[i] == l;
            assert(out[i] == l);
        }
        if ls.last() == l {
            assert(ls[ls.len() - 1] == l);
            if trimmed(l).len() > 0 {
                assert(out[out.len() - 1] == l);
            }
        }
        if ls.contains(l) && ls.last() != l {
            let i = choose|i: int| 0 <= i < ls.len() && ls[i] == l;
            assert(front[i] == l);
        }
        if out.contains(l) {
            let i = choose|i: int| 0 <= i < out.len() && out[i] == l;
            if i < filled(front).len() {
                assert(filled(front)[i] == l);
            }
        }
    }
}

/// What is listed of an index are the snapshots that its lines describe, all of them and no others.
pub proof fn law_listing_holds_what_the_lines_describe(body: Seq<char>, e: SnapshotV)
    ensures
        listed(body).contains(e) <==> exists|l: Seq<char>| lines_of(body).contains(l) && trimmed(l).len() > 0 && #[trigger] entry_said(l) == Some(e),
{
    broadcast use vstd::seq_lib::group_to_multiset_ensures;

    let ls = filled(lines_of(body));
    let es = entries(ls);
    law_in_order(es);
    let x = (e.created_ms as u128, e);
    lemma_entries_are_keyed(ls);
    lemma_entries_hold(ls, e);
    if listed(body).contains(e) {
        let i = choose|i: int| 0 <= i < listed(body).len() && listed(body)[i] == e;
        lemma_order_keeps_keys(es, i);
        assert(in_order(es)[i] == x);
        assert(in_order(es).contains(x));
        assert(in_order(es).to_multiset().count(x) > 0);
        assert(es.to_multiset().count(x) > 0);
        assert(es.contains(x));
        let l = choose|l: Seq<char>| ls.contains(l) && #[trigger] entry_said(l) == Some(e);
        law_blank_lines_are_dropped(lines_of(body), l);
    }
    if exists|l: Seq<char>| lines_of(body).contains(l) && trimmed(l).len() > 0 && #[trigger] entry_said(l) == Some(e) {
        let l = choose|l: Seq<char>| lines_of(body).contains(l) && trimmed(l).len() > 0 && #[trigger] entry_said(l) == Some(e);
        law_blank_lines_are_dropped(lines_of(body), l);
        assert(es.contains(x));
        assert(es.to_multiset().count(x) > 0);
        assert(in_order(es).to_multiset().count(x) > 0);
        assert(in_order(es).contains(x));
        let i = choose|i: int| 0 <= i < in_order(es).len() && in_order(es)[i] == x;
        assert(listed(body)[i] == e);
    }
}

/// The snapshots that some lines describe are held beside their times.
proof fn lemma_entries_hold(ls: Seq<Seq<char>>, e: SnapshotV)
    ensures
        entries(ls).contains((e.created_ms as u128, e)) <==> exists|l: Seq<char>| ls.contains(l) && #[trigger] entry_said(l) == Some(e),
    decreases ls.len(),
{
    let x = (e.created_ms as u128, e);
    if ls.len() > 0 {
        let front = ls.drop_last();
        lemma_entries_hold(front, e);
        let out = entries(ls);
        if entries(front).contains(x) {
            let i = choose|i: int| 0 <= i < entries(front).len() && entries(front)[i] == x;
            assert(out[i] == x);
            let l = choose|l: Seq<char>| front.contains(l) && #[trigger] entry_said(l) == Some(e);
            let k = choose|k: int| 0 <= k < front.len() && front[k] == l;
            assert(ls[k] == l);
        }
        if entry_said(ls.last()) == Some(e) {
            assert(out[out.len() - 1] == x);
            assert(ls[ls.len() - 1] == ls.last());
        }
        if out.contains(x) && !entries(front).contains(x) {
            let i = choose|i: int| 0 <= i < out.len() && out[i] == x;
            if i < entries(front).len() {
                assert(entries(front)[i] == x);
            }
            assert(ls[ls.len() - 1] == ls.last());
            assert(ls.contains(ls.last()));
        }
        if exists|l: Seq<char>| ls.contains(l) && #[trigger] entry_said(l) == Some(e) {
            let l = choose|l: Seq<char>| ls.contains(l) && #[trigger] entry_said(l) == Some(e);
            let k = choose|k: int| 0 <= k < ls.len() && ls[k] == l;
            if k < front.len() {
                assert(front[k] == l);
                assert(front.contains(l));
            }
        }
    }
}

/// A line that is an array of an identifier, a time and a kind describes the snapshot of these, and a
/// snapshot that is described by its members has them under their names.
pub proof fn law_entry_is_what_its_parts_say(line: Seq<char>, e: SnapshotV)
    requires
        entry_said(line) == Some(e),
    ensures
        parts_of(line).len() == 0 ==> json_read(line) == Reading::Value(JsonV::Arr(seq![JsonV::Str(e.id), JsonV::UInt(e.created_ms), JsonV::Str(e.kind)])),
        parts_of(line).len() > 0 ==> json_skims(line) && told_once(parts_of(line), "id"@) == Some(JsonV::Str(e.id)) && told_once(parts_of(line), "created_ms"@) == Some(JsonV::UInt(e.created_ms)) && told_once(parts_of(line), "kind"@) == Some(JsonV::Str(e.kind)),
{
    if parts_of(line).len() == 0 {
        if let Reading::Value(JsonV::Arr(v)) = json_read(line) {
            assert(v =~= seq![JsonV::Str(e.id), JsonV::UInt(e.created_ms), JsonV::Str(e.kind)]);
        }
    }
}

/// The line of a snapshot has its identifier, its time and its kind, in this order and under their
/// names; so has the object that it is answered as.
pub proof fn law_entry_has_its_parts(e: SnapshotV)
    ensures
        entry_members(e).len() == 3,
        entry_members(e)[0] == ("id"@, JsonV::Str(e.id)),
        entry_members(e)[1] == ("created_ms"@, JsonV::UInt(e.created_ms)),
        entry_members(e)[2] == ("kind"@, JsonV::Str(e.kind)),
        entry_json(e) matches JsonV::Obj(m) && m.dom() == set!["id"@, "created_ms"@, "kind"@] && m["id"@] == JsonV::Str(e.id) && m["created_ms"@] == JsonV::UInt(e.created_ms) && m["kind"@] == JsonV::Str(e.kind),
{
    reveal_strlit("id");
    reveal_strlit("created_ms");
    reveal_strlit("kind");
    assert("id"@.len() == 2 && "created_ms"@.len() == 10 && "kind"@.len() == 4);
    assert(entry_json(e)->Obj_0.dom() =~= set!["id"@, "created_ms"@, "kind"@]);
}

/// The hash of a text takes its bytes in turn, each into the hash of those before it.
pub proof fn law_hash_takes_each_byte(bytes: Seq<u8>, b: u8)
    ensures
        fnv(Seq::<u8>::empty()) == 0xcbf29ce484222325,
        fnv(bytes.push(b)) == (fnv(bytes) ^ b as u64).wrapping_mul(0x100000001b3),
{
    assert(bytes.push(b).drop_last() =~= bytes);
}

/// An index keeps all its lines up to a hundred, as they are, and a hundred of more.
pub proof fn law_index_keeps_a_hundred(ls: Seq<Seq<char>>)
    ensures
        ls.len() <= 100 ==> pruned(ls) == ls,
        ls.len() > 100 ==> pruned(ls).len() == 100,
{
    law_in_order(aged(ls));
}

/// A snapshot is written behind the lines that were there, as a line of its own that says what it is;
/// one that is none is not written.
pub proof fn law_snapshot_is_recorded_behind_the_others(body: Option<Seq<char>>, id: Seq<char>, now_ms: u64)
    ensures
        kind_said(id) is None <==> recorded(body, id, now_ms) is None,
        kind_said(id) matches Some(kind) ==> {
            let before = if body is Some {
                filled(lines_of(body->0))
            } else {
                filled(lines_of(Seq::empty()))
            };
            let line = object_text(entry_members(SnapshotV { id, created_ms: now_ms, kind }))->0;
            recorded(body, id, now_ms) == Some(joined(pruned(before + seq![line]), "\n"@) + "\n"@)
        },
{
    if let Some(kind) = kind_said(id) {
        let before = filled(lines_of(or_empty(body)));
        let line = entry_line(SnapshotV { id, created_ms: now_ms, kind });
        assert(before + seq![line] =~= before.push(line));
    }
}

/// A rollback that was done says so, with what it put aside; one that was not says why.
pub proof fn law_rollbacks_tell_what_they_did(wip: Option<Seq<char>>, reason: Seq<char>)
    ensures
        applied_said(wip).applied && applied_said(wip).skipped_reason is None && applied_said(wip).wip_sha == wip,
        !skipped_said(reason).applied && skipped_said(reason).skipped_reason == Some(reason) && skipped_said(reason).wip_sha is None,
{
}

/// Outcomes, snapshots and the stages of a rollback are seen as they are.
pub proof fn law_rollbacks_are_seen_as_they_are(o: RollbackOutcome, i: SnapshotInfo, s: Stage<String, RollbackOutcome>, r: Run<String, RollbackOutcome>)
    ensures
        o@.applied == o.applied && o@.skipped_reason == opt_text(o.skipped_reason) && o@.wip_sha == opt_text(o.wip_sha),
        i@.id == i.id@ && i@.created_ms == i.created_ms && i@.kind == i.kind@,
        s matches Stage::NameDir { head, stash } ==> (s@ matches Stage::NameDir { head: h, stash: t } && h == head@ && t == stash@),
        s matches Stage::NameReal { head, stash, dir } ==> (s@ matches Stage::NameReal { head: h, stash: t, dir: d } && h == head@ && t == stash@ && d == dir@),
        s matches Stage::Wip { baseline, stash } ==> (s@ matches Stage::Wip { baseline: b, stash: t } && b == baseline@ && t == opt_text(stash)),
        s matches Stage::Reset { baseline, stash, wip } ==> (s@ matches Stage::Reset { baseline: b, stash: t, wip: w } && b == baseline@ && t == opt_text(stash) && w == opt_text(wip)),
        s matches Stage::Apply { stash, wip } ==> (s@ matches Stage::Apply { stash: t, wip: w } && t == stash@ && w == opt_text(wip)),
        r@.cwd == r.cwd@ && r@.job == r.job@ && r@.stage == r.stage@,
{
}

/// A repository is known by the hash of where its directory leads, or of the directory itself where
/// that leads nowhere; one whose directory cannot be had is not known.
pub proof fn law_repository_is_known_by_its_directory(r: Run<Seq<char>, OutcomeV>, s: Seq<char>, e: Seq<char>, path: Option<Seq<char>>)
    ensures
        r.stage matches Stage::NameDir { head, stash } && trimmed(s).len() > 0 ==> run_next(r, Answer::Wrote(s)).stage == (Stage::<Seq<char>, OutcomeV>::NameReal { head: r.stage->NameDir_head, stash: r.stage->NameDir_stash, dir: below(r.cwd, trimmed(s)) }),
        r.stage matches Stage::MatchDir { expected } ==> {
            &&& trimmed(s).len() > 0 ==> run_next(r, Answer::Wrote(s)).stage == (Stage::<Seq<char>, OutcomeV>::MatchReal { expected, dir: below(r.cwd, trimmed(s)) })
            &&& trimmed(s).len() == 0 ==> (run_next(r, Answer::Wrote(s)).stage matches Stage::Over(End::Rolled(o)) && !o.applied && o.skipped_reason == Some("cwd repo 标识不可解析"@))
            &&& run_next(r, Answer::Failed(e)).stage matches Stage::Over(End::Rolled(o)) && !o.applied && o.skipped_reason == Some("cwd repo 标识不可解析"@)
        },
        r.stage matches Stage::MatchReal { expected, dir } ==> {
            let actual = fnv_said(if path is Some {
                path->0
            } else {
                dir
            });
            &&& actual != expected ==> (run_next(r, Answer::Leads(path)).stage matches Stage::Over(End::Rolled(o)) && !o.applied && o.skipped_reason is Some)
            &&& actual == expected && actual.len() > 0 && r.job is Rollback && chosen(r.job->snapshot_id) is Go ==> run_next(r, Answer::Leads(path)).stage == (Stage::<Seq<char>, OutcomeV>::Wip { baseline: chosen(r.job->snapshot_id)->baseline, stash: chosen(r.job->snapshot_id)->stash })
        },
        run_next(r, Answer::Wrote(s)).job == r.job && run_next(r, Answer::Wrote(s)).cwd == r.cwd,
{
}

/// An identifier that names a commit alone leads to it, one that names a stash alone leads to the
/// stash on the current commit, and one that names no commit, or is of no kind, leads nowhere.
pub proof fn law_short_identifiers_are_read(rest: Seq<char>, id: Seq<char>)
    requires
        !crate::text::has_text(rest, ",repo:"@),
        !crate::text::has_text(rest, ",base:"@),
    ensures
        rest.len() == 0 ==> chosen("head:"@ + rest) == (Choice::<Seq<char>>::Go { baseline: "HEAD"@, stash: None }),
        rest.len() > 0 && is_ref(rest) ==> chosen("head:"@ + rest) == (Choice::<Seq<char>>::Go { baseline: rest, stash: None }),
        rest.len() > 0 && !is_ref(rest) ==> chosen("head:"@ + rest) == Choice::<Seq<char>>::Skip("baseline 非合法 ref"@),
        is_ref(rest) ==> chosen("stash:"@ + rest) == (Choice::<Seq<char>>::Go { baseline: "HEAD"@, stash: Some(rest) }),
        !is_ref(rest) ==> chosen("stash:"@ + rest) == Choice::<Seq<char>>::Skip("stash SHA 非合法 ref"@),
        kind_said("head:"@ + rest) == Some("head"@),
        kind_said("stash:"@ + rest) == Some("stash"@),
        !"head:"@.is_prefix_of(id) && !"stash:"@.is_prefix_of(id) ==> kind_said(id) is None && chosen(id) == Choice::<Seq<char>>::Skip("snapshot_id 解析失败"@),
{
    crate::text::law_prefix_is_taken_off("head:"@ + rest, "head:"@, rest);
    crate::text::law_prefix_is_taken_off("stash:"@ + rest, "stash:"@, rest);
    crate::text::law_text_is_cut_at_the_separator(rest, ",repo:"@);
    crate::text::law_text_is_cut_at_the_separator(rest, ",base:"@);
    reveal_strlit("head:");
    reveal_strlit("stash:");
    reveal_strlit("HEAD");
    let t = "stash:"@ + rest;
    assert(t[0] == 's');
    assert(!"head:"@.is_prefix_of(t)) by {
        if "head:"@.is_prefix_of(t) {
            assert(t.subrange(0, 5)[0] == 'h');
        }
    }
    assert(is_ref("HEAD"@));
}

/// The lines that are kept stay in their order.
pub proof fn law_kept_lines_stay_in_order(ls: Seq<Seq<char>>)
    ensures
        filled(ls) == ls.filter(|l: Seq<char>| trimmed(l).len() > 0),
    decreases ls.len(),
{
    reveal(Seq::filter);
    if ls.len() > 0 {
        law_kept_lines_stay_in_order(ls.drop_last());
    }
}

/// A lock that is given up is told by its path.
pub proof fn law_lock_that_is_given_up_is_named(t: LockTry, waited_ms: u64, path: Seq<char>)
    ensures
        lock_next(t, waited_ms, path) matches LockStep::GiveUp(why) ==> path.is_suffix_of(why),
{
    let a = "获取回滚锁超时 (30000ms): "@ + path;
    let b = "获取回滚锁失败 (IO 错误): "@ + path;
    assert(a.subrange(a.len() - path.len(), a.len() as int) =~= path);
    assert(b.subrange(b.len() - path.len(), b.len() as int) =~= path);
}

} // verus!

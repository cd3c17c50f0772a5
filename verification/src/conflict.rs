//! What to do when the place a file should be linked to is taken.
//!
//! Like the link engine, the resolver does no I/O: it says what to ask the
//! file system next, given what has been seen, until it names a resolution.

use vstd::prelude::*;
use vstd::string::StringExecFns;
use crate::link::{outcome_message, IoKind, IoResult, LinkOutcome, Outcome, result_view};
use crate::paths::{
    extension_of, file_name, file_name_chars, replace_file_name, split_extension, stem_of,
    with_file_name,
};
use crate::text::{chars_of, decimal, decimal_chars, push_all, same_chars, string_of};

verus! {

/// The policy for a target that exists already.
#[derive(Clone, Copy, Debug)]
pub enum ConflictStrategy {
    /// Leave the existing file; link nothing.
    Skip,
    /// Delete the existing file, then link.
    Overwrite,
    /// Link under the first free name of the form `name_1.ext`, `name_2.ext`.
    Rename,
}

/// The most candidate names that are tried before renaming gives up.
pub const MAX_RENAME_ATTEMPTS: usize = 100;

/// The strategy with the given name: `skip`, `overwrite` or `rename`,
/// written exactly so.
pub open spec fn strategy_named(name: Seq<char>) -> Option<ConflictStrategy> {
    if name == "skip"@ {
        Some(ConflictStrategy::Skip)
    } else if name == "overwrite"@ {
        Some(ConflictStrategy::Overwrite)
    } else if name == "rename"@ {
        Some(ConflictStrategy::Rename)
    } else {
        None
    }
}

/// What is said of a strategy name that is none of the three.
pub open spec fn unsupported_strategy(name: Seq<char>) -> Seq<char> {
    "不支持的冲突处理策略: "@ + name
}

/// Reads a strategy name. Any name but the three is an error that quotes
/// it; there is no default.
pub fn parse_strategy(name: &str) -> (r: Result<ConflictStrategy, String>)
    ensures
        match r {
            Ok(s) => strategy_named(name@) == Some(s),
            Err(message) => strategy_named(name@) is None && message@ == unsupported_strategy(
                name@,
            ),
        },
{
    let chars = chars_of(name);
    if same_chars(&chars, &chars_of("skip")) {
        Ok(ConflictStrategy::Skip)
    } else if same_chars(&chars, &chars_of("overwrite")) {
        Ok(ConflictStrategy::Overwrite)
    } else if same_chars(&chars, &chars_of("rename")) {
        Ok(ConflictStrategy::Rename)
    } else {
        let mut message = String::from_str("不支持的冲突处理策略: ");
        message.append(name);
        Err(message)
    }
}

/// The stem that candidate names are built on: the stem of the target's
/// file name, or `file` where the target has no file name.
pub open spec fn rename_stem(target: Seq<char>) -> Seq<char> {
    match file_name(target) {
        Some(name) => stem_of(name),
        None => "file"@,
    }
}

/// The extension that candidate names end in; empty where the target has
/// none.
pub open spec fn rename_extension(target: Seq<char>) -> Seq<char> {
    match file_name(target) {
        Some(name) => match extension_of(name) {
            Some(ext) => ext,
            None => Seq::<char>::empty(),
        },
        None => Seq::<char>::empty(),
    }
}

/// The `n`-th candidate file name: stem, underscore, `n` in decimal, and a
/// dot and the extension unless the extension is empty.
pub open spec fn candidate_name(target: Seq<char>, n: nat) -> Seq<char> {
    if rename_extension(target).len() == 0 {
        rename_stem(target) + "_"@ + decimal(n)
    } else {
        rename_stem(target) + "_"@ + decimal(n) + "."@ + rename_extension(target)
    }
}

/// The `n`-th candidate path: the target with its file name replaced by the
/// `n`-th candidate name.
pub open spec fn candidate(target: Seq<char>, n: nat) -> Seq<char> {
    with_file_name(target, candidate_name(target, n))
}

/// The `n`-th candidate path for a target that is taken.
pub fn candidate_path(target: &str, n: u32) -> (out: String)
    ensures
        out@ == candidate(target@, n as nat),
{
    let path = chars_of(target);
    let (stem, extension) = match file_name_chars(&path) {
        Some(name) => {
            let (stem, ext) = split_extension(&name);
            match ext {
                Some(e) => (stem, e),
                None => (stem, Vec::new()),
            }
        },
        None => (chars_of("file"), Vec::new()),
    };
    let mut name = stem;
    push_all(&mut name, &chars_of("_"));
    push_all(&mut name, &decimal_chars(n as u128));
    if extension.len() > 0 {
        push_all(&mut name, &chars_of("."));
        push_all(&mut name, &extension);
    }
    string_of(&replace_file_name(&path, &name))
}

/// What the resolver wants to know, or have done, next.
#[derive(Debug)]
pub enum ConflictRequest {
    /// Does the target exist?
    TargetExists,
    /// Delete the target.
    RemoveTarget,
    /// Does this candidate path exist?
    CandidateExists(String),
    /// Run the link engine from the source to this path.
    Link(String),
}

/// How a conflict was resolved.
#[derive(Debug)]
pub enum Resolution {
    /// The target was free; nothing was done, and the caller may link.
    NoConflict,
    /// The target was left as it is and nothing was linked.
    Skipped,
    /// The file was linked, over the old target or under a new name.
    Linked,
    /// It could not be done, for the reason given.
    Failed(String),
}

/// What the resolver says: ask the file system, or the conflict is settled.
#[derive(Debug)]
pub enum ConflictDecision {
    Ask(ConflictRequest),
    Done(Resolution),
}

/// The answers given so far. `taken` holds, in order, whether candidate 1,
/// candidate 2 and so on exist.
#[derive(Debug)]
pub struct ConflictSeen {
    pub target_exists: Option<bool>,
    pub removed: Option<IoResult>,
    pub taken: Vec<bool>,
    pub linked: Option<LinkOutcome>,
}

/// `ConflictSeen` with every detail as text.
pub struct ConflictSeenView {
    pub target_exists: Option<bool>,
    pub removed: Option<Option<(IoKind, Seq<char>)>>,
    pub taken: Seq<bool>,
    pub linked: Option<Outcome>,
}

impl View for ConflictSeen {
    type V = ConflictSeenView;

    open spec fn view(&self) -> ConflictSeenView {
        ConflictSeenView {
            target_exists: self.target_exists,
            removed: match self.removed {
                Some(r) => Some(result_view(r)),
                None => None,
            },
            taken: self.taken@,
            linked: match self.linked {
                Some(o) => Some(o@),
                None => None,
            },
        }
    }
}

impl ConflictSeen {
    /// Nothing seen yet.
    pub fn new() -> (seen: ConflictSeen)
        ensures
            seen@.target_exists is None,
            seen@.removed is None,
            seen@.taken.len() == 0,
            seen@.linked is None,
    {
        ConflictSeen { target_exists: None, removed: None, taken: Vec::new(), linked: None }
    }
}

/// The resolver's requests and resolutions with every text as text.
pub enum ConflictVerdict {
    AskTargetExists,
    AskRemoveTarget,
    AskCandidateExists(Seq<char>),
    AskLink(Seq<char>),
    NoConflict,
    Skipped,
    Linked,
    Failed(Seq<char>),
}

impl View for ConflictDecision {
    type V = ConflictVerdict;

    open spec fn view(&self) -> ConflictVerdict {
        match *self {
            ConflictDecision::Ask(ConflictRequest::TargetExists) => ConflictVerdict::AskTargetExists,
            ConflictDecision::Ask(ConflictRequest::RemoveTarget) => ConflictVerdict::AskRemoveTarget,
            ConflictDecision::Ask(ConflictRequest::CandidateExists(p)) => {
                ConflictVerdict::AskCandidateExists(p@)
            },
            ConflictDecision::Ask(ConflictRequest::Link(p)) => ConflictVerdict::AskLink(p@),
            ConflictDecision::Done(Resolution::NoConflict) => ConflictVerdict::NoConflict,
            ConflictDecision::Done(Resolution::Skipped) => ConflictVerdict::Skipped,
            ConflictDecision::Done(Resolution::Linked) => ConflictVerdict::Linked,
            ConflictDecision::Done(Resolution::Failed(m)) => ConflictVerdict::Failed(m@),
        }
    }
}

/// How many of the first answers say "taken" without a break: the position
/// of the first free candidate, counted from zero, or the number of answers
/// if all are taken.
pub open spec fn taken_run(taken: Seq<bool>) -> nat
    decreases taken.len(),
{
    if taken.len() > 0 && taken[0] {
        1 + taken_run(taken.drop_first())
    } else {
        0
    }
}

/// What follows once the link engine has been asked to link to `path`: its
/// outcome decides, and a failure is reported in the engine's words.
pub open spec fn link_verdict(path: Seq<char>, linked: Option<Outcome>) -> ConflictVerdict {
    match linked {
        None => ConflictVerdict::AskLink(path),
        Some(Outcome::Success) => ConflictVerdict::Linked,
        Some(o) => ConflictVerdict::Failed(outcome_message(o)),
    }
}

/// What is said when no candidate name is free.
pub open spec fn no_unique_name() -> Seq<char> {
    "无法生成唯一的文件名"@
}

/// What is said when the old target cannot be deleted.
pub open spec fn cannot_remove(detail: Seq<char>) -> Seq<char> {
    "删除已存在的文件失败: "@ + detail
}

/// What the resolver says for a target under a strategy name, after what
/// has been seen.
///
/// A target that does not exist is no conflict, whatever the strategy name.
/// Otherwise the name must be one of the three. `skip` ends at once.
/// `overwrite` has the target deleted and then linked to. `rename` tries
/// candidate 1, 2, ... in order, links to the first that is free, and gives
/// up when the first hundred are all taken.
pub open spec fn conflict_verdict(
    target: Seq<char>,
    strategy: Seq<char>,
    seen: ConflictSeenView,
) -> ConflictVerdict {
    match seen.target_exists {
        None => ConflictVerdict::AskTargetExists,
        Some(false) => ConflictVerdict::NoConflict,
        Some(true) => match strategy_named(strategy) {
            None => ConflictVerdict::Failed(unsupported_strategy(strategy)),
            Some(ConflictStrategy::Skip) => ConflictVerdict::Skipped,
            Some(ConflictStrategy::Overwrite) => match seen.removed {
                None => ConflictVerdict::AskRemoveTarget,
                Some(Some((_, detail))) => ConflictVerdict::Failed(cannot_remove(detail)),
                Some(None) => link_verdict(target, seen.linked),
            },
            Some(ConflictStrategy::Rename) => {
                let run = taken_run(seen.taken);
                if run >= MAX_RENAME_ATTEMPTS {
                    ConflictVerdict::Failed(no_unique_name())
                } else if run == seen.taken.len() {
                    ConflictVerdict::AskCandidateExists(candidate(target, run + 1))
                } else {
                    link_verdict(candidate(target, run + 1), seen.linked)
                }
            },
        },
    }
}

fn count_taken(taken: &Vec<bool>) -> (run: usize)
    ensures
        run == taken_run(taken@),
        run <= taken.len(),
{
    let mut i: usize = 0;
    proof {
        assert(taken@.skip(0) == taken@);
    }
    while i < taken.len() && taken[i]
        invariant
            i <= taken.len(),
            taken_run(taken@) == i + taken_run(taken@.skip(i as int)),
        decreases taken.len() - i,
    {
        proof {
            assert(taken@.skip(i as int).drop_first() == taken@.skip(i + 1));
        }
        i = i + 1;
    }
    i
}

fn decide_after_link(path: String, linked: &Option<LinkOutcome>) -> (d: ConflictDecision)
    ensures
        d@ == link_verdict(
            path@,
            match *linked {
                Some(o) => Some(o@),
                None => None,
            },
        ),
{
    match linked {
        None => ConflictDecision::Ask(ConflictRequest::Link(path)),
        Some(outcome) => {
            if outcome.is_success() {
                ConflictDecision::Done(Resolution::Linked)
            } else {
                ConflictDecision::Done(Resolution::Failed(outcome.message()))
            }
        },
    }
}

/// Says what to do next about a target that may be taken: see
/// `conflict_verdict`.
pub fn handle_file_conflict(target: &str, strategy: &str, seen: &ConflictSeen) -> (d:
    ConflictDecision)
    ensures
        d@ == conflict_verdict(target@, strategy@, seen@),
{
    match seen.target_exists {
        None => ConflictDecision::Ask(ConflictRequest::TargetExists),
        Some(false) => ConflictDecision::Done(Resolution::NoConflict),
        Some(true) => match parse_strategy(strategy) {
            Err(message) => ConflictDecision::Done(Resolution::Failed(message)),
            Ok(ConflictStrategy::Skip) => ConflictDecision::Done(Resolution::Skipped),
            Ok(ConflictStrategy::Overwrite) => match &seen.removed {
                None => ConflictDecision::Ask(ConflictRequest::RemoveTarget),
                Some(IoResult::Failed(f)) => {
                    let mut message = String::from_str("删除已存在的文件失败: ");
                    message.append(f.detail.as_str());
                    ConflictDecision::Done(Resolution::Failed(message))
                },
                Some(IoResult::Done) => {
                    let path = string_of(&chars_of(target));
                    decide_after_link(path, &seen.linked)
                },
            },
            Ok(ConflictStrategy::Rename) => {
                let run = count_taken(&seen.taken);
                if run >= MAX_RENAME_ATTEMPTS {
                    ConflictDecision::Done(
                        Resolution::Failed(String::from_str("无法生成唯一的文件名")),
                    )
                } else {
                    let path = candidate_path(target, (run + 1) as u32);
                    if run == seen.taken.len() {
                        ConflictDecision::Ask(ConflictRequest::CandidateExists(path))
                    } else {
                        decide_after_link(path, &seen.linked)
                    }
                }
            },
        },
    }
}

/// Renaming links to the first free candidate: once the answers show
/// candidates 1 to `k` taken and candidate `k + 1` free, with `k` below one
/// hundred, the resolver has the engine link to candidate `k + 1`.
pub proof fn lemma_rename_takes_first_free(target: Seq<char>, seen: ConflictSeenView, k: nat)
    requires
        seen.target_exists == Some(true),
        k < MAX_RENAME_ATTEMPTS,
        k < seen.taken.len(),
        forall|i: int| 0 <= i < k ==> seen.taken[i],
        !seen.taken[k as int],
        seen.linked is None,
    ensures
        conflict_verdict(target, "rename"@, seen) == ConflictVerdict::AskLink(
            candidate(target, k + 1),
        ),
{
    lemma_taken_run(seen.taken, k);
    lemma_strategy_names();
}

/// Renaming gives up exactly when candidates 1 to 100 are all taken.
pub proof fn lemma_rename_gives_up(target: Seq<char>, seen: ConflictSeenView)
    requires
        seen.target_exists == Some(true),
    ensures
        conflict_verdict(target, "rename"@, seen) == ConflictVerdict::Failed(no_unique_name())
            <==> seen.taken.len() >= MAX_RENAME_ATTEMPTS && forall|i: int|
            0 <= i < MAX_RENAME_ATTEMPTS ==> seen.taken[i],
{
    lemma_strategy_names();
    lemma_taken_run_meaning(seen.taken);
    let run = taken_run(seen.taken);
    if run < MAX_RENAME_ATTEMPTS {
        if run < seen.taken.len() {
            assert(!seen.taken[run as int]);
        }
        reveal_strlit("无法生成唯一的文件名");
        lemma_outcome_messages_differ();
    }
}

/// The three strategy names are three different texts.
proof fn lemma_strategy_names()
    ensures
        strategy_named("skip"@) == Some(ConflictStrategy::Skip),
        strategy_named("overwrite"@) == Some(ConflictStrategy::Overwrite),
        strategy_named("rename"@) == Some(ConflictStrategy::Rename),
{
    reveal_strlit("skip");
    reveal_strlit("overwrite");
    reveal_strlit("rename");
    assert("skip"@.len() == 4);
    assert("overwrite"@.len() == 9);
    assert("rename"@.len() == 6);
}

proof fn lemma_outcome_messages_differ()
    ensures
        forall|o: Outcome| outcome_message(o) != no_unique_name(),
{
    reveal_strlit("无法生成唯一的文件名");
    reveal_strlit("硬链接创建成功");
    reveal_strlit("源文件不存在");
    reveal_strlit("目标文件已存在");
    reveal_strlit("权限不足，无法创建硬链接");
    reveal_strlit("源文件和目标文件不在同一文件系统上，无法创建硬链接");
    reveal_strlit("目标路径过长");
    reveal_strlit("IO错误: ");
    assert forall|o: Outcome| outcome_message(o) != no_unique_name() by {
        let m = outcome_message(o);
        let n = no_unique_name();
        assert(n[0] == '无');
        match o {
            Outcome::IoError(detail) => {
                assert(m[0] == 'I');
            },
            Outcome::Success => {
                assert(m[0] == '硬');
            },
            Outcome::SourceNotFound => {
                assert(m[0] == '源');
            },
            Outcome::TargetExists => {
                assert(m[0] == '目');
            },
            Outcome::PermissionDenied => {
                assert(m[0] == '权');
            },
            Outcome::DifferentFilesystems => {
                assert(m[0] == '源');
            },
            Outcome::PathTooLong => {
                assert(m[0] == '目');
            },
        }
    }
}

/// The run of taken candidates ends at the first free one.
proof fn lemma_taken_run(taken: Seq<bool>, k: nat)
    requires
        k <= taken.len(),
        forall|i: int| 0 <= i < k ==> taken[i],
        k < taken.len() ==> !taken[k as int],
    ensures
        taken_run(taken) == k,
    decreases k,
{
    if k > 0 {
        let rest = taken.drop_first();
        assert forall|i: int| 0 <= i < k - 1 implies rest[i] by {
            assert(rest[i] == taken[i + 1]);
        }
        if k - 1 < rest.len() {
            assert(rest[k - 1] == taken[k as int]);
        }
        lemma_taken_run(rest, (k - 1) as nat);
    }
}

/// Every answer within the run says "taken", and the one after it, if there
/// is one, says "free".
proof fn lemma_taken_run_meaning(taken: Seq<bool>)
    ensures
        taken_run(taken) <= taken.len(),
        forall|i: int| 0 <= i < taken_run(taken) ==> taken[i],
        taken_run(taken) < taken.len() ==> !taken[taken_run(taken) as int],
    decreases taken.len(),
{
    if taken.len() > 0 && taken[0] {
        let rest = taken.drop_first();
        lemma_taken_run_meaning(rest);
        assert forall|i: int| 0 <= i < taken_run(taken) implies taken[i] by {
            if i > 0 {
                assert(rest[i - 1] == taken[i]);
            }
        }
        if taken_run(taken) < taken.len() {
            assert(rest[taken_run(rest) as int] == taken[taken_run(taken) as int]);
        }
    }
}

} // verus!

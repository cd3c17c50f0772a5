//! Linking one file into the library.
//!
//! The engine does no I/O itself. A job is made from a source and a target;
//! the caller asks the file system what the engine wants to know next,
//! writes the answer into the record of what has been seen, and asks the
//! engine again, until the engine names an outcome. Every check comes in a
//! fixed order, and each one that fails ends the job with its own outcome.

use vstd::prelude::*;
use crate::paths::{
    exceeds_budget, file_name, file_name_chars, is_clean_path, join_paths, joined,
    lemma_sanitized_path_is_clean, over_budget, parent, parent_chars, sanitize_path_chars,
    sanitized_path,
};
use crate::sanitize::{sanitize_chars, sanitized_name};
use crate::text::{chars_of, push_all, string_of, text_of};
use vstd::string::StringExecFns;

verus! {

/// The kinds of I/O failure that the engine tells apart.
#[derive(Clone, Copy, Debug)]
pub enum IoKind {
    NotFound,
    PermissionDenied,
    AlreadyExists,
    InvalidInput,
    InvalidData,
    Other,
}

/// A failed I/O operation: its kind and what the system said.
#[derive(Debug)]
pub struct IoFailure {
    pub kind: IoKind,
    pub detail: String,
}

/// How an I/O operation ended.
#[derive(Debug)]
pub enum IoResult {
    Done,
    Failed(IoFailure),
}

/// How linking one file ended.
#[derive(Debug)]
pub enum LinkOutcome {
    Success,
    SourceNotFound,
    TargetExists,
    PermissionDenied,
    DifferentFilesystems,
    PathTooLong,
    IoError(String),
}

/// `LinkOutcome` with the detail as text.
pub enum Outcome {
    Success,
    SourceNotFound,
    TargetExists,
    PermissionDenied,
    DifferentFilesystems,
    PathTooLong,
    IoError(Seq<char>),
}

impl View for LinkOutcome {
    type V = Outcome;

    open spec fn view(&self) -> Outcome {
        match *self {
            LinkOutcome::Success => Outcome::Success,
            LinkOutcome::SourceNotFound => Outcome::SourceNotFound,
            LinkOutcome::TargetExists => Outcome::TargetExists,
            LinkOutcome::PermissionDenied => Outcome::PermissionDenied,
            LinkOutcome::DifferentFilesystems => Outcome::DifferentFilesystems,
            LinkOutcome::PathTooLong => Outcome::PathTooLong,
            LinkOutcome::IoError(detail) => Outcome::IoError(detail@),
        }
    }
}

/// `IoResult` with the detail as text: `None` for success, else the kind and
/// the detail of the failure.
pub open spec fn result_view(r: IoResult) -> Option<(IoKind, Seq<char>)> {
    match r {
        IoResult::Done => None,
        IoResult::Failed(f) => Some((f.kind, f.detail@)),
    }
}

/// The outcome that an I/O failure of the given kind stands for where the
/// engine reads a file's metadata: a missing file is a missing source, a
/// refusal is a lack of permission, a file in the way is an existing
/// target, and anything else is reported with its detail.
pub open spec fn classified(kind: IoKind, detail: Seq<char>) -> Outcome {
    match kind {
        IoKind::PermissionDenied => Outcome::PermissionDenied,
        IoKind::NotFound => Outcome::SourceNotFound,
        IoKind::AlreadyExists => Outcome::TargetExists,
        _ => Outcome::IoError(detail),
    }
}

impl LinkOutcome {
    /// The outcome that an I/O failure stands for: see `classified`.
    pub fn from_failure(failure: &IoFailure) -> (out: LinkOutcome)
        ensures
            out@ == classified(failure.kind, failure.detail@),
    {
        match failure.kind {
            IoKind::PermissionDenied => LinkOutcome::PermissionDenied,
            IoKind::NotFound => LinkOutcome::SourceNotFound,
            IoKind::AlreadyExists => LinkOutcome::TargetExists,
            _ => LinkOutcome::IoError(failure.detail.clone()),
        }
    }

    /// Whether the file was linked.
    pub fn is_success(&self) -> (b: bool)
        ensures
            b == (self@ is Success),
    {
        match self {
            LinkOutcome::Success => true,
            _ => false,
        }
    }
}

/// Whether two files lie on one file system, judged by their device
/// numbers. Where either number could not be had, the answer is yes: the
/// check only predicts whether a hard link can work, and the link itself
/// will tell.
pub open spec fn devices_agree(source: Option<u64>, target: Option<u64>) -> bool {
    match (source, target) {
        (Some(a), Some(b)) => a == b,
        _ => true,
    }
}

/// Whether two files lie on one file system: see `devices_agree`.
pub fn is_same_filesystem(source: Option<u64>, target: Option<u64>) -> (same: bool)
    ensures
        same == devices_agree(source, target),
{
    match (source, target) {
        (Some(a), Some(b)) => a == b,
        _ => true,
    }
}

/// Whether a directory with the given permission bits lets its owner write.
/// A directory that is missing, or whose bits are unknown, passes: it will
/// be created, or the link will tell.
pub open spec fn mode_allows_write(mode: Option<u32>) -> bool {
    match mode {
        Some(bits) => bits & 0o200 != 0,
        None => true,
    }
}

/// Whether a directory with the given permission bits lets its owner write:
/// see `mode_allows_write`.
pub fn check_writable(mode: Option<u32>) -> (ok: bool)
    ensures
        ok == mode_allows_write(mode),
{
    match mode {
        Some(bits) => bits & 0o200 != 0,
        None => true,
    }
}

/// The path that is linked to once the length guard has seen the sanitised
/// target. A target within the budget is taken as it is. A longer one gets
/// one shortening pass: its directory is kept and its file name sanitised
/// again; if it has no directory or no file name, or is still over the
/// budget, there is no path.
pub open spec fn guarded(target: Seq<char>) -> Option<Seq<char>> {
    if !over_budget(target) {
        Some(target)
    } else if parent(target) is Some && file_name(target) is Some {
        let short = joined(parent(target).unwrap(), sanitized_name(file_name(target).unwrap()));
        if over_budget(short) {
            None
        } else {
            Some(short)
        }
    } else {
        None
    }
}

/// What the length guard lets through is within the budget.
pub proof fn lemma_guarded_fits(target: Seq<char>)
    ensures
        guarded(target) matches Some(path) ==> !over_budget(path),
{
}

/// The length guard: see `guarded`.
pub fn guard_length(target: &Vec<char>) -> (out: Option<Vec<char>>)
    ensures
        match out {
            Some(p) => guarded(target@) == Some(p@),
            None => guarded(target@) is None,
        },
{
    if !exceeds_budget(target) {
        let mut same: Vec<char> = Vec::new();
        push_all(&mut same, target);
        return Some(same);
    }
    match parent_chars(target) {
        Some(dir) => {
            match file_name_chars(target) {
                Some(name) => {
                    let short_name = sanitize_chars(&name);
                    let short = join_paths(&dir, &short_name);
                    if exceeds_budget(&short) {
                        None
                    } else {
                        Some(short)
                    }
                },
                None => None,
            }
        },
        None => None,
    }
}

/// One file to link: where from, and where to. The target of a job is
/// always a clean path, its directory the parent of the target, and its
/// link path what the length guard lets through of the target: a job cannot
/// be made otherwise.
#[derive(Debug)]
pub struct LinkJob {
    source: String,
    target: String,
    directory: Option<String>,
    link_path: Option<String>,
}

/// `LinkJob` with every text as text.
pub struct Job {
    /// The file to link.
    pub source: Seq<char>,
    /// The sanitised target.
    pub target: Seq<char>,
    /// The directory that the target lies in, if it has one.
    pub directory: Option<Seq<char>>,
    /// The path to link to; `None` where the target is too long.
    pub link_path: Option<Seq<char>>,
}

/// What holds of every job.
pub open spec fn is_coherent(job: Job) -> bool {
    &&& is_clean_path(job.target)
    &&& job.directory == parent(job.target)
    &&& job.link_path == guarded(job.target)
}

impl View for LinkJob {
    type V = Job;

    closed spec fn view(&self) -> Job {
        Job {
            source: self.source@,
            target: self.target@,
            directory: text_of(self.directory),
            link_path: text_of(self.link_path),
        }
    }
}

impl LinkJob {
    #[verifier::type_invariant]
    spec fn coherent(&self) -> bool {
        is_coherent(self@)
    }

    /// Whether the job is the one for linking `source` to `target`.
    pub open spec fn is_for(&self, source: Seq<char>, target: Seq<char>) -> bool {
        &&& self@.source == source
        &&& self@.target == sanitized_path(target)
        &&& self@.directory == parent(sanitized_path(target))
        &&& self@.link_path == guarded(sanitized_path(target))
    }

    /// The job for linking `source` to `target`. The target is sanitised,
    /// whoever wrote it.
    pub fn new(source: &str, target: &str) -> (job: LinkJob)
        ensures
            job.is_for(source@, target@),
            is_coherent(job@),
    {
        let raw = chars_of(target);
        let clean = sanitize_path_chars(&raw);
        let directory = match parent_chars(&clean) {
            Some(d) => Some(string_of(&d)),
            None => None,
        };
        let link_path = match guard_length(&clean) {
            Some(p) => Some(string_of(&p)),
            None => None,
        };
        let source_chars = chars_of(source);
        proof {
            lemma_sanitized_path_is_clean(target@);
        }
        LinkJob { source: string_of(&source_chars), target: string_of(&clean), directory, link_path }
    }

    /// The file to link.
    pub fn source(&self) -> (source: &String)
        ensures
            source@ == self@.source,
    {
        &self.source
    }

    /// The sanitised target.
    pub fn target(&self) -> (target: &String)
        ensures
            target@ == self@.target,
            is_coherent(self@),
    {
        proof {
            use_type_invariant(self);
        }
        &self.target
    }

    /// The directory that the target lies in, if it has one.
    pub fn directory(&self) -> (directory: &Option<String>)
        ensures
            text_of(*directory) == self@.directory,
            is_coherent(self@),
    {
        proof {
            use_type_invariant(self);
        }
        &self.directory
    }

    /// The path to link to, which is never over the path budget; `None`
    /// where the target is too long.
    pub fn link_path(&self) -> (link_path: &Option<String>)
        ensures
            text_of(*link_path) == self@.link_path,
            is_coherent(self@),
            self@.link_path matches Some(path) ==> !over_budget(path),
    {
        proof {
            use_type_invariant(self);
        }
        &self.link_path
    }
}

/// What the engine wants to know, or have done, next.
#[derive(Clone, Copy, Debug)]
pub enum Request {
    /// Does the source exist?
    SourceExists,
    /// Does the sanitised target exist?
    TargetExists,
    /// Does the target's directory exist?
    DirectoryExists,
    /// Create the target's directory and those above it.
    CreateDirectory,
    /// Is the target's directory there now, and a directory?
    ConfirmDirectory,
    /// The device numbers of the source and of the target's directory.
    Devices,
    /// Read the metadata of the source and of the target's directory.
    Permissions,
    /// Make the hard link from the source to the link path.
    HardLink,
    /// Copy the source to the link path.
    Copy,
}

/// What reading the metadata of the source and of the target's directory
/// gave.
#[derive(Debug)]
pub struct PermissionProbe {
    /// Reading the source's metadata.
    pub source: IoResult,
    /// Reading the directory's metadata; `Done` where there is no directory.
    pub directory: IoResult,
    /// The directory's permission bits, where the platform has them.
    pub mode: Option<u32>,
}

/// The answers that the file system has given so far. An answer that has
/// not been asked for is `None`.
#[derive(Debug)]
pub struct Seen {
    pub source_exists: Option<bool>,
    pub target_exists: Option<bool>,
    pub directory_exists: Option<bool>,
    pub directory_created: Option<IoResult>,
    pub directory_confirmed: Option<bool>,
    pub devices: Option<(Option<u64>, Option<u64>)>,
    pub permissions: Option<PermissionProbe>,
    pub linked: Option<IoResult>,
    pub copied: Option<IoResult>,
}

/// What a permission probe says: `None` for no objection, else the kinds
/// and details of what failed, and the bits.
pub struct ProbeView {
    pub source: Option<(IoKind, Seq<char>)>,
    pub directory: Option<(IoKind, Seq<char>)>,
    pub mode: Option<u32>,
}

/// `Seen` with every detail as text.
pub struct SeenView {
    pub source_exists: Option<bool>,
    pub target_exists: Option<bool>,
    pub directory_exists: Option<bool>,
    pub directory_created: Option<Option<(IoKind, Seq<char>)>>,
    pub directory_confirmed: Option<bool>,
    pub devices: Option<(Option<u64>, Option<u64>)>,
    pub permissions: Option<ProbeView>,
    pub linked: Option<Option<(IoKind, Seq<char>)>>,
    pub copied: Option<Option<(IoKind, Seq<char>)>>,
}

/// How an operation ended, where it has been asked for at all.
pub open spec fn optional_result_view(r: Option<IoResult>) -> Option<Option<(IoKind, Seq<char>)>> {
    match r {
        Some(x) => Some(result_view(x)),
        None => None,
    }
}

impl View for PermissionProbe {
    type V = ProbeView;

    open spec fn view(&self) -> ProbeView {
        ProbeView {
            source: result_view(self.source),
            directory: result_view(self.directory),
            mode: self.mode,
        }
    }
}

impl View for Seen {
    type V = SeenView;

    open spec fn view(&self) -> SeenView {
        SeenView {
            source_exists: self.source_exists,
            target_exists: self.target_exists,
            directory_exists: self.directory_exists,
            directory_created: optional_result_view(self.directory_created),
            directory_confirmed: self.directory_confirmed,
            devices: self.devices,
            permissions: match self.permissions {
                Some(p) => Some(p@),
                None => None,
            },
            linked: optional_result_view(self.linked),
            copied: optional_result_view(self.copied),
        }
    }
}

impl Seen {
    /// Nothing seen yet.
    pub fn new() -> (seen: Seen)
        ensures
            seen@ == nothing_seen(),
    {
        Seen {
            source_exists: None,
            target_exists: None,
            directory_exists: None,
            directory_created: None,
            directory_confirmed: None,
            devices: None,
            permissions: None,
            linked: None,
            copied: None,
        }
    }
}

/// The record in which nothing has been seen.
pub open spec fn nothing_seen() -> SeenView {
    SeenView {
        source_exists: None,
        target_exists: None,
        directory_exists: None,
        directory_created: None,
        directory_confirmed: None,
        devices: None,
        permissions: None,
        linked: None,
        copied: None,
    }
}

/// What the engine says: ask the file system, or the job has ended.
#[derive(Debug)]
pub enum Decision {
    Ask(Request),
    Finished(LinkOutcome),
}

/// `Decision` with the detail as text.
pub enum Verdict {
    Ask(Request),
    Finished(Outcome),
}

impl View for Decision {
    type V = Verdict;

    open spec fn view(&self) -> Verdict {
        match *self {
            Decision::Ask(r) => Verdict::Ask(r),
            Decision::Finished(o) => Verdict::Finished(o@),
        }
    }
}

/// The objection that a permission probe raises, if any: a failure to read
/// the source's metadata, then one to read the directory's, each by its
/// kind, then a directory whose owner may not write.
pub open spec fn probe_objection(p: ProbeView) -> Option<Outcome> {
    match p.source {
        Some((kind, detail)) => Some(classified(kind, detail)),
        None => match p.directory {
            Some((kind, detail)) => Some(classified(kind, detail)),
            None => if mode_allows_write(p.mode) {
                None
            } else {
                Some(Outcome::PermissionDenied)
            },
        },
    }
}

/// The last stage: the length guard, then the hard link, with a copy in its
/// place where the link failed as unsupported for this path (invalid input
/// or invalid data). Any other failure is reported with its detail.
pub open spec fn link_stage(link_path: Option<Seq<char>>, seen: SeenView) -> Verdict {
    if link_path is None {
        Verdict::Finished(Outcome::PathTooLong)
    } else {
        match seen.linked {
            None => Verdict::Ask(Request::HardLink),
            Some(None) => Verdict::Finished(Outcome::Success),
            Some(Some((kind, detail))) => if kind is InvalidInput || kind is InvalidData {
                match seen.copied {
                    None => Verdict::Ask(Request::Copy),
                    Some(None) => Verdict::Finished(Outcome::Success),
                    Some(Some((_, copy_detail))) => Verdict::Finished(
                        Outcome::IoError(copy_detail),
                    ),
                }
            } else {
                Verdict::Finished(Outcome::IoError(detail))
            },
        }
    }
}

/// The checks on the target's directory once it is there: one file system,
/// then permissions, then the last stage.
pub open spec fn probe_stage(link_path: Option<Seq<char>>, seen: SeenView) -> Verdict {
    match seen.devices {
        None => Verdict::Ask(Request::Devices),
        Some((source, target)) => if !devices_agree(source, target) {
            Verdict::Finished(Outcome::DifferentFilesystems)
        } else {
            match seen.permissions {
                None => Verdict::Ask(Request::Permissions),
                Some(p) => match probe_objection(p) {
                    Some(outcome) => Verdict::Finished(outcome),
                    None => link_stage(link_path, seen),
                },
            }
        },
    }
}

/// The directory stage: a missing directory is created. Where creating it
/// fails because something is there already, the engine asks whether that
/// is the directory, made by someone else in the meantime: if so, that is
/// no failure; if something else is in the way, the job ends, as it does
/// on any other failure to create the directory.
pub open spec fn directory_stage(link_path: Option<Seq<char>>, seen: SeenView) -> Verdict {
    match seen.directory_exists {
        None => Verdict::Ask(Request::DirectoryExists),
        Some(true) => probe_stage(link_path, seen),
        Some(false) => match seen.directory_created {
            None => Verdict::Ask(Request::CreateDirectory),
            Some(None) => probe_stage(link_path, seen),
            Some(Some((kind, detail))) => if kind is AlreadyExists {
                match seen.directory_confirmed {
                    None => Verdict::Ask(Request::ConfirmDirectory),
                    Some(true) => probe_stage(link_path, seen),
                    Some(false) => Verdict::Finished(Outcome::IoError(detail)),
                }
            } else {
                Verdict::Finished(Outcome::IoError(detail))
            },
        },
    }
}

/// What the engine says for a job whose target has the given directory and
/// link path, after what has been seen. The source is verified first, then
/// that the target is free; then come the directory, the probes and the
/// link. A target without a directory skips the directory and the probes.
pub open spec fn verdict(
    directory: Option<Seq<char>>,
    link_path: Option<Seq<char>>,
    seen: SeenView,
) -> Verdict {
    match seen.source_exists {
        None => Verdict::Ask(Request::SourceExists),
        Some(false) => Verdict::Finished(Outcome::SourceNotFound),
        Some(true) => match seen.target_exists {
            None => Verdict::Ask(Request::TargetExists),
            Some(true) => Verdict::Finished(Outcome::TargetExists),
            Some(false) => if directory is Some {
                directory_stage(link_path, seen)
            } else {
                link_stage(link_path, seen)
            },
        },
    }
}

/// The last stage of the engine on its own: the length guard, the hard
/// link, and the copy that stands in for a link that the path does not
/// support. See `link_stage`.
pub fn create_hard_link_with_fallback(job: &LinkJob, seen: &Seen) -> (d: Decision)
    ensures
        d@ == link_stage(job@.link_path, seen@),
{
    if job.link_path.is_none() {
        return Decision::Finished(LinkOutcome::PathTooLong);
    }
    match &seen.linked {
        None => Decision::Ask(Request::HardLink),
        Some(IoResult::Done) => Decision::Finished(LinkOutcome::Success),
        Some(IoResult::Failed(f)) => {
            let unsupported = match f.kind {
                IoKind::InvalidInput => true,
                IoKind::InvalidData => true,
                _ => false,
            };
            if unsupported {
                match &seen.copied {
                    None => Decision::Ask(Request::Copy),
                    Some(IoResult::Done) => Decision::Finished(LinkOutcome::Success),
                    Some(IoResult::Failed(g)) => Decision::Finished(
                        LinkOutcome::IoError(g.detail.clone()),
                    ),
                }
            } else {
                Decision::Finished(LinkOutcome::IoError(f.detail.clone()))
            }
        },
    }
}

/// The objection that a permission probe raises, if any: see
/// `probe_objection`.
pub fn check_file_permissions(p: &PermissionProbe) -> (out: Option<LinkOutcome>)
    ensures
        match out {
            Some(o) => probe_objection(p@) == Some(o@),
            None => probe_objection(p@) is None,
        },
{
    match &p.source {
        IoResult::Failed(f) => Some(LinkOutcome::from_failure(f)),
        IoResult::Done => match &p.directory {
            IoResult::Failed(f) => Some(LinkOutcome::from_failure(f)),
            IoResult::Done => if check_writable(p.mode) {
                None
            } else {
                Some(LinkOutcome::PermissionDenied)
            },
        },
    }
}

fn decide_probes(job: &LinkJob, seen: &Seen) -> (d: Decision)
    ensures
        d@ == probe_stage(job@.link_path, seen@),
{
    match seen.devices {
        None => Decision::Ask(Request::Devices),
        Some((source, target)) => {
            if !is_same_filesystem(source, target) {
                Decision::Finished(LinkOutcome::DifferentFilesystems)
            } else {
                match &seen.permissions {
                    None => Decision::Ask(Request::Permissions),
                    Some(p) => match check_file_permissions(p) {
                        Some(outcome) => Decision::Finished(outcome),
                        None => create_hard_link_with_fallback(job, seen),
                    },
                }
            }
        },
    }
}

fn decide_directory(job: &LinkJob, seen: &Seen) -> (d: Decision)
    ensures
        d@ == directory_stage(job@.link_path, seen@),
{
    match seen.directory_exists {
        None => Decision::Ask(Request::DirectoryExists),
        Some(true) => decide_probes(job, seen),
        Some(false) => match &seen.directory_created {
            None => Decision::Ask(Request::CreateDirectory),
            Some(IoResult::Done) => decide_probes(job, seen),
            Some(IoResult::Failed(f)) => {
                let raced = match f.kind {
                    IoKind::AlreadyExists => true,
                    _ => false,
                };
                if raced {
                    match seen.directory_confirmed {
                        None => Decision::Ask(Request::ConfirmDirectory),
                        Some(true) => decide_probes(job, seen),
                        Some(false) => Decision::Finished(LinkOutcome::IoError(f.detail.clone())),
                    }
                } else {
                    Decision::Finished(LinkOutcome::IoError(f.detail.clone()))
                }
            },
        },
    }
}

/// What to ask the file system next for this job, or how the job ended:
/// see `verdict`.
pub fn create_hard_link_internal(job: &LinkJob, seen: &Seen) -> (d: Decision)
    ensures
        d@ == verdict(job@.directory, job@.link_path, seen@),
{
    match seen.source_exists {
        None => Decision::Ask(Request::SourceExists),
        Some(false) => Decision::Finished(LinkOutcome::SourceNotFound),
        Some(true) => match seen.target_exists {
            None => Decision::Ask(Request::TargetExists),
            Some(true) => Decision::Finished(LinkOutcome::TargetExists),
            Some(false) => if job.directory.is_some() {
                decide_directory(job, seen)
            } else {
                create_hard_link_with_fallback(job, seen)
            },
        },
    }
}

/// What to ask the file system next in order to link `source` to `target`,
/// or how that ended. The target is sanitised first; see `verdict` for the
/// order of the checks.
pub fn create_hard_link(source: &str, target: &str, seen: &Seen) -> (d: Decision)
    ensures
        d@ == verdict(
            parent(sanitized_path(target@)),
            guarded(sanitized_path(target@)),
            seen@,
        ),
{
    let job = LinkJob::new(source, target);
    create_hard_link_internal(&job, seen)
}

/// What the user is told about an outcome.
pub open spec fn outcome_message(o: Outcome) -> Seq<char> {
    match o {
        Outcome::Success => "硬链接创建成功"@,
        Outcome::SourceNotFound => "源文件不存在"@,
        Outcome::TargetExists => "目标文件已存在"@,
        Outcome::PermissionDenied => "权限不足，无法创建硬链接"@,
        Outcome::DifferentFilesystems => "源文件和目标文件不在同一文件系统上，无法创建硬链接"@,
        Outcome::PathTooLong => "目标路径过长"@,
        Outcome::IoError(detail) => "IO错误: "@ + detail,
    }
}

impl LinkOutcome {
    /// What the user is told about this outcome.
    pub fn message(&self) -> (out: String)
        ensures
            out@ == outcome_message(self@),
    {
        match self {
            LinkOutcome::Success => String::from_str("硬链接创建成功"),
            LinkOutcome::SourceNotFound => String::from_str("源文件不存在"),
            LinkOutcome::TargetExists => String::from_str("目标文件已存在"),
            LinkOutcome::PermissionDenied => String::from_str("权限不足，无法创建硬链接"),
            LinkOutcome::DifferentFilesystems => String::from_str(
                "源文件和目标文件不在同一文件系统上，无法创建硬链接",
            ),
            LinkOutcome::PathTooLong => String::from_str("目标路径过长"),
            LinkOutcome::IoError(detail) => {
                let mut out = String::from_str("IO错误: ");
                out.append(detail.as_str());
                out
            },
        }
    }
}

/// Whether the record holds the answer to a request.
pub open spec fn answered(seen: SeenView, r: Request) -> bool {
    match r {
        Request::SourceExists => seen.source_exists is Some,
        Request::TargetExists => seen.target_exists is Some,
        Request::DirectoryExists => seen.directory_exists is Some,
        Request::CreateDirectory => seen.directory_created is Some,
        Request::ConfirmDirectory => seen.directory_confirmed is Some,
        Request::Devices => seen.devices is Some,
        Request::Permissions => seen.permissions is Some,
        Request::HardLink => seen.linked is Some,
        Request::Copy => seen.copied is Some,
    }
}

/// Whether a request changes anything on disk.
pub open spec fn writes(r: Request) -> bool {
    r is CreateDirectory || r is HardLink || r is Copy
}

/// The engine never asks twice: what it asks for is not in the record yet.
/// There are nine answers, so a job ends after at most nine requests.
pub proof fn lemma_asks_what_is_unknown(
    directory: Option<Seq<char>>,
    link_path: Option<Seq<char>>,
    seen: SeenView,
)
    ensures
        verdict(directory, link_path, seen) matches Verdict::Ask(r) ==> !answered(seen, r),
{
}

/// Whether the record `more` holds every answer that `seen` holds.
pub open spec fn extends(more: SeenView, seen: SeenView) -> bool {
    &&& seen.source_exists is Some ==> more.source_exists == seen.source_exists
    &&& seen.target_exists is Some ==> more.target_exists == seen.target_exists
    &&& seen.directory_exists is Some ==> more.directory_exists == seen.directory_exists
    &&& seen.directory_created is Some ==> more.directory_created == seen.directory_created
    &&& seen.directory_confirmed is Some ==> more.directory_confirmed == seen.directory_confirmed
    &&& seen.devices is Some ==> more.devices == seen.devices
    &&& seen.permissions is Some ==> more.permissions == seen.permissions
    &&& seen.linked is Some ==> more.linked == seen.linked
    &&& seen.copied is Some ==> more.copied == seen.copied
}

/// An outcome, once named, stands: further answers do not change it.
pub proof fn lemma_outcome_stands(
    directory: Option<Seq<char>>,
    link_path: Option<Seq<char>>,
    seen: SeenView,
    more: SeenView,
)
    requires
        verdict(directory, link_path, seen) is Finished,
        extends(more, seen),
    ensures
        verdict(directory, link_path, more) == verdict(directory, link_path, seen),
{
}

/// A missing source ends the job at once with `SourceNotFound`, whatever
/// else the record holds.
pub proof fn lemma_missing_source(
    directory: Option<Seq<char>>,
    link_path: Option<Seq<char>>,
    seen: SeenView,
)
    requires
        seen.source_exists == Some(false),
    ensures
        verdict(directory, link_path, seen) == Verdict::Finished(Outcome::SourceNotFound),
{
}

/// Nothing is written before the source is known to exist and the target
/// to be free: until then the engine only asks questions, so a job that
/// fails there leaves nothing behind.
pub proof fn lemma_writes_come_after_checks(
    directory: Option<Seq<char>>,
    link_path: Option<Seq<char>>,
    seen: SeenView,
)
    ensures
        verdict(directory, link_path, seen) matches Verdict::Ask(r) && writes(r)
            ==> seen.source_exists == Some(true) && seen.target_exists == Some(false),
        verdict(directory, link_path, seen) matches Verdict::Ask(r) && (r is HardLink || r is Copy)
            ==> link_path is Some,
{
}

/// Success is only ever reported after a hard link or a copy was made.
pub proof fn lemma_success_means_linked(
    directory: Option<Seq<char>>,
    link_path: Option<Seq<char>>,
    seen: SeenView,
)
    requires
        verdict(directory, link_path, seen) == Verdict::Finished(Outcome::Success),
    ensures
        seen.linked == Some(None::<(IoKind, Seq<char>)>) || seen.copied == Some(
            None::<(IoKind, Seq<char>)>,
        ),
        seen.source_exists == Some(true),
        seen.target_exists == Some(false),
{
}

/// A source and a target directory on different devices end the job with
/// `DifferentFilesystems` before anything is linked.
pub proof fn lemma_different_devices(
    directory: Seq<char>,
    link_path: Option<Seq<char>>,
    seen: SeenView,
    source_device: u64,
    target_device: u64,
)
    requires
        seen.source_exists == Some(true),
        seen.target_exists == Some(false),
        seen.directory_exists == Some(true) || (seen.directory_exists == Some(false)
            && seen.directory_created == Some(None::<(IoKind, Seq<char>)>)),
        seen.devices == Some((Some(source_device), Some(target_device))),
        source_device != target_device,
    ensures
        verdict(Some(directory), link_path, seen) == Verdict::Finished(
            Outcome::DifferentFilesystems,
        ),
{
}

/// A directory that could not be created because something is in its
/// place is looked at again: the job goes on only if the directory is
/// there, and ends with the failure to create it if it is not.
pub proof fn lemma_blocked_directory_ends_the_job(
    directory: Seq<char>,
    link_path: Option<Seq<char>>,
    seen: SeenView,
    detail: Seq<char>,
)
    requires
        seen.source_exists == Some(true),
        seen.target_exists == Some(false),
        seen.directory_exists == Some(false),
        seen.directory_created == Some(Some((IoKind::AlreadyExists, detail))),
    ensures
        seen.directory_confirmed is None ==> verdict(Some(directory), link_path, seen)
            == Verdict::Ask(Request::ConfirmDirectory),
        seen.directory_confirmed == Some(false) ==> verdict(Some(directory), link_path, seen)
            == Verdict::Finished(Outcome::IoError(detail)),
        seen.directory_confirmed == Some(true) ==> verdict(Some(directory), link_path, seen)
            == probe_stage(link_path, seen),
{
}

/// A missing directory is asked to be created, and once it is there and the
/// probes raise no objection, a hard link that works ends the job in
/// success.
pub proof fn lemma_missing_directory_is_created(
    directory: Seq<char>,
    link_path: Seq<char>,
    seen: SeenView,
)
    requires
        seen.source_exists == Some(true),
        seen.target_exists == Some(false),
        seen.directory_exists == Some(false),
    ensures
        seen.directory_created is None ==> verdict(Some(directory), Some(link_path), seen)
            == Verdict::Ask(Request::CreateDirectory),
        seen.directory_created == Some(None::<(IoKind, Seq<char>)>) && seen.devices is Some
            && devices_agree(seen.devices.unwrap().0, seen.devices.unwrap().1)
            && seen.permissions is Some && probe_objection(seen.permissions.unwrap()) is None
            && seen.linked == Some(None::<(IoKind, Seq<char>)>) ==> verdict(
            Some(directory),
            Some(link_path),
            seen,
        ) == Verdict::Finished(Outcome::Success),
{
}

} // verus!

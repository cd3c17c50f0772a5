//! What is said about single files and directories: which files are media,
//! what is shown of a file, and whether hard links can be made from one
//! directory into another.

use vstd::prelude::*;
use vstd::string::StringExecFns;
use crate::link::{
    check_file_permissions, devices_agree, is_same_filesystem, outcome_message, probe_objection,
    result_view, IoKind, IoResult, PermissionProbe, ProbeView,
};
use crate::paths::{extension_of, file_name, file_name_chars, split_extension};
use crate::text::{
    chars_of, decimal, decimal_chars, lowercased, octal, octal_chars, same_chars, string_of,
    to_lower, truth, truth_chars,
};

verus! {

/// What is shown of a media file.
#[derive(Debug)]
pub struct FileInfo {
    pub path: String,
    /// The file name; empty where the path has none.
    pub name: String,
    /// The size in bytes.
    pub size: u64,
    /// The extension in lower case; empty where the name has none.
    pub file_type: String,
    pub is_video: bool,
    pub is_subtitle: bool,
}

/// `FileInfo` with every text as text.
pub struct Info {
    pub path: Seq<char>,
    pub name: Seq<char>,
    pub size: u64,
    pub file_type: Seq<char>,
    pub is_video: bool,
    pub is_subtitle: bool,
}

impl View for FileInfo {
    type V = Info;

    open spec fn view(&self) -> Info {
        Info {
            path: self.path@,
            name: self.name@,
            size: self.size,
            file_type: self.file_type@,
            is_video: self.is_video,
            is_subtitle: self.is_subtitle,
        }
    }
}

/// The extensions of video files, in lower case.
pub open spec fn is_video_type(file_type: Seq<char>) -> bool {
    file_type == "mkv"@ || file_type == "mp4"@ || file_type == "avi"@ || file_type == "mov"@
}

/// The extensions of subtitle files, in lower case.
pub open spec fn is_subtitle_type(file_type: Seq<char>) -> bool {
    file_type == "ass"@ || file_type == "srt"@ || file_type == "vtt"@
}

/// Whether a file type in lower case is that of a video.
pub fn is_video_extension(file_type: &str) -> (b: bool)
    ensures
        b == is_video_type(file_type@),
{
    let t = chars_of(file_type);
    same_chars(&t, &chars_of("mkv")) || same_chars(&t, &chars_of("mp4")) || same_chars(
        &t,
        &chars_of("avi"),
    ) || same_chars(&t, &chars_of("mov"))
}

/// Whether a file type in lower case is that of subtitles.
pub fn is_subtitle_extension(file_type: &str) -> (b: bool)
    ensures
        b == is_subtitle_type(file_type@),
{
    let t = chars_of(file_type);
    same_chars(&t, &chars_of("ass")) || same_chars(&t, &chars_of("srt")) || same_chars(
        &t,
        &chars_of("vtt"),
    )
}

/// The file name of a path, or nothing where it has none.
pub open spec fn name_of(path: Seq<char>) -> Seq<char> {
    match file_name(path) {
        Some(name) => name,
        None => Seq::<char>::empty(),
    }
}

/// The extension of a path's file name as written, or nothing where the
/// path has no file name or the name no extension.
pub open spec fn written_extension(path: Seq<char>) -> Seq<char> {
    match file_name(path) {
        Some(name) => match extension_of(name) {
            Some(ext) => ext,
            None => Seq::<char>::empty(),
        },
        None => Seq::<char>::empty(),
    }
}

/// What is shown of the file at `path` with the given size. Its type is its
/// extension in lower case, and the type says whether it is a video or
/// subtitles.
pub open spec fn described(path: Seq<char>, size: u64) -> Info {
    let file_type = lowercased(written_extension(path));
    Info {
        path,
        name: name_of(path),
        size,
        file_type,
        is_video: is_video_type(file_type),
        is_subtitle: is_subtitle_type(file_type),
    }
}

/// What is shown of the file at `path`: see `described`.
pub fn describe_file(path: &str, size: u64) -> (info: FileInfo)
    ensures
        info@ == described(path@, size),
{
    let (name, extension) = match file_name_chars(&chars_of(path)) {
        Some(name) => {
            let (_stem, ext) = split_extension(&name);
            match ext {
                Some(e) => (name, e),
                None => (name, Vec::new()),
            }
        },
        None => (Vec::new(), Vec::new()),
    };
    let file_type = to_lower(string_of(&extension).as_str());
    let is_video = is_video_extension(file_type.as_str());
    let is_subtitle = is_subtitle_extension(file_type.as_str());
    FileInfo {
        path: String::from_str(path),
        name: string_of(&name),
        size,
        file_type,
        is_video,
        is_subtitle,
    }
}

/// Whether a description is that of a media file.
pub open spec fn is_media(info: Info) -> bool {
    info.is_video || info.is_subtitle
}

/// The media files among the files found, each described, in the order in
/// which they were found.
pub open spec fn media_among(found: Seq<(String, u64)>) -> Seq<Info>
    decreases found.len(),
{
    if found.len() == 0 {
        Seq::empty()
    } else {
        let info = described(found.last().0@, found.last().1);
        if is_media(info) {
            media_among(found.drop_last()).push(info)
        } else {
            media_among(found.drop_last())
        }
    }
}

/// The views of a list of descriptions.
pub open spec fn infos_of(files: Seq<FileInfo>) -> Seq<Info> {
    files.map_values(|f: FileInfo| f@)
}

/// Picks the media files out of the files that a walk through a directory
/// found, each given with its size: see `media_among`.
pub fn scan_directory(found: &Vec<(String, u64)>) -> (files: Vec<FileInfo>)
    ensures
        infos_of(files@) == media_among(found@),
{
    let mut files: Vec<FileInfo> = Vec::new();
    let mut i: usize = 0;
    proof {
        assert(infos_of(files@) == media_among(found@.take(0)));
    }
    while i < found.len()
        invariant
            i <= found.len(),
            infos_of(files@) == media_among(found@.take(i as int)),
        decreases found.len() - i,
    {
        proof {
            assert(found@.take(i + 1).drop_last() == found@.take(i as int));
        }
        let ghost before = infos_of(files@);
        let info = describe_file(found[i].0.as_str(), found[i].1);
        if info.is_video || info.is_subtitle {
            files.push(info);
            proof {
                assert(infos_of(files@) == before.push(info@));
            }
        }
        i = i + 1;
    }
    proof {
        assert(found@.take(found.len() as int) == found@);
    }
    files
}

/// What the file system says of a path.
#[derive(Debug)]
pub struct FileMetadata {
    pub is_dir: bool,
    pub is_file: bool,
    /// The size in bytes.
    pub size: u64,
    /// When it was last changed, in seconds since 1970, where known.
    pub modified: Option<u64>,
    /// When it was made, in seconds since 1970, where known.
    pub created: Option<u64>,
    /// The number of the device it lies on, where the platform has one.
    pub device_id: Option<u64>,
    /// Its number on that device, where the platform has one.
    pub inode: Option<u64>,
    /// Its permission bits, where the platform has them.
    pub mode: Option<u32>,
}

/// `Result` of reading metadata, with the reason for a failure as text.
pub open spec fn metadata_view(r: Result<FileMetadata, String>) -> Result<FileMetadata, Seq<char>> {
    match r {
        Ok(m) => Ok(m),
        Err(e) => Err(e@),
    }
}

/// Whether a path is a directory, or why that cannot be told.
pub open spec fn directory_answer(metadata: Result<FileMetadata, Seq<char>>) -> Result<
    bool,
    Seq<char>,
> {
    match metadata {
        Ok(m) => Ok(m.is_dir),
        Err(detail) => Err("无法获取路径信息: "@ + detail),
    }
}

/// `Result` with its error as text.
pub open spec fn answer_view<T>(r: Result<T, String>) -> Result<T, Seq<char>> {
    match r {
        Ok(v) => Ok(v),
        Err(e) => Err(e@),
    }
}

/// Whether a path is a directory, given what reading its metadata gave:
/// see `directory_answer`.
pub fn is_directory(metadata: &Result<FileMetadata, String>) -> (r: Result<bool, String>)
    ensures
        answer_view(r) == directory_answer(metadata_view(*metadata)),
{
    match metadata {
        Ok(m) => Ok(m.is_dir),
        Err(detail) => {
            let mut message = String::from_str("无法获取路径信息: ");
            message.append(detail.as_str());
            Err(message)
        },
    }
}

/// What is shown of one file, or why nothing is: the path must exist, its
/// metadata must be readable, it must not be a directory, and it must be a
/// video or subtitles.
pub open spec fn file_info_answer(
    path: Seq<char>,
    exists: bool,
    metadata: Result<FileMetadata, Seq<char>>,
) -> Result<Info, Seq<char>> {
    if !exists {
        Err("文件不存在"@)
    } else {
        match metadata {
            Err(detail) => Err("无法获取文件元数据: "@ + detail),
            Ok(m) => if m.is_dir {
                Err("路径是目录，不是文件"@)
            } else if !is_media(described(path, m.size)) {
                Err("不支持的文件类型"@)
            } else {
                Ok(described(path, m.size))
            },
        }
    }
}

/// `Result` of describing a file, with every text as text.
pub open spec fn info_view(r: Result<FileInfo, String>) -> Result<Info, Seq<char>> {
    match r {
        Ok(info) => Ok(info@),
        Err(e) => Err(e@),
    }
}

/// What is shown of one file, given whether it exists and what reading its
/// metadata gave: see `file_info_answer`.
pub fn get_file_info(path: &str, exists: bool, metadata: &Result<FileMetadata, String>) -> (r:
    Result<FileInfo, String>)
    ensures
        info_view(r) == file_info_answer(path@, exists, metadata_view(*metadata)),
{
    if !exists {
        return Err(String::from_str("文件不存在"));
    }
    match metadata {
        Err(detail) => {
            let mut message = String::from_str("无法获取文件元数据: ");
            message.append(detail.as_str());
            Err(message)
        },
        Ok(m) => {
            if m.is_dir {
                return Err(String::from_str("路径是目录，不是文件"));
            }
            let info = describe_file(path, m.size);
            if !info.is_video && !info.is_subtitle {
                Err(String::from_str("不支持的文件类型"))
            } else {
                Ok(info)
            }
        },
    }
}

/// One more fact where it is known.
pub open spec fn with_fact(
    facts: Seq<(Seq<char>, Seq<char>)>,
    key: Seq<char>,
    value: Option<Seq<char>>,
) -> Seq<(Seq<char>, Seq<char>)> {
    match value {
        Some(v) => facts.push((key, v)),
        None => facts,
    }
}

/// A number written in decimal, where there is one.
pub open spec fn decimal_of(n: Option<u64>) -> Option<Seq<char>> {
    match n {
        Some(v) => Some(decimal(v as nat)),
        None => None,
    }
}

/// Permission bits written in octal, where there are any.
pub open spec fn octal_of(n: Option<u32>) -> Option<Seq<char>> {
    match n {
        Some(v) => Some(octal(v as nat)),
        None => None,
    }
}

/// The facts that are shown of a path, each under its key and in this
/// order: `is_dir`, `is_file`, `size`, then, each where it is known,
/// `modified`, `created`, `device_id`, `inode`, and `permissions` in octal.
pub open spec fn facts_of(m: FileMetadata) -> Seq<(Seq<char>, Seq<char>)> {
    let base = seq![
        ("is_dir"@, truth(m.is_dir)),
        ("is_file"@, truth(m.is_file)),
        ("size"@, decimal(m.size as nat)),
    ];
    with_fact(
        with_fact(
            with_fact(
                with_fact(
                    with_fact(base, "modified"@, decimal_of(m.modified)),
                    "created"@,
                    decimal_of(m.created),
                ),
                "device_id"@,
                decimal_of(m.device_id),
            ),
            "inode"@,
            decimal_of(m.inode),
        ),
        "permissions"@,
        octal_of(m.mode),
    )
}

/// The facts that are shown of a path, or why there are none: the path
/// must exist and its metadata must be readable.
pub open spec fn filesystem_answer(exists: bool, metadata: Result<FileMetadata, Seq<char>>) -> Result<
    Seq<(Seq<char>, Seq<char>)>,
    Seq<char>,
> {
    if !exists {
        Err("路径不存在"@)
    } else {
        match metadata {
            Ok(m) => Ok(facts_of(m)),
            Err(detail) => Err("获取文件元数据失败: "@ + detail),
        }
    }
}

/// The texts of a list of facts.
pub open spec fn fact_texts(facts: Seq<(String, String)>) -> Seq<(Seq<char>, Seq<char>)> {
    facts.map_values(|f: (String, String)| (f.0@, f.1@))
}

/// `Result` of listing facts, with every text as text.
pub open spec fn facts_view(r: Result<Vec<(String, String)>, String>) -> Result<
    Seq<(Seq<char>, Seq<char>)>,
    Seq<char>,
> {
    match r {
        Ok(facts) => Ok(fact_texts(facts@)),
        Err(e) => Err(e@),
    }
}

fn push_fact(facts: &mut Vec<(String, String)>, key: &str, value: Option<Vec<char>>)
    ensures
        fact_texts(final(facts)@) == with_fact(
            fact_texts(old(facts)@),
            key@,
            match value {
                Some(v) => Some(v@),
                None => None,
            },
        ),
{
    let ghost before = fact_texts(facts@);
    match value {
        Some(v) => {
            facts.push((String::from_str(key), string_of(&v)));
            proof {
                assert(fact_texts(facts@) == before.push((key@, v@)));
            }
        },
        None => {},
    }
}

fn decimal_text(n: Option<u64>) -> (out: Option<Vec<char>>)
    ensures
        match out {
            Some(v) => decimal_of(n) == Some(v@),
            None => decimal_of(n) is None,
        },
{
    match n {
        Some(v) => Some(decimal_chars(v as u128)),
        None => None,
    }
}

/// The facts that are shown of a path, given whether it exists and what
/// reading its metadata gave: see `filesystem_answer`.
pub fn get_filesystem_info(exists: bool, metadata: &Result<FileMetadata, String>) -> (r: Result<
    Vec<(String, String)>,
    String,
>)
    ensures
        facts_view(r) == filesystem_answer(exists, metadata_view(*metadata)),
{
    if !exists {
        return Err(String::from_str("路径不存在"));
    }
    match metadata {
        Err(detail) => {
            let mut message = String::from_str("获取文件元数据失败: ");
            message.append(detail.as_str());
            Err(message)
        },
        Ok(m) => {
            let mut facts: Vec<(String, String)> = Vec::new();
            proof {
                assert(fact_texts(facts@) == Seq::<(Seq<char>, Seq<char>)>::empty());
            }
            push_fact(&mut facts, "is_dir", Some(truth_chars(m.is_dir)));
            push_fact(&mut facts, "is_file", Some(truth_chars(m.is_file)));
            push_fact(&mut facts, "size", Some(decimal_chars(m.size as u128)));
            proof {
                assert(fact_texts(facts@) == seq![
                    ("is_dir"@, truth(m.is_dir)),
                    ("is_file"@, truth(m.is_file)),
                    ("size"@, decimal(m.size as nat)),
                ]);
            }
            push_fact(&mut facts, "modified", decimal_text(m.modified));
            push_fact(&mut facts, "created", decimal_text(m.created));
            push_fact(&mut facts, "device_id", decimal_text(m.device_id));
            push_fact(&mut facts, "inode", decimal_text(m.inode));
            let permissions = match m.mode {
                Some(bits) => Some(octal_chars(bits as u128)),
                None => None,
            };
            push_fact(&mut facts, "permissions", permissions);
            Ok(facts)
        },
    }
}

/// What the capability check wants to know, or have done, next.
#[derive(Clone, Copy, Debug)]
pub enum CapabilityRequest {
    /// Does the source directory exist?
    SourceExists,
    /// Does the target directory exist?
    TargetExists,
    /// Create the target directory and those above it.
    CreateTarget,
    /// The device numbers of the two directories.
    Devices,
    /// Read the metadata of the two directories.
    Permissions,
}

/// The answers given so far to the capability check.
#[derive(Debug)]
pub struct CapabilitySeen {
    pub source_exists: Option<bool>,
    pub target_exists: Option<bool>,
    pub target_created: Option<IoResult>,
    pub devices: Option<(Option<u64>, Option<u64>)>,
    pub permissions: Option<PermissionProbe>,
}

/// `CapabilitySeen` with every detail as text.
pub struct CapabilityView {
    pub source_exists: Option<bool>,
    pub target_exists: Option<bool>,
    pub target_created: Option<Option<(IoKind, Seq<char>)>>,
    pub devices: Option<(Option<u64>, Option<u64>)>,
    pub permissions: Option<ProbeView>,
}

impl View for CapabilitySeen {
    type V = CapabilityView;

    open spec fn view(&self) -> CapabilityView {
        CapabilityView {
            source_exists: self.source_exists,
            target_exists: self.target_exists,
            target_created: match self.target_created {
                Some(r) => Some(result_view(r)),
                None => None,
            },
            devices: self.devices,
            permissions: match self.permissions {
                Some(p) => Some(p@),
                None => None,
            },
        }
    }
}

/// What the capability check says.
#[derive(Debug)]
pub enum CapabilityDecision {
    Ask(CapabilityRequest),
    /// Hard links can be made from the one directory into the other.
    Capable,
    /// They cannot, for the reason given.
    Incapable(String),
}

/// `CapabilityDecision` with the reason as text.
pub enum Capability {
    Ask(CapabilityRequest),
    Capable,
    Incapable(Seq<char>),
}

impl View for CapabilityDecision {
    type V = Capability;

    open spec fn view(&self) -> Capability {
        match *self {
            CapabilityDecision::Ask(r) => Capability::Ask(r),
            CapabilityDecision::Capable => Capability::Capable,
            CapabilityDecision::Incapable(m) => Capability::Incapable(m@),
        }
    }
}

/// The last two checks: the directories lie on one file system, and the
/// permission probe raises no objection.
pub open spec fn capability_probes(seen: CapabilityView) -> Capability {
    match seen.devices {
        None => Capability::Ask(CapabilityRequest::Devices),
        Some((source, target)) => if !devices_agree(source, target) {
            Capability::Incapable("源目录和目标目录不在同一文件系统上，无法创建硬链接"@)
        } else {
            match seen.permissions {
                None => Capability::Ask(CapabilityRequest::Permissions),
                Some(p) => match probe_objection(p) {
                    Some(outcome) => Capability::Incapable(
                        "权限检查失败: "@ + outcome_message(outcome),
                    ),
                    None => Capability::Capable,
                },
            }
        },
    }
}

/// Whether hard links can be made from a source directory into a target
/// directory, after what has been seen: the source must exist, the target
/// is created where it is missing, and then the two must lie on one file
/// system and the permission probe must raise no objection.
pub open spec fn capability(seen: CapabilityView) -> Capability {
    match seen.source_exists {
        None => Capability::Ask(CapabilityRequest::SourceExists),
        Some(false) => Capability::Incapable("源目录不存在"@),
        Some(true) => match seen.target_exists {
            None => Capability::Ask(CapabilityRequest::TargetExists),
            Some(true) => capability_probes(seen),
            Some(false) => match seen.target_created {
                None => Capability::Ask(CapabilityRequest::CreateTarget),
                Some(None) => capability_probes(seen),
                Some(Some((_, detail))) => Capability::Incapable("无法创建目标目录: "@ + detail),
            },
        },
    }
}

fn decide_capability_probes(seen: &CapabilitySeen) -> (d: CapabilityDecision)
    ensures
        d@ == capability_probes(seen@),
{
    match seen.devices {
        None => CapabilityDecision::Ask(CapabilityRequest::Devices),
        Some((source, target)) => {
            if !is_same_filesystem(source, target) {
                CapabilityDecision::Incapable(
                    String::from_str("源目录和目标目录不在同一文件系统上，无法创建硬链接"),
                )
            } else {
                match &seen.permissions {
                    None => CapabilityDecision::Ask(CapabilityRequest::Permissions),
                    Some(p) => match check_file_permissions(p) {
                        Some(outcome) => {
                            let mut message = String::from_str("权限检查失败: ");
                            message.append(outcome.message().as_str());
                            CapabilityDecision::Incapable(message)
                        },
                        None => CapabilityDecision::Capable,
                    },
                }
            }
        },
    }
}

/// Says what to ask next in order to learn whether hard links can be made
/// from one directory into another, or the answer: see `capability`.
pub fn check_hardlink_capability(seen: &CapabilitySeen) -> (d: CapabilityDecision)
    ensures
        d@ == capability(seen@),
{
    match seen.source_exists {
        None => CapabilityDecision::Ask(CapabilityRequest::SourceExists),
        Some(false) => CapabilityDecision::Incapable(String::from_str("源目录不存在")),
        Some(true) => match seen.target_exists {
            None => CapabilityDecision::Ask(CapabilityRequest::TargetExists),
            Some(true) => decide_capability_probes(seen),
            Some(false) => match &seen.target_created {
                None => CapabilityDecision::Ask(CapabilityRequest::CreateTarget),
                Some(IoResult::Done) => decide_capability_probes(seen),
                Some(IoResult::Failed(f)) => {
                    let mut message = String::from_str("无法创建目标目录: ");
                    message.append(f.detail.as_str());
                    CapabilityDecision::Incapable(message)
                },
            },
        },
    }
}

} // verus!

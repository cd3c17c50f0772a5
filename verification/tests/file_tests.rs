use anime_file_manager::files::{
    check_hardlink_capability, describe_file, get_file_info, get_filesystem_info, is_directory,
    is_subtitle_extension, is_video_extension, scan_directory, CapabilityDecision,
    CapabilityRequest, CapabilitySeen, FileMetadata,
};
use anime_file_manager::link::{IoFailure, IoKind, IoResult, PermissionProbe};

fn metadata(is_dir: bool, size: u64) -> FileMetadata {
    FileMetadata {
        is_dir,
        is_file: !is_dir,
        size,
        modified: None,
        created: None,
        device_id: None,
        inode: None,
        mode: None,
    }
}

fn nothing_seen() -> CapabilitySeen {
    CapabilitySeen {
        source_exists: None,
        target_exists: None,
        target_created: None,
        devices: None,
        permissions: None,
    }
}

#[test]
fn media_types() {
    for t in ["mkv", "mp4", "avi", "mov"] {
        assert!(is_video_extension(t));
        assert!(!is_subtitle_extension(t));
    }
    for t in ["ass", "srt", "vtt"] {
        assert!(is_subtitle_extension(t));
        assert!(!is_video_extension(t));
    }
    for t in ["", "MKV", "txt", "mk", "mkvx"] {
        assert!(!is_video_extension(t));
        assert!(!is_subtitle_extension(t));
    }
}

#[test]
fn files_are_described() {
    let info = describe_file("/src/Show - 01.MKV", 1234);
    assert_eq!(info.path, "/src/Show - 01.MKV");
    assert_eq!(info.name, "Show - 01.MKV");
    assert_eq!(info.size, 1234);
    assert_eq!(info.file_type, "mkv");
    assert!(info.is_video);
    assert!(!info.is_subtitle);
    let info = describe_file("/src/a.b.Srt", 5);
    assert_eq!(info.file_type, "srt");
    assert!(info.is_subtitle);
    let info = describe_file("/src/readme", 5);
    assert_eq!(info.name, "readme");
    assert_eq!(info.file_type, "");
    assert!(!info.is_video && !info.is_subtitle);
    let info = describe_file("/", 0);
    assert_eq!(info.name, "");
    assert_eq!(info.file_type, "");
}

#[test]
fn scan_keeps_media_files_in_order() {
    let found = vec![
        ("/src/a.mkv".to_string(), 10),
        ("/src/notes.txt".to_string(), 20),
        ("/src/a.ass".to_string(), 30),
        ("/src/.mkv".to_string(), 40),
        ("/src/b.MP4".to_string(), 50),
    ];
    let files = scan_directory(&found);
    assert_eq!(files.len(), 3);
    assert_eq!(files[0].path, "/src/a.mkv");
    assert_eq!(files[0].size, 10);
    assert_eq!(files[1].path, "/src/a.ass");
    assert!(files[1].is_subtitle);
    assert_eq!(files[2].path, "/src/b.MP4");
    assert_eq!(files[2].file_type, "mp4");
    assert_eq!(scan_directory(&Vec::new()).len(), 0);
}

#[test]
fn single_file_info() {
    let info = get_file_info("/src/a.mkv", true, &Ok(metadata(false, 7))).unwrap();
    assert_eq!(info.name, "a.mkv");
    assert_eq!(info.size, 7);
    assert!(info.is_video);
}

#[test]
fn single_file_info_errors() {
    let error = |exists: bool, m: Result<FileMetadata, String>, path: &str| {
        get_file_info(path, exists, &m).unwrap_err()
    };
    assert_eq!(error(false, Ok(metadata(false, 7)), "/src/a.mkv"), "文件不存在");
    assert_eq!(
        error(true, Err("denied".to_string()), "/src/a.mkv"),
        "无法获取文件元数据: denied"
    );
    assert_eq!(error(true, Ok(metadata(true, 0)), "/src/a.mkv"), "路径是目录，不是文件");
    assert_eq!(error(true, Ok(metadata(false, 7)), "/src/a.txt"), "不支持的文件类型");
}

#[test]
fn directories_are_told_apart() {
    assert_eq!(is_directory(&Ok(metadata(true, 0))), Ok(true));
    assert_eq!(is_directory(&Ok(metadata(false, 0))), Ok(false));
    assert_eq!(is_directory(&Err("gone".to_string())), Err("无法获取路径信息: gone".to_string()));
}

#[test]
fn file_system_facts() {
    let pair = |k: &str, v: &str| (k.to_string(), v.to_string());
    let facts = get_filesystem_info(true, &Ok(metadata(false, 42))).unwrap();
    assert_eq!(facts, vec![pair("is_dir", "false"), pair("is_file", "true"), pair("size", "42")]);
    let full = FileMetadata {
        is_dir: true,
        is_file: false,
        size: 4096,
        modified: Some(1700000000),
        created: None,
        device_id: Some(2049),
        inode: Some(77),
        mode: Some(0o40755),
    };
    let facts = get_filesystem_info(true, &Ok(full)).unwrap();
    assert_eq!(
        facts,
        vec![
            pair("is_dir", "true"),
            pair("is_file", "false"),
            pair("size", "4096"),
            pair("modified", "1700000000"),
            pair("device_id", "2049"),
            pair("inode", "77"),
            pair("permissions", "40755"),
        ]
    );
}

#[test]
fn file_system_facts_errors() {
    assert_eq!(get_filesystem_info(false, &Ok(metadata(false, 1))), Err("路径不存在".to_string()));
    assert_eq!(
        get_filesystem_info(true, &Err("denied".to_string())),
        Err("获取文件元数据失败: denied".to_string())
    );
}

#[test]
fn capability_is_checked_step_by_step() {
    let mut seen = nothing_seen();
    assert!(matches!(
        check_hardlink_capability(&seen),
        CapabilityDecision::Ask(CapabilityRequest::SourceExists)
    ));
    seen.source_exists = Some(true);
    assert!(matches!(
        check_hardlink_capability(&seen),
        CapabilityDecision::Ask(CapabilityRequest::TargetExists)
    ));
    seen.target_exists = Some(false);
    assert!(matches!(
        check_hardlink_capability(&seen),
        CapabilityDecision::Ask(CapabilityRequest::CreateTarget)
    ));
    seen.target_created = Some(IoResult::Done);
    assert!(matches!(
        check_hardlink_capability(&seen),
        CapabilityDecision::Ask(CapabilityRequest::Devices)
    ));
    seen.devices = Some((Some(1), Some(1)));
    assert!(matches!(
        check_hardlink_capability(&seen),
        CapabilityDecision::Ask(CapabilityRequest::Permissions)
    ));
    seen.permissions =
        Some(PermissionProbe { source: IoResult::Done, directory: IoResult::Done, mode: Some(0o755) });
    assert!(matches!(check_hardlink_capability(&seen), CapabilityDecision::Capable));
}

#[test]
fn capability_refusals() {
    let reason = |seen: &CapabilitySeen| match check_hardlink_capability(seen) {
        CapabilityDecision::Incapable(message) => message,
        other => panic!("{:?}", other),
    };
    let mut seen = nothing_seen();
    seen.source_exists = Some(false);
    assert_eq!(reason(&seen), "源目录不存在");
    seen.source_exists = Some(true);
    seen.target_exists = Some(false);
    seen.target_created =
        Some(IoResult::Failed(IoFailure { kind: IoKind::PermissionDenied, detail: "denied".to_string() }));
    assert_eq!(reason(&seen), "无法创建目标目录: denied");
    seen.target_exists = Some(true);
    seen.devices = Some((Some(1), Some(2)));
    assert_eq!(reason(&seen), "源目录和目标目录不在同一文件系统上，无法创建硬链接");
    seen.devices = Some((Some(1), None));
    seen.permissions =
        Some(PermissionProbe { source: IoResult::Done, directory: IoResult::Done, mode: Some(0o555) });
    assert_eq!(reason(&seen), "权限检查失败: 权限不足，无法创建硬链接");
}

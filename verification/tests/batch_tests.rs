use anime_file_manager::batch::{
    batch_process_files, batch_process_with_rename, batch_process_with_season_folders,
    finish_batch, lay_out_seasons, output_directory_failure, plan_file,
    prepare_output_directory, preview_file_processing, report, report_directory_failure,
    report_outcome, report_refusal, sanitize_segments, settle_plan, test_path_sanitization,
    Attempt, FilePlan, FileReport, LinkPlan, OutputDecision, OutputRequest, OutputSeen,
    RenameMap,
};
use anime_file_manager::link::{IoFailure, IoKind, IoResult, LinkOutcome};
use anime_file_manager::text::{chars_of, string_of};

fn files(paths: &[&str]) -> Vec<String> {
    paths.iter().map(|p| p.to_string()).collect()
}

fn link_of(plan: &FilePlan) -> &LinkPlan {
    match plan {
        FilePlan::Link(p) => p,
        FilePlan::Fail(e) => panic!("{:?}", e),
    }
}

fn refusal_of(plan: &FilePlan) -> (&str, &str) {
    match plan {
        FilePlan::Fail(e) => (e.path.as_str(), e.error.as_str()),
        FilePlan::Link(p) => panic!("{:?}", p),
    }
}

fn renames(entries: &[(&str, &str)]) -> RenameMap {
    let mut map = RenameMap::new();
    for (source, target) in entries {
        map.insert(source.to_string(), target.to_string());
    }
    map
}

#[test]
fn rename_map_holds_the_latest_entry() {
    let mut map = RenameMap::new();
    assert_eq!(map.get("a"), None);
    map.insert("a".to_string(), "one".to_string());
    map.insert("b".to_string(), "two".to_string());
    assert_eq!(map.get("a"), Some("one".to_string()));
    assert_eq!(map.get("b"), Some("two".to_string()));
    assert_eq!(map.get("c"), None);
    map.insert("a".to_string(), "three".to_string());
    assert_eq!(map.get("a"), Some("three".to_string()));
}

#[test]
fn plain_batch_links_under_the_file_s_own_name() {
    let plans = batch_process_files(&files(&["/src/a.mkv", "/src/sub/b?.srt"]), "/out");
    assert_eq!(plans.len(), 2);
    let first = link_of(&plans[0]);
    assert_eq!(first.source, "/src/a.mkv");
    assert_eq!(first.target, "/out/a.mkv");
    assert!(!first.shortened);
    assert!(!first.prepare_directory);
    let second = link_of(&plans[1]);
    assert_eq!(second.source, "/src/sub/b?.srt");
    assert_eq!(second.target, "/out/b_.srt");
}

#[test]
fn output_directory_is_sanitized() {
    let plans = batch_process_files(&files(&["/src/a.mkv"]), "/out/My: Library/");
    assert_eq!(link_of(&plans[0]).target, "/out/My_ Library/a.mkv");
}

#[test]
fn source_without_a_file_name_is_refused() {
    let plans = batch_process_files(&files(&["/", "/src/..", ""]), "/out");
    assert_eq!(refusal_of(&plans[0]), ("/", "无效的文件名"));
    assert_eq!(refusal_of(&plans[1]), ("/src/..", "无效的文件名"));
    assert_eq!(refusal_of(&plans[2]), ("", "无效的文件名"));
}

#[test]
fn empty_batch_has_no_plans() {
    assert_eq!(batch_process_files(&Vec::new(), "/out").len(), 0);
}

#[test]
fn new_names_are_sanitized_segment_by_segment() {
    let clean = |name: &str| string_of(&sanitize_segments(&chars_of(name)));
    assert_eq!(clean("Show/Season 1/ep01.mkv"), "Show/Season 1/ep01.mkv");
    assert_eq!(clean("Show: A\\Season 1\\ep?.mkv"), "Show_ A/Season 1/ep_.mkv");
    assert_eq!(clean("plain name.mkv"), "plain name.mkv");
    assert_eq!(clean("/abs/x"), "unnamed_file/abs/x");
    assert_eq!(clean("a//b"), "a/unnamed_file/b");
    assert_eq!(clean("a/ . /b/"), "a/unnamed_file/b/unnamed_file");
    assert_eq!(clean(""), "unnamed_file");
}

#[test]
fn new_names_cannot_lead_out_of_the_output_directory() {
    let map = renames(&[
        ("/src/a.mkv", "../../etc/passwd"),
        ("/src/b.mkv", "/etc/passwd"),
        ("/src/c.mkv", "x/./../y"),
    ]);
    let plans = batch_process_with_rename(
        &files(&["/src/a.mkv", "/src/b.mkv", "/src/c.mkv"]),
        "/out",
        &map,
    );
    assert_eq!(link_of(&plans[0]).target, "/out/unnamed_file/unnamed_file/etc/passwd");
    assert_eq!(link_of(&plans[1]).target, "/out/unnamed_file/etc/passwd");
    assert_eq!(link_of(&plans[2]).target, "/out/x/unnamed_file/unnamed_file/y");
}

#[test]
fn batch_with_new_names() {
    let map = renames(&[("/src/a.mkv", "Show/Season 1/Show - S01E01.mkv")]);
    let plans =
        batch_process_with_rename(&files(&["/src/a.mkv", "/src/b.mkv", "/"]), "/out", &map);
    assert_eq!(plans.len(), 3);
    assert_eq!(link_of(&plans[0]).target, "/out/Show/Season 1/Show - S01E01.mkv");
    assert_eq!(link_of(&plans[0]).source, "/src/a.mkv");
    assert_eq!(link_of(&plans[1]).target, "/out/b.mkv");
    assert_eq!(refusal_of(&plans[2]), ("/", "无效的文件名"));
}

#[test]
fn new_name_decides_even_for_a_source_without_a_file_name() {
    let map = renames(&[("/", "x.mkv")]);
    let plans = batch_process_with_rename(&files(&["/"]), "/out", &map);
    assert_eq!(link_of(&plans[0]).target, "/out/x.mkv");
}

#[test]
fn name_cut_by_sanitizing_has_no_extension_left_to_shorten_by() {
    let stem = "n".repeat(300);
    let source = format!("/src/{}.mkv", stem);
    // The name is cut to 200 bytes by sanitizing, so the extension is gone
    // and there is nothing to shorten: with an output directory of 70
    // bytes the target is over the budget.
    let out = format!("/{}", "o".repeat(69));
    let plans = batch_process_files(&files(&[&source]), &out);
    let (path, error) = refusal_of(&plans[0]);
    assert_eq!(path, source);
    assert_eq!(error, format!("目标路径过长: {} 字符", 70 + 1 + 200));
}

#[test]
fn long_stem_is_cut_to_ninety_seven_bytes_and_three_dots() {
    let stem = "n".repeat(150);
    let source = format!("/src/{}.mkv", stem);
    let out = format!("/{}", "o".repeat(119));
    // 120 + 1 + 154 = 275 bytes: over the budget.
    let plans = batch_process_files(&files(&[&source]), &out);
    let plan = link_of(&plans[0]);
    assert!(plan.shortened);
    assert_eq!(plan.target, format!("{}/{}....mkv", out, "n".repeat(97)));
    assert_eq!(plan.source, source);
}

#[test]
fn shortening_keeps_the_directory_of_the_target() {
    let name = format!("{}.mkv", "n".repeat(180));
    let map = renames(&[("/src/a.mkv", &format!("{}/{}", "S".repeat(80), name))]);
    // 4 + 1 + 80 + 1 + 184 = 270 bytes: over the budget.
    let plans = batch_process_with_rename(&files(&["/src/a.mkv"]), "/out", &map);
    let plan = link_of(&plans[0]);
    assert!(plan.shortened);
    assert_eq!(plan.target, format!("/out/{}/{}....mkv", "S".repeat(80), "n".repeat(97)));
}

#[test]
fn short_stem_cannot_be_shortened() {
    // The directories alone are over the budget; the stem is short and
    // stays, so the shorter target is the target and the file is refused.
    let map = renames(&[("/src/a.mkv", &format!("{}/{}/ep.mkv", "s".repeat(150), "t".repeat(150)))]);
    let plans = batch_process_with_rename(&files(&["/src/a.mkv"]), "/out", &map);
    let (path, error) = refusal_of(&plans[0]);
    assert_eq!(path, "/src/a.mkv");
    assert_eq!(error, format!("目标路径过长: {} 字符", 4 + 1 + 150 + 1 + 150 + 1 + 6));
}

#[test]
fn long_stem_is_cut_between_characters() {
    let stem = "\u{65E5}".repeat(40);
    let map = renames(&[("/src/a.mkv", &format!("{}/{}.mkv", "s".repeat(150), stem))]);
    let plans = batch_process_with_rename(&files(&["/src/a.mkv"]), "/out", &map);
    let plan = link_of(&plans[0]);
    assert!(plan.shortened);
    // 120 bytes of stem are over 100; 32 characters are 96 bytes, 33 are 99.
    assert_eq!(
        plan.target,
        format!("/out/{}/{}....mkv", "s".repeat(150), "\u{65E5}".repeat(32))
    );
}

#[test]
fn target_that_stays_too_long_is_refused() {
    // Two components of 150 bytes each make the output directory itself 302
    // bytes long, so no file name below it fits.
    let out = format!("/{}/{}", "o".repeat(150), "p".repeat(150));
    let plans = batch_process_files(&files(&["/src/movie.mkv"]), &out);
    let (path, error) = refusal_of(&plans[0]);
    assert_eq!(path, "/src/movie.mkv");
    assert_eq!(error, format!("目标路径过长: {} 字符", 302 + 1 + 9));
}

#[test]
fn file_without_extension_is_not_shortened() {
    let map = renames(&[("/src/a", &format!("{}/{}/ep", "s".repeat(150), "t".repeat(150)))]);
    let plans = batch_process_with_rename(&files(&["/src/a"]), "/out", &map);
    let (path, error) = refusal_of(&plans[0]);
    assert_eq!(path, "/src/a");
    assert_eq!(error, format!("目标路径过长: {} 字符", 4 + 1 + 150 + 1 + 150 + 1 + 2));
}

#[test]
fn season_layout() {
    let lay = |rel: &str, folders: bool, template: &str| {
        string_of(&lay_out_seasons(&chars_of(rel), folders, template))
    };
    assert_eq!(lay("Show/Season 2/ep.mkv", true, "Season {season}"), "Show/Season 2/ep.mkv");
    assert_eq!(lay("Show/S02/ep.mkv", true, "Season {season:02}"), "Show/Season 02/ep.mkv");
    assert_eq!(lay("Show/extras/ep.mkv", true, "Season {season}"), "Show/Season 1/ep.mkv");
    assert_eq!(lay("Show/S02/ep.mkv", false, "Season {season}"), "Show/ep.mkv");
    assert_eq!(lay("Show/ep.mkv", true, "Season {season}"), "Show/ep.mkv");
    assert_eq!(lay("ep.mkv", true, "Season {season}"), "ep.mkv");
    assert_eq!(lay("Show/S03/disc/ep.mkv", true, "S{season}"), "Show/S3/ep.mkv");
    assert_eq!(lay("Show/S03/disc/ep.mkv", false, "S{season}"), "Show/ep.mkv");
}

#[test]
fn batch_with_season_folders() {
    let map = renames(&[
        ("/src/a.mkv", "Show/Season 2/Show - 01.mkv"),
        ("/src/b.mkv", "Show/Show - 02.mkv"),
    ]);
    let plans = batch_process_with_season_folders(
        &files(&["/src/a.mkv", "/src/b.mkv", "/src/c.mkv"]),
        "/out",
        &map,
        true,
        "S{season:02}",
    );
    assert_eq!(plans.len(), 3);
    let first = link_of(&plans[0]);
    assert_eq!(first.target, "/out/Show/S02/Show - 01.mkv");
    assert!(first.prepare_directory);
    assert!(!first.shortened);
    assert_eq!(link_of(&plans[1]).target, "/out/Show/Show - 02.mkv");
    assert_eq!(link_of(&plans[2]).target, "/out/c.mkv");
}

#[test]
fn batch_with_season_folders_refuses_long_targets() {
    let map = renames(&[("/src/a.mkv", &format!("Show/S1/{}.mkv", "n".repeat(150)))]);
    let out = format!("/{}", "o".repeat(119));
    let plans =
        batch_process_with_season_folders(&files(&["/src/a.mkv"]), &out, &map, false, "S{season}");
    let (path, error) = refusal_of(&plans[0]);
    assert_eq!(path, "/src/a.mkv");
    assert_eq!(error, format!("目标路径过长: {} 字符", 120 + 1 + 4 + 1 + 154));
}

#[test]
fn single_file_plan() {
    let plan = plan_file("/src/a.mkv", &chars_of("/out"), &Some("x/y.mkv".to_string()));
    assert_eq!(link_of(&plan).target, "/out/x/y.mkv");
    let plan = plan_file("/src/a.mkv", &chars_of("/out"), &None);
    assert_eq!(link_of(&plan).target, "/out/a.mkv");
}

#[test]
fn previews() {
    let map = renames(&[("/src/a.mkv", "Show\\S1\\a?.mkv")]);
    let shown = preview_file_processing(&files(&["/src/a.mkv", "/src/b.mkv", "/"]), "/out", &map);
    assert_eq!(
        shown,
        vec![
            ("/src/a.mkv".to_string(), "/out/Show/S1/a_.mkv".to_string()),
            ("/src/b.mkv".to_string(), "/out/b.mkv".to_string()),
            ("/".to_string(), "/out/invalid_filename".to_string()),
        ]
    );
}

#[test]
fn sanitization_is_shown_for_each_path() {
    let shown = test_path_sanitization(&files(&["/a/b?", "x"]));
    assert_eq!(
        shown,
        vec![("/a/b?".to_string(), "/a/b_".to_string()), ("x".to_string(), "x".to_string())]
    );
}

fn plan(source: &str, shortened: bool) -> LinkPlan {
    LinkPlan {
        source: source.to_string(),
        target: "/out/x".to_string(),
        shortened,
        prepare_directory: false,
    }
}

#[test]
fn reports_for_single_files() {
    let ok = report_outcome(&plan("/src/a", false), &LinkOutcome::Success);
    assert_eq!(ok.path, "/src/a");
    assert_eq!(ok.error, None);
    let failed = report_outcome(&plan("/src/a", false), &LinkOutcome::TargetExists);
    assert_eq!(failed.error, Some("目标文件已存在".to_string()));
    let failed = report_outcome(&plan("/src/a", true), &LinkOutcome::TargetExists);
    assert_eq!(failed.error, Some("路径过长且缩短后仍失败: 目标文件已存在".to_string()));
    let ok = report_outcome(&plan("/src/a", true), &LinkOutcome::Success);
    assert_eq!(ok.error, None);
    let dir = report_directory_failure(&plan("/src/b", false), "permission denied");
    assert_eq!(dir.path, "/src/b");
    assert_eq!(dir.error, Some("创建目录失败: permission denied".to_string()));
    assert_eq!(output_directory_failure("read-only"), "创建输出目录失败: read-only");
}

#[test]
fn refused_plan_is_reported_as_it_is() {
    let plans = batch_process_files(&files(&["/"]), "/out");
    match &plans[0] {
        FilePlan::Fail(refusal) => {
            let r = report_refusal(refusal);
            assert_eq!(r.path, "/");
            assert_eq!(r.error, Some("无效的文件名".to_string()));
        }
        FilePlan::Link(p) => panic!("{:?}", p),
    }
}

#[test]
fn every_file_is_in_exactly_one_list() {
    let reports = vec![
        FileReport { path: "a".to_string(), error: None },
        FileReport { path: "b".to_string(), error: Some("x".to_string()) },
        FileReport { path: "a".to_string(), error: Some("y".to_string()) },
        FileReport { path: "c".to_string(), error: None },
    ];
    let result = report(&reports);
    assert_eq!(result.processed_files, vec!["a", "c"]);
    assert_eq!(result.failed_files.len(), 2);
    assert_eq!(result.failed_files[0].path, "b");
    assert_eq!(result.failed_files[0].error, "x");
    assert_eq!(result.failed_files[1].path, "a");
    assert_eq!(result.failed_files[1].error, "y");
    assert_eq!(result.processed_files.len() + result.failed_files.len(), reports.len());
    assert!(!result.success);
    assert_eq!(result.message, "处理完成: 成功 2/4, 失败 2");
}

#[test]
fn batch_without_failures_succeeds() {
    let reports = vec![
        FileReport { path: "a".to_string(), error: None },
        FileReport { path: "b".to_string(), error: None },
    ];
    let result = report(&reports);
    assert!(result.success);
    assert_eq!(result.message, "处理完成: 成功 2/2, 失败 0");
    assert_eq!(result.failed_files.len(), 0);
    let empty = report(&Vec::new());
    assert!(empty.success);
    assert_eq!(empty.message, "处理完成: 成功 0/0, 失败 0");
}

#[test]
fn one_directory_that_cannot_be_created_fails_one_file_only() {
    let map = renames(&[
        ("/src/1.mkv", "Show/S1/1.mkv"),
        ("/src/2.mkv", "Locked/S1/2.mkv"),
        ("/src/3.mkv", "Show/S1/3.mkv"),
    ]);
    let sources = files(&["/src/1.mkv", "/src/2.mkv", "/src/3.mkv"]);
    let plans = batch_process_with_season_folders(&sources, "/out", &map, true, "Season {season}");
    let mut attempts = Vec::new();
    for plan in &plans {
        let link = link_of(plan);
        assert!(link.prepare_directory);
        if link.target.starts_with("/out/Locked/") {
            attempts.push(Some(Attempt::DirectoryFailed(
                "Permission denied (os error 13)".to_string(),
            )));
        } else {
            attempts.push(Some(Attempt::Engine(LinkOutcome::Success)));
        }
    }
    let result = finish_batch(&sources, &plans, &attempts).unwrap();
    assert_eq!(result.processed_files, vec!["/src/1.mkv", "/src/3.mkv"]);
    assert_eq!(result.failed_files.len(), 1);
    assert_eq!(result.failed_files[0].path, "/src/2.mkv");
    assert_eq!(result.failed_files[0].error, "创建目录失败: Permission denied (os error 13)");
    assert!(!result.success);
    assert_eq!(result.message, "处理完成: 成功 2/3, 失败 1");
}

#[test]
fn a_batch_is_summed_up_over_its_files() {
    let sources = files(&["/src/a.mkv", "/", "/src/b.mkv", "/src/a.mkv"]);
    let plans = batch_process_files(&sources, "/out");
    let attempts = vec![
        Some(Attempt::Engine(LinkOutcome::Success)),
        None,
        Some(Attempt::Engine(LinkOutcome::SourceNotFound)),
        Some(Attempt::Engine(LinkOutcome::TargetExists)),
    ];
    let result = finish_batch(&sources, &plans, &attempts).unwrap();
    assert_eq!(result.processed_files, vec!["/src/a.mkv"]);
    let failed: Vec<(&str, &str)> =
        result.failed_files.iter().map(|e| (e.path.as_str(), e.error.as_str())).collect();
    assert_eq!(
        failed,
        vec![("/", "无效的文件名"), ("/src/b.mkv", "源文件不存在"), ("/src/a.mkv", "目标文件已存在")]
    );
    assert_eq!(result.processed_files.len() + result.failed_files.len(), sources.len());
    assert!(!result.success);
    assert_eq!(result.message, "处理完成: 成功 1/4, 失败 3");
}

#[test]
fn a_batch_that_was_not_carried_out_has_no_result() {
    let sources = files(&["/src/a.mkv", "/src/b.mkv"]);
    let plans = batch_process_files(&sources, "/out");
    let done = || Some(Attempt::Engine(LinkOutcome::Success));
    // A planned link without an attempt.
    assert!(finish_batch(&sources, &plans, &vec![done(), None]).is_none());
    // Too few or too many attempts.
    assert!(finish_batch(&sources, &plans, &vec![done()]).is_none());
    assert!(finish_batch(&sources, &plans, &vec![done(), done(), done()]).is_none());
    // Plans of another batch.
    let others = batch_process_files(&files(&["/src/a.mkv", "/src/c.mkv"]), "/out");
    assert!(finish_batch(&sources, &others, &vec![done(), done()]).is_none());
    assert!(finish_batch(&sources, &Vec::new(), &Vec::new()).is_none());
    // The empty batch is carried out.
    let empty = finish_batch(&Vec::new(), &Vec::new(), &Vec::new()).unwrap();
    assert!(empty.success);
    assert_eq!(empty.message, "处理完成: 成功 0/0, 失败 0");
}

#[test]
fn plans_and_attempts_make_reports() {
    let plans = batch_process_files(&files(&["/src/a.mkv", "/"]), "/out");
    let ok = settle_plan(&plans[0], &Some(Attempt::Engine(LinkOutcome::Success))).unwrap();
    assert_eq!((ok.path.as_str(), ok.error), ("/src/a.mkv", None));
    let lost = settle_plan(&plans[0], &Some(Attempt::DirectoryFailed("no".to_string()))).unwrap();
    assert_eq!(lost.error, Some("创建目录失败: no".to_string()));
    assert!(settle_plan(&plans[0], &None).is_none());
    let refused = settle_plan(&plans[1], &None).unwrap();
    assert_eq!(refused.error, Some("无效的文件名".to_string()));
    let refused = settle_plan(&plans[1], &Some(Attempt::Engine(LinkOutcome::Success))).unwrap();
    assert_eq!(refused.error, Some("无效的文件名".to_string()));
}

#[test]
fn output_directory_is_made_before_any_file_is_planned() {
    let mut seen = OutputSeen { exists: None, created: None };
    assert!(matches!(
        prepare_output_directory(&seen),
        OutputDecision::Ask(OutputRequest::Exists)
    ));
    seen.exists = Some(true);
    assert!(matches!(prepare_output_directory(&seen), OutputDecision::Ready));
    seen.exists = Some(false);
    assert!(matches!(
        prepare_output_directory(&seen),
        OutputDecision::Ask(OutputRequest::Create)
    ));
    seen.created = Some(IoResult::Done);
    assert!(matches!(prepare_output_directory(&seen), OutputDecision::Ready));
}

#[test]
fn a_batch_ends_where_its_output_directory_cannot_be_made() {
    let seen = OutputSeen {
        exists: Some(false),
        created: Some(IoResult::Failed(IoFailure {
            kind: IoKind::PermissionDenied,
            detail: "read-only file system".to_string(),
        })),
    };
    match prepare_output_directory(&seen) {
        OutputDecision::Abort(message) => {
            assert_eq!(message, "创建输出目录失败: read-only file system")
        }
        other => panic!("{:?}", other),
    }
}

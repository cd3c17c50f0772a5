//! Planning a batch: where each file of a batch is to be linked.
//!
//! Every file is planned on its own. A plan either names the link to make
//! or says why there is none; no file's plan depends on another's. The
//! caller carries the plans out, in any order or all at once, and hands the
//! outcomes to `report`.

use vstd::prelude::*;
use vstd::multiset::lemma_multiset_empty_len;
use vstd::seq_lib::{to_multiset_build, to_multiset_len};
use vstd::string::StringExecFns;
use crate::link::{outcome_message, result_view, IoKind, IoResult, LinkOutcome, Outcome};
use crate::paths::{
    exceeds_budget, extension_of, file_name, file_name_chars, has_extension, is_rooted,
    join_chars, join_paths, join_with, joined, lemma_components, lemma_split_join,
    replace_file_name, with_file_name,
    lemma_split_parts, over_budget, sanitize_path_chars, sanitized_path, split_chars,
    split_extension, split_on, stem_of, texts,
};
use crate::sanitize::{
    is_safe_name, lemma_sanitized_is_safe, lemma_sanitized_separator, sanitize_chars,
    sanitized_name,
};
use crate::season::{
    extract_season_from_path, generate_season_folder_name, season_captures, season_folder_name,
    season_from,
};
use crate::text::{
    byte_length, chars_of, copy_chars, decimal, decimal_chars, exceeds_bytes, fit_prefix,
    push_all, replace_char, same_chars, string_of, text_of, truncate_to_bytes, utf8_len,
    with_char_replaced,
};

verus! {

/// New names for the files of a batch: for a source path, the place below
/// the output directory where it should go, written with `/` between its
/// segments. An entry made later for the same source replaces the earlier
/// one.
#[derive(Debug)]
pub struct RenameMap {
    pub entries: Vec<(String, String)>,
}

/// The map that a list of entries stands for.
pub open spec fn entries_map(entries: Seq<(String, String)>) -> Map<Seq<char>, Seq<char>>
    decreases entries.len(),
{
    if entries.len() == 0 {
        Map::empty()
    } else {
        entries_map(entries.drop_last()).insert(entries.last().0@, entries.last().1@)
    }
}

/// What a map holds for a key, if anything.
pub open spec fn lookup(m: Map<Seq<char>, Seq<char>>, key: Seq<char>) -> Option<Seq<char>> {
    if m.contains_key(key) {
        Some(m[key])
    } else {
        None
    }
}

impl View for RenameMap {
    type V = Map<Seq<char>, Seq<char>>;

    open spec fn view(&self) -> Map<Seq<char>, Seq<char>> {
        entries_map(self.entries@)
    }
}

impl RenameMap {
    /// The map without entries.
    pub fn new() -> (m: RenameMap)
        ensures
            m@ == Map::<Seq<char>, Seq<char>>::empty(),
    {
        RenameMap { entries: Vec::new() }
    }

    /// Sets the new name for `source`.
    pub fn insert(&mut self, source: String, target: String)
        ensures
            final(self)@ == old(self)@.insert(source@, target@),
    {
        self.entries.push((source, target));
        proof {
            assert(self.entries@.drop_last() == old(self).entries@);
        }
    }

    /// The new name for `source`, if it has one.
    pub fn get(&self, source: &str) -> (found: Option<String>)
        ensures
            text_of(found) == lookup(self@, source@),
    {
        let key = chars_of(source);
        let mut end: usize = self.entries.len();
        proof {
            assert(self.entries@.take(end as int) == self.entries@);
        }
        while end > 0
            invariant
                end <= self.entries.len(),
                key@ == source@,
                lookup(self@, source@) == lookup(
                    entries_map(self.entries@.take(end as int)),
                    source@,
                ),
            decreases end,
        {
            proof {
                assert(self.entries@.take(end as int).drop_last() == self.entries@.take(end - 1));
            }
            let entry = &self.entries[end - 1];
            if same_chars(&chars_of(entry.0.as_str()), &key) {
                return Some(entry.1.clone());
            }
            end = end - 1;
        }
        None
    }
}

/// A relative target made safe segment by segment: backslashes count as
/// separators, every segment between separators is sanitised as a name,
/// empty ones too, and the segments are put together with `/`.
pub open spec fn sanitized_segments(name: Seq<char>) -> Seq<char> {
    join_with(
        split_on(with_char_replaced(name, '\\', '/'), '/').map_values(
            |segment: Seq<char>| sanitized_name(segment),
        ),
        '/',
    )
}

/// A relative target made safe segment by segment: see
/// `sanitized_segments`.
pub fn sanitize_segments(name: &Vec<char>) -> (out: Vec<char>)
    ensures
        out@ == sanitized_segments(name@),
{
    let unified = replace_char(name, '\\', '/');
    let parts = split_chars(&unified, '/');
    let mut clean: Vec<Vec<char>> = Vec::new();
    let mut k: usize = 0;
    let ghost all = texts(parts@);
    let ghost f = |segment: Seq<char>| sanitized_name(segment);
    proof {
        assert(texts(clean@) == all.take(0).map_values(f));
    }
    while k < parts.len()
        invariant
            k <= parts.len(),
            all == texts(parts@),
            f == |segment: Seq<char>| sanitized_name(segment),
            texts(clean@) == all.take(k as int).map_values(f),
        decreases parts.len() - k,
    {
        let ghost before = texts(clean@);
        clean.push(sanitize_chars(&parts[k]));
        proof {
            assert(texts(clean@) == before.push(sanitized_name(parts@[k as int]@)));
            assert(all.take(k + 1) == all.take(k as int).push(all[k as int]));
            assert(all.take(k + 1).map_values(f) == before.push(f(all[k as int])));
        }
        k = k + 1;
    }
    proof {
        assert(all.take(parts.len() as int) == all);
    }
    join_chars(&clean, '/')
}

/// Where a file goes below the output directory: its new name made safe
/// segment by segment if it has one, else its own file name made safe.
/// A source without a file name and without a new name goes nowhere.
pub open spec fn relative_target(file: Seq<char>, rename: Option<Seq<char>>) -> Option<Seq<char>> {
    match rename {
        Some(name) => Some(sanitized_segments(name)),
        None => match file_name(file) {
            Some(name) => Some(sanitized_name(name)),
            None => None,
        },
    }
}

/// Where a file goes below the output directory: see `relative_target`.
pub fn resolve_relative_target(file: &str, rename: &Option<String>) -> (out: Option<Vec<char>>)
    ensures
        match out {
            Some(rel) => relative_target(file@, text_of(*rename)) == Some(rel@),
            None => relative_target(file@, text_of(*rename)) is None,
        },
{
    match rename {
        Some(name) => Some(sanitize_segments(&chars_of(name.as_str()))),
        None => match file_name_chars(&chars_of(file)) {
            Some(name) => Some(sanitize_chars(&name)),
            None => None,
        },
    }
}

/// A relative target laid out for season folders. A target of a single
/// segment stays. Of a longer one the first segment, the show, and the
/// last, the file, are kept. With season folders asked for and at least
/// three segments, the second segment is read as a season marker, and the
/// folder named after the template for that season goes between the two.
pub open spec fn season_layout(rel: Seq<char>, season_folders: bool, template: Seq<char>) -> Seq<
    char,
> {
    let parts = split_on(rel, '/');
    if parts.len() < 2 {
        rel
    } else if season_folders && parts.len() >= 3 {
        parts[0] + "/"@ + season_folder_name(template, season_from(season_captures(parts[1])))
            + "/"@ + parts.last()
    } else {
        parts[0] + "/"@ + parts.last()
    }
}

/// A relative target laid out for season folders: see `season_layout`.
pub fn lay_out_seasons(rel: &Vec<char>, season_folders: bool, template: &str) -> (out: Vec<char>)
    ensures
        out@ == season_layout(rel@, season_folders, template@),
{
    let parts = split_chars(rel, '/');
    if parts.len() < 2 {
        return copy_chars(rel);
    }
    let mut out = copy_chars(&parts[0]);
    push_all(&mut out, &chars_of("/"));
    if season_folders && parts.len() >= 3 {
        let marker = string_of(&parts[1]);
        let season = extract_season_from_path(marker.as_str());
        let folder = generate_season_folder_name(template, season);
        push_all(&mut out, &chars_of(folder.as_str()));
        push_all(&mut out, &chars_of("/"));
    }
    push_all(&mut out, &parts[parts.len() - 1]);
    out
}

/// A link to make for one file of a batch.
#[derive(Debug)]
pub struct LinkPlan {
    /// The file to link.
    pub source: String,
    /// Where to link it.
    pub target: String,
    /// Whether the target's file name was shortened to meet the path budget.
    pub shortened: bool,
    /// Whether the target's directory is to be created before linking.
    pub prepare_directory: bool,
}

/// A file that could not be handled, and why.
#[derive(Debug)]
pub struct FileError {
    pub path: String,
    pub error: String,
}

/// What is to be done with one file of a batch.
#[derive(Debug)]
pub enum FilePlan {
    Link(LinkPlan),
    Fail(FileError),
}

/// `FilePlan` with every text as text.
pub enum Plan {
    Link { source: Seq<char>, target: Seq<char>, shortened: bool, prepare_directory: bool },
    Fail { path: Seq<char>, error: Seq<char> },
}

impl View for FilePlan {
    type V = Plan;

    open spec fn view(&self) -> Plan {
        match *self {
            FilePlan::Link(p) => Plan::Link {
                source: p.source@,
                target: p.target@,
                shortened: p.shortened,
                prepare_directory: p.prepare_directory,
            },
            FilePlan::Fail(e) => Plan::Fail { path: e.path@, error: e.error@ },
        }
    }
}

/// The longest stem, in bytes, that is left as it is when a file name has
/// to be shortened.
pub const MAX_STEM_BYTES: usize = 100;

/// The bytes of a long stem that are kept in front of the three dots.
pub const KEPT_STEM_BYTES: usize = 97;

/// A stem cut for a path that is too long: a stem of more than 100 bytes is
/// cut to its longest prefix of at most 97 bytes, between two characters,
/// and three dots are put behind it.
pub open spec fn short_stem(stem: Seq<char>) -> Seq<char> {
    if utf8_len(stem) > MAX_STEM_BYTES {
        fit_prefix(stem, KEPT_STEM_BYTES as nat) + "..."@
    } else {
        stem
    }
}

/// The shorter target that is tried for one that is over the budget: the
/// target with the stem of its file name cut. Its directory is kept; only
/// the file name is replaced. There is none for a target whose file name
/// has no extension.
pub open spec fn shortened_target(target: Seq<char>) -> Option<Seq<char>> {
    match file_name(target) {
        Some(name) => if has_extension(name) {
            Some(
                with_file_name(
                    target,
                    short_stem(stem_of(name)) + "."@ + extension_of(name).unwrap(),
                ),
            )
        } else {
            None
        },
        None => None,
    }
}

/// What is said of a source that has no file name.
pub open spec fn invalid_file_name() -> Seq<char> {
    "无效的文件名"@
}

/// What is said of a target that is over the path budget.
pub open spec fn too_long(target: Seq<char>) -> Seq<char> {
    "目标路径过长: "@ + decimal(utf8_len(target)) + " 字符"@
}

/// The plan for a target below the output directory, with one try at a
/// shorter name where the target is over the path budget.
pub open spec fn planned_with_shortening(file: Seq<char>, target: Seq<char>) -> Plan {
    if !over_budget(target) {
        Plan::Link { source: file, target, shortened: false, prepare_directory: false }
    } else {
        match shortened_target(target) {
            Some(short) => if over_budget(short) {
                Plan::Fail { path: file, error: too_long(target) }
            } else {
                Plan::Link { source: file, target: short, shortened: true, prepare_directory: false }
            },
            None => Plan::Fail { path: file, error: too_long(target) },
        }
    }
}

/// The plan for one file of a plain batch or of a batch with new names.
/// `out_dir` is the sanitised output directory.
pub open spec fn planned(file: Seq<char>, out_dir: Seq<char>, rename: Option<Seq<char>>) -> Plan {
    match relative_target(file, rename) {
        None => Plan::Fail { path: file, error: invalid_file_name() },
        Some(rel) => planned_with_shortening(file, joined(out_dir, rel)),
    }
}

/// The plan for one file of a batch with season folders: the relative
/// target is laid out for seasons, its directory is to be created first,
/// and a target over the path budget is not shortened but refused.
pub open spec fn planned_in_seasons(
    file: Seq<char>,
    out_dir: Seq<char>,
    rename: Option<Seq<char>>,
    season_folders: bool,
    template: Seq<char>,
) -> Plan {
    match relative_target(file, rename) {
        None => Plan::Fail { path: file, error: invalid_file_name() },
        Some(rel) => {
            let target = joined(out_dir, season_layout(rel, season_folders, template));
            if over_budget(target) {
                Plan::Fail { path: file, error: too_long(target) }
            } else {
                Plan::Link { source: file, target, shortened: false, prepare_directory: true }
            }
        },
    }
}

/// Whether a relative target stays below the directory it is seen from:
/// every segment between its separators is a safe name, so none is empty,
/// none is `.` or `..`, and the target does not start at the root.
pub open spec fn is_contained(rel: Seq<char>) -> bool {
    forall|k: int|
        0 <= k < split_on(rel, '/').len() ==> is_safe_name(#[trigger] split_on(rel, '/')[k])
}

/// No new name and no file name leads out of the output directory: the
/// relative target of every file is contained and does not start at the
/// root, whatever the new name holds.
pub proof fn lemma_relative_target_is_contained(file: Seq<char>, rename: Option<Seq<char>>)
    requires
        relative_target(file, rename) is Some,
    ensures
        is_contained(relative_target(file, rename).unwrap()),
        !is_rooted(relative_target(file, rename).unwrap()),
{
    let rel = relative_target(file, rename).unwrap();
    match rename {
        Some(name) => {
            let raw = split_on(with_char_replaced(name, '\\', '/'), '/');
            let clean = raw.map_values(|segment: Seq<char>| sanitized_name(segment));
            lemma_split_parts(with_char_replaced(name, '\\', '/'), '/');
            assert forall|k: int| 0 <= k < clean.len() implies !(#[trigger] clean[k]).contains(
                '/',
            ) && is_safe_name(clean[k]) by {
                lemma_sanitized_is_safe(raw[k]);
                lemma_sanitized_separator(raw[k]);
            }
            lemma_split_join(clean, '/');
        },
        None => {
            lemma_components(file);
            let name = file_name(file).unwrap();
            lemma_sanitized_is_safe(name);
            lemma_sanitized_separator(name);
            let only = seq![sanitized_name(name)];
            assert(join_with(only, '/') == sanitized_name(name));
            lemma_split_join(only, '/');
        },
    }
    lemma_split_parts(rel, '/');
    assert(is_safe_name(split_on(rel, '/')[0]));
}

/// A planned link is within the path budget: a target over the budget is
/// shortened to one that fits, or the file is refused.
pub proof fn lemma_planned_target_fits(
    file: Seq<char>,
    out_dir: Seq<char>,
    rename: Option<Seq<char>>,
    season_folders: bool,
    template: Seq<char>,
)
    ensures
        planned(file, out_dir, rename) matches Plan::Link { target, .. } ==> !over_budget(target),
        planned_in_seasons(file, out_dir, rename, season_folders, template) matches Plan::Link {
            target,
            ..
        } ==> !over_budget(target),
{
}

/// The file that a plan is for.
pub open spec fn planned_file(plan: Plan) -> Seq<char> {
    match plan {
        Plan::Link { source, .. } => source,
        Plan::Fail { path, .. } => path,
    }
}

/// Every plan is for the file it was made for: its source, or the path it
/// fails for, is that file.
pub proof fn lemma_plan_names_its_file(
    file: Seq<char>,
    out_dir: Seq<char>,
    rename: Option<Seq<char>>,
    season_folders: bool,
    template: Seq<char>,
)
    ensures
        planned_file(planned(file, out_dir, rename)) == file,
        planned_file(planned_in_seasons(file, out_dir, rename, season_folders, template)) == file,
{
}

fn fail(file: &str, error: String) -> (plan: FilePlan)
    ensures
        plan@ == (Plan::Fail { path: file@, error: error@ }),
{
    FilePlan::Fail(FileError { path: String::from_str(file), error })
}

fn fail_too_long(file: &str, target: &Vec<char>) -> (plan: FilePlan)
    ensures
        plan@ == (Plan::Fail { path: file@, error: too_long(target@) }),
{
    let mut message = chars_of("目标路径过长: ");
    push_all(&mut message, &decimal_chars(byte_length(target)));
    push_all(&mut message, &chars_of(" 字符"));
    fail(file, string_of(&message))
}

fn shorten_target(target: &Vec<char>) -> (out: Option<Vec<char>>)
    ensures
        match out {
            Some(short) => shortened_target(target@) == Some(short@),
            None => shortened_target(target@) is None,
        },
{
    match file_name_chars(target) {
        Some(name) => {
            let (stem, extension) = split_extension(&name);
            match extension {
                Some(ext) => {
                    let mut short = stem;
                    if exceeds_bytes(&short, MAX_STEM_BYTES) {
                        truncate_to_bytes(&mut short, KEPT_STEM_BYTES);
                        push_all(&mut short, &chars_of("..."));
                    }
                    push_all(&mut short, &chars_of("."));
                    push_all(&mut short, &ext);
                    Some(replace_file_name(target, &short))
                },
                None => None,
            }
        },
        None => None,
    }
}

fn plan_with_shortening(file: &str, target: Vec<char>) -> (plan: FilePlan)
    ensures
        plan@ == planned_with_shortening(file@, target@),
{
    if !exceeds_budget(&target) {
        return FilePlan::Link(
            LinkPlan {
                source: String::from_str(file),
                target: string_of(&target),
                shortened: false,
                prepare_directory: false,
            },
        );
    }
    match shorten_target(&target) {
        Some(short) => {
            if exceeds_budget(&short) {
                fail_too_long(file, &target)
            } else {
                FilePlan::Link(
                    LinkPlan {
                        source: String::from_str(file),
                        target: string_of(&short),
                        shortened: true,
                        prepare_directory: false,
                    },
                )
            }
        },
        None => fail_too_long(file, &target),
    }
}

/// The plan for one file of a plain batch or of a batch with new names:
/// see `planned`.
pub fn plan_file(file: &str, out_dir: &Vec<char>, rename: &Option<String>) -> (plan: FilePlan)
    ensures
        plan@ == planned(file@, out_dir@, text_of(*rename)),
{
    match resolve_relative_target(file, rename) {
        None => fail(file, String::from_str("无效的文件名")),
        Some(rel) => {
            let target = join_paths(out_dir, &rel);
            plan_with_shortening(file, target)
        },
    }
}

/// The plan for one file of a batch with season folders: see
/// `planned_in_seasons`.
pub fn plan_file_in_seasons(
    file: &str,
    out_dir: &Vec<char>,
    rename: &Option<String>,
    season_folders: bool,
    template: &str,
) -> (plan: FilePlan)
    ensures
        plan@ == planned_in_seasons(
            file@,
            out_dir@,
            text_of(*rename),
            season_folders,
            template@,
        ),
{
    match resolve_relative_target(file, rename) {
        None => fail(file, String::from_str("无效的文件名")),
        Some(rel) => {
            let laid_out = lay_out_seasons(&rel, season_folders, template);
            let target = join_paths(out_dir, &laid_out);
            if exceeds_budget(&target) {
                fail_too_long(file, &target)
            } else {
                FilePlan::Link(
                    LinkPlan {
                        source: String::from_str(file),
                        target: string_of(&target),
                        shortened: false,
                        prepare_directory: true,
                    },
                )
            }
        },
    }
}

/// The texts of a list of strings.
pub open spec fn paths_of(files: Seq<String>) -> Seq<Seq<char>> {
    files.map_values(|f: String| f@)
}

/// Plans a plain batch: every file goes below the output directory under
/// its own file name, made safe. The output directory is sanitised first.
/// There is one plan for each file, in the order of the files.
pub fn batch_process_files(files: &Vec<String>, output_dir: &str) -> (plans: Vec<FilePlan>)
    ensures
        plans.len() == files.len(),
        forall|i: int|
            0 <= i < files.len() ==> (#[trigger] plans[i])@ == planned(
                files[i]@,
                sanitized_path(output_dir@),
                None,
            ),
        forall|i: int| 0 <= i < files.len() ==> planned_file((#[trigger] plans[i])@) == files[i]@,
{
    let out_dir = sanitize_path_chars(&chars_of(output_dir));
    let mut plans: Vec<FilePlan> = Vec::new();
    let mut i: usize = 0;
    while i < files.len()
        invariant
            i <= files.len(),
            plans.len() == i,
            out_dir@ == sanitized_path(output_dir@),
            forall|j: int|
                0 <= j < i ==> (#[trigger] plans[j])@ == planned(files[j]@, out_dir@, None),
        decreases files.len() - i,
    {
        let plan = plan_file(files[i].as_str(), &out_dir, &None);
        plans.push(plan);
        i = i + 1;
    }
    plans
}

/// Plans a batch with new names: a file that the map has a name for goes
/// where that name says, made safe segment by segment; any other goes under
/// its own file name.
pub fn batch_process_with_rename(files: &Vec<String>, output_dir: &str, rename_map: &RenameMap) -> (plans:
    Vec<FilePlan>)
    ensures
        plans.len() == files.len(),
        forall|i: int|
            0 <= i < files.len() ==> (#[trigger] plans[i])@ == planned(
                files[i]@,
                sanitized_path(output_dir@),
                lookup(rename_map@, files[i]@),
            ),
        forall|i: int| 0 <= i < files.len() ==> planned_file((#[trigger] plans[i])@) == files[i]@,
{
    let out_dir = sanitize_path_chars(&chars_of(output_dir));
    let mut plans: Vec<FilePlan> = Vec::new();
    let mut i: usize = 0;
    while i < files.len()
        invariant
            i <= files.len(),
            plans.len() == i,
            out_dir@ == sanitized_path(output_dir@),
            forall|j: int|
                0 <= j < i ==> (#[trigger] plans[j])@ == planned(
                    files[j]@,
                    out_dir@,
                    lookup(rename_map@, files[j]@),
                ),
        decreases files.len() - i,
    {
        let rename = rename_map.get(files[i].as_str());
        let plan = plan_file(files[i].as_str(), &out_dir, &rename);
        plans.push(plan);
        i = i + 1;
    }
    plans
}

/// Plans a batch with season folders: as with new names, but every target
/// is laid out as show, season folder and file, or as show and file.
pub fn batch_process_with_season_folders(
    files: &Vec<String>,
    output_dir: &str,
    rename_map: &RenameMap,
    create_season_folders: bool,
    season_folder_template: &str,
) -> (plans: Vec<FilePlan>)
    ensures
        plans.len() == files.len(),
        forall|i: int|
            0 <= i < files.len() ==> (#[trigger] plans[i])@ == planned_in_seasons(
                files[i]@,
                sanitized_path(output_dir@),
                lookup(rename_map@, files[i]@),
                create_season_folders,
                season_folder_template@,
            ),
        forall|i: int| 0 <= i < files.len() ==> planned_file((#[trigger] plans[i])@) == files[i]@,
{
    let out_dir = sanitize_path_chars(&chars_of(output_dir));
    let mut plans: Vec<FilePlan> = Vec::new();
    let mut i: usize = 0;
    while i < files.len()
        invariant
            i <= files.len(),
            plans.len() == i,
            out_dir@ == sanitized_path(output_dir@),
            forall|j: int|
                0 <= j < i ==> (#[trigger] plans[j])@ == planned_in_seasons(
                    files[j]@,
                    out_dir@,
                    lookup(rename_map@, files[j]@),
                    create_season_folders,
                    season_folder_template@,
                ),
        decreases files.len() - i,
    {
        let rename = rename_map.get(files[i].as_str());
        let plan = plan_file_in_seasons(
            files[i].as_str(),
            &out_dir,
            &rename,
            create_season_folders,
            season_folder_template,
        );
        plans.push(plan);
        i = i + 1;
    }
    plans
}

/// Where a file would go, for showing it before anything is linked: the
/// relative target below the output directory, without the path budget. A
/// source without a file name and without a new name is shown under the
/// name `invalid_filename`.
pub open spec fn previewed(file: Seq<char>, out_dir: Seq<char>, rename: Option<Seq<char>>) -> Seq<
    char,
> {
    match relative_target(file, rename) {
        Some(rel) => joined(out_dir, rel),
        None => joined(out_dir, "invalid_filename"@),
    }
}

/// Shows where each file of a batch with new names would go: for every
/// file, in order, the file and its target.
pub fn preview_file_processing(files: &Vec<String>, output_dir: &str, rename_map: &RenameMap) -> (shown:
    Vec<(String, String)>)
    ensures
        shown.len() == files.len(),
        forall|i: int|
            0 <= i < files.len() ==> (#[trigger] shown[i]).0@ == files[i]@ && shown[i].1@
                == previewed(
                files[i]@,
                sanitized_path(output_dir@),
                lookup(rename_map@, files[i]@),
            ),
{
    let out_dir = sanitize_path_chars(&chars_of(output_dir));
    let mut shown: Vec<(String, String)> = Vec::new();
    let mut i: usize = 0;
    while i < files.len()
        invariant
            i <= files.len(),
            shown.len() == i,
            out_dir@ == sanitized_path(output_dir@),
            forall|j: int|
                0 <= j < i ==> (#[trigger] shown[j]).0@ == files[j]@ && shown[j].1@ == previewed(
                    files[j]@,
                    out_dir@,
                    lookup(rename_map@, files[j]@),
                ),
        decreases files.len() - i,
    {
        let rename = rename_map.get(files[i].as_str());
        let rel = match resolve_relative_target(files[i].as_str(), &rename) {
            Some(rel) => rel,
            None => chars_of("invalid_filename"),
        };
        let target = join_paths(&out_dir, &rel);
        shown.push((files[i].clone(), string_of(&target)));
        i = i + 1;
    }
    shown
}

/// Shows what sanitising does to each of the given paths: for every path,
/// in order, the path and its sanitised form.
pub fn test_path_sanitization(paths: &Vec<String>) -> (shown: Vec<(String, String)>)
    ensures
        shown.len() == paths.len(),
        forall|i: int|
            0 <= i < paths.len() ==> (#[trigger] shown[i]).0@ == paths[i]@ && shown[i].1@
                == sanitized_path(paths[i]@),
{
    let mut shown: Vec<(String, String)> = Vec::new();
    let mut i: usize = 0;
    while i < paths.len()
        invariant
            i <= paths.len(),
            shown.len() == i,
            forall|j: int|
                0 <= j < i ==> (#[trigger] shown[j]).0@ == paths[j]@ && shown[j].1@
                    == sanitized_path(paths[j]@),
        decreases paths.len() - i,
    {
        let clean = sanitize_path_chars(&chars_of(paths[i].as_str()));
        shown.push((paths[i].clone(), string_of(&clean)));
        i = i + 1;
    }
    shown
}

/// How one file of a batch ended: its path, and what went wrong if
/// anything did.
#[derive(Debug)]
pub struct FileReport {
    pub path: String,
    pub error: Option<String>,
}

impl View for FileReport {
    type V = (Seq<char>, Option<Seq<char>>);

    open spec fn view(&self) -> (Seq<char>, Option<Seq<char>>) {
        (self.path@, text_of(self.error))
    }
}

/// What is recorded for a link that the engine has dealt with: nothing for
/// a success, else the engine's words, with a note in front where the
/// target had been shortened.
pub open spec fn failure_text(shortened: bool, outcome: Outcome) -> Option<Seq<char>> {
    if outcome is Success {
        None
    } else if shortened {
        Some("路径过长且缩短后仍失败: "@ + outcome_message(outcome))
    } else {
        Some(outcome_message(outcome))
    }
}

/// The report for a planned link that the engine has dealt with.
pub fn report_outcome(plan: &LinkPlan, outcome: &LinkOutcome) -> (report: FileReport)
    ensures
        report@ == (plan.source@, failure_text(plan.shortened, outcome@)),
{
    let error = if outcome.is_success() {
        None
    } else if plan.shortened {
        let mut text = String::from_str("路径过长且缩短后仍失败: ");
        text.append(outcome.message().as_str());
        Some(text)
    } else {
        Some(outcome.message())
    };
    FileReport { path: plan.source.clone(), error }
}

/// The report for a file whose plan was to fail.
pub fn report_refusal(refusal: &FileError) -> (report: FileReport)
    ensures
        report@ == (refusal.path@, Some(refusal.error@)),
{
    FileReport { path: refusal.path.clone(), error: Some(refusal.error.clone()) }
}

/// The report for a planned link whose directory could not be created.
pub fn report_directory_failure(plan: &LinkPlan, detail: &str) -> (report: FileReport)
    ensures
        report@ == (plan.source@, Some(cannot_create_directory(detail@))),
{
    let mut text = String::from_str("创建目录失败: ");
    text.append(detail);
    FileReport { path: plan.source.clone(), error: Some(text) }
}

/// What a batch says when its output directory cannot be created. This is
/// the one failure that ends a batch before any file is looked at.
pub fn output_directory_failure(detail: &str) -> (text: String)
    ensures
        text@ == "创建输出目录失败: "@ + detail@,
{
    let mut text = String::from_str("创建输出目录失败: ");
    text.append(detail);
    text
}

/// The outcome of a batch.
#[derive(Debug)]
pub struct ProcessResult {
    /// Whether no file failed.
    pub success: bool,
    /// The counts, for the user.
    pub message: String,
    /// The files that were linked.
    pub processed_files: Vec<String>,
    /// The files that were not, each with the reason.
    pub failed_files: Vec<FileError>,
}

/// The views of a list of reports.
pub open spec fn report_views(reports: Seq<FileReport>) -> Seq<(Seq<char>, Option<Seq<char>>)> {
    reports.map_values(|r: FileReport| r@)
}

/// The paths and reasons of a list of failures.
pub open spec fn errors_of(failed: Seq<FileError>) -> Seq<(Seq<char>, Seq<char>)> {
    failed.map_values(|e: FileError| (e.path@, e.error@))
}

/// The files that succeeded, in the order of the reports.
pub open spec fn processed_of(reports: Seq<(Seq<char>, Option<Seq<char>>)>) -> Seq<Seq<char>>
    decreases reports.len(),
{
    if reports.len() == 0 {
        Seq::empty()
    } else if reports.last().1 is None {
        processed_of(reports.drop_last()).push(reports.last().0)
    } else {
        processed_of(reports.drop_last())
    }
}

/// The files that failed, each with its reason, in the order of the
/// reports.
pub open spec fn failed_of(reports: Seq<(Seq<char>, Option<Seq<char>>)>) -> Seq<
    (Seq<char>, Seq<char>),
>
    decreases reports.len(),
{
    if reports.len() == 0 {
        Seq::empty()
    } else if reports.last().1 is Some {
        failed_of(reports.drop_last()).push((reports.last().0, reports.last().1.unwrap()))
    } else {
        failed_of(reports.drop_last())
    }
}

/// The summary of a batch: how many succeeded out of how many, and how
/// many failed.
pub open spec fn summary_message(succeeded: nat, total: nat, failed: nat) -> Seq<char> {
    "处理完成: 成功 "@ + decimal(succeeded) + "/"@ + decimal(total) + ", 失败 "@ + decimal(failed)
}

/// Every file of a batch is in exactly one of the two lists, exactly as
/// often as it was reported: the two lists together are as long as the
/// reports, and their paths together are the reported paths, counted with
/// repeats.
pub proof fn lemma_every_file_once(reports: Seq<(Seq<char>, Option<Seq<char>>)>)
    ensures
        processed_of(reports).len() + failed_of(reports).len() == reports.len(),
        processed_of(reports).to_multiset().add(
            failed_of(reports).map_values(|e: (Seq<char>, Seq<char>)| e.0).to_multiset(),
        ) == reports.map_values(|r: (Seq<char>, Option<Seq<char>>)| r.0).to_multiset(),
    decreases reports.len(),
{
    let first = |e: (Seq<char>, Seq<char>)| e.0;
    let path = |r: (Seq<char>, Option<Seq<char>>)| r.0;
    if reports.len() == 0 {
        assert(failed_of(reports).map_values(first) == Seq::<Seq<char>>::empty());
        assert(reports.map_values(path) == Seq::<Seq<char>>::empty());
        let none = Seq::<Seq<char>>::empty();
        to_multiset_len(none);
        lemma_multiset_empty_len(none.to_multiset());
        assert(processed_of(reports) == none);
        assert(none.to_multiset().add(none.to_multiset()) =~= none.to_multiset());
    } else {
        let init = reports.drop_last();
        let last = reports.last();
        lemma_every_file_once(init);
        assert(reports.map_values(path) == init.map_values(path).push(last.0));
        to_multiset_build(init.map_values(path), last.0);
        if last.1 is None {
            to_multiset_build(processed_of(init), last.0);
            assert(processed_of(init).to_multiset().insert(last.0).add(
                failed_of(init).map_values(first).to_multiset(),
            ) =~= processed_of(init).to_multiset().add(
                failed_of(init).map_values(first).to_multiset(),
            ).insert(last.0));
        } else {
            assert(failed_of(reports).map_values(first) == failed_of(init).map_values(first).push(
                last.0,
            ));
            to_multiset_build(failed_of(init).map_values(first), last.0);
            assert(processed_of(init).to_multiset().add(
                failed_of(init).map_values(first).to_multiset().insert(last.0),
            ) =~= processed_of(init).to_multiset().add(
                failed_of(init).map_values(first).to_multiset(),
            ).insert(last.0));
        }
    }
}

/// Sums a batch up. A file whose report holds no error is among the
/// processed files, any other among the failed ones with its error; both
/// lists keep the order of the reports. The batch succeeded if nothing
/// failed, and the message gives the three counts. Every reported file is
/// in exactly one of the two lists, as often as it was reported.
pub fn report(reports: &Vec<FileReport>) -> (result: ProcessResult)
    ensures
        paths_of(result.processed_files@) == processed_of(report_views(reports@)),
        errors_of(result.failed_files@) == failed_of(report_views(reports@)),
        result.success == (result.failed_files.len() == 0),
        result.message@ == summary_message(
            result.processed_files.len() as nat,
            reports.len() as nat,
            result.failed_files.len() as nat,
        ),
        result.processed_files.len() + result.failed_files.len() == reports.len(),
        paths_of(result.processed_files@).to_multiset().add(
            errors_of(result.failed_files@).map_values(
                |e: (Seq<char>, Seq<char>)| e.0,
            ).to_multiset(),
        ) == report_views(reports@).map_values(
            |r: (Seq<char>, Option<Seq<char>>)| r.0,
        ).to_multiset(),
{
    let mut processed: Vec<String> = Vec::new();
    let mut failed: Vec<FileError> = Vec::new();
    let ghost all = report_views(reports@);
    let mut i: usize = 0;
    proof {
        assert(paths_of(processed@) == processed_of(all.take(0)));
        assert(errors_of(failed@) == failed_of(all.take(0)));
    }
    while i < reports.len()
        invariant
            i <= reports.len(),
            all == report_views(reports@),
            paths_of(processed@) == processed_of(all.take(i as int)),
            errors_of(failed@) == failed_of(all.take(i as int)),
        decreases reports.len() - i,
    {
        proof {
            assert(all.take(i + 1).drop_last() == all.take(i as int));
            assert(all.take(i + 1).last() == reports@[i as int]@);
        }
        let ghost done = paths_of(processed@);
        let ghost lost = errors_of(failed@);
        match &reports[i].error {
            None => {
                processed.push(reports[i].path.clone());
                proof {
                    assert(paths_of(processed@) == done.push(reports@[i as int].path@));
                }
            },
            Some(error) => {
                failed.push(FileError { path: reports[i].path.clone(), error: error.clone() });
                proof {
                    assert(errors_of(failed@) == lost.push(
                        (reports@[i as int].path@, error@),
                    ));
                }
            },
        }
        i = i + 1;
    }
    proof {
        assert(all.take(reports.len() as int) == all);
        lemma_every_file_once(all);
        assert(paths_of(processed@).len() == processed.len());
        assert(errors_of(failed@).len() == failed.len());
    }
    let mut text = chars_of("处理完成: 成功 ");
    push_all(&mut text, &decimal_chars(processed.len() as u128));
    push_all(&mut text, &chars_of("/"));
    push_all(&mut text, &decimal_chars(reports.len() as u128));
    push_all(&mut text, &chars_of(", 失败 "));
    push_all(&mut text, &decimal_chars(failed.len() as u128));
    ProcessResult {
        success: failed.len() == 0,
        message: string_of(&text),
        processed_files: processed,
        failed_files: failed,
    }
}

/// What came of carrying out a planned link.
#[derive(Debug)]
pub enum Attempt {
    /// The target's directory could not be created, for the reason given,
    /// and the engine was not run.
    DirectoryFailed(String),
    /// The link engine ran, with this outcome.
    Engine(LinkOutcome),
}

/// `Attempt` with every text as text.
pub enum Attempted {
    DirectoryFailed(Seq<char>),
    Engine(Outcome),
}

impl View for Attempt {
    type V = Attempted;

    open spec fn view(&self) -> Attempted {
        match *self {
            Attempt::DirectoryFailed(detail) => Attempted::DirectoryFailed(detail@),
            Attempt::Engine(outcome) => Attempted::Engine(outcome@),
        }
    }
}

/// An attempt, where there was one, with every text as text.
pub open spec fn attempt_view(attempt: Option<Attempt>) -> Option<Attempted> {
    match attempt {
        Some(a) => Some(a@),
        None => None,
    }
}

/// What is said of a planned link whose directory could not be created.
pub open spec fn cannot_create_directory(detail: Seq<char>) -> Seq<char> {
    "创建目录失败: "@ + detail
}

/// The report that a plan and what came of it make. A plan to fail is
/// reported as it is, whatever else is said of it. A planned link is
/// reported after its attempt; without an attempt there is no report.
pub open spec fn settled(plan: Plan, attempt: Option<Attempted>) -> Option<
    (Seq<char>, Option<Seq<char>>),
> {
    match plan {
        Plan::Fail { path, error } => Some((path, Some(error))),
        Plan::Link { source, shortened, .. } => match attempt {
            Some(Attempted::Engine(outcome)) => Some((source, failure_text(shortened, outcome))),
            Some(Attempted::DirectoryFailed(detail)) => Some(
                (source, Some(cannot_create_directory(detail))),
            ),
            None => None,
        },
    }
}

/// The report that a plan and what came of it make: see `settled`.
pub fn settle_plan(plan: &FilePlan, attempt: &Option<Attempt>) -> (report: Option<FileReport>)
    ensures
        match report {
            Some(r) => settled(plan@, attempt_view(*attempt)) == Some(r@),
            None => settled(plan@, attempt_view(*attempt)) is None,
        },
{
    match plan {
        FilePlan::Fail(refusal) => Some(report_refusal(refusal)),
        FilePlan::Link(link) => match attempt {
            Some(Attempt::Engine(outcome)) => Some(report_outcome(link, outcome)),
            Some(Attempt::DirectoryFailed(detail)) => Some(
                report_directory_failure(link, detail.as_str()),
            ),
            None => None,
        },
    }
}

/// The views of a list of plans.
pub open spec fn plan_views(plans: Seq<FilePlan>) -> Seq<Plan> {
    plans.map_values(|p: FilePlan| p@)
}

/// The views of a list of attempts.
pub open spec fn attempt_views(attempts: Seq<Option<Attempt>>) -> Seq<Option<Attempted>> {
    attempts.map_values(|a: Option<Attempt>| attempt_view(a))
}

/// Whether a batch has been carried out: there is one plan for each file,
/// in the order of the files and for that file, and every plan has come to
/// a report.
pub open spec fn is_carried_out(
    files: Seq<Seq<char>>,
    plans: Seq<Plan>,
    attempts: Seq<Option<Attempted>>,
) -> bool {
    &&& plans.len() == files.len()
    &&& attempts.len() == files.len()
    &&& forall|i: int|
        0 <= i < files.len() ==> planned_file(#[trigger] plans[i]) == files[i] && settled(
            plans[i],
            attempts[i],
        ) is Some
}

/// The reports of a batch that has been carried out, one for each file in
/// the order of the files.
pub open spec fn batch_reports(plans: Seq<Plan>, attempts: Seq<Option<Attempted>>) -> Seq<
    (Seq<char>, Option<Seq<char>>),
> {
    Seq::new(plans.len(), |i: int| settled(plans[i], attempts[i]).unwrap())
}

/// Whether a plan is for `file`.
fn is_plan_for(plan: &FilePlan, file: &str) -> (b: bool)
    ensures
        b == (planned_file(plan@) == file@),
{
    match plan {
        FilePlan::Link(link) => same_chars(&chars_of(link.source.as_str()), &chars_of(file)),
        FilePlan::Fail(refusal) => same_chars(&chars_of(refusal.path.as_str()), &chars_of(file)),
    }
}

/// Sums up a batch from its files, their plans and what came of each plan.
/// There is a result exactly if the batch has been carried out. In it every
/// file of the batch is in exactly one of the two lists, as often as it is
/// among the files: the lists together are as long as the files, and their
/// paths together are the files. A file is among the processed files if
/// its link succeeded, else among the failed ones with the reason.
pub fn finish_batch(
    files: &Vec<String>,
    plans: &Vec<FilePlan>,
    attempts: &Vec<Option<Attempt>>,
) -> (r: Option<ProcessResult>)
    ensures
        r is Some <==> is_carried_out(
            paths_of(files@),
            plan_views(plans@),
            attempt_views(attempts@),
        ),
        r matches Some(result) ==> {
            let reports = batch_reports(plan_views(plans@), attempt_views(attempts@));
            &&& paths_of(result.processed_files@) == processed_of(reports)
            &&& errors_of(result.failed_files@) == failed_of(reports)
            &&& result.success == (result.failed_files.len() == 0)
            &&& result.message@ == summary_message(
                result.processed_files.len() as nat,
                files.len() as nat,
                result.failed_files.len() as nat,
            )
            &&& result.processed_files.len() + result.failed_files.len() == files.len()
            &&& paths_of(result.processed_files@).to_multiset().add(
                errors_of(result.failed_files@).map_values(
                    |e: (Seq<char>, Seq<char>)| e.0,
                ).to_multiset(),
            ) == paths_of(files@).to_multiset()
        },
{
    let ghost names = paths_of(files@);
    let ghost planned = plan_views(plans@);
    let ghost tried = attempt_views(attempts@);
    if plans.len() != files.len() || attempts.len() != files.len() {
        return None;
    }
    let mut reports: Vec<FileReport> = Vec::new();
    let mut i: usize = 0;
    while i < files.len()
        invariant
            i <= files.len(),
            plans.len() == files.len(),
            attempts.len() == files.len(),
            names == paths_of(files@),
            planned == plan_views(plans@),
            tried == attempt_views(attempts@),
            reports.len() == i,
            forall|j: int|
                0 <= j < i ==> planned_file(#[trigger] planned[j]) == names[j] && settled(
                    planned[j],
                    tried[j],
                ) == Some(reports[j]@),
        decreases files.len() - i,
    {
        if !is_plan_for(&plans[i], files[i].as_str()) {
            proof {
                assert(planned_file(planned[i as int]) != names[i as int]);
            }
            return None;
        }
        match settle_plan(&plans[i], &attempts[i]) {
            Some(report) => {
                reports.push(report);
            },
            None => {
                proof {
                    assert(settled(planned[i as int], tried[i as int]) is None);
                }
                return None;
            },
        }
        i = i + 1;
    }
    let result = report(&reports);
    proof {
        let made = batch_reports(planned, tried);
        assert(report_views(reports@) =~= made);
        let path = |r: (Seq<char>, Option<Seq<char>>)| r.0;
        assert(made.map_values(path) =~= names);
    }
    Some(result)
}

/// What is known of the output directory of a batch.
#[derive(Debug)]
pub struct OutputSeen {
    /// Whether the sanitised output directory exists.
    pub exists: Option<bool>,
    /// How creating it ended.
    pub created: Option<IoResult>,
}

/// What is to be found out, or done, about the output directory.
#[derive(Clone, Copy, Debug)]
pub enum OutputRequest {
    /// Does the sanitised output directory exist?
    Exists,
    /// Create it and those above it.
    Create,
}

/// What is said about the output directory of a batch.
#[derive(Debug)]
pub enum OutputDecision {
    Ask(OutputRequest),
    /// The directory is there: the files may be planned and linked.
    Ready,
    /// The directory cannot be had: the batch ends, for the reason given,
    /// before any file is looked at.
    Abort(String),
}

/// `OutputDecision` with the reason as text.
pub enum OutputVerdict {
    Ask(OutputRequest),
    Ready,
    Abort(Seq<char>),
}

impl View for OutputDecision {
    type V = OutputVerdict;

    open spec fn view(&self) -> OutputVerdict {
        match *self {
            OutputDecision::Ask(r) => OutputVerdict::Ask(r),
            OutputDecision::Ready => OutputVerdict::Ready,
            OutputDecision::Abort(m) => OutputVerdict::Abort(m@),
        }
    }
}

/// What is said about the output directory after what is known of it: a
/// directory that exists is ready; a missing one is created; and where it
/// cannot be created the batch ends.
pub open spec fn output_verdict(
    exists: Option<bool>,
    created: Option<Option<(IoKind, Seq<char>)>>,
) -> OutputVerdict {
    match exists {
        None => OutputVerdict::Ask(OutputRequest::Exists),
        Some(true) => OutputVerdict::Ready,
        Some(false) => match created {
            None => OutputVerdict::Ask(OutputRequest::Create),
            Some(None) => OutputVerdict::Ready,
            Some(Some((_, detail))) => OutputVerdict::Abort("创建输出目录失败: "@ + detail),
        },
    }
}

/// Says what to do about the output directory of a batch before any file
/// is planned: see `output_verdict`.
pub fn prepare_output_directory(seen: &OutputSeen) -> (d: OutputDecision)
    ensures
        d@ == output_verdict(
            seen.exists,
            match seen.created {
                Some(r) => Some(result_view(r)),
                None => None,
            },
        ),
{
    match seen.exists {
        None => OutputDecision::Ask(OutputRequest::Exists),
        Some(true) => OutputDecision::Ready,
        Some(false) => match &seen.created {
            None => OutputDecision::Ask(OutputRequest::Create),
            Some(IoResult::Done) => OutputDecision::Ready,
            Some(IoResult::Failed(f)) => OutputDecision::Abort(
                output_directory_failure(f.detail.as_str()),
            ),
        },
    }
}

} // verus!

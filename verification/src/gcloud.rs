//! The gcloud command-line tool: where it is found, how it is called, and what its exit
//! means.
use crate::naming::{
    behind_last_dot, extension_of, has_plain_extension, join_next,
    law_extension_of_plain_path, may_be_path, split_name,
};
use crate::outside::{lossy_text, utf8_lossy};
use crate::paths::{file_name, file_name_on, is_plain_path, is_unread, may_be_file_name};
use crate::requests::pair_views;
use crate::retry::error_text;
use crate::task::{is_log_with, logged, note, TaskHandle, TaskView};
use crate::text::{
    ascii_lowered, chars_of, decimal, decimal_text, is_blank, law_decimal_is_read_back,
    lemma_trimmed_blank, lemma_trimmed_keeps_content, parsed_u64, same_ignoring_ascii_case,
    signed_decimal, signed_decimal_text, str_option, text_of, text_option, texts, trim, trimmed,
};
use vstd::prelude::*;
use vstd::string::*;

verus! {

/// How the gcloud tool is called on this machine.
#[derive(Debug, PartialEq, Eq)]
pub struct GcloudCommandSpec {
    pub program: String,
    pub prefix_args: Vec<String>,
    pub display_path: String,
}

#[verifier::ext_equal]
pub struct CommandSpecView {
    pub program: Seq<char>,
    pub prefix_args: Seq<Seq<char>>,
    pub display_path: Seq<char>,
}

impl View for GcloudCommandSpec {
    type V = CommandSpecView;

    open spec fn view(&self) -> CommandSpecView {
        CommandSpecView {
            program: self.program@,
            prefix_args: texts(self.prefix_args@),
            display_path: self.display_path@,
        }
    }
}

pub open spec fn missing_text() -> Seq<char> {
    "未检测到 gcloud CLI，请先安装并完成 gcloud auth login"@
}

fn missing() -> (text: String)
    ensures
        text@ == missing_text(),
{
    "未检测到 gcloud CLI，请先安装并完成 gcloud auth login".to_owned()
}

/// The length of the first line of `s`.
pub open spec fn line_length(s: Seq<char>) -> int
    decreases s.len(),
{
    if s.len() == 0 || s[0] == '\n' {
        0
    } else {
        1 + line_length(s.drop_first())
    }
}

/// The first line of `s` that is not blank, trimmed.
pub open spec fn first_filled_line(s: Seq<char>) -> Option<Seq<char>>
    decreases s.len(),
    via first_filled_line_decreases
{
    let line = trimmed(s.take(line_length(s)));
    if line.len() > 0 {
        Some(line)
    } else if line_length(s) < s.len() {
        first_filled_line(s.skip(line_length(s) + 1))
    } else {
        None
    }
}

#[via_fn]
proof fn first_filled_line_decreases(s: Seq<char>) {
    lemma_line_length(s);
}

proof fn lemma_line_length(s: Seq<char>)
    ensures
        0 <= line_length(s) <= s.len(),
        line_length(s) < s.len() ==> s[line_length(s)] == '\n',
        forall|i: int| 0 <= i < line_length(s) ==> #[trigger] s[i] != '\n',
    decreases s.len(),
{
    if s.len() > 0 && s[0] != '\n' {
        let rest = s.drop_first();
        lemma_line_length(rest);
        assert forall|i: int| 0 <= i < line_length(s) implies #[trigger] s[i] != '\n' by {
            if i > 0 {
                assert(s[i] == rest[i - 1]);
            }
        }
    }
}

proof fn lemma_line_length_is(s: Seq<char>, n: int)
    requires
        0 <= n <= s.len(),
        n < s.len() ==> s[n] == '\n',
        forall|i: int| 0 <= i < n ==> #[trigger] s[i] != '\n',
    ensures
        line_length(s) == n,
{
    lemma_line_length(s);
    let m = line_length(s);
    if m < n {
        assert(s[m] != '\n');
    } else if n < m {
        assert(s[n] != '\n');
    }
}

/// The first line that is not blank, trimmed.
pub fn first_line(text: &str) -> (line: Option<String>)
    ensures
        text_option(line) == first_filled_line(text@),
{
    let chars = chars_of(text);
    let mut start: usize = 0;
    assert(chars@.skip(0) =~= chars@);
    loop
        invariant
            start <= chars@.len(),
            chars@ == text@,
            first_filled_line(text@) == first_filled_line(text@.skip(start as int)),
        decreases chars@.len() - start,
    {
        let ghost rest = text@.skip(start as int);
        let mut end: usize = start;
        while end < chars.len() && chars[end] != '\n'
            invariant
                start <= end <= chars@.len(),
                chars@ == text@,
                rest == text@.skip(start as int),
                forall|i: int| 0 <= i < end - start ==> #[trigger] rest[i] != '\n',
            decreases chars@.len() - end,
        {
            assert(rest[end - start] == chars@[end as int]);
            end = end + 1;
        }
        proof {
            if end < chars@.len() {
                assert(rest[end - start] == chars@[end as int]);
            }
            lemma_line_length_is(rest, end - start);
            assert(rest.take(end - start) =~= chars@.subrange(start as int, end as int));
        }
        let raw = text_of(&chars, start, end);
        let line = trim(raw.as_str());
        if !line.is_empty() {
            return Some(line.to_owned());
        }
        if end == chars.len() {
            return None;
        }
        assert(rest.skip(end - start + 1) =~= text@.skip(end + 1));
        start = end + 1;
    }
}

/// The extension of a batch file, in any letter case.
pub open spec fn is_batch(extension: Seq<char>) -> bool {
    ascii_lowered(extension) == ascii_lowered("cmd"@) || ascii_lowered(extension)
        == ascii_lowered("bat"@)
}

/// The command that has the command interpreter run the batch file at `path`.
pub open spec fn batch_command(path: Seq<char>) -> CommandSpecView {
    CommandSpecView { program: "cmd.exe"@, prefix_args: seq!["/C"@, path], display_path: path }
}

/// The command that calls the file at `path` directly.
pub open spec fn direct_command(path: Seq<char>) -> CommandSpecView {
    CommandSpecView { program: path, prefix_args: Seq::empty(), display_path: path }
}

/// The command that calls the tool at `path`: through the command interpreter where the
/// file is a batch file.
pub open spec fn command_for(path: Seq<char>, extension: Option<Seq<char>>) -> CommandSpecView {
    match extension {
        Some(e) if is_batch(e) => batch_command(path),
        _ => direct_command(path),
    }
}

/// The command that calls the tool at `path`, by the extension of the file there.
pub fn command_from(path: &str, extension: Option<&str>) -> (spec: GcloudCommandSpec)
    ensures
        spec@ == command_for(path@, str_option(extension)),
{
    let batch = match extension {
        Some(extension) => same_ignoring_ascii_case(extension, "cmd") || same_ignoring_ascii_case(
            extension,
            "bat",
        ),
        None => false,
    };
    let mut prefix_args: Vec<String> = Vec::new();
    if batch {
        prefix_args.push("/C".to_owned());
        prefix_args.push(path.to_owned());
        assert(texts(prefix_args@) =~= seq!["/C"@, path@]);
        GcloudCommandSpec {
            program: "cmd.exe".to_owned(),
            prefix_args,
            display_path: path.to_owned(),
        }
    } else {
        assert(texts(prefix_args@) =~= Seq::empty());
        GcloudCommandSpec {
            program: path.to_owned(),
            prefix_args,
            display_path: path.to_owned(),
        }
    }
}

pub open spec fn name_extension(name: Option<Seq<char>>) -> Option<Seq<char>> {
    match name {
        Some(n) => extension_of(n),
        None => None,
    }
}

/// What is known of the command for a path on Windows. Where the path plainly ends in a
/// file name, the text behind its last dot decides: the interpreter runs it exactly where
/// that is an extension, and one of a batch file.
pub open spec fn may_be_command(path: Seq<char>, spec: CommandSpecView) -> bool {
    &&& exists|name: Option<Seq<char>>| #[trigger]
        may_be_file_name(path, true, name) && spec == command_for(path, name_extension(name))
    &&& spec == batch_command(path) || spec == direct_command(path)
    &&& is_plain_path(path, true) ==> spec == (if has_plain_extension(path, true) && is_batch(
        behind_last_dot(path),
    ) {
        batch_command(path)
    } else {
        direct_command(path)
    })
}

fn command_at(path: &str) -> (spec: GcloudCommandSpec)
    ensures
        may_be_command(path@, spec@),
{
    let name = file_name(path, true);
    assert(may_be_file_name(path@, true, text_option(name)));
    proof {
        if is_plain_path(path@, true) {
            law_extension_of_plain_path(path@, true);
        }
    }
    match &name {
        Some(name) => match split_name(name.as_str()).1 {
            Some(extension) => command_from(path, Some(extension.as_str())),
            None => command_from(path, None),
        },
        None => command_from(path, None),
    }
}

/// A search for the gcloud tool: the platform, the paths at which it may have been
/// installed, and what has been found out so far.
#[derive(Debug, PartialEq, Eq)]
pub struct GcloudSearch {
    pub windows: bool,
    pub install_candidates: Vec<String>,
    /// What `where.exe` has written for each of the tool's names, where it succeeded.
    pub where_outputs: Vec<Option<Vec<u8>>>,
    /// Whether there is a file at each of the candidate paths.
    pub file_checks: Vec<bool>,
}

pub open spec fn tool_names() -> Seq<Seq<char>> {
    seq!["gcloud.cmd"@, "gcloud.exe"@, "gcloud"@]
}

/// What a search for the tool has come to.
#[derive(Debug, PartialEq, Eq)]
pub enum GcloudTarget {
    /// It is called by its plain name.
    Plain,
    /// It is at this path.
    At(String),
    /// `where.exe` is to be run for this name.
    RunWhere(String),
    /// It is to be found out whether there is a file at this path.
    CheckFile(String),
    /// It is nowhere.
    Missing,
}

#[verifier::ext_equal]
pub enum TargetView {
    Plain,
    At(Seq<char>),
    RunWhere(Seq<char>),
    CheckFile(Seq<char>),
    Missing,
}

impl View for GcloudTarget {
    type V = TargetView;

    open spec fn view(&self) -> TargetView {
        match self {
            GcloudTarget::Plain => TargetView::Plain,
            GcloudTarget::At(path) => TargetView::At(path@),
            GcloudTarget::RunWhere(name) => TargetView::RunWhere(name@),
            GcloudTarget::CheckFile(path) => TargetView::CheckFile(path@),
            GcloudTarget::Missing => TargetView::Missing,
        }
    }
}

/// The path that an answer of `where.exe` gives.
pub open spec fn where_hit(output: Option<Vec<u8>>) -> Option<Seq<char>> {
    match output {
        Some(bytes) => first_filled_line(lossy_text(bytes@)),
        None => None,
    }
}

/// The first candidate path, from position `i` on, at which there is a file.
pub open spec fn installed_from(candidates: Seq<Seq<char>>, checks: Seq<bool>, i: int) -> TargetView
    decreases candidates.len() - i,
{
    if i >= candidates.len() {
        TargetView::Missing
    } else if i >= checks.len() {
        TargetView::CheckFile(candidates[i])
    } else if checks[i] {
        TargetView::At(candidates[i])
    } else {
        installed_from(candidates, checks, i + 1)
    }
}

/// The first name of the tool, from position `i` on, that `where.exe` finds, and
/// otherwise the first candidate path.
pub open spec fn found_from(
    outputs: Seq<Option<Vec<u8>>>,
    candidates: Seq<Seq<char>>,
    checks: Seq<bool>,
    i: int,
) -> TargetView
    decreases tool_names().len() - i,
{
    if i >= tool_names().len() {
        installed_from(candidates, checks, 0)
    } else if i >= outputs.len() {
        TargetView::RunWhere(tool_names()[i])
    } else if where_hit(outputs[i]) is Some {
        TargetView::At(where_hit(outputs[i])->0)
    } else {
        found_from(outputs, candidates, checks, i + 1)
    }
}

impl GcloudSearch {
    pub open spec fn target(self) -> TargetView {
        if self.windows {
            found_from(
                self.where_outputs@,
                texts(self.install_candidates@),
                self.file_checks@,
                0,
            )
        } else {
            TargetView::Plain
        }
    }

    fn installed(&self) -> (target: GcloudTarget)
        ensures
            target@ == installed_from(texts(self.install_candidates@), self.file_checks@, 0),
    {
        let mut i: usize = 0;
        while i < self.install_candidates.len()
            invariant
                i <= self.install_candidates@.len(),
                installed_from(texts(self.install_candidates@), self.file_checks@, 0)
                    == installed_from(
                    texts(self.install_candidates@),
                    self.file_checks@,
                    i as int,
                ),
            decreases self.install_candidates.len() - i,
        {
            if i >= self.file_checks.len() {
                return GcloudTarget::CheckFile(self.install_candidates[i].clone());
            }
            if self.file_checks[i] {
                return GcloudTarget::At(self.install_candidates[i].clone());
            }
            i = i + 1;
        }
        GcloudTarget::Missing
    }

    /// What the search has come to, or what is to be found out next.
    pub fn next_target(&self) -> (target: GcloudTarget)
        ensures
            target@ == self.target(),
    {
        if !self.windows {
            return GcloudTarget::Plain;
        }
        let mut names: Vec<String> = Vec::new();
        names.push("gcloud.cmd".to_owned());
        names.push("gcloud.exe".to_owned());
        names.push("gcloud".to_owned());
        assert(texts(names@) =~= tool_names());
        let mut i: usize = 0;
        while i < names.len()
            invariant
                i <= names@.len(),
                texts(names@) == tool_names(),
                self.windows,
                self.target() == found_from(
                    self.where_outputs@,
                    texts(self.install_candidates@),
                    self.file_checks@,
                    i as int,
                ),
            decreases names.len() - i,
        {
            assert(tool_names()[i as int] == names@[i as int]@);
            if i >= self.where_outputs.len() {
                return GcloudTarget::RunWhere(names[i].clone());
            }
            if let Some(output) = &self.where_outputs[i] {
                let text = utf8_lossy(output);
                if let Some(path) = first_line(text.as_str()) {
                    return GcloudTarget::At(path);
                }
            }
            i = i + 1;
        }
        self.installed()
    }
}

/// What a search for the tool has come to: the command that calls it, or what is to be
/// found out next, or that it is missing.
#[derive(Debug, PartialEq, Eq)]
pub enum GcloudResolution {
    Found(GcloudCommandSpec),
    RunWhere(String),
    CheckFile(String),
    Missing(String),
}

/// The command for the plain name of the tool.
pub open spec fn plain_command() -> CommandSpecView {
    CommandSpecView {
        program: "gcloud"@,
        prefix_args: Seq::empty(),
        display_path: "gcloud"@,
    }
}

/// How the gcloud tool is called on this machine, or what is to be found out first.
pub fn resolve_gcloud_command(search: &GcloudSearch) -> (resolution: GcloudResolution)
    ensures
        match search.target() {
            TargetView::Plain => resolution matches GcloudResolution::Found(spec) && spec@
                == plain_command(),
            TargetView::At(path) => resolution matches GcloudResolution::Found(spec)
                && may_be_command(path, spec@),
            TargetView::RunWhere(name) => resolution matches GcloudResolution::RunWhere(n) && n@
                == name,
            TargetView::CheckFile(path) => resolution matches GcloudResolution::CheckFile(p) && p@
                == path,
            TargetView::Missing => resolution matches GcloudResolution::Missing(error) && error@
                == missing_text(),
        },
{
    match search.next_target() {
        GcloudTarget::Plain => {
            let spec = GcloudCommandSpec {
                program: "gcloud".to_owned(),
                prefix_args: Vec::new(),
                display_path: "gcloud".to_owned(),
            };
            assert(spec@.prefix_args =~= Seq::empty());
            GcloudResolution::Found(spec)
        },
        GcloudTarget::At(path) => GcloudResolution::Found(command_at(path.as_str())),
        GcloudTarget::RunWhere(name) => GcloudResolution::RunWhere(name),
        GcloudTarget::CheckFile(path) => GcloudResolution::CheckFile(path),
        GcloudTarget::Missing => GcloudResolution::Missing(missing()),
    }
}

pub open spec fn install_components(file: Seq<char>) -> Seq<Seq<char>> {
    seq!["Google"@, "Cloud SDK"@, "google-cloud-sdk"@, "bin"@, file]
}

fn install_path(base: &str, file: &str) -> (path: String)
    ensures
        may_be_path(true, base@, install_components(file@), path@),
{
    let ghost none = Seq::<Seq<char>>::empty();
    let ghost one = none.push("Google"@);
    let ghost two = one.push("Cloud SDK"@);
    let ghost three = two.push("google-cloud-sdk"@);
    let ghost four = three.push("bin"@);
    let p1 = join_next(true, Ghost(base@), Ghost(none), base, "Google");
    let p2 = join_next(true, Ghost(base@), Ghost(one), p1.as_str(), "Cloud SDK");
    let p3 = join_next(true, Ghost(base@), Ghost(two), p2.as_str(), "google-cloud-sdk");
    let p4 = join_next(true, Ghost(base@), Ghost(three), p3.as_str(), "bin");
    let path = join_next(true, Ghost(base@), Ghost(four), p4.as_str(), file);
    assert(four.push(file@) =~= install_components(file@));
    path
}

/// The paths at which the tool may have been installed on Windows, two under each base
/// directory.
pub fn windows_gcloud_install_candidates(bases: &Vec<String>) -> (candidates: Vec<String>)
    ensures
        candidates@.len() == 2 * bases@.len(),
        forall|i: int|
            0 <= i < bases@.len() ==> {
                &&& may_be_path(
                    true,
                    #[trigger] bases@[i]@,
                    install_components("gcloud.cmd"@),
                    candidates@[2 * i]@,
                )
                &&& may_be_path(
                    true,
                    bases@[i]@,
                    install_components("gcloud.exe"@),
                    candidates@[2 * i + 1]@,
                )
            },
{
    let mut candidates: Vec<String> = Vec::new();
    let mut i: usize = 0;
    while i < bases.len()
        invariant
            i <= bases@.len(),
            candidates@.len() == 2 * i,
            forall|j: int|
                0 <= j < i ==> {
                    &&& may_be_path(
                        true,
                        #[trigger] bases@[j]@,
                        install_components("gcloud.cmd"@),
                        candidates@[2 * j]@,
                    )
                    &&& may_be_path(
                        true,
                        bases@[j]@,
                        install_components("gcloud.exe"@),
                        candidates@[2 * j + 1]@,
                    )
                },
        decreases bases.len() - i,
    {
        candidates.push(install_path(bases[i].as_str(), "gcloud.cmd"));
        candidates.push(install_path(bases[i].as_str(), "gcloud.exe"));
        i = i + 1;
    }
    candidates
}

/// The environment variables that name the base directories of an installation.
pub fn install_base_variables() -> (names: Vec<String>)
    ensures
        texts(names@) == seq![
            "LOCALAPPDATA"@,
            "ProgramW6432"@,
            "ProgramFiles"@,
            "ProgramFiles(x86)"@,
        ],
{
    let mut names: Vec<String> = Vec::new();
    names.push("LOCALAPPDATA".to_owned());
    names.push("ProgramW6432".to_owned());
    names.push("ProgramFiles".to_owned());
    names.push("ProgramFiles(x86)".to_owned());
    assert(texts(names@) =~= seq![
        "LOCALAPPDATA"@,
        "ProgramW6432"@,
        "ProgramFiles"@,
        "ProgramFiles(x86)"@,
    ]);
    names
}

/// The environment of the tool: uploads in parallel parts, unless the setting says
/// `false`, and then by a single process and thread.
pub open spec fn gcloud_env(parallel_setting: Option<Seq<char>>) -> Seq<(Seq<char>, Seq<char>)> {
    let disabled = match parallel_setting {
        Some(value) => ascii_lowered(trimmed(value)) == ascii_lowered("false"@),
        None => false,
    };
    if disabled {
        seq![
            ("CLOUDSDK_STORAGE_PARALLEL_COMPOSITE_UPLOAD_ENABLED"@, "False"@),
            ("CLOUDSDK_STORAGE_PROCESS_COUNT"@, "1"@),
            ("CLOUDSDK_STORAGE_THREAD_COUNT"@, "1"@),
        ]
    } else {
        seq![("CLOUDSDK_STORAGE_PARALLEL_COMPOSITE_UPLOAD_ENABLED"@, "True"@)]
    }
}

pub fn build_gcloud_env_vars(parallel_setting: Option<&str>) -> (vars: Vec<(String, String)>)
    ensures
        pair_views(vars@) == gcloud_env(str_option(parallel_setting)),
{
    let mut vars: Vec<(String, String)> = Vec::new();
    let disabled = match parallel_setting {
        Some(value) => same_ignoring_ascii_case(trim(value), "false"),
        None => false,
    };
    if disabled {
        vars.push(
            (
                "CLOUDSDK_STORAGE_PARALLEL_COMPOSITE_UPLOAD_ENABLED".to_owned(),
                "False".to_owned(),
            ),
        );
        vars.push(("CLOUDSDK_STORAGE_PROCESS_COUNT".to_owned(), "1".to_owned()));
        vars.push(("CLOUDSDK_STORAGE_THREAD_COUNT".to_owned(), "1".to_owned()));
    } else {
        vars.push(
            (
                "CLOUDSDK_STORAGE_PARALLEL_COMPOSITE_UPLOAD_ENABLED".to_owned(),
                "True".to_owned(),
            ),
        );
    }
    assert(pair_views(vars@) =~= gcloud_env(str_option(parallel_setting)));
    vars
}

/// A child process to be started.
#[derive(Debug, PartialEq, Eq)]
pub struct CommandLine {
    pub program: String,
    pub args: Vec<String>,
}

#[verifier::ext_equal]
pub struct CommandLineView {
    pub program: Seq<char>,
    pub args: Seq<Seq<char>>,
}

impl View for CommandLine {
    type V = CommandLineView;

    open spec fn view(&self) -> CommandLineView {
        CommandLineView { program: self.program@, args: texts(self.args@) }
    }
}

/// A call of the tool with these arguments.
pub open spec fn gcloud_line(spec: CommandSpecView, args: Seq<Seq<char>>) -> CommandLineView {
    CommandLineView { program: spec.program, args: spec.prefix_args + args }
}

fn push_all(list: &mut Vec<String>, more: &Vec<String>)
    ensures
        texts(final(list)@) == texts(old(list)@) + texts(more@),
{
    let ghost before = texts(list@);
    let mut i: usize = 0;
    assert(texts(more@).take(0) =~= Seq::empty());
    assert(before + Seq::<Seq<char>>::empty() =~= before);
    while i < more.len()
        invariant
            i <= more@.len(),
            texts(list@) == before + texts(more@).take(i as int),
        decreases more.len() - i,
    {
        let ghost shorter = list@;
        list.push(more[i].clone());
        i = i + 1;
        assert(texts(list@) =~= texts(shorter).push(more@[i - 1]@));
        assert(texts(more@).take(i as int) =~= texts(more@).take(i - 1).push(more@[i - 1]@));
        assert(texts(list@) =~= before + texts(more@).take(i as int));
    }
    assert(texts(more@).take(i as int) =~= texts(more@));
}

pub fn build_gcloud_command(spec: &GcloudCommandSpec, args: &Vec<String>) -> (line: CommandLine)
    ensures
        line@ == gcloud_line(spec@, texts(args@)),
{
    let mut all: Vec<String> = Vec::new();
    assert(texts(all@) =~= Seq::empty());
    push_all(&mut all, &spec.prefix_args);
    assert(Seq::<Seq<char>>::empty() + texts(spec.prefix_args@) =~= texts(spec.prefix_args@));
    push_all(&mut all, args);
    CommandLine { program: spec.program.clone(), args: all }
}

/// The call that ends a child process, with its own children on Windows.
pub open spec fn terminate_line(windows: bool, pid: u32) -> CommandLineView {
    if windows {
        CommandLineView {
            program: "taskkill"@,
            args: seq!["/PID"@, decimal(pid as nat), "/T"@, "/F"@],
        }
    } else {
        CommandLineView { program: "kill"@, args: seq!["-TERM"@, decimal(pid as nat)] }
    }
}

pub fn terminate_process(windows: bool, pid: u32) -> (line: CommandLine)
    ensures
        line@ == terminate_line(windows, pid),
{
    let pid_text = decimal_text(pid as u64);
    let mut args: Vec<String> = Vec::new();
    let program = if windows {
        args.push("/PID".to_owned());
        args.push(pid_text);
        args.push("/T".to_owned());
        args.push("/F".to_owned());
        "taskkill".to_owned()
    } else {
        args.push("-TERM".to_owned());
        args.push(pid_text);
        "kill".to_owned()
    };
    assert(texts(args@) =~= terminate_line(windows, pid).args);
    CommandLine { program, args }
}

/// What became of a trial call of the tool.
#[derive(Debug, PartialEq, Eq)]
pub enum ToolCheck {
    Succeeded,
    Unsuccessful,
    NotFound,
    Failed(String),
}

/// The arguments of a trial call of the tool.
pub fn version_args() -> (args: Vec<String>)
    ensures
        texts(args@) == seq!["version"@],
{
    let mut args: Vec<String> = Vec::new();
    args.push("version".to_owned());
    assert(texts(args@) =~= seq!["version"@]);
    args
}

pub open spec fn spec_result(r: Result<GcloudCommandSpec, String>) -> Result<
    CommandSpecView,
    Seq<char>,
> {
    match r {
        Ok(spec) => Ok(spec@),
        Err(error) => Err(error@),
    }
}

/// The command, where a trial call of it has succeeded, or what is wrong with it.
pub open spec fn tried(spec: CommandSpecView, check: ToolCheck) -> Result<
    CommandSpecView,
    Seq<char>,
> {
    match check {
        ToolCheck::Succeeded => Ok(spec),
        ToolCheck::Unsuccessful => Err("gcloud CLI 不可用，请检查本机安装和登录状态"@),
        ToolCheck::NotFound => Err(missing_text()),
        ToolCheck::Failed(error) => Err("gcloud CLI 不可用："@ + error@),
    }
}

/// The command, where a trial call of it has succeeded.
pub fn ensure_gcloud_installed(spec: GcloudCommandSpec, check: ToolCheck) -> (r: Result<
    GcloudCommandSpec,
    String,
>)
    ensures
        spec_result(r) == tried(spec@, check),
        spec_result(r) == match check {
            ToolCheck::Succeeded => Ok(spec@),
            ToolCheck::Unsuccessful => Err("gcloud CLI 不可用，请检查本机安装和登录状态"@),
            ToolCheck::NotFound => Err(missing_text()),
            ToolCheck::Failed(error) => Err("gcloud CLI 不可用："@ + error@),
        },
{
    match check {
        ToolCheck::Succeeded => Ok(spec),
        ToolCheck::Unsuccessful => Err(
            "gcloud CLI 不可用，请检查本机安装和登录状态".to_owned(),
        ),
        ToolCheck::NotFound => Err(missing()),
        ToolCheck::Failed(error) => Err(
            "gcloud CLI 不可用：".to_owned().concat(error.as_str()),
        ),
    }
}

/// Why a child process could not be started.
#[derive(Debug, PartialEq, Eq)]
pub enum SpawnError {
    NotFound,
    Other(String),
}

#[verifier::ext_equal]
pub enum SpawnErrorView {
    NotFound,
    Other(Seq<char>),
}

impl View for SpawnError {
    type V = SpawnErrorView;

    open spec fn view(&self) -> SpawnErrorView {
        match self {
            SpawnError::NotFound => SpawnErrorView::NotFound,
            SpawnError::Other(error) => SpawnErrorView::Other(error@),
        }
    }
}

/// The message for a child process that could not be started.
pub open spec fn spawn_message(error: SpawnErrorView, failed: Seq<char>) -> Seq<char> {
    match error {
        SpawnErrorView::NotFound => missing_text(),
        SpawnErrorView::Other(e) => failed + e,
    }
}

pub fn spawn_error_message(error: &SpawnError, failed: &str) -> (message: String)
    ensures
        message@ == spawn_message(error@, failed@),
{
    match error {
        SpawnError::NotFound => missing(),
        SpawnError::Other(e) => failed.to_owned().concat(e.as_str()),
    }
}

/// How a child process has ended.
#[derive(Clone, Copy, Debug, PartialEq, Eq, Structural)]
pub struct ExitStatus {
    pub success: bool,
    pub code: Option<i32>,
}

/// The message for a call of the tool that has failed: the last line it wrote, or its
/// exit code, 1 where there is none.
pub open spec fn exit_message(status: ExitStatus, tail: Seq<Seq<char>>) -> Seq<char> {
    if tail.len() > 0 {
        tail.last()
    } else {
        "gcloud 命令执行失败，退出码 "@ + signed_decimal(
            match status.code {
                Some(code) => code as int,
                None => 1,
            },
        )
    }
}

pub fn exit_error_message(status: ExitStatus, tail: &Vec<String>) -> (message: String)
    ensures
        message@ == exit_message(status, texts(tail@)),
{
    if tail.len() > 0 {
        assert(texts(tail@).last() == tail@.last()@);
        tail[tail.len() - 1].clone()
    } else {
        let code: i32 = match status.code {
            Some(code) => code,
            None => 1,
        };
        let code_text = signed_decimal_text(code);
        "gcloud 命令执行失败，退出码 ".to_owned().concat(code_text.as_str())
    }
}

/// What a call of the tool is waiting for.
#[derive(Clone, Copy, Debug, PartialEq, Eq, Structural)]
pub enum GcloudCallStage {
    Looking,
    Starting,
    Running,
    Ended,
}

/// What has happened to a call of the tool.
#[derive(Debug, PartialEq, Eq)]
pub enum GcloudCallEvent {
    /// The tool was looked for.
    Looked(Result<GcloudCommandSpec, String>),
    /// The child process was started, with this process number, or was not.
    Started(Result<u32, SpawnError>),
    /// The child process has ended, or waiting for it has failed.
    Waited(Result<ExitStatus, String>),
}

#[verifier::ext_equal]
pub enum GcloudCallEventView {
    Looked(Result<CommandSpecView, Seq<char>>),
    Started(Result<u32, SpawnErrorView>),
    Waited(Result<ExitStatus, Seq<char>>),
}

pub open spec fn started_view(r: Result<u32, SpawnError>) -> Result<u32, SpawnErrorView> {
    match r {
        Ok(pid) => Ok(pid),
        Err(error) => Err(error@),
    }
}

impl View for GcloudCallEvent {
    type V = GcloudCallEventView;

    open spec fn view(&self) -> GcloudCallEventView {
        match self {
            GcloudCallEvent::Looked(r) => GcloudCallEventView::Looked(spec_result(*r)),
            GcloudCallEvent::Started(r) => GcloudCallEventView::Started(started_view(*r)),
            GcloudCallEvent::Waited(r) => GcloudCallEventView::Waited(error_text(*r)),
        }
    }
}

/// What to do next for a call of the tool.
#[derive(Debug, PartialEq, Eq)]
pub enum GcloudCallAction {
    Start(CommandLine),
    Wait,
    End(Result<(), String>),
    /// The event does not fit; nothing is to be done.
    Nothing,
}

#[verifier::ext_equal]
pub enum GcloudCallActionView {
    Start(CommandLineView),
    Wait,
    End(Result<(), Seq<char>>),
    Nothing,
}

impl View for GcloudCallAction {
    type V = GcloudCallActionView;

    open spec fn view(&self) -> GcloudCallActionView {
        match self {
            GcloudCallAction::Start(line) => GcloudCallActionView::Start(line@),
            GcloudCallAction::Wait => GcloudCallActionView::Wait,
            GcloudCallAction::End(r) => GcloudCallActionView::End(error_text(*r)),
            GcloudCallAction::Nothing => GcloudCallActionView::Nothing,
        }
    }
}

/// How an event takes a call of the tool further. The process number is forgotten when
/// the child process has ended, but not when waiting for it has failed.
pub open spec fn gcloud_call_step(
    stage: GcloudCallStage,
    task: TaskView,
    args: Seq<Seq<char>>,
    tail: Seq<Seq<char>>,
    event: GcloudCallEventView,
    now: Seq<char>,
) -> (GcloudCallStage, TaskView, GcloudCallActionView) {
    match (stage, event) {
        (GcloudCallStage::Looking, GcloudCallEventView::Looked(Ok(spec))) => (
            GcloudCallStage::Starting,
            logged(
                task,
                now,
                "debug"@,
                "已解析 gcloud CLI 路径："@ + spec.display_path,
                None,
                None,
            ),
            GcloudCallActionView::Start(gcloud_line(spec, args)),
        ),
        (GcloudCallStage::Looking, GcloudCallEventView::Looked(Err(error))) => (
            GcloudCallStage::Ended,
            task,
            GcloudCallActionView::End(Err(error)),
        ),
        (GcloudCallStage::Starting, GcloudCallEventView::Started(Ok(pid))) => (
            GcloudCallStage::Running,
            TaskView { active_pid: Some(pid), ..task },
            GcloudCallActionView::Wait,
        ),
        (GcloudCallStage::Starting, GcloudCallEventView::Started(Err(error))) => (
            GcloudCallStage::Ended,
            task,
            GcloudCallActionView::End(Err(spawn_message(error, "启动 gcloud 命令失败："@))),
        ),
        (GcloudCallStage::Running, GcloudCallEventView::Waited(Ok(status))) => (
            GcloudCallStage::Ended,
            TaskView { active_pid: None, ..task },
            GcloudCallActionView::End(
                if status.success {
                    Ok(())
                } else {
                    Err(exit_message(status, tail))
                },
            ),
        ),
        (GcloudCallStage::Running, GcloudCallEventView::Waited(Err(error))) => (
            GcloudCallStage::Ended,
            task,
            GcloudCallActionView::End(Err("等待 gcloud 命令失败："@ + error)),
        ),
        _ => (stage, task, GcloudCallActionView::Nothing),
    }
}

/// Takes a call of the tool one event further.
pub fn run_gcloud_command(
    stage: &mut GcloudCallStage,
    handle: &mut TaskHandle,
    args: &Vec<String>,
    output_tail: &Vec<String>,
    event: GcloudCallEvent,
    now: &str,
) -> (action: GcloudCallAction)
    ensures
        (*final(stage), final(handle)@, action@) == gcloud_call_step(
            *old(stage),
            old(handle)@,
            texts(args@),
            texts(output_tail@),
            event@,
            now@,
        ),
{
    match *stage {
        GcloudCallStage::Looking => match event {
            GcloudCallEvent::Looked(Ok(spec)) => {
                let message = "已解析 gcloud CLI 路径：".to_owned().concat(
                    spec.display_path.as_str(),
                );
                handle.append_log(now, "debug", message.as_str(), None, None);
                *stage = GcloudCallStage::Starting;
                GcloudCallAction::Start(build_gcloud_command(&spec, args))
            },
            GcloudCallEvent::Looked(Err(error)) => {
                *stage = GcloudCallStage::Ended;
                GcloudCallAction::End(Err(error))
            },
            _ => GcloudCallAction::Nothing,
        },
        GcloudCallStage::Starting => match event {
            GcloudCallEvent::Started(Ok(pid)) => {
                handle.active_pid = Some(pid);
                *stage = GcloudCallStage::Running;
                GcloudCallAction::Wait
            },
            GcloudCallEvent::Started(Err(error)) => {
                *stage = GcloudCallStage::Ended;
                GcloudCallAction::End(
                    Err(spawn_error_message(&error, "启动 gcloud 命令失败：")),
                )
            },
            _ => GcloudCallAction::Nothing,
        },
        GcloudCallStage::Running => match event {
            GcloudCallEvent::Waited(Ok(status)) => {
                handle.active_pid = None;
                *stage = GcloudCallStage::Ended;
                if status.success {
                    GcloudCallAction::End(Ok(()))
                } else {
                    GcloudCallAction::End(Err(exit_error_message(status, output_tail)))
                }
            },
            GcloudCallEvent::Waited(Err(error)) => {
                *stage = GcloudCallStage::Ended;
                GcloudCallAction::End(
                    Err("等待 gcloud 命令失败：".to_owned().concat(error.as_str())),
                )
            },
            _ => GcloudCallAction::Nothing,
        },
        GcloudCallStage::Ended => GcloudCallAction::Nothing,
    }
}

proof fn lemma_not_installed(candidates: Seq<Seq<char>>, checks: Seq<bool>, i: int)
    requires
        0 <= i <= candidates.len(),
    ensures
        installed_from(candidates, checks, i) is Missing <==> (i < candidates.len()
            ==> checks.len() >= candidates.len()) && forall|k: int|
            i <= k < candidates.len() ==> !(#[trigger] checks[k]),
    decreases candidates.len() - i,
{
    if i < candidates.len() {
        if i < checks.len() && !checks[i] {
            lemma_not_installed(candidates, checks, i + 1);
        }
    }
}

/// The tool is missing exactly where, on Windows, `where.exe` has been asked for each of its
/// names and has found none, and there is no file at any of the candidate paths.
pub proof fn law_tool_is_missing_only_when_nowhere(search: GcloudSearch)
    ensures
        search.target() is Missing <==> {
            &&& search.windows
            &&& search.where_outputs@.len() >= tool_names().len()
            &&& forall|k: int|
                0 <= k < tool_names().len() ==> where_hit(#[trigger] search.where_outputs@[k])
                    is None
            &&& search.install_candidates@.len() > 0 ==> search.file_checks@.len()
                >= search.install_candidates@.len()
            &&& forall|k: int|
                0 <= k < search.install_candidates@.len() ==> !(#[trigger] search.file_checks@[k])
        },
{
    let outputs = search.where_outputs@;
    reveal_with_fuel(found_from, 4);
    lemma_not_installed(texts(search.install_candidates@), search.file_checks@, 0);
    assert(tool_names().len() == 3);
    if outputs.len() >= 3 && where_hit(outputs[0]) is None && where_hit(outputs[1]) is None
        && where_hit(outputs[2]) is None {
        assert forall|k: int| 0 <= k < 3 implies where_hit(#[trigger] outputs[k]) is None by {
            assert(k == 0 || k == 1 || k == 2);
        }
    }
}

/// The command interpreter is what runs the tool exactly where its path ends in the
/// extension of a batch file, on a drive or in a share.
pub proof fn law_interpreter_runs_batch_files(path: Seq<char>, spec: CommandSpecView)
    requires
        is_plain_path(path, true),
        may_be_command(path, spec),
    ensures
        spec == batch_command(path) <==> has_plain_extension(path, true) && is_batch(
            behind_last_dot(path),
        ),
        spec == direct_command(path) <==> spec != batch_command(path),
{
    assert(batch_command(path).prefix_args.len() == 2);
    assert(direct_command(path).prefix_args.len() == 0);
}

/// The text has no line break in it.
pub open spec fn is_line(s: Seq<char>) -> bool {
    !s.contains('\n')
}

/// A first line that is blank is passed over; one that is not is the line that is found,
/// without white space around it. In a blank text none is found.
pub proof fn law_first_filled_line_is_found(line: Seq<char>, rest: Seq<char>)
    requires
        is_line(line),
    ensures
        is_blank(line) ==> first_filled_line(line + seq!['\n'] + rest) == first_filled_line(rest),
        is_blank(line) ==> first_filled_line(line) is None,
        !is_blank(line) ==> first_filled_line(line + seq!['\n'] + rest) == Some(trimmed(line)),
        !is_blank(line) ==> first_filled_line(line) == Some(trimmed(line)),
{
    let n = line.len() as int;
    let text = line + seq!['\n'] + rest;
    assert forall|i: int| 0 <= i < n implies #[trigger] line[i] != '\n' by {
        assert(line.contains(line[i]));
    }
    assert forall|i: int| 0 <= i < n implies #[trigger] text[i] != '\n' by {
        assert(text[i] == line[i]);
    }
    assert(text[n] == '\n');
    lemma_line_length_is(line, n);
    lemma_line_length_is(text, n);
    assert(text.take(n) =~= line);
    assert(line.take(n) =~= line);
    assert(text.skip(n + 1) =~= rest);
    if is_blank(line) {
        lemma_trimmed_blank(line);
    } else {
        lemma_trimmed_keeps_content(line);
    }
}

/// Off Windows the tool is called by its plain name. On Windows it is where `where.exe` has
/// first found one of its names, `gcloud.cmd` before `gcloud.exe` before `gcloud`, and
/// otherwise at the first candidate path at which there is a file; as long as it has not been
/// found, the next name is asked for, and after the names the next path.
pub proof fn law_tool_is_where_it_is_first_found(search: GcloudSearch, k: int)
    ensures
        !search.windows ==> search.target() is Plain,
        ({
            let outputs = search.where_outputs@;
            let names = seq!["gcloud.cmd"@, "gcloud.exe"@, "gcloud"@];
            search.windows && 0 <= k < 3 && k <= outputs.len() && (forall|i: int|
                0 <= i < k ==> where_hit(#[trigger] outputs[i]) is None) ==> {
                &&& (k == outputs.len() ==> search.target() == TargetView::RunWhere(names[k]))
                &&& (k < outputs.len() ==> (where_hit(outputs[k]) matches Some(path)
                    ==> search.target() == TargetView::At(path)))
            }
        }),
        ({
            let outputs = search.where_outputs@;
            let paths = texts(search.install_candidates@);
            let checks = search.file_checks@;
            search.windows && outputs.len() >= 3 && (forall|i: int|
                0 <= i < 3 ==> where_hit(#[trigger] outputs[i]) is None) && 0 <= k < paths.len()
                && k <= checks.len() && (forall|i: int| 0 <= i < k ==> !(#[trigger] checks[i]))
                ==> {
                &&& (k == checks.len() ==> search.target() == TargetView::CheckFile(paths[k]))
                &&& (k < checks.len() && checks[k] ==> search.target() == TargetView::At(
                    paths[k],
                ))
            }
        }),
{
    let outputs = search.where_outputs@;
    let paths = texts(search.install_candidates@);
    let checks = search.file_checks@;
    reveal_with_fuel(found_from, 4);
    assert(tool_names().len() == 3);
    assert(tool_names()[0] == "gcloud.cmd"@ && tool_names()[1] == "gcloud.exe"@ && tool_names()[2]
        == "gcloud"@);
    if search.windows && 0 <= k < 3 && k <= outputs.len() && (forall|i: int|
        0 <= i < k ==> where_hit(#[trigger] outputs[i]) is None) {
        assert(k >= 1 ==> where_hit(outputs[0]) is None);
        assert(k >= 2 ==> where_hit(outputs[1]) is None);
        assert(k == 0 || k == 1 || k == 2);
    }
    if search.windows && outputs.len() >= 3 && (forall|i: int|
        0 <= i < 3 ==> where_hit(#[trigger] outputs[i]) is None) && 0 <= k < paths.len() && k
        <= checks.len() && (forall|i: int| 0 <= i < k ==> !(#[trigger] checks[i])) {
        assert(where_hit(outputs[0]) is None && where_hit(outputs[1]) is None && where_hit(
            outputs[2],
        ) is None);
        lemma_missed_paths_are_passed(paths, checks, 0, k);
    }
}

proof fn lemma_missed_paths_are_passed(
    candidates: Seq<Seq<char>>,
    checks: Seq<bool>,
    i: int,
    k: int,
)
    requires
        0 <= i <= k < candidates.len(),
        k <= checks.len(),
        forall|j: int| 0 <= j < k ==> !(#[trigger] checks[j]),
    ensures
        installed_from(candidates, checks, i) == installed_from(candidates, checks, k),
    decreases k - i,
{
    if i < k {
        assert(!checks[i]);
        lemma_missed_paths_are_passed(candidates, checks, i + 1, k);
    }
}

/// What `where.exe` has found is the first line of its output that is not blank, and nothing
/// where it has failed.
pub proof fn law_where_output_is_read_by_lines(output: Option<Vec<u8>>)
    ensures
        output is None ==> where_hit(output) is None,
        output matches Some(bytes) ==> where_hit(output) == first_filled_line(
            lossy_text(bytes@),
        ),
{
}

/// A batch file is run by the command interpreter, which is told its path; any other file is
/// run itself. Either way the path is what is shown. An extension is that of a batch file
/// exactly where it is `cmd` or `bat` but for its case.
pub proof fn law_commands_of_the_tool(path: Seq<char>, extension: Seq<char>)
    ensures
        ({
            let batch = batch_command(path);
            &&& batch.program == "cmd.exe"@
            &&& batch.prefix_args.len() == 2
            &&& batch.prefix_args[0] == "/C"@
            &&& batch.prefix_args[1] == path
            &&& batch.display_path == path
        }),
        ({
            let direct = direct_command(path);
            &&& direct.program == path
            &&& direct.prefix_args.len() == 0
            &&& direct.display_path == path
        }),
        command_for(path, None) == direct_command(path),
        command_for(path, Some(extension)) == (if is_batch(extension) {
            batch_command(path)
        } else {
            direct_command(path)
        }),
        is_batch(extension) <==> ascii_lowered(extension) == seq!['c', 'm', 'd'] || ascii_lowered(
            extension,
        ) == seq!['b', 'a', 't'],
        plain_command().program == "gcloud"@,
        plain_command().prefix_args.len() == 0,
        plain_command().display_path == "gcloud"@,
{
    reveal_strlit("cmd");
    reveal_strlit("bat");
    assert(ascii_lowered("cmd"@) =~= seq!['c', 'm', 'd']);
    assert(ascii_lowered("bat"@) =~= seq!['b', 'a', 't']);
}

/// The tool is called as it was found: its program, its own first arguments, and then those
/// of the call.
pub proof fn law_arguments_follow_the_prefix(spec: CommandSpecView, args: Seq<Seq<char>>)
    ensures
        ({
            let line = gcloud_line(spec, args);
            let n = spec.prefix_args.len() as int;
            &&& line.program == spec.program
            &&& line.args.len() == n + args.len()
            &&& line.args.take(n) == spec.prefix_args
            &&& line.args.skip(n) == args
        }),
{
    let line = gcloud_line(spec, args);
    let n = spec.prefix_args.len() as int;
    assert(line.args.take(n) =~= spec.prefix_args);
    assert(line.args.skip(n) =~= args);
}

/// The tool uploads in parallel parts, unless the setting says `false` in any case; it then
/// has one process with one thread.
pub proof fn law_environment_of_the_tool(value: Seq<char>)
    ensures
        gcloud_env(None).len() == 1,
        gcloud_env(None)[0] == ("CLOUDSDK_STORAGE_PARALLEL_COMPOSITE_UPLOAD_ENABLED"@, "True"@),
        ({
            let vars = gcloud_env(Some(value));
            if ascii_lowered(trimmed(value)) == seq!['f', 'a', 'l', 's', 'e'] {
                &&& vars.len() == 3
                &&& vars[0] == ("CLOUDSDK_STORAGE_PARALLEL_COMPOSITE_UPLOAD_ENABLED"@, "False"@)
                &&& vars[1] == ("CLOUDSDK_STORAGE_PROCESS_COUNT"@, "1"@)
                &&& vars[2] == ("CLOUDSDK_STORAGE_THREAD_COUNT"@, "1"@)
            } else {
                vars == gcloud_env(None)
            }
        }),
{
    reveal_strlit("false");
    assert(ascii_lowered("false"@) =~= seq!['f', 'a', 'l', 's', 'e']);
}

/// The call that ends a process names that process, and no other; on Windows its own children
/// are ended with it, by force.
pub proof fn law_process_is_ended_by_its_number(pid: u32, other: u32)
    ensures
        ({
            let line = terminate_line(true, pid);
            &&& line.program == "taskkill"@
            &&& line.args.len() == 4
            &&& line.args[0] == "/PID"@
            &&& parsed_u64(line.args[1]) == Some(pid as u64)
            &&& line.args[2] == "/T"@
            &&& line.args[3] == "/F"@
        }),
        ({
            let line = terminate_line(false, pid);
            &&& line.program == "kill"@
            &&& line.args.len() == 2
            &&& line.args[0] == "-TERM"@
            &&& parsed_u64(line.args[1]) == Some(pid as u64)
        }),
        pid != other ==> terminate_line(true, pid).args[1] != terminate_line(true, other).args[1],
        pid != other ==> terminate_line(false, pid).args[1] != terminate_line(false, other).args[1],
{
    law_decimal_is_read_back(pid as u64);
    law_decimal_is_read_back(other as u64);
}

/// A call that has failed is explained by the last line that the tool wrote, and by its exit
/// code where it wrote none, which counts as 1 where there is none.
pub proof fn law_failure_is_explained_by_the_last_line(
    status: ExitStatus,
    tail: Seq<Seq<char>>,
    line: Seq<char>,
    code: i32,
)
    ensures
        exit_message(status, tail.push(line)) == line,
        exit_message(ExitStatus { success: false, code: Some(code) }, Seq::empty())
            == "gcloud 命令执行失败，退出码 "@ + signed_decimal(code as int),
        exit_message(ExitStatus { success: false, code: None }, Seq::empty())
            == "gcloud 命令执行失败，退出码 "@ + signed_decimal(1),
{
}

/// A child process that was not found is a tool that is not installed; any other failure to
/// start is told with its cause.
pub proof fn law_failure_to_start_is_told(cause: Seq<char>, failed: Seq<char>)
    ensures
        spawn_message(SpawnErrorView::NotFound, failed)
            == "未检测到 gcloud CLI，请先安装并完成 gcloud auth login"@,
        spawn_message(SpawnErrorView::Other(cause), failed) == failed + cause,
        missing_text() == "未检测到 gcloud CLI，请先安装并完成 gcloud auth login"@,
{
}

/// The event is one that the stage of a call waits for.
pub open spec fn is_awaited(stage: GcloudCallStage, event: GcloudCallEventView) -> bool {
    match stage {
        GcloudCallStage::Looking => event is Looked,
        GcloudCallStage::Starting => event is Started,
        GcloudCallStage::Running => event is Waited,
        GcloudCallStage::Ended => false,
    }
}

/// A call of the tool succeeds exactly where its process has ended with success. While it
/// runs, its process is that of the task; when its end has been seen, the task has none.
pub proof fn law_call_succeeds_with_its_process(
    stage: GcloudCallStage,
    task: TaskView,
    args: Seq<Seq<char>>,
    tail: Seq<Seq<char>>,
    event: GcloudCallEventView,
    now: Seq<char>,
)
    ensures
        ({
            let (next, next_task, action) = gcloud_call_step(stage, task, args, tail, event, now);
            &&& (action matches GcloudCallActionView::End(Ok(_))) <==> stage is Running && (
            event matches GcloudCallEventView::Waited(Ok(status)) && status.success)
            &&& action is Nothing <==> !is_awaited(stage, event)
            &&& (action is Nothing ==> next == stage && next_task == task)
            &&& (action is End ==> next is Ended)
            &&& next_task.snapshot == task.snapshot
            &&& next_task.cancel_requested == task.cancel_requested
            &&& (stage is Looking ==> (event matches GcloudCallEventView::Looked(Ok(spec)) ==> {
                &&& next is Starting
                &&& next_task.active_pid == task.active_pid
                &&& action matches GcloudCallActionView::Start(line) && line.program
                    == spec.program && line.args == spec.prefix_args + args
                &&& is_log_with(
                    task.logs,
                    next_task.logs,
                    note(now, "debug"@, "已解析 gcloud CLI 路径："@ + spec.display_path),
                )
            }))
            &&& (stage is Starting ==> (event matches GcloudCallEventView::Started(Ok(pid)) ==> {
                &&& next is Running
                &&& action is Wait
                &&& next_task.active_pid == Some(pid)
                &&& next_task.logs == task.logs
            }))
            &&& (stage is Running ==> (event matches GcloudCallEventView::Waited(Ok(_))
                ==> next_task.active_pid is None && next_task.logs == task.logs))
        }),
{
}

/// A call of the tool that fails gives the error of what has failed: the search, the start,
/// the process, or the waiting for it.
pub proof fn law_failed_call_says_why(
    stage: GcloudCallStage,
    task: TaskView,
    args: Seq<Seq<char>>,
    tail: Seq<Seq<char>>,
    event: GcloudCallEventView,
    now: Seq<char>,
)
    ensures
        ({
            let (next, next_task, action) = gcloud_call_step(stage, task, args, tail, event, now);
            &&& (stage is Looking ==> (event matches GcloudCallEventView::Looked(Err(error))
                ==> next_task == task && action == GcloudCallActionView::End(Err(error))))
            &&& (stage is Starting ==> (event matches GcloudCallEventView::Started(Err(error))
                ==> next_task == task && match error {
                SpawnErrorView::NotFound => action == GcloudCallActionView::End(
                    Err("未检测到 gcloud CLI，请先安装并完成 gcloud auth login"@),
                ),
                SpawnErrorView::Other(cause) => action == GcloudCallActionView::End(
                    Err("启动 gcloud 命令失败："@ + cause),
                ),
            }))
            &&& (stage is Running ==> (event matches GcloudCallEventView::Waited(Ok(status))
                ==> (!status.success ==> if tail.len() > 0 {
                action == GcloudCallActionView::End(Err(tail[tail.len() - 1]))
            } else {
                action == GcloudCallActionView::End(
                    Err(
                        "gcloud 命令执行失败，退出码 "@ + signed_decimal(
                            match status.code {
                                Some(code) => code as int,
                                None => 1,
                            },
                        ),
                    ),
                )
            })))
            &&& (stage is Running ==> (event matches GcloudCallEventView::Waited(Err(error))
                ==> next_task == task && action == GcloudCallActionView::End(
                Err("等待 gcloud 命令失败："@ + error),
            )))
        }),
{
}

/// The tool may have been installed in the place of its own below a base directory.
pub proof fn law_install_places(file: Seq<char>)
    ensures
        ({
            let place = install_components(file);
            &&& place.len() == 5
            &&& place[0] == "Google"@
            &&& place[1] == "Cloud SDK"@
            &&& place[2] == "google-cloud-sdk"@
            &&& place[3] == "bin"@
            &&& place[4] == file
        }),
{
}

/// Whether the interpreter runs the tool goes by the extension of its file name, whatever
/// stands behind that: a path that ends in separators is judged by the name before them, and
/// one without a file name, or whose name has no extension, is run itself.
pub proof fn law_command_goes_by_the_file_name(path: Seq<char>, spec: CommandSpecView)
    requires
        may_be_command(path, spec),
        !is_unread(path, true),
    ensures
        spec.display_path == path,
        match file_name_on(path, true) {
            Some(name) => match extension_of(name) {
                Some(extension) => if ascii_lowered(extension) == seq!['c', 'm', 'd']
                    || ascii_lowered(extension) == seq!['b', 'a', 't'] {
                    spec.program == "cmd.exe"@ && spec.prefix_args.len() == 2
                } else {
                    spec.program == path && spec.prefix_args.len() == 0
                },
                None => spec.program == path && spec.prefix_args.len() == 0,
            },
            None => spec.program == path && spec.prefix_args.len() == 0,
        },
{
    if let Some(name) = file_name_on(path, true) {
        if let Some(extension) = extension_of(name) {
            law_commands_of_the_tool(path, extension);
        }
    }
}

/// The tool can be used exactly where a trial call of it has succeeded, and as it was tried;
/// otherwise it is said whether it is missing, does not work, or could not be called.
pub proof fn law_tool_is_used_only_when_it_works(spec: CommandSpecView, check: ToolCheck)
    ensures
        tried(spec, check) is Ok <==> check is Succeeded,
        tried(spec, check) matches Ok(used) ==> used == spec,
        check is NotFound ==> tried(spec, check) == Err::<CommandSpecView, Seq<char>>(
            "未检测到 gcloud CLI，请先安装并完成 gcloud auth login"@,
        ),
        check is Unsuccessful ==> tried(spec, check) == Err::<CommandSpecView, Seq<char>>(
            "gcloud CLI 不可用，请检查本机安装和登录状态"@,
        ),
        check matches ToolCheck::Failed(error) ==> tried(spec, check) == Err::<
            CommandSpecView,
            Seq<char>,
        >("gcloud CLI 不可用："@ + error@),
{
}

} // verus!

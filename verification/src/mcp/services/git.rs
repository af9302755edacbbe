use crate::mcp::rmcp_compat::ServiceError;
use crate::mcp::McpService;
use crate::text::{chars_of, lines_of, lines_text, same_text, string_from, texts, trim_str, trim_text};
use vstd::prelude::*;

verus! {

/// The Git service: runs git commands, and GitAI's own commit and review for
/// those two commands.
pub struct GitService {
    name: String,
    version: String,
    description: String,
    repository_path: Option<String>,
    is_running: bool,
    probe: Option<GitProbe>,
}

/// Parameters of a git command.
pub struct GitOperationParams {
    /// The git command, without `git`.
    pub command: String,
    /// Its arguments.
    pub args: Vec<String>,
    /// Directory to run it in.
    pub working_dir: Option<String>,
}

/// Outcome of a git command.
pub struct GitOperationResult {
    /// Whether it succeeded.
    pub success: bool,
    /// What it printed.
    pub stdout: String,
    /// What it printed as errors.
    pub stderr: String,
    /// Its exit code.
    pub exit_code: Option<i32>,
}

/// State of a working tree.
pub struct GitStatus {
    /// Current branch, if on one.
    pub current_branch: Option<String>,
    /// Whether anything changed.
    pub has_changes: bool,
    /// Modified files.
    pub modified_files: Vec<String>,
    /// Added files.
    pub added_files: Vec<String>,
    /// Deleted files.
    pub deleted_files: Vec<String>,
    /// Untracked files.
    pub untracked_files: Vec<String>,
}

/// How a file changed, by its two-letter code in `git status --porcelain`.
#[derive(Debug, Clone, Copy, PartialEq, Eq, Structural)]
pub enum FileChange {
    /// ` M`, `M ` or `MM`.
    Modified,
    /// `A ` or `AM`.
    Added,
    /// ` D` or `D `.
    Deleted,
    /// `??`.
    Untracked,
}

/// The kind of change a two-letter status code stands for, if one of those read.
pub open spec fn change_of_code(code: Seq<char>) -> Option<FileChange> {
    if code == seq![' ', 'M'] || code == seq!['M', ' '] || code == seq!['M', 'M'] {
        Some(FileChange::Modified)
    } else if code == seq!['A', ' '] || code == seq!['A', 'M'] {
        Some(FileChange::Added)
    } else if code == seq![' ', 'D'] || code == seq!['D', ' '] {
        Some(FileChange::Deleted)
    } else if code == seq!['?', '?'] {
        Some(FileChange::Untracked)
    } else {
        None
    }
}

/// The paths of the lines among the first `k` of `lines` whose change is `kind`;
/// a line holds a two-letter code, a space and the path, and shorter lines are skipped.
pub open spec fn paths_of_change(lines: Seq<Seq<char>>, kind: FileChange, k: int) -> Seq<Seq<char>>
    decreases k,
{
    if k <= 0 {
        Seq::empty()
    } else {
        let before = paths_of_change(lines, kind, k - 1);
        let line = lines[k - 1];
        if line.len() >= 3 && change_of_code(line.take(2)) == Some(kind) {
            before.push(line.skip(3))
        } else {
            before
        }
    }
}

/// The files of a `git status --porcelain` output that changed as `kind`, in order.
pub open spec fn changed_files(output: Seq<char>, kind: FileChange) -> Seq<Seq<char>> {
    paths_of_change(lines_text(output), kind, lines_text(output).len() as int)
}

fn change_of_line(line: &Vec<char>) -> (r: Option<FileChange>)
    requires
        line.len() >= 3,
    ensures
        r == change_of_code(line@.take(2)),
{
    let a = line[0];
    let b = line[1];
    assert(line@.take(2) =~= seq![a, b]);
    if (a == ' ' && b == 'M') || (a == 'M' && b == ' ') || (a == 'M' && b == 'M') {
        Some(FileChange::Modified)
    } else if (a == 'A' && b == ' ') || (a == 'A' && b == 'M') {
        Some(FileChange::Added)
    } else if (a == ' ' && b == 'D') || (a == 'D' && b == ' ') {
        Some(FileChange::Deleted)
    } else if a == '?' && b == '?' {
        Some(FileChange::Untracked)
    } else {
        None
    }
}

/// The files of a `git status --porcelain` output that changed as `kind`, in order.
pub fn files_with_change(output: &str, kind: FileChange) -> (r: Vec<String>)
    ensures
        texts(r@) == changed_files(output@, kind),
{
    let lines = lines_of(output);
    let ghost lv = texts(lines@);
    let mut out: Vec<String> = Vec::new();
    let mut i: usize = 0;
    while i < lines.len()
        invariant
            i <= lines.len(),
            lv == texts(lines@),
            lv == lines_text(output@),
            texts(out@) == paths_of_change(lv, kind, i as int),
        decreases lines.len() - i,
    {
        let cs = chars_of(lines[i].as_str());
        assert(cs@ == lv[i as int]);
        if cs.len() >= 3 {
            if change_of_line(&cs) == Some(kind) {
                let ghost before = texts(out@);
                out.push(string_from(&cs, 3));
                assert(cs@.subrange(3, cs@.len() as int) =~= cs@.skip(3));
                assert(texts(out@) =~= before.push(lv[i as int].skip(3)));
            }
        }
        i = i + 1;
    }
    out
}

/// Whether a `git status --porcelain` output lists any entry: any changed,
/// renamed, conflicting or untracked path gives a line of its own.
pub open spec fn lists_entries(output: Seq<char>) -> bool {
    exists|i: int| 0 <= i < lines_text(output).len() && #[trigger] lines_text(output)[i].len() > 0
}

/// Whether a `git status --porcelain` output lists any entry (see `lists_entries`).
pub fn has_entries(output: &str) -> (r: bool)
    ensures
        r == lists_entries(output@),
{
    let lines = lines_of(output);
    let ghost lv = texts(lines@);
    let mut i: usize = 0;
    while i < lines.len()
        invariant
            i <= lines.len(),
            lv == texts(lines@),
            lv == lines_text(output@),
            forall|j: int| 0 <= j < i ==> #[trigger] lv[j].len() == 0,
        decreases lines.len() - i,
    {
        assert(lv[i as int] == lines@[i as int]@);
        if lines[i].unicode_len() > 0 {
            return true;
        }
        i = i + 1;
    }
    false
}

/// The status of a working tree, from what `git branch --show-current` (whether it
/// succeeded, its output) and `git status --porcelain` (whether it succeeded, its
/// output and errors) printed.
pub fn git_status_from_output(
    branch_ok: bool,
    branch_stdout: &str,
    status_ok: bool,
    status_stdout: &str,
    status_stderr: &str,
) -> (r: Result<GitStatus, ServiceError>)
    ensures
        !status_ok ==> (r matches Err(ServiceError::InternalError(m)) && m@ == "获取 git 状态失败: "@
            + status_stderr@),
        status_ok ==> (r matches Ok(st) && {
            &&& (branch_ok && trim_text(branch_stdout@).len() > 0) ==> (st.current_branch matches Some(b)
                && b@ == trim_text(branch_stdout@))
            &&& !(branch_ok && trim_text(branch_stdout@).len() > 0) ==> st.current_branch is None
            &&& texts(st.modified_files@) == changed_files(status_stdout@, FileChange::Modified)
            &&& texts(st.added_files@) == changed_files(status_stdout@, FileChange::Added)
            &&& texts(st.deleted_files@) == changed_files(status_stdout@, FileChange::Deleted)
            &&& texts(st.untracked_files@) == changed_files(status_stdout@, FileChange::Untracked)
            &&& st.has_changes == lists_entries(status_stdout@)
        }),
{
    let current_branch = if branch_ok {
        let name = trim_str(branch_stdout);
        if name.unicode_len() == 0 {
            None
        } else {
            Some(name)
        }
    } else {
        None
    };
    if !status_ok {
        let mut m = String::from_str("获取 git 状态失败: ");
        m.append(status_stderr);
        return Err(ServiceError::internal_error(m));
    }
    let modified_files = files_with_change(status_stdout, FileChange::Modified);
    let added_files = files_with_change(status_stdout, FileChange::Added);
    let deleted_files = files_with_change(status_stdout, FileChange::Deleted);
    let untracked_files = files_with_change(status_stdout, FileChange::Untracked);
    let has_changes = has_entries(status_stdout);
    Ok(GitStatus { current_branch, has_changes, modified_files, added_files, deleted_files, untracked_files })
}

/// What `git --version` showed of git when the service started.
pub enum GitProbe {
    /// It ran and succeeded.
    Available,
    /// It ran and failed.
    Unavailable,
    /// It could not be run, for this reason.
    NotRun(String),
}

/// What starting after `probe` gives: running where git is available, else
/// an internal error saying why, with the service as it was.
pub open spec fn probe_start(probe: GitProbe, r: Result<(), ServiceError>, was_running: bool, running: bool) -> bool {
    match probe {
        GitProbe::Available => r is Ok && running,
        GitProbe::Unavailable => (r matches Err(ServiceError::InternalError(m)) && m@ == "Git 命令不可用"@)
            && running == was_running,
        GitProbe::NotRun(e) => (r matches Err(ServiceError::InternalError(m)) && m@ == "启动 Git 服务失败: "@
            + e@) && running == was_running,
    }
}

/// The tools the Git service offers.
#[derive(Debug, Clone, Copy, PartialEq, Eq, Structural)]
pub enum GitTool {
    /// `git_execute`.
    Execute,
    /// `git_status`.
    Status,
}

/// How a git command is carried out.
#[derive(Debug, Clone, Copy, PartialEq, Eq, Structural)]
pub enum GitCommandRoute {
    /// GitAI's own commit.
    GitAiCommit,
    /// GitAI's own review.
    GitAiReview,
    /// Plain git.
    Git,
}

/// How a command is carried out: `commit` and `review` by GitAI, the rest by git.
pub open spec fn command_route(command: Seq<char>) -> GitCommandRoute {
    if command == "commit"@ {
        GitCommandRoute::GitAiCommit
    } else if command == "review"@ {
        GitCommandRoute::GitAiReview
    } else {
        GitCommandRoute::Git
    }
}

/// The Git tool named `name`, if any.
pub open spec fn git_tool_named(name: Seq<char>) -> Option<GitTool> {
    if name == "git_execute"@ {
        Some(GitTool::Execute)
    } else if name == "git_status"@ {
        Some(GitTool::Status)
    } else {
        None
    }
}

impl GitService {
    /// The service's name.
    pub closed spec fn spec_name(&self) -> Seq<char> {
        self.name@
    }

    /// The service's version.
    pub closed spec fn spec_version(&self) -> Seq<char> {
        self.version@
    }

    /// What the service does.
    pub closed spec fn spec_description(&self) -> Seq<char> {
        self.description@
    }

    /// Whether the service runs.
    pub closed spec fn spec_running(&self) -> bool {
        self.is_running
    }

    /// What probing git showed, if it was probed.
    pub closed spec fn spec_probe(&self) -> Option<GitProbe> {
        self.probe
    }

    /// The repository the service works in, if set.
    pub closed spec fn spec_repository_path(&self) -> Option<Seq<char>> {
        match self.repository_path {
            Some(p) => Some(p@),
            None => None,
        }
    }

    /// The service for the repository at `repository_path`, if given; stopped.
    pub fn new(repository_path: Option<String>) -> (r: Self)
        ensures
            r.spec_name() == "gitai-git-service"@,
            r.spec_version() == "1.0.0"@,
            r.spec_description() == "GitAI 增强 Git 服务"@,
            !r.spec_running(),
            r.spec_repository_path() == (match repository_path {
                Some(p) => Some(p@),
                None => None::<Seq<char>>,
            }),
            r.spec_probe() is None,
    {
        GitService {
            name: String::from_str("gitai-git-service"),
            version: String::from_str("1.0.0"),
            description: String::from_str("GitAI 增强 Git 服务"),
            repository_path,
            is_running: false,
            probe: None,
        }
    }

    /// Whether the service runs.
    pub fn is_running(&self) -> (r: bool)
        ensures
            r == self.spec_running(),
    {
        self.is_running
    }

    /// The directory a command runs in: the one asked for, else the repository.
    pub fn command_dir<'a>(&'a self, working_dir: Option<&'a str>) -> (r: Option<&'a str>)
        ensures
            match working_dir {
                Some(d) => r matches Some(x) && x@ == d@,
                None => match self.spec_repository_path() {
                    Some(p) => r matches Some(x) && x@ == p,
                    None => r is None,
                },
            },
    {
        match working_dir {
            Some(d) => Some(d),
            None => match &self.repository_path {
                Some(p) => Some(p.as_str()),
                None => None,
            },
        }
    }

    /// The service with `probe`, what `git --version` showed, recorded for
    /// starting it through `start_sync`.
    pub fn with_probe(self, probe: GitProbe) -> (r: Self)
        ensures
            r.spec_name() == self.spec_name(),
            r.spec_version() == self.spec_version(),
            r.spec_description() == self.spec_description(),
            r.spec_repository_path() == self.spec_repository_path(),
            r.spec_running() == self.spec_running(),
            r.spec_probe() == Some(probe),
    {
        GitService { probe: Some(probe), ..self }
    }

    /// Starts the service once git proved available.
    pub fn start_with(&mut self, probe: GitProbe) -> (r: Result<(), ServiceError>)
        ensures
            final(self).spec_name() == old(self).spec_name(),
            final(self).spec_repository_path() == old(self).spec_repository_path(),
            final(self).spec_probe() == old(self).spec_probe(),
            probe_start(probe, r, old(self).spec_running(), final(self).spec_running()),
    {
        self.start_from(&probe)
    }

    fn start_from(&mut self, probe: &GitProbe) -> (r: Result<(), ServiceError>)
        ensures
            final(self).spec_name() == old(self).spec_name(),
            final(self).spec_version() == old(self).spec_version(),
            final(self).spec_description() == old(self).spec_description(),
            final(self).spec_repository_path() == old(self).spec_repository_path(),
            final(self).spec_probe() == old(self).spec_probe(),
            probe_start(*probe, r, old(self).spec_running(), final(self).spec_running()),
    {
        match probe {
            GitProbe::Available => {
                self.is_running = true;
                Ok(())
            },
            GitProbe::Unavailable => Err(ServiceError::internal_error(String::from_str("Git 命令不可用"))),
            GitProbe::NotRun(e) => {
                let mut m = String::from_str("启动 Git 服务失败: ");
                m.append(e.as_str());
                Err(ServiceError::internal_error(m))
            },
        }
    }

    /// Whether git was probed before the service was asked to start.
    fn probed(&self) -> (r: Option<GitProbe>)
        ensures
            r == self.spec_probe(),
    {
        match &self.probe {
            Some(GitProbe::Available) => Some(GitProbe::Available),
            Some(GitProbe::Unavailable) => Some(GitProbe::Unavailable),
            Some(GitProbe::NotRun(e)) => Some(GitProbe::NotRun(e.clone())),
            None => None,
        }
    }

    /// How `command` is carried out: `commit` and `review` by GitAI, the rest by git.
    pub fn route_command(command: &str) -> (r: GitCommandRoute)
        ensures
            r == command_route(command@),
    {
        if same_text(command, "commit") {
            GitCommandRoute::GitAiCommit
        } else if same_text(command, "review") {
            GitCommandRoute::GitAiReview
        } else {
            GitCommandRoute::Git
        }
    }

    /// The tool named `name`.
    pub fn tool_for_name(name: &str) -> (r: Result<GitTool, ServiceError>)
        ensures
            match git_tool_named(name@) {
                Some(t) => r matches Ok(x) && x == t,
                None => r matches Err(ServiceError::MethodNotFound(m)) && m@ == "未知工具: "@ + name@,
            },
    {
        if same_text(name, "git_execute") {
            Ok(GitTool::Execute)
        } else if same_text(name, "git_status") {
            Ok(GitTool::Status)
        } else {
            let mut m = String::from_str("未知工具: ");
            m.append(name);
            Err(ServiceError::method_not_found(m))
        }
    }

    /// Reading a resource is not supported.
    pub fn read_resource(&self, uri: &str) -> (r: Result<String, ServiceError>)
        ensures
            r matches Err(ServiceError::MethodNotFound(m)) && m@ == "Git 服务不提供资源读取功能"@,
    {
        Err(ServiceError::method_not_found(String::from_str("Git 服务不提供资源读取功能")))
    }
}

impl McpService for GitService {
    fn name(&self) -> (r: &str)
        ensures
            r@ == self.spec_name(),
    {
        self.name.as_str()
    }

    fn version(&self) -> (r: &str)
        ensures
            r@ == self.spec_version(),
    {
        self.version.as_str()
    }

    fn description(&self) -> (r: &str)
        ensures
            r@ == self.spec_description(),
    {
        self.description.as_str()
    }

    /// Starts the service as the recorded probe of git allows (see
    /// `with_probe` and `start_with`); without a probe it does not start.
    fn start_sync(&mut self) -> (r: Result<(), ServiceError>)
        ensures
            final(self).spec_name() == old(self).spec_name(),
            final(self).spec_probe() == old(self).spec_probe(),
            match old(self).spec_probe() {
                Some(p) => probe_start(p, r, old(self).spec_running(), final(self).spec_running()),
                None => (r matches Err(ServiceError::InternalError(m)) && m@ == "启动 Git 服务失败: 未检测 git"@)
                    && final(self).spec_running() == old(self).spec_running(),
            },
    {
        match self.probed() {
            Some(p) => self.start_from(&p),
            None => Err(ServiceError::internal_error(String::from_str("启动 Git 服务失败: 未检测 git"))),
        }
    }

    fn stop_sync(&mut self) -> (r: Result<(), ServiceError>)
        ensures
            r is Ok,
            !final(self).spec_running(),
    {
        self.is_running = false;
        Ok(())
    }

    fn health_check_sync(&self) -> (r: Result<bool, ServiceError>)
        ensures
            r matches Ok(b) && b == self.spec_running(),
    {
        Ok(self.is_running)
    }

    fn get_handler_info(&self) -> (r: String)
        ensures
            r@ == "GitServiceHandler"@,
    {
        String::from_str("GitServiceHandler")
    }
}

/// The handler of the Git service.
pub struct GitServiceHandler {
    service: GitService,
}

impl GitServiceHandler {
    /// The service handled.
    pub closed spec fn spec_service(&self) -> GitService {
        self.service
    }

    /// A handler of a new Git service for the repository at `repository_path`.
    pub fn new(repository_path: Option<String>) -> (r: Self)
        ensures
            r.spec_service().spec_name() == "gitai-git-service"@,
            !r.spec_service().spec_running(),
    {
        GitServiceHandler { service: GitService::new(repository_path) }
    }

    /// The service handled.
    pub fn service(&self) -> (r: &GitService)
        ensures
            *r == self.spec_service(),
    {
        &self.service
    }
}

/// The outcome when the working directory cannot be entered: the directory
/// asked for where one was, else the repository's.
pub fn chdir_failure(dir: Option<&str>, error: &str) -> (r: GitOperationResult)
    ensures
        !r.success,
        r.stdout@.len() == 0,
        r.exit_code == Some(1i32),
        r.stderr@ == (match dir {
            Some(d) => "无法切换到目录 "@ + d@ + ": "@ + error@,
            None => "无法切换到仓库目录: "@ + error@,
        }),
{
    let mut e = match dir {
        Some(d) => {
            let mut t = String::from_str("无法切换到目录 ");
            t.append(d);
            t.append(": ");
            t
        },
        None => String::from_str("无法切换到仓库目录: "),
    };
    e.append(error);
    GitOperationResult { success: false, stdout: String::new(), stderr: e, exit_code: Some(1) }
}

/// The outcome of GitAI's commit: success with its note, or failure with the error.
pub fn commit_outcome(result: Result<(), String>) -> (r: GitOperationResult)
    ensures
        r.success == result is Ok,
        result is Ok ==> r.stdout@ == "GitAI 智能提交成功完成"@ && r.stderr@.len() == 0 && r.exit_code == Some(0i32),
        result matches Err(e) ==> r.stdout@.len() == 0 && r.stderr@ == "GitAI 提交失败: "@ + e@ && r.exit_code == Some(
            1i32,
        ),
{
    match result {
        Ok(()) => GitOperationResult {
            success: true,
            stdout: String::from_str("GitAI 智能提交成功完成"),
            stderr: String::new(),
            exit_code: Some(0),
        },
        Err(e) => {
            let mut t = String::from_str("GitAI 提交失败: ");
            t.append(e.as_str());
            GitOperationResult { success: false, stdout: String::new(), stderr: t, exit_code: Some(1) }
        },
    }
}

/// The outcome of GitAI's review: success with its output, or failure with the error.
pub fn review_outcome(result: Result<String, String>) -> (r: GitOperationResult)
    ensures
        r.success == result is Ok,
        result matches Ok(o) ==> r.stdout == o && r.stderr@.len() == 0 && r.exit_code == Some(0i32),
        result matches Err(e) ==> r.stdout@.len() == 0 && r.stderr@ == "GitAI 代码评审失败: "@ + e@ && r.exit_code
            == Some(1i32),
{
    match result {
        Ok(o) => GitOperationResult { success: true, stdout: o, stderr: String::new(), exit_code: Some(0) },
        Err(e) => {
            let mut t = String::from_str("GitAI 代码评审失败: ");
            t.append(e.as_str());
            GitOperationResult { success: false, stdout: String::new(), stderr: t, exit_code: Some(1) }
        },
    }
}

/// The outcome when git itself cannot be run.
pub fn spawn_failure(error: &str) -> (r: GitOperationResult)
    ensures
        !r.success,
        r.stdout@.len() == 0,
        r.stderr@ == "执行 git 命令失败: "@ + error@,
        r.exit_code is None,
{
    let mut t = String::from_str("执行 git 命令失败: ");
    t.append(error);
    GitOperationResult { success: false, stdout: String::new(), stderr: t, exit_code: None }
}

} // verus!

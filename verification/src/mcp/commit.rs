//! Committing the changes in the worktree of a thread.
use crate::mcp::params::CommitParams;
use crate::text::{cat, cat3, contains, decode_lossy, split_lines, str_eq, trim};
use crate::text;
use vstd::prelude::*;

verus! {

/// How a git command ended: what it wrote, and whether it succeeded.
#[derive(Clone, Debug)]
pub struct GitOutput {
    pub success: bool,
    pub stdout: String,
    pub stderr: String,
}

impl GitOutput {
    /// What a command wrote, as text.
    pub fn new(success: bool, stdout: &Vec<u8>, stderr: &Vec<u8>) -> (r: GitOutput)
        ensures
            r.success == success,
            r.stdout@ == text::lossy_text(stdout@),
            r.stderr@ == text::lossy_text(stderr@),
    {
        GitOutput { success, stdout: decode_lossy(stdout), stderr: decode_lossy(stderr) }
    }
}

/// What the commit tool answers.
#[derive(Clone, Debug)]
pub struct CommitResult {
    pub commit_sha: String,
    pub files_changed: usize,
    pub thread_id: String,
    pub worktree_path: String,
}

/// What is said of a thread that is not active.
pub open spec fn not_active_text(thread_id: Seq<char>, status: Seq<char>) -> Seq<char> {
    "thread '"@ + thread_id + "' is "@ + status + " — only Active threads can be committed"@
}

/// What stands against a commit, by the status of the thread.
pub open spec fn status_refusal(
    thread_id: Seq<char>,
    status: Result<Option<String>, String>,
) -> Option<Seq<char>> {
    match status {
        Ok(Some(s)) => if s@ == "Active"@ {
            None
        } else {
            Some(not_active_text(thread_id, s@))
        },
        Ok(None) => Some("thread '"@ + thread_id + "' not found"@),
        Err(e) => Some("failed to get thread status: "@ + e@),
    }
}

/// What stands against a commit, by the status of the thread.
pub fn check_status(thread_id: &str, status: Result<Option<String>, String>) -> (r: Option<String>)
    ensures
        text::opt_text(r) == status_refusal(thread_id@, status),
{
    match status {
        Ok(Some(s)) => if str_eq(s.as_str(), "Active") {
            None
        } else {
            let mut t: String = cat3("thread '", thread_id, "' is ");
            t.append(s.as_str());
            t.append(" — only Active threads can be committed");
            Some(t)
        },
        Ok(None) => Some(cat3("thread '", thread_id, "' not found")),
        Err(e) => Some(cat("failed to get thread status: ", e.as_str())),
    }
}

/// The worktree of a thread, with whether it exists, or what stands against a
/// commit there.
pub fn check_worktree(thread_id: &str, found: Result<Option<(String, bool)>, String>) -> (r: Result<
    String,
    String,
>)
    ensures
        match found {
            Ok(Some(p)) => if (p).1 {
                r == Ok::<String, String>((p).0)
            } else {
                r matches Err(e) && e@ == "worktree path does not exist: "@ + (p).0@
            },
            Ok(None) => r matches Err(e) && e@ == "thread '"@ + thread_id@
                + "' has no worktree path set"@,
            Err(e) => r == Err::<String, String>(e),
        },
{
    match found {
        Ok(Some(p)) => if p.1 {
            Ok(p.0)
        } else {
            Err(cat("worktree path does not exist: ", p.0.as_str()))
        },
        Ok(None) => Err(cat3("thread '", thread_id, "' has no worktree path set")),
        Err(e) => Err(e),
    }
}

/// What a failure of `git add` is answered.
pub open spec fn add_refusal(output: Result<GitOutput, String>) -> Option<Seq<char>> {
    match output {
        Err(e) => Some("git add failed: "@ + e@),
        Ok(o) => if o.success {
            None
        } else {
            Some("git add failed: "@ + o.stderr@)
        },
    }
}

/// What a failure of `git commit` is answered.
pub open spec fn commit_refusal(output: Result<GitOutput, String>) -> Option<Seq<char>> {
    match output {
        Err(e) => Some("git commit failed: "@ + e@),
        Ok(o) => if o.success {
            None
        } else if text::contains_text(o.stdout@ + o.stderr@, "nothing to commit"@) {
            Some("nothing to commit — working tree clean"@)
        } else {
            Some("git commit failed: "@ + text::trimmed(o.stdout@ + o.stderr@))
        },
    }
}

/// The commit that `git rev-parse HEAD` names, or what its failure is answered.
pub open spec fn head_sha(output: Result<GitOutput, String>) -> Result<Seq<char>, Seq<char>> {
    match output {
        Err(e) => Err("git rev-parse failed: "@ + e@),
        Ok(o) => if o.success {
            Ok(text::trimmed(o.stdout@))
        } else {
            Err("git rev-parse HEAD failed: "@ + text::trimmed(o.stderr@))
        },
    }
}

/// How many of the lines tell of a file.
pub open spec fn file_lines(lines: Seq<Seq<char>>) -> nat
    decreases lines.len(),
{
    if lines.len() == 0 {
        0
    } else {
        file_lines(lines.drop_last()) + if text::contains_text(lines.last(), " | "@) {
            1nat
        } else {
            0nat
        }
    }
}

/// How many files `git diff --stat` lists; none where it failed, as it does for
/// a first commit.
pub open spec fn changed_files(output: Result<GitOutput, String>) -> nat {
    match output {
        Ok(o) => if o.success {
            file_lines(text::lines_of(o.stdout@))
        } else {
            0
        },
        Err(_) => 0,
    }
}

/// How many files `git diff --stat` lists.
pub fn count_changed_files(output: Result<GitOutput, String>) -> (r: usize)
    ensures
        r == changed_files(output),
{
    let o: GitOutput = match output {
        Ok(o) => o,
        Err(_) => {
            return 0;
        },
    };
    if !o.success {
        return 0;
    }
    let lines: Vec<String> = split_lines(o.stdout.as_str());
    let ghost all = text::texts(lines@);
    let mut n: usize = 0;
    let mut i: usize = 0;
    while i < lines.len()
        invariant
            i <= lines@.len(),
            n <= i,
            all == text::texts(lines@),
            n == file_lines(all.take(i as int)),
        decreases lines@.len() - i,
    {
        assert(all.take(i + 1).drop_last() =~= all.take(i as int));
        if contains(lines[i].as_str(), " | ") {
            n += 1;
        }
        i += 1;
    }
    assert(all.take(i as int) =~= all);
    n
}

/// How a commit went so far.
#[derive(Debug)]
pub enum GitReply {
    Add(Result<GitOutput, String>),
    Commit(Result<GitOutput, String>),
    /// `git rev-parse HEAD` and `git diff --stat HEAD~1..HEAD`.
    Head(Result<GitOutput, String>, Result<GitOutput, String>),
}

/// What comes next in a commit.
#[derive(Debug)]
pub enum GitStep {
    Commit,
    Inspect,
    Done(CommitResult),
    Refused(String),
}

/// What comes next, as plain values.
pub enum GitStepView {
    Commit,
    Inspect,
    Done { commit_sha: Seq<char>, files_changed: nat, thread_id: Seq<char>, worktree_path: Seq<char> },
    Refused(Seq<char>),
}

impl View for GitStep {
    type V = GitStepView;

    open spec fn view(&self) -> GitStepView {
        match *self {
            GitStep::Commit => GitStepView::Commit,
            GitStep::Inspect => GitStepView::Inspect,
            GitStep::Done(r) => GitStepView::Done {
                commit_sha: r.commit_sha@,
                files_changed: r.files_changed as nat,
                thread_id: r.thread_id@,
                worktree_path: r.worktree_path@,
            },
            GitStep::Refused(e) => GitStepView::Refused(e@),
        }
    }
}

/// What comes next after `git` has answered.
pub open spec fn git_next(thread_id: Seq<char>, worktree: Seq<char>, reply: GitReply) -> GitStepView {
    match reply {
        GitReply::Add(o) => match add_refusal(o) {
            Some(e) => GitStepView::Refused(e),
            None => GitStepView::Commit,
        },
        GitReply::Commit(o) => match commit_refusal(o) {
            Some(e) => GitStepView::Refused(e),
            None => GitStepView::Inspect,
        },
        GitReply::Head(head, diff) => match head_sha(head) {
            Err(e) => GitStepView::Refused(e),
            Ok(sha) => GitStepView::Done {
                commit_sha: sha,
                files_changed: changed_files(diff),
                thread_id,
                worktree_path: worktree,
            },
        },
    }
}

/// What comes next after `git` has answered.
pub fn commit_step(params: &CommitParams, worktree: &str, reply: GitReply) -> (r: GitStep)
    ensures
        r@ == git_next(params.thread_id@, worktree@, reply),
{
    match reply {
        GitReply::Add(Err(e)) => GitStep::Refused(cat("git add failed: ", e.as_str())),
        GitReply::Add(Ok(o)) => if o.success {
            GitStep::Commit
        } else {
            GitStep::Refused(cat("git add failed: ", o.stderr.as_str()))
        },
        GitReply::Commit(Err(e)) => GitStep::Refused(cat("git commit failed: ", e.as_str())),
        GitReply::Commit(Ok(o)) => {
            if o.success {
                return GitStep::Inspect;
            }
            let combined: String = cat(o.stdout.as_str(), o.stderr.as_str());
            if contains(combined.as_str(), "nothing to commit") {
                GitStep::Refused("nothing to commit — working tree clean".to_owned())
            } else {
                GitStep::Refused(
                    cat("git commit failed: ", trim(combined.as_str()).as_str()),
                )
            }
        },
        GitReply::Head(Err(e), _) => GitStep::Refused(cat("git rev-parse failed: ", e.as_str())),
        GitReply::Head(Ok(o), diff) => if o.success {
            GitStep::Done(
                CommitResult {
                    commit_sha: trim(o.stdout.as_str()),
                    files_changed: count_changed_files(diff),
                    thread_id: params.thread_id.clone(),
                    worktree_path: worktree.to_owned(),
                },
            )
        } else {
            GitStep::Refused(
                cat("git rev-parse HEAD failed: ", trim(o.stderr.as_str()).as_str()),
            )
        },
    }
}

/// A commit is reported only where `git commit` succeeded, and none is made
/// where `git add` failed.
pub proof fn law_commit_needs_success(thread_id: Seq<char>, worktree: Seq<char>, reply: GitReply)
    ensures
        git_next(thread_id, worktree, reply) is Commit <==> (reply matches GitReply::Add(Ok(o))
            && o.success),
        git_next(thread_id, worktree, reply) is Inspect <==> (reply matches GitReply::Commit(Ok(o))
            && o.success),
        git_next(thread_id, worktree, reply) is Done <==> (reply matches GitReply::Head(Ok(o), _)
            && o.success),
{
}

/// A commit is refused by the status of its thread unless that is `Active`, and
/// the refusal names the thread.
pub proof fn law_only_active_threads_commit(
    thread_id: Seq<char>,
    status: Result<Option<String>, String>,
)
    ensures
        status_refusal(thread_id, status) is None <==> status is Ok && status->Ok_0 is Some
            && status->Ok_0->0@ == "Active"@,
        status matches Ok(Some(s)) ==> (s@ != "Active"@ ==> status_refusal(thread_id, status)
            == Some(
            "thread '"@ + thread_id + "' is "@ + s@ + " — only Active threads can be committed"@,
        )),
        status matches Ok(None) ==> status_refusal(thread_id, status) == Some(
            "thread '"@ + thread_id + "' not found"@,
        ),
        status matches Err(e) ==> status_refusal(thread_id, status) == Some(
            "failed to get thread status: "@ + e@,
        ),
{
}

/// What a commit reports: the trimmed output of `git rev-parse`, the files of the
/// diff, the thread and its worktree. What git said is told where it failed.
pub proof fn law_commit_reports(thread_id: Seq<char>, worktree: Seq<char>, reply: GitReply)
    ensures
        git_next(thread_id, worktree, reply) matches GitStepView::Done {
            commit_sha,
            files_changed,
            thread_id: t,
            worktree_path,
        } ==> {
            &&& t == thread_id && worktree_path == worktree
            &&& reply matches GitReply::Head(Ok(head), diff)
            &&& commit_sha == text::trimmed(head.stdout@)
            &&& diff is Err ==> files_changed == 0
            &&& diff matches Ok(d) ==> (!d.success ==> files_changed == 0)
            &&& diff matches Ok(d) ==> (d.success ==> files_changed == file_lines(
                text::lines_of(d.stdout@),
            ))
        },
        reply matches GitReply::Add(Err(e)) ==> git_next(thread_id, worktree, reply)
            == GitStepView::Refused("git add failed: "@ + e@),
        reply matches GitReply::Add(Ok(o)) ==> (!o.success ==> git_next(thread_id, worktree, reply)
            == GitStepView::Refused("git add failed: "@ + o.stderr@)),
        reply matches GitReply::Commit(Err(e)) ==> git_next(thread_id, worktree, reply)
            == GitStepView::Refused("git commit failed: "@ + e@),
        reply matches GitReply::Commit(Ok(o)) ==> (!o.success && text::contains_text(
            o.stdout@ + o.stderr@,
            "nothing to commit"@,
        ) ==> git_next(thread_id, worktree, reply) == GitStepView::Refused(
            "nothing to commit — working tree clean"@,
        )),
        reply matches GitReply::Commit(Ok(o)) ==> (!o.success && !text::contains_text(
            o.stdout@ + o.stderr@,
            "nothing to commit"@,
        ) ==> git_next(thread_id, worktree, reply) == GitStepView::Refused(
            "git commit failed: "@ + text::trimmed(o.stdout@ + o.stderr@),
        )),
        reply matches GitReply::Head(Err(e), _) ==> git_next(thread_id, worktree, reply)
            == GitStepView::Refused("git rev-parse failed: "@ + e@),
        reply matches GitReply::Head(Ok(o), _) ==> (!o.success ==> git_next(
            thread_id,
            worktree,
            reply,
        ) == GitStepView::Refused("git rev-parse HEAD failed: "@ + text::trimmed(o.stderr@))),
{
}

/// A line of the diff's summary counts as a file if and only if it holds a bar
/// between spaces.
pub proof fn law_file_lines(lines: Seq<Seq<char>>, line: Seq<char>)
    ensures
        file_lines(lines.push(line)) == file_lines(lines) + if text::contains_text(line, " | "@) {
            1nat
        } else {
            0nat
        },
        file_lines(Seq::empty()) == 0,
{
    assert(lines.push(line).drop_last() =~= lines);
    assert(lines.push(line).last() == line);
}

} // verus!

//! Which files of a project may be read and changed for a signal.

use vstd::prelude::*;

use crate::calls::git::{GitCall, GitView};
use crate::calls::signal::{SignalCall, SignalCallView};
use crate::calls::{Request, RequestView, Tree};
use crate::command::{args2, git};
use crate::fault::Fault;
use crate::journal::{asked, follows, in_context, Halt, Journal, Reply, Run};
use crate::llm::types::file_views;
use crate::path::{absolute, is_absolute, parts, path_parts};
use crate::protection::types::{change_views, CandidateChange, ChangeView, SignalFileSelection};
use crate::repo::{CommandOutput, FileFacts};
use crate::sync::auto_resolve::{to_slashes, with_slashes};
use crate::text::bytes::{strict, utf8_complaint, utf8_text};
use crate::text::pattern::{
    begins_with, contains, ends_with, finishes_with, holds, starts_with,
};
use crate::text::split::{filled, pieces, split_filled, Separator};
use crate::text::{
    ascii_lower, byte_len, concat2, holds_text, push_text, same_text, texts, to_ascii_lower,
    utf8_len, Lines,
};

verus! {

/// The largest number of files among which some are chosen.
pub const MAX_TRACKED_FILES: usize = 10000;

/// The largest file that is read, in bytes.
pub const MAX_EVIDENCE_FILE_BYTES: usize = 49152;

/// The largest total of the files that are read, in bytes.
pub const MAX_EVIDENCE_BYTES: usize = 65536;

/// The largest total of the files of a candidate, in bytes.
pub const MAX_CANDIDATE_BYTES: usize = 786432;

/// Whether a path leads up at some point.
pub open spec fn leads_up(path: Seq<char>) -> bool {
    exists|i: int| 0 <= i < parts(path).len() && #[trigger] parts(path)[i] == ".."@
}

/// Whether a lower-case path is one of automation, settings or credentials.
pub open spec fn is_guarded(lower: Seq<char>) -> bool {
    ||| begins_with(lower, ".git/"@)
    ||| begins_with(lower, ".github/workflows/"@)
    ||| holds(lower, "/.env"@)
    ||| finishes_with(lower, ".env"@)
    ||| finishes_with(lower, "termite.yml"@)
    ||| finishes_with(lower, "termiters.yml"@)
    ||| holds(lower, "secret"@)
    ||| holds(lower, "credential"@)
}

/// Whether a file may be read and changed: it lies in the project, and it is none of automation,
/// settings or credentials.
pub open spec fn may_be_candidate(path: Seq<char>) -> bool {
    let path = with_slashes(path);
    !absolute(path) && !leads_up(path) && !is_guarded(ascii_lower(path))
}

fn path_leads_up(path: &str) -> (r: bool)
    ensures
        r == leads_up(path@),
{
    let all = path_parts(path);
    let ghost list = parts(path@);
    let mut i: usize = 0;
    while i < all.len()
        invariant
            texts(all@) == list,
            list == parts(path@),
            i <= all@.len(),
            forall|j: int| 0 <= j < i ==> #[trigger] list[j] != ".."@,
        decreases all@.len() - i,
    {
        assert(list[i as int] == all@[i as int]@);
        if same_text(all[i].as_str(), "..") {
            return true;
        }
        i = i + 1;
    }
    false
}

/// Whether a file may be read and changed.
pub fn candidate_path_allowed(path: &str) -> (r: bool)
    ensures
        r == may_be_candidate(path@),
{
    let normalized = to_slashes(path);
    if is_absolute(normalized.as_str()) || path_leads_up(normalized.as_str()) {
        return false;
    }
    let lower = to_ascii_lower(normalized.as_str());
    let lower = lower.as_str();
    !starts_with(lower, ".git/") && !starts_with(lower, ".github/workflows/") && !contains(
        lower,
        "/.env",
    ) && !ends_with(lower, ".env") && !ends_with(lower, "termite.yml") && !ends_with(
        lower,
        "termiters.yml",
    ) && !contains(lower, "secret") && !contains(lower, "credential")
}

/// The paths that may be candidates, in order.
pub open spec fn candidates_among(paths: Seq<Seq<char>>) -> Seq<Seq<char>>
    decreases paths.len(),
{
    if paths.len() == 0 {
        Seq::empty()
    } else {
        let before = candidates_among(paths.drop_last());
        if may_be_candidate(paths.last()) {
            before.push(paths.last())
        } else {
            before
        }
    }
}

fn keep_candidates(paths: &Vec<String>) -> (r: Vec<String>)
    ensures
        texts(r@) == candidates_among(texts(paths@)),
{
    let ghost all = texts(paths@);
    let mut out: Vec<String> = Vec::new();
    assert(texts(out@) =~= candidates_among(all.take(0)));
    let mut i: usize = 0;
    while i < paths.len()
        invariant
            i <= paths@.len(),
            all == texts(paths@),
            texts(out@) == candidates_among(all.take(i as int)),
        decreases paths@.len() - i,
    {
        assert(all.take(i + 1).drop_last() =~= all.take(i as int));
        assert(all.take(i + 1).last() == paths@[i as int]@);
        if candidate_path_allowed(paths[i].as_str()) {
            push_text(&mut out, paths[i].clone());
        }
        i = i + 1;
    }
    assert(all.take(i as int) =~= all);
    out
}

/// The files that a listing of git names and that may be candidates.
pub open spec fn tracked_in(listing: Seq<char>) -> Seq<Seq<char>> {
    candidates_among(filled(pieces(listing, Separator::Char('\0'))))
}

/// The files of the project that may be candidates.
pub open spec fn offered_files(replies: Seq<Reply>, at: nat) -> Run<Seq<Seq<char>>> {
    match asked::<CommandOutput>(
        replies,
        at,
        git(Tree::Main, GitView::Run { args: seq!["ls-files"@, "-z"@] }),
    ) {
        Run::Ask(request) => Run::Ask(request),
        Run::Fail(chain, at) => Run::Fail(chain, at),
        Run::On(output, at) => if !output.succeeded() {
            Run::Fail(seq!["无法枚举 Git 跟踪文件"@], at)
        } else if tracked_in(output.stdout@).len() > MAX_TRACKED_FILES {
            Run::Fail(seq!["Git 跟踪文件超过取证上限"@], at)
        } else {
            Run::On(tracked_in(output.stdout@), at)
        },
    }
}

/// The files of the project that may be candidates.
pub fn tracked_regular_files<'a>(journal: &mut Journal<'a>) -> (r: Result<Lines, Halt<'a>>)
    ensures
        follows(
            *old(journal),
            *final(journal),
            r,
            offered_files(old(journal).all(), old(journal).at()),
        ),
{
    let args = args2("ls-files", "-z");
    let output: &'a CommandOutput = journal.ask(Request::Git(Tree::Main, GitCall::Run { args }))?;
    if !output.success() {
        return Err(Halt::Fail(Fault::of("无法枚举 Git 跟踪文件")));
    }
    let paths = split_filled(output.stdout.as_str(), Separator::Char('\0'));
    let files = Lines { list: keep_candidates(&paths) };
    if files.list.len() > MAX_TRACKED_FILES {
        return Err(Halt::Fail(Fault::of("Git 跟踪文件超过取证上限")));
    }
    Ok(files)
}

/// A step in the investigation.
pub open spec fn signal(call: SignalCallView) -> RequestView {
    RequestView::Signal(call)
}

/// Checks that a path is that of a regular file inside the project that may be a candidate.
pub open spec fn safe_file(path: Seq<char>, replies: Seq<Reply>, at: nat) -> Run<()> {
    if !may_be_candidate(path) {
        Run::Fail(seq!["受保护路径不能进入候选："@ + path], at)
    } else {
        match in_context(
            asked::<FileFacts>(replies, at, signal(SignalCallView::Inspect { path })),
            "无法读取候选文件元数据："@ + path,
        ) {
            Run::Ask(request) => Run::Ask(request),
            Run::Fail(chain, at) => Run::Fail(chain, at),
            Run::On(facts, at) => if !facts.is_file || facts.is_symlink {
                Run::Fail(seq!["候选文件必须是普通文件："@ + path], at)
            } else {
                match asked::<bool>(replies, at, signal(SignalCallView::IsInside { path })) {
                    Run::Ask(request) => Run::Ask(request),
                    Run::Fail(chain, at) => Run::Fail(chain, at),
                    Run::On(true, at) => Run::On((), at),
                    Run::On(false, at) => Run::Fail(
                        seq!["候选文件越过仓库边界："@ + path],
                        at,
                    ),
                }
            },
        }
    }
}

/// Checks that a path is that of a regular file inside the project that may be a candidate.
pub fn safe_existing_file<'a>(path: &str, journal: &mut Journal<'a>) -> (r: Result<(), Halt<'a>>)
    ensures
        follows(
            *old(journal),
            *final(journal),
            r,
            safe_file(path@, old(journal).all(), old(journal).at()),
        ),
{
    if !candidate_path_allowed(path) {
        return Err(Halt::Fail(Fault::new(concat2("受保护路径不能进入候选：", path))));
    }
    let request = Request::Signal(SignalCall::Inspect { path: path.to_owned() });
    let facts: &'a FileFacts = match journal.ask(request) {
        Ok(facts) => facts,
        Err(halt) => {
            return Err(halt.context(concat2("无法读取候选文件元数据：", path)));
        },
    };
    if !facts.is_file || facts.is_symlink {
        return Err(Halt::Fail(Fault::new(concat2("候选文件必须是普通文件：", path))));
    }
    let inside: &'a bool = journal.ask(
        Request::Signal(SignalCall::IsInside { path: path.to_owned() }),
    )?;
    if *inside {
        Ok(())
    } else {
        Err(Halt::Fail(Fault::new(concat2("候选文件越过仓库边界：", path))))
    }
}

/// Reads a file that was chosen, where so many bytes were read before; gives its bytes and text.
pub open spec fn file_read(
    offered: Seq<Seq<char>>,
    path: Seq<char>,
    before: nat,
    replies: Seq<Reply>,
    at: nat,
) -> Run<(nat, Seq<char>)> {
    if !offered.contains(path) {
        Run::Fail(seq!["DS 选择了未授权文件："@ + path], at)
    } else {
        match safe_file(path, replies, at) {
            Run::Ask(request) => Run::Ask(request),
            Run::Fail(chain, at) => Run::Fail(chain, at),
            Run::On(_, at) => match asked::<Vec<u8>>(
                replies,
                at,
                signal(SignalCallView::Read { path }),
            ) {
                Run::Ask(request) => Run::Ask(request),
                Run::Fail(chain, at) => Run::Fail(chain, at),
                Run::On(bytes, at) => if bytes@.len() > MAX_EVIDENCE_FILE_BYTES {
                    Run::Fail(seq!["取证文件超过 48 KiB："@ + path], at)
                } else if before + bytes@.len() > MAX_EVIDENCE_BYTES {
                    Run::Fail(seq!["取证文件总量超过 64 KiB"@], at)
                } else {
                    match strict(bytes@) {
                        None => Run::Fail(
                            seq!["取证文件不是 UTF-8："@ + path, utf8_complaint(bytes@)],
                            at,
                        ),
                        Some(content) => Run::On((before + bytes@.len(), content), at),
                    }
                },
            },
        }
    }
}

struct FileRead {
    total: usize,
    content: String,
}

impl View for FileRead {
    type V = (nat, Seq<char>);

    closed spec fn view(&self) -> (nat, Seq<char>) {
        (self.total as nat, self.content@)
    }
}

fn read_file<'a>(offered: &Lines, path: &str, before: usize, journal: &mut Journal<'a>) -> (r: Result<
    FileRead,
    Halt<'a>,
>)
    requires
        before <= MAX_EVIDENCE_BYTES,
    ensures
        follows(
            *old(journal),
            *final(journal),
            r,
            file_read(offered@, path@, before as nat, old(journal).all(), old(journal).at()),
        ),
        r matches Ok(found) ==> found@.0 <= MAX_EVIDENCE_BYTES,
{
    if !holds_text(&offered.list, path) {
        return Err(Halt::Fail(Fault::new(concat2("DS 选择了未授权文件：", path))));
    }
    safe_existing_file(path, journal)?;
    let bytes: &'a Vec<u8> = journal.ask(
        Request::Signal(SignalCall::Read { path: path.to_owned() }),
    )?;
    if bytes.len() > MAX_EVIDENCE_FILE_BYTES {
        return Err(Halt::Fail(Fault::new(concat2("取证文件超过 48 KiB：", path))));
    }
    let total: usize = before + bytes.len();
    if total > MAX_EVIDENCE_BYTES {
        return Err(Halt::Fail(Fault::of("取证文件总量超过 64 KiB")));
    }
    match utf8_text(bytes.as_slice()) {
        Ok(content) => Ok(FileRead { total, content }),
        Err(cause) => Err(
            Halt::Fail(Fault::because(concat2("取证文件不是 UTF-8：", path), cause)),
        ),
    }
}

/// Reads the files that were chosen, from a given one on.
pub open spec fn files_read_from(
    offered: Seq<Seq<char>>,
    paths: Seq<Seq<char>>,
    next: nat,
    total: nat,
    files: Seq<(Seq<char>, Seq<char>)>,
    replies: Seq<Reply>,
    at: nat,
) -> Run<Seq<(Seq<char>, Seq<char>)>>
    decreases paths.len() - next,
{
    if next >= paths.len() {
        if files.len() == 0 {
            Run::Fail(seq!["DS 没有选择任何可审计文件"@], at)
        } else {
            Run::On(files, at)
        }
    } else {
        match file_read(offered, paths[next as int], total, replies, at) {
            Run::Ask(request) => Run::Ask(request),
            Run::Fail(chain, at) => Run::Fail(chain, at),
            Run::On(read, at) => files_read_from(
                offered,
                paths,
                next + 1,
                read.0,
                files.push((paths[next as int], read.1)),
                replies,
                at,
            ),
        }
    }
}

/// Files with their contents.
#[derive(Debug)]
pub struct FileEvidence {
    pub files: Vec<(String, String)>,
}

impl View for FileEvidence {
    type V = Seq<(Seq<char>, Seq<char>)>;

    open spec fn view(&self) -> Seq<(Seq<char>, Seq<char>)> {
        file_views(self.files@)
    }
}

/// Reads the files that were chosen.
pub fn read_selected_files<'a>(
    offered: &Lines,
    selection: &'a SignalFileSelection,
    journal: &mut Journal<'a>,
) -> (r: Result<FileEvidence, Halt<'a>>)
    ensures
        follows(
            *old(journal),
            *final(journal),
            r,
            files_read_from(
                offered@,
                texts(selection.paths@),
                0,
                0,
                Seq::empty(),
                old(journal).all(),
                old(journal).at(),
            ),
        ),
{
    let ghost paths = texts(selection.paths@);
    let mut evidence = FileEvidence { files: Vec::new() };
    assert(evidence@ =~= Seq::<(Seq<char>, Seq<char>)>::empty());
    let mut total: usize = 0;
    let mut i: usize = 0;
    while i < selection.paths.len()
        invariant
            i <= selection.paths@.len(),
            paths == texts(selection.paths@),
            total <= MAX_EVIDENCE_BYTES,
            journal.all() == old(journal).all(),
            files_read_from(
                offered@,
                paths,
                0,
                0,
                Seq::empty(),
                old(journal).all(),
                old(journal).at(),
            ) == files_read_from(
                offered@,
                paths,
                i as nat,
                total as nat,
                evidence@,
                journal.all(),
                journal.at(),
            ),
        decreases selection.paths@.len() - i,
    {
        let path = &selection.paths[i];
        assert(paths[i as int] == path@);
        let read = read_file(offered, path.as_str(), total, journal)?;
        total = read.total;
        let ghost before = evidence@;
        evidence.files.push((path.clone(), read.content));
        assert(evidence@ =~= before.push((path@, read@.1)));
        i = i + 1;
    }
    if evidence.files.len() == 0 {
        return Err(Halt::Fail(Fault::of("DS 没有选择任何可审计文件")));
    }
    Ok(evidence)
}

/// Whether an earlier change has the path of a given one.
pub open spec fn is_repeated(changes: Seq<ChangeView>, at: int) -> bool {
    exists|i: int| 0 <= i < at && (#[trigger] changes[i]).path == changes[at].path
}

/// Checks the changes of a candidate, from a given one on, where so many bytes came before.
pub open spec fn changes_checked_from(
    offered: Seq<Seq<char>>,
    changes: Seq<ChangeView>,
    next: nat,
    total: nat,
    replies: Seq<Reply>,
    at: nat,
) -> Run<()>
    decreases changes.len() - next,
{
    if next >= changes.len() {
        Run::On((), at)
    } else {
        let change = changes[next as int];
        if !offered.contains(change.path) {
            Run::Fail(seq!["候选试图修改未授权文件："@ + change.path], at)
        } else if is_repeated(changes, next as int) {
            Run::Fail(seq!["候选重复修改文件："@ + change.path], at)
        } else {
            match safe_file(change.path, replies, at) {
                Run::Ask(request) => Run::Ask(request),
                Run::Fail(chain, at) => Run::Fail(chain, at),
                Run::On(_, at) => if total + utf8_len(change.content) > MAX_CANDIDATE_BYTES {
                    Run::Fail(seq!["候选文件总量超过 768 KiB"@], at)
                } else {
                    changes_checked_from(
                        offered,
                        changes,
                        next + 1,
                        total + utf8_len(change.content),
                        replies,
                        at,
                    )
                },
            }
        }
    }
}

fn find_repeated(changes: &Vec<CandidateChange>, at: usize) -> (r: bool)
    requires
        at < changes@.len(),
    ensures
        r == is_repeated(change_views(changes@), at as int),
{
    let ghost views = change_views(changes@);
    let mut i: usize = 0;
    while i < at
        invariant
            i <= at < changes@.len(),
            views == change_views(changes@),
            forall|j: int| 0 <= j < i ==> (#[trigger] views[j]).path != views[at as int].path,
        decreases at - i,
    {
        assert(views[i as int].path == changes@[i as int].path@);
        assert(views[at as int].path == changes@[at as int].path@);
        if same_text(changes[i].path.as_str(), changes[at].path.as_str()) {
            return true;
        }
        i = i + 1;
    }
    false
}

/// Checks the changes of a candidate: each is of a file of its own that may be a candidate, and
/// together they are not too large.
pub fn validate_candidate_changes<'a>(
    offered: &Lines,
    changes: &Vec<CandidateChange>,
    journal: &mut Journal<'a>,
) -> (r: Result<(), Halt<'a>>)
    ensures
        follows(
            *old(journal),
            *final(journal),
            r,
            changes_checked_from(
                offered@,
                change_views(changes@),
                0,
                0,
                old(journal).all(),
                old(journal).at(),
            ),
        ),
{
    let ghost views = change_views(changes@);
    let mut total: usize = 0;
    let mut i: usize = 0;
    while i < changes.len()
        invariant
            i <= changes@.len(),
            views == change_views(changes@),
            total <= MAX_CANDIDATE_BYTES,
            journal.all() == old(journal).all(),
            changes_checked_from(
                offered@,
                views,
                0,
                0,
                old(journal).all(),
                old(journal).at(),
            ) == changes_checked_from(
                offered@,
                views,
                i as nat,
                total as nat,
                journal.all(),
                journal.at(),
            ),
        decreases changes@.len() - i,
    {
        let change = &changes[i];
        assert(views[i as int] == change@);
        if !holds_text(&offered.list, change.path.as_str()) {
            return Err(
                Halt::Fail(
                    Fault::new(concat2("候选试图修改未授权文件：", change.path.as_str())),
                ),
            );
        }
        if find_repeated(changes, i) {
            return Err(
                Halt::Fail(Fault::new(concat2("候选重复修改文件：", change.path.as_str()))),
            );
        }
        safe_existing_file(change.path.as_str(), journal)?;
        let size: usize = byte_len(change.content.as_str());
        if size > MAX_CANDIDATE_BYTES || total + size > MAX_CANDIDATE_BYTES {
            return Err(Halt::Fail(Fault::of("候选文件总量超过 768 KiB")));
        }
        total = total + size;
        i = i + 1;
    }
    Ok(())
}

/// The files that are offered may all be candidates.
pub proof fn lemma_tracked_may_be_candidates(paths: Seq<Seq<char>>, at: int)
    requires
        0 <= at < candidates_among(paths).len(),
    ensures
        may_be_candidate(candidates_among(paths)[at]),
        paths.contains(candidates_among(paths)[at]),
    decreases paths.len(),
{
    let before = candidates_among(paths.drop_last());
    if may_be_candidate(paths.last()) && at == before.len() {
        assert(paths[paths.len() - 1] == candidates_among(paths)[at]);
    } else {
        lemma_tracked_may_be_candidates(paths.drop_last(), at);
        let path = before[at];
        let i = choose|i: int| 0 <= i < paths.drop_last().len() && paths.drop_last()[i] == path;
        assert(paths[i] == path);
    }
}

/// The bytes of the contents of changes, from one on.
pub open spec fn contents_size(changes: Seq<ChangeView>, next: nat) -> nat
    decreases changes.len() - next,
{
    if next >= changes.len() {
        0
    } else {
        utf8_len(changes[next as int].content) + contents_size(changes, next + 1)
    }
}

proof fn lemma_changes_checked_from(
    offered: Seq<Seq<char>>,
    changes: Seq<ChangeView>,
    next: nat,
    total: nat,
    replies: Seq<Reply>,
    at: nat,
)
    requires
        changes_checked_from(offered, changes, next, total, replies, at) is On,
        total <= MAX_CANDIDATE_BYTES,
    ensures
        forall|i: int|
            next <= i < changes.len() ==> offered.contains((#[trigger] changes[i]).path)
                && may_be_candidate(changes[i].path) && !is_repeated(changes, i),
        total + contents_size(changes, next) <= MAX_CANDIDATE_BYTES,
    decreases changes.len() - next,
{
    if next < changes.len() {
        let change = changes[next as int];
        let checked = safe_file(change.path, replies, at);
        lemma_changes_checked_from(
            offered,
            changes,
            next + 1,
            total + utf8_len(change.content),
            replies,
            checked->On_1,
        );
    }
}

/// Changes that pass their check are each of a file that was offered and may be a candidate, no two
/// of one file, and together they are not too large.
pub proof fn lemma_checked_changes(
    offered: Seq<Seq<char>>,
    changes: Seq<ChangeView>,
    replies: Seq<Reply>,
    at: nat,
)
    requires
        changes_checked_from(offered, changes, 0, 0, replies, at) is On,
    ensures
        forall|i: int|
            0 <= i < changes.len() ==> offered.contains((#[trigger] changes[i]).path)
                && may_be_candidate(changes[i].path) && !is_repeated(changes, i),
        contents_size(changes, 0) <= MAX_CANDIDATE_BYTES,
{
    lemma_changes_checked_from(offered, changes, 0, 0, replies, at);
}

} // verus!

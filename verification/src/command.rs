//! Commands of git that have no call of their own.

use vstd::prelude::*;

use crate::calls::git::{GitCall, GitView};
use crate::calls::{Request, RequestView, Tree};
use crate::fault::Fault;
use crate::journal::{asked, follows, Halt, Journal, Reply, Run};
use crate::repo::CommandOutput;
use crate::text::{concat2, push_text, texts, trim, trimmed};

verus! {

/// A call of git in a tree.
pub open spec fn git(tree: Tree, call: GitView) -> RequestView {
    RequestView::Git(tree, call)
}

/// What a command prints; where it fails, that is said with a message.
pub open spec fn commanded(
    tree: Tree,
    args: Seq<Seq<char>>,
    message: Seq<char>,
    replies: Seq<Reply>,
    at: nat,
) -> Run<Seq<char>> {
    match asked::<CommandOutput>(replies, at, git(tree, GitView::Run { args })) {
        Run::Ask(request) => Run::Ask(request),
        Run::Fail(chain, at) => Run::Fail(chain, at),
        Run::On(output, at) => if output.succeeded() {
            Run::On(output.stdout@, at)
        } else {
            Run::Fail(seq![message + trimmed(output.stderr@)], at)
        },
    }
}

/// What a command prints; where it fails, that is said with a message.
pub fn command<'a>(tree: Tree, args: Vec<String>, message: &str, journal: &mut Journal<'a>) -> (r:
    Result<String, Halt<'a>>)
    ensures
        follows(
            *old(journal),
            *final(journal),
            r,
            commanded(tree, texts(args@), message@, old(journal).all(), old(journal).at()),
        ),
{
    let output: &'a CommandOutput = journal.ask(Request::Git(tree, GitCall::Run { args }))?;
    if output.success() {
        return Ok(output.stdout.clone());
    }
    let stderr = trim(output.stderr.as_str());
    Err(Halt::Fail(Fault::new(concat2(message, stderr.as_str()))))
}

/// What a command prints, whether it fails or not.
pub open spec fn printed(tree: Tree, args: Seq<Seq<char>>, replies: Seq<Reply>, at: nat) -> Run<
    Seq<char>,
> {
    match asked::<CommandOutput>(replies, at, git(tree, GitView::Run { args })) {
        Run::Ask(request) => Run::Ask(request),
        Run::Fail(chain, at) => Run::Fail(chain, at),
        Run::On(output, at) => Run::On(output.stdout@, at),
    }
}

/// What a command prints, whether it fails or not.
pub fn print<'a>(tree: Tree, args: Vec<String>, journal: &mut Journal<'a>) -> (r: Result<
    String,
    Halt<'a>,
>)
    ensures
        follows(
            *old(journal),
            *final(journal),
            r,
            printed(tree, texts(args@), old(journal).all(), old(journal).at()),
        ),
{
    let output: &'a CommandOutput = journal.ask(Request::Git(tree, GitCall::Run { args }))?;
    Ok(output.stdout.clone())
}

/// The commit that a reference stands for.
pub open spec fn resolved_ref(tree: Tree, name: Seq<char>, replies: Seq<Reply>, at: nat) -> Run<
    Seq<char>,
> {
    match printed(tree, seq!["rev-parse"@, name], replies, at) {
        Run::Ask(request) => Run::Ask(request),
        Run::Fail(chain, at) => Run::Fail(chain, at),
        Run::On(stdout, at) => Run::On(trimmed(stdout), at),
    }
}

/// The commit that a reference stands for.
pub fn resolve_ref<'a>(tree: Tree, name: &str, journal: &mut Journal<'a>) -> (r: Result<
    String,
    Halt<'a>,
>)
    ensures
        follows(
            *old(journal),
            *final(journal),
            r,
            resolved_ref(tree, name@, old(journal).all(), old(journal).at()),
        ),
{
    let args = args2("rev-parse", name);
    let stdout = print(tree, args, journal)?;
    Ok(trim(stdout.as_str()))
}

/// Two arguments.
pub fn args2(first: &str, second: &str) -> (r: Vec<String>)
    ensures
        texts(r@) == seq![first@, second@],
{
    let mut args: Vec<String> = Vec::new();
    args.push(first.to_owned());
    args.push(second.to_owned());
    assert(texts(args@) =~= seq![first@, second@]);
    args
}

/// Three arguments.
pub fn args3(first: &str, second: &str, third: &str) -> (r: Vec<String>)
    ensures
        texts(r@) == seq![first@, second@, third@],
{
    let mut args: Vec<String> = Vec::new();
    args.push(first.to_owned());
    args.push(second.to_owned());
    args.push(third.to_owned());
    assert(texts(args@) =~= seq![first@, second@, third@]);
    args
}

/// The arguments with which git adds a worktree.
pub open spec fn worktree_args(worktree: Seq<char>, start: Seq<char>) -> Seq<Seq<char>> {
    seq!["worktree"@, "add"@, "--detach"@, worktree, start]
}

/// The arguments with which git adds a worktree.
pub fn add_worktree_args(worktree: &str, start: &str) -> (r: Vec<String>)
    ensures
        texts(r@) == worktree_args(worktree@, start@),
{
    let mut args = args3("worktree", "add", "--detach");
    push_text(&mut args, worktree.to_owned());
    push_text(&mut args, start.to_owned());
    assert(texts(args@) =~= worktree_args(worktree@, start@));
    args
}

} // verus!

//! How a repository is brought to a commit: one question to git at a time.

use vstd::prelude::*;
use crate::arch;
use crate::arch::ascii_uppercase;
use crate::failure::{failure, outcome, Failure, Messages};
use crate::model::Text;
use crate::names;
use crate::paths;
use crate::paths::{display_path, is_absolute_on, HostPlatform};
use crate::text;
use crate::text::{
    cat2, cat3, cat4, cat5, chars_of, lines, put, same, starts_with, trim, words2, words3, words4,
    words5, Dup,
};

verus! {

/// A hexadecimal digit.
pub open spec fn is_hex_digit(c: char) -> bool {
    names::is_digit(c) || ('a' <= c <= 'f') || ('A' <= c <= 'F')
}

/// Whether a reference is the full name of a commit.
pub open spec fn names_commit(reference: Text) -> bool {
    reference.len() == 40 && forall|i: int|
        0 <= i < reference.len() ==> is_hex_digit(#[trigger] reference[i])
}

pub fn is_full_git_commit_reference(reference: &str) -> (yes: bool)
    ensures
        yes == names_commit(reference@),
{
    let chars = chars_of(reference);
    if chars.len() != 40 {
        return false;
    }
    let mut index: usize = 0;
    while index < chars.len()
        invariant
            index <= chars.len(),
            chars@ == reference@,
            forall|i: int| 0 <= i < index ==> is_hex_digit(#[trigger] reference@[i]),
        decreases chars.len() - index,
    {
        let c: char = chars[index];
        if !(('0' <= c && c <= '9') || ('a' <= c && c <= 'f') || ('A' <= c && c <= 'F')) {
            assert(!is_hex_digit(reference@[index as int]));
            return false;
        }
        index = index + 1;
    }
    true
}

/// Whether two texts differ in the case of ASCII letters only.
pub open spec fn same_letters(left: Text, right: Text) -> bool {
    arch::uppercase(left) == arch::uppercase(right)
}

fn same_ignoring_case(left: &str, right: &str) -> (yes: bool)
    ensures
        yes == same_letters(left@, right@),
{
    same(&ascii_uppercase(left), &ascii_uppercase(right))
}

/// What git is given to clone.
pub open spec fn clone_argument(platform: HostPlatform, url: Text) -> Text {
    if platform == HostPlatform::Windows && paths::windows_absolute(url) {
        paths::shown_path(platform, url)
    } else {
        url
    }
}

pub fn git_source_command_argument(platform: HostPlatform, url: &str) -> (argument: String)
    ensures
        argument@ == clone_argument(platform, url@),
{
    if platform == HostPlatform::Windows && is_absolute_on(platform, url) {
        display_path(platform, url)
    } else {
        url.to_owned()
    }
}

/// What two names of one repository have in common.
pub open spec fn repository(platform: HostPlatform, url: Text) -> Text {
    if platform != HostPlatform::Windows {
        url
    } else if paths::windows_absolute(url) {
        paths::shown_path(platform, url)
    } else {
        text::replaced(url, '\\', "/"@)
    }
}

pub fn git_source_identity(platform: HostPlatform, url: &str) -> (identity: String)
    ensures
        identity@ == repository(platform, url@),
{
    if platform != HostPlatform::Windows {
        url.to_owned()
    } else if is_absolute_on(platform, url) {
        display_path(platform, url)
    } else {
        text::replace(url, '\\', "/")
    }
}

/// Whether the remote that git reports is the repository `url`.
pub open spec fn remote_matches(platform: HostPlatform, remote: Option<Text>, url: Text) -> bool {
    match remote {
        Some(remote) => repository(platform, text::trimmed(remote)) == repository(platform, url),
        None => false,
    }
}

pub fn git_remote_matches_url(platform: HostPlatform, remote: &Option<String>, url: &str) -> (yes:
    bool)
    ensures
        yes == remote_matches(platform, remote.deep_view(), url@),
{
    match remote {
        Some(remote) => same(
            &git_source_identity(platform, &trim(remote)),
            &git_source_identity(platform, url),
        ),
        None => false,
    }
}

/// Whether the status that git reports shows nothing changed.
pub open spec fn shows_clean(status: Option<Text>) -> bool {
    match status {
        Some(status) => text::trimmed(status).len() == 0,
        None => false,
    }
}

pub fn git_worktree_clean(status: &Option<String>) -> (yes: bool)
    ensures
        yes == shows_clean(status.deep_view()),
{
    match status {
        Some(status) => trim(status).as_str().is_empty(),
        None => false,
    }
}

/// Whether a line of the status of submodules shows one that is up to date, or nothing.
pub open spec fn shows_ready(line: Text) -> bool {
    text::trimmed(line).len() == 0 || text::has_prefix(line, " "@)
}

/// Whether all lines of a status show submodules that are up to date.
pub open spec fn all_ready(status: Text) -> bool {
    let all = text::lines_of(status);
    forall|i: int| 0 <= i < all.len() ==> shows_ready(#[trigger] all[i])
}

/// Whether all submodules are up to date as far as they are wanted.
pub open spec fn submodules_ready(status: Option<Text>, wanted: bool) -> bool {
    if !wanted {
        true
    } else {
        match status {
            Some(status) => all_ready(status),
            None => false,
        }
    }
}

pub fn git_submodules_ready(status: &Option<String>, submodules_recursive: bool) -> (yes: bool)
    ensures
        yes == submodules_ready(status.deep_view(), submodules_recursive),
{
    if !submodules_recursive {
        return true;
    }
    let printed = match status {
        Some(printed) => printed,
        None => {
            return false;
        },
    };
    let all = lines(printed);
    assert(all.deep_view().len() == all.len());
    let mut index: usize = 0;
    while index < all.len()
        invariant
            index <= all.len(),
            submodules_recursive,
            status.deep_view() == Some(printed@),
            all.deep_view() == text::lines_of(printed@),
            all.deep_view().len() == all.len(),
            forall|i: int|
                0 <= i < index ==> shows_ready(#[trigger] text::lines_of(printed@)[i]),
        decreases all.len() - index,
    {
        let line: &str = all[index].as_str();
        assert(all.deep_view()[index as int] == line@);
        if !trim(line).as_str().is_empty() && !starts_with(line, " ") {
            assert(!shows_ready(text::lines_of(printed@)[index as int]));
            assert(!all_ready(printed@));
            return false;
        }
        index = index + 1;
    }
    true
}

/// What is asked of the outside while a repository is brought up to date.
#[derive(Clone, Debug, PartialEq, Eq)]
pub enum GitAction {
    /// Remove what stands at the source root, if anything, and run git with these arguments.
    Clone(Vec<String>),
    /// Run git with these arguments.
    Run(Vec<String>),
    /// Run git with these arguments and report what it printed, or nothing where it found
    /// nothing.
    Ask(Vec<String>),
    /// Run git with these arguments and report whether it succeeded.
    Check(Vec<String>),
    /// The wanted commit is known.
    Finish(String),
}

/// The model of [`GitAction`].
pub enum GitActionView {
    Clone(Seq<Text>),
    Run(Seq<Text>),
    Ask(Seq<Text>),
    Check(Seq<Text>),
    Finish(Text),
}

impl DeepView for GitAction {
    type V = GitActionView;

    open spec fn deep_view(&self) -> GitActionView {
        match self {
            GitAction::Clone(arguments) => GitActionView::Clone(arguments.deep_view()),
            GitAction::Run(arguments) => GitActionView::Run(arguments.deep_view()),
            GitAction::Ask(arguments) => GitActionView::Ask(arguments.deep_view()),
            GitAction::Check(arguments) => GitActionView::Check(arguments.deep_view()),
            GitAction::Finish(commit) => GitActionView::Finish(commit@),
        }
    }
}

/// What came back: what git printed, and whether it succeeded.
#[derive(Clone, Debug, PartialEq, Eq)]
pub struct GitReply {
    pub output: Option<String>,
    pub success: bool,
}

/// The model of [`GitReply`].
pub struct GitReplyView {
    pub output: Option<Text>,
    pub success: bool,
}

impl DeepView for GitReply {
    type V = GitReplyView;

    open spec fn deep_view(&self) -> GitReplyView {
        GitReplyView { output: self.output.deep_view(), success: self.success }
    }
}

/// What the reply that is awaited is about.
#[derive(Clone, Debug, PartialEq, Eq)]
pub enum GitStage {
    /// The remote of what stands at the source root.
    Remote,
    /// A fresh clone.
    Cloned,
    /// The commit that the reference names in full. The flag tells of a fresh clone.
    Exact(bool),
    /// What the remote has.
    Fetched,
    /// The branch that the remote calls its head.
    Head,
    /// Whether the remote has a branch of that name.
    Branch,
    /// The commit of a reference.
    Commit(String),
    /// The submodules of the wanted commit.
    Submodules(String),
    /// Nothing more: the wanted commit is known.
    Finished(String),
}

/// The model of [`GitStage`].
pub enum GitStageView {
    Remote,
    Cloned,
    Exact(bool),
    Fetched,
    Head,
    Branch,
    Commit(Text),
    Submodules(Text),
    Finished(Text),
}

impl DeepView for GitStage {
    type V = GitStageView;

    open spec fn deep_view(&self) -> GitStageView {
        match self {
            GitStage::Remote => GitStageView::Remote,
            GitStage::Cloned => GitStageView::Cloned,
            GitStage::Exact(cloned) => GitStageView::Exact(*cloned),
            GitStage::Fetched => GitStageView::Fetched,
            GitStage::Head => GitStageView::Head,
            GitStage::Branch => GitStageView::Branch,
            GitStage::Commit(reference) => GitStageView::Commit(reference@),
            GitStage::Submodules(commit) => GitStageView::Submodules(commit@),
            GitStage::Finished(commit) => GitStageView::Finished(commit@),
        }
    }
}

/// What comes next: what is awaited, what is to be done, and what the log says.
#[derive(Clone, Debug, PartialEq, Eq)]
pub struct GitTurn {
    pub stage: GitStage,
    pub action: GitAction,
    pub note: String,
}

/// The model of [`GitTurn`].
pub struct GitTurnView {
    pub stage: GitStageView,
    pub action: GitActionView,
    pub note: Text,
}

impl DeepView for GitTurn {
    type V = GitTurnView;

    open spec fn deep_view(&self) -> GitTurnView {
        GitTurnView {
            stage: self.stage.deep_view(),
            action: self.action.deep_view(),
            note: self.note@,
        }
    }
}

/// A repository, the reference that is wanted of it and where it is kept.
#[derive(Clone, Debug, PartialEq, Eq)]
pub struct GitSource {
    pub platform: HostPlatform,
    pub url: String,
    pub reference: String,
    pub submodules_recursive: bool,
    pub source_root: String,
}

/// The model of [`GitSource`].
pub struct GitSourceView {
    pub platform: HostPlatform,
    pub url: Text,
    pub reference: Text,
    pub submodules_recursive: bool,
    pub source_root: Text,
}

impl DeepView for GitSource {
    type V = GitSourceView;

    open spec fn deep_view(&self) -> GitSourceView {
        GitSourceView {
            platform: self.platform,
            url: self.url@,
            reference: self.reference@,
            submodules_recursive: self.submodules_recursive,
            source_root: self.source_root@,
        }
    }
}

/// A turn that says nothing.
pub open spec fn quietly(stage: GitStageView, action: GitActionView) -> GitTurnView {
    GitTurnView { stage, action, note: ""@ }
}

/// Clones the repository.
pub open spec fn clone_turn(source: GitSourceView) -> GitTurnView {
    quietly(
        GitStageView::Cloned,
        GitActionView::Clone(
            seq![
                "clone"@,
                clone_argument(source.platform, source.url),
                paths::shown_path(source.platform, source.source_root),
            ],
        ),
    )
}

fn take_clone_turn(source: &GitSource) -> (turn: GitTurn)
    ensures
        turn.deep_view() == clone_turn(source.deep_view()),
{
    let argument = git_source_command_argument(source.platform, &source.url);
    GitTurn {
        stage: GitStage::Cloned,
        action: GitAction::Clone(
            words3("clone", &argument, &display_path(source.platform, &source.source_root)),
        ),
        note: "".to_owned(),
    }
}

/// Finds out what the wanted reference is called here.
pub open spec fn reference_turn(source: GitSourceView) -> GitTurnView {
    if source.reference == "HEAD"@ {
        quietly(
            GitStageView::Head,
            GitActionView::Ask(
                seq!["symbolic-ref"@, "--quiet"@, "--short"@, "refs/remotes/origin/HEAD"@],
            ),
        )
    } else {
        quietly(
            GitStageView::Branch,
            GitActionView::Check(
                seq![
                    "show-ref"@,
                    "--verify"@,
                    "--quiet"@,
                    "refs/remotes/origin/"@ + source.reference,
                ],
            ),
        )
    }
}

fn take_reference_turn(source: &GitSource) -> (turn: GitTurn)
    ensures
        turn.deep_view() == reference_turn(source.deep_view()),
{
    if same(&source.reference, "HEAD") {
        GitTurn {
            stage: GitStage::Head,
            action: GitAction::Ask(
                words4("symbolic-ref", "--quiet", "--short", "refs/remotes/origin/HEAD"),
            ),
            note: "".to_owned(),
        }
    } else {
        let name = cat2("refs/remotes/origin/", &source.reference);
        GitTurn {
            stage: GitStage::Branch,
            action: GitAction::Check(words4("show-ref", "--verify", "--quiet", &name)),
            note: "".to_owned(),
        }
    }
}

/// Fetches what the remote has, unless it was just cloned.
pub open spec fn fetch_turn(source: GitSourceView, cloned: bool) -> GitTurnView {
    if cloned {
        reference_turn(source)
    } else {
        quietly(
            GitStageView::Fetched,
            GitActionView::Run(seq!["fetch"@, "--tags"@, "--force"@, "--prune"@, "origin"@]),
        )
    }
}

fn take_fetch_turn(source: &GitSource, cloned: bool) -> (turn: GitTurn)
    ensures
        turn.deep_view() == fetch_turn(source.deep_view(), cloned),
{
    if cloned {
        take_reference_turn(source)
    } else {
        GitTurn {
            stage: GitStage::Fetched,
            action: GitAction::Run(words5("fetch", "--tags", "--force", "--prune", "origin")),
            note: "".to_owned(),
        }
    }
}

/// Looks for a commit that is named in full before anything is fetched.
pub open spec fn exact_turn(source: GitSourceView, cloned: bool) -> GitTurnView {
    if names_commit(source.reference) {
        quietly(
            GitStageView::Exact(cloned),
            GitActionView::Ask(
                seq!["rev-parse"@, "--verify"@, "--quiet"@, source.reference + "^{commit}"@],
            ),
        )
    } else {
        fetch_turn(source, cloned)
    }
}

fn take_exact_turn(source: &GitSource, cloned: bool) -> (turn: GitTurn)
    ensures
        turn.deep_view() == exact_turn(source.deep_view(), cloned),
{
    if is_full_git_commit_reference(&source.reference) {
        let name = cat2(&source.reference, "^{commit}");
        GitTurn {
            stage: GitStage::Exact(cloned),
            action: GitAction::Ask(words4("rev-parse", "--verify", "--quiet", &name)),
            note: "".to_owned(),
        }
    } else {
        take_fetch_turn(source, cloned)
    }
}

/// Asks for the commit of a reference.
pub open spec fn commit_turn(reference: Text) -> GitTurnView {
    quietly(
        GitStageView::Commit(reference),
        GitActionView::Ask(seq!["rev-parse"@, reference]),
    )
}

fn take_commit_turn(reference: String) -> (turn: GitTurn)
    ensures
        turn.deep_view() == commit_turn(reference@),
{
    let arguments = words2("rev-parse", &reference);
    GitTurn {
        stage: GitStage::Commit(reference),
        action: GitAction::Ask(arguments),
        note: "".to_owned(),
    }
}

/// The wanted commit, with what the log says.
pub open spec fn finish_turn(commit: Text, note: Text) -> GitTurnView {
    GitTurnView {
        stage: GitStageView::Finished(commit),
        action: GitActionView::Finish(commit),
        note,
    }
}

fn take_finish_turn(commit: String, note: String) -> (turn: GitTurn)
    ensures
        turn.deep_view() == finish_turn(commit@, note@),
{
    GitTurn {
        stage: GitStage::Finished(commit.dup()),
        action: GitAction::Finish(commit),
        note,
    }
}

/// What the log says of a commit that was named in full and needs nothing more.
pub open spec fn exact_note(source: GitSourceView) -> Text {
    "resolved exact git commit "@ + source.reference + " without additional fetch work\n"@
}

/// How the search for the wanted commit starts, from whether something stands at the source root
/// and whether that is a repository.
pub open spec fn first_turn(source: GitSourceView, exists: bool, worktree: bool) -> GitTurnView {
    let turn = if exists && worktree {
        quietly(
            GitStageView::Remote,
            GitActionView::Ask(seq!["config"@, "--get"@, "remote.origin.url"@]),
        )
    } else {
        clone_turn(source)
    };
    GitTurnView {
        note: "resolve git "@ + source.url + " "@ + source.reference + "\n"@,
        ..turn
    }
}

pub fn begin_git_source(source: &GitSource, exists: bool, worktree: bool) -> (turn: GitTurn)
    ensures
        turn.deep_view() == first_turn(source.deep_view(), exists, worktree),
{
    let turn = if exists && worktree {
        GitTurn {
            stage: GitStage::Remote,
            action: GitAction::Ask(words3("config", "--get", "remote.origin.url")),
            note: "".to_owned(),
        }
    } else {
        take_clone_turn(source)
    };
    GitTurn {
        stage: turn.stage,
        action: turn.action,
        note: cat5("resolve git ", &source.url, " ", &source.reference, "\n"),
    }
}

/// What comes after the commit of the wanted reference.
pub open spec fn after_commit(source: GitSourceView, commit: Text) -> GitTurnView {
    if !names_commit(source.reference) || !same_letters(commit, source.reference) {
        finish_turn(commit, ""@)
    } else if source.submodules_recursive {
        quietly(
            GitStageView::Submodules(commit),
            GitActionView::Ask(seq!["submodule"@, "status"@, "--recursive"@]),
        )
    } else {
        finish_turn(commit, exact_note(source))
    }
}

fn take_after_commit(source: &GitSource, commit: String) -> (turn: GitTurn)
    ensures
        turn.deep_view() == after_commit(source.deep_view(), commit@),
{
    if !is_full_git_commit_reference(&source.reference) || !same_ignoring_case(
        &commit,
        &source.reference,
    ) {
        take_finish_turn(commit, "".to_owned())
    } else if source.submodules_recursive {
        GitTurn {
            stage: GitStage::Submodules(commit),
            action: GitAction::Ask(words3("submodule", "status", "--recursive")),
            note: "".to_owned(),
        }
    } else {
        take_finish_turn(
            commit,
            cat3(
                "resolved exact git commit ",
                &source.reference,
                " without additional fetch work\n",
            ),
        )
    }
}

/// How the search for the wanted commit goes on when the awaited reply has come.
pub open spec fn next_turn(
    source: GitSourceView,
    stage: GitStageView,
    reply: GitReplyView,
) -> Result<
    GitTurnView,
    Messages,
> {
    match stage {
        GitStageView::Remote => if remote_matches(source.platform, reply.output, source.url) {
            Ok(exact_turn(source, false))
        } else {
            Ok(clone_turn(source))
        },
        GitStageView::Cloned => Ok(exact_turn(source, true)),
        GitStageView::Exact(cloned) => match reply.output {
            Some(commit) => if same_letters(text::trimmed(commit), source.reference) {
                Ok(
                    finish_turn(
                        text::trimmed(commit),
                        "reuse exact git commit "@ + source.reference + " without fetch\n"@,
                    ),
                )
            } else {
                Ok(fetch_turn(source, cloned))
            },
            None => Ok(fetch_turn(source, cloned)),
        },
        GitStageView::Fetched => Ok(reference_turn(source)),
        GitStageView::Head => match reply.output {
            Some(head) => Ok(commit_turn(text::trimmed(head))),
            None => Ok(commit_turn("FETCH_HEAD"@)),
        },
        GitStageView::Branch => if reply.success {
            Ok(commit_turn("refs/remotes/origin/"@ + source.reference))
        } else {
            Ok(commit_turn(source.reference))
        },
        GitStageView::Commit(reference) => match reply.output {
            Some(commit) => Ok(after_commit(source, text::trimmed(commit))),
            None => Err(
                seq![
                    "unable to resolve git reference '"@ + reference + "' under "@
                        + source.source_root,
                ],
            ),
        },
        GitStageView::Submodules(commit) => Ok(
            finish_turn(
                commit,
                if submodules_ready(reply.output, true) {
                    exact_note(source)
                } else {
                    ""@
                },
            ),
        ),
        GitStageView::Finished(commit) => Ok(finish_turn(commit, ""@)),
    }
}

/// Goes on with the search for the wanted commit.
pub fn continue_git_source(
    source: &GitSource,
    stage: &GitStage,
    reply: &GitReply,
) -> (result: Result<
    GitTurn,
    Failure,
>)
    ensures
        outcome(result) == next_turn(source.deep_view(), stage.deep_view(), reply.deep_view()),
{
    match stage {
        GitStage::Remote => if git_remote_matches_url(
            source.platform,
            &reply.output,
            &source.url,
        ) {
            Ok(take_exact_turn(source, false))
        } else {
            Ok(take_clone_turn(source))
        },
        GitStage::Cloned => Ok(take_exact_turn(source, true)),
        GitStage::Exact(cloned) => {
            if let Some(output) = &reply.output {
                let commit = trim(output);
                if same_ignoring_case(&commit, &source.reference) {
                    return Ok(
                        take_finish_turn(
                            commit,
                            cat3(
                                "reuse exact git commit ",
                                &source.reference,
                                " without fetch\n",
                            ),
                        ),
                    );
                }
            }
            Ok(take_fetch_turn(source, *cloned))
        },
        GitStage::Fetched => Ok(take_reference_turn(source)),
        GitStage::Head => match &reply.output {
            Some(head) => Ok(take_commit_turn(trim(head))),
            None => Ok(take_commit_turn("FETCH_HEAD".to_owned())),
        },
        GitStage::Branch => if reply.success {
            Ok(take_commit_turn(cat2("refs/remotes/origin/", &source.reference)))
        } else {
            Ok(take_commit_turn(source.reference.dup()))
        },
        GitStage::Commit(reference) => match &reply.output {
            Some(commit) => Ok(take_after_commit(source, trim(commit))),
            None => Err(
                failure(
                    cat4(
                        "unable to resolve git reference '",
                        reference,
                        "' under ",
                        &source.source_root,
                    ),
                ),
            ),
        },
        GitStage::Submodules(commit) => {
            let note = if git_submodules_ready(&reply.output, true) {
                cat3(
                    "resolved exact git commit ",
                    &source.reference,
                    " without additional fetch work\n",
                )
            } else {
                "".to_owned()
            };
            Ok(take_finish_turn(commit.dup(), note))
        },
        GitStage::Finished(commit) => Ok(take_finish_turn(commit.dup(), "".to_owned())),
    }
}

/// What is to be done to check out the wanted commit.
#[derive(Clone, Debug, PartialEq, Eq)]
pub enum CheckoutAction {
    /// Run git with these arguments and report what it printed.
    Ask(Vec<String>),
    /// Run git with each of these lists of arguments. Then the commit is checked out.
    Run(Vec<Vec<String>>),
}

/// The model of [`CheckoutAction`].
pub enum CheckoutActionView {
    Ask(Seq<Text>),
    Run(Seq<Seq<Text>>),
}

impl DeepView for CheckoutAction {
    type V = CheckoutActionView;

    open spec fn deep_view(&self) -> CheckoutActionView {
        match self {
            CheckoutAction::Ask(arguments) => CheckoutActionView::Ask(arguments.deep_view()),
            CheckoutAction::Run(commands) => CheckoutActionView::Run(commands.deep_view()),
        }
    }
}

/// What the reply that is awaited during a checkout is about.
#[derive(Clone, Copy, Debug, PartialEq, Eq, Structural)]
pub enum CheckoutStage {
    /// The commit that is checked out.
    Current,
    /// What was changed.
    Status,
    /// The submodules.
    Submodules,
    /// Nothing more.
    Finished,
}

/// What comes next during a checkout.
#[derive(Clone, Debug, PartialEq, Eq)]
pub struct CheckoutTurn {
    pub stage: CheckoutStage,
    pub action: CheckoutAction,
    pub note: String,
}

/// The model of [`CheckoutTurn`].
pub struct CheckoutTurnView {
    pub stage: CheckoutStage,
    pub action: CheckoutActionView,
    pub note: Text,
}

impl DeepView for CheckoutTurn {
    type V = CheckoutTurnView;

    open spec fn deep_view(&self) -> CheckoutTurnView {
        CheckoutTurnView {
            stage: self.stage,
            action: self.action.deep_view(),
            note: self.note@,
        }
    }
}

/// How a checkout starts.
pub open spec fn first_checkout_turn() -> CheckoutTurnView {
    CheckoutTurnView {
        stage: CheckoutStage::Current,
        action: CheckoutActionView::Ask(seq!["rev-parse"@, "HEAD"@]),
        note: ""@,
    }
}

pub fn begin_git_checkout() -> (turn: CheckoutTurn)
    ensures
        turn.deep_view() == first_checkout_turn(),
{
    CheckoutTurn {
        stage: CheckoutStage::Current,
        action: CheckoutAction::Ask(words2("rev-parse", "HEAD")),
        note: "".to_owned(),
    }
}

/// What checks a commit out, whatever stands there.
pub open spec fn checkout_commands(commit: Text, submodules: bool) -> Seq<Seq<Text>> {
    let commands = seq![seq!["checkout"@, "--force"@, commit], seq!["clean"@, "-fdx"@]];
    if submodules {
        commands.push(seq!["submodule"@, "update"@, "--init"@, "--recursive"@])
    } else {
        commands
    }
}

/// Checks a commit out.
pub open spec fn checkout_turn(commit: Text, submodules: bool) -> CheckoutTurnView {
    CheckoutTurnView {
        stage: CheckoutStage::Finished,
        action: CheckoutActionView::Run(checkout_commands(commit, submodules)),
        note: "checkout git commit "@ + commit + "\n"@,
    }
}

fn take_checkout_turn(commit: &str, submodules: bool) -> (turn: CheckoutTurn)
    ensures
        turn.deep_view() == checkout_turn(commit@, submodules),
{
    let mut commands: Vec<Vec<String>> = Vec::new();
    assert(commands.deep_view() == Seq::<Seq<Text>>::empty());
    put(&mut commands, words3("checkout", "--force", commit));
    put(&mut commands, words2("clean", "-fdx"));
    if submodules {
        put(&mut commands, words4("submodule", "update", "--init", "--recursive"));
    }
    assert(commands.deep_view() == checkout_commands(commit@, submodules));
    CheckoutTurn {
        stage: CheckoutStage::Finished,
        action: CheckoutAction::Run(commands),
        note: cat3("checkout git commit ", commit, "\n"),
    }
}

/// Keeps what is checked out.
pub open spec fn keep_turn(commit: Text) -> CheckoutTurnView {
    CheckoutTurnView {
        stage: CheckoutStage::Finished,
        action: CheckoutActionView::Run(Seq::empty()),
        note: "reuse clean git checkout "@ + commit + "\n"@,
    }
}

fn take_keep_turn(commit: &str) -> (turn: CheckoutTurn)
    ensures
        turn.deep_view() == keep_turn(commit@),
{
    let commands: Vec<Vec<String>> = Vec::new();
    assert(commands.deep_view() == Seq::<Seq<Text>>::empty());
    CheckoutTurn {
        stage: CheckoutStage::Finished,
        action: CheckoutAction::Run(commands),
        note: cat3("reuse clean git checkout ", commit, "\n"),
    }
}

/// How a checkout goes on when the awaited reply has come: the tree is kept where it is at the
/// wanted commit, nothing was changed and the submodules are up to date.
pub open spec fn next_checkout_turn(
    source_root: Text,
    desired: Text,
    submodules: bool,
    stage: CheckoutStage,
    output: Option<Text>,
) -> Result<CheckoutTurnView, Messages> {
    match stage {
        CheckoutStage::Current => match output {
            None => Err(
                seq!["unable to resolve checked-out commit under "@ + source_root],
            ),
            Some(current) => if text::trimmed(current) == desired {
                Ok(
                    CheckoutTurnView {
                        stage: CheckoutStage::Status,
                        action: CheckoutActionView::Ask(
                            seq!["status"@, "--porcelain"@, "--untracked-files=all"@],
                        ),
                        note: ""@,
                    },
                )
            } else {
                Ok(checkout_turn(desired, submodules))
            },
        },
        CheckoutStage::Status => if !shows_clean(output) {
            Ok(checkout_turn(desired, submodules))
        } else if submodules {
            Ok(
                CheckoutTurnView {
                    stage: CheckoutStage::Submodules,
                    action: CheckoutActionView::Ask(
                        seq!["submodule"@, "status"@, "--recursive"@],
                    ),
                    note: ""@,
                },
            )
        } else {
            Ok(keep_turn(desired))
        },
        CheckoutStage::Submodules => if submodules_ready(output, submodules) {
            Ok(keep_turn(desired))
        } else {
            Ok(checkout_turn(desired, submodules))
        },
        CheckoutStage::Finished => Ok(
            CheckoutTurnView {
                stage: CheckoutStage::Finished,
                action: CheckoutActionView::Run(Seq::empty()),
                note: ""@,
            },
        ),
    }
}

pub fn continue_git_checkout(
    source_root: &str,
    desired_commit: &str,
    submodules_recursive: bool,
    stage: CheckoutStage,
    output: &Option<String>,
) -> (result: Result<CheckoutTurn, Failure>)
    ensures
        outcome(result) == next_checkout_turn(
            source_root@,
            desired_commit@,
            submodules_recursive,
            stage,
            output.deep_view(),
        ),
{
    match stage {
        CheckoutStage::Current => match output {
            None => Err(
                failure(cat2("unable to resolve checked-out commit under ", source_root)),
            ),
            Some(current) => if same(&trim(current), desired_commit) {
                Ok(
                    CheckoutTurn {
                        stage: CheckoutStage::Status,
                        action: CheckoutAction::Ask(
                            words3("status", "--porcelain", "--untracked-files=all"),
                        ),
                        note: "".to_owned(),
                    },
                )
            } else {
                Ok(take_checkout_turn(desired_commit, submodules_recursive))
            },
        },
        CheckoutStage::Status => if !git_worktree_clean(output) {
            Ok(take_checkout_turn(desired_commit, submodules_recursive))
        } else if submodules_recursive {
            Ok(
                CheckoutTurn {
                    stage: CheckoutStage::Submodules,
                    action: CheckoutAction::Ask(words3("submodule", "status", "--recursive")),
                    note: "".to_owned(),
                },
            )
        } else {
            Ok(take_keep_turn(desired_commit))
        },
        CheckoutStage::Submodules => if git_submodules_ready(output, submodules_recursive) {
            Ok(take_keep_turn(desired_commit))
        } else {
            Ok(take_checkout_turn(desired_commit, submodules_recursive))
        },
        CheckoutStage::Finished => {
            let commands: Vec<Vec<String>> = Vec::new();
            assert(commands.deep_view() == Seq::<Seq<Text>>::empty());
            Ok(
                CheckoutTurn {
                    stage: CheckoutStage::Finished,
                    action: CheckoutAction::Run(commands),
                    note: "".to_owned(),
                },
            )
        },
    }
}

} // verus!

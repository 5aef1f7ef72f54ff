//! What the dialogue with git comes to: which commit is taken, and when it is checked out.

use vstd::prelude::*;
use crate::failure::Messages;
use crate::git;
use crate::git::{
    CheckoutActionView, GitActionView, GitReplyView, GitSourceView, GitStageView, GitTurnView,
};
use crate::model::Text;
use crate::paths::HostPlatform;
use crate::text;

verus! {

/// A dialogue with git: what is wanted, what stood at the source root, and the replies so far.
pub struct GitDialogue {
    pub source: GitSourceView,
    pub exists: bool,
    pub worktree: bool,
    pub replies: Seq<GitReplyView>,
}

/// Where a dialogue stands.
pub open spec fn standing(dialogue: GitDialogue) -> Result<GitTurnView, Messages>
    decreases dialogue.replies.len(),
{
    if dialogue.replies.len() == 0 {
        Ok(git::first_turn(dialogue.source, dialogue.exists, dialogue.worktree))
    } else {
        let before = GitDialogue { replies: dialogue.replies.drop_last(), ..dialogue };
        match standing(before) {
            Ok(turn) => git::next_turn(dialogue.source, turn.stage, dialogue.replies.last()),
            Err(messages) => Err(messages),
        }
    }
}

/// The dialogue up to a reply.
pub open spec fn up_to(dialogue: GitDialogue, index: int) -> GitDialogue {
    GitDialogue { replies: dialogue.replies.take(index), ..dialogue }
}

/// Whether the reply at a position answers an action.
pub open spec fn answers(dialogue: GitDialogue, index: int, action: GitActionView) -> bool {
    &&& 0 <= index < dialogue.replies.len()
    &&& standing(up_to(dialogue, index)) matches Ok(turn) && turn.action == action
}

/// The question whether the remote has a branch of that name.
pub open spec fn branch_question(reference: Text) -> GitActionView {
    GitActionView::Check(
        seq!["show-ref"@, "--verify"@, "--quiet"@, "refs/remotes/origin/"@ + reference],
    )
}

/// The question what the remote calls its default branch.
pub open spec fn default_question() -> GitActionView {
    GitActionView::Ask(
        seq!["symbolic-ref"@, "--quiet"@, "--short"@, "refs/remotes/origin/HEAD"@],
    )
}

/// The question for a commit that is named in full.
pub open spec fn exact_question(reference: Text) -> GitActionView {
    GitActionView::Ask(seq!["rev-parse"@, "--verify"@, "--quiet"@, reference + "^{commit}"@])
}

/// The question for the commit of a revision.
pub open spec fn commit_question(revision: Text) -> GitActionView {
    GitActionView::Ask(seq!["rev-parse"@, revision])
}

/// Bringing in what the remote has.
pub open spec fn fetching() -> GitActionView {
    GitActionView::Run(seq!["fetch"@, "--tags"@, "--force"@, "--prune"@, "origin"@])
}

/// Whether the reply at a position shows that a revision is what the wanted reference is called:
/// the branch of the remote where it has one of that name, else the reference itself; for `HEAD`,
/// the default branch of the remote, as far as that is known.
pub open spec fn shows_revision(dialogue: GitDialogue, index: int, revision: Text) -> bool {
    let reference = dialogue.source.reference;
    let reply = dialogue.replies[index];
    if reference == "HEAD"@ {
        answers(dialogue, index, default_question()) && revision == match reply.output {
            Some(name) => text::trimmed(name),
            None => "FETCH_HEAD"@,
        }
    } else {
        answers(dialogue, index, branch_question(reference)) && revision == if reply.success {
            "refs/remotes/origin/"@ + reference
        } else {
            reference
        }
    }
}

/// Whether the reply at a position brought in what the remote has: a clone, or a fetch.
pub open spec fn brings(dialogue: GitDialogue, index: int) -> bool {
    ||| answers(dialogue, index, fetching())
    ||| exists|arguments: Seq<Text>| #[trigger]
        answers(dialogue, index, GitActionView::Clone(arguments))
}

/// Whether what the remote has was brought in.
pub open spec fn was_brought(dialogue: GitDialogue) -> bool {
    exists|i: int| #[trigger] brings(dialogue, i)
}

/// Whether a revision is known to be what the wanted reference is called.
pub open spec fn is_shown(dialogue: GitDialogue, revision: Text) -> bool {
    exists|i: int| 0 <= i < dialogue.replies.len() && #[trigger] shows_revision(
        dialogue,
        i,
        revision,
    )
}

/// Whether a commit is the reply at a position, and that was the answer to the question for the
/// wanted reference: under its full name, or under the revision that it was shown to be, once
/// what the remote has was brought in.
pub open spec fn gives_commit(dialogue: GitDialogue, index: int, commit: Text) -> bool {
    &&& 0 <= index < dialogue.replies.len()
    &&& dialogue.replies[index].output matches Some(output) && text::trimmed(output) == commit
    &&& {
        ||| answers(dialogue, index, exact_question(dialogue.source.reference))
            && git::names_commit(dialogue.source.reference)
        ||| was_brought(up_to(dialogue, index)) && exists|revision: Text|
            #![trigger is_shown(up_to(dialogue, index), revision)]
            answers(dialogue, index, commit_question(revision)) && is_shown(
                up_to(dialogue, index),
                revision,
            )
    }
}

/// Whether a commit is a reply to the question for the wanted reference.
pub open spec fn is_given(dialogue: GitDialogue, commit: Text) -> bool {
    exists|i: int| #[trigger] gives_commit(dialogue, i, commit)
}

/// What is known of a dialogue at each stage.
spec fn sound(dialogue: GitDialogue, turn: GitTurnView) -> bool {
    let reference = dialogue.source.reference;
    &&& turn.action matches GitActionView::Finish(commit) ==> turn.stage
        == GitStageView::Finished(commit)
    &&& match turn.stage {
        GitStageView::Remote => true,
        GitStageView::Cloned => turn.action is Clone,
        GitStageView::Exact(cloned) => turn.action == exact_question(reference)
            && git::names_commit(reference) && (cloned ==> was_brought(dialogue)),
        GitStageView::Fetched => turn.action == fetching(),
        GitStageView::Head => turn.action == default_question() && reference == "HEAD"@
            && was_brought(dialogue),
        GitStageView::Branch => turn.action == branch_question(reference) && reference != "HEAD"@
            && was_brought(dialogue),
        GitStageView::Commit(revision) => turn.action == commit_question(revision) && is_shown(
            dialogue,
            revision,
        ) && was_brought(dialogue),
        GitStageView::Submodules(commit) => is_given(dialogue, commit),
        GitStageView::Finished(commit) => is_given(dialogue, commit),
    }
}

/// The dialogue before its last reply.
spec fn earlier(dialogue: GitDialogue) -> GitDialogue {
    GitDialogue { replies: dialogue.replies.drop_last(), ..dialogue }
}

proof fn lemma_prefixes(dialogue: GitDialogue, index: int)
    requires
        dialogue.replies.len() > 0,
        0 <= index < dialogue.replies.len(),
    ensures
        index < dialogue.replies.len() - 1 ==> up_to(earlier(dialogue), index) == up_to(
            dialogue,
            index,
        ),
        up_to(dialogue, dialogue.replies.len() - 1) == earlier(dialogue),
{
    let replies = dialogue.replies;
    assert(replies.take(replies.len() - 1) == replies.drop_last());
    if index < replies.len() - 1 {
        assert(replies.drop_last().take(index) == replies.take(index));
    }
}

proof fn lemma_answers_stay(dialogue: GitDialogue, index: int, action: GitActionView)
    requires
        dialogue.replies.len() > 0,
        answers(earlier(dialogue), index, action),
    ensures
        answers(dialogue, index, action),
{
    lemma_prefixes(dialogue, index);
}

proof fn lemma_known_stays(dialogue: GitDialogue)
    requires
        dialogue.replies.len() > 0,
    ensures
        was_brought(earlier(dialogue)) ==> was_brought(dialogue),
        forall|revision: Text| #[trigger]
            is_shown(earlier(dialogue), revision) ==> is_shown(dialogue, revision),
        forall|commit: Text| #[trigger]
            is_given(earlier(dialogue), commit) ==> is_given(dialogue, commit),
{
    let before = earlier(dialogue);
    if was_brought(before) {
        let i = choose|i: int| #[trigger] brings(before, i);
        lemma_prefixes(dialogue, i);
        if answers(before, i, fetching()) {
            assert(answers(dialogue, i, fetching()));
        } else {
            let arguments = choose|arguments: Seq<Text>| #[trigger]
                answers(before, i, GitActionView::Clone(arguments));
            assert(answers(dialogue, i, GitActionView::Clone(arguments)));
        }
        assert(brings(dialogue, i));
    }
    assert forall|revision: Text| #[trigger] is_shown(before, revision) implies is_shown(
        dialogue,
        revision,
    ) by {
        let i = choose|i: int| 0 <= i < before.replies.len() && #[trigger] shows_revision(
            before,
            i,
            revision,
        );
        lemma_prefixes(dialogue, i);
        assert(shows_revision(dialogue, i, revision));
    }
    assert forall|commit: Text| #[trigger] is_given(before, commit) implies is_given(
        dialogue,
        commit,
    ) by {
        let i = choose|i: int| #[trigger] gives_commit(before, i, commit);
        lemma_prefixes(dialogue, i);
        assert(gives_commit(dialogue, i, commit));
    }
}

proof fn lemma_dialogues_are_sound(dialogue: GitDialogue)
    ensures
        standing(dialogue) matches Ok(turn) ==> sound(dialogue, turn),
    decreases dialogue.replies.len(),
{
    if dialogue.replies.len() > 0 {
        let before = earlier(dialogue);
        let last = dialogue.replies.len() - 1;
        lemma_dialogues_are_sound(before);
        lemma_known_stays(dialogue);
        lemma_prefixes(dialogue, last);
        if let (Ok(turn), Ok(next)) = (standing(before), standing(dialogue)) {
            assert(answers(dialogue, last, turn.action));
            match turn.stage {
                GitStageView::Cloned => {
                    assert(answers(dialogue, last, GitActionView::Clone(turn.action->Clone_0)));
                    assert(brings(dialogue, last));
                },
                GitStageView::Fetched => {
                    assert(brings(dialogue, last));
                },
                GitStageView::Exact(_) => {
                    if let GitStageView::Finished(commit) = next.stage {
                        assert(gives_commit(dialogue, last, commit));
                    }
                },
                GitStageView::Head => {
                    let revision = next.stage->Commit_0;
                    assert(shows_revision(dialogue, last, revision));
                },
                GitStageView::Branch => {
                    let revision = next.stage->Commit_0;
                    assert(shows_revision(dialogue, last, revision));
                },
                GitStageView::Commit(revision) => {
                    assert(is_shown(up_to(dialogue, last), revision));
                    let commit = text::trimmed(dialogue.replies[last].output->Some_0);
                    assert(gives_commit(dialogue, last, commit));
                },
                _ => {},
            }
        }
    }
}

/// The commit that is taken is what git gave for the wanted reference: for a full name the commit
/// of that name, else the commit of the branch of the remote that has the name, or of the tag or
/// commit where there is no such branch, asked for only after a clone or a fetch. Only for
/// `HEAD` it is that of the default branch.
pub proof fn lemma_wanted_commit_is_taken(dialogue: GitDialogue, commit: Text)
    requires
        standing(dialogue) matches Ok(turn) && turn.action == GitActionView::Finish(commit),
    ensures
        is_given(dialogue, commit),
{
    lemma_dialogues_are_sound(dialogue);
}

/// The only revisions that git is ever asked the commit of are the wanted reference itself, the
/// branch of the remote of that name and, for `HEAD`, what the remote calls its default branch.
pub proof fn lemma_no_other_revision_is_asked_for(dialogue: GitDialogue, revision: Text)
    requires
        standing(dialogue) matches Ok(turn) && turn.action == commit_question(revision),
    ensures
        is_shown(dialogue, revision),
        dialogue.source.reference != "HEAD"@ ==> revision == dialogue.source.reference || revision
            == "refs/remotes/origin/"@ + dialogue.source.reference,
{
    lemma_dialogues_are_sound(dialogue);
    let turn = standing(dialogue)->Ok_0;
    lemma_questions_differ(revision, dialogue.source.reference);
    if dialogue.replies.len() == 0 {
        lemma_first_questions(dialogue, revision);
    }
    lemma_asked_in_stage(dialogue, revision);
}

proof fn lemma_questions_differ(revision: Text, reference: Text)
    ensures
        commit_question(revision) != default_question(),
        commit_question(revision) != exact_question(reference),
        commit_question(revision) != GitActionView::Ask(
            seq!["config"@, "--get"@, "remote.origin.url"@],
        ),
        commit_question(revision) != GitActionView::Ask(
            seq!["submodule"@, "status"@, "--recursive"@],
        ),
{
    let asked = seq!["rev-parse"@, revision];
    assert(asked.len() == 2);
    assert(seq!["config"@, "--get"@, "remote.origin.url"@].len() == 3);
    assert(seq!["submodule"@, "status"@, "--recursive"@].len() == 3);
    assert(seq!["symbolic-ref"@, "--quiet"@, "--short"@, "refs/remotes/origin/HEAD"@].len() == 4);
    assert(seq!["rev-parse"@, "--verify"@, "--quiet"@, reference + "^{commit}"@].len() == 4);
}

proof fn lemma_first_questions(dialogue: GitDialogue, revision: Text)
    requires
        dialogue.replies.len() == 0,
    ensures
        standing(dialogue) matches Ok(turn) && turn.action != commit_question(revision),
{
    lemma_questions_differ(revision, dialogue.source.reference);
}

proof fn lemma_asked_in_stage(dialogue: GitDialogue, revision: Text)
    requires
        dialogue.replies.len() > 0,
        standing(dialogue) matches Ok(turn) && turn.action == commit_question(revision),
    ensures
        standing(dialogue) matches Ok(turn) && turn.stage == GitStageView::Commit(revision),
{
    lemma_questions_differ(revision, dialogue.source.reference);
    lemma_dialogues_are_sound(dialogue);
    let before = earlier(dialogue);
    let turn = standing(dialogue)->Ok_0;
    if let GitStageView::Commit(other) = turn.stage {
        assert(seq!["rev-parse"@, revision][1] == revision);
        assert(seq!["rev-parse"@, other][1] == other);
    }
}

/// A repository that is there is used if and only if its remote is the wanted one; else it is
/// cloned, from the wanted place to the source root.
pub proof fn lemma_the_wanted_repository_is_used(
    source: GitSourceView,
    exists: bool,
    worktree: bool,
    reply: GitReplyView,
)
    requires
        source.platform != HostPlatform::Windows,
        text::replaced(source.source_root, '\\', "/"@) == source.source_root,
    ensures
        ({
            let cloning = GitActionView::Clone(seq!["clone"@, source.url, source.source_root]);
            let first = git::first_turn(source, exists, worktree);
            &&& !(exists && worktree) ==> first.action == cloning
            &&& exists && worktree ==> {
                &&& first.action == GitActionView::Ask(
                    seq!["config"@, "--get"@, "remote.origin.url"@],
                )
                &&& git::next_turn(source, first.stage, reply) matches Ok(next) && (next.action
                    == cloning <==> !(reply.output matches Some(remote) && text::trimmed(remote)
                    == source.url))
            }
        }),
{
    let cloning = GitActionView::Clone(seq!["clone"@, source.url, source.source_root]);
    let first = git::first_turn(source, exists, worktree);
    if exists && worktree {
        let next = git::next_turn(source, first.stage, reply)->Ok_0;
        if reply.output matches Some(remote) && text::trimmed(remote) == source.url {
            assert(next == git::exact_turn(source, false));
            assert(next.action !is Clone);
        }
    }
}

/// What checks a commit out, with its submodules where they are wanted.
pub open spec fn forced_checkout(commit: Text, submodules: bool) -> CheckoutActionView {
    CheckoutActionView::Run(
        seq![seq!["checkout"@, "--force"@, commit], seq!["clean"@, "-fdx"@]] + if submodules {
            seq![seq!["submodule"@, "update"@, "--init"@, "--recursive"@]]
        } else {
            Seq::empty()
        },
    )
}

/// A tree is left as it is only where it is at the wanted commit, nothing in it was changed or
/// added, and its submodules are all up to date if they are wanted; else the commit is checked
/// out by force, and with it the submodules.
pub proof fn lemma_checkouts_bring_the_commit(
    source_root: Text,
    desired: Text,
    submodules: bool,
    current: Option<Text>,
    status: Option<Text>,
    modules: Option<Text>,
)
    ensures
        ({
            let begun = git::first_checkout_turn();
            let first = git::next_checkout_turn(
                source_root,
                desired,
                submodules,
                begun.stage,
                current,
            );
            let forced = forced_checkout(desired, submodules);
            let kept = CheckoutActionView::Run(Seq::empty());
            &&& begun.action == CheckoutActionView::Ask(seq!["rev-parse"@, "HEAD"@])
            &&& first is Err <==> current is None
            &&& current matches Some(commit) ==> {
                let turn = first->Ok_0;
                let second = git::next_checkout_turn(
                    source_root,
                    desired,
                    submodules,
                    turn.stage,
                    status,
                );
                &&& text::trimmed(commit) != desired ==> turn.action == forced
                &&& text::trimmed(commit) == desired ==> {
                    let clean = status matches Some(changes) && text::trimmed(changes).len() == 0;
                    let third = git::next_checkout_turn(
                        source_root,
                        desired,
                        submodules,
                        second->Ok_0.stage,
                        modules,
                    );
                    let ready = modules matches Some(lines) && forall|i: int|
                        0 <= i < text::lines_of(lines).len() ==> is_up_to_date(
                            #[trigger] text::lines_of(lines)[i],
                        );
                    &&& turn.action == CheckoutActionView::Ask(
                        seq!["status"@, "--porcelain"@, "--untracked-files=all"@],
                    )
                    &&& second is Ok
                    &&& !clean ==> second->Ok_0.action == forced
                    &&& clean && !submodules ==> second->Ok_0.action == kept
                    &&& clean && submodules ==> {
                        &&& second->Ok_0.action == CheckoutActionView::Ask(
                            seq!["submodule"@, "status"@, "--recursive"@],
                        )
                        &&& third is Ok
                        &&& third->Ok_0.action == if ready {
                            kept
                        } else {
                            forced
                        }
                    }
                }
            }
        }),
{
    reveal_strlit(" ");
    assert(" "@ == seq![' ']);
    assert(forced_checkout(desired, submodules) == CheckoutActionView::Run(
        git::checkout_commands(desired, submodules),
    )) by {
        assert(git::checkout_commands(desired, submodules) == seq![
            seq!["checkout"@, "--force"@, desired],
            seq!["clean"@, "-fdx"@],
        ] + if submodules {
            seq![seq!["submodule"@, "update"@, "--init"@, "--recursive"@]]
        } else {
            Seq::empty()
        });
    }
    if let Some(lines) = modules {
        let all = text::lines_of(lines);
        assert forall|i: int| 0 <= i < all.len() implies is_up_to_date(#[trigger] all[i])
            == git::shows_ready(all[i]) by {
            if all[i].len() > 0 {
                assert(all[i].subrange(0, 1) == seq![all[i][0]]);
                assert(seq![' '][0] == ' ' && seq![all[i][0]][0] == all[i][0]);
            }
        }
        if git::all_ready(lines) {
            assert forall|i: int| 0 <= i < all.len() implies is_up_to_date(#[trigger] all[i]) by {
                assert(git::shows_ready(all[i]));
            }
        }
        if forall|i: int| 0 <= i < all.len() ==> is_up_to_date(#[trigger] all[i]) {
            assert forall|i: int| 0 <= i < all.len() implies git::shows_ready(
                #[trigger] all[i],
            ) by {
                assert(is_up_to_date(all[i]));
            }
        }
    }
}

/// Whether a line of the status of submodules is blank, or starts with the space that marks a
/// submodule at its commit.
pub open spec fn is_up_to_date(line: Text) -> bool {
    text::trimmed(line).len() == 0 || (line.len() > 0 && line[0] == ' ')
}

/// A commit is named in full by forty hexadecimal digits, and by nothing else.
pub proof fn lemma_commits_are_named_by_forty_digits(reference: Text)
    ensures
        git::names_commit(reference) <==> reference.len() == 40 && forall|i: int|
            0 <= i < reference.len() ==> ('0' <= #[trigger] reference[i] <= '9') || ('a'
                <= reference[i] <= 'f') || ('A' <= reference[i] <= 'F'),
{
    if git::names_commit(reference) {
        assert forall|i: int| 0 <= i < reference.len() implies ('0' <= #[trigger] reference[i]
            <= '9') || ('a' <= reference[i] <= 'f') || ('A' <= reference[i] <= 'F') by {
            assert(git::is_hex_digit(reference[i]));
        }
    } else if reference.len() == 40 {
        let i = choose|i: int|
            0 <= i < reference.len() && !git::is_hex_digit(#[trigger] reference[i]);
        assert(!(('0' <= reference[i] <= '9') || ('a' <= reference[i] <= 'f') || ('A'
            <= reference[i] <= 'F')));
    }
}

} // verus!

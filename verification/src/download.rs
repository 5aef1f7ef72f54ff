//! How an archive is brought up to date and what is checked of it.

use vstd::prelude::*;
use crate::failure::{failure, outcome, Failure, Messages};
use crate::model::Text;
use crate::names;
use crate::paths;
use crate::paths::{ensure_archive_member_path_safe, HostPlatform};
use crate::text;
use crate::text::{
    cat3, cat5, cat6, chars_of, lines, put, same, strip_prefix, words2, words5, Dup,
};

verus! {

/// The path in a `file` URL. On Windows the slash before a drive is dropped.
pub open spec fn url_file(platform: HostPlatform, url: Text) -> Option<Text> {
    let raw = text::after(url, 7);
    if !text::has_prefix(url, "file://"@) {
        None
    } else if platform == HostPlatform::Windows && raw.len() >= 4 && raw[0] == '/' && raw[2] == ':'
        && names::is_letter(raw[1]) {
        Some(text::after(raw, 1))
    } else {
        Some(raw)
    }
}

pub fn file_url_path(platform: HostPlatform, url: &str) -> (path: Option<String>)
    ensures
        path.deep_view() == url_file(platform, url@),
{
    proof {
        reveal_strlit("file://");
    }
    let raw = match strip_prefix(url, "file://") {
        Some(raw) => raw,
        None => {
            return None;
        },
    };
    let chars = chars_of(&raw);
    if platform == HostPlatform::Windows && chars.len() >= 4 && chars[0] == '/' && chars[2] == ':'
        && (('a' <= chars[1] && chars[1] <= 'z') || ('A' <= chars[1] && chars[1] <= 'Z')) {
        Some(text::slice(&raw, 1, chars.len()))
    } else {
        Some(raw)
    }
}

/// What is asked of the outside while an archive is brought up to date.
#[derive(Clone, Debug, PartialEq, Eq)]
pub enum UrlAction {
    /// Report the digest of the archive.
    HashArchive,
    /// Report the digest of this file.
    HashFile(String),
    /// Run curl with these arguments and report the digest of the archive.
    Download(Vec<String>),
    /// Run tar with these arguments and report the members of the archive as it lists them.
    ListMembers(Vec<String>),
    /// The archive, whose digest this is, is the wanted one and its members are checked.
    Finish(String),
}

/// The model of [`UrlAction`].
pub enum UrlActionView {
    HashArchive,
    HashFile(Text),
    Download(Seq<Text>),
    ListMembers(Seq<Text>),
    Finish(Text),
}

impl DeepView for UrlAction {
    type V = UrlActionView;

    open spec fn deep_view(&self) -> UrlActionView {
        match self {
            UrlAction::HashArchive => UrlActionView::HashArchive,
            UrlAction::HashFile(path) => UrlActionView::HashFile(path@),
            UrlAction::Download(arguments) => UrlActionView::Download(arguments.deep_view()),
            UrlAction::ListMembers(arguments) => UrlActionView::ListMembers(arguments.deep_view()),
            UrlAction::Finish(digest) => UrlActionView::Finish(digest@),
        }
    }
}

/// What is awaited: the digest of a file, or the members of the archive.
#[derive(Clone, Debug, PartialEq, Eq)]
pub enum UrlStage {
    /// That of the archive that was there.
    Cached,
    /// That of the archive as it was downloaded.
    Fresh,
    /// That of the local file that the URL names.
    Local,
    /// That of the archive that was there, to be held against that of the local file.
    CachedLocal(String),
    /// The members of the archive, which has this digest.
    Members(String),
    /// Nothing more: the archive, which has this digest, is accepted.
    Finished(String),
}

/// The model of [`UrlStage`].
pub enum UrlStageView {
    Cached,
    Fresh,
    Local,
    CachedLocal(Text),
    Members(Text),
    Finished(Text),
}

impl DeepView for UrlStage {
    type V = UrlStageView;

    open spec fn deep_view(&self) -> UrlStageView {
        match self {
            UrlStage::Cached => UrlStageView::Cached,
            UrlStage::Fresh => UrlStageView::Fresh,
            UrlStage::Local => UrlStageView::Local,
            UrlStage::CachedLocal(digest) => UrlStageView::CachedLocal(digest@),
            UrlStage::Members(digest) => UrlStageView::Members(digest@),
            UrlStage::Finished(digest) => UrlStageView::Finished(digest@),
        }
    }
}

/// What comes next while an archive is brought up to date.
#[derive(Clone, Debug, PartialEq, Eq)]
pub struct UrlTurn {
    pub stage: UrlStage,
    pub action: UrlAction,
    pub note: String,
}

/// The model of [`UrlTurn`].
pub struct UrlTurnView {
    pub stage: UrlStageView,
    pub action: UrlActionView,
    pub note: Text,
}

impl DeepView for UrlTurn {
    type V = UrlTurnView;

    open spec fn deep_view(&self) -> UrlTurnView {
        UrlTurnView {
            stage: self.stage.deep_view(),
            action: self.action.deep_view(),
            note: self.note@,
        }
    }
}

/// An archive, the digest that is wanted of it and where it is kept.
#[derive(Clone, Debug, PartialEq, Eq)]
pub struct UrlSource {
    pub platform: HostPlatform,
    pub url: String,
    pub sha256: Option<String>,
    pub archive_path: String,
    pub archive_exists: bool,
}

/// The model of [`UrlSource`].
pub struct UrlSourceView {
    pub platform: HostPlatform,
    pub url: Text,
    pub sha256: Option<Text>,
    pub archive_path: Text,
    pub archive_exists: bool,
}

impl DeepView for UrlSource {
    type V = UrlSourceView;

    open spec fn deep_view(&self) -> UrlSourceView {
        UrlSourceView {
            platform: self.platform,
            url: self.url@,
            sha256: self.sha256.deep_view(),
            archive_path: self.archive_path@,
            archive_exists: self.archive_exists,
        }
    }
}

/// What curl is given to download an archive.
pub open spec fn download_arguments(url: Text, archive_path: Text) -> Seq<Text> {
    seq![
        "--fail"@,
        "--location"@,
        "--silent"@,
        "--show-error"@,
        "--output"@,
        archive_path,
        url,
    ]
}

/// Downloads the archive.
pub open spec fn download_turn(source: UrlSourceView) -> UrlTurnView {
    UrlTurnView {
        stage: UrlStageView::Fresh,
        action: UrlActionView::Download(download_arguments(source.url, source.archive_path)),
        note: ""@,
    }
}

fn take_download_turn(source: &UrlSource) -> (turn: UrlTurn)
    ensures
        turn.deep_view() == download_turn(source.deep_view()),
{
    let mut arguments = words5("--fail", "--location", "--silent", "--show-error", "--output");
    put(&mut arguments, source.archive_path.dup());
    put(&mut arguments, source.url.dup());
    assert(arguments.deep_view() == download_arguments(source.url@, source.archive_path@));
    UrlTurn {
        stage: UrlStage::Fresh,
        action: UrlAction::Download(arguments),
        note: "".to_owned(),
    }
}

/// What tar is given to list the members of an archive.
pub open spec fn listing_arguments(archive_path: Text) -> Seq<Text> {
    seq!["-tf"@, archive_path]
}

pub fn archive_listing_arguments(archive_path: &str) -> (arguments: Vec<String>)
    ensures
        arguments.deep_view() == listing_arguments(archive_path@),
{
    words2("-tf", archive_path)
}

/// What is wrong with the first member from position `from` on that would leave the source root.
pub open spec fn members_check(
    platform: HostPlatform,
    entries: Seq<Text>,
    archive: Text,
    from: int,
) -> Result<(), Messages>
    decreases entries.len() - from,
{
    if from >= entries.len() {
        Ok(())
    } else if entries[from].len() == 0 {
        members_check(platform, entries, archive, from + 1)
    } else {
        match paths::member_confinement(platform, entries[from], archive) {
            Err(messages) => Err(messages),
            Ok(_) => members_check(platform, entries, archive, from + 1),
        }
    }
}

/// Checks the members of an archive, as they are listed.
pub fn validate_archive_entries(
    platform: HostPlatform,
    listing: &str,
    archive_path: &str,
) -> (result: Result<(), Failure>)
    ensures
        outcome(result) == members_check(
            platform,
            text::lines_of(listing@),
            archive_path@,
            0,
        ),
{
    let entries = lines(listing);
    let mut from: usize = 0;
    while from < entries.len()
        invariant
            from <= entries.len(),
            entries.deep_view() == text::lines_of(listing@),
            members_check(platform, entries.deep_view(), archive_path@, 0) == members_check(
                platform,
                entries.deep_view(),
                archive_path@,
                from as int,
            ),
        decreases entries.len() - from,
    {
        let entry: &str = entries[from].as_str();
        assert(entries.deep_view()[from as int] == entry@);
        if !entry.is_empty() {
            ensure_archive_member_path_safe(platform, entry, archive_path)?;
        }
        from = from + 1;
    }
    Ok(())
}

/// Whether the archive may be unpacked: its digest, where every listed member stays below the
/// place that it is unpacked to.
pub open spec fn archive_acceptance(source: UrlSourceView, digest: Text, listing: Text) -> Result<
    Text,
    Messages,
> {
    match members_check(source.platform, text::lines_of(listing), source.archive_path, 0) {
        Ok(_) => Ok(digest),
        Err(messages) => Err(messages),
    }
}

/// Accepts an archive with this digest and these members.
pub fn accept_archive(source: &UrlSource, digest: &str, listing: &str) -> (result: Result<
    String,
    Failure,
>)
    ensures
        outcome(result) == archive_acceptance(source.deep_view(), digest@, listing@),
{
    validate_archive_entries(source.platform, listing, &source.archive_path)?;
    Ok(digest.to_owned())
}

/// The archive has the wanted digest, and its members are to be checked.
pub open spec fn members_turn(source: UrlSourceView, digest: Text, note: Text) -> UrlTurnView {
    UrlTurnView {
        stage: UrlStageView::Members(digest),
        action: UrlActionView::ListMembers(listing_arguments(source.archive_path)),
        note,
    }
}

fn take_members_turn(source: &UrlSource, digest: &str, note: String) -> (turn: UrlTurn)
    ensures
        turn.deep_view() == members_turn(source.deep_view(), digest@, note@),
{
    UrlTurn {
        stage: UrlStage::Members(digest.to_owned()),
        action: UrlAction::ListMembers(archive_listing_arguments(&source.archive_path)),
        note,
    }
}

/// The archive is accepted.
pub open spec fn finished_turn(digest: Text) -> UrlTurnView {
    UrlTurnView {
        stage: UrlStageView::Finished(digest),
        action: UrlActionView::Finish(digest),
        note: ""@,
    }
}

fn take_finished_turn(digest: &str) -> (turn: UrlTurn)
    ensures
        turn.deep_view() == finished_turn(digest@),
{
    UrlTurn {
        stage: UrlStage::Finished(digest.to_owned()),
        action: UrlAction::Finish(digest.to_owned()),
        note: "".to_owned(),
    }
}

/// How an archive is brought up to date: the one that is there is looked at first, where the
/// wanted digest is declared or can be had from a local file.
pub open spec fn first_url_turn(source: UrlSourceView) -> UrlTurnView {
    let turn = match source.sha256 {
        Some(_) => if source.archive_exists {
            UrlTurnView {
                stage: UrlStageView::Cached,
                action: UrlActionView::HashArchive,
                note: ""@,
            }
        } else {
            download_turn(source)
        },
        None => match url_file(source.platform, source.url) {
            Some(path) => UrlTurnView {
                stage: UrlStageView::Local,
                action: UrlActionView::HashFile(path),
                note: ""@,
            },
            None => download_turn(source),
        },
    };
    UrlTurnView { note: "resolve url "@ + source.url + "\n"@, ..turn }
}

pub fn begin_url_source(source: &UrlSource) -> (turn: UrlTurn)
    ensures
        turn.deep_view() == first_url_turn(source.deep_view()),
{
    let turn = match &source.sha256 {
        Some(_) => if source.archive_exists {
            UrlTurn {
                stage: UrlStage::Cached,
                action: UrlAction::HashArchive,
                note: "".to_owned(),
            }
        } else {
            take_download_turn(source)
        },
        None => match file_url_path(source.platform, &source.url) {
            Some(path) => UrlTurn {
                stage: UrlStage::Local,
                action: UrlAction::HashFile(path),
                note: "".to_owned(),
            },
            None => take_download_turn(source),
        },
    };
    UrlTurn {
        stage: turn.stage,
        action: turn.action,
        note: cat3("resolve url ", &source.url, "\n"),
    }
}

/// How it goes on when the awaited digest or the list of the members has come.
pub open spec fn next_url_turn(source: UrlSourceView, stage: UrlStageView, reply: Text) -> Result<
    UrlTurnView,
    Messages,
> {
    match stage {
        UrlStageView::Cached => if source.sha256 == Some(reply) {
            Ok(
                members_turn(
                    source,
                    reply,
                    "reuse cached url archive "@ + source.archive_path + " with sha256 "@ + reply
                        + "\n"@,
                ),
            )
        } else {
            Ok(download_turn(source))
        },
        UrlStageView::Fresh => match source.sha256 {
            Some(expected) => if reply != expected {
                Err(
                    seq![
                        "downloaded archive '"@ + source.archive_path
                            + "' sha256 mismatch: expected "@ + expected + ", got "@ + reply,
                    ],
                )
            } else {
                Ok(members_turn(source, reply, ""@))
            },
            None => Ok(members_turn(source, reply, ""@)),
        },
        UrlStageView::Local => if source.archive_exists {
            Ok(
                UrlTurnView {
                    stage: UrlStageView::CachedLocal(reply),
                    action: UrlActionView::HashArchive,
                    note: ""@,
                },
            )
        } else {
            Ok(download_turn(source))
        },
        UrlStageView::CachedLocal(expected) => if reply == expected {
            Ok(
                members_turn(
                    source,
                    reply,
                    "reuse cached file url archive "@ + source.archive_path + " from "@ + (
                    match url_file(source.platform, source.url) {
                        Some(path) => path,
                        None => source.url,
                    }) + "\n"@,
                ),
            )
        } else {
            Ok(download_turn(source))
        },
        UrlStageView::Members(known) => match archive_acceptance(source, known, reply) {
            Ok(accepted) => Ok(finished_turn(accepted)),
            Err(messages) => Err(messages),
        },
        UrlStageView::Finished(known) => Ok(finished_turn(known)),
    }
}

pub fn continue_url_source(source: &UrlSource, stage: &UrlStage, reply: &str) -> (result: Result<
    UrlTurn,
    Failure,
>)
    ensures
        outcome(result) == next_url_turn(source.deep_view(), stage.deep_view(), reply@),
{
    match stage {
        UrlStage::Cached => {
            if let Some(expected) = &source.sha256 {
                if same(expected, reply) {
                    return Ok(
                        take_members_turn(
                            source,
                            reply,
                            cat5(
                                "reuse cached url archive ",
                                &source.archive_path,
                                " with sha256 ",
                                reply,
                                "\n",
                            ),
                        ),
                    );
                }
            }
            Ok(take_download_turn(source))
        },
        UrlStage::Fresh => {
            if let Some(expected) = &source.sha256 {
                if !same(expected, reply) {
                    return Err(
                        failure(
                            cat6(
                                "downloaded archive '",
                                &source.archive_path,
                                "' sha256 mismatch: expected ",
                                expected,
                                ", got ",
                                reply,
                            ),
                        ),
                    );
                }
            }
            Ok(take_members_turn(source, reply, "".to_owned()))
        },
        UrlStage::Local => if source.archive_exists {
            Ok(
                UrlTurn {
                    stage: UrlStage::CachedLocal(reply.to_owned()),
                    action: UrlAction::HashArchive,
                    note: "".to_owned(),
                },
            )
        } else {
            Ok(take_download_turn(source))
        },
        UrlStage::CachedLocal(expected) => if same(expected, reply) {
            let path = match file_url_path(source.platform, &source.url) {
                Some(path) => path,
                None => source.url.dup(),
            };
            Ok(
                take_members_turn(
                    source,
                    reply,
                    cat5(
                        "reuse cached file url archive ",
                        &source.archive_path,
                        " from ",
                        &path,
                        "\n",
                    ),
                ),
            )
        } else {
            Ok(take_download_turn(source))
        },
        UrlStage::Members(known) => match accept_archive(source, known, reply) {
            Ok(accepted) => Ok(take_finished_turn(&accepted)),
            Err(error) => Err(error),
        },
        UrlStage::Finished(known) => Ok(take_finished_turn(known)),
    }
}

/// What tar is given to extract an archive.
pub open spec fn extraction_arguments(archive_path: Text, source_root: Text) -> Seq<Text> {
    seq!["-xf"@, archive_path, "-C"@, source_root, "--strip-components=1"@]
}

pub fn archive_extraction_arguments(archive_path: &str, source_root: &str) -> (arguments: Vec<
    String,
>)
    ensures
        arguments.deep_view() == extraction_arguments(archive_path@, source_root@),
{
    words5("-xf", archive_path, "-C", source_root, "--strip-components=1")
}

} // verus!

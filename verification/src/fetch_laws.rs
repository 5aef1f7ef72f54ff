//! Where sources come from and go to, and when an archive is downloaded, accepted or refused.

use vstd::prelude::*;
use crate::download;
use crate::download::{UrlActionView, UrlSourceView, UrlStageView, UrlTurnView};
use crate::failure::Messages;
use crate::model::{FetchSpecView, PackageSpecView, Text};
use crate::path_laws;
use crate::paths;
use crate::paths::HostPlatform;
use crate::records::SourceProvenanceView;
use crate::source;
use crate::source::SourcePlanView;
use crate::text;
use crate::text_laws;

verus! {

/// Whether a word stands directly behind another.
pub open spec fn follows(words: Seq<Text>, option: Text, value: Text) -> bool {
    exists|i: int| 0 <= i < words.len() - 1 && #[trigger] words[i] == option
        && words[i + 1] == value
}

/// The name of the archive of a URL is what stands behind its last slash.
pub proof fn lemma_archives_are_named_by_their_url(front: Text, name: Text)
    requires
        text_laws::lacks(name, '/'),
    ensures
        name.len() > 0 ==> source::archive_name(front.push('/') + name) == name && (
        source::archive_name(name) == name),
        source::archive_name(front.push('/')) == "source.tar"@,
{
    let empty = Seq::<char>::empty();
    assert(front.push('/') + empty =~= front.push('/'));
    lemma_last_piece(front, name);
    lemma_last_piece(front, empty);
    if name.len() > 0 {
        let sole = seq![name];
        assert(text_laws::with_between(sole, '/') == name);
        text_laws::lemma_pieces_are_what_was_joined(sole, '/');
        assert(text::pieces(name, '/').last() == name);
    }
}

proof fn lemma_last_piece(front: Text, name: Text)
    requires
        text_laws::lacks(name, '/'),
    ensures
        text::pieces(front.push('/') + name, '/').last() == name,
{
    let before = text::pieces(front, '/');
    let all = before.push(name);
    text_laws::lemma_pieces_make_the_text(front, '/');
    assert(all.drop_last() =~= before);
    assert(text_laws::with_between(all, '/') == front.push('/') + name);
    assert forall|k: int| 0 <= k < all.len() implies text_laws::lacks(#[trigger] all[k], '/') by {
        if k < before.len() {
            assert(all[k] == before[k]);
        }
    }
    text_laws::lemma_pieces_are_what_was_joined(all, '/');
}

/// The directory for the downloads of a package.
pub open spec fn download_directory(depos_root: Text, spec: PackageSpecView) -> Text {
    path_laws::placed(
        depos_root + "/"@ + "downloads"@,
        spec.name,
        spec.namespace,
        spec.version,
    )
}

/// Sources are fetched from where the package says, at the reference or with the digest that it
/// says, into a directory of their own.
pub proof fn lemma_sources_are_fetched_as_declared(
    platform: HostPlatform,
    depos_root: Text,
    spec: PackageSpecView,
    front: Text,
    name: Text,
)
    requires
        platform != HostPlatform::Windows,
        path_laws::is_open(depos_root),
        path_laws::is_name(spec.name),
        path_laws::is_name(spec.namespace),
        path_laws::is_name(spec.version),
    ensures
        spec.fetch is None <==> source::source_plan(platform, depos_root, spec) is Err,
        spec.fetch matches Some(FetchSpecView::Git { url, reference }) ==> source::source_plan(
            platform,
            depos_root,
            spec,
        ) == Ok::<SourcePlanView, Messages>(
            SourcePlanView::Git {
                url,
                reference,
                submodules_recursive: spec.git_submodules_recursive,
                download_root: download_directory(depos_root, spec),
                source_root: download_directory(depos_root, spec) + "/"@ + "src"@,
            },
        ),
        spec.fetch matches Some(FetchSpecView::Url { url, sha256 }) ==> (url == front.push('/')
            + name && name.len() > 0 && text_laws::lacks(name, '/') ==> source::source_plan(
            platform,
            depos_root,
            spec,
        ) == Ok::<SourcePlanView, Messages>(
            SourcePlanView::Url {
                url,
                sha256,
                download_root: download_directory(depos_root, spec),
                archive_path: download_directory(depos_root, spec) + "/"@ + name,
                source_root: download_directory(depos_root, spec) + "/"@ + "src"@,
            },
        )),
{
    reveal_strlit("downloads");
    reveal_strlit("src");
    path_laws::lemma_paths_are_joined_with_a_slash(platform, depos_root, "downloads"@);
    let base = depos_root + "/"@ + "downloads"@;
    path_laws::lemma_paths_are_joined_with_a_slash(platform, base, spec.name);
    let one = base + "/"@ + spec.name;
    path_laws::lemma_paths_are_joined_with_a_slash(platform, one, spec.namespace);
    let two = one + "/"@ + spec.namespace;
    path_laws::lemma_paths_are_joined_with_a_slash(platform, two, spec.version);
    let root = download_directory(depos_root, spec);
    path_laws::lemma_paths_are_joined_with_a_slash(platform, root, "src"@);
    if text_laws::lacks(name, '/') && name.len() > 0 {
        lemma_archives_are_named_by_their_url(front, name);
        assert(name[0] != '/' && name[name.len() - 1] != '/');
        path_laws::lemma_paths_are_joined_with_a_slash(platform, root, name);
    }
}

/// What is recorded of sources is the reference and the commit, or the URL and the digest.
pub proof fn lemma_provenance_names_the_sources(plan: SourcePlanView, resolved: Text)
    ensures
        plan is Git ==> source::provenance_of(plan, resolved) == (SourceProvenanceView {
            source_ref: Some(plan->Git_reference),
            source_commit: Some(resolved),
            source_digest: None,
        }),
        plan is Url ==> source::provenance_of(plan, resolved) == (SourceProvenanceView {
            source_ref: Some(plan->Url_url),
            source_commit: None,
            source_digest: Some(resolved),
        }),
{
}

/// Sources are built where they were fetched to, or where the declared part of them, links
/// followed, stands below; a part that is missing or stands elsewhere is refused.
pub proof fn lemma_sources_are_built_where_declared(
    platform: HostPlatform,
    fetched: Text,
    spec: PackageSpecView,
    resolved: Option<(Text, Text)>,
)
    ensures
        spec.source_subdir is None ==> source::source_root_of(platform, fetched, spec, resolved)
            == Ok::<Text, Messages>(fetched),
        spec.source_subdir is Some && resolved is None ==> source::source_root_of(
            platform,
            fetched,
            spec,
            resolved,
        ) is Err,
        spec.source_subdir is Some && resolved is Some ==> (source::source_root_of(
            platform,
            fetched,
            spec,
            resolved,
        ) is Ok <==> paths::below(platform, resolved->Some_0.0, resolved->Some_0.1)),
        spec.source_subdir is Some ==> (source::source_root_of(
            platform,
            fetched,
            spec,
            resolved,
        ) matches Ok(root) ==> resolved is Some && root == resolved->Some_0.0),
{
}

/// Whether what is done next serves to get the archive of a source: a download goes from its URL
/// to its place and fails where the server refuses, and the members of the archive in that place
/// are listed.
pub open spec fn serves(source: UrlSourceView, action: UrlActionView) -> bool {
    match action {
        UrlActionView::Download(words) => {
            &&& words.len() == 7
            &&& follows(words, "--output"@, source.archive_path)
            &&& words.last() == source.url
            &&& words.contains("--fail"@)
            &&& words.contains("--location"@)
            &&& words.contains("--silent"@)
            &&& words.contains("--show-error"@)
        },
        UrlActionView::ListMembers(words) => words == seq!["-tf"@, source.archive_path],
        UrlActionView::HashFile(path) => source.platform != HostPlatform::Windows ==> source.url
            == "file://"@ + path,
        _ => true,
    }
}

proof fn lemma_download_serves(source: UrlSourceView)
    ensures
        serves(source, download::download_turn(source).action),
{
    let words = download::download_arguments(source.url, source.archive_path);
    assert(words[0] == "--fail"@ && words[1] == "--location"@ && words[2] == "--silent"@);
    assert(words[3] == "--show-error"@ && words[4] == "--output"@);
    assert(words[5] == source.archive_path);
    assert(words.last() == source.url);
}

proof fn lemma_file_url(source: UrlSourceView)
    requires
        source.platform != HostPlatform::Windows,
    ensures
        download::url_file(source.platform, source.url) matches Some(path) ==> source.url
            == "file://"@ + path,
        forall|path: Text|
            source.url == #[trigger] ("file://"@ + path) ==> download::url_file(
                source.platform,
                source.url,
            ) == Some(path),
{
    reveal_strlit("file://");
    if let Some(path) = download::url_file(source.platform, source.url) {
        assert(source.url =~= source.url.subrange(0, 7) + path);
    }
    assert forall|path: Text| source.url == #[trigger] ("file://"@ + path) implies download::url_file(
        source.platform,
        source.url,
    ) == Some(path) by {
        assert(source.url.subrange(0, 7) =~= "file://"@);
        assert(text::after(source.url, 7) =~= path);
    }
}

/// Whatever is done to get an archive serves that archive.
pub proof fn lemma_actions_serve_the_archive(
    source: UrlSourceView,
    stage: UrlStageView,
    reply: Text,
)
    ensures
        serves(source, download::first_url_turn(source).action),
        download::next_url_turn(source, stage, reply) matches Ok(turn) ==> serves(
            source,
            turn.action,
        ),
{
    lemma_download_serves(source);
    if source.platform != HostPlatform::Windows {
        lemma_file_url(source);
    }
}

/// Whether the members of the archive that is there come next, its digest being known.
pub open spec fn takes(turn: Result<UrlTurnView, Messages>, digest: Text) -> bool {
    &&& turn is Ok
    &&& turn->Ok_0.stage == UrlStageView::Members(digest)
    &&& turn->Ok_0.action is ListMembers
}

/// Whether the archive is downloaded next.
pub open spec fn downloads(turn: UrlTurnView) -> bool {
    turn.stage == UrlStageView::Fresh && turn.action is Download
}

/// An archive with a declared digest is taken if and only if it has that digest: one that is
/// there is looked at first, and downloaded anew where its digest is another; a downloaded one
/// with another digest is refused.
pub proof fn lemma_declared_digests_decide(source: UrlSourceView, declared: Text, reply: Text)
    requires
        source.sha256 == Some(declared),
    ensures
        source.archive_exists ==> download::first_url_turn(source).stage == UrlStageView::Cached
            && download::first_url_turn(source).action == UrlActionView::HashArchive,
        !source.archive_exists ==> downloads(download::first_url_turn(source)),
        takes(download::next_url_turn(source, UrlStageView::Cached, reply), reply) <==> reply
            == declared,
        reply != declared ==> download::next_url_turn(source, UrlStageView::Cached, reply) is Ok
            && downloads(download::next_url_turn(source, UrlStageView::Cached, reply)->Ok_0),
        takes(download::next_url_turn(source, UrlStageView::Fresh, reply), reply) <==> reply
            == declared,
        download::next_url_turn(source, UrlStageView::Fresh, reply) is Ok <==> reply == declared,
{
}

/// An archive without a declared digest is downloaded and taken as it comes, except that the copy
/// of a local file is kept as long as it is the same as the file.
pub proof fn lemma_local_files_decide(source: UrlSourceView, path: Text, known: Text, reply: Text)
    requires
        source.sha256 is None,
        source.platform != HostPlatform::Windows,
    ensures
        source.url == "file://"@ + path ==> download::first_url_turn(source).stage
            == UrlStageView::Local && download::first_url_turn(source).action
            == UrlActionView::HashFile(path),
        !text::has_prefix(source.url, "file://"@) ==> downloads(download::first_url_turn(source)),
        takes(download::next_url_turn(source, UrlStageView::Fresh, reply), reply),
        download::next_url_turn(source, UrlStageView::Local, reply) is Ok,
        source.archive_exists ==> download::next_url_turn(
            source,
            UrlStageView::Local,
            reply,
        )->Ok_0.stage == UrlStageView::CachedLocal(reply) && download::next_url_turn(
            source,
            UrlStageView::Local,
            reply,
        )->Ok_0.action == UrlActionView::HashArchive,
        !source.archive_exists ==> downloads(
            download::next_url_turn(source, UrlStageView::Local, reply)->Ok_0,
        ),
        takes(download::next_url_turn(source, UrlStageView::CachedLocal(known), reply), reply)
            <==> reply == known,
        reply != known ==> download::next_url_turn(
            source,
            UrlStageView::CachedLocal(known),
            reply,
        ) is Ok && downloads(
            download::next_url_turn(source, UrlStageView::CachedLocal(known), reply)->Ok_0,
        ),
{
    lemma_file_url(source);
}

/// Whether a member of an archive stays below the place that the archive is unpacked to.
pub open spec fn stays_below(platform: HostPlatform, member: Text) -> bool {
    !paths::rooted(platform, member) && !paths::components_of(platform, member).contains(".."@)
}

proof fn lemma_members(platform: HostPlatform, entries: Seq<Text>, archive: Text, from: int)
    requires
        0 <= from <= entries.len(),
    ensures
        download::members_check(platform, entries, archive, from) is Ok <==> forall|i: int|
            from <= i < entries.len() && (#[trigger] entries[i]).len() > 0 ==> stays_below(
                platform,
                entries[i],
            ),
    decreases entries.len() - from,
{
    if from < entries.len() {
        lemma_members(platform, entries, archive, from + 1);
        if entries[from].len() > 0 {
            assert(paths::member_confinement(platform, entries[from], archive) is Ok
                <==> stays_below(platform, entries[from]));
        }
    }
}

/// An archive may be unpacked if and only if every member that is listed stays below the place
/// that it is unpacked to, and then it counts by the digest that is known of it.
pub proof fn lemma_archives_are_unpacked_where_their_members_stay(
    source: UrlSourceView,
    digest: Text,
    members: Seq<Text>,
)
    requires
        forall|k: int|
            0 <= k < members.len() ==> crate::record_laws::line_storable(#[trigger] members[k]),
    ensures
        ({
            let next = download::next_url_turn(
                source,
                UrlStageView::Members(digest),
                crate::record_laws::unlined(members),
            );
            &&& next is Ok <==> forall|i: int|
                0 <= i < members.len() && (#[trigger] members[i]).len() > 0 ==> stays_below(
                    source.platform,
                    members[i],
                )
            &&& next matches Ok(turn) ==> turn.stage == UrlStageView::Finished(digest)
                && turn.action == UrlActionView::Finish(digest)
        }),
{
    crate::record_laws::lemma_lines_of_unlined(members);
    lemma_members(source.platform, members, source.archive_path, 0);
}

/// An archive is unpacked into the directory for its sources, without the directory that it
/// holds.
pub proof fn lemma_archives_are_unpacked_into_their_place(archive_path: Text, source_root: Text)
    ensures
        follows(
            download::extraction_arguments(archive_path, source_root),
            "-xf"@,
            archive_path,
        ),
        follows(download::extraction_arguments(archive_path, source_root), "-C"@, source_root),
        download::extraction_arguments(archive_path, source_root).contains(
            "--strip-components=1"@,
        ),
        download::extraction_arguments(archive_path, source_root).len() == 5,
{
    let words = download::extraction_arguments(archive_path, source_root);
    assert(words[0] == "-xf"@ && words[1] == archive_path);
    assert(words[2] == "-C"@ && words[3] == source_root);
    assert(words[4] == "--strip-components=1"@);
}

} // verus!

//! How paths are made of their components, and where everything stands, on hosts with slashes.

use vstd::prelude::*;
use crate::layout;
use crate::layout::RecordKind;
use crate::model::{PackageSpecView, Text};
use crate::paths;
use crate::paths::HostPlatform;
use crate::text;
use crate::text_laws;

verus! {

/// A name that can be a component of a path.
pub open spec fn is_part(part: Text) -> bool {
    &&& part.len() > 0
    &&& text_laws::lacks(part, '/')
    &&& part != "."@
}

/// A path that does not start where it is joined to another.
pub open spec fn is_relative(path: Text) -> bool {
    path.len() == 0 || path[0] != '/'
}

/// A path that more can be joined to with a slash.
pub open spec fn is_open(path: Text) -> bool {
    path.len() > 0 && path.last() != '/'
}

/// A relative path is joined to another with a slash, an absolute one takes its place.
pub proof fn lemma_paths_are_joined_with_a_slash(platform: HostPlatform, base: Text, path: Text)
    requires
        platform != HostPlatform::Windows,
    ensures
        is_open(base) && is_relative(path) ==> paths::joined_path(platform, base, path) == base
            + "/"@ + path,
        !is_relative(path) ==> paths::joined_path(platform, base, path) == path,
        is_open(base) && is_relative(path) && is_open(path) ==> is_open(
            paths::joined_path(platform, base, path),
        ),
{
    reveal_strlit("/");
    assert("/"@.len() == 1 && "/"@[0] == '/');
    if path.len() > 0 {
        assert(path.subrange(0, 1)[0] == path[0]);
        if path[0] == '/' {
            assert(path.subrange(0, 1) =~= "/"@);
        }
    }
    if base.len() > 0 {
        assert(base.subrange(base.len() - 1, base.len() as int)[0] == base.last());
    }
}

/// Whether all names can be components.
pub open spec fn are_parts(parts: Seq<Text>) -> bool {
    forall|k: int| 0 <= k < parts.len() ==> is_part(#[trigger] parts[k])
}

/// The path of components below the root.
pub open spec fn rooted_at_slash(parts: Seq<Text>) -> Text {
    seq!['/'] + text_laws::with_between(parts, '/')
}

proof fn lemma_first_of_between(x: Text, parts: Seq<Text>, c: char)
    requires
        parts.len() > 0,
    ensures
        text_laws::with_between(seq![x] + parts, c) == x.push(c) + text_laws::with_between(parts, c),
    decreases parts.len(),
{
    let all = seq![x] + parts;
    assert(all.drop_last() =~= seq![x] + parts.drop_last());
    assert(all.last() == parts.last());
    if parts.len() == 1 {
        assert(all.drop_last() =~= seq![x]);
        assert(text_laws::with_between(seq![x], c) == x);
    } else {
        lemma_first_of_between(x, parts.drop_last(), c);
        let inner = text_laws::with_between(parts.drop_last(), c);
        assert((x.push(c) + inner).push(c) + parts.last() =~= x.push(c) + (inner.push(c)
            + parts.last()));
    }
}

proof fn lemma_components_from(parts: Seq<Text>, from: int, done: Seq<Text>)
    requires
        0 <= from <= parts.len(),
        forall|k: int| from <= k < parts.len() ==> is_part(#[trigger] parts[k]),
    ensures
        paths::components_from(parts, from, done) == done + parts.subrange(
            from,
            parts.len() as int,
        ),
    decreases parts.len() - from,
{
    if from < parts.len() {
        assert(is_part(parts[from]));
        lemma_components_from(parts, from + 1, done.push(parts[from]));
        assert(done.push(parts[from]) + parts.subrange(from + 1, parts.len() as int) =~= done
            + parts.subrange(from, parts.len() as int));
    } else {
        assert(done + parts.subrange(from, parts.len() as int) =~= done);
    }
}

pub(crate) proof fn lemma_rooted_pieces(parts: Seq<Text>)
    requires
        parts.len() > 0,
        are_parts(parts),
    ensures
        text::pieces(rooted_at_slash(parts), '/') == seq![Seq::<char>::empty()] + parts,
{
    let empty = Seq::<char>::empty();
    let all = seq![empty] + parts;
    lemma_first_of_between(empty, parts, '/');
    assert(empty.push('/') =~= seq!['/']);
    assert forall|k: int| 0 <= k < all.len() implies text_laws::lacks(#[trigger] all[k], '/') by {
        if k > 0 {
            assert(all[k] == parts[k - 1]);
            assert(is_part(parts[k - 1]));
        }
    }
    text_laws::lemma_pieces_are_what_was_joined(all, '/');
}

/// The components of a path are the names between its slashes, the root counting as one.
pub proof fn lemma_components_are_what_stands_between_slashes(
    platform: HostPlatform,
    parts: Seq<Text>,
)
    requires
        platform != HostPlatform::Windows,
        parts.len() > 0,
        are_parts(parts),
    ensures
        paths::components_of(platform, text_laws::with_between(parts, '/')) == parts,
        paths::components_of(platform, rooted_at_slash(parts)) == seq!["/"@] + parts,
{
    reveal_strlit("/");
    assert("/"@.len() == 1 && "/"@[0] == '/');
    let none = Seq::<Text>::empty();
    let plain = text_laws::with_between(parts, '/');
    assert(text::after(plain, 0) =~= plain);
    assert forall|k: int| 0 <= k < parts.len() implies text_laws::lacks(
        #[trigger] parts[k],
        '/',
    ) by {
        assert(is_part(parts[k]));
    }
    text_laws::lemma_pieces_are_what_was_joined(parts, '/');
    lemma_between_starts(parts);
    assert(is_part(parts[0]));
    assert(plain[0] == parts[0][0]);
    assert(!paths::absolute(plain)) by {
        assert(plain.subrange(0, 1)[0] == plain[0]);
    }
    assert(paths::volume_of(platform, plain).len() == 0);
    assert(paths::first_components(Seq::empty(), plain) =~= none);
    lemma_components_from(parts, 0, none);
    assert(none + parts.subrange(0, parts.len() as int) =~= parts);
    let whole = rooted_at_slash(parts);
    assert(text::after(whole, 0) =~= whole);
    lemma_rooted_pieces(parts);
    assert(paths::absolute(whole)) by {
        assert(whole.subrange(0, 1) =~= "/"@);
    }
    assert(paths::first_components(Seq::empty(), whole) =~= seq!["/"@]);
    let pieces = seq![Seq::<char>::empty()] + parts;
    assert forall|k: int| 1 <= k < pieces.len() implies is_part(#[trigger] pieces[k]) by {
        assert(pieces[k] == parts[k - 1]);
        assert(is_part(parts[k - 1]));
    }
    lemma_components_from(pieces, 1, seq!["/"@]);
    assert(pieces[0].len() == 0);
    assert(pieces.subrange(1, pieces.len() as int) =~= parts);
}

pub(crate) proof fn lemma_between_starts(parts: Seq<Text>)
    requires
        parts.len() > 0,
        are_parts(parts),
    ensures
        text_laws::with_between(parts, '/').len() >= parts[0].len(),
        text_laws::with_between(parts, '/')[0] == parts[0][0],
    decreases parts.len(),
{
    assert(is_part(parts[0]));
    if parts.len() > 1 {
        assert forall|k: int| 0 <= k < parts.len() - 1 implies is_part(
            #[trigger] parts.drop_last()[k],
        ) by {
            assert(parts.drop_last()[k] == parts[k]);
        }
        lemma_between_starts(parts.drop_last());
    }
}

/// A path is below another if and only if its components start with those of the other.
pub proof fn lemma_paths_below_start_with_the_same_components(
    platform: HostPlatform,
    parts: Seq<Text>,
    start: Seq<Text>,
)
    requires
        platform != HostPlatform::Windows,
        parts.len() > 0,
        start.len() > 0,
        are_parts(parts),
        are_parts(start),
    ensures
        paths::below(platform, rooted_at_slash(parts), rooted_at_slash(start)) <==> start.len()
            <= parts.len() && parts.take(start.len() as int) == start,
        paths::same_path(platform, rooted_at_slash(parts), rooted_at_slash(start)) <==> parts
            == start,
        paths::same_path(
            platform,
            text_laws::with_between(parts, '/'),
            text_laws::with_between(start, '/'),
        ) <==> parts == start,
        !paths::same_path(
            platform,
            text_laws::with_between(parts, '/'),
            rooted_at_slash(start),
        ),
{
    reveal_strlit("/");
    assert("/"@.len() == 1 && "/"@[0] == '/');
    lemma_components_are_what_stands_between_slashes(platform, parts);
    lemma_components_are_what_stands_between_slashes(platform, start);
    let whole = seq!["/"@] + parts;
    let other = seq!["/"@] + start;
    if start.len() <= parts.len() {
        if parts.take(start.len() as int) == start {
            assert(whole.take(other.len() as int) =~= other);
        }
        if whole.take(other.len() as int) == other {
            assert forall|k: int| 0 <= k < start.len() implies parts[k] == #[trigger] start[k] by {
                assert(whole.take(other.len() as int)[k + 1] == other[k + 1]);
            }
            assert(parts.take(start.len() as int) =~= start);
        }
    }
    if whole == other {
        assert(parts =~= whole.subrange(1, whole.len() as int));
        assert(start =~= other.subrange(1, other.len() as int));
    }
    if parts == other {
        assert(is_part(parts[0]));
        assert(parts[0] == "/"@);
        assert(parts[0][0] == '/');
    }
}

/// The directory that holds a path is the path without its last component.
pub proof fn lemma_parents_lack_the_last_component(platform: HostPlatform, parts: Seq<Text>)
    requires
        platform != HostPlatform::Windows,
        parts.len() > 1,
        are_parts(parts),
    ensures
        paths::parent_of(platform, rooted_at_slash(parts)) == Some(
            rooted_at_slash(parts.drop_last()),
        ),
{
    reveal_strlit("/");
    assert("/"@ =~= seq!['/']);
    let whole = rooted_at_slash(parts);
    let pieces = seq![Seq::<char>::empty()] + parts;
    let count = pieces.len() as int;
    assert(text::after(whole, 0) =~= whole);
    lemma_rooted_pieces(parts);
    assert(is_part(parts[parts.len() - 1]) && is_part(parts[parts.len() - 2]));
    assert(pieces[count - 1] == parts[parts.len() - 1]);
    assert(pieces[count - 2] == parts[parts.len() - 2]);
    assert(paths::is_component(pieces, count - 1));
    assert(paths::is_component(pieces, count - 2));
    assert(paths::last_component(pieces, count) == count - 1);
    assert(paths::last_component(pieces, count - 1) == count - 2);
    let kept = pieces.take(count - 1);
    let fewer = parts.drop_last();
    assert(kept =~= seq![Seq::<char>::empty()] + fewer);
    text_laws::lemma_joined_with_one(kept, '/');
    lemma_first_of_between(Seq::empty(), fewer, '/');
    assert(Seq::<char>::empty().push('/') =~= seq!['/']);
    let parent = rooted_at_slash(fewer);
    assert(paths::plain_parent(whole) == Some(parent));
    assert(text_laws::with_between(parts, '/') == text_laws::with_between(fewer, '/').push('/')
        + parts.last());
    assert(whole.take(parent.len() as int) =~= parent);
    assert(paths::volume_of(platform, whole).len() == 0);
}

/// Where a package stands below a directory.
pub open spec fn placed(base: Text, name: Text, namespace: Text, version: Text) -> Text {
    base + "/"@ + name + "/"@ + namespace + "/"@ + version
}

/// A name that can stand between slashes.
pub open spec fn is_name(name: Text) -> bool {
    is_relative(name) && is_open(name)
}

proof fn lemma_placed(
    platform: HostPlatform,
    base: Text,
    name: Text,
    namespace: Text,
    version: Text,
)
    requires
        platform != HostPlatform::Windows,
        is_open(base),
        is_name(name),
        is_name(namespace),
        is_name(version),
    ensures
        layout::below_identity(platform, base, name, namespace, version) == placed(
            base,
            name,
            namespace,
            version,
        ),
        is_open(placed(base, name, namespace, version)),
{
    lemma_paths_are_joined_with_a_slash(platform, base, name);
    let one = paths::joined_path(platform, base, name);
    lemma_paths_are_joined_with_a_slash(platform, one, namespace);
    let two = paths::joined_path(platform, one, namespace);
    lemma_paths_are_joined_with_a_slash(platform, two, version);
}

proof fn lemma_two_joined(platform: HostPlatform, base: Text, first: Text, second: Text)
    requires
        platform != HostPlatform::Windows,
        is_open(base),
        is_name(first),
        is_name(second),
    ensures
        paths::joined_path(platform, paths::joined_path(platform, base, first), second) == base
            + "/"@ + first + "/"@ + second,
        is_open(base + "/"@ + first + "/"@ + second),
{
    lemma_paths_are_joined_with_a_slash(platform, base, first);
    lemma_paths_are_joined_with_a_slash(
        platform,
        paths::joined_path(platform, base, first),
        second,
    );
}

proof fn lemma_fixed_names()
    ensures
        is_name("store"@),
        is_name("registry"@),
        is_name("depofiles"@),
        is_name("local"@),
        is_name(".embedded"@),
        is_name("main.DepoFile"@),
        is_name(".run"@),
        is_name("status"@),
        is_name("logs"@),
        is_name("exports"@),
        is_name("provenance"@),
        is_name("materialization"@),
        is_open(".status"@),
        is_open(".log"@),
        is_open(".exports"@),
        is_open(".source"@),
        is_open(".state"@),
{
    reveal_strlit("store");
    reveal_strlit("registry");
    reveal_strlit("depofiles");
    reveal_strlit("local");
    reveal_strlit(".embedded");
    reveal_strlit("main.DepoFile");
    reveal_strlit(".run");
    reveal_strlit("status");
    reveal_strlit("logs");
    reveal_strlit("exports");
    reveal_strlit("provenance");
    reveal_strlit("materialization");
    reveal_strlit(".status");
    reveal_strlit(".log");
    reveal_strlit(".exports");
    reveal_strlit(".source");
    reveal_strlit(".state");
}

/// The files of a package lie below the store, by variant, name, namespace and version.
pub proof fn lemma_files_lie_in_the_store(
    platform: HostPlatform,
    depos_root: Text,
    variant: Text,
    spec: PackageSpecView,
)
    requires
        platform != HostPlatform::Windows,
        is_open(depos_root),
        is_name(variant),
        is_name(spec.name),
        is_name(spec.namespace),
        is_name(spec.version),
    ensures
        layout::store_root_of(platform, depos_root, variant, spec) == placed(
            depos_root + "/"@ + "store"@ + "/"@ + variant,
            spec.name,
            spec.namespace,
            spec.version,
        ),
{
    lemma_fixed_names();
    lemma_two_joined(platform, depos_root, "store"@, variant);
    let base = depos_root + "/"@ + "store"@ + "/"@ + variant;
    lemma_two_joined(platform, spec.name, spec.namespace, spec.version);
    let inner = spec.name + "/"@ + spec.namespace + "/"@ + spec.version;
    assert(inner[0] == spec.name[0]);
    lemma_paths_are_joined_with_a_slash(platform, base, inner);
    assert(base + "/"@ + inner =~= placed(base, spec.name, spec.namespace, spec.version));
}

/// A registry stands below its own directory, by variant and profile.
pub proof fn lemma_registries_stand_by_variant_and_profile(
    platform: HostPlatform,
    depos_root: Text,
    variant: Text,
    profile: Text,
)
    requires
        platform != HostPlatform::Windows,
        is_open(depos_root),
        is_name(variant),
        is_name(profile),
    ensures
        layout::registry_dir_of(platform, depos_root, variant, profile) == depos_root + "/"@
            + "registry"@ + "/"@ + variant + "/"@ + profile,
{
    lemma_fixed_names();
    lemma_two_joined(platform, depos_root, "registry"@, variant);
    lemma_paths_are_joined_with_a_slash(
        platform,
        depos_root + "/"@ + "registry"@ + "/"@ + variant,
        profile,
    );
}

/// The DepoFile of a package stands with those registered by hand or with those found in fetched
/// sources, by name, namespace and version.
pub proof fn lemma_depofiles_stand_by_package(
    platform: HostPlatform,
    depos_root: Text,
    name: Text,
    namespace: Text,
    version: Text,
)
    requires
        platform != HostPlatform::Windows,
        is_open(depos_root),
        is_name(name),
        is_name(namespace),
        is_name(version),
    ensures
        layout::depofile_below(
            platform,
            layout::local_root_of(platform, depos_root),
            name,
            namespace,
            version,
        ) == placed(
            depos_root + "/"@ + "depofiles"@ + "/"@ + "local"@,
            name,
            namespace,
            version,
        ) + "/"@ + "main.DepoFile"@,
        layout::depofile_below(
            platform,
            layout::embedded_root_of(platform, depos_root),
            name,
            namespace,
            version,
        ) == placed(
            depos_root + "/"@ + "depofiles"@ + "/"@ + ".embedded"@,
            name,
            namespace,
            version,
        ) + "/"@ + "main.DepoFile"@,
{
    lemma_fixed_names();
    lemma_two_joined(platform, depos_root, "depofiles"@, "local"@);
    lemma_two_joined(platform, depos_root, "depofiles"@, ".embedded"@);
    let local = depos_root + "/"@ + "depofiles"@ + "/"@ + "local"@;
    let embedded = depos_root + "/"@ + "depofiles"@ + "/"@ + ".embedded"@;
    lemma_placed(platform, local, name, namespace, version);
    lemma_placed(platform, embedded, name, namespace, version);
    lemma_paths_are_joined_with_a_slash(
        platform,
        placed(local, name, namespace, version),
        "main.DepoFile"@,
    );
    lemma_paths_are_joined_with_a_slash(
        platform,
        placed(embedded, name, namespace, version),
        "main.DepoFile"@,
    );
}

/// The records about a package stand by their kind, then by name, namespace and version, each
/// kind with its own extension.
pub proof fn lemma_records_stand_by_kind_and_package(
    platform: HostPlatform,
    depos_root: Text,
    kind: RecordKind,
    name: Text,
    namespace: Text,
    version: Text,
)
    requires
        platform != HostPlatform::Windows,
        is_open(depos_root),
        is_name(name),
        is_name(namespace),
        is_name(version),
    ensures
        ({
            let (directory, extension) = match kind {
                RecordKind::Status => ("status"@, ".status"@),
                RecordKind::Log => ("logs"@, ".log"@),
                RecordKind::Exports => ("exports"@, ".exports"@),
                RecordKind::Provenance => ("provenance"@, ".source"@),
                RecordKind::Materialization => ("materialization"@, ".state"@),
            };
            layout::record_of(platform, depos_root, kind, name, namespace, version) == placed(
                depos_root + "/"@ + ".run"@ + "/"@ + directory,
                name,
                namespace,
                version + extension,
            )
        }),
{
    lemma_fixed_names();
    lemma_two_joined(platform, depos_root, ".run"@, kind.directory());
    let file = version + kind.extension();
    assert(file[0] == version[0]);
    assert(file.last() == kind.extension().last());
    lemma_placed(
        platform,
        depos_root + "/"@ + ".run"@ + "/"@ + kind.directory(),
        name,
        namespace,
        file,
    );
}

/// A path is shown with slashes for backslashes and is else as it stands; on Windows it is shown
/// without the prefix of a canonical path.
pub proof fn lemma_paths_are_shown_with_slashes(
    platform: HostPlatform,
    front: Text,
    rest: Text,
)
    ensures
        platform != HostPlatform::Windows && text_laws::lacks(front, '\\') ==> paths::shown_path(
            platform,
            front,
        ) == front,
        platform != HostPlatform::Windows ==> paths::shown_path(
            platform,
            front.push('\\') + rest,
        ) == paths::shown_path(platform, front) + "/"@ + paths::shown_path(platform, rest),
        platform == HostPlatform::Windows && rest.len() > 0 && rest[0] != 'U' ==> paths::shown_path(
            platform,
            "\\\\?\\"@ + rest,
        ) == text::replaced(rest, '\\', "/"@),
{
    text_laws::lemma_replaced_everywhere(front, rest, '\\', "/"@);
    if platform == HostPlatform::Windows && rest.len() > 0 && rest[0] != 'U' {
        reveal_strlit("\\\\?\\");
        reveal_strlit("\\\\?\\UNC\\");
        let head = "\\\\?\\"@;
        let share = "\\\\?\\UNC\\"@;
        assert(head.len() == 4 && share.len() == 8 && share[4] == 'U');
        let path = head + rest;
        assert(path.subrange(0, 4) =~= head);
        assert(text::after(path, 4) =~= rest);
        if path.len() >= 8 {
            assert(path.subrange(0, 8)[4] == rest[0]);
        }
    }
}

/// On Windows a relative path is joined to another with a backslash, unless a separator stands
/// there; a path on a drive takes the place of the other.
pub proof fn lemma_windows_paths_are_joined_with_a_backslash(base: Text, path: Text)
    requires
        base.len() > 2,
        path.len() > 2,
        path[0] != '/' && path[0] != '\\',
    ensures
        path[1] != ':' && base.last() != '/' && base.last() != '\\' ==> paths::joined_path(
            HostPlatform::Windows,
            base,
            path,
        ) == base + "\\"@ + path,
        path[1] != ':' && (base.last() == '/' || base.last() == '\\') ==> paths::joined_path(
            HostPlatform::Windows,
            base,
            path,
        ) == base + path,
        path[1] == ':' && crate::names::is_letter(path[0]) ==> paths::joined_path(
            HostPlatform::Windows,
            base,
            path,
        ) == path,
{
    reveal_strlit("//");
    reveal_strlit("/");
    assert("//"@.len() == 2 && "//"@[0] == '/');
    let known = paths::slashed(HostPlatform::Windows, path);
    if path[1] != ':' {
        lemma_first_stays(path, '\\', "/"@);
        assert(known[0] == path[0]);
        if known.len() >= 2 {
            assert(known.subrange(0, 2)[0] == known[0]);
            lemma_second_stays(path, "/"@);
            assert(known[1] != ':');
        }
        assert(paths::windows_volume(known) == 0);
        assert(paths::volume_of(HostPlatform::Windows, known).len() == 0);
    }
}

proof fn lemma_first_stays(s: Text, c: char, with: Text)
    requires
        s.len() > 0,
        s[0] != c,
    ensures
        text::replaced(s, c, with).len() > 0,
        text::replaced(s, c, with)[0] == s[0],
    decreases s.len(),
{
    if s.len() > 1 {
        lemma_first_stays(s.drop_last(), c, with);
        assert(s.drop_last()[0] == s[0]);
    } else {
        assert(s.drop_last() =~= Seq::<char>::empty());
        assert(text::replaced(s.drop_last(), c, with) =~= Seq::<char>::empty());
    }
}

proof fn lemma_second_stays(s: Text, with: Text)
    requires
        s.len() > 1,
        s[0] != '\\',
        s[1] != ':',
        with == "/"@,
    ensures
        text::replaced(s, '\\', with).len() > 1,
        text::replaced(s, '\\', with)[1] != ':',
    decreases s.len(),
{
    reveal_strlit("/");
    assert("/"@.len() == 1 && "/"@[0] == '/');
    if s.len() > 2 {
        lemma_second_stays(s.drop_last(), with);
    } else {
        let one = s.drop_last();
        lemma_first_stays(one, '\\', with);
        assert(one.drop_last() =~= Seq::<char>::empty());
        assert(text::replaced(one.drop_last(), '\\', with) =~= Seq::<char>::empty());
        assert(text::replaced(one, '\\', with).len() == 1);
    }
}

} // verus!

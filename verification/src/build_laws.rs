//! What holds of every build: when it is done again, what it sees and what it refuses.

use vstd::prelude::*;
use crate::copying;
use crate::copying::{CopyPurpose, CopySourceView, FoundLinkView, SourceKindView};
use crate::digest;
use crate::download;
use crate::download::{UrlActionView, UrlSourceView, UrlStageView, UrlTurnView};
use crate::environment;
use crate::environment::HostFactsView;
use crate::failure::Messages;
use crate::git;
use crate::git::{GitActionView, GitReplyView, GitSourceView, GitStageView};
use crate::materialize;
use crate::materialize::MaterializationEvidenceView;
use crate::model::{PackageSpecView, PackageSystemLibs, Text, ToolchainSource};
use crate::paths;
use crate::paths::HostPlatform;
use crate::pipeline;
use crate::portable;
use crate::portable::{PortableCommandPathsView, PortableFactsView};
use crate::records::SourceProvenanceView;
use crate::text;

verus! {

/// The key of the inputs of a package.
pub open spec fn key_of(evidence: MaterializationEvidenceView) -> Text {
    digest::sha256_hex(vstd::utf8::encode_utf8(materialize::inputs_of(evidence)))
}

/// Whether the state that is known of a package was recorded for the inputs in `before`.
pub open spec fn recorded(
    before: MaterializationEvidenceView,
    now: MaterializationEvidenceView,
) -> bool {
    now.previous_state matches Some(state) && state.depofile_hash == before.depofile_hash
        && state.build_key == key_of(before)
}

/// A package whose DepoFile changed, or whose inputs have another key than the recorded ones, is
/// materialized again.
pub proof fn lemma_changed_inputs_are_rebuilt(
    platform: HostPlatform,
    before: MaterializationEvidenceView,
    now: MaterializationEvidenceView,
)
    requires
        recorded(before, now),
        now.depofile_hash != before.depofile_hash || key_of(now) != key_of(before),
    ensures
        !materialize::current_under(platform, now, key_of(now)),
{
}

/// A package whose exports are there and whose store and inputs are the recorded ones is not
/// materialized again.
pub proof fn lemma_unchanged_inputs_are_reused(
    platform: HostPlatform,
    before: MaterializationEvidenceView,
    now: MaterializationEvidenceView,
)
    requires
        recorded(before, now),
        now.previous_state matches Some(state) && state.store_root == now.canonical_store_root,
        now.previous_exports matches Some(exports) && exports.store_root
            == now.canonical_store_root,
        now.exports_present,
        now.depofile_hash == before.depofile_hash,
        now.provenance == before.provenance,
        now.dependency_keys == before.dependency_keys,
    ensures
        materialize::current_under(platform, now, key_of(now)),
{
}

/// Whether a text holds no `c`.
pub open spec fn free_of(s: Text, c: char) -> bool {
    forall|i: int| 0 <= i < s.len() ==> #[trigger] s[i] != c
}

/// Two texts that agree up to the first `c` and behind it are the same on both sides of it.
proof fn lemma_same_heads(a: Text, x: Text, b: Text, y: Text, c: char)
    requires
        free_of(a, c),
        free_of(b, c),
        a + seq![c] + x == b + seq![c] + y,
    ensures
        a == b,
        x == y,
{
    let left = a + seq![c] + x;
    let right = b + seq![c] + y;
    assert(left[a.len() as int] == c);
    assert(right[b.len() as int] == c);
    if a.len() < b.len() {
        assert(right[a.len() as int] == b[a.len() as int]);
    } else if b.len() < a.len() {
        assert(left[b.len() as int] == a[b.len() as int]);
    }
    assert(a == left.take(a.len() as int));
    assert(b == right.take(b.len() as int));
    assert(x == left.skip(a.len() as int + 1));
    assert(y == right.skip(b.len() as int + 1));
}

/// Two texts that agree up to the last `c` and behind it are the same on both sides of it.
proof fn lemma_same_tails(a: Text, x: Text, b: Text, y: Text, c: char)
    requires
        free_of(x, c),
        free_of(y, c),
        a + seq![c] + x == b + seq![c] + y,
    ensures
        a == b,
        x == y,
{
    let left = a + seq![c] + x;
    let right = b + seq![c] + y;
    assert(left.len() == right.len());
    assert(left[a.len() as int] == c);
    assert(right[b.len() as int] == c);
    if a.len() < b.len() {
        assert(left[b.len() as int] == x[b.len() - a.len() - 1]);
    } else if b.len() < a.len() {
        assert(right[a.len() as int] == y[a.len() - b.len() - 1]);
    }
    assert(a == left.take(a.len() as int));
    assert(b == right.take(b.len() as int));
    assert(x == left.skip(a.len() as int + 1));
    assert(y == right.skip(b.len() as int + 1));
}

/// A text behind the same beginning is the same.
proof fn lemma_same_rests(head: Text, x: Text, y: Text)
    requires
        head + x == head + y,
    ensures
        x == y,
{
    assert(x == (head + x).skip(head.len() as int));
    assert(y == (head + y).skip(head.len() as int));
}

/// Whether the keys of dependencies can be told apart in a list of lines.
pub open spec fn plain_keys(keys: Seq<(Text, Text)>) -> bool {
    forall|i: int|
        0 <= i < keys.len() ==> free_of((#[trigger] keys[i]).0, '\n') && free_of(keys[i].1, '\n')
            && free_of(keys[i].1, ':')
}

spec fn dependency_text(key: (Text, Text)) -> Text {
    "dependency="@ + key.0 + ":"@ + key.1
}

proof fn lemma_dependency_text(a: (Text, Text), b: (Text, Text))
    requires
        free_of(a.1, ':'),
        free_of(b.1, ':'),
        dependency_text(a) == dependency_text(b),
    ensures
        a == b,
{
    reveal_strlit(":");
    let head = "dependency="@;
    assert(":"@ == seq![':']);
    assert(dependency_text(a) == (head + a.0) + seq![':'] + a.1);
    assert(dependency_text(b) == (head + b.0) + seq![':'] + b.1);
    lemma_same_tails(head + a.0, a.1, head + b.0, b.1, ':');
    lemma_same_rests(head, a.0, b.0);
}

proof fn lemma_dependency_text_is_one_line(key: (Text, Text))
    requires
        free_of(key.0, '\n'),
        free_of(key.1, '\n'),
    ensures
        free_of(dependency_text(key), '\n'),
{
    reveal_strlit("dependency=");
    reveal_strlit(":");
    let head = "dependency="@;
    let line = dependency_text(key);
    assert(head.len() == 11);
    assert forall|i: int| 0 <= i < line.len() implies #[trigger] line[i] != '\n' by {
        if i < 11 {
            assert(line[i] == head[i]);
        } else if i < 11 + key.0.len() {
            assert(line[i] == key.0[i - 11]);
        } else if i == 11 + key.0.len() {
            assert(line[i] == ":"@[0]);
        } else {
            assert(line[i] == key.1[i - 12 - key.0.len()]);
        }
    }
}

proof fn lemma_dependency_lines_tell_apart(
    a: Seq<(Text, Text)>,
    n: int,
    b: Seq<(Text, Text)>,
    m: int,
)
    requires
        plain_keys(a),
        plain_keys(b),
        0 <= n <= a.len(),
        0 <= m <= b.len(),
        digest::dependency_lines(a, n) == digest::dependency_lines(b, m),
    ensures
        n == m,
        forall|i: int| 0 <= i < n ==> #[trigger] a[i] == b[i],
    decreases n,
{
    reveal_strlit("\n");
    assert("\n"@ == seq!['\n']);
    if n > 0 {
        lemma_dependency_lines_end(a, n);
    }
    if m > 0 {
        lemma_dependency_lines_end(b, m);
    }
    if n > 0 && m > 0 {
        let ua = digest::dependency_lines(a, n - 1);
        let ub = digest::dependency_lines(b, m - 1);
        let la = dependency_text(a[n - 1]);
        let lb = dependency_text(b[m - 1]);
        lemma_dependency_text_is_one_line(a[n - 1]);
        lemma_dependency_text_is_one_line(b[m - 1]);
        assert(digest::dependency_lines(a, n) == ua + la + "\n"@);
        assert(digest::dependency_lines(b, m) == ub + lb + "\n"@);
        assert((ua + la) == (ua + la + "\n"@).drop_last());
        assert((ub + lb) == (ub + lb + "\n"@).drop_last());
        assert(ua + la == ub + lb);
        if n > 1 {
            lemma_dependency_lines_end(a, n - 1);
        }
        if m > 1 {
            lemma_dependency_lines_end(b, m - 1);
        }
        lemma_same_last_lines(ua, la, ub, lb);
        lemma_dependency_text(a[n - 1], b[m - 1]);
        lemma_dependency_lines_tell_apart(a, n - 1, b, m - 1);
        assert forall|i: int| 0 <= i < n implies #[trigger] a[i] == b[i] by {
            if i == n - 1 {
                assert(a[n - 1] == b[m - 1]);
            }
        }
    } else if n > 0 {
        assert(digest::dependency_lines(b, m).len() == 0);
    } else if m > 0 {
        assert(digest::dependency_lines(a, n).len() == 0);
    }
}

proof fn lemma_dependency_lines_end(keys: Seq<(Text, Text)>, count: int)
    requires
        0 < count <= keys.len(),
    ensures
        digest::dependency_lines(keys, count).len() > 0,
        digest::dependency_lines(keys, count).last() == '\n',
        digest::dependency_lines(keys, count) == digest::dependency_lines(keys, count - 1)
            + dependency_text(keys[count - 1]) + "\n"@,
{
    reveal_strlit("\n");
    let lines = digest::dependency_lines(keys, count);
    let before = digest::dependency_lines(keys, count - 1);
    assert(lines == before + dependency_text(keys[count - 1]) + "\n"@);
    assert(lines.last() == "\n"@[0]);
}

proof fn lemma_same_last_lines(ua: Text, la: Text, ub: Text, lb: Text)
    requires
        free_of(la, '\n'),
        free_of(lb, '\n'),
        ua.len() == 0 || ua.last() == '\n',
        ub.len() == 0 || ub.last() == '\n',
        ua + la == ub + lb,
    ensures
        ua == ub,
        la == lb,
{
    let left = ua + la;
    let right = ub + lb;
    assert(left.len() == ua.len() + la.len());
    assert(right.len() == ub.len() + lb.len());
    assert(left == right);
    if ua.len() < ub.len() {
        assert(right[ub.len() - 1] == '\n');
        assert(left[ub.len() - 1] == la[ub.len() - 1 - ua.len()]);
    } else if ub.len() < ua.len() {
        assert(left[ua.len() - 1] == '\n');
        assert(right[ua.len() - 1] == lb[ua.len() - 1 - ub.len()]);
    }
    assert(ua == left.take(ua.len() as int));
    assert(ub == right.take(ub.len() as int));
    lemma_same_rests(ua, la, lb);
}

/// Whether the parts of a provenance stand on one line each.
pub open spec fn plain_provenance(provenance: SourceProvenanceView) -> bool {
    free_of(digest::or_empty(provenance.source_ref), '\n') && free_of(
        digest::or_empty(provenance.source_commit),
        '\n',
    ) && free_of(digest::or_empty(provenance.source_digest), '\n')
}

/// Two lines that name the same field hold the same.
proof fn lemma_same_fields(word: Text, a: Text, x: Text, b: Text, y: Text)
    requires
        free_of(a, '\n'),
        free_of(b, '\n'),
        word + a + seq!['\n'] + x == word + b + seq!['\n'] + y,
    ensures
        a == b,
        x == y,
{
    assert(word + a + seq!['\n'] + x == word + (a + seq!['\n'] + x));
    assert(word + b + seq!['\n'] + y == word + (b + seq!['\n'] + y));
    lemma_same_rests(word, a + seq!['\n'] + x, b + seq!['\n'] + y);
    lemma_same_heads(a, x, b, y, '\n');
}

/// The inputs of a package, line by line.
proof fn lemma_inputs_by_line(
    hash: Text,
    provenance: SourceProvenanceView,
    keys: Seq<(Text, Text)>,
)
    ensures
        digest::build_inputs(hash, provenance, keys) == "depofile="@ + hash + seq!['\n'] + (
        "\nsource_ref="@.drop_first() + digest::or_empty(provenance.source_ref) + seq!['\n'] + (
        "\nsource_commit="@.drop_first() + digest::or_empty(provenance.source_commit) + seq!['\n']
            + ("\nsource_digest="@.drop_first() + digest::or_empty(provenance.source_digest) + seq![
            '\n',
        ] + digest::dependency_lines(keys, keys.len() as int)))),
{
    reveal_strlit("\nsource_ref=");
    reveal_strlit("\nsource_commit=");
    reveal_strlit("\nsource_digest=");
    reveal_strlit("\n");
    assert("\nsource_ref="@ == seq!['\n'] + "\nsource_ref="@.drop_first());
    assert("\nsource_commit="@ == seq!['\n'] + "\nsource_commit="@.drop_first());
    assert("\nsource_digest="@ == seq!['\n'] + "\nsource_digest="@.drop_first());
    assert("\n"@ == seq!['\n']);
    lemma_regrouped(
        "depofile="@ + hash,
        "\nsource_ref="@.drop_first(),
        digest::or_empty(provenance.source_ref),
        "\nsource_commit="@.drop_first(),
        digest::or_empty(provenance.source_commit),
        "\nsource_digest="@.drop_first(),
        digest::or_empty(provenance.source_digest),
        digest::dependency_lines(keys, keys.len() as int),
    );
}

proof fn lemma_regrouped(
    head: Text,
    u: Text,
    r: Text,
    v: Text,
    c: Text,
    w: Text,
    d: Text,
    rest: Text,
)
    ensures
        head + (seq!['\n'] + u) + r + (seq!['\n'] + v) + c + (seq!['\n'] + w) + d + seq!['\n'] + rest
            == head + seq!['\n'] + (u + r + seq!['\n'] + (v + c + seq!['\n'] + (w + d + seq![
            '\n',
        ] + rest))),
{
    let n = seq!['\n'];
    let x = w + d + n + rest;
    let y = v + c + n + x;
    let z = u + r + n + y;
    let front = head + (n + u) + r;
    assert(front + (n + v) + c + (n + w) + d + n + rest == front + (n + v) + c + n + x);
    assert(front + (n + v) + c + n + x == front + n + y);
    assert(front + n + y == head + n + z);
}

/// Different inputs have different texts: where the texts of two inputs are the same, so are the
/// DepoFiles, the sources and the keys of the dependencies.
pub proof fn lemma_inputs_tell_apart(
    hash_a: Text,
    provenance_a: SourceProvenanceView,
    keys_a: Seq<(Text, Text)>,
    hash_b: Text,
    provenance_b: SourceProvenanceView,
    keys_b: Seq<(Text, Text)>,
)
    requires
        free_of(hash_a, '\n'),
        free_of(hash_b, '\n'),
        plain_provenance(provenance_a),
        plain_provenance(provenance_b),
        plain_keys(keys_a),
        plain_keys(keys_b),
        digest::build_inputs(hash_a, provenance_a, keys_a) == digest::build_inputs(
            hash_b,
            provenance_b,
            keys_b,
        ),
    ensures
        hash_a == hash_b,
        digest::or_empty(provenance_a.source_ref) == digest::or_empty(provenance_b.source_ref),
        digest::or_empty(provenance_a.source_commit) == digest::or_empty(
            provenance_b.source_commit,
        ),
        digest::or_empty(provenance_a.source_digest) == digest::or_empty(
            provenance_b.source_digest,
        ),
        keys_a == keys_b,
{
    let (h1, r1, c1, d1) = (
        hash_a,
        digest::or_empty(provenance_a.source_ref),
        digest::or_empty(provenance_a.source_commit),
        digest::or_empty(provenance_a.source_digest),
    );
    let (h2, r2, c2, d2) = (
        hash_b,
        digest::or_empty(provenance_b.source_ref),
        digest::or_empty(provenance_b.source_commit),
        digest::or_empty(provenance_b.source_digest),
    );
    let l1 = digest::dependency_lines(keys_a, keys_a.len() as int);
    let l2 = digest::dependency_lines(keys_b, keys_b.len() as int);
    let depofile_word = "depofile="@;
    let ref_word = "\nsource_ref="@.drop_first();
    let commit_word = "\nsource_commit="@.drop_first();
    let digest_word = "\nsource_digest="@.drop_first();
    let x1 = digest_word + d1 + seq!['\n'] + l1;
    let x2 = digest_word + d2 + seq!['\n'] + l2;
    let y1 = commit_word + c1 + seq!['\n'] + x1;
    let y2 = commit_word + c2 + seq!['\n'] + x2;
    let z1 = ref_word + r1 + seq!['\n'] + y1;
    let z2 = ref_word + r2 + seq!['\n'] + y2;
    lemma_inputs_by_line(hash_a, provenance_a, keys_a);
    lemma_inputs_by_line(hash_b, provenance_b, keys_b);
    lemma_same_fields(depofile_word, h1, z1, h2, z2);
    lemma_same_fields(ref_word, r1, y1, r2, y2);
    lemma_same_fields(commit_word, c1, x1, c2, x2);
    lemma_same_fields(digest_word, d1, l1, d2, l2);
    lemma_dependency_lines_tell_apart(
        keys_a,
        keys_a.len() as int,
        keys_b,
        keys_b.len() as int,
    );
    assert(keys_a == keys_b);
}

/// What is kept of a list without repetitions was in the list.
proof fn lemma_distinct_members(values: Seq<Text>, index: int)
    requires
        0 <= index < text::distinct(values).len(),
    ensures
        values.contains(text::distinct(values)[index]),
    decreases values.len(),
{
    if values.len() > 0 {
        let rest = text::distinct(values.drop_last());
        let kept = text::distinct(values);
        if index < rest.len() {
            assert(kept[index] == rest[index]);
            lemma_distinct_members(values.drop_last(), index);
            let i = choose|i: int|
                0 <= i < values.drop_last().len() && values.drop_last()[i] == rest[index];
            assert(values[i] == rest[index]);
        } else {
            assert(kept[index] == values.last());
            assert(values[values.len() - 1] == values.last());
        }
    }
}

/// A build in an empty root sees the sources, the files of the declared dependencies and the
/// declared tools, and nothing else; it may change none of them but the sources.
pub proof fn lemma_scratch_sees_declared_inputs_only(
    spec: PackageSpecView,
    source_root: Text,
    variant_root: Text,
    dependencies: Seq<PackageSpecView>,
    present: Seq<Text>,
    facts: HostFactsView,
    cache: Option<Text>,
    index: int,
)
    requires
        spec.build_root is Scratch,
    ensures
        environment::linux_mounts(
            spec,
            source_root,
            variant_root,
            dependencies,
            present,
            facts,
            cache,
        ) is Ok,
        ({
            let mounts = environment::linux_mounts(
                spec,
                source_root,
                variant_root,
                dependencies,
                present,
                facts,
                cache,
            )->Ok_0;
            0 <= index < mounts.len() ==> if index == 0 {
                mounts[index] == environment::source_mount(source_root)
            } else {
                mounts[index].read_only && (spec.toolchain_inputs.contains(mounts[index].source)
                    || exists|i: int|
                    0 <= i < dependencies.len() && mounts[index] == environment::dependency_mount(
                        variant_root,
                        #[trigger] dependencies[i],
                    ))
            }
        }),
{
    let mounts = environment::linux_mounts(
        spec,
        source_root,
        variant_root,
        dependencies,
        present,
        facts,
        cache,
    )->Ok_0;
    let needed = environment::dependency_mounts(variant_root, dependencies);
    let tools = text::distinct(spec.toolchain_inputs);
    let first = seq![environment::source_mount(source_root)];
    assert(mounts == first + needed + environment::shared_all(tools));
    if 0 < index < mounts.len() {
        if index - 1 < needed.len() {
            assert(mounts[index] == needed[index - 1]);
            assert(mounts[index] == environment::dependency_mount(
                variant_root,
                dependencies[index - 1],
            ));
        } else {
            let place = index - 1 - needed.len();
            assert(mounts[index] == environment::shared_all(tools)[place]);
            lemma_distinct_members(spec.toolchain_inputs, place);
        }
    }
}

/// On macOS and Windows a build is refused in an empty root, and outside an image also where it
/// asks for the tools of an image, for declared tools or for another architecture.
pub proof fn lemma_portable_hosts_refuse(
    platform: HostPlatform,
    spec: PackageSpecView,
    host: Text,
    existing: Seq<bool>,
)
    requires
        platform != HostPlatform::Linux,
    ensures
        spec.build_root is Scratch ==> pipeline::pipeline_check(platform, spec, host, existing)
            is Err,
        !(spec.build_root is Oci) && spec.toolchain == ToolchainSource::Rootfs
            ==> pipeline::pipeline_check(platform, spec, host, existing) is Err,
        !(spec.build_root is Oci) && spec.build_arch != spec.target_arch
            ==> pipeline::pipeline_check(platform, spec, host, existing) is Err,
        spec.toolchain_inputs.len() > 0 ==> pipeline::pipeline_check(
            platform,
            spec,
            host,
            existing,
        ) is Err,
{
}

/// On Linux, only a build inside an image may be for or by another architecture than that of the
/// host.
pub proof fn lemma_foreign_builds_need_an_image(
    spec: PackageSpecView,
    host: Text,
    existing: Seq<bool>,
)
    requires
        pipeline::pipeline_check(HostPlatform::Linux, spec, host, existing) is Ok,
        spec.build_arch != host || spec.target_arch != host,
    ensures
        environment::in_image(spec),
{
}

/// Looking up a name in a list that ends with a pair of that name yields the value there.
proof fn lemma_last_pair(pairs: Seq<(Text, Text)>, key: Text, at: int, count: int)
    requires
        0 <= at < count <= pairs.len(),
        pairs[at].0 == key,
        forall|i: int| at < i < count ==> (#[trigger] pairs[i]).0 != key,
    ensures
        text::last_paired(pairs, key, count) == Some(pairs[at].1),
    decreases count,
{
    if count - 1 > at {
        assert(pairs[count - 1].0 != key);
        lemma_last_pair(pairs, key, at, count - 1);
    }
}

/// Whether a name is one of those that lead a build to the libraries of the system.
pub open spec fn leads_to_system(name: Text) -> bool {
    name == "PKG_CONFIG_DIR"@ || name == "PKG_CONFIG_PATH"@ || name == "CPATH"@ || name
        == "LIBRARY_PATH"@ || name == "C_INCLUDE_PATH"@ || name == "CPLUS_INCLUDE_PATH"@
}

proof fn lemma_guard_names_differ()
    ensures
        "PKG_CONFIG_DIR"@ != "PKG_CONFIG_PATH"@,
        "PKG_CONFIG_DIR"@ != "CPATH"@,
        "PKG_CONFIG_DIR"@ != "LIBRARY_PATH"@,
        "PKG_CONFIG_DIR"@ != "C_INCLUDE_PATH"@,
        "PKG_CONFIG_DIR"@ != "CPLUS_INCLUDE_PATH"@,
        "PKG_CONFIG_PATH"@ != "CPATH"@,
        "PKG_CONFIG_PATH"@ != "LIBRARY_PATH"@,
        "PKG_CONFIG_PATH"@ != "C_INCLUDE_PATH"@,
        "PKG_CONFIG_PATH"@ != "CPLUS_INCLUDE_PATH"@,
        "CPATH"@ != "LIBRARY_PATH"@,
        "CPATH"@ != "C_INCLUDE_PATH"@,
        "CPATH"@ != "CPLUS_INCLUDE_PATH"@,
        "LIBRARY_PATH"@ != "C_INCLUDE_PATH"@,
        "LIBRARY_PATH"@ != "CPLUS_INCLUDE_PATH"@,
        "C_INCLUDE_PATH"@ != "CPLUS_INCLUDE_PATH"@,
{
    reveal_strlit("PKG_CONFIG_DIR");
    reveal_strlit("PKG_CONFIG_PATH");
    reveal_strlit("CPATH");
    reveal_strlit("LIBRARY_PATH");
    reveal_strlit("C_INCLUDE_PATH");
    reveal_strlit("CPLUS_INCLUDE_PATH");
    assert("PKG_CONFIG_DIR"@.len() == 14 && "PKG_CONFIG_DIR"@[0] == 'P');
    assert("PKG_CONFIG_PATH"@.len() == 15);
    assert("CPATH"@.len() == 5);
    assert("LIBRARY_PATH"@.len() == 12);
    assert("C_INCLUDE_PATH"@.len() == 14 && "C_INCLUDE_PATH"@[0] == 'C');
    assert("CPLUS_INCLUDE_PATH"@.len() == 18);
}

proof fn lemma_guards_win(
    start: Seq<(Text, Text)>,
    system_libs: PackageSystemLibs,
    name: Text,
)
    requires
        system_libs != PackageSystemLibs::Allow,
        leads_to_system(name),
    ensures
        text::value_of(start + environment::library_guards(system_libs), name) == Some(""@),
{
    lemma_guard_names_differ();
    let guards = environment::library_guards(system_libs);
    let env = start + guards;
    let n = start.len() as int;
    assert(guards.len() == 6);
    assert(env[n] == guards[0]);
    assert(env[n + 1] == guards[1]);
    assert(env[n + 2] == guards[2]);
    assert(env[n + 3] == guards[3]);
    assert(env[n + 4] == guards[4]);
    assert(env[n + 5] == guards[5]);
    let at = if name == "PKG_CONFIG_DIR"@ {
        n
    } else if name == "PKG_CONFIG_PATH"@ {
        n + 1
    } else if name == "CPATH"@ {
        n + 2
    } else if name == "LIBRARY_PATH"@ {
        n + 3
    } else if name == "C_INCLUDE_PATH"@ {
        n + 4
    } else {
        n + 5
    };
    assert forall|i: int| at < i < env.len() implies (#[trigger] env[i]).0 != name by {
        assert(i == n + 1 || i == n + 2 || i == n + 3 || i == n + 4 || i == n + 5);
    }
    lemma_last_pair(env, name, at, env.len() as int);
}

/// Unless a package may use the libraries of the system, what would lead its build to them is
/// empty.
pub proof fn lemma_builds_are_kept_from_system_libraries(
    spec: PackageSpecView,
    dependencies: Seq<PackageSpecView>,
    facts: HostFactsView,
    name: Text,
)
    requires
        spec.system_libs != PackageSystemLibs::Allow,
        leads_to_system(name),
    ensures
        text::value_of(environment::linux_environment(spec, dependencies, facts), name) == Some(
            ""@,
        ),
{
    let start = environment::linux_place(spec, facts) + environment::linux_tools(spec, facts)
        + environment::linux_rust(spec, facts) + environment::cargo_cross(spec)
        + environment::dependency_environment(
        dependencies,
        environment::cell_roots(HostPlatform::Linux, dependencies),
        ":"@,
    );
    lemma_guards_win(start, spec.system_libs, name);
}

/// The same holds of builds on macOS and Windows.
pub proof fn lemma_portable_builds_are_kept_from_system_libraries(
    platform: HostPlatform,
    spec: PackageSpecView,
    dependencies: Seq<PackageSpecView>,
    paths: PortableCommandPathsView,
    facts: PortableFactsView,
    name: Text,
)
    requires
        spec.system_libs != PackageSystemLibs::Allow,
        leads_to_system(name),
    ensures
        text::value_of(
            portable::portable_environment(platform, spec, dependencies, paths, facts),
            name,
        ) == Some(""@),
{
    let roots = match portable::job_roots(platform, paths.job_root, dependencies) {
        Ok(roots) => roots,
        Err(_) => Seq::empty(),
    };
    let start = portable::portable_place(platform, spec, paths, facts) + portable::portable_tools(
        platform,
        spec,
        facts,
    ) + portable::portable_rust(platform, spec, paths, facts) + environment::dependency_environment(
        dependencies,
        roots,
        environment::list_separator(platform),
    );
    lemma_guards_win(start, spec.system_libs, name);
}

/// Where the members of an archive pass the check, unpacking it leaves no file outside the place
/// it is unpacked to.
pub proof fn lemma_checked_members_are_confined(
    platform: HostPlatform,
    entries: Seq<Text>,
    archive: Text,
    from: int,
    index: int,
)
    requires
        download::members_check(platform, entries, archive, from) is Ok,
        0 <= from <= index < entries.len(),
        entries[index].len() > 0,
    ensures
        paths::confined(platform, entries[index]),
    decreases entries.len() - from,
{
    if from < index {
        lemma_checked_members_are_confined(platform, entries, archive, from + 1, index);
    }
}

/// A commit that is named in full and is there is taken without fetching anything.
pub proof fn lemma_present_commits_are_not_fetched(
    source: GitSourceView,
    cloned: bool,
    commit: Text,
    success: bool,
)
    requires
        git::same_letters(text::trimmed(commit), source.reference),
    ensures
        git::next_turn(
            source,
            GitStageView::Exact(cloned),
            (GitReplyView { output: Some(commit), success }),
        ) matches Ok(turn) && turn.action == GitActionView::Finish(text::trimmed(commit)),
{
}

/// What leads out of its root is never copied: not what is exported or staged, whatever stands
/// there, and not a link, inside a copied directory or as such.
pub proof fn lemma_nothing_outside_its_root_is_copied(
    platform: HostPlatform,
    purpose: CopyPurpose,
    from: CopySourceView,
    allow_directory: bool,
    path: Text,
    found: FoundLinkView,
)
    ensures
        !paths::below(platform, from.resolved_path, from.resolved_root) ==> copying::copy_of(
            platform,
            purpose,
            from,
            allow_directory,
        ) is Err,
        !paths::below(platform, found.resolved_target, from.resolved_root) ==> {
            &&& from.kind == SourceKindView::Link(found) ==> copying::copy_of(
                platform,
                purpose,
                from,
                allow_directory,
            ) is Err
            &&& copying::inner_copy(
                platform,
                from.root,
                path,
                SourceKindView::Link(found),
                from.resolved_root,
            ) is Err
        },
{
}

/// How bringing an archive up to date stands when these replies have come.
pub open spec fn url_run(source: UrlSourceView, replies: Seq<Text>) -> Result<
    UrlTurnView,
    Messages,
>
    decreases replies.len(),
{
    if replies.len() == 0 {
        Ok(download::first_url_turn(source))
    } else {
        match url_run(source, replies.drop_last()) {
            Ok(turn) => download::next_url_turn(source, turn.stage, replies.last()),
            Err(messages) => Err(messages),
        }
    }
}

/// Whether the reply at a position was asked for as the list of the members of the archive, and
/// names only members that stay below the place that the archive is unpacked to.
pub open spec fn members_were_checked(
    source: UrlSourceView,
    replies: Seq<Text>,
    index: int,
) -> bool {
    let entries = text::lines_of(replies[index]);
    &&& 0 <= index < replies.len()
    &&& url_run(source, replies.take(index)) matches Ok(turn) && turn.action
        == UrlActionView::ListMembers(download::listing_arguments(source.archive_path))
    &&& forall|i: int|
        0 <= i < entries.len() && entries[i].len() > 0 ==> paths::confined(
            source.platform,
            #[trigger] entries[i],
        )
}

/// Whether a digest is the declared one, where one is declared.
pub open spec fn is_wanted(source: UrlSourceView, digest: Text) -> bool {
    source.sha256 matches Some(declared) ==> declared == digest
}

proof fn lemma_url_run(source: UrlSourceView, replies: Seq<Text>)
    ensures
        url_run(source, replies) matches Ok(turn) ==> {
            &&& turn.stage is Local || turn.stage is CachedLocal ==> source.sha256 is None
            &&& turn.stage matches UrlStageView::Members(digest) ==> replies.contains(digest)
                && is_wanted(source, digest) && turn.action == UrlActionView::ListMembers(
                download::listing_arguments(source.archive_path),
            )
            &&& turn.stage matches UrlStageView::Finished(digest) ==> replies.contains(digest)
                && is_wanted(source, digest) && exists|i: int|
                members_were_checked(source, replies, i)
            &&& turn.action matches UrlActionView::Finish(digest) ==> turn.stage
                == UrlStageView::Finished(digest)
        },
    decreases replies.len(),
{
    if replies.len() > 0 {
        let before = replies.drop_last();
        lemma_url_run(source, before);
        if let (Ok(last), Ok(turn)) = (url_run(source, before), url_run(source, replies)) {
            assert(replies.take(replies.len() - 1) == before);
            assert(replies.contains(replies.last())) by {
                assert(replies[replies.len() - 1] == replies.last());
            }
            match last.stage {
                UrlStageView::Members(digest) => {
                    let at = before.index_of(digest);
                    assert(replies[at] == digest);
                    let entries = text::lines_of(replies.last());
                    assert forall|i: int| 0 <= i < entries.len() && entries[i].len() > 0 implies
                        paths::confined(source.platform, #[trigger] entries[i]) by {
                        lemma_checked_members_are_confined(
                            source.platform,
                            entries,
                            source.archive_path,
                            0,
                            i,
                        );
                    }
                    assert(members_were_checked(source, replies, replies.len() - 1));
                },
                UrlStageView::Finished(digest) => {
                    let at = before.index_of(digest);
                    assert(replies[at] == digest);
                    let checked = choose|i: int| members_were_checked(source, before, i);
                    assert(before[checked] == replies[checked]);
                    assert(before.take(checked) == replies.take(checked));
                    assert(members_were_checked(source, replies, checked));
                },
                _ => {},
            }
        }
    }
}

/// Where a digest is declared, an archive is accepted only if it has that digest.
pub proof fn lemma_accepted_archives_have_the_declared_digest(
    source: UrlSourceView,
    replies: Seq<Text>,
    accepted: Text,
)
    requires
        url_run(source, replies) matches Ok(turn) && turn.action == UrlActionView::Finish(accepted),
    ensures
        is_wanted(source, accepted),
        replies.contains(accepted),
{
    lemma_url_run(source, replies);
}

/// An archive is accepted only after its members were listed and every one of them was found to
/// stay below the place that the archive is unpacked to.
pub proof fn lemma_accepted_archives_have_checked_members(
    source: UrlSourceView,
    replies: Seq<Text>,
    accepted: Text,
)
    requires
        url_run(source, replies) matches Ok(turn) && turn.action == UrlActionView::Finish(accepted),
    ensures
        exists|i: int| members_were_checked(source, replies, i),
{
    lemma_url_run(source, replies);
}

/// Whether a text holds ASCII characters only and no `$`.
pub open spec fn is_plain_argument(value: Text) -> bool {
    vstd::utf8::is_ascii_chars(value) && free_of(value, '$')
}

pub(crate) proof fn lemma_ascii_bytes(c: char)
    requires
        '\0' <= c <= '\u{7f}',
    ensures
        pipeline::byte_chars(c) == seq![c],
{
    let one = seq![c];
    assert(vstd::utf8::is_ascii_chars(one));
    vstd::utf8::is_ascii_chars_encode_utf8(one);
    let bytes = vstd::utf8::encode_utf8(one);
    assert(bytes.len() == 1);
    assert(one[0] as u8 == bytes[0]);
    let number = c as u32;
    assert(number < 128);
    assert((number as u8) as u32 == number) by (bit_vector)
        requires
            number < 128,
    ;
    assert(pipeline::byte_chars(c)[0] == c);
    assert(pipeline::byte_chars(c) == seq![c]);
}

proof fn lemma_plain_interpolation(
    value: Text,
    variables: Seq<(Text, Text)>,
    kind: Text,
    from: int,
)
    requires
        is_plain_argument(value),
        0 <= from <= value.len(),
    ensures
        pipeline::interpolated_from(value, variables, kind, from, value.take(from)) == Ok::<
            Text,
            Messages,
        >(value),
    decreases value.len() - from,
{
    if from < value.len() {
        assert(value[from] != '$');
        lemma_ascii_bytes(value[from]);
        assert(value.take(from) + seq![value[from]] == value.take(from + 1));
        lemma_plain_interpolation(value, variables, kind, from + 1);
    } else {
        assert(value.take(from) == value);
    }
}

proof fn lemma_plain_holds_no_substitution(value: Text, from: int)
    requires
        is_plain_argument(value),
        0 <= from <= value.len(),
    ensures
        pipeline::substitution_at(value, from) == value.len(),
    decreases value.len() - from,
{
    if from < value.len() {
        assert(value[from] != '$');
        lemma_plain_holds_no_substitution(value, from + 1);
    }
}

/// An argument that holds ASCII characters only and no `$` is passed as it stands.
pub proof fn lemma_plain_arguments_are_passed_as_they_are(
    value: Text,
    variables: Seq<(Text, Text)>,
    kind: Text,
    script: bool,
    processors: Text,
)
    requires
        is_plain_argument(value),
    ensures
        pipeline::interpolated(value, variables, kind) == Ok::<Text, Messages>(value),
        pipeline::finished_argument(script, value, processors) == Ok::<Text, Messages>(value),
{
    assert(value.take(0) == Seq::<char>::empty());
    lemma_plain_interpolation(value, variables, kind, 0);
    lemma_plain_holds_no_substitution(value, 0);
    assert(Seq::<char>::empty() + value.subrange(0, value.len() as int) == value);
}

/// The name under which commands find a dependency.
pub open spec fn dependency_name(spec: PackageSpecView) -> Text {
    "dep:"@ + spec.name + "@"@ + spec.namespace
}

proof fn lemma_names_with_namespace_differ(plain: Text, spec: PackageSpecView)
    requires
        free_of(plain, '@'),
    ensures
        "dep:"@ + plain != dependency_name(spec),
{
    reveal_strlit("dep:");
    reveal_strlit("@");
    let short = "dep:"@ + plain;
    let long = dependency_name(spec);
    let at = 4 + spec.name.len() as int;
    assert(long[at] == '@');
    assert("dep:"@.len() == 4);
    assert("@"@.len() == 1);
    assert(long.len() == 5 + spec.name.len() + spec.namespace.len());
    assert(short.len() == 4 + plain.len());
    if short == long {
        assert(at < short.len());
        assert(short[at] == plain[at - 4]);
    }
}

proof fn lemma_value_is_kept(
    id: Text,
    dependencies: Seq<PackageSpecView>,
    roots: Seq<Text>,
    from: int,
    variables: Seq<(Text, Text)>,
    result: Seq<(Text, Text)>,
    spec: PackageSpecView,
    value: Text,
)
    requires
        0 <= from <= dependencies.len(),
        environment::dependency_variables(id, dependencies, roots, from, variables) == Ok::<
            Seq<(Text, Text)>,
            Messages,
        >(result),
        text::value_of(variables, dependency_name(spec)) == Some(value),
        forall|j: int|
            from <= j < dependencies.len() ==> free_of((#[trigger] dependencies[j]).name, '@')
                && dependency_name(dependencies[j]) != dependency_name(spec),
    ensures
        text::value_of(result, dependency_name(spec)) == Some(value),
    decreases dependencies.len() - from,
{
    if from < dependencies.len() {
        let key = dependency_name(spec);
        let name = dependencies[from].name;
        let named = variables.push((dependency_name(dependencies[from]), roots[from]));
        text::lemma_pushed_pair(variables, (dependency_name(dependencies[from]), roots[from]), key);
        lemma_names_with_namespace_differ(name, spec);
        match text::value_of(named, "dep:"@ + name) {
            None => {
                let more = named.push(("dep:"@ + name, roots[from]));
                text::lemma_pushed_pair(named, ("dep:"@ + name, roots[from]), key);
                lemma_value_is_kept(
                    id,
                    dependencies,
                    roots,
                    from + 1,
                    more,
                    result,
                    spec,
                    value,
                );
            },
            Some(_) => {
                lemma_value_is_kept(
                    id,
                    dependencies,
                    roots,
                    from + 1,
                    named,
                    result,
                    spec,
                    value,
                );
            },
        }
    }
}

/// The commands of a build find each dependency, by its name and namespace, where it stands.
pub proof fn lemma_commands_find_dependencies(
    id: Text,
    dependencies: Seq<PackageSpecView>,
    roots: Seq<Text>,
    from: int,
    variables: Seq<(Text, Text)>,
    result: Seq<(Text, Text)>,
    index: int,
)
    requires
        0 <= from <= index < dependencies.len(),
        environment::dependency_variables(id, dependencies, roots, from, variables) == Ok::<
            Seq<(Text, Text)>,
            Messages,
        >(result),
        forall|j: int|
            0 <= j < dependencies.len() ==> free_of((#[trigger] dependencies[j]).name, '@'),
        forall|j: int|
            index < j < dependencies.len() ==> dependency_name(#[trigger] dependencies[j])
                != dependency_name(dependencies[index]),
    ensures
        text::value_of(result, dependency_name(dependencies[index])) == Some(roots[index]),
    decreases dependencies.len() - from,
{
    let name = dependencies[from].name;
    let pair = (dependency_name(dependencies[from]), roots[from]);
    let named = variables.push(pair);
    let more = match text::value_of(named, "dep:"@ + name) {
        None => named.push(("dep:"@ + name, roots[from])),
        Some(_) => named,
    };
    if from < index {
        lemma_commands_find_dependencies(
            id,
            dependencies,
            roots,
            from + 1,
            more,
            result,
            index,
        );
    } else {
        text::lemma_pushed_pair(variables, pair, pair.0);
        lemma_names_with_namespace_differ(name, dependencies[index]);
        text::lemma_pushed_pair(named, ("dep:"@ + name, roots[from]), pair.0);
        lemma_value_is_kept(
            id,
            dependencies,
            roots,
            from + 1,
            more,
            result,
            dependencies[index],
            roots[index],
        );
    }
}

} // verus!

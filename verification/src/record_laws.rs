//! What is written about a package is read back as it was.

use vstd::prelude::*;
use crate::failure::Messages;
use crate::model::Text;
use crate::paths;
use crate::paths::HostPlatform;
use crate::records;
use crate::records::{
    ExportManifestView, MaterializationStateView, PackageStatusView, SourceProvenanceView,
    };
use crate::text;

verus! {

/// A text without a line feed.
pub open spec fn on_one_line(s: Text) -> bool {
    forall|i: int| 0 <= i < s.len() ==> #[trigger] s[i] != '\n'
}

/// A text on one line that does not end in white space.
pub open spec fn storable(s: Text) -> bool {
    on_one_line(s) && (s.len() > 0 ==> !text::is_white_space(s.last()))
}

/// A text on one line that does not end in a carriage return.
pub open spec fn line_storable(s: Text) -> bool {
    on_one_line(s) && (s.len() > 0 ==> s.last() != '\r')
}

proof fn lemma_lines_scan(s: Text, start: int, from: int, end: int, done: Seq<Text>)
    requires
        0 <= start <= from <= end < s.len(),
        s[end] == '\n',
        forall|i: int| from <= i < end ==> #[trigger] s[i] != '\n',
    ensures
        text::lines_from(s, start, from, done) == text::lines_from(
            s,
            end + 1,
            end + 1,
            done.push(text::chomped(s.subrange(start, end))),
        ),
    decreases end - from,
{
    if from < end {
        lemma_lines_scan(s, start, from + 1, end, done);
    }
}

proof fn lemma_lines_behind(s: Text, start: int, from: int, done: Seq<Text>)
    requires
        0 <= start <= from,
    ensures
        text::lines_from(s, start, from, done) == done + text::lines_from(
            s,
            start,
            from,
            Seq::empty(),
        ),
    decreases s.len() - from,
{
    let none = Seq::<Text>::empty();
    if from >= s.len() {
        assert(done + none == done);
        assert(done + none.push(s.subrange(start, s.len() as int)) == done.push(
            s.subrange(start, s.len() as int),
        ));
    } else if s[from] == '\n' {
        let line = text::chomped(s.subrange(start, from));
        lemma_lines_behind(s, from + 1, from + 1, done.push(line));
        lemma_lines_behind(s, from + 1, from + 1, none.push(line));
        let rest = text::lines_from(s, from + 1, from + 1, none);
        assert(done.push(line) + rest == done + (none.push(line) + rest));
    } else {
        lemma_lines_behind(s, start, from + 1, done);
    }
}

proof fn lemma_lines_shift(s: Text, count: int, start: int, from: int, done: Seq<Text>)
    requires
        0 <= count <= s.len(),
        0 <= start <= from <= s.len() - count,
    ensures
        text::lines_from(s, count + start, count + from, done) == text::lines_from(
            text::after(s, count),
            start,
            from,
            done,
        ),
    decreases s.len() - count - from,
{
    let rest = text::after(s, count);
    assert(s.subrange(count + start, s.len() as int) == rest.subrange(start, rest.len() as int));
    if from < rest.len() {
        assert(rest[from] == s[count + from]);
        if rest[from] == '\n' {
            assert(s.subrange(count + start, count + from) == rest.subrange(start, from));
            lemma_lines_shift(
                s,
                count,
                from + 1,
                from + 1,
                done.push(text::chomped(rest.subrange(start, from))),
            );
        } else {
            lemma_lines_shift(s, count, start, from + 1, done);
        }
    }
}

/// The lines of a text that starts with a whole line are that line and the lines of the rest.
proof fn lemma_first_line(line: Text, rest: Text)
    requires
        on_one_line(line),
    ensures
        text::lines_of(line + "\n"@ + rest) == seq![text::chomped(line)] + text::lines_of(rest),
{
    reveal_strlit("\n");
    assert("\n"@.len() == 1 && "\n"@[0] == '\n');
    let s = line + "\n"@ + rest;
    let end = line.len() as int;
    let none = Seq::<Text>::empty();
    assert(s[end] == '\n');
    assert forall|i: int| 0 <= i < end implies #[trigger] s[i] != '\n' by {
        assert(s[i] == line[i]);
    }
    lemma_lines_scan(s, 0, 0, end, none);
    assert(s.subrange(0, end) == line);
    let first = none.push(text::chomped(line));
    lemma_lines_behind(s, end + 1, end + 1, first);
    lemma_lines_shift(s, end + 1, 0, 0, none);
    assert(text::after(s, end + 1) == rest);
    assert(first == seq![text::chomped(line)]);
}

/// A line may end in a carriage return and a line feed, neither of which belongs to it, and the
/// last line may lack its end.
pub proof fn lemma_lines_end_either_way(line: Text, rest: Text)
    requires
        on_one_line(line),
    ensures
        text::lines_of(line + "\r\n"@ + rest) == seq![line] + text::lines_of(rest),
        line.len() > 0 && line.last() != '\r' ==> text::lines_of(line + "\n"@ + rest) == seq![line]
            + text::lines_of(rest),
        line.len() > 0 ==> text::lines_of(line) == seq![line],
        text::lines_of(Seq::empty()).len() == 0,
{
    reveal_strlit("\n");
    reveal_strlit("\r\n");
    assert("\r\n"@ =~= seq!['\r', '\n']);
    assert("\n"@ =~= seq!['\n']);
    let ended = line.push('\r');
    assert(on_one_line(ended)) by {
        assert forall|i: int| 0 <= i < ended.len() implies #[trigger] ended[i] != '\n' by {
            if i < line.len() {
                assert(ended[i] == line[i]);
            }
        }
    }
    lemma_first_line(ended, rest);
    assert(ended + "\n"@ + rest =~= line + "\r\n"@ + rest);
    assert(ended.drop_last() =~= line);
    lemma_first_line(line, rest);
    if line.len() > 0 {
        lemma_last_line(line, 0);
    }
}

proof fn lemma_last_line(line: Text, from: int)
    requires
        on_one_line(line),
        0 <= from <= line.len(),
        line.len() > 0,
    ensures
        text::lines_from(line, 0, from, Seq::empty()) == seq![line],
    decreases line.len() - from,
{
    if from < line.len() {
        assert(line[from] != '\n');
        lemma_last_line(line, from + 1);
    } else {
        assert(line.subrange(0, line.len() as int) =~= line);
        assert(Seq::<Text>::empty().push(line) =~= seq![line]);
    }
}

/// The text of whole lines.
pub open spec fn unlined(lines: Seq<Text>) -> Text
    decreases lines.len(),
{
    if lines.len() == 0 {
        Seq::empty()
    } else {
        lines[0] + "\n"@ + unlined(lines.subrange(1, lines.len() as int))
    }
}

/// A text of whole lines has these lines.
pub proof fn lemma_lines_of_unlined(lines: Seq<Text>)
    requires
        forall|i: int| 0 <= i < lines.len() ==> line_storable(#[trigger] lines[i]),
    ensures
        text::lines_of(unlined(lines)) == lines,
    decreases lines.len(),
{
    if lines.len() == 0 {
        assert(text::lines_of(unlined(lines)) == lines);
    } else {
        let rest = lines.subrange(1, lines.len() as int);
        assert(line_storable(lines[0]));
        assert forall|i: int| 0 <= i < rest.len() implies line_storable(#[trigger] rest[i]) by {
            assert(rest[i] == lines[i + 1]);
        }
        lemma_lines_of_unlined(rest);
        lemma_first_line(lines[0], unlined(rest));
        assert(seq![lines[0]] + rest == lines);
    }
}

proof fn lemma_unlined_adds(a: Seq<Text>, b: Seq<Text>)
    ensures
        unlined(a + b) == unlined(a) + unlined(b),
    decreases a.len(),
{
    if a.len() == 0 {
        assert(a + b == b);
        assert(unlined(a) + unlined(b) == unlined(b));
    } else {
        let rest = a.subrange(1, a.len() as int);
        assert((a + b).subrange(1, (a + b).len() as int) == rest + b);
        lemma_unlined_adds(rest, b);
        assert((a + b)[0] == a[0]);
        assert(a[0] + "\n"@ + (unlined(rest) + unlined(b)) == (a[0] + "\n"@ + unlined(rest))
            + unlined(b));
    }
}

/// A field without its line ending.
spec fn field_line(key: Text, value: Text) -> Text {
    key + "="@ + value
}

/// The line of a field, where it has a value.
spec fn field_lines(key: Text, value: Option<Text>) -> Seq<Text> {
    match value {
        Some(value) => seq![field_line(key, value)],
        None => Seq::empty(),
    }
}

proof fn lemma_field_lines(key: Text, value: Option<Text>)
    ensures
        records::optional_field(key, value) == unlined(field_lines(key, value)),
{
    reveal_with_fuel(unlined, 2);
    match value {
        Some(value) => {
            let lines = seq![field_line(key, value)];
            assert(lines.subrange(1, 1) == Seq::<Text>::empty());
            assert(records::field(key, value) == unlined(lines));
        },
        None => {},
    }
}

/// A name that can stand before an equals sign.
spec fn is_key(key: Text) -> bool {
    &&& key.len() > 0
    &&& !text::is_white_space(key[0])
    &&& forall|i: int| 0 <= i < key.len() ==> #[trigger] key[i] != '=' && key[i] != '\n'
}

proof fn lemma_position(s: Text, c: char, from: int, at: int)
    requires
        0 <= from <= at < s.len(),
        s[at] == c,
        forall|i: int| from <= i < at ==> #[trigger] s[i] != c,
    ensures
        text::position_of(s, c, from) == at,
    decreases at - from,
{
    if from < at {
        lemma_position(s, c, from + 1, at);
    }
}

proof fn lemma_field_line_parts(key: Text, value: Text)
    requires
        is_key(key),
    ensures
        text::parted(field_line(key, value), '=') == Some((key, value)),
        on_one_line(value) ==> on_one_line(field_line(key, value)),
        line_storable(value) ==> line_storable(field_line(key, value)),
        storable(value) ==> text::trimmed(field_line(key, value)) == field_line(key, value),
        text::trimmed(field_line(key, value)).len() > 0,
{
    reveal_strlit("=");
    assert("="@.len() == 1 && "="@[0] == '=');
    let line = field_line(key, value);
    let at = key.len() as int;
    assert(line[at] == '=');
    assert forall|i: int| 0 <= i < at implies #[trigger] line[i] != '=' by {
        assert(line[i] == key[i]);
    }
    lemma_position(line, '=', 0, at);
    assert(line.subrange(0, at) == key);
    assert(line.subrange(at + 1, line.len() as int) == value);
    assert(line[0] == key[0]);
    if on_one_line(value) {
        assert forall|i: int| 0 <= i < line.len() implies #[trigger] line[i] != '\n' by {
            if i < at {
                assert(line[i] == key[i]);
            } else if i > at {
                assert(line[i] == value[i - at - 1]);
            }
        }
    }
    if value.len() > 0 {
        assert(line.last() == value.last());
    } else {
        assert(line.last() == '=');
    }
    assert(text::trimmed_start(line) == line);
    lemma_trimmed_end_keeps_start(line);
}

proof fn lemma_trimmed_end_keeps_start(s: Text)
    requires
        s.len() > 0,
        !text::is_white_space(s[0]),
    ensures
        text::trimmed_end(s).len() > 0,
    decreases s.len(),
{
    if text::is_white_space(s.last()) {
        assert(s.drop_last()[0] == s[0]);
        lemma_trimmed_end_keeps_start(s.drop_last());
    }
}

/// Every value that is there can be stored.
pub open spec fn provenance_storable(provenance: SourceProvenanceView) -> bool {
    &&& provenance.source_ref matches Some(value) ==> storable(value)
    &&& provenance.source_commit matches Some(value) ==> storable(value)
    &&& provenance.source_digest matches Some(value) ==> storable(value)
}

proof fn lemma_provenance_keys()
    ensures
        is_key("source_ref"@),
        is_key("source_commit"@),
        is_key("source_digest"@),
        "source_ref"@ != "source_commit"@,
        "source_ref"@ != "source_digest"@,
        "source_commit"@ != "source_digest"@,
{
    reveal_strlit("source_ref");
    reveal_strlit("source_commit");
    reveal_strlit("source_digest");
    assert("source_ref"@.len() == 10);
    assert("source_commit"@.len() == 13);
    assert("source_digest"@.len() == 13);
    assert("source_commit"@[7] == 'c' && "source_digest"@[7] == 'd');
}

/// A provenance record is read back as it was written.
pub proof fn lemma_provenance_reads_back(path: Text, provenance: SourceProvenanceView)
    requires
        provenance_storable(provenance),
    ensures
        records::provenance_read(path, records::provenance_text(provenance)) == Ok::<
            SourceProvenanceView,
            Messages,
        >(provenance),
{
    lemma_provenance_keys();
    let a = field_lines("source_ref"@, provenance.source_ref);
    let b = field_lines("source_commit"@, provenance.source_commit);
    let c = field_lines("source_digest"@, provenance.source_digest);
    lemma_field_lines("source_ref"@, provenance.source_ref);
    lemma_field_lines("source_commit"@, provenance.source_commit);
    lemma_field_lines("source_digest"@, provenance.source_digest);
    lemma_unlined_adds(a, b);
    lemma_unlined_adds(a + b, c);
    let lines = a + b + c;
    if let Some(value) = provenance.source_ref {
        lemma_field_line_parts("source_ref"@, value);
    }
    if let Some(value) = provenance.source_commit {
        lemma_field_line_parts("source_commit"@, value);
    }
    if let Some(value) = provenance.source_digest {
        lemma_field_line_parts("source_digest"@, value);
    }
    lemma_lines_of_unlined(lines);
    assert(records::provenance_text(provenance) == unlined(lines));
    reveal_with_fuel(records::provenance_from, 4);
}

/// Every value can be stored.
pub open spec fn state_storable(state: MaterializationStateView) -> bool {
    storable(state.store_root) && storable(state.depofile_hash) && storable(state.build_key)
}

/// A materialization record is read back as it was written.
pub proof fn lemma_state_reads_back(path: Text, state: MaterializationStateView)
    requires
        state_storable(state),
    ensures
        records::state_read(path, records::state_text(state)) == Ok::<
            MaterializationStateView,
            Messages,
        >(state),
{
    reveal_strlit("store_root");
    reveal_strlit("depofile_hash");
    reveal_strlit("build_key");
    assert("store_root"@.len() == 10 && "depofile_hash"@.len() == 13 && "build_key"@.len() == 9);
    let a = field_lines("store_root"@, Some(state.store_root));
    let b = field_lines("depofile_hash"@, Some(state.depofile_hash));
    let c = field_lines("build_key"@, Some(state.build_key));
    lemma_field_lines("store_root"@, Some(state.store_root));
    lemma_field_lines("depofile_hash"@, Some(state.depofile_hash));
    lemma_field_lines("build_key"@, Some(state.build_key));
    lemma_unlined_adds(a, b);
    lemma_unlined_adds(a + b, c);
    let lines = a + b + c;
    lemma_field_line_parts("store_root"@, state.store_root);
    lemma_field_line_parts("depofile_hash"@, state.depofile_hash);
    lemma_field_line_parts("build_key"@, state.build_key);
    lemma_lines_of_unlined(lines);
    assert(records::state_text(state) == unlined(lines));
    assert(lines.len() == 3);
    reveal_with_fuel(records::state_from, 4);
}

/// A list of paths of which none occurs twice.
spec fn all_distinct(platform: HostPlatform, list: Seq<Text>) -> bool {
    forall|i: int| 0 <= i < list.len() ==> !paths::names_path(
        platform,
        list.take(i),
        #[trigger] list[i],
    )
}

proof fn lemma_distinct_paths_distinct(platform: HostPlatform, list: Seq<Text>)
    ensures
        all_distinct(platform, paths::distinct_paths(platform, list)),
    decreases list.len(),
{
    if list.len() > 0 {
        let kept = paths::distinct_paths(platform, list.drop_last());
        lemma_distinct_paths_distinct(platform, list.drop_last());
        if !paths::names_path(platform, kept, list.last()) {
            let next = kept.push(list.last());
            assert forall|i: int| 0 <= i < next.len() implies !paths::names_path(
                platform,
                next.take(i),
                #[trigger] next[i],
            ) by {
                if i < kept.len() {
                    assert(next.take(i) == kept.take(i));
                    assert(next[i] == kept[i]);
                } else {
                    assert(next.take(i) == kept);
                }
            }
        }
    }
}

proof fn lemma_distinct_is_kept(platform: HostPlatform, list: Seq<Text>)
    requires
        all_distinct(platform, list),
    ensures
        paths::distinct_paths(platform, list) == list,
    decreases list.len(),
{
    if list.len() > 0 {
        let rest = list.drop_last();
        assert forall|i: int| 0 <= i < rest.len() implies !paths::names_path(
            platform,
            rest.take(i),
            #[trigger] rest[i],
        ) by {
            assert(rest.take(i) == list.take(i));
            assert(rest[i] == list[i]);
        }
        lemma_distinct_is_kept(platform, rest);
        let last = list.len() - 1;
        assert(list.take(last) == rest);
        assert(!paths::names_path(platform, list.take(last), list[last]));
        assert(rest.push(list.last()) == list);
    }
}

/// Dropping repeated paths twice drops no more than doing it once.
pub proof fn lemma_dropping_repeated_paths_twice(platform: HostPlatform, list: Seq<Text>)
    ensures
        paths::distinct_paths(
            platform,
            paths::distinct_paths(platform, list),
        ) == paths::distinct_paths(platform, list),
{
    lemma_distinct_paths_distinct(platform, list);
    lemma_distinct_is_kept(platform, paths::distinct_paths(platform, list));
}

/// A path that an export record can hold: it is not empty, stands on one line, does not end in
/// white space and is written as it is.
pub open spec fn exportable(platform: HostPlatform, path: Text) -> bool {
    path.len() > 0 && storable(path) && paths::shown_path(platform, path) == path
}

/// The lines of an export record for its paths.
spec fn export_lines(list: Seq<Text>) -> Seq<Text> {
    list.map_values(|path: Text| "PATH "@ + path)
}

proof fn lemma_path_lines(platform: HostPlatform, list: Seq<Text>, count: int)
    requires
        0 <= count <= list.len(),
        forall|i: int| 0 <= i < list.len() ==> exportable(platform, #[trigger] list[i]),
    ensures
        records::path_lines(platform, list, count) == unlined(export_lines(list.take(count))),
    decreases count,
{
    reveal_with_fuel(unlined, 2);
    if count == 0 {
        assert(export_lines(list.take(0)) == Seq::<Text>::empty());
    } else {
        lemma_path_lines(platform, list, count - 1);
        let last = seq!["PATH "@ + list[count - 1]];
        assert(export_lines(list.take(count)) == export_lines(list.take(count - 1)) + last);
        lemma_unlined_adds(export_lines(list.take(count - 1)), last);
        assert(last.subrange(1, 1) == Seq::<Text>::empty());
        assert(exportable(platform, list[count - 1]));
        let before = records::path_lines(platform, list, count - 1);
        assert(before + ("PATH "@ + list[count - 1] + "\n"@) == before + "PATH "@
            + list[count - 1] + "\n"@);
        assert(unlined(last) == "PATH "@ + list[count - 1] + "\n"@);
    }
}

proof fn lemma_prefixed_line(prefix: Text, value: Text)
    requires
        prefix.len() > 0,
        !text::is_white_space(prefix[0]),
        on_one_line(prefix),
        value.len() > 0,
        storable(value),
    ensures
        line_storable(prefix + value),
        text::trimmed(prefix + value) == prefix + value,
        text::has_prefix(prefix + value, prefix),
        text::after(prefix + value, prefix.len() as int) == value,
{
    let line = prefix + value;
    assert(line.last() == value.last());
    assert(line[0] == prefix[0]);
    assert forall|i: int| 0 <= i < line.len() implies #[trigger] line[i] != '\n' by {
        if i < prefix.len() {
            assert(line[i] == prefix[i]);
        } else {
            assert(line[i] == value[i - prefix.len()]);
        }
    }
    assert(text::is_white_space('\r'));
    assert(line.subrange(0, prefix.len() as int) == prefix);
    assert(text::after(line, prefix.len() as int) == value);
}

proof fn lemma_exports_from(
    path: Text,
    platform: HostPlatform,
    store_root: Text,
    list: Seq<Text>,
    lines: Seq<Text>,
    from: int,
)
    requires
        lines == seq!["STORE_ROOT "@ + store_root] + export_lines(list),
        1 <= from <= lines.len(),
        forall|i: int| 0 <= i < list.len() ==> exportable(platform, #[trigger] list[i]),
    ensures
        records::exports_from(path, lines, from, Some(store_root), list.take(from - 1)) == Ok::<
            (Option<Text>, Seq<Text>),
            Messages,
        >((Some(store_root), list)),
    decreases lines.len() - from,
{
    if from == lines.len() {
        assert(list.take(from - 1) == list);
    } else {
        reveal_strlit("PATH ");
        reveal_strlit("STORE_ROOT ");
        assert("PATH "@.len() == 5 && "STORE_ROOT "@.len() == 11);
        assert("PATH "@[0] == 'P' && "STORE_ROOT "@[0] == 'S');
        let value = list[from - 1];
        assert(exportable(platform, value));
        assert(lines[from] == "PATH "@ + value);
        lemma_prefixed_line("PATH "@, value);
        let line = "PATH "@ + value;
        if text::has_prefix(line, "STORE_ROOT "@) {
            assert(line.subrange(0, 11)[0] == line[0]);
            assert(line[0] == "PATH "@[0]);
            assert(false);
        }
        assert(list.take(from - 1).push(value) == list.take(from));
        lemma_exports_from(path, platform, store_root, list, lines, from + 1);
    }
}

/// An export record is read back as it was written, each path once.
pub proof fn lemma_exports_read_back(
    path: Text,
    platform: HostPlatform,
    store_root: Text,
    exported: Seq<Text>,
)
    requires
        exportable(platform, store_root),
        forall|i: int| 0 <= i < exported.len() ==> exportable(platform, #[trigger] exported[i]),
    ensures
        records::exports_read(
            platform,
            path,
            records::exports_text(platform, store_root, exported),
        ) == Ok::<
            ExportManifestView,
            Messages,
        >((ExportManifestView { store_root, paths: paths::distinct_paths(platform, exported) })),
{
    reveal_with_fuel(unlined, 2);
    reveal_strlit("STORE_ROOT ");
    reveal_strlit("PATH ");
    assert("STORE_ROOT "@.len() == 11 && "PATH "@.len() == 5);
    assert("STORE_ROOT "@[0] == 'S' && "PATH "@[0] == 'P');
    let kept = paths::distinct_paths(platform, exported);
    lemma_distinct_paths_from(platform, exported);
    assert forall|i: int| 0 <= i < kept.len() implies exportable(platform, #[trigger] kept[i]) by {
        assert(exported.contains(kept[i]));
        let k = exported.index_of(kept[i]);
        assert(exportable(platform, exported[k]));
    }
    lemma_path_lines(platform, kept, kept.len() as int);
    assert(kept.take(kept.len() as int) == kept);
    let head = seq!["STORE_ROOT "@ + store_root];
    let lines = head + export_lines(kept);
    lemma_unlined_adds(head, export_lines(kept));
    assert(head.subrange(1, 1) == Seq::<Text>::empty());
    assert(unlined(head) == "STORE_ROOT "@ + store_root + "\n"@);
    assert(records::exports_text(platform, store_root, exported) == unlined(lines));
    lemma_prefixed_line("STORE_ROOT "@, store_root);
    assert forall|i: int| 0 <= i < lines.len() implies line_storable(#[trigger] lines[i]) by {
        if i > 0 {
            assert(exportable(platform, kept[i - 1]));
            lemma_prefixed_line("PATH "@, kept[i - 1]);
            assert(lines[i] == "PATH "@ + kept[i - 1]);
        }
    }
    lemma_lines_of_unlined(lines);
    assert(lines[0] == "STORE_ROOT "@ + store_root);
    lemma_exports_from(path, platform, store_root, kept, lines, 1);
    assert(kept.take(0) == Seq::<Text>::empty());
    lemma_dropping_repeated_paths_twice(platform, exported);
}

proof fn lemma_distinct_paths_from(platform: HostPlatform, list: Seq<Text>)
    ensures
        forall|i: int|
            0 <= i < paths::distinct_paths(platform, list).len() ==> list.contains(
                #[trigger] paths::distinct_paths(platform, list)[i],
            ),
    decreases list.len(),
{
    if list.len() > 0 {
        let rest = list.drop_last();
        lemma_distinct_paths_from(platform, rest);
        assert forall|i: int| 0 <= i < paths::distinct_paths(platform, list).len() implies list.contains(
            #[trigger] paths::distinct_paths(platform, list)[i],
        ) by {
            let value = paths::distinct_paths(platform, list)[i];
            if i < paths::distinct_paths(platform, rest).len() {
                assert(value == paths::distinct_paths(platform, rest)[i]);
                let k = rest.index_of(value);
                assert(list[k] == value);
            } else {
                assert(value == list[list.len() - 1]);
            }
        }
    }
}

/// Every value of a status can be stored.
pub open spec fn status_storable(status: PackageStatusView) -> bool {
    &&& line_storable(status.name)
    &&& line_storable(status.namespace)
    &&& line_storable(status.version)
    &&& line_storable(status.depofile)
    &&& line_storable(status.message)
    &&& status.source_ref matches Some(value) ==> line_storable(value)
    &&& status.source_commit matches Some(value) ==> line_storable(value)
}

/// The lines of fields.
spec fn lines_for(fields: Seq<(Text, Text)>) -> Seq<Text> {
    fields.map_values(|pair: (Text, Text)| field_line(pair.0, pair.1))
}

proof fn lemma_fields_from(fields: Seq<(Text, Text)>, from: int)
    requires
        0 <= from <= fields.len(),
        forall|i: int| 0 <= i < fields.len() ==> is_key((#[trigger] fields[i]).0),
    ensures
        records::fields_from(lines_for(fields), from, fields.take(from)) == Ok::<
            Seq<(Text, Text)>,
            Messages,
        >(fields),
    decreases fields.len() - from,
{
    if from == fields.len() {
        assert(fields.take(from) == fields);
    } else {
        assert(is_key(fields[from].0));
        lemma_field_line_parts(fields[from].0, fields[from].1);
        assert(fields.take(from).push(fields[from]) == fields.take(from + 1));
        lemma_fields_from(fields, from + 1);
    }
}

proof fn lemma_unlined_fields(fields: Seq<(Text, Text)>, pair: (Text, Text))
    ensures
        unlined(lines_for(fields.push(pair))) == unlined(lines_for(fields)) + records::field(
            pair.0,
            pair.1,
        ),
{
    let last = Some(pair.1);
    lemma_field_lines(pair.0, last);
    lemma_unlined_adds(lines_for(fields), field_lines(pair.0, last));
    assert(lines_for(fields.push(pair)) == lines_for(fields) + field_lines(pair.0, last));
}

/// The fields that a status always has.
spec fn fixed_fields(status: PackageStatusView) -> Seq<(Text, Text)> {
    seq![
        ("name"@, status.name),
        ("namespace"@, status.namespace),
        ("version"@, status.version),
        ("lazy"@, records::truth_word(status.lazy)),
        ("system_libs"@, status.system_libs.word()),
        ("state"@, status.state.word()),
        ("depofile"@, status.depofile),
        ("message"@, status.message),
    ]
}

spec fn with_field(fields: Seq<(Text, Text)>, key: Text, value: Option<Text>) -> Seq<(Text, Text)> {
    match value {
        Some(value) => fields.push((key, value)),
        None => fields,
    }
}

spec fn status_fields(status: PackageStatusView) -> Seq<(Text, Text)> {
    with_field(
        with_field(fixed_fields(status), "source_ref"@, status.source_ref),
        "source_commit"@,
        status.source_commit,
    )
}

proof fn lemma_status_text(status: PackageStatusView)
    ensures
        records::status_text(status) == unlined(lines_for(status_fields(status))),
{
    let none = Seq::<(Text, Text)>::empty();
    let f = fixed_fields(status);
    assert(lines_for(none) == Seq::<Text>::empty());
    lemma_unlined_fields(none, f[0]);
    let f1 = none.push(f[0]);
    lemma_unlined_fields(f1, f[1]);
    let f2 = f1.push(f[1]);
    lemma_unlined_fields(f2, f[2]);
    let f3 = f2.push(f[2]);
    lemma_unlined_fields(f3, f[3]);
    let f4 = f3.push(f[3]);
    lemma_unlined_fields(f4, f[4]);
    let f5 = f4.push(f[4]);
    lemma_unlined_fields(f5, f[5]);
    let f6 = f5.push(f[5]);
    lemma_unlined_fields(f6, f[6]);
    let f7 = f6.push(f[6]);
    lemma_unlined_fields(f7, f[7]);
    let f8 = f7.push(f[7]);
    assert(f8 == f);
    assert(unlined(lines_for(none)) + records::field("name"@, status.name) == records::field(
        "name"@,
        status.name,
    ));
    let start = unlined(lines_for(f));
    assert(start + Seq::<char>::empty() == start);
    if let Some(value) = status.source_ref {
        lemma_unlined_fields(f, ("source_ref"@, value));
    }
    let g = with_field(f, "source_ref"@, status.source_ref);
    let middle = unlined(lines_for(g));
    assert(middle + Seq::<char>::empty() == middle);
    if let Some(value) = status.source_commit {
        lemma_unlined_fields(g, ("source_commit"@, value));
    }
}

proof fn lemma_status_keys()
    ensures
        is_key("name"@) && "name"@.len() == 4 && "name"@[0] == 'n',
        is_key("namespace"@) && "namespace"@.len() == 9,
        is_key("version"@) && "version"@.len() == 7 && "version"@[0] == 'v',
        is_key("lazy"@) && "lazy"@.len() == 4 && "lazy"@[0] == 'l',
        is_key("system_libs"@) && "system_libs"@.len() == 11,
        is_key("state"@) && "state"@.len() == 5,
        is_key("depofile"@) && "depofile"@.len() == 8,
        is_key("message"@) && "message"@.len() == 7 && "message"@[0] == 'm',
        is_key("source_ref"@) && "source_ref"@.len() == 10,
        is_key("source_commit"@) && "source_commit"@.len() == 13,
        "true"@ != "false"@,
{
    reveal_strlit("name");
    reveal_strlit("namespace");
    reveal_strlit("version");
    reveal_strlit("lazy");
    reveal_strlit("system_libs");
    reveal_strlit("state");
    reveal_strlit("depofile");
    reveal_strlit("message");
    reveal_strlit("source_ref");
    reveal_strlit("source_commit");
    reveal_strlit("true");
    reveal_strlit("false");
    assert("true"@.len() == 4 && "false"@.len() == 5);
}

proof fn lemma_words_storable(status: PackageStatusView)
    ensures
        line_storable(records::truth_word(status.lazy)),
        line_storable(status.system_libs.word()),
        line_storable(status.state.word()),
{
    reveal_strlit("true");
    reveal_strlit("false");
    reveal_strlit("INHERIT");
    reveal_strlit("NEVER");
    reveal_strlit("ALLOW");
    reveal_strlit("never_run");
    reveal_strlit("green");
    reveal_strlit("quarantined");
    reveal_strlit("failed");
}

proof fn lemma_status_values(status: PackageStatusView)
    ensures
        records::status_of(status_fields(status)) == Ok::<PackageStatusView, Messages>(status),
{
    lemma_status_keys();
    status.system_libs.lemma_word_reads_back();
    status.state.lemma_word_reads_back();
    let fields = status_fields(status);
    reveal_with_fuel(text::last_paired, 11);
    assert(text::value_of(fields, "name"@) == Some(status.name));
    assert(text::value_of(fields, "namespace"@) == Some(status.namespace));
    assert(text::value_of(fields, "version"@) == Some(status.version));
    assert(text::value_of(fields, "lazy"@) == Some(records::truth_word(status.lazy)));
    assert(text::value_of(fields, "system_libs"@) == Some(status.system_libs.word()));
    assert(text::value_of(fields, "state"@) == Some(status.state.word()));
    assert(text::value_of(fields, "depofile"@) == Some(status.depofile));
    assert(text::value_of(fields, "message"@) == Some(status.message));
    assert(text::value_of(fields, "source_ref"@) == status.source_ref);
    assert(text::value_of(fields, "source_commit"@) == status.source_commit);
}

/// A status record is read back as it was written.
pub proof fn lemma_status_reads_back(status: PackageStatusView)
    requires
        status_storable(status),
    ensures
        records::status_read(records::status_text(status)) == Ok::<PackageStatusView, Messages>(
            status,
        ),
{
    let fields = status_fields(status);
    lemma_status_keys();
    lemma_words_storable(status);
    lemma_status_text(status);
    assert forall|i: int| 0 <= i < fields.len() implies is_key((#[trigger] fields[i]).0)
        && line_storable(fields[i].1) by {
        let fixed = fixed_fields(status);
        if i < 8 {
            assert(fields[i] == fixed[i]);
        }
    }
    let lines = lines_for(fields);
    assert forall|i: int| 0 <= i < lines.len() implies line_storable(#[trigger] lines[i]) by {
        assert(is_key(fields[i].0));
        lemma_field_line_parts(fields[i].0, fields[i].1);
    }
    lemma_lines_of_unlined(lines);
    lemma_fields_from(fields, 0);
    assert(fields.take(0) == Seq::<(Text, Text)>::empty());
    lemma_status_values(status);
}

} // verus!

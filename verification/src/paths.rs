//! Paths as texts, by the rules of the host that they belong to.

use vstd::prelude::*;
use crate::arch;
use crate::arch::ascii_uppercase;
use crate::failure::{failure, outcome, Failure, Messages};
use crate::model::Text;
use crate::names;
use crate::text;
use crate::text::{
    cat2, cat3, cat4, cat5, chars_of, find_char, put, replace, same, slice, split, starts_with,
};

verus! {

/// The system that the tool runs on.
#[derive(Clone, Copy, Debug, PartialEq, Eq, Structural)]
pub enum HostPlatform {
    Linux,
    Macos,
    Windows,
}

/// Whether a path starts at the root.
pub open spec fn absolute(path: Text) -> bool {
    text::has_prefix(path, "/"@)
}

/// Decides whether a path starts at the root.
pub fn is_absolute(path: &str) -> (yes: bool)
    ensures
        yes == absolute(path@),
{
    starts_with(path, "/")
}

/// A character that separates the components of a path on Windows.
pub open spec fn is_separator(c: char) -> bool {
    c == '/' || c == '\\'
}

fn separator(c: char) -> (yes: bool)
    ensures
        yes == is_separator(c),
{
    c == '/' || c == '\\'
}

/// Whether a path of Windows starts with a drive.
pub open spec fn has_drive(path: Text) -> bool {
    path.len() >= 2 && names::is_letter(path[0]) && path[1] == ':'
}

fn starts_with_drive(path: &str) -> (yes: bool)
    ensures
        yes == has_drive(path@),
{
    let chars = chars_of(path);
    chars.len() >= 2 && (('a' <= chars[0] && chars[0] <= 'z') || ('A' <= chars[0] && chars[0]
        <= 'Z')) && chars[1] == ':'
}

/// A path with the separators that all hosts know.
pub open spec fn slashed(platform: HostPlatform, path: Text) -> Text {
    if platform == HostPlatform::Windows {
        text::replaced(path, '\\', "/"@)
    } else {
        path
    }
}

fn with_slashes(platform: HostPlatform, path: &str) -> (result: String)
    ensures
        result@ == slashed(platform, path@),
{
    if platform == HostPlatform::Windows {
        replace(path, '\\', "/")
    } else {
        path.to_owned()
    }
}

/// Writing a path with slashes keeps its length.
proof fn lemma_slashes_keep_the_length(path: Text)
    ensures
        text::replaced(path, '\\', "/"@).len() == path.len(),
    decreases path.len(),
{
    reveal_strlit("/");
    if path.len() > 0 {
        lemma_slashes_keep_the_length(path.drop_last());
    }
}

/// The length of what names the volume in a path of Windows that is written with slashes: a
/// drive, or two slashes, a server and its share, neither of them empty.
pub open spec fn windows_volume(path: Text) -> int {
    if has_drive(path) {
        2
    } else if text::has_prefix(path, "//"@) {
        let server = text::position_of(path, '/', 2);
        let share = text::position_of(path, '/', server + 1);
        if 2 < server && server + 1 < share {
            share
        } else {
            0
        }
    } else {
        0
    }
}

/// What names the volume in a path that is written with slashes; on Windows only.
pub open spec fn volume_of(platform: HostPlatform, path: Text) -> Text {
    if platform == HostPlatform::Windows {
        path.take(windows_volume(path))
    } else {
        Seq::empty()
    }
}

/// Splits a path that is written with slashes into its volume and the rest.
fn split_volume(platform: HostPlatform, path: &str) -> (parts: (String, String))
    ensures
        parts.0@ == volume_of(platform, path@),
        parts.0@.len() <= path@.len(),
        parts.1@ == text::after(path@, parts.0@.len() as int),
{
    let chars = chars_of(path);
    let mut size: usize = 0;
    if platform == HostPlatform::Windows {
        if starts_with_drive(path) {
            size = 2;
        } else if starts_with(path, "//") {
            proof {
                reveal_strlit("//");
            }
            let server = find_char(&chars, '/', 2);
            if 2 < server && server < chars.len() {
                let share = find_char(&chars, '/', server + 1);
                if server + 1 < share {
                    size = share;
                }
            }
        }
    }
    let volume = slice(path, 0, size);
    assert(volume@ == volume_of(platform, path@));
    (volume, slice(path, size, chars.len()))
}

/// Whether a path is absolute on Windows: it starts with a drive and a separator, or it names a
/// share.
pub open spec fn windows_absolute(path: Text) -> bool {
    if has_drive(path) {
        path.len() >= 3 && is_separator(path[2])
    } else {
        volume_of(HostPlatform::Windows, slashed(HostPlatform::Windows, path)).len() > 0
    }
}

/// Whether a path of a host is absolute there.
pub open spec fn absolute_on(platform: HostPlatform, path: Text) -> bool {
    if platform == HostPlatform::Windows {
        windows_absolute(path)
    } else {
        absolute(path)
    }
}

/// Decides whether a path of a host is absolute there.
pub fn is_absolute_on(platform: HostPlatform, path: &str) -> (yes: bool)
    ensures
        yes == absolute_on(platform, path@),
{
    if platform != HostPlatform::Windows {
        return is_absolute(path);
    }
    if starts_with_drive(path) {
        let chars = chars_of(path);
        return chars.len() >= 3 && separator(chars[2]);
    }
    let (volume, _) = split_volume(platform, &with_slashes(platform, path));
    volume.as_str().unicode_len() > 0
}

/// `path` as seen from `base` on Windows: a path with a volume stands for itself, and one that
/// starts at the root stands on the volume of `base`.
pub open spec fn windows_joined(base: Text, path: Text) -> Text {
    if has_drive(path) || windows_absolute(path) || base.len() == 0 {
        path
    } else if path.len() > 0 && is_separator(path[0]) {
        let volume = volume_of(HostPlatform::Windows, slashed(HostPlatform::Windows, base));
        base.take(volume.len() as int) + path
    } else if is_separator(base.last()) || (base.len() == 2 && has_drive(base)) {
        base + path
    } else {
        base + "\\"@ + path
    }
}

/// `path` as seen from `base`: an absolute `path` stands for itself.
pub open spec fn joined_path(platform: HostPlatform, base: Text, path: Text) -> Text {
    if platform == HostPlatform::Windows {
        windows_joined(base, path)
    } else if absolute(path) || base.len() == 0 {
        path
    } else if text::has_suffix(base, "/"@) {
        base + path
    } else {
        base + "/"@ + path
    }
}

fn join_windows_path(base: &str, path: &str) -> (result: String)
    ensures
        result@ == windows_joined(base@, path@),
{
    if starts_with_drive(path) || is_absolute_on(HostPlatform::Windows, path) || base.is_empty() {
        return path.to_owned();
    }
    let head = chars_of(base);
    let tail = chars_of(path);
    if tail.len() > 0 && separator(tail[0]) {
        proof {
            lemma_slashes_keep_the_length(base@);
        }
        let known = with_slashes(HostPlatform::Windows, base);
        let (volume, _) = split_volume(HostPlatform::Windows, &known);
        cat2(&slice(base, 0, volume.as_str().unicode_len()), path)
    } else if separator(head[head.len() - 1]) || (head.len() == 2 && starts_with_drive(base)) {
        cat2(base, path)
    } else {
        cat3(base, "\\", path)
    }
}

/// Appends `path` to `base`.
pub fn join_path(platform: HostPlatform, base: &str, path: &str) -> (result: String)
    ensures
        result@ == joined_path(platform, base@, path@),
{
    if platform == HostPlatform::Windows {
        join_windows_path(base, path)
    } else if is_absolute(path) || base.is_empty() {
        path.to_owned()
    } else if text::ends_with(base, "/") {
        cat2(base, path)
    } else {
        cat3(base, "/", path)
    }
}

/// Appends two paths to `base`, one after the other.
pub fn join_path2(platform: HostPlatform, base: &str, first: &str, second: &str) -> (result: String)
    ensures
        result@ == joined_path(platform, joined_path(platform, base@, first@), second@),
{
    join_path(platform, &join_path(platform, base, first), second)
}

/// Appends three paths to `base`, one after the other.
pub fn join_path3(
    platform: HostPlatform,
    base: &str,
    first: &str,
    second: &str,
    third: &str,
) -> (result: String)
    ensures
        result@ == joined_path(
            platform,
            joined_path(platform, joined_path(platform, base@, first@), second@),
            third@,
        ),
{
    join_path(platform, &join_path2(platform, base, first, second), third)
}

/// The components among the pieces of a path from position `from` on, put behind `done`:
/// empty pieces are none, and `.` is one only at the very start.
pub open spec fn components_from(parts: Seq<Text>, from: int, done: Seq<Text>) -> Seq<Text>
    decreases parts.len() - from,
{
    if from >= parts.len() {
        done
    } else if parts[from].len() == 0 || (parts[from] == "."@ && from > 0) {
        components_from(parts, from + 1, done)
    } else {
        components_from(parts, from + 1, done.push(parts[from]))
    }
}

/// The components that a path starts with: its volume, a drive under its capital letter, and `/`
/// for the root, which a share always has.
pub open spec fn first_components(volume: Text, rest: Text) -> Seq<Text> {
    let named = if volume.len() == 0 {
        Seq::empty()
    } else if has_drive(volume) {
        seq![arch::uppercase(volume)]
    } else {
        seq![volume]
    };
    if absolute(rest) || (volume.len() > 0 && !has_drive(volume)) {
        named.push("/"@)
    } else {
        named
    }
}

fn list_first_components(volume: &str, rest: &str) -> (result: Vec<String>)
    ensures
        result.deep_view() == first_components(volume@, rest@),
{
    let mut result: Vec<String> = Vec::new();
    assert(result.deep_view() == Seq::<Text>::empty());
    let drive = starts_with_drive(volume);
    if drive {
        put(&mut result, ascii_uppercase(volume));
        assert(result.deep_view() == seq![arch::uppercase(volume@)]);
    } else if !volume.is_empty() {
        put(&mut result, volume.to_owned());
        assert(result.deep_view() == seq![volume@]);
    }
    if is_absolute(rest) || (!volume.is_empty() && !drive) {
        put(&mut result, "/".to_owned());
    }
    result
}

/// The components of a path. Two paths with the same components are the same path.
pub open spec fn components_of(platform: HostPlatform, path: Text) -> Seq<Text> {
    let known = slashed(platform, path);
    let volume = volume_of(platform, known);
    let rest = text::after(known, volume.len() as int);
    components_from(text::pieces(rest, '/'), 0, first_components(volume, rest))
}

/// Splits a path into its components.
pub fn components(platform: HostPlatform, path: &str) -> (result: Vec<String>)
    ensures
        result.deep_view() == components_of(platform, path@),
{
    let (volume, rest) = split_volume(platform, &with_slashes(platform, path));
    let parts = split(&rest, '/');
    let mut result = list_first_components(&volume, &rest);
    let ghost start = result.deep_view();
    let mut from: usize = 0;
    while from < parts.len()
        invariant
            from <= parts.len(),
            components_from(parts.deep_view(), 0, start) == components_from(
                parts.deep_view(),
                from as int,
                result.deep_view(),
            ),
        decreases parts.len() - from,
    {
        let part: &str = parts[from].as_str();
        assert(part@ == parts.deep_view()[from as int]);
        if !(part.is_empty() || (same(part, ".") && from > 0)) {
            put(&mut result, part.to_owned());
        }
        from = from + 1;
    }
    result
}

/// Decides whether two lists agree in their first `count` texts.
pub fn agrees(left: &Vec<String>, right: &Vec<String>, count: usize) -> (yes: bool)
    requires
        count <= left.len(),
        count <= right.len(),
    ensures
        yes == (left.deep_view().take(count as int) == right.deep_view().take(count as int)),
{
    let mut index: usize = 0;
    while index < count
        invariant
            index <= count <= left.len(),
            count <= right.len(),
            forall|i: int| 0 <= i < index ==> left.deep_view()[i] == right.deep_view()[i],
        decreases count - index,
    {
        if !same(&left[index], &right[index]) {
            assert(left.deep_view().take(count as int)[index as int] != right.deep_view().take(
                count as int,
            )[index as int]);
            return false;
        }
        assert(left.deep_view()[index as int] == right.deep_view()[index as int]);
        index = index + 1;
    }
    assert(left.deep_view().take(count as int) == right.deep_view().take(count as int));
    true
}

/// Whether `path` is `base` or lies below it, component by component.
pub open spec fn below(platform: HostPlatform, path: Text, base: Text) -> bool {
    let whole = components_of(platform, path);
    let start = components_of(platform, base);
    start.len() <= whole.len() && whole.take(start.len() as int) == start
}

/// Decides whether `path` is `base` or lies below it.
pub fn path_starts_with(platform: HostPlatform, path: &str, base: &str) -> (yes: bool)
    ensures
        yes == below(platform, path@, base@),
{
    let whole = components(platform, path);
    let start = components(platform, base);
    assert(start.deep_view().take(start.len() as int) == start.deep_view());
    start.len() <= whole.len() && agrees(&whole, &start, start.len())
}

/// Whether two texts name the same path.
pub open spec fn same_path(platform: HostPlatform, left: Text, right: Text) -> bool {
    components_of(platform, left) == components_of(platform, right)
}

/// Decides whether two texts name the same path.
pub fn paths_equal(platform: HostPlatform, left: &str, right: &str) -> (yes: bool)
    ensures
        yes == same_path(platform, left@, right@),
{
    let first = components(platform, left);
    let second = components(platform, right);
    assert(first.deep_view().take(first.len() as int) == first.deep_view());
    assert(second.deep_view().take(second.len() as int) == second.deep_view());
    first.len() == second.len() && agrees(&first, &second, first.len())
}

/// Whether one of `paths` is the same path as `path`.
pub open spec fn names_path(platform: HostPlatform, paths: Seq<Text>, path: Text) -> bool {
    exists|i: int| 0 <= i < paths.len() && same_path(platform, #[trigger] paths[i], path)
}

/// Decides whether one of `paths` is the same path as `path`.
pub fn contains_path(platform: HostPlatform, paths: &Vec<String>, path: &str) -> (yes: bool)
    ensures
        yes == names_path(platform, paths.deep_view(), path@),
{
    let mut index: usize = 0;
    while index < paths.len()
        invariant
            index <= paths.len(),
            forall|i: int| 0 <= i < index ==> !same_path(
                platform,
                #[trigger] paths.deep_view()[i],
                path@,
            ),
        decreases paths.len() - index,
    {
        if paths_equal(platform, &paths[index], path) {
            assert(same_path(platform, paths.deep_view()[index as int], path@));
            return true;
        }
        index = index + 1;
    }
    false
}

/// `paths` with every path kept only where it first occurs.
pub open spec fn distinct_paths(platform: HostPlatform, paths: Seq<Text>) -> Seq<Text>
    decreases paths.len(),
{
    if paths.len() == 0 {
        paths
    } else {
        let kept = distinct_paths(platform, paths.drop_last());
        if names_path(platform, kept, paths.last()) {
            kept
        } else {
            kept.push(paths.last())
        }
    }
}

/// Drops every path that occurred before.
pub fn dedup_paths(platform: HostPlatform, paths: &Vec<String>) -> (kept: Vec<String>)
    ensures
        kept.deep_view() == distinct_paths(platform, paths.deep_view()),
{
    let mut kept: Vec<String> = Vec::new();
    let mut index: usize = 0;
    assert(kept.deep_view() == Seq::<Text>::empty());
    assert(paths.deep_view().take(0) == Seq::<Text>::empty());
    while index < paths.len()
        invariant
            index <= paths.len(),
            kept.deep_view() == distinct_paths(platform, paths.deep_view().take(index as int)),
        decreases paths.len() - index,
    {
        proof {
            let next = paths.deep_view().take(index as int + 1);
            assert(next.drop_last() == paths.deep_view().take(index as int));
        }
        if !contains_path(platform, &kept, &paths[index]) {
            put(&mut kept, paths[index].clone());
        }
        index = index + 1;
    }
    assert(paths.deep_view().take(index as int) == paths.deep_view());
    kept
}

/// Whether a path does not start where it is joined: it starts at the root, or on Windows on a
/// drive.
pub open spec fn rooted(platform: HostPlatform, path: Text) -> bool {
    absolute(slashed(platform, path)) || (platform == HostPlatform::Windows && has_drive(path))
}

/// Whether a path leads up at some point.
pub open spec fn climbs(platform: HostPlatform, path: Text) -> bool {
    components_of(platform, path).contains(".."@)
}

/// Whether a path is relative and holds no `..`: joined to a root it stays below the root.
pub open spec fn confined(platform: HostPlatform, path: Text) -> bool {
    !rooted(platform, path) && !climbs(platform, path)
}

/// The outcome of demanding that a path be confined.
pub open spec fn confinement(platform: HostPlatform, path: Text, context: Text) -> Result<
    (),
    Messages,
> {
    if rooted(platform, path) {
        Err(seq![context + " must be relative, got '"@ + path + "'"@])
    } else if climbs(platform, path) {
        Err(seq![context + " must not contain '..', got '"@ + path + "'"@])
    } else {
        Ok(())
    }
}

/// Refuses a path that is absolute or holds `..`.
pub fn ensure_relative_confined_path(
    platform: HostPlatform,
    path: &str,
    context: &str,
) -> (result: Result<(), Failure>)
    ensures
        outcome(result) == confinement(platform, path@, context@),
        result is Ok <==> confined(platform, path@),
{
    if is_absolute(&with_slashes(platform, path)) || (platform == HostPlatform::Windows
        && starts_with_drive(path)) {
        return Err(failure(cat4(context, " must be relative, got '", path, "'")));
    }
    let parts = components(platform, path);
    if text::contains_text(&parts, "..") {
        return Err(failure(cat4(context, " must not contain '..', got '", path, "'")));
    }
    Ok(())
}

/// The outcome of checking the name of an archive member.
pub open spec fn member_confinement(platform: HostPlatform, member: Text, archive: Text) -> Result<
    (),
    Messages,
> {
    if member.len() == 0 {
        Err(seq!["archive '"@ + archive + "' contains an empty entry name"@])
    } else {
        confinement(platform, member, "archive '"@ + archive + "' entry '"@ + member + "'"@)
    }
}

/// Refuses an archive member that would be unpacked outside the destination.
pub fn ensure_archive_member_path_safe(
    platform: HostPlatform,
    member: &str,
    archive_path: &str,
) -> (result: Result<(), Failure>)
    ensures
        outcome(result) == member_confinement(platform, member@, archive_path@),
        result is Ok ==> confined(platform, member@),
{
    if member.is_empty() {
        return Err(failure(cat3("archive '", archive_path, "' contains an empty entry name")));
    }
    ensure_relative_confined_path(
        platform,
        member,
        &cat5("archive '", archive_path, "' entry '", member, "'"),
    )
}

/// A host path without the verbatim prefix that Windows puts before canonical paths.
pub open spec fn plain_host_path(platform: HostPlatform, path: Text) -> Text {
    if platform != HostPlatform::Windows {
        path
    } else if text::has_prefix(path, "\\\\?\\UNC\\"@) {
        "\\\\"@ + text::after(path, "\\\\?\\UNC\\"@.len() as int)
    } else if text::has_prefix(path, "\\\\?\\"@) {
        text::after(path, "\\\\?\\"@.len() as int)
    } else {
        path
    }
}

/// Drops the verbatim prefix that Windows puts before canonical paths.
pub fn normalize_host_path(platform: HostPlatform, path: &str) -> (result: String)
    ensures
        result@ == plain_host_path(platform, path@),
{
    if platform != HostPlatform::Windows {
        path.to_owned()
    } else if let Some(rest) = text::strip_prefix(path, "\\\\?\\UNC\\") {
        cat2("\\\\", &rest)
    } else if let Some(rest) = text::strip_prefix(path, "\\\\?\\") {
        rest
    } else {
        path.to_owned()
    }
}

/// A host path written with slashes.
pub open spec fn shown_path(platform: HostPlatform, path: Text) -> Text {
    text::replaced(plain_host_path(platform, path), '\\', "/"@)
}

/// Writes a host path with slashes.
pub fn display_path(platform: HostPlatform, path: &str) -> (result: String)
    ensures
        result@ == shown_path(platform, path@),
{
    replace(&normalize_host_path(platform, path), '\\', "/")
}

/// Whether the piece of a path at a position is a component.
pub open spec fn is_component(parts: Seq<Text>, index: int) -> bool {
    parts[index].len() > 0 && (parts[index] != "."@ || index == 0)
}

/// The position of the last component among the first `count` pieces, or minus one.
pub open spec fn last_component(parts: Seq<Text>, count: int) -> int
    decreases count,
{
    if count <= 0 {
        -1
    } else if is_component(parts, count - 1) {
        count - 1
    } else {
        last_component(parts, count - 1)
    }
}

/// A path without a volume, without its last component; none for the root and for the empty
/// path.
pub open spec fn plain_parent(path: Text) -> Option<Text> {
    let parts = text::pieces(path, '/');
    let last = last_component(parts, parts.len() as int);
    let before = last_component(parts, last);
    if last < 0 {
        None
    } else if before < 0 {
        Some(
            if absolute(path) {
                "/"@
            } else {
                ""@
            },
        )
    } else {
        Some(text::joined(parts.take(before + 1), "/"@))
    }
}

fn find_last_component(parts: &Vec<String>, count: usize) -> (found: Option<usize>)
    requires
        count <= parts.len(),
    ensures
        match found {
            Some(index) => index < count && last_component(parts.deep_view(), count as int)
                == index as int,
            None => last_component(parts.deep_view(), count as int) == -1,
        },
{
    let mut end: usize = count;
    while end > 0
        invariant
            end <= count <= parts.len(),
            last_component(parts.deep_view(), count as int) == last_component(
                parts.deep_view(),
                end as int,
            ),
        decreases end,
    {
        let part: &str = parts[end - 1].as_str();
        assert(parts.deep_view()[end - 1] == part@);
        if !part.is_empty() && (!same(part, ".") || end == 1) {
            return Some(end - 1);
        }
        end = end - 1;
    }
    None
}

fn plain_parent_path(path: &str) -> (parent: Option<String>)
    ensures
        parent.deep_view() == plain_parent(path@),
{
    let parts = split(path, '/');
    assert(parts.deep_view().len() == parts.len());
    let last = match find_last_component(&parts, parts.len()) {
        Some(last) => last,
        None => {
            return None;
        },
    };
    match find_last_component(&parts, last) {
        Some(before) => Some(text::join(&text::dup_range(&parts, 0, before + 1), "/")),
        None => Some(
            if is_absolute(path) {
                "/".to_owned()
            } else {
                "".to_owned()
            },
        ),
    }
}

/// The path without its last component; none for a root and where there is no component.
pub open spec fn parent_of(platform: HostPlatform, path: Text) -> Option<Text> {
    let known = slashed(platform, path);
    let volume = volume_of(platform, known);
    match plain_parent(text::after(known, volume.len() as int)) {
        Some(parent) => Some(path.take((volume.len() + parent.len()) as int)),
        None => None,
    }
}

/// The pieces of a path make up the path.
proof fn lemma_pieces_make_the_path(path: Text, start: int, from: int, done: Seq<Text>)
    requires
        0 <= start <= from <= path.len(),
    ensures
        text::joined(text::pieces_from(path, '/', start, from, done), "/"@) == (if done.len() == 0 {
            text::after(path, start)
        } else {
            text::joined(done, "/"@) + "/"@ + text::after(path, start)
        }),
    decreases path.len() - from,
{
    reveal_strlit("/");
    if from >= path.len() {
        let whole = done.push(text::after(path, start));
        assert(whole.drop_last() == done);
    } else if path[from] == '/' {
        let piece = path.subrange(start, from);
        lemma_pieces_make_the_path(path, from + 1, from + 1, done.push(piece));
        assert(done.push(piece).drop_last() == done);
        assert(text::after(path, start) == piece + "/"@ + text::after(path, from + 1));
        if done.len() > 0 {
            assert(text::joined(done, "/"@) + "/"@ + piece + "/"@ + text::after(path, from + 1)
                == text::joined(done, "/"@) + "/"@ + text::after(path, start));
        }
    } else {
        lemma_pieces_make_the_path(path, start, from + 1, done);
    }
}

/// The first `count` of some pieces make up no more than all of them.
proof fn lemma_fewer_pieces_are_shorter(parts: Seq<Text>, count: int)
    requires
        0 <= count <= parts.len(),
    ensures
        text::joined(parts.take(count), "/"@).len() <= text::joined(parts, "/"@).len(),
    decreases parts.len(),
{
    if count == parts.len() {
        assert(parts.take(count) == parts);
    } else {
        lemma_fewer_pieces_are_shorter(parts.drop_last(), count);
        assert(parts.drop_last().take(count) == parts.take(count));
    }
}

/// A path without its last component is no longer than the path.
proof fn lemma_parent_is_no_longer(path: Text)
    ensures
        plain_parent(path) matches Some(parent) ==> parent.len() <= path.len(),
{
    reveal_strlit("/");
    reveal_strlit("");
    let parts = text::pieces(path, '/');
    let last = last_component(parts, parts.len() as int);
    let before = last_component(parts, last);
    lemma_pieces_make_the_path(path, 0, 0, Seq::empty());
    assert(text::after(path, 0) == path);
    if last >= 0 && before >= 0 {
        lemma_last_component_in_range(parts, parts.len() as int);
        lemma_last_component_in_range(parts, last);
        lemma_fewer_pieces_are_shorter(parts, before + 1);
    }
}

/// The last component among some pieces is one of them.
proof fn lemma_last_component_in_range(parts: Seq<Text>, count: int)
    ensures
        last_component(parts, count) < count || last_component(parts, count) == -1,
    decreases count,
{
    if count > 0 {
        lemma_last_component_in_range(parts, count - 1);
    }
}

/// Drops the last component of a path.
pub fn parent_path(platform: HostPlatform, path: &str) -> (parent: Option<String>)
    ensures
        parent.deep_view() == parent_of(platform, path@),
{
    let (volume, rest) = split_volume(platform, &with_slashes(platform, path));
    proof {
        lemma_slashes_keep_the_length(path@);
        lemma_parent_is_no_longer(rest@);
    }
    match plain_parent_path(&rest) {
        Some(parent) => {
            let dropped: usize = rest.as_str().unicode_len() - parent.as_str().unicode_len();
            Some(slice(path, 0, path.unicode_len() - dropped))
        },
        None => None,
    }
}

} // verus!

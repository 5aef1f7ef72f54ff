//! What the files of a registry say: how the public names of packages lead to their files.

use vstd::prelude::*;
use crate::failure::Messages;
use crate::layout;
use crate::model::{PackageKeyView, TargetKind, TargetSpecView, Text};
use crate::paths;
use crate::paths::HostPlatform;
use crate::render;
use crate::render::TargetContextView;
use crate::resolve::ResolvedPackageView;
use crate::target_laws;
use crate::targets;
use crate::targets::TargetPublicRole;
use crate::text;
use crate::text_laws;

verus! {

/// Whether a text holds another somewhere.
pub open spec fn holds(whole: Text, part: Text) -> bool {
    exists|at: int| #[trigger] stands_at(whole, part, at)
}

/// Whether a text stands at a position of another.
pub open spec fn stands_at(whole: Text, part: Text, at: int) -> bool {
    0 <= at && at + part.len() <= whole.len() && whole.subrange(at, at + part.len()) == part
}

pub(crate) proof fn lemma_holds_between(before: Text, part: Text, behind: Text)
    ensures
        holds(before + part + behind, part),
{
    let whole = before + part + behind;
    assert(whole.subrange(before.len() as int, (before.len() + part.len()) as int) =~= part);
    assert(stands_at(whole, part, before.len() as int));
}

pub(crate) proof fn lemma_holds_within(whole: Text, middle: Text, part: Text)
    requires
        holds(whole, middle),
        holds(middle, part),
    ensures
        holds(whole, part),
{
    let i = choose|i: int| #[trigger] stands_at(whole, middle, i);
    let j = choose|j: int| #[trigger] stands_at(middle, part, j);
    assert(whole.subrange(i + j, i + j + part.len()) =~= middle.subrange(j, j + part.len())) by {
        assert forall|k: int| 0 <= k < part.len() implies whole[i + j + k] == #[trigger] middle[j
            + k] by {
            assert(whole.subrange(i, i + middle.len())[j + k] == middle[j + k]);
        }
    }
    assert(stands_at(whole, part, i + j));
}

pub(crate) proof fn lemma_holds_in_either(left: Text, right: Text, part: Text)
    ensures
        holds(left, part) ==> holds(left + right, part),
        holds(right, part) ==> holds(left + right, part),
{
    if holds(left, part) {
        lemma_holds_between(Seq::empty(), left, right);
        assert(Seq::empty() + left + right =~= left + right);
        lemma_holds_within(left + right, left, part);
    }
    if holds(right, part) {
        lemma_holds_between(left, right, Seq::empty());
        assert(left + right + Seq::empty() =~= left + right);
        lemma_holds_within(left + right, right, part);
    }
}

pub(crate) proof fn lemma_holds_itself(part: Text)
    ensures
        holds(part, part),
{
    assert(part.subrange(0, part.len() as int) =~= part);
    assert(stands_at(part, part, 0));
}

/// The text that CMake reads from what stands between double quotation marks, from a position on,
/// put behind `done`: a backslash takes the next character as it is. None where the marks end
/// before the text does.
pub open spec fn cmake_reads(s: Text, from: int, done: Text) -> Option<Text>
    decreases s.len() - from,
{
    if from >= s.len() {
        Some(done)
    } else if s[from] == '"' {
        None
    } else if s[from] == '\\' {
        if from + 1 >= s.len() {
            None
        } else {
            cmake_reads(s, from + 2, done.push(s[from + 1]))
        }
    } else {
        cmake_reads(s, from + 1, done.push(s[from]))
    }
}

/// What a character becomes between double quotation marks.
spec fn mark(c: char) -> Text {
    if c == '\\' || c == '"' {
        seq!['\\', c]
    } else {
        seq![c]
    }
}

proof fn lemma_replaced_joins(a: Text, b: Text, c: char, with: Text)
    ensures
        text::replaced(a + b, c, with) == text::replaced(a, c, with) + text::replaced(b, c, with),
    decreases b.len(),
{
    if b.len() == 0 {
        assert(a + b =~= a);
        assert(text::replaced(a, c, with) + b =~= text::replaced(a, c, with));
    } else {
        assert((a + b).drop_last() =~= a + b.drop_last());
        lemma_replaced_joins(a, b.drop_last(), c, with);
        let (x, y) = (text::replaced(a, c, with), text::replaced(b.drop_last(), c, with));
        if b.last() == c {
            assert(x + y + with =~= x + (y + with));
        } else {
            assert((x + y).push(b.last()) =~= x + y.push(b.last()));
        }
    }
}

proof fn lemma_replaced_one(x: char, c: char, with: Text)
    ensures
        text::replaced(seq![x], c, with) == if x == c {
            with
        } else {
            seq![x]
        },
{
    let one = seq![x];
    let none = Seq::<char>::empty();
    assert(one.drop_last() =~= none);
    assert(text::replaced(none, c, with) == none);
    assert(none + with =~= with);
    assert(none.push(x) =~= one);
}

proof fn lemma_escaped_grows(value: Text)
    requires
        value.len() > 0,
    ensures
        render::escaped(value) == render::escaped(value.drop_last()) + mark(value.last()),
{
    reveal_strlit("\\\\");
    reveal_strlit("\\\"");
    let (rest, c) = (value.drop_last(), value.last());
    let (slashes, quotes) = ("\\\\"@, "\\\""@);
    assert(slashes =~= seq!['\\', '\\']);
    assert(quotes =~= seq!['\\', '"']);
    assert(value =~= rest + seq![c]);
    lemma_replaced_joins(rest, seq![c], '\\', slashes);
    lemma_replaced_one(c, '\\', slashes);
    let step = text::replaced(seq![c], '\\', slashes);
    lemma_replaced_joins(text::replaced(rest, '\\', slashes), step, '"', quotes);
    if c == '\\' {
        assert(slashes =~= seq!['\\'] + seq!['\\']);
        lemma_replaced_joins(seq!['\\'], seq!['\\'], '"', quotes);
        lemma_replaced_one('\\', '"', quotes);
        assert(seq!['\\'] + seq!['\\'] =~= mark(c));
    } else {
        lemma_replaced_one(c, '"', quotes);
        assert(text::replaced(step, '"', quotes) =~= mark(c));
    }
}

proof fn lemma_escaped_is_read(value: Text, behind: Text)
    ensures
        cmake_reads(render::escaped(value) + behind, 0, Seq::empty()) == cmake_reads(
            render::escaped(value) + behind,
            render::escaped(value).len() as int,
            value,
        ),
    decreases value.len(),
{
    let whole = render::escaped(value) + behind;
    if value.len() == 0 {
        assert(text::replaced(value, '\\', "\\\\"@) == value);
        assert(render::escaped(value) == value);
        assert(value =~= Seq::<char>::empty());
    } else {
        let (rest, c) = (value.drop_last(), value.last());
        lemma_escaped_grows(value);
        lemma_escaped_is_read(rest, mark(c) + behind);
        let before = render::escaped(rest);
        assert(whole =~= before + (mark(c) + behind));
        let at = before.len() as int;
        assert(whole[at] == mark(c)[0]);
        assert(rest.push(c) =~= value);
        if c == '\\' || c == '"' {
            assert(whole[at + 1] == mark(c)[1]);
        }
    }
}

/// CMake reads a quoted text as it was given, whatever characters it holds.
pub proof fn lemma_cmake_reads_the_text(value: Text)
    ensures
        cmake_reads(render::escaped(value), 0, Seq::empty()) == Some(value),
{
    lemma_escaped_is_read(value, Seq::empty());
    assert(render::escaped(value) + Seq::empty() =~= render::escaped(value));
}

/// An ASCII letter or digit.
pub open spec fn is_plain(c: char) -> bool {
    ('a' <= c <= 'z') || ('A' <= c <= 'Z') || ('0' <= c <= '9')
}

/// A text with an underscore in place of everything but ASCII letters and digits.
pub open spec fn underscored(value: Text) -> Text {
    Seq::new(
        value.len(),
        |i: int|
            if is_plain(value[i]) {
                value[i]
            } else {
                '_'
            },
    )
}

/// The name that a registry gives to the target at a position of a package.
pub open spec fn inner_name(package: ResolvedPackageView, index: nat) -> Text {
    "_depos_"@ + underscored(package.spec.name) + "_"@ + underscored(package.spec.namespace)
        + "_"@ + underscored(package.spec.version) + "_t"@ + text::numeral(index)
}

/// The name that a registry gives to one face of a target.
pub open spec fn inner_face(package: ResolvedPackageView, index: nat, face: Text) -> Text {
    inner_name(package, index) + "__"@ + face
}

proof fn lemma_inner_names(package: ResolvedPackageView, index: nat)
    ensures
        targets::internal_name(package, index) == inner_name(package, index),
        targets::internal_component(package, index, TargetPublicRole::Base) == inner_name(
            package,
            index,
        ),
        targets::internal_component(package, index, TargetPublicRole::Interface) == inner_face(
            package,
            index,
            "interface"@,
        ),
        targets::internal_component(package, index, TargetPublicRole::Static) == inner_face(
            package,
            index,
            "static"@,
        ),
        targets::internal_component(package, index, TargetPublicRole::Shared) == inner_face(
            package,
            index,
            "shared"@,
        ),
        targets::internal_component(package, index, TargetPublicRole::Object) == inner_face(
            package,
            index,
            "object"@,
        ),
{
    assert(targets::identifier_of(package.spec.name) =~= underscored(package.spec.name));
    assert(targets::identifier_of(package.spec.namespace) =~= underscored(package.spec.namespace));
    assert(targets::identifier_of(package.spec.version) =~= underscored(package.spec.version));
}

/// A library with what is said of it.
pub open spec fn library_said(name: Text, kind: Text, properties: Text) -> Text {
    "if (NOT TARGET "@ + name + ")\n"@ + "  add_library("@ + name + " "@ + kind + ")\n"@
        + "  set_target_properties("@ + name + " PROPERTIES\n"@ + properties + "  )\n"@
        + "endif()\n"@
}

/// A library file that has the interface of its target.
pub open spec fn file_said(
    name: Text,
    kind: Text,
    property: Text,
    file: Text,
    interface: Text,
) -> Text {
    library_said(
        name,
        kind + " IMPORTED GLOBAL"@,
        "    "@ + property + " \""@ + render::escaped(file) + "\"\n"@
            + "    INTERFACE_LINK_LIBRARIES \""@ + render::escaped(interface) + "\"\n"@,
    )
}

/// A target that links to another.
pub open spec fn link_said(name: Text, link: Text) -> Text {
    library_said(
        name,
        "INTERFACE IMPORTED GLOBAL"@,
        "    INTERFACE_LINK_LIBRARIES \""@ + render::escaped(link) + "\"\n"@,
    )
}

/// A name that stands for another.
pub open spec fn alias_said(name: Text, other: Text) -> Text {
    "if (NOT TARGET "@ + name + ")\n"@ + "  add_library("@ + name + " ALIAS "@ + other + ")\n"@
        + "endif()\n"@
}

/// Where a path of a package stands in the store, as CMake is told.
pub open spec fn stored(
    platform: HostPlatform,
    depos_root: Text,
    variant: Text,
    package: ResolvedPackageView,
    path: Text,
) -> Text {
    paths::shown_path(
        platform,
        paths::joined_path(
            platform,
            layout::store_root_of(platform, depos_root, variant, package.spec),
            path,
        ),
    )
}

/// What the public name of a target links to: its library where it has exactly one, else its
/// interface, which leaves the choice to who links.
pub open spec fn only_face(target: TargetSpecView) -> Text {
    match (target.static_path, target.shared_path, target.object_path) {
        (Some(_), None, None) => "static"@,
        (None, Some(_), None) => "shared"@,
        (None, None, Some(_)) => "object"@,
        _ => "interface"@,
    }
}

proof fn lemma_library_blocks(
    context: TargetContextView,
    package: ResolvedPackageView,
    target: TargetSpecView,
    index: nat,
    count: int,
    at: int,
)
    requires
        0 <= at < count <= target.artifacts().len(),
    ensures
        holds(
            render::artifact_blocks(context, package, target, index, count),
            render::artifact_block(
                context,
                target.artifacts()[at].0,
                target.artifacts()[at].1,
                targets::internal_component(
                    package,
                    index,
                    targets::role_of(target.artifacts()[at].0),
                ),
                targets::internal_component(package, index, TargetPublicRole::Interface),
            ),
        ),
    decreases count,
{
    let (kind, path) = target.artifacts()[count - 1];
    let before = render::artifact_blocks(context, package, target, index, count - 1);
    let last = render::artifact_block(
        context,
        kind,
        path,
        targets::internal_component(package, index, targets::role_of(kind)),
        targets::internal_component(package, index, TargetPublicRole::Interface),
    );
    let (wanted_kind, wanted_path) = target.artifacts()[at];
    let wanted = render::artifact_block(
        context,
        wanted_kind,
        wanted_path,
        targets::internal_component(package, index, targets::role_of(wanted_kind)),
        targets::internal_component(package, index, TargetPublicRole::Interface),
    );
    lemma_holds_in_either(before, last, wanted);
    if at < count - 1 {
        lemma_library_blocks(context, package, target, index, count - 1, at);
    } else {
        lemma_holds_itself(last);
    }
}

proof fn lemma_alias_blocks(bindings: Seq<(Text, Text)>, count: int, at: int)
    requires
        0 <= at < count <= bindings.len(),
    ensures
        holds(render::alias_blocks(bindings, count), alias_said(bindings[at].0, bindings[at].1)),
    decreases count,
{
    let (name, other) = bindings[count - 1];
    let last = render::declaration(name, "ALIAS "@ + other, Seq::empty());
    let before = render::alias_blocks(bindings, count - 1);
    let wanted = alias_said(bindings[at].0, bindings[at].1);
    lemma_holds_in_either(before, last, wanted);
    if at < count - 1 {
        lemma_alias_blocks(bindings, count - 1, at);
    } else {
        lemma_alias_text(name, other);
        lemma_holds_itself(last);
    }
}

proof fn lemma_alias_text(name: Text, other: Text)
    ensures
        render::declaration(name, "ALIAS "@ + other, Seq::empty()) == alias_said(name, other),
{
    reveal_strlit(" ALIAS ");
    reveal_strlit("ALIAS ");
    reveal_strlit(" ");
    let start = "if (NOT TARGET "@ + name + ")\n"@ + "  add_library("@ + name;
    assert(" "@ + "ALIAS "@ =~= " ALIAS "@);
    assert(start + " "@ + ("ALIAS "@ + other) + ")\n"@ + Seq::empty() + "endif()\n"@ =~= start + (
    " "@ + "ALIAS "@) + other + ")\n"@ + "endif()\n"@);
}

proof fn lemma_block_text(name: Text, kind: Text, lines: Text)
    ensures
        render::declaration(name, kind, render::property_block(name, lines)) == library_said(
            name,
            kind,
            lines,
        ),
{
    let start = "if (NOT TARGET "@ + name + ")\n"@ + "  add_library("@ + name + " "@ + kind
        + ")\n"@;
    assert(start + ("  set_target_properties("@ + name + " PROPERTIES\n"@ + lines + "  )\n"@)
        + "endif()\n"@ =~= start + "  set_target_properties("@ + name + " PROPERTIES\n"@ + lines
        + "  )\n"@ + "endif()\n"@);
}

/// Whether a text declares a target of a package: each of its libraries as the file in the store,
/// and the target itself as what its only library or its interface gives.
pub open spec fn declares(
    whole: Text,
    platform: HostPlatform,
    depos_root: Text,
    variant: Text,
    package: ResolvedPackageView,
    index: nat,
) -> bool {
    let target = package.spec.targets[index as int];
    let interface = inner_face(package, index, "interface"@);
    &&& target.static_path matches Some(path) ==> holds(
        whole,
        file_said(
            inner_face(package, index, "static"@),
            "STATIC"@,
            "IMPORTED_LOCATION"@,
            stored(platform, depos_root, variant, package, path),
            interface,
        ),
    )
    &&& target.shared_path matches Some(path) ==> holds(
        whole,
        file_said(
            inner_face(package, index, "shared"@),
            "SHARED"@,
            "IMPORTED_LOCATION"@,
            stored(platform, depos_root, variant, package, path),
            interface,
        ),
    )
    &&& target.object_path matches Some(path) ==> holds(
        whole,
        file_said(
            inner_face(package, index, "object"@),
            "OBJECT"@,
            "IMPORTED_OBJECTS"@,
            stored(platform, depos_root, variant, package, path),
            interface,
        ),
    )
    &&& holds(
        whole,
        link_said(inner_name(package, index), inner_face(package, index, only_face(target))),
    )
}

proof fn lemma_library_is_declared(
    context: TargetContextView,
    package: ResolvedPackageView,
    target: TargetSpecView,
    index: nat,
    at: int,
    face: Text,
    property: Text,
)
    requires
        0 <= at < target.artifacts().len(),
        ({
            let kind = target.artifacts()[at].0;
            ||| kind == TargetKind::Static && face == "static"@ && property
                == "IMPORTED_LOCATION"@
            ||| kind == TargetKind::Shared && face == "shared"@ && property
                == "IMPORTED_LOCATION"@
            ||| kind == TargetKind::Object && face == "object"@ && property == "IMPORTED_OBJECTS"@
        }),
    ensures
        holds(
            render::target_block(context, package, target, index),
            file_said(
                inner_face(package, index, face),
                target.artifacts()[at].0.word(),
                property,
                paths::shown_path(
                    context.platform,
                    paths::joined_path(context.platform, context.root, target.artifacts()[at].1),
                ),
                inner_face(package, index, "interface"@),
            ),
        ),
{
    let (kind, path) = target.artifacts()[at];
    lemma_inner_names(package, index);
    let count = target.artifacts().len() as int;
    lemma_library_blocks(context, package, target, index, count, at);
    let blocks = render::artifact_blocks(context, package, target, index, count);
    let file = paths::shown_path(
        context.platform,
        paths::joined_path(context.platform, context.root, path),
    );
    let name = inner_face(package, index, face);
    let interface = inner_face(package, index, "interface"@);
    lemma_block_text(
        name,
        kind.word() + " IMPORTED GLOBAL"@,
        "    "@ + property + " \""@ + render::escaped(file) + "\"\n"@
            + "    INTERFACE_LINK_LIBRARIES \""@ + render::escaped(interface) + "\"\n"@,
    );
    lemma_target_parts(context, package, target, index, blocks);
    lemma_holds_within(
        render::target_block(context, package, target, index),
        blocks,
        file_said(name, kind.word(), property, file, interface),
    );
}

/// The pieces that the declarations of a target are made of.
proof fn lemma_target_parts(
    context: TargetContextView,
    package: ResolvedPackageView,
    target: TargetSpecView,
    index: nat,
    blocks: Text,
)
    requires
        blocks == render::artifact_blocks(
            context,
            package,
            target,
            index,
            target.artifacts().len() as int,
        ),
    ensures
        ({
            let whole = render::target_block(context, package, target, index);
            let bindings = targets::public_bindings(package, target, index);
            &&& holds(whole, blocks)
            &&& holds(
                whole,
                render::interface_block(
                    context,
                    target,
                    targets::internal_component(package, index, TargetPublicRole::Interface),
                ),
            )
            &&& holds(
                whole,
                link_said(
                    targets::internal_component(package, index, TargetPublicRole::Base),
                    render::base_link(package, target, index),
                ),
            )
            &&& holds(whole, render::alias_blocks(bindings, bindings.len() as int))
        }),
{
    let interface = targets::internal_component(package, index, TargetPublicRole::Interface);
    let base = targets::internal_component(package, index, TargetPublicRole::Base);
    let bindings = targets::public_bindings(package, target, index);
    let first = render::interface_block(context, target, interface);
    let lines = "    INTERFACE_LINK_LIBRARIES \""@ + render::escaped(
        render::base_link(package, target, index),
    ) + "\"\n"@;
    let link = render::declaration(
        base,
        "INTERFACE IMPORTED GLOBAL"@,
        render::property_block(base, lines),
    );
    let aliases = render::alias_blocks(bindings, bindings.len() as int);
    lemma_block_text(base, "INTERFACE IMPORTED GLOBAL"@, lines);
    let whole = first + blocks + link + aliases;
    assert(render::target_block(context, package, target, index) == whole);
    let none = Seq::<char>::empty();
    lemma_holds_between(none, first, blocks + link + aliases);
    assert(none + first + (blocks + link + aliases) =~= whole);
    lemma_holds_between(first, blocks, link + aliases);
    assert(first + blocks + (link + aliases) =~= whole);
    lemma_holds_between(first + blocks, link, aliases);
    lemma_holds_between(first + blocks + link, aliases, none);
    assert(first + blocks + link + aliases + none =~= whole);
}

/// A text that is made of two holds what the first of them holds, and the second.
pub(crate) proof fn lemma_holds_in_sum(whole: Text, left: Text, right: Text, part: Text)
    requires
        whole == left + right,
        holds(left, part) || right == part,
    ensures
        holds(whole, part),
{
    if right == part {
        lemma_holds_itself(part);
    }
    lemma_holds_in_either(left, right, part);
}

#[verifier::spinoff_prover]
#[verifier::rlimit(60)]
proof fn lemma_blocks_hold_target(
    context: TargetContextView,
    package: ResolvedPackageView,
    count: int,
    index: int,
)
    requires
        0 <= index < count <= package.spec.targets.len(),
    ensures
        holds(
            render::target_blocks(context, package, count),
            render::target_block(context, package, package.spec.targets[index], index as nat),
        ),
    decreases count,
{
    if index < count - 1 {
        lemma_blocks_hold_target(context, package, count - 1, index);
    }
    lemma_holds_in_sum(
        render::target_blocks(context, package, count),
        render::target_blocks(context, package, count - 1),
        render::target_block(
            context,
            package,
            package.spec.targets[count - 1],
            (count - 1) as nat,
        ),
        render::target_block(context, package, package.spec.targets[index], index as nat),
    );
}

proof fn lemma_blocks_hold_package(
    platform: HostPlatform,
    depos_root: Text,
    variant: Text,
    selected: Seq<ResolvedPackageView>,
    count: int,
    place: int,
)
    requires
        0 <= place < count <= selected.len(),
    ensures
        holds(
            render::package_blocks(platform, depos_root, variant, selected, count),
            render::package_block(platform, depos_root, variant, selected, selected[place]),
        ),
    decreases count,
{
    let before = render::package_blocks(platform, depos_root, variant, selected, count - 1);
    let last = render::package_block(platform, depos_root, variant, selected, selected[count - 1]);
    let wanted = render::package_block(platform, depos_root, variant, selected, selected[place]);
    lemma_holds_in_either(before, last, wanted);
    if place < count - 1 {
        lemma_blocks_hold_package(platform, depos_root, variant, selected, count - 1, place);
    } else {
        lemma_holds_itself(last);
    }
}

proof fn lemma_package_text(
    platform: HostPlatform,
    depos_root: Text,
    variant: Text,
    selected: Seq<ResolvedPackageView>,
    package: ResolvedPackageView,
    context: TargetContextView,
    inner: Text,
)
    requires
        context == render::package_context(platform, depos_root, variant, selected, package),
        inner == render::target_blocks(context, package, package.spec.targets.len() as int),
    ensures
        render::package_block(platform, depos_root, variant, selected, package) == "\n# "@
            + package.spec.id() + "\n"@ + inner,
{
    reveal(render::package_block);
}

#[verifier::spinoff_prover]
#[verifier::rlimit(60)]
proof fn lemma_file_holds_target(
    platform: HostPlatform,
    depos_root: Text,
    variant: Text,
    validate_file: Text,
    selected: Seq<ResolvedPackageView>,
    place: int,
    index: nat,
    whole: Text,
)
    requires
        render::targets_file(platform, depos_root, variant, validate_file, selected) == Ok::<
            Text,
            Messages,
        >(whole),
        0 <= place < selected.len(),
        index < selected[place].spec.targets.len(),
    ensures
        holds(
            whole,
            render::target_block(
                render::package_context(platform, depos_root, variant, selected, selected[place]),
                selected[place],
                selected[place].spec.targets[index as int],
                index,
            ),
        ),
{
    let package = selected[place];
    let context = render::package_context(platform, depos_root, variant, selected, package);
    let target = render::target_block(context, package, package.spec.targets[index as int], index);
    let count = selected.len() as int;
    let all = render::package_blocks(platform, depos_root, variant, selected, count);
    let block = render::package_block(platform, depos_root, variant, selected, package);
    let inner = render::target_blocks(context, package, package.spec.targets.len() as int);
    lemma_blocks_hold_package(platform, depos_root, variant, selected, count, place);
    lemma_blocks_hold_target(
        context,
        package,
        package.spec.targets.len() as int,
        index as int,
    );
    lemma_package_text(platform, depos_root, variant, selected, package, context, inner);
    lemma_holds_in_either("\n# "@ + package.spec.id() + "\n"@, inner, target);
    lemma_holds_within(all, block, target);
    let head = "include_guard(GLOBAL)\n"@ + render::setting(
        "DEPOS_REGISTRY_STORE_ROOT"@,
        paths::shown_path(platform, layout::variant_root_of(platform, depos_root, variant)),
    ) + "include(\""@ + render::escaped(paths::shown_path(platform, validate_file)) + "\")\n"@;
    lemma_holds_in_either(head, all, target);
    assert(whole == head + all);
}

/// From the name of a target the declared files are reached: the target links to its library
/// where it has exactly one, else to its interface, and every library is the declared file in the
/// store of the package, with the interface of the target.
pub proof fn lemma_targets_reach_their_files(
    platform: HostPlatform,
    depos_root: Text,
    variant: Text,
    validate_file: Text,
    selected: Seq<ResolvedPackageView>,
    place: int,
    index: nat,
    whole: Text,
)
    requires
        render::targets_file(platform, depos_root, variant, validate_file, selected) == Ok::<
            Text,
            Messages,
        >(whole),
        0 <= place < selected.len(),
        index < selected[place].spec.targets.len(),
    ensures
        declares(whole, platform, depos_root, variant, selected[place], index),
{
    let package = selected[place];
    let target = package.spec.targets[index as int];
    let context = render::package_context(platform, depos_root, variant, selected, package);
    let block = render::target_block(context, package, target, index);
    lemma_file_holds_target(
        platform,
        depos_root,
        variant,
        validate_file,
        selected,
        place,
        index,
        whole,
    );
    lemma_inner_names(package, index);
    let interface = inner_face(package, index, "interface"@);
    let artifacts = target.artifacts();
    let shared_at: int = if target.static_path is Some {
        1
    } else {
        0
    };
    let object_at: int = artifacts.len() - 1;
    if let Some(path) = target.static_path {
        assert(artifacts[0] == (TargetKind::Static, path));
        lemma_library_is_declared(
            context,
            package,
            target,
            index,
            0,
            "static"@,
            "IMPORTED_LOCATION"@,
        );
        lemma_holds_within(
            whole,
            block,
            file_said(
                inner_face(package, index, "static"@),
                "STATIC"@,
                "IMPORTED_LOCATION"@,
                stored(platform, depos_root, variant, package, path),
                interface,
            ),
        );
    }
    if let Some(path) = target.shared_path {
        assert(artifacts[shared_at] == (TargetKind::Shared, path));
        lemma_library_is_declared(
            context,
            package,
            target,
            index,
            shared_at,
            "shared"@,
            "IMPORTED_LOCATION"@,
        );
        lemma_holds_within(
            whole,
            block,
            file_said(
                inner_face(package, index, "shared"@),
                "SHARED"@,
                "IMPORTED_LOCATION"@,
                stored(platform, depos_root, variant, package, path),
                interface,
            ),
        );
    }
    if let Some(path) = target.object_path {
        assert(artifacts[object_at] == (TargetKind::Object, path));
        lemma_library_is_declared(
            context,
            package,
            target,
            index,
            object_at,
            "object"@,
            "IMPORTED_OBJECTS"@,
        );
        lemma_holds_within(
            whole,
            block,
            file_said(
                inner_face(package, index, "object"@),
                "OBJECT"@,
                "IMPORTED_OBJECTS"@,
                stored(platform, depos_root, variant, package, path),
                interface,
            ),
        );
    }
    lemma_target_parts(
        context,
        package,
        target,
        index,
        render::artifact_blocks(context, package, target, index, artifacts.len() as int),
    );
    assert(render::base_link(package, target, index) == inner_face(
        package,
        index,
        only_face(target),
    ));
    lemma_holds_within(
        whole,
        block,
        link_said(inner_name(package, index), inner_face(package, index, only_face(target))),
    );
}

/// The position of the first scope separator of a name, where it has one behind characters that
/// are no colons.
pub open spec fn scoped(name: Text, scope: Text, rest: Text) -> bool {
    name == scope + "::"@ + rest && forall|i: int| 0 <= i < scope.len() ==> #[trigger] scope[i]
        != ':'
}

proof fn lemma_scope_is_found(name: Text, scope: Text, rest: Text, from: int)
    requires
        scoped(name, scope, rest),
        0 <= from <= scope.len(),
    ensures
        targets::scope_end(name, from) == scope.len(),
    decreases scope.len() - from,
{
    reveal_strlit("::");
    assert("::"@.len() == 2 && "::"@[0] == ':' && "::"@[1] == ':');
    assert(name[scope.len() as int] == ':');
    assert(name[scope.len() as int + 1] == ':');
    if from < scope.len() {
        assert(name[from] == scope[from]);
        lemma_scope_is_found(name, scope, rest, from + 1);
    }
}

proof fn lemma_no_scope_is_found(name: Text, from: int)
    requires
        forall|i: int| 0 <= i < name.len() ==> #[trigger] name[i] != ':',
        0 <= from,
    ensures
        targets::scope_end(name, from) == name.len(),
    decreases name.len() - from,
{
    if from + 1 < name.len() {
        lemma_no_scope_is_found(name, from + 1);
    }
}

/// An alias takes the place of the outermost scope of a name, and of a name without a scope.
pub proof fn lemma_aliases_replace_the_scope(alias: Text, name: Text, scope: Text, rest: Text)
    ensures
        scoped(name, scope, rest) ==> targets::aliased(alias, name) == alias + "::"@ + rest,
        (forall|i: int| 0 <= i < name.len() ==> #[trigger] name[i] != ':') ==> targets::aliased(
            alias,
            name,
        ) == alias,
{
    reveal_strlit("::");
    if scoped(name, scope, rest) {
        lemma_scope_is_found(name, scope, rest, 0);
        assert(name.subrange(scope.len() as int + 2, name.len() as int) =~= rest);
    }
    if forall|i: int| 0 <= i < name.len() ==> #[trigger] name[i] != ':' {
        lemma_no_scope_is_found(name, 0);
    }
}

pub(crate) proof fn lemma_with_text_holds(values: Seq<Text>, value: Text)
    ensures
        text::with_text(values, value).contains(value),
        forall|other: Text| #[trigger]
            values.contains(other) ==> text::with_text(values, value).contains(other),
        forall|other: Text| #[trigger]
            text::with_text(values, value).contains(other) ==> values.contains(other) || other
                == value,
{
    let slot = text::text_slot(values, value, 0);
    lemma_slot_bounds(values, value, 0);
    let after = text::with_text(values, value);
    if slot < values.len() && values[slot] == value {
        assert(after[slot] == value);
    } else {
        assert(after[slot] == value);
        assert forall|other: Text| #[trigger] values.contains(other) implies after.contains(
            other,
        ) by {
            let at = values.index_of(other);
            if at < slot {
                assert(after[at] == other);
            } else {
                assert(after[at + 1] == other);
            }
        }
        assert forall|other: Text| #[trigger] after.contains(other) implies values.contains(other)
            || other == value by {
            let at = after.index_of(other);
            if at < slot {
                assert(values[at] == other);
            } else if at > slot {
                assert(values[at - 1] == other);
            }
        }
    }
}

proof fn lemma_slot_bounds(values: Seq<Text>, value: Text, from: int)
    requires
        0 <= from <= values.len(),
    ensures
        from <= text::text_slot(values, value, from) <= values.len(),
    decreases values.len() - from,
{
    if from < values.len() {
        lemma_slot_bounds(values, value, from + 1);
    }
}

/// The public names that a package gives to one of its targets: its own name where some request
/// gives no alias, and the name under each alias.
pub open spec fn is_public_name(package: ResolvedPackageView, name: Text, public: Text) -> bool {
    ||| package.expose_default && public == name
    ||| exists|i: int|
        0 <= i < package.aliases.len() && public == targets::aliased(
            #[trigger] package.aliases[i],
            name,
        )
}

proof fn lemma_public_roots(package: ResolvedPackageView, name: Text, count: int)
    requires
        0 <= count <= package.aliases.len(),
    ensures
        package.expose_default ==> targets::public_roots(package, name, count).contains(name),
        forall|i: int|
            0 <= i < count ==> targets::public_roots(package, name, count).contains(
                targets::aliased(#[trigger] package.aliases[i], name),
            ),
        forall|public: Text| #[trigger]
            targets::public_roots(package, name, count).contains(public) ==> is_public_name(
                package,
                name,
                public,
            ),
    decreases count,
{
    if count == 0 {
        lemma_with_text_holds(Seq::empty(), name);
    } else {
        lemma_public_roots(package, name, count - 1);
        lemma_with_text_holds(
            targets::public_roots(package, name, count - 1),
            targets::aliased(package.aliases[count - 1], name),
        );
    }
}

/// The faces of a target under a public name, each with the inner name that it stands for.
pub open spec fn is_face_of(
    package: ResolvedPackageView,
    target: TargetSpecView,
    index: nat,
    public: Text,
    binding: (Text, Text),
) -> bool {
    ||| binding == (public, inner_name(package, index))
    ||| binding == (public + "::"@ + "interface"@, inner_face(package, index, "interface"@))
    ||| target.static_path is Some && binding == (
        public + "::"@ + "static"@,
        inner_face(package, index, "static"@),
    )
    ||| target.shared_path is Some && binding == (
        public + "::"@ + "shared"@,
        inner_face(package, index, "shared"@),
    )
    ||| target.object_path is Some && binding == (
        public + "::"@ + "object"@,
        inner_face(package, index, "object"@),
    )
}

proof fn lemma_root_bindings(
    package: ResolvedPackageView,
    target: TargetSpecView,
    index: nat,
    public: Text,
    binding: (Text, Text),
)
    ensures
        targets::root_bindings(package, target, index, public).contains(binding) <==> is_face_of(
            package,
            target,
            index,
            public,
            binding,
        ),
{
    lemma_inner_names(package, index);
    let roles = targets::roles_of(target);
    let all = targets::root_bindings(package, target, index, public);
    let told = |role: TargetPublicRole|
        (
            targets::public_component(public, role),
            targets::internal_component(package, index, role),
        );
    assert(all.len() == roles.len());
    assert forall|i: int| 0 <= i < all.len() implies #[trigger] all[i] == told(roles[i]) by {}
    let static_count: int = if target.static_path is Some {
        1
    } else {
        0
    };
    let shared_count: int = if target.shared_path is Some {
        1
    } else {
        0
    };
    assert(roles[0] == TargetPublicRole::Base && roles[1] == TargetPublicRole::Interface);
    assert(all[0] == told(roles[0]) && all[1] == told(roles[1]));
    if target.static_path is Some {
        assert(roles[2] == TargetPublicRole::Static);
        assert(all[2] == told(roles[2]));
    }
    if target.shared_path is Some {
        assert(roles[2 + static_count] == TargetPublicRole::Shared);
        assert(all[2 + static_count] == told(roles[2 + static_count]));
    }
    if target.object_path is Some {
        let at = 2 + static_count + shared_count;
        assert(roles[at] == TargetPublicRole::Object);
        assert(all[at] == told(roles[at]));
    }
    if all.contains(binding) {
        let at = all.index_of(binding);
        assert(all[at] == told(roles[at]));
        assert(roles[at] == TargetPublicRole::Static ==> target.static_path is Some);
        assert(roles[at] == TargetPublicRole::Shared ==> target.shared_path is Some);
        assert(roles[at] == TargetPublicRole::Object ==> target.object_path is Some);
    }
}

proof fn lemma_bindings_under(
    package: ResolvedPackageView,
    target: TargetSpecView,
    index: nat,
    roots: Seq<Text>,
    count: int,
    binding: (Text, Text),
)
    requires
        0 <= count <= roots.len(),
    ensures
        targets::bindings_under(package, target, index, roots, count).contains(binding)
            <==> exists|i: int|
            0 <= i < count && is_face_of(package, target, index, #[trigger] roots[i], binding),
    decreases count,
{
    let all = targets::bindings_under(package, target, index, roots, count);
    if count > 0 {
        let before = targets::bindings_under(package, target, index, roots, count - 1);
        let last = targets::root_bindings(package, target, index, roots[count - 1]);
        lemma_bindings_under(package, target, index, roots, count - 1, binding);
        lemma_root_bindings(package, target, index, roots[count - 1], binding);
        assert(all == before + last);
        if before.contains(binding) {
            let at = before.index_of(binding);
            assert(all[at] == binding);
        }
        if last.contains(binding) {
            let at = last.index_of(binding);
            assert(all[before.len() + at] == binding);
        }
        if all.contains(binding) {
            let at = all.index_of(binding);
            if at < before.len() {
                assert(before[at] == binding);
            } else {
                assert(last[at - before.len()] == binding);
            }
        }
    }
}

/// Every face of a target can be named under every public name of it, and stands for the
/// declaration of that face.
pub proof fn lemma_public_names_are_declared(
    platform: HostPlatform,
    depos_root: Text,
    variant: Text,
    validate_file: Text,
    selected: Seq<ResolvedPackageView>,
    place: int,
    index: nat,
    public: Text,
    binding: (Text, Text),
    whole: Text,
)
    requires
        render::targets_file(platform, depos_root, variant, validate_file, selected) == Ok::<
            Text,
            Messages,
        >(whole),
        0 <= place < selected.len(),
        index < selected[place].spec.targets.len(),
        is_public_name(
            selected[place],
            selected[place].spec.targets[index as int].name,
            public,
        ),
        is_face_of(
            selected[place],
            selected[place].spec.targets[index as int],
            index,
            public,
            binding,
        ),
    ensures
        holds(whole, alias_said(binding.0, binding.1)),
{
    let package = selected[place];
    let target = package.spec.targets[index as int];
    let context = render::package_context(platform, depos_root, variant, selected, package);
    let block = render::target_block(context, package, target, index);
    let roots = targets::public_roots(package, target.name, package.aliases.len() as int);
    let bindings = targets::public_bindings(package, target, index);
    lemma_public_roots(package, target.name, package.aliases.len() as int);
    assert(roots.contains(public));
    let at = roots.index_of(public);
    assert(roots[at] == public);
    lemma_bindings_under(package, target, index, roots, roots.len() as int, binding);
    let found = bindings.index_of(binding);
    lemma_alias_blocks(bindings, bindings.len() as int, found);
    lemma_file_holds_target(
        platform,
        depos_root,
        variant,
        validate_file,
        selected,
        place,
        index,
        whole,
    );
    lemma_target_parts(
        context,
        package,
        target,
        index,
        render::artifact_blocks(context, package, target, index, target.artifacts().len() as int),
    );
    lemma_holds_within(
        block,
        render::alias_blocks(bindings, bindings.len() as int),
        alias_said(binding.0, binding.1),
    );
    lemma_holds_within(whole, block, alias_said(binding.0, binding.1));
}

/// A property with its values, or nothing where there are none.
pub open spec fn property_said(name: Text, values: Seq<Text>) -> Text {
    if values.len() == 0 {
        Seq::empty()
    } else {
        "    "@ + name + " \""@ + render::escaped(text::joined(values, ";"@)) + "\"\n"@
    }
}

/// What the interface of a target says: the directories of its headers in the store, what it
/// links to, and what it hands on to those that link to it.
pub open spec fn interface_said(
    directories: Seq<Text>,
    links: Seq<Text>,
    target: TargetSpecView,
) -> Text {
    property_said("INTERFACE_INCLUDE_DIRECTORIES"@, directories) + property_said(
        "INTERFACE_LINK_LIBRARIES"@,
        links,
    ) + property_said("INTERFACE_COMPILE_DEFINITIONS"@, target.compile_definitions)
        + property_said("INTERFACE_COMPILE_OPTIONS"@, target.compile_options) + property_said(
        "INTERFACE_COMPILE_FEATURES"@,
        target.compile_features,
    )
}

proof fn lemma_property_text(lines: Text, name: Text, values: Seq<Text>)
    ensures
        render::with_property(lines, name, values) == lines + property_said(name, values),
{
    if values.len() == 0 {
        assert(lines + Seq::<char>::empty() =~= lines);
    } else {
        let value = render::escaped(text::joined(values, ";"@));
        assert(lines + ("    "@ + name + " \""@ + value + "\"\n"@) =~= lines + "    "@ + name
            + " \""@ + value + "\"\n"@);
    }
}

proof fn lemma_interface_text(context: TargetContextView, target: TargetSpecView)
    ensures
        render::interface_properties(context, target) == interface_said(
            render::include_paths(context, target),
            render::interface_links(context, target),
            target,
        ),
{
    let (a, b, c, d, e) = (
        property_said(
            "INTERFACE_INCLUDE_DIRECTORIES"@,
            render::include_paths(context, target),
        ),
        property_said("INTERFACE_LINK_LIBRARIES"@, render::interface_links(context, target)),
        property_said("INTERFACE_COMPILE_DEFINITIONS"@, target.compile_definitions),
        property_said("INTERFACE_COMPILE_OPTIONS"@, target.compile_options),
        property_said("INTERFACE_COMPILE_FEATURES"@, target.compile_features),
    );
    let none = Seq::<char>::empty();
    lemma_property_text(
        none,
        "INTERFACE_INCLUDE_DIRECTORIES"@,
        render::include_paths(context, target),
    );
    assert(none + a =~= a);
    lemma_property_text(
        a,
        "INTERFACE_LINK_LIBRARIES"@,
        render::interface_links(context, target),
    );
    lemma_property_text(a + b, "INTERFACE_COMPILE_DEFINITIONS"@, target.compile_definitions);
    lemma_property_text(a + b + c, "INTERFACE_COMPILE_OPTIONS"@, target.compile_options);
    lemma_property_text(a + b + c + d, "INTERFACE_COMPILE_FEATURES"@, target.compile_features);
}

/// The last of the selected packages with a name and a namespace that has a target to stand for
/// it, with the position of that target.
pub open spec fn stands_for_key(
    selected: Seq<ResolvedPackageView>,
    place: int,
    key: PackageKeyView,
    index: nat,
) -> bool {
    &&& 0 <= place < selected.len()
    &&& selected[place].spec.key() == key
    &&& selected[place].spec.primary_index() == Some(index as int)
    &&& forall|i: int|
        0 <= i < selected.len() && i != place ==> (#[trigger] selected[i]).spec.key() != key
}

proof fn lemma_primary_link(
    selected: Seq<ResolvedPackageView>,
    place: int,
    key: PackageKeyView,
    index: nat,
)
    requires
        stands_for_key(selected, place, key, index),
    ensures
        targets::primary_link(selected, key) == Some(inner_name(selected[place], index)),
    decreases selected.len(),
{
    if place == selected.len() - 1 {
        lemma_inner_names(selected[place], index);
    } else {
        let rest = selected.drop_last();
        assert(selected[selected.len() - 1] == selected.last());
        assert forall|i: int| 0 <= i < rest.len() && i != place implies (
        #[trigger] rest[i]).spec.key() != key by {
            assert(selected[i] == rest[i]);
        }
        lemma_primary_link(rest, place, key, index);
    }
}

proof fn lemma_dependency_is_linked(
    selected: Seq<ResolvedPackageView>,
    package: ResolvedPackageView,
    count: int,
    dependency: int,
    link: Text,
)
    requires
        0 <= dependency < count <= package.spec.depends.len(),
        targets::primary_link(selected, package.spec.depends[dependency].key()) == Some(link),
    ensures
        render::dependency_links(selected, package, count).contains(link),
    decreases count,
{
    let all = render::dependency_links(selected, package, count);
    let before = render::dependency_links(selected, package, count - 1);
    if dependency == count - 1 {
        assert(all[before.len() as int] == link);
    } else {
        lemma_dependency_is_linked(selected, package, count - 1, dependency, link);
        let at = before.index_of(link);
        assert(all[at] == link);
    }
}

proof fn lemma_distinct_holds(all: Seq<Text>)
    ensures
        forall|value: Text| #[trigger]
            all.contains(value) ==> text::distinct(all).contains(value),
    decreases all.len(),
{
    if all.len() > 0 {
        let before = text::distinct(all.drop_last());
        let kept = text::distinct(all);
        lemma_distinct_holds(all.drop_last());
        assert forall|value: Text| #[trigger] all.contains(value) implies kept.contains(value) by {
            let at = all.index_of(value);
            if at < all.len() - 1 {
                assert(all.drop_last()[at] == value);
                assert(all.drop_last().contains(value));
                let place = before.index_of(value);
                assert(kept[place] == value);
            } else if !before.contains(value) {
                assert(kept[before.len() as int] == value);
            }
        }
    }
}

/// The interface of a target stands in the file as it is described: with the directories of its
/// headers below the store of the package, and with what it hands on. What it links to has the
/// target that stands for each package that its own package depends on, and what each of its
/// link items stands for.
pub proof fn lemma_interfaces_are_as_described(
    platform: HostPlatform,
    depos_root: Text,
    variant: Text,
    validate_file: Text,
    selected: Seq<ResolvedPackageView>,
    place: int,
    index: nat,
    whole: Text,
)
    requires
        render::targets_file(platform, depos_root, variant, validate_file, selected) == Ok::<
            Text,
            Messages,
        >(whole),
        0 <= place < selected.len(),
        index < selected[place].spec.targets.len(),
    ensures
        ({
            let package = selected[place];
            let target = package.spec.targets[index as int];
            let context = render::package_context(
                platform,
                depos_root,
                variant,
                selected,
                package,
            );
            let links = render::interface_links(context, target);
            let directories = Seq::new(
                target.include_dirs.len(),
                |i: int| stored(platform, depos_root, variant, package, target.include_dirs[i]),
            );
            let lines = interface_said(directories, links, target);
            &&& lines.len() > 0 ==> holds(
                whole,
                library_said(
                    inner_face(package, index, "interface"@),
                    "INTERFACE IMPORTED GLOBAL"@,
                    lines,
                ),
            )
            &&& forall|d: int, q: int, t: nat|
                0 <= d < package.spec.depends.len() && #[trigger] stands_for_key(
                    selected,
                    q,
                    #[trigger] package.spec.depends[d].key(),
                    t,
                ) ==> links.contains(inner_name(selected[q], t))
            &&& forall|i: int|
                0 <= i < target.link_libraries.len() ==> links.contains(
                    targets::linked(
                        targets::own_bindings(package, package.spec.targets.len() as int),
                        targets::all_bindings(selected),
                        #[trigger] target.link_libraries[i],
                    ),
                )
        }),
{
    let package = selected[place];
    let target = package.spec.targets[index as int];
    let context = render::package_context(platform, depos_root, variant, selected, package);
    let links = render::interface_links(context, target);
    let directories = Seq::new(
        target.include_dirs.len(),
        |i: int| stored(platform, depos_root, variant, package, target.include_dirs[i]),
    );
    assert(render::include_paths(context, target) =~= directories);
    lemma_inner_names(package, index);
    lemma_interface_text(context, target);
    let lines = interface_said(directories, links, target);
    let name = inner_face(package, index, "interface"@);
    if lines.len() > 0 {
        let block = render::target_block(context, package, target, index);
        lemma_block_text(name, "INTERFACE IMPORTED GLOBAL"@, lines);
        lemma_file_holds_target(
            platform,
            depos_root,
            variant,
            validate_file,
            selected,
            place,
            index,
            whole,
        );
        lemma_target_parts(
            context,
            package,
            target,
            index,
            render::artifact_blocks(
                context,
                package,
                target,
                index,
                target.artifacts().len() as int,
            ),
        );
        lemma_holds_within(whole, block, render::interface_block(context, target, name));
    }
    let items = target.link_libraries.map_values(
        |item: Text| targets::linked(context.own, context.public, item),
    );
    let all = context.dependency_links + items;
    lemma_distinct_holds(all);
    assert forall|d: int, q: int, t: nat|
        0 <= d < package.spec.depends.len() && #[trigger] stands_for_key(
            selected,
            q,
            #[trigger] package.spec.depends[d].key(),
            t,
        ) implies links.contains(inner_name(selected[q], t)) by {
        let link = inner_name(selected[q], t);
        lemma_primary_link(selected, q, package.spec.depends[d].key(), t);
        lemma_dependency_is_linked(
            selected,
            package,
            package.spec.depends.len() as int,
            d,
            link,
        );
        let at = context.dependency_links.index_of(link);
        assert(all[at] == link);
        assert(all.contains(link));
    }
    assert forall|i: int| 0 <= i < target.link_libraries.len() implies links.contains(
        targets::linked(
            targets::own_bindings(package, package.spec.targets.len() as int),
            targets::all_bindings(selected),
            #[trigger] target.link_libraries[i],
        ),
    ) by {
        assert(all[context.dependency_links.len() + i] == items[i]);
        assert(all.contains(items[i]));
    }
}

/// Whether a name is that of a face of a target within its own package, with the inner name that
/// it stands for.
pub open spec fn is_own(package: ResolvedPackageView, index: int, binding: (Text, Text)) -> bool {
    &&& 0 <= index < package.spec.targets.len()
    &&& is_face_of(
        package,
        package.spec.targets[index],
        index as nat,
        package.spec.targets[index].name,
        binding,
    )
}

/// Whether a name is a public one of a face of a target, with the inner name that it stands for.
pub open spec fn is_exported(
    package: ResolvedPackageView,
    index: int,
    binding: (Text, Text),
) -> bool {
    &&& 0 <= index < package.spec.targets.len()
    &&& exists|public: Text|
        is_public_name(package, package.spec.targets[index].name, public) && #[trigger] is_face_of(
            package,
            package.spec.targets[index],
            index as nat,
            public,
            binding,
        )
}

proof fn lemma_own_bindings(package: ResolvedPackageView, count: int, binding: (Text, Text))
    requires
        0 <= count <= package.spec.targets.len(),
    ensures
        targets::own_bindings(package, count).contains(binding) <==> exists|t: int|
            t < count && #[trigger] is_own(package, t, binding),
    decreases count,
{
    if count > 0 {
        let target = package.spec.targets[count - 1];
        let before = targets::own_bindings(package, count - 1);
        let last = targets::root_bindings(package, target, (count - 1) as nat, target.name);
        let all = before + last;
        lemma_own_bindings(package, count - 1, binding);
        lemma_root_bindings(package, target, (count - 1) as nat, target.name, binding);
        lemma_either_contains(before, last, binding);
        if last.contains(binding) {
            assert(is_own(package, count - 1, binding));
        }
        if before.contains(binding) {
            let t = choose|t: int| t < count - 1 && #[trigger] is_own(package, t, binding);
            assert(t < count && is_own(package, t, binding));
        }
    }
}

proof fn lemma_either_contains(
    before: Seq<(Text, Text)>,
    last: Seq<(Text, Text)>,
    binding: (Text, Text),
)
    ensures
        (before + last).contains(binding) <==> before.contains(binding) || last.contains(binding),
{
    let all = before + last;
    if before.contains(binding) {
        let at = before.index_of(binding);
        assert(all[at] == binding);
    }
    if last.contains(binding) {
        let at = last.index_of(binding);
        assert(all[before.len() + at] == binding);
    }
    if all.contains(binding) {
        let at = all.index_of(binding);
        if at < before.len() {
            assert(before[at] == binding);
        } else {
            assert(last[at - before.len()] == binding);
        }
    }
}

proof fn lemma_target_bindings(package: ResolvedPackageView, index: int, binding: (Text, Text))
    requires
        0 <= index < package.spec.targets.len(),
    ensures
        targets::public_bindings(
            package,
            package.spec.targets[index],
            index as nat,
        ).contains(binding) <==> is_exported(package, index, binding),
{
    let target = package.spec.targets[index];
    let count = package.aliases.len() as int;
    let roots = targets::public_roots(package, target.name, count);
    lemma_public_roots(package, target.name, count);
    lemma_bindings_under(package, target, index as nat, roots, roots.len() as int, binding);
    if targets::public_bindings(package, target, index as nat).contains(binding) {
        let i = choose|i: int|
            0 <= i < roots.len() && is_face_of(
                package,
                target,
                index as nat,
                #[trigger] roots[i],
                binding,
            );
        assert(roots.contains(roots[i]));
    }
    if is_exported(package, index, binding) {
        let public = choose|public: Text|
            is_public_name(package, target.name, public) && #[trigger] is_face_of(
                package,
                target,
                index as nat,
                public,
                binding,
            );
        assert(roots.contains(public)) by {
            if !(package.expose_default && public == target.name) {
                let i = choose|i: int|
                    0 <= i < package.aliases.len() && public == targets::aliased(
                        #[trigger] package.aliases[i],
                        target.name,
                    );
                assert(roots.contains(targets::aliased(package.aliases[i], target.name)));
            }
        }
        let at = roots.index_of(public);
        assert(is_face_of(package, target, index as nat, roots[at], binding));
    }
}

proof fn lemma_package_bindings(package: ResolvedPackageView, count: int, binding: (Text, Text))
    requires
        0 <= count <= package.spec.targets.len(),
    ensures
        targets::package_bindings(package, count).contains(binding) <==> exists|t: int|
            t < count && #[trigger] is_exported(package, t, binding),
    decreases count,
{
    if count > 0 {
        let before = targets::package_bindings(package, count - 1);
        let last = targets::public_bindings(
            package,
            package.spec.targets[count - 1],
            (count - 1) as nat,
        );
        lemma_package_bindings(package, count - 1, binding);
        lemma_target_bindings(package, count - 1, binding);
        lemma_either_contains(before, last, binding);
        if before.contains(binding) {
            let t = choose|t: int| t < count - 1 && #[trigger] is_exported(package, t, binding);
            assert(t < count && is_exported(package, t, binding));
        }
    }
}

proof fn lemma_all_bindings(selected: Seq<ResolvedPackageView>, binding: (Text, Text))
    ensures
        targets::all_bindings(selected).contains(binding) <==> exists|q: int, t: int|
            0 <= q < selected.len() && #[trigger] is_exported(selected[q], t, binding),
    decreases selected.len(),
{
    if selected.len() > 0 {
        let rest = selected.drop_last();
        let package = selected.last();
        let count = package.spec.targets.len() as int;
        lemma_all_bindings(rest, binding);
        lemma_package_bindings(package, count, binding);
        lemma_either_contains(
            targets::all_bindings(rest),
            targets::package_bindings(package, count),
            binding,
        );
        if targets::all_bindings(rest).contains(binding) {
            let (q, t) = choose|q: int, t: int|
                0 <= q < rest.len() && #[trigger] is_exported(rest[q], t, binding);
            assert(is_exported(selected[q], t, binding));
        }
        if targets::package_bindings(package, count).contains(binding) {
            let t = choose|t: int| t < count && #[trigger] is_exported(package, t, binding);
            assert(is_exported(selected[selected.len() - 1], t, binding));
        }
        if exists|q: int, t: int|
            0 <= q < selected.len() && #[trigger] is_exported(selected[q], t, binding) {
            let (q, t) = choose|q: int, t: int|
                0 <= q < selected.len() && #[trigger] is_exported(selected[q], t, binding);
            if q < rest.len() {
                assert(is_exported(rest[q], t, binding));
            } else {
                assert(is_exported(package, t, binding));
            }
        }
    }
}

proof fn lemma_only_meaning(
    bindings: Seq<(Text, Text)>,
    name: Text,
    from: int,
    at: int,
    known: Option<Option<Text>>,
)
    requires
        0 <= from <= bindings.len(),
        0 <= at < bindings.len(),
        bindings[at].0 == name,
        forall|i: int| 0 <= i < bindings.len() && i != at ==> (#[trigger] bindings[i]).0 != name,
        from <= at ==> known is None,
        from > at ==> known == Some(Some(bindings[at].1)),
    ensures
        targets::meaning_from(bindings, name, from, known) == Some(Some(bindings[at].1)),
    decreases bindings.len() - from,
{
    if from < bindings.len() {
        if from == at {
            lemma_only_meaning(bindings, name, from + 1, at, Some(Some(bindings[at].1)));
        } else {
            lemma_only_meaning(bindings, name, from + 1, at, known);
        }
    }
}

proof fn lemma_no_meaning(bindings: Seq<(Text, Text)>, name: Text, from: int)
    requires
        0 <= from <= bindings.len(),
        forall|i: int| 0 <= i < bindings.len() ==> (#[trigger] bindings[i]).0 != name,
    ensures
        targets::meaning_from(bindings, name, from, None) is None,
    decreases bindings.len() - from,
{
    if from < bindings.len() {
        lemma_no_meaning(bindings, name, from + 1);
    }
}

/// A link item that names a face of a target of the same package stands for that face. Any other
/// that is a public name of a selected package stands for what the name is public for, and the
/// rest stand for themselves.
pub proof fn lemma_link_items_lead_to_targets(
    selected: Seq<ResolvedPackageView>,
    place: int,
    item: Text,
    inner: Text,
)
    requires
        targets::collision_check(selected) is Ok,
        0 <= place < selected.len(),
    ensures
        ({
            let package = selected[place];
            let own = targets::own_bindings(package, package.spec.targets.len() as int);
            let result = targets::linked(own, targets::all_bindings(selected), item);
            let named = exists|t: int, other: Text| #[trigger] is_own(package, t, (item, other));
            &&& named && (forall|t: int, other: Text| #[trigger]
                is_own(package, t, (item, other)) ==> other == inner) ==> result == inner
            &&& !named && (exists|q: int, t: int|
                0 <= q < selected.len() && #[trigger] is_exported(selected[q], t, (item, inner)))
                ==> result == inner
            &&& !named && (forall|q: int, t: int, other: Text|
                0 <= q < selected.len() ==> !#[trigger] is_exported(selected[q], t, (item, other)))
                ==> result == item
        }),
{
    let package = selected[place];
    let count = package.spec.targets.len() as int;
    let own = targets::own_bindings(package, count);
    let all = targets::all_bindings(selected);
    let named = exists|t: int, other: Text| #[trigger] is_own(package, t, (item, other));
    text_laws::lemma_last_value_counts(own, item);
    if named {
        let (t, other) = choose|t: int, other: Text| #[trigger] is_own(package, t, (item, other));
        lemma_own_bindings(package, count, (item, other));
        let at = own.index_of((item, other));
        assert(own[at].0 == item);
        let value = text::value_of(own, item)->Some_0;
        let k = choose|k: int|
            0 <= k < own.len() && #[trigger] own[k] == (item, value) && forall|i: int|
                k < i < own.len() ==> (#[trigger] own[i]).0 != item;
        lemma_own_bindings(package, count, (item, value));
        assert(own.contains((item, value)));
        assert(exists|u: int| u < count && #[trigger] is_own(package, u, (item, value)));
    } else {
        if text::value_of(own, item) is Some {
            let value = text::value_of(own, item)->Some_0;
            lemma_own_bindings(package, count, (item, value));
            assert(own.contains((item, value)));
            assert(false);
        }
        if exists|q: int, t: int|
            0 <= q < selected.len() && #[trigger] is_exported(selected[q], t, (item, inner)) {
            lemma_all_bindings(selected, (item, inner));
            let at = all.index_of((item, inner));
            assert forall|i: int| 0 <= i < all.len() && i != at implies (#[trigger] all[i]).0
                != item by {
                if i < at {
                    target_laws::lemma_public_names_are_distinct(selected, i, at);
                } else {
                    target_laws::lemma_public_names_are_distinct(selected, at, i);
                }
            }
            lemma_only_meaning(all, item, 0, at, None);
        }
        if forall|q: int, t: int, other: Text|
            0 <= q < selected.len() ==> !#[trigger] is_exported(selected[q], t, (item, other)) {
            assert forall|i: int| 0 <= i < all.len() implies (#[trigger] all[i]).0 != item by {
                if all[i].0 == item {
                    lemma_all_bindings(selected, all[i]);
                    assert(all.contains(all[i]));
                    let (q, t) = choose|q: int, t: int|
                        0 <= q < selected.len() && #[trigger] is_exported(selected[q], t, all[i]);
                    assert(all[i] == (item, all[i].1));
                    assert(is_exported(selected[q], t, (item, all[i].1)));
                }
            }
            lemma_no_meaning(all, item, 0);
        }
    }
}

proof fn lemma_distinct_holds_only(all: Seq<Text>)
    ensures
        forall|value: Text| #[trigger]
            text::distinct(all).contains(value) ==> all.contains(value),
        forall|i: int, j: int|
            0 <= i < j < text::distinct(all).len() ==> #[trigger] text::distinct(all)[i]
                != #[trigger] text::distinct(all)[j],
    decreases all.len(),
{
    if all.len() > 0 {
        let before = all.drop_last();
        let kept = text::distinct(before);
        let result = text::distinct(all);
        lemma_distinct_holds_only(before);
        assert forall|value: Text| #[trigger] result.contains(value) implies all.contains(value) by {
            let at = result.index_of(value);
            if at < kept.len() {
                assert(kept[at] == value);
                assert(kept.contains(value));
                let k = before.index_of(value);
                assert(all[k] == value);
            } else {
                assert(all[all.len() - 1] == value);
            }
        }
        assert forall|i: int, j: int| 0 <= i < j < result.len() implies #[trigger] result[i]
            != #[trigger] result[j] by {
            if j < kept.len() {
                assert(kept[i] != kept[j]);
            } else {
                assert(result[i] == kept[i]);
                assert(kept.contains(kept[i]));
            }
        }
    }
}

proof fn lemma_links_come_from_dependencies(
    selected: Seq<ResolvedPackageView>,
    package: ResolvedPackageView,
    count: int,
    link: Text,
)
    requires
        0 <= count <= package.spec.depends.len(),
        render::dependency_links(selected, package, count).contains(link),
    ensures
        exists|d: int|
            0 <= d < count && targets::primary_link(
                selected,
                (#[trigger] package.spec.depends[d]).key(),
            ) == Some(link),
    decreases count,
{
    if count > 0 {
        let before = render::dependency_links(selected, package, count - 1);
        let all = render::dependency_links(selected, package, count);
        let at = all.index_of(link);
        let last = package.spec.depends[count - 1];
        if at < before.len() {
            assert(before[at] == link);
            lemma_links_come_from_dependencies(selected, package, count - 1, link);
        } else {
            assert(targets::primary_link(selected, last.key()) == Some(link));
        }
    }
}

/// The interface of a target links to nothing but the packages that its package depends on and
/// what its own link items stand for, and to nothing twice.
pub proof fn lemma_interfaces_link_nothing_else(
    platform: HostPlatform,
    depos_root: Text,
    variant: Text,
    selected: Seq<ResolvedPackageView>,
    package: ResolvedPackageView,
    target: TargetSpecView,
)
    ensures
        ({
            let context = render::package_context(
                platform,
                depos_root,
                variant,
                selected,
                package,
            );
            let links = render::interface_links(context, target);
            let own = targets::own_bindings(package, package.spec.targets.len() as int);
            let public = targets::all_bindings(selected);
            &&& forall|i: int|
                0 <= i < links.len() ==> (exists|d: int|
                    0 <= d < package.spec.depends.len() && targets::primary_link(
                        selected,
                        (#[trigger] package.spec.depends[d]).key(),
                    ) == Some(links[i])) || (exists|k: int|
                    0 <= k < target.link_libraries.len() && #[trigger] links[i] == targets::linked(
                        own,
                        public,
                        #[trigger] target.link_libraries[k],
                    ))
            &&& forall|i: int, j: int|
                0 <= i < j < links.len() ==> #[trigger] links[i] != #[trigger] links[j]
        }),
{
    let context = render::package_context(platform, depos_root, variant, selected, package);
    let links = render::interface_links(context, target);
    let own = targets::own_bindings(package, package.spec.targets.len() as int);
    let public = targets::all_bindings(selected);
    let items = target.link_libraries.map_values(
        |item: Text| targets::linked(context.own, context.public, item),
    );
    let all = context.dependency_links + items;
    lemma_distinct_holds_only(all);
    assert forall|i: int| 0 <= i < links.len() implies (exists|d: int|
        0 <= d < package.spec.depends.len() && targets::primary_link(
            selected,
            (#[trigger] package.spec.depends[d]).key(),
        ) == Some(links[i])) || (exists|k: int|
        0 <= k < target.link_libraries.len() && #[trigger] links[i] == targets::linked(
            own,
            public,
            #[trigger] target.link_libraries[k],
        )) by {
        assert(links.contains(links[i]));
        let at = all.index_of(links[i]);
        if at < context.dependency_links.len() {
            assert(context.dependency_links[at] == links[i]);
            lemma_links_come_from_dependencies(
                selected,
                package,
                package.spec.depends.len() as int,
                links[i],
            );
        } else {
            let k = at - context.dependency_links.len();
            assert(items[k] == targets::linked(own, public, target.link_libraries[k]));
        }
    }
}

} // verus!

//! The CMake files of a registry.

use vstd::prelude::*;
use crate::failure::{outcome, Failure, Messages};
use crate::layout;
use crate::layout::{package_store_root, variant_root};
use crate::model::{TargetKind, TargetSpec, TargetSpecView, Text};
use crate::paths;
use crate::paths::{display_path, join_path, HostPlatform};
use crate::records::{SourceProvenance, SourceProvenanceView};
use crate::resolve::{ResolvedPackage, ResolvedPackageView};
use crate::targets;
use crate::targets::{
    collect_bindings, collect_own_bindings, dependency_primary_target,
    ensure_public_target_collisions, internal_target_component_name, kind_role, link_item,
    public_target_bindings, TargetPublicRole,
};
use crate::text;
use crate::text::{cat2, cat3, cat4, cat5, cat7, dedup_strings, join, put, replace, Dup};

verus! {

/// `value` as it stands between double quotes in CMake.
pub open spec fn escaped(value: Text) -> Text {
    text::replaced(text::replaced(value, '\\', "\\\\"@), '"', "\\\""@)
}

pub fn cmake_escape(value: &str) -> (result: String)
    ensures
        result@ == escaped(value@),
{
    replace(&replace(value, '\\', "\\\\"), '"', "\\\"")
}

/// A line that sets a variable.
pub open spec fn setting(name: Text, value: Text) -> Text {
    "set("@ + name + " \""@ + escaped(value) + "\")\n"@
}

fn render_setting(name: &str, value: &str) -> (line: String)
    ensures
        line@ == setting(name@, value@),
{
    cat5("set(", name, " \"", &cmake_escape(value), "\")\n")
}

/// The start of the validation file.
pub open spec fn validate_head(platform: HostPlatform, depos_root: Text, variant: Text) -> Text {
    setting(
        "DEPOS_VALIDATE_VARIANT_ROOT"@,
        paths::shown_path(platform, layout::variant_root_of(platform, depos_root, variant)),
    ) + "function(_depos_validate_required_path package_id absolute_path)\n"@
        + "  set(_depos_abs_path \"${absolute_path}\")\n"@
        + "  if (EXISTS \"${_depos_abs_path}\" OR IS_SYMLINK \"${_depos_abs_path}\")\n"@
        + "    return()\n"@ + "  endif()\n\n"@
        + "  message(FATAL_ERROR \"Depo sync validation failed for '${package_id}': missing required path '${absolute_path}'.\")\n"@
        + "endfunction()\n"@
}

/// The lines that demand the first `count` of the required paths of a package.
pub open spec fn required_lines(
    platform: HostPlatform,
    root: Text,
    id: Text,
    required: Seq<Text>,
    count: int,
) -> Text
    decreases count,
{
    if count <= 0 {
        Seq::empty()
    } else {
        required_lines(platform, root, id, required, count - 1)
            + "_depos_validate_required_path(\""@ + escaped(id) + "\" \""@ + escaped(
            paths::shown_path(platform, paths::joined_path(platform, root, required[count - 1])),
        ) + "\")\n"@
    }
}

/// The lines that demand the required paths of the first `count` packages.
pub open spec fn validate_lines(
    platform: HostPlatform,
    depos_root: Text,
    variant: Text,
    selected: Seq<ResolvedPackageView>,
    count: int,
) -> Text
    decreases count,
{
    if count <= 0 {
        Seq::empty()
    } else {
        let spec = selected[count - 1].spec;
        validate_lines(platform, depos_root, variant, selected, count - 1) + required_lines(
            platform,
            layout::store_root_of(platform, depos_root, variant, spec),
            spec.id(),
            spec.required(platform),
            spec.required(platform).len() as int,
        )
    }
}

/// The file that checks that every required path of the selected packages is there.
pub fn render_validate_cmake(
    platform: HostPlatform,
    depos_root: &str,
    variant: &str,
    selected: &Vec<ResolvedPackage>,
) -> (output: String)
    ensures
        output@ == validate_head(platform, depos_root@, variant@) + validate_lines(
            platform,
            depos_root@,
            variant@,
            selected.deep_view(),
            selected.len() as int,
        ),
{
    let mut output = render_setting(
        "DEPOS_VALIDATE_VARIANT_ROOT",
        &display_path(platform, &variant_root(platform, depos_root, variant)),
    );
    output.append("function(_depos_validate_required_path package_id absolute_path)\n");
    output.append("  set(_depos_abs_path \"${absolute_path}\")\n");
    output.append("  if (EXISTS \"${_depos_abs_path}\" OR IS_SYMLINK \"${_depos_abs_path}\")\n");
    output.append("    return()\n");
    output.append("  endif()\n\n");
    output.append(
        "  message(FATAL_ERROR \"Depo sync validation failed for '${package_id}': missing required path '${absolute_path}'.\")\n",
    );
    output.append("endfunction()\n");
    let mut lines = String::new();
    let mut count: usize = 0;
    while count < selected.len()
        invariant
            count <= selected.len(),
            lines@ == validate_lines(
                platform,
                depos_root@,
                variant@,
                selected.deep_view(),
                count as int,
            ),
        decreases selected.len() - count,
    {
        let spec = &selected[count].spec;
        assert(selected.deep_view()[count as int].spec == spec.deep_view());
        let root = package_store_root(platform, depos_root, variant, spec);
        let id = spec.package_id();
        let required = spec.required_paths(platform);
        let mut block = String::new();
        let mut next: usize = 0;
        while next < required.len()
            invariant
                next <= required.len(),
                id@ == spec.deep_view().id(),
                block@ == required_lines(
                    platform,
                    root@,
                    id@,
                    required.deep_view(),
                    next as int,
                ),
            decreases required.len() - next,
        {
            assert(required.deep_view()[next as int] == required[next as int]@);
            block.append("_depos_validate_required_path(\"");
            block.append(&cmake_escape(&id));
            block.append("\" \"");
            block.append(
                &cmake_escape(
                    &display_path(platform, &join_path(platform, &root, &required[next])),
                ),
            );
            block.append("\")\n");
            next = next + 1;
        }
        lines.append(&block);
        count = count + 1;
    }
    output.append(&lines);
    output
}

/// The targets that the first `count` dependencies of a package link to.
pub open spec fn dependency_links(
    selected: Seq<ResolvedPackageView>,
    package: ResolvedPackageView,
    count: int,
) -> Seq<Text>
    decreases count,
{
    if count <= 0 {
        Seq::empty()
    } else {
        let before = dependency_links(selected, package, count - 1);
        match targets::primary_link(selected, package.spec.depends[count - 1].key()) {
            Some(link) => before.push(link),
            None => before,
        }
    }
}

fn collect_dependency_links(selected: &Vec<ResolvedPackage>, package: &ResolvedPackage) -> (links: Vec<
    String,
>)
    ensures
        links.deep_view() == dependency_links(
            selected.deep_view(),
            package.deep_view(),
            package.spec.depends.len() as int,
        ),
{
    let mut links: Vec<String> = Vec::new();
    let mut count: usize = 0;
    assert(links.deep_view() == Seq::<Text>::empty());
    while count < package.spec.depends.len()
        invariant
            count <= package.spec.depends.len(),
            links.deep_view() == dependency_links(
                selected.deep_view(),
                package.deep_view(),
                count as int,
            ),
        decreases package.spec.depends.len() - count,
    {
        assert(package.deep_view().spec.depends[count as int]
            == package.spec.depends[count as int].deep_view());
        let key = package.spec.depends[count].identity_key();
        if let Some(link) = dependency_primary_target(selected, &key) {
            put(&mut links, link);
        }
        count = count + 1;
    }
    links
}

/// What surrounds the rendering of one target.
#[derive(Clone, Debug, PartialEq, Eq)]
pub struct TargetContext {
    pub platform: HostPlatform,
    pub root: String,
    pub dependency_links: Vec<String>,
    pub own: Vec<(String, String)>,
    pub public: Vec<(String, String)>,
}

/// The model of [`TargetContext`].
pub struct TargetContextView {
    pub platform: HostPlatform,
    pub root: Text,
    pub dependency_links: Seq<Text>,
    pub own: Seq<(Text, Text)>,
    pub public: Seq<(Text, Text)>,
}

impl DeepView for TargetContext {
    type V = TargetContextView;

    open spec fn deep_view(&self) -> TargetContextView {
        TargetContextView {
            platform: self.platform,
            root: self.root@,
            dependency_links: self.dependency_links.deep_view(),
            own: self.own.deep_view(),
            public: self.public.deep_view(),
        }
    }
}

/// What the interface of a target links to, none twice: the packages that its package depends
/// on, then its own link items.
pub open spec fn interface_links(context: TargetContextView, target: TargetSpecView) -> Seq<Text> {
    text::distinct(
        context.dependency_links + target.link_libraries.map_values(
            |item: Text| targets::linked(context.own, context.public, item),
        ),
    )
}

fn collect_interface_links(context: &TargetContext, target: &TargetSpec) -> (links: Vec<String>)
    ensures
        links.deep_view() == interface_links(context.deep_view(), target.deep_view()),
{
    let mut links = context.dependency_links.dup();
    let ghost start = context.deep_view().dependency_links;
    let ghost items = target.deep_view().link_libraries.map_values(
        |item: Text| targets::linked(context.deep_view().own, context.deep_view().public, item),
    );
    let mut index: usize = 0;
    assert(links.deep_view() == start + items.take(0));
    while index < target.link_libraries.len()
        invariant
            index <= target.link_libraries.len(),
            items == target.deep_view().link_libraries.map_values(
                |item: Text|
                    targets::linked(context.deep_view().own, context.deep_view().public, item),
            ),
            links.deep_view() == start + items.take(index as int),
        decreases target.link_libraries.len() - index,
    {
        put(&mut links, link_item(&context.own, &context.public, &target.link_libraries[index]));
        assert(target.deep_view().link_libraries[index as int]
            == target.link_libraries[index as int]@);
        index = index + 1;
        assert(links.deep_view() == start + items.take(index as int));
    }
    assert(items.take(index as int) == items);
    dedup_strings(&links)
}

/// The include directories of a target in the store.
pub open spec fn include_paths(context: TargetContextView, target: TargetSpecView) -> Seq<Text> {
    target.include_dirs.map_values(
        |path: Text| paths::shown_path(
            context.platform,
            paths::joined_path(context.platform, context.root, path),
        ),
    )
}

fn collect_include_paths(context: &TargetContext, target: &TargetSpec) -> (result: Vec<String>)
    ensures
        result.deep_view() == include_paths(context.deep_view(), target.deep_view()),
{
    let ghost all = include_paths(context.deep_view(), target.deep_view());
    let mut result: Vec<String> = Vec::new();
    let mut index: usize = 0;
    assert(result.deep_view() == all.take(0));
    while index < target.include_dirs.len()
        invariant
            index <= target.include_dirs.len(),
            all == include_paths(context.deep_view(), target.deep_view()),
            result.deep_view() == all.take(index as int),
        decreases target.include_dirs.len() - index,
    {
        put(
            &mut result,
            display_path(
                context.platform,
                &join_path(context.platform, &context.root, &target.include_dirs[index]),
            ),
        );
        assert(target.deep_view().include_dirs[index as int] == target.include_dirs[index as int]@);
        index = index + 1;
        assert(result.deep_view() == all.take(index as int));
    }
    assert(all.take(index as int) == all);
    result
}

/// `lines` with one more property, where it has values.
pub open spec fn with_property(lines: Text, name: Text, values: Seq<Text>) -> Text {
    if values.len() == 0 {
        lines
    } else {
        lines + "    "@ + name + " \""@ + escaped(text::joined(values, ";"@)) + "\"\n"@
    }
}

fn add_property(lines: &mut String, name: &str, values: &Vec<String>)
    ensures
        final(lines)@ == with_property(old(lines)@, name@, values.deep_view()),
{
    if values.len() > 0 {
        lines.append("    ");
        lines.append(name);
        lines.append(" \"");
        lines.append(&cmake_escape(&join(values, ";")));
        lines.append("\"\n");
    }
}

/// The properties of the interface of a target.
pub open spec fn interface_properties(context: TargetContextView, target: TargetSpecView) -> Text {
    let includes = with_property(
        Seq::empty(),
        "INTERFACE_INCLUDE_DIRECTORIES"@,
        include_paths(context, target),
    );
    let links = with_property(
        includes,
        "INTERFACE_LINK_LIBRARIES"@,
        interface_links(context, target),
    );
    let definitions = with_property(
        links,
        "INTERFACE_COMPILE_DEFINITIONS"@,
        target.compile_definitions,
    );
    let options = with_property(definitions, "INTERFACE_COMPILE_OPTIONS"@, target.compile_options);
    with_property(options, "INTERFACE_COMPILE_FEATURES"@, target.compile_features)
}

fn render_interface_properties(context: &TargetContext, target: &TargetSpec) -> (lines: String)
    ensures
        lines@ == interface_properties(context.deep_view(), target.deep_view()),
{
    let mut lines = String::new();
    add_property(
        &mut lines,
        "INTERFACE_INCLUDE_DIRECTORIES",
        &collect_include_paths(context, target),
    );
    add_property(
        &mut lines,
        "INTERFACE_LINK_LIBRARIES",
        &collect_interface_links(context, target),
    );
    add_property(&mut lines, "INTERFACE_COMPILE_DEFINITIONS", &target.compile_definitions);
    add_property(&mut lines, "INTERFACE_COMPILE_OPTIONS", &target.compile_options);
    add_property(&mut lines, "INTERFACE_COMPILE_FEATURES", &target.compile_features);
    lines
}

/// A library that is declared unless it is there, with what `body` says of it.
pub open spec fn declaration(name: Text, what: Text, body: Text) -> Text {
    "if (NOT TARGET "@ + name + ")\n"@ + "  add_library("@ + name + " "@ + what + ")\n"@ + body
        + "endif()\n"@
}

fn render_declaration(name: &str, what: &str, body: &str) -> (block: String)
    ensures
        block@ == declaration(name@, what@, body@),
{
    let mut block = cat7("if (NOT TARGET ", name, ")\n", "  add_library(", name, " ", what);
    block.append(")\n");
    block.append(body);
    block.append("endif()\n");
    block
}

/// The properties of a library.
pub open spec fn property_block(name: Text, lines: Text) -> Text {
    "  set_target_properties("@ + name + " PROPERTIES\n"@ + lines + "  )\n"@
}

fn render_property_block(name: &str, lines: &str) -> (block: String)
    ensures
        block@ == property_block(name@, lines@),
{
    cat5("  set_target_properties(", name, " PROPERTIES\n", lines, "  )\n")
}

/// The declaration of the interface of a target.
pub open spec fn interface_block(context: TargetContextView, target: TargetSpecView, name: Text) -> Text {
    let lines = interface_properties(context, target);
    declaration(
        name,
        "INTERFACE IMPORTED GLOBAL"@,
        if lines.len() == 0 {
            Seq::empty()
        } else {
            property_block(name, lines)
        },
    )
}

/// The declaration of a library file of a target.
pub open spec fn artifact_block(
    context: TargetContextView,
    kind: TargetKind,
    path: Text,
    name: Text,
    interface: Text,
) -> Text {
    let file = escaped(
        paths::shown_path(
            context.platform,
            paths::joined_path(context.platform, context.root, path),
        ),
    );
    let property = if kind == TargetKind::Object {
        "IMPORTED_OBJECTS"@
    } else {
        "IMPORTED_LOCATION"@
    };
    declaration(
        name,
        kind.word() + " IMPORTED GLOBAL"@,
        property_block(
            name,
            "    "@ + property + " \""@ + file + "\"\n"@ + "    INTERFACE_LINK_LIBRARIES \""@
                + escaped(interface) + "\"\n"@,
        ),
    )
}

fn render_artifact_block(
    context: &TargetContext,
    kind: TargetKind,
    path: &str,
    name: &str,
    interface: &str,
) -> (block: String)
    ensures
        block@ == artifact_block(context.deep_view(), kind, path@, name@, interface@),
{
    let file = cmake_escape(
        &display_path(context.platform, &join_path(context.platform, &context.root, path)),
    );
    let property = if kind == TargetKind::Object {
        "IMPORTED_OBJECTS"
    } else {
        "IMPORTED_LOCATION"
    };
    let mut lines = cat5("    ", property, " \"", &file, "\"\n");
    lines.append("    INTERFACE_LINK_LIBRARIES \"");
    lines.append(&cmake_escape(interface));
    lines.append("\"\n");
    render_declaration(
        name,
        &cat2(kind.cmake_imported_type(), " IMPORTED GLOBAL"),
        &render_property_block(name, &lines),
    )
}

/// The declarations of the first `count` library files of a target.
pub open spec fn artifact_blocks(
    context: TargetContextView,
    package: ResolvedPackageView,
    target: TargetSpecView,
    index: nat,
    count: int,
) -> Text
    decreases count,
{
    if count <= 0 {
        Seq::empty()
    } else {
        let (kind, path) = target.artifacts()[count - 1];
        artifact_blocks(context, package, target, index, count - 1) + artifact_block(
            context,
            kind,
            path,
            targets::internal_component(package, index, targets::role_of(kind)),
            targets::internal_component(package, index, TargetPublicRole::Interface),
        )
    }
}

/// What a target itself links to: its only library, or else its interface.
pub open spec fn base_link(package: ResolvedPackageView, target: TargetSpecView, index: nat) -> Text {
    if target.artifacts().len() == 1 {
        targets::internal_component(
            package,
            index,
            targets::role_of(target.artifacts()[0].0),
        )
    } else {
        targets::internal_component(package, index, TargetPublicRole::Interface)
    }
}

/// The declarations of the first `count` public names of a target.
pub open spec fn alias_blocks(bindings: Seq<(Text, Text)>, count: int) -> Text
    decreases count,
{
    if count <= 0 {
        Seq::empty()
    } else {
        alias_blocks(bindings, count - 1) + declaration(
            bindings[count - 1].0,
            "ALIAS "@ + bindings[count - 1].1,
            Seq::empty(),
        )
    }
}

/// Everything that is declared for a target.
pub open spec fn target_block(
    context: TargetContextView,
    package: ResolvedPackageView,
    target: TargetSpecView,
    index: nat,
) -> Text {
    let interface = targets::internal_component(package, index, TargetPublicRole::Interface);
    let base = targets::internal_component(package, index, TargetPublicRole::Base);
    let bindings = targets::public_bindings(package, target, index);
    interface_block(context, target, interface) + artifact_blocks(
        context,
        package,
        target,
        index,
        target.artifacts().len() as int,
    ) + declaration(
        base,
        "INTERFACE IMPORTED GLOBAL"@,
        property_block(
            base,
            "    INTERFACE_LINK_LIBRARIES \""@ + escaped(base_link(package, target, index))
                + "\"\n"@,
        ),
    ) + alias_blocks(bindings, bindings.len() as int)
}

fn render_target_block(
    context: &TargetContext,
    package: &ResolvedPackage,
    target: &TargetSpec,
    index: usize,
) -> (block: String)
    ensures
        block@ == target_block(
            context.deep_view(),
            package.deep_view(),
            target.deep_view(),
            index as nat,
        ),
{
    let interface = internal_target_component_name(package, index, TargetPublicRole::Interface);
    let base = internal_target_component_name(package, index, TargetPublicRole::Base);
    let lines = render_interface_properties(context, target);
    let body = if lines.as_str().is_empty() {
        String::new()
    } else {
        render_property_block(&interface, &lines)
    };
    let mut block = render_declaration(&interface, "INTERFACE IMPORTED GLOBAL", &body);
    let artifacts = target.artifact_paths();
    let mut files = String::new();
    let mut count: usize = 0;
    while count < artifacts.len()
        invariant
            count <= artifacts.len(),
            artifacts.deep_view() == target.deep_view().artifacts(),
            interface@ == targets::internal_component(
                package.deep_view(),
                index as nat,
                TargetPublicRole::Interface,
            ),
            files@ == artifact_blocks(
                context.deep_view(),
                package.deep_view(),
                target.deep_view(),
                index as nat,
                count as int,
            ),
        decreases artifacts.len() - count,
    {
        assert(artifacts.deep_view()[count as int] == artifacts[count as int].deep_view());
        let kind = artifacts[count].0;
        let name = internal_target_component_name(package, index, kind_role(kind));
        files.append(
            &render_artifact_block(context, kind, &artifacts[count].1, &name, &interface),
        );
        count = count + 1;
    }
    block.append(&files);
    assert(artifacts.deep_view().len() == artifacts.len());
    let link = if artifacts.len() == 1 {
        assert(artifacts.deep_view()[0] == artifacts[0].deep_view());
        internal_target_component_name(package, index, kind_role(artifacts[0].0))
    } else {
        interface
    };
    block.append(
        &render_declaration(
            &base,
            "INTERFACE IMPORTED GLOBAL",
            &render_property_block(
                &base,
                &cat3("    INTERFACE_LINK_LIBRARIES \"", &cmake_escape(&link), "\"\n"),
            ),
        ),
    );
    let bindings = public_target_bindings(package, target, index);
    let mut aliases = String::new();
    let mut next: usize = 0;
    while next < bindings.len()
        invariant
            next <= bindings.len(),
            aliases@ == alias_blocks(bindings.deep_view(), next as int),
        decreases bindings.len() - next,
    {
        assert(bindings.deep_view()[next as int] == bindings[next as int].deep_view());
        aliases.append(
            &render_declaration(&bindings[next].0, &cat2("ALIAS ", &bindings[next].1), &String::new()),
        );
        next = next + 1;
    }
    block.append(&aliases);
    block
}

/// Everything that is declared for the first `count` targets of a package.
pub open spec fn target_blocks(
    context: TargetContextView,
    package: ResolvedPackageView,
    count: int,
) -> Text
    decreases count,
{
    if count <= 0 {
        Seq::empty()
    } else {
        target_blocks(context, package, count - 1) + target_block(
            context,
            package,
            package.spec.targets[count - 1],
            (count - 1) as nat,
        )
    }
}

/// What surrounds the targets of a package.
pub open spec fn package_context(
    platform: HostPlatform,
    depos_root: Text,
    variant: Text,
    selected: Seq<ResolvedPackageView>,
    package: ResolvedPackageView,
) -> TargetContextView {
    TargetContextView {
        platform,
        root: layout::store_root_of(platform, depos_root, variant, package.spec),
        dependency_links: dependency_links(
            selected,
            package,
            package.spec.depends.len() as int,
        ),
        own: targets::own_bindings(package, package.spec.targets.len() as int),
        public: targets::all_bindings(selected),
    }
}

/// Everything that is declared for a package.
#[verifier::opaque]
pub open spec fn package_block(
    platform: HostPlatform,
    depos_root: Text,
    variant: Text,
    selected: Seq<ResolvedPackageView>,
    package: ResolvedPackageView,
) -> Text {
    "\n# "@ + package.spec.id() + "\n"@ + target_blocks(
        package_context(platform, depos_root, variant, selected, package),
        package,
        package.spec.targets.len() as int,
    )
}

fn render_target_blocks(context: &TargetContext, package: &ResolvedPackage) -> (blocks: String)
    ensures
        blocks@ == target_blocks(
            context.deep_view(),
            package.deep_view(),
            package.deep_view().spec.targets.len() as int,
        ),
{
    let mut blocks = String::new();
    let mut index: usize = 0;
    assert(package.deep_view().spec.targets.len() == package.spec.targets.len());
    while index < package.spec.targets.len()
        invariant
            index <= package.spec.targets.len(),
            package.deep_view().spec.targets.len() == package.spec.targets.len(),
            blocks@ == target_blocks(context.deep_view(), package.deep_view(), index as int),
        decreases package.spec.targets.len() - index,
    {
        let target = &package.spec.targets[index];
        assert(package.deep_view().spec.targets[index as int] == target.deep_view());
        blocks.append(&render_target_block(context, package, target, index));
        index = index + 1;
    }
    blocks
}

fn render_package_block(
    platform: HostPlatform,
    depos_root: &str,
    variant: &str,
    selected: &Vec<ResolvedPackage>,
    package: &ResolvedPackage,
) -> (block: String)
    ensures
        block@ == package_block(
            platform,
            depos_root@,
            variant@,
            selected.deep_view(),
            package.deep_view(),
        ),
{
    let context = TargetContext {
        platform,
        root: package_store_root(platform, depos_root, variant, &package.spec),
        dependency_links: collect_dependency_links(selected, package),
        own: collect_own_bindings(package),
        public: collect_bindings(selected),
    };
    assert(context.deep_view() == package_context(
        platform,
        depos_root@,
        variant@,
        selected.deep_view(),
        package.deep_view(),
    ));
    proof {
        reveal(package_block);
    }
    cat4(
        "\n# ",
        &package.spec.package_id(),
        "\n",
        &render_target_blocks(&context, package),
    )
}

/// Everything that is declared for the first `count` packages.
pub open spec fn package_blocks(
    platform: HostPlatform,
    depos_root: Text,
    variant: Text,
    selected: Seq<ResolvedPackageView>,
    count: int,
) -> Text
    decreases count,
{
    if count <= 0 {
        Seq::empty()
    } else {
        package_blocks(platform, depos_root, variant, selected, count - 1) + package_block(
            platform,
            depos_root,
            variant,
            selected,
            selected[count - 1],
        )
    }
}

fn render_package_blocks(
    platform: HostPlatform,
    depos_root: &str,
    variant: &str,
    selected: &Vec<ResolvedPackage>,
) -> (packages: String)
    ensures
        packages@ == package_blocks(
            platform,
            depos_root@,
            variant@,
            selected.deep_view(),
            selected.deep_view().len() as int,
        ),
{
    assert(selected.deep_view().len() == selected.len());
    let mut packages = String::new();
    let mut count: usize = 0;
    while count < selected.len()
        invariant
            count <= selected.len(),
            packages@ == package_blocks(
                platform,
                depos_root@,
                variant@,
                selected.deep_view(),
                count as int,
            ),
        decreases selected.len() - count,
    {
        let package = &selected[count];
        assert(selected.deep_view()[count as int] == package.deep_view());
        packages.append(
            &render_package_block(platform, depos_root, variant, selected, package),
        );
        count = count + 1;
    }
    packages
}

/// The file that declares the targets of the selected packages; none where two packages export
/// the same public name.
pub open spec fn targets_file(
    platform: HostPlatform,
    depos_root: Text,
    variant: Text,
    validate_file: Text,
    selected: Seq<ResolvedPackageView>,
) -> Result<Text, Messages> {
    match targets::collision_check(selected) {
        Err(messages) => Err(messages),
        Ok(_) => Ok(
            "include_guard(GLOBAL)\n"@ + setting(
                "DEPOS_REGISTRY_STORE_ROOT"@,
                paths::shown_path(platform, layout::variant_root_of(platform, depos_root, variant)),
            ) + "include(\""@ + escaped(paths::shown_path(platform, validate_file)) + "\")\n"@
                + package_blocks(
                platform,
                depos_root,
                variant,
                selected,
                selected.len() as int,
            ),
        ),
    }
}

pub fn render_targets_cmake(
    platform: HostPlatform,
    depos_root: &str,
    variant: &str,
    validate_file: &str,
    selected: &Vec<ResolvedPackage>,
) -> (result: Result<String, Failure>)
    ensures
        outcome(result) == targets_file(
            platform,
            depos_root@,
            variant@,
            validate_file@,
            selected.deep_view(),
        ),
{
    ensure_public_target_collisions(selected)?;
    let mut output = cat5(
        "include_guard(GLOBAL)\n",
        &render_setting(
            "DEPOS_REGISTRY_STORE_ROOT",
            &display_path(platform, &variant_root(platform, depos_root, variant)),
        ),
        "include(\"",
        &cmake_escape(&display_path(platform, validate_file)),
        "\")\n",
    );
    let packages = render_package_blocks(platform, depos_root, variant, selected);
    output.append(&packages);
    Ok(output)
}

/// The value, or an underscore where there is none.
pub open spec fn or_blank(value: Option<Text>) -> Text {
    match value {
        Some(value) => value,
        None => "_"@,
    }
}

fn value_or_blank(value: &Option<String>) -> (result: String)
    ensures
        result@ == or_blank(value.deep_view()),
{
    match value {
        Some(value) => value.clone(),
        None => "_".to_owned(),
    }
}

/// What the lock file says of a package: how it is named, where from and how it was asked
/// for, its aliases, and the source that it was built from.
pub open spec fn lock_entry(package: ResolvedPackageView, provenance: SourceProvenanceView) -> Text {
    let version = if package.request.version().len() == 0 {
        "_"@
    } else {
        package.request.version()
    };
    let aliases = if package.aliases.len() == 0 {
        "_"@
    } else {
        text::joined(package.aliases, ","@)
    };
    package.spec.id() + "|"@ + package.source.word() + "|"@ + package.request.kind() + "|"@
        + version + "|"@ + aliases + "|"@ + or_blank(provenance.source_ref) + "|"@ + or_blank(
        provenance.source_commit,
    )
}

fn render_lock_entry(package: &ResolvedPackage, provenance: &SourceProvenance) -> (entry: String)
    ensures
        entry@ == lock_entry(package.deep_view(), provenance.deep_view()),
{
    let requested = package.request.version_str();
    let version = if requested.is_empty() {
        "_"
    } else {
        requested
    };
    let aliases = if package.aliases.len() == 0 {
        "_".to_owned()
    } else {
        join(&package.aliases, ",")
    };
    let mut entry = cat7(
        &package.spec.package_id(),
        "|",
        package.source.as_str(),
        "|",
        package.request.kind_str(),
        "|",
        version,
    );
    entry.append("|");
    entry.append(&aliases);
    entry.append("|");
    entry.append(&value_or_blank(&provenance.source_ref));
    entry.append("|");
    entry.append(&value_or_blank(&provenance.source_commit));
    entry
}

/// The file that records what a registry was made from. `provenances` holds, for each selected
/// package, where its sources came from.
pub open spec fn lock_file(
    platform: HostPlatform,
    depos_root: Text,
    manifest: Text,
    variant: Text,
    profile: Text,
    registry_dir: Text,
    selected: Seq<ResolvedPackageView>,
    provenances: Seq<SourceProvenanceView>,
) -> Text {
    let entries = Seq::new(selected.len(), |i: int| lock_entry(selected[i], provenances[i]));
    setting("DEPOS_REGISTRY_MANIFEST"@, paths::shown_path(platform, manifest)) + setting(
        "DEPOS_REGISTRY_PROFILE"@,
        profile,
    ) + setting("DEPOS_REGISTRY_VARIANT"@, variant) + setting(
        "DEPOS_REGISTRY_STORE_ROOT"@,
        paths::shown_path(platform, layout::variant_root_of(platform, depos_root, variant)),
    ) + setting(
        "DEPOS_REGISTRY_TARGETS_FILE"@,
        paths::shown_path(platform, paths::joined_path(platform, registry_dir, "targets.cmake"@)),
    ) + setting(
        "DEPOS_REGISTRY_VALIDATE_FILE"@,
        paths::shown_path(platform, paths::joined_path(platform, registry_dir, "validate.cmake"@)),
    ) + setting("DEPOS_REGISTRY_SELECTED_PACKAGES"@, text::joined(entries, ";"@))
}

pub fn render_lock_cmake(
    platform: HostPlatform,
    depos_root: &str,
    manifest: &str,
    variant: &str,
    profile: &str,
    registry_dir: &str,
    selected: &Vec<ResolvedPackage>,
    provenances: &Vec<SourceProvenance>,
) -> (output: String)
    requires
        selected.len() == provenances.len(),
    ensures
        output@ == lock_file(
            platform,
            depos_root@,
            manifest@,
            variant@,
            profile@,
            registry_dir@,
            selected.deep_view(),
            provenances.deep_view(),
        ),
{
    let ghost all = Seq::new(
        selected.deep_view().len(),
        |i: int| lock_entry(selected.deep_view()[i], provenances.deep_view()[i]),
    );
    let mut entries: Vec<String> = Vec::new();
    let mut index: usize = 0;
    assert(entries.deep_view() == all.take(0));
    while index < selected.len()
        invariant
            selected.len() == provenances.len(),
            index <= selected.len(),
            all == Seq::new(
                selected.deep_view().len(),
                |i: int| lock_entry(selected.deep_view()[i], provenances.deep_view()[i]),
            ),
            entries.deep_view() == all.take(index as int),
        decreases selected.len() - index,
    {
        put(&mut entries, render_lock_entry(&selected[index], &provenances[index]));
        assert(selected.deep_view()[index as int] == selected[index as int].deep_view());
        assert(provenances.deep_view()[index as int] == provenances[index as int].deep_view());
        index = index + 1;
        assert(entries.deep_view() == all.take(index as int));
    }
    assert(all.take(index as int) == all);
    cat7(
        &render_setting("DEPOS_REGISTRY_MANIFEST", &display_path(platform, manifest)),
        &render_setting("DEPOS_REGISTRY_PROFILE", profile),
        &render_setting("DEPOS_REGISTRY_VARIANT", variant),
        &render_setting(
            "DEPOS_REGISTRY_STORE_ROOT",
            &display_path(platform, &variant_root(platform, depos_root, variant)),
        ),
        &render_setting(
            "DEPOS_REGISTRY_TARGETS_FILE",
            &display_path(platform, &join_path(platform, registry_dir, "targets.cmake")),
        ),
        &render_setting(
            "DEPOS_REGISTRY_VALIDATE_FILE",
            &display_path(platform, &join_path(platform, registry_dir, "validate.cmake")),
        ),
        &render_setting("DEPOS_REGISTRY_SELECTED_PACKAGES", &join(&entries, ";")),
    )
}

} // verus!

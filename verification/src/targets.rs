//! The CMake targets of selected packages: their names, who exports them and what they link.

use vstd::prelude::*;
use crate::failure::{failure, outcome, Failure, Messages};
use crate::model::{PackageKey, PackageKeyView, TargetKind, TargetSpec, TargetSpecView, Text};
use crate::names;
use crate::names::alphanumeric;
use crate::resolve::{ResolvedPackage, ResolvedPackageView};
use crate::text;
use crate::text::{cat3, cat6, chars_of, decimal, find_value, insert_text, put, put_all, same, slice};

verus! {

/// `value` with everything but ASCII letters and digits made an underscore.
pub open spec fn identifier_of(value: Text) -> Text {
    value.map_values(
        |c: char|
            if names::is_alphanumeric(c) {
                c
            } else {
                '_'
            },
    )
}

pub fn sanitize_cmake_identifier(value: &str) -> (identifier: String)
    ensures
        identifier@ == identifier_of(value@),
{
    let chars = chars_of(value);
    let mut identifier = String::new();
    let mut index: usize = 0;
    while index < chars.len()
        invariant
            index <= chars.len(),
            chars@ == value@,
            identifier@ == identifier_of(value@.take(index as int)),
        decreases chars.len() - index,
    {
        if alphanumeric(chars[index]) {
            identifier.push(chars[index]);
        } else {
            identifier.push('_');
        }
        index = index + 1;
        assert(identifier@ == identifier_of(value@.take(index as int)));
    }
    assert(value@.take(index as int) == value@);
    identifier
}

/// A face of a target: the target itself or one of the libraries behind it.
#[derive(Clone, Copy, Debug, PartialEq, Eq, Structural)]
pub enum TargetPublicRole {
    Base,
    Interface,
    Static,
    Shared,
    Object,
}

impl TargetPublicRole {
    /// The word for the role in target names.
    pub open spec fn word(self) -> Text {
        match self {
            TargetPublicRole::Base => "base"@,
            TargetPublicRole::Interface => "interface"@,
            TargetPublicRole::Static => "static"@,
            TargetPublicRole::Shared => "shared"@,
            TargetPublicRole::Object => "object"@,
        }
    }

    pub fn internal_suffix(self) -> (word: &'static str)
        ensures
            word@ == self.word(),
    {
        match self {
            TargetPublicRole::Base => "base",
            TargetPublicRole::Interface => "interface",
            TargetPublicRole::Static => "static",
            TargetPublicRole::Shared => "shared",
            TargetPublicRole::Object => "object",
        }
    }
}

/// The internal name of the target at a position of a package.
pub open spec fn internal_name(package: ResolvedPackageView, index: nat) -> Text {
    "_depos_"@ + identifier_of(package.spec.name) + "_"@ + identifier_of(package.spec.namespace)
        + "_"@ + identifier_of(package.spec.version) + "_t"@ + text::numeral(index)
}

pub fn internal_target_name(package: &ResolvedPackage, target_index: usize) -> (name: String)
    ensures
        name@ == internal_name(package.deep_view(), target_index as nat),
{
    let mut name = cat6(
        "_depos_",
        &sanitize_cmake_identifier(&package.spec.name),
        "_",
        &sanitize_cmake_identifier(&package.spec.namespace),
        "_",
        &sanitize_cmake_identifier(&package.spec.version),
    );
    name.append("_t");
    name.append(&decimal(target_index));
    name
}

/// The internal name of a face of a target.
pub open spec fn internal_component(
    package: ResolvedPackageView,
    index: nat,
    role: TargetPublicRole,
) -> Text {
    if role == TargetPublicRole::Base {
        internal_name(package, index)
    } else {
        internal_name(package, index) + "__"@ + role.word()
    }
}

pub fn internal_target_component_name(
    package: &ResolvedPackage,
    target_index: usize,
    role: TargetPublicRole,
) -> (name: String)
    ensures
        name@ == internal_component(package.deep_view(), target_index as nat, role),
{
    let name = internal_target_name(package, target_index);
    if role == TargetPublicRole::Base {
        name
    } else {
        cat3(&name, "__", role.internal_suffix())
    }
}

/// The public name of a face of a target.
pub open spec fn public_component(name: Text, role: TargetPublicRole) -> Text {
    if role == TargetPublicRole::Base {
        name
    } else {
        name + "::"@ + role.word()
    }
}

pub fn public_target_component_name(name: &str, role: TargetPublicRole) -> (result: String)
    ensures
        result@ == public_component(name@, role),
{
    if role == TargetPublicRole::Base {
        name.to_owned()
    } else {
        cat3(name, "::", role.internal_suffix())
    }
}

/// The position of the first `::` in `name` at or behind `from`, or the length.
pub open spec fn scope_end(name: Text, from: int) -> int
    decreases name.len() - from,
{
    if from + 1 >= name.len() {
        name.len() as int
    } else if name[from] == ':' && name[from + 1] == ':' {
        from
    } else {
        scope_end(name, from + 1)
    }
}

/// The name of a target under an alias: the alias takes the place of the outermost scope.
pub open spec fn aliased(alias: Text, name: Text) -> Text {
    let end = scope_end(name, 0);
    if end < name.len() {
        alias + "::"@ + name.subrange(end + 2, name.len() as int)
    } else {
        alias
    }
}

pub fn alias_target_name(alias: &str, original_target_name: &str) -> (name: String)
    ensures
        name@ == aliased(alias@, original_target_name@),
{
    let chars = chars_of(original_target_name);
    let mut index: usize = 0;
    while index < chars.len() && index + 1 < chars.len()
        invariant
            chars@ == original_target_name@,
            index <= chars.len(),
            scope_end(original_target_name@, 0) == scope_end(original_target_name@, index as int),
        decreases chars.len() - index,
    {
        if chars[index] == ':' && chars[index + 1] == ':' {
            return cat3(alias, "::", &slice(original_target_name, index + 2, chars.len()));
        }
        index = index + 1;
    }
    alias.to_owned()
}

/// The faces that a target has: itself and its interface, and one for each library.
pub open spec fn roles_of(target: TargetSpecView) -> Seq<TargetPublicRole> {
    let start = seq![TargetPublicRole::Base, TargetPublicRole::Interface];
    let statics = if target.static_path is Some {
        start.push(TargetPublicRole::Static)
    } else {
        start
    };
    let shareds = if target.shared_path is Some {
        statics.push(TargetPublicRole::Shared)
    } else {
        statics
    };
    if target.object_path is Some {
        shareds.push(TargetPublicRole::Object)
    } else {
        shareds
    }
}

pub fn target_roles(target: &TargetSpec) -> (roles: Vec<TargetPublicRole>)
    ensures
        roles@ == roles_of(target.deep_view()),
{
    let mut roles = vec![TargetPublicRole::Base, TargetPublicRole::Interface];
    assert(roles@ == seq![TargetPublicRole::Base, TargetPublicRole::Interface]);
    if target.static_path.is_some() {
        roles.push(TargetPublicRole::Static);
    }
    if target.shared_path.is_some() {
        roles.push(TargetPublicRole::Shared);
    }
    if target.object_path.is_some() {
        roles.push(TargetPublicRole::Object);
    }
    roles
}

/// The faces of a target under one public name, each with its internal name.
pub open spec fn root_bindings(
    package: ResolvedPackageView,
    target: TargetSpecView,
    index: nat,
    root: Text,
) -> Seq<(Text, Text)> {
    roles_of(target).map_values(
        |role: TargetPublicRole|
            (public_component(root, role), internal_component(package, index, role)),
    )
}

pub fn component_bindings(
    package: &ResolvedPackage,
    target: &TargetSpec,
    target_index: usize,
    root: &str,
) -> (bindings: Vec<(String, String)>)
    ensures
        bindings.deep_view() == root_bindings(
            package.deep_view(),
            target.deep_view(),
            target_index as nat,
            root@,
        ),
{
    let roles = target_roles(target);
    let ghost all = root_bindings(
        package.deep_view(),
        target.deep_view(),
        target_index as nat,
        root@,
    );
    let mut bindings: Vec<(String, String)> = Vec::new();
    let mut index: usize = 0;
    assert(bindings.deep_view() == all.take(0));
    while index < roles.len()
        invariant
            index <= roles.len(),
            roles@ == roles_of(target.deep_view()),
            all == root_bindings(
                package.deep_view(),
                target.deep_view(),
                target_index as nat,
                root@,
            ),
            bindings.deep_view() == all.take(index as int),
        decreases roles.len() - index,
    {
        put(
            &mut bindings,
            (
                public_target_component_name(root, roles[index]),
                internal_target_component_name(package, target_index, roles[index]),
            ),
        );
        index = index + 1;
        assert(bindings.deep_view() == all.take(index as int));
    }
    assert(all.take(index as int) == all);
    bindings
}

/// The public names under which a package exposes a target, in order: the alias names of the
/// first `count` aliases, and its own name where some request gives none.
pub open spec fn public_roots(package: ResolvedPackageView, name: Text, count: int) -> Seq<Text>
    decreases count,
{
    if count <= 0 {
        if package.expose_default {
            text::with_text(Seq::empty(), name)
        } else {
            Seq::empty()
        }
    } else {
        text::with_text(
            public_roots(package, name, count - 1),
            aliased(package.aliases[count - 1], name),
        )
    }
}

fn collect_public_roots(package: &ResolvedPackage, name: &str) -> (roots: Vec<String>)
    ensures
        roots.deep_view() == public_roots(
            package.deep_view(),
            name@,
            package.aliases.len() as int,
        ),
{
    let mut roots: Vec<String> = Vec::new();
    assert(roots.deep_view() == Seq::<Text>::empty());
    if package.expose_default {
        insert_text(&mut roots, name);
    }
    let mut count: usize = 0;
    while count < package.aliases.len()
        invariant
            count <= package.aliases.len(),
            roots.deep_view() == public_roots(package.deep_view(), name@, count as int),
        decreases package.aliases.len() - count,
    {
        assert(package.deep_view().aliases[count as int] == package.aliases[count as int]@);
        insert_text(&mut roots, &alias_target_name(&package.aliases[count], name));
        count = count + 1;
    }
    roots
}

/// The faces of a target under its first `count` public names.
pub open spec fn bindings_under(
    package: ResolvedPackageView,
    target: TargetSpecView,
    index: nat,
    roots: Seq<Text>,
    count: int,
) -> Seq<(Text, Text)>
    decreases count,
{
    if count <= 0 {
        Seq::empty()
    } else {
        bindings_under(package, target, index, roots, count - 1) + root_bindings(
            package,
            target,
            index,
            roots[count - 1],
        )
    }
}

/// Every public name of a target with the internal name that it stands for.
pub open spec fn public_bindings(
    package: ResolvedPackageView,
    target: TargetSpecView,
    index: nat,
) -> Seq<
    (Text, Text),
> {
    let roots = public_roots(package, target.name, package.aliases.len() as int);
    bindings_under(package, target, index, roots, roots.len() as int)
}

pub fn public_target_bindings(
    package: &ResolvedPackage,
    target: &TargetSpec,
    target_index: usize,
) -> (bindings: Vec<(String, String)>)
    ensures
        bindings.deep_view() == public_bindings(
            package.deep_view(),
            target.deep_view(),
            target_index as nat,
        ),
{
    let roots = collect_public_roots(package, &target.name);
    let mut bindings: Vec<(String, String)> = Vec::new();
    let mut count: usize = 0;
    assert(bindings.deep_view() == Seq::<(Text, Text)>::empty());
    while count < roots.len()
        invariant
            count <= roots.len(),
            bindings.deep_view() == bindings_under(
                package.deep_view(),
                target.deep_view(),
                target_index as nat,
                roots.deep_view(),
                count as int,
            ),
        decreases roots.len() - count,
    {
        put_all(&mut bindings, &component_bindings(package, target, target_index, &roots[count]));
        count = count + 1;
    }
    bindings
}

/// The public bindings of the first `count` targets of a package.
pub open spec fn package_bindings(package: ResolvedPackageView, count: int) -> Seq<(Text, Text)>
    decreases count,
{
    if count <= 0 {
        Seq::empty()
    } else {
        package_bindings(package, count - 1) + public_bindings(
            package,
            package.spec.targets[count - 1],
            (count - 1) as nat,
        )
    }
}

fn collect_package_bindings(package: &ResolvedPackage) -> (bindings: Vec<(String, String)>)
    ensures
        bindings.deep_view() == package_bindings(
            package.deep_view(),
            package.spec.targets.len() as int,
        ),
{
    let mut bindings: Vec<(String, String)> = Vec::new();
    let mut count: usize = 0;
    assert(bindings.deep_view() == Seq::<(Text, Text)>::empty());
    while count < package.spec.targets.len()
        invariant
            count <= package.spec.targets.len(),
            bindings.deep_view() == package_bindings(package.deep_view(), count as int),
        decreases package.spec.targets.len() - count,
    {
        assert(package.deep_view().spec.targets[count as int]
            == package.spec.targets[count as int].deep_view());
        put_all(
            &mut bindings,
            &public_target_bindings(package, &package.spec.targets[count], count),
        );
        count = count + 1;
    }
    bindings
}

/// The public bindings of all selected packages, in order.
pub open spec fn all_bindings(selected: Seq<ResolvedPackageView>) -> Seq<(Text, Text)>
    decreases selected.len(),
{
    if selected.len() == 0 {
        Seq::empty()
    } else {
        all_bindings(selected.drop_last()) + package_bindings(
            selected.last(),
            selected.last().spec.targets.len() as int,
        )
    }
}

pub fn collect_bindings(selected: &Vec<ResolvedPackage>) -> (bindings: Vec<(String, String)>)
    ensures
        bindings.deep_view() == all_bindings(selected.deep_view()),
{
    let mut bindings: Vec<(String, String)> = Vec::new();
    let mut index: usize = 0;
    assert(bindings.deep_view() == Seq::<(Text, Text)>::empty());
    assert(selected.deep_view().take(0) == Seq::<ResolvedPackageView>::empty());
    while index < selected.len()
        invariant
            index <= selected.len(),
            bindings.deep_view() == all_bindings(selected.deep_view().take(index as int)),
        decreases selected.len() - index,
    {
        proof {
            let next = selected.deep_view().take(index as int + 1);
            assert(next.drop_last() == selected.deep_view().take(index as int));
            assert(next.last() == selected[index as int].deep_view());
        }
        put_all(&mut bindings, &collect_package_bindings(&selected[index]));
        index = index + 1;
    }
    assert(selected.deep_view().take(index as int) == selected.deep_view());
    bindings
}

/// The package that first exported a public name, among the owners before position `before`.
pub open spec fn earlier_owner(
    owners: Seq<(Text, Text)>,
    name: Text,
    from: int,
    before: int,
) -> Option<
    Text,
>
    decreases before - from,
{
    if from >= before {
        None
    } else if owners[from].0 == name {
        Some(owners[from].1)
    } else {
        earlier_owner(owners, name, from + 1, before)
    }
}

/// The first public name that two packages, or one package twice, export, with both owners.
pub open spec fn collision_from(owners: Seq<(Text, Text)>, from: int) -> Option<(Text, Text, Text)>
    decreases owners.len() - from,
{
    if from >= owners.len() {
        None
    } else {
        match earlier_owner(owners, owners[from].0, 0, from) {
            Some(first) => Some((owners[from].0, first, owners[from].1)),
            None => collision_from(owners, from + 1),
        }
    }
}

/// Every public name with the package that exports it, in order.
pub open spec fn owners_of(selected: Seq<ResolvedPackageView>) -> Seq<(Text, Text)>
    decreases selected.len(),
{
    if selected.len() == 0 {
        Seq::empty()
    } else {
        let package = selected.last();
        owners_of(selected.drop_last()) + package_bindings(
            package,
            package.spec.targets.len() as int,
        ).map_values(|binding: (Text, Text)| (binding.0, package.spec.id()))
    }
}

fn collect_owners(selected: &Vec<ResolvedPackage>) -> (owners: Vec<(String, String)>)
    ensures
        owners.deep_view() == owners_of(selected.deep_view()),
{
    let mut owners: Vec<(String, String)> = Vec::new();
    let mut index: usize = 0;
    assert(owners.deep_view() == Seq::<(Text, Text)>::empty());
    assert(selected.deep_view().take(0) == Seq::<ResolvedPackageView>::empty());
    while index < selected.len()
        invariant
            index <= selected.len(),
            owners.deep_view() == owners_of(selected.deep_view().take(index as int)),
        decreases selected.len() - index,
    {
        let package = &selected[index];
        let bindings = collect_package_bindings(package);
        let ghost start = owners.deep_view();
        let ghost id = package.deep_view().spec.id();
        let ghost named = bindings.deep_view().map_values(
            |binding: (Text, Text)| (binding.0, id),
        );
        let mut next: usize = 0;
        assert(owners.deep_view() == start + named.take(0));
        while next < bindings.len()
            invariant
                next <= bindings.len(),
                id == package.deep_view().spec.id(),
                named == bindings.deep_view().map_values(|binding: (Text, Text)| (binding.0, id)),
                owners.deep_view() == start + named.take(next as int),
            decreases bindings.len() - next,
        {
            put(&mut owners, (bindings[next].0.clone(), package.spec.package_id()));
            assert(bindings.deep_view()[next as int].0 == bindings[next as int].0@);
            next = next + 1;
            assert(owners.deep_view() == start + named.take(next as int));
        }
        proof {
            assert(named.take(next as int) == named);
            let grown = selected.deep_view().take(index as int + 1);
            assert(grown.drop_last() == selected.deep_view().take(index as int));
            assert(grown.last() == package.deep_view());
            assert(named == package_bindings(
                grown.last(),
                grown.last().spec.targets.len() as int,
            ).map_values(|binding: (Text, Text)| (binding.0, grown.last().spec.id())));
        }
        index = index + 1;
    }
    assert(selected.deep_view().take(index as int) == selected.deep_view());
    owners
}

/// The outcome of demanding that no public name be exported twice.
pub open spec fn collision_check(selected: Seq<ResolvedPackageView>) -> Result<(), Messages> {
    match collision_from(owners_of(selected), 0) {
        None => Ok(()),
        Some((name, first, second)) => Err(
            seq![
                "public target '"@ + name + "' is exported by both '"@ + first + "' and '"@ + second
                    + "'; use manifest AS aliasing to disambiguate"@,
            ],
        ),
    }
}

pub fn ensure_public_target_collisions(selected: &Vec<ResolvedPackage>) -> (result: Result<
    (),
    Failure,
>)
    ensures
        outcome(result) == collision_check(selected.deep_view()),
{
    let owners = collect_owners(selected);
    let mut index: usize = 0;
    while index < owners.len()
        invariant
            index <= owners.len(),
            owners.deep_view() == owners_of(selected.deep_view()),
            collision_from(owners.deep_view(), 0) == collision_from(
                owners.deep_view(),
                index as int,
            ),
        decreases owners.len() - index,
    {
        assert(owners.deep_view()[index as int] == owners[index as int].deep_view());
        let mut before: usize = 0;
        while before < index
            invariant
                before <= index < owners.len(),
                owners.deep_view() == owners_of(selected.deep_view()),
                owners.deep_view()[index as int] == owners[index as int].deep_view(),
                collision_from(owners.deep_view(), 0) == collision_from(
                    owners.deep_view(),
                    index as int,
                ),
                earlier_owner(owners.deep_view(), owners[index as int].0@, 0, index as int)
                    == earlier_owner(
                    owners.deep_view(),
                    owners[index as int].0@,
                    before as int,
                    index as int,
                ),
            decreases index - before,
        {
            assert(owners.deep_view()[before as int] == owners[before as int].deep_view());
            if same(&owners[before].0, &owners[index].0) {
                let mut message = cat6(
                    "public target '",
                    &owners[index].0,
                    "' is exported by both '",
                    &owners[before].1,
                    "' and '",
                    &owners[index].1,
                );
                message.append("'; use manifest AS aliasing to disambiguate");
                return Err(failure(message));
            }
            before = before + 1;
        }
        index = index + 1;
    }
    Ok(())
}

/// What a public name stands for among the bindings from position `from` on, where `known`
/// is what it stood for so far: nothing, one internal name, or more than one.
pub open spec fn meaning_from(
    bindings: Seq<(Text, Text)>,
    name: Text,
    from: int,
    known: Option<Option<Text>>,
) -> Option<Option<Text>>
    decreases bindings.len() - from,
{
    if from >= bindings.len() {
        known
    } else if bindings[from].0 != name {
        meaning_from(bindings, name, from + 1, known)
    } else {
        match known {
            None => meaning_from(bindings, name, from + 1, Some(Some(bindings[from].1))),
            Some(None) => known,
            Some(Some(internal)) => if internal == bindings[from].1 {
                meaning_from(bindings, name, from + 1, known)
            } else {
                Some(None)
            },
        }
    }
}

/// The one internal name that a public name stands for.
pub open spec fn meaning(bindings: Seq<(Text, Text)>, name: Text) -> Option<Text> {
    match meaning_from(bindings, name, 0, None) {
        Some(Some(internal)) => Some(internal),
        _ => None,
    }
}

pub fn global_target_lookup(
    bindings: &Vec<(String, String)>,
    name: &str,
) -> (internal: Option<String>)
    ensures
        internal.deep_view() == meaning(bindings.deep_view(), name@),
{
    let mut known: Option<String> = None;
    let mut index: usize = 0;
    while index < bindings.len()
        invariant
            index <= bindings.len(),
            meaning_from(bindings.deep_view(), name@, 0, None) == meaning_from(
                bindings.deep_view(),
                name@,
                index as int,
                match known {
                    Some(internal) => Some(Some(internal@)),
                    None => None,
                },
            ),
        decreases bindings.len() - index,
    {
        assert(bindings.deep_view()[index as int] == bindings[index as int].deep_view());
        if same(&bindings[index].0, name) {
            match &known {
                None => {
                    known = Some(bindings[index].1.clone());
                },
                Some(internal) => {
                    if !same(internal, &bindings[index].1) {
                        return None;
                    }
                },
            }
        }
        index = index + 1;
    }
    known
}

/// The own bindings of the first `count` targets of a package: every face under the name that
/// the package gives it.
pub open spec fn own_bindings(package: ResolvedPackageView, count: int) -> Seq<(Text, Text)>
    decreases count,
{
    if count <= 0 {
        Seq::empty()
    } else {
        let target = package.spec.targets[count - 1];
        own_bindings(package, count - 1) + root_bindings(
            package,
            target,
            (count - 1) as nat,
            target.name,
        )
    }
}

pub fn collect_own_bindings(package: &ResolvedPackage) -> (bindings: Vec<(String, String)>)
    ensures
        bindings.deep_view() == own_bindings(
            package.deep_view(),
            package.spec.targets.len() as int,
        ),
{
    let mut bindings: Vec<(String, String)> = Vec::new();
    let mut count: usize = 0;
    assert(bindings.deep_view() == Seq::<(Text, Text)>::empty());
    while count < package.spec.targets.len()
        invariant
            count <= package.spec.targets.len(),
            bindings.deep_view() == own_bindings(package.deep_view(), count as int),
        decreases package.spec.targets.len() - count,
    {
        let target = &package.spec.targets[count];
        assert(package.deep_view().spec.targets[count as int] == target.deep_view());
        put_all(&mut bindings, &component_bindings(package, target, count, &target.name));
        count = count + 1;
    }
    bindings
}

/// What a link item stands for: a face of a target of the same package, else a public target
/// of the selection, else itself.
pub open spec fn linked(own: Seq<(Text, Text)>, public: Seq<(Text, Text)>, item: Text) -> Text {
    match text::value_of(own, item) {
        Some(internal) => internal,
        None => match meaning(public, item) {
            Some(internal) => internal,
            None => item,
        },
    }
}

pub fn link_item(
    own: &Vec<(String, String)>,
    public: &Vec<(String, String)>,
    item: &str,
) -> (name: String)
    ensures
        name@ == linked(own.deep_view(), public.deep_view(), item@),
{
    match find_value(own, item) {
        Some(internal) => internal,
        None => match global_target_lookup(public, item) {
            Some(internal) => internal,
            None => item.to_owned(),
        },
    }
}

/// The internal name of the primary target of the last of the selected packages with a key.
pub open spec fn primary_link(
    selected: Seq<ResolvedPackageView>,
    key: PackageKeyView,
) -> Option<Text>
    decreases selected.len(),
{
    if selected.len() == 0 {
        None
    } else if selected.last().spec.key() == key && selected.last().spec.primary_index() is Some {
        Some(
            internal_name(
                selected.last(),
                selected.last().spec.primary_index()->Some_0 as nat,
            ),
        )
    } else {
        primary_link(selected.drop_last(), key)
    }
}

pub fn dependency_primary_target(
    selected: &Vec<ResolvedPackage>,
    key: &PackageKey,
) -> (name: Option<
    String,
>)
    ensures
        name.deep_view() == primary_link(selected.deep_view(), key.deep_view()),
{
    let mut count: usize = selected.len();
    assert(selected.deep_view().take(count as int) == selected.deep_view());
    while count > 0
        invariant
            count <= selected.len(),
            primary_link(selected.deep_view(), key.deep_view()) == primary_link(
                selected.deep_view().take(count as int),
                key.deep_view(),
            ),
        decreases count,
    {
        let package = &selected[count - 1];
        proof {
            let rest = selected.deep_view().take(count as int);
            assert(rest.drop_last() == selected.deep_view().take(count - 1));
            assert(rest.last() == package.deep_view());
        }
        if key.is(&package.spec.name, &package.spec.namespace) {
            if let Some(index) = package.spec.primary_target_index() {
                return Some(internal_target_name(package, index));
            }
        }
        count = count - 1;
    }
    None
}

/// The role of a library of a kind.
pub open spec fn role_of(kind: TargetKind) -> TargetPublicRole {
    match kind {
        TargetKind::Interface => TargetPublicRole::Interface,
        TargetKind::Static => TargetPublicRole::Static,
        TargetKind::Shared => TargetPublicRole::Shared,
        TargetKind::Object => TargetPublicRole::Object,
    }
}

pub fn kind_role(kind: TargetKind) -> (role: TargetPublicRole)
    ensures
        role == role_of(kind),
{
    match kind {
        TargetKind::Interface => TargetPublicRole::Interface,
        TargetKind::Static => TargetPublicRole::Static,
        TargetKind::Shared => TargetPublicRole::Shared,
        TargetKind::Object => TargetPublicRole::Object,
    }
}

} // verus!

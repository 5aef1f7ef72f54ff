//! Dependency resolution: which package each request selects, and in what order the selected
//! packages are built.

use vstd::prelude::*;
use crate::arch;
use crate::arch::{default_variant, variant_for_target_arch};
use crate::failure::{failure, outcome, within, Failure, Messages};
use crate::model;
use crate::model::{
    order_keys, PackageKey, PackageKeyView, PackageRequest, PackageRequestView, PackageSpec,
    PackageSpecView, RequestMode, RequestModeView, RequestSource, Text,
};
use crate::text;
use crate::text::{cat3, cat5, insert_text, join, put, put_all, same, Dup, Order};
use crate::version;
use crate::version::{mode_accepts, select_package};

verus! {

/// A package that a manifest selects, with how it was asked for.
#[derive(Clone, Debug, PartialEq, Eq)]
pub struct ResolvedPackage {
    pub spec: PackageSpec,
    pub source: RequestSource,
    pub request: RequestMode,
    pub expose_default: bool,
    pub aliases: Vec<String>,
}

/// The model of [`ResolvedPackage`]. The aliases are in order and none occurs twice.
pub struct ResolvedPackageView {
    pub spec: PackageSpecView,
    pub source: RequestSource,
    pub request: RequestModeView,
    pub expose_default: bool,
    pub aliases: Seq<Text>,
}

impl DeepView for ResolvedPackage {
    type V = ResolvedPackageView;

    open spec fn deep_view(&self) -> ResolvedPackageView {
        ResolvedPackageView {
            spec: self.spec.deep_view(),
            source: self.source,
            request: self.request.deep_view(),
            expose_default: self.expose_default,
            aliases: self.aliases.deep_view(),
        }
    }
}

impl Dup for ResolvedPackage {
    fn dup(&self) -> (copy: Self) {
        ResolvedPackage {
            spec: self.spec.dup(),
            source: self.source,
            request: self.request.dup(),
            expose_default: self.expose_default,
            aliases: self.aliases.dup(),
        }
    }
}

/// The packages of a catalog with a given key, in catalog order.
pub open spec fn candidates(catalog: Seq<PackageSpecView>, key: PackageKeyView) -> Seq<
    PackageSpecView,
>
    decreases catalog.len(),
{
    if catalog.len() == 0 {
        catalog
    } else if catalog.last().key() == key {
        candidates(catalog.drop_last(), key).push(catalog.last())
    } else {
        candidates(catalog.drop_last(), key)
    }
}

/// Collects the packages of a catalog with a given key.
pub fn candidates_for_key(catalog: &Vec<PackageSpec>, key: &PackageKey) -> (found: Vec<PackageSpec>)
    ensures
        found.deep_view() == candidates(catalog.deep_view(), key.deep_view()),
{
    let mut found: Vec<PackageSpec> = Vec::new();
    let mut index: usize = 0;
    assert(catalog.deep_view().take(0) == Seq::<PackageSpecView>::empty());
    assert(found.deep_view() == Seq::<PackageSpecView>::empty());
    while index < catalog.len()
        invariant
            index <= catalog.len(),
            found.deep_view() == candidates(
                catalog.deep_view().take(index as int),
                key.deep_view(),
            ),
        decreases catalog.len() - index,
    {
        proof {
            let next = catalog.deep_view().take(index as int + 1);
            assert(next.drop_last() == catalog.deep_view().take(index as int));
            assert(next.last() == catalog[index as int].deep_view());
        }
        if key.is(&catalog[index].name, &catalog[index].namespace) {
            put(&mut found, catalog[index].dup());
        }
        index = index + 1;
    }
    assert(catalog.deep_view().take(index as int) == catalog.deep_view());
    found
}

/// The position of the package with a given key at or behind `from`.
pub open spec fn position(
    packages: Seq<ResolvedPackageView>,
    key: PackageKeyView,
    from: int,
) -> Option<
    int,
>
    decreases packages.len() - from,
{
    if from >= packages.len() {
        None
    } else if packages[from].spec.key() == key {
        Some(from)
    } else {
        position(packages, key, from + 1)
    }
}

/// Whether a package with a given key is among `packages`.
pub open spec fn has_key(packages: Seq<ResolvedPackageView>, key: PackageKeyView) -> bool {
    exists|i: int| 0 <= i < packages.len() && (#[trigger] packages[i]).spec.key() == key
}

pub proof fn lemma_position(packages: Seq<ResolvedPackageView>, key: PackageKeyView, from: int)
    requires
        0 <= from <= packages.len(),
    ensures
        match position(packages, key, from) {
            Some(index) => from <= index < packages.len() && packages[index].spec.key() == key,
            None => forall|i: int|
                from <= i < packages.len() ==> (#[trigger] packages[i]).spec.key() != key,
        },
    decreases packages.len() - from,
{
    if from < packages.len() && packages[from].spec.key() != key {
        lemma_position(packages, key, from + 1);
    }
}

/// Finds the package with a given key.
pub fn find_package(packages: &Vec<ResolvedPackage>, key: &PackageKey) -> (found: Option<usize>)
    ensures
        match found {
            Some(index) => index < packages.len() && position(
                packages.deep_view(),
                key.deep_view(),
                0,
            ) == Some(index as int) && has_key(packages.deep_view(), key.deep_view()),
            None => position(packages.deep_view(), key.deep_view(), 0) is None && !has_key(
                packages.deep_view(),
                key.deep_view(),
            ),
        },
{
    proof {
        lemma_position(packages.deep_view(), key.deep_view(), 0);
    }
    let mut index: usize = 0;
    while index < packages.len()
        invariant
            index <= packages.len(),
            position(packages.deep_view(), key.deep_view(), 0) == position(
                packages.deep_view(),
                key.deep_view(),
                index as int,
            ),
        decreases packages.len() - index,
    {
        if key.is(&packages[index].spec.name, &packages[index].spec.namespace) {
            assert(packages.deep_view()[index as int].spec.key() == key.deep_view());
            return Some(index);
        }
        index = index + 1;
    }
    None
}

/// The position of the first package at or behind `from` whose key is not less than `key`.
pub open spec fn slot(packages: Seq<ResolvedPackageView>, key: PackageKeyView, from: int) -> int
    decreases packages.len() - from,
{
    if from >= packages.len() {
        packages.len() as int
    } else if model::key_order(packages[from].spec.key(), key) == Order::Less {
        slot(packages, key, from + 1)
    } else {
        from
    }
}

pub proof fn lemma_slot(packages: Seq<ResolvedPackageView>, key: PackageKeyView, from: int)
    requires
        0 <= from <= packages.len(),
    ensures
        from <= slot(packages, key, from) <= packages.len(),
    decreases packages.len() - from,
{
    if from < packages.len() {
        lemma_slot(packages, key, from + 1);
    }
}

/// The outcome of asking for a package that is already selected.
pub open spec fn compatibility(
    existing: ResolvedPackageView,
    request: PackageRequestView,
) -> Result<
    (),
    Messages,
> {
    if !version::accepts(request.mode, existing.spec.version) {
        Err(
            seq![
                "package '"@ + request.name + "["@ + request.namespace
                    + "]' was already resolved to '"@ + existing.spec.version
                    + "', which does not satisfy the later request '"@ + request.mode.kind()
                    + " "@ + request.mode.version() + "'"@,
            ],
        )
    } else if request.source == RequestSource::System {
        Err(
            seq![
                "package '"@ + request.name + "["@ + request.namespace
                    + "]' requested SOURCE SYSTEM after already resolving to a Depo artifact"@,
            ],
        )
    } else {
        Ok(())
    }
}

pub fn ensure_request_compatible(
    existing: &ResolvedPackage,
    request: &PackageRequest,
) -> (result: Result<(), Failure>)
    ensures
        outcome(result) == compatibility(existing.deep_view(), request.deep_view()),
{
    if !mode_accepts(&request.mode, &existing.spec.version) {
        let mut message = cat5(
            "package '",
            &request.name,
            "[",
            &request.namespace,
            "]' was already resolved to '",
        );
        message.append(&existing.spec.version);
        message.append("', which does not satisfy the later request '");
        message.append(request.mode.kind_str());
        message.append(" ");
        message.append(request.mode.version_str());
        message.append("'");
        return Err(failure(message));
    }
    if request.source == RequestSource::System {
        return Err(
            failure(
                cat5(
                    "package '",
                    &request.name,
                    "[",
                    &request.namespace,
                    "]' requested SOURCE SYSTEM after already resolving to a Depo artifact",
                ),
            ),
        );
    }
    Ok(())
}

/// A selected package once it is asked for again: it is exposed under its own name where some
/// request gives no alias, and under every alias that a request gives.
pub open spec fn asked_again(
    existing: ResolvedPackageView,
    request: PackageRequestView,
) -> ResolvedPackageView {
    ResolvedPackageView {
        expose_default: existing.expose_default || request.alias is None,
        aliases: match request.alias {
            Some(alias) => text::with_text(existing.aliases, alias),
            None => existing.aliases,
        },
        ..existing
    }
}

/// A package as it stands when it is first asked for.
pub open spec fn first_asked(
    spec: PackageSpecView,
    request: PackageRequestView,
) -> ResolvedPackageView {
    ResolvedPackageView {
        spec,
        source: request.source,
        request: request.mode,
        expose_default: request.alias is None,
        aliases: match request.alias {
            Some(alias) => seq![alias],
            None => Seq::empty(),
        },
    }
}

/// The package that a request for something not yet selected selects.
pub open spec fn selected_for(catalog: Seq<PackageSpecView>, request: PackageRequestView) -> Result<
    PackageSpecView,
    Messages,
> {
    let found = candidates(catalog, request.key());
    if request.source == RequestSource::System {
        Err(
            seq![
                "request '"@ + request.name + "["@ + request.namespace
                    + "]' asked for SOURCE SYSTEM, but the reconstructed depos core currently supports only materialized Depo artifacts"@,
            ],
        )
    } else if found.len() == 0 {
        Err(seq!["no registered package named '"@ + request.name + "["@ + request.namespace + "]'"@])
    } else {
        match version::selection(found, request.mode) {
            Err(messages) => Err(
                seq!["failed to resolve package '"@ + request.name + "["@ + request.namespace + "]'"@]
                    + messages,
            ),
            Ok(spec) => Ok(spec),
        }
    }
}

fn select_for_request(catalog: &Vec<PackageSpec>, request: &PackageRequest) -> (result: Result<
    PackageSpec,
    Failure,
>)
    ensures
        outcome(result) == selected_for(catalog.deep_view(), request.deep_view()),
{
    if request.source == RequestSource::System {
        return Err(
            failure(
                cat5(
                    "request '",
                    &request.name,
                    "[",
                    &request.namespace,
                    "]' asked for SOURCE SYSTEM, but the reconstructed depos core currently supports only materialized Depo artifacts",
                ),
            ),
        );
    }
    let found = candidates_for_key(catalog, &request.identity_key());
    if found.len() == 0 {
        return Err(
            failure(
                cat5(
                    "no registered package named '",
                    &request.name,
                    "[",
                    &request.namespace,
                    "]'",
                ),
            ),
        );
    }
    match select_package(&found, &request.mode) {
        Ok(spec) => Ok(spec),
        Err(inner) => Err(
            within(
                cat5("failed to resolve package '", &request.name, "[", &request.namespace, "]'"),
                inner,
            ),
        ),
    }
}

/// How many packages of the catalog have a key that is not selected yet.
pub open spec fn unselected(
    catalog: Seq<PackageSpecView>,
    packages: Seq<ResolvedPackageView>,
) -> nat
    decreases catalog.len(),
{
    if catalog.len() == 0 {
        0
    } else {
        unselected(catalog.drop_last(), packages) + if has_key(packages, catalog.last().key()) {
            0nat
        } else {
            1nat
        }
    }
}

/// Selecting more leaves no more unselected, and fewer where a key of the catalog is new.
pub proof fn lemma_unselected_shrinks(
    catalog: Seq<PackageSpecView>,
    before: Seq<ResolvedPackageView>,
    after: Seq<ResolvedPackageView>,
    fresh: PackageKeyView,
)
    requires
        forall|key: PackageKeyView| has_key(before, key) ==> #[trigger] has_key(after, key),
    ensures
        unselected(catalog, after) <= unselected(catalog, before),
        !has_key(before, fresh) && has_key(after, fresh) && candidates(catalog, fresh).len() > 0
            ==> unselected(catalog, after) < unselected(catalog, before),
    decreases catalog.len(),
{
    if catalog.len() > 0 {
        lemma_unselected_shrinks(catalog.drop_last(), before, after, fresh);
        assert(has_key(before, catalog.last().key()) ==> has_key(after, catalog.last().key()));
    }
}

/// Replacing a package by one with the same key keeps the keys.
pub proof fn lemma_update_keeps_keys(
    packages: Seq<ResolvedPackageView>,
    index: int,
    package: ResolvedPackageView,
)
    requires
        0 <= index < packages.len(),
        package.spec.key() == packages[index].spec.key(),
    ensures
        forall|key: PackageKeyView|
            has_key(packages, key) == #[trigger] has_key(packages.update(index, package), key),
{
    let after = packages.update(index, package);
    assert forall|key: PackageKeyView| has_key(packages, key) == #[trigger] has_key(after, key) by {
        if has_key(packages, key) {
            let i = choose|i: int| 0 <= i < packages.len() && (#[trigger] packages[i]).spec.key() == key;
            assert(after[i].spec.key() == key);
        }
        if has_key(after, key) {
            let i = choose|i: int| 0 <= i < after.len() && (#[trigger] after[i]).spec.key() == key;
            assert(packages[i].spec.key() == key);
        }
    }
}

/// Inserting a package adds its key and keeps the others.
pub proof fn lemma_insert_adds_key(
    packages: Seq<ResolvedPackageView>,
    index: int,
    package: ResolvedPackageView,
)
    requires
        0 <= index <= packages.len(),
    ensures
        has_key(packages.insert(index, package), package.spec.key()),
        forall|key: PackageKeyView|
            has_key(packages, key) ==> #[trigger] has_key(packages.insert(index, package), key),
{
    let after = packages.insert(index, package);
    assert(after[index] == package);
    assert forall|key: PackageKeyView| has_key(packages, key) implies #[trigger] has_key(
        after,
        key,
    ) by {
        let i = choose|i: int| 0 <= i < packages.len() && (#[trigger] packages[i]).spec.key() == key;
        if i < index {
            assert(after[i] == packages[i]);
        } else {
            assert(after[i + 1] == packages[i]);
        }
    }
}

/// What one request does to the selection, with the requests that it brings along: none where
/// its package is known, else the dependencies of the package it selects.
pub open spec fn admitted(
    catalog: Seq<PackageSpecView>,
    request: PackageRequestView,
    packages: Seq<ResolvedPackageView>,
) -> Result<(Seq<ResolvedPackageView>, Seq<PackageRequestView>), Messages> {
    match position(packages, request.key(), 0) {
        Some(index) => match compatibility(packages[index], request) {
            Err(messages) => Err(messages),
            Ok(_) => Ok(
                (packages.update(index, asked_again(packages[index], request)), Seq::empty()),
            ),
        },
        None => match selected_for(catalog, request) {
            Err(messages) => Err(messages),
            Ok(spec) => Ok(
                (
                    packages.insert(
                        slot(packages, request.key(), 0),
                        first_asked(spec, request),
                    ),
                    spec.depends,
                ),
            ),
        },
    }
}

/// A request either changes no key, or selects a key of the catalog that is new.
pub proof fn lemma_admitted(
    catalog: Seq<PackageSpecView>,
    request: PackageRequestView,
    packages: Seq<ResolvedPackageView>,
)
    ensures
        admitted(catalog, request, packages) matches Ok((after, brought)) ==> {
            &&& forall|key: PackageKeyView| has_key(packages, key) ==> #[trigger] has_key(after, key)
            &&& unselected(catalog, after) <= unselected(catalog, packages)
            &&& brought.len() == 0 || unselected(catalog, after) < unselected(catalog, packages)
        },
{
    let key = request.key();
    lemma_position(packages, key, 0);
    lemma_slot(packages, key, 0);
    match position(packages, key, 0) {
        Some(index) => {
            lemma_update_keeps_keys(packages, index, asked_again(packages[index], request));
            if let Ok((after, brought)) = admitted(catalog, request, packages) {
                lemma_unselected_shrinks(catalog, packages, after, key);
            }
        },
        None => match selected_for(catalog, request) {
            Ok(spec) => {
                let found = candidates(catalog, key);
                version::lemma_selection_is_accepted(found, request.mode);
                lemma_candidates_have_key(catalog, key);
                let package = first_asked(spec, request);
                assert(spec.key() == key);
                lemma_insert_adds_key(packages, slot(packages, key, 0), package);
                let after = packages.insert(slot(packages, key, 0), package);
                lemma_unselected_shrinks(catalog, packages, after, key);
            },
            Err(_) => {},
        },
    }
}

/// Every candidate for a key has it and is in the catalog.
pub proof fn lemma_candidates_have_key(catalog: Seq<PackageSpecView>, key: PackageKeyView)
    ensures
        forall|i: int|
            0 <= i < candidates(catalog, key).len() ==> (#[trigger] candidates(
                catalog,
                key,
            )[i]).key() == key && catalog.contains(candidates(catalog, key)[i]),
    decreases catalog.len(),
{
    if catalog.len() > 0 {
        let rest = catalog.drop_last();
        lemma_candidates_have_key(rest, key);
        assert forall|i: int| 0 <= i < candidates(catalog, key).len() implies (
        #[trigger] candidates(catalog, key)[i]).key() == key && catalog.contains(
            candidates(catalog, key)[i],
        ) by {
            if i < candidates(rest, key).len() {
                let spec = candidates(rest, key)[i];
                assert(spec == candidates(catalog, key)[i]);
                let j = rest.index_of(spec);
                assert(catalog[j] == spec);
            } else {
                assert(candidates(catalog, key)[i] == catalog[catalog.len() - 1]);
            }
        }
    }
}

/// The selection after all pending requests: depth first, a package's dependencies before the
/// requests that follow it.
pub open spec fn resolved_from(
    catalog: Seq<PackageSpecView>,
    pending: Seq<PackageRequestView>,
    packages: Seq<ResolvedPackageView>,
) -> Result<Seq<ResolvedPackageView>, Messages>
    decreases unselected(catalog, packages), pending.len(),
{
    if pending.len() == 0 {
        Ok(packages)
    } else {
        proof {
            lemma_admitted(catalog, pending[0], packages);
        }
        match admitted(catalog, pending[0], packages) {
            Err(messages) => Err(messages),
            Ok((after, brought)) => resolved_from(
                catalog,
                brought + pending.subrange(1, pending.len() as int),
                after,
            ),
        }
    }
}

fn take_in(
    catalog: &Vec<PackageSpec>,
    request: &PackageRequest,
    packages: Vec<ResolvedPackage>,
) -> (result: Result<(Vec<ResolvedPackage>, Vec<PackageRequest>), Failure>)
    ensures
        outcome(result) == admitted(
            catalog.deep_view(),
            request.deep_view(),
            packages.deep_view(),
        ),
{
    let ghost before = packages.deep_view();
    let mut packages = packages;
    let key = request.identity_key();
    if let Some(index) = find_package(&packages, &key) {
        ensure_request_compatible(&packages[index], request)?;
        let mut package = packages[index].dup();
        match &request.alias {
            None => {
                package.expose_default = true;
            },
            Some(alias) => {
                insert_text(&mut package.aliases, alias);
            },
        }
        assert(package.deep_view() == asked_again(before[index as int], request.deep_view()));
        packages.set(index, package);
        assert(packages.deep_view() == before.update(index as int, package.deep_view()));
        let brought: Vec<PackageRequest> = Vec::new();
        assert(brought.deep_view() == Seq::<PackageRequestView>::empty());
        return Ok((packages, brought));
    }
    let spec = select_for_request(catalog, request)?;
    let mut aliases: Vec<String> = Vec::new();
    assert(aliases.deep_view() == Seq::<Text>::empty());
    if let Some(alias) = &request.alias {
        aliases.push(alias.clone());
        assert(aliases.deep_view() == seq![alias@]);
    }
    let brought = spec.depends.dup();
    let package = ResolvedPackage {
        spec,
        source: request.source,
        request: request.mode.dup(),
        expose_default: request.alias.is_none(),
        aliases,
    };
    assert(package.deep_view() == first_asked(spec.deep_view(), request.deep_view()));
    let mut index: usize = 0;
    while index < packages.len() && order_keys(&packages[index].spec.identity_key(), &key)
        == Order::Less
        invariant
            packages.deep_view() == before,
            index <= packages.len(),
            slot(before, key.deep_view(), 0) == slot(before, key.deep_view(), index as int),
        decreases packages.len() - index,
    {
        assert(before[index as int] == packages[index as int].deep_view());
        index = index + 1;
    }
    proof {
        if index < packages.len() {
            assert(before[index as int] == packages[index as int].deep_view());
        }
    }
    packages.insert(index, package);
    assert(packages.deep_view() == before.insert(index as int, package.deep_view()));
    Ok((packages, brought))
}

fn resolve_pending(catalog: &Vec<PackageSpec>, requests: &Vec<PackageRequest>) -> (result: Result<
    Vec<ResolvedPackage>,
    Failure,
>)
    ensures
        outcome(result) == resolved_from(
            catalog.deep_view(),
            requests.deep_view(),
            Seq::empty(),
        ),
{
    let mut packages: Vec<ResolvedPackage> = Vec::new();
    let mut pending = requests.dup();
    assert(packages.deep_view() == Seq::<ResolvedPackageView>::empty());
    while pending.len() > 0
        invariant
            resolved_from(catalog.deep_view(), requests.deep_view(), Seq::empty()) == resolved_from(
                catalog.deep_view(),
                pending.deep_view(),
                packages.deep_view(),
            ),
        decreases unselected(catalog.deep_view(), packages.deep_view()), pending.len(),
    {
        let ghost waiting = pending.deep_view();
        let ghost known = packages.deep_view();
        let request = pending.remove(0);
        assert(request.deep_view() == waiting[0]);
        assert(pending.deep_view() == waiting.subrange(1, waiting.len() as int));
        proof {
            lemma_admitted(catalog.deep_view(), request.deep_view(), known);
        }
        let (after, brought) = take_in(catalog, &request, packages)?;
        packages = after;
        let mut next = brought;
        put_all(&mut next, &pending);
        pending = next;
    }
    Ok(packages)
}

/// What is said of a package that depends on itself, directly or through others.
pub open spec fn cycle(key: PackageKeyView) -> Messages {
    seq![
        "dependency cycle detected while ordering '"@ + key.name + "["@ + key.namespace + "]'"@,
    ]
}

/// `ordered` with the package of the given key and, before it, all its dependencies. The keys
/// in `visiting` are those of the packages on the way that led here; they are distinct and
/// selected, so once there are as many as there are packages every key is among them.
pub open spec fn visited(
    packages: Seq<ResolvedPackageView>,
    key: PackageKeyView,
    visiting: Seq<PackageKeyView>,
    ordered: Seq<ResolvedPackageView>,
) -> Result<Seq<ResolvedPackageView>, Messages>
    decreases packages.len() - visiting.len(), 0nat,
{
    if has_key(ordered, key) {
        Ok(ordered)
    } else if visiting.contains(key) || visiting.len() >= packages.len() {
        Err(cycle(key))
    } else {
        match position(packages, key, 0) {
            None => Err(
                seq![
                    "internal resolver mismatch while ordering '"@ + key.name + "["@
                        + key.namespace + "]'"@,
                ],
            ),
            Some(index) => match visited_all(packages, index, 0, visiting.push(key), ordered) {
                Err(messages) => Err(messages),
                Ok(before) => Ok(before.push(packages[index])),
            },
        }
    }
}

/// `ordered` with the dependencies of the package at `index`, from position `from` on.
pub open spec fn visited_all(
    packages: Seq<ResolvedPackageView>,
    index: int,
    from: int,
    visiting: Seq<PackageKeyView>,
    ordered: Seq<ResolvedPackageView>,
) -> Result<Seq<ResolvedPackageView>, Messages>
    decreases
        packages.len() - visiting.len(),
        (packages[index].spec.depends.len() - from + 1) as nat,
    when from <= packages[index].spec.depends.len()
{
    let package = packages[index].spec;
    if from >= package.depends.len() {
        Ok(ordered)
    } else {
        let dependency = package.depends[from];
        if !has_key(packages, dependency.key()) {
            Err(
                seq![
                    "internal resolver mismatch: '"@ + package.name + "["@ + package.namespace
                        + "]' depends on unresolved '"@ + dependency.name + "["@
                        + dependency.namespace + "]'"@,
                ],
            )
        } else {
            match visited(packages, dependency.key(), visiting, ordered) {
                Err(messages) => Err(messages),
                Ok(next) => visited_all(packages, index, from + 1, visiting, next),
            }
        }
    }
}

/// `ordered` with the packages from position `from` on, each behind its dependencies.
pub open spec fn ordered_from(
    packages: Seq<ResolvedPackageView>,
    from: int,
    ordered: Seq<ResolvedPackageView>,
) -> Result<Seq<ResolvedPackageView>, Messages>
    decreases packages.len() - from,
{
    if from >= packages.len() {
        Ok(ordered)
    } else {
        match visited(packages, packages[from].spec.key(), Seq::empty(), ordered) {
            Err(messages) => Err(messages),
            Ok(next) => ordered_from(packages, from + 1, next),
        }
    }
}

/// Decides whether a key is among `keys`.
fn contains_key(keys: &Vec<PackageKey>, key: &PackageKey) -> (yes: bool)
    ensures
        yes == keys.deep_view().contains(key.deep_view()),
{
    let mut index: usize = 0;
    while index < keys.len()
        invariant
            index <= keys.len(),
            forall|i: int| 0 <= i < index ==> keys.deep_view()[i] != key.deep_view(),
        decreases keys.len() - index,
    {
        if key.is(&keys[index].name, &keys[index].namespace) {
            assert(keys.deep_view()[index as int] == key.deep_view());
            return true;
        }
        index = index + 1;
    }
    false
}

pub fn visit_resolved_package(
    packages: &Vec<ResolvedPackage>,
    key: &PackageKey,
    visiting: &Vec<PackageKey>,
    ordered: Vec<ResolvedPackage>,
) -> (result: Result<Vec<ResolvedPackage>, Failure>)
    ensures
        outcome(result) == visited(
            packages.deep_view(),
            key.deep_view(),
            visiting.deep_view(),
            ordered.deep_view(),
        ),
    decreases packages.len() - visiting.len(),
{
    if find_package(&ordered, key).is_some() {
        return Ok(ordered);
    }
    if contains_key(visiting, key) || visiting.len() >= packages.len() {
        return Err(
            failure(
                cat5(
                    "dependency cycle detected while ordering '",
                    &key.name,
                    "[",
                    &key.namespace,
                    "]'",
                ),
            ),
        );
    }
    let index = match find_package(packages, key) {
        Some(index) => index,
        None => {
            return Err(
                failure(
                    cat5(
                        "internal resolver mismatch while ordering '",
                        &key.name,
                        "[",
                        &key.namespace,
                        "]'",
                    ),
                ),
            );
        },
    };
    let package = &packages[index];
    let mut path = visiting.dup();
    put(&mut path, key.dup());
    assert(path.deep_view().len() == visiting.deep_view().len() + 1);
    let ghost start = ordered.deep_view();
    let mut placed = ordered;
    let mut from: usize = 0;
    while from < package.spec.depends.len()
        invariant
            index < packages.len(),
            *package == packages[index as int],
            visiting.len() < packages.len(),
            path.len() == visiting.len() + 1,
            from <= package.spec.depends.len(),
            visited_all(packages.deep_view(), index as int, 0, path.deep_view(), start)
                == visited_all(
                packages.deep_view(),
                index as int,
                from as int,
                path.deep_view(),
                placed.deep_view(),
            ),
            start == ordered.deep_view(),
            visited(packages.deep_view(), key.deep_view(), visiting.deep_view(), start)
                == match visited_all(packages.deep_view(), index as int, 0, path.deep_view(), start) {
                Err(messages) => Err(messages),
                Ok(before) => Ok(before.push(packages.deep_view()[index as int])),
            },
        decreases package.spec.depends.len() - from,
    {
        let dependency = &package.spec.depends[from];
        assert(packages.deep_view()[index as int].spec.depends[from as int]
            == dependency.deep_view());
        let dependency_key = dependency.identity_key();
        if find_package(packages, &dependency_key).is_none() {
            let mut message = cat5(
                "internal resolver mismatch: '",
                &package.spec.name,
                "[",
                &package.spec.namespace,
                "]' depends on unresolved '",
            );
            message.append(&dependency.name);
            message.append("[");
            message.append(&dependency.namespace);
            message.append("]'");
            return Err(failure(message));
        }
        placed = visit_resolved_package(packages, &dependency_key, &path, placed)?;
        from = from + 1;
    }
    put(&mut placed, package.dup());
    Ok(placed)
}

/// The selected packages, each behind its dependencies.
pub open spec fn topological(packages: Seq<ResolvedPackageView>) -> Result<
    Seq<ResolvedPackageView>,
    Messages,
> {
    ordered_from(packages, 0, Seq::empty())
}

pub fn topologically_order_resolved(packages: &Vec<ResolvedPackage>) -> (result: Result<
    Vec<ResolvedPackage>,
    Failure,
>)
    ensures
        outcome(result) == topological(packages.deep_view()),
{
    let mut ordered: Vec<ResolvedPackage> = Vec::new();
    let visiting: Vec<PackageKey> = Vec::new();
    let mut from: usize = 0;
    assert(ordered.deep_view() == Seq::<ResolvedPackageView>::empty());
    assert(visiting.deep_view() == Seq::<PackageKeyView>::empty());
    while from < packages.len()
        invariant
            from <= packages.len(),
            visiting.deep_view() == Seq::<PackageKeyView>::empty(),
            topological(packages.deep_view()) == ordered_from(
                packages.deep_view(),
                from as int,
                ordered.deep_view(),
            ),
        decreases packages.len() - from,
    {
        assert(packages.deep_view()[from as int] == packages[from as int].deep_view());
        let key = packages[from].spec.identity_key();
        ordered = visit_resolved_package(packages, &key, &visiting, ordered)?;
        from = from + 1;
    }
    Ok(ordered)
}

/// What a manifest selects from a catalog, each package behind its dependencies.
pub open spec fn resolution(
    catalog: Seq<PackageSpecView>,
    requests: Seq<PackageRequestView>,
) -> Result<Seq<ResolvedPackageView>, Messages> {
    match resolved_from(catalog, requests, Seq::empty()) {
        Err(messages) => Err(messages),
        Ok(packages) => topological(packages),
    }
}

pub fn resolve_requests(
    catalog: &Vec<PackageSpec>,
    requests: &Vec<PackageRequest>,
) -> (result: Result<
    Vec<ResolvedPackage>,
    Failure,
>)
    ensures
        outcome(result) == resolution(catalog.deep_view(), requests.deep_view()),
{
    let packages = resolve_pending(catalog, requests)?;
    topologically_order_resolved(&packages)
}

/// The target architectures of the packages, in order, none twice.
pub open spec fn target_arches(packages: Seq<ResolvedPackageView>) -> Seq<Text>
    decreases packages.len(),
{
    if packages.len() == 0 {
        Seq::empty()
    } else {
        text::with_text(target_arches(packages.drop_last()), packages.last().spec.target_arch)
    }
}

/// How messages name the packages for one architecture, in order.
pub open spec fn ids_for(packages: Seq<ResolvedPackageView>, arch: Text) -> Seq<Text>
    decreases packages.len(),
{
    if packages.len() == 0 {
        Seq::empty()
    } else if packages.last().spec.target_arch == arch {
        ids_for(packages.drop_last(), arch).push(packages.last().spec.id())
    } else {
        ids_for(packages.drop_last(), arch)
    }
}

/// What is said of each architecture of the packages.
pub open spec fn arch_details(packages: Seq<ResolvedPackageView>, arches: Seq<Text>) -> Seq<Text> {
    arches.map_values(|arch: Text| arch + ": "@ + text::joined(ids_for(packages, arch), ", "@))
}

/// The store variant that the selected packages share: that of the host where nothing is
/// selected. Packages for several architectures share none.
pub open spec fn selected_variant(packages: Seq<ResolvedPackageView>, host: Text) -> Result<
    Text,
    Messages,
> {
    let arches = target_arches(packages);
    if arches.len() == 0 {
        Ok(arch::arch_variant(host))
    } else if arches.len() == 1 {
        arch::target_variant(arches[0])
    } else {
        Err(
            seq![
                "selected packages span multiple TARGET_ARCH values, which cannot share one registry/store variant: "@
                    + text::joined(arch_details(packages, arches), "; "@),
            ],
        )
    }
}

fn collect_ids(packages: &Vec<ResolvedPackage>, arch: &str) -> (ids: Vec<String>)
    ensures
        ids.deep_view() == ids_for(packages.deep_view(), arch@),
{
    let mut ids: Vec<String> = Vec::new();
    let mut index: usize = 0;
    assert(ids.deep_view() == Seq::<Text>::empty());
    assert(packages.deep_view().take(0) == Seq::<ResolvedPackageView>::empty());
    while index < packages.len()
        invariant
            index <= packages.len(),
            ids.deep_view() == ids_for(packages.deep_view().take(index as int), arch@),
        decreases packages.len() - index,
    {
        proof {
            let next = packages.deep_view().take(index as int + 1);
            assert(next.drop_last() == packages.deep_view().take(index as int));
            assert(next.last() == packages[index as int].deep_view());
        }
        if same(&packages[index].spec.target_arch, arch) {
            put(&mut ids, packages[index].spec.package_id());
        }
        index = index + 1;
    }
    assert(packages.deep_view().take(index as int) == packages.deep_view());
    ids
}

fn collect_arches(packages: &Vec<ResolvedPackage>) -> (arches: Vec<String>)
    ensures
        arches.deep_view() == target_arches(packages.deep_view()),
{
    let mut arches: Vec<String> = Vec::new();
    let mut index: usize = 0;
    assert(arches.deep_view() == Seq::<Text>::empty());
    assert(packages.deep_view().take(0) == Seq::<ResolvedPackageView>::empty());
    while index < packages.len()
        invariant
            index <= packages.len(),
            arches.deep_view() == target_arches(packages.deep_view().take(index as int)),
        decreases packages.len() - index,
    {
        proof {
            let next = packages.deep_view().take(index as int + 1);
            assert(next.drop_last() == packages.deep_view().take(index as int));
            assert(next.last() == packages[index as int].deep_view());
        }
        insert_text(&mut arches, &packages[index].spec.target_arch);
        index = index + 1;
    }
    assert(packages.deep_view().take(index as int) == packages.deep_view());
    arches
}

/// The store variant that the selected packages share, on a host of architecture `host`.
pub fn variant_for_selected_packages(
    selected: &Vec<ResolvedPackage>,
    host: &str,
) -> (result: Result<
    String,
    Failure,
>)
    ensures
        outcome(result) == selected_variant(selected.deep_view(), host@),
{
    let arches = collect_arches(selected);
    if arches.len() == 0 {
        return Ok(default_variant(host));
    }
    if arches.len() == 1 {
        return variant_for_target_arch(&arches[0]);
    }
    let mut details: Vec<String> = Vec::new();
    let mut index: usize = 0;
    while index < arches.len()
        invariant
            index <= arches.len(),
            details.deep_view() == arch_details(
                selected.deep_view(),
                arches.deep_view().take(index as int),
            ),
        decreases arches.len() - index,
    {
        let ids = collect_ids(selected, &arches[index]);
        put(&mut details, cat3(&arches[index], ": ", &join(&ids, ", ")));
        index = index + 1;
        assert(details.deep_view() == arch_details(
            selected.deep_view(),
            arches.deep_view().take(index as int),
        ));
    }
    assert(arches.deep_view().take(index as int) == arches.deep_view());
    Err(
        failure(
            text::cat2(
                "selected packages span multiple TARGET_ARCH values, which cannot share one registry/store variant: ",
                &join(&details, "; "),
            ),
        ),
    )
}

} // verus!

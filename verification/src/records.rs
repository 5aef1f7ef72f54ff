//! The records that are kept about a package: status, provenance, exports and the state of
//! its materialization. Each is written and read back as text.

use vstd::prelude::*;
use crate::failure::{failure, outcome, Failure, Messages};
use crate::model::{PackageState, PackageSystemLibs, Text, DEFAULT_NAMESPACE};
use crate::paths;
use crate::paths::{dedup_paths, display_path, HostPlatform};
use crate::text;
use crate::text::{
    cat2, cat3, cat4, cat7, find_value, lines, put, same, split_once, strip_prefix, trim, Dup,
};

verus! {

/// Where the sources of a package came from.
#[derive(Clone, Debug, PartialEq, Eq)]
pub struct SourceProvenance {
    pub source_ref: Option<String>,
    pub source_commit: Option<String>,
    pub source_digest: Option<String>,
}

/// The model of [`SourceProvenance`].
pub struct SourceProvenanceView {
    pub source_ref: Option<Text>,
    pub source_commit: Option<Text>,
    pub source_digest: Option<Text>,
}

impl DeepView for SourceProvenance {
    type V = SourceProvenanceView;

    open spec fn deep_view(&self) -> SourceProvenanceView {
        SourceProvenanceView {
            source_ref: self.source_ref.deep_view(),
            source_commit: self.source_commit.deep_view(),
            source_digest: self.source_digest.deep_view(),
        }
    }
}

/// The state that a registered package was last seen in.
#[derive(Clone, Debug, PartialEq, Eq)]
pub struct PackageStatus {
    pub name: String,
    pub namespace: String,
    pub version: String,
    pub lazy: bool,
    pub system_libs: PackageSystemLibs,
    pub state: PackageState,
    pub depofile: String,
    pub message: String,
    pub source_ref: Option<String>,
    pub source_commit: Option<String>,
}

/// The model of [`PackageStatus`].
pub struct PackageStatusView {
    pub name: Text,
    pub namespace: Text,
    pub version: Text,
    pub lazy: bool,
    pub system_libs: PackageSystemLibs,
    pub state: PackageState,
    pub depofile: Text,
    pub message: Text,
    pub source_ref: Option<Text>,
    pub source_commit: Option<Text>,
}

impl DeepView for PackageStatus {
    type V = PackageStatusView;

    open spec fn deep_view(&self) -> PackageStatusView {
        PackageStatusView {
            name: self.name@,
            namespace: self.namespace@,
            version: self.version@,
            lazy: self.lazy,
            system_libs: self.system_libs,
            state: self.state,
            depofile: self.depofile@,
            message: self.message@,
            source_ref: self.source_ref.deep_view(),
            source_commit: self.source_commit.deep_view(),
        }
    }
}

impl Dup for PackageStatus {
    fn dup(&self) -> (copy: Self) {
        PackageStatus {
            name: self.name.clone(),
            namespace: self.namespace.clone(),
            version: self.version.clone(),
            lazy: self.lazy,
            system_libs: self.system_libs,
            state: self.state,
            depofile: self.depofile.clone(),
            message: self.message.clone(),
            source_ref: self.source_ref.dup(),
            source_commit: self.source_commit.dup(),
        }
    }
}

impl PackageStatusView {
    /// The status on one line.
    pub open spec fn line(self) -> Text {
        self.name + "["@ + self.namespace + "]@"@ + self.version + " ["@ + self.state.word()
            + "] "@ + self.message
    }
}

impl PackageStatus {
    /// Writes the status on one line.
    pub fn to_text(&self) -> (line: String)
        ensures
            line@ == self.deep_view().line(),
    {
        let mut line = cat7(
            &self.name,
            "[",
            &self.namespace,
            "]@",
            &self.version,
            " [",
            self.state.as_str(),
        );
        line.append("] ");
        line.append(&self.message);
        line
    }
}

/// The files that a package put into the store.
#[derive(Clone, Debug, PartialEq, Eq)]
pub struct ExportManifest {
    pub store_root: String,
    pub paths: Vec<String>,
}

/// The model of [`ExportManifest`].
pub struct ExportManifestView {
    pub store_root: Text,
    pub paths: Seq<Text>,
}

impl DeepView for ExportManifest {
    type V = ExportManifestView;

    open spec fn deep_view(&self) -> ExportManifestView {
        ExportManifestView { store_root: self.store_root@, paths: self.paths.deep_view() }
    }
}

/// What a package was last materialized from.
#[derive(Clone, Debug, PartialEq, Eq)]
pub struct MaterializationState {
    pub store_root: String,
    pub depofile_hash: String,
    pub build_key: String,
}

/// The model of [`MaterializationState`].
pub struct MaterializationStateView {
    pub store_root: Text,
    pub depofile_hash: Text,
    pub build_key: Text,
}

impl DeepView for MaterializationState {
    type V = MaterializationStateView;

    open spec fn deep_view(&self) -> MaterializationStateView {
        MaterializationStateView {
            store_root: self.store_root@,
            depofile_hash: self.depofile_hash@,
            build_key: self.build_key@,
        }
    }
}

/// A line that gives a key its value.
pub open spec fn field(key: Text, value: Text) -> Text {
    key + "="@ + value + "\n"@
}

/// A line that gives a key its value, where it has one.
pub open spec fn optional_field(key: Text, value: Option<Text>) -> Text {
    match value {
        Some(value) => field(key, value),
        None => Seq::empty(),
    }
}

fn render_field(key: &str, value: &str) -> (line: String)
    ensures
        line@ == field(key@, value@),
{
    cat4(key, "=", value, "\n")
}

fn render_optional_field(key: &str, value: &Option<String>) -> (line: String)
    ensures
        line@ == optional_field(key@, value.deep_view()),
{
    match value {
        Some(value) => render_field(key, value),
        None => String::new(),
    }
}

/// The record of where sources came from.
pub open spec fn provenance_text(provenance: SourceProvenanceView) -> Text {
    optional_field("source_ref"@, provenance.source_ref) + optional_field(
        "source_commit"@,
        provenance.source_commit,
    ) + optional_field("source_digest"@, provenance.source_digest)
}

pub fn render_source_provenance(provenance: &SourceProvenance) -> (contents: String)
    ensures
        contents@ == provenance_text(provenance.deep_view()),
{
    cat3(
        &render_optional_field("source_ref", &provenance.source_ref),
        &render_optional_field("source_commit", &provenance.source_commit),
        &render_optional_field("source_digest", &provenance.source_digest),
    )
}

/// Nothing is known of the sources.
pub open spec fn no_provenance() -> SourceProvenanceView {
    SourceProvenanceView { source_ref: None, source_commit: None, source_digest: None }
}

/// What the lines of a provenance record say from position `from` on, where `known` is what
/// the lines before said.
pub open spec fn provenance_from(
    path: Text,
    lines: Seq<Text>,
    from: int,
    known: SourceProvenanceView,
) -> Result<SourceProvenanceView, Messages>
    decreases lines.len() - from,
{
    if from >= lines.len() {
        Ok(known)
    } else {
        let line = text::trimmed(lines[from]);
        if line.len() == 0 {
            provenance_from(path, lines, from + 1, known)
        } else {
            match text::parted(line, '=') {
                None => Err(seq!["invalid provenance syntax at "@ + path]),
                Some((key, value)) => if key == "source_ref"@ {
                    provenance_from(
                        path,
                        lines,
                        from + 1,
                        SourceProvenanceView { source_ref: Some(value), ..known },
                    )
                } else if key == "source_commit"@ {
                    provenance_from(
                        path,
                        lines,
                        from + 1,
                        SourceProvenanceView { source_commit: Some(value), ..known },
                    )
                } else if key == "source_digest"@ {
                    provenance_from(
                        path,
                        lines,
                        from + 1,
                        SourceProvenanceView { source_digest: Some(value), ..known },
                    )
                } else {
                    Err(seq!["unsupported provenance key '"@ + key + "' in "@ + path])
                },
            }
        }
    }
}

/// What a provenance record says.
pub open spec fn provenance_read(path: Text, source: Text) -> Result<
    SourceProvenanceView,
    Messages,
> {
    provenance_from(path, text::lines_of(source), 0, no_provenance())
}

pub fn parse_source_provenance(path: &str, source: &str) -> (result: Result<
    SourceProvenance,
    Failure,
>)
    ensures
        outcome(result) == provenance_read(path@, source@),
{
    let lines = lines(source);
    let mut known = SourceProvenance { source_ref: None, source_commit: None, source_digest: None };
    let mut index: usize = 0;
    while index < lines.len()
        invariant
            index <= lines.len(),
            provenance_read(path@, source@) == provenance_from(
                path@,
                lines.deep_view(),
                index as int,
                known.deep_view(),
            ),
        decreases lines.len() - index,
    {
        assert(lines.deep_view()[index as int] == lines[index as int]@);
        let line = trim(&lines[index]);
        index = index + 1;
        if line.as_str().is_empty() {
            continue;
        }
        match split_once(&line, '=') {
            None => {
                return Err(failure(cat2("invalid provenance syntax at ", path)));
            },
            Some((key, value)) => {
                if same(&key, "source_ref") {
                    known = SourceProvenance { source_ref: Some(value), ..known };
                } else if same(&key, "source_commit") {
                    known = SourceProvenance { source_commit: Some(value), ..known };
                } else if same(&key, "source_digest") {
                    known = SourceProvenance { source_digest: Some(value), ..known };
                } else {
                    return Err(failure(cat4("unsupported provenance key '", &key, "' in ", path)));
                }
            },
        }
    }
    Ok(known)
}

/// The record of a materialization.
pub open spec fn state_text(state: MaterializationStateView) -> Text {
    field("store_root"@, state.store_root) + field("depofile_hash"@, state.depofile_hash) + field(
        "build_key"@,
        state.build_key,
    )
}

/// Writes the record of a materialization; the store root is written with slashes.
pub fn render_materialization_state(
    platform: HostPlatform,
    state: &MaterializationState,
) -> (contents: String)
    ensures
        contents@ == state_text(
            (MaterializationStateView {
                store_root: paths::shown_path(platform, state.store_root@),
                ..state.deep_view()
            }),
        ),
{
    cat3(
        &render_field("store_root", &display_path(platform, &state.store_root)),
        &render_field("depofile_hash", &state.depofile_hash),
        &render_field("build_key", &state.build_key),
    )
}

/// What is known of a materialization while its record is read.
pub struct StateDraftView {
    pub store_root: Option<Text>,
    pub depofile_hash: Option<Text>,
    pub build_key: Option<Text>,
}

/// What the lines of a materialization record say from position `from` on, where `known` is
/// what the lines before said.
pub open spec fn state_from(
    path: Text,
    lines: Seq<Text>,
    from: int,
    known: StateDraftView,
) -> Result<StateDraftView, Messages>
    decreases lines.len() - from,
{
    if from >= lines.len() {
        Ok(known)
    } else {
        let line = text::trimmed(lines[from]);
        if line.len() == 0 {
            state_from(path, lines, from + 1, known)
        } else {
            match text::parted(line, '=') {
                None => Err(seq!["invalid materialization state syntax at "@ + path]),
                Some((key, value)) => if key == "store_root"@ {
                    state_from(
                        path,
                        lines,
                        from + 1,
                        StateDraftView { store_root: Some(value), ..known },
                    )
                } else if key == "depofile_hash"@ {
                    state_from(
                        path,
                        lines,
                        from + 1,
                        StateDraftView { depofile_hash: Some(value), ..known },
                    )
                } else if key == "build_key"@ {
                    state_from(
                        path,
                        lines,
                        from + 1,
                        StateDraftView { build_key: Some(value), ..known },
                    )
                } else {
                    Err(seq!["unsupported materialization state key '"@ + key + "' in "@ + path])
                },
            }
        }
    }
}

/// What a materialization record says; all three values must be there.
pub open spec fn state_read(
    path: Text,
    source: Text,
) -> Result<MaterializationStateView, Messages> {
    let blank = StateDraftView { store_root: None, depofile_hash: None, build_key: None };
    match state_from(path, text::lines_of(source), 0, blank) {
        Err(messages) => Err(messages),
        Ok(known) => match known.store_root {
            None => Err(seq!["missing store_root in "@ + path]),
            Some(store_root) => match known.depofile_hash {
                None => Err(seq!["missing depofile_hash in "@ + path]),
                Some(depofile_hash) => match known.build_key {
                    None => Err(seq!["missing build_key in "@ + path]),
                    Some(build_key) => Ok(
                        MaterializationStateView { store_root, depofile_hash, build_key },
                    ),
                },
            },
        },
    }
}

pub fn parse_materialization_state(path: &str, source: &str) -> (result: Result<
    MaterializationState,
    Failure,
>)
    ensures
        outcome(result) == state_read(path@, source@),
{
    let lines = lines(source);
    let mut store_root: Option<String> = None;
    let mut depofile_hash: Option<String> = None;
    let mut build_key: Option<String> = None;
    let mut index: usize = 0;
    let ghost blank = StateDraftView { store_root: None, depofile_hash: None, build_key: None };
    while index < lines.len()
        invariant
            index <= lines.len(),
            blank == (StateDraftView { store_root: None, depofile_hash: None, build_key: None }),
            lines.deep_view() == text::lines_of(source@),
            state_from(path@, lines.deep_view(), 0, blank) == state_from(
                path@,
                lines.deep_view(),
                index as int,
                StateDraftView {
                    store_root: store_root.deep_view(),
                    depofile_hash: depofile_hash.deep_view(),
                    build_key: build_key.deep_view(),
                },
            ),
        decreases lines.len() - index,
    {
        assert(lines.deep_view()[index as int] == lines[index as int]@);
        let line = trim(&lines[index]);
        index = index + 1;
        if line.as_str().is_empty() {
            continue;
        }
        match split_once(&line, '=') {
            None => {
                return Err(failure(cat2("invalid materialization state syntax at ", path)));
            },
            Some((key, value)) => {
                if same(&key, "store_root") {
                    store_root = Some(value);
                } else if same(&key, "depofile_hash") {
                    depofile_hash = Some(value);
                } else if same(&key, "build_key") {
                    build_key = Some(value);
                } else {
                    return Err(
                        failure(
                            cat4("unsupported materialization state key '", &key, "' in ", path),
                        ),
                    );
                }
            },
        }
    }
    let store_root = match store_root {
        Some(value) => value,
        None => {
            return Err(failure(cat2("missing store_root in ", path)));
        },
    };
    let depofile_hash = match depofile_hash {
        Some(value) => value,
        None => {
            return Err(failure(cat2("missing depofile_hash in ", path)));
        },
    };
    let build_key = match build_key {
        Some(value) => value,
        None => {
            return Err(failure(cat2("missing build_key in ", path)));
        },
    };
    Ok(MaterializationState { store_root, depofile_hash, build_key })
}

/// The lines for the first `count` exported paths.
pub open spec fn path_lines(platform: HostPlatform, exported: Seq<Text>, count: int) -> Text
    decreases count,
{
    if count <= 0 {
        Seq::empty()
    } else {
        path_lines(platform, exported, count - 1) + "PATH "@ + paths::shown_path(
            platform,
            exported[count - 1],
        ) + "\n"@
    }
}

/// The record of what a package exports, each path once.
pub open spec fn exports_text(
    platform: HostPlatform,
    store_root: Text,
    exported: Seq<Text>,
) -> Text {
    let kept = paths::distinct_paths(platform, exported);
    "STORE_ROOT "@ + paths::shown_path(platform, store_root) + "\n"@ + path_lines(
        platform,
        kept,
        kept.len() as int,
    )
}

pub fn render_export_manifest(
    platform: HostPlatform,
    store_root: &str,
    exported: &Vec<String>,
) -> (contents: String)
    ensures
        contents@ == exports_text(platform, store_root@, exported.deep_view()),
{
    let kept = dedup_paths(platform, exported);
    let mut list = String::new();
    let mut count: usize = 0;
    while count < kept.len()
        invariant
            count <= kept.len(),
            list@ == path_lines(platform, kept.deep_view(), count as int),
        decreases kept.len() - count,
    {
        assert(kept.deep_view()[count as int] == kept[count as int]@);
        list.append("PATH ");
        list.append(&display_path(platform, &kept[count]));
        list.append("\n");
        count = count + 1;
    }
    cat4("STORE_ROOT ", &display_path(platform, store_root), "\n", &list)
}

/// What the lines of an export record say from position `from` on: the store root known so
/// far, and the paths found so far.
pub open spec fn exports_from(
    path: Text,
    lines: Seq<Text>,
    from: int,
    store_root: Option<Text>,
    found: Seq<Text>,
) -> Result<(Option<Text>, Seq<Text>), Messages>
    decreases lines.len() - from,
{
    if from >= lines.len() {
        Ok((store_root, found))
    } else {
        let line = text::trimmed(lines[from]);
        if line.len() == 0 {
            exports_from(path, lines, from + 1, store_root, found)
        } else if text::has_prefix(line, "STORE_ROOT "@) {
            exports_from(
                path,
                lines,
                from + 1,
                Some(text::after(line, "STORE_ROOT "@.len() as int)),
                found,
            )
        } else if text::has_prefix(line, "PATH "@) {
            exports_from(
                path,
                lines,
                from + 1,
                store_root,
                found.push(text::after(line, "PATH "@.len() as int)),
            )
        } else {
            Err(seq!["unsupported export manifest syntax at "@ + path + ": "@ + lines[from]])
        }
    }
}

/// What an export record says, each path once.
pub open spec fn exports_read(
    platform: HostPlatform,
    path: Text,
    source: Text,
) -> Result<ExportManifestView, Messages> {
    match exports_from(path, text::lines_of(source), 0, None, Seq::empty()) {
        Err(messages) => Err(messages),
        Ok((store_root, found)) => match store_root {
            None => Err(seq!["missing STORE_ROOT in "@ + path]),
            Some(store_root) => Ok(
                ExportManifestView { store_root, paths: paths::distinct_paths(platform, found) },
            ),
        },
    }
}

pub fn parse_export_manifest(
    platform: HostPlatform,
    path: &str,
    source: &str,
) -> (result: Result<ExportManifest, Failure>)
    ensures
        outcome(result) == exports_read(platform, path@, source@),
{
    let lines = lines(source);
    let mut store_root: Option<String> = None;
    let mut found: Vec<String> = Vec::new();
    let mut index: usize = 0;
    assert(found.deep_view() == Seq::<Text>::empty());
    while index < lines.len()
        invariant
            index <= lines.len(),
            lines.deep_view() == text::lines_of(source@),
            exports_from(path@, lines.deep_view(), 0, None, Seq::empty()) == exports_from(
                path@,
                lines.deep_view(),
                index as int,
                store_root.deep_view(),
                found.deep_view(),
            ),
        decreases lines.len() - index,
    {
        assert(lines.deep_view()[index as int] == lines[index as int]@);
        let line = trim(&lines[index]);
        if line.as_str().is_empty() {
        } else if let Some(value) = strip_prefix(&line, "STORE_ROOT ") {
            store_root = Some(value);
        } else if let Some(value) = strip_prefix(&line, "PATH ") {
            put(&mut found, value);
        } else {
            return Err(
                failure(
                    cat4("unsupported export manifest syntax at ", path, ": ", &lines[index]),
                ),
            );
        }
        index = index + 1;
    }
    match store_root {
        Some(store_root) => Ok(ExportManifest { store_root, paths: dedup_paths(platform, &found) }),
        None => Err(failure(cat2("missing STORE_ROOT in ", path))),
    }
}

/// The word for a truth value.
pub open spec fn truth_word(value: bool) -> Text {
    if value {
        "true"@
    } else {
        "false"@
    }
}

/// The record of a status.
pub open spec fn status_text(status: PackageStatusView) -> Text {
    field("name"@, status.name) + field("namespace"@, status.namespace) + field(
        "version"@,
        status.version,
    ) + field("lazy"@, truth_word(status.lazy)) + field(
        "system_libs"@,
        status.system_libs.word(),
    ) + field("state"@, status.state.word()) + field("depofile"@, status.depofile) + field(
        "message"@,
        status.message,
    ) + optional_field("source_ref"@, status.source_ref) + optional_field(
        "source_commit"@,
        status.source_commit,
    )
}

/// Writes the record of a status; the path of the DepoFile is written with slashes.
pub fn render_status(platform: HostPlatform, status: &PackageStatus) -> (contents: String)
    ensures
        contents@ == status_text(
            (PackageStatusView {
                depofile: paths::shown_path(platform, status.depofile@),
                ..status.deep_view()
            }),
        ),
{
    let truth = if status.lazy {
        "true"
    } else {
        "false"
    };
    let mut contents = cat7(
        &render_field("name", &status.name),
        &render_field("namespace", &status.namespace),
        &render_field("version", &status.version),
        &render_field("lazy", truth),
        &render_field("system_libs", status.system_libs.as_str()),
        &render_field("state", status.state.as_str()),
        &render_field("depofile", &display_path(platform, &status.depofile)),
    );
    contents.append(&render_field("message", &status.message));
    contents.append(&render_optional_field("source_ref", &status.source_ref));
    contents.append(&render_optional_field("source_commit", &status.source_commit));
    contents
}

/// The fields of the lines of a status record from position `from` on, put behind `done`.
pub open spec fn fields_from(lines: Seq<Text>, from: int, done: Seq<(Text, Text)>) -> Result<
    Seq<(Text, Text)>,
    Messages,
>
    decreases lines.len() - from,
{
    if from >= lines.len() {
        Ok(done)
    } else if text::trimmed(lines[from]).len() == 0 {
        fields_from(lines, from + 1, done)
    } else {
        match text::parted(lines[from], '=') {
            None => Err(seq!["invalid status line '"@ + lines[from] + "'"@]),
            Some(pair) => fields_from(lines, from + 1, done.push(pair)),
        }
    }
}

/// A field that a status record must have.
pub open spec fn required_field(fields: Seq<(Text, Text)>, key: Text) -> Result<Text, Messages> {
    match text::value_of(fields, key) {
        Some(value) => Ok(value),
        None => Err(seq!["status file is missing "@ + key]),
    }
}

fn require_field(fields: &Vec<(String, String)>, key: &str) -> (result: Result<String, Failure>)
    ensures
        outcome(result) == required_field(fields.deep_view(), key@),
{
    match find_value(fields, key) {
        Some(value) => Ok(value),
        None => Err(failure(cat2("status file is missing ", key))),
    }
}

/// The status that the fields of a record describe. Where a key occurs more than once, the
/// last one counts.
pub open spec fn status_of(fields: Seq<(Text, Text)>) -> Result<PackageStatusView, Messages> {
    match required_field(fields, "name"@) {
        Err(messages) => Err(messages),
        Ok(name) => match required_field(fields, "version"@) {
            Err(messages) => Err(messages),
            Ok(version) => match required_field(fields, "lazy"@) {
                Err(messages) => Err(messages),
                Ok(lazy) => match required_field(fields, "system_libs"@) {
                    Err(messages) => Err(messages),
                    Ok(libs_word) => match PackageSystemLibs::read(libs_word) {
                        Err(messages) => Err(messages),
                        Ok(system_libs) => match required_field(fields, "state"@) {
                            Err(messages) => Err(messages),
                            Ok(state_word) => match PackageState::read(state_word) {
                                Err(messages) => Err(messages),
                                Ok(state) => match required_field(fields, "depofile"@) {
                                    Err(messages) => Err(messages),
                                    Ok(depofile) => match required_field(fields, "message"@) {
                                        Err(messages) => Err(messages),
                                        Ok(message) => Ok(
                                            PackageStatusView {
                                                name,
                                                namespace: match text::value_of(
                                                    fields,
                                                    "namespace"@,
                                                ) {
                                                    Some(namespace) => namespace,
                                                    None => DEFAULT_NAMESPACE@,
                                                },
                                                version,
                                                lazy: lazy == "true"@,
                                                system_libs,
                                                state,
                                                depofile,
                                                message,
                                                source_ref: text::value_of(fields, "source_ref"@),
                                                source_commit: text::value_of(
                                                    fields,
                                                    "source_commit"@,
                                                ),
                                            },
                                        ),
                                    },
                                },
                            },
                        },
                    },
                },
            },
        },
    }
}

/// What a status record says.
pub open spec fn status_read(source: Text) -> Result<PackageStatusView, Messages> {
    match fields_from(text::lines_of(source), 0, Seq::empty()) {
        Err(messages) => Err(messages),
        Ok(fields) => status_of(fields),
    }
}

fn collect_fields(source: &str) -> (result: Result<Vec<(String, String)>, Failure>)
    ensures
        outcome(result) == fields_from(text::lines_of(source@), 0, Seq::empty()),
{
    let lines = lines(source);
    let mut fields: Vec<(String, String)> = Vec::new();
    let mut index: usize = 0;
    assert(fields.deep_view() == Seq::<(Text, Text)>::empty());
    while index < lines.len()
        invariant
            index <= lines.len(),
            lines.deep_view() == text::lines_of(source@),
            fields_from(lines.deep_view(), 0, Seq::empty()) == fields_from(
                lines.deep_view(),
                index as int,
                fields.deep_view(),
            ),
        decreases lines.len() - index,
    {
        assert(lines.deep_view()[index as int] == lines[index as int]@);
        if !trim(&lines[index]).as_str().is_empty() {
            match split_once(&lines[index], '=') {
                Some(pair) => {
                    put(&mut fields, pair);
                },
                None => {
                    return Err(failure(cat3("invalid status line '", &lines[index], "'")));
                },
            }
        }
        index = index + 1;
    }
    Ok(fields)
}

pub fn parse_status(source: &str) -> (result: Result<PackageStatus, Failure>)
    ensures
        outcome(result) == status_read(source@),
{
    let fields = collect_fields(source)?;
    let name = require_field(&fields, "name")?;
    let namespace = match find_value(&fields, "namespace") {
        Some(namespace) => namespace,
        None => DEFAULT_NAMESPACE.to_owned(),
    };
    let version = require_field(&fields, "version")?;
    let lazy = require_field(&fields, "lazy")?;
    let libs_word = require_field(&fields, "system_libs")?;
    let system_libs = PackageSystemLibs::parse(&libs_word)?;
    let state_word = require_field(&fields, "state")?;
    let state = PackageState::parse(&state_word)?;
    let depofile = require_field(&fields, "depofile")?;
    let message = require_field(&fields, "message")?;
    Ok(
        PackageStatus {
            name,
            namespace,
            version,
            lazy: same(&lazy, "true"),
            system_libs,
            state,
            depofile,
            message,
            source_ref: find_value(&fields, "source_ref"),
            source_commit: find_value(&fields, "source_commit"),
        },
    )
}

/// The version whose exports a file records, by its name: what stands before the extension.
pub open spec fn exports_version(name: Text) -> Option<Text> {
    let extension = ".exports"@;
    if text::has_suffix(name, extension) && name.len() > extension.len() {
        Some(name.subrange(0, name.len() - extension.len()))
    } else {
        None
    }
}

pub fn export_record_version(name: &str) -> (version: Option<String>)
    ensures
        version.deep_view() == exports_version(name@),
{
    match text::strip_suffix(name, ".exports") {
        Some(version) => if version.as_str().is_empty() {
            None
        } else {
            Some(version)
        },
        None => None,
    }
}

} // verus!

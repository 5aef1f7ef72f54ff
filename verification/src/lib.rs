//! Package registry logic: DepoFile and manifest parsing, dependency resolution, build
//! command synthesis, CMake rendering and the record formats kept beside a package store.

pub mod arch;
pub mod arguments;
pub mod build_laws;
pub mod build_system;
pub mod cascade_laws;
pub mod catalog;
pub mod command_laws;
pub mod copying;
pub mod depofile;
pub mod depofile_laws;
pub mod digest;
pub mod directive_laws;
pub mod directives;
pub mod download;
pub mod environment;
pub mod environment_laws;
pub mod exports;
pub mod failure;
pub mod fetch_laws;
pub mod git;
pub mod git_laws;
pub mod grammar;
pub mod host_laws;
pub mod layer_laws;
pub mod layout;
pub mod manifest;
pub mod manifest_laws;
pub mod materialize;
pub mod model;
pub mod names;
pub mod path_laws;
pub mod paths;
pub mod phase_laws;
pub mod pipeline;
pub mod place_laws;
pub mod portable;
pub mod provider;
pub mod record_laws;
pub mod records;
pub mod registry;
pub mod render;
pub mod registry_laws;
pub mod render_laws;
pub mod report_laws;
pub mod resolve;
pub mod resolve_laws;
pub mod shell;
pub mod source;
pub mod selection_laws;
pub mod status;
pub mod status_laws;
pub mod store_laws;
pub mod target_laws;
pub mod targets;
pub mod text;
pub mod text_laws;
pub mod tokens;
pub mod version;
pub mod version_laws;

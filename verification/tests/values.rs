//! Texts, paths, names, versions and architectures.

use depos::arch::{
    cargo_target_env_fragment, debian_crossbuild_package, default_variant, host_arch,
    linux_gnu_target_triple, linux_gnu_toolchain_prefix, normalize_arch_name,
    variant_for_target_arch,
};
use depos::directives::depofile_directives;
use depos::model::{
    PackageState, PackageSystemLibs, RequestMode, RequestSource, TargetKind,
};
use depos::names::{ensure_alias_name, ensure_namespace_name, ensure_package_name};
use depos::paths::{
    components, dedup_paths, display_path, ensure_archive_member_path_safe,
    ensure_relative_confined_path, is_absolute, is_absolute_on, join_path, normalize_host_path, parent_path,
    path_starts_with, paths_equal, HostPlatform,
};
use depos::shell::{shell_join, shell_phase, shell_quote};
use depos::text::{
    cat3, decimal, dedup_strings, join, lines, order_texts, replace, split, split_once,
    strip_prefix, trim, Order,
};
use depos::tokens::tokenize_arguments;
use depos::version::{compare_versions, mode_accepts, version_tokens, VersionToken};

fn texts(values: &[&str]) -> Vec<String> {
    values.iter().map(|value| value.to_string()).collect()
}

#[test]
fn texts_are_cut_and_joined() {
    assert_eq!(cat3("a", "b", "c"), "abc");
    assert_eq!(trim(" \t a b \u{a0}\n"), "a b");
    assert_eq!(split("a,,b", ','), texts(&["a", "", "b"]));
    assert_eq!(lines("a\r\nb\n\nc"), texts(&["a", "b", "", "c"]));
    assert_eq!(lines("a\n"), texts(&["a"]));
    assert_eq!(join(&texts(&["a", "b", "c"]), ", "), "a, b, c");
    assert_eq!(replace("a'b'", '\'', "--"), "a--b--");
    assert_eq!(decimal(0), "0");
    assert_eq!(decimal(1207), "1207");
    assert_eq!(split_once("a=b=c", '='), Some(("a".to_string(), "b=c".to_string())));
    assert_eq!(split_once("abc", '='), None);
    assert_eq!(strip_prefix("dep:zlib", "dep:"), Some("zlib".to_string()));
    assert_eq!(strip_prefix("zlib", "dep:"), None);
    assert_eq!(dedup_strings(&texts(&["b", "a", "b"])), texts(&["b", "a"]));
    assert_eq!(order_texts("ab", "b"), Order::Less);
    assert_eq!(order_texts("ab", "a"), Order::Greater);
    assert_eq!(order_texts("ab", "ab"), Order::Equal);
}

#[test]
fn arguments_are_parted_at_white_space_outside_quotes() {
    assert_eq!(
        tokenize_arguments("a 'b \"d \\\" e\"f\tg\\").map_err(|error| error.render()),
        Ok(texts(&["a", "'b", "d \" ef", "g\\"]))
    );
    assert_eq!(
        tokenize_arguments("a \"b").map_err(|error| error.render()),
        Err("unterminated quoted string".to_string())
    );
    assert_eq!(
        tokenize_arguments("\"b\\").map_err(|error| error.render()),
        Err("dangling escape in quoted string".to_string())
    );
}

#[test]
fn shell_words_are_quoted_where_needed() {
    assert_eq!(shell_quote("plain-word_1.0"), "plain-word_1.0");
    assert_eq!(shell_quote(""), "''");
    assert!(shell_quote("a b").starts_with('\'') || shell_quote("a b").starts_with('"'));
    assert_eq!(shell_join(&texts(&["cmake", "--build", "."])), "cmake --build .");
    assert_eq!(
        shell_phase("true\n".to_string()),
        vec![texts(&["sh", "-eu", "-c", "true\n"])]
    );
}

#[test]
fn paths_are_joined_and_compared_by_components() {
    assert_eq!(join_path(HostPlatform::Linux, "/a", "b"), "/a/b");
    assert_eq!(join_path(HostPlatform::Linux, "/a/", "b"), "/a/b");
    assert_eq!(join_path(HostPlatform::Linux, "/a", "/b"), "/b");
    assert_eq!(components(HostPlatform::Linux, "/a//b/./c"), texts(&["/", "a", "b", "c"]));
    assert!(paths_equal(HostPlatform::Linux, "a//b", "a/./b/"));
    assert!(path_starts_with(HostPlatform::Linux, "/a/b", "/a"));
    assert!(!path_starts_with(HostPlatform::Linux, "/ab", "/a"));
    assert!(is_absolute("/a"));
    assert!(!is_absolute("a"));
    assert_eq!(parent_path(HostPlatform::Linux, "/a/b"), Some("/a".to_string()));
    assert_eq!(parent_path(HostPlatform::Linux, "/"), None);
    assert_eq!(
        dedup_paths(HostPlatform::Linux, &texts(&["a/b", "c", "a//b"])),
        texts(&["a/b", "c"])
    );
}

#[test]
fn windows_paths_are_shown_plainly() {
    assert_eq!(display_path(HostPlatform::Linux, "/a\\b"), "/a/b");
    assert_eq!(display_path(HostPlatform::Windows, "\\\\?\\C:\\depos"), "C:/depos");
    assert_eq!(
        normalize_host_path(HostPlatform::Windows, "\\\\?\\C:\\depos"),
        "C:\\depos"
    );
    assert_eq!(normalize_host_path(HostPlatform::Linux, "\\\\?\\C:\\depos"), "\\\\?\\C:\\depos");
}

#[test]
fn confined_paths_stay_below_their_root() {
    assert!(ensure_relative_confined_path(HostPlatform::Linux, "include/a.h", "ARTIFACT").is_ok());
    let rendered = ensure_relative_confined_path(HostPlatform::Linux, "../a", "ARTIFACT")
        .expect_err("the path should be refused")
        .render();
    assert!(rendered.contains("must not contain '..'"), "{rendered}");
    let rendered = ensure_relative_confined_path(HostPlatform::Linux, "/a", "ARTIFACT")
        .expect_err("the path should be refused")
        .render();
    assert!(rendered.contains("must be relative"), "{rendered}");
    assert!(ensure_archive_member_path_safe(HostPlatform::Linux, "demo-1.0/src/a.c", "demo.tar").is_ok());
    assert!(ensure_archive_member_path_safe(HostPlatform::Linux, "/etc/passwd", "demo.tar").is_err());
    assert!(ensure_archive_member_path_safe(HostPlatform::Linux, "a/../../b", "demo.tar").is_err());
    for path in ["C:\\a", "C:a", "\\a", "/a", "a\\..\\b"] {
        assert!(ensure_relative_confined_path(HostPlatform::Windows, path, "ARTIFACT").is_err());
    }
    assert!(ensure_relative_confined_path(HostPlatform::Windows, "lib\\a.lib", "ARTIFACT").is_ok());
    assert!(ensure_relative_confined_path(HostPlatform::Linux, "a\\..\\b", "ARTIFACT").is_ok());
    assert!(is_absolute_on(HostPlatform::Windows, "C:\\a"));
    assert!(!is_absolute_on(HostPlatform::Windows, "/a"));
    assert!(is_absolute_on(HostPlatform::Windows, "\\\\host\\share"));
    assert!(is_absolute_on(HostPlatform::Windows, "//host/share/a"));
    for path in ["\\\\host", "//host/", "///share", "//host//share", "C:a"] {
        assert!(!is_absolute_on(HostPlatform::Windows, path), "{path}");
    }
    assert!(is_absolute_on(HostPlatform::Macos, "/a"));
}

#[test]
fn names_are_checked() {
    assert!(ensure_package_name("zlib_ng2").is_ok());
    assert!(ensure_package_name("").is_err());
    assert!(ensure_package_name("a/b").is_err());
    assert!(ensure_package_name("zlib-ng").is_err());
    assert!(ensure_namespace_name("dev-main").is_ok());
    assert!(ensure_namespace_name("dev main").is_err());
    assert!(ensure_alias_name("bitsery_dev").is_ok());
    assert!(ensure_alias_name("1x").is_err());
    assert!(ensure_alias_name("a b").is_err());
}

#[test]
fn comments_and_blank_lines_are_passed_over() {
    let directives = depofile_directives("main.DepoFile", "# comment\n\nNAME demo\n   \nLAZY\n")
        .expect("the directives should be read");
    assert_eq!(directives.len(), 2);
    assert_eq!(directives[0].line_number, 3);
    assert_eq!(directives[0].keyword, "NAME");
    assert_eq!(directives[0].remainder, "demo");
    assert_eq!(directives[1].line_number, 5);
    assert_eq!(directives[1].keyword, "LAZY");
}

#[test]
fn words_read_back() {
    for state in [
        PackageState::NeverRun,
        PackageState::Green,
        PackageState::Quarantined,
        PackageState::Failed,
    ] {
        assert_eq!(PackageState::parse(state.as_str()), Ok(state));
    }
    for value in [PackageSystemLibs::Inherit, PackageSystemLibs::Never, PackageSystemLibs::Allow] {
        assert_eq!(PackageSystemLibs::parse(value.as_str()), Ok(value));
    }
    for source in [RequestSource::Auto, RequestSource::Depo, RequestSource::System] {
        assert_eq!(RequestSource::parse(source.as_str()), Ok(source));
    }
    assert!(PackageState::parse("BLUE").is_err());
    assert!(PackageSystemLibs::parse("SOMETIMES").is_err());
    assert!(RequestSource::parse("ELSEWHERE").is_err());
    assert_eq!(TargetKind::Static.cmake_imported_type(), "STATIC");
}

#[test]
fn versions_are_ordered_by_numbers_and_words() {
    assert_eq!(
        version_tokens("1.10rc2"),
        vec![
            VersionToken::Number(1),
            VersionToken::Number(10),
            VersionToken::Text("rc".to_string()),
            VersionToken::Number(2),
        ]
    );
    assert_eq!(compare_versions("1.10.0", "1.9.9"), Order::Greater);
    assert_eq!(compare_versions("1.9.9", "1.10.0"), Order::Less);
    assert_eq!(compare_versions("1.2.3", "1.2.3"), Order::Equal);
    assert!(mode_accepts(&RequestMode::Latest, "anything"));
    assert!(mode_accepts(&RequestMode::Exact("1.0".to_string()), "1.0"));
    assert!(!mode_accepts(&RequestMode::Exact("1.0".to_string()), "1.0.0"));
    assert!(mode_accepts(&RequestMode::Minimum("1.2".to_string()), "1.10"));
    assert!(!mode_accepts(&RequestMode::Minimum("1.2".to_string()), "1.1"));
}

#[test]
fn architectures_have_one_name_each() {
    for (value, name) in [
        ("x86_64", "x86_64"),
        ("amd64", "x86_64"),
        ("aarch64", "aarch64"),
        ("arm64", "aarch64"),
        ("riscv64", "riscv64"),
    ] {
        assert_eq!(normalize_arch_name(value), Ok(name.to_string()));
        assert_eq!(normalize_arch_name(name), Ok(name.to_string()));
        assert_eq!(host_arch(value), name);
    }
    assert!(normalize_arch_name("sparc").is_err());
    assert_eq!(default_variant("x86_64"), "x86_64-x86_64_v1");
    assert_eq!(variant_for_target_arch("arm64"), Ok("aarch64-aarch64_v1".to_string()));
    assert!(variant_for_target_arch("sparc").is_err());
    assert_eq!(linux_gnu_target_triple("x86_64"), "x86_64-unknown-linux-gnu");
    assert_eq!(linux_gnu_toolchain_prefix("aarch64"), "aarch64-linux-gnu");
    assert_eq!(debian_crossbuild_package("aarch64"), "crossbuild-essential-arm64");
    assert_eq!(
        cargo_target_env_fragment("aarch64-unknown-linux-gnu"),
        "AARCH64_UNKNOWN_LINUX_GNU"
    );
}

#[test]
fn windows_paths_know_both_separators_and_volumes() {
    let windows = HostPlatform::Windows;
    assert_eq!(join_path(windows, "C:/depos", "store"), "C:/depos\\store");
    assert_eq!(join_path(windows, "cli", "src"), "cli\\src");
    assert_eq!(join_path(windows, "C:\\depos\\", "store"), "C:\\depos\\store");
    assert_eq!(join_path(windows, "C:", "store"), "C:store");
    assert_eq!(join_path(windows, "C:/depos", "D:\\other"), "D:\\other");
    assert_eq!(join_path(windows, "C:/depos", "D:other"), "D:other");
    assert_eq!(join_path(windows, "C:/depos", "\\other"), "C:\\other");
    assert_eq!(join_path(windows, "//host/share/a", "/other"), "//host/share/other");
    assert_eq!(join_path(windows, "C:/depos", "\\\\host"), "C:\\\\host");
    assert_eq!(join_path(windows, "C:/depos", "//host/share"), "//host/share");
    assert_eq!(join_path(windows, "\\\\host\\share\\a", "\\b"), "\\\\host\\share\\b");
    assert_eq!(join_path(HostPlatform::Linux, "/depos", "D:other"), "/depos/D:other");
    assert!(paths_equal(windows, "a\\b", "a/b"));
    assert!(paths_equal(windows, "c:\\b\\", "C:/b"));
    assert!(!paths_equal(windows, "C:b", "C:/b"));
    assert!(!paths_equal(windows, "//a/b", "/a/b"));
    assert!(!paths_equal(HostPlatform::Linux, "a\\b", "a/b"));
    assert!(path_starts_with(windows, "C:\\depos\\store", "C:/depos"));
    assert_eq!(
        dedup_paths(windows, &texts(&["lib\\a.lib", "lib/a.lib", "lib/b.lib"])),
        texts(&["lib\\a.lib", "lib/b.lib"])
    );
    assert_eq!(components(windows, "C:\\a\\.\\b"), texts(&["C:", "/", "a", "b"]));
    assert_eq!(parent_path(windows, "C:\\a\\b"), Some("C:\\a".to_string()));
    assert_eq!(parent_path(windows, "C:\\a"), Some("C:\\".to_string()));
    assert_eq!(parent_path(windows, "a\\\\b/"), Some("a".to_string()));
    assert_eq!(parent_path(windows, "C:\\"), None);
    assert_eq!(parent_path(windows, "//host/share/a"), Some("//host/share/".to_string()));
}

#[test]
fn quoted_arguments_read_back() {
    let arguments = texts(&["plain", "with space", "a\"b", "back\\slash", "\t"]);
    let quoted: Vec<String> = arguments
        .iter()
        .map(|argument| {
            format!("\"{}\"", argument.replace('\\', "\\\\").replace('"', "\\\""))
        })
        .collect();
    assert_eq!(
        tokenize_arguments(&quoted.join(" ")).expect("the quotes are closed"),
        arguments
    );
}

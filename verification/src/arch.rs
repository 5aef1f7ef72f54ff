//! Architecture names and what is derived from them.

use vstd::prelude::*;
use crate::failure::{failure, outcome, Failure, Messages};
use crate::model::Text;
use crate::text;
use crate::text::{cat2, cat4, chars_of, same};

verus! {

/// The canonical name of an architecture, or the message that refuses it.
pub open spec fn arch_named(value: Text) -> Result<Text, Messages> {
    if value == "x86_64"@ || value == "amd64"@ {
        Ok("x86_64"@)
    } else if value == "aarch64"@ || value == "arm64"@ {
        Ok("aarch64"@)
    } else if value == "riscv64"@ {
        Ok("riscv64"@)
    } else {
        Err(seq!["unsupported architecture "@ + value])
    }
}

/// A canonical architecture name.
pub open spec fn supported_arch(arch: Text) -> bool {
    arch == "x86_64"@ || arch == "aarch64"@ || arch == "riscv64"@
}

pub fn normalize_arch_name(value: &str) -> (result: Result<String, Failure>)
    ensures
        outcome(result) == arch_named(value@),
        result matches Ok(arch) ==> supported_arch(arch@),
{
    if same(value, "x86_64") || same(value, "amd64") {
        Ok("x86_64".to_owned())
    } else if same(value, "aarch64") || same(value, "arm64") {
        Ok("aarch64".to_owned())
    } else if same(value, "riscv64") {
        Ok("riscv64".to_owned())
    } else {
        Err(failure(cat2("unsupported architecture ", value)))
    }
}

/// A canonical name is its own canonical name.
pub proof fn lemma_normalizing_twice_changes_nothing(value: Text)
    ensures
        arch_named(value) matches Ok(arch) ==> arch_named(arch) == Ok::<Text, Messages>(arch),
{
    reveal_strlit("x86_64");
    reveal_strlit("aarch64");
    reveal_strlit("riscv64");
    reveal_strlit("amd64");
    reveal_strlit("arm64");
    assert("x86_64"@[0] == 'x' && "aarch64"@[0] == 'a' && "riscv64"@[0] == 'r');
    assert("amd64"@.len() == 5 && "arm64"@.len() == 5 && "aarch64"@.len() == 7);
    assert("amd64"@[0] == 'a' && "arm64"@[0] == 'a');
}

/// The architecture of the host, where `machine` is what the compiler calls it.
pub fn host_arch(machine: &str) -> (arch: String)
    requires
        arch_named(machine@) is Ok,
    ensures
        arch_named(machine@) == Ok::<Text, Messages>(arch@),
        supported_arch(arch@),
{
    match normalize_arch_name(machine) {
        Ok(arch) => arch,
        Err(_) => {
            assert(false);
            String::new()
        },
    }
}

/// The store variant for an architecture.
pub open spec fn arch_variant(arch: Text) -> Text {
    arch + "-"@ + arch + "_v1"@
}

pub fn variant_for_arch(arch: &str) -> (variant: String)
    ensures
        variant@ == arch_variant(arch@),
{
    cat4(arch, "-", arch, "_v1")
}

/// The store variant of the host, whose canonical architecture is `host`.
pub fn default_variant(host: &str) -> (variant: String)
    ensures
        variant@ == arch_variant(host@),
{
    variant_for_arch(host)
}

/// The store variant for a target architecture under any of its names.
pub open spec fn target_variant(target_arch: Text) -> Result<Text, Messages> {
    match arch_named(target_arch) {
        Ok(arch) => Ok(arch_variant(arch)),
        Err(messages) => Err(messages),
    }
}

pub fn variant_for_target_arch(target_arch: &str) -> (result: Result<String, Failure>)
    ensures
        outcome(result) == target_variant(target_arch@),
{
    let arch = normalize_arch_name(target_arch)?;
    Ok(variant_for_arch(&arch))
}

/// The Rust target triple for Linux on `arch`.
pub open spec fn gnu_triple(arch: Text) -> Text {
    if arch == "x86_64"@ {
        "x86_64-unknown-linux-gnu"@
    } else if arch == "aarch64"@ {
        "aarch64-unknown-linux-gnu"@
    } else {
        "riscv64gc-unknown-linux-gnu"@
    }
}

pub fn linux_gnu_target_triple(arch: &str) -> (triple: &'static str)
    requires
        supported_arch(arch@),
    ensures
        triple@ == gnu_triple(arch@),
{
    if same(arch, "x86_64") {
        "x86_64-unknown-linux-gnu"
    } else if same(arch, "aarch64") {
        "aarch64-unknown-linux-gnu"
    } else {
        "riscv64gc-unknown-linux-gnu"
    }
}

/// The prefix of the GNU cross tools for `arch`.
pub open spec fn gnu_prefix(arch: Text) -> Text {
    if arch == "x86_64"@ {
        "x86_64-linux-gnu"@
    } else if arch == "aarch64"@ {
        "aarch64-linux-gnu"@
    } else {
        "riscv64-linux-gnu"@
    }
}

pub fn linux_gnu_toolchain_prefix(arch: &str) -> (prefix: &'static str)
    requires
        supported_arch(arch@),
    ensures
        prefix@ == gnu_prefix(arch@),
{
    if same(arch, "x86_64") {
        "x86_64-linux-gnu"
    } else if same(arch, "aarch64") {
        "aarch64-linux-gnu"
    } else {
        "riscv64-linux-gnu"
    }
}

/// The Debian package with the cross build tools for `arch`.
pub open spec fn crossbuild_package(arch: Text) -> Text {
    if arch == "x86_64"@ {
        "crossbuild-essential-amd64"@
    } else if arch == "aarch64"@ {
        "crossbuild-essential-arm64"@
    } else {
        "crossbuild-essential-riscv64"@
    }
}

pub fn debian_crossbuild_package(arch: &str) -> (package: &'static str)
    requires
        supported_arch(arch@),
    ensures
        package@ == crossbuild_package(arch@),
{
    if same(arch, "x86_64") {
        "crossbuild-essential-amd64"
    } else if same(arch, "aarch64") {
        "crossbuild-essential-arm64"
    } else {
        "crossbuild-essential-riscv64"
    }
}

/// `c` with an ASCII small letter made a capital.
pub open spec fn upper(c: char) -> char {
    if 'a' <= c <= 'z' {
        (c as u32 - 32) as char
    } else {
        c
    }
}

/// Makes an ASCII small letter a capital.
pub fn ascii_upper(c: char) -> (result: char)
    ensures
        result == upper(c),
{
    if 'a' <= c && c <= 'z' {
        ((c as u8) - 32) as char
    } else {
        c
    }
}

/// `value` with its ASCII small letters made capitals.
pub open spec fn uppercase(value: Text) -> Text {
    value.map_values(|c: char| upper(c))
}

/// Makes the ASCII small letters of a text capitals.
pub fn ascii_uppercase(value: &str) -> (result: String)
    ensures
        result@ == uppercase(value@),
{
    let chars = chars_of(value);
    let mut result = String::new();
    let mut index: usize = 0;
    while index < chars.len()
        invariant
            index <= chars.len(),
            result@ == uppercase(chars@.take(index as int)),
        decreases chars.len() - index,
    {
        result.push(ascii_upper(chars[index]));
        index = index + 1;
        assert(result@ == uppercase(chars@.take(index as int)));
    }
    assert(chars@.take(index as int) == chars@);
    result
}

/// A target triple as it stands in the names of Cargo's environment variables.
pub open spec fn cargo_fragment(triple: Text) -> Text {
    uppercase(text::replaced(triple, '-', "_"@))
}

pub fn cargo_target_env_fragment(triple: &str) -> (fragment: String)
    ensures
        fragment@ == cargo_fragment(triple@),
{
    ascii_uppercase(&text::replace(triple, '-', "_"))
}

} // verus!

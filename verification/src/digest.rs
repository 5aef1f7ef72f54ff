//! SHA-256 digests and the keys that are derived from them.

use vstd::prelude::*;
use crate::model::Text;
use crate::records::{SourceProvenance, SourceProvenanceView};
use crate::text::{cat2, cat4, slice};

verus! {

/// The SHA-256 digest of `bytes`, as lower case hexadecimal digits.
pub uninterp spec fn sha256_hex(bytes: Seq<u8>) -> Seq<char>;

/// `sha2::Sha256::digest`, written in lower case hexadecimal: the digest is a function of the
/// bytes alone, and its 32 bytes take 64 digits.
#[verifier::external_body]
pub(crate) fn sha256_digest_hex(bytes: &[u8]) -> (digest: String)
    ensures
        digest@ == sha256_hex(bytes@),
        digest@.len() == 64,
{
    format!("{:x}", <sha2::Sha256 as sha2::Digest>::digest(bytes))
}

/// The digest of a file with the given contents.
pub fn hash_file_sha256(contents: &[u8]) -> (digest: String)
    ensures
        digest@ == sha256_hex(contents@),
        digest@.len() == 64,
{
    sha256_digest_hex(contents)
}

/// The name of the registry profile for a manifest with the given digest.
pub open spec fn profile_named(digest: Text) -> Text {
    "manifest-"@ + digest.subrange(0, 16)
}

pub fn profile_from_digest(digest: &str) -> (profile: String)
    requires
        digest@.len() >= 16,
    ensures
        profile@ == profile_named(digest@),
{
    cat2("manifest-", &slice(digest, 0, 16))
}

/// The registry profile for a manifest with the given contents.
pub fn manifest_profile(contents: &[u8]) -> (profile: String)
    ensures
        profile@ == profile_named(sha256_hex(contents@)),
{
    profile_from_digest(&sha256_digest_hex(contents))
}

/// The lines for the first `count` dependencies.
pub open spec fn dependency_lines(keys: Seq<(Text, Text)>, count: int) -> Text
    decreases count,
{
    if count <= 0 {
        Seq::empty()
    } else {
        dependency_lines(keys, count - 1) + "dependency="@ + keys[count - 1].0 + ":"@
            + keys[count - 1].1 + "\n"@
    }
}

/// The value, empty where there is none.
pub open spec fn or_empty(value: Option<Text>) -> Text {
    match value {
        Some(value) => value,
        None => ""@,
    }
}

/// Everything that the files of a package depend on: its DepoFile, its sources and the keys of
/// its dependencies.
pub open spec fn build_inputs(
    depofile_hash: Text,
    provenance: SourceProvenanceView,
    keys: Seq<(Text, Text)>,
) -> Text {
    "depofile="@ + depofile_hash + "\nsource_ref="@ + or_empty(provenance.source_ref)
        + "\nsource_commit="@ + or_empty(provenance.source_commit) + "\nsource_digest="@ + or_empty(
        provenance.source_digest,
    ) + "\n"@ + dependency_lines(keys, keys.len() as int)
}

fn value_or_empty(value: &Option<String>) -> (result: String)
    ensures
        result@ == or_empty(value.deep_view()),
{
    match value {
        Some(value) => value.clone(),
        None => "".to_owned(),
    }
}

pub fn render_build_inputs(
    depofile_hash: &str,
    provenance: &SourceProvenance,
    dependency_keys: &Vec<(String, String)>,
) -> (inputs: String)
    ensures
        inputs@ == build_inputs(
            depofile_hash@,
            provenance.deep_view(),
            dependency_keys.deep_view(),
        ),
{
    let mut inputs = cat4(
        "depofile=",
        depofile_hash,
        "\nsource_ref=",
        &value_or_empty(&provenance.source_ref),
    );
    inputs.append("\nsource_commit=");
    inputs.append(&value_or_empty(&provenance.source_commit));
    inputs.append("\nsource_digest=");
    inputs.append(&value_or_empty(&provenance.source_digest));
    inputs.append("\n");
    let mut list = String::new();
    let mut count: usize = 0;
    while count < dependency_keys.len()
        invariant
            count <= dependency_keys.len(),
            list@ == dependency_lines(dependency_keys.deep_view(), count as int),
        decreases dependency_keys.len() - count,
    {
        assert(dependency_keys.deep_view()[count as int]
            == dependency_keys[count as int].deep_view());
        list.append("dependency=");
        list.append(&dependency_keys[count].0);
        list.append(":");
        list.append(&dependency_keys[count].1);
        list.append("\n");
        count = count + 1;
    }
    inputs.append(&list);
    inputs
}

/// The key of a materialization: the digest of everything that it depends on.
pub fn materialization_build_key(
    depofile_hash: &str,
    provenance: &SourceProvenance,
    dependency_keys: &Vec<(String, String)>,
) -> (key: String)
    ensures
        key@ == sha256_hex(
            vstd::utf8::encode_utf8(
                build_inputs(
                    depofile_hash@,
                    provenance.deep_view(),
                    dependency_keys.deep_view(),
                ),
            ),
        ),
{
    let inputs = render_build_inputs(depofile_hash, provenance, dependency_keys);
    sha256_digest_hex(inputs.as_str().as_bytes())
}

} // verus!

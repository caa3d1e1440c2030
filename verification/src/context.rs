//! What is known of a file beside its text and tree.
use crate::common::{AliasTable, SecretScanThresholds};
use crate::cross_file::CrossFileSummaryMap;
use vstd::prelude::*;

verus! {

/// What a scan hands to the rules beside a file's text and tree.
#[derive(Debug)]
pub struct FileContext<'a> {
    /// The aliases of the file's Go imports, where they are known already.
    pub go_aliases: Option<&'a AliasTable>,
    /// What the functions of all files do, by path.
    pub cross_file_summaries: Option<&'a CrossFileSummaryMap>,
    /// The other files of the file's Go package.
    pub go_same_package_paths: Option<Vec<String>>,
    /// The other files of the file's Java package.
    pub java_same_package_paths: Option<Vec<String>>,
    /// What a string must have to be taken for a secret.
    pub secret_thresholds: SecretScanThresholds,
}

} // verus!

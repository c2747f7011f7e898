//! Drift auditing of the dotfiles repository and its symlink tree.
pub mod git_shell;
pub mod links;

use crate::drift::git_shell::{git_error_text, GitDriftError, GitStatusEntry};
use crate::drift::links::{probe_complete, records_of_links, verify_symlinks, LinkProbe, LinkRecord};
use crate::table::StrMap;
use vstd::prelude::*;

verus! {

/// Aggregate report of the dotfiles repository's state and of the mapped
/// symlinks.
#[derive(Debug)]
pub struct DriftAuditReport {
    pub link_records: Vec<LinkRecord>,
    pub git_entries: Result<Vec<GitStatusEntry>, String>,
}

/// Runs a complete audit: the records of the configured links (given what
/// was seen of each, in the order of the map's entries) and the repository's
/// status, an error being kept as its message.
pub fn audit_drift(
    dotfiles_dir: &str,
    home_dir: &str,
    links: &StrMap<String>,
    probes: &Vec<LinkProbe>,
    git_status: Result<Vec<GitStatusEntry>, GitDriftError>,
) -> (r: DriftAuditReport)
    requires
        probes@.len() == links.key_order().len(),
        forall|i: int| 0 <= i < probes@.len() ==> probe_complete(#[trigger] probes@[i]),
    ensures
        r.link_records@.len() == links.key_order().len(),
        records_of_links(r.link_records@, dotfiles_dir@, home_dir@, *links, probes@),
        match git_status {
            Ok(es) => r.git_entries == Ok::<Vec<GitStatusEntry>, String>(es),
            Err(e) => r.git_entries matches Err(m) && m@ == git_error_text(e),
        },
{
    let link_records = verify_symlinks(dotfiles_dir, home_dir, links, probes);
    let git_entries = match git_status {
        Ok(es) => Ok(es),
        Err(e) => Err(e.message()),
    };
    DriftAuditReport { link_records, git_entries }
}

} // verus!

//! Runtime approval-cache scope keys: session, TTL and allow-all memos are
//! scoped to `repo:{repo_id}` for a repository, or to an isolated
//! `unbound:{path}` scope outside one, and never to the global scope.
use vstd::prelude::*;

use crate::text::{chars_of, concat, concat3, seq_eq, trim, trim_vec};

verus! {

/// Fail-closed errors while resolving the runtime approval cache.
#[derive(Debug, Clone)]
pub enum ApprovalRuntimeCacheError {
    NotARepository(String),
    DamagedWorktree { path: String, detail: String },
    Database(String),
}

/// The text of an approval-cache error.
pub open spec fn cache_error_text(e: ApprovalRuntimeCacheError) -> Seq<char> {
    match e {
        ApprovalRuntimeCacheError::NotARepository(dir) => "working directory `"@ + dir@
            + "` is not a Libra repository; approval cache cannot use a global scope"@,
        ApprovalRuntimeCacheError::DamagedWorktree { path, detail } => "cannot resolve approval cache for `"@
            + path@ + "`: "@ + detail@,
        ApprovalRuntimeCacheError::Database(message) => message@,
    }
}

impl ApprovalRuntimeCacheError {
    /// The human-readable text of the error.
    pub fn message(&self) -> (r: String)
        ensures
            r@ == cache_error_text(*self),
    {
        match self {
            ApprovalRuntimeCacheError::NotARepository(dir) => concat3(
                "working directory `",
                dir.as_str(),
                "` is not a Libra repository; approval cache cannot use a global scope",
            ),
            ApprovalRuntimeCacheError::DamagedWorktree { path, detail } => {
                let head = concat3("cannot resolve approval cache for `", path.as_str(), "`: ");
                concat(head.as_str(), detail.as_str())
            },
            ApprovalRuntimeCacheError::Database(message) => message.clone(),
        }
    }
}

/// The refusal text for an empty or padded repository identity.
pub open spec fn unusable_identity_text() -> Seq<char> {
    "cannot key the approval cache: repository identity is empty or padded"@
}

/// Whether a repository identity can key the cache: non-empty and not padded.
pub open spec fn usable_repo_id(repo_id: Seq<char>) -> bool {
    repo_id.len() > 0 && repo_id == trim(repo_id)
}

/// The explicit ApprovalStore prefix for a canonical repository id; never
/// empty, since an empty prefix would be the global `interactive` scope.
pub fn approval_cache_scope_key(repo_id: &str) -> (r: Result<String, ApprovalRuntimeCacheError>)
    ensures
        r is Ok <==> usable_repo_id(repo_id@),
        r matches Ok(key) ==> key@ == "repo:"@ + repo_id@,
        r matches Err(e) ==> (e matches ApprovalRuntimeCacheError::Database(m)
            && m@ == unusable_identity_text()),
{
    let chars = chars_of(repo_id);
    let trimmed = trim_vec(&chars);
    if chars.len() == 0 || !seq_eq(&chars, &trimmed) {
        return Err(
            ApprovalRuntimeCacheError::Database(
                String::from_str(
                    "cannot key the approval cache: repository identity is empty or padded",
                ),
            ),
        );
    }
    Ok(concat("repo:", repo_id))
}

/// The isolated scope of a working directory outside any repository, given
/// its canonical display path.
pub fn unbound_approval_cache_scope(working_dir: &str) -> (r: String)
    ensures
        r@ == "unbound:"@ + working_dir@,
{
    concat("unbound:", working_dir)
}

/// Repository-keyed cache identity: the repository id and its store scope.
#[derive(Debug, Clone)]
pub struct ApprovalRuntimeCache {
    pub repo_id: String,
    pub scope_key: String,
}

impl ApprovalRuntimeCache {
    /// The cache identity of the repository whose Always approvals were
    /// loaded under `repo_id`; fails closed as `approval_cache_scope_key`.
    pub fn for_repository(repo_id: &str) -> (r: Result<Self, ApprovalRuntimeCacheError>)
        ensures
            r is Ok <==> usable_repo_id(repo_id@),
            r matches Ok(c) ==> c.repo_id@ == repo_id@ && c.scope_key@ == "repo:"@ + repo_id@,
            r matches Err(e) ==> (e matches ApprovalRuntimeCacheError::Database(m)
                && m@ == unusable_identity_text()),
    {
        let scope_key = match approval_cache_scope_key(repo_id) {
            Ok(k) => k,
            Err(e) => {
                return Err(e);
            },
        };
        Ok(ApprovalRuntimeCache { repo_id: String::from_str(repo_id), scope_key })
    }
}

} // verus!

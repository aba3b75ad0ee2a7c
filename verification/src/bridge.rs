//! Bridge mutations: which methods are mutations, how they are routed, the
//! digest of their parameters that makes an operation id idempotent, and
//! the refusal of a replay whose parameters drifted.
use vstd::prelude::*;

use crate::headless::string_arg;
use crate::object_summary::JsonDocument;
use crate::text::{concat, concat3, opt_view, push_char, str_eq, string_views};

verus! {

/// Whether `m` names a bridge mutation.
pub open spec fn mutation_method(m: Seq<char>) -> bool {
    m == "checkpoint.create"@ || m == "checkpoint.restore"@ || m == "commit.create"@
        || m == "review.run"@
}

/// Whether `method` is a mutation handled by the mutation dispatcher.
pub fn is_mutation(method: &str) -> (r: bool)
    ensures
        r == mutation_method(method@),
{
    str_eq(method, "checkpoint.create") || str_eq(method, "checkpoint.restore") || str_eq(
        method,
        "commit.create",
    ) || str_eq(method, "review.run")
}

/// Where an admitted mutation goes.
#[derive(Debug, Clone, PartialEq, Eq)]
pub enum MutationRoute {
    /// Not a mutation: other dispatchers may handle the method.
    NotMutation,
    /// Written to the durable checkpoint store.
    CheckpointCreate,
    /// A VCS side effect that is not wired to a service: the operation is
    /// quarantined and the call refused with `message`.
    NotWiredVcs { message: String },
}

/// The refusal of a VCS mutation that has no service behind it.
pub open spec fn not_wired_message(method: Seq<char>) -> Seq<char> {
    method + " passed admission/authorization but is not wired to the VCS service in this build"@
}

/// The route of `method`.
pub fn mutation_route(method: &str) -> (r: MutationRoute)
    ensures
        !mutation_method(method@) ==> r == MutationRoute::NotMutation,
        method@ == "checkpoint.create"@ ==> r == MutationRoute::CheckpointCreate,
        mutation_method(method@) && method@ != "checkpoint.create"@ ==> (r matches MutationRoute::NotWiredVcs {
            message,
        } && message@ == not_wired_message(method@)),
{
    if !is_mutation(method) {
        MutationRoute::NotMutation
    } else if str_eq(method, "checkpoint.create") {
        MutationRoute::CheckpointCreate
    } else {
        MutationRoute::NotWiredVcs {
            message: concat(
                method,
                " passed admission/authorization but is not wired to the VCS service in this build",
            ),
        }
    }
}

// ---------------------------------------------------------------------------
// Parameter digest
// ---------------------------------------------------------------------------

/// SHA-256 of `data`, as `sha2::Sha256` computes it.
pub uninterp spec fn sha256(data: Seq<u8>) -> Seq<u8>;

/// `Sha256::digest` (sha2): the 32-byte SHA-256 digest of `data`. The
/// contract names the digest and states its length; the hash itself is not
/// restated.
#[verifier::external_body]
fn sha256_digest(data: &[u8]) -> (r: Vec<u8>)
    ensures
        r@ == sha256(data@),
        r@.len() == 32,
{
    <sha2::Sha256 as sha2::Digest>::digest(data).to_vec()
}

/// The lowercase hexadecimal digit of `d` (below 16).
pub open spec fn hex_digit(d: u8) -> char {
    if d < 10 {
        ((d + 48) as u8) as char
    } else {
        ((d + 87) as u8) as char
    }
}

/// Bytes as lowercase hexadecimal, two digits per byte (`{:x}`).
pub open spec fn lower_hex(bytes: Seq<u8>) -> Seq<char>
    decreases bytes.len(),
{
    if bytes.len() == 0 {
        Seq::empty()
    } else {
        lower_hex(bytes.drop_last()) + seq![
            hex_digit(bytes.last() / 16),
            hex_digit(bytes.last() % 16),
        ]
    }
}

pub(crate) fn hex_char(d: u8) -> (c: char)
    requires
        d < 16,
    ensures
        c == hex_digit(d),
{
    if d < 10 {
        ((d + 48) as u8) as char
    } else {
        ((d + 87) as u8) as char
    }
}

/// Bytes as lowercase hexadecimal text, two digits per byte.
pub fn to_lower_hex(bytes: &Vec<u8>) -> (r: String)
    ensures
        r@ == lower_hex(bytes@),
{
    let mut out = String::new();
    let mut i: usize = 0;
    while i < bytes.len()
        invariant
            i <= bytes.len(),
            out@ == lower_hex(bytes@.subrange(0, i as int)),
        decreases bytes.len() - i,
    {
        let b = bytes[i];
        assert(bytes@.subrange(0, i + 1).drop_last() =~= bytes@.subrange(0, i as int));
        push_char(&mut out, hex_char(b / 16));
        push_char(&mut out, hex_char(b % 16));
        i += 1;
        assert(out@ =~= lower_hex(bytes@.subrange(0, i as int)));
    }
    assert(bytes@.subrange(0, bytes.len() as int) =~= bytes@);
    out
}

/// The parameter text that is digested: the parameters' JSON text, or `{}`
/// when there are none.
pub open spec fn digested_text(params_json: Option<Seq<char>>) -> Seq<char> {
    match params_json {
        Some(t) => t,
        None => "{}"@,
    }
}

/// The idempotency digest of a mutation's parameters, given their JSON text:
/// the lowercase hex SHA-256 of that text (or of `{}` without parameters).
pub fn params_digest(params_json: Option<&str>) -> (r: String)
    ensures
        r@ == lower_hex(sha256(vstd::utf8::encode_utf8(digested_text(
            match params_json {
                Some(t) => Some(t@),
                None => None,
            },
        )))),
        r@.len() == 64,
{
    let text: &str = match params_json {
        Some(t) => t,
        None => "{}",
    };
    let digest = sha256_digest(text.as_bytes());
    let r = to_lower_hex(&digest);
    proof {
        lemma_lower_hex_len(digest@);
    }
    r
}

proof fn lemma_lower_hex_len(bytes: Seq<u8>)
    ensures
        lower_hex(bytes).len() == 2 * bytes.len(),
    decreases bytes.len(),
{
    if bytes.len() > 0 {
        lemma_lower_hex_len(bytes.drop_last());
    }
}

/// The refusal of a replay whose parameters differ from the recorded ones.
pub open spec fn digest_conflict_message(operation_id: Seq<char>) -> Seq<char> {
    "operation '"@ + operation_id
        + "' was already recorded with a different payload digest; refusing replay with diverging params"@
}

/// Whether recording operation `operation_id` with `digest` is a drifted
/// replay: the operation was already recorded (`fresh` is false) with
/// another digest. The refusal text is returned.
pub fn replay_digest_conflict(
    operation_id: &str,
    fresh: bool,
    existing_digest: Option<&str>,
    digest: &str,
) -> (r: Option<String>)
    ensures
        r is Some <==> (!fresh && (existing_digest matches Some(e) && e@ != digest@)),
        r matches Some(m) ==> m@ == digest_conflict_message(operation_id@),
{
    if fresh {
        return None;
    }
    match existing_digest {
        Some(existing) => {
            if str_eq(existing, digest) {
                None
            } else {
                Some(
                    concat3(
                        "operation '",
                        operation_id,
                        "' was already recorded with a different payload digest; refusing replay with diverging params",
                    ),
                )
            }
        },
        None => None,
    }
}

/// The string parameter `key` of a request, if its parameters are an
/// object whose field `key` is a string.
pub open spec fn param_str(params: Option<JsonDocument>, key: Seq<char>) -> Option<Seq<char>> {
    match params {
        Some(d) => string_arg(d, key),
        None => None,
    }
}

/// The refusal of a mutation without string parameter `key`.
pub open spec fn missing_param_message(key: Seq<char>) -> Seq<char> {
    "mutation requires string param '"@ + key + "'"@
}

/// The string parameter `key` of a mutation, or the `invalid params`
/// refusal text when it is missing or not a string.
pub fn require_param_str(params: &Option<JsonDocument>, key: &str) -> (r: Result<String, String>)
    ensures
        match r {
            Ok(v) => param_str(*params, key@) == Some(v@),
            Err(m) => param_str(*params, key@) is None && m@ == missing_param_message(key@),
        },
{
    let found = match params {
        Some(d) => crate::headless::string_arg_exec(d, key),
        None => None,
    };
    match found {
        Some(v) => Ok(v),
        None => Err(concat3("mutation requires string param '", key, "'")),
    }
}

/// Why a mutation's session is outside the trusted scope.
pub open spec fn session_scope_message(session_id: Seq<char>, stored_repository: Option<Seq<char>>, repository: Seq<char>) -> Option<
    Seq<char>,
> {
    match stored_repository {
        None => Some(
            "bridge session '"@ + session_id + "' is not open in this repository; open it first"@,
        ),
        Some(r) => if r == repository {
            None
        } else {
            Some("bridge session '"@ + session_id + "' belongs to repository '"@ + r + "', not '"@ + repository + "'"@)
        },
    }
}

/// The `scope mismatch` refusal of a mutation whose bridge session is not
/// open (`stored_repository` is `None`) or belongs to another repository;
/// `None` when the session is in scope.
pub fn session_scope_refusal(session_id: &str, stored_repository: Option<&str>, repository: &str) -> (r: Option<
    String,
>)
    ensures
        match r {
            Some(m) => session_scope_message(
                session_id@,
                match stored_repository {
                    Some(s) => Some(s@),
                    None => None,
                },
                repository@,
            ) == Some(m@),
            None => session_scope_message(
                session_id@,
                match stored_repository {
                    Some(s) => Some(s@),
                    None => None,
                },
                repository@,
            ) is None,
        },
{
    match stored_repository {
        None => Some(concat3("bridge session '", session_id, "' is not open in this repository; open it first")),
        Some(stored) => {
            if str_eq(stored, repository) {
                None
            } else {
                let head = concat3("bridge session '", session_id, "' belongs to repository '");
                let mid = concat3(head.as_str(), stored, "', not '");
                Some(concat3(mid.as_str(), repository, "'"))
            }
        },
    }
}

/// The `digest conflict` refusal of a provenance link whose source is
/// already pinned to another target.
pub open spec fn link_conflict_message(source_type: Seq<char>, source_id: Seq<char>, stored: Seq<char>, target: Seq<char>) -> Seq<
    char,
> {
    "provenance association "@ + source_type + ":"@ + source_id + " already points at '"@ + stored + "', not '"@
        + target + "'; refusing"@
}

/// The refusal text of a provenance link conflict.
pub fn link_conflict_refusal(source_type: &str, source_id: &str, stored_target_id: &str, target_id: &str) -> (r: String)
    ensures
        r@ == link_conflict_message(source_type@, source_id@, stored_target_id@, target_id@),
{
    let a = concat3("provenance association ", source_type, ":");
    let b = concat3(a.as_str(), source_id, " already points at '");
    let c = concat3(b.as_str(), stored_target_id, "', not '");
    concat3(c.as_str(), target_id, "'; refusing")
}

// ---------------------------------------------------------------------------
// Provenance association
// ---------------------------------------------------------------------------

/// The provenance association of a bridge mutation: the session, its trusted
/// scope (repository and worktree), the workspace and parent session, the
/// actor, the provider and model when known, and the evidence ids. Nothing
/// of it is encoded into commit messages.
#[derive(Debug, Clone, PartialEq, Eq)]
pub struct ProvenanceRecord {
    pub operation_id: String,
    pub session_id: String,
    pub repository_id: String,
    pub worktree_id: String,
    pub workspace_id: Option<String>,
    pub parent_session_id: Option<String>,
    pub actor_kind: Option<String>,
    pub actor_id: Option<String>,
    pub provider_kind: Option<String>,
    pub provider_model: Option<String>,
    pub evidence_ids: Vec<String>,
}

fn copy_opt_str(o: Option<&str>) -> (r: Option<String>)
    ensures
        opt_view(r) == match o {
            Some(s) => Some(s@),
            None => None::<Seq<char>>,
        },
{
    match o {
        Some(s) => Some(String::from_str(s)),
        None => None,
    }
}

/// The provenance record of a mutation. The scope fields come from the
/// trusted bridge context (`repository_id`, `worktree_id`) and the session
/// row, never from the request body; each field is the argument it is named
/// after, the provider pair split into kind and model.
pub fn build_provenance(
    repository_id: &str,
    worktree_id: &str,
    session_id: &str,
    operation_id: &str,
    actor_kind: Option<&str>,
    actor_id: Option<&str>,
    parent_session_id: Option<&str>,
    workspace_id: Option<&str>,
    provider_model: Option<(&str, &str)>,
    evidence_ids: &Vec<String>,
) -> (r: ProvenanceRecord)
    ensures
        r.operation_id@ == operation_id@,
        r.session_id@ == session_id@,
        r.repository_id@ == repository_id@,
        r.worktree_id@ == worktree_id@,
        opt_view(r.workspace_id) == match workspace_id {
            Some(s) => Some(s@),
            None => None::<Seq<char>>,
        },
        opt_view(r.parent_session_id) == match parent_session_id {
            Some(s) => Some(s@),
            None => None::<Seq<char>>,
        },
        opt_view(r.actor_kind) == match actor_kind {
            Some(s) => Some(s@),
            None => None::<Seq<char>>,
        },
        opt_view(r.actor_id) == match actor_id {
            Some(s) => Some(s@),
            None => None::<Seq<char>>,
        },
        opt_view(r.provider_kind) == match provider_model {
            Some((p, _)) => Some(p@),
            None => None::<Seq<char>>,
        },
        opt_view(r.provider_model) == match provider_model {
            Some((_, m)) => Some(m@),
            None => None::<Seq<char>>,
        },
        string_views(r.evidence_ids@) == string_views(evidence_ids@),
{
    let (provider_kind, model) = match provider_model {
        Some((p, m)) => (Some(String::from_str(p)), Some(String::from_str(m))),
        None => (None, None),
    };
    let mut evidence: Vec<String> = Vec::new();
    let mut i: usize = 0;
    while i < evidence_ids.len()
        invariant
            i <= evidence_ids@.len(),
            evidence@.len() == i,
            forall|k: int| 0 <= k < i ==> (#[trigger] evidence@[k])@ == evidence_ids@[k]@,
        decreases evidence_ids.len() - i,
    {
        evidence.push(String::from_str(evidence_ids[i].as_str()));
        i += 1;
    }
    assert(string_views(evidence@) =~= string_views(evidence_ids@));
    ProvenanceRecord {
        operation_id: String::from_str(operation_id),
        session_id: String::from_str(session_id),
        repository_id: String::from_str(repository_id),
        worktree_id: String::from_str(worktree_id),
        workspace_id: copy_opt_str(workspace_id),
        parent_session_id: copy_opt_str(parent_session_id),
        actor_kind: copy_opt_str(actor_kind),
        actor_id: copy_opt_str(actor_id),
        provider_kind,
        provider_model: model,
        evidence_ids: evidence,
    }
}

} // verus!

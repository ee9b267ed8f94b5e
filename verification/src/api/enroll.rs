//! Enrollment: an agent trades its one-time bootstrap token for a runtime credential.
use crate::api::{self, ApiError, AuditMeta, AuditRecord};
use crate::api::nodes::{CredentialRow, NewCredential, NodeRow};
use crate::text::{self, str_eq, trim};
use vstd::prelude::*;

verus! {

/// A request to enroll.
#[derive(Debug)]
pub struct EnrollRequest {
    pub bootstrap_token: String,
    pub node_name: Option<String>,
    pub hostname: Option<String>,
    pub platform: Option<String>,
    pub architecture: Option<String>,
    pub agent_version: Option<String>,
}

/// The answer to an enrollment: the credential is shown this once.
#[derive(Debug)]
pub struct EnrollResponse {
    pub node_id: String,
    pub credential: String,
    pub config_version: i64,
}

/// What an agent reports of itself.
#[derive(Debug)]
pub struct AgentMeta {
    pub hostname: Option<String>,
    pub platform: Option<String>,
    pub architecture: Option<String>,
    pub agent_version: Option<String>,
}

/// An enrollment with a token. The bootstrap credential with the hash of the token has to be
/// looked up.
#[derive(Debug)]
pub struct Enrollment {
    token: String,
    body: EnrollRequest,
}

/// An enrollment with a bootstrap credential that was not used yet. Its node has to be looked
/// up.
#[derive(Debug)]
pub struct Claim {
    cred: CredentialRow,
    body: EnrollRequest,
}

/// A change that an enrollment makes.
#[derive(Debug)]
pub enum EnrollWrite {
    /// The credential of this id can no longer be used.
    Revoke(String),
    /// The node of this id gets what its agent reports.
    SetMeta(String, AgentMeta),
    /// A credential is stored.
    Create(NewCredential),
    /// A record goes to the audit log.
    Audit(AuditRecord),
}

/// An enrollment that is granted: its changes, in the order in which they are made, and the
/// answer once all of them are.
#[derive(Debug)]
pub struct EnrollPlan {
    pub writes: Vec<EnrollWrite>,
    pub response: EnrollResponse,
}

/// What an enrollment is refused with, where `cred` is the bootstrap credential with the hash of
/// its token.
pub open spec fn claim_fault(cred: Option<CredentialRow>) -> Option<api::ErrorView> {
    match cred {
        None => Some(api::unauthorized_spec("invalid bootstrap token"@)),
        Some(c) => if c.revoked_at is Some {
            Some(api::unauthorized_spec("bootstrap token already used or revoked"@))
        } else {
            None
        },
    }
}

impl Enrollment {
    /// The token without white space around it.
    pub closed spec fn token(self) -> Seq<char> {
        self.token@
    }

    /// The request.
    pub closed spec fn request(self) -> EnrollRequest {
        self.body
    }

    /// Starts an enrollment. One without a token is refused.
    pub fn begin(body: EnrollRequest) -> (r: Result<Enrollment, ApiError>)
        ensures
            if text::trimmed(body.bootstrap_token@).len() == 0 {
                r matches Err(e) && e@ == api::error(
                    422,
                    "INVALID_TOKEN"@,
                    "bootstrap_token must not be empty"@,
                )
            } else {
                r matches Ok(x) && x.token() == text::trimmed(body.bootstrap_token@)
                    && x.request() == body
            },
    {
        let token = trim(body.bootstrap_token.as_str());
        if token.as_str().is_empty() {
            return Err(
                ApiError::unprocessable("INVALID_TOKEN", "bootstrap_token must not be empty"),
            );
        }
        Ok(Enrollment { token, body })
    }

    /// The token whose hash has to be looked up among the bootstrap credentials.
    pub fn token_text(&self) -> (s: &str)
        ensures
            s@ == self.token(),
    {
        self.token.as_str()
    }

    /// Takes the bootstrap credential that was looked up. One that is unknown or was used is
    /// refused.
    pub fn credential_found(self, cred: Option<CredentialRow>) -> (r: Result<Claim, ApiError>)
        ensures
            match r {
                Ok(x) => claim_fault(cred) is None && Some(x.credential()) == cred && x.request()
                    == self.request(),
                Err(e) => claim_fault(cred) == Some(e@),
            },
    {
        match cred {
            None => Err(ApiError::unauthorized("invalid bootstrap token")),
            Some(cred) => {
                if cred.revoked_at.is_some() {
                    return Err(ApiError::unauthorized("bootstrap token already used or revoked"));
                }
                Ok(Claim { cred, body: self.body })
            },
        }
    }
}

/// The name that a request claims for its node, if it claims one.
pub open spec fn claimed_name(r: EnrollRequest) -> Option<Seq<char>> {
    match r.node_name {
        Some(n) => if text::trimmed(n@).len() > 0 {
            Some(text::trimmed(n@))
        } else {
            None
        },
        None => None,
    }
}

/// The changes of a granted enrollment: the bootstrap credential is used up, the node gets what
/// the agent reports, the runtime credential with the token `runtime` is stored, and both go on
/// record.
pub open spec fn enroll_writes(
    writes: Seq<EnrollWrite>,
    cred_id: String,
    node_id: String,
    meta: AgentMeta,
    runtime_id: String,
    runtime: String,
) -> bool {
    &&& writes.len() == 5
    &&& writes[0] == EnrollWrite::Revoke(cred_id)
    &&& writes[1] == EnrollWrite::SetMeta(node_id, meta)
    &&& writes[2] matches EnrollWrite::Create(c) && c.id == runtime_id && c.node_id == node_id
        && c.credential_type@ == "token"@ && c.expires_at is None && c.token == runtime
    &&& writes[3] matches EnrollWrite::Audit(a) && a.says(
        None,
        "credential.revoke"@,
        "credential"@,
        cred_id,
        AuditMeta::EnrollRevoke,
    )
    &&& writes[4] matches EnrollWrite::Audit(a) && a.says(
        None,
        "credential.create"@,
        "credential"@,
        runtime_id,
        AuditMeta::EnrollCreate,
    )
}

impl Claim {
    /// The bootstrap credential.
    pub closed spec fn credential(self) -> CredentialRow {
        self.cred
    }

    /// The request.
    pub closed spec fn request(self) -> EnrollRequest {
        self.body
    }

    /// The id of the node that the credential belongs to.
    pub fn node_id(&self) -> (s: &str)
        ensures
            s@ == self.credential().node_id@,
    {
        self.cred.node_id.as_str()
    }

    /// Takes the node that was looked up, and grants the enrollment with the runtime credential
    /// `runtime_id` and its random token `runtime`. A request that claims another name for the
    /// node is refused.
    pub fn node_found(self, node: Option<NodeRow>, runtime_id: String, runtime: String) -> (r:
        Result<EnrollPlan, ApiError>)
        ensures
            match node {
                None => r matches Err(e) && e@ == api::internal_spec(
                    "bootstrap token references a missing node"@,
                ),
                Some(n) => if claimed_name(self.request()) is Some && claimed_name(
                    self.request(),
                )->0 != n.name@ {
                    r matches Err(e) && e@ == api::error(
                        422,
                        "NODE_NAME_MISMATCH"@,
                        "node_name does not match bootstrap token"@,
                    )
                } else {
                    &&& r matches Ok(p)
                    &&& p.response == (EnrollResponse {
                        node_id: n.id,
                        credential: runtime,
                        config_version: n.config_version,
                    })
                    &&& enroll_writes(
                        p.writes@,
                        self.credential().id,
                        n.id,
                        AgentMeta {
                            hostname: self.request().hostname,
                            platform: self.request().platform,
                            architecture: self.request().architecture,
                            agent_version: self.request().agent_version,
                        },
                        runtime_id,
                        runtime,
                    )
                    &&& p.writes@.len() == 5
                    &&& p.writes@[2] matches EnrollWrite::Create(c) && c.node_id
                        == p.response.node_id && c.token == p.response.credential
                },
            },
    {
        let node = match node {
            Some(n) => n,
            None => {
                return Err(ApiError::internal("bootstrap token references a missing node"));
            },
        };
        if let Some(claimed) = &self.body.node_name {
            let claimed = trim(claimed.as_str());
            if !claimed.as_str().is_empty() && !str_eq(claimed.as_str(), node.name.as_str()) {
                return Err(
                    ApiError::unprocessable(
                        "NODE_NAME_MISMATCH",
                        "node_name does not match bootstrap token",
                    ),
                );
            }
        }
        let mut writes: Vec<EnrollWrite> = Vec::new();
        writes.push(EnrollWrite::Revoke(self.cred.id.clone()));
        writes.push(
            EnrollWrite::SetMeta(
                node.id.clone(),
                AgentMeta {
                    hostname: self.body.hostname,
                    platform: self.body.platform,
                    architecture: self.body.architecture,
                    agent_version: self.body.agent_version,
                },
            ),
        );
        writes.push(
            EnrollWrite::Create(
                NewCredential {
                    id: runtime_id.clone(),
                    node_id: node.id.clone(),
                    credential_type: "token".to_owned(),
                    expires_at: None,
                    token: runtime.clone(),
                },
            ),
        );
        writes.push(
            EnrollWrite::Audit(
                AuditRecord {
                    user_id: None,
                    action: "credential.revoke",
                    resource_type: "credential",
                    resource_id: self.cred.id,
                    metadata: AuditMeta::EnrollRevoke,
                },
            ),
        );
        writes.push(
            EnrollWrite::Audit(
                AuditRecord {
                    user_id: None,
                    action: "credential.create",
                    resource_type: "credential",
                    resource_id: runtime_id,
                    metadata: AuditMeta::EnrollCreate,
                },
            ),
        );
        Ok(
            EnrollPlan {
                writes,
                response: EnrollResponse {
                    node_id: node.id,
                    credential: runtime,
                    config_version: node.config_version,
                },
            },
        )
    }
}

/// In a granted enrollment the bootstrap credential is used up before anything else changes, and
/// exactly one credential is stored: the one with the runtime token.
pub proof fn bootstrap_is_used_up_first(
    writes: Seq<EnrollWrite>,
    cred_id: String,
    node_id: String,
    meta: AgentMeta,
    runtime_id: String,
    runtime: String,
)
    requires
        enroll_writes(writes, cred_id, node_id, meta, runtime_id, runtime),
    ensures
        writes[0] == EnrollWrite::Revoke(cred_id),
        forall|i: int| 0 <= i < writes.len() && i != 2 ==> !(#[trigger] writes[i] is Create),
        writes[2] matches EnrollWrite::Create(c) && c.token == runtime,
{
}

/// A stored credential after the changes of an enrollment, made at the moment `at`.
pub open spec fn after_writes(
    c: CredentialRow,
    writes: Seq<EnrollWrite>,
    at: String,
) -> CredentialRow {
    if writes.contains(EnrollWrite::Revoke(c.id)) {
        CredentialRow { revoked_at: Some(at), ..c }
    } else {
        c
    }
}

/// A bootstrap token works once: after an enrollment that it granted, the next one with it is
/// refused.
pub proof fn bootstrap_works_once(
    c: CredentialRow,
    writes: Seq<EnrollWrite>,
    node_id: String,
    meta: AgentMeta,
    runtime_id: String,
    runtime: String,
    at: String,
)
    requires
        claim_fault(Some(c)) is None,
        enroll_writes(writes, c.id, node_id, meta, runtime_id, runtime),
    ensures
        claim_fault(Some(after_writes(c, writes, at))) == Some(
            api::unauthorized_spec("bootstrap token already used or revoked"@),
        ),
{
    assert(writes.contains(writes[0]));
}

/// In a granted enrollment the one credential that is stored belongs to the node that the agent is
/// told it is, has the token that the agent is told, and is one with which the node can come
/// online: a runtime token that does not expire.
pub proof fn runtime_credential_belongs_to_the_node(
    plan: EnrollPlan,
    cred_id: String,
    node: NodeRow,
    meta: AgentMeta,
    runtime_id: String,
    runtime: String,
)
    requires
        enroll_writes(plan.writes@, cred_id, node.id, meta, runtime_id, runtime),
        plan.response.node_id == node.id,
        plan.response.credential == runtime,
    ensures
        forall|i: int|
            0 <= i < plan.writes@.len() ==> (#[trigger] plan.writes@[i] matches EnrollWrite::Create(
                c,
            ) ==> {
                &&& c.node_id == plan.response.node_id
                &&& c.node_id == node.id
                &&& c.token == plan.response.credential
                &&& c.id == runtime_id
                &&& c.credential_type@ == "token"@
                &&& c.expires_at is None
            }),
        exists|i: int| 0 <= i < plan.writes@.len() && #[trigger] plan.writes@[i] is Create,
{
    assert(plan.writes@[2] is Create);
}

/// A granted enrollment uses up the bootstrap credential and no other, notes what the agent
/// reports for its node and no other, and records both changes: the credential that went, and the
/// one that came, each as a change that no user made.
pub proof fn enrollment_touches_its_own(
    writes: Seq<EnrollWrite>,
    cred_id: String,
    node_id: String,
    meta: AgentMeta,
    runtime_id: String,
    runtime: String,
    i: int,
)
    requires
        enroll_writes(writes, cred_id, node_id, meta, runtime_id, runtime),
        0 <= i < writes.len(),
    ensures
        writes[i] matches EnrollWrite::Revoke(id) ==> id == cred_id,
        writes[i] matches EnrollWrite::SetMeta(id, m) ==> id == node_id && m == meta,
        writes[i] matches EnrollWrite::Audit(a) ==> {
            &&& a.user_id is None
            &&& a.resource_type@ == "credential"@
            &&& (a.action@ == "credential.revoke"@ && a.resource_id == cred_id) || (a.action@
                == "credential.create"@ && a.resource_id == runtime_id)
        },
        writes[0] is Revoke && writes[1] is SetMeta && writes[2] is Create && writes[3] is Audit
            && writes[4] is Audit,
        writes[3]->Audit_0.action@ == "credential.revoke"@,
        writes[4]->Audit_0.action@ == "credential.create"@,
{
}

/// A bootstrap credential that is unknown, or that was used, is refused with 401; every other one
/// is taken.
pub proof fn which_bootstrap_credentials_are_taken(cred: Option<CredentialRow>)
    ensures
        claim_fault(cred) is None <==> cred is Some && cred->0.revoked_at is None,
        claim_fault(cred) matches Some(e) ==> e.status == 401,
{
}

/// A request claims the name that it gives, without white space around it; one that is empty
/// otherwise claims none.
pub proof fn what_name_a_request_claims(r: EnrollRequest)
    ensures
        r.node_name is None ==> claimed_name(r) is None,
        r.node_name matches Some(n) ==> (claimed_name(r) is None <==> text::trimmed(n@).len() == 0),
        r.node_name is Some && claimed_name(r) is Some ==> claimed_name(r)->0 == text::trimmed(
            r.node_name->0@,
        ),
{
}

} // verus!

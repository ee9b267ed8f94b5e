//! Backups and imports of the stored configuration.
use crate::api::{self, ApiError, AuditMeta, AuditRecord};
use crate::api::rbac::{self, Permission, require_permission};
use crate::session::User;
use crate::text::text_of;
use vstd::prelude::*;
use vstd::utf8::{decode_utf8, valid_utf8};

verus! {

/// How large the body of a restore or an import may be.
pub const SNAPSHOT_BODY_LIMIT: usize = 10485760;

/// How a snapshot is downloaded.
#[derive(Clone, Copy, PartialEq, Eq, Structural, Debug, Hash)]
pub enum Download {
    /// Everything, credentials and certificates too.
    Backup,
    /// The configuration alone.
    Export,
}

/// How a snapshot is taken in.
#[derive(Clone, Copy, PartialEq, Eq, Structural, Debug, Hash)]
pub enum Upload {
    Restore,
    Import,
}

/// Whether a user may download a snapshot: whether it holds the secrets, and the name of the
/// file.
pub fn download(user: &User, kind: Download) -> (r: Result<(bool, &'static str), ApiError>)
    ensures
        if !rbac::grants(user.role@, Permission::SettingsWrite) {
            r matches Err(e) && e@ == rbac::lacking(Permission::SettingsWrite)
        } else {
            r matches Ok(d) && match kind {
                Download::Backup => d.0 && d.1@ == "tunnel-backup.yaml"@,
                Download::Export => !d.0 && d.1@ == "tunnel-config.yaml"@,
            }
        },
{
    if let Err(e) = require_permission(user, Permission::SettingsWrite) {
        return Err(e);
    }
    match kind {
        Download::Backup => Ok((true, "tunnel-backup.yaml")),
        Download::Export => Ok((false, "tunnel-config.yaml")),
    }
}

/// The name of an upload in the audit log.
pub open spec fn upload_name(kind: Upload) -> Seq<char> {
    match kind {
        Upload::Restore => "restore"@,
        Upload::Import => "import"@,
    }
}

/// Whether a snapshot with the given numbers of credentials and certificates may be taken in. An
/// import takes none of either. Only one that is applied, not just tried, goes on record.
pub fn upload(
    user: &User,
    kind: Upload,
    credentials: usize,
    certificates: usize,
    apply: bool,
) -> (r: Result<Option<AuditRecord>, ApiError>)
    ensures
        if !rbac::grants(user.role@, Permission::SettingsWrite) {
            r matches Err(e) && e@ == rbac::lacking(Permission::SettingsWrite)
        } else if kind == Upload::Import && (credentials > 0 || certificates > 0) {
            r matches Err(e) && e@ == api::error(
                422,
                "CONTAINS_SECRETS"@,
                "import rejects snapshots with credentials/certificates; use restore"@,
            )
        } else {
            &&& r matches Ok(a)
            &&& a is Some == apply
            &&& a matches Some(a) ==> a.user_id == Some(user.id) && a.action@ == upload_name(kind)
                && a.resource_type@ == "snapshot"@ && a.resource_id@ == upload_name(kind)
                && a.metadata == AuditMeta::Nothing
        },
{
    if let Err(e) = require_permission(user, Permission::SettingsWrite) {
        return Err(e);
    }
    if kind == Upload::Import && (credentials > 0 || certificates > 0) {
        return Err(
            ApiError::unprocessable(
                "CONTAINS_SECRETS",
                "import rejects snapshots with credentials/certificates; use restore",
            ),
        );
    }
    if !apply {
        return Ok(None);
    }
    let name: &'static str = match kind {
        Upload::Restore => "restore",
        Upload::Import => "import",
    };
    Ok(
        Some(
            AuditRecord {
                user_id: Some(user.id.clone()),
                action: name,
                resource_type: "snapshot",
                resource_id: name.to_owned(),
                metadata: AuditMeta::Nothing,
            },
        ),
    )
}

/// The body of an upload as text. It has to be UTF-8.
pub fn snapshot_text(body: &[u8]) -> (r: Result<String, ApiError>)
    ensures
        match r {
            Ok(t) => valid_utf8(body@) && t@ == decode_utf8(body@),
            Err(e) => !valid_utf8(body@) && e@ == api::error(
                422,
                "INVALID_BODY"@,
                "request body must be UTF-8 YAML"@,
            ),
        },
{
    match text_of(body) {
        Some(t) => Ok(t),
        None => Err(ApiError::unprocessable("INVALID_BODY", "request body must be UTF-8 YAML")),
    }
}

/// The error for text that is no snapshot, for the reason `reason`.
pub fn invalid_snapshot(reason: &str) -> (e: ApiError)
    ensures
        e@ == api::error(422, "INVALID_SNAPSHOT"@, reason@),
{
    ApiError::unprocessable("INVALID_SNAPSHOT", reason)
}

/// A restore and an import go on record under their own names. The body of either may have 10 MiB.
pub proof fn uploads_have_names_of_their_own(kind: Upload)
    ensures
        upload_name(Upload::Restore) == "restore"@,
        upload_name(Upload::Import) == "import"@,
        SNAPSHOT_BODY_LIMIT == 10 * 1024 * 1024,
{
}

} // verus!

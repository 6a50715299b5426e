//! The entitlements property list and the signing layer built on it.

use vstd::prelude::*;
use crate::identity::{dotted_id, SignitifyIdentityA2};

verus! {

/// The entitlements plist up to the application identifier.
pub const ENT_HEAD: &'static str = "\n<?xml version=\"1.0\" encoding=\"UTF-8\"?>\n<plist version=\"1.0\">\n<dict>\n    <key>application-identifier</key>\n    <string>";

/// Between the application identifier and the keychain access group.
pub const ENT_GROUPS: &'static str = "</string>\n\n    <key>get-task-allow</key>\n    <true/>\n\n    <key>keychain-access-groups</key>\n    <array>\n        <string>";

/// Between the keychain access group and the team identifier.
pub const ENT_TEAM: &'static str = "</string>\n    </array>\n\n    <key>com.apple.developer.team-identifier</key>\n    <string>";

/// After the team identifier.
pub const ENT_TAIL: &'static str = "</string>\n</dict>\n</plist>\n";

/// The entitlements plist for a team and bundle: the application identifier,
/// `get-task-allow`, the keychain access group `team.bundle` and the team.
pub open spec fn entitlements_plist(team: Seq<char>, bundle: Seq<char>) -> Seq<char> {
    ENT_HEAD@ + dotted_id(team, bundle) + ENT_GROUPS@ + dotted_id(team, bundle) + ENT_TEAM@ + team
        + ENT_TAIL@
}

/// Entitlements generation.
pub struct EntitlementsA2;

impl EntitlementsA2 {
    /// The entitlements plist text for `team_id` and `bundle_id` (the caller
    /// stores it where it wants).
    pub fn generate(team_id: &str, bundle_id: &str) -> (out: String)
        ensures
            out@ == entitlements_plist(team_id@, bundle_id@),
    {
        let mut out = String::from_str(ENT_HEAD);
        out.append(team_id);
        out.append(".");
        out.append(bundle_id);
        out.append(ENT_GROUPS);
        out.append(team_id);
        out.append(".");
        out.append(bundle_id);
        out.append(ENT_TEAM);
        out.append(team_id);
        out.append(ENT_TAIL);
        out
    }
}

/// The signing layer: a header, the identity and the entitlements.
pub open spec fn signature_layer(team: Seq<char>, bundle: Seq<char>) -> Seq<char> {
    "SIGNITIFY SIGN LAYER A2\nIDENTITY="@ + dotted_id(team, bundle) + "\nENTITLEMENTS_READY\n"@
        + entitlements_plist(team, bundle)
}

/// The second signing core.
pub struct SigningCoreA2;

impl SigningCoreA2 {
    pub fn prepare_signature_layer(team: &str, bundle: &str) -> (out: String)
        ensures
            out@ == signature_layer(team@, bundle@),
    {
        let identity = SignitifyIdentityA2::new(team, bundle);
        let ent = EntitlementsA2::generate(team, bundle);
        let mut out = String::from_str("SIGNITIFY SIGN LAYER A2\nIDENTITY=");
        let id = identity.apple_style_app_id();
        out.append(id.as_str());
        out.append("\nENTITLEMENTS_READY\n");
        out.append(ent.as_str());
        out
    }
}

} // verus!

//! Presence stanzas: what an incoming presence tells about a contact.

use vstd::prelude::*;

verus! {

/// The `type` of a presence stanza (RFC 6121); `Available` stands for an
/// absent `type` attribute.
#[derive(Debug, Clone, Copy, PartialEq, Eq, Structural)]
pub enum PresenceType {
    Available,
    Error,
    Probe,
    Subscribe,
    Subscribed,
    Unavailable,
    Unsubscribe,
    Unsubscribed,
}

/// A change of a contact's availability, to be reported to the UI.
#[derive(Debug, Clone)]
pub struct PresenceUpdate {
    pub jid: String,
    pub available: bool,
}

/// A presence of this type leaves its sender available.
pub open spec fn is_available(t: PresenceType) -> bool {
    !(t == PresenceType::Unavailable || t == PresenceType::Error)
}

/// The update a presence from `from` of type `presence_type` gives: none
/// without a sender; otherwise the sender is available unless the presence
/// is `unavailable` or `error`.
pub fn presence_update(from: Option<String>, presence_type: PresenceType) -> (r: Option<PresenceUpdate>)
    ensures
        from is None ==> r is None,
        from matches Some(j) ==> r matches Some(u) && u.jid == j && u.available == is_available(
            presence_type,
        ),
{
    let jid = match from {
        Some(f) => f,
        None => return None,
    };
    let available = match presence_type {
        PresenceType::Unavailable | PresenceType::Error => false,
        _ => true,
    };
    Some(PresenceUpdate { jid, available })
}

} // verus!

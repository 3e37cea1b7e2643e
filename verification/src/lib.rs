//! Verified core of an XMPP desktop messenger: account and JID rules, link
//! previews, OMEMO device trust (BTBV), SRV endpoint selection, bookmarks
//! and the state machines behind the ad-hoc command and vCard panels.

pub mod text;
pub mod link_preview;
pub mod account;
pub mod omemo;
pub mod dns;
pub mod presence;
pub mod toast;
pub mod vcard_editor;
pub mod bookmarks;
pub mod field_values;
pub mod adhoc;

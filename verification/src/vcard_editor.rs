//! vCard editor panel (XEP-0054 / XEP-0292): editing the logged-in user's own
//! vCard fields: nickname, full name, organisation, email, phone.
//!
//! Flow:
//!   1. Open panel → the application requests the own vCard
//!   2. The vCard arrives → `VCardLoaded` populates the form
//!   3. User edits and clicks Save → the application sends the fields
//!   4. The server confirms → `VCardSaved` shows a success message

use vstd::prelude::*;

use crate::text::{chars_of, string_from_chars};

verus! {

/// The editable fields of the own vCard.
#[derive(Debug, Clone, PartialEq, Default)]
pub struct VCardFields {
    pub nickname: String,
    pub full_name: String,
    pub organisation: String,
    pub email: String,
    pub phone: String,
}

/// State of the vCard editor panel.
#[derive(Debug, Clone)]
pub struct VCardEditorScreen {
    /// Whether we are currently waiting for a get result from the server.
    pub loading: bool,
    /// Whether a save is in progress.
    pub saving: bool,
    /// Current form field values.
    pub fields: VCardFields,
    /// Feedback message shown after save (success / error).
    pub status_msg: Option<String>,
}

/// Events of the vCard editor panel.
#[derive(Debug, Clone)]
pub enum Message {
    /// User clicked "Fetch" or the panel opened — request own vCard.
    FetchRequested,
    /// Engine returned the current vCard.
    VCardLoaded(VCardFields),
    /// Engine confirmed the vCard was saved.
    VCardSaved,
    /// Individual field edits.
    NicknameChanged(String),
    FullNameChanged(String),
    OrgChanged(String),
    EmailChanged(String),
    PhoneChanged(String),
    /// User clicked "Save".
    SaveRequested,
    /// User clicked "Close" / "Back".
    Close,
}

/// The status message shown after a save.
pub open spec fn saved_message() -> Seq<char> {
    "Saved successfully."@
}

/// `s` is the panel state after `msg` arrived in state `old`.
pub open spec fn vcard_update_post(old: VCardEditorScreen, msg: Message, s: VCardEditorScreen) -> bool {
    match msg {
        Message::FetchRequested => s == VCardEditorScreen { loading: true, status_msg: None, ..old },
        Message::VCardLoaded(f) => s == VCardEditorScreen { loading: false, fields: f, ..old },
        Message::VCardSaved => {
            &&& s.loading == old.loading
            &&& !s.saving
            &&& s.fields == old.fields
            &&& s.status_msg matches Some(m) && m@ == saved_message()
        },
        Message::NicknameChanged(v) => s == VCardEditorScreen {
            fields: VCardFields { nickname: v, ..old.fields },
            ..old
        },
        Message::FullNameChanged(v) => s == VCardEditorScreen {
            fields: VCardFields { full_name: v, ..old.fields },
            ..old
        },
        Message::OrgChanged(v) => s == VCardEditorScreen {
            fields: VCardFields { organisation: v, ..old.fields },
            ..old
        },
        Message::EmailChanged(v) => s == VCardEditorScreen {
            fields: VCardFields { email: v, ..old.fields },
            ..old
        },
        Message::PhoneChanged(v) => s == VCardEditorScreen {
            fields: VCardFields { phone: v, ..old.fields },
            ..old
        },
        Message::SaveRequested => s == VCardEditorScreen { saving: true, status_msg: None, ..old },
        Message::Close => s == old,
    }
}

impl VCardEditorScreen {
    /// An idle panel with empty fields.
    pub fn new() -> (r: Self)
        ensures
            !r.loading,
            !r.saving,
            r.fields.nickname@.len() == 0,
            r.fields.full_name@.len() == 0,
            r.fields.organisation@.len() == 0,
            r.fields.email@.len() == 0,
            r.fields.phone@.len() == 0,
            r.status_msg is None,
    {
        VCardEditorScreen {
            loading: false,
            saving: false,
            fields: VCardFields {
                nickname: String::new(),
                full_name: String::new(),
                organisation: String::new(),
                email: String::new(),
                phone: String::new(),
            },
            status_msg: None,
        }
    }

    /// Return the current field snapshot (used by the caller to build the
    /// request that sets the own vCard).
    pub fn current_fields(&self) -> (r: VCardFields)
        ensures
            r == self.fields,
    {
        VCardFields {
            nickname: self.fields.nickname.clone(),
            full_name: self.fields.full_name.clone(),
            organisation: self.fields.organisation.clone(),
            email: self.fields.email.clone(),
            phone: self.fields.phone.clone(),
        }
    }

    /// Apply an event to the panel state. The caller intercepts
    /// `SaveRequested` to send the fields and `Close` to navigate.
    pub fn update(&mut self, msg: Message)
        ensures
            vcard_update_post(*old(self), msg, *final(self)),
    {
        match msg {
            Message::FetchRequested => {
                self.loading = true;
                self.status_msg = None;
            },
            Message::VCardLoaded(fields) => {
                self.loading = false;
                self.fields = fields;
            },
            Message::VCardSaved => {
                self.saving = false;
                self.status_msg = Some(string_from_chars(&chars_of("Saved successfully.")));
            },
            Message::NicknameChanged(v) => self.fields.nickname = v,
            Message::FullNameChanged(v) => self.fields.full_name = v,
            Message::OrgChanged(v) => self.fields.organisation = v,
            Message::EmailChanged(v) => self.fields.email = v,
            Message::PhoneChanged(v) => self.fields.phone = v,
            Message::SaveRequested => {
                self.saving = true;
                self.status_msg = None;
            },
            Message::Close => {},
        }
    }
}

} // verus!

use xmpp_start::adhoc::{
    Action, AdhocScreen, AdhocStep, CommandResponse, CommandStatus, DataField, FieldType, Message,
};
use xmpp_start::vcard_editor::{Message as VMessage, VCardEditorScreen, VCardFields};

fn field(var: &str, ty: &str, value: Option<&str>) -> DataField {
    DataField {
        var: var.to_string(),
        label: None,
        field_type: ty.to_string(),
        value: value.map(|v| v.to_string()),
        options: Vec::new(),
    }
}

fn response(status: CommandStatus, fields: Vec<DataField>, notes: Vec<&str>) -> CommandResponse {
    CommandResponse {
        node: "config".to_string(),
        session_id: "s1".to_string(),
        status,
        fields,
        notes: notes.into_iter().map(|n| n.to_string()).collect(),
    }
}

#[test]
fn adhoc_discover_execute_submit_flow() {
    let mut s = AdhocScreen::new();
    assert!(matches!(s.update(Message::TargetJidChanged("admin@example.com".into())), Action::Nothing));
    match s.update(Message::DiscoverRequested) {
        Action::Discover { target_jid } => assert_eq!(target_jid, "admin@example.com"),
        _ => panic!("expected Discover"),
    }
    assert_eq!(s.step, AdhocStep::Discovering);
    s.update(Message::CommandsDiscovered {
        _from_jid: "admin@example.com".into(),
        commands: vec![("config".into(), "Configure".into())],
    });
    assert_eq!(s.step, AdhocStep::CommandList);
    match s.update(Message::CommandSelected("config".into())) {
        Action::Execute { target_jid, node } => {
            assert_eq!(target_jid, "admin@example.com");
            assert_eq!(node, "config");
        }
        _ => panic!("expected Execute"),
    }
    let resp = response(
        CommandStatus::Executing,
        vec![field("name", "text-single", Some("old")), field("level", "list-single", None)],
        vec![],
    );
    s.update(Message::CommandResponseReceived(resp));
    assert_eq!(s.active_node(), Some("config"));
    assert_eq!(s.active_session_id(), Some("s1"));
    s.update(Message::FieldChanged("level".into(), "high".into()));
    match s.update(Message::SubmitForm) {
        Action::Submit { target_jid, node, session_id, fields } => {
            assert_eq!(target_jid, "admin@example.com");
            assert_eq!(node, "config");
            assert_eq!(session_id, "s1");
            assert_eq!(fields[0].value.as_deref(), Some("old"));
            assert_eq!(fields[1].value.as_deref(), Some("high"));
        }
        _ => panic!("expected Submit"),
    }
    match s.update(Message::CancelCommand) {
        Action::Cancel { node, session_id, .. } => {
            assert_eq!(node, "config");
            assert_eq!(session_id, "s1");
        }
        _ => panic!("expected Cancel"),
    }
    assert_eq!(s.step, AdhocStep::CommandList);
    assert!(s.collect_fields().is_empty());
    assert!(matches!(s.update(Message::SubmitForm), Action::Nothing));
    assert!(matches!(s.update(Message::Close), Action::Close));
}

#[test]
fn adhoc_completed_response_summary_and_form() {
    let mut s = AdhocScreen::new();
    s.update(Message::CommandResponseReceived(response(CommandStatus::Completed, vec![], vec![])));
    assert_eq!(s.step, AdhocStep::Done("Command completed.".into(), None));
    s.update(Message::CommandResponseReceived(response(
        CommandStatus::Completed,
        vec![field("pw", "text-private", Some("x")), field("z", "weird", None)],
        vec!["one", "two"],
    )));
    match &s.step {
        AdhocStep::Done(summary, Some(form)) => {
            assert_eq!(summary, "one; two");
            assert_eq!(form.fields.len(), 2);
            assert_eq!(form.fields[0].field_type, FieldType::TextPrivate);
            assert_eq!(form.fields[0].var.as_deref(), Some("pw"));
            assert_eq!(form.fields[1].field_type, FieldType::TextSingle);
            assert!(!form.fields[1].required);
        }
        other => panic!("unexpected {:?}", other),
    }
    s.update(Message::CommandResponseReceived(response(CommandStatus::Canceled, vec![], vec![])));
    assert_eq!(s.step, AdhocStep::CommandList);
}

#[test]
fn vcard_editor_flow() {
    let mut v = VCardEditorScreen::new();
    v.update(VMessage::FetchRequested);
    assert!(v.loading);
    let fields = VCardFields {
        nickname: "al".into(),
        full_name: "Alice".into(),
        organisation: "Org".into(),
        email: "a@example.com".into(),
        phone: "1".into(),
    };
    v.update(VMessage::VCardLoaded(fields.clone()));
    assert!(!v.loading);
    assert_eq!(v.current_fields(), fields);
    v.update(VMessage::PhoneChanged("2".into()));
    v.update(VMessage::SaveRequested);
    assert!(v.saving);
    assert_eq!(v.current_fields().phone, "2");
    v.update(VMessage::VCardSaved);
    assert!(!v.saving);
    assert_eq!(v.status_msg.as_deref(), Some("Saved successfully."));
}

//! Ad-hoc commands panel (XEP-0050).
//!
//! Flow:
//!   1. User opens panel → the application discovers commands on a target JID
//!   2. The command list arrives → `CommandsDiscovered` populates the list
//!   3. User selects a command → the application executes it
//!   4. The response arrives → `CommandResponseReceived` shows its data form
//!      (XEP-0004) or the completion notes
//!   5. User fills the form and submits → the application continues the command
//!   6. Or user cancels → the application cancels the command
//!
//! `AdhocScreen::update` is the state machine; the `Action` it returns is
//! what the application sends.

use vstd::prelude::*;

use crate::field_values::FieldValues;
use crate::text::{chars_of, opt_string, or_else, push_all, string_from_chars, string_is};

verus! {

/// One option of a list field.
#[derive(Debug, Clone, PartialEq)]
pub struct FieldOption {
    pub label: Option<String>,
    pub value: String,
}

/// A data form field as a command response carries it.
#[derive(Debug, Clone, PartialEq)]
pub struct DataField {
    pub var: String,
    pub label: Option<String>,
    /// XEP-0004 field type name, e.g. `"text-single"`.
    pub field_type: String,
    pub value: Option<String>,
    pub options: Vec<FieldOption>,
}

/// Status of an executed command.
#[derive(Debug, Clone, Copy, PartialEq, Eq, Structural)]
pub enum CommandStatus {
    Executing,
    Completed,
    Canceled,
}

/// The response of a command execution step.
#[derive(Debug, Clone, PartialEq)]
pub struct CommandResponse {
    pub node: String,
    pub session_id: String,
    pub status: CommandStatus,
    pub fields: Vec<DataField>,
    pub notes: Vec<String>,
}

/// XEP-0004 field types.
#[derive(Debug, Clone, Copy, PartialEq, Eq, Structural)]
pub enum FieldType {
    TextSingle,
    TextPrivate,
    TextMulti,
    Boolean,
    ListSingle,
    ListMulti,
    Fixed,
    Hidden,
    JidSingle,
    JidMulti,
}

/// A field of a data form to render.
#[derive(Debug, Clone, PartialEq)]
pub struct FormField {
    pub var: Option<String>,
    pub field_type: FieldType,
    pub label: Option<String>,
    pub value: Option<String>,
    pub required: bool,
    pub options: Vec<FieldOption>,
}

/// A data form to render.
#[derive(Debug, Clone, PartialEq)]
pub struct DataForm {
    pub title: Option<String>,
    pub instructions: Option<String>,
    pub fields: Vec<FormField>,
}

/// The field type a type name denotes; unknown names are `TextSingle`.
pub open spec fn field_type_of(name: Seq<char>) -> FieldType {
    if name == "text-private"@ {
        FieldType::TextPrivate
    } else if name == "text-multi"@ {
        FieldType::TextMulti
    } else if name == "boolean"@ {
        FieldType::Boolean
    } else if name == "list-single"@ {
        FieldType::ListSingle
    } else if name == "list-multi"@ {
        FieldType::ListMulti
    } else if name == "fixed"@ {
        FieldType::Fixed
    } else if name == "hidden"@ {
        FieldType::Hidden
    } else if name == "jid-single"@ {
        FieldType::JidSingle
    } else if name == "jid-multi"@ {
        FieldType::JidMulti
    } else {
        FieldType::TextSingle
    }
}

/// Each XEP-0004 field type name gives its own field type; every other name
/// (among them `text-single`) gives `TextSingle`.
pub proof fn lemma_field_type_table(name: Seq<char>)
    ensures
        field_type_of("text-private"@) == FieldType::TextPrivate,
        field_type_of("text-multi"@) == FieldType::TextMulti,
        field_type_of("boolean"@) == FieldType::Boolean,
        field_type_of("list-single"@) == FieldType::ListSingle,
        field_type_of("list-multi"@) == FieldType::ListMulti,
        field_type_of("fixed"@) == FieldType::Fixed,
        field_type_of("hidden"@) == FieldType::Hidden,
        field_type_of("jid-single"@) == FieldType::JidSingle,
        field_type_of("jid-multi"@) == FieldType::JidMulti,
        name != "text-private"@ && name != "text-multi"@ && name != "boolean"@ && name
            != "list-single"@ && name != "list-multi"@ && name != "fixed"@ && name != "hidden"@
            && name != "jid-single"@ && name != "jid-multi"@ ==> field_type_of(name)
            == FieldType::TextSingle,
{
    reveal_strlit("text-private");
    reveal_strlit("text-multi");
    reveal_strlit("boolean");
    reveal_strlit("list-single");
    reveal_strlit("list-multi");
    reveal_strlit("fixed");
    reveal_strlit("hidden");
    reveal_strlit("jid-single");
    reveal_strlit("jid-multi");
    assert("text-private"@.len() != "text-multi"@.len());
    assert("text-private"@.len() != "boolean"@.len());
    assert("text-private"@.len() != "list-single"@.len());
    assert("text-private"@.len() != "list-multi"@.len());
    assert("text-private"@.len() != "fixed"@.len());
    assert("text-private"@.len() != "hidden"@.len());
    assert("text-private"@.len() != "jid-single"@.len());
    assert("text-private"@.len() != "jid-multi"@.len());
    assert("text-multi"@.len() != "boolean"@.len());
    assert("text-multi"@.len() != "list-single"@.len());
    assert("text-multi"@[0] != "list-multi"@[0]);
    assert("text-multi"@.len() != "fixed"@.len());
    assert("text-multi"@.len() != "hidden"@.len());
    assert("text-multi"@[0] != "jid-single"@[0]);
    assert("text-multi"@.len() != "jid-multi"@.len());
    assert("boolean"@.len() != "list-single"@.len());
    assert("boolean"@.len() != "list-multi"@.len());
    assert("boolean"@.len() != "fixed"@.len());
    assert("boolean"@.len() != "hidden"@.len());
    assert("boolean"@.len() != "jid-single"@.len());
    assert("boolean"@.len() != "jid-multi"@.len());
    assert("list-single"@.len() != "list-multi"@.len());
    assert("list-single"@.len() != "fixed"@.len());
    assert("list-single"@.len() != "hidden"@.len());
    assert("list-single"@.len() != "jid-single"@.len());
    assert("list-single"@.len() != "jid-multi"@.len());
    assert("list-multi"@.len() != "fixed"@.len());
    assert("list-multi"@.len() != "hidden"@.len());
    assert("list-multi"@[0] != "jid-single"@[0]);
    assert("list-multi"@.len() != "jid-multi"@.len());
    assert("fixed"@.len() != "hidden"@.len());
    assert("fixed"@.len() != "jid-single"@.len());
    assert("fixed"@.len() != "jid-multi"@.len());
    assert("hidden"@.len() != "jid-single"@.len());
    assert("hidden"@.len() != "jid-multi"@.len());
    assert("jid-single"@.len() != "jid-multi"@.len());
}

/// `ff` renders the data field `f`.
pub open spec fn form_field_of(f: DataField, ff: FormField) -> bool {
    &&& ff.var == Some(f.var)
    &&& ff.field_type == field_type_of(f.field_type@)
    &&& ff.label == f.label
    &&& ff.value == f.value
    &&& !ff.required
    &&& ff.options@ == f.options@
}

/// `form` renders the data fields `fields`, without title or instructions.
pub open spec fn data_form_of(fields: Seq<DataField>, form: DataForm) -> bool {
    &&& form.title is None
    &&& form.instructions is None
    &&& form.fields@.len() == fields.len()
    &&& forall|i: int| 0 <= i < fields.len() ==> form_field_of(fields[i], #[trigger] form.fields@[i])
}

fn clone_opt_string(o: &Option<String>) -> (r: Option<String>)
    ensures
        r == *o,
{
    match o {
        Some(s) => Some(s.clone()),
        None => None,
    }
}

fn clone_options(v: &Vec<FieldOption>) -> (r: Vec<FieldOption>)
    ensures
        r@ == v@,
{
    let mut r: Vec<FieldOption> = Vec::new();
    let mut i: usize = 0;
    while i < v.len()
        invariant
            i <= v.len(),
            r@ == v@.take(i as int),
        decreases v.len() - i,
    {
        r.push(FieldOption { label: clone_opt_string(&v[i].label), value: v[i].value.clone() });
        assert(r@ =~= v@.take(i + 1));
        i = i + 1;
    }
    assert(v@.take(v.len() as int) =~= v@);
    r
}

fn field_type_from_name(name: &String) -> (t: FieldType)
    ensures
        t == field_type_of(name@),
{
    if string_is(name, "text-private") {
        FieldType::TextPrivate
    } else if string_is(name, "text-multi") {
        FieldType::TextMulti
    } else if string_is(name, "boolean") {
        FieldType::Boolean
    } else if string_is(name, "list-single") {
        FieldType::ListSingle
    } else if string_is(name, "list-multi") {
        FieldType::ListMulti
    } else if string_is(name, "fixed") {
        FieldType::Fixed
    } else if string_is(name, "hidden") {
        FieldType::Hidden
    } else if string_is(name, "jid-single") {
        FieldType::JidSingle
    } else if string_is(name, "jid-multi") {
        FieldType::JidMulti
    } else {
        FieldType::TextSingle
    }
}

/// The views of a sequence of strings.
pub open spec fn string_views(v: Seq<String>) -> Seq<Seq<char>> {
    v.map_values(|s: String| s@)
}

/// The pieces of `parts` joined with `sep` between them, as `[String]::join`.
pub open spec fn join_with(parts: Seq<Seq<char>>, sep: Seq<char>) -> Seq<char>
    decreases parts.len(),
{
    if parts.len() == 0 {
        Seq::empty()
    } else if parts.len() == 1 {
        parts[0]
    } else {
        join_with(parts.drop_last(), sep) + sep + parts.last()
    }
}

/// The summary shown when a command completed: its notes joined with `"; "`,
/// or `"Command completed."` when that is empty.
pub open spec fn completion_summary(notes: Seq<String>) -> Seq<char> {
    let joined = join_with(string_views(notes), "; "@);
    if joined.len() == 0 {
        "Command completed."@
    } else {
        joined
    }
}

fn completion_summary_exec(notes: &Vec<String>) -> (r: String)
    ensures
        r@ == completion_summary(notes@),
{
    let mut joined: Vec<char> = Vec::new();
    let sep = chars_of("; ");
    let mut i: usize = 0;
    while i < notes.len()
        invariant
            i <= notes.len(),
            sep@ == "; "@,
            joined@ == join_with(string_views(notes@.take(i as int)), "; "@),
        decreases notes.len() - i,
    {
        let ghost before = joined@;
        if i > 0 {
            push_all(&mut joined, &sep);
        }
        push_all(&mut joined, &chars_of(notes[i].as_str()));
        proof {
            let p = string_views(notes@.take(i + 1));
            assert(p.drop_last() =~= string_views(notes@.take(i as int)));
            if i == 0 {
                assert(before =~= Seq::<char>::empty());
                assert(joined@ =~= p[0]);
            }
        }
        i = i + 1;
    }
    assert(notes@.take(notes.len() as int) =~= notes@);
    if joined.len() == 0 {
        string_from_chars(&chars_of("Command completed."))
    } else {
        string_from_chars(&joined)
    }
}


/// Which step of the ad-hoc flow the panel is in.
#[derive(Debug, Clone, PartialEq)]
pub enum AdhocStep {
    /// Showing the server JID input and waiting for user to confirm discovery.
    TargetInput,
    /// Waiting for discovery results to arrive.
    Discovering,
    /// Command list is shown; user has not yet selected one.
    CommandList,
    /// A command was selected and executed; we are waiting for the result.
    Executing,
    /// Showing a form returned by the server.
    ShowingForm(CommandResponse),
    /// Command completed — holds summary message and optional read-only result form.
    Done(String, Option<DataForm>),
}

/// State of the ad-hoc commands panel.
#[derive(Debug, Clone)]
pub struct AdhocScreen {
    /// JID of the server/service to discover commands on.
    pub target_jid: String,
    /// Available commands: (node, name).
    pub commands: Vec<(String, String)>,
    /// Current step.
    pub step: AdhocStep,
    /// Form field values (keyed by `var`).
    pub field_values: FieldValues,
}

/// Events of the ad-hoc commands panel.
#[derive(Debug, Clone)]
pub enum Message {
    /// User typed in the target JID field.
    TargetJidChanged(String),
    /// User clicked "Discover".
    DiscoverRequested,
    /// Engine returned the command list.
    CommandsDiscovered { _from_jid: String, commands: Vec<(String, String)> },
    /// User clicked on a command item.
    CommandSelected(String),
    /// Engine returned a command response.
    CommandResponseReceived(CommandResponse),
    /// User changed a form field.
    FieldChanged(String, String),
    /// User clicked "Submit" on the form.
    SubmitForm,
    /// User clicked "Cancel" on the form.
    CancelCommand,
    /// User clicked "Close" / back.
    Close,
    /// User clicked "Back to list" after a command completes.
    BackToList,
}

/// What the application has to do after an event.
#[derive(Debug)]
pub enum Action {
    Nothing,
    Close,
    Discover { target_jid: String },
    Execute { target_jid: String, node: String },
    Submit { target_jid: String, node: String, session_id: String, fields: Vec<DataField> },
    Cancel { target_jid: String, node: String, session_id: String },
}

/// `c` is the data field `f` as submitted: the value typed into the form for
/// its `var`, else the value the server sent.
pub open spec fn collected_field(f: DataField, values: FieldValues, c: DataField) -> bool {
    &&& c.var == f.var
    &&& c.label == f.label
    &&& c.field_type == f.field_type
    &&& c.options@ == f.options@
    &&& opt_string(c.value) == or_else(values.lookup(f.var@), opt_string(f.value))
}

/// `out` is the form of `step` as submitted with `values`; empty when no
/// form is shown.
pub open spec fn collected_fields(step: AdhocStep, values: FieldValues, out: Seq<DataField>) -> bool {
    match step {
        AdhocStep::ShowingForm(resp) => {
            &&& out.len() == resp.fields@.len()
            &&& forall|i: int|
                0 <= i < out.len() ==> collected_field(resp.fields@[i], values, #[trigger] out[i])
        },
        _ => out.len() == 0,
    }
}

/// The value that the last field of `fields` with `var` `k` and a value
/// carries.
pub open spec fn initial_value(fields: Seq<DataField>, k: Seq<char>) -> Option<Seq<char>>
    decreases fields.len(),
{
    if fields.len() == 0 {
        None
    } else if fields.last().var@ == k && fields.last().value is Some {
        opt_string(fields.last().value)
    } else {
        initial_value(fields.drop_last(), k)
    }
}

/// No form value is held.
pub open spec fn no_values(values: FieldValues) -> bool {
    forall|k: Seq<char>| #[trigger] values.lookup(k) is None
}

/// The state `new` and action `action` that event `msg` leads to in `old`.
pub open spec fn adhoc_update_post(old: AdhocScreen, msg: Message, new: AdhocScreen, action: Action) -> bool {
    match msg {
        Message::TargetJidChanged(v) => {
            &&& new == AdhocScreen { target_jid: v, ..old }
            &&& action is Nothing
        },
        Message::DiscoverRequested => {
            &&& new.target_jid == old.target_jid
            &&& new.commands@.len() == 0
            &&& new.step == AdhocStep::Discovering
            &&& new.field_values == old.field_values
            &&& action matches Action::Discover { target_jid } && target_jid@ == old.target_jid@
        },
        Message::CommandsDiscovered { _from_jid, commands } => {
            &&& new == AdhocScreen { commands: commands, step: AdhocStep::CommandList, ..old }
            &&& action is Nothing
        },
        Message::CommandSelected(node) => {
            &&& new.target_jid == old.target_jid
            &&& new.commands == old.commands
            &&& new.step == AdhocStep::Executing
            &&& no_values(new.field_values)
            &&& action matches Action::Execute { target_jid, node: n } && target_jid@
                == old.target_jid@ && n == node
        },
        Message::CommandResponseReceived(resp) => {
            &&& action is Nothing
            &&& new.target_jid == old.target_jid
            &&& new.commands == old.commands
            &&& match resp.status {
                CommandStatus::Completed => {
                    &&& new.field_values == old.field_values
                    &&& new.step matches AdhocStep::Done(summary, form) && summary@
                        == completion_summary(resp.notes@) && match form {
                        Some(f) => resp.fields@.len() > 0 && data_form_of(resp.fields@, f),
                        None => resp.fields@.len() == 0,
                    }
                },
                CommandStatus::Canceled => {
                    &&& new.field_values == old.field_values
                    &&& new.step == AdhocStep::CommandList
                },
                CommandStatus::Executing => {
                    &&& new.step == AdhocStep::ShowingForm(resp)
                    &&& forall|k: Seq<char>|
                        #[trigger] new.field_values.lookup(k) == initial_value(resp.fields@, k)
                },
            }
        },
        Message::FieldChanged(var, val) => {
            &&& action is Nothing
            &&& new.target_jid == old.target_jid
            &&& new.commands == old.commands
            &&& new.step == old.step
            &&& forall|k: Seq<char>|
                #[trigger] new.field_values.lookup(k) == if k == var@ {
                    Some(val@)
                } else {
                    old.field_values.lookup(k)
                }
        },
        Message::SubmitForm => {
            &&& new == old
            &&& match old.step {
                AdhocStep::ShowingForm(resp) => action matches Action::Submit {
                    target_jid,
                    node,
                    session_id,
                    fields,
                } && target_jid@ == old.target_jid@ && node@ == resp.node@ && session_id@
                    == resp.session_id@ && collected_fields(old.step, old.field_values, fields@),
                _ => action is Nothing,
            }
        },
        Message::CancelCommand => {
            &&& new.target_jid == old.target_jid
            &&& new.commands == old.commands
            &&& new.step == AdhocStep::CommandList
            &&& no_values(new.field_values)
            &&& match old.step {
                AdhocStep::ShowingForm(resp) => action matches Action::Cancel {
                    target_jid,
                    node,
                    session_id,
                } && target_jid@ == old.target_jid@ && node@ == resp.node@ && session_id@
                    == resp.session_id@,
                _ => action is Nothing,
            }
        },
        Message::Close => {
            &&& new == old
            &&& action is Close
        },
        Message::BackToList => {
            &&& new.target_jid == old.target_jid
            &&& new.commands == old.commands
            &&& new.step == AdhocStep::CommandList
            &&& no_values(new.field_values)
            &&& action is Nothing
        },
    }
}

impl AdhocScreen {
    /// A panel waiting for the target JID.
    pub fn new() -> (r: Self)
        ensures
            r.target_jid@.len() == 0,
            r.commands@.len() == 0,
            r.step == AdhocStep::TargetInput,
            no_values(r.field_values),
    {
        AdhocScreen {
            target_jid: String::new(),
            commands: Vec::new(),
            step: AdhocStep::TargetInput,
            field_values: FieldValues::new(),
        }
    }

    /// The node of the currently-executing command (if any).
    pub fn active_node(&self) -> (r: Option<&str>)
        ensures
            match self.step {
                AdhocStep::ShowingForm(resp) => r matches Some(n) && n@ == resp.node@,
                _ => r is None,
            },
    {
        match &self.step {
            AdhocStep::ShowingForm(resp) => Some(resp.node.as_str()),
            _ => None,
        }
    }

    /// The session_id of the current command response (if any).
    pub fn active_session_id(&self) -> (r: Option<&str>)
        ensures
            match self.step {
                AdhocStep::ShowingForm(resp) => r matches Some(n) && n@ == resp.session_id@,
                _ => r is None,
            },
    {
        match &self.step {
            AdhocStep::ShowingForm(resp) => Some(resp.session_id.as_str()),
            _ => None,
        }
    }

    /// Collect the current form fields as `DataField` snapshots for submission.
    pub fn collect_fields(&self) -> (r: Vec<DataField>)
        ensures
            collected_fields(self.step, self.field_values, r@),
    {
        match &self.step {
            AdhocStep::ShowingForm(resp) => {
                let mut out: Vec<DataField> = Vec::new();
                let mut i: usize = 0;
                while i < resp.fields.len()
                    invariant
                        i <= resp.fields.len(),
                        out.len() == i,
                        forall|j: int|
                            0 <= j < i ==> collected_field(
                                resp.fields@[j],
                                self.field_values,
                                #[trigger] out@[j],
                            ),
                    decreases resp.fields.len() - i,
                {
                    let f = &resp.fields[i];
                    let typed = self.field_values.get(&f.var);
                    let value = match typed {
                        Some(v) => Some(v),
                        None => clone_opt_string(&f.value),
                    };
                    out.push(
                        DataField {
                            var: f.var.clone(),
                            label: clone_opt_string(&f.label),
                            field_type: f.field_type.clone(),
                            value,
                            options: clone_options(&f.options),
                        },
                    );
                    i = i + 1;
                }
                out
            },
            _ => Vec::new(),
        }
    }

    /// Convert the data fields of a command response into a `DataForm`
    /// suitable for rendering.
    fn data_fields_to_data_form(fields: &Vec<DataField>) -> (r: DataForm)
        ensures
            data_form_of(fields@, r),
    {
        let mut form_fields: Vec<FormField> = Vec::new();
        let mut i: usize = 0;
        while i < fields.len()
            invariant
                i <= fields.len(),
                form_fields.len() == i,
                forall|j: int| 0 <= j < i ==> form_field_of(fields@[j], #[trigger] form_fields@[j]),
            decreases fields.len() - i,
        {
            let f = &fields[i];
            form_fields.push(
                FormField {
                    var: Some(f.var.clone()),
                    field_type: field_type_from_name(&f.field_type),
                    label: clone_opt_string(&f.label),
                    value: clone_opt_string(&f.value),
                    required: false,
                    options: clone_options(&f.options),
                },
            );
            i = i + 1;
        }
        DataForm { title: None, instructions: None, fields: form_fields }
    }
}

impl AdhocScreen {
    /// Apply an event to the panel and return what the application has to
    /// do.
    pub fn update(&mut self, msg: Message) -> (action: Action)
        ensures
            adhoc_update_post(*old(self), msg, *final(self), action),
    {
        match msg {
            Message::TargetJidChanged(v) => {
                self.target_jid = v;
                Action::Nothing
            },
            Message::DiscoverRequested => {
                let target = self.target_jid.clone();
                self.step = AdhocStep::Discovering;
                self.commands.clear();
                Action::Discover { target_jid: target }
            },
            Message::CommandsDiscovered { _from_jid: _, commands } => {
                self.commands = commands;
                self.step = AdhocStep::CommandList;
                Action::Nothing
            },
            Message::CommandSelected(node) => {
                let target = self.target_jid.clone();
                self.step = AdhocStep::Executing;
                self.field_values.clear();
                Action::Execute { target_jid: target, node }
            },
            Message::CommandResponseReceived(resp) => {
                match resp.status {
                    CommandStatus::Completed => {
                        let summary = completion_summary_exec(&resp.notes);
                        // Build a read-only result form if the server returned fields.
                        let result_form = if resp.fields.len() == 0 {
                            None
                        } else {
                            Some(Self::data_fields_to_data_form(&resp.fields))
                        };
                        self.step = AdhocStep::Done(summary, result_form);
                    },
                    CommandStatus::Canceled => {
                        self.step = AdhocStep::CommandList;
                    },
                    CommandStatus::Executing => {
                        self.field_values.clear();
                        let mut i: usize = 0;
                        while i < resp.fields.len()
                            invariant
                                i <= resp.fields.len(),
                                self.target_jid == old(self).target_jid,
                                self.commands == old(self).commands,
                                forall|k: Seq<char>|
                                    #[trigger] self.field_values.lookup(k) == initial_value(
                                        resp.fields@.take(i as int),
                                        k,
                                    ),
                            decreases resp.fields.len() - i,
                        {
                            let f = &resp.fields[i];
                            proof {
                                assert(resp.fields@.take(i + 1).drop_last() =~= resp.fields@.take(
                                    i as int,
                                ));
                            }
                            if let Some(v) = &f.value {
                                self.field_values.insert(f.var.clone(), v.clone());
                            }
                            i = i + 1;
                        }
                        assert(resp.fields@.take(resp.fields.len() as int) =~= resp.fields@);
                        self.step = AdhocStep::ShowingForm(resp);
                    },
                }
                Action::Nothing
            },
            Message::FieldChanged(var, val) => {
                self.field_values.insert(var, val);
                Action::Nothing
            },
            Message::SubmitForm => {
                if let Some(node) = self.active_node() {
                    if let Some(session_id) = self.active_session_id() {
                        let node = string_from_chars(&chars_of(node));
                        let session_id = string_from_chars(&chars_of(session_id));
                        let fields = self.collect_fields();
                        return Action::Submit {
                            target_jid: self.target_jid.clone(),
                            node,
                            session_id,
                            fields,
                        };
                    }
                }
                Action::Nothing
            },
            Message::CancelCommand => {
                let action = if let Some(node) = self.active_node() {
                    if let Some(session_id) = self.active_session_id() {
                        Action::Cancel {
                            target_jid: self.target_jid.clone(),
                            node: string_from_chars(&chars_of(node)),
                            session_id: string_from_chars(&chars_of(session_id)),
                        }
                    } else {
                        Action::Nothing
                    }
                } else {
                    Action::Nothing
                };
                self.step = AdhocStep::CommandList;
                self.field_values.clear();
                action
            },
            Message::Close => Action::Close,
            Message::BackToList => {
                self.step = AdhocStep::CommandList;
                self.field_values.clear();
                Action::Nothing
            },
        }
    }
}

impl Default for AdhocScreen {
    fn default() -> (r: Self)
        ensures
            r.target_jid@.len() == 0,
            r.commands@.len() == 0,
            r.step == AdhocStep::TargetInput,
            no_values(r.field_values),
    {
        Self::new()
    }
}


proof fn lemma_initial_value_absent(fs: Seq<DataField>, k: Seq<char>)
    requires
        forall|a: int| 0 <= a < fs.len() ==> (#[trigger] fs[a]).var@ != k,
    ensures
        initial_value(fs, k) is None,
    decreases fs.len(),
{
    if fs.len() > 0 {
        assert(fs.last() == fs[fs.len() - 1]);
        assert forall|a: int| 0 <= a < fs.len() - 1 implies (#[trigger] fs.drop_last()[a]).var@ != k by {
            assert(fs.drop_last()[a] == fs[a]);
        }
        lemma_initial_value_absent(fs.drop_last(), k);
    }
}

proof fn lemma_initial_value_distinct(fs: Seq<DataField>, i: int)
    requires
        0 <= i < fs.len(),
        forall|a: int, b: int|
            0 <= a < fs.len() && 0 <= b < fs.len() && a != b ==> (#[trigger] fs[a]).var@
                != (#[trigger] fs[b]).var@,
    ensures
        initial_value(fs, fs[i].var@) == opt_string(fs[i].value),
    decreases fs.len(),
{
    assert(fs.last() == fs[fs.len() - 1]);
    let d = fs.drop_last();
    if i < fs.len() - 1 {
        assert(d[i] == fs[i]);
        assert forall|a: int, b: int|
            0 <= a < d.len() && 0 <= b < d.len() && a != b implies (#[trigger] d[a]).var@
            != (#[trigger] d[b]).var@ by {
            assert(d[a] == fs[a]);
            assert(d[b] == fs[b]);
        }
        lemma_initial_value_distinct(d, i);
    } else {
        assert forall|a: int| 0 <= a < d.len() implies (#[trigger] d[a]).var@ != fs[i].var@ by {
            assert(d[a] == fs[a]);
        }
        lemma_initial_value_absent(d, fs[i].var@);
    }
}

/// A form submitted without edits carries back the values the server sent
/// (when the fields have distinct names).
pub proof fn lemma_unedited_submit_carries_server_values(
    s0: AdhocScreen,
    resp: CommandResponse,
    s1: AdhocScreen,
    a1: Action,
    s2: AdhocScreen,
    a2: Action,
)
    requires
        resp.status == CommandStatus::Executing,
        adhoc_update_post(s0, Message::CommandResponseReceived(resp), s1, a1),
        adhoc_update_post(s1, Message::SubmitForm, s2, a2),
        forall|a: int, b: int|
            0 <= a < resp.fields@.len() && 0 <= b < resp.fields@.len() && a != b
                ==> (#[trigger] resp.fields@[a]).var@ != (#[trigger] resp.fields@[b]).var@,
    ensures
        a2 matches Action::Submit { node, session_id, fields, .. } && {
            &&& node@ == resp.node@
            &&& session_id@ == resp.session_id@
            &&& fields@.len() == resp.fields@.len()
            &&& forall|i: int|
                0 <= i < fields@.len() ==> opt_string((#[trigger] fields@[i]).value) == opt_string(
                    resp.fields@[i].value,
                )
        },
{
    assert(s1.step == AdhocStep::ShowingForm(resp));
    if let Action::Submit { fields, .. } = a2 {
        assert forall|i: int| 0 <= i < fields@.len() implies opt_string(
            (#[trigger] fields@[i]).value,
        ) == opt_string(resp.fields@[i].value) by {
            assert(collected_field(resp.fields@[i], s1.field_values, fields@[i]));
            lemma_initial_value_distinct(resp.fields@, i);
            assert(s1.field_values.lookup(resp.fields@[i].var@) == initial_value(
                resp.fields@,
                resp.fields@[i].var@,
            ));
        }
    }
}

/// A value typed into a shown form is what a following submit sends for
/// every field of that name.
pub proof fn lemma_typed_value_is_submitted(
    s1: AdhocScreen,
    var: String,
    val: String,
    s2: AdhocScreen,
    a2: Action,
    s3: AdhocScreen,
    a3: Action,
)
    requires
        s1.step is ShowingForm,
        adhoc_update_post(s1, Message::FieldChanged(var, val), s2, a2),
        adhoc_update_post(s2, Message::SubmitForm, s3, a3),
    ensures
        a3 matches Action::Submit { fields, .. } && forall|i: int|
            0 <= i < fields@.len() && (#[trigger] fields@[i]).var@ == var@ ==> opt_string(
                fields@[i].value,
            ) == Some(val@),
{
    if let AdhocStep::ShowingForm(resp) = s1.step {
        if let Action::Submit { fields, .. } = a3 {
            assert forall|i: int| 0 <= i < fields@.len() && (#[trigger] fields@[i]).var@ == var@ implies opt_string(
                fields@[i].value,
            ) == Some(val@) by {
                assert(collected_field(resp.fields@[i], s2.field_values, fields@[i]));
                assert(s2.field_values.lookup(var@) == Some(val@));
            }
        }
    }
}

} // verus!

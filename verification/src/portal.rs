//! The conversation with the scheduling portal.
//!
//! The portal is a form-driven site that keeps its page state in hidden
//! `<input>` fields. Fetching the calendar takes three exchanges over one
//! cookie session: get the login page, post the login form, post the export
//! form. This module decides what is sent at each step; the caller performs
//! the exchanges and reports each reply to [`step`].

use vstd::prelude::*;
use crate::text::{chars_of, contains, find, same_text};
use scraper::{Html, Selector};

verus! {

/// An `<input>` element of a page, by the three attributes the portal's forms
/// are read by: `name`, `value` and `type`.
#[derive(Debug, Clone, PartialEq, Eq)]
pub struct InputElement {
    pub name: Option<String>,
    pub value: Option<String>,
    pub kind: Option<String>,
}

/// What the contracts say of an [`InputElement`].
pub struct InputView {
    pub name: Option<Seq<char>>,
    pub value: Option<Seq<char>>,
    pub kind: Option<Seq<char>>,
}

/// One text part of a multipart form.
#[derive(Debug, Clone, PartialEq, Eq)]
pub struct FormField {
    pub name: String,
    pub value: String,
}

/// What the contracts say of a [`FormField`].
pub struct FieldView {
    pub name: Seq<char>,
    pub value: Seq<char>,
}

/// Why the conversation ended without a calendar feed.
#[derive(Debug, Clone, Copy, PartialEq, Eq, Structural)]
pub enum ScrapeError {
    /// The exchange itself failed: no connection, or the transfer broke.
    Transport,
    /// The portal answered with a status outside 200..=299.
    Status(u16),
    /// The element selector was not accepted.
    Selector,
    /// An `<input>` element carries no `name` attribute.
    MissingName,
    /// The login page holds no `<input>` element at all.
    MissingLoginForm,
    /// The page after login holds no export button.
    MissingExportButton,
    /// A reply came that the current state does not wait for.
    UnexpectedReply,
}

impl ScrapeError {
    /// The message by which the failure is reported.
    pub open spec fn text(self) -> Seq<char> {
        match self {
            ScrapeError::Transport => "request could not be completed"@,
            ScrapeError::Status(_) => "portal answered with an error status"@,
            ScrapeError::Selector => "input selector was refused"@,
            ScrapeError::MissingName => "element attr \"name\" not found"@,
            ScrapeError::MissingLoginForm => "login form not found"@,
            ScrapeError::MissingExportButton => "export button not found"@,
            ScrapeError::UnexpectedReply => "reply does not fit the request"@,
        }
    }

    /// The message by which the failure is reported.
    pub fn message(&self) -> (r: &'static str)
        ensures
            r@ == self.text(),
    {
        match self {
            ScrapeError::Transport => "request could not be completed",
            ScrapeError::Status(_) => "portal answered with an error status",
            ScrapeError::Selector => "input selector was refused",
            ScrapeError::MissingName => "element attr \"name\" not found",
            ScrapeError::MissingLoginForm => "login form not found",
            ScrapeError::MissingExportButton => "export button not found",
            ScrapeError::UnexpectedReply => "reply does not fit the request",
        }
    }
}

/// Where the conversation stands.
#[derive(Debug, Clone, Copy, PartialEq, Eq, Structural)]
pub enum ScrapeState {
    /// The login page has been asked for.
    Init,
    /// The login form has been sent.
    GotLoginForm,
    /// The export form has been sent.
    Authenticated,
    /// The feed has arrived.
    ExportedBytes,
    /// The conversation was given up.
    Failed,
}

/// What came back from the exchange that the last [`Action`] asked for.
#[derive(Debug, Clone, PartialEq, Eq)]
pub enum Reply {
    /// No response could be had.
    Failed,
    /// A response whose body was decoded as text.
    Page { status: u16, text: String },
    /// A response whose body was taken as it came.
    Payload { status: u16, bytes: Vec<u8> },
}

/// What the contracts say of a [`Reply`].
pub enum ReplyView {
    Failed,
    Page { status: u16, text: Seq<char> },
    Payload { status: u16, bytes: Seq<u8> },
}

/// What the caller does next.
#[derive(Debug, Clone, PartialEq, Eq)]
pub enum Action {
    /// GET the login page and report it as a [`Reply::Page`].
    FetchLoginPage,
    /// POST these fields as multipart form data to the login page and report
    /// the response as a [`Reply::Page`].
    SubmitLogin { fields: Vec<FormField> },
    /// POST these fields as multipart form data to the timetable page and
    /// report the response as a [`Reply::Payload`].
    RequestExport { fields: Vec<FormField> },
    /// The conversation is over: this is the calendar feed.
    Finish { feed: Vec<u8> },
    /// The conversation is over: it failed.
    Abort { error: ScrapeError },
}

/// What the contracts say of an [`Action`].
pub enum ActionView {
    FetchLoginPage,
    SubmitLogin { fields: Seq<FieldView> },
    RequestExport { fields: Seq<FieldView> },
    Finish { feed: Seq<u8> },
    Abort { error: ScrapeError },
}

/// Which credential a login input takes.
#[derive(Debug, Clone, Copy, PartialEq, Eq, Structural)]
pub enum Credential {
    Username,
    Password,
    Neither,
}

/// The view of an optional string.
pub open spec fn optional_text(o: Option<String>) -> Option<Seq<char>> {
    match o {
        Some(s) => Some(s@),
        None => None,
    }
}

impl View for InputElement {
    type V = InputView;

    open spec fn view(&self) -> InputView {
        InputView {
            name: optional_text(self.name),
            value: optional_text(self.value),
            kind: optional_text(self.kind),
        }
    }
}

impl View for FormField {
    type V = FieldView;

    open spec fn view(&self) -> FieldView {
        FieldView { name: self.name@, value: self.value@ }
    }
}

impl View for Reply {
    type V = ReplyView;

    open spec fn view(&self) -> ReplyView {
        match *self {
            Reply::Failed => ReplyView::Failed,
            Reply::Page { status, text } => ReplyView::Page { status, text: text@ },
            Reply::Payload { status, bytes } => ReplyView::Payload { status, bytes: bytes@ },
        }
    }
}

impl View for Action {
    type V = ActionView;

    open spec fn view(&self) -> ActionView {
        match *self {
            Action::FetchLoginPage => ActionView::FetchLoginPage,
            Action::SubmitLogin { fields } => ActionView::SubmitLogin { fields: field_views(fields@) },
            Action::RequestExport { fields } => ActionView::RequestExport {
                fields: field_views(fields@),
            },
            Action::Finish { feed } => ActionView::Finish { feed: feed@ },
            Action::Abort { error } => ActionView::Abort { error },
        }
    }
}

/// The views of a sequence of inputs.
pub open spec fn input_views(inputs: Seq<InputElement>) -> Seq<InputView> {
    inputs.map_values(|e: InputElement| e@)
}

/// The views of a sequence of form fields.
pub open spec fn field_views(fields: Seq<FormField>) -> Seq<FieldView> {
    fields.map_values(|f: FormField| f@)
}

/// The view of a form or of the reason why there is none.
pub open spec fn form_view(r: Result<Vec<FormField>, ScrapeError>) -> Result<
    Seq<FieldView>,
    ScrapeError,
> {
    match r {
        Ok(fields) => Ok(field_views(fields@)),
        Err(e) => Err(e),
    }
}

/// The address of the login page.
pub open spec fn login_url() -> Seq<char> {
    "https://planzajec.pjwstk.edu.pl/Logowanie.aspx"@
}

/// The address of the timetable page, which serves the export.
pub open spec fn export_url() -> Seq<char> {
    "https://planzajec.pjwstk.edu.pl/TwojPlan.aspx"@
}

/// The name of the input that stands for the export button.
pub open spec fn export_button() -> Seq<char> {
    "PlanStudenta$CalendarICalExportButton_input"@
}

/// The caption of the export button, on which the portal dispatches.
pub open spec fn export_caption() -> Seq<char> {
    "Eksportuj do iCalendar"@
}

/// The element selector by which a page's inputs are found.
pub open spec fn input_selector() -> Seq<char> {
    "input"@
}

/// The lower-case form of a text, as `str::to_lowercase` gives it.
pub uninterp spec fn lowercase(s: Seq<char>) -> Seq<char>;

/// The elements of an HTML document that a selector matches, in the order
/// in which the parsed document yields them, each by the values of three of
/// its attributes; `None` where the selector is no valid selector.
pub uninterp spec fn selection(
    document: Seq<char>,
    selector: Seq<char>,
    first: Seq<char>,
    second: Seq<char>,
    third: Seq<char>,
) -> Option<Seq<InputView>>;

/// The inputs of a page: what the selector `input` matches, each by its
/// `name`, `value` and `type`.
pub open spec fn page_inputs(document: Seq<char>) -> Option<Seq<InputView>> {
    selection(document, input_selector(), "name"@, "value"@, "type"@)
}

/// The credential that an input takes whose lower-cased name is `lower`: the
/// username where that holds `username`, else the password where it holds
/// `password`.
pub open spec fn credential_of(lower: Seq<char>) -> Credential {
    if contains(lower, "username"@) {
        Credential::Username
    } else if contains(lower, "password"@) {
        Credential::Password
    } else {
        Credential::Neither
    }
}

/// The value of an input, empty where it has none.
pub open spec fn value_or_empty(input: InputView) -> Seq<char> {
    match input.value {
        Some(v) => v,
        None => Seq::<char>::empty(),
    }
}

/// The login field for a named input: a credential where the input's name
/// asks for one, the value found on the page otherwise.
pub open spec fn login_field(
    input: InputView,
    username: Seq<char>,
    password: Seq<char>,
) -> FieldView {
    let name = input.name->0;
    FieldView {
        name,
        value: match credential_of(lowercase(name)) {
            Credential::Username => username,
            Credential::Password => password,
            Credential::Neither => value_or_empty(input),
        },
    }
}

/// Some input has no name.
pub open spec fn has_nameless(inputs: Seq<InputView>) -> bool {
    exists|i: int| 0 <= i < inputs.len() && (#[trigger] inputs[i]).name is None
}

/// Some input is the export button.
pub open spec fn has_export_button(inputs: Seq<InputView>) -> bool {
    exists|i: int| 0 <= i < inputs.len() && (#[trigger] inputs[i]).name == Some(export_button())
}

/// The login fields for named inputs: one for each, in their order.
pub open spec fn login_fields(
    inputs: Seq<InputView>,
    username: Seq<char>,
    password: Seq<char>,
) -> Seq<FieldView> {
    inputs.map_values(|e: InputView| login_field(e, username, password))
}

/// The login form for the inputs of the login page: one field for each
/// input, in page order.
pub open spec fn login_form_of(
    inputs: Seq<InputView>,
    username: Seq<char>,
    password: Seq<char>,
) -> Result<Seq<FieldView>, ScrapeError> {
    if inputs.len() == 0 {
        Err(ScrapeError::MissingLoginForm)
    } else if has_nameless(inputs) {
        Err(ScrapeError::MissingName)
    } else {
        Ok(login_fields(inputs, username, password))
    }
}

/// The export field for a named input, if it gets one: the button with its
/// caption, a hidden input with the value found on the page, no other.
pub open spec fn export_field(input: InputView) -> Option<FieldView> {
    let name = input.name->0;
    if name == export_button() {
        Some(FieldView { name, value: export_caption() })
    } else if input.kind == Some("hidden"@) {
        Some(FieldView { name, value: value_or_empty(input) })
    } else {
        None
    }
}

/// The export form for the inputs of the page that follows the login.
pub open spec fn export_form_of(inputs: Seq<InputView>) -> Result<Seq<FieldView>, ScrapeError> {
    if has_nameless(inputs) {
        Err(ScrapeError::MissingName)
    } else if !has_export_button(inputs) {
        Err(ScrapeError::MissingExportButton)
    } else {
        Ok(inputs.filter_map(|e: InputView| export_field(e)))
    }
}

/// Whether a status code reports success.
pub open spec fn is_success(status: u16) -> bool {
    200 <= status <= 299
}

/// The end of a conversation that failed with `error`.
pub open spec fn failure(error: ScrapeError) -> (ScrapeState, ActionView) {
    (ScrapeState::Failed, ActionView::Abort { error })
}

/// What follows a page that was waited for: the form made of its inputs is
/// sent and the conversation moves on, or the conversation fails.
pub open spec fn after_page(
    status: u16,
    form: Option<Result<Seq<FieldView>, ScrapeError>>,
    login: bool,
) -> (ScrapeState, ActionView) {
    if !is_success(status) {
        failure(ScrapeError::Status(status))
    } else {
        match form {
            None => failure(ScrapeError::Selector),
            Some(Err(e)) => failure(e),
            Some(Ok(fields)) => if login {
                (ScrapeState::GotLoginForm, ActionView::SubmitLogin { fields })
            } else {
                (ScrapeState::Authenticated, ActionView::RequestExport { fields })
            },
        }
    }
}

/// The form that a page gives.
pub open spec fn page_form(
    text: Seq<char>,
    username: Seq<char>,
    password: Seq<char>,
    login: bool,
) -> Option<Result<Seq<FieldView>, ScrapeError>> {
    match page_inputs(text) {
        None => None,
        Some(inputs) => Some(
            if login {
                login_form_of(inputs, username, password)
            } else {
                export_form_of(inputs)
            },
        ),
    }
}

/// The transition of the conversation: the state after `reply` was received
/// in `state`, and what is to be done then.
pub open spec fn next_step(
    state: ScrapeState,
    reply: ReplyView,
    username: Seq<char>,
    password: Seq<char>,
) -> (ScrapeState, ActionView) {
    match (state, reply) {
        (ScrapeState::ExportedBytes, _) => failure(ScrapeError::UnexpectedReply),
        (ScrapeState::Failed, _) => failure(ScrapeError::UnexpectedReply),
        (_, ReplyView::Failed) => failure(ScrapeError::Transport),
        (ScrapeState::Init, ReplyView::Page { status, text }) => after_page(
            status,
            page_form(text, username, password, true),
            true,
        ),
        (ScrapeState::GotLoginForm, ReplyView::Page { status, text }) => after_page(
            status,
            page_form(text, username, password, false),
            false,
        ),
        (ScrapeState::Authenticated, ReplyView::Payload { status, bytes }) => if is_success(
            status,
        ) {
            (ScrapeState::ExportedBytes, ActionView::Finish { feed: bytes })
        } else {
            failure(ScrapeError::Status(status))
        },
        _ => failure(ScrapeError::UnexpectedReply),
    }
}

/// The state that follows `state` when its exchange succeeds.
pub open spec fn successor(state: ScrapeState) -> ScrapeState {
    match state {
        ScrapeState::Init => ScrapeState::GotLoginForm,
        ScrapeState::GotLoginForm => ScrapeState::Authenticated,
        ScrapeState::Authenticated => ScrapeState::ExportedBytes,
        ScrapeState::ExportedBytes => ScrapeState::Failed,
        ScrapeState::Failed => ScrapeState::Failed,
    }
}

/// The conversation goes one way. From every state a reply leads to the
/// state that follows it or to failure, never back and never to the same
/// state again. It fails exactly where it is told to abort and has the feed
/// exactly where it is told to finish; in every other case a form is to be
/// sent. The two final states take no further reply.
pub proof fn lemma_one_way(
    state: ScrapeState,
    reply: ReplyView,
    username: Seq<char>,
    password: Seq<char>,
)
    ensures
        ({
            let (next, action) = next_step(state, reply, username, password);
            &&& next == successor(state) || next == ScrapeState::Failed
            &&& next != state || state == ScrapeState::Failed
            &&& next == ScrapeState::Failed <==> action is Abort
            &&& next == ScrapeState::ExportedBytes <==> action is Finish
            &&& next == ScrapeState::GotLoginForm <==> action is SubmitLogin
            &&& next == ScrapeState::Authenticated <==> action is RequestExport
            &&& reply is Failed ==> next == ScrapeState::Failed
        }),
{
}

/// Calls `str::to_lowercase`, which gives the lower-case form of the text by
/// the Unicode rules; the result is named `lowercase`.
#[verifier::external_body]
fn to_lowercase(s: &str) -> (r: String)
    ensures
        r@ == lowercase(s@),
{
    s.to_lowercase()
}

/// Calls `scraper::Html::parse_document` on the document, `Selector::parse`
/// on the selector and `Html::select` with both, and reads three attributes
/// of each match with `Element::attr`. The result is named `selection`: the
/// matches in the order in which `select` yields them, `None` where the
/// selector does not parse.
#[verifier::external_body]
fn select_elements(document: &str, selector: &str, first: &str, second: &str, third: &str) -> (r:
    Option<Vec<InputElement>>)
    ensures
        match r {
            Some(found) => selection(document@, selector@, first@, second@, third@) == Some(
                input_views(found@),
            ),
            None => selection(document@, selector@, first@, second@, third@) is None,
        },
{
    let selector = Selector::parse(selector).ok()?;
    let html = Html::parse_document(document);
    let found = html.select(&selector).map(|element| element.value()).map(
        |element|
            InputElement {
                name: element.attr(first).map(str::to_owned),
                value: element.attr(second).map(str::to_owned),
                kind: element.attr(third).map(str::to_owned),
            },
    );
    Some(found.collect())
}

/// The inputs of an HTML page, in the order in which the parsed page yields
/// them; `None` where the element selector is refused.
pub fn read_inputs(document: &str) -> (r: Option<Vec<InputElement>>)
    ensures
        match r {
            Some(found) => page_inputs(document@) == Some(input_views(found@)),
            None => page_inputs(document@) is None,
        },
{
    select_elements(document, "input", "name", "value", "type")
}

/// Which credential an input takes, by its lower-cased name.
pub fn credential_for(lower: &str) -> (c: Credential)
    ensures
        c == credential_of(lower@),
{
    let chars = chars_of(lower);
    let username = chars_of("username");
    let password = chars_of("password");
    if find(&chars, &username).is_some() {
        Credential::Username
    } else if find(&chars, &password).is_some() {
        Credential::Password
    } else {
        Credential::Neither
    }
}

/// The value of an input, empty where it has none.
fn value_of(input: &InputElement) -> (v: String)
    ensures
        v@ == value_or_empty(input@),
{
    match &input.value {
        Some(v) => v.clone(),
        None => String::new(),
    }
}

/// Builds the login form from the inputs of the login page.
///
/// Every input gives one field under its own name, in page order. An input
/// whose name, compared without regard to case, holds `username` takes the
/// username; failing that, one whose name holds `password` takes the
/// password; any other keeps the value found on the page, so that the
/// portal's hidden state goes back as it came. A page without inputs has no
/// login form, and an input without a name cannot be sent: both fail.
pub fn login_form(inputs: &Vec<InputElement>, username: &str, password: &str) -> (r: Result<
    Vec<FormField>,
    ScrapeError,
>)
    ensures
        form_view(r) == login_form_of(input_views(inputs@), username@, password@),
{
    let ghost page = input_views(inputs@);
    if inputs.len() == 0 {
        return Err(ScrapeError::MissingLoginForm);
    }
    let mut fields: Vec<FormField> = Vec::new();
    let mut i: usize = 0;
    while i < inputs.len()
        invariant
            i <= inputs.len(),
            page == input_views(inputs@),
            forall|j: int| 0 <= j < i ==> (#[trigger] page[j]).name is Some,
            field_views(fields@) == login_fields(page.take(i as int), username@, password@),
        decreases inputs.len() - i,
    {
        let input = &inputs[i];
        assert(page[i as int] == input@);
        match &input.name {
            None => {
                return Err(ScrapeError::MissingName);
            },
            Some(name) => {
                let lower = to_lowercase(name.as_str());
                let value = match credential_for(lower.as_str()) {
                    Credential::Username => username.to_owned(),
                    Credential::Password => password.to_owned(),
                    Credential::Neither => value_of(input),
                };
                let field = FormField { name: name.clone(), value };
                assert(field@ == login_field(input@, username@, password@));
                let ghost before = fields@;
                fields.push(field);
                assert(field_views(fields@) =~= field_views(before).push(field@));
                assert(login_fields(page.take(i + 1), username@, password@) =~= login_fields(
                    page.take(i as int),
                    username@,
                    password@,
                ).push(field@));
            },
        }
        i += 1;
    }
    assert(page.take(i as int) =~= page);
    assert(!has_nameless(page));
    Ok(fields)
}

/// Builds the export form from the inputs of the page that follows the login.
///
/// The input named as the export button is sent with the button's caption,
/// which is how the portal recognises the click. Every other input of type
/// `hidden` is sent with the value found on the page; the remaining inputs
/// are left out. An input without a name fails the form, and so does a page
/// without the button.
pub fn export_form(inputs: &Vec<InputElement>) -> (r: Result<Vec<FormField>, ScrapeError>)
    ensures
        form_view(r) == export_form_of(input_views(inputs@)),
{
    let ghost page = input_views(inputs@);
    let ghost pick = |e: InputView| export_field(e);
    let mut fields: Vec<FormField> = Vec::new();
    let mut button_seen = false;
    let mut i: usize = 0;
    while i < inputs.len()
        invariant
            i <= inputs.len(),
            page == input_views(inputs@),
            pick == |e: InputView| export_field(e),
            forall|j: int| 0 <= j < i ==> (#[trigger] page[j]).name is Some,
            button_seen == has_export_button(page.take(i as int)),
            field_views(fields@) == page.take(i as int).filter_map(pick),
        decreases inputs.len() - i,
    {
        let input = &inputs[i];
        assert(page[i as int] == input@);
        let ghost before = fields@;
        match &input.name {
            None => {
                return Err(ScrapeError::MissingName);
            },
            Some(name) => {
                if same_text(name.as_str(), "PlanStudenta$CalendarICalExportButton_input") {
                    let field = FormField {
                        name: name.clone(),
                        value: "Eksportuj do iCalendar".to_owned(),
                    };
                    assert(Some(field@) == export_field(input@));
                    fields.push(field);
                    assert(field_views(fields@) =~= field_views(before).push(field@));
                    button_seen = true;
                } else if is_hidden(input) {
                    let field = FormField { name: name.clone(), value: value_of(input) };
                    assert(Some(field@) == export_field(input@));
                    fields.push(field);
                    assert(field_views(fields@) =~= field_views(before).push(field@));
                } else {
                    assert(export_field(input@) is None);
                }
            },
        }
        proof {
            page.lemma_filter_map_take_succ(pick, i as int);
            lemma_button_take_succ(page, i as int);
        }
        i += 1;
    }
    assert(page.take(i as int) =~= page);
    assert(!has_nameless(page));
    if button_seen {
        Ok(fields)
    } else {
        Err(ScrapeError::MissingExportButton)
    }
}

/// Whether the input's type is `hidden`.
fn is_hidden(input: &InputElement) -> (r: bool)
    ensures
        r == (input@.kind == Some("hidden"@)),
{
    match &input.kind {
        Some(kind) => same_text(kind.as_str(), "hidden"),
        None => false,
    }
}

/// The button is among the first `i + 1` inputs where it is among the first
/// `i` or is the one after them.
proof fn lemma_button_take_succ(page: Seq<InputView>, i: int)
    requires
        0 <= i < page.len(),
    ensures
        has_export_button(page.take(i + 1)) == (has_export_button(page.take(i)) || page[i].name
            == Some(export_button())),
{
    let shorter = page.take(i);
    let longer = page.take(i + 1);
    if has_export_button(shorter) {
        let k = choose|k: int| 0 <= k < shorter.len() && (#[trigger] shorter[k]).name == Some(
            export_button(),
        );
        assert(longer[k] == shorter[k]);
    }
    if page[i].name == Some(export_button()) {
        assert(longer[i] == page[i]);
    }
    if has_export_button(longer) {
        let k = choose|k: int| 0 <= k < longer.len() && (#[trigger] longer[k]).name == Some(
            export_button(),
        );
        if k < i {
            assert(shorter[k] == longer[k]);
        }
    }
}

/// The action that opens the conversation, to be taken in state
/// [`ScrapeState::Init`].
pub fn start() -> (r: (ScrapeState, Action))
    ensures
        r.0 == ScrapeState::Init,
        r.1@ == ActionView::FetchLoginPage,
{
    (ScrapeState::Init, Action::FetchLoginPage)
}

/// Gives up the conversation.
fn fail(error: ScrapeError) -> (r: (ScrapeState, Action))
    ensures
        (r.0, r.1@) == failure(error),
{
    (ScrapeState::Failed, Action::Abort { error })
}

/// Whether a status code reports success.
pub fn status_ok(status: u16) -> (r: bool)
    ensures
        r == is_success(status),
{
    200 <= status && status <= 299
}

/// Decides what follows a page whose inputs have been read.
///
/// With `login` set the page is taken as the login page and answered with
/// the login form; otherwise as the page after login, answered with the
/// export form.
pub fn answer_page(
    status: u16,
    inputs: Option<Vec<InputElement>>,
    username: &str,
    password: &str,
    login: bool,
) -> (r: (ScrapeState, Action))
    ensures
        (r.0, r.1@) == after_page(
            status,
            match inputs {
                None => None,
                Some(found) => Some(
                    if login {
                        login_form_of(input_views(found@), username@, password@)
                    } else {
                        export_form_of(input_views(found@))
                    },
                ),
            },
            login,
        ),
{
    if !status_ok(status) {
        return fail(ScrapeError::Status(status));
    }
    match inputs {
        None => fail(ScrapeError::Selector),
        Some(found) => {
            let form = if login {
                login_form(&found, username, password)
            } else {
                export_form(&found)
            };
            match form {
                Err(e) => fail(e),
                Ok(fields) => if login {
                    (ScrapeState::GotLoginForm, Action::SubmitLogin { fields })
                } else {
                    (ScrapeState::Authenticated, Action::RequestExport { fields })
                },
            }
        },
    }
}

/// Takes the reply to the last action and decides the next one.
///
/// - In `Init` the reply is the login page: on success the login form is
///   sent and the state is `GotLoginForm`.
/// - In `GotLoginForm` the reply is the page after login: on success the
///   export form is sent and the state is `Authenticated`.
/// - In `Authenticated` the reply is the feed: on success the conversation
///   finishes with its bytes in state `ExportedBytes`.
///
/// A failed exchange, a status that is no success, a page whose form cannot
/// be built and a reply of the wrong kind all end the conversation in
/// `Failed`; nothing is tried twice.
pub fn step(state: ScrapeState, reply: Reply, username: &str, password: &str) -> (r: (
    ScrapeState,
    Action,
))
    ensures
        (r.0, r.1@) == next_step(state, reply@, username@, password@),
{
    match state {
        ScrapeState::ExportedBytes => fail(ScrapeError::UnexpectedReply),
        ScrapeState::Failed => fail(ScrapeError::UnexpectedReply),
        ScrapeState::Init => match reply {
            Reply::Failed => fail(ScrapeError::Transport),
            Reply::Page { status, text } => {
                let inputs = read_inputs(text.as_str());
                answer_page(status, inputs, username, password, true)
            },
            Reply::Payload { .. } => fail(ScrapeError::UnexpectedReply),
        },
        ScrapeState::GotLoginForm => match reply {
            Reply::Failed => fail(ScrapeError::Transport),
            Reply::Page { status, text } => {
                let inputs = read_inputs(text.as_str());
                answer_page(status, inputs, username, password, false)
            },
            Reply::Payload { .. } => fail(ScrapeError::UnexpectedReply),
        },
        ScrapeState::Authenticated => match reply {
            Reply::Failed => fail(ScrapeError::Transport),
            Reply::Page { .. } => fail(ScrapeError::UnexpectedReply),
            Reply::Payload { status, bytes } => {
                if status_ok(status) {
                    (ScrapeState::ExportedBytes, Action::Finish { feed: bytes })
                } else {
                    fail(ScrapeError::Status(status))
                }
            },
        },
    }
}

/// The address of the login page.
pub fn login_address() -> (r: &'static str)
    ensures
        r@ == login_url(),
{
    "https://planzajec.pjwstk.edu.pl/Logowanie.aspx"
}

/// The address of the timetable page.
pub fn export_address() -> (r: &'static str)
    ensures
        r@ == export_url(),
{
    "https://planzajec.pjwstk.edu.pl/TwojPlan.aspx"
}

} // verus!

//! The rules of the integration with a remote task database: which keys to
//! use, what an answer of the user means for a property, and how a request is
//! addressed. The requests and the prompts themselves are the caller's.

use vstd::prelude::*;
use uuid::Uuid;
use uuid::Version;
use crate::date::{date_of_text, date_text, CalendarDate};
use crate::helpers::AppError;
use crate::notion_props::{
    PropertyKind, SendCheckbox, SendDate, SendInnerDate, SendInnerText, SendRelation,
    SendRelationId, SendText, SendTitle,
};
use crate::text::{
    lowercase_of, lowercase_text, same_text, split_commas, split_on, split_trimmed, texts,
    trim_text, trimmed, trimmed_pieces,
};

verus! {

/// What `uuid` makes of a text: nothing where it is no UUID, and otherwise
/// whether the UUID is of the random version.
pub uninterp spec fn random_uuid(s: Seq<char>) -> Option<bool>;

/// `uuid`'s `Uuid::parse_str`, and for a text that is a UUID whether
/// `get_version` gives the random version. Unverified: the contract only names
/// the result.
#[verifier::external_body]
fn uuid_is_random(s: &str) -> (r: Option<bool>)
    ensures
        r == random_uuid(s@),
{
    match Uuid::parse_str(s) {
        Ok(u) => Some(u.get_version() == Some(Version::Random)),
        Err(_) => None,
    }
}

/// The keys of the remote database.
#[derive(Debug)]
pub struct NotionKeys {
    pub api_key: String,
    pub database_id: String,
}

/// The tasks that were sent to the remote database.
#[derive(Debug)]
pub struct NotionManager {
    pub tasks: Vec<String>,
}

/// The address and the credentials of the remote database.
#[derive(Debug)]
pub struct NotionApi {
    api_key: String,
    database_id: String,
}

/// What to do to have the keys.
#[derive(Debug)]
pub enum KeyPlan {
    /// Use these keys: the API key, then the database id.
    Use(String, String),
    /// Ask the user for keys, after reporting the error if there is one.
    Ask(Option<AppError>),
}

/// What the status of a response means.
#[derive(Clone, Copy, Debug, PartialEq, Eq, Structural)]
pub enum ResponseKind {
    /// Status 200: the body holds the answer.
    Success,
    /// Status 400: the body holds the reason.
    BadRequest,
    /// Any other status.
    Unexpected,
}

/// The truth value of an answer in lower case: `true` and `y` mean yes,
/// `false` and `n` mean no, and anything else is no answer.
pub open spec fn answer_of(lowered: Seq<char>) -> Option<bool> {
    if lowered == "true"@ || lowered == "y"@ {
        Some(true)
    } else if lowered == "false"@ || lowered == "n"@ {
        Some(false)
    } else {
        None
    }
}

/// Whether every piece between the commas of a text is, once trimmed, a UUID
/// of the random version, and none is empty.
pub open spec fn valid_relations(s: Seq<char>) -> bool {
    forall|i: int|
        0 <= i < split_on(s, ',').len() ==> (#[trigger] split_on(s, ',')[i]).len() > 0
            && random_uuid(trimmed(split_on(s, ',')[i])) == Some(true)
}

/// The truth value of an answer that is in lower case already.
pub fn answer_value(lowered: &str) -> (r: Result<bool, &'static str>)
    ensures
        r.is_ok() == answer_of(lowered@).is_some(),
        r.is_ok() ==> answer_of(lowered@) == Some(r.unwrap()),
        r.is_err() ==> r.unwrap_err()@ == "Invalid input"@,
{
    if same_text(lowered, "true") || same_text(lowered, "y") {
        Ok(true)
    } else if same_text(lowered, "false") || same_text(lowered, "n") {
        Ok(false)
    } else {
        Err("Invalid input")
    }
}

/// The truth value of an answer, in any case of letters.
pub fn parse_bool(input: &str) -> (r: Result<bool, &'static str>)
    ensures
        r.is_ok() == answer_of(lowercase_of(input@)).is_some(),
        r.is_ok() ==> answer_of(lowercase_of(input@)) == Some(r.unwrap()),
        r.is_err() ==> r.unwrap_err()@ == "Invalid input"@,
{
    let lowered = lowercase_text(input);
    answer_value(lowered.as_str())
}

/// Whether a text is a list of random UUIDs between commas.
pub fn is_valid_relation_input(input: &str) -> (r: bool)
    ensures
        r == valid_relations(input@),
{
    let pieces = split_commas(input);
    let mut i: usize = 0;
    while i < pieces.len()
        invariant
            i <= pieces.len(),
            texts(pieces@) == split_on(input@, ','),
            forall|k: int|
                0 <= k < i ==> (#[trigger] split_on(input@, ',')[k]).len() > 0 && random_uuid(
                    trimmed(split_on(input@, ',')[k]),
                ) == Some(true),
        decreases pieces.len() - i,
    {
        let piece = pieces[i].as_str();
        assert(texts(pieces@)[i as int] == piece@);
        if piece.is_empty() {
            return false;
        }
        match uuid_is_random(trim_text(piece)) {
            Some(true) => {},
            _ => {
                return false;
            },
        }
        i += 1;
    }
    true
}

/// The kind of a property, by the name of its type.
pub fn property_kind(label: &str) -> (k: PropertyKind)
    ensures
        k == if label@ == "title"@ {
            PropertyKind::Title
        } else if label@ == "checkbox"@ {
            PropertyKind::Checkbox
        } else if label@ == "date"@ {
            PropertyKind::Date
        } else if label@ == "relation"@ {
            PropertyKind::Relation
        } else {
            PropertyKind::Other
        },
{
    if same_text(label, "title") {
        PropertyKind::Title
    } else if same_text(label, "checkbox") {
        PropertyKind::Checkbox
    } else if same_text(label, "date") {
        PropertyKind::Date
    } else if same_text(label, "relation") {
        PropertyKind::Relation
    } else {
        PropertyKind::Other
    }
}

/// The title property of a page with this title.
pub fn title_property(title: &str) -> (t: SendTitle)
    ensures
        t.title@.len() == 1,
        t.title@[0].text.content@ == title@,
{
    let mut pieces: Vec<SendText> = Vec::new();
    pieces.push(SendText { text: SendInnerText { content: String::from_str(title) } });
    SendTitle { title: pieces }
}

/// The checkbox that an answer sets: unticked for an empty answer, ticked or
/// unticked as the answer says, and nothing for an answer that says neither,
/// so that the user is asked again.
pub fn checkbox_answer(input: &str) -> (r: Option<SendCheckbox>)
    ensures
        r.is_some() == (input@.len() == 0 || answer_of(lowercase_of(input@)).is_some()),
        r.is_some() ==> r.unwrap().checkbox == (input@.len() != 0 && answer_of(
            lowercase_of(input@),
        ) == Some(true)),
{
    if input.is_empty() {
        return Some(SendCheckbox { checkbox: false });
    }
    match parse_bool(input) {
        Ok(value) => Some(SendCheckbox { checkbox: value }),
        Err(_) => None,
    }
}

/// The date that an answer sets: the date written in it, where the answer is
/// a date and is written exactly as that date is written; nothing otherwise,
/// so that the user is asked again.
pub fn date_answer(input: &str) -> (r: Option<SendDate>)
    ensures
        r.is_some() == (date_of_text(input@).is_some() && date_text(
            date_of_text(input@).unwrap(),
        ) == input@),
        r.is_some() ==> r.unwrap().date.start@ == input@ && r.unwrap().date.end.is_none(),
{
    match CalendarDate::parse(input) {
        Some(date) => {
            let iso = date.to_text();
            if same_text(iso.as_str(), input) {
                Some(SendDate { date: SendInnerDate { start: iso, end: None } })
            } else {
                None
            }
        },
        None => None,
    }
}

/// The references that an answer sets: none for an empty answer, the trimmed
/// pieces of a list of random UUIDs, and nothing for any other answer, so that
/// the user is asked again.
pub fn relation_answer(input: &str) -> (r: Option<SendRelation>)
    ensures
        r.is_some() == (input@.len() == 0 || valid_relations(input@)),
        r.is_some() && input@.len() == 0 ==> r.unwrap().relation@.len() == 0,
        r.is_some() && input@.len() != 0 ==> r.unwrap().relation@.len() == trimmed_pieces(
            input@,
        ).len() && forall|i: int|
            0 <= i < r.unwrap().relation@.len() ==> (#[trigger] r.unwrap().relation@[i]).id@
                == trimmed_pieces(input@)[i],
{
    let mut ids: Vec<SendRelationId> = Vec::new();
    if input.is_empty() {
        return Some(SendRelation { relation: ids });
    }
    if !is_valid_relation_input(input) {
        return None;
    }
    let pieces = split_trimmed(input);
    let mut i: usize = 0;
    while i < pieces.len()
        invariant
            i <= pieces.len(),
            ids@.len() == i,
            forall|k: int| 0 <= k < i ==> (#[trigger] ids@[k]).id@ == texts(pieces@)[k],
        decreases pieces.len() - i,
    {
        assert(texts(pieces@)[i as int] == pieces@[i as int]@);
        ids.push(SendRelationId { id: pieces[i].clone() });
        i += 1;
    }
    Some(SendRelation { relation: ids })
}

/// The keys of a stored configuration, if both are there: a configuration in
/// which one of them is empty cannot be used.
pub fn read_and_parse_config(keys: NotionKeys) -> (r: Result<(String, String), AppError>)
    ensures
        r.is_ok() == (keys.api_key@.len() > 0 && keys.database_id@.len() > 0),
        r.is_ok() ==> r.unwrap().0@ == keys.api_key@ && r.unwrap().1@ == keys.database_id@,
        r.is_err() ==> r.unwrap_err() == AppError::ConfigReadError,
{
    if keys.api_key.as_str().is_empty() || keys.database_id.as_str().is_empty() {
        Err(AppError::ConfigReadError)
    } else {
        Ok((keys.api_key, keys.database_id))
    }
}

/// What to do to have the keys, given what was found of the stored
/// configuration: nothing, keys, or an error. Stored keys are used; without a
/// configuration the user is asked; after an error the error is reported and
/// the user is asked.
pub fn get_notion_keys(stored: Option<Result<(String, String), AppError>>) -> (plan: KeyPlan)
    ensures
        plan == match stored {
            Some(Ok(keys)) => KeyPlan::Use(keys.0, keys.1),
            Some(Err(e)) => KeyPlan::Ask(Some(e)),
            None => KeyPlan::Ask(None),
        },
{
    match stored {
        Some(Ok(keys)) => KeyPlan::Use(keys.0, keys.1),
        Some(Err(e)) => KeyPlan::Ask(Some(e)),
        None => KeyPlan::Ask(None),
    }
}

/// What the status of a response means.
pub fn response_kind(status: u16) -> (k: ResponseKind)
    ensures
        k == if status == 200 {
            ResponseKind::Success
        } else if status == 400 {
            ResponseKind::BadRequest
        } else {
            ResponseKind::Unexpected
        },
{
    if status == 200 {
        ResponseKind::Success
    } else if status == 400 {
        ResponseKind::BadRequest
    } else {
        ResponseKind::Unexpected
    }
}

/// The error for a response whose status was not expected.
pub fn unexpected_status(status: &str) -> (e: AppError)
    ensures
        e.message() == "Unknown error: "@
            + "Notion API returned an unexpected response status: "@ + status@,
{
    let e = AppError::UnknownError(
        String::from_str("Notion API returned an unexpected response status: ").concat(status),
    );
    assert(e.message() =~= "Unknown error: "@
        + "Notion API returned an unexpected response status: "@ + status@);
    e
}

impl NotionManager {
    /// A manager that has sent nothing yet.
    pub fn new() -> (m: NotionManager)
        ensures
            m.tasks@.len() == 0,
    {
        NotionManager { tasks: Vec::new() }
    }
}

impl NotionApi {
    /// The API with these keys.
    pub fn new(api_key: &str, database_id: &str) -> (api: NotionApi)
        ensures
            api.api_key() == api_key@,
            api.database_id() == database_id@,
    {
        NotionApi {
            api_key: String::from_str(api_key),
            database_id: String::from_str(database_id),
        }
    }

    /// The API key.
    pub closed spec fn api_key(&self) -> Seq<char> {
        self.api_key@
    }

    /// The id of the database.
    pub closed spec fn database_id(&self) -> Seq<char> {
        self.database_id@
    }

    /// The id of the database.
    pub fn database(&self) -> (r: &str)
        ensures
            r@ == self.database_id(),
    {
        self.database_id.as_str()
    }

    /// The value of the authorization header.
    pub fn bearer_token(&self) -> (r: String)
        ensures
            r@ == "Bearer "@ + self.api_key(),
    {
        String::from_str("Bearer ").concat(self.api_key.as_str())
    }

    /// The address to which a query of the database is sent.
    pub fn query_url(&self) -> (r: String)
        ensures
            r@ == "https://api.notion.com/v1/databases/"@ + self.database_id() + "/query"@,
    {
        String::from_str("https://api.notion.com/v1/databases/").concat(
            self.database_id.as_str(),
        ).concat("/query")
    }
}

} // verus!

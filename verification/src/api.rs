//! Requests to the Chiral service and the interpretation of its replies.
//!
//! Every call of the service sends one JSON text, keyed by the name of an
//! endpoint, together with the user's e-mail and authentication token as
//! gRPC metadata, and gets back a reply text and an error text. This module
//! builds the request texts, checks the metadata, and reads the reply; the
//! transport itself is the caller's.
use vstd::prelude::*;
use vstd::string::*;
use serde_json::{Error, Value};
use crate::json::{json_member, json_member_value, json_parsed, json_quote, json_string_text, parse_json};
use crate::metadata::{is_metadata_text, metadata_value_accepts};
use crate::session::string_views;
use crate::text::{decimal, decimal_text, is_blank, is_blank_text, starts_with};

verus! {

/// The endpoints of the service that this client calls.
#[derive(Clone, Copy, Debug, PartialEq, Eq, Structural)]
pub enum Endpoint {
    GetCreditPoints,
    SubmitTestJob,
    GetJobs,
    GetJob,
    SubmitJob,
    ListOfProjects,
    ListOfExampleProjects,
    ListOfProjectFiles,
    ImportExampleProject,
    GetProjectFile,
}

pub open spec fn endpoint_name(e: Endpoint) -> Seq<char> {
    match e {
        Endpoint::GetCreditPoints => "GetCreditPoints"@,
        Endpoint::SubmitTestJob => "SubmitTestJob"@,
        Endpoint::GetJobs => "GetJobs"@,
        Endpoint::GetJob => "GetJob"@,
        Endpoint::SubmitJob => "SubmitJob"@,
        Endpoint::ListOfProjects => "ListOfProjects"@,
        Endpoint::ListOfExampleProjects => "ListOfExampleProjects"@,
        Endpoint::ListOfProjectFiles => "ListOfProjectFiles"@,
        Endpoint::ImportExampleProject => "ImportExampleProject"@,
        Endpoint::GetProjectFile => "GetProjectFile"@,
    }
}

impl Endpoint {
    /// The name under which the service knows the endpoint; it keys both
    /// the request and the reply.
    pub fn name(&self) -> (r: String)
        ensures
            r@ == endpoint_name(*self),
    {
        match self {
            Endpoint::GetCreditPoints => String::from_str("GetCreditPoints"),
            Endpoint::SubmitTestJob => String::from_str("SubmitTestJob"),
            Endpoint::GetJobs => String::from_str("GetJobs"),
            Endpoint::GetJob => String::from_str("GetJob"),
            Endpoint::SubmitJob => String::from_str("SubmitJob"),
            Endpoint::ListOfProjects => String::from_str("ListOfProjects"),
            Endpoint::ListOfExampleProjects => String::from_str("ListOfExampleProjects"),
            Endpoint::ListOfProjectFiles => String::from_str("ListOfProjectFiles"),
            Endpoint::ImportExampleProject => String::from_str("ImportExampleProject"),
            Endpoint::GetProjectFile => String::from_str("GetProjectFile"),
        }
    }
}

/// Why a call of the service did not give a value.
#[derive(Debug)]
pub enum ApiError {
    /// The e-mail or the token cannot be sent as gRPC ASCII metadata.
    InvalidMetadata,
    /// serde_json failed to encode a request or to parse a reply.
    Json(Error),
    /// The reply parsed, but holds no member named after the endpoint.
    MissingEndpointData,
    /// The reply was empty and the service reported an error; the text is
    /// `Server error: ` followed by the service's error text.
    Server(String),
    /// Both the reply and the error text were empty.
    UnexpectedEmptyResponse,
}

// ---------------------------------------------------------------------------
// Request texts
// ---------------------------------------------------------------------------

/// A text between double quotes, as the requests embed names (no escaping).
pub open spec fn quoted(s: Seq<char>) -> Seq<char> {
    "\""@ + s + "\""@
}

/// `{"<endpoint>": null}`
pub open spec fn null_request(e: Endpoint) -> Seq<char> {
    "{"@ + quoted(endpoint_name(e)) + ": null}"@
}

/// `{"<endpoint>": <argument>}`
pub open spec fn argument_request(e: Endpoint, argument: Seq<char>) -> Seq<char> {
    "{"@ + quoted(endpoint_name(e)) + ": "@ + argument + "}"@
}

/// `[<a>, <b>]`
pub open spec fn pair_text(a: Seq<char>, b: Seq<char>) -> Seq<char> {
    "["@ + a + ", "@ + b + "]"@
}

/// Texts joined by commas.
pub open spec fn join_commas(items: Seq<Seq<char>>) -> Seq<char>
    decreases items.len(),
{
    if items.len() == 0 {
        Seq::empty()
    } else if items.len() == 1 {
        items[0]
    } else {
        join_commas(items.drop_last()) + ","@ + items.last()
    }
}

/// The compact JSON array of already encoded elements.
pub open spec fn array_text(encoded: Seq<Seq<char>>) -> Seq<char> {
    "["@ + join_commas(encoded) + "]"@
}

/// The compact JSON array of the given strings, as serde_json writes a
/// slice of strings: each string's literal, joined by commas, in brackets.
pub open spec fn json_array_text(items: Seq<Seq<char>>) -> Seq<char> {
    array_text(items.map_values(|s: Seq<char>| json_string_text(s)))
}

/// `{"SubmitTestJob":[<job>,<index>]}` for an encoded job type.
pub open spec fn submit_test_job_frame(job: Seq<char>, index: u32) -> Seq<char> {
    "{\"SubmitTestJob\":["@ + job + ","@ + decimal(index as nat) + "]}"@
}

pub open spec fn credit_points_text() -> Seq<char> {
    null_request(Endpoint::GetCreditPoints)
}

pub open spec fn list_of_projects_text() -> Seq<char> {
    null_request(Endpoint::ListOfProjects)
}

pub open spec fn list_of_example_projects_text() -> Seq<char> {
    null_request(Endpoint::ListOfExampleProjects)
}

pub open spec fn list_of_project_files_text(project_name: Seq<char>) -> Seq<char> {
    argument_request(Endpoint::ListOfProjectFiles, quoted(project_name))
}

pub open spec fn import_example_project_text(project_name: Seq<char>) -> Seq<char> {
    argument_request(Endpoint::ImportExampleProject, quoted(project_name))
}

pub open spec fn get_project_file_text(project_name: Seq<char>, file_name: Seq<char>) -> Seq<char> {
    argument_request(Endpoint::GetProjectFile, pair_text(quoted(project_name), quoted(file_name)))
}

pub open spec fn get_job_text(job_id: Seq<char>) -> Seq<char> {
    argument_request(Endpoint::GetJob, quoted(job_id))
}

pub open spec fn get_jobs_text(offset: u32, count_per_page: u32) -> Seq<char> {
    argument_request(Endpoint::GetJobs, pair_text(decimal(offset as nat), decimal(count_per_page as nat)))
}

/// `{"SubmitTestJob":[<job type as JSON>,<index>]}`, the compact text of the
/// JSON object `{"SubmitTestJob": [job_type_name, index]}`.
pub open spec fn submit_test_job_text(job_type_name: Seq<char>, index: u32) -> Seq<char> {
    submit_test_job_frame(json_string_text(job_type_name), index)
}

/// `{"SubmitJob": ["<command>", "<project>", <inputs>, <outputs>]}` with the
/// file lists as compact JSON arrays.
pub open spec fn submit_job_text(
    command_string: Seq<char>,
    project_name: Seq<char>,
    input_files: Seq<Seq<char>>,
    output_files: Seq<Seq<char>>,
) -> Seq<char> {
    argument_request(
        Endpoint::SubmitJob,
        "["@ + quoted(command_string) + ", "@ + quoted(project_name) + ", "@ + json_array_text(input_files)
            + ", "@ + json_array_text(output_files) + "]"@,
    )
}

/// Every request names its endpoint first, as the key of a JSON object: the
/// name under which its reply is read.
pub proof fn lemma_requests_keyed(e: Endpoint, argument: Seq<char>)
    ensures
        starts_with(null_request(e), "{"@ + quoted(endpoint_name(e))),
        starts_with(argument_request(e, argument), "{"@ + quoted(endpoint_name(e))),
{
    let key = "{"@ + quoted(endpoint_name(e));
    assert(null_request(e).subrange(0, key.len() as int) =~= key);
    assert(argument_request(e, argument).subrange(0, key.len() as int) =~= key);
}

pub open spec fn str_views(items: Seq<&str>) -> Seq<Seq<char>> {
    items.map_values(|s: &str| s@)
}

// ---------------------------------------------------------------------------
// Building request texts
// ---------------------------------------------------------------------------

fn quoted_text(s: &str) -> (r: String)
    ensures
        r@ == quoted(s@),
{
    let mut r = String::from_str("\"");
    r.append(s);
    r.append("\"");
    r
}

fn null_request_text(e: Endpoint) -> (r: String)
    ensures
        r@ == null_request(e),
{
    let mut r = String::from_str("{");
    let name = e.name();
    let q = quoted_text(name.as_str());
    r.append(q.as_str());
    r.append(": null}");
    r
}

fn argument_request_text(e: Endpoint, argument: &str) -> (r: String)
    ensures
        r@ == argument_request(e, argument@),
{
    let mut r = String::from_str("{");
    let name = e.name();
    let q = quoted_text(name.as_str());
    r.append(q.as_str());
    r.append(": ");
    r.append(argument);
    r.append("}");
    r
}

fn pair(a: &str, b: &str) -> (r: String)
    ensures
        r@ == pair_text(a@, b@),
{
    let mut r = String::from_str("[");
    r.append(a);
    r.append(", ");
    r.append(b);
    r.append("]");
    r
}

/// The compact JSON array of already encoded elements: `[`, the elements
/// joined by commas, `]`.
pub fn array_from(encoded: &Vec<String>) -> (r: String)
    ensures
        r@ == array_text(string_views(encoded@)),
{
    let ghost views = string_views(encoded@);
    let mut r = String::from_str("[");
    let mut i: usize = 0;
    assert(views.subrange(0, 0) =~= Seq::<Seq<char>>::empty());
    while i < encoded.len()
        invariant
            views == string_views(encoded@),
            i <= encoded.len(),
            r@ == "["@ + join_commas(views.subrange(0, i as int)),
        decreases encoded.len() - i,
    {
        let ghost before = r@;
        if i > 0 {
            r.append(",");
        }
        r.append(encoded[i].as_str());
        proof {
            let next = views.subrange(0, i + 1);
            assert(next.drop_last() =~= views.subrange(0, i as int));
            assert(next.last() == encoded@[i as int]@);
            if i == 0 {
                assert(join_commas(next) == next[0]);
                assert(r@ =~= "["@ + join_commas(next));
            } else {
                assert(r@ =~= "["@ + join_commas(next));
            }
        }
        i = i + 1;
    }
    assert(views.subrange(0, encoded.len() as int) =~= views);
    r.append("]");
    r
}

/// The compact JSON array of `items`, each string encoded by serde_json.
pub fn json_array(items: &[&str]) -> (r: Result<String, Error>)
    ensures
        r matches Ok(t) && t@ == json_array_text(str_views(items@)),
{
    let ghost views = str_views(items@);
    let mut encoded: Vec<String> = Vec::new();
    let mut i: usize = 0;
    while i < items.len()
        invariant
            views == str_views(items@),
            views.len() == items@.len(),
            i <= items.len(),
            encoded@.len() == i,
            forall|k: int| 0 <= k < i ==> encoded@[k]@ == #[trigger] json_string_text(views[k]),
        decreases items.len() - i,
    {
        assert(views[i as int] == items@[i as int]@);
        let t = json_quote(items[i])?;
        encoded.push(t);
        i = i + 1;
    }
    let ghost encs = views.map_values(|s: Seq<char>| json_string_text(s));
    assert(string_views(encoded@) =~= encs);
    Ok(array_from(&encoded))
}

/// The text of `submit_test_job` around an encoded job type.
pub fn submit_test_job_from(job: &str, index: u32) -> (r: String)
    ensures
        r@ == submit_test_job_frame(job@, index),
{
    let mut r = String::from_str("{\"SubmitTestJob\":[");
    r.append(job);
    r.append(",");
    let n = decimal_text(index);
    r.append(n.as_str());
    r.append("]}");
    r
}

/// The request text for the credit points.
pub fn credit_points_request_text() -> (r: String)
    ensures
        r@ == credit_points_text(),
{
    null_request_text(Endpoint::GetCreditPoints)
}

pub fn list_of_projects_request_text() -> (r: String)
    ensures
        r@ == list_of_projects_text(),
{
    null_request_text(Endpoint::ListOfProjects)
}

pub fn list_of_example_projects_request_text() -> (r: String)
    ensures
        r@ == list_of_example_projects_text(),
{
    null_request_text(Endpoint::ListOfExampleProjects)
}

pub fn list_of_project_files_request_text(project_name: &str) -> (r: String)
    ensures
        r@ == list_of_project_files_text(project_name@),
{
    let q = quoted_text(project_name);
    argument_request_text(Endpoint::ListOfProjectFiles, q.as_str())
}

pub fn import_example_project_request_text(project_name: &str) -> (r: String)
    ensures
        r@ == import_example_project_text(project_name@),
{
    let q = quoted_text(project_name);
    argument_request_text(Endpoint::ImportExampleProject, q.as_str())
}

pub fn get_project_file_request_text(project_name: &str, file_name: &str) -> (r: String)
    ensures
        r@ == get_project_file_text(project_name@, file_name@),
{
    let a = quoted_text(project_name);
    let b = quoted_text(file_name);
    let p = pair(a.as_str(), b.as_str());
    argument_request_text(Endpoint::GetProjectFile, p.as_str())
}

pub fn get_job_request_text(job_id: &str) -> (r: String)
    ensures
        r@ == get_job_text(job_id@),
{
    let q = quoted_text(job_id);
    argument_request_text(Endpoint::GetJob, q.as_str())
}

pub fn get_jobs_request_text(offset: u32, count_per_page: u32) -> (r: String)
    ensures
        r@ == get_jobs_text(offset, count_per_page),
{
    let a = decimal_text(offset);
    let b = decimal_text(count_per_page);
    let p = pair(a.as_str(), b.as_str());
    argument_request_text(Endpoint::GetJobs, p.as_str())
}

pub fn submit_test_job_request_text(job_type_name: &str, index: u32) -> (r: Result<String, Error>)
    ensures
        r matches Ok(t) && t@ == submit_test_job_text(job_type_name@, index),
{
    let job = json_quote(job_type_name)?;
    Ok(submit_test_job_from(job.as_str(), index))
}

pub fn submit_job_request_text(
    command_string: &str,
    project_name: &str,
    input_files: &[&str],
    output_files: &[&str],
) -> (r: Result<String, Error>)
    ensures
        r matches Ok(t) && t@ == submit_job_text(command_string@, project_name@, str_views(input_files@), str_views(output_files@)),
{
    let ins = json_array(input_files)?;
    let outs = json_array(output_files)?;
    let mut arg = String::from_str("[");
    let c = quoted_text(command_string);
    arg.append(c.as_str());
    arg.append(", ");
    let p = quoted_text(project_name);
    arg.append(p.as_str());
    arg.append(", ");
    arg.append(ins.as_str());
    arg.append(", ");
    arg.append(outs.as_str());
    arg.append("]");
    Ok(argument_request_text(Endpoint::SubmitJob, arg.as_str()))
}


// ---------------------------------------------------------------------------
// Requests with their metadata
// ---------------------------------------------------------------------------

/// A request ready to be sent: the JSON text and the two metadata values,
/// `user_id` (the e-mail) and `auth_token`, both checked to be sendable.
pub struct PreparedRequest {
    pub end_point: Endpoint,
    pub serialized_request: String,
    pub user_id: String,
    pub auth_token: String,
}

/// Attaches the e-mail and the token to a request text. The e-mail is
/// checked first, as it is inserted first; either failing gives
/// `InvalidMetadata`.
pub fn prepare_request(end_point: Endpoint, serialized_request: String, email: &str, token_auth: &str) -> (r: Result<PreparedRequest, ApiError>)
    ensures
        r is Ok <==> is_metadata_text(email@) && is_metadata_text(token_auth@),
        r matches Err(e) ==> e is InvalidMetadata,
        r matches Ok(p) ==> {
            &&& p.end_point == end_point
            &&& p.serialized_request@ == serialized_request@
            &&& p.user_id@ == email@
            &&& p.auth_token@ == token_auth@
        },
{
    if !metadata_value_accepts(email) {
        return Err(ApiError::InvalidMetadata);
    }
    if !metadata_value_accepts(token_auth) {
        return Err(ApiError::InvalidMetadata);
    }
    Ok(PreparedRequest {
        end_point,
        serialized_request,
        user_id: String::from_str(email),
        auth_token: String::from_str(token_auth),
    })
}

/// What a prepared request holds: the endpoint, the text and the metadata.
pub open spec fn prepared_as(r: Result<PreparedRequest, ApiError>, end_point: Endpoint, text: Seq<char>, email: Seq<char>, token_auth: Seq<char>) -> bool {
    &&& r is Ok <==> is_metadata_text(email) && is_metadata_text(token_auth)
    &&& r matches Err(e) ==> e is InvalidMetadata
    &&& r matches Ok(p) ==> {
        &&& p.end_point == end_point
        &&& p.serialized_request@ == text
        &&& p.user_id@ == email
        &&& p.auth_token@ == token_auth
    }
}

/// The request of `get_credit_points`.
pub fn credit_points_request(email: &str, token_auth: &str) -> (r: Result<PreparedRequest, ApiError>)
    ensures
        prepared_as(r, Endpoint::GetCreditPoints, credit_points_text(), email@, token_auth@),
{
    prepare_request(Endpoint::GetCreditPoints, credit_points_request_text(), email, token_auth)
}

/// The request of `list_of_projects`.
pub fn list_of_projects_request(email: &str, token_auth: &str) -> (r: Result<PreparedRequest, ApiError>)
    ensures
        prepared_as(r, Endpoint::ListOfProjects, list_of_projects_text(), email@, token_auth@),
{
    prepare_request(Endpoint::ListOfProjects, list_of_projects_request_text(), email, token_auth)
}

/// The request of `list_of_example_projects`.
pub fn list_of_example_projects_request(email: &str, token_auth: &str) -> (r: Result<PreparedRequest, ApiError>)
    ensures
        prepared_as(r, Endpoint::ListOfExampleProjects, list_of_example_projects_text(), email@, token_auth@),
{
    prepare_request(Endpoint::ListOfExampleProjects, list_of_example_projects_request_text(), email, token_auth)
}

/// The request of `list_of_project_files`.
pub fn list_of_project_files_request(email: &str, token_auth: &str, project_name: &str) -> (r: Result<PreparedRequest, ApiError>)
    ensures
        prepared_as(r, Endpoint::ListOfProjectFiles, list_of_project_files_text(project_name@), email@, token_auth@),
{
    prepare_request(Endpoint::ListOfProjectFiles, list_of_project_files_request_text(project_name), email, token_auth)
}

/// The request of `import_example_project`.
pub fn import_example_project_request(email: &str, token_auth: &str, project_name: &str) -> (r: Result<PreparedRequest, ApiError>)
    ensures
        prepared_as(r, Endpoint::ImportExampleProject, import_example_project_text(project_name@), email@, token_auth@),
{
    prepare_request(Endpoint::ImportExampleProject, import_example_project_request_text(project_name), email, token_auth)
}

/// The request of `get_project_files`.
pub fn get_project_files_request(email: &str, token_auth: &str, project_name: &str, file_name: &str) -> (r: Result<PreparedRequest, ApiError>)
    ensures
        prepared_as(r, Endpoint::GetProjectFile, get_project_file_text(project_name@, file_name@), email@, token_auth@),
{
    prepare_request(Endpoint::GetProjectFile, get_project_file_request_text(project_name, file_name), email, token_auth)
}

/// The request of `get_job`.
pub fn get_job_request(email: &str, token_auth: &str, job_id: &str) -> (r: Result<PreparedRequest, ApiError>)
    ensures
        prepared_as(r, Endpoint::GetJob, get_job_text(job_id@), email@, token_auth@),
{
    prepare_request(Endpoint::GetJob, get_job_request_text(job_id), email, token_auth)
}

/// The request of `get_jobs`.
pub fn get_jobs_request(email: &str, token_auth: &str, offset: u32, count_per_page: u32) -> (r: Result<PreparedRequest, ApiError>)
    ensures
        prepared_as(r, Endpoint::GetJobs, get_jobs_text(offset, count_per_page), email@, token_auth@),
{
    prepare_request(Endpoint::GetJobs, get_jobs_request_text(offset, count_per_page), email, token_auth)
}

/// The request of `submit_test_job`.
pub fn submit_test_job_request(email: &str, token_auth: &str, job_type_name: &str, index: u32) -> (r: Result<PreparedRequest, ApiError>)
    ensures
        prepared_as(r, Endpoint::SubmitTestJob, submit_test_job_text(job_type_name@, index), email@, token_auth@),
{
    match submit_test_job_request_text(job_type_name, index) {
        Ok(text) => prepare_request(Endpoint::SubmitTestJob, text, email, token_auth),
        Err(e) => Err(ApiError::Json(e)),
    }
}

/// The request of `submit_job`.
pub fn submit_job_request(
    email: &str,
    token_auth: &str,
    command_string: &str,
    project_name: &str,
    input_files: &[&str],
    output_files: &[&str],
) -> (r: Result<PreparedRequest, ApiError>)
    ensures
        prepared_as(
            r,
            Endpoint::SubmitJob,
            submit_job_text(command_string@, project_name@, str_views(input_files@), str_views(output_files@)),
            email@,
            token_auth@,
        ),
{
    match submit_job_request_text(command_string, project_name, input_files, output_files) {
        Ok(text) => prepare_request(Endpoint::SubmitJob, text, email, token_auth),
        Err(e) => Err(ApiError::Json(e)),
    }
}

// ---------------------------------------------------------------------------
// Replies
// ---------------------------------------------------------------------------

/// The two texts the service answers with.
pub struct ServerReply {
    pub serialized_reply: String,
    pub error: String,
}

/// How a reply is read, without the value it may carry.
pub enum ReplyOutcome {
    /// The reply holds a member named after the endpoint: its value.
    Value(Value),
    /// The reply is no JSON document.
    InvalidJson,
    MissingEndpointData,
    /// The service's error, with the message that reports it.
    Server(Seq<char>),
    UnexpectedEmptyResponse,
}

/// The reading of a reply to a request at `end_point`: a non-blank reply
/// text decides, whatever the error text says; else a non-blank error text
/// is reported; else the answer was empty.
pub open spec fn reply_outcome(end_point: Endpoint, reply: Seq<char>, error: Seq<char>) -> ReplyOutcome {
    if !is_blank(reply) {
        match json_parsed(reply) {
            None => ReplyOutcome::InvalidJson,
            Some(v) => match json_member_value(v, endpoint_name(end_point)) {
                Some(m) => ReplyOutcome::Value(m),
                None => ReplyOutcome::MissingEndpointData,
            },
        }
    } else if !is_blank(error) {
        ReplyOutcome::Server("Server error: "@ + error)
    } else {
        ReplyOutcome::UnexpectedEmptyResponse
    }
}

/// Whether a result is the one the outcome describes.
pub open spec fn result_matches(r: Result<Value, ApiError>, o: ReplyOutcome) -> bool {
    match o {
        ReplyOutcome::Value(m) => r matches Ok(x) && x == m,
        ReplyOutcome::InvalidJson => r matches Err(e) && e is Json,
        ReplyOutcome::MissingEndpointData => r matches Err(e) && e is MissingEndpointData,
        ReplyOutcome::Server(msg) => r matches Err(e) && e matches ApiError::Server(m) && m@ == msg,
        ReplyOutcome::UnexpectedEmptyResponse => r matches Err(e) && e is UnexpectedEmptyResponse,
    }
}

/// The member of a parsed reply that is named after the endpoint.
pub fn reply_member(end_point: Endpoint, parsed: &Value) -> (r: Result<Value, ApiError>)
    ensures
        match json_member_value(*parsed, endpoint_name(end_point)) {
            Some(m) => r matches Ok(x) && x == m,
            None => r matches Err(e) && e is MissingEndpointData,
        },
{
    let name = end_point.name();
    match json_member(parsed, name.as_str()) {
        Some(v) => Ok(v),
        None => Err(ApiError::MissingEndpointData),
    }
}

/// Reads the service's reply to a request at `end_point`: the value of the
/// reply's member named after the endpoint, or why there is none.
pub fn interpret_reply(end_point: Endpoint, reply: &ServerReply) -> (r: Result<Value, ApiError>)
    ensures
        result_matches(r, reply_outcome(end_point, reply.serialized_reply@, reply.error@)),
{
    if !is_blank_text(reply.serialized_reply.as_str()) {
        return match parse_json(reply.serialized_reply.as_str()) {
            Ok(parsed) => reply_member(end_point, &parsed),
            Err(e) => Err(ApiError::Json(e)),
        };
    }
    if !is_blank_text(reply.error.as_str()) {
        let mut msg = String::from_str("Server error: ");
        msg.append(reply.error.as_str());
        return Err(ApiError::Server(msg));
    }
    Err(ApiError::UnexpectedEmptyResponse)
}

} // verus!

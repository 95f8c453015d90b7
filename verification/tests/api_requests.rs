use chiral_client::api::{
    array_from, credit_points_request, credit_points_request_text, get_job_request_text,
    get_jobs_request, get_jobs_request_text, get_project_file_request_text,
    get_project_files_request, import_example_project_request_text, interpret_reply, json_array,
    list_of_example_projects_request_text, list_of_project_files_request_text,
    list_of_projects_request_text, prepare_request, reply_member, submit_job_request,
    submit_job_request_text, submit_test_job_from, submit_test_job_request,
    submit_test_job_request_text,
};
use chiral_client::{ApiError, Endpoint, ServerReply};

fn reply(text: &str, error: &str) -> ServerReply {
    ServerReply { serialized_reply: text.to_string(), error: error.to_string() }
}

#[test]
fn endpoint_names() {
    assert_eq!(Endpoint::GetCreditPoints.name(), "GetCreditPoints");
    assert_eq!(Endpoint::SubmitTestJob.name(), "SubmitTestJob");
    assert_eq!(Endpoint::GetJobs.name(), "GetJobs");
    assert_eq!(Endpoint::GetJob.name(), "GetJob");
    assert_eq!(Endpoint::SubmitJob.name(), "SubmitJob");
    assert_eq!(Endpoint::ListOfProjects.name(), "ListOfProjects");
    assert_eq!(Endpoint::ListOfExampleProjects.name(), "ListOfExampleProjects");
    assert_eq!(Endpoint::ListOfProjectFiles.name(), "ListOfProjectFiles");
    assert_eq!(Endpoint::ImportExampleProject.name(), "ImportExampleProject");
    assert_eq!(Endpoint::GetProjectFile.name(), "GetProjectFile");
}

#[test]
fn request_texts_without_arguments() {
    assert_eq!(credit_points_request_text(), "{\"GetCreditPoints\": null}");
    assert_eq!(list_of_projects_request_text(), "{\"ListOfProjects\": null}");
    assert_eq!(list_of_example_projects_request_text(), "{\"ListOfExampleProjects\": null}");
}

#[test]
fn request_texts_with_names() {
    assert_eq!(list_of_project_files_request_text("qCEnc6q"), "{\"ListOfProjectFiles\": \"qCEnc6q\"}");
    assert_eq!(import_example_project_request_text("demo"), "{\"ImportExampleProject\": \"demo\"}");
    assert_eq!(
        get_project_file_request_text("qCEnc6q", "sleep_30s.sh"),
        "{\"GetProjectFile\": [\"qCEnc6q\", \"sleep_30s.sh\"]}"
    );
    assert_eq!(get_job_request_text("job-17"), "{\"GetJob\": \"job-17\"}");
}

#[test]
fn request_text_of_get_jobs() {
    assert_eq!(get_jobs_request_text(0, 10), "{\"GetJobs\": [0, 10]}");
    assert_eq!(get_jobs_request_text(4294967295, 120), "{\"GetJobs\": [4294967295, 120]}");
}

#[test]
fn request_text_of_submit_test_job() {
    assert_eq!(
        submit_test_job_request_text("sleep_5_secs", 1).unwrap(),
        "{\"SubmitTestJob\":[\"sleep_5_secs\",1]}"
    );
    // serde_json escapes what a JSON string cannot hold as it is
    assert_eq!(
        submit_test_job_request_text("a\"b\\c\n", 42).unwrap(),
        "{\"SubmitTestJob\":[\"a\\\"b\\\\c\\n\",42]}"
    );
    assert_eq!(submit_test_job_from("X", 7), "{\"SubmitTestJob\":[X,7]}");
}

#[test]
fn request_text_of_submit_job() {
    let input_files = vec!["run.sh", "1aki.pdb"];
    let output_files = vec!["1AKI_processed.gro", "topol.top", "posre.itp"];
    assert_eq!(
        submit_job_request_text("sh run.sh", "qasdfkjabdi", &input_files, &output_files).unwrap(),
        "{\"SubmitJob\": [\"sh run.sh\", \"qasdfkjabdi\", [\"run.sh\",\"1aki.pdb\"], [\"1AKI_processed.gro\",\"topol.top\",\"posre.itp\"]]}"
    );
    let none: Vec<&str> = Vec::new();
    assert_eq!(
        submit_job_request_text("bash run.sh", "p", &none, &none).unwrap(),
        "{\"SubmitJob\": [\"bash run.sh\", \"p\", [], []]}"
    );
}

#[test]
fn json_arrays() {
    assert_eq!(json_array(&["a", "b\"c"]).unwrap(), "[\"a\",\"b\\\"c\"]");
    assert_eq!(json_array(&[]).unwrap(), "[]");
    let encoded = vec!["1".to_string(), "\"x\"".to_string(), "null".to_string()];
    assert_eq!(array_from(&encoded), "[1,\"x\",null]");
    assert_eq!(array_from(&Vec::new()), "[]");
}

#[test]
fn prepared_requests_carry_metadata() {
    let r = credit_points_request("user@example.com", "SECRET-REDACTED").unwrap();
    assert_eq!(r.end_point, Endpoint::GetCreditPoints);
    assert_eq!(r.serialized_request, "{\"GetCreditPoints\": null}");
    assert_eq!(r.user_id, "user@example.com");
    assert_eq!(r.auth_token, "SECRET-REDACTED");
    let r = get_jobs_request("u", "t", 3, 5).unwrap();
    assert_eq!(r.serialized_request, "{\"GetJobs\": [3, 5]}");
    let r = get_project_files_request("u", "t", "p", "f").unwrap();
    assert_eq!(r.end_point, Endpoint::GetProjectFile);
    let r = submit_test_job_request("u", "t", "gromacs_bench_mem", 4).unwrap();
    assert_eq!(r.serialized_request, "{\"SubmitTestJob\":[\"gromacs_bench_mem\",4]}");
    let r = submit_job_request("u", "t", "c", "p", &["i"], &["o"]).unwrap();
    assert_eq!(r.serialized_request, "{\"SubmitJob\": [\"c\", \"p\", [\"i\"], [\"o\"]]}");
}

#[test]
fn metadata_that_cannot_be_sent_is_refused() {
    assert!(matches!(credit_points_request("bad\nemail", "t"), Err(ApiError::InvalidMetadata)));
    assert!(matches!(credit_points_request("u", "tok\u{7f}en"), Err(ApiError::InvalidMetadata)));
    assert!(matches!(prepare_request(Endpoint::GetJob, String::new(), "a\u{1}", "t"), Err(ApiError::InvalidMetadata)));
    // tabs and characters beyond ASCII pass the check
    assert!(prepare_request(Endpoint::GetJob, String::new(), "a\tb", "é").is_ok());
}

#[test]
fn reply_value_is_the_endpoint_member() {
    let v = interpret_reply(Endpoint::GetCreditPoints, &reply("{\"GetCreditPoints\": 7980.002}", "")).unwrap();
    assert_eq!(v.as_f64().unwrap(), 7980.002);
    let v = interpret_reply(Endpoint::ListOfProjects, &reply(" {\"ListOfProjects\": [\"a\", \"b\"]} ", "ignored")).unwrap();
    assert_eq!(v.as_array().unwrap().len(), 2);
    let v = interpret_reply(Endpoint::GetJob, &reply("{\"GetJob\": {\"project_name\": \"qasdfkjabdi\"}}", "")).unwrap();
    assert_eq!(v.get("project_name").and_then(|x| x.as_str()), Some("qasdfkjabdi"));
}

#[test]
fn reply_without_the_member_is_an_error() {
    let r = interpret_reply(Endpoint::GetJob, &reply("{\"GetJobs\": 1}", ""));
    assert!(matches!(r, Err(ApiError::MissingEndpointData)));
    let r = interpret_reply(Endpoint::GetJob, &reply("[1, 2]", ""));
    assert!(matches!(r, Err(ApiError::MissingEndpointData)));
    let parsed: serde_json::Value = serde_json::from_str("{\"GetJob\": null}").unwrap();
    assert!(reply_member(Endpoint::GetJob, &parsed).unwrap().is_null());
    assert!(matches!(reply_member(Endpoint::GetJobs, &parsed), Err(ApiError::MissingEndpointData)));
}

#[test]
fn reply_that_is_no_json_is_an_error() {
    let r = interpret_reply(Endpoint::GetJob, &reply("{not json", "also an error"));
    assert!(matches!(r, Err(ApiError::Json(_))));
}

#[test]
fn blank_reply_reports_the_server_error() {
    let r = interpret_reply(Endpoint::GetJob, &reply("  \n\t", "quota exceeded"));
    match r {
        Err(ApiError::Server(m)) => assert_eq!(m, "Server error: quota exceeded"),
        other => panic!("unexpected {:?}", other),
    }
    // the error text is reported as it came, untrimmed
    let r = interpret_reply(Endpoint::GetJob, &reply("\u{a0}\u{3000}", " x "));
    match r {
        Err(ApiError::Server(m)) => assert_eq!(m, "Server error:  x "),
        other => panic!("unexpected {:?}", other),
    }
}

#[test]
fn empty_answer_is_an_error() {
    let r = interpret_reply(Endpoint::GetCreditPoints, &reply("", ""));
    assert!(matches!(r, Err(ApiError::UnexpectedEmptyResponse)));
    let r = interpret_reply(Endpoint::GetCreditPoints, &reply(" \u{2028}", "\r\n"));
    assert!(matches!(r, Err(ApiError::UnexpectedEmptyResponse)));
}

#[test]
fn large_reply_is_read() {
    let body = "x".repeat(1 << 20);
    let text = format!("{{\"GetProjectFile\": \"{}\"}}", body);
    let v = interpret_reply(Endpoint::GetProjectFile, &reply(&text, "")).unwrap();
    assert_eq!(v.as_str().unwrap().len(), 1 << 20);
    let blank = " ".repeat(1 << 20);
    let r = interpret_reply(Endpoint::GetProjectFile, &reply(&blank, ""));
    assert!(matches!(r, Err(ApiError::UnexpectedEmptyResponse)));
}

fn parsed(text: &str) -> serde_json::Value {
    serde_json::from_str(text).unwrap()
}

#[test]
fn control_characters_are_escaped_as_serde_json_writes_them() {
    assert_eq!(json_array(&["\u{1}"]).unwrap(), "[\"\\u0001\"]");
    assert_eq!(json_array(&["\u{1f}"]).unwrap(), "[\"\\u001f\"]");
    assert_eq!(json_array(&["\u{8}"]).unwrap(), "[\"\\b\"]");
    assert_eq!(json_array(&["\u{c}"]).unwrap(), "[\"\\f\"]");
    assert_eq!(json_array(&["\r\t"]).unwrap(), "[\"\\r\\t\"]");
    // DEL and characters past ASCII are written as they are
    assert_eq!(json_array(&["\u{7f}é"]).unwrap(), "[\"\u{7f}é\"]");
    assert_eq!(submit_test_job_request_text("\u{0}", 0).unwrap(), "{\"SubmitTestJob\":[\"\\u0000\",0]}");
}

#[test]
fn get_jobs_reads_the_jobs_member() {
    let p = get_jobs_request("a@b.c", "tok", 0, 10).unwrap();
    assert_eq!(p.serialized_request, "{\"GetJobs\": [0, 10]}");
    assert_eq!(p.user_id, "a@b.c");
    assert_eq!(p.auth_token, "tok");
    let v = interpret_reply(Endpoint::GetJobs, &reply("{\"GetJobs\": [{\"id\": \"j1\"}]}", "")).unwrap();
    assert_eq!(v, parsed("[{\"id\": \"j1\"}]"));
}

#[test]
fn submit_job_reply_beats_the_error_text() {
    let v = interpret_reply(Endpoint::SubmitJob, &reply("{\"SubmitJob\": \"job-1\"}", "")).unwrap();
    assert_eq!(v, parsed("\"job-1\""));
    let v = interpret_reply(Endpoint::SubmitJob, &reply("{\"SubmitJob\": \"id1\"}", "quota exceeded")).unwrap();
    assert_eq!(v, parsed("\"id1\""));
    match interpret_reply(Endpoint::SubmitJob, &reply("  ", "quota exceeded")) {
        Err(ApiError::Server(m)) => assert_eq!(m, "Server error: quota exceeded"),
        other => panic!("unexpected {:?}", other),
    }
}

#[test]
fn replies_are_read_under_their_own_endpoint() {
    let v = interpret_reply(Endpoint::SubmitTestJob, &reply("{\"SubmitTestJob\": \"job-7\"}", "")).unwrap();
    assert_eq!(v, parsed("\"job-7\""));
    let v = interpret_reply(Endpoint::GetProjectFile, &reply("{\"GetProjectFile\": \"echo hi\"}", "")).unwrap();
    assert_eq!(v, parsed("\"echo hi\""));
    assert!(matches!(
        interpret_reply(Endpoint::GetJobs, &reply("{\"GetProjectFile\": \"echo hi\"}", "")),
        Err(ApiError::MissingEndpointData)
    ));
    let v = interpret_reply(Endpoint::GetJob, &reply("{\"GetJob\": {\"project_name\": \"qasdfkjabdi\"}}", "")).unwrap();
    assert_eq!(v, parsed("{\"project_name\": \"qasdfkjabdi\"}"));
    let v = interpret_reply(Endpoint::ListOfProjects, &reply("{\"ListOfProjects\": [\"p1\", {\"id\": 1, \"name\": \"x\"}]}", "")).unwrap();
    assert_eq!(v, parsed("[\"p1\", {\"id\": 1, \"name\": \"x\"}]"));
    let v = interpret_reply(Endpoint::ListOfExampleProjects, &reply("{\"ListOfExampleProjects\": [\"ex1\", \"ex2\"]}", "")).unwrap();
    assert_eq!(v, parsed("[\"ex1\", \"ex2\"]"));
    let v = interpret_reply(Endpoint::ListOfProjectFiles, &reply("{\"ListOfProjectFiles\": [\"run.sh\", \"1aki.pdb\"]}", "")).unwrap();
    assert_eq!(v, parsed("[\"run.sh\", \"1aki.pdb\"]"));
    let v = interpret_reply(Endpoint::ImportExampleProject, &reply("{\"ImportExampleProject\": {\"ok\": true}}", "")).unwrap();
    assert_eq!(v, parsed("{\"ok\": true}"));
    // the whole reply is never handed back in place of its member
    assert_ne!(v, parsed("{\"ImportExampleProject\": {\"ok\": true}}"));
}

#[test]
fn request_texts_of_the_project_calls() {
    assert_eq!(get_project_file_request_text("p1", "run.sh"), "{\"GetProjectFile\": [\"p1\", \"run.sh\"]}");
    assert_eq!(list_of_project_files_request_text("p1"), "{\"ListOfProjectFiles\": \"p1\"}");
    assert_eq!(list_of_example_projects_request_text(), "{\"ListOfExampleProjects\": null}");
    assert_eq!(get_job_request_text("abc123"), "{\"GetJob\": \"abc123\"}");
}

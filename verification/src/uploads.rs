//! Uploads: where an upload may be written, and what is answered.

use vstd::prelude::*;
use vstd::string::*;
use crate::files::{is_within, upload_target, uri_to_local_path, SandboxError, ServingRoot};
use crate::response::{is_message, serve, Response};

verus! {

pub const EMPTY_BODY_MESSAGE: &'static str = "Bad request; empty body, nothing to upload.";

pub const OUT_OF_SCOPE_MESSAGE: &'static str = "Forbidden; you cannot upload outside of scope.";

/// What is to be done with an upload.
#[derive(Debug, Clone, PartialEq, Eq)]
pub enum UploadStep {
    /// Answer at once; nothing is written.
    Respond(Response),
    /// Write `bytes` to `path`, which lies within the serving root.
    Write { path: String, bytes: Vec<u8> },
}

/// The message for a file that could not be written.
pub open spec fn write_failure(filename: Seq<char>) -> Seq<char> {
    "An unknown error occured while trying to write "@ + filename + "."@
}

/// The message for a file that could not be written. It names the file.
pub fn write_failure_message(filename: &str) -> (message: String)
    ensures
        message@ == write_failure(filename@),
{
    String::from_str("An unknown error occured while trying to write ").concat(filename).concat(".")
}

/// The answer to an upload once the write was tried: 201 with an empty body
/// where it went through, else the error of the write.
pub fn upload_file(written: Result<(), String>) -> (outcome: Result<Response, String>)
    ensures
        match written {
            Ok(_) => outcome matches Ok(response) && is_message(response, 201, ""@),
            Err(error) => outcome == Err::<Response, String>(error),
        },
{
    match written {
        Ok(()) => Ok(serve(201, "")),
        Err(error) => Err(error),
    }
}

/// The answer to an upload once the write was tried: 201 where it went
/// through, else 500 with the error of the write.
pub fn upload_response(written: Result<(), String>) -> (response: Response)
    ensures
        match written {
            Ok(_) => is_message(response, 201, ""@),
            Err(error) => is_message(response, 500, "Internal server error; "@ + error@),
        },
{
    match upload_file(written) {
        Ok(response) => response,
        Err(error) => {
            let message = String::from_str("Internal server error; ").concat(error.as_str());
            serve(500, message.as_str())
        },
    }
}

/// What is done with an upload, given the sandbox's answer for its target:
/// the write where the target was allowed, else 403.
pub fn plan_upload(target: Result<String, SandboxError>, bytes: Vec<u8>) -> (step: UploadStep)
    ensures
        match target {
            Ok(allowed) => step == (UploadStep::Write { path: allowed, bytes }),
            Err(_) => step matches UploadStep::Respond(response) && is_message(
                response,
                403,
                OUT_OF_SCOPE_MESSAGE@,
            ),
        },
{
    match target {
        Ok(path) => UploadStep::Write { path, bytes },
        Err(_) => UploadStep::Respond(serve(403, OUT_OF_SCOPE_MESSAGE)),
    }
}

/// Plans the upload of `bytes` to the path of the request: the target is
/// exactly that path, and it must pass the sandbox.
pub fn handle_upload(root: &ServingRoot, uri_path: &str, bytes: Vec<u8>) -> (step: UploadStep)
    ensures
        match step {
            UploadStep::Write { path, bytes: payload } => is_within(root@, path@) && payload
                == bytes,
            UploadStep::Respond(response) => is_message(response, 403, OUT_OF_SCOPE_MESSAGE@),
        },
{
    let local = uri_to_local_path(root, uri_path);
    let target = upload_target(root, local.as_str());
    plan_upload(target, bytes)
}

/// Plans an upload from the body that was read: 400 where there is none or it
/// is empty, else as `handle_upload` says.
pub fn process_put_request(root: &ServingRoot, uri_path: &str, body: Option<Vec<u8>>) -> (step:
    UploadStep)
    ensures
        match step {
            UploadStep::Write { path, bytes } => is_within(root@, path@) && body == Some(bytes)
                && bytes@.len() > 0,
            UploadStep::Respond(response) => if body matches Some(bytes) && bytes@.len() > 0 {
                is_message(response, 403, OUT_OF_SCOPE_MESSAGE@)
            } else {
                is_message(response, 400, EMPTY_BODY_MESSAGE@)
            },
        },
{
    match body {
        Some(bytes) => {
            if bytes.len() == 0 {
                UploadStep::Respond(serve(400, EMPTY_BODY_MESSAGE))
            } else {
                handle_upload(root, uri_path, bytes)
            }
        },
        None => UploadStep::Respond(serve(400, EMPTY_BODY_MESSAGE)),
    }
}

} // verus!

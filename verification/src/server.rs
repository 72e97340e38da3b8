//! What is done with a request: routing by method, the answer to a `GET`,
//! and the plan for a `PUT`.

use vstd::prelude::*;
use vstd::string::*;
use crate::auth::{credentials_of, is_refusal, refusal, require_authentication};
use crate::config;
use crate::content_encoding::apply;
use crate::files::{is_within, ServingRoot};
use crate::negotiation::{
    accepts_htmd, cache_time, content_type_for, maybe_correct_content_type, max_age,
    set_additional_headers, set_cache_time, with_charset, CACHE_CONTROL, CONTENT_LANGUAGE,
    CONTENT_TYPE, HTMD_MIME_TYPE, PLAIN_MIME_TYPE, SERVER,
};
use crate::resolve::Resolution;
use crate::response::{is_message, serve, serve_404, Response, NOT_FOUND_MESSAGE};
use crate::text::{count_of, has_infix, same_text, slice_text};
use crate::uploads::{process_put_request, UploadStep, EMPTY_BODY_MESSAGE, OUT_OF_SCOPE_MESSAGE};

verus! {

pub const BAD_METHOD_MESSAGE: &'static str =
    "Bad request; only `GET` and `PUT` requests are supported.";

/// What a request asks for, by its method.
#[derive(Debug, Clone, PartialEq, Eq)]
pub enum Action {
    /// `GET`: resolve the path and serve the file.
    Serve,
    /// `PUT`: authenticate and upload.
    Upload,
    /// Any other method: answer at once.
    Refuse(Response),
}

/// Routes a request by its method: `GET` and `PUT` are served, every other
/// method is answered with 400.
pub fn handle_request(method: &str) -> (action: Action)
    ensures
        match action {
            Action::Serve => method@ == "GET"@,
            Action::Upload => method@ == "PUT"@ && method@ != "GET"@,
            Action::Refuse(response) => method@ != "GET"@ && method@ != "PUT"@ && is_message(
                response,
                400,
                BAD_METHOD_MESSAGE@,
            ),
        },
{
    if same_text(method, "GET") {
        Action::Serve
    } else if same_text(method, "PUT") {
        Action::Upload
    } else {
        Action::Refuse(serve(400, BAD_METHOD_MESSAGE))
    }
}

/// The response carries a file: 200, the content type as its one header,
/// and the contents as the body.
pub open spec fn is_file_response(response: Response, contents: Seq<u8>, mime_type: Seq<char>) -> bool {
    &&& response.status == 200
    &&& response.body@ == contents
    &&& response.fields() == seq![(CONTENT_TYPE@, with_charset(mime_type))]
}

/// The response that carries a file: 200, its content type as the one
/// header, and the contents as the body.
pub fn serve_file(contents: Vec<u8>, mime_type: &str) -> (response: Response)
    ensures
        is_file_response(response, contents@, mime_type@),
        response.body == contents,
        response.has_distinct_names(),
        forall|name: Seq<char>|
            #[trigger] response.header(name) == if name == CONTENT_TYPE@ {
                Some(with_charset(mime_type@))
            } else {
                None
            },
{
    let mut response = Response { status: 200, headers: Vec::new(), body: contents };
    proof {
        assert forall|name: Seq<char>| #[trigger] response.header(name) == None::<Seq<char>> by {}
    }
    assert(response.has_distinct_names());
    response.set_header(CONTENT_TYPE, content_type_for(mime_type));
    assert(response.fields() =~= seq![(CONTENT_TYPE@, with_charset(mime_type@))]);
    response
}

/// The response for a resolution and for what reading the resolved file
/// gave: the file where there is one and it could be read, else 404.
pub fn handle_path(resolution: &Resolution, contents: Option<Vec<u8>>) -> (response: Response)
    ensures
        match (*resolution, contents) {
            (Resolution::Resolved(file), Some(bytes)) => is_file_response(
                response,
                bytes@,
                file.mime_type@,
            ) && response.body == bytes && forall|name: Seq<char>|
                #[trigger] response.header(name) == if name == CONTENT_TYPE@ {
                    Some(with_charset(file.mime_type@))
                } else {
                    None
                },
            _ => is_message(response, 404, NOT_FOUND_MESSAGE@),
        },
        response.has_distinct_names(),
{
    match resolution {
        Resolution::Resolved(file) => match contents {
            Some(bytes) => serve_file(bytes, file.mime_type.as_str()),
            None => serve_404(),
        },
        Resolution::NotFound => serve_404(),
    }
}

/// The four header names that every answer to a `GET` carries differ.
pub proof fn lemma_header_names_differ()
    ensures
        CACHE_CONTROL@ != CONTENT_TYPE@,
        CACHE_CONTROL@ != SERVER@,
        CACHE_CONTROL@ != CONTENT_LANGUAGE@,
        CONTENT_TYPE@ != SERVER@,
        CONTENT_TYPE@ != CONTENT_LANGUAGE@,
        SERVER@ != CONTENT_LANGUAGE@,
{
    reveal_strlit("Cache-Control");
    reveal_strlit("Content-Type");
    reveal_strlit("Server");
    reveal_strlit("Content-Language");
    assert(CACHE_CONTROL@.len() == 13);
    assert(CONTENT_TYPE@.len() == 12);
    assert(SERVER@.len() == 6);
    assert(CONTENT_LANGUAGE@.len() == 16);
}

/// The name by which the cache lifetime of an answer goes: the resolved
/// path of the file that is served, and the empty name where none is.
pub open spec fn served_name(resolution: Resolution, contents: Option<Vec<u8>>) -> Seq<char> {
    match (resolution, contents) {
        (Resolution::Resolved(file), Some(_)) => file.absolute_path@,
        _ => ""@,
    }
}

/// The content type that is sent for a file, given what the client accepts:
/// that of the file with its charset, and `text/plain` with the charset for
/// an `htmd` document that the client did not ask for.
pub open spec fn negotiated_type(mime_type: Seq<char>, accept: Option<Seq<char>>) -> Seq<char> {
    if has_infix(with_charset(mime_type), HTMD_MIME_TYPE@) && !accepts_htmd(accept) {
        with_charset(PLAIN_MIME_TYPE@)
    } else {
        with_charset(mime_type)
    }
}

/// The answer to a `GET`, from the resolution of its path and from what
/// reading the resolved file gave: the file or 404, then the cache lifetime
/// that the resolved path calls for, the fixed headers, and the content type
/// that the client's `Accept` header allows. Every header stands once, and no
/// encoding is applied.
pub fn handle_get_request(
    resolution: &Resolution,
    contents: Option<Vec<u8>>,
    accept: Option<&str>,
    accept_encoding: Option<&str>,
) -> (response: Response)
    ensures
        match (*resolution, contents) {
            (Resolution::Resolved(file), Some(bytes)) => response.status == 200 && response.body
                == bytes && response.header(CONTENT_TYPE@) == Some(
                negotiated_type(file.mime_type@, slice_text(accept)),
            ) && response.occurrences(CONTENT_TYPE@) == 1,
            _ => response.status == 404 && response.body@ == vstd::utf8::encode_utf8(
                NOT_FOUND_MESSAGE@,
            ) && response.header(CONTENT_TYPE@) == None::<Seq<char>> && response.occurrences(
                CONTENT_TYPE@,
            ) == 0,
        },
        response.header(CACHE_CONTROL@) == Some(
            max_age(cache_time(served_name(*resolution, contents))),
        ),
        response.header(SERVER@) == Some(config::SERVER_NAME@),
        response.header(CONTENT_LANGUAGE@) == Some(config::CONTENT_LANGUAGE@),
        response.occurrences(CACHE_CONTROL@) == 1,
        response.occurrences(SERVER@) == 1,
        response.occurrences(CONTENT_LANGUAGE@) == 1,
        forall|name: Seq<char>|
            name != CACHE_CONTROL@ && name != SERVER@ && name != CONTENT_LANGUAGE@ && name
                != CONTENT_TYPE@ ==> #[trigger] response.header(name) == None::<Seq<char>>,
        forall|name: Seq<char>|
            name != CACHE_CONTROL@ && name != SERVER@ && name != CONTENT_LANGUAGE@ && name
                != CONTENT_TYPE@ ==> #[trigger] response.occurrences(name) == 0,
        response.has_distinct_names(),
{
    proof {
        lemma_header_names_differ();
    }
    let name = match resolution {
        Resolution::Resolved(file) => {
            if contents.is_some() {
                file.absolute_path.clone()
            } else {
                String::from_str("")
            }
        },
        Resolution::NotFound => String::from_str(""),
    };
    let mut response = handle_path(resolution, contents);
    let ghost served = response;
    proof {
        assert forall|other: Seq<char>| other != CONTENT_TYPE@ implies #[trigger] served.occurrences(
            other,
        ) == 0 by {
            reveal_with_fuel(count_of, 3);
            assert(served.fields().len() <= 1);
            if served.fields().len() == 1 {
                assert(served.fields().last().0 == CONTENT_TYPE@);
                assert(served.fields().drop_last().len() == 0);
            }
        }
        if served.fields().len() == 1 {
            reveal_with_fuel(count_of, 3);
            assert(served.fields().last().0 == CONTENT_TYPE@);
            assert(served.fields().drop_last().len() == 0);
            assert(served.occurrences(CONTENT_TYPE@) == 1);
        }
    }
    set_cache_time(&mut response, name.as_str());
    set_additional_headers(&mut response);
    maybe_correct_content_type(&mut response, accept);
    apply(&mut response, accept_encoding);
    response
}

/// What is known of the body of an upload.
#[derive(Debug, Clone, PartialEq, Eq)]
pub enum UploadBody {
    /// The body was not read yet.
    NotRead,
    /// What reading the body gave; `None` where it could not be read.
    Read(Option<Vec<u8>>),
}

/// The next step of a `PUT`.
#[derive(Debug, Clone, PartialEq, Eq)]
pub enum PutStep {
    /// Read the body and come back with it.
    ReadBody,
    /// Answer or write, as the plan says.
    Upload(UploadStep),
}

/// The next step of a `PUT`, from what is known so far. The credentials come
/// first: without the configured ones the refusal is the answer, whether or
/// not the body was read. With them the body is asked for, and once it is
/// there the upload is planned. Whatever is to be written lies within the
/// serving root.
pub fn handle_put_request(
    root: &ServingRoot,
    authorization: Option<&str>,
    uri_path: &str,
    body: UploadBody,
) -> (step: PutStep)
    ensures
        match refusal(credentials_of(slice_text(authorization))) {
            Some(status) => step matches PutStep::Upload(UploadStep::Respond(response))
                && is_refusal(response, status),
            None => match body {
                UploadBody::NotRead => step == PutStep::ReadBody,
                UploadBody::Read(read) => step matches PutStep::Upload(upload) && match upload {
                    UploadStep::Write { path, bytes } => is_within(root@, path@) && read == Some(
                        bytes,
                    ) && bytes@.len() > 0,
                    UploadStep::Respond(response) => if read matches Some(bytes) && bytes@.len()
                        > 0 {
                        is_message(response, 403, OUT_OF_SCOPE_MESSAGE@)
                    } else {
                        is_message(response, 400, EMPTY_BODY_MESSAGE@)
                    },
                },
            },
        },
{
    match require_authentication(authorization) {
        Err(response) => PutStep::Upload(UploadStep::Respond(response)),
        Ok(()) => match body {
            UploadBody::NotRead => PutStep::ReadBody,
            UploadBody::Read(read) => PutStep::Upload(process_put_request(root, uri_path, read)),
        },
    }
}

} // verus!

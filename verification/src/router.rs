//! The router: from a method and a path to what the server does.

use crate::header::{header_views, HeaderView, HttpResponseHeader};
use crate::response::{HttpResponse, ResponseView};
use crate::text::same_text;
use vstd::prelude::*;

verus! {

/// A text that the server keeps outside itself and reads when it is asked for.
#[derive(Debug, Clone, Copy, PartialEq, Eq)]
pub enum Resource {
    Home,
    Stylesheet,
    Register,
}

/// What a request makes the server do.
#[derive(Debug, Clone, Copy, PartialEq, Eq)]
pub enum Action {
    /// Answer with the contents of a resource.
    Serve(Resource),
    /// Acknowledge the creation of a user.
    CreateUser,
}

/// The action for a method and a path. Both are compared as they are: no
/// pattern, capital and small letters differ, nothing is cut off. `None` says that no action
/// is defined.
pub open spec fn route(method: Seq<char>, path: Seq<char>) -> Option<Action> {
    if method == "GET"@ && path == "/"@ {
        Some(Action::Serve(Resource::Home))
    } else if method == "GET"@ && path == "/index.css"@ {
        Some(Action::Serve(Resource::Stylesheet))
    } else if method == "GET"@ && path == "/register"@ {
        Some(Action::Serve(Resource::Register))
    } else if method == "POST"@ && path == "/create/user"@ {
        Some(Action::CreateUser)
    } else {
        None
    }
}

/// The media type under which a resource is served.
pub open spec fn content_type_of(resource: Resource) -> Seq<char> {
    match resource {
        Resource::Home => "text/html"@,
        Resource::Stylesheet => "text/css"@,
        Resource::Register => "text/html"@,
    }
}

/// Where a resource is kept, relative to where the server runs.
pub open spec fn location_of(resource: Resource) -> Seq<char> {
    match resource {
        Resource::Home => "html/index.html"@,
        Resource::Stylesheet => "html/index.css"@,
        Resource::Register => "html/register.html"@,
    }
}

/// A response with status 200 that carries `body` under one header, the
/// media type.
pub open spec fn ok_response(content_type: Seq<char>, body: Seq<char>) -> ResponseView {
    ResponseView {
        status_code: "200"@,
        status_message: "OK"@,
        headers: seq![HeaderView { name: "Content-Type"@, value: content_type }],
        body,
    }
}

/// The response that serves a resource whose contents are `contents`.
pub open spec fn resource_response(resource: Resource, contents: Seq<char>) -> ResponseView {
    ok_response(content_type_of(resource), contents)
}

/// The response that acknowledges the creation of a user. Its body is fixed.
pub open spec fn acknowledgment() -> ResponseView {
    ok_response(
        "application/json"@,
        "{\r\n\tOperation: createUser\r\n\tStatus: success\r\n}\r\n"@,
    )
}

/// Finds the action for a method and a path.
pub fn resolve(method: &str, path: &str) -> (action: Option<Action>)
    ensures
        action == route(method@, path@),
{
    if same_text(method, "GET") {
        if same_text(path, "/") {
            Some(Action::Serve(Resource::Home))
        } else if same_text(path, "/index.css") {
            Some(Action::Serve(Resource::Stylesheet))
        } else if same_text(path, "/register") {
            Some(Action::Serve(Resource::Register))
        } else {
            proof {
                lemma_methods_differ();
            }
            None
        }
    } else if same_text(method, "POST") && same_text(path, "/create/user") {
        Some(Action::CreateUser)
    } else {
        None
    }
}

/// The two methods that have routes are not the same text.
proof fn lemma_methods_differ()
    ensures
        "GET"@ != "POST"@,
{
    reveal_strlit("GET");
    reveal_strlit("POST");
    assert("GET"@.len() != "POST"@.len());
}

/// Builds the response that `ok_response` describes.
fn respond_ok(content_type: &str, body: &str) -> (response: HttpResponse)
    ensures
        response@ == ok_response(content_type@, body@),
{
    let mut headers: Vec<HttpResponseHeader> = Vec::new();
    headers.push(HttpResponseHeader::new("Content-Type", content_type));
    assert(header_views(headers@) =~= seq![
        HeaderView { name: "Content-Type"@, value: content_type@ },
    ]);
    HttpResponse::new("200", "OK", headers, body)
}

impl Resource {
    /// The media type under which this resource is served.
    pub fn content_type(self) -> (content_type: &'static str)
        ensures
            content_type@ == content_type_of(self),
    {
        match self {
            Resource::Home => "text/html",
            Resource::Stylesheet => "text/css",
            Resource::Register => "text/html",
        }
    }

    /// Where this resource is kept.
    pub fn location(self) -> (location: &'static str)
        ensures
            location@ == location_of(self),
    {
        match self {
            Resource::Home => "html/index.html",
            Resource::Stylesheet => "html/index.css",
            Resource::Register => "html/register.html",
        }
    }

    /// The response that serves this resource, given its contents.
    pub fn respond(self, contents: &str) -> (response: HttpResponse)
        ensures
            response@ == resource_response(self, contents@),
    {
        respond_ok(self.content_type(), contents)
    }
}

/// The response that acknowledges the creation of a user.
pub fn acknowledge() -> (response: HttpResponse)
    ensures
        response@ == acknowledgment(),
{
    respond_ok("application/json", "{\r\n\tOperation: createUser\r\n\tStatus: success\r\n}\r\n")
}

} // verus!

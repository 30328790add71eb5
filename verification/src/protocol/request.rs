//! Requests: which route a path names, and the errors they can end in.
use vstd::prelude::*;
use vstd::string::StringExecFns;
use crate::engine::types::GraphError;
use crate::protocol::format::Format;
use crate::utils::text::{chars_of, chars_start_with, push_str, string_from_chars};

verus! {

/// What a request asks for.
#[derive(Debug, Clone, Copy, PartialEq, Eq, Structural)]
pub enum RequestType {
    Query,
    MCP,
    GraphVis,
}

impl RequestType {
    /// The name of the request type.
    pub fn name(&self) -> (r: &'static str)
        ensures
            r@ == (match *self {
                RequestType::Query => "Query"@,
                RequestType::MCP => "MCP"@,
                RequestType::GraphVis => "GraphVis"@,
            }),
    {
        match self {
            RequestType::Query => "Query",
            RequestType::MCP => "MCP",
            RequestType::GraphVis => "GraphVis",
        }
    }
}

/// An error that ends a request.
pub enum HelixError {
    Graph(GraphError),
    Vector(String),
    NotFound { ty: RequestType, name: String },
}

impl HelixError {
    /// The HTTP status the error is answered with: 404 for what was not
    /// found, 500 for any other.
    pub fn status_code(&self) -> (r: u16)
        ensures
            r == (match *self {
                HelixError::NotFound { .. } => 404u16,
                _ => 500u16,
            }),
    {
        match self {
            HelixError::NotFound { .. } => 404,
            _ => 500,
        }
    }

    /// The message of a not-found error.
    pub fn not_found_message(ty: RequestType, name: &str) -> (r: String)
        ensures
            r@ == "Couldn't find `"@ + name@ + "` of type "@ + (match ty {
                RequestType::Query => "Query"@,
                RequestType::MCP => "MCP"@,
                RequestType::GraphVis => "GraphVis"@,
            }),
    {
        let mut s = String::from_str("Couldn't find `");
        push_str(&mut s, name);
        push_str(&mut s, "` of type ");
        push_str(&mut s, ty.name());
        s
    }
}

/// The HTTP status of a malformed request.
pub const BAD_REQUEST: u16 = 400;
/// The HTTP status of a body in an unknown format.
pub const UNSUPPORTED_MEDIA_TYPE: u16 = 415;

/// The route a path names: after `/mcp/` an MCP route, else, after the
/// leading `/`, a query.
pub open spec fn route_of(path: Seq<char>) -> (Seq<char>, RequestType) {
    if path.len() >= 5 && path.subrange(0, 5) == "/mcp/"@ {
        (path.skip(5), RequestType::MCP)
    } else {
        (path.skip(1), RequestType::Query)
    }
}

/// Reads the route of a request from its path: the name must be non-empty
/// and hold no `/`, else the request is malformed (400).
pub fn route_from_path(path: &str) -> (r: Result<(String, RequestType), u16>)
    requires
        path@.len() > 0,
        path@[0] == '/',
    ensures
        ({
            let (name, ty) = route_of(path@);
            match r {
                Ok((n, t)) => n@ == name && t == ty && name.len() > 0 && !name.contains('/'),
                Err(code) => code == BAD_REQUEST && (name.len() == 0 || name.contains('/')),
            }
        }),
{
    proof {
        reveal_strlit("/mcp/");
    }
    let cp = chars_of(path);
    let mcp = chars_of("/mcp/");
    let (start, ty) = if chars_start_with(&cp, &mcp) {
        (5usize, RequestType::MCP)
    } else {
        (1usize, RequestType::Query)
    };
    let len = cp.len();
    if start >= len {
        assert(route_of(path@).0.len() == 0);
        return Err(BAD_REQUEST);
    }
    match crate::utils::text::find_char(&cp, '/', start) {
        Some(j) => {
            assert(route_of(path@).0[j - start] == '/');
            Err(BAD_REQUEST)
        },
        None => {
            let name = string_from_chars(&cp, start, len);
            assert(name@ =~= route_of(path@).0);
            assert(!name@.contains('/')) by {
                assert forall|k: int| 0 <= k < name@.len() implies name@[k] != '/' by {
                    assert(name@[k] == path@[k + start]);
                }
            }
            Ok((name, ty))
        },
    }
}

/// The formats of a request: that of its body, from its content type
/// (JSON without one; 415 when unknown), and that of its answer, from what
/// it accepts (JSON without one or when unknown).
pub fn request_formats(content_type: Option<&str>, accept: Option<&str>) -> (r: Result<(Format, Format), u16>)
    ensures
        match content_type {
            Some(ct) => ct@ != crate::protocol::format::JSON_MEDIA_TYPE@ ==> r == Err::<(Format, Format), u16>(UNSUPPORTED_MEDIA_TYPE),
            None => true,
        },
        (match content_type {
            Some(ct) => ct@ == crate::protocol::format::JSON_MEDIA_TYPE@,
            None => true,
        }) ==> r == Ok::<(Format, Format), u16>((Format::Json, Format::Json)),
{
    let in_fmt = match content_type {
        Some(ct) => match Format::from_media_type(ct) {
            Some(f) => f,
            None => return Err(UNSUPPORTED_MEDIA_TYPE),
        },
        None => Format::Json,
    };
    let out_fmt = match accept {
        Some(a) => match Format::from_media_type(a) {
            Some(f) => f,
            None => Format::Json,
        },
        None => Format::Json,
    };
    Ok((in_fmt, out_fmt))
}

} // verus!

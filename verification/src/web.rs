//! The web studio's request handling: routes, the request head, the
//! response head, and the pages and records it builds from text.

use vstd::prelude::*;
use crate::text::{chars_of, chars_range, owned, push_char, push_str, string_of, strings_view, trim, trim_range, is_ws};
use crate::shell::{CommandView, ShellCommand, ShellError};

verus! {

/// The routes of the web studio.
#[derive(Debug, Clone, Copy, PartialEq, Eq, Structural)]
pub enum Route {
    Index,
    DocManual,
    DocSpec,
    DocTechSpec,
    DocReadme,
    Favicon,
    State,
    Doctor,
    Snippets,
    Open,
    Save,
    Create,
    Rename,
    Delete,
    SetEntry,
    Find,
    Search,
    Outline,
    Snippet,
    AgentPreview,
    AgentApply,
    Run,
    Build,
    Audit,
    Shell,
    NotFound,
}

/// The route of a request's method and path.
pub open spec fn route_for(method: Seq<char>, path: Seq<char>) -> Route {
    if method == "GET"@ {
        if path == "/"@ { Route::Index }
        else if path == "/docs/manual"@ { Route::DocManual }
        else if path == "/docs/spec"@ { Route::DocSpec }
        else if path == "/docs/techspec"@ { Route::DocTechSpec }
        else if path == "/docs/readme"@ { Route::DocReadme }
        else if path == "/favicon.ico"@ { Route::Favicon }
        else if path == "/api/state"@ { Route::State }
        else if path == "/api/doctor"@ { Route::Doctor }
        else if path == "/api/snippets"@ { Route::Snippets }
        else { Route::NotFound }
    } else if method == "POST"@ {
        if path == "/api/open"@ { Route::Open }
        else if path == "/api/save"@ { Route::Save }
        else if path == "/api/create"@ { Route::Create }
        else if path == "/api/rename"@ { Route::Rename }
        else if path == "/api/delete"@ { Route::Delete }
        else if path == "/api/set-entry"@ { Route::SetEntry }
        else if path == "/api/find"@ { Route::Find }
        else if path == "/api/search"@ { Route::Search }
        else if path == "/api/outline"@ { Route::Outline }
        else if path == "/api/snippet"@ { Route::Snippet }
        else if path == "/api/agent-preview"@ { Route::AgentPreview }
        else if path == "/api/agent-apply"@ { Route::AgentApply }
        else if path == "/api/run"@ { Route::Run }
        else if path == "/api/build"@ { Route::Build }
        else if path == "/api/audit"@ { Route::Audit }
        else if path == "/api/shell"@ { Route::Shell }
        else { Route::NotFound }
    } else {
        Route::NotFound
    }
}

/// The method and path a route answers; the not-found route answers none
/// and is given `GET` and the empty path.
pub open spec fn route_endpoint(r: Route) -> (Seq<char>, Seq<char>) {
    match r {
        Route::Index => ("GET"@, "/"@),
        Route::DocManual => ("GET"@, "/docs/manual"@),
        Route::DocSpec => ("GET"@, "/docs/spec"@),
        Route::DocTechSpec => ("GET"@, "/docs/techspec"@),
        Route::DocReadme => ("GET"@, "/docs/readme"@),
        Route::Favicon => ("GET"@, "/favicon.ico"@),
        Route::State => ("GET"@, "/api/state"@),
        Route::Doctor => ("GET"@, "/api/doctor"@),
        Route::Snippets => ("GET"@, "/api/snippets"@),
        Route::Open => ("POST"@, "/api/open"@),
        Route::Save => ("POST"@, "/api/save"@),
        Route::Create => ("POST"@, "/api/create"@),
        Route::Rename => ("POST"@, "/api/rename"@),
        Route::Delete => ("POST"@, "/api/delete"@),
        Route::SetEntry => ("POST"@, "/api/set-entry"@),
        Route::Find => ("POST"@, "/api/find"@),
        Route::Search => ("POST"@, "/api/search"@),
        Route::Outline => ("POST"@, "/api/outline"@),
        Route::Snippet => ("POST"@, "/api/snippet"@),
        Route::AgentPreview => ("POST"@, "/api/agent-preview"@),
        Route::AgentApply => ("POST"@, "/api/agent-apply"@),
        Route::Run => ("POST"@, "/api/run"@),
        Route::Build => ("POST"@, "/api/build"@),
        Route::Audit => ("POST"@, "/api/audit"@),
        Route::Shell => ("POST"@, "/api/shell"@),
        Route::NotFound => ("GET"@, Seq::empty()),
    }
}

/// Each route answers exactly its own method and path: a request is routed
/// to a route other than not-found only when its method and path are that
/// route's, and every route's own method and path reach it. So distinct
/// endpoints reach distinct routes.
pub proof fn lemma_routes_match_endpoints(method: Seq<char>, path: Seq<char>, r: Route)
    ensures
        route_for(method, path) != Route::NotFound ==> route_endpoint(route_for(method, path)) == (method, path),
        r != Route::NotFound ==> route_for(route_endpoint(r).0, route_endpoint(r).1) == r,
{
    reveal_strlit("GET");
    reveal_strlit("POST");
    reveal_strlit("/");
    reveal_strlit("/docs/manual");
    reveal_strlit("/docs/spec");
    reveal_strlit("/docs/techspec");
    reveal_strlit("/docs/readme");
    reveal_strlit("/favicon.ico");
    reveal_strlit("/api/state");
    reveal_strlit("/api/doctor");
    reveal_strlit("/api/snippets");
    reveal_strlit("/api/open");
    reveal_strlit("/api/save");
    reveal_strlit("/api/create");
    reveal_strlit("/api/rename");
    reveal_strlit("/api/delete");
    reveal_strlit("/api/set-entry");
    reveal_strlit("/api/find");
    reveal_strlit("/api/search");
    reveal_strlit("/api/outline");
    reveal_strlit("/api/snippet");
    reveal_strlit("/api/agent-preview");
    reveal_strlit("/api/agent-apply");
    reveal_strlit("/api/run");
    reveal_strlit("/api/build");
    reveal_strlit("/api/audit");
    reveal_strlit("/api/shell");
    match r {
        Route::Index => {
        },
        Route::DocManual => {
            assert("/docs/manual"@.len() != "/"@.len());
        },
        Route::DocSpec => {
            assert("/docs/spec"@.len() != "/"@.len());
            assert("/docs/spec"@.len() != "/docs/manual"@.len());
        },
        Route::DocTechSpec => {
            assert("/docs/techspec"@.len() != "/"@.len());
            assert("/docs/techspec"@.len() != "/docs/manual"@.len());
            assert("/docs/techspec"@.len() != "/docs/spec"@.len());
        },
        Route::DocReadme => {
            assert("/docs/readme"@.len() != "/"@.len());
            assert("/docs/readme"@[6] != "/docs/manual"@[6]);
            assert("/docs/readme"@.len() != "/docs/spec"@.len());
            assert("/docs/readme"@.len() != "/docs/techspec"@.len());
        },
        Route::Favicon => {
            assert("/favicon.ico"@.len() != "/"@.len());
            assert("/favicon.ico"@[1] != "/docs/manual"@[1]);
            assert("/favicon.ico"@.len() != "/docs/spec"@.len());
            assert("/favicon.ico"@.len() != "/docs/techspec"@.len());
            assert("/favicon.ico"@[1] != "/docs/readme"@[1]);
        },
        Route::State => {
            assert("/api/state"@.len() != "/"@.len());
            assert("/api/state"@.len() != "/docs/manual"@.len());
            assert("/api/state"@[1] != "/docs/spec"@[1]);
            assert("/api/state"@.len() != "/docs/techspec"@.len());
            assert("/api/state"@.len() != "/docs/readme"@.len());
            assert("/api/state"@.len() != "/favicon.ico"@.len());
        },
        Route::Doctor => {
            assert("/api/doctor"@.len() != "/"@.len());
            assert("/api/doctor"@.len() != "/docs/manual"@.len());
            assert("/api/doctor"@.len() != "/docs/spec"@.len());
            assert("/api/doctor"@.len() != "/docs/techspec"@.len());
            assert("/api/doctor"@.len() != "/docs/readme"@.len());
            assert("/api/doctor"@.len() != "/favicon.ico"@.len());
            assert("/api/doctor"@.len() != "/api/state"@.len());
        },
        Route::Snippets => {
            assert("/api/snippets"@.len() != "/"@.len());
            assert("/api/snippets"@.len() != "/docs/manual"@.len());
            assert("/api/snippets"@.len() != "/docs/spec"@.len());
            assert("/api/snippets"@.len() != "/docs/techspec"@.len());
            assert("/api/snippets"@.len() != "/docs/readme"@.len());
            assert("/api/snippets"@.len() != "/favicon.ico"@.len());
            assert("/api/snippets"@.len() != "/api/state"@.len());
            assert("/api/snippets"@.len() != "/api/doctor"@.len());
        },
        Route::Open => {
            assert("POST"@.len() != "GET"@.len());
        },
        Route::Save => {
            assert("POST"@.len() != "GET"@.len());
            assert("/api/save"@[5] != "/api/open"@[5]);
        },
        Route::Create => {
            assert("POST"@.len() != "GET"@.len());
            assert("/api/create"@.len() != "/api/open"@.len());
            assert("/api/create"@.len() != "/api/save"@.len());
        },
        Route::Rename => {
            assert("POST"@.len() != "GET"@.len());
            assert("/api/rename"@.len() != "/api/open"@.len());
            assert("/api/rename"@.len() != "/api/save"@.len());
            assert("/api/rename"@[5] != "/api/create"@[5]);
        },
        Route::Delete => {
            assert("POST"@.len() != "GET"@.len());
            assert("/api/delete"@.len() != "/api/open"@.len());
            assert("/api/delete"@.len() != "/api/save"@.len());
            assert("/api/delete"@[5] != "/api/create"@[5]);
            assert("/api/delete"@[5] != "/api/rename"@[5]);
        },
        Route::SetEntry => {
            assert("POST"@.len() != "GET"@.len());
            assert("/api/set-entry"@.len() != "/api/open"@.len());
            assert("/api/set-entry"@.len() != "/api/save"@.len());
            assert("/api/set-entry"@.len() != "/api/create"@.len());
            assert("/api/set-entry"@.len() != "/api/rename"@.len());
            assert("/api/set-entry"@.len() != "/api/delete"@.len());
        },
        Route::Find => {
            assert("POST"@.len() != "GET"@.len());
            assert("/api/find"@[5] != "/api/open"@[5]);
            assert("/api/find"@[5] != "/api/save"@[5]);
            assert("/api/find"@.len() != "/api/create"@.len());
            assert("/api/find"@.len() != "/api/rename"@.len());
            assert("/api/find"@.len() != "/api/delete"@.len());
            assert("/api/find"@.len() != "/api/set-entry"@.len());
        },
        Route::Search => {
            assert("POST"@.len() != "GET"@.len());
            assert("/api/search"@.len() != "/api/open"@.len());
            assert("/api/search"@.len() != "/api/save"@.len());
            assert("/api/search"@[5] != "/api/create"@[5]);
            assert("/api/search"@[5] != "/api/rename"@[5]);
            assert("/api/search"@[5] != "/api/delete"@[5]);
            assert("/api/search"@.len() != "/api/set-entry"@.len());
            assert("/api/search"@.len() != "/api/find"@.len());
        },
        Route::Outline => {
            assert("POST"@.len() != "GET"@.len());
            assert("/api/outline"@.len() != "/api/open"@.len());
            assert("/api/outline"@.len() != "/api/save"@.len());
            assert("/api/outline"@.len() != "/api/create"@.len());
            assert("/api/outline"@.len() != "/api/rename"@.len());
            assert("/api/outline"@.len() != "/api/delete"@.len());
            assert("/api/outline"@.len() != "/api/set-entry"@.len());
            assert("/api/outline"@.len() != "/api/find"@.len());
            assert("/api/outline"@.len() != "/api/search"@.len());
        },
        Route::Snippet => {
            assert("POST"@.len() != "GET"@.len());
            assert("/api/snippet"@.len() != "/api/open"@.len());
            assert("/api/snippet"@.len() != "/api/save"@.len());
            assert("/api/snippet"@.len() != "/api/create"@.len());
            assert("/api/snippet"@.len() != "/api/rename"@.len());
            assert("/api/snippet"@.len() != "/api/delete"@.len());
            assert("/api/snippet"@.len() != "/api/set-entry"@.len());
            assert("/api/snippet"@.len() != "/api/find"@.len());
            assert("/api/snippet"@.len() != "/api/search"@.len());
            assert("/api/snippet"@[5] != "/api/outline"@[5]);
        },
        Route::AgentPreview => {
            assert("POST"@.len() != "GET"@.len());
            assert("/api/agent-preview"@.len() != "/api/open"@.len());
            assert("/api/agent-preview"@.len() != "/api/save"@.len());
            assert("/api/agent-preview"@.len() != "/api/create"@.len());
            assert("/api/agent-preview"@.len() != "/api/rename"@.len());
            assert("/api/agent-preview"@.len() != "/api/delete"@.len());
            assert("/api/agent-preview"@.len() != "/api/set-entry"@.len());
            assert("/api/agent-preview"@.len() != "/api/find"@.len());
            assert("/api/agent-preview"@.len() != "/api/search"@.len());
            assert("/api/agent-preview"@.len() != "/api/outline"@.len());
            assert("/api/agent-preview"@.len() != "/api/snippet"@.len());
        },
        Route::AgentApply => {
            assert("POST"@.len() != "GET"@.len());
            assert("/api/agent-apply"@.len() != "/api/open"@.len());
            assert("/api/agent-apply"@.len() != "/api/save"@.len());
            assert("/api/agent-apply"@.len() != "/api/create"@.len());
            assert("/api/agent-apply"@.len() != "/api/rename"@.len());
            assert("/api/agent-apply"@.len() != "/api/delete"@.len());
            assert("/api/agent-apply"@.len() != "/api/set-entry"@.len());
            assert("/api/agent-apply"@.len() != "/api/find"@.len());
            assert("/api/agent-apply"@.len() != "/api/search"@.len());
            assert("/api/agent-apply"@.len() != "/api/outline"@.len());
            assert("/api/agent-apply"@.len() != "/api/snippet"@.len());
            assert("/api/agent-apply"@.len() != "/api/agent-preview"@.len());
        },
        Route::Run => {
            assert("POST"@.len() != "GET"@.len());
            assert("/api/run"@.len() != "/api/open"@.len());
            assert("/api/run"@.len() != "/api/save"@.len());
            assert("/api/run"@.len() != "/api/create"@.len());
            assert("/api/run"@.len() != "/api/rename"@.len());
            assert("/api/run"@.len() != "/api/delete"@.len());
            assert("/api/run"@.len() != "/api/set-entry"@.len());
            assert("/api/run"@.len() != "/api/find"@.len());
            assert("/api/run"@.len() != "/api/search"@.len());
            assert("/api/run"@.len() != "/api/outline"@.len());
            assert("/api/run"@.len() != "/api/snippet"@.len());
            assert("/api/run"@.len() != "/api/agent-preview"@.len());
            assert("/api/run"@.len() != "/api/agent-apply"@.len());
        },
        Route::Build => {
            assert("POST"@.len() != "GET"@.len());
            assert("/api/build"@.len() != "/api/open"@.len());
            assert("/api/build"@.len() != "/api/save"@.len());
            assert("/api/build"@.len() != "/api/create"@.len());
            assert("/api/build"@.len() != "/api/rename"@.len());
            assert("/api/build"@.len() != "/api/delete"@.len());
            assert("/api/build"@.len() != "/api/set-entry"@.len());
            assert("/api/build"@.len() != "/api/find"@.len());
            assert("/api/build"@.len() != "/api/search"@.len());
            assert("/api/build"@.len() != "/api/outline"@.len());
            assert("/api/build"@.len() != "/api/snippet"@.len());
            assert("/api/build"@.len() != "/api/agent-preview"@.len());
            assert("/api/build"@.len() != "/api/agent-apply"@.len());
            assert("/api/build"@.len() != "/api/run"@.len());
        },
        Route::Audit => {
            assert("POST"@.len() != "GET"@.len());
            assert("/api/audit"@.len() != "/api/open"@.len());
            assert("/api/audit"@.len() != "/api/save"@.len());
            assert("/api/audit"@.len() != "/api/create"@.len());
            assert("/api/audit"@.len() != "/api/rename"@.len());
            assert("/api/audit"@.len() != "/api/delete"@.len());
            assert("/api/audit"@.len() != "/api/set-entry"@.len());
            assert("/api/audit"@.len() != "/api/find"@.len());
            assert("/api/audit"@.len() != "/api/search"@.len());
            assert("/api/audit"@.len() != "/api/outline"@.len());
            assert("/api/audit"@.len() != "/api/snippet"@.len());
            assert("/api/audit"@.len() != "/api/agent-preview"@.len());
            assert("/api/audit"@.len() != "/api/agent-apply"@.len());
            assert("/api/audit"@.len() != "/api/run"@.len());
            assert("/api/audit"@[5] != "/api/build"@[5]);
        },
        Route::Shell => {
            assert("POST"@.len() != "GET"@.len());
            assert("/api/shell"@.len() != "/api/open"@.len());
            assert("/api/shell"@.len() != "/api/save"@.len());
            assert("/api/shell"@.len() != "/api/create"@.len());
            assert("/api/shell"@.len() != "/api/rename"@.len());
            assert("/api/shell"@.len() != "/api/delete"@.len());
            assert("/api/shell"@.len() != "/api/set-entry"@.len());
            assert("/api/shell"@.len() != "/api/find"@.len());
            assert("/api/shell"@.len() != "/api/search"@.len());
            assert("/api/shell"@.len() != "/api/outline"@.len());
            assert("/api/shell"@.len() != "/api/snippet"@.len());
            assert("/api/shell"@.len() != "/api/agent-preview"@.len());
            assert("/api/shell"@.len() != "/api/agent-apply"@.len());
            assert("/api/shell"@.len() != "/api/run"@.len());
            assert("/api/shell"@[5] != "/api/build"@[5]);
            assert("/api/shell"@[5] != "/api/audit"@[5]);
        },
        Route::NotFound => {},
    }
}

/// Finds the route of a request.
pub fn route_request(method: &str, path: &str) -> (r: Route)
    ensures
        r == route_for(method@, path@),
{
    let m = chars_of(method);
    let p = chars_of(path);
    if crate::text::eq_lit(&m, "GET") {
        if crate::text::eq_lit(&p, "/") { Route::Index }
        else if crate::text::eq_lit(&p, "/docs/manual") { Route::DocManual }
        else if crate::text::eq_lit(&p, "/docs/spec") { Route::DocSpec }
        else if crate::text::eq_lit(&p, "/docs/techspec") { Route::DocTechSpec }
        else if crate::text::eq_lit(&p, "/docs/readme") { Route::DocReadme }
        else if crate::text::eq_lit(&p, "/favicon.ico") { Route::Favicon }
        else if crate::text::eq_lit(&p, "/api/state") { Route::State }
        else if crate::text::eq_lit(&p, "/api/doctor") { Route::Doctor }
        else if crate::text::eq_lit(&p, "/api/snippets") { Route::Snippets }
        else { Route::NotFound }
    } else if crate::text::eq_lit(&m, "POST") {
        if crate::text::eq_lit(&p, "/api/open") { Route::Open }
        else if crate::text::eq_lit(&p, "/api/save") { Route::Save }
        else if crate::text::eq_lit(&p, "/api/create") { Route::Create }
        else if crate::text::eq_lit(&p, "/api/rename") { Route::Rename }
        else if crate::text::eq_lit(&p, "/api/delete") { Route::Delete }
        else if crate::text::eq_lit(&p, "/api/set-entry") { Route::SetEntry }
        else if crate::text::eq_lit(&p, "/api/find") { Route::Find }
        else if crate::text::eq_lit(&p, "/api/search") { Route::Search }
        else if crate::text::eq_lit(&p, "/api/outline") { Route::Outline }
        else if crate::text::eq_lit(&p, "/api/snippet") { Route::Snippet }
        else if crate::text::eq_lit(&p, "/api/agent-preview") { Route::AgentPreview }
        else if crate::text::eq_lit(&p, "/api/agent-apply") { Route::AgentApply }
        else if crate::text::eq_lit(&p, "/api/run") { Route::Run }
        else if crate::text::eq_lit(&p, "/api/build") { Route::Build }
        else if crate::text::eq_lit(&p, "/api/audit") { Route::Audit }
        else if crate::text::eq_lit(&p, "/api/shell") { Route::Shell }
        else { Route::NotFound }
    } else {
        Route::NotFound
    }
}

/// Whether a route answers only requests that carry the session token:
/// every route of the API.
pub open spec fn route_needs_token(r: Route) -> bool {
    !(r == Route::Index || r == Route::DocManual || r == Route::DocSpec || r == Route::DocTechSpec
        || r == Route::DocReadme || r == Route::Favicon || r == Route::NotFound)
}

/// Whether a route answers only requests that carry the session token.
pub fn needs_token(r: Route) -> (b: bool)
    ensures
        b == route_needs_token(r),
{
    match r {
        Route::Index | Route::DocManual | Route::DocSpec | Route::DocTechSpec | Route::DocReadme
        | Route::Favicon | Route::NotFound => false,
        _ => true,
    }
}

/// The value of the first header with the given name, or the empty text.
pub open spec fn header_value(headers: Seq<(Seq<char>, Seq<char>)>, name: Seq<char>) -> Seq<char>
    decreases headers.len(),
{
    if headers.len() == 0 {
        Seq::empty()
    } else if headers[0].0 == name {
        headers[0].1
    } else {
        header_value(headers.drop_first(), name)
    }
}

/// The headers as pairs of texts.
pub open spec fn headers_view(headers: Seq<(String, String)>) -> Seq<(Seq<char>, Seq<char>)> {
    Seq::new(headers.len(), |i: int| (headers[i].0@, headers[i].1@))
}

/// The value of the first header with the given name, or the empty text.
pub fn header_of<'a>(headers: &'a Vec<(String, String)>, name: &str) -> (r: &'a str)
    ensures
        r@ == header_value(headers_view(headers@), name@),
{
    let mut i: usize = 0;
    assert(headers_view(headers@).skip(0) =~= headers_view(headers@));
    while i < headers.len()
        invariant
            i <= headers@.len(),
            header_value(headers_view(headers@), name@) == header_value(headers_view(headers@).skip(i as int), name@),
        decreases headers@.len() - i,
    {
        let ghost rest = headers_view(headers@).skip(i as int);
        assert(rest[0] == (headers@[i as int].0@, headers@[i as int].1@));
        assert(rest.drop_first() =~= headers_view(headers@).skip(i + 1));
        if crate::text::str_eq(headers[i].0.as_str(), name) {
            return headers[i].1.as_str();
        }
        i = i + 1;
    }
    assert(headers_view(headers@).skip(i as int).len() == 0);
    proof {
        reveal_strlit("");
    }
    ""
}

/// Checks the session token a request carries in `x-snsx-token`.
pub fn require_token(headers: &Vec<(String, String)>, token: &str) -> (r: Result<(), ShellError>)
    ensures
        match r {
            Ok(()) => header_value(headers_view(headers@), "x-snsx-token"@) == token@,
            Err(e) => header_value(headers_view(headers@), "x-snsx-token"@) != token@
                && e@ == "missing or invalid SNSX session token"@,
        },
{
    let provided = header_of(headers, "x-snsx-token");
    if crate::text::str_eq(provided, token) {
        Ok(())
    } else {
        Err(ShellError::new("missing or invalid SNSX session token"))
    }
}

/// Admits a request: its route, where the route answers requests without
/// the session token or the request carries the token in `x-snsx-token`;
/// otherwise the refusal, before any handler of the route runs.
pub fn admit_request(method: &str, path: &str, headers: &Vec<(String, String)>, token: &str) -> (r: Result<Route, ShellError>)
    ensures
        r is Err <==> route_needs_token(route_for(method@, path@))
            && header_value(headers_view(headers@), "x-snsx-token"@) != token@,
        r matches Err(e) ==> e@ == "missing or invalid SNSX session token"@,
        r matches Ok(route) ==> route == route_for(method@, path@),
{
    let route = route_request(method, path);
    if needs_token(route) {
        if let Err(e) = require_token(headers, token) {
            return Err(e);
        }
    }
    Ok(route)
}

/// The text with `&`, `<` and `>` written as HTML entities.
pub open spec fn escaped_html(s: Seq<char>) -> Seq<char>
    decreases s.len(),
{
    if s.len() == 0 {
        Seq::empty()
    } else {
        let c = s.last();
        escaped_html(s.drop_last()) + if c == '&' {
            "&amp;"@
        } else if c == '<' {
            "&lt;"@
        } else if c == '>' {
            "&gt;"@
        } else {
            seq![c]
        }
    }
}

/// Escapes a text for HTML.
pub fn escape_html(source: &str) -> (r: String)
    ensures
        r@ == escaped_html(source@),
{
    let v = chars_of(source);
    let mut s = String::new();
    let mut i: usize = 0;
    while i < v.len()
        invariant
            i <= v@.len(),
            v@ == source@,
            s@ == escaped_html(v@.take(i as int)),
        decreases v@.len() - i,
    {
        assert(v@.take(i + 1).drop_last() =~= v@.take(i as int));
        assert(v@.take(i + 1).last() == v@[i as int]);
        let c = v[i];
        if c == '&' {
            push_str(&mut s, "&amp;");
        } else if c == '<' {
            push_str(&mut s, "&lt;");
        } else if c == '>' {
            push_str(&mut s, "&gt;");
        } else {
            push_char(&mut s, c);
        }
        i = i + 1;
    }
    assert(v@.take(v@.len() as int) =~= v@);
    s
}

/// The page that shows a documentation file: the title, and the escaped
/// source in a preformatted panel.
pub open spec fn doc_page(title: Seq<char>, source: Seq<char>) -> Seq<char> {
    "<!doctype html>\n<html lang=\"en\">\n  <head>\n    <meta charset=\"utf-8\">\n    <meta name=\"viewport\" content=\"width=device-width, initial-scale=1\">\n    <title>"@ + title + "</title>\n    <style>\n      :root {\n        color-scheme: dark;\n        --bg: #071419;\n        --panel: rgba(12, 27, 33, 0.92);\n        --line: rgba(120, 181, 193, 0.18);\n        --ink: #ecfbff;\n        --muted: #99bfc9;\n        --accent: #78d3c0;\n      }\n      body {\n        margin: 0;\n        min-height: 100vh;\n        background:\n          radial-gradient(circle at top, rgba(120, 211, 192, 0.12), transparent 30%),\n          linear-gradient(180deg, #08161b, #040b0e 72%);\n        color: var(--ink);\n        font-family: \"IBM Plex Sans\", \"Segoe UI\", sans-serif;\n      }\n      main {\n        max-width: 1080px;\n        margin: 0 auto;\n        padding: 28px;\n      }\n      .hero {\n        display: flex;\n        justify-content: space-between;\n        gap: 16px;\n        align-items: center;\n        margin-bottom: 18px;\n      }\n      .back {\n        color: #021014;\n        background: linear-gradient(135deg, var(--accent), #f4d778);\n        padding: 10px 14px;\n        border-radius: 14px;\n        text-decoration: none;\n        font-weight: 700;\n      }\n      .panel {\n        background: var(--panel);\n        border: 1px solid var(--line);\n        border-radius: 22px;\n        padding: 18px;\n        box-shadow: 0 28px 70px rgba(0, 0, 0, 0.34);\n      }\n      pre {\n        margin: 0;\n        white-space: pre-wrap;\n        word-break: break-word;\n        color: var(--ink);\n        font-family: \"IBM Plex Mono\", monospace;\n        line-height: 1.58;\n      }\n      small {\n        color: var(--muted);\n      }\n    </style>\n  </head>\n  <body>\n    <main>\n      <div class=\"hero\">\n        <div>\n          <h1>"@ + title + "</h1>\n          <small>Loaded from the local SNSX repository.</small>\n        </div>\n        <a class=\"back\" href=\"/\">Back to UI</a>\n      </div>\n      <section class=\"panel\">\n        <pre>"@ + escaped_html(source) + "</pre>\n      </section>\n    </main>\n  </body>\n</html>"@
}

/// Builds the page that shows a documentation file.
pub fn render_doc_page(title: &str, source: &str) -> (r: String)
    ensures
        r@ == doc_page(title@, source@),
{
    let mut s = String::new();
    push_str(&mut s, "<!doctype html>\n<html lang=\"en\">\n  <head>\n    <meta charset=\"utf-8\">\n    <meta name=\"viewport\" content=\"width=device-width, initial-scale=1\">\n    <title>");
    push_str(&mut s, title);
    push_str(&mut s, "</title>\n    <style>\n      :root {\n        color-scheme: dark;\n        --bg: #071419;\n        --panel: rgba(12, 27, 33, 0.92);\n        --line: rgba(120, 181, 193, 0.18);\n        --ink: #ecfbff;\n        --muted: #99bfc9;\n        --accent: #78d3c0;\n      }\n      body {\n        margin: 0;\n        min-height: 100vh;\n        background:\n          radial-gradient(circle at top, rgba(120, 211, 192, 0.12), transparent 30%),\n          linear-gradient(180deg, #08161b, #040b0e 72%);\n        color: var(--ink);\n        font-family: \"IBM Plex Sans\", \"Segoe UI\", sans-serif;\n      }\n      main {\n        max-width: 1080px;\n        margin: 0 auto;\n        padding: 28px;\n      }\n      .hero {\n        display: flex;\n        justify-content: space-between;\n        gap: 16px;\n        align-items: center;\n        margin-bottom: 18px;\n      }\n      .back {\n        color: #021014;\n        background: linear-gradient(135deg, var(--accent), #f4d778);\n        padding: 10px 14px;\n        border-radius: 14px;\n        text-decoration: none;\n        font-weight: 700;\n      }\n      .panel {\n        background: var(--panel);\n        border: 1px solid var(--line);\n        border-radius: 22px;\n        padding: 18px;\n        box-shadow: 0 28px 70px rgba(0, 0, 0, 0.34);\n      }\n      pre {\n        margin: 0;\n        white-space: pre-wrap;\n        word-break: break-word;\n        color: var(--ink);\n        font-family: \"IBM Plex Mono\", monospace;\n        line-height: 1.58;\n      }\n      small {\n        color: var(--muted);\n      }\n    </style>\n  </head>\n  <body>\n    <main>\n      <div class=\"hero\">\n        <div>\n          <h1>");
    push_str(&mut s, title);
    push_str(&mut s, "</h1>\n          <small>Loaded from the local SNSX repository.</small>\n        </div>\n        <a class=\"back\" href=\"/\">Back to UI</a>\n      </div>\n      <section class=\"panel\">\n        <pre>");
    push_str(&mut s, escape_html(source).as_str());
    push_str(&mut s, "</pre>\n      </section>\n    </main>\n  </body>\n</html>");
    s
}

/// The index of the first `\r\n\r\n` in a buffer.
pub open spec fn is_header_end(b: Seq<u8>, i: int) -> bool {
    0 <= i && i + 4 <= b.len() && b[i] == 13 && b[i + 1] == 10 && b[i + 2] == 13 && b[i + 3] == 10
}

/// Finds where the head of a request ends.
pub fn find_header_end(buffer: &[u8]) -> (r: Option<usize>)
    ensures
        match r {
            Some(i) => is_header_end(buffer@, i as int) && forall|j: int| 0 <= j < i ==> !is_header_end(buffer@, j),
            None => forall|j: int| !is_header_end(buffer@, j),
        },
{
    let n = buffer.len();
    if n < 4 {
        return None;
    }
    let mut i: usize = 0;
    while i <= n - 4
        invariant
            n == buffer@.len(),
            n >= 4,
            i <= n - 3,
            forall|j: int| 0 <= j < i ==> !is_header_end(buffer@, j),
        decreases n - i,
    {
        if buffer[i] == 13 && buffer[i + 1] == 10 && buffer[i + 2] == 13 && buffer[i + 3] == 10 {
            return Some(i);
        }
        i = i + 1;
    }
    None
}

} // verus!

verus! {

/// The value of a text of decimal digits.
pub open spec fn digits_value(s: Seq<char>) -> nat
    decreases s.len(),
{
    if s.len() == 0 {
        0
    } else {
        10 * digits_value(s.drop_last()) + ((s.last() as nat) - ('0' as nat)) as nat
    }
}

/// Whether every character of a text is a decimal digit.
pub open spec fn all_digits(s: Seq<char>) -> bool {
    forall|i: int| 0 <= i < s.len() ==> '0' <= #[trigger] s[i] && s[i] <= '9'
}

/// The number a text stands for as `usize::from_str` reads it: an optional
/// `+`, then one or more decimal digits, of a value that fits.
pub open spec fn parsed_usize(s: Seq<char>) -> Option<nat> {
    let d = if s.len() > 0 && s[0] == '+' { s.skip(1) } else { s };
    if d.len() > 0 && all_digits(d) && digits_value(d) <= usize::MAX {
        Some(digits_value(d))
    } else {
        None
    }
}

proof fn lemma_digits_prefix_le(s: Seq<char>, k: int)
    requires
        0 <= k <= s.len(),
        all_digits(s),
    ensures
        digits_value(s.take(k)) <= digits_value(s),
    decreases s.len() - k,
{
    if k < s.len() {
        lemma_digits_prefix_le(s, k + 1);
        assert(s.take(k + 1).drop_last() =~= s.take(k));
        assert('0' <= s[k] && s[k] <= '9');
    } else {
        assert(s.take(k) =~= s);
    }
}

/// Reads a number as `usize::from_str` does.
pub fn parse_usize(s: &[char]) -> (r: Option<usize>)
    ensures
        match r {
            Some(n) => parsed_usize(s@) == Some(n as nat),
            None => parsed_usize(s@) is None,
        },
{
    let start: usize = if s.len() > 0 && s[0] == '+' { 1 } else { 0 };
    let ghost d = if s@.len() > 0 && s@[0] == '+' { s@.skip(1) } else { s@ };
    assert(d =~= s@.skip(start as int));
    if start >= s.len() {
        return None;
    }
    let mut value: usize = 0;
    let mut i = start;
    assert(d.take(0) =~= Seq::<char>::empty());
    while i < s.len()
        invariant
            start <= i <= s@.len(),
            d == s@.skip(start as int),
            d == (if s@.len() > 0 && s@[0] == '+' { s@.skip(1) } else { s@ }),
            forall|j: int| 0 <= j < i - start ==> '0' <= #[trigger] d[j] && d[j] <= '9',
            value == digits_value(d.take(i - start)),
        decreases s@.len() - i,
    {
        let c = s[i];
        assert(d[i - start] == c);
        if c < '0' || c > '9' {
            assert(!all_digits(d));
            return None;
        }
        let digit = (c as u32 - '0' as u32) as usize;
        assert(d.take(i + 1 - start).drop_last() =~= d.take(i - start));
        assert(d.take(i + 1 - start).last() == c);
        if value > (usize::MAX - digit) / 10 {
            proof {
                let rest_ok = all_digits(d);
                if rest_ok {
                    lemma_digits_prefix_le(d, i + 1 - start);
                    assert(digits_value(d.take(i + 1 - start)) == 10 * value + digit) by (nonlinear_arith)
                        requires
                            digits_value(d.take(i + 1 - start)) == 10 * digits_value(d.take(i - start)) + digit,
                            value == digits_value(d.take(i - start));
                    assert(10 * value + digit > usize::MAX) by (nonlinear_arith)
                        requires
                            value > (usize::MAX - digit) / 10,
                            digit <= 9;
                }
            }
            return None;
        }
        assert(10 * value + digit <= usize::MAX) by (nonlinear_arith)
            requires
                value <= (usize::MAX - digit) / 10,
                digit <= 9;
        value = value * 10 + digit;
        i = i + 1;
    }
    assert(d.take(d.len() as int) =~= d);
    Some(value)
}

} // verus!

verus! {

/// Whether `p` occurs in `s` at index `i`.
pub open spec fn occurs_at(s: Seq<char>, p: Seq<char>, i: int) -> bool {
    0 <= i && i + p.len() <= s.len() && s.subrange(i, i + p.len()) == p
}

/// The first index where `p` occurs in `s`.
pub open spec fn first_occurrence(s: Seq<char>, p: Seq<char>) -> Option<int> {
    if exists|i: int| occurs_at(s, p, i) {
        Some(choose|i: int| occurs_at(s, p, i) && forall|j: int| 0 <= j < i ==> !occurs_at(s, p, j))
    } else {
        None
    }
}

/// The last index of `c` in `s`.
pub open spec fn last_index(s: Seq<char>, c: char) -> Option<int> {
    if exists|i: int| 0 <= i < s.len() && s[i] == c {
        Some(choose|i: int| 0 <= i < s.len() && s[i] == c && forall|j: int| i < j < s.len() ==> s[j] != c)
    } else {
        None
    }
}

/// Finds the first occurrence of `p` in `v`.
fn find_first(v: &[char], p: &[char]) -> (r: Option<usize>)
    ensures
        match r {
            Some(i) => occurs_at(v@, p@, i as int) && forall|j: int| 0 <= j < i ==> !occurs_at(v@, p@, j),
            None => forall|j: int| !occurs_at(v@, p@, j),
        },
{
    if p.len() > v.len() {
        return None;
    }
    let mut i: usize = 0;
    while i <= v.len() - p.len()
        invariant
            p@.len() <= v@.len(),
            i <= v@.len() - p@.len() + 1,
            forall|j: int| 0 <= j < i ==> !occurs_at(v@, p@, j),
        decreases v@.len() - p@.len() + 1 - i,
    {
        let mut k: usize = 0;
        let mut same = true;
        while k < p.len()
            invariant
                p@.len() <= v@.len() <= usize::MAX,
                i + p@.len() <= v@.len(),
                k <= p@.len(),
                same == forall|m: int| 0 <= m < k ==> v@[i + m] == p@[m],
            decreases p@.len() - k,
        {
            if v[i + k] != p[k] {
                same = false;
            }
            k = k + 1;
        }
        if same {
            assert(v@.subrange(i as int, i + p@.len()) =~= p@);
            return Some(i);
        }
        assert(!occurs_at(v@, p@, i as int)) by {
            if occurs_at(v@, p@, i as int) {
                assert forall|m: int| 0 <= m < p@.len() implies v@[i + m] == p@[m] by {
                    assert(v@.subrange(i as int, i + p@.len())[m] == v@[i + m]);
                }
            }
        }
        i = i + 1;
    }
    None
}

/// Finds the last occurrence of `c` in `v`.
fn find_last(v: &[char], c: char) -> (r: Option<usize>)
    ensures
        match r {
            Some(i) => i < v@.len() && v@[i as int] == c && forall|j: int| i < j < v@.len() ==> v@[j] != c,
            None => forall|j: int| 0 <= j < v@.len() ==> v@[j] != c,
        },
{
    let mut i = v.len();
    while i > 0
        invariant
            i <= v@.len(),
            forall|j: int| i <= j < v@.len() ==> v@[j] != c,
        decreases i,
    {
        if v[i - 1] == c {
            return Some(i - 1);
        }
        i = i - 1;
    }
    None
}

/// A search result line read back: the path, the line number if it reads
/// as one, and the excerpt.
#[derive(Debug, Clone)]
pub struct SearchHit {
    pub path: String,
    pub line: Option<usize>,
    pub excerpt: String,
}

/// A search result line read back: split at the first ` | `, the part
/// before it at its last `:`.
pub open spec fn search_hit_of(line: Seq<char>) -> Option<(Seq<char>, Option<nat>, Seq<char>)> {
    match first_occurrence(line, " | "@) {
        None => None,
        Some(i) => {
            let prefix = line.take(i);
            let excerpt = line.skip(i + 3);
            match last_index(prefix, ':') {
                None => None,
                Some(j) => Some((prefix.take(j), parsed_usize(prefix.skip(j + 1)), excerpt)),
            }
        },
    }
}

/// Reads a search result line back.
pub fn parse_search_hit(line: &str) -> (r: Option<SearchHit>)
    ensures
        match r {
            Some(h) => search_hit_of(line@) == Some((h.path@, match h.line { Some(n) => Some(n as nat), None => None::<nat> }, h.excerpt@)),
            None => search_hit_of(line@) is None,
        },
{
    let v = chars_of(line);
    let sep = chars_of(" | ");
    proof {
        reveal_strlit(" | ");
    }
    let i = match find_first(&v, &sep) {
        None => {
            proof {
                assert(!(exists|k: int| occurs_at(line@, " | "@, k)));
            }
            return None;
        },
        Some(i) => i,
    };
    proof {
        let k = choose|k: int| occurs_at(line@, " | "@, k) && forall|j: int| 0 <= j < k ==> !occurs_at(line@, " | "@, j);
        assert(occurs_at(line@, " | "@, i as int));
        if k < i {
        } else if k > i {
        }
        assert(k == i);
    }
    let n = v.len();
    assert(i + 3 <= n);
    let prefix = chars_range(&v, 0, i);
    let excerpt = chars_range(&v, i + 3, n);
    assert(prefix@ =~= line@.take(i as int));
    assert(excerpt@ =~= line@.skip(i + 3));
    let j = match find_last(&prefix, ':') {
        None => {
            return None;
        },
        Some(j) => j,
    };
    proof {
        let k = choose|k: int| 0 <= k < prefix@.len() && prefix@[k] == ':' && forall|m: int| k < m < prefix@.len() ==> prefix@[m] != ':';
        assert(prefix@[j as int] == ':');
        if k < j {
        } else if k > j {
        }
        assert(k == j);
    }
    let path = chars_range(&prefix, 0, j);
    let number = chars_range(&prefix, j + 1, prefix.len());
    assert(path@ =~= prefix@.take(j as int));
    assert(number@ =~= prefix@.skip(j + 1));
    Some(SearchHit { path: string_of(&path), line: parse_usize(&number), excerpt: string_of(&excerpt) })
}

/// An outline line read back: the line number, the kind and the label.
#[derive(Debug, Clone)]
pub struct OutlineItem {
    pub line: usize,
    pub kind: String,
    pub label: String,
}

/// An outline line read back: its first word is the line number, the second
/// the kind, the rest the label joined by single spaces.
pub open spec fn outline_item_of(line: Seq<char>) -> Option<(nat, Seq<char>, Seq<char>)> {
    let w = crate::text::words(trim(line));
    if w.len() == 0 {
        None
    } else {
        match parsed_usize(w[0]) {
            None => None,
            Some(n) => if w.len() < 2 {
                None
            } else {
                Some((n, w[1], crate::shell::join_spaced(w.skip(2))))
            },
        }
    }
}

/// Joins words with single spaces.
fn join_words(ws: &Vec<Vec<char>>, from: usize) -> (r: String)
    requires
        from <= ws@.len(),
    ensures
        r@ == crate::shell::join_spaced(Seq::new(ws@.len(), |i: int| ws@[i]@).skip(from as int)),
{
    let ghost all = Seq::new(ws@.len(), |i: int| ws@[i]@);
    let ghost tail = all.skip(from as int);
    let mut s = String::new();
    let mut i = from;
    while i < ws.len()
        invariant
            from <= i <= ws@.len(),
            all == Seq::new(ws@.len(), |i: int| ws@[i]@),
            tail == all.skip(from as int),
            s@ == crate::shell::join_spaced(tail.take(i - from)),
        decreases ws@.len() - i,
    {
        let ghost pre = tail.take(i - from);
        let ghost pre2 = tail.take(i + 1 - from);
        assert(pre2.drop_last() =~= pre);
        assert(pre2.last() == ws@[i as int]@);
        if i > from {
            push_char(&mut s, ' ');
        }
        let w = string_of(&ws[i]);
        push_str(&mut s, w.as_str());
        proof {
            if i == from {
                assert(s@ =~= pre2[0]);
            } else {
                assert(s@ =~= crate::shell::join_spaced(pre) + seq![' '] + pre2.last());
            }
        }
        i = i + 1;
    }
    assert(tail.take(tail.len() as int) =~= tail);
    s
}

/// Reads an outline line back.
pub fn parse_outline_item(line: &str) -> (r: Option<OutlineItem>)
    ensures
        match r {
            Some(o) => outline_item_of(line@) == Some((o.line as nat, o.kind@, o.label@)),
            None => outline_item_of(line@) is None,
        },
{
    let v = chars_of(line);
    let (lo, hi) = trim_range(&v, 0, v.len());
    assert(v@.subrange(0, v@.len() as int) =~= line@);
    let t = chars_range(&v, lo, hi);
    let ws = crate::text::words_of(&t, 0);
    assert(t@.subrange(0, t@.len() as int) =~= t@);
    if ws.len() == 0 {
        return None;
    }
    let n = match parse_usize(&ws[0]) {
        None => return None,
        Some(n) => n,
    };
    if ws.len() < 2 {
        return None;
    }
    let kind = string_of(&ws[1]);
    let label = join_words(&ws, 2);
    assert(Seq::new(ws@.len(), |i: int| ws@[i]@) =~= crate::text::words(trim(line@)));
    Some(OutlineItem { line: n, kind, label })
}

} // verus!

verus! {

/// The pieces of a text split at `\r\n`, continuing the piece `cur` after
/// the pieces `done`.
pub open spec fn crlf_from(s: Seq<char>, cur: Seq<char>, done: Seq<Seq<char>>) -> Seq<Seq<char>>
    decreases s.len(),
{
    if s.len() == 0 {
        done.push(cur)
    } else if s.len() >= 2 && s[0] == '\r' && s[1] == '\n' {
        crlf_from(s.skip(2), Seq::empty(), done.push(cur))
    } else {
        crlf_from(s.drop_first(), cur.push(s[0]), done)
    }
}

/// The lines of a request head: the text split at every `\r\n`.
pub open spec fn split_crlf(s: Seq<char>) -> Seq<Seq<char>> {
    crlf_from(s, Seq::empty(), Seq::empty())
}

/// The index of the first `c` in `s`.
pub open spec fn first_index(s: Seq<char>, c: char) -> Option<int>
    decreases s.len(),
{
    if s.len() == 0 {
        None
    } else if s[0] == c {
        Some(0)
    } else {
        match first_index(s.drop_first(), c) {
            Some(i) => Some(i + 1),
            None => None,
        }
    }
}

/// A header line read as a name and a value: split at its first `:`, the
/// name trimmed and in ASCII lowercase, the value trimmed.
pub open spec fn header_of_line(line: Seq<char>) -> Option<(Seq<char>, Seq<char>)> {
    match first_index(line, ':') {
        None => None,
        Some(i) => Some((
            trim(line.take(i)).map_values(|c: char| crate::workspace::ascii_lower(c)),
            trim(line.skip(i + 1)),
        )),
    }
}

/// The headers of the lines after the request line: empty lines and lines
/// without `:` are left out.
pub open spec fn headers_of(lines: Seq<Seq<char>>) -> Seq<(Seq<char>, Seq<char>)>
    decreases lines.len(),
{
    if lines.len() == 0 {
        Seq::empty()
    } else {
        let rest = headers_of(lines.drop_last());
        if lines.last().len() == 0 {
            rest
        } else {
            match header_of_line(lines.last()) {
                Some(h) => rest.push(h),
                None => rest,
            }
        }
    }
}

/// The body length a request announces: the last `content-length` header
/// read as a number, zero where it does not read as one or is missing.
pub open spec fn content_length_of(headers: Seq<(Seq<char>, Seq<char>)>) -> nat
    decreases headers.len(),
{
    if headers.len() == 0 {
        0
    } else if headers.last().0 == "content-length"@ {
        match parsed_usize(headers.last().1) {
            Some(n) => n,
            None => 0,
        }
    } else {
        content_length_of(headers.drop_last())
    }
}

/// The head of a request: its method, path, headers and announced body
/// length.
#[derive(Debug, Clone)]
pub struct RequestHead {
    pub method: String,
    pub path: String,
    pub headers: Vec<(String, String)>,
    pub content_length: usize,
}

/// A request head read from its text: the method and path are the first
/// two words of the first line.
pub open spec fn request_head_of(head: Seq<char>) -> Result<(Seq<char>, Seq<char>, Seq<(Seq<char>, Seq<char>)>, nat), Seq<char>> {
    let lines = split_crlf(head);
    let w = crate::text::words(lines[0]);
    if w.len() == 0 {
        Err("missing request method"@)
    } else if w.len() == 1 {
        Err("missing request path"@)
    } else {
        let headers = headers_of(lines.skip(1));
        Ok((w[0], w[1], headers, content_length_of(headers)))
    }
}

proof fn lemma_crlf_nonempty(s: Seq<char>, cur: Seq<char>, done: Seq<Seq<char>>)
    ensures
        crlf_from(s, cur, done).len() > done.len(),
        forall|i: int| 0 <= i < done.len() ==> #[trigger] crlf_from(s, cur, done)[i] == done[i],
    decreases s.len(),
{
    if s.len() == 0 {
    } else if s.len() >= 2 && s[0] == '\r' && s[1] == '\n' {
        lemma_crlf_nonempty(s.skip(2), Seq::empty(), done.push(cur));
        assert forall|i: int| 0 <= i < done.len() implies #[trigger] crlf_from(s, cur, done)[i] == done[i] by {
            assert(done.push(cur)[i] == done[i]);
        }
    } else {
        lemma_crlf_nonempty(s.drop_first(), cur.push(s[0]), done);
    }
}

/// Splits a request head into its lines.
fn split_crlf_of(v: &[char]) -> (r: Vec<Vec<char>>)
    ensures
        r@.len() == split_crlf(v@).len(),
        forall|i: int| 0 <= i < r@.len() ==> (#[trigger] r@[i])@ == split_crlf(v@)[i],
{
    let mut done: Vec<Vec<char>> = Vec::new();
    let mut cur: Vec<char> = Vec::new();
    let mut i: usize = 0;
    let ghost mut dv: Seq<Seq<char>> = Seq::empty();
    assert(v@.skip(0) =~= v@);
    while i < v.len()
        invariant
            i <= v@.len(),
            done@.len() == dv.len(),
            forall|k: int| 0 <= k < done@.len() ==> (#[trigger] done@[k])@ == dv[k],
            crlf_from(v@.skip(i as int), cur@, dv) == split_crlf(v@),
        decreases v@.len() - i,
    {
        let ghost rest = v@.skip(i as int);
        if i + 1 < v.len() && v[i] == '\r' && v[i + 1] == '\n' {
            assert(rest.skip(2) =~= v@.skip(i + 2));
            let piece = cur;
            proof {
                dv = dv.push(piece@);
            }
            done.push(piece);
            cur = Vec::new();
            assert(cur@ =~= Seq::<char>::empty());
            i = i + 2;
        } else {
            assert(rest.drop_first() =~= v@.skip(i + 1));
            cur.push(v[i]);
            i = i + 1;
        }
    }
    assert(v@.skip(i as int).len() == 0);
    let piece = cur;
    proof {
        dv = dv.push(piece@);
    }
    done.push(piece);
    done
}

/// The index of the first `c` in `v`.
fn first_index_of(v: &[char], c: char) -> (r: Option<usize>)
    ensures
        match r {
            Some(i) => first_index(v@, c) == Some(i as int) && i < v@.len(),
            None => first_index(v@, c) is None,
        },
{
    let mut i: usize = 0;
    assert(v@.skip(0) =~= v@);
    while i < v.len()
        invariant
            i <= v@.len(),
            first_index(v@, c) == (match first_index(v@.skip(i as int), c) {
                Some(k) => Some(k + i),
                None => None::<int>,
            }),
        decreases v@.len() - i,
    {
        let ghost rest = v@.skip(i as int);
        assert(rest.drop_first() =~= v@.skip(i + 1));
        if v[i] == c {
            return Some(i);
        }
        i = i + 1;
    }
    assert(v@.skip(i as int).len() == 0);
    None
}

/// Reads a header line.
fn header_of_line_of(line: &[char]) -> (r: Option<(String, String)>)
    ensures
        match r {
            Some((n, val)) => header_of_line(line@) == Some((n@, val@)),
            None => header_of_line(line@) is None,
        },
{
    match first_index_of(line, ':') {
        None => None,
        Some(i) => {
            let (lo, hi) = trim_range(line, 0, i);
            assert(line@.subrange(0, i as int) =~= line@.take(i as int));
            let mut name = String::new();
            let mut k = lo;
            while k < hi
                invariant
                    lo <= k <= hi,
                    hi <= line@.len(),
                    name@ == line@.subrange(lo as int, k as int).map_values(|c: char| crate::workspace::ascii_lower(c)),
                decreases hi - k,
            {
                let ch = line[k];
                let lower = if 'A' <= ch && ch <= 'Z' { ((ch as u8) + 32) as char } else { ch };
                assert(lower == crate::workspace::ascii_lower(ch)) by {
                    if 'A' <= ch && ch <= 'Z' {
                        assert((ch as u8) as u32 == ch as u32);
                    }
                }
                push_char(&mut name, lower);
                k = k + 1;
                assert(name@ =~= line@.subrange(lo as int, k as int).map_values(|c: char| crate::workspace::ascii_lower(c)));
            }
            let n = line.len();
            let (vlo, vhi) = trim_range(line, i + 1, n);
            assert(line@.subrange(i + 1, line@.len() as int) =~= line@.skip(i + 1));
            Some((name, crate::text::string_of_range(line, vlo, vhi)))
        },
    }
}

/// Reads the head of a request.
pub fn parse_request_head(head: &str) -> (r: Result<RequestHead, ShellError>)
    ensures
        match r {
            Ok(h) => request_head_of(head@) == Ok::<(Seq<char>, Seq<char>, Seq<(Seq<char>, Seq<char>)>, nat), Seq<char>>(
                (h.method@, h.path@, headers_view(h.headers@), h.content_length as nat)),
            Err(e) => request_head_of(head@) == Err::<(Seq<char>, Seq<char>, Seq<(Seq<char>, Seq<char>)>, nat), Seq<char>>(e@),
        },
{
    let v = chars_of(head);
    let lines = split_crlf_of(&v);
    proof {
        lemma_crlf_nonempty(v@, Seq::empty(), Seq::empty());
    }
    let w = crate::text::words_of(&lines[0], 0);
    assert(lines@[0]@.subrange(0, lines@[0]@.len() as int) =~= lines@[0]@);
    if w.len() == 0 {
        return Err(ShellError::new("missing request method"));
    }
    if w.len() == 1 {
        return Err(ShellError::new("missing request path"));
    }
    let method = string_of(&w[0]);
    let path = string_of(&w[1]);
    let ghost all = split_crlf(v@);
    let ghost tail = all.skip(1);
    let mut headers: Vec<(String, String)> = Vec::new();
    let mut content_length: usize = 0;
    let mut i: usize = 1;
    while i < lines.len()
        invariant
            1 <= i <= lines@.len(),
            lines@.len() == all.len(),
            forall|k: int| 0 <= k < lines@.len() ==> (#[trigger] lines@[k])@ == all[k],
            tail == all.skip(1),
            headers_view(headers@) == headers_of(tail.take(i - 1)),
            content_length == content_length_of(headers_view(headers@)),
        decreases lines@.len() - i,
    {
        let ghost pre = tail.take(i - 1);
        let ghost pre2 = tail.take(i as int);
        assert(pre2.drop_last() =~= pre);
        assert(pre2.last() == lines@[i as int]@);
        if lines[i].len() > 0 {
            match header_of_line_of(&lines[i]) {
                Some((name, value)) => {
                    let ghost before = headers_view(headers@);
                    if crate::text::str_eq(name.as_str(), "content-length") {
                        let vv = chars_of(value.as_str());
                        content_length = match parse_usize(&vv) {
                            Some(n) => n,
                            None => 0,
                        };
                    }
                    let ghost nv = name@;
                    let ghost vv = value@;
                    headers.push((name, value));
                    assert(headers_view(headers@) =~= before.push((nv, vv)));
                    assert(headers_view(headers@).drop_last() =~= before);
                    assert(headers_view(headers@).last() == (nv, vv));
                },
                None => {},
            }
        }
        i = i + 1;
    }
    assert(tail.take(lines@.len() - 1) =~= tail);
    Ok(RequestHead { method, path, headers, content_length })
}

/// The reason phrase of a status code, as the studio writes it.
pub open spec fn reason_of(status: u16) -> Seq<char> {
    if status == 200 { "OK"@ } else if status == 204 { "No Content"@ } else if status == 400 { "Bad Request"@ }
    else if status == 401 { "Unauthorized"@ } else if status == 404 { "Not Found"@ }
    else if status == 500 { "Internal Server Error"@ } else { "OK"@ }
}

/// The reason phrase of a status code, as the studio writes it.
pub fn status_reason(status: u16) -> (r: &'static str)
    ensures
        r@ == reason_of(status),
{
    match status {
        200 => "OK",
        204 => "No Content",
        400 => "Bad Request",
        401 => "Unauthorized",
        404 => "Not Found",
        500 => "Internal Server Error",
        _ => "OK",
    }
}

/// The head of a response: the status line, the content type and length,
/// and the fixed cache, connection and security headers.
pub open spec fn response_head_text(status: u16, reason: Seq<char>, content_type: Seq<char>, length: nat) -> Seq<char> {
    "HTTP/1.1 "@ + crate::text::decimal(status as nat) + " "@ + reason + "\r\nContent-Type: "@ + content_type
        + "\r\nContent-Length: "@ + crate::text::decimal(length)
        + "\r\nCache-Control: no-store\r\nConnection: close\r\nX-Content-Type-Options: nosniff\r\nContent-Security-Policy: default-src 'self' 'unsafe-inline'; connect-src 'self'; img-src 'self' data:; style-src 'self' 'unsafe-inline'; script-src 'self' 'unsafe-inline'; frame-ancestors 'none'\r\n\r\n"@
}

/// Writes the head of a response.
pub fn response_head(status: u16, content_type: &str, length: usize) -> (r: String)
    ensures
        r@ == response_head_text(status, reason_of(status), content_type@, length as nat),
{
    let mut s = owned("HTTP/1.1 ");
    push_str(&mut s, crate::text::decimal_string(status as usize).as_str());
    push_str(&mut s, " ");
    push_str(&mut s, status_reason(status));
    push_str(&mut s, "\r\nContent-Type: ");
    push_str(&mut s, content_type);
    push_str(&mut s, "\r\nContent-Length: ");
    push_str(&mut s, crate::text::decimal_string(length).as_str());
    push_str(&mut s, "\r\nCache-Control: no-store\r\nConnection: close\r\nX-Content-Type-Options: nosniff\r\nContent-Security-Policy: default-src 'self' 'unsafe-inline'; connect-src 'self'; img-src 'self' data:; style-src 'self' 'unsafe-inline'; script-src 'self' 'unsafe-inline'; frame-ancestors 'none'\r\n\r\n");
    s
}

} // verus!

verus! {

/// How the web studio echoes a shell command.
pub open spec fn command_label_text(c: CommandView) -> Seq<char> {
    match c {
        CommandView::Help => "help"@,
        CommandView::Tools => "tools"@,
        CommandView::Docs => "docs"@,
        CommandView::Manual => "manual"@,
        CommandView::Spec => "spec"@,
        CommandView::TechSpec => "techspec"@,
        CommandView::History => "history"@,
        CommandView::Status => "status"@,
        CommandView::PermissionsShow => "permissions"@,
        CommandView::DependenciesShow => "deps"@,
        CommandView::Agent(p) => "agent "@ + p,
        CommandView::AgentWrite { path, prompt } => "agent write "@ + path + " "@ + prompt,
        CommandView::Run => "run"@,
        CommandView::Build(t) => "build "@ + crate::studio::target_name_of(t),
        CommandView::Audit => "audit"@,
        CommandView::Doctor => "doctor"@,
        CommandView::Clear => "clear"@,
        CommandView::Open(p) => "open "@ + p,
        CommandView::Pwd => "pwd"@,
        CommandView::Ls(p) => match p { Some(p) => "ls "@ + p, None => "ls"@ },
        CommandView::Tree(p) => match p { Some(p) => "tree "@ + p, None => "tree"@ },
        CommandView::Find(q) => "find "@ + q,
        CommandView::Search(q) => "search "@ + q,
        CommandView::Outline(p) => match p { Some(p) => "outline "@ + p, None => "outline"@ },
        CommandView::Cat(p) => "cat "@ + p,
        CommandView::Touch(p) => "touch "@ + p,
        CommandView::Mkdir(p) => "mkdir "@ + p,
        CommandView::Move { from, to } => "mv "@ + from + " "@ + to,
        CommandView::Copy { from, to } => "cp "@ + from + " "@ + to,
        CommandView::Remove(p) => "rm "@ + p,
        CommandView::EntryShow => "entry"@,
        CommandView::EntrySet(p) => "entry "@ + p,
        CommandView::PackageInit => "package init"@,
        CommandView::PackageList => "package list"@,
        CommandView::PackageAdd(n) => "package add "@ + n,
        CommandView::PackageRemove(n) => "package remove "@ + n,
        CommandView::ModuleList => "module list"@,
        CommandView::ModuleInstall(n) => "module install "@ + n,
        CommandView::ModuleScaffold(n) => "module scaffold "@ + n,
        CommandView::SnippetList => "snippet list"@,
        CommandView::SnippetCreate { kind, path } => "snippet create "@ + kind + " "@ + path,
        CommandView::ManifestShow => "manifest"@,
        CommandView::PermSet { name, enabled } => "perm "@ + name + " "@ + (if enabled { "on"@ } else { "off"@ }),
        CommandView::Host(c) => "!"@ + c,
    }
}

fn joined(a: &str, b: &str) -> (r: String)
    ensures
        r@ == a@ + b@,
{
    let mut s = owned(a);
    push_str(&mut s, b);
    s
}

fn joined3(a: &str, b: &str, c: &str, d: &str) -> (r: String)
    ensures
        r@ == a@ + b@ + c@ + d@,
{
    let mut s = owned(a);
    push_str(&mut s, b);
    push_str(&mut s, c);
    push_str(&mut s, d);
    s
}

fn optional_label(word: &str, p: &Option<String>) -> (r: String)
    ensures
        r@ == match *p { Some(p) => word@ + " "@ + p@, None => word@ },
{
    match p {
        Some(p) => {
            let mut s = owned(word);
            push_str(&mut s, " ");
            push_str(&mut s, p.as_str());
            s
        },
        None => owned(word),
    }
}

/// How the web studio echoes a shell command.
pub fn command_label(command: &ShellCommand) -> (r: String)
    ensures
        r@ == command_label_text(command@),
{
    proof {
        reveal_strlit("");
        reveal_strlit(" ");
        reveal_strlit("ls");
        reveal_strlit("ls ");
        reveal_strlit("tree");
        reveal_strlit("tree ");
        reveal_strlit("outline");
        reveal_strlit("outline ");
    }
    match command {
        ShellCommand::Help => owned("help"),
        ShellCommand::Tools => owned("tools"),
        ShellCommand::Docs => owned("docs"),
        ShellCommand::Manual => owned("manual"),
        ShellCommand::Spec => owned("spec"),
        ShellCommand::TechSpec => owned("techspec"),
        ShellCommand::History => owned("history"),
        ShellCommand::Status => owned("status"),
        ShellCommand::PermissionsShow => owned("permissions"),
        ShellCommand::DependenciesShow => owned("deps"),
        ShellCommand::Agent(p) => joined("agent ", p.as_str()),
        ShellCommand::AgentWrite { path, prompt } => joined3("agent write ", path.as_str(), " ", prompt.as_str()),
        ShellCommand::Run => owned("run"),
        ShellCommand::Build(t) => joined("build ", crate::studio::target_name(*t)),
        ShellCommand::Audit => owned("audit"),
        ShellCommand::Doctor => owned("doctor"),
        ShellCommand::Clear => owned("clear"),
        ShellCommand::Open(p) => joined("open ", p.as_str()),
        ShellCommand::Pwd => owned("pwd"),
        ShellCommand::Ls(p) => {
            let r = optional_label("ls", p);
            assert("ls"@ + " "@ =~= "ls "@);
            r
        },
        ShellCommand::Tree(p) => {
            let r = optional_label("tree", p);
            assert("tree"@ + " "@ =~= "tree "@);
            r
        },
        ShellCommand::Find(q) => joined("find ", q.as_str()),
        ShellCommand::Search(q) => joined("search ", q.as_str()),
        ShellCommand::Outline(p) => {
            let r = optional_label("outline", p);
            assert("outline"@ + " "@ =~= "outline "@);
            r
        },
        ShellCommand::Cat(p) => joined("cat ", p.as_str()),
        ShellCommand::Touch(p) => joined("touch ", p.as_str()),
        ShellCommand::Mkdir(p) => joined("mkdir ", p.as_str()),
        ShellCommand::Move { from, to } => joined3("mv ", from.as_str(), " ", to.as_str()),
        ShellCommand::Copy { from, to } => joined3("cp ", from.as_str(), " ", to.as_str()),
        ShellCommand::Remove(p) => joined("rm ", p.as_str()),
        ShellCommand::EntryShow => owned("entry"),
        ShellCommand::EntrySet(p) => joined("entry ", p.as_str()),
        ShellCommand::PackageInit => owned("package init"),
        ShellCommand::PackageList => owned("package list"),
        ShellCommand::PackageAdd(n) => joined("package add ", n.as_str()),
        ShellCommand::PackageRemove(n) => joined("package remove ", n.as_str()),
        ShellCommand::ModuleList => owned("module list"),
        ShellCommand::ModuleInstall(n) => joined("module install ", n.as_str()),
        ShellCommand::ModuleScaffold(n) => joined("module scaffold ", n.as_str()),
        ShellCommand::SnippetList => owned("snippet list"),
        ShellCommand::SnippetCreate { kind, path } => joined3("snippet create ", kind.as_str(), " ", path.as_str()),
        ShellCommand::ManifestShow => owned("manifest"),
        ShellCommand::PermSet { name, enabled } => joined3("perm ", name.as_str(), " ", crate::workspace::on_off(*enabled)),
        ShellCommand::Host(c) => joined("!", c.as_str()),
    }
}

} // verus!

verus! {

/// Where the web studio listens and how it opens.
#[derive(Debug, Clone)]
pub struct WebStudioOptions {
    pub host: String,
    pub port: u16,
    pub auto_open: bool,
    pub app_mode: bool,
}

impl Default for WebStudioOptions {
    /// Local loopback on port 8860, not opened in a browser, not in app mode.
    fn default() -> (o: Self)
        ensures
            o.host@ == "127.0.0.1"@,
            o.port == 8860,
            !o.auto_open,
            !o.app_mode,
    {
        WebStudioOptions { host: owned("127.0.0.1"), port: 8860, auto_open: false, app_mode: false }
    }
}

} // verus!

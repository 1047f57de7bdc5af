use webpipe::errors::ErrorTable;
use webpipe::guard::Guard;
use webpipe::handler::Handler;
use webpipe::http::{HeaderMap, Method, Request};
use webpipe::path::{path_segments, SegPat};
use webpipe::pipeline::{dispatch, App, AppState};
use webpipe::router::{match_route, Scope};

fn fixed(status: u16, body: &str) -> Handler {
    Handler::Fixed {
        status,
        headers: vec![],
        body: body.to_string(),
    }
}

fn app_of(scope: Scope) -> App {
    App {
        middlewares: vec![],
        routes: scope.build(),
        errors: ErrorTable::new(),
    }
}

fn get(path: &str) -> Request {
    Request {
        method: Method::Get,
        path: path.to_string(),
        headers: HeaderMap::new(),
    }
}

fn users_app() -> App {
    app_of(Scope::new().route(
        Method::Get,
        vec![
            SegPat::Lit("users".to_string()),
            SegPat::CaptureInt("user_id".to_string()),
        ],
        Handler::IntsEcho {
            prefix: "User ID: ".to_string(),
            sep: "".to_string(),
        },
    ))
}

#[test]
fn numeric_capture_binds() {
    let app = users_app();
    let mut state = AppState::new();
    let (resp, _) = dispatch(&app, &mut state, get("/users/42"));
    assert_eq!(resp.status, 200);
    assert_eq!(resp.body, "User ID: 42");
}

#[test]
fn numeric_capture_rejects_non_numeric() {
    let app = users_app();
    let mut state = AppState::new();
    let (resp, _) = dispatch(&app, &mut state, get("/users/abc"));
    assert_eq!(resp.status, 404);
    // Not a partial match either: nothing was bound and no handler ran.
    let r = match_route(&app.routes, Method::Get, "/users/abc", &HeaderMap::new());
    assert!(r.is_none());
}

#[test]
fn numeric_capture_rejects_overflow() {
    let app = users_app();
    let mut state = AppState::new();
    // One more than the largest value that fits in sixty-four bits.
    let (resp, _) = dispatch(&app, &mut state, get("/users/18446744073709551616"));
    assert_eq!(resp.status, 404);
    let (resp2, _) = dispatch(&app, &mut state, get("/users/18446744073709551615"));
    assert_eq!(resp2.status, 200);
    assert_eq!(resp2.body, "User ID: 18446744073709551615");
}

#[test]
fn date_captures_bind_in_order() {
    let app = app_of(Scope::new().route(
        Method::Get,
        vec![
            SegPat::Lit("posts".to_string()),
            SegPat::CaptureInt("year".to_string()),
            SegPat::CaptureInt("month".to_string()),
            SegPat::CaptureInt("day".to_string()),
        ],
        Handler::IntsEcho {
            prefix: "Post from ".to_string(),
            sep: "/".to_string(),
        },
    ));
    let mut state = AppState::new();
    let (resp, _) = dispatch(&app, &mut state, get("/posts/2024/5/17"));
    assert_eq!(resp.status, 200);
    assert_eq!(resp.body, "Post from 2024/5/17");
}

#[test]
fn update_item_on_post_and_put() {
    let handler = Handler::IntsEcho {
        prefix: "Updated item ID: ".to_string(),
        sep: "".to_string(),
    };
    let pattern = || {
        vec![
            SegPat::Lit("item".to_string()),
            SegPat::CaptureInt("item_id".to_string()),
        ]
    };
    let app = app_of(
        Scope::new()
            .route(Method::Post, pattern(), handler.clone())
            .route(Method::Put, pattern(), handler),
    );
    let mut state = AppState::new();
    for method in [Method::Post, Method::Put] {
        let (resp, _) = dispatch(
            &app,
            &mut state,
            Request {
                method,
                path: "/item/7".to_string(),
                headers: HeaderMap::new(),
            },
        );
        assert_eq!(resp.status, 200);
        assert_eq!(resp.body, "Updated item ID: 7");
    }
    // The wrong method does not match.
    let (resp, _) = dispatch(&app, &mut state, get("/item/7"));
    assert_eq!(resp.status, 404);
}

#[test]
fn first_match_wins_in_declaration_order() {
    let app = app_of(
        Scope::new()
            .route(
                Method::Get,
                vec![SegPat::Lit("users".to_string()), SegPat::CaptureStr("name".to_string())],
                fixed(200, "first"),
            )
            .route(
                Method::Get,
                vec![SegPat::Lit("users".to_string()), SegPat::CaptureInt("id".to_string())],
                fixed(200, "second"),
            ),
    );
    let mut state = AppState::new();
    let (resp, _) = dispatch(&app, &mut state, get("/users/42"));
    assert_eq!(resp.body, "first");
}

fn guarded_app() -> App {
    app_of(Scope::new().guard(Guard::HeaderPresent("x-tenant".to_string())).nest(
        vec![SegPat::Lit("admin".to_string())],
        Scope::new()
            .guard(Guard::HeaderIs("x-api-key".to_string(), "secret-key".to_string()))
            .route(
                Method::Get,
                vec![SegPat::Lit("dashboard".to_string())],
                fixed(200, "Dashboard endpoint"),
            ),
    ))
}

#[test]
fn nested_guards_require_both() {
    let app = guarded_app();
    let mut state = AppState::new();

    let mut both = HeaderMap::new();
    both.push("x-tenant", "acme");
    both.push("x-api-key", "secret-key");
    let (ok, _) = dispatch(
        &app,
        &mut state,
        Request { method: Method::Get, path: "/admin/dashboard".to_string(), headers: both },
    );
    assert_eq!(ok.status, 200);
    assert_eq!(ok.body, "Dashboard endpoint");

    // Missing the outer guard's header: no match, not a partial one.
    let mut only_inner = HeaderMap::new();
    only_inner.push("x-api-key", "secret-key");
    let (r1, _) = dispatch(
        &app,
        &mut state,
        Request {
            method: Method::Get,
            path: "/admin/dashboard".to_string(),
            headers: only_inner,
        },
    );
    assert_eq!(r1.status, 404);

    // Missing the inner guard's header.
    let mut only_outer = HeaderMap::new();
    only_outer.push("x-tenant", "acme");
    let (r2, _) = dispatch(
        &app,
        &mut state,
        Request {
            method: Method::Get,
            path: "/admin/dashboard".to_string(),
            headers: only_outer,
        },
    );
    assert_eq!(r2.status, 404);

    // Wrong value on the inner guard's header.
    let mut wrong = HeaderMap::new();
    wrong.push("x-tenant", "acme");
    wrong.push("x-api-key", "nope");
    let (r3, _) = dispatch(
        &app,
        &mut state,
        Request { method: Method::Get, path: "/admin/dashboard".to_string(), headers: wrong },
    );
    assert_eq!(r3.status, 404);
}

#[test]
fn guard_header_name_is_case_insensitive() {
    let app = guarded_app();
    let mut state = AppState::new();
    let mut headers = HeaderMap::new();
    headers.push("X-Tenant", "acme");
    headers.push("X-API-Key", "secret-key");
    let (resp, _) = dispatch(
        &app,
        &mut state,
        Request { method: Method::Get, path: "/admin/dashboard".to_string(), headers },
    );
    assert_eq!(resp.status, 200);
}

#[test]
fn path_segments_splits_on_slashes() {
    let segs = path_segments("/users/42");
    let texts: Vec<&str> = segs.iter().map(|s| s.as_str()).collect();
    assert_eq!(texts, vec!["users", "42"]);

    let segs = path_segments("/");
    let texts: Vec<&str> = segs.iter().map(|s| s.as_str()).collect();
    assert_eq!(texts, vec![""]);

    let segs = path_segments("/a//b");
    let texts: Vec<&str> = segs.iter().map(|s| s.as_str()).collect();
    assert_eq!(texts, vec!["a", "", "b"]);
}

#[test]
fn header_lookup_ignores_name_case() {
    let mut headers = HeaderMap::new();
    headers.push("Content-Type", "text/plain");
    assert_eq!(headers.get("content-type"), Some("text/plain".to_string()));
    assert_eq!(headers.get("CONTENT-TYPE"), Some("text/plain".to_string()));
    assert_eq!(headers.get("content-typo"), None);

    // Values keep their case and multiple values keep their order.
    headers.push("Accept", "text/html");
    headers.push("accept", "application/json");
    assert_eq!(headers.get("ACCEPT"), Some("text/html".to_string()));
}

use webpipe::errors::{standard_error_table, ErrorTable};
use webpipe::guard::Guard;
use webpipe::handler::Handler;
use webpipe::http::{HeaderMap, Method, Request};
use webpipe::middleware::{Event, Middleware, MwKind};
use webpipe::path::SegPat;
use webpipe::pipeline::{dispatch, App, AppState};
use webpipe::router::Scope;

fn get(path: &str) -> Request {
    Request {
        method: Method::Get,
        path: path.to_string(),
        headers: HeaderMap::new(),
    }
}

fn fixed(status: u16, body: &str) -> Handler {
    Handler::Fixed {
        status,
        headers: vec![],
        body: body.to_string(),
    }
}

fn status_app() -> App {
    let scope = Scope::new().route(
        Method::Get,
        vec![SegPat::Lit("status".to_string())],
        Handler::Fixed {
            status: 200,
            headers: vec![("content-type".to_string(), "application/json".to_string())],
            body: "{\"status\":\"operational\"}".to_string(),
        },
    );
    App {
        middlewares: vec![],
        routes: scope.build(),
        errors: ErrorTable::new(),
    }
}

fn request_id_values(resp: &webpipe::http::Response) -> Vec<String> {
    resp.headers
        .pairs()
        .iter()
        .filter(|p| p.0.eq_ignore_ascii_case("x-request-id"))
        .map(|p| p.1.clone())
        .collect()
}

#[test]
fn test_status_handler() {
    let app = status_app();
    let mut state = AppState::new();
    let (resp, _) = dispatch(&app, &mut state, get("/status"));
    assert!(resp.status >= 200 && resp.status < 300);
    assert!(resp.body.contains("\"status\":\"operational\""));
}

#[test]
fn request_id_present_exactly_once() {
    let app = status_app();
    let mut state = AppState::new();
    let (resp, _) = dispatch(&app, &mut state, get("/status"));
    assert_eq!(request_id_values(&resp).len(), 1);

    // Present exactly once even when the client sent one of its own.
    let mut headers = HeaderMap::new();
    headers.push("X-Request-Id", "spoofed");
    let req = Request {
        method: Method::Get,
        path: "/status".to_string(),
        headers,
    };
    let (resp2, _) = dispatch(&app, &mut state, req);
    let vals = request_id_values(&resp2);
    assert_eq!(vals.len(), 1);
    assert_ne!(vals[0], "spoofed");
}

#[test]
fn request_ids_fresh_across_requests() {
    let app = status_app();
    let mut state = AppState::new();
    let (r1, _) = dispatch(&app, &mut state, get("/status"));
    let (r2, _) = dispatch(&app, &mut state, get("/status"));
    let (r3, _) = dispatch(&app, &mut state, get("/missing"));
    let v1 = request_id_values(&r1);
    let v2 = request_id_values(&r2);
    let v3 = request_id_values(&r3);
    assert_ne!(v1[0], v2[0]);
    assert_ne!(v2[0], v3[0]);
    assert_ne!(v1[0], v3[0]);
}

#[test]
fn middleware_order_two_layers() {
    let scope = Scope::new().route(
        Method::Get,
        vec![SegPat::Lit("status".to_string())],
        fixed(200, "ok"),
    );
    let app = App {
        middlewares: vec![
            Middleware { id: 1, kind: MwKind::Log },
            Middleware { id: 2, kind: MwKind::Log },
        ],
        routes: scope.build(),
        errors: ErrorTable::new(),
    };
    let mut state = AppState::new();
    let (_, events) = dispatch(&app, &mut state, get("/status"));
    assert_eq!(
        events,
        vec![
            Event::Entered(1),
            Event::Entered(2),
            Event::HandlerRun,
            Event::Exited(2),
            Event::Exited(1),
        ]
    );
}

#[test]
fn middleware_short_circuit_skips_downstream() {
    let scope = Scope::new().route(
        Method::Get,
        vec![SegPat::Lit("status".to_string())],
        fixed(200, "ok"),
    );
    let app = App {
        middlewares: vec![
            Middleware { id: 1, kind: MwKind::Log },
            Middleware {
                id: 2,
                kind: MwKind::RequireHeader(
                    "authorization".to_string(),
                    "token".to_string(),
                    401,
                ),
            },
            Middleware { id: 3, kind: MwKind::Log },
        ],
        routes: scope.build(),
        errors: ErrorTable::new(),
    };
    let mut state = AppState::new();
    let (resp, events) = dispatch(&app, &mut state, get("/status"));
    assert_eq!(resp.status, 401);
    assert_eq!(
        events,
        vec![
            Event::Entered(1),
            Event::Entered(2),
            Event::Exited(2),
            Event::Exited(1),
        ]
    );

    let mut headers = HeaderMap::new();
    headers.push("Authorization", "token");
    let req = Request {
        method: Method::Get,
        path: "/status".to_string(),
        headers,
    };
    let (resp2, events2) = dispatch(&app, &mut state, req);
    assert_eq!(resp2.status, 200);
    assert_eq!(events2.len(), 7);
}

#[test]
fn default_header_added_only_when_absent() {
    let with_ct = Handler::Fixed {
        status: 200,
        headers: vec![("content-type".to_string(), "text/html".to_string())],
        body: "<h1>Hello</h1>".to_string(),
    };
    let mw = Middleware {
        id: 9,
        kind: MwKind::DefaultHeader("content-type".to_string(), "application/json".to_string()),
    };
    let scope = Scope::new()
        .route(Method::Get, vec![SegPat::Lit("html".to_string())], with_ct)
        .route(Method::Get, vec![SegPat::Lit("bare".to_string())], fixed(200, "x"));
    let app = App {
        middlewares: vec![mw],
        routes: scope.build(),
        errors: ErrorTable::new(),
    };
    let mut state = AppState::new();

    let (r1, _) = dispatch(&app, &mut state, get("/html"));
    let cts: Vec<String> = r1
        .headers
        .pairs()
        .iter()
        .filter(|p| p.0.eq_ignore_ascii_case("content-type"))
        .map(|p| p.1.clone())
        .collect();
    assert_eq!(cts, vec!["text/html".to_string()]);

    let (r2, _) = dispatch(&app, &mut state, get("/bare"));
    assert_eq!(r2.headers.get("content-type"), Some("application/json".to_string()));
}

#[test]
fn set_request_header_feeds_downstream_guard() {
    let scope = Scope::new().nest(
        vec![SegPat::Lit("internal".to_string())],
        Scope::new()
            .guard(Guard::HeaderIs("x-source".to_string(), "edge".to_string()))
            .route(Method::Get, vec![SegPat::Lit("info".to_string())], fixed(200, "internal info")),
    );
    let mw = Middleware {
        id: 4,
        kind: MwKind::SetRequestHeader("x-source".to_string(), "edge".to_string()),
    };
    let routes = scope.build();

    // Without the middleware the guard rejects the bare request.
    let bare = App {
        middlewares: vec![],
        routes: Scope::new()
            .nest(
                vec![SegPat::Lit("internal".to_string())],
                Scope::new()
                    .guard(Guard::HeaderIs("x-source".to_string(), "edge".to_string()))
                    .route(
                        Method::Get,
                        vec![SegPat::Lit("info".to_string())],
                        fixed(200, "internal info"),
                    ),
            )
            .build(),
        errors: ErrorTable::new(),
    };
    let mut state = AppState::new();
    let (r0, _) = dispatch(&bare, &mut state, get("/internal/info"));
    assert_eq!(r0.status, 404);

    let app = App {
        middlewares: vec![mw],
        routes,
        errors: ErrorTable::new(),
    };
    let (r1, _) = dispatch(&app, &mut state, get("/internal/info"));
    assert_eq!(r1.status, 200);
    assert_eq!(r1.body, "internal info");
}

#[test]
fn error_mapping_not_found_and_internal() {
    let scope = Scope::new().route(
        Method::Get,
        vec![SegPat::Lit("boom".to_string())],
        fixed(500, ""),
    );
    let app = App {
        middlewares: vec![],
        routes: scope.build(),
        errors: standard_error_table(),
    };
    let mut state = AppState::new();

    let (r404, _) = dispatch(&app, &mut state, get("/no/such/route"));
    assert_eq!(r404.status, 404);
    assert_eq!(
        r404.body,
        "{\"error\":\"Not found\",\"message\":\"The requested resource was not found\"}"
    );
    assert_eq!(r404.headers.get("content-type"), Some("application/json".to_string()));

    let (r500, _) = dispatch(&app, &mut state, get("/boom"));
    assert_eq!(r500.status, 500);
    assert_eq!(r500.body, "Internal server error");
}

#[test]
fn error_mapping_bad_request_and_passthrough() {
    let scope = Scope::new()
        .route(Method::Get, vec![SegPat::Lit("bad".to_string())], fixed(400, "ugly details"))
        .route(Method::Get, vec![SegPat::Lit("fine".to_string())], fixed(200, "all good"));
    let app = App {
        middlewares: vec![],
        routes: scope.build(),
        errors: standard_error_table(),
    };
    let mut state = AppState::new();

    let (r400, _) = dispatch(&app, &mut state, get("/bad"));
    assert_eq!(r400.status, 400);
    assert_eq!(r400.body, "Bad request");

    // 200 has no handler registered: the response passes through.
    let (r200, _) = dispatch(&app, &mut state, get("/fine"));
    assert_eq!(r200.status, 200);
    assert_eq!(r200.body, "all good");
}

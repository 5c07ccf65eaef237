use ks_ui::connector::{
    after_message_loop, agent_connector_key, claims_remaining_at, claims_remaining_secs, dioxus_ipc, display_name, execute_route,
    exp_claim, find_seq, frame_to_backend, frame_to_platform, get_cluster_info, get_credentials_path,
    get_keys_dir, get_private_key_path, home_dir, instance_id_for, is_html, join_path, jwt_payload_base64,
    jwt_payload_bytes, list_clusters, manifest_title, ott_reply, ott_retry_delay_ms, parse_tool_call,
    permission_mode_label, permission_report, proxy_target, register_response, registration_url,
    remaining_secs, rewrite_dioxus_websocket_url, session_tokens, sleep_checks, token_payload_base64,
    token_payload_bytes, token_refresh_url, token_url, tool_names_text, tool_request_route, tool_route, ws_target, ClusterBody,
    ConnAction, ConnState, ExecuteRoute, IpcAddr, KubeCluster, KubeContext, Kubeconfig, LoopOutcome,
    OttReply, ParamsSource, PermissionMode, ToolCall, ToolRoute, MAX_AUTH_FAILURES, WS_SHIM, WS_URL_FUNCTION,
};
use ks_ui::connector::{refresh_plan, refresh_retry_wait, RefreshPlan, ws_open_reply, WsConnect, loop_step, ott_step, LoopEvent, LoopStep, OttNext, OttOutcome, OTT_MAX_ATTEMPTS};
use ks_ui::json::JsonValue;

fn object(entries: Vec<(&str, JsonValue)>) -> JsonValue {
    JsonValue::Object(entries.into_iter().map(|(k, v)| (k.to_string(), v)).collect(), "{}".to_string())
}

fn text(s: &str) -> JsonValue {
    JsonValue::Str(s.to_string())
}

#[test]
fn paths_join_like_unix_paths() {
    assert_eq!(join_path("/home/u", ".matrix"), "/home/u/.matrix");
    assert_eq!(join_path("/home/u/", "x"), "/home/u/x");
    assert_eq!(join_path("", "x"), "x");
    assert_eq!(join_path("/a", "/etc"), "/etc");
    assert_eq!(home_dir(None), ".");
    assert_eq!(home_dir(Some("/root".to_string())), "/root");
}

#[test]
fn key_and_credential_files() {
    let keys = get_keys_dir(None, "/home/u");
    assert_eq!(keys, "/home/u/.matrix/keys");
    assert_eq!(get_keys_dir(Some("/keys".to_string()), "/home/u"), "/keys");
    assert_eq!(get_private_key_path(&keys, "kube-studio", "prod"), "/home/u/.matrix/keys/kube-studio_prod.pem");
    assert_eq!(
        get_credentials_path("/home/u", "kube-studio", "prod"),
        "/home/u/.matrix/credentials/kube-studio_prod.json"
    );
}

#[test]
fn liveview_address_once_recorded() {
    let slot = Some(IpcAddr { name: "/tmp/ks.sock".to_string() });
    assert_eq!(dioxus_ipc(&slot).name, "/tmp/ks.sock");
}

#[test]
fn page_requests() {
    assert_eq!(proxy_target("/"), "/liveview");
    assert_eq!(proxy_target(""), "/liveview");
    assert_eq!(proxy_target("/assets/app.js"), "/assets/app.js");
    assert!(is_html("text/html; charset=utf-8"));
    assert!(!is_html("application/javascript"));
}

const LIVEVIEW_FN: &str = "function __dioxusGetWsUrl(path) {\n  let loc = window.location;\n  let new_url = \"ws:\";\n  new_url += \"//\" + loc.host + path;\n  return new_url;\n}";

#[test]
fn rewrite_replaces_the_socket_function_and_adds_the_shim() {
    let page = format!("<html><head><script>{}</script></head><body></body></html>", LIVEVIEW_FN);
    let out = rewrite_dioxus_websocket_url(&page);
    let expected_script = format!("<html><head><script>{}</script>", WS_URL_FUNCTION);
    assert!(out.starts_with(&expected_script));
    assert!(out.ends_with(&format!("{}</head><body></body></html>", WS_SHIM)));
    assert!(!out.contains("new_url = \"ws:\""));
}

#[test]
fn rewrite_uses_body_without_head() {
    let page = format!("<script>{}</script><body>x</body>", LIVEVIEW_FN);
    let out = rewrite_dioxus_websocket_url(&page);
    assert_eq!(out, format!("<script>{}</script>{}<body>x</body>", WS_URL_FUNCTION, WS_SHIM));
}

#[test]
fn pages_without_the_socket_function_are_unchanged() {
    let page = "<html><head></head><body>plain</body></html>";
    assert_eq!(rewrite_dioxus_websocket_url(page), page);
}

#[test]
fn find_seq_counts_characters() {
    let s: Vec<char> = "aé</head>".chars().collect();
    let p: Vec<char> = "</head>".chars().collect();
    assert_eq!(find_seq(&s, &p), Some(2));
    assert_eq!(find_seq(&s, &['z']), None);
    assert_eq!(find_seq(&s, &[]), Some(0));
}

#[test]
fn sandbox_token_payload() {
    assert_eq!(token_payload_base64("eyJleHAiOjE3MDAwMDAwMDB9.sig"), "eyJleHAiOjE3MDAwMDAwMDB9");
    assert_eq!(token_payload_base64("-_-_.x"), "+/+/");
    assert_eq!(token_payload_base64("ab"), "ab==");
    assert_eq!(token_payload_base64("abc.d"), "abc=");
    assert_eq!(token_payload_bytes("eyJleHAiOjE3MDAwMDAwMDB9.sig"), Some(b"{\"exp\":1700000000}".to_vec()));
    assert_eq!(token_payload_bytes("-_-_"), Some(vec![251, 255, 191]));
    assert_eq!(token_payload_bytes("!!!!.x"), None);
}

#[test]
fn jwt_payload() {
    let jwt = "hdr.eyJlbWFpbCI6ImFAYi5jIiwic3ViIjoieCJ9.sig";
    assert_eq!(jwt_payload_base64(jwt).as_deref(), Some("eyJlbWFpbCI6ImFAYi5jIiwic3ViIjoieCJ9"));
    assert_eq!(jwt_payload_bytes(jwt), Some(b"{\"email\":\"a@b.c\",\"sub\":\"x\"}".to_vec()));
    assert_eq!(jwt_payload_base64("no-dots"), None);
    assert_eq!(jwt_payload_bytes("no-dots"), None);
    assert_eq!(jwt_payload_base64("a.bc").as_deref(), Some("bc=="));
    assert_eq!(jwt_payload_base64("h.-_8.s").as_deref(), Some("+/8="));
    assert_eq!(jwt_payload_bytes("h.-_8.s"), Some(vec![0xfb, 0xff]));
}

#[test]
fn claims() {
    let c = object(vec![("exp", JsonValue::Number("1700000000".to_string())), ("email", text("a@b.c"))]);
    assert_eq!(exp_claim(&c), Some(1700000000));
    assert_eq!(display_name(&c).as_deref(), Some("a@b.c"));
    let u = object(vec![("preferred_username", text("alice")), ("exp", text("soon"))]);
    assert_eq!(display_name(&u).as_deref(), Some("alice"));
    assert_eq!(exp_claim(&u), None);
    let n = object(vec![("email", JsonValue::Number("3".to_string())), ("preferred_username", text("bob"))]);
    assert_eq!(display_name(&n), None);
    assert_eq!(remaining_secs(1700000100, 1700000000), 100);
    assert_eq!(remaining_secs(10, 20), -10);
}

#[test]
fn remaining_seconds_by_the_clock() {
    let past = object(vec![("exp", JsonValue::Number("1000".to_string()))]);
    let d = claims_remaining_secs(&past).unwrap();
    assert!(d < 0 && d <= 1000);
    let future = object(vec![("exp", JsonValue::Number("99999999999".to_string()))]);
    assert!(claims_remaining_secs(&future).unwrap() > 0);
    assert_eq!(claims_remaining_secs(&object(vec![])), None);
}

#[test]
fn remaining_seconds_at_a_reading() {
    let c = object(vec![("exp", JsonValue::Number("1700000100".to_string()))]);
    assert_eq!(claims_remaining_at(&c, Some(1700000000)), Some(100));
    assert_eq!(claims_remaining_at(&c, Some(1700000200)), Some(-100));
    assert_eq!(claims_remaining_at(&c, None), None);
    assert_eq!(claims_remaining_at(&c, Some(u64::MAX)), None);
    let low = object(vec![("exp", JsonValue::Number("-9223372036854775808".to_string()))]);
    assert_eq!(claims_remaining_at(&low, Some(0)), Some(i64::MIN));
    assert_eq!(claims_remaining_at(&low, Some(1)), None);
    assert_eq!(claims_remaining_at(&object(vec![]), Some(5)), None);
}

#[test]
fn session_tokens_from_query() {
    assert_eq!(session_tokens("__st=abc&app=x&__st=d%20e"), vec!["abc".to_string(), "d e".to_string()]);
    assert_eq!(session_tokens(""), Vec::<String>::new());
    assert_eq!(session_tokens("__st=&x=1"), Vec::<String>::new());
    assert_eq!(session_tokens("__st=%FF"), Vec::<String>::new());
    assert_eq!(session_tokens("x__st=a"), Vec::<String>::new());
}

#[test]
fn frames_between_platform_and_socket() {
    assert_eq!(frame_to_backend(b"aGVsbG8="), b"hello".to_vec());
    assert_eq!(frame_to_backend(b"not base64!"), b"not base64!".to_vec());
    assert_eq!(frame_to_backend(&[0xff, 0x00]), vec![0xff, 0x00]);
    assert_eq!(frame_to_platform(b"hello"), b"aGVsbG8=".to_vec());
    let data: Vec<u8> = (0u8..=255).collect();
    assert_eq!(frame_to_backend(&frame_to_platform(&data)), data);
}

#[test]
fn socket_targets() {
    let (p, u) = ws_target("", "");
    assert_eq!(p, "/ws");
    assert_eq!(u, "ws://localhost/ws");
    let (p, u) = ws_target("/live", "a=1");
    assert_eq!(p, "/live");
    assert_eq!(u, "ws://localhost/live?a=1");
}

#[test]
fn registration_retries_double_up_to_three_seconds() {
    assert_eq!(ott_retry_delay_ms(1), 500);
    assert_eq!(ott_retry_delay_ms(2), 1000);
    assert_eq!(ott_retry_delay_ms(3), 2000);
    assert_eq!(ott_retry_delay_ms(4), 3000);
    assert_eq!(ott_retry_delay_ms(30), 3000);
    assert_eq!(ott_retry_delay_ms(56), 3000);
}

#[test]
fn registration_endpoint() {
    assert_eq!(registration_url(false, Some("https://api".to_string()), "https://srv", "/r"), "https://api/r");
    assert_eq!(registration_url(true, Some("https://api".to_string()), "https://srv", "/r"), "https://srv/r");
    assert_eq!(registration_url(false, Some(String::new()), "https://srv", "/r"), "https://srv/r");
    assert_eq!(registration_url(false, None, "https://srv", "/r"), "https://srv/r");
}

#[test]
fn registration_replies() {
    assert_eq!(ott_reply(201, ""), OttReply::Registered);
    assert_eq!(ott_reply(401, "Invalid or expired token"), OttReply::Retry);
    assert_eq!(ott_reply(401, "nope"), OttReply::Failed);
    assert_eq!(ott_reply(500, "Invalid or expired"), OttReply::Failed);
    assert_eq!(register_response(true, "auth_invalid"), None);
    assert_eq!(register_response(false, "jwt_invalid: bad"), Some(LoopOutcome::AuthFailure));
    assert_eq!(register_response(false, "untrusted_issuer"), Some(LoopOutcome::AuthFailure));
    assert_eq!(register_response(false, "timeout"), Some(LoopOutcome::Exit));
}

#[test]
fn three_rejections_drop_the_credentials() {
    let mut s = ConnState { auth_failures: 0, has_credentials: true };
    for i in 1..MAX_AUTH_FAILURES {
        let (n, a) = after_message_loop(s, LoopOutcome::AuthFailure, false);
        assert_eq!(n.auth_failures, i);
        assert_eq!(a, ConnAction::Wait { millis: 2000, clear_credentials: false });
        s = n;
    }
    let (n, a) = after_message_loop(s, LoopOutcome::AuthFailure, false);
    assert_eq!(n, ConnState { auth_failures: 0, has_credentials: false });
    assert_eq!(a, ConnAction::Wait { millis: 2000, clear_credentials: true });
}

#[test]
fn reconnect_and_exit() {
    let s = ConnState { auth_failures: 2, has_credentials: false };
    let (n, a) = after_message_loop(s, LoopOutcome::Reconnect, false);
    assert_eq!(n, ConnState { auth_failures: 0, has_credentials: true });
    assert_eq!(a, ConnAction::Wait { millis: 500, clear_credentials: false });
    let (_, a) = after_message_loop(s, LoopOutcome::Exit, true);
    assert_eq!(a, ConnAction::Stop);
}

#[test]
fn sleeps_and_instance_ids() {
    assert_eq!(sleep_checks(5000), 50);
    assert_eq!(sleep_checks(50), 1);
    assert_eq!(sleep_checks(150), 1);
    assert_eq!(instance_id_for("default", false, &Some("prod".to_string())), "default-prod");
    assert_eq!(instance_id_for("mine", true, &Some("prod".to_string())), "mine");
    assert_eq!(instance_id_for("default", false, &None), "default");
}

#[test]
fn execute_requests_route_by_tool() {
    let p = Some(object(vec![("tool", text("list_clusters")), ("args", object(vec![]))]));
    match execute_route(&p) {
        ExecuteRoute::Tool(t, src) => {
            assert_eq!(t, "list_clusters");
            assert_eq!(src, ParamsSource::Args);
        }
        ExecuteRoute::Page => panic!("expected a tool call"),
    }
    let p = Some(object(vec![("tool", JsonValue::Null), ("parameters", object(vec![])), ("args", object(vec![]))]));
    match execute_route(&p) {
        ExecuteRoute::Tool(t, src) => {
            assert_eq!(t, "");
            assert_eq!(src, ParamsSource::Parameters);
        }
        ExecuteRoute::Page => panic!("expected a tool call"),
    }
    let p = Some(object(vec![("tool", text("x"))]));
    assert!(matches!(execute_route(&p), ExecuteRoute::Tool(_, ParamsSource::Empty)));
    assert!(matches!(execute_route(&Some(object(vec![("path", text("/"))]))), ExecuteRoute::Page));
    assert!(matches!(execute_route(&None), ExecuteRoute::Page));
}

#[test]
fn tool_calls_read_their_parameters() {
    let params = object(vec![("context_name", text("prod")), ("command", text("ls")), ("kubeconfig_path", text("/k"))]);
    match parse_tool_call("get_cluster_info", &params) {
        ToolCall::GetClusterInfo { context, kubeconfig_path } => {
            assert_eq!(context, "prod");
            assert_eq!(kubeconfig_path.as_deref(), Some("/k"));
        }
        _ => panic!("expected get_cluster_info"),
    }
    match parse_tool_call("toolbox_exec", &params) {
        ToolCall::ToolboxExec { command, context_name } => {
            assert_eq!(command, "ls");
            assert_eq!(context_name.as_deref(), Some("prod"));
        }
        _ => panic!("expected toolbox_exec"),
    }
    assert!(matches!(parse_tool_call("get_permissions", &params), ToolCall::GetPermissions));
    assert!(matches!(parse_tool_call("list_clusters", &object(vec![])), ToolCall::ListClusters { kubeconfig_path: None }));
}

#[test]
fn tool_call_errors() {
    let empty = object(vec![]);
    match parse_tool_call("get_cluster_info", &empty) {
        ToolCall::Invalid(e) => assert_eq!(e, "Missing required parameter: context_name"),
        _ => panic!("expected an error"),
    }
    match parse_tool_call("toolbox_exec", &empty) {
        ToolCall::Invalid(e) => assert_eq!(e, "Missing required parameter: command"),
        _ => panic!("expected an error"),
    }
    match parse_tool_call("drop_cluster", &empty) {
        ToolCall::Invalid(e) => assert_eq!(e, "Unknown tool: drop_cluster"),
        _ => panic!("expected an error"),
    }
}

#[test]
fn registered_tool_names() {
    let names = tool_names_text();
    let params = object(vec![("context_name", text("c")), ("command", text("x"))]);
    for n in names.split(',') {
        assert!(!matches!(parse_tool_call(n, &params), ToolCall::Invalid(_)), "{}", n);
    }
    assert_eq!(names.split(',').count(), 8);
}

#[test]
fn permissions() {
    let (m, w, _) = permission_report(PermissionMode::ReadOnly);
    assert_eq!(m, "read");
    assert!(!w);
    let (m, w, _) = permission_report(PermissionMode::ReadWrite);
    assert_eq!(m, "write");
    assert!(w);
    assert_eq!(permission_mode_label(PermissionMode::ReadOnly), "READ-ONLY (view)");
    assert_eq!(permission_mode_label(PermissionMode::ReadWrite), "READ-WRITE (cluster-admin)");
}

fn kubeconfig() -> Kubeconfig {
    Kubeconfig {
        contexts: vec![
            KubeContext {
                name: "prod".to_string(),
                cluster: Some("prod-cluster".to_string()),
                user: Some("admin".to_string()),
                namespace: Some("apps".to_string()),
                has_body: true,
            },
            KubeContext { name: "bare".to_string(), cluster: None, user: None, namespace: None, has_body: false },
        ],
        clusters: vec![KubeCluster {
            name: "prod-cluster".to_string(),
            body: Some(ClusterBody {
                server: Some("https://10.0.0.1:6443".to_string()),
                tls_server_name: Some("kube".to_string()),
                insecure_skip_tls_verify: Some(true),
            }),
        }],
    }
}

#[test]
fn contexts_are_listed_with_their_servers() {
    let l = list_clusters(&kubeconfig(), &Some("prod".to_string()));
    assert_eq!(l.len(), 2);
    assert_eq!(l[0].cluster, "prod-cluster");
    assert_eq!(l[0].server.as_deref(), Some("https://10.0.0.1:6443"));
    assert!(l[0].is_current);
    assert_eq!(l[0].namespace.as_deref(), Some("apps"));
    assert_eq!(l[1].cluster, "");
    assert_eq!(l[1].user, "");
    assert_eq!(l[1].server, None);
    assert!(!l[1].is_current);
}

#[test]
fn cluster_info_of_a_context() {
    let info = get_cluster_info(&kubeconfig(), &None, "prod").ok().unwrap();
    assert_eq!(info.context.user, "admin");
    assert_eq!(info.tls_server_name.as_deref(), Some("kube"));
    assert_eq!(info.insecure_skip_tls_verify, Some(true));
    assert!(!info.context.is_current);
    match get_cluster_info(&kubeconfig(), &None, "staging") {
        Err(e) => assert_eq!(e, "Context 'staging' not found"),
        Ok(_) => panic!("expected an error"),
    }
}

#[test]
fn tool_only_routes() {
    assert_eq!(tool_route("list_clusters"), ToolRoute::ListClusters);
    assert_eq!(tool_route("get_current_context"), ToolRoute::GetCurrentContext);
    assert_eq!(tool_route("get_cluster_info"), ToolRoute::GetClusterInfo);
    assert_eq!(tool_route(""), ToolRoute::MissingTool);
    assert_eq!(tool_route("other"), ToolRoute::Unknown);
}

#[test]
fn tool_only_request_errors() {
    assert_eq!(tool_request_route(&object(vec![])), Err("Missing 'tool' field in request".to_string()));
    assert_eq!(tool_request_route(&object(vec![("tool", text("x"))])), Err("Unknown tool: x".to_string()));
    assert_eq!(tool_request_route(&object(vec![("tool", JsonValue::Number("3".to_string()))])), Err("Missing 'tool' field in request".to_string()));
    assert_eq!(tool_request_route(&object(vec![("tool", text("get_cluster_info"))])), Ok(ToolRoute::GetClusterInfo));
}

#[test]
fn endpoints_and_identity() {
    assert_eq!(token_refresh_url("https://api.example/"), "https://api.example/api/app/token/refresh");
    assert_eq!(token_url("https://id.example/realms/r//"), "https://id.example/realms/r/protocol/openid-connect/token");
    assert_eq!(agent_connector_key("t1"), "t1.app-kube-studio.*");
    assert_eq!(manifest_title(&Some("prod".to_string())), ("prod".to_string(), true));
    assert_eq!(manifest_title(&None), ("KubeStudio".to_string(), false));
}

use ks_ui::connector::{assertion_claims, token_request_form};

#[test]
fn client_assertion_claims_and_form() {
    let c = assertion_claims("ks-prod", "https://id.example/realms/r", 1_700_000_000);
    assert_eq!((c.iss.as_str(), c.sub.as_str(), c.aud.as_str()), ("ks-prod", "ks-prod", "https://id.example/realms/r"));
    assert_eq!((c.iat, c.exp), (1_700_000_000, 1_700_000_060));
    let f = token_request_form("ks-prod", "jwt");
    assert_eq!(f[0], ("grant_type".to_string(), "client_credentials".to_string()));
    assert_eq!(f[1].1, "ks-prod");
    assert_eq!(f[2].1, "urn:ietf:params:oauth:client-assertion-type:jwt-bearer");
    assert_eq!(f[3], ("client_assertion".to_string(), "jwt".to_string()));
}

fn answered(status: u16, reason: Option<&str>, body: &str) -> OttOutcome {
    OttOutcome::Answered { status, reason: reason.map(|r| r.to_string()), body: body.to_string() }
}

#[test]
fn registration_attempts() {
    let url = "https://api.example/register";
    assert!(matches!(ott_step(0, &answered(200, Some("OK"), "{}"), url), OttNext::Registered));
    match ott_step(0, &answered(401, Some("Unauthorized"), "Invalid or expired token"), url) {
        OttNext::Retry { delay_ms, last_error } => {
            assert_eq!(delay_ms, 500);
            assert_eq!(last_error, "Invalid or expired token");
        },
        _ => panic!("expected a retry"),
    }
    match ott_step(2, &OttOutcome::Unsent("timeout".to_string()), url) {
        OttNext::Retry { delay_ms, last_error } => {
            assert_eq!(delay_ms, 2000);
            assert_eq!(last_error, "HTTP request failed: timeout");
        },
        _ => panic!("expected a retry"),
    }
    match ott_step(OTT_MAX_ATTEMPTS - 1, &OttOutcome::Unsent("timeout".to_string()), url) {
        OttNext::GiveUp(e) => assert_eq!(e, "Registration failed after 4 retries: HTTP request failed: timeout"),
        _ => panic!("expected to give up"),
    }
    match ott_step(1, &answered(500, Some("Internal Server Error"), ""), url) {
        OttNext::GiveUp(e) => assert_eq!(e, "Registration failed: 500 Internal Server Error - URL: https://api.example/register - Body: (empty response)"),
        _ => panic!("expected to give up"),
    }
    match ott_step(0, &answered(599, None, "x"), url) {
        OttNext::GiveUp(e) => assert_eq!(e, "Registration failed: 599 Unknown - URL: https://api.example/register - Body: x"),
        _ => panic!("expected to give up"),
    }
}

#[test]
fn message_loop_decisions() {
    assert_eq!(loop_step(&LoopEvent::Check { shutdown: true }), LoopStep::End(LoopOutcome::Exit));
    assert_eq!(loop_step(&LoopEvent::Check { shutdown: false }), LoopStep::Continue);
    assert_eq!(loop_step(&LoopEvent::HeartbeatDue), LoopStep::SendHeartbeat);
    assert_eq!(loop_step(&LoopEvent::StreamClosed), LoopStep::End(LoopOutcome::Exit));
    assert_eq!(
        loop_step(&LoopEvent::RegisterResponse { success: false, error: "jwt_invalid: bad".to_string() }),
        LoopStep::End(LoopOutcome::AuthFailure)
    );
    assert_eq!(
        loop_step(&LoopEvent::RegisterResponse { success: false, error: "boom".to_string() }),
        LoopStep::End(LoopOutcome::Exit)
    );
    assert_eq!(loop_step(&LoopEvent::RegisterResponse { success: true, error: String::new() }), LoopStep::Continue);
    assert_eq!(loop_step(&LoopEvent::ExecuteRequest), LoopStep::SpawnExecute);
    assert_eq!(loop_step(&LoopEvent::WsOpenRequest), LoopStep::SpawnWsOpen);
    assert_eq!(loop_step(&LoopEvent::WsFrame), LoopStep::ForwardFrame);
    assert_eq!(loop_step(&LoopEvent::WsCloseRequest), LoopStep::CloseWs);
    assert_eq!(loop_step(&LoopEvent::CredentialsRegistered { registered: true }), LoopStep::End(LoopOutcome::Reconnect));
    assert_eq!(loop_step(&LoopEvent::CredentialsRegistered { registered: false }), LoopStep::Continue);
    assert_eq!(loop_step(&LoopEvent::Other), LoopStep::Continue);
}

#[test]
fn socket_open_replies() {
    let ok = ws_open_reply("c1", &WsConnect::Connected);
    assert_eq!((ok.connection_id.as_str(), ok.success, ok.error.as_str(), ok.record), ("c1", true, "", true));
    let ipc = ws_open_reply("c2", &WsConnect::IpcFailed("refused".to_string()));
    assert_eq!((ipc.connection_id.as_str(), ipc.success, ipc.error.as_str(), ipc.record), ("c2", false, "Failed to connect: refused", false));
    let hs = ws_open_reply("c3", &WsConnect::HandshakeFailed("bad upgrade".to_string()));
    assert_eq!((hs.success, hs.error.as_str(), hs.record), (false, "Failed to connect: bad upgrade", false));
}

#[test]
fn token_refresh_rounds() {
    assert_eq!(refresh_plan(true, Some(100)), RefreshPlan::WaitForToken { secs: 5 });
    assert_eq!(refresh_plan(false, None), RefreshPlan::TryLater { secs: 30 });
    assert_eq!(refresh_plan(false, Some(0)), RefreshPlan::TryLater { secs: 30 });
    assert_eq!(refresh_plan(false, Some(-5)), RefreshPlan::TryLater { secs: 30 });
    assert_eq!(refresh_plan(false, Some(600)), RefreshPlan::Schedule { remaining: 600 });
    assert_eq!(refresh_retry_wait(0), Some(5));
    assert_eq!(refresh_retry_wait(1), Some(5));
    assert_eq!(refresh_retry_wait(2), None);
}

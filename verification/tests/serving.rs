use local_cache_proxy::background_uploader::UploadRequest;
use local_cache_proxy::config::AppConfig;
use local_cache_proxy::downloader::Downloader;
use local_cache_proxy::process_action_cache::{
    gate_file_name, process_action_cache_response, ActionResult, Digest, OutputFile,
};
use local_cache_proxy::request::ProxyRequest;
use local_cache_proxy::server::{
    data_path, fetched_response, fetched_status, get_request, plan_status, put_request, route,
    start_server, Bind, Fetched, GetPlan, Route, CREATED, INTERNAL_SERVER_ERROR, NOT_FOUND, OK,
};
use local_cache_proxy::server_error::ServerError;

fn config(secondary: Vec<&str>) -> AppConfig {
    AppConfig {
        upstream: "http://up:80".to_string(),
        secondary_upstreams: secondary.into_iter().map(|s| s.to_string()).collect(),
        proxy: None,
        bind_target: "http://localhost:8080".to_string(),
        cache_folder: "/var/cache".to_string(),
        cache_folder_size: 100,
        maximum_download_size: 10,
        maximum_upload_size: 20,
        idle_time_terminate: None,
    }
}

fn triple(u: &UploadRequest) -> (String, String, String) {
    (u.uri.clone(), u.path.clone(), u.file_name.clone())
}

#[test]
fn methods() {
    assert_eq!(route("GET"), Route::Get);
    assert_eq!(route("PUT"), Route::Put);
    assert_eq!(route("POST"), Route::Unsupported { status: 500 });
    assert_eq!(route("HEAD"), Route::Unsupported { status: 500 });
    assert_eq!(route("get"), Route::Unsupported { status: 500 });
    assert_eq!(route(""), Route::Unsupported { status: 500 });
}

#[test]
fn status_codes() {
    assert_eq!(OK, 200);
    assert_eq!(CREATED, 201);
    assert_eq!(NOT_FOUND, 404);
    assert_eq!(INTERNAL_SERVER_ERROR, 500);
}

#[test]
fn ungated_content_is_not_found_without_asking_upstream() {
    let r = ProxyRequest::new("/cas/XYZ");
    match get_request(&r, "http://up:80", None, None) {
        Ok(plan @ GetPlan::NotFound) => assert_eq!(plan_status(&plan), Some(404)),
        other => panic!("expected a refusal, got {:?}", other),
    }
    assert_eq!(plan_status(&GetPlan::ServeLocal { len: 3 }), Some(200));
    let fetch = GetPlan::Fetch { uri: "http://up:80/x".to_string(), file_name: "x".to_string() };
    assert_eq!(plan_status(&fetch), None);
    let named = ProxyRequest::new("/repo=foo/cas/XYZ");
    assert!(matches!(get_request(&named, "http://up:80", None, None), Ok(GetPlan::NotFound)));
}

#[test]
fn ungated_content_is_refused_before_the_address_is_built() {
    let r = ProxyRequest::new("/cas/XYZ");
    assert!(matches!(get_request(&r, "not a uri", None, None), Ok(GetPlan::NotFound)));
}

#[test]
fn gated_content_is_fetched() {
    let r = ProxyRequest::new("/repo=foo/cas/XYZ");
    match get_request(&r, "http://up:80", None, Some(0)) {
        Ok(GetPlan::Fetch { uri, file_name }) => {
            assert_eq!(uri, "http://up:80/cas/repo=foo/XYZ");
            assert_eq!(file_name, "cas__XYZ");
        }
        other => panic!("expected a fetch, got {:?}", other),
    }
}

#[test]
fn content_in_the_folder_is_served_from_it() {
    let r = ProxyRequest::new("/cas/XYZ");
    assert!(matches!(
        get_request(&r, "http://up:80", Some(42), None),
        Ok(GetPlan::ServeLocal { len: 42 })
    ));
    assert!(matches!(
        get_request(&r, "http://up:80", Some(42), Some(0)),
        Ok(GetPlan::ServeLocal { len: 42 })
    ));
}

#[test]
fn action_cache_entries_need_no_marker() {
    let r = ProxyRequest::new("/ac/123");
    match get_request(&r, "http://up:80/", None, None) {
        Ok(GetPlan::Fetch { uri, file_name }) => {
            assert_eq!(uri, "http://up:80/ac/repo=unknown/123");
            assert_eq!(file_name, "ac__123");
        }
        other => panic!("expected a fetch, got {:?}", other),
    }
    assert!(matches!(
        get_request(&r, "http://up:80", Some(7), None),
        Ok(GetPlan::ServeLocal { len: 7 })
    ));
}

#[test]
fn get_with_an_invalid_upstream_address_fails() {
    let r = ProxyRequest::new("/ac/1 2");
    assert!(matches!(
        get_request(&r, "http://up:80", None, None),
        Err(ServerError::InvalidUri(_))
    ));
    assert!(matches!(
        get_request(&r, "http://up:80", Some(3), None),
        Err(ServerError::InvalidUri(_))
    ));
}

#[test]
fn put_of_action_result_unlocks_get_of_its_content() {
    let body = ActionResult {
        output_files: vec![OutputFile { digest: Some(Digest { hash: "XYZ".to_string() }) }],
        stdout_digest: None,
        stderr_digest: None,
    };
    let put = ProxyRequest::new("/ac/build1");
    let mut d = Downloader::new(config(vec![]));
    let stored = d.save_file(&put.file_name(), 10);
    assert_eq!(stored.name, Some("ac__build1".to_string()));
    let plan = put_request(&put, &config(vec![]), &stored.name).unwrap();
    assert!(plan.process_action_cache);
    let markers = process_action_cache_response(&stored.name.unwrap(), &body);
    assert_eq!(markers, vec!["enable_cas__XYZ"]);

    let get = ProxyRequest::new("/cas/XYZ");
    let gate = gate_file_name(&get.file_name());
    assert_eq!(gate, "enable_cas__XYZ");
    let gate_file = if markers.contains(&gate) { Some(0) } else { None };
    let present = d.cached(&get.file_name());
    assert_eq!(present, None);
    assert!(matches!(
        get_request(&get, "http://up:80", present, gate_file),
        Ok(GetPlan::Fetch { .. })
    ));
    let other = ProxyRequest::new("/cas/ABC");
    let other_gate = gate_file_name(&other.file_name());
    let other_file = if markers.contains(&other_gate) { Some(0) } else { None };
    assert!(matches!(
        get_request(&other, "http://up:80", None, other_file),
        Ok(GetPlan::NotFound)
    ));
}

#[test]
fn put_then_get_is_served_from_the_cache() {
    let mut d = Downloader::new(config(vec![]));
    let put = ProxyRequest::new("/cas/K");
    let stored = d.save_file(&put.file_name(), 33);
    assert_eq!(stored.name, Some("cas__K".to_string()));
    assert!(stored.evicted.is_empty());
    let get = ProxyRequest::new("/cas/K");
    let present = d.cached(&get.file_name());
    assert_eq!(present, Some(33));
    assert!(matches!(
        get_request(&get, "http://up:80", present, None),
        Ok(GetPlan::ServeLocal { len: 33 })
    ));
}

#[test]
fn put_then_get_of_an_oversized_entry_is_still_local() {
    let mut d = Downloader::new(config(vec![]));
    let stored = d.save_file("cas__big", 1000);
    assert_eq!(stored.name, Some("cas__big".to_string()));
    let present = d.cached("cas__big");
    assert_eq!(present, Some(1000));
    let get = ProxyRequest::new("/cas/big");
    assert!(matches!(
        get_request(&get, "http://up:80", present, None),
        Ok(GetPlan::ServeLocal { len: 1000 })
    ));
}

#[test]
fn answers_after_a_fetch() {
    let served = fetched_response("cas__1", Ok(Some(5)));
    assert!(matches!(served, Fetched::Serve { len: 5, process_action_cache: false }));
    assert_eq!(fetched_status(&served), 200);
    let ac = fetched_response("ac__1", Ok(Some(9)));
    assert!(matches!(ac, Fetched::Serve { len: 9, process_action_cache: true }));
    let miss = fetched_response("cas__1", Ok(None));
    assert!(matches!(miss, Fetched::NotFound));
    assert_eq!(fetched_status(&miss), 404);
    let failed = fetched_response("cas__1", Err("Request timeout".to_string()));
    assert_eq!(fetched_status(&failed), 500);
    match failed {
        Fetched::Failed { error } => {
            assert!(matches!(&error, ServerError::StringError(s) if s == "Request timeout"));
            assert_eq!(error.description(), "Request timeout");
        }
        other => panic!("expected a failure, got {:?}", other),
    }
}

#[test]
fn put_of_a_new_entry_is_replicated_to_every_upstream() {
    let cfg = config(vec!["http://second:81/", "http://third:82"]);
    let r = ProxyRequest::new("/repo=foo/cas/abc");
    let plan = put_request(&r, &cfg, &Some("cas__abc".to_string())).unwrap();
    assert_eq!(plan.status, 201);
    assert!(!plan.process_action_cache);
    let got: Vec<(String, String, String)> = plan.uploads.iter().map(triple).collect();
    let want: Vec<(String, String, String)> = vec![
        ("http://up:80/cas/repo=foo/abc", "/var/cache/cas__abc", "cas__abc"),
        ("http://second:81/cas/repo=foo/abc", "/var/cache/cas__abc", "cas__abc"),
        ("http://third:82/cas/repo=foo/abc", "/var/cache/cas__abc", "cas__abc"),
    ]
    .into_iter()
    .map(|(a, b, c)| (a.to_string(), b.to_string(), c.to_string()))
    .collect();
    assert_eq!(got, want);
}

#[test]
fn put_of_an_entry_held_already_leads_to_nothing() {
    let cfg = config(vec!["http://second:81"]);
    let r = ProxyRequest::new("/ac/abc");
    let plan = put_request(&r, &cfg, &None).unwrap();
    assert_eq!(plan.status, 201);
    assert!(!plan.process_action_cache);
    assert!(plan.uploads.is_empty());
}

#[test]
fn put_with_an_invalid_upstream_fails() {
    let cfg = config(vec!["http://se cond:81"]);
    let r = ProxyRequest::new("/ac/abc");
    assert!(matches!(
        put_request(&r, &cfg, &Some("ac__abc".to_string())),
        Err(ServerError::InvalidUri(_))
    ));
    assert!(put_request(&r, &cfg, &None).is_ok());
}

#[test]
fn files_of_the_cache_folder() {
    assert_eq!(data_path("/var/cache", "cas__abc"), "/var/cache/cas__abc");
    assert_eq!(data_path("/var/cache", "enable_cas__abc"), "/var/cache/enable_cas__abc");
}

#[test]
fn failures_in_words() {
    assert_eq!(ServerError::from_string("boom".to_string()).description(), "boom");
    let r = ProxyRequest::new("/cas/a b");
    let e = r.build_query_uri("http://up:80").unwrap_err();
    assert!(!e.description().is_empty());
}

#[test]
fn bind_targets() {
    assert!(matches!(
        start_server(Some("http"), Some("localhost:10487"), Some(10487)),
        Some(Bind::Http { port: 10487 })
    ));
    match start_server(Some("unix"), Some("/tmp/proxy.sock"), None) {
        Some(Bind::Unix { socket }) => assert_eq!(socket, "/tmp/proxy.sock"),
        other => panic!("expected a socket, got {:?}", other),
    }
    assert!(start_server(Some("http"), Some("localhost"), None).is_none());
    assert!(start_server(Some("unix"), None, Some(1)).is_none());
    assert!(start_server(Some("https"), Some("localhost:1"), Some(1)).is_none());
    assert!(start_server(None, Some("localhost:1"), Some(1)).is_none());
}

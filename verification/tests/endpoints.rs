use mayara_signalk::endpoints::{
    api_endpoint_list, endpoint_list, generate_openapi_json, openapi_spec, routes, Handler, Method,
    PathMethods, BASE_URI, CONTROL_URI, OPENAPI_URI, SPOKES_URI, TELEMETRY_URI,
};
use utoipa::openapi::path::{HttpMethod, OperationBuilder, PathItem, PathItemBuilder};
use utoipa::openapi::{InfoBuilder, OpenApi, OpenApiBuilder, PathsBuilder};

fn path(path: &str, get: bool, put: bool, post: bool, delete: bool) -> PathMethods {
    PathMethods { path: path.to_string(), get, put, post, delete }
}

#[test]
fn endpoints_are_sorted_by_path_and_then_by_method() {
    let list = endpoint_list(&vec![
        path("/b", true, true, true, true),
        path("/a", false, false, false, true),
        path("/signalk/z", false, true, false, false),
    ]);
    let expected = vec![
        "DEL  /a",
        "GET  /b",
        "PUT  /b",
        "POST /b",
        "DEL  /b",
        "GET  /signalk",
        "WS   /signalk/v1/stream",
        "WS   /signalk/v2/api/vessels/self/radars/{id}/spokes",
        "PUT  /signalk/z",
    ];
    assert_eq!(list, expected);
}

#[test]
fn no_endpoint_is_listed_twice() {
    let list = api_endpoint_list(&document());
    for i in 0..list.len() {
        for j in 0..i {
            assert_ne!(list[i], list[j]);
        }
    }
}

#[test]
fn documented_requests_are_served() {
    let diagnostics = "/signalk/v2/api/vessels/self/radars/diagnostics";
    let table = routes(diagnostics);
    let served = |uri: &str, method: Method| {
        table.iter().any(|route| route.uri == uri && route.method == method)
    };
    let base = "/signalk/v2/api/vessels/self/radars";
    for path in [
        "", "/{radar_id}", "/interfaces", "/status", "/network-check/{expectation}", "/telemetry",
        "/diagnostics", "/{radar_id}/capabilities", "/{radar_id}/controls",
        "/{radar_id}/controls/{control_id}", "/{radar_id}/targets", "/{id}/spokes",
        "/resources/openapi.json",
    ] {
        assert!(served(&format!("{}{}", base, path), Method::Get));
    }
    assert!(served("/signalk/v1/stream", Method::Get));
    let count = |method: Method| table.iter().filter(|route| route.method == method).count();
    assert_eq!(count(Method::Put), 3);
    assert_eq!(count(Method::Post), 1);
    assert_eq!(count(Method::Delete), 1);
    assert!(served(TELEMETRY_URI, Method::Put));
}

#[test]
fn streams_are_listed_as_streams_alone() {
    let list = endpoint_list(&vec![
        path(CONTROL_URI, true, true, false, false),
        path(SPOKES_URI, true, false, false, false),
    ]);
    let expected = vec![
        "GET  /signalk",
        "WS   /signalk/v1/stream",
        "WS   /signalk/v2/api/vessels/self/radars/{id}/spokes",
    ];
    assert_eq!(list, expected);
}

fn document() -> OpenApi {
    let mut controls: PathItem = PathItemBuilder::new().build();
    controls.get = Some(OperationBuilder::new().build());
    controls.put = Some(OperationBuilder::new().build());
    let mut targets: PathItem = PathItemBuilder::new().build();
    targets.post = Some(OperationBuilder::new().build());
    targets.delete = Some(OperationBuilder::new().build());
    let stream = PathItem::new(HttpMethod::Get, OperationBuilder::new().build());
    OpenApiBuilder::new()
        .info(InfoBuilder::new().title("Mayara Radar API").version("unset").build())
        .paths(
            PathsBuilder::new()
                .path("/radars/targets", targets)
                .path("/radars/controls", controls)
                .path(CONTROL_URI, stream)
                .build(),
        )
        .build()
}

#[test]
fn endpoints_come_from_the_openapi_document() {
    let expected = vec![
        "GET  /radars/controls",
        "PUT  /radars/controls",
        "POST /radars/targets",
        "DEL  /radars/targets",
        "GET  /signalk",
        "WS   /signalk/v1/stream",
        "WS   /signalk/v2/api/vessels/self/radars/{id}/spokes",
    ];
    assert_eq!(api_endpoint_list(&document()), expected);
}

#[test]
fn the_openapi_document_has_the_version_of_the_api() {
    let spec = openapi_spec(document(), "3.4.0");
    assert_eq!(spec.info.version, "3.4.0");
    assert_eq!(spec.info.title, "Mayara Radar API");
    assert_eq!(spec.paths.paths.len(), 3);
}

#[test]
fn the_openapi_document_is_written_as_json() {
    let json = generate_openapi_json(document(), "3.4.0");
    assert_eq!(json, serde_json::to_string_pretty(&openapi_spec(document(), "3.4.0")).unwrap());
    assert_eq!(json, generate_openapi_json(document(), "3.4.0"));
    let value: serde_json::Value = serde_json::from_str(&json).unwrap();
    assert_eq!(value["info"]["version"], "3.4.0");
    assert!(value["paths"]["/radars/targets"]["post"].is_object());
}

#[test]
fn every_request_has_one_route() {
    let table = routes("/signalk/v2/api/vessels/self/radars/diagnostics");
    assert_eq!(table.len(), 19);
    for i in 0..table.len() {
        for j in 0..i {
            assert!(table[i].uri != table[j].uri || table[i].method != table[j].method);
        }
    }
    let answers = |uri: &str, method: Method| {
        table.iter().find(|r| r.uri == uri && r.method == method).map(|r| r.handler)
    };
    assert_eq!(answers(BASE_URI, Method::Get), Some(Handler::GetRadars));
    assert_eq!(answers(TELEMETRY_URI, Method::Put), Some(Handler::SetTelemetry));
    assert_eq!(answers(OPENAPI_URI, Method::Get), Some(Handler::OpenApiJson));
    assert_eq!(answers(BASE_URI, Method::Put), None);
    assert_eq!(
        answers("/signalk/v2/api/vessels/self/radars/{radar_id}/targets/{target_id}", Method::Delete),
        Some(Handler::DeleteTarget)
    );
    assert_eq!(
        answers("/signalk/v2/api/vessels/self/radars/diagnostics", Method::Get),
        Some(Handler::GetDiagnostics)
    );
}

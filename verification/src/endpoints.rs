//! Where the API answers, and the document that describes it.
use crate::order::{
    before, before_is_irreflexive, goes_first, keys_of, same_text, sort_by_key, sorted_by_keys,
    sorted_elements_are_the_same, sorted_texts, sorted_texts_ascend, sorting_order,
    sorting_order_exists, texts_of,
};
use crate::text::concat_three;
use utoipa::openapi::OpenApi;
use vstd::prelude::*;

verus! {

pub const BASE_URI: &'static str = "/signalk/v2/api/vessels/self/radars";

pub const CONTROL_URI: &'static str = "/signalk/v1/stream";

pub const SPOKES_URI: &'static str = "/signalk/v2/api/vessels/self/radars/{id}/spokes";

pub const OPENAPI_URI: &'static str = "/signalk/v2/api/vessels/self/radars/resources/openapi.json";

pub const RADAR_URI: &'static str = "/signalk/v2/api/vessels/self/radars/{radar_id}";

pub const RADAR_CAPABILITIES_URI: &'static str =
    "/signalk/v2/api/vessels/self/radars/{radar_id}/capabilities";

pub const INTERFACES_URI: &'static str = "/signalk/v2/api/vessels/self/radars/interfaces";

pub const STATUS_URI: &'static str = "/signalk/v2/api/vessels/self/radars/status";

pub const NETWORK_CHECK_URI: &'static str =
    "/signalk/v2/api/vessels/self/radars/network-check/{expectation}";

pub const TELEMETRY_URI: &'static str = "/signalk/v2/api/vessels/self/radars/telemetry";

pub const RADAR_CONTROLS_URI: &'static str =
    "/signalk/v2/api/vessels/self/radars/{radar_id}/controls";

pub const RADAR_CONTROL_URI: &'static str =
    "/signalk/v2/api/vessels/self/radars/{radar_id}/controls/{control_id}";

pub const RADAR_TARGETS_URI: &'static str =
    "/signalk/v2/api/vessels/self/radars/{radar_id}/targets";

pub const RADAR_TARGET_URI: &'static str =
    "/signalk/v2/api/vessels/self/radars/{radar_id}/targets/{target_id}";

/// The HTTP methods that the API answers.
#[derive(Clone, Copy, Debug, PartialEq, Eq, Structural)]
pub enum Method {
    Get,
    Put,
    Post,
    Delete,
}

/// What answers a request.
#[derive(Clone, Copy, Debug, PartialEq, Eq, Structural)]
pub enum Handler {
    GetRadars,
    GetInterfaces,
    GetStatus,
    GetNetworkCheck,
    GetTelemetry,
    SetTelemetry,
    GetDiagnostics,
    ControlStream,
    Spokes,
    GetRadarInfo,
    GetRadar,
    GetControlValues,
    SetControlValues,
    GetControlValue,
    SetControlValue,
    GetTargets,
    AcquireTarget,
    DeleteTarget,
    OpenApiJson,
}

/// A method on a path, and what answers it.
pub struct Route {
    pub uri: String,
    pub method: Method,
    pub handler: Handler,
}

/// All that the API answers. Diagnostics are answered under a path that is
/// chosen elsewhere.
pub open spec fn route_table(diagnostics_uri: Seq<char>) -> Seq<(Seq<char>, Method, Handler)> {
    seq![
        (BASE_URI@, Method::Get, Handler::GetRadars),
        (INTERFACES_URI@, Method::Get, Handler::GetInterfaces),
        (STATUS_URI@, Method::Get, Handler::GetStatus),
        (NETWORK_CHECK_URI@, Method::Get, Handler::GetNetworkCheck),
        (TELEMETRY_URI@, Method::Get, Handler::GetTelemetry),
        (TELEMETRY_URI@, Method::Put, Handler::SetTelemetry),
        (diagnostics_uri, Method::Get, Handler::GetDiagnostics),
        (CONTROL_URI@, Method::Get, Handler::ControlStream),
        (SPOKES_URI@, Method::Get, Handler::Spokes),
        (RADAR_URI@, Method::Get, Handler::GetRadarInfo),
        (RADAR_CAPABILITIES_URI@, Method::Get, Handler::GetRadar),
        (RADAR_CONTROLS_URI@, Method::Get, Handler::GetControlValues),
        (RADAR_CONTROLS_URI@, Method::Put, Handler::SetControlValues),
        (RADAR_CONTROL_URI@, Method::Get, Handler::GetControlValue),
        (RADAR_CONTROL_URI@, Method::Put, Handler::SetControlValue),
        (RADAR_TARGETS_URI@, Method::Get, Handler::GetTargets),
        (RADAR_TARGETS_URI@, Method::Post, Handler::AcquireTarget),
        (RADAR_TARGET_URI@, Method::Delete, Handler::DeleteTarget),
        (OPENAPI_URI@, Method::Get, Handler::OpenApiJson),
    ]
}

/// What the routes say.
pub open spec fn route_views(routes: Seq<Route>) -> Seq<(Seq<char>, Method, Handler)> {
    Seq::new(routes.len(), |i: int| (routes[i].uri@, routes[i].method, routes[i].handler))
}

fn route(uri: &str, method: Method, handler: Handler) -> (route: Route)
    ensures
        route.uri@ == uri@,
        route.method == method,
        route.handler == handler,
{
    Route { uri: uri.to_owned(), method, handler }
}

/// Lists all that the API answers.
pub fn routes(diagnostics_uri: &str) -> (routes: Vec<Route>)
    ensures
        route_views(routes@) == route_table(diagnostics_uri@),
{
    let routes = vec![
        route(BASE_URI, Method::Get, Handler::GetRadars),
        route(INTERFACES_URI, Method::Get, Handler::GetInterfaces),
        route(STATUS_URI, Method::Get, Handler::GetStatus),
        route(NETWORK_CHECK_URI, Method::Get, Handler::GetNetworkCheck),
        route(TELEMETRY_URI, Method::Get, Handler::GetTelemetry),
        route(TELEMETRY_URI, Method::Put, Handler::SetTelemetry),
        route(diagnostics_uri, Method::Get, Handler::GetDiagnostics),
        route(CONTROL_URI, Method::Get, Handler::ControlStream),
        route(SPOKES_URI, Method::Get, Handler::Spokes),
        route(RADAR_URI, Method::Get, Handler::GetRadarInfo),
        route(RADAR_CAPABILITIES_URI, Method::Get, Handler::GetRadar),
        route(RADAR_CONTROLS_URI, Method::Get, Handler::GetControlValues),
        route(RADAR_CONTROLS_URI, Method::Put, Handler::SetControlValues),
        route(RADAR_CONTROL_URI, Method::Get, Handler::GetControlValue),
        route(RADAR_CONTROL_URI, Method::Put, Handler::SetControlValue),
        route(RADAR_TARGETS_URI, Method::Get, Handler::GetTargets),
        route(RADAR_TARGETS_URI, Method::Post, Handler::AcquireTarget),
        route(RADAR_TARGET_URI, Method::Delete, Handler::DeleteTarget),
        route(OPENAPI_URI, Method::Get, Handler::OpenApiJson),
    ];
    assert(route_views(routes@) =~= route_table(diagnostics_uri@));
    routes
}

/// Every request is answered in one way: no method occurs twice on a path, as
/// long as diagnostics keep to a path of their own.
pub proof fn routes_do_not_overlap(diagnostics_uri: Seq<char>, i: int, j: int)
    requires
        0 <= i < j < route_table(diagnostics_uri).len(),
        forall|k: int|
            0 <= k < route_table(diagnostics_uri).len() ==> (
            #[trigger] route_table(diagnostics_uri)[k]).2 == Handler::GetDiagnostics
                || route_table(diagnostics_uri)[k].0 != diagnostics_uri,
    ensures
        route_table(diagnostics_uri)[i].0 != route_table(diagnostics_uri)[j].0
            || route_table(diagnostics_uri)[i].1 != route_table(diagnostics_uri)[j].1,
{
    reveal_strlit("/signalk/v2/api/vessels/self/radars");
    reveal_strlit("/signalk/v1/stream");
    reveal_strlit("/signalk/v2/api/vessels/self/radars/{id}/spokes");
    reveal_strlit("/signalk/v2/api/vessels/self/radars/resources/openapi.json");
    reveal_strlit("/signalk/v2/api/vessels/self/radars/{radar_id}");
    reveal_strlit("/signalk/v2/api/vessels/self/radars/{radar_id}/capabilities");
    reveal_strlit("/signalk/v2/api/vessels/self/radars/interfaces");
    reveal_strlit("/signalk/v2/api/vessels/self/radars/status");
    reveal_strlit("/signalk/v2/api/vessels/self/radars/network-check/{expectation}");
    reveal_strlit("/signalk/v2/api/vessels/self/radars/telemetry");
    reveal_strlit("/signalk/v2/api/vessels/self/radars/{radar_id}/controls");
    reveal_strlit("/signalk/v2/api/vessels/self/radars/{radar_id}/controls/{control_id}");
    reveal_strlit("/signalk/v2/api/vessels/self/radars/{radar_id}/targets");
    reveal_strlit("/signalk/v2/api/vessels/self/radars/{radar_id}/targets/{target_id}");
    assert(INTERFACES_URI@[36] != RADAR_URI@[36]);
    let table = route_table(diagnostics_uri);
    assert(table[0].0.len() == 35);
    assert(table[1].0.len() == 46);
    assert(table[2].0.len() == 42);
    assert(table[3].0.len() == 63);
    assert(table[4].0.len() == 45);
    assert(table[5].0.len() == 45);
    assert(table[7].0.len() == 18);
    assert(table[8].0.len() == 47);
    assert(table[9].0.len() == 46);
    assert(table[10].0.len() == 59);
    assert(table[11].0.len() == 55);
    assert(table[12].0.len() == 55);
    assert(table[13].0.len() == 68);
    assert(table[14].0.len() == 68);
    assert(table[15].0.len() == 54);
    assert(table[16].0.len() == 54);
    assert(table[17].0.len() == 66);
    assert(table[18].0.len() == 58);
    if i != 6 && j != 6 && table[i].0 == table[j].0 {
        assert(table[i].0.len() == table[j].0.len());
        assert((i == 4 && j == 5) || (i == 11 && j == 12) || (i == 13 && j == 14) || (i == 15 && j
            == 16) || (i == 1 && j == 9));
    }
}

/// Whether the API answers a method on a path.
pub open spec fn is_served(diagnostics_uri: Seq<char>, uri: Seq<char>, method: Method) -> bool {
    exists|k: int|
        0 <= k < route_table(diagnostics_uri).len() && (
        #[trigger] route_table(diagnostics_uri)[k]).0 == uri && route_table(diagnostics_uri)[k].1
            == method
}

/// The paths that the API is meant to document, each with whether GET, PUT, POST
/// and DELETE are documented on it. This is stated here; an OpenAPI document is
/// held to it by `describes_the_api`.
pub open spec fn api_paths(diagnostics_uri: Seq<char>) -> Seq<
    (Seq<char>, bool, bool, bool, bool),
> {
    seq![
        (BASE_URI@, true, false, false, false),
        (RADAR_URI@, true, false, false, false),
        (INTERFACES_URI@, true, false, false, false),
        (STATUS_URI@, true, false, false, false),
        (NETWORK_CHECK_URI@, true, false, false, false),
        (TELEMETRY_URI@, true, true, false, false),
        (diagnostics_uri, true, false, false, false),
        (RADAR_CAPABILITIES_URI@, true, false, false, false),
        (RADAR_CONTROLS_URI@, true, true, false, false),
        (RADAR_CONTROL_URI@, true, true, false, false),
        (RADAR_TARGETS_URI@, true, false, true, false),
        (RADAR_TARGET_URI@, false, false, false, true),
        (CONTROL_URI@, true, false, false, false),
    ]
}

/// Whether a path is documented to answer a method.
pub open spec fn documents(path: (Seq<char>, bool, bool, bool, bool), method: Method) -> bool {
    match method {
        Method::Get => path.1,
        Method::Put => path.2,
        Method::Post => path.3,
        Method::Delete => path.4,
    }
}

/// Whether one of the paths is documented to answer a method.
pub open spec fn is_documented(
    paths: Seq<(Seq<char>, bool, bool, bool, bool)>,
    uri: Seq<char>,
    method: Method,
) -> bool {
    exists|i: int|
        0 <= i < paths.len() && (#[trigger] paths[i]).0 == uri && documents(paths[i], method)
}

/// Whether documented paths hold nothing but what the API is meant to document.
pub open spec fn describes_the_api(
    paths: Seq<(Seq<char>, bool, bool, bool, bool)>,
    diagnostics_uri: Seq<char>,
) -> bool {
    forall|i: int, method: Method|
        0 <= i < paths.len() && #[trigger] documents(paths[i], method) ==> is_documented(
            api_paths(diagnostics_uri),
            paths[i].0,
            method,
        )
}

/// What an OpenAPI document describes is served, as long as it describes nothing
/// but this API.
pub proof fn documented_requests_are_served(
    document: OpenApi,
    diagnostics_uri: Seq<char>,
    uri: Seq<char>,
    method: Method,
)
    requires
        describes_the_api(documented_paths(document), diagnostics_uri),
        is_documented(documented_paths(document), uri, method),
    ensures
        is_served(diagnostics_uri, uri, method),
{
    let paths = documented_paths(document);
    let i = choose|i: int|
        0 <= i < paths.len() && (#[trigger] paths[i]).0 == uri && documents(paths[i], method);
    assert(documents(paths[i], method));
    api_is_what_is_served(diagnostics_uri, uri, method);
}

/// What the API is meant to document is served, and what is served is meant to
/// be documented, but for the spokes and the document itself.
pub proof fn api_is_what_is_served(
    diagnostics_uri: Seq<char>,
    uri: Seq<char>,
    method: Method,
)
    ensures
        is_served(diagnostics_uri, uri, method) <==> is_documented(
            api_paths(diagnostics_uri),
            uri,
            method,
        ) || (method == Method::Get && (uri == SPOKES_URI@ || uri == OPENAPI_URI@)),
{
    let table = route_table(diagnostics_uri);
    let paths = api_paths(diagnostics_uri);
    if is_served(diagnostics_uri, uri, method) {
        let k = choose|k: int|
            0 <= k < table.len() && (#[trigger] table[k]).0 == uri && table[k].1 == method;
        let i: int = if k == 0 {
            0
        } else if k <= 4 {
            k + 1
        } else if k <= 6 {
            k
        } else if k == 7 {
            12
        } else if k == 9 {
            1
        } else if k == 10 {
            7
        } else if k == 11 || k == 12 {
            8
        } else if k == 13 || k == 14 {
            9
        } else if k == 15 || k == 16 {
            10
        } else {
            11
        };
        if k != 8 && k != 18 {
            assert(paths[i].0 == uri && documents(paths[i], method));
        }
    }
    if is_documented(paths, uri, method) {
        let i = choose|i: int|
            0 <= i < paths.len() && (#[trigger] paths[i]).0 == uri && documents(paths[i], method);
        let first: int = if i == 0 {
            0
        } else if i == 1 {
            9
        } else if i <= 5 {
            i - 1
        } else if i == 6 {
            6
        } else if i == 7 {
            10
        } else if i == 8 {
            11
        } else if i == 9 {
            13
        } else if i == 10 {
            15
        } else if i == 11 {
            17
        } else {
            7
        };
        let k: int = if i != 11 && method != Method::Get {
            first + 1
        } else {
            first
        };
        assert(table[k].0 == uri && table[k].1 == method);
    }
    assert(table[8].0 == SPOKES_URI@ && table[8].1 == Method::Get);
    assert(table[18].0 == OPENAPI_URI@ && table[18].1 == Method::Get);
}

/// The methods that a path is documented to answer.
pub struct PathMethods {
    pub path: String,
    pub get: bool,
    pub put: bool,
    pub post: bool,
    pub delete: bool,
}

impl View for PathMethods {
    type V = (Seq<char>, bool, bool, bool, bool);

    open spec fn view(&self) -> (Seq<char>, bool, bool, bool, bool) {
        (self.path@, self.get, self.put, self.post, self.delete)
    }
}

/// What the documented paths say.
pub open spec fn path_views(paths: Seq<PathMethods>) -> Seq<(Seq<char>, bool, bool, bool, bool)> {
    Seq::new(paths.len(), |i: int| paths[i]@)
}

/// Whether each documented path is there once.
pub open spec fn paths_differ(paths: Seq<(Seq<char>, bool, bool, bool, bool)>) -> bool {
    forall|i: int, j: int|
        0 <= i < j < paths.len() ==> (#[trigger] paths[i]).0 != (#[trigger] paths[j]).0
}

/// A method on a path, as the list of endpoints has it.
pub struct Endpoint {
    pub method: Seq<char>,
    pub path: Seq<char>,
}

impl Endpoint {
    /// The line of the list: the method in four columns, a space, the path.
    pub open spec fn line(self) -> Seq<char> {
        self.method + " "@ + self.path
    }
}

/// The endpoint, where it is there.
pub open spec fn endpoint_if(there: bool, method: Seq<char>, path: Seq<char>) -> Seq<Endpoint> {
    if there {
        seq![Endpoint { method, path }]
    } else {
        seq![]
    }
}

/// The endpoints under a documented path. The two streams are no ordinary
/// paths: they are listed as such, apart.
pub open spec fn endpoints_of_path(path: (Seq<char>, bool, bool, bool, bool)) -> Seq<Endpoint> {
    if path.0 == CONTROL_URI@ || path.0 == SPOKES_URI@ {
        seq![]
    } else {
        endpoint_if(path.1, "GET "@, path.0) + endpoint_if(path.2, "PUT "@, path.0) + endpoint_if(
            path.3,
            "POST"@,
            path.0,
        ) + endpoint_if(path.4, "DEL "@, path.0)
    }
}

/// The endpoints under the documented paths.
pub open spec fn endpoints_of_paths(paths: Seq<(Seq<char>, bool, bool, bool, bool)>) -> Seq<
    Endpoint,
>
    decreases paths.len(),
{
    if paths.len() == 0 {
        seq![]
    } else {
        endpoints_of_paths(paths.drop_last()) + endpoints_of_path(paths.last())
    }
}

/// All the endpoints: the entry point of Signal K, what is documented, and the
/// two streams.
pub open spec fn all_endpoints(paths: Seq<(Seq<char>, bool, bool, bool, bool)>) -> Seq<Endpoint> {
    seq![Endpoint { method: "GET "@, path: "/signalk"@ }] + endpoints_of_paths(paths) + seq![
        Endpoint { method: "WS  "@, path: CONTROL_URI@ },
        Endpoint { method: "WS  "@, path: SPOKES_URI@ },
    ]
}

/// The endpoints sorted by the path, those on one path in the order GET, PUT,
/// POST, DEL.
pub open spec fn sorted_endpoints(paths: Seq<(Seq<char>, bool, bool, bool, bool)>) -> Seq<
    Endpoint,
> {
    sorted_by_keys(all_endpoints(paths), all_endpoints(paths).map_values(|e: Endpoint| e.path))
}

/// The list of endpoints: a line for each, sorted by the path; those on one
/// path in the order GET, PUT, POST, DEL.
pub open spec fn endpoint_lines(paths: Seq<(Seq<char>, bool, bool, bool, bool)>) -> Seq<Seq<char>> {
    sorted_endpoints(paths).map_values(|e: Endpoint| e.line())
}

spec fn holds(lines: Seq<(String, String)>, endpoints: Seq<Endpoint>) -> bool {
    &&& lines.len() == endpoints.len()
    &&& forall|i: int|
        0 <= i < lines.len() ==> (#[trigger] lines[i]).0@ == endpoints[i].path && lines[i].1@
            == endpoints[i].line()
}

fn add_endpoint(
    lines: &mut Vec<(String, String)>,
    there: bool,
    method: &str,
    path: &str,
    Ghost(endpoints): Ghost<Seq<Endpoint>>,
)
    requires
        holds(old(lines)@, endpoints),
    ensures
        holds(final(lines)@, endpoints + endpoint_if(there, method@, path@)),
{
    if there {
        lines.push((path.to_owned(), concat_three(method, " ", path)));
    }
    assert(endpoints + Seq::<Endpoint>::empty() =~= endpoints);
}

fn add_path(
    lines: &mut Vec<(String, String)>,
    item: &PathMethods,
    Ghost(endpoints): Ghost<Seq<Endpoint>>,
)
    requires
        holds(old(lines)@, endpoints),
    ensures
        holds(final(lines)@, endpoints + endpoints_of_path(item@)),
{
    let path = item.path.as_str();
    let ghost g = endpoint_if(item.get, "GET "@, path@);
    let ghost p = endpoint_if(item.put, "PUT "@, path@);
    let ghost o = endpoint_if(item.post, "POST"@, path@);
    let ghost d = endpoint_if(item.delete, "DEL "@, path@);
    if same_text(path, CONTROL_URI) || same_text(path, SPOKES_URI) {
        assert(endpoints + Seq::<Endpoint>::empty() =~= endpoints);
        return;
    }
    add_endpoint(lines, item.get, "GET ", path, Ghost(endpoints));
    add_endpoint(lines, item.put, "PUT ", path, Ghost(endpoints + g));
    add_endpoint(lines, item.post, "POST", path, Ghost(endpoints + g + p));
    add_endpoint(lines, item.delete, "DEL ", path, Ghost(endpoints + g + p + o));
    assert(endpoints + g + p + o + d =~= endpoints + (g + p + o + d));
}

/// Lists the endpoints under the given documented paths.
pub fn endpoint_list(paths: &Vec<PathMethods>) -> (endpoints: Vec<String>)
    ensures
        texts_of(endpoints@) == endpoint_lines(path_views(paths@)),
{
    let ghost views = path_views(paths@);
    let ghost mut listed: Seq<Endpoint> = seq![];
    let mut lines: Vec<(String, String)> = Vec::new();
    let ghost entry = endpoint_if(true, "GET "@, "/signalk"@);
    add_endpoint(&mut lines, true, "GET ", "/signalk", Ghost(listed));
    proof {
        listed = entry;
        assert(Seq::<Endpoint>::empty() + entry =~= entry);
        assert(entry + Seq::<Endpoint>::empty() =~= entry);
    }
    for i in 0..paths.len()
        invariant
            views == path_views(paths@),
            listed == entry + endpoints_of_paths(views.take(i as int)),
            holds(lines@, listed),
    {
        add_path(&mut lines, &paths[i], Ghost(listed));
        proof {
            let former = endpoints_of_paths(views.take(i as int));
            assert(views.take(i + 1).drop_last() =~= views.take(i as int));
            assert(entry + former + endpoints_of_path(views[i as int]) =~= entry + (former
                + endpoints_of_path(views[i as int])));
            listed = listed + endpoints_of_path(views[i as int]);
        }
    }
    assert(views.take(paths.len() as int) =~= views);
    let ghost first = endpoint_if(true, "WS  "@, CONTROL_URI@);
    let ghost second = endpoint_if(true, "WS  "@, SPOKES_URI@);
    add_endpoint(&mut lines, true, "WS  ", CONTROL_URI, Ghost(listed));
    add_endpoint(&mut lines, true, "WS  ", SPOKES_URI, Ghost(listed + first));
    let ghost all = all_endpoints(views);
    let ghost paths_of_all = all.map_values(|e: Endpoint| e.path);
    proof {
        assert(listed + first + second =~= all);
        assert(keys_of(lines@) =~= paths_of_all);
        sorting_order_exists(paths_of_all);
    }
    let mut rest = sort_by_key(lines);
    let ghost arrangement = rest@;
    let mut endpoints: Vec<String> = Vec::new();
    while rest.len() > 0
        invariant
            rest@ =~= arrangement.skip(endpoints.len() as int),
            endpoints.len() <= arrangement.len(),
            forall|i: int|
                0 <= i < endpoints.len() ==> #[trigger] endpoints[i] == arrangement[i].1,
        decreases rest.len(),
    {
        endpoints.push(rest.remove(0).1);
    }
    assert(texts_of(endpoints@) =~= endpoint_lines(views));
    endpoints
}

#[verifier::external_type_specification]
#[verifier::external_body]
pub struct ExOpenApi(utoipa::openapi::OpenApi);

/// The paths that an OpenAPI document holds, each with whether it documents
/// GET, PUT, POST and DELETE.
pub uninterp spec fn documented_paths(document: OpenApi) -> Seq<
    (Seq<char>, bool, bool, bool, bool),
>;

/// The version of the API that an OpenAPI document describes.
pub uninterp spec fn documented_version(document: OpenApi) -> Seq<char>;

/// The OpenAPI document that differs from the given one in the version of the
/// API alone.
pub uninterp spec fn with_version(document: OpenApi, version: Seq<char>) -> OpenApi;

/// Whether `serde_json` can write the OpenAPI document as that text. The
/// fields of a document come in one order, but for vendor extensions, which
/// may come in any.
pub uninterp spec fn is_pretty_json(document: OpenApi, text: Seq<char>) -> bool;

/// Whether no part of an OpenAPI document has a vendor extension.
pub uninterp spec fn has_no_extensions(document: OpenApi) -> bool;

/// The text as which `serde_json` writes an OpenAPI document without vendor
/// extensions.
pub uninterp spec fn pretty_json(document: OpenApi) -> Seq<char>;

/// Walks `utoipa::openapi::OpenApi::paths`, a map that is walked in the order
/// of its keys: each path, once, with whether it has an operation for each of
/// the four methods.
#[verifier::external_body]
fn path_methods(document: &OpenApi) -> (paths: Vec<PathMethods>)
    ensures
        path_views(paths@) == documented_paths(*document),
        paths_differ(path_views(paths@)),
{
    document
        .paths
        .paths
        .iter()
        .map(|(path, item)| PathMethods {
            path: path.clone(),
            get: item.get.is_some(),
            put: item.put.is_some(),
            post: item.post.is_some(),
            delete: item.delete.is_some(),
        })
        .collect()
}

/// Sets `utoipa::openapi::OpenApi::info.version`, and nothing else: the paths
/// stay as they are, and vendor extensions neither come nor go.
#[verifier::external_body]
fn set_version(document: &mut OpenApi, version: String)
    ensures
        *final(document) == with_version(*old(document), version@),
        documented_version(*final(document)) == version@,
        documented_paths(*final(document)) == documented_paths(*old(document)),
        has_no_extensions(*final(document)) == has_no_extensions(*old(document)),
{
    document.info.version = version;
}

/// `serde_json::to_string_pretty` on a `utoipa::openapi::OpenApi`. Text is
/// written for every document: writing fails only where a type refuses to be
/// written or a map has keys that are no text, and a document holds neither.
/// Without vendor extensions, which are kept in a hash map, the text is a
/// function of the document.
#[verifier::external_body]
fn write_pretty_json(document: &OpenApi) -> (written: Option<String>)
    ensures
        written is Some,
        is_pretty_json(*document, written->0@),
        has_no_extensions(*document) ==> written->0@ == pretty_json(*document),
{
    serde_json::to_string_pretty(document).ok()
}

/// The OpenAPI document, under the version of the API that it describes.
pub fn openapi_spec(document: OpenApi, version: &str) -> (spec: OpenApi)
    ensures
        spec == with_version(document, version@),
        documented_version(spec) == version@,
        documented_paths(spec) == documented_paths(document),
        has_no_extensions(spec) == has_no_extensions(document),
{
    let mut spec = document;
    set_version(&mut spec, version.to_owned());
    spec
}

/// Lists the endpoints that an OpenAPI document describes.
pub fn api_endpoint_list(document: &OpenApi) -> (endpoints: Vec<String>)
    ensures
        texts_of(endpoints@) == endpoint_lines(documented_paths(*document)),
        paths_differ(documented_paths(*document)),
{
    endpoint_list(&path_methods(document))
}

/// Whether a text is the OpenAPI specification that a document makes under a
/// version of the API.
pub open spec fn is_openapi_json(
    document: OpenApi,
    version: Seq<char>,
    json: Seq<char>,
) -> bool {
    &&& is_pretty_json(with_version(document, version), json)
    &&& has_no_extensions(document) ==> json == pretty_json(with_version(document, version))
}

/// A document without vendor extensions is always written as the same text.
pub proof fn openapi_json_is_always_the_same(
    document: OpenApi,
    version: Seq<char>,
    one: Seq<char>,
    other: Seq<char>,
)
    requires
        has_no_extensions(document),
        is_openapi_json(document, version, one),
        is_openapi_json(document, version, other),
    ensures
        one == other,
{
}

/// Generates the OpenAPI specification as JSON text. What is written is the
/// document under the version of the API.
pub fn generate_openapi_json(document: OpenApi, version: &str) -> (json: String)
    ensures
        is_openapi_json(document, version@, json@),
        documented_version(with_version(document, version@)) == version@,
        documented_paths(with_version(document, version@)) == documented_paths(document),
{
    let spec = openapi_spec(document, version);
    write_pretty_json(&spec).unwrap()
}

/// The list of endpoints leaves no endpoint out and adds none, and the paths in
/// it ascend.
pub proof fn endpoint_lines_are_complete(paths: Seq<(Seq<char>, bool, bool, bool, bool)>)
    ensures
        endpoint_lines(paths).to_multiset() == all_endpoints(paths).map_values(
            |e: Endpoint| e.line(),
        ).to_multiset(),
        forall|i: int, j: int|
            0 <= i < j < sorted_endpoints(paths).len() ==> !before(
                (#[trigger] sorted_endpoints(paths)[j]).path,
                (#[trigger] sorted_endpoints(paths)[i]).path,
            ),
{
    let all = all_endpoints(paths);
    let keys = all.map_values(|e: Endpoint| e.path);
    let lines = all.map_values(|e: Endpoint| e.line());
    sorting_order_exists(keys);
    sorted_elements_are_the_same(lines, keys);
    assert(sorted_by_keys(lines, keys) =~= endpoint_lines(paths));
    sorted_texts_ascend(keys);
    let sorted = sorted_endpoints(paths);
    assert forall|i: int, j: int| 0 <= i < j < sorted.len() implies !before(
        (#[trigger] sorted[j]).path,
        (#[trigger] sorted[i]).path,
    ) by {
        assert(sorted_texts(keys)[j] == sorted[j].path);
        assert(sorted_texts(keys)[i] == sorted[i].path);
    }
}

/// The place of a method among those on one path: GET, PUT, POST, DEL, and a
/// stream.
pub open spec fn method_rank(method: Seq<char>) -> int {
    if method == "GET "@ {
        0
    } else if method == "PUT "@ {
        1
    } else if method == "POST"@ {
        2
    } else if method == "DEL "@ {
        3
    } else {
        4
    }
}

/// Whether the entry point of Signal K is left to be listed: no document says
/// that it answers GET.
pub open spec fn entry_is_undocumented(paths: Seq<(Seq<char>, bool, bool, bool, bool)>) -> bool {
    forall|i: int| 0 <= i < paths.len() && (#[trigger] paths[i]).0 == "/signalk"@ ==> !paths[i].1
}

spec fn is_of_path(endpoint: Endpoint, path: (Seq<char>, bool, bool, bool, bool)) -> bool {
    &&& endpoint.path == path.0
    &&& path.0 != CONTROL_URI@
    &&& path.0 != SPOKES_URI@
    &&& endpoint.method.len() == 4
    &&& method_rank(endpoint.method) < 4
    &&& method_rank(endpoint.method) == 0 ==> path.1
}

spec fn ranks_ascend(endpoints: Seq<Endpoint>) -> bool {
    forall|a: int, b: int|
        0 <= a < b < endpoints.len() && (#[trigger] endpoints[a]).path == (
        #[trigger] endpoints[b]).path ==> method_rank(endpoints[a].method) < method_rank(
            endpoints[b].method,
        )
}

proof fn lemma_method_ranks()
    ensures
        method_rank("GET "@) == 0,
        method_rank("PUT "@) == 1,
        method_rank("POST"@) == 2,
        method_rank("DEL "@) == 3,
        method_rank("WS  "@) == 4,
        "GET "@.len() == 4,
        "PUT "@.len() == 4,
        "POST"@.len() == 4,
        "DEL "@.len() == 4,
        "WS  "@.len() == 4,
{
    reveal_strlit("GET ");
    reveal_strlit("PUT ");
    reveal_strlit("POST");
    reveal_strlit("DEL ");
    reveal_strlit("WS  ");
    assert("PUT "@[0] == 'P' && "PUT "@[1] == 'U');
    assert("POST"@[0] == 'P' && "POST"@[1] == 'O');
    assert("DEL "@[0] == 'D');
    assert("WS  "@[0] == 'W');
    assert("GET "@[0] == 'G');
}

proof fn lemma_endpoints_of_path(path: (Seq<char>, bool, bool, bool, bool))
    ensures
        ranks_ascend(endpoints_of_path(path)),
        forall|a: int|
            0 <= a < endpoints_of_path(path).len() ==> is_of_path(
                #[trigger] endpoints_of_path(path)[a],
                path,
            ),
{
    lemma_method_ranks();
}

proof fn lemma_endpoints_of_paths(paths: Seq<(Seq<char>, bool, bool, bool, bool)>)
    requires
        paths_differ(paths),
    ensures
        ranks_ascend(endpoints_of_paths(paths)),
        forall|a: int|
            0 <= a < endpoints_of_paths(paths).len() ==> exists|i: int|
                0 <= i < paths.len() && is_of_path(
                    #[trigger] endpoints_of_paths(paths)[a],
                    #[trigger] paths[i],
                ),
    decreases paths.len(),
{
    if paths.len() > 0 {
        let earlier = paths.drop_last();
        let last = paths.last();
        let former = endpoints_of_paths(earlier);
        let added = endpoints_of_path(last);
        let all = endpoints_of_paths(paths);
        assert forall|i: int, j: int| 0 <= i < j < earlier.len() implies (#[trigger] earlier[i]).0
            != (#[trigger] earlier[j]).0 by {
            assert(paths[i].0 != paths[j].0);
        }
        lemma_endpoints_of_paths(earlier);
        lemma_endpoints_of_path(last);
        assert forall|a: int| 0 <= a < all.len() implies exists|i: int|
            0 <= i < paths.len() && is_of_path(#[trigger] all[a], #[trigger] paths[i]) by {
            if a < former.len() {
                let i = choose|i: int|
                    0 <= i < earlier.len() && is_of_path(former[a], #[trigger] earlier[i]);
                assert(is_of_path(all[a], paths[i]));
            } else {
                assert(all[a] == added[a - former.len()]);
                assert(is_of_path(all[a], paths[paths.len() - 1]));
            }
        }
        assert forall|a: int, b: int|
            0 <= a < b < all.len() && (#[trigger] all[a]).path == (
            #[trigger] all[b]).path implies method_rank(all[a].method) < method_rank(
            all[b].method,
        ) by {
            if b < former.len() {
                assert(former[a].path == former[b].path);
            } else if a >= former.len() {
                assert(added[a - former.len()].path == added[b - former.len()].path);
            } else {
                let i = choose|i: int|
                    0 <= i < earlier.len() && is_of_path(former[a], #[trigger] earlier[i]);
                assert(is_of_path(added[b - former.len()], last));
                assert(paths[i].0 != paths[paths.len() - 1].0);
            }
        }
    }
}

proof fn lemma_all_endpoints(paths: Seq<(Seq<char>, bool, bool, bool, bool)>)
    requires
        paths_differ(paths),
        entry_is_undocumented(paths),
    ensures
        ranks_ascend(all_endpoints(paths)),
        forall|a: int|
            0 <= a < all_endpoints(paths).len() ==> (
            #[trigger] all_endpoints(paths)[a]).method.len() == 4,
{
    lemma_method_ranks();
    lemma_endpoints_of_paths(paths);
    reveal_strlit("/signalk");
    reveal_strlit("/signalk/v1/stream");
    reveal_strlit("/signalk/v2/api/vessels/self/radars/{id}/spokes");
    assert("/signalk"@.len() == 8 && CONTROL_URI@.len() == 18 && SPOKES_URI@.len() == 47);
    let listed = endpoints_of_paths(paths);
    let all = all_endpoints(paths);
    let n = listed.len() as int;
    assert(all.len() == n + 3);
    assert(all[0] == Endpoint { method: "GET "@, path: "/signalk"@ });
    assert(all[n + 1] == Endpoint { method: "WS  "@, path: CONTROL_URI@ });
    assert(all[n + 2] == Endpoint { method: "WS  "@, path: SPOKES_URI@ });
    assert forall|a: int| 0 <= a < n implies #[trigger] all[a + 1] == listed[a] by {}
    assert forall|a: int| 0 <= a < all.len() implies (#[trigger] all[a]).method.len() == 4 by {
        if 0 < a <= n {
            assert(all[a - 1 + 1] == listed[a - 1]);
        }
    }
    assert forall|a: int, b: int|
        0 <= a < b < all.len() && (#[trigger] all[a]).path == (
        #[trigger] all[b]).path implies method_rank(all[a].method) < method_rank(
        all[b].method,
    ) by {
        if 0 < b <= n {
            assert(all[b - 1 + 1] == listed[b - 1]);
            let i = choose|i: int|
                0 <= i < paths.len() && is_of_path(listed[b - 1], #[trigger] paths[i]);
            assert(is_of_path(listed[b - 1], paths[i]));
            if a == 0 {
                assert(paths[i].0 == "/signalk"@);
            } else {
                assert(all[a - 1 + 1] == listed[a - 1]);
                assert(listed[a - 1].path == listed[b - 1].path);
            }
        } else if 0 < a <= n {
            assert(all[a - 1 + 1] == listed[a - 1]);
            let i = choose|i: int|
                0 <= i < paths.len() && is_of_path(listed[a - 1], #[trigger] paths[i]);
            assert(is_of_path(listed[a - 1], paths[i]));
        }
    }
}

/// Methods on one path are listed in the order GET, PUT, POST, DEL, each once, as
/// long as the entry point of Signal K is not documented as well.
pub proof fn methods_on_a_path_are_in_order(
    paths: Seq<(Seq<char>, bool, bool, bool, bool)>,
    i: int,
    j: int,
)
    requires
        paths_differ(paths),
        entry_is_undocumented(paths),
        0 <= i < j < sorted_endpoints(paths).len(),
        sorted_endpoints(paths)[i].path == sorted_endpoints(paths)[j].path,
    ensures
        method_rank(sorted_endpoints(paths)[i].method) < method_rank(
            sorted_endpoints(paths)[j].method,
        ),
{
    let all = all_endpoints(paths);
    let keys = all.map_values(|e: Endpoint| e.path);
    let order = sorting_order(keys);
    sorting_order_exists(keys);
    lemma_all_endpoints(paths);
    assert(goes_first(keys, order[i], order[j]));
    before_is_irreflexive(keys[order[i]]);
    assert(sorted_endpoints(paths)[i] == all[order[i]]);
    assert(sorted_endpoints(paths)[j] == all[order[j]]);
}

/// No endpoint is listed twice, as long as the entry point of Signal K is not
/// documented as well.
pub proof fn no_endpoint_is_listed_twice(paths: Seq<(Seq<char>, bool, bool, bool, bool)>)
    requires
        paths_differ(paths),
        entry_is_undocumented(paths),
    ensures
        endpoint_lines(paths).no_duplicates(),
{
    let all = all_endpoints(paths);
    let keys = all.map_values(|e: Endpoint| e.path);
    let order = sorting_order(keys);
    let sorted = sorted_endpoints(paths);
    let lines = endpoint_lines(paths);
    sorting_order_exists(keys);
    lemma_all_endpoints(paths);
    reveal_strlit(" ");
    assert forall|i: int, j: int| 0 <= i < j < lines.len() implies lines[i] != lines[j] by {
        assert(sorted[i] == all[order[i]] && sorted[j] == all[order[j]]);
        if lines[i] == lines[j] {
            assert(sorted[i].method =~= lines[i].take(4));
            assert(sorted[j].method =~= lines[j].take(4));
            assert(sorted[i].path =~= lines[i].skip(5));
            assert(sorted[j].path =~= lines[j].skip(5));
            methods_on_a_path_are_in_order(paths, i, j);
        }
    }
}

/// Every handler answers one method on one path, and is there once: the table has
/// no room for anything else.
pub proof fn every_handler_has_its_route(diagnostics_uri: Seq<char>, handler: Handler) -> (k: int)
    ensures
        0 <= k < route_table(diagnostics_uri).len(),
        route_table(diagnostics_uri)[k].2 == handler,
        forall|j: int|
            0 <= j < route_table(diagnostics_uri).len() && (
            #[trigger] route_table(diagnostics_uri)[j]).2 == handler ==> j == k,
        handler is GetRadars ==> route_table(diagnostics_uri)[k].0
            == "/signalk/v2/api/vessels/self/radars"@ && route_table(diagnostics_uri)[k].1 is Get,
        handler is GetInterfaces ==> route_table(diagnostics_uri)[k].0
            == "/signalk/v2/api/vessels/self/radars/interfaces"@ && route_table(diagnostics_uri)[k].1 is Get,
        handler is GetStatus ==> route_table(diagnostics_uri)[k].0
            == "/signalk/v2/api/vessels/self/radars/status"@ && route_table(diagnostics_uri)[k].1 is Get,
        handler is GetNetworkCheck ==> route_table(diagnostics_uri)[k].0
            == "/signalk/v2/api/vessels/self/radars/network-check/{expectation}"@ && route_table(diagnostics_uri)[k].1 is Get,
        handler is GetTelemetry ==> route_table(diagnostics_uri)[k].0
            == "/signalk/v2/api/vessels/self/radars/telemetry"@ && route_table(diagnostics_uri)[k].1 is Get,
        handler is SetTelemetry ==> route_table(diagnostics_uri)[k].0
            == "/signalk/v2/api/vessels/self/radars/telemetry"@ && route_table(diagnostics_uri)[k].1 is Put,
        handler is GetDiagnostics ==> route_table(diagnostics_uri)[k].0
            == diagnostics_uri && route_table(diagnostics_uri)[k].1 is Get,
        handler is ControlStream ==> route_table(diagnostics_uri)[k].0
            == "/signalk/v1/stream"@ && route_table(diagnostics_uri)[k].1 is Get,
        handler is Spokes ==> route_table(diagnostics_uri)[k].0
            == "/signalk/v2/api/vessels/self/radars/{id}/spokes"@ && route_table(diagnostics_uri)[k].1 is Get,
        handler is GetRadarInfo ==> route_table(diagnostics_uri)[k].0
            == "/signalk/v2/api/vessels/self/radars/{radar_id}"@ && route_table(diagnostics_uri)[k].1 is Get,
        handler is GetRadar ==> route_table(diagnostics_uri)[k].0
            == "/signalk/v2/api/vessels/self/radars/{radar_id}/capabilities"@ && route_table(diagnostics_uri)[k].1 is Get,
        handler is GetControlValues ==> route_table(diagnostics_uri)[k].0
            == "/signalk/v2/api/vessels/self/radars/{radar_id}/controls"@ && route_table(diagnostics_uri)[k].1 is Get,
        handler is SetControlValues ==> route_table(diagnostics_uri)[k].0
            == "/signalk/v2/api/vessels/self/radars/{radar_id}/controls"@ && route_table(diagnostics_uri)[k].1 is Put,
        handler is GetControlValue ==> route_table(diagnostics_uri)[k].0
            == "/signalk/v2/api/vessels/self/radars/{radar_id}/controls/{control_id}"@ && route_table(diagnostics_uri)[k].1 is Get,
        handler is SetControlValue ==> route_table(diagnostics_uri)[k].0
            == "/signalk/v2/api/vessels/self/radars/{radar_id}/controls/{control_id}"@ && route_table(diagnostics_uri)[k].1 is Put,
        handler is GetTargets ==> route_table(diagnostics_uri)[k].0
            == "/signalk/v2/api/vessels/self/radars/{radar_id}/targets"@ && route_table(diagnostics_uri)[k].1 is Get,
        handler is AcquireTarget ==> route_table(diagnostics_uri)[k].0
            == "/signalk/v2/api/vessels/self/radars/{radar_id}/targets"@ && route_table(diagnostics_uri)[k].1 is Post,
        handler is DeleteTarget ==> route_table(diagnostics_uri)[k].0
            == "/signalk/v2/api/vessels/self/radars/{radar_id}/targets/{target_id}"@ && route_table(diagnostics_uri)[k].1 is Delete,
        handler is OpenApiJson ==> route_table(diagnostics_uri)[k].0
            == "/signalk/v2/api/vessels/self/radars/resources/openapi.json"@ && route_table(diagnostics_uri)[k].1 is Get,
{
    match handler {
        Handler::GetRadars => 0,
        Handler::GetInterfaces => 1,
        Handler::GetStatus => 2,
        Handler::GetNetworkCheck => 3,
        Handler::GetTelemetry => 4,
        Handler::SetTelemetry => 5,
        Handler::GetDiagnostics => 6,
        Handler::ControlStream => 7,
        Handler::Spokes => 8,
        Handler::GetRadarInfo => 9,
        Handler::GetRadar => 10,
        Handler::GetControlValues => 11,
        Handler::SetControlValues => 12,
        Handler::GetControlValue => 13,
        Handler::SetControlValue => 14,
        Handler::GetTargets => 15,
        Handler::AcquireTarget => 16,
        Handler::DeleteTarget => 17,
        Handler::OpenApiJson => 18,
    }
}

/// Routes and documented paths are read field by field, each in its place.
pub proof fn routes_and_paths_are_read_in_place(
    routes: Seq<Route>,
    paths: Seq<PathMethods>,
    i: int,
)
    ensures
        route_views(routes).len() == routes.len(),
        0 <= i < routes.len() ==> route_views(routes)[i].0 == routes[i].uri@ && route_views(
            routes,
        )[i].1 == routes[i].method && route_views(routes)[i].2 == routes[i].handler,
        path_views(paths).len() == paths.len(),
        0 <= i < paths.len() ==> path_views(paths)[i].0 == paths[i].path@ && path_views(
            paths,
        )[i].1 == paths[i].get && path_views(paths)[i].2 == paths[i].put && path_views(paths)[i].3
            == paths[i].post && path_views(paths)[i].4 == paths[i].delete,
{
}

/// A method is documented on a path where the path's own flag for it says so, and
/// served where a route has both.
pub proof fn methods_are_documented_by_their_flags(
    diagnostics_uri: Seq<char>,
    paths: Seq<(Seq<char>, bool, bool, bool, bool)>,
    i: int,
    k: int,
)
    ensures
        0 <= i < paths.len() ==> {
            &&& paths[i].1 ==> is_documented(paths, paths[i].0, Method::Get)
            &&& paths[i].2 ==> is_documented(paths, paths[i].0, Method::Put)
            &&& paths[i].3 ==> is_documented(paths, paths[i].0, Method::Post)
            &&& paths[i].4 ==> is_documented(paths, paths[i].0, Method::Delete)
            &&& documents(paths[i], Method::Get) <==> paths[i].1
            &&& documents(paths[i], Method::Put) <==> paths[i].2
            &&& documents(paths[i], Method::Post) <==> paths[i].3
            &&& documents(paths[i], Method::Delete) <==> paths[i].4
        },
        0 <= k < route_table(diagnostics_uri).len() ==> is_served(
            diagnostics_uri,
            route_table(diagnostics_uri)[k].0,
            route_table(diagnostics_uri)[k].1,
        ),
{
    if 0 <= i < paths.len() {
        assert(documents(paths[i], Method::Get) == paths[i].1);
        assert(documents(paths[i], Method::Put) == paths[i].2);
        assert(documents(paths[i], Method::Post) == paths[i].3);
        assert(documents(paths[i], Method::Delete) == paths[i].4);
    }
}

proof fn lemma_path_is_listed(paths: Seq<(Seq<char>, bool, bool, bool, bool)>, i: int, e: Endpoint)
    requires
        0 <= i < paths.len(),
        endpoints_of_path(paths[i]).contains(e),
    ensures
        endpoints_of_paths(paths).contains(e),
    decreases paths.len(),
{
    let earlier = paths.drop_last();
    let former = endpoints_of_paths(earlier);
    let added = endpoints_of_path(paths.last());
    let all = endpoints_of_paths(paths);
    if i < earlier.len() {
        assert(earlier[i] == paths[i]);
        lemma_path_is_listed(earlier, i, e);
        let a = choose|a: int| 0 <= a < former.len() && former[a] == e;
        assert(all[a] == e);
    } else {
        let a = choose|a: int| 0 <= a < added.len() && added[a] == e;
        assert(all[former.len() + a] == e);
    }
}

proof fn lemma_listed_is_of_a_path(
    paths: Seq<(Seq<char>, bool, bool, bool, bool)>,
    e: Endpoint,
) -> (i: int)
    requires
        endpoints_of_paths(paths).contains(e),
    ensures
        0 <= i < paths.len(),
        endpoints_of_path(paths[i]).contains(e),
    decreases paths.len(),
{
    let earlier = paths.drop_last();
    let former = endpoints_of_paths(earlier);
    let added = endpoints_of_path(paths.last());
    let all = endpoints_of_paths(paths);
    let a = choose|a: int| 0 <= a < all.len() && all[a] == e;
    if a < former.len() {
        assert(former[a] == e);
        lemma_listed_is_of_a_path(earlier, e)
    } else {
        assert(added[a - former.len()] == e);
        paths.len() - 1
    }
}

proof fn lemma_lines_are_those_of_all(
    paths: Seq<(Seq<char>, bool, bool, bool, bool)>,
    line: Seq<char>,
)
    ensures
        endpoint_lines(paths).contains(line) <==> exists|a: int|
            0 <= a < all_endpoints(paths).len() && (#[trigger] all_endpoints(paths)[a]).line()
                == line,
{
    let lines = all_endpoints(paths).map_values(|e: Endpoint| e.line());
    broadcast use vstd::seq_lib::group_to_multiset_ensures;

    endpoint_lines_are_complete(paths);
    assert(endpoint_lines(paths).contains(line) <==> endpoint_lines(paths).to_multiset().count(line)
        > 0);
    assert(lines.contains(line) <==> lines.to_multiset().count(line) > 0);
    if lines.contains(line) {
        let a = choose|a: int| 0 <= a < lines.len() && lines[a] == line;
        assert(all_endpoints(paths)[a].line() == line);
    }
    if exists|a: int|
        0 <= a < all_endpoints(paths).len() && (#[trigger] all_endpoints(paths)[a]).line()
            == line {
        let a = choose|a: int|
            0 <= a < all_endpoints(paths).len() && (#[trigger] all_endpoints(paths)[a]).line()
                == line;
        assert(lines[a] == line);
    }
}

proof fn lemma_columns(path: Seq<char>)
    ensures
        (Endpoint { method: "GET "@, path }).line() == "GET  "@ + path,
        (Endpoint { method: "PUT "@, path }).line() == "PUT  "@ + path,
        (Endpoint { method: "POST"@, path }).line() == "POST "@ + path,
        (Endpoint { method: "DEL "@, path }).line() == "DEL  "@ + path,
        (Endpoint { method: "WS  "@, path }).line() == "WS   "@ + path,
{
    reveal_strlit(" ");
    reveal_strlit("GET ");
    reveal_strlit("GET  ");
    reveal_strlit("PUT ");
    reveal_strlit("PUT  ");
    reveal_strlit("POST");
    reveal_strlit("POST ");
    reveal_strlit("DEL ");
    reveal_strlit("DEL  ");
    reveal_strlit("WS  ");
    reveal_strlit("WS   ");
    assert("GET "@ + " "@ =~= "GET  "@);
    assert("PUT "@ + " "@ =~= "PUT  "@);
    assert("POST"@ + " "@ =~= "POST "@);
    assert("DEL "@ + " "@ =~= "DEL  "@);
    assert("WS  "@ + " "@ =~= "WS   "@);
}

proof fn lemma_endpoint_is_listed(
    paths: Seq<(Seq<char>, bool, bool, bool, bool)>,
    i: int,
    a: int,
)
    requires
        0 <= i < paths.len(),
        0 <= a < endpoints_of_path(paths[i]).len(),
    ensures
        endpoint_lines(paths).contains(endpoints_of_path(paths[i])[a].line()),
{
    let e = endpoints_of_path(paths[i])[a];
    let listed = endpoints_of_paths(paths);
    assert(endpoints_of_path(paths[i]).contains(e));
    lemma_path_is_listed(paths, i, e);
    let b = choose|b: int| 0 <= b < listed.len() && listed[b] == e;
    assert(all_endpoints(paths)[b + 1] == e);
    lemma_lines_are_those_of_all(paths, e.line());
}

/// Every method that is documented on a path has its line in the list, whatever
/// else is documented, unless the path is one of the two streams.
pub proof fn documented_methods_are_listed(
    paths: Seq<(Seq<char>, bool, bool, bool, bool)>,
    i: int,
)
    requires
        0 <= i < paths.len(),
        paths[i].0 != "/signalk/v1/stream"@,
        paths[i].0 != "/signalk/v2/api/vessels/self/radars/{id}/spokes"@,
    ensures
        paths[i].1 ==> endpoint_lines(paths).contains("GET  "@ + paths[i].0),
        paths[i].2 ==> endpoint_lines(paths).contains("PUT  "@ + paths[i].0),
        paths[i].3 ==> endpoint_lines(paths).contains("POST "@ + paths[i].0),
        paths[i].4 ==> endpoint_lines(paths).contains("DEL  "@ + paths[i].0),
{
    let path = paths[i];
    let own = endpoints_of_path(path);
    let g = endpoint_if(path.1, "GET "@, path.0).len() as int;
    let p = endpoint_if(path.2, "PUT "@, path.0).len() as int;
    let o = endpoint_if(path.3, "POST"@, path.0).len() as int;
    lemma_columns(path.0);
    if path.1 {
        assert(own[0] == (Endpoint { method: "GET "@, path: path.0 }));
        lemma_endpoint_is_listed(paths, i, 0);
    }
    if path.2 {
        assert(own[g] == (Endpoint { method: "PUT "@, path: path.0 }));
        lemma_endpoint_is_listed(paths, i, g);
    }
    if path.3 {
        assert(own[g + p] == (Endpoint { method: "POST"@, path: path.0 }));
        lemma_endpoint_is_listed(paths, i, g + p);
    }
    if path.4 {
        assert(own[g + p + o] == (Endpoint { method: "DEL "@, path: path.0 }));
        lemma_endpoint_is_listed(paths, i, g + p + o);
    }
}

/// The entry point of Signal K and the two streams are always in the list.
pub proof fn entry_and_streams_are_listed(paths: Seq<(Seq<char>, bool, bool, bool, bool)>)
    ensures
        endpoint_lines(paths).contains("GET  "@ + "/signalk"@),
        endpoint_lines(paths).contains("WS   "@ + "/signalk/v1/stream"@),
        endpoint_lines(paths).contains(
            "WS   "@ + "/signalk/v2/api/vessels/self/radars/{id}/spokes"@,
        ),
{
    let all = all_endpoints(paths);
    lemma_columns("/signalk"@);
    lemma_columns("/signalk/v1/stream"@);
    lemma_columns("/signalk/v2/api/vessels/self/radars/{id}/spokes"@);
    assert(all[0].line() == "GET  "@ + "/signalk"@);
    assert(all[all.len() - 2].line() == "WS   "@ + "/signalk/v1/stream"@);
    assert(all[all.len() - 1].line() == "WS   "@
        + "/signalk/v2/api/vessels/self/radars/{id}/spokes"@);
    lemma_lines_are_those_of_all(paths, all[0].line());
    lemma_lines_are_those_of_all(paths, all[all.len() - 2].line());
    lemma_lines_are_those_of_all(paths, all[all.len() - 1].line());
}

/// Nothing is in the list but the entry point, the two streams, and methods that
/// are documented on a path which is no stream.
pub proof fn nothing_else_is_listed(
    paths: Seq<(Seq<char>, bool, bool, bool, bool)>,
    line: Seq<char>,
)
    requires
        endpoint_lines(paths).contains(line),
        line != "GET  "@ + "/signalk"@,
        line != "WS   "@ + "/signalk/v1/stream"@,
        line != "WS   "@ + "/signalk/v2/api/vessels/self/radars/{id}/spokes"@,
    ensures
        exists|i: int|
            0 <= i < paths.len() && (#[trigger] paths[i]).0 != "/signalk/v1/stream"@ && paths[i].0
                != "/signalk/v2/api/vessels/self/radars/{id}/spokes"@ && {
                ||| paths[i].1 && line == "GET  "@ + paths[i].0
                ||| paths[i].2 && line == "PUT  "@ + paths[i].0
                ||| paths[i].3 && line == "POST "@ + paths[i].0
                ||| paths[i].4 && line == "DEL  "@ + paths[i].0
            },
{
    let all = all_endpoints(paths);
    let listed = endpoints_of_paths(paths);
    lemma_lines_are_those_of_all(paths, line);
    let a = choose|a: int| 0 <= a < all.len() && (#[trigger] all[a]).line() == line;
    lemma_columns("/signalk"@);
    lemma_columns("/signalk/v1/stream"@);
    lemma_columns("/signalk/v2/api/vessels/self/radars/{id}/spokes"@);
    assert(0 < a <= listed.len());
    assert(all[a] == listed[a - 1]);
    let e = listed[a - 1];
    assert(listed.contains(e));
    let i = lemma_listed_is_of_a_path(paths, e);
    let path = paths[i];
    let own = endpoints_of_path(path);
    lemma_columns(path.0);
    let b = choose|b: int| 0 <= b < own.len() && own[b] == e;
    assert(own[b] == e);
    let g = endpoint_if(path.1, "GET "@, path.0);
    let p = endpoint_if(path.2, "PUT "@, path.0);
    let o = endpoint_if(path.3, "POST"@, path.0);
    let d = endpoint_if(path.4, "DEL "@, path.0);
    if b < g.len() {
        assert(e == g[b]);
    } else if b < g.len() + p.len() {
        assert(e == p[b - g.len()]);
    } else if b < g.len() + p.len() + o.len() {
        assert(e == o[b - g.len() - p.len()]);
    } else {
        assert(e == d[b - g.len() - p.len() - o.len()]);
    }
    assert(paths[i] == path);
}

/// What is written is the document under its version; without vendor extensions
/// there is one text of it.
pub proof fn openapi_json_is_of_the_document(document: OpenApi, version: Seq<char>, json: Seq<char>)
    ensures
        is_openapi_json(document, version, json) ==> is_pretty_json(
            with_version(document, version),
            json,
        ),
        is_openapi_json(document, version, json) && has_no_extensions(document) ==> json
            == pretty_json(with_version(document, version)),
{
}

proof fn lemma_method_has_four_columns(paths: Seq<(Seq<char>, bool, bool, bool, bool)>, a: int)
    requires
        0 <= a < all_endpoints(paths).len(),
    ensures
        all_endpoints(paths)[a].method.len() == 4,
{
    let listed = endpoints_of_paths(paths);
    lemma_method_ranks();
    if 0 < a <= listed.len() {
        let e = listed[a - 1];
        assert(all_endpoints(paths)[a] == e);
        assert(listed.contains(e));
        let i = lemma_listed_is_of_a_path(paths, e);
        lemma_endpoints_of_path(paths[i]);
        let own = endpoints_of_path(paths[i]);
        let b = choose|b: int| 0 <= b < own.len() && own[b] == e;
        assert(is_of_path(own[b], paths[i]));
    }
}

/// The lines of the list go up by what stands behind the first five columns, and
/// none of them is shorter.
pub proof fn lines_go_up_by_path(
    paths: Seq<(Seq<char>, bool, bool, bool, bool)>,
    i: int,
    j: int,
)
    requires
        0 <= i < j < endpoint_lines(paths).len(),
    ensures
        endpoint_lines(paths)[i].len() >= 5,
        endpoint_lines(paths)[j].len() >= 5,
        !before(endpoint_lines(paths)[j].skip(5), endpoint_lines(paths)[i].skip(5)),
{
    let all = all_endpoints(paths);
    let keys = all.map_values(|e: Endpoint| e.path);
    let order = sorting_order(keys);
    let sorted = sorted_endpoints(paths);
    let lines = endpoint_lines(paths);
    reveal_strlit(" ");
    sorting_order_exists(keys);
    endpoint_lines_are_complete(paths);
    assert(sorted[i] == all[order[i]] && sorted[j] == all[order[j]]);
    lemma_method_has_four_columns(paths, order[i]);
    lemma_method_has_four_columns(paths, order[j]);
    assert(lines[i].skip(5) =~= sorted[i].path);
    assert(lines[j].skip(5) =~= sorted[j].path);
}

/// Lines on one path come in the order GET, PUT, POST, DEL, as long as the entry
/// point of Signal K is not documented as well.
pub proof fn lines_on_a_path_are_in_order(
    paths: Seq<(Seq<char>, bool, bool, bool, bool)>,
    i: int,
    j: int,
)
    requires
        paths_differ(paths),
        entry_is_undocumented(paths),
        0 <= i < j < endpoint_lines(paths).len(),
        endpoint_lines(paths)[i].skip(5) == endpoint_lines(paths)[j].skip(5),
    ensures
        endpoint_lines(paths)[j].take(5) != "GET  "@,
        endpoint_lines(paths)[j].take(5) == "PUT  "@ ==> endpoint_lines(paths)[i].take(5)
            == "GET  "@,
        endpoint_lines(paths)[j].take(5) == "POST "@ ==> endpoint_lines(paths)[i].take(5)
            == "GET  "@ || endpoint_lines(paths)[i].take(5) == "PUT  "@,
        endpoint_lines(paths)[i].take(5) != "DEL  "@ || endpoint_lines(paths)[j].take(5)
            == "WS   "@,
{
    let all = all_endpoints(paths);
    let keys = all.map_values(|e: Endpoint| e.path);
    let order = sorting_order(keys);
    let sorted = sorted_endpoints(paths);
    let lines = endpoint_lines(paths);
    let none = Seq::<char>::empty();
    reveal_strlit(" ");
    sorting_order_exists(keys);
    assert(sorted[i] == all[order[i]] && sorted[j] == all[order[j]]);
    lemma_method_has_four_columns(paths, order[i]);
    lemma_method_has_four_columns(paths, order[j]);
    assert(lines[i].skip(5) =~= sorted[i].path);
    assert(lines[j].skip(5) =~= sorted[j].path);
    methods_on_a_path_are_in_order(paths, i, j);
    lemma_method_ranks();
    lemma_columns(none);
    assert forall|k: int| k == i || k == j implies #[trigger] lines[k].take(5) == sorted[k].method
        + " "@ by {
        assert(lines[k].take(5) =~= sorted[k].method + " "@);
    }
    assert("GET "@ + " "@ =~= "GET  "@ + none && "GET  "@ + none =~= "GET  "@);
    assert("PUT "@ + " "@ =~= "PUT  "@ + none && "PUT  "@ + none =~= "PUT  "@);
    assert("POST"@ + " "@ =~= "POST "@ + none && "POST "@ + none =~= "POST "@);
    assert("DEL "@ + " "@ =~= "DEL  "@ + none && "DEL  "@ + none =~= "DEL  "@);
    assert("WS  "@ + " "@ =~= "WS   "@ + none && "WS   "@ + none =~= "WS   "@);
    lemma_method_is_known(paths, order[i]);
    lemma_method_is_known(paths, order[j]);
    assert(lines[i].take(5).take(4) =~= sorted[i].method);
    assert(lines[j].take(5).take(4) =~= sorted[j].method);
    assert(("GET "@ + " "@).take(4) =~= "GET "@);
    assert(("PUT "@ + " "@).take(4) =~= "PUT "@);
    assert(("POST"@ + " "@).take(4) =~= "POST"@);
    assert(("DEL "@ + " "@).take(4) =~= "DEL "@);
    assert(("WS  "@ + " "@).take(4) =~= "WS  "@);
}

proof fn lemma_method_is_known(paths: Seq<(Seq<char>, bool, bool, bool, bool)>, a: int)
    requires
        0 <= a < all_endpoints(paths).len(),
    ensures
        method_rank(all_endpoints(paths)[a].method) < 4 || all_endpoints(paths)[a].method
            == "WS  "@,
{
    let listed = endpoints_of_paths(paths);
    lemma_method_ranks();
    if 0 < a <= listed.len() {
        let e = listed[a - 1];
        assert(all_endpoints(paths)[a] == e);
        assert(listed.contains(e));
        let i = lemma_listed_is_of_a_path(paths, e);
        lemma_endpoints_of_path(paths[i]);
        let own = endpoints_of_path(paths[i]);
        let b = choose|b: int| 0 <= b < own.len() && own[b] == e;
        assert(is_of_path(own[b], paths[i]));
    }
}

} // verus!

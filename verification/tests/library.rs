use transit_index::{
    build_stop_hierarchy, carry_forward, cast_vehicle_type, clean_identifier, content_hash,
    data_processing_error, not_found_error, to_hex_string, AppError, GTFSData, GTFSRouteData,
    LatLong, NandiRoutesRes, RouteStopMapping, StopGeojson, StrMap, TopologyStore, VehicleData,
};

fn mapping(route: &str, stop: &str, seq: i32) -> RouteStopMapping {
    RouteStopMapping {
        estimated_travel_time_from_previous_stop: None,
        provider_code: "P1".to_string(),
        route_code: route.to_string(),
        sequence_num: seq,
        stop_code: stop.to_string(),
        stop_name: format!("stop {stop}"),
        stop_point: LatLong { lat: 12_900_000, lon: 77_600_000 },
        vehicle_type: "BUS".to_string(),
    }
}

fn summary(id: &str, mode: &str) -> NandiRoutesRes {
    NandiRoutesRes {
        id: id.to_string(),
        short_name: Some(id.to_string()),
        long_name: None,
        mode: mode.to_string(),
        agency_name: None,
        trip_count: Some(10),
        stop_count: Some(4),
        start_point: None,
        end_point: None,
    }
}

fn store_for(feed: &str, summaries: Vec<NandiRoutesRes>, maps: Vec<RouteStopMapping>, edges: Vec<(String, String)>, raw: &[u8]) -> TopologyStore {
    TopologyStore::build(feed.to_string(), &summaries, maps, &edges, &raw.to_vec())
}

fn snapshot_with(feed: &str, store: TopologyStore) -> GTFSData {
    let mut snap = GTFSData::new();
    snap.stores.insert_if_absent(feed.to_string(), store);
    snap
}

#[test]
fn vehicle_type_rail_becomes_metro() {
    assert_eq!(cast_vehicle_type("RAIL"), "METRO");
}

#[test]
fn vehicle_type_bus_passes_through() {
    assert_eq!(cast_vehicle_type("BUS"), "BUS");
}

#[test]
fn clean_identifier_strips_feed_prefix() {
    assert_eq!(clean_identifier("gtfs1:STOP5"), "STOP5");
}

#[test]
fn clean_identifier_decodes_then_strips() {
    assert_eq!(clean_identifier("gtfs1%3ASTOP5"), "STOP5");
}

#[test]
fn clean_identifier_bare_code_unchanged() {
    assert_eq!(clean_identifier("STOP5"), "STOP5");
}

#[test]
fn clean_identifier_keeps_text_after_final_colon() {
    assert_eq!(clean_identifier("a:b:c"), "c");
}

#[test]
fn clean_identifier_idempotent_on_plain_input() {
    let once = clean_identifier("feed:ABC");
    assert_eq!(clean_identifier(&once), once);
    let other = clean_identifier("no-colon-here");
    assert_eq!(clean_identifier(&other), other);
}

#[test]
fn route_stops_sorts_by_sequence_number() {
    let data = GTFSRouteData::build(vec![
        mapping("R1", "A", 2),
        mapping("R1", "B", 1),
    ]);
    let stops = data.stops_for_route("R1");
    assert_eq!(stops.len(), 2);
    assert_eq!(stops[0].stop_code, "B");
    assert_eq!(stops[1].stop_code, "A");
}

#[test]
fn route_stops_sorted_over_arbitrary_arrival_order() {
    let data = GTFSRouteData::build(vec![
        mapping("R1", "C", 30),
        mapping("R1", "A", 10),
        mapping("R2", "X", 1),
        mapping("R1", "D", 40),
        mapping("R1", "B", 20),
    ]);
    let stops = data.stops_for_route("R1");
    let codes: Vec<&str> = stops.iter().map(|m| m.stop_code.as_str()).collect();
    assert_eq!(codes, vec!["A", "B", "C", "D"]);
    let seqs: Vec<i32> = stops.iter().map(|m| m.sequence_num).collect();
    assert_eq!(seqs, vec![10, 20, 30, 40]);
}

#[test]
fn route_stops_ties_keep_arrival_order() {
    let first = mapping("R1", "A", 5);
    let second = mapping("R1", "B", 5);
    let data = GTFSRouteData::build(vec![first, second]);
    let stops = data.stops_for_route("R1");
    assert_eq!(stops[0].stop_code, "A");
    assert_eq!(stops[1].stop_code, "B");
}

#[test]
fn route_stops_unknown_route_is_empty() {
    let data = GTFSRouteData::build(vec![mapping("R1", "A", 1)]);
    assert!(data.stops_for_route("R9").is_empty());
}

#[test]
fn routes_for_stop_deduplicates() {
    let data = GTFSRouteData::build(vec![
        mapping("R1", "T", 1),
        mapping("R2", "T", 4),
        mapping("R1", "T", 9),
        mapping("R3", "U", 2),
    ]);
    let mut routes = data.routes_for_stop("T");
    routes.sort();
    assert_eq!(routes, vec!["R1".to_string(), "R2".to_string()]);
}

#[test]
fn routes_for_stop_unknown_stop_is_empty() {
    let data = GTFSRouteData::build(vec![mapping("R1", "A", 1)]);
    assert!(data.routes_for_stop("Z").is_empty());
}

#[test]
fn hex_rendering_is_two_digits_per_byte() {
    assert_eq!(to_hex_string(&vec![0x00, 0x1f, 0xff]), "001fff");
    assert_eq!(to_hex_string(&Vec::<u8>::new()), "");
}

#[test]
fn content_hash_is_deterministic() {
    let a = content_hash(&b"raw feed bytes".to_vec());
    let b = content_hash(&b"raw feed bytes".to_vec());
    let c = content_hash(&b"other bytes".to_vec());
    assert_eq!(a, b);
    assert_ne!(a, c);
    assert_eq!(a.len(), 64);
}

#[test]
fn store_changed_iff_hash_differs() {
    let store = store_for("F1", vec![], vec![], vec![], b"content");
    let same = content_hash(&b"content".to_vec());
    let other = content_hash(&b"changed".to_vec());
    assert!(!store.changed(&same));
    assert!(store.changed(&other));
}

#[test]
fn snapshot_changed_true_without_previous_store() {
    let snap = GTFSData::new();
    let h = content_hash(&b"anything".to_vec());
    assert!(snap.changed("F1", &h));
}

#[test]
fn identical_refresh_detects_no_change_and_reuses_index() {
    let raw = b"feed F1 content";
    let store = store_for(
        "F1",
        vec![summary("R1", "BUS")],
        vec![mapping("R1", "A", 1)],
        vec![],
        raw,
    );
    let first_hash = store.data_hash.clone();
    let snap = snapshot_with("F1", store);

    // Second refresh with byte-identical content: the change predicate is
    // false, so the pipeline keeps the already-built store instead of
    // rebuilding it.
    let second_hash = content_hash(&raw.to_vec());
    assert!(!snap.changed("F1", &second_hash));
    assert_eq!(first_hash, second_hash);
    let reused = snap.route_stops("F1", "R1");
    assert_eq!(reused.len(), 1);
}

#[test]
fn second_parent_edge_is_dropped_not_fatal() {
    let edges = vec![
        ("P1".to_string(), "C1".to_string()),
        ("P2".to_string(), "C1".to_string()),
    ];
    let ch = build_stop_hierarchy(&edges);
    let store = TopologyStore {
        feed_id: "F1".to_string(),
        routes: StrMap::new(),
        route_data: GTFSRouteData::build(vec![]),
        children_by_parent: ch,
        data_hash: content_hash(&b"x".to_vec()),
    };
    let snap = snapshot_with("F1", store);
    assert_eq!(snap.expand_station("F1", "P1"), vec!["C1".to_string()]);
    // The losing parent has no recorded children, so it expands to itself.
    assert_eq!(snap.expand_station("F1", "P2"), vec!["P2".to_string()]);
}

#[test]
fn cycle_closing_edge_is_dropped() {
    let edges = vec![
        ("A".to_string(), "B".to_string()),
        ("B".to_string(), "A".to_string()),
    ];
    let ch = build_stop_hierarchy(&edges);
    let store = TopologyStore {
        feed_id: "F1".to_string(),
        routes: StrMap::new(),
        route_data: GTFSRouteData::build(vec![]),
        children_by_parent: ch,
        data_hash: content_hash(&b"x".to_vec()),
    };
    let snap = snapshot_with("F1", store);
    assert_eq!(snap.expand_station("F1", "A"), vec!["B".to_string()]);
    assert_eq!(snap.expand_station("F1", "B"), vec!["B".to_string()]);
}

#[test]
fn self_loop_edge_is_dropped() {
    let edges = vec![("S".to_string(), "S".to_string())];
    let ch = build_stop_hierarchy(&edges);
    assert_eq!(ch.len(), 0);
}

#[test]
fn expand_station_without_children_is_itself() {
    let snap = GTFSData::new();
    assert_eq!(snap.expand_station("F1", "LONE"), vec!["LONE".to_string()]);
}

#[test]
fn rail_vehicle_matches_metro_route() {
    let store = store_for(
        "F1",
        vec![summary("R-metro", "METRO"), summary("R-bus", "BUS")],
        vec![],
        vec![],
        b"raw",
    );
    let snap = snapshot_with("F1", store);
    let live = VehicleData {
        waybill_id: "W1".to_string(),
        service_type: "RAIL".to_string(),
        vehicle_no: "V100".to_string(),
        schedule_no: "S1".to_string(),
        last_updated: Some(1_700_000_000_000),
        duty_date: Some(19_700),
    };
    let matched = snap.resolve_vehicle_route(&live, "F1").expect("should match");
    assert_eq!(matched.id, "R-metro");
    assert_eq!(matched.mode, "METRO");
}

#[test]
fn unmatched_vehicle_yields_explicit_no_match() {
    let store = store_for("F1", vec![summary("R-bus", "BUS")], vec![], vec![], b"raw");
    let snap = snapshot_with("F1", store);
    let live = VehicleData {
        waybill_id: "W1".to_string(),
        service_type: "TRAM".to_string(),
        vehicle_no: "V100".to_string(),
        schedule_no: "S1".to_string(),
        last_updated: None,
        duty_date: None,
    };
    assert!(snap.resolve_vehicle_route(&live, "F1").is_none());
    assert!(snap.resolve_vehicle_route(&live, "F9").is_none());
}

#[test]
fn publish_replaces_whole_snapshot() {
    let mut current = snapshot_with(
        "OLD",
        store_for("OLD", vec![], vec![mapping("R1", "A", 1)], vec![], b"old"),
    );
    let generation_before = current.generation;

    let built = snapshot_with(
        "NEW",
        store_for("NEW", vec![], vec![mapping("R2", "B", 1)], vec![], b"new"),
    );
    current.update_data(built);

    // Every query now answers from the newly built aggregate; nothing of
    // the superseded snapshot remains visible.
    assert!(current.route_stops("OLD", "R1").is_empty());
    assert_eq!(current.route_stops("NEW", "R2").len(), 1);
    assert_eq!(current.generation, generation_before + 1);
}

#[test]
fn geometry_join_uses_cleaned_stop_code() {
    let store = store_for(
        "F1",
        vec![],
        vec![
            mapping("R1", "gtfs1:STOPA", 1),
            mapping("R1", "STOPB", 2),
        ],
        vec![],
        b"raw",
    );
    let mut snap = snapshot_with("F1", store);
    snap.stop_geojsons.insert_if_absent(
        "STOPA".to_string(),
        StopGeojson {
            stop_code: "STOPA".to_string(),
            gtfs_id: "gtfs1:STOPA".to_string(),
            geo_json: "{\"type\":\"Point\"}".to_string(),
            gates: "".to_string(),
        },
    );
    let rows = snap.route_stops_with_geometry("F1", "R1");
    assert_eq!(rows.len(), 2);
    assert_eq!(rows[0].stop_code, "gtfs1:STOPA");
    assert_eq!(rows[0].stop_geojson.as_deref(), Some("{\"type\":\"Point\"}"));
    assert_eq!(rows[1].stop_geojson, None);
}

#[test]
fn stops_routes_through_snapshot() {
    let store = store_for(
        "F1",
        vec![],
        vec![mapping("R1", "T", 1), mapping("R2", "T", 3)],
        vec![],
        b"raw",
    );
    let snap = snapshot_with("F1", store);
    let mut routes = snap.stops_routes("F1", "T");
    routes.sort();
    assert_eq!(routes, vec!["R1".to_string(), "R2".to_string()]);
    assert!(snap.stops_routes("F9", "T").is_empty());
}

#[test]
fn failed_feed_is_carried_forward() {
    let previous = snapshot_with(
        "F1",
        store_for("F1", vec![summary("R1", "BUS")], vec![mapping("R1", "A", 1)], vec![], b"one"),
    );
    // The next refresh rebuilt only F2; F1 failed and keeps its previous
    // entry.
    let mut rebuilt: StrMap<TopologyStore> = StrMap::new();
    rebuilt.insert_if_absent(
        "F2".to_string(),
        store_for("F2", vec![], vec![mapping("R9", "Z", 1)], vec![], b"two"),
    );
    carry_forward(&mut rebuilt, &previous, "F1");

    let mut next = GTFSData::new();
    next.stores = rebuilt;
    assert_eq!(next.route_stops("F1", "R1").len(), 1);
    assert_eq!(next.route_stops("F2", "R9").len(), 1);
}

#[test]
fn first_route_summary_of_an_id_wins() {
    let store = store_for(
        "F1",
        vec![summary("R1", "BUS"), summary("R1", "METRO")],
        vec![],
        vec![],
        b"raw",
    );
    let snap = snapshot_with("F1", store);
    let live = VehicleData {
        waybill_id: "W".to_string(),
        service_type: "BUS".to_string(),
        vehicle_no: "V".to_string(),
        schedule_no: "S".to_string(),
        last_updated: None,
        duty_date: None,
    };
    let matched = snap.resolve_vehicle_route(&live, "F1").expect("bus route kept");
    assert_eq!(matched.mode, "BUS");
}

#[test]
fn error_codes_and_statuses() {
    assert_eq!(AppError::NotFound("x".to_string()).status_code(), 404);
    assert_eq!(AppError::Validation("x".to_string()).status_code(), 400);
    assert_eq!(AppError::RateLimit("x".to_string()).status_code(), 429);
    assert_eq!(AppError::NotReady("x".to_string()).status_code(), 503);
    assert_eq!(AppError::HttpRequest("x".to_string()).status_code(), 502);
    assert_eq!(AppError::DbError("x".to_string()).status_code(), 500);
    assert_eq!(AppError::NotFound("x".to_string()).error_code(), "NOT_FOUND");
    assert_eq!(
        AppError::DataProcessing("x".to_string()).error_code(),
        "DATA_PROCESSING_ERROR"
    );
}

#[test]
fn error_helpers_build_contextual_messages() {
    let e = not_found_error("route", "R77");
    assert_eq!(e.status_code(), 404);
    assert_eq!(e.message().as_str(), "route not found with identifier: R77");
    let d = data_processing_error("parse stops", "bad row");
    assert_eq!(d.status_code(), 500);
    assert_eq!(d.message().as_str(), "Failed to parse stops: bad row");
}

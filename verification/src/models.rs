//! Data model of the network index: static-feed records, live-vehicle
//! records, and the response shapes served by the query layer.
//!
//! Coordinates are fixed-point integers (micro-degrees) and timestamps are
//! epoch milliseconds / epoch day numbers, so that every field the index
//! logic reads is a plain value.

use vstd::prelude::*;

verus! {

/// A geographic point in micro-degrees (degrees times one million).
#[derive(Clone, Copy, Debug, PartialEq, Eq, Structural)]
pub struct LatLong {
    pub lat: i64,
    pub lon: i64,
}

/// A stop as delivered by the external routing service.
#[derive(Debug, PartialEq)]
pub struct NandiStop {
    pub id: String,
    pub code: String,
    pub name: String,
    pub lat: i64,
    pub lon: i64,
}

/// A trip as delivered by the external routing service.
#[derive(Debug, PartialEq)]
pub struct NandiTrip {
    pub id: String,
    pub direction: Option<i32>,
}

/// A stop pattern reference of one route.
#[derive(Debug, PartialEq)]
pub struct NandiPattern {
    pub id: String,
    pub desc: String,
    pub route_id: String,
}

/// A stop pattern with its stops and trips resolved.
#[derive(Debug, PartialEq)]
pub struct NandiPatternDetails {
    pub id: String,
    pub desc: Option<String>,
    pub route_id: String,
    pub stops: Vec<NandiStop>,
    pub trips: Vec<NandiTrip>,
}

/// Route metadata for listing: one route of one feed.
#[derive(Debug, PartialEq)]
pub struct NandiRoutesRes {
    pub id: String,
    pub short_name: Option<String>,
    pub long_name: Option<String>,
    pub mode: String,
    pub agency_name: Option<String>,
    pub trip_count: Option<i32>,
    pub stop_count: Option<i32>,
    pub start_point: Option<LatLong>,
    pub end_point: Option<LatLong>,
}

/// One stop's position on one route: the record both inverted indices
/// point into.
#[derive(Debug, PartialEq)]
pub struct RouteStopMapping {
    pub estimated_travel_time_from_previous_stop: Option<i32>,
    pub provider_code: String,
    pub route_code: String,
    pub sequence_num: i32,
    pub stop_code: String,
    pub stop_name: String,
    pub stop_point: LatLong,
    pub vehicle_type: String,
}

/// A stop-on-route record joined with the optional geometry payload of its
/// stop.
#[derive(Debug, PartialEq)]
pub struct RouteStopMappingWithGeojson {
    pub estimated_travel_time_from_previous_stop: Option<i32>,
    pub provider_code: String,
    pub route_code: String,
    pub sequence_num: i32,
    pub stop_code: String,
    pub stop_name: String,
    pub stop_point: LatLong,
    pub vehicle_type: String,
    pub stop_geojson: Option<String>,
}

/// A stop as delivered by the static feed, with its optional parent
/// station.
#[derive(Debug, PartialEq)]
pub struct GTFSStop {
    pub id: String,
    pub code: String,
    pub name: String,
    pub lat: i64,
    pub lon: i64,
    pub station_id: Option<String>,
    pub cluster: Option<String>,
}

/// Rendering and geofence data for one stop, keyed globally by normalized
/// stop code.
#[derive(Debug, PartialEq)]
pub struct StopGeojson {
    pub stop_code: String,
    pub gtfs_id: String,
    pub geo_json: String,
    pub gates: String,
}

/// Current service binding of one vehicle, as read from the live-tracking
/// store. `last_updated` is epoch milliseconds, `duty_date` an epoch day
/// number.
#[derive(Debug, PartialEq)]
pub struct VehicleData {
    pub waybill_id: String,
    pub service_type: String,
    pub vehicle_no: String,
    pub schedule_no: String,
    pub last_updated: Option<i64>,
    pub duty_date: Option<i32>,
}

/// Response shape for a vehicle's current service type.
#[derive(Debug, PartialEq)]
pub struct VehicleServiceTypeResponse {
    pub vehicle_no: String,
    pub service_type: String,
    pub waybill_id: Option<String>,
    pub schedule_no: Option<String>,
    pub last_updated: Option<i64>,
}

fn copy_opt_string(o: &Option<String>) -> (r: Option<String>)
    ensures
        r == *o,
{
    match o {
        Some(s) => Some(s.clone()),
        None => None,
    }
}

impl Clone for RouteStopMapping {
    fn clone(&self) -> (r: Self)
        ensures
            r == *self,
    {
        RouteStopMapping {
            estimated_travel_time_from_previous_stop: self.estimated_travel_time_from_previous_stop,
            provider_code: self.provider_code.clone(),
            route_code: self.route_code.clone(),
            sequence_num: self.sequence_num,
            stop_code: self.stop_code.clone(),
            stop_name: self.stop_name.clone(),
            stop_point: self.stop_point,
            vehicle_type: self.vehicle_type.clone(),
        }
    }
}

impl Clone for NandiRoutesRes {
    fn clone(&self) -> (r: Self)
        ensures
            r == *self,
    {
        NandiRoutesRes {
            id: self.id.clone(),
            short_name: copy_opt_string(&self.short_name),
            long_name: copy_opt_string(&self.long_name),
            mode: self.mode.clone(),
            agency_name: copy_opt_string(&self.agency_name),
            trip_count: self.trip_count,
            stop_count: self.stop_count,
            start_point: self.start_point,
            end_point: self.end_point,
        }
    }
}

impl Clone for StopGeojson {
    fn clone(&self) -> (r: Self)
        ensures
            r == *self,
    {
        StopGeojson {
            stop_code: self.stop_code.clone(),
            gtfs_id: self.gtfs_id.clone(),
            geo_json: self.geo_json.clone(),
            gates: self.gates.clone(),
        }
    }
}

impl Clone for VehicleData {
    fn clone(&self) -> (r: Self)
        ensures
            r == *self,
    {
        VehicleData {
            waybill_id: self.waybill_id.clone(),
            service_type: self.service_type.clone(),
            vehicle_no: self.vehicle_no.clone(),
            schedule_no: self.schedule_no.clone(),
            last_updated: self.last_updated,
            duty_date: self.duty_date,
        }
    }
}

} // verus!

//! The measurement that a node reports.
//!
//! The cache never computes on a measurement's real-valued fields: it stores
//! them and hands them out again. They are therefore carried as their
//! IEEE 754 bit patterns, single precision in 32 bits and double precision
//! in 64, which keeps every value exactly as it was decoded.

use vstd::prelude::*;

verus! {

/// Status flags of a measurement.
#[derive(Clone, Copy, Debug, PartialEq, Eq, Structural)]
pub struct DataPointFlags {
    pub has_gps_fix: bool,
    pub is_clipping: bool,
}

impl Default for DataPointFlags {
    fn default() -> (r: DataPointFlags)
        ensures
            !r.has_gps_fix,
            !r.is_clipping,
    {
        DataPointFlags { has_gps_fix: false, is_clipping: false }
    }
}

/// One decoded measurement of a node.
#[derive(Debug)]
pub struct DataPoint {
    /// Time of the measurement, where the node gave one.
    pub timestamp: Option<i64>,
    /// Sample rate, single precision.
    pub sample_rate: u32,
    pub flags: DataPointFlags,
    /// Latitude, single precision.
    pub latitude: u32,
    /// Longitude, single precision.
    pub longitude: u32,
    /// Elevation, single precision.
    pub elevation: u32,
    /// Speed, single precision.
    pub speed: u32,
    /// Heading, single precision.
    pub angle: u32,
    /// Quality of the position fix.
    pub fix: u16,
    /// The samples in the order the node sent them, double precision.
    pub data: Vec<u64>,
}

/// A measurement as contracts see it.
pub struct Reading {
    pub timestamp: Option<i64>,
    pub sample_rate: u32,
    pub flags: DataPointFlags,
    pub latitude: u32,
    pub longitude: u32,
    pub elevation: u32,
    pub speed: u32,
    pub angle: u32,
    pub fix: u16,
    pub data: Seq<u64>,
}

impl View for DataPoint {
    type V = Reading;

    open spec fn view(&self) -> Reading {
        Reading {
            timestamp: self.timestamp,
            sample_rate: self.sample_rate,
            flags: self.flags,
            latitude: self.latitude,
            longitude: self.longitude,
            elevation: self.elevation,
            speed: self.speed,
            angle: self.angle,
            fix: self.fix,
            data: self.data@,
        }
    }
}

/// The measurement with no timestamp, no samples, both flags down and every
/// other field zero.
pub open spec fn blank_reading() -> Reading {
    Reading {
        timestamp: None,
        sample_rate: 0,
        flags: DataPointFlags { has_gps_fix: false, is_clipping: false },
        latitude: 0,
        longitude: 0,
        elevation: 0,
        speed: 0,
        angle: 0,
        fix: 0,
        data: Seq::empty(),
    }
}

impl Default for DataPoint {
    fn default() -> (r: DataPoint)
        ensures
            r@ == blank_reading(),
    {
        DataPoint {
            timestamp: None,
            sample_rate: 0,
            flags: DataPointFlags::default(),
            latitude: 0,
            longitude: 0,
            elevation: 0,
            speed: 0,
            angle: 0,
            fix: 0,
            data: Vec::new(),
        }
    }
}

impl Clone for DataPoint {
    fn clone(&self) -> (r: DataPoint)
        ensures
            r@ == self@,
    {
        DataPoint {
            timestamp: self.timestamp,
            sample_rate: self.sample_rate,
            flags: self.flags,
            latitude: self.latitude,
            longitude: self.longitude,
            elevation: self.elevation,
            speed: self.speed,
            angle: self.angle,
            fix: self.fix,
            data: self.data.clone(),
        }
    }
}

/// A cached value as contracts see it: the reading, or nothing.
pub open spec fn value_view(v: Option<DataPoint>) -> Option<Reading> {
    match v {
        Some(p) => Some(p@),
        None => None,
    }
}

/// A copy of a cached value.
pub fn copy_value(v: &Option<DataPoint>) -> (r: Option<DataPoint>)
    ensures
        value_view(r) == value_view(*v),
{
    match v {
        Some(p) => Some(p.clone()),
        None => None,
    }
}

} // verus!

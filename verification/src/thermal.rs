//! Lowering the target frame rate while the CPU runs hot.
use vstd::prelude::*;

use crate::config_data::TemperatureThreshold;
use crate::text::{chars_of, contains, contains_exec, parse_u64, parse_u64_spec, trim, trim_exec};

verus! {

/// A thermal zone of this type measures the CPU cores.
pub open spec fn is_core_zone(device_type: Seq<char>) -> bool {
    contains(device_type, "cpu-"@) || contains(device_type, "soc_max"@) || contains(
        device_type,
        "mtktscpu"@,
    )
}

/// Whether a thermal zone of this type measures the CPU cores.
pub fn is_core_zone_type(device_type: &str) -> (r: bool)
    ensures
        r == is_core_zone(device_type@),
{
    let v = chars_of(device_type);
    contains_exec(&v, &chars_of("cpu-")) || contains_exec(&v, &chars_of("soc_max"))
        || contains_exec(&v, &chars_of("mtktscpu"))
}

/// The temperature a zone's text gives: its trimmed number, or 0.
pub open spec fn reading_value(text: Seq<char>) -> u64 {
    match parse_u64_spec(trim(text)) {
        Some(v) => v,
        None => 0,
    }
}

/// The highest temperature among the zones that could be read, from index `i` on.
pub open spec fn max_reading_from(rs: Seq<Option<Seq<char>>>, i: int) -> Option<u64>
    decreases rs.len() - i,
{
    if i < 0 || i >= rs.len() {
        None
    } else {
        let rest = max_reading_from(rs, i + 1);
        match rs[i] {
            Some(t) => match rest {
                Some(m) => Some(
                    if reading_value(t) >= m {
                        reading_value(t)
                    } else {
                        m
                    },
                ),
                None => Some(reading_value(t)),
            },
            None => rest,
        }
    }
}

/// The zones' readings, as plain values.
pub open spec fn readings_view(rs: Seq<Option<String>>) -> Seq<Option<Seq<char>>> {
    rs.map_values(
        |o: Option<String>|
            match o {
                Some(s) => Some(s@),
                None => None,
            },
    )
}

/// Thermal state: the accumulated frame-rate offset, in tenths of a frame per
/// second, and the last core temperature.
pub struct Thermal {
    target_fps_offset: i64,
    core_temperature: u64,
}

impl Thermal {
    /// The offset, in tenths of a frame per second.
    pub closed spec fn offset(&self) -> i64 {
        self.target_fps_offset
    }

    pub closed spec fn temperature(&self) -> u64 {
        self.core_temperature
    }

    /// No offset, no temperature read yet.
    pub fn new() -> (r: Self)
        ensures
            r.offset() == 0,
            r.temperature() == 0,
    {
        Thermal { target_fps_offset: 0, core_temperature: 0 }
    }

    /// Takes the highest of the zones' readings as the core temperature. A
    /// zone that could not be read is `None`; one whose text is no number
    /// reads 0. At least one zone must have been read.
    pub fn temperature_update(&mut self, readings: &Vec<Option<String>>)
        requires
            max_reading_from(readings_view(readings@), 0) is Some,
        ensures
            final(self).temperature() == max_reading_from(readings_view(readings@), 0).unwrap(),
            final(self).offset() == old(self).offset(),
    {
        let ghost g = readings_view(readings@);
        let mut best: Option<u64> = None;
        let mut i = readings.len();
        while i > 0
            invariant
                i <= readings@.len(),
                g == readings_view(readings@),
                best == max_reading_from(g, i as int),
            decreases i,
        {
            i -= 1;
            match &readings[i] {
                Some(t) => {
                    let v = match parse_u64(&trim_exec(&chars_of(t.as_str()))) {
                        Some(v) => v,
                        None => 0,
                    };
                    best = match best {
                        Some(m) => Some(
                            if v >= m {
                                v
                            } else {
                                m
                            },
                        ),
                        None => Some(v),
                    };
                },
                None => {},
            }
        }
        self.core_temperature = best.unwrap();
    }

    /// Steps the offset down a tenth while the core is above the threshold,
    /// else up a tenth; returns the new offset in tenths of a frame per second.
    pub fn target_fps_offset(&mut self, threshold: TemperatureThreshold) -> (r: i64)
        requires
            i64::MIN < old(self).offset() < i64::MAX,
        ensures
            r == final(self).offset(),
            final(self).temperature() == old(self).temperature(),
            final(self).offset() == if old(self).temperature() > match threshold {
                TemperatureThreshold::Disabled => u64::MAX,
                TemperatureThreshold::Temp(t) => t,
            } {
                old(self).offset() - 1
            } else {
                old(self).offset() + 1
            },
    {
        let limit = match threshold {
            TemperatureThreshold::Disabled => u64::MAX,
            TemperatureThreshold::Temp(t) => t,
        };
        if self.core_temperature > limit {
            self.target_fps_offset = self.target_fps_offset - 1;
        } else {
            self.target_fps_offset = self.target_fps_offset + 1;
        }
        self.target_fps_offset
    }
}

} // verus!

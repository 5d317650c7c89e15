//! Live-vehicle enrichment for one city's feed: matching position readings
//! to departures by trip. Fetching the readings is the surrounding
//! program's concern; the matching and the display decisions live here.

use vstd::prelude::*;

verus! {

/// Extra live information of one departure: whether the vehicle is air
/// conditioned, and its current delay in seconds.
#[derive(Clone, Copy, PartialEq, Eq, Structural, Debug)]
pub struct Additional {
    pub is_air_conditioned: Option<bool>,
    pub delay: Option<u64>,
}

impl Additional {
    /// The delay in whole minutes; shown only when over one minute.
    pub open spec fn spec_delay_minutes(self) -> Option<u64> {
        match self.delay {
            Some(d) => if d > 60 {
                Some(d / 60)
            } else {
                None
            },
            None => None,
        }
    }

    pub fn delay_minutes(&self) -> (r: Option<u64>)
        ensures
            r == self.spec_delay_minutes(),
    {
        match self.delay {
            Some(d) => if d > 60 {
                Some(d / 60)
            } else {
                None
            },
            None => None,
        }
    }

    /// Whether the air-conditioning mark is shown.
    pub fn shows_air_conditioning(&self) -> (r: bool)
        ensures
            r == (self.is_air_conditioned == Some(true)),
    {
        match self.is_air_conditioned {
            Some(ac) => ac,
            None => false,
        }
    }
}

/// One vehicle position reading, keyed by the trip it belongs to.
pub struct VehicleReading {
    pub trip_id: String,
    pub delay: Option<u64>,
    pub is_air_conditioned: Option<bool>,
}

/// The additional information of the first reading whose trip matches.
pub open spec fn spec_parse_record_details(
    readings: Seq<VehicleReading>,
    trip_id: Seq<char>,
) -> Option<Additional>
    decreases readings.len(),
{
    if readings.len() == 0 {
        None
    } else if readings[0].trip_id@ == trip_id {
        Some(
            Additional {
                is_air_conditioned: readings[0].is_air_conditioned,
                delay: readings[0].delay,
            },
        )
    } else {
        spec_parse_record_details(readings.drop_first(), trip_id)
    }
}

/// Digs the delay and air-conditioning details of one departure out of the
/// vehicle readings: the first reading of the departure's trip wins.
pub fn parse_record_details(trip_id: &String, readings: &Vec<VehicleReading>) -> (r: Option<
    Additional,
>)
    ensures
        r == spec_parse_record_details(readings@, trip_id@),
{
    let n = readings.len();
    let mut i: usize = 0;
    assert(readings@.skip(0) =~= readings@);
    while i < n
        invariant
            n == readings@.len(),
            i <= n,
            spec_parse_record_details(readings@.skip(i as int), trip_id@)
                == spec_parse_record_details(readings@, trip_id@),
        decreases n - i,
    {
        assert(readings@.skip(i as int)[0] == readings@[i as int]);
        let reading = &readings[i];
        if reading.trip_id == *trip_id {
            return Some(
                Additional {
                    is_air_conditioned: reading.is_air_conditioned,
                    delay: reading.delay,
                },
            );
        }
        assert(readings@.skip(i as int).drop_first() =~= readings@.skip(i as int + 1));
        i = i + 1;
    }
    assert(readings@.skip(n as int) =~= Seq::<VehicleReading>::empty());
    None
}

} // verus!

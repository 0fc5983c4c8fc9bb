use vstd::prelude::*;

use chrono::{Datelike, Timelike};

use crate::emulators::devices::mouse::{hi_byte, lo_byte};
use crate::emulators::uxn::device::{Device, DeviceAccess, MainRamInterface};

verus! {

/// A local date and time, taken apart into the numbers that the device reports.
#[derive(Debug, PartialEq, Eq, Clone, Copy)]
pub struct DateTimeFields {
    pub year: i32,
    /// Month, from 0 for January.
    pub month0: u32,
    /// Day of the month, from 1.
    pub day: u32,
    pub hour: u32,
    pub minute: u32,
    pub second: u32,
    /// Day of the week, from 0 for Sunday.
    pub weekday_from_sunday: u32,
    /// Day of the year, from 0 for the first of January.
    pub ordinal0: u32,
}

/// The ranges that the calendar gives each field.
pub open spec fn fields_in_range(f: DateTimeFields) -> bool {
    &&& f.month0 < 12
    &&& 1 <= f.day <= 31
    &&& f.hour < 24
    &&& f.minute < 60
    &&& f.second < 60
    &&& f.weekday_from_sunday < 7
    &&& f.ordinal0 < 366
}

/// The current local date and time, from `chrono::Local::now`. Claimed: each field lies in
/// the range that chrono's documentation gives for it (month 0 to 11, day 1 to 31, hour 0 to
/// 23, minute and second 0 to 59, weekday 0 to 6, day of the year 0 to 365). The values
/// themselves depend on the clock and are not stated.
#[verifier::external_body]
fn local_now() -> (r: DateTimeFields)
    ensures
        fields_in_range(r),
{
    let dt = chrono::Local::now();
    DateTimeFields {
        year: dt.year(),
        month0: dt.month0(),
        day: dt.day(),
        hour: dt.hour(),
        minute: dt.minute(),
        second: dt.second(),
        weekday_from_sunday: dt.weekday().num_days_from_sunday(),
        ordinal0: dt.ordinal0(),
    }
}

/// What the device reads at `port` for the time `f`: the year big endian, the month, day,
/// hour, minute, second and weekday, the day of the year big endian, and 0xff (unknown) for
/// daylight saving time.
pub open spec fn datetime_port_value(f: DateTimeFields, port: u8) -> u8 {
    if port == 0x0 {
        hi_byte(f.year as u16)
    } else if port == 0x1 {
        lo_byte(f.year as u16)
    } else if port == 0x2 {
        f.month0 as u8
    } else if port == 0x3 {
        f.day as u8
    } else if port == 0x4 {
        f.hour as u8
    } else if port == 0x5 {
        f.minute as u8
    } else if port == 0x6 {
        f.second as u8
    } else if port == 0x7 {
        f.weekday_from_sunday as u8
    } else if port == 0x8 {
        hi_byte(f.ordinal0 as u16)
    } else if port == 0x9 {
        lo_byte(f.ordinal0 as u16)
    } else if port == 0xa {
        0xff
    } else {
        0
    }
}

/// The byte that the device gives at `port` for the time `now`.
pub fn datetime_port(now: &DateTimeFields, port: u8) -> (r: u8)
    requires
        fields_in_range(*now),
    ensures
        r == datetime_port_value(*now, port),
{
    if port == 0x0 {
        ((now.year as u16) / 256) as u8
    } else if port == 0x1 {
        ((now.year as u16) % 256) as u8
    } else if port == 0x2 {
        now.month0 as u8
    } else if port == 0x3 {
        now.day as u8
    } else if port == 0x4 {
        now.hour as u8
    } else if port == 0x5 {
        now.minute as u8
    } else if port == 0x6 {
        now.second as u8
    } else if port == 0x7 {
        now.weekday_from_sunday as u8
    } else if port == 0x8 {
        ((now.ordinal0 as u16) / 256) as u8
    } else if port == 0x9 {
        ((now.ordinal0 as u16) % 256) as u8
    } else if port == 0xa {
        0xff
    } else {
        0
    }
}

/// The date and time device, which reads the local clock at each read, or always tells one
/// given date and time.
pub struct DateTimeDevice {
    fixed_time: Option<DateTimeFields>,
    access_log: Ghost<Seq<DeviceAccess>>,
}

impl DateTimeDevice {
    #[verifier::type_invariant]
    spec fn time_in_range(&self) -> bool {
        match self.fixed_time {
            Some(f) => fields_in_range(f),
            None => true,
        }
    }

    /// The date and time that the device always tells, if it was given one; `None` where it
    /// reads the local clock.
    pub closed spec fn fixed_time(&self) -> Option<DateTimeFields> {
        self.fixed_time
    }

    /// The device reading the local clock.
    pub fn new() -> (r: Self)
        ensures
            r.fixed_time() is None,
    {
        DateTimeDevice { fixed_time: None, access_log: Ghost(Seq::empty()) }
    }

    /// The device telling the date and time `now` at every read.
    pub fn at(now: DateTimeFields) -> (r: Self)
        requires
            fields_in_range(now),
        ensures
            r.fixed_time() == Some(now),
    {
        DateTimeDevice { fixed_time: Some(now), access_log: Ghost(Seq::empty()) }
    }
}

impl Device for DateTimeDevice {
    closed spec fn accesses(&self) -> Seq<DeviceAccess> {
        self.access_log@
    }

    fn write<M: MainRamInterface>(&mut self, port: u8, val: u8, main_ram: &mut M)
        ensures
            *final(main_ram) == *old(main_ram),
    {
        proof {
            use_type_invariant(&*self);
        }
        self.access_log = Ghost(self.access_log@.push(DeviceAccess::Write(port, val)));
    }

    fn read(&mut self, port: u8) -> (r: u8)
        ensures
            exists|f: DateTimeFields| fields_in_range(f) && r == datetime_port_value(f, port),
            old(self).fixed_time() matches Some(f) ==> r == datetime_port_value(f, port),
            final(self).fixed_time() == old(self).fixed_time(),
    {
        proof {
            use_type_invariant(&*self);
        }
        let now = match self.fixed_time {
            Some(f) => f,
            None => local_now(),
        };
        let r = datetime_port(&now, port);
        self.access_log = Ghost(self.access_log@.push(DeviceAccess::Read(port, r)));
        r
    }
}

} // verus!

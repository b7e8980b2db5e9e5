//! The message model: the three wire message shapes and the fixed-point
//! decimal type that carries their physical quantities.

use vstd::prelude::*;

verus! {

/// Largest magnitude, in ten-thousandths, that a well-formed `Fixed` may
/// carry. The bound leaves room to subtract any two well-formed values in
/// an `i64` without overflow.
pub const MAX_UNITS: i64 = 1_000_000_000_000_000_000;

/// Number of ten-thousandths in one whole unit.
pub const SCALE: i64 = 10_000;

/// A decimal quantity with four fractional digits, stored as a count of
/// ten-thousandths. The wire format writes physical quantities as plain
/// decimal numerals, so this type represents every value the protocol can
/// carry exactly.
#[derive(Clone, Copy, PartialEq, Eq, Structural, Debug)]
pub struct Fixed {
    /// The value times ten thousand.
    pub units: i64,
}

impl Fixed {
    /// A well-formed quantity is bounded so that sums and differences of
    /// two such quantities always fit in an `i64`.
    pub open spec fn wf(self) -> bool {
        -MAX_UNITS <= self.units <= MAX_UNITS
    }

    /// Builds the quantity holding `units` ten-thousandths.
    pub fn from_units(units: i64) -> (r: Fixed)
        ensures
            r.units == units,
    {
        Fixed { units }
    }

    /// The whole-number quantity `n`.
    pub fn from_int(n: i32) -> (r: Fixed)
        ensures
            r.units == n * SCALE,
            r.wf(),
    {
        Fixed { units: (n as i64) * SCALE }
    }

    /// Runtime test of `wf`.
    pub fn check_wf(&self) -> (b: bool)
        ensures
            b == self.wf(),
    {
        -MAX_UNITS <= self.units && self.units <= MAX_UNITS
    }

    /// The difference of two well-formed quantities, exact.
    pub fn sub(self, other: Fixed) -> (r: Fixed)
        requires
            self.wf(),
            other.wf(),
        ensures
            r.units == self.units - other.units,
    {
        Fixed { units: self.units - other.units }
    }
}

/// A positioning fix.
#[derive(Clone, PartialEq, Debug)]
pub struct Location {
    pub x: Fixed,
    pub y: Fixed,
    /// Elevation; may be absent on the wire.
    pub h: Option<Fixed>,
    /// Free-form classification of the fix; not a closed set at this layer.
    pub mode: String,
    pub update_rate: usize,
}

/// A 9-axis raw sensor sample.
#[derive(Clone, PartialEq, Debug)]
pub struct Raw {
    pub accel_x: Fixed,
    pub accel_y: Fixed,
    pub accel_z: Fixed,
    pub gyro_x: Fixed,
    pub gyro_y: Fixed,
    pub gyro_z: Fixed,
    pub mag_x: Fixed,
    pub mag_y: Fixed,
    pub mag_z: Fixed,
    pub sampling_rate: usize,
}

/// A free-text diagnostic with a string-keyed attribute bag.
#[derive(Clone, PartialEq, Debug)]
pub struct DebugMessage {
    pub body: String,
    /// Key/value attributes; keys are unique, order carries no meaning.
    pub data: Vec<(String, String)>,
}

/// One decoded wire record.
#[derive(Clone, PartialEq, Debug)]
pub enum Message {
    Location(Location),
    Raw(Raw),
    Message(DebugMessage),
}

/// A character that may stand inside a quoted string on the wire: anything
/// but the closing quote and the escape character, which the format does
/// not use.
pub open spec fn text_char(c: char) -> bool {
    c != '"' && c != '\\'
}

/// A string that can be written inside quotes on the wire.
pub open spec fn wf_text(s: Seq<char>) -> bool {
    forall|i: int| 0 <= i < s.len() ==> text_char(#[trigger] s[i])
}

/// The attribute list as a sequence of key/value character sequences.
pub open spec fn data_view(d: Seq<(String, String)>) -> Seq<(Seq<char>, Seq<char>)> {
    d.map_values(|p: (String, String)| (p.0@, p.1@))
}

/// The keys of an attribute list, in order.
pub open spec fn keys_of(d: Seq<(Seq<char>, Seq<char>)>) -> Seq<Seq<char>> {
    d.map_values(|p: (Seq<char>, Seq<char>)| p.0)
}

/// No two attributes share a key.
pub open spec fn unique_keys(d: Seq<(Seq<char>, Seq<char>)>) -> bool {
    forall|i: int, j: int| 0 <= i < j < d.len() ==> keys_of(d)[i] != keys_of(d)[j]
}

/// The mathematical content of a `Location`.
pub struct LocationV {
    pub x: Fixed,
    pub y: Fixed,
    pub h: Option<Fixed>,
    pub mode: Seq<char>,
    pub update_rate: usize,
}

/// The mathematical content of a `Raw`.
pub struct RawV {
    pub accel_x: Fixed,
    pub accel_y: Fixed,
    pub accel_z: Fixed,
    pub gyro_x: Fixed,
    pub gyro_y: Fixed,
    pub gyro_z: Fixed,
    pub mag_x: Fixed,
    pub mag_y: Fixed,
    pub mag_z: Fixed,
    pub sampling_rate: usize,
}

/// The mathematical content of a `DebugMessage`.
pub struct DebugMessageV {
    pub body: Seq<char>,
    pub data: Seq<(Seq<char>, Seq<char>)>,
}

/// The mathematical content of a `Message`.
pub enum MessageV {
    Location(LocationV),
    Raw(RawV),
    Message(DebugMessageV),
}

impl View for Location {
    type V = LocationV;

    open spec fn view(&self) -> LocationV {
        LocationV {
            x: self.x,
            y: self.y,
            h: self.h,
            mode: self.mode@,
            update_rate: self.update_rate,
        }
    }
}

impl View for Raw {
    type V = RawV;

    open spec fn view(&self) -> RawV {
        RawV {
            accel_x: self.accel_x,
            accel_y: self.accel_y,
            accel_z: self.accel_z,
            gyro_x: self.gyro_x,
            gyro_y: self.gyro_y,
            gyro_z: self.gyro_z,
            mag_x: self.mag_x,
            mag_y: self.mag_y,
            mag_z: self.mag_z,
            sampling_rate: self.sampling_rate,
        }
    }
}

impl View for DebugMessage {
    type V = DebugMessageV;

    open spec fn view(&self) -> DebugMessageV {
        DebugMessageV { body: self.body@, data: data_view(self.data@) }
    }
}

impl View for Message {
    type V = MessageV;

    open spec fn view(&self) -> MessageV {
        match self {
            Message::Location(l) => MessageV::Location(l@),
            Message::Raw(r) => MessageV::Raw(r@),
            Message::Message(d) => MessageV::Message(d@),
        }
    }
}

impl LocationV {
    pub open spec fn wf(self) -> bool {
        &&& self.x.wf()
        &&& self.y.wf()
        &&& (self.h matches Some(v) ==> v.wf())
        &&& wf_text(self.mode)
    }
}

impl RawV {
    pub open spec fn wf(self) -> bool {
        &&& self.accel_x.wf()
        &&& self.accel_y.wf()
        &&& self.accel_z.wf()
        &&& self.gyro_x.wf()
        &&& self.gyro_y.wf()
        &&& self.gyro_z.wf()
        &&& self.mag_x.wf()
        &&& self.mag_y.wf()
        &&& self.mag_z.wf()
    }
}

impl DebugMessageV {
    pub open spec fn wf(self) -> bool {
        &&& wf_text(self.body)
        &&& unique_keys(self.data)
        &&& forall|i: int|
            0 <= i < self.data.len() ==> wf_text(#[trigger] self.data[i].0) && wf_text(
                self.data[i].1,
            )
    }
}

impl MessageV {
    /// A message every one of whose quantities is bounded and every one of
    /// whose strings can be written on the wire.
    pub open spec fn wf(self) -> bool {
        match self {
            MessageV::Location(l) => l.wf(),
            MessageV::Raw(r) => r.wf(),
            MessageV::Message(d) => d.wf(),
        }
    }
}

impl Location {
    pub open spec fn wf(self) -> bool {
        self@.wf()
    }
}

impl Raw {
    pub open spec fn wf(self) -> bool {
        self@.wf()
    }
}

impl DebugMessage {
    pub open spec fn wf(self) -> bool {
        self@.wf()
    }
}

impl Message {
    pub open spec fn wf(self) -> bool {
        self@.wf()
    }

    /// The coordinates the processing loop subtracts are bounded; follows
    /// from `wf`, and is all the loop needs.
    pub open spec fn bounded(self) -> bool {
        match self {
            Message::Location(l) => l.x.wf() && l.y.wf(),
            _ => true,
        }
    }

    /// Runtime test of `bounded`.
    pub fn check_bounded(&self) -> (b: bool)
        ensures
            b == self.bounded(),
    {
        match self {
            Message::Location(l) => l.x.check_wf() && l.y.check_wf(),
            _ => true,
        }
    }
}

} // verus!

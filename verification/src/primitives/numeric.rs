//! Bounded numeric primitives.

use crate::decimal::{decimal, render_u128};
use crate::primitives::error::{PrimitiveError, PrimitiveResult};
use crate::primitives::size_text::{render_size, size_text};
use vstd::prelude::*;

verus! {

/// Percentage value from 0 to 100 inclusive.
#[derive(Debug, Copy, Clone, PartialEq, Eq, PartialOrd, Ord, Hash, Structural)]
pub struct Percent(u8);

impl View for Percent {
    type V = u8;

    closed spec fn view(&self) -> u8 {
        self.0
    }
}

/// The result of validating `value` as a percentage.
pub open spec fn percent_result(value: u8) -> Result<u8, PrimitiveError> {
    if value > 100 {
        Err(PrimitiveError::OutOfRange { min: 0, max: 100, actual: value as u128 })
    } else {
        Ok(value)
    }
}

impl Percent {
    /// Minimum allowed integer percentage.
    pub const MIN: u8 = 0;

    /// Maximum allowed integer percentage.
    pub const MAX: u8 = 100;

    #[verifier::type_invariant]
    spec fn wf(self) -> bool {
        self.0 <= 100
    }

    /// Creates a percentage; values above 100 are rejected with `OutOfRange`.
    pub fn new(value: u8) -> (r: PrimitiveResult<Percent>)
        ensures
            match (r, percent_result(value)) {
                (Ok(p), Ok(v)) => p@ == v,
                (Err(e), Err(f)) => e == f,
                _ => false,
            },
    {
        if value > Self::MAX {
            return Err(
                PrimitiveError::OutOfRange {
                    min: Self::MIN as u128,
                    max: Self::MAX as u128,
                    actual: value as u128,
                },
            );
        }
        Ok(Percent(value))
    }

    /// Returns the integer percentage value.
    pub fn get(self) -> (v: u8)
        ensures
            v == self@,
            v <= 100,
    {
        proof {
            use_type_invariant(&self);
        }
        self.0
    }

    /// Renders the percentage followed by `%`.
    pub fn to_string(&self) -> (s: String)
        ensures
            s@ == decimal(self@ as nat) + "%"@,
    {
        let mut s = render_u128(self.0 as u128);
        s.append("%");
        s
    }
}

impl TryFrom<u8> for Percent {
    type Error = PrimitiveError;

    fn try_from(value: u8) -> (r: Result<Percent, PrimitiveError>) {
        Percent::new(value)
    }
}

impl vstd::std_specs::convert::TryFromSpecImpl<u8> for Percent {
    open spec fn obeys_try_from_spec() -> bool {
        true
    }

    closed spec fn try_from_spec(v: u8) -> Result<Percent, PrimitiveError> {
        match percent_result(v) {
            Ok(x) => Ok(Percent(x)),
            Err(e) => Err(e),
        }
    }
}

impl From<Percent> for u8 {
    fn from(value: Percent) -> (r: u8) {
        value.get()
    }
}

impl vstd::std_specs::convert::FromSpecImpl<Percent> for u8 {
    open spec fn obeys_from_spec() -> bool {
        true
    }

    open spec fn from_spec(v: Percent) -> u8 {
        v@
    }
}


/// TCP/UDP port number from 1 to 65535 inclusive.
#[derive(Debug, Copy, Clone, PartialEq, Eq, PartialOrd, Ord, Hash, Structural)]
pub struct Port(u16);

impl View for Port {
    type V = u16;

    closed spec fn view(&self) -> u16 {
        self.0
    }
}

/// The result of validating `value` as a port.
pub open spec fn port_result(value: u16) -> Result<u16, PrimitiveError> {
    if value < 1 {
        Err(PrimitiveError::OutOfRange { min: 1, max: 65535, actual: value as u128 })
    } else {
        Ok(value)
    }
}

impl Port {
    /// Minimum allowed TCP/UDP port.
    pub const MIN: u16 = 1;

    /// Maximum allowed TCP/UDP port.
    pub const MAX: u16 = 65535;

    #[verifier::type_invariant]
    spec fn wf(self) -> bool {
        self.0 >= 1
    }

    /// Creates a port; `0` is rejected with `OutOfRange`.
    pub fn new(value: u16) -> (r: PrimitiveResult<Port>)
        ensures
            match (r, port_result(value)) {
                (Ok(p), Ok(v)) => p@ == v,
                (Err(e), Err(f)) => e == f,
                _ => false,
            },
    {
        if value < Self::MIN {
            return Err(
                PrimitiveError::OutOfRange {
                    min: Self::MIN as u128,
                    max: Self::MAX as u128,
                    actual: value as u128,
                },
            );
        }
        Ok(Port(value))
    }

    /// Returns the port number.
    pub fn get(self) -> (v: u16)
        ensures
            v == self@,
            v >= 1,
    {
        proof {
            use_type_invariant(&self);
        }
        self.0
    }

    /// Renders the port number in decimal.
    pub fn to_string(&self) -> (s: String)
        ensures
            s@ == decimal(self@ as nat),
    {
        render_u128(self.0 as u128)
    }
}

impl TryFrom<u16> for Port {
    type Error = PrimitiveError;

    fn try_from(value: u16) -> (r: Result<Port, PrimitiveError>) {
        Port::new(value)
    }
}

impl vstd::std_specs::convert::TryFromSpecImpl<u16> for Port {
    open spec fn obeys_try_from_spec() -> bool {
        true
    }

    closed spec fn try_from_spec(v: u16) -> Result<Port, PrimitiveError> {
        match port_result(v) {
            Ok(x) => Ok(Port(x)),
            Err(e) => Err(e),
        }
    }
}

impl From<Port> for u16 {
    fn from(value: Port) -> (r: u16) {
        value.get()
    }
}

impl vstd::std_specs::convert::FromSpecImpl<Port> for u16 {
    open spec fn obeys_from_spec() -> bool {
        true
    }

    open spec fn from_spec(v: Port) -> u16 {
        v@
    }
}

/// `value * unit`, or `u64::MAX` when the product does not fit.
pub open spec fn saturating_scale(value: nat, unit: nat) -> nat {
    if value * unit <= u64::MAX {
        value * unit
    } else {
        u64::MAX as nat
    }
}

fn scale(value: u64, unit: u64) -> (r: u64)
    ensures
        r == saturating_scale(value as nat, unit as nat),
{
    match value.checked_mul(unit) {
        Some(v) => v,
        None => u64::MAX,
    }
}

/// A size in bytes.
#[derive(Debug, Copy, Clone, PartialEq, Eq, PartialOrd, Ord, Hash, Structural)]
pub struct ByteSize(u64);

impl View for ByteSize {
    type V = u64;

    closed spec fn view(&self) -> u64 {
        self.0
    }
}

impl ByteSize {
    /// Creates a size from bytes.
    pub fn from_bytes(bytes: u64) -> (b: ByteSize)
        ensures
            b@ == bytes,
    {
        ByteSize(bytes)
    }

    /// Creates a size from kibibytes, saturating at `u64::MAX`.
    pub fn from_kb(kb: u64) -> (b: ByteSize)
        ensures
            b@ == saturating_scale(kb as nat, 1024),
    {
        ByteSize(scale(kb, 1024))
    }

    /// Creates a size from mebibytes, saturating at `u64::MAX`.
    pub fn from_mb(mb: u64) -> (b: ByteSize)
        ensures
            b@ == saturating_scale(mb as nat, 1024 * 1024),
    {
        ByteSize(scale(mb, 1024 * 1024))
    }

    /// Creates a size from gibibytes, saturating at `u64::MAX`.
    pub fn from_gb(gb: u64) -> (b: ByteSize)
        ensures
            b@ == saturating_scale(gb as nat, 1024 * 1024 * 1024),
    {
        ByteSize(scale(gb, 1024 * 1024 * 1024))
    }

    /// Returns the size in bytes.
    pub fn as_bytes(self) -> (v: u64)
        ensures
            v == self@,
    {
        self.0
    }

    /// Renders the size: `N B` below 1 KB, else two decimals of the largest
    /// of KB, MB and GB (powers of 1024) it reaches, as `{:.2}` prints the
    /// quotient of the nearest `f64`.
    pub fn to_string(&self) -> (s: String)
        ensures
            s@ == size_text(self@ as nat),
    {
        render_size(self.0)
    }
}

impl From<u64> for ByteSize {
    fn from(value: u64) -> (r: ByteSize) {
        ByteSize::from_bytes(value)
    }
}

impl vstd::std_specs::convert::FromSpecImpl<u64> for ByteSize {
    open spec fn obeys_from_spec() -> bool {
        true
    }

    closed spec fn from_spec(v: u64) -> ByteSize {
        ByteSize(v)
    }
}

impl From<ByteSize> for u64 {
    fn from(value: ByteSize) -> (r: u64) {
        value.as_bytes()
    }
}

impl vstd::std_specs::convert::FromSpecImpl<ByteSize> for u64 {
    open spec fn obeys_from_spec() -> bool {
        true
    }

    open spec fn from_spec(v: ByteSize) -> u64 {
        v@
    }
}

/// Integer value strictly greater than zero.
#[derive(Debug, Copy, Clone, PartialEq, Eq, PartialOrd, Ord, Hash, Structural)]
pub struct PositiveInt(u64);

impl View for PositiveInt {
    type V = u64;

    closed spec fn view(&self) -> u64 {
        self.0
    }
}

/// The result of validating `value` as a positive integer.
pub open spec fn positive_result(value: u64) -> Result<u64, PrimitiveError> {
    if value == 0 {
        Err(PrimitiveError::OutOfRange { min: 1, max: u64::MAX as u128, actual: 0 })
    } else {
        Ok(value)
    }
}

impl PositiveInt {
    #[verifier::type_invariant]
    spec fn wf(self) -> bool {
        self.0 > 0
    }

    /// Creates a positive integer; `0` is rejected with `OutOfRange`.
    pub fn new(value: u64) -> (r: PrimitiveResult<PositiveInt>)
        ensures
            match (r, positive_result(value)) {
                (Ok(p), Ok(v)) => p@ == v,
                (Err(e), Err(f)) => e == f,
                _ => false,
            },
    {
        if value == 0 {
            return Err(PrimitiveError::OutOfRange { min: 1, max: u64::MAX as u128, actual: 0 });
        }
        Ok(PositiveInt(value))
    }

    /// Returns the positive integer value.
    pub fn get(self) -> (v: u64)
        ensures
            v == self@,
            v > 0,
    {
        proof {
            use_type_invariant(&self);
        }
        self.0
    }

    /// Renders the value in decimal.
    pub fn to_string(&self) -> (s: String)
        ensures
            s@ == decimal(self@ as nat),
    {
        render_u128(self.0 as u128)
    }
}

impl TryFrom<u64> for PositiveInt {
    type Error = PrimitiveError;

    fn try_from(value: u64) -> (r: Result<PositiveInt, PrimitiveError>) {
        PositiveInt::new(value)
    }
}

impl vstd::std_specs::convert::TryFromSpecImpl<u64> for PositiveInt {
    open spec fn obeys_try_from_spec() -> bool {
        true
    }

    closed spec fn try_from_spec(v: u64) -> Result<PositiveInt, PrimitiveError> {
        match positive_result(v) {
            Ok(x) => Ok(PositiveInt(x)),
            Err(e) => Err(e),
        }
    }
}

impl From<PositiveInt> for u64 {
    fn from(value: PositiveInt) -> (r: u64) {
        value.get()
    }
}

impl vstd::std_specs::convert::FromSpecImpl<PositiveInt> for u64 {
    open spec fn obeys_from_spec() -> bool {
        true
    }

    open spec fn from_spec(v: PositiveInt) -> u64 {
        v@
    }
}

} // verus!

//! Identifiers and the records that the state store keeps.

use vstd::prelude::*;
use crate::text::{decimal, decimal_string, is_u64_numeral, numeral_value, parse_decimal};

verus! {

/// Largest value of the store's signed 64-bit integer.
pub const STORED_MAX: i64 = 9223372036854775807;

/// A platform identifier (guild, channel, role, user), unsigned 64-bit.
#[derive(Clone, Copy, Debug, Default, PartialEq, Eq, Structural)]
pub struct Id(pub u64);

/// An identifier that may be unset, as an optional column of the store.
#[derive(Clone, Copy, Debug, Default, PartialEq, Eq, Structural)]
pub struct ForeignId(pub Option<u64>);

/// A lease row: marks a voice channel as claimed by some worker.
#[derive(Clone, Copy, Debug, PartialEq, Eq, Structural)]
pub struct Channel {
    pub discord_id: Id,
}

/// A registered guild and the settings record that belongs to it.
#[derive(Clone, Copy, Debug, PartialEq, Eq, Structural)]
pub struct Guild {
    pub discord_id: Id,
    pub settings_id: u64,
}

/// A guild's configuration; every reference starts unset.
#[derive(Clone, Copy, Debug, PartialEq, Eq, Structural)]
pub struct Setting {
    pub id: u64,
    pub log_channel_id: ForeignId,
    pub moderation_channel_id: ForeignId,
    pub music_order_channel_id: ForeignId,
    pub music_log_channel_id: ForeignId,
    pub member_role_id: ForeignId,
}

/// A member of a guild who still has to send the naming command.
#[derive(Clone, Copy, Debug, PartialEq, Eq, Structural)]
pub struct UnregisteredMember {
    pub discord_id: Id,
    pub guild_id: Id,
}

/// A stored integer that lies outside the range of identifiers.
#[derive(Clone, Copy, Debug, PartialEq, Eq, Structural)]
pub struct IdRangeError;

/// The signed storage form of an unsigned identifier: the same 64 bits.
pub open spec fn stored_form(v: u64) -> int {
    if v <= STORED_MAX {
        v as int
    } else {
        v - 0x1_0000_0000_0000_0000
    }
}

impl Id {
    /// Reads an identifier out of a signed column; negative values are
    /// no identifier.
    pub fn try_from(value: i64) -> (r: Result<Id, IdRangeError>)
        ensures
            value >= 0 ==> r == Ok::<Id, IdRangeError>(Id(value as u64)),
            value < 0 ==> r == Err::<Id, IdRangeError>(IdRangeError),
    {
        if value >= 0 {
            Ok(Id(value as u64))
        } else {
            Err(IdRangeError)
        }
    }

    /// The identifier in the store's signed format, bit for bit.
    pub fn to_stored(&self) -> (r: i64)
        ensures
            r as int == stored_form(self.0),
    {
        if self.0 <= STORED_MAX as u64 {
            self.0 as i64
        } else {
            let high: u64 = self.0 - 9223372036854775808u64;
            (high as i64) - STORED_MAX - 1
        }
    }

    /// Reads back an identifier written by `to_stored`.
    pub fn from_stored(value: i64) -> (r: Id)
        ensures
            stored_form(r.0) == value as int,
    {
        if value >= 0 {
            Id(value as u64)
        } else {
            let high: i64 = value + STORED_MAX + 1;
            Id(high as u64 + 9223372036854775808u64)
        }
    }
}

/// The storage form lies in the signed range and is injective: reading
/// back what `to_stored` wrote with `from_stored` gives the identifier
/// that was written.
pub proof fn lemma_stored_round_trip(a: u64, b: u64)
    ensures
        i64::MIN <= stored_form(a) <= i64::MAX,
        stored_form(a) == stored_form(b) ==> a == b,
{
}

impl Id {
    /// The identifier as a decimal numeral.
    pub fn to_string(&self) -> (r: String)
        ensures
            r@ == decimal(self.0 as nat),
    {
        decimal_string(self.0)
    }

    /// Reads an identifier written as a decimal numeral.
    pub fn from_str(s: &str) -> (r: Option<Id>)
        ensures
            r is Some <==> is_u64_numeral(s@),
            r is Some ==> (r->0).0 as nat == numeral_value(s@),
    {
        match parse_decimal(s) {
            Some(v) => Some(Id(v)),
            None => None,
        }
    }
}

impl ForeignId {
    /// Reads an optional identifier out of a nullable signed column.
    pub fn try_from(value: Option<i64>) -> (r: Result<ForeignId, IdRangeError>)
        ensures
            value is None ==> r == Ok::<ForeignId, IdRangeError>(ForeignId(None)),
            value is Some && value->0 >= 0 ==> r == Ok::<ForeignId, IdRangeError>(
                ForeignId(Some(value->0 as u64)),
            ),
            value is Some && value->0 < 0 ==> r == Err::<ForeignId, IdRangeError>(IdRangeError),
    {
        match value {
            Some(v) => match Id::try_from(v) {
                Ok(id) => Ok(ForeignId(Some(id.0))),
                Err(e) => Err(e),
            },
            None => Ok(ForeignId(None)),
        }
    }

    /// Whether the reference is set to exactly `id`.
    pub fn is(&self, id: Id) -> (r: bool)
        ensures
            r == (self.0 == Some(id.0)),
    {
        match self.0 {
            Some(v) => v == id.0,
            None => false,
        }
    }
}

} // verus!

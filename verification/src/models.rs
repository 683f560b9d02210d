//! The six resource kinds and their client-supplied payloads.
//!
//! A payload holds every field a client writes; the server wraps it in a
//! `Row` to add the identifier and the timestamps.  Identifiers of other
//! records (a role, an owner, a property, a machine) are carried as opaque
//! 128-bit values and accepted without an existence check; points in time
//! (a reservation's start and end, a machine's eta) are carried as plain
//! seconds, as the clock module counts them.

use crate::table::Row;
use vstd::prelude::*;

verus! {

/// Client fields of a role: just its name.
#[derive(Clone, Debug)]
pub struct RolePayload {
    pub name: String,
}

/// Client fields of a user: a name, the role it holds, and optionally the
/// property it lives at.
#[derive(Clone, Debug)]
pub struct UserPayload {
    pub name: String,
    pub role: u128,
    pub property: Option<u128>,
}

/// Client fields of a property: name, postal address and owning user.
#[derive(Clone, Debug)]
pub struct PropertyPayload {
    pub name: String,
    pub address: String,
    pub address2: Option<String>,
    pub city: String,
    pub zip: String,
    pub owner: u128,
}

/// Client fields of a machine: a name, the property it stands at, a free-form
/// status and the moment it is expected to be available.
#[derive(Clone, Debug)]
pub struct MachinePayload {
    pub name: String,
    pub property: u128,
    pub status: String,
    pub eta: i64,
}

/// Client fields of a reservation: who books which machine, from when to
/// when, and whether the slot may be shared.
#[derive(Clone, Copy, Debug)]
pub struct ReservationPayload {
    pub owner: u128,
    pub machine: u128,
    pub start_time: i64,
    pub end_time: i64,
    pub shared: Option<bool>,
}

/// Client fields of an item: name, size, colours and owning user.
#[derive(Clone, Debug)]
pub struct ItemPayload {
    pub name: String,
    pub size: String,
    pub colors: String,
    pub owner: u128,
}

/// A stored role.
pub type Role = Row<RolePayload>;

/// A stored user.
pub type User = Row<UserPayload>;

/// A stored property.
pub type Property = Row<PropertyPayload>;

/// A stored machine.
pub type Machine = Row<MachinePayload>;

/// A stored reservation.
pub type Reservation = Row<ReservationPayload>;

/// A stored item.
pub type Item = Row<ItemPayload>;

} // verus!

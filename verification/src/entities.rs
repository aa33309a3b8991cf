//! The optional-value component's data: a person who may or may not own a
//! vehicle. Absence of a vehicle is a normal, expected state, modelled as
//! `Option` and never as a sentinel or a failure.

use vstd::prelude::*;

verus! {

/// A vehicle, identified by its brand and model year. Immutable once built.
#[derive(Debug)]
pub struct Vehicle {
    pub brand: String,
    pub year: u16,
}

/// A person who exclusively owns at most one vehicle. The `vehicle` field is
/// either fully populated or absent, never partially built.
#[derive(Debug)]
pub struct Person {
    pub name: String,
    pub age: u8,
    pub vehicle: Option<Vehicle>,
}

/// The demonstration person without a vehicle: inspecting the result always
/// finds the vehicle absent, never a default or partial one.
pub fn without_car() -> (r: Person)
    ensures
        r.name@ == "Brad"@,
        r.age == 99,
        r.vehicle is None,
{
    Person { age: 99, name: "Brad".to_string(), vehicle: None }
}

/// The demonstration person with a vehicle, populated with fixed values.
pub fn with_car() -> (r: Person)
    ensures
        r.name@ == "Brad"@,
        r.age == 99,
        (r.vehicle matches Some(v) && v.brand@ == "bmw"@ && v.year == 2024),
{
    Person {
        age: 99,
        name: "Brad".to_string(),
        vehicle: Some(Vehicle { brand: "bmw".to_string(), year: 2024 }),
    }
}

} // verus!

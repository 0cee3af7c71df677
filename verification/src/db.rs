use vstd::prelude::*;

verus! {

/// A write to the parking-record database.
#[derive(Debug)]
pub enum DBMessage {
    InsertCar(InsertCarData),
    UpdateCar(UpdateCarData),
}

/// The record of a car entering the parking lot.
#[derive(Debug)]
pub struct InsertCarData {
    pub license_plate: String,
    pub entry_time: i64,
}

/// The record of a car leaving the parking lot.
#[derive(Debug)]
pub struct UpdateCarData {
    pub license_plate: String,
    pub exit_time: i64,
    pub is_paid: bool,
    pub discount_applied: String,
}

} // verus!

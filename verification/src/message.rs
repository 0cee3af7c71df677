use vstd::prelude::*;

verus! {

/// A licence-plate recognition request from a parking barrier: its id, the
/// time of the request and the camera image encoded in base64.
#[derive(Debug)]
pub struct OcrSub {
    pub gate_id: i32,
    pub timestamp: i64,
    pub img: String,
}

/// A request for the parking fee of a car.
#[derive(Debug)]
pub struct FeeInfoSub {
    pub license_plate: String,
}

/// A request received on one of the subscribed topics.
#[derive(Debug)]
pub enum SubMessage {
    OcrRequest(OcrSub),
    FeeInfoRequest(FeeInfoSub),
}

/// The recognition request that a received request carries, if it is one;
/// a fee request carries none.
pub fn ocr_request(req: SubMessage) -> (r: Option<OcrSub>)
    ensures
        match req {
            SubMessage::OcrRequest(o) => r == Some(o),
            SubMessage::FeeInfoRequest(_) => r is None,
        },
{
    match req {
        SubMessage::OcrRequest(o) => Some(o),
        SubMessage::FeeInfoRequest(_) => None,
    }
}

/// The settlement of a parked car, published in answer to a fee request.
#[derive(Debug)]
pub struct FeeInfoPub {
    pub license_plate: String,
    pub entry_time: i64,
    pub exit_time: i64,
    pub fee: u64,
    pub is_paid: bool,
    pub discount_applied: String,
}

impl Default for FeeInfoPub {
    /// Empty strings, zero times and fee, not paid.
    fn default() -> (r: Self)
        ensures
            r.license_plate@ == Seq::<char>::empty(),
            r.entry_time == 0,
            r.exit_time == 0,
            r.fee == 0,
            !r.is_paid,
            r.discount_applied@ == Seq::<char>::empty(),
    {
        FeeInfoPub {
            license_plate: String::new(),
            entry_time: 0,
            exit_time: 0,
            fee: 0,
            is_paid: false,
            discount_applied: String::new(),
        }
    }
}

} // verus!

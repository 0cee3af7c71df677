use parking_gate::car::{
    add_car, add_car_at, calculate_parking_fee, calculate_parking_fee_at, CarInfo, CarRegistry,
    unix_timestamp_from_secs, EntryError, FeeError,
};
use parking_gate::db::{DBMessage, InsertCarData, UpdateCarData};
use parking_gate::message::{ocr_request, FeeInfoPub, FeeInfoSub, OcrSub, SubMessage};
use parking_gate::mqtt::{entry_car_data, init_mqtt_clinet, request_kind, RequestKind};
use parking_gate::ocr::{decode_ocr_image, ocr_plate_text, OcrError};

#[test]
fn calc_fee_test() {
    let car_plate = "123가7890".to_string();
    let mut registry = CarRegistry::new();
    let entry = 1_700_000_000i64;
    assert!(add_car_at(&mut registry, car_plate.clone(), entry).is_ok());
    let info = calculate_parking_fee_at(&mut registry, car_plate.clone(), entry + 70).unwrap();
    assert_eq!(info.license_plate, car_plate);
    assert_eq!(info.entry_time, entry);
    assert_eq!(info.exit_time, entry + 70);
    assert_eq!(info.fee, 3500);
    assert!(!info.is_paid);
    assert_eq!(info.discount_applied, "NONE");
    assert!(registry.get(&car_plate).is_none());
}

#[test]
fn settled_car_is_forgotten() {
    let mut registry = CarRegistry::new();
    add_car_at(&mut registry, "A".to_string(), 100).unwrap();
    add_car_at(&mut registry, "B".to_string(), 200).unwrap();
    calculate_parking_fee_at(&mut registry, "A".to_string(), 160).unwrap();
    assert!(registry.get(&"A".to_string()).is_none());
    let err = calculate_parking_fee_at(&mut registry, "A".to_string(), 170).unwrap_err();
    assert!(matches!(err, FeeError::CarNotFound(_)));
    assert_eq!(registry.get(&"B".to_string()).unwrap().enter_time, Some(200));
}

#[test]
fn registry_remove() {
    let mut registry = CarRegistry::new();
    registry.insert("A".to_string(), CarInfo { enter_time: Some(1), exit_time: None });
    registry.insert("B".to_string(), CarInfo { enter_time: Some(2), exit_time: None });
    assert_eq!(registry.remove(&"A".to_string()).unwrap().enter_time, Some(1));
    assert!(registry.remove(&"A".to_string()).is_none());
    assert!(registry.get(&"A".to_string()).is_none());
    assert_eq!(registry.get(&"B".to_string()).unwrap().enter_time, Some(2));
}

#[test]
fn entry_time_is_shown_in_kst() {
    let mut registry = CarRegistry::new();
    let text = add_car_at(&mut registry, "12가3456".to_string(), 0).unwrap();
    assert_eq!(text, "1970년 01월 01일 09:00");
    let text = add_car_at(&mut registry, "12가3456".to_string(), 1_700_000_000).unwrap();
    assert_eq!(text, "2023년 11월 15일 07:13");
}

#[test]
fn entry_time_out_of_range_records_nothing() {
    let mut registry = CarRegistry::new();
    assert_eq!(
        add_car_at(&mut registry, "12가3456".to_string(), i64::MAX),
        Err(EntryError::TimeNotShown)
    );
    assert!(registry.get(&"12가3456".to_string()).is_none());
}

#[test]
fn add_car_now_then_settle_now() {
    let mut registry = CarRegistry::new();
    let plate = "55나1234".to_string();
    assert!(add_car(&mut registry, plate.clone()).is_ok());
    let recorded = registry.get(&plate).unwrap();
    let entry = recorded.enter_time.unwrap();
    assert!(recorded.exit_time.is_none());
    let info = calculate_parking_fee(&mut registry, plate.clone()).unwrap();
    assert_eq!(info.entry_time, entry);
    assert!(info.exit_time >= entry);
    assert_eq!(info.fee, ((info.exit_time - entry) * 50) as u64);
    assert_eq!(info.license_plate, plate);
    assert!(registry.get(&plate).is_none());
}

#[test]
fn unknown_car_is_not_found() {
    let mut registry = CarRegistry::new();
    let err = calculate_parking_fee(&mut registry, "00가0000".to_string()).unwrap_err();
    assert!(matches!(&err, FeeError::CarNotFound(p) if p == "00가0000"));
    assert_eq!(err.message(), "fail to get value by key [00가0000]");
    let err = calculate_parking_fee_at(&mut registry, "00가0000".to_string(), 10).unwrap_err();
    assert!(matches!(err, FeeError::CarNotFound(_)));
}

#[test]
fn car_without_entry_time_cannot_be_settled() {
    let mut registry = CarRegistry::new();
    registry.insert("11다1111".to_string(), CarInfo::default());
    let err = calculate_parking_fee_at(&mut registry, "11다1111".to_string(), 10).unwrap_err();
    assert!(matches!(&err, FeeError::NoEntryTime(p) if p == "11다1111"));
    assert_eq!(err.message(), "there is no enter time car [11다1111]");
    let err = calculate_parking_fee(&mut registry, "11다1111".to_string()).unwrap_err();
    assert!(matches!(err, FeeError::NoEntryTime(_)));
}

#[test]
fn fee_that_overflows_is_refused() {
    let mut registry = CarRegistry::new();
    registry.insert(
        "99라9999".to_string(),
        CarInfo { enter_time: Some(i64::MIN), exit_time: None },
    );
    let err = calculate_parking_fee(&mut registry, "99라9999".to_string()).unwrap_err();
    assert!(matches!(err, FeeError::FeeOverflow));
    assert_eq!(err.message(), "attempt to compute a parking fee with overflow");
    assert!(registry.get(&"99라9999".to_string()).is_some());
    let err = calculate_parking_fee_at(&mut registry, "99라9999".to_string(), i64::MAX).unwrap_err();
    assert!(matches!(err, FeeError::FeeOverflow));
    registry.insert("M".to_string(), CarInfo { enter_time: Some(0), exit_time: None });
    let err = calculate_parking_fee_at(&mut registry, "M".to_string(), i64::MAX / 50 + 1).unwrap_err();
    assert!(matches!(err, FeeError::FeeOverflow));
    let info = calculate_parking_fee_at(&mut registry, "M".to_string(), i64::MAX / 50).unwrap();
    assert_eq!(info.fee, (i64::MAX / 50 * 50) as u64);
    assert_eq!(FeeError::ClockUnavailable.message(), "system time before Unix epoch");
}

#[test]
fn backwards_stay_wraps_around() {
    let mut registry = CarRegistry::new();
    registry.insert("1".to_string(), CarInfo { enter_time: Some(100), exit_time: None });
    let info = calculate_parking_fee_at(&mut registry, "1".to_string(), 90).unwrap();
    assert_eq!(info.fee, (-500i64) as u64);
}

#[test]
fn latest_entry_wins() {
    let mut registry = CarRegistry::new();
    add_car_at(&mut registry, "A".to_string(), 1000).unwrap();
    add_car_at(&mut registry, "A".to_string(), 2000).unwrap();
    let info = calculate_parking_fee_at(&mut registry, "A".to_string(), 2010).unwrap();
    assert_eq!(info.entry_time, 2000);
    assert_eq!(info.fee, 500);
}

#[test]
fn other_car_unaffected() {
    let mut registry = CarRegistry::new();
    add_car_at(&mut registry, "A".to_string(), 1000).unwrap();
    add_car_at(&mut registry, "B".to_string(), 5000).unwrap();
    let info = calculate_parking_fee_at(&mut registry, "A".to_string(), 1001).unwrap();
    assert_eq!(info.entry_time, 1000);
    assert_eq!(info.fee, 50);
    let info = calculate_parking_fee_at(&mut registry, "B".to_string(), 5002).unwrap();
    assert_eq!(info.fee, 100);
}

#[test]
fn registry_get_and_insert() {
    let mut registry = CarRegistry::new();
    assert!(registry.get(&"A".to_string()).is_none());
    registry.insert("A".to_string(), CarInfo { enter_time: Some(1), exit_time: Some(2) });
    let got = registry.get(&"A".to_string()).unwrap();
    assert_eq!(got.enter_time, Some(1));
    assert_eq!(got.exit_time, Some(2));
    registry.insert("A".to_string(), CarInfo { enter_time: Some(3), exit_time: None });
    assert_eq!(registry.get(&"A".to_string()).unwrap().enter_time, Some(3));
    assert!(registry.get(&"B".to_string()).is_none());
}

#[test]
fn topic_routing() {
    assert_eq!(request_kind("parking/request/ocr"), Some(RequestKind::Ocr));
    assert_eq!(request_kind("parking/request/feeInfo"), Some(RequestKind::FeeInfo));
    assert_eq!(request_kind("ocr"), Some(RequestKind::Ocr));
    assert_eq!(request_kind("parking/request/feeinfo"), None);
    assert_eq!(request_kind("parking/request/"), None);
    assert_eq!(request_kind("parking/ocr/x"), None);
    assert_eq!(request_kind(""), None);
}

#[test]
fn entry_record_only_for_entry_gate_success() {
    let plate = "12가3456\n".to_string();
    let data = entry_car_data(0, true, &plate, 1_700_000_000).unwrap();
    assert_eq!(data.license_plate, plate);
    assert_eq!(data.entry_time, 1_700_000_000);
    assert!(entry_car_data(0, false, &plate, 1).is_none());
    assert!(entry_car_data(1, true, &plate, 1).is_none());
    let data = entry_car_data(0, true, &plate, u64::MAX).unwrap();
    assert_eq!(data.entry_time, -1);
}

#[test]
fn image_is_decoded_from_base64() {
    let req = OcrSub { gate_id: 0, timestamp: 1, img: "aGVsbG8=".to_string() };
    assert_eq!(decode_ocr_image(&req).unwrap(), b"hello".to_vec());
    let bad = OcrSub { gate_id: 0, timestamp: 1, img: "!!!".to_string() };
    assert_eq!(decode_ocr_image(&bad), Err(OcrError::InvalidImage));
}

#[test]
fn plate_text_is_utf8_output() {
    let out = "12가3456\n".as_bytes().to_vec();
    assert_eq!(ocr_plate_text(out).unwrap(), "12가3456\n");
    assert_eq!(ocr_plate_text(vec![0xff, 0x00]), Err(OcrError::InvalidOutput));
}

#[test]
fn defaults() {
    let d = FeeInfoPub::default();
    assert_eq!(d.license_plate, "");
    assert_eq!(d.entry_time, 0);
    assert_eq!(d.exit_time, 0);
    assert_eq!(d.fee, 0);
    assert!(!d.is_paid);
    assert_eq!(d.discount_applied, "");
    let c = CarInfo::default();
    assert!(c.enter_time.is_none() && c.exit_time.is_none());
}

#[test]
fn message_types_carry_their_fields() {
    init_mqtt_clinet();
    let ocr = SubMessage::OcrRequest(OcrSub { gate_id: 2, timestamp: 7, img: "aGk=".to_string() });
    let got = ocr_request(ocr).unwrap();
    assert_eq!((got.gate_id, got.timestamp, got.img.as_str()), (2, 7, "aGk="));
    let sub = SubMessage::FeeInfoRequest(FeeInfoSub { license_plate: "A".to_string() });
    assert!(matches!(sub, SubMessage::FeeInfoRequest(ref f) if f.license_plate == "A"));
    let db = DBMessage::InsertCar(InsertCarData { license_plate: "A".to_string(), entry_time: 3 });
    assert!(matches!(db, DBMessage::InsertCar(ref d) if d.entry_time == 3));
    let up = DBMessage::UpdateCar(UpdateCarData {
        license_plate: "A".to_string(),
        exit_time: 4,
        is_paid: true,
        discount_applied: "NONE".to_string(),
    });
    assert!(matches!(up, DBMessage::UpdateCar(ref u) if u.is_paid));
}

#[test]
fn routing_ignores_topic_prefix() {
    assert_eq!(request_kind("a/b/c/ocr"), request_kind("ocr"));
    assert_eq!(request_kind("x/feeInfo"), request_kind("feeInfo"));
    assert_eq!(request_kind("parking/request/other"), request_kind("other"));
}

#[test]
fn fee_grows_with_stay() {
    let mut last = 0u64;
    for exit in [10i64, 11, 70, 3600, 86_400] {
        let mut registry = CarRegistry::new();
        registry.insert("A".to_string(), CarInfo { enter_time: Some(10), exit_time: None });
        let info = calculate_parking_fee_at(&mut registry, "A".to_string(), exit).unwrap();
        assert_eq!(info.fee, ((exit - 10) * 50) as u64);
        assert!(info.fee >= last);
        last = info.fee;
    }
}

#[test]
fn clock_seconds_become_timestamps() {
    assert_eq!(unix_timestamp_from_secs(0), Some(0));
    assert_eq!(unix_timestamp_from_secs(1_700_000_000), Some(1_700_000_000));
    assert_eq!(unix_timestamp_from_secs(i64::MAX as u64), Some(i64::MAX));
    assert_eq!(unix_timestamp_from_secs(i64::MAX as u64 + 1), None);
    assert_eq!(unix_timestamp_from_secs(u64::MAX), None);
}

use mouse_sensitivity::vendor::{
    candidate_order, hidpp_answer, hidpp_feature_index, hidpp_match, hidpp_request, hidpp_send_failed_text,
    hidpp_sensor_dpi, hidpp_timeout_text, razer_crc, razer_dpi_request, razer_parse_dpi, vendor_for,
    HidppCall, HidppReply, LogitechAction, LogitechQuery, OpenDecision, RazerAction, RazerEvent, RazerQuery,
    SensorDpi, SensorProbe, Vendor, VendorError, IO_RETURN_EXCLUSIVE_ACCESS, IO_RETURN_NOT_PERMITTED,
    IO_RETURN_SUCCESS, LOGITECH_SOURCE, RAZER_SOURCE, RAZER_STATUS_SUCCESS, VENDOR_LOGITECH, VENDOR_RAZER,
};

#[test]
fn razer_request_matches_openrazer_layout() {
    let r = razer_dpi_request(0xFF);
    assert_eq!(&r[..9], &[0x00, 0xFF, 0x00, 0x00, 0x00, 0x07, 0x04, 0x05, 0x01]);
    assert_eq!(r[88], razer_crc(&r));
    assert_eq!(r[89], 0);
    // CRC covers bytes 2..88 only, so the transaction id doesn't change it.
    assert_eq!(razer_dpi_request(0x1F)[88], r[88]);
}

#[test]
fn razer_response_parsing() {
    let mut resp = razer_dpi_request(0xFF);
    resp[0] = RAZER_STATUS_SUCCESS;
    resp[9] = 0x07; // 1800 = 0x0708
    resp[10] = 0x08;
    resp[11] = 0x07;
    resp[12] = 0x08;
    assert_eq!(razer_parse_dpi(&resp), Some((1800, 1800)));
    resp[6] = 0x03; // wrong command class
    assert_eq!(razer_parse_dpi(&resp), None);
}

#[test]
fn hidpp_request_layout() {
    let r = hidpp_request(0x00, 0, &[0x22, 0x01]);
    assert_eq!(&r[..6], &[0x11, 0xFF, 0x00, 0x0A, 0x22, 0x01]);
    let r = hidpp_request(0x09, 2, &[0x00]);
    assert_eq!(r[3], 0x2A);
}

#[test]
fn hidpp_matching_accepts_both_report_shapes_and_errors() {
    // With the report id prepended, from feature 9 function 2 (0x2A).
    let with_id = [0x11, 0xFF, 0x09, 0x2A, 0x00, 0x03, 0xE8, 0x03, 0xE8];
    assert_eq!(hidpp_match(&with_id, 0x09, 0x2A), HidppReply::Params(vec![0x00, 0x03, 0xE8, 0x03, 0xE8]));
    // Without the report id.
    assert_eq!(hidpp_match(&with_id[1..], 0x09, 0x2A), HidppReply::Params(vec![0x00, 0x03, 0xE8, 0x03, 0xE8]));
    // Another software id: not ours.
    let other = [0x11, 0xFF, 0x09, 0x21, 0x00];
    assert_eq!(hidpp_match(&other, 0x09, 0x2A), HidppReply::Unrelated);
    // HID++ 2.0 error for our request.
    let err = [0x11, 0xFF, 0xFF, 0x09, 0x09, 0x2A, 0x06];
    assert_eq!(hidpp_match(&err, 0x09, 0x2A), HidppReply::Error(0x06));
    // Ordinary mouse traffic.
    assert_eq!(hidpp_match(&[0x02, 0x00, 0x05, 0x00], 0x09, 0x2A), HidppReply::Unrelated);
}

#[test]
fn razer_checksum_is_the_xor_of_the_body() {
    let r = razer_dpi_request(0x3F);
    // 0x07 ^ 0x04 ^ 0x05 ^ 0x01
    assert_eq!(r[88], 0x07);
    assert_eq!(r[1], 0x3F);
    let mut other = r;
    other[40] = 0xF0;
    assert_eq!(razer_crc(&other), 0xF7);
}

#[test]
fn razer_zero_y_means_same_as_x_and_zero_x_is_rejected() {
    let mut resp = razer_dpi_request(0xFF);
    resp[9] = 0x03;
    resp[10] = 0xE8; // 1000
    assert_eq!(razer_parse_dpi(&resp), Some((1000, 1000)));
    resp[11] = 0x01;
    resp[12] = 0x90; // 400
    assert_eq!(razer_parse_dpi(&resp), Some((1000, 400)));
    resp[9] = 0;
    resp[10] = 0;
    assert_eq!(razer_parse_dpi(&resp), None);
}

#[test]
fn hidpp_params_are_cut_at_sixteen() {
    let params: Vec<u8> = (1..=20).collect();
    let r = hidpp_request(0x05, 0x13, &params);
    assert_eq!(r[3], 0x3A);
    assert_eq!(&r[4..20], &params[..16]);
}

#[test]
fn hidpp1_errors_and_short_reports() {
    let err = [0x10, 0xFF, 0x8F, 0x00, 0x09, 0x2A, 0x05];
    assert_eq!(hidpp_match(&err, 0x09, 0x2A), HidppReply::Error(0x05));
    assert_eq!(hidpp_match(&[0x11, 0xFF, 0x09], 0x09, 0x2A), HidppReply::Unrelated);
}

fn razer_answer(status: u8, x: u16, y: u16) -> [u8; 90] {
    let mut resp = razer_dpi_request(0xFF);
    resp[0] = status;
    resp[9..11].copy_from_slice(&x.to_be_bytes());
    resp[11..13].copy_from_slice(&y.to_be_bytes());
    resp
}

fn sent_transaction_id(a: &RazerAction) -> (u8, u64) {
    match a {
        RazerAction::Send { request, delay_ms } => (request[1], *delay_ms),
        RazerAction::Finished(_) => panic!("expected a request"),
    }
}

#[test]
fn razer_query_reads_the_dpi() {
    let (mut q, a) = RazerQuery::start();
    assert_eq!(sent_transaction_id(&a), (0xFF, 30));
    match q.step(RazerEvent::Answer(razer_answer(0x02, 1800, 0))) {
        RazerAction::Finished(Ok(d)) => {
            assert_eq!(d, SensorDpi { dpi_x: 1800, dpi_y: 1800, default_dpi: None, source: RAZER_SOURCE })
        }
        _ => panic!("expected a reading"),
    }
}

#[test]
fn razer_query_retries_busy_then_moves_to_the_next_transaction_id() {
    let (mut q, _) = RazerQuery::start();
    let a = q.step(RazerEvent::Answer(razer_answer(0x01, 0, 0)));
    assert_eq!(sent_transaction_id(&a), (0xFF, 60));
    let a = q.step(RazerEvent::Answer(razer_answer(0x01, 0, 0)));
    assert_eq!(sent_transaction_id(&a), (0xFF, 90));
    let a = q.step(RazerEvent::Answer(razer_answer(0x01, 0, 0)));
    assert_eq!(sent_transaction_id(&a), (0x1F, 30));
    let a = q.step(RazerEvent::Answer(razer_answer(0x05, 0, 0)));
    assert_eq!(sent_transaction_id(&a), (0x3F, 30));
    match q.step(RazerEvent::SendFailed(-536870212)) {
        RazerAction::Finished(Err(e)) => {
            assert_eq!(e, "sending the Razer feature report failed (IOReturn 0xE00002BC)")
        }
        _ => panic!("expected the query to give up"),
    }
}

#[test]
fn razer_query_gives_up_after_nine_requests() {
    let (mut q, mut a) = RazerQuery::start();
    let mut sent = 1;
    loop {
        match a {
            RazerAction::Send { .. } => {
                a = q.step(RazerEvent::Answer(razer_answer(0x01, 0, 0)));
                if matches!(a, RazerAction::Send { .. }) {
                    sent += 1;
                }
            }
            RazerAction::Finished(r) => {
                assert_eq!(r, Err("the mouse reported busy".to_string()));
                break;
            }
        }
    }
    assert_eq!(sent, 9);
}

#[test]
fn razer_query_reasons() {
    let (mut q, _) = RazerQuery::start();
    q.step(RazerEvent::ReadFailed(5));
    assert_eq!(q.last, "reading the Razer feature report failed (IOReturn 0x00000005)");
    q.step(RazerEvent::Answer(razer_answer(0x05, 0, 0)));
    assert_eq!(q.last, "transaction id 0x1F not supported");
    match q.step(RazerEvent::Answer(razer_answer(0x07, 0, 0))) {
        RazerAction::Finished(Err(e)) => assert_eq!(e, "unexpected Razer status 0x07"),
        _ => panic!("expected the query to give up"),
    }
    let (mut q, _) = RazerQuery::start();
    let mut resp = razer_answer(0x02, 1800, 0);
    resp[7] = 0x06;
    q.step(RazerEvent::Answer(resp));
    assert_eq!(q.last, "the mouse answered, but not with a DPI report");
}

#[test]
fn logitech_query_walks_get_feature_then_get_sensor_dpi() {
    let (mut q, a) = LogitechQuery::start();
    match a {
        LogitechAction::Call(c) => assert_eq!(c, HidppCall { feature_index: 0, function: 0, params: vec![0x22, 0x01] }),
        _ => panic!("expected a call"),
    }
    match q.step(Ok(vec![0x09, 0x00, 0x02])) {
        LogitechAction::Call(c) => assert_eq!(c, HidppCall { feature_index: 0x09, function: 2, params: vec![0x00] }),
        _ => panic!("expected a call"),
    }
    assert_eq!(q, LogitechQuery::ReadingSensor(0x09));
    match q.step(Ok(vec![0x00, 0x03, 0xE8, 0x03, 0xE8])) {
        LogitechAction::Finished(Ok(d)) => assert_eq!(
            d,
            SensorDpi { dpi_x: 1000, dpi_y: 1000, default_dpi: Some(1000), source: LOGITECH_SOURCE }
        ),
        _ => panic!("expected a reading"),
    }
    assert_eq!(q, LogitechQuery::Done);
}

#[test]
fn logitech_query_errors() {
    let (mut q, _) = LogitechQuery::start();
    match q.step(Ok(vec![0x00])) {
        LogitechAction::Finished(Err(e)) => {
            assert_eq!(e, "this Logitech mouse does not implement Adjustable DPI (HID++ feature 0x2201)")
        }
        _ => panic!("expected an error"),
    }
    let (mut q, _) = LogitechQuery::start();
    match q.step(Err("timeout".to_string())) {
        LogitechAction::Finished(Err(e)) => assert_eq!(e, "timeout"),
        _ => panic!("expected an error"),
    }
    assert_eq!(hidpp_feature_index(&[]), Err("empty getFeature response".to_string()));
    assert_eq!(hidpp_sensor_dpi(&[0, 1, 2]), Err("short getSensorDpi response (3 bytes)".to_string()));
    assert_eq!(hidpp_sensor_dpi(&[0, 0, 0, 3, 0xE8]), Err("the mouse reported a DPI of 0".to_string()));
    assert_eq!(hidpp_sensor_dpi(&[0, 0x06, 0x40, 0, 0]).unwrap().default_dpi, None);
}

#[test]
fn hidpp_answer_takes_the_first_report_for_us() {
    let reports = vec![
        vec![0x02, 0x00, 0x05, 0x00],
        vec![0x11, 0xFF, 0xFF, 0x09, 0x09, 0x2A, 0x06],
        vec![0x11, 0xFF, 0x09, 0x2A, 0x00, 0x03, 0xE8],
    ];
    assert_eq!(
        hidpp_answer(&reports, 0x09, 2),
        Some(Err("HID++ error 0x06 for feature index 9 function 2".to_string()))
    );
    assert_eq!(hidpp_answer(&reports[2..].to_vec(), 0x09, 2), Some(Ok(vec![0x00, 0x03, 0xE8])));
    assert_eq!(hidpp_answer(&reports[..1].to_vec(), 0x09, 2), None);
    assert!(hidpp_timeout_text().starts_with("the mouse did not answer the HID++ request in time"));
    assert_eq!(hidpp_send_failed_text(-1), "sending the HID++ report failed (IOReturn 0xFFFFFFFF)");
}

#[test]
fn candidates_are_tried_mouse_interface_first() {
    assert_eq!(candidate_order(&vec![None, Some(1), Some(2), Some(6), Some(2)]), vec![2, 4, 1, 0, 3]);
    assert_eq!(candidate_order(&vec![]), Vec::<usize>::new());
}

#[test]
fn probe_decisions_and_vendor_errors() {
    assert_eq!(vendor_for(VENDOR_RAZER), Ok(Vendor::Razer));
    assert_eq!(vendor_for(VENDOR_LOGITECH), Ok(Vendor::Logitech));
    assert_eq!(vendor_for(0x05AC), Err(VendorError::Unsupported(0x05AC)));
    assert_eq!(SensorProbe::begin(VENDOR_RAZER, 0x98, 0).err(), Some(VendorError::NotFound(VENDOR_RAZER, 0x98)));
    let (v, mut p) = SensorProbe::begin(VENDOR_LOGITECH, 0xB034, 2).ok().unwrap();
    assert_eq!(v, Vendor::Logitech);
    assert_eq!(p.on_open(IO_RETURN_SUCCESS), OpenDecision::Query);
    assert_eq!(p.on_open(IO_RETURN_EXCLUSIVE_ACCESS), OpenDecision::Skip);
    assert_eq!(p.last_error, "another program holds the mouse open exclusively");
    assert_eq!(p.on_open(-536870211), OpenDecision::Skip);
    assert_eq!(p.last_error, "IOHIDDeviceOpen failed (IOReturn 0xE00002BD)");
    assert_eq!(p.on_open(IO_RETURN_NOT_PERMITTED), OpenDecision::Abort(VendorError::NotPermitted));
    assert_eq!(p.on_query(Err("no".to_string())), None);
    assert_eq!(p.finish(), VendorError::Protocol("no".to_string()));

    assert_eq!(
        VendorError::Unsupported(0x5AC).message(),
        "no vendor protocol known for vendor 0x05AC; supported: Razer (0x1532) and Logitech (0x046D)"
    );
    assert_eq!(VendorError::NotFound(0x1532, 0x98).message(), "no HID interface found for vendor 0x1532 product 0x0098");
    assert!(VendorError::NotPermitted.message().starts_with("macOS refused to open the mouse"));
    assert_eq!(VendorError::Protocol("x".to_string()).message(), "x");
}

#[test]
fn an_answer_echoing_the_request_is_recognised() {
    let request = hidpp_request(0x09, 2, &[0x00]);
    let mut answer = request[..4].to_vec();
    answer.extend_from_slice(&[0x00, 0x06, 0x40, 0x03, 0xE8]);
    assert_eq!(hidpp_match(&answer, 0x09, request[3]), HidppReply::Params(vec![0x00, 0x06, 0x40, 0x03, 0xE8]));
    // Same report with the report id stripped, as IOKit may deliver it.
    assert_eq!(
        hidpp_match(&answer[1..], 0x09, request[3]),
        HidppReply::Params(vec![0x00, 0x06, 0x40, 0x03, 0xE8])
    );
}

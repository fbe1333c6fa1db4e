use macmon::error::Failure;
use macmon::fourcc;
use macmon::smc::{
    KeyData, KeyInfo, Step, CMD_KEY_AT_INDEX, CMD_KEY_INFO, CMD_READ_VALUE, KEY_COUNT, SMC,
};

/// A stand-in for the SMC: a table of keys, and a count of the requests seen per command.
struct Device {
    keys: Vec<(u32, KeyInfo, Vec<u8>)>,
    unreadable: Vec<u32>,
    /// Indices at which no key is known.
    holes: Vec<u32>,
    /// Indices at which the request for the key's name fails: the kernel's
    /// return code and the result byte to answer with.
    faults: Vec<(u32, i32, u8)>,
    seen: Vec<u8>,
    asked: Vec<u32>,
}

fn word(key: &str) -> u32 {
    fourcc::encode(key.as_bytes())
}

impl Device {
    fn new() -> Device {
        let flt = word("flt ");
        let ui32 = word("ui32");
        let keys = vec![
            (
                KEY_COUNT,
                KeyInfo { data_size: 4, data_type: ui32, data_attributes: 0 },
                vec![0, 0, 0, 3],
            ),
            (
                word("TC0P"),
                KeyInfo { data_size: 4, data_type: flt, data_attributes: 1 },
                vec![1, 2, 3, 4],
            ),
            (
                word("PSTR"),
                KeyInfo { data_size: 2, data_type: ui32, data_attributes: 2 },
                vec![9, 8],
            ),
        ];
        Device {
            keys,
            unreadable: vec![word("PSTR")],
            holes: Vec::new(),
            faults: Vec::new(),
            seen: Vec::new(),
            asked: Vec::new(),
        }
    }

    fn exchange(&mut self, req: &KeyData) -> (i32, KeyData) {
        self.seen.push(req.data8);
        let mut out = KeyData::default();
        if req.data8 == CMD_KEY_AT_INDEX {
            self.asked.push(req.data32);
            if let Some(fault) = self.faults.iter().find(|f| f.0 == req.data32) {
                out.result = fault.2;
                return (fault.1, out);
            }
            match self.keys.get(req.data32 as usize) {
                Some(entry) if !self.holes.contains(&req.data32) => out.key = entry.0,
                _ => out.result = 132,
            }
        } else if req.data8 == CMD_KEY_INFO {
            match self.keys.iter().find(|e| e.0 == req.key) {
                Some(entry) => out.key_info = entry.1,
                None => out.result = 132,
            }
        } else if req.data8 == CMD_READ_VALUE {
            match self.keys.iter().find(|e| e.0 == req.key) {
                Some(entry) => {
                    if self.unreadable.contains(&req.key) {
                        out.result = 7;
                    } else {
                        assert_eq!(req.key_info, entry.1);
                        for (i, b) in entry.2.iter().enumerate() {
                            out.bytes[i] = *b;
                        }
                    }
                }
                None => out.result = 132,
            }
        }
        (0, out)
    }

    fn count(&self, cmd: u8) -> usize {
        self.seen.iter().filter(|c| **c == cmd).count()
    }
}

fn drive(smc: &mut SMC, device: &mut Device, first: Step) -> Step {
    let mut step = first;
    loop {
        match step {
            Step::Call(req) => {
                let (rs, out) = device.exchange(&req);
                assert!(smc.accepts(rs, &out));
                step = smc.resume(rs, out);
            }
            done => return done,
        }
    }
}

#[test]
fn reply_reading_orders_the_failures() {
    let mut reply = KeyData::default();
    reply.result = 132;
    assert_eq!(SMC::read(5, reply).unwrap_err(), Failure::SMCTransportError(5));
    assert_eq!(SMC::read(0, reply).unwrap_err(), Failure::SMCKeyNotFound);
    reply.result = 9;
    assert_eq!(SMC::read(0, reply).unwrap_err(), Failure::SMCProtocolError(9));
    reply.result = 0;
    reply.key = 77;
    assert_eq!(SMC::read(0, reply).unwrap().key, 77);
}

#[test]
fn requests_carry_command_and_argument() {
    let mut smc = SMC::new();
    match smc.key_by_index(17) {
        Step::Call(req) => {
            assert_eq!(req.data8, 8);
            assert_eq!(req.data32, 17);
            assert_eq!(req.key, 0);
            assert_eq!(req.bytes, [0u8; 32]);
        }
        _ => panic!("a request was expected"),
    }
    match smc.read_key_info("TC0P") {
        Step::Call(req) => {
            assert_eq!(req.data8, 9);
            assert_eq!(req.key, 0x5443_3050);
            assert_eq!(req.key_info, KeyInfo::default());
        }
        _ => panic!("a request was expected"),
    }
}

#[test]
fn read_rejects_keys_of_wrong_length() {
    let mut smc = SMC::new();
    assert!(matches!(smc.read_val("ABC"), Step::Value(Err(Failure::InvalidKey))));
    assert!(matches!(smc.read_val("ABCDE"), Step::Value(Err(Failure::InvalidKey))));
    assert!(matches!(smc.read_key_info(""), Step::Info(Err(Failure::InvalidKey))));
    // three characters, but four bytes
    assert!(matches!(smc.read_val("T\u{e9}0"), Step::Call(_)));
}

#[test]
fn read_val_slices_the_payload_to_data_size() {
    let mut smc = SMC::new();
    let mut device = Device::new();
    let first = smc.read_val("TC0P");
    match drive(&mut smc, &mut device, first) {
        Step::Value(Ok(val)) => {
            assert_eq!(val.name, "TC0P");
            assert_eq!(val.unit, "flt ");
            assert_eq!(val.data, vec![1, 2, 3, 4]);
        }
        _ => panic!("a value was expected"),
    }
    let first = smc.read_val("#KEY");
    match drive(&mut smc, &mut device, first) {
        Step::Value(Ok(val)) => {
            assert_eq!(val.unit, "ui32");
            assert_eq!(val.data.len(), 4);
        }
        _ => panic!("a value was expected"),
    }
}

#[test]
fn second_read_does_not_ask_for_metadata() {
    let mut smc = SMC::new();
    let mut device = Device::new();
    let first = smc.read_val("TC0P");
    assert!(matches!(drive(&mut smc, &mut device, first), Step::Value(Ok(_))));
    assert_eq!(device.count(CMD_KEY_INFO), 1);
    assert_eq!(device.count(CMD_READ_VALUE), 1);
    let second = smc.read_val("TC0P");
    assert!(matches!(drive(&mut smc, &mut device, second), Step::Value(Ok(_))));
    assert_eq!(device.count(CMD_KEY_INFO), 1);
    assert_eq!(device.count(CMD_READ_VALUE), 2);
}

#[test]
fn key_info_is_answered_from_the_cache_the_second_time() {
    let mut smc = SMC::new();
    let mut device = Device::new();
    let first = smc.read_key_info("TC0P");
    let a = match drive(&mut smc, &mut device, first) {
        Step::Info(Ok(info)) => info,
        _ => panic!("metadata was expected"),
    };
    assert_eq!(a, KeyInfo { data_size: 4, data_type: word("flt "), data_attributes: 1 });
    match smc.read_key_info("TC0P") {
        Step::Info(Ok(b)) => assert_eq!(a, b),
        _ => panic!("the cache should have answered"),
    }
    assert_eq!(device.count(CMD_KEY_INFO), 1);
}

#[test]
fn unknown_key_is_reported_as_not_found() {
    let mut smc = SMC::new();
    let mut device = Device::new();
    let first = smc.read_val("ZZZZ");
    assert!(matches!(
        drive(&mut smc, &mut device, first),
        Step::Value(Err(Failure::SMCKeyNotFound))
    ));
    let first = smc.read_key_info("ZZZZ");
    assert!(matches!(
        drive(&mut smc, &mut device, first),
        Step::Info(Err(Failure::SMCKeyNotFound))
    ));
}

#[test]
fn key_by_index_spells_the_key() {
    let mut smc = SMC::new();
    let mut device = Device::new();
    let first = smc.key_by_index(1);
    match drive(&mut smc, &mut device, first) {
        Step::KeyName(Ok(name)) => assert_eq!(name, "TC0P"),
        _ => panic!("a key name was expected"),
    }
    for i in [0u32, 1, 2] {
        let first = smc.key_by_index(i);
        match drive(&mut smc, &mut device, first) {
            Step::KeyName(Ok(name)) => {
                assert_eq!(name.len(), 4);
                assert!(name.is_ascii());
            }
            _ => panic!("a key name was expected"),
        }
    }
}

#[test]
fn read_all_keys_skips_the_keys_that_cannot_be_read() {
    let mut smc = SMC::new();
    let mut device = Device::new();
    let first = smc.read_all_keys();
    match drive(&mut smc, &mut device, first) {
        Step::Keys(Ok(keys)) => assert_eq!(keys, vec!["#KEY".to_string(), "TC0P".to_string()]),
        _ => panic!("a key list was expected"),
    }
    assert_eq!(device.count(CMD_KEY_AT_INDEX), 3);
}

#[test]
fn read_all_keys_passes_over_an_index_without_a_key() {
    // more keys are counted than there are
    let mut smc = SMC::new();
    let mut device = Device::new();
    device.keys[0].2 = vec![0, 0, 0, 5];
    let first = smc.read_all_keys();
    match drive(&mut smc, &mut device, first) {
        Step::Keys(Ok(keys)) => assert_eq!(keys, vec!["#KEY".to_string(), "TC0P".to_string()]),
        _ => panic!("a key list was expected"),
    }
    assert_eq!(device.asked, vec![0, 1, 2, 3, 4]);
    // a gap in the middle: the indices behind it are still visited
    let mut smc = SMC::new();
    let mut device = Device::new();
    device.unreadable.clear();
    device.holes = vec![1];
    let first = smc.read_all_keys();
    match drive(&mut smc, &mut device, first) {
        Step::Keys(Ok(keys)) => assert_eq!(keys, vec!["#KEY".to_string(), "PSTR".to_string()]),
        _ => panic!("a key list was expected"),
    }
    assert_eq!(device.asked, vec![0, 1, 2]);
    // no index has a key
    let mut smc = SMC::new();
    let mut device = Device::new();
    device.holes = vec![0, 1, 2];
    let first = smc.read_all_keys();
    match drive(&mut smc, &mut device, first) {
        Step::Keys(Ok(keys)) => assert!(keys.is_empty()),
        _ => panic!("a key list was expected"),
    }
    assert_eq!(device.asked, vec![0, 1, 2]);
}

#[test]
fn read_all_keys_ends_where_naming_a_key_fails_otherwise() {
    let mut smc = SMC::new();
    let mut device = Device::new();
    device.faults = vec![(1, 0, 9)];
    let first = smc.read_all_keys();
    assert!(matches!(
        drive(&mut smc, &mut device, first),
        Step::Keys(Err(Failure::SMCProtocolError(9)))
    ));
    assert_eq!(device.asked, vec![0, 1]);
    let mut smc = SMC::new();
    let mut device = Device::new();
    device.faults = vec![(2, -7, 0)];
    let first = smc.read_all_keys();
    assert!(matches!(
        drive(&mut smc, &mut device, first),
        Step::Keys(Err(Failure::SMCTransportError(-7)))
    ));
    assert_eq!(device.asked, vec![0, 1, 2]);
    // a transport failure outranks the result byte that says "no such key"
    let mut smc = SMC::new();
    let mut device = Device::new();
    device.faults = vec![(0, 3, 132)];
    let first = smc.read_all_keys();
    assert!(matches!(
        drive(&mut smc, &mut device, first),
        Step::Keys(Err(Failure::SMCTransportError(3)))
    ));
}

#[test]
fn key_by_index_on_its_own_reports_a_missing_key() {
    let mut smc = SMC::new();
    let mut device = Device::new();
    let first = smc.key_by_index(9);
    assert!(matches!(
        drive(&mut smc, &mut device, first),
        Step::KeyName(Err(Failure::SMCKeyNotFound))
    ));
}

#[test]
fn transport_failure_ends_the_operation() {
    let mut smc = SMC::new();
    let first = smc.read_val("TC0P");
    assert!(matches!(first, Step::Call(_)));
    let reply = KeyData::default();
    assert!(smc.accepts(-5, &reply));
    assert!(matches!(smc.resume(-5, reply), Step::Value(Err(Failure::SMCTransportError(-5)))));
    assert!(!smc.accepts(0, &reply));
}

#[test]
fn replies_that_cannot_be_taken_in_are_told_apart() {
    let mut smc = SMC::new();
    assert!(!smc.accepts(0, &KeyData::default()));
    assert!(matches!(smc.key_by_index(0), Step::Call(_)));
    let mut reply = KeyData::default();
    reply.key = 0xFFFF_FFFF;
    assert!(!smc.accepts(0, &reply));
    reply.key = word("TC0P");
    assert!(smc.accepts(0, &reply));
}

#[test]
fn opening_keeps_the_connection_or_the_code() {
    let mut smc = SMC::new();
    assert_eq!(smc.conn(), 0);
    assert!(SMC::is_keys_endpoint("AppleSMCKeysEndpoint"));
    assert!(!SMC::is_keys_endpoint("AppleSMC"));
    assert_eq!(smc.opened(-3, 99), Err(Failure::SMCOpenFailed(-3)));
    assert_eq!(smc.conn(), 0);
    assert_eq!(smc.opened(0, 99), Ok(()));
    assert_eq!(smc.conn(), 99);
}

#[test]
fn fourcc_round_trip() {
    assert_eq!(fourcc::encode(b"#KEY"), KEY_COUNT);
    assert_eq!(fourcc::decode(KEY_COUNT), b"#KEY".to_vec());
    assert_eq!(fourcc::encode(b"TC0P"), 0x5443_3050);
    for key in ["TC0P", "flt ", "    ", "~~~~", "\0\0\0\0"] {
        assert_eq!(fourcc::decode(fourcc::encode(key.as_bytes())), key.as_bytes().to_vec());
    }
    assert_eq!(fourcc::decode(0xFFFF_FFFF), vec![255, 255, 255, 255]);
    assert_eq!(fourcc::encode(&[255, 255, 255, 255]), u32::MAX);
}

#[test]
fn payload_is_as_long_as_the_metadata_says() {
    let mut smc = SMC::new();
    let mut device = Device::new();
    for key in ["#KEY", "TC0P"] {
        let first = smc.read_key_info(key);
        let info = match drive(&mut smc, &mut device, first) {
            Step::Info(Ok(info)) => info,
            _ => panic!("metadata was expected"),
        };
        let first = smc.read_val(key);
        match drive(&mut smc, &mut device, first) {
            Step::Value(Ok(val)) => assert_eq!(val.data.len(), info.data_size as usize),
            _ => panic!("a value was expected"),
        }
    }
    // a size of the whole record, and a size of nothing
    device.keys[1].1.data_size = 32;
    device.keys[2].1.data_size = 0;
    device.unreadable.clear();
    let mut smc = SMC::new();
    let first = smc.read_val("TC0P");
    match drive(&mut smc, &mut device, first) {
        Step::Value(Ok(val)) => {
            assert_eq!(val.data.len(), 32);
            assert_eq!(&val.data[..5], &[1, 2, 3, 4, 0]);
        }
        _ => panic!("a value was expected"),
    }
    let first = smc.read_val("PSTR");
    match drive(&mut smc, &mut device, first) {
        Step::Value(Ok(val)) => assert!(val.data.is_empty()),
        _ => panic!("a value was expected"),
    }
}

#[test]
fn metadata_beyond_the_record_cannot_be_taken_in() {
    let mut smc = SMC::new();
    let mut device = Device::new();
    device.keys[1].1.data_size = 33;
    let first = smc.read_val("TC0P");
    let request = match first {
        Step::Call(request) => request,
        _ => panic!("a request was expected"),
    };
    let (rs, reply) = device.exchange(&request);
    assert!(smc.accepts(rs, &reply));
    let request = match smc.resume(rs, reply) {
        Step::Call(request) => request,
        _ => panic!("a request was expected"),
    };
    assert_eq!(request.data8, CMD_READ_VALUE);
    assert_eq!(request.key_info.data_size, 33);
    let (rs, reply) = device.exchange(&request);
    assert!(!smc.accepts(rs, &reply));
    // a failure of the read itself is still taken in
    assert!(smc.accepts(3, &reply));
}

#[test]
fn key_count_leads_to_keys_of_four_ascii_characters() {
    let mut smc = SMC::new();
    let mut device = Device::new();
    let first = smc.read_val("#KEY");
    let count = match drive(&mut smc, &mut device, first) {
        Step::Value(Ok(val)) => u32::from_be_bytes([val.data[0], val.data[1], val.data[2], val.data[3]]),
        _ => panic!("a value was expected"),
    };
    assert_eq!(count, 3);
    for i in [0, count / 2, count - 1] {
        let first = smc.key_by_index(i);
        match drive(&mut smc, &mut device, first) {
            Step::KeyName(Ok(name)) => {
                assert_eq!(name.chars().count(), 4);
                assert!(name.is_ascii());
            }
            _ => panic!("a key name was expected"),
        }
    }
}

#[test]
fn listing_with_no_keys_is_empty() {
    let mut smc = SMC::new();
    let mut device = Device::new();
    device.keys[0].2 = vec![0, 0, 0, 0];
    let first = smc.read_all_keys();
    match drive(&mut smc, &mut device, first) {
        Step::Keys(Ok(keys)) => assert!(keys.is_empty()),
        _ => panic!("a key list was expected"),
    }
    assert_eq!(device.count(CMD_KEY_AT_INDEX), 0);
    // the key count itself must be readable
    device.unreadable.push(KEY_COUNT);
    let mut smc = SMC::new();
    let first = smc.read_all_keys();
    assert!(matches!(
        drive(&mut smc, &mut device, first),
        Step::Keys(Err(Failure::SMCProtocolError(7)))
    ));
}

#[test]
fn metadata_stays_as_read_through_other_operations() {
    let mut smc = SMC::new();
    let mut device = Device::new();
    let first = smc.read_key_info("TC0P");
    let before = match drive(&mut smc, &mut device, first) {
        Step::Info(Ok(info)) => info,
        _ => panic!("metadata was expected"),
    };
    let first = smc.read_all_keys();
    assert!(matches!(drive(&mut smc, &mut device, first), Step::Keys(Ok(_))));
    let first = smc.key_by_index(2);
    assert!(matches!(drive(&mut smc, &mut device, first), Step::KeyName(Ok(_))));
    let first = smc.read_val("ZZZZ");
    assert!(matches!(drive(&mut smc, &mut device, first), Step::Value(Err(_))));
    let first = smc.read_val("TC0P");
    assert!(matches!(drive(&mut smc, &mut device, first), Step::Value(Ok(_))));
    // an operation that is begun and left is no harm either
    assert!(matches!(smc.read_key_info("PSTR"), Step::Info(Ok(_))));
    assert!(matches!(smc.read_val("QQQQ"), Step::Call(_)));
    let asked = device.count(CMD_KEY_INFO);
    match smc.read_key_info("TC0P") {
        Step::Info(Ok(after)) => assert_eq!(after, before),
        _ => panic!("the cache should have answered"),
    }
    assert_eq!(device.count(CMD_KEY_INFO), asked);
}

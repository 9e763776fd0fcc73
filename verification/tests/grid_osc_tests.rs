use rosc::{OscMessage, OscPacket, OscType};
use simon_says_seeq_rust::grid_osc::{
    announced_device_in, str_less, DeviceInfo, GridError, GridManager, GridTestStep, KeyRead, LedOutcome,
};

fn encode(addr: &str, args: Vec<OscType>) -> Vec<u8> {
    rosc::encoder::encode(&OscPacket::Message(OscMessage { addr: addr.to_string(), args })).unwrap()
}

/// Two grids: "m1111" (16 x 8, on/off) on port 14001 and "m2222"
/// (varibright, rotated as grid two) on port 14000.
fn two_grids() -> GridManager {
    let mut m = GridManager::new(9000, None);
    let info = DeviceInfo::new();
    m.register_device("m2222", "monome 128", 14000, &info);
    m.register_device("m1111", "monome 64", 14001, &info);
    m
}

#[test]
fn grids_are_ordered_by_id() {
    let m = two_grids();
    assert_eq!(m.get_connected_grids(), vec!["m1111".to_string(), "m2222".to_string()]);
    let (one, two) = m.get_grid_ids_ordered().unwrap();
    assert_eq!(one, "m1111");
    assert_eq!(two, "m2222");
    assert!(m.is_grid_two("m2222").unwrap());
    assert!(!m.is_grid_two("m1111").unwrap());
    assert!(m.is_varibright("m2222"));
    assert!(!m.is_varibright("m1111"));
    assert_eq!(m.get_dimensions("m1111"), Some((16, 8)));
    assert_eq!(m.get_name("m2222"), Some("monome 128".to_string()));
    assert_eq!(m.flash_plan(), vec![("m1111".to_string(), 1), ("m2222".to_string(), 2)]);
}

#[test]
fn grid_roles_need_two_grids_or_a_remembered_pair() {
    let mut m = GridManager::new(9000, None);
    assert!(!m.is_grid_two("x").unwrap());
    m.register_device("solo", "monome one", 14002, &DeviceInfo::new());
    assert!(matches!(m.is_grid_two("solo"), Err(GridError::NoGridConfiguration)));
    assert_eq!(
        GridError::NoGridConfiguration.message(),
        "No grids connected and no previous configuration available"
    );
    let remembered = GridManager::new(9000, Some(("a".to_string(), "b".to_string())));
    assert_eq!(remembered.get_grid_two_id().unwrap(), "b");
}

#[test]
fn led_message_on_an_on_off_grid() {
    let mut m = two_grids();
    match m.set_led("m1111", 3, 2, 9, "test").unwrap() {
        LedOutcome::Send(out) => {
            assert_eq!(out.port, 14001);
            let expected = encode(
                "/monome/grid/led/set",
                vec![OscType::Int(3), OscType::Int(2), OscType::Int(1)],
            );
            assert_eq!(out.bytes, expected);
            let mut manual: Vec<u8> = b"/monome/grid/led/set".to_vec();
            manual.extend_from_slice(&[0, 0, 0, 0]);
            manual.extend_from_slice(b",iii");
            manual.extend_from_slice(&[0, 0, 0, 0]);
            manual.extend_from_slice(&[0, 0, 0, 3, 0, 0, 0, 2, 0, 0, 0, 1]);
            assert_eq!(out.bytes, manual);
        }
        _ => panic!("no message to send"),
    }
    assert_eq!(m.get_led("m1111", 3, 2), 1);
}

#[test]
fn led_on_grid_two_is_mirrored_and_clamped() {
    let mut m = two_grids();
    match m.set_led("m2222", 3, 2, 20, "test").unwrap() {
        LedOutcome::Send(out) => {
            assert_eq!(out.port, 14000);
            let expected = encode(
                "/monome/grid/led/level/set",
                vec![OscType::Int(12), OscType::Int(5), OscType::Int(15)],
            );
            assert_eq!(out.bytes, expected);
        }
        _ => panic!("no message to send"),
    }
    assert_eq!(m.get_led("m2222", 3, 2), 15);
    assert_eq!(m.get_led("m2222", 12, 5), 0);
}

#[test]
fn led_updates_that_are_ignored_or_refused() {
    let mut m = two_grids();
    assert!(matches!(m.set_led("other", 1, 1, 5, "test"), Ok(LedOutcome::NotConnected)));
    assert!(matches!(m.set_led("m1111", 1, 9, 5, "test"), Ok(LedOutcome::RowOutside)));
    match m.set_led("m1111", 16, 0, 5, "test") {
        Err(e) => assert_eq!(
            e.message(),
            "LED coordinates (16, 0) -> transformed (16, 0) out of bounds for grid m1111 (16x8)"
        ),
        Ok(_) => panic!("an LED outside the grid was accepted"),
    }
    match m.clear_all("nope") {
        Err(e) => assert_eq!(e.message(), "Grid nope not found"),
        Ok(_) => panic!("an unknown grid was cleared"),
    }
}

#[test]
fn clearing_and_flashing() {
    let mut m = two_grids();
    let _ = m.set_led("m1111", 0, 0, 1, "test").unwrap();
    let clear = m.clear_all("m2222").unwrap();
    assert_eq!(clear.len(), 2);
    assert_eq!(clear[0].bytes, encode("/monome/grid/led/level/all", vec![OscType::Int(0)]));
    assert_eq!(clear[1].bytes, encode("/monome/grid/led/all", vec![OscType::Int(0)]));
    assert_eq!(m.clear_all("m1111").unwrap().len(), 1);
    assert_eq!(m.get_led("m1111", 0, 0), 0);
    let flash = m.flash_grid("m1111", 2).unwrap();
    assert_eq!(flash.len(), 4);
    assert_eq!(flash[0].bytes, encode("/monome/grid/led/all", vec![OscType::Int(1)]));
    assert_eq!(flash[1].bytes, encode("/monome/grid/led/all", vec![OscType::Int(0)]));
}

#[test]
fn key_events_from_grid_datagrams() {
    let m = two_grids();
    let key = encode("/monome/grid/key", vec![OscType::Int(3), OscType::Int(2), OscType::Int(1)]);
    match m.read_key_datagram(14000, &key) {
        KeyRead::Event(e) => {
            assert_eq!(e.grid_id, "m2222");
            assert_eq!((e.x, e.y, e.pressed), (12, 5, true));
        }
        _ => panic!("key event not read"),
    }
    match m.read_key_datagram(14001, &key) {
        KeyRead::Event(e) => assert_eq!((e.grid_id.as_str(), e.x, e.y), ("m1111", 3, 2)),
        _ => panic!("key event not read"),
    }
    assert!(matches!(m.read_key_datagram(15000, &key), KeyRead::Ignored));
    let wide = encode("/monome/grid/key", vec![OscType::Int(20), OscType::Int(2), OscType::Int(0)]);
    assert!(matches!(m.read_key_datagram(14000, &wide), KeyRead::OutOfRange));
    assert!(matches!(m.read_key_datagram(14001, &[1, 2, 3]), KeyRead::Ignored));
}

#[test]
fn serialosc_replies() {
    let announce = encode(
        "/serialosc/device",
        vec![OscType::String("m42".to_string()), OscType::String("monome 256".to_string()), OscType::Int(16000)],
    );
    assert_eq!(announced_device_in(&announce), Some(("m42".to_string(), "monome 256".to_string(), 16000)));
    let mut info = DeviceInfo::new();
    info.apply_datagram(&encode("/sys/size", vec![OscType::Int(8), OscType::Int(16)]));
    assert_eq!((info.cols, info.rows), (8, 16));
    assert!(!info.is_complete());
    info.apply_datagram(&encode("/sys/prefix", vec![OscType::String("/foo".to_string())]));
    assert_eq!(info.prefix, "/foo");
    assert!(info.is_complete());
}

#[test]
fn discovery_requests() {
    let m = GridManager::new(9123, None);
    let out = m.discovery_request();
    assert_eq!(out.port, 12002);
    assert_eq!(
        out.bytes,
        encode("/serialosc/list", vec![OscType::String("127.0.0.1".to_string()), OscType::Int(9123)])
    );
    let reqs = m.device_requests(14000);
    assert_eq!(reqs.len(), 2);
    assert_eq!(reqs[1].bytes, encode("/sys/port", vec![OscType::Int(9123)]));
}

#[test]
fn ids_compare_lexicographically() {
    assert!(str_less("a", "b"));
    assert!(str_less("ab", "b"));
    assert!(str_less("", "a"));
    assert!(!str_less("b", "a"));
    assert!(!str_less("a", "a"));
}

#[test]
fn virtual_buttons_and_remembered_pair() {
    let mut m = two_grids();
    m.inject_virtual_button("grid_one", 1, 2, true);
    m.inject_virtual_button("grid_two", 3, 4, false);
    let events = m.take_virtual_events();
    assert_eq!(events.len(), 2);
    assert_eq!((events[0].grid_id.as_str(), events[0].x, events[0].y, events[0].pressed), ("grid_one", 1, 2, true));
    assert!(m.take_virtual_events().is_empty());
    assert_eq!(m.remember_grid_pair(), Some(("m1111".to_string(), "m2222".to_string())));
}

#[test]
fn clearing_sequence_rows_keeps_the_control_row() {
    let mut m = two_grids();
    m.set_led("m1111", 3, 7, 1, "test").unwrap();
    m.set_led("m1111", 3, 2, 1, "test").unwrap();
    let (outcomes, r) = m.clear_all_sequence_rows("m1111");
    assert!(r.is_ok());
    assert_eq!(outcomes.len(), 7 * 16);
    assert!(outcomes.iter().all(|o| matches!(o, LedOutcome::Send(_))));
    match &outcomes[16 * 2 + 3] {
        LedOutcome::Send(out) => {
            let expected = encode(
                "/monome/grid/led/set",
                vec![OscType::Int(3), OscType::Int(2), OscType::Int(0)],
            );
            assert_eq!(out.bytes, expected);
        }
        _ => panic!("no message to send"),
    }
    assert_eq!(m.get_led("m1111", 3, 2), 0);
    assert_eq!(m.get_led("m1111", 3, 7), 1);
    let (none, missing) = m.clear_all_sequence_rows("nope");
    assert!(none.is_empty());
    assert!(matches!(missing, Err(GridError::NotFound(g)) if g == "nope"));
}

#[test]
fn led_maps_are_checked_against_the_grid_size() {
    let mut m = two_grids();
    let narrow: Vec<Vec<u8>> = vec![vec![1; 8]; 15];
    let (outcomes, r) = m.set_led_map("m1111", &narrow);
    assert!(outcomes.is_empty());
    let e = r.unwrap_err();
    assert!(matches!(e, GridError::MapWidth { width: 15, cols: 16 }));
    assert_eq!(e.message(), "LED map width 15 doesn't match grid width 16");

    let mut short: Vec<Vec<u8>> = vec![vec![1; 8]; 16];
    short[2] = vec![1; 7];
    let (outcomes, r) = m.set_led_map("m1111", &short);
    assert_eq!(outcomes.len(), 16);
    let e = r.unwrap_err();
    assert!(matches!(e, GridError::MapHeight { column: 2, height: 7, rows: 8 }));
    assert_eq!(e.message(), "LED map column 2 height 7 doesn't match grid height 8");
    assert_eq!(m.get_led("m1111", 1, 5), 1);
    assert_eq!(m.get_led("m1111", 2, 0), 0);

    let mut full: Vec<Vec<u8>> = vec![vec![0; 8]; 16];
    full[4][6] = 12;
    let (outcomes, r) = m.set_led_map("m2222", &full);
    assert!(r.is_ok());
    assert_eq!(outcomes.len(), 128);
    assert_eq!(m.get_led("m2222", 4, 6), 12);
    match &outcomes[4 * 8 + 6] {
        LedOutcome::Send(out) => {
            let expected = encode(
                "/monome/grid/led/level/set",
                vec![OscType::Int(11), OscType::Int(1), OscType::Int(12)],
            );
            assert_eq!(out.bytes, expected);
        }
        _ => panic!("no message to send"),
    }
    let (_, missing) = m.set_led_map("nope", &full);
    assert!(matches!(missing, Err(GridError::NotFound(_))));
}

#[test]
fn grid_test_lights_corners_then_clears() {
    let mut m = two_grids();
    let (steps, r) = m.test_grid("m1111");
    assert!(r.is_ok());
    assert_eq!(steps.len(), 11);
    let corners = [(0, 0), (15, 0), (0, 7), (15, 7)];
    for (k, (x, y)) in corners.iter().enumerate() {
        match &steps[k] {
            GridTestStep::Led(LedOutcome::Send(out), 150) => {
                let expected =
                    encode("/monome/grid/led/set", vec![OscType::Int(*x), OscType::Int(*y), OscType::Int(1)]);
                assert_eq!(out.bytes, expected);
            }
            other => panic!("unexpected step {:?}", other),
        }
    }
    assert!(matches!(steps[4], GridTestStep::Pause(500)));
    assert!(matches!(steps[5], GridTestStep::Led(LedOutcome::Send(_), 100)));
    match &steps[9] {
        GridTestStep::Send(out, 200) => {
            assert_eq!(out.len(), 1);
            assert_eq!(out[0].bytes, encode("/monome/grid/led/all", vec![OscType::Int(1)]));
        }
        other => panic!("unexpected step {:?}", other),
    }
    assert!(matches!(&steps[10], GridTestStep::Send(out, 0) if out.len() == 1));
    assert_eq!(m.get_led("m1111", 15, 7), 0);

    let (steps, r) = m.test_grid("m2222");
    assert!(r.is_ok());
    match &steps[0] {
        GridTestStep::Led(LedOutcome::Send(out), 150) => {
            let expected = encode(
                "/monome/grid/led/level/set",
                vec![OscType::Int(15), OscType::Int(7), OscType::Int(10)],
            );
            assert_eq!(out.bytes, expected);
        }
        other => panic!("unexpected step {:?}", other),
    }
    match &steps[9] {
        GridTestStep::Send(out, 200) => {
            assert_eq!(out[0].bytes, encode("/monome/grid/led/level/all", vec![OscType::Int(5)]));
        }
        other => panic!("unexpected step {:?}", other),
    }
    assert!(matches!(&steps[10], GridTestStep::Send(out, 0) if out.len() == 2));

    let (steps, r) = m.test_grid("nope");
    assert!(steps.is_empty());
    assert!(matches!(r, Err(GridError::NotFound(_))));
}

#[test]
fn grid_test_stops_at_a_refused_corner() {
    let mut m = GridManager::new(9000, None);
    let mut small = DeviceInfo::new();
    small.cols = 8;
    small.rows = 8;
    m.register_device("a-one", "monome 128", 14001, &DeviceInfo::new());
    m.register_device("b-two", "monome 64", 14002, &small);
    let (steps, r) = m.test_grid("b-two");
    assert!(steps.is_empty());
    let e = r.unwrap_err();
    assert!(matches!(e, GridError::OutOfBounds { x: 0, y: 0, tx: 15, ty: 7, cols: 8, rows: 8, .. }));
}

#[test]
fn sorted_grid_ids_name_the_lowest_two() {
    let mut m = GridManager::new(9000, None);
    assert_eq!(m.get_sorted_grid_ids(), (None, None));
    m.register_device("m3333", "monome 128", 14003, &DeviceInfo::new());
    assert_eq!(m.get_sorted_grid_ids(), (Some("m3333".to_string()), None));
    let m = two_grids();
    assert_eq!(m.get_sorted_grid_ids(), (Some("m1111".to_string()), Some("m2222".to_string())));
}

#[test]
fn two_grid_check_counts_and_names_mock_grids() {
    let m = two_grids();
    let c = m.verify_two_grids_requirement();
    assert_eq!(c.count, 2);
    assert!(!c.count_wrong);
    assert!(!c.has_last_known);
    assert!(c.mock_grids.is_empty());

    let mut m = GridManager::new(9000, Some(("a".to_string(), "b".to_string())));
    m.register_device("mock_grid_1", "monome 128", 14005, &DeviceInfo::new());
    m.register_device("m4444", "monome 128", 14006, &DeviceInfo::new());
    m.register_device("amocked", "monome 64", 14007, &DeviceInfo::new());
    let c = m.verify_two_grids_requirement();
    assert_eq!(c.count, 3);
    assert!(c.count_wrong);
    assert!(c.has_last_known);
    assert_eq!(c.mock_grids, vec!["mock_grid_1".to_string(), "amocked".to_string()]);
}

#[test]
fn injected_buttons_come_back_in_order_once() {
    let mut m = GridManager::new(9000, None);
    let injected = [("grid_one", 0, 0, true), ("grid_two", 15, 6, true), ("grid_one", 0, 0, false), ("grid_two", 2, 3, false)];
    for (g, x, y, p) in injected {
        m.inject_virtual_button(g, x, y, p);
    }
    let events = m.take_virtual_events();
    let read: Vec<(&str, usize, usize, bool)> =
        events.iter().map(|e| (e.grid_id.as_str(), e.x, e.y, e.pressed)).collect();
    assert_eq!(read, injected.to_vec());
    assert!(m.take_virtual_events().is_empty());
}

use fuel_prices::bootstrap::{BootAction, Bootstrap};
use fuel_prices::config::{parse_port, parse_radius, split_list};
use fuel_prices::metrics::{fuel_line_text, join_with_newlines, push_station_lines};
use fuel_prices::station::Station;
use fuel_prices::store::PriceStore;
use fuel_prices::text::{decimal_text, tenths_value_text};

fn station(name: &str, distance: &str, petrol: bool, diesel: bool, pp: u64, dp: u64) -> Station {
    Station::new(name.to_string(), distance.to_string(), petrol, diesel, pp, dp)
}

const HEADER: &str = "# HELP fuel_price Fuel price\n# TYPE fuel_price gauge";

#[test]
fn single_petrol_station_renders_exactly() {
    let mut store = PriceStore::new();
    store.insert("AB1 2CD".to_string(), vec![station("Acme", "0.5", true, false, 1359, 1420)]);
    assert_eq!(
        store.render(),
        "# HELP fuel_price Fuel price\n# TYPE fuel_price gauge\nfuel_price{postcode=\"AB1 2CD\", type=\"petrol\", provider=\"Acme\", distance=\"0.5\" } 135.9"
    );
}

#[test]
fn empty_store_renders_header_only() {
    let store = PriceStore::new();
    assert_eq!(store.render(), HEADER);
    assert_eq!(store.metric_lines().len(), 2);
}

#[test]
fn station_without_fuel_adds_no_line() {
    let mut lines: Vec<String> = Vec::new();
    push_station_lines(&mut lines, "ZZ9 9ZZ", &station("Shut", "1.0", false, false, 1500, 1600));
    assert!(lines.is_empty());

    let mut store = PriceStore::new();
    store.insert("ZZ9 9ZZ".to_string(), vec![station("Shut", "1.0", false, false, 1500, 1600)]);
    assert_eq!(store.render(), HEADER);
}

#[test]
fn station_with_both_fuels_adds_two_lines() {
    let mut lines: Vec<String> = Vec::new();
    push_station_lines(&mut lines, "E1 6AN", &station("Both", "2.25", true, true, 1489, 1547));
    assert_eq!(
        lines,
        vec![
            "fuel_price{postcode=\"E1 6AN\", type=\"petrol\", provider=\"Both\", distance=\"2.25\" } 148.9".to_string(),
            "fuel_price{postcode=\"E1 6AN\", type=\"diesel\", provider=\"Both\", distance=\"2.25\" } 154.7".to_string(),
        ]
    );
}

#[test]
fn two_postcodes_line_count() {
    let mut store = PriceStore::new();
    store.insert("AA1 1AA".to_string(), vec![station("One", "0.1", true, true, 1400, 1500)]);
    store.insert("BB2 2BB".to_string(), vec![station("Two", "3.0", false, true, 1399, 1451)]);
    let lines = store.metric_lines();
    assert_eq!(lines.len(), 2 + 3);
    assert_eq!(lines[0], "# HELP fuel_price Fuel price");
    assert_eq!(lines[1], "# TYPE fuel_price gauge");
    assert_eq!(lines.iter().filter(|l| l.starts_with('#')).count(), 2);
    let body = store.render();
    assert_eq!(body.lines().count(), 5);
    assert!(body.contains("postcode=\"AA1 1AA\", type=\"petrol\", provider=\"One\", distance=\"0.1\" } 140"));
    assert!(body.contains("postcode=\"AA1 1AA\", type=\"diesel\", provider=\"One\", distance=\"0.1\" } 150"));
    assert!(body.contains("postcode=\"BB2 2BB\", type=\"diesel\", provider=\"Two\", distance=\"3.0\" } 145.1"));
    assert!(!body.ends_with('\n'));
}

#[test]
fn stations_keep_fetch_order() {
    let mut store = PriceStore::new();
    store.insert(
        "CC3 3CC".to_string(),
        vec![station("First", "0.2", true, false, 1300, 0), station("Second", "0.9", true, false, 1310, 0)],
    );
    let lines = store.metric_lines();
    assert!(lines[2].contains("provider=\"First\""));
    assert!(lines[3].contains("provider=\"Second\""));
}

#[test]
fn insert_replaces_existing_postcode() {
    let mut store = PriceStore::new();
    store.insert("AB1 2CD".to_string(), vec![station("Old", "1", true, false, 1000, 0)]);
    store.insert("XY9 8ZZ".to_string(), vec![]);
    store.insert("AB1 2CD".to_string(), vec![station("New", "2", false, true, 0, 1200)]);
    assert_eq!(store.len(), 2);
    assert_eq!(store.entry(0).postcode, "AB1 2CD");
    assert_eq!(store.entry(0).stations[0].name, "New");
    assert_eq!(
        store.render(),
        format!("{}\nfuel_price{{postcode=\"AB1 2CD\", type=\"diesel\", provider=\"New\", distance=\"2\" }} 120", HEADER)
    );
}

#[test]
fn repeated_renders_are_identical() {
    let mut store = PriceStore::new();
    store.insert("AB1 2CD".to_string(), vec![station("Acme", "0.5", true, true, 1359, 1420)]);
    let first = store.render();
    for _ in 0..10 {
        assert_eq!(store.render(), first);
    }
}

#[test]
fn price_values_are_tenths() {
    assert_eq!(tenths_value_text(1359), "135.9");
    assert_eq!(tenths_value_text(1400), "140");
    assert_eq!(tenths_value_text(5), "0.5");
    assert_eq!(tenths_value_text(0), "0");
    assert_eq!(tenths_value_text(u64::MAX), "1844674407370955161.5");
    assert_eq!(decimal_text(0), "0");
    assert_eq!(decimal_text(907), "907");
}

#[test]
fn gauge_line_layout() {
    assert_eq!(
        fuel_line_text("P", "petrol", "N", "D", 1001),
        "fuel_price{postcode=\"P\", type=\"petrol\", provider=\"N\", distance=\"D\" } 100.1"
    );
}

#[test]
fn join_has_no_trailing_newline() {
    assert_eq!(join_with_newlines(&vec![]), "");
    assert_eq!(join_with_newlines(&vec!["a".to_string()]), "a");
    assert_eq!(join_with_newlines(&vec!["a".to_string(), "b".to_string(), "".to_string()]), "a\nb\n");
}

#[test]
fn bootstrap_failure_on_second_postcode_aborts() {
    let mut boot = Bootstrap::new(vec!["A1".to_string(), "B2".to_string(), "C3".to_string()]);
    match boot.next_action() {
        BootAction::Fetch(p) => assert_eq!(p, "A1"),
        _ => panic!("expected a fetch of the first postcode"),
    }
    boot.on_fetched(vec![station("S", "1", true, false, 1000, 0)]);
    match boot.next_action() {
        BootAction::Fetch(p) => assert_eq!(p, "B2"),
        _ => panic!("expected a fetch of the second postcode"),
    }
    boot.on_fetch_failed();
    assert!(matches!(boot.next_action(), BootAction::Abort));
    assert!(matches!(boot.next_action(), BootAction::Abort));
}

#[test]
fn bootstrap_success_serves_full_store() {
    let mut boot = Bootstrap::new(vec!["A1".to_string(), "B2".to_string()]);
    for name in ["X", "Y"] {
        assert!(matches!(boot.next_action(), BootAction::Fetch(_)));
        boot.on_fetched(vec![station(name, "1", false, true, 0, 1111)]);
    }
    assert!(matches!(boot.next_action(), BootAction::Serve));
    let store = boot.into_store();
    assert_eq!(store.len(), 2);
    assert_eq!(store.entry(1).postcode, "B2");
}

#[test]
fn bootstrap_with_no_postcodes_serves_empty_store() {
    let boot = Bootstrap::new(vec![]);
    assert!(matches!(boot.next_action(), BootAction::Serve));
    assert_eq!(boot.into_store().render(), HEADER);
}

#[test]
fn postcode_list_splits_on_commas() {
    assert_eq!(split_list("AB1 2CD,EF3 4GH"), vec!["AB1 2CD".to_string(), "EF3 4GH".to_string()]);
    assert_eq!(split_list("ONE"), vec!["ONE".to_string()]);
    assert_eq!(split_list(""), vec!["".to_string()]);
    assert_eq!(split_list("a,,b,"), vec!["a".to_string(), "".to_string(), "b".to_string(), "".to_string()]);
}

#[test]
fn port_and_radius_parse() {
    assert_eq!(parse_port("8080"), Some(8080));
    assert_eq!(parse_port("+80"), Some(80));
    assert_eq!(parse_port("65535"), Some(65535));
    assert_eq!(parse_port("65536"), None);
    assert_eq!(parse_port(""), None);
    assert_eq!(parse_port("+"), None);
    assert_eq!(parse_port("-1"), None);
    assert_eq!(parse_port("80 "), None);
    assert_eq!(parse_port("99999999999999999999999"), None);
    assert_eq!(parse_radius("5"), Some(5));
    assert_eq!(parse_radius("4294967295"), Some(4294967295));
    assert_eq!(parse_radius("4294967296"), None);
    assert_eq!(parse_radius("1x"), None);
}

#[test]
fn bootstrap_keeps_fetched_stations() {
    let mut boot = Bootstrap::new(vec!["A1".to_string(), "B2".to_string()]);
    boot.on_fetched(vec![station("X", "0.4", true, false, 1234, 0), station("Z", "0.7", false, true, 0, 1300)]);
    boot.on_fetched(vec![]);
    let store = boot.into_store();
    assert_eq!(store.entry(0).postcode, "A1");
    assert_eq!(store.entry(0).stations.len(), 2);
    assert_eq!(store.entry(0).stations[0].name, "X");
    assert_eq!(store.entry(0).stations[1].diesel_price, 1300);
    assert!(store.entry(1).stations.is_empty());
}

#[test]
fn appending_both_fuel_station_adds_two_lines() {
    let base = vec![station("Acme", "0.5", true, false, 1359, 1420)];
    let mut a = PriceStore::new();
    a.insert("AB1 2CD".to_string(), base);
    a.insert("ZZ1 1ZZ".to_string(), vec![station("Far", "9", false, true, 0, 1501)]);
    let mut b = PriceStore::new();
    b.insert(
        "AB1 2CD".to_string(),
        vec![station("Acme", "0.5", true, false, 1359, 1420), station("Both", "1.5", true, true, 1405, 1533)],
    );
    b.insert("ZZ1 1ZZ".to_string(), vec![station("Far", "9", false, true, 0, 1501)]);
    let body_a = a.render();
    let body_b = b.render();
    let mut lines_a: Vec<&str> = body_a.split('\n').collect();
    let mut lines_b: Vec<&str> = body_b.split('\n').collect();
    assert_eq!(lines_b.len(), lines_a.len() + 2);
    lines_a.push("fuel_price{postcode=\"AB1 2CD\", type=\"petrol\", provider=\"Both\", distance=\"1.5\" } 140.5");
    lines_a.push("fuel_price{postcode=\"AB1 2CD\", type=\"diesel\", provider=\"Both\", distance=\"1.5\" } 153.3");
    lines_a.sort();
    lines_b.sort();
    assert_eq!(lines_a, lines_b);
}

#[test]
fn body_split_on_newlines_gives_headers_then_gauge_lines() {
    let mut store = PriceStore::new();
    store.insert("P1".to_string(), vec![station("S1", "1", true, false, 1300, 0)]);
    store.insert("P2".to_string(), vec![station("S2", "2", true, true, 1310, 1410)]);
    let body = store.render();
    let l: Vec<&str> = body.split('\n').collect();
    assert_eq!(l.len(), 2 + 1 + 2);
    assert_eq!(l[0], "# HELP fuel_price Fuel price");
    assert_eq!(l[1], "# TYPE fuel_price gauge");
    assert!(l[2..].iter().all(|x| x.starts_with("fuel_price{")));
}

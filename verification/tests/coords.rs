use airports::coords::read_field;
use airports::{Coords, ParseError, Reading};
use std::cell::RefCell;

fn number(field: &str) -> Option<u64> {
    field.parse::<f64>().ok().map(f64::to_bits)
}

fn point(latitude: f64, longitude: f64) -> Coords {
    Coords {
        latitude: latitude.to_bits(),
        longitude: longitude.to_bits(),
    }
}

#[test]
fn parse_reads_latitude_then_longitude() {
    assert_eq!(Coords::parse("12.5, 45.0", number), Ok(point(12.5, 45.0)));
    assert_eq!(Coords::parse("45.0, 12.5", number), Ok(point(45.0, 12.5)));
}

#[test]
fn parse_keeps_the_numbers_as_read() {
    let c = Coords::parse("40.6413, -73.7781", number).unwrap();
    assert_eq!(f64::from_bits(c.latitude), 40.6413);
    assert_eq!(f64::from_bits(c.longitude), -73.7781);
    let d = Coords::parse("0.1,1e-7", number).unwrap();
    assert_eq!(d.latitude, 0.1f64.to_bits());
    assert_eq!(d.longitude, 1e-7f64.to_bits());
}

#[test]
fn parse_asks_no_range_of_a_coordinate() {
    assert_eq!(Coords::parse("1234.5, -9999", number), Ok(point(1234.5, -9999.0)));
    let c = Coords::parse("inf, -0", number).unwrap();
    assert_eq!(c.latitude, f64::INFINITY.to_bits());
    assert_eq!(c.longitude, (-0.0f64).to_bits());
    assert_ne!(c.longitude, 0.0f64.to_bits());
}

#[test]
fn parse_empty_text_misses_latitude() {
    assert_eq!(Coords::parse("", number), Err(ParseError::MissingLatitude));
}

#[test]
fn parse_single_field_misses_longitude() {
    assert_eq!(Coords::parse("12.5", number), Err(ParseError::MissingLongitude));
    assert_eq!(Coords::parse(" 12.5 ", number), Err(ParseError::MissingLongitude));
}

#[test]
fn parse_rejects_bad_latitude() {
    assert_eq!(Coords::parse("abc, 45.0", number), Err(ParseError::BadLatitude));
    assert_eq!(Coords::parse(",45.0", number), Err(ParseError::BadLatitude));
    assert_eq!(Coords::parse("   ", number), Err(ParseError::BadLatitude));
    assert_eq!(Coords::parse(",", number), Err(ParseError::BadLatitude));
}

#[test]
fn parse_rejects_bad_longitude() {
    assert_eq!(Coords::parse("12.5, xyz", number), Err(ParseError::BadLongitude));
    assert_eq!(Coords::parse("12.5,", number), Err(ParseError::BadLongitude));
    assert_eq!(Coords::parse("12.5,,45.0", number), Err(ParseError::BadLongitude));
    assert_eq!(Coords::parse("12.5, 45.0 7", number), Err(ParseError::BadLongitude));
}

#[test]
fn parse_reports_latitude_before_longitude() {
    assert_eq!(Coords::parse("bad", number), Err(ParseError::BadLatitude));
    assert_eq!(Coords::parse("abc, xyz", number), Err(ParseError::BadLatitude));
}

#[test]
fn parse_ignores_third_field() {
    assert_eq!(Coords::parse("12.5, 45.0, 999", number), Ok(point(12.5, 45.0)));
    assert_eq!(Coords::parse("12.5, 45.0, junk, more", number), Ok(point(12.5, 45.0)));
    assert_eq!(Coords::parse("12.5,45.0,", number), Ok(point(12.5, 45.0)));
}

#[test]
fn parse_ignores_white_space_around_fields() {
    let bare = Coords::parse("12.5,45.0", number);
    assert_eq!(bare, Ok(point(12.5, 45.0)));
    assert_eq!(Coords::parse(" 12.5 , 45.0 ", number), bare);
    assert_eq!(Coords::parse("\t12.5\u{a0},\u{3000}45.0\r\n", number), bare);
}

#[test]
fn parse_hands_the_reader_trimmed_fields() {
    let seen: RefCell<Vec<String>> = RefCell::new(Vec::new());
    let r = Coords::parse("  12.5 ,\t45.0  , 999", |field: &str| {
        seen.borrow_mut().push(field.to_string());
        number(field)
    });
    assert_eq!(r, Ok(point(12.5, 45.0)));
    assert_eq!(*seen.borrow(), vec!["12.5".to_string(), "45.0".to_string()]);
}

#[test]
fn parse_returns_what_the_reader_gives() {
    let r = Coords::parse("north, east", |field: &str| match field {
        "north" => Some(1),
        "east" => Some(2),
        _ => None,
    });
    assert_eq!(r, Ok(Coords { latitude: 1, longitude: 2 }));
}

#[test]
fn read_field_tells_missing_bad_and_value() {
    assert_eq!(read_field("12.5, x", 0, &number), Reading::Value(12.5f64.to_bits()));
    assert_eq!(read_field("12.5, x", 1, &number), Reading::Bad);
    assert_eq!(read_field("12.5, x", 2, &number), Reading::Missing);
    assert_eq!(read_field("", 0, &number), Reading::Missing);
}

#[test]
fn from_readings_reports_the_first_fault() {
    let v = Reading::Value(7);
    let w = Reading::Value(9);
    assert_eq!(Coords::from_readings(Reading::Missing, Reading::Missing), Err(ParseError::MissingLatitude));
    assert_eq!(Coords::from_readings(Reading::Missing, Reading::Bad), Err(ParseError::MissingLatitude));
    assert_eq!(Coords::from_readings(Reading::Missing, w), Err(ParseError::MissingLatitude));
    assert_eq!(Coords::from_readings(Reading::Bad, Reading::Missing), Err(ParseError::BadLatitude));
    assert_eq!(Coords::from_readings(Reading::Bad, Reading::Bad), Err(ParseError::BadLatitude));
    assert_eq!(Coords::from_readings(Reading::Bad, w), Err(ParseError::BadLatitude));
    assert_eq!(Coords::from_readings(v, Reading::Missing), Err(ParseError::MissingLongitude));
    assert_eq!(Coords::from_readings(v, Reading::Bad), Err(ParseError::BadLongitude));
    assert_eq!(Coords::from_readings(v, w), Ok(Coords { latitude: 7, longitude: 9 }));
}

#[test]
fn location_is_latitude_then_longitude() {
    let c = point(40.6413, -73.7781);
    assert_eq!(c.location(), (40.6413f64.to_bits(), (-73.7781f64).to_bits()));
    let odd = Coords { latitude: 1, longitude: u64::MAX };
    assert_eq!(odd.location(), (1, u64::MAX));
}

#[test]
fn location_feeds_a_geoutils_location_exactly() {
    let c = Coords::parse("52.518611, 13.408056", number).unwrap();
    let (latitude, longitude) = c.location();
    let there = geoutils::Location::new(f64::from_bits(latitude), f64::from_bits(longitude));
    assert_eq!(there.latitude().to_bits(), c.latitude);
    assert_eq!(there.longitude().to_bits(), c.longitude);
    assert_eq!(there, geoutils::Location::new(52.518611, 13.408056));
}

#[test]
fn messages_name_the_fault() {
    assert_eq!(ParseError::MissingLatitude.message(), "Missing latitude");
    assert_eq!(ParseError::BadLatitude.message(), "Bad latitude");
    assert_eq!(ParseError::MissingLongitude.message(), "Missing longitude");
    assert_eq!(ParseError::BadLongitude.message(), "Bad longitude");
}

#[test]
fn parse_gives_one_result_for_one_text() {
    let texts = ["40.6413, -73.7781", "", "bad", "1,", " 7 , 8 , 9"];
    for text in texts {
        assert_eq!(Coords::parse(text, number), Coords::parse(text, number));
    }
}

//! A pair of coordinates and the strict reader of its text form.
//!
//! A coordinate text is `latitude, longitude`: the first two comma-separated
//! fields of the text, each a number. What a number looks like is left to a
//! reader that the caller hands in: a function from a field to the bit
//! pattern of the IEEE 754 binary64 number that the field denotes, or to
//! `None` where it denotes none.

use crate::text::{
    all_space, field, lemma_fields_ignore_padding, lemma_fields_of_one, lemma_fields_of_two,
    no_comma, nth_field, trimmed,
};
use vstd::prelude::*;

verus! {

/// Why a text was not read as a pair of coordinates.
#[derive(Clone, Copy, Debug, PartialEq, Eq, Structural)]
pub enum ParseError {
    /// The text is empty: it has no latitude field.
    MissingLatitude,
    /// The latitude field is not a number.
    BadLatitude,
    /// The text has no comma: there is no longitude field.
    MissingLongitude,
    /// The longitude field is not a number.
    BadLongitude,
}

impl ParseError {
    /// The characters of `message`.
    pub open spec fn message_text(self) -> Seq<char> {
        match self {
            ParseError::MissingLatitude => "Missing latitude"@,
            ParseError::BadLatitude => "Bad latitude"@,
            ParseError::MissingLongitude => "Missing longitude"@,
            ParseError::BadLongitude => "Bad longitude"@,
        }
    }

    /// A short description of the error.
    pub fn message(&self) -> (r: &'static str)
        ensures
            r@ == self.message_text(),
    {
        match self {
            ParseError::MissingLatitude => "Missing latitude",
            ParseError::BadLatitude => "Bad latitude",
            ParseError::MissingLongitude => "Missing longitude",
            ParseError::BadLongitude => "Bad longitude",
        }
    }
}

/// What came of reading one field of a text as a number.
#[derive(Clone, Copy, Debug, PartialEq, Eq, Structural)]
pub enum Reading {
    /// The text has no such field.
    Missing,
    /// The field is there and is not a number.
    Bad,
    /// The field is the number with these bits.
    Value(u64),
}

/// `read` may answer `out` when it is given a text of the characters `field`.
pub open spec fn gives<F: Fn(&str) -> Option<u64>>(
    read: F,
    field: Seq<char>,
    out: Option<u64>,
) -> bool {
    exists|s: &str| s@ == field && #[trigger] call_ensures(read, (s,), out)
}

/// `read` never refuses a text of the characters `field`.
pub open spec fn accepts<F: Fn(&str) -> Option<u64>>(read: F, field: Seq<char>) -> bool {
    forall|s: &str, out: Option<u64>|
        s@ == field && #[trigger] call_ensures(read, (s,), out) ==> out is Some
}

/// `read` answers one thing for all texts of the same characters.
pub open spec fn single_valued<F: Fn(&str) -> Option<u64>>(read: F) -> bool {
    forall|s: &str, t: &str, a: Option<u64>, b: Option<u64>|
        s@ == t@ && #[trigger] call_ensures(read, (s,), a) && #[trigger] call_ensures(
            read,
            (t,),
            b,
        ) ==> a == b
}

/// `read` can be called on any text of the characters `field`.
pub open spec fn takes<F: Fn(&str) -> Option<u64>>(read: F, field: Option<Seq<char>>) -> bool {
    forall|s: &str| field == Some(s@) ==> #[trigger] call_requires(read, (s,))
}

/// `r` is a possible result of reading `field` with `read`.
pub open spec fn is_reading<F: Fn(&str) -> Option<u64>>(
    read: F,
    field: Option<Seq<char>>,
    r: Reading,
) -> bool {
    match (field, r) {
        (None, Reading::Missing) => true,
        (Some(f), Reading::Bad) => gives(read, f, None),
        (Some(f), Reading::Value(v)) => gives(read, f, Some(v)),
        _ => false,
    }
}

/// Reads the `n`-th field of `text` as a number, with `read` to tell which
/// number a field is.
pub fn read_field<F: Fn(&str) -> Option<u64>>(text: &str, n: usize, read: &F) -> (r: Reading)
    requires
        takes(*read, nth_field(text@, n as nat)),
    ensures
        is_reading(*read, nth_field(text@, n as nat), r),
{
    match field(text, n) {
        None => Reading::Missing,
        Some(f) => match read(f) {
            None => Reading::Bad,
            Some(v) => Reading::Value(v),
        },
    }
}

/// A point on the globe. Each coordinate is held as the bit pattern of an
/// IEEE 754 binary64 number of degrees, so a value is kept exactly as it
/// was read, and two points are equal when their bits are. No range is
/// asked of either coordinate.
#[derive(Clone, Copy, Debug, PartialEq, Eq, Structural)]
pub struct Coords {
    pub latitude: u64,
    pub longitude: u64,
}

impl Coords {
    /// The pair of coordinates, latitude first and longitude second, bit
    /// for bit.
    pub fn location(&self) -> (p: (u64, u64))
        ensures
            p == (self.latitude, self.longitude),
    {
        (self.latitude, self.longitude)
    }

    /// Coordinates from the readings of the two fields. The first thing
    /// that is wrong is the error, the latitude's before the longitude's.
    pub open spec fn spec_from_readings(latitude: Reading, longitude: Reading) -> Result<
        Coords,
        ParseError,
    > {
        match (latitude, longitude) {
            (Reading::Missing, _) => Err(ParseError::MissingLatitude),
            (Reading::Bad, _) => Err(ParseError::BadLatitude),
            (Reading::Value(_), Reading::Missing) => Err(ParseError::MissingLongitude),
            (Reading::Value(_), Reading::Bad) => Err(ParseError::BadLongitude),
            (Reading::Value(latitude), Reading::Value(longitude)) => Ok(
                Coords { latitude, longitude },
            ),
        }
    }

    /// Coordinates from the readings of the two fields.
    #[verifier::when_used_as_spec(spec_from_readings)]
    pub fn from_readings(latitude: Reading, longitude: Reading) -> (r: Result<Coords, ParseError>)
        ensures
            r == Coords::spec_from_readings(latitude, longitude),
    {
        let latitude = match latitude {
            Reading::Missing => {
                return Err(ParseError::MissingLatitude);
            },
            Reading::Bad => {
                return Err(ParseError::BadLatitude);
            },
            Reading::Value(v) => v,
        };
        let longitude = match longitude {
            Reading::Missing => {
                return Err(ParseError::MissingLongitude);
            },
            Reading::Bad => {
                return Err(ParseError::BadLongitude);
            },
            Reading::Value(v) => v,
        };
        Ok(Coords { latitude, longitude })
    }

    /// `r` is a possible result of reading `text`, with `read` to tell
    /// which number a field is. Success is the two numbers as `read` gave
    /// them for the first two fields; each error comes with the first
    /// thing that is wrong.
    pub open spec fn is_parse<F: Fn(&str) -> Option<u64>>(
        read: F,
        text: Seq<char>,
        r: Result<Coords, ParseError>,
    ) -> bool {
        let first = nth_field(text, 0);
        let second = nth_field(text, 1);
        match r {
            Ok(c) => {
                &&& is_reading(read, first, Reading::Value(c.latitude))
                &&& is_reading(read, second, Reading::Value(c.longitude))
            },
            Err(ParseError::MissingLatitude) => text.len() == 0,
            Err(ParseError::BadLatitude) => is_reading(read, first, Reading::Bad),
            Err(ParseError::MissingLongitude) => {
                &&& exists|v: u64| is_reading(read, first, Reading::Value(v))
                &&& second is None
            },
            Err(ParseError::BadLongitude) => {
                &&& exists|v: u64| is_reading(read, first, Reading::Value(v))
                &&& is_reading(read, second, Reading::Bad)
            },
        }
    }

    /// `text` has both fields and `read` refuses neither: `read` takes the
    /// text for a pair of numbers.
    pub open spec fn is_pair<F: Fn(&str) -> Option<u64>>(read: F, text: Seq<char>) -> bool {
        &&& nth_field(text, 0) is Some
        &&& nth_field(text, 1) is Some
        &&& accepts(read, nth_field(text, 0).unwrap())
        &&& accepts(read, nth_field(text, 1).unwrap())
    }

    /// Reads `text` as a latitude and a longitude: its first two fields,
    /// each of which `read` must take for a number. Further fields are not
    /// looked at.
    pub fn parse<F: Fn(&str) -> Option<u64>>(text: &str, read: F) -> (r: Result<Coords, ParseError>)
        requires
            takes(read, nth_field(text@, 0)),
            takes(read, nth_field(text@, 1)),
        ensures
            Coords::is_parse(read, text@, r),
            Coords::is_pair(read, text@) ==> r is Ok,
    {
        let latitude = read_field(text, 0, &read);
        let longitude = read_field(text, 1, &read);
        Coords::from_readings(latitude, longitude)
    }

    /// A text of two segments that `read` takes for the numbers `a` and
    /// `b` is read as the point of `a` and `b`, exactly, whatever follows
    /// the second segment behind a further comma.
    pub proof fn lemma_parse_of_pair<F: Fn(&str) -> Option<u64>>(
        read: F,
        first: Seq<char>,
        second: Seq<char>,
        rest: Seq<char>,
        a: u64,
        b: u64,
        r: Result<Coords, ParseError>,
    )
        requires
            no_comma(first),
            no_comma(second),
            rest.len() > 0 ==> rest[0] == ',',
            single_valued(read),
            gives(read, trimmed(first), Some(a)),
            gives(read, trimmed(second), Some(b)),
            Coords::is_parse(read, first + seq![','] + second + rest, r),
        ensures
            r == Ok::<Coords, ParseError>((Coords { latitude: a, longitude: b })),
    {
        lemma_fields_of_two(first, second, rest);
    }

    /// A text without a comma is never read as a point: it has at most a
    /// latitude.
    pub proof fn lemma_parse_needs_comma<F: Fn(&str) -> Option<u64>>(
        read: F,
        text: Seq<char>,
        r: Result<Coords, ParseError>,
    )
        requires
            no_comma(text),
            Coords::is_parse(read, text, r),
        ensures
            r is Err,
            r != Err::<Coords, ParseError>(ParseError::BadLongitude),
    {
        if text.len() > 0 {
            lemma_fields_of_one(text);
        }
    }

    /// White space around the two fields, and whatever follows them behind
    /// a further comma, changes nothing: what may come of reading the
    /// padded text is what may come of reading the bare one.
    pub proof fn lemma_parse_ignores_padding<F: Fn(&str) -> Option<u64>>(
        read: F,
        first: Seq<char>,
        second: Seq<char>,
        pads: (Seq<char>, Seq<char>, Seq<char>, Seq<char>),
        rest: Seq<char>,
        r: Result<Coords, ParseError>,
    )
        requires
            no_comma(first),
            no_comma(second),
            all_space(pads.0),
            all_space(pads.1),
            all_space(pads.2),
            all_space(pads.3),
            rest.len() > 0 ==> rest[0] == ',',
        ensures
            Coords::is_parse(
                read,
                pads.0 + first + pads.1 + seq![','] + pads.2 + second + pads.3 + rest,
                r,
            ) == Coords::is_parse(read, first + seq![','] + second, r),
    {
        lemma_fields_ignore_padding(first, second, pads, rest);
    }

    /// With a reader that answers one thing for one field, a text has one
    /// result.
    pub proof fn lemma_parse_is_single_valued<F: Fn(&str) -> Option<u64>>(
        read: F,
        text: Seq<char>,
        r1: Result<Coords, ParseError>,
        r2: Result<Coords, ParseError>,
    )
        requires
            single_valued(read),
            Coords::is_parse(read, text, r1),
            Coords::is_parse(read, text, r2),
        ensures
            r1 == r2,
    {
    }
}

} // verus!

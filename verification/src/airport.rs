//! The airport record, and how one is made from a record whose coordinates
//! are still text.

use crate::coords::{takes, Coords, ParseError};
use crate::text::nth_field;
use vstd::prelude::*;

verus! {

/// What a record holds, with `C` for the form its coordinates are in.
pub struct RecordView<C> {
    pub ident: Seq<char>,
    pub kind: Seq<char>,
    pub name: Seq<char>,
    pub elevation_ft: i32,
    pub continent: Seq<char>,
    pub iso_country: Seq<char>,
    pub iso_region: Seq<char>,
    pub municipality: Seq<char>,
    pub gps_code: Seq<char>,
    pub iata_code: Seq<char>,
    pub local_code: Seq<char>,
    pub coordinates: C,
}

impl<C> RecordView<C> {
    /// The same record with `coordinates` in place of its own.
    pub open spec fn with_coordinates<D>(self, coordinates: D) -> RecordView<D> {
        RecordView {
            ident: self.ident,
            kind: self.kind,
            name: self.name,
            elevation_ft: self.elevation_ft,
            continent: self.continent,
            iso_country: self.iso_country,
            iso_region: self.iso_region,
            municipality: self.municipality,
            gps_code: self.gps_code,
            iata_code: self.iata_code,
            local_code: self.local_code,
            coordinates,
        }
    }
}

/// One airport: what identifies and classifies it, where it is
/// administered, and where it lies.
#[derive(Debug)]
pub struct Airport {
    pub ident: String,
    pub kind: String,
    pub name: String,
    pub elevation_ft: i32,
    pub continent: String,
    pub iso_country: String,
    pub iso_region: String,
    pub municipality: String,
    pub gps_code: String,
    pub iata_code: String,
    pub local_code: String,
    pub coordinates: Coords,
}

impl View for Airport {
    type V = RecordView<Coords>;

    open spec fn view(&self) -> RecordView<Coords> {
        RecordView {
            ident: self.ident@,
            kind: self.kind@,
            name: self.name@,
            elevation_ft: self.elevation_ft,
            continent: self.continent@,
            iso_country: self.iso_country@,
            iso_region: self.iso_region@,
            municipality: self.municipality@,
            gps_code: self.gps_code@,
            iata_code: self.iata_code@,
            local_code: self.local_code@,
            coordinates: self.coordinates,
        }
    }
}

impl Clone for Airport {
    /// A second airport with the same content.
    fn clone(&self) -> (copy: Airport)
        ensures
            copy@ == self@,
    {
        Airport {
            ident: self.ident.clone(),
            kind: self.kind.clone(),
            name: self.name.clone(),
            elevation_ft: self.elevation_ft,
            continent: self.continent.clone(),
            iso_country: self.iso_country.clone(),
            iso_region: self.iso_region.clone(),
            municipality: self.municipality.clone(),
            gps_code: self.gps_code.clone(),
            iata_code: self.iata_code.clone(),
            local_code: self.local_code.clone(),
            coordinates: self.coordinates,
        }
    }
}

/// An airport as it arrives: every field as in `Airport`, but the
/// coordinates, which are one text, `latitude, longitude`.
#[derive(Debug)]
pub struct AirportTemplate {
    pub ident: String,
    pub kind: String,
    pub name: String,
    pub elevation_ft: i32,
    pub continent: String,
    pub iso_country: String,
    pub iso_region: String,
    pub municipality: String,
    pub gps_code: String,
    pub iata_code: String,
    pub local_code: String,
    pub coordinates: String,
}

impl View for AirportTemplate {
    type V = RecordView<Seq<char>>;

    open spec fn view(&self) -> RecordView<Seq<char>> {
        RecordView {
            ident: self.ident@,
            kind: self.kind@,
            name: self.name@,
            elevation_ft: self.elevation_ft,
            continent: self.continent@,
            iso_country: self.iso_country@,
            iso_region: self.iso_region@,
            municipality: self.municipality@,
            gps_code: self.gps_code@,
            iata_code: self.iata_code@,
            local_code: self.local_code@,
            coordinates: self.coordinates@,
        }
    }
}

impl Clone for AirportTemplate {
    /// A second record with the same content.
    fn clone(&self) -> (copy: AirportTemplate)
        ensures
            copy@ == self@,
    {
        AirportTemplate {
            ident: self.ident.clone(),
            kind: self.kind.clone(),
            name: self.name.clone(),
            elevation_ft: self.elevation_ft,
            continent: self.continent.clone(),
            iso_country: self.iso_country.clone(),
            iso_region: self.iso_region.clone(),
            municipality: self.municipality.clone(),
            gps_code: self.gps_code.clone(),
            iata_code: self.iata_code.clone(),
            local_code: self.local_code.clone(),
            coordinates: self.coordinates.clone(),
        }
    }
}

impl AirportTemplate {
    /// The airport that this record describes, once its coordinates are
    /// known: every other field is handed over as it is.
    pub fn with_coordinates(self, coordinates: Coords) -> (airport: Airport)
        ensures
            airport@ == self@.with_coordinates(coordinates),
    {
        Airport {
            ident: self.ident,
            kind: self.kind,
            name: self.name,
            elevation_ft: self.elevation_ft,
            continent: self.continent,
            iso_country: self.iso_country,
            iso_region: self.iso_region,
            municipality: self.municipality,
            gps_code: self.gps_code,
            iata_code: self.iata_code,
            local_code: self.local_code,
            coordinates,
        }
    }
}

impl Airport {
    /// Makes the airport of a record whose coordinates are text, with
    /// `read` to tell which number a field of that text is. Either the
    /// whole airport comes out, or the error of the coordinates and
    /// nothing else.
    pub fn from_template<F: Fn(&str) -> Option<u64>>(template: AirportTemplate, read: F) -> (r:
        Result<Airport, ParseError>)
        requires
            takes(read, nth_field(template.coordinates@, 0)),
            takes(read, nth_field(template.coordinates@, 1)),
        ensures
            match r {
                Ok(airport) => {
                    &&& airport@ == template@.with_coordinates(airport.coordinates)
                    &&& Coords::is_parse(read, template.coordinates@, Ok(airport.coordinates))
                },
                Err(e) => Coords::is_parse(read, template.coordinates@, Err(e)),
            },
            Coords::is_pair(read, template.coordinates@) ==> r is Ok,
    {
        match Coords::parse(template.coordinates.as_str(), read) {
            Ok(coordinates) => Ok(template.with_coordinates(coordinates)),
            Err(e) => Err(e),
        }
    }
}

} // verus!

use astro::planet::{Planet, SeriesTableDirectory};
use astro::Error;

const ALL: [Planet; 8] = [
    Planet::Mercury,
    Planet::Venus,
    Planet::Earth,
    Planet::Mars,
    Planet::Jupiter,
    Planet::Saturn,
    Planet::Uranus,
    Planet::Neptune,
];

#[test]
fn every_planet_has_its_own_slot() {
    for (expected, planet) in ALL.iter().enumerate() {
        assert_eq!(planet.table_slot(), expected);
    }
}

#[test]
fn empty_directory_fails_every_lookup() {
    let directory = SeriesTableDirectory::new();
    for planet in ALL.iter() {
        assert_eq!(directory.lookup(*planet), Err(Error::Data));
    }
}

#[test]
fn bound_tables_are_found_and_others_still_fail() {
    let mut directory = SeriesTableDirectory::new();
    directory.bind(Planet::Mercury, 0);
    directory.bind(Planet::Neptune, 3);
    assert_eq!(directory.lookup(Planet::Mercury), Ok(0));
    assert_eq!(directory.lookup(Planet::Neptune), Ok(3));
    assert_eq!(directory.lookup(Planet::Earth), Err(Error::Data));
}

#[test]
fn rebinding_replaces_the_earlier_table() {
    let mut directory = SeriesTableDirectory::new();
    directory.bind(Planet::Mars, 1);
    directory.bind(Planet::Mars, 2);
    assert_eq!(directory.lookup(Planet::Mars), Ok(2));
}

use planet_editor::center_star::CenterStar;
use planet_editor::field::{FieldEditable, FieldError, NoFieldError};
use planet_editor::moon::Moon;
use planet_editor::number::Decimal;
use planet_editor::planet::Planet;
use planet_editor::planet_system::PlanetSystem;

fn dec(s: &str) -> Decimal {
    Decimal::parse(s).unwrap()
}

fn moon(name: &str) -> Moon {
    Moon {
        name: name.to_string(),
        mass: dec("7.342e22"),
        radius: dec("1737.4"),
        semi_major_axis: dec("384399"),
        eccentricity: dec("0.0549"),
        orbital_period: 27,
    }
}

fn earth() -> Planet {
    Planet {
        name: "Earth".to_string(),
        mass: dec("5.972e24"),
        radius: dec("6371"),
        semi_major_axis: dec("1.496e8"),
        eccentricity: dec("0.0167"),
        orbital_period: dec("365.25"),
        moons: vec![moon("Moon")],
    }
}

fn texts(p: &impl FieldEditable) -> Vec<(String, String)> {
    p.get_fields().into_iter().map(|f| (f.name.to_string(), f.value)).collect()
}

#[test]
fn planet_fields_in_order() {
    let fields = texts(&earth());
    let expected = vec![
        ("Name", "Earth"),
        ("Mass", "5.972e24"),
        ("Radius", "6.371e3"),
        ("Semi major axis", "1.496e8"),
        ("eccentricity", "1.67e-2"),
        ("orbital period", "3.6525e2"),
        ("Moon", "Moon"),
    ];
    let expected: Vec<(String, String)> =
        expected.into_iter().map(|(a, b)| (a.to_string(), b.to_string())).collect();
    assert_eq!(fields, expected);
}

#[test]
fn invalid_mass_is_refused_and_nothing_changes() {
    let mut p = earth();
    let before = texts(&p);
    let r = p.edit_field(1, "abc".to_string());
    match r {
        Err(FieldError::InvalidValue { field_index, raw_text }) => {
            assert_eq!(field_index, 1);
            assert_eq!(raw_text, "abc");
        }
        _ => panic!("expected InvalidValue"),
    }
    assert_eq!(texts(&p), before);
    assert_eq!(p.get_fields()[1].value, "5.972e24");
}

#[test]
fn every_numeric_planet_field_refuses_text_atomically() {
    for i in 1..6 {
        let mut p = earth();
        let before = texts(&p);
        assert!(p.edit_field(i, "12x".to_string()).is_err());
        assert_eq!(texts(&p), before);
    }
}

#[test]
fn no_such_field_is_reported() {
    let mut p = earth();
    let before = texts(&p);
    match p.edit_field(7, "x".to_string()) {
        Err(FieldError::NoSuchField(NoFieldError(i))) => assert_eq!(i, 7),
        _ => panic!("expected NoSuchField"),
    }
    assert_eq!(texts(&p), before);
    let e = FieldError::NoSuchField(NoFieldError(7));
    assert_eq!(e.message(), "No field with index = 7");
    let e = FieldError::InvalidValue { field_index: 1, raw_text: "abc".to_string() };
    assert_eq!(e.message(), "Invalid value for field 1: abc");
}

#[test]
fn displayed_value_written_back_displays_the_same() {
    let mut p = earth();
    p.edit_field(1, "0.000123".to_string()).unwrap();
    let shown = p.get_fields()[1].value.clone();
    assert_eq!(shown, "1.23e-4");
    p.edit_field(1, shown.clone()).unwrap();
    assert_eq!(p.get_fields()[1].value, shown);
    let mut m = moon("Io");
    m.edit_field(5, "+0042".to_string()).unwrap();
    let shown = m.get_fields()[5].value.clone();
    assert_eq!(shown, "42");
    m.edit_field(5, shown.clone()).unwrap();
    assert_eq!(m.get_fields()[5].value, shown);
}

#[test]
fn successful_edit_changes_exactly_one_field() {
    let mut p = earth();
    let before = texts(&p);
    p.edit_field(2, "6378.1".to_string()).unwrap();
    let after = texts(&p);
    for i in 0..before.len() {
        if i == 2 {
            assert_eq!(after[i].1, "6.3781e3");
        } else {
            assert_eq!(after[i], before[i]);
        }
    }
}

#[test]
fn planet_moon_entry_renames_the_moon() {
    let mut p = earth();
    p.edit_field(6, "Luna".to_string()).unwrap();
    assert_eq!(p.moons[0].name, "Luna");
    assert_eq!(p.get_fields()[6].value, "Luna");
}

#[test]
fn moon_period_takes_unsigned_integers_only() {
    let mut m = moon("Io");
    assert!(m.edit_field(5, "-1".to_string()).is_err());
    assert!(m.edit_field(5, "1.5".to_string()).is_err());
    assert!(m.edit_field(5, "4294967296".to_string()).is_err());
    assert_eq!(m.orbital_period, 27);
    m.edit_field(5, "4294967295".to_string()).unwrap();
    assert_eq!(m.get_fields()[5].value, "4294967295");
    m.edit_field(0, "Europa".to_string()).unwrap();
    assert_eq!(m.name, "Europa");
    assert!(m.edit_field(6, "x".to_string()).is_err());
}

#[test]
fn center_star_fields_and_edits() {
    let mut s = CenterStar::new();
    assert_eq!(
        texts(&s).into_iter().map(|f| f.1).collect::<Vec<_>>(),
        vec!["", "0e0", "0e0", "0e0"]
    );
    s.edit_field(0, "Sun".to_string()).unwrap();
    s.edit_field(3, "5772".to_string()).unwrap();
    assert_eq!(s.get_fields()[3].name, "effective_temperature");
    assert_eq!(s.get_fields()[3].value, "5.772e3");
    assert!(s.edit_field(4, "1".to_string()).is_err());
}

#[test]
fn system_fields_list_star_and_planets() {
    let mut sys = PlanetSystem::new();
    sys.name = "Sol".to_string();
    sys.center_star.name = "Sun".to_string();
    sys.planets.push(earth());
    let fields = texts(&sys);
    assert_eq!(fields.len(), 3);
    assert_eq!(fields[1], ("Center star".to_string(), "Sun".to_string()));
    assert_eq!(fields[2], ("Planet".to_string(), "Earth".to_string()));
    sys.edit_field(2, "Terra".to_string()).unwrap();
    assert_eq!(sys.planets[0].name, "Terra");
    sys.edit_field(1, "Sol star".to_string()).unwrap();
    assert_eq!(sys.center_star.name, "Sol star");
    assert!(matches!(
        sys.edit_field(3, "x".to_string()),
        Err(FieldError::NoSuchField(NoFieldError(3)))
    ));
}

#[test]
fn star_and_system_labels() {
    let s = CenterStar::new();
    let labels: Vec<String> = texts(&s).into_iter().map(|f| f.0).collect();
    assert_eq!(labels, vec!["name", "mass", "radius", "effective_temperature"]);
    let mut sys = PlanetSystem::new();
    sys.planets.push(earth());
    let labels: Vec<String> = texts(&sys).into_iter().map(|f| f.0).collect();
    assert_eq!(labels, vec!["name", "Center star", "Planet"]);
}

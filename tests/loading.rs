use planet_editor::loader::{split_cells, text_lt, LoadError, Types};
use planet_editor::planet_system::PlanetSystem;

fn lines(v: &[&str]) -> Vec<String> {
    v.iter().map(|s| s.to_string()).collect()
}

#[test]
fn cells_split_at_every_comma() {
    assert_eq!(split_cells("a,,b,"), lines(&["a", "", "b", ""]));
    assert_eq!(split_cells(""), lines(&[""]));
    assert_eq!(split_cells("one"), lines(&["one"]));
}

#[test]
fn single_system_table() {
    let table = lines(&[
        "name,mass,radius,sma,ecc,period,orbits,type,temp",
        "Sun,1.989e30,696340,0,0,0,,sun,5778",
        "",
        "Earth,5.97e24,6371,1.496e8,0.0167,365,Sun,planet,0",
        "Moon,7.35e22,1737,384400,0.0549,27,Earth,moon,0",
        "Mars,6.42e23,3390,2.279e8,0.0934,687,Sun,planet,0",
        "Phobos,1.06e16,11,9376,0.0151,x,Mars,moon,0",
        "Deimos,1.48e15,6,23463,0.0002,1,Mars,moon,0",
        "Ghost,1,1,1,1,1,Vulcan,moon,0",
    ]);
    let s = PlanetSystem::new_system_from_lines("Sol".to_string(), &table).unwrap();
    assert_eq!(s.name, "Sol");
    assert_eq!(s.center_star.name, "Sun");
    assert_eq!(s.center_star.effective_temperature.to_text(), "5.778e3");
    assert_eq!(s.planets.len(), 2);
    assert_eq!(s.planets[0].name, "Earth");
    assert_eq!(s.planets[0].moons.len(), 1);
    assert_eq!(s.planets[0].moons[0].name, "Moon");
    assert_eq!(s.planets[0].moons[0].orbital_period, 27);
    assert_eq!(s.planets[1].name, "Mars");
    let moons: Vec<&str> = s.planets[1].moons.iter().map(|m| m.name.as_str()).collect();
    assert_eq!(moons, vec!["Phobos", "Deimos"]);
    assert_eq!(s.planets[1].moons[0].orbital_period, 0);
}

#[test]
fn malformed_numbers_count_as_zero() {
    let table = lines(&["header", "Sun,heavy,big,0,0,0,,sun,hot"]);
    let s = PlanetSystem::new_system_from_lines("X".to_string(), &table).unwrap();
    assert_eq!(s.center_star.mass.to_text(), "0e0");
    assert_eq!(s.center_star.effective_temperature.to_text(), "0e0");
}

#[test]
fn header_only_gives_an_empty_system() {
    let s = PlanetSystem::new_system_from_lines("X".to_string(), &lines(&["a,b,c"])).unwrap();
    assert_eq!(s.center_star.name, "");
    assert!(s.planets.is_empty());
    let s = PlanetSystem::new_system_from_lines("X".to_string(), &vec![]).unwrap();
    assert!(s.planets.is_empty());
}

#[test]
fn rows_of_the_wrong_width_or_kind_are_errors() {
    let table = lines(&["h", "Sun,1,1,0,0,0,,sun,1", "a,b", "c,1,1,1,1,1,x,comet,0"]);
    match PlanetSystem::new_system_from_lines("X".to_string(), &table) {
        Err(LoadError::WrongColumnCount { line, found }) => {
            assert_eq!(line, 2);
            assert_eq!(found, 2);
        }
        _ => panic!("expected WrongColumnCount"),
    }
    let table = lines(&["h", "c,1,1,1,1,1,x,comet,0"]);
    let e = PlanetSystem::new_system_from_lines("X".to_string(), &table).err().unwrap();
    match &e {
        LoadError::UnknownKind { line, kind } => {
            assert_eq!(*line, 1);
            assert_eq!(kind, "comet");
        }
        _ => panic!("expected UnknownKind"),
    }
    assert_eq!(e.message(), "Line 1: unknown kind of body: comet");
    let e = LoadError::WrongColumnCount { line: 4, found: 3 };
    assert_eq!(e.message(), "Line 4: wrong number of cells: 3");
}

#[test]
fn row_kinds() {
    let cells = lines(&["Io", "8.9e22", "1821", "421700", "0.0041", "2", "Jupiter", "moon", "0"]);
    match Types::from_cells(&cells) {
        Some(Types::Moon(m, parent)) => {
            assert_eq!(m.name, "Io");
            assert_eq!(m.orbital_period, 2);
            assert_eq!(parent, "Jupiter");
        }
        _ => panic!("expected a moon"),
    }
    let cells = lines(&["x", "1", "1", "1", "1", "1", "y", "asteroid", "0"]);
    assert!(Types::from_cells(&cells).is_none());
}

#[test]
fn table_of_several_systems_is_grouped_and_sorted() {
    let table = lines(&[
        "system,n,star,mass,radius,temp,n,planet,mass,radius,sma,ecc,period,n",
        "Sol,1,Sun,2e30,7e5,5778,x,Earth,6e24,6371,1.5e8,0.0167,365,x",
        "Alpha,1,Rigil,2.2e30,8.5e5,5790,x,Ab,1,1,1,0,1,x",
        "",
        "Sol,1,Other,1,1,1,x,Mars,6.4e23,3390,2.3e8,0.09,687,x",
        "Beta,1,B,1,1,1,x,Bb,1,1,1,0,1,x",
    ]);
    let v = PlanetSystem::new_systems_from_lines(&table).unwrap();
    let names: Vec<&str> = v.iter().map(|s| s.name.as_str()).collect();
    assert_eq!(names, vec!["Alpha", "Beta", "Sol"]);
    let sol = &v[2];
    assert_eq!(sol.center_star.name, "Sun");
    assert_eq!(sol.center_star.mass.to_text(), "2e30");
    let planets: Vec<&str> = sol.planets.iter().map(|p| p.name.as_str()).collect();
    assert_eq!(planets, vec!["Earth", "Mars"]);
    assert_eq!(sol.planets[1].orbital_period.to_text(), "6.87e2");
}

#[test]
fn table_row_of_the_wrong_width_is_an_error() {
    let table = lines(&["h", "Sol,1,Sun,2e30,7e5,5778,x,Earth,6e24,6371,1.5e8,0.0167,365,x", "Sol,1"]);
    match PlanetSystem::new_systems_from_lines(&table) {
        Err(LoadError::WrongColumnCount { line, found }) => {
            assert_eq!(line, 2);
            assert_eq!(found, 2);
        }
        _ => panic!("expected WrongColumnCount"),
    }
}

#[test]
fn names_compare_lexicographically() {
    let s = |x: &str| x.to_string();
    assert!(text_lt(&s("Alpha"), &s("Beta")));
    assert!(text_lt(&s("Sol"), &s("Sola")));
    assert!(!text_lt(&s("Sol"), &s("Sol")));
    assert!(text_lt(&s("Zeta"), &s("alpha")));
    assert!(!text_lt(&s("b"), &s("a")));
}

use planet_editor::editor::App;
use planet_editor::field::FieldError;
use planet_editor::find::filter_names;
use planet_editor::list::{StatefulList, TabsState};
use planet_editor::number::Decimal;
use planet_editor::planet::Planet;
use planet_editor::planet_system::PlanetSystem;
use planet_editor::states::{InputMode, PopupMode};

fn system(name: &str, planets: &[&str]) -> PlanetSystem {
    let mut s = PlanetSystem::new();
    s.name = name.to_string();
    s.center_star.name = format!("{name} A");
    for p in planets {
        s.planets.push(Planet {
            name: p.to_string(),
            mass: Decimal::parse("1").unwrap(),
            radius: Decimal::parse("2").unwrap(),
            semi_major_axis: Decimal::parse("3").unwrap(),
            eccentricity: Decimal::parse("0.1").unwrap(),
            orbital_period: Decimal::parse("365").unwrap(),
            moons: vec![],
        });
    }
    s
}

fn app() -> App {
    App::new(
        "Planet system".to_string(),
        true,
        vec![
            system("Sol", &["Mercury", "Venus"]),
            system("Alpha Centauri", &["Proxima b"]),
            system("Proxima", &[]),
        ],
    )
}

fn strings(v: &[&str]) -> Vec<String> {
    v.iter().map(|s| s.to_string()).collect()
}

fn sel(l: &StatefulList) -> Option<usize> {
    l.state.selected()
}

#[test]
fn next_wraps_from_last_to_first() {
    for n in 1..6 {
        let mut l = StatefulList::new_with_items(vec!["x".to_string(); n]);
        for _ in 0..n - 1 {
            l.next();
        }
        assert_eq!(sel(&l), Some(n - 1));
        l.next();
        assert_eq!(sel(&l), Some(0));
        l.previous();
        assert_eq!(sel(&l), Some(n - 1));
    }
}

#[test]
fn empty_list_has_no_selection() {
    let mut l = StatefulList::new_with_items(vec![]);
    assert_eq!(sel(&l), None);
    l.next();
    assert_eq!(sel(&l), None);
    l.previous();
    assert_eq!(sel(&l), None);
}

#[test]
fn tabs_wrap_both_ways() {
    let mut t = TabsState::new(strings(&["a", "b", "c"]));
    t.previous();
    assert_eq!(t.index, 2);
    t.next();
    assert_eq!(t.index, 0);
    t.next();
    assert_eq!(t.index, 1);
}

#[test]
fn empty_query_keeps_everything_in_order() {
    let names = strings(&["Sol", "Alpha Centauri", "Proxima"]);
    let all = filter_names(&names, "");
    assert_eq!(all, vec![(0, "Sol".to_string()), (1, "Alpha Centauri".to_string()), (2, "Proxima".to_string())]);
    let kept: Vec<String> = filter_names(&names, "a").into_iter().map(|e| e.1).collect();
    assert_eq!(kept, strings(&["Alpha Centauri", "Proxima"]));
    let again: Vec<String> = filter_names(&kept, "a").into_iter().map(|e| e.1).collect();
    assert_eq!(again, kept);
    for (j, name) in filter_names(&kept, "ur") {
        assert_eq!(kept[j], name);
        assert!(all.iter().any(|e| e.1 == name));
    }
}

#[test]
fn find_is_case_sensitive() {
    let names = strings(&["Sol", "Alpha Centauri", "Proxima"]);
    assert_eq!(filter_names(&names, "Pro"), vec![(2, "Proxima".to_string())]);
    assert_eq!(filter_names(&names, "pro"), vec![]);
    assert_eq!(filter_names(&names, "xyz"), vec![]);
}

#[test]
fn find_then_enter_opens_the_match() {
    let mut a = app();
    a.on_key('f').unwrap();
    assert_eq!(a.popup_state, PopupMode::Find);
    assert_eq!(a.input_mode, InputMode::Editing);
    assert_eq!(a.find_list.items.len(), 3);
    for c in "Pro".chars() {
        a.on_key(c).unwrap();
    }
    assert_eq!(a.find_list.items, strings(&["Proxima"]));
    a.on_key('\n').unwrap();
    assert_eq!(a.popup_state, PopupMode::PlanetSystem);
    assert_eq!(a.input_mode, InputMode::Normal);
    assert_eq!(a.input, "");
    assert_eq!(sel(&a.planet_systems_list), Some(2));
    assert_eq!(a.edit_list.items[0], "name: Proxima");
}

#[test]
fn find_without_match_stays_open() {
    let mut a = app();
    a.on_key('f').unwrap();
    a.on_key('z').unwrap();
    assert!(a.find_list.items.is_empty());
    a.on_key('\n').unwrap();
    assert_eq!(a.popup_state, PopupMode::Find);
    a.on_backspace();
    assert_eq!(a.find_list.items.len(), 3);
}

#[test]
fn enter_then_escape_returns_to_the_list() {
    let mut a = app();
    a.on_down();
    assert_eq!(sel(&a.planet_systems_list), Some(1));
    a.on_key('\n').unwrap();
    assert_eq!(a.popup_state, PopupMode::PlanetSystem);
    assert_eq!(a.edit_list.items, strings(&["name: Alpha Centauri", "Center star: Alpha Centauri A", "Planet: Proxima b"]));
    a.on_esc();
    assert_eq!(a.popup_state, PopupMode::Hide);
    assert_eq!(a.input_mode, InputMode::Normal);
    assert_eq!(sel(&a.planet_systems_list), Some(1));
}

#[test]
fn q_quits_and_freezes_everything() {
    let mut a = app();
    a.on_key('\n').unwrap();
    a.on_key('q').unwrap();
    assert!(a.should_quit);
    a.on_down();
    a.on_esc();
    a.on_key('\n').unwrap();
    a.on_right();
    a.on_backspace();
    a.on_tick();
    assert_eq!(a.popup_state, PopupMode::PlanetSystem);
    assert_eq!(sel(&a.edit_list), Some(0));
    assert_eq!(a.tabs.index, 0);
}

#[test]
fn q_while_typing_is_text() {
    let mut a = app();
    a.on_key('\n').unwrap();
    a.on_key('\n').unwrap();
    assert_eq!(a.input_mode, InputMode::Editing);
    a.on_key('q').unwrap();
    assert!(!a.should_quit);
    assert_eq!(a.input, "q");
}

#[test]
fn renaming_a_system_updates_every_view_of_it() {
    let mut a = app();
    a.on_key('\n').unwrap();
    a.on_key('\n').unwrap();
    for c in "Home".chars() {
        a.on_key(c).unwrap();
    }
    a.on_backspace();
    a.on_key('\n').unwrap();
    assert_eq!(a.planet_systems[0].name, "Hom");
    assert_eq!(a.planet_systems_list.items[0], "Hom");
    assert_eq!(a.edit_list.items[0], "name: Hom");
    assert_eq!(a.input_mode, InputMode::Normal);
    assert_eq!(a.input, "");
}

#[test]
fn refused_planet_edit_keeps_state_and_text() {
    let mut a = app();
    a.on_key('\n').unwrap();
    a.on_down();
    a.on_down();
    a.on_key('\n').unwrap();
    assert_eq!(a.popup_state, PopupMode::Planet);
    assert_eq!(a.planet_index, 0);
    a.on_down();
    a.on_key('\n').unwrap();
    for c in "abc".chars() {
        a.on_key(c).unwrap();
    }
    match a.on_key('\n') {
        Err(FieldError::InvalidValue { field_index, raw_text }) => {
            assert_eq!(field_index, 1);
            assert_eq!(raw_text, "abc");
        }
        _ => panic!("expected InvalidValue"),
    }
    assert_eq!(a.input_mode, InputMode::Editing);
    assert_eq!(a.input, "abc");
    assert_eq!(a.detail_list.items[1], "Mass: 1e0");
    a.on_esc();
    assert_eq!(a.input, "");
    assert_eq!(a.input_mode, InputMode::Normal);
    a.on_key('\n').unwrap();
    for c in "2.5e3".chars() {
        a.on_key(c).unwrap();
    }
    a.on_key('\n').unwrap();
    assert_eq!(a.detail_list.items[1], "Mass: 2.5e3");
    assert_eq!(a.planet_systems[0].planets[0].mass.to_text(), "2.5e3");
    a.on_key('c').unwrap();
    assert_eq!(a.popup_state, PopupMode::PlanetSystem);
    assert_eq!(sel(&a.edit_list), Some(2));
}

#[test]
fn center_star_popup_edits_the_star() {
    let mut a = app();
    a.on_key('\n').unwrap();
    a.on_down();
    a.on_key('\n').unwrap();
    assert_eq!(a.popup_state, PopupMode::CenterStar);
    a.on_up();
    a.on_key('\n').unwrap();
    for c in "7e3".chars() {
        a.on_key(c).unwrap();
    }
    a.on_key('\n').unwrap();
    assert_eq!(a.planet_systems[0].center_star.effective_temperature.to_text(), "7e3");
    assert_eq!(a.detail_list.items[3], "effective_temperature: 7e3");
}

#[test]
fn up_wraps_on_the_top_level_list() {
    let mut a = app();
    a.on_up();
    assert_eq!(sel(&a.planet_systems_list), Some(2));
    a.on_down();
    assert_eq!(sel(&a.planet_systems_list), Some(0));
    a.on_left();
    assert_eq!(a.tabs.index, 2);
}

#[test]
fn enter_on_empty_collection_does_nothing() {
    let mut a = App::new("t".to_string(), false, vec![]);
    a.on_key('\n').unwrap();
    assert_eq!(a.popup_state, PopupMode::Hide);
    a.on_down();
    assert_eq!(sel(&a.planet_systems_list), None);
}

#[test]
fn arrows_wrap_in_the_system_popup() {
    let mut a = app();
    a.on_key('\n').unwrap();
    assert_eq!(a.edit_list.items.len(), 4);
    a.on_up();
    assert_eq!(sel(&a.edit_list), Some(3));
    a.on_down();
    assert_eq!(sel(&a.edit_list), Some(0));
    assert_eq!(sel(&a.planet_systems_list), Some(0));
    assert_eq!(a.popup_state, PopupMode::PlanetSystem);
    assert_eq!(a.title, "Planet system");
    assert!(a.enhanced_graphics);
}

#[test]
fn new_editor_lists_every_system_for_find() {
    let a = app();
    assert_eq!(a.find_list.items, strings(&["Sol", "Alpha Centauri", "Proxima"]));
    assert_eq!(sel(&a.find_list), Some(0));
    assert_eq!(a.tabs.titles, strings(&["Planet systems", "Load", "Save"]));
    let e = App::new("t".to_string(), false, vec![]);
    assert!(e.find_list.items.is_empty());
    assert_eq!(sel(&e.find_list), None);
}

use vstd::prelude::*;
use crate::center_star::{CenterStar, CenterStarView};
use crate::field::{field_views, is_invalid_value, is_no_such_field, Field, FieldEditable, FieldError};
use crate::find::{entry_names, entry_views, filter_names, filter_spec, lemma_filter_entries, string_views};
use crate::list::{
    cursor_of, first_sel, sel_fits, sel_next, sel_previous, wrap_next, wrap_previous, StatefulList,
    TabsState,
};
use crate::planet::{Planet, PlanetView};
use crate::planet_system::{planet_system_valid, PlanetSystem, PlanetSystemView};
use crate::states::{InputMode, PopupMode};
use crate::text::{pop_char, push_char};

verus! {

/// What the editor's behaviour depends on: the data, the selections, the
/// open popup and the text being typed.
pub ghost struct AppView {
    pub should_quit: bool,
    pub tab: int,
    pub tab_count: int,
    pub systems: Seq<PlanetSystemView>,
    pub system_sel: Option<usize>,
    pub input_mode: InputMode,
    pub input: Seq<char>,
    pub popup: PopupMode,
    pub edit_sel: Option<usize>,
    pub detail_sel: Option<usize>,
    pub planet_index: int,
    pub find_sel: Option<usize>,
}

/// The names of the systems, in order.
pub open spec fn system_names(systems: Seq<PlanetSystemView>) -> Seq<Seq<char>> {
    systems.map_values(|p: PlanetSystemView| p.name)
}

/// The line that shows a field: `<label>: <value>`.
pub open spec fn field_line(f: (Seq<char>, Seq<char>)) -> Seq<char> {
    f.0 + ": "@ + f.1
}

/// The lines that show a list of fields.
pub open spec fn field_lines(fs: Seq<(Seq<char>, Seq<char>)>) -> Seq<Seq<char>> {
    fs.map_values(|f: (Seq<char>, Seq<char>)| field_line(f))
}

pub open spec fn system_fields(v: PlanetSystemView) -> Seq<(Seq<char>, Seq<char>)> {
    <PlanetSystem as FieldEditable>::field_list(v)
}

pub open spec fn star_fields(v: CenterStarView) -> Seq<(Seq<char>, Seq<char>)> {
    <CenterStar as FieldEditable>::field_list(v)
}

pub open spec fn planet_fields(v: PlanetView) -> Seq<(Seq<char>, Seq<char>)> {
    <Planet as FieldEditable>::field_list(v)
}

/// The system that the top-level selection points at.
pub open spec fn cur_system(s: AppView) -> PlanetSystemView {
    s.systems[cursor_of(s.system_sel)]
}

/// Whether the popup shows the fields of a system, its star or a planet.
pub open spec fn in_edit_popup(p: PopupMode) -> bool {
    p == PopupMode::PlanetSystem || p == PopupMode::CenterStar || p == PopupMode::Planet
}

/// The fields shown one level below the system: its star's or a planet's.
pub open spec fn detail_fields(s: AppView) -> Seq<(Seq<char>, Seq<char>)> {
    if s.popup == PopupMode::CenterStar {
        star_fields(cur_system(s).center_star)
    } else {
        planet_fields(cur_system(s).planets[s.planet_index])
    }
}

/// The systems that the find popup lists for the text typed so far.
pub open spec fn found(s: AppView) -> Seq<(int, Seq<char>)> {
    filter_spec(system_names(s.systems), s.input)
}

/// The consistency that every reachable state has.
pub open spec fn view_wf(s: AppView) -> bool {
    &&& forall|k: int| 0 <= k < s.systems.len() ==> planet_system_valid(#[trigger] s.systems[k])
    &&& sel_fits(s.system_sel, s.systems.len() as int)
    &&& 0 <= s.tab < s.tab_count
    &&& s.popup == PopupMode::Hide ==> s.input_mode == InputMode::Normal
    &&& in_edit_popup(s.popup) ==> cursor_of(s.system_sel) < s.systems.len() && sel_fits(
        s.edit_sel,
        system_fields(cur_system(s)).len() as int,
    )
    &&& s.popup == PopupMode::Planet ==> 0 <= s.planet_index < cur_system(s).planets.len()
    &&& (s.popup == PopupMode::CenterStar || s.popup == PopupMode::Planet) ==> sel_fits(
        s.detail_sel,
        detail_fields(s).len() as int,
    )
    &&& s.popup == PopupMode::Find ==> sel_fits(s.find_sel, found(s).len() as int)
}

/// Moves the selection of the list in front, down or up. Typing in an edit
/// popup holds the list still; the find popup's list moves while typing.
pub open spec fn move_step(s: AppView, down: bool) -> AppView {
    if s.should_quit || (s.input_mode == InputMode::Editing && s.popup != PopupMode::Find) {
        s
    } else {
        let mv = |sel: Option<usize>, n: int|
            if down {
                sel_next(sel, n)
            } else {
                sel_previous(sel, n)
            };
        match s.popup {
            PopupMode::Hide => AppView { system_sel: mv(s.system_sel, s.systems.len() as int), ..s },
            PopupMode::PlanetSystem => AppView {
                edit_sel: mv(s.edit_sel, system_fields(cur_system(s)).len() as int),
                ..s
            },
            PopupMode::Find => AppView { find_sel: mv(s.find_sel, found(s).len() as int), ..s },
            _ => AppView { detail_sel: mv(s.detail_sel, detail_fields(s).len() as int), ..s },
        }
    }
}

/// Shows the next (`forward`) or previous tab.
pub open spec fn tab_step(s: AppView, forward: bool) -> AppView {
    if s.should_quit {
        s
    } else if forward {
        AppView { tab: wrap_next(s.tab, s.tab_count), ..s }
    } else {
        AppView { tab: wrap_previous(s.tab, s.tab_count), ..s }
    }
}

/// Escape: drops the text being typed, or closes the popup in front.
pub open spec fn esc_step(s: AppView) -> AppView {
    if s.should_quit {
        s
    } else if s.input_mode == InputMode::Editing {
        let t = AppView { input_mode: InputMode::Normal, input: Seq::empty(), ..s };
        if s.popup == PopupMode::Find {
            AppView { find_sel: first_sel(found(t).len() as int), ..t }
        } else {
            t
        }
    } else {
        match s.popup {
            PopupMode::Hide => s,
            PopupMode::CenterStar => AppView { popup: PopupMode::PlanetSystem, ..s },
            PopupMode::Planet => AppView { popup: PopupMode::PlanetSystem, ..s },
            _ => AppView { popup: PopupMode::Hide, ..s },
        }
    }
}

/// Backspace: removes the last typed character.
pub open spec fn backspace_step(s: AppView) -> AppView {
    if s.should_quit || s.input_mode == InputMode::Normal {
        s
    } else {
        let t = AppView {
            input: if s.input.len() > 0 { s.input.drop_last() } else { s.input },
            ..s
        };
        if s.popup == PopupMode::Find {
            AppView { find_sel: first_sel(found(t).len() as int), ..t }
        } else {
            t
        }
    }
}

/// Starts typing a new value for the selected field.
pub open spec fn start_edit(s: AppView) -> AppView {
    AppView { input_mode: InputMode::Editing, input: Seq::empty(), ..s }
}

/// Opens the find popup with an empty query.
pub open spec fn open_find(s: AppView) -> AppView {
    let t = AppView {
        popup: PopupMode::Find,
        input_mode: InputMode::Editing,
        input: Seq::empty(),
        ..s
    };
    AppView { find_sel: first_sel(found(t).len() as int), ..t }
}

/// Commits the find popup: the selected match becomes the top-level
/// selection and its system opens; nothing happens when nothing matches.
pub open spec fn commit_find(s: AppView) -> AppView {
    let f = found(s);
    if f.len() == 0 {
        s
    } else {
        AppView {
            system_sel: Some(f[cursor_of(s.find_sel)].0 as usize),
            popup: PopupMode::PlanetSystem,
            input_mode: InputMode::Normal,
            input: Seq::empty(),
            edit_sel: Some(0),
            ..s
        }
    }
}

/// Enter on a field of the system: edit its name, or open the star or the planet.
pub open spec fn open_entry(s: AppView) -> AppView {
    let e = cursor_of(s.edit_sel);
    if e == 0 {
        start_edit(s)
    } else if e == 1 {
        AppView { popup: PopupMode::CenterStar, detail_sel: Some(0), ..s }
    } else {
        AppView { popup: PopupMode::Planet, planet_index: e - 2, detail_sel: Some(0), ..s }
    }
}

/// Whether the key commits typed text to a field.
pub open spec fn is_field_commit(s: AppView, c: char) -> bool {
    !s.should_quit && s.input_mode == InputMode::Editing && c == '\n' && in_edit_popup(s.popup)
}

/// The index of the field that a commit writes.
pub open spec fn edit_index(s: AppView) -> int {
    if s.popup == PopupMode::PlanetSystem {
        cursor_of(s.edit_sel)
    } else {
        cursor_of(s.detail_sel)
    }
}

/// The number of fields of the entity that an edit popup shows: the
/// system, its star, or its planet `k`.
pub open spec fn target_count(sys: PlanetSystemView, popup: PopupMode, k: int) -> int {
    if popup == PopupMode::PlanetSystem {
        system_fields(sys).len() as int
    } else if popup == PopupMode::CenterStar {
        star_fields(sys.center_star).len() as int
    } else {
        planet_fields(sys.planets[k]).len() as int
    }
}

/// The system once field `i` of the entity that the popup shows holds
/// `text`; `None` when there is no such field or `text` does not parse for it.
pub open spec fn edit_in(sys: PlanetSystemView, popup: PopupMode, i: int, k: int, text: Seq<char>) -> Option<
    PlanetSystemView,
> {
    if !(0 <= i < target_count(sys, popup, k)) {
        None
    } else if popup == PopupMode::PlanetSystem {
        <PlanetSystem as FieldEditable>::with_field(sys, i, text)
    } else if popup == PopupMode::CenterStar {
        match <CenterStar as FieldEditable>::with_field(sys.center_star, i, text) {
            Some(st) => Some(PlanetSystemView { center_star: st, ..sys }),
            None => None,
        }
    } else {
        match <Planet as FieldEditable>::with_field(sys.planets[k], i, text) {
            Some(p) => Some(PlanetSystemView { planets: sys.planets.update(k, p), ..sys }),
            None => None,
        }
    }
}

/// The number of fields of the entity that a commit writes.
pub open spec fn edit_count(s: AppView) -> int {
    target_count(cur_system(s), s.popup, s.planet_index)
}

/// The selected system once the typed text is written to the selected field;
/// `None` when the field does not exist or the text does not parse for it.
pub open spec fn edited_system(s: AppView) -> Option<PlanetSystemView> {
    edit_in(cur_system(s), s.popup, edit_index(s), s.planet_index, s.input)
}

/// Commits typed text to the selected field. A refused value changes nothing:
/// the text stays, ready to be corrected.
pub open spec fn commit_edit(s: AppView) -> AppView {
    match edited_system(s) {
        Some(w) => AppView {
            systems: s.systems.update(cursor_of(s.system_sel), w),
            input_mode: InputMode::Normal,
            input: Seq::empty(),
            ..s
        },
        None => s,
    }
}

/// A character key.
pub open spec fn key_step(s: AppView, c: char) -> AppView {
    if s.should_quit {
        s
    } else if s.input_mode == InputMode::Normal {
        if c == 'q' {
            AppView { should_quit: true, ..s }
        } else if c == 'c' {
            esc_step(s)
        } else if c == 'f' && s.popup == PopupMode::Hide {
            open_find(s)
        } else if c == '\n' {
            match s.popup {
                PopupMode::Hide => if s.systems.len() > 0 {
                    AppView { popup: PopupMode::PlanetSystem, edit_sel: Some(0), ..s }
                } else {
                    s
                },
                PopupMode::PlanetSystem => open_entry(s),
                PopupMode::Find => commit_find(s),
                _ => start_edit(s),
            }
        } else {
            s
        }
    } else if c == '\n' {
        if s.popup == PopupMode::Find {
            commit_find(s)
        } else {
            commit_edit(s)
        }
    } else {
        let t = AppView { input: s.input.push(c), ..s };
        if s.popup == PopupMode::Find {
            AppView { find_sel: first_sel(found(t).len() as int), ..t }
        } else {
            t
        }
    }
}

/// The number of entries of the list in front.
pub open spec fn frame_len(s: AppView) -> int {
    match s.popup {
        PopupMode::Hide => s.systems.len() as int,
        PopupMode::PlanetSystem => system_fields(cur_system(s)).len() as int,
        PopupMode::Find => found(s).len() as int,
        _ => detail_fields(s).len() as int,
    }
}

/// The selection of the list in front.
pub open spec fn frame_sel(s: AppView) -> Option<usize> {
    match s.popup {
        PopupMode::Hide => s.system_sel,
        PopupMode::PlanetSystem => s.edit_sel,
        PopupMode::Find => s.find_sel,
        _ => s.detail_sel,
    }
}

/// The arrow keys wrap around the list in front, at every depth: Down on
/// its last entry selects the first, Up on its first entry selects the last.
/// They act while the quit flag is clear and the keys are not being read as
/// text (an edit popup in typing mode holds its list still); the list, like
/// every list, has at most `usize::MAX` entries.
pub proof fn lemma_arrow_keys_wrap(s: AppView)
    requires
        view_wf(s),
        !s.should_quit,
        s.input_mode == InputMode::Normal || s.popup == PopupMode::Find,
        1 <= frame_len(s) <= usize::MAX,
    ensures
        frame_len(move_step(s, true)) == frame_len(s),
        frame_len(move_step(s, false)) == frame_len(s),
        frame_sel(s) is Some && frame_sel(s)->0 + 1 == frame_len(s) ==> frame_sel(move_step(s, true))
            == Some(0usize),
        frame_sel(s) == Some(0usize) ==> frame_sel(move_step(s, false)) is Some && frame_sel(
            move_step(s, false),
        )->0 + 1 == frame_len(s),
{
}

/// Enter on the top-level list followed by Escape comes back to the list
/// with the same selection, the same data and nothing typed.
pub proof fn lemma_enter_then_escape(s: AppView)
    requires
        view_wf(s),
        !s.should_quit,
        s.popup == PopupMode::Hide,
    ensures
        ({
            let t = esc_step(key_step(s, '\n'));
            &&& t.popup == PopupMode::Hide
            &&& t.input_mode == s.input_mode
            &&& t.input == s.input
            &&& t.system_sel == s.system_sel
            &&& t.systems == s.systems
            &&& t.should_quit == s.should_quit
        }),
{
}

/// `q` in normal mode sets the quit flag and nothing else; once it is set,
/// no key, arrow or tick changes anything.
pub proof fn lemma_quit(s: AppView, c: char)
    ensures
        !s.should_quit && s.input_mode == InputMode::Normal ==> key_step(s, 'q') == (AppView {
            should_quit: true,
            ..s
        }),
        s.should_quit ==> key_step(s, c) == s && move_step(s, true) == s && move_step(s, false) == s
            && esc_step(s) == s && backspace_step(s) == s && tab_step(s, true) == s && tab_step(
            s,
            false,
        ) == s,
{
}

/// A commit whose text is refused leaves the whole state as it was: the
/// data, the open popups, the selections and the typed text.
pub proof fn lemma_refused_edit_changes_nothing(s: AppView, c: char)
    requires
        is_field_commit(s, c),
        edited_system(s) is None,
    ensures
        key_step(s, c) == s,
{
}

/// The names of the systems, as strings.
fn system_name_list(systems: &Vec<PlanetSystem>) -> (r: Vec<String>)
    ensures
        string_views(r@) == system_names(systems@.map_values(|p: PlanetSystem| p@)),
{
    let ghost want = system_names(systems@.map_values(|p: PlanetSystem| p@));
    let mut r: Vec<String> = Vec::new();
    let mut i: usize = 0;
    while i < systems.len()
        invariant
            i <= systems@.len(),
            want == system_names(systems@.map_values(|p: PlanetSystem| p@)),
            string_views(r@) =~= want.subrange(0, i as int),
        decreases systems@.len() - i,
    {
        let ghost before = r@;
        r.push(systems[i].name.clone());
        assert(want[i as int] == systems@[i as int].name@);
        assert(string_views(r@) =~= string_views(before).push(want[i as int]));
        assert(want.subrange(0, i + 1) =~= want.subrange(0, i as int).push(want[i as int]));
        i = i + 1;
        assert(string_views(r@) =~= want.subrange(0, i as int));
    }
    assert(want.subrange(0, i as int) =~= want);
    r
}

/// The line that shows one field.
fn field_line_of(f: &Field) -> (r: String)
    ensures
        r@ == field_line((f.name@, f.value@)),
{
    let mut line = String::from_str(f.name);
    line.append(": ");
    line.append(f.value.as_str());
    line
}

/// The lines that show a list of fields.
fn field_line_list(fields: &Vec<Field>) -> (r: Vec<String>)
    ensures
        string_views(r@) == field_lines(field_views(fields@)),
{
    let ghost want = field_lines(field_views(fields@));
    let mut r: Vec<String> = Vec::new();
    let mut i: usize = 0;
    while i < fields.len()
        invariant
            i <= fields@.len(),
            want == field_lines(field_views(fields@)),
            string_views(r@) =~= want.subrange(0, i as int),
        decreases fields@.len() - i,
    {
        let ghost before = r@;
        r.push(field_line_of(&fields[i]));
        assert(want[i as int] == field_line((fields@[i as int].name@, fields@[i as int].value@)));
        assert(string_views(r@) =~= string_views(before).push(want[i as int]));
        assert(want.subrange(0, i + 1) =~= want.subrange(0, i as int).push(want[i as int]));
        i = i + 1;
        assert(string_views(r@) =~= want.subrange(0, i as int));
    }
    assert(want.subrange(0, i as int) =~= want);
    r
}

/// The names of a list of find entries.
fn entry_name_list(entries: &Vec<(usize, String)>) -> (r: Vec<String>)
    ensures
        string_views(r@) == entry_names(entry_views(entries@)),
{
    let ghost want = entry_names(entry_views(entries@));
    let mut r: Vec<String> = Vec::new();
    let mut i: usize = 0;
    while i < entries.len()
        invariant
            i <= entries@.len(),
            want == entry_names(entry_views(entries@)),
            string_views(r@) =~= want.subrange(0, i as int),
        decreases entries@.len() - i,
    {
        let ghost before = r@;
        r.push(entries[i].1.clone());
        assert(want[i as int] == entries@[i as int].1@);
        assert(string_views(r@) =~= string_views(before).push(want[i as int]));
        assert(want.subrange(0, i + 1) =~= want.subrange(0, i as int).push(want[i as int]));
        i = i + 1;
        assert(string_views(r@) =~= want.subrange(0, i as int));
    }
    assert(want.subrange(0, i as int) =~= want);
    r
}

/// Writes `text` to field `i` of the entity of `ps` that `popup` shows:
/// the system itself, its star, or its planet `k`.
fn edit_in_system(ps: &mut PlanetSystem, popup: PopupMode, i: usize, k: usize, text: String) -> (r: Result<
    (),
    FieldError,
>)
    requires
        planet_system_valid(old(ps)@),
        in_edit_popup(popup),
        popup == PopupMode::Planet ==> k < old(ps)@.planets.len(),
    ensures
        planet_system_valid(final(ps)@),
        match edit_in(old(ps)@, popup, i as int, k as int, text@) {
            Some(w) => r is Ok && final(ps)@ == w,
            None => final(ps)@ == old(ps)@ && if i >= target_count(old(ps)@, popup, k as int) {
                is_no_such_field(r, i)
            } else {
                is_invalid_value(r, i, text@)
            },
        },
{
    if popup == PopupMode::PlanetSystem {
        ps.edit_field(i, text)
    } else if popup == PopupMode::CenterStar {
        ps.center_star.edit_field(i, text)
    } else {
        let ghost planets_before = ps.planets@;
        let ghost v0 = ps@;
        let mut p = ps.planets.remove(k);
        assert(p@ == v0.planets[k as int]);
        let r = p.edit_field(i, text);
        ps.planets.insert(k, p);
        assert(ps.planets@ =~= planets_before.update(k as int, p));
        assert(ps@.planets =~= v0.planets.update(k as int, p@));
        proof {
            if r is Err {
                assert(ps@.planets =~= v0.planets);
            }
        }
        r
    }
}

/// The editor: the star systems, one owned copy of each, and the state of
/// the lists and popups that browse and edit them.
pub struct App {
    pub title: String,
    pub should_quit: bool,
    pub tabs: TabsState,
    pub enhanced_graphics: bool,
    pub planet_systems: Vec<PlanetSystem>,
    /// The names of the systems; its selection is the system being browsed.
    pub planet_systems_list: StatefulList,
    pub input_mode: InputMode,
    pub input: String,
    pub popup_state: PopupMode,
    /// The field lines of the selected system.
    pub edit_list: StatefulList,
    /// The field lines of the selected system's star, or of one of its planets.
    pub detail_list: StatefulList,
    /// The planet whose fields `detail_list` shows.
    pub planet_index: usize,
    /// The names that match the find query.
    pub find_list: StatefulList,
}

impl View for App {
    type V = AppView;

    open spec fn view(&self) -> AppView {
        AppView {
            should_quit: self.should_quit,
            tab: self.tabs.index as int,
            tab_count: self.tabs.titles@.len() as int,
            systems: self.planet_systems@.map_values(|p: PlanetSystem| p@),
            system_sel: self.planet_systems_list.selection(),
            input_mode: self.input_mode,
            input: self.input@,
            popup: self.popup_state,
            edit_sel: self.edit_list.selection(),
            detail_sel: self.detail_list.selection(),
            planet_index: self.planet_index as int,
            find_sel: self.find_list.selection(),
        }
    }
}

/// The state in which the editor starts: the systems listed, the first one
/// selected, no popup, nothing typed.
pub open spec fn initial_view(systems: Seq<PlanetSystemView>) -> AppView {
    AppView {
        should_quit: false,
        tab: 0,
        tab_count: 3,
        systems,
        system_sel: first_sel(systems.len() as int),
        input_mode: InputMode::Normal,
        input: Seq::empty(),
        popup: PopupMode::Hide,
        edit_sel: None,
        detail_sel: None,
        planet_index: 0,
        find_sel: first_sel(systems.len() as int),
    }
}

impl App {
    /// The lists show exactly what the systems hold, and the state is consistent.
    pub open spec fn wf(&self) -> bool {
        &&& view_wf(self@)
        &&& string_views(self.planet_systems_list.items@) == system_names(self@.systems)
        &&& in_edit_popup(self.popup_state) ==> string_views(self.edit_list.items@) == field_lines(
            system_fields(cur_system(self@)),
        )
        &&& (self.popup_state == PopupMode::CenterStar || self.popup_state == PopupMode::Planet)
            ==> string_views(self.detail_list.items@) == field_lines(detail_fields(self@))
        &&& self.popup_state == PopupMode::Find ==> string_views(self.find_list.items@)
            == entry_names(found(self@))
    }

    /// Each shown list has one line per entry, so its selection lies inside it.
    proof fn lemma_lists_wf(&self)
        requires
            self.wf(),
        ensures
            self.planet_systems_list.items@.len() == self@.systems.len(),
            self.planet_systems_list.wf(),
            in_edit_popup(self.popup_state) ==> self.edit_list.items@.len() == system_fields(
                cur_system(self@),
            ).len() && self.edit_list.wf(),
            (self.popup_state == PopupMode::CenterStar || self.popup_state == PopupMode::Planet)
                ==> self.detail_list.items@.len() == detail_fields(self@).len()
                && self.detail_list.wf(),
            self.popup_state == PopupMode::Find ==> self.find_list.items@.len() == found(self@).len()
                && self.find_list.wf(),
    {
        assert(string_views(self.planet_systems_list.items@).len()
            == self.planet_systems_list.items@.len());
        assert(system_names(self@.systems).len() == self@.systems.len());
        assert(string_views(self.edit_list.items@).len() == self.edit_list.items@.len());
        assert(field_lines(system_fields(cur_system(self@))).len() == system_fields(
            cur_system(self@),
        ).len());
        assert(string_views(self.detail_list.items@).len() == self.detail_list.items@.len());
        assert(field_lines(detail_fields(self@)).len() == detail_fields(self@).len());
        assert(string_views(self.find_list.items@).len() == self.find_list.items@.len());
        assert(entry_names(found(self@)).len() == found(self@).len());
    }

    /// An editor over `planet_systems`, in its initial state.
    pub fn new(title: String, enhanced_graphics: bool, planet_systems: Vec<PlanetSystem>) -> (r: App)
        requires
            forall|k: int|
                0 <= k < planet_systems@.len() ==> planet_system_valid(#[trigger] planet_systems@[k]@),
        ensures
            r.wf(),
            r@ == initial_view(planet_systems@.map_values(|p: PlanetSystem| p@)),
            string_views(r.find_list.items@) == system_names(r@.systems),
            string_views(r.tabs.titles@) == seq!["Planet systems"@, "Load"@, "Save"@],
            r.title@ == title@,
            r.enhanced_graphics == enhanced_graphics,
    {
        let names = system_name_list(&planet_systems);
        let found_names = system_name_list(&planet_systems);
        let mut titles: Vec<String> = Vec::new();
        titles.push(String::from_str("Planet systems"));
        titles.push(String::from_str("Load"));
        titles.push(String::from_str("Save"));
        let app = App {
            title,
            should_quit: false,
            tabs: TabsState::new(titles),
            enhanced_graphics,
            planet_systems,
            planet_systems_list: StatefulList::new_with_items(names),
            input_mode: InputMode::Normal,
            input: String::new(),
            popup_state: PopupMode::Hide,
            edit_list: StatefulList::new_with_items(Vec::new()),
            detail_list: StatefulList::new_with_items(Vec::new()),
            planet_index: 0,
            find_list: StatefulList::new_with_items(found_names),
        };
        assert(app@.input =~= Seq::<char>::empty());
        assert(string_views(app.planet_systems_list.items@).len() == app.planet_systems_list.items@.len());
        assert(string_views(app.find_list.items@).len() == app.find_list.items@.len());
        assert(system_names(app@.systems).len() == app@.systems.len());
        assert(app@ == initial_view(app@.systems));
        app
    }

    /// Up arrow.
    pub fn on_up(&mut self)
        requires
            old(self).wf(),
        ensures
            final(self).wf(),
            final(self).title == old(self).title,
            final(self).enhanced_graphics == old(self).enhanced_graphics,
            final(self).tabs.titles == old(self).tabs.titles,
            old(self).should_quit ==> *final(self) == *old(self),
            final(self)@ == move_step(old(self)@, false),
    {
        if self.should_quit || (self.input_mode == InputMode::Editing && self.popup_state
            != PopupMode::Find) {
            return;
        }
        proof {
            self.lemma_lists_wf();
        }
        match self.popup_state {
            PopupMode::Hide => self.planet_systems_list.previous(),
            PopupMode::PlanetSystem => self.edit_list.previous(),
            PopupMode::Find => self.find_list.previous(),
            _ => self.detail_list.previous(),
        }
    }

    /// Down arrow.
    pub fn on_down(&mut self)
        requires
            old(self).wf(),
        ensures
            final(self).wf(),
            final(self).title == old(self).title,
            final(self).enhanced_graphics == old(self).enhanced_graphics,
            final(self).tabs.titles == old(self).tabs.titles,
            old(self).should_quit ==> *final(self) == *old(self),
            final(self)@ == move_step(old(self)@, true),
    {
        if self.should_quit || (self.input_mode == InputMode::Editing && self.popup_state
            != PopupMode::Find) {
            return;
        }
        proof {
            self.lemma_lists_wf();
        }
        match self.popup_state {
            PopupMode::Hide => self.planet_systems_list.next(),
            PopupMode::PlanetSystem => self.edit_list.next(),
            PopupMode::Find => self.find_list.next(),
            _ => self.detail_list.next(),
        }
    }

    /// Right arrow: the next tab.
    pub fn on_right(&mut self)
        requires
            old(self).wf(),
        ensures
            final(self).wf(),
            final(self).title == old(self).title,
            final(self).enhanced_graphics == old(self).enhanced_graphics,
            final(self).tabs.titles == old(self).tabs.titles,
            old(self).should_quit ==> *final(self) == *old(self),
            final(self)@ == tab_step(old(self)@, true),
    {
        if !self.should_quit {
            self.tabs.next();
        }
    }

    /// Left arrow: the previous tab.
    pub fn on_left(&mut self)
        requires
            old(self).wf(),
        ensures
            final(self).wf(),
            final(self).title == old(self).title,
            final(self).enhanced_graphics == old(self).enhanced_graphics,
            final(self).tabs.titles == old(self).tabs.titles,
            old(self).should_quit ==> *final(self) == *old(self),
            final(self)@ == tab_step(old(self)@, false),
    {
        if !self.should_quit {
            self.tabs.previous();
        }
    }

    /// A timer tick; nothing in the editor moves with time yet.
    pub fn on_tick(&mut self)
        requires
            old(self).wf(),
        ensures
            final(self).wf(),
            final(self).title == old(self).title,
            final(self).enhanced_graphics == old(self).enhanced_graphics,
            final(self).tabs.titles == old(self).tabs.titles,
            old(self).should_quit ==> *final(self) == *old(self),
            *final(self) == *old(self),
            final(self)@ == old(self)@,
    {
    }

    /// Lists the systems that match the typed text, the first one selected.
    fn show_found(&mut self)
        requires
            string_views(old(self).planet_systems_list.items@) == system_names(old(self)@.systems),
        ensures
            *final(self) == (App { find_list: final(self).find_list, ..*old(self) }),
            string_views(final(self).find_list.items@) == entry_names(found(old(self)@)),
            final(self).find_list.selection() == first_sel(found(old(self)@).len() as int),
    {
        let f = filter_names(&self.planet_systems_list.items, self.input.as_str());
        let names = entry_name_list(&f);
        assert(names@.len() == string_views(names@).len());
        self.find_list.reset_items(names);
    }

    /// Shows the fields of the selected system, the first one selected.
    fn show_system(&mut self)
        requires
            cursor_of(old(self).planet_systems_list.selection()) < old(self).planet_systems@.len(),
            planet_system_valid(old(self)@.systems[cursor_of(old(self)@.system_sel)]),
        ensures
            *final(self) == (App { edit_list: final(self).edit_list, ..*old(self) }),
            string_views(final(self).edit_list.items@) == field_lines(
                system_fields(cur_system(old(self)@)),
            ),
            final(self).edit_list.selection() == Some(0usize),
    {
        let sys = self.planet_systems_list.selected_index();
        let fields = self.planet_systems[sys].get_fields();
        let lines = field_line_list(&fields);
        assert(lines@.len() == string_views(lines@).len());
        self.edit_list.reset_items(lines);
    }

    /// Shows the fields of the selected system's star, the first one selected.
    fn show_star(&mut self)
        requires
            cursor_of(old(self).planet_systems_list.selection()) < old(self).planet_systems@.len(),
            planet_system_valid(old(self)@.systems[cursor_of(old(self)@.system_sel)]),
        ensures
            *final(self) == (App { detail_list: final(self).detail_list, ..*old(self) }),
            string_views(final(self).detail_list.items@) == field_lines(
                star_fields(cur_system(old(self)@).center_star),
            ),
            final(self).detail_list.selection() == Some(0usize),
    {
        let sys = self.planet_systems_list.selected_index();
        let fields = self.planet_systems[sys].center_star.get_fields();
        let lines = field_line_list(&fields);
        assert(lines@.len() == string_views(lines@).len());
        self.detail_list.reset_items(lines);
    }

    /// Shows the fields of planet `k` of the selected system, the first one selected.
    fn show_planet(&mut self, k: usize)
        requires
            cursor_of(old(self).planet_systems_list.selection()) < old(self).planet_systems@.len(),
            planet_system_valid(old(self)@.systems[cursor_of(old(self)@.system_sel)]),
            k < cur_system(old(self)@).planets.len(),
        ensures
            *final(self) == (App { detail_list: final(self).detail_list, ..*old(self) }),
            string_views(final(self).detail_list.items@) == field_lines(
                planet_fields(cur_system(old(self)@).planets[k as int]),
            ),
            final(self).detail_list.selection() == Some(0usize),
    {
        let sys = self.planet_systems_list.selected_index();
        assert(self@.systems[sys as int].planets[k as int] == self.planet_systems@[sys as int].planets@[k as int]@);
        let fields = self.planet_systems[sys].planets[k].get_fields();
        let lines = field_line_list(&fields);
        assert(lines@.len() == string_views(lines@).len());
        self.detail_list.reset_items(lines);
    }

    /// Escape.
    pub fn on_esc(&mut self)
        requires
            old(self).wf(),
        ensures
            final(self).wf(),
            final(self).title == old(self).title,
            final(self).enhanced_graphics == old(self).enhanced_graphics,
            final(self).tabs.titles == old(self).tabs.titles,
            old(self).should_quit ==> *final(self) == *old(self),
            old(self).input_mode == InputMode::Normal && old(self).popup_state == PopupMode::Hide
                ==> *final(self) == *old(self),
            final(self)@ == esc_step(old(self)@),
    {
        if self.should_quit {
            return;
        }
        if self.input_mode == InputMode::Editing {
            self.input_mode = InputMode::Normal;
            self.input = String::new();
            if self.popup_state == PopupMode::Find {
                self.show_found();
            }
            assert(self@.input =~= Seq::<char>::empty());
            return;
        }
        match self.popup_state {
            PopupMode::Hide => {},
            PopupMode::CenterStar => self.popup_state = PopupMode::PlanetSystem,
            PopupMode::Planet => self.popup_state = PopupMode::PlanetSystem,
            _ => self.popup_state = PopupMode::Hide,
        }
    }

    /// Backspace.
    pub fn on_backspace(&mut self)
        requires
            old(self).wf(),
        ensures
            final(self).wf(),
            final(self).title == old(self).title,
            final(self).enhanced_graphics == old(self).enhanced_graphics,
            final(self).tabs.titles == old(self).tabs.titles,
            old(self).should_quit ==> *final(self) == *old(self),
            final(self)@ == backspace_step(old(self)@),
    {
        if self.should_quit || self.input_mode == InputMode::Normal {
            return;
        }
        pop_char(&mut self.input);
        if self.popup_state == PopupMode::Find {
            self.show_found();
        }
    }

    /// Opens the system of the selected find match; nothing when nothing matches.
    fn finish_find(&mut self)
        requires
            old(self).wf(),
            old(self).popup_state == PopupMode::Find,
        ensures
            final(self).wf(),
            final(self).title == old(self).title,
            final(self).enhanced_graphics == old(self).enhanced_graphics,
            final(self).tabs.titles == old(self).tabs.titles,
            final(self)@ == commit_find(old(self)@),
    {
        let f = filter_names(&self.planet_systems_list.items, self.input.as_str());
        if f.len() == 0 {
            return;
        }
        proof {
            self.lemma_lists_wf();
            lemma_filter_entries(system_names(self@.systems), self@.input);
        }
        let k = self.find_list.selected_index();
        let idx = f[k].0;
        assert(entry_views(f@)[k as int] == found(self@)[k as int]);
        self.planet_systems_list.state.select(Some(idx));
        self.popup_state = PopupMode::PlanetSystem;
        self.input_mode = InputMode::Normal;
        self.input = String::new();
        self.show_system();
        assert(self@.input =~= Seq::<char>::empty());
    }

    /// Writes the typed text to the selected field of the entity in front.
    fn finish_edit(&mut self) -> (r: Result<(), FieldError>)
        requires
            old(self).wf(),
            is_field_commit(old(self)@, '\n'),
        ensures
            final(self).wf(),
            final(self).title == old(self).title,
            final(self).enhanced_graphics == old(self).enhanced_graphics,
            final(self).tabs.titles == old(self).tabs.titles,
            final(self)@ == commit_edit(old(self)@),
            edited_system(old(self)@) is None ==> if edit_index(old(self)@) >= edit_count(old(self)@) {
                is_no_such_field(r, edit_index(old(self)@) as usize)
            } else {
                is_invalid_value(r, edit_index(old(self)@) as usize, old(self)@.input)
            },
            edited_system(old(self)@) is Some ==> r is Ok,
    {
        proof {
            self.lemma_lists_wf();
        }
        let ghost s0 = self@;
        let sys = self.planet_systems_list.selected_index();
        let text = self.input.clone();
        let ghost before = self.planet_systems@;
        let mut ps = self.planet_systems.remove(sys);
        assert(ps@ == s0.systems[sys as int]);
        let i = if self.popup_state == PopupMode::PlanetSystem {
            self.edit_list.selected_index()
        } else {
            self.detail_list.selected_index()
        };
        let r = edit_in_system(&mut ps, self.popup_state, i, self.planet_index, text);
        self.planet_systems.insert(sys, ps);
        assert(self.planet_systems@ =~= before.update(sys as int, ps));
        assert(self@.systems =~= s0.systems.update(sys as int, ps@));
        match r {
            Ok(()) => {
                assert(edited_system(s0) == Some(ps@));
                self.input_mode = InputMode::Normal;
                self.input = String::new();
                let names = system_name_list(&self.planet_systems);
                self.planet_systems_list.items = names;
                let fields = self.planet_systems[sys].get_fields();
                self.edit_list.items = field_line_list(&fields);
                if self.popup_state == PopupMode::CenterStar {
                    let fields = self.planet_systems[sys].center_star.get_fields();
                    self.detail_list.items = field_line_list(&fields);
                } else if self.popup_state == PopupMode::Planet {
                    let pi = self.planet_index;
                    assert(self@.systems[sys as int].planets[pi as int]
                        == self.planet_systems@[sys as int].planets@[pi as int]@);
                    let fields = self.planet_systems[sys].planets[pi].get_fields();
                    self.detail_list.items = field_line_list(&fields);
                }
                assert(self@.input =~= Seq::<char>::empty());
                Ok(())
            },
            Err(e) => {
                assert(self@.systems =~= s0.systems);
                Err(e)
            },
        }
    }

    /// A character key. In normal mode `q` quits, `c` closes the popup in
    /// front, `f` opens the find popup and Enter opens or edits the selected
    /// entry; while typing, Enter commits and other characters join the
    /// input. A refused edit is returned and changes nothing.
    pub fn on_key(&mut self, c: char) -> (r: Result<(), FieldError>)
        requires
            old(self).wf(),
        ensures
            final(self).wf(),
            final(self).title == old(self).title,
            final(self).enhanced_graphics == old(self).enhanced_graphics,
            final(self).tabs.titles == old(self).tabs.titles,
            old(self).should_quit ==> *final(self) == *old(self),
            final(self)@ == key_step(old(self)@, c),
            is_field_commit(old(self)@, c) && edited_system(old(self)@) is None ==> if edit_index(
                old(self)@,
            ) >= edit_count(old(self)@) {
                is_no_such_field(r, edit_index(old(self)@) as usize)
            } else {
                is_invalid_value(r, edit_index(old(self)@) as usize, old(self)@.input)
            },
            !(is_field_commit(old(self)@, c) && edited_system(old(self)@) is None) ==> r is Ok,
    {
        if self.should_quit {
            return Ok(());
        }
        proof {
            self.lemma_lists_wf();
        }
        if self.input_mode == InputMode::Normal {
            if c == 'q' {
                self.should_quit = true;
            } else if c == 'c' {
                self.on_esc();
            } else if c == 'f' && self.popup_state == PopupMode::Hide {
                self.popup_state = PopupMode::Find;
                self.input_mode = InputMode::Editing;
                self.input = String::new();
                self.show_found();
                assert(self@.input =~= Seq::<char>::empty());
            } else if c == '\n' {
                match self.popup_state {
                    PopupMode::Hide => {
                        if self.planet_systems.len() > 0 {
                            self.popup_state = PopupMode::PlanetSystem;
                            self.show_system();
                        }
                    },
                    PopupMode::PlanetSystem => {
                        let e = self.edit_list.selected_index();
                        if e == 0 {
                            self.input_mode = InputMode::Editing;
                            self.input = String::new();
                            assert(self@.input =~= Seq::<char>::empty());
                        } else if e == 1 {
                            self.popup_state = PopupMode::CenterStar;
                            self.show_star();
                        } else {
                            self.show_planet(e - 2);
                            self.planet_index = e - 2;
                            self.popup_state = PopupMode::Planet;
                        }
                    },
                    PopupMode::Find => self.finish_find(),
                    _ => {
                        self.input_mode = InputMode::Editing;
                        self.input = String::new();
                        assert(self@.input =~= Seq::<char>::empty());
                    },
                }
            }
            return Ok(());
        }
        if c == '\n' {
            if self.popup_state == PopupMode::Find {
                self.finish_find();
                return Ok(());
            }
            return self.finish_edit();
        }
        push_char(&mut self.input, c);
        if self.popup_state == PopupMode::Find {
            self.show_found();
        }
        Ok(())
    }
}

} // verus!

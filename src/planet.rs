use vstd::prelude::*;
use crate::find::string_views;
use crate::loader::{decimal_cell, decimal_or_zero};
use crate::field::{field_views, set_decimal, Field, FieldEditable, FieldError, NoFieldError};
use crate::moon::{moon_valid, Moon, MoonView};
use crate::number::{lemma_decimal_round_trip, decimal_text, decimal_wf, parse_decimal_spec, Decimal, DecimalView};

verus! {

/// A planet with the moons that orbit it.
#[derive(Debug, Clone)]
pub struct Planet {
    pub name: String,
    pub mass: Decimal,
    pub radius: Decimal,
    pub semi_major_axis: Decimal,
    pub eccentricity: Decimal,
    pub orbital_period: Decimal,
    pub moons: Vec<Moon>,
}

pub ghost struct PlanetView {
    pub name: Seq<char>,
    pub mass: DecimalView,
    pub radius: DecimalView,
    pub semi_major_axis: DecimalView,
    pub eccentricity: DecimalView,
    pub orbital_period: DecimalView,
    pub moons: Seq<MoonView>,
}

impl View for Planet {
    type V = PlanetView;

    open spec fn view(&self) -> PlanetView {
        PlanetView {
            name: self.name@,
            mass: self.mass@,
            radius: self.radius@,
            semi_major_axis: self.semi_major_axis@,
            eccentricity: self.eccentricity@,
            orbital_period: self.orbital_period@,
            moons: self.moons@.map_values(|m: Moon| m@),
        }
    }
}

/// Number of fields before the entries of the moons.
pub const PLANET_OWN_FIELDS: usize = 6;

/// The planet's decimals, and those of its moons, are in normal form.
pub open spec fn planet_valid(v: PlanetView) -> bool {
    &&& decimal_wf(v.mass)
    &&& decimal_wf(v.radius)
    &&& decimal_wf(v.semi_major_axis)
    &&& decimal_wf(v.eccentricity)
    &&& decimal_wf(v.orbital_period)
    &&& forall|k: int| 0 <= k < v.moons.len() ==> moon_valid(#[trigger] v.moons[k])
}

/// The entry that stands for a moon in its planet's field list.
pub open spec fn moon_entry(m: MoonView) -> (Seq<char>, Seq<char>) {
    ("Moon"@, m.name)
}

/// The planet once a decimal field (1 to 5) holds `d`.
pub open spec fn planet_with_decimal(v: PlanetView, index: int, d: DecimalView) -> PlanetView {
    if index == 1 {
        PlanetView { mass: d, ..v }
    } else if index == 2 {
        PlanetView { radius: d, ..v }
    } else if index == 3 {
        PlanetView { semi_major_axis: d, ..v }
    } else if index == 4 {
        PlanetView { eccentricity: d, ..v }
    } else {
        PlanetView { orbital_period: d, ..v }
    }
}

impl FieldEditable for Planet {
    open spec fn valid(v: PlanetView) -> bool {
        planet_valid(v)
    }

    open spec fn field_list(v: PlanetView) -> Seq<(Seq<char>, Seq<char>)> {
        seq![
            ("Name"@, v.name),
            ("Mass"@, decimal_text(v.mass)),
            ("Radius"@, decimal_text(v.radius)),
            ("Semi major axis"@, decimal_text(v.semi_major_axis)),
            ("eccentricity"@, decimal_text(v.eccentricity)),
            ("orbital period"@, decimal_text(v.orbital_period)),
        ] + v.moons.map_values(|m: MoonView| moon_entry(m))
    }

    open spec fn with_field(v: PlanetView, index: int, text: Seq<char>) -> Option<PlanetView> {
        if index == 0 {
            Some(PlanetView { name: text, ..v })
        } else if index < PLANET_OWN_FIELDS {
            match parse_decimal_spec(text) {
                Some(d) => Some(planet_with_decimal(v, index, d)),
                None => None,
            }
        } else {
            let k = index - PLANET_OWN_FIELDS;
            Some(PlanetView { moons: v.moons.update(k, MoonView { name: text, ..v.moons[k] }), ..v })
        }
    }

    fn get_fields(&self) -> (r: Vec<Field>) {
        let mut r: Vec<Field> = Vec::new();
        r.push(Field { name: "Name", value: self.name.clone() });
        r.push(Field { name: "Mass", value: self.mass.to_text() });
        r.push(Field { name: "Radius", value: self.radius.to_text() });
        r.push(Field { name: "Semi major axis", value: self.semi_major_axis.to_text() });
        r.push(Field { name: "eccentricity", value: self.eccentricity.to_text() });
        r.push(Field { name: "orbital period", value: self.orbital_period.to_text() });
        let ghost own = field_views(r@);
        let ghost entries = self@.moons.map_values(|m: MoonView| moon_entry(m));
        let mut k: usize = 0;
        while k < self.moons.len()
            invariant
                k <= self.moons@.len(),
                entries.len() == self.moons@.len(),
                entries == self@.moons.map_values(|m: MoonView| moon_entry(m)),
                field_views(r@) =~= own + entries.subrange(0, k as int),
            decreases self.moons@.len() - k,
        {
            let ghost before = r@;
            r.push(Field { name: "Moon", value: self.moons[k].name.clone() });
            assert(entries[k as int] == moon_entry(self.moons@[k as int]@));
            assert(field_views(r@) =~= field_views(before).push(entries[k as int]));
            assert(entries.subrange(0, k + 1) =~= entries.subrange(0, k as int).push(entries[k as int]));
            k = k + 1;
            assert(field_views(r@) =~= own + entries.subrange(0, k as int));
        }
        assert(entries.subrange(0, k as int) =~= entries);
        assert(field_views(r@) =~= Self::field_list(self@));
        r
    }

    fn edit_field(&mut self, index: usize, value: String) -> (r: Result<(), FieldError>) {
        match index {
            0 => {
                self.name = value;
                Ok(())
            },
            1 => set_decimal(&mut self.mass, index, value),
            2 => set_decimal(&mut self.radius, index, value),
            3 => set_decimal(&mut self.semi_major_axis, index, value),
            4 => set_decimal(&mut self.eccentricity, index, value),
            5 => set_decimal(&mut self.orbital_period, index, value),
            _ => {
                if index - PLANET_OWN_FIELDS < self.moons.len() {
                    let k = index - PLANET_OWN_FIELDS;
                    let ghost before = self.moons@;
                    let mut m = self.moons.remove(k);
                    m.name = value;
                    self.moons.insert(k, m);
                    assert(self.moons@ =~= before.update(k as int, m));
                    assert(self@.moons =~= old(self)@.moons.update(
                        k as int,
                        MoonView { name: m@.name, ..old(self)@.moons[k as int] },
                    ));
                    Ok(())
                } else {
                    Err(FieldError::NoSuchField(NoFieldError(index)))
                }
            },
        }
    }
}

/// Writing back the displayed value of a numeric field leaves the
/// planet as it was, so its fields display the same.
pub proof fn lemma_planet_field_round_trip(v: PlanetView, i: int)
    requires
        planet_valid(v),
        1 <= i < 6,
    ensures
        <Planet as FieldEditable>::with_field(v, i, <Planet as FieldEditable>::field_list(v)[i].1)
            == Some(v),
{
    if i == 1 {
        lemma_decimal_round_trip(v.mass);
    }
    if i == 2 {
        lemma_decimal_round_trip(v.radius);
    }
    if i == 3 {
        lemma_decimal_round_trip(v.semi_major_axis);
    }
    if i == 4 {
        lemma_decimal_round_trip(v.eccentricity);
    }
    if i == 5 {
        lemma_decimal_round_trip(v.orbital_period);
    }
}


/// The planet, without moons, that six cells of a row from `first` on
/// describe: name, mass, radius, semi-major axis, eccentricity, period.
pub open spec fn planet_from_cells(cells: Seq<Seq<char>>, first: int) -> PlanetView {
    PlanetView {
        name: cells[first],
        mass: decimal_cell(cells[first + 1]),
        radius: decimal_cell(cells[first + 2]),
        semi_major_axis: decimal_cell(cells[first + 3]),
        eccentricity: decimal_cell(cells[first + 4]),
        orbital_period: decimal_cell(cells[first + 5]),
        moons: Seq::empty(),
    }
}

impl Planet {
    /// The planet, without moons, described by six cells from `first` on.
    pub fn from_columns(cells: &Vec<String>, first: usize) -> (r: Planet)
        requires
            first + 6 <= cells@.len(),
        ensures
            r@ == planet_from_cells(string_views(cells@), first as int),
            planet_valid(r@),
    {
        let n = cells.len();
        assert(first + 6 <= n);
        let r = Planet {
            name: cells[first].clone(),
            mass: decimal_or_zero(cells[first + 1].as_str()),
            radius: decimal_or_zero(cells[first + 2].as_str()),
            semi_major_axis: decimal_or_zero(cells[first + 3].as_str()),
            eccentricity: decimal_or_zero(cells[first + 4].as_str()),
            orbital_period: decimal_or_zero(cells[first + 5].as_str()),
            moons: Vec::new(),
        };
        assert(r@.moons =~= Seq::<MoonView>::empty());
        r
    }

    /// The planet, without moons, of a row whose first six cells describe it.
    pub fn from_cells(cells: &Vec<String>) -> (r: Planet)
        requires
            cells@.len() >= 6,
        ensures
            r@ == planet_from_cells(string_views(cells@), 0),
            planet_valid(r@),
    {
        Planet::from_columns(cells, 0)
    }
}

/// A successful edit overwrites exactly the edited field: every other
/// field displays as before.
pub proof fn lemma_planet_edit_touches_one_field(v: PlanetView, i: int, text: Seq<char>, j: int)
    requires
        0 <= i < <Planet as FieldEditable>::field_list(v).len(),
        <Planet as FieldEditable>::with_field(v, i, text) is Some,
        0 <= j < <Planet as FieldEditable>::field_list(v).len(),
        j != i,
    ensures
        <Planet as FieldEditable>::field_list(<Planet as FieldEditable>::with_field(v, i, text)->0).len()
            == <Planet as FieldEditable>::field_list(v).len(),
        <Planet as FieldEditable>::field_list(<Planet as FieldEditable>::with_field(v, i, text)->0)[j]
            == <Planet as FieldEditable>::field_list(v)[j],
{
    if i >= PLANET_OWN_FIELDS {
        let k = i - PLANET_OWN_FIELDS;
        let w = <Planet as FieldEditable>::with_field(v, i, text)->0;
        assert(w.moons.map_values(|m: MoonView| moon_entry(m)) =~= v.moons.map_values(|m: MoonView| moon_entry(m)).update(
            k,
            moon_entry(w.moons[k]),
        ));
    }
}

} // verus!

use vstd::prelude::*;
use crate::find::string_views;
use crate::loader::{decimal_cell, decimal_or_zero, u32_cell, u32_or_zero};
use crate::field::{field_views, set_decimal, set_u32, Field, FieldEditable, FieldError, NoFieldError};
use crate::number::{
    lemma_decimal_round_trip, lemma_u32_round_trip,
    decimal_text, decimal_wf, nat_text, parse_decimal_spec, parse_u32_spec, u32_text, Decimal,
    DecimalView,
};

verus! {

/// A moon of a planet.
#[derive(Debug, Clone)]
pub struct Moon {
    pub name: String,
    pub mass: Decimal,
    pub radius: Decimal,
    pub semi_major_axis: Decimal,
    pub eccentricity: Decimal,
    pub orbital_period: u32,
}

pub ghost struct MoonView {
    pub name: Seq<char>,
    pub mass: DecimalView,
    pub radius: DecimalView,
    pub semi_major_axis: DecimalView,
    pub eccentricity: DecimalView,
    pub orbital_period: u32,
}

impl View for Moon {
    type V = MoonView;

    open spec fn view(&self) -> MoonView {
        MoonView {
            name: self.name@,
            mass: self.mass@,
            radius: self.radius@,
            semi_major_axis: self.semi_major_axis@,
            eccentricity: self.eccentricity@,
            orbital_period: self.orbital_period,
        }
    }
}

/// The moon once a decimal field (1 to 4) holds `d`.
pub open spec fn moon_with_decimal(v: MoonView, index: int, d: DecimalView) -> MoonView {
    if index == 1 {
        MoonView { mass: d, ..v }
    } else if index == 2 {
        MoonView { radius: d, ..v }
    } else if index == 3 {
        MoonView { semi_major_axis: d, ..v }
    } else {
        MoonView { eccentricity: d, ..v }
    }
}

/// The moon's decimals are in normal form.
pub open spec fn moon_valid(v: MoonView) -> bool {
    &&& decimal_wf(v.mass)
    &&& decimal_wf(v.radius)
    &&& decimal_wf(v.semi_major_axis)
    &&& decimal_wf(v.eccentricity)
}

impl FieldEditable for Moon {
    open spec fn valid(v: MoonView) -> bool {
        moon_valid(v)
    }

    open spec fn field_list(v: MoonView) -> Seq<(Seq<char>, Seq<char>)> {
        seq![
            ("Name"@, v.name),
            ("Mass"@, decimal_text(v.mass)),
            ("Radius"@, decimal_text(v.radius)),
            ("Semi major axis"@, decimal_text(v.semi_major_axis)),
            ("eccentricity"@, decimal_text(v.eccentricity)),
            ("orbital period"@, nat_text(v.orbital_period as nat)),
        ]
    }

    open spec fn with_field(v: MoonView, index: int, text: Seq<char>) -> Option<MoonView> {
        if index == 0 {
            Some(MoonView { name: text, ..v })
        } else if index == 5 {
            match parse_u32_spec(text) {
                Some(n) => Some(MoonView { orbital_period: n, ..v }),
                None => None,
            }
        } else {
            match parse_decimal_spec(text) {
                Some(d) => Some(moon_with_decimal(v, index, d)),
                None => None,
            }
        }
    }

    fn get_fields(&self) -> (r: Vec<Field>) {
        let mut r: Vec<Field> = Vec::new();
        r.push(Field { name: "Name", value: self.name.clone() });
        r.push(Field { name: "Mass", value: self.mass.to_text() });
        r.push(Field { name: "Radius", value: self.radius.to_text() });
        r.push(Field { name: "Semi major axis", value: self.semi_major_axis.to_text() });
        r.push(Field { name: "eccentricity", value: self.eccentricity.to_text() });
        r.push(Field { name: "orbital period", value: u32_text(self.orbital_period) });
        assert(field_views(r@) =~= Self::field_list(self@));
        r
    }

    fn edit_field(&mut self, index: usize, value: String) -> (r: Result<(), FieldError>) {
        match index {
            0 => {
                self.name = value;
                Ok(())
            },
            1 => set_decimal(&mut self.mass, index, value),
            2 => set_decimal(&mut self.radius, index, value),
            3 => set_decimal(&mut self.semi_major_axis, index, value),
            4 => set_decimal(&mut self.eccentricity, index, value),
            5 => set_u32(&mut self.orbital_period, index, value),
            _ => Err(FieldError::NoSuchField(NoFieldError(index))),
        }
    }
}

/// Writing back the displayed value of a numeric field leaves the
/// moon as it was, so its fields display the same.
pub proof fn lemma_moon_field_round_trip(v: MoonView, i: int)
    requires
        moon_valid(v),
        1 <= i < 6,
    ensures
        <Moon as FieldEditable>::with_field(v, i, <Moon as FieldEditable>::field_list(v)[i].1)
            == Some(v),
{
    if i == 1 {
        lemma_decimal_round_trip(v.mass);
    }
    if i == 2 {
        lemma_decimal_round_trip(v.radius);
    }
    if i == 3 {
        lemma_decimal_round_trip(v.semi_major_axis);
    }
    if i == 4 {
        lemma_decimal_round_trip(v.eccentricity);
    }
    if i == 5 {
        lemma_u32_round_trip(v.orbital_period);
    }
}


/// The moon that the first six cells of a row describe: name, mass, radius,
/// semi-major axis, eccentricity, period in whole units.
pub open spec fn moon_from_cells(cells: Seq<Seq<char>>) -> MoonView {
    MoonView {
        name: cells[0],
        mass: decimal_cell(cells[1]),
        radius: decimal_cell(cells[2]),
        semi_major_axis: decimal_cell(cells[3]),
        eccentricity: decimal_cell(cells[4]),
        orbital_period: u32_cell(cells[5]),
    }
}

impl Moon {
    /// A copy of the moon.
    pub fn duplicate(&self) -> (r: Moon)
        ensures
            r@ == self@,
    {
        Moon {
            name: self.name.clone(),
            mass: self.mass.duplicate(),
            radius: self.radius.duplicate(),
            semi_major_axis: self.semi_major_axis.duplicate(),
            eccentricity: self.eccentricity.duplicate(),
            orbital_period: self.orbital_period,
        }
    }

    /// The moon of a row whose first six cells describe it.
    pub fn from_cells(cells: &Vec<String>) -> (r: Moon)
        requires
            cells@.len() >= 6,
        ensures
            r@ == moon_from_cells(string_views(cells@)),
            moon_valid(r@),
    {
        Moon {
            name: cells[0].clone(),
            mass: decimal_or_zero(cells[1].as_str()),
            radius: decimal_or_zero(cells[2].as_str()),
            semi_major_axis: decimal_or_zero(cells[3].as_str()),
            eccentricity: decimal_or_zero(cells[4].as_str()),
            orbital_period: u32_or_zero(cells[5].as_str()),
        }
    }
}

/// A successful edit overwrites exactly the edited field: every other
/// field displays as before.
pub proof fn lemma_moon_edit_touches_one_field(v: MoonView, i: int, text: Seq<char>, j: int)
    requires
        0 <= i < <Moon as FieldEditable>::field_list(v).len(),
        <Moon as FieldEditable>::with_field(v, i, text) is Some,
        0 <= j < <Moon as FieldEditable>::field_list(v).len(),
        j != i,
    ensures
        <Moon as FieldEditable>::field_list(<Moon as FieldEditable>::with_field(v, i, text)->0).len()
            == <Moon as FieldEditable>::field_list(v).len(),
        <Moon as FieldEditable>::field_list(<Moon as FieldEditable>::with_field(v, i, text)->0)[j]
            == <Moon as FieldEditable>::field_list(v)[j],
{
}

} // verus!

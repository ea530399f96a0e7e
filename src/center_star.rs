use vstd::prelude::*;
use crate::find::string_views;
use crate::loader::{decimal_cell, decimal_or_zero};
use crate::field::{field_views, set_decimal, Field, FieldEditable, FieldError, NoFieldError};
use crate::number::{lemma_decimal_round_trip, decimal_text, decimal_wf, decimal_zero, parse_decimal_spec, Decimal, DecimalView};

verus! {

/// The star at the centre of a star system.
#[derive(Debug, Clone)]
pub struct CenterStar {
    pub name: String,
    pub mass: Decimal,
    pub radius: Decimal,
    pub effective_temperature: Decimal,
}

pub ghost struct CenterStarView {
    pub name: Seq<char>,
    pub mass: DecimalView,
    pub radius: DecimalView,
    pub effective_temperature: DecimalView,
}

impl View for CenterStar {
    type V = CenterStarView;

    open spec fn view(&self) -> CenterStarView {
        CenterStarView {
            name: self.name@,
            mass: self.mass@,
            radius: self.radius@,
            effective_temperature: self.effective_temperature@,
        }
    }
}

/// The star's decimals are in normal form.
pub open spec fn center_star_valid(v: CenterStarView) -> bool {
    &&& decimal_wf(v.mass)
    &&& decimal_wf(v.radius)
    &&& decimal_wf(v.effective_temperature)
}

impl CenterStar {
    /// A star with an empty name and every quantity zero.
    pub fn new() -> (r: CenterStar)
        ensures
            r@.name == Seq::<char>::empty(),
            r@.mass == decimal_zero(),
            r@.radius == decimal_zero(),
            r@.effective_temperature == decimal_zero(),
            center_star_valid(r@),
    {
        CenterStar {
            name: String::new(),
            mass: Decimal::zero(),
            radius: Decimal::zero(),
            effective_temperature: Decimal::zero(),
        }
    }
}

impl FieldEditable for CenterStar {
    open spec fn valid(v: CenterStarView) -> bool {
        center_star_valid(v)
    }

    open spec fn field_list(v: CenterStarView) -> Seq<(Seq<char>, Seq<char>)> {
        seq![
            ("name"@, v.name),
            ("mass"@, decimal_text(v.mass)),
            ("radius"@, decimal_text(v.radius)),
            ("effective_temperature"@, decimal_text(v.effective_temperature)),
        ]
    }

    open spec fn with_field(v: CenterStarView, index: int, text: Seq<char>) -> Option<
        CenterStarView,
    > {
        if index == 0 {
            Some(CenterStarView { name: text, ..v })
        } else {
            match parse_decimal_spec(text) {
                Some(d) => Some(
                    if index == 1 {
                        CenterStarView { mass: d, ..v }
                    } else if index == 2 {
                        CenterStarView { radius: d, ..v }
                    } else {
                        CenterStarView { effective_temperature: d, ..v }
                    },
                ),
                None => None,
            }
        }
    }

    fn get_fields(&self) -> (r: Vec<Field>) {
        let mut r: Vec<Field> = Vec::new();
        r.push(Field { name: "name", value: self.name.clone() });
        r.push(Field { name: "mass", value: self.mass.to_text() });
        r.push(Field { name: "radius", value: self.radius.to_text() });
        r.push(Field { name: "effective_temperature", value: self.effective_temperature.to_text() });
        assert(field_views(r@) =~= Self::field_list(self@));
        r
    }

    fn edit_field(&mut self, index: usize, value: String) -> (r: Result<(), FieldError>) {
        match index {
            0 => {
                self.name = value;
                Ok(())
            },
            1 => set_decimal(&mut self.mass, index, value),
            2 => set_decimal(&mut self.radius, index, value),
            3 => set_decimal(&mut self.effective_temperature, index, value),
            _ => Err(FieldError::NoSuchField(NoFieldError(index))),
        }
    }
}

/// Writing back the displayed value of a numeric field leaves the
/// star as it was, so its fields display the same.
pub proof fn lemma_center_star_field_round_trip(v: CenterStarView, i: int)
    requires
        center_star_valid(v),
        1 <= i < 4,
    ensures
        <CenterStar as FieldEditable>::with_field(v, i, <CenterStar as FieldEditable>::field_list(v)[i].1)
            == Some(v),
{
    if i == 1 {
        lemma_decimal_round_trip(v.mass);
    }
    if i == 2 {
        lemma_decimal_round_trip(v.radius);
    }
    if i == 3 {
        lemma_decimal_round_trip(v.effective_temperature);
    }
}


/// The star that the cells `name`, `mass`, `radius` and `temperature` of a
/// row describe.
pub open spec fn star_from_cells(cells: Seq<Seq<char>>, name: int, mass: int, radius: int, temperature: int) -> CenterStarView {
    CenterStarView {
        name: cells[name],
        mass: decimal_cell(cells[mass]),
        radius: decimal_cell(cells[radius]),
        effective_temperature: decimal_cell(cells[temperature]),
    }
}

impl CenterStar {
    /// The star described by the given cells of a row.
    pub fn from_columns(cells: &Vec<String>, name: usize, mass: usize, radius: usize, temperature: usize) -> (r: CenterStar)
        requires
            name < cells@.len(),
            mass < cells@.len(),
            radius < cells@.len(),
            temperature < cells@.len(),
        ensures
            r@ == star_from_cells(string_views(cells@), name as int, mass as int, radius as int, temperature as int),
            center_star_valid(r@),
    {
        CenterStar {
            name: cells[name].clone(),
            mass: decimal_or_zero(cells[mass].as_str()),
            radius: decimal_or_zero(cells[radius].as_str()),
            effective_temperature: decimal_or_zero(cells[temperature].as_str()),
        }
    }

    /// The star of a nine-cell row: name, mass and radius first, temperature last.
    pub fn from_cells(cells: &Vec<String>) -> (r: CenterStar)
        requires
            cells@.len() >= 9,
        ensures
            r@ == star_from_cells(string_views(cells@), 0, 1, 2, 8),
            center_star_valid(r@),
    {
        CenterStar::from_columns(cells, 0, 1, 2, 8)
    }
}

/// A successful edit overwrites exactly the edited field: every other
/// field displays as before.
pub proof fn lemma_center_star_edit_touches_one_field(v: CenterStarView, i: int, text: Seq<char>, j: int)
    requires
        0 <= i < <CenterStar as FieldEditable>::field_list(v).len(),
        <CenterStar as FieldEditable>::with_field(v, i, text) is Some,
        0 <= j < <CenterStar as FieldEditable>::field_list(v).len(),
        j != i,
    ensures
        <CenterStar as FieldEditable>::field_list(<CenterStar as FieldEditable>::with_field(v, i, text)->0).len()
            == <CenterStar as FieldEditable>::field_list(v).len(),
        <CenterStar as FieldEditable>::field_list(<CenterStar as FieldEditable>::with_field(v, i, text)->0)[j]
            == <CenterStar as FieldEditable>::field_list(v)[j],
{
}

} // verus!

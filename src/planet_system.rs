use vstd::prelude::*;
use crate::center_star::{center_star_valid, CenterStar, CenterStarView};
use crate::field::{field_views, Field, FieldEditable, FieldError, NoFieldError};
use crate::number::decimal_zero;
use crate::planet::{planet_valid, Planet, PlanetView};

verus! {

/// A star system: its centre star and its planets.
#[derive(Debug, Clone)]
pub struct PlanetSystem {
    pub name: String,
    pub center_star: CenterStar,
    pub planets: Vec<Planet>,
}

pub ghost struct PlanetSystemView {
    pub name: Seq<char>,
    pub center_star: CenterStarView,
    pub planets: Seq<PlanetView>,
}

impl View for PlanetSystem {
    type V = PlanetSystemView;

    open spec fn view(&self) -> PlanetSystemView {
        PlanetSystemView {
            name: self.name@,
            center_star: self.center_star@,
            planets: self.planets@.map_values(|p: Planet| p@),
        }
    }
}

/// Number of fields before the entries of the planets.
pub const SYSTEM_OWN_FIELDS: usize = 2;

/// All decimals of the system are in normal form.
pub open spec fn planet_system_valid(v: PlanetSystemView) -> bool {
    &&& center_star_valid(v.center_star)
    &&& forall|k: int| 0 <= k < v.planets.len() ==> planet_valid(#[trigger] v.planets[k])
}

/// The entry that stands for a planet in its system's field list.
pub open spec fn planet_entry(p: PlanetView) -> (Seq<char>, Seq<char>) {
    ("Planet"@, p.name)
}

impl PlanetSystem {
    /// A system with an empty name, a blank centre star and no planets.
    pub fn new() -> (r: PlanetSystem)
        ensures
            r@.name == Seq::<char>::empty(),
            r@.center_star.name == Seq::<char>::empty(),
            r@.center_star.mass == decimal_zero(),
            r@.center_star.radius == decimal_zero(),
            r@.center_star.effective_temperature == decimal_zero(),
            r@.planets == Seq::<PlanetView>::empty(),
            planet_system_valid(r@),
    {
        let r = PlanetSystem { name: String::new(), center_star: CenterStar::new(), planets: Vec::new() };
        assert(r@.planets =~= Seq::<PlanetView>::empty());
        r
    }
}

impl FieldEditable for PlanetSystem {
    open spec fn valid(v: PlanetSystemView) -> bool {
        planet_system_valid(v)
    }

    open spec fn field_list(v: PlanetSystemView) -> Seq<(Seq<char>, Seq<char>)> {
        seq![("name"@, v.name), ("Center star"@, v.center_star.name)] + v.planets.map_values(
            |p: PlanetView| planet_entry(p),
        )
    }

    open spec fn with_field(v: PlanetSystemView, index: int, text: Seq<char>) -> Option<
        PlanetSystemView,
    > {
        if index == 0 {
            Some(PlanetSystemView { name: text, ..v })
        } else if index == 1 {
            Some(PlanetSystemView { center_star: CenterStarView { name: text, ..v.center_star }, ..v })
        } else {
            let k = index - SYSTEM_OWN_FIELDS;
            Some(
                PlanetSystemView {
                    planets: v.planets.update(k, PlanetView { name: text, ..v.planets[k] }),
                    ..v
                },
            )
        }
    }

    fn get_fields(&self) -> (r: Vec<Field>) {
        let mut r: Vec<Field> = Vec::new();
        r.push(Field { name: "name", value: self.name.clone() });
        r.push(Field { name: "Center star", value: self.center_star.name.clone() });
        let ghost own = field_views(r@);
        let ghost entries = self@.planets.map_values(|p: PlanetView| planet_entry(p));
        let mut k: usize = 0;
        while k < self.planets.len()
            invariant
                k <= self.planets@.len(),
                entries.len() == self.planets@.len(),
                entries == self@.planets.map_values(|p: PlanetView| planet_entry(p)),
                field_views(r@) =~= own + entries.subrange(0, k as int),
            decreases self.planets@.len() - k,
        {
            let ghost before = r@;
            r.push(Field { name: "Planet", value: self.planets[k].name.clone() });
            assert(entries[k as int] == planet_entry(self.planets@[k as int]@));
            assert(field_views(r@) =~= field_views(before).push(entries[k as int]));
            assert(entries.subrange(0, k + 1) =~= entries.subrange(0, k as int).push(entries[k as int]));
            k = k + 1;
        }
        assert(entries.subrange(0, k as int) =~= entries);
        assert(field_views(r@) =~= Self::field_list(self@));
        r
    }

    fn edit_field(&mut self, index: usize, value: String) -> (r: Result<(), FieldError>) {
        if index == 0 {
            self.name = value;
            Ok(())
        } else if index == 1 {
            self.center_star.name = value;
            Ok(())
        } else if index - SYSTEM_OWN_FIELDS < self.planets.len() {
            let k = index - SYSTEM_OWN_FIELDS;
            let ghost before = self.planets@;
            let mut p = self.planets.remove(k);
            p.name = value;
            self.planets.insert(k, p);
            assert(self.planets@ =~= before.update(k as int, p));
            assert(self@.planets =~= old(self)@.planets.update(
                k as int,
                PlanetView { name: p@.name, ..old(self)@.planets[k as int] },
            ));
            Ok(())
        } else {
            Err(FieldError::NoSuchField(NoFieldError(index)))
        }
    }
}

/// A successful edit overwrites exactly the edited field: every other
/// field displays as before.
pub proof fn lemma_planet_system_edit_touches_one_field(v: PlanetSystemView, i: int, text: Seq<char>, j: int)
    requires
        0 <= i < <PlanetSystem as FieldEditable>::field_list(v).len(),
        <PlanetSystem as FieldEditable>::with_field(v, i, text) is Some,
        0 <= j < <PlanetSystem as FieldEditable>::field_list(v).len(),
        j != i,
    ensures
        <PlanetSystem as FieldEditable>::field_list(<PlanetSystem as FieldEditable>::with_field(v, i, text)->0).len()
            == <PlanetSystem as FieldEditable>::field_list(v).len(),
        <PlanetSystem as FieldEditable>::field_list(<PlanetSystem as FieldEditable>::with_field(v, i, text)->0)[j]
            == <PlanetSystem as FieldEditable>::field_list(v)[j],
{
    if i >= SYSTEM_OWN_FIELDS {
        let k = i - SYSTEM_OWN_FIELDS;
        let w = <PlanetSystem as FieldEditable>::with_field(v, i, text)->0;
        assert(w.planets.map_values(|m: PlanetView| planet_entry(m)) =~= v.planets.map_values(|m: PlanetView| planet_entry(m)).update(
            k,
            planet_entry(w.planets[k]),
        ));
    }
}

} // verus!

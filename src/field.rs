use vstd::prelude::*;
use crate::number::{nat_text, parse_decimal_spec, parse_u32, parse_u32_spec, write_nat, Decimal};

verus! {

/// One editable attribute of an entity: its label and its displayed value.
#[derive(Debug, Clone)]
pub struct Field {
    pub name: &'static str,
    pub value: String,
}

/// The (label, value) pairs that a list of fields shows.
pub open spec fn field_views(fs: Seq<Field>) -> Seq<(Seq<char>, Seq<char>)> {
    fs.map_values(|f: Field| (f.name@, f.value@))
}

/// A field index that the entity does not have.
#[derive(Debug, Clone, Copy, PartialEq, Eq, Structural)]
pub struct NoFieldError(pub usize);

impl NoFieldError {
    /// `No field with index = <index>`.
    pub fn message(&self) -> (r: String)
        ensures
            r@ == "No field with index = "@ + nat_text(self.0 as nat),
    {
        let mut r = String::from_str("No field with index = ");
        write_nat(&mut r, self.0 as u64);
        r
    }
}

/// Why an edit of a field was refused. The entity is unchanged in both cases.
#[derive(Debug, Clone, PartialEq, Eq)]
pub enum FieldError {
    /// The index is past the entity's last field.
    NoSuchField(NoFieldError),
    /// The text does not parse as a value of the field's type.
    InvalidValue { field_index: usize, raw_text: String },
}

impl FieldError {
    /// A one-line description for the user.
    pub fn message(&self) -> (r: String)
        ensures
            r@ == match self {
                FieldError::NoSuchField(e) => "No field with index = "@ + nat_text(e.0 as nat),
                FieldError::InvalidValue { field_index, raw_text } => "Invalid value for field "@
                    + nat_text(*field_index as nat) + ": "@ + raw_text@,
            },
    {
        match self {
            FieldError::NoSuchField(e) => e.message(),
            FieldError::InvalidValue { field_index, raw_text } => {
                let mut r = String::from_str("Invalid value for field ");
                write_nat(&mut r, *field_index as u64);
                r.append(": ");
                r.append(raw_text.as_str());
                r
            },
        }
    }
}

/// `r` reports that there is no field `index`.
pub open spec fn is_no_such_field<T>(r: Result<T, FieldError>, index: usize) -> bool {
    r matches Err(FieldError::NoSuchField(e)) && e.0 == index
}

/// `r` reports that `text` is not a value for field `index`.
pub open spec fn is_invalid_value<T>(r: Result<T, FieldError>, index: usize, text: Seq<char>) -> bool {
    r matches Err(FieldError::InvalidValue { field_index, raw_text }) && field_index == index
        && raw_text@ == text
}

/// An entity that shows its attributes as an ordered list of labelled
/// fields and takes a new value for one of them as text.
pub trait FieldEditable: View + Sized {
    /// The entity's values are in normal form.
    spec fn valid(v: Self::V) -> bool;

    /// The (label, displayed value) pairs, in their fixed order.
    spec fn field_list(v: Self::V) -> Seq<(Seq<char>, Seq<char>)>;

    /// The entity once field `index` (below the number of fields) holds
    /// `text`; `None` when `text` is not a value of that field's type.
    spec fn with_field(v: Self::V, index: int, text: Seq<char>) -> Option<Self::V>;

    /// The fields of the entity, in order.
    fn get_fields(&self) -> (r: Vec<Field>)
        requires
            Self::valid(self@),
        ensures
            field_views(r@) == Self::field_list(self@),
    ;

    /// Sets field `index` from `value`. On an error nothing changes.
    fn edit_field(&mut self, index: usize, value: String) -> (r: Result<(), FieldError>)
        requires
            Self::valid(old(self)@),
        ensures
            Self::valid(final(self)@),
            index >= Self::field_list(old(self)@).len() ==> final(self)@ == old(self)@
                && is_no_such_field(r, index),
            index < Self::field_list(old(self)@).len() ==> match Self::with_field(
                old(self)@,
                index as int,
                value@,
            ) {
                Some(w) => r is Ok && final(self)@ == w,
                None => final(self)@ == old(self)@ && is_invalid_value(r, index, value@),
            },
    ;
}

/// Reads `value` as a decimal into `slot`; on failure `slot` is unchanged
/// and the error names field `index`.
pub(crate) fn set_decimal(slot: &mut Decimal, index: usize, value: String) -> (r: Result<(), FieldError>)
    ensures
        match parse_decimal_spec(value@) {
            Some(d) => r is Ok && final(slot)@ == d && final(slot).wf(),
            None => final(slot)@ == old(slot)@ && is_invalid_value(r, index, value@),
        },
{
    match Decimal::parse(value.as_str()) {
        Some(d) => {
            *slot = d;
            Ok(())
        },
        None => Err(FieldError::InvalidValue { field_index: index, raw_text: value }),
    }
}

/// Reads `value` as an unsigned integer into `slot`; on failure `slot` is
/// unchanged and the error names field `index`.
pub(crate) fn set_u32(slot: &mut u32, index: usize, value: String) -> (r: Result<(), FieldError>)
    ensures
        match parse_u32_spec(value@) {
            Some(n) => r is Ok && *final(slot) == n,
            None => *final(slot) == *old(slot) && is_invalid_value(r, index, value@),
        },
{
    match parse_u32(value.as_str()) {
        Some(n) => {
            *slot = n;
            Ok(())
        },
        None => Err(FieldError::InvalidValue { field_index: index, raw_text: value }),
    }
}

} // verus!

//! The shape of a record declaration, and the checks that decide whether a
//! packed flag type can be made from it.
//!
//! A declaration is held as plain values: the text of its attributes, of its
//! visibility and of its name, what it says about generics, and its fields in
//! source order. Every check runs; none stops the ones after it.

use vstd::prelude::*;
use vstd::string::StringExecFns;

verus! {

/// The most fields that one packed word can hold.
pub const MAX_FIELDS: usize = 128;

/// What a declaration says about generic parameters.
#[derive(Debug, Clone, Copy, PartialEq, Eq)]
pub struct Generics {
    /// An opening angle bracket follows the name.
    pub lt_token: bool,
    /// A closing angle bracket follows the name.
    pub gt_token: bool,
    /// The number of type, lifetime and const parameters.
    pub params: usize,
    /// A `where` clause is present.
    pub where_clause: bool,
}

/// The declared type of one field.
#[derive(Debug, Clone, PartialEq, Eq)]
pub enum FieldType {
    /// A type written as one bare identifier, such as `bool` or `u32`.
    Ident(String),
    /// Any other type: a longer path, a reference, a tuple, an array.
    Other,
}

/// One named field of a record.
#[derive(Debug, Clone, PartialEq, Eq)]
pub struct Field {
    pub ident: String,
    pub ty: FieldType,
}

/// The body of a declaration.
#[derive(Debug, Clone, PartialEq, Eq)]
pub enum Fields {
    /// A record with named fields, in source order.
    Named(Vec<Field>),
    /// A positional, tuple-like body.
    Unnamed,
    /// No body at all: a marker type.
    Unit,
}

/// A record declaration as the generator reads it.
#[derive(Debug, Clone, PartialEq, Eq)]
pub struct Declaration {
    /// The attributes above the declaration, each as written.
    pub attrs: Vec<String>,
    /// The visibility as written; empty for a private item.
    pub vis: String,
    /// The name of the type.
    pub ident: String,
    pub generics: Generics,
    pub fields: Fields,
}

/// The part of a declaration that a diagnostic points at.
#[derive(Debug, Clone, Copy, PartialEq, Eq)]
pub enum Location {
    /// The declaration as a whole.
    Declaration,
    /// The generic parameters and the `where` clause.
    Generics,
    /// The body: all fields together.
    Fields,
    /// The named field at this position, counted from zero.
    Field(usize),
}

/// The reason for a diagnostic.
#[derive(Debug, Clone, Copy, PartialEq, Eq)]
pub enum Reason {
    /// The declaration has generic parameters or a `where` clause.
    GenericsNotAllowed,
    /// The body is positional.
    TupleStruct,
    /// The declaration has no body.
    UnitStruct,
    /// There are more fields than the widest word has bits.
    TooManyFields,
    /// A field's type is not `bool`.
    NonBoolField,
}

/// One shape error: where it is and what is wrong.
#[derive(Debug, Clone, Copy, PartialEq, Eq)]
pub struct Diagnostic {
    pub location: Location,
    pub reason: Reason,
}

/// The text shown for a reason.
pub open spec fn reason_text(reason: Reason) -> Seq<char> {
    match reason {
        Reason::GenericsNotAllowed => "generics not allowed in bitflag structs"@,
        Reason::TupleStruct => "bitflags: struct has incorrect shape, found tuple struct"@,
        Reason::UnitStruct => "bitflags: struct has incorrect shape, found unit struct"@,
        Reason::TooManyFields => "bitflags: struct has too many fields"@,
        Reason::NonBoolField => "bitflags: struct has incorrect shape, found non bool field"@,
    }
}

impl Diagnostic {
    /// The human-readable message of this diagnostic.
    pub fn message(&self) -> (text: String)
        ensures
            text@ == reason_text(self.reason),
    {
        match self.reason {
            Reason::GenericsNotAllowed => String::from_str(
                "generics not allowed in bitflag structs",
            ),
            Reason::TupleStruct => String::from_str(
                "bitflags: struct has incorrect shape, found tuple struct",
            ),
            Reason::UnitStruct => String::from_str(
                "bitflags: struct has incorrect shape, found unit struct",
            ),
            Reason::TooManyFields => String::from_str("bitflags: struct has too many fields"),
            Reason::NonBoolField => String::from_str(
                "bitflags: struct has incorrect shape, found non bool field",
            ),
        }
    }
}

/// The declaration introduces generics in some form.
pub open spec fn has_generics(generics: Generics) -> bool {
    generics.lt_token || generics.gt_token || generics.where_clause || generics.params > 0
}

/// The type is exactly the boolean primitive.
pub open spec fn is_bool(ty: FieldType) -> bool {
    ty matches FieldType::Ident(name) && name@ == "bool"@
}

/// The diagnostic for the field at `index`, if its type is not `bool`.
pub open spec fn field_diagnostic(fields: Seq<Field>, index: int) -> Seq<Diagnostic> {
    if is_bool(fields[index].ty) {
        Seq::empty()
    } else {
        seq![Diagnostic { location: Location::Field(index as usize), reason: Reason::NonBoolField }]
    }
}

/// One diagnostic for each of the first `count` fields whose type is not
/// `bool`, in field order.
pub open spec fn field_diagnostics(fields: Seq<Field>, count: nat) -> Seq<Diagnostic>
    decreases count,
{
    if count == 0 {
        Seq::empty()
    } else {
        field_diagnostics(fields, (count - 1) as nat) + field_diagnostic(fields, count - 1)
    }
}

/// The diagnostic for generics, if the declaration has any.
pub open spec fn generics_diagnostics(generics: Generics) -> Seq<Diagnostic> {
    if has_generics(generics) {
        seq![Diagnostic { location: Location::Generics, reason: Reason::GenericsNotAllowed }]
    } else {
        Seq::empty()
    }
}

/// The diagnostic for a body with more than [`MAX_FIELDS`] fields.
pub open spec fn count_diagnostics(count: nat) -> Seq<Diagnostic> {
    if count > MAX_FIELDS {
        seq![Diagnostic { location: Location::Fields, reason: Reason::TooManyFields }]
    } else {
        Seq::empty()
    }
}

/// The diagnostics for the body of a declaration.
pub open spec fn fields_diagnostics(fields: Fields) -> Seq<Diagnostic> {
    match fields {
        Fields::Unnamed => seq![
            Diagnostic { location: Location::Fields, reason: Reason::TupleStruct },
        ],
        Fields::Unit => seq![
            Diagnostic { location: Location::Declaration, reason: Reason::UnitStruct },
        ],
        Fields::Named(named) => count_diagnostics(named@.len()) + field_diagnostics(
            named@,
            named@.len(),
        ),
    }
}

/// Everything that is wrong with the shape of a declaration: generics first,
/// then the body, then each offending field in source order.
pub open spec fn shape_diagnostics(input: Declaration) -> Seq<Diagnostic> {
    generics_diagnostics(input.generics) + fields_diagnostics(input.fields)
}

/// A declaration from which a packed flag type can be made: no generics,
/// named fields, at most [`MAX_FIELDS`] of them, each of type `bool`.
pub open spec fn well_shaped(input: Declaration) -> bool {
    &&& !has_generics(input.generics)
    &&& input.fields matches Fields::Named(named)
    &&& named@.len() <= MAX_FIELDS
    &&& forall|i: int| 0 <= i < named@.len() ==> is_bool(#[trigger] named@[i].ty)
}

/// Whether a field's type is exactly `bool`.
pub fn type_is_bool(ty: &FieldType) -> (yes: bool)
    ensures
        yes == is_bool(*ty),
{
    match ty {
        FieldType::Ident(name) => {
            let boolean = String::from_str("bool");
            *name == boolean
        },
        FieldType::Other => false,
    }
}

/// Checks the shape of a declaration and appends one diagnostic for each
/// violation to `diagnostics`. All checks run, whatever the earlier ones found.
pub fn check_struct(diagnostics: &mut Vec<Diagnostic>, input: &Declaration)
    ensures
        final(diagnostics)@ == old(diagnostics)@ + shape_diagnostics(*input),
{
    let ghost before = diagnostics@;
    if input.generics.lt_token || input.generics.gt_token || input.generics.where_clause
        || input.generics.params > 0 {
        diagnostics.push(
            Diagnostic { location: Location::Generics, reason: Reason::GenericsNotAllowed },
        );
    }
    let ghost mid = diagnostics@;
    assert(mid == before + generics_diagnostics(input.generics));
    match &input.fields {
        Fields::Unnamed => {
            diagnostics.push(
                Diagnostic { location: Location::Fields, reason: Reason::TupleStruct },
            );
        },
        Fields::Unit => {
            diagnostics.push(
                Diagnostic { location: Location::Declaration, reason: Reason::UnitStruct },
            );
        },
        Fields::Named(named) => {
            if named.len() > MAX_FIELDS {
                diagnostics.push(
                    Diagnostic { location: Location::Fields, reason: Reason::TooManyFields },
                );
            }
            let mut i: usize = 0;
            while i < named.len()
                invariant
                    i <= named@.len(),
                    diagnostics@ == mid + count_diagnostics(named@.len()) + field_diagnostics(
                        named@,
                        i as nat,
                    ),
                decreases named@.len() - i,
            {
                if !type_is_bool(&named[i].ty) {
                    diagnostics.push(
                        Diagnostic { location: Location::Field(i), reason: Reason::NonBoolField },
                    );
                }
                i += 1;
            }
        },
    }
    assert(diagnostics@ == mid + fields_diagnostics(input.fields));
}

} // verus!

//! From a record of booleans to a packed flag type.
//!
//! The generator reads a declaration and describes the type that stands for
//! it: an unsigned word just wide enough for one bit per field, and a getter
//! and a setter for each field, bound to the bit whose position is the
//! field's place in the declaration. It always describes some type, also for
//! a declaration that the shape checks reject, and hands back beside it what
//! those checks found: one diagnostic for each problem.

use vstd::prelude::*;
use vstd::string::StringExecFns;
use crate::shape::{
    check_struct, shape_diagnostics, Declaration, Diagnostic, Field, Fields, MAX_FIELDS,
};

verus! {

/// The getter and the setter of one field.
#[derive(Debug, Clone, PartialEq, Eq)]
pub struct Accessor {
    /// The name of the getter: the field's own name.
    pub getter: String,
    /// The name of the setter: the field's name after `set_`.
    pub setter: String,
    /// The bit that both work on, counted from the low end.
    pub position: u8,
}

/// The packed type that stands for a record of booleans.
#[derive(Debug, Clone, PartialEq, Eq)]
pub struct FlagStruct {
    /// The attributes of the record, carried over as written.
    pub attrs: Vec<String>,
    /// The visibility of the record, carried over as written.
    pub vis: String,
    /// The name of the record, which the packed type takes.
    pub ident: String,
    /// The number of bits of the underlying word: 8, 16, 32, 64 or 128.
    pub width: u8,
    /// One accessor pair for each field, in source order.
    pub accessors: Vec<Accessor>,
}

/// What the generator hands back: the diagnostics of the shape checks, and
/// beside them the type.
#[derive(Debug, Clone, PartialEq, Eq)]
pub struct Expansion {
    pub diagnostics: Vec<Diagnostic>,
    pub item: FlagStruct,
}

/// One of the five word sizes.
pub open spec fn is_width(bits: nat) -> bool {
    bits == 8 || bits == 16 || bits == 32 || bits == 64 || bits == 128
}

/// The width chosen for `count` fields: the narrowest word with a bit for
/// each, and the widest word where none has enough.
pub open spec fn width_for(count: nat) -> nat {
    if count <= 8 {
        8
    } else if count <= 16 {
        16
    } else if count <= 32 {
        32
    } else if count <= 64 {
        64
    } else {
        128
    }
}

/// Chooses the word size for a record of `count` fields.
///
/// Up to 128 fields the result is the smallest of the five sizes with at
/// least `count` bits. Above that no size is enough and the result is 128, so
/// that a type can still be described.
pub fn width(count: usize) -> (bits: u8)
    ensures
        bits == width_for(count as nat),
        is_width(bits as nat),
        count <= MAX_FIELDS ==> count <= bits,
        count <= MAX_FIELDS ==> forall|other: nat|
            is_width(other) && count <= other ==> bits <= other,
        count > MAX_FIELDS ==> bits == 128,
{
    if count <= 8 {
        8
    } else if count <= 16 {
        16
    } else if count <= 32 {
        32
    } else if count <= 64 {
        64
    } else {
        128
    }
}

/// The fields that get accessors: those of a record with named fields, and
/// none for any other body.
pub open spec fn named_fields(fields: Fields) -> Seq<Field> {
    match fields {
        Fields::Named(named) => named@,
        _ => Seq::empty(),
    }
}

/// The setter's name for a field: `set_` and the field's name.
pub open spec fn setter_name(field: Seq<char>) -> Seq<char> {
    "set_"@ + field
}

/// The accessor pair is the one for the field at `index`.
pub open spec fn accessor_for(accessor: Accessor, field: Field, index: int) -> bool {
    &&& accessor.getter@ == field.ident@
    &&& accessor.setter@ == setter_name(field.ident@)
    &&& accessor.position as int == index % 256
}

/// `item` is the packed type for `input`: same attributes, visibility and
/// name, the width for the number of named fields, and one accessor pair per
/// named field, each on the bit of its field's position.
pub open spec fn flag_struct_for(item: FlagStruct, input: Declaration) -> bool {
    let fields = named_fields(input.fields);
    &&& item.attrs.deep_view() == input.attrs.deep_view()
    &&& item.vis@ == input.vis@
    &&& item.ident@ == input.ident@
    &&& item.width as nat == width_for(fields.len())
    &&& item.accessors@.len() == fields.len()
    &&& forall|i: int|
        0 <= i < fields.len() ==> accessor_for(#[trigger] item.accessors@[i], fields[i], i)
}

/// Copies a list of strings.
fn clone_strings(list: &Vec<String>) -> (copy: Vec<String>)
    ensures
        copy.deep_view() == list.deep_view(),
{
    let mut copy: Vec<String> = Vec::new();
    let mut i: usize = 0;
    while i < list.len()
        invariant
            i <= list@.len(),
            copy@.len() == i,
            forall|j: int| 0 <= j < i ==> copy@[j]@ == list@[j]@,
        decreases list@.len() - i,
    {
        copy.push(list[i].clone());
        i += 1;
    }
    assert(copy.deep_view() =~= list.deep_view());
    copy
}

/// The names of the fields that get accessors, in source order.
fn field_names(fields: &Fields) -> (names: Vec<String>)
    ensures
        names@.len() == named_fields(*fields).len(),
        forall|i: int| 0 <= i < names@.len() ==> names@[i]@ == named_fields(*fields)[i].ident@,
{
    let mut names: Vec<String> = Vec::new();
    match fields {
        Fields::Named(named) => {
            let mut i: usize = 0;
            while i < named.len()
                invariant
                    i <= named@.len(),
                    names@.len() == i,
                    forall|j: int| 0 <= j < i ==> names@[j]@ == named@[j].ident@,
                decreases named@.len() - i,
            {
                names.push(named[i].ident.clone());
                i += 1;
            }
        },
        _ => {},
    }
    names
}

/// Turns a record declaration into the description of its packed flag type.
///
/// The shape checks run first, and what they find is all that is reported:
/// the generator adds no diagnostic of its own. It then goes on whatever they
/// found. It reads the fields (none where the body has no named fields),
/// chooses the width (128 where there are too many fields), and makes a
/// getter and a setter for each field in source order. The field at position
/// `i` gets bit `i`; positions are kept in eight bits.
pub fn bitflag(input: &Declaration) -> (expansion: Expansion)
    ensures
        expansion.diagnostics@ == shape_diagnostics(*input),
        flag_struct_for(expansion.item, *input),
{
    let mut diagnostics: Vec<Diagnostic> = Vec::new();
    check_struct(&mut diagnostics, input);

    let struct_name = input.ident.clone();
    let struct_fields = field_names(&input.fields);

    let vis = input.vis.clone();
    let attrs = clone_strings(&input.attrs);

    let u_type = width(struct_fields.len());

    let ghost fields = named_fields(input.fields);
    let mut functions: Vec<Accessor> = Vec::new();
    let mut i: usize = 0;
    while i < struct_fields.len()
        invariant
            i <= struct_fields@.len(),
            struct_fields@.len() == fields.len(),
            forall|j: int| 0 <= j < fields.len() ==> struct_fields@[j]@ == fields[j].ident@,
            functions@.len() == i,
            forall|j: int| 0 <= j < i ==> accessor_for(#[trigger] functions@[j], fields[j], j),
        decreases struct_fields@.len() - i,
    {
        let field = struct_fields[i].clone();
        let set_ident = String::from_str("set_").concat(field.as_str());
        functions.push(Accessor { getter: field, setter: set_ident, position: (i % 256) as u8 });
        i += 1;
    }

    Expansion {
        diagnostics,
        item: FlagStruct {
            attrs,
            vis,
            ident: struct_name,
            width: u_type,
            accessors: functions,
        },
    }
}

} // verus!

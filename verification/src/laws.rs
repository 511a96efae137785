//! What holds of the library as a whole: how the operations on flags work
//! together, and what the shape checks and the generator promise for every
//! declaration. The generator reports exactly what the shape checks find, so
//! what is shown here of their diagnostics holds of its diagnostics too.

use vstd::prelude::*;
use vstd::arithmetic::power2::pow2;
use crate::bit_flag::BitFlag;
use crate::bits::{
    bit_at, bits_of, flags_value, is_set_positions, lemma_flags_value_reads, lemma_value_of_bits,
    lemma_with_bit_bound, lemma_with_bit_reads, overlay, with_bit,
};
use crate::generate::{flag_struct_for, is_width, named_fields, width_for, FlagStruct};
use crate::shape::{
    count_diagnostics, field_diagnostic, field_diagnostics, has_generics, is_bool,
    shape_diagnostics, well_shaped, Declaration, Diagnostic, Field, Fields, Location, Reason,
    MAX_FIELDS,
};

verus! {

/// The width chosen for up to 128 fields is the one and only smallest word
/// size with a bit for every field; for more fields it is 128.
pub proof fn lemma_width_is_least(count: nat, other: nat)
    ensures
        is_width(width_for(count)),
        count <= 128 ==> count <= width_for(count),
        count <= 128 && is_width(other) && count <= other ==> width_for(count) <= other,
        count > 128 ==> width_for(count) == 128,
{
}

/// The accessors of a packed type made from at most 128 fields: the pair
/// for the field at index `i` works on bit `i`, which lies inside the word.
/// Read from a word of value `v`, the getter gives bit `i` of `v`. Once the
/// setter has written `flag`, the getter gives `flag`, every other bit `j`
/// is as it was, and the value still fits the word.
pub proof fn lemma_accessors(
    input: Declaration,
    item: FlagStruct,
    i: int,
    v: nat,
    flag: bool,
    j: nat,
)
    requires
        flag_struct_for(item, input),
        named_fields(input.fields).len() <= 128,
        0 <= i < named_fields(input.fields).len(),
        v < pow2(item.width as nat),
    ensures
        item.accessors@[i].position == i,
        i < item.width,
        bit_at(with_bit(v, i as nat, flag), i as nat) == flag,
        j != i ==> bit_at(with_bit(v, i as nat, flag), j) == bit_at(v, j),
        with_bit(v, i as nat, flag) < pow2(item.width as nat),
{
    lemma_width_is_least(named_fields(input.fields).len(), 0);
    lemma_with_bit_reads(v, i as nat, flag, i as nat);
    lemma_with_bit_reads(v, i as nat, flag, j);
    lemma_with_bit_bound(v, i as nat, flag, item.width as nat);
}

/// What a word reads after one flag was set: the flag at the position
/// written is the value written, every other flag is as before.
pub proof fn lemma_set_then_get<T: BitFlag>(before: T, after: T, position: u8, flag: bool, j: u8)
    requires
        after.value() == with_bit(before.value(), position as nat, flag),
    ensures
        bit_at(after.value(), j as nat) == if j == position {
            flag
        } else {
            bit_at(before.value(), j as nat)
        },
{
    lemma_with_bit_reads(before.value(), position as nat, flag, j as nat);
}

/// Setting a flag to the value it has leaves the number as it is.
pub proof fn lemma_set_current_value(n: nat, i: nat)
    ensures
        with_bit(n, i, bit_at(n, i)) == n,
{
}

/// A word in which a flag was set to the value it had is the same word.
pub proof fn lemma_set_current_flag<T: BitFlag>(before: T, after: T, position: u8)
    requires
        after.value() == with_bit(
            before.value(),
            position as nat,
            bit_at(before.value(), position as nat),
        ),
    ensures
        after == before,
{
    after.lemma_value_determines(&before);
}

/// Taking a number apart into the positions of its set bits and putting
/// flags at those positions together again gives the number back, as long
/// as the sequence of flags is long enough to hold it.
pub proof fn lemma_decompose_compose(n: nat, positions: Seq<int>, flags: Seq<bool>)
    requires
        is_set_positions(n, positions),
        n < pow2(flags.len()),
        forall|i: int| 0 <= i < flags.len() ==> flags[i] == positions.contains(i),
    ensures
        flags_value(flags) == n,
{
    assert(flags =~= bits_of(n, flags.len()));
    lemma_value_of_bits(n, flags.len());
}

/// Putting flags together into a number and reading its low bits again
/// gives the flags back.
pub proof fn lemma_compose_decompose(flags: Seq<bool>)
    ensures
        bits_of(flags_value(flags), flags.len()) == flags,
{
    assert forall|i: int| 0 <= i < flags.len() implies #[trigger] bits_of(
        flags_value(flags),
        flags.len(),
    )[i] == flags[i] by {
        lemma_flags_value_reads(flags, i as nat);
    }
    assert(bits_of(flags_value(flags), flags.len()) =~= flags);
}

/// A number has one sequence of set-bit positions and no other.
pub proof fn lemma_set_positions_unique(n: nat, first: Seq<int>, second: Seq<int>)
    requires
        is_set_positions(n, first),
        is_set_positions(n, second),
    ensures
        first == second,
{
    lemma_ascending_unique(first, second);
}

/// Two strictly ascending sequences with the same elements are equal.
proof fn lemma_ascending_unique(first: Seq<int>, second: Seq<int>)
    requires
        forall|j: int, k: int| 0 <= j < k < first.len() ==> first[j] < first[k],
        forall|j: int, k: int| 0 <= j < k < second.len() ==> second[j] < second[k],
        forall|x: int| first.contains(x) <==> second.contains(x),
    ensures
        first == second,
    decreases first.len(),
{
    if first.len() == 0 {
        if second.len() > 0 {
            assert(second.contains(second[0]));
        }
        assert(first =~= second);
    } else {
        let top = first.last();
        assert(first.contains(top));
        assert(second.contains(top));
        assert(second.contains(second.last()));
        assert(first.contains(second.last()));
        assert(second.last() == top);
        let a = first.drop_last();
        let b = second.drop_last();
        assert forall|x: int| a.contains(x) <==> b.contains(x) by {
            if a.contains(x) {
                let k = choose|k: int| 0 <= k < a.len() && a[k] == x;
                assert(first[k] == x);
                assert(first.contains(x));
                let m = choose|m: int| 0 <= m < second.len() && second[m] == x;
                assert(b[m] == x);
            }
            if b.contains(x) {
                let k = choose|k: int| 0 <= k < b.len() && b[k] == x;
                assert(second[k] == x);
                assert(second.contains(x));
                let m = choose|m: int| 0 <= m < first.len() && first[m] == x;
                assert(a[m] == x);
            }
        }
        lemma_ascending_unique(a, b);
        assert(first =~= a.push(top));
        assert(second =~= b.push(top));
    }
}

/// Setting flags in bulk in a word of `width` bits: flag `j` of the word
/// becomes `flags[j]` where `flags` has one, and stays as it was where
/// `flags` is too short. What `flags` holds from `width` on changes nothing,
/// and the result fits the word.
pub proof fn lemma_bulk_set(n: nat, width: nat, flags: Seq<bool>, j: nat)
    requires
        n < pow2(width),
        j < width,
    ensures
        flags_value(overlay(bits_of(n, width), flags)) < pow2(width),
        j < flags.len() ==> bit_at(flags_value(overlay(bits_of(n, width), flags)), j) == flags[j as int],
        j >= flags.len() ==> bit_at(flags_value(overlay(bits_of(n, width), flags)), j) == bit_at(
            n,
            j,
        ),
        flags.len() >= width ==> overlay(bits_of(n, width), flags) == overlay(
            bits_of(n, width),
            flags.take(width as int),
        ),
{
    lemma_flags_value_reads(overlay(bits_of(n, width), flags), j);
    if flags.len() >= width {
        assert(overlay(bits_of(n, width), flags) =~= overlay(
            bits_of(n, width),
            flags.take(width as int),
        ));
    }
}

/// The diagnostic that the shape checks give for a field whose type is not
/// `bool`.
pub open spec fn non_bool_at(index: int) -> Diagnostic {
    Diagnostic { location: Location::Field(index as usize), reason: Reason::NonBoolField }
}

/// Among the first `count` fields, the ones reported are exactly the ones
/// whose type is not `bool`, and nothing else is reported.
pub proof fn lemma_field_diagnostics(fields: Seq<Field>, count: nat, d: Diagnostic)
    requires
        count <= fields.len(),
    ensures
        field_diagnostics(fields, count).contains(d) <==> exists|i: int|
            0 <= i < count && !is_bool(#[trigger] fields[i].ty) && d == non_bool_at(i),
        field_diagnostics(fields, count).len() <= count,
    decreases count,
{
    if count > 0 {
        let earlier = field_diagnostics(fields, (count - 1) as nat);
        let last = field_diagnostic(fields, count - 1);
        let all = field_diagnostics(fields, count);
        lemma_field_diagnostics(fields, (count - 1) as nat, d);
        if all.contains(d) {
            let k = choose|k: int| 0 <= k < all.len() && all[k] == d;
            if k < earlier.len() {
                assert(earlier[k] == d);
                let i = choose|i: int|
                    0 <= i < count - 1 && !is_bool(#[trigger] fields[i].ty) && d == non_bool_at(i);
                assert(!is_bool(fields[i].ty) && d == non_bool_at(i));
            } else {
                assert(last[k - earlier.len()] == d);
                assert(!is_bool(fields[count - 1].ty) && d == non_bool_at(count - 1));
            }
        }
        if exists|i: int| 0 <= i < count && !is_bool(#[trigger] fields[i].ty) && d == non_bool_at(i) {
            let i = choose|i: int|
                0 <= i < count && !is_bool(#[trigger] fields[i].ty) && d == non_bool_at(i);
            if i < count - 1 {
                assert(!is_bool(fields[i].ty) && d == non_bool_at(i));
                let k = choose|k: int| 0 <= k < earlier.len() && earlier[k] == d;
                assert(all[k] == d);
            } else {
                assert(last[0] == d);
                assert(all[earlier.len() as int] == d);
            }
        }
    }
}

/// The shape checks find nothing exactly where the declaration is well
/// shaped. The generator reports what the shape checks find and nothing
/// else, so the same holds of a run of the generator.
pub proof fn lemma_accepted_iff_well_shaped(input: Declaration)
    ensures
        shape_diagnostics(input).len() == 0 <==> well_shaped(input),
{
    match input.fields {
        Fields::Named(named) => {
            let fields = named@;
            let found = field_diagnostics(fields, fields.len());
            if found.len() == 0 {
                assert forall|i: int| 0 <= i < fields.len() implies is_bool(
                    #[trigger] fields[i].ty,
                ) by {
                    lemma_field_diagnostics(fields, fields.len(), non_bool_at(i));
                    if !is_bool(fields[i].ty) {
                        assert(found.contains(non_bool_at(i)));
                    }
                }
            } else {
                lemma_field_diagnostics(fields, fields.len(), found[0]);
                assert(found.contains(found[0]));
            }
        },
        _ => {},
    }
}

/// One diagnostic for one problem. Where the declaration has no generics:
/// a tuple-like body gets the one diagnostic that names that shape, a marker
/// without a body the one that names that; named `bool` fields get one for
/// their number if there are more than 128 of them, and none otherwise.
pub proof fn lemma_one_diagnostic_per_problem(input: Declaration)
    requires
        !has_generics(input.generics),
        forall|i: int|
            0 <= i < named_fields(input.fields).len() ==> is_bool(
                #[trigger] named_fields(input.fields)[i].ty,
            ),
    ensures
        input.fields is Unnamed ==> shape_diagnostics(input) == seq![
            Diagnostic { location: Location::Fields, reason: Reason::TupleStruct },
        ],
        input.fields is Unit ==> shape_diagnostics(input) == seq![
            Diagnostic { location: Location::Declaration, reason: Reason::UnitStruct },
        ],
        input.fields is Named && named_fields(input.fields).len() > MAX_FIELDS
            ==> shape_diagnostics(input) == seq![
            Diagnostic { location: Location::Fields, reason: Reason::TooManyFields },
        ],
        input.fields is Named && named_fields(input.fields).len() <= MAX_FIELDS
            ==> shape_diagnostics(input) == Seq::<Diagnostic>::empty(),
{
    let shape = shape_diagnostics(input);
    match input.fields {
        Fields::Named(named) => {
            let fields = named@;
            let found = field_diagnostics(fields, fields.len());
            assert(fields == named_fields(input.fields));
            if found.len() > 0 {
                lemma_field_diagnostics(fields, fields.len(), found[0]);
                assert(found.contains(found[0]));
                let i = choose|i: int|
                    0 <= i < fields.len() && !is_bool(#[trigger] fields[i].ty) && found[0]
                        == non_bool_at(i);
                assert(is_bool(named_fields(input.fields)[i].ty));
            }
            assert(found =~= Seq::<Diagnostic>::empty());
            if fields.len() > MAX_FIELDS {
                assert(shape =~= seq![
                    Diagnostic { location: Location::Fields, reason: Reason::TooManyFields },
                ]);
            } else {
                assert(shape =~= Seq::<Diagnostic>::empty());
            }
        },
        Fields::Unnamed => {
            assert(shape =~= seq![
                Diagnostic { location: Location::Fields, reason: Reason::TupleStruct },
            ]);
        },
        Fields::Unit => {
            assert(shape =~= seq![
                Diagnostic { location: Location::Declaration, reason: Reason::UnitStruct },
            ]);
        },
    }
}

/// Every violation is reported in one run. A declaration with more than 128
/// named fields, one of which is not a `bool`, gets a diagnostic for the
/// count and another, different one for that field.
pub proof fn lemma_violations_reported_together(input: Declaration, i: int)
    requires
        input.fields is Named,
        named_fields(input.fields).len() > MAX_FIELDS,
        0 <= i < named_fields(input.fields).len(),
        !is_bool(named_fields(input.fields)[i].ty),
    ensures
        shape_diagnostics(input).contains(
            Diagnostic { location: Location::Fields, reason: Reason::TooManyFields },
        ),
        shape_diagnostics(input).contains(non_bool_at(i)),
        shape_diagnostics(input).len() >= 2,
{
    let fields = named_fields(input.fields);
    let generic = crate::shape::generics_diagnostics(input.generics);
    let counted = count_diagnostics(fields.len());
    let found = field_diagnostics(fields, fields.len());
    let shape = shape_diagnostics(input);
    let too_many = Diagnostic { location: Location::Fields, reason: Reason::TooManyFields };
    lemma_field_diagnostics(fields, fields.len(), non_bool_at(i));
    assert(found.contains(non_bool_at(i)));
    let k = choose|k: int| 0 <= k < found.len() && found[k] == non_bool_at(i);
    assert(shape == generic + (counted + found));
    assert(shape[generic.len() as int] == too_many);
    assert(shape[generic.len() + 1 + k] == non_bool_at(i));
}

} // verus!

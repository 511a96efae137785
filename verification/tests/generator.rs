use binf::bitflag;
use binf::generate::{width, Accessor};
use binf::shape::{
    check_struct, type_is_bool, Declaration, Diagnostic, Field, FieldType, Fields, Generics,
    Location, Reason,
};

fn no_generics() -> Generics {
    Generics {
        lt_token: false,
        gt_token: false,
        params: 0,
        where_clause: false,
    }
}

fn field(name: &str, ty: &str) -> Field {
    Field {
        ident: name.to_string(),
        ty: FieldType::Ident(ty.to_string()),
    }
}

fn bools(count: usize) -> Vec<Field> {
    (0..count).map(|i| field(&format!("f{}", i), "bool")).collect()
}

fn record(fields: Fields) -> Declaration {
    Declaration {
        attrs: vec![],
        vis: String::new(),
        ident: "Flags".to_string(),
        generics: no_generics(),
        fields,
    }
}

fn check(input: &Declaration) -> Vec<Diagnostic> {
    let mut diagnostics = Vec::new();
    check_struct(&mut diagnostics, input);
    diagnostics
}

fn at(location: Location, reason: Reason) -> Diagnostic {
    Diagnostic { location, reason }
}

#[test]
fn width_is_the_smallest_that_fits() {
    assert_eq!(width(0), 8);
    assert_eq!(width(1), 8);
    assert_eq!(width(8), 8);
    assert_eq!(width(9), 16);
    assert_eq!(width(16), 16);
    assert_eq!(width(17), 32);
    assert_eq!(width(32), 32);
    assert_eq!(width(33), 64);
    assert_eq!(width(64), 64);
    assert_eq!(width(65), 128);
    assert_eq!(width(128), 128);
}

#[test]
fn width_for_every_count_up_to_128() {
    for count in 0..=128usize {
        let bits = width(count);
        assert!([8u8, 16, 32, 64, 128].contains(&bits));
        assert!(count <= bits as usize);
        for other in [8usize, 16, 32, 64, 128] {
            if count <= other {
                assert!(bits as usize <= other);
            }
        }
    }
}

#[test]
fn width_falls_back_to_128() {
    assert_eq!(width(129), 128);
    assert_eq!(width(1000), 128);
    assert_eq!(width(usize::MAX), 128);
}

#[test]
fn well_shaped_record_has_no_diagnostic() {
    let input = record(Fields::Named(bools(8)));
    assert_eq!(check(&input), vec![]);
    assert_eq!(bitflag(&input).diagnostics, vec![]);
    let empty = record(Fields::Named(vec![]));
    assert_eq!(check(&empty), vec![]);
    assert_eq!(bitflag(&empty).diagnostics, vec![]);
    let full = record(Fields::Named(bools(128)));
    assert_eq!(check(&full), vec![]);
    assert_eq!(bitflag(&full).diagnostics, vec![]);
}

#[test]
fn check_appends_to_what_is_there() {
    let earlier = at(Location::Declaration, Reason::UnitStruct);
    let mut diagnostics = vec![earlier];
    let mut input = record(Fields::Unnamed);
    input.generics.params = 1;
    check_struct(&mut diagnostics, &input);
    assert_eq!(
        diagnostics,
        vec![
            earlier,
            at(Location::Generics, Reason::GenericsNotAllowed),
            at(Location::Fields, Reason::TupleStruct),
        ]
    );
}

#[test]
fn generics_in_any_form_are_reported() {
    let forms = [
        Generics { lt_token: true, ..no_generics() },
        Generics { gt_token: true, ..no_generics() },
        Generics { params: 2, ..no_generics() },
        Generics { where_clause: true, ..no_generics() },
        Generics { lt_token: true, gt_token: true, params: 1, where_clause: true },
    ];
    for generics in forms {
        let mut input = record(Fields::Named(bools(3)));
        input.generics = generics;
        assert_eq!(
            check(&input),
            vec![at(Location::Generics, Reason::GenericsNotAllowed)]
        );
    }
}

#[test]
fn tuple_struct_is_reported() {
    let input = record(Fields::Unnamed);
    assert_eq!(check(&input), vec![at(Location::Fields, Reason::TupleStruct)]);
    let expansion = bitflag(&input);
    assert_eq!(
        expansion.diagnostics,
        vec![at(Location::Fields, Reason::TupleStruct)]
    );
    assert_eq!(expansion.item.width, 8);
    assert_eq!(expansion.item.accessors, vec![]);
}

#[test]
fn unit_struct_is_reported() {
    let input = record(Fields::Unit);
    assert_eq!(
        check(&input),
        vec![at(Location::Declaration, Reason::UnitStruct)]
    );
    let expansion = bitflag(&input);
    assert_eq!(
        expansion.diagnostics,
        vec![at(Location::Declaration, Reason::UnitStruct)]
    );
    assert_eq!(expansion.item.width, 8);
    assert_eq!(expansion.item.accessors, vec![]);
}

#[test]
fn too_many_fields_are_reported() {
    let input = record(Fields::Named(bools(129)));
    assert_eq!(check(&input), vec![at(Location::Fields, Reason::TooManyFields)]);
    let expansion = bitflag(&input);
    assert_eq!(
        expansion.diagnostics,
        vec![at(Location::Fields, Reason::TooManyFields)]
    );
    assert_eq!(expansion.item.width, 128);
    assert_eq!(expansion.item.accessors.len(), 129);
}

#[test]
fn each_non_bool_field_is_reported() {
    let fields = vec![
        field("a", "bool"),
        field("b", "u8"),
        field("c", "bool"),
        Field { ident: "d".to_string(), ty: FieldType::Other },
        field("e", "Bool"),
        field("f", "r#bool"),
    ];
    let input = record(Fields::Named(fields));
    let expected = vec![
        at(Location::Field(1), Reason::NonBoolField),
        at(Location::Field(3), Reason::NonBoolField),
        at(Location::Field(4), Reason::NonBoolField),
        at(Location::Field(5), Reason::NonBoolField),
    ];
    assert_eq!(check(&input), expected);
    assert_eq!(bitflag(&input).diagnostics, expected);
}

#[test]
fn only_the_bare_name_bool_is_the_boolean_type() {
    assert_eq!(type_is_bool(&FieldType::Ident("bool".to_string())), true);
    assert_eq!(type_is_bool(&FieldType::Ident("boolean".to_string())), false);
    assert_eq!(type_is_bool(&FieldType::Ident("boo".to_string())), false);
    assert_eq!(type_is_bool(&FieldType::Ident(String::new())), false);
    assert_eq!(type_is_bool(&FieldType::Other), false);
}

#[test]
fn non_bool_field_and_too_many_fields_in_one_run() {
    let mut fields = bools(129);
    fields[40] = field("count", "u32");
    let input = record(Fields::Named(fields));
    let found = check(&input);
    assert_eq!(
        found,
        vec![
            at(Location::Fields, Reason::TooManyFields),
            at(Location::Field(40), Reason::NonBoolField),
        ]
    );
    assert!(found.len() >= 2);
    assert_ne!(found[0], found[1]);
    let expansion = bitflag(&input);
    assert_eq!(expansion.diagnostics, found);
    assert_eq!(expansion.item.width, 128);
}

#[test]
fn all_checks_run() {
    let mut fields = bools(130);
    fields[0] = field("x", "i64");
    fields[129] = Field { ident: "y".to_string(), ty: FieldType::Other };
    let mut input = record(Fields::Named(fields));
    input.generics = Generics { lt_token: true, gt_token: true, params: 1, where_clause: false };
    assert_eq!(
        bitflag(&input).diagnostics,
        vec![
            at(Location::Generics, Reason::GenericsNotAllowed),
            at(Location::Fields, Reason::TooManyFields),
            at(Location::Field(0), Reason::NonBoolField),
            at(Location::Field(129), Reason::NonBoolField),
        ]
    );
}

#[test]
fn messages() {
    let text = |reason| at(Location::Declaration, reason).message();
    assert_eq!(
        text(Reason::GenericsNotAllowed),
        "generics not allowed in bitflag structs"
    );
    assert_eq!(
        text(Reason::TupleStruct),
        "bitflags: struct has incorrect shape, found tuple struct"
    );
    assert_eq!(
        text(Reason::UnitStruct),
        "bitflags: struct has incorrect shape, found unit struct"
    );
    assert_eq!(
        text(Reason::TooManyFields),
        "bitflags: struct has too many fields"
    );
    assert_eq!(
        text(Reason::NonBoolField),
        "bitflags: struct has incorrect shape, found non bool field"
    );
}

#[test]
fn eight_fields_make_a_byte_with_an_accessor_pair_each() {
    let names = ["a", "b", "c", "d", "e", "f", "g", "h"];
    let fields = names.iter().map(|name| field(name, "bool")).collect();
    let mut input = record(Fields::Named(fields));
    input.ident = "Test".to_string();
    input.vis = "pub".to_string();
    let expansion = bitflag(&input);
    assert_eq!(expansion.diagnostics, vec![]);
    assert_eq!(expansion.item.ident, "Test");
    assert_eq!(expansion.item.vis, "pub");
    assert_eq!(expansion.item.width, 8);
    let expected: Vec<Accessor> = names
        .iter()
        .enumerate()
        .map(|(i, name)| Accessor {
            getter: name.to_string(),
            setter: format!("set_{}", name),
            position: i as u8,
        })
        .collect();
    assert_eq!(expansion.item.accessors, expected);
}

#[test]
fn attributes_and_visibility_are_carried_over() {
    let mut input = record(Fields::Named(bools(2)));
    input.attrs = vec![
        "#[derive(Clone, PartialEq)]".to_string(),
        "#[repr(transparent)]".to_string(),
    ];
    input.vis = "pub(crate)".to_string();
    input.ident = "Mode".to_string();
    let item = bitflag(&input).item;
    assert_eq!(item.attrs, input.attrs);
    assert_eq!(item.vis, "pub(crate)");
    assert_eq!(item.ident, "Mode");
}

#[test]
fn setter_name_is_not_checked_against_other_fields() {
    let input = record(Fields::Named(vec![field("x", "bool"), field("set_x", "bool")]));
    let expansion = bitflag(&input);
    assert_eq!(expansion.diagnostics, vec![]);
    assert_eq!(expansion.item.accessors[0].setter, "set_x");
    assert_eq!(expansion.item.accessors[1].getter, "set_x");
    assert_eq!(expansion.item.accessors[1].setter, "set_set_x");
}

#[test]
fn width_follows_the_number_of_fields() {
    for (count, bits) in [(0, 8), (8, 8), (9, 16), (17, 32), (33, 64), (65, 128), (128, 128)] {
        let item = bitflag(&record(Fields::Named(bools(count)))).item;
        assert_eq!(item.width, bits);
        assert_eq!(item.accessors.len(), count);
        for (i, accessor) in item.accessors.iter().enumerate() {
            assert_eq!(accessor.position as usize, i);
            assert!(accessor.position < item.width);
        }
    }
}

#[test]
fn positions_are_kept_in_eight_bits() {
    let item = bitflag(&record(Fields::Named(bools(300)))).item;
    assert_eq!(item.accessors[255].position, 255);
    assert_eq!(item.accessors[256].position, 0);
    assert_eq!(item.accessors[299].position, 43);
    assert_eq!(item.accessors[299].getter, "f299");
    assert_eq!(item.accessors[299].setter, "set_f299");
}

#[test]
fn generator_reports_what_the_shape_checks_find() {
    let mut generic = record(Fields::Unit);
    generic.generics.where_clause = true;
    let mut mixed = bools(200);
    mixed[7] = field("n", "usize");
    let inputs = [
        record(Fields::Named(bools(5))),
        record(Fields::Named(bools(129))),
        record(Fields::Named(mixed)),
        record(Fields::Unnamed),
        record(Fields::Unit),
        generic,
    ];
    for input in inputs {
        assert_eq!(bitflag(&input).diagnostics, check(&input));
    }
}

#[test]
fn one_problem_gets_one_diagnostic() {
    assert_eq!(bitflag(&record(Fields::Named(bools(129)))).diagnostics.len(), 1);
    assert_eq!(bitflag(&record(Fields::Named(bools(1000)))).diagnostics.len(), 1);
    assert_eq!(bitflag(&record(Fields::Unnamed)).diagnostics.len(), 1);
    assert_eq!(bitflag(&record(Fields::Unit)).diagnostics.len(), 1);
    assert_eq!(bitflag(&record(Fields::Named(bools(128)))).diagnostics.len(), 0);
}

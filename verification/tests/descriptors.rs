use sheetpack::descriptor::{BuiltinTypeDescriptor, Descriptor, DescriptorManager, TS};
use std::any::TypeId;
use std::collections::HashMap;

fn empty() -> DescriptorManager {
    DescriptorManager { descriptors: Vec::new(), id_map: HashMap::new() }
}

fn builtin(name: &str) -> Descriptor {
    Descriptor::BuiltinType(BuiltinTypeDescriptor { ts_name: name.to_string() })
}

#[test]
fn unknown_type_gets_the_next_index() {
    let mut m = empty();
    assert_eq!(m.registry(TypeId::of::<u8>(), builtin("number")), 0);
    assert_eq!(m.registry(TypeId::of::<bool>(), builtin("boolean")), 1);
    assert_eq!(m.descriptors.len(), 2);
    assert!(matches!(&m.descriptors[1], Descriptor::BuiltinType(b) if b.ts_name == "boolean"));
    assert!(m.id_map.is_empty());
}

#[test]
fn known_type_keeps_its_index() {
    let mut m = empty();
    m.id_map.insert(TypeId::of::<u8>(), 41);
    assert_eq!(m.registry(TypeId::of::<u8>(), builtin("number")), 41);
    assert!(m.descriptors.is_empty());
    assert_eq!(m.registry(TypeId::of::<u32>(), builtin("number")), 0);
    assert_eq!(m.descriptors.len(), 1);
    assert_eq!(m.id_map.len(), 1);
}

#[test]
fn names_of_the_built_in_types() {
    assert_eq!(<u8 as TS>::_ts_name(), "number");
    assert_eq!(<u32 as TS>::_ts_name(), "number");
    assert_eq!(<u64 as TS>::_ts_name(), "number");
    assert_eq!(<i8 as TS>::_ts_name(), "number");
    assert_eq!(<i32 as TS>::_ts_name(), "number");
    assert_eq!(<i64 as TS>::_ts_name(), "number");
    assert_eq!(<String as TS>::_ts_name(), "string");
    assert_eq!(<bool as TS>::_ts_name(), "boolean");
}

#[test]
fn names_of_the_generic_types() {
    assert_eq!(<Vec<u8> as TS>::_ts_name(), "readonly number[]");
    assert_eq!(<Option<String> as TS>::_ts_name(), "string");
    assert_eq!(
        <HashMap<String, Vec<bool>> as TS>::_ts_name(),
        "Map<string, readonly boolean[]>"
    );
    assert_eq!(<Vec<Vec<i64>> as TS>::_ts_name(), "readonly readonly number[][]");
}

#[test]
fn built_in_type_registers_its_descriptor() {
    let mut m = empty();
    assert_eq!(<String as TS>::_register(&mut m), 0);
    assert_eq!(m.descriptors.len(), 1);
    assert!(matches!(&m.descriptors[0], Descriptor::BuiltinType(b) if b.ts_name == "string"));
}

#[test]
fn list_registers_its_item_first() {
    let mut m = empty();
    assert_eq!(<Vec<u8> as TS>::_register(&mut m), 1);
    assert_eq!(m.descriptors.len(), 2);
    assert!(matches!(&m.descriptors[0], Descriptor::BuiltinType(b) if b.ts_name == "number"));
    match &m.descriptors[1] {
        Descriptor::Generics(g) => {
            assert_eq!(g.dependencies, vec![0]);
            assert_eq!(g.ts_name, "readonly number[]");
            assert!(!g.optional);
        }
        _ => panic!("a generic descriptor was expected"),
    }
}

#[test]
fn option_is_marked_optional() {
    let mut m = empty();
    assert_eq!(<Option<bool> as TS>::_register(&mut m), 1);
    match &m.descriptors[1] {
        Descriptor::Generics(g) => {
            assert_eq!(g.dependencies, vec![0]);
            assert_eq!(g.ts_name, "boolean");
            assert!(g.optional);
        }
        _ => panic!("a generic descriptor was expected"),
    }
}

#[test]
fn map_registers_key_and_value() {
    let mut m = empty();
    assert_eq!(<HashMap<String, u32> as TS>::_register(&mut m), 2);
    assert_eq!(m.descriptors.len(), 3);
    match &m.descriptors[2] {
        Descriptor::Generics(g) => {
            assert_eq!(g.dependencies, vec![0, 1]);
            assert_eq!(g.ts_name, "Map<string, number>");
            assert!(!g.optional);
        }
        _ => panic!("a generic descriptor was expected"),
    }
}

#[test]
fn known_generic_type_adds_only_its_parts() {
    let mut m = empty();
    m.id_map.insert(TypeId::of::<Vec<u8>>(), 9);
    assert_eq!(<Vec<u8> as TS>::_register(&mut m), 9);
    assert_eq!(m.descriptors.len(), 1);
}

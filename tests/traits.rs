use workshop::traits::{Entity, Singleton, Value};

#[test]
fn _06_trait_impl_ident_trait() {
    let entity = Entity { id: 42, name: String::from("an entity") };
    assert_eq!("[\"42\"] Entity { id: 42, name: \"an entity\" }", workshop::traits::format(&entity));
}

#[test]
fn _06_trait_impl_value_trait() {
    let entity = Entity { id: 314, name: String::from("Pi") };
    let value: String = <Entity as Value>::value(&entity);
    assert_eq!("Pi", &value);
}

#[test]
fn impl_ident_trait() {
    let singleton = Singleton;
    assert_eq!("[\"S\"] Singleton", workshop::traits::format(&singleton));
}

#[test]
fn impl_value_trait() {
    let singleton = Singleton;
    let value: () = <Singleton as Value>::value(&singleton);
    assert_eq!((), value);
}

#[test]
fn entity_description_matches_its_debug_output() {
    let entity = Entity { id: 7, name: String::from("tab\there") };
    assert_eq!(format!("[\"7\"] {:?}", entity), workshop::traits::format(&entity));
}

use juniper_eager_loading::{Association, AssociationType, Error, HasMany, HasManyThrough, HasOne, OptionHasOne};

#[test]
fn has_one_starts_not_loaded() {
    let association: HasOne<i32> = HasOne::default();
    assert!(matches!(
        association.try_unwrap(),
        Err(Error::NotLoaded(AssociationType::HasOne))
    ));
}

#[test]
fn has_one_gives_back_the_loaded_child() {
    let mut association: HasOne<i32> = HasOne::default();
    association.loaded_child(7);
    assert_eq!(*association.try_unwrap().unwrap(), 7);
}

#[test]
fn has_one_keeps_the_last_loaded_child() {
    let mut association: HasOne<i32> = HasOne::default();
    association.loaded_child(1);
    association.loaded_child(2);
    association.assert_loaded_otherwise_failed();
    assert_eq!(*association.try_unwrap().unwrap(), 2);
}

#[test]
fn has_one_not_loaded_then_asserted_has_failed() {
    let mut association: HasOne<i32> = HasOne::default();
    association.assert_loaded_otherwise_failed();
    assert!(matches!(
        association.try_unwrap(),
        Err(Error::LoadFailed(AssociationType::HasOne))
    ));
}

#[test]
fn has_one_loaded_then_asserted_stays_loaded() {
    let mut association: HasOne<String> = HasOne::default();
    association.loaded_child("Denmark".to_string());
    association.assert_loaded_otherwise_failed();
    assert_eq!(association.try_unwrap().unwrap(), "Denmark");
}

#[test]
fn boxed_has_one_stores_the_child_in_a_box() {
    let mut association: HasOne<Box<i32>> = HasOne::default();
    Association::<i32>::loaded_child(&mut association, 3);
    Association::<i32>::assert_loaded_otherwise_failed(&mut association);
    assert_eq!(**association.try_unwrap().unwrap(), 3);
}

#[test]
fn boxed_has_one_not_loaded_fails() {
    let mut association: HasOne<Box<i32>> = HasOne::default();
    Association::<i32>::assert_loaded_otherwise_failed(&mut association);
    assert!(matches!(
        association.try_unwrap(),
        Err(Error::LoadFailed(AssociationType::HasOne))
    ));
}

#[test]
fn has_one_equality_follows_the_state() {
    let mut a: HasOne<i32> = HasOne::default();
    let b: HasOne<i32> = HasOne::default();
    assert_eq!(a, b);
    a.loaded_child(1);
    assert_ne!(a, b);
    assert_eq!(a.clone(), a);
}

#[test]
fn option_has_one_starts_as_none() {
    let association: OptionHasOne<i32> = OptionHasOne::default();
    assert_eq!(association.try_unwrap().unwrap(), &None);
}

#[test]
fn option_has_one_gives_back_the_loaded_child() {
    let mut association: OptionHasOne<i32> = OptionHasOne::default();
    association.loaded_child(5);
    association.assert_loaded_otherwise_failed();
    assert_eq!(association.try_unwrap().unwrap(), &Some(5));
}

#[test]
fn option_has_one_not_loaded_stays_none_and_never_fails() {
    let mut association: OptionHasOne<i32> = OptionHasOne::default();
    association.assert_loaded_otherwise_failed();
    assert_eq!(association.try_unwrap().unwrap(), &None);
}

#[test]
fn boxed_option_has_one_stores_the_child_in_a_box() {
    let mut association: OptionHasOne<Box<i32>> = OptionHasOne::default();
    Association::<i32>::loaded_child(&mut association, 9);
    Association::<i32>::assert_loaded_otherwise_failed(&mut association);
    assert_eq!(association.try_unwrap().unwrap(), &Some(Box::new(9)));
}

#[test]
fn has_many_starts_empty() {
    let association: HasMany<i32> = HasMany::default();
    assert!(association.try_unwrap().unwrap().is_empty());
}

#[test]
fn has_many_keeps_children_in_load_order() {
    let mut association: HasMany<i32> = HasMany::default();
    association.loaded_child(3);
    association.loaded_child(1);
    association.loaded_child(3);
    association.assert_loaded_otherwise_failed();
    assert_eq!(association.try_unwrap().unwrap(), &vec![3, 1, 3]);
}

#[test]
fn has_many_not_loaded_is_empty_and_never_fails() {
    let mut association: HasMany<String> = HasMany::default();
    association.assert_loaded_otherwise_failed();
    assert_eq!(association.try_unwrap().unwrap().len(), 0);
}

#[test]
fn has_many_through_starts_empty() {
    let association: HasManyThrough<i32> = HasManyThrough::default();
    assert!(association.try_unwrap().unwrap().is_empty());
}

#[test]
fn has_many_through_keeps_children_in_load_order() {
    let mut association: HasManyThrough<&str> = HasManyThrough::default();
    association.loaded_child("a");
    association.loaded_child("b");
    association.assert_loaded_otherwise_failed();
    assert_eq!(association.try_unwrap().unwrap(), &vec!["a", "b"]);
}

#[test]
fn not_loaded_error_message() {
    let error = Error::NotLoaded(AssociationType::HasOne);
    assert_eq!(
        error.to_string(),
        "`HasOne` should have been eager loaded, but wasn't"
    );
}

#[test]
fn load_failed_error_message() {
    let error = Error::LoadFailed(AssociationType::HasOne);
    assert_eq!(error.to_string(), "Failed to load `HasOne`");
}

#[test]
fn error_messages_name_each_association_type() {
    assert_eq!(
        Error::NotLoaded(AssociationType::OptionHasOne).to_string(),
        "`OptionHasOne` should have been eager loaded, but wasn't"
    );
    assert_eq!(
        Error::LoadFailed(AssociationType::HasMany).to_string(),
        "Failed to load `HasMany`"
    );
    assert_eq!(
        Error::LoadFailed(AssociationType::HasManyThrough).to_string(),
        "Failed to load `HasManyThrough`"
    );
}

#[test]
fn association_type_names() {
    assert_eq!(AssociationType::HasOne.name(), "HasOne");
    assert_eq!(AssociationType::OptionHasOne.name(), "OptionHasOne");
    assert_eq!(AssociationType::HasMany.name(), "HasMany");
    assert_eq!(AssociationType::HasManyThrough.name(), "HasManyThrough");
    assert_eq!(format!("{:?}", AssociationType::HasManyThrough), "HasManyThrough");
}

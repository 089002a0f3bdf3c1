use checkout_customization::delivery::{delivery_function, run_delivery};
use checkout_customization::config::DeliveryConfiguration;
use checkout_customization::model::{
    DeliveryAddress, DeliveryGroup, DeliveryOption, Error, Operation,
};

fn option_with_title(handle: &str, title: &str) -> DeliveryOption {
    DeliveryOption { handle: handle.to_string(), title: Some(title.to_string()) }
}

fn option_untitled(handle: &str) -> DeliveryOption {
    DeliveryOption { handle: handle.to_string(), title: None }
}

fn group_with_zip(zip: &str, options: Vec<DeliveryOption>) -> DeliveryGroup {
    DeliveryGroup {
        delivery_address: Some(DeliveryAddress { zip: Some(zip.to_string()) }),
        delivery_options: options,
    }
}

const CONFIG: &str = "{\"zip\":\"90210\",\"message\":\"Remote area surcharge\"}";

#[test]
fn delivery_match_renames_each_option() {
    let groups = vec![group_with_zip(
        "90210",
        vec![option_with_title("A", "Standard"), option_untitled("B")],
    )];
    let r = delivery_function(Some(CONFIG), &groups).unwrap();
    assert_eq!(
        r.operations,
        vec![
            Operation::Rename {
                delivery_option_handle: "A".to_string(),
                title: "Standard - Remote area surcharge".to_string(),
            },
            Operation::Rename {
                delivery_option_handle: "B".to_string(),
                title: "Remote area surcharge".to_string(),
            },
        ]
    );
}

#[test]
fn delivery_no_address_no_operations() {
    let groups = vec![DeliveryGroup {
        delivery_address: None,
        delivery_options: vec![option_with_title("A", "Standard")],
    }];
    let r = delivery_function(Some(CONFIG), &groups).unwrap();
    assert_eq!(r.operations, vec![]);
}

#[test]
fn delivery_no_postal_code_no_operations() {
    let groups = vec![DeliveryGroup {
        delivery_address: Some(DeliveryAddress { zip: None }),
        delivery_options: vec![option_with_title("A", "Standard")],
    }];
    let r = delivery_function(Some(CONFIG), &groups).unwrap();
    assert_eq!(r.operations, vec![]);
}

#[test]
fn delivery_other_zip_no_operations() {
    let groups = vec![group_with_zip("10001", vec![option_with_title("A", "Standard")])];
    let r = delivery_function(Some(CONFIG), &groups).unwrap();
    assert_eq!(r.operations, vec![]);
}

#[test]
fn delivery_zip_match_is_case_sensitive_and_exact() {
    let config = "{\"zip\":\"ab 1\",\"message\":\"m\"}";
    let groups = vec![
        group_with_zip("AB 1", vec![option_untitled("A")]),
        group_with_zip("ab 1 ", vec![option_untitled("B")]),
        group_with_zip("ab 1", vec![option_untitled("C")]),
    ];
    let r = delivery_function(Some(config), &groups).unwrap();
    assert_eq!(
        r.operations,
        vec![Operation::Rename { delivery_option_handle: "C".to_string(), title: "m".to_string() }]
    );
}

#[test]
fn delivery_absent_configuration_is_empty() {
    let groups = vec![group_with_zip("90210", vec![option_with_title("A", "Standard")])];
    let r = delivery_function(None, &groups).unwrap();
    assert_eq!(r.operations, vec![]);
}

#[test]
fn delivery_malformed_configuration_fails() {
    let groups: Vec<DeliveryGroup> = vec![];
    assert_eq!(
        delivery_function(Some("not json"), &groups),
        Err(Error::ConfigurationMalformed)
    );
    assert_eq!(
        delivery_function(Some("{\"zip\":\"90210\"}"), &groups),
        Err(Error::ConfigurationMalformed)
    );
    assert_eq!(
        delivery_function(Some("{\"zip\":5,\"message\":\"m\"}"), &groups),
        Err(Error::ConfigurationMalformed)
    );
}

#[test]
fn delivery_unrecognized_keys_are_ignored() {
    let config = "{\"zip\":\"z\",\"message\":\"m\",\"other\":[1,2]}";
    let groups = vec![group_with_zip("z", vec![option_untitled("A")])];
    let r = delivery_function(Some(config), &groups).unwrap();
    assert_eq!(r.operations.len(), 1);
}

#[test]
fn delivery_duplicate_option_in_two_matching_groups_matches_twice() {
    let groups = vec![
        group_with_zip("90210", vec![option_untitled("dup")]),
        group_with_zip("90210", vec![option_untitled("dup")]),
    ];
    let r = delivery_function(Some(CONFIG), &groups).unwrap();
    assert_eq!(r.operations.len(), 2);
    assert_eq!(r.operations[0], r.operations[1]);
}

#[test]
fn delivery_preserves_snapshot_order() {
    let groups = vec![
        group_with_zip("90210", vec![option_untitled("one"), option_untitled("two")]),
        group_with_zip("other", vec![option_untitled("skipped")]),
        group_with_zip("90210", vec![option_untitled("three")]),
    ];
    let config = DeliveryConfiguration { zip: "90210".to_string(), message: "m".to_string() };
    let r = run_delivery(&config, &groups);
    let handles: Vec<String> = r
        .operations
        .iter()
        .map(|op| match op {
            Operation::Rename { delivery_option_handle, .. } => delivery_option_handle.clone(),
            _ => panic!("only renames expected"),
        })
        .collect();
    assert_eq!(handles, vec!["one".to_string(), "two".to_string(), "three".to_string()]);
}

#[test]
fn delivery_same_input_same_output() {
    let groups = vec![group_with_zip("90210", vec![option_with_title("A", "Standard")])];
    let first = delivery_function(Some(CONFIG), &groups);
    let second = delivery_function(Some(CONFIG), &groups);
    assert_eq!(first, second);
}

#[test]
fn move_variant_is_representable() {
    let op = Operation::Move { delivery_option_handle: "A".to_string(), index: 0 };
    assert!(matches!(op, Operation::Move { .. }));
}

#[test]
fn delivery_empty_snapshot_is_empty() {
    let groups: Vec<DeliveryGroup> = vec![];
    let r = delivery_function(Some(CONFIG), &groups).unwrap();
    assert_eq!(r.operations, vec![]);
}

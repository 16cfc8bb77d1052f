use kafka_web::groups::{build_group_list, GroupInfo, RegisteredGroup};

#[test]
fn group_info_counts_offsets() {
    let mut info = GroupInfo::new("Stable".to_string(), 4);
    assert_eq!(info.state, "Stable".to_string());
    assert_eq!(info.members, 4);
    assert_eq!(info.stored_offsets, 0);
    info.add_offset();
    info.add_offset();
    assert_eq!(info.stored_offsets, 2);
}

#[test]
fn empty_group_uses_placeholder_state() {
    let info = GroupInfo::new_empty();
    assert_eq!(info.state, "Offsets only".to_string());
    assert_eq!(info.members, 0);
    assert_eq!(info.stored_offsets, 0);
}

#[test]
fn group_list_merges_registrations_and_offsets() {
    let registered = vec![RegisteredGroup {
        name: "readers".to_string(),
        state: "Stable".to_string(),
        members: 2,
    }];
    let offsets = vec!["readers".to_string(), "writers".to_string(), "readers".to_string()];
    let groups = build_group_list(&registered, &offsets);

    let readers = groups.get(&"readers".to_string()).unwrap();
    assert_eq!(readers.state, "Stable".to_string());
    assert_eq!(readers.members, 2);
    assert_eq!(readers.stored_offsets, 2);

    let writers = groups.get(&"writers".to_string()).unwrap();
    assert_eq!(writers.state, "Offsets only".to_string());
    assert_eq!(writers.members, 0);
    assert_eq!(writers.stored_offsets, 1);

    assert_eq!(groups.keys().len(), 2);
}

#[test]
fn group_list_without_input_is_empty() {
    let groups = build_group_list(&Vec::new(), &Vec::new());
    assert!(groups.keys().is_empty());
    assert!(groups.get(&"anything".to_string()).is_none());
}

#[test]
fn later_registration_of_a_name_wins() {
    let registered = vec![
        RegisteredGroup { name: "g".to_string(), state: "Rebalancing".to_string(), members: 1 },
        RegisteredGroup { name: "g".to_string(), state: "Stable".to_string(), members: 3 },
    ];
    let groups = build_group_list(&registered, &Vec::new());
    let g = groups.get(&"g".to_string()).unwrap();
    assert_eq!(g.state, "Stable".to_string());
    assert_eq!(g.members, 3);
    assert_eq!(groups.keys().len(), 1);
}

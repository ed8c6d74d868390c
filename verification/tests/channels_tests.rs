use chatcore::channels::{Channel, Channels};

fn channel(id: u32, parent: Option<u32>) -> Channel {
    Channel::new(id, format!("channel-{}", id), 0, 10, parent, true, None, None)
}

#[test]
fn channel_flags() {
    let root = Channel::new(0, "root".to_string(), 0, 0, None, true, None, None);
    assert!(root.is_root());
    assert!(!root.is_temporary());
    assert!(!root.has_description());
    let temp = Channel::new(
        0x8000_0001,
        "scratch".to_string(),
        1,
        5,
        Some(0),
        true,
        None,
        Some("a place".to_string()),
    );
    assert!(!temp.is_root());
    assert!(temp.is_temporary());
    assert!(temp.has_description());
    let blank = Channel::new(2, "b".to_string(), 0, 0, Some(0), true, None, Some(String::new()));
    assert!(!blank.has_description());
}

#[test]
fn lookup_and_parents() {
    let mut channels = Channels::new();
    assert!(channels.add_channel(channel(0, None)));
    assert!(channels.add_channel(channel(1, Some(0))));
    assert!(channels.add_channel(channel(2, Some(1))));
    // duplicate ids are refused
    assert!(!channels.add_channel(channel(1, Some(0))));
    assert!(channels.get_channel(3).is_none());
    let two = channels.get_channel(2).unwrap().clone();
    let one = channels.get_parent(&two).unwrap().clone();
    assert_eq!(one.id, 1);
    let zero = channels.get_parent(&one).unwrap().clone();
    assert_eq!(zero.id, 0);
    assert!(channels.get_parent(&zero).is_none());
}

#[test]
fn children_come_in_table_order() {
    let mut channels = Channels::new();
    assert!(channels.add_channel(channel(0, None)));
    assert!(channels.add_channel(channel(5, Some(0))));
    assert!(channels.add_channel(channel(3, Some(0))));
    assert!(channels.add_channel(channel(9, Some(3))));
    let root = channels.get_channel(0).unwrap().clone();
    let kids = channels.get_children(&root);
    let ids: Vec<u32> = kids.iter().map(|c| c.id).collect();
    assert_eq!(ids, vec![5, 3]);
    let three = channels.get_channel(3).unwrap().clone();
    let ids3: Vec<u32> = channels.get_children(&three).iter().map(|c| c.id).collect();
    assert_eq!(ids3, vec![9]);
}

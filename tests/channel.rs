use wu::channel::{ChannelError, ChannelRegistry};

#[test]
fn channels_are_isolated() {
    let mut r: ChannelRegistry<&str> = ChannelRegistry::new();
    assert_eq!(r.register("A"), Ok(()));
    assert_eq!(r.register("B"), Ok(()));
    assert_eq!(r.push("B", "b0"), Ok(0));
    assert_eq!(r.push("A", "a0"), Ok(0));
    assert_eq!(r.push("A", "a1"), Ok(1));
    assert_eq!(r.active("B"), Ok(Some(&"b0")));
    assert_eq!(r.active("A"), Ok(Some(&"a1")));
    assert!(r.pop("A").unwrap().is_some());
    assert!(r.pop("A").unwrap().is_some());
    assert_eq!(r.active("A"), Ok(None));
    assert_eq!(r.active("B"), Ok(Some(&"b0")));
    assert_eq!(r.push("B", "b1"), Ok(1));
}

#[test]
fn unknown_tag_fails_loudly() {
    let mut r: ChannelRegistry<u8> = ChannelRegistry::new();
    assert_eq!(r.push("nope", 1), Err(ChannelError::UnknownTag));
    assert_eq!(r.active("nope"), Err(ChannelError::UnknownTag));
    assert!(matches!(r.pop("nope"), Err(ChannelError::UnknownTag)));
    assert_eq!(r.remove("nope", 0), Err(ChannelError::UnknownTag));
}

#[test]
fn duplicate_tag_is_refused() {
    let mut r: ChannelRegistry<u8> = ChannelRegistry::new();
    assert_eq!(r.register("modals"), Ok(()));
    r.push("modals", 5).unwrap();
    assert_eq!(r.register("modals"), Err(ChannelError::DuplicateTag));
    assert_eq!(r.active("modals"), Ok(Some(&5)));
}

#[test]
fn registry_bulk_operations() {
    let mut r: ChannelRegistry<u8> = ChannelRegistry::new();
    r.register("tabs").unwrap();
    for x in 0..4u8 {
        r.push("tabs", x).unwrap();
    }
    assert_eq!(r.remove("tabs", 3), Ok(()));
    assert_eq!(r.active("tabs"), Ok(Some(&2)));
    assert_eq!(r.modify("tabs", 2, 20), Ok(Some(2)));
    assert_eq!(r.active("tabs"), Ok(Some(&20)));
    assert_eq!(r.remove_many("tabs", &vec![2]), Ok(()));
    assert_eq!(r.active("tabs"), Ok(Some(&1)));
    assert_eq!(r.remove_all_except("tabs", 0), Ok(()));
    assert_eq!(r.active("tabs"), Ok(Some(&0)));
}

#[test]
fn unregistered_tag_can_be_registered_again() {
    let mut r: ChannelRegistry<u8> = ChannelRegistry::new();
    r.register("A").unwrap();
    r.register("B").unwrap();
    r.push("A", 1).unwrap();
    r.push("B", 2).unwrap();
    assert_eq!(r.unregister("A"), Ok(()));
    assert_eq!(r.active("A"), Err(ChannelError::UnknownTag));
    assert_eq!(r.active("B"), Ok(Some(&2)));
    assert_eq!(r.unregister("A"), Err(ChannelError::UnknownTag));
    assert_eq!(r.register("A"), Ok(()));
    assert_eq!(r.active("A"), Ok(None));
}

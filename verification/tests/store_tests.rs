use wz_store::ChildEntry;
use wz_store::NodeStore;
use wz_store::ObjectType;
use wz_store::OpenedArchive;
use wz_store::Version;
use wz_store::WzError;

fn opened(name: &str, patch: i32) -> OpenedArchive {
    OpenedArchive {
        root_name: name.to_owned(),
        version: Version::Gms,
        patch_version: patch,
        offset: 0,
        length: 64,
    }
}

fn entry(name: &str, kind: ObjectType) -> ChildEntry {
    ChildEntry { name: name.to_owned(), object_type: kind, offset: 16, length: 8 }
}

#[test]
fn initialize_succeeds_and_reports_patch_version() {
    let mut store = NodeStore::new();
    let r = store.initialize("Base.wz", Some(opened("Base", 42)));
    assert_eq!(r, Ok(42));
    let st = store.status();
    assert!(st.is_initialized);
    assert_eq!(st.patch_version, Some(42));
}

#[test]
fn initialize_failure_reports_init_failed_and_changes_nothing() {
    let mut store = NodeStore::new();
    let r = store.initialize("Base.wz", None);
    assert_eq!(r, Err(WzError::InitFailed));
    let st = store.status();
    assert!(!st.is_initialized);
    assert_eq!(st.patch_version, None);
}

#[test]
fn initialize_same_path_twice_is_idempotent() {
    let mut store = NodeStore::new();
    assert_eq!(store.initialize("Base.wz", Some(opened("Base", 7))), Ok(7));
    store.parse_node("", Some(vec![entry("Item", ObjectType::Directory)])).unwrap();
    // The second initialization toward the same path succeeds with the same
    // patch version, without consulting the new open attempt at all.
    assert_eq!(store.initialize("Base.wz", Some(opened("Other", 99))), Ok(7));
    assert_eq!(store.initialize("Base.wz", None), Ok(7));
    // Nodes resolved before the second call are still there, untouched.
    let info = store.get_node_info("Item").unwrap();
    assert_eq!(info.name, "Item");
}

#[test]
fn initialize_new_path_replaces_root_wholesale() {
    let mut store = NodeStore::new();
    assert_eq!(store.initialize("Base.wz", Some(opened("Base", 7))), Ok(7));
    store.parse_node("", Some(vec![entry("Item", ObjectType::Directory)])).unwrap();
    assert_eq!(store.initialize("New.wz", Some(opened("New", 8))), Ok(8));
    // The old tree is gone: the fresh root is unparsed and childless.
    assert_eq!(store.get_node_info("Item").unwrap_err(), WzError::NodeNotFound);
    assert_eq!(store.status().patch_version, Some(8));
}

#[test]
fn status_on_uninitialized_store() {
    let store = NodeStore::new();
    let st = store.status();
    assert!(!st.is_initialized);
    assert!(!st.is_load_items);
    assert_eq!(st.patch_version, None);
}

#[test]
fn items_unloaded_until_item_subtree_parsed() {
    let mut store = NodeStore::new();
    store.initialize("Base.wz", Some(opened("Base", 1))).unwrap();
    // Fresh root: nothing is materialized at all.
    assert!(!store.status().is_load_items);
    // Parsing the root discovers "Item", but "Item" itself is still
    // unparsed and childless.
    store.parse_node("", Some(vec![entry("Item", ObjectType::Directory)])).unwrap();
    assert!(!store.status().is_load_items);
    // Only explicitly parsing "Item" with at least one child loads items.
    store.parse_node("Item", Some(vec![entry("0100.img", ObjectType::Image)])).unwrap();
    assert!(store.status().is_load_items);
    // Unparsing "Item" releases them again.
    store.unparse_node("Item").unwrap();
    assert!(!store.status().is_load_items);
}

#[test]
fn children_info_of_fresh_root_is_empty_not_an_error() {
    let mut store = NodeStore::new();
    store.initialize("Base.wz", Some(opened("Base", 1))).unwrap();
    let infos = store.get_children_info("").unwrap();
    assert!(infos.is_empty());
}

#[test]
fn node_info_of_root_and_children() {
    let mut store = NodeStore::new();
    store.initialize("Base.wz", Some(opened("Base", 1))).unwrap();
    let root = store.get_node_info("").unwrap();
    assert_eq!(root.name, "Base");
    assert_eq!(root.node_type, "Directory");
    assert!(!root.has_child);

    store
        .parse_node(
            "",
            Some(vec![
                entry("Character", ObjectType::Directory),
                entry("Item", ObjectType::Directory),
            ]),
        )
        .unwrap();
    let root = store.get_node_info("").unwrap();
    assert!(root.has_child);
    let infos = store.get_children_info("").unwrap();
    assert_eq!(infos.len(), 2);
    assert_eq!(infos[0].name, "Character");
    assert_eq!(infos[1].name, "Item");
    assert!(!infos[0].has_child);

    let item = store.get_node_info("Item").unwrap();
    assert_eq!(item.name, "Item");
    assert_eq!(item.node_type, "Directory");
    assert!(!item.has_child);
}

#[test]
fn resolve_is_repeatable_while_root_unchanged() {
    let mut store = NodeStore::new();
    store.initialize("Base.wz", Some(opened("Base", 1))).unwrap();
    store.parse_node("", Some(vec![entry("Item", ObjectType::Directory)])).unwrap();
    store.parse_node("Item", Some(vec![entry("0100.img", ObjectType::Image)])).unwrap();
    let first = store.get_node_info("Item/0100.img").unwrap();
    let second = store.get_node_info("Item/0100.img").unwrap();
    assert_eq!(first.name, second.name);
    assert_eq!(first.node_type, second.node_type);
    assert_eq!(first.has_child, second.has_child);
    assert_eq!(first.name, "0100.img");
    assert_eq!(first.node_type, "Image");
}

#[test]
fn resolution_beyond_unparsed_node_is_not_found() {
    let mut store = NodeStore::new();
    store.initialize("Base.wz", Some(opened("Base", 1))).unwrap();
    store.parse_node("", Some(vec![entry("Item", ObjectType::Directory)])).unwrap();
    // "Item" exists but is unparsed: its grandchildren are unknown.
    assert_eq!(
        store.get_node_info("Item/anything").unwrap_err(),
        WzError::NodeNotFound
    );
    assert_eq!(
        store.get_children_info("Item/anything").unwrap_err(),
        WzError::NodeNotFound
    );
}

#[test]
fn unparse_then_parse_discards_stale_children() {
    let mut store = NodeStore::new();
    store.initialize("Base.wz", Some(opened("Base", 1))).unwrap();
    store.parse_node("", Some(vec![entry("Item", ObjectType::Directory)])).unwrap();
    store
        .parse_node(
            "Item",
            Some(vec![
                entry("0100.img", ObjectType::Image),
                entry("0101.img", ObjectType::Image),
            ]),
        )
        .unwrap();
    store.unparse_node("Item").unwrap();
    assert!(store.get_children_info("Item").unwrap().is_empty());
    store.parse_node("Item", Some(vec![entry("0200.img", ObjectType::Image)])).unwrap();
    let infos = store.get_children_info("Item").unwrap();
    assert_eq!(infos.len(), 1);
    assert_eq!(infos[0].name, "0200.img");
}

#[test]
fn parse_of_parsed_node_is_a_no_op_and_unparse_of_unparsed_too() {
    let mut store = NodeStore::new();
    store.initialize("Base.wz", Some(opened("Base", 1))).unwrap();
    store.parse_node("", Some(vec![entry("Item", ObjectType::Directory)])).unwrap();
    // Re-parsing the already-parsed root ignores the new payload entirely.
    assert_eq!(
        store.parse_node("", Some(vec![entry("Ghost", ObjectType::Directory)])),
        Ok(())
    );
    let infos = store.get_children_info("").unwrap();
    assert_eq!(infos.len(), 1);
    assert_eq!(infos[0].name, "Item");
    // Unparsing an already-unparsed node succeeds and changes nothing.
    assert_eq!(store.unparse_node("Item"), Ok(()));
    assert_eq!(store.unparse_node("Item"), Ok(()));
    assert_eq!(store.get_node_info("Item").unwrap().name, "Item");
}

#[test]
fn parse_failures() {
    let mut store = NodeStore::new();
    assert_eq!(store.parse_node("", None).unwrap_err(), WzError::NodeNotFound);
    store.initialize("Base.wz", Some(opened("Base", 1))).unwrap();
    // Decode failure surfaces as ParseFailed, with nothing changed.
    assert_eq!(store.parse_node("", None).unwrap_err(), WzError::ParseFailed);
    assert!(!store.get_node_info("").unwrap().has_child);
    // Colliding sibling names are a malformed payload.
    assert_eq!(
        store
            .parse_node(
                "",
                Some(vec![
                    entry("Item", ObjectType::Directory),
                    entry("Item", ObjectType::Directory),
                ]),
            )
            .unwrap_err(),
        WzError::ParseFailed
    );
    assert!(!store.get_node_info("").unwrap().has_child);
    // A path that resolves nowhere is NodeNotFound.
    assert_eq!(
        store.parse_node("Missing", Some(vec![])).unwrap_err(),
        WzError::NodeNotFound
    );
    assert_eq!(store.unparse_node("Missing").unwrap_err(), WzError::NodeNotFound);
}

#[test]
fn raw_location_reports_what_to_decode() {
    let mut store = NodeStore::new();
    assert_eq!(store.raw_location("").unwrap_err(), WzError::NodeNotFound);
    store.initialize("Base.wz", Some(opened("Base", 1))).unwrap();
    // The fresh root is unparsed: its raw location is what must be decoded.
    assert_eq!(store.raw_location(""), Ok(Some((0, 64))));
    store.parse_node("", Some(vec![entry("Item", ObjectType::Directory)])).unwrap();
    // A parsed node needs no decoding.
    assert_eq!(store.raw_location(""), Ok(None));
    assert_eq!(store.raw_location("Item"), Ok(Some((16, 8))));
    assert_eq!(store.raw_location("Nope").unwrap_err(), WzError::NodeNotFound);
}

#[test]
fn targets_tracks_the_loaded_source() {
    let mut store = NodeStore::new();
    assert!(!store.targets("Base.wz"));
    store.initialize("Base.wz", Some(opened("Base", 1))).unwrap();
    assert!(store.targets("Base.wz"));
    assert!(!store.targets("Other.wz"));
}

#[test]
fn unparsing_the_root_releases_the_whole_tree() {
    let mut store = NodeStore::new();
    store.initialize("Base.wz", Some(opened("Base", 1))).unwrap();
    store.parse_node("", Some(vec![entry("Item", ObjectType::Directory)])).unwrap();
    store.parse_node("Item", Some(vec![entry("0100.img", ObjectType::Image)])).unwrap();
    store.unparse_node("").unwrap();
    assert!(store.get_children_info("").unwrap().is_empty());
    assert_eq!(store.get_node_info("Item").unwrap_err(), WzError::NodeNotFound);
    // The store is still initialized toward the same source.
    assert!(store.status().is_initialized);
    assert_eq!(store.status().patch_version, Some(1));
}

#[test]
fn empty_segments_match_no_child() {
    let mut store = NodeStore::new();
    store.initialize("Base.wz", Some(opened("Base", 1))).unwrap();
    store.parse_node("", Some(vec![entry("Item", ObjectType::Directory)])).unwrap();
    assert_eq!(store.get_node_info("/Item").unwrap_err(), WzError::NodeNotFound);
    assert_eq!(store.get_node_info("Item/").unwrap_err(), WzError::NodeNotFound);
    assert_eq!(store.get_node_info("/").unwrap_err(), WzError::NodeNotFound);
}

#[test]
fn shared_store_serves_the_same_operations_under_its_lock() {
    let (shared, _) = wz_store::SharedStore::new();
    assert_eq!(shared.initialize("Base.wz", Some(opened("Base", 3))).0, Ok(3));
    assert_eq!(shared.raw_location("").0, Ok(Some((0, 64))));
    shared.parse_node("", Some(vec![entry("Item", ObjectType::Directory)])).0.unwrap();
    assert!(!shared.status().0.is_load_items);
    shared.parse_node("Item", Some(vec![entry("0100.img", ObjectType::Image)])).0.unwrap();
    assert!(shared.status().0.is_load_items);
    let infos = shared.get_children_info("Item").0.unwrap();
    assert_eq!(infos.len(), 1);
    assert_eq!(infos[0].name, "0100.img");
    shared.unparse_node("Item").0.unwrap();
    assert!(!shared.status().0.is_load_items);
    assert_eq!(shared.get_node_info("Item").0.unwrap().name, "Item");
}

#[test]
fn version_tags() {
    assert_eq!(Version::from_tag(&"GMS".to_owned()), Version::Gms);
    assert_eq!(Version::from_tag(&"EMS".to_owned()), Version::Ems);
    assert_eq!(Version::from_tag(&"BMS".to_owned()), Version::Bms);
    assert_eq!(Version::from_tag(&"gms".to_owned()), Version::Unknown);
    assert_eq!(Version::from_tag(&"".to_owned()), Version::Unknown);
}

#[test]
fn object_type_tags() {
    assert_eq!(ObjectType::Directory.tag(), "Directory");
    assert_eq!(ObjectType::Image.tag(), "Image");
    assert_eq!(ObjectType::SubProperty.tag(), "SubProperty");
    assert_eq!(ObjectType::Primitive.tag(), "Primitive");
}

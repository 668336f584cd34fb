use jay::cli::{AddContainerArgs, AddItemArgs, Location};
use jay::data::{JsonDataService, RecordKind};
use jay::error::Error;
use jay::ids::RecordId;
use jay::locator::resolve;
use jay::models::{ContainerModel, ItemModel, JayDataModel};
use jay::time::Timestamp;

const A: u128 = 0xa1a2a3a4b1b2c1c2d1d2d3d4d5d6d7d8;
const B: u128 = 0x550e8400e29b41d4a716446655440000;
const C: u128 = 0x00112233445566778899aabbccddeeff;

fn container(id: u128, name: &str) -> ContainerModel {
    ContainerModel {
        uuid: RecordId { value: id },
        created_date: Timestamp { secs: 0, nanos: 0 },
        name: name.to_string(),
        description: None,
        location: None,
        extra: Vec::new(),
    }
}

fn item(id: u128, name: &str, location: u128) -> ItemModel {
    ItemModel {
        uuid: RecordId { value: id },
        created_date: Timestamp { secs: 0, nanos: 0 },
        name: name.to_string(),
        location: RecordId { value: location },
        quantity: 1,
        description: None,
        extra: Vec::new(),
    }
}

fn store(containers: Vec<ContainerModel>, items: Vec<ItemModel>) -> JsonDataService {
    let models = JayDataModel { containers, items, extra: Vec::new() };
    match JsonDataService::new(models) {
        Ok(s) => s,
        Err(e) => panic!("store refused: {:?}", e),
    }
}

#[test]
fn garage_twice_is_ambiguous_and_resolves_by_identifier() {
    let s = store(vec![container(A, "Garage"), container(B, "Garage")], Vec::new());
    match s.resolve(RecordKind::Container, "Garage") {
        Err(Error::AmbiguousName(name, ids)) => {
            assert_eq!(name, "Garage");
            assert_eq!(ids, vec![RecordId { value: A }, RecordId { value: B }]);
        }
        other => panic!("unexpected {:?}", other),
    }
    let a = RecordId { value: A }.to_string();
    let found = s.resolve_container(&a).unwrap();
    assert_eq!(found.uuid, RecordId { value: A });
    assert_eq!(s.resolve(RecordKind::Container, &a).unwrap(), 0);
}

#[test]
fn empty_store_reports_missing_name_and_missing_identifier() {
    let s = store(Vec::new(), Vec::new());
    match s.resolve(RecordKind::Container, "anything") {
        Err(Error::NameNotFound(n)) => assert_eq!(n, "anything"),
        other => panic!("unexpected {:?}", other),
    }
    match s.resolve(RecordKind::Container, "550e8400-e29b-41d4-a716-446655440000") {
        Err(Error::IdentifierNotFound(id)) => assert_eq!(id, RecordId { value: B }),
        other => panic!("unexpected {:?}", other),
    }
}

#[test]
fn adding_hammer_appends_item_in_container() {
    let mut s = store(vec![container(A, "Shed")], Vec::new());
    let args = AddItemArgs {
        name: "Hammer".to_string(),
        location: Location::Uuid(RecordId { value: A }),
        quantity: 3,
        description: None,
        r_type: None,
    };
    let id = s.add_item(args).unwrap();
    assert_eq!(s.models.items.len(), 1);
    let hammer = &s.models.items[0];
    assert_eq!(hammer.uuid, id);
    assert_eq!(hammer.name, "Hammer");
    assert_eq!(hammer.quantity, 3);
    assert_eq!(hammer.location, RecordId { value: A });
    assert_eq!(s.models.containers.len(), 1);
}

#[test]
fn present_identifier_resolves_to_its_record() {
    let s = store(vec![container(A, "Shed"), container(B, "Attic")], vec![item(C, "Saw", B)]);
    let b = RecordId { value: B }.to_string();
    assert_eq!(s.resolve(RecordKind::Container, &b).unwrap(), 1);
    let c = RecordId { value: C }.to_string();
    assert_eq!(s.resolve_item(&c).unwrap().name, "Saw");
    // other accepted spellings of the same identifier
    assert_eq!(s.resolve(RecordKind::Container, "{550E8400-E29B-41D4-A716-446655440000}").unwrap(), 1);
    assert_eq!(s.resolve(RecordKind::Container, "550e8400e29b41d4a716446655440000").unwrap(), 1);
}

#[test]
fn absent_identifier_is_never_a_name_error() {
    // a container is even named like the identifier's text
    let text = RecordId { value: C }.to_string();
    let s = store(vec![container(A, &text)], Vec::new());
    match s.resolve(RecordKind::Container, &text) {
        Err(Error::IdentifierNotFound(id)) => assert_eq!(id, RecordId { value: C }),
        other => panic!("unexpected {:?}", other),
    }
}

#[test]
fn unique_name_resolves_to_its_record() {
    let s = store(vec![container(A, "Shed"), container(B, "Attic")], vec![item(C, "Saw", A)]);
    assert_eq!(s.resolve(RecordKind::Container, "Attic").unwrap(), 1);
    assert_eq!(s.resolve(RecordKind::Item, "Saw").unwrap(), 0);
    assert_eq!(s.resolve_container("Shed").unwrap().uuid, RecordId { value: A });
}

#[test]
fn names_match_exactly_and_by_case() {
    let s = store(vec![container(A, "Shed")], Vec::new());
    match s.resolve(RecordKind::Container, "shed") {
        Err(Error::NameNotFound(n)) => assert_eq!(n, "shed"),
        other => panic!("unexpected {:?}", other),
    }
    match s.resolve(RecordKind::Item, "Shed") {
        Err(Error::NameNotFound(n)) => assert_eq!(n, "Shed"),
        other => panic!("unexpected {:?}", other),
    }
}

#[test]
fn ambiguous_name_lists_every_match_in_order() {
    let s = store(
        Vec::new(),
        vec![item(A, "Box", C), item(B, "Lid", C), item(C, "Box", C), item(7, "Box", C)],
    );
    match s.resolve(RecordKind::Item, "Box") {
        Err(Error::AmbiguousName(name, ids)) => {
            assert_eq!(name, "Box");
            assert_eq!(ids, vec![RecordId { value: A }, RecordId { value: C }, RecordId { value: 7 }]);
        }
        other => panic!("unexpected {:?}", other),
    }
}

#[test]
fn generic_resolve_on_a_collection() {
    let v = vec![container(A, "x"), container(B, "y")];
    assert_eq!(resolve(&v, "y").unwrap(), 1);
    assert!(matches!(resolve(&v, "z"), Err(Error::NameNotFound(_))));
}

#[test]
fn store_refuses_shared_identifiers() {
    let models = JayDataModel {
        containers: vec![container(A, "x"), container(B, "y"), container(A, "z")],
        items: Vec::new(),
        extra: Vec::new(),
    };
    match JsonDataService::new(models) {
        Err(Error::DuplicateIdentifier(id)) => assert_eq!(id, RecordId { value: A }),
        other => panic!("unexpected {:?}", other.map(|_| ())),
    }
    let models = JayDataModel {
        containers: Vec::new(),
        items: vec![item(B, "x", A), item(B, "y", A)],
        extra: Vec::new(),
    };
    assert!(matches!(JsonDataService::new(models), Err(Error::DuplicateIdentifier(_))));
}

#[test]
fn item_quantity_must_be_positive() {
    let mut s = store(vec![container(A, "Shed")], Vec::new());
    let args = AddItemArgs {
        name: "Nail".to_string(),
        location: Location::Name("Shed".to_string()),
        quantity: 0,
        description: None,
        r_type: None,
    };
    assert!(matches!(s.add_item(args), Err(Error::MalformedInput(_))));
    assert!(s.models.items.is_empty());
}

#[test]
fn item_location_must_resolve() {
    let mut s = store(vec![container(A, "Shed"), container(B, "Shed")], Vec::new());
    let args = AddItemArgs {
        name: "Nail".to_string(),
        location: Location::Name("Shed".to_string()),
        quantity: 2,
        description: None,
        r_type: None,
    };
    assert!(matches!(s.add_item(args), Err(Error::AmbiguousName(_, _))));
    let args = AddItemArgs {
        name: "Nail".to_string(),
        location: Location::Uuid(RecordId { value: C }),
        quantity: 2,
        description: None,
        r_type: None,
    };
    assert!(matches!(s.add_item(args), Err(Error::IdentifierNotFound(_))));
    assert!(s.models.items.is_empty());
}

#[test]
fn location_by_name_never_reads_an_identifier() {
    let text = RecordId { value: A }.to_string();
    let s = store(vec![container(A, "Shed"), container(B, &text)], Vec::new());
    let found = s.find_container_by_location(&Location::Name(text.clone())).unwrap();
    assert_eq!(found.uuid, RecordId { value: B });
    let found = s.find_container_by_location(&Location::Uuid(RecordId { value: A })).unwrap();
    assert_eq!(found.name, "Shed");
}

#[test]
fn add_with_given_identifier_and_time() {
    let mut s = store(vec![container(A, "House")], Vec::new());
    let args = AddContainerArgs {
        name: "Drawer".to_string(),
        location: Some(Location::Name("House".to_string())),
        description: Some("top".to_string()),
        r_type: None,
    };
    let t = Timestamp { secs: 1431648000, nanos: 5 };
    assert_eq!(s.add_container_with(args, RecordId { value: B }, t).unwrap(), RecordId { value: B });
    let drawer = &s.models.containers[1];
    assert_eq!(drawer.location, Some(RecordId { value: A }));
    assert_eq!(drawer.created_date, t);
    assert_eq!(drawer.description, Some("top".to_string()));
    let again = AddContainerArgs { name: "Other".to_string(), location: None, description: None, r_type: None };
    match s.add_container_with(again, RecordId { value: A }, t) {
        Err(Error::DuplicateIdentifier(id)) => assert_eq!(id, RecordId { value: A }),
        other => panic!("unexpected {:?}", other),
    }
    assert_eq!(s.models.containers.len(), 2);
    let nail = AddItemArgs {
        name: "Nail".to_string(),
        location: Location::Name("Drawer".to_string()),
        quantity: 40,
        description: None,
        r_type: None,
    };
    assert_eq!(s.add_item_with(nail, RecordId { value: C }, t).unwrap(), RecordId { value: C });
    assert_eq!(s.models.items[0].location, RecordId { value: B });
}

#[test]
fn delete_by_name_or_identifier() {
    let mut s = store(vec![container(A, "Shed"), container(B, "Attic")], vec![item(C, "Saw", A)]);
    assert_eq!(s.delete_container("Shed").unwrap(), RecordId { value: A });
    assert_eq!(s.models.containers.len(), 1);
    assert_eq!(s.models.containers[0].name, "Attic");
    assert!(matches!(s.delete_container("Shed"), Err(Error::NameNotFound(_))));
    let c = RecordId { value: C }.to_string();
    assert_eq!(s.delete_item(&c).unwrap(), RecordId { value: C });
    assert!(s.models.items.is_empty());
}

#[test]
fn within_lists_contents_in_order() {
    let mut inner = container(C, "Box");
    inner.location = Some(RecordId { value: A });
    let s = store(
        vec![container(A, "Shed"), inner],
        vec![item(1, "Saw", A), item(2, "Pen", B), item(3, "Axe", A)],
    );
    let items: Vec<&str> = s.items_within(RecordId { value: A }).iter().map(|i| i.name.as_str()).collect();
    assert_eq!(items, vec!["Saw", "Axe"]);
    let boxes: Vec<&str> = s.containers_within(RecordId { value: A }).iter().map(|c| c.name.as_str()).collect();
    assert_eq!(boxes, vec!["Box"]);
    assert!(s.items_within(RecordId { value: C }).is_empty());
}

#[test]
fn select_and_find_by_identifier() {
    let s = store(vec![container(A, "Shed"), container(B, "Attic"), container(C, "Shed")], vec![item(7, "Saw", A)]);
    let sheds: Vec<RecordId> = s.select_containers_by_name("Shed").iter().map(|c| c.uuid).collect();
    assert_eq!(sheds, vec![RecordId { value: A }, RecordId { value: C }]);
    assert!(s.select_containers_by_name("Cellar").is_empty());
    assert_eq!(s.find_container_by_uuid(RecordId { value: B }).unwrap().name, "Attic");
    assert!(matches!(s.find_item_by_uuid(RecordId { value: 8 }), Err(Error::IdentifierNotFound(_))));
    let seven = RecordId { value: 7 }.to_string();
    assert_eq!(s.find_item_by_uuid_str(&seven).unwrap().name, "Saw");
    match s.find_item_by_uuid_str("Saw") {
        Err(Error::MalformedInput(t)) => assert_eq!(t, "Saw"),
        other => panic!("unexpected {:?}", other),
    }
}

#[test]
fn delete_prefers_items_then_containers() {
    let mut s = store(vec![container(A, "Saw"), container(B, "Shed")], vec![item(C, "Saw", B)]);
    assert_eq!(s.delete("Saw").unwrap(), (RecordKind::Item, RecordId { value: C }));
    assert_eq!(s.models.containers.len(), 2);
    assert_eq!(s.delete("Saw").unwrap(), (RecordKind::Container, RecordId { value: A }));
    assert!(matches!(s.delete("Saw"), Err(Error::NameNotFound(_))));
    let b = RecordId { value: B }.to_string();
    assert_eq!(s.delete(&b).unwrap(), (RecordKind::Container, RecordId { value: B }));
    assert!(s.models.containers.is_empty());
}

#[test]
fn delete_stops_at_an_ambiguous_item() {
    let mut s = store(vec![container(A, "Box")], vec![item(B, "Box", A), item(C, "Box", A)]);
    assert!(matches!(s.delete("Box"), Err(Error::AmbiguousName(_, _))));
    assert_eq!(s.models.items.len(), 2);
    assert_eq!(s.models.containers.len(), 1);
}

#[test]
fn each_error_has_its_own_exit_code() {
    let codes = vec![
        Error::MalformedInput("q".to_string()).exit_code(),
        Error::IdentifierNotFound(RecordId { value: 1 }).exit_code(),
        Error::NameNotFound("n".to_string()).exit_code(),
        Error::AmbiguousName("n".to_string(), Vec::new()).exit_code(),
        Error::DuplicateIdentifier(RecordId { value: 1 }).exit_code(),
        Error::StorageError("s".to_string()).exit_code(),
    ];
    assert_eq!(codes, vec![2, 3, 4, 5, 6, 7]);
}

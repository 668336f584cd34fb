use jay::cli::Location;
use jay::db::{
    read_container_columns, read_item_columns, write_container_rows, write_item_rows, ContainerColumns, ContainerRow,
    DatabaseError, ItemRow,
};
use jay::document::{ContainerEntry, JayDocument};
use jay::error::Error;
use jay::ids::RecordId;
use jay::models::{ContainerModel, ItemModel, JayDataModel};
use jay::time::Timestamp;
use jay::useful::{format_table_option, format_table_option_display, format_table_uuid};

const A: u128 = 0xa1a2a3a4b1b2c1c2d1d2d3d4d5d6d7d8;

#[test]
fn identifier_text_round_trip() {
    let id = RecordId { value: A };
    assert_eq!(id.to_string(), "a1a2a3a4-b1b2-c1c2-d1d2-d3d4d5d6d7d8");
    assert_eq!(id.to_upper_string(), "A1A2A3A4-B1B2-C1C2-D1D2-D3D4D5D6D7D8");
    assert_eq!(RecordId::parse(&id.to_string()), Some(id));
    assert_eq!(RecordId::parse("urn:uuid:a1a2a3a4-b1b2-c1c2-d1d2-d3d4d5d6d7d8"), Some(id));
    assert_eq!(RecordId::parse("a1a2a3a4-b1b2-c1c2-d1d2-d3d4d5d6d7d"), None);
    assert_eq!(RecordId::parse(""), None);
    assert_ne!(RecordId::generate(), RecordId::generate());
}

#[test]
fn rfc2822_dates() {
    let t = Timestamp { secs: 1431648000, nanos: 0 };
    assert_eq!(t.to_rfc2822(), Some("Fri, 15 May 2015 00:00:00 +0000".to_string()));
    assert_eq!(Timestamp { secs: 0, nanos: 0 }.to_rfc2822(), Some("Thu, 1 Jan 1970 00:00:00 +0000".to_string()));
    assert_eq!(Timestamp { secs: -62167219201, nanos: 0 }.to_rfc2822(), None);
    assert_eq!(Timestamp { secs: 253402300800, nanos: 0 }.to_rfc2822(), None);
    assert_eq!(Timestamp { secs: 0, nanos: 1_000_000_000 }.to_rfc2822(), None);
    assert!(Timestamp::now().secs > 1_600_000_000);
}

#[test]
fn table_cells() {
    assert_eq!(format_table_option_display(&Some("red".to_string())), "red");
    assert_eq!(format_table_option_display(&None), "-");
    assert_eq!(format_table_option(&Some(4u8), |n| format!("{}!", n)), "4!");
    assert_eq!(format_table_option(&None::<u8>, |n| format!("{}!", n)), "-");
    assert_eq!(format_table_uuid(&RecordId { value: 255 }), "00000000-0000-0000-0000-0000000000FF");
}

#[test]
fn container_table_row() {
    let c = ContainerModel {
        uuid: RecordId { value: A },
        created_date: Timestamp { secs: 1431648000, nanos: 0 },
        name: "Shed".to_string(),
        description: None,
        location: Some(RecordId { value: 1 }),
        extra: Vec::new(),
    };
    assert_eq!(
        c.fields(),
        vec![
            "A1A2A3A4-B1B2-C1C2-D1D2-D3D4D5D6D7D8".to_string(),
            "Fri, 15 May 2015 00:00:00 +0000".to_string(),
            "Shed".to_string(),
            "-".to_string(),
            "00000000-0000-0000-0000-000000000001".to_string(),
        ]
    );
    assert_eq!(ContainerModel::headers(), vec!["UUID", "Created Date", "Name", "Description", "Location"]);
}

#[test]
fn new_records_take_their_arguments() {
    let c = ContainerModel::new("Shed".to_string(), Some("wood".to_string()), None, None);
    assert_eq!(c.name, "Shed");
    assert_eq!(c.description, Some("wood".to_string()));
    assert!(c.extra.is_empty());
    let extra = vec![("colour".to_string(), serde_json::Value::Bool(true))];
    let i = ItemModel::new("Saw".to_string(), None, c.uuid, 2, Some(extra));
    assert_eq!(i.location, c.uuid);
    assert_eq!(i.quantity, 2);
    assert_eq!(i.extra.len(), 1);
    assert_ne!(i.uuid, c.uuid);
    let d: JayDataModel = Default::default();
    assert!(d.containers.is_empty() && d.items.is_empty());
}

#[test]
fn location_flags() {
    match Location::from_flags(Some("a1a2a3a4-b1b2-c1c2-d1d2-d3d4d5d6d7d8".to_string()), Some("Shed".to_string())) {
        Ok(Some(Location::Uuid(id))) => assert_eq!(id, RecordId { value: A }),
        other => panic!("unexpected {:?}", other),
    }
    match Location::from_flags(Some("a1a2-oops".to_string()), None) {
        Err(Error::MalformedInput(t)) => assert_eq!(t, "a1a2-oops"),
        other => panic!("unexpected {:?}", other),
    }
    match Location::from_flags(None, Some("Shed".to_string())) {
        Ok(Some(Location::Name(n))) => assert_eq!(n, "Shed"),
        other => panic!("unexpected {:?}", other),
    }
    assert!(matches!(Location::from_flags(None, None), Ok(None)));
}

#[test]
fn rows_round_trip_through_columns() {
    let containers = vec![
        ContainerRow {
            uuid: RecordId { value: A },
            name: "Shed".to_string(),
            description: Some("wood".to_string()),
            r_type: None,
            created_date: 1431648000,
        },
        ContainerRow::new("Attic".to_string(), None, Some("room".to_string())),
    ];
    let cols = write_container_rows(&containers);
    assert_eq!(cols[0].uuid, "a1a2a3a4-b1b2-c1c2-d1d2-d3d4d5d6d7d8");
    assert_eq!(cols[0].created_date, 1431648000);
    let back = read_container_columns(&cols).unwrap();
    assert_eq!(back.len(), 2);
    for (a, b) in containers.iter().zip(back.iter()) {
        assert_eq!(a.uuid, b.uuid);
        assert_eq!(a.name, b.name);
        assert_eq!(a.description, b.description);
        assert_eq!(a.r_type, b.r_type);
        assert_eq!(a.created_date, b.created_date);
    }
    let items = vec![ItemRow::new("Saw".to_string(), None, None, 3, "ok".to_string())];
    let cols = write_item_rows(&items);
    let back = read_item_columns(&cols).unwrap();
    assert_eq!(back[0].uuid, items[0].uuid);
    assert_eq!(back[0].quantity, 3);
    assert_eq!(back[0].status, "ok");
    assert_eq!(back[0].created_date, back[0].modified_date);
}

#[test]
fn stored_identifier_must_be_a_uuid() {
    let cols = vec![ContainerColumns {
        uuid: "not-a-uuid".to_string(),
        name: "Shed".to_string(),
        description: None,
        r_type: None,
        created_date: 0,
    }];
    match read_container_columns(&cols) {
        Err(DatabaseError::UuidError(t)) => assert_eq!(t, "not-a-uuid"),
        other => panic!("unexpected {:?}", other),
    }
    assert!(matches!(ContainerRow::from_columns(&cols[0]), Err(DatabaseError::UuidError(_))));
}

#[test]
fn document_round_trip_keeps_records_in_order() {
    let shed = ContainerModel {
        uuid: RecordId { value: A },
        created_date: Timestamp { secs: 1431648000, nanos: 7 },
        name: "Shed".to_string(),
        description: Some("wood".to_string()),
        location: None,
        extra: vec![("colour".to_string(), serde_json::Value::String("red".to_string()))],
    };
    let drawer = ContainerModel {
        uuid: RecordId { value: 2 },
        created_date: Timestamp { secs: 5, nanos: 0 },
        name: "Drawer".to_string(),
        description: None,
        location: Some(RecordId { value: A }),
        extra: Vec::new(),
    };
    let saw = ItemModel {
        uuid: RecordId { value: 3 },
        created_date: Timestamp { secs: 6, nanos: 0 },
        name: "Saw".to_string(),
        location: RecordId { value: 2 },
        quantity: 4,
        description: None,
        extra: vec![("sharp".to_string(), serde_json::Value::Bool(true))],
    };
    let model = JayDataModel { containers: vec![shed, drawer], items: vec![saw], extra: Vec::new() };
    let doc = model.into_document();
    assert_eq!(doc.containers[0].uuid, "a1a2a3a4-b1b2-c1c2-d1d2-d3d4d5d6d7d8");
    assert_eq!(doc.containers[1].location, Some("a1a2a3a4-b1b2-c1c2-d1d2-d3d4d5d6d7d8".to_string()));
    assert_eq!(doc.items[0].location, "00000000-0000-0000-0000-000000000002");
    let back = doc.into_models().unwrap();
    assert_eq!(back.containers.len(), 2);
    assert_eq!(back.containers[0].uuid, RecordId { value: A });
    assert_eq!(back.containers[0].created_date, Timestamp { secs: 1431648000, nanos: 7 });
    assert_eq!(back.containers[0].description, Some("wood".to_string()));
    assert_eq!(back.containers[0].extra, vec![("colour".to_string(), serde_json::Value::String("red".to_string()))]);
    assert_eq!(back.containers[1].name, "Drawer");
    assert_eq!(back.containers[1].location, Some(RecordId { value: A }));
    assert_eq!(back.items[0].quantity, 4);
    assert_eq!(back.items[0].location, RecordId { value: 2 });
    assert_eq!(back.items[0].extra.len(), 1);
    let bad = JayDocument {
        containers: vec![ContainerEntry {
            uuid: "garbage".to_string(),
            created_date: Timestamp { secs: 0, nanos: 0 },
            name: "x".to_string(),
            description: None,
            location: None,
            extra: Vec::new(),
        }],
        items: Vec::new(),
        extra: Vec::new(),
    };
    match bad.into_models() {
        Err(Error::StorageError(t)) => assert_eq!(t, "garbage"),
        other => panic!("unexpected {:?}", other.map(|_| ())),
    }
}

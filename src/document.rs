//! The persisted form of the catalogue: the same records with identifiers
//! written as hyphenated UUID text. Turning it into JSON text and back is left
//! to the caller.

use vstd::prelude::*;
use crate::error::{Error, ErrorView};
use crate::ids::{RecordId, uuid_parse_of, uuid_text_of};
use crate::models::{ContainerModel, Extra, ItemModel, JayDataModel};
use crate::time::Timestamp;

verus! {

/// A container as persisted.
#[derive(Debug)]
pub struct ContainerEntry {
    pub uuid: String,
    pub created_date: Timestamp,
    pub name: String,
    pub description: Option<String>,
    pub location: Option<String>,
    pub extra: Extra,
}

/// An item as persisted.
#[derive(Debug)]
pub struct ItemEntry {
    pub uuid: String,
    pub created_date: Timestamp,
    pub name: String,
    pub location: String,
    pub quantity: u64,
    pub description: Option<String>,
    pub extra: Extra,
}

/// The persisted catalogue.
#[derive(Debug)]
pub struct JayDocument {
    pub containers: Vec<ContainerEntry>,
    pub items: Vec<ItemEntry>,
    pub extra: Extra,
}

/// `text` is the persisted form of identifier `id`.
pub open spec fn id_written(id: RecordId, text: Seq<char>) -> bool {
    text == uuid_text_of(id.value) && uuid_parse_of(text) == Some(id.value)
}

/// The identifier that a persisted text denotes (zero when it is no UUID).
pub open spec fn id_read(text: Seq<char>) -> RecordId {
    match uuid_parse_of(text) {
        Some(v) => RecordId { value: v },
        None => RecordId { value: 0 },
    }
}

/// `e` is the persisted form of container `c`.
pub open spec fn container_written(c: ContainerModel, e: ContainerEntry) -> bool {
    &&& id_written(c.uuid, e.uuid@)
    &&& match (c.location, e.location) {
        (None, None) => true,
        (Some(l), Some(t)) => id_written(l, t@),
        _ => false,
    }
    &&& e.created_date == c.created_date
    &&& e.name == c.name
    &&& e.description == c.description
    &&& e.extra == c.extra
}

/// `e` is the persisted form of item `i`.
pub open spec fn item_written(i: ItemModel, e: ItemEntry) -> bool {
    &&& id_written(i.uuid, e.uuid@)
    &&& id_written(i.location, e.location@)
    &&& e.created_date == i.created_date
    &&& e.name == i.name
    &&& e.quantity == i.quantity
    &&& e.description == i.description
    &&& e.extra == i.extra
}

/// Every identifier of a persisted container is a UUID.
pub open spec fn container_readable(e: ContainerEntry) -> bool {
    &&& uuid_parse_of(e.uuid@) is Some
    &&& e.location matches Some(t) ==> uuid_parse_of(t@) is Some
}

/// Every identifier of a persisted item is a UUID.
pub open spec fn item_readable(e: ItemEntry) -> bool {
    uuid_parse_of(e.uuid@) is Some && uuid_parse_of(e.location@) is Some
}

/// The container that a persisted one is read as.
pub open spec fn container_read(e: ContainerEntry) -> ContainerModel {
    ContainerModel {
        uuid: id_read(e.uuid@),
        created_date: e.created_date,
        name: e.name,
        description: e.description,
        location: match e.location {
            Some(t) => Some(id_read(t@)),
            None => None,
        },
        extra: e.extra,
    }
}

/// The item that a persisted one is read as.
pub open spec fn item_read(e: ItemEntry) -> ItemModel {
    ItemModel {
        uuid: id_read(e.uuid@),
        created_date: e.created_date,
        name: e.name,
        location: id_read(e.location@),
        quantity: e.quantity,
        description: e.description,
        extra: e.extra,
    }
}

/// The containers that persisted ones are read as, in order, when all are
/// readable.
pub open spec fn read_containers(es: Seq<ContainerEntry>) -> Option<Seq<ContainerModel>> {
    if forall|k: int| 0 <= k < es.len() ==> #[trigger] container_readable(es[k]) {
        Some(es.map_values(|e: ContainerEntry| container_read(e)))
    } else {
        None
    }
}

/// The items that persisted ones are read as, in order, when all are
/// readable.
pub open spec fn read_items(es: Seq<ItemEntry>) -> Option<Seq<ItemModel>> {
    if forall|k: int| 0 <= k < es.len() ==> #[trigger] item_readable(es[k]) {
        Some(es.map_values(|e: ItemEntry| item_read(e)))
    } else {
        None
    }
}

/// `d` is the persisted form of catalogue `m`: each record written, in order.
pub open spec fn document_written(m: JayDataModel, d: JayDocument) -> bool {
    &&& d.containers@.len() == m.containers@.len()
    &&& forall|k: int|
        0 <= k < m.containers@.len() ==> container_written(m.containers@[k], #[trigger] d.containers@[k])
    &&& d.items@.len() == m.items@.len()
    &&& forall|k: int| 0 <= k < m.items@.len() ==> item_written(m.items@[k], #[trigger] d.items@[k])
    &&& d.extra == m.extra
}

/// The identifier that `text` denotes; text that is no UUID makes the
/// document unreadable.
fn read_id(text: &String) -> (r: Result<RecordId, Error>)
    ensures
        match uuid_parse_of(text@) {
            Some(v) => r == Ok::<RecordId, Error>(RecordId { value: v }),
            None => r matches Err(e) && e@ == ErrorView::StorageError(text@),
        },
{
    match RecordId::parse(text.as_str()) {
        Some(id) => Ok(id),
        None => Err(Error::StorageError(text.clone())),
    }
}

impl ContainerModel {
    /// The persisted form of the container.
    pub fn into_entry(self) -> (e: ContainerEntry)
        ensures
            container_written(self, e),
    {
        let location = match self.location {
            Some(l) => Some(l.to_string()),
            None => None,
        };
        ContainerEntry {
            uuid: self.uuid.to_string(),
            created_date: self.created_date,
            name: self.name,
            description: self.description,
            location,
            extra: self.extra,
        }
    }
}

impl ItemModel {
    /// The persisted form of the item.
    pub fn into_entry(self) -> (e: ItemEntry)
        ensures
            item_written(self, e),
    {
        ItemEntry {
            uuid: self.uuid.to_string(),
            created_date: self.created_date,
            name: self.name,
            location: self.location.to_string(),
            quantity: self.quantity,
            description: self.description,
            extra: self.extra,
        }
    }
}

impl ContainerEntry {
    /// The container that this persisted one denotes; an identifier that is no
    /// UUID is a storage error that carries its text.
    pub fn into_model(self) -> (r: Result<ContainerModel, Error>)
        ensures
            container_readable(self) ==> r == Ok::<ContainerModel, Error>(container_read(self)),
            !container_readable(self) ==> (r matches Err(e) && e@ is StorageError),
    {
        let uuid = match read_id(&self.uuid) {
            Ok(id) => id,
            Err(e) => {
                return Err(e);
            },
        };
        let location = match &self.location {
            Some(t) => match read_id(t) {
                Ok(id) => Some(id),
                Err(e) => {
                    return Err(e);
                },
            },
            None => None,
        };
        Ok(ContainerModel {
            uuid,
            created_date: self.created_date,
            name: self.name,
            description: self.description,
            location,
            extra: self.extra,
        })
    }
}

impl ItemEntry {
    /// The item that this persisted one denotes; an identifier that is no UUID
    /// is a storage error that carries its text.
    pub fn into_model(self) -> (r: Result<ItemModel, Error>)
        ensures
            item_readable(self) ==> r == Ok::<ItemModel, Error>(item_read(self)),
            !item_readable(self) ==> (r matches Err(e) && e@ is StorageError),
    {
        let uuid = match read_id(&self.uuid) {
            Ok(id) => id,
            Err(e) => {
                return Err(e);
            },
        };
        let location = match read_id(&self.location) {
            Ok(id) => id,
            Err(e) => {
                return Err(e);
            },
        };
        Ok(ItemModel {
            uuid,
            created_date: self.created_date,
            name: self.name,
            location,
            quantity: self.quantity,
            description: self.description,
            extra: self.extra,
        })
    }
}

fn write_containers(v: Vec<ContainerModel>) -> (r: Vec<ContainerEntry>)
    ensures
        r@.len() == v@.len(),
        forall|k: int| 0 <= k < v@.len() ==> container_written(v@[k], #[trigger] r@[k]),
{
    let ghost all = v@;
    let mut v = v;
    let mut r: Vec<ContainerEntry> = Vec::new();
    while v.len() > 0
        invariant
            r@.len() + v@.len() == all.len(),
            v@ == all.subrange(r@.len() as int, all.len() as int),
            forall|k: int| 0 <= k < r@.len() ==> container_written(all[k], #[trigger] r@[k]),
        decreases v@.len(),
    {
        let c = v.remove(0);
        proof {
            assert(c == all[r@.len() as int]);
        }
        r.push(c.into_entry());
        proof {
            assert(v@ =~= all.subrange(r@.len() as int, all.len() as int));
        }
    }
    r
}

fn write_items(v: Vec<ItemModel>) -> (r: Vec<ItemEntry>)
    ensures
        r@.len() == v@.len(),
        forall|k: int| 0 <= k < v@.len() ==> item_written(v@[k], #[trigger] r@[k]),
{
    let ghost all = v@;
    let mut v = v;
    let mut r: Vec<ItemEntry> = Vec::new();
    while v.len() > 0
        invariant
            r@.len() + v@.len() == all.len(),
            v@ == all.subrange(r@.len() as int, all.len() as int),
            forall|k: int| 0 <= k < r@.len() ==> item_written(all[k], #[trigger] r@[k]),
        decreases v@.len(),
    {
        let i = v.remove(0);
        proof {
            assert(i == all[r@.len() as int]);
        }
        r.push(i.into_entry());
        proof {
            assert(v@ =~= all.subrange(r@.len() as int, all.len() as int));
        }
    }
    r
}

fn read_container_entries(entries: Vec<ContainerEntry>) -> (r: Result<Vec<ContainerModel>, Error>)
    ensures
        match read_containers(entries@) {
            Some(cs) => r matches Ok(m) && m@ == cs,
            None => r matches Err(e) && e@ is StorageError,
        },
{
    let ghost all = entries@;
    let mut v = entries;
    let mut r: Vec<ContainerModel> = Vec::new();
    while v.len() > 0
        invariant
            all == entries@,
            r@.len() + v@.len() == all.len(),
            v@ == all.subrange(r@.len() as int, all.len() as int),
            r@ == all.subrange(0, r@.len() as int).map_values(|e: ContainerEntry| container_read(e)),
            forall|k: int| 0 <= k < r@.len() ==> #[trigger] container_readable(all[k]),
        decreases v@.len(),
    {
        let e = v.remove(0);
        let ghost k = r@.len() as int;
        proof {
            assert(e == all[k]);
        }
        match e.into_model() {
            Ok(c) => {
                r.push(c);
                proof {
                    assert(r@ =~= all.subrange(0, r@.len() as int).map_values(|e: ContainerEntry| container_read(e)));
                    assert(v@ =~= all.subrange(r@.len() as int, all.len() as int));
                }
            },
            Err(err) => {
                proof {
                    assert(!container_readable(all[k]));
                }
                return Err(err);
            },
        }
    }
    proof {
        assert(all.subrange(0, all.len() as int) =~= all);
    }
    Ok(r)
}

fn read_item_entries(entries: Vec<ItemEntry>) -> (r: Result<Vec<ItemModel>, Error>)
    ensures
        match read_items(entries@) {
            Some(is) => r matches Ok(m) && m@ == is,
            None => r matches Err(e) && e@ is StorageError,
        },
{
    let ghost all = entries@;
    let mut v = entries;
    let mut r: Vec<ItemModel> = Vec::new();
    while v.len() > 0
        invariant
            all == entries@,
            r@.len() + v@.len() == all.len(),
            v@ == all.subrange(r@.len() as int, all.len() as int),
            r@ == all.subrange(0, r@.len() as int).map_values(|e: ItemEntry| item_read(e)),
            forall|k: int| 0 <= k < r@.len() ==> #[trigger] item_readable(all[k]),
        decreases v@.len(),
    {
        let e = v.remove(0);
        let ghost k = r@.len() as int;
        proof {
            assert(e == all[k]);
        }
        match e.into_model() {
            Ok(i) => {
                r.push(i);
                proof {
                    assert(r@ =~= all.subrange(0, r@.len() as int).map_values(|e: ItemEntry| item_read(e)));
                    assert(v@ =~= all.subrange(r@.len() as int, all.len() as int));
                }
            },
            Err(err) => {
                proof {
                    assert(!item_readable(all[k]));
                }
                return Err(err);
            },
        }
    }
    proof {
        assert(all.subrange(0, all.len() as int) =~= all);
    }
    Ok(r)
}

impl JayDataModel {
    /// The persisted form of the catalogue: every record, in order.
    pub fn into_document(self) -> (d: JayDocument)
        ensures
            document_written(self, d),
    {
        JayDocument {
            containers: write_containers(self.containers),
            items: write_items(self.items),
            extra: self.extra,
        }
    }
}

impl JayDocument {
    /// The catalogue that this persisted one denotes, records in order; an
    /// identifier that is no UUID is a storage error.
    pub fn into_models(self) -> (r: Result<JayDataModel, Error>)
        ensures
            match (read_containers(self.containers@), read_items(self.items@)) {
                (Some(cs), Some(is)) => r matches Ok(m) && m.containers@ == cs && m.items@ == is && m.extra
                    == self.extra,
                _ => r matches Err(e) && e@ is StorageError,
            },
    {
        let containers = match read_container_entries(self.containers) {
            Ok(c) => c,
            Err(e) => {
                return Err(e);
            },
        };
        let items = match read_item_entries(self.items) {
            Ok(i) => i,
            Err(e) => {
                return Err(e);
            },
        };
        Ok(JayDataModel { containers, items, extra: self.extra })
    }
}

/// Reading back the persisted form of a catalogue yields the same records
/// (identifiers, creation times, names, descriptions, locations, quantities
/// and extension attributes), in the same order.
pub proof fn lemma_document_round_trip(m: JayDataModel, d: JayDocument)
    requires
        document_written(m, d),
    ensures
        read_containers(d.containers@) == Some(m.containers@),
        read_items(d.items@) == Some(m.items@),
        d.extra == m.extra,
{
    let cs = d.containers@;
    let is = d.items@;
    assert forall|k: int| 0 <= k < cs.len() implies #[trigger] container_readable(cs[k]) by {
        assert(container_written(m.containers@[k], cs[k]));
    }
    assert forall|k: int| 0 <= k < is.len() implies #[trigger] item_readable(is[k]) by {
        assert(item_written(m.items@[k], is[k]));
    }
    assert(cs.map_values(|e: ContainerEntry| container_read(e)) =~= m.containers@) by {
        assert forall|k: int| 0 <= k < cs.len() implies #[trigger] container_read(cs[k]) == m.containers@[k] by {
            assert(container_written(m.containers@[k], cs[k]));
        }
    }
    assert(is.map_values(|e: ItemEntry| item_read(e)) =~= m.items@) by {
        assert forall|k: int| 0 <= k < is.len() implies #[trigger] item_read(is[k]) == m.items@[k] by {
            assert(item_written(m.items@[k], is[k]));
        }
    }
}

} // verus!

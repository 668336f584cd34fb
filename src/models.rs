//! The records of the catalogue: containers, items, and the document that
//! holds both collections.

use vstd::prelude::*;
use vstd::string::StringExecFns;
use crate::ids::{RecordId, uuid_upper_text_of};
use crate::locator::Record;
use crate::time::{Timestamp, rfc2822_of};
use crate::useful::{empty_cell, empty_cell_string, format_table_option, format_table_option_display, format_table_uuid};

verus! {

/// A JSON value of `serde_json`, carried through unchanged.
#[verifier::external_type_specification]
#[verifier::external_body]
pub struct ExJsonValue(serde_json::Value);

/// Extension attributes: fields of a persisted record outside the fixed
/// schema, kept in order and written back as they were read.
pub type Extra = Vec<(String, serde_json::Value)>;

/// A named storage location, possibly stored inside another container.
#[derive(Debug)]
pub struct ContainerModel {
    pub uuid: RecordId,
    pub created_date: Timestamp,
    pub name: String,
    pub description: Option<String>,
    /// The container that holds this one, if any.
    pub location: Option<RecordId>,
    pub extra: Extra,
}

/// A quantity of a physical object, stored in a container.
#[derive(Debug)]
pub struct ItemModel {
    pub uuid: RecordId,
    pub created_date: Timestamp,
    pub name: String,
    /// The container that holds the item.
    pub location: RecordId,
    pub quantity: u64,
    pub description: Option<String>,
    pub extra: Extra,
}

/// The whole catalogue: every container and every item, in insertion order.
#[derive(Debug)]
pub struct JayDataModel {
    pub containers: Vec<ContainerModel>,
    pub items: Vec<ItemModel>,
    pub extra: Extra,
}

impl Record for ContainerModel {
    open spec fn key(&self) -> (RecordId, Seq<char>) {
        (self.uuid, self.name@)
    }

    fn id(&self) -> (r: RecordId) {
        self.uuid
    }

    fn name(&self) -> (r: &String) {
        &self.name
    }
}

impl Record for ItemModel {
    open spec fn key(&self) -> (RecordId, Seq<char>) {
        (self.uuid, self.name@)
    }

    fn id(&self) -> (r: RecordId) {
        self.uuid
    }

    fn name(&self) -> (r: &String) {
        &self.name
    }
}

/// The attributes given, or none.
fn extra_or_empty(extra: Option<Extra>) -> (r: Extra)
    ensures
        match extra {
            Some(e) => r == e,
            None => r@.len() == 0,
        },
{
    match extra {
        Some(e) => e,
        None => Vec::new(),
    }
}

/// The column titles of a container table.
pub open spec fn container_headers() -> Seq<Seq<char>> {
    seq!["UUID"@, "Created Date"@, "Name"@, "Description"@, "Location"@]
}

impl ContainerModel {
    /// A new container with a fresh random identifier, created now.
    pub fn new(name: String, description: Option<String>, location: Option<RecordId>, extra: Option<Extra>) -> (r: Self)
        ensures
            r.name == name,
            r.description == description,
            r.location == location,
            extra matches Some(e) ==> r.extra == e,
            extra is None ==> r.extra@.len() == 0,
    {
        ContainerModel {
            uuid: RecordId::generate(),
            created_date: Timestamp::now(),
            name,
            description,
            location,
            extra: extra_or_empty(extra),
        }
    }

    /// The cells of this container's table row: identifier, creation date,
    /// name, description and location, with `-` for what is absent.
    pub fn fields(&self) -> (r: Vec<String>)
        ensures
            r@.len() == 5,
            r@[0]@ == uuid_upper_text_of(self.uuid.value),
            r@[1]@ == (if self.created_date.has_rfc2822() {
                rfc2822_of(self.created_date.secs as int, self.created_date.nanos as int)
            } else {
                empty_cell()
            }),
            r@[2]@ == self.name@,
            r@[3]@ == (match self.description {
                Some(d) => d@,
                None => empty_cell(),
            }),
            r@[4]@ == (match self.location {
                Some(l) => uuid_upper_text_of(l.value),
                None => empty_cell(),
            }),
    {
        let date = match self.created_date.to_rfc2822() {
            Some(d) => d,
            None => empty_cell_string(),
        };
        let location = format_table_option(&self.location, |uuid: &RecordId| -> (s: String)
            ensures
                s@ == uuid_upper_text_of(uuid.value),
            { format_table_uuid(uuid) });
        let mut r: Vec<String> = Vec::new();
        r.push(format_table_uuid(&self.uuid));
        r.push(date);
        r.push(self.name.clone());
        r.push(format_table_option_display(&self.description));
        r.push(location);
        r
    }

    /// The column titles that go with [`ContainerModel::fields`].
    pub fn headers() -> (r: Vec<String>)
        ensures
            r@.map_values(|s: String| s@) == container_headers(),
    {
        let mut r: Vec<String> = Vec::new();
        r.push(<String as StringExecFns>::from_str("UUID"));
        r.push(<String as StringExecFns>::from_str("Created Date"));
        r.push(<String as StringExecFns>::from_str("Name"));
        r.push(<String as StringExecFns>::from_str("Description"));
        r.push(<String as StringExecFns>::from_str("Location"));
        assert(r@.map_values(|s: String| s@) =~= container_headers());
        r
    }
}

impl ItemModel {
    /// A new item with a fresh random identifier, created now.
    pub fn new(name: String, description: Option<String>, location: RecordId, quantity: u64, extra: Option<Extra>) -> (r: Self)
        ensures
            r.name == name,
            r.description == description,
            r.location == location,
            r.quantity == quantity,
            extra matches Some(e) ==> r.extra == e,
            extra is None ==> r.extra@.len() == 0,
    {
        ItemModel {
            uuid: RecordId::generate(),
            created_date: Timestamp::now(),
            name,
            location,
            quantity,
            description,
            extra: extra_or_empty(extra),
        }
    }
}

impl JayDataModel {
    /// Whether no two containers, and no two items, share an identifier.
    pub open spec fn wf(&self) -> bool {
        &&& crate::locator::ids_unique(crate::locator::keys_of(self.containers@))
        &&& crate::locator::ids_unique(crate::locator::keys_of(self.items@))
    }
}

impl Default for JayDataModel {
    /// An empty catalogue.
    fn default() -> (r: Self)
        ensures
            r.containers@.len() == 0,
            r.items@.len() == 0,
            r.extra@.len() == 0,
    {
        JayDataModel { containers: Vec::new(), items: Vec::new(), extra: Vec::new() }
    }
}

} // verus!

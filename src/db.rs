//! Rows of the relational store. A row holds identifiers as values; its
//! columns hold them as hyphenated text and times as Unix seconds. Running the
//! statements is left to the caller.

use vstd::prelude::*;
use crate::ids::{RecordId, uuid_parse_of, uuid_text_of};
use crate::locator::Record;
use crate::time::Timestamp;

verus! {

/// Why a row could not be read or written.
#[derive(Debug)]
pub enum DatabaseError {
    /// A stored identifier is no UUID; the text as stored.
    UuidError(String),
    /// The database refused a statement; its message.
    SqliteError(String),
}

/// A row of the `items` table.
#[derive(Debug)]
pub struct ItemRow {
    pub uuid: RecordId,
    pub name: String,
    pub description: Option<String>,
    pub r_type: Option<String>,
    pub quantity: u64,
    /// Unix seconds.
    pub created_date: i64,
    /// Unix seconds.
    pub modified_date: i64,
    pub status: String,
}

/// A row of the `containers` table.
#[derive(Debug)]
pub struct ContainerRow {
    pub uuid: RecordId,
    pub name: String,
    pub description: Option<String>,
    pub r_type: Option<String>,
    /// Unix seconds.
    pub created_date: i64,
}

/// A row of either table.
#[derive(Debug)]
pub enum ItemOrContainerRow {
    Item(ItemRow),
    Container(ContainerRow),
}

/// The column values of an `items` row:
/// `uuid, name, description, type, quantity, created_date, modified_date, status`.
#[derive(Debug)]
pub struct ItemColumns {
    pub uuid: String,
    pub name: String,
    pub description: Option<String>,
    pub r_type: Option<String>,
    pub quantity: u64,
    pub created_date: i64,
    pub modified_date: i64,
    pub status: String,
}

/// The column values of a `containers` row:
/// `uuid, name, description, type, created_date`.
#[derive(Debug)]
pub struct ContainerColumns {
    pub uuid: String,
    pub name: String,
    pub description: Option<String>,
    pub r_type: Option<String>,
    pub created_date: i64,
}

impl Record for ItemRow {
    open spec fn key(&self) -> (RecordId, Seq<char>) {
        (self.uuid, self.name@)
    }

    fn id(&self) -> (r: RecordId) {
        self.uuid
    }

    fn name(&self) -> (r: &String) {
        &self.name
    }
}

impl Record for ContainerRow {
    open spec fn key(&self) -> (RecordId, Seq<char>) {
        (self.uuid, self.name@)
    }

    fn id(&self) -> (r: RecordId) {
        self.uuid
    }

    fn name(&self) -> (r: &String) {
        &self.name
    }
}

fn copy_text(s: &Option<String>) -> (r: Option<String>)
    ensures
        r == *s,
{
    match s {
        Some(t) => Some(t.clone()),
        None => None,
    }
}

/// The value that a stored identifier text denotes (zero when it is no UUID).
pub open spec fn stored_id(text: Seq<char>) -> RecordId {
    match uuid_parse_of(text) {
        Some(v) => RecordId { value: v },
        None => RecordId { value: 0 },
    }
}

/// `c` holds the columns that row `r` is written as.
pub open spec fn container_columns_of(r: ContainerRow, c: ContainerColumns) -> bool {
    &&& c.uuid@ == uuid_text_of(r.uuid.value)
    &&& uuid_parse_of(c.uuid@) == Some(r.uuid.value)
    &&& c.name == r.name
    &&& c.description == r.description
    &&& c.r_type == r.r_type
    &&& c.created_date == r.created_date
}

/// The row that columns `c` are read as, when their identifier is a UUID.
pub open spec fn container_row_of(c: ContainerColumns) -> ContainerRow {
    ContainerRow {
        uuid: stored_id(c.uuid@),
        name: c.name,
        description: c.description,
        r_type: c.r_type,
        created_date: c.created_date,
    }
}

/// `c` holds the columns that row `r` is written as.
pub open spec fn item_columns_of(r: ItemRow, c: ItemColumns) -> bool {
    &&& c.uuid@ == uuid_text_of(r.uuid.value)
    &&& uuid_parse_of(c.uuid@) == Some(r.uuid.value)
    &&& c.name == r.name
    &&& c.description == r.description
    &&& c.r_type == r.r_type
    &&& c.quantity == r.quantity
    &&& c.created_date == r.created_date
    &&& c.modified_date == r.modified_date
    &&& c.status == r.status
}

/// The row that columns `c` are read as, when their identifier is a UUID.
pub open spec fn item_row_of(c: ItemColumns) -> ItemRow {
    ItemRow {
        uuid: stored_id(c.uuid@),
        name: c.name,
        description: c.description,
        r_type: c.r_type,
        quantity: c.quantity,
        created_date: c.created_date,
        modified_date: c.modified_date,
        status: c.status,
    }
}

/// The rows that a sequence of container columns is read as: all of them,
/// in order, when every identifier is a UUID, and nothing otherwise.
pub open spec fn read_container_rows(cols: Seq<ContainerColumns>) -> Option<Seq<ContainerRow>> {
    if forall|k: int| 0 <= k < cols.len() ==> (#[trigger] uuid_parse_of(cols[k].uuid@)) is Some {
        Some(cols.map_values(|c: ContainerColumns| container_row_of(c)))
    } else {
        None
    }
}

/// The rows that a sequence of item columns is read as: all of them, in
/// order, when every identifier is a UUID, and nothing otherwise.
pub open spec fn read_item_rows(cols: Seq<ItemColumns>) -> Option<Seq<ItemRow>> {
    if forall|k: int| 0 <= k < cols.len() ==> (#[trigger] uuid_parse_of(cols[k].uuid@)) is Some {
        Some(cols.map_values(|c: ItemColumns| item_row_of(c)))
    } else {
        None
    }
}

impl ContainerRow {
    /// A new row with a fresh random identifier, created now.
    pub fn new(name: String, description: Option<String>, r_type: Option<String>) -> (r: Self)
        ensures
            r.name == name,
            r.description == description,
            r.r_type == r_type,
    {
        ContainerRow { uuid: RecordId::generate(), name, description, r_type, created_date: Timestamp::now().secs }
    }

    /// The column values that the row is inserted as.
    pub fn to_columns(&self) -> (c: ContainerColumns)
        ensures
            container_columns_of(*self, c),
    {
        ContainerColumns {
            uuid: self.uuid.to_string(),
            name: self.name.clone(),
            description: copy_text(&self.description),
            r_type: copy_text(&self.r_type),
            created_date: self.created_date,
        }
    }

    /// The row that stored column values denote; an identifier that is no
    /// UUID is an error.
    pub fn from_columns(c: &ContainerColumns) -> (r: Result<ContainerRow, DatabaseError>)
        ensures
            match uuid_parse_of(c.uuid@) {
                Some(_) => r == Ok::<ContainerRow, DatabaseError>(container_row_of(*c)),
                None => r matches Err(DatabaseError::UuidError(t)) && t@ == c.uuid@,
            },
    {
        match RecordId::parse(c.uuid.as_str()) {
            Some(uuid) => Ok(ContainerRow {
                uuid,
                name: c.name.clone(),
                description: copy_text(&c.description),
                r_type: copy_text(&c.r_type),
                created_date: c.created_date,
            }),
            None => Err(DatabaseError::UuidError(c.uuid.clone())),
        }
    }
}

impl ItemRow {
    /// A new row with a fresh random identifier, created and modified now.
    pub fn new(name: String, description: Option<String>, r_type: Option<String>, quantity: u64, status: String) -> (r: Self)
        ensures
            r.name == name,
            r.description == description,
            r.r_type == r_type,
            r.quantity == quantity,
            r.status == status,
            r.created_date == r.modified_date,
    {
        let now = Timestamp::now().secs;
        ItemRow {
            uuid: RecordId::generate(),
            name,
            description,
            r_type,
            quantity,
            created_date: now,
            modified_date: now,
            status,
        }
    }

    /// The column values that the row is inserted as.
    pub fn to_columns(&self) -> (c: ItemColumns)
        ensures
            item_columns_of(*self, c),
    {
        ItemColumns {
            uuid: self.uuid.to_string(),
            name: self.name.clone(),
            description: copy_text(&self.description),
            r_type: copy_text(&self.r_type),
            quantity: self.quantity,
            created_date: self.created_date,
            modified_date: self.modified_date,
            status: self.status.clone(),
        }
    }

    /// The row that stored column values denote; an identifier that is no
    /// UUID is an error.
    pub fn from_columns(c: &ItemColumns) -> (r: Result<ItemRow, DatabaseError>)
        ensures
            match uuid_parse_of(c.uuid@) {
                Some(_) => r == Ok::<ItemRow, DatabaseError>(item_row_of(*c)),
                None => r matches Err(DatabaseError::UuidError(t)) && t@ == c.uuid@,
            },
    {
        match RecordId::parse(c.uuid.as_str()) {
            Some(uuid) => Ok(ItemRow {
                uuid,
                name: c.name.clone(),
                description: copy_text(&c.description),
                r_type: copy_text(&c.r_type),
                quantity: c.quantity,
                created_date: c.created_date,
                modified_date: c.modified_date,
                status: c.status.clone(),
            }),
            None => Err(DatabaseError::UuidError(c.uuid.clone())),
        }
    }
}

/// The column values that each container row is inserted as, in order.
pub fn write_container_rows(rows: &Vec<ContainerRow>) -> (r: Vec<ContainerColumns>)
    ensures
        r@.len() == rows@.len(),
        forall|k: int| 0 <= k < rows@.len() ==> container_columns_of(rows@[k], #[trigger] r@[k]),
{
    let mut r: Vec<ContainerColumns> = Vec::new();
    let mut k: usize = 0;
    while k < rows.len()
        invariant
            0 <= k <= rows@.len(),
            r@.len() == k,
            forall|m: int| 0 <= m < k ==> container_columns_of(rows@[m], #[trigger] r@[m]),
        decreases rows@.len() - k,
    {
        r.push(rows[k].to_columns());
        k = k + 1;
    }
    r
}

/// The rows that stored container column values denote, in order; the first
/// identifier that is no UUID is an error.
pub fn read_container_columns(cols: &Vec<ContainerColumns>) -> (r: Result<Vec<ContainerRow>, DatabaseError>)
    ensures
        match read_container_rows(cols@) {
            Some(rows) => r matches Ok(v) && v@ == rows,
            None => r matches Err(DatabaseError::UuidError(t)) && exists|k: int|
                0 <= k < cols@.len() && uuid_parse_of(cols@[k].uuid@) is None && t@ == cols@[k].uuid@,
        },
{
    let mut rows: Vec<ContainerRow> = Vec::new();
    let mut k: usize = 0;
    while k < cols.len()
        invariant
            0 <= k <= cols@.len(),
            rows@ == cols@.subrange(0, k as int).map_values(|c: ContainerColumns| container_row_of(c)),
            forall|m: int| 0 <= m < k ==> (#[trigger] uuid_parse_of(cols@[m].uuid@)) is Some,
        decreases cols@.len() - k,
    {
        match ContainerRow::from_columns(&cols[k]) {
            Ok(row) => {
                rows.push(row);
                proof {
                    assert(rows@ =~= cols@.subrange(0, k + 1).map_values(|c: ContainerColumns| container_row_of(c)));
                }
            },
            Err(e) => {
                return Err(e);
            },
        }
        k = k + 1;
    }
    proof {
        assert(cols@.subrange(0, cols@.len() as int) =~= cols@);
    }
    Ok(rows)
}

/// The column values that each item row is inserted as, in order.
pub fn write_item_rows(rows: &Vec<ItemRow>) -> (r: Vec<ItemColumns>)
    ensures
        r@.len() == rows@.len(),
        forall|k: int| 0 <= k < rows@.len() ==> item_columns_of(rows@[k], #[trigger] r@[k]),
{
    let mut r: Vec<ItemColumns> = Vec::new();
    let mut k: usize = 0;
    while k < rows.len()
        invariant
            0 <= k <= rows@.len(),
            r@.len() == k,
            forall|m: int| 0 <= m < k ==> item_columns_of(rows@[m], #[trigger] r@[m]),
        decreases rows@.len() - k,
    {
        r.push(rows[k].to_columns());
        k = k + 1;
    }
    r
}

/// The rows that stored item column values denote, in order; the first
/// identifier that is no UUID is an error.
pub fn read_item_columns(cols: &Vec<ItemColumns>) -> (r: Result<Vec<ItemRow>, DatabaseError>)
    ensures
        match read_item_rows(cols@) {
            Some(rows) => r matches Ok(v) && v@ == rows,
            None => r matches Err(DatabaseError::UuidError(t)) && exists|k: int|
                0 <= k < cols@.len() && uuid_parse_of(cols@[k].uuid@) is None && t@ == cols@[k].uuid@,
        },
{
    let mut rows: Vec<ItemRow> = Vec::new();
    let mut k: usize = 0;
    while k < cols.len()
        invariant
            0 <= k <= cols@.len(),
            rows@ == cols@.subrange(0, k as int).map_values(|c: ItemColumns| item_row_of(c)),
            forall|m: int| 0 <= m < k ==> (#[trigger] uuid_parse_of(cols@[m].uuid@)) is Some,
        decreases cols@.len() - k,
    {
        match ItemRow::from_columns(&cols[k]) {
            Ok(row) => {
                rows.push(row);
                proof {
                    assert(rows@ =~= cols@.subrange(0, k + 1).map_values(|c: ItemColumns| item_row_of(c)));
                }
            },
            Err(e) => {
                return Err(e);
            },
        }
        k = k + 1;
    }
    proof {
        assert(cols@.subrange(0, cols@.len() as int) =~= cols@);
    }
    Ok(rows)
}

/// Reading back the columns that container rows are written as yields the
/// same rows (identifiers, names, descriptions, types, creation times), in
/// the same order.
pub proof fn lemma_container_rows_round_trip(rows: Seq<ContainerRow>, cols: Seq<ContainerColumns>)
    requires
        cols.len() == rows.len(),
        forall|k: int| 0 <= k < rows.len() ==> container_columns_of(rows[k], #[trigger] cols[k]),
    ensures
        read_container_rows(cols) == Some(rows),
{
    assert forall|k: int| 0 <= k < cols.len() implies (#[trigger] uuid_parse_of(cols[k].uuid@)) is Some by {
        assert(container_columns_of(rows[k], cols[k]));
    }
    assert(cols.map_values(|c: ContainerColumns| container_row_of(c)) =~= rows) by {
        assert forall|k: int| 0 <= k < rows.len() implies #[trigger] container_row_of(cols[k]) == rows[k] by {
            assert(container_columns_of(rows[k], cols[k]));
        }
    }
}

/// Reading back the columns that item rows are written as yields the same
/// rows (identifiers, names, descriptions, types, quantities, times,
/// statuses), in the same order.
pub proof fn lemma_item_rows_round_trip(rows: Seq<ItemRow>, cols: Seq<ItemColumns>)
    requires
        cols.len() == rows.len(),
        forall|k: int| 0 <= k < rows.len() ==> item_columns_of(rows[k], #[trigger] cols[k]),
    ensures
        read_item_rows(cols) == Some(rows),
{
    assert forall|k: int| 0 <= k < cols.len() implies (#[trigger] uuid_parse_of(cols[k].uuid@)) is Some by {
        assert(item_columns_of(rows[k], cols[k]));
    }
    assert(cols.map_values(|c: ItemColumns| item_row_of(c)) =~= rows) by {
        assert forall|k: int| 0 <= k < rows.len() implies #[trigger] item_row_of(cols[k]) == rows[k] by {
            assert(item_columns_of(rows[k], cols[k]));
        }
    }
}

} // verus!

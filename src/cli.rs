//! The commands of the catalogue as plain values, and the decision between
//! the two ways of naming a container on the command line.

use vstd::prelude::*;
use crate::error::{Error, ErrorView};
use crate::ids::{RecordId, uuid_parse_of};
use crate::locator::{by_id_spec, by_name_spec};

verus! {

/// A parsed command line.
pub struct Cli {
    pub command: ActionCommand,
}

/// What the user asked for.
pub enum ActionCommand {
    /// Create and insert a new object into the catalogue.
    Add(AddCommand),
    /// List objects in the catalogue.
    List(ListCommand),
    /// Remove an object from the catalogue.
    Delete { name_or_id: String },
}

/// The kind of object to add.
pub enum AddCommand {
    Item(AddItemArgs),
    Container(AddContainerArgs),
}

/// The arguments of a new item. The user names its container either by
/// identifier or by name, through two distinct flags, so that a mistyped
/// identifier is reported as such and never taken for a name.
#[derive(Debug)]
pub struct AddItemArgs {
    pub name: String,
    pub location: Location,
    pub quantity: u64,
    pub description: Option<String>,
    pub r_type: Option<String>,
}

/// The arguments of a new container; it may be stored inside another one.
#[derive(Debug)]
pub struct AddContainerArgs {
    pub name: String,
    pub location: Option<Location>,
    pub description: Option<String>,
    pub r_type: Option<String>,
}

/// What to list.
pub enum ListCommand {
    /// Lists all objects in the catalogue.
    All,
    /// Lists the container with the given name or identifier; all containers
    /// when none is given.
    Container { name_or_id: Option<String> },
    /// Lists the item with the given name or identifier; all items when none
    /// is given.
    Item { name_or_id: Option<String> },
    /// Lists the objects inside the given container.
    Within { container_name_or_id: Option<String> },
}

/// A container named by identifier or by name.
#[derive(Debug)]
pub enum Location {
    Uuid(RecordId),
    Name(String),
}

/// What looking up a location in a collection of containers yields: by
/// identifier, or by name, as the location says.
pub open spec fn locate_spec(keys: Seq<(RecordId, Seq<char>)>, location: Location) -> Result<int, ErrorView> {
    match location {
        Location::Uuid(id) => by_id_spec(keys, id),
        Location::Name(name) => by_name_spec(keys, name@),
    }
}

impl Location {
    /// The location given by the identifier flag or, when that is absent, by
    /// the name flag; none when neither is given. An identifier flag whose
    /// value is no UUID is malformed input.
    pub fn from_flags(uuid_location: Option<String>, name_location: Option<String>) -> (r: Result<Option<Location>, Error>)
        ensures
            match uuid_location {
                Some(u) => match uuid_parse_of(u@) {
                    Some(v) => r matches Ok(Some(Location::Uuid(id))) && id.value == v,
                    None => r matches Err(e) && e@ == ErrorView::MalformedInput(u@),
                },
                None => match name_location {
                    Some(n) => r matches Ok(Some(Location::Name(m))) && m == n,
                    None => r matches Ok(None),
                },
            },
    {
        match uuid_location {
            Some(u) => match RecordId::parse(u.as_str()) {
                Some(id) => Ok(Some(Location::Uuid(id))),
                None => Err(Error::MalformedInput(u)),
            },
            None => match name_location {
                Some(n) => Ok(Some(Location::Name(n))),
                None => Ok(None),
            },
        }
    }
}

} // verus!

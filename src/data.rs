//! The record store: the catalogue document, with lookups, additions and
//! deletions that keep identifiers unique.

use vstd::prelude::*;
use vstd::string::StringExecFns;
use crate::cli::{AddContainerArgs, AddItemArgs, Location, locate_spec};
use crate::error::{Error, ErrorView, position_result};
use crate::ids::{RecordId, uuid_parse_of};
use crate::locator::{
    by_id_spec, duplicate_result, find_by_id, find_duplicate, find_id, keys_of, name_positions, positions_named,
    resolve, resolve_by_id, resolve_by_name, resolve_spec,
};
use crate::models::{ContainerModel, ItemModel, JayDataModel};
use crate::time::Timestamp;

verus! {

/// The two collections of the store.
#[derive(Clone, Copy, Debug, PartialEq, Eq, Structural)]
pub enum RecordKind {
    Container,
    Item,
}

/// The catalogue held in memory. Reading it from and writing it to its file
/// is left to the caller.
#[derive(Debug)]
pub struct JsonDataService {
    pub models: JayDataModel,
}

/// A result that refers to a record of `records` as the position result `p`
/// says, or fails with the same error.
pub open spec fn refers_to<T>(r: Result<&T, Error>, records: Seq<T>, p: Result<int, ErrorView>) -> bool {
    match p {
        Ok(i) => r matches Ok(x) && *x == records[i],
        Err(e) => r matches Err(x) && x@ == e,
    }
}

/// `r` refers, in order, to the records of `records` at positions `p`.
pub open spec fn refers_at<T>(r: Seq<&T>, records: Seq<T>, p: Seq<int>) -> bool {
    &&& r.len() == p.len()
    &&& forall|k: int| 0 <= k < p.len() ==> *r[k] == records[p[k]]
}

/// `after` is `before` with one more container at the end, built from the given
/// values and with no extension attributes.
pub open spec fn container_appended(
    before: JayDataModel,
    after: JayDataModel,
    name: String,
    description: Option<String>,
    parent: Option<RecordId>,
    uuid: RecordId,
    created: Timestamp,
) -> bool {
    &&& after.items == before.items
    &&& after.extra == before.extra
    &&& after.containers@.len() == before.containers@.len() + 1
    &&& after.containers@.drop_last() == before.containers@
    &&& after.containers@.last().uuid == uuid
    &&& after.containers@.last().created_date == created
    &&& after.containers@.last().name == name
    &&& after.containers@.last().description == description
    &&& after.containers@.last().location == parent
    &&& after.containers@.last().extra@.len() == 0
}

/// `after` is `before` with one more item at the end, built from the given values
/// and with no extension attributes.
pub open spec fn item_appended(
    before: JayDataModel,
    after: JayDataModel,
    name: String,
    description: Option<String>,
    container: RecordId,
    quantity: u64,
    uuid: RecordId,
    created: Timestamp,
) -> bool {
    &&& after.containers == before.containers
    &&& after.extra == before.extra
    &&& after.items@.len() == before.items@.len() + 1
    &&& after.items@.drop_last() == before.items@
    &&& after.items@.last().uuid == uuid
    &&& after.items@.last().created_date == created
    &&& after.items@.last().name == name
    &&& after.items@.last().description == description
    &&& after.items@.last().location == container
    &&& after.items@.last().quantity == quantity
    &&& after.items@.last().extra@.len() == 0
}

/// The outcome of adding a container with identifier `uuid`, created at
/// `created`: its parent location must resolve, and `uuid` must be after.
pub open spec fn add_container_outcome(
    before: JsonDataService,
    after: JsonDataService,
    r: Result<RecordId, Error>,
    args: AddContainerArgs,
    uuid: RecordId,
    created: Timestamp,
) -> bool {
    let parent: Result<Option<RecordId>, ErrorView> = match args.location {
        None => Ok(None),
        Some(l) => match locate_spec(before.container_keys(), l) {
            Ok(i) => Ok(Some(before.models.containers@[i].uuid)),
            Err(e) => Err(e),
        },
    };
    match parent {
        Err(e) => r matches Err(x) && x@ == e && after == before,
        Ok(p) => if find_id(before.container_keys(), uuid) is Some {
            r matches Err(x) && x@ == ErrorView::DuplicateIdentifier(uuid) && after == before
        } else {
            r == Ok::<RecordId, Error>(uuid) && container_appended(
                before.models,
                after.models,
                args.name,
                args.description,
                p,
                uuid,
                created,
            )
        },
    }
}

/// The outcome of adding an item with identifier `uuid`, created at
/// `created`: its quantity must be positive, its container must resolve, and
/// `uuid` must be after.
pub open spec fn add_item_outcome(
    before: JsonDataService,
    after: JsonDataService,
    r: Result<RecordId, Error>,
    args: AddItemArgs,
    uuid: RecordId,
    created: Timestamp,
) -> bool {
    if args.quantity == 0 {
        r matches Err(x) && x@ is MalformedInput && after == before
    } else {
        match locate_spec(before.container_keys(), args.location) {
            Err(e) => r matches Err(x) && x@ == e && after == before,
            Ok(i) => if find_id(before.item_keys(), uuid) is Some {
                r matches Err(x) && x@ == ErrorView::DuplicateIdentifier(uuid) && after == before
            } else {
                r == Ok::<RecordId, Error>(uuid) && item_appended(
                    before.models,
                    after.models,
                    args.name,
                    args.description,
                    before.models.containers@[i].uuid,
                    args.quantity,
                    uuid,
                    created,
                )
            },
        }
    }
}

/// The outcome of deleting the record that `input` designates from the
/// collection `records`, which becomes `after`.
pub open spec fn delete_outcome<T: crate::locator::Record>(
    records: Seq<T>,
    after: Seq<T>,
    r: Result<RecordId, Error>,
    input: Seq<char>,
) -> bool {
    match resolve_spec(keys_of(records), input) {
        Ok(i) => r == Ok::<RecordId, Error>(records[i].key().0) && after == records.remove(i),
        Err(e) => r matches Err(x) && x@ == e && after == records,
    }
}

impl JsonDataService {
    pub open spec fn wf(&self) -> bool {
        self.models.wf()
    }

    pub open spec fn container_keys(&self) -> Seq<(RecordId, Seq<char>)> {
        keys_of(self.models.containers@)
    }

    pub open spec fn item_keys(&self) -> Seq<(RecordId, Seq<char>)> {
        keys_of(self.models.items@)
    }

    pub open spec fn keys(&self, kind: RecordKind) -> Seq<(RecordId, Seq<char>)> {
        match kind {
            RecordKind::Container => self.container_keys(),
            RecordKind::Item => self.item_keys(),
        }
    }

    /// Takes charge of a catalogue read from storage. It is refused when two
    /// containers, or two items, share an identifier.
    pub fn new(models: JayDataModel) -> (r: Result<Self, Error>)
        ensures
            models.wf() <==> r is Ok,
            r matches Ok(s) ==> s.models == models,
            r matches Err(e) ==> (e@ matches ErrorView::DuplicateIdentifier(id) && (duplicate_result(
                keys_of(models.containers@),
                Some(id),
            ) || duplicate_result(keys_of(models.items@), Some(id)))),
    {
        match find_duplicate(&models.containers) {
            Some(id) => Err(Error::DuplicateIdentifier(id)),
            None => match find_duplicate(&models.items) {
                Some(id) => Err(Error::DuplicateIdentifier(id)),
                None => Ok(JsonDataService { models }),
            },
        }
    }

    /// The position, in the collection of kind `kind`, of the record that
    /// `input` designates: by identifier when it reads as one, by name
    /// otherwise.
    pub fn resolve(&self, kind: RecordKind, input: &str) -> (r: Result<usize, Error>)
        ensures
            position_result(r) == resolve_spec(self.keys(kind), input@),
    {
        match kind {
            RecordKind::Container => resolve(&self.models.containers, input),
            RecordKind::Item => resolve(&self.models.items, input),
        }
    }

    /// The container that `input` designates, by identifier or by name.
    pub fn resolve_container(&self, input: &str) -> (r: Result<&ContainerModel, Error>)
        ensures
            refers_to(r, self.models.containers@, resolve_spec(self.container_keys(), input@)),
    {
        match resolve(&self.models.containers, input) {
            Ok(i) => Ok(&self.models.containers[i]),
            Err(e) => Err(e),
        }
    }

    /// The item that `input` designates, by identifier or by name.
    pub fn resolve_item(&self, input: &str) -> (r: Result<&ItemModel, Error>)
        ensures
            refers_to(r, self.models.items@, resolve_spec(self.item_keys(), input@)),
    {
        match resolve(&self.models.items, input) {
            Ok(i) => Ok(&self.models.items[i]),
            Err(e) => Err(e),
        }
    }

    /// The containers named `name`, in store order.
    pub fn select_containers_by_name(&self, name: &str) -> (r: Vec<&ContainerModel>)
        ensures
            refers_at(r@, self.models.containers@, name_positions(self.container_keys(), name@)),
    {
        let name = name.to_owned();
        let (positions, _ids) = positions_named(&self.models.containers, &name);
        let ghost p = name_positions(self.container_keys(), name@);
        proof {
            crate::locator::lemma_name_positions(self.container_keys(), name@);
            assert(positions@.map_values(|q: usize| q as int).len() == positions@.len());
        }
        let mut r: Vec<&ContainerModel> = Vec::new();
        let mut k: usize = 0;
        while k < positions.len()
            invariant
                0 <= k <= positions@.len(),
                positions@.map_values(|q: usize| q as int) == p,
                p == name_positions(self.container_keys(), name@),
                forall|m: int| 0 <= m < p.len() ==> 0 <= #[trigger] p[m] < self.models.containers@.len(),
                refers_at(r@, self.models.containers@, p.subrange(0, k as int)),
            decreases positions@.len() - k,
        {
            proof {
                assert(positions@.map_values(|q: usize| q as int)[k as int] == positions@[k as int] as int);
            }
            r.push(&self.models.containers[positions[k]]);
            k = k + 1;
        }
        proof {
            assert(p.subrange(0, p.len() as int) =~= p);
        }
        r
    }

    /// The container with identifier `uuid`.
    pub fn find_container_by_uuid(&self, uuid: RecordId) -> (r: Result<&ContainerModel, Error>)
        ensures
            refers_to(r, self.models.containers@, by_id_spec(self.container_keys(), uuid)),
    {
        match resolve_by_id(&self.models.containers, uuid) {
            Ok(i) => Ok(&self.models.containers[i]),
            Err(e) => Err(e),
        }
    }

    /// The container that a location names, by identifier or by name as the
    /// location says.
    pub fn find_container_by_location(&self, location: &Location) -> (r: Result<&ContainerModel, Error>)
        ensures
            refers_to(r, self.models.containers@, locate_spec(self.container_keys(), *location)),
    {
        let found = match location {
            Location::Uuid(uuid) => resolve_by_id(&self.models.containers, *uuid),
            Location::Name(name) => resolve_by_name(&self.models.containers, name.clone()),
        };
        match found {
            Ok(i) => Ok(&self.models.containers[i]),
            Err(e) => Err(e),
        }
    }

    /// The item with identifier `uuid`.
    pub fn find_item_by_uuid(&self, uuid: RecordId) -> (r: Result<&ItemModel, Error>)
        ensures
            refers_to(r, self.models.items@, by_id_spec(self.item_keys(), uuid)),
    {
        match resolve_by_id(&self.models.items, uuid) {
            Ok(i) => Ok(&self.models.items[i]),
            Err(e) => Err(e),
        }
    }

    /// The item whose identifier `uuid_str` spells; a text that is no UUID is
    /// malformed input.
    pub fn find_item_by_uuid_str(&self, uuid_str: &str) -> (r: Result<&ItemModel, Error>)
        ensures
            match uuid_parse_of(uuid_str@) {
                Some(v) => refers_to(r, self.models.items@, by_id_spec(self.item_keys(), RecordId { value: v })),
                None => r matches Err(e) && e@ == ErrorView::MalformedInput(uuid_str@),
            },
    {
        match RecordId::parse(uuid_str) {
            Some(uuid) => self.find_item_by_uuid(uuid),
            None => Err(Error::MalformedInput(uuid_str.to_owned())),
        }
    }
}


impl JsonDataService {
    /// Removing one record keeps identifiers unique.
    proof fn lemma_remove_keeps_ids_unique<T: crate::locator::Record>(records: Seq<T>, i: int)
        requires
            crate::locator::ids_unique(keys_of(records)),
            0 <= i < records.len(),
        ensures
            crate::locator::ids_unique(keys_of(records.remove(i))),
    {
        let after = records.remove(i);
        assert forall|a: int, b: int| 0 <= a < b < keys_of(after).len() implies keys_of(after)[a].0 != keys_of(
            after,
        )[b].0 by {
            let oa = if a < i { a } else { a + 1 };
            let ob = if b < i { b } else { b + 1 };
            assert(after[a] == records[oa]);
            assert(after[b] == records[ob]);
            assert(keys_of(records)[oa] == records[oa].key());
            assert(keys_of(records)[ob] == records[ob].key());
        }
    }

    /// An identifier that no record has stays unique once appended.
    proof fn lemma_push_keeps_ids_unique<T: crate::locator::Record>(records: Seq<T>, x: T)
        requires
            crate::locator::ids_unique(keys_of(records)),
            find_id(keys_of(records), x.key().0) is None,
        ensures
            crate::locator::ids_unique(keys_of(records.push(x))),
    {
        crate::locator::lemma_find_id(keys_of(records), x.key().0);
        let after = records.push(x);
        assert forall|a: int, b: int| 0 <= a < b < keys_of(after).len() implies keys_of(after)[a].0 != keys_of(
            after,
        )[b].0 by {
            assert(after[a] == records[a]);
            assert(keys_of(records)[a] == records[a].key());
            if b < records.len() {
                assert(after[b] == records[b]);
                assert(keys_of(records)[b] == records[b].key());
            }
        }
    }

    /// Adds a container with the given identifier and creation time. Its
    /// parent, when the arguments name one, must resolve to a container.
    pub fn add_container_with(&mut self, args: AddContainerArgs, uuid: RecordId, created: Timestamp) -> (r: Result<
        RecordId,
        Error,
    >)
        requires
            old(self).wf(),
        ensures
            final(self).wf(),
            add_container_outcome(*old(self), *final(self), r, args, uuid, created),
    {
        let parent = match &args.location {
            None => None,
            Some(location) => match self.find_container_by_location(location) {
                Ok(c) => Some(c.uuid),
                Err(e) => {
                    return Err(e);
                },
            },
        };
        if find_by_id(&self.models.containers, uuid).is_some() {
            return Err(Error::DuplicateIdentifier(uuid));
        }
        let container = ContainerModel {
            uuid,
            created_date: created,
            name: args.name,
            description: args.description,
            location: parent,
            extra: Vec::new(),
        };
        proof {
            Self::lemma_push_keeps_ids_unique(self.models.containers@, container);
        }
        self.models.containers.push(container);
        proof {
            assert(self.models.containers@.drop_last() =~= old(self).models.containers@);
        }
        Ok(uuid)
    }

    /// Adds a container with a fresh random identifier, created now.
    pub fn add_container(&mut self, args: AddContainerArgs) -> (r: Result<RecordId, Error>)
        requires
            old(self).wf(),
        ensures
            final(self).wf(),
            exists|uuid: RecordId, created: Timestamp|
                add_container_outcome(*old(self), *final(self), r, args, uuid, created),
    {
        let uuid = RecordId::generate();
        let created = Timestamp::now();
        self.add_container_with(args, uuid, created)
    }

    /// Adds an item with the given identifier and creation time. Its quantity
    /// must be positive and its location must resolve to a container.
    pub fn add_item_with(&mut self, args: AddItemArgs, uuid: RecordId, created: Timestamp) -> (r: Result<
        RecordId,
        Error,
    >)
        requires
            old(self).wf(),
        ensures
            final(self).wf(),
            add_item_outcome(*old(self), *final(self), r, args, uuid, created),
    {
        if args.quantity == 0 {
            return Err(Error::MalformedInput(<String as StringExecFns>::from_str("quantity must be positive")));
        }
        let container = match self.find_container_by_location(&args.location) {
            Ok(c) => c.uuid,
            Err(e) => {
                return Err(e);
            },
        };
        if find_by_id(&self.models.items, uuid).is_some() {
            return Err(Error::DuplicateIdentifier(uuid));
        }
        let item = ItemModel {
            uuid,
            created_date: created,
            name: args.name,
            location: container,
            quantity: args.quantity,
            description: args.description,
            extra: Vec::new(),
        };
        proof {
            Self::lemma_push_keeps_ids_unique(self.models.items@, item);
        }
        self.models.items.push(item);
        proof {
            assert(self.models.items@.drop_last() =~= old(self).models.items@);
        }
        Ok(uuid)
    }

    /// Adds an item with a fresh random identifier, created now.
    pub fn add_item(&mut self, args: AddItemArgs) -> (r: Result<RecordId, Error>)
        requires
            old(self).wf(),
        ensures
            final(self).wf(),
            exists|uuid: RecordId, created: Timestamp| add_item_outcome(*old(self), *final(self), r, args, uuid, created),
    {
        let uuid = RecordId::generate();
        let created = Timestamp::now();
        self.add_item_with(args, uuid, created)
    }

    /// Deletes the container that `input` designates, by identifier or by
    /// name, and returns its identifier.
    pub fn delete_container(&mut self, input: &str) -> (r: Result<RecordId, Error>)
        requires
            old(self).wf(),
        ensures
            final(self).wf(),
            delete_outcome(old(self).models.containers@, final(self).models.containers@, r, input@),
            final(self).models.items == old(self).models.items,
            final(self).models.extra == old(self).models.extra,
    {
        match resolve(&self.models.containers, input) {
            Ok(i) => {
                proof {
                    Self::lemma_remove_keeps_ids_unique(self.models.containers@, i as int);
                }
                let removed = self.models.containers.remove(i);
                Ok(removed.uuid)
            },
            Err(e) => Err(e),
        }
    }

    /// Deletes the item that `input` designates, by identifier or by name,
    /// and returns its identifier.
    pub fn delete_item(&mut self, input: &str) -> (r: Result<RecordId, Error>)
        requires
            old(self).wf(),
        ensures
            final(self).wf(),
            delete_outcome(old(self).models.items@, final(self).models.items@, r, input@),
            final(self).models.containers == old(self).models.containers,
            final(self).models.extra == old(self).models.extra,
    {
        match resolve(&self.models.items, input) {
            Ok(i) => {
                proof {
                    Self::lemma_remove_keeps_ids_unique(self.models.items@, i as int);
                }
                let removed = self.models.items.remove(i);
                Ok(removed.uuid)
            },
            Err(e) => Err(e),
        }
    }
}

/// The positions, in increasing order, whose location is `container`.
pub open spec fn positions_in(locations: Seq<Option<RecordId>>, container: RecordId) -> Seq<int>
    decreases locations.len(),
{
    if locations.len() == 0 {
        Seq::empty()
    } else {
        let p = positions_in(locations.drop_last(), container);
        if locations.last() == Some(container) {
            p.push(locations.len() - 1)
        } else {
            p
        }
    }
}

/// The locations of the containers, in order.
pub open spec fn container_locations(containers: Seq<ContainerModel>) -> Seq<Option<RecordId>> {
    containers.map_values(|c: ContainerModel| c.location)
}

/// The locations of the items, in order.
pub open spec fn item_locations(items: Seq<ItemModel>) -> Seq<Option<RecordId>> {
    items.map_values(|i: ItemModel| Some(i.location))
}

proof fn lemma_positions_in_step(locations: Seq<Option<RecordId>>, container: RecordId, k: int)
    requires
        0 <= k < locations.len(),
    ensures
        locations.subrange(0, k + 1).drop_last() == locations.subrange(0, k),
        locations.subrange(0, k + 1).last() == locations[k],
        locations.subrange(0, locations.len() as int) == locations,
{
    assert(locations.subrange(0, k + 1).drop_last() =~= locations.subrange(0, k));
    assert(locations.subrange(0, locations.len() as int) =~= locations);
}

impl JsonDataService {
    /// The containers stored directly inside `container`, in store order.
    pub fn containers_within(&self, container: RecordId) -> (r: Vec<&ContainerModel>)
        ensures
            refers_at(r@, self.models.containers@, positions_in(container_locations(self.models.containers@), container)),
    {
        let ghost locs = container_locations(self.models.containers@);
        let mut r: Vec<&ContainerModel> = Vec::new();
        let mut k: usize = 0;
        while k < self.models.containers.len()
            invariant
                0 <= k <= self.models.containers@.len(),
                locs == container_locations(self.models.containers@),
                refers_at(r@, self.models.containers@, positions_in(locs.subrange(0, k as int), container)),
                forall|m: int| 0 <= m < positions_in(locs.subrange(0, k as int), container).len()
                    ==> 0 <= #[trigger] positions_in(locs.subrange(0, k as int), container)[m] < k,
            decreases self.models.containers@.len() - k,
        {
            proof {
                lemma_positions_in_step(locs, container, k as int);
            }
            if self.models.containers[k].location == Some(container) {
                r.push(&self.models.containers[k]);
            }
            k = k + 1;
        }
        proof {
            assert(locs.subrange(0, locs.len() as int) =~= locs);
        }
        r
    }

    /// The items stored inside `container`, in store order.
    pub fn items_within(&self, container: RecordId) -> (r: Vec<&ItemModel>)
        ensures
            refers_at(r@, self.models.items@, positions_in(item_locations(self.models.items@), container)),
    {
        let ghost locs = item_locations(self.models.items@);
        let mut r: Vec<&ItemModel> = Vec::new();
        let mut k: usize = 0;
        while k < self.models.items.len()
            invariant
                0 <= k <= self.models.items@.len(),
                locs == item_locations(self.models.items@),
                refers_at(r@, self.models.items@, positions_in(locs.subrange(0, k as int), container)),
                forall|m: int| 0 <= m < positions_in(locs.subrange(0, k as int), container).len()
                    ==> 0 <= #[trigger] positions_in(locs.subrange(0, k as int), container)[m] < k,
            decreases self.models.items@.len() - k,
        {
            proof {
                lemma_positions_in_step(locs, container, k as int);
            }
            if self.models.items[k].location == container {
                r.push(&self.models.items[k]);
            }
            k = k + 1;
        }
        proof {
            assert(locs.subrange(0, locs.len() as int) =~= locs);
        }
        r
    }
}

/// A lookup that found nothing: the text designates no record of that kind.
pub open spec fn found_nothing(r: Result<int, ErrorView>) -> bool {
    r matches Err(e) && (e is IdentifierNotFound || e is NameNotFound)
}

impl JsonDataService {
    /// Deletes the record that `name_or_id` designates: an item when it
    /// designates one, otherwise a container. Says which kind was deleted.
    pub fn delete(&mut self, name_or_id: &str) -> (r: Result<(RecordKind, RecordId), Error>)
        requires
            old(self).wf(),
        ensures
            final(self).wf(),
            final(self).models.extra == old(self).models.extra,
            !found_nothing(resolve_spec(old(self).item_keys(), name_or_id@)) ==> ({
                let d = match r {
                    Ok((_, id)) => Ok::<RecordId, Error>(id),
                    Err(e) => Err(e),
                };
                &&& r matches Ok((k, _)) ==> k == RecordKind::Item
                &&& delete_outcome(old(self).models.items@, final(self).models.items@, d, name_or_id@)
                &&& final(self).models.containers == old(self).models.containers
            }),
            found_nothing(resolve_spec(old(self).item_keys(), name_or_id@)) ==> ({
                let d = match r {
                    Ok((_, id)) => Ok::<RecordId, Error>(id),
                    Err(e) => Err(e),
                };
                &&& r matches Ok((k, _)) ==> k == RecordKind::Container
                &&& delete_outcome(old(self).models.containers@, final(self).models.containers@, d, name_or_id@)
                &&& final(self).models.items@ == old(self).models.items@
            }),
    {
        match self.delete_item(name_or_id) {
            Ok(id) => Ok((RecordKind::Item, id)),
            Err(Error::NameNotFound(_)) => match self.delete_container(name_or_id) {
                Ok(id) => Ok((RecordKind::Container, id)),
                Err(e) => Err(e),
            },
            Err(Error::IdentifierNotFound(_)) => match self.delete_container(name_or_id) {
                Ok(id) => Ok((RecordKind::Container, id)),
                Err(e) => Err(e),
            },
            Err(e) => Err(e),
        }
    }
}

} // verus!

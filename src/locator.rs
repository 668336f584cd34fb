//! Resolution of a user-supplied string to exactly one record of a collection:
//! a string that reads as an identifier is looked up by identifier only; any
//! other string is a name, which must be carried by exactly one record.

use vstd::prelude::*;
use crate::error::{Error, ErrorView, position_result};
use crate::ids::{RecordId, uuid_parse_of};

verus! {

/// A stored record: it has an identifier and a name.
pub trait Record {
    /// The identifier and the name of the record.
    spec fn key(&self) -> (RecordId, Seq<char>);

    fn id(&self) -> (r: RecordId)
        ensures
            r == self.key().0,
    ;

    fn name(&self) -> (r: &String)
        ensures
            r@ == self.key().1,
    ;
}

/// The identifiers and names of a collection, in order.
pub open spec fn keys_of<T: Record>(records: Seq<T>) -> Seq<(RecordId, Seq<char>)> {
    records.map_values(|r: T| r.key())
}

/// No two records of the collection share an identifier.
pub open spec fn ids_unique(keys: Seq<(RecordId, Seq<char>)>) -> bool {
    forall|i: int, j: int| 0 <= i < j < keys.len() ==> keys[i].0 != keys[j].0
}

/// The first position that holds identifier `id`.
pub open spec fn find_id(keys: Seq<(RecordId, Seq<char>)>, id: RecordId) -> Option<int>
    decreases keys.len(),
{
    if keys.len() == 0 {
        None
    } else {
        match find_id(keys.drop_last(), id) {
            Some(i) => Some(i),
            None => if keys.last().0 == id {
                Some(keys.len() - 1)
            } else {
                None
            },
        }
    }
}

/// The positions that hold name `name`, in increasing order.
pub open spec fn name_positions(keys: Seq<(RecordId, Seq<char>)>, name: Seq<char>) -> Seq<int>
    decreases keys.len(),
{
    if keys.len() == 0 {
        Seq::empty()
    } else {
        let p = name_positions(keys.drop_last(), name);
        if keys.last().1 == name {
            p.push(keys.len() - 1)
        } else {
            p
        }
    }
}

/// The identifiers held at the given positions.
pub open spec fn ids_at(keys: Seq<(RecordId, Seq<char>)>, positions: Seq<int>) -> Seq<RecordId> {
    positions.map_values(|p: int| keys[p].0)
}

/// What looking up identifier `id` in a collection yields.
pub open spec fn by_id_spec(keys: Seq<(RecordId, Seq<char>)>, id: RecordId) -> Result<int, ErrorView> {
    match find_id(keys, id) {
        Some(i) => Ok(i),
        None => Err(ErrorView::IdentifierNotFound(id)),
    }
}

/// What looking up name `name` in a collection yields: the one record that
/// carries it, or none, or all of them when there are several.
pub open spec fn by_name_spec(keys: Seq<(RecordId, Seq<char>)>, name: Seq<char>) -> Result<int, ErrorView> {
    let p = name_positions(keys, name);
    if p.len() == 1 {
        Ok(p[0])
    } else if p.len() == 0 {
        Err(ErrorView::NameNotFound(name))
    } else {
        Err(ErrorView::AmbiguousName(name, ids_at(keys, p)))
    }
}

/// What resolving `input` against a collection yields: the position of the
/// record it designates, or the reason there is none. A string that reads as
/// an identifier is looked up by identifier only.
pub open spec fn resolve_spec(keys: Seq<(RecordId, Seq<char>)>, input: Seq<char>) -> Result<int, ErrorView> {
    match uuid_parse_of(input) {
        Some(v) => by_id_spec(keys, RecordId { value: v }),
        None => by_name_spec(keys, input),
    }
}

/// No two records share an identifier, or one identifier that two records share.
pub open spec fn duplicate_result(keys: Seq<(RecordId, Seq<char>)>, r: Option<RecordId>) -> bool {
    match r {
        None => ids_unique(keys),
        Some(id) => exists|i: int, j: int| 0 <= i < j < keys.len() && keys[i].0 == id && keys[j].0 == id,
    }
}

proof fn lemma_prefix_step(keys: Seq<(RecordId, Seq<char>)>, i: int)
    requires
        0 <= i < keys.len(),
    ensures
        keys.subrange(0, i + 1).drop_last() == keys.subrange(0, i),
        keys.subrange(0, i + 1).last() == keys[i],
        keys.subrange(0, keys.len() as int) == keys,
{
    assert(keys.subrange(0, i + 1).drop_last() =~= keys.subrange(0, i));
    assert(keys.subrange(0, keys.len() as int) =~= keys);
}

/// The position of the first record with identifier `id`, if any.
pub fn find_by_id<T: Record>(records: &Vec<T>, id: RecordId) -> (r: Option<usize>)
    ensures
        match r {
            Some(i) => find_id(keys_of(records@), id) == Some(i as int),
            None => find_id(keys_of(records@), id) is None,
        },
{
    let ghost keys = keys_of(records@);
    let mut i: usize = 0;
    while i < records.len()
        invariant
            0 <= i <= records.len(),
            keys == keys_of(records@),
            find_id(keys.subrange(0, i as int), id) is None,
        decreases records.len() - i,
    {
        proof {
            lemma_prefix_step(keys, i as int);
        }
        if records[i].id() == id {
            proof {
                lemma_find_id_prefix(keys, id, i as int + 1);
            }
            return Some(i);
        }
        i = i + 1;
    }
    proof {
        assert(keys.subrange(0, keys.len() as int) =~= keys);
    }
    None
}

/// A position found in a prefix is the position found in the whole.
proof fn lemma_find_id_prefix(keys: Seq<(RecordId, Seq<char>)>, id: RecordId, n: int)
    requires
        0 <= n <= keys.len(),
        find_id(keys.subrange(0, n), id) is Some,
    ensures
        find_id(keys, id) == find_id(keys.subrange(0, n), id),
    decreases keys.len() - n,
{
    if n < keys.len() {
        lemma_prefix_step(keys, n);
        lemma_find_id_prefix(keys, id, n + 1);
    } else {
        assert(keys.subrange(0, n) =~= keys);
    }
}

/// The positions of the records named `name`, and their identifiers.
pub fn positions_named<T: Record>(records: &Vec<T>, name: &String) -> (r: (Vec<usize>, Vec<RecordId>))
    ensures
        r.0@.map_values(|p: usize| p as int) == name_positions(keys_of(records@), name@),
        r.1@ == ids_at(keys_of(records@), name_positions(keys_of(records@), name@)),
{
    let ghost keys = keys_of(records@);
    let mut positions: Vec<usize> = Vec::new();
    let mut ids: Vec<RecordId> = Vec::new();
    let mut i: usize = 0;
    while i < records.len()
        invariant
            0 <= i <= records.len(),
            keys == keys_of(records@),
            positions@.map_values(|p: usize| p as int) == name_positions(keys.subrange(0, i as int), name@),
            ids@ == ids_at(keys, name_positions(keys.subrange(0, i as int), name@)),
        decreases records.len() - i,
    {
        proof {
            lemma_prefix_step(keys, i as int);
        }
        let ghost old_positions = positions@;
        let ghost old_ids = ids@;
        if records[i].name().eq(name) {
            positions.push(i);
            ids.push(records[i].id());
            proof {
                let p = name_positions(keys.subrange(0, i as int), name@);
                assert(positions@.map_values(|p: usize| p as int) =~= old_positions.map_values(|p: usize| p as int).push(i as int));
                assert(ids_at(keys, p.push(i as int)) =~= ids_at(keys, p).push(keys[i as int].0));
            }
        }
        i = i + 1;
    }
    proof {
        assert(keys.subrange(0, keys.len() as int) =~= keys);
    }
    (positions, ids)
}

/// Looks up identifier `id` in `records`.
pub fn resolve_by_id<T: Record>(records: &Vec<T>, id: RecordId) -> (r: Result<usize, Error>)
    ensures
        position_result(r) == by_id_spec(keys_of(records@), id),
        r matches Ok(i) ==> i < records@.len(),
{
    proof {
        lemma_find_id(keys_of(records@), id);
    }
    match find_by_id(records, id) {
        Some(i) => Ok(i),
        None => Err(Error::IdentifierNotFound(id)),
    }
}

/// Looks up name `name` in `records`: it must be carried by exactly one.
pub fn resolve_by_name<T: Record>(records: &Vec<T>, name: String) -> (r: Result<usize, Error>)
    ensures
        position_result(r) == by_name_spec(keys_of(records@), name@),
        r matches Ok(i) ==> i < records@.len(),
{
    let (positions, ids) = positions_named(records, &name);
    proof {
        lemma_name_positions(keys_of(records@), name@);
        assert(positions@.map_values(|p: usize| p as int).len() == positions@.len());
        if positions@.len() > 0 {
            assert(positions@.map_values(|p: usize| p as int)[0] == positions@[0] as int);
        }
    }
    if positions.len() == 1 {
        Ok(positions[0])
    } else if positions.len() == 0 {
        Err(Error::NameNotFound(name))
    } else {
        Err(Error::AmbiguousName(name, ids))
    }
}

/// Resolves `input` against `records`: the position of the record that it
/// designates, by identifier when it reads as one and by name otherwise.
pub fn resolve<T: Record>(records: &Vec<T>, input: &str) -> (r: Result<usize, Error>)
    ensures
        position_result(r) == resolve_spec(keys_of(records@), input@),
        r matches Ok(i) ==> i < records@.len(),
{
    match RecordId::parse(input) {
        Some(id) => resolve_by_id(records, id),
        None => resolve_by_name(records, input.to_owned()),
    }
}

/// An identifier that two records of `records` share, if there is one.
pub fn find_duplicate<T: Record>(records: &Vec<T>) -> (r: Option<RecordId>)
    ensures
        duplicate_result(keys_of(records@), r),
{
    let ghost keys = keys_of(records@);
    let mut i: usize = 0;
    while i < records.len()
        invariant
            0 <= i <= records.len(),
            keys == keys_of(records@),
            forall|a: int, b: int| 0 <= a < i && a < b < keys.len() ==> keys[a].0 != keys[b].0,
        decreases records.len() - i,
    {
        let id = records[i].id();
        let mut j: usize = i + 1;
        while j < records.len()
            invariant
                0 <= i < j <= records.len(),
                keys == keys_of(records@),
                id == keys[i as int].0,
                forall|a: int, b: int| 0 <= a < i && a < b < keys.len() ==> keys[a].0 != keys[b].0,
                forall|b: int| i < b < j ==> keys[i as int].0 != keys[b].0,
            decreases records.len() - j,
        {
            if records[j].id() == id {
                assert(keys[i as int].0 == id && keys[j as int].0 == id);
                return Some(id);
            }
            j = j + 1;
        }
        i = i + 1;
    }
    None
}

/// `find_id` yields the first position holding `id`, or nothing when no
/// position holds it.
pub proof fn lemma_find_id(keys: Seq<(RecordId, Seq<char>)>, id: RecordId)
    ensures
        match find_id(keys, id) {
            Some(i) => 0 <= i < keys.len() && keys[i].0 == id && forall|j: int|
                0 <= j < i ==> keys[j].0 != id,
            None => forall|j: int| 0 <= j < keys.len() ==> keys[j].0 != id,
        },
    decreases keys.len(),
{
    if keys.len() > 0 {
        let rest = keys.drop_last();
        lemma_find_id(rest, id);
        assert forall|j: int| 0 <= j < rest.len() implies rest[j] == keys[j] by {}
    }
}

/// `name_positions` lists, in increasing order, exactly the positions that hold
/// the name.
pub proof fn lemma_name_positions(keys: Seq<(RecordId, Seq<char>)>, name: Seq<char>)
    ensures
        forall|k: int|
            0 <= k < name_positions(keys, name).len() ==> 0 <= #[trigger] name_positions(keys, name)[k]
                < keys.len() && keys[name_positions(keys, name)[k]].1 == name,
        forall|j: int|
            0 <= j < keys.len() && keys[j].1 == name ==> #[trigger] name_positions(keys, name).contains(j),
        forall|a: int, b: int|
            0 <= a < b < name_positions(keys, name).len() ==> name_positions(keys, name)[a]
                < name_positions(keys, name)[b],
    decreases keys.len(),
{
    if keys.len() > 0 {
        let rest = keys.drop_last();
        lemma_name_positions(rest, name);
        let p = name_positions(rest, name);
        if keys.last().1 == name {
            let q = p.push(keys.len() - 1);
            assert forall|j: int| 0 <= j < keys.len() && keys[j].1 == name implies q.contains(j) by {
                if j < keys.len() - 1 {
                    assert(rest[j] == keys[j]);
                    assert(p.contains(j));
                    let k = choose|k: int| 0 <= k < p.len() && p[k] == j;
                    assert(q[k] == j);
                } else {
                    assert(q[p.len() as int] == j);
                }
            }
        } else {
            assert forall|j: int| 0 <= j < keys.len() && keys[j].1 == name implies p.contains(j) by {
                assert(rest[j] == keys[j]);
                assert(j < keys.len() - 1);
            }
        }
    }
}

/// A string that reads as the identifier of a record resolves to that record,
/// in a collection whose identifiers are unique.
pub proof fn lemma_resolve_present_identifier<T: Record>(records: Seq<T>, input: Seq<char>, i: int)
    requires
        ids_unique(keys_of(records)),
        0 <= i < records.len(),
        uuid_parse_of(input) == Some(records[i].key().0.value),
    ensures
        resolve_spec(keys_of(records), input) == Ok::<int, ErrorView>(i),
{
    let keys = keys_of(records);
    lemma_find_id(keys, records[i].key().0);
    assert(keys[i].0 == records[i].key().0);
}

/// A string that reads as an identifier that no record has fails with
/// `IdentifierNotFound` for that identifier, never with a name error.
pub proof fn lemma_resolve_absent_identifier<T: Record>(records: Seq<T>, input: Seq<char>, v: u128)
    requires
        uuid_parse_of(input) == Some(v),
        forall|j: int| 0 <= j < records.len() ==> records[j].key().0.value != v,
    ensures
        resolve_spec(keys_of(records), input) == Err::<int, ErrorView>(
            ErrorView::IdentifierNotFound(RecordId { value: v }),
        ),
{
    let keys = keys_of(records);
    lemma_find_id(keys, RecordId { value: v });
    if find_id(keys, RecordId { value: v }) is Some {
        let i = find_id(keys, RecordId { value: v })->0;
        assert(keys[i] == records[i].key());
    }
}

/// A name (a string that does not read as an identifier) that exactly one
/// record carries resolves to that record.
pub proof fn lemma_resolve_unique_name<T: Record>(records: Seq<T>, name: Seq<char>, i: int)
    requires
        uuid_parse_of(name) is None,
        0 <= i < records.len(),
        records[i].key().1 == name,
        forall|j: int| 0 <= j < records.len() && j != i ==> records[j].key().1 != name,
    ensures
        resolve_spec(keys_of(records), name) == Ok::<int, ErrorView>(i),
{
    let keys = keys_of(records);
    lemma_name_positions(keys, name);
    let p = name_positions(keys, name);
    assert(keys[i] == records[i].key());
    assert(p.contains(i));
    assert forall|k: int| 0 <= k < p.len() implies p[k] == i by {
        assert(keys[p[k]] == records[p[k]].key());
    }
    if p.len() > 1 {
        assert(p[0] < p[1]);
    }
}

/// A name that no record carries fails with `NameNotFound` for that name.
pub proof fn lemma_resolve_unknown_name<T: Record>(records: Seq<T>, name: Seq<char>)
    requires
        uuid_parse_of(name) is None,
        forall|j: int| 0 <= j < records.len() ==> records[j].key().1 != name,
    ensures
        resolve_spec(keys_of(records), name) == Err::<int, ErrorView>(ErrorView::NameNotFound(name)),
{
    let keys = keys_of(records);
    lemma_name_positions(keys, name);
    let p = name_positions(keys, name);
    if p.len() > 0 {
        assert(keys[p[0]] == records[p[0]].key());
    }
}

/// A name that two or more records carry fails with `AmbiguousName` for that
/// name; its candidates are the identifiers of exactly the records that carry
/// it, one for each, in store order.
pub proof fn lemma_resolve_ambiguous_name<T: Record>(records: Seq<T>, name: Seq<char>, i: int, j: int)
    requires
        uuid_parse_of(name) is None,
        0 <= i < j < records.len(),
        records[i].key().1 == name,
        records[j].key().1 == name,
    ensures
        ({
            let keys = keys_of(records);
            let p = name_positions(keys, name);
            &&& resolve_spec(keys, name) == Err::<int, ErrorView>(
                ErrorView::AmbiguousName(name, ids_at(keys, p)),
            )
            &&& p.len() >= 2
            &&& ids_at(keys, p).len() == p.len()
            &&& forall|k: int|
                0 <= k < p.len() ==> 0 <= #[trigger] p[k] < records.len() && records[p[k]].key().1 == name
                    && ids_at(keys, p)[k] == records[p[k]].key().0
            &&& forall|m: int| 0 <= m < records.len() && records[m].key().1 == name ==> #[trigger] p.contains(m)
            &&& forall|a: int, b: int| 0 <= a < b < p.len() ==> p[a] < p[b]
        }),
{
    let keys = keys_of(records);
    lemma_name_positions(keys, name);
    let p = name_positions(keys, name);
    assert(keys[i] == records[i].key());
    assert(keys[j] == records[j].key());
    assert(p.contains(i));
    assert(p.contains(j));
    let ki = choose|k: int| 0 <= k < p.len() && p[k] == i;
    let kj = choose|k: int| 0 <= k < p.len() && p[k] == j;
    assert(ki != kj);
    assert forall|k: int| 0 <= k < p.len() implies 0 <= #[trigger] p[k] < records.len() && records[p[k]].key().1
        == name && ids_at(keys, p)[k] == records[p[k]].key().0 by {
        assert(keys[p[k]] == records[p[k]].key());
    }
    assert forall|m: int| 0 <= m < records.len() && records[m].key().1 == name implies #[trigger] p.contains(m) by {
        assert(keys[m] == records[m].key());
    }
}

} // verus!

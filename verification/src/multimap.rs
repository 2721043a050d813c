//! The two `multi_map::MultiMap` tables of the http task, behind trusted
//! wrappers.
//!
//! A `MultiMap<K1, K2, V>` holds a main table from `K1` to `(K2, V)` and a
//! second table from `K2` to `K1`. Each table is named below, for each of
//! the two instantiations the task uses, and each wrapper states what the
//! method does to both tables, as `multi_map` 1.3.0's source shows. The
//! keys are `usize` and `Option<usize>`, whose `Hash` and `Eq` are std's.

use multi_map::MultiMap;
use std::hash::Hash;
use vstd::prelude::*;

use crate::http::{Connection, Server};

verus! {

/// `multi_map::MultiMap`.
#[verifier::external_type_specification]
#[verifier::external_body]
#[verifier::reject_recursive_types(K1)]
#[verifier::reject_recursive_types(K2)]
#[verifier::reject_recursive_types(V)]
pub struct ExMultiMap<K1: Eq + Hash, K2: Eq + Hash, V>(MultiMap<K1, K2, V>);

/// The servers of the http task: by server handle, and by listen handle
/// once bound.
pub type ServerTable = MultiMap<usize, Option<usize>, Server>;

/// The connections of the http task: by connection handle, and by socket
/// handle.
pub type ConnectionTable = MultiMap<usize, usize, Connection>;

/// The main table of the servers map: server handle to (listen handle if
/// bound, server).
pub uninterp spec fn server_values(m: ServerTable) -> Map<
    usize,
    (Option<usize>, Server),
>;

/// The second table of the servers map: listen handle to server handle.
pub uninterp spec fn server_keys(m: ServerTable) -> Map<
    Option<usize>,
    usize,
>;

/// The main table of the connections map: connection handle to (socket
/// handle, connection).
pub uninterp spec fn connection_values(m: ConnectionTable) -> Map<
    usize,
    (usize, Connection),
>;

/// The second table of the connections map: socket handle to connection
/// handle.
pub uninterp spec fn connection_keys(m: ConnectionTable) -> Map<usize, usize>;

/// `MultiMap::new`: both tables empty.
#[verifier::external_body]
pub(crate) fn servers_new() -> (m: ServerTable)
    ensures
        server_values(m) =~= Map::empty(),
        server_keys(m) =~= Map::empty(),
{
    MultiMap::new()
}

/// `MultiMap::insert`: the second table maps `k2` to `k1` and the main
/// table maps `k1` to `(k2, v)`; other entries stay.
#[verifier::external_body]
pub(crate) fn servers_insert(
    m: &mut ServerTable,
    k1: usize,
    k2: Option<usize>,
    v: Server,
)
    ensures
        server_values(*final(m)) == server_values(*old(m)).insert(k1, (k2, v)),
        server_keys(*final(m)) == server_keys(*old(m)).insert(k2, k1),
{
    m.insert(k1, k2, v)
}

/// `MultiMap::get`: the value under `k1` in the main table.
#[verifier::external_body]
pub(crate) fn servers_get<'a>(m: &'a ServerTable, k1: &usize) -> (r:
    Option<&'a Server>)
    ensures
        match r {
            Some(v) => server_values(*m).contains_key(*k1) && *v == server_values(*m)[*k1].1,
            None => !server_values(*m).contains_key(*k1),
        },
{
    m.get(k1)
}

/// `MultiMap::get_alt`: the value under the main key that the second table
/// gives for `k2`.
#[verifier::external_body]
pub(crate) fn servers_get_alt<'a>(m: &'a ServerTable, k2: &Option<usize>) -> (r:
    Option<&'a Server>)
    ensures
        match r {
            Some(v) => {
                &&& server_keys(*m).contains_key(*k2)
                &&& server_values(*m).contains_key(server_keys(*m)[*k2])
                &&& *v == server_values(*m)[server_keys(*m)[*k2]].1
            },
            None => !(server_keys(*m).contains_key(*k2) && server_values(*m).contains_key(
                server_keys(*m)[*k2],
            )),
        },
{
    m.get_alt(k2)
}

/// `MultiMap::remove`: takes the entry under `k1` out of the main table and
/// the entry under its second key out of the second table.
#[verifier::external_body]
pub(crate) fn servers_remove(m: &mut ServerTable, k1: &usize) -> (r:
    Option<Server>)
    ensures
        if server_values(*old(m)).contains_key(*k1) {
            let (k2, v) = server_values(*old(m))[*k1];
            &&& r == Some(v)
            &&& server_values(*final(m)) == server_values(*old(m)).remove(*k1)
            &&& server_keys(*final(m)) == server_keys(*old(m)).remove(k2)
        } else {
            &&& r is None
            &&& server_values(*final(m)) == server_values(*old(m))
            &&& server_keys(*final(m)) == server_keys(*old(m))
        },
{
    m.remove(k1)
}

/// `MultiMap::new`: both tables empty.
#[verifier::external_body]
pub(crate) fn connections_new() -> (m: ConnectionTable)
    ensures
        connection_values(m) =~= Map::empty(),
        connection_keys(m) =~= Map::empty(),
{
    MultiMap::new()
}

/// `MultiMap::insert`: the second table maps `k2` to `k1` and the main
/// table maps `k1` to `(k2, v)`; other entries stay.
#[verifier::external_body]
pub(crate) fn connections_insert(
    m: &mut ConnectionTable,
    k1: usize,
    k2: usize,
    v: Connection,
)
    ensures
        connection_values(*final(m)) == connection_values(*old(m)).insert(k1, (k2, v)),
        connection_keys(*final(m)) == connection_keys(*old(m)).insert(k2, k1),
{
    m.insert(k1, k2, v)
}

/// `MultiMap::get_mut`: a mutable borrow of the value under `k1` in the
/// main table; what is written through it replaces that value, and the
/// second table is left alone.
#[verifier::external_body]
pub(crate) fn connections_get_mut<'a>(m: &'a mut ConnectionTable, k1: &usize) -> (r:
    Option<&'a mut Connection>)
    ensures
        match r {
            Some(v) => {
                &&& connection_values(*old(m)).contains_key(*k1)
                &&& *v == connection_values(*old(m))[*k1].1
                &&& connection_values(*final(m)) == connection_values(*old(m)).insert(
                    *k1,
                    (connection_values(*old(m))[*k1].0, *final(v)),
                )
                &&& connection_keys(*final(m)) == connection_keys(*old(m))
            },
            None => {
                &&& !connection_values(*old(m)).contains_key(*k1)
                &&& *final(m) == *old(m)
            },
        },
{
    m.get_mut(k1)
}

/// `MultiMap::get_alt`: the value under the main key that the second table
/// gives for `k2`.
#[verifier::external_body]
pub(crate) fn connections_get_alt<'a>(m: &'a ConnectionTable, k2: &usize) -> (r:
    Option<&'a Connection>)
    ensures
        match r {
            Some(v) => {
                &&& connection_keys(*m).contains_key(*k2)
                &&& connection_values(*m).contains_key(connection_keys(*m)[*k2])
                &&& *v == connection_values(*m)[connection_keys(*m)[*k2]].1
            },
            None => !(connection_keys(*m).contains_key(*k2) && connection_values(
                *m,
            ).contains_key(connection_keys(*m)[*k2])),
        },
{
    m.get_alt(k2)
}

/// `MultiMap::remove`: takes the entry under `k1` out of the main table and
/// the entry under its second key out of the second table.
#[verifier::external_body]
pub(crate) fn connections_remove(m: &mut ConnectionTable, k1: &usize) -> (r:
    Option<Connection>)
    ensures
        if connection_values(*old(m)).contains_key(*k1) {
            let (k2, v) = connection_values(*old(m))[*k1];
            &&& r == Some(v)
            &&& connection_values(*final(m)) == connection_values(*old(m)).remove(*k1)
            &&& connection_keys(*final(m)) == connection_keys(*old(m)).remove(k2)
        } else {
            &&& r is None
            &&& connection_values(*final(m)) == connection_values(*old(m))
            &&& connection_keys(*final(m)) == connection_keys(*old(m))
        },
{
    m.remove(k1)
}

/// `MultiMap::remove_alt`: takes the entry under `k2` out of the second
/// table and, if the main table has an entry under the key it gave, that
/// entry too.
#[verifier::external_body]
pub(crate) fn connections_remove_alt(m: &mut ConnectionTable, k2: &usize) -> (r:
    Option<Connection>)
    ensures
        if connection_keys(*old(m)).contains_key(*k2) {
            let k1 = connection_keys(*old(m))[*k2];
            &&& connection_keys(*final(m)) == connection_keys(*old(m)).remove(*k2)
            &&& if connection_values(*old(m)).contains_key(k1) {
                &&& r == Some(connection_values(*old(m))[k1].1)
                &&& connection_values(*final(m)) == connection_values(*old(m)).remove(k1)
            } else {
                &&& r is None
                &&& connection_values(*final(m)) == connection_values(*old(m))
            }
        } else {
            &&& r is None
            &&& connection_values(*final(m)) == connection_values(*old(m))
            &&& connection_keys(*final(m)) == connection_keys(*old(m))
        },
{
    m.remove_alt(k2)
}

} // verus!

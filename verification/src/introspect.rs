//! Cluster topology views: pairing each node with its namespaces, resolving
//! a node by name, and the info key that asks a node for a namespace's sets.
//! The transport that carries the info requests stays with the caller; the
//! decisions and the decoding stand here.

use vstd::prelude::*;

use crate::info::{parse_namespace_list, spec_namespace_list};

verus! {

/// One cluster node and the namespaces it reported.
#[derive(Debug, PartialEq, Eq, Clone)]
pub struct Node {
    pub name: String,
    pub namespaces: Vec<String>,
}

/// Why an introspection request failed.
#[derive(Debug, PartialEq, Eq, Clone)]
pub enum IntrospectError {
    /// One node's info request failed: the whole listing fails, since a
    /// topology view must be consistent across nodes.
    NodeInfoError { node: String },
    /// A node was named that the session does not know.
    UnknownNode,
}

/// Whether the info responses before `n` are all present.
pub open spec fn infos_present_to(entries: Seq<(String, Option<String>)>, n: int) -> bool {
    forall|j: int| 0 <= j < n ==> entries[j].1 is Some
}

/// Whether `i` is the first entry whose info response is missing.
pub open spec fn first_missing_info(entries: Seq<(String, Option<String>)>, i: int) -> bool {
    &&& 0 <= i < entries.len()
    &&& entries[i].1 is None
    &&& infos_present_to(entries, i)
}

/// Builds the node listing out of each node's name and its `namespaces`
/// info response. A missing response — a node whose info request failed —
/// fails the whole listing with that node's name: no partial silent
/// success.
pub fn assemble_nodes(entries: &Vec<(String, Option<String>)>) -> (r: Result<
    Vec<Node>,
    IntrospectError,
>)
    ensures
        match r {
            Ok(nodes) => {
                &&& infos_present_to(entries@, entries@.len() as int)
                &&& nodes@.len() == entries@.len()
                &&& forall|i: int|
                    0 <= i < nodes@.len() ==> #[trigger] nodes@[i].name@ == entries@[i].0@
                        && nodes@[i].namespaces.deep_view() == spec_namespace_list(
                        entries@[i].1->Some_0@,
                    )
            },
            Err(e) => e matches IntrospectError::NodeInfoError { node } && exists|i: int|
                #[trigger] first_missing_info(entries@, i) && node@ == entries@[i].0@,
        },
{
    let mut nodes: Vec<Node> = Vec::new();
    let mut i: usize = 0;
    while i < entries.len()
        invariant
            i <= entries.len(),
            nodes@.len() == i,
            infos_present_to(entries@, i as int),
            forall|j: int|
                0 <= j < i ==> #[trigger] nodes@[j].name@ == entries@[j].0@
                    && nodes@[j].namespaces.deep_view() == spec_namespace_list(
                    entries@[j].1->Some_0@,
                ),
        decreases entries.len() - i,
    {
        match &entries[i].1 {
            Some(raw) => {
                let namespaces = parse_namespace_list(raw.as_str());
                nodes.push(Node { name: entries[i].0.clone(), namespaces });
            },
            None => {
                proof {
                    assert(first_missing_info(entries@, i as int));
                }
                return Err(IntrospectError::NodeInfoError { node: entries[i].0.clone() });
            },
        }
        i = i + 1;
    }
    Ok(nodes)
}

/// Resolves a node by name: the position of the first node so named, or
/// [`IntrospectError::UnknownNode`] when none is.
pub fn find_node(names: &Vec<String>, target: &str) -> (r: Result<usize, IntrospectError>)
    ensures
        match r {
            Ok(i) => {
                &&& i < names@.len()
                &&& names@[i as int]@ == target@
                &&& forall|j: int| 0 <= j < i ==> #[trigger] names@[j]@ != target@
            },
            Err(e) => {
                &&& e == IntrospectError::UnknownNode
                &&& forall|j: int| 0 <= j < names@.len() ==> #[trigger] names@[j]@ != target@
            },
        },
{
    let t = target.to_owned();
    let mut i: usize = 0;
    while i < names.len()
        invariant
            i <= names.len(),
            t@ == target@,
            forall|j: int| 0 <= j < i ==> #[trigger] names@[j]@ != target@,
        decreases names.len() - i,
    {
        if names[i].eq(&t) {
            return Ok(i);
        }
        i = i + 1;
    }
    Err(IntrospectError::UnknownNode)
}

/// The info key that asks a node for the sets of one namespace.
pub fn sets_info_key(namespace: &str) -> (r: String)
    ensures
        r@ == "sets/"@ + namespace@,
{
    let mut r = String::from_str("sets/");
    r.append(namespace);
    r
}

/// Plans a per-namespace set listing: which known node to ask — resolved by
/// name, [`IntrospectError::UnknownNode`] when stale or invalid — and the
/// info key to ask it for.
pub fn plan_set_listing(names: &Vec<String>, target: &str, namespace: &str) -> (r: Result<
    (usize, String),
    IntrospectError,
>)
    ensures
        match r {
            Ok((i, key)) => {
                &&& i < names@.len()
                &&& names@[i as int]@ == target@
                &&& forall|j: int| 0 <= j < i ==> #[trigger] names@[j]@ != target@
                &&& key@ == "sets/"@ + namespace@
            },
            Err(e) => {
                &&& e == IntrospectError::UnknownNode
                &&& forall|j: int| 0 <= j < names@.len() ==> #[trigger] names@[j]@ != target@
            },
        },
{
    let i = match find_node(names, target) {
        Ok(i) => i,
        Err(e) => {
            return Err(e);
        },
    };
    Ok((i, sets_info_key(namespace)))
}

} // verus!

//! The service configuration: rename tables that map the names an SDK
//! surface uses to the names the catalog uses.
//!
//! The tables are association lists with unique keys; a lookup falls
//! back to the unrenamed name.

use vstd::prelude::*;
use vstd::string::StringExecFns;
use crate::arn::{assoc_get, assoc_lookup, pairs_view};
use crate::text::str_to_chars;

verus! {

/// An operation rename: the service and operation name the catalog
/// models the operation under.
#[derive(Debug, Clone)]
pub struct OperationRename {
    /// Target service name.
    pub service: String,
    /// Target operation name.
    pub operation: String,
}

/// The rename tables of the service configuration.
#[derive(Debug, Clone)]
pub struct ServiceConfiguration {
    /// Service renames for the operation-action map.
    pub rename_services_operation_action_map: Vec<(String, String)>,
    /// Service renames for the service reference.
    pub rename_services_service_reference: Vec<(String, String)>,
    /// Service renames between the two catalog model families.
    pub smithy_botocore_service_name_mapping: Vec<(String, String)>,
    /// Operation renames, keyed by `service:Operation`.
    pub rename_operations: Vec<(String, OperationRename)>,
    /// Resource overrides, per service.
    pub resource_overrides: Vec<(String, Vec<(String, String)>)>,
}

/// A renamed name: the table's entry when the key is present, the
/// original name otherwise.
pub open spec fn rename_spec(table: Seq<(Seq<char>, Seq<char>)>, original: Seq<char>) -> Seq<
    char,
> {
    match assoc_lookup(table, original) {
        Some(v) => v,
        None => original,
    }
}

/// The operation renames as pairs of key and target operation.
pub open spec fn rename_ops_view(v: Seq<(String, OperationRename)>) -> Seq<(Seq<char>, Seq<char>)> {
    v.map_values(|p: (String, OperationRename)| (p.0@, p.1.operation@))
}

impl ServiceConfiguration {
    /// Renames a service for the operation-action map.
    pub fn rename_service_operation_action_map(&self, original: &str) -> (r: String)
        ensures
            r@ == rename_spec(pairs_view(self.rename_services_operation_action_map@), original@),
    {
        let key = str_to_chars(original);
        match assoc_get(&self.rename_services_operation_action_map, &key) {
            Some(v) => v,
            None => original.to_owned(),
        }
    }

    /// Renames a service for the service reference.
    pub fn rename_service_service_reference(&self, original: &str) -> (r: String)
        ensures
            r@ == rename_spec(pairs_view(self.rename_services_service_reference@), original@),
    {
        let key = str_to_chars(original);
        match assoc_get(&self.rename_services_service_reference, &key) {
            Some(v) => v,
            None => original.to_owned(),
        }
    }

    /// Renames an operation: the table is keyed by
    /// `service:Operation`, a hit yields the target operation name, and
    /// a miss keeps the original operation name.
    pub fn rename_operation(&self, service: &str, original: &str) -> (r: String)
        ensures
            r@ == match assoc_lookup(
                rename_ops_view(self.rename_operations@),
                service@ + ":"@ + original@,
            ) {
                Some(v) => v,
                None => original@,
            },
    {
        let mut key = service.to_owned();
        key.append(":");
        key.append(original);
        let kv = str_to_chars(key.as_str());
        let ghost tv = rename_ops_view(self.rename_operations@);
        let mut k: usize = 0;
        proof {
            assert(tv.subrange(0, tv.len() as int) =~= tv);
        }
        while k < self.rename_operations.len()
            invariant
                k <= self.rename_operations@.len(),
                tv == rename_ops_view(self.rename_operations@),
                kv@ == service@ + ":"@ + original@,
                kv@ == key@,
                assoc_lookup(tv, kv@) == assoc_lookup(tv.subrange(k as int, tv.len() as int), kv@),
            decreases self.rename_operations@.len() - k,
        {
            proof {
                let tail = tv.subrange(k as int, tv.len() as int);
                assert(tail.len() > 0);
                assert(tail[0] == tv[k as int]);
                assert(tv[k as int] == (self.rename_operations@[k as int].0@,
                    self.rename_operations@[k as int].1.operation@));
                assert(tail.subrange(1, tail.len() as int) =~= tv.subrange(
                    k + 1,
                    tv.len() as int,
                ));
                if tail[0].0 == kv@ {
                    assert(assoc_lookup(tail, kv@) == Some(tail[0].1));
                } else {
                    assert(assoc_lookup(tail, kv@) == assoc_lookup(
                        tv.subrange(k + 1, tv.len() as int),
                        kv@,
                    ));
                }
            }
            if crate::text::str_eq(self.rename_operations[k].0.as_str(), key.as_str()) {
                return self.rename_operations[k].1.operation.clone();
            }
            k += 1;
        }
        proof {
            assert(tv.subrange(tv.len() as int, tv.len() as int) =~= Seq::<(
                Seq<char>,
                Seq<char>,
            )>::empty());
        }
        original.to_owned()
    }
}

} // verus!

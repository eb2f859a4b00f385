//! The MemWAL LSM write spec of a table: which shard field and shard
//! configuration a spec installs, and when installing or removing it is
//! refused.
use vstd::prelude::*;
use vstd::string::*;
use crate::error::Error;
use crate::text::{decimal, decimal_string};

verus! {

/// How future `merge_insert` calls of a table shard their writes.
#[derive(Debug)]
pub enum LsmWriteSpec {
    /// Rows are spread over `num_buckets` buckets by a hash of `column`.
    Bucket {
        column: String,
        num_buckets: u32,
        maintained_indexes: Vec<String>,
        writer_config_defaults: Vec<(String, String)>,
    },
    /// Rows are sharded by the value of `column`.
    Identity {
        column: String,
        maintained_indexes: Vec<String>,
        writer_config_defaults: Vec<(String, String)>,
    },
    /// All rows go to a single shard.
    Unsharded { maintained_indexes: Vec<String>, writer_config_defaults: Vec<(String, String)> },
}

/// The shard field stored in the MemWAL index metadata (spec id 0, no
/// source ids, no expression).
#[derive(Debug)]
pub struct ShardFieldPlan {
    pub field_id: String,
    pub transform: String,
    pub result_type: String,
    pub parameters: Vec<(String, String)>,
}

/// What installing an LSM write spec writes.
#[derive(Debug)]
pub struct LsmWritePlan {
    /// The single field of the shard spec.
    pub shard_field: ShardFieldPlan,
    /// The indexes that the MemWAL keeps up to date.
    pub maintained_indexes: Vec<String>,
    /// The number of shards, or `None` for the default shard configuration.
    pub num_shards: Option<u32>,
    /// Writer configuration defaults were given; they are not supported and
    /// are ignored (with a warning).
    pub ignored_writer_defaults: bool,
}

/// The message for a table that already has an LSM write spec.
pub open spec fn already_set_message() -> Seq<char> {
    "set_lsm_write_spec: an LSM write spec is already set on this table; mutation is not supported"@
}

/// The message for a table without an LSM write spec to remove.
pub open spec fn not_set_message() -> Seq<char> {
    "unset_lsm_write_spec: no LSM write spec is set on this table"@
}

/// `field` is the shard field `field_id` / `transform` / `result_type`
/// without parameters.
pub open spec fn is_plain_field(field: ShardFieldPlan, field_id: Seq<char>, transform: Seq<char>, result_type: Seq<char>) -> bool {
    &&& field.field_id@ == field_id
    &&& field.transform@ == transform
    &&& field.result_type@ == result_type
    &&& field.parameters@.len() == 0
}

/// `r` is what installing `spec` on a table writes, where `already_set` says
/// whether the table has an LSM write spec already.
pub open spec fn is_lsm_write_plan(r: Result<LsmWritePlan, Error>, spec: LsmWriteSpec, already_set: bool) -> bool {
    if already_set {
        r matches Err(Error::InvalidInput { message }) && message@ == already_set_message()
    } else {
        r matches Ok(plan) && match spec {
            LsmWriteSpec::Bucket { column, num_buckets, maintained_indexes, writer_config_defaults } => {
                &&& plan.shard_field.field_id@ == column@
                &&& plan.shard_field.transform@ == "bucket"@
                &&& plan.shard_field.result_type@ == "uint32"@
                &&& plan.shard_field.parameters@.len() == 1
                &&& plan.shard_field.parameters@[0].0@ == "num_buckets"@
                &&& plan.shard_field.parameters@[0].1@ == decimal(num_buckets as nat)
                &&& plan.maintained_indexes == maintained_indexes
                &&& plan.num_shards == Some(num_buckets)
                &&& plan.ignored_writer_defaults == (writer_config_defaults@.len() > 0)
            },
            LsmWriteSpec::Identity { column, maintained_indexes, writer_config_defaults } => {
                &&& is_plain_field(plan.shard_field, column@, "identity"@, "string"@)
                &&& plan.maintained_indexes == maintained_indexes
                &&& plan.num_shards is None
                &&& plan.ignored_writer_defaults == (writer_config_defaults@.len() > 0)
            },
            LsmWriteSpec::Unsharded { maintained_indexes, writer_config_defaults } => {
                &&& is_plain_field(plan.shard_field, Seq::empty(), "unsharded"@, Seq::empty())
                &&& plan.maintained_indexes == maintained_indexes
                &&& plan.num_shards == Some(1u32)
                &&& plan.ignored_writer_defaults == (writer_config_defaults@.len() > 0)
            },
        }
    }
}

/// What installing `spec` writes: the shard spec stored in the MemWAL index
/// metadata and the shard configuration. A table that has an LSM write spec
/// already (`already_set`) refuses another one: mutation is not supported.
pub fn lsm_write_plan(spec: LsmWriteSpec, already_set: bool) -> (r: Result<LsmWritePlan, Error>)
    ensures
        is_lsm_write_plan(r, spec, already_set),
{
    if already_set {
        let message = String::from_str(
            "set_lsm_write_spec: an LSM write spec is already set on this table; mutation is not supported",
        );
        return Err(Error::InvalidInput { message });
    }
    match spec {
        LsmWriteSpec::Bucket { column, num_buckets, maintained_indexes, writer_config_defaults } => {
            let mut parameters: Vec<(String, String)> = Vec::new();
            parameters.push((String::from_str("num_buckets"), decimal_string(num_buckets as u64)));
            let ignored = writer_config_defaults.len() > 0;
            Ok(LsmWritePlan {
                shard_field: ShardFieldPlan {
                    field_id: column,
                    transform: String::from_str("bucket"),
                    result_type: String::from_str("uint32"),
                    parameters,
                },
                maintained_indexes,
                num_shards: Some(num_buckets),
                ignored_writer_defaults: ignored,
            })
        },
        LsmWriteSpec::Identity { column, maintained_indexes, writer_config_defaults } => {
            let ignored = writer_config_defaults.len() > 0;
            Ok(LsmWritePlan {
                shard_field: ShardFieldPlan {
                    field_id: column,
                    transform: String::from_str("identity"),
                    result_type: String::from_str("string"),
                    parameters: Vec::new(),
                },
                maintained_indexes,
                num_shards: None,
                ignored_writer_defaults: ignored,
            })
        },
        LsmWriteSpec::Unsharded { maintained_indexes, writer_config_defaults } => {
            let ignored = writer_config_defaults.len() > 0;
            Ok(LsmWritePlan {
                shard_field: ShardFieldPlan {
                    field_id: String::new(),
                    transform: String::from_str("unsharded"),
                    result_type: String::new(),
                    parameters: Vec::new(),
                },
                maintained_indexes,
                num_shards: Some(1),
                ignored_writer_defaults: ignored,
            })
        },
    }
}

/// Removing the LSM write spec of a table is refused where it has none.
pub fn check_lsm_unset(is_set: bool) -> (r: Result<(), Error>)
    ensures
        is_set ==> r is Ok,
        !is_set ==> (r matches Err(Error::InvalidInput { message }) && message@ == not_set_message()),
{
    if is_set {
        Ok(())
    } else {
        Err(Error::InvalidInput {
            message: String::from_str("unset_lsm_write_spec: no LSM write spec is set on this table"),
        })
    }
}

} // verus!

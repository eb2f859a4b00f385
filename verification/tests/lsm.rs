use lancedb::error::Error;
use lancedb::lsm::{check_lsm_unset, lsm_write_plan, LsmWriteSpec};
use lancedb::text::decimal_string;

#[test]
fn bucket_spec_plan() {
    let spec = LsmWriteSpec::Bucket {
        column: "id".to_string(),
        num_buckets: 16,
        maintained_indexes: vec!["idx".to_string()],
        writer_config_defaults: vec![],
    };
    let plan = lsm_write_plan(spec, false).unwrap();
    assert_eq!(plan.shard_field.field_id, "id");
    assert_eq!(plan.shard_field.transform, "bucket");
    assert_eq!(plan.shard_field.result_type, "uint32");
    assert_eq!(plan.shard_field.parameters, vec![("num_buckets".to_string(), "16".to_string())]);
    assert_eq!(plan.num_shards, Some(16));
    assert_eq!(plan.maintained_indexes, vec!["idx".to_string()]);
    assert!(!plan.ignored_writer_defaults);
}

#[test]
fn identity_and_unsharded_plans() {
    let spec = LsmWriteSpec::Identity {
        column: "tenant".to_string(),
        maintained_indexes: vec![],
        writer_config_defaults: vec![("k".to_string(), "v".to_string())],
    };
    let plan = lsm_write_plan(spec, false).unwrap();
    assert_eq!(plan.shard_field.field_id, "tenant");
    assert_eq!(plan.shard_field.transform, "identity");
    assert_eq!(plan.shard_field.result_type, "string");
    assert!(plan.shard_field.parameters.is_empty());
    assert_eq!(plan.num_shards, None);
    assert!(plan.ignored_writer_defaults);

    let spec = LsmWriteSpec::Unsharded { maintained_indexes: vec![], writer_config_defaults: vec![] };
    let plan = lsm_write_plan(spec, false).unwrap();
    assert_eq!(plan.shard_field.field_id, "");
    assert_eq!(plan.shard_field.transform, "unsharded");
    assert_eq!(plan.shard_field.result_type, "");
    assert_eq!(plan.num_shards, Some(1));
}

#[test]
fn a_second_spec_is_refused() {
    let spec = LsmWriteSpec::Unsharded { maintained_indexes: vec![], writer_config_defaults: vec![] };
    match lsm_write_plan(spec, true) {
        Err(Error::InvalidInput { message }) => assert_eq!(
            message,
            "set_lsm_write_spec: an LSM write spec is already set on this table; mutation is not supported"
        ),
        other => panic!("unexpected {:?}", other.map(|p| p.num_shards)),
    }
    assert_eq!(check_lsm_unset(true), Ok(()));
    assert_eq!(
        check_lsm_unset(false),
        Err(Error::InvalidInput { message: "unset_lsm_write_spec: no LSM write spec is set on this table".to_string() })
    );
}

#[test]
fn decimal_strings() {
    for n in [0u64, 7, 10, 99, 100, 4096, u32::MAX as u64, u64::MAX] {
        assert_eq!(decimal_string(n), n.to_string());
    }
}

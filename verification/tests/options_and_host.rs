use workingcopy::hostcaps::{get_env, is_corp, is_lab, is_prod};
use workingcopy::sql_ext::{MysqlOptions, PoolConfig, ReadConnectionType, SharedConnectionPool};
use workingcopy::text::{ascii_string, push_decimal, push_signed_decimal};

#[test]
fn host_belongs_to_no_managed_environment() {
    assert_eq!(get_env(), 0);
    assert!(!is_prod());
    assert!(!is_corp());
    assert!(!is_lab());
}

#[test]
fn reads_go_to_replicas_by_default() {
    assert_eq!(ReadConnectionType::default(), ReadConnectionType::ReplicaOnly);
    assert_eq!(MysqlOptions::default().read_connection_type, ReadConnectionType::ReplicaOnly);
}

#[test]
fn there_is_no_per_key_limit() {
    assert_eq!(MysqlOptions::default().per_key_limit(), None);
    let options = MysqlOptions {
        pool: SharedConnectionPool::new(),
        pool_config: PoolConfig::new(),
        read_connection_type: ReadConnectionType::Master,
    };
    assert_eq!(options.per_key_limit(), None);
}

#[test]
fn connection_types_have_their_names() {
    let all = [
        (ReadConnectionType::Closest, "Closest"),
        (ReadConnectionType::ReplicaOnly, "ReplicaOnly"),
        (ReadConnectionType::Master, "Master"),
        (ReadConnectionType::ReplicaFirst, "ReplicaFirst"),
        (ReadConnectionType::ReadAfterWriteConsistency, "ReadAfterWriteConsistency"),
    ];
    for (kind, name) in all {
        assert_eq!(kind.name(), name);
        assert_eq!(format!("{:?}", kind), name);
    }
}

#[test]
fn options_debug_text() {
    assert_eq!(
        MysqlOptions::default().debug_text(),
        "MySQL pool with config PoolConfig, connection type: ReplicaOnly"
    );
    let options = MysqlOptions {
        pool: SharedConnectionPool::new(),
        pool_config: PoolConfig::new(),
        read_connection_type: ReadConnectionType::ReadAfterWriteConsistency,
    };
    assert_eq!(
        options.debug_text(),
        "MySQL pool with config PoolConfig, connection type: ReadAfterWriteConsistency"
    );
}

#[test]
fn decimal_forms() {
    for n in [0u64, 1, 9, 10, 11, 99, 100, 101, 65535, u64::MAX] {
        let mut out = b"n=".to_vec();
        push_decimal(&mut out, n);
        assert_eq!(ascii_string(out), format!("n={}", n));
    }
    for v in [0i64, -1, 1, -9, -10, 1234567890, i64::MAX, i64::MIN] {
        let mut out = Vec::new();
        push_signed_decimal(&mut out, v);
        assert_eq!(ascii_string(out), v.to_string());
    }
}

//! Options for connections to the SQL store.

use vstd::prelude::*;

verus! {

/// Which instance of a database a read goes to.
#[derive(Clone, Copy, Debug, PartialEq, Eq, Structural)]
pub enum ReadConnectionType {
    /// Master or replica, whichever is closest and available.
    Closest,
    /// Replicas only, even one in a remote region.
    ReplicaOnly,
    /// The master only.
    Master,
    /// The closest instance of the same region, a replica before the
    /// master.
    ReplicaFirst,
    /// A replica that has caught up with the caller's own writes.
    ReadAfterWriteConsistency,
}

impl Default for ReadConnectionType {
    /// Reads go to replicas unless something else is asked for.
    fn default() -> (kind: ReadConnectionType)
        ensures
            kind == ReadConnectionType::ReplicaOnly,
    {
        ReadConnectionType::ReplicaOnly
    }
}

impl ReadConnectionType {
    /// The name of the variant.
    pub open spec fn spec_name(self) -> Seq<char> {
        match self {
            ReadConnectionType::Closest => "Closest"@,
            ReadConnectionType::ReplicaOnly => "ReplicaOnly"@,
            ReadConnectionType::Master => "Master"@,
            ReadConnectionType::ReplicaFirst => "ReplicaFirst"@,
            ReadConnectionType::ReadAfterWriteConsistency => "ReadAfterWriteConsistency"@,
        }
    }

    /// The name of the variant.
    pub fn name(self) -> (name: &'static str)
        ensures
            name@ == self.spec_name(),
    {
        match self {
            ReadConnectionType::Closest => "Closest",
            ReadConnectionType::ReplicaOnly => "ReplicaOnly",
            ReadConnectionType::Master => "Master",
            ReadConnectionType::ReplicaFirst => "ReplicaFirst",
            ReadConnectionType::ReadAfterWriteConsistency => "ReadAfterWriteConsistency",
        }
    }
}

/// The connection pool that all MySQL connections of the process share.
/// This build has no MySQL client, so the pool holds nothing.
#[derive(Clone, Copy, Debug, PartialEq, Eq, Structural)]
pub struct SharedConnectionPool {}

impl SharedConnectionPool {
    /// The pool.
    pub fn new() -> SharedConnectionPool {
        SharedConnectionPool {  }
    }
}

/// The settings of the shared pool. This build has no MySQL client, so
/// there is nothing to set.
#[derive(Clone, Copy, Debug, PartialEq, Eq, Structural)]
pub struct PoolConfig {}

impl PoolConfig {
    /// The default settings.
    pub fn new() -> PoolConfig {
        PoolConfig {  }
    }
}

/// The configuration of the shared MySQL connection pool.
#[derive(Clone, Copy, Debug)]
pub struct MysqlOptions {
    /// The pool.
    pub pool: SharedConnectionPool,
    /// The settings that the pool is made with; read once, when the pool
    /// is made.
    pub pool_config: PoolConfig,
    /// Where reads go.
    pub read_connection_type: ReadConnectionType,
}

impl Default for MysqlOptions {
    fn default() -> (options: MysqlOptions)
        ensures
            options.read_connection_type == ReadConnectionType::ReplicaOnly,
    {
        MysqlOptions {
            pool: SharedConnectionPool::new(),
            pool_config: PoolConfig::new(),
            read_connection_type: ReadConnectionType::ReplicaOnly,
        }
    }
}

impl MysqlOptions {
    /// The limit on connections for one key of the pool. This build has no
    /// MySQL client and so no limit.
    pub fn per_key_limit(&self) -> (limit: Option<usize>)
        ensures
            limit is None,
    {
        None
    }

    /// What the debug form of the options reads.
    pub open spec fn debug_form(self) -> Seq<char> {
        "MySQL pool with config PoolConfig, connection type: "@
            + self.read_connection_type.spec_name()
    }

    /// The debug form of the options.
    pub fn debug_text(&self) -> (text: String)
        ensures
            text@ == self.debug_form(),
    {
        "MySQL pool with config PoolConfig, connection type: ".to_owned().concat(
            self.read_connection_type.name(),
        )
    }
}

} // verus!

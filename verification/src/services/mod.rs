//! The node's service layer: its configuration and errors, the checks on
//! objects and transactions it accepts, proof generation, and the reports
//! its services give.
pub mod proof_generator;
pub mod rpc;
pub mod transaction_service;
pub mod storage_service;
pub mod object_service;
pub mod units_service;

use vstd::prelude::*;
use crate::id::UnitsObjectId;
use crate::objects::{ObjectType, UnitsObject};
use crate::proofs::types::{storage_error_text, StorageError};
use crate::runtime::{runtime_error_text, RuntimeError};
use crate::slot::{SlotConfig, SlotInfo};
use crate::text::{decimal_chars, push_decimal, push_str};
use crate::transaction::Transaction;

verus! {

/// Errors of the node's services.
#[derive(Debug)]
pub enum ServiceError {
    Storage(StorageError),
    Runtime(RuntimeError),
    InvalidRequest { message: String },
    ObjectNotFound { object_id: String },
    TransactionFailed { reason: String },
    ServiceUnavailable { message: String },
}

impl ServiceError {
    /// An invalid request.
    pub fn invalid_request(message: String) -> (e: Self)
        ensures
            e matches ServiceError::InvalidRequest { message: m } && m@ == message@,
    {
        ServiceError::InvalidRequest { message }
    }

    /// A missing object.
    pub fn object_not_found(object_id: String) -> (e: Self)
        ensures
            e matches ServiceError::ObjectNotFound { object_id: m } && m@ == object_id@,
    {
        ServiceError::ObjectNotFound { object_id }
    }

    /// A failed transaction.
    pub fn transaction_failed(reason: String) -> (e: Self)
        ensures
            e matches ServiceError::TransactionFailed { reason: m } && m@ == reason@,
    {
        ServiceError::TransactionFailed { reason }
    }

    /// An unavailable service.
    pub fn service_unavailable(message: String) -> (e: Self)
        ensures
            e matches ServiceError::ServiceUnavailable { message: m } && m@ == message@,
    {
        ServiceError::ServiceUnavailable { message }
    }
}

/// The text of a service error.
pub open spec fn service_error_text(e: ServiceError) -> Seq<char> {
    match e {
        ServiceError::Storage(s) => "Storage error: "@ + storage_error_text(s),
        ServiceError::Runtime(r) => "Runtime error: "@ + runtime_error_text(r),
        ServiceError::InvalidRequest { message } => "Invalid request: "@ + message@,
        ServiceError::ObjectNotFound { object_id } => "Object not found: "@ + object_id@,
        ServiceError::TransactionFailed { reason } => "Transaction failed: "@ + reason@,
        ServiceError::ServiceUnavailable { message } => "Service unavailable: "@ + message@,
    }
}

impl ServiceError {
    /// The text of this error.
    pub fn message(&self) -> (s: String)
        ensures
            s@ == service_error_text(*self),
    {
        let (prefix, rest) = match self {
            ServiceError::Storage(e) => ("Storage error: ", e.message()),
            ServiceError::Runtime(e) => ("Runtime error: ", e.message()),
            ServiceError::InvalidRequest { message } => ("Invalid request: ", message.clone()),
            ServiceError::ObjectNotFound { object_id } => ("Object not found: ", object_id.clone()),
            ServiceError::TransactionFailed { reason } => ("Transaction failed: ", reason.clone()),
            ServiceError::ServiceUnavailable { message } => ("Service unavailable: ", message.clone()),
        };
        let mut s = prefix.to_owned();
        push_str(&mut s, rest.as_str());
        s
    }
}

/// An invalid-request error with message `m`.
pub open spec fn invalid_request_with(r: Result<(), ServiceError>, m: Seq<char>) -> bool {
    r matches Err(ServiceError::InvalidRequest { message }) && message@ == m
}

/// Storage configuration.
#[derive(Debug, Clone)]
pub struct StorageConfig {
    /// Storage type: "memory" or "file"
    pub storage_type: String,
    /// Data directory for file-based storage
    pub data_dir: Option<String>,
    /// Maximum object size in bytes
    pub max_object_size: usize,
}

/// Runtime configuration.
#[derive(Debug, Clone)]
pub struct RuntimeConfig {
    /// Maximum VM execution time in milliseconds
    pub max_execution_time_ms: u64,
    /// Maximum VM memory usage in bytes
    pub max_memory_bytes: usize,
    /// Maximum VM instruction count
    pub max_instructions: u64,
}

/// Server configuration.
#[derive(Debug, Clone)]
pub struct ServerConfig {
    /// Maximum concurrent connections
    pub max_connections: u32,
    /// Request timeout in seconds
    pub request_timeout_secs: u64,
    /// Enable CORS for web clients
    pub enable_cors: bool,
}

/// Node configuration.
#[derive(Debug, Clone)]
pub struct Config {
    pub storage: StorageConfig,
    pub runtime: RuntimeConfig,
    pub server: ServerConfig,
}

impl Default for Config {
    /// In-memory storage of objects up to 10 MiB; VM runs of at most 5 s,
    /// 64 MiB and a million instructions; up to 1000 connections, 30 s
    /// timeouts, CORS on.
    fn default() -> (c: Self)
        ensures
            c.storage.storage_type@ == "memory"@,
            c.storage.data_dir is None,
            c.storage.max_object_size == 10 * 1024 * 1024,
            c.runtime.max_execution_time_ms == 5000,
            c.runtime.max_memory_bytes == 64 * 1024 * 1024,
            c.runtime.max_instructions == 1_000_000,
            c.server.max_connections == 1000,
            c.server.request_timeout_secs == 30,
            c.server.enable_cors,
    {
        Config {
            storage: StorageConfig {
                storage_type: "memory".to_owned(),
                data_dir: None,
                max_object_size: 10 * 1024 * 1024,
            },
            runtime: RuntimeConfig {
                max_execution_time_ms: 5000,
                max_memory_bytes: 64 * 1024 * 1024,
                max_instructions: 1_000_000,
            },
            server: ServerConfig { max_connections: 1000, request_timeout_secs: 30, enable_cors: true },
        }
    }
}

/// The storage kinds a node can be configured with.
pub open spec fn storage_type_supported(t: Seq<char>) -> bool {
    t == "memory"@ || t == "file"@
}

/// Check the configured storage kind: "memory" or "file"; any other is
/// refused, naming it.
pub fn check_storage_type(config: &Config) -> (r: Result<(), String>)
    ensures
        storage_type_supported(config.storage.storage_type@) ==> r is Ok,
        !storage_type_supported(config.storage.storage_type@) ==> (r matches Err(m) && m@
            == "Unsupported storage type: "@ + config.storage.storage_type@),
{
    let memory = "memory".to_owned();
    let file = "file".to_owned();
    if config.storage.storage_type == memory || config.storage.storage_type == file {
        return Ok(());
    }
    let mut m = "Unsupported storage type: ".to_owned();
    push_str(&mut m, config.storage.storage_type.as_str());
    Err(m)
}

/// Options for creating the services.
#[derive(Debug, Clone)]
pub struct ServiceOptions {
    /// Object cache size
    pub cache_size: usize,
    /// Cache TTL in seconds
    pub cache_ttl_secs: u64,
    /// Transaction pool size
    pub transaction_pool_size: usize,
    /// Maximum object size
    pub max_object_size: usize,
    /// Maximum program size
    pub max_program_size: usize,
    /// Slot configuration
    pub slot_config: SlotConfig,
}

impl ServiceOptions {
    /// Options from a configuration: a cache of 1000 objects kept 300 s, a
    /// pool as large as the connection limit, the configured object size, the
    /// VM memory limit as program size, default slots.
    pub fn from_config(config: &Config) -> (o: Self)
        ensures
            o.cache_size == 1000,
            o.cache_ttl_secs == 300,
            o.transaction_pool_size == config.server.max_connections as usize,
            o.max_object_size == config.storage.max_object_size,
            o.max_program_size == config.runtime.max_memory_bytes,
            o.slot_config.slot_duration_ms == 1000,
            o.slot_config.max_transactions_per_slot == 1000,
            o.slot_config.auto_advance,
            o.slot_config.grace_period_ms == 100,
    {
        ServiceOptions {
            cache_size: 1000,
            cache_ttl_secs: 300,
            transaction_pool_size: config.server.max_connections as usize,
            max_object_size: config.storage.max_object_size,
            max_program_size: config.runtime.max_memory_bytes,
            slot_config: SlotConfig::default(),
        }
    }

    /// The options the services are created with from a configuration: a
    /// cache of one entry per KiB of the largest object, kept 300 s, a pool as
    /// large as the connection limit, one-second slots of at most 1000
    /// transactions advancing on their own with a 100 ms grace period, the
    /// configured object size and the VM memory limit as program size.
    pub fn create_services_options(config: &Config) -> (o: Self)
        ensures
            o.cache_size == config.storage.max_object_size / 1024,
            o.cache_ttl_secs == 300,
            o.transaction_pool_size == config.server.max_connections as usize,
            o.max_object_size == config.storage.max_object_size,
            o.max_program_size == config.runtime.max_memory_bytes,
            o.slot_config.slot_duration_ms == 1000,
            o.slot_config.max_transactions_per_slot == 1000,
            o.slot_config.auto_advance,
            o.slot_config.grace_period_ms == 100,
    {
        ServiceOptions {
            cache_size: config.storage.max_object_size / 1024,
            cache_ttl_secs: 300,
            transaction_pool_size: config.server.max_connections as usize,
            max_object_size: config.storage.max_object_size,
            max_program_size: config.runtime.max_memory_bytes,
            slot_config: SlotConfig {
                slot_duration_ms: 1000,
                max_transactions_per_slot: 1000,
                auto_advance: true,
                grace_period_ms: 100,
            },
        }
    }

    /// Small options for tests: 100 cached objects for 60 s, a pool of 10,
    /// 1 MiB objects, 512 KiB programs, 100 ms slots of 10 transactions that
    /// do not advance on their own, a 10 ms grace period.
    pub fn test_defaults() -> (o: Self)
        ensures
            o.cache_size == 100,
            o.cache_ttl_secs == 60,
            o.transaction_pool_size == 10,
            o.max_object_size == 1024 * 1024,
            o.max_program_size == 512 * 1024,
            o.slot_config.slot_duration_ms == 100,
            o.slot_config.max_transactions_per_slot == 10,
            !o.slot_config.auto_advance,
            o.slot_config.grace_period_ms == 10,
    {
        ServiceOptions {
            cache_size: 100,
            cache_ttl_secs: 60,
            transaction_pool_size: 10,
            max_object_size: 1024 * 1024,
            max_program_size: 512 * 1024,
            slot_config: SlotConfig {
                slot_duration_ms: 100,
                max_transactions_per_slot: 10,
                auto_advance: false,
                grace_period_ms: 10,
            },
        }
    }
}

/// Health of the services.
#[derive(Debug, Clone, Copy, PartialEq, Eq, Structural)]
pub enum ServiceStatus {
    Healthy,
    Degraded,
    Unhealthy,
}

/// Health report of the services.
#[derive(Debug, Clone)]
pub struct HealthReport {
    pub status: ServiceStatus,
    pub current_slot: u64,
    pub pending_transactions: usize,
    pub cache_size: usize,
    pub latest_proven_slot: u64,
}

/// Health of the node service.
#[derive(Debug, Clone)]
pub struct HealthStatus {
    pub status: String,
    pub slot: u64,
    pub object_count: u64,
    pub pending_transactions: u64,
}

/// Health report of the minimal services.
#[derive(Debug, Clone)]
pub struct MinimalHealthReport {
    pub status: String,
    pub current_slot: u64,
}

/// Health report of the simple services.
#[derive(Debug, Clone)]
pub struct SimpleHealthReport {
    pub status: String,
}

/// Object cache statistics.
#[derive(Debug, Clone)]
pub struct CacheStats {
    pub size: usize,
    pub max_size: usize,
    pub ttl_secs: u64,
}

/// Storage statistics.
#[derive(Debug, Clone)]
pub struct StorageStats {
    pub cache_stats: CacheStats,
    pub latest_slot: u64,
    pub object_count: u64,
}

/// Report of a storage maintenance run.
#[derive(Debug, Clone)]
pub struct MaintenanceReport {
    pub duration_ms: u64,
    pub cache_cleared: bool,
    pub proofs_cleaned: u64,
    pub objects_compacted: u64,
}

/// Proof statistics.
#[derive(Debug, Clone)]
pub struct ProofStats {
    pub latest_proven_slot: u64,
    pub merkle_cache_size: usize,
}

/// Transaction pool statistics.
#[derive(Debug, Clone)]
pub struct PoolStats {
    pub pending_count: usize,
    pub receipt_count: usize,
    pub max_pool_size: usize,
}

/// Object statistics.
#[derive(Debug, Clone)]
pub struct ObjectStats {
    pub total_objects: u64,
    pub cache_size: usize,
    pub cache_max_size: usize,
    pub max_object_size: usize,
    pub max_program_size: usize,
}

/// Version of the node.
#[derive(Debug, Clone)]
pub struct VersionInfo {
    pub version: String,
    pub commit: String,
    pub build_time: String,
}

impl HealthReport {
    /// The health of the services from their statistics: healthy, at the
    /// slot's number, with the pool's waiting transactions, the cache's size
    /// and the latest proven slot.
    pub fn from_stats(slot_info: &SlotInfo, storage: &StorageStats, proofs: &ProofStats, pool: &PoolStats) -> (h: Self)
        ensures
            h.status == ServiceStatus::Healthy,
            h.current_slot == slot_info.current_slot,
            h.pending_transactions == pool.pending_count,
            h.cache_size == storage.cache_stats.size,
            h.latest_proven_slot == proofs.latest_proven_slot,
    {
        HealthReport {
            status: ServiceStatus::Healthy,
            current_slot: slot_info.current_slot,
            pending_transactions: pool.pending_count,
            cache_size: storage.cache_stats.size,
            latest_proven_slot: proofs.latest_proven_slot,
        }
    }
}

impl StorageStats {
    /// Storage statistics around the cache's: no slot or object count is
    /// kept, so both are zero.
    pub fn from_cache(cache_stats: CacheStats) -> (s: Self)
        ensures
            s.cache_stats == cache_stats,
            s.latest_slot == 0,
            s.object_count == 0,
    {
        StorageStats { cache_stats, latest_slot: 0, object_count: 0 }
    }
}

impl MaintenanceReport {
    /// The report of a maintenance run that took `duration_ms` and cleared
    /// the cache, and cleaned and compacted nothing else.
    pub fn cache_cleared(duration_ms: u64) -> (r: Self)
        ensures
            r.duration_ms == duration_ms,
            r.cache_cleared,
            r.proofs_cleaned == 0,
            r.objects_compacted == 0,
    {
        MaintenanceReport { duration_ms, cache_cleared: true, proofs_cleaned: 0, objects_compacted: 0 }
    }
}

impl ProofStats {
    /// Proof statistics: no proven slot is tracked, so it is zero; the
    /// number of cached Merkle roots.
    pub fn from_cache_size(merkle_cache_size: usize) -> (s: Self)
        ensures
            s.latest_proven_slot == 0,
            s.merkle_cache_size == merkle_cache_size,
    {
        ProofStats { latest_proven_slot: 0, merkle_cache_size }
    }
}

impl ObjectStats {
    /// Object statistics from the cache's and the validator's limits; no
    /// object count is kept, so it is zero.
    pub fn from_cache(cache: &CacheStats, validator: &ObjectValidator) -> (s: Self)
        ensures
            s.total_objects == 0,
            s.cache_size == cache.size,
            s.cache_max_size == cache.max_size,
            s.max_object_size == validator.limits().0,
            s.max_program_size == validator.limits().1,
    {
        ObjectStats {
            total_objects: 0,
            cache_size: cache.size,
            cache_max_size: cache.max_size,
            max_object_size: validator.max_data_size,
            max_program_size: validator.max_program_size,
        }
    }
}

impl MinimalHealthReport {
    /// The minimal services are healthy, at the slot counter's slot.
    pub fn healthy_at(current_slot: u64) -> (r: Self)
        ensures
            r.status@ == "healthy"@,
            r.current_slot == current_slot,
    {
        MinimalHealthReport { status: "healthy".to_owned(), current_slot }
    }
}

impl SimpleHealthReport {
    /// The simple services are healthy.
    pub fn healthy() -> (r: Self)
        ensures
            r.status@ == "healthy"@,
    {
        SimpleHealthReport { status: "healthy".to_owned() }
    }
}

/// A slot counter that only moves forward.
pub struct MinimalSlotService {
    current_slot: u64,
}

impl MinimalSlotService {
    /// A counter at slot zero.
    pub fn new() -> (s: Self)
        ensures
            s.slot() == 0,
    {
        MinimalSlotService { current_slot: 0 }
    }

    /// The current slot.
    pub closed spec fn slot(&self) -> u64 {
        self.current_slot
    }

    /// The current slot.
    pub fn current_slot(&self) -> (s: u64)
        ensures
            s == self.slot(),
    {
        self.current_slot
    }

    /// Move to the next slot and return it.
    pub fn advance_slot(&mut self) -> (r: Result<u64, ServiceError>)
        requires
            old(self).slot() < u64::MAX,
        ensures
            final(self).slot() == old(self).slot() + 1,
            r matches Ok(s) && s == final(self).slot(),
    {
        self.current_slot = self.current_slot + 1;
        Ok(self.current_slot)
    }
}

/// A message made of `a`, a number, `b` and another number.
pub(crate) fn two_number_message(a: &str, x: u64, b: &str, y: u64) -> (s: String)
    ensures
        s@ == a@ + decimal_chars(x as nat) + b@ + decimal_chars(y as nat),
{
    let mut s = a.to_owned();
    push_decimal(&mut s, x);
    push_str(&mut s, b);
    push_decimal(&mut s, y);
    s
}

/// Checks objects against size limits before they are stored.
pub struct ObjectValidator {
    /// Maximum object data size in bytes
    max_data_size: usize,
    /// Maximum controller program size
    max_program_size: usize,
}

/// Why an object breaks these limits, if it does: oversized data, an
/// oversized program, or an object that controls itself.
pub open spec fn validation_error(max_data: usize, max_program: usize, o: UnitsObject) -> Option<Seq<char>> {
    if o.data@.len() > max_data {
        Some(
            "Object data size "@ + decimal_chars(o.data@.len()) + " exceeds maximum "@ + decimal_chars(
                max_data as nat,
            ),
        )
    } else if o.object_type is Executable && o.data@.len() > max_program {
        Some(
            "Program size "@ + decimal_chars(o.data@.len()) + " exceeds maximum "@ + decimal_chars(
                max_program as nat,
            ),
        )
    } else if o.controller_id == o.id {
        Some("Object cannot control itself"@)
    } else {
        None
    }
}

/// What validating an object with these limits answers: an invalid request
/// saying why it breaks them, or success.
pub open spec fn validation_outcome(max_data: usize, max_program: usize, o: UnitsObject, r: Result<(), ServiceError>) -> bool {
    match validation_error(max_data, max_program, o) {
        Some(m) => invalid_request_with(r, m),
        None => r is Ok,
    }
}

impl ObjectValidator {
    /// A validator with these limits.
    pub fn new(max_data_size: usize, max_program_size: usize) -> (v: Self)
        ensures
            v.limits() == (max_data_size, max_program_size),
    {
        ObjectValidator { max_data_size, max_program_size }
    }

    /// The data and program size limits.
    pub closed spec fn limits(&self) -> (usize, usize) {
        (self.max_data_size, self.max_program_size)
    }

    /// Validate a program object: its size, and that it names its VM type.
    fn validate_program(&self, object: &UnitsObject) -> (r: Result<(), ServiceError>)
        requires
            object.object_type is Executable,
        ensures
            object.data@.len() > self.max_program_size ==> invalid_request_with(
                r,
                "Program size "@ + decimal_chars(object.data@.len()) + " exceeds maximum "@ + decimal_chars(
                    self.max_program_size as nat,
                ),
            ),
            object.data@.len() <= self.max_program_size ==> r is Ok,
    {
        if object.data.len() > self.max_program_size {
            return Err(
                ServiceError::invalid_request(
                    two_number_message(
                        "Program size ",
                        object.data.len() as u64,
                        " exceeds maximum ",
                        self.max_program_size as u64,
                    ),
                ),
            );
        }
        if object.vm_type().is_none() {
            return Err(ServiceError::invalid_request("Program object must specify VM type".to_owned()));
        }
        Ok(())
    }

    /// Validate an object.
    pub fn validate(&self, object: &UnitsObject) -> (r: Result<(), ServiceError>)
        ensures
            validation_outcome(self.limits().0, self.limits().1, *object, r),
    {
        if object.data.len() > self.max_data_size {
            return Err(
                ServiceError::invalid_request(
                    two_number_message(
                        "Object data size ",
                        object.data.len() as u64,
                        " exceeds maximum ",
                        self.max_data_size as u64,
                    ),
                ),
            );
        }
        match object.object_type {
            ObjectType::Executable(_) => {
                match self.validate_program(object) {
                    Ok(_) => {},
                    Err(e) => {
                        return Err(e);
                    },
                }
            },
            ObjectType::Data => {},
        }
        if object.controller_id == object.id {
            return Err(ServiceError::invalid_request("Object cannot control itself".to_owned()));
        }
        Ok(())
    }
}

/// An instruction with neither target objects nor parameters.
pub open spec fn empty_instruction(t: Transaction, i: int) -> bool {
    t.instructions@[i].target_objects@.len() == 0 && t.instructions@[i].params@.len() == 0
}

/// A transaction that may be submitted: it has instructions, and each has
/// target objects or parameters.
pub open spec fn transaction_valid(t: Transaction) -> bool {
    &&& t.instructions@.len() > 0
    &&& forall|i: int| 0 <= i < t.instructions@.len() ==> !empty_instruction(t, i)
}

/// `e` is the error a transaction is refused with: it has no instructions, or
/// the first instruction with neither target objects nor parameters is named.
pub open spec fn rejected_with(t: Transaction, e: ServiceError) -> bool {
    if t.instructions@.len() == 0 {
        e matches ServiceError::InvalidRequest { message } && message@ == "Transaction has no instructions"@
    } else {
        exists|i: int|
            0 <= i < t.instructions@.len() && empty_instruction(t, i) && (forall|j: int|
                0 <= j < i ==> !empty_instruction(t, j)) && (e matches ServiceError::InvalidRequest {
                message,
            } && message@ == "Instruction "@ + decimal_chars(i as nat) + " has no inputs or data"@)
    }
}

/// Check a transaction before it is submitted: it must have instructions,
/// and each must have target objects or parameters; the first that has
/// neither is named in the error.
pub fn validate_transaction(transaction: &Transaction) -> (r: Result<(), ServiceError>)
    ensures
        match r {
            Ok(_) => transaction_valid(*transaction),
            Err(e) => !transaction_valid(*transaction) && rejected_with(*transaction, e),
        },
{
    if transaction.instructions.len() == 0 {
        return Err(ServiceError::invalid_request("Transaction has no instructions".to_owned()));
    }
    let mut i: usize = 0;
    while i < transaction.instructions.len()
        invariant
            i <= transaction.instructions@.len(),
            forall|j: int| 0 <= j < i ==> !empty_instruction(*transaction, j),
        decreases transaction.instructions@.len() - i,
    {
        let ins = &transaction.instructions[i];
        if ins.target_objects.len() == 0 && ins.params.len() == 0 {
            let message = crate::text::message_with_number("Instruction ", i as u64, " has no inputs or data");
            let r: Result<(), ServiceError> = Err(ServiceError::invalid_request(message));
            assert(empty_instruction(*transaction, i as int));
            return r;
        }
        i = i + 1;
    }
    Ok(())
}

} // verus!

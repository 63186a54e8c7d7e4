use vstd::prelude::*;

verus! {

/// The ledger's table: one row per dispensation attempt.
pub const CREATE_TRANSFERS: &'static str = "CREATE TABLE IF NOT EXISTS transfers (
            id INTEGER PRIMARY KEY,
            address TEXT NOT NULL,
            amount INTEGER NOT NULL,
            timestamp INTEGER NOT NULL,
            settlement_ref TEXT NOT NULL
        )";

/// Index for the per-address queries.
pub const INDEX_ADDRESS: &'static str =
    "CREATE INDEX IF NOT EXISTS idx_transfers_address ON transfers (address)";

/// Index for the time-range queries.
pub const INDEX_TIMESTAMP: &'static str =
    "CREATE INDEX IF NOT EXISTS idx_transfers_timestamp ON transfers (timestamp)";

/// Composite index for the eligibility count and the expiry sweep.
pub const INDEX_ADDRESS_TIMESTAMP: &'static str =
    "CREATE INDEX IF NOT EXISTS idx_transfers_address_timestamp ON transfers (address, timestamp)";

/// Appends a provisional record: address, amount, timestamp, settlement reference.
pub const INSERT_TRANSFER: &'static str =
    "INSERT INTO transfers (address, amount, timestamp, settlement_ref) VALUES (?1, ?2, ?3, ?4)";

/// Attaches a settlement reference (?2) to the last record of an address (?1)
/// stamped with a timestamp (?3).
pub const ATTACH_SETTLEMENT: &'static str =
    "UPDATE transfers SET settlement_ref = ?2 WHERE id = (SELECT MAX(id) FROM transfers WHERE address = ?1 AND timestamp = ?3)";

/// Counts the records of an address (?1) stamped after a bound (?2).
pub const COUNT_RECENT: &'static str =
    "SELECT COUNT(*) FROM transfers WHERE address = ?1 AND timestamp > ?2";

/// Removes the records of an address (?1) stamped before a bound (?2).
pub const DELETE_EXPIRED: &'static str =
    "DELETE FROM transfers WHERE address = ?1 AND timestamp < ?2";

/// The statements that bring a store up to the ledger's schema, in the order to
/// run them: the table, then its three indexes. Each may be run again at no
/// effect.
pub fn init_db() -> (r: Vec<&'static str>)
    ensures
        r@ == seq![CREATE_TRANSFERS, INDEX_ADDRESS, INDEX_TIMESTAMP, INDEX_ADDRESS_TIMESTAMP],
{
    let mut r: Vec<&'static str> = Vec::new();
    r.push(CREATE_TRANSFERS);
    r.push(INDEX_ADDRESS);
    r.push(INDEX_TIMESTAMP);
    r.push(INDEX_ADDRESS_TIMESTAMP);
    assert(r@ =~= seq![CREATE_TRANSFERS, INDEX_ADDRESS, INDEX_TIMESTAMP, INDEX_ADDRESS_TIMESTAMP]);
    r
}

} // verus!

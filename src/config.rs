use vstd::prelude::*;

verus! {

/// Cooldown, in minutes, used when the configuration names none.
pub const DEFAULT_COOLDOWN_MINUTES: u64 = 120;

/// The amount sent on chain with every dispensation, in the chain's smallest unit.
pub const FAUCET_AMOUNT: u128 = 20_000_000_000;

/// The amount the ledger records for every dispensation: `FAUCET_AMOUNT`
/// counted in units of ten billion.
pub const RECORDED_AMOUNT: u64 = 2;

/// Settings that every request handler reads; never changed after startup.
#[derive(Clone, Debug)]
pub struct ServerConfig {
    pub rpc_url: String,
    pub debug: bool,
    pub timeout: Option<u64>,
}

impl ServerConfig {
    pub fn new(rpc_url: String, debug: bool, timeout: Option<u64>) -> (r: Self)
        ensures
            r.rpc_url@ == rpc_url@,
            r.debug == debug,
            r.timeout == timeout,
    {
        ServerConfig { rpc_url, debug, timeout }
    }

    /// The cooldown in minutes that this configuration asks for.
    pub fn cooldown_minutes(&self) -> (r: u64)
        ensures
            r == cooldown_of(self.timeout),
    {
        effective_cooldown(self.timeout)
    }
}

/// The cooldown in minutes for a configured value, falling back to the default.
pub open spec fn cooldown_of(timeout: Option<u64>) -> u64 {
    match timeout {
        Some(m) => m,
        None => DEFAULT_COOLDOWN_MINUTES,
    }
}

pub fn effective_cooldown(timeout: Option<u64>) -> (r: u64)
    ensures
        r == cooldown_of(timeout),
{
    match timeout {
        Some(m) => m,
        None => DEFAULT_COOLDOWN_MINUTES,
    }
}

/// The start of the cooldown window: `now` less the cooldown in seconds.
pub open spec fn window_start_of(now: int, cooldown_minutes: int) -> int {
    now - cooldown_minutes * 60
}

/// Computes the start of the cooldown window. The result may lie before the
/// range of `i64`, so it is held in an `i128`.
pub fn window_start(now: i64, cooldown_minutes: u64) -> (r: i128)
    ensures
        r == window_start_of(now as int, cooldown_minutes as int),
{
    assert(cooldown_minutes * 60 <= u64::MAX as int * 60) by (nonlinear_arith);
    (now as i128) - (cooldown_minutes as i128) * 60
}

} // verus!

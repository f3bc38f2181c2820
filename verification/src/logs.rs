//! The records that describe what happened to a reserve, an obligation or a
//! price source. The engine builds them; transporting them is left to the caller.

use vstd::prelude::*;
use crate::address::Address;
use crate::decimal::Decimal;
use crate::error::LendingError;
use crate::format::fixed_point_text;
use crate::obligation::Obligation;
use crate::oracle::OraclePrice;
use crate::reserve::Reserve;

verus! {

/// The kind of a record.
#[derive(Clone, Copy, Debug, PartialEq, Eq, Structural)]
pub enum LogEventType {
    /// The state of an obligation after a refresh.
    ObligationStateUpdate,
    /// The version of the engine.
    ProgramVersion,
    /// The primary price source could not be used.
    PythError,
    /// A price of the primary source.
    PythOraclePriceUpdate,
    /// The state of a reserve after a refresh.
    ReserveStateUpdate,
    /// The secondary price source could not be used.
    SwitchboardError,
    /// A price of the secondary source.
    SwitchboardV1OraclePriceUpdate,
}

impl LogEventType {
    /// The name of the kind, as it is written in a record.
    pub open spec fn spec_name(self) -> Seq<char> {
        match self {
            LogEventType::ObligationStateUpdate => "ObligationStateUpdate"@,
            LogEventType::ProgramVersion => "ProgramVersion"@,
            LogEventType::PythError => "PythError"@,
            LogEventType::PythOraclePriceUpdate => "PythOraclePriceUpdate"@,
            LogEventType::ReserveStateUpdate => "ReserveStateUpdate"@,
            LogEventType::SwitchboardError => "SwitchboardError"@,
            LogEventType::SwitchboardV1OraclePriceUpdate => "SwitchboardV1OraclePriceUpdate"@,
        }
    }

    /// The name of the kind.
    pub fn to_string(&self) -> (r: String)
        ensures
            r@ == self.spec_name(),
    {
        match self {
            LogEventType::ObligationStateUpdate => "ObligationStateUpdate".to_owned(),
            LogEventType::ProgramVersion => "ProgramVersion".to_owned(),
            LogEventType::PythError => "PythError".to_owned(),
            LogEventType::PythOraclePriceUpdate => "PythOraclePriceUpdate".to_owned(),
            LogEventType::ReserveStateUpdate => "ReserveStateUpdate".to_owned(),
            LogEventType::SwitchboardError => "SwitchboardError".to_owned(),
            LogEventType::SwitchboardV1OraclePriceUpdate => "SwitchboardV1OraclePriceUpdate".to_owned(),
        }
    }
}

/// A price that the primary source published.
#[derive(Clone, Copy, Debug)]
pub struct PythOraclePriceUpdate {
    /// Always `PythOraclePriceUpdate`.
    pub event_type: LogEventType,
    /// The address of the source.
    pub oracle_pubkey: Address,
    /// The price.
    pub price: Decimal,
    /// The confidence that the source gave with it.
    pub confidence: u64,
    /// The slot in which it was published.
    pub published_slot: u64,
}

impl PythOraclePriceUpdate {
    /// The record of `observation`, made by the source at `oracle_pubkey`.
    pub fn new(oracle_pubkey: Address, observation: &OraclePrice) -> (r: PythOraclePriceUpdate)
        ensures
            r.event_type == LogEventType::PythOraclePriceUpdate,
            r.oracle_pubkey == oracle_pubkey,
            r.price == observation.price,
            r.confidence == observation.confidence,
            r.published_slot == observation.published_slot,
    {
        PythOraclePriceUpdate {
            event_type: LogEventType::PythOraclePriceUpdate,
            oracle_pubkey,
            price: observation.price,
            confidence: observation.confidence,
            published_slot: observation.published_slot,
        }
    }
}

/// A failure of the primary source.
#[derive(Clone, Debug)]
pub struct PythError {
    /// Always `PythError`.
    pub event_type: LogEventType,
    /// The address of the source.
    pub oracle_pubkey: Address,
    /// What went wrong.
    pub error_message: String,
}

impl PythError {
    /// The record of a failure of the source at `oracle_pubkey`.
    pub fn new(oracle_pubkey: Address, error_message: String) -> (r: PythError)
        ensures
            r.event_type == LogEventType::PythError,
            r.oracle_pubkey == oracle_pubkey,
            r.error_message == error_message,
    {
        PythError { event_type: LogEventType::PythError, oracle_pubkey, error_message }
    }
}

/// A price that the secondary source published.
#[derive(Clone, Copy, Debug)]
pub struct SwitchboardV1OraclePriceUpdate {
    /// Always `SwitchboardV1OraclePriceUpdate`.
    pub event_type: LogEventType,
    /// The address of the source.
    pub oracle_pubkey: Address,
    /// The price.
    pub price: Decimal,
    /// The slot in which it was published.
    pub published_slot: u64,
}

impl SwitchboardV1OraclePriceUpdate {
    /// The record of `observation`, made by the source at `oracle_pubkey`.
    pub fn new(oracle_pubkey: Address, observation: &OraclePrice) -> (r:
        SwitchboardV1OraclePriceUpdate)
        ensures
            r.event_type == LogEventType::SwitchboardV1OraclePriceUpdate,
            r.oracle_pubkey == oracle_pubkey,
            r.price == observation.price,
            r.published_slot == observation.published_slot,
    {
        SwitchboardV1OraclePriceUpdate {
            event_type: LogEventType::SwitchboardV1OraclePriceUpdate,
            oracle_pubkey,
            price: observation.price,
            published_slot: observation.published_slot,
        }
    }
}

/// A failure of the secondary source.
#[derive(Clone, Debug)]
pub struct SwitchboardError {
    /// Always `SwitchboardError`.
    pub event_type: LogEventType,
    /// The address of the source.
    pub oracle_pubkey: Address,
    /// What went wrong.
    pub error_message: String,
}

impl SwitchboardError {
    /// The record of a failure of the source at `oracle_pubkey`.
    pub fn new(oracle_pubkey: Address, error_message: String) -> (r: SwitchboardError)
        ensures
            r.event_type == LogEventType::SwitchboardError,
            r.oracle_pubkey == oracle_pubkey,
            r.error_message == error_message,
    {
        SwitchboardError { event_type: LogEventType::SwitchboardError, oracle_pubkey, error_message }
    }
}

/// The version of the engine.
#[derive(Clone, Copy, Debug, PartialEq, Eq, Structural)]
pub struct ProgramVersion {
    /// Always `ProgramVersion`.
    pub event_type: LogEventType,
    /// The version.
    pub version: u8,
}

impl ProgramVersion {
    /// The record of `version`.
    pub fn new(version: u8) -> (r: ProgramVersion)
        ensures
            r == (ProgramVersion { event_type: LogEventType::ProgramVersion, version }),
    {
        ProgramVersion { event_type: LogEventType::ProgramVersion, version }
    }
}

/// The state of a reserve.
#[derive(Clone, Debug)]
pub struct ReserveStateUpdate {
    /// Always `ReserveStateUpdate`.
    pub event_type: LogEventType,
    /// Liquidity in the pool.
    pub available_amount: u64,
    /// Liquidity lent out.
    pub borrowed_amount_wads: Decimal,
    /// The cumulative borrow rate.
    pub cumulative_borrow_rate_wads: Decimal,
    /// Collateral tokens in circulation.
    pub collateral_mint_total_supply: u64,
    /// The liquidity that one collateral token stands for, as decimal text.
    pub collateral_exchange_rate: String,
}

impl ReserveStateUpdate {
    /// The record of the state of `reserve`, or `MathOverflow` when its
    /// exchange rate cannot be computed.
    pub fn new(reserve: &Reserve) -> (r: Result<ReserveStateUpdate, LendingError>)
        ensures
            match reserve@.collateral_exchange_rate() {
                Some(rate) => r matches Ok(update) && {
                    &&& update.event_type == LogEventType::ReserveStateUpdate
                    &&& update.available_amount == reserve.liquidity.available_amount
                    &&& update.borrowed_amount_wads == reserve.liquidity.borrowed_amount_wads
                    &&& update.cumulative_borrow_rate_wads
                        == reserve.liquidity.cumulative_borrow_rate_wads
                    &&& update.collateral_mint_total_supply == reserve.collateral.mint_total_supply
                    &&& update.collateral_exchange_rate@ == fixed_point_text(rate)
                },
                None => r matches Err(e) && e == LendingError::MathOverflow,
            },
    {
        let rate = reserve.collateral_exchange_rate()?;
        Ok(
            ReserveStateUpdate {
                event_type: LogEventType::ReserveStateUpdate,
                available_amount: reserve.liquidity.available_amount,
                borrowed_amount_wads: reserve.liquidity.borrowed_amount_wads,
                cumulative_borrow_rate_wads: reserve.liquidity.cumulative_borrow_rate_wads,
                collateral_mint_total_supply: reserve.collateral.mint_total_supply,
                collateral_exchange_rate: rate.0.to_string(),
            },
        )
    }
}

/// One deposit of an obligation.
#[derive(Clone, Copy, Debug, PartialEq, Eq, Structural)]
pub struct DepositLog {
    /// Position of the deposit's reserve among the reserves that a refresh of
    /// the obligation takes.
    pub reserve_id_index: u8,
    /// Collateral tokens deposited.
    pub deposited_amount: u64,
}

/// One borrow of an obligation.
#[derive(Clone, Copy, Debug, PartialEq, Eq, Structural)]
pub struct BorrowLog {
    /// Position of the borrow's reserve among the reserves that a refresh of
    /// the obligation takes.
    pub reserve_id_index: u8,
    /// What is owed.
    pub borrowed_amount_wads: Decimal,
    /// The cumulative borrow rate up to which interest was added.
    pub cumulative_borrow_rate_wads: Decimal,
}

/// The state of an obligation. It does not name the obligation: whoever reads
/// the record knows it from the transaction.
#[derive(Clone, Debug)]
pub struct ObligationStateUpdate {
    /// Always `ObligationStateUpdate`.
    pub event_type: LogEventType,
    /// Most that the borrows may be worth.
    pub allowed_borrow_value: Decimal,
    /// Borrowed value above which the obligation can be liquidated.
    pub unhealthy_borrow_value: Decimal,
    /// The deposits, in the obligation's order.
    pub deposits: Vec<DepositLog>,
    /// The borrows, in the obligation's order.
    pub borrows: Vec<BorrowLog>,
}

impl ObligationStateUpdate {
    /// Whether `self` records the state of `obligation`: the two values, and
    /// every entry in order, the deposits numbered from zero and the borrows
    /// after them.
    pub open spec fn records(self, obligation: Obligation) -> bool {
        &&& self.event_type == LogEventType::ObligationStateUpdate
        &&& self.allowed_borrow_value == obligation.allowed_borrow_value
        &&& self.unhealthy_borrow_value == obligation.unhealthy_borrow_value
        &&& self.deposits.len() == obligation.deposits.len()
        &&& self.borrows.len() == obligation.borrows.len()
        &&& forall|i: int|
            0 <= i < self.deposits.len() ==> (#[trigger] self.deposits[i]) == (DepositLog {
                reserve_id_index: i as u8,
                deposited_amount: obligation.deposits[i].deposited_amount,
            })
        &&& forall|i: int|
            0 <= i < self.borrows.len() ==> (#[trigger] self.borrows[i]) == (BorrowLog {
                reserve_id_index: (obligation.deposits.len() + i) as u8,
                borrowed_amount_wads: obligation.borrows[i].borrowed_amount_wads,
                cumulative_borrow_rate_wads: obligation.borrows[i].cumulative_borrow_rate_wads,
            })
    }

    /// The record of the state of `obligation`, or
    /// `TooManyObligationReserves` when it has more than 256 entries, so that
    /// their positions do not fit the record.
    pub fn new(obligation: &Obligation) -> (r: Result<ObligationStateUpdate, LendingError>)
        ensures
            obligation.deposits.len() + obligation.borrows.len() <= 256 ==> (r matches Ok(update)
                && update.records(*obligation)),
            obligation.deposits.len() + obligation.borrows.len() > 256 ==> (r matches Err(e) && e
                == LendingError::TooManyObligationReserves),
    {
        let deposit_count = obligation.deposits.len();
        let borrow_count = obligation.borrows.len();
        if deposit_count > 256 || borrow_count > 256 - deposit_count {
            return Err(LendingError::TooManyObligationReserves);
        }
        let mut deposits: Vec<DepositLog> = Vec::new();
        let mut i: usize = 0;
        while i < deposit_count
            invariant
                i <= deposit_count <= 256,
                deposit_count == obligation.deposits.len(),
                deposits.len() == i,
                forall|j: int|
                    0 <= j < i ==> (#[trigger] deposits[j]) == (DepositLog {
                        reserve_id_index: j as u8,
                        deposited_amount: obligation.deposits[j].deposited_amount,
                    }),
            decreases deposit_count - i,
        {
            deposits.push(
                DepositLog {
                    reserve_id_index: i as u8,
                    deposited_amount: obligation.deposits[i].deposited_amount,
                },
            );
            i += 1;
        }
        let mut borrows: Vec<BorrowLog> = Vec::new();
        let mut k: usize = 0;
        while k < borrow_count
            invariant
                k <= borrow_count,
                deposit_count + borrow_count <= 256,
                deposit_count == obligation.deposits.len(),
                borrow_count == obligation.borrows.len(),
                borrows.len() == k,
                forall|j: int|
                    0 <= j < k ==> (#[trigger] borrows[j]) == (BorrowLog {
                        reserve_id_index: (deposit_count + j) as u8,
                        borrowed_amount_wads: obligation.borrows[j].borrowed_amount_wads,
                        cumulative_borrow_rate_wads: obligation.borrows[j].cumulative_borrow_rate_wads,
                    }),
            decreases borrow_count - k,
        {
            borrows.push(
                BorrowLog {
                    reserve_id_index: (deposit_count + k) as u8,
                    borrowed_amount_wads: obligation.borrows[k].borrowed_amount_wads,
                    cumulative_borrow_rate_wads: obligation.borrows[k].cumulative_borrow_rate_wads,
                },
            );
            k += 1;
        }
        Ok(
            ObligationStateUpdate {
                event_type: LogEventType::ObligationStateUpdate,
                allowed_borrow_value: obligation.allowed_borrow_value,
                unhealthy_borrow_value: obligation.unhealthy_borrow_value,
                deposits,
                borrows,
            },
        )
    }
}

} // verus!

//! The token movements that an operation asks the transfer collaborator to make.

use vstd::prelude::*;
use crate::borrowing::BorrowOutcome;
use crate::liquidation::LiquidationOutcome;

verus! {

/// A token account, named by its part in an operation.
#[derive(Clone, Copy, Debug, PartialEq, Eq, Structural)]
pub enum TokenAccount {
    /// The liquidity that a reserve holds.
    ReserveLiquiditySupply,
    /// The collateral that a reserve holds for the obligations.
    ReserveCollateralSupply,
    /// The liquidity account of whoever takes part in the operation.
    UserLiquidity,
    /// The collateral account of whoever takes part in the operation.
    UserCollateral,
    /// The account that receives the protocol's part of the fees.
    FeeReceiver,
    /// The account that receives the host's part of the fees.
    HostFeeReceiver,
}

/// Who must sign a movement.
#[derive(Clone, Copy, Debug, PartialEq, Eq, Structural)]
pub enum Authority {
    /// The lending market, for what leaves an account of a reserve.
    LendingMarket,
    /// The user, for what leaves an account of the user.
    User,
}

/// One movement of tokens.
#[derive(Clone, Copy, Debug, PartialEq, Eq, Structural)]
pub struct Transfer {
    /// Where the tokens come from.
    pub source: TokenAccount,
    /// Where they go.
    pub destination: TokenAccount,
    /// Who signs.
    pub authority: Authority,
    /// How many tokens move.
    pub amount: u64,
}

impl Transfer {
    /// `amount` of liquidity out of the reserve to `destination`.
    pub open spec fn spec_from_reserve(destination: TokenAccount, amount: u64) -> Transfer {
        Transfer {
            source: TokenAccount::ReserveLiquiditySupply,
            destination,
            authority: Authority::LendingMarket,
            amount,
        }
    }

    /// `amount` of liquidity from the user into the reserve.
    pub open spec fn spec_into_reserve(amount: u64) -> Transfer {
        Transfer {
            source: TokenAccount::UserLiquidity,
            destination: TokenAccount::ReserveLiquiditySupply,
            authority: Authority::User,
            amount,
        }
    }

    /// `amount` of collateral from the user into the reserve's collateral supply.
    pub open spec fn spec_collateral_in(amount: u64) -> Transfer {
        Transfer {
            source: TokenAccount::UserCollateral,
            destination: TokenAccount::ReserveCollateralSupply,
            authority: Authority::User,
            amount,
        }
    }

    /// `amount` of collateral out of the reserve's collateral supply to the user.
    pub open spec fn spec_collateral_out(amount: u64) -> Transfer {
        Transfer {
            source: TokenAccount::ReserveCollateralSupply,
            destination: TokenAccount::UserCollateral,
            authority: Authority::LendingMarket,
            amount,
        }
    }

    /// The movement of a repayment of `amount`.
    pub fn repayment(amount: u64) -> (r: Transfer)
        ensures
            r == Transfer::spec_into_reserve(amount),
    {
        Transfer {
            source: TokenAccount::UserLiquidity,
            destination: TokenAccount::ReserveLiquiditySupply,
            authority: Authority::User,
            amount,
        }
    }

    /// The movement of a deposit of `amount` collateral into an obligation.
    pub fn collateral_deposit(amount: u64) -> (r: Transfer)
        ensures
            r == Transfer::spec_collateral_in(amount),
    {
        Transfer {
            source: TokenAccount::UserCollateral,
            destination: TokenAccount::ReserveCollateralSupply,
            authority: Authority::User,
            amount,
        }
    }

    /// The movement of a withdrawal of `amount` collateral from an obligation.
    pub fn collateral_withdrawal(amount: u64) -> (r: Transfer)
        ensures
            r == Transfer::spec_collateral_out(amount),
    {
        Transfer {
            source: TokenAccount::ReserveCollateralSupply,
            destination: TokenAccount::UserCollateral,
            authority: Authority::LendingMarket,
            amount,
        }
    }
}

/// The sum of the amounts of `transfers`.
pub open spec fn total_amount(transfers: Seq<Transfer>) -> nat
    decreases transfers.len(),
{
    if transfers.len() == 0 {
        0
    } else {
        total_amount(transfers.drop_last()) + transfers.last().amount as nat
    }
}

impl BorrowOutcome {
    /// The fee movements of the borrow: the host's part when there is one,
    /// then the protocol's part when there is one.
    pub open spec fn spec_fee_transfers(self) -> Seq<Transfer> {
        let host = if self.host_fee > 0 {
            seq![Transfer::spec_from_reserve(TokenAccount::HostFeeReceiver, self.host_fee)]
        } else {
            Seq::empty()
        };
        if self.owner_fee > 0 {
            host.push(Transfer::spec_from_reserve(TokenAccount::FeeReceiver, self.owner_fee))
        } else {
            host
        }
    }

    /// The movements of the borrow: the fees, then what the borrower receives.
    pub open spec fn spec_transfers(self) -> Seq<Transfer> {
        self.spec_fee_transfers().push(
            Transfer::spec_from_reserve(TokenAccount::UserLiquidity, self.receive_amount),
        )
    }

    /// The movements of the borrow, all out of the reserve's liquidity
    /// supply. Together they move what the three receivers get.
    pub fn transfers(&self) -> (r: Vec<Transfer>)
        ensures
            r@ == self.spec_transfers(),
            total_amount(r@) == self.receive_amount + self.owner_fee + self.host_fee,
    {
        let mut out: Vec<Transfer> = Vec::new();
        assert(total_amount(out@) == 0);
        if self.host_fee > 0 {
            let ghost before = out@;
            out.push(
                Transfer {
                    source: TokenAccount::ReserveLiquiditySupply,
                    destination: TokenAccount::HostFeeReceiver,
                    authority: Authority::LendingMarket,
                    amount: self.host_fee,
                },
            );
            assert(out@.drop_last() =~= before);
        }
        assert(total_amount(out@) == self.host_fee);
        if self.owner_fee > 0 {
            let ghost before = out@;
            out.push(
                Transfer {
                    source: TokenAccount::ReserveLiquiditySupply,
                    destination: TokenAccount::FeeReceiver,
                    authority: Authority::LendingMarket,
                    amount: self.owner_fee,
                },
            );
            assert(out@.drop_last() =~= before);
        }
        assert(total_amount(out@) == self.host_fee + self.owner_fee);
        assert(out@ =~= self.spec_fee_transfers());
        let ghost before = out@;
        out.push(
            Transfer {
                source: TokenAccount::ReserveLiquiditySupply,
                destination: TokenAccount::UserLiquidity,
                authority: Authority::LendingMarket,
                amount: self.receive_amount,
            },
        );
        assert(out@.drop_last() =~= before);
        out
    }
}

impl LiquidationOutcome {
    /// The movements of the liquidation: the payment into the repaid reserve,
    /// then the collateral to the liquidator.
    pub open spec fn spec_transfers(self) -> Seq<Transfer> {
        seq![
            Transfer::spec_into_reserve(self.repay_amount),
            Transfer::spec_collateral_out(self.withdraw_amount),
        ]
    }

    /// The movements of the liquidation.
    pub fn transfers(&self) -> (r: Vec<Transfer>)
        ensures
            r@ == self.spec_transfers(),
    {
        let mut out: Vec<Transfer> = Vec::new();
        out.push(Transfer::repayment(self.repay_amount));
        out.push(Transfer::collateral_withdrawal(self.withdraw_amount));
        assert(out@ =~= self.spec_transfers());
        out
    }
}

} // verus!

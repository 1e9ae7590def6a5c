//! Per-epoch analytics: the volume traded and the liquidity providers' fees
//! collected, by epoch and token.
use crate::ledger::amount_at;
use crate::state::{Pair, PairModel};
use crate::types::{PairError, TokenId};
use vstd::prelude::*;

verus! {

/// The figures of one epoch for the pool's two tokens.
#[derive(PartialEq, Eq, Structural, Clone, Copy, Debug)]
pub struct AnalyticsForEpoch {
    pub epoch: u64,
    pub volume_first_token: u128,
    pub volume_second_token: u128,
    pub lp_fees_first_token: u128,
    pub lp_fees_second_token: u128,
}

/// The record of `epoch` for the two given tokens.
pub open spec fn analytics_for_epoch_spec(
    m: PairModel,
    epoch: u64,
    first_token: Seq<u8>,
    second_token: Seq<u8>,
) -> AnalyticsForEpoch {
    AnalyticsForEpoch {
        epoch,
        volume_first_token: amount_at(m.trading_volume, epoch, first_token) as u128,
        volume_second_token: amount_at(m.trading_volume, epoch, second_token) as u128,
        lp_fees_first_token: amount_at(m.lp_fees, epoch, first_token) as u128,
        lp_fees_second_token: amount_at(m.lp_fees, epoch, second_token) as u128,
    }
}

/// Adding `vol` under (epoch, token) of a map of amounts.
pub open spec fn add_amount_spec(
    amounts: Map<(u64, Seq<u8>), nat>,
    epoch: u64,
    token: Seq<u8>,
    vol: nat,
) -> Result<Map<(u64, Seq<u8>), nat>, PairError> {
    if amount_at(amounts, epoch, token) + vol > u128::MAX {
        Err(PairError::AmountOverflow)
    } else {
        Ok(amounts.insert((epoch, token), amount_at(amounts, epoch, token) + vol))
    }
}

pub trait AnalyticsModule {
    fn analytics_add_lp_fees(&mut self, token: &TokenId, vol: u128, epoch: u64) -> Result<(), PairError>;

    fn analytics_add_volume(&mut self, token: &TokenId, vol: u128, epoch: u64) -> Result<(), PairError>;

    fn lp_fees(&self, epoch: u64, token: &TokenId) -> u128;

    fn trading_volume(&self, epoch: u64, token: &TokenId) -> u128;

    /// The records of the `countback` epochs before `current_epoch`, oldest first.
    fn get_analytics_for_last_epochs_inner(
        &self,
        countback: u64,
        first_token: &TokenId,
        second_token: &TokenId,
        current_epoch: u64,
    ) -> Vec<AnalyticsForEpoch>
        requires
            countback <= current_epoch,
    ;
}

impl AnalyticsModule for Pair {
    fn analytics_add_lp_fees(&mut self, token: &TokenId, vol: u128, epoch: u64) -> (res: Result<
        (),
        PairError,
    >)
        ensures
            match add_amount_spec(old(self)@.lp_fees, epoch, token@, vol as nat) {
                Ok(amounts) => res is Ok && final(self)@ == (PairModel { lp_fees: amounts, ..old(self)@ }),
                Err(e) => res == Err::<(), PairError>(e) && final(self)@ == old(self)@,
            },
    {
        self.lp_fees_ledger.add(epoch, token, vol)
    }

    fn analytics_add_volume(&mut self, token: &TokenId, vol: u128, epoch: u64) -> (res: Result<
        (),
        PairError,
    >)
        ensures
            match add_amount_spec(old(self)@.trading_volume, epoch, token@, vol as nat) {
                Ok(amounts) => res is Ok && final(self)@ == (PairModel {
                    trading_volume: amounts,
                    ..old(self)@
                }),
                Err(e) => res == Err::<(), PairError>(e) && final(self)@ == old(self)@,
            },
    {
        self.trading_volume_ledger.add(epoch, token, vol)
    }

    fn lp_fees(&self, epoch: u64, token: &TokenId) -> (res: u128)
        ensures
            res as nat == amount_at(self@.lp_fees, epoch, token@),
    {
        self.lp_fees_ledger.get(epoch, token)
    }

    fn trading_volume(&self, epoch: u64, token: &TokenId) -> (res: u128)
        ensures
            res as nat == amount_at(self@.trading_volume, epoch, token@),
    {
        self.trading_volume_ledger.get(epoch, token)
    }

    fn get_analytics_for_last_epochs_inner(
        &self,
        countback: u64,
        first_token: &TokenId,
        second_token: &TokenId,
        current_epoch: u64,
    ) -> (res: Vec<AnalyticsForEpoch>)
        ensures
            res@.len() == countback,
            forall|i: int|
                0 <= i < countback ==> #[trigger] res@[i] == analytics_for_epoch_spec(
                    self@,
                    (current_epoch - countback + i) as u64,
                    first_token@,
                    second_token@,
                ),
    {
        let mut res: Vec<AnalyticsForEpoch> = Vec::new();
        let mut epoch = current_epoch - countback;
        while epoch < current_epoch
            invariant
                countback <= current_epoch,
                current_epoch - countback <= epoch <= current_epoch,
                res@.len() == epoch - (current_epoch - countback),
                forall|i: int|
                    0 <= i < res@.len() ==> #[trigger] res@[i] == analytics_for_epoch_spec(
                        self@,
                        (current_epoch - countback + i) as u64,
                        first_token@,
                        second_token@,
                    ),
            decreases current_epoch - epoch,
        {
            let item = AnalyticsForEpoch {
                epoch,
                volume_first_token: self.trading_volume(epoch, first_token),
                volume_second_token: self.trading_volume(epoch, second_token),
                lp_fees_first_token: self.lp_fees(epoch, first_token),
                lp_fees_second_token: self.lp_fees(epoch, second_token),
            };
            res.push(item);
            epoch = epoch + 1;
        }
        res
    }
}

} // verus!

//! The event logs of a pool, decoded from the ledger's words.

use crate::abi::{has_word, read_address, read_word, word_value};
use crate::error::SwapError;
use crate::h160::H160;
use crate::i256::{to_signed, I256};
use crate::u256::U256;
use vstd::prelude::*;

verus! {

/// An event as the ledger records it: indexed topics and unindexed data.
#[derive(Clone, Debug)]
pub struct EventLog {
    pub topics: Vec<[u8; 32]>,
    pub data: Vec<u8>,
}

/// What a swap event reports: the two amounts, the price and the liquidity
/// after the swap, and the tick after it.
pub open spec fn swap_log_fields(data: Seq<u8>) -> Result<(int, int, nat, nat, int), SwapError> {
    let liquidity = word_value(data, 96);
    let tick = to_signed(word_value(data, 128));
    if data.len() < 160 || liquidity > u128::MAX || tick < -0x80_0000 || tick >= 0x80_0000 {
        Err(SwapError::InvalidEventLog)
    } else {
        Ok(
            (
                to_signed(word_value(data, 0)),
                to_signed(word_value(data, 32)),
                word_value(data, 64),
                liquidity,
                tick,
            ),
        )
    }
}

/// What a pool-creation event reports: the pool's address, its two tokens
/// and its fee.
pub open spec fn pool_created_fields(topics: Seq<[u8; 32]>, data: Seq<u8>) -> Result<
    (Seq<u8>, Seq<u8>, Seq<u8>, nat),
    SwapError,
> {
    if topics.len() < 2 || data.len() < 64 || word_value(data, 0) > u32::MAX {
        Err(SwapError::InvalidEventLog)
    } else {
        Ok(
            (
                data.subrange(44, 64),
                topics[0]@.subrange(12, 32),
                topics[1]@.subrange(12, 32),
                word_value(data, 0),
            ),
        )
    }
}

/// The address in the low twenty bytes of a topic.
pub fn topic_address(topic: &[u8; 32]) -> (r: H160)
    ensures
        r@ == topic@.subrange(12, 32),
{
    let mut bytes = [0u8; 20];
    let mut i: usize = 0;
    while i < 20
        invariant
            i <= 20,
            forall|j: int| 0 <= j < i ==> bytes@[j] == topic@[12 + j],
        decreases 20 - i,
    {
        bytes[i] = topic[12 + i];
        i += 1;
    }
    let address = H160(bytes);
    assert(address@ =~= topic@.subrange(12, 32));
    address
}

impl EventLog {
    /// Reads a swap event: two signed amounts, the price, the liquidity,
    /// which must fit 128 bits, and the tick, which must fit 24 bits.
    pub fn decode_swap(&self) -> (r: Result<(I256, I256, U256, u128, i32), SwapError>)
        ensures
            match swap_log_fields(self.data@) {
                Ok(fields) => r matches Ok(event) && event.0@ == fields.0 && event.1@ == fields.1
                    && event.2@ == fields.2 && event.3 == fields.3 && event.4 == fields.4,
                Err(e) => r == Err::<(I256, I256, U256, u128, i32), SwapError>(e),
            },
    {
        let amount_0 = match read_word(&self.data, 0) {
            Some(word) => I256::from_raw(word),
            None => {
                return Err(SwapError::InvalidEventLog);
            },
        };
        let amount_1 = match read_word(&self.data, 1) {
            Some(word) => I256::from_raw(word),
            None => {
                return Err(SwapError::InvalidEventLog);
            },
        };
        let sqrt_price = match read_word(&self.data, 2) {
            Some(word) => word,
            None => {
                return Err(SwapError::InvalidEventLog);
            },
        };
        let liquidity = match read_word(&self.data, 3) {
            Some(word) => word,
            None => {
                return Err(SwapError::InvalidEventLog);
            },
        };
        let tick = match read_word(&self.data, 4) {
            Some(word) => I256::from_raw(word),
            None => {
                return Err(SwapError::InvalidEventLog);
            },
        };
        match (liquidity.to_u128(), tick.to_i24()) {
            (Some(liquidity), Some(tick)) => Ok((amount_0, amount_1, sqrt_price, liquidity, tick)),
            _ => Err(SwapError::InvalidEventLog),
        }
    }

    /// Reads a pool-creation event: the pool's address, its two tokens and
    /// its fee, which must fit 32 bits.
    pub fn decode_pool_created(&self) -> (r: Result<(H160, H160, H160, u32), SwapError>)
        ensures
            match pool_created_fields(self.topics@, self.data@) {
                Ok(fields) => r matches Ok(event) && event.0@ == fields.0 && event.1@ == fields.1
                    && event.2@ == fields.2 && event.3 == fields.3,
                Err(e) => r == Err::<(H160, H160, H160, u32), SwapError>(e),
            },
    {
        if self.topics.len() < 2 {
            return Err(SwapError::InvalidEventLog);
        }
        let fee = match read_word(&self.data, 0) {
            Some(word) => word,
            None => {
                return Err(SwapError::InvalidEventLog);
            },
        };
        let address = match read_address(&self.data, 1) {
            Some(address) => address,
            None => {
                return Err(SwapError::InvalidEventLog);
            },
        };
        match fee.to_u32() {
            Some(fee) => Ok(
                (address, topic_address(&self.topics[0]), topic_address(&self.topics[1]), fee),
            ),
            None => Err(SwapError::InvalidEventLog),
        }
    }

    /// The address of the pool that a pool-creation event announces.
    pub fn pool_address(&self) -> (r: Result<H160, SwapError>)
        ensures
            match r {
                Ok(address) => has_word(self.data@.len(), 1) && address@ == self.data@.subrange(
                    44,
                    64,
                ),
                Err(e) => !has_word(self.data@.len(), 1) && e == SwapError::InvalidEventLog,
            },
    {
        match read_address(&self.data, 1) {
            Some(address) => Ok(address),
            None => Err(SwapError::InvalidEventLog),
        }
    }
}

} // verus!

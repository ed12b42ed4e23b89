//! The snapshot of one pool and the swaps simulated against it.

use crate::abi::{encode_swap_call, swap_call_bytes};
use crate::error::SwapError;
use crate::event_log::{pool_created_fields, swap_log_fields, EventLog};
use crate::h160::{zero_bytes, H160};
use crate::i256::{to_signed, I256};
use crate::swap::{
    amount_out_spec, finished, simulate_spec, CurrentState, SimState, SwapSimulation, SwapState,
    TickBatch,
};
use crate::tick_bitmap::{bit_index, compress, compressed_tick, position, word_index};
use crate::u256::{lemma_value_injective, U256};
use vstd::prelude::*;

verus! {

/// The number of ticks asked for at a time unless the caller says otherwise.
pub const DEFAULT_NUM_TICKS: u16 = 150;

/// One concentrated-liquidity pool as last seen.
#[derive(Clone, Copy, Debug, PartialEq, Eq, Hash)]
pub struct UniswapV3Pool {
    pub address: H160,
    pub token_a: H160,
    pub token_a_decimals: u8,
    pub token_b: H160,
    pub token_b_decimals: u8,
    pub liquidity: u128,
    pub sqrt_price: U256,
    pub fee: u32,
    pub tick: i32,
    pub tick_spacing: i32,
    pub liquidity_net: i128,
}

/// The simulation with which a swap of `amount_in` of `token_in` begins.
pub open spec fn initial_state(pool: UniswapV3Pool, token_in: H160, amount_in: nat, num_ticks: u16)
    -> SimState {
    SimState {
        zero_for_one: token_in@ == pool.token_a@,
        fee: pool.fee as nat,
        num_ticks,
        block_number: None,
        state: SwapState {
            remaining: to_signed(amount_in),
            calculated: 0,
            sqrt_price: pool.sqrt_price@,
            tick: pool.tick as int,
            liquidity: pool.liquidity as nat,
        },
        liquidity_net: pool.liquidity_net as int,
    }
}

/// The output of a swap of `amount_in` of `token_in` when the tick source
/// answers with `batches`.
pub open spec fn simulated_output(
    pool: UniswapV3Pool,
    token_in: H160,
    amount_in: nat,
    num_ticks: u16,
    batches: Seq<TickBatch>,
) -> Result<nat, SwapError> {
    match simulate_spec(initial_state(pool, token_in, amount_in, num_ticks), batches) {
        Err(e) => Err(e),
        Ok(done) => amount_out_spec(done),
    }
}

/// Whether `after` is `before` with the working state of `done` written back.
pub open spec fn committed(before: UniswapV3Pool, done: SimState, after: UniswapV3Pool) -> bool {
    &&& after.address == before.address
    &&& after.token_a == before.token_a
    &&& after.token_a_decimals == before.token_a_decimals
    &&& after.token_b == before.token_b
    &&& after.token_b_decimals == before.token_b_decimals
    &&& after.fee == before.fee
    &&& after.tick_spacing == before.tick_spacing
    &&& after.liquidity == done.state.liquidity
    &&& after.sqrt_price@ == done.state.sqrt_price
    &&& after.tick == done.state.tick
    &&& after.liquidity_net == done.liquidity_net
}

/// A returned amount as a number.
pub open spec fn amount_result_view(r: Result<U256, SwapError>) -> Result<nat, SwapError> {
    match r {
        Ok(v) => Ok(v@),
        Err(e) => Err(e),
    }
}

impl UniswapV3Pool {
    pub fn new(
        address: H160,
        token_a: H160,
        token_a_decimals: u8,
        token_b: H160,
        token_b_decimals: u8,
        fee: u32,
        liquidity: u128,
        sqrt_price: U256,
        tick: i32,
        tick_spacing: i32,
        liquidity_net: i128,
    ) -> (pool: UniswapV3Pool)
        ensures
            pool == (UniswapV3Pool {
                address,
                token_a,
                token_a_decimals,
                token_b,
                token_b_decimals,
                liquidity,
                sqrt_price,
                fee,
                tick,
                tick_spacing,
                liquidity_net,
            }),
    {
        UniswapV3Pool {
            address,
            token_a,
            token_a_decimals,
            token_b,
            token_b_decimals,
            fee,
            liquidity,
            sqrt_price,
            tick,
            tick_spacing,
            liquidity_net,
        }
    }

    /// A pool of which only the address, the tokens and the fee are known.
    pub fn new_empty_pool(address: H160, token_a: H160, token_b: H160, fee: u32) -> (pool:
        UniswapV3Pool)
        ensures
            pool.address == address,
            pool.token_a == token_a,
            pool.token_b == token_b,
            pool.fee == fee,
            pool.token_a_decimals == 0,
            pool.token_b_decimals == 0,
            pool.liquidity == 0,
            pool.sqrt_price@ == 0,
            pool.tick == 0,
            pool.tick_spacing == 0,
            pool.liquidity_net == 0,
    {
        UniswapV3Pool {
            address,
            token_a,
            token_a_decimals: 0,
            token_b,
            token_b_decimals: 0,
            liquidity: 0,
            sqrt_price: U256::zero(),
            fee,
            tick: 0,
            tick_spacing: 0,
            liquidity_net: 0,
        }
    }

    /// The pool that a pool-creation event announces, with nothing but its
    /// address, its tokens and its fee known.
    pub fn new_empty_pool_from_event_log(log: &EventLog) -> (r: Result<UniswapV3Pool, SwapError>)
        ensures
            match pool_created_fields(log.topics@, log.data@) {
                Ok(fields) => r matches Ok(pool) && {
                    &&& pool.address@ == fields.0
                    &&& pool.token_a@ == fields.1
                    &&& pool.token_b@ == fields.2
                    &&& pool.fee == fields.3
                    &&& pool.token_a_decimals == 0
                    &&& pool.token_b_decimals == 0
                    &&& pool.liquidity == 0
                    &&& pool.sqrt_price@ == 0
                    &&& pool.tick == 0
                    &&& pool.tick_spacing == 0
                    &&& pool.liquidity_net == 0
                },
                Err(e) => r == Err::<UniswapV3Pool, SwapError>(e),
            },
    {
        match log.decode_pool_created() {
            Ok((address, token_a, token_b, fee)) => Ok(
                UniswapV3Pool::new_empty_pool(address, token_a, token_b, fee),
            ),
            Err(e) => Err(e),
        }
    }

    /// The two amounts, the price, the liquidity and the tick that a swap
    /// event reports.
    pub fn decode_swap_log(&self, swap_log: &EventLog) -> (r: Result<
        (I256, I256, U256, u128, i32),
        SwapError,
    >)
        ensures
            match swap_log_fields(swap_log.data@) {
                Ok(fields) => r matches Ok(event) && event.0@ == fields.0 && event.1@ == fields.1
                    && event.2@ == fields.2 && event.3 == fields.3 && event.4 == fields.4,
                Err(e) => r == Err::<(I256, I256, U256, u128, i32), SwapError>(e),
            },
    {
        swap_log.decode_swap()
    }

    /// The call data with which to ask the pool for a swap.
    pub fn swap_calldata(
        &self,
        recipient: H160,
        zero_for_one: bool,
        amount_specified: I256,
        sqrt_price_limit_x_96: U256,
        calldata: Vec<u8>,
    ) -> (out: Vec<u8>)
        ensures
            out@ == swap_call_bytes(
                recipient@,
                zero_for_one,
                amount_specified.0,
                sqrt_price_limit_x_96,
                calldata@,
            ),
    {
        encode_swap_call(
            &recipient,
            zero_for_one,
            amount_specified.into_raw(),
            sqrt_price_limit_x_96,
            &calldata,
        )
    }

    /// The pool itself if both of its tokens are known, an error otherwise.
    pub fn require_populated(self) -> (r: Result<UniswapV3Pool, SwapError>)
        ensures
            self.token_a@ != zero_bytes() && self.token_b@ != zero_bytes() ==> r == Ok::<
                UniswapV3Pool,
                SwapError,
            >(self),
            self.token_a@ == zero_bytes() || self.token_b@ == zero_bytes() ==> r == Err::<
                UniswapV3Pool,
                SwapError,
            >(SwapError::PoolDataError),
    {
        if self.data_is_populated() {
            Ok(self)
        } else {
            Err(SwapError::PoolDataError)
        }
    }

    /// Moves the pool to the price, liquidity and tick that the ledger
    /// reports, with the liquidity change recorded at that tick.
    pub fn update_state(&mut self, sqrt_price: U256, liquidity: u128, tick: i32, liquidity_net: i128)
        ensures
            *final(self) == (UniswapV3Pool {
                sqrt_price,
                liquidity,
                tick,
                liquidity_net,
                ..*old(self)
            }),
    {
        self.sqrt_price = sqrt_price;
        self.liquidity = liquidity;
        self.tick = tick;
        self.liquidity_net = liquidity_net;
    }

    /// The fee in hundredths of a basis point.
    pub fn fee(&self) -> (r: u32)
        ensures
            r == self.fee,
    {
        self.fee
    }

    pub fn address(&self) -> (r: H160)
        ensures
            r == self.address,
    {
        self.address
    }

    /// Whether both tokens are known.
    pub fn data_is_populated(&self) -> (r: bool)
        ensures
            r == (self.token_a@ != zero_bytes() && self.token_b@ != zero_bytes()),
    {
        !(self.token_a.is_zero() || self.token_b.is_zero())
    }

    /// The power of ten by which a price in raw token units is scaled to a
    /// price in whole tokens.
    pub fn decimal_shift(&self) -> (r: i16)
        ensures
            r == self.token_a_decimals - self.token_b_decimals,
    {
        self.token_a_decimals as i16 - self.token_b_decimals as i16
    }

    /// The compressed index of `tick`: its quotient by the tick spacing,
    /// rounded toward negative infinity.
    pub fn calculate_compressed(&self, tick: i32) -> (c: i32)
        requires
            self.tick_spacing > 0,
        ensures
            c == compressed_tick(tick as int, self.tick_spacing as int),
            c * self.tick_spacing <= tick < c * self.tick_spacing + self.tick_spacing,
    {
        compress(tick, self.tick_spacing)
    }

    /// The bitmap word and the bit inside it at which a compressed index lives.
    pub fn calculate_word_pos_bit_pos(&self, compressed: i32) -> (r: (i16, u8))
        ensures
            r.1 == bit_index(compressed as int),
            (r.0 - word_index(compressed as int)) % 65536 == 0,
            -8388608 <= compressed < 8388608 ==> r.0 == word_index(compressed as int),
    {
        position(compressed)
    }

    /// Begins a swap of `amount_in` of `token_in`. Any token other than token
    /// A is taken to be token B.
    pub fn begin_swap(&self, token_in: H160, amount_in: U256, num_ticks: u16) -> (sim:
        SwapSimulation)
        ensures
            sim@ == initial_state(*self, token_in, amount_in@, num_ticks),
            amount_in@ == 0 ==> finished(sim@),
    {
        SwapSimulation {
            zero_for_one: token_in == self.token_a,
            fee: self.fee,
            num_ticks,
            block_number: None,
            state: CurrentState {
                amount_specified_remaining: I256::from_raw(amount_in),
                amount_calculated: I256::zero(),
                sqrt_price_x_96: self.sqrt_price,
                tick: self.tick,
                liquidity: self.liquidity,
            },
            liquidity_net: self.liquidity_net,
        }
    }

    /// Writes the working state of a simulation back into the pool.
    pub fn commit(&mut self, sim: &SwapSimulation)
        ensures
            committed(*old(self), sim@, *final(self)),
    {
        self.liquidity = sim.state.liquidity;
        self.sqrt_price = sim.state.sqrt_price_x_96;
        self.tick = sim.state.tick;
        self.liquidity_net = sim.liquidity_net;
    }

    /// The output of swapping `amount_in` of `token_in`, with the tick source's
    /// answers given as `batches`. The pool is left as it is.
    pub fn simulate_swap_with_cache(
        &self,
        token_in: H160,
        amount_in: U256,
        num_ticks: u16,
        batches: &Vec<TickBatch>,
    ) -> (r: Result<U256, SwapError>)
        ensures
            amount_result_view(r) == simulated_output(
                *self,
                token_in,
                amount_in@,
                num_ticks,
                batches@,
            ),
            amount_in@ == 0 ==> amount_result_view(r) == Ok::<nat, SwapError>(0),
    {
        let sim = self.begin_swap(token_in, amount_in, num_ticks);
        match sim.run(batches) {
            Ok(done) => done.amount_out(),
            Err(e) => Err(e),
        }
    }

    /// `simulate_swap_with_cache` with batches of the default size.
    pub fn simulate_swap(&self, token_in: H160, amount_in: U256, batches: &Vec<TickBatch>) -> (r:
        Result<U256, SwapError>)
        ensures
            amount_result_view(r) == simulated_output(
                *self,
                token_in,
                amount_in@,
                DEFAULT_NUM_TICKS,
                batches@,
            ),
            amount_in@ == 0 ==> amount_result_view(r) == Ok::<nat, SwapError>(0),
    {
        self.simulate_swap_with_cache(token_in, amount_in, DEFAULT_NUM_TICKS, batches)
    }

    /// The output of swapping `amount_in` of `token_in`, as
    /// `simulate_swap_with_cache` computes it; on success the pool is moved
    /// to where the swap leaves it, on failure it is left as it is.
    pub fn simulate_swap_mut_with_cache(
        &mut self,
        token_in: H160,
        amount_in: U256,
        num_ticks: u16,
        batches: &Vec<TickBatch>,
    ) -> (r: Result<U256, SwapError>)
        ensures
            amount_result_view(r) == simulated_output(
                *old(self),
                token_in,
                amount_in@,
                num_ticks,
                batches@,
            ),
            r is Ok ==> committed(
                *old(self),
                simulate_spec(
                    initial_state(*old(self), token_in, amount_in@, num_ticks),
                    batches@,
                )->Ok_0,
                *final(self),
            ),
            r is Err ==> *final(self) == *old(self),
            amount_in@ == 0 ==> amount_result_view(r) == Ok::<nat, SwapError>(0) && *final(self)
                == *old(self),
    {
        let sim = self.begin_swap(token_in, amount_in, num_ticks);
        let done = match sim.run(batches) {
            Ok(done) => done,
            Err(e) => {
                return Err(e);
            },
        };
        match done.amount_out() {
            Ok(amount) => {
                self.commit(&done);
                proof {
                    if amount_in@ == 0 {
                        lemma_value_injective(self.sqrt_price, old(self).sqrt_price);
                    }
                }
                Ok(amount)
            },
            Err(e) => Err(e),
        }
    }

    /// `simulate_swap_mut_with_cache` with batches of the default size.
    pub fn simulate_swap_mut(
        &mut self,
        token_in: H160,
        amount_in: U256,
        batches: &Vec<TickBatch>,
    ) -> (r: Result<U256, SwapError>)
        ensures
            amount_result_view(r) == simulated_output(
                *old(self),
                token_in,
                amount_in@,
                DEFAULT_NUM_TICKS,
                batches@,
            ),
            r is Ok ==> committed(
                *old(self),
                simulate_spec(
                    initial_state(*old(self), token_in, amount_in@, DEFAULT_NUM_TICKS),
                    batches@,
                )->Ok_0,
                *final(self),
            ),
            r is Err ==> *final(self) == *old(self),
            amount_in@ == 0 ==> amount_result_view(r) == Ok::<nat, SwapError>(0) && *final(self)
                == *old(self),
    {
        self.simulate_swap_mut_with_cache(token_in, amount_in, DEFAULT_NUM_TICKS, batches)
    }
}

impl Default for UniswapV3Pool {
    fn default() -> (pool: UniswapV3Pool)
        ensures
            pool.address@ == zero_bytes(),
            pool.token_a@ == zero_bytes(),
            pool.token_b@ == zero_bytes(),
            pool.token_a_decimals == 0,
            pool.token_b_decimals == 0,
            pool.liquidity == 0,
            pool.sqrt_price@ == 0,
            pool.fee == 0,
            pool.tick == 0,
            pool.tick_spacing == 0,
            pool.liquidity_net == 0,
    {
        UniswapV3Pool {
            address: H160::zero(),
            token_a: H160::zero(),
            token_a_decimals: 0,
            token_b: H160::zero(),
            token_b_decimals: 0,
            liquidity: 0,
            sqrt_price: U256::zero(),
            fee: 0,
            tick: 0,
            tick_spacing: 0,
            liquidity_net: 0,
        }
    }
}

} // verus!

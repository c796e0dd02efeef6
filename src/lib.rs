//! Classification of decentralized-exchange swaps in a batch of Ethereum
//! transactions, and a naive round-trip arbitrage flagger built on it.

pub mod classifier;
pub mod flagger;
pub mod reference;
pub mod types;

pub use classifier::{classify_transaction, identify_dex_swaps, ClassifiedSwap};
pub use flagger::{
    arbitrage_flags, distinct_senders, flag_round_trips, has_round_trip, identify_arbitrage,
    ArbitrageFlag,
};
pub use reference::{
    get_dex_routers, get_mev_searchers, method_signatures, MethodSignature, ReferenceData,
    RouterEntry,
};
pub use types::{Address, SwapDirection, Transaction};

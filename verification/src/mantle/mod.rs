//! The contracts of the lending market and the queries put to its state.

pub mod client;
pub mod queries;

use vstd::prelude::*;

verus! {

/// The addresses of the market's contracts.
#[non_exhaustive]
pub struct Contracts;

impl Contracts {
    pub const MARKET: &'static str = "terra1sepfj7s0aeg5967uxnfk4thzlerrsktkpelm5s";

    pub const OVERSEER: &'static str = "terra1tmnqgvg567ypvsvk6rwsga3srp7e3lg6u0elp8";

    pub const BETH: &'static str = "terra1dzhzukyezv0etz22ud940z7adyv7xgcjkahuun";

    pub const BLUNA: &'static str = "terra1kc87mu460fwkqte29rquh4hc20m54fxwtsx7gp";

    pub const ORACLE: &'static str = "terra1cgg6yef7qcdm070qftghfulaxmllgmvk77nc7t";
}

} // verus!

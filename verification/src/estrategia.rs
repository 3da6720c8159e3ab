//! Estrategias de arbitraje registradas en el motor.

use vstd::prelude::*;

verus! {

/// Estrategia clásica de arbitraje lineal entre dos exchanges.
#[derive(Clone, Copy, Debug, PartialEq, Eq)]
pub struct EstrategiaLineal;

impl EstrategiaLineal {
    /// Nombre de la estrategia.
    pub fn nombre(&self) -> (r: &'static str)
        ensures
            r@ == "lineal"@,
    {
        "lineal"
    }
}

/// Estrategia de arbitraje triangular dentro de un mismo exchange: ciclos
/// quote → BTC → ETH → quote con tres pares del mismo venue.
#[derive(Clone, Copy, Debug, PartialEq, Eq)]
pub struct EstrategiaTriangular;

impl EstrategiaTriangular {
    /// Nombre de la estrategia.
    pub fn nombre(&self) -> (r: &'static str)
        ensures
            r@ == "triangular"@,
    {
        "triangular"
    }

    /// Ternas de pares que cierran un ciclo triangular.
    pub fn pares_para_triangular() -> (r: Vec<(&'static str, &'static str, &'static str)>)
        ensures
            r@.len() == 2,
            r@[0].0@ == "BTC/USD"@ && r@[0].1@ == "ETH/BTC"@ && r@[0].2@ == "ETH/USD"@,
            r@[1].0@ == "BTC/USDT"@ && r@[1].1@ == "ETH/BTC"@ && r@[1].2@ == "ETH/USDT"@,
    {
        let mut v: Vec<(&'static str, &'static str, &'static str)> = Vec::new();
        v.push(("BTC/USD", "ETH/BTC", "ETH/USD"));
        v.push(("BTC/USDT", "ETH/BTC", "ETH/USDT"));
        v
    }
}

} // verus!

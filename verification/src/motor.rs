//! Utilidades del motor: carriles de quote por exchange, claves de
//! cotización, normalización de pares operativos y colas acotadas.

use vstd::prelude::*;
use std::collections::VecDeque;
use crate::mercado::normalizar_par;
use crate::texto::{iguales, unir};

verus! {

/// Escenarios controlados para demostrar robustez sin depender del mercado
/// real.
#[derive(Clone, Copy, Debug, PartialEq, Eq, Structural)]
pub enum EscenarioDemo {
    FalloOrden,
    FalloSegundaPierna,
    MercadoMovido,
    LiquidezInsuficiente,
    FillParcial,
    CircuitBreaker,
    Rebalanceo,
    MercadoRentable,
}

/// Exchanges que cotizan en USD; el resto opera en USDT.
pub open spec fn exchange_usd(nombre: Seq<char>) -> bool {
    nombre == "Coinbase"@ || nombre == "Kraken"@
}

/// Decide si el exchange cotiza en USD.
pub fn es_exchange_usd(nombre: &str) -> (r: bool)
    ensures
        r == exchange_usd(nombre@),
{
    iguales(nombre, "Coinbase") || iguales(nombre, "Kraken")
}

/// Carril de quote del exchange: `USD` o `USDT`.
pub fn quote_lane(nombre: &str) -> (r: &'static str)
    ensures
        r@ == (if exchange_usd(nombre@) { "USD"@ } else { "USDT"@ }),
{
    if es_exchange_usd(nombre) {
        "USD"
    } else {
        "USDT"
    }
}

/// Clave de una cotización: `exchange:par`.
pub fn clave_exchange(exchange: &str, par: &str) -> (r: String)
    ensures
        r@ == exchange@ + ":"@ + par@,
{
    let a = unir(exchange, ":");
    unir(a.as_str(), par)
}

/// Par operativo: `BASE/USD` si cotiza en USD o USDT (ver
/// [`crate::mercado::normalizar_par`]).
pub fn normalizar_par_operativo(par: &str) -> (r: String)
    ensures
        r@ == crate::mercado::par_normalizado(par@),
{
    normalizar_par(par)
}

/// Conserva los primeros `maximo` elementos.
pub fn limitar<T>(items: VecDeque<T>, maximo: usize) -> (r: VecDeque<T>)
    ensures
        r@ == (if items@.len() > maximo { items@.take(maximo as int) } else { items@ }),
{
    let mut items = items;
    if items.len() > maximo {
        items.truncate(maximo);
    }
    items
}

/// Conserva los últimos `maximo` elementos.
pub fn limitar_ultimos<T>(items: Vec<T>, maximo: usize) -> (r: Vec<T>)
    ensures
        r@ == (if items@.len() > maximo { items@.skip(items@.len() - maximo) } else { items@ }),
{
    let mut items = items;
    if items.len() > maximo {
        let quitar = items.len() - maximo;
        let ultimos = items.split_off(quitar);
        return ultimos;
    }
    items
}

/// Quita elementos del frente hasta que queden a lo sumo `maximo`.
pub fn truncar_primeros<T>(items: &mut VecDeque<T>, maximo: usize)
    ensures
        final(items)@ == (if old(items)@.len() > maximo {
            old(items)@.skip(old(items)@.len() - maximo)
        } else {
            old(items)@
        }),
{
    let ghost inicial = items@;
    while items.len() > maximo
        invariant
            items@ == inicial.skip(inicial.len() - items@.len()),
            items@.len() <= inicial.len(),
            inicial.len() > maximo ==> items@.len() >= maximo,
            inicial.len() <= maximo ==> items@ == inicial,
        decreases items@.len(),
    {
        let ghost antes = items@;
        items.pop_front();
        proof {
            assert(items@ =~= inicial.skip(inicial.len() - items@.len()));
        }
    }
    proof {
        if inicial.len() <= maximo {
            assert(inicial.skip(0) =~= inicial);
        }
    }
}

/// Una ruta compra en un exchange y vende en otro; si no se permite cruzar
/// USD con USDT, ambos deben estar en el mismo carril de quote.
pub open spec fn ruta_admitida(compra: Seq<char>, venta: Seq<char>, permitir_cruce: bool) -> bool {
    compra != venta && (permitir_cruce || exchange_usd(compra) == exchange_usd(venta))
}

/// Decide si se evalúa la ruta de `compra` a `venta`.
pub fn ruta_permitida(compra: &str, venta: &str, permitir_cruce: bool) -> (r: bool)
    ensures
        r == ruta_admitida(compra@, venta@, permitir_cruce),
{
    if iguales(compra, venta) {
        return false;
    }
    permitir_cruce || es_exchange_usd(compra) == es_exchange_usd(venta)
}

/// Sin cruce USD/USDT, toda ruta admitida queda dentro de un solo carril de
/// quote.
pub proof fn rutas_sin_cruce_quedan_en_un_carril(compra: Seq<char>, venta: Seq<char>)
    requires
        ruta_admitida(compra, venta, false),
    ensures
        exchange_usd(compra) == exchange_usd(venta),
        compra != venta,
{
}

/// Carteras simuladas del motor, una por exchange. La biblioteca guarda qué
/// exchanges tienen cartera; los saldos en coma flotante quedan fuera.
pub struct Carteras {
    exchanges: Vec<String>,
}

impl Carteras {
    /// Nombres de los exchanges con cartera, en el orden de creación.
    pub closed spec fn nombres(&self) -> Seq<Seq<char>> {
        crate::texto::vistas(self.exchanges@)
    }

    /// Una cartera por cada exchange de la lista.
    pub fn new(exchanges: &Vec<String>) -> (c: Carteras)
        ensures
            c.nombres() == crate::texto::vistas(exchanges@),
    {
        let mut v: Vec<String> = Vec::new();
        let mut i: usize = 0;
        while i < exchanges.len()
            invariant
                i <= exchanges@.len(),
                v@.len() == i,
                forall|k: int| 0 <= k < i ==> #[trigger] v@[k]@ == exchanges@[k]@,
            decreases exchanges@.len() - i,
        {
            v.push(crate::texto::copiar(&exchanges[i]));
            i = i + 1;
        }
        assert(crate::texto::vistas(v@) =~= crate::texto::vistas(exchanges@));
        Carteras { exchanges: v }
    }

    /// Si el exchange tiene cartera: su nombre coincide exactamente con el de
    /// alguna.
    pub fn tiene_balance(&self, exchange: &str) -> (r: bool)
        ensures
            r == self.nombres().contains(exchange@),
    {
        let mut i: usize = 0;
        while i < self.exchanges.len()
            invariant
                i <= self.exchanges@.len(),
                forall|j: int| 0 <= j < i ==> self.exchanges@[j]@ != exchange@,
            decreases self.exchanges@.len() - i,
        {
            if iguales(self.exchanges[i].as_str(), exchange) {
                assert(self.nombres()[i as int] == exchange@);
                return true;
            }
            i = i + 1;
        }
        assert forall|j: int| 0 <= j < self.nombres().len() implies self.nombres()[j] != exchange@ by {
            assert(self.nombres()[j] == self.exchanges@[j]@);
        }
        false
    }
}

} // verus!

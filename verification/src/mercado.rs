//! Estado incremental de un libro de órdenes público: niveles por lado en
//! unidades enteras de 1e-8, integridad de secuencias (exacta, monótona o
//! enlazada), checksum CRC32 de Kraken y normalización de pares y quotes.

use vstd::prelude::*;
use vstd::string::*;
use crate::libro::{poner, quitar};
use crate::texto::{caracteres, cadena, copiar, en_mayusculas, iguales, recortar, unir};

verus! {

/// Nivel de libro en unidades enteras: precio y cantidad por 1e8. `vigente`
/// es falso cuando la cantidad recibida no es positiva y finita, lo que borra
/// el nivel.
#[derive(Clone, Copy, Debug, PartialEq, Eq)]
pub struct NivelLibro {
    pub precio: i64,
    pub cantidad: i64,
    pub vigente: bool,
}

/// Estado del libro de un exchange.
#[derive(Debug)]
pub struct LibroEstado {
    pub par: String,
    /// Bids por precio creciente.
    pub bids: Vec<(i64, i64)>,
    /// Asks por precio creciente.
    pub asks: Vec<(i64, i64)>,
    pub ultima_secuencia: Option<u64>,
    pub integrity_status: String,
    pub resyncs: u64,
    pub requiere_snapshot: bool,
    pub timestamp_confiable: bool,
    pub checksum_failures: u64,
    pub sequence_gaps: u64,
    pub invalidada_desde_ms: Option<i64>,
    /// Textos de precio y cantidad de Kraken por nivel bid, para el checksum.
    pub kraken_bids_crc: Vec<(i64, (String, String))>,
    /// Textos de precio y cantidad de Kraken por nivel ask, para el checksum.
    pub kraken_asks_crc: Vec<(i64, (String, String))>,
}

/// Milisegundos Unix del reloj del sistema, de `chrono::Utc::now()`.
#[verifier::external_body]
fn ahora_ms() -> i64 {
    chrono::Utc::now().timestamp_millis()
}

/// `s` termina en `q` (la base puede quedar vacía).
pub open spec fn tiene_sufijo(s: Seq<char>, q: Seq<char>) -> bool {
    s.len() >= q.len() && s.subrange(s.len() - q.len(), s.len() as int) == q
}

/// El texto sin barras ni guiones.
pub open spec fn sin_separadores(s: Seq<char>) -> Seq<char>
    decreases s.len(),
{
    if s.len() == 0 {
        s
    } else {
        let p = sin_separadores(s.drop_last());
        if s.last() == '/' || s.last() == '-' {
            p
        } else {
            p.push(s.last())
        }
    }
}

/// Par normalizado a `BASE/USD` cuando el quote compacto es USDT o USD; si
/// no, el texto en mayúsculas ASCII tal cual.
pub open spec fn par_normalizado(par: Seq<char>) -> Seq<char> {
    let c = sin_separadores(crate::texto::mayusculas(crate::texto::recortado(par)));
    if tiene_sufijo(c, "USDT"@) {
        c.subrange(0, c.len() - 4) + "/USD"@
    } else if tiene_sufijo(c, "USD"@) {
        c.subrange(0, c.len() - 3) + "/USD"@
    } else {
        crate::texto::mayusculas(par)
    }
}

fn sufijo_en(v: &Vec<char>, q: &str) -> (r: bool)
    ensures
        r == tiene_sufijo(v@, q@),
{
    let w = caracteres(q);
    if v.len() < w.len() {
        return false;
    }
    let d = v.len() - w.len();
    let mut k: usize = d;
    while k < v.len()
        invariant
            w@ == q@,
            d == v@.len() - w@.len(),
            d <= k <= v@.len(),
            forall|j: int| d <= j < k ==> v@[j] == #[trigger] w@[j - d],
        decreases v@.len() - k,
    {
        if v[k] != w[k - d] {
            proof {
                assert(v@.subrange(d as int, v@.len() as int)[k - d] == v@[k as int]);
            }
            return false;
        }
        k = k + 1;
    }
    assert forall|j: int| 0 <= j < w@.len() implies v@.subrange(d as int, v@.len() as int)[j] == w@[j] by {
        assert(v@[d + j] == w@[(d + j) - d]);
    }
    assert(v@.subrange(d as int, v@.len() as int) =~= w@);
    true
}

fn prefijo_con_usd(v: &Vec<char>, n: usize) -> (r: String)
    requires
        n <= v@.len(),
    ensures
        r@ == v@.subrange(0, v@.len() - n) + "/USD"@,
{
    let mut out: Vec<char> = Vec::new();
    let fin = v.len() - n;
    let mut i: usize = 0;
    while i < fin
        invariant
            fin == v@.len() - n,
            i <= fin,
            out@ == v@.subrange(0, i as int),
        decreases fin - i,
    {
        out.push(v[i]);
        i = i + 1;
    }
    let base = cadena(&out);
    unir(base.as_str(), "/USD")
}

/// Normaliza un par a `BASE/USD` cuando cotiza en USD o USDT.
pub fn normalizar_par(par: &str) -> (r: String)
    ensures
        r@ == par_normalizado(par@),
{
    let t = recortar(par);
    let m = en_mayusculas(t.as_str());
    let c = caracteres(m.as_str());
    let mut compacto: Vec<char> = Vec::new();
    let mut i: usize = 0;
    while i < c.len()
        invariant
            i <= c@.len(),
            compacto@ == sin_separadores(c@.take(i as int)),
        decreases c@.len() - i,
    {
        proof {
            assert(c@.take(i + 1).drop_last() =~= c@.take(i as int));
        }
        if c[i] != '/' && c[i] != '-' {
            compacto.push(c[i]);
        }
        i = i + 1;
    }
    proof {
        assert(c@.take(c@.len() as int) =~= c@);
    }
    if sufijo_en(&compacto, "USDT") {
        proof {
            reveal_strlit("USDT");
        }
        prefijo_con_usd(&compacto, 4)
    } else if sufijo_en(&compacto, "USD") {
        proof {
            reveal_strlit("USD");
        }
        prefijo_con_usd(&compacto, 3)
    } else {
        en_mayusculas(par)
    }
}

/// Venues spot sin mercado en USD: allí USD se opera como USDT.
pub open spec fn venue_sin_usd(exchange: Seq<char>) -> bool {
    exchange == "Binance"@ || exchange == "OKX"@ || exchange == "Bybit"@ || exchange == "KuCoin"@
        || exchange == "Gate.io"@
}

/// Quote que usa cada exchange: USD pasa a USDT en los venues sin USD.
pub open spec fn quote_para(exchange: Seq<char>, quote: Seq<char>) -> Seq<char> {
    let q = crate::texto::mayusculas(quote);
    if q == "USD"@ {
        if venue_sin_usd(exchange) {
            "USDT"@
        } else {
            "USD"@
        }
    } else {
        q
    }
}

/// Mapea el quote según el exchange (USD → USDT en venues spot sin USD).
pub fn mapear_quote_exchange(exchange: &str, quote: &str) -> (r: String)
    ensures
        r@ == quote_para(exchange@, quote@),
{
    let q = en_mayusculas(quote);
    if iguales(q.as_str(), "USD") {
        if iguales(exchange, "Binance") || iguales(exchange, "OKX") || iguales(exchange, "Bybit")
            || iguales(exchange, "KuCoin") || iguales(exchange, "Gate.io") {
            String::from_str("USDT")
        } else {
            String::from_str("USD")
        }
    } else {
        q
    }
}

/// El texto tiene exactamente una barra, en la posición `k`.
pub open spec fn unica_barra(s: Seq<char>, k: int) -> bool {
    &&& 0 <= k < s.len()
    &&& s[k] == '/'
    &&& forall|j: int| 0 <= j < s.len() && j != k ==> s[j] != '/'
}

/// Base y quote de un par `BASE/QUOTE` (recortado, en mayúsculas); con otra
/// forma, `BTC` y `USD`.
pub open spec fn partes_de(par: Seq<char>, base: Seq<char>, quote: Seq<char>) -> bool {
    let s = crate::texto::mayusculas(crate::texto::recortado(par));
    if exists|k: int| unica_barra(s, k) {
        let k = choose|k: int| unica_barra(s, k);
        base == s.take(k) && quote == s.skip(k + 1)
    } else {
        base == "BTC"@ && quote == "USD"@
    }
}

/// Separa un par en base y quote.
pub fn partes_par(par: &str) -> (r: (String, String))
    ensures
        partes_de(par@, r.0@, r.1@),
{
    let t = recortar(par);
    let m = en_mayusculas(t.as_str());
    let c = caracteres(m.as_str());
    let mut barras: usize = 0;
    let mut pos: usize = 0;
    let mut i: usize = 0;
    while i < c.len()
        invariant
            i <= c@.len(),
            barras <= i,
            barras == 0 ==> forall|j: int| 0 <= j < i ==> c@[j] != '/',
            barras == 1 ==> pos < i && c@[pos as int] == '/' && forall|j: int| 0 <= j < i && j != pos ==> c@[j] != '/',
            barras >= 2 ==> exists|a: int, b: int| 0 <= a < b < i && c@[a] == '/' && c@[b] == '/',
        decreases c@.len() - i,
    {
        if c[i] == '/' {
            if barras == 0 {
                pos = i;
            } else if barras == 1 {
                proof {
                    assert(c@[pos as int] == '/' && c@[i as int] == '/');
                }
            }
            if barras < 2 {
                barras = barras + 1;
            }
        }
        i = i + 1;
    }
    if barras == 1 {
        let mut base: Vec<char> = Vec::new();
        let mut j: usize = 0;
        while j < pos
            invariant
                pos < c@.len(),
                j <= pos,
                base@ == c@.take(j as int),
            decreases pos - j,
        {
            base.push(c[j]);
            proof {
                assert(c@.take(j + 1) =~= c@.take(j as int).push(c@[j as int]));
            }
            j = j + 1;
        }
        let mut quote: Vec<char> = Vec::new();
        let mut k: usize = pos + 1;
        while k < c.len()
            invariant
                pos < c@.len(),
                pos + 1 <= k <= c@.len(),
                quote@ == c@.subrange(pos + 1, k as int),
            decreases c@.len() - k,
        {
            quote.push(c[k]);
            k = k + 1;
        }
        proof {
            assert(unica_barra(c@, pos as int));
            let kk = choose|kk: int| unica_barra(c@, kk);
            if kk != pos {
                assert(c@[kk] != '/');
            }
            assert(c@.subrange(pos + 1, c@.len() as int) =~= c@.skip(pos + 1));
        }
        (cadena(&base), cadena(&quote))
    } else {
        proof {
            reveal_strlit("BTC");
            reveal_strlit("USD");
            if exists|kk: int| unica_barra(c@, kk) {
                let kk = choose|kk: int| unica_barra(c@, kk);
                if barras >= 2 {
                    let (a, b) = choose|a: int, b: int| 0 <= a < b < i && c@[a] == '/' && c@[b] == '/';
                    assert(a == kk || b == kk);
                }
            }
        }
        (String::from_str("BTC"), String::from_str("USD"))
    }
}


/// Un lado del libro tras aplicar los niveles en orden: los de precio no
/// positivo se ignoran, los no vigentes borran su precio y el resto fija la
/// cantidad del precio.
pub open spec fn aplicar_niveles(m: Map<i64, i64>, n: Seq<NivelLibro>) -> Map<i64, i64>
    decreases n.len(),
{
    if n.len() == 0 {
        m
    } else {
        let p = aplicar_niveles(m, n.drop_last());
        let x = n.last();
        if x.precio <= 0 {
            p
        } else if !x.vigente {
            p.remove(x.precio)
        } else {
            p.insert(x.precio, x.cantidad)
        }
    }
}

fn actualizar_lado(lado: &mut Vec<(i64, i64)>, niveles: &Vec<NivelLibro>)
    requires
        crate::libro::precios_crecientes(old(lado)@),
    ensures
        crate::libro::precios_crecientes(final(lado)@),
        crate::libro::mapa(final(lado)@) == aplicar_niveles(crate::libro::mapa(old(lado)@), niveles@),
{
    let ghost m0 = crate::libro::mapa(lado@);
    let mut i: usize = 0;
    while i < niveles.len()
        invariant
            i <= niveles@.len(),
            crate::libro::precios_crecientes(lado@),
            crate::libro::mapa(lado@) == aplicar_niveles(m0, niveles@.take(i as int)),
        decreases niveles@.len() - i,
    {
        let nivel = niveles[i];
        proof {
            assert(niveles@.take(i + 1).drop_last() =~= niveles@.take(i as int));
            assert(niveles@.take(i + 1).last() == nivel);
        }
        if nivel.precio > 0 {
            if !nivel.vigente {
                quitar(lado, nivel.precio);
            } else {
                poner(lado, nivel.precio, nivel.cantidad);
            }
        }
        i = i + 1;
    }
    proof {
        assert(niveles@.take(niveles@.len() as int) =~= niveles@);
    }
}

/// Los cuatro lados (niveles y textos de Kraken) en orden estricto.
pub open spec fn libro_bien_formado(l: LibroEstado) -> bool {
    &&& crate::libro::precios_crecientes(l.bids@)
    &&& crate::libro::precios_crecientes(l.asks@)
    &&& crate::libro::precios_crecientes(l.kraken_bids_crc@)
    &&& crate::libro::precios_crecientes(l.kraken_asks_crc@)
}

/// Los mejores `max` niveles de asks: los de menor precio, crecientes.
pub open spec fn mejores_asks(asks: Seq<(i64, i64)>, max: int) -> Seq<(i64, i64)> {
    if max < asks.len() {
        asks.take(max)
    } else {
        asks
    }
}

/// Los mejores `max` niveles de bids: los de mayor precio, decrecientes.
pub open spec fn mejores_bids(bids: Seq<(i64, i64)>, max: int) -> Seq<(i64, i64)> {
    let n = if max < bids.len() {
        max
    } else {
        bids.len() as int
    };
    Seq::new(n as nat, |k: int| bids[bids.len() - 1 - k])
}

/// `b` sólo difiere de `a` en el estado de integridad y la última
/// secuencia.
pub open spec fn solo_secuencia(a: LibroEstado, b: LibroEstado) -> bool {
    b == (LibroEstado { integrity_status: b.integrity_status, ultima_secuencia: b.ultima_secuencia, ..a })
}

/// `b` es `a` invalidado por un gap de secuencia: cuenta un resync y un gap,
/// marca el instante, exige snapshot, olvida la secuencia y vacía el libro;
/// el par queda normalizado y el resto se conserva.
pub open spec fn invalidado_por_gap(a: LibroEstado, b: LibroEstado) -> bool {
    &&& b.integrity_status@ == "gap_requiere_snapshot"@
    &&& b.resyncs == a.resyncs + 1
    &&& b.sequence_gaps == a.sequence_gaps + 1
    &&& b.invalidada_desde_ms is Some
    &&& b.requiere_snapshot
    &&& b.ultima_secuencia is None
    &&& b.par@ == par_normalizado(a.par@)
    &&& b.bids@.len() == 0
    &&& b.asks@.len() == 0
    &&& b.kraken_bids_crc@.len() == 0
    &&& b.kraken_asks_crc@.len() == 0
    &&& b.checksum_failures == a.checksum_failures
    &&& b.timestamp_confiable == a.timestamp_confiable
}

/// Resultado de un delta con secuencia exactamente consecutiva sobre
/// `antes`: un salto invalida el libro; una secuencia repetida o anterior se
/// descarta.
pub open spec fn tras_exacto(antes: LibroEstado, secuencia: Option<u64>, despues: LibroEstado, r: bool) -> bool {
    &&& antes.requiere_snapshot ==> !r && solo_secuencia(antes, despues)
        && despues.integrity_status@ == "esperando_snapshot"@
        && despues.ultima_secuencia == antes.ultima_secuencia
    &&& !antes.requiere_snapshot ==> match (secuencia, antes.ultima_secuencia) {
        (None, _) => r && solo_secuencia(antes, despues)
            && despues.integrity_status@ == "secuencia_no_disponible"@
            && despues.ultima_secuencia == antes.ultima_secuencia,
        (Some(a), Some(p)) => if a <= p {
            !r && solo_secuencia(antes, despues)
                && despues.integrity_status@ == "fuera_de_orden"@
                && despues.ultima_secuencia == antes.ultima_secuencia
        } else if a as int != p + 1 && p < u64::MAX {
            !r && invalidado_por_gap(antes, despues)
        } else {
            r && solo_secuencia(antes, despues)
                && despues.ultima_secuencia == Some(a)
                && despues.integrity_status@ == "secuencia_continua"@
        },
        (Some(a), None) => r && solo_secuencia(antes, despues)
            && despues.ultima_secuencia == Some(a)
            && despues.integrity_status@ == "secuencia_continua"@,
    }
}

/// Resultado de un delta con secuencia monótona sobre `antes`: sólo cambian
/// el estado de integridad y la secuencia; se descarta si retrocede.
pub open spec fn tras_monotono(antes: LibroEstado, secuencia: Option<u64>, despues: LibroEstado, r: bool) -> bool {
    &&& solo_secuencia(antes, despues)
    &&& antes.requiere_snapshot ==> !r && despues.integrity_status@ == "esperando_snapshot"@
        && despues.ultima_secuencia == antes.ultima_secuencia
    &&& !antes.requiere_snapshot ==> match secuencia {
        None => r && despues.integrity_status@ == "secuencia_no_disponible"@
            && despues.ultima_secuencia == antes.ultima_secuencia,
        Some(a) => if antes.ultima_secuencia matches Some(p) && a < p {
            !r && despues.integrity_status@ == "fuera_de_orden"@
                && despues.ultima_secuencia == antes.ultima_secuencia
        } else {
            r && despues.ultima_secuencia == Some(a) && despues.integrity_status@ == "secuencia_monotona"@
        },
    }
}

/// Resultado de un delta enlazado a la secuencia previa sobre `antes`: si la
/// previa no coincide o la actual no avanza, el libro queda invalidado.
pub open spec fn tras_enlazado(
    antes: LibroEstado,
    secuencia: Option<u64>,
    previa: Option<u64>,
    despues: LibroEstado,
    r: bool,
) -> bool {
    &&& antes.requiere_snapshot ==> !r && solo_secuencia(antes, despues)
        && despues.integrity_status@ == "esperando_snapshot"@
        && despues.ultima_secuencia == antes.ultima_secuencia
    &&& !antes.requiere_snapshot ==> match (secuencia, previa) {
        (Some(a), Some(b)) => if antes.ultima_secuencia matches Some(p) && (b != p || a <= p) {
            !r && invalidado_por_gap(antes, despues)
        } else {
            r && solo_secuencia(antes, despues)
                && despues.ultima_secuencia == Some(a)
                && despues.integrity_status@ == "secuencia_enlazada"@
        },
        _ => r && solo_secuencia(antes, despues)
            && despues.integrity_status@ == "secuencia_no_disponible"@
            && despues.ultima_secuencia == antes.ultima_secuencia,
    }
}

impl LibroEstado {
    /// Libro vacío que espera un snapshot.
    pub fn new(par: &str) -> (l: LibroEstado)
        ensures
            libro_bien_formado(l),
            l.par@ == par_normalizado(par@),
            l.bids@.len() == 0,
            l.asks@.len() == 0,
            l.kraken_bids_crc@.len() == 0,
            l.kraken_asks_crc@.len() == 0,
            l.ultima_secuencia is None,
            l.integrity_status@ == "esperando_snapshot"@,
            l.resyncs == 0,
            l.requiere_snapshot,
            !l.timestamp_confiable,
            l.checksum_failures == 0,
            l.sequence_gaps == 0,
            l.invalidada_desde_ms is None,
    {
        LibroEstado {
            par: normalizar_par(par),
            bids: Vec::new(),
            asks: Vec::new(),
            ultima_secuencia: None,
            integrity_status: String::from_str("esperando_snapshot"),
            resyncs: 0,
            requiere_snapshot: true,
            timestamp_confiable: false,
            checksum_failures: 0,
            sequence_gaps: 0,
            invalidada_desde_ms: None,
            kraken_bids_crc: Vec::new(),
            kraken_asks_crc: Vec::new(),
        }
    }

    /// Vacía ambos lados y los textos de Kraken y fija el par normalizado.
    pub fn reset(&mut self, par: &str)
        ensures
            libro_bien_formado(*final(self)),
            final(self).par@ == par_normalizado(par@),
            final(self).bids@.len() == 0,
            final(self).asks@.len() == 0,
            final(self).kraken_bids_crc@.len() == 0,
            final(self).kraken_asks_crc@.len() == 0,
            *final(self) == (LibroEstado {
                par: final(self).par,
                bids: final(self).bids,
                asks: final(self).asks,
                kraken_bids_crc: final(self).kraken_bids_crc,
                kraken_asks_crc: final(self).kraken_asks_crc,
                ..*old(self)
            }),
    {
        self.par = normalizar_par(par);
        self.bids.clear();
        self.asks.clear();
        self.kraken_bids_crc.clear();
        self.kraken_asks_crc.clear();
    }

    /// Aplica niveles al lado bid.
    pub fn actualizar_bids(&mut self, niveles: &Vec<NivelLibro>)
        requires
            libro_bien_formado(*old(self)),
        ensures
            libro_bien_formado(*final(self)),
            crate::libro::mapa(final(self).bids@) == aplicar_niveles(crate::libro::mapa(old(self).bids@), niveles@),
            *final(self) == (LibroEstado { bids: final(self).bids, ..*old(self) }),
    {
        actualizar_lado(&mut self.bids, niveles);
    }

    /// Aplica niveles al lado ask.
    pub fn actualizar_asks(&mut self, niveles: &Vec<NivelLibro>)
        requires
            libro_bien_formado(*old(self)),
        ensures
            libro_bien_formado(*final(self)),
            crate::libro::mapa(final(self).asks@) == aplicar_niveles(crate::libro::mapa(old(self).asks@), niveles@),
            *final(self) == (LibroEstado { asks: final(self).asks, ..*old(self) }),
    {
        actualizar_lado(&mut self.asks, niveles);
    }

    /// Los mejores `max` bids, del mayor precio al menor.
    pub fn snapshot_bids(&self, max: usize) -> (r: Vec<(i64, i64)>)
        ensures
            r@ == mejores_bids(self.bids@, max as int),
    {
        let mut out: Vec<(i64, i64)> = Vec::new();
        let n = self.bids.len();
        let mut k: usize = 0;
        while k < max && k < n
            invariant
                n == self.bids@.len(),
                k <= n,
                k <= max,
                out@.len() == k,
                forall|j: int| 0 <= j < k ==> #[trigger] out@[j] == self.bids@[n - 1 - j],
            decreases n - k,
        {
            out.push(self.bids[n - 1 - k]);
            k = k + 1;
        }
        assert(out@ =~= mejores_bids(self.bids@, max as int));
        out
    }

    /// Los mejores `max` asks, del menor precio al mayor.
    pub fn snapshot_asks(&self, max: usize) -> (r: Vec<(i64, i64)>)
        ensures
            r@ == mejores_asks(self.asks@, max as int),
    {
        let mut out: Vec<(i64, i64)> = Vec::new();
        let mut k: usize = 0;
        while k < max && k < self.asks.len()
            invariant
                k <= self.asks@.len(),
                k <= max,
                out@ == self.asks@.take(k as int),
            decreases self.asks@.len() - k,
        {
            out.push(self.asks[k]);
            proof {
                assert(self.asks@.take(k + 1) =~= self.asks@.take(k as int).push(self.asks@[k as int]));
            }
            k = k + 1;
        }
        proof {
            if max >= self.asks@.len() {
                assert(self.asks@.take(self.asks@.len() as int) =~= self.asks@);
            }
        }
        out
    }

    /// Registra un snapshot completo: fija la secuencia y deja de exigir
    /// snapshot.
    pub fn registrar_snapshot(&mut self, secuencia: Option<u64>, integrity_status: &str, timestamp_confiable: bool)
        ensures
            final(self).ultima_secuencia == secuencia,
            final(self).integrity_status@ == integrity_status@,
            !final(self).requiere_snapshot,
            final(self).timestamp_confiable == timestamp_confiable,
            final(self).invalidada_desde_ms is None,
            final(self).bids == old(self).bids,
            final(self).asks == old(self).asks,
            final(self).par == old(self).par,
            final(self).resyncs == old(self).resyncs,
            final(self).sequence_gaps == old(self).sequence_gaps,
            final(self).checksum_failures == old(self).checksum_failures,
            final(self).kraken_bids_crc == old(self).kraken_bids_crc,
            final(self).kraken_asks_crc == old(self).kraken_asks_crc,
    {
        self.ultima_secuencia = secuencia;
        self.integrity_status = String::from_str(integrity_status);
        self.requiere_snapshot = false;
        self.timestamp_confiable = timestamp_confiable;
        self.invalidada_desde_ms = None;
    }

    /// Marca un gap: cuenta resync y gap, invalida desde ahora, exige snapshot
    /// y vacía el libro.
    fn invalidar_por_gap(&mut self)
        requires
            old(self).resyncs < u64::MAX,
            old(self).sequence_gaps < u64::MAX,
        ensures
            libro_bien_formado(*final(self)),
            final(self).resyncs == old(self).resyncs + 1,
            final(self).sequence_gaps == old(self).sequence_gaps + 1,
            final(self).invalidada_desde_ms is Some,
            final(self).requiere_snapshot,
            final(self).integrity_status@ == "gap_requiere_snapshot"@,
            final(self).par@ == par_normalizado(old(self).par@),
            final(self).bids@.len() == 0,
            final(self).asks@.len() == 0,
            final(self).kraken_bids_crc@.len() == 0,
            final(self).kraken_asks_crc@.len() == 0,
            final(self).ultima_secuencia is None,
            final(self).checksum_failures == old(self).checksum_failures,
            final(self).timestamp_confiable == old(self).timestamp_confiable,
    {
        self.resyncs = self.resyncs + 1;
        self.sequence_gaps = self.sequence_gaps + 1;
        self.invalidada_desde_ms = Some(ahora_ms());
        self.requiere_snapshot = true;
        self.integrity_status = String::from_str("gap_requiere_snapshot");
        let par = copiar(&self.par);
        self.reset(par.as_str());
        self.ultima_secuencia = None;
    }

    /// Delta con secuencia exactamente consecutiva: un salto invalida el libro
    /// y exige snapshot; una secuencia repetida o anterior se descarta.
    pub fn registrar_incremental_exacto(&mut self, secuencia: Option<u64>) -> (r: bool)
        requires
            old(self).resyncs < u64::MAX,
            old(self).sequence_gaps < u64::MAX,
        ensures
            tras_exacto(*old(self), secuencia, *final(self), r),
            libro_bien_formado(*old(self)) ==> libro_bien_formado(*final(self)),
    {
        if self.requiere_snapshot {
            self.integrity_status = String::from_str("esperando_snapshot");
            return false;
        }
        let actual = match secuencia {
            Some(a) => a,
            None => {
                self.integrity_status = String::from_str("secuencia_no_disponible");
                return true;
            },
        };
        if let Some(anterior) = self.ultima_secuencia {
            if actual <= anterior {
                self.integrity_status = String::from_str("fuera_de_orden");
                return false;
            }
            if actual != anterior.saturating_add(1) {
                self.invalidar_por_gap();
                return false;
            }
        }
        self.ultima_secuencia = Some(actual);
        self.integrity_status = String::from_str("secuencia_continua");
        true
    }

    /// Delta con secuencia monótona: se descarta si retrocede.
    pub fn registrar_incremental_monotono(&mut self, secuencia: Option<u64>) -> (r: bool)
        ensures
            tras_monotono(*old(self), secuencia, *final(self), r),
            libro_bien_formado(*old(self)) ==> libro_bien_formado(*final(self)),
    {
        if self.requiere_snapshot {
            self.integrity_status = String::from_str("esperando_snapshot");
            return false;
        }
        let actual = match secuencia {
            Some(a) => a,
            None => {
                self.integrity_status = String::from_str("secuencia_no_disponible");
                return true;
            },
        };
        let atrasada = match self.ultima_secuencia {
            Some(anterior) => actual < anterior,
            None => false,
        };
        if atrasada {
            self.integrity_status = String::from_str("fuera_de_orden");
            return false;
        }
        self.ultima_secuencia = Some(actual);
        self.integrity_status = String::from_str("secuencia_monotona");
        true
    }

    /// Delta enlazado a la secuencia previa: si la previa no coincide o la
    /// actual no avanza, el libro se invalida y exige snapshot.
    pub fn registrar_incremental_enlazado(&mut self, secuencia: Option<u64>, previa: Option<u64>) -> (r: bool)
        requires
            old(self).resyncs < u64::MAX,
            old(self).sequence_gaps < u64::MAX,
        ensures
            tras_enlazado(*old(self), secuencia, previa, *final(self), r),
            libro_bien_formado(*old(self)) ==> libro_bien_formado(*final(self)),
    {
        if self.requiere_snapshot {
            self.integrity_status = String::from_str("esperando_snapshot");
            return false;
        }
        let (actual, prev) = match (secuencia, previa) {
            (Some(a), Some(b)) => (a, b),
            _ => {
                self.integrity_status = String::from_str("secuencia_no_disponible");
                return true;
            },
        };
        let roto = match self.ultima_secuencia {
            Some(anterior) => prev != anterior || actual <= anterior,
            None => false,
        };
        if roto {
            self.invalidar_por_gap();
            return false;
        }
        self.ultima_secuencia = Some(actual);
        self.integrity_status = String::from_str("secuencia_enlazada");
        true
    }
}


/// Un bit del registro CRC-32 reflejado, con el polinomio IEEE 0xEDB88320.
pub open spec fn crc_bit(c: u32) -> u32 {
    if c & 1u32 == 1u32 {
        (c >> 1u32) ^ 0xEDB8_8320u32
    } else {
        c >> 1u32
    }
}

/// `k` bits del registro.
pub open spec fn crc_bits(c: u32, k: nat) -> u32
    decreases k,
{
    if k == 0 {
        c
    } else {
        crc_bits(crc_bit(c), (k - 1) as nat)
    }
}

/// Registro tras los bytes: parte de 0xFFFFFFFF y cada byte entra por los
/// bits bajos y recorre ocho bits.
pub open spec fn crc_registro(bytes: Seq<u8>) -> u32
    decreases bytes.len(),
{
    if bytes.len() == 0 {
        0xFFFF_FFFFu32
    } else {
        crc_bits(crc_registro(bytes.drop_last()) ^ (bytes.last() as u32), 8)
    }
}

/// CRC-32 IEEE de una secuencia de bytes (la variante de zlib, Ethernet y
/// PNG): el registro final invertido.
pub open spec fn crc32_ieee(bytes: Seq<u8>) -> u32 {
    crc_registro(bytes) ^ 0xFFFF_FFFFu32
}

/// `crc32fast::hash`: el CRC-32 IEEE de los bytes, que el contrato da por
/// su definición bit a bit.
#[verifier::external_body]
fn crc32(bytes: &[u8]) -> (r: u32)
    ensures
        r == crc32_ieee(bytes@),
{
    crc32fast::hash(bytes)
}

/// El texto sin puntos.
pub open spec fn sin_puntos(s: Seq<char>) -> Seq<char>
    decreases s.len(),
{
    if s.len() == 0 {
        s
    } else if s.last() == '.' {
        sin_puntos(s.drop_last())
    } else {
        sin_puntos(s.drop_last()).push(s.last())
    }
}

/// El texto sin los ceros iniciales.
pub open spec fn sin_ceros_iniciales(s: Seq<char>) -> Seq<char>
    decreases s.len(),
{
    if s.len() > 0 && s[0] == '0' {
        sin_ceros_iniciales(s.drop_first())
    } else {
        s
    }
}

/// Forma de un número en el checksum de Kraken: sin punto decimal ni ceros
/// iniciales (`0` si no queda nada); `None` si no es un decimal sin signo
/// ni exponente.
pub open spec fn numero_crc(v: Seq<char>) -> Option<Seq<char>> {
    let c = sin_puntos(v);
    if c.len() == 0 || !crate::texto::solo_digitos(c) {
        None
    } else {
        let z = sin_ceros_iniciales(c);
        Some(if z.len() == 0 { "0"@ } else { z })
    }
}

proof fn lema_sin_ceros(s: Seq<char>, i: int)
    requires
        0 <= i <= s.len(),
        forall|k: int| 0 <= k < i ==> #[trigger] s[k] == '0',
    ensures
        sin_ceros_iniciales(s) == sin_ceros_iniciales(s.skip(i)),
    decreases i,
{
    if i > 0 {
        assert(s.drop_first().skip(i - 1) =~= s.skip(i));
        lema_sin_ceros(s.drop_first(), i - 1);
    } else {
        assert(s.skip(0) =~= s);
    }
}

/// Normaliza un número para el checksum de Kraken (`0.00100000` → `100000`).
pub fn kraken_crc_num(value: &str) -> (r: Option<String>)
    ensures
        match numero_crc(value@) {
            Some(x) => r is Some && r->0@ == x,
            None => r is None,
        },
{
    let v = caracteres(value);
    let mut c: Vec<char> = Vec::new();
    let mut digitos = true;
    let mut i: usize = 0;
    while i < v.len()
        invariant
            v@ == value@,
            i <= v@.len(),
            c@ == sin_puntos(v@.take(i as int)),
            digitos == crate::texto::solo_digitos(c@),
        decreases v@.len() - i,
    {
        proof {
            assert(v@.take(i + 1).drop_last() =~= v@.take(i as int));
        }
        if v[i] != '.' {
            let ghost antes = c@;
            c.push(v[i]);
            digitos = digitos && '0' <= v[i] && v[i] <= '9';
            proof {
                if crate::texto::solo_digitos(c@) {
                    assert forall|k: int| 0 <= k < antes.len() implies crate::texto::es_digito(#[trigger] antes[k]) by {
                        assert(c@[k] == antes[k]);
                    }
                    assert(c@[c@.len() - 1] == v@[i as int]);
                }
                if digitos {
                    assert forall|k: int| 0 <= k < c@.len() implies crate::texto::es_digito(#[trigger] c@[k]) by {
                        if k < antes.len() {
                            assert(c@[k] == antes[k]);
                        }
                    }
                }
            }
        }
        i = i + 1;
    }
    proof {
        assert(v@.take(v@.len() as int) =~= v@);
    }
    if c.len() == 0 || !digitos {
        return None;
    }
    let mut j: usize = 0;
    while j < c.len() && c[j] == '0'
        invariant
            j <= c@.len(),
            forall|k: int| 0 <= k < j ==> #[trigger] c@[k] == '0',
        decreases c@.len() - j,
    {
        j = j + 1;
    }
    proof {
        lema_sin_ceros(c@, j as int);
    }
    if j == c.len() {
        proof {
            reveal_strlit("0");
            assert(c@.skip(j as int) =~= Seq::<char>::empty());
        }
        return Some(String::from_str("0"));
    }
    let mut z: Vec<char> = Vec::new();
    let mut k: usize = j;
    while k < c.len()
        invariant
            j <= k <= c@.len(),
            z@ == c@.subrange(j as int, k as int),
        decreases c@.len() - k,
    {
        z.push(c[k]);
        k = k + 1;
    }
    proof {
        assert(z@ =~= c@.skip(j as int));
    }
    Some(cadena(&z))
}

/// Concatenación de los textos de precio y cantidad de los niveles.
pub open spec fn texto_niveles(v: Seq<(i64, (String, String))>) -> Seq<char>
    decreases v.len(),
{
    if v.len() == 0 {
        Seq::empty()
    } else {
        texto_niveles(v.drop_last()) + v.last().1.0@ + v.last().1.1@
    }
}

/// Entrada del checksum de Kraken: los diez mejores asks de menor a mayor y
/// luego los diez mejores bids de mayor a menor.
pub open spec fn entrada_checksum(asks: Seq<(i64, (String, String))>, bids: Seq<(i64, (String, String))>) -> Seq<char> {
    let a = if asks.len() > 10 { asks.take(10) } else { asks };
    let n: int = if bids.len() > 10 { 10 } else { bids.len() as int };
    let b = Seq::new(n as nat, |k: int| bids[bids.len() - 1 - k]);
    texto_niveles(a) + texto_niveles(b)
}

impl LibroEstado {
    /// Fija o borra el texto de checksum de Kraken de un nivel.
    pub fn poner_crc_kraken(&mut self, es_bid: bool, precio: i64, textos: Option<(String, String)>)
        requires
            libro_bien_formado(*old(self)),
        ensures
            libro_bien_formado(*final(self)),
            es_bid ==> final(self).kraken_asks_crc == old(self).kraken_asks_crc && crate::libro::mapa(final(self).kraken_bids_crc@) == match textos {
                Some(t) => crate::libro::mapa(old(self).kraken_bids_crc@).insert(precio, t),
                None => crate::libro::mapa(old(self).kraken_bids_crc@).remove(precio),
            },
            !es_bid ==> final(self).kraken_bids_crc == old(self).kraken_bids_crc && crate::libro::mapa(final(self).kraken_asks_crc@) == match textos {
                Some(t) => crate::libro::mapa(old(self).kraken_asks_crc@).insert(precio, t),
                None => crate::libro::mapa(old(self).kraken_asks_crc@).remove(precio),
            },
            *final(self) == (LibroEstado {
                kraken_bids_crc: final(self).kraken_bids_crc,
                kraken_asks_crc: final(self).kraken_asks_crc,
                ..*old(self)
            }),
    {
        match textos {
            Some(t) => {
                if es_bid {
                    poner(&mut self.kraken_bids_crc, precio, t);
                } else {
                    poner(&mut self.kraken_asks_crc, precio, t);
                }
            },
            None => {
                if es_bid {
                    quitar(&mut self.kraken_bids_crc, precio);
                } else {
                    quitar(&mut self.kraken_asks_crc, precio);
                }
            },
        }
    }

    /// Texto sobre el que Kraken calcula el checksum del libro.
    pub fn entrada_checksum_kraken(&self) -> (r: String)
        ensures
            r@ == entrada_checksum(self.kraken_asks_crc@, self.kraken_bids_crc@),
    {
        let mut entrada = String::new();
        let na: usize = if self.kraken_asks_crc.len() > 10 { 10 } else { self.kraken_asks_crc.len() };
        let ghost a = if self.kraken_asks_crc@.len() > 10 { self.kraken_asks_crc@.take(10) } else { self.kraken_asks_crc@ };
        let mut i: usize = 0;
        while i < na
            invariant
                na as int == a.len(),
                a == (if self.kraken_asks_crc@.len() > 10 { self.kraken_asks_crc@.take(10) } else { self.kraken_asks_crc@ }),
                i <= na,
                entrada@ == texto_niveles(a.take(i as int)),
            decreases na - i,
        {
            let nivel = &self.kraken_asks_crc[i];
            proof {
                assert(a.take(i + 1).drop_last() =~= a.take(i as int));
                assert(a.take(i + 1).last() == a[i as int]);
                assert(a[i as int] == self.kraken_asks_crc@[i as int]);
            }
            let e1 = unir(entrada.as_str(), nivel.1.0.as_str());
            entrada = unir(e1.as_str(), nivel.1.1.as_str());
            i = i + 1;
        }
        proof {
            assert(a.take(na as int) =~= a);
        }
        let n = self.kraken_bids_crc.len();
        let nb: usize = if n > 10 { 10 } else { n };
        let ghost b = Seq::new(nb as nat, |k: int| self.kraken_bids_crc@[n - 1 - k]);
        let mut parte = String::new();
        let mut j: usize = 0;
        while j < nb
            invariant
                n == self.kraken_bids_crc@.len(),
                nb <= n,
                nb as int == b.len(),
                b == Seq::new(nb as nat, |k: int| self.kraken_bids_crc@[n - 1 - k]),
                j <= nb,
                parte@ == texto_niveles(b.take(j as int)),
            decreases nb - j,
        {
            let nivel = &self.kraken_bids_crc[n - 1 - j];
            proof {
                assert(b.take(j + 1).drop_last() =~= b.take(j as int));
                assert(b.take(j + 1).last() == b[j as int]);
            }
            let e1 = unir(parte.as_str(), nivel.1.0.as_str());
            parte = unir(e1.as_str(), nivel.1.1.as_str());
            j = j + 1;
        }
        proof {
            assert(b.take(nb as int) =~= b);
        }
        unir(entrada.as_str(), parte.as_str())
    }

    /// Valida el checksum CRC32 de Kraken; si no coincide cuenta el fallo y
    /// el resync, invalida el libro y exige snapshot.
    pub fn validar_checksum_kraken(&mut self, esperado: u32) -> (r: bool)
        requires
            libro_bien_formado(*old(self)),
            old(self).checksum_failures < u64::MAX,
            old(self).resyncs < u64::MAX,
        ensures
            libro_bien_formado(*final(self)),
            r == (crc32_ieee(vstd::utf8::encode_utf8(entrada_checksum(old(self).kraken_asks_crc@, old(self).kraken_bids_crc@))) == esperado),
            r ==> {
                &&& final(self).integrity_status@ == "checksum_crc32_ok"@
                &&& *final(self) == (LibroEstado { integrity_status: final(self).integrity_status, ..*old(self) })
            },
            !r ==> {
                &&& final(self).integrity_status@ == "checksum_crc32_fallido_requiere_snapshot"@
                &&& final(self).checksum_failures == old(self).checksum_failures + 1
                &&& final(self).resyncs == old(self).resyncs + 1
                &&& final(self).requiere_snapshot
                &&& final(self).invalidada_desde_ms is Some
                &&& final(self).par@ == par_normalizado(old(self).par@)
                &&& final(self).bids@.len() == 0
                &&& final(self).asks@.len() == 0
                &&& final(self).kraken_bids_crc@.len() == 0
                &&& final(self).kraken_asks_crc@.len() == 0
                &&& final(self).ultima_secuencia == old(self).ultima_secuencia
                &&& final(self).sequence_gaps == old(self).sequence_gaps
                &&& final(self).timestamp_confiable == old(self).timestamp_confiable
            },
    {
        let entrada = self.entrada_checksum_kraken();
        let calculado = crc32(entrada.as_str().as_bytes());
        if calculado == esperado {
            self.integrity_status = String::from_str("checksum_crc32_ok");
            true
        } else {
            self.checksum_failures = self.checksum_failures + 1;
            self.resyncs = self.resyncs + 1;
            self.invalidada_desde_ms = Some(ahora_ms());
            self.requiere_snapshot = true;
            self.integrity_status = String::from_str("checksum_crc32_fallido_requiere_snapshot");
            let par = copiar(&self.par);
            self.reset(par.as_str());
            false
        }
    }

    /// Cabecera de un mensaje de libro con secuencia (Bybit: monótona; OKX:
    /// enlazada a la previa). Un snapshot vacía el libro, fija el par y
    /// registra su secuencia; un delta fija el par y se acepta o descarta
    /// según la secuencia. Devuelve si el resto del mensaje debe aplicarse.
    pub fn abrir_mensaje_secuenciado(
        &mut self,
        es_snapshot: bool,
        par: &str,
        secuencia: Option<u64>,
        previa: Option<u64>,
        enlazado: bool,
    ) -> (r: bool)
        requires
            libro_bien_formado(*old(self)),
            old(self).resyncs < u64::MAX,
            old(self).sequence_gaps < u64::MAX,
        ensures
            libro_bien_formado(*final(self)),
            es_snapshot ==> {
                &&& r
                &&& final(self).par@ == par_normalizado(par@)
                &&& final(self).bids@.len() == 0
                &&& final(self).asks@.len() == 0
                &&& final(self).kraken_bids_crc@.len() == 0
                &&& final(self).kraken_asks_crc@.len() == 0
                &&& final(self).ultima_secuencia == secuencia
                &&& final(self).integrity_status@ == "snapshot_seq"@
                &&& !final(self).requiere_snapshot
                &&& final(self).timestamp_confiable
                &&& final(self).invalidada_desde_ms is None
                &&& final(self).resyncs == old(self).resyncs
                &&& final(self).sequence_gaps == old(self).sequence_gaps
                &&& final(self).checksum_failures == old(self).checksum_failures
            },
            !es_snapshot ==> exists|m: LibroEstado|
                #![trigger tras_enlazado(m, secuencia, previa, *final(self), r)]
                #![trigger tras_monotono(m, secuencia, *final(self), r)]
                {
                    &&& m == (LibroEstado { par: m.par, ..*old(self) })
                    &&& m.par@ == par_normalizado(par@)
                    &&& if enlazado {
                        tras_enlazado(m, secuencia, previa, *final(self), r)
                    } else {
                        tras_monotono(m, secuencia, *final(self), r)
                    }
                },
    {
        if es_snapshot {
            self.reset(par);
            self.registrar_snapshot(secuencia, "snapshot_seq", true);
            true
        } else {
            self.par = normalizar_par(par);
            let ghost m = *self;
            let r = if enlazado {
                self.registrar_incremental_enlazado(secuencia, previa)
            } else {
                self.registrar_incremental_monotono(secuencia)
            };
            proof {
                assert(m == (LibroEstado { par: m.par, ..*old(self) }));
                if enlazado {
                    assert(tras_enlazado(m, secuencia, previa, *self, r));
                } else {
                    assert(tras_monotono(m, secuencia, *self, r));
                }
            }
            r
        }
    }

    /// Cabecera de un mensaje `book` de Kraken. Un snapshot vacía el libro,
    /// fija el par y deja el checksum pendiente; un delta sólo se aplica si no
    /// se espera snapshot, y entonces fija el par y marca el timestamp como
    /// confiable. Devuelve si el resto del mensaje debe aplicarse.
    pub fn abrir_mensaje_kraken(&mut self, es_snapshot: bool, par: &str) -> (r: bool)
        requires
            libro_bien_formado(*old(self)),
        ensures
            libro_bien_formado(*final(self)),
            r == (es_snapshot || !old(self).requiere_snapshot),
            es_snapshot ==> {
                &&& final(self).par@ == par_normalizado(par@)
                &&& final(self).bids@.len() == 0
                &&& final(self).asks@.len() == 0
                &&& final(self).kraken_bids_crc@.len() == 0
                &&& final(self).kraken_asks_crc@.len() == 0
                &&& final(self).ultima_secuencia is None
                &&& final(self).integrity_status@ == "checksum_pendiente"@
                &&& !final(self).requiere_snapshot
                &&& final(self).timestamp_confiable
                &&& final(self).invalidada_desde_ms is None
                &&& final(self).resyncs == old(self).resyncs
                &&& final(self).sequence_gaps == old(self).sequence_gaps
                &&& final(self).checksum_failures == old(self).checksum_failures
            },
            !es_snapshot && old(self).requiere_snapshot ==> *final(self) == (LibroEstado {
                integrity_status: final(self).integrity_status,
                ..*old(self)
            }) && final(self).integrity_status@ == "esperando_snapshot"@,
            !es_snapshot && !old(self).requiere_snapshot ==> *final(self) == (LibroEstado {
                par: final(self).par,
                timestamp_confiable: true,
                ..*old(self)
            }) && final(self).par@ == par_normalizado(par@),
    {
        if es_snapshot {
            self.reset(par);
            self.registrar_snapshot(None, "checksum_pendiente", true);
            true
        } else if self.requiere_snapshot {
            self.integrity_status = String::from_str("esperando_snapshot");
            false
        } else {
            self.par = normalizar_par(par);
            self.timestamp_confiable = true;
            true
        }
    }

    /// Cierre de un mensaje `book` de Kraken: con checksum lo valida (sus 32
    /// bits bajos); sin checksum cuenta el fallo y el resync, invalida el
    /// libro y exige snapshot. Devuelve si el libro quedó validado.
    pub fn verificar_checksum_kraken(&mut self, checksum: Option<u64>) -> (r: bool)
        requires
            libro_bien_formado(*old(self)),
            old(self).checksum_failures < u64::MAX,
            old(self).resyncs < u64::MAX,
        ensures
            libro_bien_formado(*final(self)),
            r == match checksum {
                Some(c) => crc32_ieee(vstd::utf8::encode_utf8(entrada_checksum(old(self).kraken_asks_crc@, old(self).kraken_bids_crc@))) == c as u32,
                None => false,
            },
            r ==> {
                &&& final(self).integrity_status@ == "checksum_crc32_ok"@
                &&& *final(self) == (LibroEstado { integrity_status: final(self).integrity_status, ..*old(self) })
            },
            !r ==> {
                &&& final(self).integrity_status@ == (if checksum is Some {
                    "checksum_crc32_fallido_requiere_snapshot"@
                } else {
                    "checksum_ausente_requiere_snapshot"@
                })
                &&& final(self).checksum_failures == old(self).checksum_failures + 1
                &&& final(self).resyncs == old(self).resyncs + 1
                &&& final(self).requiere_snapshot
                &&& final(self).invalidada_desde_ms is Some
                &&& final(self).par@ == par_normalizado(old(self).par@)
                &&& final(self).bids@.len() == 0
                &&& final(self).asks@.len() == 0
                &&& final(self).kraken_bids_crc@.len() == 0
                &&& final(self).kraken_asks_crc@.len() == 0
                &&& final(self).ultima_secuencia == old(self).ultima_secuencia
                &&& final(self).sequence_gaps == old(self).sequence_gaps
                &&& final(self).timestamp_confiable == old(self).timestamp_confiable
            },
    {
        match checksum {
            Some(c) => self.validar_checksum_kraken(c as u32),
            None => {
                self.checksum_failures = self.checksum_failures + 1;
                self.resyncs = self.resyncs + 1;
                self.invalidada_desde_ms = Some(ahora_ms());
                self.requiere_snapshot = true;
                self.integrity_status = String::from_str("checksum_ausente_requiere_snapshot");
                let par = copiar(&self.par);
                self.reset(par.as_str());
                false
            },
        }
    }
}


/// Rutas de un feed público: nombre del venue, par normalizado, URL del
/// websocket, símbolo que se suscribe (si el venue recibe suscripción) y URL
/// del snapshot REST.
#[derive(Clone, Debug)]
pub struct RutasAdaptador {
    pub nombre: &'static str,
    pub par: String,
    pub ws_url: String,
    pub simbolo_suscripcion: Option<String>,
    pub rest_url: String,
}

fn juntar(partes: &Vec<&str>) -> (r: String)
    ensures
        r@ == juntar_spec(partes@),
{
    let mut out = String::new();
    let mut i: usize = 0;
    while i < partes.len()
        invariant
            i <= partes@.len(),
            out@ == juntar_spec(partes@.take(i as int)),
        decreases partes@.len() - i,
    {
        proof {
            assert(partes@.take(i + 1).drop_last() =~= partes@.take(i as int));
        }
        out = unir(out.as_str(), partes[i]);
        i = i + 1;
    }
    proof {
        assert(partes@.take(partes@.len() as int) =~= partes@);
    }
    out
}

/// Concatenación de varios textos.
pub open spec fn juntar_spec(p: Seq<&str>) -> Seq<char>
    decreases p.len(),
{
    if p.len() == 0 {
        Seq::empty()
    } else {
        juntar_spec(p.drop_last()) + p.last()@
    }
}

/// Rutas de un venue cuyo símbolo se arma con `base`, un separador y el quote
/// propio del venue.
pub open spec fn simbolo_venue(base: Seq<char>, sep: Seq<char>, exchange: Seq<char>, quote: Seq<char>) -> Seq<char> {
    base + sep + quote_para(exchange, quote)
}

/// Las rutas de los doce feeds públicos para un par, en orden fijo: Binance,
/// Kraken, Coinbase, OKX, Bybit, Bitfinex, KuCoin, Gate.io, Bitstamp, Gemini,
/// Jupiter y Raydium. Cada venue usa el quote que opera (USD → USDT en los
/// venues sin USD); Binance y Bitstamp llevan su símbolo en minúsculas
/// (`bn_min`, `bs_min`).
pub open spec fn rutas_esperadas(
    par: Seq<char>,
    base: Seq<char>,
    quote: Seq<char>,
    bn_min: Seq<char>,
    bs_min: Seq<char>,
    r: Seq<RutasAdaptador>,
) -> bool {
    let pn = par_normalizado(par);
    let bn = simbolo_venue(base, ""@, "Binance"@, quote);
    let kr = simbolo_venue(base, "/"@, "Kraken"@, quote);
    let krp = simbolo_venue(base, ""@, "Kraken"@, quote);
    let cb = simbolo_venue(base, "-"@, "Coinbase"@, quote);
    let ok = simbolo_venue(base, "-"@, "OKX"@, quote);
    let by = simbolo_venue(base, ""@, "Bybit"@, quote);
    let bf = "t"@ + simbolo_venue(base, ""@, "Bitfinex"@, quote);
    let ku = simbolo_venue(base, "-"@, "KuCoin"@, quote);
    let gt = simbolo_venue(base, "-"@, "Gate.io"@, quote);
    let bs = simbolo_venue(base, "-"@, "Bitstamp"@, quote);
    let gm = simbolo_venue(base, "-"@, "Gemini"@, quote);
    &&& r.len() == 12
    &&& forall|k: int| 0 <= k < 12 ==> (#[trigger] r[k]).par@ == pn
    &&& r[0].nombre@ == "Binance"@
    &&& r[0].ws_url@ == "wss://data-stream.binance.vision/ws/"@ + bn_min + "@depth10@100ms"@
    &&& r[0].simbolo_suscripcion is None
    &&& r[0].rest_url@ == "https://api.binance.com/api/v3/depth?symbol="@ + bn + "&limit=10"@
    &&& r[1].nombre@ == "Kraken"@
    &&& r[1].ws_url@ == "wss://ws.kraken.com/v2"@
    &&& r[1].simbolo_suscripcion matches Some(x) && x@ == kr
    &&& r[1].rest_url@ == "https://api.kraken.com/0/public/Depth?pair="@ + krp + "&count=10"@
    &&& r[2].nombre@ == "Coinbase"@
    &&& r[2].ws_url@ == "wss://advanced-trade-ws.coinbase.com"@
    &&& r[2].simbolo_suscripcion matches Some(x) && x@ == cb
    &&& r[2].rest_url@ == "https://api.exchange.coinbase.com/products/"@ + cb + "/book?level=2"@
    &&& r[3].nombre@ == "OKX"@
    &&& r[3].ws_url@ == "wss://ws.okx.com:8443/ws/v5/public"@
    &&& r[3].simbolo_suscripcion matches Some(x) && x@ == ok
    &&& r[3].rest_url@ == "https://www.okx.com/api/v5/market/books?instId="@ + ok + "&sz=10"@
    &&& r[4].nombre@ == "Bybit"@
    &&& r[4].ws_url@ == "wss://stream.bybit.com/v5/public/spot"@
    &&& r[4].simbolo_suscripcion matches Some(x) && x@ == "orderbook.50."@ + by
    &&& r[4].rest_url@ == "https://api.bybit.com/v5/market/orderbook?category=spot&symbol="@ + by + "&limit=10"@
    &&& r[5].nombre@ == "Bitfinex"@
    &&& r[5].ws_url@ == "wss://api-pub.bitfinex.com/ws/2"@
    &&& r[5].simbolo_suscripcion matches Some(x) && x@ == bf
    &&& r[5].rest_url@ == "https://api-pub.bitfinex.com/v2/book/"@ + bf + "/P0?len=10"@
    &&& r[6].nombre@ == "KuCoin"@
    &&& r[6].ws_url@ == "wss://ws-api-spot.kucoin.com/"@
    &&& r[6].simbolo_suscripcion matches Some(x) && x@ == "/market/level2:"@ + ku
    &&& r[6].rest_url@ == "https://api.kucoin.com/api/v1/market/orderbook/level2_10?symbol="@ + ku
    &&& r[7].nombre@ == "Gate.io"@
    &&& r[7].ws_url@ == "wss://api.gateio.ws/ws/v4/"@
    &&& r[7].simbolo_suscripcion matches Some(x) && x@ == gt
    &&& r[7].rest_url@ == "https://api.gateio.ws/api/v4/spot/order_book?currency_pair="@ + gt + "&limit=10"@
    &&& r[8].nombre@ == "Bitstamp"@
    &&& r[8].ws_url@ == "wss://ws.bitstamp.net"@
    &&& r[8].simbolo_suscripcion matches Some(x) && x@ == "order_book_"@ + bs_min
    &&& r[8].rest_url@ == "https://www.bitstamp.net/api/v2/order_book/"@ + bs_min + "/?group=1"@
    &&& r[9].nombre@ == "Gemini"@
    &&& r[9].ws_url@ == "wss://api.gemini.com/v1/marketdata/"@ + gm
    &&& r[9].simbolo_suscripcion is None
    &&& r[9].rest_url@ == "https://api.gemini.com/v1/book/"@ + gm
    &&& r[10].nombre@ == "Jupiter"@
    &&& r[10].ws_url@ == "solana://jupiter"@
    &&& r[10].simbolo_suscripcion is None
    &&& r[10].rest_url@ == "https://quote-api.jup.ag/v6/quote"@
    &&& r[11].nombre@ == "Raydium"@
    &&& r[11].ws_url@ == "solana://raydium"@
    &&& r[11].simbolo_suscripcion is None
    &&& r[11].rest_url@ == "https://api.raydium.io/v2/sdk/liquidity/mainnet.json"@
}

fn copiar_str(s: &str) -> (r: String)
    ensures
        r@ == s@,
{
    String::from_str(s)
}

fn simbolo(base: &str, sep: &str, exchange: &str, quote: &str) -> (r: String)
    ensures
        r@ == simbolo_venue(base@, sep@, exchange@, quote@),
{
    let q = mapear_quote_exchange(exchange, quote);
    let a = unir(base, sep);
    unir(a.as_str(), q.as_str())
}

/// Lo que `str::to_lowercase` devuelve para un texto: sus minúsculas Unicode,
/// incluidos los casos que dependen del contexto.
pub uninterp spec fn minusculas_unicode(s: Seq<char>) -> Seq<char>;

/// Minúsculas Unicode de un texto: llama a `str::to_lowercase`, que depende
/// sólo del texto. Nada se afirma de su resultado salvo que es el nombrado.
#[verifier::external_body]
fn a_minusculas_unicode(s: &str) -> (r: String)
    ensures
        r@ == minusculas_unicode(s@),
{
    s.to_lowercase()
}

/// Rutas de los feeds públicos para el par: los símbolos de Binance y
/// Bitstamp van en sus minúsculas Unicode.
pub fn rutas_adaptadores(par: &str) -> (r: Vec<RutasAdaptador>)
    ensures
        exists|base: Seq<char>, quote: Seq<char>| partes_de(par@, base, quote) && rutas_esperadas(par@, base, quote,
            minusculas_unicode(simbolo_venue(base, ""@, "Binance"@, quote)),
            minusculas_unicode(simbolo_venue(base, "-"@, "Bitstamp"@, quote)), r@),
{
    let (base, quote) = partes_par(par);
    let bn = simbolo(base.as_str(), "", "Binance", quote.as_str());
    let bs = simbolo(base.as_str(), "-", "Bitstamp", quote.as_str());
    let bn_min = a_minusculas_unicode(bn.as_str());
    let bs_min = a_minusculas_unicode(bs.as_str());
    let r = rutas_con_minusculas(par, bn_min.as_str(), bs_min.as_str());
    proof {
        let (b2, q2) = choose|b2: Seq<char>, q2: Seq<char>| partes_de(par@, b2, q2) && rutas_esperadas(par@, b2, q2, bn_min@, bs_min@, r@);
        assert(b2 == base@ && q2 == quote@);
    }
    r
}

/// Rutas de los feeds públicos para el par, dados los símbolos de Binance y
/// de Bitstamp ya en minúsculas.
pub fn rutas_con_minusculas(par: &str, binance_min: &str, bitstamp_min: &str) -> (r: Vec<RutasAdaptador>)
    ensures
        exists|base: Seq<char>, quote: Seq<char>| partes_de(par@, base, quote)
            && rutas_esperadas(par@, base, quote, binance_min@, bitstamp_min@, r@),
{
    let (base, quote) = partes_par(par);
    let b = base.as_str();
    let q = quote.as_str();
    let mut lista: Vec<RutasAdaptador> = Vec::new();

    let bn = simbolo(b, "", "Binance", q);
    let bn_min = copiar_str(binance_min);
    lista.push(RutasAdaptador {
        nombre: "Binance",
        par: normalizar_par(par),
        ws_url: juntar(&vec!["wss://data-stream.binance.vision/ws/", bn_min.as_str(), "@depth10@100ms"]),
        simbolo_suscripcion: None,
        rest_url: juntar(&vec!["https://api.binance.com/api/v3/depth?symbol=", bn.as_str(), "&limit=10"]),
    });

    let kr = simbolo(b, "/", "Kraken", q);
    let krp = simbolo(b, "", "Kraken", q);
    lista.push(RutasAdaptador {
        nombre: "Kraken",
        par: normalizar_par(par),
        ws_url: String::from_str("wss://ws.kraken.com/v2"),
        simbolo_suscripcion: Some(kr),
        rest_url: juntar(&vec!["https://api.kraken.com/0/public/Depth?pair=", krp.as_str(), "&count=10"]),
    });

    let cb = simbolo(b, "-", "Coinbase", q);
    let cb_rest = juntar(&vec!["https://api.exchange.coinbase.com/products/", cb.as_str(), "/book?level=2"]);
    lista.push(RutasAdaptador {
        nombre: "Coinbase",
        par: normalizar_par(par),
        ws_url: String::from_str("wss://advanced-trade-ws.coinbase.com"),
        simbolo_suscripcion: Some(cb),
        rest_url: cb_rest,
    });

    let ok = simbolo(b, "-", "OKX", q);
    let ok_rest = juntar(&vec!["https://www.okx.com/api/v5/market/books?instId=", ok.as_str(), "&sz=10"]);
    lista.push(RutasAdaptador {
        nombre: "OKX",
        par: normalizar_par(par),
        ws_url: String::from_str("wss://ws.okx.com:8443/ws/v5/public"),
        simbolo_suscripcion: Some(ok),
        rest_url: ok_rest,
    });

    let by = simbolo(b, "", "Bybit", q);
    lista.push(RutasAdaptador {
        nombre: "Bybit",
        par: normalizar_par(par),
        ws_url: String::from_str("wss://stream.bybit.com/v5/public/spot"),
        simbolo_suscripcion: Some(unir("orderbook.50.", by.as_str())),
        rest_url: juntar(&vec!["https://api.bybit.com/v5/market/orderbook?category=spot&symbol=", by.as_str(), "&limit=10"]),
    });

    let bf0 = simbolo(b, "", "Bitfinex", q);
    let bf = unir("t", bf0.as_str());
    let bf_rest = juntar(&vec!["https://api-pub.bitfinex.com/v2/book/", bf.as_str(), "/P0?len=10"]);
    lista.push(RutasAdaptador {
        nombre: "Bitfinex",
        par: normalizar_par(par),
        ws_url: String::from_str("wss://api-pub.bitfinex.com/ws/2"),
        simbolo_suscripcion: Some(bf),
        rest_url: bf_rest,
    });

    let ku = simbolo(b, "-", "KuCoin", q);
    lista.push(RutasAdaptador {
        nombre: "KuCoin",
        par: normalizar_par(par),
        ws_url: String::from_str("wss://ws-api-spot.kucoin.com/"),
        simbolo_suscripcion: Some(unir("/market/level2:", ku.as_str())),
        rest_url: unir("https://api.kucoin.com/api/v1/market/orderbook/level2_10?symbol=", ku.as_str()),
    });

    let gt = simbolo(b, "-", "Gate.io", q);
    let gt_rest = juntar(&vec!["https://api.gateio.ws/api/v4/spot/order_book?currency_pair=", gt.as_str(), "&limit=10"]);
    lista.push(RutasAdaptador {
        nombre: "Gate.io",
        par: normalizar_par(par),
        ws_url: String::from_str("wss://api.gateio.ws/ws/v4/"),
        simbolo_suscripcion: Some(gt),
        rest_url: gt_rest,
    });

    let bs = simbolo(b, "-", "Bitstamp", q);
    let bs_min = copiar_str(bitstamp_min);
    lista.push(RutasAdaptador {
        nombre: "Bitstamp",
        par: normalizar_par(par),
        ws_url: String::from_str("wss://ws.bitstamp.net"),
        simbolo_suscripcion: Some(unir("order_book_", bs_min.as_str())),
        rest_url: juntar(&vec!["https://www.bitstamp.net/api/v2/order_book/", bs_min.as_str(), "/?group=1"]),
    });

    let gm = simbolo(b, "-", "Gemini", q);
    lista.push(RutasAdaptador {
        nombre: "Gemini",
        par: normalizar_par(par),
        ws_url: unir("wss://api.gemini.com/v1/marketdata/", gm.as_str()),
        simbolo_suscripcion: None,
        rest_url: unir("https://api.gemini.com/v1/book/", gm.as_str()),
    });

    lista.push(RutasAdaptador {
        nombre: "Jupiter",
        par: normalizar_par(par),
        ws_url: String::from_str("solana://jupiter"),
        simbolo_suscripcion: None,
        rest_url: String::from_str("https://quote-api.jup.ag/v6/quote"),
    });

    lista.push(RutasAdaptador {
        nombre: "Raydium",
        par: normalizar_par(par),
        ws_url: String::from_str("solana://raydium"),
        simbolo_suscripcion: None,
        rest_url: String::from_str("https://api.raydium.io/v2/sdk/liquidity/mainnet.json"),
    });
    proof {
        reveal_with_fuel(juntar_spec, 4);
        assert(rutas_esperadas(par@, base@, quote@, binance_min@, bitstamp_min@, lista@));
    }
    lista
}


/// Un nivel con precio positivo fija la cantidad de su precio si está
/// vigente y lo borra si no; los precios no positivos no tocan el lado.
pub proof fn nivel_aplicado_fija_o_borra(m: Map<i64, i64>, n: Seq<NivelLibro>, x: NivelLibro)
    ensures
        x.precio > 0 && x.vigente ==> aplicar_niveles(m, n.push(x)).dom().contains(x.precio)
            && aplicar_niveles(m, n.push(x))[x.precio] == x.cantidad,
        x.precio > 0 && !x.vigente ==> !aplicar_niveles(m, n.push(x)).dom().contains(x.precio),
        x.precio <= 0 ==> aplicar_niveles(m, n.push(x)) == aplicar_niveles(m, n),
{
    assert(n.push(x).drop_last() =~= n);
}

/// Los mejores niveles salen ordenados: bids de mayor a menor precio y asks
/// de menor a mayor.
pub proof fn mejores_niveles_ordenados(bids: Seq<(i64, i64)>, asks: Seq<(i64, i64)>, max: int)
    requires
        crate::libro::precios_crecientes(bids),
        crate::libro::precios_crecientes(asks),
        0 <= max,
    ensures
        forall|i: int, j: int| 0 <= i < j < mejores_bids(bids, max).len() ==> (#[trigger] mejores_bids(bids, max)[i]).0 > (#[trigger] mejores_bids(bids, max)[j]).0,
        forall|i: int, j: int| 0 <= i < j < mejores_asks(asks, max).len() ==> (#[trigger] mejores_asks(asks, max)[i]).0 < (#[trigger] mejores_asks(asks, max)[j]).0,
{
    assert forall|i: int, j: int| 0 <= i < j < mejores_bids(bids, max).len() implies (#[trigger] mejores_bids(bids, max)[i]).0 > (#[trigger] mejores_bids(bids, max)[j]).0 by {
        let n: int = if max < bids.len() { max } else { bids.len() as int };
        assert(mejores_bids(bids, max).len() == n);
        assert(mejores_bids(bids, max)[i] == bids[bids.len() - 1 - i]);
        assert(mejores_bids(bids, max)[j] == bids[bids.len() - 1 - j]);
        assert(bids[bids.len() - 1 - j].0 < bids[bids.len() - 1 - i].0);
    }
    assert forall|i: int, j: int| 0 <= i < j < mejores_asks(asks, max).len() implies (#[trigger] mejores_asks(asks, max)[i]).0 < (#[trigger] mejores_asks(asks, max)[j]).0 by {
        assert(mejores_asks(asks, max)[i] == asks[i]);
        assert(mejores_asks(asks, max)[j] == asks[j]);
        assert(asks[i].0 < asks[j].0);
    }
}

/// Mientras un libro espera snapshot ningún delta se aplica, sea cual sea
/// su secuencia: el libro queda igual salvo el estado de integridad y sigue
/// esperando snapshot.
pub proof fn sin_snapshot_no_se_aplican_deltas(
    antes: LibroEstado,
    secuencia: Option<u64>,
    previa: Option<u64>,
    despues: LibroEstado,
    r: bool,
)
    requires
        antes.requiere_snapshot,
    ensures
        tras_exacto(antes, secuencia, despues, r) ==> !r && despues.requiere_snapshot && despues.bids == antes.bids
            && despues.asks == antes.asks,
        tras_monotono(antes, secuencia, despues, r) ==> !r && despues.requiere_snapshot && despues.bids == antes.bids
            && despues.asks == antes.asks,
        tras_enlazado(antes, secuencia, previa, despues, r) ==> !r && despues.requiere_snapshot
            && despues.bids == antes.bids && despues.asks == antes.asks,
{
}

/// `s` empieza con `p`.
pub open spec fn empieza_con(s: Seq<char>, p: Seq<char>) -> bool {
    p.len() <= s.len() && s.subrange(0, p.len() as int) == p
}

/// Si `s` empieza con `p`.
pub fn empieza(s: &str, p: &str) -> (r: bool)
    ensures
        r == empieza_con(s@, p@),
{
    let vs = caracteres(s);
    let vp = caracteres(p);
    if vp.len() > vs.len() {
        return false;
    }
    let mut i: usize = 0;
    while i < vp.len()
        invariant
            vs@ == s@,
            vp@ == p@,
            vp.len() <= vs.len(),
            i <= vp.len(),
            forall|j: int| 0 <= j < i ==> vs@[j] == vp@[j],
        decreases vp.len() - i,
    {
        if vs[i] != vp[i] {
            assert(s@.subrange(0, p@.len() as int)[i as int] != p@[i as int]);
            return false;
        }
        i = i + 1;
    }
    assert(s@.subrange(0, p@.len() as int) =~= p@);
    true
}

/// Lado de un update de libro según su campo `side`: `Some(true)` para bids
/// (`bid`, `BUY`, `buy`), `Some(false)` para asks (`offer`, `ask`, `SELL`,
/// `sell`) y `None` para cualquier otro, que no toca el libro.
pub open spec fn lado_de_update(side: Seq<char>) -> Option<bool> {
    if side == "bid"@ || side == "BUY"@ || side == "buy"@ {
        Some(true)
    } else if side == "offer"@ || side == "ask"@ || side == "SELL"@ || side == "sell"@ {
        Some(false)
    } else {
        None
    }
}

/// Lado de un update de libro de Coinbase.
pub fn lado_update(side: &str) -> (r: Option<bool>)
    ensures
        r == lado_de_update(side@),
{
    if iguales(side, "bid") || iguales(side, "BUY") || iguales(side, "buy") {
        Some(true)
    } else if iguales(side, "offer") || iguales(side, "ask") || iguales(side, "SELL") || iguales(side, "sell") {
        Some(false)
    } else {
        None
    }
}

/// Canal de libro de Coinbase: `level2` o `l2_data`.
pub fn es_canal_libro_coinbase(canal: &str) -> (r: bool)
    ensures
        r == (canal@ == "level2"@ || canal@ == "l2_data"@),
{
    iguales(canal, "level2") || iguales(canal, "l2_data")
}

/// Tópico de libro de Bybit: `orderbook.<profundidad>.<símbolo>`.
pub fn es_topico_libro_bybit(topic: &str) -> (r: bool)
    ensures
        r == empieza_con(topic@, "orderbook."@),
{
    empieza(topic, "orderbook.")
}

/// Canal de libro de OKX: `books`, `books5` y demás variantes.
pub fn es_canal_libro_okx(canal: &str) -> (r: bool)
    ensures
        r == empieza_con(canal@, "books"@),
{
    empieza(canal, "books")
}

/// Un mensaje de OKX trae un snapshot si su acción es `snapshot` o si viene
/// del canal `books5`, que siempre publica el libro completo.
pub fn es_snapshot_okx(accion: Option<&str>, canal: &str) -> (r: bool)
    ensures
        r == (crate::config::vista(accion) == Some("snapshot"@) || canal@ == "books5"@),
{
    let por_accion = match accion {
        Some(a) => iguales(a, "snapshot"),
        None => false,
    };
    por_accion || iguales(canal, "books5")
}

/// Lo que sigue al último punto de `s`, o `s` entero si no tiene puntos.
pub open spec fn tras_ultimo_punto(s: Seq<char>) -> Seq<char>
    decreases s.len(),
{
    if s.len() == 0 {
        s
    } else if s.last() == '.' {
        Seq::empty()
    } else {
        tras_ultimo_punto(s.drop_last()).push(s.last())
    }
}

proof fn lema_tras_ultimo_punto(s: Seq<char>, k: int)
    requires
        -1 <= k < s.len(),
        k >= 0 ==> s[k] == '.',
        forall|j: int| k < j < s.len() ==> s[j] != '.',
    ensures
        tras_ultimo_punto(s) == s.subrange(k + 1, s.len() as int),
    decreases s.len(),
{
    if s.len() == 0 {
        assert(s.subrange(0, 0) =~= s);
    } else if s.last() == '.' {
        assert(k == s.len() - 1);
        assert(s.subrange(k + 1, s.len() as int) =~= Seq::<char>::empty());
    } else {
        let d = s.drop_last();
        assert forall|j: int| k < j < d.len() implies d[j] != '.' by {
            assert(d[j] == s[j]);
        }
        lema_tras_ultimo_punto(d, k);
        assert(s.subrange(k + 1, s.len() as int) =~= d.subrange(k + 1, d.len() as int).push(s.last()));
    }
}

/// Símbolo de un tópico de Bybit: lo que sigue al último punto.
pub fn par_de_topico(topic: &str) -> (r: String)
    ensures
        r@ == tras_ultimo_punto(topic@),
{
    let v = caracteres(topic);
    let mut k: usize = v.len();
    let mut encontrado = false;
    while k > 0 && !encontrado
        invariant
            v@ == topic@,
            k <= v.len(),
            encontrado ==> k < v.len() && v@[k as int] == '.',
            forall|j: int| k < j < v.len() ==> v@[j] != '.',
            !encontrado ==> forall|j: int| k <= j < v.len() ==> v@[j] != '.',
        decreases k + (if encontrado { 0int } else { 1int }),
    {
        if v[k - 1] == '.' {
            k = k - 1;
            encontrado = true;
        } else {
            k = k - 1;
        }
    }
    let inicio: usize = if encontrado { k + 1 } else { 0 };
    proof {
        if encontrado {
            lema_tras_ultimo_punto(topic@, k as int);
        } else {
            lema_tras_ultimo_punto(topic@, -1);
        }
    }
    let mut resto: Vec<char> = Vec::new();
    let mut i: usize = inicio;
    while i < v.len()
        invariant
            v@ == topic@,
            inicio <= i <= v.len(),
            resto@ == v@.subrange(inicio as int, i as int),
        decreases v.len() - i,
    {
        resto.push(v[i]);
        i = i + 1;
        assert(resto@ =~= v@.subrange(inicio as int, i as int));
    }
    cadena(&resto)
}

proof fn lema_texto_niveles_concat(x: Seq<(i64, (String, String))>, y: Seq<(i64, (String, String))>)
    ensures
        texto_niveles(x + y) == texto_niveles(x) + texto_niveles(y),
    decreases y.len(),
{
    if y.len() == 0 {
        assert(x + y =~= x);
        assert(texto_niveles(y) =~= Seq::<char>::empty());
        assert(texto_niveles(x) + texto_niveles(y) =~= texto_niveles(x));
    } else {
        lema_texto_niveles_concat(x, y.drop_last());
        assert((x + y).drop_last() =~= x + y.drop_last());
        assert((x + y).last() == y.last());
        assert(texto_niveles(x) + texto_niveles(y) =~= texto_niveles(x) + texto_niveles(y.drop_last()) + y.last().1.0@
            + y.last().1.1@);
    }
}

proof fn lema_texto_nivel_uno(x: (i64, (String, String)))
    ensures
        texto_niveles(seq![x]) == x.1.0@ + x.1.1@,
{
    assert(seq![x].drop_last() =~= Seq::<(i64, (String, String))>::empty());
    assert(texto_niveles(Seq::<(i64, (String, String))>::empty()) =~= Seq::<char>::empty());
    assert(Seq::<char>::empty() + x.1.0@ + x.1.1@ =~= x.1.0@ + x.1.1@);
}

/// En el checksum de Kraken los bids van del mejor (el de mayor precio) hacia
/// abajo: un bid nuevo por encima de todos los anteriores, mientras el lado
/// tenga menos de diez niveles, entra justo después de los asks y antes de
/// los bids que ya estaban.
pub proof fn mejor_bid_encabeza_el_checksum(
    asks: Seq<(i64, (String, String))>,
    bids: Seq<(i64, (String, String))>,
    x: (i64, (String, String)),
)
    requires
        bids.len() < 10,
        crate::libro::precios_crecientes(bids.push(x)),
    ensures
        entrada_checksum(asks, bids.push(x)) == entrada_checksum(asks, Seq::empty()) + x.1.0@ + x.1.1@
            + entrada_checksum(Seq::empty(), bids),
{
    let e = Seq::<(i64, (String, String))>::empty();
    let a = if asks.len() > 10 { asks.take(10) } else { asks };
    let n = bids.len() as int;
    let bx = bids.push(x);
    let b1 = Seq::new((n + 1) as nat, |k: int| bx[bx.len() - 1 - k]);
    let b0 = Seq::new(n as nat, |k: int| bids[bids.len() - 1 - k]);
    assert(b1 =~= seq![x] + b0);
    lema_texto_niveles_concat(seq![x], b0);
    lema_texto_nivel_uno(x);
    assert(Seq::new(0nat, |k: int| e[e.len() - 1 - k]) =~= e);
    assert(texto_niveles(e) =~= Seq::<char>::empty());
    assert(entrada_checksum(asks, e) =~= texto_niveles(a));
    assert(entrada_checksum(e, bids) =~= texto_niveles(b0));
    assert(entrada_checksum(asks, bx) =~= texto_niveles(a) + texto_niveles(b1));
    assert(texto_niveles(a) + (x.1.0@ + x.1.1@ + texto_niveles(b0)) =~= texto_niveles(a) + x.1.0@ + x.1.1@ + texto_niveles(b0));
}

/// En el checksum de Kraken los asks van del mejor (el de menor precio) hacia
/// arriba: un ask nuevo por debajo de todos los anteriores, mientras el lado
/// tenga menos de diez niveles, abre la entrada.
pub proof fn mejor_ask_abre_el_checksum(
    asks: Seq<(i64, (String, String))>,
    bids: Seq<(i64, (String, String))>,
    x: (i64, (String, String)),
)
    requires
        asks.len() < 10,
        crate::libro::precios_crecientes(seq![x] + asks),
    ensures
        entrada_checksum(seq![x] + asks, bids) == x.1.0@ + x.1.1@ + entrada_checksum(asks, bids),
{
    lema_texto_niveles_concat(seq![x], asks);
    lema_texto_nivel_uno(x);
}

/// El checksum de Kraken sólo mira los diez mejores niveles de cada lado: los
/// diez asks de menor precio y los diez bids de mayor precio.
pub proof fn checksum_mira_diez_niveles(asks: Seq<(i64, (String, String))>, bids: Seq<(i64, (String, String))>)
    requires
        asks.len() >= 10,
        bids.len() >= 10,
    ensures
        entrada_checksum(asks, bids) == entrada_checksum(asks.take(10), bids.skip(bids.len() - 10)),
{
    let t = bids.skip(bids.len() - 10);
    assert(asks.take(10).len() == 10);
    if asks.len() == 10 {
        assert(asks.take(10) =~= asks);
    }
    assert(Seq::new(10nat, |k: int| bids[bids.len() - 1 - k]) =~= Seq::new(10nat, |k: int| t[t.len() - 1 - k]));
}

/// Integridad de secuencias sobre un libro que no espera snapshot y ya
/// registró la secuencia `p`:
/// - exacta: la secuencia siguiente `p + 1` se acepta y se registra sin tocar
///   el libro; una que salta más allá invalida el libro; una repetida o
///   anterior se descarta sin tocar el libro;
/// - monótona: toda secuencia que no retrocede se acepta y se registra; una
///   anterior se descarta;
/// - enlazada: un delta cuya previa es `p` y cuya secuencia supera a `p` se
///   acepta y se registra sin tocar el libro; si la previa no es `p` o la
///   secuencia no avanza, el libro se invalida.
pub proof fn secuencias_validas_se_aceptan(
    antes: LibroEstado,
    p: u64,
    a: u64,
    b: u64,
    despues: LibroEstado,
    r: bool,
)
    requires
        !antes.requiere_snapshot,
        antes.ultima_secuencia == Some(p),
    ensures
        tras_exacto(antes, Some(a), despues, r) && a == p + 1 ==> r && despues.ultima_secuencia == Some(a)
            && despues.bids == antes.bids && despues.asks == antes.asks && !despues.requiere_snapshot,
        tras_exacto(antes, Some(a), despues, r) && a > p + 1 ==> !r && despues.requiere_snapshot
            && despues.bids@.len() == 0 && despues.asks@.len() == 0,
        tras_exacto(antes, Some(a), despues, r) && a <= p ==> !r && despues.ultima_secuencia == Some(p)
            && despues.bids == antes.bids && despues.asks == antes.asks && !despues.requiere_snapshot,
        tras_monotono(antes, Some(a), despues, r) && a >= p ==> r && despues.ultima_secuencia == Some(a)
            && despues.bids == antes.bids && despues.asks == antes.asks,
        tras_monotono(antes, Some(a), despues, r) && a < p ==> !r && despues.ultima_secuencia == Some(p)
            && despues.bids == antes.bids && despues.asks == antes.asks,
        tras_enlazado(antes, Some(a), Some(b), despues, r) && b == p && a > p ==> r
            && despues.ultima_secuencia == Some(a) && despues.bids == antes.bids && despues.asks == antes.asks
            && !despues.requiere_snapshot,
        tras_enlazado(antes, Some(a), Some(b), despues, r) && (b != p || a <= p) ==> !r
            && despues.requiere_snapshot && despues.bids@.len() == 0 && despues.asks@.len() == 0,
{
}

/// Los venues sin mercado spot en USD (Binance, OKX, Bybit, KuCoin y Gate.io)
/// operan un quote USD como USDT; los demás conservan USD, y cualquier otro
/// quote queda en mayúsculas sin cambio.
pub proof fn usd_se_opera_como_usdt(exchange: Seq<char>, quote: Seq<char>)
    ensures
        crate::texto::mayusculas(quote) == "USD"@ && (exchange == "Binance"@ || exchange == "OKX"@
            || exchange == "Bybit"@ || exchange == "KuCoin"@ || exchange == "Gate.io"@) ==> quote_para(exchange, quote)
            == "USDT"@,
        crate::texto::mayusculas(quote) == "USD"@ && (exchange == "Kraken"@ || exchange == "Coinbase"@
            || exchange == "Bitfinex"@ || exchange == "Bitstamp"@ || exchange == "Gemini"@) ==> quote_para(exchange, quote)
            == "USD"@,
        crate::texto::mayusculas(quote) != "USD"@ ==> quote_para(exchange, quote) == crate::texto::mayusculas(quote),
{
    reveal_strlit("Binance");
    reveal_strlit("OKX");
    reveal_strlit("Bybit");
    reveal_strlit("KuCoin");
    reveal_strlit("Gate.io");
    reveal_strlit("Kraken");
    reveal_strlit("Coinbase");
    reveal_strlit("Bitfinex");
    reveal_strlit("Bitstamp");
    reveal_strlit("Gemini");
    assert(!venue_sin_usd("Kraken"@)) by {
        assert("Kraken"@.len() != "Binance"@.len());
        assert("Kraken"@.len() != "OKX"@.len());
        assert("Kraken"@.len() != "Bybit"@.len());
        assert("Kraken"@[1] != "KuCoin"@[1]);
        assert("Kraken"@.len() != "Gate.io"@.len());
    }
    assert(!venue_sin_usd("Coinbase"@)) by {
        assert("Coinbase"@.len() != "Binance"@.len());
        assert("Coinbase"@.len() != "OKX"@.len());
        assert("Coinbase"@.len() != "Bybit"@.len());
        assert("Coinbase"@.len() != "KuCoin"@.len());
        assert("Coinbase"@.len() != "Gate.io"@.len());
    }
    assert(!venue_sin_usd("Bitfinex"@)) by {
        assert("Bitfinex"@.len() != "Binance"@.len());
        assert("Bitfinex"@.len() != "OKX"@.len());
        assert("Bitfinex"@.len() != "Bybit"@.len());
        assert("Bitfinex"@.len() != "KuCoin"@.len());
        assert("Bitfinex"@.len() != "Gate.io"@.len());
    }
    assert(!venue_sin_usd("Bitstamp"@)) by {
        assert("Bitstamp"@.len() != "Binance"@.len());
        assert("Bitstamp"@.len() != "OKX"@.len());
        assert("Bitstamp"@.len() != "Bybit"@.len());
        assert("Bitstamp"@.len() != "KuCoin"@.len());
        assert("Bitstamp"@.len() != "Gate.io"@.len());
    }
    assert(!venue_sin_usd("Gemini"@)) by {
        assert("Gemini"@.len() != "Binance"@.len());
        assert("Gemini"@.len() != "OKX"@.len());
        assert("Gemini"@.len() != "Bybit"@.len());
        assert("Gemini"@[0] != "KuCoin"@[0]);
        assert("Gemini"@.len() != "Gate.io"@.len());
    }
}

proof fn lema_sin_puntos_concat(x: Seq<char>, y: Seq<char>)
    ensures
        sin_puntos(x + y) == sin_puntos(x) + sin_puntos(y),
    decreases y.len(),
{
    if y.len() == 0 {
        assert(x + y =~= x);
        assert(sin_puntos(x) + sin_puntos(y) =~= sin_puntos(x));
    } else {
        lema_sin_puntos_concat(x, y.drop_last());
        assert((x + y).drop_last() =~= x + y.drop_last());
        assert((x + y).last() == y.last());
        if y.last() == '.' {
            assert(sin_puntos(y) == sin_puntos(y.drop_last()));
        } else {
            assert(sin_puntos(x) + sin_puntos(y) =~= (sin_puntos(x) + sin_puntos(y.drop_last())).push(y.last()));
        }
    }
}

proof fn lema_sin_puntos_digitos(v: Seq<char>)
    requires
        crate::texto::solo_digitos(v),
    ensures
        sin_puntos(v) == v,
    decreases v.len(),
{
    if v.len() > 0 {
        let d = v.drop_last();
        assert(crate::texto::solo_digitos(d)) by {
            assert forall|k: int| 0 <= k < d.len() implies crate::texto::es_digito(#[trigger] d[k]) by {
                assert(d[k] == v[k]);
            }
        }
        lema_sin_puntos_digitos(d);
        assert(crate::texto::es_digito(v[v.len() - 1]));
        assert(d.push(v.last()) =~= v);
    }
}

proof fn lema_sin_ceros_forma(s: Seq<char>)
    requires
        crate::texto::solo_digitos(s),
    ensures
        crate::texto::solo_digitos(sin_ceros_iniciales(s)),
        sin_ceros_iniciales(s).len() > 0 ==> sin_ceros_iniciales(s)[0] != '0',
    decreases s.len(),
{
    if s.len() > 0 && s[0] == '0' {
        let t = s.drop_first();
        assert(crate::texto::solo_digitos(t)) by {
            assert forall|k: int| 0 <= k < t.len() implies crate::texto::es_digito(#[trigger] t[k]) by {
                assert(t[k] == s[k + 1]);
            }
        }
        lema_sin_ceros_forma(t);
    }
}

/// Forma de un número en el checksum de Kraken:
/// - los puntos decimales no cuentan: `a.b` da lo mismo que `ab`;
/// - los ceros a la izquierda no cuentan;
/// - un entero sin ceros a la izquierda queda igual;
/// - el resultado es un entero sin ceros a la izquierda, o el propio `0`.
pub proof fn numero_crc_sin_puntos_ni_ceros(v: Seq<char>, a: Seq<char>, b: Seq<char>)
    ensures
        numero_crc(a + "."@ + b) == numero_crc(a + b),
        crate::texto::solo_digitos(v) && v.len() > 0 && v[0] != '0' ==> numero_crc(v) == Some(v),
        crate::texto::solo_digitos(v) && v.len() > 0 ==> numero_crc("0"@ + v) == numero_crc(v),
        numero_crc(v) matches Some(x) ==> x.len() > 0 && crate::texto::solo_digitos(x) && (x[0] == '0' ==> x
            == "0"@),
{
    reveal_strlit(".");
    reveal_strlit("0");
    lema_sin_puntos_concat(a + "."@, b);
    lema_sin_puntos_concat(a, "."@);
    lema_sin_puntos_concat(a, b);
    assert("."@.len() == 1 && "."@.last() == '.');
    assert("."@.drop_last() =~= Seq::<char>::empty());
    assert(sin_puntos(Seq::<char>::empty()) == Seq::<char>::empty());
    assert(sin_puntos("."@) =~= Seq::<char>::empty());
    assert(sin_puntos(a) + Seq::<char>::empty() =~= sin_puntos(a));
    if crate::texto::solo_digitos(v) && v.len() > 0 {
        lema_sin_puntos_digitos(v);
        let w = "0"@ + v;
        assert(crate::texto::solo_digitos(w)) by {
            assert forall|k: int| 0 <= k < w.len() implies crate::texto::es_digito(#[trigger] w[k]) by {
                if k > 0 {
                    assert(w[k] == v[k - 1]);
                }
            }
        }
        lema_sin_puntos_digitos(w);
        assert(w.drop_first() =~= v);
        assert(sin_ceros_iniciales(w) == sin_ceros_iniciales(v));
        lema_sin_ceros_forma(v);
    }
    let c = sin_puntos(v);
    if c.len() > 0 && crate::texto::solo_digitos(c) {
        lema_sin_ceros_forma(c);
    }
}

proof fn lema_sin_separadores_concat(x: Seq<char>, y: Seq<char>)
    ensures
        sin_separadores(x + y) == sin_separadores(x) + sin_separadores(y),
    decreases y.len(),
{
    if y.len() == 0 {
        assert(x + y =~= x);
        assert(sin_separadores(x) + sin_separadores(y) =~= sin_separadores(x));
    } else {
        lema_sin_separadores_concat(x, y.drop_last());
        assert((x + y).drop_last() =~= x + y.drop_last());
        assert((x + y).last() == y.last());
        if !(y.last() == '/' || y.last() == '-') {
            assert(sin_separadores(x) + sin_separadores(y) =~= (sin_separadores(x) + sin_separadores(
                y.drop_last(),
            )).push(y.last()));
        }
    }
}

proof fn lema_sin_separadores_fijo(x: Seq<char>)
    requires
        forall|k: int| 0 <= k < x.len() ==> (#[trigger] x[k]) != '/' && x[k] != '-',
    ensures
        sin_separadores(x) == x,
    decreases x.len(),
{
    if x.len() > 0 {
        let d = x.drop_last();
        assert forall|k: int| 0 <= k < d.len() implies (#[trigger] d[k]) != '/' && d[k] != '-' by {
            assert(d[k] == x[k]);
        }
        lema_sin_separadores_fijo(d);
        assert(x[x.len() - 1] != '/');
        assert(d.push(x.last()) =~= x);
    }
}

/// Un par de letras ASCII y dígitos cuyo quote es USD o USDT (en cualquier
/// caja), escrito junto, con `/` o con `-`, se normaliza a `BASE/USD` en
/// mayúsculas: `btc-usdt`, `BTCUSD` y `btc/usd` dan `BTC/USD`.
pub proof fn par_en_usd_se_normaliza(base: Seq<char>, sep: Seq<char>, quote: Seq<char>)
    requires
        forall|k: int| 0 <= k < base.len() ==> crate::config::alfanumerico_ascii(#[trigger] base[k]),
        sep == ""@ || sep == "/"@ || sep == "-"@,
        crate::texto::mayusculas(quote) == "USD"@ || crate::texto::mayusculas(quote) == "USDT"@,
    ensures
        par_normalizado(base + sep + quote) == crate::texto::mayusculas(base) + "/USD"@,
{
    reveal_strlit("");
    reveal_strlit("/");
    reveal_strlit("-");
    reveal_strlit("USD");
    reveal_strlit("USDT");
    reveal_strlit("/USD");
    let q = crate::texto::mayusculas(quote);
    let m = crate::texto::mayusculas(base);
    let v = base + sep + quote;
    assert(quote.len() == q.len());
    assert forall|k: int| 0 <= k < quote.len() implies crate::config::alfanumerico_ascii(#[trigger] quote[k]) by {
        assert(crate::texto::mayuscula(quote[k]) == q[k]);
        assert('A' <= q[k] && q[k] <= 'Z');
    }
    assert(!crate::texto::espacio_unicode(v[0])) by {
        if base.len() > 0 {
            assert(v[0] == base[0]);
            assert(crate::config::alfanumerico_ascii(base[0]));
        } else if sep.len() > 0 {
            assert(v[0] == sep[0]);
        } else {
            assert(v[0] == quote[0]);
            assert(crate::config::alfanumerico_ascii(quote[0]));
        }
    }
    assert(!crate::texto::espacio_unicode(v[v.len() - 1])) by {
        assert(v[v.len() - 1] == quote[quote.len() - 1]);
        assert(crate::config::alfanumerico_ascii(quote[quote.len() - 1]));
    }
    crate::texto::lema_recortado_fijo(v);
    let ms = crate::texto::mayusculas(sep);
    assert(crate::texto::mayusculas(v) =~= m + ms + q) by {
        assert forall|k: int| 0 <= k < v.len() implies #[trigger] crate::texto::mayusculas(v)[k] == (m + ms + q)[k] by {
            if k < base.len() {
                assert(v[k] == base[k]);
            } else if k < base.len() + sep.len() {
                assert(v[k] == sep[k - base.len()]);
            } else {
                assert(v[k] == quote[k - base.len() - sep.len()]);
                assert(crate::texto::mayusculas(quote)[k - base.len() - sep.len()] == q[k - base.len() - sep.len()]);
            }
        }
    }
    assert(ms =~= sep);
    lema_sin_separadores_concat(m + ms, q);
    lema_sin_separadores_concat(m, ms);
    assert forall|k: int| 0 <= k < m.len() implies (#[trigger] m[k]) != '/' && m[k] != '-' by {
        assert(crate::config::alfanumerico_ascii(base[k]));
    }
    lema_sin_separadores_fijo(m);
    lema_sin_separadores_fijo(q);
    if sep.len() == 1 {
        assert(sep.drop_last() =~= Seq::<char>::empty());
        assert(sin_separadores(Seq::<char>::empty()) == Seq::<char>::empty());
    }
    assert(sin_separadores(sep) =~= Seq::<char>::empty());
    let c = m + q;
    assert(sin_separadores(crate::texto::mayusculas(crate::texto::recortado(v))) =~= c);
    if q == "USDT"@ {
        assert(c.subrange(c.len() - 4, c.len() as int) =~= q);
        assert(c.subrange(0, c.len() - 4) =~= m);
    } else {
        assert(!tiene_sufijo(c, "USDT"@)) by {
            if tiene_sufijo(c, "USDT"@) {
                assert(c.subrange(c.len() - 4, c.len() as int)[3] == c[c.len() - 1]);
            }
        }
        assert(c.subrange(c.len() - 3, c.len() as int) =~= q);
        assert(c.subrange(0, c.len() - 3) =~= m);
    }
}

/// Un par de letras ASCII y dígitos con una sola barra se parte en base y
/// quote en mayúsculas (`eth/btc` da `ETH` y `BTC`); sin barra, el par es
/// `BTC` / `USD`.
pub proof fn partes_de_un_par(b: Seq<char>, q: Seq<char>, base: Seq<char>, quote: Seq<char>)
    requires
        forall|k: int| 0 <= k < b.len() ==> crate::config::alfanumerico_ascii(#[trigger] b[k]),
        forall|k: int| 0 <= k < q.len() ==> crate::config::alfanumerico_ascii(#[trigger] q[k]),
    ensures
        partes_de(b + "/"@ + q, base, quote) ==> base == crate::texto::mayusculas(b) && quote
            == crate::texto::mayusculas(q),
        partes_de(b + q, base, quote) ==> base == "BTC"@ && quote == "USD"@,
{
    reveal_strlit("/");
    let mb = crate::texto::mayusculas(b);
    let mq = crate::texto::mayusculas(q);
    let v = b + "/"@ + q;
    assert forall|k: int| 0 <= k < mb.len() implies #[trigger] mb[k] != '/' by {
        assert(crate::config::alfanumerico_ascii(b[k]));
    }
    assert forall|k: int| 0 <= k < mq.len() implies #[trigger] mq[k] != '/' by {
        assert(crate::config::alfanumerico_ascii(q[k]));
    }
    assert(!crate::texto::espacio_unicode(v[0])) by {
        if b.len() > 0 {
            assert(v[0] == b[0]);
            assert(crate::config::alfanumerico_ascii(b[0]));
        }
    }
    assert(!crate::texto::espacio_unicode(v[v.len() - 1])) by {
        if q.len() > 0 {
            assert(v[v.len() - 1] == q[q.len() - 1]);
            assert(crate::config::alfanumerico_ascii(q[q.len() - 1]));
        }
    }
    crate::texto::lema_recortado_fijo(v);
    let s1 = crate::texto::mayusculas(v);
    assert(s1 =~= mb + "/"@ + mq) by {
        assert forall|k: int| 0 <= k < v.len() implies #[trigger] s1[k] == (mb + "/"@ + mq)[k] by {
            if k < b.len() {
                assert(v[k] == b[k]);
            } else if k == b.len() {
                assert(v[k] == '/');
            } else {
                assert(v[k] == q[k - b.len() - 1]);
            }
        }
    }
    let n = b.len() as int;
    assert(unica_barra(s1, n));
    assert forall|k: int| #[trigger] unica_barra(s1, k) implies k == n by {
        if k < n {
            assert(s1[k] == mb[k]);
        } else if k > n {
            assert(s1[k] == mq[k - n - 1]);
        }
    }
    assert(s1.take(n) =~= mb);
    assert(s1.skip(n + 1) =~= mq);
    let w = b + q;
    if w.len() > 0 {
        assert(!crate::texto::espacio_unicode(w[0])) by {
            if b.len() > 0 {
                assert(w[0] == b[0]);
                assert(crate::config::alfanumerico_ascii(b[0]));
            } else {
                assert(w[0] == q[0]);
                assert(crate::config::alfanumerico_ascii(q[0]));
            }
        }
        assert(!crate::texto::espacio_unicode(w[w.len() - 1])) by {
            if q.len() > 0 {
                assert(w[w.len() - 1] == q[q.len() - 1]);
                assert(crate::config::alfanumerico_ascii(q[q.len() - 1]));
            } else {
                assert(w[w.len() - 1] == b[b.len() - 1]);
                assert(crate::config::alfanumerico_ascii(b[b.len() - 1]));
            }
        }
    }
    crate::texto::lema_recortado_fijo(w);
    let s2 = crate::texto::mayusculas(w);
    assert forall|k: int| #[trigger] unica_barra(s2, k) implies false by {
        if k < b.len() {
            assert(w[k] == b[k]);
            assert(crate::config::alfanumerico_ascii(b[k]));
        } else {
            assert(w[k] == q[k - b.len()]);
            assert(crate::config::alfanumerico_ascii(q[k - b.len()]));
        }
    }
}

/// Con diez asks o menos y sin bids, la entrada del checksum son todos los
/// asks en orden; con diez bids o menos y sin asks, todos los bids del último
/// (el de mayor precio) al primero.
pub proof fn checksum_con_hasta_diez_niveles(asks: Seq<(i64, (String, String))>, bids: Seq<(i64, (String, String))>)
    requires
        asks.len() <= 10,
        bids.len() <= 10,
    ensures
        entrada_checksum(asks, Seq::empty()) == texto_niveles(asks),
        entrada_checksum(Seq::empty(), bids) == texto_niveles(Seq::new(bids.len(), |k: int| bids[bids.len() - 1 - k])),
{
    let e = Seq::<(i64, (String, String))>::empty();
    assert(Seq::new(0nat, |k: int| e[e.len() - 1 - k]) =~= e);
    assert(texto_niveles(e) =~= Seq::<char>::empty());
    assert(texto_niveles(asks) + Seq::<char>::empty() =~= texto_niveles(asks));
    assert(Seq::<char>::empty() + texto_niveles(Seq::new(bids.len(), |k: int| bids[bids.len() - 1 - k]))
        =~= texto_niveles(Seq::new(bids.len(), |k: int| bids[bids.len() - 1 - k])));
}

} // verus!

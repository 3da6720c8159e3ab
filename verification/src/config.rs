//! Decisiones de configuración tomadas a partir de los valores crudos de las
//! variables de entorno: entorno de despliegue, controles de seguridad del
//! token de administración, enteros y booleanos con default, listas CSV y
//! normalización de símbolos.

use vstd::prelude::*;
use vstd::string::*;
use crate::texto::{
    caracteres, cadena, copiar, en_mayusculas, en_minusculas, esta_en_blanco, iguales,
    bytes_al_menos, ordenar_sin_repetidos, parsear_i64, recortar, separar_csv, unir,
};

verus! {

/// Entorno de despliegue: development, staging, production.
#[derive(Clone, Debug, PartialEq, Eq)]
pub enum Environment {
    Development,
    Staging,
    Production,
    /// Valor no reconocido. Se conserva para impedir que un typo degrade el
    /// proceso accidentalmente a desarrollo.
    Unknown(String),
}

/// Vista de un texto opcional.
pub open spec fn vista(o: Option<&str>) -> Option<Seq<char>> {
    match o {
        Some(x) => Some(x@),
        None => None,
    }
}

/// Texto no vacío tras recortar, o `None`.
pub open spec fn presente(o: Option<Seq<char>>) -> Option<Seq<char>> {
    match o {
        Some(x) => if crate::texto::en_blanco(x) { None } else { Some(x) },
        None => None,
    }
}

/// Valor normalizado del entorno: `MAYAB_ENV` tiene precedencia sobre
/// `ENTORNO`; los valores en blanco se ignoran; sin ninguno se usa
/// `development`. Se recorta y se pasa a minúsculas ASCII.
pub open spec fn valor_entorno(mayab_env: Option<Seq<char>>, entorno: Option<Seq<char>>) -> Seq<char> {
    let elegido = match presente(mayab_env) {
        Some(x) => x,
        None => match presente(entorno) {
            Some(y) => y,
            None => "development"@,
        },
    };
    crate::texto::minusculas(crate::texto::recortado(elegido))
}

/// `e` es el entorno que corresponde al valor normalizado `v`.
pub open spec fn entorno_para(e: Environment, v: Seq<char>) -> bool {
    match e {
        Environment::Development => v == "development"@ || v == "dev"@,
        Environment::Production => v == "production"@ || v == "prod"@,
        Environment::Staging => v == "staging"@ || v == "stage"@,
        Environment::Unknown(s) => {
            &&& s@ == v
            &&& v != "development"@
            &&& v != "dev"@
            &&& v != "production"@
            &&& v != "prod"@
            &&& v != "staging"@
            &&& v != "stage"@
        },
    }
}

impl Environment {
    /// Resuelve el entorno a partir de `MAYAB_ENV` y del legado `ENTORNO`.
    pub fn from_sources(mayab_env: Option<&str>, entorno: Option<&str>) -> (r: Environment)
        ensures
            entorno_para(r, valor_entorno(vista(mayab_env), vista(entorno))),
    {
        let elegido: &str = match mayab_env {
            Some(x) if !esta_en_blanco(x) => x,
            _ => match entorno {
                Some(y) if !esta_en_blanco(y) => y,
                _ => "development",
            },
        };
        let recortado = recortar(elegido);
        let value = en_minusculas(recortado.as_str());
        let v = value.as_str();
        if iguales(v, "development") || iguales(v, "dev") {
            Environment::Development
        } else if iguales(v, "production") || iguales(v, "prod") {
            Environment::Production
        } else if iguales(v, "staging") || iguales(v, "stage") {
            Environment::Staging
        } else {
            Environment::Unknown(value)
        }
    }

    /// Production y los valores no reconocidos exigen token de administración.
    pub fn requires_admin_token(&self) -> (r: bool)
        ensures
            r == (*self is Production || *self is Unknown),
    {
        match self {
            Environment::Production => true,
            Environment::Unknown(_) => true,
            _ => false,
        }
    }

    /// Largo mínimo, en bytes, del token de administración.
    pub fn min_token_length(&self) -> (r: usize)
        ensures
            r == (match *self {
                Environment::Production => 32usize,
                Environment::Staging => 16usize,
                Environment::Development => 0usize,
                Environment::Unknown(_) => 32usize,
            }),
    {
        match self {
            Environment::Production => 32,
            Environment::Staging => 16,
            Environment::Development => 0,
            Environment::Unknown(_) => 32,
        }
    }
}

/// Configuración insegura que detiene el arranque.
#[derive(Clone, Debug, PartialEq, Eq)]
pub enum ConfigError {
    /// El entorno no es development, staging ni production.
    EntornoDesconocido(String),
    /// El entorno exige `ADMIN_TOKEN` y no hay uno no vacío.
    TokenObligatorio,
    /// El token recortado tiene menos bytes que el mínimo del entorno.
    TokenCorto { minimo: usize },
}

/// Token recortado, si queda no vacío.
pub open spec fn token_efectivo(t: Option<Seq<char>>) -> Option<Seq<char>> {
    match t {
        Some(x) => if crate::texto::recortado(x).len() == 0 {
            None
        } else {
            Some(crate::texto::recortado(x))
        },
        None => None,
    }
}

/// Rechaza configuraciones inseguras antes de abrir sockets o arrancar el
/// motor: entorno no reconocido, o token de administración ausente o corto
/// (en bytes) donde el entorno lo exige.
pub fn validar_seguridad(entorno: &Environment, token_admin: Option<&str>) -> (r: Result<(), ConfigError>)
    ensures
        (match *entorno {
            Environment::Unknown(v) => r == Err::<(), ConfigError>(ConfigError::EntornoDesconocido(v)),
            Environment::Production => match token_efectivo(vista(token_admin)) {
                None => r == Err::<(), ConfigError>(ConfigError::TokenObligatorio),
                Some(t) => if vstd::utf8::encode_utf8(t).len() < 32 {
                    r == Err::<(), ConfigError>(ConfigError::TokenCorto { minimo: 32 })
                } else {
                    r is Ok
                },
            },
            _ => r is Ok,
        }),
{
    if let Environment::Unknown(value) = entorno {
        return Err(ConfigError::EntornoDesconocido(copiar(value)));
    }
    if entorno.requires_admin_token() {
        let token = match token_admin {
            Some(t) => recortar(t),
            None => {
                return Err(ConfigError::TokenObligatorio);
            },
        };
        let t = token.as_str();
        if t.is_empty() {
            return Err(ConfigError::TokenObligatorio);
        }
        let min_length = entorno.min_token_length();
        if !bytes_al_menos(t, min_length) {
            return Err(ConfigError::TokenCorto { minimo: min_length });
        }
    }
    Ok(())
}

/// Entero positivo o el default.
pub fn positive_i64(value: i64, fallback: i64) -> (r: i64)
    ensures
        r == (if value > 0 { value } else { fallback }),
{
    if value > 0 {
        value
    } else {
        fallback
    }
}

/// Entero no negativo o el default.
pub fn non_negative_i64(value: i64, fallback: i64) -> (r: i64)
    ensures
        r == (if value >= 0 { value } else { fallback }),
{
    if value >= 0 {
        value
    } else {
        fallback
    }
}

/// Entero leído de una variable: sin variable, el default; con variable, su
/// valor recortado si es un `i64` decimal y si no el default.
pub fn env_i64(valor: Option<&str>, fallback: i64) -> (r: i64)
    ensures
        r == (match vista(valor) {
            None => fallback,
            Some(v) => match crate::texto::entero_decimal(crate::texto::recortado(v)) {
                Some(x) => if i64::MIN <= x <= i64::MAX { x as i64 } else { fallback },
                None => fallback,
            },
        }),
{
    match valor {
        None => fallback,
        Some(v) => {
            let t = recortar(v);
            match parsear_i64(t.as_str()) {
                Some(x) => x,
                None => fallback,
            }
        },
    }
}

/// Valores que activan un booleano.
pub open spec fn es_verdadero(v: Seq<char>) -> bool {
    let x = crate::texto::minusculas(crate::texto::recortado(v));
    x == "1"@ || x == "true"@ || x == "yes"@ || x == "si"@ || x == "on"@
}

/// Booleano leído de una variable: sin variable, el default; con variable,
/// verdadero sólo para 1, true, yes, si u on (sin distinguir mayúsculas).
pub fn env_bool(valor: Option<&str>, fallback: bool) -> (r: bool)
    ensures
        r == (match vista(valor) {
            None => fallback,
            Some(v) => es_verdadero(v),
        }),
{
    match valor {
        None => fallback,
        Some(v) => {
            let t = recortar(v);
            let x = en_minusculas(t.as_str());
            let s = x.as_str();
            iguales(s, "1") || iguales(s, "true") || iguales(s, "yes") || iguales(s, "si")
                || iguales(s, "on")
        },
    }
}

/// Texto de una variable: recortado si queda no vacío, si no el default.
pub open spec fn valor_texto(o: Option<Seq<char>>, fallback: Seq<char>) -> Seq<char> {
    match o {
        Some(v) => if crate::texto::recortado(v).len() > 0 {
            crate::texto::recortado(v)
        } else {
            fallback
        },
        None => fallback,
    }
}

/// Texto leído de una variable: recortado si queda no vacío, si no el default.
pub fn env_string(valor: Option<&str>, fallback: &str) -> (r: String)
    ensures
        r@ == valor_texto(vista(valor), fallback@),
{
    match valor {
        Some(v) => {
            let t = recortar(v);
            if !t.as_str().is_empty() {
                t
            } else {
                String::from_str(fallback)
            }
        },
        None => String::from_str(fallback),
    }
}

/// Guiones convertidos en barras.
pub open spec fn guiones_a_barras(s: Seq<char>) -> Seq<char> {
    Seq::new(s.len(), |k: int| if s[k] == '-' { '/' } else { s[k] })
}

/// `s` termina en `q` y le queda una base no vacía.
pub open spec fn termina_en(s: Seq<char>, q: Seq<char>) -> bool {
    s.len() > q.len() && s.subrange(s.len() - q.len(), s.len() as int) == q
}

/// `s` sin el sufijo `q`.
pub open spec fn sin_sufijo(s: Seq<char>, q: Seq<char>) -> Seq<char> {
    s.subrange(0, s.len() - q.len())
}

/// Par con la barra entre base y quote.
pub open spec fn con_quote(s: Seq<char>, q: Seq<char>) -> Seq<char> {
    sin_sufijo(s, q) + "/"@ + q
}

/// Símbolo normalizado para los adaptadores: recortado, en mayúsculas ASCII,
/// con `-` como `/`; si no trae barra y termina en un quote conocido (USDT,
/// USDC, USD, BTC, ETH, en ese orden) con base no vacía, se separa.
pub open spec fn simbolo_normalizado(v: Seq<char>) -> Seq<char> {
    let u = guiones_a_barras(crate::texto::mayusculas(crate::texto::recortado(v)));
    if u.contains('/') {
        u
    } else if termina_en(u, "USDT"@) {
        con_quote(u, "USDT"@)
    } else if termina_en(u, "USDC"@) {
        con_quote(u, "USDC"@)
    } else if termina_en(u, "USD"@) {
        con_quote(u, "USD"@)
    } else if termina_en(u, "BTC"@) {
        con_quote(u, "BTC"@)
    } else if termina_en(u, "ETH"@) {
        con_quote(u, "ETH"@)
    } else {
        u
    }
}

fn termina_con(v: &Vec<char>, q: &str) -> (r: bool)
    ensures
        r == termina_en(v@, q@),
{
    let w = caracteres(q);
    if v.len() <= w.len() {
        return false;
    }
    let d = v.len() - w.len();
    let mut k: usize = d;
    while k < v.len()
        invariant
            w@ == q@,
            d == v@.len() - w@.len(),
            d > 0,
            d <= k <= v@.len(),
            forall|j: int| d <= j < k ==> v@[j] == #[trigger] w@[j - d],
        decreases v@.len() - k,
    {
        if v[k] != w[k - d] {
            proof {
                assert(v@.subrange(d as int, v@.len() as int)[k - d] == v@[k as int]);
            }
            return false;
        }
        k = k + 1;
    }
    assert forall|j: int| 0 <= j < w@.len() implies v@.subrange(d as int, v@.len() as int)[j] == w@[j] by {
        assert(v@[d + j] == w@[(d + j) - d]);
    }
    assert(v@.subrange(d as int, v@.len() as int) =~= w@);
    true
}

fn separar_quote(v: &Vec<char>, q: &str) -> (r: String)
    requires
        termina_en(v@, q@),
    ensures
        r@ == con_quote(v@, q@),
{
    let w = caracteres(q);
    let d = v.len() - w.len();
    let mut out: Vec<char> = Vec::new();
    let mut i: usize = 0;
    while i < d
        invariant
            w@ == q@,
            d == v@.len() - w@.len(),
            i <= d,
            out@ == v@.subrange(0, i as int),
        decreases d - i,
    {
        out.push(v[i]);
        i = i + 1;
    }
    out.push('/');
    let mut j: usize = 0;
    while j < w.len()
        invariant
            w@ == q@,
            j <= w@.len(),
            out@ == v@.subrange(0, d as int) + seq!['/'] + w@.take(j as int),
        decreases w@.len() - j,
    {
        out.push(w[j]);
        proof {
            assert(w@.take(j + 1) =~= w@.take(j as int).push(w@[j as int]));
        }
        j = j + 1;
    }
    proof {
        reveal_strlit("/");
        assert(w@.take(w@.len() as int) =~= w@);
        assert(out@ =~= con_quote(v@, q@));
    }
    cadena(&out)
}

/// Normaliza un símbolo para los adaptadores (`btc-usdt` → `BTC/USDT`,
/// `ETHUSD` → `ETH/USD`).
pub fn normalizar_simbolo(value: &str) -> (r: String)
    ensures
        r@ == simbolo_normalizado(value@),
{
    let t = recortar(value);
    let m = en_mayusculas(t.as_str());
    let c = caracteres(m.as_str());
    let mut u: Vec<char> = Vec::new();
    let mut tiene_barra = false;
    let mut i: usize = 0;
    while i < c.len()
        invariant
            i <= c@.len(),
            u@ == guiones_a_barras(c@).take(i as int),
            tiene_barra == u@.contains('/'),
        decreases c@.len() - i,
    {
        let x = if c[i] == '-' { '/' } else { c[i] };
        proof {
            assert(guiones_a_barras(c@).take(i + 1) =~= u@.push(x));
        }
        let ghost viejo = u@;
        let ghost habia = tiene_barra;
        u.push(x);
        tiene_barra = tiene_barra || x == '/';
        proof {
            if !tiene_barra {
                assert forall|k: int| 0 <= k < u@.len() implies u@[k] != '/' by {
                    if k < u@.len() - 1 {
                        assert(u@[k] == viejo[k]);
                    }
                }
            } else {
                if x == '/' {
                    assert(u@[u@.len() - 1] == '/');
                } else {
                    assert(habia);
                    let k = choose|k: int| 0 <= k < viejo.len() && viejo[k] == '/';
                    assert(u@[k] == viejo[k]);
                }
            }
        }
        i = i + 1;
    }
    proof {
        assert(guiones_a_barras(c@).take(c@.len() as int) =~= guiones_a_barras(c@));
    }
    if tiene_barra {
        return cadena(&u);
    }
    if termina_con(&u, "USDT") {
        separar_quote(&u, "USDT")
    } else if termina_con(&u, "USDC") {
        separar_quote(&u, "USDC")
    } else if termina_con(&u, "USD") {
        separar_quote(&u, "USD")
    } else if termina_con(&u, "BTC") {
        separar_quote(&u, "BTC")
    } else if termina_con(&u, "ETH") {
        separar_quote(&u, "ETH")
    } else {
        cadena(&u)
    }
}

/// Símbolos crudos configurados: `SYMBOLS` como lista CSV; si queda vacía,
/// `PAR_BASE` (default `BTC/USD`) seguido de la lista CSV de `PARES_EXTRA`
/// (default `ETH/USD,SOL/USD,BTC/USDT,ETH/BTC`).
pub open spec fn simbolos_crudos(
    symbols: Option<Seq<char>>,
    par_base: Option<Seq<char>>,
    pares_extra: Option<Seq<char>>,
) -> Seq<Seq<char>> {
    let s = crate::texto::lista_csv(
        match symbols {
            Some(x) => x,
            None => Seq::empty(),
        },
    );
    if s.len() > 0 {
        s
    } else {
        seq![valor_texto(par_base, "BTC/USD"@)] + crate::texto::lista_csv(
            valor_texto(pares_extra, "ETH/USD,SOL/USD,BTC/USDT,ETH/BTC"@),
        )
    }
}

/// Símbolos configurados, normalizados.
pub open spec fn simbolos_normalizados(
    symbols: Option<Seq<char>>,
    par_base: Option<Seq<char>>,
    pares_extra: Option<Seq<char>>,
) -> Set<Seq<char>> {
    simbolos_crudos(symbols, par_base, pares_extra).map_values(|x: Seq<char>| simbolo_normalizado(x)).to_set()
}

/// Símbolos del proceso: el par base es el menor y los extra el resto.
#[derive(Clone, Debug)]
pub struct Simbolos {
    pub par_base: String,
    pub pares_extra: Vec<String>,
    pub symbols: Vec<String>,
}

/// Resuelve los símbolos a partir de `SYMBOLS`, `PAR_BASE` y `PARES_EXTRA`:
/// normalizados, en orden creciente y sin repetidos; el primero es el par
/// base (o `BTC/USD` si no hay ninguno) y el resto son los pares extra.
pub fn resolver_simbolos(symbols: Option<&str>, par_base: Option<&str>, pares_extra: Option<&str>) -> (r: Simbolos)
    ensures
        crate::texto::estrictamente_ordenadas(crate::texto::vistas(r.symbols@)),
        crate::texto::vistas(r.symbols@).to_set() == simbolos_normalizados(vista(symbols), vista(par_base), vista(pares_extra)),
        r.par_base@ == (if r.symbols@.len() > 0 { r.symbols@[0]@ } else { "BTC/USD"@ }),
        r.symbols@.len() > 0 ==> crate::texto::vistas(r.pares_extra@) == crate::texto::vistas(r.symbols@).skip(1),
        r.symbols@.len() == 0 ==> r.pares_extra@.len() == 0,
{
    let mut crudos = match symbols {
        Some(x) => separar_csv(x),
        None => separar_csv(""),
    };
    proof {
        reveal_strlit("");
    }
    if crudos.len() == 0 {
        let base = env_string(par_base, "BTC/USD");
        let extra_texto = env_string(pares_extra, "ETH/USD,SOL/USD,BTC/USDT,ETH/BTC");
        let extra = separar_csv(extra_texto.as_str());
        let mut todos: Vec<String> = Vec::new();
        todos.push(base);
        let mut k: usize = 0;
        while k < extra.len()
            invariant
                k <= extra@.len(),
                crate::texto::vistas(todos@) == seq![valor_texto(vista(par_base), "BTC/USD"@)] + crate::texto::vistas(extra@).take(k as int),
            decreases extra@.len() - k,
        {
            let ghost viejo = todos@;
            todos.push(copiar(&extra[k]));
            proof {
                assert(crate::texto::vistas(extra@).take(k + 1) =~= crate::texto::vistas(extra@).take(k as int).push(extra@[k as int]@));
                assert(crate::texto::vistas(todos@) =~= crate::texto::vistas(viejo).push(extra@[k as int]@));
            }
            k = k + 1;
        }
        proof {
            assert(crate::texto::vistas(extra@).take(extra@.len() as int) =~= crate::texto::vistas(extra@));
        }
        crudos = todos;
    }
    let ghost cs = crate::texto::vistas(crudos@);
    proof {
        assert(cs == simbolos_crudos(vista(symbols), vista(par_base), vista(pares_extra)));
    }
    let mut normalizados: Vec<String> = Vec::new();
    let mut i: usize = 0;
    while i < crudos.len()
        invariant
            i <= crudos@.len(),
            cs == crate::texto::vistas(crudos@),
            crate::texto::vistas(normalizados@) == cs.take(i as int).map_values(|x: Seq<char>| simbolo_normalizado(x)),
        decreases crudos@.len() - i,
    {
        normalizados.push(normalizar_simbolo(crudos[i].as_str()));
        proof {
            assert(cs.take(i + 1).map_values(|x: Seq<char>| simbolo_normalizado(x)) =~= cs.take(i as int).map_values(|x: Seq<char>| simbolo_normalizado(x)).push(simbolo_normalizado(cs[i as int])));
            assert(crate::texto::vistas(normalizados@) =~= crate::texto::vistas(normalizados@.drop_last()).push(normalizados@.last()@));
        }
        i = i + 1;
    }
    proof {
        assert(cs.take(crudos@.len() as int) =~= cs);
    }
    let ordenados = ordenar_sin_repetidos(normalizados);
    let base = if ordenados.len() > 0 {
        copiar(&ordenados[0])
    } else {
        String::from_str("BTC/USD")
    };
    let mut extra: Vec<String> = Vec::new();
    if ordenados.len() > 0 {
        let mut j: usize = 1;
        while j < ordenados.len()
            invariant
                1 <= j <= ordenados@.len(),
                crate::texto::vistas(extra@) == crate::texto::vistas(ordenados@).subrange(1, j as int),
            decreases ordenados@.len() - j,
        {
            let ghost viejo = extra@;
            extra.push(copiar(&ordenados[j]));
            proof {
                assert(crate::texto::vistas(ordenados@).subrange(1, j + 1) =~= crate::texto::vistas(ordenados@).subrange(1, j as int).push(ordenados@[j as int]@));
                assert(crate::texto::vistas(extra@) =~= crate::texto::vistas(viejo).push(ordenados@[j as int]@));
            }
            j = j + 1;
        }
        proof {
            assert(crate::texto::vistas(ordenados@).subrange(1, ordenados@.len() as int) =~= crate::texto::vistas(ordenados@).skip(1));
        }
    }
    Simbolos { par_base: base, pares_extra: extra, symbols: ordenados }
}

/// Un exchange queda habilitado si la lista está vacía o lo nombra sin
/// distinguir mayúsculas ASCII.
pub open spec fn exchange_en_lista(nombre: Seq<char>, habilitados: Seq<Seq<char>>) -> bool {
    habilitados.len() == 0 || exists|k: int|
        0 <= k < habilitados.len() && crate::texto::minusculas(#[trigger] habilitados[k]) == crate::texto::minusculas(nombre)
}

/// Decide si el exchange `nombre` queda habilitado por `ENABLED_EXCHANGES`.
pub fn exchange_habilitado(nombre: &str, habilitados: &Vec<String>) -> (r: bool)
    ensures
        r == exchange_en_lista(nombre@, crate::texto::vistas(habilitados@)),
{
    if habilitados.len() == 0 {
        return true;
    }
    let n = en_minusculas(nombre);
    let mut k: usize = 0;
    while k < habilitados.len()
        invariant
            k <= habilitados@.len(),
            n@ == crate::texto::minusculas(nombre@),
            forall|j: int| 0 <= j < k ==> crate::texto::minusculas(#[trigger] habilitados@[j]@) != n@,
        decreases habilitados@.len() - k,
    {
        let h = en_minusculas(habilitados[k].as_str());
        if iguales(h.as_str(), n.as_str()) {
            proof {
                assert(crate::texto::vistas(habilitados@)[k as int] == habilitados@[k as int]@);
            }
            return true;
        }
        k = k + 1;
    }
    proof {
        let vs = crate::texto::vistas(habilitados@);
        assert forall|j: int| 0 <= j < vs.len() implies crate::texto::minusculas(#[trigger] vs[j]) != crate::texto::minusculas(nombre@) by {
            assert(vs[j] == habilitados@[j]@);
        }
    }
    false
}

/// `MAYAB_ENV`, si no está en blanco, decide el entorno sin importar el
/// legado `ENTORNO`.
pub proof fn mayab_env_tiene_precedencia(mayab_env: Option<Seq<char>>, e1: Option<Seq<char>>, e2: Option<Seq<char>>)
    requires
        presente(mayab_env) is Some,
    ensures
        valor_entorno(mayab_env, e1) == valor_entorno(mayab_env, e2),
{
}

/// Un valor que no nombra un entorno conocido nunca resuelve a development
/// (ni a otro entorno conocido) y exige token de administración.
pub proof fn entorno_desconocido_nunca_es_development(e: Environment, v: Seq<char>)
    requires
        entorno_para(e, v),
        v != "development"@,
        v != "dev"@,
        v != "production"@,
        v != "prod"@,
        v != "staging"@,
        v != "stage"@,
    ensures
        e is Unknown,
        e != Environment::Development,
{
}

/// Un texto sin guiones, sin espacios en los extremos y cuyos caracteres no
/// cambian al pasarlos a mayúscula es su propia forma previa a separar el
/// quote.
proof fn lema_forma_fija(u: Seq<char>)
    requires
        u.len() > 0 ==> !crate::texto::espacio_unicode(u[0]) && !crate::texto::espacio_unicode(u.last()),
        forall|k: int| 0 <= k < u.len() ==> (#[trigger] u[k]) != '-' && crate::texto::mayuscula(u[k]) == u[k],
    ensures
        guiones_a_barras(crate::texto::mayusculas(crate::texto::recortado(u))) == u,
{
    crate::texto::lema_recortado_fijo(u);
    assert(crate::texto::mayusculas(u) =~= u);
    assert(guiones_a_barras(u) =~= u);
}

/// Normalizar un símbolo ya normalizado no lo cambia.
pub proof fn simbolo_normalizado_es_estable(v: Seq<char>)
    ensures
        simbolo_normalizado(simbolo_normalizado(v)) == simbolo_normalizado(v),
{
    let r0 = crate::texto::recortado(v);
    crate::texto::lema_recortado_extremos(v);
    let m = crate::texto::mayusculas(r0);
    let u = guiones_a_barras(m);
    assert forall|k: int| 0 <= k < u.len() implies (#[trigger] u[k]) != '-' && crate::texto::mayuscula(u[k]) == u[k] by {
        assert(m[k] == crate::texto::mayuscula(r0[k]));
    }
    if u.len() > 0 {
        assert(m[0] == crate::texto::mayuscula(r0[0]));
        assert(m[m.len() - 1] == crate::texto::mayuscula(r0[r0.len() - 1]));
        assert(!crate::texto::espacio_unicode(u[0]));
        assert(!crate::texto::espacio_unicode(u.last()));
    }
    lema_forma_fija(u);
    reveal_strlit("USDT");
    reveal_strlit("USDC");
    reveal_strlit("USD");
    reveal_strlit("BTC");
    reveal_strlit("ETH");
    reveal_strlit("/");
    let r1 = simbolo_normalizado(v);
    if r1 != u {
        let q = if termina_en(u, "USDT"@) {
            "USDT"@
        } else if termina_en(u, "USDC"@) {
            "USDC"@
        } else if termina_en(u, "USD"@) {
            "USD"@
        } else if termina_en(u, "BTC"@) {
            "BTC"@
        } else {
            "ETH"@
        };
        assert(r1 == con_quote(u, q));
        let b = sin_sufijo(u, q);
        assert(r1 == b + seq!['/'] + q);
        assert forall|k: int| 0 <= k < r1.len() implies (#[trigger] r1[k]) != '-' && crate::texto::mayuscula(r1[k]) == r1[k] by {
            if k < b.len() {
                assert(r1[k] == u[k]);
            } else if k > b.len() {
                assert(r1[k] == q[k - b.len() - 1]);
            }
        }
        assert(r1[0] == u[0]);
        assert(r1.last() == q.last());
        lema_forma_fija(r1);
        assert(r1.contains('/')) by {
            assert(r1[b.len() as int] == '/');
        }
    }
}

/// Letra ASCII (en cualquier caja) o dígito.
pub open spec fn alfanumerico_ascii(c: char) -> bool {
    ('a' <= c && c <= 'z') || ('A' <= c && c <= 'Z') || ('0' <= c && c <= '9')
}

proof fn lema_no_termina_en(u: Seq<char>, t: Seq<char>, j: int)
    requires
        0 <= j < t.len(),
        u.len() > t.len() ==> u[u.len() - t.len() + j] != t[j],
    ensures
        !termina_en(u, t),
{
    if termina_en(u, t) {
        assert(u.subrange(u.len() - t.len(), u.len() as int)[j] == u[u.len() - t.len() + j]);
    }
}

proof fn lema_termina_en(m: Seq<char>, t: Seq<char>)
    requires
        m.len() > 0,
    ensures
        termina_en(m + t, t),
        con_quote(m + t, t) == m + "/"@ + t,
{
    assert((m + t).subrange((m + t).len() - t.len(), (m + t).len() as int) =~= t);
    assert(sin_sufijo(m + t, t) =~= m);
}

/// Un símbolo sin separador, hecho de letras ASCII en cualquier caja y
/// dígitos, que termina en un quote conocido (USDT, USDC, USD, BTC o ETH, en
/// cualquier caja) tras una base no vacía se separa en `BASE/QUOTE` en
/// mayúsculas: `ethbtc` da `ETH/BTC` y `solusdt` da `SOL/USDT`.
pub proof fn simbolo_con_quote_se_separa(base: Seq<char>, quote: Seq<char>, q: Seq<char>)
    requires
        base.len() > 0,
        forall|k: int| 0 <= k < base.len() ==> alfanumerico_ascii(#[trigger] base[k]),
        q == "USDT"@ || q == "USDC"@ || q == "USD"@ || q == "BTC"@ || q == "ETH"@,
        crate::texto::mayusculas(quote) == q,
    ensures
        simbolo_normalizado(base + quote) == crate::texto::mayusculas(base) + "/"@ + q,
{
    reveal_strlit("USDT");
    reveal_strlit("USDC");
    reveal_strlit("USD");
    reveal_strlit("BTC");
    reveal_strlit("ETH");
    reveal_strlit("/");
    let v = base + quote;
    let m = crate::texto::mayusculas(base);
    assert(quote.len() == q.len());
    assert forall|k: int| 0 <= k < quote.len() implies alfanumerico_ascii(#[trigger] quote[k]) by {
        assert(crate::texto::mayuscula(quote[k]) == q[k]);
        assert('A' <= q[k] && q[k] <= 'Z');
    }
    assert forall|k: int| 0 <= k < v.len() implies alfanumerico_ascii(#[trigger] v[k]) by {
        if k < base.len() {
            assert(v[k] == base[k]);
        } else {
            assert(v[k] == quote[k - base.len()]);
        }
    }
    assert(alfanumerico_ascii(v[0]));
    assert(alfanumerico_ascii(v[v.len() - 1]));
    crate::texto::lema_recortado_fijo(v);
    let u = guiones_a_barras(crate::texto::mayusculas(v));
    assert(u =~= m + q) by {
        assert forall|k: int| 0 <= k < v.len() implies #[trigger] crate::texto::mayusculas(v)[k] != '-' by {
            assert(alfanumerico_ascii(v[k]));
        }
        assert forall|k: int| 0 <= k < base.len() implies #[trigger] crate::texto::mayusculas(v)[k] == m[k] by {
            assert(v[k] == base[k]);
        }
        assert forall|k: int| base.len() <= k < v.len() implies #[trigger] crate::texto::mayusculas(v)[k] == q[k - base.len()] by {
            assert(v[k] == quote[k - base.len()]);
            assert(crate::texto::mayusculas(quote)[k - base.len()] == q[k - base.len()]);
        }
    }
    assert(!u.contains('/')) by {
        if u.contains('/') {
            let k = choose|k: int| 0 <= k < u.len() && u[k] == '/';
            assert(alfanumerico_ascii(v[k]));
        }
    }
    let n = u.len();
    assert(n == m.len() + q.len());
    assert(m.len() > 0);
    assert(u[n - 1] == q[q.len() - 1]);
    assert(u[n - 2] == q[q.len() - 2]);
    lema_termina_en(m, q);
    if q == "USDC"@ {
        lema_no_termina_en(u, "USDT"@, 3);
    } else if q == "USD"@ {
        lema_no_termina_en(u, "USDT"@, 3);
        lema_no_termina_en(u, "USDC"@, 3);
    } else if q == "BTC"@ {
        lema_no_termina_en(u, "USDT"@, 3);
        lema_no_termina_en(u, "USDC"@, 2);
        lema_no_termina_en(u, "USD"@, 2);
    } else if q == "ETH"@ {
        lema_no_termina_en(u, "USDT"@, 3);
        lema_no_termina_en(u, "USDC"@, 3);
        lema_no_termina_en(u, "USD"@, 2);
        lema_no_termina_en(u, "BTC"@, 2);
    }
}

} // verus!

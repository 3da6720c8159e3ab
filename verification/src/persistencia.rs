//! Políticas de persistencia: modo de almacenamiento de SQLite y TLS de la
//! conexión a TimescaleDB.

use vstd::prelude::*;
use crate::texto::{en_minusculas, iguales, recortar};

verus! {

/// Sólo estos modos declaran el almacenamiento SQLite como persistente.
pub open spec fn modo_persistente(mode: Seq<char>) -> bool {
    mode == "sqlite_persistent"@ || mode == "volume"@
}

/// Decide si el modo de almacenamiento es persistente.
pub fn sqlite_storage_persistent(storage_mode: &str) -> (r: bool)
    ensures
        r == modo_persistente(storage_mode@),
{
    iguales(storage_mode, "sqlite_persistent") || iguales(storage_mode, "volume")
}

/// Modo declarado en `STORAGE_MODE`: recortado y en minúsculas, o
/// `sqlite_ephemeral` si falta o queda vacío.
pub open spec fn modo_declarado(valor: Option<Seq<char>>) -> Seq<char> {
    match valor {
        Some(v) => {
            let m = crate::texto::minusculas(crate::texto::recortado(v));
            if m.len() == 0 {
                "sqlite_ephemeral"@
            } else {
                m
            }
        },
        None => "sqlite_ephemeral"@,
    }
}

/// Normaliza el modo de almacenamiento declarado.
pub fn modo_almacenamiento(valor: Option<&str>) -> (r: String)
    ensures
        r@ == modo_declarado(crate::config::vista(valor)),
{
    match valor {
        Some(v) => {
            let t = recortar(v);
            let m = en_minusculas(t.as_str());
            if m.as_str().is_empty() {
                String::from_str("sqlite_ephemeral")
            } else {
                m
            }
        },
        None => String::from_str("sqlite_ephemeral"),
    }
}

/// Estado que se publica para el modo: `persistent` o `ephemeral`.
pub fn estado_almacenamiento(storage_mode: &str) -> (r: &'static str)
    ensures
        r@ == (if modo_persistente(storage_mode@) { "persistent"@ } else { "ephemeral"@ }),
{
    if sqlite_storage_persistent(storage_mode) {
        "persistent"
    } else {
        "ephemeral"
    }
}

/// `ALLOW_INSECURE_DATABASE` sólo habilita una base sin TLS con el valor
/// exacto `true`.
pub fn valor_habilita_base_insegura(valor: Option<&str>) -> (r: bool)
    ensures
        r == (crate::config::vista(valor) == Some("true"@)),
{
    match valor {
        Some(v) => iguales(v, "true"),
        None => false,
    }
}

/// Modo TLS de una conexión PostgreSQL.
#[derive(Clone, Copy, Debug, PartialEq, Eq, Structural)]
pub enum ModoSsl {
    Disable,
    Prefer,
    Require,
    /// Cualquier otro modo que la biblioteca agregue.
    Otro,
}

/// Conexión sin TLS rechazada.
#[derive(Clone, Copy, Debug, PartialEq, Eq, Structural)]
pub enum ErrorTls {
    /// `sslmode=disable` sin `ALLOW_INSECURE_DATABASE=true`.
    SinTlsNoAutorizado,
}

/// Mensaje de un error de política TLS.
pub open spec fn mensaje_tls(e: ErrorTls) -> Seq<char> {
    match e {
        ErrorTls::SinTlsNoAutorizado =>
            "sslmode=disable requiere ALLOW_INSECURE_DATABASE=true; use TLS en producción"@,
    }
}

impl ErrorTls {
    /// Mensaje legible del error.
    pub fn to_string(&self) -> (r: String)
        ensures
            r@ == mensaje_tls(*self),
    {
        match self {
            ErrorTls::SinTlsNoAutorizado => String::from_str(
                "sslmode=disable requiere ALLOW_INSECURE_DATABASE=true; use TLS en producción",
            ),
        }
    }
}

/// Política TLS: `disable` exige el opt-in explícito, `require` se conserva
/// y cualquier otro modo se eleva a `require`.
pub open spec fn modo_tls(modo: ModoSsl, allow_insecure: bool) -> Result<ModoSsl, ErrorTls> {
    match modo {
        ModoSsl::Disable => if allow_insecure {
            Ok(ModoSsl::Disable)
        } else {
            Err(ErrorTls::SinTlsNoAutorizado)
        },
        ModoSsl::Require => Ok(ModoSsl::Require),
        _ => Ok(ModoSsl::Require),
    }
}

/// Aplica la política TLS al modo configurado.
pub fn politica_tls(modo: ModoSsl, allow_insecure: bool) -> (r: Result<ModoSsl, ErrorTls>)
    ensures
        r == modo_tls(modo, allow_insecure),
{
    match modo {
        ModoSsl::Disable => if allow_insecure {
            Ok(ModoSsl::Disable)
        } else {
            Err(ErrorTls::SinTlsNoAutorizado)
        },
        ModoSsl::Require => Ok(ModoSsl::Require),
        _ => Ok(ModoSsl::Require),
    }
}

/// Un modo distinto de `disable` nunca queda sin TLS tras la política, y
/// `disable` sólo pasa con el opt-in.
pub proof fn tls_nunca_se_degrada(modo: ModoSsl, allow_insecure: bool)
    ensures
        modo_tls(modo, allow_insecure) matches Ok(m) && m == ModoSsl::Disable ==> modo == ModoSsl::Disable && allow_insecure,
        modo != ModoSsl::Disable ==> modo_tls(modo, allow_insecure) == Ok::<ModoSsl, ErrorTls>(ModoSsl::Require),
{
}

} // verus!

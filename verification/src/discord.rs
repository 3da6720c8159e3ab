//! Decisiones del endpoint de interacciones de Discord: firma Ed25519 de la
//! petición, permisos de administración del miembro y recortes de texto.

use vstd::prelude::*;
use vstd::string::*;
use ed25519_dalek::Verifier;
use crate::texto::{caracteres, iguales, recortar};

verus! {

/// Encabezado con la firma Ed25519 en hexadecimal.
pub const SIGNATURE_HEADER: &'static str = "x-signature-ed25519";
/// Encabezado con el timestamp firmado.
pub const TIMESTAMP_HEADER: &'static str = "x-signature-timestamp";

/// Valor de un dígito hexadecimal ASCII (mayúscula o minúscula).
pub open spec fn valor_hex(c: u8) -> Option<int> {
    if 0x41 <= c <= 0x46 {
        Some(c - 0x41 + 10)
    } else if 0x61 <= c <= 0x66 {
        Some(c - 0x61 + 10)
    } else if 0x30 <= c <= 0x39 {
        Some(c - 0x30)
    } else {
        None
    }
}

/// Decodificación hexadecimal: largo par y sólo dígitos hexadecimales; cada
/// par de dígitos da un byte, el primero en el nibble alto.
pub open spec fn hex_decodificado(b: Seq<u8>) -> Option<Seq<u8>> {
    if b.len() % 2 != 0 {
        None
    } else if exists|k: int| 0 <= k < b.len() && (#[trigger] valor_hex(b[k])) is None {
        None
    } else {
        Some(Seq::new((b.len() / 2) as nat, |i: int| (valor_hex(b[2 * i])->0 * 16 + valor_hex(b[2 * i + 1])->0) as u8))
    }
}

/// `hex::decode`: los bytes que codifica el texto hexadecimal, o `None` si el
/// largo es impar o algún byte no es un dígito hexadecimal.
#[verifier::external_body]
fn decodificar_hex(texto: &[u8]) -> (r: Option<Vec<u8>>)
    ensures
        match hex_decodificado(texto@) {
            Some(x) => r is Some && r->0@ == x,
            None => r is None,
        },
{
    hex::decode(texto).ok()
}

/// Si `firma` es una firma Ed25519 válida de `mensaje` con la clave pública
/// `clave` (32 bytes), según `ed25519_dalek`.
pub uninterp spec fn ed25519_acepta(clave: Seq<u8>, mensaje: Seq<u8>, firma: Seq<u8>) -> bool;

/// Verificación de `ed25519_dalek`: `VerifyingKey::from_bytes` sobre la clave
/// de 32 bytes, `Signature::from_slice` sobre la firma de 64 bytes y
/// `Verifier::verify` del mensaje. El contrato sólo nombra el resultado; una
/// clave que no es un punto válido da `false`.
#[verifier::external_body]
fn verificar_ed25519(clave: &[u8], mensaje: &[u8], firma: &[u8]) -> (r: bool)
    requires
        clave@.len() == 32,
        firma@.len() == 64,
    ensures
        r == ed25519_acepta(clave@, mensaje@, firma@),
{
    let Ok(bytes) = <[u8; 32]>::try_from(clave) else { return false };
    let Ok(key) = ed25519_dalek::VerifyingKey::from_bytes(&bytes) else { return false };
    let Ok(sig) = ed25519_dalek::Signature::from_slice(firma) else { return false };
    key.verify(mensaje, &sig).is_ok()
}

/// La petición está firmada: hay timestamp y firma, la firma es hexadecimal
/// de 64 bytes y Ed25519 acepta `timestamp ++ body` con la clave.
pub open spec fn firma_aceptada(
    clave: Seq<u8>,
    timestamp: Option<Seq<char>>,
    firma: Option<Seq<char>>,
    body: Seq<u8>,
) -> bool {
    match (timestamp, firma) {
        (Some(t), Some(f)) => match hex_decodificado(vstd::utf8::encode_utf8(f)) {
            Some(s) => s.len() == 64 && ed25519_acepta(clave, vstd::utf8::encode_utf8(t) + body, s),
            None => false,
        },
        _ => false,
    }
}

/// Valida la firma Ed25519 de una interacción de Discord.
pub fn firma_valida(clave_publica: &[u8], timestamp: Option<&str>, firma: Option<&str>, body: &[u8]) -> (r: bool)
    requires
        clave_publica@.len() == 32,
    ensures
        r == firma_aceptada(
            clave_publica@,
            crate::config::vista(timestamp),
            crate::config::vista(firma),
            body@,
        ),
{
    let t = match timestamp {
        Some(t) => t,
        None => {
            return false;
        },
    };
    let f = match firma {
        Some(f) => f,
        None => {
            return false;
        },
    };
    let bytes_firma = match decodificar_hex(f.as_bytes()) {
        Some(b) => b,
        None => {
            return false;
        },
    };
    if bytes_firma.len() != 64 {
        return false;
    }
    let mut mensaje: Vec<u8> = Vec::new();
    let tb = t.as_bytes();
    let mut i: usize = 0;
    while i < tb.len()
        invariant
            i <= tb@.len(),
            mensaje@ == tb@.take(i as int),
        decreases tb@.len() - i,
    {
        mensaje.push(tb[i]);
        proof {
            assert(tb@.take(i + 1) =~= tb@.take(i as int).push(tb@[i as int]));
        }
        i = i + 1;
    }
    let mut j: usize = 0;
    while j < body.len()
        invariant
            i == tb@.len(),
            j <= body@.len(),
            mensaje@ == tb@ + body@.take(j as int),
        decreases body@.len() - j,
    {
        mensaje.push(body[j]);
        proof {
            assert(body@.take(j + 1) =~= body@.take(j as int).push(body@[j as int]));
        }
        j = j + 1;
    }
    proof {
        assert(tb@.take(tb@.len() as int) =~= tb@);
        assert(body@.take(body@.len() as int) =~= body@);
    }
    verificar_ed25519(clave_publica, mensaje.as_slice(), bytes_firma.as_slice())
}

/// Permisos de Discord: el miembro es administrador si el campo es un `u64`
/// decimal con el bit de administrador (8) o de gestionar servidor (32).
pub open spec fn es_admin(value: Seq<char>) -> bool {
    match crate::texto::natural_decimal(value) {
        Some(v) => v <= u64::MAX && (v as u64) & 40u64 != 0,
        None => false,
    }
}

/// Decide si los permisos del miembro permiten mutar el simulador.
pub fn permisos_admin(value: &str) -> (r: bool)
    ensures
        r == es_admin(value@),
{
    match crate::texto::parsear_u64(value) {
        Some(bits) => bits & 40 != 0,
        None => false,
    }
}

/// Los primeros `n` caracteres del texto.
pub open spec fn primeros(s: Seq<char>, n: int) -> Seq<char> {
    if s.len() > n {
        s.take(n)
    } else {
        s
    }
}

fn primeros_caracteres(value: &str, n: usize) -> (r: String)
    ensures
        r@ == primeros(value@, n as int),
{
    let v = caracteres(value);
    let mut out: Vec<char> = Vec::new();
    let mut i: usize = 0;
    while i < v.len() && i < n
        invariant
            v@ == value@,
            i <= v@.len(),
            i <= n,
            out@ == v@.take(i as int),
        decreases v@.len() - i,
    {
        out.push(v[i]);
        proof {
            assert(v@.take(i + 1) =~= v@.take(i as int).push(v@[i as int]));
        }
        i = i + 1;
    }
    proof {
        if v@.len() <= n {
            assert(v@.take(v@.len() as int) =~= v@);
        }
    }
    crate::texto::cadena(&out)
}

/// Texto recortado a 500 caracteres para los logs.
pub fn truncar_log(value: &str) -> (r: String)
    ensures
        r@ == primeros(value@, 500),
{
    primeros_caracteres(value, 500)
}

/// Texto recortado a 1 950 caracteres, bajo el límite de un mensaje de Discord.
pub fn truncar(value: &str) -> (r: String)
    ensures
        r@ == primeros(value@, 1950),
{
    primeros_caracteres(value, 1950)
}

/// Comando slash del bot, por su nombre.
#[derive(Clone, Copy, Debug, PartialEq, Eq, Structural)]
pub enum ComandoDiscord {
    /// `estado` o `resumen`: resumen del simulador.
    Estado,
    /// `demo-rentable`: prepara la demo rentable simulada.
    DemoRentable,
    /// Cualquier otro nombre.
    Desconocido,
}

/// El comando que nombra el texto.
pub open spec fn comando_nombrado(nombre: Seq<char>) -> ComandoDiscord {
    if nombre == "estado"@ || nombre == "resumen"@ {
        ComandoDiscord::Estado
    } else if nombre == "demo-rentable"@ {
        ComandoDiscord::DemoRentable
    } else {
        ComandoDiscord::Desconocido
    }
}

/// Reconoce un comando slash por su nombre.
pub fn comando_de(nombre: &str) -> (r: ComandoDiscord)
    ensures
        r == comando_nombrado(nombre@),
{
    if iguales(nombre, "estado") || iguales(nombre, "resumen") {
        ComandoDiscord::Estado
    } else if iguales(nombre, "demo-rentable") {
        ComandoDiscord::DemoRentable
    } else {
        ComandoDiscord::Desconocido
    }
}

/// Tool que el agente de IA pidió ejecutar.
#[derive(Clone, Copy, Debug, PartialEq, Eq, Structural)]
pub enum ToolIa {
    /// `get_state`: métricas, riesgo, operaciones y GA.
    Estado,
    /// `get_config`: parámetros actuales.
    Configuracion,
    /// `get_audit_history`: resumen de auditoría, sólo lectura.
    HistorialAuditoria,
    /// `prepare_demo`: prepara la demo rentable simulada.
    PrepararDemo,
    /// `update_parameters` de un miembro con permisos de administración.
    ActualizarParametros,
    /// `update_parameters` sin permisos: se rechaza sin mutar.
    SinPermiso,
    /// Cualquier otro nombre.
    Desconocida,
}

/// La tool que nombra el texto, según los permisos del miembro.
pub open spec fn tool_nombrada(nombre: Seq<char>, puede_mutar: bool) -> ToolIa {
    if nombre == "get_state"@ {
        ToolIa::Estado
    } else if nombre == "get_config"@ {
        ToolIa::Configuracion
    } else if nombre == "get_audit_history"@ {
        ToolIa::HistorialAuditoria
    } else if nombre == "prepare_demo"@ {
        ToolIa::PrepararDemo
    } else if nombre == "update_parameters"@ {
        if puede_mutar {
            ToolIa::ActualizarParametros
        } else {
            ToolIa::SinPermiso
        }
    } else {
        ToolIa::Desconocida
    }
}

/// Reconoce la tool pedida por el agente.
pub fn tool_de(nombre: &str, puede_mutar: bool) -> (r: ToolIa)
    ensures
        r == tool_nombrada(nombre@, puede_mutar),
{
    if iguales(nombre, "get_state") {
        ToolIa::Estado
    } else if iguales(nombre, "get_config") {
        ToolIa::Configuracion
    } else if iguales(nombre, "get_audit_history") {
        ToolIa::HistorialAuditoria
    } else if iguales(nombre, "prepare_demo") {
        ToolIa::PrepararDemo
    } else if iguales(nombre, "update_parameters") {
        if puede_mutar {
            ToolIa::ActualizarParametros
        } else {
            ToolIa::SinPermiso
        }
    } else {
        ToolIa::Desconocida
    }
}

/// Nombres de las tools que se ofrecen al agente: las de lectura y la demo, y
/// `update_parameters` sólo si el miembro puede mutar.
pub open spec fn tools_ofrecidas(puede_mutar: bool) -> Seq<Seq<char>> {
    let base = seq!["get_state"@, "get_config"@, "get_audit_history"@, "prepare_demo"@];
    if puede_mutar {
        base.push("update_parameters"@)
    } else {
        base
    }
}

/// Nombres de las tools que se ofrecen al agente.
pub fn tools_disponibles(puede_mutar: bool) -> (r: Vec<&'static str>)
    ensures
        r@.map_values(|t: &'static str| t@) == tools_ofrecidas(puede_mutar),
{
    let mut r: Vec<&'static str> = Vec::new();
    r.push("get_state");
    r.push("get_config");
    r.push("get_audit_history");
    r.push("prepare_demo");
    if puede_mutar {
        r.push("update_parameters");
    }
    assert(r@.map_values(|t: &'static str| t@) =~= tools_ofrecidas(puede_mutar));
    r
}

/// Lo que se lee del cuerpo de una interacción: su tipo, el nombre del
/// comando si trae datos, el texto de la opción `pregunta` si es una cadena y
/// los permisos del miembro si viene uno.
pub struct InteraccionRecibida {
    pub tipo: u8,
    pub comando: Option<String>,
    pub pregunta: Option<String>,
    pub permisos: Option<String>,
}

/// Respuesta inmediata del endpoint a una interacción.
#[derive(Debug)]
pub enum RespuestaInteraccion {
    /// Sin clave pública configurada (503).
    NoConfigurado,
    /// Firma ausente o inválida (401).
    FirmaInvalida,
    /// El cuerpo no es una interacción (400).
    PayloadInvalido,
    /// Respuesta al ping de Discord.
    Pong,
    /// Tipo de interacción distinto de ping y comando.
    TipoNoSoportado,
    /// Interacción de comando sin datos.
    SinComando,
    /// Comando slash distinto de `mayab` y `ask`.
    Comando(ComandoDiscord),
    /// Pregunta a la IA sin clave de NVIDIA configurada.
    IaNoConfigurada,
    /// Pregunta a la IA vacía tras recortar.
    PreguntaVacia,
    /// Pregunta diferida al agente, con la pregunta recortada y si el miembro
    /// puede mutar parámetros.
    Diferida { pregunta: String, puede_mutar: bool },
}

/// El texto de una opción, o vacío si no viene.
pub open spec fn texto_o_vacio(t: Option<String>) -> Seq<char> {
    match t {
        Some(x) => x@,
        None => Seq::empty(),
    }
}

/// Si los permisos del miembro, si viene uno, son de administración.
pub open spec fn miembro_admin(p: Option<String>) -> bool {
    match p {
        Some(x) => es_admin(x@),
        None => false,
    }
}

/// Decide la respuesta inmediata a una interacción de Discord: sin clave no
/// hay servicio; luego la firma; luego el cuerpo (`None` si no es una
/// interacción); el ping se contesta; sólo los comandos se atienden; `mayab`
/// y `ask` van a la IA con la pregunta recortada, y los demás comandos se
/// ejecutan por nombre.
pub fn decidir_interaccion(
    clave_publica: Option<&[u8]>,
    timestamp: Option<&str>,
    firma: Option<&str>,
    body: &[u8],
    interaccion: Option<InteraccionRecibida>,
    ia_configurada: bool,
) -> (r: RespuestaInteraccion)
    requires
        clave_publica matches Some(c) ==> c@.len() == 32,
    ensures
        clave_publica is None ==> r is NoConfigurado,
        clave_publica matches Some(c) ==> {
            if !firma_aceptada(c@, crate::config::vista(timestamp), crate::config::vista(firma), body@) {
                r is FirmaInvalida
            } else {
                match interaccion {
                    None => r is PayloadInvalido,
                    Some(i) => if i.tipo == 1 {
                        r is Pong
                    } else if i.tipo != 2 {
                        r is TipoNoSoportado
                    } else {
                        match i.comando {
                            None => r is SinComando,
                            Some(nombre) => if nombre@ != "mayab"@ && nombre@ != "ask"@ {
                                r == RespuestaInteraccion::Comando(comando_nombrado(nombre@))
                            } else if !ia_configurada {
                                r is IaNoConfigurada
                            } else if crate::texto::recortado(texto_o_vacio(i.pregunta)).len() == 0 {
                                r is PreguntaVacia
                            } else {
                                r matches RespuestaInteraccion::Diferida { pregunta, puede_mutar }
                                    && pregunta@ == crate::texto::recortado(texto_o_vacio(i.pregunta))
                                    && puede_mutar == miembro_admin(i.permisos)
                            },
                        }
                    },
                }
            }
        },
{
    let clave = match clave_publica {
        Some(c) => c,
        None => {
            return RespuestaInteraccion::NoConfigurado;
        },
    };
    if !firma_valida(clave, timestamp, firma, body) {
        return RespuestaInteraccion::FirmaInvalida;
    }
    let i = match interaccion {
        Some(i) => i,
        None => {
            return RespuestaInteraccion::PayloadInvalido;
        },
    };
    if i.tipo == 1 {
        return RespuestaInteraccion::Pong;
    }
    if i.tipo != 2 {
        return RespuestaInteraccion::TipoNoSoportado;
    }
    let nombre = match i.comando {
        Some(n) => n,
        None => {
            return RespuestaInteraccion::SinComando;
        },
    };
    if !iguales(nombre.as_str(), "mayab") && !iguales(nombre.as_str(), "ask") {
        return RespuestaInteraccion::Comando(comando_de(nombre.as_str()));
    }
    if !ia_configurada {
        return RespuestaInteraccion::IaNoConfigurada;
    }
    let pregunta = match i.pregunta {
        Some(p) => recortar(p.as_str()),
        None => recortar(""),
    };
    proof {
        reveal_strlit("");
    }
    if pregunta.as_str().is_empty() {
        return RespuestaInteraccion::PreguntaVacia;
    }
    let puede_mutar = match i.permisos {
        Some(p) => permisos_admin(p.as_str()),
        None => false,
    };
    RespuestaInteraccion::Diferida { pregunta, puede_mutar }
}

/// Sin permisos de administración la IA nunca actualiza parámetros: la tool
/// de mutación no se ofrece y, si se pide, se rechaza.
pub proof fn sin_permisos_no_se_mutan_parametros(nombre: Seq<char>)
    ensures
        tool_nombrada(nombre, false) != ToolIa::ActualizarParametros,
        !tools_ofrecidas(false).contains("update_parameters"@),
        tools_ofrecidas(true).contains("update_parameters"@),
{
    reveal_strlit("get_state");
    reveal_strlit("get_config");
    reveal_strlit("get_audit_history");
    reveal_strlit("prepare_demo");
    reveal_strlit("update_parameters");
    let t = tools_ofrecidas(false);
    assert forall|k: int| 0 <= k < t.len() implies t[k] != "update_parameters"@ by {
        assert(t[k][0] == 'g' || t[k][0] == 'p');
        assert("update_parameters"@[0] == 'u');
    }
    assert(tools_ofrecidas(true)[4] == "update_parameters"@);
}

} // verus!

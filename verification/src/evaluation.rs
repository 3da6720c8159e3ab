//! Partición de una cinta de evaluación en entrenamiento, calibración y
//! holdout.

use vstd::prelude::*;
use crate::texto::{campos, parsear_u64, recortar};

verus! {

/// Porcentajes de entrenamiento, calibración y holdout.
#[derive(Clone, Copy, Debug, PartialEq, Eq)]
pub struct Split {
    pub train: u32,
    pub calibration: u32,
    pub holdout: u32,
}

/// Motivo por el que un texto no es un split.
#[derive(Clone, Copy, Debug, PartialEq, Eq)]
pub enum SplitError {
    /// Algún campo no es un `u32` decimal.
    PorcentajeInvalido,
    /// No son tres porcentajes positivos que sumen 100.
    FormaInvalida,
}

/// Valor de un campo como `u32`, si lo es tras recortarlo.
pub open spec fn porcentaje(c: Seq<char>) -> Option<int> {
    match crate::texto::natural_decimal(crate::texto::recortado(c)) {
        Some(v) => if v <= u32::MAX { Some(v) } else { None },
        None => None,
    }
}

/// Todos los campos son porcentajes.
pub open spec fn todos_porcentajes(cs: Seq<Seq<char>>) -> bool {
    forall|k: int| 0 <= k < cs.len() ==> (#[trigger] porcentaje(cs[k])) is Some
}

/// Resultado de leer un split: cada campo separado por comas debe ser un
/// `u32`; deben ser tres, positivos y sumar 100.
pub open spec fn split_de(s: Seq<char>) -> Result<(int, int, int), SplitError> {
    let cs = crate::texto::campos_csv(s);
    if !todos_porcentajes(cs) {
        Err(SplitError::PorcentajeInvalido)
    } else if cs.len() != 3 {
        Err(SplitError::FormaInvalida)
    } else {
        let a = porcentaje(cs[0])->0;
        let b = porcentaje(cs[1])->0;
        let c = porcentaje(cs[2])->0;
        if a + b + c != 100 || a == 0 || b == 0 || c == 0 {
            Err(SplitError::FormaInvalida)
        } else {
            Ok((a, b, c))
        }
    }
}

impl Split {
    /// El split por defecto: 50 / 20 / 30.
    pub fn por_defecto() -> (r: Split)
        ensures
            r.train == 50 && r.calibration == 20 && r.holdout == 30,
    {
        Split { train: 50, calibration: 20, holdout: 30 }
    }

    /// Lee `train,calibration,holdout`.
    pub fn desde_texto(s: &str) -> (r: Result<Split, SplitError>)
        ensures
            match split_de(s@) {
                Ok((a, b, c)) => r == Ok::<Split, SplitError>(Split { train: a as u32, calibration: b as u32, holdout: c as u32 }),
                Err(e) => r == Err::<Split, SplitError>(e),
            },
    {
        let cs = campos(s);
        let ghost vs = crate::texto::vistas(cs@);
        let mut valores: Vec<u32> = Vec::new();
        let mut i: usize = 0;
        while i < cs.len()
            invariant
                vs == crate::texto::vistas(cs@),
                vs == crate::texto::campos_csv(s@),
                i <= cs@.len(),
                valores@.len() == i,
                forall|k: int| 0 <= k < i ==> (#[trigger] porcentaje(vs[k])) == Some(valores@[k] as int),
            decreases cs@.len() - i,
        {
            let t = recortar(cs[i].as_str());
            let v = parsear_u64(t.as_str());
            proof {
                assert(vs[i as int] == cs@[i as int]@);
                assert(t@ == crate::texto::recortado(vs[i as int]));
            }
            match v {
                Some(x) => {
                    proof {
                        assert(crate::texto::natural_decimal(t@) == Some(x as int));
                    }
                    if x > 4_294_967_295 {
                        proof {
                            assert(porcentaje(vs[i as int]) is None);
                        }
                        return Err(SplitError::PorcentajeInvalido);
                    }
                    let ghost antes = valores@;
                    valores.push(x as u32);
                    proof {
                        assert(porcentaje(vs[i as int]) == Some(x as int));
                        assert forall|k: int| 0 <= k < i + 1 implies (#[trigger] porcentaje(vs[k])) == Some(valores@[k] as int) by {
                            if k < i {
                                assert(valores@[k] == antes[k]);
                            }
                        }
                    }
                },
                None => {
                    proof {
                        assert(porcentaje(vs[i as int]) is None);
                    }
                    return Err(SplitError::PorcentajeInvalido);
                },
            }
            i = i + 1;
        }
        proof {
            assert(todos_porcentajes(vs));
        }
        if valores.len() != 3 {
            return Err(SplitError::FormaInvalida);
        }
        let suma: u64 = valores[0] as u64 + valores[1] as u64 + valores[2] as u64;
        if suma != 100 || valores[0] == 0 || valores[1] == 0 || valores[2] == 0 {
            return Err(SplitError::FormaInvalida);
        }
        Ok(Split { train: valores[0], calibration: valores[1], holdout: valores[2] })
    }
}

impl Default for Split {
    /// El split por defecto: 50 / 20 / 30.
    fn default() -> (r: Split)
        ensures
            r.train == 50 && r.calibration == 20 && r.holdout == 30,
    {
        Split::por_defecto()
    }
}

impl core::str::FromStr for Split {
    type Err = SplitError;

    fn from_str(s: &str) -> (r: Result<Split, SplitError>)
        ensures
            match split_de(s@) {
                Ok((a, b, c)) => r == Ok::<Split, SplitError>(Split { train: a as u32, calibration: b as u32, holdout: c as u32 }),
                Err(e) => r == Err::<Split, SplitError>(e),
            },
    {
        Split::desde_texto(s)
    }
}

/// `std::path::PathBuf`, que Verus trata como opaco: las rutas sólo se
/// transportan.
#[verifier::external_type_specification]
#[verifier::external_body]
pub struct RutaOpaca(std::path::PathBuf);

/// Parámetros de una evaluación walk-forward: cinta de entrada, directorio de
/// salida, split y semilla.
pub struct EvaluationConfig {
    pub tape: std::path::PathBuf,
    pub output: std::path::PathBuf,
    pub split: Split,
    pub seed: u64,
}

/// Rutas de los informes escritos por una evaluación.
pub struct OutputPaths {
    pub json: std::path::PathBuf,
    pub csv: std::path::PathBuf,
    pub markdown: std::path::PathBuf,
}

/// Motivo por el que una cinta no se puede particionar.
#[derive(Clone, Copy, Debug, PartialEq, Eq)]
pub enum ErrorParticion {
    /// La cinta produjo menos de diez eventos comparables.
    PocosEventos { eventos: usize },
    /// Alguna de las tres ventanas quedó vacía.
    VentanaVacia,
}

/// Tamaño de la ventana de entrenamiento para `n` eventos.
pub open spec fn ventana_a(n: int, s: Split) -> int {
    n * s.train / 100
}

/// Tamaño de la ventana de calibración para `n` eventos.
pub open spec fn ventana_b(n: int, s: Split) -> int {
    n * s.calibration / 100
}

/// Particiona `n` eventos en orden cronológico: entrenamiento, calibración y
/// holdout, con los porcentajes del split truncados hacia abajo; el holdout
/// recibe el resto. Exige al menos diez eventos y ninguna ventana vacía.
pub fn particion_eventos(n: usize, split: &Split) -> (r: Result<(usize, usize, usize), ErrorParticion>)
    requires
        n >= 10 ==> ventana_a(n as int, *split) + ventana_b(n as int, *split) <= n,
    ensures
        n < 10 ==> r == Err::<(usize, usize, usize), ErrorParticion>(ErrorParticion::PocosEventos { eventos: n }),
        n >= 10 ==> {
            let a = ventana_a(n as int, *split);
            let b = ventana_b(n as int, *split);
            let c = n - a - b;
            if a == 0 || b == 0 || c == 0 {
                r == Err::<(usize, usize, usize), ErrorParticion>(ErrorParticion::VentanaVacia)
            } else {
                r matches Ok(t) && t.0 == a && t.1 == b && t.2 == c
            }
        },
{
    if n < 10 {
        return Err(ErrorParticion::PocosEventos { eventos: n });
    }
    let na: u128 = (n as u128) * (split.train as u128) / 100;
    let nb: u128 = (n as u128) * (split.calibration as u128) / 100;
    let a = na as usize;
    let b = nb as usize;
    let c = n - a - b;
    if a == 0 || b == 0 || c == 0 {
        return Err(ErrorParticion::VentanaVacia);
    }
    Ok((a, b, c))
}

/// Las tres ventanas cubren exactamente los eventos, en orden.
pub proof fn particion_cubre_los_eventos(n: int, s: Split)
    requires
        n >= 10,
        s.train as int + s.calibration as int <= 100,
    ensures
        0 <= ventana_a(n, s),
        0 <= ventana_b(n, s),
        ventana_a(n, s) + ventana_b(n, s) <= n,
{
    assert(n * s.train / 100 + n * s.calibration / 100 <= n) by (nonlinear_arith)
        requires
            n >= 10,
            s.train as int + s.calibration as int <= 100,
            s.train >= 0,
            s.calibration >= 0,
    {
        assert(n * s.train + n * s.calibration <= n * 100) by (nonlinear_arith)
            requires
                n >= 0,
                s.train as int + s.calibration as int <= 100,
        ;
        assert(n * s.train / 100 + n * s.calibration / 100 <= (n * s.train + n * s.calibration) / 100) by (nonlinear_arith)
            requires
                n * s.train >= 0,
                n * s.calibration >= 0,
        ;
        assert((n * s.train + n * s.calibration) / 100 <= (n * 100) / 100) by (nonlinear_arith)
            requires
                n * s.train + n * s.calibration <= n * 100,
                n * s.train + n * s.calibration >= 0,
        ;
    }
    assert(0 <= n * s.train / 100) by (nonlinear_arith)
        requires
            n >= 0,
            s.train >= 0,
    ;
    assert(0 <= n * s.calibration / 100) by (nonlinear_arith)
        requires
            n >= 0,
            s.calibration >= 0,
    ;
}

/// Base de FNV-1a de 64 bits.
pub const FNV_BASE: u64 = 0xcbf29ce484222325;
/// Primo de FNV-1a de 64 bits.
pub const FNV_PRIMO: u64 = 0x100000001b3;

/// Un paso de FNV-1a: xor con el byte y producto por el primo módulo 2^64.
pub open spec fn paso_fnv(h: u64, b: u8) -> u64 {
    (((h ^ (b as u64)) as nat * FNV_PRIMO as nat) % 0x1_0000_0000_0000_0000nat) as u64
}

/// FNV-1a de 64 bits de los bytes.
pub open spec fn fnv1a(bytes: Seq<u8>) -> u64
    decreases bytes.len(),
{
    if bytes.len() == 0 {
        FNV_BASE
    } else {
        paso_fnv(fnv1a(bytes.drop_last()), bytes.last())
    }
}

/// Dígito hexadecimal en minúscula.
pub open spec fn digito_hex(d: nat) -> char {
    if d < 10 {
        crate::texto::digito(d)
    } else if d == 10 { 'a' } else if d == 11 { 'b' } else if d == 12 { 'c' }
    else if d == 13 { 'd' } else if d == 14 { 'e' } else { 'f' }
}

/// Los `k` dígitos hexadecimales más bajos de `n`, con ceros a la izquierda.
pub open spec fn hex_relleno(n: nat, k: nat) -> Seq<char>
    decreases k,
{
    if k == 0 {
        Seq::empty()
    } else {
        hex_relleno(n / 16, (k - 1) as nat).push(digito_hex(n % 16))
    }
}

fn caracter_hex(d: u64) -> (r: char)
    requires
        d < 16,
    ensures
        r == digito_hex(d as nat),
{
    match d {
        0 => '0',
        1 => '1',
        2 => '2',
        3 => '3',
        4 => '4',
        5 => '5',
        6 => '6',
        7 => '7',
        8 => '8',
        9 => '9',
        10 => 'a',
        11 => 'b',
        12 => 'c',
        13 => 'd',
        14 => 'e',
        _ => 'f',
    }
}

fn agregar_hex(n: u64, k: u32, out: &mut Vec<char>)
    ensures
        final(out)@ == old(out)@ + hex_relleno(n as nat, k as nat),
    decreases k,
{
    if k > 0 {
        agregar_hex(n / 16, k - 1, out);
        out.push(caracter_hex(n % 16));
    }
}

/// Huella de una partición de eventos serializada: `fnv1a64:` y el FNV-1a de
/// 64 bits de sus bytes en 16 dígitos hexadecimales.
pub fn huella_fnv1a64(bytes: &[u8]) -> (r: String)
    ensures
        r@ == "fnv1a64:"@ + hex_relleno(fnv1a(bytes@) as nat, 16),
{
    let mut h: u64 = FNV_BASE;
    let mut i: usize = 0;
    while i < bytes.len()
        invariant
            i <= bytes@.len(),
            h == fnv1a(bytes@.take(i as int)),
        decreases bytes@.len() - i,
    {
        proof {
            assert(bytes@.take(i + 1).drop_last() =~= bytes@.take(i as int));
        }
        h = (h ^ (bytes[i] as u64)).wrapping_mul(FNV_PRIMO);
        i = i + 1;
    }
    proof {
        assert(bytes@.take(bytes@.len() as int) =~= bytes@);
    }
    let mut digitos: Vec<char> = Vec::new();
    agregar_hex(h, 16, &mut digitos);
    let d = crate::texto::cadena(&digitos);
    crate::texto::unir("fnv1a64:", d.as_str())
}

} // verus!

//! Utilidades de texto con especificación sobre secuencias de caracteres.
//!
//! Las cadenas se razonan por su vista `Seq<char>`. Las conversiones entre
//! `&str`, `String` y `Vec<char>` conservan la vista exacta.

use vstd::prelude::*;
use vstd::string::*;

verus! {

/// Agrega un carácter al final de la cadena (`String::push` de std).
#[verifier::external_body]
pub(crate) fn empujar(s: &mut String, c: char)
    ensures
        final(s)@ == old(s)@.push(c),
{
    s.push(c);
}

/// Los caracteres de `s`, en orden.
pub fn caracteres(s: &str) -> (v: Vec<char>)
    ensures
        v@ == s@,
{
    let mut v: Vec<char> = Vec::new();
    for c in it: s.chars()
        invariant
            v@ == it.seq().take(it.index()),
            it.seq() == s@,
    {
        v.push(c);
    }
    v
}

/// La cadena formada por los caracteres de `v`.
pub fn cadena(v: &Vec<char>) -> (s: String)
    ensures
        s@ == v@,
{
    let mut s = String::new();
    let mut i: usize = 0;
    while i < v.len()
        invariant
            i <= v.len(),
            s@ == v@.take(i as int),
        decreases v.len() - i,
    {
        empujar(&mut s, v[i]);
        assert(v@.take(i as int + 1) =~= v@.take(i as int).push(v@[i as int]));
        i = i + 1;
    }
    assert(v@.take(v.len() as int) =~= v@);
    s
}

/// Copia exacta de una cadena.
pub fn copiar(s: &String) -> (r: String)
    ensures
        r == *s,
        r@ == s@,
{
    s.clone()
}

/// Concatenación de dos cadenas.
pub fn unir(a: &str, b: &str) -> (r: String)
    ensures
        r@ == a@ + b@,
{
    let r = String::from_str(a);
    r.concat(b)
}

/// Igualdad de textos por su contenido.
pub fn iguales(a: &str, b: &str) -> (r: bool)
    ensures
        r == (a@ == b@),
{
    let va = caracteres(a);
    let vb = caracteres(b);
    if va.len() != vb.len() {
        return false;
    }
    let mut i: usize = 0;
    while i < va.len()
        invariant
            va@ == a@,
            vb@ == b@,
            va.len() == vb.len(),
            i <= va.len(),
            forall|j: int| 0 <= j < i ==> va@[j] == vb@[j],
        decreases va.len() - i,
    {
        if va[i] != vb[i] {
            return false;
        }
        i = i + 1;
    }
    assert(va@ =~= vb@);
    true
}


/// Espacio en blanco Unicode (propiedad `White_Space`), el criterio de
/// `char::is_whitespace` y de `str::trim`.
pub open spec fn espacio_unicode(c: char) -> bool {
    let x = c as u32;
    (0x09 <= x <= 0x0D) || x == 0x20 || x == 0x85 || x == 0xA0 || x == 0x1680 || (0x2000 <= x
        <= 0x200A) || x == 0x2028 || x == 0x2029 || x == 0x202F || x == 0x205F || x == 0x3000
}

/// Decide si `c` es espacio en blanco Unicode.
pub fn es_espacio(c: char) -> (r: bool)
    ensures
        r == espacio_unicode(c),
{
    let x = c as u32;
    (0x09 <= x && x <= 0x0D) || x == 0x20 || x == 0x85 || x == 0xA0 || x == 0x1680 || (0x2000
        <= x && x <= 0x200A) || x == 0x2028 || x == 0x2029 || x == 0x202F || x == 0x205F || x
        == 0x3000
}

/// Un texto está en blanco si todos sus caracteres son espacios (es decir,
/// queda vacío tras recortarlo).
pub open spec fn en_blanco(s: Seq<char>) -> bool {
    forall|i: int| 0 <= i < s.len() ==> espacio_unicode(#[trigger] s[i])
}

/// Decide si el texto queda vacío tras recortar espacios.
pub fn esta_en_blanco(s: &str) -> (r: bool)
    ensures
        r == en_blanco(s@),
{
    let v = caracteres(s);
    let mut i: usize = 0;
    while i < v.len()
        invariant
            v@ == s@,
            i <= v.len(),
            forall|j: int| 0 <= j < i ==> espacio_unicode(#[trigger] v@[j]),
        decreases v.len() - i,
    {
        if !es_espacio(v[i]) {
            return false;
        }
        i = i + 1;
    }
    true
}


/// Orden lexicográfico estricto por punto de código (el orden de `str`).
pub open spec fn texto_menor(a: Seq<char>, b: Seq<char>) -> bool
    decreases a.len(),
{
    if b.len() == 0 {
        false
    } else if a.len() == 0 {
        true
    } else if a[0] != b[0] {
        (a[0] as u32) < (b[0] as u32)
    } else {
        texto_menor(a.drop_first(), b.drop_first())
    }
}

/// Decide `a < b` en el orden lexicográfico de textos.
pub fn es_menor(a: &str, b: &str) -> (r: bool)
    ensures
        r == texto_menor(a@, b@),
{
    let va = caracteres(a);
    let vb = caracteres(b);
    let mut i: usize = 0;
    assert(a@.skip(0) =~= a@);
    assert(b@.skip(0) =~= b@);
    while i < va.len() && i < vb.len()
        invariant
            va@ == a@,
            vb@ == b@,
            i <= va.len(),
            i <= vb.len(),
            forall|j: int| 0 <= j < i ==> va@[j] == vb@[j],
            texto_menor(a@, b@) == texto_menor(a@.skip(i as int), b@.skip(i as int)),
        decreases va.len() - i,
    {
        if va[i] != vb[i] {
            proof {
                assert(a@.skip(i as int)[0] == va@[i as int]);
                assert(b@.skip(i as int)[0] == vb@[i as int]);
            }
            return (va[i] as u32) < (vb[i] as u32);
        }
        proof {
            assert(a@.skip(i as int).drop_first() =~= a@.skip(i as int + 1));
            assert(b@.skip(i as int).drop_first() =~= b@.skip(i as int + 1));
        }
        i = i + 1;
    }
    i < vb.len()
}


/// Quita los espacios iniciales.
pub open spec fn sin_inicio(s: Seq<char>) -> Seq<char>
    decreases s.len(),
{
    if s.len() > 0 && espacio_unicode(s[0]) {
        sin_inicio(s.drop_first())
    } else {
        s
    }
}

/// Quita los espacios finales.
pub open spec fn sin_final(s: Seq<char>) -> Seq<char>
    decreases s.len(),
{
    if s.len() > 0 && espacio_unicode(s.last()) {
        sin_final(s.drop_last())
    } else {
        s
    }
}

/// El texto sin espacios al inicio ni al final (`str::trim`).
pub open spec fn recortado(s: Seq<char>) -> Seq<char> {
    sin_final(sin_inicio(s))
}

proof fn lema_sin_inicio(s: Seq<char>, i: int)
    requires
        0 <= i <= s.len(),
        forall|k: int| 0 <= k < i ==> espacio_unicode(#[trigger] s[k]),
    ensures
        sin_inicio(s) == sin_inicio(s.skip(i)),
    decreases i,
{
    if i > 0 {
        assert(s.drop_first().skip(i - 1) =~= s.skip(i));
        lema_sin_inicio(s.drop_first(), i - 1);
    } else {
        assert(s.skip(0) =~= s);
    }
}

proof fn lema_sin_final(s: Seq<char>, j: int)
    requires
        0 <= j <= s.len(),
        forall|k: int| j <= k < s.len() ==> espacio_unicode(#[trigger] s[k]),
    ensures
        sin_final(s) == sin_final(s.take(j)),
    decreases s.len() - j,
{
    if j < s.len() {
        assert(s.drop_last().take(j) =~= s.take(j));
        lema_sin_final(s.drop_last(), j);
    } else {
        assert(s.take(j) =~= s);
    }
}

/// Sin espacios al inicio queda vacío o empieza por un no espacio.
proof fn lema_sin_inicio_extremo(s: Seq<char>)
    ensures
        sin_inicio(s).len() > 0 ==> !espacio_unicode(sin_inicio(s)[0]),
    decreases s.len(),
{
    if s.len() > 0 && espacio_unicode(s[0]) {
        lema_sin_inicio_extremo(s.drop_first());
    }
}

/// Quitar los espacios finales deja un prefijo que, si no es vacío, termina
/// en un no espacio.
proof fn lema_sin_final_extremo(s: Seq<char>)
    ensures
        sin_final(s).len() <= s.len(),
        sin_final(s) == s.take(sin_final(s).len() as int),
        sin_final(s).len() > 0 ==> !espacio_unicode(sin_final(s).last()),
    decreases s.len(),
{
    if s.len() > 0 && espacio_unicode(s.last()) {
        lema_sin_final_extremo(s.drop_last());
        assert(s.drop_last().take(sin_final(s).len() as int) =~= s.take(sin_final(s).len() as int));
    } else {
        assert(s.take(s.len() as int) =~= s);
    }
}

/// El texto recortado no empieza ni termina en espacio.
pub(crate) proof fn lema_recortado_extremos(s: Seq<char>)
    ensures
        recortado(s).len() > 0 ==> !espacio_unicode(recortado(s)[0]) && !espacio_unicode(recortado(s).last()),
{
    let t = sin_inicio(s);
    lema_sin_inicio_extremo(s);
    lema_sin_final_extremo(t);
    if recortado(s).len() > 0 {
        assert(recortado(s)[0] == t[0]);
    }
}

/// Un texto que no empieza ni termina en espacio ya está recortado.
pub(crate) proof fn lema_recortado_fijo(s: Seq<char>)
    requires
        s.len() > 0 ==> !espacio_unicode(s[0]) && !espacio_unicode(s.last()),
    ensures
        recortado(s) == s,
{
}

/// El texto recortado de espacios al inicio y al final.
pub fn recortar(s: &str) -> (r: String)
    ensures
        r@ == recortado(s@),
{
    let v = caracteres(s);
    let n = v.len();
    let mut i: usize = 0;
    while i < n && es_espacio(v[i])
        invariant
            v@ == s@,
            n == v@.len(),
            i <= n,
            forall|k: int| 0 <= k < i ==> espacio_unicode(#[trigger] v@[k]),
        decreases n - i,
    {
        i = i + 1;
    }
    proof {
        lema_sin_inicio(v@, i as int);
    }
    let mut j: usize = n;
    while j > i && es_espacio(v[j - 1])
        invariant
            v@ == s@,
            n == v@.len(),
            i <= j <= n,
            forall|k: int| j <= k < n ==> espacio_unicode(#[trigger] v@[k]),
        decreases j - i,
    {
        j = j - 1;
    }
    let mut w: Vec<char> = Vec::new();
    let mut k: usize = i;
    while k < j
        invariant
            v@ == s@,
            i <= k <= j <= n,
            n == v@.len(),
            w@ == v@.subrange(i as int, k as int),
        decreases j - k,
    {
        w.push(v[k]);
        k = k + 1;
    }
    proof {
        let t = v@.skip(i as int);
        assert(sin_inicio(t) == t);
        assert forall|k2: int| j - i <= k2 < t.len() implies espacio_unicode(#[trigger] t[k2]) by {
            assert(t[k2] == v@[k2 + i]);
        }
        lema_sin_final(t, j - i);
        assert(t.take(j - i) =~= w@);
        if w@.len() > 0 {
            assert(w@.last() == v@[j - 1]);
        }
        assert(sin_final(w@) == w@);
    }
    cadena(&w)
}

/// Minúscula ASCII de un carácter.
pub open spec fn minuscula(c: char) -> char {
    if 'A' <= c && c <= 'Z' {
        ((c as u32) + 32) as char
    } else {
        c
    }
}

/// Mayúscula ASCII de un carácter.
pub open spec fn mayuscula(c: char) -> char {
    if 'a' <= c && c <= 'z' {
        ((c as u32) - 32) as char
    } else {
        c
    }
}

/// El texto con sus letras ASCII en minúscula.
pub open spec fn minusculas(s: Seq<char>) -> Seq<char> {
    Seq::new(s.len(), |k: int| minuscula(s[k]))
}

/// El texto con sus letras ASCII en mayúscula.
pub open spec fn mayusculas(s: Seq<char>) -> Seq<char> {
    Seq::new(s.len(), |k: int| mayuscula(s[k]))
}

fn a_minuscula(c: char) -> (r: char)
    ensures
        r == minuscula(c),
{
    if 'A' <= c && c <= 'Z' {
        let x: u8 = ((c as u32) + 32) as u8;
        x as char
    } else {
        c
    }
}

fn a_mayuscula(c: char) -> (r: char)
    ensures
        r == mayuscula(c),
{
    if 'a' <= c && c <= 'z' {
        let x: u8 = ((c as u32) - 32) as u8;
        x as char
    } else {
        c
    }
}

/// `str::to_ascii_lowercase`.
pub fn en_minusculas(s: &str) -> (r: String)
    ensures
        r@ == minusculas(s@),
{
    let v = caracteres(s);
    let mut w: Vec<char> = Vec::new();
    let mut i: usize = 0;
    while i < v.len()
        invariant
            v@ == s@,
            i <= v@.len(),
            w@.len() == i,
            forall|k: int| 0 <= k < i ==> #[trigger] w@[k] == minuscula(v@[k]),
        decreases v@.len() - i,
    {
        w.push(a_minuscula(v[i]));
        i = i + 1;
    }
    assert(w@ =~= minusculas(s@));
    cadena(&w)
}

/// `str::to_ascii_uppercase`.
pub fn en_mayusculas(s: &str) -> (r: String)
    ensures
        r@ == mayusculas(s@),
{
    let v = caracteres(s);
    let mut w: Vec<char> = Vec::new();
    let mut i: usize = 0;
    while i < v.len()
        invariant
            v@ == s@,
            i <= v@.len(),
            w@.len() == i,
            forall|k: int| 0 <= k < i ==> #[trigger] w@[k] == mayuscula(v@[k]),
        decreases v@.len() - i,
    {
        w.push(a_mayuscula(v[i]));
        i = i + 1;
    }
    assert(w@ =~= mayusculas(s@));
    cadena(&w)
}


/// Dígito decimal ASCII.
pub open spec fn es_digito(c: char) -> bool {
    '0' <= c && c <= '9'
}

/// Todos los caracteres son dígitos.
pub open spec fn solo_digitos(s: Seq<char>) -> bool {
    forall|k: int| 0 <= k < s.len() ==> es_digito(#[trigger] s[k])
}

/// Valor decimal de una cadena de dígitos.
pub open spec fn valor_digitos(s: Seq<char>) -> int
    decreases s.len(),
{
    if s.len() == 0 {
        0
    } else {
        valor_digitos(s.drop_last()) * 10 + ((s.last() as u32) - ('0' as u32))
    }
}

/// Entero decimal con signo opcional (`+` o `-`) y al menos un dígito, sin
/// otros caracteres: lo que aceptan los `FromStr` de enteros de std.
pub open spec fn entero_decimal(s: Seq<char>) -> Option<int> {
    if s.len() > 0 && (s[0] == '-' || s[0] == '+') {
        let d = s.drop_first();
        if d.len() > 0 && solo_digitos(d) {
            Some(if s[0] == '-' { -valor_digitos(d) } else { valor_digitos(d) })
        } else {
            None
        }
    } else if s.len() > 0 && solo_digitos(s) {
        Some(valor_digitos(s))
    } else {
        None
    }
}

/// Natural decimal (signo `+` opcional): lo que aceptan los `FromStr` de
/// enteros sin signo de std.
pub open spec fn natural_decimal(s: Seq<char>) -> Option<int> {
    match entero_decimal(s) {
        Some(v) => if s[0] == '-' { None } else { Some(v) },
        None => None,
    }
}

/// Tope de saturación al acumular dígitos.
pub const TOPE_DIGITOS: u128 = 0x1_0000_0000_0000_0000;

pub open spec fn saturado(v: int) -> int {
    if v < TOPE_DIGITOS {
        v
    } else {
        TOPE_DIGITOS as int
    }
}

proof fn lema_valor_no_negativo(s: Seq<char>)
    requires
        solo_digitos(s),
    ensures
        valor_digitos(s) >= 0,
    decreases s.len(),
{
    if s.len() > 0 {
        lema_valor_no_negativo(s.drop_last());
    }
}

/// Valor saturado de los dígitos de `v[desde..]`, y si todos son dígitos y
/// hay al menos uno.
fn digitos_desde(v: &Vec<char>, desde: usize) -> (r: (bool, u128))
    requires
        desde <= v@.len(),
    ensures
        r.0 == (desde < v@.len() && solo_digitos(v@.skip(desde as int))),
        r.0 ==> r.1 == saturado(valor_digitos(v@.skip(desde as int))),
{
    if desde >= v.len() {
        return (false, 0);
    }
    let mut acc: u128 = 0;
    let mut i: usize = desde;
    while i < v.len()
        invariant
            desde <= i <= v@.len(),
            solo_digitos(v@.subrange(desde as int, i as int)),
            acc == saturado(valor_digitos(v@.subrange(desde as int, i as int))),
        decreases v@.len() - i,
    {
        let c = v[i];
        if !('0' <= c && c <= '9') {
            proof {
                assert(v@.skip(desde as int)[i - desde] == c);
            }
            return (false, 0);
        }
        let d: u128 = ((c as u32) - ('0' as u32)) as u128;
        proof {
            let p = v@.subrange(desde as int, i as int);
            let q = v@.subrange(desde as int, i + 1);
            assert(q.drop_last() =~= p);
            assert(q.last() == c);
            lema_valor_no_negativo(p);
            assert(solo_digitos(q)) by {
                assert forall|k: int| 0 <= k < q.len() implies es_digito(#[trigger] q[k]) by {
                    if k < p.len() {
                        assert(q[k] == p[k]);
                    }
                }
            }
        }
        if acc >= TOPE_DIGITOS {
            acc = TOPE_DIGITOS;
        } else {
            let n = acc * 10 + d;
            acc = if n >= TOPE_DIGITOS { TOPE_DIGITOS } else { n };
        }
        i = i + 1;
    }
    proof {
        assert(v@.subrange(desde as int, v@.len() as int) =~= v@.skip(desde as int));
    }
    (true, acc)
}

/// `str::parse::<i64>`: `None` si el texto no es un entero decimal o no cabe.
pub fn parsear_i64(s: &str) -> (r: Option<i64>)
    ensures
        r == (match entero_decimal(s@) {
            Some(v) => if i64::MIN <= v <= i64::MAX { Some(v as i64) } else { None },
            None => None,
        }),
{
    let v = caracteres(s);
    if v.len() == 0 {
        return None;
    }
    let negativo = v[0] == '-';
    let con_signo = negativo || v[0] == '+';
    let desde: usize = if con_signo { 1 } else { 0 };
    let (ok, valor) = digitos_desde(&v, desde);
    proof {
        if con_signo {
            assert(v@.skip(1) =~= v@.drop_first());
        } else {
            assert(v@.skip(0) =~= v@);
        }
    }
    if !ok {
        return None;
    }
    proof {
        lema_valor_no_negativo(v@.skip(desde as int));
    }
    if negativo {
        if valor <= 9_223_372_036_854_775_808 {
            let m: i128 = -(valor as i128);
            Some(m as i64)
        } else {
            None
        }
    } else {
        if valor <= 9_223_372_036_854_775_807 {
            Some(valor as i64)
        } else {
            None
        }
    }
}

/// `str::parse::<u64>`: `None` si el texto no es un natural decimal o no cabe.
pub fn parsear_u64(s: &str) -> (r: Option<u64>)
    ensures
        r == (match natural_decimal(s@) {
            Some(v) => if v <= u64::MAX { Some(v as u64) } else { None },
            None => None,
        }),
        r matches Some(x) ==> natural_decimal(s@) == Some(x as int),
        natural_decimal(s@) matches Some(v) ==> v >= 0,
{
    let v = caracteres(s);
    if v.len() == 0 {
        return None;
    }
    if v[0] == '-' {
        return None;
    }
    let con_signo = v[0] == '+';
    let desde: usize = if con_signo { 1 } else { 0 };
    let (ok, valor) = digitos_desde(&v, desde);
    proof {
        if con_signo {
            assert(v@.skip(1) =~= v@.drop_first());
        } else {
            assert(v@.skip(0) =~= v@);
        }
    }
    if !ok {
        return None;
    }
    proof {
        lema_valor_no_negativo(v@.skip(desde as int));
    }
    if valor <= 18_446_744_073_709_551_615 {
        Some(valor as u64)
    } else {
        None
    }
}


/// Bytes que ocupa un carácter en UTF-8.
pub open spec fn ancho_utf8(c: char) -> int {
    vstd::utf8::encode_scalar(c as u32).len() as int
}

proof fn lema_utf8_concat(a: Seq<char>, b: Seq<char>)
    ensures
        vstd::utf8::encode_utf8(a + b) == vstd::utf8::encode_utf8(a) + vstd::utf8::encode_utf8(b),
    decreases a.len(),
{
    if a.len() == 0 {
        assert(a + b =~= b);
        assert(vstd::utf8::encode_utf8(a) =~= Seq::<u8>::empty());
        assert(vstd::utf8::encode_utf8(a) + vstd::utf8::encode_utf8(b) =~= vstd::utf8::encode_utf8(b));
    } else {
        assert((a + b).drop_first() =~= a.drop_first() + b);
        assert((a + b)[0] == a[0]);
        lema_utf8_concat(a.drop_first(), b);
        assert(vstd::utf8::encode_utf8(a + b) =~= vstd::utf8::encode_scalar(a[0] as u32)
            + (vstd::utf8::encode_utf8(a.drop_first()) + vstd::utf8::encode_utf8(b)));
    }
}

fn ancho(c: char) -> (r: usize)
    ensures
        r == ancho_utf8(c),
        1 <= r <= 4,
{
    let x = c as u32;
    if x < 0x80 {
        1
    } else if x < 0x800 {
        2
    } else if x < 0x10000 {
        3
    } else {
        4
    }
}

/// Decide si la codificación UTF-8 del texto ocupa al menos `n` bytes.
pub fn bytes_al_menos(s: &str, n: usize) -> (r: bool)
    ensures
        r == (vstd::utf8::encode_utf8(s@).len() >= n),
{
    let v = caracteres(s);
    let mut total: usize = 0;
    let mut i: usize = 0;
    while i < v.len()
        invariant
            v@ == s@,
            i <= v@.len(),
            total == vstd::utf8::encode_utf8(v@.take(i as int)).len(),
            total < n || total == 0,
        decreases v@.len() - i,
    {
        if total >= n {
            proof {
                lema_utf8_concat(v@.take(i as int), v@.skip(i as int));
                assert(v@.take(i as int) + v@.skip(i as int) =~= v@);
            }
            return true;
        }
        let w = ancho(v[i]);
        proof {
            lema_utf8_concat(v@.take(i as int), seq![v@[i as int]]);
            assert(v@.take(i as int) + seq![v@[i as int]] =~= v@.take(i + 1));
            let uno = seq![v@[i as int]];
            assert(uno.drop_first() =~= Seq::<char>::empty());
            assert(uno[0] == v@[i as int]);
            assert(vstd::utf8::encode_utf8(uno.drop_first()) =~= Seq::<u8>::empty());
            assert(vstd::utf8::encode_utf8(uno) =~= vstd::utf8::encode_scalar(v@[i as int] as u32));
        }
        if w >= n - total {
            proof {
                lema_utf8_concat(v@.take(i + 1), v@.skip(i + 1));
                assert(v@.take(i + 1) + v@.skip(i + 1) =~= v@);
            }
            return true;
        }
        total = total + w;
        i = i + 1;
    }
    proof {
        assert(v@.take(v@.len() as int) =~= v@);
    }
    total >= n
}


/// Campos de un texto separado por comas (`str::split(',')`).
pub open spec fn campos_csv(s: Seq<char>) -> Seq<Seq<char>>
    decreases s.len(),
{
    if s.len() == 0 {
        seq![Seq::empty()]
    } else {
        let c = campos_csv(s.drop_last());
        if s.last() == ',' {
            c.push(Seq::empty())
        } else {
            c.update(c.len() - 1, c.last().push(s.last()))
        }
    }
}

/// Los campos recortados que no quedan vacíos, en orden.
pub open spec fn recortados_no_vacios(c: Seq<Seq<char>>) -> Seq<Seq<char>>
    decreases c.len(),
{
    if c.len() == 0 {
        Seq::empty()
    } else {
        let p = recortados_no_vacios(c.drop_last());
        let t = recortado(c.last());
        if t.len() == 0 {
            p
        } else {
            p.push(t)
        }
    }
}

/// Lista CSV: campos separados por comas, recortados, sin los vacíos.
pub open spec fn lista_csv(s: Seq<char>) -> Seq<Seq<char>> {
    recortados_no_vacios(campos_csv(s))
}

/// Vistas de una lista de cadenas.
pub open spec fn vistas(v: Seq<String>) -> Seq<Seq<char>> {
    Seq::new(v.len(), |k: int| v[k]@)
}

proof fn lema_campos_no_vacios(s: Seq<char>)
    ensures
        campos_csv(s).len() >= 1,
    decreases s.len(),
{
    if s.len() > 0 {
        lema_campos_no_vacios(s.drop_last());
    }
}

/// Separa por comas, recorta cada campo y descarta los vacíos.
pub fn separar_csv(s: &str) -> (r: Vec<String>)
    ensures
        vistas(r@) == lista_csv(s@),
{
    let v = caracteres(s);
    let mut out: Vec<String> = Vec::new();
    let mut actual: Vec<char> = Vec::new();
    let mut i: usize = 0;
    proof {
        assert(v@.take(0) =~= Seq::<char>::empty());
        assert(campos_csv(Seq::<char>::empty()).drop_last() =~= Seq::<Seq<char>>::empty());
        assert(vistas(out@) =~= Seq::<Seq<char>>::empty());
    }
    while i < v.len()
        invariant
            v@ == s@,
            i <= v@.len(),
            campos_csv(v@.take(i as int)).len() >= 1,
            actual@ == campos_csv(v@.take(i as int)).last(),
            vistas(out@) == recortados_no_vacios(campos_csv(v@.take(i as int)).drop_last()),
        decreases v@.len() - i,
    {
        let c = v[i];
        let ghost pre = v@.take(i as int);
        let ghost sig = v@.take(i + 1);
        proof {
            assert(sig.drop_last() =~= pre);
            assert(sig.last() == c);
            lema_campos_no_vacios(pre);
        }
        if c == ',' {
            let t = recortar(cadena(&actual).as_str());
            let ghost antes = out@;
            if !t.as_str().is_empty() {
                out.push(t);
            }
            proof {
                let cp = campos_csv(pre);
                assert(campos_csv(sig) == cp.push(Seq::empty()));
                assert(campos_csv(sig).drop_last() =~= cp);
                assert(cp.drop_last() =~= cp.drop_last());
                assert(cp =~= cp.drop_last().push(cp.last()));
                if t@.len() == 0 {
                    assert(out@ == antes);
                } else {
                    assert(vistas(out@) =~= vistas(antes).push(t@));
                }
            }
            actual = Vec::new();
        } else {
            actual.push(c);
            proof {
                let cp = campos_csv(pre);
                assert(campos_csv(sig).drop_last() =~= cp.drop_last());
            }
        }
        i = i + 1;
    }
    let t = recortar(cadena(&actual).as_str());
    let ghost antes = out@;
    if !t.as_str().is_empty() {
        out.push(t);
    }
    proof {
        assert(v@.take(v@.len() as int) =~= v@);
        let cp = campos_csv(v@);
        lema_campos_no_vacios(v@);
        assert(cp =~= cp.drop_last().push(cp.last()));
        if t@.len() == 0 {
            assert(out@ == antes);
        } else {
            assert(vistas(out@) =~= vistas(antes).push(t@));
        }
    }
    out
}

proof fn lema_menor_irreflexivo(a: Seq<char>)
    ensures
        !texto_menor(a, a),
    decreases a.len(),
{
    if a.len() > 0 {
        lema_menor_irreflexivo(a.drop_first());
    }
}

proof fn lema_menor_transitivo(a: Seq<char>, b: Seq<char>, c: Seq<char>)
    requires
        texto_menor(a, b),
        texto_menor(b, c),
    ensures
        texto_menor(a, c),
    decreases a.len(),
{
    if a.len() > 0 && a[0] == b[0] && b[0] == c[0] {
        lema_menor_transitivo(a.drop_first(), b.drop_first(), c.drop_first());
    }
}

proof fn lema_menor_total(a: Seq<char>, b: Seq<char>)
    requires
        a != b,
    ensures
        texto_menor(a, b) || texto_menor(b, a),
    decreases a.len(),
{
    if a.len() == 0 || b.len() == 0 {
        if a.len() == 0 && b.len() == 0 {
            assert(a =~= b);
        }
    } else if a[0] != b[0] {
        if (a[0] as u32) == (b[0] as u32) {
            vstd::utf8::char_u32_cast(a[0], a[0] as u32);
            vstd::utf8::char_u32_cast(b[0], b[0] as u32);
        }
    } else {
        if a.drop_first() == b.drop_first() {
            assert(a =~= seq![a[0]] + a.drop_first());
            assert(b =~= seq![b[0]] + b.drop_first());
        } else {
            lema_menor_total(a.drop_first(), b.drop_first());
        }
    }
}

proof fn lema_conjunto_push(s: Seq<Seq<char>>, e: Seq<char>)
    ensures
        s.push(e).to_set() == s.to_set().insert(e),
{
    assert forall|y: Seq<char>| s.push(e).to_set().contains(y) <==> s.to_set().insert(e).contains(y) by {
        if s.push(e).to_set().contains(y) {
            let p = choose|p: int| 0 <= p < s.push(e).len() && s.push(e)[p] == y;
            if p < s.len() {
                assert(s[p] == y);
            }
        }
        if s.to_set().contains(y) {
            let p = choose|p: int| 0 <= p < s.len() && s[p] == y;
            assert(s.push(e)[p] == y);
        }
        if y == e {
            assert(s.push(e)[s.len() as int] == y);
        }
    }
    assert(s.push(e).to_set() =~= s.to_set().insert(e));
}

/// Vistas en orden estrictamente creciente (sin repetidos).
pub open spec fn estrictamente_ordenadas(v: Seq<Seq<char>>) -> bool {
    forall|i: int, j: int| 0 <= i < j < v.len() ==> texto_menor(#[trigger] v[i], #[trigger] v[j])
}

/// Ordena y quita repetidos: el resultado tiene exactamente los mismos
/// textos, en orden estrictamente creciente.
pub fn ordenar_sin_repetidos(v: Vec<String>) -> (r: Vec<String>)
    ensures
        estrictamente_ordenadas(vistas(r@)),
        vistas(r@).to_set() == vistas(v@).to_set(),
{
    let mut out: Vec<String> = Vec::new();
    let mut i: usize = 0;
    while i < v.len()
        invariant
            i <= v@.len(),
            estrictamente_ordenadas(vistas(out@)),
            vistas(out@).to_set() == vistas(v@.take(i as int)).to_set(),
        decreases v@.len() - i,
    {
        let x = &v[i];
        let mut k: usize = 0;
        while k < out.len() && es_menor(out[k].as_str(), x.as_str())
            invariant
                k <= out@.len(),
                forall|j: int| 0 <= j < k ==> texto_menor(#[trigger] out@[j]@, x@),
            decreases out@.len() - k,
        {
            k = k + 1;
        }
        let ghost antes = out@;
        let repetido = k < out.len() && iguales(out[k].as_str(), x.as_str());
        if !repetido {
            out.insert(k, copiar(x));
        }
        proof {
            let va = vistas(antes);
            let vn = vistas(out@);
            assert(v@.take(i + 1) =~= v@.take(i as int).push(v@[i as int]));
            assert(vistas(v@.take(i + 1)) =~= vistas(v@.take(i as int)).push(x@));
            if repetido {
                assert(va[k as int] == x@);
                assert(vn.to_set() =~= va.to_set().insert(x@));
            } else {
                assert(vn =~= va.take(k as int).push(x@) + va.skip(k as int));
                assert forall|a: int, b: int| 0 <= a < b < vn.len() implies texto_menor(#[trigger] vn[a], #[trigger] vn[b]) by {
                    if b < k {
                    } else if b == k {
                        assert(vn[a] == va[a]);
                    } else if a < k {
                        assert(vn[a] == va[a]);
                        assert(vn[b] == va[b - 1]);
                        if k < va.len() {
                            if b - 1 > k {
                                assert(texto_menor(va[k as int], va[b - 1]));
                            }
                            assert(va[k as int] != x@);
                            if !texto_menor(x@, va[k as int]) {
                                lema_menor_total(x@, va[k as int]);
                            }
                            lema_menor_transitivo(va[a], x@, va[k as int]);
                            if b - 1 > k {
                                lema_menor_transitivo(va[a], va[k as int], va[b - 1]);
                            }
                        }
                    } else if a == k {
                        assert(vn[b] == va[b - 1]);
                        assert(k < va.len());
                        assert(va[k as int] != x@);
                        if !texto_menor(x@, va[k as int]) {
                            lema_menor_total(x@, va[k as int]);
                        }
                        if b - 1 > k {
                            assert(texto_menor(va[k as int], va[b - 1]));
                            lema_menor_transitivo(x@, va[k as int], va[b - 1]);
                        }
                    } else {
                        assert(vn[a] == va[a - 1]);
                        assert(vn[b] == va[b - 1]);
                    }
                }
                assert(vn.to_set() =~= va.to_set().insert(x@)) by {
                    assert forall|y: Seq<char>| vn.to_set().contains(y) <==> va.to_set().insert(x@).contains(y) by {
                        if vn.to_set().contains(y) {
                            let p = choose|p: int| 0 <= p < vn.len() && vn[p] == y;
                            if p < k {
                                assert(va[p] == y);
                            } else if p > k {
                                assert(va[p - 1] == y);
                            }
                        }
                        if va.to_set().contains(y) {
                            let p = choose|p: int| 0 <= p < va.len() && va[p] == y;
                            if p < k {
                                assert(vn[p] == y);
                            } else {
                                assert(vn[p + 1] == y);
                            }
                        }
                        if y == x@ {
                            assert(vn[k as int] == y);
                        }
                    }
                }
            }
            lema_conjunto_push(vistas(v@.take(i as int)), x@);
        }
        i = i + 1;
    }
    proof {
        assert(v@.take(v@.len() as int) =~= v@);
    }
    out
}


/// Separa por comas sin recortar ni descartar campos (`str::split(',')`).
pub fn campos(s: &str) -> (r: Vec<String>)
    ensures
        vistas(r@) == campos_csv(s@),
{
    let v = caracteres(s);
    let mut out: Vec<String> = Vec::new();
    let mut actual: Vec<char> = Vec::new();
    let mut i: usize = 0;
    proof {
        assert(v@.take(0) =~= Seq::<char>::empty());
        assert(campos_csv(Seq::<char>::empty()).drop_last() =~= Seq::<Seq<char>>::empty());
        assert(vistas(out@) =~= Seq::<Seq<char>>::empty());
    }
    while i < v.len()
        invariant
            v@ == s@,
            i <= v@.len(),
            campos_csv(v@.take(i as int)).len() >= 1,
            actual@ == campos_csv(v@.take(i as int)).last(),
            vistas(out@) == campos_csv(v@.take(i as int)).drop_last(),
        decreases v@.len() - i,
    {
        let c = v[i];
        let ghost pre = v@.take(i as int);
        let ghost sig = v@.take(i + 1);
        proof {
            assert(sig.drop_last() =~= pre);
            assert(sig.last() == c);
            lema_campos_no_vacios(pre);
        }
        if c == ',' {
            let ghost antes = out@;
            out.push(cadena(&actual));
            proof {
                let cp = campos_csv(pre);
                assert(campos_csv(sig) == cp.push(Seq::empty()));
                assert(campos_csv(sig).drop_last() =~= cp);
                assert(cp =~= cp.drop_last().push(cp.last()));
                assert(vistas(out@) =~= vistas(antes).push(actual@));
            }
            actual = Vec::new();
        } else {
            actual.push(c);
            proof {
                let cp = campos_csv(pre);
                assert(campos_csv(sig).drop_last() =~= cp.drop_last());
            }
        }
        i = i + 1;
    }
    let ghost antes = out@;
    out.push(cadena(&actual));
    proof {
        assert(v@.take(v@.len() as int) =~= v@);
        let cp = campos_csv(v@);
        lema_campos_no_vacios(v@);
        assert(cp =~= cp.drop_last().push(cp.last()));
        assert(vistas(out@) =~= vistas(antes).push(actual@));
    }
    out
}


/// Carácter del dígito decimal `d`.
pub open spec fn digito(d: nat) -> char {
    if d == 0 { '0' } else if d == 1 { '1' } else if d == 2 { '2' } else if d == 3 { '3' }
    else if d == 4 { '4' } else if d == 5 { '5' } else if d == 6 { '6' } else if d == 7 { '7' }
    else if d == 8 { '8' } else { '9' }
}

/// Dígitos decimales de `n`, sin ceros a la izquierda (`"0"` para cero).
pub open spec fn digitos(n: nat) -> Seq<char>
    decreases n,
{
    if n < 10 {
        seq![digito(n)]
    } else {
        digitos(n / 10).push(digito(n % 10))
    }
}

/// Los `k` dígitos decimales más bajos de `f`, con ceros a la izquierda.
pub open spec fn relleno(f: nat, k: nat) -> Seq<char>
    decreases k,
{
    if k == 0 {
        Seq::empty()
    } else {
        relleno(f / 10, (k - 1) as nat).push(digito(f % 10))
    }
}

/// El texto sin los ceros del final.
pub open spec fn sin_ceros_finales(s: Seq<char>) -> Seq<char>
    decreases s.len(),
{
    if s.len() > 0 && s.last() == '0' {
        sin_ceros_finales(s.drop_last())
    } else {
        s
    }
}

/// 10 elevado a `k`.
pub open spec fn potencia10(k: nat) -> nat
    decreases k,
{
    if k == 0 {
        1
    } else {
        10 * potencia10((k - 1) as nat)
    }
}

/// Texto decimal del valor `v / 10^k`: signo si es negativo, parte entera y,
/// si la fracción no es nula, punto y fracción sin ceros finales.
pub open spec fn texto_decimal(v: int, k: nat) -> Seq<char> {
    let a: nat = (if v < 0 { -v } else { v }) as nat;
    let signo = if v < 0 { seq!['-'] } else { Seq::empty() };
    let f = a % potencia10(k);
    if f == 0 {
        signo + digitos(a / potencia10(k))
    } else {
        signo + digitos(a / potencia10(k)) + seq!['.'] + sin_ceros_finales(relleno(f, k))
    }
}

fn caracter_digito(d: u128) -> (r: char)
    requires
        d < 10,
    ensures
        r == digito(d as nat),
{
    match d {
        0 => '0',
        1 => '1',
        2 => '2',
        3 => '3',
        4 => '4',
        5 => '5',
        6 => '6',
        7 => '7',
        8 => '8',
        _ => '9',
    }
}

fn agregar_digitos(n: u128, out: &mut Vec<char>)
    ensures
        final(out)@ == old(out)@ + digitos(n as nat),
    decreases n,
{
    if n >= 10 {
        agregar_digitos(n / 10, out);
    }
    out.push(caracter_digito(n % 10));
}

fn agregar_relleno(f: u128, k: u32, out: &mut Vec<char>)
    ensures
        final(out)@ == old(out)@ + relleno(f as nat, k as nat),
    decreases k,
{
    if k > 0 {
        agregar_relleno(f / 10, k - 1, out);
        out.push(caracter_digito(f % 10));
    }
}

fn quitar_ceros_finales(v: &Vec<char>) -> (r: Vec<char>)
    ensures
        r@ == sin_ceros_finales(v@),
{
    let mut n: usize = v.len();
    assert(v@.take(v@.len() as int) =~= v@);
    while n > 0 && v[n - 1] == '0'
        invariant
            n <= v@.len(),
            sin_ceros_finales(v@.take(n as int)) == sin_ceros_finales(v@),
        decreases n,
    {
        assert(v@.take(n as int).drop_last() =~= v@.take(n - 1));
        n = n - 1;
    }
    let mut r: Vec<char> = Vec::new();
    let mut i: usize = 0;
    while i < n
        invariant
            n <= v@.len(),
            i <= n,
            r@ == v@.take(i as int),
        decreases n - i,
    {
        r.push(v[i]);
        assert(v@.take(i as int + 1) =~= v@.take(i as int).push(v@[i as int]));
        i = i + 1;
    }
    r
}

/// Texto decimal de `v / 10^k`, como lo escribe un decimal normalizado: sin
/// ceros finales en la fracción y sin punto si la fracción es nula.
pub fn decimal_a_texto(v: i128, k: u32) -> (r: String)
    requires
        k <= 38,
    ensures
        r@ == texto_decimal(v as int, k as nat),
{
    let a: u128 = if v < 0 { ((-(v + 1)) as u128) + 1 } else { v as u128 };
    let mut d: u128 = 1;
    let mut i: u32 = 0;
    proof {
        lema_potencia10_crece(0, 38);
        reveal_with_fuel(potencia10, 39);
        assert(potencia10(38) == 100_000_000_000_000_000_000_000_000_000_000_000_000);
    }
    while i < k
        invariant
            i <= k <= 38,
            d == potencia10(i as nat),
            potencia10(i as nat) <= potencia10(38),
            potencia10(38) == 100_000_000_000_000_000_000_000_000_000_000_000_000,
        decreases k - i,
    {
        proof {
            lema_potencia10_crece((i + 1) as nat, 38);
            assert(potencia10((i + 1) as nat) == 10 * potencia10(i as nat));
        }
        d = d * 10;
        i = i + 1;
    }
    proof {
        lema_potencia10_crece(0, k as nat);
    }
    let mut out: Vec<char> = Vec::new();
    if v < 0 {
        out.push('-');
    }
    agregar_digitos(a / d, &mut out);
    let f = a % d;
    if f != 0 {
        out.push('.');
        let mut frac: Vec<char> = Vec::new();
        agregar_relleno(f, k, &mut frac);
        let limpia = quitar_ceros_finales(&frac);
        let mut j: usize = 0;
        let ghost antes = out@;
        while j < limpia.len()
            invariant
                j <= limpia@.len(),
                out@ == antes + limpia@.take(j as int),
            decreases limpia@.len() - j,
        {
            out.push(limpia[j]);
            assert(limpia@.take(j as int + 1) =~= limpia@.take(j as int).push(limpia@[j as int]));
            j = j + 1;
        }
        assert(limpia@.take(limpia@.len() as int) =~= limpia@);
    }
    cadena(&out)
}

/// `10^i <= 10^j` cuando `i <= j`.
proof fn lema_potencia10_crece(i: nat, j: nat)
    requires
        i <= j,
    ensures
        1 <= potencia10(i) <= potencia10(j),
    decreases j,
{
    if j > i {
        lema_potencia10_crece(i, (j - 1) as nat);
    } else if i > 0 {
        lema_potencia10_crece((i - 1) as nat, (i - 1) as nat);
    }
}

/// El orden de textos es el de `str`: un texto va antes que cualquier
/// extensión suya, y tras un prefijo común decide el primer carácter que
/// difiere, por su punto de código; ningún texto va antes de sí mismo, y si
/// uno va antes que otro, el otro no va antes que él.
pub proof fn orden_de_textos(p: Seq<char>, a: Seq<char>, b: Seq<char>, x: char, y: char)
    ensures
        b.len() > 0 ==> texto_menor(p, p + b),
        (x as u32) < (y as u32) ==> texto_menor(p.push(x) + a, p.push(y) + b),
        !texto_menor(a, a),
        texto_menor(a, b) ==> !texto_menor(b, a),
    decreases p.len() + a.len() + b.len(),
{
    if p.len() > 0 {
        let t = p.drop_first();
        orden_de_textos(t, a, b, x, y);
        assert((p + b).drop_first() =~= t + b);
        assert((p.push(x) + a).drop_first() =~= t.push(x) + a);
        assert((p.push(y) + b).drop_first() =~= t.push(y) + b);
        assert((p + b)[0] == p[0]);
        assert((p.push(x) + a)[0] == p[0]);
        assert((p.push(y) + b)[0] == p[0]);
    } else {
        assert(p + b =~= b);
        assert((p.push(x) + a)[0] == x);
        assert((p.push(y) + b)[0] == y);
    }
    lema_orden_basico(a, b);
}

proof fn lema_irreflexivo(a: Seq<char>)
    ensures
        !texto_menor(a, a),
    decreases a.len(),
{
    if a.len() > 0 {
        lema_irreflexivo(a.drop_first());
    }
}

proof fn lema_orden_basico(a: Seq<char>, b: Seq<char>)
    ensures
        !texto_menor(a, a),
        texto_menor(a, b) ==> !texto_menor(b, a),
    decreases a.len() + b.len(),
{
    lema_irreflexivo(a);
    if a.len() > 0 && b.len() > 0 {
        lema_orden_basico(a.drop_first(), b.drop_first());
    }
}

proof fn lema_campos_concat(a: Seq<char>, b: Seq<char>)
    ensures
        campos_csv(a + seq![','] + b) == campos_csv(a) + campos_csv(b),
    decreases b.len(),
{
    let x = a + seq![','];
    if b.len() == 0 {
        assert(x + b =~= x);
        assert(x.drop_last() =~= a);
        assert(campos_csv(a) + campos_csv(b) =~= campos_csv(a).push(Seq::empty()));
    } else {
        lema_campos_concat(a, b.drop_last());
        lema_campos_no_vacios(b.drop_last());
        assert((x + b).drop_last() =~= x + b.drop_last());
        assert((x + b).last() == b.last());
        let ca = campos_csv(a);
        let cb = campos_csv(b.drop_last());
        if b.last() == ',' {
            assert((ca + cb).push(Seq::empty()) =~= ca + cb.push(Seq::empty()));
        } else {
            assert((ca + cb).last() == cb.last());
            assert((ca + cb).update((ca + cb).len() - 1, cb.last().push(b.last())) =~= ca + cb.update(
                cb.len() - 1,
                cb.last().push(b.last()),
            ));
        }
    }
}

proof fn lema_recortados_concat(x: Seq<Seq<char>>, y: Seq<Seq<char>>)
    ensures
        recortados_no_vacios(x + y) == recortados_no_vacios(x) + recortados_no_vacios(y),
    decreases y.len(),
{
    if y.len() == 0 {
        assert(x + y =~= x);
        assert(recortados_no_vacios(x) + recortados_no_vacios(y) =~= recortados_no_vacios(x));
    } else {
        lema_recortados_concat(x, y.drop_last());
        assert((x + y).drop_last() =~= x + y.drop_last());
        assert((x + y).last() == y.last());
        let t = recortado(y.last());
        if t.len() > 0 {
            assert(recortados_no_vacios(x) + recortados_no_vacios(y) =~= (recortados_no_vacios(x)
                + recortados_no_vacios(y.drop_last())).push(t));
        }
    }
}

/// Una coma separa listas CSV: la lista de `a,b` es la de `a` seguida de la
/// de `b`; y un texto sin comas da un solo campo, recortado, o ninguno si
/// queda vacío.
pub proof fn csv_separa_por_comas(a: Seq<char>, b: Seq<char>)
    ensures
        lista_csv(a + seq![','] + b) == lista_csv(a) + lista_csv(b),
        !a.contains(',') && recortado(a).len() > 0 ==> lista_csv(a) == seq![recortado(a)],
        !a.contains(',') && recortado(a).len() == 0 ==> lista_csv(a).len() == 0,
{
    lema_campos_concat(a, b);
    lema_recortados_concat(campos_csv(a), campos_csv(b));
    if !a.contains(',') {
        lema_campos_sin_coma(a);
        assert(seq![a].drop_last() =~= Seq::<Seq<char>>::empty());
        assert(recortados_no_vacios(Seq::<Seq<char>>::empty()) == Seq::<Seq<char>>::empty());
        if recortado(a).len() > 0 {
            assert(Seq::<Seq<char>>::empty().push(recortado(a)) =~= seq![recortado(a)]);
        }
    }
}

proof fn lema_campos_sin_coma(a: Seq<char>)
    requires
        !a.contains(','),
    ensures
        campos_csv(a) == seq![a],
    decreases a.len(),
{
    if a.len() == 0 {
        assert(a =~= Seq::<char>::empty());
        assert(seq![a] =~= seq![Seq::<char>::empty()]);
    } else {
        let d = a.drop_last();
        assert(!d.contains(',')) by {
            if d.contains(',') {
                let k = choose|k: int| 0 <= k < d.len() && d[k] == ',';
                assert(a[k] == ',');
            }
        }
        lema_campos_sin_coma(d);
        assert(a[a.len() - 1] != ',');
        assert(d.push(a.last()) =~= a);
        assert(seq![d].update(0, d.push(a.last())) =~= seq![a]);
    }
}

} // verus!

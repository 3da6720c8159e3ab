//! Etiquetas de métricas Prometheus.

use vstd::prelude::*;
use crate::texto::{caracteres, cadena};

verus! {

/// Escape de un carácter dentro de una etiqueta Prometheus.
pub open spec fn escape_etiqueta(c: char) -> Seq<char> {
    if c == '\\' {
        seq!['\\', '\\']
    } else if c == '"' {
        seq!['\\', '"']
    } else if c == '\n' {
        seq!['\\', 'n']
    } else {
        seq![c]
    }
}

/// Valor de etiqueta con barras invertidas, comillas y saltos de línea
/// escapados.
pub open spec fn etiqueta(s: Seq<char>) -> Seq<char>
    decreases s.len(),
{
    if s.len() == 0 {
        Seq::empty()
    } else {
        etiqueta(s.drop_last()) + escape_etiqueta(s.last())
    }
}

/// Escapa un valor de etiqueta Prometheus.
pub fn prometheus_label(value: &str) -> (r: String)
    ensures
        r@ == etiqueta(value@),
{
    let v = caracteres(value);
    let mut out: Vec<char> = Vec::new();
    let mut i: usize = 0;
    while i < v.len()
        invariant
            v@ == value@,
            i <= v@.len(),
            out@ == etiqueta(v@.take(i as int)),
        decreases v@.len() - i,
    {
        let c = v[i];
        proof {
            assert(v@.take(i + 1).drop_last() =~= v@.take(i as int));
            assert(v@.take(i + 1).last() == c);
        }
        let ghost antes = out@;
        if c == '\\' {
            out.push('\\');
            out.push('\\');
        } else if c == '"' {
            out.push('\\');
            out.push('"');
        } else if c == '\n' {
            out.push('\\');
            out.push('n');
        } else {
            out.push(c);
        }
        proof {
            assert(out@ =~= antes + escape_etiqueta(c));
        }
        i = i + 1;
    }
    proof {
        assert(v@.take(v@.len() as int) =~= v@);
    }
    cadena(&out)
}

} // verus!

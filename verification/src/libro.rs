//! Lado de un libro de órdenes: niveles ordenados por precio entero, sin
//! precios repetidos, vistos como un mapa precio → valor.

use vstd::prelude::*;

verus! {

/// Precios estrictamente crecientes.
pub open spec fn precios_crecientes<V>(v: Seq<(i64, V)>) -> bool {
    forall|i: int, j: int| 0 <= i < j < v.len() ==> (#[trigger] v[i]).0 < (#[trigger] v[j]).0
}

/// El precio aparece en el lado.
pub open spec fn tiene_precio<V>(v: Seq<(i64, V)>, p: i64) -> bool {
    exists|k: int| 0 <= k < v.len() && (#[trigger] v[k]).0 == p
}

/// Vista del lado como mapa precio → valor.
pub open spec fn mapa<V>(v: Seq<(i64, V)>) -> Map<i64, V> {
    Map::new(
        |p: i64| tiene_precio(v, p),
        |p: i64| v[choose|k: int| 0 <= k < v.len() && (#[trigger] v[k]).0 == p].1,
    )
}

proof fn lema_indice_unico<V>(v: Seq<(i64, V)>, k: int)
    requires
        precios_crecientes(v),
        0 <= k < v.len(),
    ensures
        mapa(v).dom().contains(v[k].0),
        mapa(v)[v[k].0] == v[k].1,
{
    let p = v[k].0;
    assert(tiene_precio(v, p));
    let c = choose|c: int| 0 <= c < v.len() && (#[trigger] v[c]).0 == p;
    if c < k {
        assert(v[c].0 < v[k].0);
    } else if c > k {
        assert(v[k].0 < v[c].0);
    }
}

/// Dos lados con los mismos pares precio-valor en las mismas posiciones
/// relativas tienen el mismo mapa; se usa con `=~=` sobre los dominios.
proof fn lema_mapa_igual<V>(a: Seq<(i64, V)>, b: Seq<(i64, V)>, m: Map<i64, V>)
    requires
        precios_crecientes(a),
        forall|p: i64| #[trigger] tiene_precio(a, p) <==> m.dom().contains(p),
        forall|k: int| 0 <= k < a.len() ==> m[(#[trigger] a[k]).0] == a[k].1,
        b == a,
    ensures
        mapa(b) == m,
{
    assert forall|p: i64| #[trigger] mapa(a).dom().contains(p) implies mapa(a)[p] == m[p] by {
        let k = choose|k: int| 0 <= k < a.len() && (#[trigger] a[k]).0 == p;
        lema_indice_unico(a, k);
    }
    assert(mapa(a) =~= m);
}

/// Primera posición cuyo precio no es menor que `p`.
fn posicion<V>(v: &Vec<(i64, V)>, p: i64) -> (k: usize)
    requires
        precios_crecientes(v@),
    ensures
        k <= v@.len(),
        forall|j: int| 0 <= j < k ==> (#[trigger] v@[j]).0 < p,
        k < v@.len() ==> v@[k as int].0 >= p,
{
    let mut k: usize = 0;
    while k < v.len() && v[k].0 < p
        invariant
            k <= v@.len(),
            forall|j: int| 0 <= j < k ==> (#[trigger] v@[j]).0 < p,
        decreases v@.len() - k,
    {
        k = k + 1;
    }
    k
}

/// Inserta o reemplaza el valor del precio `p`.
pub fn poner<V>(v: &mut Vec<(i64, V)>, p: i64, x: V)
    requires
        precios_crecientes(old(v)@),
    ensures
        precios_crecientes(final(v)@),
        mapa(final(v)@) == mapa(old(v)@).insert(p, x),
{
    let k = posicion(v, p);
    let ghost a = v@;
    if k < v.len() && v[k].0 == p {
        v.set(k, (p, x));
        proof {
            let b = v@;
            assert(b =~= a.update(k as int, (p, x)));
            assert forall|i: int, j: int| 0 <= i < j < b.len() implies (#[trigger] b[i]).0 < (#[trigger] b[j]).0 by {
                assert(a[i].0 < a[j].0);
            }
            let m = mapa(a).insert(p, x);
            assert forall|q: i64| #[trigger] tiene_precio(b, q) <==> m.dom().contains(q) by {
                if tiene_precio(b, q) {
                    let j = choose|j: int| 0 <= j < b.len() && (#[trigger] b[j]).0 == q;
                    if j != k {
                        assert(a[j] == b[j]);
                        assert(tiene_precio(a, q));
                    }
                }
                if mapa(a).dom().contains(q) {
                    let j = choose|j: int| 0 <= j < a.len() && (#[trigger] a[j]).0 == q;
                    assert(b[j].0 == q);
                }
                if q == p {
                    assert(b[k as int].0 == q);
                }
            }
            assert forall|j: int| 0 <= j < b.len() implies m[(#[trigger] b[j]).0] == b[j].1 by {
                if j != k {
                    assert(a[j] == b[j]);
                    lema_indice_unico(a, j);
                    assert(a[j].0 != p);
                }
            }
            lema_mapa_igual(b, b, m);
        }
    } else {
        v.insert(k, (p, x));
        proof {
            let b = v@;
            assert(b =~= a.take(k as int).push((p, x)) + a.skip(k as int));
            assert forall|j: int| 0 <= j < b.len() implies #[trigger] b[j] == (if j < k {
                a[j]
            } else if j == k {
                (p, x)
            } else {
                a[j - 1]
            }) by {}
            assert forall|i: int, j: int| 0 <= i < j < b.len() implies (#[trigger] b[i]).0 < (#[trigger] b[j]).0 by {
                if j < k {
                    assert(a[i].0 < a[j].0);
                } else if j == k {
                } else if i < k {
                    assert(a[i].0 < p);
                    if k < a.len() {
                        assert(a[k as int].0 > p);
                        if j - 1 > k {
                            assert(a[k as int].0 < a[j - 1].0);
                        }
                    }
                } else if i == k {
                    assert(a[k as int].0 > p);
                    if j - 1 > k {
                        assert(a[k as int].0 < a[j - 1].0);
                    }
                } else {
                    assert(a[i - 1].0 < a[j - 1].0);
                }
            }
            let m = mapa(a).insert(p, x);
            assert forall|q: i64| #[trigger] tiene_precio(b, q) <==> m.dom().contains(q) by {
                if tiene_precio(b, q) {
                    let j = choose|j: int| 0 <= j < b.len() && (#[trigger] b[j]).0 == q;
                    if j < k {
                        assert(tiene_precio(a, q));
                    } else if j > k {
                        assert(a[j - 1].0 == q);
                        assert(tiene_precio(a, q));
                    }
                }
                if mapa(a).dom().contains(q) {
                    let j = choose|j: int| 0 <= j < a.len() && (#[trigger] a[j]).0 == q;
                    if j < k {
                        assert(b[j].0 == q);
                    } else {
                        assert(b[j + 1].0 == q);
                    }
                }
                if q == p {
                    assert(b[k as int].0 == q);
                }
            }
            assert forall|j: int| 0 <= j < b.len() implies m[(#[trigger] b[j]).0] == b[j].1 by {
                if j < k {
                    lema_indice_unico(a, j);
                    assert(a[j].0 != p);
                } else if j > k {
                    lema_indice_unico(a, j - 1);
                    assert(a[j - 1].0 != p);
                }
            }
            lema_mapa_igual(b, b, m);
        }
    }
}

/// Quita el precio `p` si está.
pub fn quitar<V>(v: &mut Vec<(i64, V)>, p: i64)
    requires
        precios_crecientes(old(v)@),
    ensures
        precios_crecientes(final(v)@),
        mapa(final(v)@) == mapa(old(v)@).remove(p),
{
    let k = posicion(v, p);
    let ghost a = v@;
    if k < v.len() && v[k].0 == p {
        v.remove(k);
        proof {
            let b = v@;
            assert(b =~= a.take(k as int) + a.skip(k + 1));
            assert forall|j: int| 0 <= j < b.len() implies #[trigger] b[j] == (if j < k {
                a[j]
            } else {
                a[j + 1]
            }) by {}
            assert forall|i: int, j: int| 0 <= i < j < b.len() implies (#[trigger] b[i]).0 < (#[trigger] b[j]).0 by {
                if j < k {
                    assert(a[i].0 < a[j].0);
                } else if i < k {
                    assert(a[i].0 < a[j + 1].0);
                } else {
                    assert(a[i + 1].0 < a[j + 1].0);
                }
            }
            let m = mapa(a).remove(p);
            assert forall|q: i64| #[trigger] tiene_precio(b, q) <==> m.dom().contains(q) by {
                if tiene_precio(b, q) {
                    let j = choose|j: int| 0 <= j < b.len() && (#[trigger] b[j]).0 == q;
                    if j < k {
                        assert(tiene_precio(a, q));
                        assert(a[j].0 < a[k as int].0);
                    } else {
                        assert(a[j + 1].0 == q);
                        assert(tiene_precio(a, q));
                        assert(a[k as int].0 < a[j + 1].0);
                    }
                }
                if m.dom().contains(q) {
                    let j = choose|j: int| 0 <= j < a.len() && (#[trigger] a[j]).0 == q;
                    if j < k {
                        assert(b[j].0 == q);
                    } else {
                        assert(j != k);
                        assert(b[j - 1].0 == q);
                    }
                }
            }
            assert forall|j: int| 0 <= j < b.len() implies m[(#[trigger] b[j]).0] == b[j].1 by {
                if j < k {
                    lema_indice_unico(a, j);
                    assert(a[j].0 < a[k as int].0);
                } else {
                    lema_indice_unico(a, j + 1);
                    assert(a[k as int].0 < a[j + 1].0);
                }
            }
            lema_mapa_igual(b, b, m);
        }
    } else {
        proof {
            assert(!mapa(a).dom().contains(p)) by {
                if tiene_precio(a, p) {
                    let j = choose|j: int| 0 <= j < a.len() && (#[trigger] a[j]).0 == p;
                    if j < k {
                    } else if j > k {
                        assert(a[k as int].0 < a[j].0);
                    }
                }
            }
            assert(mapa(a).remove(p) =~= mapa(a));
        }
    }
}

} // verus!

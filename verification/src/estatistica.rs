//! Estatísticas de ordem de sequências de bytes: mínimo, mediana e máximo de
//! uma janela de pixels.
use vstd::prelude::*;

verus! {

/// Quantos elementos de `s` são no máximo `v`.
pub open spec fn conta_ate(s: Seq<u8>, v: int) -> nat
    decreases s.len(),
{
    if s.len() == 0 {
        0
    } else {
        conta_ate(s.drop_last(), v) + if s.last() <= v {
            1nat
        } else {
            0nat
        }
    }
}

/// Quantos elementos de `s` são iguais a `v`.
pub open spec fn conta_igual(s: Seq<u8>, v: int) -> nat
    decreases s.len(),
{
    if s.len() == 0 {
        0
    } else {
        conta_igual(s.drop_last(), v) + if s.last() == v {
            1nat
        } else {
            0nat
        }
    }
}

/// O menor `v` a partir de `desde` (até 255) com mais de `k` elementos de `s`
/// no máximo iguais a `v`.
pub open spec fn ordem_desde(s: Seq<u8>, k: int, desde: int) -> u8
    decreases 255 - desde,
{
    if desde >= 255 {
        255u8
    } else if conta_ate(s, desde) > k {
        desde as u8
    } else {
        ordem_desde(s, k, desde + 1)
    }
}

/// O elemento que ocupa a posição `k` (contada a partir de 0) de `s` posta em
/// ordem crescente: o menor valor `v` tal que mais de `k` elementos de `s` são
/// no máximo `v`.
pub open spec fn ordem(s: Seq<u8>, k: int) -> u8 {
    ordem_desde(s, k, 0)
}

/// O menor elemento de `s`.
pub open spec fn minimo(s: Seq<u8>) -> u8 {
    ordem(s, 0)
}

/// O maior elemento de `s`.
pub open spec fn maximo(s: Seq<u8>) -> u8 {
    ordem(s, s.len() - 1)
}

/// O elemento do meio de `s` ordenada: posição `len / 2`.
pub open spec fn mediana(s: Seq<u8>) -> u8 {
    ordem(s, (s.len() / 2) as int)
}

// ---------------------------------------------------------------------------
// Lemas sobre as contagens
// ---------------------------------------------------------------------------

/// Contar até `v` é contar até `v - 1` mais os iguais a `v`.
pub proof fn lemma_conta_ate_passo(s: Seq<u8>, v: int)
    ensures
        conta_ate(s, v) == conta_ate(s, v - 1) + conta_igual(s, v),
    decreases s.len(),
{
    if s.len() > 0 {
        lemma_conta_ate_passo(s.drop_last(), v);
    }
}

/// Nenhum byte é negativo; todos são no máximo 255.
pub proof fn lemma_conta_ate_extremos(s: Seq<u8>, v: int)
    ensures
        v < 0 ==> conta_ate(s, v) == 0,
        v >= 255 ==> conta_ate(s, v) == s.len(),
        conta_ate(s, v) <= s.len(),
    decreases s.len(),
{
    if s.len() > 0 {
        lemma_conta_ate_extremos(s.drop_last(), v);
    }
}

/// A contagem cresce com `v`.
pub proof fn lemma_conta_ate_monotona(s: Seq<u8>, v1: int, v2: int)
    requires
        v1 <= v2,
    ensures
        conta_ate(s, v1) <= conta_ate(s, v2),
    decreases s.len(),
{
    if s.len() > 0 {
        lemma_conta_ate_monotona(s.drop_last(), v1, v2);
    }
}

/// Contar num prefixo acrescido de um elemento.
pub proof fn lemma_conta_igual_push(s: Seq<u8>, e: u8, v: int)
    ensures
        conta_igual(s.push(e), v) == conta_igual(s, v) + if e == v {
            1nat
        } else {
            0nat
        },
        conta_ate(s.push(e), v) == conta_ate(s, v) + if e <= v {
            1nat
        } else {
            0nat
        },
{
    assert(s.push(e).drop_last() =~= s);
}

/// `ordem_desde` é a mesma a partir de qualquer ponto abaixo do qual nenhum
/// valor já passa de `k`.
proof fn lemma_ordem_desde_caracteriza(s: Seq<u8>, k: int, desde: int)
    requires
        0 <= desde <= 255,
        0 <= k < s.len(),
        desde > 0 ==> conta_ate(s, desde - 1) <= k,
    ensures
        conta_ate(s, ordem_desde(s, k, desde) as int) > k,
        ordem_desde(s, k, desde) >= desde,
        ordem_desde(s, k, desde) > 0 ==> conta_ate(s, ordem_desde(s, k, desde) - 1) <= k,
    decreases 255 - desde,
{
    lemma_conta_ate_extremos(s, 255);
    if desde >= 255 {
    } else if conta_ate(s, desde) > k {
    } else {
        lemma_ordem_desde_caracteriza(s, k, desde + 1);
    }
}

/// Caracterização de `ordem`: mais de `k` elementos são no máximo o
/// resultado, e no máximo `k` são menores que ele.
pub proof fn lemma_ordem_caracteriza(s: Seq<u8>, k: int)
    requires
        0 <= k < s.len(),
    ensures
        conta_ate(s, ordem(s, k) as int) > k,
        conta_ate(s, ordem(s, k) - 1) <= k,
{
    lemma_ordem_desde_caracteriza(s, k, 0);
    lemma_conta_ate_extremos(s, -1);
}

/// Se `v` satisfaz a caracterização, `v` é `ordem(s, k)`.
pub proof fn lemma_ordem_unica(s: Seq<u8>, k: int, v: u8)
    requires
        0 <= k < s.len(),
        conta_ate(s, v as int) > k,
        conta_ate(s, v - 1) <= k,
    ensures
        ordem(s, k) == v,
{
    lemma_ordem_caracteriza(s, k);
    let o = ordem(s, k);
    if o < v {
        lemma_conta_ate_monotona(s, o as int, v - 1);
    } else if o > v {
        lemma_conta_ate_monotona(s, v as int, o - 1);
    }
}

// ---------------------------------------------------------------------------
// Cálculo
// ---------------------------------------------------------------------------

/// O elemento na posição `k` de `s` em ordem crescente (por histograma).
pub fn elemento_de_ordem(s: &Vec<u8>, k: usize) -> (r: u8)
    requires
        k < s.len(),
    ensures
        r == ordem(s@, k as int),
{
    let mut hist: Vec<usize> = Vec::new();
    let mut v: usize = 0;
    while v < 256
        invariant
            v <= 256,
            hist.len() == v,
            forall|u: int| 0 <= u < v ==> hist[u] == 0,
        decreases 256 - v,
    {
        hist.push(0);
        v = v + 1;
    }
    let n = s.len();
    let mut i: usize = 0;
    while i < n
        invariant
            n == s.len(),
            i <= n,
            hist.len() == 256,
            forall|u: int| 0 <= u < 256 ==> hist[u] == conta_igual(s@.take(i as int), u),
            forall|u: int| 0 <= u < 256 ==> hist[u] <= i,
        decreases n - i,
    {
        let e = s[i];
        proof {
            assert(s@.take(i + 1) =~= s@.take(i as int).push(e));
            assert forall|u: int| 0 <= u < 256 implies conta_igual(s@.take(i + 1), u)
                == conta_igual(s@.take(i as int), u) + if e == u {
                1nat
            } else {
                0nat
            } by {
                lemma_conta_igual_push(s@.take(i as int), e, u);
            }
        }
        let atual = hist[e as usize];
        hist.set(e as usize, atual + 1);
        i = i + 1;
    }
    assert(s@.take(n as int) =~= s@);
    proof {
        lemma_conta_ate_extremos(s@, -1);
        lemma_conta_ate_extremos(s@, 255);
    }
    let mut acumulado: usize = 0;
    let mut v: usize = 0;
    while v < 255
        invariant
            n == s.len(),
            k < n,
            v <= 255,
            hist.len() == 256,
            forall|u: int| 0 <= u < 256 ==> hist[u] == conta_igual(s@, u),
            acumulado == conta_ate(s@, v - 1),
            acumulado <= k,
            ordem(s@, k as int) == ordem_desde(s@, k as int, v as int),
        decreases 255 - v,
    {
        proof {
            lemma_conta_ate_passo(s@, v as int);
            lemma_conta_ate_extremos(s@, v as int);
        }
        acumulado = acumulado + hist[v];
        if acumulado > k {
            return v as u8;
        }
        v = v + 1;
    }
    255
}

// ---------------------------------------------------------------------------
// Leis das estatísticas de ordem
// ---------------------------------------------------------------------------

/// O número de elementos iguais a `u` é a multiplicidade de `u`.
proof fn lemma_conta_igual_multiconjunto(s: Seq<u8>, u: u8)
    ensures
        conta_igual(s, u as int) == s.to_multiset().count(u),
    decreases s.len(),
{
    broadcast use vstd::seq_lib::group_to_multiset_ensures;

    if s.len() > 0 {
        lemma_conta_igual_multiconjunto(s.drop_last(), u);
        assert(s =~= s.drop_last().push(s.last()));
    } else {
        assert(s.to_multiset() =~= vstd::multiset::Multiset::empty());
    }
}

/// Sequências com os mesmos elementos (como multiconjunto) têm as mesmas
/// contagens.
proof fn lemma_conta_ate_permutacao(s: Seq<u8>, t: Seq<u8>, v: int)
    requires
        s.to_multiset() == t.to_multiset(),
    ensures
        conta_ate(s, v) == conta_ate(t, v),
    decreases v + 1,
{
    broadcast use vstd::seq_lib::group_to_multiset_ensures;

    if v < 0 {
        lemma_conta_ate_extremos(s, v);
        lemma_conta_ate_extremos(t, v);
    } else if v > 255 {
        lemma_conta_ate_extremos(s, v);
        lemma_conta_ate_extremos(t, v);
        assert(s.to_multiset().len() == s.len());
        assert(t.to_multiset().len() == t.len());
    } else {
        lemma_conta_ate_permutacao(s, t, v - 1);
        lemma_conta_ate_passo(s, v);
        lemma_conta_ate_passo(t, v);
        lemma_conta_igual_multiconjunto(s, v as u8);
        lemma_conta_igual_multiconjunto(t, v as u8);
    }
}

/// Se as `m` primeiras posições de `t` são no máximo `v`, ao menos `m`
/// elementos são no máximo `v`.
proof fn lemma_conta_ate_prefixo(t: Seq<u8>, v: int, m: int)
    requires
        0 <= m <= t.len(),
        forall|i: int| 0 <= i < m ==> t[i] <= v,
    ensures
        conta_ate(t, v) >= m,
    decreases t.len(),
{
    if t.len() > m {
        lemma_conta_ate_prefixo(t.drop_last(), v, m);
    } else if t.len() > 0 {
        lemma_conta_ate_prefixo(t.drop_last(), v, m - 1);
    }
}

/// Se as posições de `t` a partir de `m` passam de `v`, no máximo `m`
/// elementos são no máximo `v`.
proof fn lemma_conta_ate_sufixo(t: Seq<u8>, v: int, m: int)
    requires
        0 <= m,
        forall|i: int| m <= i < t.len() ==> t[i] > v,
    ensures
        conta_ate(t, v) <= m,
    decreases t.len(),
{
    lemma_conta_ate_extremos(t, v);
    if t.len() > m {
        lemma_conta_ate_sufixo(t.drop_last(), v, m);
    }
}

/// A ordem crescente de bytes.
pub open spec fn menor_ou_igual(a: u8, b: u8) -> bool {
    a <= b
}

/// Lei: `ordem(s, k)` é o elemento na posição `k` de `s` ordenada de forma
/// crescente; em particular, `mediana(s)` é o elemento do meio da janela
/// ordenada, `minimo(s)` o primeiro e `maximo(s)` o último.
pub proof fn lei_ordem_e_ordenacao(s: Seq<u8>, k: int)
    requires
        0 <= k < s.len(),
    ensures
        ordem(s, k) == s.sort_by(|a: u8, b: u8| menor_ou_igual(a, b))[k],
{
    broadcast use vstd::seq_lib::group_to_multiset_ensures;

    let leq = |a: u8, b: u8| menor_ou_igual(a, b);
    assert(vstd::relations::total_ordering(leq));
    s.lemma_sort_by_ensures(leq);
    let t = s.sort_by(leq);
    assert(t.len() == s.len()) by {
        assert(t.to_multiset().len() == s.to_multiset().len());
    }
    let e = t[k];
    assert forall|i: int| 0 <= i < k + 1 implies t[i] <= e by {
        if i < k {
            assert(leq(t[i], t[k]));
        }
    }
    assert forall|i: int| k <= i < t.len() implies t[i] > e - 1 by {
        if i > k {
            assert(leq(t[k], t[i]));
        }
    }
    lemma_conta_ate_prefixo(t, e as int, k + 1);
    lemma_conta_ate_sufixo(t, e - 1, k);
    lemma_conta_ate_permutacao(s, t, e as int);
    lemma_conta_ate_permutacao(s, t, e - 1);
    lemma_ordem_unica(s, k, e);
}

/// Lei: `ordem` depende só dos elementos, não da ordem em que aparecem: duas
/// janelas com os mesmos valores (como multiconjunto) dão o mesmo resultado.
pub proof fn lei_ordem_permutacao(s: Seq<u8>, t: Seq<u8>, k: int)
    requires
        s.to_multiset() == t.to_multiset(),
        0 <= k < s.len(),
    ensures
        ordem(s, k) == ordem(t, k),
{
    broadcast use vstd::seq_lib::group_to_multiset_ensures;

    assert(s.to_multiset().len() == s.len());
    assert(t.to_multiset().len() == t.len());
    let v = ordem(s, k);
    lemma_ordem_caracteriza(s, k);
    lemma_conta_ate_permutacao(s, t, v as int);
    lemma_conta_ate_permutacao(s, t, v - 1);
    lemma_ordem_unica(t, k, v);
}

/// Lei: `ordem(s, k)` é um dos elementos de `s`.
pub proof fn lei_ordem_pertence(s: Seq<u8>, k: int)
    requires
        0 <= k < s.len(),
    ensures
        s.contains(ordem(s, k)),
{
    lemma_ordem_caracteriza(s, k);
    let v = ordem(s, k);
    lemma_conta_ate_passo(s, v as int);
    lemma_conta_igual_contem(s, v as int);
}

/// Uma contagem positiva de iguais a `v` dá um elemento igual a `v`.
proof fn lemma_conta_igual_contem(s: Seq<u8>, v: int)
    requires
        conta_igual(s, v) > 0,
    ensures
        exists|i: int| 0 <= i < s.len() && s[i] == v,
    decreases s.len(),
{
    if s.last() == v {
        assert(s[s.len() - 1] == v);
    } else {
        lemma_conta_igual_contem(s.drop_last(), v);
        let i = choose|i: int| 0 <= i < s.drop_last().len() && s.drop_last()[i] == v;
        assert(s[i] == v);
    }
}

/// Lei: `ordem` cresce com a posição; em particular
/// `minimo(s) <= mediana(s) <= maximo(s)`.
pub proof fn lei_ordem_monotona(s: Seq<u8>, k1: int, k2: int)
    requires
        0 <= k1 <= k2 < s.len(),
    ensures
        ordem(s, k1) <= ordem(s, k2),
{
    lemma_ordem_caracteriza(s, k1);
    lemma_ordem_caracteriza(s, k2);
    if ordem(s, k2) < ordem(s, k1) {
        lemma_conta_ate_monotona(s, ordem(s, k2) as int, ordem(s, k1) - 1);
    }
}

/// Lei: o mínimo não passa de nenhum elemento, e o máximo não fica abaixo de
/// nenhum.
pub proof fn lei_minimo_maximo(s: Seq<u8>, i: int)
    requires
        0 <= i < s.len(),
    ensures
        minimo(s) <= s[i],
        s[i] <= maximo(s),
{
    lemma_ordem_caracteriza(s, 0);
    lemma_ordem_caracteriza(s, s.len() - 1);
    if s[i] < minimo(s) {
        lemma_conta_ate_elemento(s, i);
        lemma_conta_ate_monotona(s, s[i] as int, minimo(s) - 1);
    }
    if s[i] > maximo(s) {
        lemma_conta_ate_abaixo(s, i, maximo(s) as int);
    }
}

/// Um elemento conta para si mesmo.
proof fn lemma_conta_ate_elemento(s: Seq<u8>, i: int)
    requires
        0 <= i < s.len(),
    ensures
        conta_ate(s, s[i] as int) >= 1,
    decreases s.len(),
{
    if i < s.len() - 1 {
        lemma_conta_ate_elemento(s.drop_last(), i);
    }
}

/// Um elemento acima de `v` deixa a contagem abaixo do comprimento.
proof fn lemma_conta_ate_abaixo(s: Seq<u8>, i: int, v: int)
    requires
        0 <= i < s.len(),
        s[i] > v,
    ensures
        conta_ate(s, v) < s.len(),
    decreases s.len(),
{
    lemma_conta_ate_extremos(s.drop_last(), v);
    if i < s.len() - 1 {
        lemma_conta_ate_abaixo(s.drop_last(), i, v);
    }
}

/// Todos iguais a `v`: contam todos até `v` e nenhum abaixo.
proof fn lemma_conta_constante(s: Seq<u8>, v: u8)
    requires
        forall|i: int| 0 <= i < s.len() ==> s[i] == v,
    ensures
        conta_ate(s, v as int) == s.len(),
        conta_ate(s, v - 1) == 0,
    decreases s.len(),
{
    if s.len() > 0 {
        lemma_conta_constante(s.drop_last(), v);
    }
}

/// Lei: numa janela em que todos os elementos são `v`, qualquer estatística
/// de ordem é `v`.
pub proof fn lei_ordem_constante(s: Seq<u8>, k: int, v: u8)
    requires
        0 <= k < s.len(),
        forall|i: int| 0 <= i < s.len() ==> s[i] == v,
    ensures
        ordem(s, k) == v,
{
    lemma_conta_constante(s, v);
    lemma_ordem_unica(s, k, v);
}

/// Lei: numa janela de um só elemento, mínimo, mediana e máximo são esse
/// elemento.
pub proof fn lei_ordem_unitaria(v: u8)
    ensures
        ordem(seq![v], 0) == v,
{
    let s = seq![v];
    assert(s.drop_last() =~= Seq::<u8>::empty());
    assert(s.last() == v);
    assert(s.drop_last().len() == 0);
    assert(conta_ate(s.drop_last(), v - 1) == 0);
    assert(conta_ate(s.drop_last(), v as int) == 0);
    assert(conta_ate(s, v - 1) == 0);
    assert(conta_ate(s, v as int) == 1);
    lemma_ordem_unica(s, 0, v);
}

/// Cada elemento trocado pelo seu complemento `255 - v`.
pub open spec fn complemento(s: Seq<u8>) -> Seq<u8> {
    s.map_values(|v: u8| (255 - v) as u8)
}

/// No complemento, os elementos no máximo `v` são os que, em `s`, passam de
/// `254 - v`.
proof fn lemma_conta_ate_complemento(s: Seq<u8>, v: int)
    ensures
        conta_ate(complemento(s), v) == s.len() - conta_ate(s, 254 - v),
    decreases s.len(),
{
    lemma_conta_ate_extremos(s, 254 - v);
    if s.len() > 0 {
        lemma_conta_ate_complemento(s.drop_last(), v);
        assert(complemento(s).drop_last() =~= complemento(s.drop_last()));
    }
}

/// Lei: a estatística de ordem `k` do complemento é o complemento da
/// estatística de ordem `n - 1 - k`; em particular o mínimo do complemento é
/// `255 -` o máximo, e o máximo do complemento é `255 -` o mínimo.
pub proof fn lei_ordem_complemento(s: Seq<u8>, k: int)
    requires
        0 <= k < s.len(),
    ensures
        ordem(complemento(s), k) == 255 - ordem(s, s.len() - 1 - k),
{
    let m = s.len() - 1 - k;
    let o = ordem(s, m);
    lemma_ordem_caracteriza(s, m);
    let w = (255 - o) as u8;
    lemma_conta_ate_complemento(s, w as int);
    lemma_conta_ate_complemento(s, w - 1);
    lemma_ordem_unica(complemento(s), k, w);
}

} // verus!

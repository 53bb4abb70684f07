//! Transposição de matrizes guardadas linha a linha num vetor.
use vstd::prelude::*;

verus! {

/// Para `x < largura` e `y < altura`, `x * altura + y` fica abaixo de
/// `largura * altura`, e pares distintos dão posições distintas.
proof fn lemma_posicao(largura: int, altura: int, x: int, y: int)
    requires
        0 <= x < largura,
        0 <= y < altura,
    ensures
        x * altura + y < largura * altura,
        x * altura + y >= x * altura,
        (x + 1) * altura == x * altura + altura,
        y * largura + x < largura * altura,
{
    assert(x * altura + y < largura * altura) by (nonlinear_arith)
        requires
            0 <= x < largura,
            0 <= y < altura,
    ;
    assert((x + 1) * altura == x * altura + altura) by (nonlinear_arith);
    assert(y * largura + x < largura * altura) by (nonlinear_arith)
        requires
            0 <= x < largura,
            0 <= y < altura,
    ;
}

proof fn lemma_ordem_posicoes(altura: int, x1: int, y1: int, x2: int, y2: int)
    requires
        0 <= y1 < altura,
        0 <= y2 < altura,
        0 <= x1 <= x2,
        x1 < x2 || y1 < y2,
    ensures
        x1 * altura + y1 < x2 * altura + y2,
{
    if x1 < x2 {
        assert(x1 * altura + altura <= x2 * altura) by (nonlinear_arith)
            requires
                x1 < x2,
                altura >= 0,
        ;
    }
}

/// `r` é a transposta de `data` (matriz de `altura` linhas e `largura`
/// colunas guardada linha a linha): tem o comprimento de `data`, a posição
/// `x * altura + y` tem o elemento `y * largura + x` de `data`, e as posições a
/// partir de `largura * altura` têm `vazio`.
pub open spec fn transposta_de<T>(r: Seq<T>, data: Seq<T>, largura: int, altura: int, vazio: T) -> bool {
    &&& r.len() == data.len()
    &&& forall|x: int, y: int|
        0 <= x < largura && 0 <= y < altura ==> #[trigger] r[x * altura + y] == data[y * largura + x]
    &&& forall|i: int| largura * altura <= i < data.len() ==> #[trigger] r[i] == vazio
}

/// Transpõe a matriz de `altura` linhas e `largura` colunas guardada linha a
/// linha em `data`: a posição `x * altura + y` da saída recebe o elemento
/// `y * largura + x` de `data`. A saída tem o comprimento de `data`; as
/// posições a partir de `largura * altura` ficam com `vazio`.
pub fn transpor_matriz<T: Copy>(data: &[T], largura: usize, altura: usize, vazio: T) -> (r: Vec<T>)
    requires
        largura * altura <= data@.len(),
    ensures
        transposta_de(r@, data@, largura as int, altura as int, vazio),
{
    let n = data.len();
    let mut out: Vec<T> = Vec::new();
    let mut x: usize = 0;
    while x < largura
        invariant
            n == data@.len(),
            largura * altura <= data@.len(),
            x <= largura,
            out@.len() == x * altura,
            forall|xx: int, yy: int|
                0 <= xx < x && 0 <= yy < altura ==> #[trigger] out@[xx * altura + yy] == data@[yy * largura + xx],
        decreases largura - x,
    {
        let mut y: usize = 0;
        while y < altura
            invariant
                n == data@.len(),
                largura * altura <= data@.len(),
                x < largura,
                y <= altura,
                out@.len() == x * altura + y,
                forall|xx: int, yy: int|
                    (0 <= xx < x && 0 <= yy < altura) || (xx == x && 0 <= yy < y)
                        ==> #[trigger] out@[xx * altura + yy] == data@[yy * largura + xx],
            decreases altura - y,
        {
            proof {
                lemma_posicao(largura as int, altura as int, x as int, y as int);
            }
            let v = data[y * largura + x];
            let ghost antes = out@;
            out.push(v);
            proof {
                assert forall|xx: int, yy: int|
                    (0 <= xx < x && 0 <= yy < altura) || (xx == x && 0 <= yy < y + 1)
                        implies #[trigger] out@[xx * altura + yy] == data@[yy * largura + xx] by {
                    if xx == x && yy == y {
                    } else {
                        lemma_ordem_posicoes(altura as int, xx, yy, x as int, y as int);
                        assert(out@[xx * altura + yy] == antes[xx * altura + yy]);
                    }
                }
            }
            y = y + 1;
        }
        proof {
            assert((x + 1) * altura == x * altura + altura) by (nonlinear_arith);
        }
        x = x + 1;
    }
    let ghost preenchidos = out@;
    while out.len() < n
        invariant
            largura * altura <= n,
            n == data@.len(),
            out@.len() <= n,
            out@.len() >= largura * altura,
            x == largura,
            preenchidos.len() == largura * altura,
            forall|i: int| 0 <= i < largura * altura ==> #[trigger] out@[i] == preenchidos[i],
            forall|xx: int, yy: int|
                0 <= xx < largura && 0 <= yy < altura ==> #[trigger] preenchidos[xx * altura + yy] == data@[yy * largura + xx],
            forall|i: int| largura * altura <= i < out@.len() ==> #[trigger] out@[i] == vazio,
        decreases n - out@.len(),
    {
        out.push(vazio);
    }
    proof {
        assert forall|xx: int, yy: int|
            0 <= xx < largura && 0 <= yy < altura implies #[trigger] out@[xx * altura + yy] == data@[yy * largura + xx] by {
            lemma_posicao(largura as int, altura as int, xx, yy);
            assert(out@[xx * altura + yy] == preenchidos[xx * altura + yy]);
        }
    }
    out
}

/// Lei: transpor duas vezes (a segunda com as dimensões trocadas) devolve a
/// mesma matriz.
pub proof fn lei_transpor_duas_vezes<T>(
    data: Seq<T>,
    t: Seq<T>,
    u: Seq<T>,
    largura: int,
    altura: int,
    vazio: T,
)
    requires
        largura >= 0,
        altura >= 0,
        data.len() == largura * altura,
        transposta_de(t, data, largura, altura, vazio),
        transposta_de(u, t, altura, largura, vazio),
    ensures
        u == data,
{
    assert forall|i: int| 0 <= i < data.len() implies u[i] == data[i] by {
        let x = i % largura;
        let y = i / largura;
        assert(largura > 0) by (nonlinear_arith)
            requires
                0 <= i < largura * altura,
                altura >= 0,
        ;
        vstd::arithmetic::div_mod::lemma_fundamental_div_mod(i, largura);
        vstd::arithmetic::div_mod::lemma_mod_bound(i, largura);
        assert(0 <= y < altura) by (nonlinear_arith)
            requires
                i == largura * y + x,
                0 <= x < largura,
                0 <= i < largura * altura,
        ;
        assert(i == y * largura + x) by (nonlinear_arith)
            requires
                i == largura * y + x,
        ;
        assert(u[y * largura + x] == t[x * altura + y]);
        assert(t[x * altura + y] == data[y * largura + x]);
    }
    assert(u =~= data);
}

} // verus!

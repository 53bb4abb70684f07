//! Vizinhanças quadradas de um pixel.
use vstd::prelude::*;
use crate::imagem::bem_formada;

verus! {

/// A linha `i` (a partir de 0) da vizinhança de raio `o` em torno de `(x, y)`:
/// as coordenadas `(x + dx, y + i - o)` para `dx` de `-o` a `o`.
pub open spec fn linha_vizinhos(o: int, x: int, y: int, i: int) -> Seq<(i64, i64)> {
    Seq::new((2 * o + 1) as nat, |j: int| ((x + j - o) as i64, (y + i - o) as i64))
}

/// As primeiras `n` linhas da vizinhança de raio `o`, em sequência.
pub open spec fn vizinhos_ate(o: int, x: int, y: int, n: int) -> Seq<(i64, i64)>
    decreases n,
{
    if n <= 0 {
        Seq::empty()
    } else {
        vizinhos_ate(o, x, y, n - 1) + linha_vizinhos(o, x, y, n - 1)
    }
}

/// A vizinhança de um pixel para uma janela de tamanho `tam`: o quadrado de
/// raio `tam / 2` em torno de `(x, y)`, de cima para baixo e da esquerda para
/// a direita, sem cortar nas bordas da imagem.
pub open spec fn vizinhos(tam: u8, x: u32, y: u32) -> Seq<(i64, i64)> {
    let o = (tam / 2) as int;
    vizinhos_ate(o, x as int, y as int, 2 * o + 1)
}

/// Todas as linhas têm `2o + 1` coordenadas, e a vizinhança toda `(2o + 1)^2`.
pub proof fn lemma_vizinhos_ate_tamanho(o: int, x: int, y: int, n: int)
    requires
        o >= 0,
        n >= 0,
    ensures
        vizinhos_ate(o, x, y, n).len() == n * (2 * o + 1),
    decreases n,
{
    if n > 0 {
        lemma_vizinhos_ate_tamanho(o, x, y, n - 1);
        assert(n * (2 * o + 1) == (n - 1) * (2 * o + 1) + (2 * o + 1)) by (nonlinear_arith);
    } else {
        assert(n * (2 * o + 1) == 0) by (nonlinear_arith)
            requires
                n == 0,
        ;
    }
}

/// A coordenada na posição `i * (2o + 1) + j` da vizinhança é
/// `(x + j - o, y + i - o)`.
pub proof fn lemma_vizinhos_ate_indice(o: int, x: int, y: int, n: int, i: int, j: int)
    requires
        o >= 0,
        0 <= i < n,
        0 <= j < 2 * o + 1,
    ensures
        vizinhos_ate(o, x, y, n)[i * (2 * o + 1) + j] == ((x + j - o) as i64, (y + i - o) as i64),
    decreases n,
{
    lemma_vizinhos_ate_tamanho(o, x, y, n - 1);
    if i < n - 1 {
        lemma_vizinhos_ate_indice(o, x, y, n - 1, i, j);
        assert(i * (2 * o + 1) + j < (n - 1) * (2 * o + 1)) by (nonlinear_arith)
            requires
                0 <= i < n - 1,
                0 <= j < 2 * o + 1,
                o >= 0,
        ;
    } else {
        assert(i * (2 * o + 1) == (n - 1) * (2 * o + 1));
    }
}

/// As coordenadas da vizinhança de tamanho `tam` do pixel `(x, y)`: o quadrado
/// de raio `tam / 2`, linha a linha, sem cortar nas bordas da imagem.
pub fn n_neighbors(tam: u8, x: u32, y: u32) -> (r: Vec<(i64, i64)>)
    ensures
        r@ == vizinhos(tam, x, y),
        r@.len() == (2 * (tam / 2) + 1) * (2 * (tam / 2) + 1),
        forall|i: int, j: int|
            0 <= i < 2 * (tam / 2) + 1 && 0 <= j < 2 * (tam / 2) + 1 ==> #[trigger] r@[i * (2 * (tam / 2)
                + 1) + j] == ((x + j - tam / 2) as i64, (y + i - tam / 2) as i64),
{
    let offset: i64 = (tam / 2) as i64;
    let ghost o = offset as int;
    let mut vec: Vec<(i64, i64)> = Vec::new();
    let mut dy: i64 = -offset;
    while dy <= offset
        invariant
            0 <= o <= 127,
            offset == o,
            -o <= dy <= o + 1,
            vec@ == vizinhos_ate(o, x as int, y as int, dy + o),
        decreases o + 1 - dy,
    {
        let mut dx: i64 = -offset;
        while dx <= offset
            invariant
                0 <= o <= 127,
                offset == o,
                -o <= dy <= o,
                -o <= dx <= o + 1,
                vec@ == vizinhos_ate(o, x as int, y as int, dy + o) + linha_vizinhos(
                    o,
                    x as int,
                    y as int,
                    dy + o,
                ).take(dx + o),
            decreases o + 1 - dx,
        {
            let nx = x as i64 + dx;
            let ny = y as i64 + dy;
            proof {
                let base = vizinhos_ate(o, x as int, y as int, dy + o);
                let linha = linha_vizinhos(o, x as int, y as int, dy + o);
                assert(linha.take(dx + o + 1) =~= linha.take(dx + o).push((nx, ny)));
                assert(base + linha.take(dx + o + 1) =~= (base + linha.take(dx + o)).push(
                    (nx, ny),
                ));
            }
            vec.push((nx, ny));
            dx = dx + 1;
        }
        proof {
            let linha = linha_vizinhos(o, x as int, y as int, dy + o);
            assert(linha.take(2 * o + 1) =~= linha);
        }
        dy = dy + 1;
    }
    proof {
        lemma_vizinhos_ate_tamanho(o, x as int, y as int, 2 * o + 1);
        assert forall|i: int, j: int| 0 <= i < 2 * o + 1 && 0 <= j < 2 * o + 1 implies #[trigger] vec@[i
            * (2 * o + 1) + j] == ((x + j - o) as i64, (y + i - o) as i64) by {
            lemma_vizinhos_ate_indice(o, x as int, y as int, 2 * o + 1, i, j);
        }
    }
    vec
}

/// Pixels de `g` a distância de Chebyshev no máximo `r` de `(x, y)`, das
/// linhas `y0` até `fim - 1`, cada linha das colunas `x0` a `x1`.
pub open spec fn linhas_janela(g: Seq<Seq<u8>>, x0: int, x1: int, y0: int, fim: int) -> Seq<u8>
    decreases fim - y0,
{
    if fim <= y0 {
        Seq::empty()
    } else {
        linhas_janela(g, x0, x1, y0, fim - 1) + g[fim - 1].subrange(x0, x1 + 1)
    }
}

/// Os pixels de `g` (de `largura` por `altura`) a distância de Chebyshev no
/// máximo `r` de `(x, y)`, linha a linha: a janela quadrada de raio `r`
/// cortada nas bordas da imagem.
pub open spec fn janela_interna(g: Seq<Seq<u8>>, largura: int, altura: int, x: int, y: int, r: int) -> Seq<u8> {
    let x0 = if x - r < 0 { 0 } else { x - r };
    let x1 = if x + r > largura - 1 { largura - 1 } else { x + r };
    let y0 = if y - r < 0 { 0 } else { y - r };
    let y1 = if y + r > altura - 1 { altura - 1 } else { y + r };
    linhas_janela(g, x0, x1, y0, y1 + 1)
}

/// Uma janela que contém o próprio pixel não é vazia.
pub proof fn lemma_linhas_janela_tamanho(g: Seq<Seq<u8>>, x0: int, x1: int, y0: int, fim: int)
    requires
        0 <= x0 <= x1 + 1,
        forall|yy: int| y0 <= yy < fim ==> (#[trigger] g[yy]).len() >= x1 + 1,
    ensures
        linhas_janela(g, x0, x1, y0, fim).len() == if fim <= y0 {
            0
        } else {
            (fim - y0) * (x1 + 1 - x0)
        },
    decreases fim - y0,
{
    if fim > y0 {
        lemma_linhas_janela_tamanho(g, x0, x1, y0, fim - 1);
        assert((fim - y0) * (x1 + 1 - x0) == (fim - 1 - y0) * (x1 + 1 - x0) + (x1 + 1 - x0))
            by (nonlinear_arith);
        if fim - 1 <= y0 {
            assert((fim - 1 - y0) * (x1 + 1 - x0) == 0) by (nonlinear_arith)
                requires
                    fim - 1 == y0,
            ;
        }
    }
}

/// O pixel `(xx, yy)` ocupa a posição `(yy - y0) * (x1 + 1 - x0) + (xx - x0)`
/// das linhas da janela.
proof fn lemma_linhas_janela_indice(g: Seq<Seq<u8>>, x0: int, x1: int, y0: int, fim: int, xx: int, yy: int)
    requires
        0 <= x0 <= xx <= x1,
        y0 <= yy < fim,
        forall|r: int| y0 <= r < fim ==> (#[trigger] g[r]).len() >= x1 + 1,
    ensures
        linhas_janela(g, x0, x1, y0, fim)[(yy - y0) * (x1 + 1 - x0) + (xx - x0)] == g[yy][xx],
    decreases fim - y0,
{
    let w = x1 + 1 - x0;
    lemma_linhas_janela_tamanho(g, x0, x1, y0, fim - 1);
    if yy < fim - 1 {
        lemma_linhas_janela_indice(g, x0, x1, y0, fim - 1, xx, yy);
        assert((yy - y0) * w + (xx - x0) < (fim - 1 - y0) * w) by (nonlinear_arith)
            requires
                0 <= yy - y0 < fim - 1 - y0,
                0 <= xx - x0 < w,
        ;
    } else {
        if fim - 1 <= y0 {
            assert((yy - y0) * w == 0) by (nonlinear_arith)
                requires
                    yy == y0,
            ;
        }
    }
}

/// Lei: a janela cortada de raio `r` em torno de `(x, y)` tem uma posição
/// para cada pixel da imagem a distância de Chebyshev no máximo `r` de
/// `(x, y)`, linha a linha: com `x0..=x1` e `y0..=y1` as colunas e linhas
/// desses pixels, tem `(y1 - y0 + 1) * (x1 - x0 + 1)` elementos, e o pixel
/// `(xx, yy)` está na posição `(yy - y0) * (x1 - x0 + 1) + (xx - x0)`.
pub proof fn lei_janela_interna(
    g: Seq<Seq<u8>>,
    largura: u32,
    altura: u32,
    x: int,
    y: int,
    r: int,
    xx: int,
    yy: int,
)
    requires
        bem_formada(g, largura, altura),
        0 <= x < largura,
        0 <= y < altura,
        r >= 0,
    ensures
        ({
            let s = janela_interna(g, largura as int, altura as int, x, y, r);
            let x0 = if x >= r { x - r } else { 0 };
            let x1 = if x + r < largura { x + r } else { largura - 1 };
            let y0 = if y >= r { y - r } else { 0 };
            let y1 = if y + r < altura { y + r } else { altura - 1 };
            &&& s.len() == (y1 - y0 + 1) * (x1 - x0 + 1)
            &&& (0 <= xx < largura && 0 <= yy < altura && x - r <= xx <= x + r && y - r <= yy <= y + r)
                ==> s[(yy - y0) * (x1 - x0 + 1) + (xx - x0)] == g[yy][xx]
        }),
{
    let x0 = if x >= r { x - r } else { 0 };
    let x1 = if x + r < largura { x + r } else { largura - 1 };
    let y0 = if y >= r { y - r } else { 0 };
    let y1 = if y + r < altura { y + r } else { altura - 1 };
    lemma_linhas_janela_tamanho(g, x0, x1, y0, y1 + 1);
    if 0 <= xx < largura && 0 <= yy < altura && x - r <= xx <= x + r && y - r <= yy <= y + r {
        lemma_linhas_janela_indice(g, x0, x1, y0, y1 + 1, xx, yy);
    }
}

} // verus!

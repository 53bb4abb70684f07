//! Filtros de vizinhança: mediana, mínimo e máximo com preenchimento nas
//! bordas.
use vstd::prelude::*;
use crate::estatistica::{complemento, elemento_de_ordem, lei_minimo_maximo, lei_ordem_complemento, lei_ordem_e_ordenacao, menor_ou_igual, lei_ordem_constante, lei_ordem_monotona, lei_ordem_unitaria, ordem};
use crate::imagem::{
    lemma_com_pixel,
    bem_formada, canal, dimensoes, dimensoes_dinamica, dimensoes_rgb, nova_rgb, pixel,
    pixels_dinamica, pixels_rgb, poe_pixel_rgb, rgb_para_dinamica, variante_rgb8, Rgb, Rgba,
};
use crate::limites::{cabe_em_rgb, imagem_cabe_em_rgb};
use crate::vizinhanca::{lemma_vizinhos_ate_indice, lemma_vizinhos_ate_tamanho, n_neighbors, vizinhos, vizinhos_ate, linha_vizinhos};

verus! {

/// Qual estatística de ordem um filtro toma da janela.
#[derive(Clone, Copy, PartialEq, Eq, Debug)]
pub enum Selecao {
    Mediana,
    Minimo,
    Maximo,
}

/// A posição, na janela ordenada de `n` elementos, que o filtro escolhe.
pub open spec fn posicao(sel: Selecao, n: int) -> int {
    match sel {
        Selecao::Mediana => n / 2,
        Selecao::Minimo => 0,
        Selecao::Maximo => n - 1,
    }
}

/// O valor de um vizinho `p` no canal `c`: o do pixel, se `p` cai dentro da
/// imagem; senão `preenchimento`.
pub open spec fn valor_vizinho(img: image::DynamicImage, c: int, p: (i64, i64), preenchimento: u8) -> u8 {
    let d = dimensoes_dinamica(img);
    if p.0 < 0 || p.1 < 0 || p.0 >= d.0 || p.1 >= d.1 {
        preenchimento
    } else {
        canal(pixels_dinamica(img)[p.1 as int][p.0 as int], c)
    }
}

/// A janela de tamanho `tam` do pixel `(x, y)` no canal `c`, com
/// `preenchimento` no lugar dos vizinhos fora da imagem.
pub open spec fn janela(img: image::DynamicImage, c: int, tam: u8, x: u32, y: u32, preenchimento: u8) -> Seq<u8> {
    vizinhos(tam, x, y).map_values(|p: (i64, i64)| valor_vizinho(img, c, p, preenchimento))
}

/// O pixel de saída de um filtro de ordem: em cada canal de cor, o elemento da
/// janela que `sel` escolhe.
pub open spec fn pixel_por_ordem(
    img: image::DynamicImage,
    tam: u8,
    preenchimento: u8,
    sel: Selecao,
    x: u32,
    y: u32,
) -> Rgb {
    let n = vizinhos(tam, x, y).len() as int;
    (
        ordem(janela(img, 0, tam, x, y, preenchimento), posicao(sel, n)),
        ordem(janela(img, 1, tam, x, y, preenchimento), posicao(sel, n)),
        ordem(janela(img, 2, tam, x, y, preenchimento), posicao(sel, n)),
    )
}

/// Os três canais de cor da janela de um pixel.
fn janelas_rgb(img: &image::DynamicImage, viz: &Vec<(i64, i64)>, preenchimento: u8) -> (r: (
    Vec<u8>,
    Vec<u8>,
    Vec<u8>,
))
    requires
        bem_formada(
            pixels_dinamica(*img),
            dimensoes_dinamica(*img).0,
            dimensoes_dinamica(*img).1,
        ),
    ensures
        r.0@ == viz@.map_values(|p: (i64, i64)| valor_vizinho(*img, 0, p, preenchimento)),
        r.1@ == viz@.map_values(|p: (i64, i64)| valor_vizinho(*img, 1, p, preenchimento)),
        r.2@ == viz@.map_values(|p: (i64, i64)| valor_vizinho(*img, 2, p, preenchimento)),
{
    let (largura, altura) = dimensoes(img);
    let mut vr: Vec<u8> = Vec::new();
    let mut vg: Vec<u8> = Vec::new();
    let mut vb: Vec<u8> = Vec::new();
    let n = viz.len();
    let mut i: usize = 0;
    while i < n
        invariant
            n == viz.len(),
            i <= n,
            (largura, altura) == dimensoes_dinamica(*img),
            vr@ == viz@.take(i as int).map_values(
                |p: (i64, i64)| valor_vizinho(*img, 0, p, preenchimento),
            ),
            vg@ == viz@.take(i as int).map_values(
                |p: (i64, i64)| valor_vizinho(*img, 1, p, preenchimento),
            ),
            vb@ == viz@.take(i as int).map_values(
                |p: (i64, i64)| valor_vizinho(*img, 2, p, preenchimento),
            ),
        decreases n - i,
    {
        let (nx, ny) = viz[i];
        let (r, g, b) = if nx < 0 || ny < 0 || nx >= largura as i64 || ny >= altura as i64 {
            (preenchimento, preenchimento, preenchimento)
        } else {
            let p = pixel(img, nx as u32, ny as u32);
            (p.0, p.1, p.2)
        };
        vr.push(r);
        vg.push(g);
        vb.push(b);
        proof {
            assert(viz@.take(i + 1) =~= viz@.take(i as int).push(viz@[i as int]));
        }
        i = i + 1;
    }
    assert(viz@.take(n as int) =~= viz@);
    (vr, vg, vb)
}

/// Aplica um filtro de ordem a cada pixel: a imagem de saída, RGB, tem em
/// cada pixel e canal o elemento que `sel` escolhe da janela de tamanho `tam`
/// (vizinhos fora da imagem valem `preenchimento`).
pub fn filtrar_por_ordem(img: &image::DynamicImage, tam: u8, preenchimento: u8, sel: Selecao) -> (r:
    image::DynamicImage)
    requires
        3 * dimensoes_dinamica(*img).0 * dimensoes_dinamica(*img).1 <= isize::MAX,
    ensures
        dimensoes_dinamica(r) == dimensoes_dinamica(*img),
        variante_rgb8(r),
        bem_formada(pixels_dinamica(r), dimensoes_dinamica(r).0, dimensoes_dinamica(r).1),
        forall|x: u32, y: u32|
            x < dimensoes_dinamica(*img).0 && y < dimensoes_dinamica(*img).1 ==> {
                let p = pixel_por_ordem(*img, tam, preenchimento, sel, x, y);
                #[trigger] pixels_dinamica(r)[y as int][x as int] == (p.0, p.1, p.2, 255u8)
            },
{
    let (largura, altura) = dimensoes(img);
    let mut saida = nova_rgb(largura, altura);
    let mut y: u32 = 0;
    while y < altura
        invariant
            (largura, altura) == dimensoes_dinamica(*img),
            bem_formada(pixels_dinamica(*img), largura, altura),
            y <= altura,
            dimensoes_rgb(saida) == (largura, altura),
            bem_formada(pixels_rgb(saida), largura, altura),
            forall|xx: u32, yy: u32|
                yy < y && xx < largura ==> #[trigger] pixels_rgb(saida)[yy as int][xx as int]
                    == pixel_por_ordem(*img, tam, preenchimento, sel, xx, yy),
        decreases altura - y,
    {
        let mut x: u32 = 0;
        while x < largura
            invariant
                (largura, altura) == dimensoes_dinamica(*img),
                bem_formada(pixels_dinamica(*img), largura, altura),
                y < altura,
                x <= largura,
                dimensoes_rgb(saida) == (largura, altura),
                bem_formada(pixels_rgb(saida), largura, altura),
                forall|xx: u32, yy: u32|
                    (yy < y && xx < largura) || (yy == y && xx < x) ==> #[trigger] pixels_rgb(
                        saida,
                    )[yy as int][xx as int] == pixel_por_ordem(
                        *img,
                        tam,
                        preenchimento,
                        sel,
                        xx,
                        yy,
                    ),
            decreases largura - x,
        {
            let viz = n_neighbors(tam, x, y);
            let (vr, vg, vb) = janelas_rgb(img, &viz, preenchimento);
            let n = viz.len();
            let k = match sel {
                Selecao::Mediana => n / 2,
                Selecao::Minimo => 0,
                Selecao::Maximo => n - 1,
            };
            let p = (elemento_de_ordem(&vr, k), elemento_de_ordem(&vg, k), elemento_de_ordem(&vb, k));
            proof {
                assert(p == pixel_por_ordem(*img, tam, preenchimento, sel, x, y));
            }
            let ghost antes = pixels_rgb(saida);
            proof {
                lemma_com_pixel(pixels_rgb(saida), largura, altura, x as int, y as int, p);
            }
            poe_pixel_rgb(&mut saida, x, y, p);
            proof {
                assert forall|xx: u32, yy: u32|
                    (yy < y && xx < largura) || (yy == y && xx < x + 1) implies #[trigger] pixels_rgb(
                        saida,
                    )[yy as int][xx as int] == pixel_por_ordem(
                        *img,
                        tam,
                        preenchimento,
                        sel,
                        xx,
                        yy,
                    ) by {
                    if yy == y && xx == x {
                    } else {
                        assert(pixels_rgb(saida)[yy as int][xx as int] == antes[yy as int][xx as int]);
                    }
                }
            }
            x = x + 1;
        }
        y = y + 1;
    }
    let ghost final_rgb = pixels_rgb(saida);
    let r = rgb_para_dinamica(saida);
    proof {
        assert forall|x: u32, y: u32|
            x < largura && y < altura implies {
                let p = pixel_por_ordem(*img, tam, preenchimento, sel, x, y);
                #[trigger] pixels_dinamica(r)[y as int][x as int] == (p.0, p.1, p.2, 255u8)
            } by {
            assert(final_rgb[y as int][x as int] == pixel_por_ordem(
                *img,
                tam,
                preenchimento,
                sel,
                x,
                y,
            ));
        }
    }
    r
}

/// A imagem que um filtro de ordem produz, ao lado do nome que a descreve.
pub open spec fn saida_de_filtro(
    img: image::DynamicImage,
    tam: u8,
    preenchimento: u8,
    sel: Selecao,
    saida: image::DynamicImage,
) -> bool {
    &&& dimensoes_dinamica(saida) == dimensoes_dinamica(img)
    &&& variante_rgb8(saida)
    &&& bem_formada(pixels_dinamica(saida), dimensoes_dinamica(saida).0, dimensoes_dinamica(saida).1)
    &&& forall|x: u32, y: u32|
        x < dimensoes_dinamica(img).0 && y < dimensoes_dinamica(img).1 ==> {
            let p = pixel_por_ordem(img, tam, preenchimento, sel, x, y);
            #[trigger] pixels_dinamica(saida)[y as int][x as int] == (p.0, p.1, p.2, 255u8)
        }
}

/// O nome do resultado de cada filtro de ordem.
pub open spec fn nome_filtro(sel: Selecao) -> Seq<char> {
    match sel {
        Selecao::Mediana => "mediana"@,
        Selecao::Minimo => "minimo"@,
        Selecao::Maximo => "maximo"@,
    }
}

/// O que um filtro de ordem devolve: uma só imagem, com o nome do filtro.
pub open spec fn resultado_filtro(
    img: image::DynamicImage,
    tam: u8,
    preenchimento: u8,
    sel: Selecao,
    r: Seq<(image::DynamicImage, String)>,
) -> bool {
    &&& r.len() == 1
    &&& r[0].1@ == nome_filtro(sel)
    &&& saida_de_filtro(img, tam, preenchimento, sel, r[0].0)
}

/// Junta a imagem filtrada ao seu nome numa lista de um só resultado.
fn resultado_unico(saida: image::DynamicImage, nome: &str) -> (r: Vec<(image::DynamicImage, String)>)
    ensures
        r@.len() == 1,
        r@[0].0 == saida,
        r@[0].1@ == nome@,
{
    let mut v: Vec<(image::DynamicImage, String)> = Vec::new();
    v.push((saida, String::from_str(nome)));
    v
}

/// Filtro da mediana: cada canal de cada pixel passa a ser a mediana (o
/// elemento do meio, em ordem crescente) dos valores da janela quadrada de
/// tamanho `tam` em torno dele; vizinhos fora da imagem valem `placeholder`.
/// A saída é uma imagem RGB chamada "mediana". `tam * tam` tem de caber num
/// byte (`tam <= 15`).
pub fn filtro_mediana(img: image::DynamicImage, tam: u8, placeholder: u8) -> (r: Vec<(image::DynamicImage, String)>)
    requires
        tam <= 15,
        3 * dimensoes_dinamica(img).0 * dimensoes_dinamica(img).1 <= isize::MAX,
    ensures
        resultado_filtro(img, tam, placeholder, Selecao::Mediana, r@),
{
    let saida = filtrar_por_ordem(&img, tam, placeholder, Selecao::Mediana);
    resultado_unico(saida, "mediana")
}

/// Filtro do mínimo: cada canal de cada pixel passa a ser o menor valor da
/// janela quadrada de tamanho `tam` em torno dele; vizinhos fora da imagem
/// valem `placeholder`. A saída é uma imagem RGB chamada "minimo". `tam * tam`
/// tem de caber num byte (`tam <= 15`).
pub fn filtro_min(img: image::DynamicImage, tam: u8, placeholder: u8) -> (r: Vec<(image::DynamicImage, String)>)
    requires
        tam <= 15,
        3 * dimensoes_dinamica(img).0 * dimensoes_dinamica(img).1 <= isize::MAX,
    ensures
        resultado_filtro(img, tam, placeholder, Selecao::Minimo, r@),
{
    let saida = filtrar_por_ordem(&img, tam, placeholder, Selecao::Minimo);
    resultado_unico(saida, "minimo")
}

/// Filtro do máximo: cada canal de cada pixel passa a ser o maior valor da
/// janela quadrada de tamanho `tam` em torno dele; vizinhos fora da imagem
/// valem `placeholder`. A saída é uma imagem RGB chamada "maximo". `tam * tam`
/// tem de caber num byte (`tam <= 15`).
pub fn filtro_max(img: image::DynamicImage, tam: u8, placeholder: u8) -> (r: Vec<(image::DynamicImage, String)>)
    requires
        tam <= 15,
        3 * dimensoes_dinamica(img).0 * dimensoes_dinamica(img).1 <= isize::MAX,
    ensures
        resultado_filtro(img, tam, placeholder, Selecao::Maximo, r@),
{
    let saida = filtrar_por_ordem(&img, tam, placeholder, Selecao::Maximo);
    resultado_unico(saida, "maximo")
}

/// `filtro_mediana`, `filtro_min` ou `filtro_max` (conforme `sel`) quando o
/// tamanho da janela e o da imagem são aceitos; `None` quando `tam > 15` ou a
/// saída RGB não cabe na memória endereçável.
pub fn tentar_filtro(img: image::DynamicImage, tam: u8, placeholder: u8, sel: Selecao) -> (r: Option<
    Vec<(image::DynamicImage, String)>,
>)
    ensures
        r is Some <==> tam <= 15 && cabe_em_rgb(dimensoes_dinamica(img)),
        r matches Some(v) ==> resultado_filtro(img, tam, placeholder, sel, v@),
{
    if tam > 15 || !imagem_cabe_em_rgb(&img) {
        return None;
    }
    match sel {
        Selecao::Mediana => Some(filtro_mediana(img, tam, placeholder)),
        Selecao::Minimo => Some(filtro_min(img, tam, placeholder)),
        Selecao::Maximo => Some(filtro_max(img, tam, placeholder)),
    }
}

// ---------------------------------------------------------------------------
// Leis dos filtros de ordem
// ---------------------------------------------------------------------------

/// A janela tem `(2 * (tam / 2) + 1)^2` elementos, pelo menos um.
proof fn lemma_janela_tamanho(img: image::DynamicImage, c: int, tam: u8, x: u32, y: u32, preenchimento: u8)
    ensures
        janela(img, c, tam, x, y, preenchimento).len() == vizinhos(tam, x, y).len(),
        vizinhos(tam, x, y).len() >= 1,
{
    let o = (tam / 2) as int;
    lemma_vizinhos_ate_tamanho(o, x as int, y as int, 2 * o + 1);
    assert((2 * o + 1) * (2 * o + 1) >= 1) by (nonlinear_arith)
        requires
            o >= 0,
    ;
}

/// Lei: em cada pixel e canal, o filtro do mínimo não passa do da mediana, e
/// o da mediana não passa do do máximo.
pub proof fn lei_minimo_mediana_maximo(img: image::DynamicImage, tam: u8, preenchimento: u8, x: u32, y: u32)
    ensures
        pixel_por_ordem(img, tam, preenchimento, Selecao::Minimo, x, y).0 <= pixel_por_ordem(
            img,
            tam,
            preenchimento,
            Selecao::Mediana,
            x,
            y,
        ).0,
        pixel_por_ordem(img, tam, preenchimento, Selecao::Mediana, x, y).0 <= pixel_por_ordem(
            img,
            tam,
            preenchimento,
            Selecao::Maximo,
            x,
            y,
        ).0,
        pixel_por_ordem(img, tam, preenchimento, Selecao::Minimo, x, y).1 <= pixel_por_ordem(
            img,
            tam,
            preenchimento,
            Selecao::Mediana,
            x,
            y,
        ).1,
        pixel_por_ordem(img, tam, preenchimento, Selecao::Mediana, x, y).1 <= pixel_por_ordem(
            img,
            tam,
            preenchimento,
            Selecao::Maximo,
            x,
            y,
        ).1,
        pixel_por_ordem(img, tam, preenchimento, Selecao::Minimo, x, y).2 <= pixel_por_ordem(
            img,
            tam,
            preenchimento,
            Selecao::Mediana,
            x,
            y,
        ).2,
        pixel_por_ordem(img, tam, preenchimento, Selecao::Mediana, x, y).2 <= pixel_por_ordem(
            img,
            tam,
            preenchimento,
            Selecao::Maximo,
            x,
            y,
        ).2,
{
    let n = vizinhos(tam, x, y).len() as int;
    lemma_janela_tamanho(img, 0, tam, x, y, preenchimento);
    lemma_janela_tamanho(img, 1, tam, x, y, preenchimento);
    lemma_janela_tamanho(img, 2, tam, x, y, preenchimento);
    let j0 = janela(img, 0, tam, x, y, preenchimento);
    let j1 = janela(img, 1, tam, x, y, preenchimento);
    let j2 = janela(img, 2, tam, x, y, preenchimento);
    lei_ordem_monotona(j0, 0, n / 2);
    lei_ordem_monotona(j0, n / 2, n - 1);
    lei_ordem_monotona(j1, 0, n / 2);
    lei_ordem_monotona(j1, n / 2, n - 1);
    lei_ordem_monotona(j2, 0, n / 2);
    lei_ordem_monotona(j2, n / 2, n - 1);
}

/// Lei: com janela de tamanho 0 ou 1 (só o próprio pixel), os filtros da
/// mediana, do mínimo e do máximo devolvem a cor de cada pixel.
pub proof fn lei_janela_unitaria(
    img: image::DynamicImage,
    tam: u8,
    preenchimento: u8,
    sel: Selecao,
    x: u32,
    y: u32,
)
    requires
        tam <= 1,
        x < dimensoes_dinamica(img).0,
        y < dimensoes_dinamica(img).1,
    ensures
        pixel_por_ordem(img, tam, preenchimento, sel, x, y) == (
            pixels_dinamica(img)[y as int][x as int].0,
            pixels_dinamica(img)[y as int][x as int].1,
            pixels_dinamica(img)[y as int][x as int].2,
        ),
{
    let v = vizinhos(tam, x, y);
    assert(v =~= seq![(x as i64, y as i64)]) by {
        assert(vizinhos_ate(0, x as int, y as int, 0) =~= Seq::<(i64, i64)>::empty());
        assert(linha_vizinhos(0, x as int, y as int, 0) =~= seq![(x as i64, y as i64)]);
    }
    let p = pixels_dinamica(img)[y as int][x as int];
    assert(janela(img, 0, tam, x, y, preenchimento) =~= seq![p.0]);
    assert(janela(img, 1, tam, x, y, preenchimento) =~= seq![p.1]);
    assert(janela(img, 2, tam, x, y, preenchimento) =~= seq![p.2]);
    lei_ordem_unitaria(p.0);
    lei_ordem_unitaria(p.1);
    lei_ordem_unitaria(p.2);
}

/// Lei: numa imagem cinza uniforme de nível `v` (os três canais de todo pixel
/// iguais a `v`), com preenchimento também `v`, os filtros da mediana, do
/// mínimo e do máximo devolvem `v` em todo pixel.
pub proof fn lei_imagem_uniforme(
    img: image::DynamicImage,
    tam: u8,
    v: u8,
    sel: Selecao,
    x: u32,
    y: u32,
)
    requires
        forall|xx: int, yy: int|
            0 <= xx < dimensoes_dinamica(img).0 && 0 <= yy < dimensoes_dinamica(img).1 ==> {
                let p = #[trigger] pixels_dinamica(img)[yy][xx];
                p.0 == v && p.1 == v && p.2 == v
            },
    ensures
        pixel_por_ordem(img, tam, v, sel, x, y) == (v, v, v),
{
    let n = vizinhos(tam, x, y).len() as int;
    lemma_janela_tamanho(img, 0, tam, x, y, v);
    assert forall|c: int| 0 <= c < 3 implies ordem(janela(img, c, tam, x, y, v), posicao(sel, n)) == v by {
        let j = janela(img, c, tam, x, y, v);
        assert forall|i: int| 0 <= i < j.len() implies j[i] == v by {
            let p = vizinhos(tam, x, y)[i];
            if !(p.0 < 0 || p.1 < 0 || p.0 >= dimensoes_dinamica(img).0 || p.1 >= dimensoes_dinamica(img).1) {
                let q = pixels_dinamica(img)[p.1 as int][p.0 as int];
                assert(q.0 == v && q.1 == v && q.2 == v);
            }
        }
        lei_ordem_constante(j, posicao(sel, n), v);
    }
}

/// Lei: o pixel está na própria janela, e por isso, em cada canal, o filtro
/// do mínimo não passa do valor do pixel e o do máximo não fica abaixo dele.
pub proof fn lei_minimo_pixel_maximo(img: image::DynamicImage, tam: u8, preenchimento: u8, x: u32, y: u32)
    requires
        x < dimensoes_dinamica(img).0,
        y < dimensoes_dinamica(img).1,
    ensures
        pixel_por_ordem(img, tam, preenchimento, Selecao::Minimo, x, y).0 <= pixels_dinamica(img)[y as int][x as int].0,
        pixels_dinamica(img)[y as int][x as int].0 <= pixel_por_ordem(img, tam, preenchimento, Selecao::Maximo, x, y).0,
        pixel_por_ordem(img, tam, preenchimento, Selecao::Minimo, x, y).1 <= pixels_dinamica(img)[y as int][x as int].1,
        pixels_dinamica(img)[y as int][x as int].1 <= pixel_por_ordem(img, tam, preenchimento, Selecao::Maximo, x, y).1,
        pixel_por_ordem(img, tam, preenchimento, Selecao::Minimo, x, y).2 <= pixels_dinamica(img)[y as int][x as int].2,
        pixels_dinamica(img)[y as int][x as int].2 <= pixel_por_ordem(img, tam, preenchimento, Selecao::Maximo, x, y).2,
{
    let o = (tam / 2) as int;
    let centro = o * (2 * o + 1) + o;
    lemma_vizinhos_ate_tamanho(o, x as int, y as int, 2 * o + 1);
    lemma_vizinhos_ate_indice(o, x as int, y as int, 2 * o + 1, o, o);
    assert(centro < (2 * o + 1) * (2 * o + 1)) by (nonlinear_arith)
        requires
            o >= 0,
            centro == o * (2 * o + 1) + o,
    ;
    assert(vizinhos(tam, x, y)[centro] == (x as i64, y as i64));
    let p = pixels_dinamica(img)[y as int][x as int];
    let j0 = janela(img, 0, tam, x, y, preenchimento);
    let j1 = janela(img, 1, tam, x, y, preenchimento);
    let j2 = janela(img, 2, tam, x, y, preenchimento);
    assert(j0[centro] == p.0);
    assert(j1[centro] == p.1);
    assert(j2[centro] == p.2);
    lei_minimo_maximo(j0, centro);
    lei_minimo_maximo(j1, centro);
    lei_minimo_maximo(j2, centro);
}

/// `n` é `img` com as cores invertidas: as mesmas dimensões, e em cada pixel
/// cada canal de cor `v` trocado por `255 - v` (o alfa não conta).
pub open spec fn cores_invertidas(img: image::DynamicImage, n: image::DynamicImage) -> bool {
    let d = dimensoes_dinamica(img);
    &&& dimensoes_dinamica(n) == d
    &&& forall|x: int, y: int|
        0 <= x < d.0 && 0 <= y < d.1 ==> {
            let p = #[trigger] pixels_dinamica(img)[y][x];
            let q = pixels_dinamica(n)[y][x];
            q.0 == 255 - p.0 && q.1 == 255 - p.1 && q.2 == 255 - p.2
        }
}

/// Cada canal de cor de cada pixel trocado pelo complemento `255 - v`; o alfa
/// fica.
pub open spec fn inverte_cores(linhas: Seq<Seq<Rgba>>) -> Seq<Seq<Rgba>> {
    linhas.map_values(
        |l: Seq<Rgba>| l.map_values(|p: Rgba| ((255 - p.0) as u8, (255 - p.1) as u8, (255 - p.2) as u8, p.3)),
    )
}

/// Lei: em cada pixel, o filtro do máximo é o filtro do mínimo conjugado pela
/// inversão das cores: o máximo da janela de `img` com preenchimento `p` é
/// `255 -` o mínimo da janela da imagem invertida com preenchimento `255 - p`,
/// canal a canal.
pub proof fn lei_maximo_por_minimo(
    img: image::DynamicImage,
    n: image::DynamicImage,
    tam: u8,
    preenchimento: u8,
    x: u32,
    y: u32,
)
    requires
        cores_invertidas(img, n),
    ensures
        ({
            let mx = pixel_por_ordem(img, tam, preenchimento, Selecao::Maximo, x, y);
            let mn = pixel_por_ordem(n, tam, (255 - preenchimento) as u8, Selecao::Minimo, x, y);
            mx == ((255 - mn.0) as u8, (255 - mn.1) as u8, (255 - mn.2) as u8)
        }),
{
    let viz = vizinhos(tam, x, y);
    let m = viz.len() as int;
    let inv = (255 - preenchimento) as u8;
    lemma_janela_tamanho(img, 0, tam, x, y, preenchimento);
    assert forall|c: int| 0 <= c < 3 implies #[trigger] janela(n, c, tam, x, y, inv) == complemento(
        janela(img, c, tam, x, y, preenchimento),
    ) by {
        let jn = janela(n, c, tam, x, y, inv);
        let ji = janela(img, c, tam, x, y, preenchimento);
        assert forall|i: int| 0 <= i < m implies jn[i] == complemento(ji)[i] by {
            let q = viz[i];
            let d = dimensoes_dinamica(img);
            if !(q.0 < 0 || q.1 < 0 || q.0 >= d.0 || q.1 >= d.1) {
                assert(canal(pixels_dinamica(n)[q.1 as int][q.0 as int], c) == 255 - canal(
                    pixels_dinamica(img)[q.1 as int][q.0 as int],
                    c,
                ));
            }
        }
        assert(jn =~= complemento(ji));
        lei_ordem_complemento(ji, 0);
    }
    lei_ordem_complemento(janela(img, 0, tam, x, y, preenchimento), 0);
    lei_ordem_complemento(janela(img, 1, tam, x, y, preenchimento), 0);
    lei_ordem_complemento(janela(img, 2, tam, x, y, preenchimento), 0);
    assert(janela(n, 0, tam, x, y, inv) == complemento(janela(img, 0, tam, x, y, preenchimento)));
    assert(janela(n, 1, tam, x, y, inv) == complemento(janela(img, 1, tam, x, y, preenchimento)));
    assert(janela(n, 2, tam, x, y, inv) == complemento(janela(img, 2, tam, x, y, preenchimento)));
}

/// Lei: a imagem do filtro do máximo é a do filtro do mínimo aplicado à
/// imagem de cores invertidas, com o preenchimento invertido também, e depois
/// invertida de volta: `max(img, p) = inv(min(inv(img), 255 - p))`.
pub proof fn lei_filtro_max_por_min(
    img: image::DynamicImage,
    n: image::DynamicImage,
    tam: u8,
    preenchimento: u8,
    rmax: Seq<(image::DynamicImage, String)>,
    rmin: Seq<(image::DynamicImage, String)>,
)
    requires
        cores_invertidas(img, n),
        resultado_filtro(img, tam, preenchimento, Selecao::Maximo, rmax),
        resultado_filtro(n, tam, (255 - preenchimento) as u8, Selecao::Minimo, rmin),
    ensures
        dimensoes_dinamica(rmax[0].0) == dimensoes_dinamica(rmin[0].0),
        pixels_dinamica(rmax[0].0) == inverte_cores(pixels_dinamica(rmin[0].0)),
{
    let d = dimensoes_dinamica(img);
    let a = pixels_dinamica(rmax[0].0);
    let b = pixels_dinamica(rmin[0].0);
    assert forall|x: int, y: int| 0 <= x < d.0 && 0 <= y < d.1 implies #[trigger] a[y][x] == inverte_cores(
        b,
    )[y][x] by {
        let xu = x as u32;
        let yu = y as u32;
        lei_maximo_por_minimo(img, n, tam, preenchimento, xu, yu);
        assert(xu as int == x && yu as int == y);
    }
    assert(a =~~= inverte_cores(b));
}

/// Lei: a janela de tamanho `tam` do pixel `(x, y)` tem `(2o + 1)^2`
/// elementos, `o = tam / 2`, e o elemento `i * (2o + 1) + j` vem do vizinho
/// `(x + j - o, y + i - o)`: é `preenchimento` quando esse vizinho cai fora
/// de `[0, largura) x [0, altura)`, de qualquer lado, e o canal `c` do pixel
/// vizinho quando cai dentro.
pub proof fn lei_janela_preenchimento(
    img: image::DynamicImage,
    c: int,
    tam: u8,
    x: u32,
    y: u32,
    preenchimento: u8,
    i: int,
    j: int,
)
    requires
        0 <= i < 2 * (tam / 2) + 1,
        0 <= j < 2 * (tam / 2) + 1,
    ensures
        ({
            let o = (tam / 2) as int;
            let d = dimensoes_dinamica(img);
            let nx = x + j - o;
            let ny = y + i - o;
            let e = janela(img, c, tam, x, y, preenchimento)[i * (2 * o + 1) + j];
            &&& janela(img, c, tam, x, y, preenchimento).len() == (2 * o + 1) * (2 * o + 1)
            &&& (nx < 0 || ny < 0 || nx >= d.0 || ny >= d.1) ==> e == preenchimento
            &&& (0 <= nx < d.0 && 0 <= ny < d.1) ==> e == canal(pixels_dinamica(img)[ny][nx], c)
        }),
{
    let o = (tam / 2) as int;
    lemma_vizinhos_ate_tamanho(o, x as int, y as int, 2 * o + 1);
    lemma_vizinhos_ate_indice(o, x as int, y as int, 2 * o + 1, i, j);
    assert(i * (2 * o + 1) + j < (2 * o + 1) * (2 * o + 1)) by (nonlinear_arith)
        requires
            0 <= i < 2 * o + 1,
            0 <= j < 2 * o + 1,
    ;
    let q = vizinhos(tam, x, y)[i * (2 * o + 1) + j];
    assert(q.0 as int == x + j - o && q.1 as int == y + i - o);
}

/// Lei: cada canal do pixel de saída dos filtros de ordem é um elemento da
/// janela ordenada de forma crescente (o que o filtro faz com `sort`): o do
/// meio (`n / 2`) na mediana, o primeiro no mínimo e o último no máximo.
pub proof fn lei_filtro_pela_janela_ordenada(
    img: image::DynamicImage,
    tam: u8,
    preenchimento: u8,
    x: u32,
    y: u32,
    c: int,
)
    requires
        0 <= c < 3,
    ensures
        ({
            let j = janela(img, c, tam, x, y, preenchimento);
            let t = j.sort_by(|a: u8, b: u8| menor_ou_igual(a, b));
            let n = j.len() as int;
            let md = pixel_por_ordem(img, tam, preenchimento, Selecao::Mediana, x, y);
            let mn = pixel_por_ordem(img, tam, preenchimento, Selecao::Minimo, x, y);
            let mx = pixel_por_ordem(img, tam, preenchimento, Selecao::Maximo, x, y);
            &&& n >= 1
            &&& (if c == 0 { md.0 } else if c == 1 { md.1 } else { md.2 }) == t[n / 2]
            &&& (if c == 0 { mn.0 } else if c == 1 { mn.1 } else { mn.2 }) == t[0]
            &&& (if c == 0 { mx.0 } else if c == 1 { mx.1 } else { mx.2 }) == t[n - 1]
        }),
{
    lemma_janela_tamanho(img, c, tam, x, y, preenchimento);
    let j = janela(img, c, tam, x, y, preenchimento);
    let n = j.len() as int;
    lei_ordem_e_ordenacao(j, 0);
    lei_ordem_e_ordenacao(j, n / 2);
    lei_ordem_e_ordenacao(j, n - 1);
}

} // verus!

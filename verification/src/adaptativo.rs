//! Filtro adaptativo da mediana.
use vstd::prelude::*;
use crate::estatistica::{
    elemento_de_ordem, lei_ordem_e_ordenacao, lei_ordem_pertence, maximo, mediana, menor_ou_igual, minimo,
};
use crate::imagem::{
    lemma_com_pixel,
    bem_formada, cinza_como_rgba, cinza_para_dinamica, dimensoes, dimensoes_cinza, dimensoes_dinamica,
    dimensoes_imagem_cinza, e_rgb8, luma8_de, nova_cinza, para_cinza,
    pixel_cinza, pixels_cinza, pixels_dinamica, plano, poe_pixel_cinza,
    uniforme, variante_luma8, variante_rgb8, ImagemCinza,
};
use crate::canais::{canais_rgb, juntar_canais};
use crate::limites::{cabe_em_rgb, imagem_cabe_em_rgb};
use crate::texto::{decimal, escrita_decimal};
use crate::vizinhanca::{janela_interna, lemma_linhas_janela_tamanho, linhas_janela};

verus! {

/// O mínimo da janela é menor que a mediana, e a mediana menor que o máximo.
pub open spec fn mediana_estrita(s: Seq<u8>) -> bool {
    minimo(s) < mediana(s) && mediana(s) < maximo(s)
}

/// O nível que o filtro adaptativo da mediana dá ao pixel `(x, y)` de `g`
/// (imagem de `largura` por `altura`), examinando janelas de tamanho `k`,
/// `k + 2`, ... até no máximo `max_kernel`. Cada janela é o conjunto dos
/// pixels a distância de Chebyshev até `k / 2`, cortado nas bordas; `z` é o
/// nível do pixel.
/// - Etapa A: se mínimo < mediana < máximo da janela, vai-se à etapa B;
///   senão passa-se à janela seguinte e, não havendo mais, o resultado é a
///   mediana da janela atual.
/// - Etapa B: o resultado é `z` quando mínimo < `z` < máximo, e a mediana
///   nos outros casos.
/// Sem janela alguma (`k > max_kernel`), o resultado é `z`.
pub open spec fn nivel_adaptativo(
    g: Seq<Seq<u8>>,
    largura: int,
    altura: int,
    x: int,
    y: int,
    k: int,
    max_kernel: int,
) -> u8
    decreases max_kernel - k,
{
    let z = g[y][x];
    if k > max_kernel {
        z
    } else {
        let s = janela_interna(g, largura, altura, x, y, k / 2);
        if mediana_estrita(s) {
            if minimo(s) < z && z < maximo(s) {
                z
            } else {
                mediana(s)
            }
        } else if k + 2 > max_kernel {
            mediana(s)
        } else {
            nivel_adaptativo(g, largura, altura, x, y, k + 2, max_kernel)
        }
    }
}

/// O filtro calcula em `i32`: para cada janela que examina, a largura e a
/// altura da imagem, `x + k / 2` e `y + k / 2` cabem em `i32`, e o tamanho
/// seguinte `k + 2`, quando a etapa A manda calculá-lo, também.
pub open spec fn sem_transbordo(
    g: Seq<Seq<u8>>,
    largura: int,
    altura: int,
    x: int,
    y: int,
    k: int,
    max_kernel: int,
) -> bool
    decreases max_kernel - k,
{
    if k > max_kernel {
        true
    } else if largura > i32::MAX || altura > i32::MAX || x + k / 2 > i32::MAX || y + k / 2 > i32::MAX {
        false
    } else if mediana_estrita(janela_interna(g, largura, altura, x, y, k / 2)) {
        true
    } else if k > i32::MAX - 2 {
        false
    } else if k + 2 > max_kernel {
        true
    } else {
        sem_transbordo(g, largura, altura, x, y, k + 2, max_kernel)
    }
}

/// Todos os pixels do canal `g` (de `largura` por `altura`) são filtrados sem
/// transbordar `i32`.
pub open spec fn canal_sem_transbordo(g: Seq<Seq<u8>>, largura: u32, altura: u32, max_kernel: i32) -> bool {
    forall|x: int, y: int|
        0 <= x < largura && 0 <= y < altura ==> #[trigger] sem_transbordo(
            g,
            largura as int,
            altura as int,
            x,
            y,
            3,
            max_kernel as int,
        )
}

/// `f` é o canal `g` (de `largura` por `altura`) filtrado: tem a mesma forma,
/// e cada pixel recebe `nivel_adaptativo`, a partir de janelas de tamanho 3.
pub open spec fn canal_filtrado(g: Seq<Seq<u8>>, largura: u32, altura: u32, max_kernel: i32, f: Seq<Seq<u8>>) -> bool {
    &&& bem_formada(f, largura, altura)
    &&& forall|x: int, y: int|
        0 <= x < largura && 0 <= y < altura ==> #[trigger] f[y][x] == nivel_adaptativo(
            g,
            largura as int,
            altura as int,
            x,
            y,
            3,
            max_kernel as int,
        )
}

/// Os níveis da janela interna de raio `r` do pixel `(x, y)`.
fn janela_do_pixel(gray: &ImagemCinza, largura: u32, altura: u32, x: u32, y: u32, r: i64) -> (s: Vec<
    u8,
>)
    requires
        dimensoes_cinza(*gray) == (largura, altura),
        bem_formada(pixels_cinza(*gray), largura, altura),
        x < largura,
        y < altura,
        0 <= r <= i32::MAX,
    ensures
        s@ == janela_interna(pixels_cinza(*gray), largura as int, altura as int, x as int, y as int, r as int),
        s@.len() >= 1,
{
    let ghost g = pixels_cinza(*gray);
    let xi = x as i64;
    let yi = y as i64;
    let x0: i64 = if xi - r < 0 { 0 } else { xi - r };
    let x1: i64 = if xi + r > largura as i64 - 1 { largura as i64 - 1 } else { xi + r };
    let y0: i64 = if yi - r < 0 { 0 } else { yi - r };
    let y1: i64 = if yi + r > altura as i64 - 1 { altura as i64 - 1 } else { yi + r };
    let mut s: Vec<u8> = Vec::new();
    let mut ny: i64 = y0;
    while ny <= y1
        invariant
            g == pixels_cinza(*gray),
            dimensoes_cinza(*gray) == (largura, altura),
            bem_formada(g, largura, altura),
            0 <= x0 <= x1 < largura,
            0 <= y0 <= ny <= y1 + 1,
            y1 < altura,
            s@ == linhas_janela(g, x0 as int, x1 as int, y0 as int, ny as int),
        decreases y1 + 1 - ny,
    {
        let mut nx: i64 = x0;
        while nx <= x1
            invariant
                g == pixels_cinza(*gray),
                dimensoes_cinza(*gray) == (largura, altura),
                bem_formada(g, largura, altura),
                0 <= x0 <= nx <= x1 + 1,
                x1 < largura,
                0 <= y0 <= ny <= y1,
                y1 < altura,
                s@ == linhas_janela(g, x0 as int, x1 as int, y0 as int, ny as int) + g[ny as int].subrange(
                    x0 as int,
                    nx as int,
                ),
            decreases x1 + 1 - nx,
        {
            let v = pixel_cinza(gray, nx as u32, ny as u32);
            proof {
                let base = linhas_janela(g, x0 as int, x1 as int, y0 as int, ny as int);
                assert(g[ny as int].subrange(x0 as int, nx + 1) =~= g[ny as int].subrange(
                    x0 as int,
                    nx as int,
                ).push(v));
                assert(base + g[ny as int].subrange(x0 as int, nx + 1) =~= (base + g[ny as int].subrange(
                    x0 as int,
                    nx as int,
                )).push(v));
            }
            s.push(v);
            nx = nx + 1;
        }
        ny = ny + 1;
    }
    proof {
        lemma_linhas_janela_tamanho(g, x0 as int, x1 as int, y0 as int, y1 + 1);
        assert((y1 + 1 - y0) * (x1 + 1 - x0) >= 1) by (nonlinear_arith)
            requires
                y1 + 1 - y0 >= 1,
                x1 + 1 - x0 >= 1,
        ;
    }
    s
}

/// O nível que o filtro adaptativo dá a um pixel; `None` quando as contas
/// em `i32` transbordariam.
fn nivel_do_pixel(gray: &ImagemCinza, largura: u32, altura: u32, x: u32, y: u32, max_kernel: i32) -> (v: Option<u8>)
    requires
        dimensoes_cinza(*gray) == (largura, altura),
        bem_formada(pixels_cinza(*gray), largura, altura),
        x < largura,
        y < altura,
    ensures
        v is Some <==> sem_transbordo(
            pixels_cinza(*gray),
            largura as int,
            altura as int,
            x as int,
            y as int,
            3,
            max_kernel as int,
        ),
        v matches Some(n) ==> n == nivel_adaptativo(
            pixels_cinza(*gray),
            largura as int,
            altura as int,
            x as int,
            y as int,
            3,
            max_kernel as int,
        ),
{
    let ghost g = pixels_cinza(*gray);
    let ghost w = largura as int;
    let ghost h = altura as int;
    let z = pixel_cinza(gray, x, y);
    let mk = max_kernel as i64;
    let mut k: i64 = 3;
    while k <= mk
        invariant
            g == pixels_cinza(*gray),
            w == largura,
            h == altura,
            dimensoes_cinza(*gray) == (largura, altura),
            bem_formada(g, largura, altura),
            x < largura,
            y < altura,
            z == g[y as int][x as int],
            mk == max_kernel,
            3 <= k,
            k == 3 || k <= mk,
            nivel_adaptativo(g, w, h, x as int, y as int, 3, mk as int) == nivel_adaptativo(
                g,
                w,
                h,
                x as int,
                y as int,
                k as int,
                mk as int,
            ),
            sem_transbordo(g, w, h, x as int, y as int, 3, mk as int) == sem_transbordo(
                g,
                w,
                h,
                x as int,
                y as int,
                k as int,
                mk as int,
            ),
        decreases mk - k,
    {
        if largura > 0x7fff_ffff || altura > 0x7fff_ffff || x as i64 + k / 2 > 0x7fff_ffff || y as i64
            + k / 2 > 0x7fff_ffff {
            return None;
        }
        let s = janela_do_pixel(gray, largura, altura, x, y, k / 2);
        let n = s.len();
        let mn = elemento_de_ordem(&s, 0);
        let mx = elemento_de_ordem(&s, n - 1);
        let md = elemento_de_ordem(&s, n / 2);
        if mn < md && md < mx {
            if mn < z && z < mx {
                return Some(z);
            } else {
                return Some(md);
            }
        } else if k > 0x7fff_fffd {
            return None;
        } else if k + 2 > mk {
            return Some(md);
        }
        k = k + 2;
    }
    Some(z)
}

/// Filtro adaptativo da mediana num canal, quando as contas em `i32` não
/// transbordam (`canal_sem_transbordo`); `None` quando transbordariam.
pub fn tentar_adaptativo_mediana_canal(gray: &ImagemCinza, max_kernel: i32) -> (r: Option<ImagemCinza>)
    ensures
        r is Some <==> canal_sem_transbordo(
            pixels_cinza(*gray),
            dimensoes_cinza(*gray).0,
            dimensoes_cinza(*gray).1,
            max_kernel,
        ),
        r matches Some(f) ==> {
            &&& dimensoes_cinza(f) == dimensoes_cinza(*gray)
            &&& canal_filtrado(
                pixels_cinza(*gray),
                dimensoes_cinza(*gray).0,
                dimensoes_cinza(*gray).1,
                max_kernel,
                pixels_cinza(f),
            )
        },
{
    let (largura, altura) = dimensoes_imagem_cinza(gray);
    let ghost g = pixels_cinza(*gray);
    let ghost w = largura as int;
    let ghost h = altura as int;
    let ghost mk = max_kernel as int;
    let mut saida = nova_cinza(largura, altura);
    let mut y: u32 = 0;
    while y < altura
        invariant
            g == pixels_cinza(*gray),
            w == largura,
            h == altura,
            mk == max_kernel,
            (largura, altura) == dimensoes_cinza(*gray),
            bem_formada(g, largura, altura),
            y <= altura,
            dimensoes_cinza(saida) == (largura, altura),
            bem_formada(pixels_cinza(saida), largura, altura),
            forall|xx: int, yy: int|
                0 <= yy < y && 0 <= xx < largura ==> #[trigger] sem_transbordo(g, w, h, xx, yy, 3, mk),
            forall|xx: int, yy: int|
                0 <= yy < y && 0 <= xx < largura ==> #[trigger] pixels_cinza(saida)[yy][xx]
                    == nivel_adaptativo(g, w, h, xx, yy, 3, mk),
        decreases altura - y,
    {
        let mut x: u32 = 0;
        while x < largura
            invariant
                g == pixels_cinza(*gray),
                w == largura,
                h == altura,
                mk == max_kernel,
                (largura, altura) == dimensoes_cinza(*gray),
                bem_formada(g, largura, altura),
                y < altura,
                x <= largura,
                dimensoes_cinza(saida) == (largura, altura),
                bem_formada(pixels_cinza(saida), largura, altura),
                forall|xx: int, yy: int|
                    (0 <= yy < y && 0 <= xx < largura) || (yy == y && 0 <= xx < x)
                        ==> #[trigger] sem_transbordo(g, w, h, xx, yy, 3, mk),
                forall|xx: int, yy: int|
                    (0 <= yy < y && 0 <= xx < largura) || (yy == y && 0 <= xx < x)
                        ==> #[trigger] pixels_cinza(saida)[yy][xx] == nivel_adaptativo(
                        g,
                        w,
                        h,
                        xx,
                        yy,
                        3,
                        mk,
                    ),
            decreases largura - x,
        {
            let v = match nivel_do_pixel(gray, largura, altura, x, y, max_kernel) {
                Some(v) => v,
                None => {
                    return None;
                },
            };
            let ghost antes = pixels_cinza(saida);
            proof {
                lemma_com_pixel(pixels_cinza(saida), largura, altura, x as int, y as int, v);
            }
            poe_pixel_cinza(&mut saida, x, y, v);
            proof {
                assert forall|xx: int, yy: int|
                    (0 <= yy < y && 0 <= xx < largura) || (yy == y && 0 <= xx < x + 1) implies #[trigger] pixels_cinza(
                        saida,
                    )[yy][xx] == nivel_adaptativo(g, w, h, xx, yy, 3, mk) by {
                    if yy != y || xx != x {
                        assert(pixels_cinza(saida)[yy][xx] == antes[yy][xx]);
                    }
                }
            }
            x = x + 1;
        }
        y = y + 1;
    }
    Some(saida)
}

/// Filtro adaptativo da mediana num canal: cada pixel recebe o nível que
/// `nivel_adaptativo` define, começando com janelas de tamanho 3 e crescendo
/// de 2 em 2 até `max_kernel`. As contas de coordenadas são em `i32`, e a
/// pré-condição diz que não transbordam.
pub fn aplicar_adaptativo_mediana_canal(gray: &ImagemCinza, max_kernel: i32) -> (r: ImagemCinza)
    requires
        canal_sem_transbordo(pixels_cinza(*gray), dimensoes_cinza(*gray).0, dimensoes_cinza(*gray).1, max_kernel),
    ensures
        dimensoes_cinza(r) == dimensoes_cinza(*gray),
        canal_filtrado(
            pixels_cinza(*gray),
            dimensoes_cinza(*gray).0,
            dimensoes_cinza(*gray).1,
            max_kernel,
            pixels_cinza(r),
        ),
{
    let r = tentar_adaptativo_mediana_canal(gray, max_kernel);
    r.unwrap()
}

/// O maior tamanho de janela que o filtro usa para o parâmetro `kernel`:
/// ao menos 3, convertido para `i32` (valores acima de `i32::MAX` dão
/// negativos e nenhuma janela).
pub open spec fn max_kernel_de(kernel: u32) -> i32 {
    (if kernel < 3 {
        3u32
    } else {
        kernel
    }) as i32
}

/// O pixel de saída do filtro adaptativo da mediana: numa imagem RGB de 8
/// bits, cada canal filtrado à parte; em qualquer outra variante, a imagem em
/// tons de cinza (`to_luma8`) filtrada, com o nível repetido nos três canais.
pub open spec fn pixel_adaptativo(img: image::DynamicImage, max_kernel: i32, x: int, y: int) -> (u8, u8, u8, u8) {
    let d = dimensoes_dinamica(img);
    let fonte = pixels_dinamica(img);
    if variante_rgb8(img) {
        (
            nivel_adaptativo(plano(fonte, 0), d.0 as int, d.1 as int, x, y, 3, max_kernel as int),
            nivel_adaptativo(plano(fonte, 1), d.0 as int, d.1 as int, x, y, 3, max_kernel as int),
            nivel_adaptativo(plano(fonte, 2), d.0 as int, d.1 as int, x, y, 3, max_kernel as int),
            255u8,
        )
    } else {
        let l = nivel_adaptativo(luma8_de(img), d.0 as int, d.1 as int, x, y, 3, max_kernel as int);
        (l, l, l, 255u8)
    }
}

/// O filtro adaptativo de `img` não transborda `i32`: numa imagem RGB de 8
/// bits, em nenhum dos três canais (e a saída RGB cabe na memória
/// endereçável); em qualquer outra, na imagem em tons de cinza.
pub open spec fn adaptativo_sem_transbordo(img: image::DynamicImage, kernel: u32) -> bool {
    let d = dimensoes_dinamica(img);
    let fonte = pixels_dinamica(img);
    let mk = max_kernel_de(kernel);
    if variante_rgb8(img) {
        &&& cabe_em_rgb(d)
        &&& canal_sem_transbordo(plano(fonte, 0), d.0, d.1, mk)
        &&& canal_sem_transbordo(plano(fonte, 1), d.0, d.1, mk)
        &&& canal_sem_transbordo(plano(fonte, 2), d.0, d.1, mk)
    } else {
        canal_sem_transbordo(luma8_de(img), d.0, d.1, mk)
    }
}

/// O que o filtro adaptativo da mediana devolve: uma só imagem, das
/// dimensões de `img`, com `pixel_adaptativo` em cada pixel, chamada
/// "Filtro Adaptativo Mediana (Max S=<janela máxima>)". Uma entrada RGB de 8
/// bits dá uma saída RGB de 8 bits; qualquer outra dá uma saída em tons de
/// cinza de 8 bits, cujos níveis são o canal filtrado.
pub open spec fn resultado_adaptativo(img: image::DynamicImage, kernel: u32, r: Seq<(image::DynamicImage, String)>) -> bool {
    let d = dimensoes_dinamica(img);
    &&& r.len() == 1
    &&& r[0].1@ == "Filtro Adaptativo Mediana (Max S="@ + decimal(max_kernel_de(kernel) as int) + ")"@
    &&& dimensoes_dinamica(r[0].0) == d
    &&& variante_rgb8(r[0].0) == variante_rgb8(img)
    &&& !variante_rgb8(img) ==> variante_luma8(r[0].0)
    &&& !variante_rgb8(img) ==> canal_filtrado(luma8_de(img), d.0, d.1, max_kernel_de(kernel), luma8_de(r[0].0))
    &&& bem_formada(pixels_dinamica(r[0].0), d.0, d.1)
    &&& forall|x: int, y: int|
        0 <= x < d.0 && 0 <= y < d.1 ==> #[trigger] pixels_dinamica(r[0].0)[y][x] == pixel_adaptativo(
            img,
            max_kernel_de(kernel),
            x,
            y,
        )
}

/// Filtro adaptativo da mediana com janela máxima `max(kernel, 3)`, quando as
/// contas em `i32` não transbordam e, numa imagem RGB, a saída RGB cabe na
/// memória endereçável; `None` quando não. Uma imagem RGB de 8 bits é
/// filtrada canal a canal e sai RGB; qualquer outra é convertida para tons de
/// cinza e sai em tons de cinza.
pub fn tentar_filtro_adaptativo_mediana(img: image::DynamicImage, kernel: u32) -> (r: Option<
    Vec<(image::DynamicImage, String)>,
>)
    ensures
        r is Some <==> adaptativo_sem_transbordo(img, kernel),
        r matches Some(v) ==> resultado_adaptativo(img, kernel, v@),
{
    let (largura, altura) = dimensoes(&img);
    let k32: u32 = if kernel < 3 {
        3
    } else {
        kernel
    };
    let max_kernel = k32 as i32;
    let saida = if e_rgb8(&img) {
        if !imagem_cabe_em_rgb(&img) {
            return None;
        }
        let (cr, cg, cb) = canais_rgb(&img);
        let fr = match tentar_adaptativo_mediana_canal(&cr, max_kernel) {
            Some(f) => f,
            None => {
                return None;
            },
        };
        let fg = match tentar_adaptativo_mediana_canal(&cg, max_kernel) {
            Some(f) => f,
            None => {
                return None;
            },
        };
        let fb = match tentar_adaptativo_mediana_canal(&cb, max_kernel) {
            Some(f) => f,
            None => {
                return None;
            },
        };
        let s = juntar_canais(&fr, &fg, &fb);
        proof {
            assert forall|x: int, y: int|
                0 <= x < largura && 0 <= y < altura implies #[trigger] pixels_dinamica(s)[y][x]
                    == pixel_adaptativo(img, max_kernel, x, y) by {
                assert(pixels_cinza(fr)[y][x] == nivel_adaptativo(
                    plano(pixels_dinamica(img), 0),
                    largura as int,
                    altura as int,
                    x,
                    y,
                    3,
                    max_kernel as int,
                ));
                assert(pixels_cinza(fg)[y][x] == nivel_adaptativo(
                    plano(pixels_dinamica(img), 1),
                    largura as int,
                    altura as int,
                    x,
                    y,
                    3,
                    max_kernel as int,
                ));
                assert(pixels_cinza(fb)[y][x] == nivel_adaptativo(
                    plano(pixels_dinamica(img), 2),
                    largura as int,
                    altura as int,
                    x,
                    y,
                    3,
                    max_kernel as int,
                ));
            }
        }
        s
    } else {
        let g = para_cinza(&img);
        let f = match tentar_adaptativo_mediana_canal(&g, max_kernel) {
            Some(f) => f,
            None => {
                return None;
            },
        };
        let ghost nf = pixels_cinza(f);
        let s = cinza_para_dinamica(f);
        proof {
            assert forall|x: int, y: int|
                0 <= x < largura && 0 <= y < altura implies #[trigger] pixels_dinamica(s)[y][x]
                    == pixel_adaptativo(img, max_kernel, x, y) by {
                assert(nf[y][x] == nivel_adaptativo(
                    luma8_de(img),
                    largura as int,
                    altura as int,
                    x,
                    y,
                    3,
                    max_kernel as int,
                ));
            }
        }
        s
    };
    let valor = escrita_decimal(max_kernel);
    let mut nome = String::from_str("Filtro Adaptativo Mediana (Max S=");
    nome.append(valor.as_str());
    nome.append(")");
    let mut v: Vec<(image::DynamicImage, String)> = Vec::new();
    v.push((saida, nome));
    Some(v)
}

/// Filtro adaptativo da mediana com janela máxima `max(kernel, 3)`. Uma
/// imagem RGB de 8 bits é filtrada canal a canal e sai RGB; qualquer outra é
/// convertida para tons de cinza e sai em tons de cinza. O resultado se chama
/// "Filtro Adaptativo Mediana (Max S=<janela máxima>)". A pré-condição diz
/// que as contas em `i32` não transbordam.
pub fn filtro_adaptativo_mediana(img: image::DynamicImage, kernel: u32) -> (r: Vec<(image::DynamicImage, String)>)
    requires
        adaptativo_sem_transbordo(img, kernel),
    ensures
        resultado_adaptativo(img, kernel, r@),
{
    let r = tentar_filtro_adaptativo_mediana(img, kernel);
    r.unwrap()
}

// ---------------------------------------------------------------------------
// Leis
// ---------------------------------------------------------------------------

/// `g[yy][xx]` para algum pixel dentro de `largura` por `altura`.
pub open spec fn nivel_presente(g: Seq<Seq<u8>>, largura: int, altura: int, v: u8) -> bool {
    exists|xx: int, yy: int| 0 <= xx < largura && 0 <= yy < altura && #[trigger] g[yy][xx] == v
}

/// Cada elemento de uma janela é o nível de algum pixel dela.
proof fn lemma_linhas_janela_elementos(
    g: Seq<Seq<u8>>,
    largura: int,
    altura: int,
    x0: int,
    x1: int,
    y0: int,
    fim: int,
    i: int,
)
    requires
        bem_formada(g, largura as u32, altura as u32),
        0 <= largura <= u32::MAX,
        0 <= altura <= u32::MAX,
        0 <= x0 <= x1 < largura,
        0 <= y0,
        fim <= altura,
        0 <= i < linhas_janela(g, x0, x1, y0, fim).len(),
    ensures
        nivel_presente(g, largura, altura, linhas_janela(g, x0, x1, y0, fim)[i]),
    decreases fim - y0,
{
    lemma_linhas_janela_tamanho(g, x0, x1, y0, fim - 1);
    let antes = linhas_janela(g, x0, x1, y0, fim - 1);
    let linha = g[fim - 1].subrange(x0, x1 + 1);
    if i < antes.len() {
        lemma_linhas_janela_elementos(g, largura, altura, x0, x1, y0, fim - 1, i);
    } else {
        let xx = x0 + (i - antes.len());
        assert(linhas_janela(g, x0, x1, y0, fim)[i] == g[fim - 1][xx]);
    }
}

/// Lei: o filtro adaptativo da mediana nunca cria um nível novo: o resultado
/// em cada pixel é o nível de algum pixel da imagem de entrada.
pub proof fn lei_adaptativo_nivel_existente(
    g: Seq<Seq<u8>>,
    largura: u32,
    altura: u32,
    x: int,
    y: int,
    k: int,
    max_kernel: int,
)
    requires
        bem_formada(g, largura, altura),
        0 <= x < largura,
        0 <= y < altura,
        k >= 0,
    ensures
        nivel_presente(g, largura as int, altura as int, nivel_adaptativo(g, largura as int, altura as int, x, y, k, max_kernel)),
    decreases max_kernel - k,
{
    assert(nivel_presente(g, largura as int, altura as int, g[y][x]));
    if k <= max_kernel {
        let r = k / 2;
        let s = janela_interna(g, largura as int, altura as int, x, y, r);
        let x0 = if x - r < 0 { 0 } else { x - r };
        let x1 = if x + r > largura - 1 { largura - 1 } else { x + r };
        let y0 = if y - r < 0 { 0 } else { y - r };
        let y1 = if y + r > altura - 1 { altura - 1 } else { y + r };
        lemma_linhas_janela_tamanho(g, x0, x1, y0, y1 + 1);
        assert((y1 + 1 - y0) * (x1 + 1 - x0) >= 1) by (nonlinear_arith)
            requires
                y1 + 1 - y0 >= 1,
                x1 + 1 - x0 >= 1,
        ;
        let md = mediana(s);
        lei_ordem_pertence(s, (s.len() / 2) as int);
        let i = choose|i: int| 0 <= i < s.len() && s[i] == md;
        lemma_linhas_janela_elementos(g, largura as int, altura as int, x0, x1, y0, y1 + 1, i);
        if k + 2 <= max_kernel {
            lei_adaptativo_nivel_existente(g, largura, altura, x, y, k + 2, max_kernel);
        }
    }
}

/// Lei: sem janela alguma (`max_kernel < 3`) o filtro adaptativo deixa cada
/// pixel como está.
pub proof fn lei_adaptativo_sem_janela(g: Seq<Seq<u8>>, largura: int, altura: int, x: int, y: int, max_kernel: int)
    requires
        max_kernel < 3,
    ensures
        nivel_adaptativo(g, largura, altura, x, y, 3, max_kernel) == g[y][x],
{
}

/// Lei: numa imagem RGB de 8 bits, cada canal de cor da saída do filtro
/// adaptativo é exatamente o filtro adaptativo de um canal aplicado ao canal
/// correspondente da entrada, com a mesma janela máxima; a saída é RGB de 8
/// bits e tem alfa 255 em todo pixel.
pub proof fn lei_adaptativo_rgb_por_canal(
    img: image::DynamicImage,
    kernel: u32,
    r: Seq<(image::DynamicImage, String)>,
    fr: ImagemCinza,
    fg: ImagemCinza,
    fb: ImagemCinza,
)
    requires
        variante_rgb8(img),
        resultado_adaptativo(img, kernel, r),
        canal_filtrado(
            plano(pixels_dinamica(img), 0),
            dimensoes_dinamica(img).0,
            dimensoes_dinamica(img).1,
            max_kernel_de(kernel),
            pixels_cinza(fr),
        ),
        canal_filtrado(
            plano(pixels_dinamica(img), 1),
            dimensoes_dinamica(img).0,
            dimensoes_dinamica(img).1,
            max_kernel_de(kernel),
            pixels_cinza(fg),
        ),
        canal_filtrado(
            plano(pixels_dinamica(img), 2),
            dimensoes_dinamica(img).0,
            dimensoes_dinamica(img).1,
            max_kernel_de(kernel),
            pixels_cinza(fb),
        ),
    ensures
        variante_rgb8(r[0].0),
        dimensoes_dinamica(r[0].0) == dimensoes_dinamica(img),
        plano(pixels_dinamica(r[0].0), 0) == pixels_cinza(fr),
        plano(pixels_dinamica(r[0].0), 1) == pixels_cinza(fg),
        plano(pixels_dinamica(r[0].0), 2) == pixels_cinza(fb),
        plano(pixels_dinamica(r[0].0), 3) == uniforme(
            dimensoes_dinamica(img).0,
            dimensoes_dinamica(img).1,
            255u8,
        ),
{
    let d = dimensoes_dinamica(img);
    let saida = pixels_dinamica(r[0].0);
    assert forall|x: int, y: int| 0 <= x < d.0 && 0 <= y < d.1 implies {
        &&& #[trigger] plano(saida, 0)[y][x] == pixels_cinza(fr)[y][x]
        &&& plano(saida, 1)[y][x] == pixels_cinza(fg)[y][x]
        &&& plano(saida, 2)[y][x] == pixels_cinza(fb)[y][x]
        &&& plano(saida, 3)[y][x] == 255u8
    } by {
        assert(saida[y][x] == pixel_adaptativo(img, max_kernel_de(kernel), x, y));
        assert(pixels_cinza(fr)[y][x] == nivel_adaptativo(
            plano(pixels_dinamica(img), 0),
            d.0 as int,
            d.1 as int,
            x,
            y,
            3,
            max_kernel_de(kernel) as int,
        ));
        assert(pixels_cinza(fg)[y][x] == nivel_adaptativo(
            plano(pixels_dinamica(img), 1),
            d.0 as int,
            d.1 as int,
            x,
            y,
            3,
            max_kernel_de(kernel) as int,
        ));
        assert(pixels_cinza(fb)[y][x] == nivel_adaptativo(
            plano(pixels_dinamica(img), 2),
            d.0 as int,
            d.1 as int,
            x,
            y,
            3,
            max_kernel_de(kernel) as int,
        ));
    }
    assert(plano(saida, 0) =~~= pixels_cinza(fr));
    assert(plano(saida, 1) =~~= pixels_cinza(fg));
    assert(plano(saida, 2) =~~= pixels_cinza(fb));
    assert(plano(saida, 3) =~~= uniforme(d.0, d.1, 255u8));
}

/// Lei: numa imagem que não é RGB de 8 bits, a saída do filtro adaptativo é
/// a imagem em tons de cinza de 8 bits (`ImageLuma8`) cujos níveis são o
/// filtro adaptativo de um canal aplicado a `to_luma8` da entrada: lida por
/// `get_pixel`, o nível repetido nos três canais com alfa 255, e lida por
/// `to_luma8`, os próprios níveis.
pub proof fn lei_adaptativo_cinza(
    img: image::DynamicImage,
    kernel: u32,
    r: Seq<(image::DynamicImage, String)>,
    f: ImagemCinza,
)
    requires
        !variante_rgb8(img),
        resultado_adaptativo(img, kernel, r),
        canal_filtrado(
            luma8_de(img),
            dimensoes_dinamica(img).0,
            dimensoes_dinamica(img).1,
            max_kernel_de(kernel),
            pixels_cinza(f),
        ),
    ensures
        variante_luma8(r[0].0),
        dimensoes_dinamica(r[0].0) == dimensoes_dinamica(img),
        pixels_dinamica(r[0].0) == cinza_como_rgba(pixels_cinza(f)),
        luma8_de(r[0].0) == pixels_cinza(f),
{
    let d = dimensoes_dinamica(img);
    let saida = pixels_dinamica(r[0].0);
    let nf = pixels_cinza(f);
    let lf = luma8_de(r[0].0);
    assert forall|x: int, y: int| 0 <= x < d.0 && 0 <= y < d.1 implies {
        &&& #[trigger] saida[y][x] == cinza_como_rgba(nf)[y][x]
        &&& lf[y][x] == nf[y][x]
    } by {
        assert(saida[y][x] == pixel_adaptativo(img, max_kernel_de(kernel), x, y));
        assert(nf[y][x] == nivel_adaptativo(
            luma8_de(img),
            d.0 as int,
            d.1 as int,
            x,
            y,
            3,
            max_kernel_de(kernel) as int,
        ));
        assert(lf[y][x] == nivel_adaptativo(
            luma8_de(img),
            d.0 as int,
            d.1 as int,
            x,
            y,
            3,
            max_kernel_de(kernel) as int,
        ));
    }
    assert(saida =~~= cinza_como_rgba(nf));
    assert(lf =~~= nf);
}

/// Lei: o passo do filtro adaptativo numa janela, dito pela janela ordenada
/// `t` (o que o filtro faz com `sort`): com `z` o nível do pixel, se
/// `t[0] < t[n / 2] < t[n - 1]` o resultado é `z` quando `t[0] < z < t[n - 1]`
/// e a mediana `t[n / 2]` quando não; senão, na última janela, é a mediana, e
/// antes dela é o resultado da janela seguinte. Em particular, quando a
/// mediana é igual ao mínimo ou ao máximo da janela, o pixel só fica com `z`
/// se uma janela maior o mantiver; na última janela sai a mediana.
pub proof fn lei_adaptativo_pela_janela_ordenada(
    g: Seq<Seq<u8>>,
    largura: u32,
    altura: u32,
    x: int,
    y: int,
    k: int,
    max_kernel: int,
)
    requires
        bem_formada(g, largura, altura),
        0 <= x < largura,
        0 <= y < altura,
        0 <= k <= max_kernel,
    ensures
        ({
            let s = janela_interna(g, largura as int, altura as int, x, y, k / 2);
            let t = s.sort_by(|a: u8, b: u8| menor_ou_igual(a, b));
            let n = s.len() as int;
            let z = g[y][x];
            let r = nivel_adaptativo(g, largura as int, altura as int, x, y, k, max_kernel);
            &&& n >= 1
            &&& t[0] < t[n / 2] && t[n / 2] < t[n - 1] ==> r == if t[0] < z && z < t[n - 1] {
                z
            } else {
                t[n / 2]
            }
            &&& !(t[0] < t[n / 2] && t[n / 2] < t[n - 1]) && k + 2 > max_kernel ==> r == t[n / 2]
            &&& !(t[0] < t[n / 2] && t[n / 2] < t[n - 1]) && k + 2 <= max_kernel ==> r == nivel_adaptativo(
                g,
                largura as int,
                altura as int,
                x,
                y,
                k + 2,
                max_kernel,
            )
        }),
{
    let r = k / 2;
    let s = janela_interna(g, largura as int, altura as int, x, y, r);
    let x0 = if x - r < 0 { 0 } else { x - r };
    let x1 = if x + r > largura - 1 { largura - 1 } else { x + r };
    let y0 = if y - r < 0 { 0 } else { y - r };
    let y1 = if y + r > altura - 1 { altura - 1 } else { y + r };
    lemma_linhas_janela_tamanho(g, x0, x1, y0, y1 + 1);
    assert((y1 + 1 - y0) * (x1 + 1 - x0) >= 1) by (nonlinear_arith)
        requires
            y1 + 1 - y0 >= 1,
            x1 + 1 - x0 >= 1,
    ;
    let n = s.len() as int;
    lei_ordem_e_ordenacao(s, 0);
    lei_ordem_e_ordenacao(s, n / 2);
    lei_ordem_e_ordenacao(s, n - 1);
}

} // verus!

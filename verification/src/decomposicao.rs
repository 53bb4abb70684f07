//! Decomposição de uma imagem nos canais RGB e limiarização.
use vstd::prelude::*;
use crate::limites::{cabe_em_rgb, imagem_cabe_em_rgb};
use crate::imagem::{
    lemma_com_pixel,
    bem_formada, canal, dimensoes, dimensoes_cinza, dimensoes_dinamica, dimensoes_imagem_cinza,
    dimensoes_rgb, nova_rgb, pixel, pixel_cinza, pixels_cinza, pixels_dinamica, pixels_rgb,
    poe_pixel_rgb, rgb_para_dinamica, variante_rgb8, ImagemCinza, Rgb, Rgba,
};

verus! {

/// A média simples dos três canais de cor, arredondada para baixo.
pub open spec fn media_simples(p: Rgba) -> u8 {
    ((p.0 as int + p.1 as int + p.2 as int) / 3) as u8
}

/// 255 para os níveis a partir do limiar, 0 para os abaixo.
pub open spec fn binariza(v: u8, limiar: u8) -> u8 {
    if v >= limiar {
        255
    } else {
        0
    }
}

/// O nível `v` binarizado por `limiar`, se houver um; senão o próprio `v`.
pub open spec fn nivel_limiar(v: u8, limiar: Option<u8>) -> u8 {
    match limiar {
        Some(l) => binariza(v, l),
        None => v,
    }
}

/// Como um pixel de entrada vira um pixel de saída RGB.
#[derive(Clone, Copy, PartialEq, Eq, Debug)]
pub enum Transformacao {
    /// O canal `c` (0 = R, 1 = G, 2 = B) repetido nos três canais.
    Canal(u8),
    /// O canal `c` no seu lugar, os outros dois a zero.
    Pseudocor(u8),
    /// A média simples dos canais, repetida nos três canais.
    MediaSimples,
    /// A média simples binarizada pelo limiar dado.
    LimiarMedia(u8),
}

/// O pixel RGB que `t` faz de `p`.
pub open spec fn transforma(t: Transformacao, p: Rgba) -> Rgb {
    match t {
        Transformacao::Canal(c) => (canal(p, c as int), canal(p, c as int), canal(p, c as int)),
        Transformacao::Pseudocor(c) => if c == 0 {
            (p.0, 0u8, 0u8)
        } else if c == 1 {
            (0u8, p.1, 0u8)
        } else {
            (0u8, 0u8, p.2)
        },
        Transformacao::MediaSimples => (media_simples(p), media_simples(p), media_simples(p)),
        Transformacao::LimiarMedia(l) => {
            let b = binariza(media_simples(p), l);
            (b, b, b)
        },
    }
}

fn aplica_transformacao(t: Transformacao, p: Rgba) -> (r: Rgb)
    ensures
        r == transforma(t, p),
{
    match t {
        Transformacao::Canal(c) => {
            let v = if c == 0 {
                p.0
            } else if c == 1 {
                p.1
            } else if c == 2 {
                p.2
            } else {
                p.3
            };
            (v, v, v)
        },
        Transformacao::Pseudocor(c) => if c == 0 {
            (p.0, 0, 0)
        } else if c == 1 {
            (0, p.1, 0)
        } else {
            (0, 0, p.2)
        },
        Transformacao::MediaSimples => {
            let m = ((p.0 as u16 + p.1 as u16 + p.2 as u16) / 3) as u8;
            (m, m, m)
        },
        Transformacao::LimiarMedia(l) => {
            let m = ((p.0 as u16 + p.1 as u16 + p.2 as u16) / 3) as u8;
            let b: u8 = if m >= l {
                255
            } else {
                0
            };
            (b, b, b)
        },
    }
}

/// `saida` é uma imagem RGB de 8 bits com as dimensões de `img`, e cada pixel seu é o que `t` faz do
/// pixel correspondente de `img` (com alfa 255).
pub open spec fn transformada(img: image::DynamicImage, t: Transformacao, saida: image::DynamicImage) -> bool {
    let d = dimensoes_dinamica(img);
    &&& dimensoes_dinamica(saida) == d
    &&& variante_rgb8(saida)
    &&& bem_formada(pixels_dinamica(saida), d.0, d.1)
    &&& forall|x: int, y: int|
        0 <= x < d.0 && 0 <= y < d.1 ==> {
            let q = transforma(t, pixels_dinamica(img)[y][x]);
            #[trigger] pixels_dinamica(saida)[y][x] == (q.0, q.1, q.2, 255u8)
        }
}

/// A imagem RGB que `t` faz de `img`, pixel a pixel.
pub fn transformar(img: &image::DynamicImage, t: Transformacao) -> (r: image::DynamicImage)
    requires
        3 * dimensoes_dinamica(*img).0 * dimensoes_dinamica(*img).1 <= isize::MAX,
    ensures
        transformada(*img, t, r),
{
    let (largura, altura) = dimensoes(img);
    let ghost fonte = pixels_dinamica(*img);
    let mut out = nova_rgb(largura, altura);
    let mut y: u32 = 0;
    while y < altura
        invariant
            fonte == pixels_dinamica(*img),
            (largura, altura) == dimensoes_dinamica(*img),
            bem_formada(fonte, largura, altura),
            y <= altura,
            dimensoes_rgb(out) == (largura, altura),
            bem_formada(pixels_rgb(out), largura, altura),
            forall|xx: int, yy: int|
                0 <= yy < y && 0 <= xx < largura ==> #[trigger] pixels_rgb(out)[yy][xx]
                    == transforma(t, fonte[yy][xx]),
        decreases altura - y,
    {
        let mut x: u32 = 0;
        while x < largura
            invariant
                fonte == pixels_dinamica(*img),
                (largura, altura) == dimensoes_dinamica(*img),
                bem_formada(fonte, largura, altura),
                y < altura,
                x <= largura,
                dimensoes_rgb(out) == (largura, altura),
                bem_formada(pixels_rgb(out), largura, altura),
                forall|xx: int, yy: int|
                    (0 <= yy < y && 0 <= xx < largura) || (yy == y && 0 <= xx < x)
                        ==> #[trigger] pixels_rgb(out)[yy][xx] == transforma(t, fonte[yy][xx]),
            decreases largura - x,
        {
            let p = pixel(img, x, y);
            let q = aplica_transformacao(t, p);
            proof {
                lemma_com_pixel(pixels_rgb(out), largura, altura, x as int, y as int, q);
            }
            poe_pixel_rgb(&mut out, x, y, q);
            x = x + 1;
        }
        y = y + 1;
    }
    let ghost fim = pixels_rgb(out);
    let r = rgb_para_dinamica(out);
    proof {
        assert forall|x: int, y: int|
            0 <= x < largura && 0 <= y < altura implies {
                let q = transforma(t, fonte[y][x]);
                #[trigger] pixels_dinamica(r)[y][x] == (q.0, q.1, q.2, 255u8)
            } by {
            assert(fim[y][x] == transforma(t, fonte[y][x]));
        }
    }
    r
}

/// O que a decomposição RGB de `img` devolve: seis imagens RGB das dimensões
/// de `img`, nesta ordem, com estes nomes: o canal R, G e B repetido nos três
/// canais, e a pseudocoloração de R, G e B (o canal no seu lugar, os outros a
/// zero).
pub open spec fn resultado_decomposicao_rgb(img: image::DynamicImage, r: Seq<(image::DynamicImage, String)>) -> bool {
    &&& r.len() == 6
    &&& r[0].1@ == "Canal_R"@
    &&& r[1].1@ == "Canal_G"@
    &&& r[2].1@ == "Canal_B"@
    &&& r[3].1@ == "Canal_R_pseudocoloracao"@
    &&& r[4].1@ == "Canal_G_pseudocoloracao"@
    &&& r[5].1@ == "Canal_B_pseudocoloracao"@
    &&& transformada(img, Transformacao::Canal(0), r[0].0)
    &&& transformada(img, Transformacao::Canal(1), r[1].0)
    &&& transformada(img, Transformacao::Canal(2), r[2].0)
    &&& transformada(img, Transformacao::Pseudocor(0), r[3].0)
    &&& transformada(img, Transformacao::Pseudocor(1), r[4].0)
    &&& transformada(img, Transformacao::Pseudocor(2), r[5].0)
}

/// Decomposição RGB: seis imagens RGB das dimensões de `img`, nesta ordem:
/// "Canal_R", "Canal_G" e "Canal_B" (o canal repetido nos três canais) e
/// "Canal_R_pseudocoloracao", "Canal_G_pseudocoloracao" e
/// "Canal_B_pseudocoloracao" (o canal no seu lugar, os outros a zero).
pub fn decomposicao_rgb(img: image::DynamicImage) -> (r: Vec<(image::DynamicImage, String)>)
    requires
        3 * dimensoes_dinamica(img).0 * dimensoes_dinamica(img).1 <= isize::MAX,
    ensures
        resultado_decomposicao_rgb(img, r@),
{
    let mut v: Vec<(image::DynamicImage, String)> = Vec::new();
    v.push((transformar(&img, Transformacao::Canal(0)), String::from_str("Canal_R")));
    v.push((transformar(&img, Transformacao::Canal(1)), String::from_str("Canal_G")));
    v.push((transformar(&img, Transformacao::Canal(2)), String::from_str("Canal_B")));
    v.push(
        (transformar(&img, Transformacao::Pseudocor(0)), String::from_str("Canal_R_pseudocoloracao")),
    );
    v.push(
        (transformar(&img, Transformacao::Pseudocor(1)), String::from_str("Canal_G_pseudocoloracao")),
    );
    v.push(
        (transformar(&img, Transformacao::Pseudocor(2)), String::from_str("Canal_B_pseudocoloracao")),
    );
    v
}

/// `saida` é uma imagem RGB de 8 bits com as dimensões de `lum`, e cada pixel seu é o nível de `lum`
/// (binarizado por `limiar`, se houver um) repetido nos três canais, com
/// alfa 255.
pub open spec fn replicada(lum: ImagemCinza, limiar: Option<u8>, saida: image::DynamicImage) -> bool {
    let d = dimensoes_cinza(lum);
    &&& dimensoes_dinamica(saida) == d
    &&& variante_rgb8(saida)
    &&& bem_formada(pixels_dinamica(saida), d.0, d.1)
    &&& forall|x: int, y: int|
        0 <= x < d.0 && 0 <= y < d.1 ==> {
            let v = nivel_limiar(pixels_cinza(lum)[y][x], limiar);
            #[trigger] pixels_dinamica(saida)[y][x] == (v, v, v, 255u8)
        }
}

/// A imagem RGB com o nível de `lum` (binarizado, se houver limiar) nos três
/// canais.
fn replicar(lum: &ImagemCinza, limiar: Option<u8>) -> (r: image::DynamicImage)
    requires
        3 * dimensoes_cinza(*lum).0 * dimensoes_cinza(*lum).1 <= isize::MAX,
    ensures
        replicada(*lum, limiar, r),
{
    let (largura, altura) = dimensoes_imagem_cinza(lum);
    let ghost fonte = pixels_cinza(*lum);
    let mut out = nova_rgb(largura, altura);
    let mut y: u32 = 0;
    while y < altura
        invariant
            fonte == pixels_cinza(*lum),
            (largura, altura) == dimensoes_cinza(*lum),
            bem_formada(fonte, largura, altura),
            y <= altura,
            dimensoes_rgb(out) == (largura, altura),
            bem_formada(pixels_rgb(out), largura, altura),
            forall|xx: int, yy: int|
                0 <= yy < y && 0 <= xx < largura ==> #[trigger] pixels_rgb(out)[yy][xx] == (
                    nivel_limiar(fonte[yy][xx], limiar),
                    nivel_limiar(fonte[yy][xx], limiar),
                    nivel_limiar(fonte[yy][xx], limiar),
                ),
        decreases altura - y,
    {
        let mut x: u32 = 0;
        while x < largura
            invariant
                fonte == pixels_cinza(*lum),
                (largura, altura) == dimensoes_cinza(*lum),
                bem_formada(fonte, largura, altura),
                y < altura,
                x <= largura,
                dimensoes_rgb(out) == (largura, altura),
                bem_formada(pixels_rgb(out), largura, altura),
                forall|xx: int, yy: int|
                    (0 <= yy < y && 0 <= xx < largura) || (yy == y && 0 <= xx < x)
                        ==> #[trigger] pixels_rgb(out)[yy][xx] == (
                        nivel_limiar(fonte[yy][xx], limiar),
                        nivel_limiar(fonte[yy][xx], limiar),
                        nivel_limiar(fonte[yy][xx], limiar),
                    ),
            decreases largura - x,
        {
            let v0 = pixel_cinza(lum, x, y);
            let v: u8 = match limiar {
                Some(l) => if v0 >= l {
                    255
                } else {
                    0
                },
                None => v0,
            };
            proof {
                lemma_com_pixel(pixels_rgb(out), largura, altura, x as int, y as int, (v, v, v));
            }
            poe_pixel_rgb(&mut out, x, y, (v, v, v));
            x = x + 1;
        }
        y = y + 1;
    }
    let ghost fim = pixels_rgb(out);
    let r = rgb_para_dinamica(out);
    proof {
        assert forall|x: int, y: int|
            0 <= x < largura && 0 <= y < altura implies {
                let v = nivel_limiar(fonte[y][x], limiar);
                #[trigger] pixels_dinamica(r)[y][x] == (v, v, v, 255u8)
            } by {
            assert(fim[y][x] == (nivel_limiar(fonte[y][x], limiar), nivel_limiar(fonte[y][x], limiar), nivel_limiar(fonte[y][x], limiar)));
        }
    }
    r
}

/// O que a limiarização de `img` por `limiar` devolve, com `luminancia` o
/// nível perceptivo de cada pixel: quatro imagens RGB, nesta ordem, com estes
/// nomes: a média simples, a média simples binarizada, o nível perceptivo e o
/// nível perceptivo binarizado.
pub open spec fn resultado_limiarizacao(
    img: image::DynamicImage,
    limiar: u8,
    luminancia: ImagemCinza,
    r: Seq<(image::DynamicImage, String)>,
) -> bool {
    &&& r.len() == 4
    &&& r[0].1@ == "Imagem_Escala_De_Cinza_Simples"@
    &&& r[1].1@ == "Imagem_Limiarizada_Simples"@
    &&& r[2].1@ == "Imagem_Escala_De_Cinza_Adaptada"@
    &&& r[3].1@ == "Imagem_Limiarizada_Adaptada"@
    &&& transformada(img, Transformacao::MediaSimples, r[0].0)
    &&& transformada(img, Transformacao::LimiarMedia(limiar), r[1].0)
    &&& replicada(luminancia, None, r[2].0)
    &&& replicada(luminancia, Some(limiar), r[3].0)
}

/// Limiarização: quatro imagens RGB das dimensões de `img`, nesta ordem:
/// "Imagem_Escala_De_Cinza_Simples" (a média simples dos canais),
/// "Imagem_Limiarizada_Simples" (a média simples binarizada por `limiar`:
/// 255 a partir dele, 0 abaixo), "Imagem_Escala_De_Cinza_Adaptada" (o nível
/// perceptivo de `luminancia`) e "Imagem_Limiarizada_Adaptada" (esse nível
/// binarizado). `luminancia` traz, para cada pixel de `img`, o nível de cinza
/// ponderado pela percepção do olho humano (ITU-R BT.709).
pub fn limiarizacao(img: image::DynamicImage, limiar: u8, luminancia: &ImagemCinza) -> (r: Vec<
    (image::DynamicImage, String),
>)
    requires
        dimensoes_cinza(*luminancia) == dimensoes_dinamica(img),
        3 * dimensoes_dinamica(img).0 * dimensoes_dinamica(img).1 <= isize::MAX,
    ensures
        resultado_limiarizacao(img, limiar, *luminancia, r@),
{
    let mut v: Vec<(image::DynamicImage, String)> = Vec::new();
    v.push(
        (
            transformar(&img, Transformacao::MediaSimples),
            String::from_str("Imagem_Escala_De_Cinza_Simples"),
        ),
    );
    v.push(
        (
            transformar(&img, Transformacao::LimiarMedia(limiar)),
            String::from_str("Imagem_Limiarizada_Simples"),
        ),
    );
    v.push((replicar(luminancia, None), String::from_str("Imagem_Escala_De_Cinza_Adaptada")));
    v.push((replicar(luminancia, Some(limiar)), String::from_str("Imagem_Limiarizada_Adaptada")));
    v
}

/// `decomposicao_rgb` quando as saídas RGB cabem na memória endereçável;
/// `None` quando não.
pub fn tentar_decomposicao_rgb(img: image::DynamicImage) -> (r: Option<Vec<(image::DynamicImage, String)>>)
    ensures
        r is Some <==> cabe_em_rgb(dimensoes_dinamica(img)),
        r matches Some(v) ==> resultado_decomposicao_rgb(img, v@),
{
    if imagem_cabe_em_rgb(&img) {
        Some(decomposicao_rgb(img))
    } else {
        None
    }
}

/// `limiarizacao` quando `luminancia` tem as dimensões de `img` e as saídas RGB
/// cabem na memória endereçável; `None` quando não.
pub fn tentar_limiarizacao(img: image::DynamicImage, limiar: u8, luminancia: &ImagemCinza) -> (r: Option<
    Vec<(image::DynamicImage, String)>,
>)
    ensures
        r is Some <==> dimensoes_cinza(*luminancia) == dimensoes_dinamica(img) && cabe_em_rgb(
            dimensoes_dinamica(img),
        ),
        r matches Some(v) ==> resultado_limiarizacao(img, limiar, *luminancia, v@),
{
    let (la, aa) = dimensoes(&img);
    let (lb, ab) = dimensoes_imagem_cinza(luminancia);
    if la != lb || aa != ab || !imagem_cabe_em_rgb(&img) {
        return None;
    }
    Some(limiarizacao(img, limiar, luminancia))
}

// ---------------------------------------------------------------------------
// Leis
// ---------------------------------------------------------------------------

/// Lei: as três pseudocolorações juntas refazem a cor: o canal R da
/// pseudocoloração de R, o G da de G e o B da de B são os canais do pixel de
/// entrada, e os outros canais de cada uma são zero.
pub proof fn lei_pseudocores_recompoem(
    img: image::DynamicImage,
    pr: image::DynamicImage,
    pg: image::DynamicImage,
    pb: image::DynamicImage,
    x: int,
    y: int,
)
    requires
        transformada(img, Transformacao::Pseudocor(0), pr),
        transformada(img, Transformacao::Pseudocor(1), pg),
        transformada(img, Transformacao::Pseudocor(2), pb),
        0 <= x < dimensoes_dinamica(img).0,
        0 <= y < dimensoes_dinamica(img).1,
    ensures
        pixels_dinamica(pr)[y][x].0 == pixels_dinamica(img)[y][x].0,
        pixels_dinamica(pg)[y][x].1 == pixels_dinamica(img)[y][x].1,
        pixels_dinamica(pb)[y][x].2 == pixels_dinamica(img)[y][x].2,
        pixels_dinamica(pr)[y][x].1 == 0 && pixels_dinamica(pr)[y][x].2 == 0,
        pixels_dinamica(pg)[y][x].0 == 0 && pixels_dinamica(pg)[y][x].2 == 0,
        pixels_dinamica(pb)[y][x].0 == 0 && pixels_dinamica(pb)[y][x].1 == 0,
{
    let p = pixels_dinamica(img)[y][x];
    assert(pixels_dinamica(pr)[y][x] == (p.0, 0u8, 0u8, 255u8));
    assert(pixels_dinamica(pg)[y][x] == (0u8, p.1, 0u8, 255u8));
    assert(pixels_dinamica(pb)[y][x] == (0u8, 0u8, p.2, 255u8));
}

/// Lei: a imagem limiarizada simples é a escala de cinza simples binarizada
/// pelo limiar, e só tem os níveis 0 e 255.
pub proof fn lei_limiarizada_simples(
    img: image::DynamicImage,
    limiar: u8,
    cinza: image::DynamicImage,
    binaria: image::DynamicImage,
    x: int,
    y: int,
)
    requires
        transformada(img, Transformacao::MediaSimples, cinza),
        transformada(img, Transformacao::LimiarMedia(limiar), binaria),
        0 <= x < dimensoes_dinamica(img).0,
        0 <= y < dimensoes_dinamica(img).1,
    ensures
        pixels_dinamica(binaria)[y][x].0 == binariza(pixels_dinamica(cinza)[y][x].0, limiar),
        pixels_dinamica(binaria)[y][x].0 == 0 || pixels_dinamica(binaria)[y][x].0 == 255,
        pixels_dinamica(binaria)[y][x].1 == pixels_dinamica(binaria)[y][x].0,
        pixels_dinamica(binaria)[y][x].2 == pixels_dinamica(binaria)[y][x].0,
{
    let m = media_simples(pixels_dinamica(img)[y][x]);
    let b = binariza(m, limiar);
    assert(pixels_dinamica(cinza)[y][x] == (m, m, m, 255u8));
    assert(pixels_dinamica(binaria)[y][x] == (b, b, b, 255u8));
}

/// Lei: a imagem limiarizada adaptada é a escala de cinza adaptada
/// binarizada pelo limiar, e só tem os níveis 0 e 255.
pub proof fn lei_limiarizada_adaptada(
    luminancia: ImagemCinza,
    limiar: u8,
    cinza: image::DynamicImage,
    binaria: image::DynamicImage,
    x: int,
    y: int,
)
    requires
        replicada(luminancia, None, cinza),
        replicada(luminancia, Some(limiar), binaria),
        0 <= x < dimensoes_cinza(luminancia).0,
        0 <= y < dimensoes_cinza(luminancia).1,
    ensures
        pixels_dinamica(binaria)[y][x].0 == binariza(pixels_dinamica(cinza)[y][x].0, limiar),
        pixels_dinamica(binaria)[y][x].0 == 0 || pixels_dinamica(binaria)[y][x].0 == 255,
{
    let v = pixels_cinza(luminancia)[y][x];
    let b = binariza(v, limiar);
    assert(pixels_dinamica(cinza)[y][x] == (v, v, v, 255u8));
    assert(pixels_dinamica(binaria)[y][x] == (b, b, b, 255u8));
}

/// Um pixel branco (os três canais e o alfa em 255).
pub open spec fn branco(p: Rgba) -> bool {
    p == (255u8, 255u8, 255u8, 255u8)
}

/// Lei: limiar 0 deixa tudo branco nas duas imagens limiarizadas.
pub proof fn lei_limiar_zero(
    img: image::DynamicImage,
    luminancia: ImagemCinza,
    r: Seq<(image::DynamicImage, String)>,
)
    requires
        resultado_limiarizacao(img, 0, luminancia, r),
    ensures
        forall|x: int, y: int|
            0 <= x < dimensoes_dinamica(r[1].0).0 && 0 <= y < dimensoes_dinamica(r[1].0).1 ==> branco(
                #[trigger] pixels_dinamica(r[1].0)[y][x],
            ),
        forall|x: int, y: int|
            0 <= x < dimensoes_dinamica(r[3].0).0 && 0 <= y < dimensoes_dinamica(r[3].0).1 ==> branco(
                #[trigger] pixels_dinamica(r[3].0)[y][x],
            ),
{
}

/// Lei: o limiar só decide o preto e o branco. Com `l1 <= l2`, as duas
/// imagens em escala de cinza da limiarização são as mesmas para os dois
/// limiares, e subir o limiar só escurece: todo pixel branco com `l2` já é
/// branco com `l1`, nas duas imagens limiarizadas.
pub proof fn lei_limiar_crescente(
    img: image::DynamicImage,
    luminancia: ImagemCinza,
    l1: u8,
    l2: u8,
    a: Seq<(image::DynamicImage, String)>,
    b: Seq<(image::DynamicImage, String)>,
)
    requires
        l1 <= l2,
        resultado_limiarizacao(img, l1, luminancia, a),
        resultado_limiarizacao(img, l2, luminancia, b),
    ensures
        dimensoes_dinamica(a[0].0) == dimensoes_dinamica(b[0].0),
        pixels_dinamica(a[0].0) == pixels_dinamica(b[0].0),
        dimensoes_dinamica(a[2].0) == dimensoes_dinamica(b[2].0),
        pixels_dinamica(a[2].0) == pixels_dinamica(b[2].0),
        forall|x: int, y: int|
            0 <= x < dimensoes_dinamica(b[1].0).0 && 0 <= y < dimensoes_dinamica(b[1].0).1 && branco(
                #[trigger] pixels_dinamica(b[1].0)[y][x],
            ) ==> branco(pixels_dinamica(a[1].0)[y][x]),
        forall|x: int, y: int|
            0 <= x < dimensoes_dinamica(b[3].0).0 && 0 <= y < dimensoes_dinamica(b[3].0).1 && branco(
                #[trigger] pixels_dinamica(b[3].0)[y][x],
            ) ==> branco(pixels_dinamica(a[3].0)[y][x]),
{
    let d = dimensoes_dinamica(img);
    let dl = dimensoes_cinza(luminancia);
    assert forall|x: int, y: int| 0 <= x < d.0 && 0 <= y < d.1 implies #[trigger] pixels_dinamica(
        a[0].0,
    )[y][x] == pixels_dinamica(b[0].0)[y][x] by {
        let m = media_simples(pixels_dinamica(img)[y][x]);
        assert(pixels_dinamica(a[0].0)[y][x] == (m, m, m, 255u8));
    }
    assert forall|x: int, y: int| 0 <= x < dl.0 && 0 <= y < dl.1 implies #[trigger] pixels_dinamica(
        a[2].0,
    )[y][x] == pixels_dinamica(b[2].0)[y][x] by {
        let v = pixels_cinza(luminancia)[y][x];
        assert(pixels_dinamica(a[2].0)[y][x] == (v, v, v, 255u8));
    }
    assert(pixels_dinamica(a[0].0) =~~= pixels_dinamica(b[0].0));
    assert(pixels_dinamica(a[2].0) =~~= pixels_dinamica(b[2].0));
}

/// Lei: a decomposição RGB, pixel a pixel: "Canal_R" repete o R do pixel de
/// entrada nos três canais, "Canal_G" o G e "Canal_B" o B; as
/// pseudocolorações guardam o seu canal no lugar e zeram os outros dois;
/// todas com alfa 255.
pub proof fn lei_decomposicao_por_pixel(img: image::DynamicImage, r: Seq<(image::DynamicImage, String)>)
    requires
        resultado_decomposicao_rgb(img, r),
    ensures
        forall|x: int, y: int|
            0 <= x < dimensoes_dinamica(img).0 && 0 <= y < dimensoes_dinamica(img).1 ==> {
                let p = #[trigger] pixels_dinamica(img)[y][x];
                &&& pixels_dinamica(r[0].0)[y][x] == (p.0, p.0, p.0, 255u8)
                &&& pixels_dinamica(r[1].0)[y][x] == (p.1, p.1, p.1, 255u8)
                &&& pixels_dinamica(r[2].0)[y][x] == (p.2, p.2, p.2, 255u8)
                &&& pixels_dinamica(r[3].0)[y][x] == (p.0, 0u8, 0u8, 255u8)
                &&& pixels_dinamica(r[4].0)[y][x] == (0u8, p.1, 0u8, 255u8)
                &&& pixels_dinamica(r[5].0)[y][x] == (0u8, 0u8, p.2, 255u8)
            },
{
    let d = dimensoes_dinamica(img);
    assert forall|x: int, y: int| 0 <= x < d.0 && 0 <= y < d.1 implies {
        let p = #[trigger] pixels_dinamica(img)[y][x];
        &&& pixels_dinamica(r[0].0)[y][x] == (p.0, p.0, p.0, 255u8)
        &&& pixels_dinamica(r[1].0)[y][x] == (p.1, p.1, p.1, 255u8)
        &&& pixels_dinamica(r[2].0)[y][x] == (p.2, p.2, p.2, 255u8)
        &&& pixels_dinamica(r[3].0)[y][x] == (p.0, 0u8, 0u8, 255u8)
        &&& pixels_dinamica(r[4].0)[y][x] == (0u8, p.1, 0u8, 255u8)
        &&& pixels_dinamica(r[5].0)[y][x] == (0u8, 0u8, p.2, 255u8)
    } by {
        let p = pixels_dinamica(img)[y][x];
        assert(transforma(Transformacao::Canal(0), p) == (p.0, p.0, p.0));
        assert(transforma(Transformacao::Canal(1), p) == (p.1, p.1, p.1));
        assert(transforma(Transformacao::Canal(2), p) == (p.2, p.2, p.2));
        assert(pixels_dinamica(r[0].0)[y][x] == (p.0, p.0, p.0, 255u8));
        assert(pixels_dinamica(r[1].0)[y][x] == (p.1, p.1, p.1, 255u8));
        assert(pixels_dinamica(r[2].0)[y][x] == (p.2, p.2, p.2, 255u8));
        assert(pixels_dinamica(r[3].0)[y][x] == (p.0, 0u8, 0u8, 255u8));
        assert(pixels_dinamica(r[4].0)[y][x] == (0u8, p.1, 0u8, 255u8));
        assert(pixels_dinamica(r[5].0)[y][x] == (0u8, 0u8, p.2, 255u8));
    }
}

/// Lei: a escala de cinza simples da limiarização, pixel a pixel: o nível `m`
/// repetido nos três canais é a média dos três canais arredondada para baixo
/// (`3m <= R + G + B < 3m + 3`), e a limiarizada simples é branca quando
/// `m` chega ao limiar e preta quando fica abaixo.
pub proof fn lei_limiarizacao_media_por_pixel(
    img: image::DynamicImage,
    limiar: u8,
    luminancia: ImagemCinza,
    r: Seq<(image::DynamicImage, String)>,
)
    requires
        resultado_limiarizacao(img, limiar, luminancia, r),
    ensures
        forall|x: int, y: int|
            0 <= x < dimensoes_dinamica(img).0 && 0 <= y < dimensoes_dinamica(img).1 ==> {
                let p = #[trigger] pixels_dinamica(img)[y][x];
                let m = pixels_dinamica(r[0].0)[y][x].0;
                &&& 3 * m <= p.0 + p.1 + p.2 < 3 * m + 3
                &&& pixels_dinamica(r[0].0)[y][x] == (m, m, m, 255u8)
                &&& pixels_dinamica(r[1].0)[y][x] == if m >= limiar {
                    (255u8, 255u8, 255u8, 255u8)
                } else {
                    (0u8, 0u8, 0u8, 255u8)
                }
            },
{
    let d = dimensoes_dinamica(img);
    assert forall|x: int, y: int| 0 <= x < d.0 && 0 <= y < d.1 implies {
        let p = #[trigger] pixels_dinamica(img)[y][x];
        let m = pixels_dinamica(r[0].0)[y][x].0;
        &&& 3 * m <= p.0 + p.1 + p.2 < 3 * m + 3
        &&& pixels_dinamica(r[0].0)[y][x] == (m, m, m, 255u8)
        &&& pixels_dinamica(r[1].0)[y][x] == if m >= limiar {
            (255u8, 255u8, 255u8, 255u8)
        } else {
            (0u8, 0u8, 0u8, 255u8)
        }
    } by {
        let p = pixels_dinamica(img)[y][x];
        let m = media_simples(p);
        assert(pixels_dinamica(r[0].0)[y][x] == (m, m, m, 255u8));
        let b = binariza(m, limiar);
        assert(pixels_dinamica(r[1].0)[y][x] == (b, b, b, 255u8));
    }
}

/// Lei: a escala de cinza simples não depende da ordem dos canais: trocar R
/// com G, ou G com B, dá o mesmo nível.
pub proof fn lei_media_simetrica(p: Rgba)
    ensures
        transforma(Transformacao::MediaSimples, p) == transforma(
            Transformacao::MediaSimples,
            (p.1, p.0, p.2, p.3),
        ),
        transforma(Transformacao::MediaSimples, p) == transforma(
            Transformacao::MediaSimples,
            (p.0, p.2, p.1, p.3),
        ),
{
    let s = p.0 as int + p.1 as int + p.2 as int;
    assert(p.1 as int + p.0 as int + p.2 as int == s);
    assert(p.0 as int + p.2 as int + p.1 as int == s);
}

/// Lei: as imagens da limiarização feitas do nível perceptivo, pixel a pixel:
/// "Imagem_Escala_De_Cinza_Adaptada" repete nos três canais o nível `v` de
/// `luminancia`, e "Imagem_Limiarizada_Adaptada" é branca quando `v` chega ao
/// limiar e preta quando fica abaixo; ambas com alfa 255.
pub proof fn lei_limiarizacao_adaptada_por_pixel(
    img: image::DynamicImage,
    limiar: u8,
    luminancia: ImagemCinza,
    r: Seq<(image::DynamicImage, String)>,
)
    requires
        resultado_limiarizacao(img, limiar, luminancia, r),
    ensures
        forall|x: int, y: int|
            0 <= x < dimensoes_cinza(luminancia).0 && 0 <= y < dimensoes_cinza(luminancia).1 ==> {
                let v = #[trigger] pixels_cinza(luminancia)[y][x];
                &&& pixels_dinamica(r[2].0)[y][x] == (v, v, v, 255u8)
                &&& pixels_dinamica(r[3].0)[y][x] == if v >= limiar {
                    (255u8, 255u8, 255u8, 255u8)
                } else {
                    (0u8, 0u8, 0u8, 255u8)
                }
            },
{
    let d = dimensoes_cinza(luminancia);
    assert forall|x: int, y: int| 0 <= x < d.0 && 0 <= y < d.1 implies {
        let v = #[trigger] pixels_cinza(luminancia)[y][x];
        &&& pixels_dinamica(r[2].0)[y][x] == (v, v, v, 255u8)
        &&& pixels_dinamica(r[3].0)[y][x] == if v >= limiar {
            (255u8, 255u8, 255u8, 255u8)
        } else {
            (0u8, 0u8, 0u8, 255u8)
        }
    } by {
        let v = pixels_cinza(luminancia)[y][x];
        let b = binariza(v, limiar);
        assert(pixels_dinamica(r[2].0)[y][x] == (v, v, v, 255u8));
        assert(pixels_dinamica(r[3].0)[y][x] == (b, b, b, 255u8));
    }
}

} // verus!

//! Separação de uma imagem nos seus canais de cor e a junção de volta.
use vstd::prelude::*;
use crate::limites::{cabe_em_rgb, cinza_cabe_em_rgb};
use crate::imagem::{
    cinza_como_rgba, cinza_para_dinamica, luma8_de, para_cinza,
    lemma_com_pixel,
    bem_formada, dimensoes, dimensoes_cinza, dimensoes_dinamica, dimensoes_imagem_cinza,
    dimensoes_rgb, nova_cinza, nova_rgb, pixel, pixel_cinza, pixels_cinza, pixels_dinamica,
    pixels_rgb, plano, poe_pixel_cinza, poe_pixel_rgb, rgb_para_dinamica, variante_luma8, variante_rgb8,
    ImagemCinza,
};

verus! {

/// A cópia em tons de cinza de `img` que `DynamicImage::to_luma8` calcula.
pub fn para_tons_de_cinza(img: &image::DynamicImage) -> (r: ImagemCinza)
    ensures
        dimensoes_cinza(r) == dimensoes_dinamica(*img),
        pixels_cinza(r) == luma8_de(*img),
        bem_formada(pixels_cinza(r), dimensoes_cinza(r).0, dimensoes_cinza(r).1),
{
    para_cinza(img)
}

/// A imagem em tons de cinza como `DynamicImage` (variante `ImageLuma8`).
pub fn cinza_para_imagem(img: ImagemCinza) -> (r: image::DynamicImage)
    ensures
        dimensoes_dinamica(r) == dimensoes_cinza(img),
        pixels_dinamica(r) == cinza_como_rgba(pixels_cinza(img)),
        !variante_rgb8(r),
        variante_luma8(r),
        luma8_de(r) == pixels_cinza(img),
{
    cinza_para_dinamica(img)
}

/// Separa os canais R, G e B (tal como `get_pixel` os lê) em três imagens em
/// tons de cinza das mesmas dimensões.
pub fn canais_rgb(img: &image::DynamicImage) -> (r: (ImagemCinza, ImagemCinza, ImagemCinza))
    ensures
        dimensoes_cinza(r.0) == dimensoes_dinamica(*img),
        dimensoes_cinza(r.1) == dimensoes_dinamica(*img),
        dimensoes_cinza(r.2) == dimensoes_dinamica(*img),
        pixels_cinza(r.0) == plano(pixels_dinamica(*img), 0),
        pixels_cinza(r.1) == plano(pixels_dinamica(*img), 1),
        pixels_cinza(r.2) == plano(pixels_dinamica(*img), 2),
{
    let (largura, altura) = dimensoes(img);
    let ghost fonte = pixels_dinamica(*img);
    let mut cr = nova_cinza(largura, altura);
    let mut cg = nova_cinza(largura, altura);
    let mut cb = nova_cinza(largura, altura);
    let mut y: u32 = 0;
    while y < altura
        invariant
            fonte == pixels_dinamica(*img),
            (largura, altura) == dimensoes_dinamica(*img),
            bem_formada(fonte, largura, altura),
            y <= altura,
            dimensoes_cinza(cr) == (largura, altura),
            dimensoes_cinza(cg) == (largura, altura),
            dimensoes_cinza(cb) == (largura, altura),
            bem_formada(pixels_cinza(cr), largura, altura),
            bem_formada(pixels_cinza(cg), largura, altura),
            bem_formada(pixels_cinza(cb), largura, altura),
            forall|xx: int, yy: int|
                0 <= yy < y && 0 <= xx < largura ==> #[trigger] pixels_cinza(cr)[yy][xx]
                    == fonte[yy][xx].0,
            forall|xx: int, yy: int|
                0 <= yy < y && 0 <= xx < largura ==> #[trigger] pixels_cinza(cg)[yy][xx]
                    == fonte[yy][xx].1,
            forall|xx: int, yy: int|
                0 <= yy < y && 0 <= xx < largura ==> #[trigger] pixels_cinza(cb)[yy][xx]
                    == fonte[yy][xx].2,
        decreases altura - y,
    {
        let mut x: u32 = 0;
        while x < largura
            invariant
                fonte == pixels_dinamica(*img),
                (largura, altura) == dimensoes_dinamica(*img),
                bem_formada(fonte, largura, altura),
                y < altura,
                x <= largura,
                dimensoes_cinza(cr) == (largura, altura),
                dimensoes_cinza(cg) == (largura, altura),
                dimensoes_cinza(cb) == (largura, altura),
                bem_formada(pixels_cinza(cr), largura, altura),
                bem_formada(pixels_cinza(cg), largura, altura),
                bem_formada(pixels_cinza(cb), largura, altura),
                forall|xx: int, yy: int|
                    (0 <= yy < y && 0 <= xx < largura) || (yy == y && 0 <= xx < x)
                        ==> #[trigger] pixels_cinza(cr)[yy][xx] == fonte[yy][xx].0,
                forall|xx: int, yy: int|
                    (0 <= yy < y && 0 <= xx < largura) || (yy == y && 0 <= xx < x)
                        ==> #[trigger] pixels_cinza(cg)[yy][xx] == fonte[yy][xx].1,
                forall|xx: int, yy: int|
                    (0 <= yy < y && 0 <= xx < largura) || (yy == y && 0 <= xx < x)
                        ==> #[trigger] pixels_cinza(cb)[yy][xx] == fonte[yy][xx].2,
            decreases largura - x,
        {
            let p = pixel(img, x, y);
            proof {
                lemma_com_pixel(pixels_cinza(cr), largura, altura, x as int, y as int, p.0);
            }
            poe_pixel_cinza(&mut cr, x, y, p.0);
            proof {
                lemma_com_pixel(pixels_cinza(cg), largura, altura, x as int, y as int, p.1);
            }
            poe_pixel_cinza(&mut cg, x, y, p.1);
            proof {
                lemma_com_pixel(pixels_cinza(cb), largura, altura, x as int, y as int, p.2);
            }
            poe_pixel_cinza(&mut cb, x, y, p.2);
            x = x + 1;
        }
        y = y + 1;
    }
    proof {
        assert forall|c: int| 0 <= c < 3 implies #[trigger] plano(fonte, c).len() == altura by {}
        assert(pixels_cinza(cr) =~~= plano(fonte, 0));
        assert(pixels_cinza(cg) =~~= plano(fonte, 1));
        assert(pixels_cinza(cb) =~~= plano(fonte, 2));
    }
    (cr, cg, cb)
}

/// Junta três imagens em tons de cinza das mesmas dimensões numa imagem RGB:
/// o pixel `(x, y)` da saída tem os níveis `(x, y)` de `r`, `g` e `b`.
pub fn juntar_canais(r: &ImagemCinza, g: &ImagemCinza, b: &ImagemCinza) -> (saida: image::DynamicImage)
    requires
        dimensoes_cinza(*g) == dimensoes_cinza(*r),
        dimensoes_cinza(*b) == dimensoes_cinza(*r),
        3 * dimensoes_cinza(*r).0 * dimensoes_cinza(*r).1 <= isize::MAX,
    ensures
        dimensoes_dinamica(saida) == dimensoes_cinza(*r),
        variante_rgb8(saida),
        bem_formada(pixels_dinamica(saida), dimensoes_dinamica(saida).0, dimensoes_dinamica(saida).1),
        forall|x: int, y: int|
            0 <= x < dimensoes_cinza(*r).0 && 0 <= y < dimensoes_cinza(*r).1 ==> #[trigger] pixels_dinamica(
                saida,
            )[y][x] == (pixels_cinza(*r)[y][x], pixels_cinza(*g)[y][x], pixels_cinza(*b)[y][x], 255u8),
{
    let (largura, altura) = dimensoes_imagem_cinza(r);
    let mut out = nova_rgb(largura, altura);
    let mut y: u32 = 0;
    while y < altura
        invariant
            (largura, altura) == dimensoes_cinza(*r),
            dimensoes_cinza(*g) == dimensoes_cinza(*r),
            dimensoes_cinza(*b) == dimensoes_cinza(*r),
            y <= altura,
            dimensoes_rgb(out) == (largura, altura),
            bem_formada(pixels_rgb(out), largura, altura),
            forall|xx: int, yy: int|
                0 <= yy < y && 0 <= xx < largura ==> #[trigger] pixels_rgb(out)[yy][xx] == (
                    pixels_cinza(*r)[yy][xx],
                    pixels_cinza(*g)[yy][xx],
                    pixels_cinza(*b)[yy][xx],
                ),
        decreases altura - y,
    {
        let mut x: u32 = 0;
        while x < largura
            invariant
                (largura, altura) == dimensoes_cinza(*r),
                dimensoes_cinza(*g) == dimensoes_cinza(*r),
                dimensoes_cinza(*b) == dimensoes_cinza(*r),
                y < altura,
                x <= largura,
                dimensoes_rgb(out) == (largura, altura),
                bem_formada(pixels_rgb(out), largura, altura),
                forall|xx: int, yy: int|
                    (0 <= yy < y && 0 <= xx < largura) || (yy == y && 0 <= xx < x)
                        ==> #[trigger] pixels_rgb(out)[yy][xx] == (
                        pixels_cinza(*r)[yy][xx],
                        pixels_cinza(*g)[yy][xx],
                        pixels_cinza(*b)[yy][xx],
                    ),
            decreases largura - x,
        {
            let p = (pixel_cinza(r, x, y), pixel_cinza(g, x, y), pixel_cinza(b, x, y));
            proof {
                lemma_com_pixel(pixels_rgb(out), largura, altura, x as int, y as int, p);
            }
            poe_pixel_rgb(&mut out, x, y, p);
            x = x + 1;
        }
        y = y + 1;
    }
    let ghost fim = pixels_rgb(out);
    let saida = rgb_para_dinamica(out);
    proof {
        assert forall|x: int, y: int|
            0 <= x < largura && 0 <= y < altura implies #[trigger] pixels_dinamica(saida)[y][x] == (
                pixels_cinza(*r)[y][x],
                pixels_cinza(*g)[y][x],
                pixels_cinza(*b)[y][x],
                255u8,
            ) by {
            assert(fim[y][x] == (pixels_cinza(*r)[y][x], pixels_cinza(*g)[y][x], pixels_cinza(*b)[y][x]));
        }
    }
    saida
}

/// `juntar_canais` quando as três imagens têm as mesmas dimensões e a saída
/// RGB cabe na memória endereçável; `None` quando não.
pub fn tentar_juntar_canais(r: &ImagemCinza, g: &ImagemCinza, b: &ImagemCinza) -> (saida: Option<
    image::DynamicImage,
>)
    ensures
        saida is Some <==> dimensoes_cinza(*g) == dimensoes_cinza(*r) && dimensoes_cinza(*b)
            == dimensoes_cinza(*r) && cabe_em_rgb(dimensoes_cinza(*r)),
        saida matches Some(s) ==> {
            &&& dimensoes_dinamica(s) == dimensoes_cinza(*r)
            &&& variante_rgb8(s)
            &&& bem_formada(pixels_dinamica(s), dimensoes_dinamica(s).0, dimensoes_dinamica(s).1)
            &&& forall|x: int, y: int|
                0 <= x < dimensoes_cinza(*r).0 && 0 <= y < dimensoes_cinza(*r).1 ==> #[trigger] pixels_dinamica(
                    s,
                )[y][x] == (pixels_cinza(*r)[y][x], pixels_cinza(*g)[y][x], pixels_cinza(*b)[y][x], 255u8)
        },
{
    let dr = dimensoes_imagem_cinza(r);
    let dg = dimensoes_imagem_cinza(g);
    let db = dimensoes_imagem_cinza(b);
    if dr.0 != dg.0 || dr.1 != dg.1 || dr.0 != db.0 || dr.1 != db.1 || !cinza_cabe_em_rgb(r) {
        return None;
    }
    Some(juntar_canais(r, g, b))
}

/// Lei: passar uma imagem em tons de cinza para `DynamicImage` e de volta para
/// tons de cinza devolve as mesmas dimensões e os mesmos níveis.
pub proof fn lei_cinza_ida_e_volta(g: ImagemCinza, d: image::DynamicImage, h: ImagemCinza)
    requires
        dimensoes_dinamica(d) == dimensoes_cinza(g),
        luma8_de(d) == pixels_cinza(g),
        dimensoes_cinza(h) == dimensoes_dinamica(d),
        pixels_cinza(h) == luma8_de(d),
    ensures
        dimensoes_cinza(h) == dimensoes_cinza(g),
        pixels_cinza(h) == pixels_cinza(g),
{
}

/// Lei: juntar os canais que `canais_rgb` separou refaz a cor de cada pixel
/// (com alfa 255).
pub proof fn lei_juntar_desfaz_canais(
    img: image::DynamicImage,
    r: ImagemCinza,
    g: ImagemCinza,
    b: ImagemCinza,
    saida: image::DynamicImage,
    x: int,
    y: int,
)
    requires
        bem_formada(pixels_dinamica(img), dimensoes_dinamica(img).0, dimensoes_dinamica(img).1),
        dimensoes_cinza(r) == dimensoes_dinamica(img),
        dimensoes_cinza(g) == dimensoes_dinamica(img),
        dimensoes_cinza(b) == dimensoes_dinamica(img),
        pixels_cinza(r) == plano(pixels_dinamica(img), 0),
        pixels_cinza(g) == plano(pixels_dinamica(img), 1),
        pixels_cinza(b) == plano(pixels_dinamica(img), 2),
        forall|xx: int, yy: int|
            0 <= xx < dimensoes_cinza(r).0 && 0 <= yy < dimensoes_cinza(r).1 ==> #[trigger] pixels_dinamica(
                saida,
            )[yy][xx] == (pixels_cinza(r)[yy][xx], pixels_cinza(g)[yy][xx], pixels_cinza(b)[yy][xx], 255u8),
        0 <= x < dimensoes_dinamica(img).0,
        0 <= y < dimensoes_dinamica(img).1,
    ensures
        pixels_dinamica(saida)[y][x] == (
            pixels_dinamica(img)[y][x].0,
            pixels_dinamica(img)[y][x].1,
            pixels_dinamica(img)[y][x].2,
            255u8,
        ),
{
    assert(pixels_dinamica(saida)[y][x] == (pixels_cinza(r)[y][x], pixels_cinza(g)[y][x], pixels_cinza(b)[y][x], 255u8));
}

} // verus!

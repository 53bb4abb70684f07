//! A fronteira com o crate `image`: os tipos de imagem, os nomes do que eles
//! guardam e os invólucros das chamadas que a biblioteca faz.
//!
//! Uma imagem é vista como uma sequência de linhas (de cima para baixo), cada
//! linha uma sequência de pixels (da esquerda para a direita): o pixel `(x, y)`
//! é `linhas[y][x]`.
use vstd::prelude::*;

verus! {

#[verifier::external_type_specification]
#[verifier::external_body]
pub struct ExDynamicImage(image::DynamicImage);

/// Imagem RGB de 8 bits por canal (guarda um `image::RgbImage`).
#[verifier::external_body]
pub struct ImagemRgb {
    buf: image::RgbImage,
}

/// Imagem em tons de cinza de 8 bits (guarda um `image::GrayImage`).
#[verifier::external_body]
pub struct ImagemCinza {
    buf: image::GrayImage,
}

/// Pixel RGBA de 8 bits por canal.
pub type Rgba = (u8, u8, u8, u8);

/// Pixel RGB de 8 bits por canal.
pub type Rgb = (u8, u8, u8);

// ---------------------------------------------------------------------------
// O que cada imagem guarda
// ---------------------------------------------------------------------------

/// Os pixels de uma `DynamicImage` tal como `GenericImageView::get_pixel` os
/// entrega (convertidos para RGBA de 8 bits), linha a linha.
pub uninterp spec fn pixels_dinamica(img: image::DynamicImage) -> Seq<Seq<Rgba>>;

/// Largura e altura de uma `DynamicImage`.
pub uninterp spec fn dimensoes_dinamica(img: image::DynamicImage) -> (u32, u32);

/// Se a `DynamicImage` é da variante `ImageRgb8`.
pub uninterp spec fn variante_rgb8(img: image::DynamicImage) -> bool;

/// Se a `DynamicImage` é da variante `ImageLuma8`.
pub uninterp spec fn variante_luma8(img: image::DynamicImage) -> bool;

/// O resultado de `DynamicImage::to_luma8`, linha a linha.
pub uninterp spec fn luma8_de(img: image::DynamicImage) -> Seq<Seq<u8>>;

/// Os pixels de uma `ImagemRgb`, linha a linha.
pub uninterp spec fn pixels_rgb(img: ImagemRgb) -> Seq<Seq<Rgb>>;

/// Largura e altura de uma `ImagemRgb`.
pub uninterp spec fn dimensoes_rgb(img: ImagemRgb) -> (u32, u32);

/// Os pixels de uma `ImagemCinza`, linha a linha.
pub uninterp spec fn pixels_cinza(img: ImagemCinza) -> Seq<Seq<u8>>;

/// Largura e altura de uma `ImagemCinza`.
pub uninterp spec fn dimensoes_cinza(img: ImagemCinza) -> (u32, u32);

// ---------------------------------------------------------------------------
// Funções de especificação sobre linhas de pixels
// ---------------------------------------------------------------------------

/// `linhas` tem `altura` linhas de `largura` pixels cada.
pub open spec fn bem_formada<T>(linhas: Seq<Seq<T>>, largura: u32, altura: u32) -> bool {
    &&& linhas.len() == altura
    &&& forall|y: int| 0 <= y < altura ==> (#[trigger] linhas[y]).len() == largura
}

/// Imagem de `largura` por `altura` com todos os pixels iguais a `p`.
pub open spec fn uniforme<T>(largura: u32, altura: u32, p: T) -> Seq<Seq<T>> {
    Seq::new(altura as nat, |y: int| Seq::new(largura as nat, |x: int| p))
}

/// Troca o pixel `(x, y)` por `p`.
pub open spec fn com_pixel<T>(linhas: Seq<Seq<T>>, x: int, y: int, p: T) -> Seq<Seq<T>> {
    linhas.update(y, linhas[y].update(x, p))
}

/// Trocar um pixel dentro dos limites não muda a forma da imagem, e só muda
/// esse pixel.
pub proof fn lemma_com_pixel<T>(linhas: Seq<Seq<T>>, largura: u32, altura: u32, x: int, y: int, p: T)
    requires
        bem_formada(linhas, largura, altura),
        0 <= x < largura,
        0 <= y < altura,
    ensures
        bem_formada(com_pixel(linhas, x, y, p), largura, altura),
        com_pixel(linhas, x, y, p)[y][x] == p,
        forall|xx: int, yy: int|
            0 <= yy < altura && 0 <= xx < largura && (xx != x || yy != y) ==> #[trigger] com_pixel(
                linhas,
                x,
                y,
                p,
            )[yy][xx] == linhas[yy][xx],
{
    let n = com_pixel(linhas, x, y, p);
    assert forall|yy: int| 0 <= yy < altura implies (#[trigger] n[yy]).len() == largura by {
        if yy == y {
        } else {
            assert(n[yy] == linhas[yy]);
        }
    }
}

/// A vista RGBA de uma imagem RGB: alfa máximo em todo pixel.
pub open spec fn rgb_como_rgba(linhas: Seq<Seq<Rgb>>) -> Seq<Seq<Rgba>> {
    linhas.map_values(|l: Seq<Rgb>| l.map_values(|p: Rgb| (p.0, p.1, p.2, 255u8)))
}

/// A vista RGBA de uma imagem em tons de cinza: o nível repetido nos três
/// canais de cor e alfa máximo.
pub open spec fn cinza_como_rgba(linhas: Seq<Seq<u8>>) -> Seq<Seq<Rgba>> {
    linhas.map_values(|l: Seq<u8>| l.map_values(|v: u8| (v, v, v, 255u8)))
}

/// Um canal (0 = R, 1 = G, 2 = B, 3 = A) de um pixel RGBA.
pub open spec fn canal(p: Rgba, c: int) -> u8 {
    if c == 0 {
        p.0
    } else if c == 1 {
        p.1
    } else if c == 2 {
        p.2
    } else {
        p.3
    }
}

/// O plano de um canal de uma imagem RGBA.
pub open spec fn plano(linhas: Seq<Seq<Rgba>>, c: int) -> Seq<Seq<u8>> {
    linhas.map_values(|l: Seq<Rgba>| l.map_values(|p: Rgba| canal(p, c)))
}

// ---------------------------------------------------------------------------
// DynamicImage
// ---------------------------------------------------------------------------

/// `GenericImageView::dimensions` de `DynamicImage`. Os pixels que
/// `get_pixel` alcança formam `altura` linhas de `largura` pixels; o buffer da
/// imagem tem ao menos `largura * altura` elementos, e nenhum `Vec` passa de
/// `isize::MAX` bytes.
#[verifier::external_body]
pub(crate) fn dimensoes(img: &image::DynamicImage) -> (r: (u32, u32))
    ensures
        r == dimensoes_dinamica(*img),
        bem_formada(pixels_dinamica(*img), r.0, r.1),
        r.0 * r.1 <= isize::MAX,
{
    image::GenericImageView::dimensions(img)
}

/// `GenericImageView::get_pixel` de `DynamicImage`: o pixel `(x, y)` em RGBA.
/// Entra em pânico fora dos limites, que a pré-condição exclui.
#[verifier::external_body]
pub(crate) fn pixel(img: &image::DynamicImage, x: u32, y: u32) -> (r: Rgba)
    requires
        x < dimensoes_dinamica(*img).0,
        y < dimensoes_dinamica(*img).1,
    ensures
        r == pixels_dinamica(*img)[y as int][x as int],
{
    let p = image::GenericImageView::get_pixel(img, x, y);
    (p[0], p[1], p[2], p[3])
}

/// Distingue a variante `DynamicImage::ImageRgb8`.
#[verifier::external_body]
pub(crate) fn e_rgb8(img: &image::DynamicImage) -> (r: bool)
    ensures
        r == variante_rgb8(*img),
{
    match img {
        image::DynamicImage::ImageRgb8(_) => true,
        _ => false,
    }
}

/// `DynamicImage::to_luma8`: uma cópia em tons de cinza com as mesmas
/// dimensões. Os níveis são o que o crate calcula para cada variante; aqui só
/// recebem um nome.
#[verifier::external_body]
pub(crate) fn para_cinza(img: &image::DynamicImage) -> (r: ImagemCinza)
    ensures
        dimensoes_cinza(r) == dimensoes_dinamica(*img),
        pixels_cinza(r) == luma8_de(*img),
        bem_formada(pixels_cinza(r), dimensoes_cinza(r).0, dimensoes_cinza(r).1),
{
    ImagemCinza { buf: img.to_luma8() }
}

// ---------------------------------------------------------------------------
// ImagemRgb
// ---------------------------------------------------------------------------

/// `ImageBuffer::<Rgb<u8>, Vec<u8>>::new`: todos os pixels a zero. Entra em
/// pânico quando `3 * largura * altura` não cabe num `Vec<u8>`, o que a
/// pré-condição exclui.
#[verifier::external_body]
pub(crate) fn nova_rgb(largura: u32, altura: u32) -> (r: ImagemRgb)
    requires
        3 * largura * altura <= isize::MAX,
    ensures
        dimensoes_rgb(r) == (largura, altura),
        pixels_rgb(r) == uniforme(largura, altura, (0u8, 0u8, 0u8)),
{
    ImagemRgb { buf: image::RgbImage::new(largura, altura) }
}

/// `ImageBuffer::put_pixel`: troca um pixel e mais nada. Entra em pânico fora
/// dos limites, que a pré-condição exclui.
#[verifier::external_body]
pub(crate) fn poe_pixel_rgb(img: &mut ImagemRgb, x: u32, y: u32, p: Rgb)
    requires
        x < dimensoes_rgb(*old(img)).0,
        y < dimensoes_rgb(*old(img)).1,
    ensures
        dimensoes_rgb(*final(img)) == dimensoes_rgb(*old(img)),
        pixels_rgb(*final(img)) == com_pixel(pixels_rgb(*old(img)), x as int, y as int, p),
{
    img.buf.put_pixel(x, y, image::Rgb([p.0, p.1, p.2]))
}

/// `DynamicImage::from(RgbImage)`, isto é, `DynamicImage::ImageRgb8`; lida
/// por `get_pixel`, cada pixel ganha alfa 255.
#[verifier::external_body]
pub(crate) fn rgb_para_dinamica(img: ImagemRgb) -> (r: image::DynamicImage)
    ensures
        dimensoes_dinamica(r) == dimensoes_rgb(img),
        pixels_dinamica(r) == rgb_como_rgba(pixels_rgb(img)),
        variante_rgb8(r),
        !variante_luma8(r),
{
    image::DynamicImage::from(img.buf)
}

// ---------------------------------------------------------------------------
// ImagemCinza
// ---------------------------------------------------------------------------

/// `ImageBuffer::<Luma<u8>, Vec<u8>>::new`: todos os pixels a zero. Entra em
/// pânico quando `largura * altura` não cabe num `Vec<u8>`, o que a
/// pré-condição exclui.
#[verifier::external_body]
pub(crate) fn nova_cinza(largura: u32, altura: u32) -> (r: ImagemCinza)
    requires
        largura * altura <= isize::MAX,
    ensures
        dimensoes_cinza(r) == (largura, altura),
        pixels_cinza(r) == uniforme(largura, altura, 0u8),
{
    ImagemCinza { buf: image::GrayImage::new(largura, altura) }
}

/// `ImageBuffer::dimensions` de uma imagem em cinza; o buffer tem ao menos
/// `largura * altura` bytes, e nenhum `Vec` passa de `isize::MAX` bytes.
#[verifier::external_body]
pub(crate) fn dimensoes_imagem_cinza(img: &ImagemCinza) -> (r: (u32, u32))
    ensures
        r == dimensoes_cinza(*img),
        bem_formada(pixels_cinza(*img), r.0, r.1),
        r.0 * r.1 <= isize::MAX,
{
    img.buf.dimensions()
}

/// `ImageBuffer::get_pixel` de uma imagem em cinza. Entra em pânico fora dos
/// limites, que a pré-condição exclui.
#[verifier::external_body]
pub(crate) fn pixel_cinza(img: &ImagemCinza, x: u32, y: u32) -> (r: u8)
    requires
        x < dimensoes_cinza(*img).0,
        y < dimensoes_cinza(*img).1,
    ensures
        r == pixels_cinza(*img)[y as int][x as int],
{
    img.buf.get_pixel(x, y)[0]
}

/// `ImageBuffer::put_pixel` de uma imagem em cinza: troca um pixel e mais
/// nada. Entra em pânico fora dos limites, que a pré-condição exclui.
#[verifier::external_body]
pub(crate) fn poe_pixel_cinza(img: &mut ImagemCinza, x: u32, y: u32, v: u8)
    requires
        x < dimensoes_cinza(*old(img)).0,
        y < dimensoes_cinza(*old(img)).1,
    ensures
        dimensoes_cinza(*final(img)) == dimensoes_cinza(*old(img)),
        pixels_cinza(*final(img)) == com_pixel(pixels_cinza(*old(img)), x as int, y as int, v),
{
    img.buf.put_pixel(x, y, image::Luma([v]))
}

/// `DynamicImage::from(GrayImage)`, isto é, `DynamicImage::ImageLuma8`; lida
/// por `get_pixel`, cada nível se repete nos três canais, com alfa 255, e
/// `to_luma8` devolve uma cópia dos próprios níveis.
#[verifier::external_body]
pub(crate) fn cinza_para_dinamica(img: ImagemCinza) -> (r: image::DynamicImage)
    ensures
        dimensoes_dinamica(r) == dimensoes_cinza(img),
        pixels_dinamica(r) == cinza_como_rgba(pixels_cinza(img)),
        !variante_rgb8(r),
        variante_luma8(r),
        luma8_de(r) == pixels_cinza(img),
{
    image::DynamicImage::from(img.buf)
}

} // verus!

//! Os limites de tamanho que as funções de imagem pedem, e como testá-los.
use vstd::prelude::*;
use crate::imagem::{dimensoes, dimensoes_cinza, dimensoes_dinamica, dimensoes_imagem_cinza, ImagemCinza};

verus! {

/// Uma imagem RGB de 8 bits com estas dimensões cabe num `Vec<u8>`.
pub open spec fn cabe_em_rgb(d: (u32, u32)) -> bool {
    3 * d.0 * d.1 <= isize::MAX
}

/// Se uma cópia RGB de 8 bits de `img` cabe num `Vec<u8>`.
pub fn imagem_cabe_em_rgb(img: &image::DynamicImage) -> (r: bool)
    ensures
        r == cabe_em_rgb(dimensoes_dinamica(*img)),
{
    let (largura, altura) = dimensoes(img);
    let l = largura as u128;
    let a = altura as u128;
    assert(3 * l * a <= 3 * 0xffff_ffffu128 * 0xffff_ffffu128) by (nonlinear_arith)
        requires
            l <= 0xffff_ffff,
            a <= 0xffff_ffff,
    ;
    3 * l * a <= isize::MAX as u128
}

/// Se uma imagem RGB de 8 bits das dimensões de `img` cabe num `Vec<u8>`.
pub fn cinza_cabe_em_rgb(img: &ImagemCinza) -> (r: bool)
    ensures
        r == cabe_em_rgb(dimensoes_cinza(*img)),
{
    let (largura, altura) = dimensoes_imagem_cinza(img);
    let l = largura as u128;
    let a = altura as u128;
    assert(3 * l * a <= 3 * 0xffff_ffffu128 * 0xffff_ffffu128) by (nonlinear_arith)
        requires
            l <= 0xffff_ffff,
            a <= 0xffff_ffff,
    ;
    3 * l * a <= isize::MAX as u128
}

} // verus!

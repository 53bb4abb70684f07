use image::{DynamicImage, GenericImageView, GrayImage, RgbImage};
use processador_imagens::adaptativo::{
    aplicar_adaptativo_mediana_canal, filtro_adaptativo_mediana, tentar_adaptativo_mediana_canal,
    tentar_filtro_adaptativo_mediana,
};
use processador_imagens::canais::{canais_rgb, juntar_canais, tentar_juntar_canais};
use processador_imagens::decomposicao::{
    decomposicao_rgb, limiarizacao, tentar_decomposicao_rgb, tentar_limiarizacao,
};
use processador_imagens::estatistica::elemento_de_ordem;
use processador_imagens::filtros::{
    filtrar_por_ordem, filtro_max, filtro_mediana, filtro_min, tentar_filtro, Selecao,
};
use processador_imagens::canais::{cinza_para_imagem, para_tons_de_cinza};
use processador_imagens::imagem::ImagemCinza;
use processador_imagens::limites::imagem_cabe_em_rgb;
use processador_imagens::vizinhanca::n_neighbors;

fn rgb(w: u32, h: u32, dados: Vec<u8>) -> DynamicImage {
    DynamicImage::ImageRgb8(RgbImage::from_raw(w, h, dados).unwrap())
}

fn cinza_dinamica(w: u32, h: u32, dados: Vec<u8>) -> DynamicImage {
    DynamicImage::ImageLuma8(GrayImage::from_raw(w, h, dados).unwrap())
}

fn cinza(w: u32, h: u32, dados: Vec<u8>) -> ImagemCinza {
    para_tons_de_cinza(&cinza_dinamica(w, h, dados))
}

fn px(img: &DynamicImage, x: u32, y: u32) -> [u8; 4] {
    img.get_pixel(x, y).0
}

fn niveis(img: ImagemCinza) -> (u32, u32, Vec<u8>) {
    let d = cinza_para_imagem(img);
    let g = d.to_luma8();
    (g.width(), g.height(), g.into_raw())
}

// ---------------------------------------------------------------------------
// Decomposição RGB
// ---------------------------------------------------------------------------

#[test]
fn decomposicao_rgb_canais_e_nomes() {
    let img = rgb(2, 1, vec![10, 20, 30, 200, 100, 50]);
    let r = decomposicao_rgb(img);
    let nomes: Vec<&str> = r.iter().map(|(_, n)| n.as_str()).collect();
    assert_eq!(
        nomes,
        vec![
            "Canal_R",
            "Canal_G",
            "Canal_B",
            "Canal_R_pseudocoloracao",
            "Canal_G_pseudocoloracao",
            "Canal_B_pseudocoloracao"
        ]
    );
    for (i, _) in r.iter().enumerate() {
        assert_eq!(r[i].0.dimensions(), (2, 1));
        assert!(matches!(r[i].0, DynamicImage::ImageRgb8(_)));
    }
    assert_eq!(px(&r[0].0, 0, 0), [10, 10, 10, 255]);
    assert_eq!(px(&r[1].0, 1, 0), [100, 100, 100, 255]);
    assert_eq!(px(&r[2].0, 1, 0), [50, 50, 50, 255]);
    assert_eq!(px(&r[3].0, 0, 0), [10, 0, 0, 255]);
    assert_eq!(px(&r[4].0, 0, 0), [0, 20, 0, 255]);
    assert_eq!(px(&r[5].0, 1, 0), [0, 0, 50, 255]);
}

#[test]
fn decomposicao_rgb_de_imagem_cinza() {
    let img = cinza_dinamica(1, 1, vec![77]);
    let r = decomposicao_rgb(img);
    assert_eq!(px(&r[0].0, 0, 0), [77, 77, 77, 255]);
    assert_eq!(px(&r[4].0, 0, 0), [0, 77, 0, 255]);
}

#[test]
fn pseudocores_recompoem_a_cor() {
    let img = rgb(2, 2, vec![1, 2, 3, 4, 5, 6, 7, 8, 9, 250, 251, 252]);
    let r = decomposicao_rgb(img.clone());
    for y in 0..2 {
        for x in 0..2 {
            let o = px(&img, x, y);
            assert_eq!(px(&r[3].0, x, y)[0], o[0]);
            assert_eq!(px(&r[4].0, x, y)[1], o[1]);
            assert_eq!(px(&r[5].0, x, y)[2], o[2]);
        }
    }
}

#[test]
fn decomposicao_vazia() {
    let img = rgb(3, 0, vec![]);
    let r = tentar_decomposicao_rgb(img).unwrap();
    assert_eq!(r.len(), 6);
    assert_eq!(r[0].0.dimensions(), (3, 0));
}

// ---------------------------------------------------------------------------
// Limiarização
// ---------------------------------------------------------------------------

fn luminancia_olho(img: &DynamicImage) -> ImagemCinza {
    let (w, h) = img.dimensions();
    let mut dados = Vec::new();
    for y in 0..h {
        for x in 0..w {
            let p = img.get_pixel(x, y);
            dados.push((p[0] as f32 * 0.2126 + p[1] as f32 * 0.7152 + p[2] as f32 * 0.0722) as u8);
        }
    }
    cinza(w, h, dados)
}

#[test]
fn limiarizacao_quatro_imagens() {
    let img = rgb(3, 1, vec![0, 0, 0, 90, 90, 93, 255, 255, 255]);
    let lum = luminancia_olho(&img);
    let r = limiarizacao(img, 91, &lum);
    let nomes: Vec<&str> = r.iter().map(|(_, n)| n.as_str()).collect();
    assert_eq!(
        nomes,
        vec![
            "Imagem_Escala_De_Cinza_Simples",
            "Imagem_Limiarizada_Simples",
            "Imagem_Escala_De_Cinza_Adaptada",
            "Imagem_Limiarizada_Adaptada"
        ]
    );
    // média simples: (90 + 90 + 93) / 3 = 91
    assert_eq!(px(&r[0].0, 1, 0), [91, 91, 91, 255]);
    assert_eq!(px(&r[1].0, 1, 0), [255, 255, 255, 255]);
    assert_eq!(px(&r[1].0, 0, 0), [0, 0, 0, 255]);
    // nível perceptivo de (90, 90, 93): 90.2166 -> 90, abaixo do limiar 91
    assert_eq!(px(&r[2].0, 1, 0), [90, 90, 90, 255]);
    assert_eq!(px(&r[3].0, 1, 0), [0, 0, 0, 255]);
    assert_eq!(px(&r[3].0, 2, 0)[0], 255);
}

#[test]
fn limiarizacao_limiar_zero_tudo_branco() {
    let img = rgb(2, 1, vec![0, 0, 0, 3, 2, 1]);
    let lum = luminancia_olho(&img);
    let r = limiarizacao(img, 0, &lum);
    for x in 0..2 {
        assert_eq!(px(&r[1].0, x, 0), [255, 255, 255, 255]);
        assert_eq!(px(&r[3].0, x, 0), [255, 255, 255, 255]);
    }
}

#[test]
fn limiar_maior_so_escurece() {
    let img = rgb(4, 1, vec![0, 0, 0, 90, 90, 93, 120, 130, 140, 255, 255, 255]);
    let lum = luminancia_olho(&img);
    let a = limiarizacao(img.clone(), 91, &lum);
    let b = limiarizacao(img, 130, &lum);
    assert_eq!(a[0].0, b[0].0);
    assert_eq!(a[2].0, b[2].0);
    for k in [1, 3] {
        for x in 0..4 {
            if px(&b[k].0, x, 0) == [255, 255, 255, 255] {
                assert_eq!(px(&a[k].0, x, 0), [255, 255, 255, 255]);
            }
        }
    }
    // (90, 90, 93): média 91, branco com 91 e preto com 130
    assert_eq!(px(&a[1].0, 1, 0), [255, 255, 255, 255]);
    assert_eq!(px(&b[1].0, 1, 0), [0, 0, 0, 255]);
}

#[test]
fn limiarizacao_dimensoes_diferentes() {
    let img = rgb(2, 1, vec![0, 0, 0, 3, 2, 1]);
    let lum = cinza(1, 1, vec![0]);
    assert!(tentar_limiarizacao(img, 10, &lum).is_none());
}

#[test]
fn media_simples_igual_a_conta_em_ponto_flutuante() {
    for soma in 0u32..=765 {
        let r = (soma / 3).min(255) as u8;
        let a = soma.min(255);
        let b = (soma - a).min(255);
        let c = soma - a - b;
        let f = ((a as f32 + b as f32 + c as f32) / 3.0) as u8;
        assert_eq!(r, f, "soma {}", soma);
        let img = rgb(1, 1, vec![a as u8, b as u8, c as u8]);
        let lum = cinza(1, 1, vec![0]);
        let out = limiarizacao(img, 0, &lum);
        assert_eq!(px(&out[0].0, 0, 0)[0], f);
    }
}

// ---------------------------------------------------------------------------
// Vizinhança e estatística de ordem
// ---------------------------------------------------------------------------

#[test]
fn vizinhos_de_janela_3() {
    let v = n_neighbors(3, 5, 7);
    assert_eq!(
        v,
        vec![(4, 6), (5, 6), (6, 6), (4, 7), (5, 7), (6, 7), (4, 8), (5, 8), (6, 8)]
    );
}

#[test]
fn vizinhos_na_borda_e_janela_par() {
    let v = n_neighbors(0, 0, 0);
    assert_eq!(v, vec![(0, 0)]);
    let v = n_neighbors(4, 0, 0);
    assert_eq!(v.len(), 25);
    assert_eq!(v[0], (-2, -2));
    assert_eq!(v[24], (2, 2));
}

#[test]
fn elemento_de_ordem_igual_a_ordenar() {
    let mut semente: u32 = 12345;
    for n in 1..40usize {
        let mut v = Vec::new();
        for _ in 0..n {
            semente = semente.wrapping_mul(1103515245).wrapping_add(12345);
            v.push((semente >> 16) as u8);
        }
        let mut o = v.clone();
        o.sort_unstable();
        for k in 0..n {
            assert_eq!(elemento_de_ordem(&v, k), o[k]);
        }
    }
}

#[test]
fn ordem_nao_depende_da_ordem_dos_elementos() {
    let a = vec![9u8, 1, 7, 3, 3];
    let b = vec![3u8, 3, 9, 7, 1];
    for k in 0..5 {
        assert_eq!(elemento_de_ordem(&a, k), elemento_de_ordem(&b, k));
    }
    assert_eq!(elemento_de_ordem(&a, 0), 1);
    assert_eq!(elemento_de_ordem(&a, 2), 3);
    assert_eq!(elemento_de_ordem(&a, 4), 9);
}

// ---------------------------------------------------------------------------
// Filtros de mediana, mínimo e máximo
// ---------------------------------------------------------------------------

fn cinza_rgb(w: u32, h: u32, niveis: &[u8]) -> DynamicImage {
    let mut d = Vec::new();
    for v in niveis {
        d.extend_from_slice(&[*v, *v, *v]);
    }
    rgb(w, h, d)
}

#[test]
fn mediana_remove_ponto_isolado() {
    let img = cinza_rgb(3, 3, &[10, 10, 10, 10, 255, 10, 10, 10, 10]);
    let r = filtro_mediana(img, 3, 10);
    assert_eq!(r.len(), 1);
    assert_eq!(r[0].1, "mediana");
    assert!(matches!(r[0].0, DynamicImage::ImageRgb8(_)));
    assert_eq!(px(&r[0].0, 1, 1), [10, 10, 10, 255]);
}

#[test]
fn mediana_usa_o_preenchimento_na_borda() {
    // canto (0,0) de 2x2: janela 3x3 com 5 vizinhos fora = placeholder
    let img = cinza_rgb(2, 2, &[1, 2, 3, 4]);
    let r = filtro_mediana(img.clone(), 3, 200);
    // janela ordenada: 1 2 3 4 200 200 200 200 200 -> mediana (índice 4) = 200
    assert_eq!(px(&r[0].0, 0, 0)[0], 200);
    let r = filtro_mediana(img, 3, 0);
    // janela: 0 0 0 0 0 1 2 3 4 -> mediana 0
    assert_eq!(px(&r[0].0, 0, 0)[0], 0);
}

#[test]
fn minimo_e_maximo() {
    let img = cinza_rgb(3, 1, &[5, 9, 7]);
    let mn = filtro_min(img.clone(), 3, 100);
    let mx = filtro_max(img, 3, 0);
    assert_eq!(mn[0].1, "minimo");
    assert_eq!(mx[0].1, "maximo");
    assert_eq!(px(&mn[0].0, 1, 0)[0], 5);
    assert_eq!(px(&mx[0].0, 1, 0)[0], 9);
    assert_eq!(px(&mn[0].0, 0, 0)[0], 5);
    assert_eq!(px(&mx[0].0, 2, 0)[0], 9);
}

#[test]
fn filtros_por_canal() {
    let img = rgb(2, 1, vec![10, 200, 30, 40, 50, 60]);
    let mn = filtro_min(img.clone(), 3, 255);
    assert_eq!(px(&mn[0].0, 0, 0), [10, 50, 30, 255]);
    let mx = filtro_max(img, 3, 0);
    assert_eq!(px(&mx[0].0, 1, 0), [40, 200, 60, 255]);
}

#[test]
fn minimo_mediana_maximo_ordenados() {
    let mut dados = Vec::new();
    let mut s: u32 = 7;
    for _ in 0..(5 * 4 * 3) {
        s = s.wrapping_mul(1664525).wrapping_add(1013904223);
        dados.push((s >> 24) as u8);
    }
    let img = rgb(5, 4, dados);
    let mn = filtro_min(img.clone(), 3, 17);
    let md = filtro_mediana(img.clone(), 3, 17);
    let mx = filtro_max(img, 3, 17);
    for y in 0..4 {
        for x in 0..5 {
            for c in 0..3 {
                assert!(px(&mn[0].0, x, y)[c] <= px(&md[0].0, x, y)[c]);
                assert!(px(&md[0].0, x, y)[c] <= px(&mx[0].0, x, y)[c]);
            }
        }
    }
}

#[test]
fn janela_unitaria_e_identidade() {
    let img = rgb(2, 2, vec![1, 2, 3, 4, 5, 6, 7, 8, 9, 10, 11, 12]);
    for tam in 0..2u8 {
        for sel in [Selecao::Mediana, Selecao::Minimo, Selecao::Maximo] {
            let r = filtrar_por_ordem(&img, tam, 99, sel);
            for y in 0..2 {
                for x in 0..2 {
                    assert_eq!(px(&r, x, y), px(&img, x, y));
                }
            }
        }
    }
}

#[test]
fn maximo_e_minimo_da_imagem_invertida() {
    let mut dados = Vec::new();
    let mut s: u32 = 3;
    for _ in 0..(4 * 3 * 3) {
        s = s.wrapping_mul(1664525).wrapping_add(1013904223);
        dados.push((s >> 24) as u8);
    }
    let inv: Vec<u8> = dados.iter().map(|v| 255 - v).collect();
    let img = rgb(4, 3, dados);
    let n = rgb(4, 3, inv);
    for tam in [0u8, 3, 4, 5] {
        let mx = filtro_max(img.clone(), tam, 40);
        let mn = filtro_min(n.clone(), tam, 255 - 40);
        for y in 0..3 {
            for x in 0..4 {
                let a = px(&mx[0].0, x, y);
                let b = px(&mn[0].0, x, y);
                assert_eq!(a, [255 - b[0], 255 - b[1], 255 - b[2], 255]);
            }
        }
    }
}

#[test]
fn tentar_filtro_recusa_janela_grande() {
    let img = cinza_rgb(1, 1, &[3]);
    assert!(tentar_filtro(img.clone(), 16, 0, Selecao::Mediana).is_none());
    let r = tentar_filtro(img, 15, 0, Selecao::Maximo).unwrap();
    assert_eq!(r[0].1, "maximo");
    assert_eq!(px(&r[0].0, 0, 0)[0], 3);
}

// ---------------------------------------------------------------------------
// Filtro adaptativo da mediana
// ---------------------------------------------------------------------------

#[test]
fn adaptativo_troca_impulso_pela_mediana() {
    let g = cinza(3, 3, vec![10, 20, 30, 40, 255, 60, 70, 80, 90]);
    let (w, h, d) = niveis(aplicar_adaptativo_mediana_canal(&g, 3));
    assert_eq!((w, h), (3, 3));
    // pixel central 255 é o máximo da janela 3x3: vira a mediana 60
    assert_eq!(d[4], 60);
    // canto (0,0): janela 2x2 {10,20,40,255}: z = 10 é o mínimo -> mediana (índice 2) = 40
    assert_eq!(d[0], 40);
    // (1,0): janela {10,20,30,40,255,60}, z=20: min 10 < 20 < 255, mediana (índice 3) = 40
    // 10 < 40 < 255 -> fica z
    assert_eq!(d[1], 20);
}

#[test]
fn adaptativo_sem_janela_e_identidade() {
    let g = cinza(2, 2, vec![1, 200, 3, 4]);
    let (_, _, d) = niveis(aplicar_adaptativo_mediana_canal(&g, 2));
    assert_eq!(d, vec![1, 200, 3, 4]);
    let (_, _, d) = niveis(aplicar_adaptativo_mediana_canal(&g, -5));
    assert_eq!(d, vec![1, 200, 3, 4]);
}

#[test]
fn adaptativo_cresce_a_janela() {
    // 5x5 de zeros com o centro 0 e muitos impulsos 255 em volta do centro
    let mut d = vec![0u8; 25];
    for i in [6, 7, 8, 11, 13, 16, 17, 18] {
        d[i] = 255;
    }
    let g = cinza(5, 5, d.clone());
    // janela 3x3 do centro: {0, 255 x8}: z=0 é o mínimo; com max 3 -> mediana 255
    let (_, _, r3) = niveis(aplicar_adaptativo_mediana_canal(&g, 3));
    assert_eq!(r3[12], 255);
    // com max 5: janela 5x5: 17 zeros e 8 de 255; min 0 = z -> não é interior; última janela -> mediana 0
    let (_, _, r5) = niveis(aplicar_adaptativo_mediana_canal(&g, 5));
    assert_eq!(r5[12], 0);
}

#[test]
fn adaptativo_nivel_vem_da_imagem() {
    let dados: Vec<u8> = (0..36u32).map(|i| ((i * 37) % 251) as u8).collect();
    let g = cinza(6, 6, dados.clone());
    let (_, _, r) = niveis(aplicar_adaptativo_mediana_canal(&g, 7));
    for v in r {
        assert!(dados.contains(&v));
    }
}

#[test]
fn filtro_adaptativo_nome_e_variantes() {
    let img = rgb(3, 1, vec![10, 0, 0, 255, 0, 0, 30, 0, 0]);
    let r = filtro_adaptativo_mediana(img, 5);
    assert_eq!(r.len(), 1);
    assert_eq!(r[0].1, "Filtro Adaptativo Mediana (Max S=5)");
    assert!(matches!(r[0].0, DynamicImage::ImageRgb8(_)));
    // canal R: {10,255,30}, z=255 é o máximo; janela 5 igual (imagem 3x1) -> mediana 30
    assert_eq!(px(&r[0].0, 1, 0), [30, 0, 0, 255]);

    let img = cinza_dinamica(2, 1, vec![9, 9]);
    let r = filtro_adaptativo_mediana(img, 0);
    assert_eq!(r[0].1, "Filtro Adaptativo Mediana (Max S=3)");
    assert!(matches!(r[0].0, DynamicImage::ImageLuma8(_)));
    assert_eq!(px(&r[0].0, 0, 0), [9, 9, 9, 255]);
}

#[test]
fn filtro_adaptativo_kernel_enorme_e_negativo() {
    // 0x8000_0000 como i32 é negativo: nenhuma janela, a imagem não muda
    let img = cinza_dinamica(2, 1, vec![1, 250]);
    let r = filtro_adaptativo_mediana(img, 0x8000_0000);
    assert_eq!(r[0].1, "Filtro Adaptativo Mediana (Max S=-2147483648)");
    assert_eq!(px(&r[0].0, 1, 0), [250, 250, 250, 255]);
    // janela máxima i32::MAX: todo pixel desta imagem passa a etapa A já na
    // janela 3, e o filtro termina sem transbordar
    let img = cinza_dinamica(3, 3, vec![1, 2, 3, 4, 5, 6, 7, 8, 9]);
    let r = tentar_filtro_adaptativo_mediana(img, 0x7fff_ffff).unwrap();
    assert_eq!(r[0].1, "Filtro Adaptativo Mediana (Max S=2147483647)");
    let g = r[0].0.to_luma8().into_raw();
    assert_eq!(g, vec![4, 2, 3, 4, 5, 6, 7, 8, 8]);
}

#[test]
fn limites_do_kernel() {
    // um só pixel: a etapa A nunca passa; as janelas 3, 5, 7 e 9 dão todas a
    // mediana 5
    let g = cinza(1, 1, vec![5]);
    let (_, _, d) = niveis(tentar_adaptativo_mediana_canal(&g, 9).unwrap());
    assert_eq!(d, vec![5]);
    // imagem vazia: nada a calcular, qualquer janela máxima serve
    let vazia = cinza(0, 0, vec![]);
    let (w, h, d) = niveis(tentar_adaptativo_mediana_canal(&vazia, i32::MAX).unwrap());
    assert_eq!((w, h), (0, 0));
    assert!(d.is_empty());
    let vazia = cinza_dinamica(0, 4, vec![]);
    let r = tentar_filtro_adaptativo_mediana(vazia, 0x7fff_ffff).unwrap();
    assert_eq!(r[0].0.dimensions(), (0, 4));
}

#[test]
fn adaptativo_etapa_a_antes_da_etapa_b() {
    // janela 3 do centro: {50 x3, 50, 150, 100, 100 x3}: mínimo 50, mediana
    // 100, máximo 150 -> a etapa A passa; o pixel 150 é o máximo -> mediana 100
    let g = cinza(
        5,
        5,
        vec![
            200, 200, 200, 200, 200, //
            200, 50, 50, 50, 200, //
            200, 50, 150, 100, 200, //
            200, 100, 100, 100, 200, //
            200, 200, 200, 200, 200,
        ],
    );
    let (_, _, d) = niveis(aplicar_adaptativo_mediana_canal(&g, 5));
    assert_eq!(d[12], 100);
}

#[test]
fn adaptativo_rgb_e_o_filtro_de_cada_canal() {
    let mut dados = Vec::new();
    let mut s: u32 = 99;
    for _ in 0..(4 * 3 * 3) {
        s = s.wrapping_mul(1664525).wrapping_add(1013904223);
        dados.push((s >> 24) as u8);
    }
    let img = rgb(4, 3, dados.clone());
    let r = filtro_adaptativo_mediana(img.clone(), 5);
    let (cr, cg, cb) = canais_rgb(&img);
    let fr = niveis(aplicar_adaptativo_mediana_canal(&cr, 5)).2;
    let fg = niveis(aplicar_adaptativo_mediana_canal(&cg, 5)).2;
    let fb = niveis(aplicar_adaptativo_mediana_canal(&cb, 5)).2;
    assert!(matches!(r[0].0, DynamicImage::ImageRgb8(_)));
    for y in 0..3u32 {
        for x in 0..4u32 {
            let i = (y * 4 + x) as usize;
            assert_eq!(px(&r[0].0, x, y), [fr[i], fg[i], fb[i], 255]);
        }
    }
}

#[test]
fn adaptativo_cinza_e_o_filtro_do_luma8() {
    let img = DynamicImage::ImageRgba8(
        image::RgbaImage::from_raw(3, 2, vec![
            10, 20, 30, 255, 200, 0, 0, 9, 0, 0, 0, 0, //
            90, 90, 90, 255, 1, 2, 3, 4, 255, 255, 255, 255,
        ])
        .unwrap(),
    );
    let r = filtro_adaptativo_mediana(img.clone(), 3);
    let f = aplicar_adaptativo_mediana_canal(&para_tons_de_cinza(&img), 3);
    assert_eq!(r[0].0, cinza_para_imagem(f));
    assert!(matches!(r[0].0, DynamicImage::ImageLuma8(_)));
}

// ---------------------------------------------------------------------------
// Canais
// ---------------------------------------------------------------------------

#[test]
fn separar_e_juntar_canais() {
    let img = rgb(2, 1, vec![1, 2, 3, 4, 5, 6]);
    let (r, g, b) = canais_rgb(&img);
    let out = juntar_canais(&r, &g, &b);
    assert!(matches!(out, DynamicImage::ImageRgb8(_)));
    assert_eq!(px(&out, 0, 0), [1, 2, 3, 255]);
    assert_eq!(px(&out, 1, 0), [4, 5, 6, 255]);
    let (_, _, dr) = niveis(r);
    assert_eq!(dr, vec![1, 4]);
}

#[test]
fn juntar_canais_de_dimensoes_diferentes() {
    let a = cinza(2, 1, vec![1, 2]);
    let b = cinza(1, 2, vec![1, 2]);
    let c = cinza(2, 1, vec![1, 2]);
    assert!(tentar_juntar_canais(&a, &b, &c).is_none());
    assert!(tentar_juntar_canais(&a, &c, &c).is_some());
}

#[test]
fn para_cinza_calcula_luminancia() {
    let img = rgb(1, 1, vec![255, 0, 0]);
    let (_, _, d) = niveis(para_tons_de_cinza(&img));
    assert_eq!(d.len(), 1);
    assert_ne!(d[0], 255);
    assert_eq!(d[0], img.to_luma8().into_raw()[0]);
}

#[test]
fn cabe_em_rgb() {
    assert!(imagem_cabe_em_rgb(&rgb(1, 1, vec![0, 0, 0])));
}

#[test]
fn imagem_uniforme_nao_muda() {
    let img = cinza_rgb(4, 3, &[42; 12]);
    for sel in [Selecao::Mediana, Selecao::Minimo, Selecao::Maximo] {
        let r = filtrar_por_ordem(&img, 5, 42, sel);
        for y in 0..3 {
            for x in 0..4 {
                assert_eq!(px(&r, x, y), [42, 42, 42, 255]);
            }
        }
    }
}

#[test]
fn limiarizadas_so_tem_preto_e_branco() {
    let dados: Vec<u8> = (0..48u32).map(|i| ((i * 53) % 256) as u8).collect();
    let img = rgb(4, 4, dados);
    let lum = luminancia_olho(&img);
    let r = limiarizacao(img, 100, &lum);
    for y in 0..4 {
        for x in 0..4 {
            for k in [1, 3] {
                let p = px(&r[k].0, x, y);
                assert!(p[0] == 0 || p[0] == 255);
                let c = px(&r[k - 1].0, x, y)[0];
                assert_eq!(p[0], if c >= 100 { 255 } else { 0 });
            }
        }
    }
}

#[test]
fn minimo_ate_pixel_ate_maximo() {
    let dados: Vec<u8> = (0..60u32).map(|i| ((i * 97 + 13) % 256) as u8).collect();
    let img = rgb(5, 4, dados);
    let mn = filtro_min(img.clone(), 5, 0);
    let mx = filtro_max(img.clone(), 5, 0);
    for y in 0..4 {
        for x in 0..5 {
            for c in 0..3 {
                assert!(px(&mn[0].0, x, y)[c] <= px(&img, x, y)[c]);
                assert!(px(&img, x, y)[c] <= px(&mx[0].0, x, y)[c]);
            }
        }
    }
}

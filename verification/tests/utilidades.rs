use image::{DynamicImage, GrayImage};
use processador_imagens::canais::{cinza_para_imagem, para_tons_de_cinza};
use processador_imagens::interface::{
    indice_para_salvar, indice_selecionado, processo_por_nome, Processo,
};
use processador_imagens::matriz::transpor_matriz;
use processador_imagens::texto::{
    caminho_arquivo, caminhos_decomposicao_rgb, escrita_decimal, textos_iguais,
};

#[test]
fn transpor_2_por_3() {
    // 2 linhas, 3 colunas
    let m = vec![1, 2, 3, 4, 5, 6];
    let t = transpor_matriz(&m, 3, 2, 0);
    assert_eq!(t, vec![1, 4, 2, 5, 3, 6]);
    let u = transpor_matriz(&t, 2, 3, 0);
    assert_eq!(u, m);
}

#[test]
fn transpor_com_sobra() {
    let m = vec![1, 2, 3, 4, 9, 9];
    let t = transpor_matriz(&m, 2, 2, 0);
    assert_eq!(t, vec![1, 3, 2, 4, 0, 0]);
    let vazio: Vec<u8> = vec![];
    assert_eq!(transpor_matriz(&vazio, 0, 7, 0), vazio);
}

#[test]
fn transpor_duas_vezes_devolve_a_matriz() {
    let m: Vec<u32> = (0..35).collect();
    let t = transpor_matriz(&m, 7, 5, 0);
    assert_eq!(transpor_matriz(&t, 5, 7, 0), m);
}

#[test]
fn caminho_com_e_sem_barra() {
    assert_eq!(caminho_arquivo("saida", "foto", "R.png"), "saida/fotoR.png");
    assert_eq!(caminho_arquivo("saida/", "foto", "R.png"), "saida/fotoR.png");
    assert_eq!(caminho_arquivo("saida///", "foto", "R.png"), "saida/fotoR.png");
    assert_eq!(caminho_arquivo("", "foto", "R.png"), "/fotoR.png");
    assert_eq!(caminho_arquivo("/", "f", ".png"), "/f.png");
    assert_eq!(caminho_arquivo("ação/", "ção", "B.png"), "ação/çãoB.png");
}

#[test]
fn seis_caminhos_da_decomposicao() {
    let c = caminhos_decomposicao_rgb("d/", "n");
    assert_eq!(
        c,
        vec!["d/nR.png", "d/nG.png", "d/nB.png", "d/npseudoR.png", "d/npseudoG.png", "d/npseudoB.png"]
    );
}

#[test]
fn comparacao_de_textos() {
    assert!(textos_iguais("Limiarização", "Limiarização"));
    assert!(!textos_iguais("Limiarização", "Limiarizacao"));
    assert!(!textos_iguais("a", "ab"));
    assert!(textos_iguais("", ""));
}

#[test]
fn processo_pelo_nome() {
    assert_eq!(processo_por_nome("Decomposição RGB"), Some(Processo::DecomposicaoRgb));
    assert_eq!(processo_por_nome("Decomposição HSV"), Some(Processo::DecomposicaoHsv));
    assert_eq!(processo_por_nome("Limiarização"), Some(Processo::Limiarizacao));
    assert_eq!(
        processo_por_nome("Transf. Logarítmica"),
        Some(Processo::TransformacaoLogaritmica)
    );
    assert_eq!(
        processo_por_nome("Transformação Potência"),
        Some(Processo::TransformacaoPotencia)
    );
    assert_eq!(processo_por_nome("Filtro de Mediana"), None);
    assert_eq!(processo_por_nome("decomposição rgb"), None);
}

#[test]
fn indice_a_salvar() {
    assert_eq!(indice_para_salvar(-1, 3), Some(0));
    assert_eq!(indice_para_salvar(-1, 0), None);
    assert_eq!(indice_para_salvar(2, 3), Some(2));
    assert_eq!(indice_para_salvar(3, 3), None);
}

#[test]
fn indice_na_galeria() {
    assert_eq!(indice_selecionado(1, 2), Some(1));
    assert_eq!(indice_selecionado(2, 2), None);
    assert_eq!(indice_selecionado(-1, 2), None);
    assert_eq!(indice_selecionado(i32::MIN, 5), None);
}

#[test]
fn cinza_ida_e_volta() {
    let g = GrayImage::from_raw(3, 1, vec![7, 8, 9]).unwrap();
    let c = para_tons_de_cinza(&DynamicImage::ImageLuma8(g.clone()));
    let d = cinza_para_imagem(c);
    assert_eq!(d, DynamicImage::ImageLuma8(g.clone()));
    let c2 = para_tons_de_cinza(&d);
    assert_eq!(cinza_para_imagem(c2).to_luma8(), g);
}

#[test]
fn escrita_decimal_de_i32() {
    assert_eq!(escrita_decimal(0), "0");
    assert_eq!(escrita_decimal(7), "7");
    assert_eq!(escrita_decimal(10), "10");
    assert_eq!(escrita_decimal(-305), "-305");
    assert_eq!(escrita_decimal(i32::MAX), "2147483647");
    assert_eq!(escrita_decimal(i32::MIN), "-2147483648");
    for v in [-1000, -99, -1, 1, 9, 99, 100, 65535, 1 << 30] {
        assert_eq!(escrita_decimal(v), v.to_string());
    }
}

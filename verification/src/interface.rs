//! Decisões da interface: que processo um nome escolhe e que resultado se
//! mostra ou grava.
use vstd::prelude::*;
use crate::texto::textos_iguais;

verus! {

/// Os processos que a interface sabe executar.
#[derive(Clone, Copy, PartialEq, Eq, Debug)]
pub enum Processo {
    DecomposicaoRgb,
    DecomposicaoHsv,
    Limiarizacao,
    TransformacaoLogaritmica,
    TransformacaoPotencia,
}

/// O processo que um nome da lista de filtros escolhe, se algum.
pub open spec fn processo_do_nome(nome: Seq<char>) -> Option<Processo> {
    if nome == "Decomposição RGB"@ {
        Some(Processo::DecomposicaoRgb)
    } else if nome == "Decomposição HSV"@ {
        Some(Processo::DecomposicaoHsv)
    } else if nome == "Limiarização"@ {
        Some(Processo::Limiarizacao)
    } else if nome == "Transf. Logarítmica"@ {
        Some(Processo::TransformacaoLogaritmica)
    } else if nome == "Transformação Potência"@ {
        Some(Processo::TransformacaoPotencia)
    } else {
        None
    }
}

/// Escolhe o processo pelo nome exato que a lista de filtros mostra; `None`
/// para um nome ainda sem processo.
pub fn processo_por_nome(nome: &str) -> (r: Option<Processo>)
    ensures
        r == processo_do_nome(nome@),
{
    if textos_iguais(nome, "Decomposição RGB") {
        Some(Processo::DecomposicaoRgb)
    } else if textos_iguais(nome, "Decomposição HSV") {
        Some(Processo::DecomposicaoHsv)
    } else if textos_iguais(nome, "Limiarização") {
        Some(Processo::Limiarizacao)
    } else if textos_iguais(nome, "Transf. Logarítmica") {
        Some(Processo::TransformacaoLogaritmica)
    } else if textos_iguais(nome, "Transformação Potência") {
        Some(Processo::TransformacaoPotencia)
    } else {
        None
    }
}

/// O resultado que "Salvar" grava entre `n` resultados: o selecionado, se o
/// índice não é negativo (e `None` se não existe); sem seleção (índice
/// negativo), o primeiro, se houver.
pub fn indice_para_salvar(indice: i32, n: usize) -> (r: Option<usize>)
    ensures
        r == if indice >= 0 {
            if indice < n {
                Some(indice as usize)
            } else {
                None
            }
        } else if n > 0 {
            Some(0usize)
        } else {
            None
        },
        r matches Some(i) ==> i < n,
{
    if indice >= 0 {
        if (indice as usize) < n {
            Some(indice as usize)
        } else {
            None
        }
    } else if n > 0 {
        Some(0)
    } else {
        None
    }
}

/// O resultado que a galeria mostra ao clicar no índice `indice` entre `n`
/// resultados: ele mesmo, se existe; nenhum, se não.
pub fn indice_selecionado(indice: i32, n: usize) -> (r: Option<usize>)
    ensures
        r == if 0 <= indice < n {
            Some(indice as usize)
        } else {
            None
        },
        r matches Some(i) ==> i < n,
{
    if indice >= 0 && (indice as usize) < n {
        Some(indice as usize)
    } else {
        None
    }
}

/// Lei: só os cinco nomes da lista que têm processo escolhem um, cada um o
/// seu: "Decomposição RGB", "Decomposição HSV", "Limiarização",
/// "Transf. Logarítmica" e "Transformação Potência". Qualquer outro nome
/// (um item da lista ainda sem processo, um nome com outra grafia) não
/// escolhe nenhum.
pub proof fn lei_processo_so_dos_cinco_nomes(nome: Seq<char>)
    ensures
        processo_do_nome(nome) is Some <==> (nome == "Decomposição RGB"@ || nome == "Decomposição HSV"@
            || nome == "Limiarização"@ || nome == "Transf. Logarítmica"@ || nome
            == "Transformação Potência"@),
        nome == "Decomposição RGB"@ ==> processo_do_nome(nome) == Some(Processo::DecomposicaoRgb),
        nome == "Decomposição HSV"@ ==> processo_do_nome(nome) == Some(Processo::DecomposicaoHsv),
        nome == "Limiarização"@ ==> processo_do_nome(nome) == Some(Processo::Limiarizacao),
        nome == "Transf. Logarítmica"@ ==> processo_do_nome(nome) == Some(
            Processo::TransformacaoLogaritmica,
        ),
        nome == "Transformação Potência"@ ==> processo_do_nome(nome) == Some(
            Processo::TransformacaoPotencia,
        ),
{
    reveal_strlit("Decomposição RGB");
    reveal_strlit("Decomposição HSV");
    reveal_strlit("Limiarização");
    reveal_strlit("Transf. Logarítmica");
    reveal_strlit("Transformação Potência");
    assert("Decomposição RGB"@[13] != "Decomposição HSV"@[13]);
    assert("Decomposição RGB"@.len() != "Limiarização"@.len());
    assert("Decomposição RGB"@.len() != "Transf. Logarítmica"@.len());
    assert("Decomposição RGB"@[0] != "Transformação Potência"@[0]);
    assert("Decomposição HSV"@.len() != "Limiarização"@.len());
    assert("Decomposição HSV"@.len() != "Transf. Logarítmica"@.len());
    assert("Decomposição HSV"@[0] != "Transformação Potência"@[0]);
    assert("Limiarização"@.len() != "Transf. Logarítmica"@.len());
    assert("Limiarização"@[0] != "Transformação Potência"@[0]);
    assert("Transf. Logarítmica"@.len() != "Transformação Potência"@.len());
}

} // verus!

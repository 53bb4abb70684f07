//! Textos: nomes de resultados, caminhos de arquivo e a escolha do processo
//! pelo nome.
use vstd::prelude::*;

verus! {

/// O algarismo decimal `d` (0 a 9).
pub open spec fn algarismo(d: int) -> char {
    (48 + d) as char
}

/// Os algarismos decimais de `n`, sem zeros à esquerda.
pub open spec fn algarismos(n: nat) -> Seq<char>
    decreases n,
{
    if n < 10 {
        seq![algarismo(n as int)]
    } else {
        algarismos(n / 10).push(algarismo((n % 10) as int))
    }
}

/// A escrita decimal de `v`, com `-` à frente dos negativos.
pub open spec fn decimal(v: int) -> Seq<char> {
    if v < 0 {
        seq!['-'] + algarismos((-v) as nat)
    } else {
        algarismos(v as nat)
    }
}

/// O texto de um só algarismo decimal.
fn texto_algarismo(d: u8) -> (r: &'static str)
    requires
        d < 10,
    ensures
        r@ == seq![algarismo(d as int)],
{
    match d {
        0 => {
            proof {
                reveal_strlit("0");
            }
            "0"
        },
        1 => {
            proof {
                reveal_strlit("1");
            }
            "1"
        },
        2 => {
            proof {
                reveal_strlit("2");
            }
            "2"
        },
        3 => {
            proof {
                reveal_strlit("3");
            }
            "3"
        },
        4 => {
            proof {
                reveal_strlit("4");
            }
            "4"
        },
        5 => {
            proof {
                reveal_strlit("5");
            }
            "5"
        },
        6 => {
            proof {
                reveal_strlit("6");
            }
            "6"
        },
        7 => {
            proof {
                reveal_strlit("7");
            }
            "7"
        },
        8 => {
            proof {
                reveal_strlit("8");
            }
            "8"
        },
        _ => {
            proof {
                reveal_strlit("9");
            }
            "9"
        },
    }
}

/// Acrescenta a `s` os algarismos decimais de `n`.
fn escreve_algarismos(n: u64, s: &mut String)
    ensures
        final(s)@ == old(s)@ + algarismos(n as nat),
    decreases n,
{
    if n >= 10 {
        escreve_algarismos(n / 10, s);
    }
    let d = (n % 10) as u8;
    s.append(texto_algarismo(d));
    proof {
        if n >= 10 {
            assert(old(s)@ + algarismos((n / 10) as nat) + seq![algarismo(d as int)]
                =~= old(s)@ + algarismos((n / 10) as nat).push(algarismo(d as int)));
        }
    }
}

/// A escrita decimal de `v`, com `-` à frente dos negativos (o que
/// `ToString::to_string` dá para um `i32`).
pub fn escrita_decimal(v: i32) -> (r: String)
    ensures
        r@ == decimal(v as int),
{
    let mut s = String::new();
    if v < 0 {
        s.append("-");
        proof {
            reveal_strlit("-");
        }
        let m: i64 = v as i64;
        escreve_algarismos((-m) as u64, &mut s);
    } else {
        escreve_algarismos(v as u64, &mut s);
    }
    s
}

/// `s` sem as barras `/` do fim.
pub open spec fn sem_barras_finais(s: Seq<char>) -> Seq<char>
    decreases s.len(),
{
    if s.len() > 0 && s.last() == '/' {
        sem_barras_finais(s.drop_last())
    } else {
        s
    }
}

/// O caminho `dir/nome` seguido de `sufixo`, com as barras do fim de `dir`
/// reduzidas a uma só.
pub fn caminho_arquivo(dir: &str, nome: &str, sufixo: &str) -> (r: String)
    ensures
        r@ == sem_barras_finais(dir@) + seq!['/'] + nome@ + sufixo@,
{
    let n = dir.unicode_len();
    let mut fim: usize = n;
    proof {
        assert(dir@.subrange(0, n as int) =~= dir@);
    }
    while fim > 0 && dir.get_char(fim - 1) == '/'
        invariant
            n == dir@.len(),
            fim <= n,
            sem_barras_finais(dir@) == sem_barras_finais(dir@.subrange(0, fim as int)),
        decreases fim,
    {
        proof {
            assert(dir@.subrange(0, fim as int).drop_last() =~= dir@.subrange(0, fim - 1));
        }
        fim = fim - 1;
    }
    let base = dir.substring_char(0, fim);
    let mut s = String::from_str(base);
    s.append("/");
    s.append(nome);
    s.append(sufixo);
    proof {
        reveal_strlit("/");
        assert(sem_barras_finais(dir@.subrange(0, fim as int)) == dir@.subrange(0, fim as int));
    }
    s
}

/// Os seis caminhos em que a decomposição RGB é gravada, na ordem dos
/// canais R, G, B e das pseudocolorações de R, G e B.
pub fn caminhos_decomposicao_rgb(dir: &str, nome: &str) -> (r: Vec<String>)
    ensures
        r@.len() == 6,
        r@[0]@ == sem_barras_finais(dir@) + seq!['/'] + nome@ + "R.png"@,
        r@[1]@ == sem_barras_finais(dir@) + seq!['/'] + nome@ + "G.png"@,
        r@[2]@ == sem_barras_finais(dir@) + seq!['/'] + nome@ + "B.png"@,
        r@[3]@ == sem_barras_finais(dir@) + seq!['/'] + nome@ + "pseudoR.png"@,
        r@[4]@ == sem_barras_finais(dir@) + seq!['/'] + nome@ + "pseudoG.png"@,
        r@[5]@ == sem_barras_finais(dir@) + seq!['/'] + nome@ + "pseudoB.png"@,
{
    let mut v: Vec<String> = Vec::new();
    v.push(caminho_arquivo(dir, nome, "R.png"));
    v.push(caminho_arquivo(dir, nome, "G.png"));
    v.push(caminho_arquivo(dir, nome, "B.png"));
    v.push(caminho_arquivo(dir, nome, "pseudoR.png"));
    v.push(caminho_arquivo(dir, nome, "pseudoG.png"));
    v.push(caminho_arquivo(dir, nome, "pseudoB.png"));
    v
}

/// Se `a` e `b` são o mesmo texto.
pub fn textos_iguais(a: &str, b: &str) -> (r: bool)
    ensures
        r == (a@ == b@),
{
    let n = a.unicode_len();
    if n != b.unicode_len() {
        return false;
    }
    let mut i: usize = 0;
    while i < n
        invariant
            n == a@.len(),
            n == b@.len(),
            i <= n,
            forall|j: int| 0 <= j < i ==> a@[j] == b@[j],
        decreases n - i,
    {
        if a.get_char(i) != b.get_char(i) {
            return false;
        }
        i = i + 1;
    }
    assert(a@ =~= b@);
    true
}

/// Lei: uma barra a mais no fim do diretório não muda o caminho; `"d"` e
/// `"d/"` (ou `"d//"`) levam ao mesmo arquivo.
pub proof fn lei_barra_final_indiferente(dir: Seq<char>)
    ensures
        sem_barras_finais(dir.push('/')) == sem_barras_finais(dir),
{
    assert(dir.push('/').drop_last() =~= dir);
}

/// O número que uma sequência de algarismos decimais escreve, lida da
/// esquerda para a direita.
pub open spec fn valor_decimal(s: Seq<char>) -> int
    decreases s.len(),
{
    if s.len() == 0 {
        0
    } else {
        valor_decimal(s.drop_last()) * 10 + (s.last() as int - 48)
    }
}

/// Só algarismos de `'0'` a `'9'`.
pub open spec fn so_algarismos(s: Seq<char>) -> bool {
    forall|i: int| 0 <= i < s.len() ==> '0' <= #[trigger] s[i] && s[i] <= '9'
}

/// Os algarismos de `n`: ao menos um, todos decimais, sem zero à esquerda
/// (salvo o próprio 0), e lidos de volta dão `n`.
proof fn lemma_algarismos(n: nat)
    ensures
        algarismos(n).len() >= 1,
        so_algarismos(algarismos(n)),
        n >= 1 ==> algarismos(n)[0] != '0',
        valor_decimal(algarismos(n)) == n,
    decreases n,
{
    if n >= 10 {
        lemma_algarismos(n / 10);
        let a = algarismos(n / 10);
        let d = algarismo((n % 10) as int);
        assert(algarismos(n) == a.push(d));
        assert(a.push(d).drop_last() =~= a);
        assert(a.push(d)[0] == a[0]);
    } else {
        assert(valor_decimal(algarismos(n).drop_last()) == 0);
    }
}

/// Lei: a escrita decimal de um inteiro, lida de volta, dá o próprio número:
/// a de um não negativo só tem algarismos, sem zero à esquerda, e vale `v`;
/// a de um negativo é `-` seguido da escrita de `-v`.
pub proof fn lei_decimal_le_de_volta(v: int)
    ensures
        v >= 0 ==> so_algarismos(decimal(v)) && decimal(v).len() >= 1 && valor_decimal(decimal(v)) == v,
        v >= 1 ==> decimal(v)[0] != '0',
        v < 0 ==> decimal(v)[0] == '-' && decimal(v).drop_first() == decimal(-v),
{
    if v >= 0 {
        lemma_algarismos(v as nat);
    } else {
        assert((seq!['-'] + algarismos((-v) as nat)).drop_first() =~= algarismos((-v) as nat));
    }
}

} // verus!

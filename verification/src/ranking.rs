//! O ranking de jogadores: cada jogador pontua cem pontos por vitória e a
//! lista sai da maior pontuação para a menor, mantendo a ordem de entrada
//! entre pontuações iguais.

use serde_json::Value;
use vstd::prelude::*;
use vstd::string::*;

verus! {

broadcast use vstd::seq_lib::group_seq_properties, vstd::seq_lib::group_to_multiset_ensures;

/// Uma linha do ranking.
#[derive(Debug)]
pub struct RegistroRanking {
    pub nome_login: String,
    pub pontuacao: i32,
    pub is_current_user: bool,
}

/// O que o ranking lê de cada usuário guardado: o login e o número de
/// vitórias, cada um só se estiver presente e for do tipo certo.
#[derive(Debug)]
pub struct EntradaRanking {
    pub login: Option<String>,
    pub vitorias: Option<i64>,
}

/// As vitórias da entrada como `i32` (0 se ausentes).
pub open spec fn vitorias_da_entrada(e: EntradaRanking) -> i32 {
    match e.vitorias {
        Some(v) => v as i32,
        None => 0,
    }
}

/// O login da entrada, ou `"Desconhecido"` se ausente.
pub open spec fn login_da_entrada(e: EntradaRanking) -> Seq<char> {
    match e.login {
        Some(l) => l@,
        None => "Desconhecido"@,
    }
}

/// A pontuação cabe num `i32`.
pub open spec fn pontuacao_cabe(e: EntradaRanking) -> bool {
    -21474836 <= vitorias_da_entrada(e) <= 21474836
}

/// A linha do ranking de uma entrada: o login (ou `"Desconhecido"`), cem
/// pontos por vitória, e se é o usuário atual.
pub fn registro_da_entrada(entrada: &EntradaRanking, usuario_atual: &str) -> (r: RegistroRanking)
    requires
        pontuacao_cabe(*entrada),
    ensures
        r.nome_login@ == login_da_entrada(*entrada),
        r.pontuacao == vitorias_da_entrada(*entrada) * 100,
        r.is_current_user == (login_da_entrada(*entrada) == usuario_atual@),
{
    let login = match &entrada.login {
        Some(l) => l.clone(),
        None => String::from_str("Desconhecido"),
    };
    let vitorias: i32 = match entrada.vitorias {
        Some(v) => v as i32,
        None => 0,
    };
    let atual = String::from_str(usuario_atual);
    let is_current_user = login == atual;
    RegistroRanking { nome_login: login, pontuacao: vitorias * 100, is_current_user }
}

/// As linhas do ranking, na ordem das entradas.
pub fn ler_dados_ranking(entradas: &Vec<EntradaRanking>, usuario_atual: &str) -> (r: Vec<RegistroRanking>)
    requires
        forall|i: int| 0 <= i < entradas@.len() ==> pontuacao_cabe(#[trigger] entradas@[i]),
    ensures
        r@.len() == entradas@.len(),
        forall|i: int|
            0 <= i < r@.len() ==> {
                &&& (#[trigger] r@[i]).nome_login@ == login_da_entrada(entradas@[i])
                &&& r@[i].pontuacao == vitorias_da_entrada(entradas@[i]) * 100
                &&& r@[i].is_current_user == (login_da_entrada(entradas@[i]) == usuario_atual@)
            },
{
    let mut r: Vec<RegistroRanking> = Vec::new();
    let mut i: usize = 0;
    while i < entradas.len()
        invariant
            forall|j: int| 0 <= j < entradas@.len() ==> pontuacao_cabe(#[trigger] entradas@[j]),
            i <= entradas@.len(),
            r@.len() == i,
            forall|j: int|
                0 <= j < i ==> {
                    &&& (#[trigger] r@[j]).nome_login@ == login_da_entrada(entradas@[j])
                    &&& r@[j].pontuacao == vitorias_da_entrada(entradas@[j]) * 100
                    &&& r@[j].is_current_user == (login_da_entrada(entradas@[j]) == usuario_atual@)
                },
        decreases entradas@.len() - i,
    {
        let registro = registro_da_entrada(&entradas[i], usuario_atual);
        r.push(registro);
        i = i + 1;
    }
    r
}

/// Uma entrada do ranking vista como valores: o login como texto e as
/// vitórias, cada um se presente.
pub open spec fn vista_da_entrada(e: EntradaRanking) -> (Option<Seq<char>>, Option<i64>) {
    (
        match e.login {
            Some(l) => Some(l@),
            None => None,
        },
        e.vitorias,
    )
}

/// O que `serde_json::from_str::<Value>` lê do texto dos usuários guardados,
/// item a item: o campo "login" se for texto e o campo "vitorias" se for
/// inteiro. Um texto que não é JSON, ou não é uma lista, não dá nenhuma
/// entrada.
pub uninterp spec fn entradas_json(texto: Seq<char>) -> Seq<(Option<Seq<char>>, Option<i64>)>;

/// Lê as entradas do ranking do texto JSON dos usuários guardados com
/// `serde_json::from_str::<Value>`: de cada item de uma lista, o campo
/// "login" (`as_str`) e o campo "vitorias" (`as_i64`). O contrato nomeia o
/// resultado, que depende só do texto.
#[verifier::external_body]
fn ler_entradas(texto: &str) -> (r: Vec<EntradaRanking>)
    ensures
        r@.map_values(|e: EntradaRanking| vista_da_entrada(e)) == entradas_json(texto@),
{
    let valor = serde_json::from_str::<Value>(texto).ok();
    let itens = valor.as_ref().and_then(|v| v.as_array()).cloned().unwrap_or_default();
    itens.iter().map(|item| EntradaRanking {
        login: item.get("login").and_then(|v| v.as_str()).map(|l| l.to_string()),
        vitorias: item.get("vitorias").and_then(|v| v.as_i64()),
    }).collect()
}

/// O login de uma entrada vista, ou `"Desconhecido"` se ausente.
pub open spec fn login_visto(e: (Option<Seq<char>>, Option<i64>)) -> Seq<char> {
    match e.0 {
        Some(l) => l,
        None => "Desconhecido"@,
    }
}

/// As vitórias de uma entrada vista como `i32` (0 se ausentes).
pub open spec fn vitorias_vistas(e: (Option<Seq<char>>, Option<i64>)) -> i32 {
    match e.1 {
        Some(v) => v as i32,
        None => 0,
    }
}

/// A pontuação da entrada vista cabe num `i32`.
pub open spec fn pontuacao_vista_cabe(e: (Option<Seq<char>>, Option<i64>)) -> bool {
    -21474836 <= vitorias_vistas(e) <= 21474836
}

/// `r` é a linha do ranking da entrada vista `e` para o usuário atual.
pub open spec fn linha_da_entrada(r: RegistroRanking, e: (Option<Seq<char>>, Option<i64>), usuario_atual: Seq<char>) -> bool {
    &&& r.nome_login@ == login_visto(e)
    &&& r.pontuacao == vitorias_vistas(e) * 100
    &&& r.is_current_user == (login_visto(e) == usuario_atual)
}

/// As linhas do ranking lidas do texto JSON dos usuários guardados, na
/// ordem dos itens.
pub fn dados_do_ranking(texto: &str, usuario_atual: &str) -> (r: Vec<RegistroRanking>)
    requires
        forall|i: int|
            0 <= i < entradas_json(texto@).len() ==> pontuacao_vista_cabe(#[trigger] entradas_json(texto@)[i]),
    ensures
        r@.len() == entradas_json(texto@).len(),
        forall|i: int|
            0 <= i < r@.len() ==> linha_da_entrada(#[trigger] r@[i], entradas_json(texto@)[i], usuario_atual@),
{
    let entradas = ler_entradas(texto);
    let ghost vistas = entradas@.map_values(|e: EntradaRanking| vista_da_entrada(e));
    assert forall|i: int| 0 <= i < entradas@.len() implies pontuacao_cabe(#[trigger] entradas@[i]) by {
        assert(vistas[i] == vista_da_entrada(entradas@[i]));
    }
    let r = ler_dados_ranking(&entradas, usuario_atual);
    assert forall|i: int| 0 <= i < r@.len() implies linha_da_entrada(
        #[trigger] r@[i],
        entradas_json(texto@)[i],
        usuario_atual@,
    ) by {
        assert(vistas[i] == vista_da_entrada(entradas@[i]));
    }
    r
}

/// As linhas do ranking lidas do texto JSON, ou `None` se a pontuação de
/// algum item (cem por vitória) não cabe num `i32`.
pub fn dados_do_ranking_conferidos(texto: &str, usuario_atual: &str) -> (r: Option<Vec<RegistroRanking>>)
    ensures
        r is None <==> exists|i: int|
            0 <= i < entradas_json(texto@).len() && !pontuacao_vista_cabe(#[trigger] entradas_json(texto@)[i]),
        r matches Some(v) ==> {
            &&& v@.len() == entradas_json(texto@).len()
            &&& forall|i: int|
                0 <= i < v@.len() ==> linha_da_entrada(#[trigger] v@[i], entradas_json(texto@)[i], usuario_atual@)
        },
{
    let entradas = ler_entradas(texto);
    let ghost vistas = entradas@.map_values(|e: EntradaRanking| vista_da_entrada(e));
    let mut i: usize = 0;
    while i < entradas.len()
        invariant
            i <= entradas@.len(),
            vistas == entradas_json(texto@),
            vistas == entradas@.map_values(|e: EntradaRanking| vista_da_entrada(e)),
            forall|j: int| 0 <= j < i ==> pontuacao_vista_cabe(#[trigger] vistas[j]),
        decreases entradas@.len() - i,
    {
        let v: i32 = match entradas[i].vitorias {
            Some(n) => n as i32,
            None => 0,
        };
        assert(vistas[i as int] == vista_da_entrada(entradas@[i as int]));
        if v < -21474836 || v > 21474836 {
            return None;
        }
        i = i + 1;
    }
    Some(dados_do_ranking(texto, usuario_atual))
}

/// Onde entra, numa lista já ordenada, um registro de pontuação `p`: antes
/// do primeiro registro de pontuação menor.
pub open spec fn posicao_de_insercao(r: Seq<RegistroRanking>, p: i32) -> int
    decreases r.len(),
{
    if r.len() == 0 {
        0
    } else if r[0].pontuacao < p {
        0
    } else {
        1 + posicao_de_insercao(r.drop_first(), p)
    }
}

/// Insere `e` na lista ordenada `r`, depois de todos os de pontuação maior
/// ou igual.
pub open spec fn inserir_ordenado(r: Seq<RegistroRanking>, e: RegistroRanking) -> Seq<RegistroRanking> {
    r.insert(posicao_de_insercao(r, e.pontuacao), e)
}

/// A ordenação do ranking: insere os registros um a um, na ordem dada.
pub open spec fn ordenacao(s: Seq<RegistroRanking>) -> Seq<RegistroRanking>
    decreases s.len(),
{
    if s.len() == 0 {
        s
    } else {
        inserir_ordenado(ordenacao(s.drop_last()), s.last())
    }
}

/// Da maior pontuação para a menor.
pub open spec fn ordenado(r: Seq<RegistroRanking>) -> bool {
    forall|i: int, j: int| 0 <= i < j < r.len() ==> r[i].pontuacao >= r[j].pontuacao
}

/// Os registros de pontuação `p`.
pub open spec fn com_pontuacao(p: i32) -> spec_fn(RegistroRanking) -> bool {
    |e: RegistroRanking| e.pontuacao == p
}

/// Onde o registro entra: antes dela, só pontuações maiores ou iguais; ali,
/// uma menor.
pub proof fn lema_posicao_de_insercao(r: Seq<RegistroRanking>, p: i32)
    ensures
        0 <= posicao_de_insercao(r, p) <= r.len(),
        forall|k: int| 0 <= k < posicao_de_insercao(r, p) ==> r[k].pontuacao >= p,
        posicao_de_insercao(r, p) < r.len() ==> r[posicao_de_insercao(r, p)].pontuacao < p,
    decreases r.len(),
{
    if r.len() > 0 && r[0].pontuacao >= p {
        lema_posicao_de_insercao(r.drop_first(), p);
        assert forall|k: int| 0 <= k < posicao_de_insercao(r, p) implies r[k].pontuacao >= p by {
            if k > 0 {
                assert(r[k] == r.drop_first()[k - 1]);
            }
        }
    }
}

/// Inserir na posição certa mantém a lista ordenada.
pub proof fn lema_insercao_ordenada(r: Seq<RegistroRanking>, e: RegistroRanking)
    requires
        ordenado(r),
    ensures
        ordenado(inserir_ordenado(r, e)),
{
    lema_posicao_de_insercao(r, e.pontuacao);
    let j = posicao_de_insercao(r, e.pontuacao);
    let t = inserir_ordenado(r, e);
    assert forall|a: int, b: int| 0 <= a < b < t.len() implies t[a].pontuacao >= t[b].pontuacao by {
        if b < j {
        } else if b == j {
            assert(t[a] == r[a]);
        } else if a < j {
            assert(t[b] == r[b - 1]);
        } else if a == j {
            assert(t[b] == r[b - 1]);
            assert(r[j].pontuacao < e.pontuacao);
        } else {
        }
    }
}

/// Sem registro que o predicado aceite, o filtro é vazio.
pub proof fn lema_filtro_vazio(s: Seq<RegistroRanking>, pred: spec_fn(RegistroRanking) -> bool)
    requires
        forall|k: int| 0 <= k < s.len() ==> !pred(#[trigger] s[k]),
    ensures
        s.filter(pred) =~= Seq::<RegistroRanking>::empty(),
    decreases s.len(),
{
    reveal(Seq::filter);
    if s.len() > 0 {
        assert(!pred(s[s.len() - 1]));
        assert forall|k: int| 0 <= k < s.drop_last().len() implies !pred(#[trigger] s.drop_last()[k]) by {
            assert(s.drop_last()[k] == s[k]);
        }
        lema_filtro_vazio(s.drop_last(), pred);
    }
}

/// Inserir um registro na posição certa de uma lista ordenada: entre os de
/// pontuação `p`, ele vem depois de todos (se tem pontuação `p`) ou não
/// aparece.
pub proof fn lema_filtro_da_insercao(r: Seq<RegistroRanking>, e: RegistroRanking, p: i32)
    requires
        ordenado(r),
    ensures
        inserir_ordenado(r, e).filter(com_pontuacao(p)) == if e.pontuacao == p {
            r.filter(com_pontuacao(p)).push(e)
        } else {
            r.filter(com_pontuacao(p))
        },
{
    lema_posicao_de_insercao(r, e.pontuacao);
    let j = posicao_de_insercao(r, e.pontuacao);
    let pred = com_pontuacao(p);
    let a = r.take(j);
    let b = r.skip(j);
    assert(r =~= a + b);
    assert(inserir_ordenado(r, e) =~= a + seq![e] + b);
    Seq::filter_distributes_over_add(a, b, pred);
    Seq::filter_distributes_over_add(a + seq![e], b, pred);
    Seq::filter_distributes_over_add(a, seq![e], pred);
    reveal_with_fuel(Seq::<_>::filter, 2);
    assert(seq![e].drop_last() =~= Seq::<RegistroRanking>::empty());
    if e.pontuacao == p {
        assert forall|k: int| 0 <= k < b.len() implies !pred(#[trigger] b[k]) by {
            if j + k > j {
                assert(r[j + k].pontuacao <= r[j].pontuacao);
            }
        }
        lema_filtro_vazio(b, pred);
        assert(a.filter(pred) + seq![e] =~= a.filter(pred).push(e));
    }
}

/// A ordenação do ranking sai ordenada da maior pontuação para a menor.
pub proof fn lei_ranking_ordenado(s: Seq<RegistroRanking>)
    ensures
        ordenado(ordenacao(s)),
    decreases s.len(),
{
    if s.len() > 0 {
        lei_ranking_ordenado(s.drop_last());
        lema_insercao_ordenada(ordenacao(s.drop_last()), s.last());
    }
}

/// A ordenação do ranking só reordena: os mesmos registros, tantas vezes
/// quantas antes.
pub proof fn lei_ranking_permutacao(s: Seq<RegistroRanking>)
    ensures
        ordenacao(s).to_multiset() == s.to_multiset(),
    decreases s.len(),
{
    if s.len() > 0 {
        lei_ranking_permutacao(s.drop_last());
        let r = ordenacao(s.drop_last());
        lema_posicao_de_insercao(r, s.last().pontuacao);
        assert(s =~= s.drop_last().push(s.last()));
    }
}

/// A ordenação do ranking é estável: entre registros de mesma pontuação,
/// a ordem é a de entrada.
pub proof fn lei_ranking_estavel(s: Seq<RegistroRanking>, p: i32)
    ensures
        ordenacao(s).filter(com_pontuacao(p)) == s.filter(com_pontuacao(p)),
    decreases s.len(),
{
    if s.len() > 0 {
        let pred = com_pontuacao(p);
        reveal(Seq::filter);
        lei_ranking_estavel(s.drop_last(), p);
        lei_ranking_ordenado(s.drop_last());
        lema_filtro_da_insercao(ordenacao(s.drop_last()), s.last(), p);
        assert(ordenacao(s) == inserir_ordenado(ordenacao(s.drop_last()), s.last()));
        assert(s.filter(pred) == if pred(s.last()) {
            s.drop_last().filter(pred).push(s.last())
        } else {
            s.drop_last().filter(pred)
        });
        assert(pred(s.last()) == (s.last().pontuacao == p));
    }
}

/// Ordena o ranking da maior pontuação para a menor, mantendo a ordem
/// de entrada entre pontuações iguais.
pub fn ordenar_ranking(dados: Vec<RegistroRanking>) -> (r: Vec<RegistroRanking>)
    ensures
        r@ == ordenacao(dados@),
{
    let ghost entrada = dados@;
    assert(entrada.len() == dados.len());
    let mut restantes = dados;
    let mut r: Vec<RegistroRanking> = Vec::new();
    let mut i: usize = 0;
    while restantes.len() > 0
        invariant
            i <= entrada.len(),
            entrada.len() <= usize::MAX,
            restantes@ == entrada.skip(i as int),
            r@ == ordenacao(entrada.take(i as int)),
        decreases restantes@.len(),
    {
        let e = restantes.remove(0);
        let ghost feitos = r@;
        let mut j: usize = 0;
        while j < r.len() && r[j].pontuacao >= e.pontuacao
            invariant
                r@ == feitos,
                j <= r@.len(),
                posicao_de_insercao(r@.skip(j as int), e.pontuacao) + j == posicao_de_insercao(
                    r@,
                    e.pontuacao,
                ),
            decreases r@.len() - j,
        {
            assert(r@.skip(j as int).drop_first() =~= r@.skip(j + 1));
            j = j + 1;
        }
        proof {
            assert(r@.skip(0) =~= r@);
        }
        r.insert(j, e);
        proof {
            assert(entrada.take(i + 1).drop_last() =~= entrada.take(i as int));
            assert(entrada.take(i + 1).last() == entrada[i as int]);
        }
        i = i + 1;
    }
    proof {
        assert(entrada.take(i as int) =~= entrada);
    }
    r
}

} // verus!

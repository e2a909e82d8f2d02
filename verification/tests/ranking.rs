use batalha_naval::ranking::{dados_do_ranking, dados_do_ranking_conferidos, ler_dados_ranking, ordenar_ranking, registro_da_entrada, EntradaRanking, RegistroRanking};

fn entrada(login: Option<&str>, vitorias: Option<i64>) -> EntradaRanking {
    EntradaRanking { login: login.map(|s| s.to_string()), vitorias }
}

fn registro(nome: &str, pontuacao: i32) -> RegistroRanking {
    RegistroRanking { nome_login: nome.to_string(), pontuacao, is_current_user: false }
}

#[test]
fn registro_pontua_cem_por_vitoria() {
    let r = registro_da_entrada(&entrada(Some("ana"), Some(3)), "ana");
    assert_eq!(r.nome_login, "ana");
    assert_eq!(r.pontuacao, 300);
    assert!(r.is_current_user);
    let r = registro_da_entrada(&entrada(None, None), "ana");
    assert_eq!(r.nome_login, "Desconhecido");
    assert_eq!(r.pontuacao, 0);
    assert!(!r.is_current_user);
    let r = registro_da_entrada(&entrada(Some("bia"), Some(-2)), "ana");
    assert_eq!(r.pontuacao, -200);
}

#[test]
fn dados_do_ranking_na_ordem_das_entradas() {
    let entradas = vec![entrada(Some("ana"), Some(1)), entrada(Some("bia"), None), entrada(None, Some(5))];
    let dados = ler_dados_ranking(&entradas, "bia");
    let nomes: Vec<&str> = dados.iter().map(|r| r.nome_login.as_str()).collect();
    assert_eq!(nomes, vec!["ana", "bia", "Desconhecido"]);
    let pontos: Vec<i32> = dados.iter().map(|r| r.pontuacao).collect();
    assert_eq!(pontos, vec![100, 0, 500]);
    let atuais: Vec<bool> = dados.iter().map(|r| r.is_current_user).collect();
    assert_eq!(atuais, vec![false, true, false]);
}

#[test]
fn ordenacao_decrescente_e_estavel() {
    let dados = vec![
        registro("a", 100),
        registro("b", 300),
        registro("c", 100),
        registro("d", 200),
        registro("e", 300),
        registro("f", 0),
    ];
    let ordenado = ordenar_ranking(dados);
    let nomes: Vec<&str> = ordenado.iter().map(|r| r.nome_login.as_str()).collect();
    assert_eq!(nomes, vec!["b", "e", "d", "a", "c", "f"]);
}

#[test]
fn ordenacao_igual_a_do_std() {
    let pontos = [5, 3, 5, 1, 9, 3, 3, 0, 9, 5];
    let dados: Vec<RegistroRanking> =
        pontos.iter().enumerate().map(|(i, p)| registro(&i.to_string(), *p)).collect();
    let mut esperado: Vec<RegistroRanking> =
        pontos.iter().enumerate().map(|(i, p)| registro(&i.to_string(), *p)).collect();
    esperado.sort_by(|a, b| b.pontuacao.cmp(&a.pontuacao));
    let obtido = ordenar_ranking(dados);
    let a: Vec<&str> = obtido.iter().map(|r| r.nome_login.as_str()).collect();
    let b: Vec<&str> = esperado.iter().map(|r| r.nome_login.as_str()).collect();
    assert_eq!(a, b);
    assert!(ordenar_ranking(vec![]).is_empty());
}

#[test]
fn ranking_lido_do_json() {
    let texto = r#"[{"login": "ana", "vitorias": 3}, {"vitorias": 1}, {"login": "bia", "vitorias": "x"}, {"login": 7}]"#;
    let dados = dados_do_ranking(texto, "bia");
    let linhas: Vec<(&str, i32, bool)> =
        dados.iter().map(|r| (r.nome_login.as_str(), r.pontuacao, r.is_current_user)).collect();
    assert_eq!(
        linhas,
        vec![("ana", 300, false), ("Desconhecido", 100, false), ("bia", 0, true), ("Desconhecido", 0, false)]
    );
    let conferidos = dados_do_ranking_conferidos(texto, "ana").unwrap();
    assert_eq!(conferidos.len(), 4);
    assert!(conferidos[0].is_current_user);
}

#[test]
fn ranking_de_texto_que_nao_e_lista() {
    assert!(dados_do_ranking("não é json", "ana").is_empty());
    assert!(dados_do_ranking(r#"{"login": "ana"}"#, "ana").is_empty());
    assert!(dados_do_ranking("", "").is_empty());
    assert_eq!(dados_do_ranking_conferidos("", "").map(|v| v.len()), Some(0));
}

#[test]
fn ranking_com_pontuacao_grande_demais() {
    assert!(dados_do_ranking_conferidos(r#"[{"login": "ana", "vitorias": 30000000}]"#, "").is_none());
    assert!(dados_do_ranking_conferidos(r#"[{"login": "ana", "vitorias": 21474836}]"#, "").is_some());
}

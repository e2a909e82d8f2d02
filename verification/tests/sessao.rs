use batalha_naval::sessao::login_da_sessao;

#[test]
fn login_lido_da_sessao() {
    assert_eq!(login_da_sessao(r#"{"login": "ana", "id": 3}"#), "ana");
    assert_eq!(login_da_sessao(r#"{"id": 3}"#), "");
    assert_eq!(login_da_sessao(r#"{"login": 5}"#), "");
    assert_eq!(login_da_sessao("não é json"), "");
    assert_eq!(login_da_sessao(""), "");
}

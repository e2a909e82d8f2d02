use batalha_naval::conquistas::{linhas_de_conquistas, obter_conquistas_usuario};
use batalha_naval::usuario::Conquista;

#[test]
fn nomes_das_conquistas() {
    assert_eq!(Conquista::Almirante.nome(), "Almirante");
    assert_eq!(Conquista::CapitaoDeMarEGuerra.nome(), "CapitaoDeMarEGuerra");
    let nomes = obter_conquistas_usuario(&vec![Conquista::Marinheiro, Conquista::Capitao]);
    assert_eq!(nomes, vec!["Marinheiro".to_string(), "Capitao".to_string()]);
    assert!(obter_conquistas_usuario(&vec![]).is_empty());
}

#[test]
fn linhas_da_tela_de_conquistas() {
    let linhas = linhas_de_conquistas(&vec!["Capitao".to_string()]);
    assert_eq!(linhas.len(), 4);
    assert_eq!(linhas[0], ("🔒 Almirante - Vencer sem perder navios".to_string(), false));
    assert_eq!(linhas[1], ("✅ Capitao - Acertar 7 tiros seguidos".to_string(), true));
    assert_eq!(linhas[2], ("🔒 CapitaoDeMarEGuerra - Acertar 8 tiros seguidos".to_string(), false));
    assert_eq!(linhas[3], ("🔒 Marinheiro - Vencer em 20 rodadas ou menos".to_string(), false));
}

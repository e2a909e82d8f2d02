use batalha_naval::coordenadas::{clique_para_coordenada, esta_dentro_do_tabuleiro, esta_dentro_dos_limites};
use batalha_naval::jogador_ia::alvos_disponiveis;
use batalha_naval::disparo::executar_disparo;
use batalha_naval::tabuleiro::EstadoTabuleiro;

#[test]
fn limites_do_tabuleiro() {
    assert!(esta_dentro_dos_limites(0, 0));
    assert!(esta_dentro_dos_limites(9, 9));
    assert!(!esta_dentro_dos_limites(10, 0));
    assert!(!esta_dentro_dos_limites(0, -1));
    assert!(esta_dentro_do_tabuleiro(3, 7));
    assert!(!esta_dentro_do_tabuleiro(-1, 7));
    assert!(!esta_dentro_do_tabuleiro(3, 10));
}

#[test]
fn clique_vira_linha_e_coluna() {
    assert_eq!(clique_para_coordenada(3, 7), Some((7, 3)));
    assert_eq!(clique_para_coordenada(0, 0), Some((0, 0)));
    assert_eq!(clique_para_coordenada(10, 2), None);
    assert_eq!(clique_para_coordenada(2, -5), None);
}

#[test]
fn alvos_disponiveis_excluem_celulas_atacadas() {
    let mut t = EstadoTabuleiro::vazio();
    assert!(t.posicionar_navio("Bote".to_string(), 1, 0, 1, true));
    let todos = alvos_disponiveis(&t);
    assert_eq!(todos.len(), 100);
    assert_eq!(todos[0], (0, 0));
    assert_eq!(todos[99], (9, 9));
    executar_disparo(&mut t, 0, 0);
    executar_disparo(&mut t, 0, 1);
    let restantes = alvos_disponiveis(&t);
    assert_eq!(restantes.len(), 98);
    assert_eq!(restantes[0], (0, 2));
    assert!(!restantes.contains(&(0, 1)));
}

use batalha_naval::disparo::{executar_disparo, ResultadoDisparo};
use batalha_naval::jogador::Jogador;
use batalha_naval::tabuleiro::{Celula, EstadoTabuleiro, BOARD_SIZE};

fn tabuleiro_com_dois_navios() -> EstadoTabuleiro {
    let mut t = EstadoTabuleiro::vazio();
    assert!(t.posicionar_navio("Fragata".to_string(), 3, 0, 0, true));
    assert!(t.posicionar_navio("Submarino".to_string(), 1, 5, 5, false));
    t
}

#[test]
fn tabuleiro_vazio_so_tem_agua() {
    let t = EstadoTabuleiro::vazio();
    assert_eq!(t.navios.len(), 0);
    for x in 0..BOARD_SIZE {
        for y in 0..BOARD_SIZE {
            assert_eq!(t.valor_celula(x, y), Some(Celula::Vazio));
        }
    }
    assert_eq!(t.valor_celula(BOARD_SIZE, 0), None);
    assert_eq!(t.valor_celula(0, BOARD_SIZE), None);
}

#[test]
fn posicionar_navio_horizontal_e_vertical() {
    let mut t = EstadoTabuleiro::vazio();
    assert!(t.posicionar_navio("Fragata".to_string(), 3, 2, 4, true));
    assert_eq!(t.valor_celula(2, 4), Some(Celula::Ocupado(0)));
    assert_eq!(t.valor_celula(2, 5), Some(Celula::Ocupado(0)));
    assert_eq!(t.valor_celula(2, 6), Some(Celula::Ocupado(0)));
    assert_eq!(t.valor_celula(2, 7), Some(Celula::Vazio));
    assert!(t.posicionar_navio("Cruzador".to_string(), 4, 3, 0, false));
    for x in 3..7 {
        assert_eq!(t.valor_celula(x, 0), Some(Celula::Ocupado(1)));
    }
    assert_eq!(t.navios[1].nome, "Cruzador");
    assert_eq!(t.navios[1].tamanho, 4);
    assert_eq!(t.navios[1].acertos, 0);
}

#[test]
fn posicionar_navio_recusa_sobreposicao_borda_e_tamanho_zero() {
    let mut t = tabuleiro_com_dois_navios();
    // sobrepõe a fragata
    assert!(!t.posicionar_navio("X".to_string(), 2, 0, 2, false));
    // passa da borda
    assert!(!t.posicionar_navio("X".to_string(), 3, 0, 8, true));
    assert!(!t.posicionar_navio("X".to_string(), 3, 8, 0, false));
    // fora do tabuleiro
    assert!(!t.posicionar_navio("X".to_string(), 1, 10, 0, true));
    // tamanho zero
    assert!(!t.posicionar_navio("X".to_string(), 0, 9, 9, true));
    assert_eq!(t.navios.len(), 2);
    assert!(t.pode_posicionar(6, 9, 0, true));
    assert!(!t.pode_posicionar(6, 9, 5, true));
}

#[test]
fn disparo_na_agua_acerto_e_afundamento() {
    let mut t = tabuleiro_com_dois_navios();
    let r = executar_disparo(&mut t, 9, 9);
    assert!(matches!(r.resultado, ResultadoDisparo::Agua));
    assert_eq!(r.mensagem, "Água!");
    assert_eq!(t.valor_celula(9, 9), Some(Celula::Agua));

    let r = executar_disparo(&mut t, 0, 1);
    assert!(matches!(r.resultado, ResultadoDisparo::Acerto));
    assert_eq!(r.mensagem, "Acerto!");
    assert_eq!(t.navios[0].acertos, 1);
    assert_eq!(t.valor_celula(0, 1), Some(Celula::Atingido(0)));

    let r = executar_disparo(&mut t, 5, 5);
    match &r.resultado {
        ResultadoDisparo::Afundou(nome) => assert_eq!(nome, "Submarino"),
        outro => panic!("esperava afundar, veio {:?}", outro),
    }
    assert_eq!(r.mensagem, "Afundou: Submarino");
    assert!(t.navios[1].esta_afundado());
    assert!(!t.navios[0].esta_afundado());
}

#[test]
fn disparo_repetido_e_recusado_sem_mudar_nada() {
    let mut t = tabuleiro_com_dois_navios();
    let primeiro = executar_disparo(&mut t, 0, 0);
    assert!(primeiro.resultado.foi_valido());
    let celulas_antes: Vec<Option<Celula>> = (0..BOARD_SIZE * BOARD_SIZE)
        .map(|k| t.valor_celula(k / BOARD_SIZE, k % BOARD_SIZE))
        .collect();
    let acertos_antes: Vec<usize> = t.navios.iter().map(|n| n.acertos).collect();
    let segundo = executar_disparo(&mut t, 0, 0);
    assert!(matches!(segundo.resultado, ResultadoDisparo::JaDisparado));
    assert!(!segundo.resultado.foi_valido());
    assert_eq!(segundo.mensagem, "Posição já atacada.");
    let celulas_depois: Vec<Option<Celula>> = (0..BOARD_SIZE * BOARD_SIZE)
        .map(|k| t.valor_celula(k / BOARD_SIZE, k % BOARD_SIZE))
        .collect();
    assert_eq!(celulas_antes, celulas_depois);
    let acertos_depois: Vec<usize> = t.navios.iter().map(|n| n.acertos).collect();
    assert_eq!(acertos_antes, acertos_depois);
    // também na água
    assert!(executar_disparo(&mut t, 7, 7).resultado.foi_valido());
    assert!(matches!(executar_disparo(&mut t, 7, 7).resultado, ResultadoDisparo::JaDisparado));
}

#[test]
fn disparo_fora_do_tabuleiro() {
    let mut t = tabuleiro_com_dois_navios();
    let r = executar_disparo(&mut t, 10, 3);
    assert!(matches!(r.resultado, ResultadoDisparo::ForaDoTabuleiro));
    assert!(!r.resultado.foi_valido());
    assert_eq!(r.mensagem, "Fora do tabuleiro.");
    let r = executar_disparo(&mut t, 3, 12);
    assert!(matches!(r.resultado, ResultadoDisparo::ForaDoTabuleiro));
}

#[test]
fn navio_afunda_exatamente_quando_todas_as_partes_sao_atingidas() {
    let mut t = tabuleiro_com_dois_navios();
    assert!(matches!(executar_disparo(&mut t, 0, 0).resultado, ResultadoDisparo::Acerto));
    assert!(!t.navios[0].esta_afundado());
    assert!(matches!(executar_disparo(&mut t, 0, 2).resultado, ResultadoDisparo::Acerto));
    assert!(!t.navios[0].esta_afundado());
    assert!(matches!(executar_disparo(&mut t, 0, 1).resultado, ResultadoDisparo::Afundou(_)));
    assert!(t.navios[0].esta_afundado());
    assert_eq!(t.navios[0].acertos, 3);
}

#[test]
fn jogador_perde_so_quando_toda_a_frota_afunda() {
    let mut j = Jogador::novo_humano();
    // sem frota, não perdeu
    assert!(!j.perdeu());
    assert!(j.tabuleiro_mut().posicionar_navio("Bote".to_string(), 1, 1, 1, true));
    assert!(j.tabuleiro_mut().posicionar_navio("Lancha".to_string(), 2, 3, 3, false));
    assert!(!j.perdeu());
    assert!(matches!(j.receber_disparo(1, 1).resultado, ResultadoDisparo::Afundou(_)));
    assert!(!j.perdeu());
    j.receber_disparo(3, 3);
    assert!(!j.perdeu());
    j.receber_disparo(4, 3);
    assert!(j.perdeu());
    assert_eq!(j.tabuleiro().navios.len(), 2);
}

#[test]
fn jogador_ia_comeca_com_tabuleiro_vazio() {
    let j = Jogador::novo_ia();
    assert_eq!(j.tabuleiro().navios.len(), 0);
    assert_eq!(j.tabuleiro().valor_celula(4, 4), Some(Celula::Vazio));
}

#[test]
fn obter_celulas_navio_em_ordem() {
    let t = tabuleiro_com_dois_navios();
    assert_eq!(t.obter_celulas_navio(0), vec![(0, 0), (0, 1), (0, 2)]);
    assert_eq!(t.obter_celulas_navio(1), vec![(5, 5)]);
    assert_eq!(t.obter_celulas_navio(7), Vec::<(usize, usize)>::new());
}

#[test]
fn mover_navio_desloca_as_partes() {
    let mut t = tabuleiro_com_dois_navios();
    assert!(t.pode_mover_navio(0, 1, 0));
    assert!(t.mover_navio(0, 1, 0));
    assert_eq!(t.obter_celulas_navio(0), vec![(1, 0), (1, 1), (1, 2)]);
    assert_eq!(t.valor_celula(0, 0), Some(Celula::Vazio));
    // deslocar ao longo do próprio corpo
    assert!(t.mover_navio(0, 0, 1));
    assert_eq!(t.obter_celulas_navio(0), vec![(1, 1), (1, 2), (1, 3)]);
    assert_eq!(t.valor_celula(1, 0), Some(Celula::Vazio));
    assert_eq!(t.navios[0].tamanho, 3);
}

#[test]
fn mover_navio_recusa_borda_colisao_atingido_e_indice() {
    let mut t = tabuleiro_com_dois_navios();
    // borda de cima
    assert!(!t.mover_navio(0, -1, 0));
    // borda da esquerda
    assert!(!t.mover_navio(0, 0, -1));
    // índice inexistente
    assert!(!t.mover_navio(5, 1, 0));
    // colisão: põe um navio logo abaixo da fragata
    assert!(t.posicionar_navio("Bote".to_string(), 1, 1, 1, true));
    assert!(!t.mover_navio(0, 1, 0));
    // água atacada no caminho
    executar_disparo(&mut t, 6, 5);
    assert!(!t.mover_navio(1, 1, 0));
    // navio atingido não se move
    executar_disparo(&mut t, 0, 0);
    assert!(!t.pode_mover_navio(0, 0, 1));
    assert_eq!(t.obter_celulas_navio(0), vec![(0, 0), (0, 1), (0, 2)]);
}

#[test]
fn remover_navio_renumera_os_seguintes() {
    let mut t = tabuleiro_com_dois_navios();
    assert!(t.posicionar_navio("Bote".to_string(), 1, 9, 0, true));
    assert_eq!(t.remover_navio_na_posicao(0, 1), Some("Fragata".to_string()));
    assert_eq!(t.navios.len(), 2);
    assert_eq!(t.navios[0].nome, "Submarino");
    assert_eq!(t.valor_celula(0, 0), Some(Celula::Vazio));
    assert_eq!(t.valor_celula(5, 5), Some(Celula::Ocupado(0)));
    assert_eq!(t.valor_celula(9, 0), Some(Celula::Ocupado(1)));
    assert_eq!(t.remover_navio_na_posicao(0, 0), None);
    assert_eq!(t.remover_navio_na_posicao(11, 0), None);
}

#[test]
fn remover_navio_atingido_deixa_agua_atacada() {
    let mut t = tabuleiro_com_dois_navios();
    executar_disparo(&mut t, 0, 0);
    assert_eq!(t.remover_navio_na_posicao(0, 2), Some("Fragata".to_string()));
    assert_eq!(t.valor_celula(0, 0), Some(Celula::Agua));
    assert_eq!(t.valor_celula(0, 1), Some(Celula::Vazio));
}

use batalha_naval::batalha::{
    celulas_deslocadas, direcao_do_movimento, linha_base_do_sprite, AcaoMudancaEstado, ControladorBatalha,
    DesfechoPosicionamento, DestinoClique, EstadoTurno, Tecla,
};
use batalha_naval::disparo::ResultadoDisparo;
use batalha_naval::jogador_ia::{alvo_sorteado, limite_do_sorteio, posicoes_possiveis, EstrategiaIA, JogadorIA};
use batalha_naval::tabuleiro::{Celula, EstadoTabuleiro, BOARD_SIZE};

/// Uma estratégia que dispara numa sequência fixa de alvos ainda livres.
struct Roteiro {
    alvos: Vec<(usize, usize)>,
}

impl EstrategiaIA for Roteiro {
    fn escolher_alvo(&mut self, _tabuleiro_inimigo: &EstadoTabuleiro) -> Option<(usize, usize)> {
        if self.alvos.is_empty() {
            None
        } else {
            Some(self.alvos.remove(0))
        }
    }
}

fn partida_com_adversario() -> ControladorBatalha {
    let mut c = ControladorBatalha::novo();
    assert!(c.selecionar_dificuldade_facil(EstadoTurno::SelecaoDificuldade));
    let ia = c.jogador_ia.as_mut().unwrap();
    let t = ia.jogador_mut().tabuleiro_mut();
    assert!(t.posicionar_navio("Fragata".to_string(), 3, 0, 0, true));
    assert!(t.posicionar_navio("Bote".to_string(), 1, 9, 9, true));
    c
}

#[test]
fn partida_nova() {
    let c = ControladorBatalha::novo();
    assert!(c.jogador_ia.is_none());
    assert_eq!(c.estado_anterior, EstadoTurno::SelecaoDificuldade);
    assert!(!c.xray_ativo && !c.modo_dinamico && !c.movimento_jogador_realizado);
    assert_eq!(c.navio_selecionado_movimento, None);
    assert_eq!(c.tiros_jogador_no_tabuleiro_ia.len(), BOARD_SIZE * BOARD_SIZE);
    assert!(c.tiros_ia_no_tabuleiro_jogador.iter().all(|t| !t));
    assert_eq!(c.vitoria_registrada, None);
    assert_eq!(c.obter_max_acertos_seguidos(), 0);
    assert_eq!(c.continuar(), None);
}

#[test]
fn resultado_final_e_registrado_uma_vez() {
    let mut c = ControladorBatalha::novo();
    c.emitir_resultado_final(true);
    assert!(c.resultado_final_emitido);
    assert_eq!(c.continuar(), Some(true));
    c.emitir_resultado_final(false);
    assert_eq!(c.continuar(), Some(true));
}

#[test]
fn vencer_e_perder_por_atalho() {
    let mut c = ControladorBatalha::novo();
    c.perder_teste(false);
    assert_eq!(c.estado_anterior, EstadoTurno::VitoriaIA);
    assert_eq!(c.vitoria_registrada, Some(false));
    c.vencer_teste(false);
    assert_eq!(c.estado_anterior, EstadoTurno::VitoriaJogador);
    assert_eq!(c.vitoria_registrada, Some(false));
}

#[test]
fn atalhos_nao_mudam_partida_acabada() {
    let mut c = ControladorBatalha::novo();
    c.vencer_teste(true);
    assert_eq!(c.estado_anterior, EstadoTurno::SelecaoDificuldade);
    assert_eq!(c.vitoria_registrada, None);
    assert!(!c.resultado_final_emitido);
    c.perder_teste(true);
    assert_eq!(c.estado_anterior, EstadoTurno::SelecaoDificuldade);
    assert_eq!(c.vitoria_registrada, None);
    c.vencer_teste(false);
    assert_eq!(c.vitoria_registrada, Some(true));
    c.perder_teste(true);
    assert_eq!(c.estado_anterior, EstadoTurno::VitoriaJogador);
}

#[test]
fn modo_dinamico_e_raio_x() {
    let mut c = ControladorBatalha::novo();
    c.alternar_xray();
    assert!(c.xray_ativo);
    assert!(c.mostrar_xray(false));
    assert!(!c.mostrar_xray(true));
    c.definir_modo_dinamico(true);
    assert!(c.modo_dinamico && c.xray_ativo);
    c.navio_selecionado_movimento = Some(0);
    c.movimento_jogador_realizado = true;
    c.definir_modo_dinamico(false);
    assert!(!c.modo_dinamico && !c.xray_ativo);
    assert_eq!(c.navio_selecionado_movimento, None);
    assert!(!c.movimento_jogador_realizado);
    c.alternar_xray();
    c.alternar_xray();
    assert!(!c.xray_ativo);
}

#[test]
fn escolha_de_navio_da_lista() {
    let c = ControladorBatalha::novo();
    assert_eq!(c.selecionar_navio_do_container(-1), None);
    assert_eq!(c.selecionar_navio_do_container(0), Some(0));
    assert_eq!(c.selecionar_navio_do_container(3), Some(3));
}

#[test]
fn dificuldade_so_na_fase_de_selecao() {
    let mut c = ControladorBatalha::novo();
    assert!(!c.selecionar_dificuldade_facil(EstadoTurno::TurnoJogador));
    assert!(c.jogador_ia.is_none());
    assert!(c.selecionar_dificuldade_facil(EstadoTurno::SelecaoDificuldade));
    assert!(c.jogador_ia.is_some());
}

#[test]
fn disparo_sem_adversario_nao_faz_nada() {
    let mut c = ControladorBatalha::novo();
    assert!(c.tratar_clique_disparo_jogador(0, 0).is_none());
    assert!(c.executar_turno_ia().is_none());
}

#[test]
fn sequencia_de_acertos() {
    let mut c = partida_com_adversario();
    c.navio_selecionado_movimento = Some(0);
    c.movimento_jogador_realizado = true;
    let (r, perdeu) = c.tratar_clique_disparo_jogador(0, 0).unwrap();
    assert!(matches!(r.resultado, ResultadoDisparo::Acerto));
    assert!(!perdeu);
    assert_eq!(c.acertos_seguidos_atual, 1);
    assert!(c.tiros_jogador_no_tabuleiro_ia[0]);
    assert_eq!(c.navio_selecionado_movimento, None);
    assert!(!c.movimento_jogador_realizado);
    c.tratar_clique_disparo_jogador(0, 1).unwrap();
    assert_eq!(c.acertos_seguidos_atual, 2);
    assert_eq!(c.obter_max_acertos_seguidos(), 2);
    // repetido: não conta
    let (r, _) = c.tratar_clique_disparo_jogador(0, 1).unwrap();
    assert!(matches!(r.resultado, ResultadoDisparo::JaDisparado));
    assert_eq!(c.acertos_seguidos_atual, 2);
    // água: zera a atual, a maior fica
    let (r, _) = c.tratar_clique_disparo_jogador(5, 5).unwrap();
    assert!(matches!(r.resultado, ResultadoDisparo::Agua));
    assert!(c.tiros_jogador_no_tabuleiro_ia[5 * BOARD_SIZE + 5]);
    assert_eq!(c.acertos_seguidos_atual, 0);
    assert_eq!(c.obter_max_acertos_seguidos(), 2);
    c.tratar_clique_disparo_jogador(0, 2).unwrap();
    assert_eq!(c.acertos_seguidos_atual, 1);
    assert_eq!(c.obter_max_acertos_seguidos(), 2);
    let (r, perdeu) = c.tratar_clique_disparo_jogador(9, 9).unwrap();
    assert!(matches!(r.resultado, ResultadoDisparo::Afundou(_)));
    assert!(perdeu);
    assert_eq!(c.acertos_seguidos_atual, 2);
    // fora do tabuleiro não marca nada
    let (r, _) = c.tratar_clique_disparo_jogador(12, 0).unwrap();
    assert!(matches!(r.resultado, ResultadoDisparo::ForaDoTabuleiro));
    assert_eq!(c.acertos_seguidos_atual, 2);
}

#[test]
fn turno_do_adversario_com_estrategia_propria() {
    let mut c = ControladorBatalha::novo();
    assert!(c.jogador_humano.tabuleiro_mut().posicionar_navio("Bote".to_string(), 1, 2, 2, true));
    c.jogador_ia = Some(JogadorIA::novo(Box::new(Roteiro { alvos: vec![(2, 2), (4, 4)] })));
    let (x, y, r) = c.executar_turno_ia().unwrap();
    assert_eq!((x, y), (2, 2));
    assert!(matches!(r.resultado, ResultadoDisparo::Afundou(_)));
    assert!(c.tiros_ia_no_tabuleiro_jogador[2 * BOARD_SIZE + 2]);
    assert!(c.jogador_perdeu_algum_navio());
    let (_, _, r) = c.concluir_turno_ia(Some((2, 2))).unwrap();
    assert!(matches!(r.resultado, ResultadoDisparo::JaDisparado));
    let (_, _, r) = c.executar_turno_ia().unwrap();
    assert!(matches!(r.resultado, ResultadoDisparo::Agua));
    assert!(c.tiros_ia_no_tabuleiro_jogador[4 * BOARD_SIZE + 4]);
    assert!(c.executar_turno_ia().is_none());
    assert!(c.jogador_humano.perdeu());
}

#[test]
fn cursores_e_aviso_por_fase() {
    let mut c = ControladorBatalha::novo();
    assert_eq!(c.visibilidade_dos_cursores(EstadoTurno::PosicionamentoJogador), (true, false));
    assert_eq!(c.visibilidade_dos_cursores(EstadoTurno::TurnoJogador), (false, true));
    assert_eq!(c.visibilidade_dos_cursores(EstadoTurno::TurnoIA), (false, false));
    assert!(!c.mostrar_label_movimento_dinamico(EstadoTurno::TurnoJogador));
    c.definir_modo_dinamico(true);
    assert_eq!(c.visibilidade_dos_cursores(EstadoTurno::TurnoJogador), (true, true));
    assert!(c.mostrar_label_movimento_dinamico(EstadoTurno::TurnoJogador));
    assert!(!c.mostrar_label_movimento_dinamico(EstadoTurno::TurnoIA));
    c.movimento_jogador_realizado = true;
    assert_eq!(c.visibilidade_dos_cursores(EstadoTurno::TurnoJogador), (false, true));
}

#[test]
fn reacao_a_mudanca_de_fase() {
    let mut c = ControladorBatalha::novo();
    assert_eq!(c.ao_mudar_estado(EstadoTurno::SelecaoDificuldade), None);
    assert_eq!(
        c.ao_mudar_estado(EstadoTurno::PosicionamentoJogador),
        Some(AcaoMudancaEstado::PopularContainerNavios)
    );
    assert_eq!(c.ao_mudar_estado(EstadoTurno::PosicionamentoJogador), None);
    c.movimento_jogador_realizado = true;
    assert_eq!(c.ao_mudar_estado(EstadoTurno::TurnoJogador), None);
    assert!(!c.movimento_jogador_realizado);
    assert_eq!(c.ao_mudar_estado(EstadoTurno::TurnoIA), None);
    assert_eq!(c.ao_mudar_estado(EstadoTurno::VitoriaIA), Some(AcaoMudancaEstado::TocarDerrota));
    assert_eq!(c.vitoria_registrada, Some(false));
    assert_eq!(c.ao_mudar_estado(EstadoTurno::VitoriaJogador), Some(AcaoMudancaEstado::TocarVitoria));
    assert_eq!(c.vitoria_registrada, Some(false));
    assert_eq!(c.estado_anterior, EstadoTurno::VitoriaJogador);
}

#[test]
fn direcao_do_movimento_por_clique() {
    let celulas = vec![(1, 1), (1, 2), (1, 3)];
    assert_eq!(direcao_do_movimento(&celulas, 4, 1), Some((0, 1)));
    assert_eq!(direcao_do_movimento(&celulas, 0, 1), Some((0, -1)));
    assert_eq!(direcao_do_movimento(&celulas, 2, 0), Some((-1, 0)));
    assert_eq!(direcao_do_movimento(&celulas, 2, 2), Some((1, 0)));
    assert_eq!(direcao_do_movimento(&celulas, 2, 1), None);
    assert_eq!(direcao_do_movimento(&celulas, 7, 7), None);
    assert_eq!(direcao_do_movimento(&vec![], 0, 0), None);
    assert_eq!(direcao_do_movimento(&vec![(5, 5)], 6, 5), Some((0, 1)));
    assert_eq!(direcao_do_movimento(&vec![(0, 0)], -1, 0), None);
}

#[test]
fn celulas_deslocadas_ficam_no_tabuleiro() {
    let celulas = vec![(0, 8), (0, 9)];
    assert_eq!(celulas_deslocadas(&celulas, 0, 1), vec![(0, 9)]);
    assert_eq!(celulas_deslocadas(&celulas, 1, 0), vec![(1, 8), (1, 9)]);
    assert_eq!(celulas_deslocadas(&celulas, -1, 0), vec![]);
}

#[test]
fn movimento_dinamico_completo() {
    let mut c = ControladorBatalha::novo();
    c.definir_modo_dinamico(true);
    assert!(c.jogador_humano.tabuleiro_mut().posicionar_navio("Fragata".to_string(), 3, 1, 1, true));
    // fora do tabuleiro o clique não é tratado
    assert!(!c.tratar_clique_movimento_jogador(BOARD_SIZE, 0, 0, BOARD_SIZE as i32));
    assert_eq!(c.navio_selecionado_movimento, None);
    // sem navio escolhido, clicar na água é tratado e não faz nada
    assert!(c.tratar_clique_movimento_jogador(5, 5, 5, 5));
    assert_eq!(c.navio_selecionado_movimento, None);
    assert!(!c.movimento_jogador_realizado);
    // clicar no navio o escolhe
    assert!(c.tratar_clique_movimento_jogador(1, 2, 2, 1));
    assert_eq!(c.navio_selecionado_movimento, Some(0));
    assert_eq!(c.inferir_direcao_movimento_por_clique(0, 4, 1), Some((0, 1)));
    let (destino, valido, nome) = c.preview_movimento_dinamico(4, 1).unwrap();
    assert_eq!(destino, vec![(1, 2), (1, 3), (1, 4)]);
    assert!(valido);
    assert_eq!(nome, "Fragata");
    assert!(c.preview_movimento_dinamico(8, 8).is_none());
    // clicar à direita do navio desloca-o
    assert!(c.tratar_clique_movimento_jogador(1, 4, 4, 1));
    assert!(c.movimento_jogador_realizado);
    assert_eq!(c.navio_selecionado_movimento, None);
    assert_eq!(c.jogador_humano.tabuleiro().obter_celulas_navio(0), vec![(1, 2), (1, 3), (1, 4)]);
    assert_eq!(c.jogador_humano.tabuleiro().valor_celula(1, 1), Some(Celula::Vazio));
    assert!(c.preview_movimento_dinamico(5, 1).is_none());
}

#[test]
fn movimento_para_fora_nao_acontece() {
    let mut c = ControladorBatalha::novo();
    assert!(c.jogador_humano.tabuleiro_mut().posicionar_navio("Bote".to_string(), 1, 0, 0, true));
    assert!(c.tratar_clique_movimento_jogador(0, 0, 0, 0));
    assert_eq!(c.navio_selecionado_movimento, Some(0));
    let (destino, valido, _) = c.preview_movimento_dinamico(1, 0).unwrap();
    assert_eq!(destino, vec![(0, 1)]);
    assert!(valido);
    // clique sem direção definida: tratado, mas o navio não sai do lugar
    assert!(c.tratar_clique_movimento_jogador(5, 5, 5, 5));
    assert_eq!(c.navio_selecionado_movimento, Some(0));
    assert!(!c.movimento_jogador_realizado);
}

#[test]
fn navio_atingido_nao_e_escolhido() {
    let mut c = ControladorBatalha::novo();
    assert!(c.jogador_humano.tabuleiro_mut().posicionar_navio("Fragata".to_string(), 3, 1, 1, true));
    c.jogador_humano.receber_disparo(1, 1);
    assert!(c.tratar_clique_movimento_jogador(1, 2, 2, 1));
    assert_eq!(c.navio_selecionado_movimento, None);
}

#[test]
fn clique_no_posicionamento_retira_navio() {
    let mut c = ControladorBatalha::novo();
    assert!(c.jogador_humano.tabuleiro_mut().posicionar_navio("Fragata".to_string(), 3, 1, 1, true));
    assert_eq!(c.tratar_clique_posicionamento(5, 5, None), DesfechoPosicionamento::Nenhum);
    assert_eq!(
        c.tratar_clique_posicionamento(1, 3, Some(("Bote".to_string(), 1, true))),
        DesfechoPosicionamento::Retirado("Fragata".to_string())
    );
    assert_eq!(c.jogador_humano.tabuleiro().navios.len(), 0);
    assert_eq!(c.jogador_humano.tabuleiro().valor_celula(1, 3), Some(Celula::Vazio));
}

#[test]
fn iniciar_batalha_limpa_a_escolha() {
    let mut c = ControladorBatalha::novo();
    c.navio_selecionado_movimento = Some(1);
    c.movimento_jogador_realizado = true;
    c.iniciar_fase_batalha(&vec![("Fragata".to_string(), 3)]);
    assert_eq!(c.navio_selecionado_movimento, None);
    assert!(!c.movimento_jogador_realizado);
    assert!(c.jogador_ia.is_none());
}

#[test]
fn iniciar_batalha_pula_navio_que_nao_cabe() {
    let mut c = partida_com_adversario();
    // nenhum navio de 11 células, nem de nenhuma, cabe: nada é sorteado
    c.iniciar_fase_batalha(&vec![("Gigante".to_string(), BOARD_SIZE + 1), ("Nada".to_string(), 0)]);
    let ia = c.jogador_ia.as_mut().unwrap();
    assert_eq!(ia.jogador_mut().tabuleiro().navios.len(), 2);
    c.iniciar_fase_batalha(&vec![]);
    assert_eq!(c.jogador_ia.as_mut().unwrap().jogador_mut().tabuleiro().navios.len(), 2);
}

#[test]
fn posicoes_possiveis_de_um_navio() {
    let mut t = EstadoTabuleiro::vazio();
    assert_eq!(posicoes_possiveis(&t, 1).len(), 2 * BOARD_SIZE * BOARD_SIZE);
    assert_eq!(posicoes_possiveis(&t, BOARD_SIZE).len(), 2 * BOARD_SIZE);
    assert!(posicoes_possiveis(&t, BOARD_SIZE + 1).is_empty());
    assert!(posicoes_possiveis(&t, 0).is_empty());
    // a primeira linha ocupada bloqueia todas as verticais de tamanho cheio
    assert!(t.posicionar_navio("Grande".to_string(), BOARD_SIZE, 0, 0, true));
    let p = posicoes_possiveis(&t, BOARD_SIZE);
    assert_eq!(p.len(), BOARD_SIZE - 1);
    assert!(p.iter().all(|&(x, _, h)| h && x > 0));
    assert_eq!(p[0], (1, 0, true));
}

#[test]
fn destino_do_clique_por_fase() {
    let mut c = ControladorBatalha::novo();
    assert_eq!(c.destino_do_clique(EstadoTurno::PosicionamentoJogador, false), DestinoClique::Posicionamento);
    assert_eq!(c.destino_do_clique(EstadoTurno::TurnoJogador, false), DestinoClique::Disparo);
    assert_eq!(c.destino_do_clique(EstadoTurno::TurnoIA, false), DestinoClique::Nenhum);
    assert_eq!(c.destino_do_clique(EstadoTurno::SelecaoDificuldade, false), DestinoClique::Nenhum);
    c.definir_modo_dinamico(true);
    assert_eq!(c.destino_do_clique(EstadoTurno::TurnoJogador, false), DestinoClique::MovimentoOuDisparo);
    assert_eq!(c.destino_do_clique(EstadoTurno::TurnoJogador, true), DestinoClique::Nenhum);
    c.movimento_jogador_realizado = true;
    assert_eq!(c.destino_do_clique(EstadoTurno::TurnoJogador, false), DestinoClique::Disparo);
    assert_eq!(c.destino_do_clique(EstadoTurno::PosicionamentoJogador, true), DestinoClique::Nenhum);
}

#[test]
fn teclas_de_atalho() {
    let mut c = ControladorBatalha::novo();
    assert!(!c.tratar_tecla(Tecla::Outra, false));
    assert!(!c.tratar_tecla(Tecla::F1, true));
    assert!(!c.tratar_tecla(Tecla::F3, true));
    assert!(!c.xray_ativo);
    assert_eq!(c.vitoria_registrada, None);
    assert!(c.tratar_tecla(Tecla::F3, false));
    assert!(c.xray_ativo);
    assert!(c.tratar_tecla(Tecla::F2, false));
    assert_eq!(c.estado_anterior, EstadoTurno::VitoriaIA);
    assert_eq!(c.vitoria_registrada, Some(false));
    assert!(c.tratar_tecla(Tecla::F1, false));
    assert_eq!(c.estado_anterior, EstadoTurno::VitoriaJogador);
    assert_eq!(c.vitoria_registrada, Some(false));
}

#[test]
fn linha_do_sprite_por_tamanho() {
    assert_eq!(linha_base_do_sprite(1), 0);
    assert_eq!(linha_base_do_sprite(3), 1);
    assert_eq!(linha_base_do_sprite(4), 4);
    assert_eq!(linha_base_do_sprite(6), 8);
    assert_eq!(linha_base_do_sprite(2), 0);
}

#[test]
fn disparo_da_ia_num_alvo_dado() {
    let mut c = ControladorBatalha::novo();
    assert!(c.jogador_humano.tabuleiro_mut().posicionar_navio("Fragata".to_string(), 2, 3, 3, true));
    let r = c.receber_disparo_da_ia(3, 3);
    assert!(matches!(r.resultado, ResultadoDisparo::Acerto));
    assert!(c.tiros_ia_no_tabuleiro_jogador[3 * BOARD_SIZE + 3]);
    let r = c.receber_disparo_da_ia(3, 3);
    assert!(matches!(r.resultado, ResultadoDisparo::JaDisparado));
    let r = c.receber_disparo_da_ia(0, 20);
    assert!(matches!(r.resultado, ResultadoDisparo::ForaDoTabuleiro));
    assert_eq!(c.tiros_ia_no_tabuleiro_jogador.iter().filter(|t| **t).count(), 1);
    let r = c.receber_disparo_da_ia(3, 4);
    assert!(matches!(r.resultado, ResultadoDisparo::Afundou(_)));
    assert!(c.jogador_humano.perdeu());
}

#[test]
fn movimento_recusado_ainda_e_tratado() {
    let mut c = ControladorBatalha::novo();
    let t = c.jogador_humano.tabuleiro_mut();
    assert!(t.posicionar_navio("Fragata".to_string(), 3, 1, 1, true));
    assert!(t.posicionar_navio("Bote".to_string(), 1, 2, 3, true));
    assert!(c.tratar_clique_movimento_jogador(1, 2, 2, 1));
    assert_eq!(c.navio_selecionado_movimento, Some(0));
    // para baixo, a fragata bateria no bote
    assert_eq!(c.inferir_direcao_movimento_por_clique(0, 2, 2), Some((1, 0)));
    assert!(c.tratar_clique_movimento_jogador(2, 2, 2, 2));
    assert_eq!(c.navio_selecionado_movimento, Some(0));
    assert!(!c.movimento_jogador_realizado);
    assert_eq!(c.jogador_humano.tabuleiro().obter_celulas_navio(0), vec![(1, 1), (1, 2), (1, 3)]);
}

#[test]
fn concluir_turno_ia_com_e_sem_alvo() {
    let mut c = ControladorBatalha::novo();
    assert!(c.jogador_humano.tabuleiro_mut().posicionar_navio("Fragata".to_string(), 3, 1, 1, true));
    assert!(c.concluir_turno_ia(None).is_none());
    assert!(c.tiros_ia_no_tabuleiro_jogador.iter().all(|t| !t));
    assert_eq!(c.jogador_humano.tabuleiro().valor_celula(1, 2), Some(Celula::Ocupado(0)));
    let (x, y, r) = c.concluir_turno_ia(Some((1, 2))).unwrap();
    assert_eq!((x, y), (1, 2));
    assert!(matches!(r.resultado, ResultadoDisparo::Acerto));
    assert_eq!(c.jogador_humano.tabuleiro().valor_celula(1, 2), Some(Celula::Atingido(0)));
    assert!(c.tiros_ia_no_tabuleiro_jogador[BOARD_SIZE + 2]);
    assert_eq!(c.tiros_ia_no_tabuleiro_jogador.iter().filter(|t| **t).count(), 1);
    let (_, _, r) = c.concluir_turno_ia(Some((5, 5))).unwrap();
    assert!(matches!(r.resultado, ResultadoDisparo::Agua));
    assert!(c.tiros_ia_no_tabuleiro_jogador[5 * BOARD_SIZE + 5]);
}

#[test]
fn alvo_sorteado_pela_posicao() {
    let alvos = vec![(0, 0), (3, 4), (9, 9)];
    assert_eq!(alvo_sorteado(&alvos, 0), Some((0, 0)));
    assert_eq!(alvo_sorteado(&alvos, 1), Some((3, 4)));
    assert_eq!(alvo_sorteado(&alvos, 2), Some((9, 9)));
    assert_eq!(alvo_sorteado(&alvos, 3), None);
    assert_eq!(alvo_sorteado::<(usize, usize)>(&vec![], 0), None);
}

#[test]
fn limite_do_sorteio_e_a_ultima_posicao() {
    assert_eq!(limite_do_sorteio(&vec![(0, 0)]), 0);
    assert_eq!(limite_do_sorteio(&vec![(0, 0), (3, 4), (9, 9)]), 2);
}

#[test]
fn clique_no_posicionamento_poe_o_navio_escolhido() {
    let mut c = ControladorBatalha::novo();
    let fragata = Some(("Fragata".to_string(), 3, false));
    assert_eq!(c.tratar_clique_posicionamento(2, 4, fragata.clone()), DesfechoPosicionamento::Posicionado);
    assert_eq!(c.jogador_humano.tabuleiro().obter_celulas_navio(0), vec![(2, 4), (3, 4), (4, 4)]);
    // não cabe: sai do tabuleiro, ou cobriria a fragata
    assert_eq!(c.tratar_clique_posicionamento(8, 0, fragata.clone()), DesfechoPosicionamento::Nenhum);
    assert_eq!(
        c.tratar_clique_posicionamento(3, 3, Some(("Bote".to_string(), 2, true))),
        DesfechoPosicionamento::Nenhum
    );
    assert_eq!(c.jogador_humano.tabuleiro().navios.len(), 1);
    assert_eq!(c.tratar_clique_posicionamento(BOARD_SIZE, 0, fragata), DesfechoPosicionamento::Nenhum);
}

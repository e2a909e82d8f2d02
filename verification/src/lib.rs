//! Regras de uma batalha naval: tabuleiro, disparos, jogadores, a partida,
//! e os serviços de usuários, de ranking e de sessão, cada função com o
//! contrato do que devolve e do que muda.

pub mod tabuleiro;
pub mod disparo;
pub mod jogador;
pub mod jogador_ia;
pub mod coordenadas;
pub mod batalha;
pub mod usuario;
pub mod conquistas;
pub mod ranking;
pub mod sessao;

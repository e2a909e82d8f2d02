# batalha_naval

Regras de uma batalha naval para um jogo feito no Godot, verificadas com o
Verus.

- `src/` é a biblioteca verificada:
  - `tabuleiro`: a grade de 10 x 10 células e a frota; posicionar, deslocar e
    retirar navios, sempre mantendo o tabuleiro coerente (cada navio tem tantas
    partes quanto seu tamanho e tantos acertos quanto partes atingidas).
  - `disparo`: um disparo e seu desfecho (água, acerto, afundou, repetido,
    fora do tabuleiro).
  - `jogador`, `jogador_ia`: os jogadores; a estratégia fácil do adversário
    escolhe ao acaso entre as células ainda não atacadas, e a frota do
    adversário é posta em posições sorteadas.
  - `batalha`: o estado da partida guardado pelo controlador (disparos feitos,
    sequência de acertos, modo dinâmico, resultado final).
  - `coordenadas`: do mapa de células do Godot para linha e coluna.
  - `usuario`, `conquistas`, `ranking`, `sessao`: cadastro e entrada com
    senha (Argon2) sobre um repositório de usuários, conquistas, o ranking
    lido do JSON dos usuários e ordenado de forma estável, e o login da
    sessão.
- `tests/`: testes sobre valores concretos.
- `app/`: a extensão do Godot (cenas, cursor, rótulos do mapa, repositório
  de usuários em JSON), que usa a biblioteca.

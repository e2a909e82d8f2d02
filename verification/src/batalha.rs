//! O estado de uma partida do ponto de vista do controlador da batalha: os
//! dois jogadores, os disparos já feitos, a sequência de acertos, o modo
//! dinâmico e o resultado final. O motor de jogo chama estas funções e
//! desenha o que elas decidem.

use vstd::prelude::*;
use vstd::string::*;

use crate::disparo::{efeito_do_disparo, ResultadoDisparo, RetornoDisparo};
use crate::jogador::{frota_derrotada, Jogador};
use crate::jogador_ia::{alvo_disponivel, frota_posta, navios_da_frota, JogadorIA};
use crate::tabuleiro::{
    depois_do_deslocamento, eh_parte, indice, ja_disparada, lei_deslocamento_preserva_disparos, na_faixa,
    na_grade, celulas_do_navio, navio_da_celula, sem_o_navio, Celula, EstadoTabuleiro, Navio, BOARD_SIZE,
};

verus! {

/// Em que fase está a partida.
#[derive(Clone, Copy, Debug, PartialEq, Eq, Structural)]
pub enum EstadoTurno {
    SelecaoDificuldade,
    PosicionamentoJogador,
    TurnoJogador,
    TurnoIA,
    VitoriaJogador,
    VitoriaIA,
}

/// O que o motor de jogo deve fazer quando a fase da partida muda.
#[derive(Clone, Copy, Debug, PartialEq, Eq, Structural)]
pub enum AcaoMudancaEstado {
    /// Mostrar os navios a posicionar.
    PopularContainerNavios,
    /// Tocar a música de vitória e mostrar o resultado.
    TocarVitoria,
    /// Tocar a música de derrota e mostrar o resultado.
    TocarDerrota,
}

/// A grade de marcas `tiros` registra exatamente as células já atacadas
/// do tabuleiro `t`.
pub open spec fn registra_disparos(tiros: Seq<bool>, t: EstadoTabuleiro) -> bool {
    forall|a: int, b: int|
        na_grade(a, b) ==> #[trigger] tiros[indice(a, b)] == ja_disparada(t.celula(a, b))
}

/// Quantas marcas há em `s`.
pub open spec fn contar_marcas(s: Seq<bool>) -> nat
    decreases s.len(),
{
    if s.len() == 0 {
        0
    } else {
        contar_marcas(s.drop_last()) + if s.last() { 1nat } else { 0nat }
    }
}

/// Marcar uma posição desmarcada soma uma marca; marcar uma já marcada não muda nada.
pub proof fn lema_marcar(s: Seq<bool>, k: int)
    requires
        0 <= k < s.len(),
    ensures
        contar_marcas(s.update(k, true)) == contar_marcas(s) + if s[k] { 0int } else { 1int },
    decreases s.len(),
{
    let t = s.update(k, true);
    if k == s.len() - 1 {
        assert(t.drop_last() =~= s.drop_last());
    } else {
        assert(t.drop_last() =~= s.drop_last().update(k, true));
        lema_marcar(s.drop_last(), k);
    }
}

/// Nunca há mais marcas que posições.
pub proof fn lema_marcas_limitadas(s: Seq<bool>)
    ensures
        contar_marcas(s) <= s.len(),
    decreases s.len(),
{
    if s.len() > 0 {
        lema_marcas_limitadas(s.drop_last());
    }
}

/// Uma grade de `BOARD_SIZE` x `BOARD_SIZE` marcas, toda desmarcada.
fn grade_de_tiros_vazia() -> (v: Vec<bool>)
    ensures
        v@.len() == BOARD_SIZE * BOARD_SIZE,
        forall|k: int| 0 <= k < v@.len() ==> !v@[k],
{
    let mut v: Vec<bool> = Vec::new();
    let mut k: usize = 0;
    while k < BOARD_SIZE * BOARD_SIZE
        invariant
            k <= BOARD_SIZE * BOARD_SIZE,
            v@.len() == k,
            forall|j: int| 0 <= j < k ==> !v@[j],
        decreases BOARD_SIZE * BOARD_SIZE - k,
    {
        v.push(false);
        k = k + 1;
    }
    v
}

/// O estado da partida que o controlador guarda.
pub struct ControladorBatalha {
    pub jogador_humano: Jogador,
    pub jogador_ia: Option<JogadorIA>,
    pub estado_anterior: EstadoTurno,
    pub xray_ativo: bool,
    pub modo_dinamico: bool,
    pub navio_selecionado_movimento: Option<usize>,
    pub movimento_jogador_realizado: bool,
    /// Onde o jogador já disparou no tabuleiro do adversário, linha após linha.
    pub tiros_jogador_no_tabuleiro_ia: Vec<bool>,
    /// Onde o adversário já disparou no tabuleiro do jogador, linha após linha.
    pub tiros_ia_no_tabuleiro_jogador: Vec<bool>,
    pub resultado_final_emitido: bool,
    pub vitoria_registrada: Option<bool>,
    pub acertos_seguidos_atual: u32,
    pub max_acertos_seguidos: u32,
}

impl ControladorBatalha {
    /// O estado é coerente: as grades de tiros têm o tamanho do tabuleiro,
    /// os tabuleiros dos jogadores são coerentes e a maior sequência de
    /// acertos nunca é menor que a sequência atual.
    ///
    /// Além disso, cada grade de tiros registra exatamente as células já
    /// atacadas do tabuleiro correspondente (sem adversário, nenhuma), e a
    /// sequência atual de acertos não passa do número de disparos válidos.
    pub open spec fn bem_formado(&self) -> bool {
        &&& self.tiros_jogador_no_tabuleiro_ia@.len() == BOARD_SIZE * BOARD_SIZE
        &&& self.tiros_ia_no_tabuleiro_jogador@.len() == BOARD_SIZE * BOARD_SIZE
        &&& self.jogador_humano.estado().bem_formado()
        &&& (self.jogador_ia matches Some(ia) ==> ia.jogador_spec().estado().bem_formado())
        &&& self.acertos_seguidos_atual <= self.max_acertos_seguidos
        &&& registra_disparos(self.tiros_ia_no_tabuleiro_jogador@, self.jogador_humano.estado())
        &&& match self.jogador_ia {
            Some(ia) => registra_disparos(
                self.tiros_jogador_no_tabuleiro_ia@,
                ia.jogador_spec().estado(),
            ),
            None => forall|k: int|
                0 <= k < self.tiros_jogador_no_tabuleiro_ia@.len()
                    ==> !#[trigger] self.tiros_jogador_no_tabuleiro_ia@[k],
        }
        &&& self.acertos_seguidos_atual <= contar_marcas(self.tiros_jogador_no_tabuleiro_ia@)
    }

    /// Uma partida nova: escolhendo a dificuldade, jogador sem navios, sem
    /// adversário, sem disparos, sem resultado e sem acertos.
    pub fn novo() -> (c: Self)
        ensures
            c.bem_formado(),
            c.jogador_humano.estado().frota().len() == 0,
            c.jogador_ia is None,
            c.estado_anterior == EstadoTurno::SelecaoDificuldade,
            !c.xray_ativo,
            !c.modo_dinamico,
            c.navio_selecionado_movimento is None,
            !c.movimento_jogador_realizado,
            forall|k: int| 0 <= k < BOARD_SIZE * BOARD_SIZE ==> !c.tiros_jogador_no_tabuleiro_ia@[k],
            forall|k: int| 0 <= k < BOARD_SIZE * BOARD_SIZE ==> !c.tiros_ia_no_tabuleiro_jogador@[k],
            !c.resultado_final_emitido,
            c.vitoria_registrada is None,
            c.acertos_seguidos_atual == 0,
            c.max_acertos_seguidos == 0,
    {
        ControladorBatalha {
            jogador_humano: Jogador::novo_humano(),
            jogador_ia: None,
            estado_anterior: EstadoTurno::SelecaoDificuldade,
            xray_ativo: false,
            modo_dinamico: false,
            navio_selecionado_movimento: None,
            movimento_jogador_realizado: false,
            tiros_jogador_no_tabuleiro_ia: grade_de_tiros_vazia(),
            tiros_ia_no_tabuleiro_jogador: grade_de_tiros_vazia(),
            resultado_final_emitido: false,
            vitoria_registrada: None,
            acertos_seguidos_atual: 0,
            max_acertos_seguidos: 0,
        }
    }

    /// Registra o resultado final da partida, só da primeira vez: depois
    /// disso, novos resultados são ignorados.
    pub fn emitir_resultado_final(&mut self, vitoria: bool)
        ensures
            *final(self) == apos_emitir(*old(self), vitoria),
    {
        if self.resultado_final_emitido {
            return;
        }
        self.resultado_final_emitido = true;
        self.vitoria_registrada = Some(vitoria);
    }

    /// O resultado a anunciar quando o jogador pede para continuar, se já há
    /// um resultado registrado.
    pub fn continuar(&self) -> (r: Option<bool>)
        ensures
            r == self.vitoria_registrada,
    {
        self.vitoria_registrada
    }

    /// Liga ou desliga o modo dinâmico. Desligá-lo também desliga o raio-x;
    /// em qualquer caso, a seleção de navio e o movimento do turno recomeçam.
    pub fn definir_modo_dinamico(&mut self, ativo: bool)
        ensures
            *final(self) == (ControladorBatalha {
                modo_dinamico: ativo,
                xray_ativo: if ativo { old(self).xray_ativo } else { false },
                navio_selecionado_movimento: None,
                movimento_jogador_realizado: false,
                ..*old(self)
            }),
    {
        self.modo_dinamico = ativo;
        if !ativo {
            self.xray_ativo = false;
        }
        self.navio_selecionado_movimento = None;
        self.movimento_jogador_realizado = false;
    }

    /// A maior sequência de acertos seguidos do jogador nesta partida.
    pub fn obter_max_acertos_seguidos(&self) -> (r: i32)
        ensures
            r == self.max_acertos_seguidos as i32,
    {
        self.max_acertos_seguidos as i32
    }

    /// Algum navio do jogador já foi afundado.
    pub fn jogador_perdeu_algum_navio(&self) -> (r: bool)
        ensures
            r == exists|i: int|
                0 <= i < self.jogador_humano.estado().frota().len()
                    && (#[trigger] self.jogador_humano.estado().frota()[i]).afundado(),
    {
        let navios = &self.jogador_humano.tabuleiro().navios;
        let mut i: usize = 0;
        while i < navios.len()
            invariant
                navios@ == self.jogador_humano.estado().frota(),
                i <= navios.len(),
                forall|j: int| 0 <= j < i ==> !(#[trigger] navios@[j]).afundado(),
            decreases navios.len() - i,
        {
            if navios[i].esta_afundado() {
                return true;
            }
            i = i + 1;
        }
        false
    }

    /// Liga ou desliga o raio-x sobre o tabuleiro do adversário.
    pub fn alternar_xray(&mut self)
        ensures
            *final(self) == (ControladorBatalha { xray_ativo: !old(self).xray_ativo, ..*old(self) }),
    {
        self.xray_ativo = !self.xray_ativo;
    }

    /// O índice do navio escolhido na lista de navios a posicionar; um índice
    /// negativo não escolhe nada.
    pub fn selecionar_navio_do_container(&self, indice: i32) -> (r: Option<usize>)
        ensures
            r == (if indice < 0 { None } else { Some(indice as usize) }),
    {
        if indice < 0 {
            return None;
        }
        Some(indice as usize)
    }
}

/// O tabuleiro do adversário (quando há adversário).
pub open spec fn tabuleiro_da_ia(c: ControladorBatalha) -> EstadoTabuleiro {
    c.jogador_ia->0.jogador_spec().estado()
}

/// A sequência atual e a maior sequência de acertos depois de um disparo
/// do jogador com o desfecho dado: um acerto alonga a sequência, um disparo
/// na água a zera, um disparo recusado não conta.
pub open spec fn sequencias_apos(atual: u32, maior: u32, resultado: ResultadoDisparo) -> (u32, u32) {
    if !resultado.valido() {
        (atual, maior)
    } else if resultado.acertou() {
        let nova = (atual + 1) as u32;
        (nova, if nova > maior { nova } else { maior })
    } else {
        (0, maior)
    }
}

impl ControladorBatalha {
    /// O jogador dispara na célula (x, y) do adversário. Sem adversário, nada
    /// acontece e o resultado é `None`. Senão, devolve o retorno do disparo e
    /// se o adversário perdeu; um disparo válido fica registrado na grade de
    /// tiros e conta na sequência de acertos; se a partida segue, a seleção de
    /// navio e o movimento do turno recomeçam.
    pub fn tratar_clique_disparo_jogador(&mut self, x: usize, y: usize) -> (r: Option<(RetornoDisparo, bool)>)
        requires
            old(self).bem_formado(),
        ensures
            final(self).bem_formado(),
            old(self).jogador_ia is None ==> r is None && *final(self) == *old(self),
            old(self).jogador_ia is Some ==> (r matches Some((retorno, perdeu)) && {
                let (atual, maior) = sequencias_apos(
                    old(self).acertos_seguidos_atual,
                    old(self).max_acertos_seguidos,
                    retorno.resultado,
                );
                let recomeca = retorno.resultado.valido() && !perdeu;
                &&& final(self).jogador_ia is Some
                &&& efeito_do_disparo(tabuleiro_da_ia(*old(self)), tabuleiro_da_ia(*final(self)), x, y, retorno)
                &&& perdeu == frota_derrotada(tabuleiro_da_ia(*final(self)))
                &&& final(self).acertos_seguidos_atual == atual
                &&& final(self).max_acertos_seguidos == maior
                &&& final(self).navio_selecionado_movimento == if recomeca {
                    None
                } else {
                    old(self).navio_selecionado_movimento
                }
                &&& final(self).movimento_jogador_realizado == if recomeca {
                    false
                } else {
                    old(self).movimento_jogador_realizado
                }
                &&& final(self).jogador_humano == old(self).jogador_humano
                &&& final(self).tiros_ia_no_tabuleiro_jogador == old(self).tiros_ia_no_tabuleiro_jogador
                &&& final(self).estado_anterior == old(self).estado_anterior
                &&& final(self).xray_ativo == old(self).xray_ativo
                &&& final(self).modo_dinamico == old(self).modo_dinamico
                &&& final(self).resultado_final_emitido == old(self).resultado_final_emitido
                &&& final(self).vitoria_registrada == old(self).vitoria_registrada
            }),
    {
        let ghost antes = *self;
        let (retorno, ia_perdeu) = match &mut self.jogador_ia {
            None => {
                return None;
            },
            Some(ia) => {
                let retorno = ia.receber_disparo(x, y);
                let perdeu = ia.perdeu();
                (retorno, perdeu)
            },
        };
        if retorno.resultado.foi_valido() {
            let ghost t0 = tabuleiro_da_ia(antes);
            let ghost t1 = tabuleiro_da_ia(*self);
            let k = x * BOARD_SIZE + y;
            proof {
                assert(!ja_disparada(t0.celula(x as int, y as int)));
                assert(!antes.tiros_jogador_no_tabuleiro_ia@[indice(x as int, y as int)]);
                lema_marcar(self.tiros_jogador_no_tabuleiro_ia@, k as int);
                lema_marcas_limitadas(self.tiros_jogador_no_tabuleiro_ia@.update(k as int, true));
            }
            self.tiros_jogador_no_tabuleiro_ia.set(k, true);
            proof {
                assert forall|a: int, b: int| na_grade(a, b) implies
                    #[trigger] self.tiros_jogador_no_tabuleiro_ia@[indice(a, b)]
                        == ja_disparada(t1.celula(a, b)) by {
                    if indice(a, b) == k {
                        assert(a == x && b == y);
                    } else {
                        assert(t1.celula(a, b) == t0.celula(a, b));
                    }
                }
            }
            let acertou = match retorno.resultado {
                ResultadoDisparo::Acerto => true,
                ResultadoDisparo::Afundou(_) => true,
                _ => false,
            };
            if acertou {
                self.acertos_seguidos_atual = self.acertos_seguidos_atual + 1;
                if self.acertos_seguidos_atual > self.max_acertos_seguidos {
                    self.max_acertos_seguidos = self.acertos_seguidos_atual;
                }
            } else {
                self.acertos_seguidos_atual = 0;
            }
            if !ia_perdeu {
                self.movimento_jogador_realizado = false;
                self.navio_selecionado_movimento = None;
            }
        }
        Some((retorno, ia_perdeu))
    }
}

/// As quatro direções em que um navio pode ser deslocado.
pub open spec fn direcoes() -> Seq<(i32, i32)> {
    seq![(-1i32, 0i32), (1i32, 0i32), (0i32, -1i32), (0i32, 1i32)]
}

/// `celulas` contém a célula (x, y).
pub open spec fn contem_celula(celulas: Seq<(usize, usize)>, x: int, y: int) -> bool {
    exists|j: int| 0 <= j < celulas.len() && celulas[j].0 == x && celulas[j].1 == y
}

/// Deslocar `celulas` de (dx, dy) cobre a célula de destino de mapa
/// (coluna `destino_x`, linha `destino_y`), que ainda não é delas.
pub open spec fn borda_nova(
    celulas: Seq<(usize, usize)>,
    dx: int,
    dy: int,
    destino_x: int,
    destino_y: int,
) -> bool {
    exists|j: int|
        0 <= j < celulas.len() && {
            let nx = (#[trigger] celulas[j]).0 + dx;
            let ny = celulas[j].1 + dy;
            &&& na_grade(nx, ny)
            &&& !contem_celula(celulas, nx, ny)
            &&& destino_x == ny && destino_y == nx
        }
}

/// As direções cujo deslocamento cobre o destino, na ordem de `direcoes`.
pub open spec fn direcoes_candidatas(
    celulas: Seq<(usize, usize)>,
    destino_x: int,
    destino_y: int,
) -> Seq<(i32, i32)> {
    direcoes().filter(|d: (i32, i32)| borda_nova(celulas, d.0 as int, d.1 as int, destino_x, destino_y))
}

/// As células deslocadas de (dx, dy) que continuam no tabuleiro, na ordem.
pub open spec fn celulas_deslocadas_spec(s: Seq<(usize, usize)>, dx: int, dy: int) -> Seq<(usize, usize)>
    decreases s.len(),
{
    if s.len() == 0 {
        Seq::empty()
    } else {
        let (x, y) = s.last();
        let resto = celulas_deslocadas_spec(s.drop_last(), dx, dy);
        if na_grade(x + dx, y + dy) {
            resto.push(((x + dx) as usize, (y + dy) as usize))
        } else {
            resto
        }
    }
}

/// Diz se `celulas` contém (x, y).
fn contem(celulas: &Vec<(usize, usize)>, x: i32, y: i32) -> (r: bool)
    ensures
        r == contem_celula(celulas@, x as int, y as int),
{
    let mut j: usize = 0;
    while j < celulas.len()
        invariant
            j <= celulas@.len(),
            forall|i: int| 0 <= i < j ==> !(celulas@[i].0 == x && celulas@[i].1 == y),
        decreases celulas@.len() - j,
    {
        let (a, b) = celulas[j];
        if x >= 0 && y >= 0 && a == x as usize && b == y as usize {
            return true;
        }
        j = j + 1;
    }
    false
}

/// Diz se deslocar `celulas` de (dx, dy) cobre o destino de mapa
/// (coluna `destino_x`, linha `destino_y`) com uma célula nova.
fn contem_borda_nova(
    celulas: &Vec<(usize, usize)>,
    dx: i32,
    dy: i32,
    destino_x: i32,
    destino_y: i32,
) -> (r: bool)
    requires
        forall|j: int| 0 <= j < celulas@.len() ==> na_grade((#[trigger] celulas@[j]).0 as int, celulas@[j].1 as int),
        -1 <= dx <= 1,
        -1 <= dy <= 1,
    ensures
        r == borda_nova(celulas@, dx as int, dy as int, destino_x as int, destino_y as int),
{
    let mut j: usize = 0;
    while j < celulas.len()
        invariant
            forall|i: int| 0 <= i < celulas@.len() ==> na_grade((#[trigger] celulas@[i]).0 as int, celulas@[i].1 as int),
            -1 <= dx <= 1,
            -1 <= dy <= 1,
            j <= celulas@.len(),
            forall|i: int|
                0 <= i < j ==> !({
                    let nx = (#[trigger] celulas@[i]).0 + dx;
                    let ny = celulas@[i].1 + dy;
                    &&& na_grade(nx, ny)
                    &&& !contem_celula(celulas@, nx, ny)
                    &&& destino_x == ny && destino_y == nx
                }),
        decreases celulas@.len() - j,
    {
        let (x, y) = celulas[j];
        assert(na_grade(x as int, y as int));
        let nx = x as i32 + dx;
        let ny = y as i32 + dy;
        if !(nx < 0 || ny < 0 || nx >= BOARD_SIZE as i32 || ny >= BOARD_SIZE as i32) {
            let ja_era = contem(celulas, nx, ny);
            if !ja_era && destino_x == ny && destino_y == nx {
                return true;
            }
        }
        j = j + 1;
    }
    false
}

/// A direção em que o clique no destino de mapa (coluna `destino_x`, linha
/// `destino_y`) desloca o navio formado por `celulas`: a única das quatro
/// direções cujo deslocamento cobre o destino com uma célula nova; `None`
/// se nenhuma ou mais de uma cobre.
pub fn direcao_do_movimento(celulas: &Vec<(usize, usize)>, destino_x: i32, destino_y: i32) -> (r: Option<(i32, i32)>)
    requires
        forall|j: int| 0 <= j < celulas@.len() ==> na_grade((#[trigger] celulas@[j]).0 as int, celulas@[j].1 as int),
    ensures
        r == (if direcoes_candidatas(celulas@, destino_x as int, destino_y as int).len() == 1 {
            Some(direcoes_candidatas(celulas@, destino_x as int, destino_y as int)[0])
        } else {
            None
        }),
{
    if celulas.len() == 0 {
        proof {
            reveal_with_fuel(Seq::<_>::filter, 5);
            assert(direcoes_candidatas(celulas@, destino_x as int, destino_y as int).len() == 0);
        }
        return None;
    }
    let mut candidatos: Vec<(i32, i32)> = Vec::new();
    if contem_borda_nova(celulas, -1, 0, destino_x, destino_y) {
        candidatos.push((-1, 0));
    }
    if contem_borda_nova(celulas, 1, 0, destino_x, destino_y) {
        candidatos.push((1, 0));
    }
    if contem_borda_nova(celulas, 0, -1, destino_x, destino_y) {
        candidatos.push((0, -1));
    }
    if contem_borda_nova(celulas, 0, 1, destino_x, destino_y) {
        candidatos.push((0, 1));
    }
    proof {
        reveal_with_fuel(Seq::<_>::filter, 5);
        assert(candidatos@ =~= direcoes_candidatas(celulas@, destino_x as int, destino_y as int));
    }
    if candidatos.len() == 1 {
        Some(candidatos[0])
    } else {
        None
    }
}

/// As células deslocadas de (dx, dy) que continuam dentro do tabuleiro, na
/// ordem em que estavam.
pub fn celulas_deslocadas(celulas: &Vec<(usize, usize)>, dx: i32, dy: i32) -> (r: Vec<(usize, usize)>)
    requires
        forall|j: int| 0 <= j < celulas@.len() ==> na_grade((#[trigger] celulas@[j]).0 as int, celulas@[j].1 as int),
        -1 <= dx <= 1,
        -1 <= dy <= 1,
    ensures
        r@ == celulas_deslocadas_spec(celulas@, dx as int, dy as int),
{
    let mut r: Vec<(usize, usize)> = Vec::new();
    let mut j: usize = 0;
    while j < celulas.len()
        invariant
            forall|i: int| 0 <= i < celulas@.len() ==> na_grade((#[trigger] celulas@[i]).0 as int, celulas@[i].1 as int),
            -1 <= dx <= 1,
            -1 <= dy <= 1,
            j <= celulas@.len(),
            r@ == celulas_deslocadas_spec(celulas@.take(j as int), dx as int, dy as int),
        decreases celulas@.len() - j,
    {
        let (x, y) = celulas[j];
        assert(na_grade(x as int, y as int));
        assert(celulas@.take(j + 1).drop_last() =~= celulas@.take(j as int));
        let nx = x as i32 + dx;
        let ny = y as i32 + dy;
        if nx >= 0 && ny >= 0 && nx < BOARD_SIZE as i32 && ny < BOARD_SIZE as i32 {
            r.push((nx as usize, ny as usize));
        }
        j = j + 1;
    }
    assert(celulas@.take(j as int) =~= celulas@);
    r
}

/// (a, b) está no tabuleiro e é parte (intacta ou atingida) do navio `idx`.
pub open spec fn parte_do_navio(t: EstadoTabuleiro, idx: usize, a: int, b: int) -> bool {
    na_grade(a, b) && eh_parte(t.celula(a, b), idx)
}

/// Deslocar o navio `idx` de (dx, dy) cobre o destino de mapa (coluna
/// `destino_x`, linha `destino_y`) com uma célula que ainda não é dele.
pub open spec fn cobre_destino(
    t: EstadoTabuleiro,
    idx: usize,
    dx: int,
    dy: int,
    destino_x: int,
    destino_y: int,
) -> bool {
    &&& na_grade(destino_y, destino_x)
    &&& !parte_do_navio(t, idx, destino_y, destino_x)
    &&& parte_do_navio(t, idx, destino_y - dx, destino_x - dy)
}

/// As direções em que deslocar o navio `idx` cobre o destino.
pub open spec fn direcoes_do_navio(t: EstadoTabuleiro, idx: usize, destino_x: int, destino_y: int) -> Seq<(i32, i32)> {
    direcoes().filter(|d: (i32, i32)| cobre_destino(t, idx, d.0 as int, d.1 as int, destino_x, destino_y))
}

/// A direção inferida de um clique: a única candidata, se há uma só.
pub open spec fn direcao_inferida(t: EstadoTabuleiro, idx: usize, destino_x: int, destino_y: int) -> Option<(i32, i32)> {
    if direcoes_do_navio(t, idx, destino_x, destino_y).len() == 1 {
        Some(direcoes_do_navio(t, idx, destino_x, destino_y)[0])
    } else {
        None
    }
}

/// Se `celulas` são exatamente as partes do navio `idx`, testar o destino
/// nelas é testá-lo no tabuleiro.
proof fn lema_borda_nova_no_tabuleiro(
    celulas: Seq<(usize, usize)>,
    t: EstadoTabuleiro,
    idx: usize,
    dx: int,
    dy: int,
    destino_x: int,
    destino_y: int,
)
    requires
        forall|j: int|
            0 <= j < celulas.len() ==> parte_do_navio(t, idx, (#[trigger] celulas[j]).0 as int, celulas[j].1 as int),
        forall|a: int, b: int| #[trigger] parte_do_navio(t, idx, a, b) ==> celulas.contains((a as usize, b as usize)),
    ensures
        borda_nova(celulas, dx, dy, destino_x, destino_y) == cobre_destino(t, idx, dx, dy, destino_x, destino_y),
{
    let a = destino_y - dx;
    let b = destino_x - dy;
    if borda_nova(celulas, dx, dy, destino_x, destino_y) {
        let j = choose|j: int|
            0 <= j < celulas.len() && {
                let nx = (#[trigger] celulas[j]).0 + dx;
                let ny = celulas[j].1 + dy;
                &&& na_grade(nx, ny)
                &&& !contem_celula(celulas, nx, ny)
                &&& destino_x == ny && destino_y == nx
            };
        assert(parte_do_navio(t, idx, celulas[j].0 as int, celulas[j].1 as int));
        if parte_do_navio(t, idx, destino_y, destino_x) {
            assert(celulas.contains((destino_y as usize, destino_x as usize)));
            let i = choose|i: int| 0 <= i < celulas.len() && celulas[i] == (destino_y as usize, destino_x as usize);
            assert(contem_celula(celulas, destino_y, destino_x));
        }
    }
    if cobre_destino(t, idx, dx, dy, destino_x, destino_y) {
        assert(celulas.contains((a as usize, b as usize)));
        let j = choose|j: int| 0 <= j < celulas.len() && celulas[j] == (a as usize, b as usize);
        if contem_celula(celulas, destino_y, destino_x) {
            let i = choose|i: int| 0 <= i < celulas.len() && celulas[i].0 == destino_y && celulas[i].1 == destino_x;
            assert(parte_do_navio(t, idx, celulas[i].0 as int, celulas[i].1 as int));
        }
        assert(celulas[j].0 + dx == destino_y && celulas[j].1 + dy == destino_x);
    }
}

impl ControladorBatalha {
    /// A direção em que o clique no destino de mapa (coluna `destino_x`,
    /// linha `destino_y`) desloca o navio `navio_idx` do jogador.
    pub fn inferir_direcao_movimento_por_clique(&self, navio_idx: usize, destino_x: i32, destino_y: i32) -> (r: Option<(i32, i32)>)
        requires
            self.jogador_humano.estado().bem_formado(),
        ensures
            r == direcao_inferida(self.jogador_humano.estado(), navio_idx, destino_x as int, destino_y as int),
    {
        let t = self.jogador_humano.tabuleiro();
        let celulas = t.obter_celulas_navio(navio_idx);
        let r = direcao_do_movimento(&celulas, destino_x, destino_y);
        proof {
            let tt = self.jogador_humano.estado();
            assert forall|a: int, b: int| #[trigger] parte_do_navio(tt, navio_idx, a, b) implies celulas@.contains(
                (a as usize, b as usize),
            ) by {
                assert(eh_parte(tt.celula(a, b), navio_idx));
            }
            assert forall|i: int| 0 <= i < direcoes().len() implies borda_nova(
                celulas@,
                (#[trigger] direcoes()[i]).0 as int,
                direcoes()[i].1 as int,
                destino_x as int,
                destino_y as int,
            ) == cobre_destino(tt, navio_idx, direcoes()[i].0 as int, direcoes()[i].1 as int, destino_x as int, destino_y as int) by {
                lema_borda_nova_no_tabuleiro(
                    celulas@,
                    tt,
                    navio_idx,
                    direcoes()[i].0 as int,
                    direcoes()[i].1 as int,
                    destino_x as int,
                    destino_y as int,
                );
            }
            reveal_with_fuel(Seq::<_>::filter, 5);
            assert(direcoes()[0] == (-1i32, 0i32));
            assert(direcoes()[1] == (1i32, 0i32));
            assert(direcoes()[2] == (0i32, -1i32));
            assert(direcoes()[3] == (0i32, 1i32));
            assert(direcoes_candidatas(celulas@, destino_x as int, destino_y as int) =~= direcoes_do_navio(
                tt,
                navio_idx,
                destino_x as int,
                destino_y as int,
            ));
        }
        r
    }
}

/// O navio `i` do tabuleiro pode ser escolhido para o movimento dinâmico:
/// existe, não foi atingido e não afundou.
pub open spec fn navio_movel(t: EstadoTabuleiro, i: usize) -> bool {
    &&& i < t.frota().len()
    &&& t.frota()[i as int].acertos == 0
    &&& !t.frota()[i as int].afundado()
}

impl ControladorBatalha {
    /// Diz se o navio `i` do jogador pode ser escolhido para o movimento.
    fn navio_pode_ser_escolhido(&self, i: usize) -> (r: bool)
        ensures
            r == navio_movel(self.jogador_humano.estado(), i),
    {
        let navios = &self.jogador_humano.tabuleiro().navios;
        i < navios.len() && navios[i].acertos == 0 && !navios[i].esta_afundado()
    }

    /// Um clique do jogador, no modo dinâmico, na célula (x, y) do próprio
    /// tabuleiro, cujo destino de mapa é (coluna `destino_x`, linha
    /// `destino_y`). Diz se o clique foi tratado, isto é, se caiu no
    /// tabuleiro; fora dele nada muda e o clique pode ir a um disparo.
    ///
    /// Sem navio escolhido, ou clicando num navio intacto, o clique só
    /// escolhe esse navio, se ele pode mover-se. Com um navio escolhido e
    /// clicando fora dele, o navio é deslocado na direção inferida do clique,
    /// se o movimento é permitido; então o movimento do turno fica feito e a
    /// escolha se desfaz (é assim que se sabe que o navio se moveu).
    pub fn tratar_clique_movimento_jogador(&mut self, x: usize, y: usize, destino_x: i32, destino_y: i32) -> (tratado: bool)
        requires
            old(self).bem_formado(),
        ensures
            final(self).bem_formado(),
            tratado == (x < BOARD_SIZE && y < BOARD_SIZE),
            !tratado ==> *final(self) == *old(self),
            tratado ==> ({
                let t = old(self).jogador_humano.estado();
                let c = t.celula(x as int, y as int);
                let escolhe = c matches Celula::Ocupado(i) && navio_movel(t, i);
                if old(self).navio_selecionado_movimento is None || c is Ocupado {
                    *final(self) == (ControladorBatalha {
                        navio_selecionado_movimento: if escolhe {
                            Some(c->Ocupado_0)
                        } else {
                            old(self).navio_selecionado_movimento
                        },
                        ..*old(self)
                    })
                } else {
                    let idx = old(self).navio_selecionado_movimento->0;
                    let d = direcao_inferida(t, idx, destino_x as int, destino_y as int);
                    let moveu = d matches Some((dx, dy)) && t.movimento_permitido(idx, dx as int, dy as int);
                    &&& !moveu ==> *final(self) == *old(self)
                    &&& moveu ==> {
                        let t2 = final(self).jogador_humano.estado();
                        &&& t2.frota() == t.frota()
                        &&& forall|a: int, b: int|
                            na_grade(a, b) ==> #[trigger] t2.celula(a, b) == depois_do_deslocamento(
                                t,
                                idx,
                                d.unwrap().0 as int,
                                d.unwrap().1 as int,
                                a,
                                b,
                            )
                        &&& *final(self) == (ControladorBatalha {
                            jogador_humano: final(self).jogador_humano,
                            movimento_jogador_realizado: true,
                            navio_selecionado_movimento: None,
                            ..*old(self)
                        })
                    }
                }
            }),
    {
        if !(x < BOARD_SIZE && y < BOARD_SIZE) {
            return false;
        }
        let celula = self.jogador_humano.tabuleiro().valor_celula(x, y);
        let clicou_em_navio = match celula {
            Some(Celula::Ocupado(_)) => true,
            _ => false,
        };
        if self.navio_selecionado_movimento.is_none() || clicou_em_navio {
            if let Some(Celula::Ocupado(idx)) = celula {
                if self.navio_pode_ser_escolhido(idx) {
                    self.navio_selecionado_movimento = Some(idx);
                }
            }
            return true;
        }
        let navio_idx = match self.navio_selecionado_movimento {
            Some(i) => i,
            None => {
                return true;
            },
        };
        let (dx, dy) = match self.inferir_direcao_movimento_por_clique(navio_idx, destino_x, destino_y) {
            Some(d) => d,
            None => {
                return true;
            },
        };
        if !self.jogador_humano.tabuleiro().pode_mover_navio(navio_idx, dx, dy) {
            return true;
        }
        let ghost t0 = self.jogador_humano.estado();
        let _ = self.jogador_humano.tabuleiro_mut().mover_navio(navio_idx, dx, dy);
        proof {
            lei_deslocamento_preserva_disparos(t0, self.jogador_humano.estado(), navio_idx, dx as int, dy as int);
            let t2 = self.jogador_humano.estado();
            assert forall|a: int, b: int| na_grade(a, b) implies
                #[trigger] self.tiros_ia_no_tabuleiro_jogador@[indice(a, b)] == ja_disparada(t2.celula(a, b)) by {
                assert(ja_disparada(t2.celula(a, b)) == ja_disparada(t0.celula(a, b)));
            }
        }
        self.movimento_jogador_realizado = true;
        self.navio_selecionado_movimento = None;
        true
    }
}

impl ControladorBatalha {
    /// A prévia do movimento dinâmico para o destino de mapa (coluna
    /// `destino_x`, linha `destino_y`): as células para onde o navio
    /// escolhido iria (as que ficam no tabuleiro), se o movimento é
    /// permitido, e o nome do navio (`"Navio"` se não há navio com aquele
    /// índice). `None` se não há navio escolhido ou direção inferida.
    pub fn preview_movimento_dinamico(&self, destino_x: i32, destino_y: i32) -> (r: Option<(Vec<(usize, usize)>, bool, String)>)
        requires
            self.bem_formado(),
        ensures
            ({
                let t = self.jogador_humano.estado();
                match self.navio_selecionado_movimento {
                    None => r is None,
                    Some(idx) => match direcao_inferida(t, idx, destino_x as int, destino_y as int) {
                        None => r is None,
                        Some((dx, dy)) => r matches Some((celulas, valido, nome)) && {
                            &&& celulas@ == celulas_deslocadas_spec(celulas_do_navio(t, idx), dx as int, dy as int)
                            &&& valido == t.movimento_permitido(idx, dx as int, dy as int)
                            &&& nome@ == if idx < t.frota().len() {
                                t.frota()[idx as int].nome@
                            } else {
                                "Navio"@
                            }
                        },
                    },
                }
            }),
    {
        let navio_idx = match self.navio_selecionado_movimento {
            Some(i) => i,
            None => {
                return None;
            },
        };
        let (dx, dy) = match self.inferir_direcao_movimento_por_clique(navio_idx, destino_x, destino_y) {
            Some(d) => d,
            None => {
                return None;
            },
        };
        proof {
            reveal_with_fuel(Seq::<_>::filter, 5);
        }
        let t = self.jogador_humano.tabuleiro();
        let celulas_atuais = t.obter_celulas_navio(navio_idx);
        let celulas_destino = celulas_deslocadas(&celulas_atuais, dx, dy);
        let valido = t.pode_mover_navio(navio_idx, dx, dy);
        let nome = if navio_idx < t.navios.len() {
            t.navios[navio_idx].nome.clone()
        } else {
            String::from_str("Navio")
        };
        Some((celulas_destino, valido, nome))
    }

    /// O disparo do adversário na célula (x, y) do tabuleiro do jogador: o
    /// tabuleiro do jogador muda como diz `efeito_do_disparo`, um disparo
    /// válido fica registrado na grade de tiros do adversário, e nada mais
    /// muda.
    pub fn receber_disparo_da_ia(&mut self, x: usize, y: usize) -> (retorno: RetornoDisparo)
        requires
            old(self).bem_formado(),
        ensures
            final(self).bem_formado(),
            efeito_do_disparo(
                old(self).jogador_humano.estado(),
                final(self).jogador_humano.estado(),
                x,
                y,
                retorno,
            ),
            final(self).tiros_ia_no_tabuleiro_jogador@ == if retorno.resultado.valido() {
                old(self).tiros_ia_no_tabuleiro_jogador@.update(indice(x as int, y as int), true)
            } else {
                old(self).tiros_ia_no_tabuleiro_jogador@
            },
            *final(self) == (ControladorBatalha {
                jogador_humano: final(self).jogador_humano,
                tiros_ia_no_tabuleiro_jogador: final(self).tiros_ia_no_tabuleiro_jogador,
                ..*old(self)
            }),
    {
        let ghost t0 = self.jogador_humano.estado();
        let retorno = self.jogador_humano.receber_disparo(x, y);
        if retorno.resultado.foi_valido() {
            let k = x * BOARD_SIZE + y;
            self.tiros_ia_no_tabuleiro_jogador.set(k, true);
            proof {
                let t1 = self.jogador_humano.estado();
                assert forall|a: int, b: int| na_grade(a, b) implies
                    #[trigger] self.tiros_ia_no_tabuleiro_jogador@[indice(a, b)]
                        == ja_disparada(t1.celula(a, b)) by {
                    if indice(a, b) == k {
                        assert(a == x && b == y);
                    } else {
                        assert(t1.celula(a, b) == t0.celula(a, b));
                    }
                }
            }
        }
        retorno
    }

    /// Conclui o turno do adversário com o alvo que a estratégia escolheu:
    /// sem alvo, nada muda e o resultado é `None`; com o alvo (x, y), o
    /// disparo é o de `receber_disparo_da_ia` e o resultado traz o alvo e o
    /// retorno.
    pub fn concluir_turno_ia(&mut self, alvo: Option<(usize, usize)>) -> (r: Option<(usize, usize, RetornoDisparo)>)
        requires
            old(self).bem_formado(),
        ensures
            final(self).bem_formado(),
            alvo is None ==> r is None && *final(self) == *old(self),
            alvo matches Some((x, y)) ==> (r matches Some((rx, ry, retorno)) && {
                &&& rx == x && ry == y
                &&& efeito_do_disparo(
                    old(self).jogador_humano.estado(),
                    final(self).jogador_humano.estado(),
                    x,
                    y,
                    retorno,
                )
                &&& final(self).tiros_ia_no_tabuleiro_jogador@ == if retorno.resultado.valido() {
                    old(self).tiros_ia_no_tabuleiro_jogador@.update(indice(x as int, y as int), true)
                } else {
                    old(self).tiros_ia_no_tabuleiro_jogador@
                }
                &&& *final(self) == (ControladorBatalha {
                    jogador_humano: final(self).jogador_humano,
                    tiros_ia_no_tabuleiro_jogador: final(self).tiros_ia_no_tabuleiro_jogador,
                    ..*old(self)
                })
            }),
    {
        match alvo {
            None => None,
            Some((x, y)) => {
                let retorno = self.receber_disparo_da_ia(x, y);
                Some((x, y, retorno))
            },
        }
    }

    /// O adversário dispara no tabuleiro do jogador, no alvo que sua
    /// estratégia escolher. Sem adversário, ou se a estratégia não escolhe
    /// alvo, o resultado é `None` e nada muda além do estado interno da
    /// estratégia. Senão, o turno é concluído por `concluir_turno_ia` com o
    /// alvo escolhido, que é sempre uma célula ainda não atacada; havendo
    /// adversário e alguma célula do jogador ainda não atacada, há disparo,
    /// com o modo dinâmico ligado ou não.
    pub fn executar_turno_ia(&mut self) -> (r: Option<(usize, usize, RetornoDisparo)>)
        requires
            old(self).bem_formado(),
        ensures
            final(self).bem_formado(),
            old(self).jogador_ia is None ==> r is None && *final(self) == *old(self),
            final(self).jogador_ia is Some == old(self).jogador_ia is Some,
            old(self).jogador_ia is Some ==> tabuleiro_da_ia(*final(self)) == tabuleiro_da_ia(*old(self)),
            r is None ==> final(self).jogador_humano == old(self).jogador_humano
                && final(self).tiros_ia_no_tabuleiro_jogador == old(self).tiros_ia_no_tabuleiro_jogador,
            old(self).jogador_ia is Some && (exists|x: int, y: int|
                alvo_disponivel(old(self).jogador_humano.estado(), x, y)) ==> r is Some,
            r matches Some((x, y, retorno)) ==> {
                &&& alvo_disponivel(old(self).jogador_humano.estado(), x as int, y as int)
                &&& efeito_do_disparo(
                    old(self).jogador_humano.estado(),
                    final(self).jogador_humano.estado(),
                    x,
                    y,
                    retorno,
                )
                &&& final(self).tiros_ia_no_tabuleiro_jogador@ == if retorno.resultado.valido() {
                    old(self).tiros_ia_no_tabuleiro_jogador@.update(indice(x as int, y as int), true)
                } else {
                    old(self).tiros_ia_no_tabuleiro_jogador@
                }
            },
            final(self).tiros_jogador_no_tabuleiro_ia == old(self).tiros_jogador_no_tabuleiro_ia,
            final(self).estado_anterior == old(self).estado_anterior,
            final(self).xray_ativo == old(self).xray_ativo,
            final(self).modo_dinamico == old(self).modo_dinamico,
            final(self).navio_selecionado_movimento == old(self).navio_selecionado_movimento,
            final(self).movimento_jogador_realizado == old(self).movimento_jogador_realizado,
            final(self).resultado_final_emitido == old(self).resultado_final_emitido,
            final(self).vitoria_registrada == old(self).vitoria_registrada,
            final(self).acertos_seguidos_atual == old(self).acertos_seguidos_atual,
            final(self).max_acertos_seguidos == old(self).max_acertos_seguidos,
    {
        let alvo = match &mut self.jogador_ia {
            None => {
                return None;
            },
            Some(ia) => ia.escolher_alvo(self.jogador_humano.tabuleiro()),
        };
        self.concluir_turno_ia(alvo)
    }

    /// Quais cursores mostrar na fase dada: o do tabuleiro do jogador e o do
    /// tabuleiro do adversário.
    pub fn visibilidade_dos_cursores(&self, estado: EstadoTurno) -> (r: (bool, bool))
        ensures
            r == match estado {
                EstadoTurno::PosicionamentoJogador => (true, false),
                EstadoTurno::TurnoJogador => if self.modo_dinamico && !self.movimento_jogador_realizado {
                    (true, true)
                } else {
                    (false, true)
                },
                _ => (false, false),
            },
    {
        match estado {
            EstadoTurno::PosicionamentoJogador => (true, false),
            EstadoTurno::TurnoJogador => {
                if self.modo_dinamico && !self.movimento_jogador_realizado {
                    (true, true)
                } else {
                    (false, true)
                }
            },
            _ => (false, false),
        }
    }

    /// O aviso de movimento dinâmico aparece no turno do jogador, com o
    /// modo dinâmico ligado.
    pub fn mostrar_label_movimento_dinamico(&self, estado: EstadoTurno) -> (r: bool)
        ensures
            r == (self.modo_dinamico && estado == EstadoTurno::TurnoJogador),
    {
        self.modo_dinamico && estado == EstadoTurno::TurnoJogador
    }

    /// Reage à fase atual da partida, se ela mudou desde a última vez: ao
    /// posicionar, pede a lista de navios; no turno do jogador, o movimento
    /// recomeça; numa vitória ou derrota, registra o resultado e pede a
    /// música correspondente. Lembra a fase atual.
    pub fn ao_mudar_estado(&mut self, estado: EstadoTurno) -> (r: Option<AcaoMudancaEstado>)
        requires
            old(self).bem_formado(),
        ensures
            final(self).bem_formado(),
            estado == old(self).estado_anterior ==> r is None && *final(self) == *old(self),
            estado != old(self).estado_anterior ==> {
                let base = ControladorBatalha { estado_anterior: estado, ..*old(self) };
                let registrado = ControladorBatalha {
                    resultado_final_emitido: true,
                    vitoria_registrada: Some(estado == EstadoTurno::VitoriaJogador),
                    ..base
                };
                match estado {
                    EstadoTurno::PosicionamentoJogador => r == Some(AcaoMudancaEstado::PopularContainerNavios)
                        && *final(self) == base,
                    EstadoTurno::TurnoJogador => r is None && *final(self) == (ControladorBatalha {
                        movimento_jogador_realizado: false,
                        ..base
                    }),
                    EstadoTurno::VitoriaJogador => r == Some(AcaoMudancaEstado::TocarVitoria) && *final(self)
                        == if old(self).resultado_final_emitido { base } else { registrado },
                    EstadoTurno::VitoriaIA => r == Some(AcaoMudancaEstado::TocarDerrota) && *final(self)
                        == if old(self).resultado_final_emitido { base } else { registrado },
                    _ => r is None && *final(self) == base,
                }
            },
    {
        if estado == self.estado_anterior {
            return None;
        }
        let r = match estado {
            EstadoTurno::PosicionamentoJogador => Some(AcaoMudancaEstado::PopularContainerNavios),
            EstadoTurno::TurnoJogador => {
                self.movimento_jogador_realizado = false;
                None
            },
            EstadoTurno::VitoriaJogador => {
                self.emitir_resultado_final(true);
                Some(AcaoMudancaEstado::TocarVitoria)
            },
            EstadoTurno::VitoriaIA => {
                self.emitir_resultado_final(false);
                Some(AcaoMudancaEstado::TocarDerrota)
            },
            _ => None,
        };
        self.estado_anterior = estado;
        r
    }

    /// Encerra a partida com vitória do jogador (atalho de teste do jogo),
    /// se ela ainda não acabou: registra o resultado, se ainda não havia, e
    /// lembra a fase de vitória. Com a partida acabada, nada muda.
    pub fn vencer_teste(&mut self, jogo_terminou: bool)
        ensures
            jogo_terminou ==> *final(self) == *old(self),
            !jogo_terminou ==> *final(self) == (ControladorBatalha {
                estado_anterior: EstadoTurno::VitoriaJogador,
                ..apos_emitir(*old(self), true)
            }),
    {
        if jogo_terminou {
            return;
        }
        self.emitir_resultado_final(true);
        self.estado_anterior = EstadoTurno::VitoriaJogador;
    }

    /// Encerra a partida com vitória do adversário (atalho de teste do jogo),
    /// se ela ainda não acabou: registra o resultado, se ainda não havia, e
    /// lembra a fase de derrota. Com a partida acabada, nada muda.
    pub fn perder_teste(&mut self, jogo_terminou: bool)
        ensures
            jogo_terminou ==> *final(self) == *old(self),
            !jogo_terminou ==> *final(self) == (ControladorBatalha {
                estado_anterior: EstadoTurno::VitoriaIA,
                ..apos_emitir(*old(self), false)
            }),
    {
        if jogo_terminou {
            return;
        }
        self.emitir_resultado_final(false);
        self.estado_anterior = EstadoTurno::VitoriaIA;
    }

    /// Começa a batalha: o adversário, se há um, põe a frota dada em
    /// posições sorteadas do seu tabuleiro (`preencher_aleatoriamente`), e só
    /// fica de fora o navio que não cabe em lugar nenhum; o
    /// movimento do turno recomeça e nenhum navio fica escolhido.
    pub fn iniciar_fase_batalha(&mut self, frota_ia: &Vec<(String, usize)>)
        requires
            old(self).bem_formado(),
        ensures
            final(self).bem_formado(),
            final(self).jogador_ia is Some == old(self).jogador_ia is Some,
            old(self).jogador_ia is Some ==> {
                let t0 = tabuleiro_da_ia(*old(self));
                let t1 = tabuleiro_da_ia(*final(self));
                &&& t0.frota().len() <= t1.frota().len()
                &&& t1.frota().subrange(0, t0.frota().len() as int) == t0.frota()
                &&& navios_da_frota(t1.frota().subrange(t0.frota().len() as int, t1.frota().len() as int), frota_ia@)
                &&& frota_posta(t1.frota().subrange(t0.frota().len() as int, t1.frota().len() as int), frota_ia@, t1)
                &&& forall|a: int, b: int|
                    na_grade(a, b) ==> ja_disparada(#[trigger] t1.celula(a, b)) == ja_disparada(t0.celula(a, b))
            },
            *final(self) == (ControladorBatalha {
                jogador_ia: final(self).jogador_ia,
                movimento_jogador_realizado: false,
                navio_selecionado_movimento: None,
                ..*old(self)
            }),
    {
        if let Some(ia) = &mut self.jogador_ia {
            ia.jogador_mut().tabuleiro_mut().preencher_aleatoriamente(frota_ia);
        }
        self.movimento_jogador_realizado = false;
        self.navio_selecionado_movimento = None;
    }

    /// Na seleção de dificuldade, escolher a fácil cria o adversário que
    /// dispara ao acaso, e nada mais muda: sem adversário ainda, não houve
    /// disparos contra ele. Se já havia um, a grade dos disparos do jogador e
    /// a sequência de acertos recomeçam com o novo tabuleiro dele. Fora dessa
    /// fase, nada muda. Diz se criou o adversário.
    pub fn selecionar_dificuldade_facil(&mut self, estado: EstadoTurno) -> (r: bool)
        requires
            old(self).bem_formado(),
        ensures
            final(self).bem_formado(),
            r == (estado == EstadoTurno::SelecaoDificuldade),
            !r ==> *final(self) == *old(self),
            r ==> {
                &&& final(self).jogador_ia is Some
                &&& tabuleiro_da_ia(*final(self)).frota().len() == 0
                &&& forall|x: int, y: int|
                    na_grade(x, y) ==> tabuleiro_da_ia(*final(self)).celula(x, y) == Celula::Vazio
                &&& forall|k: int| 0 <= k < BOARD_SIZE * BOARD_SIZE ==> !final(self).tiros_jogador_no_tabuleiro_ia@[k]
                &&& old(self).jogador_ia is None ==> *final(self) == (ControladorBatalha {
                    jogador_ia: final(self).jogador_ia,
                    ..*old(self)
                })
                &&& old(self).jogador_ia is Some ==> *final(self) == (ControladorBatalha {
                    jogador_ia: final(self).jogador_ia,
                    tiros_jogador_no_tabuleiro_ia: final(self).tiros_jogador_no_tabuleiro_ia,
                    acertos_seguidos_atual: 0,
                    ..*old(self)
                })
            },
    {
        if estado != EstadoTurno::SelecaoDificuldade {
            return false;
        }
        let havia_adversario = self.jogador_ia.is_some();
        self.jogador_ia = Some(JogadorIA::novo_facil());
        if havia_adversario {
            self.tiros_jogador_no_tabuleiro_ia = grade_de_tiros_vazia();
            self.acertos_seguidos_atual = 0;
        }
        true
    }
}

/// O controlador depois de registrar o resultado `vitoria`.
pub open spec fn apos_emitir(c: ControladorBatalha, vitoria: bool) -> ControladorBatalha {
    if c.resultado_final_emitido {
        c
    } else {
        ControladorBatalha { resultado_final_emitido: true, vitoria_registrada: Some(vitoria), ..c }
    }
}

/// O resultado final só é registrado uma vez: registrar de novo, com
/// qualquer resultado, não muda nada.
pub proof fn lei_resultado_final_unico(c: ControladorBatalha, v1: bool, v2: bool)
    ensures
        apos_emitir(apos_emitir(c, v1), v2) == apos_emitir(c, v1),
        apos_emitir(c, v1).vitoria_registrada == if c.resultado_final_emitido {
            c.vitoria_registrada
        } else {
            Some(v1)
        },
{
}

/// A maior sequência de acertos nunca diminui e nunca fica abaixo da
/// sequência atual.
pub proof fn lei_maior_sequencia(atual: u32, maior: u32, resultado: ResultadoDisparo)
    requires
        atual <= maior,
        atual < u32::MAX,
    ensures
        sequencias_apos(atual, maior, resultado).1 >= maior,
        sequencias_apos(atual, maior, resultado).0 <= sequencias_apos(atual, maior, resultado).1,
{
}

/// Retirar um navio da frota não muda quais células já foram atacadas.
proof fn lema_remocao_preserva_disparos(t0: EstadoTabuleiro, t1: EstadoTabuleiro, idx: usize)
    requires
        t0.grade().len() == BOARD_SIZE * BOARD_SIZE,
        t1.grade() == t0.grade().map_values(|c: Celula| sem_o_navio(c, idx)),
    ensures
        forall|a: int, b: int|
            na_grade(a, b) ==> ja_disparada(#[trigger] t1.celula(a, b)) == ja_disparada(t0.celula(a, b)),
{
    assert forall|a: int, b: int| na_grade(a, b) implies ja_disparada(#[trigger] t1.celula(a, b))
        == ja_disparada(t0.celula(a, b)) by {
        assert(0 <= indice(a, b) < t0.grade().len());
    }
}

impl ControladorBatalha {
    /// Um clique na célula (x, y) do próprio tabuleiro durante o
    /// posicionamento: se ali há um navio, ele é retirado da frota e seu nome
    /// é devolvido, para voltar à lista de navios a posicionar. Senão, o
    /// navio que a fase de posicionamento tem escolhido (nome, tamanho e se
    /// fica na horizontal), se algum, é posto a partir de (x, y), se couber.
    pub fn tratar_clique_posicionamento(
        &mut self,
        x: usize,
        y: usize,
        navio_a_posicionar: Option<(String, usize, bool)>,
    ) -> (r: DesfechoPosicionamento)
        requires
            old(self).bem_formado(),
        ensures
            final(self).bem_formado(),
            ({
                let t0 = old(self).jogador_humano.estado();
                let t1 = final(self).jogador_humano.estado();
                let tem_navio = x < BOARD_SIZE && y < BOARD_SIZE && navio_da_celula(
                    t0.celula(x as int, y as int),
                ) is Some;
                let posiciona = !tem_navio && (navio_a_posicionar matches Some((_, tamanho, horizontal))
                    && t0.cabe(tamanho as int, x as int, y as int, horizontal));
                &&& r is Retirado <==> tem_navio
                &&& r is Posicionado <==> posiciona
                &&& r is Retirado ==> {
                    let idx = navio_da_celula(t0.celula(x as int, y as int))->0;
                    &&& r == DesfechoPosicionamento::Retirado(t0.frota()[idx as int].nome)
                    &&& t1.frota() == t0.frota().remove(idx as int)
                    &&& t1.grade() == t0.grade().map_values(|c: Celula| sem_o_navio(c, idx))
                }
                &&& r is Posicionado ==> {
                    let (nome, tamanho, horizontal) = navio_a_posicionar.unwrap();
                    &&& t1.frota() == t0.frota().push(Navio { nome, tamanho, acertos: 0 })
                    &&& forall|a: int, b: int|
                        na_grade(a, b) ==> #[trigger] t1.celula(a, b) == if na_faixa(
                            x as int,
                            y as int,
                            tamanho as int,
                            horizontal,
                            a,
                            b,
                        ) {
                            Celula::Ocupado(t0.frota().len() as usize)
                        } else {
                            t0.celula(a, b)
                        }
                }
                &&& r is Nenhum ==> t1.grade() == t0.grade() && t1.frota() == t0.frota()
            }),
            *final(self) == (ControladorBatalha { jogador_humano: final(self).jogador_humano, ..*old(self) }),
    {
        let ghost t0 = self.jogador_humano.estado();
        if let Some(nome) = self.jogador_humano.tabuleiro_mut().remover_navio_na_posicao(x, y) {
            proof {
                let t1 = self.jogador_humano.estado();
                let idx = navio_da_celula(t0.celula(x as int, y as int))->0;
                lema_remocao_preserva_disparos(t0, t1, idx);
                assert forall|a: int, b: int| na_grade(a, b) implies
                    #[trigger] self.tiros_ia_no_tabuleiro_jogador@[indice(a, b)] == ja_disparada(t1.celula(a, b)) by {
                    assert(ja_disparada(t1.celula(a, b)) == ja_disparada(t0.celula(a, b)));
                }
            }
            return DesfechoPosicionamento::Retirado(nome);
        }
        let ghost t_meio = self.jogador_humano.estado();
        assert(t_meio.grade() == t0.grade() && t_meio.frota() == t0.frota());
        assert(forall|a: int, b: int| #[trigger] t_meio.celula(a, b) == t0.celula(a, b));
        match navio_a_posicionar {
            None => DesfechoPosicionamento::Nenhum,
            Some((nome, tamanho, horizontal)) => {
                assert(t_meio.cabe(tamanho as int, x as int, y as int, horizontal) == t0.cabe(
                    tamanho as int,
                    x as int,
                    y as int,
                    horizontal,
                )) by {
                    if t0.cabe(tamanho as int, x as int, y as int, horizontal) {
                        assert forall|a: int, b: int|
                            na_faixa(x as int, y as int, tamanho as int, horizontal, a, b) implies #[trigger] t_meio.celula(a, b)
                                == Celula::Vazio by {
                            assert(t0.celula(a, b) == Celula::Vazio);
                        }
                    }
                    if t_meio.cabe(tamanho as int, x as int, y as int, horizontal) {
                        assert forall|a: int, b: int|
                            na_faixa(x as int, y as int, tamanho as int, horizontal, a, b) implies #[trigger] t0.celula(a, b)
                                == Celula::Vazio by {
                            assert(t_meio.celula(a, b) == Celula::Vazio);
                        }
                    }
                }
                let ok = self.jogador_humano.tabuleiro_mut().posicionar_navio(nome, tamanho, x, y, horizontal);
                proof {
                    let t1 = self.jogador_humano.estado();
                    assert forall|a: int, b: int| na_grade(a, b) implies
                        #[trigger] self.tiros_ia_no_tabuleiro_jogador@[indice(a, b)] == ja_disparada(t1.celula(a, b)) by {
                        if ok {
                            if na_faixa(x as int, y as int, tamanho as int, horizontal, a, b) {
                                assert(t0.celula(a, b) == Celula::Vazio);
                            }
                        } else {
                            assert(t1.celula(a, b) == t0.celula(a, b));
                        }
                    }
                }
                if ok {
                    DesfechoPosicionamento::Posicionado
                } else {
                    DesfechoPosicionamento::Nenhum
                }
            },
        }
    }

    /// O raio-x do adversário aparece se está ligado e a partida não acabou.
    pub fn mostrar_xray(&self, jogo_terminou: bool) -> (r: bool)
        ensures
            r == (!jogo_terminou && self.xray_ativo),
    {
        !jogo_terminou && self.xray_ativo
    }
}

/// O que um clique no posicionamento fez.
#[derive(Debug, PartialEq, Eq)]
pub enum DesfechoPosicionamento {
    /// Retirou o navio com este nome.
    Retirado(String),
    /// Pôs o navio escolhido.
    Posicionado,
    /// Não mudou nada.
    Nenhum,
}

/// As teclas que a partida trata por si.
#[derive(Clone, Copy, Debug, PartialEq, Eq, Structural)]
pub enum Tecla {
    F1,
    F2,
    F3,
    Outra,
}

/// Para onde vai um clique do mouse, conforme a fase da partida.
#[derive(Clone, Copy, Debug, PartialEq, Eq, Structural)]
pub enum DestinoClique {
    /// Posicionar ou retirar navios no próprio tabuleiro.
    Posicionamento,
    /// Mover um navio, se o clique cai no próprio tabuleiro; senão, disparar.
    MovimentoOuDisparo,
    /// Disparar no tabuleiro do adversário.
    Disparo,
    /// Nada a fazer.
    Nenhum,
}

/// A linha da folha de sprites onde começa o desenho de um navio do tamanho
/// dado na lista de navios a posicionar.
pub fn linha_base_do_sprite(tamanho: usize) -> (r: u32)
    ensures
        r == match tamanho {
            1 => 0u32,
            3 => 1u32,
            4 => 4u32,
            6 => 8u32,
            _ => 0u32,
        },
{
    match tamanho {
        1 => 0,
        3 => 1,
        4 => 4,
        6 => 8,
        _ => 0,
    }
}

impl ControladorBatalha {
    /// Para onde vai um clique do botão esquerdo na fase dada: com a partida
    /// acabada, a nada; no posicionamento, ao próprio tabuleiro; no turno do
    /// jogador, a um movimento (com o modo dinâmico ligado e o movimento do
    /// turno ainda por fazer) ou a um disparo; nas outras fases, a nada.
    pub fn destino_do_clique(&self, estado: EstadoTurno, jogo_terminou: bool) -> (r: DestinoClique)
        ensures
            r == if jogo_terminou {
                DestinoClique::Nenhum
            } else {
                match estado {
                    EstadoTurno::PosicionamentoJogador => DestinoClique::Posicionamento,
                    EstadoTurno::TurnoJogador => if self.modo_dinamico && !self.movimento_jogador_realizado {
                        DestinoClique::MovimentoOuDisparo
                    } else {
                        DestinoClique::Disparo
                    },
                    _ => DestinoClique::Nenhum,
                }
            },
    {
        if jogo_terminou {
            return DestinoClique::Nenhum;
        }
        match estado {
            EstadoTurno::PosicionamentoJogador => DestinoClique::Posicionamento,
            EstadoTurno::TurnoJogador => {
                if self.modo_dinamico && !self.movimento_jogador_realizado {
                    DestinoClique::MovimentoOuDisparo
                } else {
                    DestinoClique::Disparo
                }
            },
            _ => DestinoClique::Nenhum,
        }
    }

    /// Trata uma tecla pressionada: com a partida acabada, nenhuma; F1 e F2
    /// encerram a partida com vitória e com derrota (atalhos de teste), F3
    /// liga ou desliga o raio-x. Diz se a tecla foi tratada; as outras seguem
    /// para a seleção de dificuldade.
    pub fn tratar_tecla(&mut self, tecla: Tecla, jogo_terminou: bool) -> (tratada: bool)
        ensures
            tratada == (!jogo_terminou && !(tecla is Outra)),
            !tratada ==> *final(self) == *old(self),
            tratada && tecla is F1 ==> *final(self) == (ControladorBatalha {
                estado_anterior: EstadoTurno::VitoriaJogador,
                ..apos_emitir(*old(self), true)
            }),
            tratada && tecla is F2 ==> *final(self) == (ControladorBatalha {
                estado_anterior: EstadoTurno::VitoriaIA,
                ..apos_emitir(*old(self), false)
            }),
            tratada && tecla is F3 ==> *final(self) == (ControladorBatalha {
                xray_ativo: !old(self).xray_ativo,
                ..*old(self)
            }),
    {
        if jogo_terminou {
            return false;
        }
        match tecla {
            Tecla::F1 => {
                self.vencer_teste(false);
                true
            },
            Tecla::F2 => {
                self.perder_teste(false);
                true
            },
            Tecla::F3 => {
                self.alternar_xray();
                true
            },
            Tecla::Outra => false,
        }
    }
}

} // verus!

//! Um jogador e o seu tabuleiro.

use vstd::prelude::*;

use crate::disparo::{efeito_do_disparo, executar_disparo, RetornoDisparo};
use crate::tabuleiro::{indice, lei_afundado_sem_partes_intactas, navio_da_celula, Celula, EstadoTabuleiro, BOARD_SIZE};

verus! {

pub struct Jogador {
    tabuleiro: EstadoTabuleiro,
}

/// O jogador perdeu quando tem frota e todos os seus navios afundaram.
pub open spec fn frota_derrotada(t: EstadoTabuleiro) -> bool {
    &&& t.frota().len() > 0
    &&& forall|i: int| 0 <= i < t.frota().len() ==> (#[trigger] t.frota()[i]).afundado()
}

impl Jogador {
    /// O tabuleiro do jogador.
    pub closed spec fn estado(&self) -> EstadoTabuleiro {
        self.tabuleiro
    }

    /// Um jogador humano começa com um tabuleiro vazio.
    pub fn novo_humano() -> (j: Self)
        ensures
            j.estado().bem_formado(),
            j.estado().frota().len() == 0,
            forall|x: int, y: int|
                0 <= x < BOARD_SIZE && 0 <= y < BOARD_SIZE
                    ==> j.estado().celula(x, y) == Celula::Vazio,
    {
        Self { tabuleiro: EstadoTabuleiro::vazio() }
    }

    /// Um jogador controlado pela máquina também começa com um tabuleiro vazio.
    pub fn novo_ia() -> (j: Self)
        ensures
            j.estado().bem_formado(),
            j.estado().frota().len() == 0,
            forall|x: int, y: int|
                0 <= x < BOARD_SIZE && 0 <= y < BOARD_SIZE
                    ==> j.estado().celula(x, y) == Celula::Vazio,
    {
        Self { tabuleiro: EstadoTabuleiro::vazio() }
    }

    pub fn tabuleiro(&self) -> (t: &EstadoTabuleiro)
        ensures
            *t == self.estado(),
    {
        &self.tabuleiro
    }

    pub fn tabuleiro_mut(&mut self) -> (t: &mut EstadoTabuleiro)
        ensures
            *t == old(self).estado(),
            final(self).estado() == *final(t),
    {
        &mut self.tabuleiro
    }

    /// Recebe um disparo do adversário no próprio tabuleiro.
    pub fn receber_disparo(&mut self, x: usize, y: usize) -> (r: RetornoDisparo)
        requires
            old(self).estado().bem_formado(),
        ensures
            final(self).estado().bem_formado(),
            efeito_do_disparo(old(self).estado(), final(self).estado(), x, y, r),
    {
        executar_disparo(&mut self.tabuleiro, x, y)
    }

    /// O jogador perdeu: tem frota e todos os seus navios afundaram.
    pub fn perdeu(&self) -> (r: bool)
        ensures
            r == frota_derrotada(self.estado()),
    {
        let navios = &self.tabuleiro.navios;
        if navios.len() == 0 {
            return false;
        }
        let mut i: usize = 0;
        while i < navios.len()
            invariant
                navios@ == self.estado().frota(),
                i <= navios.len(),
                forall|j: int| 0 <= j < i ==> (#[trigger] navios@[j]).afundado(),
            decreases navios.len() - i,
        {
            if !navios[i].esta_afundado() {
                return false;
            }
            i = i + 1;
        }
        true
    }
}

/// Num tabuleiro coerente, o jogador está derrotado exatamente quando tem
/// frota e não resta no tabuleiro nenhuma parte intacta de navio.
pub proof fn lei_derrota_sem_partes_intactas(t: EstadoTabuleiro)
    requires
        t.bem_formado(),
    ensures
        frota_derrotada(t) <==> t.frota().len() > 0 && forall|x: int, y: int|
            0 <= x < BOARD_SIZE && 0 <= y < BOARD_SIZE ==> !(#[trigger] t.celula(x, y) is Ocupado),
{
    if frota_derrotada(t) {
        assert forall|x: int, y: int|
            0 <= x < BOARD_SIZE && 0 <= y < BOARD_SIZE implies !(#[trigger] t.celula(x, y) is Ocupado) by {
            if let Celula::Ocupado(i) = t.celula(x, y) {
                assert(navio_da_celula(t.grade()[indice(x, y)]) is Some);
                assert(t.frota()[i as int].afundado());
                lei_afundado_sem_partes_intactas(t, i);
            }
        }
    }
    if t.frota().len() > 0 && forall|x: int, y: int|
        0 <= x < BOARD_SIZE && 0 <= y < BOARD_SIZE ==> !(#[trigger] t.celula(x, y) is Ocupado) {
        assert(t.frota().len() == t.navios.len());
        assert forall|i: int| 0 <= i < t.frota().len() implies (#[trigger] t.frota()[i]).afundado() by {
            lei_afundado_sem_partes_intactas(t, i as usize);
        }
    }
}

} // verus!

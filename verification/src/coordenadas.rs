//! Da coordenada de um mapa de células (coluna `x`, linha `y`) para a
//! célula do tabuleiro.

use vstd::prelude::*;

use crate::tabuleiro::BOARD_SIZE;

verus! {

/// A coordenada de mapa (x, y) cai dentro do tabuleiro.
pub open spec fn no_tabuleiro(x: int, y: int) -> bool {
    0 <= x < BOARD_SIZE && 0 <= y < BOARD_SIZE
}

/// Diz se a coordenada de mapa (x, y) cai dentro do tabuleiro.
pub fn esta_dentro_dos_limites(x: i32, y: i32) -> (r: bool)
    ensures
        r == no_tabuleiro(x as int, y as int),
{
    x >= 0 && y >= 0 && x < BOARD_SIZE as i32 && y < BOARD_SIZE as i32
}

/// Diz se a posição de mapa (x, y) sob o cursor cai dentro do tabuleiro.
pub fn esta_dentro_do_tabuleiro(x: i32, y: i32) -> (r: bool)
    ensures
        r == no_tabuleiro(x as int, y as int),
{
    x >= 0 && x < BOARD_SIZE as i32 && y >= 0 && y < BOARD_SIZE as i32
}

/// A célula (linha, coluna) do tabuleiro na coordenada de mapa (x, y), ou
/// `None` se ela cai fora: a linha é `y` e a coluna é `x`.
pub fn clique_para_coordenada(x: i32, y: i32) -> (r: Option<(usize, usize)>)
    ensures
        r == (if no_tabuleiro(x as int, y as int) {
            Some((y as usize, x as usize))
        } else {
            None
        }),
{
    if !esta_dentro_dos_limites(x, y) {
        return None;
    }
    let linha = y as usize;
    let coluna = x as usize;
    Some((linha, coluna))
}

} // verus!

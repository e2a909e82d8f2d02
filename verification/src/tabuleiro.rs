//! O tabuleiro de um jogador: uma grade de `BOARD_SIZE` x `BOARD_SIZE`
//! células e a frota posicionada sobre ela.

use vstd::prelude::*;

verus! {

/// Número de linhas (e de colunas) do tabuleiro.
pub const BOARD_SIZE: usize = 10;

/// O estado de uma célula do tabuleiro.
#[derive(Clone, Copy, Debug, PartialEq, Eq, Structural)]
pub enum Celula {
    /// Água ainda não atacada.
    Vazio,
    /// Parte intacta do navio de índice dado.
    Ocupado(usize),
    /// Água já atacada.
    Agua,
    /// Parte atingida do navio de índice dado.
    Atingido(usize),
}

/// Um navio da frota: seu nome, quantas células ocupa e quantas delas
/// já foram atingidas.
#[derive(Debug)]
pub struct Navio {
    pub nome: String,
    pub tamanho: usize,
    pub acertos: usize,
}

impl Navio {
    pub open spec fn afundado(&self) -> bool {
        self.acertos >= self.tamanho
    }

    /// Um navio afunda quando todas as suas células foram atingidas.
    pub fn esta_afundado(&self) -> (r: bool)
        ensures
            r == self.afundado(),
    {
        self.acertos >= self.tamanho
    }
}

/// Índice linear da célula (x, y) na grade.
pub open spec fn indice(x: int, y: int) -> int {
    x * (BOARD_SIZE as int) + y
}

/// Se a célula pertence a um navio, o índice desse navio.
pub open spec fn navio_da_celula(c: Celula) -> Option<usize> {
    match c {
        Celula::Ocupado(i) => Some(i),
        Celula::Atingido(i) => Some(i),
        _ => None,
    }
}

/// A célula é uma parte (intacta ou atingida) do navio `i`.
pub open spec fn eh_parte(c: Celula, i: usize) -> bool {
    navio_da_celula(c) == Some(i)
}

/// A célula é uma parte atingida do navio `i`.
pub open spec fn eh_atingida(c: Celula, i: usize) -> bool {
    c == Celula::Atingido(i)
}

/// A célula já recebeu um disparo.
pub open spec fn ja_disparada(c: Celula) -> bool {
    c is Agua || c is Atingido
}

/// Quantas partes do navio `i` há em `s`.
pub open spec fn contar_partes(s: Seq<Celula>, i: usize) -> nat
    decreases s.len(),
{
    if s.len() == 0 {
        0
    } else {
        contar_partes(s.drop_last(), i) + if eh_parte(s.last(), i) { 1nat } else { 0nat }
    }
}

/// Quantas partes atingidas do navio `i` há em `s`.
pub open spec fn contar_atingidas(s: Seq<Celula>, i: usize) -> nat
    decreases s.len(),
{
    if s.len() == 0 {
        0
    } else {
        contar_atingidas(s.drop_last(), i) + if eh_atingida(s.last(), i) { 1nat } else { 0nat }
    }
}

/// Trocar uma célula muda as contagens só pelo que saiu e pelo que entrou.
pub proof fn lema_contagens_update(s: Seq<Celula>, k: int, v: Celula, i: usize)
    requires
        0 <= k < s.len(),
    ensures
        contar_partes(s.update(k, v), i) + (if eh_parte(s[k], i) { 1int } else { 0int })
            == contar_partes(s, i) + (if eh_parte(v, i) { 1int } else { 0int }),
        contar_atingidas(s.update(k, v), i) + (if eh_atingida(s[k], i) { 1int } else { 0int })
            == contar_atingidas(s, i) + (if eh_atingida(v, i) { 1int } else { 0int }),
    decreases s.len(),
{
    let t = s.update(k, v);
    if k == s.len() - 1 {
        assert(t.drop_last() =~= s.drop_last());
    } else {
        assert(t.drop_last() =~= s.drop_last().update(k, v));
        lema_contagens_update(s.drop_last(), k, v, i);
    }
}

/// As partes atingidas são partes: nunca há mais atingidas que partes.
pub proof fn lema_atingidas_le_partes(s: Seq<Celula>, i: usize)
    ensures
        contar_atingidas(s, i) <= contar_partes(s, i),
    decreases s.len(),
{
    if s.len() > 0 {
        lema_atingidas_le_partes(s.drop_last(), i);
    }
}

/// Se há em `s` uma parte intacta do navio `i`, há menos atingidas que partes.
pub proof fn lema_intacta_tem_folga(s: Seq<Celula>, k: int, i: usize)
    requires
        0 <= k < s.len(),
        s[k] == Celula::Ocupado(i),
    ensures
        contar_atingidas(s, i) < contar_partes(s, i),
{
    lema_contagens_update(s, k, Celula::Atingido(i), i);
    lema_atingidas_le_partes(s.update(k, Celula::Atingido(i)), i);
}

/// Sem nenhuma parte do navio `i`, as contagens de `i` são zero.
pub proof fn lema_sem_partes(s: Seq<Celula>, i: usize)
    requires
        forall|k: int| 0 <= k < s.len() ==> !eh_parte(#[trigger] s[k], i),
    ensures
        contar_partes(s, i) == 0,
        contar_atingidas(s, i) == 0,
    decreases s.len(),
{
    if s.len() > 0 {
        assert(!eh_parte(s[s.len() - 1], i));
        lema_sem_partes(s.drop_last(), i);
    }
}

/// A célula (a, b) está entre as `t` primeiras de um navio que começa em
/// (x, y), deitado na linha (`horizontal`) ou em pé na coluna.
pub open spec fn na_faixa(x: int, y: int, t: int, horizontal: bool, a: int, b: int) -> bool {
    if horizontal {
        a == x && y <= b < y + t
    } else {
        b == y && x <= a < x + t
    }
}

/// Um navio de `tamanho` células a partir de (x, y) cabe no tabuleiro.
pub open spec fn dentro(x: int, y: int, tamanho: int, horizontal: bool) -> bool {
    if horizontal {
        0 <= x < BOARD_SIZE && 0 <= y && y + tamanho <= BOARD_SIZE
    } else {
        0 <= x && x + tamanho <= BOARD_SIZE && 0 <= y < BOARD_SIZE
    }
}

/// As partes do navio `idx` entre as `n` primeiras células de `t`, em
/// ordem, como (linha, coluna).
pub open spec fn celulas_do_navio_ate(t: EstadoTabuleiro, idx: usize, n: int) -> Seq<(usize, usize)>
    decreases n,
{
    if n <= 0 {
        Seq::empty()
    } else {
        let k = n - 1;
        let r = celulas_do_navio_ate(t, idx, k);
        if eh_parte(t.grade()[k], idx) {
            r.push(((k / 10) as usize, (k % 10) as usize))
        } else {
            r
        }
    }
}

/// As partes do navio `idx` em `t`, em ordem de linha e coluna.
pub open spec fn celulas_do_navio(t: EstadoTabuleiro, idx: usize) -> Seq<(usize, usize)> {
    celulas_do_navio_ate(t, idx, BOARD_SIZE * BOARD_SIZE)
}

/// O tabuleiro de um jogador.
pub struct EstadoTabuleiro {
    pub celulas: Vec<Celula>,
    pub navios: Vec<Navio>,
}

impl EstadoTabuleiro {
    /// As células, linha após linha.
    pub open spec fn grade(&self) -> Seq<Celula> {
        self.celulas@
    }

    /// A frota, na ordem em que foi posicionada.
    pub open spec fn frota(&self) -> Seq<Navio> {
        self.navios@
    }

    /// A célula da linha `x`, coluna `y`.
    pub open spec fn celula(&self, x: int, y: int) -> Celula {
        self.grade()[indice(x, y)]
    }

    /// O tabuleiro é coerente: a grade tem o tamanho certo, toda célula de
    /// navio aponta para um navio da frota, e cada navio tem tantas partes
    /// quanto seu tamanho e tantas partes atingidas quanto seus acertos.
    pub open spec fn bem_formado(&self) -> bool {
        &&& self.grade().len() == BOARD_SIZE * BOARD_SIZE
        &&& forall|k: int|
            0 <= k < self.grade().len() && #[trigger] navio_da_celula(self.grade()[k]) is Some
                ==> navio_da_celula(self.grade()[k])->0 < self.frota().len()
        &&& forall|i: usize|
            #![trigger self.frota()[i as int]]
            i < self.frota().len() ==> {
                &&& self.frota()[i as int].tamanho == contar_partes(self.grade(), i)
                &&& self.frota()[i as int].acertos == contar_atingidas(self.grade(), i)
            }
    }

    /// Um tabuleiro só de água, sem navios.
    pub fn vazio() -> (t: Self)
        ensures
            t.bem_formado(),
            t.frota().len() == 0,
            forall|x: int, y: int|
                0 <= x < BOARD_SIZE && 0 <= y < BOARD_SIZE ==> t.celula(x, y) == Celula::Vazio,
    {
        let mut celulas: Vec<Celula> = Vec::new();
        let mut k: usize = 0;
        while k < BOARD_SIZE * BOARD_SIZE
            invariant
                k <= BOARD_SIZE * BOARD_SIZE,
                celulas@.len() == k,
                forall|j: int| 0 <= j < k ==> celulas@[j] == Celula::Vazio,
            decreases BOARD_SIZE * BOARD_SIZE - k,
        {
            celulas.push(Celula::Vazio);
            k = k + 1;
        }
        let t = EstadoTabuleiro { celulas, navios: Vec::new() };
        assert forall|x: int, y: int|
            0 <= x < BOARD_SIZE && 0 <= y < BOARD_SIZE implies t.celula(x, y) == Celula::Vazio by {
            assert(0 <= indice(x, y) < BOARD_SIZE * BOARD_SIZE);
        }
        t
    }

    /// A célula (x, y), ou `None` fora do tabuleiro.
    pub fn valor_celula(&self, x: usize, y: usize) -> (r: Option<Celula>)
        requires
            self.bem_formado(),
        ensures
            r == (if x < BOARD_SIZE && y < BOARD_SIZE {
                Some(self.celula(x as int, y as int))
            } else {
                None
            }),
    {
        if x < BOARD_SIZE && y < BOARD_SIZE {
            Some(self.celulas[x * BOARD_SIZE + y])
        } else {
            None
        }
    }
    /// Marca como água atacada uma célula de água ainda não atacada.
    pub fn marcar_agua(&mut self, x: usize, y: usize)
        requires
            old(self).bem_formado(),
            x < BOARD_SIZE,
            y < BOARD_SIZE,
            old(self).celula(x as int, y as int) == Celula::Vazio,
        ensures
            final(self).bem_formado(),
            final(self).grade() == old(self).grade().update(indice(x as int, y as int), Celula::Agua),
            final(self).frota() == old(self).frota(),
    {
        let k = x * BOARD_SIZE + y;
        let ghost antes = self.celulas@;
        let ghost frota_antes = self.frota();
        self.celulas.set(k, Celula::Agua);
        proof {
            assert forall|j: usize| j < self.navios@.len() implies {
                &&& #[trigger] self.navios@[j as int].tamanho == contar_partes(self.celulas@, j)
                &&& self.navios@[j as int].acertos == contar_atingidas(self.celulas@, j)
            } by {
                lema_contagens_update(antes, k as int, Celula::Agua, j);
                assert(frota_antes[j as int].tamanho == contar_partes(antes, j));
            }
        }
    }

    /// Marca como atingida uma parte intacta de navio e soma um acerto a
    /// esse navio; devolve o índice do navio.
    pub fn marcar_acerto(&mut self, x: usize, y: usize) -> (i: usize)
        requires
            old(self).bem_formado(),
            x < BOARD_SIZE,
            y < BOARD_SIZE,
            old(self).celula(x as int, y as int) is Ocupado,
        ensures
            final(self).bem_formado(),
            old(self).celula(x as int, y as int) == Celula::Ocupado(i),
            i < old(self).frota().len(),
            old(self).frota()[i as int].acertos < old(self).frota()[i as int].tamanho,
            final(self).grade() == old(self).grade().update(
                indice(x as int, y as int),
                Celula::Atingido(i),
            ),
            final(self).frota() == old(self).frota().update(
                i as int,
                Navio {
                    nome: old(self).frota()[i as int].nome,
                    tamanho: old(self).frota()[i as int].tamanho,
                    acertos: (old(self).frota()[i as int].acertos + 1) as usize,
                },
            ),
    {
        let k = x * BOARD_SIZE + y;
        let ghost antes = self.celulas@;
        let i = match self.celulas[k] {
            Celula::Ocupado(i) => i,
            _ => 0,
        };
        assert(navio_da_celula(antes[k as int]) is Some);
        proof {
            lema_intacta_tem_folga(antes, k as int, i);
        }
        let nome = self.navios[i].nome.clone();
        let tamanho = self.navios[i].tamanho;
        let acertos = self.navios[i].acertos + 1;
        self.celulas.set(k, Celula::Atingido(i));
        self.navios.set(i, Navio { nome, tamanho, acertos });
        proof {
            assert forall|j: usize| j < self.navios@.len() implies {
                &&& #[trigger] self.navios@[j as int].tamanho == contar_partes(self.celulas@, j)
                &&& self.navios@[j as int].acertos == contar_atingidas(self.celulas@, j)
            } by {
                lema_contagens_update(antes, k as int, Celula::Atingido(i), j);
            }
            assert forall|m: int|
                0 <= m < self.celulas@.len() && #[trigger] navio_da_celula(self.celulas@[m]) is Some
                implies navio_da_celula(self.celulas@[m])->0 < self.navios@.len() by {
                if m != k {
                    assert(navio_da_celula(antes[m]) is Some);
                }
            }
        }
        i
    }

    /// Um navio de `tamanho` células pode ser posto a partir de (x, y):
    /// tem ao menos uma célula, cabe no tabuleiro e só cobre água não atacada.
    pub open spec fn cabe(&self, tamanho: int, x: int, y: int, horizontal: bool) -> bool {
        &&& tamanho >= 1
        &&& dentro(x, y, tamanho, horizontal)
        &&& forall|a: int, b: int|
            na_faixa(x, y, tamanho, horizontal, a, b) ==> #[trigger] self.celula(a, b)
                == Celula::Vazio
    }

    /// Diz se um navio de `tamanho` células pode ser posto a partir de (x, y).
    pub fn pode_posicionar(&self, tamanho: usize, x: usize, y: usize, horizontal: bool) -> (r: bool)
        requires
            self.bem_formado(),
        ensures
            r == self.cabe(tamanho as int, x as int, y as int, horizontal),
    {
        if tamanho == 0 {
            return false;
        }
        if horizontal {
            if x >= BOARD_SIZE || y >= BOARD_SIZE || tamanho > BOARD_SIZE - y {
                return false;
            }
        } else {
            if y >= BOARD_SIZE || x >= BOARD_SIZE || tamanho > BOARD_SIZE - x {
                return false;
            }
        }
        let mut t: usize = 0;
        while t < tamanho
            invariant
                self.bem_formado(),
                t <= tamanho,
                tamanho >= 1,
                dentro(x as int, y as int, tamanho as int, horizontal),
                forall|a: int, b: int|
                    na_faixa(x as int, y as int, t as int, horizontal, a, b) ==> #[trigger] self.celula(a, b)
                        == Celula::Vazio,
            decreases tamanho - t,
        {
            let (a, b) = if horizontal { (x, y + t) } else { (x + t, y) };
            if !matches!(self.celulas[a * BOARD_SIZE + b], Celula::Vazio) {
                assert(na_faixa(x as int, y as int, tamanho as int, horizontal, a as int, b as int));
                assert(self.celula(a as int, b as int) != Celula::Vazio);
                return false;
            }
            t = t + 1;
        }
        true
    }

    /// Põe na frota um navio novo, sem acertos, de `tamanho` células a partir
    /// de (x, y), se ele couber; senão não muda nada. Diz se pôs.
    pub fn posicionar_navio(
        &mut self,
        nome: String,
        tamanho: usize,
        x: usize,
        y: usize,
        horizontal: bool,
    ) -> (ok: bool)
        requires
            old(self).bem_formado(),
        ensures
            final(self).bem_formado(),
            ok == old(self).cabe(tamanho as int, x as int, y as int, horizontal),
            ok ==> final(self).frota() == old(self).frota().push(
                Navio { nome, tamanho, acertos: 0 },
            ),
            ok ==> forall|a: int, b: int|
                0 <= a < BOARD_SIZE && 0 <= b < BOARD_SIZE ==> #[trigger] final(self).celula(a, b)
                    == if na_faixa(x as int, y as int, tamanho as int, horizontal, a, b) {
                    Celula::Ocupado(old(self).frota().len() as usize)
                } else {
                    old(self).celula(a, b)
                },
            !ok ==> final(self).grade() == old(self).grade(),
            !ok ==> final(self).frota() == old(self).frota(),
    {
        if !self.pode_posicionar(tamanho, x, y, horizontal) {
            return false;
        }
        let n = self.navios.len();
        let ghost antes = self.celulas@;
        let ghost frota_antes = self.navios@;
        assert forall|k: int| 0 <= k < antes.len() implies !eh_parte(#[trigger] antes[k], n) by {
            if navio_da_celula(antes[k]) is Some {
            }
        }
        proof {
            lema_sem_partes(antes, n);
        }
        let mut t: usize = 0;
        while t < tamanho
            invariant
                old(self).bem_formado(),
                old(self).cabe(tamanho as int, x as int, y as int, horizontal),
                antes == old(self).grade(),
                frota_antes == old(self).frota(),
                self.navios@ == frota_antes,
                n == frota_antes.len(),
                t <= tamanho,
                self.celulas@.len() == BOARD_SIZE * BOARD_SIZE,
                forall|a: int, b: int|
                    0 <= a < BOARD_SIZE && 0 <= b < BOARD_SIZE ==> #[trigger] self.celulas@[indice(a, b)]
                        == if na_faixa(x as int, y as int, t as int, horizontal, a, b) {
                        Celula::Ocupado(n)
                    } else {
                        antes[indice(a, b)]
                    },
                contar_partes(self.celulas@, n) == t,
                contar_atingidas(self.celulas@, n) == 0,
                forall|j: usize|
                    j < n ==> #[trigger] contar_partes(self.celulas@, j) == contar_partes(antes, j),
                forall|j: usize|
                    j < n ==> #[trigger] contar_atingidas(self.celulas@, j) == contar_atingidas(antes, j),
            decreases tamanho - t,
        {
            let (a, b) = if horizontal { (x, y + t) } else { (x + t, y) };
            let k = a * BOARD_SIZE + b;
            let ghost atual = self.celulas@;
            assert(atual[indice(a as int, b as int)] == antes[indice(a as int, b as int)]);
            assert(na_faixa(x as int, y as int, tamanho as int, horizontal, a as int, b as int));
            assert(old(self).celula(a as int, b as int) == Celula::Vazio);
            assert(atual[k as int] == Celula::Vazio);
            self.celulas.set(k, Celula::Ocupado(n));
            proof {
                lema_contagens_update(atual, k as int, Celula::Ocupado(n), n);
                assert forall|j: usize| j < n implies #[trigger] contar_partes(self.celulas@, j)
                    == contar_partes(antes, j) by {
                    lema_contagens_update(atual, k as int, Celula::Ocupado(n), j);
                }
                assert forall|j: usize| j < n implies #[trigger] contar_atingidas(self.celulas@, j)
                    == contar_atingidas(antes, j) by {
                    lema_contagens_update(atual, k as int, Celula::Ocupado(n), j);
                }
                assert forall|a2: int, b2: int|
                    0 <= a2 < BOARD_SIZE && 0 <= b2 < BOARD_SIZE implies #[trigger] self.celulas@[indice(a2, b2)]
                        == if na_faixa(x as int, y as int, (t + 1) as int, horizontal, a2, b2) {
                        Celula::Ocupado(n)
                    } else {
                        antes[indice(a2, b2)]
                    } by {
                    if indice(a2, b2) == k {
                        assert(a2 == a && b2 == b);
                    }
                }
            }
            t = t + 1;
        }
        self.navios.push(Navio { nome, tamanho, acertos: 0 });
        proof {
            assert forall|a: int, b: int|
                0 <= a < BOARD_SIZE && 0 <= b < BOARD_SIZE implies #[trigger] self.celula(a, b)
                    == if na_faixa(x as int, y as int, tamanho as int, horizontal, a, b) {
                    Celula::Ocupado(old(self).frota().len() as usize)
                } else {
                    old(self).celula(a, b)
                } by {
                assert(self.celulas@[indice(a, b)] == self.celula(a, b));
            }
            assert forall|i: usize| i < self.frota().len() implies {
                &&& #[trigger] self.frota()[i as int].tamanho == contar_partes(self.grade(), i)
                &&& self.frota()[i as int].acertos == contar_atingidas(self.grade(), i)
            } by {
                if i < n {
                    assert(old(self).frota()[i as int].tamanho == contar_partes(antes, i));
                    assert(contar_atingidas(self.celulas@, i) == contar_atingidas(antes, i));
                    assert(contar_partes(self.celulas@, i) == contar_partes(antes, i));
                }
            }
            assert forall|k: int|
                0 <= k < self.grade().len() && #[trigger] navio_da_celula(self.grade()[k]) is Some
                implies navio_da_celula(self.grade()[k])->0 < self.frota().len() by {
                let a = k / 10;
                let b = k % 10;
                assert(k == indice(a, b));
                if !na_faixa(x as int, y as int, tamanho as int, horizontal, a, b) {
                    assert(navio_da_celula(antes[k]) is Some);
                }
            }
        }
        true
    }

    /// As células, em ordem de linha e coluna, que são partes (intactas ou
    /// atingidas) do navio `idx`; vazio se não há tal navio.
    pub fn obter_celulas_navio(&self, idx: usize) -> (r: Vec<(usize, usize)>)
        requires
            self.bem_formado(),
        ensures
            r@ == celulas_do_navio(*self, idx),
            forall|j: int|
                0 <= j < r@.len() ==> {
                    let (a, b) = #[trigger] r@[j];
                    &&& a < BOARD_SIZE && b < BOARD_SIZE
                    &&& eh_parte(self.celula(a as int, b as int), idx)
                },
            forall|a: int, b: int|
                0 <= a < BOARD_SIZE && 0 <= b < BOARD_SIZE && eh_parte(
                    #[trigger] self.celula(a, b),
                    idx,
                ) ==> r@.contains((a as usize, b as usize)),
            forall|j1: int, j2: int|
                0 <= j1 < j2 < r@.len() ==> indice(r@[j1].0 as int, r@[j1].1 as int) < indice(
                    r@[j2].0 as int,
                    r@[j2].1 as int,
                ),
    {
        let mut r: Vec<(usize, usize)> = Vec::new();
        let mut a: usize = 0;
        while a < BOARD_SIZE
            invariant
                self.bem_formado(),
                a <= BOARD_SIZE,
                forall|j: int|
                    0 <= j < r@.len() ==> {
                        let (p, q) = #[trigger] r@[j];
                        &&& p < a && q < BOARD_SIZE
                        &&& eh_parte(self.celula(p as int, q as int), idx)
                    },
                forall|p: int, q: int|
                    0 <= p < a && 0 <= q < BOARD_SIZE && eh_parte(#[trigger] self.celula(p, q), idx)
                        ==> r@.contains((p as usize, q as usize)),
                forall|j1: int, j2: int|
                    0 <= j1 < j2 < r@.len() ==> indice(r@[j1].0 as int, r@[j1].1 as int) < indice(
                        r@[j2].0 as int,
                        r@[j2].1 as int,
                    ),
            r@ == celulas_do_navio_ate(*self, idx, indice(a as int, 0)),
                decreases BOARD_SIZE - a,
        {
            let mut b: usize = 0;
            while b < BOARD_SIZE
                invariant
                    self.bem_formado(),
                    a < BOARD_SIZE,
                    b <= BOARD_SIZE,
                    forall|j: int|
                        0 <= j < r@.len() ==> {
                            let (p, q) = #[trigger] r@[j];
                            &&& indice(p as int, q as int) < indice(a as int, b as int)
                            &&& p <= a && q < BOARD_SIZE
                            &&& eh_parte(self.celula(p as int, q as int), idx)
                        },
                    forall|p: int, q: int|
                        0 <= p < BOARD_SIZE && 0 <= q < BOARD_SIZE && indice(p, q) < indice(
                            a as int,
                            b as int,
                        ) && eh_parte(#[trigger] self.celula(p, q), idx) ==> r@.contains(
                            (p as usize, q as usize),
                        ),
                    forall|j1: int, j2: int|
                        0 <= j1 < j2 < r@.len() ==> indice(r@[j1].0 as int, r@[j1].1 as int)
                            < indice(r@[j2].0 as int, r@[j2].1 as int),
                r@ == celulas_do_navio_ate(*self, idx, indice(a as int, b as int)),
                    decreases BOARD_SIZE - b,
            {
                let c = self.celulas[a * BOARD_SIZE + b];
                let parte = match c {
                    Celula::Ocupado(i) => i == idx,
                    Celula::Atingido(i) => i == idx,
                    _ => false,
                };
                let ghost r0 = r@;
                proof {
                    let k = indice(a as int, b as int);
                    assert(k / 10 == a && k % 10 == b);
                    assert(celulas_do_navio_ate(*self, idx, k + 1) == if eh_parte(self.grade()[k], idx) {
                        r0.push((a, b))
                    } else {
                        r0
                    });
                }
                if parte {
                    r.push((a, b));
                    proof {
                        assert forall|p: int, q: int|
                            0 <= p < BOARD_SIZE && 0 <= q < BOARD_SIZE && indice(p, q) < indice(
                                a as int,
                                (b + 1) as int,
                            ) && eh_parte(#[trigger] self.celula(p, q), idx) implies r@.contains(
                                (p as usize, q as usize),
                            ) by {
                            if indice(p, q) < indice(a as int, b as int) {
                                let j = choose|j: int| 0 <= j < r0.len() && r0[j] == (p as usize, q as usize);
                                assert(r@[j] == (p as usize, q as usize));
                            } else {
                                assert(p == a && q == b);
                                assert(r@[r0.len() as int] == (a, b));
                            }
                        }
                    }
                } else {
                    proof {
                        assert forall|p: int, q: int|
                            0 <= p < BOARD_SIZE && 0 <= q < BOARD_SIZE && indice(p, q) < indice(
                                a as int,
                                (b + 1) as int,
                            ) && eh_parte(#[trigger] self.celula(p, q), idx) implies r@.contains(
                                (p as usize, q as usize),
                            ) by {
                            if indice(p, q) == indice(a as int, b as int) {
                                assert(p == a && q == b);
                            }
                        }
                    }
                }
                b = b + 1;
            }
            a = a + 1;
        }
        r
    }
}

/// As partes do navio `i` estão todas atingidas exatamente quando nenhuma
/// célula de `s` é parte intacta dele.
pub proof fn lema_todas_atingidas(s: Seq<Celula>, i: usize)
    ensures
        contar_atingidas(s, i) == contar_partes(s, i) <==> forall|k: int|
            0 <= k < s.len() ==> #[trigger] s[k] != Celula::Ocupado(i),
    decreases s.len(),
{
    if s.len() > 0 {
        let r = s.drop_last();
        lema_todas_atingidas(r, i);
        lema_atingidas_le_partes(r, i);
        if forall|k: int| 0 <= k < s.len() ==> #[trigger] s[k] != Celula::Ocupado(i) {
            assert forall|k: int| 0 <= k < r.len() implies #[trigger] r[k] != Celula::Ocupado(i) by {
                assert(s[k] != Celula::Ocupado(i));
            }
        } else {
            let k = choose|k: int| 0 <= k < s.len() && #[trigger] s[k] == Celula::Ocupado(i);
            if k < r.len() {
                assert(r[k] == Celula::Ocupado(i));
            }
        }
    }
}

/// Num tabuleiro coerente, um navio está afundado exatamente quando não
/// resta no tabuleiro nenhuma parte intacta dele.
pub proof fn lei_afundado_sem_partes_intactas(t: EstadoTabuleiro, i: usize)
    requires
        t.bem_formado(),
        i < t.frota().len(),
    ensures
        t.frota()[i as int].afundado() <==> forall|x: int, y: int|
            0 <= x < BOARD_SIZE && 0 <= y < BOARD_SIZE ==> #[trigger] t.celula(x, y)
                != Celula::Ocupado(i),
{
    let s = t.grade();
    lema_todas_atingidas(s, i);
    lema_atingidas_le_partes(s, i);
    assert(t.frota()[i as int].tamanho == contar_partes(s, i));
    if forall|x: int, y: int|
        0 <= x < BOARD_SIZE && 0 <= y < BOARD_SIZE ==> #[trigger] t.celula(x, y) != Celula::Ocupado(i) {
        assert forall|k: int| 0 <= k < s.len() implies #[trigger] s[k] != Celula::Ocupado(i) by {
            let x = k / 10;
            let y = k % 10;
            assert(indice(x, y) == k);
            assert(t.celula(x, y) != Celula::Ocupado(i));
        }
    } else {
        let (x, y) = choose|x: int, y: int|
            0 <= x < BOARD_SIZE && 0 <= y < BOARD_SIZE && #[trigger] t.celula(x, y) == Celula::Ocupado(i);
        assert(s[indice(x, y)] == Celula::Ocupado(i));
    }
}

/// As posições (índices lineares) das partes do navio `i` em `s`.
pub open spec fn posicoes_de_partes(s: Seq<Celula>, i: usize) -> Set<int> {
    Set::new(|k: int| 0 <= k < s.len() && eh_parte(s[k], i))
}

/// Contar as partes é medir o conjunto de suas posições.
pub proof fn lema_contagem_e_cardinalidade(s: Seq<Celula>, i: usize)
    ensures
        posicoes_de_partes(s, i).finite(),
        posicoes_de_partes(s, i).len() == contar_partes(s, i),
    decreases s.len(),
{
    if s.len() == 0 {
        assert(posicoes_de_partes(s, i) =~= Set::<int>::empty());
    } else {
        let r = s.drop_last();
        lema_contagem_e_cardinalidade(r, i);
        if eh_parte(s.last(), i) {
            assert(posicoes_de_partes(s, i) =~= posicoes_de_partes(r, i).insert(s.len() - 1));
        } else {
            assert(posicoes_de_partes(s, i) =~= posicoes_de_partes(r, i));
        }
    }
}

/// Duas grades em que as células correspondem, quanto a ser parte (e parte
/// atingida) dos navios `i1` e `i2`, dão as mesmas contagens.
pub proof fn lema_contagens_correspondentes(s1: Seq<Celula>, s2: Seq<Celula>, i1: usize, i2: usize)
    requires
        s1.len() == s2.len(),
        forall|k: int|
            0 <= k < s1.len() ==> eh_parte(#[trigger] s1[k], i1) == eh_parte(s2[k], i2) && eh_atingida(
                s1[k],
                i1,
            ) == eh_atingida(s2[k], i2),
    ensures
        contar_partes(s1, i1) == contar_partes(s2, i2),
        contar_atingidas(s1, i1) == contar_atingidas(s2, i2),
    decreases s1.len(),
{
    if s1.len() > 0 {
        let k = s1.len() - 1;
        assert(eh_parte(s1[k], i1) == eh_parte(s2[k], i2));
        lema_contagens_correspondentes(s1.drop_last(), s2.drop_last(), i1, i2);
    }
}

/// Sem acertos contados, não há parte atingida do navio `i`.
pub proof fn lema_sem_atingidas(s: Seq<Celula>, i: usize)
    requires
        contar_atingidas(s, i) == 0,
    ensures
        forall|k: int| 0 <= k < s.len() ==> !eh_atingida(#[trigger] s[k], i),
    decreases s.len(),
{
    if s.len() > 0 {
        lema_sem_atingidas(s.drop_last(), i);
        assert forall|k: int| 0 <= k < s.len() implies !eh_atingida(#[trigger] s[k], i) by {
            if k < s.len() - 1 {
                assert(s[k] == s.drop_last()[k]);
            }
        }
    }
}

/// Toda posição linear da grade é a de alguma linha e coluna.
pub proof fn lema_indice_decomposto(k: int)
    requires
        0 <= k < BOARD_SIZE * BOARD_SIZE,
    ensures
        0 <= k / 10 < BOARD_SIZE,
        0 <= k % 10 < BOARD_SIZE,
        indice(k / 10, k % 10) == k,
{
}

/// Linha e coluna dentro do tabuleiro.
pub open spec fn na_grade(a: int, b: int) -> bool {
    0 <= a < BOARD_SIZE && 0 <= b < BOARD_SIZE
}

/// A célula (a, b) depois de deslocar o navio `idx` de (dx, dy): recebe a
/// parte que estava em (a - dx, b - dy); senão, se era parte do navio,
/// vira água; senão, fica como estava.
pub open spec fn depois_do_deslocamento(
    t: EstadoTabuleiro,
    idx: usize,
    dx: int,
    dy: int,
    a: int,
    b: int,
) -> Celula {
    if na_grade(a - dx, b - dy) && t.celula(a - dx, b - dy) == Celula::Ocupado(idx) {
        Celula::Ocupado(idx)
    } else if t.celula(a, b) == Celula::Ocupado(idx) {
        Celula::Vazio
    } else {
        t.celula(a, b)
    }
}

/// (a, b) está no tabuleiro e é uma parte intacta do navio `idx`.
pub open spec fn parte_intacta(t: EstadoTabuleiro, idx: usize, a: int, b: int) -> bool {
    na_grade(a, b) && t.celula(a, b) == Celula::Ocupado(idx)
}

impl EstadoTabuleiro {
    /// O navio `idx` pode ser deslocado de (dx, dy): existe, não foi
    /// atingido, e cada uma de suas partes cai, deslocada, dentro do
    /// tabuleiro, em água não atacada ou noutra parte dele mesmo.
    pub open spec fn movimento_permitido(&self, idx: usize, dx: int, dy: int) -> bool {
        &&& idx < self.frota().len()
        &&& self.frota()[idx as int].acertos == 0
        &&& forall|a: int, b: int|
            #[trigger] parte_intacta(*self, idx, a, b) ==> {
                &&& na_grade(a + dx, b + dy)
                &&& (self.celula(a + dx, b + dy) is Vazio || self.celula(a + dx, b + dy)
                    == Celula::Ocupado(idx))
            }
    }

    /// Diz se o navio `idx` pode ser deslocado de (dx, dy).
    pub fn pode_mover_navio(&self, idx: usize, dx: i32, dy: i32) -> (r: bool)
        requires
            self.bem_formado(),
        ensures
            r == self.movimento_permitido(idx, dx as int, dy as int),
    {
        if idx >= self.navios.len() || self.navios[idx].acertos != 0 {
            return false;
        }
        let mut k: usize = 0;
        while k < BOARD_SIZE * BOARD_SIZE
            invariant
                self.bem_formado(),
                idx < self.frota().len(),
                self.frota()[idx as int].acertos == 0,
                k <= BOARD_SIZE * BOARD_SIZE,
                forall|a: int, b: int|
                    indice(a, b) < k && #[trigger] parte_intacta(*self, idx, a, b) ==> {
                        &&& na_grade(a + dx, b + dy)
                        &&& (self.celula(a + dx, b + dy) is Vazio || self.celula(a + dx, b + dy)
                            == Celula::Ocupado(idx))
                    },
            decreases BOARD_SIZE * BOARD_SIZE - k,
        {
            proof {
                lema_indice_decomposto(k as int);
            }
            let parte = match self.celulas[k] {
                Celula::Ocupado(i) => i == idx,
                _ => false,
            };
            if parte {
                let a = (k / BOARD_SIZE) as i64 + dx as i64;
                let b = (k % BOARD_SIZE) as i64 + dy as i64;
                if a < 0 || b < 0 || a >= BOARD_SIZE as i64 || b >= BOARD_SIZE as i64 {
                    assert(parte_intacta(*self, idx, k as int / 10, k as int % 10));
                    return false;
                }
                let destino = self.celulas[(a as usize) * BOARD_SIZE + (b as usize)];
                let livre = match destino {
                    Celula::Vazio => true,
                    Celula::Ocupado(i) => i == idx,
                    _ => false,
                };
                if !livre {
                    assert(parte_intacta(*self, idx, k as int / 10, k as int % 10));
                    return false;
                }
            }
            proof {
                assert forall|a: int, b: int|
                    indice(a, b) < k + 1 && #[trigger] parte_intacta(*self, idx, a, b) implies {
                    &&& na_grade(a + dx, b + dy)
                    &&& (self.celula(a + dx, b + dy) is Vazio || self.celula(a + dx, b + dy)
                        == Celula::Ocupado(idx))
                } by {
                    if indice(a, b) == k {
                        assert(a == k as int / 10 && b == k as int % 10);
                    }
                }
            }
            k = k + 1;
        }
        true
    }

    /// Desloca o navio `idx` de (dx, dy), se o movimento é permitido; senão
    /// não muda nada. Diz se moveu.
    pub fn mover_navio(&mut self, idx: usize, dx: i32, dy: i32) -> (ok: bool)
        requires
            old(self).bem_formado(),
        ensures
            final(self).bem_formado(),
            ok == old(self).movimento_permitido(idx, dx as int, dy as int),
            final(self).frota() == old(self).frota(),
            ok ==> forall|a: int, b: int|
                na_grade(a, b) ==> #[trigger] final(self).celula(a, b) == depois_do_deslocamento(
                    *old(self),
                    idx,
                    dx as int,
                    dy as int,
                    a,
                    b,
                ),
            !ok ==> final(self).grade() == old(self).grade(),
    {
        if !self.pode_mover_navio(idx, dx, dy) {
            return false;
        }
        let ghost antes = *self;
        let mut nova: Vec<Celula> = Vec::new();
        let mut k: usize = 0;
        while k < BOARD_SIZE * BOARD_SIZE
            invariant
                antes == *self,
                self.bem_formado(),
                k <= BOARD_SIZE * BOARD_SIZE,
                nova@.len() == k,
                forall|j: int|
                    0 <= j < k ==> #[trigger] nova@[j] == depois_do_deslocamento(
                        antes,
                        idx,
                        dx as int,
                        dy as int,
                        j / 10,
                        j % 10,
                    ),
            decreases BOARD_SIZE * BOARD_SIZE - k,
        {
            proof {
                lema_indice_decomposto(k as int);
            }
            let a = (k / BOARD_SIZE) as i64;
            let b = (k % BOARD_SIZE) as i64;
            let a0 = a - dx as i64;
            let b0 = b - dy as i64;
            let vem_de_tras = if a0 >= 0 && b0 >= 0 && a0 < BOARD_SIZE as i64 && b0 < BOARD_SIZE as i64 {
                match self.celulas[(a0 as usize) * BOARD_SIZE + (b0 as usize)] {
                    Celula::Ocupado(i) => i == idx,
                    _ => false,
                }
            } else {
                false
            };
            let atual = self.celulas[k];
            let c = if vem_de_tras {
                Celula::Ocupado(idx)
            } else {
                match atual {
                    Celula::Ocupado(i) => if i == idx {
                        Celula::Vazio
                    } else {
                        atual
                    },
                    _ => atual,
                }
            };
            nova.push(c);
            k = k + 1;
        }
        proof {
            assert forall|a: int, b: int| na_grade(a, b) implies #[trigger] nova@[indice(a, b)]
                == depois_do_deslocamento(antes, idx, dx as int, dy as int, a, b) by {
                let j = indice(a, b);
                assert(j / 10 == a && j % 10 == b);
            }
            lema_deslocamento_tamanho(antes, nova@, idx, dx as int, dy as int);
            lema_deslocamento_indices(antes, nova@, idx, dx as int, dy as int);
        }
        let ghost s0 = antes.grade();
        let ghost s1 = nova@;
        self.celulas = nova;
        proof {
            assert forall|i: usize| i < self.frota().len() implies {
                &&& #[trigger] self.frota()[i as int].tamanho == contar_partes(self.grade(), i)
                &&& self.frota()[i as int].acertos == contar_atingidas(self.grade(), i)
            } by {
                assert(antes.frota()[i as int].tamanho == contar_partes(s0, i));
                if i != idx {
                    lema_deslocamento_outros(antes, s1, idx, dx as int, dy as int, i);
                }
            }
        }
        true
    }
}

/// Hipóteses comuns sobre uma grade `s1` obtida deslocando o navio `idx`.
pub open spec fn deslocamento_feito(
    antes: EstadoTabuleiro,
    s1: Seq<Celula>,
    idx: usize,
    dx: int,
    dy: int,
) -> bool {
    &&& antes.bem_formado()
    &&& antes.movimento_permitido(idx, dx, dy)
    &&& s1.len() == BOARD_SIZE * BOARD_SIZE
    &&& forall|a: int, b: int|
        na_grade(a, b) ==> #[trigger] s1[indice(a, b)] == depois_do_deslocamento(antes, idx, dx, dy, a, b)
}

/// Deslocar um navio não muda as contagens de outro navio `i`.
proof fn lema_deslocamento_outros(
    antes: EstadoTabuleiro,
    s1: Seq<Celula>,
    idx: usize,
    dx: int,
    dy: int,
    i: usize,
)
    requires
        deslocamento_feito(antes, s1, idx, dx, dy),
        i != idx,
    ensures
        contar_partes(s1, i) == contar_partes(antes.grade(), i),
        contar_atingidas(s1, i) == contar_atingidas(antes.grade(), i),
{
    let s0 = antes.grade();
    assert forall|k: int| 0 <= k < s1.len() implies eh_parte(#[trigger] s1[k], i) == eh_parte(s0[k], i)
        && eh_atingida(s1[k], i) == eh_atingida(s0[k], i) by {
        lema_indice_decomposto(k);
        let a = k / 10;
        let b = k % 10;
        assert(s1[indice(a, b)] == depois_do_deslocamento(antes, idx, dx, dy, a, b));
        if parte_intacta(antes, idx, a - dx, b - dy) {
            assert(antes.celula(a, b) is Vazio || antes.celula(a, b) == Celula::Ocupado(idx));
        }
    }
    lema_contagens_correspondentes(s1, s0, i, i);
}

/// Nenhuma célula de uma grade coerente aponta para navio inexistente,
/// também depois de deslocar um navio.
proof fn lema_deslocamento_indices(antes: EstadoTabuleiro, s1: Seq<Celula>, idx: usize, dx: int, dy: int)
    requires
        deslocamento_feito(antes, s1, idx, dx, dy),
    ensures
        forall|k: int|
            0 <= k < s1.len() && #[trigger] navio_da_celula(s1[k]) is Some ==> navio_da_celula(s1[k])->0
                < antes.frota().len(),
{
    let s0 = antes.grade();
    assert forall|k: int|
        0 <= k < s1.len() && #[trigger] navio_da_celula(s1[k]) is Some
        implies navio_da_celula(s1[k])->0 < antes.frota().len() by {
        lema_indice_decomposto(k);
        let a = k / 10;
        let b = k % 10;
        assert(s1[indice(a, b)] == depois_do_deslocamento(antes, idx, dx, dy, a, b));
        assert(navio_da_celula(s0[k]) is Some ==> navio_da_celula(s0[k])->0 < antes.frota().len());
    }
}

/// O navio deslocado segue com tantas partes quanto antes e sem acertos.
proof fn lema_deslocamento_tamanho(antes: EstadoTabuleiro, s1: Seq<Celula>, idx: usize, dx: int, dy: int)
    requires
        deslocamento_feito(antes, s1, idx, dx, dy),
    ensures
        contar_partes(s1, idx) == contar_partes(antes.grade(), idx),
        contar_atingidas(s1, idx) == 0,
{
    let s0 = antes.grade();
    assert(antes.frota()[idx as int].acertos == contar_atingidas(s0, idx));
    lema_sem_atingidas(s0, idx);
    assert forall|k: int| 0 <= k < s1.len() implies !eh_atingida(#[trigger] s1[k], idx) by {
        lema_indice_decomposto(k);
        let a = k / 10;
        let b = k % 10;
        assert(s1[indice(a, b)] == depois_do_deslocamento(antes, idx, dx, dy, a, b));
        assert(!eh_atingida(s0[indice(a, b)], idx));
    }
    lema_contagem_atingidas_zero(s1, idx);
    let f = |k: int| indice(k / 10 + dx, k % 10 + dy);
    let p0 = posicoes_de_partes(s0, idx);
    let p1 = posicoes_de_partes(s1, idx);
    lema_contagem_e_cardinalidade(s0, idx);
    lema_contagem_e_cardinalidade(s1, idx);
    assert forall|k1: int, k2: int| p0.contains(k1) && p0.contains(k2) && #[trigger] f(k1) == #[trigger] f(k2)
        implies k1 == k2 by {
        lema_indice_decomposto(k1);
        lema_indice_decomposto(k2);
        assert(!eh_atingida(s0[k1], idx));
        assert(!eh_atingida(s0[k2], idx));
        assert(antes.celula(k1 / 10, k1 % 10) == Celula::Ocupado(idx));
        assert(antes.celula(k2 / 10, k2 % 10) == Celula::Ocupado(idx));
    }
    assert forall|k: int| #[trigger] p1.contains(k) implies p0.map(f).contains(k) by {
        lema_indice_decomposto(k);
        let a = k / 10;
        let b = k % 10;
        assert(s1[indice(a, b)] == depois_do_deslocamento(antes, idx, dx, dy, a, b));
        assert(!eh_atingida(s0[k], idx));
        let k0 = indice(a - dx, b - dy);
        assert(na_grade(a - dx, b - dy));
        lema_indice_decomposto(k0);
        assert(k0 / 10 == a - dx && k0 % 10 == b - dy);
        assert(p0.contains(k0));
        assert(f(k0) == k);
    }
    assert forall|k: int| p0.map(f).contains(k) implies #[trigger] p1.contains(k) by {
        let k0 = choose|k0: int| p0.contains(k0) && f(k0) == k;
        lema_indice_decomposto(k0);
        let a0 = k0 / 10;
        let b0 = k0 % 10;
        assert(!eh_atingida(s0[k0], idx));
        assert(parte_intacta(antes, idx, a0, b0));
        assert(na_grade(a0 + dx, b0 + dy));
        let j = indice(a0 + dx, b0 + dy);
        lema_indice_decomposto(j);
        assert(j / 10 == a0 + dx && j % 10 == b0 + dy);
        assert(s1[indice(a0 + dx, b0 + dy)] == depois_do_deslocamento(antes, idx, dx, dy, a0 + dx, b0 + dy));
    }
    assert(p0.map(f) =~= p1);
    vstd::set_lib::lemma_map_size(p0, p1, f);
}

/// Sem parte atingida do navio `i`, não há acertos a contar.
pub proof fn lema_contagem_atingidas_zero(s: Seq<Celula>, i: usize)
    requires
        forall|k: int| 0 <= k < s.len() ==> !eh_atingida(#[trigger] s[k], i),
    ensures
        contar_atingidas(s, i) == 0,
    decreases s.len(),
{
    if s.len() > 0 {
        assert(!eh_atingida(s[s.len() - 1], i));
        lema_contagem_atingidas_zero(s.drop_last(), i);
    }
}

/// A célula depois de retirar o navio `idx` da frota: suas partes intactas
/// viram água não atacada, as atingidas viram água atacada, e os navios
/// seguintes passam um índice para trás.
pub open spec fn sem_o_navio(c: Celula, idx: usize) -> Celula {
    match c {
        Celula::Ocupado(j) => if j == idx {
            Celula::Vazio
        } else if j > idx {
            Celula::Ocupado((j - 1) as usize)
        } else {
            c
        },
        Celula::Atingido(j) => if j == idx {
            Celula::Agua
        } else if j > idx {
            Celula::Atingido((j - 1) as usize)
        } else {
            c
        },
        _ => c,
    }
}

impl EstadoTabuleiro {
    /// Retira da frota o navio que ocupa (x, y) e devolve seu nome; as suas
    /// células voltam a ser água (atacada onde ele tinha sido atingido). Se
    /// em (x, y) não há navio,
    /// devolve `None` e não muda nada.
    pub fn remover_navio_na_posicao(&mut self, x: usize, y: usize) -> (r: Option<String>)
        requires
            old(self).bem_formado(),
        ensures
            final(self).bem_formado(),
            r is None <==> !(x < BOARD_SIZE && y < BOARD_SIZE && navio_da_celula(
                old(self).celula(x as int, y as int),
            ) is Some),
            r is None ==> final(self).grade() == old(self).grade() && final(self).frota()
                == old(self).frota(),
            r is Some ==> {
                let idx = navio_da_celula(old(self).celula(x as int, y as int))->0;
                &&& r == Some(old(self).frota()[idx as int].nome)
                &&& final(self).frota() == old(self).frota().remove(idx as int)
                &&& final(self).grade() == old(self).grade().map_values(|c: Celula| sem_o_navio(c, idx))
            },
    {
        let idx = match self.valor_celula(x, y) {
            Some(Celula::Ocupado(i)) => i,
            Some(Celula::Atingido(i)) => i,
            _ => {
                return None;
            },
        };
        let ghost antes = *self;
        assert(navio_da_celula(antes.grade()[indice(x as int, y as int)]) is Some);
        let mut nova: Vec<Celula> = Vec::new();
        let mut k: usize = 0;
        while k < self.celulas.len()
            invariant
                antes == *self,
                k <= self.celulas@.len(),
                nova@.len() == k,
                forall|j: int| 0 <= j < k ==> #[trigger] nova@[j] == sem_o_navio(self.celulas@[j], idx),
            decreases self.celulas@.len() - k,
        {
            let c = self.celulas[k];
            let d = match c {
                Celula::Ocupado(j) => if j == idx {
                    Celula::Vazio
                } else if j > idx {
                    Celula::Ocupado(j - 1)
                } else {
                    c
                },
                Celula::Atingido(j) => if j == idx {
                    Celula::Agua
                } else if j > idx {
                    Celula::Atingido(j - 1)
                } else {
                    c
                },
                _ => c,
            };
            nova.push(d);
            k = k + 1;
        }
        let navio = self.navios.remove(idx);
        self.celulas = nova;
        proof {
            let s0 = antes.grade();
            let s1 = self.celulas@;
            assert(s1 =~= s0.map_values(|c: Celula| sem_o_navio(c, idx)));
            assert forall|i: usize| i < self.frota().len() implies {
                &&& self.frota()[i as int].tamanho == contar_partes(s1, i)
                &&& self.frota()[i as int].acertos == contar_atingidas(s1, i)
            } by {
                assert(antes.frota().len() == antes.navios.len());
                let i0: usize = if i < idx { i } else { (i + 1) as usize };
                assert(self.frota()[i as int] == antes.frota()[i0 as int]);
                assert forall|k: int| 0 <= k < s1.len() implies eh_parte(#[trigger] s1[k], i) == eh_parte(
                    s0[k],
                    i0,
                ) && eh_atingida(s1[k], i) == eh_atingida(s0[k], i0) by {
                    assert(s1[k] == sem_o_navio(s0[k], idx));
                }
                lema_contagens_correspondentes(s1, s0, i, i0);
            }
            assert forall|k: int|
                0 <= k < s1.len() && #[trigger] navio_da_celula(s1[k]) is Some
                implies navio_da_celula(s1[k])->0 < self.frota().len() by {
                assert(navio_da_celula(s0[k]) is Some);
            }
        }
        Some(navio.nome)
    }
}

/// Deslocar um navio não muda quais células já foram atacadas.
pub proof fn lei_deslocamento_preserva_disparos(
    antes: EstadoTabuleiro,
    depois: EstadoTabuleiro,
    idx: usize,
    dx: int,
    dy: int,
)
    requires
        antes.bem_formado(),
        antes.movimento_permitido(idx, dx, dy),
        forall|a: int, b: int|
            na_grade(a, b) ==> #[trigger] depois.celula(a, b) == depois_do_deslocamento(
                antes,
                idx,
                dx,
                dy,
                a,
                b,
            ),
    ensures
        forall|a: int, b: int|
            na_grade(a, b) ==> ja_disparada(#[trigger] depois.celula(a, b)) == ja_disparada(
                antes.celula(a, b),
            ),
{
    assert forall|a: int, b: int| na_grade(a, b) implies ja_disparada(#[trigger] depois.celula(a, b))
        == ja_disparada(antes.celula(a, b)) by {
        assert(depois.celula(a, b) == depois_do_deslocamento(antes, idx, dx, dy, a, b));
        if parte_intacta(antes, idx, a - dx, b - dy) {
            assert(antes.celula(a, b) is Vazio || antes.celula(a, b) == Celula::Ocupado(idx));
        }
    }
}

} // verus!

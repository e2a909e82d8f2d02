//! O adversário controlado pela máquina e as estratégias com que escolhe
//! onde disparar.

use godot::classes::RandomNumberGenerator;
use godot::obj::NewGd;
use vstd::prelude::*;

use crate::disparo::{efeito_do_disparo, RetornoDisparo};
use crate::jogador::{frota_derrotada, Jogador};
use crate::tabuleiro::{indice, ja_disparada, na_faixa, na_grade, Celula, EstadoTabuleiro, Navio, BOARD_SIZE};

verus! {

/// Um modo de escolher o próximo alvo no tabuleiro inimigo.
pub trait EstrategiaIA {
    /// O próximo alvo, linha e coluna, ou `None` se não há onde disparar.
    /// Um alvo escolhido é sempre uma célula do tabuleiro ainda não atacada,
    /// e enquanto houver uma há alvo.
    fn escolher_alvo(&mut self, tabuleiro_inimigo: &EstadoTabuleiro) -> (r: Option<(usize, usize)>)
        requires
            tabuleiro_inimigo.bem_formado(),
        ensures
            r matches Some((x, y)) ==> alvo_disponivel(*tabuleiro_inimigo, x as int, y as int),
            r is None ==> !(exists|x: int, y: int| alvo_disponivel(*tabuleiro_inimigo, x, y)),
    ;
}

/// A célula (x, y) ainda pode ser alvo: está no tabuleiro e não foi atacada.
pub open spec fn alvo_disponivel(t: EstadoTabuleiro, x: int, y: int) -> bool {
    &&& 0 <= x < BOARD_SIZE
    &&& 0 <= y < BOARD_SIZE
    &&& !ja_disparada(t.celula(x, y))
}

/// As células ainda não atacadas, em ordem de linha e coluna.
pub fn alvos_disponiveis(tabuleiro: &EstadoTabuleiro) -> (r: Vec<(usize, usize)>)
    requires
        tabuleiro.bem_formado(),
    ensures
        forall|j: int|
            0 <= j < r@.len() ==> alvo_disponivel(*tabuleiro, (#[trigger] r@[j]).0 as int, r@[j].1 as int),
        forall|x: int, y: int|
            alvo_disponivel(*tabuleiro, x, y) ==> r@.contains((x as usize, y as usize)),
        forall|j1: int, j2: int|
            0 <= j1 < j2 < r@.len() ==> indice(r@[j1].0 as int, r@[j1].1 as int) < indice(
                r@[j2].0 as int,
                r@[j2].1 as int,
            ),
{
    let mut r: Vec<(usize, usize)> = Vec::new();
    let mut x: usize = 0;
    while x < BOARD_SIZE
        invariant
            tabuleiro.bem_formado(),
            x <= BOARD_SIZE,
            forall|j: int|
                0 <= j < r@.len() ==> (#[trigger] r@[j]).0 < x && alvo_disponivel(
                    *tabuleiro,
                    r@[j].0 as int,
                    r@[j].1 as int,
                ),
            forall|p: int, q: int|
                p < x && alvo_disponivel(*tabuleiro, p, q) ==> r@.contains((p as usize, q as usize)),
            forall|j1: int, j2: int|
                0 <= j1 < j2 < r@.len() ==> indice(r@[j1].0 as int, r@[j1].1 as int) < indice(
                    r@[j2].0 as int,
                    r@[j2].1 as int,
                ),
        decreases BOARD_SIZE - x,
    {
        let mut y: usize = 0;
        while y < BOARD_SIZE
            invariant
                tabuleiro.bem_formado(),
                x < BOARD_SIZE,
                y <= BOARD_SIZE,
                forall|j: int|
                    0 <= j < r@.len() ==> indice((#[trigger] r@[j]).0 as int, r@[j].1 as int) < indice(
                        x as int,
                        y as int,
                    ) && r@[j].0 <= x && alvo_disponivel(*tabuleiro, r@[j].0 as int, r@[j].1 as int),
                forall|p: int, q: int|
                    (p < x || (p == x && q < y)) && alvo_disponivel(*tabuleiro, p, q) ==> r@.contains(
                        (p as usize, q as usize),
                    ),
                forall|j1: int, j2: int|
                    0 <= j1 < j2 < r@.len() ==> indice(r@[j1].0 as int, r@[j1].1 as int) < indice(
                        r@[j2].0 as int,
                        r@[j2].1 as int,
                    ),
            decreases BOARD_SIZE - y,
        {
            let livre = match tabuleiro.valor_celula(x, y) {
                Some(Celula::Vazio) => true,
                Some(Celula::Ocupado(_)) => true,
                _ => false,
            };
            let ghost r0 = r@;
            if livre {
                r.push((x, y));
                proof {
                    assert forall|p: int, q: int|
                        (p < x || (p == x && q < y + 1)) && alvo_disponivel(*tabuleiro, p, q)
                        implies r@.contains((p as usize, q as usize)) by {
                        if p == x && q == y {
                            assert(r@[r0.len() as int] == (x, y));
                        } else {
                            let j = choose|j: int| 0 <= j < r0.len() && r0[j] == (p as usize, q as usize);
                            assert(r@[j] == (p as usize, q as usize));
                        }
                    }
                }
            }
            y = y + 1;
        }
        x = x + 1;
    }
    r
}

/// Um número sorteado pelo gerador de números aleatórios do Godot
/// (`RandomNumberGenerator::randi_range(0, maximo)`), semeado com
/// `randomize`. O número depende do acaso, e as ligações do Godot aqui só
/// mostram a assinatura da função, não o intervalo do resultado: o
/// contrato não diz nada dele.
#[verifier::external_body]
fn sortear_ate(maximo: u32) -> usize
    requires
        maximo <= i32::MAX,
{
    let mut rng = RandomNumberGenerator::new_gd();
    rng.randomize();
    rng.randi_range(0, maximo as i32) as usize
}

/// O maior número que o sorteio de uma posição da lista pode dar: a última
/// posição.
pub fn limite_do_sorteio<T>(itens: &Vec<T>) -> (r: u32)
    requires
        0 < itens@.len() <= 2 * BOARD_SIZE * BOARD_SIZE,
    ensures
        r == itens@.len() - 1,
{
    (itens.len() - 1) as u32
}

/// O item de posição `sorteio` na lista, ou `None` se a posição não existe.
pub fn alvo_sorteado<T: Copy>(itens: &Vec<T>, sorteio: usize) -> (r: Option<T>)
    ensures
        r == (if sorteio < itens@.len() {
            Some(itens@[sorteio as int])
        } else {
            None
        }),
{
    if sorteio < itens.len() {
        Some(itens[sorteio])
    } else {
        None
    }
}

/// A estratégia fácil: dispara ao acaso numa célula ainda não atacada.
pub struct EstrategiaFacil;

impl EstrategiaIA for EstrategiaFacil {
    /// Sorteia uma posição entre as células ainda não atacadas (em ordem de
    /// linha e coluna, `alvos_disponiveis`) e dispara na célula dessa
    /// posição (`alvo_sorteado`); um número sorteado além da última posição
    /// volta ao começo da lista. Sem células livres, não há alvo; com alguma,
    /// sempre há.
    fn escolher_alvo(&mut self, tabuleiro_inimigo: &EstadoTabuleiro) -> (r: Option<(usize, usize)>)
        ensures
            !(exists|x: int, y: int| alvo_disponivel(*tabuleiro_inimigo, x, y)) ==> r is None,
            (exists|x: int, y: int| alvo_disponivel(*tabuleiro_inimigo, x, y)) ==> r is Some,
    {
        let alvos = alvos_disponiveis(tabuleiro_inimigo);
        if alvos.len() == 0 {
            proof {
                assert forall|x: int, y: int| !alvo_disponivel(*tabuleiro_inimigo, x, y) by {
                    if alvo_disponivel(*tabuleiro_inimigo, x, y) {
                        assert(alvos@.contains((x as usize, y as usize)));
                    }
                }
            }
            return None;
        }
        assert(alvos.len() <= BOARD_SIZE * BOARD_SIZE) by {
            lema_alvos_distintos_cabem(alvos@);
        }
        let sorteio = sortear_ate(limite_do_sorteio(&alvos));
        alvo_sorteado(&alvos, sorteio % alvos.len())
    }
}

/// Posições em ordem estrita de índice, todas no tabuleiro, são no máximo
/// tantas quantas as células.
proof fn lema_alvos_distintos_cabem(s: Seq<(usize, usize)>)
    requires
        forall|j: int| 0 <= j < s.len() ==> (#[trigger] s[j]).0 < BOARD_SIZE && s[j].1 < BOARD_SIZE,
        forall|j1: int, j2: int|
            0 <= j1 < j2 < s.len() ==> indice(s[j1].0 as int, s[j1].1 as int) < indice(
                s[j2].0 as int,
                s[j2].1 as int,
            ),
    ensures
        s.len() <= BOARD_SIZE * BOARD_SIZE,
    decreases s.len(),
{
    if s.len() > 0 {
        let u = s.drop_last();
        lema_alvos_distintos_cabem(u);
        let l = s.len() - 1;
        assert forall|j: int| 0 <= j < l implies indice(s[j].0 as int, s[j].1 as int) + (l - j) <= indice(
            s[l].0 as int,
            s[l].1 as int,
        ) by {
            lema_indices_crescem(s, j, l);
        }
        if l > 0 {
            assert(indice(s[0].0 as int, s[0].1 as int) + l <= indice(s[l].0 as int, s[l].1 as int));
        }
        assert(s[l].0 < BOARD_SIZE && s[l].1 < BOARD_SIZE);
        assert(s[0].0 < BOARD_SIZE && s[0].1 < BOARD_SIZE);
    }
}

proof fn lema_indices_crescem(s: Seq<(usize, usize)>, j: int, l: int)
    requires
        0 <= j <= l < s.len(),
        forall|j1: int, j2: int|
            0 <= j1 < j2 < s.len() ==> indice(s[j1].0 as int, s[j1].1 as int) < indice(
                s[j2].0 as int,
                s[j2].1 as int,
            ),
    ensures
        indice(s[j].0 as int, s[j].1 as int) + (l - j) <= indice(s[l].0 as int, s[l].1 as int),
    decreases l - j,
{
    if j < l {
        lema_indices_crescem(s, j + 1, l);
    }
}

/// O adversário controlado pela máquina: um jogador e a estratégia com que
/// escolhe seus alvos.
pub struct JogadorIA {
    jogador: Jogador,
    estrategia: Box<dyn EstrategiaIA>,
}

impl JogadorIA {
    /// O jogador do adversário.
    pub closed spec fn jogador_spec(&self) -> Jogador {
        self.jogador
    }

    /// A estratégia do adversário.
    pub closed spec fn estrategia_spec(&self) -> Box<dyn EstrategiaIA> {
        self.estrategia
    }

    /// Um adversário com tabuleiro vazio e a estratégia dada.
    pub fn novo(estrategia: Box<dyn EstrategiaIA>) -> (j: Self)
        ensures
            j.jogador_spec().estado().bem_formado(),
            j.jogador_spec().estado().frota().len() == 0,
            forall|x: int, y: int|
                0 <= x < BOARD_SIZE && 0 <= y < BOARD_SIZE ==> j.jogador_spec().estado().celula(x, y)
                    == Celula::Vazio,
    {
        Self { jogador: Jogador::novo_ia(), estrategia }
    }

    /// Um adversário que dispara ao acaso.
    pub fn novo_facil() -> (j: Self)
        ensures
            j.jogador_spec().estado().bem_formado(),
            j.jogador_spec().estado().frota().len() == 0,
            forall|x: int, y: int|
                0 <= x < BOARD_SIZE && 0 <= y < BOARD_SIZE ==> j.jogador_spec().estado().celula(x, y)
                    == Celula::Vazio,
    {
        Self::novo(Box::new(EstrategiaFacil))
    }

    pub fn jogador_mut(&mut self) -> (j: &mut Jogador)
        ensures
            *j == old(self).jogador_spec(),
            final(self).jogador_spec() == *final(j),
            final(self).estrategia_spec() == old(self).estrategia_spec(),
    {
        &mut self.jogador
    }

    /// O próximo alvo, segundo a estratégia do adversário.
    pub fn escolher_alvo(&mut self, tabuleiro_inimigo: &EstadoTabuleiro) -> (r: Option<(usize, usize)>)
        requires
            tabuleiro_inimigo.bem_formado(),
        ensures
            final(self).jogador_spec() == old(self).jogador_spec(),
            r matches Some((x, y)) ==> alvo_disponivel(*tabuleiro_inimigo, x as int, y as int),
            r is None ==> !(exists|x: int, y: int| alvo_disponivel(*tabuleiro_inimigo, x, y)),
    {
        self.estrategia.escolher_alvo(tabuleiro_inimigo)
    }

    /// Recebe um disparo no tabuleiro do adversário.
    pub fn receber_disparo(&mut self, x: usize, y: usize) -> (r: RetornoDisparo)
        requires
            old(self).jogador_spec().estado().bem_formado(),
        ensures
            final(self).jogador_spec().estado().bem_formado(),
            final(self).estrategia_spec() == old(self).estrategia_spec(),
            efeito_do_disparo(
                old(self).jogador_spec().estado(),
                final(self).jogador_spec().estado(),
                x,
                y,
                r,
            ),
    {
        self.jogador.receber_disparo(x, y)
    }

    /// O adversário perdeu: tem frota e todos os seus navios afundaram.
    pub fn perdeu(&self) -> (r: bool)
        ensures
            r == frota_derrotada(self.jogador_spec().estado()),
    {
        self.jogador.perdeu()
    }
}

/// As posições (linha, coluna e se fica na horizontal) em que cabe um navio
/// de `tamanho` células, em ordem de linha e coluna.
pub fn posicoes_possiveis(tabuleiro: &EstadoTabuleiro, tamanho: usize) -> (r: Vec<(usize, usize, bool)>)
    requires
        tabuleiro.bem_formado(),
    ensures
        r@.len() <= 2 * BOARD_SIZE * BOARD_SIZE,
        forall|j: int|
            0 <= j < r@.len() ==> tabuleiro.cabe(
                tamanho as int,
                (#[trigger] r@[j]).0 as int,
                r@[j].1 as int,
                r@[j].2,
            ),
        forall|x: int, y: int, h: bool|
            tabuleiro.cabe(tamanho as int, x, y, h) ==> r@.contains((x as usize, y as usize, h)),
{
    let mut r: Vec<(usize, usize, bool)> = Vec::new();
    let mut x: usize = 0;
    while x < BOARD_SIZE
        invariant
            tabuleiro.bem_formado(),
            x <= BOARD_SIZE,
            r@.len() <= 2 * indice(x as int, 0),
            forall|j: int|
                0 <= j < r@.len() ==> tabuleiro.cabe(
                    tamanho as int,
                    (#[trigger] r@[j]).0 as int,
                    r@[j].1 as int,
                    r@[j].2,
                ),
            forall|p: int, q: int, h: bool|
                p < x && tabuleiro.cabe(tamanho as int, p, q, h) ==> r@.contains((p as usize, q as usize, h)),
        decreases BOARD_SIZE - x,
    {
        let mut y: usize = 0;
        while y < BOARD_SIZE
            invariant
                tabuleiro.bem_formado(),
                x < BOARD_SIZE,
                y <= BOARD_SIZE,
                r@.len() <= 2 * indice(x as int, y as int),
                forall|j: int|
                    0 <= j < r@.len() ==> tabuleiro.cabe(
                        tamanho as int,
                        (#[trigger] r@[j]).0 as int,
                        r@[j].1 as int,
                        r@[j].2,
                    ),
                forall|p: int, q: int, h: bool|
                    (p < x || (p == x && q < y)) && tabuleiro.cabe(tamanho as int, p, q, h) ==> r@.contains(
                        (p as usize, q as usize, h),
                    ),
            decreases BOARD_SIZE - y,
        {
            let ghost r0 = r@;
            if tabuleiro.pode_posicionar(tamanho, x, y, true) {
                r.push((x, y, true));
            }
            let ghost r1 = r@;
            if tabuleiro.pode_posicionar(tamanho, x, y, false) {
                r.push((x, y, false));
            }
            proof {
                assert forall|p: int, q: int, h: bool|
                    (p < x || (p == x && q < y + 1)) && tabuleiro.cabe(tamanho as int, p, q, h)
                    implies r@.contains((p as usize, q as usize, h)) by {
                    if p == x && q == y {
                        if h {
                            assert(r@[r0.len() as int] == (x, y, true));
                        } else {
                            assert(r@[r1.len() as int] == (x, y, false));
                        }
                    } else {
                        let j = choose|j: int| 0 <= j < r0.len() && r0[j] == (p as usize, q as usize, h);
                        assert(r@[j] == (p as usize, q as usize, h));
                    }
                }
            }
            y = y + 1;
        }
        x = x + 1;
    }
    r
}

/// `n` corresponde à entrada (nome, tamanho) da frota: um navio novo, sem
/// acertos.
pub open spec fn navio_da_entrada(n: Navio, entrada: (String, usize)) -> bool {
    n == Navio { nome: entrada.0, tamanho: entrada.1, acertos: 0 }
}

/// Os navios são, na mesma ordem, navios novos de entradas da frota,
/// algumas talvez puladas.
pub open spec fn navios_da_frota(navios: Seq<Navio>, frota: Seq<(String, usize)>) -> bool
    decreases frota.len(),
{
    if frota.len() == 0 {
        navios.len() == 0
    } else {
        ||| (navios.len() > 0 && navio_da_entrada(navios.last(), frota.last()) && navios_da_frota(
            navios.drop_last(),
            frota.drop_last(),
        ))
        ||| navios_da_frota(navios, frota.drop_last())
    }
}

/// Em nenhuma posição do tabuleiro cabe um navio de `tamanho` células.
pub open spec fn nao_cabe_em_lugar_nenhum(t: EstadoTabuleiro, tamanho: int) -> bool {
    forall|x: int, y: int, h: bool| !#[trigger] t.cabe(tamanho, x, y, h)
}

/// Os navios são, na mesma ordem, navios novos das entradas da frota, e
/// cada entrada que ficou de fora é de um navio que não cabe em lugar
/// nenhum do tabuleiro `t`.
pub open spec fn frota_posta(navios: Seq<Navio>, frota: Seq<(String, usize)>, t: EstadoTabuleiro) -> bool
    decreases frota.len(),
{
    if frota.len() == 0 {
        navios.len() == 0
    } else {
        ||| (navios.len() > 0 && navio_da_entrada(navios.last(), frota.last()) && frota_posta(
            navios.drop_last(),
            frota.drop_last(),
            t,
        ))
        ||| (nao_cabe_em_lugar_nenhum(t, frota.last().1 as int) && frota_posta(navios, frota.drop_last(), t))
    }
}

/// O que não cabe num tabuleiro também não cabe num com mais células
/// ocupadas: se toda célula livre de `t2` já era livre em `t`, as entradas
/// que ficaram de fora em `t` continuam sem lugar em `t2`.
pub proof fn lema_frota_posta_com_mais_ocupadas(
    navios: Seq<Navio>,
    frota: Seq<(String, usize)>,
    t: EstadoTabuleiro,
    t2: EstadoTabuleiro,
)
    requires
        frota_posta(navios, frota, t),
        forall|a: int, b: int|
            na_grade(a, b) && #[trigger] t2.celula(a, b) == Celula::Vazio ==> t.celula(a, b) == Celula::Vazio,
    ensures
        frota_posta(navios, frota, t2),
    decreases frota.len(),
{
    if frota.len() > 0 {
        let tam = frota.last().1 as int;
        if nao_cabe_em_lugar_nenhum(t, tam) {
            assert forall|x: int, y: int, h: bool| !#[trigger] t2.cabe(tam, x, y, h) by {
                if t2.cabe(tam, x, y, h) {
                    assert forall|a: int, b: int| na_faixa(x, y, tam, h, a, b) implies #[trigger] t.celula(a, b)
                        == Celula::Vazio by {
                        assert(t2.celula(a, b) == Celula::Vazio);
                        assert(na_grade(a, b));
                    }
                    assert(t.cabe(tam, x, y, h));
                }
            }
        }
        if navios.len() > 0 && navio_da_entrada(navios.last(), frota.last()) && frota_posta(
            navios.drop_last(),
            frota.drop_last(),
            t,
        ) {
            lema_frota_posta_com_mais_ocupadas(navios.drop_last(), frota.drop_last(), t, t2);
        } else {
            lema_frota_posta_com_mais_ocupadas(navios, frota.drop_last(), t, t2);
        }
    }
}

/// Uma frota posta em que todo navio ainda cabe em algum lugar do
/// tabuleiro foi posta inteira: um navio por entrada, na ordem da frota.
pub proof fn lei_frota_toda_posta(navios: Seq<Navio>, frota: Seq<(String, usize)>, t: EstadoTabuleiro)
    requires
        frota_posta(navios, frota, t),
        forall|i: int| 0 <= i < frota.len() ==> !nao_cabe_em_lugar_nenhum(t, (#[trigger] frota[i]).1 as int),
    ensures
        navios.len() == frota.len(),
        forall|i: int| 0 <= i < navios.len() ==> navio_da_entrada(#[trigger] navios[i], frota[i]),
    decreases frota.len(),
{
    if frota.len() > 0 {
        let f = frota.drop_last();
        assert(frota.last() == frota[frota.len() - 1]);
        assert forall|i: int| 0 <= i < f.len() implies !nao_cabe_em_lugar_nenhum(t, (#[trigger] f[i]).1 as int) by {
            assert(f[i] == frota[i]);
        }
        lei_frota_toda_posta(navios.drop_last(), f, t);
        assert forall|i: int| 0 <= i < navios.len() implies navio_da_entrada(#[trigger] navios[i], frota[i]) by {
            if i < navios.len() - 1 {
                assert(navios[i] == navios.drop_last()[i]);
                assert(frota[i] == f[i]);
            }
        }
    }
}

/// Uma frota posta nunca tem mais navios que entradas.
pub proof fn lei_frota_posta_cabe_na_frota(navios: Seq<Navio>, frota: Seq<(String, usize)>, t: EstadoTabuleiro)
    requires
        frota_posta(navios, frota, t),
    ensures
        navios.len() <= frota.len(),
    decreases frota.len(),
{
    if frota.len() > 0 {
        if navios.len() > 0 && navio_da_entrada(navios.last(), frota.last()) && frota_posta(
            navios.drop_last(),
            frota.drop_last(),
            t,
        ) {
            lei_frota_posta_cabe_na_frota(navios.drop_last(), frota.drop_last(), t);
        } else {
            lei_frota_posta_cabe_na_frota(navios, frota.drop_last(), t);
        }
    }
}

impl EstadoTabuleiro {
    /// Põe a frota dada no tabuleiro, navio a navio, cada um numa posição
    /// sorteada entre as que ainda cabem (um número sorteado além da última
    /// posição volta ao começo da lista). Só fica de fora o navio que não
    /// cabe em lugar nenhum, e então também não cabe no tabuleiro final. Os
    /// navios já postos e as células já atacadas não mudam.
    pub fn preencher_aleatoriamente(&mut self, frota: &Vec<(String, usize)>)
        requires
            old(self).bem_formado(),
        ensures
            final(self).bem_formado(),
            forall|a: int, b: int|
                na_grade(a, b) ==> ja_disparada(#[trigger] final(self).celula(a, b)) == ja_disparada(
                    old(self).celula(a, b),
                ),
            old(self).frota().len() <= final(self).frota().len(),
            final(self).frota().subrange(0, old(self).frota().len() as int) == old(self).frota(),
            navios_da_frota(
                final(self).frota().subrange(old(self).frota().len() as int, final(self).frota().len() as int),
                frota@,
            ),
            frota_posta(
                final(self).frota().subrange(old(self).frota().len() as int, final(self).frota().len() as int),
                frota@,
                *final(self),
            ),
    {
        let ghost antes = *self;
        let mut i: usize = 0;
        while i < frota.len()
            invariant
                self.bem_formado(),
                i <= frota@.len(),
                forall|a: int, b: int|
                    na_grade(a, b) ==> ja_disparada(#[trigger] self.celula(a, b)) == ja_disparada(
                        antes.celula(a, b),
                    ),
                antes.frota().len() <= self.frota().len(),
                self.frota().subrange(0, antes.frota().len() as int) == antes.frota(),
                navios_da_frota(
                    self.frota().subrange(antes.frota().len() as int, self.frota().len() as int),
                    frota@.take(i as int),
                ),
                frota_posta(
                    self.frota().subrange(antes.frota().len() as int, self.frota().len() as int),
                    frota@.take(i as int),
                    *self,
                ),
            decreases frota@.len() - i,
        {
            let ghost meio = *self;
            let ghost novos = meio.frota().subrange(antes.frota().len() as int, meio.frota().len() as int);
            assert(frota@.take(i + 1).drop_last() =~= frota@.take(i as int));
            let tamanho = frota[i].1;
            let posicoes = posicoes_possiveis(self, tamanho);
            let mut posto = false;
            if posicoes.len() > 0 {
                let sorteio = sortear_ate(limite_do_sorteio(&posicoes));
                if let Some((x, y, horizontal)) = alvo_sorteado(&posicoes, sorteio % posicoes.len()) {
                    assert(posicoes@.contains((x, y, horizontal)));
                    posto = self.posicionar_navio(frota[i].0.clone(), tamanho, x, y, horizontal);
                    proof {
                        if posto {
                            assert forall|a: int, b: int| na_grade(a, b) implies ja_disparada(
                                #[trigger] self.celula(a, b),
                            ) == ja_disparada(antes.celula(a, b)) by {
                                if na_faixa(x as int, y as int, tamanho as int, horizontal, a, b) {
                                    assert(meio.celula(a, b) == Celula::Vazio);
                                }
                            }
                            assert(self.frota().subrange(0, antes.frota().len() as int) =~= antes.frota());
                            assert(self.frota().subrange(antes.frota().len() as int, self.frota().len() as int)
                                =~= novos.push(self.frota().last()));
                        }
                    }
                }
            }
            proof {
                if !posto {
                    assert(self.frota() == meio.frota());
                    assert(forall|a: int, b: int| #[trigger] self.celula(a, b) == meio.celula(a, b));
                }
                let f = frota@.take(i + 1);
                let n2 = self.frota().subrange(antes.frota().len() as int, self.frota().len() as int);
                assert(f.drop_last() =~= frota@.take(i as int));
                assert(f.last() == frota@[i as int]);
                if posto {
                    assert(n2.drop_last() =~= novos);
                    assert(navio_da_entrada(n2.last(), f.last()));
                } else {
                    assert(n2 =~= novos);
                }
                assert(navios_da_frota(n2, f));
                if posto {
                    assert forall|a: int, b: int|
                        na_grade(a, b) && #[trigger] self.celula(a, b) == Celula::Vazio implies meio.celula(a, b)
                            == Celula::Vazio by {
                    }
                    lema_frota_posta_com_mais_ocupadas(novos, frota@.take(i as int), meio, *self);
                    assert(frota_posta(n2, f, *self));
                } else {
                    assert(posicoes@.len() == 0);
                    assert forall|x: int, y: int, h: bool| !#[trigger] self.cabe(tamanho as int, x, y, h) by {
                        if self.cabe(tamanho as int, x, y, h) {
                            assert(posicoes@.contains((x as usize, y as usize, h)));
                        }
                    }
                    assert(frota_posta(n2, f, *self));
                }
            }
            i = i + 1;
        }
        assert(frota@.take(frota@.len() as int) =~= frota@);
    }
}

} // verus!

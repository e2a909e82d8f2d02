//! Um disparo contra um tabuleiro e o que ele devolve.

use vstd::prelude::*;
use vstd::string::*;

use crate::tabuleiro::{indice, ja_disparada, Celula, EstadoTabuleiro, Navio, BOARD_SIZE};

verus! {

/// O desfecho de um disparo.
#[derive(Debug)]
pub enum ResultadoDisparo {
    /// Caiu na água.
    Agua,
    /// Atingiu um navio que segue flutuando.
    Acerto,
    /// Atingiu a última parte intacta do navio com o nome dado.
    Afundou(String),
    /// A célula já tinha sido atacada: nada muda.
    JaDisparado,
    /// A coordenada está fora do tabuleiro: nada muda.
    ForaDoTabuleiro,
}

impl ResultadoDisparo {
    pub open spec fn valido(&self) -> bool {
        !(self is JaDisparado || self is ForaDoTabuleiro)
    }

    /// Um disparo é válido quando atingiu uma célula ainda não atacada.
    pub fn foi_valido(&self) -> (r: bool)
        ensures
            r == self.valido(),
    {
        match self {
            ResultadoDisparo::JaDisparado => false,
            ResultadoDisparo::ForaDoTabuleiro => false,
            _ => true,
        }
    }

    /// O disparo acertou um navio (afundando-o ou não).
    pub open spec fn acertou(&self) -> bool {
        self is Acerto || self is Afundou
    }
}

/// O que um disparo devolve: o desfecho e uma mensagem para o jogador.
#[derive(Debug)]
pub struct RetornoDisparo {
    pub resultado: ResultadoDisparo,
    pub mensagem: String,
}

/// A mensagem que acompanha cada desfecho.
pub open spec fn mensagem_do_resultado(r: ResultadoDisparo) -> Seq<char> {
    match r {
        ResultadoDisparo::Agua => "Água!"@,
        ResultadoDisparo::Acerto => "Acerto!"@,
        ResultadoDisparo::Afundou(nome) => "Afundou: "@ + nome@,
        ResultadoDisparo::JaDisparado => "Posição já atacada."@,
        ResultadoDisparo::ForaDoTabuleiro => "Fora do tabuleiro."@,
    }
}

/// O navio `n` com um acerto a mais.
pub open spec fn com_mais_um_acerto(n: Navio) -> Navio {
    Navio { nome: n.nome, tamanho: n.tamanho, acertos: (n.acertos + 1) as usize }
}

fn montar_retorno(resultado: ResultadoDisparo) -> (r: RetornoDisparo)
    ensures
        r.resultado == resultado,
        r.mensagem@ == mensagem_do_resultado(resultado),
{
    let mensagem = match &resultado {
        ResultadoDisparo::Agua => String::from_str("Água!"),
        ResultadoDisparo::Acerto => String::from_str("Acerto!"),
        ResultadoDisparo::Afundou(nome) => String::from_str("Afundou: ").concat(nome.as_str()),
        ResultadoDisparo::JaDisparado => String::from_str("Posição já atacada."),
        ResultadoDisparo::ForaDoTabuleiro => String::from_str("Fora do tabuleiro."),
    };
    RetornoDisparo { resultado, mensagem }
}

/// O que um disparo em (x, y) faz ao tabuleiro `antes`, deixando-o
/// `depois`, e o que devolve.
///
/// Fora do tabuleiro, ou numa célula já atacada, nada muda. Na água ainda
/// não atacada, a célula passa a água atacada. Numa parte intacta do navio
/// `i`, ela passa a atingida e o navio ganha um acerto; se com isso o navio
/// afunda, o desfecho traz seu nome. A mensagem é a do desfecho.
pub open spec fn efeito_do_disparo(
    antes: EstadoTabuleiro,
    depois: EstadoTabuleiro,
    x: usize,
    y: usize,
    r: RetornoDisparo,
) -> bool {
    let c = antes.celula(x as int, y as int);
    let k = indice(x as int, y as int);
    &&& r.mensagem@ == mensagem_do_resultado(r.resultado)
    &&& !(x < BOARD_SIZE && y < BOARD_SIZE) ==> {
        &&& r.resultado is ForaDoTabuleiro
        &&& depois.grade() == antes.grade()
        &&& depois.frota() == antes.frota()
    }
    &&& x < BOARD_SIZE && y < BOARD_SIZE ==> {
        &&& ja_disparada(c) ==> {
            &&& r.resultado is JaDisparado
            &&& depois.grade() == antes.grade()
            &&& depois.frota() == antes.frota()
        }
        &&& c is Vazio ==> {
            &&& r.resultado is Agua
            &&& depois.grade() == antes.grade().update(k, Celula::Agua)
            &&& depois.frota() == antes.frota()
        }
        &&& c matches Celula::Ocupado(i) ==> {
            let navio = com_mais_um_acerto(antes.frota()[i as int]);
            &&& depois.grade() == antes.grade().update(k, Celula::Atingido(i))
            &&& depois.frota() == antes.frota().update(i as int, navio)
            &&& r.resultado == if navio.afundado() {
                ResultadoDisparo::Afundou(navio.nome)
            } else {
                ResultadoDisparo::Acerto
            }
        }
    }
}

/// Dispara na célula (x, y) do tabuleiro; veja `efeito_do_disparo`.
pub fn executar_disparo(tabuleiro: &mut EstadoTabuleiro, x: usize, y: usize) -> (r: RetornoDisparo)
    requires
        old(tabuleiro).bem_formado(),
    ensures
        final(tabuleiro).bem_formado(),
        efeito_do_disparo(*old(tabuleiro), *final(tabuleiro), x, y, r),
{
    let celula = tabuleiro.valor_celula(x, y);
    let resultado = match celula {
        None => ResultadoDisparo::ForaDoTabuleiro,
        Some(Celula::Agua) => ResultadoDisparo::JaDisparado,
        Some(Celula::Atingido(_)) => ResultadoDisparo::JaDisparado,
        Some(Celula::Vazio) => {
            tabuleiro.marcar_agua(x, y);
            ResultadoDisparo::Agua
        },
        Some(Celula::Ocupado(_)) => {
            let i = tabuleiro.marcar_acerto(x, y);
            if tabuleiro.navios[i].esta_afundado() {
                ResultadoDisparo::Afundou(tabuleiro.navios[i].nome.clone())
            } else {
                ResultadoDisparo::Acerto
            }
        },
    };
    montar_retorno(resultado)
}

/// Um disparo repetido na mesma célula é recusado e não muda nada: depois
/// de um disparo válido em (x, y), o próximo em (x, y) devolve
/// `JaDisparado` e deixa o tabuleiro como estava.
pub proof fn lei_disparo_repetido_nao_muda_nada(
    t0: EstadoTabuleiro,
    t1: EstadoTabuleiro,
    t2: EstadoTabuleiro,
    x: usize,
    y: usize,
    r1: RetornoDisparo,
    r2: RetornoDisparo,
)
    requires
        t0.bem_formado(),
        efeito_do_disparo(t0, t1, x, y, r1),
        r1.resultado.valido(),
        efeito_do_disparo(t1, t2, x, y, r2),
    ensures
        r2.resultado is JaDisparado,
        t2.grade() == t1.grade(),
        t2.frota() == t1.frota(),
{
    assert(0 <= indice(x as int, y as int) < t0.grade().len());
}

/// Um disparo dentro do tabuleiro, numa célula ainda não atacada, é
/// sempre válido e deixa essa célula atacada.
pub proof fn lei_disparo_novo_e_valido(
    t0: EstadoTabuleiro,
    t1: EstadoTabuleiro,
    x: usize,
    y: usize,
    r: RetornoDisparo,
)
    requires
        t0.bem_formado(),
        x < BOARD_SIZE,
        y < BOARD_SIZE,
        !ja_disparada(t0.celula(x as int, y as int)),
        efeito_do_disparo(t0, t1, x, y, r),
    ensures
        r.resultado.valido(),
        ja_disparada(t1.celula(x as int, y as int)),
{
    assert(0 <= indice(x as int, y as int) < t0.grade().len());
}

} // verus!

//! Os nomes das conquistas e a lista que a tela de conquistas mostra.

use vstd::prelude::*;
use vstd::string::*;

use crate::usuario::Conquista;

verus! {

/// O nome de cada conquista.
pub open spec fn nome_da_conquista(c: Conquista) -> Seq<char> {
    match c {
        Conquista::Almirante => "Almirante"@,
        Conquista::Capitao => "Capitao"@,
        Conquista::CapitaoDeMarEGuerra => "CapitaoDeMarEGuerra"@,
        Conquista::Marinheiro => "Marinheiro"@,
    }
}

impl Conquista {
    /// O nome da conquista.
    pub fn nome(&self) -> (r: &'static str)
        ensures
            r@ == nome_da_conquista(*self),
    {
        match self {
            Conquista::Almirante => "Almirante",
            Conquista::Capitao => "Capitao",
            Conquista::CapitaoDeMarEGuerra => "CapitaoDeMarEGuerra",
            Conquista::Marinheiro => "Marinheiro",
        }
    }
}

/// Os nomes das conquistas dadas, na mesma ordem.
pub fn obter_conquistas_usuario(conquistas: &Vec<Conquista>) -> (r: Vec<String>)
    ensures
        r@.len() == conquistas@.len(),
        forall|i: int| 0 <= i < r@.len() ==> (#[trigger] r@[i])@ == nome_da_conquista(conquistas@[i]),
{
    let mut r: Vec<String> = Vec::new();
    let mut i: usize = 0;
    while i < conquistas.len()
        invariant
            i <= conquistas@.len(),
            r@.len() == i,
            forall|j: int| 0 <= j < i ==> (#[trigger] r@[j])@ == nome_da_conquista(conquistas@[j]),
        decreases conquistas@.len() - i,
    {
        r.push(String::from_str(conquistas[i].nome()));
        i = i + 1;
    }
    r
}

/// Todas as conquistas, na ordem da tela, com nome e descrição.
pub open spec fn todas_as_conquistas() -> Seq<(Seq<char>, Seq<char>)> {
    seq![
        ("Almirante"@, "Vencer sem perder navios"@),
        ("Capitao"@, "Acertar 7 tiros seguidos"@),
        ("CapitaoDeMarEGuerra"@, "Acertar 8 tiros seguidos"@),
        ("Marinheiro"@, "Vencer em 20 rodadas ou menos"@),
    ]
}

/// `nomes` contém o texto `nome`.
pub open spec fn contem_nome(nomes: Seq<String>, nome: Seq<char>) -> bool {
    exists|i: int| 0 <= i < nomes.len() && (#[trigger] nomes[i])@ == nome
}

/// A linha da tela para uma conquista: marcada como desbloqueada ou
/// trancada, com nome e descrição.
pub open spec fn linha_da_conquista(nome: Seq<char>, descricao: Seq<char>, desbloqueada: bool) -> Seq<char> {
    (if desbloqueada { "✅ "@ } else { "🔒 "@ }) + nome + " - "@ + descricao
}

fn contem_texto(nomes: &Vec<String>, nome: &str) -> (r: bool)
    ensures
        r == contem_nome(nomes@, nome@),
{
    let alvo = String::from_str(nome);
    let mut i: usize = 0;
    while i < nomes.len()
        invariant
            i <= nomes@.len(),
            alvo@ == nome@,
            forall|j: int| 0 <= j < i ==> (#[trigger] nomes@[j])@ != nome@,
        decreases nomes@.len() - i,
    {
        if nomes[i] == alvo {
            return true;
        }
        i = i + 1;
    }
    false
}

fn linha(nome: &str, descricao: &str, desbloqueadas: &Vec<String>) -> (r: (String, bool))
    ensures
        r.1 == contem_nome(desbloqueadas@, nome@),
        r.0@ == linha_da_conquista(nome@, descricao@, r.1),
{
    let desbloqueada = contem_texto(desbloqueadas, nome);
    let prefixo = if desbloqueada { String::from_str("✅ ") } else { String::from_str("🔒 ") };
    let texto = prefixo.concat(nome).concat(" - ").concat(descricao);
    (texto, desbloqueada)
}

/// As linhas da tela de conquistas, na ordem de `todas_as_conquistas`:
/// o texto de cada uma e se ela está entre as desbloqueadas.
pub fn linhas_de_conquistas(desbloqueadas: &Vec<String>) -> (r: Vec<(String, bool)>)
    ensures
        r@.len() == todas_as_conquistas().len(),
        forall|i: int|
            0 <= i < r@.len() ==> {
                let (nome, descricao) = todas_as_conquistas()[i];
                &&& (#[trigger] r@[i]).1 == contem_nome(desbloqueadas@, nome)
                &&& r@[i].0@ == linha_da_conquista(nome, descricao, r@[i].1)
            },
{
    let mut r: Vec<(String, bool)> = Vec::new();
    r.push(linha("Almirante", "Vencer sem perder navios", desbloqueadas));
    r.push(linha("Capitao", "Acertar 7 tiros seguidos", desbloqueadas));
    r.push(linha("CapitaoDeMarEGuerra", "Acertar 8 tiros seguidos", desbloqueadas));
    r.push(linha("Marinheiro", "Vencer em 20 rodadas ou menos", desbloqueadas));
    r
}

impl Conquista {
    /// A conquista com o nome dado, se há uma.
    pub fn de_nome(nome: &str) -> (r: Option<Conquista>)
        ensures
            r matches Some(c) ==> nome_da_conquista(c) == nome@,
            r is None ==> forall|c: Conquista| nome_da_conquista(c) != nome@,
    {
        let s = String::from_str(nome);
        if s == String::from_str("Almirante") {
            Some(Conquista::Almirante)
        } else if s == String::from_str("Capitao") {
            Some(Conquista::Capitao)
        } else if s == String::from_str("CapitaoDeMarEGuerra") {
            Some(Conquista::CapitaoDeMarEGuerra)
        } else if s == String::from_str("Marinheiro") {
            Some(Conquista::Marinheiro)
        } else {
            proof {
                assert forall|c: Conquista| nome_da_conquista(c) != nome@ by {
                    match c {
                        Conquista::Almirante => {},
                        Conquista::Capitao => {},
                        Conquista::CapitaoDeMarEGuerra => {},
                        Conquista::Marinheiro => {},
                    }
                }
            }
            None
        }
    }
}

} // verus!

//! A sessão do jogo: o login de quem entrou, guardado como JSON.

use serde_json::Value;
use vstd::prelude::*;

verus! {

/// O que `serde_json::from_str::<Value>` lê do texto da sessão como login:
/// o campo "login", se o texto é JSON e o campo é texto.
pub uninterp spec fn login_json(texto: Seq<char>) -> Option<Seq<char>>;

/// Lê o campo "login" do texto JSON da sessão com
/// `serde_json::from_str::<Value>` e `as_str`. O contrato nomeia o
/// resultado, que depende só do texto.
#[verifier::external_body]
fn ler_login(texto: &str) -> (r: Option<String>)
    ensures
        match r {
            Some(l) => login_json(texto@) == Some(l@),
            None => login_json(texto@) is None,
        },
{
    let valor = serde_json::from_str::<Value>(texto).ok();
    valor.as_ref().and_then(|v| v.get("login")).and_then(|v| v.as_str()).map(|l| l.to_string())
}

/// O login de quem entrou, lido do texto JSON da sessão; vazio se o texto
/// não traz um login.
pub fn login_da_sessao(texto: &str) -> (r: String)
    ensures
        r@ == match login_json(texto@) {
            Some(l) => l,
            None => Seq::<char>::empty(),
        },
{
    match ler_login(texto) {
        Some(l) => l,
        None => String::new(),
    }
}

} // verus!

//! Usuários do jogo, suas conquistas, e o cadastro e a entrada com senha.

use argon2::password_hash::rand_core::OsRng;
use argon2::password_hash::{PasswordHash, PasswordHasher, PasswordVerifier, Salt, SaltString};
use argon2::Argon2;
use vstd::prelude::*;
use vstd::string::*;

verus! {

/// As conquistas que um usuário pode desbloquear.
#[derive(Clone, Copy, Debug, PartialEq, Eq, Structural)]
pub enum Conquista {
    Almirante,
    Capitao,
    CapitaoDeMarEGuerra,
    Marinheiro,
}

/// Um usuário cadastrado: identificação, hash da senha e estatísticas.
#[derive(Debug)]
pub struct Usuario {
    pub id: u64,
    pub nome: String,
    pub login: String,
    pub senha_hash: String,
    pub jogos_totais: u32,
    pub vitorias: u32,
    pub derrotas: u32,
    pub conquistas: Vec<Conquista>,
}

impl Usuario {
    /// Um usuário novo, sem partidas nem conquistas.
    pub fn novo_usuario(id: u64, nome: String, login: String, senha_hash: String) -> (u: Self)
        ensures
            u.id == id,
            u.nome == nome,
            u.login == login,
            u.senha_hash == senha_hash,
            u.jogos_totais == 0,
            u.vitorias == 0,
            u.derrotas == 0,
            u.conquistas@.len() == 0,
    {
        Usuario {
            id,
            nome,
            login,
            senha_hash,
            jogos_totais: 0,
            vitorias: 0,
            derrotas: 0,
            conquistas: Vec::new(),
        }
    }
}

/// Os usuários, sem os que têm o id dado, na mesma ordem.
pub open spec fn sem_o_id(usuarios: Seq<Usuario>, id: u64) -> Seq<Usuario>
    decreases usuarios.len(),
{
    if usuarios.len() == 0 {
        usuarios
    } else {
        let resto = sem_o_id(usuarios.drop_last(), id);
        if usuarios.last().id == id {
            resto
        } else {
            resto.push(usuarios.last())
        }
    }
}

/// Há um usuário guardado com esse login.
pub open spec fn login_em_uso(usuarios: Seq<Usuario>, login: Seq<char>) -> bool {
    exists|i: int| 0 <= i < usuarios.len() && (#[trigger] usuarios[i]).login@ == login
}

/// Há um usuário guardado com esse id.
pub open spec fn id_em_uso(usuarios: Seq<Usuario>, id: u64) -> bool {
    exists|i: int| 0 <= i < usuarios.len() && (#[trigger] usuarios[i]).id == id
}

/// Onde os usuários ficam guardados. Quem implementa o repositório diz, em
/// `usuarios`, quais usuários ele guarda; os métodos leem e gravam essa lista.
pub trait RepositorioUsuario {
    /// Os usuários guardados. Cada implementação diz quais são; a definição
    /// padrão (nenhum) só existe para que implementações sem especificação
    /// compilem, e o serviço, que é genérico no repositório, não a usa: ele
    /// raciocina só pelos contratos dos métodos.
    closed spec fn usuarios(&self) -> Seq<Usuario> {
        Seq::empty()
    }

    /// As mensagens de erro que `salvar` pode dar neste repositório. Cada
    /// implementação pode restringi-las; a definição padrão admite qualquer
    /// uma.
    closed spec fn erro_de_salvar(&self, erro: Seq<char>) -> bool {
        true
    }

    /// Guarda o usuário no lugar de um guardado com o mesmo id, se houver;
    /// num erro, nada muda, e a mensagem é uma das de `erro_de_salvar`.
    fn salvar(&mut self, usuario: Usuario) -> (r: Result<(), String>)
        ensures
            r is Ok ==> final(self).usuarios() == sem_o_id(old(self).usuarios(), usuario.id).push(usuario),
            r is Err ==> final(self).usuarios() == old(self).usuarios(),
            r matches Err(e) ==> old(self).erro_de_salvar(e@),
    ;

    /// Um usuário guardado com esse login, se houver.
    fn achar_por_login(&self, login: &str) -> (r: Option<Usuario>)
        ensures
            r is Some == login_em_uso(self.usuarios(), login@),
            r matches Some(u) ==> u.login@ == login@ && self.usuarios().contains(u),
    ;

    /// Um usuário guardado com esse id, se houver.
    fn achar_por_id(&self, id: u64) -> (r: Option<Usuario>)
        ensures
            r is Some == id_em_uso(self.usuarios(), id),
            r matches Some(u) ==> u.id == id && self.usuarios().contains(u),
    ;

    /// Todos os usuários guardados.
    fn listar(&self) -> (r: Vec<Usuario>)
        ensures
            r@ == self.usuarios(),
    ;
}

/// O maior id entre os usuários, ou 0 se não há nenhum.
pub open spec fn maior_id(usuarios: Seq<Usuario>) -> u64
    decreases usuarios.len(),
{
    if usuarios.len() == 0 {
        0
    } else {
        let resto = maior_id(usuarios.drop_last());
        if usuarios.last().id > resto {
            usuarios.last().id
        } else {
            resto
        }
    }
}

/// O id do próximo usuário: um a mais que o maior id em uso (1 se não há
/// usuários), ou `None` se o maior id já é o último possível.
pub fn proximo_id(usuarios: &Vec<Usuario>) -> (r: Option<u64>)
    ensures
        r == (if maior_id(usuarios@) < u64::MAX {
            Some((maior_id(usuarios@) + 1) as u64)
        } else {
            None
        }),
{
    let mut maior: u64 = 0;
    let mut i: usize = 0;
    while i < usuarios.len()
        invariant
            i <= usuarios@.len(),
            maior == maior_id(usuarios@.take(i as int)),
        decreases usuarios@.len() - i,
    {
        assert(usuarios@.take(i + 1).drop_last() =~= usuarios@.take(i as int));
        if usuarios[i].id > maior {
            maior = usuarios[i].id;
        }
        i = i + 1;
    }
    assert(usuarios@.take(i as int) =~= usuarios@);
    if maior < u64::MAX {
        Some(maior + 1)
    } else {
        None
    }
}

/// O que `Argon2::default().hash_password` devolve para a senha e o sal
/// dados: o hash no formato PHC, ou a mensagem do erro.
pub uninterp spec fn hash_da_senha(senha: Seq<char>, sal: Seq<char>) -> Result<Seq<char>, Seq<char>>;

/// O que conferir a senha contra o hash no formato PHC dá: `Err` com a
/// mensagem do erro se o texto não é um hash PHC (`PasswordHash::new`
/// falha), senão se `Argon2::default().verify_password` aceita a senha.
pub uninterp spec fn conferencia_da_senha(senha: Seq<char>, hash: Seq<char>) -> Result<bool, Seq<char>>;

/// Um sal novo, em base64 sem preenchimento, de `SaltString::generate`
/// sobre o gerador do sistema operacional (`OsRng`). O sal é fruto do acaso:
/// o contrato não diz nada dele.
#[verifier::external_body]
fn gerar_sal() -> String {
    SaltString::generate(&mut OsRng).as_str().to_string()
}

/// O hash da senha com o sal dado, por `Argon2::default().hash_password`
/// (o sal passa por `Salt::from_b64`; um erro ali ou no cálculo vem como a
/// mensagem do erro). O contrato nomeia o resultado, que depende só dos
/// argumentos, e diz que um hash calculado confere com a própria senha: a
/// conferência refaz o cálculo com o sal e os parâmetros guardados no hash e
/// compara as saídas.
#[verifier::external_body]
fn calcular_hash(senha: &str, sal: &str) -> (r: Result<String, String>)
    ensures
        match r {
            Ok(h) => hash_da_senha(senha@, sal@) == Ok::<Seq<char>, Seq<char>>(h@)
                && conferencia_da_senha(senha@, h@) == Ok::<bool, Seq<char>>(true),
            Err(e) => hash_da_senha(senha@, sal@) == Err::<Seq<char>, Seq<char>>(e@),
        },
{
    let sal = Salt::from_b64(sal).map_err(|e| e.to_string())?;
    Argon2::default().hash_password(senha.as_bytes(), sal).map(|h| h.to_string()).map_err(|e| e.to_string())
}

/// Confere a senha contra o hash no formato PHC: `PasswordHash::new` lê o
/// hash (um erro ali vem como a mensagem do erro) e
/// `Argon2::default().verify_password` diz se a senha confere. O contrato só
/// nomeia o resultado, que depende só dos argumentos.
#[verifier::external_body]
fn conferir_senha(senha: &str, hash: &str) -> (r: Result<bool, String>)
    ensures
        match r {
            Ok(b) => conferencia_da_senha(senha@, hash@) == Ok::<bool, Seq<char>>(b),
            Err(e) => conferencia_da_senha(senha@, hash@) == Err::<bool, Seq<char>>(e@),
        },
{
    let lido = PasswordHash::new(hash).map_err(|e| e.to_string())?;
    Ok(Argon2::default().verify_password(senha.as_bytes(), &lido).is_ok())
}

/// `u` é o usuário recém-cadastrado com esse id, nome, login e hash de
/// senha: sem partidas nem conquistas.
pub open spec fn usuario_recem_cadastrado(u: Usuario, id: u64, nome: String, login: String, senha_hash: String) -> bool {
    &&& u.id == id
    &&& u.nome == nome
    &&& u.login == login
    &&& u.senha_hash == senha_hash
    &&& u.jogos_totais == 0
    &&& u.vitorias == 0
    &&& u.derrotas == 0
    &&& u.conquistas@.len() == 0
}

/// O resultado de cadastrar um login ainda livre sobre os usuários dados:
/// o usuário novo com o próximo id livre, ou o erro de ids esgotados.
pub open spec fn cadastro_sobre(
    usuarios: Seq<Usuario>,
    nome: String,
    login: String,
    senha_hash: String,
    r: Result<Usuario, String>,
) -> bool {
    match proximo_id_spec(usuarios) {
        Some(id) => r matches Ok(u) && usuario_recem_cadastrado(u, id, nome, login, senha_hash),
        None => r matches Err(e) && e@ == "não há mais ids livres"@,
    }
}

/// O usuário a cadastrar com o hash de senha dado, com o próximo id livre;
/// `Err` se já não há id livre.
pub fn novo_cadastro(usuarios: &Vec<Usuario>, nome: String, login: String, senha_hash: String) -> (r: Result<Usuario, String>)
    ensures
        cadastro_sobre(usuarios@, nome, login, senha_hash, r),
{
    match proximo_id(usuarios) {
        Some(id) => Ok(Usuario::novo_usuario(id, nome, login, senha_hash)),
        None => Err(String::from_str("não há mais ids livres")),
    }
}

/// Decide um cadastro pelo resultado da busca do login: um login que já
/// existe é recusado com "login já existe"; senão, o usuário novo de
/// `novo_cadastro` sobre os usuários guardados, com o hash dado.
pub fn decidir_cadastro(
    existente: bool,
    usuarios: &Vec<Usuario>,
    nome: String,
    login: String,
    senha_hash: String,
) -> (r: Result<Usuario, String>)
    ensures
        existente ==> (r matches Err(e) && e@ == "login já existe"@),
        !existente ==> cadastro_sobre(usuarios@, nome, login, senha_hash, r),
{
    if existente {
        Err(String::from_str("login já existe"))
    } else {
        novo_cadastro(usuarios, nome, login, senha_hash)
    }
}

/// O id do próximo usuário, como em `proximo_id`.
pub open spec fn proximo_id_spec(usuarios: Seq<Usuario>) -> Option<u64> {
    if maior_id(usuarios) < u64::MAX {
        Some((maior_id(usuarios) + 1) as u64)
    } else {
        None
    }
}

/// O desfecho de uma tentativa de entrada, dado o usuário achado pelo login
/// (se algum) e a conferência da sua senha: sem usuário, o erro de usuário
/// não encontrado; com um hash ilegível, a mensagem desse erro; com a senha
/// errada, o erro de senha inválida; senão, o usuário.
pub open spec fn desfecho_do_login(
    encontrado: Option<Usuario>,
    conferencia: Result<bool, Seq<char>>,
) -> Result<Usuario, Seq<char>> {
    match encontrado {
        None => Err("usuário não encontrado."@),
        Some(u) => match conferencia {
            Err(e) => Err(e),
            Ok(false) => Err("Senha inválida"@),
            Ok(true) => Ok(u),
        },
    }
}

/// Um resultado com a mensagem de erro vista como texto.
pub open spec fn com_mensagem<T>(r: Result<T, String>) -> Result<T, Seq<char>> {
    match r {
        Ok(v) => Ok(v),
        Err(e) => Err(e@),
    }
}

/// Conclui uma tentativa de entrada com o usuário achado pelo login (se
/// algum), conferindo a senha contra o hash guardado.
pub fn concluir_login(encontrado: Option<Usuario>, senha: &str) -> (r: Result<Usuario, String>)
    ensures
        com_mensagem(r) == desfecho_do_login(
            encontrado,
            match encontrado {
                Some(u) => conferencia_da_senha(senha@, u.senha_hash@),
                None => Ok(false),
            },
        ),
{
    let usuario = match encontrado {
        Some(u) => u,
        None => {
            return Err(String::from_str("usuário não encontrado."));
        },
    };
    match conferir_senha(senha, usuario.senha_hash.as_str()) {
        Err(e) => Err(e),
        Ok(false) => Err(String::from_str("Senha inválida")),
        Ok(true) => Ok(usuario),
    }
}

/// O serviço de cadastro e entrada de usuários sobre um repositório.
pub struct AuthService<R: RepositorioUsuario> {
    pub repo: R,
}

/// `depois` é a lista `antes` com um usuário novo ao fim: o do próximo id
/// livre, com o nome e o login dados, sem partidas nem conquistas, e com um
/// hash que confere com a senha.
pub open spec fn cadastro_feito(
    antes: Seq<Usuario>,
    depois: Seq<Usuario>,
    nome: String,
    login: String,
    senha: Seq<char>,
) -> bool {
    let u = depois.last();
    &&& depois.len() == antes.len() + 1
    &&& depois.drop_last() == antes
    &&& proximo_id_spec(antes) == Some(u.id)
    &&& usuario_recem_cadastrado(u, u.id, nome, login, u.senha_hash)
    &&& conferencia_da_senha(senha, u.senha_hash@) == Ok::<bool, Seq<char>>(true)
}

impl<R: RepositorioUsuario> AuthService<R> {
    /// Cadastra um usuário novo: recusa um login já existente; senão calcula
    /// o hash da senha com um sal novo, dá ao usuário o próximo id livre e o
    /// salva no repositório. A decisão, tomada sobre o que o repositório
    /// respondeu, é a de `decidir_cadastro`. Num erro, os usuários guardados
    /// não mudam, e o erro é um destes: login em uso, ids esgotados, o erro
    /// do cálculo do hash ou o de `salvar`, como vieram; não há outro motivo
    /// de recusa.
    pub fn registrar(&mut self, nome: String, login: String, senha: String) -> (r: Result<(), String>)
        ensures
            login_em_uso(old(self).repo.usuarios(), login@) ==> (r matches Err(e) && e@
                == "login já existe"@),
            !login_em_uso(old(self).repo.usuarios(), login@) && proximo_id_spec(old(self).repo.usuarios())
                is None ==> r is Err,
            r is Err ==> final(self).repo.usuarios() == old(self).repo.usuarios(),
            r matches Err(e) ==> ({
                let antes = old(self).repo.usuarios();
                ||| login_em_uso(antes, login@) && e@ == "login já existe"@
                ||| !login_em_uso(antes, login@) && proximo_id_spec(antes) is None && e@
                    == "não há mais ids livres"@
                ||| exists|sal: Seq<char>|
                    #[trigger] hash_da_senha(senha@, sal) == Err::<Seq<char>, Seq<char>>(e@)
                ||| old(self).repo.erro_de_salvar(e@)
            }),
            r is Ok ==> !login_em_uso(old(self).repo.usuarios(), login@) && cadastro_feito(
                old(self).repo.usuarios(),
                final(self).repo.usuarios(),
                nome,
                login,
                senha@,
            ),
    {
        let ghost antes = self.repo.usuarios();
        let existente = self.repo.achar_por_login(login.as_str()).is_some();
        if existente {
            return match decidir_cadastro(true, &Vec::new(), nome, login, String::new()) {
                Ok(_) => Ok(()),
                Err(e) => Err(e),
            };
        }
        let sal = gerar_sal();
        let senha_hash = match calcular_hash(senha.as_str(), sal.as_str()) {
            Ok(h) => h,
            Err(e) => {
                assert(hash_da_senha(senha@, sal@) == Err::<Seq<char>, Seq<char>>(e@));
                return Err(e);
            },
        };
        let usuarios = self.repo.listar();
        match decidir_cadastro(false, &usuarios, nome, login, senha_hash) {
            Ok(u) => {
                proof {
                    lei_proximo_id_e_novo(antes);
                    lema_sem_id_novo(antes, u.id);
                    assert(antes.push(u).drop_last() =~= antes);
                }
                self.repo.salvar(u)
            },
            Err(e) => Err(e),
        }
    }

    /// Entra com login e senha: devolve o usuário guardado com esse login se
    /// a senha confere com o hash guardado; o desfecho é o de
    /// `concluir_login` sobre o usuário achado, e só depende da conferência
    /// da senha, não de mais nada do usuário.
    pub fn login(&self, login: &str, senha: &str) -> (r: Result<Usuario, String>)
        ensures
            !login_em_uso(self.repo.usuarios(), login@) ==> (r matches Err(e) && e@
                == "usuário não encontrado."@),
            r matches Ok(u) ==> u.login@ == login@ && self.repo.usuarios().contains(u)
                && conferencia_da_senha(senha@, u.senha_hash@) == Ok::<bool, Seq<char>>(true),
            login_em_uso(self.repo.usuarios(), login@) ==> exists|u: Usuario|
                #[trigger] self.repo.usuarios().contains(u) && u.login@ == login@ && com_mensagem(r)
                    == desfecho_do_login(Some(u), conferencia_da_senha(senha@, u.senha_hash@)),
    {
        let usuario = self.repo.achar_por_login(login);
        let ghost achado = usuario;
        let r = concluir_login(usuario, senha);
        proof {
            if achado is Some {
                assert(self.repo.usuarios().contains(achado->0));
            }
        }
        r
    }
}

/// Tirar um id que ninguém usa não muda a lista.
pub proof fn lema_sem_id_novo(usuarios: Seq<Usuario>, id: u64)
    requires
        forall|i: int| 0 <= i < usuarios.len() ==> (#[trigger] usuarios[i]).id != id,
    ensures
        sem_o_id(usuarios, id) == usuarios,
    decreases usuarios.len(),
{
    if usuarios.len() > 0 {
        let r = usuarios.drop_last();
        assert forall|i: int| 0 <= i < r.len() implies (#[trigger] r[i]).id != id by {
            assert(r[i] == usuarios[i]);
        }
        lema_sem_id_novo(r, id);
        assert(usuarios.last() == usuarios[usuarios.len() - 1]);
        assert(r.push(usuarios.last()) =~= usuarios);
    }
}

/// O maior id não é menor que o id de nenhum usuário.
pub proof fn lema_maior_id(usuarios: Seq<Usuario>)
    ensures
        forall|i: int| 0 <= i < usuarios.len() ==> (#[trigger] usuarios[i]).id <= maior_id(usuarios),
    decreases usuarios.len(),
{
    if usuarios.len() > 0 {
        let r = usuarios.drop_last();
        lema_maior_id(r);
        assert forall|i: int| 0 <= i < usuarios.len() implies (#[trigger] usuarios[i]).id <= maior_id(usuarios) by {
            if i < r.len() {
                assert(usuarios[i] == r[i]);
            }
        }
    }
}

/// O id dado a um usuário novo não é o de nenhum usuário já guardado.
pub proof fn lei_proximo_id_e_novo(usuarios: Seq<Usuario>)
    ensures
        proximo_id_spec(usuarios) matches Some(id) ==> forall|i: int|
            0 <= i < usuarios.len() ==> (#[trigger] usuarios[i]).id < id,
{
    lema_maior_id(usuarios);
}

/// Quem se cadastrou entra com a mesma senha: depois de um cadastro feito
/// com um login que não estava em uso, o único usuário guardado com esse
/// login é o recém-cadastrado, e a entrada com a senha do cadastro o aceita,
/// com o nome e o login do cadastro.
pub proof fn lei_cadastro_e_entrada(
    antes: Seq<Usuario>,
    depois: Seq<Usuario>,
    nome: String,
    login: String,
    senha: Seq<char>,
    encontrado: Usuario,
)
    requires
        !login_em_uso(antes, login@),
        cadastro_feito(antes, depois, nome, login, senha),
        depois.contains(encontrado),
        encontrado.login@ == login@,
    ensures
        encontrado == depois.last(),
        desfecho_do_login(Some(encontrado), conferencia_da_senha(senha, encontrado.senha_hash@))
            == Ok::<Usuario, Seq<char>>(encontrado),
        encontrado.nome == nome,
        encontrado.login == login,
{
    let i = choose|i: int| 0 <= i < depois.len() && depois[i] == encontrado;
    if i < antes.len() {
        assert(depois[i] == antes[i]);
        assert(login_em_uso(antes, login@));
    }
}

} // verus!

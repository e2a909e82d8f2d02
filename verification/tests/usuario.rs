use batalha_naval::usuario::{
    concluir_login, decidir_cadastro, novo_cadastro, proximo_id, AuthService, Conquista, RepositorioUsuario, Usuario,
};

/// Um repositório em memória.
#[derive(Default)]
struct Memoria {
    usuarios: Vec<Usuario>,
}

fn copia(u: &Usuario) -> Usuario {
    Usuario {
        id: u.id,
        nome: u.nome.clone(),
        login: u.login.clone(),
        senha_hash: u.senha_hash.clone(),
        jogos_totais: u.jogos_totais,
        vitorias: u.vitorias,
        derrotas: u.derrotas,
        conquistas: u.conquistas.clone(),
    }
}

impl RepositorioUsuario for Memoria {
    fn salvar(&mut self, usuario: Usuario) -> Result<(), String> {
        self.usuarios.retain(|u| u.id != usuario.id);
        self.usuarios.push(usuario);
        Ok(())
    }

    fn achar_por_login(&self, login: &str) -> Option<Usuario> {
        self.usuarios.iter().find(|u| u.login == login).map(copia)
    }

    fn achar_por_id(&self, id: u64) -> Option<Usuario> {
        self.usuarios.iter().find(|u| u.id == id).map(copia)
    }

    fn listar(&self) -> Vec<Usuario> {
        self.usuarios.iter().map(copia).collect()
    }
}

fn usuario(id: u64, login: &str) -> Usuario {
    Usuario::novo_usuario(id, "Nome".to_string(), login.to_string(), "hash".to_string())
}

#[test]
fn usuario_novo_sem_estatisticas() {
    let u = usuario(7, "ana");
    assert_eq!(u.id, 7);
    assert_eq!(u.login, "ana");
    assert_eq!(u.jogos_totais, 0);
    assert_eq!(u.vitorias, 0);
    assert_eq!(u.derrotas, 0);
    assert!(u.conquistas.is_empty());
}

#[test]
fn proximo_id_depois_do_maior() {
    assert_eq!(proximo_id(&vec![]), Some(1));
    assert_eq!(proximo_id(&vec![usuario(3, "a"), usuario(9, "b"), usuario(4, "c")]), Some(10));
    assert_eq!(proximo_id(&vec![usuario(u64::MAX, "a")]), None);
}

#[test]
fn novo_cadastro_usa_proximo_id() {
    let u = novo_cadastro(&vec![usuario(2, "a")], "Bia".to_string(), "bia".to_string(), "h".to_string()).unwrap();
    assert_eq!(u.id, 3);
    assert_eq!(u.nome, "Bia");
    assert_eq!(u.login, "bia");
    assert_eq!(u.senha_hash, "h");
    let e = novo_cadastro(&vec![usuario(u64::MAX, "a")], "X".to_string(), "x".to_string(), "h".to_string());
    assert_eq!(e.unwrap_err(), "não há mais ids livres");
}

#[test]
fn cadastro_e_entrada() {
    let mut servico = AuthService { repo: Memoria::default() };
    assert_eq!(servico.registrar("Ana".to_string(), "ana".to_string(), "segredo".to_string()), Ok(()));
    assert_eq!(servico.repo.usuarios.len(), 1);
    let guardado = &servico.repo.usuarios[0];
    assert_eq!(guardado.id, 1);
    assert_ne!(guardado.senha_hash, "segredo");
    assert!(guardado.senha_hash.starts_with("$argon2id$"));

    let u = servico.login("ana", "segredo").unwrap();
    assert_eq!(u.login, "ana");
    assert_eq!(servico.login("ana", "errada").unwrap_err(), "Senha inválida");
    assert_eq!(servico.login("bia", "segredo").unwrap_err(), "usuário não encontrado.");

    assert_eq!(
        servico.registrar("Outra".to_string(), "ana".to_string(), "x".to_string()),
        Err("login já existe".to_string())
    );
    assert_eq!(servico.repo.usuarios.len(), 1);
    assert_eq!(servico.registrar("Bia".to_string(), "bia".to_string(), "outra".to_string()), Ok(()));
    assert_eq!(servico.repo.usuarios[1].id, 2);
    assert!(servico.login("bia", "outra").is_ok());
}

#[test]
fn entrada_com_hash_ilegivel() {
    let mut u = usuario(1, "ana");
    u.senha_hash = "não é um hash".to_string();
    let erro = concluir_login(Some(u), "qualquer").unwrap_err();
    assert_ne!(erro, "Senha inválida");
    assert!(!erro.is_empty());
    assert_eq!(concluir_login(None, "x").unwrap_err(), "usuário não encontrado.");
}

#[test]
fn conquistas_copiam() {
    let c = Conquista::Capitao;
    let d = c;
    assert_eq!(c, d);
}

#[test]
fn decidir_cadastro_recusa_login_existente() {
    let usuarios = vec![usuario(4, "a")];
    let e = decidir_cadastro(true, &usuarios, "Ana".to_string(), "ana".to_string(), "h".to_string());
    assert_eq!(e.unwrap_err(), "login já existe");
    let u = decidir_cadastro(false, &usuarios, "Ana".to_string(), "ana".to_string(), "h".to_string()).unwrap();
    assert_eq!(u.id, 5);
    assert_eq!(u.nome, "Ana");
    assert_eq!(u.login, "ana");
    assert_eq!(u.senha_hash, "h");
    let cheio = vec![usuario(u64::MAX, "a")];
    let e = decidir_cadastro(false, &cheio, "Ana".to_string(), "ana".to_string(), "h".to_string());
    assert_eq!(e.unwrap_err(), "não há mais ids livres");
}

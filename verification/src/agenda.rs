//! The agenda: contacts and appointments, each kind under identifiers of its own.
//!
//! Every request that stores something is held against the rules for its fields
//! first. A request that breaks one of them is refused and changes nothing.
//!
//! The contracts say which requests are refused by [`erro_contato`] and
//! [`erro_compromisso`], which rest on the recursive definitions of
//! [`crate::validacao`]: a proof about a date or a time that is written out calls
//! the laws of that module for texts of the usual form, or gives the definitions
//! fuel, as that module says.

use vstd::prelude::*;
use crate::erro::Erro;
use crate::repositorio::{Repositorio, RepositorioView};
use crate::tipos::{Categoria, Compromisso, Contato, Prioridade};
use crate::validacao::{data_valida, hora_valida, validar_data, validar_hora};

verus! {

/// The first rule that the fields of a contact break, if they break one: the name
/// and the phone may not be empty, and the birthday must be a date.
pub open spec fn erro_contato(nome: Seq<char>, telefone: Seq<char>, data: Seq<char>) -> Option<
    Erro,
> {
    if nome.len() == 0 {
        Some(Erro::NomeVazio)
    } else if telefone.len() == 0 {
        Some(Erro::TelefoneVazio)
    } else if !data_valida(data) {
        Some(Erro::DataAniversarioInvalida)
    } else {
        None
    }
}

/// The first rule that the fields of an appointment break, if they break one: the
/// title may not be empty, the date must be a date and the time a time of day.
pub open spec fn erro_compromisso(titulo: Seq<char>, data: Seq<char>, hora: Seq<char>) -> Option<
    Erro,
> {
    if titulo.len() == 0 {
        Some(Erro::TituloVazio)
    } else if !data_valida(data) {
        Some(Erro::DataInvalida)
    } else if !hora_valida(hora) {
        Some(Erro::HoraInvalida)
    } else {
        None
    }
}

/// Whether `r` is the refusal for the reason `e`, with the message of `e`.
pub open spec fn recusa<T>(r: Result<T, String>, e: Erro) -> bool {
    r matches Err(m) && m@ == e.texto()
}

/// Holds the fields of a contact against their rules.
pub fn validar_contato(nome: &str, telefone: &str, data_aniversario: &str) -> (r: Result<
    (),
    Erro,
>)
    ensures
        r == match erro_contato(nome@, telefone@, data_aniversario@) {
            Some(e) => Err::<(), Erro>(e),
            None => Ok::<(), Erro>(()),
        },
{
    if nome.is_empty() {
        Err(Erro::NomeVazio)
    } else if telefone.is_empty() {
        Err(Erro::TelefoneVazio)
    } else if !validar_data(data_aniversario) {
        Err(Erro::DataAniversarioInvalida)
    } else {
        Ok(())
    }
}

/// Holds the fields of an appointment against their rules.
pub fn validar_compromisso(titulo: &str, data: &str, hora: &str) -> (r: Result<(), Erro>)
    ensures
        r == match erro_compromisso(titulo@, data@, hora@) {
            Some(e) => Err::<(), Erro>(e),
            None => Ok::<(), Erro>(()),
        },
{
    if titulo.is_empty() {
        Err(Erro::TituloVazio)
    } else if !validar_data(data) {
        Err(Erro::DataInvalida)
    } else if !validar_hora(hora) {
        Err(Erro::HoraInvalida)
    } else {
        Ok(())
    }
}

/// What an agenda holds: the contacts and the appointments, each with the counter
/// of its identifiers.
#[verifier::ext_equal]
pub struct AgendaView {
    pub contatos: RepositorioView<Contato>,
    pub compromissos: RepositorioView<Compromisso>,
}

/// A request that may change what the agenda holds.
pub enum Operacao {
    CriarContato(Contato),
    AtualizarContato(u32, Contato),
    DeletarContato(u32),
    CriarCompromisso(Compromisso),
    AtualizarCompromisso(u32, Compromisso),
    DeletarCompromisso(u32),
}

impl AgendaView {
    /// The agenda before anything was stored.
    pub open spec fn nova() -> Self {
        AgendaView { contatos: RepositorioView::vazio(), compromissos: RepositorioView::vazio() }
    }

    /// The agenda after the request `op`. A record that breaks the rules for its
    /// fields is neither stored nor put in the place of another; an update or a
    /// deletion of a record that does not exist changes nothing; and a request on
    /// one kind of record leaves the other kind as it was.
    pub open spec fn apos(self, op: Operacao) -> Self {
        match op {
            Operacao::CriarContato(c) => if c.valido() {
                AgendaView { contatos: self.contatos.com_novo(c), compromissos: self.compromissos }
            } else {
                self
            },
            Operacao::AtualizarContato(id, c) => if c.valido() {
                AgendaView {
                    contatos: self.contatos.com_troca(id, c),
                    compromissos: self.compromissos,
                }
            } else {
                self
            },
            Operacao::DeletarContato(id) => AgendaView {
                contatos: self.contatos.sem(id),
                compromissos: self.compromissos,
            },
            Operacao::CriarCompromisso(c) => if c.valido() {
                AgendaView { contatos: self.contatos, compromissos: self.compromissos.com_novo(c) }
            } else {
                self
            },
            Operacao::AtualizarCompromisso(id, c) => if c.valido() {
                AgendaView {
                    contatos: self.contatos,
                    compromissos: self.compromissos.com_troca(id, c),
                }
            } else {
                self
            },
            Operacao::DeletarCompromisso(id) => AgendaView {
                contatos: self.contatos,
                compromissos: self.compromissos.sem(id),
            },
        }
    }

    /// Every identifier in use lies below the counter of its kind, and every record
    /// in store keeps the rules for its fields.
    pub open spec fn valida(self) -> bool {
        &&& self.contatos.valido()
        &&& self.compromissos.valido()
        &&& forall|id: u32| #[trigger]
            self.contatos.itens.contains_key(id) ==> self.contatos.itens[id].valido()
        &&& forall|id: u32| #[trigger]
            self.compromissos.itens.contains_key(id) ==> self.compromissos.itens[id].valido()
    }
}

/// An agenda of contacts and appointments.
pub struct Agenda {
    contatos: Repositorio<Contato>,
    compromissos: Repositorio<Compromisso>,
}

impl View for Agenda {
    type V = AgendaView;

    closed spec fn view(&self) -> AgendaView {
        AgendaView { contatos: self.contatos@, compromissos: self.compromissos@ }
    }
}

impl Default for Agenda {
    /// An empty agenda, as [`Agenda::new`] gives it.
    fn default() -> (r: Self)
        ensures
            r@ == AgendaView::nova(),
            r@.valida(),
    {
        Agenda::new()
    }
}

impl Agenda {
    /// An empty agenda. The first contact and the first appointment will each get
    /// the identifier 0.
    pub fn new() -> (r: Self)
        ensures
            r@ == AgendaView::nova(),
            r@.valida(),
    {
        Agenda { contatos: Repositorio::novo(), compromissos: Repositorio::novo() }
    }

    /// An empty agenda, as [`Agenda::new`] gives it.
    pub fn default() -> (r: Self)
        ensures
            r@ == AgendaView::nova(),
            r@.valida(),
    {
        Agenda::new()
    }

    /// The identifier that the next new contact will get.
    pub fn proximo_id_contato(&self) -> (r: u32)
        ensures
            r == self@.contatos.proximo,
    {
        self.contatos.proximo_id()
    }

    /// The identifier that the next new appointment will get.
    pub fn proximo_id_compromisso(&self) -> (r: u32)
        ensures
            r == self@.compromissos.proximo,
    {
        self.compromissos.proximo_id()
    }

    /// Stores a new contact and gives back its identifier.
    ///
    /// The request is refused, and nothing changes, if the name is empty, if the
    /// phone is empty or if the birthday is no date, in this order. Otherwise the
    /// contact is stored under the next identifier of the contacts.
    ///
    /// An identifier is never handed out twice: a contact that keeps the rules may
    /// only be added while the counter of the contacts is below its last value.
    pub fn criar_contato(
        &mut self,
        nome: String,
        telefone: String,
        idade: u32,
        data_aniversario: String,
        categoria: Categoria,
    ) -> (r: Result<u32, String>)
        requires
            erro_contato(nome@, telefone@, data_aniversario@) is None ==> old(
                self,
            )@.contatos.proximo < u32::MAX,
        ensures
            match erro_contato(nome@, telefone@, data_aniversario@) {
                Some(e) => recusa(r, e) && final(self)@ == old(self)@,
                None => {
                    &&& r == Ok::<u32, String>(old(self)@.contatos.proximo)
                    &&& final(self)@.contatos == old(self)@.contatos.com_novo(
                        (Contato { nome, telefone, idade, data_aniversario, categoria }),
                    )
                    &&& final(self)@.compromissos == old(self)@.compromissos
                },
            },
            final(self)@ == old(self)@.apos(
                Operacao::CriarContato(
                    (Contato { nome, telefone, idade, data_aniversario, categoria }),
                ),
            ),
            old(self)@.valida() ==> final(self)@.valida(),
    {
        match validar_contato(nome.as_str(), telefone.as_str(), data_aniversario.as_str()) {
            Err(e) => Err(e.mensagem()),
            Ok(_) => {
                let contato = Contato { nome, telefone, idade, data_aniversario, categoria };
                Ok(self.contatos.criar(contato))
            },
        }
    }

    /// The contact `id`, if there is one.
    pub fn ler_contato(&self, id: u32) -> (r: Option<Contato>)
        ensures
            r == if self@.contatos.itens.contains_key(id) {
                Some(self@.contatos.itens[id])
            } else {
                None
            },
    {
        match self.contatos.ler(id) {
            Some(contato) => Some(contato.clone()),
            None => None,
        }
    }

    /// Puts new fields in the place of those of the contact `id`.
    ///
    /// The fields are held against the rules as for a new contact; if they break
    /// one, the request is refused with that reason, whether or not there is a
    /// contact `id`. If they keep the rules and there is no contact `id`, the
    /// request is refused too, and no contact is made. A refused request changes
    /// nothing. Otherwise all fields are replaced, the identifier stays, and the
    /// answer is `Ok(true)`.
    pub fn atualizar_contato(
        &mut self,
        id: u32,
        nome: String,
        telefone: String,
        idade: u32,
        data_aniversario: String,
        categoria: Categoria,
    ) -> (r: Result<bool, String>)
        ensures
            match erro_contato(nome@, telefone@, data_aniversario@) {
                Some(e) => recusa(r, e) && final(self)@ == old(self)@,
                None => if old(self)@.contatos.itens.contains_key(id) {
                    &&& r == Ok::<bool, String>(true)
                    &&& final(self)@.contatos == old(self)@.contatos.com_troca(
                        id,
                        (Contato { nome, telefone, idade, data_aniversario, categoria }),
                    )
                    &&& final(self)@.compromissos == old(self)@.compromissos
                } else {
                    recusa(r, Erro::ContatoNaoEncontrado) && final(self)@ == old(self)@
                },
            },
            final(self)@ == old(self)@.apos(
                Operacao::AtualizarContato(
                    id,
                    (Contato { nome, telefone, idade, data_aniversario, categoria }),
                ),
            ),
            old(self)@.valida() ==> final(self)@.valida(),
    {
        match validar_contato(nome.as_str(), telefone.as_str(), data_aniversario.as_str()) {
            Err(e) => Err(e.mensagem()),
            Ok(_) => {
                let contato = Contato { nome, telefone, idade, data_aniversario, categoria };
                if self.contatos.atualizar(id, contato) {
                    Ok(true)
                } else {
                    Err(Erro::ContatoNaoEncontrado.mensagem())
                }
            },
        }
    }

    /// Deletes the contact `id` and says whether there was one. Its identifier is
    /// not used again.
    pub fn deletar_contato(&mut self, id: u32) -> (r: bool)
        ensures
            r == old(self)@.contatos.itens.contains_key(id),
            final(self)@.contatos == old(self)@.contatos.sem(id),
            final(self)@.compromissos == old(self)@.compromissos,
            final(self)@ == old(self)@.apos(
                Operacao::DeletarContato(id),
            ),
            old(self)@.valida() ==> final(self)@.valida(),
    {
        self.contatos.deletar(id)
    }

    /// The contacts, in ascending order of their identifiers.
    pub fn listar_contatos(&self) -> (r: Vec<Contato>)
        ensures
            r@ == self@.contatos.listagem(),
    {
        let itens = self.contatos.listar();
        let mut r: Vec<Contato> = Vec::new();
        let mut i: usize = 0;
        while i < itens.len()
            invariant
                i <= itens@.len(),
                r@.len() == i,
                forall|k: int| 0 <= k < i ==> r@[k] == *itens@[k],
            decreases itens@.len() - i,
        {
            r.push(itens[i].clone());
            i += 1;
        }
        r
    }

    /// Stores a new appointment and gives back its identifier.
    ///
    /// The request is refused, and nothing changes, if the title is empty, if the
    /// date is no date or if the time is no time of day, in this order. Otherwise
    /// the appointment is stored under the next identifier of the appointments.
    ///
    /// An identifier is never handed out twice: an appointment that keeps the rules
    /// may only be added while the counter of the appointments is below its last
    /// value.
    pub fn criar_compromisso(
        &mut self,
        titulo: String,
        data: String,
        hora: String,
        prioridade: Prioridade,
        duracao: i32,
    ) -> (r: Result<u32, String>)
        requires
            erro_compromisso(titulo@, data@, hora@) is None ==> old(self)@.compromissos.proximo
                < u32::MAX,
        ensures
            match erro_compromisso(titulo@, data@, hora@) {
                Some(e) => recusa(r, e) && final(self)@ == old(self)@,
                None => {
                    &&& r == Ok::<u32, String>(old(self)@.compromissos.proximo)
                    &&& final(self)@.compromissos == old(self)@.compromissos.com_novo(
                        (Compromisso { titulo, data, hora, prioridade, duracao }),
                    )
                    &&& final(self)@.contatos == old(self)@.contatos
                },
            },
            final(self)@ == old(self)@.apos(
                Operacao::CriarCompromisso(
                    (Compromisso { titulo, data, hora, prioridade, duracao }),
                ),
            ),
            old(self)@.valida() ==> final(self)@.valida(),
    {
        match validar_compromisso(titulo.as_str(), data.as_str(), hora.as_str()) {
            Err(e) => Err(e.mensagem()),
            Ok(_) => {
                let compromisso = Compromisso { titulo, data, hora, prioridade, duracao };
                Ok(self.compromissos.criar(compromisso))
            },
        }
    }

    /// The appointment `id`, if there is one.
    pub fn ler_compromisso(&self, id: u32) -> (r: Option<Compromisso>)
        ensures
            r == if self@.compromissos.itens.contains_key(id) {
                Some(self@.compromissos.itens[id])
            } else {
                None
            },
    {
        match self.compromissos.ler(id) {
            Some(compromisso) => Some(compromisso.clone()),
            None => None,
        }
    }

    /// Puts new fields in the place of those of the appointment `id`.
    ///
    /// The fields are held against the rules as for a new appointment; if they
    /// break one, the request is refused with that reason, whether or not there is
    /// an appointment `id`. If they keep the rules and there is no appointment
    /// `id`, the request is refused too, and no appointment is made. A refused
    /// request changes nothing. Otherwise all fields are replaced, the identifier
    /// stays, and the answer is `Ok(true)`.
    pub fn atualizar_compromisso(
        &mut self,
        id: u32,
        titulo: String,
        data: String,
        hora: String,
        prioridade: Prioridade,
        duracao: i32,
    ) -> (r: Result<bool, String>)
        ensures
            match erro_compromisso(titulo@, data@, hora@) {
                Some(e) => recusa(r, e) && final(self)@ == old(self)@,
                None => if old(self)@.compromissos.itens.contains_key(id) {
                    &&& r == Ok::<bool, String>(true)
                    &&& final(self)@.compromissos == old(self)@.compromissos.com_troca(
                        id,
                        (Compromisso { titulo, data, hora, prioridade, duracao }),
                    )
                    &&& final(self)@.contatos == old(self)@.contatos
                } else {
                    recusa(r, Erro::CompromissoNaoEncontrado) && final(self)@ == old(self)@
                },
            },
            final(self)@ == old(self)@.apos(
                Operacao::AtualizarCompromisso(
                    id,
                    (Compromisso { titulo, data, hora, prioridade, duracao }),
                ),
            ),
            old(self)@.valida() ==> final(self)@.valida(),
    {
        match validar_compromisso(titulo.as_str(), data.as_str(), hora.as_str()) {
            Err(e) => Err(e.mensagem()),
            Ok(_) => {
                let compromisso = Compromisso { titulo, data, hora, prioridade, duracao };
                if self.compromissos.atualizar(id, compromisso) {
                    Ok(true)
                } else {
                    Err(Erro::CompromissoNaoEncontrado.mensagem())
                }
            },
        }
    }

    /// Deletes the appointment `id` and says whether there was one. Its identifier
    /// is not used again.
    pub fn deletar_compromisso(&mut self, id: u32) -> (r: bool)
        ensures
            r == old(self)@.compromissos.itens.contains_key(id),
            final(self)@.compromissos == old(self)@.compromissos.sem(id),
            final(self)@.contatos == old(self)@.contatos,
            final(self)@ == old(self)@.apos(
                Operacao::DeletarCompromisso(id),
            ),
            old(self)@.valida() ==> final(self)@.valida(),
    {
        self.compromissos.deletar(id)
    }

    /// The appointments, in ascending order of their identifiers.
    pub fn listar_compromissos(&self) -> (r: Vec<Compromisso>)
        ensures
            r@ == self@.compromissos.listagem(),
    {
        let itens = self.compromissos.listar();
        let mut r: Vec<Compromisso> = Vec::new();
        let mut i: usize = 0;
        while i < itens.len()
            invariant
                i <= itens@.len(),
                r@.len() == i,
                forall|k: int| 0 <= k < i ==> r@[k] == *itens@[k],
            decreases itens@.len() - i,
        {
            r.push(itens[i].clone());
            i += 1;
        }
        r
    }
}

} // verus!

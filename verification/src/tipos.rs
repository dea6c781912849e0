//! The records that the agenda keeps: contacts and appointments.

use vstd::prelude::*;
use vstd::std_specs::cmp::PartialEqSpecImpl;
use crate::validacao::{data_valida, hora_valida};

verus! {

/// What a contact is to the owner of the agenda.
#[derive(Clone, Copy, Debug, PartialEq, Eq, Structural)]
pub enum Categoria {
    Amigo,
    Familiar,
    Colega,
}

impl Default for Categoria {
    /// A contact is a colleague unless told otherwise.
    fn default() -> (r: Self)
        ensures
            r == Categoria::Colega,
    {
        Categoria::Colega
    }
}

/// How much an appointment matters.
#[derive(Clone, Copy, Debug, PartialEq, Eq, Structural)]
pub enum Prioridade {
    Alta,
    Media,
    Baixa,
}

impl Default for Prioridade {
    /// An appointment has low priority unless told otherwise.
    fn default() -> (r: Self)
        ensures
            r == Prioridade::Baixa,
    {
        Prioridade::Baixa
    }
}

/// A contact of the agenda.
#[derive(Debug)]
pub struct Contato {
    pub nome: String,
    pub telefone: String,
    pub idade: u32,
    /// The birthday, as `dd/mm/aaaa`.
    pub data_aniversario: String,
    pub categoria: Categoria,
}

/// What a contact holds, its texts taken as sequences of characters.
#[verifier::ext_equal]
pub struct ContatoView {
    pub nome: Seq<char>,
    pub telefone: Seq<char>,
    pub idade: u32,
    pub data_aniversario: Seq<char>,
    pub categoria: Categoria,
}

impl View for Contato {
    type V = ContatoView;

    open spec fn view(&self) -> ContatoView {
        ContatoView {
            nome: self.nome@,
            telefone: self.telefone@,
            idade: self.idade,
            data_aniversario: self.data_aniversario@,
            categoria: self.categoria,
        }
    }
}

impl Contato {
    /// Whether the contact may stand in the agenda: it has a name and a phone, and
    /// its birthday is a date.
    pub open spec fn valido(&self) -> bool {
        &&& self.nome@.len() > 0
        &&& self.telefone@.len() > 0
        &&& data_valida(self.data_aniversario@)
    }
}

impl Clone for Contato {
    fn clone(&self) -> (r: Self)
        ensures
            r == *self,
    {
        Contato {
            nome: self.nome.clone(),
            telefone: self.telefone.clone(),
            idade: self.idade,
            data_aniversario: self.data_aniversario.clone(),
            categoria: self.categoria,
        }
    }
}

impl PartialEq for Contato {
    fn eq(&self, other: &Self) -> (r: bool) {
        self.nome == other.nome && self.telefone == other.telefone && self.idade == other.idade
            && self.data_aniversario == other.data_aniversario && self.categoria
            == other.categoria
    }
}

impl PartialEqSpecImpl for Contato {
    open spec fn obeys_eq_spec() -> bool {
        true
    }

    /// Two contacts are equal when they hold the same texts, age and category.
    open spec fn eq_spec(&self, other: &Self) -> bool {
        self@ == other@
    }
}

/// An appointment of the agenda.
#[derive(Debug)]
pub struct Compromisso {
    pub titulo: String,
    /// The day, as `dd/mm/aaaa`.
    pub data: String,
    /// The time of day, as `hh:mm`.
    pub hora: String,
    pub prioridade: Prioridade,
    /// How long it takes. No unit and no range is asked of it.
    pub duracao: i32,
}

/// What an appointment holds, its texts taken as sequences of characters.
#[verifier::ext_equal]
pub struct CompromissoView {
    pub titulo: Seq<char>,
    pub data: Seq<char>,
    pub hora: Seq<char>,
    pub prioridade: Prioridade,
    pub duracao: i32,
}

impl View for Compromisso {
    type V = CompromissoView;

    open spec fn view(&self) -> CompromissoView {
        CompromissoView {
            titulo: self.titulo@,
            data: self.data@,
            hora: self.hora@,
            prioridade: self.prioridade,
            duracao: self.duracao,
        }
    }
}

impl Compromisso {
    /// Whether the appointment may stand in the agenda: it has a title, its date is
    /// a date and its time is a time of day.
    pub open spec fn valido(&self) -> bool {
        &&& self.titulo@.len() > 0
        &&& data_valida(self.data@)
        &&& hora_valida(self.hora@)
    }
}

impl Clone for Compromisso {
    fn clone(&self) -> (r: Self)
        ensures
            r == *self,
    {
        Compromisso {
            titulo: self.titulo.clone(),
            data: self.data.clone(),
            hora: self.hora.clone(),
            prioridade: self.prioridade,
            duracao: self.duracao,
        }
    }
}

impl PartialEq for Compromisso {
    fn eq(&self, other: &Self) -> (r: bool) {
        self.titulo == other.titulo && self.data == other.data && self.hora == other.hora
            && self.prioridade == other.prioridade && self.duracao == other.duracao
    }
}

impl PartialEqSpecImpl for Compromisso {
    open spec fn obeys_eq_spec() -> bool {
        true
    }

    /// Two appointments are equal when they hold the same texts, priority and
    /// duration.
    open spec fn eq_spec(&self, other: &Self) -> bool {
        self@ == other@
    }
}

} // verus!

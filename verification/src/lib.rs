//! A personal agenda: contacts and appointments kept under numeric identifiers.
//!
//! [`Agenda`] stores, reads, updates, deletes and lists the records of both kinds.
//! Every text that it stores was held against the rules of [`validacao`] first,
//! and every identifier comes from the counter of a [`Repositorio`], which hands
//! none out twice. What a request does is stated in its contract, over the
//! [`AgendaView`] of the agenda before and after it; what holds of every sequence
//! of requests is proved in [`leis`].

pub mod agenda;
pub mod erro;
pub mod leis;
pub mod repositorio;
pub mod tipos;
pub mod validacao;

pub use crate::agenda::{validar_compromisso, validar_contato, Agenda, AgendaView, Operacao};
pub use crate::erro::Erro;
pub use crate::repositorio::{Repositorio, RepositorioView};
pub use crate::tipos::{Categoria, Compromisso, Contato, Prioridade};
pub use crate::validacao::{validar_data, validar_hora};

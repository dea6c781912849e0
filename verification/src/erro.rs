//! The reasons for which the agenda refuses a request.

use vstd::prelude::*;

verus! {

/// Why a request was refused. A required text may be empty, a date or a time may be
/// malformed, or the record to update may not exist.
#[derive(Clone, Copy, Debug, PartialEq, Eq, Structural)]
pub enum Erro {
    /// The name of a contact is empty.
    NomeVazio,
    /// The phone of a contact is empty.
    TelefoneVazio,
    /// The title of an appointment is empty.
    TituloVazio,
    /// The birthday of a contact is no date.
    DataAniversarioInvalida,
    /// The date of an appointment is no date.
    DataInvalida,
    /// The time of an appointment is no time of day.
    HoraInvalida,
    /// No contact has the identifier given to an update.
    ContatoNaoEncontrado,
    /// No appointment has the identifier given to an update.
    CompromissoNaoEncontrado,
}

impl Erro {
    /// The text that tells the user of this error.
    pub open spec fn texto(self) -> Seq<char> {
        match self {
            Erro::NomeVazio => "Nome não pode estar vazio"@,
            Erro::TelefoneVazio => "Telefone não pode estar vazio"@,
            Erro::TituloVazio => "Título não pode estar vazio"@,
            Erro::DataAniversarioInvalida => {
                "Data de aniversário inválida. O formato deve ser dd/mm/aaaa."@
            },
            Erro::DataInvalida => "Data inválida. O formato deve ser dd/mm/aaaa."@,
            Erro::HoraInvalida => "Hora inválida. O formato deve ser hh:mm."@,
            Erro::ContatoNaoEncontrado => "Contato não encontrado"@,
            Erro::CompromissoNaoEncontrado => "Compromisso não encontrado"@,
        }
    }

    /// The message for the user.
    pub fn mensagem(self) -> (s: String)
        ensures
            s@ == self.texto(),
    {
        match self {
            Erro::NomeVazio => "Nome não pode estar vazio".to_string(),
            Erro::TelefoneVazio => "Telefone não pode estar vazio".to_string(),
            Erro::TituloVazio => "Título não pode estar vazio".to_string(),
            Erro::DataAniversarioInvalida => {
                "Data de aniversário inválida. O formato deve ser dd/mm/aaaa.".to_string()
            },
            Erro::DataInvalida => "Data inválida. O formato deve ser dd/mm/aaaa.".to_string(),
            Erro::HoraInvalida => "Hora inválida. O formato deve ser hh:mm.".to_string(),
            Erro::ContatoNaoEncontrado => "Contato não encontrado".to_string(),
            Erro::CompromissoNaoEncontrado => "Compromisso não encontrado".to_string(),
        }
    }
}

} // verus!

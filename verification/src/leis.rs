//! What holds of every agenda, whatever was asked of it: the laws that follow from
//! the contracts of the single requests.

use vstd::prelude::*;
use crate::agenda::{AgendaView, Operacao};
use crate::repositorio::{lema_ids_abaixo, RepositorioView};
use crate::tipos::{Compromisso, Contato};

verus! {

/// Whether the request `op` stores a new contact.
pub open spec fn cria_contato(op: Operacao) -> bool {
    match op {
        Operacao::CriarContato(c) => c.valido(),
        _ => false,
    }
}

/// Whether the request `op` stores a new appointment.
pub open spec fn cria_compromisso(op: Operacao) -> bool {
    match op {
        Operacao::CriarCompromisso(c) => c.valido(),
        _ => false,
    }
}

/// The agenda `v` after the requests `ops`, one after the other.
pub open spec fn apos_todas(v: AgendaView, ops: Seq<Operacao>) -> AgendaView
    decreases ops.len(),
{
    if ops.len() == 0 {
        v
    } else {
        apos_todas(v, ops.drop_last()).apos(ops.last())
    }
}

/// The identifiers that the contacts stored by the requests `ops` were given, in
/// the order of the requests, when `v` is the agenda before them.
pub open spec fn ids_de_contatos_criados(v: AgendaView, ops: Seq<Operacao>) -> Seq<u32>
    decreases ops.len(),
{
    if ops.len() == 0 {
        Seq::<u32>::empty()
    } else {
        let antes = ids_de_contatos_criados(v, ops.drop_last());
        if cria_contato(ops.last()) {
            antes.push(apos_todas(v, ops.drop_last()).contatos.proximo)
        } else {
            antes
        }
    }
}

/// The identifiers that the appointments stored by the requests `ops` were given,
/// in the order of the requests, when `v` is the agenda before them.
pub open spec fn ids_de_compromissos_criados(v: AgendaView, ops: Seq<Operacao>) -> Seq<u32>
    decreases ops.len(),
{
    if ops.len() == 0 {
        Seq::<u32>::empty()
    } else {
        let antes = ids_de_compromissos_criados(v, ops.drop_last());
        if cria_compromisso(ops.last()) {
            antes.push(apos_todas(v, ops.drop_last()).compromissos.proximo)
        } else {
            antes
        }
    }
}

/// Whether the request `op` can be served in the agenda `v`: a record that keeps
/// the rules can only be added while the counter of its kind is below its last
/// value.
pub open spec fn atendivel(v: AgendaView, op: Operacao) -> bool {
    &&& cria_contato(op) ==> v.contatos.proximo < u32::MAX
    &&& cria_compromisso(op) ==> v.compromissos.proximo < u32::MAX
}

/// Contacts are given the identifiers 0, 1, 2 and so on in the order in which they
/// are stored, whatever else is asked of the agenda in between: updates and
/// deletions of contacts, and any request on the appointments.
pub proof fn lei_ids_de_contatos_em_ordem(ops: Seq<Operacao>)
    requires
        ids_de_contatos_criados(AgendaView::nova(), ops).len() <= u32::MAX,
    ensures
        apos_todas(AgendaView::nova(), ops).contatos.proximo == ids_de_contatos_criados(
            AgendaView::nova(),
            ops,
        ).len(),
        forall|i: int|
            0 <= i < ids_de_contatos_criados(AgendaView::nova(), ops).len()
                ==> #[trigger] ids_de_contatos_criados(AgendaView::nova(), ops)[i] == i,
    decreases ops.len(),
{
    if ops.len() > 0 {
        lei_ids_de_contatos_em_ordem(ops.drop_last());
    }
}

/// Appointments are given the identifiers 0, 1, 2 and so on in the order in which
/// they are stored, whatever else is asked of the agenda in between.
pub proof fn lei_ids_de_compromissos_em_ordem(ops: Seq<Operacao>)
    requires
        ids_de_compromissos_criados(AgendaView::nova(), ops).len() <= u32::MAX,
    ensures
        apos_todas(AgendaView::nova(), ops).compromissos.proximo == ids_de_compromissos_criados(
            AgendaView::nova(),
            ops,
        ).len(),
        forall|i: int|
            0 <= i < ids_de_compromissos_criados(AgendaView::nova(), ops).len()
                ==> #[trigger] ids_de_compromissos_criados(AgendaView::nova(), ops)[i] == i,
    decreases ops.len(),
{
    if ops.len() > 0 {
        lei_ids_de_compromissos_em_ordem(ops.drop_last());
    }
}

/// After a contact was deleted there is no contact of that identifier, so that a
/// second deletion finds nothing and changes nothing.
pub proof fn lei_delecao_de_contato_idempotente(v: AgendaView, id: u32)
    ensures
        !v.apos(Operacao::DeletarContato(id)).contatos.itens.contains_key(id),
        v.apos(Operacao::DeletarContato(id)).apos(Operacao::DeletarContato(id)) == v.apos(
            Operacao::DeletarContato(id),
        ),
{
    let uma = v.apos(Operacao::DeletarContato(id));
    let duas = uma.apos(Operacao::DeletarContato(id));
    assert(duas.contatos.itens =~= uma.contatos.itens);
}

/// After an appointment was deleted there is no appointment of that identifier, so
/// that a second deletion finds nothing and changes nothing.
pub proof fn lei_delecao_de_compromisso_idempotente(v: AgendaView, id: u32)
    ensures
        !v.apos(Operacao::DeletarCompromisso(id)).compromissos.itens.contains_key(id),
        v.apos(Operacao::DeletarCompromisso(id)).apos(Operacao::DeletarCompromisso(id)) == v.apos(
            Operacao::DeletarCompromisso(id),
        ),
{
    let uma = v.apos(Operacao::DeletarCompromisso(id));
    let duas = uma.apos(Operacao::DeletarCompromisso(id));
    assert(duas.compromissos.itens =~= uma.compromissos.itens);
}

/// No request takes an agenda out of order: the identifiers in use stay below
/// their counters, and the records in store keep the rules for their fields.
pub proof fn lei_valida_preservada(v: AgendaView, op: Operacao)
    requires
        v.valida(),
        atendivel(v, op),
    ensures
        v.apos(op).valida(),
{
}

/// A counter moves up by one when a record of its kind is stored, and no other
/// request moves it: it never goes back, and an identifier, once given, is not
/// given again.
pub proof fn lei_contadores_so_avancam(v: AgendaView, op: Operacao)
    requires
        atendivel(v, op),
    ensures
        v.apos(op).contatos.proximo == if cria_contato(op) {
            v.contatos.proximo + 1
        } else {
            v.contatos.proximo as int
        },
        v.apos(op).compromissos.proximo == if cria_compromisso(op) {
            v.compromissos.proximo + 1
        } else {
            v.compromissos.proximo as int
        },
{
}

/// The listing of a repository in order holds every record once, by ascending
/// identifier, and nothing else: an identifier is listed exactly when a record is
/// stored under it.
pub proof fn lei_listagem_completa<T>(v: RepositorioView<T>)
    requires
        v.valido(),
    ensures
        v.listagem().len() == v.ids().len(),
        forall|id: u32| #[trigger] v.ids().contains(id) <==> v.itens.contains_key(id),
        forall|i: int, j: int| 0 <= i < j < v.ids().len() ==> v.ids()[i] < v.ids()[j],
        forall|i: int| 0 <= i < v.ids().len() ==> #[trigger] v.listagem()[i] == v.itens[v.ids()[i]],
{
    lema_ids_abaixo(v.itens, v.proximo as nat);
}

/// A record that was just stored is read back, field by field, under the
/// identifier that it was given.
pub proof fn lei_leitura_apos_criacao(v: AgendaView, contato: Contato, compromisso: Compromisso)
    ensures
        contato.valido() ==> v.apos(Operacao::CriarContato(contato)).contatos.itens.contains_key(
            v.contatos.proximo,
        ) && v.apos(Operacao::CriarContato(contato)).contatos.itens[v.contatos.proximo] == contato,
        compromisso.valido() ==> v.apos(
            Operacao::CriarCompromisso(compromisso),
        ).compromissos.itens.contains_key(v.compromissos.proximo) && v.apos(
            Operacao::CriarCompromisso(compromisso),
        ).compromissos.itens[v.compromissos.proximo] == compromisso,
{
}

} // verus!

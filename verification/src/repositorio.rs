//! Keyed storage for the records of one kind, with the allocation of their
//! identifiers.
//!
//! Identifiers are handed out from a counter that starts at zero and only ever
//! grows: a record keeps its identifier for life, and the identifier of a deleted
//! record stays a gap for ever.

use vstd::prelude::*;
use std::collections::HashMap;

verus! {

/// What a repository holds: the records by identifier, and the identifier that the
/// next new record will get.
#[verifier::ext_equal]
pub struct RepositorioView<T> {
    pub itens: Map<u32, T>,
    pub proximo: u32,
}

/// The identifiers below `limite` under which `itens` holds a record, in ascending
/// order.
pub open spec fn ids_abaixo<T>(itens: Map<u32, T>, limite: nat) -> Seq<u32>
    decreases limite,
{
    if limite == 0 {
        Seq::<u32>::empty()
    } else {
        let id = (limite - 1) as u32;
        if itens.contains_key(id) {
            ids_abaixo(itens, (limite - 1) as nat).push(id)
        } else {
            ids_abaixo(itens, (limite - 1) as nat)
        }
    }
}

impl<T> RepositorioView<T> {
    /// The repository before anything was stored.
    pub open spec fn vazio() -> Self {
        RepositorioView { itens: Map::empty(), proximo: 0 }
    }

    /// Every identifier in use was handed out by the counter, which is therefore
    /// above all of them.
    pub open spec fn valido(self) -> bool {
        forall|id: u32| self.itens.contains_key(id) ==> id < self.proximo
    }

    /// The repository after `item` was stored under the next identifier.
    pub open spec fn com_novo(self, item: T) -> Self {
        RepositorioView {
            itens: self.itens.insert(self.proximo, item),
            proximo: (self.proximo + 1) as u32,
        }
    }

    /// The repository after `item` took the place of the record `id`. Where there
    /// is no such record nothing changes: no record is made.
    pub open spec fn com_troca(self, id: u32, item: T) -> Self {
        if self.itens.contains_key(id) {
            RepositorioView { itens: self.itens.insert(id, item), proximo: self.proximo }
        } else {
            self
        }
    }

    /// The repository after the record `id` was deleted. The counter stays, so the
    /// identifier is not handed out again.
    pub open spec fn sem(self, id: u32) -> Self {
        RepositorioView { itens: self.itens.remove(id), proximo: self.proximo }
    }

    /// The identifiers in use, in ascending order.
    pub open spec fn ids(self) -> Seq<u32> {
        ids_abaixo(self.itens, self.proximo as nat)
    }

    /// The records, in ascending order of their identifiers.
    pub open spec fn listagem(self) -> Seq<T> {
        self.ids().map_values(|id: u32| self.itens[id])
    }
}

/// `ids_abaixo` holds exactly the identifiers in use below the limit, each once and
/// in ascending order.
pub proof fn lema_ids_abaixo<T>(itens: Map<u32, T>, limite: nat)
    requires
        limite <= u32::MAX + 1,
    ensures
        forall|id: u32|
            #[trigger] ids_abaixo(itens, limite).contains(id) <==> (id < limite
                && itens.contains_key(id)),
        forall|i: int, j: int|
            0 <= i < j < ids_abaixo(itens, limite).len() ==> ids_abaixo(itens, limite)[i]
                < ids_abaixo(itens, limite)[j],
    decreases limite,
{
    if limite > 0 {
        let antes = ids_abaixo(itens, (limite - 1) as nat);
        let agora = ids_abaixo(itens, limite);
        let ultimo = (limite - 1) as u32;
        lema_ids_abaixo(itens, (limite - 1) as nat);
        if itens.contains_key(ultimo) {
            assert forall|id: u32| #[trigger] agora.contains(id) <==> (id < limite
                && itens.contains_key(id)) by {
                if agora.contains(id) {
                    let i = choose|i: int| 0 <= i < agora.len() && agora[i] == id;
                    if i < antes.len() {
                        assert(antes.contains(id));
                    }
                }
                if id < limite && itens.contains_key(id) {
                    if id == ultimo {
                        assert(agora[antes.len() as int] == id);
                    } else {
                        assert(antes.contains(id));
                        let i = choose|i: int| 0 <= i < antes.len() && antes[i] == id;
                        assert(agora[i] == id);
                    }
                }
            }
            assert forall|i: int, j: int| 0 <= i < j < agora.len() implies agora[i] < agora[j] by {
                if j == antes.len() {
                    assert(antes.contains(antes[i]));
                }
            }
        }
    }
}

/// The records of one kind under their identifiers.
pub struct Repositorio<T> {
    itens: HashMap<u32, T>,
    proximo: u32,
}

impl<T> View for Repositorio<T> {
    type V = RepositorioView<T>;

    closed spec fn view(&self) -> RepositorioView<T> {
        RepositorioView { itens: self.itens@, proximo: self.proximo }
    }
}

impl<T> Repositorio<T> {
    /// An empty repository, whose first record will get the identifier 0.
    pub fn novo() -> (r: Self)
        ensures
            r@ == RepositorioView::<T>::vazio(),
    {
        Repositorio { itens: HashMap::new(), proximo: 0 }
    }

    /// The identifier that the next new record will get.
    pub fn proximo_id(&self) -> (r: u32)
        ensures
            r == self@.proximo,
    {
        self.proximo
    }

    /// Stores `item` as a new record and gives back its identifier, which is the
    /// counter's value; the counter then moves up by one.
    ///
    /// The counter must not be at its last value: an identifier is never handed
    /// out twice.
    pub fn criar(&mut self, item: T) -> (id: u32)
        requires
            old(self)@.proximo < u32::MAX,
        ensures
            id == old(self)@.proximo,
            final(self)@ == old(self)@.com_novo(item),
            old(self)@.valido() ==> final(self)@.valido(),
    {
        let id = self.proximo;
        self.proximo = id + 1;
        self.itens.insert(id, item);
        proof {
            if old(self)@.valido() {
                assert forall|k: u32| self@.itens.contains_key(k) implies k < self@.proximo by {
                    if k != id {
                        assert(old(self)@.itens.contains_key(k));
                    }
                }
            }
        }
        id
    }

    /// Whether there is a record `id`.
    pub fn contem(&self, id: u32) -> (r: bool)
        ensures
            r == self@.itens.contains_key(id),
    {
        self.itens.contains_key(&id)
    }

    /// The record `id`, if there is one.
    pub fn ler(&self, id: u32) -> (r: Option<&T>)
        ensures
            match r {
                Some(item) => self@.itens.contains_key(id) && *item == self@.itens[id],
                None => !self@.itens.contains_key(id),
            },
    {
        self.itens.get(&id)
    }

    /// Puts `item` in the place of the record `id` and says whether there was such
    /// a record. Where there was none, nothing is stored.
    pub fn atualizar(&mut self, id: u32, item: T) -> (r: bool)
        ensures
            r == old(self)@.itens.contains_key(id),
            final(self)@ == old(self)@.com_troca(id, item),
            old(self)@.valido() ==> final(self)@.valido(),
    {
        if self.itens.contains_key(&id) {
            self.itens.insert(id, item);
            true
        } else {
            false
        }
    }

    /// Deletes the record `id` and says whether there was such a record.
    pub fn deletar(&mut self, id: u32) -> (r: bool)
        ensures
            r == old(self)@.itens.contains_key(id),
            final(self)@ == old(self)@.sem(id),
            old(self)@.valido() ==> final(self)@.valido(),
    {
        match self.itens.remove(&id) {
            Some(_) => true,
            None => false,
        }
    }

    /// The records, in ascending order of their identifiers.
    pub fn listar(&self) -> (r: Vec<&T>)
        ensures
            r@.len() == self@.listagem().len(),
            forall|i: int| 0 <= i < r@.len() ==> *r@[i] == self@.listagem()[i],
    {
        let mut r: Vec<&T> = Vec::new();
        let mut id: u32 = 0;
        while id < self.proximo
            invariant
                id <= self.proximo,
                r@.len() == ids_abaixo(self.itens@, id as nat).len(),
                forall|i: int|
                    0 <= i < r@.len() ==> *r@[i] == self.itens@[ids_abaixo(
                        self.itens@,
                        id as nat,
                    )[i]],
            decreases self.proximo - id,
        {
            match self.itens.get(&id) {
                Some(item) => {
                    r.push(item);
                },
                None => {},
            }
            id += 1;
        }
        r
    }
}

} // verus!

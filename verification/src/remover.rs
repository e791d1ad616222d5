//! `ump remove`: dropping dependencies from the project.
use vstd::prelude::*;
use crate::tabla::Tabla;
use crate::texto::vistas;

verus! {

/// The map without the given names, removed in order.
pub open spec fn sin_claves(m: Map<Seq<char>, String>, nombres: Seq<Seq<char>>) -> Map<Seq<char>, String>
    decreases nombres.len(),
{
    if nombres.len() == 0 {
        m
    } else {
        sin_claves(m, nombres.drop_last()).remove(nombres.last())
    }
}

/// Removes each package from the dependencies, in order. For each one the
/// result tells whether it was a dependency when its turn came (a name
/// given twice is found only the first time).
pub fn remover_paquetes(deps: &mut Tabla<String>, paquetes: &Vec<String>) -> (r: Vec<bool>)
    requires
    ensures
        final(deps)@ == sin_claves(old(deps)@, vistas(paquetes@)),
        r@.len() == paquetes@.len(),
        forall|i: int|
            0 <= i < paquetes@.len() ==> r@[i] == sin_claves(
                old(deps)@,
                vistas(paquetes@).take(i),
            ).contains_key(paquetes@[i]@),
{
    let ghost inicial = deps@;
    let mut r: Vec<bool> = Vec::new();
    let mut i: usize = 0;
    assert(vistas(paquetes@).take(0) =~= Seq::<Seq<char>>::empty());
    while i < paquetes.len()
        invariant
            i <= paquetes@.len(),
            r@.len() == i,
            deps@ == sin_claves(inicial, vistas(paquetes@).take(i as int)),
            forall|j: int|
                0 <= j < i ==> r@[j] == sin_claves(
                    inicial,
                    vistas(paquetes@).take(j),
                ).contains_key(paquetes@[j]@),
        decreases paquetes@.len() - i,
    {
        proof {
            assert(vistas(paquetes@).take(i + 1).drop_last() =~= vistas(paquetes@).take(i as int));
            assert(vistas(paquetes@).take(i + 1).last() == paquetes@[i as int]@);
        }
        let quitado = deps.remover(paquetes[i].as_str());
        r.push(quitado.is_some());
        i = i + 1;
    }
    assert(vistas(paquetes@).take(paquetes@.len() as int) =~= vistas(paquetes@));
    r
}

} // verus!

//! `ump update`: which dependencies have a newer version.
use vstd::prelude::*;
use crate::comun::{es_nueva, es_version_nueva, EntradaIndice};
use crate::tabla::Tabla;
use crate::texto::copiar;

verus! {

/// Why a dependency was not looked at.
pub enum Motivo {
    /// The global index does not list it.
    FueraDeIndice,
    /// The versions of its repository could not be read: the error.
    SinVersiones(String),
}

/// What looking at one dependency found.
pub enum Revision {
    /// A newer version: name, current version, latest version.
    Nueva((String, String, String)),
    /// Nothing newer.
    Vigente,
    /// Not looked at, and why.
    Omitida(Motivo),
}

/// The view of the lookup of a repository's latest version: `None` when
/// no lookup was made.
pub open spec fn vista_consulta(ultima: Option<Result<String, String>>) -> Option<Result<Seq<char>, Seq<char>>> {
    match ultima {
        Some(Ok(u)) => Some(Ok(u@)),
        Some(Err(e)) => Some(Err(e@)),
        None => None,
    }
}

/// Whether `r` is what looking at dependency `nombre` at version `actual`
/// finds: a name missing from the index is skipped (its repository is not
/// consulted); one whose latest version could not be read is skipped with
/// the error; otherwise the latest version is new or not.
pub open spec fn es_revision(r: Revision, nombre: Seq<char>, actual: Seq<char>, indice: Map<Seq<char>, EntradaIndice>, ultima: Option<Result<Seq<char>, Seq<char>>>) -> bool {
    if !indice.contains_key(nombre) {
        r matches Revision::Omitida(Motivo::FueraDeIndice)
    } else {
        match ultima {
            None => false,
            Some(Err(e)) => r matches Revision::Omitida(Motivo::SinVersiones(m)) && m@ == e,
            Some(Ok(u)) => if es_nueva(actual, u) {
                r matches Revision::Nueva((n, a, v)) && n@ == nombre && a@ == actual && v@ == u
            } else {
                r is Vigente
            },
        }
    }
}

/// A dependency at `actual` against the latest version of its repository.
fn comparar(nombre: &str, actual: &str, ultima: &str) -> (r: Revision)
    ensures
        es_nueva(actual@, ultima@) ==> (r matches Revision::Nueva((n, a, u)) && n@ == nombre@
            && a@ == actual@ && u@ == ultima@),
        !es_nueva(actual@, ultima@) ==> r is Vigente,
        actual@ == ultima@ ==> r is Vigente,
{
    if es_version_nueva(actual, ultima) {
        Revision::Nueva((copiar(nombre), copiar(actual), copiar(ultima)))
    } else {
        Revision::Vigente
    }
}

/// Looks at dependency `nombre` at version `actual`. `ultima` is the lookup
/// of the latest version of the repository that `repositorio_a_consultar`
/// names, made only when it names one.
pub fn revisar(nombre: &str, actual: &str, indice: &Tabla<EntradaIndice>, ultima: Option<Result<String, String>>) -> (r: Revision)
    requires
        indice@.contains_key(nombre@) ==> ultima is Some,
    ensures
        es_revision(r, nombre@, actual@, indice@, vista_consulta(ultima)),
        indice@.contains_key(nombre@) && (ultima matches Some(Ok(u)) && u@ == actual@) ==> r is Vigente,
{
    if !indice.contiene(nombre) {
        return Revision::Omitida(Motivo::FueraDeIndice);
    }
    match ultima {
        Some(Ok(u)) => comparar(nombre, actual, u.as_str()),
        Some(Err(e)) => Revision::Omitida(Motivo::SinVersiones(e)),
        None => Revision::Omitida(Motivo::FueraDeIndice),
    }
}

/// Looks at every dependency, in the table's order; `ultimas[i]` is the
/// lookup made for the `i`-th (none for one missing from the index).
pub fn revisar_todas(dependencias: &Tabla<String>, indice: &Tabla<EntradaIndice>, ultimas: Vec<Option<Result<String, String>>>) -> (r: Vec<Revision>)
    requires
        ultimas@.len() == dependencias.orden().len(),
        forall|i: int|
            0 <= i < ultimas@.len() && #[trigger] indice@.contains_key(dependencias.orden()[i])
                ==> ultimas@[i] is Some,
    ensures
        r@.len() == dependencias.orden().len(),
        forall|i: int|
            0 <= i < r@.len() ==> es_revision(
                #[trigger] r@[i],
                dependencias.orden()[i],
                dependencias@[dependencias.orden()[i]]@,
                indice@,
                vista_consulta(ultimas@[i]),
            ),
{
    let n = dependencias.len();
    let mut r: Vec<Revision> = Vec::new();
    let mut resto = ultimas;
    let mut i: usize = 0;
    assert(ultimas@.skip(0) =~= ultimas@);
    while i < n
        invariant
            n == dependencias.orden().len(),
            n == ultimas@.len(),
            i <= n,
            r@.len() == i,
            resto@ == ultimas@.skip(i as int),
            forall|j: int|
                0 <= j < ultimas@.len() && #[trigger] indice@.contains_key(dependencias.orden()[j])
                    ==> ultimas@[j] is Some,
            forall|j: int|
                0 <= j < i ==> es_revision(
                    #[trigger] r@[j],
                    dependencias.orden()[j],
                    dependencias@[dependencias.orden()[j]]@,
                    indice@,
                    vista_consulta(ultimas@[j]),
                ),
        decreases n - i,
    {
        let ghost antes = resto@;
        let u = resto.remove(0);
        proof {
            assert(antes[0] == ultimas@[i as int]);
            assert(resto@ =~= ultimas@.skip(i + 1));
        }
        let nombre = dependencias.clave(i);
        let actual = dependencias.valor(i);
        let x = revisar(nombre.as_str(), actual.as_str(), indice, u);
        r.push(x);
        i = i + 1;
    }
    r
}

/// The repository whose versions decide about dependency `nombre`: the
/// index's, or none when the index lacks the name (the dependency is then
/// skipped).
pub fn repositorio_a_consultar(nombre: &str, indice: &Tabla<EntradaIndice>) -> (r: Option<String>)
    requires
    ensures
        match r {
            Some(u) => indice@.contains_key(nombre@) && u@ == indice@[nombre@].repository@,
            None => !indice@.contains_key(nombre@),
        },
{
    match indice.obtener(nombre) {
        Some(e) => Some(copiar(e.repository.as_str())),
        None => None,
    }
}

/// The views of the newer versions found, in order.
pub open spec fn nuevas(rs: Seq<Revision>) -> Seq<(Seq<char>, Seq<char>, Seq<char>)>
    decreases rs.len(),
{
    if rs.len() == 0 {
        Seq::empty()
    } else {
        let previas = nuevas(rs.drop_last());
        match rs.last() {
            Revision::Nueva((n, a, u)) => previas.push((n@, a@, u@)),
            _ => previas,
        }
    }
}

/// How many dependencies had nothing newer.
pub open spec fn vigentes(rs: Seq<Revision>) -> nat
    decreases rs.len(),
{
    if rs.len() == 0 {
        0
    } else {
        vigentes(rs.drop_last()) + if rs.last() is Vigente {
            1nat
        } else {
            0nat
        }
    }
}

/// How many dependencies were skipped.
pub open spec fn omitidas(rs: Seq<Revision>) -> nat
    decreases rs.len(),
{
    if rs.len() == 0 {
        0
    } else {
        omitidas(rs.drop_last()) + if rs.last() is Omitida {
            1nat
        } else {
            0nat
        }
    }
}

/// The views of triples of texts.
pub open spec fn vistas_triples(v: Seq<(String, String, String)>) -> Seq<(Seq<char>, Seq<char>, Seq<char>)> {
    v.map_values(|t: (String, String, String)| (t.0@, t.1@, t.2@))
}

/// The newer version found for a dependency, if any.
fn extraer_nueva(revision: &Revision) -> (r: Option<(String, String, String)>)
    ensures
        match revision {
            Revision::Nueva((n, a, u)) => r matches Some(t) && t.0@ == n@ && t.1@ == a@ && t.2@
                == u@,
            _ => r is None,
        },
{
    match revision {
        Revision::Nueva((n, a, u)) => Some(
            (copiar(n.as_str()), copiar(a.as_str()), copiar(u.as_str())),
        ),
        Revision::Vigente => None,
        Revision::Omitida(_) => None,
    }
}

/// Splits the findings into the newer versions found, in order, and the
/// number of dependencies with nothing newer. Every finding is counted once:
/// new, current or skipped.
pub fn clasificar(revisiones: &Vec<Revision>) -> (r: (Vec<(String, String, String)>, usize))
    ensures
        vistas_triples(r.0@) == nuevas(revisiones@),
        r.1 == vigentes(revisiones@),
        r.0@.len() + r.1 + omitidas(revisiones@) == revisiones@.len(),
{
    let mut lista: Vec<(String, String, String)> = Vec::new();
    let mut cuenta: usize = 0;
    let mut i: usize = 0;
    assert(revisiones@.take(0) =~= Seq::<Revision>::empty());
    while i < revisiones.len()
        invariant
            i <= revisiones@.len(),
            vistas_triples(lista@) == nuevas(revisiones@.take(i as int)),
            cuenta == vigentes(revisiones@.take(i as int)),
            lista@.len() + cuenta + omitidas(revisiones@.take(i as int)) == i,
        decreases revisiones@.len() - i,
    {
        let ghost previas = revisiones@.take(i as int);
        proof {
            assert(revisiones@.take(i + 1).drop_last() =~= previas);
            assert(revisiones@.take(i + 1).last() == revisiones@[i as int]);
        }
        match extraer_nueva(&revisiones[i]) {
            Some(t) => {
                lista.push(t);
                assert(vistas_triples(lista@) =~= vistas_triples(lista@).drop_last().push(
                    vistas_triples(lista@).last(),
                ));
            },
            None => {},
        }
        if matches!(revisiones[i], Revision::Vigente) {
            cuenta = cuenta + 1;
        }
        i = i + 1;
    }
    assert(revisiones@.take(revisiones@.len() as int) =~= revisiones@);
    (lista, cuenta)
}

} // verus!

verus! {

/// The newer versions that the lookups show, in the order of the names:
/// `(name, current, latest)` for each name the index lists whose latest
/// version was read and is newer.
pub open spec fn nuevas_de(nombres: Seq<Seq<char>>, actuales: Map<Seq<char>, String>, indice: Map<Seq<char>, EntradaIndice>, ultimas: Seq<Option<Result<String, String>>>) -> Seq<(Seq<char>, Seq<char>, Seq<char>)>
    decreases nombres.len(),
{
    if nombres.len() == 0 {
        Seq::empty()
    } else {
        let k = nombres.len() - 1;
        let previas = nuevas_de(nombres.drop_last(), actuales, indice, ultimas.take(k));
        let nombre = nombres[k];
        match ultimas[k] {
            Some(Ok(u)) => if indice.contains_key(nombre) && es_nueva(actuales[nombre]@, u@) {
                previas.push((nombre, actuales[nombre]@, u@))
            } else {
                previas
            },
            _ => previas,
        }
    }
}

/// How many of the names the index lists have a latest version that was
/// read and is not newer.
pub open spec fn vigentes_de(nombres: Seq<Seq<char>>, actuales: Map<Seq<char>, String>, indice: Map<Seq<char>, EntradaIndice>, ultimas: Seq<Option<Result<String, String>>>) -> nat
    decreases nombres.len(),
{
    if nombres.len() == 0 {
        0
    } else {
        let k = nombres.len() - 1;
        let previas = vigentes_de(nombres.drop_last(), actuales, indice, ultimas.take(k));
        let nombre = nombres[k];
        match ultimas[k] {
            Some(Ok(u)) => if indice.contains_key(nombre) && !es_nueva(actuales[nombre]@, u@) {
                previas + 1
            } else {
                previas
            },
            _ => previas,
        }
    }
}

/// Classifying what `revisar_todas` found gives, for the dependencies in
/// order, exactly the newer versions that the lookups show and the number of
/// dependencies with nothing newer: a dependency missing from the index, or
/// whose versions could not be read, counts as neither.
pub proof fn ley_clasificacion(rs: Seq<Revision>, nombres: Seq<Seq<char>>, actuales: Map<Seq<char>, String>, indice: Map<Seq<char>, EntradaIndice>, ultimas: Seq<Option<Result<String, String>>>)
    requires
        rs.len() == nombres.len(),
        ultimas.len() == nombres.len(),
        forall|i: int|
            0 <= i < rs.len() ==> es_revision(
                #[trigger] rs[i],
                nombres[i],
                actuales[nombres[i]]@,
                indice,
                vista_consulta(ultimas[i]),
            ),
    ensures
        nuevas(rs) == nuevas_de(nombres, actuales, indice, ultimas),
        vigentes(rs) == vigentes_de(nombres, actuales, indice, ultimas),
    decreases rs.len(),
{
    if rs.len() > 0 {
        let k = rs.len() - 1;
        assert(es_revision(rs[k], nombres[k], actuales[nombres[k]]@, indice, vista_consulta(ultimas[k])));
        assert forall|i: int| 0 <= i < rs.drop_last().len() implies es_revision(
            #[trigger] rs.drop_last()[i],
            nombres.drop_last()[i],
            actuales[nombres.drop_last()[i]]@,
            indice,
            vista_consulta(ultimas.take(k)[i]),
        ) by {
            assert(rs.drop_last()[i] == rs[i]);
            assert(es_revision(rs[i], nombres[i], actuales[nombres[i]]@, indice, vista_consulta(ultimas[i])));
        }
        ley_clasificacion(rs.drop_last(), nombres.drop_last(), actuales, indice, ultimas.take(k));
    }
}

/// Looks at every dependency, in the table's order (`ultimas[i]` is the
/// lookup made for the `i`-th, none for one missing from the index), and
/// splits what was found: the findings, the newer versions in order, and
/// how many dependencies have nothing newer.
pub fn buscar_actualizaciones(dependencias: &Tabla<String>, indice: &Tabla<EntradaIndice>, ultimas: Vec<Option<Result<String, String>>>) -> (r: (Vec<Revision>, Vec<(String, String, String)>, usize))
    requires
        ultimas@.len() == dependencias.orden().len(),
        forall|i: int|
            0 <= i < ultimas@.len() && #[trigger] indice@.contains_key(dependencias.orden()[i])
                ==> ultimas@[i] is Some,
    ensures
        r.0@.len() == dependencias.orden().len(),
        forall|i: int|
            0 <= i < r.0@.len() ==> es_revision(
                #[trigger] r.0@[i],
                dependencias.orden()[i],
                dependencias@[dependencias.orden()[i]]@,
                indice@,
                vista_consulta(ultimas@[i]),
            ),
        vistas_triples(r.1@) == nuevas_de(dependencias.orden(), dependencias@, indice@, ultimas@),
        r.2 == vigentes_de(dependencias.orden(), dependencias@, indice@, ultimas@),
{
    let ghost consultas = ultimas@;
    let revisiones = revisar_todas(dependencias, indice, ultimas);
    proof {
        ley_clasificacion(revisiones@, dependencias.orden(), dependencias@, indice@, consultas);
    }
    let (nuevas, vigentes) = clasificar(&revisiones);
    (revisiones, nuevas, vigentes)
}

} // verus!

//! What holds of the library as a whole.
use vstd::prelude::*;
use crate::agregar::insertar_todos;
use crate::comun::{
    compatibilidad, es_nueva, requisito_leido, version_conocida, version_en_salida,
    version_existente, TagGithub,
    direccion_limpia, es_primera, repo_github,
    division, es_ultima, especificacion, maximo, nombres, tag_de, ultima_version, version_normalizada,
    versiones_validas,
};
use crate::remover::sin_claves;
use crate::texto::{palabras, aparece_en, es_blanco, sin_sufijo, recortado, sin_blancos_fin, sin_blancos_inicio, sin_prefijo};
use crate::version::{
    mostrar_version, requisito_cumplido, requisito_valido, version_analizada, version_precede,
    VistaVersion,
};
use crate::upgrade::destino;

verus! {

/// A text that trimming leaves alone: non-empty, with no white space at
/// either end.
pub open spec fn limpio(s: Seq<char>) -> bool {
    s.len() > 0 && !es_blanco(s[0]) && !es_blanco(s.last())
}

/// Trimming leaves a clean text alone.
pub proof fn lema_recortado_limpio(s: Seq<char>)
    requires
        limpio(s),
    ensures
        recortado(s) == s,
{
    assert(sin_blancos_inicio(s) == s);
    assert(sin_blancos_fin(s) == s);
}

/// A tag names its version: normalizing the tag of a normalized version
/// (clean, not starting with `v`) gives the version back.
pub proof fn ley_tag_y_normalizar(v: Seq<char>)
    requires
        limpio(v),
        v[0] != 'v',
    ensures
        version_normalizada(tag_de(v)) == v,
        tag_de(v) == seq!['v'] + v,
{
    let w = seq!['v'] + v;
    assert(w[0] == 'v');
    assert(w.last() == v.last());
    lema_recortado_limpio(w);
    assert(w.take(1) =~= seq!['v']);
    assert(w.skip(1) =~= v);
    assert(v.take(1) != seq!['v']) by {
        assert(v.take(1)[0] == v[0]);
    }
    assert(sin_prefijo(v, seq!['v']) == v);
    assert(sin_prefijo(w, seq!['v']) == v);
    lema_recortado_limpio(v);
}

/// Taking the tag of a tag changes nothing, and every tag starts with `v`.
pub proof fn ley_tag_idempotente(v: Seq<char>)
    ensures
        tag_de(tag_de(v)) == tag_de(v),
        tag_de(v).len() > 0 && tag_de(v)[0] == 'v',
{
}

/// `name@version` reads back as the name and the version, for a clean
/// name and a clean version without `@`.
pub proof fn ley_especificacion_con_version(nombre: Seq<char>, version: Seq<char>)
    requires
        limpio(nombre),
        limpio(version),
        !version.contains('@'),
    ensures
        especificacion(nombre + seq!['@'] + version) == (nombre, Some(version)),
{
    let s = nombre + seq!['@'] + version;
    let pos = nombre.len() as int;
    assert(s[0] == nombre[0]);
    assert(s.last() == version.last());
    lema_recortado_limpio(s);
    assert(s[pos] == '@');
    assert forall|j: int| pos < j < s.len() implies s[j] != '@' by {
        assert(s[j] == version[j - pos - 1]);
    }
    assert(es_ultima(s, '@', pos));
    let elegida = choose|i: int| es_ultima(s, '@', i);
    assert(elegida == pos) by {
        if elegida < pos {
            assert(s[pos] != '@');
        } else if elegida > pos {
            assert(s[elegida] != '@');
        }
    }
    assert(s.take(pos) =~= nombre);
    assert(s.skip(pos + 1) =~= version);
    lema_recortado_limpio(nombre);
    lema_recortado_limpio(version);
    assert(division(s, '@') == Some((nombre, version)));
}

/// A clean name without `@` or `/` reads back as the name alone.
pub proof fn ley_especificacion_sin_version(nombre: Seq<char>)
    requires
        limpio(nombre),
        !nombre.contains('@'),
        !nombre.contains('/'),
    ensures
        especificacion(nombre) == (nombre, None::<Seq<char>>),
{
    lema_recortado_limpio(nombre);
    assert(!exists|i: int| es_ultima(nombre, '@', i));
    assert(!exists|i: int| es_ultima(nombre, '/', i));
}

/// Recording dependencies: a name among the new pairs gets the version of
/// its last pair; any other name keeps what it had.
pub proof fn ley_fusion(m: Map<Seq<char>, String>, pares: Seq<(String, String)>, k: Seq<char>)
    ensures
        (exists|i: int| 0 <= i < pares.len() && pares[i].0@ == k) ==> {
            let i = choose|i: int|
                0 <= i < pares.len() && pares[i].0@ == k && forall|j: int|
                    i < j < pares.len() ==> pares[j].0@ != k;
            insertar_todos(m, pares).contains_key(k) && insertar_todos(m, pares)[k] == pares[i].1
        },
        (forall|i: int| 0 <= i < pares.len() ==> pares[i].0@ != k) ==> (insertar_todos(
            m,
            pares,
        ).contains_key(k) == m.contains_key(k) && insertar_todos(m, pares)[k] == m[k]),
    decreases pares.len(),
{
    if pares.len() > 0 {
        let previos = pares.drop_last();
        ley_fusion(m, previos, k);
        if exists|i: int| 0 <= i < pares.len() && pares[i].0@ == k {
            let i = choose|i: int|
                0 <= i < pares.len() && pares[i].0@ == k && forall|j: int|
                    i < j < pares.len() ==> pares[j].0@ != k;
            let ultimo = (pares.len() - 1) as int;
            if pares[ultimo].0@ == k {
                assert(i == ultimo);
            } else {
                let t = choose|t: int| 0 <= t < pares.len() && pares[t].0@ == k;
                let w = choose|w: int|
                    0 <= w < pares.len() && pares[w].0@ == k && forall|j: int|
                        w < j < pares.len() ==> pares[j].0@ != k;
                lema_ultima_clave(pares, k, t);
                assert(w < ultimo);
                assert(previos[w].0@ == k);
                let i2 = choose|i: int|
                    0 <= i < previos.len() && previos[i].0@ == k && forall|j: int|
                        i < j < previos.len() ==> previos[j].0@ != k;
                assert(i2 == w) by {
                    if i2 < w {
                        assert(previos[w].0@ == k);
                    } else if i2 > w {
                        assert(pares[i2].0@ == k);
                    }
                }
            }
        } else {
            assert forall|i: int| 0 <= i < previos.len() implies previos[i].0@ != k by {
                assert(pares[i].0@ != k);
            }
        }
    }
}

/// Where some pair has the key, a last such pair exists.
proof fn lema_ultima_clave(pares: Seq<(String, String)>, k: Seq<char>, t: int)
    requires
        0 <= t < pares.len(),
        pares[t].0@ == k,
    ensures
        exists|i: int|
            0 <= i < pares.len() && pares[i].0@ == k && forall|j: int|
                i < j < pares.len() ==> pares[j].0@ != k,
    decreases pares.len() - t,
{
    if exists|j: int| t < j < pares.len() && pares[j].0@ == k {
        let j = choose|j: int| t < j < pares.len() && pares[j].0@ == k;
        lema_ultima_clave(pares, k, j);
    } else {
        assert(forall|j: int| t < j < pares.len() ==> pares[j].0@ != k);
    }
}

/// Removing dependencies: no removed name stays, and every other name keeps
/// what it had.
pub proof fn ley_remover(m: Map<Seq<char>, String>, nombres: Seq<Seq<char>>, k: Seq<char>)
    ensures
        nombres.contains(k) ==> !sin_claves(m, nombres).contains_key(k),
        !nombres.contains(k) ==> (sin_claves(m, nombres).contains_key(k) == m.contains_key(k)
            && sin_claves(m, nombres)[k] == m[k]),
    decreases nombres.len(),
{
    if nombres.len() > 0 {
        let previos = nombres.drop_last();
        ley_remover(m, previos, k);
        if nombres.contains(k) && nombres.last() != k {
            let i = choose|i: int| 0 <= i < nombres.len() && nombres[i] == k;
            assert(previos[i] == k);
        }
        if !nombres.contains(k) {
            assert forall|i: int| 0 <= i < previos.len() implies previos[i] != k by {
                assert(nombres[i] != k);
            }
        }
    }
}

/// The greatest version is one of the versions.
proof fn lema_maximo_pertenece(vs: Seq<VistaVersion>)
    ensures
        maximo(vs) matches Some(x) ==> vs.contains(x),
        vs.len() > 0 ==> maximo(vs) is Some,
    decreases vs.len(),
{
    if vs.len() > 0 {
        lema_maximo_pertenece(vs.drop_last());
        match maximo(vs.drop_last()) {
            Some(a) => {
                let i = choose|i: int| 0 <= i < vs.drop_last().len() && vs.drop_last()[i] == a;
                assert(vs[i] == a);
            },
            None => {},
        }
        assert(vs[vs.len() - 1] == vs.last());
    }
}

/// Every valid version comes from one of the names.
proof fn lema_validas_de_nombres(ns: Seq<Seq<char>>, x: VistaVersion)
    requires
        versiones_validas(ns).contains(x),
    ensures
        exists|i: int|
            0 <= i < ns.len() && version_analizada(version_normalizada(ns[i])) == Some(x),
    decreases ns.len(),
{
    let previas = versiones_validas(ns.drop_last());
    let ultimo = ns.len() - 1;
    match version_analizada(version_normalizada(ns.last())) {
        Some(v) => {
            if v == x {
                assert(version_analizada(version_normalizada(ns[ultimo])) == Some(x));
            } else {
                let i = choose|i: int| 0 <= i < previas.push(v).len() && previas.push(v)[i] == x;
                assert(previas[i] == x);
                lema_validas_de_nombres(ns.drop_last(), x);
                let j = choose|j: int|
                    0 <= j < ns.drop_last().len() && version_analizada(
                        version_normalizada(ns.drop_last()[j]),
                    ) == Some(x);
                assert(ns[j] == ns.drop_last()[j]);
            }
        },
        None => {
            lema_validas_de_nombres(ns.drop_last(), x);
            let j = choose|j: int|
                0 <= j < ns.drop_last().len() && version_analizada(
                    version_normalizada(ns.drop_last()[j]),
                ) == Some(x);
            assert(ns[j] == ns.drop_last()[j]);
        },
    }
}

/// The latest version of a repository is written from the version of one
/// of its tags, and it exists whenever some tag is a valid version.
pub proof fn ley_ultima_de_un_tag(repositorio: Seq<char>, tags: Seq<crate::comun::TagGithub>)
    ensures
        ultima_version(repositorio, tags) matches Ok(s) ==> exists|i: int, v: VistaVersion|
            0 <= i < tags.len() && version_analizada(version_normalizada(tags[i].name@)) == Some(v)
                && s == mostrar_version(v),
        (exists|i: int|
            0 <= i < tags.len() && version_analizada(version_normalizada(#[trigger] tags[i].name@))
                is Some) ==> ultima_version(repositorio, tags) is Ok,
{
    let ns = nombres(tags);
    let vs = versiones_validas(ns);
    lema_maximo_pertenece(vs);
    match maximo(vs) {
        Some(x) => {
            lema_validas_de_nombres(ns, x);
            let i = choose|i: int|
                0 <= i < ns.len() && version_analizada(version_normalizada(ns[i])) == Some(x);
            assert(ns[i] == tags[i].name@);
        },
        None => {},
    }
    if exists|i: int|
        0 <= i < tags.len() && version_analizada(version_normalizada(#[trigger] tags[i].name@))
            is Some {
        let i = choose|i: int|
            0 <= i < tags.len() && version_analizada(version_normalizada(#[trigger] tags[i].name@))
                is Some;
        assert(ns[i] == tags[i].name@);
        lema_validas_no_vacias(ns, i);
    }
}

/// A valid name makes the valid versions non-empty.
proof fn lema_validas_no_vacias(ns: Seq<Seq<char>>, i: int)
    requires
        0 <= i < ns.len(),
        version_analizada(version_normalizada(ns[i])) is Some,
    ensures
        versiones_validas(ns).len() > 0,
    decreases ns.len(),
{
    if i < ns.len() - 1 {
        assert(ns.drop_last()[i] == ns[i]);
        lema_validas_no_vacias(ns.drop_last(), i);
    }
}

/// The cleaned address `github.com/` + path, and its `owner/repo`, for a
/// path that does not end in `.git`.
proof fn lema_github_limpio(ruta: Seq<char>)
    requires
        !(ruta.len() >= 4 && ruta.skip(ruta.len() - 4) == ".git"@),
    ensures
        sin_prefijo("github.com/"@ + ruta, "https://"@) == "github.com/"@ + ruta,
        sin_prefijo("github.com/"@ + ruta, "http://"@) == "github.com/"@ + ruta,
        sin_sufijo("github.com/"@ + ruta, ".git"@) == "github.com/"@ + ruta,
        ({
            let gr = "github.com/"@ + ruta;
            let pos = choose|i: int| es_primera(gr, "github.com/"@, i);
            (exists|i: int| es_primera(gr, "github.com/"@, i)) && gr.skip(
                pos + "github.com/"@.len(),
            ) == ruta
        }),
{
    reveal_strlit("https://");
    reveal_strlit("http://");
    reveal_strlit(".git");
    reveal_strlit("github.com/");
    let g = "github.com/"@;
    let gr = g + ruta;
    assert(gr.take(8) != "https://"@) by {
        assert(gr.take(8)[0] == 'g');
    }
    assert(gr.take(7) != "http://"@) by {
        assert(gr.take(7)[0] == 'g');
    }
    assert(gr.skip(gr.len() - 4) != ".git"@) by {
        if ruta.len() >= 4 {
            assert(gr.skip(gr.len() - 4) =~= ruta.skip(ruta.len() - 4));
        } else {
            let k = 3 - ruta.len();
            assert(gr.skip(gr.len() - 4)[k] == '/');
        }
    }
    assert(gr.subrange(0, g.len() as int) =~= g);
    assert(aparece_en(gr, g, 0));
    assert(es_primera(gr, g, 0));
    let pos = choose|i: int| es_primera(gr, g, i);
    assert(pos == 0) by {
        if pos > 0 {
            assert(!aparece_en(gr, g, 0));
        }
    }
    assert(gr.skip(g.len() as int) =~= ruta);
}

/// The address of a GitHub repository gives back `owner/repo`: with
/// `https://`, with `http://` or with no scheme, for a path that does not
/// end in `.git`; and with `.git` after such a path.
pub proof fn ley_repo_github(esquema: Seq<char>, ruta: Seq<char>, con_git: bool)
    requires
        esquema == "https://"@ || esquema == "http://"@ || esquema.len() == 0,
        !(ruta.len() >= 4 && ruta.skip(ruta.len() - 4) == ".git"@),
    ensures
        repo_github(esquema + "github.com/"@ + ruta + if con_git {
            ".git"@
        } else {
            Seq::empty()
        }) == Ok::<Seq<char>, Seq<char>>(ruta),
{
    reveal_strlit("https://");
    reveal_strlit("http://");
    reveal_strlit(".git");
    reveal_strlit("github.com/");
    lema_github_limpio(ruta);
    let g = "github.com/"@;
    let gr = g + ruta;
    let fin = if con_git {
        ".git"@
    } else {
        Seq::<char>::empty()
    };
    let u = esquema + g + ruta + fin;
    let grf = gr + fin;
    assert(u =~= esquema + grf);
    // The scheme goes, then nothing else at the front.
    assert(grf.take(8) != "https://"@) by {
        assert(grf.take(8)[0] == 'g');
    }
    assert(grf.take(7) != "http://"@) by {
        assert(grf.take(7)[0] == 'g');
    }
    assert(sin_prefijo(grf, "https://"@) == grf);
    assert(sin_prefijo(grf, "http://"@) == grf);
    if esquema == "https://"@ {
        assert(u.take(8) =~= "https://"@);
        assert(u.skip(8) =~= grf);
        assert(sin_prefijo(u, "https://"@) == grf);
    } else if esquema == "http://"@ {
        assert(u.take(8) != "https://"@) by {
            assert(u.take(8)[7] == 'g');
        }
        assert(sin_prefijo(u, "https://"@) == u);
        assert(u.take(7) =~= "http://"@);
        assert(u.skip(7) =~= grf);
        assert(sin_prefijo(u, "http://"@) == grf);
    } else {
        assert(u =~= grf);
    }
    // Then the `.git`, if any, goes.
    if con_git {
        assert(grf.skip(grf.len() - 4) =~= ".git"@);
        assert(grf.take(grf.len() - 4) =~= gr);
        assert(sin_sufijo(grf, ".git"@) == gr);
    } else {
        assert(grf =~= gr);
    }
    assert(direccion_limpia(u) == gr);
}

/// A text without white space: every character is not white space.
pub open spec fn sin_blancos(s: Seq<char>) -> bool {
    forall|i: int| 0 <= i < s.len() ==> !es_blanco(#[trigger] s[i])
}

/// Trimming leaves a text without white space alone.
proof fn lema_recortado_sin_blancos(s: Seq<char>)
    requires
        sin_blancos(s),
    ensures
        recortado(s) == s,
{
    if s.len() > 0 {
        assert(!es_blanco(s[0]));
        assert(!es_blanco(s[s.len() - 1]));
        lema_recortado_limpio(s);
    }
}

/// Stripping the leading `v`s of a text without white space leaves a
/// suffix without white space that does not start with `v`.
proof fn lema_sin_v(s: Seq<char>)
    requires
        sin_blancos(s),
    ensures
        sin_blancos(sin_prefijo(s, seq!['v'])),
        sin_prefijo(s, seq!['v']).len() == 0 || sin_prefijo(s, seq!['v'])[0] != 'v',
    decreases s.len(),
{
    if s.len() > 0 && s.take(1) == seq!['v'] {
        assert forall|i: int| 0 <= i < s.skip(1).len() implies !es_blanco(#[trigger] s.skip(1)[i]) by {
            assert(s.skip(1)[i] == s[i + 1]);
        }
        lema_sin_v(s.skip(1));
    } else if s.len() > 0 {
        assert(s.take(1)[0] == s[0]);
        assert(s[0] != 'v') by {
            if s[0] == 'v' {
                assert(s.take(1) =~= seq!['v']);
            }
        }
    }
}

/// Normalizing a version text without white space twice gives what
/// normalizing once gives.
pub proof fn ley_normalizar_idempotente(v: Seq<char>)
    requires
        sin_blancos(v),
    ensures
        version_normalizada(version_normalizada(v)) == version_normalizada(v),
{
    lema_recortado_sin_blancos(v);
    lema_sin_v(v);
    let w = sin_prefijo(v, seq!['v']);
    lema_recortado_sin_blancos(w);
    assert(version_normalizada(v) == w);
    assert(sin_prefijo(w, seq!['v']) == w) by {
        if w.len() > 0 {
            assert(w.take(1)[0] == w[0]);
        }
    }
}

} // verus!

verus! {

/// A requested version is found wherever its tag stands among the tags:
/// when the tag at any position `i` names it (once both are normalized),
/// validating it gives the normalized version; and validation succeeds only
/// when some tag names it.
pub proof fn ley_version_en_cualquier_posicion(repositorio: Seq<char>, version: Seq<char>, tags: Seq<TagGithub>, i: int)
    requires
        0 <= i < tags.len(),
        version_normalizada(tags[i].name@) == version_normalizada(version),
    ensures
        version_existente(repositorio, version, tags) == Ok::<Seq<char>, Seq<char>>(
            version_normalizada(version),
        ),
{
    assert(version_conocida(tags, version));
}

/// Validation fails for a version that no tag names, itself or normalized.
pub proof fn ley_version_ausente(repositorio: Seq<char>, version: Seq<char>, tags: Seq<TagGithub>)
    requires
        forall|i: int|
            0 <= i < tags.len() ==> version_normalizada(#[trigger] tags[i].name@)
                != version_normalizada(version) && tags[i].name@ != version,
    ensures
        version_existente(repositorio, version, tags) is Err,
{
}

/// `ump upgrade name@version` with a version that some tag names stays put
/// exactly when the current version, normalized, is the requested one
/// normalized; otherwise it goes to the requested version, newer or older.
pub proof fn ley_destino_fijado(actual: Seq<char>, pedida: Seq<char>, repositorio: Seq<char>, tags: Seq<TagGithub>, i: int)
    requires
        0 <= i < tags.len(),
        version_normalizada(tags[i].name@) == version_normalizada(pedida),
    ensures
        version_normalizada(actual) == version_normalizada(pedida) ==> destino(
            actual,
            Some(pedida),
            repositorio,
            tags,
        ) == Ok::<(Option<Seq<char>>, bool), Seq<char>>((None, true)),
        version_normalizada(actual) != version_normalizada(pedida) ==> destino(
            actual,
            Some(pedida),
            repositorio,
            tags,
        ) == Ok::<(Option<Seq<char>>, bool), Seq<char>>(
            (Some(version_normalizada(pedida)), false),
        ),
{
    ley_version_en_cualquier_posicion(repositorio, pedida, tags, i);
}

/// A requirement that `semver` accepts once trimmed is read as written:
/// the installed Umbral is checked against exactly that requirement, so the
/// check passes exactly when `semver` says the installed version matches it.
pub proof fn ley_requisito_declarado(proyecto: Seq<char>, requerida: Seq<char>, salida: Seq<char>)
    requires
        requisito_valido(recortado(requerida)),
    ensures
        requisito_leido(requerida) == Some(recortado(requerida)),
        version_en_salida(salida) matches Some(local) ==> (compatibilidad(
            proyecto,
            requerida,
            Some(salida),
        ) is Ok <==> requisito_cumplido(recortado(requerida), local)),
{
}

/// Where the current or the new version text is not a semantic version
/// (once normalized), the new one counts as newer exactly when the two
/// normalized texts differ; where both are, exactly when `semver` orders
/// the current one first.
pub proof fn ley_version_nueva(actual: Seq<char>, nueva: Seq<char>)
    ensures
        version_analizada(version_normalizada(actual)) is None || version_analizada(
            version_normalizada(nueva),
        ) is None ==> (es_nueva(actual, nueva) <==> version_normalizada(actual)
            != version_normalizada(nueva)),
        version_analizada(version_normalizada(actual)) is Some && version_analizada(
            version_normalizada(nueva),
        ) is Some ==> (es_nueva(actual, nueva) <==> version_precede(
            version_analizada(version_normalizada(actual))->0,
            version_analizada(version_normalizada(nueva))->0,
        )),
{
}

/// The installed version is read from the first word of the output of
/// `umbral --version` when that word looks like a version (it starts with
/// a digit or `v`): it is that word, normalized, as `semver` reads it.
pub proof fn ley_primera_palabra_de_salida(salida: Seq<char>)
    requires
        palabras(salida).len() > 0,
        palabras(salida)[0].len() > 0,
        palabras(salida)[0][0] == 'v' || ('0' <= palabras(salida)[0][0] && palabras(salida)[0][0]
            <= '9'),
    ensures
        version_en_salida(salida) == version_analizada(version_normalizada(palabras(salida)[0])),
{
}

} // verus!

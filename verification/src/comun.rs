//! What the commands share: version texts, package specifications,
//! repository addresses, tags, Umbral requirements and downloads.
use vstd::prelude::*;
use crate::texto::{
    aparece_en, buscar, buscar_ultimo, copiar, empieza, iguales, palabras, palabras_de,
    quitar_prefijo, quitar_sufijo, recortado, recortar, sin_prefijo, sin_sufijo, tramo, vistas,
};
use crate::version::{
    analizar_requisito, analizar_version, cumple, mostrar_version, precede, requisito_cumplido,
    es_version, requisito_valido, triple_menor, version_analizada, version_precede, RequisitoSemver,
    VersionSemver,
    VistaVersion,
};

verus! {

/// An entry of the global index: where a library lives and the Umbral
/// version it asks for.
#[derive(Debug, Clone)]
pub struct EntradaIndice {
    pub repository: String,
    pub umbral: String,
    pub exports: Option<Vec<String>>,
}

/// A tag published by a GitHub repository.
#[derive(Debug, Clone)]
pub struct TagGithub {
    pub name: String,
}

/// The view of an optional text.
pub open spec fn vista_opcion(o: Option<String>) -> Option<Seq<char>> {
    match o {
        Some(s) => Some(s@),
        None => None,
    }
}

/// The view of a result whose value and error are texts.
pub open spec fn vista_resultado(r: Result<String, String>) -> Result<Seq<char>, Seq<char>> {
    match r {
        Ok(s) => Ok(s@),
        Err(e) => Err(e@),
    }
}

/// A version text without surrounding white space and without its leading
/// `v`s (`1.0.0` for ` v1.0.0 `).
pub open spec fn version_normalizada(v: Seq<char>) -> Seq<char> {
    recortado(sin_prefijo(recortado(v), seq!['v']))
}

/// The Git tag of a version: the text itself when it starts with `v`,
/// else the text after a `v`.
pub open spec fn tag_de(v: Seq<char>) -> Seq<char> {
    if v.len() > 0 && v[0] == 'v' {
        v
    } else {
        seq!['v'] + v
    }
}

/// `i` is the last position of `c` in `s`.
pub open spec fn es_ultima(s: Seq<char>, c: char, i: int) -> bool {
    0 <= i < s.len() && s[i] == c && forall|j: int| i < j < s.len() ==> s[j] != c
}

/// `texto` cut at the last `sep` into a name and a version, both trimmed,
/// where there is such a `sep` and neither part is empty.
pub open spec fn division(texto: Seq<char>, sep: char) -> Option<(Seq<char>, Seq<char>)> {
    if exists|i: int| es_ultima(texto, sep, i) {
        let pos = choose|i: int| es_ultima(texto, sep, i);
        let nombre = recortado(texto.take(pos));
        let version = recortado(texto.skip(pos + 1));
        if nombre.len() == 0 || version.len() == 0 {
            None
        } else {
            Some((nombre, version))
        }
    } else {
        None
    }
}

/// A package specification read as `name@version`, else as
/// `name/version`, else as a bare name.
pub open spec fn especificacion(spec: Seq<char>) -> (Seq<char>, Option<Seq<char>>) {
    let texto = recortado(spec);
    match division(texto, '@') {
        Some((n, v)) => (n, Some(v)),
        None => match division(texto, '/') {
            Some((n, v)) => (n, Some(v)),
            None => (texto, None),
        },
    }
}

/// `i` is the first position of `p` in `s`.
pub open spec fn es_primera(s: Seq<char>, p: Seq<char>, i: int) -> bool {
    aparece_en(s, p, i) && forall|j: int| 0 <= j < i ==> !aparece_en(s, p, j)
}

/// A repository address without `https://`, `http://` and `.git`.
pub open spec fn direccion_limpia(url: Seq<char>) -> Seq<char> {
    sin_sufijo(sin_prefijo(sin_prefijo(url, "https://"@), "http://"@), ".git"@)
}

/// `owner/repo` of a GitHub address: what follows the first `github.com/`
/// of the cleaned address, or the error for an address without it.
pub open spec fn repo_github(url: Seq<char>) -> Result<Seq<char>, Seq<char>> {
    let limpia = direccion_limpia(url);
    if exists|i: int| es_primera(limpia, "github.com/"@, i) {
        let pos = choose|i: int| es_primera(limpia, "github.com/"@, i);
        Ok(limpia.skip(pos + "github.com/"@.len()))
    } else {
        Err("URL de repositorio no válida para GitHub: "@ + url)
    }
}

/// Removes surrounding white space and leading `v`s from a version text.
pub fn normalizar_version(version: &str) -> (r: String)
    ensures
        r@ == version_normalizada(version@),
{
    proof {
        reveal_strlit("v");
        assert("v"@ =~= seq!['v']);
    }
    let t = recortar(version);
    let u = quitar_prefijo(t.as_str(), "v");
    recortar(u.as_str())
}

/// The Git tag of a version (`1.0.0` gives `v1.0.0`).
pub fn tag_para_version(version: &str) -> (r: String)
    ensures
        r@ == tag_de(version@),
{
    proof {
        reveal_strlit("v");
        assert("v"@ =~= seq!['v']);
        if version@.len() > 0 {
            assert(version@.subrange(0, 1) =~= seq![version@[0]]);
        }
    }
    if empieza(version, "v") {
        assert(version@.subrange(0, 1)[0] == version@[0]);
        copiar(version)
    } else {
        assert(version@.len() > 0 ==> version@[0] != 'v') by {
            if version@.len() > 0 && version@[0] == 'v' {
                assert(version@.subrange(0, 1) =~= "v"@);
            }
        }
        let mut r = String::from_str("v");
        r.append(version);
        r
    }
}

/// Cuts `spec` at its last `sep` into a trimmed name and version, where
/// both are non-empty.
fn dividir_spec(spec: &str, sep: char) -> (r: Option<(String, String)>)
    ensures
        match r {
            Some((n, v)) => division(spec@, sep) == Some((n@, v@)),
            None => division(spec@, sep) is None,
        },
{
    match buscar_ultimo(spec, sep) {
        None => {
            assert(!exists|i: int| es_ultima(spec@, sep, i));
            None
        },
        Some(pos) => {
            assert(es_ultima(spec@, sep, pos as int));
            let ghost elegida = choose|i: int| es_ultima(spec@, sep, i);
            assert(elegida == pos) by {
                if elegida < pos {
                    assert(spec@[pos as int] != sep);
                } else if elegida > pos {
                    assert(spec@[elegida] != sep);
                }
            }
            let n = spec.unicode_len();
            let antes = tramo(spec, 0, pos);
            let despues = tramo(spec, pos + 1, n);
            assert(antes@ =~= spec@.take(pos as int));
            assert(despues@ =~= spec@.skip(pos + 1));
            let nombre = recortar(antes.as_str());
            let version = recortar(despues.as_str());
            if nombre.unicode_len() == 0 || version.unicode_len() == 0 {
                None
            } else {
                Some((nombre, version))
            }
        },
    }
}

/// Reads `name@version`, falling back to `name/version`, else a bare name.
pub fn parsear_especificacion(spec: &str) -> (r: (String, Option<String>))
    ensures
        (r.0@, vista_opcion(r.1)) == especificacion(spec@),
{
    let texto = recortar(spec);
    match dividir_spec(texto.as_str(), '@') {
        Some((n, v)) => (n, Some(v)),
        None => match dividir_spec(texto.as_str(), '/') {
            Some((n, v)) => (n, Some(v)),
            None => (texto, None),
        },
    }
}

/// Extracts `owner/repo` from a GitHub address.
pub fn extraer_repo_github(url: &str) -> (r: Result<String, String>)
    ensures
        vista_resultado(r) == repo_github(url@),
{
    proof {
        reveal_strlit("https://");
        reveal_strlit("http://");
        reveal_strlit(".git");
    }
    let a = quitar_prefijo(url, "https://");
    let b = quitar_prefijo(a.as_str(), "http://");
    let limpia = quitar_sufijo(b.as_str(), ".git");
    let marca = "github.com/";
    match buscar(limpia.as_str(), marca) {
        Some(pos) => {
            assert(es_primera(limpia@, marca@, pos as int));
            assert(exists|i: int| es_primera(limpia@, marca@, i));
            let ghost elegida = choose|i: int| es_primera(limpia@, marca@, i);
            assert(elegida == pos) by {
                if elegida < pos {
                } else if elegida > pos {
                    assert(!aparece_en(limpia@, marca@, pos as int));
                }
            }
            let n = limpia.unicode_len();
            let m = marca.unicode_len();
            let r = tramo(limpia.as_str(), pos + m, n);
            assert(r@ =~= limpia@.skip(pos + m));
            assert(limpia@ == direccion_limpia(url@));
            assert(r@ == repo_github(url@)->Ok_0);
            Ok(r)
        },
        None => {
            assert(!exists|i: int| es_primera(limpia@, marca@, i));
            let mut e = String::from_str("URL de repositorio no válida para GitHub: ");
            e.append(url);
            Err(e)
        },
    }
}

/// The names of the tags, in order.
pub open spec fn nombres(tags: Seq<TagGithub>) -> Seq<Seq<char>> {
    tags.map_values(|t: TagGithub| t.name@)
}

/// The texts of `partes` joined by `sep`.
pub open spec fn unidos(partes: Seq<Seq<char>>, sep: Seq<char>) -> Seq<char>
    decreases partes.len(),
{
    if partes.len() == 0 {
        Seq::empty()
    } else if partes.len() == 1 {
        partes[0]
    } else {
        unidos(partes.drop_last(), sep) + sep + partes.last()
    }
}

/// The names of the first ten tags (or fewer).
pub open spec fn recientes(tags: Seq<TagGithub>) -> Seq<Seq<char>> {
    nombres(tags).take(if tags.len() < 10 {
        tags.len() as int
    } else {
        10
    })
}

/// The message for a version that no tag names.
pub open spec fn mensaje_faltante(repositorio: Seq<char>, version: Seq<char>, tags: Seq<TagGithub>) -> Seq<char> {
    "La versión "@ + version + " no existe en el repositorio "@ + repositorio
        + ". Disponibles (recientes): "@ + unidos(recientes(tags), ", "@)
}

/// Some tag names `version`, itself or once both are normalized.
pub open spec fn version_conocida(tags: Seq<TagGithub>, version: Seq<char>) -> bool {
    exists|i: int|
        0 <= i < tags.len() && (version_normalizada(#[trigger] tags[i].name@) == version_normalizada(
            version,
        ) || tags[i].name@ == version)
}

/// What validating `version` against the tags gives: the normalized version
/// when some tag names it, else the message that lists recent tags.
pub open spec fn version_existente(repositorio: Seq<char>, version: Seq<char>, tags: Seq<TagGithub>) -> Result<Seq<char>, Seq<char>> {
    if version_conocida(tags, version) {
        Ok(version_normalizada(version))
    } else {
        Err(mensaje_faltante(repositorio, version, tags))
    }
}

/// The message for a version missing from the repository, with the first
/// ten tags.
fn explicar_faltante(repositorio: &str, version: &str, tags: &Vec<TagGithub>) -> (r: String)
    ensures
        r@ == mensaje_faltante(repositorio@, version@, tags@),
{
    let mut r = String::from_str("La versión ");
    r.append(version);
    r.append(" no existe en el repositorio ");
    r.append(repositorio);
    r.append(". Disponibles (recientes): ");
    let ghost inicio = r@;
    let tope: usize = if tags.len() < 10 {
        tags.len()
    } else {
        10
    };
    let mut i: usize = 0;
    while i < tope
        invariant
            tope <= tags@.len(),
            tope == recientes(tags@).len(),
            i <= tope,
            r@ == inicio + unidos(recientes(tags@).take(i as int), ", "@),
        decreases tope - i,
    {
        let ghost previo = recientes(tags@).take(i as int);
        if i > 0 {
            r.append(", ");
        }
        r.append(tags[i].name.as_str());
        proof {
            let ahora = recientes(tags@).take(i + 1);
            assert(ahora.drop_last() =~= previo);
            assert(ahora.last() == tags@[i as int].name@);
            if i == 0 {
                assert(ahora.len() == 1);
            }
        }
        i = i + 1;
    }
    assert(recientes(tags@).take(tope as int) =~= recientes(tags@));
    r
}

/// Validates that some tag names the version and gives it normalized.
pub fn validar_version_existe(repositorio: &str, version: &str, tags: &Vec<TagGithub>) -> (r: Result<String, String>)
    ensures
        vista_resultado(r) == version_existente(repositorio@, version@, tags@),
{
    let limpia = normalizar_version(version);
    let mut i: usize = 0;
    while i < tags.len()
        invariant
            limpia@ == version_normalizada(version@),
            i <= tags@.len(),
            forall|j: int|
                0 <= j < i ==> !(version_normalizada(#[trigger] tags@[j].name@) == version_normalizada(
                    version@,
                ) || tags@[j].name@ == version@),
        decreases tags@.len() - i,
    {
        let nombre = normalizar_version(tags[i].name.as_str());
        if iguales(nombre.as_str(), limpia.as_str()) || iguales(tags[i].name.as_str(), version) {
            assert(version_conocida(tags@, version@));
            return Ok(limpia);
        }
        i = i + 1;
    }
    Err(explicar_faltante(repositorio, version, tags))
}

/// The versions that the names give once normalized, in order, without
/// those that `semver` refuses.
pub open spec fn versiones_validas(nombres: Seq<Seq<char>>) -> Seq<VistaVersion>
    decreases nombres.len(),
{
    if nombres.len() == 0 {
        Seq::empty()
    } else {
        let previas = versiones_validas(nombres.drop_last());
        match version_analizada(version_normalizada(nombres.last())) {
            Some(v) => previas.push(v),
            None => previas,
        }
    }
}

/// The greatest of the versions, the last one among equals (what
/// `Iterator::max` gives).
pub open spec fn maximo(vs: Seq<VistaVersion>) -> Option<VistaVersion>
    decreases vs.len(),
{
    if vs.len() == 0 {
        None
    } else {
        match maximo(vs.drop_last()) {
            None => Some(vs.last()),
            Some(a) => if version_precede(vs.last(), a) {
                Some(a)
            } else {
                Some(vs.last())
            },
        }
    }
}

/// The latest semantic version among the tags, as `semver` writes it, or
/// the error for a repository without tags or without valid versions.
pub open spec fn ultima_version(repositorio: Seq<char>, tags: Seq<TagGithub>) -> Result<Seq<char>, Seq<char>> {
    if tags.len() == 0 {
        Err("No se encontraron versiones para el repositorio "@ + repositorio)
    } else {
        match maximo(versiones_validas(nombres(tags))) {
            Some(v) => Ok(mostrar_version(v)),
            None => Err("No se encontraron versiones semánticas válidas en "@ + repositorio),
        }
    }
}

/// The view of an optional version.
pub open spec fn vista_version(o: Option<VersionSemver>) -> Option<VistaVersion> {
    match o {
        Some(v) => Some(v@),
        None => None,
    }
}

/// The greatest of the versions has a major, minor and patch that none of
/// them exceeds.
pub open spec fn mayor_triple(vs: Seq<VistaVersion>) -> bool {
    match maximo(vs) {
        Some(m) => forall|j: int| 0 <= j < vs.len() ==> !triple_menor(m, #[trigger] vs[j]),
        None => true,
    }
}

/// No version precedes the greatest one in `semver`'s order.
pub open spec fn es_el_mayor(vs: Seq<VistaVersion>) -> bool {
    match maximo(vs) {
        Some(m) => forall|j: int| 0 <= j < vs.len() ==> !version_precede(m, #[trigger] vs[j]),
        None => true,
    }
}

/// Every entry is a version that `semver` reads from some text.
pub open spec fn todas_versiones(vs: Seq<VistaVersion>) -> bool {
    forall|j: int| 0 <= j < vs.len() ==> es_version(#[trigger] vs[j])
}

/// The latest semantic version among the repository's tags.
pub fn obtener_ultima_version(repositorio: &str, tags: &Vec<TagGithub>) -> (r: Result<String, String>)
    ensures
        vista_resultado(r) == ultima_version(repositorio@, tags@),
        r is Ok ==> mayor_triple(versiones_validas(nombres(tags@))),
        r is Ok ==> es_el_mayor(versiones_validas(nombres(tags@))),
{
    if tags.len() == 0 {
        let mut e = String::from_str("No se encontraron versiones para el repositorio ");
        e.append(repositorio);
        return Err(e);
    }
    let mut mejor: Option<VersionSemver> = None;
    let mut i: usize = 0;
    assert(nombres(tags@).take(0) =~= Seq::<Seq<char>>::empty());
    while i < tags.len()
        invariant
            i <= tags@.len(),
            vista_version(mejor) == maximo(versiones_validas(nombres(tags@).take(i as int))),
            mayor_triple(versiones_validas(nombres(tags@).take(i as int))),
            es_el_mayor(versiones_validas(nombres(tags@).take(i as int))),
            todas_versiones(versiones_validas(nombres(tags@).take(i as int))),
        decreases tags@.len() - i,
    {
        let ghost previas = nombres(tags@).take(i as int);
        proof {
            let ahora = nombres(tags@).take(i + 1);
            assert(ahora.drop_last() =~= previas);
            assert(ahora.last() == tags@[i as int].name@);
        }
        let texto = normalizar_version(tags[i].name.as_str());
        match analizar_version(texto.as_str()) {
            Ok(v) => {
                let ghost vs = versiones_validas(previas).push(v@);
                assert(vs.drop_last() =~= versiones_validas(previas));
                assert(es_version(v@)) by {
                    assert(version_analizada(texto@) == Some(v@));
                }
                assert(todas_versiones(vs)) by {
                    assert forall|j: int| 0 <= j < vs.len() implies es_version(#[trigger] vs[j]) by {
                        if j < vs.len() - 1 {
                            assert(vs[j] == versiones_validas(previas)[j]);
                        }
                    }
                }
                match mejor {
                    None => {
                        assert(versiones_validas(previas).len() == 0);
                        mejor = Some(v);
                    },
                    Some(a) => {
                        if precede(&v, &a) {
                            assert(!triple_menor(a@, v@));
                            assert forall|j: int| 0 <= j < vs.len() implies !version_precede(
                                a@,
                                #[trigger] vs[j],
                            ) by {
                                if j < vs.len() - 1 {
                                    assert(vs[j] == versiones_validas(previas)[j]);
                                }
                            }
                            mejor = Some(a);
                        } else {
                            assert(!triple_menor(v@, a@));
                            assert forall|j: int| 0 <= j < vs.len() implies !triple_menor(
                                v@,
                                #[trigger] vs[j],
                            ) by {
                                if j < vs.len() - 1 {
                                    assert(vs[j] == versiones_validas(previas)[j]);
                                    assert(!triple_menor(a@, vs[j]));
                                }
                            }
                            assert forall|j: int| 0 <= j < vs.len() implies !version_precede(
                                v@,
                                #[trigger] vs[j],
                            ) by {
                                if j < vs.len() - 1 {
                                    assert(vs[j] == versiones_validas(previas)[j]);
                                    assert(!version_precede(a@, vs[j]));
                                    assert(es_version(vs[j]));
                                }
                            }
                            mejor = Some(v);
                        }
                    },
                }
            },
            Err(_) => {},
        }
        i = i + 1;
    }
    assert(nombres(tags@).take(tags@.len() as int) =~= nombres(tags@));
    match mejor {
        Some(v) => Ok(v.texto()),
        None => {
            let mut e = String::from_str("No se encontraron versiones semánticas válidas en ");
            e.append(repositorio);
            Err(e)
        },
    }
}

/// Whether `nueva` is newer than `actual`: by `semver`'s order where both
/// normalized texts are versions, else whenever the normalized texts differ.
pub open spec fn es_nueva(actual: Seq<char>, nueva: Seq<char>) -> bool {
    let a = version_normalizada(actual);
    let n = version_normalizada(nueva);
    match (version_analizada(a), version_analizada(n)) {
        (Some(x), Some(y)) => version_precede(x, y),
        _ => n != a,
    }
}

/// Compares normalized versions and tells whether the new one is greater.
pub fn es_version_nueva(actual: &str, nueva: &str) -> (r: bool)
    ensures
        r == es_nueva(actual@, nueva@),
        actual@ == nueva@ ==> !r,
        version_normalizada(actual@) == version_normalizada(nueva@) ==> !r,
        match (
            version_analizada(version_normalizada(actual@)),
            version_analizada(version_normalizada(nueva@)),
        ) {
            (Some(x), Some(y)) => (x.0, x.1, x.2) != (y.0, y.1, y.2) ==> r == triple_menor(x, y),
            _ => true,
        },
{
    let a = normalizar_version(actual);
    let n = normalizar_version(nueva);
    match (analizar_version(a.as_str()), analizar_version(n.as_str())) {
        (Ok(base), Ok(candidata)) => precede(&base, &candidata),
        _ => !iguales(n.as_str(), a.as_str()),
    }
}

/// A word that looks like a version: it starts with `v` or with an ASCII
/// digit.
pub open spec fn es_token(t: Seq<char>) -> bool {
    t.len() > 0 && (t[0] == 'v' || ('0' <= t[0] && t[0] <= '9'))
}

/// The first word that looks like a version.
pub open spec fn primer_token(ws: Seq<Seq<char>>) -> Option<Seq<char>>
    decreases ws.len(),
{
    if ws.len() == 0 {
        None
    } else if es_token(ws[0]) {
        Some(ws[0])
    } else {
        primer_token(ws.drop_first())
    }
}

/// The version that the output of `umbral --version` reports: its first
/// word that looks like a version, normalized and read by `semver`.
pub open spec fn version_en_salida(salida: Seq<char>) -> Option<VistaVersion> {
    match primer_token(palabras(salida)) {
        Some(t) => version_analizada(version_normalizada(t)),
        None => None,
    }
}

/// Whether a word looks like a version.
fn es_token_version(token: &str) -> (r: bool)
    ensures
        r == es_token(token@),
{
    if token.unicode_len() == 0 {
        return false;
    }
    let c = token.get_char(0);
    c == 'v' || ('0' <= c && c <= '9')
}

/// The version reported by the output of `umbral --version`.
pub fn extraer_version_salida(salida: &str) -> (r: Option<VersionSemver>)
    ensures
        vista_version(r) == version_en_salida(salida@),
{
    let ws = palabras_de(salida);
    let mut i: usize = 0;
    assert(vistas(ws@).skip(0) =~= vistas(ws@));
    while i < ws.len()
        invariant
            i <= ws@.len(),
            primer_token(palabras(salida@)) == primer_token(vistas(ws@).skip(i as int)),
            vistas(ws@) == palabras(salida@),
        decreases ws@.len() - i,
    {
        let ghost resto = vistas(ws@).skip(i as int);
        assert(resto[0] == ws@[i as int]@);
        if es_token_version(ws[i].as_str()) {
            let t = normalizar_version(ws[i].as_str());
            return match analizar_version(t.as_str()) {
                Ok(v) => Some(v),
                Err(_) => None,
            };
        }
        assert(resto.drop_first() =~= vistas(ws@).skip(i + 1));
        i = i + 1;
    }
    None
}

/// A requirement text without leading `>=`s and `^`s and without
/// surrounding white space.
pub open spec fn base_version(s: Seq<char>) -> Seq<char> {
    recortado(sin_prefijo(sin_prefijo(s, ">="@), "^"@))
}

/// The text that is read as the Umbral requirement: the trimmed text when
/// `semver` takes it as a requirement, else `>=` and its base when the base
/// is a version; none otherwise.
pub open spec fn requisito_leido(requerida: Seq<char>) -> Option<Seq<char>> {
    if requisito_valido(recortado(requerida)) {
        Some(recortado(requerida))
    } else if version_analizada(base_version(requerida)) is Some && requisito_valido(
        ">="@ + base_version(requerida),
    ) {
        Some(">="@ + base_version(requerida))
    } else {
        None
    }
}

/// The message for a required Umbral version that cannot be read.
pub open spec fn mensaje_requisito_invalido(requerida: Seq<char>) -> Seq<char> {
    "Versión Umbral requerida inválida: "@ + requerida
}

/// A requirement text without leading `>=`s and `^`s, trimmed.
fn base_de(version: &str) -> (r: String)
    ensures
        r@ == base_version(version@),
{
    proof {
        reveal_strlit(">=");
        reveal_strlit("^");
    }
    let a = quitar_prefijo(version, ">=");
    let b = quitar_prefijo(a.as_str(), "^");
    recortar(b.as_str())
}

/// Reads a requirement without operator as `>=` that version.
fn requisito_sin_operador(requerida: &str) -> (r: Option<RequisitoSemver>)
    ensures
        match r {
            Some(q) => version_analizada(base_version(requerida@)) is Some && requisito_valido(
                ">="@ + base_version(requerida@),
            ) && q@ == ">="@ + base_version(requerida@),
            None => !(version_analizada(base_version(requerida@)) is Some && requisito_valido(
                ">="@ + base_version(requerida@),
            )),
        },
{
    let base = base_de(requerida);
    match analizar_version(base.as_str()) {
        Err(_) => None,
        Ok(_) => {
            let mut texto = String::from_str(">=");
            texto.append(base.as_str());
            match analizar_requisito(texto.as_str()) {
                Ok(q) => Some(q),
                Err(_) => None,
            }
        },
    }
}

/// Reads the Umbral requirement a library declares.
fn requisito_umbral(requerida: &str) -> (r: Result<RequisitoSemver, String>)
    ensures
        match r {
            Ok(q) => requisito_leido(requerida@) == Some(q@),
            Err(e) => requisito_leido(requerida@) is None && e@ == mensaje_requisito_invalido(
                requerida@,
            ),
        },
{
    let t = recortar(requerida);
    match analizar_requisito(t.as_str()) {
        Ok(q) => Ok(q),
        Err(_) => match requisito_sin_operador(requerida) {
            Some(q) => Ok(q),
            None => {
                let mut e = String::from_str("Versión Umbral requerida inválida: ");
                e.append(requerida);
                Err(e)
            },
        },
    }
}

/// The view of a result without value whose error is a text.
pub open spec fn vista_unidad(r: Result<(), String>) -> Result<(), Seq<char>> {
    match r {
        Ok(()) => Ok(()),
        Err(e) => Err(e@),
    }
}

/// The project's Umbral version against the required one, both read from
/// their bases: the requirement fails when the project's base precedes the
/// required base.
pub open spec fn base_proyecto(proyecto: Seq<char>, requerida: Seq<char>) -> Result<(), Seq<char>> {
    match version_analizada(base_version(requerida)) {
        None => Err(mensaje_requisito_invalido(requerida)),
        Some(r) => match version_analizada(base_version(proyecto)) {
            None => Err("Versión Umbral del proyecto inválida: "@ + proyecto),
            Some(p) => if version_precede(p, r) {
                Err("La librería requiere Umbral "@ + requerida + " pero el proyecto usa "@ + proyecto)
            } else {
                Ok(())
            },
        },
    }
}

/// Whether the Umbral requirement holds: against the installed Umbral when
/// its output reports a version, else against the project's declared
/// Umbral version.
pub open spec fn compatibilidad(proyecto: Seq<char>, requerida: Seq<char>, salida: Option<Seq<char>>) -> Result<(), Seq<char>> {
    match requisito_leido(requerida) {
        None => Err(mensaje_requisito_invalido(requerida)),
        Some(q) => match (match salida {
            Some(s) => version_en_salida(s),
            None => None,
        }) {
            Some(local) => if requisito_cumplido(q, local) {
                Ok(())
            } else {
                Err(
                    "La librería requiere Umbral "@ + requerida + " pero tienes instalado "@
                        + mostrar_version(local),
                )
            },
            None => base_proyecto(proyecto, requerida),
        },
    }
}

/// Validates the requirement against the installed Umbral.
fn validar_umbral_local(requisito: &RequisitoSemver, local: &VersionSemver, requerida: &str) -> (r: Result<(), String>)
    ensures
        vista_unidad(r) == if requisito_cumplido(requisito@, local@) {
            Ok(())
        } else {
            Err(
                "La librería requiere Umbral "@ + requerida@ + " pero tienes instalado "@
                    + mostrar_version(local@),
            )
        },
{
    if cumple(requisito, local) {
        Ok(())
    } else {
        let mut e = String::from_str("La librería requiere Umbral ");
        e.append(requerida);
        e.append(" pero tienes instalado ");
        let t = local.texto();
        e.append(t.as_str());
        Err(e)
    }
}

/// Validates the project's declared Umbral version against the required
/// one. Equal bases are accepted, and a project whose base does not precede
/// an accepted one is accepted too.
pub fn validar_base_proyecto(proyecto: &str, requerida: &str) -> (r: Result<(), String>)
    ensures
        vista_unidad(r) == base_proyecto(proyecto@, requerida@),
        version_analizada(base_version(proyecto@)) is Some && version_analizada(
            base_version(proyecto@),
        ) == version_analizada(base_version(requerida@)) ==> r is Ok,
        r is Ok ==> forall|t: Seq<char>|
            #![trigger version_analizada(base_version(t))]
            version_analizada(base_version(t)) is Some && !version_precede(
                version_analizada(base_version(t))->0,
                version_analizada(base_version(proyecto@))->0,
            ) ==> base_proyecto(t, requerida@) is Ok,
{
    let br = base_de(requerida);
    let base_req = match analizar_version(br.as_str()) {
        Ok(v) => v,
        Err(_) => {
            let mut e = String::from_str("Versión Umbral requerida inválida: ");
            e.append(requerida);
            return Err(e);
        },
    };
    let bp = base_de(proyecto);
    let base_proy = match analizar_version(bp.as_str()) {
        Ok(v) => v,
        Err(_) => {
            let mut e = String::from_str("Versión Umbral del proyecto inválida: ");
            e.append(proyecto);
            return Err(e);
        },
    };
    let menor = precede(&base_proy, &base_req);
    proof {
        if !menor {
            assert forall|t: Seq<char>|
                #![trigger version_analizada(base_version(t))]
                version_analizada(base_version(t)) is Some && !version_precede(
                    version_analizada(base_version(t))->0,
                    base_proy@,
                ) implies base_proyecto(t, requerida@) is Ok by {
                let q = version_analizada(base_version(t))->0;
                assert(es_version(q));
            }
        }
    }
    if menor {
        let mut e = String::from_str("La librería requiere Umbral ");
        e.append(requerida);
        e.append(" pero el proyecto usa ");
        e.append(proyecto);
        Err(e)
    } else {
        Ok(())
    }
}

/// Validates the Umbral requirement of a library against the installed Umbral
/// (`salida_umbral` is what `umbral --version` printed, when it ran
/// successfully) or, without one, against the project's Umbral version.
pub fn validar_compatibilidad_umbral(
    version_proyecto: &str,
    version_requerida: &str,
    salida_umbral: Option<&str>,
) -> (r: Result<(), String>)
    ensures
        vista_unidad(r) == compatibilidad(
            version_proyecto@,
            version_requerida@,
            match salida_umbral {
                Some(s) => Some(s@),
                None => None,
            },
        ),
{
    let requisito = requisito_umbral(version_requerida)?;
    let local = match salida_umbral {
        Some(s) => extraer_version_salida(s),
        None => None,
    };
    match local {
        Some(v) => validar_umbral_local(&requisito, &v, version_requerida),
        None => validar_base_proyecto(version_proyecto, version_requerida),
    }
}

/// The address of the `umpkg.yml` of a tag of the GitHub repository `ruta`.
pub open spec fn url_umpkg(ruta: Seq<char>, tag: Seq<char>) -> Seq<char> {
    "https://raw.githubusercontent.com/"@ + ruta + "/"@ + tag + "/umpkg.yml"@
}

/// Where the Umbral requirement of a version is read, in order: the
/// `umpkg.yml` at the version's tag, then at the bare version; nowhere for
/// a repository that is not on GitHub.
pub open spec fn urls_umbral(repositorio: Seq<char>, version: Seq<char>) -> Seq<Seq<char>> {
    match repo_github(repositorio) {
        Err(_) => Seq::empty(),
        Ok(ruta) => seq![
            url_umpkg(ruta, tag_de(version_normalizada(version))),
            url_umpkg(ruta, version_normalizada(version)),
        ],
    }
}

/// A declared Umbral requirement counts unless it is blank.
pub open spec fn umbral_util(leido: Option<Seq<char>>) -> Option<Seq<char>> {
    match leido {
        Some(u) => if recortado(u).len() == 0 {
            None
        } else {
            Some(u)
        },
        None => None,
    }
}

/// The first requirement among the reads that counts.
pub open spec fn primer_umbral(lecturas: Seq<Option<Seq<char>>>) -> Option<Seq<char>>
    decreases lecturas.len(),
{
    if lecturas.len() == 0 {
        None
    } else {
        match umbral_util(lecturas[0]) {
            Some(u) => Some(u),
            None => primer_umbral(lecturas.drop_first()),
        }
    }
}

/// The lookup of the Umbral requirement that a version of a library
/// declares: the addresses to read in order, and what was read of each so
/// far. It stops at the first non-blank requirement.
pub struct BusquedaUmbral {
    urls: Vec<String>,
    lecturas: Ghost<Seq<Option<Seq<char>>>>,
    siguiente: usize,
    hallado: Option<String>,
}

impl BusquedaUmbral {
    /// The addresses to read.
    pub closed spec fn direcciones(&self) -> Seq<Seq<char>> {
        vistas(self.urls@)
    }

    /// What was read so far, address by address.
    pub closed spec fn leidas(&self) -> Seq<Option<Seq<char>>> {
        self.lecturas@
    }

    /// The lookup's invariant.
    pub closed spec fn wf(&self) -> bool {
        &&& self.siguiente == self.lecturas@.len()
        &&& self.siguiente <= self.urls@.len()
        &&& vista_opcion(self.hallado) == primer_umbral(self.lecturas@)
    }

    /// The address to read next, if the lookup goes on.
    pub open spec fn por_leer(&self) -> Option<Seq<char>> {
        if primer_umbral(self.leidas()) is None && self.leidas().len() < self.direcciones().len() {
            Some(self.direcciones()[self.leidas().len() as int])
        } else {
            None
        }
    }

    /// The address to read next, if the lookup goes on.
    pub fn pendiente(&self) -> (r: Option<String>)
        requires
            self.wf(),
        ensures
            vista_opcion(r) == self.por_leer(),
    {
        if self.hallado.is_none() && self.siguiente < self.urls.len() {
            Some(copiar(self.urls[self.siguiente].as_str()))
        } else {
            None
        }
    }

    /// Records what was read at the pending address: the `umbral` field of
    /// its `umpkg.yml`, or none where it could not be fetched or read.
    pub fn registrar(&mut self, leido: Option<String>)
        requires
            old(self).wf(),
            old(self).por_leer() is Some,
        ensures
            final(self).wf(),
            final(self).direcciones() == old(self).direcciones(),
            final(self).leidas() == old(self).leidas().push(vista_opcion(leido)),
    {
        let total = self.urls.len();
        assert(self.siguiente < total) by {
            assert(self.direcciones().len() == self.urls@.len());
        }
        let ghost previas = self.lecturas@;
        let ghost nuevas = previas.push(vista_opcion(leido));
        proof {
            lema_primer_umbral_push(previas, vista_opcion(leido));
            assert(self.direcciones().len() == self.urls@.len());
        }
        let util = match leido {
            Some(u) => {
                let t = recortar(u.as_str());
                if t.unicode_len() == 0 {
                    None
                } else {
                    Some(u)
                }
            },
            None => None,
        };
        self.hallado = util;
        self.lecturas = Ghost(nuevas);
        self.siguiente = self.siguiente + 1;
    }

    /// The requirement found, or `respaldo` (the index's) when none was.
    pub fn resultado_o(&self, respaldo: &str) -> (r: String)
        requires
            self.wf(),
        ensures
            r@ == match primer_umbral(self.leidas()) {
                Some(u) => u,
                None => respaldo@,
            },
    {
        match &self.hallado {
            Some(u) => copiar(u.as_str()),
            None => copiar(respaldo),
        }
    }

    /// The requirement found, if any.
    pub fn resultado(&self) -> (r: Option<String>)
        requires
            self.wf(),
        ensures
            vista_opcion(r) == primer_umbral(self.leidas()),
    {
        match &self.hallado {
            Some(u) => Some(copiar(u.as_str())),
            None => None,
        }
    }
}

/// Reading one more address extends the first requirement found only when
/// none was found before.
proof fn lema_primer_umbral_push(previas: Seq<Option<Seq<char>>>, nueva: Option<Seq<char>>)
    requires
        primer_umbral(previas) is None,
    ensures
        primer_umbral(previas.push(nueva)) == umbral_util(nueva),
    decreases previas.len(),
{
    assert(previas.push(nueva)[0] == if previas.len() == 0 {
        nueva
    } else {
        previas[0]
    });
    if previas.len() == 0 {
        assert(previas.push(nueva).drop_first() =~= Seq::<Option<Seq<char>>>::empty());
        assert(primer_umbral(Seq::<Option<Seq<char>>>::empty()) is None);
    } else {
        assert(previas.push(nueva).drop_first() =~= previas.drop_first().push(nueva));
        lema_primer_umbral_push(previas.drop_first(), nueva);
    }
}

/// The address of the `umpkg.yml` of a tag.
fn url_de(ruta: &str, tag: &str) -> (r: String)
    ensures
        r@ == url_umpkg(ruta@, tag@),
{
    let mut r = String::from_str("https://raw.githubusercontent.com/");
    r.append(ruta);
    r.append("/");
    r.append(tag);
    r.append("/umpkg.yml");
    r
}

/// Starts the lookup of the Umbral requirement that `version` of the
/// repository declares.
pub fn umbral_de_version(repositorio: &str, version: &str) -> (r: BusquedaUmbral)
    ensures
        r.wf(),
        r.direcciones() == urls_umbral(repositorio@, version@),
        r.leidas() == Seq::<Option<Seq<char>>>::empty(),
{
    let mut urls: Vec<String> = Vec::new();
    match extraer_repo_github(repositorio) {
        Ok(ruta) => {
            let normal = normalizar_version(version);
            let tag = tag_para_version(normal.as_str());
            urls.push(url_de(ruta.as_str(), tag.as_str()));
            urls.push(url_de(ruta.as_str(), normal.as_str()));
        },
        Err(_) => {},
    }
    let r = BusquedaUmbral { urls, lecturas: Ghost(Seq::empty()), siguiente: 0, hallado: None };
    assert(vistas(r.urls@) =~= urls_umbral(repositorio@, version@));
    r
}

/// How a path is joined to a directory: an absolute path replaces it,
/// else a `/` separates them unless the directory is empty or already ends
/// with one (what `Path::join` does on Unix).
pub open spec fn unir_ruta(dir: Seq<char>, p: Seq<char>) -> Seq<char> {
    if p.len() > 0 && p[0] == '/' {
        p
    } else if dir.len() == 0 || dir.last() == '/' {
        dir + p
    } else {
        dir + seq!['/'] + p
    }
}

/// Joins a path to a directory like `Path::join` on Unix.
pub fn unir(dir: &str, p: &str) -> (r: String)
    ensures
        r@ == unir_ruta(dir@, p@),
{
    proof {
        reveal_strlit("/");
    }
    let n = dir.unicode_len();
    if p.unicode_len() > 0 && p.get_char(0) == '/' {
        copiar(p)
    } else if n == 0 || dir.get_char(n - 1) == '/' {
        let mut r = copiar(dir);
        r.append(p);
        r
    } else {
        let mut r = copiar(dir);
        r.append("/");
        r.append(p);
        r
    }
}

/// How a package is brought into the modules directory: the directory it
/// goes to (removed first if it exists), the tag to clone, the arguments
/// of `git`, and the `.git` directory removed afterwards.
pub struct PlanDescarga {
    pub destino: String,
    pub tag: String,
    pub argumentos: Vec<String>,
    pub ruta_git: String,
}

/// Whether `p` plans the shallow clone of the tag of `version` of
/// `repositorio` into `directorio_modulos/nombre`.
pub open spec fn es_plan(p: PlanDescarga, nombre: Seq<char>, repositorio: Seq<char>, version: Seq<char>, directorio_modulos: Seq<char>) -> bool {
    &&& p.destino@ == unir_ruta(directorio_modulos, nombre)
    &&& p.tag@ == tag_de(version)
    &&& vistas(p.argumentos@) == seq![
        "clone"@,
        "--depth"@,
        "1"@,
        "--branch"@,
        tag_de(version),
        repositorio,
        unir_ruta(directorio_modulos, nombre),
    ]
    &&& p.ruta_git@ == unir_ruta(unir_ruta(directorio_modulos, nombre), ".git"@)
}

/// Plans the shallow clone of the version's tag into
/// `directorio_modulos/nombre`.
pub fn descargar_paquete(nombre: &str, repositorio: &str, version: &str, directorio_modulos: &str) -> (r: PlanDescarga)
    ensures
        es_plan(r, nombre@, repositorio@, version@, directorio_modulos@),
        r.destino@ == unir_ruta(directorio_modulos@, nombre@),
        r.tag@ == tag_de(version@),
        vistas(r.argumentos@) == seq![
            "clone"@,
            "--depth"@,
            "1"@,
            "--branch"@,
            tag_de(version@),
            repositorio@,
            unir_ruta(directorio_modulos@, nombre@),
        ],
        r.ruta_git@ == unir_ruta(unir_ruta(directorio_modulos@, nombre@), ".git"@),
{
    let destino = unir(directorio_modulos, nombre);
    let tag = tag_para_version(version);
    let mut argumentos: Vec<String> = Vec::new();
    argumentos.push(String::from_str("clone"));
    argumentos.push(String::from_str("--depth"));
    argumentos.push(String::from_str("1"));
    argumentos.push(String::from_str("--branch"));
    argumentos.push(copiar(tag.as_str()));
    argumentos.push(copiar(repositorio));
    argumentos.push(copiar(destino.as_str()));
    let ruta_git = unir(destino.as_str(), ".git");
    assert(vistas(argumentos@) =~= seq![
        "clone"@,
        "--depth"@,
        "1"@,
        "--branch"@,
        tag_de(version@),
        repositorio@,
        unir_ruta(directorio_modulos@, nombre@),
    ]);
    PlanDescarga { destino, tag, argumentos, ruta_git }
}

/// The lowercase form of a text (`str::to_lowercase`).
pub uninterp spec fn minusculas_de(s: Seq<char>) -> Seq<char>;

/// A text made of ASCII characters only.
pub open spec fn todo_ascii(s: Seq<char>) -> bool {
    forall|i: int| 0 <= i < s.len() ==> (#[trigger] s[i] as u32) < 128
}

/// The ASCII lowercase of a character: `A` to `Z` become `a` to `z`, any
/// other character stays.
pub open spec fn minuscula_ascii(c: char) -> char {
    if 'A' <= c && c <= 'Z' {
        ((c as u32) + 32) as char
    } else {
        c
    }
}

/// Calls `str::to_lowercase`; the contract claims the result is
/// `minusculas_de` of the text (a function of the text alone), that it is
/// empty exactly when the text is (every character has a lowercase form of
/// one or more characters), and that an ASCII text is lowered letter by
/// letter.
#[verifier::external_body]
fn minusculas(s: &str) -> (r: String)
    ensures
        r@ == minusculas_de(s@),
        r@.len() == 0 <==> s@.len() == 0,
        todo_ascii(s@) ==> r@ == s@.map_values(|c: char| minuscula_ascii(c)),
{
    s.to_lowercase()
}

/// An answer accepts when, trimmed and in lowercase, it is empty (yes is the
/// default) or one of `s`, `si`, `sí`, `y`, `yes`.
pub open spec fn afirmativa(entrada: Seq<char>) -> bool {
    acepta(minusculas_de(recortado(entrada)))
}

/// A lowercase answer that accepts: empty, `s`, `si`, `sí`, `y` or `yes`.
pub open spec fn acepta(t: Seq<char>) -> bool {
    t.len() == 0 || t == "s"@ || t == "si"@ || t == "sí"@ || t == "y"@ || t == "yes"@
}

/// Whether an answer to a `[S/n]` question accepts.
pub fn respuesta_afirmativa(entrada: &str) -> (r: bool)
    ensures
        r == afirmativa(entrada@),
        recortado(entrada@).len() == 0 ==> r,
        todo_ascii(recortado(entrada@)) ==> r == acepta(
            recortado(entrada@).map_values(|c: char| minuscula_ascii(c)),
        ),
{
    let t = recortar(entrada);
    let texto = minusculas(t.as_str());
    let x = texto.as_str();
    x.unicode_len() == 0 || iguales(x, "s") || iguales(x, "si") || iguales(x, "sí") || iguales(
        x,
        "y",
    ) || iguales(x, "yes")
}

/// The GitHub API address that lists the tags of a repository.
pub open spec fn url_tags(repositorio: Seq<char>) -> Result<Seq<char>, Seq<char>> {
    match repo_github(repositorio) {
        Ok(ruta) => Ok("https://api.github.com/repos/"@ + ruta + "/tags"@),
        Err(e) => Err(e),
    }
}

/// The GitHub API address that lists the tags of a repository, or the
/// error for an address that is not on GitHub.
pub fn url_tags_github(repositorio: &str) -> (r: Result<String, String>)
    ensures
        vista_resultado(r) == url_tags(repositorio@),
{
    let ruta = extraer_repo_github(repositorio)?;
    let mut u = String::from_str("https://api.github.com/repos/");
    u.append(ruta.as_str());
    u.append("/tags");
    Ok(u)
}

} // verus!

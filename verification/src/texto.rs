use vstd::prelude::*;

verus! {

/// Whether `c` is a Unicode `White_Space` character: the set that
/// `char::is_whitespace` accepts and that `str::trim` removes.
pub open spec fn es_blanco(c: char) -> bool {
    ||| ('\u{9}' <= c && c <= '\u{d}')
    ||| c == ' '
    ||| c == '\u{85}'
    ||| c == '\u{a0}'
    ||| c == '\u{1680}'
    ||| ('\u{2000}' <= c && c <= '\u{200a}')
    ||| c == '\u{2028}'
    ||| c == '\u{2029}'
    ||| c == '\u{202f}'
    ||| c == '\u{205f}'
    ||| c == '\u{3000}'
}

/// `s` without its leading white space.
pub open spec fn sin_blancos_inicio(s: Seq<char>) -> Seq<char>
    decreases s.len(),
{
    if s.len() > 0 && es_blanco(s[0]) {
        sin_blancos_inicio(s.drop_first())
    } else {
        s
    }
}

/// `s` without its trailing white space.
pub open spec fn sin_blancos_fin(s: Seq<char>) -> Seq<char>
    decreases s.len(),
{
    if s.len() > 0 && es_blanco(s.last()) {
        sin_blancos_fin(s.drop_last())
    } else {
        s
    }
}

/// `s` without white space at either end (what `str::trim` gives).
pub open spec fn recortado(s: Seq<char>) -> Seq<char> {
    sin_blancos_fin(sin_blancos_inicio(s))
}

/// `s` with every leading repetition of the non-empty pattern `p` removed
/// (what `str::trim_start_matches` gives).
pub open spec fn sin_prefijo(s: Seq<char>, p: Seq<char>) -> Seq<char>
    decreases s.len(),
{
    if p.len() > 0 && p.len() <= s.len() && s.take(p.len() as int) == p {
        sin_prefijo(s.skip(p.len() as int), p)
    } else {
        s
    }
}

/// `s` with every trailing repetition of the non-empty pattern `p` removed
/// (what `str::trim_end_matches` gives).
pub open spec fn sin_sufijo(s: Seq<char>, p: Seq<char>) -> Seq<char>
    decreases s.len(),
{
    if p.len() > 0 && p.len() <= s.len() && s.skip(s.len() - p.len()) == p {
        sin_sufijo(s.take(s.len() - p.len()), p)
    } else {
        s
    }
}

/// `p` occurs in `s` starting at position `i`.
pub open spec fn aparece_en(s: Seq<char>, p: Seq<char>, i: int) -> bool {
    0 <= i && i + p.len() <= s.len() && s.subrange(i, i + p.len()) == p
}

/// `s` starts with `p`.
pub open spec fn empieza_por(s: Seq<char>, p: Seq<char>) -> bool {
    aparece_en(s, p, 0)
}

/// Executable test of `es_blanco`.
pub fn blanco(c: char) -> (r: bool)
    ensures
        r == es_blanco(c),
{
    ('\u{9}' <= c && c <= '\u{d}') || c == ' ' || c == '\u{85}' || c == '\u{a0}' || c
        == '\u{1680}' || ('\u{2000}' <= c && c <= '\u{200a}') || c == '\u{2028}' || c
        == '\u{2029}' || c == '\u{202f}' || c == '\u{205f}' || c == '\u{3000}'
}

/// The characters of `s` from `desde` (included) to `hasta` (excluded).
pub fn tramo(s: &str, desde: usize, hasta: usize) -> (r: String)
    requires
        desde <= hasta <= s@.len(),
    ensures
        r@ == s@.subrange(desde as int, hasta as int),
{
    String::from_str(s.substring_char(desde, hasta))
}

/// A fresh copy of `s`.
pub fn copiar(s: &str) -> (r: String)
    ensures
        r@ == s@,
{
    String::from_str(s)
}

/// `s` without white space at either end, like `str::trim`.
pub fn recortar(s: &str) -> (r: String)
    ensures
        r@ == recortado(s@),
{
    let n = s.unicode_len();
    let mut i: usize = 0;
    assert(s@.subrange(0, n as int) =~= s@);
    while i < n && blanco(s.get_char(i))
        invariant
            n == s@.len(),
            i <= n,
            sin_blancos_inicio(s@) == sin_blancos_inicio(s@.subrange(i as int, n as int)),
        decreases n - i,
    {
        assert(s@.subrange(i as int, n as int).drop_first() =~= s@.subrange(i + 1, n as int));
        i = i + 1;
    }
    let ghost medio = s@.subrange(i as int, n as int);
    assert(sin_blancos_inicio(medio) == medio);
    let mut j: usize = n;
    while j > i && blanco(s.get_char(j - 1))
        invariant
            n == s@.len(),
            i <= j <= n,
            sin_blancos_inicio(s@) == medio,
            medio == s@.subrange(i as int, n as int),
            sin_blancos_fin(medio) == sin_blancos_fin(s@.subrange(i as int, j as int)),
        decreases j - i,
    {
        assert(s@.subrange(i as int, j as int).drop_last() =~= s@.subrange(i as int, j - 1));
        j = j - 1;
    }
    tramo(s, i, j)
}

/// Whether `p` occurs in `s` at position `i`.
pub fn aparece(s: &str, p: &str, i: usize) -> (r: bool)
    ensures
        r == aparece_en(s@, p@, i as int),
{
    let n = s.unicode_len();
    let m = p.unicode_len();
    if i > n || m > n - i {
        return false;
    }
    let mut k: usize = 0;
    while k < m
        invariant
            n == s@.len(),
            m == p@.len(),
            i + m <= n,
            k <= m,
            forall|t: int| 0 <= t < k ==> s@[i + t] == p@[t],
        decreases m - k,
    {
        if s.get_char(i + k) != p.get_char(k) {
            assert(s@.subrange(i as int, i + m)[k as int] != p@[k as int]);
            return false;
        }
        k = k + 1;
    }
    assert(s@.subrange(i as int, i + m) =~= p@);
    true
}

/// Whether `s` starts with `p`.
pub fn empieza(s: &str, p: &str) -> (r: bool)
    ensures
        r == empieza_por(s@, p@),
{
    aparece(s, p, 0)
}

/// Whether the two texts are equal.
pub fn iguales(a: &str, b: &str) -> (r: bool)
    ensures
        r == (a@ == b@),
{
    let r = a.unicode_len() == b.unicode_len() && aparece(a, b, 0);
    proof {
        if a@.len() == b@.len() {
            assert(a@.subrange(0, b@.len() as int) =~= a@);
        }
    }
    r
}

/// `s` with the leading repetitions of `p` removed, like
/// `str::trim_start_matches`.
pub fn quitar_prefijo(s: &str, p: &str) -> (r: String)
    requires
        p@.len() > 0,
    ensures
        r@ == sin_prefijo(s@, p@),
{
    let n = s.unicode_len();
    let m = p.unicode_len();
    let mut i: usize = 0;
    assert(s@.subrange(0, n as int) =~= s@);
    while aparece(s, p, i)
        invariant
            n == s@.len(),
            m == p@.len(),
            m > 0,
            i <= n,
            sin_prefijo(s@, p@) == sin_prefijo(s@.subrange(i as int, n as int), p@),
        decreases n - i,
    {
        let ghost resto = s@.subrange(i as int, n as int);
        assert(resto.take(m as int) =~= p@);
        assert(resto.skip(m as int) =~= s@.subrange(i + m, n as int));
        i = i + m;
    }
    let ghost resto = s@.subrange(i as int, n as int);
    assert(!(m <= resto.len() && resto.take(m as int) == p@)) by {
        if m <= resto.len() && resto.take(m as int) == p@ {
            assert(s@.subrange(i as int, i + m) =~= resto.take(m as int));
        }
    }
    tramo(s, i, n)
}

/// `s` with the trailing repetitions of `p` removed, like
/// `str::trim_end_matches`.
pub fn quitar_sufijo(s: &str, p: &str) -> (r: String)
    requires
        p@.len() > 0,
    ensures
        r@ == sin_sufijo(s@, p@),
{
    let n = s.unicode_len();
    let m = p.unicode_len();
    let mut j: usize = n;
    assert(s@.subrange(0, n as int) =~= s@);
    while j >= m && aparece(s, p, j - m)
        invariant
            n == s@.len(),
            m == p@.len(),
            m > 0,
            j <= n,
            sin_sufijo(s@, p@) == sin_sufijo(s@.subrange(0, j as int), p@),
        decreases j,
    {
        let ghost resto = s@.subrange(0, j as int);
        assert(resto.skip(j - m) =~= p@);
        assert(resto.take(j - m) =~= s@.subrange(0, j - m));
        j = j - m;
    }
    let ghost resto = s@.subrange(0, j as int);
    assert(!(m <= resto.len() && resto.skip(resto.len() - m) == p@)) by {
        if m <= resto.len() && resto.skip(resto.len() - m) == p@ {
            assert(s@.subrange(j - m, j as int) =~= resto.skip(resto.len() - m));
        }
    }
    tramo(s, 0, j)
}

/// The first position where `p` occurs in `s`, like `str::find`.
pub fn buscar(s: &str, p: &str) -> (r: Option<usize>)
    ensures
        match r {
            Some(i) => aparece_en(s@, p@, i as int) && forall|j: int|
                0 <= j < i ==> !aparece_en(s@, p@, j),
            None => forall|j: int| !aparece_en(s@, p@, j),
        },
{
    let n = s.unicode_len();
    let mut i: usize = 0;
    while i < n
        invariant
            n == s@.len(),
            i <= n,
            forall|j: int| 0 <= j < i ==> !aparece_en(s@, p@, j),
        decreases n - i,
    {
        if aparece(s, p, i) {
            return Some(i);
        }
        i = i + 1;
    }
    if aparece(s, p, n) {
        Some(n)
    } else {
        assert forall|j: int| !aparece_en(s@, p@, j) by {
            if j > n {
                assert(!(j + p@.len() <= s@.len()));
            }
        }
        None
    }
}

/// The last position of `c` in `s`, like `str::rfind` with a character.
pub fn buscar_ultimo(s: &str, c: char) -> (r: Option<usize>)
    ensures
        match r {
            Some(i) => i < s@.len() && s@[i as int] == c && forall|j: int|
                i < j < s@.len() ==> s@[j] != c,
            None => forall|j: int| 0 <= j < s@.len() ==> s@[j] != c,
        },
{
    let n = s.unicode_len();
    let mut i: usize = n;
    while i > 0
        invariant
            n == s@.len(),
            i <= n,
            forall|j: int| i <= j < n ==> s@[j] != c,
        decreases i,
    {
        if s.get_char(i - 1) == c {
            return Some(i - 1);
        }
        i = i - 1;
    }
    None
}

/// Splitting `s` at white space, read left to right: the words already
/// closed and the word still open.
pub open spec fn trocear(s: Seq<char>) -> (Seq<Seq<char>>, Seq<char>)
    decreases s.len(),
{
    if s.len() == 0 {
        (Seq::empty(), Seq::empty())
    } else {
        let (ws, actual) = trocear(s.drop_last());
        let c = s.last();
        if es_blanco(c) {
            if actual.len() > 0 {
                (ws.push(actual), Seq::empty())
            } else {
                (ws, Seq::empty())
            }
        } else {
            (ws, actual.push(c))
        }
    }
}

/// The maximal runs of non-white-space characters of `s`, in order (what
/// `str::split_whitespace` yields).
pub open spec fn palabras(s: Seq<char>) -> Seq<Seq<char>> {
    let (ws, actual) = trocear(s);
    if actual.len() > 0 {
        ws.push(actual)
    } else {
        ws
    }
}

/// The views of a vector of texts.
pub open spec fn vistas(v: Seq<String>) -> Seq<Seq<char>> {
    v.map_values(|w: String| w@)
}

/// The words of `s`, like `str::split_whitespace`.
pub fn palabras_de(s: &str) -> (r: Vec<String>)
    ensures
        vistas(r@) == palabras(s@),
{
    let n = s.unicode_len();
    let mut r: Vec<String> = Vec::new();
    let mut inicio: usize = 0;
    let mut abierta = false;
    let mut i: usize = 0;
    assert(s@.take(0) =~= Seq::<char>::empty());
    while i < n
        invariant
            n == s@.len(),
            i <= n,
            inicio <= i,
            vistas(r@) == trocear(s@.take(i as int)).0,
            abierta ==> inicio < i && trocear(s@.take(i as int)).1 == s@.subrange(
                inicio as int,
                i as int,
            ),
            !abierta ==> trocear(s@.take(i as int)).1 == Seq::<char>::empty(),
        decreases n - i,
    {
        let ghost antes = s@.take(i as int);
        assert(s@.take(i + 1).drop_last() =~= antes);
        let c = s.get_char(i);
        if blanco(c) {
            if abierta {
                let w = tramo(s, inicio, i);
                r.push(w);
                assert(vistas(r@) =~= trocear(antes).0.push(trocear(antes).1));
                abierta = false;
            }
        } else {
            if !abierta {
                inicio = i;
                abierta = true;
            }
            assert(s@.subrange(inicio as int, i + 1) =~= trocear(antes).1.push(c));
        }
        i = i + 1;
    }
    assert(s@.take(n as int) =~= s@);
    if abierta {
        let w = tramo(s, inicio, n);
        r.push(w);
        assert(vistas(r@) =~= palabras(s@));
    }
    r
}

} // verus!

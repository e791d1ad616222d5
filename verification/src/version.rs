//! Semantic versions and version requirements, read and compared by the
//! `semver` crate.
use vstd::prelude::*;
use crate::texto::tramo;

verus! {

/// An outside type: the crate's version requirement.
#[verifier::external_type_specification]
#[verifier::external_body]
pub struct ExVersionReq(semver::VersionReq);

/// An outside type: the crate's version.
#[verifier::external_type_specification]
#[verifier::external_body]
pub struct ExVersion(semver::Version);

/// An outside type: the crate's parse error.
#[verifier::external_type_specification]
#[verifier::external_body]
pub struct ExSemverError(semver::Error);

/// What the logic reads of a version: major, minor, patch, pre-release and
/// build metadata.
pub type VistaVersion = (u64, u64, u64, Seq<char>, Seq<char>);

/// A semantic version accepted by `semver::Version::parse`, with its parts
/// held as plain values beside the parsed value.
pub struct VersionSemver {
    valor: semver::Version,
    major: u64,
    minor: u64,
    patch: u64,
    pre: String,
    build: String,
}

impl View for VersionSemver {
    type V = VistaVersion;

    closed spec fn view(&self) -> VistaVersion {
        (self.major, self.minor, self.patch, self.pre@, self.build@)
    }
}

/// The parts of the version that `semver::Version::parse` reads from
/// `texto`, or `None` where it refuses the text.
pub uninterp spec fn version_analizada(texto: Seq<char>) -> Option<VistaVersion>;

/// Whether `a` orders strictly before `b` in `semver`'s total order on
/// versions (`<` on `semver::Version`).
pub uninterp spec fn version_precede(a: VistaVersion, b: VistaVersion) -> bool;

/// Whether `semver::VersionReq::parse` accepts `texto`.
pub uninterp spec fn requisito_valido(texto: Seq<char>) -> bool;

/// Whether the requirement parsed from `requisito` matches the version
/// with parts `version` (`semver::VersionReq::matches`).
pub uninterp spec fn requisito_cumplido(requisito: Seq<char>, version: VistaVersion) -> bool;

/// The parts of some version that `semver` reads from some text.
pub open spec fn es_version(c: VistaVersion) -> bool {
    exists|t: Seq<char>| #[trigger] version_analizada(t) == Some(c)
}

/// Calls `semver::Version::parse` on `texto`. The contract claims that the
/// parse succeeds exactly where `version_analizada` has a value, that the
/// parts of the parsed version are that value, and that the version does
/// not precede itself (`semver`'s order is a total order).
#[verifier::external_body]
pub(crate) fn analizar_version(texto: &str) -> (r: Result<VersionSemver, semver::Error>)
    ensures
        match r {
            Ok(v) => version_analizada(texto@) == Some(v@),
            Err(_) => version_analizada(texto@) is None,
        },
        r matches Ok(v) ==> !version_precede(v@, v@),
{
    match semver::Version::parse(texto) {
        Ok(v) => Ok(
            VersionSemver {
                major: v.major,
                minor: v.minor,
                patch: v.patch,
                pre: v.pre.as_str().to_string(),
                build: v.build.as_str().to_string(),
                valor: v,
            },
        ),
        Err(e) => Err(e),
    }
}

/// `a < b` on `semver::Version`. The contract claims the result is
/// `version_precede`, and states what the crate documents of its total
/// order (the derived `Ord` of `Version`): major, minor and patch decide
/// first, compared numerically as a triple; a version never precedes
/// itself; the order is asymmetric and total; and it is transitive through
/// `a` and `b` for every other version `c`.
#[verifier::external_body]
pub(crate) fn precede(a: &VersionSemver, b: &VersionSemver) -> (r: bool)
    ensures
        r == version_precede(a@, b@),
        (a@.0, a@.1, a@.2) != (b@.0, b@.1, b@.2) ==> r == triple_menor(a@, b@),
        a@ == b@ ==> !r,
        r ==> !version_precede(b@, a@),
        !r ==> (a@ == b@ || version_precede(b@, a@)),
        r ==> forall|c: VistaVersion|
            es_version(c) && #[trigger] version_precede(b@, c) ==> version_precede(a@, c),
        r ==> forall|c: VistaVersion|
            es_version(c) && #[trigger] version_precede(c, a@) ==> version_precede(c, b@),
        !r ==> forall|c: VistaVersion|
            es_version(c) && #[trigger] version_precede(a@, c) ==> version_precede(b@, c),
        !r ==> forall|c: VistaVersion|
            es_version(c) && #[trigger] version_precede(c, b@) ==> version_precede(c, a@),
{
    a.valor < b.valor
}

/// Major, minor and patch of `a` are lexicographically smaller than those
/// of `b`.
pub open spec fn triple_menor(a: VistaVersion, b: VistaVersion) -> bool {
    ||| a.0 < b.0
    ||| (a.0 == b.0 && a.1 < b.1)
    ||| (a.0 == b.0 && a.1 == b.1 && a.2 < b.2)
}

/// A version requirement accepted by `semver::VersionReq::parse`, with the
/// text it was read from.
pub struct RequisitoSemver {
    valor: semver::VersionReq,
    fuente: String,
}

impl View for RequisitoSemver {
    type V = Seq<char>;

    closed spec fn view(&self) -> Seq<char> {
        self.fuente@
    }
}

/// Calls `semver::VersionReq::parse` on `texto`. The contract claims that
/// the parse succeeds exactly where `requisito_valido` holds, and keeps the
/// text as the requirement's view.
#[verifier::external_body]
pub(crate) fn analizar_requisito(texto: &str) -> (r: Result<RequisitoSemver, semver::Error>)
    ensures
        r is Ok <==> requisito_valido(texto@),
        r matches Ok(q) ==> q@ == texto@,
{
    match semver::VersionReq::parse(texto) {
        Ok(q) => Ok(RequisitoSemver { valor: q, fuente: texto.to_string() }),
        Err(e) => Err(e),
    }
}

/// `semver::VersionReq::matches`. The contract claims the result is
/// `requisito_cumplido` of the requirement's text and the version's parts.
#[verifier::external_body]
pub(crate) fn cumple(q: &RequisitoSemver, v: &VersionSemver) -> (r: bool)
    ensures
        r == requisito_cumplido(q@, v@),
{
    q.valor.matches(&v.valor)
}

/// The decimal digit for `d` (below ten).
pub open spec fn digito(d: nat) -> char {
    (48 + d) as char
}

/// The decimal writing of `n`, without leading zeros.
pub open spec fn decimal(n: nat) -> Seq<char>
    decreases n,
{
    if n < 10 {
        seq![digito(n)]
    } else {
        decimal(n / 10).push(digito(n % 10))
    }
}

/// How a version is written: `major.minor.patch`, then `-pre` when there is
/// a pre-release, then `+build` when there is build metadata (the
/// `Display` of `semver::Version`).
pub open spec fn mostrar_version(v: VistaVersion) -> Seq<char> {
    decimal(v.0 as nat) + seq!['.'] + decimal(v.1 as nat) + seq!['.'] + decimal(v.2 as nat) + (
    if v.3.len() == 0 {
        Seq::empty()
    } else {
        seq!['-'] + v.3
    }) + (if v.4.len() == 0 {
        Seq::empty()
    } else {
        seq!['+'] + v.4
    })
}

/// The decimal writing of `n`.
pub fn escribir_decimal(n: u64) -> (r: String)
    ensures
        r@ == decimal(n as nat),
    decreases n,
{
    let cifras = "0123456789";
    proof {
        reveal_strlit("0123456789");
    }
    let d: usize = (n % 10) as usize;
    let ultima = tramo(cifras, d, d + 1);
    assert(ultima@ =~= seq![digito(d as nat)]);
    if n < 10 {
        ultima
    } else {
        let mut r = escribir_decimal(n / 10);
        r.append(ultima.as_str());
        assert(r@ =~= decimal((n / 10) as nat).push(digito((n % 10) as nat)));
        r
    }
}

impl VersionSemver {
    /// The version as `semver` writes it.
    pub fn texto(&self) -> (r: String)
        ensures
            r@ == mostrar_version(self@),
    {
        let mut r = escribir_decimal(self.major);
        r.append(".");
        let menor = escribir_decimal(self.minor);
        r.append(menor.as_str());
        r.append(".");
        let parche = escribir_decimal(self.patch);
        r.append(parche.as_str());
        proof {
            reveal_strlit(".");
            reveal_strlit("-");
            reveal_strlit("+");
        }
        if self.pre.unicode_len() > 0 {
            r.append("-");
            r.append(self.pre.as_str());
        }
        if self.build.unicode_len() > 0 {
            r.append("+");
            r.append(self.build.as_str());
        }
        assert(r@ =~= mostrar_version(self@));
        r
    }
}

} // verus!

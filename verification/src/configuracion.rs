//! The project file `umpkg.yml`.
use vstd::prelude::*;
use crate::tabla::Tabla;

verus! {

/// The contents of a project's `umpkg.yml`.
pub struct ProyectoUmp {
    pub name: String,
    pub version: String,
    pub description: Option<String>,
    pub umbral: String,
    pub main: String,
    pub scripts: Option<Tabla<String>>,
    pub dependencies: Option<Tabla<String>>,
}

/// The map of an optional table, empty when absent.
pub open spec fn mapa_de(t: Option<Tabla<String>>) -> Map<Seq<char>, String> {
    match t {
        Some(t) => t@,
        None => Map::empty(),
    }
}


impl Default for ProyectoUmp {
    /// The project that `ump init` writes.
    fn default() -> (r: Self)
        ensures
            r.name@ == "mi-proyecto"@,
            r.version@ == "1.0.0"@,
            r.description matches Some(d) && d@ == "Un nuevo proyecto Umbral"@,
            r.umbral@ == ">=0.1.0"@,
            r.main@ == "src/main.um"@,
            r.scripts matches Some(s) && s@.dom() == set!["start"@, "dev"@, "test"@]
                && s@["start"@]@ == "umbral src/main.um"@ && s@["dev"@]@
                == "umbral src/main.um --watch"@ && s@["test"@]@ == "umbral pruebas/main.um"@,
            r.dependencies matches Some(d) && d@ == Map::<Seq<char>, String>::empty(),
    {
        proof {
            reveal_strlit("start");
            reveal_strlit("dev");
            reveal_strlit("test");
        }
        let mut scripts: Tabla<String> = Tabla::new();
        let inicio = String::from_str("umbral src/main.um");
        let desarrollo = String::from_str("umbral src/main.um --watch");
        let pruebas = String::from_str("umbral pruebas/main.um");
        let ghost (vi, vd, vp) = (inicio, desarrollo, pruebas);
        scripts.insertar(String::from_str("start"), inicio);
        scripts.insertar(String::from_str("dev"), desarrollo);
        scripts.insertar(String::from_str("test"), pruebas);
        assert("start"@.len() == 5 && "dev"@.len() == 3 && "test"@.len() == 4);
        assert("start"@ != "dev"@ && "start"@ != "test"@ && "dev"@ != "test"@);
        assert(scripts@ == Map::<Seq<char>, String>::empty().insert("start"@, vi).insert(
            "dev"@,
            vd,
        ).insert("test"@, vp));
        assert(scripts@["start"@] == vi);
        assert(scripts@["dev"@] == vd);
        assert(scripts@.dom() =~= set!["start"@, "dev"@, "test"@]);
        ProyectoUmp {
            name: String::from_str("mi-proyecto"),
            version: String::from_str("1.0.0"),
            description: Some(String::from_str("Un nuevo proyecto Umbral")),
            umbral: String::from_str(">=0.1.0"),
            main: String::from_str("src/main.um"),
            scripts: Some(scripts),
            dependencies: Some(Tabla::new()),
        }
    }
}

} // verus!

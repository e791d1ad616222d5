use ump::agregar::{fusionar_dependencias, rechazar_existente, resolver_agregado, version_agregado};
use ump::comun::{EntradaIndice, TagGithub};
use ump::configuracion::ProyectoUmp;
use ump::ejecutar::{buscar_script, FalloScript};
use ump::remover::remover_paquetes;
use ump::tabla::Tabla;
use ump::update::{
    buscar_actualizaciones, clasificar, repositorio_a_consultar, revisar, revisar_todas, Motivo, Revision,
};
use ump::upgrade::{destino_upgrade, resolver_upgrade, DestinoUpgrade};

fn indice() -> Tabla<EntradaIndice> {
    let mut t = Tabla::new();
    t.insertar(
        "http".to_string(),
        EntradaIndice {
            repository: "https://github.com/umbral/http.git".to_string(),
            umbral: ">=0.2.0".to_string(),
            exports: None,
        },
    );
    t.insertar(
        "math".to_string(),
        EntradaIndice {
            repository: "https://github.com/umbral/math".to_string(),
            umbral: ">=0.1.0".to_string(),
            exports: Some(vec!["sqrt".to_string()]),
        },
    );
    t
}

fn tags(nombres: &[&str]) -> Vec<TagGithub> {
    nombres.iter().map(|n| TagGithub { name: n.to_string() }).collect()
}

fn proyecto_con(deps: &[(&str, &str)]) -> ProyectoUmp {
    let mut p = ProyectoUmp::default();
    let mut t = Tabla::new();
    for (k, v) in deps {
        t.insertar(k.to_string(), v.to_string());
    }
    p.dependencies = Some(t);
    p
}

#[test]
fn proyecto_por_defecto() {
    let p = ProyectoUmp::default();
    assert_eq!(p.name, "mi-proyecto");
    assert_eq!(p.version, "1.0.0");
    assert_eq!(p.description.as_deref(), Some("Un nuevo proyecto Umbral"));
    assert_eq!(p.umbral, ">=0.1.0");
    assert_eq!(p.main, "src/main.um");
    let s = p.scripts.as_ref().unwrap();
    assert_eq!(s.len(), 3);
    assert_eq!(s.obtener("start").unwrap(), "umbral src/main.um");
    assert_eq!(s.obtener("dev").unwrap(), "umbral src/main.um --watch");
    assert_eq!(s.obtener("test").unwrap(), "umbral pruebas/main.um");
    assert!(p.dependencies.as_ref().unwrap().is_empty());
}

#[test]
fn agregar_resuelve() {
    let p = proyecto_con(&[]);
    let s = resolver_agregado("http@1.1.0", &p, &indice()).ok().unwrap();
    assert_eq!(s.nombre, "http");
    assert_eq!(s.pedida.as_deref(), Some("1.1.0"));
    assert_eq!(s.repositorio, "https://github.com/umbral/http.git");
    assert_eq!(s.respaldo, ">=0.2.0");
    let s = resolver_agregado(" math ", &p, &indice()).ok().unwrap();
    assert_eq!(s.nombre, "math");
    assert_eq!(s.pedida, None);
}

#[test]
fn agregar_fuera_de_indice() {
    let p = proyecto_con(&[]);
    assert_eq!(
        resolver_agregado("json", &p, &indice()).err(),
        Some("La librería 'json' no existe en el índice global".to_string())
    );
}

#[test]
fn agregar_existente() {
    let p = proyecto_con(&[("http", "1.0.0")]);
    let esperado = "La librería 'http' ya existe en el proyecto (usa 'ump upgrade http' para cambiar de versión)";
    assert_eq!(resolver_agregado("http@2.0.0", &p, &indice()).err(), Some(esperado.to_string()));
    assert_eq!(rechazar_existente("http", &p), Err(esperado.to_string()));
    assert_eq!(rechazar_existente("math", &p), Ok(()));
    let mut sin = ProyectoUmp::default();
    sin.dependencies = None;
    assert_eq!(rechazar_existente("http", &sin), Ok(()));
}

#[test]
fn version_para_agregar() {
    let t = tags(&["v1.0.0", "v1.1.0"]);
    assert_eq!(version_agregado("r", &Some("v1.0.0".to_string()), &t), Ok("1.0.0".to_string()));
    assert_eq!(version_agregado("r", &None, &t), Ok("1.1.0".to_string()));
    assert!(version_agregado("r", &Some("3.0.0".to_string()), &t).is_err());
}

#[test]
fn fusion_de_dependencias() {
    let p = proyecto_con(&[("http", "1.0.0"), ("math", "1.0.0")]);
    let nuevos = vec![
        ("json".to_string(), "0.1.0".to_string()),
        ("http".to_string(), "1.1.0".to_string()),
        ("json".to_string(), "0.2.0".to_string()),
    ];
    let f = fusionar_dependencias(p, nuevos).unwrap();
    let d = f.dependencies.as_ref().unwrap();
    assert_eq!(d.len(), 3);
    assert_eq!(d.obtener("http").unwrap(), "1.1.0");
    assert_eq!(d.obtener("math").unwrap(), "1.0.0");
    assert_eq!(d.obtener("json").unwrap(), "0.2.0");
    assert_eq!(f.name, "mi-proyecto");
    assert!(fusionar_dependencias(proyecto_con(&[]), Vec::new()).is_none());
    let mut sin = ProyectoUmp::default();
    sin.dependencies = None;
    let f = fusionar_dependencias(sin, vec![("a".to_string(), "1".to_string())]).unwrap();
    assert_eq!(f.dependencies.as_ref().unwrap().obtener("a").unwrap(), "1");
}

#[test]
fn upgrade_resuelve() {
    let p = proyecto_con(&[("http", "1.0.0")]);
    let deps = p.dependencies.as_ref().unwrap();
    let s = resolver_upgrade("http@1.1.0", deps, &indice()).ok().unwrap();
    assert_eq!(s.nombre, "http");
    assert_eq!(s.actual, "1.0.0");
    assert_eq!(s.pedida.as_deref(), Some("1.1.0"));
    assert_eq!(s.repositorio, "https://github.com/umbral/http.git");
    assert_eq!(s.respaldo, ">=0.2.0");
}

#[test]
fn upgrade_errores() {
    let p = proyecto_con(&[("http", "1.0.0"), ("json", "0.1.0")]);
    let deps = p.dependencies.as_ref().unwrap();
    assert_eq!(
        resolver_upgrade("math@2", deps, &indice()).err(),
        Some("La librería 'math' no está en las dependencias (usa 'ump add math@2' para instalarla)".to_string())
    );
    assert_eq!(
        resolver_upgrade("json", deps, &indice()).err(),
        Some("La librería 'json' no existe en el índice global".to_string())
    );
}

#[test]
fn destinos_de_upgrade() {
    let t = tags(&["v1.0.0", "v1.1.0"]);
    assert!(matches!(destino_upgrade("1.0.0", &Some("1.1.0".to_string()), "r", &t), Ok(DestinoUpgrade::Cambiar(v)) if v == "1.1.0"));
    assert!(matches!(destino_upgrade("v1.1.0", &Some("v1.1.0".to_string()), "r", &t), Ok(DestinoUpgrade::YaEnVersion)));
    assert!(matches!(destino_upgrade("1.0.0", &None, "r", &t), Ok(DestinoUpgrade::Cambiar(v)) if v == "1.1.0"));
    assert!(matches!(destino_upgrade("1.1.0", &None, "r", &t), Ok(DestinoUpgrade::AlDia)));
    assert!(matches!(destino_upgrade("2.0.0", &None, "r", &t), Ok(DestinoUpgrade::AlDia)));
    assert!(matches!(destino_upgrade("1.0.0", &Some("9.9.9".to_string()), "r", &t), Err(_)));
    assert!(matches!(destino_upgrade("1.0.0", &None, "r", &Vec::new()), Err(e) if e == "No se encontraron versiones para el repositorio r"));
}

#[test]
fn revision_de_dependencias() {
    let ix = indice();
    let ok = |u: &str| Some(Ok(u.to_string()));
    assert!(matches!(revisar("http", "1.0.0", &ix, ok("1.1.0")), Revision::Nueva((n, a, u)) if n == "http" && a == "1.0.0" && u == "1.1.0"));
    assert!(matches!(revisar("http", "1.1.0", &ix, ok("1.1.0")), Revision::Vigente));
    assert!(matches!(revisar("http", "2.0.0", &ix, ok("1.1.0")), Revision::Vigente));
    assert!(matches!(revisar("ws", "1.0.0", &ix, None), Revision::Omitida(Motivo::FueraDeIndice)));
    assert!(matches!(revisar("ws", "1.0.0", &ix, ok("9.0.0")), Revision::Omitida(Motivo::FueraDeIndice)));
    assert!(matches!(revisar("http", "1.0.0", &Tabla::new(), None), Revision::Omitida(Motivo::FueraDeIndice)));
    assert!(matches!(
        revisar("math", "1.0.0", &ix, Some(Err("sin red".to_string()))),
        Revision::Omitida(Motivo::SinVersiones(e)) if e == "sin red"
    ));
}

#[test]
fn revision_de_todas_las_dependencias() {
    let ix = indice();
    let mut deps = Tabla::new();
    deps.insertar("http".to_string(), "1.0.0".to_string());
    deps.insertar("ws".to_string(), "0.1.0".to_string());
    deps.insertar("math".to_string(), "2.0.0".to_string());
    let ultimas = vec![Some(Ok("2.0.0".to_string())), None, Some(Ok("2.0.0".to_string()))];
    let rs = revisar_todas(&deps, &ix, ultimas);
    assert_eq!(rs.len(), 3);
    assert!(matches!(&rs[0], Revision::Nueva((n, a, u)) if n == "http" && a == "1.0.0" && u == "2.0.0"));
    assert!(matches!(&rs[1], Revision::Omitida(Motivo::FueraDeIndice)));
    assert!(matches!(&rs[2], Revision::Vigente));
    let (nuevas, vigentes) = clasificar(&rs);
    assert_eq!(nuevas, vec![("http".to_string(), "1.0.0".to_string(), "2.0.0".to_string())]);
    assert_eq!(vigentes, 1);
}

#[test]
fn actualizaciones_de_las_dependencias() {
    let ix = indice();
    let mut deps = Tabla::new();
    deps.insertar("http".to_string(), "1.0.0".to_string());
    deps.insertar("ws".to_string(), "0.1.0".to_string());
    deps.insertar("math".to_string(), "2.0.0".to_string());
    let ultimas = vec![Some(Err("sin red".to_string())), None, Some(Ok("2.1.0".to_string()))];
    let (rs, nuevas, vigentes) = buscar_actualizaciones(&deps, &ix, ultimas);
    assert_eq!(rs.len(), 3);
    assert!(matches!(&rs[0], Revision::Omitida(Motivo::SinVersiones(e)) if e == "sin red"));
    assert!(matches!(&rs[1], Revision::Omitida(Motivo::FueraDeIndice)));
    assert_eq!(nuevas, vec![("math".to_string(), "2.0.0".to_string(), "2.1.0".to_string())]);
    assert_eq!(vigentes, 0);
    let mut solo_fuera = Tabla::new();
    solo_fuera.insertar("http".to_string(), "1.0.0".to_string());
    let (rs, nuevas, vigentes) = buscar_actualizaciones(&solo_fuera, &Tabla::new(), vec![None]);
    assert!(matches!(&rs[0], Revision::Omitida(Motivo::FueraDeIndice)));
    assert!(nuevas.is_empty());
    assert_eq!(vigentes, 0);
}

#[test]
fn clasificacion_de_revisiones() {
    let ix = indice();
    let ok = |u: &str| Some(Ok(u.to_string()));
    let rs = vec![
        revisar("http", "1.0.0", &ix, ok("2.0.0")),
        revisar("ws", "1.0.0", &ix, None),
        revisar("math", "1.0.0", &ix, ok("1.0.0")),
        revisar("math", "0.1.0", &ix, ok("0.2.0")),
        revisar("math", "3.0.0", &ix, ok("2.0.0")),
        revisar("http", "1.0.0", &ix, Some(Err("e".to_string()))),
    ];
    let (nuevas, vigentes) = clasificar(&rs);
    assert_eq!(
        nuevas,
        vec![
            ("http".to_string(), "1.0.0".to_string(), "2.0.0".to_string()),
            ("math".to_string(), "0.1.0".to_string(), "0.2.0".to_string()),
        ]
    );
    assert_eq!(vigentes, 2);
    assert_eq!(nuevas.len() + vigentes + 2, rs.len());
}

#[test]
fn remover_dependencias() {
    let mut p = proyecto_con(&[("http", "1.0.0"), ("math", "1.0.0")]);
    let deps = p.dependencies.as_mut().unwrap();
    let r = remover_paquetes(deps, &vec!["http".to_string(), "json".to_string(), "http".to_string()]);
    assert_eq!(r, vec![true, false, false]);
    assert!(!deps.contiene("http"));
    assert!(deps.contiene("math"));
    assert_eq!(deps.len(), 1);
}

#[test]
fn scripts() {
    let p = ProyectoUmp::default();
    assert_eq!(buscar_script(&p, "dev").ok(), Some("umbral src/main.um --watch".to_string()));
    assert!(matches!(buscar_script(&p, "build"), Err(FalloScript::NoEncontrado)));
    let mut sin = ProyectoUmp::default();
    sin.scripts = None;
    assert!(matches!(buscar_script(&sin, "dev"), Err(FalloScript::SinScripts)));
}

#[test]
fn repositorio_para_update() {
    assert_eq!(repositorio_a_consultar("http", &indice()), Some("https://github.com/umbral/http.git".to_string()));
    assert_eq!(repositorio_a_consultar("json", &indice()), None);
}

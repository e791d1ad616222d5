use ump::agregar::Solicitud;
use ump::comun::TagGithub;
use ump::instalacion::{Desenlace, Instalacion, Paso};
use ump::upgrade::SolicitudUpgrade;

fn tags(nombres: &[&str]) -> Vec<TagGithub> {
    nombres.iter().map(|n| TagGithub { name: n.to_string() }).collect()
}

fn solicitud(repositorio: &str, pedida: Option<&str>) -> Solicitud {
    Solicitud {
        nombre: "http".to_string(),
        pedida: pedida.map(|p| p.to_string()),
        repositorio: repositorio.to_string(),
        respaldo: ">=0.2.0".to_string(),
    }
}

fn upgrade(actual: &str, pedida: Option<&str>) -> SolicitudUpgrade {
    SolicitudUpgrade {
        nombre: "http".to_string(),
        actual: actual.to_string(),
        pedida: pedida.map(|p| p.to_string()),
        repositorio: "https://github.com/umbral/http.git".to_string(),
        respaldo: ">=0.2.0".to_string(),
    }
}

const REPO: &str = "https://github.com/umbral/http.git";

/// Drives an installation up to its question, with no declared requirement
/// and no installed Umbral.
fn hasta_confirmar(i: &mut Instalacion, ts: &[&str]) {
    i.con_tags(Ok(tags(ts)));
    i.con_lectura(None);
    i.con_lectura(None);
    assert!(matches!(i.paso(), Paso::ConsultarUmbralLocal));
    i.con_umbral_local(None);
    assert!(matches!(i.paso(), Paso::Confirmar));
}

#[test]
fn direccion_fuera_de_github_termina_sin_consultar() {
    let i = Instalacion::agregar(solicitud("https://gitlab.com/a/b", None), "0.3.0");
    assert!(matches!(i.paso(), Paso::Terminado));
    assert!(matches!(
        i.terminar(),
        Desenlace::Fallo(e) if e == "URL de repositorio no válida para GitHub: https://gitlab.com/a/b"
    ));
    let u = SolicitudUpgrade {
        repositorio: "https://gitlab.com/a/b".to_string(),
        ..upgrade("1.0.0", Some("1.1.0"))
    };
    let i = Instalacion::actualizar(u, "0.3.0");
    assert!(matches!(i.paso(), Paso::Terminado));
    assert!(matches!(
        i.terminar(),
        Desenlace::Fallo(e) if e == "URL de repositorio no válida para GitHub: https://gitlab.com/a/b"
    ));
}

#[test]
fn instalacion_completa() {
    let mut i = Instalacion::agregar(solicitud(REPO, None), "0.3.0");
    assert!(matches!(i.paso(), Paso::ConsultarTags(u) if u == "https://api.github.com/repos/umbral/http/tags"));
    i.con_tags(Ok(tags(&["v1.0.0", "v1.1.0"])));
    assert_eq!(i.version(), "1.1.0");
    assert!(matches!(i.paso(), Paso::LeerUmbral(u) if u == "https://raw.githubusercontent.com/umbral/http/v1.1.0/umpkg.yml"));
    i.con_lectura(None);
    assert!(matches!(i.paso(), Paso::LeerUmbral(u) if u == "https://raw.githubusercontent.com/umbral/http/1.1.0/umpkg.yml"));
    i.con_lectura(Some("  ".to_string()));
    assert!(matches!(i.paso(), Paso::ConsultarUmbralLocal));
    assert_eq!(i.requerido(), ">=0.2.0");
    i.con_umbral_local(Some("umbral 0.2.5".to_string()));
    assert!(matches!(i.paso(), Paso::Confirmar));
    i.con_respuesta(true);
    match i.paso() {
        Paso::Descargar(plan) => {
            assert_eq!(plan.destino, "modules_ump/http");
            assert_eq!(plan.tag, "v1.1.0");
            assert_eq!(plan.ruta_git, "modules_ump/http/.git");
            assert_eq!(plan.argumentos[5], REPO);
        }
        _ => panic!("se esperaba la descarga"),
    }
    i.con_descarga(Ok(()));
    assert!(matches!(i.paso(), Paso::Terminado));
    assert!(matches!(i.terminar(), Desenlace::Instalada((n, v)) if n == "http" && v == "1.1.0"));
}

#[test]
fn instalacion_de_version_pedida_con_requisito_declarado() {
    let mut i = Instalacion::agregar(solicitud(REPO, Some("v1.0.0")), "0.3.0");
    i.con_tags(Ok(tags(&["v1.0.0", "v1.1.0"])));
    assert_eq!(i.version(), "1.0.0");
    i.con_lectura(Some(">=0.1.0".to_string()));
    assert!(matches!(i.paso(), Paso::ConsultarUmbralLocal));
    assert_eq!(i.requerido(), ">=0.1.0");
}

#[test]
fn instalacion_cancelada() {
    let mut i = Instalacion::agregar(solicitud(REPO, None), "0.3.0");
    hasta_confirmar(&mut i, &["v1.0.0"]);
    i.con_respuesta(false);
    assert!(matches!(i.paso(), Paso::Terminado));
    assert!(matches!(i.terminar(), Desenlace::Cancelada));
}

#[test]
fn instalacion_incompatible_no_pregunta() {
    let mut i = Instalacion::agregar(solicitud(REPO, None), "0.3.0");
    i.con_tags(Ok(tags(&["v1.0.0"])));
    i.con_lectura(Some(">=9.0.0".to_string()));
    assert_eq!(i.requerido(), ">=9.0.0");
    i.con_umbral_local(None);
    assert!(matches!(i.paso(), Paso::Terminado));
    assert!(matches!(
        i.terminar(),
        Desenlace::Fallo(e) if e == "La librería requiere Umbral >=9.0.0 pero el proyecto usa 0.3.0"
    ));
}

#[test]
fn fallos_de_tags_y_descarga() {
    let mut i = Instalacion::agregar(solicitud(REPO, None), "0.3.0");
    i.con_tags(Err("sin red".to_string()));
    assert!(matches!(i.terminar(), Desenlace::Fallo(e) if e == "sin red"));
    let mut i = Instalacion::agregar(solicitud(REPO, None), "0.3.0");
    i.con_tags(Ok(Vec::new()));
    assert!(matches!(
        i.terminar(),
        Desenlace::Fallo(e) if e == "No se encontraron versiones para el repositorio https://github.com/umbral/http.git"
    ));
    let mut i = Instalacion::agregar(solicitud(REPO, None), "0.3.0");
    hasta_confirmar(&mut i, &["v1.0.0"]);
    i.con_respuesta(true);
    i.con_descarga(Err("Git clone falló".to_string()));
    assert!(matches!(i.terminar(), Desenlace::Fallo(e) if e == "Git clone falló"));
}

#[test]
fn actualizacion_sin_nada_que_hacer() {
    let mut i = Instalacion::actualizar(upgrade("1.1.0", None), "0.3.0");
    i.con_tags(Ok(tags(&["v1.0.0", "v1.1.0"])));
    assert!(matches!(i.terminar(), Desenlace::AlDia));
    let mut i = Instalacion::actualizar(upgrade("1.1.0", Some("v1.1.0")), "0.3.0");
    i.con_tags(Ok(tags(&["v1.0.0", "v1.1.0"])));
    assert!(matches!(i.terminar(), Desenlace::YaEnVersion));
}

#[test]
fn actualizacion_completa() {
    let mut i = Instalacion::actualizar(upgrade("1.0.0", None), "0.3.0");
    assert_eq!(i.actual().as_deref(), Some("1.0.0"));
    hasta_confirmar(&mut i, &["v1.0.0", "v1.2.0"]);
    assert_eq!(i.version(), "1.2.0");
    i.con_respuesta(true);
    i.con_descarga(Ok(()));
    assert!(matches!(i.terminar(), Desenlace::Instalada((n, v)) if n == "http" && v == "1.2.0"));
}

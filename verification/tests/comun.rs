use ump::comun::{
    descargar_paquete, es_version_nueva, extraer_repo_github, extraer_version_salida,
    normalizar_version, obtener_ultima_version, parsear_especificacion, respuesta_afirmativa,
    tag_para_version, umbral_de_version, url_tags_github, validar_compatibilidad_umbral,
    validar_base_proyecto, validar_version_existe, TagGithub,
};

fn tags(nombres: &[&str]) -> Vec<TagGithub> {
    nombres.iter().map(|n| TagGithub { name: n.to_string() }).collect()
}

#[test]
fn normalizar_quita_espacios_y_v() {
    assert_eq!(normalizar_version(" v1.2.3 "), "1.2.3");
    assert_eq!(normalizar_version("vv1.0.0"), "1.0.0");
    assert_eq!(normalizar_version("1.0.0"), "1.0.0");
    assert_eq!(normalizar_version("v v1"), "v1");
    assert_eq!(normalizar_version("   "), "");
}

#[test]
fn tag_agrega_v() {
    assert_eq!(tag_para_version("1.0.0"), "v1.0.0");
    assert_eq!(tag_para_version("v2.0.0"), "v2.0.0");
    assert_eq!(tag_para_version(""), "v");
}

#[test]
fn tag_y_normalizar_son_inversos() {
    for v in ["1.0.0", "0.3.1-beta", "10.20.30"] {
        assert_eq!(normalizar_version(&tag_para_version(v)), v);
        assert_eq!(tag_para_version(&tag_para_version(v)), tag_para_version(v));
    }
}

#[test]
fn parsear_con_arroba() {
    assert_eq!(parsear_especificacion("http@1.1.0"), ("http".to_string(), Some("1.1.0".to_string())));
    assert_eq!(parsear_especificacion("  http @ 1.1.0 "), ("http".to_string(), Some("1.1.0".to_string())));
    assert_eq!(parsear_especificacion("a@b@2"), ("a@b".to_string(), Some("2".to_string())));
}

#[test]
fn parsear_con_barra() {
    assert_eq!(parsear_especificacion("http/1.1.0"), ("http".to_string(), Some("1.1.0".to_string())));
    assert_eq!(parsear_especificacion("http@/1.0"), ("http".to_string(), Some("/1.0".to_string())));
    assert_eq!(parsear_especificacion("@x/1.0"), ("@x".to_string(), Some("1.0".to_string())));
}

#[test]
fn parsear_sin_version() {
    assert_eq!(parsear_especificacion(" http "), ("http".to_string(), None));
    assert_eq!(parsear_especificacion("http@"), ("http@".to_string(), None));
    assert_eq!(parsear_especificacion("@1.0"), ("@1.0".to_string(), None));
}

#[test]
fn repo_de_github() {
    assert_eq!(extraer_repo_github("https://github.com/hersac/ump.git"), Ok("hersac/ump".to_string()));
    assert_eq!(extraer_repo_github("http://github.com/a/b"), Ok("a/b".to_string()));
    assert_eq!(extraer_repo_github("https://www.github.com/a/b.git.git"), Ok("a/b".to_string()));
}

#[test]
fn repo_fuera_de_github() {
    assert_eq!(
        extraer_repo_github("https://gitlab.com/a/b"),
        Err("URL de repositorio no válida para GitHub: https://gitlab.com/a/b".to_string())
    );
}

#[test]
fn url_de_tags() {
    assert_eq!(
        url_tags_github("https://github.com/hersac/ump.git"),
        Ok("https://api.github.com/repos/hersac/ump/tags".to_string())
    );
    assert!(url_tags_github("ftp://x").is_err());
}

#[test]
fn version_existente_normalizada() {
    let t = tags(&["v1.0.0", "v1.1.0"]);
    assert_eq!(validar_version_existe("repo", "1.1.0", &t), Ok("1.1.0".to_string()));
    assert_eq!(validar_version_existe("repo", "v1.0.0", &t), Ok("1.0.0".to_string()));
    assert_eq!(validar_version_existe("repo", " 1.0.0 ", &t), Ok("1.0.0".to_string()));
}

#[test]
fn version_por_nombre_exacto_de_tag() {
    let t = tags(&["latest"]);
    assert_eq!(validar_version_existe("repo", "latest", &t), Ok("latest".to_string()));
}

#[test]
fn version_faltante_lista_recientes() {
    let t = tags(&["v1.0.0", "v1.1.0"]);
    assert_eq!(
        validar_version_existe("repo", "2.0.0", &t),
        Err("La versión 2.0.0 no existe en el repositorio repo. Disponibles (recientes): v1.0.0, v1.1.0".to_string())
    );
    let muchos: Vec<String> = (0..12).map(|i| format!("v0.{}.0", i)).collect();
    let refs: Vec<&str> = muchos.iter().map(|s| s.as_str()).collect();
    let t = tags(&refs);
    let esperado = format!(
        "La versión 9.9.9 no existe en el repositorio r. Disponibles (recientes): {}",
        muchos[..10].join(", ")
    );
    assert_eq!(validar_version_existe("r", "9.9.9", &t), Err(esperado));
    assert_eq!(
        validar_version_existe("r", "1.0.0", &Vec::new()),
        Err("La versión 1.0.0 no existe en el repositorio r. Disponibles (recientes): ".to_string())
    );
}

#[test]
fn ultima_version_semantica() {
    let t = tags(&["v1.0.0", "v1.10.0", "v1.9.0", "latest"]);
    assert_eq!(obtener_ultima_version("r", &t), Ok("1.10.0".to_string()));
    let t = tags(&["v1.0.0-alpha", "v1.0.0", "v1.0.0-rc.1"]);
    assert_eq!(obtener_ultima_version("r", &t), Ok("1.0.0".to_string()));
    let t = tags(&["v2.0.0-beta.11", "v2.0.0-beta.2"]);
    assert_eq!(obtener_ultima_version("r", &t), Ok("2.0.0-beta.11".to_string()));
    let t = tags(&["1.2.3+build.5"]);
    assert_eq!(obtener_ultima_version("r", &t), Ok("1.2.3+build.5".to_string()));
}

#[test]
fn ultima_version_sin_tags() {
    assert_eq!(
        obtener_ultima_version("repo", &Vec::new()),
        Err("No se encontraron versiones para el repositorio repo".to_string())
    );
}

#[test]
fn ultima_version_sin_semver() {
    let t = tags(&["latest", "1.0", "v01.0.0"]);
    assert_eq!(
        obtener_ultima_version("repo", &t),
        Err("No se encontraron versiones semánticas válidas en repo".to_string())
    );
}

#[test]
fn version_nueva() {
    assert!(es_version_nueva("1.0.0", "1.1.0"));
    assert!(es_version_nueva("v1.9.0", "1.10.0"));
    assert!(!es_version_nueva("1.1.0", "1.0.0"));
    assert!(!es_version_nueva("v1.0.0", "1.0.0"));
    assert!(es_version_nueva("1.0.0-rc.1", "1.0.0"));
    assert!(es_version_nueva("abc", "abd"));
    assert!(!es_version_nueva("abc", " abc "));
    for v in ["1.0.0", "x", "", "v2.0.0-rc"] {
        assert!(!es_version_nueva(v, v));
    }
}

#[test]
fn salida_de_umbral() {
    let v = extraer_version_salida("umbral 0.4.2\n").unwrap();
    assert_eq!(v.texto(), "0.4.2");
    let v = extraer_version_salida("Umbral v1.2.3 (linux)").unwrap();
    assert_eq!(v.texto(), "1.2.3");
    assert!(extraer_version_salida("Umbral version 0.4.2").is_none());
    assert!(extraer_version_salida("").is_none());
    assert!(extraer_version_salida("umbral").is_none());
}

#[test]
fn compatibilidad_con_umbral_local() {
    assert_eq!(validar_compatibilidad_umbral(">=0.1.0", ">=0.2.0", Some("umbral v0.3.0")), Ok(()));
    assert_eq!(
        validar_compatibilidad_umbral(">=0.9.0", ">=0.2.0", Some("umbral 0.1.0")),
        Err("La librería requiere Umbral >=0.2.0 pero tienes instalado 0.1.0".to_string())
    );
    assert_eq!(validar_compatibilidad_umbral(">=0.1.0", "^0.2.0", Some("umbral 0.2.5")), Ok(()));
}

#[test]
fn compatibilidad_con_el_proyecto() {
    assert_eq!(
        validar_compatibilidad_umbral(">=0.1.0", ">=0.2.0", None),
        Err("La librería requiere Umbral >=0.2.0 pero el proyecto usa >=0.1.0".to_string())
    );
    assert_eq!(validar_compatibilidad_umbral("^0.3.0", ">=0.2.0", None), Ok(()));
    assert_eq!(validar_compatibilidad_umbral("0.2.0", ">=0.2.0", Some("umbral")), Ok(()));
}

#[test]
fn compatibilidad_invalida() {
    assert_eq!(
        validar_compatibilidad_umbral(">=0.1.0", "abc", None),
        Err("Versión Umbral requerida inválida: abc".to_string())
    );
    assert_eq!(
        validar_compatibilidad_umbral("abc", ">=0.2.0", None),
        Err("Versión Umbral del proyecto inválida: abc".to_string())
    );
    assert_eq!(
        validar_compatibilidad_umbral(">=0.1.0", ">=0.2", None),
        Err("Versión Umbral requerida inválida: >=0.2".to_string())
    );
}

#[test]
fn respuestas() {
    for si in ["", "  \n", "s", "S", "si", "Sí", "SÍ", "y", "YES", " yes \n"] {
        assert!(respuesta_afirmativa(si), "{:?}", si);
    }
    for no in ["n", "no", "nope", "sii"] {
        assert!(!respuesta_afirmativa(no), "{:?}", no);
    }
}

#[test]
fn busqueda_de_umbral() {
    let mut b = umbral_de_version("https://github.com/a/b.git", "v1.0.0");
    assert_eq!(b.pendiente(), Some("https://raw.githubusercontent.com/a/b/v1.0.0/umpkg.yml".to_string()));
    b.registrar(None);
    assert_eq!(b.pendiente(), Some("https://raw.githubusercontent.com/a/b/1.0.0/umpkg.yml".to_string()));
    b.registrar(Some("   ".to_string()));
    assert_eq!(b.pendiente(), None);
    assert_eq!(b.resultado(), None);
}

#[test]
fn busqueda_de_umbral_primera_lectura() {
    let mut b = umbral_de_version("https://github.com/a/b", "1.0.0");
    b.registrar(Some(">=0.2.0".to_string()));
    assert_eq!(b.pendiente(), None);
    assert_eq!(b.resultado(), Some(">=0.2.0".to_string()));
}

#[test]
fn busqueda_de_umbral_fuera_de_github() {
    let b = umbral_de_version("https://gitlab.com/a/b", "1.0.0");
    assert_eq!(b.pendiente(), None);
    assert_eq!(b.resultado(), None);
}

#[test]
fn plan_de_descarga() {
    let p = descargar_paquete("http", "https://github.com/a/http.git", "1.0.0", "modules_ump");
    assert_eq!(p.destino, "modules_ump/http");
    assert_eq!(p.tag, "v1.0.0");
    assert_eq!(
        p.argumentos,
        vec!["clone", "--depth", "1", "--branch", "v1.0.0", "https://github.com/a/http.git", "modules_ump/http"]
    );
    assert_eq!(p.ruta_git, "modules_ump/http/.git");
    let p = descargar_paquete("/tmp/x", "r", "v2", "modules_ump/");
    assert_eq!(p.destino, "/tmp/x");
    let p = descargar_paquete("x", "r", "v2", "modules_ump/");
    assert_eq!(p.destino, "modules_ump/x");
}

#[test]
fn busqueda_de_umbral_con_respaldo() {
    let mut b = umbral_de_version("https://github.com/a/b", "1.0.0");
    b.registrar(None);
    b.registrar(None);
    assert_eq!(b.resultado_o(">=0.1.0"), ">=0.1.0");
    let mut b = umbral_de_version("https://github.com/a/b", "1.0.0");
    b.registrar(Some("^0.3.0".to_string()));
    assert_eq!(b.resultado_o(">=0.1.0"), "^0.3.0");
}

#[test]
fn base_del_proyecto() {
    assert_eq!(validar_base_proyecto(">=0.2.0", "^0.2.0"), Ok(()));
    assert_eq!(validar_base_proyecto("0.3.0", ">=0.2.0"), Ok(()));
    assert_eq!(validar_base_proyecto("1.0.0", ">=0.2.0"), Ok(()));
    assert_eq!(
        validar_base_proyecto("0.1.9", ">=0.2.0"),
        Err("La librería requiere Umbral >=0.2.0 pero el proyecto usa 0.1.9".to_string())
    );
    assert_eq!(
        validar_base_proyecto("x", "y"),
        Err("Versión Umbral requerida inválida: y".to_string())
    );
}

#[test]
fn repo_sin_esquema_y_con_git() {
    assert_eq!(extraer_repo_github("github.com/a/b"), Ok("a/b".to_string()));
    assert_eq!(extraer_repo_github("http://github.com/a/b.git"), Ok("a/b".to_string()));
}

#[test]
fn normalizar_dos_veces() {
    for v in ["v1.0.0", "vv2", "1.2", "v"] {
        let una = normalizar_version(v);
        assert_eq!(normalizar_version(&una), una);
    }
    assert!(!es_version_nueva("v1.0.0", " 1.0.0"));
}

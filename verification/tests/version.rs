use ump::texto::{buscar, buscar_ultimo, palabras_de, quitar_prefijo, quitar_sufijo, recortar};
use ump::comun::{extraer_version_salida, obtener_ultima_version, validar_compatibilidad_umbral, TagGithub};
use ump::version::escribir_decimal;

#[test]
fn version_escrita() {
    for t in ["1.2.3", "0.0.0", "1.2.3-rc.1+b5", "10.0.1+build", "18446744073709551615.0.0"] {
        let salida = format!("umbral {}", t);
        assert_eq!(extraer_version_salida(&salida).unwrap().texto(), t);
    }
    assert!(extraer_version_salida("umbral 1.0").is_none());
    assert!(extraer_version_salida("umbral 1.0.0x").is_none());
}

#[test]
fn orden_de_versiones() {
    let tags: Vec<TagGithub> = ["1.9.0", "1.10.0-alpha", "1.10.0", "1.2.0"]
        .iter()
        .map(|n| TagGithub { name: n.to_string() })
        .collect();
    assert_eq!(obtener_ultima_version("r", &tags), Ok("1.10.0".to_string()));
    assert_eq!(obtener_ultima_version("r", &tags[..2].to_vec()), Ok("1.10.0-alpha".to_string()));
}

#[test]
fn requisitos() {
    assert_eq!(validar_compatibilidad_umbral("0.0.1", ">=0.2.0", Some("umbral 0.3.0")), Ok(()));
    assert!(validar_compatibilidad_umbral("9.9.9", ">=0.2.0", Some("umbral 0.1.9")).is_err());
    assert_eq!(validar_compatibilidad_umbral("0.0.1", "0.2.0", Some("umbral 0.2.7")), Ok(()));
    assert!(validar_compatibilidad_umbral("0.0.1", "0.2.0", Some("umbral 0.3.0")).is_err());
}

#[test]
fn decimales() {
    assert_eq!(escribir_decimal(0), "0");
    assert_eq!(escribir_decimal(7), "7");
    assert_eq!(escribir_decimal(1234), "1234");
    assert_eq!(escribir_decimal(u64::MAX), u64::MAX.to_string());
}

#[test]
fn textos() {
    assert_eq!(recortar("\u{3000} a b\t\n"), "a b");
    assert_eq!(recortar(""), "");
    assert_eq!(quitar_prefijo("aaab", "a"), "b");
    assert_eq!(quitar_prefijo("ababa", "ab"), "a");
    assert_eq!(quitar_sufijo("x.git.git", ".git"), "x");
    assert_eq!(buscar("a.github.com/b", "github.com/"), Some(2));
    assert_eq!(buscar("abc", "d"), None);
    assert_eq!(buscar("abc", ""), Some(0));
    assert_eq!(buscar_ultimo("a@b@c", '@'), Some(3));
    assert_eq!(buscar_ultimo("ñandú", 'ú'), Some(4));
    assert_eq!(palabras_de("  umbral \t v0.1.0\n"), vec!["umbral".to_string(), "v0.1.0".to_string()]);
    assert!(palabras_de(" \n ").is_empty());
}

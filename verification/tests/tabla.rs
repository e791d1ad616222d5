use ump::tabla::Tabla;

#[test]
fn tabla_inserta_y_lee() {
    let mut t: Tabla<String> = Tabla::new();
    assert!(t.is_empty());
    t.insertar("b".to_string(), "1".to_string());
    t.insertar("a".to_string(), "2".to_string());
    t.insertar("b".to_string(), "3".to_string());
    assert_eq!(t.len(), 2);
    assert_eq!(t.obtener("b"), Some(&"3".to_string()));
    assert_eq!(t.obtener("a"), Some(&"2".to_string()));
    assert_eq!(t.obtener("c"), None);
    assert_eq!(t.clave(0), "b");
    assert_eq!(t.clave(1), "a");
    assert_eq!(t.valor(0), "3");
}

#[test]
fn tabla_remueve() {
    let mut t: Tabla<u32> = Tabla::new();
    t.insertar("x".to_string(), 1);
    t.insertar("y".to_string(), 2);
    t.insertar("z".to_string(), 3);
    assert_eq!(t.remover("y"), Some(2));
    assert_eq!(t.remover("y"), None);
    assert!(!t.contiene("y"));
    assert_eq!(t.len(), 2);
    assert_eq!(t.clave(0), "x");
    assert_eq!(t.clave(1), "z");
    assert_eq!(t.posicion("z"), Some(1));
}

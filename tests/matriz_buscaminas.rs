use buscaminas::{MatrizBuscaminas, ASTERISCO_BYTE, INTERDOT_FIRST_BYTE};

#[test]
fn test_new_crea_matriz_vacia() {
    let matriz = MatrizBuscaminas::new();
    assert_eq!(matriz.columnas, 0);
    assert_eq!(matriz.filas, 0);
    assert_eq!(matriz.valores.len(), 0);
}

#[test]
fn test_popular_desde_bytes_agrega_menos_uno_si_encuentra_asterisco() {
    let mut matriz = MatrizBuscaminas::new();
    let bytes = [ASTERISCO_BYTE];
    match matriz.popular_desde_bytes(&bytes) {
        Ok(()) => {}
        Err(error) => {
            println!("Error al parsear archivo a tablero: {:?}", error);
            return;
        }
    }
    assert_eq!(matriz.valores.len(), 1);
    assert_eq!(matriz.valores[0], -1);
}

#[test]
fn test_popular_desde_bytes_agrega_cero_si_encuentra_punto() {
    let mut matriz = MatrizBuscaminas::new();
    let bytes = [INTERDOT_FIRST_BYTE];
    match matriz.popular_desde_bytes(&bytes) {
        Ok(()) => {}
        Err(error) => {
            println!("Error al parsear archivo a tablero: {:?}", error);
            return;
        }
    }
    assert_eq!(matriz.valores.len(), 1);
    assert_eq!(matriz.valores[0], 0);
}

#[test]
fn test_popular_desde_bytes_agrega_fila_si_encuentra_salto_de_linea() {
    let mut matriz = MatrizBuscaminas::new();
    let bytes = [b'\n', b'\n', b'\n'];
    match matriz.popular_desde_bytes(&bytes) {
        Ok(()) => {}
        Err(error) => {
            println!("Error al parsear archivo a tablero: {:?}", error);
            return;
        }
    }
    assert_eq!(matriz.valores.len(), 0);
    assert_eq!(matriz.filas, 3);
}

#[test]
fn test_popular_desde_bytes_agrega_columnas_si_no_encuentra_salto_de_linea() {
    let mut matriz = MatrizBuscaminas::new();
    let bytes = [INTERDOT_FIRST_BYTE, INTERDOT_FIRST_BYTE];
    match matriz.popular_desde_bytes(&bytes) {
        Ok(()) => {}
        Err(error) => {
            println!("Error al parsear archivo a tablero: {:?}", error);
            return;
        }
    }
    assert_eq!(matriz.valores.len(), 2);
    assert_eq!(matriz.columnas, 2);
}

#[test]
fn test_contar_bombas_suma_adyacentes_horizontales() {
    let mut matriz = MatrizBuscaminas::new();
    let bytes = [
        INTERDOT_FIRST_BYTE,
        ASTERISCO_BYTE,
        INTERDOT_FIRST_BYTE,
        b'\n',
    ];
    match matriz.popular_desde_bytes(&bytes) {
        Ok(()) => {}
        Err(error) => {
            println!("Error al parsear archivo a tablero: {:?}", error);
            return;
        }
    }
    matriz.contar_bombas();
    assert_eq!(matriz.valores[0], 1);
    assert_eq!(matriz.valores[2], 1);
}

#[test]
fn test_contar_bombas_suma_adyacentes_verticales() {
    let mut matriz = MatrizBuscaminas::new();
    let bytes = [
        INTERDOT_FIRST_BYTE,
        b'\n',
        ASTERISCO_BYTE,
        b'\n',
        INTERDOT_FIRST_BYTE,
        b'\n',
    ];
    match matriz.popular_desde_bytes(&bytes) {
        Ok(()) => {}
        Err(error) => {
            println!("Error al parsear archivo a tablero: {:?}", error);
            return;
        }
    }
    matriz.contar_bombas();
    assert_eq!(matriz.valores[0], 1);
    assert_eq!(matriz.valores[2], 1);
}

#[test]
fn test_contar_bombas_suma_adyacentes_diagonales() {
    let mut matriz = MatrizBuscaminas::new();
    let bytes = [
        INTERDOT_FIRST_BYTE,
        INTERDOT_FIRST_BYTE,
        b'\n',
        ASTERISCO_BYTE,
        INTERDOT_FIRST_BYTE,
        b'\n',
        INTERDOT_FIRST_BYTE,
        INTERDOT_FIRST_BYTE,
        b'\n',
    ];
    match matriz.popular_desde_bytes(&bytes) {
        Ok(()) => {}
        Err(error) => {
            println!("Error al parsear archivo a tablero: {:?}", error);
            return;
        }
    }
    matriz.contar_bombas();
    assert_eq!(matriz.valores[1], 1);
    assert_eq!(matriz.valores[5], 1);
}

#[test]
fn test_contar_bombas_suma_corectamente_dos_bombas() {
    let mut matriz = MatrizBuscaminas::new();
    let bytes = [ASTERISCO_BYTE, INTERDOT_FIRST_BYTE, ASTERISCO_BYTE, b'\n'];
    match matriz.popular_desde_bytes(&bytes) {
        Ok(()) => {}
        Err(error) => {
            println!("Error al parsear archivo a tablero: {:?}", error);
            return;
        }
    }
    matriz.contar_bombas();
    assert_eq!(matriz.valores[1], 2);
}

#[test]
fn test_contar_bombas_suma_corectamente_tres_bombas() {
    let mut matriz = MatrizBuscaminas::new();
    let bytes = [
        ASTERISCO_BYTE,
        INTERDOT_FIRST_BYTE,
        ASTERISCO_BYTE,
        b'\n',
        INTERDOT_FIRST_BYTE,
        ASTERISCO_BYTE,
        INTERDOT_FIRST_BYTE,
    ];
    match matriz.popular_desde_bytes(&bytes) {
        Ok(()) => {}
        Err(error) => {
            println!("Error al parsear archivo a tablero: {:?}", error);
            return;
        }
    }
    matriz.contar_bombas();
    assert_eq!(matriz.valores[1], 3);
}

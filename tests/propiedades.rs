use buscaminas::{ruta_desde_argumentos, ErrorArgumentos, ErrorParseo, MatrizBuscaminas};

fn poblada(texto: &str) -> (MatrizBuscaminas, Result<(), ErrorParseo>) {
    let mut matriz = MatrizBuscaminas::new();
    let r = matriz.popular_desde_bytes(texto.as_bytes());
    (matriz, r)
}

fn contada(texto: &str) -> MatrizBuscaminas {
    let (mut matriz, r) = poblada(texto);
    assert_eq!(r, Ok(()));
    matriz.contar_bombas();
    matriz
}

fn dibujo(matriz: &MatrizBuscaminas) -> String {
    String::from_utf8(matriz.bytes_como_buscaminas()).unwrap()
}

#[test]
fn celdas_igual_a_filas_por_columnas() {
    for texto in ["*.*\n", "·*\n*·\n", "**\n..\n.*", "\n\n", "", "*.\r\n.*\r\n", "...."] {
        let (matriz, r) = poblada(texto);
        assert_eq!(r, Ok(()), "{}", texto);
        assert_eq!(matriz.valores.len(), matriz.filas * matriz.columnas, "{}", texto);
    }
}

#[test]
fn tablero_sin_minas_queda_en_cero() {
    let matriz = contada("...\n...\n");
    assert_eq!(matriz.filas, 2);
    assert_eq!(matriz.columnas, 3);
    assert_eq!(matriz.valores, vec![0, 0, 0, 0, 0, 0]);
}

#[test]
fn una_mina_suma_uno_a_sus_vecinas() {
    let matriz = contada("....\n.*..\n....\n....\n");
    assert_eq!(
        matriz.valores,
        vec![1, 1, 1, 0, 1, -1, 1, 0, 1, 1, 1, 0, 0, 0, 0, 0]
    );
}

#[test]
fn una_mina_en_una_esquina() {
    let matriz = contada("*..\n...\n");
    assert_eq!(matriz.valores, vec![-1, 1, 0, 1, 1, 0]);
}

#[test]
fn dos_minas_se_suman_en_la_vecina_comun() {
    let matriz = contada("*.\n.*\n");
    assert_eq!(matriz.valores, vec![-1, 2, 2, -1]);
}

#[test]
fn ocho_minas_alrededor() {
    let matriz = contada("***\n*.*\n***\n");
    assert_eq!(matriz.valores[4], 8);
    assert_eq!(dibujo(&matriz), "***\n*8*\n***\n");
}

#[test]
fn tablero_vacio_se_dibuja_sin_lineas() {
    let matriz = MatrizBuscaminas::new();
    assert_eq!(matriz.bytes_como_buscaminas(), Vec::<u8>::new());
}

#[test]
fn ida_y_vuelta_de_una_fila() {
    let (mut matriz, r) = poblada("*.*\n");
    assert_eq!(r, Ok(()));
    assert_eq!(matriz.filas, 1);
    assert_eq!(matriz.columnas, 3);
    assert_eq!(matriz.valores, vec![-1, 0, -1]);
    matriz.contar_bombas();
    assert_eq!(matriz.valores, vec![-1, 2, -1]);
    assert_eq!(dibujo(&matriz), "*2*\n");
}

#[test]
fn dibujo_con_celdas_vacias() {
    let matriz = contada("·*·\n···\n···\n");
    assert_eq!(dibujo(&matriz), "1*1\n111\n···\n");
}

#[test]
fn filas_de_distinto_largo_dan_forma_invalida() {
    let (matriz, r) = poblada("***\n**\n");
    assert_eq!(r, Err(ErrorParseo::FormaInvalida));
    assert_eq!(matriz.valores.len(), 0);
}

#[test]
fn ultima_fila_sin_salto_corta_da_forma_invalida() {
    let (matriz, r) = poblada("**\n*");
    assert_eq!(r, Err(ErrorParseo::FormaInvalida));
    assert_eq!(matriz.valores.len(), 0);
    assert_eq!(matriz.filas, 2);
    assert_eq!(matriz.columnas, 2);
}

#[test]
fn caracter_no_permitido_da_caracter_invalido() {
    let (matriz, r) = poblada("*x\n");
    assert_eq!(r, Err(ErrorParseo::CaracterInvalido));
    assert_eq!(matriz.valores.len(), 0);
}

#[test]
fn se_informa_el_primer_error() {
    let (_, r) = poblada("**\n*\nx");
    assert_eq!(r, Err(ErrorParseo::FormaInvalida));
    let (_, r) = poblada("*x\n*\n");
    assert_eq!(r, Err(ErrorParseo::CaracterInvalido));
}

#[test]
fn entrada_vacia_da_tablero_vacio() {
    let (matriz, r) = poblada("");
    assert_eq!(r, Ok(()));
    assert_eq!((matriz.filas, matriz.columnas, matriz.valores.len()), (0, 0, 0));
    let (matriz, r) = poblada("\r");
    assert_eq!(r, Ok(()));
    assert_eq!((matriz.filas, matriz.columnas, matriz.valores.len()), (0, 0, 0));
}

#[test]
fn retorno_de_carro_se_ignora() {
    let (matriz, r) = poblada("*.\r\n.*\r\n");
    assert_eq!(r, Ok(()));
    assert_eq!((matriz.filas, matriz.columnas), (2, 2));
    assert_eq!(matriz.valores, vec![-1, 0, 0, -1]);
}

#[test]
fn ultima_fila_sin_salto_cuenta() {
    let (matriz, r) = poblada("*.\n.*");
    assert_eq!(r, Ok(()));
    assert_eq!((matriz.filas, matriz.columnas), (2, 2));
}

#[test]
fn cantidad_de_argumentos_invalida() {
    let tres = vec!["prog".to_string(), "a".to_string(), "b".to_string(), "c".to_string()];
    assert_eq!(ruta_desde_argumentos(&tres), Err(ErrorArgumentos::CantidadInvalida));
    let ninguno = vec!["prog".to_string()];
    assert_eq!(ruta_desde_argumentos(&ninguno), Err(ErrorArgumentos::CantidadInvalida));
    let dos = vec!["prog".to_string(), "a".to_string(), "b".to_string()];
    assert_eq!(ruta_desde_argumentos(&dos), Err(ErrorArgumentos::CantidadInvalida));
}

#[test]
fn un_argumento_es_la_ruta() {
    let uno = vec!["prog".to_string(), "tablero.txt".to_string()];
    assert_eq!(ruta_desde_argumentos(&uno), Ok("tablero.txt".to_string()));
}

#[test]
fn resto_sin_celdas_tras_el_ultimo_salto_da_forma_invalida() {
    let (matriz, r) = poblada("**\n\r");
    assert_eq!(r, Err(ErrorParseo::FormaInvalida));
    assert_eq!(matriz.valores.len(), 0);
    let mut matriz = MatrizBuscaminas::new();
    let r = matriz.popular_desde_bytes(&[b'*', b'*', b'\n', 0xB7]);
    assert_eq!(r, Err(ErrorParseo::FormaInvalida));
    assert_eq!(matriz.valores.len(), 0);
}

#[test]
fn linea_terminada_mas_corta_no_deja_celdas() {
    let (matriz, r) = poblada("*.*\n*.\n");
    assert_eq!(r, Err(ErrorParseo::FormaInvalida));
    assert_eq!(matriz.valores.len(), 0);
    assert_eq!((matriz.filas, matriz.columnas), (2, 3));
}

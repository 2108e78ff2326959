//! Formato de entrada del tablero: bytes con minas, celdas vacias y saltos de
//! linea.
use vstd::prelude::*;

use crate::matriz_buscaminas::{ASTERISCO_BYTE, DOT_BYTE, INTERDOT_FIRST_BYTE, INTERDOT_SECOND_BYTE};

verus! {

/// Byte del salto de linea.
pub const SALTO_DE_LINEA: u8 = 0x0A;

/// Byte del retorno de carro, que se ignora.
pub const RETORNO_DE_CARRO: u8 = 0x0D;

/// Motivo por el que un mapa no se puede leer.
#[derive(Debug, Clone, Copy, PartialEq, Eq, Structural)]
pub enum ErrorParseo {
    /// Aparece un byte que no es mina, celda vacia, salto de linea ni byte ignorado.
    CaracterInvalido,
    /// Una fila tiene una cantidad de celdas distinta de la primera.
    FormaInvalida,
}

/// El byte es una celda: una mina o una celda vacia (en cualquiera de sus dos formas).
pub open spec fn es_simbolo(b: u8) -> bool {
    b == ASTERISCO_BYTE || b == INTERDOT_FIRST_BYTE || b == DOT_BYTE
}

/// El byte no aporta nada: el segundo byte de '·' o un retorno de carro.
pub open spec fn es_ignorado(b: u8) -> bool {
    b == INTERDOT_SECOND_BYTE || b == RETORNO_DE_CARRO
}

/// Valor inicial de la celda que describe el byte `b`.
pub open spec fn valor_inicial(b: u8) -> i32 {
    if b == ASTERISCO_BYTE {
        -1i32
    } else {
        0i32
    }
}

/// Celdas que describe la entrada, en orden: -1 por cada mina, 0 por cada celda vacia.
pub open spec fn celdas_de(s: Seq<u8>) -> Seq<i32>
    decreases s.len(),
{
    if s.len() == 0 {
        seq![]
    } else if es_simbolo(s.last()) {
        celdas_de(s.drop_last()).push(valor_inicial(s.last()))
    } else {
        celdas_de(s.drop_last())
    }
}

/// Cantidad de celdas antes del primer salto de linea.
pub open spec fn columnas_de(s: Seq<u8>) -> nat
    decreases s.len(),
{
    if s.len() == 0 || s[0] == SALTO_DE_LINEA {
        0
    } else if es_simbolo(s[0]) {
        1 + columnas_de(s.drop_first())
    } else {
        columnas_de(s.drop_first())
    }
}

/// Cantidad de saltos de linea.
pub open spec fn saltos_de(s: Seq<u8>) -> nat
    decreases s.len(),
{
    if s.len() == 0 {
        0
    } else if s.last() == SALTO_DE_LINEA {
        saltos_de(s.drop_last()) + 1
    } else {
        saltos_de(s.drop_last())
    }
}

/// Cantidad de celdas despues del ultimo salto de linea.
pub open spec fn pendientes_de(s: Seq<u8>) -> nat
    decreases s.len(),
{
    if s.len() == 0 || s.last() == SALTO_DE_LINEA {
        0
    } else if es_simbolo(s.last()) {
        pendientes_de(s.drop_last()) + 1
    } else {
        pendientes_de(s.drop_last())
    }
}

/// Cantidad de filas: una por salto de linea, mas una si quedan celdas despues
/// del ultimo.
pub open spec fn filas_de(s: Seq<u8>) -> nat {
    saltos_de(s) + if pendientes_de(s) > 0 {
        1nat
    } else {
        0nat
    }
}

/// Recorre la entrada contando las celdas de la linea en curso; al llegar a un
/// salto de linea la cuenta tiene que ser `columnas`. Da la cuenta de la ultima
/// linea, o el primer error que encuentra.
pub open spec fn escanear(s: Seq<u8>, columnas: nat) -> Result<nat, ErrorParseo>
    decreases s.len(),
{
    if s.len() == 0 {
        Ok(0)
    } else {
        match escanear(s.drop_last(), columnas) {
            Err(e) => Err(e),
            Ok(cuenta) => {
                let b = s.last();
                if b == SALTO_DE_LINEA {
                    if cuenta == columnas {
                        Ok(0)
                    } else {
                        Err(ErrorParseo::FormaInvalida)
                    }
                } else if es_simbolo(b) {
                    Ok(cuenta + 1)
                } else if es_ignorado(b) {
                    Ok(cuenta)
                } else {
                    Err(ErrorParseo::CaracterInvalido)
                }
            },
        }
    }
}

/// Resultado de validar la entrada con `columnas` celdas por fila: el primer
/// error del recorrido, o la forma de la ultima linea, que si la entrada no
/// esta vacia ni termina en un salto de linea tambien debe tener `columnas`.
pub open spec fn validar_con(s: Seq<u8>, columnas: nat) -> Result<(), ErrorParseo> {
    match escanear(s, columnas) {
        Err(e) => Err(e),
        Ok(cuenta) => if cuenta == columnas || s.len() == 0 || s.last() == SALTO_DE_LINEA {
            Ok(())
        } else {
            Err(ErrorParseo::FormaInvalida)
        },
    }
}

/// Resultado de validar la entrada con las columnas de su primera linea.
pub open spec fn validar(s: Seq<u8>) -> Result<(), ErrorParseo> {
    validar_con(s, columnas_de(s))
}

/// Mientras el recorrido no falla, la cuenta es la de las celdas de la ultima
/// linea y cada linea terminada aporta `columnas` celdas.
proof fn lema_escanear_cuenta(s: Seq<u8>, columnas: nat)
    requires
        escanear(s, columnas) is Ok,
    ensures
        escanear(s, columnas)->Ok_0 == pendientes_de(s),
        celdas_de(s).len() == saltos_de(s) * columnas + pendientes_de(s),
    decreases s.len(),
{
    if s.len() > 0 {
        let p = s.drop_last();
        lema_escanear_cuenta(p, columnas);
        let k = saltos_de(p);
        assert(k * columnas + columnas == (k + 1) * columnas) by (nonlinear_arith);
        if s.last() == SALTO_DE_LINEA {
            assert(celdas_de(s) == celdas_de(p));
        }
    } else {
        assert(0 * columnas == 0) by (nonlinear_arith);
    }
}

/// Una vez que el recorrido falla, sigue fallando con el mismo error.
pub proof fn lema_escanear_error(s: Seq<u8>, i: int, columnas: nat)
    requires
        0 <= i <= s.len(),
        escanear(s.take(i), columnas) is Err,
    ensures
        escanear(s, columnas) == escanear(s.take(i), columnas),
    decreases s.len() - i,
{
    if i < s.len() {
        assert(s.take(i + 1).drop_last() =~= s.take(i));
        lema_escanear_error(s, i + 1, columnas);
    } else {
        assert(s.take(i) =~= s);
    }
}

/// Toda entrada valida describe un tablero rectangular: tiene exactamente
/// `filas * columnas` celdas.
pub proof fn lema_celdas_de_entrada_valida(s: Seq<u8>)
    requires
        validar(s) is Ok,
    ensures
        celdas_de(s).len() == filas_de(s) * columnas_de(s),
{
    let c = columnas_de(s);
    lema_escanear_cuenta(s, c);
    assert(saltos_de(s) * c + c == (saltos_de(s) + 1) * c) by (nonlinear_arith);
}

/// Si una linea terminada en salto de linea no tiene tantas celdas como la
/// primera, la entrada no es valida.
pub proof fn lema_linea_de_otro_largo(s: Seq<u8>, i: int)
    requires
        0 <= i < s.len(),
        s[i] == SALTO_DE_LINEA,
        pendientes_de(s.take(i)) != columnas_de(s),
    ensures
        validar(s) is Err,
{
    let c = columnas_de(s);
    if escanear(s.take(i), c) is Err {
        lema_escanear_error(s, i, c);
    } else {
        lema_escanear_cuenta(s.take(i), c);
        assert(s.take(i + 1).drop_last() =~= s.take(i));
        assert(escanear(s.take(i + 1), c) is Err);
        lema_escanear_error(s, i + 1, c);
    }
}

} // verus!

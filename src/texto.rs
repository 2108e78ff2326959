//! Texto del tablero: una linea por fila, con '*' para las minas, '·' para las
//! celdas sin minas vecinas y el digito de la cuenta para las demas.
use vstd::prelude::*;

use crate::lectura::SALTO_DE_LINEA;
use crate::matriz_buscaminas::{ASTERISCO_BYTE, INTERDOT_FIRST_BYTE, INTERDOT_SECOND_BYTE};

verus! {

/// Byte del digito '0'.
pub const CERO_BYTE: u8 = 0x30;

/// Bytes UTF-8 con los que se escribe una celda de valor `x`.
pub open spec fn simbolo_de(x: i32) -> Seq<u8> {
    if x == -1 {
        seq![ASTERISCO_BYTE]
    } else if x == 0 {
        seq![INTERDOT_FIRST_BYTE, INTERDOT_SECOND_BYTE]
    } else {
        seq![(CERO_BYTE + x) as u8]
    }
}

/// Bytes de una sucesion de celdas, una tras otra.
pub open spec fn texto_celdas(v: Seq<i32>) -> Seq<u8>
    decreases v.len(),
{
    if v.len() == 0 {
        seq![]
    } else {
        texto_celdas(v.drop_last()) + simbolo_de(v.last())
    }
}

/// Bytes de las primeras `filas` filas del tablero, cada una terminada en un
/// salto de linea.
pub open spec fn texto_tablero(v: Seq<i32>, filas: nat, columnas: nat) -> Seq<u8>
    decreases filas,
{
    if filas == 0 {
        seq![]
    } else {
        let f = (filas - 1) as nat;
        texto_tablero(v, f, columnas) + texto_celdas(v.subrange((f * columnas) as int, (filas * columnas) as int)) + seq![
            SALTO_DE_LINEA,
        ]
    }
}

} // verus!

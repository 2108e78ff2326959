use vstd::prelude::*;

use crate::lectura::{
    celdas_de, columnas_de, escanear, filas_de, lema_celdas_de_entrada_valida, lema_escanear_error,
    pendientes_de, saltos_de, validar, validar_con, ErrorParseo, RETORNO_DE_CARRO, SALTO_DE_LINEA,
};
use crate::texto::{texto_celdas, texto_tablero, CERO_BYTE};
use crate::vecindad::{
    acotada, en_tablero, indice, lema_coordenadas, lema_indice_en_rango, lema_ocho_pasos,
    lema_previas_paso, lema_previas_todas, lema_sumado_cota, lema_sumado_fuera, lema_vecinas_en,
    minas_vecinas_previas, son_vecinas, sumado_en, uno_si, valor_contado,
};

verus! {

/// Byte del caracter '*', que representa una mina.
pub const ASTERISCO_BYTE: u8 = 0x2A;

/// Primer byte de la codificacion UTF-8 de '·', que representa una celda vacia.
pub const INTERDOT_FIRST_BYTE: u8 = 0xC2;

/// Segundo byte de la codificacion UTF-8 de '·'; se ignora al leer.
pub const INTERDOT_SECOND_BYTE: u8 = 0xB7;

/// Byte del caracter '.', otra forma de escribir una celda vacia.
pub const DOT_BYTE: u8 = 0x2E;

/// Matriz de enteros guardada por filas, usada como tablero de buscaminas.
/// Una celda vale -1 si tiene una mina; si no, la cantidad de minas vecinas.
pub struct MatrizBuscaminas {
    pub valores: Vec<i32>,
    pub columnas: usize,
    pub filas: usize,
}

impl MatrizBuscaminas {
    /// Las celdas son exactamente `filas * columnas`.
    pub open spec fn bien_formada(&self) -> bool {
        self.valores@.len() == self.filas * self.columnas
    }

    /// Devuelve una matriz vacia: sin filas, sin columnas y sin celdas.
    pub fn new() -> (m: MatrizBuscaminas)
        ensures
            m.filas == 0,
            m.columnas == 0,
            m.valores@.len() == 0,
            m.bien_formada(),
    {
        MatrizBuscaminas { columnas: 0, filas: 0, valores: Vec::new() }
    }

    /// Llena la matriz a partir de bytes con '*' para las minas, '·' (o '.') para
    /// las celdas vacias y un salto de linea al final de cada fila. Las filas y
    /// columnas quedan siempre calculadas; si la entrada no es valida las celdas
    /// quedan vacias y se devuelve el primer error encontrado.
    pub fn popular_desde_bytes(&mut self, bytes: &[u8]) -> (r: Result<(), ErrorParseo>)
        ensures
            final(self).filas == filas_de(bytes@),
            final(self).columnas == columnas_de(bytes@),
            r == validar(bytes@),
            r is Ok ==> final(self).valores@ == celdas_de(bytes@),
            r is Ok ==> final(self).bien_formada(),
            r is Err ==> final(self).valores@.len() == 0,
    {
        self.filas = Self::contar_filas(bytes);
        self.columnas = Self::contar_columnas(bytes);
        if let Err(e) = Self::validar_mapa(bytes, self.columnas) {
            self.valores = Vec::new();
            return Err(e);
        }
        let mut valores: Vec<i32> = Vec::new();
        let mut i: usize = 0;
        while i < bytes.len()
            invariant
                i <= bytes@.len(),
                valores@ == celdas_de(bytes@.take(i as int)),
            decreases bytes@.len() - i,
        {
            let b = bytes[i];
            assert(bytes@.take(i + 1).drop_last() =~= bytes@.take(i as int));
            if b == ASTERISCO_BYTE {
                valores.push(-1);
            } else if b == INTERDOT_FIRST_BYTE || b == DOT_BYTE {
                valores.push(0);
            }
            i = i + 1;
        }
        assert(bytes@.take(i as int) =~= bytes@);
        proof {
            lema_celdas_de_entrada_valida(bytes@);
        }
        self.valores = valores;
        Ok(())
    }

    /// Completa cada celda sin mina con la cantidad de minas en sus ocho celdas
    /// vecinas. Las minas siguen valiendo -1.
    pub fn contar_bombas(&mut self)
        requires
            old(self).bien_formada(),
            acotada(old(self).valores@, 8),
        ensures
            final(self).filas == old(self).filas,
            final(self).columnas == old(self).columnas,
            final(self).valores@.len() == old(self).valores@.len(),
            final(self).bien_formada(),
            forall|j: int|
                0 <= j < old(self).valores@.len() ==> #[trigger] final(self).valores@[j] == valor_contado(
                    old(self).valores@,
                    old(self).filas as int,
                    old(self).columnas as int,
                    j,
                ),
    {
        let ghost v = self.valores@;
        let ghost filas = self.filas as int;
        let ghost columnas = self.columnas as int;
        let mut k: usize = 0;
        while k < self.valores.len()
            invariant
                self.filas == filas,
                self.columnas == columnas,
                self.valores@.len() == v.len(),
                v.len() == filas * columnas,
                k <= v.len(),
                acotada(v, 8),
                acotada(self.valores@, 16),
                forall|j: int|
                    0 <= j < v.len() ==> #[trigger] self.valores@[j] == if v[j] == -1 {
                        v[j] as int
                    } else {
                        v[j] + minas_vecinas_previas(v, filas, columnas, j / columnas, j % columnas, k as int)
                    },
            decreases v.len() - k,
        {
            if self.valores[k] == -1 {
                let ghost antes = self.valores@;
                self.aumentar_adyacentes(k);
                proof {
                    assert forall|j: int| 0 <= j < v.len() implies #[trigger] self.valores@[j] == if v[j]
                        == -1 {
                        v[j] as int
                    } else {
                        v[j] + minas_vecinas_previas(v, filas, columnas, j / columnas, j % columnas, k + 1)
                    } by {
                        lema_coordenadas(filas, columnas, j);
                        lema_previas_paso(v, filas, columnas, j / columnas, j % columnas, k as int);
                        assert(antes[j] == self.valores@[j] - uno_si(antes[j] != -1 && son_vecinas(columnas, k as int, j)));
                    }
                }
            } else {
                proof {
                    assert forall|j: int| 0 <= j < v.len() implies #[trigger] self.valores@[j] == if v[j]
                        == -1 {
                        v[j] as int
                    } else {
                        v[j] + minas_vecinas_previas(v, filas, columnas, j / columnas, j % columnas, k + 1)
                    } by {
                        lema_coordenadas(filas, columnas, j);
                        lema_previas_paso(v, filas, columnas, j / columnas, j % columnas, k as int);
                    }
                }
            }
            k = k + 1;
        }
        proof {
            assert forall|j: int| 0 <= j < v.len() implies #[trigger] self.valores@[j] == valor_contado(
                v,
                filas,
                columnas,
                j,
            ) by {
                lema_previas_todas(v, filas, columnas, j / columnas, j % columnas);
            }
        }
    }

    /// Texto del tablero en UTF-8: una linea por fila, con '*' para las minas,
    /// '·' para las celdas sin minas vecinas y el digito de la cuenta para las
    /// demas.
    pub fn bytes_como_buscaminas(&self) -> (r: Vec<u8>)
        requires
            self.bien_formada(),
            acotada(self.valores@, 9),
        ensures
            r@ == texto_tablero(self.valores@, self.filas as nat, self.columnas as nat),
            self.filas == 0 ==> r@.len() == 0,
    {
        let ghost v = self.valores@;
        let ghost columnas = self.columnas as int;
        let total = self.valores.len();
        let mut salida: Vec<u8> = Vec::new();
        let mut f: usize = 0;
        while f < self.filas
            invariant
                self.valores@ == v,
                total == v.len(),
                self.bien_formada(),
                acotada(v, 9),
                columnas == self.columnas,
                f <= self.filas,
                salida@ == texto_tablero(v, f as nat, columnas as nat),
            decreases self.filas - f,
        {
            assert((f + 1) * columnas == f * columnas + columnas) by (nonlinear_arith);
            assert(f * columnas + columnas <= self.filas * columnas) by (nonlinear_arith)
                requires
                    f < self.filas,
                    0 <= columnas,
            ;
            let inicio = f * self.columnas;
            let mut c: usize = 0;
            while c < self.columnas
                invariant
                    self.valores@ == v,
                    self.bien_formada(),
                    acotada(v, 9),
                    columnas == self.columnas,
                    f < self.filas,
                    c <= columnas,
                    inicio == f * columnas,
                    inicio + columnas <= v.len(),
                    total == v.len(),
                    salida@ == texto_tablero(v, f as nat, columnas as nat) + texto_celdas(
                        v.subrange(inicio as int, inicio + c),
                    ),
                decreases columnas - c,
            {
                let x = self.valores[inicio + c];
                assert(v.subrange(inicio as int, inicio + c + 1).drop_last() =~= v.subrange(
                    inicio as int,
                    inicio + c,
                ));
                if x == -1 {
                    salida.push(ASTERISCO_BYTE);
                } else if x == 0 {
                    salida.push(INTERDOT_FIRST_BYTE);
                    salida.push(INTERDOT_SECOND_BYTE);
                } else {
                    salida.push(CERO_BYTE + x as u8);
                }
                c = c + 1;
            }
            salida.push(SALTO_DE_LINEA);
            f = f + 1;
        }
        salida
    }

    /// Suma 1 a la celda (fila, columna) si esta dentro del tablero y no tiene
    /// una mina.
    fn aumentar_celda(&mut self, fila: usize, columna: usize)
        requires
            old(self).bien_formada(),
            en_tablero(old(self).filas as int, old(self).columnas as int, fila as int, columna as int)
                && old(self).valores@[indice(old(self).columnas as int, fila as int, columna as int)] != -1
                ==> old(self).valores@[indice(old(self).columnas as int, fila as int, columna as int)]
                < i32::MAX,
        ensures
            final(self).filas == old(self).filas,
            final(self).columnas == old(self).columnas,
            sumado_en(
                old(self).valores@,
                final(self).valores@,
                old(self).filas as int,
                old(self).columnas as int,
                fila as int,
                columna as int,
            ),
    {
        proof {
            reveal(sumado_en);
        }
        if fila >= self.filas || columna >= self.columnas {
            return;
        }
        let total = self.valores.len();
        proof {
            lema_indice_en_rango(self.filas as int, self.columnas as int);
            assert(fila * self.columnas + columna < total);
        }
        let posicion = fila * self.columnas + columna;
        if self.valores[posicion] != -1 {
            self.valores.set(posicion, self.valores[posicion] + 1);
        }
    }

    /// Suma 1 a cada una de las ocho celdas vecinas de la posicion `i` que esta
    /// dentro del tablero y no tiene una mina.
    fn aumentar_adyacentes(&mut self, i: usize)
        requires
            old(self).bien_formada(),
            i < old(self).valores@.len(),
            acotada(old(self).valores@, i32::MAX - 8),
        ensures
            final(self).filas == old(self).filas,
            final(self).columnas == old(self).columnas,
            final(self).valores@.len() == old(self).valores@.len(),
            forall|j: int|
                0 <= j < old(self).valores@.len() ==> #[trigger] final(self).valores@[j] == old(
                    self,
                ).valores@[j] + uno_si(
                    old(self).valores@[j] != -1 && son_vecinas(old(self).columnas as int, i as int, j),
                ),
    {
        let ghost v0 = self.valores@;
        let ghost filas = self.filas as int;
        let ghost columnas = self.columnas as int;
        proof {
            lema_coordenadas(filas, columnas, i as int);
            lema_indice_en_rango(filas, columnas);
        }
        let (fila, columna) = Self::obtener_coordenadas(i, self.columnas);
        let ghost f = fila as int;
        let ghost c = columna as int;
        if fila > 0 && columna > 0 {
            self.aumentar_celda(fila - 1, columna - 1);
        } else {
            proof { lema_sumado_fuera(v0, filas, columnas, f - 1, c - 1) }
        }
        let ghost v1 = self.valores@;
        proof { lema_sumado_cota(v0, v1, filas, columnas, f - 1, c - 1, i32::MAX - 8) }
        if fila > 0 {
            self.aumentar_celda(fila - 1, columna);
        } else {
            proof { lema_sumado_fuera(v1, filas, columnas, f - 1, c) }
        }
        let ghost v2 = self.valores@;
        proof { lema_sumado_cota(v1, v2, filas, columnas, f - 1, c, i32::MAX - 7) }
        if fila > 0 {
            self.aumentar_celda(fila - 1, columna + 1);
        } else {
            proof { lema_sumado_fuera(v2, filas, columnas, f - 1, c + 1) }
        }
        let ghost v3 = self.valores@;
        proof { lema_sumado_cota(v2, v3, filas, columnas, f - 1, c + 1, i32::MAX - 6) }
        if columna > 0 {
            self.aumentar_celda(fila, columna - 1);
        } else {
            proof { lema_sumado_fuera(v3, filas, columnas, f, c - 1) }
        }
        let ghost v4 = self.valores@;
        proof { lema_sumado_cota(v3, v4, filas, columnas, f, c - 1, i32::MAX - 5) }
        self.aumentar_celda(fila, columna + 1);
        let ghost v5 = self.valores@;
        proof { lema_sumado_cota(v4, v5, filas, columnas, f, c + 1, i32::MAX - 4) }
        if columna > 0 {
            self.aumentar_celda(fila + 1, columna - 1);
        } else {
            proof { lema_sumado_fuera(v5, filas, columnas, f + 1, c - 1) }
        }
        let ghost v6 = self.valores@;
        proof { lema_sumado_cota(v5, v6, filas, columnas, f + 1, c - 1, i32::MAX - 3) }
        self.aumentar_celda(fila + 1, columna);
        let ghost v7 = self.valores@;
        proof { lema_sumado_cota(v6, v7, filas, columnas, f + 1, c, i32::MAX - 2) }
        self.aumentar_celda(fila + 1, columna + 1);
        proof {
            let v8 = self.valores@;
            lema_ocho_pasos(filas, columnas, f, c, v0, v1, v2, v3, v4, v5, v6, v7, v8);
            assert forall|j: int| 0 <= j < v0.len() implies #[trigger] v8[j] == v0[j] + uno_si(
                v0[j] != -1 && son_vecinas(columnas, i as int, j),
            ) by {
                lema_vecinas_en(filas, columnas, f, c, j);
            }
        }
    }

    /// Fila y columna de la celda en la posicion `i`.
    fn obtener_coordenadas(i: usize, columnas: usize) -> (r: (usize, usize))
        requires
            columnas > 0,
        ensures
            r.0 == i / columnas,
            r.1 == i % columnas,
    {
        (i / columnas, i % columnas)
    }

    /// Cantidad de celdas antes del primer salto de linea.
    fn contar_columnas(bytes: &[u8]) -> (c: usize)
        ensures
            c == columnas_de(bytes@),
    {
        let mut columnas: usize = 0;
        let mut i: usize = 0;
        assert(bytes@.subrange(0, bytes@.len() as int) =~= bytes@);
        while i < bytes.len()
            invariant
                i <= bytes@.len(),
                columnas <= i,
                columnas + columnas_de(bytes@.subrange(i as int, bytes@.len() as int)) == columnas_de(
                    bytes@,
                ),
            ensures
                columnas == columnas_de(bytes@),
            decreases bytes@.len() - i,
        {
            let b = bytes[i];
            assert(bytes@.subrange(i as int, bytes@.len() as int).drop_first() =~= bytes@.subrange(
                i + 1,
                bytes@.len() as int,
            ));
            if b == SALTO_DE_LINEA {
                break;
            } else if b == INTERDOT_FIRST_BYTE || b == ASTERISCO_BYTE || b == DOT_BYTE {
                columnas = columnas + 1;
            }
            i = i + 1;
        }
        columnas
    }

    /// Cantidad de filas: una por cada salto de linea, mas una si despues del
    /// ultimo quedan celdas.
    fn contar_filas(bytes: &[u8]) -> (f: usize)
        ensures
            f == filas_de(bytes@),
    {
        let mut saltos: usize = 0;
        let mut pendientes: usize = 0;
        let mut i: usize = 0;
        while i < bytes.len()
            invariant
                i <= bytes@.len(),
                saltos + pendientes <= i,
                saltos == saltos_de(bytes@.take(i as int)),
                pendientes == pendientes_de(bytes@.take(i as int)),
            decreases bytes@.len() - i,
        {
            let b = bytes[i];
            assert(bytes@.take(i + 1).drop_last() =~= bytes@.take(i as int));
            if b == SALTO_DE_LINEA {
                saltos = saltos + 1;
                pendientes = 0;
            } else if b == INTERDOT_FIRST_BYTE || b == ASTERISCO_BYTE || b == DOT_BYTE {
                pendientes = pendientes + 1;
            }
            i = i + 1;
        }
        assert(bytes@.take(i as int) =~= bytes@);
        if pendientes > 0 {
            saltos + 1
        } else {
            saltos
        }
    }

    /// Recorre la entrada comprobando que cada linea tenga `columnas` celdas y
    /// que no haya bytes fuera del formato; devuelve el primer error.
    fn validar_mapa(bytes: &[u8], columnas: usize) -> (r: Result<(), ErrorParseo>)
        ensures
            r == validar_con(bytes@, columnas as nat),
    {
        let mut contador: usize = 0;
        let mut i: usize = 0;
        while i < bytes.len()
            invariant
                i <= bytes@.len(),
                contador <= i,
                escanear(bytes@.take(i as int), columnas as nat) == Ok::<nat, ErrorParseo>(
                    contador as nat,
                ),
            decreases bytes@.len() - i,
        {
            let b = bytes[i];
            assert(bytes@.take(i + 1).drop_last() =~= bytes@.take(i as int));
            if b == SALTO_DE_LINEA {
                if contador != columnas {
                    proof {
                        lema_escanear_error(bytes@, i + 1, columnas as nat);
                    }
                    return Err(ErrorParseo::FormaInvalida);
                }
                contador = 0;
            } else if b == INTERDOT_FIRST_BYTE || b == ASTERISCO_BYTE || b == DOT_BYTE {
                contador = contador + 1;
            } else if b == INTERDOT_SECOND_BYTE || b == RETORNO_DE_CARRO {
            } else {
                proof {
                    lema_escanear_error(bytes@, i + 1, columnas as nat);
                }
                return Err(ErrorParseo::CaracterInvalido);
            }
            i = i + 1;
        }
        assert(bytes@.take(i as int) =~= bytes@);
        let sin_ultima_linea = bytes.len() == 0 || bytes[bytes.len() - 1] == SALTO_DE_LINEA;
        if contador != columnas && !sin_ultima_linea {
            return Err(ErrorParseo::FormaInvalida);
        }
        Ok(())
    }
}

} // verus!

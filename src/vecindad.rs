//! Vecindad entre celdas y conteo de minas vecinas, sobre las celdas guardadas
//! por filas.
use vstd::arithmetic::div_mod::{lemma_fundamental_div_mod, lemma_fundamental_div_mod_converse};
use vstd::prelude::*;

verus! {

/// Posicion en el vector por filas de la celda de la fila `f` y la columna `c`.
pub open spec fn indice(columnas: int, f: int, c: int) -> int {
    f * columnas + c
}

/// La celda (f, c) esta dentro de un tablero de `filas` x `columnas`.
pub open spec fn en_tablero(filas: int, columnas: int, f: int, c: int) -> bool {
    0 <= f < filas && 0 <= c < columnas
}

/// La celda (f, c) esta dentro del tablero y tiene una mina.
pub open spec fn es_mina(v: Seq<i32>, filas: int, columnas: int, f: int, c: int) -> bool {
    en_tablero(filas, columnas, f, c) && v[indice(columnas, f, c)] == -1
}

/// 1 si se cumple la condicion, 0 si no.
pub open spec fn uno_si(b: bool) -> int {
    if b {
        1
    } else {
        0
    }
}

/// Cantidad de minas entre las ocho celdas que rodean a (f, c).
pub open spec fn minas_vecinas(v: Seq<i32>, filas: int, columnas: int, f: int, c: int) -> int {
    uno_si(es_mina(v, filas, columnas, f - 1, c - 1)) + uno_si(es_mina(v, filas, columnas, f - 1, c))
        + uno_si(es_mina(v, filas, columnas, f - 1, c + 1)) + uno_si(es_mina(v, filas, columnas, f, c - 1))
        + uno_si(es_mina(v, filas, columnas, f, c + 1)) + uno_si(es_mina(v, filas, columnas, f + 1, c - 1))
        + uno_si(es_mina(v, filas, columnas, f + 1, c)) + uno_si(es_mina(v, filas, columnas, f + 1, c + 1))
}

/// Las celdas de posiciones `a` y `b` son distintas y se tocan por un lado o
/// por una esquina.
pub open spec fn son_vecinas(columnas: int, a: int, b: int) -> bool {
    &&& a != b
    &&& -1 <= a / columnas - b / columnas <= 1
    &&& -1 <= a % columnas - b % columnas <= 1
}

/// Valor de la celda de posicion `i` una vez contadas las minas: una mina sigue
/// valiendo -1 y cualquier otra celda suma sus minas vecinas.
pub open spec fn valor_contado(v: Seq<i32>, filas: int, columnas: int, i: int) -> int {
    if v[i] == -1 {
        -1
    } else {
        v[i] + minas_vecinas(v, filas, columnas, i / columnas, i % columnas)
    }
}

/// Mina en (f, c) cuya posicion es anterior a `k`.
pub open spec fn es_mina_previa(v: Seq<i32>, filas: int, columnas: int, f: int, c: int, k: int) -> bool {
    es_mina(v, filas, columnas, f, c) && indice(columnas, f, c) < k
}

/// Minas vecinas de (f, c) cuya posicion es anterior a `k`.
pub open spec fn minas_vecinas_previas(
    v: Seq<i32>,
    filas: int,
    columnas: int,
    f: int,
    c: int,
    k: int,
) -> int {
    uno_si(es_mina_previa(v, filas, columnas, f - 1, c - 1, k)) + uno_si(
        es_mina_previa(v, filas, columnas, f - 1, c, k),
    ) + uno_si(es_mina_previa(v, filas, columnas, f - 1, c + 1, k)) + uno_si(
        es_mina_previa(v, filas, columnas, f, c - 1, k),
    ) + uno_si(es_mina_previa(v, filas, columnas, f, c + 1, k)) + uno_si(
        es_mina_previa(v, filas, columnas, f + 1, c - 1, k),
    ) + uno_si(es_mina_previa(v, filas, columnas, f + 1, c, k)) + uno_si(
        es_mina_previa(v, filas, columnas, f + 1, c + 1, k),
    )
}

/// Cuantas de las ocho celdas que rodean a (f, c) estan en el tablero y en la
/// posicion `k`.
pub open spec fn vecinas_en(filas: int, columnas: int, f: int, c: int, k: int) -> int {
    uno_si(en_tablero(filas, columnas, f - 1, c - 1) && indice(columnas, f - 1, c - 1) == k) + uno_si(
        en_tablero(filas, columnas, f - 1, c) && indice(columnas, f - 1, c) == k,
    ) + uno_si(en_tablero(filas, columnas, f - 1, c + 1) && indice(columnas, f - 1, c + 1) == k)
        + uno_si(en_tablero(filas, columnas, f, c - 1) && indice(columnas, f, c - 1) == k) + uno_si(
        en_tablero(filas, columnas, f, c + 1) && indice(columnas, f, c + 1) == k,
    ) + uno_si(en_tablero(filas, columnas, f + 1, c - 1) && indice(columnas, f + 1, c - 1) == k)
        + uno_si(en_tablero(filas, columnas, f + 1, c) && indice(columnas, f + 1, c) == k) + uno_si(
        en_tablero(filas, columnas, f + 1, c + 1) && indice(columnas, f + 1, c + 1) == k,
    )
}

/// Toda celda del tablero tiene su posicion dentro del vector.
pub proof fn lema_indice_en_rango(filas: int, columnas: int)
    ensures
        forall|f: int, c: int|
            #![trigger indice(columnas, f, c)]
            en_tablero(filas, columnas, f, c) ==> 0 <= indice(columnas, f, c) < filas * columnas,
{
    assert forall|f: int, c: int|
        #![trigger indice(columnas, f, c)]
        en_tablero(filas, columnas, f, c) implies 0 <= indice(columnas, f, c) < filas * columnas by {
        assert(0 <= f * columnas + c < filas * columnas) by (nonlinear_arith)
            requires
                0 <= f < filas,
                0 <= c < columnas,
        ;
    }
}

/// Dos celdas con la columna en rango ocupan la misma posicion solo si son la
/// misma.
pub proof fn lema_indice_unico(columnas: int, f1: int, c1: int, f2: int, c2: int)
    requires
        0 <= c1 < columnas,
        0 <= c2 < columnas,
    ensures
        (indice(columnas, f1, c1) == indice(columnas, f2, c2)) == (f1 == f2 && c1 == c2),
{
    if f1 * columnas + c1 == f2 * columnas + c2 {
        lemma_fundamental_div_mod_converse(f1 * columnas + c1, columnas, f1, c1);
        lemma_fundamental_div_mod_converse(f2 * columnas + c2, columnas, f2, c2);
    }
}

/// Fila y columna de una posicion del tablero.
pub proof fn lema_coordenadas(filas: int, columnas: int, k: int)
    requires
        0 <= filas,
        0 <= columnas,
        0 <= k < filas * columnas,
    ensures
        en_tablero(filas, columnas, k / columnas, k % columnas),
        indice(columnas, k / columnas, k % columnas) == k,
{
    assert(columnas > 0) by (nonlinear_arith)
        requires
            0 <= k < filas * columnas,
            0 <= filas,
            0 <= columnas,
    ;
    lemma_fundamental_div_mod(k, columnas);
    let f = k / columnas;
    let c = k % columnas;
    assert(0 <= c < columnas);
    assert(f * columnas == columnas * f) by (nonlinear_arith);
    assert(0 <= f < filas) by (nonlinear_arith)
        requires
            k == columnas * f + c,
            0 <= c < columnas,
            0 <= k < filas * columnas,
    ;
}

/// Compara una vecina de (f, c), desplazada en (df, dc), con la celda (fk, ck).
proof fn lema_vecina_es(columnas: int, f: int, c: int, df: int, dc: int, fk: int, ck: int)
    requires
        0 <= ck < columnas,
    ensures
        0 <= c + dc < columnas ==> (indice(columnas, f + df, c + dc) == indice(columnas, fk, ck)) == (f
            + df == fk && c + dc == ck),
{
    if 0 <= c + dc < columnas {
        lema_indice_unico(columnas, f + df, c + dc, fk, ck);
    }
}

/// De las ocho celdas que rodean a una celda del tablero, exactamente una esta
/// en la posicion `k` si `k` es vecina suya, y ninguna si no lo es.
pub proof fn lema_vecinas_en(filas: int, columnas: int, f: int, c: int, k: int)
    requires
        en_tablero(filas, columnas, f, c),
        0 <= k < filas * columnas,
    ensures
        vecinas_en(filas, columnas, f, c, k) == uno_si(son_vecinas(columnas, indice(columnas, f, c), k)),
{
    lema_coordenadas(filas, columnas, k);
    let fk = k / columnas;
    let ck = k % columnas;
    let a = indice(columnas, f, c);
    lemma_fundamental_div_mod_converse(a, columnas, f, c);
    lema_vecina_es(columnas, f, c, -1, -1, fk, ck);
    lema_vecina_es(columnas, f, c, -1, 0, fk, ck);
    lema_vecina_es(columnas, f, c, -1, 1, fk, ck);
    lema_vecina_es(columnas, f, c, 0, -1, fk, ck);
    lema_vecina_es(columnas, f, c, 0, 1, fk, ck);
    lema_vecina_es(columnas, f, c, 1, -1, fk, ck);
    lema_vecina_es(columnas, f, c, 1, 0, fk, ck);
    lema_vecina_es(columnas, f, c, 1, 1, fk, ck);
}

/// `despues` es `antes` con 1 sumado a la celda (f, c), si esta en el tablero y
/// no tiene una mina.
#[verifier::opaque]
pub open spec fn sumado_en(antes: Seq<i32>, despues: Seq<i32>, filas: int, columnas: int, f: int, c: int) -> bool {
    &&& despues.len() == antes.len()
    &&& forall|j: int|
        0 <= j < antes.len() ==> #[trigger] despues[j] == antes[j] + uno_si(
            en_tablero(filas, columnas, f, c) && indice(columnas, f, c) == j && antes[j] != -1,
        )
}

/// Todas las celdas valen entre -1 y `cota`.
pub open spec fn acotada(v: Seq<i32>, cota: int) -> bool {
    forall|j: int| 0 <= j < v.len() ==> -1 <= #[trigger] v[j] <= cota
}

/// Fuera del tablero no se suma nada.
pub proof fn lema_sumado_fuera(v: Seq<i32>, filas: int, columnas: int, f: int, c: int)
    requires
        !en_tablero(filas, columnas, f, c),
    ensures
        sumado_en(v, v, filas, columnas, f, c),
{
    reveal(sumado_en);
}

/// Sumar en una celda sube la cota a lo sumo en 1.
pub proof fn lema_sumado_cota(antes: Seq<i32>, despues: Seq<i32>, filas: int, columnas: int, f: int, c: int, cota: int)
    requires
        sumado_en(antes, despues, filas, columnas, f, c),
        acotada(antes, cota),
    ensures
        despues.len() == antes.len(),
        acotada(despues, cota + 1),
{
    reveal(sumado_en);
    assert forall|j: int| 0 <= j < despues.len() implies -1 <= #[trigger] despues[j] <= cota + 1 by {
        assert(antes[j] <= cota);
    }
}

/// Un paso de suma visto desde la celda `j`: las minas no cambian y las demas
/// celdas suben 1 si son la celda (f, c).
proof fn lema_sumado_celda(antes: Seq<i32>, despues: Seq<i32>, filas: int, columnas: int, f: int, c: int, j: int)
    requires
        sumado_en(antes, despues, filas, columnas, f, c),
        0 <= j < antes.len(),
        -1 <= antes[j],
    ensures
        despues.len() == antes.len(),
        antes[j] == -1 ==> despues[j] == -1,
        antes[j] != -1 ==> despues[j] == antes[j] + uno_si(
            en_tablero(filas, columnas, f, c) && indice(columnas, f, c) == j,
        ),
{
    reveal(sumado_en);
}

/// Sumar en las ocho vecinas de (f, c), una tras otra, suma a cada celda sin
/// mina la cantidad de esas vecinas que ocupan su posicion.
pub proof fn lema_ocho_pasos(
    filas: int,
    columnas: int,
    f: int,
    c: int,
    v0: Seq<i32>,
    v1: Seq<i32>,
    v2: Seq<i32>,
    v3: Seq<i32>,
    v4: Seq<i32>,
    v5: Seq<i32>,
    v6: Seq<i32>,
    v7: Seq<i32>,
    v8: Seq<i32>,
)
    requires
        acotada(v0, i32::MAX - 8),
        sumado_en(v0, v1, filas, columnas, f - 1, c - 1),
        sumado_en(v1, v2, filas, columnas, f - 1, c),
        sumado_en(v2, v3, filas, columnas, f - 1, c + 1),
        sumado_en(v3, v4, filas, columnas, f, c - 1),
        sumado_en(v4, v5, filas, columnas, f, c + 1),
        sumado_en(v5, v6, filas, columnas, f + 1, c - 1),
        sumado_en(v6, v7, filas, columnas, f + 1, c),
        sumado_en(v7, v8, filas, columnas, f + 1, c + 1),
    ensures
        v8.len() == v0.len(),
        forall|j: int|
            0 <= j < v0.len() ==> #[trigger] v8[j] == if v0[j] == -1 {
                v0[j] as int
            } else {
                v0[j] + vecinas_en(filas, columnas, f, c, j)
            },
{
    lema_sumado_cota(v0, v1, filas, columnas, f - 1, c - 1, i32::MAX - 8);
    lema_sumado_cota(v1, v2, filas, columnas, f - 1, c, i32::MAX - 7);
    lema_sumado_cota(v2, v3, filas, columnas, f - 1, c + 1, i32::MAX - 6);
    lema_sumado_cota(v3, v4, filas, columnas, f, c - 1, i32::MAX - 5);
    lema_sumado_cota(v4, v5, filas, columnas, f, c + 1, i32::MAX - 4);
    lema_sumado_cota(v5, v6, filas, columnas, f + 1, c - 1, i32::MAX - 3);
    lema_sumado_cota(v6, v7, filas, columnas, f + 1, c, i32::MAX - 2);
    lema_sumado_cota(v7, v8, filas, columnas, f + 1, c + 1, i32::MAX - 1);
    assert forall|j: int| 0 <= j < v0.len() implies #[trigger] v8[j] == if v0[j] == -1 {
        v0[j] as int
    } else {
        v0[j] + vecinas_en(filas, columnas, f, c, j)
    } by {
        lema_sumado_celda(v0, v1, filas, columnas, f - 1, c - 1, j);
        lema_sumado_celda(v1, v2, filas, columnas, f - 1, c, j);
        lema_sumado_celda(v2, v3, filas, columnas, f - 1, c + 1, j);
        lema_sumado_celda(v3, v4, filas, columnas, f, c - 1, j);
        lema_sumado_celda(v4, v5, filas, columnas, f, c + 1, j);
        lema_sumado_celda(v5, v6, filas, columnas, f + 1, c - 1, j);
        lema_sumado_celda(v6, v7, filas, columnas, f + 1, c, j);
        lema_sumado_celda(v7, v8, filas, columnas, f + 1, c + 1, j);
    }
}

/// Pasar de la posicion `k` a `k + 1` agrega la mina de `k`, si la hay y es
/// vecina de (f, c).
pub proof fn lema_previas_paso(v: Seq<i32>, filas: int, columnas: int, f: int, c: int, k: int)
    requires
        v.len() == filas * columnas,
        en_tablero(filas, columnas, f, c),
        0 <= k < filas * columnas,
    ensures
        minas_vecinas_previas(v, filas, columnas, f, c, k + 1) == minas_vecinas_previas(
            v,
            filas,
            columnas,
            f,
            c,
            k,
        ) + uno_si(v[k] == -1 && son_vecinas(columnas, indice(columnas, f, c), k)),
{
    lema_vecinas_en(filas, columnas, f, c, k);
}

/// Contadas todas las posiciones, las minas vecinas previas son todas las
/// minas vecinas.
pub proof fn lema_previas_todas(v: Seq<i32>, filas: int, columnas: int, f: int, c: int)
    ensures
        minas_vecinas_previas(v, filas, columnas, f, c, filas * columnas) == minas_vecinas(
            v,
            filas,
            columnas,
            f,
            c,
        ),
{
    lema_indice_en_rango(filas, columnas);
}

/// Un tablero sin minas queda, una vez contado, con todas sus celdas en 0.
pub proof fn lema_tablero_sin_minas(v: Seq<i32>, filas: int, columnas: int)
    requires
        v.len() == filas * columnas,
        forall|j: int| 0 <= j < v.len() ==> #[trigger] v[j] == 0,
    ensures
        forall|j: int| 0 <= j < v.len() ==> #[trigger] valor_contado(v, filas, columnas, j) == 0,
{
    lema_indice_en_rango(filas, columnas);
}

/// En un tablero con una sola mina, una vez contado, la mina sigue valiendo -1,
/// cada vecina suya vale 1 y las demas celdas valen 0.
pub proof fn lema_una_mina(v: Seq<i32>, filas: int, columnas: int, q: int)
    requires
        0 <= filas,
        0 <= columnas,
        v.len() == filas * columnas,
        0 <= q < v.len(),
        v[q] == -1,
        forall|j: int| 0 <= j < v.len() && j != q ==> #[trigger] v[j] == 0,
    ensures
        valor_contado(v, filas, columnas, q) == -1,
        forall|j: int|
            0 <= j < v.len() && j != q ==> #[trigger] valor_contado(v, filas, columnas, j) == if son_vecinas(
                columnas,
                q,
                j,
            ) {
                1int
            } else {
                0int
            },
{
    lema_indice_en_rango(filas, columnas);
    assert forall|j: int| 0 <= j < v.len() && j != q implies #[trigger] valor_contado(
        v,
        filas,
        columnas,
        j,
    ) == if son_vecinas(columnas, q, j) {
        1int
    } else {
        0int
    } by {
        lema_coordenadas(filas, columnas, j);
        lema_vecinas_en(filas, columnas, j / columnas, j % columnas, q);
    }
}

/// En un tablero con exactamente dos minas, una vez contado, una celda vecina
/// de las dos vale 2: las minas se suman.
pub proof fn lema_dos_minas(v: Seq<i32>, filas: int, columnas: int, q1: int, q2: int, j: int)
    requires
        0 <= filas,
        0 <= columnas,
        v.len() == filas * columnas,
        0 <= q1 < v.len(),
        0 <= q2 < v.len(),
        q1 != q2,
        v[q1] == -1,
        v[q2] == -1,
        forall|i: int| 0 <= i < v.len() && i != q1 && i != q2 ==> #[trigger] v[i] == 0,
        0 <= j < v.len(),
        son_vecinas(columnas, q1, j),
        son_vecinas(columnas, q2, j),
    ensures
        valor_contado(v, filas, columnas, j) == 2,
{
    lema_indice_en_rango(filas, columnas);
    lema_coordenadas(filas, columnas, j);
    lema_vecinas_en(filas, columnas, j / columnas, j % columnas, q1);
    lema_vecinas_en(filas, columnas, j / columnas, j % columnas, q2);
}

} // verus!

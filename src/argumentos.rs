//! Argumentos de la linea de comandos: la ruta del archivo con el tablero.
use vstd::prelude::*;

verus! {

/// La cantidad de argumentos no es la esperada.
#[derive(Debug, Clone, Copy, PartialEq, Eq, Structural)]
pub enum ErrorArgumentos {
    /// Se esperaba exactamente un argumento: la ruta del archivo.
    CantidadInvalida,
}

/// Ruta del archivo a partir de los argumentos del programa, cuyo primer
/// elemento es el nombre del programa. Falla si no hay exactamente un argumento
/// mas.
pub fn ruta_desde_argumentos(args: &Vec<String>) -> (r: Result<String, ErrorArgumentos>)
    ensures
        r is Ok <==> args@.len() == 2,
        r is Ok ==> r->Ok_0 == args@[1],
        r is Err ==> r == Err::<String, ErrorArgumentos>(ErrorArgumentos::CantidadInvalida),
{
    if args.len() != 2 {
        return Err(ErrorArgumentos::CantidadInvalida);
    }
    Ok(args[1].clone())
}

} // verus!

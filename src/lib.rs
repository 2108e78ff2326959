//! Tablero de buscaminas: lectura de un mapa de minas desde bytes, conteo de
//! minas adyacentes y texto del tablero resultante.

pub mod argumentos;
pub mod lectura;
pub mod matriz_buscaminas;
pub mod texto;
pub mod vecindad;

pub use argumentos::{ruta_desde_argumentos, ErrorArgumentos};
pub use lectura::ErrorParseo;
pub use matriz_buscaminas::{MatrizBuscaminas, ASTERISCO_BYTE, DOT_BYTE, INTERDOT_FIRST_BYTE, INTERDOT_SECOND_BYTE};

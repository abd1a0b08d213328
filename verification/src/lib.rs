//! Lógica verificada de la terminal: lectura de la línea de comandos, lectura
//! de `/proc`, el registro de sesiones y el comando de arranque, la preparación
//! de guiones y la búsqueda de ventanas en el compositor.

pub mod texto;
pub mod procesos;
pub mod shell;
pub mod argumentos;
pub mod arranque;
pub mod sesiones;
pub mod ventanas;
pub mod terminal;
pub mod guiones;

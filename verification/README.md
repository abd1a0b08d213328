# vasak_terminal

La lógica de la terminal, verificada con Verus:

- `src/argumentos.rs`: qué pidió la línea de comandos (`-e`, `--command`, `--`, `--overlay`) y dónde se busca el programa.
- `src/procesos.rs`: lectura de `/proc/PID/stat` y `/proc/PID/cmdline`.
- `src/arranque.rs`: el comando de arranque, que recibe una sola pestaña.
- `src/sesiones.rs`: las sesiones abiertas, por identificador de pestaña.
- `src/terminal.rs`: qué shell arrancar, qué hace el lector del PTY, qué contestar al pedir el estado.
- `src/guiones.rs`: el comando que corre un guion o entra a un directorio.
- `src/ventanas.rs`: qué ventana del compositor es la nuestra y en qué salida va.
- `src/shell.rs`, `src/texto.rs`: reglas de la shell y herramientas de texto.

`app/` es la aplicación Tauri alrededor: el PTY, los archivos, GTK y el compositor.

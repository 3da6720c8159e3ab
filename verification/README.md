# mayab_arbitrage

Núcleo verificado con Verus del simulador de arbitraje BTC Mayab.

- `src/` es la biblioteca verificada:
  - `execution`: simulador forense de ejecución en dos piernas (máquina de
    estados, reservas, fills idempotentes, recuperación por menor costo,
    ledger exacto en punto fijo, reporte con invariantes recalculadas y
    mensajes de error legibles). El contrato de `simulate` fija cada campo
    del reporte a partir de la solicitud; las cantidades, saldos y montos del
    reporte usan una unidad diez veces más fina que la de la solicitud, de
    modo que las piernas a la mitad son exactas.
  - `config`: entorno de despliegue, controles del token de administración,
    valores de variables con default, listas CSV y símbolos.
  - `libro` y `mercado`: lados de libro ordenados por precio, integridad de
    secuencias, checksum CRC32 de Kraken (cabecera y cierre de cada mensaje
    `book`), pares, quotes y rutas de feeds.
  - `discord`: firma Ed25519 de interacciones, permisos de administración,
    respuesta inmediata a cada interacción y reconocimiento de comandos y
    tools del agente de IA.
  - `evaluation`, `motor`, `metricas`, `persistencia`, `estrategia`:
    partición de evaluación, utilidades del motor, etiquetas Prometheus,
    políticas de almacenamiento y TLS, y estrategias registradas.
  - `texto`: utilidades de cadenas con especificación sobre `Seq<char>`,
    incluida la escritura de decimales de punto fijo.
- `tests/` ejercita la biblioteca con valores concretos.
- `app/` lee variables de entorno, claves, encabezados y JSON (interacciones
  de Discord, mensajes `book` de Kraken), y concentra la lógica en coma
  flotante (umbrales, histogramas, conversión de niveles).

//! Mayab Arbitraje BTC: núcleo verificado del simulador de arbitraje.
//!
//! Cada módulo agrupa la lógica pura de una parte del sistema: entorno y
//! configuración, libros de órdenes incrementales, ejecución forense de dos
//! piernas, utilidades del motor, métricas y políticas de persistencia.

pub mod texto;
pub mod config;
pub mod libro;
pub mod mercado;
pub mod execution;
pub mod evaluation;
pub mod motor;
pub mod discord;
pub mod metricas;
pub mod persistencia;
pub mod estrategia;

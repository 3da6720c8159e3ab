//! Simulador forense y determinista de ejecución de arbitraje en dos piernas.
//!
//! El módulo es autocontenido: no envía órdenes, no comparte estado con el
//! motor live y no requiere secretos. Cada escenario pasa por la misma máquina
//! de estados, ledger exacto, deduplicación de fills y reservas.
//!
//! Los montos son enteros de punto fijo exactos. La solicitud llega en:
//! - BTC en unidades de 1e-8 BTC (`UNIDADES_POR_BTC`),
//! - precios en unidades de 1e-8 USD por BTC (`UNIDADES_POR_USD_PRECIO`),
//! - USD en unidades de 1e-16 USD (`UNIDADES_POR_USD`), de modo que
//!   `cantidad * precio` es exactamente un monto USD.
//!
//! El simulador trabaja, y el reporte y los errores se expresan, en unidades
//! diez veces más finas (1e-9 BTC, `UNIDADES_REPORTE_BTC`, y 1e-17 USD,
//! `UNIDADES_REPORTE_USD`; los precios no cambian). En ellas la mitad de
//! cualquier cantidad de la solicitud y la mitad de cualquier fee son exactas,
//! así que las piernas parciales y los fees prorrateados no truncan.

use vstd::prelude::*;
use vstd::string::*;
use crate::texto::{copiar, decimal_a_texto, es_menor, esta_en_blanco, iguales, texto_decimal, unir};

verus! {

/// Unidades de cantidad por BTC.
pub const UNIDADES_POR_BTC: i128 = 100_000_000;
/// Unidades de precio por USD (precio por BTC).
pub const UNIDADES_POR_USD_PRECIO: i128 = 100_000_000;
/// Unidades de monto USD por USD.
pub const UNIDADES_POR_USD: i128 = 10_000_000_000_000_000;

/// Unidades de cantidad del reporte por BTC (1e-9 BTC).
pub const UNIDADES_REPORTE_BTC: i128 = 1_000_000_000;
/// Unidades de monto USD del reporte por USD (1e-17 USD).
pub const UNIDADES_REPORTE_USD: i128 = 100_000_000_000_000_000;

// Cotas de tamaño. Los montos son enteros `i128` exactos (máximo ≈ 1.7e38),
// y cada cota es la que deja caber en ese tipo los productos y sumas que el
// simulador calcula sin redondear.

/// Cota de cantidades BTC, en unidades del reporte (1e6 BTC): el fee
/// prorrateado multiplica fee por cantidad, y `LIMITE_COSTO * LIMITE_CANTIDAD`
/// es 1e38.
pub const LIMITE_CANTIDAD: i128 = 1_000_000_000_000_000;
/// Cota de precios, en unidades (1e8 USD por BTC): el nocional
/// `LIMITE_CANTIDAD * LIMITE_PRECIO` (1e31) más un costo cabe en `COTA_DELTA`.
pub const LIMITE_PRECIO: i128 = 10_000_000_000_000_000;
/// Cota de fees y costos, en unidades USD del reporte (1e6 USD); ver
/// `LIMITE_CANTIDAD`.
pub const LIMITE_COSTO: i128 = 100_000_000_000_000_000_000_000;
/// Cota de saldos USD iniciales, en unidades USD del reporte (1e18 USD): un
/// saldo más los deltas de todas las entradas del ledger queda por debajo del
/// doble de esta cota, que cabe en `i128`.
pub const LIMITE_SALDO_USD: i128 = 100_000_000_000_000_000_000_000_000_000_000_000;

/// Los doce escenarios mínimos de la matriz forense de dos piernas.
#[derive(Clone, Copy, Debug, PartialEq, Eq, Structural)]
pub enum ExecutionScenario {
    BothLegsFilled,
    Leg1FilledLeg2Failed,
    Leg1PartialLeg2Filled,
    BothLegsPartial,
    TimeoutBeforeLeg2,
    TimeoutAfterLeg2,
    DuplicateResponse,
    OutOfOrderEvent,
    RestartDuringExecution,
    IdempotentRetryAfterRestart,
    RehedgeCheaper,
    UnwindCheaper,
}

pub open spec fn nombre_escenario(s: ExecutionScenario) -> Seq<char> {
    match s {
        ExecutionScenario::BothLegsFilled => "both_legs_filled"@,
        ExecutionScenario::Leg1FilledLeg2Failed => "leg1_filled_leg2_failed"@,
        ExecutionScenario::Leg1PartialLeg2Filled => "leg1_partial_leg2_filled"@,
        ExecutionScenario::BothLegsPartial => "both_legs_partial"@,
        ExecutionScenario::TimeoutBeforeLeg2 => "timeout_before_leg2"@,
        ExecutionScenario::TimeoutAfterLeg2 => "timeout_after_leg2"@,
        ExecutionScenario::DuplicateResponse => "duplicate_response"@,
        ExecutionScenario::OutOfOrderEvent => "out_of_order_event"@,
        ExecutionScenario::RestartDuringExecution => "restart_during_execution"@,
        ExecutionScenario::IdempotentRetryAfterRestart => "idempotent_retry_after_restart"@,
        ExecutionScenario::RehedgeCheaper => "rehedge_cheaper"@,
        ExecutionScenario::UnwindCheaper => "unwind_cheaper"@,
    }
}

/// Los doce escenarios en su orden estable.
pub open spec fn escenarios() -> Seq<ExecutionScenario> {
    seq![
        ExecutionScenario::BothLegsFilled,
        ExecutionScenario::Leg1FilledLeg2Failed,
        ExecutionScenario::Leg1PartialLeg2Filled,
        ExecutionScenario::BothLegsPartial,
        ExecutionScenario::TimeoutBeforeLeg2,
        ExecutionScenario::TimeoutAfterLeg2,
        ExecutionScenario::DuplicateResponse,
        ExecutionScenario::OutOfOrderEvent,
        ExecutionScenario::RestartDuringExecution,
        ExecutionScenario::IdempotentRetryAfterRestart,
        ExecutionScenario::RehedgeCheaper,
        ExecutionScenario::UnwindCheaper,
    ]
}

impl ExecutionScenario {
    /// Los doce escenarios, en el orden estable de la matriz.
    pub const ALL: [ExecutionScenario; 12] = [
        ExecutionScenario::BothLegsFilled,
        ExecutionScenario::Leg1FilledLeg2Failed,
        ExecutionScenario::Leg1PartialLeg2Filled,
        ExecutionScenario::BothLegsPartial,
        ExecutionScenario::TimeoutBeforeLeg2,
        ExecutionScenario::TimeoutAfterLeg2,
        ExecutionScenario::DuplicateResponse,
        ExecutionScenario::OutOfOrderEvent,
        ExecutionScenario::RestartDuringExecution,
        ExecutionScenario::IdempotentRetryAfterRestart,
        ExecutionScenario::RehedgeCheaper,
        ExecutionScenario::UnwindCheaper,
    ];

    /// Matriz mínima que una implementación de dos piernas debe reconciliar,
    /// en un orden estable.
    pub fn all() -> (v: Vec<ExecutionScenario>)
        ensures
            v@ == seq![
                ExecutionScenario::BothLegsFilled,
                ExecutionScenario::Leg1FilledLeg2Failed,
                ExecutionScenario::Leg1PartialLeg2Filled,
                ExecutionScenario::BothLegsPartial,
                ExecutionScenario::TimeoutBeforeLeg2,
                ExecutionScenario::TimeoutAfterLeg2,
                ExecutionScenario::DuplicateResponse,
                ExecutionScenario::OutOfOrderEvent,
                ExecutionScenario::RestartDuringExecution,
                ExecutionScenario::IdempotentRetryAfterRestart,
                ExecutionScenario::RehedgeCheaper,
                ExecutionScenario::UnwindCheaper,
            ],
    {
        vec![
            ExecutionScenario::BothLegsFilled,
            ExecutionScenario::Leg1FilledLeg2Failed,
            ExecutionScenario::Leg1PartialLeg2Filled,
            ExecutionScenario::BothLegsPartial,
            ExecutionScenario::TimeoutBeforeLeg2,
            ExecutionScenario::TimeoutAfterLeg2,
            ExecutionScenario::DuplicateResponse,
            ExecutionScenario::OutOfOrderEvent,
            ExecutionScenario::RestartDuringExecution,
            ExecutionScenario::IdempotentRetryAfterRestart,
            ExecutionScenario::RehedgeCheaper,
            ExecutionScenario::UnwindCheaper,
        ]
    }

    /// Nombre estable en snake_case del escenario.
    pub fn as_str(self) -> (r: &'static str)
        ensures
            r@ == nombre_escenario(self),
    {
        match self {
            ExecutionScenario::BothLegsFilled => "both_legs_filled",
            ExecutionScenario::Leg1FilledLeg2Failed => "leg1_filled_leg2_failed",
            ExecutionScenario::Leg1PartialLeg2Filled => "leg1_partial_leg2_filled",
            ExecutionScenario::BothLegsPartial => "both_legs_partial",
            ExecutionScenario::TimeoutBeforeLeg2 => "timeout_before_leg2",
            ExecutionScenario::TimeoutAfterLeg2 => "timeout_after_leg2",
            ExecutionScenario::DuplicateResponse => "duplicate_response",
            ExecutionScenario::OutOfOrderEvent => "out_of_order_event",
            ExecutionScenario::RestartDuringExecution => "restart_during_execution",
            ExecutionScenario::IdempotentRetryAfterRestart => "idempotent_retry_after_restart",
            ExecutionScenario::RehedgeCheaper => "rehedge_cheaper",
            ExecutionScenario::UnwindCheaper => "unwind_cheaper",
        }
    }
}

/// Estados persistibles de una ejecución de dos piernas.
#[derive(Clone, Copy, Debug, PartialEq, Eq, Structural)]
pub enum ExecutionState {
    Detected,
    Reserved,
    Leg1Submitted,
    Leg1Partial,
    Leg1Filled,
    Leg2Submitted,
    Leg2Partial,
    Leg2Filled,
    Leg2Rejected,
    Leg2TimedOut,
    RecoverySelected,
    Reconciled,
}

pub open spec fn nombre_estado(s: ExecutionState) -> Seq<char> {
    match s {
        ExecutionState::Detected => "DETECTED"@,
        ExecutionState::Reserved => "RESERVED"@,
        ExecutionState::Leg1Submitted => "LEG1_SUBMITTED"@,
        ExecutionState::Leg1Partial => "LEG1_PARTIAL"@,
        ExecutionState::Leg1Filled => "LEG1_FILLED"@,
        ExecutionState::Leg2Submitted => "LEG2_SUBMITTED"@,
        ExecutionState::Leg2Partial => "LEG2_PARTIAL"@,
        ExecutionState::Leg2Filled => "LEG2_FILLED"@,
        ExecutionState::Leg2Rejected => "LEG2_REJECTED"@,
        ExecutionState::Leg2TimedOut => "LEG2_TIMED_OUT"@,
        ExecutionState::RecoverySelected => "RECOVERY_SELECTED"@,
        ExecutionState::Reconciled => "RECONCILED"@,
    }
}

impl ExecutionState {
    /// Nombre estable en SCREAMING_SNAKE_CASE del estado.
    pub fn as_str(self) -> (r: &'static str)
        ensures
            r@ == nombre_estado(self),
    {
        match self {
            ExecutionState::Detected => "DETECTED",
            ExecutionState::Reserved => "RESERVED",
            ExecutionState::Leg1Submitted => "LEG1_SUBMITTED",
            ExecutionState::Leg1Partial => "LEG1_PARTIAL",
            ExecutionState::Leg1Filled => "LEG1_FILLED",
            ExecutionState::Leg2Submitted => "LEG2_SUBMITTED",
            ExecutionState::Leg2Partial => "LEG2_PARTIAL",
            ExecutionState::Leg2Filled => "LEG2_FILLED",
            ExecutionState::Leg2Rejected => "LEG2_REJECTED",
            ExecutionState::Leg2TimedOut => "LEG2_TIMED_OUT",
            ExecutionState::RecoverySelected => "RECOVERY_SELECTED",
            ExecutionState::Reconciled => "RECONCILED",
        }
    }
}

#[derive(Clone, Copy, Debug, PartialEq, Eq, Structural)]
pub enum ExecutionLeg {
    Leg1,
    Leg2,
    Recovery,
}

#[derive(Clone, Copy, Debug, PartialEq, Eq, Structural)]
pub enum OrderSide {
    Buy,
    Sell,
}

/// Acción de recuperación; `Rehedge` precede a `Unwind` en los empates.
#[derive(Clone, Copy, Debug, PartialEq, Eq, Structural)]
pub enum RecoveryAction {
    Rehedge,
    Unwind,
}

#[derive(Clone, Copy, Debug, PartialEq, Eq, Structural)]
pub enum LedgerEntryKind {
    Reservation,
    Fill,
    ReservationRelease,
    Reconciliation,
}

/// Máquina de estados: transiciones permitidas.
pub open spec fn transicion_permitida(from: Option<ExecutionState>, to: ExecutionState) -> bool {
    match from {
        None => to == ExecutionState::Detected,
        Some(f) => match f {
            ExecutionState::Detected => to == ExecutionState::Reserved,
            ExecutionState::Reserved => to == ExecutionState::Leg1Submitted,
            ExecutionState::Leg1Submitted => to == ExecutionState::Leg1Partial || to
                == ExecutionState::Leg1Filled,
            ExecutionState::Leg1Partial | ExecutionState::Leg1Filled => to
                == ExecutionState::Leg2Submitted || to == ExecutionState::RecoverySelected,
            ExecutionState::Leg2Submitted => to == ExecutionState::Leg2Partial || to
                == ExecutionState::Leg2Filled || to == ExecutionState::Leg2Rejected || to
                == ExecutionState::Leg2TimedOut,
            ExecutionState::Leg2Partial
            | ExecutionState::Leg2Filled
            | ExecutionState::Leg2Rejected
            | ExecutionState::Leg2TimedOut => to == ExecutionState::RecoverySelected || to
                == ExecutionState::Reconciled,
            ExecutionState::RecoverySelected => to == ExecutionState::Reconciled,
            ExecutionState::Reconciled => false,
        },
    }
}

/// Decide si la máquina de estados admite pasar de `from` a `to`.
pub fn allowed_transition(from: Option<ExecutionState>, to: ExecutionState) -> (r: bool)
    ensures
        r == transicion_permitida(from, to),
{
    match from {
        None => to == ExecutionState::Detected,
        Some(f) => match f {
            ExecutionState::Detected => to == ExecutionState::Reserved,
            ExecutionState::Reserved => to == ExecutionState::Leg1Submitted,
            ExecutionState::Leg1Submitted => to == ExecutionState::Leg1Partial || to
                == ExecutionState::Leg1Filled,
            ExecutionState::Leg1Partial | ExecutionState::Leg1Filled => to
                == ExecutionState::Leg2Submitted || to == ExecutionState::RecoverySelected,
            ExecutionState::Leg2Submitted => to == ExecutionState::Leg2Partial || to
                == ExecutionState::Leg2Filled || to == ExecutionState::Leg2Rejected || to
                == ExecutionState::Leg2TimedOut,
            ExecutionState::Leg2Partial
            | ExecutionState::Leg2Filled
            | ExecutionState::Leg2Rejected
            | ExecutionState::Leg2TimedOut => to == ExecutionState::RecoverySelected || to
                == ExecutionState::Reconciled,
            ExecutionState::RecoverySelected => to == ExecutionState::Reconciled,
            ExecutionState::Reconciled => false,
        },
    }
}

/// Ningún estado sale de `Reconciled`: es terminal.
pub proof fn reconciled_es_terminal(to: ExecutionState)
    ensures
        !transicion_permitida(Some(ExecutionState::Reconciled), to),
{
}

/// Toda ejecución empieza en `Detected`: es el único estado alcanzable sin
/// estado previo.
pub proof fn detected_es_el_unico_inicio(to: ExecutionState)
    ensures
        transicion_permitida(None, to) <==> to == ExecutionState::Detected,
{
}

/// Fee prorrateado a la cantidad llenada, con la división truncada hacia
/// cero para cualquier signo; sin cantidad pedida positiva es cero.
pub open spec fn fee_prorrateado_truncado(total: int, filled: int, requested: int) -> int {
    if requested <= 0 {
        0
    } else if total * filled >= 0 {
        (total * filled) / requested
    } else {
        -((-(total * filled)) / requested)
    }
}

/// Fee prorrateado con total y llenado no negativos.
pub open spec fn fee_prorrateado(total: int, filled: int, requested: int) -> int {
    if requested <= 0 {
        0
    } else {
        (total * filled) / requested
    }
}

/// Fee total prorrateado a `filled` de `requested`, en las unidades del fee.
pub(crate) fn prorated_fee(total: i128, filled: i128, requested: i128) -> (r: i128)
    requires
        -LIMITE_COSTO <= total <= LIMITE_COSTO,
        -LIMITE_CANTIDAD <= filled <= LIMITE_CANTIDAD,
    ensures
        r == fee_prorrateado_truncado(total as int, filled as int, requested as int),
        0 <= total && 0 <= filled ==> r == fee_prorrateado(total as int, filled as int, requested as int),
        0 <= total && 0 <= filled <= requested ==> 0 <= r <= total,
{
    if requested <= 0 {
        0
    } else {
        assert(-LIMITE_COSTO * LIMITE_CANTIDAD <= total * filled <= LIMITE_COSTO * LIMITE_CANTIDAD) by (nonlinear_arith)
            requires
                -LIMITE_COSTO <= total <= LIMITE_COSTO,
                -LIMITE_CANTIDAD <= filled <= LIMITE_CANTIDAD,
        ;
        let p = total * filled;
        proof {
            if 0 <= total && 0 <= filled {
                assert(0 <= total * filled) by (nonlinear_arith)
                    requires
                        0 <= total,
                        0 <= filled,
                ;
                if filled <= requested {
                    assert(total * filled <= total * requested) by (nonlinear_arith)
                        requires
                            0 <= total,
                            0 <= filled <= requested,
                    ;
                    assert(p / requested <= total) by (nonlinear_arith)
                        requires
                            0 <= p <= total * requested,
                            requested > 0,
                    ;
                }
            }
        }
        if p >= 0 {
            p / requested
        } else {
            let q = (-p) / requested;
            -q
        }
    }
}


/// Balance total inicial de un venue. Las reservas comienzan en cero.
#[derive(Clone, Debug)]
pub struct InitialWallet {
    pub venue: String,
    pub usd: i128,
    pub btc: i128,
}

/// Snapshot total y reservado. El disponible es `total - reservado`.
#[derive(Clone, Debug)]
pub struct WalletSnapshot {
    pub venue: String,
    pub usd: i128,
    pub btc: i128,
    pub reserved_usd: i128,
    pub reserved_btc: i128,
}

#[derive(Clone, Debug)]
pub struct ExecutionPrices {
    pub leg1_buy_price_usd: i128,
    pub leg2_sell_price_usd: i128,
    pub rehedge_price_usd: i128,
    pub unwind_price_usd: i128,
}

/// Costos fijos del tamaño solicitado. Los costos de piernas se prorratean
/// cuando un escenario llena sólo parte de la orden.
#[derive(Clone, Debug)]
pub struct ExecutionCosts {
    pub leg1_fee_usd: i128,
    pub leg2_fee_usd: i128,
    pub rehedge_cost_usd: i128,
    pub unwind_cost_usd: i128,
}

#[derive(Clone, Debug)]
pub struct ExecutionRequest {
    pub execution_id: String,
    pub scenario: ExecutionScenario,
    pub buy_wallet: InitialWallet,
    pub sell_wallet: InitialWallet,
    pub quantity_btc: i128,
    pub prices: ExecutionPrices,
    pub costs: ExecutionCosts,
}

#[derive(Clone, Debug)]
pub struct ExecutionFill {
    pub fill_id: String,
    pub exchange_sequence: u64,
    pub leg: ExecutionLeg,
    pub venue: String,
    pub side: OrderSide,
    pub quantity_btc: i128,
    pub price_usd: i128,
    pub fee_usd: i128,
    pub reservation_consumed_usd: i128,
    pub reservation_consumed_btc: i128,
}

#[derive(Clone, Debug)]
pub struct WalletDelta {
    pub venue: String,
    pub usd: i128,
    pub btc: i128,
    pub reserved_usd: i128,
    pub reserved_btc: i128,
}

#[derive(Clone, Debug)]
pub struct WalletLedgerEntry {
    pub sequence: u64,
    pub kind: LedgerEntryKind,
    pub reference: String,
    pub deltas: Vec<WalletDelta>,
    pub detail: String,
}

#[derive(Clone, Debug)]
pub struct ExecutionTransition {
    pub sequence: u64,
    pub from: Option<ExecutionState>,
    pub to: ExecutionState,
    pub detail: String,
}

#[derive(Clone, Debug)]
pub struct ExecutionInvariants {
    pub terminal_reconciled: bool,
    pub residual_within_tolerance: bool,
    pub btc_conserved: bool,
    pub wallet_equation: bool,
    pub ledger_reconciled: bool,
    pub pnl_matches_ledger: bool,
    pub fills_unique: bool,
    pub fill_sequences_monotonic: bool,
    pub reservations_released_once: bool,
    pub no_negative_balances: bool,
    pub all_passed: bool,
}

#[derive(Clone, Debug)]
pub struct ExecutionReport {
    pub execution_id: String,
    pub scenario: ExecutionScenario,
    pub state: ExecutionState,
    pub wallets_before: Vec<WalletSnapshot>,
    pub wallets_after: Vec<WalletSnapshot>,
    pub fills: Vec<ExecutionFill>,
    pub ledger: Vec<WalletLedgerEntry>,
    pub transitions: Vec<ExecutionTransition>,
    pub pnl_usd: i128,
    pub ledger_pnl_usd: i128,
    pub residual_before_recovery_btc: i128,
    pub residual_btc: i128,
    pub selected_recovery: Option<RecoveryAction>,
    pub invariants: ExecutionInvariants,
    pub duplicates_ignored: u32,
    pub out_of_order_ignored: u32,
    pub reservation_release_count: u32,
    pub reservation_retries_ignored: u32,
    pub restart_performed: bool,
    pub retry_performed: bool,
    pub state_rehydrated: bool,
}

/// Error de una ejecución. Los montos están en las unidades del reporte del
/// activo (`USD`: 1e-17 USD; `BTC`: 1e-9 BTC).
#[derive(Clone, Debug)]
pub enum ExecutionError {
    InvalidRequest { message: String },
    InvalidTransition { from: Option<ExecutionState>, to: ExecutionState },
    InsufficientBalance { venue: String, asset: String, required: i128, available: i128 },
    UnreconciledResidual { residual_btc: i128 },
    NoFeasibleRecovery { residual_btc: i128 },
    Checkpoint { message: String },
    Internal { message: String },
}

/// Nombre de la variante de un estado, como lo escribe `Debug`.
pub open spec fn variante_estado(s: ExecutionState) -> Seq<char> {
    match s {
        ExecutionState::Detected => "Detected"@,
        ExecutionState::Reserved => "Reserved"@,
        ExecutionState::Leg1Submitted => "Leg1Submitted"@,
        ExecutionState::Leg1Partial => "Leg1Partial"@,
        ExecutionState::Leg1Filled => "Leg1Filled"@,
        ExecutionState::Leg2Submitted => "Leg2Submitted"@,
        ExecutionState::Leg2Partial => "Leg2Partial"@,
        ExecutionState::Leg2Filled => "Leg2Filled"@,
        ExecutionState::Leg2Rejected => "Leg2Rejected"@,
        ExecutionState::Leg2TimedOut => "Leg2TimedOut"@,
        ExecutionState::RecoverySelected => "RecoverySelected"@,
        ExecutionState::Reconciled => "Reconciled"@,
    }
}

/// Un estado opcional como lo escribe `Debug`: `None` o `Some(Estado)`.
pub open spec fn variante_opcional(s: Option<ExecutionState>) -> Seq<char> {
    match s {
        None => "None"@,
        Some(e) => "Some("@ + variante_estado(e) + ")"@,
    }
}

/// Dígitos decimales de las unidades del reporte de un activo: 17 para USD,
/// 9 para BTC.
pub open spec fn escala_activo(asset: Seq<char>) -> nat {
    if asset == "USD"@ { 17 } else { 9 }
}

/// Mensaje legible de un error de ejecución; los montos se escriben como
/// decimales normalizados.
pub open spec fn mensaje_error(e: ExecutionError) -> Seq<char> {
    match e {
        ExecutionError::InvalidRequest { message } => "solicitud inválida: "@ + message@,
        ExecutionError::InvalidTransition { from, to } =>
            "transición inválida: "@ + variante_opcional(from) + " -> "@ + variante_estado(to),
        ExecutionError::InsufficientBalance { venue, asset, required, available } =>
            "saldo insuficiente en "@ + venue@ + ": requiere "@ + texto_decimal(required as int, escala_activo(asset@))
                + " "@ + asset@ + ", disponible "@ + texto_decimal(available as int, escala_activo(asset@)),
        ExecutionError::UnreconciledResidual { residual_btc } =>
            "exposición residual no conciliada: "@ + texto_decimal(residual_btc as int, 9) + " BTC"@,
        ExecutionError::NoFeasibleRecovery { residual_btc } =>
            "no existe recuperación factible para "@ + texto_decimal(residual_btc as int, 9) + " BTC"@,
        ExecutionError::Checkpoint { message } => "checkpoint inválido: "@ + message@,
        ExecutionError::Internal { message } => "error interno: "@ + message@,
    }
}

fn texto_variante_estado(s: ExecutionState) -> (r: &'static str)
    ensures
        r@ == variante_estado(s),
{
    match s {
        ExecutionState::Detected => "Detected",
        ExecutionState::Reserved => "Reserved",
        ExecutionState::Leg1Submitted => "Leg1Submitted",
        ExecutionState::Leg1Partial => "Leg1Partial",
        ExecutionState::Leg1Filled => "Leg1Filled",
        ExecutionState::Leg2Submitted => "Leg2Submitted",
        ExecutionState::Leg2Partial => "Leg2Partial",
        ExecutionState::Leg2Filled => "Leg2Filled",
        ExecutionState::Leg2Rejected => "Leg2Rejected",
        ExecutionState::Leg2TimedOut => "Leg2TimedOut",
        ExecutionState::RecoverySelected => "RecoverySelected",
        ExecutionState::Reconciled => "Reconciled",
    }
}

fn texto_variante_opcional(s: Option<ExecutionState>) -> (r: String)
    ensures
        r@ == variante_opcional(s),
{
    match s {
        None => String::from_str("None"),
        Some(e) => {
            let a = unir("Some(", texto_variante_estado(e));
            unir(a.as_str(), ")")
        },
    }
}

fn con_monto(prefijo: &str, monto: i128, escala: u32, sufijo: &str) -> (r: String)
    requires
        escala <= 38,
    ensures
        r@ == prefijo@ + texto_decimal(monto as int, escala as nat) + sufijo@,
{
    let m = decimal_a_texto(monto, escala);
    let a = unir(prefijo, m.as_str());
    unir(a.as_str(), sufijo)
}

impl ExecutionError {
    /// Mensaje legible del error.
    pub fn to_string(&self) -> (r: String)
        ensures
            r@ == mensaje_error(*self),
    {
        match self {
            ExecutionError::InvalidRequest { message } => unir("solicitud inválida: ", message.as_str()),
            ExecutionError::InvalidTransition { from, to } => {
                let a = texto_variante_opcional(*from);
                let b = unir("transición inválida: ", a.as_str());
                let c = unir(b.as_str(), " -> ");
                unir(c.as_str(), texto_variante_estado(*to))
            },
            ExecutionError::InsufficientBalance { venue, asset, required, available } => {
                let escala: u32 = if iguales(asset.as_str(), "USD") { 17 } else { 9 };
                let a = unir("saldo insuficiente en ", venue.as_str());
                let b = unir(a.as_str(), ": requiere ");
                let c = con_monto(b.as_str(), *required, escala, " ");
                let d = unir(c.as_str(), asset.as_str());
                let e = unir(d.as_str(), ", disponible ");
                let m = decimal_a_texto(*available, escala);
                unir(e.as_str(), m.as_str())
            },
            ExecutionError::UnreconciledResidual { residual_btc } =>
                con_monto("exposición residual no conciliada: ", *residual_btc, 9, " BTC"),
            ExecutionError::NoFeasibleRecovery { residual_btc } =>
                con_monto("no existe recuperación factible para ", *residual_btc, 9, " BTC"),
            ExecutionError::Checkpoint { message } => unir("checkpoint inválido: ", message.as_str()),
            ExecutionError::Internal { message } => unir("error interno: ", message.as_str()),
        }
    }
}

/// Solicitud bien formada: identificador y venues no vacíos tras recortar,
/// venues distintos, cantidad y precios positivos, balances y costos no
/// negativos.
pub open spec fn solicitud_valida(r: ExecutionRequest) -> bool {
    &&& !crate::texto::en_blanco(r.execution_id@)
    &&& !crate::texto::en_blanco(r.buy_wallet.venue@)
    &&& !crate::texto::en_blanco(r.sell_wallet.venue@)
    &&& r.buy_wallet.venue@ != r.sell_wallet.venue@
    &&& r.quantity_btc > 0
    &&& r.prices.leg1_buy_price_usd > 0
    &&& r.prices.leg2_sell_price_usd > 0
    &&& r.prices.rehedge_price_usd > 0
    &&& r.prices.unwind_price_usd > 0
    &&& r.buy_wallet.usd >= 0
    &&& r.buy_wallet.btc >= 0
    &&& r.sell_wallet.usd >= 0
    &&& r.sell_wallet.btc >= 0
    &&& r.costs.leg1_fee_usd >= 0
    &&& r.costs.leg2_fee_usd >= 0
    &&& r.costs.rehedge_cost_usd >= 0
    &&& r.costs.unwind_cost_usd >= 0
}

/// Magnitudes dentro del rango aritmético exacto del simulador.
pub open spec fn solicitud_acotada(r: ExecutionRequest) -> bool {
    &&& r.quantity_btc <= LIMITE_CANTIDAD
    &&& r.prices.leg1_buy_price_usd <= LIMITE_PRECIO
    &&& r.prices.leg2_sell_price_usd <= LIMITE_PRECIO
    &&& r.prices.rehedge_price_usd <= LIMITE_PRECIO
    &&& r.prices.unwind_price_usd <= LIMITE_PRECIO
    &&& r.buy_wallet.usd <= LIMITE_SALDO_USD
    &&& r.sell_wallet.usd <= LIMITE_SALDO_USD
    &&& r.buy_wallet.btc <= LIMITE_CANTIDAD
    &&& r.sell_wallet.btc <= LIMITE_CANTIDAD
    &&& r.costs.leg1_fee_usd <= LIMITE_COSTO
    &&& r.costs.leg2_fee_usd <= LIMITE_COSTO
    &&& r.costs.rehedge_cost_usd <= LIMITE_COSTO
    &&& r.costs.unwind_cost_usd <= LIMITE_COSTO
}

fn invalida(message: &str) -> (e: ExecutionError)
    ensures
        e matches ExecutionError::InvalidRequest { message: m } && m@ == message@,
{
    ExecutionError::InvalidRequest { message: String::from_str(message) }
}

/// Valida la solicitud antes de tocar cualquier wallet.
pub fn validate_request(request: &ExecutionRequest) -> (r: Result<(), ExecutionError>)
    ensures
        r is Ok <==> solicitud_valida(*request),
        r is Err ==> r->Err_0 is InvalidRequest,
{
    if esta_en_blanco(request.execution_id.as_str()) {
        return Err(invalida("execution_id vacío"));
    }
    if esta_en_blanco(request.buy_wallet.venue.as_str()) || esta_en_blanco(
        request.sell_wallet.venue.as_str(),
    ) || iguales(request.buy_wallet.venue.as_str(), request.sell_wallet.venue.as_str()) {
        return Err(invalida("se requieren dos venues distintos"));
    }
    if request.quantity_btc <= 0 {
        return Err(invalida("quantity_btc debe ser positiva"));
    }
    if request.prices.leg1_buy_price_usd <= 0 || request.prices.leg2_sell_price_usd <= 0
        || request.prices.rehedge_price_usd <= 0 || request.prices.unwind_price_usd <= 0 {
        return Err(invalida("todos los precios deben ser positivos"));
    }
    if request.buy_wallet.usd < 0 || request.buy_wallet.btc < 0 || request.sell_wallet.usd < 0
        || request.sell_wallet.btc < 0 || request.costs.leg1_fee_usd < 0
        || request.costs.leg2_fee_usd < 0 || request.costs.rehedge_cost_usd < 0
        || request.costs.unwind_cost_usd < 0 {
        return Err(invalida("balances y costos no pueden ser negativos"));
    }
    Ok(())
}


/// Cota de cada campo de un delta del ledger (en unidades).
pub const COTA_DELTA: i128 = 100_000_000_000_000_000_000_000_000_000_000;

/// Suma, para un venue, de los cuatro campos de una lista de deltas.
pub open spec fn suma_deltas(ds: Seq<WalletDelta>, v: Seq<char>) -> (int, int, int, int)
    decreases ds.len(),
{
    if ds.len() == 0 {
        (0, 0, 0, 0)
    } else {
        let p = suma_deltas(ds.drop_last(), v);
        let d = ds.last();
        if d.venue@ == v {
            (p.0 + d.usd, p.1 + d.btc, p.2 + d.reserved_usd, p.3 + d.reserved_btc)
        } else {
            p
        }
    }
}

/// Suma, para un venue, de todos los deltas de un ledger.
pub open spec fn suma_ledger(l: Seq<WalletLedgerEntry>, v: Seq<char>) -> (int, int, int, int)
    decreases l.len(),
{
    if l.len() == 0 {
        (0, 0, 0, 0)
    } else {
        let p = suma_ledger(l.drop_last(), v);
        let q = suma_deltas(l.last().deltas@, v);
        (p.0 + q.0, p.1 + q.1, p.2 + q.2, p.3 + q.3)
    }
}

/// Suma de los deltas USD de una lista, en todos los venues.
pub open spec fn usd_deltas(ds: Seq<WalletDelta>) -> int
    decreases ds.len(),
{
    if ds.len() == 0 {
        0
    } else {
        usd_deltas(ds.drop_last()) + ds.last().usd
    }
}

/// Suma de los deltas USD de todo el ledger: el P&L que el ledger explica.
pub open spec fn usd_ledger(l: Seq<WalletLedgerEntry>) -> int
    decreases l.len(),
{
    if l.len() == 0 {
        0
    } else {
        usd_ledger(l.drop_last()) + usd_deltas(l.last().deltas@)
    }
}

/// Exposición BTC neta de los fills: compras suman, ventas restan.
pub open spec fn residuo(fills: Seq<ExecutionFill>) -> int
    decreases fills.len(),
{
    if fills.len() == 0 {
        0
    } else {
        residuo(fills.drop_last()) + match fills.last().side {
            OrderSide::Buy => fills.last().quantity_btc as int,
            OrderSide::Sell => -fills.last().quantity_btc,
        }
    }
}

/// Los identificadores de fill no se repiten.
pub open spec fn ids_unicos(fills: Seq<ExecutionFill>) -> bool {
    forall|i: int, j: int|
        0 <= i < j < fills.len() ==> fills[i].fill_id@ != fills[j].fill_id@
}

/// Cada fill lleva la secuencia de exchange igual a su posición más uno.
pub open spec fn secuencias_consecutivas(fills: Seq<ExecutionFill>) -> bool {
    forall|i: int| 0 <= i < fills.len() ==> #[trigger] fills[i].exchange_sequence == i + 1
}

/// Balances no negativos y reservas dentro del total.
pub open spec fn billetera_sana(w: WalletSnapshot) -> bool {
    &&& 0 <= w.reserved_usd <= w.usd
    &&& 0 <= w.reserved_btc <= w.btc
}

/// Snapshot con el que arranca un venue: reservas en cero.
pub open spec fn snapshot_inicial(w: InitialWallet) -> WalletSnapshot {
    WalletSnapshot { venue: w.venue, usd: w.usd, btc: w.btc, reserved_usd: 0, reserved_btc: 0 }
}

/// `w` es el snapshot `antes` con la suma de deltas `s` aplicada.
pub open spec fn refleja(w: WalletSnapshot, antes: WalletSnapshot, s: (int, int, int, int)) -> bool {
    &&& w.venue == antes.venue
    &&& w.usd == antes.usd + s.0
    &&& w.btc == antes.btc + s.1
    &&& w.reserved_usd == antes.reserved_usd + s.2
    &&& w.reserved_btc == antes.reserved_btc + s.3
}

impl WalletSnapshot {
    /// Copia exacta del snapshot.
    pub fn copia(&self) -> (r: WalletSnapshot)
        ensures
            r == *self,
    {
        WalletSnapshot {
            venue: copiar(&self.venue),
            usd: self.usd,
            btc: self.btc,
            reserved_usd: self.reserved_usd,
            reserved_btc: self.reserved_btc,
        }
    }

    /// Snapshot inicial de un venue: el total recibido y reservas en cero.
    pub fn desde_inicial(w: &InitialWallet) -> (r: WalletSnapshot)
        ensures
            r == snapshot_inicial(*w),
    {
        WalletSnapshot {
            venue: copiar(&w.venue),
            usd: w.usd,
            btc: w.btc,
            reserved_usd: 0,
            reserved_btc: 0,
        }
    }
}

impl ExecutionFill {
    /// Copia exacta del fill.
    pub fn copia(&self) -> (r: ExecutionFill)
        ensures
            r == *self,
    {
        ExecutionFill {
            fill_id: copiar(&self.fill_id),
            exchange_sequence: self.exchange_sequence,
            leg: self.leg,
            venue: copiar(&self.venue),
            side: self.side,
            quantity_btc: self.quantity_btc,
            price_usd: self.price_usd,
            fee_usd: self.fee_usd,
            reservation_consumed_usd: self.reservation_consumed_usd,
            reservation_consumed_btc: self.reservation_consumed_btc,
        }
    }
}

impl From<InitialWallet> for WalletSnapshot {
    /// Snapshot de una wallet inicial, sin reservas.
    fn from(w: InitialWallet) -> (r: WalletSnapshot) {
        WalletSnapshot { venue: w.venue, usd: w.usd, btc: w.btc, reserved_usd: 0, reserved_btc: 0 }
    }
}

impl vstd::std_specs::convert::FromSpecImpl<InitialWallet> for WalletSnapshot {
    open spec fn obeys_from_spec() -> bool {
        true
    }

    open spec fn from_spec(w: InitialWallet) -> WalletSnapshot {
        snapshot_inicial(w)
    }
}

#[derive(Clone, Copy, Debug, PartialEq, Eq, Structural)]
enum ReservationUse {
    Ninguna,
    Usd,
    Btc,
}

/// Venue de una operación del simulador: el de compra o el de venta.
#[derive(Clone, Copy, Debug, PartialEq, Eq, Structural)]
enum Lado {
    Compra,
    Venta,
}

struct Simulator {
    request: ExecutionRequest,
    buy_before: WalletSnapshot,
    sell_before: WalletSnapshot,
    buy: WalletSnapshot,
    sell: WalletSnapshot,
    state: Option<ExecutionState>,
    transitions: Vec<ExecutionTransition>,
    fills: Vec<ExecutionFill>,
    ledger: Vec<WalletLedgerEntry>,
    last_exchange_sequence: u64,
    reservation_created: bool,
    reservations_released: bool,
    reservation_release_count: u32,
    reservation_retries_ignored: u32,
    duplicates_ignored: u32,
    out_of_order_ignored: u32,
    selected_recovery: Option<RecoveryAction>,
    residual_before_recovery_btc: i128,
    restart_performed: bool,
    retry_performed: bool,
    state_rehydrated: bool,
}

/// Los deltas de una entrada tocan sólo los dos venues, con campos acotados.
pub open spec fn deltas_en_venues(ds: Seq<WalletDelta>, b: Seq<char>, s: Seq<char>) -> bool {
    &&& ds.len() <= 2
    &&& forall|j: int|
        #![trigger ds[j]]
        0 <= j < ds.len() ==> {
            &&& (ds[j].venue@ == b || ds[j].venue@ == s)
            &&& -COTA_DELTA <= ds[j].usd <= COTA_DELTA
            &&& -COTA_DELTA <= ds[j].btc <= COTA_DELTA
            &&& -COTA_DELTA <= ds[j].reserved_usd <= COTA_DELTA
            &&& -COTA_DELTA <= ds[j].reserved_btc <= COTA_DELTA
        }
}

pub open spec fn ledger_en_venues(l: Seq<WalletLedgerEntry>, b: Seq<char>, s: Seq<char>) -> bool {
    forall|i: int| 0 <= i < l.len() ==> deltas_en_venues(#[trigger] l[i].deltas@, b, s)
}

pub open spec fn ledger_secuenciado(l: Seq<WalletLedgerEntry>) -> bool {
    forall|i: int| 0 <= i < l.len() ==> #[trigger] l[i].sequence == i + 1
}

/// La bitácora sigue la máquina de estados: empieza sin estado previo, cada
/// transición parte del destino de la anterior y todas están permitidas.
#[verifier::opaque]
pub open spec fn bitacora_valida(t: Seq<ExecutionTransition>, estado: Option<ExecutionState>) -> bool {
    &&& forall|i: int| 0 <= i < t.len() ==> transicion_permitida((#[trigger] t[i]).from, t[i].to)
    &&& forall|i: int| 0 < i < t.len() ==> (#[trigger] t[i]).from == Some(t[i - 1].to)
    &&& t.len() > 0 ==> t[0].from is None
    &&& estado == (if t.len() == 0 { None } else { Some(t.last().to) })
}

pub open spec fn transiciones_secuenciadas(t: Seq<ExecutionTransition>) -> bool {
    forall|i: int| 0 <= i < t.len() ==> #[trigger] t[i].sequence == i + 1
}

/// Las clases de las entradas del ledger, en orden.
pub open spec fn clases(l: Seq<WalletLedgerEntry>) -> Seq<LedgerEntryKind> {
    Seq::new(l.len(), |i: int| l[i].kind)
}

/// Texto que acompaña a la transición hacia `to` en el escenario `sc`.
pub open spec fn detalle_transicion(sc: ExecutionScenario, to: ExecutionState) -> Seq<char> {
    match to {
        ExecutionState::Detected => "oportunidad detectada"@,
        ExecutionState::Reserved => "capital reservado"@,
        ExecutionState::Leg1Submitted => "primera pierna enviada"@,
        ExecutionState::Leg1Partial | ExecutionState::Leg1Filled =>
            "fill de primera pierna aplicado exactamente una vez"@,
        ExecutionState::Leg2Submitted => "segunda pierna enviada"@,
        ExecutionState::Leg2Partial | ExecutionState::Leg2Filled =>
            "fill de segunda pierna aplicado exactamente una vez"@,
        ExecutionState::Leg2Rejected => if sc == ExecutionScenario::Leg1FilledLeg2Failed {
            "segunda pierna rechazada"@
        } else {
            "segunda pierna rechazada para comparar recuperación"@
        },
        ExecutionState::Leg2TimedOut => "timeout después de enviar la segunda pierna"@,
        ExecutionState::RecoverySelected => if sc == ExecutionScenario::TimeoutBeforeLeg2 {
            "timeout antes de enviar la segunda pierna"@
        } else {
            "recuperación seleccionada por menor costo factible"@
        },
        ExecutionState::Reconciled => "wallets, fills, reservas y ledger conciliados"@,
    }
}

/// Cada transición de la bitácora lleva el texto de su destino en el escenario.
pub open spec fn detalles_del_escenario(t: Seq<ExecutionTransition>, sc: ExecutionScenario) -> bool {
    forall|i: int| 0 <= i < t.len() ==> (#[trigger] t[i]).detail@ == detalle_transicion(sc, t[i].to)
}

/// Venue y montos (USD, BTC, reserva USD, reserva BTC) de un delta.
pub open spec fn vista_delta(d: WalletDelta) -> (Seq<char>, int, int, int, int) {
    (d.venue@, d.usd as int, d.btc as int, d.reserved_usd as int, d.reserved_btc as int)
}

/// Los deltas de una entrada, en orden.
pub open spec fn vista_deltas(ds: Seq<WalletDelta>) -> Seq<(Seq<char>, int, int, int, int)> {
    Seq::new(ds.len(), |k: int| vista_delta(ds[k]))
}

/// Clase, referencia, deltas y texto de una entrada del ledger.
pub open spec fn vista_asiento(e: WalletLedgerEntry) -> (LedgerEntryKind, Seq<char>, Seq<(Seq<char>, int, int, int, int)>, Seq<char>) {
    (e.kind, e.reference@, vista_deltas(e.deltas@), e.detail@)
}

/// Las entradas del ledger vistas sin su secuencia, en orden.
pub open spec fn asientos(l: Seq<WalletLedgerEntry>) -> Seq<(LedgerEntryKind, Seq<char>, Seq<(Seq<char>, int, int, int, int)>, Seq<char>)> {
    Seq::new(l.len(), |i: int| vista_asiento(l[i]))
}

/// Texto de la entrada de un fill: pierna y lado como los escribe `Debug`.
pub open spec fn detalle_fill(leg: ExecutionLeg, side: OrderSide) -> Seq<char> {
    match (leg, side) {
        (ExecutionLeg::Leg1, OrderSide::Buy) => "Leg1 Buy aplicado"@,
        (ExecutionLeg::Leg1, OrderSide::Sell) => "Leg1 Sell aplicado"@,
        (ExecutionLeg::Leg2, OrderSide::Buy) => "Leg2 Buy aplicado"@,
        (ExecutionLeg::Leg2, OrderSide::Sell) => "Leg2 Sell aplicado"@,
        (ExecutionLeg::Recovery, OrderSide::Buy) => "Recovery Buy aplicado"@,
        (ExecutionLeg::Recovery, OrderSide::Sell) => "Recovery Sell aplicado"@,
    }
}

/// Movimiento de un fill en su venue: la compra paga nocional y fee y recibe
/// BTC; la venta entrega BTC y cobra el nocional menos el fee; cada uno
/// descuenta de la reserva lo que consumió.
pub open spec fn delta_de_fill(f: ExecutionFill) -> (Seq<char>, int, int, int, int) {
    let q = f.quantity_btc as int;
    let p = f.price_usd as int;
    let fee = f.fee_usd as int;
    match f.side {
        OrderSide::Buy => (f.venue@, -(q * p + fee), q, -f.reservation_consumed_usd, 0),
        OrderSide::Sell => (f.venue@, q * p - fee, -q, 0, -f.reservation_consumed_btc),
    }
}

/// Entrada del ledger que registra un fill.
pub open spec fn asiento_de_fill(f: ExecutionFill) -> (LedgerEntryKind, Seq<char>, Seq<(Seq<char>, int, int, int, int)>, Seq<char>) {
    (LedgerEntryKind::Fill, f.fill_id@, seq![delta_de_fill(f)], detalle_fill(f.leg, f.side))
}

/// Entradas de los fills, en orden.
pub open spec fn asientos_de_fills(fills: Seq<ExecutionFill>) -> Seq<(LedgerEntryKind, Seq<char>, Seq<(Seq<char>, int, int, int, int)>, Seq<char>)> {
    Seq::new(fills.len(), |i: int| asiento_de_fill(fills[i]))
}

/// Entrada de la reserva: USD de compra y BTC de venta.
pub open spec fn asiento_reserva(r: ExecutionRequest) -> (LedgerEntryKind, Seq<char>, Seq<(Seq<char>, int, int, int, int)>, Seq<char>) {
    (LedgerEntryKind::Reservation, r.execution_id@,
        seq![(r.buy_wallet.venue@, 0, 0, reserva_usd(r), 0), (r.sell_wallet.venue@, 0, 0, 0, r.quantity_btc as int)],
        "USD de compra y BTC de venta reservados"@)
}

/// Entrada que libera las reservas remanentes (USD de compra y BTC de venta).
pub open spec fn asiento_liberacion(r: ExecutionRequest, usd: int, btc: int) -> (LedgerEntryKind, Seq<char>, Seq<(Seq<char>, int, int, int, int)>, Seq<char>) {
    (LedgerEntryKind::ReservationRelease, r.execution_id@,
        seq![(r.buy_wallet.venue@, 0, 0, -usd, 0), (r.sell_wallet.venue@, 0, 0, 0, -btc)],
        "reservas remanentes liberadas en un único batch"@)
}

/// Entrada final de conciliación, sin movimientos.
pub open spec fn asiento_conciliacion(r: ExecutionRequest) -> (LedgerEntryKind, Seq<char>, Seq<(Seq<char>, int, int, int, int)>, Seq<char>) {
    (LedgerEntryKind::Reconciliation, r.execution_id@, Seq::empty(), "snapshot terminal reconciliado"@)
}

/// Los estados destino de la bitácora, en orden.
pub open spec fn destinos(t: Seq<ExecutionTransition>) -> Seq<ExecutionState> {
    Seq::new(t.len(), |i: int| t[i].to)
}

pub open spec fn fill_acotado(f: ExecutionFill) -> bool {
    &&& 0 < f.quantity_btc <= LIMITE_CANTIDAD
    &&& 0 < f.price_usd <= LIMITE_PRECIO
    &&& 0 <= f.fee_usd <= LIMITE_COSTO
}

/// Cota de los saldos tras `n` fills.
pub open spec fn cota_saldo_usd(n: int) -> int {
    LIMITE_SALDO_USD + n * COTA_DELTA
}

pub open spec fn cota_saldo_btc(n: int) -> int {
    LIMITE_CANTIDAD + n * LIMITE_CANTIDAD
}

pub open spec fn billetera_acotada(w: WalletSnapshot, n: int) -> bool {
    &&& -n * COTA_DELTA <= w.usd <= cota_saldo_usd(n)
    &&& 0 <= w.btc <= cota_saldo_btc(n)
    &&& 0 <= w.reserved_usd <= COTA_DELTA
    &&& 0 <= w.reserved_btc <= w.btc
}

/// Toda venta registrada cobra un fee que no supera su nocional.
pub open spec fn ventas_cubiertas(fills: Seq<ExecutionFill>) -> bool {
    forall|i: int|
        0 <= i < fills.len() && fills[i].side == OrderSide::Sell ==> #[trigger] fills[i].fee_usd
            <= fills[i].quantity_btc * fills[i].price_usd
}

impl Simulator {
    spec fn billetera(&self, lado: Lado) -> WalletSnapshot {
        match lado {
            Lado::Compra => self.buy,
            Lado::Venta => self.sell,
        }
    }

    spec fn venue_compra(&self) -> Seq<char> {
        self.request.buy_wallet.venue@
    }

    spec fn venue_venta(&self) -> Seq<char> {
        self.request.sell_wallet.venue@
    }

    /// Invariante del simulador.
    spec fn inv(&self) -> bool {
        let r = self.request;
        let b = self.venue_compra();
        let s = self.venue_venta();
        let n = self.fills@.len() as int;
        &&& solicitud_valida(r)
        &&& solicitud_acotada(r)
        &&& self.buy_before == snapshot_inicial(r.buy_wallet)
        &&& self.sell_before == snapshot_inicial(r.sell_wallet)
        &&& self.buy.venue == r.buy_wallet.venue
        &&& self.sell.venue == r.sell_wallet.venue
        &&& self.buy.venue@ == b
        &&& self.sell.venue@ == s
        &&& refleja(self.buy, self.buy_before, suma_ledger(self.ledger@, b))
        &&& refleja(self.sell, self.sell_before, suma_ledger(self.ledger@, s))
        &&& usd_ledger(self.ledger@) == (self.buy.usd - self.buy_before.usd) + (self.sell.usd
            - self.sell_before.usd)
        &&& ledger_en_venues(self.ledger@, b, s)
        &&& ledger_secuenciado(self.ledger@)
        &&& self.ledger@.len() <= 8
        &&& transiciones_secuenciadas(self.transitions@)
        &&& bitacora_valida(self.transitions@, self.state)
        &&& self.transitions@.len() <= 16
        &&& n <= 3
        &&& billetera_acotada(self.buy, n)
        &&& billetera_acotada(self.sell, n)
        &&& self.buy.reserved_btc == 0
        &&& self.sell.reserved_usd == 0
        &&& (ventas_cubiertas(self.fills@) ==> self.buy.reserved_usd <= self.buy.usd
            && self.sell.usd >= 0)
        &&& self.last_exchange_sequence == n
        &&& secuencias_consecutivas(self.fills@)
        &&& ids_unicos(self.fills@)
        &&& forall|i: int| 0 <= i < n ==> fill_acotado(#[trigger] self.fills@[i])
        &&& self.buy.btc + self.sell.btc == self.buy_before.btc + self.sell_before.btc + residuo(
            self.fills@,
        )
        &&& -n * LIMITE_CANTIDAD <= residuo(self.fills@) <= n * LIMITE_CANTIDAD
        &&& self.reservation_release_count == (if self.reservations_released {
            1u32
        } else {
            0u32
        })
        &&& self.reservations_released ==> self.buy.reserved_usd == 0 && self.sell.reserved_btc
            == 0
        &&& self.reservation_retries_ignored <= 1
        &&& self.duplicates_ignored <= 4
        &&& self.out_of_order_ignored <= 4
        &&& -3 * LIMITE_CANTIDAD <= self.residual_before_recovery_btc <= 3 * LIMITE_CANTIDAD
        &&& detalles_del_escenario(self.transitions@, r.scenario)
    }
}


proof fn lema_suma_ledger_push(l: Seq<WalletLedgerEntry>, e: WalletLedgerEntry, v: Seq<char>)
    ensures
        suma_ledger(l.push(e), v) == ({
            let p = suma_ledger(l, v);
            let q = suma_deltas(e.deltas@, v);
            (p.0 + q.0, p.1 + q.1, p.2 + q.2, p.3 + q.3)
        }),
        usd_ledger(l.push(e)) == usd_ledger(l) + usd_deltas(e.deltas@),
{
    assert(l.push(e).drop_last() =~= l);
}

proof fn lema_residuo_push(f: Seq<ExecutionFill>, x: ExecutionFill)
    ensures
        residuo(f.push(x)) == residuo(f) + match x.side {
            OrderSide::Buy => x.quantity_btc as int,
            OrderSide::Sell => -x.quantity_btc,
        },
{
    assert(f.push(x).drop_last() =~= f);
}

proof fn lema_deltas_vacios(v: Seq<char>)
    ensures
        suma_deltas(Seq::<WalletDelta>::empty(), v) == (0int, 0int, 0int, 0int),
        usd_deltas(Seq::<WalletDelta>::empty()) == 0,
{
}

proof fn lema_deltas_uno(d: WalletDelta, v: Seq<char>)
    ensures
        suma_deltas(seq![d], v) == (if d.venue@ == v {
            (d.usd as int, d.btc as int, d.reserved_usd as int, d.reserved_btc as int)
        } else {
            (0int, 0int, 0int, 0int)
        }),
        usd_deltas(seq![d]) == d.usd,
{
    assert(seq![d].drop_last() =~= Seq::<WalletDelta>::empty());
    assert(seq![d].last() == d);
    reveal_with_fuel(suma_deltas, 2);
    reveal_with_fuel(usd_deltas, 2);
}

proof fn lema_deltas_dos(d1: WalletDelta, d2: WalletDelta, v: Seq<char>)
    ensures
        suma_deltas(seq![d1, d2], v) == ({
            let a = if d1.venue@ == v {
                (d1.usd as int, d1.btc as int, d1.reserved_usd as int, d1.reserved_btc as int)
            } else {
                (0int, 0int, 0int, 0int)
            };
            let b = if d2.venue@ == v {
                (d2.usd as int, d2.btc as int, d2.reserved_usd as int, d2.reserved_btc as int)
            } else {
                (0int, 0int, 0int, 0int)
            };
            (a.0 + b.0, a.1 + b.1, a.2 + b.2, a.3 + b.3)
        }),
        usd_deltas(seq![d1, d2]) == d1.usd + d2.usd,
{
    assert(seq![d1, d2].drop_last() =~= seq![d1]);
    assert(seq![d1, d2].last() == d2);
    lema_deltas_uno(d1, v);
}

/// Construye un delta de wallet.
fn wallet_delta(venue: &String, usd: i128, btc: i128, reserved_usd: i128, reserved_btc: i128) -> (d:
    WalletDelta)
    ensures
        d.venue@ == venue@,
        d.usd == usd,
        d.btc == btc,
        d.reserved_usd == reserved_usd,
        d.reserved_btc == reserved_btc,
{
    WalletDelta { venue: copiar(venue), usd, btc, reserved_usd, reserved_btc }
}

#[verifier::rlimit(60)]
proof fn lema_bitacora_push(t: Seq<ExecutionTransition>, x: ExecutionTransition, estado: Option<ExecutionState>)
    requires
        bitacora_valida(t, estado),
        x.from == estado,
        transicion_permitida(estado, x.to),
    ensures
        bitacora_valida(t.push(x), Some(x.to)),
{
    reveal(bitacora_valida);
    let u = t.push(x);
    assert(u.len() == t.len() + 1);
    assert(u.last() == x);
    assert forall|i: int| 0 <= i < u.len() implies transicion_permitida((#[trigger] u[i]).from, u[i].to) by {
        if i < t.len() {
            assert(u[i] == t[i]);
        } else {
            assert(u[i] == x);
        }
    }
    assert forall|i: int| 0 < i < u.len() implies (#[trigger] u[i]).from == Some(u[i - 1].to) by {
        if i < t.len() {
            assert(u[i] == t[i]);
            assert(u[i - 1] == t[i - 1]);
        } else {
            assert(u[i - 1] == t.last());
        }
    }
}

proof fn lema_bitacora_vacia()
    ensures
        bitacora_valida(Seq::<ExecutionTransition>::empty(), None),
{
    reveal(bitacora_valida);
}

impl Simulator {
    /// Todos los campos coinciden salvo el estado y la bitácora de transiciones.
    spec fn igual_salvo_estado(&self, o: &Simulator) -> bool {
        &&& self.request == o.request
        &&& self.buy_before == o.buy_before
        &&& self.sell_before == o.sell_before
        &&& self.buy == o.buy
        &&& self.sell == o.sell
        &&& self.fills == o.fills
        &&& self.ledger == o.ledger
        &&& self.last_exchange_sequence == o.last_exchange_sequence
        &&& self.reservation_created == o.reservation_created
        &&& self.reservations_released == o.reservations_released
        &&& self.reservation_release_count == o.reservation_release_count
        &&& self.reservation_retries_ignored == o.reservation_retries_ignored
        &&& self.duplicates_ignored == o.duplicates_ignored
        &&& self.out_of_order_ignored == o.out_of_order_ignored
        &&& self.selected_recovery == o.selected_recovery
        &&& self.residual_before_recovery_btc == o.residual_before_recovery_btc
        &&& self.restart_performed == o.restart_performed
        &&& self.retry_performed == o.retry_performed
        &&& self.state_rehydrated == o.state_rehydrated
    }

    /// Crea el simulador con wallets iniciales y reservas en cero.
    fn new(request: ExecutionRequest) -> (sim: Simulator)
        requires
            solicitud_valida(request),
            solicitud_acotada(request),
        ensures
            sim.inv(),
            sim.request == request,
            sim.state is None,
            sim.transitions@.len() == 0,
            sim.fills@.len() == 0,
            sim.ledger@.len() == 0,
            sim.buy == snapshot_inicial(request.buy_wallet),
            sim.sell == snapshot_inicial(request.sell_wallet),
            !sim.reservation_created,
            !sim.reservations_released,
            sim.reservation_retries_ignored == 0,
            sim.duplicates_ignored == 0,
            sim.out_of_order_ignored == 0,
            sim.selected_recovery is None,
            sim.residual_before_recovery_btc == 0,
            !sim.restart_performed,
            !sim.retry_performed,
            !sim.state_rehydrated,
    {
        let buy = WalletSnapshot::desde_inicial(&request.buy_wallet);
        let sell = WalletSnapshot::desde_inicial(&request.sell_wallet);
        let sim = Simulator {
            buy_before: buy.copia(),
            sell_before: sell.copia(),
            buy,
            sell,
            request,
            state: None,
            transitions: Vec::new(),
            fills: Vec::new(),
            ledger: Vec::new(),
            last_exchange_sequence: 0,
            reservation_created: false,
            reservations_released: false,
            reservation_release_count: 0,
            reservation_retries_ignored: 0,
            duplicates_ignored: 0,
            out_of_order_ignored: 0,
            selected_recovery: None,
            residual_before_recovery_btc: 0,
            restart_performed: false,
            retry_performed: false,
            state_rehydrated: false,
        };
        proof {
            assert(refleja(sim.buy, sim.buy_before, suma_ledger(sim.ledger@, sim.venue_compra())));
            assert(refleja(sim.sell, sim.sell_before, suma_ledger(sim.ledger@, sim.venue_venta())));
            lema_bitacora_vacia();
        }
        sim
    }

    /// Avanza la máquina de estados si la transición está permitida.
    fn transition(&mut self, to: ExecutionState, detail: &str) -> (r: Result<(), ExecutionError>)
        requires
            old(self).inv(),
            old(self).transitions@.len() < 16,
            detail@ == detalle_transicion(old(self).request.scenario, to),
        ensures
            r is Ok <==> transicion_permitida(old(self).state, to),
            r is Ok ==> {
                &&& final(self).state == Some(to)
                &&& final(self).transitions@.len() == old(self).transitions@.len() + 1
                &&& destinos(final(self).transitions@) == destinos(old(self).transitions@).push(to)
                &&& final(self).igual_salvo_estado(old(self))
                &&& final(self).inv()
            },
            r is Err ==> *final(self) == *old(self) && r->Err_0 is InvalidTransition,
    {
        if !allowed_transition(self.state, to) {
            return Err(ExecutionError::InvalidTransition { from: self.state, to });
        }
        let ghost o = *old(self);
        let sequence = self.transitions.len() as u64 + 1;
        self.transitions.push(
            ExecutionTransition { sequence, from: self.state, to, detail: String::from_str(detail) },
        );
        self.state = Some(to);
        proof {
            assert(self.transitions@ == o.transitions@.push(self.transitions@.last()));
            lema_bitacora_push(o.transitions@, self.transitions@.last(), o.state);
            assert(destinos(self.transitions@) =~= destinos(o.transitions@).push(to));
        }
        Ok(())
    }

    /// Agrega una entrada al ledger con la siguiente secuencia.
    fn append_ledger(
        &mut self,
        kind: LedgerEntryKind,
        reference: String,
        deltas: Vec<WalletDelta>,
        detail: &str,
    )
        requires
            old(self).ledger@.len() < 8,
        ensures
            final(self).ledger@.len() == old(self).ledger@.len() + 1,
            final(self).ledger@.drop_last() == old(self).ledger@,
            final(self).ledger@.last().sequence == old(self).ledger@.len() + 1,
            final(self).ledger@.last().kind == kind,
            clases(final(self).ledger@) == clases(old(self).ledger@).push(kind),
            asientos(final(self).ledger@) == asientos(old(self).ledger@).push((kind, reference@, vista_deltas(deltas@), detail@)),
            final(self).ledger@.last().deltas == deltas,
            final(self).ledger@.last().reference == reference,
            final(self).request == old(self).request,
            final(self).buy_before == old(self).buy_before,
            final(self).sell_before == old(self).sell_before,
            final(self).buy == old(self).buy,
            final(self).sell == old(self).sell,
            final(self).state == old(self).state,
            final(self).transitions == old(self).transitions,
            final(self).fills == old(self).fills,
            final(self).last_exchange_sequence == old(self).last_exchange_sequence,
            final(self).reservation_created == old(self).reservation_created,
            final(self).reservations_released == old(self).reservations_released,
            final(self).reservation_release_count == old(self).reservation_release_count,
            final(self).reservation_retries_ignored == old(self).reservation_retries_ignored,
            final(self).duplicates_ignored == old(self).duplicates_ignored,
            final(self).out_of_order_ignored == old(self).out_of_order_ignored,
            final(self).selected_recovery == old(self).selected_recovery,
            final(self).residual_before_recovery_btc == old(self).residual_before_recovery_btc,
            final(self).restart_performed == old(self).restart_performed,
            final(self).retry_performed == old(self).retry_performed,
            final(self).state_rehydrated == old(self).state_rehydrated,
    {
        let sequence = self.ledger.len() as u64 + 1;
        self.ledger.push(
            WalletLedgerEntry { sequence, kind, reference, deltas, detail: String::from_str(detail) },
        );
        proof {
            assert(self.ledger@.drop_last() =~= old(self).ledger@);
            assert(clases(self.ledger@) =~= clases(old(self).ledger@).push(kind));
            assert(asientos(self.ledger@) =~= asientos(old(self).ledger@).push((kind, reference@, vista_deltas(deltas@), detail@)));
        }
    }
}


/// Parte de la reserva que consume un fill.
pub open spec fn consumo_reserva(
    w: WalletSnapshot,
    side: OrderSide,
    q: int,
    p: int,
    f: int,
    usa_usd: bool,
    usa_btc: bool,
) -> int {
    match side {
        OrderSide::Buy => if usa_usd {
            if w.reserved_usd <= q * p + f {
                w.reserved_usd as int
            } else {
                q * p + f
            }
        } else {
            0
        },
        OrderSide::Sell => if usa_btc {
            if w.reserved_btc <= q {
                w.reserved_btc as int
            } else {
                q
            }
        } else {
            0
        },
    }
}

/// Saldo disponible para un fill, contando la reserva que consume.
pub open spec fn disponible_para(w: WalletSnapshot, side: OrderSide, c: int) -> int {
    match side {
        OrderSide::Buy => w.usd - w.reserved_usd + c,
        OrderSide::Sell => w.btc - w.reserved_btc + c,
    }
}

/// Lo que un fill exige: USD con fee para comprar, BTC para vender.
pub open spec fn requerido_para(side: OrderSide, q: int, p: int, f: int) -> int {
    match side {
        OrderSide::Buy => q * p + f,
        OrderSide::Sell => q,
    }
}

/// Wallet tras aplicar un fill que consume `c` de su reserva.
pub open spec fn tras_fill(w: WalletSnapshot, side: OrderSide, q: int, p: int, f: int, c: int) -> WalletSnapshot {
    match side {
        OrderSide::Buy => WalletSnapshot {
            venue: w.venue,
            usd: (w.usd - (q * p + f)) as i128,
            btc: (w.btc + q) as i128,
            reserved_usd: (w.reserved_usd - c) as i128,
            reserved_btc: w.reserved_btc,
        },
        OrderSide::Sell => WalletSnapshot {
            venue: w.venue,
            usd: (w.usd + q * p - f) as i128,
            btc: (w.btc - q) as i128,
            reserved_usd: w.reserved_usd,
            reserved_btc: (w.reserved_btc - c) as i128,
        },
    }
}

pub open spec fn fill_con_consumo(fill: ExecutionFill, c: int) -> ExecutionFill {
    if fill.side == OrderSide::Buy {
        ExecutionFill { reservation_consumed_usd: c as i128, ..fill }
    } else {
        ExecutionFill { reservation_consumed_btc: c as i128, ..fill }
    }
}

pub open spec fn id_visto(fills: Seq<ExecutionFill>, id: Seq<char>) -> bool {
    exists|i: int| 0 <= i < fills.len() && fills[i].fill_id@ == id
}

spec fn otro_lado(lado: Lado) -> Lado {
    match lado {
        Lado::Compra => Lado::Venta,
        Lado::Venta => Lado::Compra,
    }
}

impl Simulator {
    /// Coinciden todos los campos salvo los contadores de eventos ignorados.
    spec fn mismo_nucleo(&self, o: &Simulator) -> bool {
        &&& self.request == o.request
        &&& self.buy_before == o.buy_before
        &&& self.sell_before == o.sell_before
        &&& self.buy == o.buy
        &&& self.sell == o.sell
        &&& self.state == o.state
        &&& self.transitions == o.transitions
        &&& self.fills == o.fills
        &&& self.ledger == o.ledger
        &&& self.last_exchange_sequence == o.last_exchange_sequence
        &&& self.reservation_created == o.reservation_created
        &&& self.reservations_released == o.reservations_released
        &&& self.reservation_release_count == o.reservation_release_count
        &&& self.selected_recovery == o.selected_recovery
        &&& self.residual_before_recovery_btc == o.residual_before_recovery_btc
        &&& self.restart_performed == o.restart_performed
        &&& self.retry_performed == o.retry_performed
        &&& self.state_rehydrated == o.state_rehydrated
    }

    fn billetera_ref(&self, lado: Lado) -> (w: &WalletSnapshot)
        ensures
            *w == self.billetera(lado),
    {
        match lado {
            Lado::Compra => &self.buy,
            Lado::Venta => &self.sell,
        }
    }

    /// Decide si el id ya fue aplicado.
    fn visto(&self, id: &String) -> (r: bool)
        ensures
            r == id_visto(self.fills@, id@),
    {
        let mut i: usize = 0;
        while i < self.fills.len()
            invariant
                i <= self.fills@.len(),
                forall|j: int| 0 <= j < i ==> self.fills@[j].fill_id@ != id@,
            decreases self.fills@.len() - i,
        {
            if iguales(self.fills[i].fill_id.as_str(), id.as_str()) {
                return true;
            }
            i = i + 1;
        }
        false
    }

    /// Aplica un fill exactamente una vez: ignora duplicados y eventos fuera
    /// de orden, valida saldo disponible y registra el movimiento en el ledger.
    #[verifier::rlimit(80)]
    fn apply_fill(&mut self, fill: ExecutionFill, lado: Lado, uso: ReservationUse) -> (r: Result<
        bool,
        ExecutionError,
    >)
        requires
            old(self).inv(),
            old(self).fills@.len() < 3,
            old(self).ledger@.len() < 8,
            old(self).duplicates_ignored < 4,
            old(self).out_of_order_ignored < 4,
            fill.venue@ == old(self).billetera(lado).venue@,
            -LIMITE_CANTIDAD <= fill.quantity_btc <= LIMITE_CANTIDAD,
            -LIMITE_PRECIO <= fill.price_usd <= LIMITE_PRECIO,
            -LIMITE_COSTO <= fill.fee_usd <= LIMITE_COSTO,
            uso == ReservationUse::Usd ==> lado == Lado::Compra && fill.side == OrderSide::Buy,
            uso == ReservationUse::Btc ==> lado == Lado::Venta && fill.side == OrderSide::Sell,
        ensures
            ({
                let o = old(self);
                let w = o.billetera(lado);
                let q = fill.quantity_btc as int;
                let p = fill.price_usd as int;
                let f = fill.fee_usd as int;
                let c = consumo_reserva(
                    w,
                    fill.side,
                    q,
                    p,
                    f,
                    uso == ReservationUse::Usd,
                    uso == ReservationUse::Btc,
                );
                let dup = id_visto(o.fills@, fill.fill_id@);
                let en_orden = fill.exchange_sequence == o.last_exchange_sequence + 1;
                let valido = q > 0 && p > 0 && f >= 0;
                let alcanza = disponible_para(w, fill.side, c) >= requerido_para(fill.side, q, p, f);
                &&& dup ==> {
                    &&& r == Ok::<bool, ExecutionError>(false)
                    &&& final(self).mismo_nucleo(o)
                    &&& final(self).reservation_retries_ignored == o.reservation_retries_ignored
                    &&& final(self).duplicates_ignored == o.duplicates_ignored + 1
                    &&& final(self).out_of_order_ignored == o.out_of_order_ignored
                    &&& final(self).inv()
                }
                &&& (!dup && !en_orden) ==> {
                    &&& r == Ok::<bool, ExecutionError>(false)
                    &&& final(self).mismo_nucleo(o)
                    &&& final(self).reservation_retries_ignored == o.reservation_retries_ignored
                    &&& final(self).duplicates_ignored == o.duplicates_ignored
                    &&& final(self).out_of_order_ignored == o.out_of_order_ignored + 1
                    &&& final(self).inv()
                }
                &&& (!dup && en_orden && !valido) ==> r is Err && r->Err_0 is InvalidRequest
                &&& (!dup && en_orden && valido && !alcanza) ==> r is Err && r->Err_0 is InsufficientBalance
                &&& (!dup && en_orden && valido && alcanza) ==> {
                    &&& r == Ok::<bool, ExecutionError>(true)
                    &&& final(self).inv()
                    &&& final(self).fills@ == o.fills@.push(fill_con_consumo(fill, c))
                    &&& asientos(final(self).ledger@) == asientos(o.ledger@).push(asiento_de_fill(fill_con_consumo(fill, c)))
                    &&& final(self).billetera(lado) == tras_fill(w, fill.side, q, p, f, c)
                    &&& final(self).billetera(otro_lado(lado)) == o.billetera(otro_lado(lado))
                    &&& final(self).ledger@.len() == o.ledger@.len() + 1
                    &&& clases(final(self).ledger@) == clases(o.ledger@).push(LedgerEntryKind::Fill)
                    &&& final(self).request == o.request
                    &&& final(self).state == o.state
                    &&& final(self).transitions == o.transitions
                    &&& final(self).reservation_created == o.reservation_created
                    &&& final(self).reservations_released == o.reservations_released
                    &&& final(self).reservation_retries_ignored == o.reservation_retries_ignored
                    &&& final(self).duplicates_ignored == o.duplicates_ignored
                    &&& final(self).out_of_order_ignored == o.out_of_order_ignored
                    &&& final(self).selected_recovery == o.selected_recovery
                    &&& final(self).residual_before_recovery_btc == o.residual_before_recovery_btc
                    &&& final(self).restart_performed == o.restart_performed
                    &&& final(self).retry_performed == o.retry_performed
                    &&& final(self).state_rehydrated == o.state_rehydrated
                }
            }),
    {
        let ghost o = *old(self);
        if self.visto(&fill.fill_id) {
            self.duplicates_ignored = self.duplicates_ignored + 1;
            return Ok(false);
        }
        if fill.exchange_sequence != self.last_exchange_sequence + 1 {
            self.out_of_order_ignored = self.out_of_order_ignored + 1;
            return Ok(false);
        }
        if fill.quantity_btc <= 0 || fill.price_usd <= 0 || fill.fee_usd < 0 {
            return Err(invalida("fill con cantidad, precio o fee inválido"));
        }
        proof {
            assert(0 < fill.quantity_btc * fill.price_usd <= LIMITE_CANTIDAD * LIMITE_PRECIO) by (nonlinear_arith)
                requires
                    0 < fill.quantity_btc <= LIMITE_CANTIDAD,
                    0 < fill.price_usd <= LIMITE_PRECIO,
            ;
        }
        let notional = fill.quantity_btc * fill.price_usd;
        let w = self.billetera_ref(lado).copia();
        let mut fill = fill;
        let (usd_delta, btc_delta, reserved_usd_delta, reserved_btc_delta, consumed) = match fill.side {
            OrderSide::Buy => {
                let required = notional + fill.fee_usd;
                let consumed: i128 = if uso == ReservationUse::Usd {
                    if w.reserved_usd <= required {
                        w.reserved_usd
                    } else {
                        required
                    }
                } else {
                    0
                };
                let available = w.usd - w.reserved_usd + consumed;
                if available < required {
                    return Err(
                        ExecutionError::InsufficientBalance {
                            venue: copiar(&fill.venue),
                            asset: String::from_str("USD"),
                            required,
                            available,
                        },
                    );
                }
                fill.reservation_consumed_usd = consumed;
                (-required, fill.quantity_btc, -consumed, 0i128, consumed)
            },
            OrderSide::Sell => {
                let consumed: i128 = if uso == ReservationUse::Btc {
                    if w.reserved_btc <= fill.quantity_btc {
                        w.reserved_btc
                    } else {
                        fill.quantity_btc
                    }
                } else {
                    0
                };
                let available = w.btc - w.reserved_btc + consumed;
                if available < fill.quantity_btc {
                    return Err(
                        ExecutionError::InsufficientBalance {
                            venue: copiar(&fill.venue),
                            asset: String::from_str("BTC"),
                            required: fill.quantity_btc,
                            available,
                        },
                    );
                }
                let proceeds = notional - fill.fee_usd;
                fill.reservation_consumed_btc = consumed;
                (proceeds, -fill.quantity_btc, 0i128, -consumed, consumed)
            },
        };
        let nueva = WalletSnapshot {
            venue: copiar(&w.venue),
            usd: w.usd + usd_delta,
            btc: w.btc + btc_delta,
            reserved_usd: w.reserved_usd + reserved_usd_delta,
            reserved_btc: w.reserved_btc + reserved_btc_delta,
        };
        match lado {
            Lado::Compra => { self.buy = nueva; },
            Lado::Venta => { self.sell = nueva; },
        }
        self.last_exchange_sequence = fill.exchange_sequence;
        let mut deltas: Vec<WalletDelta> = Vec::new();
        deltas.push(wallet_delta(&fill.venue, usd_delta, btc_delta, reserved_usd_delta, reserved_btc_delta));
        let detalle = match (fill.leg, fill.side) {
            (ExecutionLeg::Leg1, OrderSide::Buy) => "Leg1 Buy aplicado",
            (ExecutionLeg::Leg1, OrderSide::Sell) => "Leg1 Sell aplicado",
            (ExecutionLeg::Leg2, OrderSide::Buy) => "Leg2 Buy aplicado",
            (ExecutionLeg::Leg2, OrderSide::Sell) => "Leg2 Sell aplicado",
            (ExecutionLeg::Recovery, OrderSide::Buy) => "Recovery Buy aplicado",
            (ExecutionLeg::Recovery, OrderSide::Sell) => "Recovery Sell aplicado",
        };
        let ghost antes = *self;
        proof {
            assert(vista_deltas(deltas@) =~= seq![delta_de_fill(fill)]);
            assert(detalle@ == detalle_fill(fill.leg, fill.side));
        }
        self.append_ledger(LedgerEntryKind::Fill, copiar(&fill.fill_id), deltas, detalle);
        proof {
            let b = o.venue_compra();
            let s = o.venue_venta();
            let e = self.ledger@.last();
            assert(self.ledger@ == o.ledger@.push(e));
            assert(e.deltas@ == seq![e.deltas@[0]]);
            lema_deltas_uno(e.deltas@[0], b);
            lema_deltas_uno(e.deltas@[0], s);
            lema_suma_ledger_push(o.ledger@, e, b);
            lema_suma_ledger_push(o.ledger@, e, s);
            lema_residuo_push(o.fills@, fill);
        }
        self.fills.push(fill);
        proof {
            let n = o.fills@.len() as int;
            assert(self.fills@.len() == n + 1);
            assert forall|i: int, j: int| 0 <= i < j < self.fills@.len() implies self.fills@[i].fill_id@
                != self.fills@[j].fill_id@ by {
                if j == n {
                    assert(self.fills@[i] == o.fills@[i]);
                }
            }
            assert forall|i: int| 0 <= i < self.fills@.len() implies #[trigger] self.fills@[i].exchange_sequence == i + 1 by {
                if i < n {
                    assert(self.fills@[i] == o.fills@[i]);
                }
            }
            assert forall|i: int| 0 <= i < self.fills@.len() implies fill_acotado(#[trigger] self.fills@[i]) by {
                if i < n {
                    assert(self.fills@[i] == o.fills@[i]);
                }
            }
            let e = self.ledger@.last();
            assert(e.deltas@.len() == 1);
            assert(deltas_en_venues(e.deltas@, o.venue_compra(), o.venue_venta())) by {
                assert forall|j: int| 0 <= j < e.deltas@.len() implies (e.deltas@[j].venue@ == o.venue_compra() || e.deltas@[j].venue@ == o.venue_venta()) by {
                    assert(j == 0);
                }
            }
            assert forall|i: int| 0 <= i < self.ledger@.len() implies deltas_en_venues(#[trigger] self.ledger@[i].deltas@, o.venue_compra(), o.venue_venta()) by {
                if i < self.ledger@.len() - 1 {
                    assert(self.ledger@[i] == o.ledger@[i]);
                    assert(ledger_en_venues(o.ledger@, o.venue_compra(), o.venue_venta()));
                    assert(deltas_en_venues(o.ledger@[i].deltas@, o.venue_compra(), o.venue_venta()));
                } else {
                    assert(self.ledger@[i] == e);
                }
            }
            assert forall|i: int| 0 <= i < self.ledger@.len() implies #[trigger] self.ledger@[i].sequence == i + 1 by {
                if i < self.ledger@.len() - 1 {
                    assert(self.ledger@[i] == o.ledger@[i]);
                }
            }
            if ventas_cubiertas(self.fills@) {
                assert forall|i: int| 0 <= i < o.fills@.len() && o.fills@[i].side == OrderSide::Sell implies #[trigger] o.fills@[i].fee_usd <= o.fills@[i].quantity_btc * o.fills@[i].price_usd by {
                    assert(self.fills@[i] == o.fills@[i]);
                }
                assert(self.fills@[n] == fill);
            }
        }
        Ok(true)
    }
}


/// USD que reserva la primera pierna: nocional más su fee completo.
pub open spec fn reserva_usd(r: ExecutionRequest) -> int {
    r.quantity_btc * r.prices.leg1_buy_price_usd + r.costs.leg1_fee_usd
}

/// El venue de compra cubre la reserva USD y el de venta la reserva BTC.
pub open spec fn reservable(r: ExecutionRequest) -> bool {
    &&& r.buy_wallet.usd >= reserva_usd(r)
    &&& r.sell_wallet.btc >= r.quantity_btc
}

proof fn lema_producto_acotado(q: int, p: int)
    requires
        0 <= q <= LIMITE_CANTIDAD,
        0 <= p <= LIMITE_PRECIO,
    ensures
        0 <= q * p <= LIMITE_CANTIDAD * LIMITE_PRECIO,
{
    assert(0 <= q * p <= LIMITE_CANTIDAD * LIMITE_PRECIO) by (nonlinear_arith)
        requires
            0 <= q <= LIMITE_CANTIDAD,
            0 <= p <= LIMITE_PRECIO,
    ;
}

impl Simulator {
    /// Reserva USD en el venue de compra y BTC en el de venta. Un reintento
    /// tras reinicio no vuelve a reservar: sólo se cuenta.
    #[verifier::rlimit(60)]
    fn reserve(&mut self) -> (r: Result<(), ExecutionError>)
        requires
            old(self).inv(),
            old(self).ledger@.len() < 8,
            old(self).transitions@.len() < 16,
            old(self).reservation_created ==> old(self).reservation_retries_ignored == 0,
            !old(self).reservation_created ==> {
                &&& old(self).state == Some(ExecutionState::Detected)
                &&& old(self).fills@.len() == 0
                &&& old(self).buy == old(self).buy_before
                &&& old(self).sell == old(self).sell_before
                &&& !old(self).reservations_released
            },
        ensures
            old(self).reservation_created ==> {
                &&& r is Ok
                &&& final(self).inv()
                &&& final(self).mismo_nucleo(old(self))
                &&& final(self).reservation_retries_ignored == 1
                &&& final(self).duplicates_ignored == old(self).duplicates_ignored
                &&& final(self).out_of_order_ignored == old(self).out_of_order_ignored
            },
            !old(self).reservation_created ==> {
                &&& (r is Ok <==> reservable(old(self).request))
                &&& r is Err ==> r->Err_0 is InsufficientBalance
                &&& r is Ok ==> {
                    &&& final(self).inv()
                    &&& final(self).request == old(self).request
                    &&& final(self).state == Some(ExecutionState::Reserved)
                    &&& final(self).transitions@.len() == old(self).transitions@.len() + 1
                    &&& destinos(final(self).transitions@) == destinos(old(self).transitions@).push(ExecutionState::Reserved)
                    &&& final(self).ledger@.len() == old(self).ledger@.len() + 1
                    &&& clases(final(self).ledger@) == clases(old(self).ledger@).push(LedgerEntryKind::Reservation)
                    &&& asientos(final(self).ledger@) == asientos(old(self).ledger@).push(asiento_reserva(old(self).request))
                    &&& final(self).fills == old(self).fills
                    &&& final(self).buy.usd == old(self).buy.usd
                    &&& final(self).buy.btc == old(self).buy.btc
                    &&& final(self).buy.reserved_usd == reserva_usd(old(self).request)
                    &&& final(self).sell.usd == old(self).sell.usd
                    &&& final(self).sell.btc == old(self).sell.btc
                    &&& final(self).sell.reserved_btc == old(self).request.quantity_btc
                    &&& final(self).reservation_created
                    &&& !final(self).reservations_released
                    &&& final(self).reservation_retries_ignored == old(self).reservation_retries_ignored
                    &&& final(self).duplicates_ignored == old(self).duplicates_ignored
                    &&& final(self).out_of_order_ignored == old(self).out_of_order_ignored
                    &&& final(self).selected_recovery == old(self).selected_recovery
                    &&& final(self).residual_before_recovery_btc == old(self).residual_before_recovery_btc
                    &&& final(self).restart_performed == old(self).restart_performed
                    &&& final(self).retry_performed == old(self).retry_performed
                    &&& final(self).state_rehydrated == old(self).state_rehydrated
                }
            },
    {
        if self.reservation_created {
            self.reservation_retries_ignored = self.reservation_retries_ignored + 1;
            return Ok(());
        }
        let ghost o = *old(self);
        proof {
            lema_producto_acotado(self.request.quantity_btc as int, self.request.prices.leg1_buy_price_usd as int);
        }
        let usd = self.request.quantity_btc * self.request.prices.leg1_buy_price_usd
            + self.request.costs.leg1_fee_usd;
        let btc = self.request.quantity_btc;
        let buy_available = self.buy.usd - self.buy.reserved_usd;
        if buy_available < usd {
            return Err(
                ExecutionError::InsufficientBalance {
                    venue: copiar(&self.request.buy_wallet.venue),
                    asset: String::from_str("USD"),
                    required: usd,
                    available: buy_available,
                },
            );
        }
        let sell_available = self.sell.btc - self.sell.reserved_btc;
        if sell_available < btc {
            return Err(
                ExecutionError::InsufficientBalance {
                    venue: copiar(&self.request.sell_wallet.venue),
                    asset: String::from_str("BTC"),
                    required: btc,
                    available: sell_available,
                },
            );
        }
        self.buy.reserved_usd = self.buy.reserved_usd + usd;
        self.sell.reserved_btc = self.sell.reserved_btc + btc;
        let mut deltas: Vec<WalletDelta> = Vec::new();
        deltas.push(wallet_delta(&self.request.buy_wallet.venue, 0, 0, usd, 0));
        deltas.push(wallet_delta(&self.request.sell_wallet.venue, 0, 0, 0, btc));
        let reference = copiar(&self.request.execution_id);
        proof {
            assert(vista_deltas(deltas@) =~= seq![(self.request.buy_wallet.venue@, 0int, 0int, usd as int, 0int),
                (self.request.sell_wallet.venue@, 0int, 0int, 0int, btc as int)]);
        }
        self.append_ledger(
            LedgerEntryKind::Reservation,
            reference,
            deltas,
            "USD de compra y BTC de venta reservados",
        );
        self.reservation_created = true;
        proof {
            let b = o.venue_compra();
            let s = o.venue_venta();
            let e = self.ledger@.last();
            assert(self.ledger@ == o.ledger@.push(e));
            assert(e.deltas@ =~= seq![e.deltas@[0], e.deltas@[1]]);
            lema_deltas_dos(e.deltas@[0], e.deltas@[1], b);
            lema_deltas_dos(e.deltas@[0], e.deltas@[1], s);
            lema_suma_ledger_push(o.ledger@, e, b);
            lema_suma_ledger_push(o.ledger@, e, s);
            assert(deltas_en_venues(e.deltas@, b, s)) by {
                assert forall|j: int| 0 <= j < e.deltas@.len() implies (e.deltas@[j].venue@ == b || e.deltas@[j].venue@ == s) by {
                    assert(j == 0 || j == 1);
                }
            }
            assert forall|i: int| 0 <= i < self.ledger@.len() implies deltas_en_venues(#[trigger] self.ledger@[i].deltas@, b, s) by {
                if i < self.ledger@.len() - 1 {
                    assert(self.ledger@[i] == o.ledger@[i]);
                    assert(ledger_en_venues(o.ledger@, o.venue_compra(), o.venue_venta()));
                    assert(deltas_en_venues(o.ledger@[i].deltas@, o.venue_compra(), o.venue_venta()));
                } else {
                    assert(self.ledger@[i] == e);
                }
            }
            assert forall|i: int| 0 <= i < self.ledger@.len() implies #[trigger] self.ledger@[i].sequence == i + 1 by {
                if i < self.ledger@.len() - 1 {
                    assert(self.ledger@[i] == o.ledger@[i]);
                }
            }
        }
        self.transition(ExecutionState::Reserved, "capital reservado")
    }
}


/// Identificador de fill: el de la ejecución seguido del sufijo.
pub open spec fn id_de_fill(r: ExecutionRequest, sufijo: Seq<char>) -> Seq<char> {
    r.execution_id@ + sufijo
}

proof fn lema_sufijos_distintos(a: Seq<char>, x: Seq<char>, y: Seq<char>)
    requires
        x != y,
    ensures
        a + x != a + y,
{
    if a + x == a + y {
        assert((a + x).skip(a.len() as int) =~= x);
        assert((a + y).skip(a.len() as int) =~= y);
    }
}

proof fn lema_fee_prorrateado(total: int, filled: int, requested: int, precio: int)
    requires
        0 <= total,
        0 <= filled <= requested,
        requested > 0,
        0 <= precio,
    ensures
        0 <= fee_prorrateado(total, filled, requested) <= total,
        fee_prorrateado(total, requested, requested) == total,
        filled * precio + fee_prorrateado(total, filled, requested) <= requested * precio + total,
        total <= requested * precio ==> fee_prorrateado(total, filled, requested) <= filled * precio,
{
    let fp = (total * filled) / requested;
    assert(0 <= total * filled <= total * requested) by (nonlinear_arith)
        requires
            0 <= total,
            0 <= filled <= requested,
    ;
    assert(0 <= fp <= total) by (nonlinear_arith)
        requires
            0 <= total * filled <= total * requested,
            requested > 0,
            fp == (total * filled) / requested,
    ;
    assert((total * requested) / requested == total) by (nonlinear_arith)
        requires
            requested > 0,
    ;
    assert(filled * precio <= requested * precio) by (nonlinear_arith)
        requires
            0 <= filled <= requested,
            0 <= precio,
    ;
    if total <= requested * precio {
        assert(fp <= filled * precio) by (nonlinear_arith)
            requires
                total <= requested * precio,
                0 <= filled,
                requested > 0,
                0 <= total,
                fp == (total * filled) / requested,
        {
            assert(total * filled <= requested * precio * filled) by (nonlinear_arith)
                requires
                    total <= requested * precio,
                    0 <= filled,
            ;
            assert((requested * precio * filled) / requested == precio * filled) by (nonlinear_arith)
                requires
                    requested > 0,
            ;
            assert((total * filled) / requested <= (requested * precio * filled) / requested) by (nonlinear_arith)
                requires
                    total * filled <= requested * precio * filled,
                    requested > 0,
            ;
        }
    }
}

impl Simulator {
    fn make_fill(
        &self,
        sufijo: &str,
        exchange_sequence: u64,
        leg: ExecutionLeg,
        lado: Lado,
        side: OrderSide,
        quantity_btc: i128,
        price_usd: i128,
        fee_usd: i128,
    ) -> (f: ExecutionFill)
        requires
            self.inv(),
        ensures
            f.fill_id@ == id_de_fill(self.request, sufijo@),
            f.exchange_sequence == exchange_sequence,
            f.leg == leg,
            f.venue@ == self.billetera(lado).venue@,
            f.side == side,
            f.quantity_btc == quantity_btc,
            f.price_usd == price_usd,
            f.fee_usd == fee_usd,
            f.reservation_consumed_usd == 0,
            f.reservation_consumed_btc == 0,
    {
        let venue = match lado {
            Lado::Compra => copiar(&self.request.buy_wallet.venue),
            Lado::Venta => copiar(&self.request.sell_wallet.venue),
        };
        ExecutionFill {
            fill_id: unir(self.request.execution_id.as_str(), sufijo),
            exchange_sequence,
            leg,
            venue,
            side,
            quantity_btc,
            price_usd,
            fee_usd,
            reservation_consumed_usd: 0,
            reservation_consumed_btc: 0,
        }
    }

    /// Aplica el fill de la primera pierna (compra) ya enviada.
    #[verifier::rlimit(60)]
    fn complete_leg1(&mut self, quantity: i128) -> (r: Result<ExecutionFill, ExecutionError>)
        requires
            old(self).inv(),
            old(self).state == Some(ExecutionState::Leg1Submitted),
            old(self).fills@.len() == 0,
            old(self).ledger@.len() <= 6,
            old(self).transitions@.len() < 16,
            old(self).duplicates_ignored < 4,
            old(self).out_of_order_ignored < 4,
            0 <= quantity <= old(self).request.quantity_btc,
            old(self).buy.reserved_usd == reserva_usd(old(self).request),
            old(self).buy.reserved_usd <= old(self).buy.usd,
        ensures
            quantity == 0 ==> r is Err && r->Err_0 is InvalidRequest,
            quantity > 0 ==> {
                let o = old(self);
                let q = o.request.quantity_btc as int;
                let p1 = o.request.prices.leg1_buy_price_usd as int;
                let req = quantity * p1 + fee_prorrateado(o.request.costs.leg1_fee_usd as int, quantity as int, q);
                &&& r is Ok
                &&& final(self).inv()
                &&& final(self).request == o.request
                &&& final(self).fills@.len() == 1
                &&& fill_con_consumo(r->Ok_0, req) == final(self).fills@[0]
                &&& r->Ok_0.reservation_consumed_usd == 0
                &&& r->Ok_0.venue@ == o.request.buy_wallet.venue@
                &&& final(self).fills@[0].fill_id@ == id_de_fill(o.request, "-leg1-fill"@)
                &&& huella_fill(final(self).fills@[0]) == (id_de_fill(o.request, "-leg1-fill"@),
                    o.request.buy_wallet.venue@, req, 0int)
                &&& final(self).fills@[0].side == OrderSide::Buy
                &&& final(self).fills@[0].quantity_btc == quantity
                &&& final(self).fills@[0].leg == ExecutionLeg::Leg1
                &&& final(self).fills@[0].price_usd == p1
                &&& final(self).fills@[0].fee_usd == fee_prorrateado(o.request.costs.leg1_fee_usd as int, quantity as int, q)
                &&& final(self).fills@[0].exchange_sequence == 1
                &&& final(self).buy.usd == o.buy.usd - req
                &&& final(self).buy.btc == o.buy.btc + quantity
                &&& final(self).buy.reserved_usd == o.buy.reserved_usd - req
                &&& final(self).sell == o.sell
                &&& final(self).state == Some(if quantity == q { ExecutionState::Leg1Filled } else { ExecutionState::Leg1Partial })
                &&& final(self).transitions@.len() == o.transitions@.len() + 1
                &&& destinos(final(self).transitions@) == destinos(o.transitions@).push(
                    if quantity == q { ExecutionState::Leg1Filled } else { ExecutionState::Leg1Partial })
                &&& final(self).ledger@.len() == o.ledger@.len() + 1
                &&& clases(final(self).ledger@) == clases(o.ledger@).push(LedgerEntryKind::Fill)
                &&& asientos(final(self).ledger@) == asientos(o.ledger@).push(asiento_de_fill(final(self).fills@[0]))
                &&& final(self).reservation_created == o.reservation_created
                &&& final(self).reservations_released == o.reservations_released
                &&& final(self).reservation_retries_ignored == o.reservation_retries_ignored
                &&& final(self).duplicates_ignored == o.duplicates_ignored
                &&& final(self).out_of_order_ignored == o.out_of_order_ignored
                &&& final(self).selected_recovery == o.selected_recovery
                &&& final(self).residual_before_recovery_btc == o.residual_before_recovery_btc
                &&& final(self).restart_performed == o.restart_performed
                &&& final(self).retry_performed == o.retry_performed
                &&& final(self).state_rehydrated == o.state_rehydrated
            },
    {
        let ghost o = *old(self);
        proof {
            lema_fee_prorrateado(self.request.costs.leg1_fee_usd as int, quantity as int, self.request.quantity_btc as int, self.request.prices.leg1_buy_price_usd as int);
        }
        let fee = prorated_fee(self.request.costs.leg1_fee_usd, quantity, self.request.quantity_btc);
        let fill = self.make_fill(
            "-leg1-fill",
            self.last_exchange_sequence + 1,
            ExecutionLeg::Leg1,
            Lado::Compra,
            OrderSide::Buy,
            quantity,
            self.request.prices.leg1_buy_price_usd,
            fee,
        );
        let copia = fill.copia();
        proof {
            lema_producto_acotado(quantity as int, self.request.prices.leg1_buy_price_usd as int);
            assert(quantity * self.request.prices.leg1_buy_price_usd <= self.request.quantity_btc * self.request.prices.leg1_buy_price_usd) by (nonlinear_arith)
                requires
                    0 <= quantity <= self.request.quantity_btc,
                    0 <= self.request.prices.leg1_buy_price_usd,
            ;
        }
        proof {
            assert(!id_visto(self.fills@, copia.fill_id@));
            assert(quantity * self.request.prices.leg1_buy_price_usd + fee <= reserva_usd(self.request));
        }
        let accepted = self.apply_fill(copia, Lado::Compra, ReservationUse::Usd)?;
        if !accepted {
            return Err(ExecutionError::Internal { message: String::from_str("fill válido de primera pierna fue ignorado") });
        }
        proof {
            assert(self.fills@ == seq![fill_con_consumo(fill, quantity * o.request.prices.leg1_buy_price_usd + fee)]);
            assert(self.fills@[0].fill_id@ == fill.fill_id@);
        }
        let next = if quantity == self.request.quantity_btc {
            ExecutionState::Leg1Filled
        } else {
            ExecutionState::Leg1Partial
        };
        let t = self.transition(next, "fill de primera pierna aplicado exactamente una vez");
        match t {
            Ok(()) => Ok(fill),
            Err(e) => Err(e),
        }
    }
}


impl Simulator {
    /// Solicitud y contadores de eventos sin cambios.
    spec fn mismos_contadores(&self, o: &Simulator) -> bool {
        &&& self.request == o.request
        &&& self.reservation_created == o.reservation_created
        &&& self.reservations_released == o.reservations_released
        &&& self.reservation_retries_ignored == o.reservation_retries_ignored
        &&& self.duplicates_ignored == o.duplicates_ignored
        &&& self.out_of_order_ignored == o.out_of_order_ignored
        &&& self.selected_recovery == o.selected_recovery
        &&& self.residual_before_recovery_btc == o.residual_before_recovery_btc
        &&& self.restart_performed == o.restart_performed
        &&& self.retry_performed == o.retry_performed
        &&& self.state_rehydrated == o.state_rehydrated
    }

    /// Envía la primera pierna y aplica su fill.
    fn fill_leg1(&mut self, quantity: i128) -> (r: Result<ExecutionFill, ExecutionError>)
        requires
            old(self).inv(),
            old(self).state == Some(ExecutionState::Reserved),
            old(self).fills@.len() == 0,
            old(self).ledger@.len() <= 6,
            old(self).transitions@.len() < 15,
            old(self).duplicates_ignored < 4,
            old(self).out_of_order_ignored < 4,
            0 <= quantity <= old(self).request.quantity_btc,
            old(self).buy.reserved_usd == reserva_usd(old(self).request),
            old(self).buy.reserved_usd <= old(self).buy.usd,
        ensures
            quantity == 0 ==> r is Err && r->Err_0 is InvalidRequest,
            quantity > 0 ==> {
                let o = old(self);
                let q = o.request.quantity_btc as int;
                let p1 = o.request.prices.leg1_buy_price_usd as int;
                let req = quantity * p1 + fee_prorrateado(o.request.costs.leg1_fee_usd as int, quantity as int, q);
                &&& r is Ok
                &&& final(self).inv()
                &&& final(self).mismos_contadores(o)
                &&& final(self).fills@.len() == 1
                &&& fill_con_consumo(r->Ok_0, req) == final(self).fills@[0]
                &&& r->Ok_0.reservation_consumed_usd == 0
                &&& r->Ok_0.venue@ == o.request.buy_wallet.venue@
                &&& final(self).fills@[0].fill_id@ == id_de_fill(o.request, "-leg1-fill"@)
                &&& huella_fill(final(self).fills@[0]) == (id_de_fill(o.request, "-leg1-fill"@),
                    o.request.buy_wallet.venue@, req, 0int)
                &&& final(self).fills@[0].side == OrderSide::Buy
                &&& final(self).fills@[0].quantity_btc == quantity
                &&& final(self).fills@[0].leg == ExecutionLeg::Leg1
                &&& final(self).fills@[0].price_usd == p1
                &&& final(self).fills@[0].fee_usd == fee_prorrateado(o.request.costs.leg1_fee_usd as int, quantity as int, q)
                &&& final(self).buy.usd == o.buy.usd - req
                &&& final(self).buy.btc == o.buy.btc + quantity
                &&& final(self).buy.reserved_usd == o.buy.reserved_usd - req
                &&& final(self).sell == o.sell
                &&& final(self).state == Some(if quantity == q { ExecutionState::Leg1Filled } else { ExecutionState::Leg1Partial })
                &&& final(self).transitions@.len() == o.transitions@.len() + 2
                &&& destinos(final(self).transitions@) == destinos(o.transitions@).push(ExecutionState::Leg1Submitted).push(
                    if quantity == q { ExecutionState::Leg1Filled } else { ExecutionState::Leg1Partial })
                &&& final(self).ledger@.len() == o.ledger@.len() + 1
                &&& clases(final(self).ledger@) == clases(o.ledger@).push(LedgerEntryKind::Fill)
                &&& asientos(final(self).ledger@) == asientos(o.ledger@).push(asiento_de_fill(final(self).fills@[0]))
            },
    {
        self.transition(ExecutionState::Leg1Submitted, "primera pierna enviada")?;
        self.complete_leg1(quantity)
    }
}

proof fn lema_ids_de_piernas(r: ExecutionRequest)
    ensures
        id_de_fill(r, "-leg1-fill"@) != id_de_fill(r, "-leg2-fill"@),
        id_de_fill(r, "-leg1-fill"@) != id_de_fill(r, "-rehedge-fill"@),
        id_de_fill(r, "-leg1-fill"@) != id_de_fill(r, "-unwind-fill"@),
        id_de_fill(r, "-leg2-fill"@) != id_de_fill(r, "-rehedge-fill"@),
        id_de_fill(r, "-leg2-fill"@) != id_de_fill(r, "-unwind-fill"@),
{
    reveal_strlit("-leg1-fill");
    reveal_strlit("-leg2-fill");
    reveal_strlit("-rehedge-fill");
    reveal_strlit("-unwind-fill");
    assert("-leg1-fill"@[4] != "-leg2-fill"@[4]);
    assert("-leg1-fill"@[1] != "-rehedge-fill"@[1]);
    assert("-leg1-fill"@[1] != "-unwind-fill"@[1]);
    assert("-leg2-fill"@[1] != "-rehedge-fill"@[1]);
    assert("-leg2-fill"@[1] != "-unwind-fill"@[1]);
    lema_sufijos_distintos(r.execution_id@, "-leg1-fill"@, "-leg2-fill"@);
    lema_sufijos_distintos(r.execution_id@, "-leg1-fill"@, "-rehedge-fill"@);
    lema_sufijos_distintos(r.execution_id@, "-leg1-fill"@, "-unwind-fill"@);
    lema_sufijos_distintos(r.execution_id@, "-leg2-fill"@, "-rehedge-fill"@);
    lema_sufijos_distintos(r.execution_id@, "-leg2-fill"@, "-unwind-fill"@);
}

impl Simulator {
    /// Envía la segunda pierna (venta) y aplica su fill.
    #[verifier::rlimit(60)]
    fn fill_leg2(&mut self, quantity: i128) -> (r: Result<ExecutionFill, ExecutionError>)
        requires
            old(self).inv(),
            old(self).state == Some(ExecutionState::Leg1Partial) || old(self).state == Some(ExecutionState::Leg1Filled),
            old(self).fills@.len() == 1,
            old(self).fills@[0].fill_id@ == id_de_fill(old(self).request, "-leg1-fill"@),
            old(self).ledger@.len() <= 6,
            old(self).transitions@.len() < 15,
            old(self).duplicates_ignored < 4,
            old(self).out_of_order_ignored < 4,
            0 <= quantity <= old(self).request.quantity_btc,
            old(self).sell.reserved_btc == old(self).request.quantity_btc,
        ensures
            quantity == 0 ==> r is Err && r->Err_0 is InvalidRequest,
            quantity > 0 ==> {
                let o = old(self);
                let q = o.request.quantity_btc as int;
                let p2 = o.request.prices.leg2_sell_price_usd as int;
                let f = fee_prorrateado(o.request.costs.leg2_fee_usd as int, quantity as int, q);
                &&& r is Ok
                &&& final(self).inv()
                &&& final(self).mismos_contadores(o)
                &&& final(self).fills@.len() == 2
                &&& final(self).fills@[0] == o.fills@[0]
                &&& final(self).fills@[1].fill_id@ == id_de_fill(o.request, "-leg2-fill"@)
                &&& huella_fill(final(self).fills@[1]) == (id_de_fill(o.request, "-leg2-fill"@),
                    o.request.sell_wallet.venue@, 0int, quantity as int)
                &&& final(self).fills@[1].side == OrderSide::Sell
                &&& final(self).fills@[1].leg == ExecutionLeg::Leg2
                &&& final(self).fills@[1].quantity_btc == quantity
                &&& final(self).fills@[1].price_usd == p2
                &&& final(self).fills@[1].fee_usd == f
                &&& final(self).sell.usd == o.sell.usd + quantity * p2 - f
                &&& final(self).sell.btc == o.sell.btc - quantity
                &&& final(self).sell.reserved_btc == o.sell.reserved_btc - quantity
                &&& final(self).buy == o.buy
                &&& final(self).state == Some(if quantity == q { ExecutionState::Leg2Filled } else { ExecutionState::Leg2Partial })
                &&& final(self).transitions@.len() == o.transitions@.len() + 2
                &&& destinos(final(self).transitions@) == destinos(o.transitions@).push(ExecutionState::Leg2Submitted).push(
                    if quantity == q { ExecutionState::Leg2Filled } else { ExecutionState::Leg2Partial })
                &&& final(self).ledger@.len() == o.ledger@.len() + 1
                &&& clases(final(self).ledger@) == clases(o.ledger@).push(LedgerEntryKind::Fill)
                &&& asientos(final(self).ledger@) == asientos(o.ledger@).push(asiento_de_fill(final(self).fills@[1]))
            },
    {
        let ghost o = *old(self);
        self.transition(ExecutionState::Leg2Submitted, "segunda pierna enviada")?;
        proof {
            lema_fee_prorrateado(self.request.costs.leg2_fee_usd as int, quantity as int, self.request.quantity_btc as int, self.request.prices.leg2_sell_price_usd as int);
        }
        let fee = prorated_fee(self.request.costs.leg2_fee_usd, quantity, self.request.quantity_btc);
        let fill = self.make_fill(
            "-leg2-fill",
            self.last_exchange_sequence + 1,
            ExecutionLeg::Leg2,
            Lado::Venta,
            OrderSide::Sell,
            quantity,
            self.request.prices.leg2_sell_price_usd,
            fee,
        );
        let copia = fill.copia();
        proof {
            lema_ids_de_piernas(self.request);
            assert(!id_visto(self.fills@, copia.fill_id@)) by {
                assert(self.fills@.len() == 1);
                assert(self.fills@[0].fill_id@ != copia.fill_id@);
            }
        }
        let accepted = self.apply_fill(copia, Lado::Venta, ReservationUse::Btc)?;
        if !accepted {
            return Err(ExecutionError::Internal { message: String::from_str("fill válido de segunda pierna fue ignorado") });
        }
        proof {
            assert(self.fills@ == o.fills@.push(fill_con_consumo(fill, quantity as int)));
            assert(self.fills@[1] == fill_con_consumo(fill, quantity as int));
            lema_producto_acotado(quantity as int, o.request.prices.leg2_sell_price_usd as int);
            assert(billetera_acotada(o.sell, 1));
        }
        let next = if quantity == self.request.quantity_btc {
            ExecutionState::Leg2Filled
        } else {
            ExecutionState::Leg2Partial
        };
        let t = self.transition(next, "fill de segunda pierna aplicado exactamente una vez");
        match t {
            Ok(()) => Ok(fill),
            Err(e) => Err(e),
        }
    }

    /// Envía la segunda pierna y registra su rechazo.
    fn reject_leg2(&mut self, detail: &str) -> (r: Result<(), ExecutionError>)
        requires
            old(self).inv(),
            old(self).state == Some(ExecutionState::Leg1Partial) || old(self).state == Some(ExecutionState::Leg1Filled),
            old(self).transitions@.len() < 15,
            detail@ == detalle_transicion(old(self).request.scenario, ExecutionState::Leg2Rejected),
        ensures
            r is Ok,
            final(self).state == Some(ExecutionState::Leg2Rejected),
            final(self).transitions@.len() == old(self).transitions@.len() + 2,
            destinos(final(self).transitions@) == destinos(old(self).transitions@).push(ExecutionState::Leg2Submitted).push(
                ExecutionState::Leg2Rejected),
            final(self).igual_salvo_estado(old(self)),
            final(self).inv(),
    {
        self.transition(ExecutionState::Leg2Submitted, "segunda pierna enviada")?;
        self.transition(ExecutionState::Leg2Rejected, detail)
    }
}


/// Valor absoluto.
pub open spec fn abs(x: int) -> int {
    if x < 0 {
        -x
    } else {
        x
    }
}

/// Precio de la acción de recuperación.
pub open spec fn precio_recuperacion(r: ExecutionRequest, a: RecoveryAction) -> int {
    match a {
        RecoveryAction::Rehedge => r.prices.rehedge_price_usd as int,
        RecoveryAction::Unwind => r.prices.unwind_price_usd as int,
    }
}

/// Costo fijo de la acción de recuperación.
pub open spec fn cargo_recuperacion(r: ExecutionRequest, a: RecoveryAction) -> int {
    match a {
        RecoveryAction::Rehedge => r.costs.rehedge_cost_usd as int,
        RecoveryAction::Unwind => r.costs.unwind_cost_usd as int,
    }
}

/// Una recuperación cierra un residuo largo vendiendo y uno corto comprando:
/// `Rehedge` opera en el venue de venta si es largo y en el de compra si es
/// corto consumiendo la reserva de ese venue; `Unwind` opera en el otro venue
/// sin reserva. Es factible si el saldo disponible la cubre.
pub open spec fn factible(
    r: ExecutionRequest,
    compra: WalletSnapshot,
    venta: WalletSnapshot,
    a: RecoveryAction,
    res: int,
) -> bool {
    let m = abs(res);
    if res > 0 {
        match a {
            RecoveryAction::Rehedge => venta.btc - venta.reserved_btc + venta.reserved_btc >= m,
            RecoveryAction::Unwind => compra.btc - compra.reserved_btc >= m,
        }
    } else {
        let req = m * precio_recuperacion(r, a) + cargo_recuperacion(r, a);
        match a {
            RecoveryAction::Rehedge => compra.usd - compra.reserved_usd + compra.reserved_usd >= req,
            RecoveryAction::Unwind => venta.usd - venta.reserved_usd >= req,
        }
    }
}

/// Impacto de caja all-in: vender produce costo negativo por los proceeds
/// netos; comprar cuesta el desembolso con fee.
pub open spec fn costo_recuperacion(r: ExecutionRequest, a: RecoveryAction, res: int) -> int {
    let m = abs(res);
    if res > 0 {
        -(m * precio_recuperacion(r, a) - cargo_recuperacion(r, a))
    } else {
        m * precio_recuperacion(r, a) + cargo_recuperacion(r, a)
    }
}

/// Recuperación factible de menor costo; en empate gana `Rehedge`.
pub open spec fn eleccion(
    r: ExecutionRequest,
    compra: WalletSnapshot,
    venta: WalletSnapshot,
    res: int,
) -> Option<RecoveryAction> {
    let fr = factible(r, compra, venta, RecoveryAction::Rehedge, res);
    let fu = factible(r, compra, venta, RecoveryAction::Unwind, res);
    if fr && fu {
        if costo_recuperacion(r, RecoveryAction::Rehedge, res) <= costo_recuperacion(
            r,
            RecoveryAction::Unwind,
            res,
        ) {
            Some(RecoveryAction::Rehedge)
        } else {
            Some(RecoveryAction::Unwind)
        }
    } else if fr {
        Some(RecoveryAction::Rehedge)
    } else if fu {
        Some(RecoveryAction::Unwind)
    } else {
        None
    }
}

/// Sufijo del identificador del fill de recuperación.
pub open spec fn sufijo_recuperacion(a: RecoveryAction) -> Seq<char> {
    match a {
        RecoveryAction::Rehedge => "-rehedge-fill"@,
        RecoveryAction::Unwind => "-unwind-fill"@,
    }
}

/// Venue del fill de recuperación: el rehedge opera en el venue de la pierna
/// que falta y el unwind deshace en el de la pierna llenada.
pub open spec fn venue_recuperacion(r: ExecutionRequest, a: RecoveryAction, res: int) -> Seq<char> {
    match a {
        RecoveryAction::Rehedge => if res > 0 { r.sell_wallet.venue@ } else { r.buy_wallet.venue@ },
        RecoveryAction::Unwind => if res > 0 { r.buy_wallet.venue@ } else { r.sell_wallet.venue@ },
    }
}

/// Reserva (USD, BTC) que consume el fill de recuperación: sólo el rehedge
/// usa la reserva del venue en que opera, hasta lo que el fill exige.
pub open spec fn consumo_recuperacion(r: ExecutionRequest, a: RecoveryAction, res: int, reservado_usd: int, reservado_btc: int) -> (int, int) {
    if a == RecoveryAction::Rehedge {
        if res > 0 {
            (0, if reservado_btc <= res { reservado_btc } else { res })
        } else {
            let req = abs(res) * precio_recuperacion(r, a) + cargo_recuperacion(r, a);
            (if reservado_usd <= req { reservado_usd } else { req }, 0)
        }
    } else {
        (0, 0)
    }
}

/// Identificador, venue y reserva consumida (USD, BTC) de un fill.
pub open spec fn huella_fill(f: ExecutionFill) -> (Seq<char>, Seq<char>, int, int) {
    (f.fill_id@, f.venue@, f.reservation_consumed_usd as int, f.reservation_consumed_btc as int)
}

/// Las huellas de los fills, en orden.
pub open spec fn huellas(fills: Seq<ExecutionFill>) -> Seq<(Seq<char>, Seq<char>, int, int)> {
    Seq::new(fills.len(), |i: int| huella_fill(fills[i]))
}

/// Huella del fill de recuperación de `res` con la acción `a`, dadas las
/// reservas USD del venue de compra y BTC del de venta antes de aplicarlo.
pub open spec fn huella_recuperacion(r: ExecutionRequest, a: RecoveryAction, res: int, reservado_usd: int, reservado_btc: int) -> (Seq<char>, Seq<char>, int, int) {
    let c = consumo_recuperacion(r, a, res, reservado_usd, reservado_btc);
    (id_de_fill(r, sufijo_recuperacion(a)), venue_recuperacion(r, a, res), c.0, c.1)
}

proof fn lema_residuo_take(f: Seq<ExecutionFill>, i: int)
    requires
        0 <= i < f.len(),
    ensures
        residuo(f.take(i + 1)) == residuo(f.take(i)) + match f[i].side {
            OrderSide::Buy => f[i].quantity_btc as int,
            OrderSide::Sell => -f[i].quantity_btc,
        },
{
    assert(f.take(i + 1).drop_last() =~= f.take(i));
}

impl Simulator {
    /// Exposición BTC neta de los fills aplicados.
    fn residual_btc(&self) -> (r: i128)
        requires
            self.inv(),
        ensures
            r == residuo(self.fills@),
    {
        let mut acc: i128 = 0;
        let mut i: usize = 0;
        while i < self.fills.len()
            invariant
                self.inv(),
                i <= self.fills@.len(),
                acc == residuo(self.fills@.take(i as int)),
                -(i as int) * LIMITE_CANTIDAD <= acc <= (i as int) * LIMITE_CANTIDAD,
            decreases self.fills@.len() - i,
        {
            proof {
                lema_residuo_take(self.fills@, i as int);
                assert(fill_acotado(self.fills@[i as int]));
            }
            let f = &self.fills[i];
            acc = match f.side {
                OrderSide::Buy => acc + f.quantity_btc,
                OrderSide::Sell => acc - f.quantity_btc,
            };
            i = i + 1;
        }
        proof {
            assert(self.fills@.take(self.fills@.len() as int) =~= self.fills@);
        }
        acc
    }

    /// Elige la recuperación factible de menor costo.
    fn select_recovery(&self, residual: i128) -> (r: Result<RecoveryAction, ExecutionError>)
        requires
            self.inv(),
            residual != 0,
            -LIMITE_CANTIDAD <= residual <= LIMITE_CANTIDAD,
        ensures
            match eleccion(self.request, self.buy, self.sell, residual as int) {
                Some(a) => r == Ok::<RecoveryAction, ExecutionError>(a),
                None => r is Err && r->Err_0 is NoFeasibleRecovery,
            },
    {
        let largo = residual > 0;
        let m: i128 = if largo { residual } else { -residual };
        let ph = self.request.prices.rehedge_price_usd;
        let pu = self.request.prices.unwind_price_usd;
        let ch = self.request.costs.rehedge_cost_usd;
        let cu = self.request.costs.unwind_cost_usd;
        proof {
            lema_producto_acotado(m as int, ph as int);
            lema_producto_acotado(m as int, pu as int);
        }
        let (fr, fu, cr, cw) = if largo {
            (
                self.sell.btc - self.sell.reserved_btc + self.sell.reserved_btc >= m,
                self.buy.btc - self.buy.reserved_btc >= m,
                -(m * ph - ch),
                -(m * pu - cu),
            )
        } else {
            (
                self.buy.usd - self.buy.reserved_usd + self.buy.reserved_usd >= m * ph + ch,
                self.sell.usd - self.sell.reserved_usd >= m * pu + cu,
                m * ph + ch,
                m * pu + cu,
            )
        };
        if fr && fu {
            if cr <= cw {
                Ok(RecoveryAction::Rehedge)
            } else {
                Ok(RecoveryAction::Unwind)
            }
        } else if fr {
            Ok(RecoveryAction::Rehedge)
        } else if fu {
            Ok(RecoveryAction::Unwind)
        } else {
            Err(ExecutionError::NoFeasibleRecovery { residual_btc: residual })
        }
    }
}


/// Cambio de saldos (USD y BTC de compra, USD y BTC de venta) que produce
/// la recuperación `a` de un residuo: vender el largo o comprar el corto al
/// precio y costo de la acción, en el venue que le corresponde.
pub open spec fn efecto_recuperacion(r: ExecutionRequest, a: RecoveryAction, res: int) -> (int, int, int, int) {
    let m = abs(res);
    let p = precio_recuperacion(r, a);
    let c = cargo_recuperacion(r, a);
    if res > 0 {
        match a {
            RecoveryAction::Rehedge => (0, 0, m * p - c, -m),
            RecoveryAction::Unwind => (m * p - c, -m, 0, 0),
        }
    } else {
        match a {
            RecoveryAction::Rehedge => (-(m * p + c), m, 0, 0),
            RecoveryAction::Unwind => (0, 0, -(m * p + c), m),
        }
    }
}

impl Simulator {
    /// Ejecuta la recuperación elegida por la cantidad residual.
    #[verifier::rlimit(80)]
    fn apply_recovery(&mut self, action: RecoveryAction, residual: i128) -> (r: Result<(), ExecutionError>)
        requires
            old(self).inv(),
            residual == residuo(old(self).fills@),
            residual != 0,
            -LIMITE_CANTIDAD <= residual <= LIMITE_CANTIDAD,
            factible(old(self).request, old(self).buy, old(self).sell, action, residual as int),
            old(self).buy.reserved_usd <= old(self).buy.usd,
            old(self).fills@.len() < 3,
            old(self).ledger@.len() < 8,
            old(self).duplicates_ignored < 4,
            old(self).out_of_order_ignored < 4,
            !id_visto(old(self).fills@, id_de_fill(old(self).request, sufijo_recuperacion(action))),
        ensures
            r is Ok,
            final(self).inv(),
            final(self).fills@.len() == old(self).fills@.len() + 1,
            final(self).fills@.drop_last() == old(self).fills@,
            final(self).fills@.last().side == (if residual > 0 { OrderSide::Sell } else { OrderSide::Buy }),
            final(self).fills@.last().quantity_btc == abs(residual as int),
            final(self).fills@.last().price_usd == precio_recuperacion(old(self).request, action),
            final(self).fills@.last().fee_usd == cargo_recuperacion(old(self).request, action),
            final(self).fills@.last().fill_id@ == id_de_fill(old(self).request, sufijo_recuperacion(action)),
            final(self).fills@.last().leg == ExecutionLeg::Recovery,
            huella_fill(final(self).fills@.last()) == huella_recuperacion(old(self).request, action, residual as int,
                old(self).buy.reserved_usd as int, old(self).sell.reserved_btc as int),
            final(self).buy.reserved_usd == old(self).buy.reserved_usd - consumo_recuperacion(old(self).request, action,
                residual as int, old(self).buy.reserved_usd as int, old(self).sell.reserved_btc as int).0,
            final(self).sell.reserved_btc == old(self).sell.reserved_btc - consumo_recuperacion(old(self).request, action,
                residual as int, old(self).buy.reserved_usd as int, old(self).sell.reserved_btc as int).1,
            residuo(final(self).fills@) == 0,
            final(self).mismos_contadores(old(self)),
            final(self).state == old(self).state,
            final(self).transitions == old(self).transitions,
            final(self).ledger@.len() == old(self).ledger@.len() + 1,
            clases(final(self).ledger@) == clases(old(self).ledger@).push(LedgerEntryKind::Fill),
            asientos(final(self).ledger@) == asientos(old(self).ledger@).push(asiento_de_fill(final(self).fills@.last())),
            ({
                let e = efecto_recuperacion(old(self).request, action, residual as int);
                &&& final(self).buy.usd == old(self).buy.usd + e.0
                &&& final(self).buy.btc == old(self).buy.btc + e.1
                &&& final(self).sell.usd == old(self).sell.usd + e.2
                &&& final(self).sell.btc == old(self).sell.btc + e.3
            }),
    {
        let ghost o = *old(self);
        let largo = residual > 0;
        let m: i128 = if largo { residual } else { -residual };
        let (lado, price, cost, uso) = match (action, largo) {
            (RecoveryAction::Rehedge, true) => (Lado::Venta, self.request.prices.rehedge_price_usd, self.request.costs.rehedge_cost_usd, ReservationUse::Btc),
            (RecoveryAction::Rehedge, false) => (Lado::Compra, self.request.prices.rehedge_price_usd, self.request.costs.rehedge_cost_usd, ReservationUse::Usd),
            (RecoveryAction::Unwind, true) => (Lado::Compra, self.request.prices.unwind_price_usd, self.request.costs.unwind_cost_usd, ReservationUse::Ninguna),
            (RecoveryAction::Unwind, false) => (Lado::Venta, self.request.prices.unwind_price_usd, self.request.costs.unwind_cost_usd, ReservationUse::Ninguna),
        };
        let side = if largo { OrderSide::Sell } else { OrderSide::Buy };
        let suffix = match action {
            RecoveryAction::Rehedge => "-rehedge-fill",
            RecoveryAction::Unwind => "-unwind-fill",
        };
        let fill = self.make_fill(suffix, self.last_exchange_sequence + 1, ExecutionLeg::Recovery, lado, side, m, price, cost);
        proof {
            lema_producto_acotado(m as int, price as int);
            let w = o.billetera(lado);
            assert(0 <= w.reserved_btc <= w.btc);
            assert(fill.fill_id@ == id_de_fill(o.request, sufijo_recuperacion(action)));
        }
        let ghost f0 = fill;
        let ok = self.apply_fill(fill, lado, uso)?;
        if !ok {
            return Err(ExecutionError::Internal { message: String::from_str("fill de recuperación fue ignorado") });
        }
        proof {
            let c = consumo_reserva(o.billetera(lado), side, m as int, price as int, cost as int, uso == ReservationUse::Usd, uso == ReservationUse::Btc);
            assert(self.fills@ == o.fills@.push(fill_con_consumo(f0, c)));
            assert(self.fills@.drop_last() =~= o.fills@);
            lema_residuo_push(o.fills@, fill_con_consumo(f0, c));
            assert(billetera_acotada(o.buy, o.fills@.len() as int));
            assert(billetera_acotada(o.sell, o.fills@.len() as int));
        }
        Ok(())
    }

    /// Si queda exposición residual, elige la recuperación de menor costo
    /// factible, la registra y la ejecuta.
    #[verifier::rlimit(60)]
    fn recover_with_detail(&mut self, detail: &str) -> (r: Result<(), ExecutionError>)
        requires
            old(self).inv(),
            transicion_permitida(old(self).state, ExecutionState::RecoverySelected),
            old(self).fills@.len() <= 2,
            old(self).ledger@.len() <= 7,
            old(self).transitions@.len() < 16,
            -LIMITE_CANTIDAD <= residuo(old(self).fills@) <= LIMITE_CANTIDAD,
            old(self).buy.reserved_usd <= old(self).buy.usd,
            old(self).duplicates_ignored < 4,
            old(self).out_of_order_ignored < 4,
            forall|i: int| 0 <= i < old(self).fills@.len() ==> (#[trigger] old(self).fills@[i].fill_id@ == id_de_fill(old(self).request, "-leg1-fill"@)
                || old(self).fills@[i].fill_id@ == id_de_fill(old(self).request, "-leg2-fill"@)),
            detail@ == detalle_transicion(old(self).request.scenario, ExecutionState::RecoverySelected),
        ensures
            residuo(old(self).fills@) == 0 ==> r is Ok && *final(self) == *old(self),
            residuo(old(self).fills@) != 0 ==> {
                let o = old(self);
                let res = residuo(o.fills@);
                match eleccion(o.request, o.buy, o.sell, res) {
                    None => r is Err && r->Err_0 is NoFeasibleRecovery,
                    Some(a) => {
                        &&& r is Ok
                        &&& final(self).inv()
                        &&& final(self).fills@.len() == o.fills@.len() + 1
                        &&& final(self).fills@.drop_last() == o.fills@
                        &&& final(self).fills@.last().side == (if res > 0 { OrderSide::Sell } else { OrderSide::Buy })
                        &&& final(self).fills@.last().quantity_btc == abs(res)
                        &&& final(self).fills@.last().price_usd == precio_recuperacion(o.request, a)
                        &&& final(self).fills@.last().fee_usd == cargo_recuperacion(o.request, a)
                        &&& final(self).fills@.last().leg == ExecutionLeg::Recovery
                        &&& huella_fill(final(self).fills@.last()) == huella_recuperacion(o.request, a, res,
                            o.buy.reserved_usd as int, o.sell.reserved_btc as int)
                        &&& final(self).buy.reserved_usd == o.buy.reserved_usd - consumo_recuperacion(o.request, a, res,
                            o.buy.reserved_usd as int, o.sell.reserved_btc as int).0
                        &&& final(self).sell.reserved_btc == o.sell.reserved_btc - consumo_recuperacion(o.request, a, res,
                            o.buy.reserved_usd as int, o.sell.reserved_btc as int).1
                        &&& residuo(final(self).fills@) == 0
                        &&& final(self).buy.usd == o.buy.usd + efecto_recuperacion(o.request, a, res).0
                        &&& final(self).buy.btc == o.buy.btc + efecto_recuperacion(o.request, a, res).1
                        &&& final(self).sell.usd == o.sell.usd + efecto_recuperacion(o.request, a, res).2
                        &&& final(self).sell.btc == o.sell.btc + efecto_recuperacion(o.request, a, res).3
                        &&& final(self).selected_recovery == Some(a)
                        &&& final(self).residual_before_recovery_btc == res
                        &&& final(self).state == Some(ExecutionState::RecoverySelected)
                        &&& final(self).transitions@.len() == o.transitions@.len() + 1
                        &&& destinos(final(self).transitions@) == destinos(o.transitions@).push(ExecutionState::RecoverySelected)
                        &&& final(self).ledger@.len() == o.ledger@.len() + 1
                        &&& clases(final(self).ledger@) == clases(o.ledger@).push(LedgerEntryKind::Fill)
                        &&& asientos(final(self).ledger@) == asientos(o.ledger@).push(asiento_de_fill(final(self).fills@.last()))
                        &&& final(self).request == o.request
                        &&& final(self).reservation_created == o.reservation_created
                        &&& final(self).reservations_released == o.reservations_released
                        &&& final(self).reservation_retries_ignored == o.reservation_retries_ignored
                        &&& final(self).duplicates_ignored == o.duplicates_ignored
                        &&& final(self).out_of_order_ignored == o.out_of_order_ignored
                        &&& final(self).restart_performed == o.restart_performed
                        &&& final(self).retry_performed == o.retry_performed
                        &&& final(self).state_rehydrated == o.state_rehydrated
                    },
                }
            },
    {
        let ghost o = *old(self);
        let residual = self.residual_btc();
        if residual == 0 {
            return Ok(());
        }
        self.residual_before_recovery_btc = residual;
        let action = self.select_recovery(residual)?;
        self.selected_recovery = Some(action);
        self.transition(ExecutionState::RecoverySelected, detail)?;
        proof {
            lema_ids_de_piernas(o.request);
            assert(!id_visto(self.fills@, id_de_fill(self.request, sufijo_recuperacion(action)))) by {
                if id_visto(self.fills@, id_de_fill(self.request, sufijo_recuperacion(action))) {
                    let i = choose|i: int| 0 <= i < self.fills@.len() && self.fills@[i].fill_id@ == id_de_fill(self.request, sufijo_recuperacion(action));
                    assert(o.fills@[i].fill_id@ == id_de_fill(o.request, "-leg1-fill"@)
                        || o.fills@[i].fill_id@ == id_de_fill(o.request, "-leg2-fill"@));
                }
            }
        }
        self.apply_recovery(action, residual)
    }
}


/// Deltas de una entrada en número y magnitud acotados.
pub open spec fn deltas_acotados(ds: Seq<WalletDelta>) -> bool {
    &&& ds.len() <= 2
    &&& forall|j: int|
        #![trigger ds[j]]
        0 <= j < ds.len() ==> {
            &&& -COTA_DELTA <= ds[j].usd <= COTA_DELTA
            &&& -COTA_DELTA <= ds[j].btc <= COTA_DELTA
            &&& -COTA_DELTA <= ds[j].reserved_usd <= COTA_DELTA
            &&& -COTA_DELTA <= ds[j].reserved_btc <= COTA_DELTA
        }
}

/// Ledger corto con deltas acotados.
pub open spec fn ledger_acotado(l: Seq<WalletLedgerEntry>) -> bool {
    &&& l.len() <= 8
    &&& forall|i: int| 0 <= i < l.len() ==> deltas_acotados(#[trigger] l[i].deltas@)
}

proof fn lema_usd_take(l: Seq<WalletLedgerEntry>, i: int)
    requires
        0 <= i < l.len(),
    ensures
        usd_ledger(l.take(i + 1)) == usd_ledger(l.take(i)) + usd_deltas(l[i].deltas@),
{
    assert(l.take(i + 1).drop_last() =~= l.take(i));
}

proof fn lema_suma_ledger_take(l: Seq<WalletLedgerEntry>, i: int, v: Seq<char>)
    requires
        0 <= i < l.len(),
    ensures
        suma_ledger(l.take(i + 1), v) == ({
            let p = suma_ledger(l.take(i), v);
            let q = suma_deltas(l[i].deltas@, v);
            (p.0 + q.0, p.1 + q.1, p.2 + q.2, p.3 + q.3)
        }),
{
    assert(l.take(i + 1).drop_last() =~= l.take(i));
}

proof fn lema_deltas_take(ds: Seq<WalletDelta>, j: int, v: Seq<char>)
    requires
        0 <= j < ds.len(),
    ensures
        usd_deltas(ds.take(j + 1)) == usd_deltas(ds.take(j)) + ds[j].usd,
        suma_deltas(ds.take(j + 1), v) == ({
            let p = suma_deltas(ds.take(j), v);
            if ds[j].venue@ == v {
                (p.0 + ds[j].usd, p.1 + ds[j].btc, p.2 + ds[j].reserved_usd, p.3 + ds[j].reserved_btc)
            } else {
                p
            }
        }),
{
    assert(ds.take(j + 1).drop_last() =~= ds.take(j));
}

/// Suma de todos los deltas USD del ledger.
fn pnl_del_ledger(ledger: &Vec<WalletLedgerEntry>) -> (r: i128)
    requires
        ledger_acotado(ledger@),
    ensures
        r == usd_ledger(ledger@),
{
    let mut total: i128 = 0;
    let mut i: usize = 0;
    while i < ledger.len()
        invariant
            ledger_acotado(ledger@),
            i <= ledger@.len(),
            total == usd_ledger(ledger@.take(i as int)),
            -2 * (i as int) * COTA_DELTA <= total <= 2 * (i as int) * COTA_DELTA,
        decreases ledger@.len() - i,
    {
        proof {
            lema_usd_take(ledger@, i as int);
            assert(deltas_acotados(ledger@[i as int].deltas@));
        }
        let ds = &ledger[i].deltas;
        let mut parcial: i128 = 0;
        let mut j: usize = 0;
        while j < ds.len()
            invariant
                deltas_acotados(ds@),
                j <= ds@.len(),
                parcial == usd_deltas(ds@.take(j as int)),
                -(j as int) * COTA_DELTA <= parcial <= (j as int) * COTA_DELTA,
            decreases ds@.len() - j,
        {
            proof {
                lema_deltas_take(ds@, j as int, Seq::empty());
            }
            parcial = parcial + ds[j].usd;
            j = j + 1;
        }
        proof {
            assert(ds@.take(ds@.len() as int) =~= ds@);
        }
        total = total + parcial;
        i = i + 1;
    }
    proof {
        assert(ledger@.take(ledger@.len() as int) =~= ledger@);
    }
    total
}

/// Los identificadores de fill son distintos dos a dos.
fn fills_distintos(fills: &Vec<ExecutionFill>) -> (r: bool)
    ensures
        r == ids_unicos(fills@),
{
    let mut i: usize = 0;
    while i < fills.len()
        invariant
            i <= fills@.len(),
            forall|a: int, b: int| 0 <= a < b < fills@.len() && a < i ==> fills@[a].fill_id@ != fills@[b].fill_id@,
        decreases fills@.len() - i,
    {
        let mut j: usize = i + 1;
        while j < fills.len()
            invariant
                i < fills@.len(),
                i + 1 <= j <= fills@.len(),
                forall|a: int, b: int| 0 <= a < b < fills@.len() && a < i ==> fills@[a].fill_id@ != fills@[b].fill_id@,
                forall|b: int| i < b < j ==> fills@[i as int].fill_id@ != #[trigger] fills@[b].fill_id@,
            decreases fills@.len() - j,
        {
            if iguales(fills[i].fill_id.as_str(), fills[j].fill_id.as_str()) {
                return false;
            }
            j = j + 1;
        }
        i = i + 1;
    }
    true
}

/// Cada fill lleva la secuencia de exchange de su posición.
fn secuencias_en_orden(fills: &Vec<ExecutionFill>) -> (r: bool)
    ensures
        r == secuencias_consecutivas(fills@),
{
    let mut i: usize = 0;
    while i < fills.len()
        invariant
            i <= fills@.len(),
            forall|k: int| 0 <= k < i ==> #[trigger] fills@[k].exchange_sequence == k + 1,
        decreases fills@.len() - i,
    {
        if i as u64 >= u64::MAX || fills[i].exchange_sequence != i as u64 + 1 {
            return false;
        }
        i = i + 1;
    }
    true
}


/// Todo delta del ledger pertenece a uno de los dos venues.
pub open spec fn venues_conocidos(l: Seq<WalletLedgerEntry>, b: Seq<char>, s: Seq<char>) -> bool {
    forall|i: int, j: int|
        0 <= i < l.len() && 0 <= j < l[i].deltas@.len() ==> (#[trigger] l[i].deltas@[j]).venue@ == b
            || l[i].deltas@[j].venue@ == s
}

/// Cada campo de `w` dista a lo sumo `k` deltas de `antes`.
spec fn cerca(w: WalletSnapshot, antes: WalletSnapshot, k: int) -> bool {
    &&& -k * COTA_DELTA <= w.usd - antes.usd <= k * COTA_DELTA
    &&& -k * COTA_DELTA <= w.btc - antes.btc <= k * COTA_DELTA
    &&& -k * COTA_DELTA <= w.reserved_usd - antes.reserved_usd <= k * COTA_DELTA
    &&& -k * COTA_DELTA <= w.reserved_btc - antes.reserved_btc <= k * COTA_DELTA
}

/// Snapshot con campos de magnitud acotada.
pub open spec fn snapshot_acotado(w: WalletSnapshot) -> bool {
    &&& -LIMITE_SALDO_USD <= w.usd <= LIMITE_SALDO_USD
    &&& -LIMITE_SALDO_USD <= w.btc <= LIMITE_SALDO_USD
    &&& -LIMITE_SALDO_USD <= w.reserved_usd <= LIMITE_SALDO_USD
    &&& -LIMITE_SALDO_USD <= w.reserved_btc <= LIMITE_SALDO_USD
}

fn sumar_delta(w: &mut WalletSnapshot, d: &WalletDelta)
    requires
        -COTA_DELTA <= d.usd <= COTA_DELTA,
        -COTA_DELTA <= d.btc <= COTA_DELTA,
        -COTA_DELTA <= d.reserved_usd <= COTA_DELTA,
        -COTA_DELTA <= d.reserved_btc <= COTA_DELTA,
        -2 * LIMITE_SALDO_USD <= old(w).usd <= 2 * LIMITE_SALDO_USD,
        -2 * LIMITE_SALDO_USD <= old(w).btc <= 2 * LIMITE_SALDO_USD,
        -2 * LIMITE_SALDO_USD <= old(w).reserved_usd <= 2 * LIMITE_SALDO_USD,
        -2 * LIMITE_SALDO_USD <= old(w).reserved_btc <= 2 * LIMITE_SALDO_USD,
    ensures
        final(w).venue == old(w).venue,
        final(w).usd == old(w).usd + d.usd,
        final(w).btc == old(w).btc + d.btc,
        final(w).reserved_usd == old(w).reserved_usd + d.reserved_usd,
        final(w).reserved_btc == old(w).reserved_btc + d.reserved_btc,
{
    w.usd = w.usd + d.usd;
    w.btc = w.btc + d.btc;
    w.reserved_usd = w.reserved_usd + d.reserved_usd;
    w.reserved_btc = w.reserved_btc + d.reserved_btc;
}

/// Reaplica el ledger sobre los snapshots iniciales de ambos venues.
#[verifier::rlimit(40)]
fn replay_ledger(
    before_buy: &WalletSnapshot,
    before_sell: &WalletSnapshot,
    ledger: &Vec<WalletLedgerEntry>,
) -> (r: Result<(WalletSnapshot, WalletSnapshot), ExecutionError>)
    requires
        ledger_acotado(ledger@),
        before_buy.venue@ != before_sell.venue@,
        snapshot_acotado(*before_buy),
        snapshot_acotado(*before_sell),
    ensures
        r is Ok <==> venues_conocidos(ledger@, before_buy.venue@, before_sell.venue@),
        r is Ok ==> refleja(r->Ok_0.0, *before_buy, suma_ledger(ledger@, before_buy.venue@))
            && refleja(r->Ok_0.1, *before_sell, suma_ledger(ledger@, before_sell.venue@)),
        r is Err ==> r->Err_0 is Internal,
{
    let ghost b = before_buy.venue@;
    let ghost s = before_sell.venue@;
    let mut rb = before_buy.copia();
    let mut rs = before_sell.copia();
    let mut i: usize = 0;
    while i < ledger.len()
        invariant
            ledger_acotado(ledger@),
            b == before_buy.venue@,
            s == before_sell.venue@,
            b != s,
            snapshot_acotado(*before_buy),
            snapshot_acotado(*before_sell),
            i <= ledger@.len(),
            refleja(rb, *before_buy, suma_ledger(ledger@.take(i as int), b)),
            refleja(rs, *before_sell, suma_ledger(ledger@.take(i as int), s)),
            cerca(rb, *before_buy, 2 * i as int),
            cerca(rs, *before_sell, 2 * i as int),
            venues_conocidos(ledger@.take(i as int), b, s),
        decreases ledger@.len() - i,
    {
        proof {
            lema_suma_ledger_take(ledger@, i as int, b);
            lema_suma_ledger_take(ledger@, i as int, s);
            assert(deltas_acotados(ledger@[i as int].deltas@));
        }
        let ds = &ledger[i].deltas;
        let ghost rb0 = rb;
        let ghost rs0 = rs;
        let mut j: usize = 0;
        while j < ds.len()
            invariant
                deltas_acotados(ds@),
                i < ledger@.len(),
                ds@ == ledger@[i as int].deltas@,
                b == before_buy.venue@,
                s == before_sell.venue@,
                rb.venue == before_buy.venue,
                rs.venue == before_sell.venue,
                b != s,
                i < 8,
                snapshot_acotado(*before_buy),
                snapshot_acotado(*before_sell),
                cerca(rb0, *before_buy, 2 * i as int),
                cerca(rs0, *before_sell, 2 * i as int),
                j <= ds@.len(),
                refleja(rb, rb0, suma_deltas(ds@.take(j as int), b)),
                refleja(rs, rs0, suma_deltas(ds@.take(j as int), s)),
                cerca(rb, *before_buy, 2 * i + j),
                cerca(rs, *before_sell, 2 * i + j),
                forall|k: int| 0 <= k < j ==> (#[trigger] ds@[k]).venue@ == b || ds@[k].venue@ == s,
            decreases ds@.len() - j,
        {
            proof {
                lema_deltas_take(ds@, j as int, b);
                lema_deltas_take(ds@, j as int, s);
            }
            let d = &ds[j];
            if iguales(d.venue.as_str(), rb.venue.as_str()) {
                sumar_delta(&mut rb, d);
            } else if iguales(d.venue.as_str(), rs.venue.as_str()) {
                sumar_delta(&mut rs, d);
            } else {
                proof {
                    assert(ledger@[i as int].deltas@[j as int] == ds@[j as int]);
                }
                return Err(ExecutionError::Internal { message: String::from_str("delta para wallet inexistente") });
            }
            j = j + 1;
        }
        proof {
            assert(ds@.take(ds@.len() as int) =~= ds@);
            assert forall|a: int, c: int| 0 <= a < i + 1 && 0 <= c < ledger@.take(i + 1)[a].deltas@.len() implies (#[trigger] ledger@.take(i + 1)[a].deltas@[c]).venue@ == b
                || ledger@.take(i + 1)[a].deltas@[c].venue@ == s by {
                if a < i {
                    assert(ledger@.take(i as int)[a] == ledger@.take(i + 1)[a]);
                } else {
                    assert(ledger@.take(i + 1)[a] == ledger@[i as int]);
                    assert(ds@[c] == ledger@[i as int].deltas@[c]);
                }
            }
        }
        i = i + 1;
    }
    proof {
        assert(ledger@.take(ledger@.len() as int) =~= ledger@);
    }
    Ok((rb, rs))
}


/// Snapshots ordenados por nombre de venue.
pub open spec fn ordenadas(a: WalletSnapshot, b: WalletSnapshot) -> Seq<WalletSnapshot> {
    if crate::texto::texto_menor(a.venue@, b.venue@) {
        seq![a, b]
    } else {
        seq![b, a]
    }
}

fn ordenar(a: &WalletSnapshot, b: &WalletSnapshot) -> (v: Vec<WalletSnapshot>)
    ensures
        v@ == ordenadas(*a, *b),
{
    let mut v: Vec<WalletSnapshot> = Vec::new();
    if es_menor(a.venue.as_str(), b.venue.as_str()) {
        v.push(a.copia());
        v.push(b.copia());
    } else {
        v.push(b.copia());
        v.push(a.copia());
    }
    v
}

proof fn lema_ledger_acotado(l: Seq<WalletLedgerEntry>, b: Seq<char>, s: Seq<char>)
    requires
        ledger_en_venues(l, b, s),
        l.len() <= 8,
    ensures
        ledger_acotado(l),
        venues_conocidos(l, b, s),
{
    assert forall|i: int| 0 <= i < l.len() implies deltas_acotados(#[trigger] l[i].deltas@) by {
        assert(deltas_en_venues(l[i].deltas@, b, s));
    }
    assert forall|i: int, j: int| 0 <= i < l.len() && 0 <= j < l[i].deltas@.len() implies (#[trigger] l[i].deltas@[j]).venue@ == b
        || l[i].deltas@[j].venue@ == s by {
        assert(deltas_en_venues(l[i].deltas@, b, s));
    }
}

impl Simulator {
    /// Libera en un único batch las reservas remanentes de ambos venues.
    fn release_reservations(&mut self) -> (r: Result<(), ExecutionError>)
        requires
            old(self).inv(),
            old(self).ledger@.len() < 8,
        ensures
            r is Ok,
            final(self).inv(),
            final(self).reservations_released,
            final(self).buy.reserved_usd == 0,
            final(self).sell.reserved_btc == 0,
            final(self).buy == (WalletSnapshot { venue: old(self).buy.venue, usd: old(self).buy.usd, btc: old(self).buy.btc, reserved_usd: 0, reserved_btc: 0 }),
            final(self).sell == (WalletSnapshot { venue: old(self).sell.venue, usd: old(self).sell.usd, btc: old(self).sell.btc, reserved_usd: 0, reserved_btc: 0 }),
            final(self).buy.usd == old(self).buy.usd,
            final(self).buy.btc == old(self).buy.btc,
            final(self).sell.usd == old(self).sell.usd,
            final(self).sell.btc == old(self).sell.btc,
            final(self).fills == old(self).fills,
            final(self).state == old(self).state,
            final(self).transitions == old(self).transitions,
            final(self).ledger@.len() == old(self).ledger@.len() + (if old(self).reservations_released { 0int } else { 1int }),
            clases(final(self).ledger@) == (if old(self).reservations_released {
                clases(old(self).ledger@)
            } else {
                clases(old(self).ledger@).push(LedgerEntryKind::ReservationRelease)
            }),
            asientos(final(self).ledger@) == (if old(self).reservations_released {
                asientos(old(self).ledger@)
            } else {
                asientos(old(self).ledger@).push(asiento_liberacion(old(self).request,
                    old(self).buy.reserved_usd as int, old(self).sell.reserved_btc as int))
            }),
            final(self).request == old(self).request,
            final(self).reservation_created == old(self).reservation_created,
            final(self).reservation_retries_ignored == old(self).reservation_retries_ignored,
            final(self).duplicates_ignored == old(self).duplicates_ignored,
            final(self).out_of_order_ignored == old(self).out_of_order_ignored,
            final(self).selected_recovery == old(self).selected_recovery,
            final(self).residual_before_recovery_btc == old(self).residual_before_recovery_btc,
            final(self).restart_performed == old(self).restart_performed,
            final(self).retry_performed == old(self).retry_performed,
            final(self).state_rehydrated == old(self).state_rehydrated,
    {
        if self.reservations_released {
            return Ok(());
        }
        let ghost o = *old(self);
        let buy_usd = self.buy.reserved_usd;
        let buy_btc = self.buy.reserved_btc;
        let sell_usd = self.sell.reserved_usd;
        let sell_btc = self.sell.reserved_btc;
        self.buy.reserved_usd = 0;
        self.buy.reserved_btc = 0;
        self.sell.reserved_usd = 0;
        self.sell.reserved_btc = 0;
        let mut deltas: Vec<WalletDelta> = Vec::new();
        deltas.push(wallet_delta(&self.request.buy_wallet.venue, 0, 0, -buy_usd, -buy_btc));
        deltas.push(wallet_delta(&self.request.sell_wallet.venue, 0, 0, -sell_usd, -sell_btc));
        let reference = copiar(&self.request.execution_id);
        proof {
            assert(vista_deltas(deltas@) =~= seq![(self.request.buy_wallet.venue@, 0int, 0int, -buy_usd as int, 0int),
                (self.request.sell_wallet.venue@, 0int, 0int, 0int, -sell_btc as int)]);
        }
        self.append_ledger(
            LedgerEntryKind::ReservationRelease,
            reference,
            deltas,
            "reservas remanentes liberadas en un único batch",
        );
        self.reservations_released = true;
        self.reservation_release_count = self.reservation_release_count + 1;
        proof {
            let b = o.venue_compra();
            let s = o.venue_venta();
            let e = self.ledger@.last();
            assert(self.ledger@ == o.ledger@.push(e));
            assert(e.deltas@ =~= seq![e.deltas@[0], e.deltas@[1]]);
            lema_deltas_dos(e.deltas@[0], e.deltas@[1], b);
            lema_deltas_dos(e.deltas@[0], e.deltas@[1], s);
            lema_suma_ledger_push(o.ledger@, e, b);
            lema_suma_ledger_push(o.ledger@, e, s);
            assert(o.buy.reserved_btc <= o.buy.btc);
            assert(deltas_en_venues(e.deltas@, b, s)) by {
                assert forall|j: int| 0 <= j < e.deltas@.len() implies (e.deltas@[j].venue@ == b || e.deltas@[j].venue@ == s) by {
                    assert(j == 0 || j == 1);
                }
            }
            assert forall|i: int| 0 <= i < self.ledger@.len() implies deltas_en_venues(#[trigger] self.ledger@[i].deltas@, b, s) by {
                if i < self.ledger@.len() - 1 {
                    assert(self.ledger@[i] == o.ledger@[i]);
                    assert(ledger_en_venues(o.ledger@, b, s));
                    assert(deltas_en_venues(o.ledger@[i].deltas@, b, s));
                } else {
                    assert(self.ledger@[i] == e);
                }
            }
            assert forall|i: int| 0 <= i < self.ledger@.len() implies #[trigger] self.ledger@[i].sequence == i + 1 by {
                if i < self.ledger@.len() - 1 {
                    assert(self.ledger@[i] == o.ledger@[i]);
                }
            }
        }
        Ok(())
    }
}


/// Balances no negativos y reservas dentro del total, en ambos snapshots.
pub open spec fn sin_negativos(a: WalletSnapshot, b: WalletSnapshot) -> bool {
    billetera_sana(a) && billetera_sana(b)
}

fn snapshot_sano(w: &WalletSnapshot) -> (r: bool)
    ensures
        r == billetera_sana(*w),
{
    w.usd >= 0 && w.btc >= 0 && w.reserved_usd >= 0 && w.reserved_btc >= 0 && w.reserved_usd
        <= w.usd && w.reserved_btc <= w.btc
}

impl Simulator {
    /// Reporte con la evidencia y las invariantes recalculadas desde el
    /// ledger, los fills y los snapshots.
    #[verifier::rlimit(60)]
    fn into_report(self) -> (r: Result<ExecutionReport, ExecutionError>)
        requires
            self.inv(),
            self.state is Some,
        ensures
            r is Ok,
            ({
                let rep = r->Ok_0;
                let res = residuo(self.fills@);
                let inv = rep.invariants;
                &&& rep.execution_id == self.request.execution_id
                &&& rep.scenario == self.request.scenario
                &&& rep.state == self.state->0
                &&& rep.wallets_before@ == ordenadas(self.buy_before, self.sell_before)
                &&& rep.wallets_after@ == ordenadas(self.buy, self.sell)
                &&& rep.fills == self.fills
                &&& rep.ledger == self.ledger
                &&& rep.transitions == self.transitions
                &&& rep.pnl_usd == (self.buy.usd + self.sell.usd) - (self.buy_before.usd + self.sell_before.usd)
                &&& rep.ledger_pnl_usd == rep.pnl_usd
                &&& rep.residual_before_recovery_btc == self.residual_before_recovery_btc
                &&& rep.residual_btc == res
                &&& rep.selected_recovery == self.selected_recovery
                &&& rep.duplicates_ignored == self.duplicates_ignored
                &&& rep.out_of_order_ignored == self.out_of_order_ignored
                &&& rep.reservation_release_count == self.reservation_release_count
                &&& rep.reservation_retries_ignored == self.reservation_retries_ignored
                &&& rep.restart_performed == self.restart_performed
                &&& rep.retry_performed == self.retry_performed
                &&& rep.state_rehydrated == self.state_rehydrated
                &&& inv.terminal_reconciled == (self.state == Some(ExecutionState::Reconciled))
                &&& inv.residual_within_tolerance == (res == 0)
                &&& inv.btc_conserved == (res == 0)
                &&& inv.wallet_equation
                &&& inv.ledger_reconciled
                &&& inv.pnl_matches_ledger
                &&& inv.fills_unique
                &&& inv.fill_sequences_monotonic
                &&& inv.reservations_released_once == self.reservations_released
                &&& inv.no_negative_balances == sin_negativos(self.buy, self.sell)
                &&& inv.all_passed == (inv.terminal_reconciled && res == 0 && self.reservations_released && inv.no_negative_balances)
            }),
    {
        let state = match self.state {
            Some(s) => s,
            None => {
                return Err(ExecutionError::Internal { message: String::from_str("ejecución sin estado terminal") });
            },
        };
        let wallets_before = ordenar(&self.buy_before, &self.sell_before);
        let wallets_after = ordenar(&self.buy, &self.sell);
        let residual_btc = self.residual_btc();
        let before_usd = self.buy_before.usd + self.sell_before.usd;
        let after_usd = self.buy.usd + self.sell.usd;
        let before_btc = self.buy_before.btc + self.sell_before.btc;
        let after_btc = self.buy.btc + self.sell.btc;
        let pnl_usd = after_usd - before_usd;
        proof {
            lema_ledger_acotado(self.ledger@, self.venue_compra(), self.venue_venta());
        }
        let ledger_pnl_usd = pnl_del_ledger(&self.ledger);
        let (rb, rs) = replay_ledger(&self.buy_before, &self.sell_before, &self.ledger)?;
        let fills_unique = fills_distintos(&self.fills);
        let fill_sequences_monotonic = secuencias_en_orden(&self.fills);
        let terminal_reconciled = match state {
            ExecutionState::Reconciled => true,
            _ => false,
        };
        let residual_within_tolerance = residual_btc == 0;
        let btc_conserved = before_btc == after_btc;
        let wallet_equation = before_usd + pnl_usd == after_usd && before_btc + residual_btc
            == after_btc;
        let ledger_reconciled = rb.usd == self.buy.usd && rb.btc == self.buy.btc && rb.reserved_usd
            == self.buy.reserved_usd && rb.reserved_btc == self.buy.reserved_btc && rs.usd
            == self.sell.usd && rs.btc == self.sell.btc && rs.reserved_usd == self.sell.reserved_usd
            && rs.reserved_btc == self.sell.reserved_btc;
        let pnl_matches_ledger = pnl_usd == ledger_pnl_usd;
        let reservations_released_once = self.reservation_release_count == 1 && self.buy.reserved_usd
            == 0 && self.buy.reserved_btc == 0 && self.sell.reserved_usd == 0
            && self.sell.reserved_btc == 0;
        let no_negative_balances = snapshot_sano(&self.buy) && snapshot_sano(&self.sell);
        let all_passed = terminal_reconciled && residual_within_tolerance && btc_conserved
            && wallet_equation && ledger_reconciled && pnl_matches_ledger && fills_unique
            && fill_sequences_monotonic && reservations_released_once && no_negative_balances;
        Ok(ExecutionReport {
            execution_id: self.request.execution_id,
            scenario: self.request.scenario,
            state,
            wallets_before,
            wallets_after,
            fills: self.fills,
            ledger: self.ledger,
            transitions: self.transitions,
            pnl_usd,
            ledger_pnl_usd,
            residual_before_recovery_btc: self.residual_before_recovery_btc,
            residual_btc,
            selected_recovery: self.selected_recovery,
            invariants: ExecutionInvariants {
                terminal_reconciled,
                residual_within_tolerance,
                btc_conserved,
                wallet_equation,
                ledger_reconciled,
                pnl_matches_ledger,
                fills_unique,
                fill_sequences_monotonic,
                reservations_released_once,
                no_negative_balances,
                all_passed,
            },
            duplicates_ignored: self.duplicates_ignored,
            out_of_order_ignored: self.out_of_order_ignored,
            reservation_release_count: self.reservation_release_count,
            reservation_retries_ignored: self.reservation_retries_ignored,
            restart_performed: self.restart_performed,
            retry_performed: self.retry_performed,
            state_rehydrated: self.state_rehydrated,
        })
    }
}


impl Simulator {
    /// Concilia: exige exposición nula, libera reservas, cierra la máquina de
    /// estados y emite el reporte.
    #[verifier::rlimit(40)]
    fn reconcile(self) -> (r: Result<ExecutionReport, ExecutionError>)
        requires
            self.inv(),
            self.ledger@.len() <= 6,
            self.transitions@.len() < 16,
            transicion_permitida(self.state, ExecutionState::Reconciled),
        ensures
            residuo(self.fills@) != 0 ==> r is Err && r->Err_0 is UnreconciledResidual,
            residuo(self.fills@) == 0 ==> {
                let rep = r->Ok_0;
                let inv = rep.invariants;
                &&& r is Ok
                &&& rep.execution_id == self.request.execution_id
                &&& rep.scenario == self.request.scenario
                &&& rep.state == ExecutionState::Reconciled
                &&& rep.wallets_before@ == ordenadas(self.buy_before, self.sell_before)
                &&& rep.wallets_after@ == ordenadas(
                    WalletSnapshot { venue: self.buy.venue, usd: self.buy.usd, btc: self.buy.btc, reserved_usd: 0, reserved_btc: 0 },
                    WalletSnapshot { venue: self.sell.venue, usd: self.sell.usd, btc: self.sell.btc, reserved_usd: 0, reserved_btc: 0 },
                )
                &&& rep.pnl_usd == (self.buy.usd + self.sell.usd) - (self.buy_before.usd + self.sell_before.usd)
                &&& rep.fills == self.fills
                &&& bitacora_valida(rep.transitions@, Some(ExecutionState::Reconciled))
                &&& transiciones_secuenciadas(rep.transitions@)
                &&& destinos(rep.transitions@) == destinos(self.transitions@).push(ExecutionState::Reconciled)
                &&& detalles_del_escenario(rep.transitions@, self.request.scenario)
                &&& asientos(rep.ledger@) == (if self.reservations_released {
                    asientos(self.ledger@)
                } else {
                    asientos(self.ledger@).push(asiento_liberacion(self.request, self.buy.reserved_usd as int,
                        self.sell.reserved_btc as int))
                }).push(asiento_conciliacion(self.request))
                &&& clases(rep.ledger@) == (if self.reservations_released {
                    clases(self.ledger@)
                } else {
                    clases(self.ledger@).push(LedgerEntryKind::ReservationRelease)
                }).push(LedgerEntryKind::Reconciliation)
                &&& ledger_secuenciado(rep.ledger@)
                &&& rep.ledger@.last().kind == LedgerEntryKind::Reconciliation
                &&& rep.residual_btc == 0
                &&& rep.pnl_usd == rep.ledger_pnl_usd
                &&& rep.residual_before_recovery_btc == self.residual_before_recovery_btc
                &&& rep.selected_recovery == self.selected_recovery
                &&& rep.duplicates_ignored == self.duplicates_ignored
                &&& rep.out_of_order_ignored == self.out_of_order_ignored
                &&& rep.reservation_release_count == 1
                &&& rep.reservation_retries_ignored == self.reservation_retries_ignored
                &&& rep.restart_performed == self.restart_performed
                &&& rep.retry_performed == self.retry_performed
                &&& rep.state_rehydrated == self.state_rehydrated
                &&& inv.terminal_reconciled
                &&& inv.residual_within_tolerance
                &&& inv.btc_conserved
                &&& inv.wallet_equation
                &&& inv.ledger_reconciled
                &&& inv.pnl_matches_ledger
                &&& inv.fills_unique
                &&& inv.fill_sequences_monotonic
                &&& inv.reservations_released_once
                &&& inv.no_negative_balances == (forall|i: int| 0 <= i < 2 ==> billetera_sana(#[trigger] rep.wallets_after@[i]))
                &&& inv.all_passed == inv.no_negative_balances
                &&& (ventas_cubiertas(self.fills@) ==> inv.all_passed)
            },
    {
        let residual = self.residual_btc();
        if residual != 0 {
            return Err(ExecutionError::UnreconciledResidual { residual_btc: residual });
        }
        let mut sim = self;
        sim.release_reservations()?;
        sim.transition(ExecutionState::Reconciled, "wallets, fills, reservas y ledger conciliados")?;
        let reference = copiar(&sim.request.execution_id);
        let ghost antes = sim;
        sim.append_ledger(
            LedgerEntryKind::Reconciliation,
            reference,
            Vec::new(),
            "snapshot terminal reconciliado",
        );
        proof {
            let b = antes.venue_compra();
            let v = antes.venue_venta();
            let e = sim.ledger@.last();
            assert(sim.ledger@ == antes.ledger@.push(e));
            assert(e.deltas@ =~= Seq::<WalletDelta>::empty());
            assert(vista_deltas(e.deltas@) =~= Seq::<(Seq<char>, int, int, int, int)>::empty());
            lema_deltas_vacios(b);
            lema_deltas_vacios(v);
            lema_suma_ledger_push(antes.ledger@, e, b);
            lema_suma_ledger_push(antes.ledger@, e, v);
            assert forall|i: int| 0 <= i < sim.ledger@.len() implies deltas_en_venues(#[trigger] sim.ledger@[i].deltas@, b, v) by {
                if i < sim.ledger@.len() - 1 {
                    assert(sim.ledger@[i] == antes.ledger@[i]);
                    assert(ledger_en_venues(antes.ledger@, b, v));
                    assert(deltas_en_venues(antes.ledger@[i].deltas@, b, v));
                } else {
                    assert(sim.ledger@[i] == e);
                }
            }
            assert forall|i: int| 0 <= i < sim.ledger@.len() implies #[trigger] sim.ledger@[i].sequence == i + 1 by {
                if i < sim.ledger@.len() - 1 {
                    assert(sim.ledger@[i] == antes.ledger@[i]);
                }
            }
            assert(sim.inv());
        }
        let ghost fin = sim;
        let r = sim.into_report();
        proof {
            let rep = r->Ok_0;
            assert(rep.wallets_after@ == ordenadas(fin.buy, fin.sell));
            assert(sin_negativos(fin.buy, fin.sell) == (forall|i: int| 0 <= i < 2 ==> billetera_sana(#[trigger] rep.wallets_after@[i]))) by {
                if sin_negativos(fin.buy, fin.sell) {
                    assert forall|i: int| 0 <= i < 2 implies billetera_sana(#[trigger] rep.wallets_after@[i]) by {}
                } else {
                    if crate::texto::texto_menor(fin.buy.venue@, fin.sell.venue@) {
                        assert(!billetera_sana(rep.wallets_after@[0]) || !billetera_sana(rep.wallets_after@[1]));
                    } else {
                        assert(!billetera_sana(rep.wallets_after@[0]) || !billetera_sana(rep.wallets_after@[1]));
                    }
                }
            }
        }
        r
    }

    /// Reinicio durante la ejecución: el estado persistido se rehidrata tal
    /// cual y se marcan el reinicio y la rehidratación.
    fn restart(&mut self)
        ensures
            final(self).restart_performed,
            final(self).state_rehydrated,
            final(self).request == old(self).request,
            final(self).buy_before == old(self).buy_before,
            final(self).sell_before == old(self).sell_before,
            final(self).buy == old(self).buy,
            final(self).sell == old(self).sell,
            final(self).state == old(self).state,
            final(self).transitions == old(self).transitions,
            final(self).fills == old(self).fills,
            final(self).ledger == old(self).ledger,
            final(self).last_exchange_sequence == old(self).last_exchange_sequence,
            final(self).reservation_created == old(self).reservation_created,
            final(self).reservations_released == old(self).reservations_released,
            final(self).reservation_release_count == old(self).reservation_release_count,
            final(self).reservation_retries_ignored == old(self).reservation_retries_ignored,
            final(self).duplicates_ignored == old(self).duplicates_ignored,
            final(self).out_of_order_ignored == old(self).out_of_order_ignored,
            final(self).selected_recovery == old(self).selected_recovery,
            final(self).residual_before_recovery_btc == old(self).residual_before_recovery_btc,
            final(self).retry_performed == old(self).retry_performed,
    {
        self.restart_performed = true;
        self.state_rehydrated = true;
    }
}


/// Mitad de la cantidad solicitada, truncando hacia cero: lo que llenan las
/// piernas parciales.
pub open spec fn mitad(q: int) -> int {
    q / 2
}

/// Escenarios que llenan parcialmente la primera pierna.
pub open spec fn primera_parcial(sc: ExecutionScenario) -> bool {
    sc == ExecutionScenario::Leg1PartialLeg2Filled || sc == ExecutionScenario::BothLegsPartial
}

/// Escenarios que llenan la primera pierna y quedan largos por toda la cantidad.
pub open spec fn queda_largo(sc: ExecutionScenario) -> bool {
    ||| sc == ExecutionScenario::Leg1FilledLeg2Failed
    ||| sc == ExecutionScenario::TimeoutBeforeLeg2
    ||| sc == ExecutionScenario::TimeoutAfterLeg2
    ||| sc == ExecutionScenario::RehedgeCheaper
    ||| sc == ExecutionScenario::UnwindCheaper
}

/// Monto USD que la primera pierna debita por `h` BTC.
pub open spec fn debito_leg1(r: ExecutionRequest, h: int) -> int {
    h * r.prices.leg1_buy_price_usd + fee_prorrateado(r.costs.leg1_fee_usd as int, h, r.quantity_btc as int)
}

/// Wallet de compra tras reservar y llenar `h` BTC de la primera pierna.
pub open spec fn compra_tras_leg1(r: ExecutionRequest, h: int) -> WalletSnapshot {
    WalletSnapshot {
        venue: r.buy_wallet.venue,
        usd: (r.buy_wallet.usd - debito_leg1(r, h)) as i128,
        btc: (r.buy_wallet.btc + h) as i128,
        reserved_usd: (reserva_usd(r) - debito_leg1(r, h)) as i128,
        reserved_btc: 0,
    }
}

/// Wallet de venta tras reservar y vender `k` BTC en la segunda pierna.
pub open spec fn venta_tras_leg2(r: ExecutionRequest, k: int) -> WalletSnapshot {
    WalletSnapshot {
        venue: r.sell_wallet.venue,
        usd: (r.sell_wallet.usd + k * r.prices.leg2_sell_price_usd - fee_prorrateado(
            r.costs.leg2_fee_usd as int,
            k,
            r.quantity_btc as int,
        )) as i128,
        btc: (r.sell_wallet.btc - k) as i128,
        reserved_usd: 0,
        reserved_btc: (r.quantity_btc - k) as i128,
    }
}

/// Exposición que queda antes de recuperar, por escenario.
pub open spec fn residuo_previo_esperado(r: ExecutionRequest) -> int {
    if queda_largo(r.scenario) {
        r.quantity_btc as int
    } else if r.scenario == ExecutionScenario::Leg1PartialLeg2Filled {
        mitad(r.quantity_btc as int) - r.quantity_btc
    } else {
        0
    }
}

/// Recuperación que elige cada escenario.
pub open spec fn recuperacion_esperada(r: ExecutionRequest) -> Option<RecoveryAction> {
    let q = r.quantity_btc as int;
    if queda_largo(r.scenario) {
        eleccion(r, compra_tras_leg1(r, q), venta_tras_leg2(r, 0), q)
    } else if r.scenario == ExecutionScenario::Leg1PartialLeg2Filled {
        eleccion(r, compra_tras_leg1(r, mitad(q)), venta_tras_leg2(r, q), mitad(q) - q)
    } else {
        None
    }
}

/// Saldos al cerrar cada escenario: USD y BTC del venue de compra y USD y
/// BTC del venue de venta.
pub open spec fn saldos_finales(r: ExecutionRequest) -> (int, int, int, int) {
    let q = r.quantity_btc as int;
    let h = mitad(q);
    let sc = r.scenario;
    let k = if sc == ExecutionScenario::BothLegsPartial { h } else { q };
    let b_usd = r.buy_wallet.usd as int;
    let b_btc = r.buy_wallet.btc as int;
    let s_usd = r.sell_wallet.usd as int;
    let s_btc = r.sell_wallet.btc as int;
    if queda_largo(sc) {
        let e = efecto_recuperacion(r, recuperacion_esperada(r)->0, q);
        (b_usd - debito_leg1(r, q) + e.0, b_btc + q + e.1, s_usd + e.2, s_btc + e.3)
    } else if sc == ExecutionScenario::Leg1PartialLeg2Filled {
        let e = efecto_recuperacion(r, recuperacion_esperada(r)->0, h - q);
        (
            b_usd - debito_leg1(r, h) + e.0,
            b_btc + h + e.1,
            s_usd + q * r.prices.leg2_sell_price_usd - fee_prorrateado(r.costs.leg2_fee_usd as int, q, q) + e.2,
            s_btc - q + e.3,
        )
    } else {
        (
            b_usd - debito_leg1(r, k),
            b_btc + k,
            s_usd + k * r.prices.leg2_sell_price_usd - fee_prorrateado(r.costs.leg2_fee_usd as int, k, q),
            s_btc - k,
        )
    }
}

/// Snapshot final del venue de compra: saldos finales y reservas liberadas.
pub open spec fn compra_final(r: ExecutionRequest) -> WalletSnapshot {
    WalletSnapshot {
        venue: r.buy_wallet.venue,
        usd: saldos_finales(r).0 as i128,
        btc: saldos_finales(r).1 as i128,
        reserved_usd: 0,
        reserved_btc: 0,
    }
}

/// Snapshot final del venue de venta: saldos finales y reservas liberadas.
pub open spec fn venta_final(r: ExecutionRequest) -> WalletSnapshot {
    WalletSnapshot {
        venue: r.sell_wallet.venue,
        usd: saldos_finales(r).2 as i128,
        btc: saldos_finales(r).3 as i128,
        reserved_usd: 0,
        reserved_btc: 0,
    }
}

/// Fills registrados por escenario, recuperación incluida.
pub open spec fn fills_esperados(sc: ExecutionScenario) -> int {
    if sc == ExecutionScenario::Leg1PartialLeg2Filled {
        3
    } else {
        2
    }
}

/// Pierna, lado, cantidad, precio y fee de un fill.
pub open spec fn resumen_fill(f: ExecutionFill) -> (ExecutionLeg, OrderSide, int, int, int) {
    (f.leg, f.side, f.quantity_btc as int, f.price_usd as int, f.fee_usd as int)
}

/// Los resúmenes de los fills, en orden.
pub open spec fn resumenes(fills: Seq<ExecutionFill>) -> Seq<(ExecutionLeg, OrderSide, int, int, int)> {
    Seq::new(fills.len(), |i: int| resumen_fill(fills[i]))
}

/// Fill de la primera pierna por `k` BTC: compra al precio de la pierna con
/// el fee prorrateado.
pub open spec fn fill_leg1_esperado(r: ExecutionRequest, k: int) -> (ExecutionLeg, OrderSide, int, int, int) {
    (ExecutionLeg::Leg1, OrderSide::Buy, k, r.prices.leg1_buy_price_usd as int,
        fee_prorrateado(r.costs.leg1_fee_usd as int, k, r.quantity_btc as int))
}

/// Fill de la segunda pierna por `k` BTC: venta al precio de la pierna con
/// el fee prorrateado.
pub open spec fn fill_leg2_esperado(r: ExecutionRequest, k: int) -> (ExecutionLeg, OrderSide, int, int, int) {
    (ExecutionLeg::Leg2, OrderSide::Sell, k, r.prices.leg2_sell_price_usd as int,
        fee_prorrateado(r.costs.leg2_fee_usd as int, k, r.quantity_btc as int))
}

/// Fill de recuperación de una exposición `res`: vende si es larga y compra
/// si es corta, por su magnitud, con el precio y el costo de la acción
/// elegida.
pub open spec fn fill_recuperacion_esperado(r: ExecutionRequest, res: int) -> (ExecutionLeg, OrderSide, int, int, int) {
    let a = recuperacion_esperada(r)->0;
    (ExecutionLeg::Recovery, if res > 0 { OrderSide::Sell } else { OrderSide::Buy }, abs(res),
        precio_recuperacion(r, a), cargo_recuperacion(r, a))
}

/// Fills de un escenario conciliado, en orden.
pub open spec fn fills_de_escenario(r: ExecutionRequest) -> Seq<(ExecutionLeg, OrderSide, int, int, int)> {
    let q = r.quantity_btc as int;
    let h = mitad(q);
    let sc = r.scenario;
    if queda_largo(sc) {
        seq![fill_leg1_esperado(r, q), fill_recuperacion_esperado(r, q)]
    } else if sc == ExecutionScenario::Leg1PartialLeg2Filled {
        seq![fill_leg1_esperado(r, h), fill_leg2_esperado(r, q), fill_recuperacion_esperado(r, h - q)]
    } else if sc == ExecutionScenario::BothLegsPartial {
        seq![fill_leg1_esperado(r, h), fill_leg2_esperado(r, h)]
    } else {
        seq![fill_leg1_esperado(r, q), fill_leg2_esperado(r, q)]
    }
}

/// Huella del fill de la primera pierna por `k` BTC: en el venue de compra,
/// consume de la reserva USD todo lo que debita.
pub open spec fn huella_leg1(r: ExecutionRequest, k: int) -> (Seq<char>, Seq<char>, int, int) {
    (id_de_fill(r, "-leg1-fill"@), r.buy_wallet.venue@, debito_leg1(r, k), 0)
}

/// Huella del fill de la segunda pierna por `k` BTC: en el venue de venta,
/// consume `k` de la reserva BTC.
pub open spec fn huella_leg2(r: ExecutionRequest, k: int) -> (Seq<char>, Seq<char>, int, int) {
    (id_de_fill(r, "-leg2-fill"@), r.sell_wallet.venue@, 0, k)
}

/// Huellas de los fills de un escenario conciliado, en orden.
pub open spec fn huellas_de_escenario(r: ExecutionRequest) -> Seq<(Seq<char>, Seq<char>, int, int)> {
    let q = r.quantity_btc as int;
    let h = mitad(q);
    let sc = r.scenario;
    let a = recuperacion_esperada(r)->0;
    if queda_largo(sc) {
        seq![huella_leg1(r, q), huella_recuperacion(r, a, q, reserva_usd(r) - debito_leg1(r, q), q)]
    } else if sc == ExecutionScenario::Leg1PartialLeg2Filled {
        seq![huella_leg1(r, h), huella_leg2(r, q), huella_recuperacion(r, a, h - q, reserva_usd(r) - debito_leg1(r, h), 0)]
    } else if sc == ExecutionScenario::BothLegsPartial {
        seq![huella_leg1(r, h), huella_leg2(r, h)]
    } else {
        seq![huella_leg1(r, q), huella_leg2(r, q)]
    }
}

/// Reservas que quedan al cerrar un escenario (USD de compra, BTC de venta):
/// lo reservado menos lo que consumieron sus fills; la liberación las devuelve.
pub open spec fn liberacion_esperada(r: ExecutionRequest) -> (int, int) {
    let q = r.quantity_btc as int;
    let h = mitad(q);
    let sc = r.scenario;
    let a = recuperacion_esperada(r)->0;
    if queda_largo(sc) {
        let ru = reserva_usd(r) - debito_leg1(r, q);
        let c = consumo_recuperacion(r, a, q, ru, q);
        (ru - c.0, q - c.1)
    } else if sc == ExecutionScenario::Leg1PartialLeg2Filled {
        let ru = reserva_usd(r) - debito_leg1(r, h);
        let c = consumo_recuperacion(r, a, h - q, ru, 0);
        (ru - c.0, -c.1)
    } else if sc == ExecutionScenario::BothLegsPartial {
        (reserva_usd(r) - debito_leg1(r, h), q - h)
    } else {
        (reserva_usd(r) - debito_leg1(r, q), 0)
    }
}

/// Entradas del ledger de un escenario conciliado: la reserva, la de cada
/// fill en orden, la liberación de lo que quedó reservado y la conciliación.
pub open spec fn asientos_de_escenario(r: ExecutionRequest, fills: Seq<ExecutionFill>) -> Seq<(LedgerEntryKind, Seq<char>, Seq<(Seq<char>, int, int, int, int)>, Seq<char>)> {
    seq![asiento_reserva(r)] + asientos_de_fills(fills) + seq![
        asiento_liberacion(r, liberacion_esperada(r).0, liberacion_esperada(r).1),
        asiento_conciliacion(r),
    ]
}

/// Clases de las entradas del ledger de un escenario conciliado: la reserva,
/// un fill por cada fill aplicado, la liberación y la conciliación.
pub open spec fn clases_esperadas(sc: ExecutionScenario) -> Seq<LedgerEntryKind> {
    seq![LedgerEntryKind::Reservation] + Seq::new(fills_esperados(sc) as nat, |i: int| LedgerEntryKind::Fill)
        + seq![LedgerEntryKind::ReservationRelease, LedgerEntryKind::Reconciliation]
}

pub open spec fn duplicados_esperados(sc: ExecutionScenario) -> int {
    if sc == ExecutionScenario::DuplicateResponse || sc == ExecutionScenario::IdempotentRetryAfterRestart {
        1
    } else {
        0
    }
}

pub open spec fn fuera_de_orden_esperados(sc: ExecutionScenario) -> int {
    if sc == ExecutionScenario::OutOfOrderEvent {
        1
    } else {
        0
    }
}

pub open spec fn reintentos_esperados(sc: ExecutionScenario) -> int {
    if sc == ExecutionScenario::IdempotentRetryAfterRestart {
        1
    } else {
        0
    }
}

pub open spec fn con_reinicio(sc: ExecutionScenario) -> bool {
    sc == ExecutionScenario::RestartDuringExecution || sc == ExecutionScenario::IdempotentRetryAfterRestart
}

/// Ningún fee de venta supera el nocional de la venta que lo cobra.
pub open spec fn costos_cubiertos(r: ExecutionRequest) -> bool {
    &&& r.costs.leg2_fee_usd <= r.quantity_btc * r.prices.leg2_sell_price_usd
    &&& r.costs.rehedge_cost_usd <= r.quantity_btc * r.prices.rehedge_price_usd
    &&& r.costs.unwind_cost_usd <= r.quantity_btc * r.prices.unwind_price_usd
}

/// Estados por los que pasa un escenario que se concilia, en orden.
pub open spec fn estados_esperados(r: ExecutionRequest) -> Seq<ExecutionState> {
    let inicio = seq![ExecutionState::Detected, ExecutionState::Reserved, ExecutionState::Leg1Submitted];
    match r.scenario {
        ExecutionScenario::BothLegsPartial => inicio + seq![
            ExecutionState::Leg1Partial,
            ExecutionState::Leg2Submitted,
            ExecutionState::Leg2Partial,
            ExecutionState::Reconciled,
        ],
        ExecutionScenario::Leg1PartialLeg2Filled => inicio + seq![
            ExecutionState::Leg1Partial,
            ExecutionState::Leg2Submitted,
            ExecutionState::Leg2Filled,
            ExecutionState::RecoverySelected,
            ExecutionState::Reconciled,
        ],
        ExecutionScenario::Leg1FilledLeg2Failed
        | ExecutionScenario::RehedgeCheaper
        | ExecutionScenario::UnwindCheaper => inicio + seq![
            ExecutionState::Leg1Filled,
            ExecutionState::Leg2Submitted,
            ExecutionState::Leg2Rejected,
            ExecutionState::RecoverySelected,
            ExecutionState::Reconciled,
        ],
        ExecutionScenario::TimeoutBeforeLeg2 => inicio + seq![
            ExecutionState::Leg1Filled,
            ExecutionState::RecoverySelected,
            ExecutionState::Reconciled,
        ],
        ExecutionScenario::TimeoutAfterLeg2 => inicio + seq![
            ExecutionState::Leg1Filled,
            ExecutionState::Leg2Submitted,
            ExecutionState::Leg2TimedOut,
            ExecutionState::RecoverySelected,
            ExecutionState::Reconciled,
        ],
        _ => inicio + seq![
            ExecutionState::Leg1Filled,
            ExecutionState::Leg2Submitted,
            ExecutionState::Leg2Filled,
            ExecutionState::Reconciled,
        ],
    }
}

/// El escenario termina listo para conciliar (sobre una solicitud válida y
/// reservable).
pub open spec fn escenario_completa(r: ExecutionRequest) -> bool {
    &&& !(primera_parcial(r.scenario) && mitad(r.quantity_btc as int) == 0)
    &&& (r.scenario == ExecutionScenario::Leg1PartialLeg2Filled ==> recuperacion_esperada(r) is Some)
}

impl Simulator {
    /// Estado justo después de reservar capital.
    spec fn recien_reservado(&self) -> bool {
        let r = self.request;
        &&& self.inv()
        &&& self.state == Some(ExecutionState::Reserved)
        &&& self.fills@.len() == 0
        &&& self.ledger@.len() == 1
        &&& self.transitions@.len() == 2
        &&& destinos(self.transitions@) == seq![ExecutionState::Detected, ExecutionState::Reserved]
        &&& clases(self.ledger@) == seq![LedgerEntryKind::Reservation]
        &&& asientos(self.ledger@) == seq![asiento_reserva(r)]
        &&& self.reservation_created
        &&& !self.reservations_released
        &&& self.reservation_retries_ignored == 0
        &&& self.duplicates_ignored == 0
        &&& self.out_of_order_ignored == 0
        &&& self.selected_recovery is None
        &&& self.residual_before_recovery_btc == 0
        &&& !self.restart_performed
        &&& !self.retry_performed
        &&& !self.state_rehydrated
        &&& self.buy.usd == r.buy_wallet.usd
        &&& self.buy.btc == r.buy_wallet.btc
        &&& self.buy.reserved_usd == reserva_usd(r)
        &&& self.sell.usd == r.sell_wallet.usd
        &&& self.sell.btc == r.sell_wallet.btc
        &&& self.sell.reserved_btc == r.quantity_btc
        &&& reservable(r)
    }

    /// Estado en que un escenario deja al simulador para conciliar.
    spec fn cierre_listo(&self, r: ExecutionRequest) -> bool {
        &&& self.inv()
        &&& self.request == r
        &&& residuo(self.fills@) == 0
        &&& transicion_permitida(self.state, ExecutionState::Reconciled)
        &&& self.ledger@.len() <= 6
        &&& self.transitions@.len() < 16
        &&& destinos(self.transitions@).push(ExecutionState::Reconciled) == estados_esperados(r)
        &&& clases(self.ledger@).push(LedgerEntryKind::ReservationRelease).push(LedgerEntryKind::Reconciliation)
            == clases_esperadas(r.scenario)
        &&& !self.reservations_released
        &&& self.duplicates_ignored == duplicados_esperados(r.scenario)
        &&& self.out_of_order_ignored == fuera_de_orden_esperados(r.scenario)
        &&& self.reservation_retries_ignored == reintentos_esperados(r.scenario)
        &&& self.restart_performed == con_reinicio(r.scenario)
        &&& self.state_rehydrated == con_reinicio(r.scenario)
        &&& self.retry_performed == (r.scenario == ExecutionScenario::IdempotentRetryAfterRestart)
        &&& self.fills@.len() == fills_esperados(r.scenario)
        &&& resumenes(self.fills@) == fills_de_escenario(r)
        &&& huellas(self.fills@) == huellas_de_escenario(r)
        &&& asientos(self.ledger@) == seq![asiento_reserva(r)] + asientos_de_fills(self.fills@)
        &&& self.buy.reserved_usd == liberacion_esperada(r).0
        &&& self.sell.reserved_btc == liberacion_esperada(r).1
        &&& self.selected_recovery == recuperacion_esperada(r)
        &&& self.residual_before_recovery_btc == residuo_previo_esperado(r)
        &&& (costos_cubiertos(r) ==> ventas_cubiertas(self.fills@))
        &&& self.buy.usd == saldos_finales(r).0
        &&& self.buy.btc == saldos_finales(r).1
        &&& self.sell.usd == saldos_finales(r).2
        &&& self.sell.btc == saldos_finales(r).3
    }
}

proof fn lema_residuo_uno(x: ExecutionFill)
    ensures
        residuo(seq![x]) == match x.side {
            OrderSide::Buy => x.quantity_btc as int,
            OrderSide::Sell => -x.quantity_btc,
        },
{
    lema_residuo_push(Seq::empty(), x);
    assert(Seq::<ExecutionFill>::empty().push(x) =~= seq![x]);
}

proof fn lema_residuo_dos(x: ExecutionFill, y: ExecutionFill)
    ensures
        residuo(seq![x, y]) == residuo(seq![x]) + match y.side {
            OrderSide::Buy => y.quantity_btc as int,
            OrderSide::Sell => -y.quantity_btc,
        },
{
    lema_residuo_push(seq![x], y);
    assert(seq![x].push(y) =~= seq![x, y]);
}


impl Simulator {
    /// Ambas piernas por la misma cantidad: completa o la mitad.
    #[verifier::rlimit(40)]
    fn escenario_dos_piernas(&mut self) -> (r: Result<(), ExecutionError>)
        requires
            old(self).recien_reservado(),
            old(self).request.scenario == ExecutionScenario::BothLegsFilled
                || old(self).request.scenario == ExecutionScenario::BothLegsPartial,
        ensures
            r is Ok <==> escenario_completa(old(self).request),
            r is Err ==> r->Err_0 is InvalidRequest,
            r is Ok ==> final(self).cierre_listo(old(self).request),
    {
        let ghost o = *old(self);
        let q = if self.request.scenario == ExecutionScenario::BothLegsFilled {
            self.request.quantity_btc
        } else {
            self.request.quantity_btc / 2
        };
        self.fill_leg1(q)?;
        let ghost tras1 = *self;
        self.fill_leg2(q)?;
        proof {
            let r = o.request;
            lema_residuo_uno(self.fills@[0]);
            lema_residuo_dos(self.fills@[0], self.fills@[1]);
            assert(self.fills@ =~= seq![self.fills@[0], self.fills@[1]]);
            assert(self.fills@[0] == tras1.fills@[0]);
            assert(asientos_de_fills(self.fills@) =~= seq![asiento_de_fill(self.fills@[0]), asiento_de_fill(self.fills@[1])]);
            assert(asientos(self.ledger@) =~= seq![asiento_reserva(r)] + asientos_de_fills(self.fills@));
            lema_fee_prorrateado(r.costs.leg2_fee_usd as int, q as int, r.quantity_btc as int, r.prices.leg2_sell_price_usd as int);
            if costos_cubiertos(r) {
                assert forall|i: int| 0 <= i < self.fills@.len() && self.fills@[i].side == OrderSide::Sell implies #[trigger] self.fills@[i].fee_usd
                    <= self.fills@[i].quantity_btc * self.fills@[i].price_usd by {
                    assert(i == 1);
                }
            }
        }
        proof {
            assert(clases(self.ledger@).push(LedgerEntryKind::ReservationRelease).push(LedgerEntryKind::Reconciliation)
                =~= clases_esperadas(o.request.scenario));
            assert(resumenes(self.fills@) =~= fills_de_escenario(o.request));
            assert(huellas(self.fills@) =~= huellas_de_escenario(o.request));
            assert(destinos(self.transitions@).push(ExecutionState::Reconciled) =~= estados_esperados(o.request));
        }
        Ok(())
    }
}


impl Simulator {
    /// La primera pierna se llena completa y la segunda falla, vence o no se
    /// envía: la exposición larga se cierra con la recuperación más barata.
    #[verifier::rlimit(60)]
    fn escenario_largo(&mut self) -> (r: Result<(), ExecutionError>)
        requires
            old(self).recien_reservado(),
            queda_largo(old(self).request.scenario),
        ensures
            r is Ok,
            final(self).cierre_listo(old(self).request),
    {
        let ghost o = *old(self);
        let q = self.request.quantity_btc;
        self.fill_leg1(q)?;
        let ghost tras1 = *self;
        match self.request.scenario {
            ExecutionScenario::TimeoutBeforeLeg2 => {},
            ExecutionScenario::TimeoutAfterLeg2 => {
                self.transition(ExecutionState::Leg2Submitted, "segunda pierna enviada")?;
                self.transition(ExecutionState::Leg2TimedOut, "timeout después de enviar la segunda pierna")?;
            },
            ExecutionScenario::Leg1FilledLeg2Failed => {
                self.reject_leg2("segunda pierna rechazada")?;
            },
            _ => {
                self.reject_leg2("segunda pierna rechazada para comparar recuperación")?;
            },
        }
        let ghost antes = *self;
        proof {
            let r = o.request;
            assert(antes.fills == tras1.fills);
            lema_residuo_uno(antes.fills@[0]);
            assert(antes.fills@ =~= seq![antes.fills@[0]]);
            assert(residuo(antes.fills@) == q);
            assert(antes.buy == tras1.buy);
            assert(antes.sell == tras1.sell);
            let cb = compra_tras_leg1(r, q as int);
            let vs = venta_tras_leg2(r, 0);
            assert(fee_prorrateado(r.costs.leg2_fee_usd as int, 0, q as int) == 0);
            assert(factible(r, antes.buy, antes.sell, RecoveryAction::Rehedge, q as int));
            assert(factible(r, antes.buy, antes.sell, RecoveryAction::Unwind, q as int));
            assert(factible(r, cb, vs, RecoveryAction::Rehedge, q as int));
            assert(factible(r, cb, vs, RecoveryAction::Unwind, q as int));
            assert(eleccion(r, antes.buy, antes.sell, q as int) == eleccion(r, cb, vs, q as int));
        }
        let detalle = match self.request.scenario {
            ExecutionScenario::TimeoutBeforeLeg2 => "timeout antes de enviar la segunda pierna",
            _ => "recuperación seleccionada por menor costo factible",
        };
        self.recover_with_detail(detalle)?;
        proof {
            let r = o.request;
            assert(self.fills@.drop_last() == antes.fills@);
            assert(self.fills@[0] == antes.fills@[0]);
            assert(antes.ledger == tras1.ledger);
            assert(self.fills@[1] == self.fills@.last());
            assert(asientos_de_fills(self.fills@) =~= seq![asiento_de_fill(self.fills@[0]), asiento_de_fill(self.fills@[1])]);
            assert(asientos(self.ledger@) =~= seq![asiento_reserva(r)] + asientos_de_fills(self.fills@));
            if costos_cubiertos(r) {
                assert forall|i: int| 0 <= i < self.fills@.len() && self.fills@[i].side == OrderSide::Sell implies #[trigger] self.fills@[i].fee_usd
                    <= self.fills@[i].quantity_btc * self.fills@[i].price_usd by {
                    assert(i == 1);
                    assert(self.fills@[1] == self.fills@.last());
                }
            }
        }
        proof {
            assert(clases(self.ledger@).push(LedgerEntryKind::ReservationRelease).push(LedgerEntryKind::Reconciliation)
                =~= clases_esperadas(o.request.scenario));
            assert(resumenes(self.fills@) =~= fills_de_escenario(o.request));
            assert(huellas(self.fills@) =~= huellas_de_escenario(o.request));
            assert(destinos(self.transitions@).push(ExecutionState::Reconciled) =~= estados_esperados(o.request));
        }
        Ok(())
    }
}


impl Simulator {
    /// Media primera pierna y segunda completa: queda corto por la diferencia.
    #[verifier::rlimit(60)]
    fn escenario_parcial_completa(&mut self) -> (r: Result<(), ExecutionError>)
        requires
            old(self).recien_reservado(),
            old(self).request.scenario == ExecutionScenario::Leg1PartialLeg2Filled,
        ensures
            r is Ok <==> escenario_completa(old(self).request),
            r is Err ==> (mitad(old(self).request.quantity_btc as int) == 0 && r->Err_0 is InvalidRequest)
                || (mitad(old(self).request.quantity_btc as int) > 0 && r->Err_0 is NoFeasibleRecovery),
            r is Ok ==> final(self).cierre_listo(old(self).request),
    {
        let ghost o = *old(self);
        let q = self.request.quantity_btc;
        let h = q / 2;
        self.fill_leg1(h)?;
        let ghost tras1 = *self;
        self.fill_leg2(q)?;
        let ghost antes = *self;
        proof {
            let r = o.request;
            lema_residuo_uno(antes.fills@[0]);
            lema_residuo_dos(antes.fills@[0], antes.fills@[1]);
            assert(antes.fills@ =~= seq![antes.fills@[0], antes.fills@[1]]);
            assert(antes.fills@[0] == tras1.fills@[0]);
            assert(residuo(antes.fills@) == h - q);
            lema_fee_prorrateado(r.costs.leg2_fee_usd as int, q as int, q as int, r.prices.leg2_sell_price_usd as int);
            let cb = compra_tras_leg1(r, h as int);
            let vs = venta_tras_leg2(r, q as int);
            assert(antes.buy.usd == cb.usd && antes.buy.btc == cb.btc && antes.buy.reserved_usd == cb.reserved_usd && antes.buy.reserved_btc == cb.reserved_btc);
            assert(antes.sell.usd == vs.usd && antes.sell.btc == vs.btc && antes.sell.reserved_usd == vs.reserved_usd && antes.sell.reserved_btc == vs.reserved_btc);
            assert(factible(r, antes.buy, antes.sell, RecoveryAction::Rehedge, h - q) == factible(r, cb, vs, RecoveryAction::Rehedge, h - q));
            assert(factible(r, antes.buy, antes.sell, RecoveryAction::Unwind, h - q) == factible(r, cb, vs, RecoveryAction::Unwind, h - q));
            assert(eleccion(r, antes.buy, antes.sell, h - q) == eleccion(r, cb, vs, h - q));
        }
        self.recover_with_detail("recuperación seleccionada por menor costo factible")?;
        proof {
            let r = o.request;
            assert(self.fills@.drop_last() == antes.fills@);
            assert(self.fills@[0] == antes.fills@[0]);
            assert(self.fills@[1] == antes.fills@[1]);
            assert(self.fills@[2] == self.fills@.last());
            assert(antes.fills@[0] == tras1.fills@[0]);
            assert(asientos_de_fills(self.fills@) =~= seq![asiento_de_fill(self.fills@[0]), asiento_de_fill(self.fills@[1]),
                asiento_de_fill(self.fills@[2])]);
            assert(asientos(self.ledger@) =~= seq![asiento_reserva(r)] + asientos_de_fills(self.fills@));
            if costos_cubiertos(r) {
                assert forall|i: int| 0 <= i < self.fills@.len() && self.fills@[i].side == OrderSide::Sell implies #[trigger] self.fills@[i].fee_usd
                    <= self.fills@[i].quantity_btc * self.fills@[i].price_usd by {
                    assert(i == 1);
                }
            }
        }
        proof {
            assert(clases(self.ledger@).push(LedgerEntryKind::ReservationRelease).push(LedgerEntryKind::Reconciliation)
                =~= clases_esperadas(o.request.scenario));
            assert(resumenes(self.fills@) =~= fills_de_escenario(o.request));
            assert(huellas(self.fills@) =~= huellas_de_escenario(o.request));
            assert(destinos(self.transitions@).push(ExecutionState::Reconciled) =~= estados_esperados(o.request));
        }
        Ok(())
    }
}


impl Simulator {
    /// Piernas completas con eventos repetidos, fuera de orden o un reinicio
    /// en medio: ninguno se aplica dos veces.
    #[verifier::rlimit(80)]
    fn escenario_eventos(&mut self) -> (r: Result<(), ExecutionError>)
        requires
            old(self).recien_reservado(),
            old(self).request.scenario == ExecutionScenario::DuplicateResponse
                || old(self).request.scenario == ExecutionScenario::OutOfOrderEvent
                || old(self).request.scenario == ExecutionScenario::RestartDuringExecution
                || old(self).request.scenario == ExecutionScenario::IdempotentRetryAfterRestart,
        ensures
            r is Ok,
            final(self).cierre_listo(old(self).request),
    {
        let ghost o = *old(self);
        let q = self.request.quantity_btc;
        match self.request.scenario {
            ExecutionScenario::DuplicateResponse => {
                let leg1 = self.fill_leg1(q)?;
                proof {
                    assert(self.fills@[0].fill_id == leg1.fill_id);
                    assert(id_visto(self.fills@, leg1.fill_id@));
                    assert(fill_acotado(self.fills@[0]));
                }
                let _ = self.apply_fill(leg1, Lado::Compra, ReservationUse::Usd)?;
            },
            ExecutionScenario::OutOfOrderEvent => {
                self.transition(ExecutionState::Leg1Submitted, "primera pierna enviada")?;
                let invalid = self.make_fill(
                    "-leg1-out-of-order",
                    2,
                    ExecutionLeg::Leg1,
                    Lado::Compra,
                    OrderSide::Buy,
                    q,
                    self.request.prices.leg1_buy_price_usd,
                    self.request.costs.leg1_fee_usd,
                );
                proof {
                    assert(!id_visto(self.fills@, invalid.fill_id@));
                }
                let _ = self.apply_fill(invalid, Lado::Compra, ReservationUse::Usd)?;
                self.complete_leg1(q)?;
            },
            ExecutionScenario::RestartDuringExecution => {
                self.fill_leg1(q)?;
                self.restart();
            },
            _ => {
                let leg1 = self.fill_leg1(q)?;
                self.restart();
                self.retry_performed = true;
                self.reserve()?;
                proof {
                    assert(self.fills@[0].fill_id == leg1.fill_id);
                    assert(id_visto(self.fills@, leg1.fill_id@));
                    assert(fill_acotado(self.fills@[0]));
                }
                let _ = self.apply_fill(leg1, Lado::Compra, ReservationUse::Usd)?;
            },
        }
        let ghost antes = *self;
        proof {
            assert(self.fills@.len() == 1);
            assert(self.fills@[0].fill_id@ == id_de_fill(o.request, "-leg1-fill"@));
            assert(self.sell.reserved_btc == q);
            assert(self.state == Some(ExecutionState::Leg1Filled));
        }
        self.fill_leg2(q)?;
        proof {
            let r = o.request;
            lema_residuo_uno(self.fills@[0]);
            lema_residuo_dos(self.fills@[0], self.fills@[1]);
            assert(self.fills@ =~= seq![self.fills@[0], self.fills@[1]]);
            assert(self.fills@[0] == antes.fills@[0]);
            assert(asientos_de_fills(self.fills@) =~= seq![asiento_de_fill(self.fills@[0]), asiento_de_fill(self.fills@[1])]);
            assert(asientos(self.ledger@) =~= seq![asiento_reserva(r)] + asientos_de_fills(self.fills@));
            lema_fee_prorrateado(r.costs.leg2_fee_usd as int, q as int, q as int, r.prices.leg2_sell_price_usd as int);
            if costos_cubiertos(r) {
                assert forall|i: int| 0 <= i < self.fills@.len() && self.fills@[i].side == OrderSide::Sell implies #[trigger] self.fills@[i].fee_usd
                    <= self.fills@[i].quantity_btc * self.fills@[i].price_usd by {
                    assert(i == 1);
                }
            }
        }
        proof {
            assert(clases(self.ledger@).push(LedgerEntryKind::ReservationRelease).push(LedgerEntryKind::Reconciliation)
                =~= clases_esperadas(o.request.scenario));
            assert(resumenes(self.fills@) =~= fills_de_escenario(o.request));
            assert(huellas(self.fills@) =~= huellas_de_escenario(o.request));
            assert(destinos(self.transitions@).push(ExecutionState::Reconciled) =~= estados_esperados(o.request));
        }
        Ok(())
    }
}


/// Reporte conciliado de un escenario, campo por campo: estado terminal,
/// wallets antes y después, cada fill (pierna, lado, montos, identificador,
/// venue, secuencia y reserva consumida), cada entrada del ledger (clase,
/// referencia, deltas, texto y secuencia), cada transición (secuencia, origen,
/// destino y texto), exposición nula, reservas liberadas una vez, contadores
/// del escenario y todas las invariantes recalculadas verdaderas salvo, según
/// los saldos finales, la de balances no negativos.
pub open spec fn informe_conciliado(rep: ExecutionReport, r: ExecutionRequest) -> bool {
    let sc = r.scenario;
    let inv = rep.invariants;
    &&& rep.execution_id == r.execution_id
    &&& rep.scenario == sc
    &&& rep.state == ExecutionState::Reconciled
    &&& rep.wallets_before@ == ordenadas(snapshot_inicial(r.buy_wallet), snapshot_inicial(r.sell_wallet))
    &&& rep.wallets_after@ == ordenadas(compra_final(r), venta_final(r))
    &&& bitacora_valida(rep.transitions@, Some(ExecutionState::Reconciled))
    &&& transiciones_secuenciadas(rep.transitions@)
    &&& destinos(rep.transitions@) == estados_esperados(r)
    &&& detalles_del_escenario(rep.transitions@, sc)
    &&& clases(rep.ledger@) == clases_esperadas(sc)
    &&& ledger_secuenciado(rep.ledger@)
    &&& rep.ledger@.last().kind == LedgerEntryKind::Reconciliation
    &&& ids_unicos(rep.fills@)
    &&& secuencias_consecutivas(rep.fills@)
    &&& rep.pnl_usd == saldos_finales(r).0 + saldos_finales(r).2 - (r.buy_wallet.usd + r.sell_wallet.usd)
    &&& rep.fills@.len() == fills_esperados(sc)
    &&& resumenes(rep.fills@) == fills_de_escenario(r)
    &&& huellas(rep.fills@) == huellas_de_escenario(r)
    &&& asientos(rep.ledger@) == asientos_de_escenario(r, rep.fills@)
    &&& rep.residual_btc == 0
    &&& rep.pnl_usd == rep.ledger_pnl_usd
    &&& rep.residual_before_recovery_btc == residuo_previo_esperado(r)
    &&& rep.selected_recovery == recuperacion_esperada(r)
    &&& rep.duplicates_ignored == duplicados_esperados(sc)
    &&& rep.out_of_order_ignored == fuera_de_orden_esperados(sc)
    &&& rep.reservation_retries_ignored == reintentos_esperados(sc)
    &&& rep.reservation_release_count == 1
    &&& rep.restart_performed == con_reinicio(sc)
    &&& rep.state_rehydrated == con_reinicio(sc)
    &&& rep.retry_performed == (sc == ExecutionScenario::IdempotentRetryAfterRestart)
    &&& inv.terminal_reconciled
    &&& inv.residual_within_tolerance
    &&& inv.btc_conserved
    &&& inv.wallet_equation
    &&& inv.ledger_reconciled
    &&& inv.pnl_matches_ledger
    &&& inv.fills_unique
    &&& inv.fill_sequences_monotonic
    &&& inv.reservations_released_once
    &&& inv.no_negative_balances == (forall|i: int| 0 <= i < 2 ==> billetera_sana(#[trigger] rep.wallets_after@[i]))
    &&& inv.all_passed == inv.no_negative_balances
    &&& (costos_cubiertos(r) ==> inv.all_passed)
}

/// La solicitud en las unidades del reporte: cantidades, saldos, fees y costos
/// por diez; los precios por BTC no cambian.
pub open spec fn escalada(r: ExecutionRequest) -> ExecutionRequest {
    ExecutionRequest {
        quantity_btc: (r.quantity_btc * 10) as i128,
        buy_wallet: InitialWallet {
            usd: (r.buy_wallet.usd * 10) as i128,
            btc: (r.buy_wallet.btc * 10) as i128,
            ..r.buy_wallet
        },
        sell_wallet: InitialWallet {
            usd: (r.sell_wallet.usd * 10) as i128,
            btc: (r.sell_wallet.btc * 10) as i128,
            ..r.sell_wallet
        },
        costs: ExecutionCosts {
            leg1_fee_usd: (r.costs.leg1_fee_usd * 10) as i128,
            leg2_fee_usd: (r.costs.leg2_fee_usd * 10) as i128,
            rehedge_cost_usd: (r.costs.rehedge_cost_usd * 10) as i128,
            unwind_cost_usd: (r.costs.unwind_cost_usd * 10) as i128,
        },
        ..r
    }
}

/// Cotas de tamaño de una solicitud: las de `solicitud_acotada` sobre la
/// solicitud ya escalada a las unidades del reporte.
pub open spec fn solicitud_admitida(r: ExecutionRequest) -> bool {
    &&& r.quantity_btc * 10 <= LIMITE_CANTIDAD
    &&& r.prices.leg1_buy_price_usd <= LIMITE_PRECIO
    &&& r.prices.leg2_sell_price_usd <= LIMITE_PRECIO
    &&& r.prices.rehedge_price_usd <= LIMITE_PRECIO
    &&& r.prices.unwind_price_usd <= LIMITE_PRECIO
    &&& r.buy_wallet.usd * 10 <= LIMITE_SALDO_USD
    &&& r.sell_wallet.usd * 10 <= LIMITE_SALDO_USD
    &&& r.buy_wallet.btc * 10 <= LIMITE_CANTIDAD
    &&& r.sell_wallet.btc * 10 <= LIMITE_CANTIDAD
    &&& r.costs.leg1_fee_usd * 10 <= LIMITE_COSTO
    &&& r.costs.leg2_fee_usd * 10 <= LIMITE_COSTO
    &&& r.costs.rehedge_cost_usd * 10 <= LIMITE_COSTO
    &&& r.costs.unwind_cost_usd * 10 <= LIMITE_COSTO
}

/// Escalar conserva la validez, las cotas y la cobertura de la reserva, y deja
/// una cantidad cuya mitad no es nula.
proof fn lema_escalada(r: ExecutionRequest)
    requires
        solicitud_valida(r),
        solicitud_admitida(r),
    ensures
        solicitud_valida(escalada(r)),
        solicitud_acotada(escalada(r)),
        reservable(escalada(r)) == reservable(r),
        mitad(escalada(r).quantity_btc as int) > 0,
        escenario_completa(escalada(r)) == (r.scenario == ExecutionScenario::Leg1PartialLeg2Filled
            ==> recuperacion_esperada(escalada(r)) is Some),
{
    let e = escalada(r);
    assert(e.quantity_btc * e.prices.leg1_buy_price_usd == 10 * (r.quantity_btc * r.prices.leg1_buy_price_usd))
        by (nonlinear_arith)
        requires
            e.quantity_btc == r.quantity_btc * 10,
            e.prices.leg1_buy_price_usd == r.prices.leg1_buy_price_usd,
    ;
}

/// La solicitud en las unidades del reporte.
fn escalar(r: ExecutionRequest) -> (e: ExecutionRequest)
    requires
        solicitud_valida(r),
        solicitud_admitida(r),
    ensures
        e == escalada(r),
{
    ExecutionRequest {
        quantity_btc: r.quantity_btc * 10,
        buy_wallet: InitialWallet { usd: r.buy_wallet.usd * 10, btc: r.buy_wallet.btc * 10, venue: r.buy_wallet.venue },
        sell_wallet: InitialWallet {
            usd: r.sell_wallet.usd * 10,
            btc: r.sell_wallet.btc * 10,
            venue: r.sell_wallet.venue,
        },
        costs: ExecutionCosts {
            leg1_fee_usd: r.costs.leg1_fee_usd * 10,
            leg2_fee_usd: r.costs.leg2_fee_usd * 10,
            rehedge_cost_usd: r.costs.rehedge_cost_usd * 10,
            unwind_cost_usd: r.costs.unwind_cost_usd * 10,
        },
        execution_id: r.execution_id,
        scenario: r.scenario,
        prices: r.prices,
    }
}

/// Ejecuta uno de los doce escenarios sobre wallets simuladas y devuelve toda
/// la evidencia necesaria para recalcular balances, P&L y exposición residual.
/// La solicitud llega en sus unidades; el reporte y los errores se expresan
/// en las del reporte (ver `escalada`).
pub fn simulate(request: ExecutionRequest) -> (r: Result<ExecutionReport, ExecutionError>)
    requires
        solicitud_admitida(request),
    ensures
        !solicitud_valida(request) ==> r is Err && r->Err_0 is InvalidRequest,
        solicitud_valida(request) && !reservable(request) ==> r is Err && r->Err_0 is InsufficientBalance,
        solicitud_valida(request) && reservable(request) ==> {
            &&& (r is Ok <==> (request.scenario == ExecutionScenario::Leg1PartialLeg2Filled
                ==> recuperacion_esperada(escalada(request)) is Some))
            &&& (r is Err ==> request.scenario == ExecutionScenario::Leg1PartialLeg2Filled
                && r->Err_0 is NoFeasibleRecovery)
            &&& (r is Ok ==> informe_conciliado(r->Ok_0, escalada(request)))
        },
{
    validate_request(&request)?;
    proof {
        lema_escalada(request);
    }
    let fina = escalar(request);
    simular_en_unidades_finas(fina)
}

/// El simulador sobre una solicitud ya expresada en las unidades del reporte.
#[verifier::rlimit(40)]
fn simular_en_unidades_finas(request: ExecutionRequest) -> (r: Result<ExecutionReport, ExecutionError>)
    requires
        solicitud_acotada(request),
    ensures
        !solicitud_valida(request) ==> r is Err && r->Err_0 is InvalidRequest,
        solicitud_valida(request) && !reservable(request) ==> r is Err && r->Err_0 is InsufficientBalance,
        solicitud_valida(request) && reservable(request) ==> {
            &&& (r is Ok <==> escenario_completa(request))
            &&& (r is Err ==> (primera_parcial(request.scenario) && mitad(request.quantity_btc as int) == 0
                && r->Err_0 is InvalidRequest) || (request.scenario == ExecutionScenario::Leg1PartialLeg2Filled
                && mitad(request.quantity_btc as int) > 0 && r->Err_0 is NoFeasibleRecovery))
            &&& (r is Ok ==> informe_conciliado(r->Ok_0, request))
        },
{
    validate_request(&request)?;
    let ghost req = request;
    let mut sim = Simulator::new(request);
    let scenario = sim.request.scenario;
    sim.transition(ExecutionState::Detected, "oportunidad detectada")?;
    proof {
        assert(destinos(sim.transitions@) =~= seq![ExecutionState::Detected]);
    }
    sim.reserve()?;
    proof {
        assert(destinos(sim.transitions@) =~= seq![ExecutionState::Detected, ExecutionState::Reserved]);
        assert(clases(sim.ledger@) =~= seq![LedgerEntryKind::Reservation]);
        assert(asientos(sim.ledger@) =~= seq![asiento_reserva(sim.request)]);
        assert(sim.recien_reservado());
    }
    match scenario {
        ExecutionScenario::BothLegsFilled | ExecutionScenario::BothLegsPartial => {
            sim.escenario_dos_piernas()?;
        },
        ExecutionScenario::Leg1PartialLeg2Filled => {
            sim.escenario_parcial_completa()?;
        },
        ExecutionScenario::Leg1FilledLeg2Failed
        | ExecutionScenario::TimeoutBeforeLeg2
        | ExecutionScenario::TimeoutAfterLeg2
        | ExecutionScenario::RehedgeCheaper
        | ExecutionScenario::UnwindCheaper => {
            sim.escenario_largo()?;
        },
        _ => {
            sim.escenario_eventos()?;
        },
    }
    proof {
        assert(sim.cierre_listo(req));
    }
    let rep = sim.reconcile();
    proof {
        if rep is Ok {
            let l = rep->Ok_0.ledger@;
            assert(asientos(l) =~= asientos_de_escenario(req, rep->Ok_0.fills@));
        }
    }
    rep
}


/// Solicitud de referencia de la matriz forense para un escenario: BUY con
/// 200 000 USD y 1 BTC, SELL con 100 000 USD y 2 BTC, 1 BTC a 50 000 / 50 100
/// USD, recuperación a 50 020 / 49 980 USD; fees de 5, 5, 6 y 7 USD.
pub open spec fn es_solicitud_estandar(r: ExecutionRequest, sc: ExecutionScenario) -> bool {
    &&& es_base_estandar(r, sc)
    &&& r.prices.rehedge_price_usd == 50_020 * UNIDADES_POR_USD_PRECIO
    &&& r.prices.unwind_price_usd == 49_980 * UNIDADES_POR_USD_PRECIO
    &&& r.costs.rehedge_cost_usd == 6 * UNIDADES_POR_USD
    &&& r.costs.unwind_cost_usd == 7 * UNIDADES_POR_USD
}

/// Todo lo de la solicitud de referencia salvo precios y costos de recuperación.
pub open spec fn es_base_estandar(r: ExecutionRequest, sc: ExecutionScenario) -> bool {
    &&& r.execution_id@ == "forensic-"@ + nombre_escenario(sc)
    &&& r.scenario == sc
    &&& r.buy_wallet.venue@ == "BUY"@
    &&& r.buy_wallet.usd == 200_000 * UNIDADES_POR_USD
    &&& r.buy_wallet.btc == UNIDADES_POR_BTC
    &&& r.sell_wallet.venue@ == "SELL"@
    &&& r.sell_wallet.usd == 100_000 * UNIDADES_POR_USD
    &&& r.sell_wallet.btc == 2 * UNIDADES_POR_BTC
    &&& r.quantity_btc == UNIDADES_POR_BTC
    &&& r.prices.leg1_buy_price_usd == 50_000 * UNIDADES_POR_USD_PRECIO
    &&& r.prices.leg2_sell_price_usd == 50_100 * UNIDADES_POR_USD_PRECIO
    &&& r.costs.leg1_fee_usd == 5 * UNIDADES_POR_USD
    &&& r.costs.leg2_fee_usd == 5 * UNIDADES_POR_USD
}

/// Solicitud de referencia de la matriz forense.
pub fn standard_request(scenario: ExecutionScenario) -> (r: ExecutionRequest)
    ensures
        es_solicitud_estandar(r, scenario),
{
    ExecutionRequest {
        execution_id: unir("forensic-", scenario.as_str()),
        scenario,
        buy_wallet: InitialWallet {
            venue: String::from_str("BUY"),
            usd: 200_000 * UNIDADES_POR_USD,
            btc: UNIDADES_POR_BTC,
        },
        sell_wallet: InitialWallet {
            venue: String::from_str("SELL"),
            usd: 100_000 * UNIDADES_POR_USD,
            btc: 2 * UNIDADES_POR_BTC,
        },
        quantity_btc: UNIDADES_POR_BTC,
        prices: ExecutionPrices {
            leg1_buy_price_usd: 50_000 * UNIDADES_POR_USD_PRECIO,
            leg2_sell_price_usd: 50_100 * UNIDADES_POR_USD_PRECIO,
            rehedge_price_usd: 50_020 * UNIDADES_POR_USD_PRECIO,
            unwind_price_usd: 49_980 * UNIDADES_POR_USD_PRECIO,
        },
        costs: ExecutionCosts {
            leg1_fee_usd: 5 * UNIDADES_POR_USD,
            leg2_fee_usd: 5 * UNIDADES_POR_USD,
            rehedge_cost_usd: 6 * UNIDADES_POR_USD,
            unwind_cost_usd: 7 * UNIDADES_POR_USD,
        },
    }
}


/// Solicitud de la matriz: la de referencia, con precios y costos de
/// recuperación invertidos en los dos escenarios que comparan recuperaciones.
pub open spec fn es_solicitud_de_matriz(r: ExecutionRequest, sc: ExecutionScenario) -> bool {
    &&& es_base_estandar(r, sc)
    &&& if sc == ExecutionScenario::RehedgeCheaper {
        &&& r.prices.rehedge_price_usd == 50_050 * UNIDADES_POR_USD_PRECIO
        &&& r.prices.unwind_price_usd == 49_950 * UNIDADES_POR_USD_PRECIO
        &&& r.costs.rehedge_cost_usd == UNIDADES_POR_USD
        &&& r.costs.unwind_cost_usd == 10 * UNIDADES_POR_USD
    } else if sc == ExecutionScenario::UnwindCheaper {
        &&& r.prices.rehedge_price_usd == 49_950 * UNIDADES_POR_USD_PRECIO
        &&& r.prices.unwind_price_usd == 50_050 * UNIDADES_POR_USD_PRECIO
        &&& r.costs.rehedge_cost_usd == 10 * UNIDADES_POR_USD
        &&& r.costs.unwind_cost_usd == UNIDADES_POR_USD
    } else {
        &&& r.prices.rehedge_price_usd == 50_020 * UNIDADES_POR_USD_PRECIO
        &&& r.prices.unwind_price_usd == 49_980 * UNIDADES_POR_USD_PRECIO
        &&& r.costs.rehedge_cost_usd == 6 * UNIDADES_POR_USD
        &&& r.costs.unwind_cost_usd == 7 * UNIDADES_POR_USD
    }
}

/// Recuperación que la matriz de referencia elige en cada escenario.
pub open spec fn recuperacion_de_matriz(sc: ExecutionScenario) -> Option<RecoveryAction> {
    match sc {
        ExecutionScenario::Leg1FilledLeg2Failed
        | ExecutionScenario::TimeoutBeforeLeg2
        | ExecutionScenario::TimeoutAfterLeg2
        | ExecutionScenario::RehedgeCheaper => Some(RecoveryAction::Rehedge),
        ExecutionScenario::Leg1PartialLeg2Filled | ExecutionScenario::UnwindCheaper => Some(RecoveryAction::Unwind),
        _ => None,
    }
}

proof fn lema_solicitud_de_matriz(r: ExecutionRequest, sc: ExecutionScenario)
    requires
        es_solicitud_de_matriz(r, sc),
    ensures
        solicitud_valida(r),
        solicitud_admitida(r),
        reservable(r),
        costos_cubiertos(escalada(r)),
        recuperacion_esperada(escalada(r)) == recuperacion_de_matriz(sc),
{
    reveal_strlit("forensic-");
    reveal_strlit("BUY");
    reveal_strlit("SELL");
    assert(r.execution_id@[0] == 'f');
    assert(!crate::texto::espacio_unicode(r.execution_id@[0]));
    assert(!crate::texto::espacio_unicode(r.buy_wallet.venue@[0]));
    assert(!crate::texto::espacio_unicode(r.sell_wallet.venue@[0]));
    assert(r.buy_wallet.venue@.len() != r.sell_wallet.venue@.len());
    let e = escalada(r);
    let q = e.quantity_btc as int;
    let h = mitad(q);
    assert(q == 1_000_000_000);
    assert(h == 500_000_000);
    assert(e.costs.leg1_fee_usd == 50 * UNIDADES_POR_USD);
    assert(e.costs.leg2_fee_usd == 50 * UNIDADES_POR_USD);
    assert(fee_prorrateado(e.costs.leg1_fee_usd as int, h, q) == 250_000_000_000_000_000) by (nonlinear_arith)
        requires
            e.costs.leg1_fee_usd == 50 * UNIDADES_POR_USD,
            h == 500_000_000,
            q == 1_000_000_000,
    ;
    assert(fee_prorrateado(e.costs.leg1_fee_usd as int, q, q) == e.costs.leg1_fee_usd) by (nonlinear_arith)
        requires
            e.costs.leg1_fee_usd == 50 * UNIDADES_POR_USD,
            q == 1_000_000_000,
    ;
    assert(fee_prorrateado(e.costs.leg2_fee_usd as int, q, q) == e.costs.leg2_fee_usd) by (nonlinear_arith)
        requires
            e.costs.leg2_fee_usd == 50 * UNIDADES_POR_USD,
            q == 1_000_000_000,
    ;
    assert(fee_prorrateado(e.costs.leg2_fee_usd as int, 0, q) == 0) by (nonlinear_arith)
        requires
            q == 1_000_000_000,
    ;
}

/// Ejecuta los doce casos contra wallets y precios fijos, en el orden estable
/// de la matriz. La evidencia es pura y reproducible.
#[verifier::rlimit(40)]
pub fn standard_matrix() -> (r: Result<Vec<ExecutionReport>, ExecutionError>)
    ensures
        r is Ok,
        r->Ok_0@.len() == 12,
        forall|i: int|
            0 <= i < 12 ==> {
                let rep = #[trigger] r->Ok_0@[i];
                let sc = escenarios()[i];
                &&& rep.scenario == sc
                &&& rep.execution_id@ == "forensic-"@ + nombre_escenario(sc)
                &&& rep.state == ExecutionState::Reconciled
                &&& rep.residual_btc == 0
                &&& rep.reservation_release_count == 1
                &&& rep.pnl_usd == rep.ledger_pnl_usd
                &&& rep.fills@.len() == fills_esperados(sc)
                &&& rep.selected_recovery == recuperacion_de_matriz(sc)
                &&& rep.duplicates_ignored == duplicados_esperados(sc)
                &&& rep.out_of_order_ignored == fuera_de_orden_esperados(sc)
                &&& rep.reservation_retries_ignored == reintentos_esperados(sc)
                &&& rep.restart_performed == con_reinicio(sc)
                &&& rep.state_rehydrated == con_reinicio(sc)
                &&& rep.retry_performed == (sc == ExecutionScenario::IdempotentRetryAfterRestart)
                &&& rep.invariants.all_passed
                &&& exists|req: ExecutionRequest| es_solicitud_de_matriz(req, sc) && #[trigger] informe_conciliado(rep, escalada(req))
            },
{
    let lista = ExecutionScenario::all();
    let mut reports: Vec<ExecutionReport> = Vec::new();
    let mut i: usize = 0;
    while i < lista.len()
        invariant
            lista@ == escenarios(),
            i <= 12,
            reports@.len() == i,
            forall|k: int|
                0 <= k < i ==> {
                    let rep = #[trigger] reports@[k];
                    let sc = escenarios()[k];
                    &&& rep.scenario == sc
                    &&& rep.execution_id@ == "forensic-"@ + nombre_escenario(sc)
                    &&& rep.state == ExecutionState::Reconciled
                    &&& rep.residual_btc == 0
                    &&& rep.reservation_release_count == 1
                    &&& rep.pnl_usd == rep.ledger_pnl_usd
                    &&& rep.fills@.len() == fills_esperados(sc)
                    &&& rep.selected_recovery == recuperacion_de_matriz(sc)
                    &&& rep.duplicates_ignored == duplicados_esperados(sc)
                    &&& rep.out_of_order_ignored == fuera_de_orden_esperados(sc)
                    &&& rep.reservation_retries_ignored == reintentos_esperados(sc)
                    &&& rep.restart_performed == con_reinicio(sc)
                    &&& rep.state_rehydrated == con_reinicio(sc)
                    &&& rep.retry_performed == (sc == ExecutionScenario::IdempotentRetryAfterRestart)
                    &&& rep.invariants.all_passed
                    &&& exists|req: ExecutionRequest| es_solicitud_de_matriz(req, sc) && #[trigger] informe_conciliado(rep, escalada(req))
                },
        decreases 12 - i,
    {
        let sc = lista[i];
        let mut request = standard_request(sc);
        if sc == ExecutionScenario::RehedgeCheaper {
            request.prices.rehedge_price_usd = 50_050 * UNIDADES_POR_USD_PRECIO;
            request.prices.unwind_price_usd = 49_950 * UNIDADES_POR_USD_PRECIO;
            request.costs.rehedge_cost_usd = UNIDADES_POR_USD;
            request.costs.unwind_cost_usd = 10 * UNIDADES_POR_USD;
        } else if sc == ExecutionScenario::UnwindCheaper {
            request.prices.rehedge_price_usd = 49_950 * UNIDADES_POR_USD_PRECIO;
            request.prices.unwind_price_usd = 50_050 * UNIDADES_POR_USD_PRECIO;
            request.costs.rehedge_cost_usd = 10 * UNIDADES_POR_USD;
            request.costs.unwind_cost_usd = UNIDADES_POR_USD;
        }
        proof {
            lema_solicitud_de_matriz(request, sc);
        }
        let ghost req = request;
        let rep = simulate(request)?;
        proof {
            assert(informe_conciliado(rep, escalada(req)));
            assert(es_solicitud_de_matriz(req, sc));
        }
        reports.push(rep);
        i = i + 1;
    }
    Ok(reports)
}


/// La recuperación elegida es factible y no cuesta más que ninguna otra
/// factible; si ninguna es factible no se elige ninguna.
pub proof fn recuperacion_elegida_es_la_mas_barata(
    r: ExecutionRequest,
    compra: WalletSnapshot,
    venta: WalletSnapshot,
    res: int,
    otra: RecoveryAction,
)
    ensures
        eleccion(r, compra, venta, res) matches Some(a) ==> {
            &&& factible(r, compra, venta, a, res)
            &&& (factible(r, compra, venta, otra, res) ==> costo_recuperacion(r, a, res) <= costo_recuperacion(r, otra, res))
        },
        eleccion(r, compra, venta, res) is None <==> !factible(r, compra, venta, RecoveryAction::Rehedge, res)
            && !factible(r, compra, venta, RecoveryAction::Unwind, res),
{
}

/// El fee prorrateado nunca supera el fee total y lo iguala con el llenado
/// completo.
pub proof fn fee_prorrateado_acotado(total: int, filled: int, requested: int)
    requires
        0 <= total,
        0 <= filled <= requested,
        requested > 0,
    ensures
        0 <= fee_prorrateado(total, filled, requested) <= total,
        fee_prorrateado(total, requested, requested) == total,
{
    lema_fee_prorrateado(total, filled, requested, 0);
}

/// Un reporte conciliado no deja exposición, libera las reservas una sola
/// vez, reproduce el P&L desde el ledger y, si ningún fee de venta supera su
/// nocional, pasa todas las invariantes.
pub proof fn reporte_conciliado_cierra_la_ejecucion(rep: ExecutionReport, r: ExecutionRequest)
    requires
        informe_conciliado(rep, r),
    ensures
        rep.state == ExecutionState::Reconciled,
        rep.residual_btc == 0,
        rep.reservation_release_count == 1,
        rep.pnl_usd == rep.ledger_pnl_usd,
        rep.invariants.ledger_reconciled && rep.invariants.fills_unique && rep.invariants.fill_sequences_monotonic,
        costos_cubiertos(r) ==> rep.invariants.all_passed,
        bitacora_valida(rep.transitions@, Some(ExecutionState::Reconciled)),
        rep.transitions@.len() > 0 ==> rep.transitions@[0].to == ExecutionState::Detected,
{
    lema_bitacora_inicio(rep.transitions@, Some(ExecutionState::Reconciled));
}

proof fn lema_bitacora_inicio(t: Seq<ExecutionTransition>, e: Option<ExecutionState>)
    requires
        bitacora_valida(t, e),
    ensures
        t.len() > 0 ==> t[0].to == ExecutionState::Detected,
{
    reveal(bitacora_valida);
    if t.len() > 0 {
        assert(transicion_permitida(t[0].from, t[0].to));
    }
}

/// La misma solicitud con otro escenario.
pub open spec fn con_escenario(r: ExecutionRequest, sc: ExecutionScenario) -> ExecutionRequest {
    ExecutionRequest { scenario: sc, ..r }
}

/// Una respuesta duplicada, un evento fuera de orden, un reinicio o un
/// reintento tras reiniciar no cambian el resultado: los saldos finales, la
/// bitácora de estados y las clases del ledger son los de ambas piernas
/// llenas sin incidentes.
pub proof fn incidentes_no_alteran_el_resultado(r: ExecutionRequest, sc: ExecutionScenario)
    requires
        sc == ExecutionScenario::DuplicateResponse || sc == ExecutionScenario::OutOfOrderEvent
            || sc == ExecutionScenario::RestartDuringExecution
            || sc == ExecutionScenario::IdempotentRetryAfterRestart,
    ensures
        saldos_finales(con_escenario(r, sc)) == saldos_finales(con_escenario(r, ExecutionScenario::BothLegsFilled)),
        compra_final(con_escenario(r, sc)) == compra_final(con_escenario(r, ExecutionScenario::BothLegsFilled)),
        venta_final(con_escenario(r, sc)) == venta_final(con_escenario(r, ExecutionScenario::BothLegsFilled)),
        estados_esperados(con_escenario(r, sc)) == estados_esperados(con_escenario(r, ExecutionScenario::BothLegsFilled)),
        clases_esperadas(sc) == clases_esperadas(ExecutionScenario::BothLegsFilled),
        recuperacion_esperada(con_escenario(r, sc)) is None,
{
}

/// En las unidades del reporte el prorrateo del simulador es exacto: la mitad
/// de la cantidad de una solicitud paga exactamente la mitad de su fee, y la
/// cantidad completa el fee completo.
pub proof fn prorrateo_exacto_en_unidades_del_reporte(fee: int, q: int)
    requires
        fee >= 0,
        q > 0,
    ensures
        mitad(10 * q) * 2 == 10 * q,
        fee_prorrateado(10 * fee, mitad(10 * q), 10 * q) * 2 == 10 * fee,
        fee_prorrateado(10 * fee, 10 * q, 10 * q) == 10 * fee,
{
    assert(mitad(10 * q) == 5 * q);
    assert((10 * fee) * (5 * q) == (5 * fee) * (10 * q)) by (nonlinear_arith);
    vstd::arithmetic::div_mod::lemma_div_by_multiple(5 * fee, 10 * q);
    vstd::arithmetic::div_mod::lemma_div_by_multiple(10 * fee, 10 * q);
}

/// Dos solicitudes con los mismos datos: textos por su contenido y números
/// iguales.
pub open spec fn misma_solicitud(a: ExecutionRequest, b: ExecutionRequest) -> bool {
    &&& a.execution_id@ == b.execution_id@
    &&& a.scenario == b.scenario
    &&& a.buy_wallet.venue@ == b.buy_wallet.venue@
    &&& a.buy_wallet.usd == b.buy_wallet.usd
    &&& a.buy_wallet.btc == b.buy_wallet.btc
    &&& a.sell_wallet.venue@ == b.sell_wallet.venue@
    &&& a.sell_wallet.usd == b.sell_wallet.usd
    &&& a.sell_wallet.btc == b.sell_wallet.btc
    &&& a.quantity_btc == b.quantity_btc
    &&& a.prices == b.prices
    &&& a.costs == b.costs
}

/// Un snapshot con su venue por contenido.
pub open spec fn vista_snapshot(w: WalletSnapshot) -> (Seq<char>, int, int, int, int) {
    (w.venue@, w.usd as int, w.btc as int, w.reserved_usd as int, w.reserved_btc as int)
}

pub open spec fn vista_snapshots(ws: Seq<WalletSnapshot>) -> Seq<(Seq<char>, int, int, int, int)> {
    Seq::new(ws.len(), |i: int| vista_snapshot(ws[i]))
}

/// Todos los campos de un fill, con sus textos por contenido.
pub open spec fn vista_fill(f: ExecutionFill) -> ((ExecutionLeg, OrderSide, int, int, int), (Seq<char>, Seq<char>, int, int), u64) {
    (resumen_fill(f), huella_fill(f), f.exchange_sequence)
}

pub open spec fn vista_fills(fs: Seq<ExecutionFill>) -> Seq<((ExecutionLeg, OrderSide, int, int, int), (Seq<char>, Seq<char>, int, int), u64)> {
    Seq::new(fs.len(), |i: int| vista_fill(fs[i]))
}

/// Todos los campos de una transición, con su texto por contenido.
pub open spec fn vista_transicion(t: ExecutionTransition) -> (u64, Option<ExecutionState>, ExecutionState, Seq<char>) {
    (t.sequence, t.from, t.to, t.detail@)
}

pub open spec fn vista_transiciones(t: Seq<ExecutionTransition>) -> Seq<(u64, Option<ExecutionState>, ExecutionState, Seq<char>)> {
    Seq::new(t.len(), |i: int| vista_transicion(t[i]))
}

/// Secuencias de las entradas del ledger, en orden.
pub open spec fn secuencias_ledger(l: Seq<WalletLedgerEntry>) -> Seq<u64> {
    Seq::new(l.len(), |i: int| l[i].sequence)
}

/// Dos reportes iguales campo por campo, con textos por contenido.
pub open spec fn mismo_informe(a: ExecutionReport, b: ExecutionReport) -> bool {
    &&& a.execution_id@ == b.execution_id@
    &&& a.scenario == b.scenario
    &&& a.state == b.state
    &&& vista_snapshots(a.wallets_before@) == vista_snapshots(b.wallets_before@)
    &&& vista_snapshots(a.wallets_after@) == vista_snapshots(b.wallets_after@)
    &&& vista_fills(a.fills@) == vista_fills(b.fills@)
    &&& asientos(a.ledger@) == asientos(b.ledger@)
    &&& secuencias_ledger(a.ledger@) == secuencias_ledger(b.ledger@)
    &&& vista_transiciones(a.transitions@) == vista_transiciones(b.transitions@)
    &&& a.pnl_usd == b.pnl_usd
    &&& a.ledger_pnl_usd == b.ledger_pnl_usd
    &&& a.residual_before_recovery_btc == b.residual_before_recovery_btc
    &&& a.residual_btc == b.residual_btc
    &&& a.selected_recovery == b.selected_recovery
    &&& a.invariants == b.invariants
    &&& a.duplicates_ignored == b.duplicates_ignored
    &&& a.out_of_order_ignored == b.out_of_order_ignored
    &&& a.reservation_release_count == b.reservation_release_count
    &&& a.reservation_retries_ignored == b.reservation_retries_ignored
    &&& a.restart_performed == b.restart_performed
    &&& a.retry_performed == b.retry_performed
    &&& a.state_rehydrated == b.state_rehydrated
}

/// El reporte conciliado es función de la solicitud: dos reportes conciliados
/// de solicitudes con los mismos datos coinciden en cada campo.
#[verifier::rlimit(60)]
pub proof fn informe_reproducible(r1: ExecutionRequest, r2: ExecutionRequest, a: ExecutionReport, b: ExecutionReport)
    requires
        misma_solicitud(r1, r2),
        informe_conciliado(a, r1),
        informe_conciliado(b, r2),
    ensures
        mismo_informe(a, b),
{
    lema_mismos_datos(r1, r2);
    assert(vista_snapshots(a.wallets_before@) =~= vista_snapshots(b.wallets_before@));
    assert(vista_snapshots(a.wallets_after@) =~= vista_snapshots(b.wallets_after@));
    let n = a.fills@.len();
    assert forall|i: int| 0 <= i < n implies #[trigger] vista_fill(a.fills@[i]) == vista_fill(b.fills@[i]) by {
        assert(resumenes(a.fills@)[i] == resumenes(b.fills@)[i]);
        assert(huellas(a.fills@)[i] == huellas(b.fills@)[i]);
    }
    assert(vista_fills(a.fills@) =~= vista_fills(b.fills@));
    assert forall|i: int| 0 <= i < n implies #[trigger] asiento_de_fill(a.fills@[i]) == asiento_de_fill(b.fills@[i]) by {
        assert(vista_fill(a.fills@[i]) == vista_fill(b.fills@[i]));
    }
    assert(asientos_de_fills(a.fills@) =~= asientos_de_fills(b.fills@));
    assert(secuencias_ledger(a.ledger@) =~= secuencias_ledger(b.ledger@)) by {
        assert(clases(a.ledger@).len() == clases(b.ledger@).len());
    }
    reveal(bitacora_valida);
    let m = a.transitions@.len();
    assert(destinos(a.transitions@).len() == destinos(b.transitions@).len());
    assert forall|i: int| 0 <= i < m implies #[trigger] vista_transicion(a.transitions@[i]) == vista_transicion(b.transitions@[i]) by {
        assert(destinos(a.transitions@)[i] == destinos(b.transitions@)[i]);
        if i > 0 {
            assert(destinos(a.transitions@)[i - 1] == destinos(b.transitions@)[i - 1]);
        }
    }
    assert(vista_transiciones(a.transitions@) =~= vista_transiciones(b.transitions@));
}

/// Lo que el reporte esperado toma de la solicitud coincide entre solicitudes
/// con los mismos datos.
#[verifier::rlimit(80)]
proof fn lema_mismos_datos(r1: ExecutionRequest, r2: ExecutionRequest)
    requires
        misma_solicitud(r1, r2),
    ensures
        estados_esperados(r1) == estados_esperados(r2),
        fills_de_escenario(r1) == fills_de_escenario(r2),
        huellas_de_escenario(r1) == huellas_de_escenario(r2),
        recuperacion_esperada(r1) == recuperacion_esperada(r2),
        residuo_previo_esperado(r1) == residuo_previo_esperado(r2),
        saldos_finales(r1) == saldos_finales(r2),
        liberacion_esperada(r1) == liberacion_esperada(r2),
        asiento_reserva(r1) == asiento_reserva(r2),
        asiento_conciliacion(r1) == asiento_conciliacion(r2),
        vista_snapshots(ordenadas(snapshot_inicial(r1.buy_wallet), snapshot_inicial(r1.sell_wallet)))
            == vista_snapshots(ordenadas(snapshot_inicial(r2.buy_wallet), snapshot_inicial(r2.sell_wallet))),
        vista_snapshots(ordenadas(compra_final(r1), venta_final(r1)))
            == vista_snapshots(ordenadas(compra_final(r2), venta_final(r2))),
{
    assert(vista_snapshots(ordenadas(snapshot_inicial(r1.buy_wallet), snapshot_inicial(r1.sell_wallet)))
        =~= vista_snapshots(ordenadas(snapshot_inicial(r2.buy_wallet), snapshot_inicial(r2.sell_wallet))));
    assert(vista_snapshots(ordenadas(compra_final(r1), venta_final(r1)))
        =~= vista_snapshots(ordenadas(compra_final(r2), venta_final(r2))));
}


/// La matriz estándar es reproducible: los reportes de un mismo escenario de
/// dos llamadas, cada uno conciliado contra una solicitud de la matriz,
/// coinciden en cada campo.
pub proof fn matriz_reproducible(
    a: ExecutionReport,
    b: ExecutionReport,
    ra: ExecutionRequest,
    rb: ExecutionRequest,
    sc: ExecutionScenario,
)
    requires
        es_solicitud_de_matriz(ra, sc),
        es_solicitud_de_matriz(rb, sc),
        informe_conciliado(a, escalada(ra)),
        informe_conciliado(b, escalada(rb)),
    ensures
        mismo_informe(a, b),
{
    assert(misma_solicitud(escalada(ra), escalada(rb)));
    informe_reproducible(escalada(ra), escalada(rb), a, b);
}

/// Con las dos recuperaciones factibles, un residuo largo se cierra vendiendo
/// con la que deja más caja neta (cantidad × precio − costo) y uno corto
/// comprando con la que menos desembolsa (cantidad × precio + costo); en
/// empate gana el rehedge. Así un costo mayor nunca hace más atractiva una
/// acción.
pub proof fn recuperacion_por_caja_neta(r: ExecutionRequest, compra: WalletSnapshot, venta: WalletSnapshot, res: int)
    requires
        res != 0,
        factible(r, compra, venta, RecoveryAction::Rehedge, res),
        factible(r, compra, venta, RecoveryAction::Unwind, res),
    ensures
        res > 0 ==> (eleccion(r, compra, venta, res) == Some(RecoveryAction::Rehedge) <==> res
            * r.prices.rehedge_price_usd - r.costs.rehedge_cost_usd >= res * r.prices.unwind_price_usd
            - r.costs.unwind_cost_usd),
        res < 0 ==> (eleccion(r, compra, venta, res) == Some(RecoveryAction::Rehedge) <==> -res
            * r.prices.rehedge_price_usd + r.costs.rehedge_cost_usd <= -res * r.prices.unwind_price_usd
            + r.costs.unwind_cost_usd),
        eleccion(r, compra, venta, res) is Some,
{
}

/// Si se elige el unwind, encarecer el costo del rehedge no cambia la
/// elección.
pub proof fn costo_mayor_no_atrae(r: ExecutionRequest, compra: WalletSnapshot, venta: WalletSnapshot, res: int, extra: int)
    requires
        res != 0,
        extra >= 0,
        factible(r, compra, venta, RecoveryAction::Rehedge, res),
        factible(r, compra, venta, RecoveryAction::Unwind, res),
        eleccion(r, compra, venta, res) == Some(RecoveryAction::Unwind),
        r.costs.rehedge_cost_usd + extra <= i128::MAX,
    ensures
        ({
            let r2 = ExecutionRequest {
                costs: ExecutionCosts { rehedge_cost_usd: (r.costs.rehedge_cost_usd + extra) as i128, ..r.costs },
                ..r
            };
            eleccion(r2, compra, venta, res) == Some(RecoveryAction::Unwind)
        }),
{
}

/// Caja que mueve un fill: una venta cobra cantidad × precio menos el fee y
/// una compra paga cantidad × precio más el fee.
pub open spec fn caja_de_fill(f: ExecutionFill) -> int {
    let q = f.quantity_btc as int;
    let p = f.price_usd as int;
    match f.side {
        OrderSide::Sell => q * p - f.fee_usd,
        OrderSide::Buy => -(q * p + f.fee_usd),
    }
}

/// Caja total de los fills.
pub open spec fn caja_de_fills(fs: Seq<ExecutionFill>) -> int
    decreases fs.len(),
{
    if fs.len() == 0 {
        0
    } else {
        caja_de_fills(fs.drop_last()) + caja_de_fill(fs.last())
    }
}

proof fn lema_caja_dos(fs: Seq<ExecutionFill>)
    requires
        fs.len() == 2,
    ensures
        caja_de_fills(fs) == caja_de_fill(fs[0]) + caja_de_fill(fs[1]),
{
    assert(fs.drop_last().drop_last() =~= Seq::<ExecutionFill>::empty());
    assert(caja_de_fills(fs.drop_last()) == caja_de_fills(fs.drop_last().drop_last()) + caja_de_fill(fs[0]));
}

proof fn lema_caja_tres(fs: Seq<ExecutionFill>)
    requires
        fs.len() == 3,
    ensures
        caja_de_fills(fs) == caja_de_fill(fs[0]) + caja_de_fill(fs[1]) + caja_de_fill(fs[2]),
{
    lema_caja_dos(fs.drop_last());
}

/// Un reporte conciliado cuadra: el P&L es la caja neta de sus fills (ventas
/// menos fee, compras más fee), y el BTC total de las wallets no cambia.
pub proof fn conciliado_cuadra_caja_y_btc(rep: ExecutionReport, r: ExecutionRequest)
    requires
        informe_conciliado(rep, r),
        solicitud_valida(r),
        solicitud_acotada(r),
    ensures
        rep.pnl_usd == caja_de_fills(rep.fills@),
        rep.wallets_after@[0].btc + rep.wallets_after@[1].btc == rep.wallets_before@[0].btc
            + rep.wallets_before@[1].btc,
{
    let sc = r.scenario;
    let f = rep.fills@;
    assert forall|i: int| 0 <= i < f.len() implies #[trigger] resumen_fill(f[i]) == fills_de_escenario(r)[i] by {
        assert(resumenes(f)[i] == resumen_fill(f[i]));
    }
    if f.len() == 2 {
        lema_caja_dos(f);
    } else {
        lema_caja_tres(f);
    }
    let q = r.quantity_btc as int;
    let h = mitad(q);
    assert(0 <= h <= q);
    let s = saldos_finales(r);
    assert(r.buy_wallet.btc + q + q <= 3 * LIMITE_CANTIDAD);
    assert(-LIMITE_CANTIDAD <= s.1 <= 3 * LIMITE_CANTIDAD);
    assert(-LIMITE_CANTIDAD <= s.3 <= 3 * LIMITE_CANTIDAD);
    assert(s.1 + s.3 == r.buy_wallet.btc + r.sell_wallet.btc);
}

/// El fee prorrateado redondea hacia abajo la parte proporcional del fee:
/// es el mayor entero `f` con `f × pedido ≤ fee × llenado`.
pub proof fn fee_prorrateado_redondea_hacia_abajo(total: int, filled: int, requested: int)
    requires
        0 <= total,
        0 <= filled,
        requested > 0,
    ensures
        fee_prorrateado(total, filled, requested) * requested <= total * filled,
        total * filled < (fee_prorrateado(total, filled, requested) + 1) * requested,
{
    let f = fee_prorrateado(total, filled, requested);
    let p = total * filled;
    vstd::arithmetic::div_mod::lemma_fundamental_div_mod(p, requested);
    assert(f * requested <= p && p < (f + 1) * requested) by (nonlinear_arith)
        requires
            f == p / requested,
            p == requested * (p / requested) + p % requested,
            0 <= p % requested < requested,
    ;
}

/// La reserva cubre el nocional de la primera pierna con su fee en el venue
/// de compra y la cantidad de BTC en el de venta: se puede reservar si y
/// sólo si ambos saldos alcanzan.
pub proof fn reserva_cubre_ambas_piernas(r: ExecutionRequest)
    ensures
        reservable(r) <==> r.buy_wallet.usd >= r.quantity_btc * r.prices.leg1_buy_price_usd + r.costs.leg1_fee_usd
            && r.sell_wallet.btc >= r.quantity_btc,
{
}

/// Cada regla de validación rechaza la solicitud por sí sola: identificador o
/// venues en blanco, venues iguales, cantidad o precios no positivos, saldos o
/// costos negativos.
pub proof fn reglas_de_validacion(r: ExecutionRequest)
    ensures
        crate::texto::en_blanco(r.execution_id@) ==> !solicitud_valida(r),
        crate::texto::en_blanco(r.buy_wallet.venue@) || crate::texto::en_blanco(r.sell_wallet.venue@)
            ==> !solicitud_valida(r),
        r.buy_wallet.venue@ == r.sell_wallet.venue@ ==> !solicitud_valida(r),
        r.quantity_btc <= 0 ==> !solicitud_valida(r),
        r.prices.leg1_buy_price_usd <= 0 || r.prices.leg2_sell_price_usd <= 0 || r.prices.rehedge_price_usd <= 0
            || r.prices.unwind_price_usd <= 0 ==> !solicitud_valida(r),
        r.buy_wallet.usd < 0 || r.buy_wallet.btc < 0 || r.sell_wallet.usd < 0 || r.sell_wallet.btc < 0
            ==> !solicitud_valida(r),
        r.costs.leg1_fee_usd < 0 || r.costs.leg2_fee_usd < 0 || r.costs.rehedge_cost_usd < 0
            || r.costs.unwind_cost_usd < 0 ==> !solicitud_valida(r),
        !crate::texto::en_blanco(r.execution_id@) && !crate::texto::en_blanco(r.buy_wallet.venue@)
            && !crate::texto::en_blanco(r.sell_wallet.venue@) && r.buy_wallet.venue@ != r.sell_wallet.venue@
            && r.quantity_btc > 0 && r.prices.leg1_buy_price_usd > 0 && r.prices.leg2_sell_price_usd > 0
            && r.prices.rehedge_price_usd > 0 && r.prices.unwind_price_usd > 0 && r.buy_wallet.usd >= 0
            && r.buy_wallet.btc >= 0 && r.sell_wallet.usd >= 0 && r.sell_wallet.btc >= 0
            && r.costs.leg1_fee_usd >= 0 && r.costs.leg2_fee_usd >= 0 && r.costs.rehedge_cost_usd >= 0
            && r.costs.unwind_cost_usd >= 0 ==> solicitud_valida(r),
{
}

} // verus!

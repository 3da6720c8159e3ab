use mayab_arbitrage::execution::{
    allowed_transition, simulate, standard_matrix, standard_request,
    validate_request, ExecutionError, ExecutionLeg, ExecutionScenario, ExecutionState,
    LedgerEntryKind, OrderSide, RecoveryAction,
    UNIDADES_POR_BTC, UNIDADES_POR_USD, UNIDADES_POR_USD_PRECIO, UNIDADES_REPORTE_BTC,
    UNIDADES_REPORTE_USD,
};

fn request(scenario: ExecutionScenario) -> mayab_arbitrage::execution::ExecutionRequest {
    standard_request(scenario)
}

#[test]
fn matriz_de_doce_escenarios_concilia_todas_las_invariantes() {
    let reports = standard_matrix().expect("la matriz completa debe reconciliarse");
    assert_eq!(reports.len(), ExecutionScenario::ALL.len());

    for report in reports {
        let scenario = report.scenario;
        assert_eq!(report.state, ExecutionState::Reconciled, "{scenario:?}");
        assert_eq!(report.residual_btc, 0, "{scenario:?}");
        assert_eq!(report.reservation_release_count, 1, "{scenario:?}");
        assert_eq!(report.pnl_usd, report.ledger_pnl_usd, "{scenario:?}");
        assert!(report.invariants.all_passed, "{scenario:?}: {report:#?}");
    }
}

#[test]
fn respuestas_duplicadas_y_fuera_de_orden_no_se_aplican() {
    let duplicate = simulate(request(ExecutionScenario::DuplicateResponse))
        .expect("duplicado debe ignorarse");
    assert_eq!(duplicate.duplicates_ignored, 1);
    assert_eq!(duplicate.fills.len(), 2);

    let out_of_order = simulate(request(ExecutionScenario::OutOfOrderEvent))
        .expect("evento fuera de orden debe ignorarse");
    assert_eq!(out_of_order.out_of_order_ignored, 1);
    assert_eq!(out_of_order.fills.len(), 2);
}

#[test]
fn reinicio_y_reintento_preservan_idempotencia_y_reservas() {
    let restart = simulate(request(ExecutionScenario::RestartDuringExecution))
        .expect("debe rehidratar ejecución");
    assert!(restart.restart_performed);
    assert!(restart.state_rehydrated);
    assert_eq!(restart.duplicates_ignored, 0);

    let retry = simulate(request(ExecutionScenario::IdempotentRetryAfterRestart))
        .expect("reintento debe ser idempotente");
    assert!(retry.restart_performed);
    assert!(retry.retry_performed);
    assert!(retry.state_rehydrated);
    assert_eq!(retry.duplicates_ignored, 1);
    assert_eq!(retry.reservation_retries_ignored, 1);
    assert_eq!(retry.reservation_release_count, 1);
    assert!(retry.invariants.all_passed);
}

#[test]
fn selector_elige_rehedge_y_unwind_por_costo() {
    let mut rehedge = request(ExecutionScenario::RehedgeCheaper);
    rehedge.prices.rehedge_price_usd = 50_050 * UNIDADES_POR_USD_PRECIO;
    rehedge.prices.unwind_price_usd = 49_950 * UNIDADES_POR_USD_PRECIO;
    rehedge.costs.rehedge_cost_usd = UNIDADES_POR_USD;
    rehedge.costs.unwind_cost_usd = 10 * UNIDADES_POR_USD;
    let rehedge_report = simulate(rehedge).expect("rehedge debe ser factible");
    assert_eq!(rehedge_report.selected_recovery, Some(RecoveryAction::Rehedge));

    let mut unwind = request(ExecutionScenario::UnwindCheaper);
    unwind.prices.rehedge_price_usd = 49_950 * UNIDADES_POR_USD_PRECIO;
    unwind.prices.unwind_price_usd = 50_050 * UNIDADES_POR_USD_PRECIO;
    unwind.costs.rehedge_cost_usd = 10 * UNIDADES_POR_USD;
    unwind.costs.unwind_cost_usd = UNIDADES_POR_USD;
    let unwind_report = simulate(unwind).expect("unwind debe ser factible");
    assert_eq!(unwind_report.selected_recovery, Some(RecoveryAction::Unwind));
}

#[test]
fn solicitud_invalida_falla_sin_mutar_estado_externo() {
    let mut invalid = request(ExecutionScenario::BothLegsFilled);
    invalid.quantity_btc = 0;
    assert!(matches!(
        simulate(invalid),
        Err(ExecutionError::InvalidRequest { .. })
    ));
}

#[test]
fn nombres_estables_de_escenarios_y_estados() {
    assert_eq!(ExecutionScenario::BothLegsFilled.as_str(), "both_legs_filled");
    assert_eq!(
        ExecutionScenario::IdempotentRetryAfterRestart.as_str(),
        "idempotent_retry_after_restart"
    );
    assert_eq!(ExecutionState::Leg2TimedOut.as_str(), "LEG2_TIMED_OUT");
    assert_eq!(ExecutionState::Reconciled.as_str(), "RECONCILED");
    assert_eq!(ExecutionScenario::all().len(), 12);
}

#[test]
fn maquina_de_estados_solo_avanza_por_transiciones_permitidas() {
    assert!(allowed_transition(None, ExecutionState::Detected));
    assert!(!allowed_transition(None, ExecutionState::Reserved));
    assert!(allowed_transition(Some(ExecutionState::Leg1Filled), ExecutionState::RecoverySelected));
    assert!(allowed_transition(Some(ExecutionState::Leg2Rejected), ExecutionState::Reconciled));
    assert!(!allowed_transition(Some(ExecutionState::Reconciled), ExecutionState::Detected));
    assert!(!allowed_transition(Some(ExecutionState::Reserved), ExecutionState::Leg2Submitted));
}

#[test]
fn validacion_rechaza_venues_iguales_y_negativos() {
    let mut r = request(ExecutionScenario::BothLegsFilled);
    assert!(validate_request(&r).is_ok());
    r.sell_wallet.venue = "BUY".to_string();
    assert!(matches!(validate_request(&r), Err(ExecutionError::InvalidRequest { .. })));
    let mut r = request(ExecutionScenario::BothLegsFilled);
    r.execution_id = "  ".to_string();
    assert!(matches!(simulate(r), Err(ExecutionError::InvalidRequest { .. })));
    let mut r = request(ExecutionScenario::BothLegsFilled);
    r.costs.leg2_fee_usd = -1;
    assert!(matches!(simulate(r), Err(ExecutionError::InvalidRequest { .. })));
}

#[test]
fn saldo_insuficiente_para_reservar() {
    let mut r = request(ExecutionScenario::BothLegsFilled);
    r.buy_wallet.usd = 1_000 * UNIDADES_POR_USD;
    match simulate(r) {
        Err(ExecutionError::InsufficientBalance { venue, asset, .. }) => {
            assert_eq!(venue, "BUY");
            assert_eq!(asset, "USD");
        }
        other => panic!("se esperaba saldo insuficiente: {other:?}"),
    }
    let mut r = request(ExecutionScenario::BothLegsFilled);
    r.sell_wallet.btc = UNIDADES_POR_BTC / 2;
    assert!(matches!(
        simulate(r),
        Err(ExecutionError::InsufficientBalance { .. })
    ));
}

#[test]
fn pnl_exacto_de_ambas_piernas() {
    let report = simulate(request(ExecutionScenario::BothLegsFilled)).unwrap();
    // vende 1 BTC a 50 100 y compra a 50 000 con 5 + 5 USD de fees.
    assert_eq!(report.pnl_usd, 90 * UNIDADES_REPORTE_USD);
    assert_eq!(report.fills.len(), 2);
    assert_eq!(report.selected_recovery, None);
    assert_eq!(report.wallets_before[0].venue, "BUY");
    assert_eq!(report.wallets_after[1].venue, "SELL");
    assert_eq!(report.wallets_after[0].btc, 2 * UNIDADES_REPORTE_BTC);
    assert_eq!(report.wallets_after[1].btc, UNIDADES_REPORTE_BTC);
    assert_eq!(report.transitions.len(), 7);
    assert_eq!(report.ledger.len(), 5);
}

#[test]
fn segunda_pierna_fallida_se_recubre_con_rehedge() {
    let report = simulate(request(ExecutionScenario::Leg1FilledLeg2Failed)).unwrap();
    assert_eq!(report.selected_recovery, Some(RecoveryAction::Rehedge));
    assert_eq!(report.residual_before_recovery_btc, UNIDADES_REPORTE_BTC);
    // vende 1 BTC a 50 020 con 6 USD de costo tras comprar a 50 000 con 5.
    assert_eq!(report.pnl_usd, 9 * UNIDADES_REPORTE_USD);
    assert!(report.invariants.all_passed);
}

#[test]
fn pierna_parcial_se_recubre_comprando_el_faltante() {
    let report = simulate(request(ExecutionScenario::Leg1PartialLeg2Filled)).unwrap();
    assert_eq!(report.residual_before_recovery_btc, -(UNIDADES_REPORTE_BTC / 2));
    assert_eq!(report.selected_recovery, Some(RecoveryAction::Unwind));
    assert_eq!(report.fills.len(), 3);
    assert_eq!(report.residual_btc, 0);
}

#[test]
fn cantidad_minima_admite_piernas_parciales_exactas() {
    // 1e-8 BTC se parte en dos piernas de 5e-9 BTC, con medio fee cada una.
    let mut r = request(ExecutionScenario::BothLegsPartial);
    r.quantity_btc = 1;
    let report = simulate(r).unwrap();
    assert_eq!(report.fills.len(), 2);
    assert_eq!(report.fills[0].quantity_btc, 5);
    assert_eq!(report.fills[1].quantity_btc, 5);
    assert_eq!(report.fills[0].fee_usd, 5 * UNIDADES_REPORTE_USD / 2);
    assert_eq!(report.residual_btc, 0);
    assert!(report.invariants.all_passed);

    let mut r = request(ExecutionScenario::Leg1PartialLeg2Filled);
    r.quantity_btc = 1;
    let report = simulate(r).unwrap();
    assert_eq!(report.residual_before_recovery_btc, -5);
    assert_eq!(report.residual_btc, 0);
}

#[test]
fn fee_de_venta_mayor_al_nocional_marca_saldo_negativo() {
    let mut r = request(ExecutionScenario::BothLegsFilled);
    r.sell_wallet.usd = 0;
    r.prices.leg2_sell_price_usd = 1;
    r.costs.leg2_fee_usd = 10 * UNIDADES_POR_USD;
    let report = simulate(r).unwrap();
    assert!(!report.invariants.no_negative_balances);
    assert!(!report.invariants.all_passed);
    assert!(report.invariants.ledger_reconciled);
    assert_eq!(report.pnl_usd, report.ledger_pnl_usd);
}

#[test]
fn bitacora_y_ledger_secuenciados() {
    let report = simulate(request(ExecutionScenario::TimeoutAfterLeg2)).unwrap();
    let estados: Vec<&str> = report.transitions.iter().map(|t| t.to.as_str()).collect();
    assert_eq!(
        estados,
        vec![
            "DETECTED",
            "RESERVED",
            "LEG1_SUBMITTED",
            "LEG1_FILLED",
            "LEG2_SUBMITTED",
            "LEG2_TIMED_OUT",
            "RECOVERY_SELECTED",
            "RECONCILED"
        ]
    );
    for (i, t) in report.transitions.iter().enumerate() {
        assert_eq!(t.sequence, i as u64 + 1);
    }
    for (i, e) in report.ledger.iter().enumerate() {
        assert_eq!(e.sequence, i as u64 + 1);
    }
    assert_eq!(report.fills[0].fill_id, "forensic-timeout_after_leg2-leg1-fill");
    assert_eq!(report.fills[1].fill_id, "forensic-timeout_after_leg2-rehedge-fill");
}

#[test]
fn mensajes_de_error_legibles() {
    let mut r = request(ExecutionScenario::BothLegsFilled);
    r.buy_wallet.usd = 1_000 * UNIDADES_POR_USD;
    let error = simulate(r).unwrap_err();
    assert_eq!(
        error.to_string(),
        "saldo insuficiente en BUY: requiere 50005 USD, disponible 1000"
    );

    let mut r = request(ExecutionScenario::BothLegsFilled);
    r.sell_wallet.btc = UNIDADES_POR_BTC / 2;
    assert_eq!(
        simulate(r).unwrap_err().to_string(),
        "saldo insuficiente en SELL: requiere 1 BTC, disponible 0.5"
    );

    let residuo = ExecutionError::UnreconciledResidual { residual_btc: -1_500_000_000 };
    assert_eq!(residuo.to_string(), "exposición residual no conciliada: -1.5 BTC");
    let sin_salida = ExecutionError::NoFeasibleRecovery { residual_btc: 1 };
    assert_eq!(sin_salida.to_string(), "no existe recuperación factible para 0.000000001 BTC");
    let transicion = ExecutionError::InvalidTransition {
        from: Some(ExecutionState::Reconciled),
        to: ExecutionState::Detected,
    };
    assert_eq!(transicion.to_string(), "transición inválida: Some(Reconciled) -> Detected");
    let inicial = ExecutionError::InvalidTransition { from: None, to: ExecutionState::Reserved };
    assert_eq!(inicial.to_string(), "transición inválida: None -> Reserved");
    let fraccion = ExecutionError::InsufficientBalance {
        venue: "X".to_string(),
        asset: "USD".to_string(),
        required: 125_000_000_000_000_000,
        available: 0,
    };
    assert_eq!(fraccion.to_string(), "saldo insuficiente en X: requiere 1.25 USD, disponible 0");

    let mut r = request(ExecutionScenario::BothLegsFilled);
    r.quantity_btc = 0;
    assert!(simulate(r).unwrap_err().to_string().starts_with("solicitud inválida: "));
}

#[test]
fn bitacora_y_ledger_siguen_el_escenario() {
    let estados = |sc: ExecutionScenario| -> Vec<ExecutionState> {
        simulate(request(sc)).unwrap().transitions.iter().map(|t| t.to).collect()
    };
    assert_eq!(
        estados(ExecutionScenario::BothLegsFilled),
        vec![ExecutionState::Detected, ExecutionState::Reserved, ExecutionState::Leg1Submitted, ExecutionState::Leg1Filled, ExecutionState::Leg2Submitted, ExecutionState::Leg2Filled, ExecutionState::Reconciled]
    );
    assert_eq!(
        estados(ExecutionScenario::TimeoutBeforeLeg2),
        vec![ExecutionState::Detected, ExecutionState::Reserved, ExecutionState::Leg1Submitted, ExecutionState::Leg1Filled, ExecutionState::RecoverySelected, ExecutionState::Reconciled]
    );
    assert_eq!(
        estados(ExecutionScenario::TimeoutAfterLeg2),
        vec![
            ExecutionState::Detected, ExecutionState::Reserved, ExecutionState::Leg1Submitted, ExecutionState::Leg1Filled, ExecutionState::Leg2Submitted, ExecutionState::Leg2TimedOut,
            ExecutionState::RecoverySelected, ExecutionState::Reconciled
        ]
    );
    assert_eq!(
        estados(ExecutionScenario::Leg1PartialLeg2Filled),
        vec![
            ExecutionState::Detected, ExecutionState::Reserved, ExecutionState::Leg1Submitted, ExecutionState::Leg1Partial, ExecutionState::Leg2Submitted, ExecutionState::Leg2Filled,
            ExecutionState::RecoverySelected, ExecutionState::Reconciled
        ]
    );
    let report = simulate(request(ExecutionScenario::Leg1PartialLeg2Filled)).unwrap();
    let clases: Vec<LedgerEntryKind> = report.ledger.iter().map(|e| e.kind).collect();
    assert_eq!(
        clases,
        vec![
            LedgerEntryKind::Reservation,
            LedgerEntryKind::Fill,
            LedgerEntryKind::Fill,
            LedgerEntryKind::Fill,
            LedgerEntryKind::ReservationRelease,
            LedgerEntryKind::Reconciliation,
        ]
    );
}

#[test]
fn incidentes_dejan_los_mismos_saldos_que_el_caso_limpio() {
    let limpio = simulate(request(ExecutionScenario::BothLegsFilled)).unwrap();
    for sc in [
        ExecutionScenario::DuplicateResponse,
        ExecutionScenario::OutOfOrderEvent,
        ExecutionScenario::RestartDuringExecution,
        ExecutionScenario::IdempotentRetryAfterRestart,
    ] {
        let report = simulate(request(sc)).unwrap();
        assert_eq!(report.pnl_usd, limpio.pnl_usd, "{sc:?}");
        for i in 0..2 {
            assert_eq!(report.wallets_after[i].usd, limpio.wallets_after[i].usd, "{sc:?}");
            assert_eq!(report.wallets_after[i].btc, limpio.wallets_after[i].btc, "{sc:?}");
        }
        assert_eq!(report.transitions.len(), limpio.transitions.len(), "{sc:?}");
        assert_eq!(report.ledger.len(), limpio.ledger.len(), "{sc:?}");
    }
}

#[test]
fn fills_del_reporte_por_escenario() {
    let parcial = simulate(request(ExecutionScenario::BothLegsPartial)).unwrap();
    let mitad = UNIDADES_REPORTE_BTC / 2;
    assert_eq!(parcial.fills.len(), 2);
    assert_eq!(parcial.fills[0].leg, ExecutionLeg::Leg1);
    assert_eq!(parcial.fills[0].side, OrderSide::Buy);
    assert_eq!(parcial.fills[0].quantity_btc, mitad);
    assert_eq!(parcial.fills[0].price_usd, 50_000 * UNIDADES_POR_USD_PRECIO);
    // la mitad del fee de 5 USD
    assert_eq!(parcial.fills[0].fee_usd, 5 * UNIDADES_REPORTE_USD / 2);
    assert_eq!(parcial.fills[1].leg, ExecutionLeg::Leg2);
    assert_eq!(parcial.fills[1].side, OrderSide::Sell);
    assert_eq!(parcial.fills[1].quantity_btc, mitad);
    assert_eq!(parcial.fills[1].price_usd, 50_100 * UNIDADES_POR_USD_PRECIO);

    let timeout = simulate(request(ExecutionScenario::TimeoutBeforeLeg2)).unwrap();
    assert_eq!(timeout.fills.len(), 2);
    let recuperacion = &timeout.fills[1];
    assert_eq!(recuperacion.leg, ExecutionLeg::Recovery);
    assert_eq!(recuperacion.side, OrderSide::Sell);
    assert_eq!(recuperacion.quantity_btc, UNIDADES_REPORTE_BTC);
    match timeout.selected_recovery {
        Some(RecoveryAction::Rehedge) => {
            assert_eq!(recuperacion.price_usd, 50_020 * UNIDADES_POR_USD_PRECIO);
            assert_eq!(recuperacion.fee_usd, 6 * UNIDADES_REPORTE_USD);
        }
        Some(RecoveryAction::Unwind) => {
            assert_eq!(recuperacion.price_usd, 49_980 * UNIDADES_POR_USD_PRECIO);
            assert_eq!(recuperacion.fee_usd, 7 * UNIDADES_REPORTE_USD);
        }
        None => panic!("se esperaba una recuperación"),
    }
}

#[test]
fn recuperacion_imposible_deja_la_ejecucion_sin_conciliar() {
    let mut r = request(ExecutionScenario::Leg1PartialLeg2Filled);
    // la compra queda con 25 002.5 USD tras media primera pierna: no alcanza
    // para recomprar 0.5 BTC a 50 020 + 6 USD; la venta no tiene USD para
    // recomprar a 200 000.
    r.buy_wallet.usd = 50_005 * UNIDADES_POR_USD;
    r.sell_wallet.usd = 0;
    r.prices.unwind_price_usd = 200_000 * UNIDADES_POR_USD_PRECIO;
    match simulate(r) {
        Err(ExecutionError::NoFeasibleRecovery { residual_btc }) => {
            assert_eq!(residual_btc, -UNIDADES_REPORTE_BTC / 2)
        }
        other => panic!("se esperaba recuperación imposible: {other:?}"),
    }
}

#[test]
fn la_matriz_sigue_el_orden_de_los_escenarios() {
    assert_eq!(ExecutionScenario::all(), ExecutionScenario::ALL.to_vec());
    let reports = standard_matrix().unwrap();
    for (report, sc) in reports.iter().zip(ExecutionScenario::ALL) {
        assert_eq!(report.scenario, sc);
        assert_eq!(report.execution_id, format!("forensic-{}", sc.as_str()));
    }
}

#[test]
fn snapshot_desde_wallet_inicial_sin_reservas() {
    let w = mayab_arbitrage::execution::InitialWallet { venue: "BUY".to_string(), usd: 7, btc: 3 };
    let s = mayab_arbitrage::execution::WalletSnapshot::from(w);
    assert_eq!((s.venue.as_str(), s.usd, s.btc, s.reserved_usd, s.reserved_btc), ("BUY", 7, 3, 0, 0));
}

#[test]
fn reporte_completo_de_ambas_piernas() {
    let report = simulate(request(ExecutionScenario::BothLegsFilled)).unwrap();
    let usd = UNIDADES_REPORTE_USD;
    let btc = UNIDADES_REPORTE_BTC;
    let detalles: Vec<&str> = report.transitions.iter().map(|t| t.detail.as_str()).collect();
    assert_eq!(
        detalles,
        vec![
            "oportunidad detectada",
            "capital reservado",
            "primera pierna enviada",
            "fill de primera pierna aplicado exactamente una vez",
            "segunda pierna enviada",
            "fill de segunda pierna aplicado exactamente una vez",
            "wallets, fills, reservas y ledger conciliados",
        ]
    );
    assert_eq!(report.transitions[0].from, None);
    assert_eq!(report.transitions[3].from, Some(ExecutionState::Leg1Submitted));

    assert_eq!(report.fills[0].fill_id, "forensic-both_legs_filled-leg1-fill");
    assert_eq!(report.fills[0].venue, "BUY");
    assert_eq!(report.fills[0].exchange_sequence, 1);
    assert_eq!(report.fills[0].reservation_consumed_usd, 50_005 * usd);
    assert_eq!(report.fills[0].reservation_consumed_btc, 0);
    assert_eq!(report.fills[1].fill_id, "forensic-both_legs_filled-leg2-fill");
    assert_eq!(report.fills[1].venue, "SELL");
    assert_eq!(report.fills[1].exchange_sequence, 2);
    assert_eq!(report.fills[1].reservation_consumed_usd, 0);
    assert_eq!(report.fills[1].reservation_consumed_btc, btc);

    let ledger = &report.ledger;
    assert_eq!(ledger[0].reference, "forensic-both_legs_filled");
    assert_eq!(ledger[0].detail, "USD de compra y BTC de venta reservados");
    assert_eq!(ledger[0].deltas.len(), 2);
    assert_eq!(ledger[0].deltas[0].venue, "BUY");
    assert_eq!(ledger[0].deltas[0].reserved_usd, 50_005 * usd);
    assert_eq!(ledger[0].deltas[1].venue, "SELL");
    assert_eq!(ledger[0].deltas[1].reserved_btc, btc);
    assert_eq!(ledger[1].reference, "forensic-both_legs_filled-leg1-fill");
    assert_eq!(ledger[1].detail, "Leg1 Buy aplicado");
    assert_eq!(ledger[1].deltas.len(), 1);
    assert_eq!(ledger[1].deltas[0].usd, -50_005 * usd);
    assert_eq!(ledger[1].deltas[0].btc, btc);
    assert_eq!(ledger[1].deltas[0].reserved_usd, -50_005 * usd);
    assert_eq!(ledger[2].reference, "forensic-both_legs_filled-leg2-fill");
    assert_eq!(ledger[2].detail, "Leg2 Sell aplicado");
    assert_eq!(ledger[2].deltas[0].venue, "SELL");
    assert_eq!(ledger[2].deltas[0].usd, 50_095 * usd);
    assert_eq!(ledger[2].deltas[0].btc, -btc);
    assert_eq!(ledger[2].deltas[0].reserved_btc, -btc);
    assert_eq!(ledger[3].detail, "reservas remanentes liberadas en un único batch");
    assert_eq!(ledger[3].deltas.len(), 2);
    assert_eq!(ledger[3].deltas[0].reserved_usd, 0);
    assert_eq!(ledger[3].deltas[1].reserved_btc, 0);
    assert_eq!(ledger[4].detail, "snapshot terminal reconciliado");
    assert!(ledger[4].deltas.is_empty());
}

#[test]
fn recuperacion_registra_venue_y_reserva_consumida() {
    let report = simulate(request(ExecutionScenario::Leg1FilledLeg2Failed)).unwrap();
    assert_eq!(report.selected_recovery, Some(RecoveryAction::Rehedge));
    assert_eq!(report.fills[1].fill_id, "forensic-leg1_filled_leg2_failed-rehedge-fill");
    assert_eq!(report.fills[1].venue, "SELL");
    assert_eq!(report.fills[1].reservation_consumed_btc, UNIDADES_REPORTE_BTC);
    assert_eq!(report.transitions[5].detail, "segunda pierna rechazada");
    assert_eq!(report.transitions[6].detail, "recuperación seleccionada por menor costo factible");
    assert_eq!(report.ledger[2].detail, "Recovery Sell aplicado");

    let timeout = simulate(request(ExecutionScenario::TimeoutBeforeLeg2)).unwrap();
    assert_eq!(timeout.transitions[4].detail, "timeout antes de enviar la segunda pierna");

    let partial = simulate(request(ExecutionScenario::BothLegsPartial)).unwrap();
    // quedan reservados los BTC de la media pierna no vendida.
    assert_eq!(partial.ledger[3].deltas[1].reserved_btc, -(UNIDADES_REPORTE_BTC / 2));
}

#[test]
fn matriz_reproducible_en_dos_llamadas() {
    let primera = format!("{:?}", standard_matrix());
    let segunda = format!("{:?}", standard_matrix());
    assert_eq!(primera, segunda);
}

#[test]
fn simulacion_reproducible_sobre_la_misma_solicitud() {
    for scenario in ExecutionScenario::ALL {
        let primera = format!("{:?}", simulate(request(scenario)));
        let segunda = format!("{:?}", simulate(request(scenario)));
        assert_eq!(primera, segunda, "{scenario:?}");
    }
}

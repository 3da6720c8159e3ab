use ed25519_dalek::{Signer, SigningKey};
use mayab_arbitrage::discord::{
    comando_de, decidir_interaccion, firma_valida, permisos_admin, tool_de, tools_disponibles,
    truncar, truncar_log, ComandoDiscord, InteraccionRecibida, RespuestaInteraccion, ToolIa,
};
use mayab_arbitrage::estrategia::{EstrategiaLineal, EstrategiaTriangular};
use mayab_arbitrage::evaluation::{
    huella_fnv1a64, particion_eventos, ErrorParticion, Split, SplitError,
};
use mayab_arbitrage::metricas::prometheus_label;
use mayab_arbitrage::motor::{
    clave_exchange, Carteras, es_exchange_usd, limitar, limitar_ultimos, normalizar_par_operativo,
    quote_lane, ruta_permitida, truncar_primeros,
};
use mayab_arbitrage::texto::decimal_a_texto;
use mayab_arbitrage::persistencia::{
    estado_almacenamiento, modo_almacenamiento, politica_tls, sqlite_storage_persistent,
    valor_habilita_base_insegura, ErrorTls, ModoSsl,
};
use std::collections::VecDeque;

#[test]
fn split_rejects_invalid() {
    assert!("50,20,20".parse::<Split>().is_err());
    assert!("50,20,30".parse::<Split>().is_ok());
}

#[test]
fn split_lee_los_tres_porcentajes() {
    assert_eq!(
        Split::desde_texto(" 60 , 10,30"),
        Ok(Split { train: 60, calibration: 10, holdout: 30 })
    );
    assert_eq!(Split::desde_texto("50,x,50"), Err(SplitError::PorcentajeInvalido));
    assert_eq!(Split::desde_texto("50,0,50"), Err(SplitError::FormaInvalida));
    assert_eq!(Split::desde_texto("50,50"), Err(SplitError::FormaInvalida));
    assert_eq!(Split::desde_texto("50,25,25,"), Err(SplitError::PorcentajeInvalido));
    let d = Split::por_defecto();
    assert_eq!((d.train, d.calibration, d.holdout), (50, 20, 30));
}

#[test]
fn sqlite_no_puede_declararse_timescaledb_ni_durable() {
    assert!(!sqlite_storage_persistent("timescaledb"));
    assert!(!sqlite_storage_persistent("sqlite_ephemeral"));
    assert!(sqlite_storage_persistent("sqlite_persistent"));
    assert!(sqlite_storage_persistent("volume"));
}

#[test]
fn modo_de_almacenamiento_normalizado() {
    assert_eq!(modo_almacenamiento(None), "sqlite_ephemeral");
    assert_eq!(modo_almacenamiento(Some("  ")), "sqlite_ephemeral");
    assert_eq!(modo_almacenamiento(Some(" VOLUME ")), "volume");
    assert_eq!(estado_almacenamiento("volume"), "persistent");
    assert_eq!(estado_almacenamiento("sqlite_ephemeral"), "ephemeral");
}

#[test]
fn opt_in_inseguro_requiere_true_exacto() {
    assert!(valor_habilita_base_insegura(Some("true")));
    for valor in [None, Some("TRUE"), Some("1"), Some(" true"), Some("true ")] {
        assert!(!valor_habilita_base_insegura(valor));
    }
}

#[test]
fn sslmode_omitido_o_prefer_se_elevan_a_require() {
    assert_eq!(politica_tls(ModoSsl::Prefer, false), Ok(ModoSsl::Require));
}

#[test]
fn sslmode_disable_falla_sin_opt_in_exacto() {
    assert_eq!(politica_tls(ModoSsl::Disable, false), Err(ErrorTls::SinTlsNoAutorizado));
    let error = politica_tls(ModoSsl::Disable, false).expect_err("disable debe rechazarse sin opt-in");
    assert!(error.to_string().contains("ALLOW_INSECURE_DATABASE=true"));
    assert_eq!(
        politica_tls(ModoSsl::Disable, valor_habilita_base_insegura(Some("TRUE"))),
        Err(ErrorTls::SinTlsNoAutorizado)
    );
}

#[test]
fn sslmode_disable_solo_pasa_con_opt_in() {
    assert_eq!(
        politica_tls(ModoSsl::Disable, valor_habilita_base_insegura(Some("true"))),
        Ok(ModoSsl::Disable)
    );
}

#[test]
fn sslmode_require_permanece_estricto() {
    assert_eq!(politica_tls(ModoSsl::Require, true), Ok(ModoSsl::Require));
    assert_eq!(politica_tls(ModoSsl::Otro, false), Ok(ModoSsl::Require));
}

#[test]
fn valida_firma_y_permisos() {
    let key = SigningKey::from_bytes(&[7; 32]);
    let body = br#"{"type":1}"#;
    let timestamp = "1710000000";
    let mut message = timestamp.as_bytes().to_vec();
    message.extend_from_slice(body);
    let firma = hex::encode(key.sign(&message).to_bytes());
    let clave = key.verifying_key().to_bytes();
    assert!(firma_valida(&clave, Some(timestamp), Some(&firma), body));
    assert!(!firma_valida(&clave, Some(timestamp), Some(&firma), br#"{"type":2}"#));
    assert!(!firma_valida(&clave, None, Some(&firma), body));
    assert!(!firma_valida(&clave, Some(timestamp), Some("zz"), body));
    assert!(!firma_valida(&clave, Some(timestamp), Some("abcd"), body));
    assert!(permisos_admin("32"));
    assert!(!permisos_admin("0"));
}

#[test]
fn permisos_de_administrador_por_bits() {
    assert!(permisos_admin("8"));
    assert!(permisos_admin("40"));
    assert!(!permisos_admin("16"));
    assert!(!permisos_admin(" 8"));
    assert!(!permisos_admin("-8"));
    assert!(!permisos_admin("18446744073709551616"));
}

#[test]
fn recortes_por_caracteres() {
    let largo = "é".repeat(2_000);
    assert_eq!(truncar(&largo).chars().count(), 1_950);
    assert_eq!(truncar_log(&largo).chars().count(), 500);
    assert_eq!(truncar("corto"), "corto");
}

#[test]
fn etiquetas_prometheus_escapadas() {
    assert_eq!(prometheus_label("a\"b\\c\nd"), "a\\\"b\\\\c\\nd");
    assert_eq!(prometheus_label("BTC/USD"), "BTC/USD");
}

#[test]
fn utilidades_del_motor() {
    assert!(es_exchange_usd("Kraken"));
    assert!(!es_exchange_usd("Binance"));
    assert_eq!(quote_lane("Coinbase"), "USD");
    assert_eq!(quote_lane("OKX"), "USDT");
    assert_eq!(clave_exchange("Kraken", "BTC/USD"), "Kraken:BTC/USD");
    assert_eq!(normalizar_par_operativo("btc-usdt"), "BTC/USD");
    let cola: VecDeque<i32> = (1..=5).collect();
    assert_eq!(limitar(cola, 3), VecDeque::from(vec![1, 2, 3]));
    assert_eq!(limitar_ultimos(vec![1, 2, 3, 4, 5], 2), vec![4, 5]);
    assert_eq!(limitar_ultimos(vec![1, 2], 5), vec![1, 2]);
    let mut cola: VecDeque<i32> = (1..=5).collect();
    truncar_primeros(&mut cola, 2);
    assert_eq!(cola, VecDeque::from(vec![4, 5]));
}

#[test]
fn estrategias_registradas() {
    assert_eq!(EstrategiaLineal.nombre(), "lineal");
    assert_eq!(EstrategiaTriangular.nombre(), "triangular");
    let pares = EstrategiaTriangular::pares_para_triangular();
    assert_eq!(pares[0], ("BTC/USD", "ETH/BTC", "ETH/USD"));
    assert_eq!(pares[1], ("BTC/USDT", "ETH/BTC", "ETH/USDT"));
}

#[test]
fn particion_cronologica_de_eventos() {
    let split = Split::por_defecto();
    assert_eq!(particion_eventos(100, &split), Ok((50, 20, 30)));
    assert_eq!(particion_eventos(15, &split), Ok((7, 3, 5)));
    assert_eq!(particion_eventos(9, &split), Err(ErrorParticion::PocosEventos { eventos: 9 }));
    let sesgado = Split { train: 98, calibration: 1, holdout: 1 };
    assert_eq!(particion_eventos(10, &sesgado), Err(ErrorParticion::VentanaVacia));
}

#[test]
fn rutas_entre_carriles_de_quote() {
    assert!(ruta_permitida("Kraken", "Coinbase", false));
    assert!(!ruta_permitida("Kraken", "Binance", false));
    assert!(ruta_permitida("Kraken", "Binance", true));
    assert!(!ruta_permitida("OKX", "OKX", true));
}

fn firmar(key: &SigningKey, timestamp: &str, body: &[u8]) -> String {
    let mut message = timestamp.as_bytes().to_vec();
    message.extend_from_slice(body);
    hex::encode(key.sign(&message).to_bytes())
}

fn comando(nombre: &str, pregunta: Option<&str>, permisos: Option<&str>) -> InteraccionRecibida {
    InteraccionRecibida {
        tipo: 2,
        comando: Some(nombre.to_string()),
        pregunta: pregunta.map(str::to_string),
        permisos: permisos.map(str::to_string),
    }
}

#[test]
fn interacciones_se_deciden_por_firma_tipo_y_comando() {
    let key = SigningKey::from_bytes(&[7; 32]);
    let clave = key.verifying_key().to_bytes();
    let body = br#"{"type":2}"#;
    let ts = "1710000000";
    let firma = firmar(&key, ts, body);
    let decide = |i: Option<InteraccionRecibida>, ia: bool| {
        decidir_interaccion(Some(&clave), Some(ts), Some(&firma), body, i, ia)
    };

    assert!(matches!(
        decidir_interaccion(None, Some(ts), Some(&firma), body, None, true),
        RespuestaInteraccion::NoConfigurado
    ));
    assert!(matches!(
        decidir_interaccion(Some(&clave), Some(ts), Some(&firma), br#"{"type":1}"#, None, true),
        RespuestaInteraccion::FirmaInvalida
    ));
    assert!(matches!(decide(None, true), RespuestaInteraccion::PayloadInvalido));
    let ping = InteraccionRecibida { tipo: 1, comando: None, pregunta: None, permisos: None };
    assert!(matches!(decide(Some(ping), true), RespuestaInteraccion::Pong));
    let otro = InteraccionRecibida { tipo: 3, comando: None, pregunta: None, permisos: None };
    assert!(matches!(decide(Some(otro), true), RespuestaInteraccion::TipoNoSoportado));
    let vacio = InteraccionRecibida { tipo: 2, comando: None, pregunta: None, permisos: None };
    assert!(matches!(decide(Some(vacio), true), RespuestaInteraccion::SinComando));
    assert!(matches!(
        decide(Some(comando("resumen", None, None)), false),
        RespuestaInteraccion::Comando(ComandoDiscord::Estado)
    ));
    assert!(matches!(
        decide(Some(comando("otra", None, None)), true),
        RespuestaInteraccion::Comando(ComandoDiscord::Desconocido)
    ));
    assert!(matches!(
        decide(Some(comando("ask", Some("hola"), None)), false),
        RespuestaInteraccion::IaNoConfigurada
    ));
    assert!(matches!(
        decide(Some(comando("mayab", Some("   "), None)), true),
        RespuestaInteraccion::PreguntaVacia
    ));
    match decide(Some(comando("mayab", Some("  ¿spread?  "), Some("32"))), true) {
        RespuestaInteraccion::Diferida { pregunta, puede_mutar } => {
            assert_eq!(pregunta, "¿spread?");
            assert!(puede_mutar);
        }
        otra => panic!("se esperaba respuesta diferida: {otra:?}"),
    }
    match decide(Some(comando("ask", Some("estado"), Some("16"))), true) {
        RespuestaInteraccion::Diferida { puede_mutar, .. } => assert!(!puede_mutar),
        otra => panic!("se esperaba respuesta diferida: {otra:?}"),
    }
}

#[test]
fn comandos_y_tools_por_nombre() {
    assert_eq!(comando_de("estado"), ComandoDiscord::Estado);
    assert_eq!(comando_de("demo-rentable"), ComandoDiscord::DemoRentable);
    assert_eq!(comando_de("Estado"), ComandoDiscord::Desconocido);
    assert_eq!(tool_de("get_state", false), ToolIa::Estado);
    assert_eq!(tool_de("get_audit_history", false), ToolIa::HistorialAuditoria);
    assert_eq!(tool_de("update_parameters", true), ToolIa::ActualizarParametros);
    assert_eq!(tool_de("update_parameters", false), ToolIa::SinPermiso);
    assert_eq!(tool_de("borrar_todo", true), ToolIa::Desconocida);
    assert_eq!(
        tools_disponibles(false),
        vec!["get_state", "get_config", "get_audit_history", "prepare_demo"]
    );
    assert_eq!(tools_disponibles(true).last(), Some(&"update_parameters"));
}

#[test]
fn decimales_normalizados_desde_punto_fijo() {
    assert_eq!(decimal_a_texto(0, 8), "0");
    assert_eq!(decimal_a_texto(100_000_000, 8), "1");
    assert_eq!(decimal_a_texto(150_000_000, 8), "1.5");
    assert_eq!(decimal_a_texto(-1, 8), "-0.00000001");
    assert_eq!(decimal_a_texto(1_234, 0), "1234");
    assert_eq!(
        decimal_a_texto(i128::MIN, 16),
        "-17014118346046923173168.7303715884105728"
    );
    assert_eq!(decimal_a_texto(i128::MAX, 38), "1.70141183460469231731687303715884105727");
}

#[test]
fn huella_fnv1a64_de_particiones() {
    assert_eq!(huella_fnv1a64(b""), "fnv1a64:cbf29ce484222325");
    assert_eq!(huella_fnv1a64(b"a"), "fnv1a64:af63dc4c8601ec8c");
    assert_eq!(huella_fnv1a64(br#"[{"x":1}]"#), "fnv1a64:b6273d3cb5e8f106");
}

#[test]
fn split_por_defecto_y_desde_texto() {
    assert_eq!(Split::default(), Split { train: 50, calibration: 20, holdout: 30 });
    assert_eq!("50, 20 ,30".parse::<Split>(), Ok(Split::default()));
    assert_eq!("+60,20,20".parse::<Split>(), Ok(Split { train: 60, calibration: 20, holdout: 20 }));
    assert_eq!("60,20,x".parse::<Split>(), Err(SplitError::PorcentajeInvalido));
    assert_eq!("60,40".parse::<Split>(), Err(SplitError::FormaInvalida));
}

#[test]
fn carteras_por_exchange() {
    let exchanges = vec!["Binance".to_string(), "Kraken".to_string()];
    let carteras = Carteras::new(&exchanges);
    assert!(carteras.tiene_balance("Binance"));
    assert!(carteras.tiene_balance("Kraken"));
    assert!(!carteras.tiene_balance("kraken"));
    assert!(!carteras.tiene_balance("OKX"));
    assert!(!Carteras::new(&Vec::new()).tiene_balance("Binance"));
}

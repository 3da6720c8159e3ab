use mayab_arbitrage::config::{
    env_bool, env_i64, env_string, exchange_habilitado, non_negative_i64, normalizar_simbolo,
    positive_i64, resolver_simbolos, validar_seguridad, ConfigError, Environment,
};

#[test]
fn mayab_env_has_precedence_over_legacy_entorno() {
    assert_eq!(
        Environment::from_sources(Some("production"), Some("development")),
        Environment::Production
    );
}

#[test]
fn unknown_environment_never_degrades_to_development() {
    let environment = Environment::from_sources(Some("prodution"), None);
    assert_eq!(environment, Environment::Unknown("prodution".into()));
    assert!(environment.requires_admin_token());
}

#[test]
fn normaliza_symbols_para_adaptadores() {
    assert_eq!(normalizar_simbolo("btc-usdt"), "BTC/USDT");
    assert_eq!(normalizar_simbolo("ETHUSD"), "ETH/USD");
}

#[test]
fn entorno_por_defecto_es_development() {
    assert_eq!(Environment::from_sources(None, None), Environment::Development);
    assert_eq!(Environment::from_sources(Some("   "), Some(" Stage ")), Environment::Staging);
    assert_eq!(Environment::from_sources(None, Some("PROD")), Environment::Production);
}

#[test]
fn largo_minimo_del_token_por_entorno() {
    assert_eq!(Environment::Production.min_token_length(), 32);
    assert_eq!(Environment::Staging.min_token_length(), 16);
    assert_eq!(Environment::Development.min_token_length(), 0);
    assert_eq!(Environment::Unknown("x".into()).min_token_length(), 32);
    assert!(!Environment::Staging.requires_admin_token());
}

#[test]
fn validacion_de_seguridad() {
    let token_largo = "a".repeat(32);
    assert_eq!(validar_seguridad(&Environment::Development, None), Ok(()));
    assert_eq!(
        validar_seguridad(&Environment::Unknown("qa".into()), Some(&token_largo)),
        Err(ConfigError::EntornoDesconocido("qa".into()))
    );
    assert_eq!(
        validar_seguridad(&Environment::Production, Some("   ")),
        Err(ConfigError::TokenObligatorio)
    );
    assert_eq!(
        validar_seguridad(&Environment::Production, Some("corto")),
        Err(ConfigError::TokenCorto { minimo: 32 })
    );
    assert_eq!(validar_seguridad(&Environment::Production, Some(&token_largo)), Ok(()));
    // 11 caracteres de 3 bytes: 33 bytes; 11 de 2 bytes: 22 bytes.
    assert_eq!(validar_seguridad(&Environment::Production, Some("€€€€€€€€€€€")), Ok(()));
    assert_eq!(
        validar_seguridad(&Environment::Production, Some("ñññññññññññ")),
        Err(ConfigError::TokenCorto { minimo: 32 })
    );
}

#[test]
fn enteros_y_booleanos_con_default() {
    assert_eq!(positive_i64(0, 70), 70);
    assert_eq!(positive_i64(5, 70), 5);
    assert_eq!(non_negative_i64(-1, 9), 9);
    assert_eq!(non_negative_i64(0, 9), 0);
    assert_eq!(env_i64(None, 4500), 4500);
    assert_eq!(env_i64(Some(" 1200 "), 4500), 1200);
    assert_eq!(env_i64(Some("-7"), 4500), -7);
    assert_eq!(env_i64(Some("abc"), 4500), 4500);
    assert_eq!(env_i64(Some("99999999999999999999"), 4500), 4500);
    assert!(env_bool(Some(" SI "), false));
    assert!(!env_bool(Some("no"), true));
    assert!(env_bool(None, true));
    assert_eq!(env_string(Some("  "), "8080"), "8080");
    assert_eq!(env_string(Some(" 9090 "), "8080"), "9090");
}

#[test]
fn simbolos_ordenados_sin_repetidos() {
    let s = resolver_simbolos(Some("eth-usd, btcusdt,ETH/USD,"), None, None);
    assert_eq!(s.symbols, vec!["BTC/USDT".to_string(), "ETH/USD".to_string()]);
    assert_eq!(s.par_base, "BTC/USDT");
    assert_eq!(s.pares_extra, vec!["ETH/USD".to_string()]);
    let d = resolver_simbolos(None, None, None);
    assert_eq!(
        d.symbols,
        vec![
            "BTC/USD".to_string(),
            "BTC/USDT".to_string(),
            "ETH/BTC".to_string(),
            "ETH/USD".to_string(),
            "SOL/USD".to_string()
        ]
    );
    assert_eq!(d.par_base, "BTC/USD");
}

#[test]
fn exchanges_habilitados_sin_distinguir_mayusculas() {
    assert!(exchange_habilitado("Kraken", &vec![]));
    assert!(exchange_habilitado("Kraken", &vec!["kraken".to_string()]));
    assert!(!exchange_habilitado("OKX", &vec!["kraken".to_string()]));
}

#[test]
fn normalizar_dos_veces_no_cambia_el_simbolo() {
    for v in [" btc-usdt ", "ETHUSD", "solusdc", "ethbtc", "USDT", "xrp", "a-b-c", " \u{3000}dogeeth\t"] {
        let una = normalizar_simbolo(v);
        assert_eq!(normalizar_simbolo(&una), una, "{v:?}");
    }
    assert_eq!(normalizar_simbolo(" \u{3000}dogeeth\t"), "DOGE/ETH");
}

use mayab_arbitrage::mercado::{
    empieza, es_canal_libro_coinbase, es_canal_libro_okx, es_snapshot_okx, es_topico_libro_bybit,
    kraken_crc_num, lado_update, mapear_quote_exchange, normalizar_par, par_de_topico, partes_par,
    rutas_adaptadores, rutas_con_minusculas, LibroEstado, NivelLibro,
};

fn nivel(precio: i64, cantidad: i64) -> NivelLibro {
    NivelLibro { precio, cantidad, vigente: cantidad > 0 }
}

#[test]
fn kraken_crc_preserva_ceros_y_coincide_con_vector_oficial() {
    let entrada = "45285210000045286415457195345286615457110945289615456091145290215890660452918154553491452947445474945296135380000452975994554245299518772827452835100000004528341545820154528211000000045281010000000452803154592586452790799000045277633101034527753000000045277315460273745276615445238";
    assert_eq!(crc32fast::hash(entrada.as_bytes()), 3_310_070_434);
    assert_eq!(kraken_crc_num("0.00100000").as_deref(), Some("100000"));
}

#[test]
fn kraken_valida_crc32_y_resincroniza_si_falla() {
    let mut entrada = String::new();
    entrada.push_str(&kraken_crc_num("101.0").unwrap());
    entrada.push_str(&kraken_crc_num("1.5").unwrap());
    entrada.push_str(&kraken_crc_num("100.0").unwrap());
    entrada.push_str(&kraken_crc_num("2.0").unwrap());
    let checksum = crc32fast::hash(entrada.as_bytes());

    let mut libro = LibroEstado::new("BTC/USD");
    libro.reset("BTC/USD");
    libro.registrar_snapshot(None, "snapshot", true);
    libro.actualizar_bids(&vec![nivel(10_000_000_000, 200_000_000)]);
    libro.actualizar_asks(&vec![nivel(10_100_000_000, 150_000_000)]);
    libro.poner_crc_kraken(
        true,
        10_000_000_000,
        Some((kraken_crc_num("100.0").unwrap(), kraken_crc_num("2.0").unwrap())),
    );
    libro.poner_crc_kraken(
        false,
        10_100_000_000,
        Some((kraken_crc_num("101.0").unwrap(), kraken_crc_num("1.5").unwrap())),
    );
    assert_eq!(libro.entrada_checksum_kraken(), entrada);
    assert!(libro.validar_checksum_kraken(checksum));
    assert_eq!(libro.integrity_status, "checksum_crc32_ok");

    assert!(!libro.validar_checksum_kraken(checksum.wrapping_add(1)));
    assert_eq!(libro.checksum_failures, 1);
    assert!(libro.requiere_snapshot);
    assert!(libro.bids.is_empty());
}

#[test]
fn coinbase_gap_bloquea_deltas_hasta_nuevo_snapshot() {
    let mut libro = LibroEstado::new("BTC/USD");
    libro.reset("BTC-USD");
    libro.registrar_snapshot(Some(10), "snapshot_seq", true);
    libro.actualizar_bids(&vec![nivel(10_000_000_000, 200_000_000)]);
    libro.actualizar_asks(&vec![nivel(10_100_000_000, 150_000_000)]);

    assert!(!libro.registrar_incremental_exacto(Some(12)));
    assert_eq!(libro.integrity_status, "gap_requiere_snapshot");
    assert_eq!(libro.resyncs, 1);
    assert!(libro.bids.is_empty());
    assert!(!libro.registrar_incremental_exacto(Some(13)));
    assert_eq!(libro.integrity_status, "esperando_snapshot");
}

#[test]
fn bybit_descarta_cross_sequence_fuera_de_orden() {
    let mut libro = LibroEstado::new("BTC/USD");
    assert!(libro.abrir_mensaje_secuenciado(true, "BTCUSDT", Some(100), None, false));
    libro.actualizar_bids(&vec![nivel(10_000_000_000, 200_000_000)]);
    libro.actualizar_asks(&vec![nivel(10_100_000_000, 150_000_000)]);

    assert!(!libro.abrir_mensaje_secuenciado(false, "BTCUSDT", Some(99), None, false));
    assert_eq!(libro.integrity_status, "fuera_de_orden");
    assert!(libro.abrir_mensaje_secuenciado(false, "BTCUSDT", Some(100), None, false));
    assert_eq!(libro.integrity_status, "secuencia_monotona");
}

#[test]
fn okx_prev_seq_invalido_fuerza_resync() {
    let mut libro = LibroEstado::new("BTC/USD");
    assert!(libro.abrir_mensaje_secuenciado(true, "BTC-USDT", Some(10), None, true));
    libro.actualizar_bids(&vec![nivel(10_000_000_000, 200_000_000)]);
    libro.actualizar_asks(&vec![nivel(10_100_000_000, 150_000_000)]);
    assert!(!libro.abrir_mensaje_secuenciado(false, "BTC-USDT", Some(12), Some(9), true));
    assert_eq!(libro.integrity_status, "gap_requiere_snapshot");
    assert_eq!(libro.resyncs, 1);
    assert!(libro.bids.is_empty());
}

#[test]
fn secuencia_exacta_avanza_de_uno_en_uno() {
    let mut libro = LibroEstado::new("BTC/USD");
    assert!(!libro.registrar_incremental_exacto(Some(1)));
    assert_eq!(libro.integrity_status, "esperando_snapshot");
    libro.registrar_snapshot(Some(5), "snapshot_seq", true);
    assert!(libro.registrar_incremental_exacto(Some(6)));
    assert_eq!(libro.ultima_secuencia, Some(6));
    assert!(!libro.registrar_incremental_exacto(Some(6)));
    assert_eq!(libro.integrity_status, "fuera_de_orden");
    assert!(libro.registrar_incremental_exacto(None));
    assert_eq!(libro.integrity_status, "secuencia_no_disponible");
}

#[test]
fn libro_escalado_preserva_orden_y_elimina_niveles_en_64_casos() {
    let mut libro = LibroEstado::new("BTC/USD");
    for caso in 1..=64i64 {
        let base = 5_000_000_000_000 + caso * 1_000_000;
        libro.actualizar_bids(&vec![nivel(base, 25_000_000), nivel(base + 1_000_000, 50_000_000)]);
        libro.actualizar_asks(&vec![
            nivel(base + 100_000_000, 30_000_000),
            nivel(base + 101_000_000, 60_000_000),
        ]);
        assert_eq!(libro.snapshot_bids(10)[0].0, base + 1_000_000);
        assert_eq!(libro.snapshot_asks(10)[0].0, base + 100_000_000);

        libro.actualizar_bids(&vec![NivelLibro { precio: base + 1_000_000, cantidad: 0, vigente: false }]);
        assert_eq!(libro.snapshot_bids(10)[0].0, base);
        libro.reset("BTC/USD");
    }
}

#[test]
fn niveles_no_positivos_se_ignoran_y_los_mejores_se_ordenan() {
    let mut libro = LibroEstado::new("BTC/USD");
    libro.actualizar_bids(&vec![nivel(0, 5), nivel(-3, 5), nivel(30, 1), nivel(10, 2), nivel(20, 3)]);
    assert_eq!(libro.snapshot_bids(2), vec![(30, 1), (20, 3)]);
    libro.actualizar_asks(&vec![nivel(40, 1), nivel(35, 2), nivel(40, 9)]);
    assert_eq!(libro.snapshot_asks(10), vec![(35, 2), (40, 9)]);
}

#[test]
fn pares_y_quotes_por_exchange() {
    assert_eq!(normalizar_par(" btc-usdt "), "BTC/USD");
    assert_eq!(normalizar_par("eth/usd"), "ETH/USD");
    assert_eq!(normalizar_par("eth/btc"), "ETH/BTC");
    assert_eq!(partes_par("btc/usdt"), ("BTC".to_string(), "USDT".to_string()));
    assert_eq!(partes_par("BTCUSD"), ("BTC".to_string(), "USD".to_string()));
    assert_eq!(partes_par("a/b/c"), ("BTC".to_string(), "USD".to_string()));
    assert_eq!(mapear_quote_exchange("Binance", "usd"), "USDT");
    assert_eq!(mapear_quote_exchange("Kraken", "usd"), "USD");
    assert_eq!(mapear_quote_exchange("OKX", "eth"), "ETH");
    assert_eq!(kraken_crc_num("-1.0"), None);
    assert_eq!(kraken_crc_num("1e5"), None);
    assert_eq!(kraken_crc_num("0.000"), Some("0".to_string()));
}

#[test]
fn adaptadores_exportan_trait_object_por_venue() {
    let lista = rutas_adaptadores("BTC/USD");
    assert_eq!(lista.len(), 12);
    let nombres: Vec<&str> = lista.iter().map(|a| a.nombre).collect();
    assert!(nombres.contains(&"Binance"));
    assert!(nombres.contains(&"Gate.io"));
    assert!(nombres.contains(&"Gemini"));
    assert!(nombres.contains(&"Jupiter"));
    assert!(nombres.contains(&"Raydium"));
    for a in &lista {
        assert!(!a.ws_url.is_empty());
        assert!(!a.rest_url.is_empty());
    }
    assert_eq!(lista[0].ws_url, "wss://data-stream.binance.vision/ws/btcusdt@depth10@100ms");
    assert_eq!(lista[1].simbolo_suscripcion.as_deref(), Some("BTC/USD"));
    assert_eq!(lista[8].rest_url, "https://www.bitstamp.net/api/v2/order_book/btc-usd/?group=1");
}

fn snapshot_kraken(libro: &mut LibroEstado) {
    assert!(libro.abrir_mensaje_kraken(true, "BTC/USD"));
    libro.poner_crc_kraken(
        true,
        10_000_000_000,
        Some((kraken_crc_num("100.0").unwrap(), kraken_crc_num("2.0").unwrap())),
    );
    libro.poner_crc_kraken(
        false,
        10_100_000_000,
        Some((kraken_crc_num("101.0").unwrap(), kraken_crc_num("1.5").unwrap())),
    );
    libro.actualizar_bids(&vec![nivel(10_000_000_000, 200_000_000)]);
    libro.actualizar_asks(&vec![nivel(10_100_000_000, 150_000_000)]);
}

#[test]
fn kraken_conserva_bid_en_delta_solo_ask() {
    let snapshot_crc = crc32fast::hash(b"101015100020");
    let delta_crc = crc32fast::hash(b"100810101015100020");
    let mut libro = LibroEstado::new("BTC/USD");
    snapshot_kraken(&mut libro);
    assert!(libro.verificar_checksum_kraken(Some(snapshot_crc as u64)));

    assert!(libro.abrir_mensaje_kraken(false, "BTC/USD"));
    libro.poner_crc_kraken(
        false,
        10_080_000_000,
        Some((kraken_crc_num("100.8").unwrap(), kraken_crc_num("1.0").unwrap())),
    );
    libro.actualizar_asks(&vec![nivel(10_080_000_000, 100_000_000)]);
    assert!(libro.verificar_checksum_kraken(Some(delta_crc as u64)));

    assert_eq!(libro.snapshot_bids(1)[0].0, 10_000_000_000);
    assert_eq!(libro.snapshot_asks(1)[0].0, 10_080_000_000);
    assert_eq!(libro.integrity_status, "checksum_crc32_ok");
}

#[test]
fn kraken_rechaza_checksum_ausente() {
    let mut libro = LibroEstado::new("BTC/USD");
    snapshot_kraken(&mut libro);

    assert!(!libro.verificar_checksum_kraken(None));
    assert_eq!(libro.checksum_failures, 1);
    assert!(libro.requiere_snapshot);
    assert!(libro.bids.is_empty());
    assert_eq!(libro.integrity_status, "checksum_ausente_requiere_snapshot");
}

#[test]
fn kraken_delta_sin_snapshot_espera() {
    let mut libro = LibroEstado::new("BTC/USD");
    assert!(!libro.abrir_mensaje_kraken(false, "BTC/USD"));
    assert_eq!(libro.integrity_status, "esperando_snapshot");
    snapshot_kraken(&mut libro);
    assert_eq!(libro.integrity_status, "checksum_pendiente");
    assert!(libro.timestamp_confiable);
    assert!(!libro.requiere_snapshot);
}

#[test]
fn bybit_conserva_ask_en_delta_solo_bid() {
    let mut libro = LibroEstado::new("BTC/USD");
    assert!(libro.abrir_mensaje_secuenciado(true, "BTCUSDT", None, None, false));
    libro.actualizar_bids(&vec![nivel(10_000_000_000, 200_000_000)]);
    libro.actualizar_asks(&vec![nivel(10_100_000_000, 150_000_000)]);

    assert!(libro.abrir_mensaje_secuenciado(false, "BTCUSDT", None, None, false));
    libro.actualizar_bids(&vec![nivel(10_050_000_000, 300_000_000)]);

    assert_eq!(libro.snapshot_bids(1)[0].0, 10_050_000_000);
    assert_eq!(libro.snapshot_asks(1)[0].0, 10_100_000_000);
    assert_eq!(libro.par, "BTC/USD");
}

#[test]
fn okx_conserva_ask_en_delta_solo_bid() {
    let mut libro = LibroEstado::new("BTC/USD");
    assert!(libro.abrir_mensaje_secuenciado(true, "BTC-USDT", None, None, true));
    libro.actualizar_bids(&vec![nivel(10_000_000_000, 200_000_000)]);
    libro.actualizar_asks(&vec![nivel(10_100_000_000, 150_000_000)]);

    assert!(libro.abrir_mensaje_secuenciado(false, "BTC-USDT", None, None, true));
    libro.actualizar_bids(&vec![nivel(10_050_000_000, 300_000_000)]);

    assert_eq!(libro.snapshot_bids(1)[0].0, 10_050_000_000);
    assert_eq!(libro.snapshot_asks(1)[0].0, 10_100_000_000);
    assert_eq!(libro.integrity_status, "secuencia_no_disponible");
}


#[test]
fn lados_de_updates_de_coinbase() {
    for side in ["bid", "BUY", "buy"] {
        assert_eq!(lado_update(side), Some(true), "{side}");
    }
    for side in ["offer", "ask", "SELL", "sell"] {
        assert_eq!(lado_update(side), Some(false), "{side}");
    }
    assert_eq!(lado_update("Bid"), None);
    assert_eq!(lado_update(""), None);
}

#[test]
fn canales_y_topicos_de_libro() {
    assert!(es_canal_libro_coinbase("level2"));
    assert!(es_canal_libro_coinbase("l2_data"));
    assert!(!es_canal_libro_coinbase("ticker"));
    assert!(es_topico_libro_bybit("orderbook.50.BTCUSDT"));
    assert!(!es_topico_libro_bybit("orderbook"));
    assert!(!es_topico_libro_bybit("publicTrade.BTCUSDT"));
    assert!(es_canal_libro_okx("books5"));
    assert!(es_canal_libro_okx("books"));
    assert!(!es_canal_libro_okx("book"));
    assert!(empieza("abc", ""));
    assert!(!empieza("ab", "abc"));
}

#[test]
fn snapshot_de_okx_por_accion_o_por_canal() {
    assert!(es_snapshot_okx(Some("snapshot"), "books"));
    assert!(es_snapshot_okx(None, "books5"));
    assert!(es_snapshot_okx(Some("update"), "books5"));
    assert!(!es_snapshot_okx(Some("update"), "books"));
    assert!(!es_snapshot_okx(None, "books-l2-tbt"));
}

#[test]
fn simbolo_del_topico_de_bybit() {
    assert_eq!(par_de_topico("orderbook.50.BTCUSDT"), "BTCUSDT");
    assert_eq!(par_de_topico("orderbook.1.ETHUSDT"), "ETHUSDT");
    assert_eq!(par_de_topico("BTCUSDT"), "BTCUSDT");
    assert_eq!(par_de_topico("orderbook."), "");
}

#[test]
fn simbolos_en_minusculas_unicode() {
    // la normalización sólo sube letras ASCII; la `É` se baja con las reglas Unicode.
    let lista = rutas_adaptadores("Éth/usd");
    assert_eq!(lista[0].ws_url, "wss://data-stream.binance.vision/ws/éthusdt@depth10@100ms");
    assert_eq!(lista[0].rest_url, "https://api.binance.com/api/v3/depth?symbol=ÉTHUSDT&limit=10");
    assert_eq!(lista[8].rest_url, "https://www.bitstamp.net/api/v2/order_book/éth-usd/?group=1");
    assert_eq!(lista[8].simbolo_suscripcion.as_deref(), Some("order_book_éth-usd"));
}

#[test]
fn rutas_con_simbolos_dados() {
    let lista = rutas_con_minusculas("BTC/USD", "x", "y");
    assert_eq!(lista[0].ws_url, "wss://data-stream.binance.vision/ws/x@depth10@100ms");
    assert_eq!(lista[0].rest_url, "https://api.binance.com/api/v3/depth?symbol=BTCUSDT&limit=10");
    assert_eq!(lista[8].rest_url, "https://www.bitstamp.net/api/v2/order_book/y/?group=1");
}

/// El CRC-32 IEEE según su definición bit a bit: registro reflejado que parte
/// de 0xFFFFFFFF, polinomio 0xEDB88320 y registro final invertido.
fn crc32_bit_a_bit(bytes: &[u8]) -> u32 {
    let mut c: u32 = 0xFFFF_FFFF;
    for &b in bytes {
        c ^= b as u32;
        for _ in 0..8 {
            c = if c & 1 == 1 { (c >> 1) ^ 0xEDB8_8320 } else { c >> 1 };
        }
    }
    c ^ 0xFFFF_FFFF
}

#[test]
fn crc32_del_checksum_sigue_su_definicion() {
    assert_eq!(crc32_bit_a_bit(b"123456789"), 0xCBF4_3926);
    for texto in ["", "a", "10000000000200000000", "1010000000015000000010000000000200000000"] {
        assert_eq!(crc32fast::hash(texto.as_bytes()), crc32_bit_a_bit(texto.as_bytes()), "{texto}");
    }
}

use rtiles::stat::Metrics;

#[test]
fn counters_as_json() {
    let m = Metrics { hits: 10, cached: 9, bytes: 3450 };
    assert_eq!(m.to_json(), "{\"hits\":10,\"cached\":9,\"bytes\":3450}");
    assert_eq!(Metrics::default().to_json(), "{\"hits\":0,\"cached\":0,\"bytes\":0}");
    assert_eq!(
        Metrics { hits: u64::MAX, cached: 1, bytes: 100 }.to_json(),
        "{\"hits\":18446744073709551615,\"cached\":1,\"bytes\":100}"
    );
}

#[test]
fn written_counters_are_read_back() {
    for m in [
        Metrics { hits: 0, cached: 0, bytes: 0 },
        Metrics { hits: 1, cached: 2, bytes: 3 },
        Metrics { hits: 10, cached: 9, bytes: 3450 },
        Metrics { hits: 9, cached: 10, bytes: 99 },
        Metrics { hits: 100, cached: 1_000_000, bytes: 1_099_511_627_776 },
        Metrics { hits: u64::MAX, cached: u64::MAX - 1, bytes: u64::MAX / 10 },
    ] {
        assert_eq!(Metrics::from_json(&m.to_json()), Some(m));
    }
}

#[test]
fn json_is_read_in_the_written_form_only() {
    let good = "{\"hits\":1,\"cached\":2,\"bytes\":3}";
    assert_eq!(Metrics::from_json(good), Some(Metrics { hits: 1, cached: 2, bytes: 3 }));
    for bad in [
        "",
        "{}",
        "{\"hits\":1,\"cached\":2,\"bytes\":3",
        "{\"hits\":1,\"cached\":2,\"bytes\":3}}",
        "{\"hits\":1,\"cached\":2,\"bytes\":3} ",
        " {\"hits\":1,\"cached\":2,\"bytes\":3}",
        "{\"hits\": 1,\"cached\":2,\"bytes\":3}",
        "{\"hits\":01,\"cached\":2,\"bytes\":3}",
        "{\"hits\":1,\"cached\":00,\"bytes\":3}",
        "{\"hits\":,\"cached\":2,\"bytes\":3}",
        "{\"hits\":-1,\"cached\":2,\"bytes\":3}",
        "{\"hits\":1.0,\"cached\":2,\"bytes\":3}",
        "{\"hits\":1,\"bytes\":3,\"cached\":2}",
        "{\"hits\":1,\"cached\":2}",
        "{\"hits\":1,\"cached\":2,\"bytes\":3,\"more\":4}",
        "{\"hits\":18446744073709551616,\"cached\":2,\"bytes\":3}",
        "{\"hits\":1,\"cached\":2,\"bytes\":184467440737095516150}",
        "{\"hits\":1,\"cached\":2,\"bytes\":99999999999999999999}",
        "{\"hits\":\u{661},\"cached\":2,\"bytes\":3}",
        "{\"Hits\":1,\"cached\":2,\"bytes\":3}",
    ] {
        assert_eq!(Metrics::from_json(bad), None, "{}", bad);
    }
    assert_eq!(
        Metrics::from_json("{\"hits\":18446744073709551615,\"cached\":0,\"bytes\":0}"),
        Some(Metrics { hits: u64::MAX, cached: 0, bytes: 0 })
    );
}

#[test]
fn json_reader_of_the_framework_reads_the_counters() {
    let m = Metrics { hits: 10, cached: 9, bytes: 3450 };
    let value: serde_json::Value = serde_json::from_str(&m.to_json()).unwrap();
    let object = value.as_object().unwrap();
    assert_eq!(object.len(), 3);
    assert_eq!(object.get("hits").and_then(|v| v.as_u64()), Some(10));
    assert_eq!(object.get("cached").and_then(|v| v.as_u64()), Some(9));
    assert_eq!(object.get("bytes").and_then(|v| v.as_u64()), Some(3450));
    let big = Metrics { hits: u64::MAX, cached: 0, bytes: 1 };
    let value: serde_json::Value = serde_json::from_str(&big.to_json()).unwrap();
    assert_eq!(value.get("hits").and_then(|v| v.as_u64()), Some(u64::MAX));
}

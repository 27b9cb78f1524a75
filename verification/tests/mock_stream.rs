use rand::rngs::StdRng;
use rand::{Rng, SeedableRng};
use rts_core::mock_stream::{generate_event, wiki_from_domain, MockStream, SeededRng};
use std::time::{SystemTime, UNIX_EPOCH};

fn now_secs() -> i64 {
    SystemTime::now()
        .duration_since(UNIX_EPOCH)
        .unwrap_or_default()
        .as_secs() as i64
}

#[test]
fn generated_event_parses_via_parse_event() {
    let mut rng = SeededRng::seed_from_u64(42);
    let json = generate_event(0, &mut rng, now_secs());
    let result: Result<serde_json::Value, _> = serde_json::from_str(&json);
    assert!(result.is_ok(), "parse_event failed on mock JSON: {json}");
    let event = result.unwrap();
    assert_eq!(event["type"], "edit");
    assert!(!event["server_name"].as_str().unwrap().is_empty());
}

#[test]
fn same_seed_same_output() {
    let ts = now_secs();
    let ev1 = generate_event(0, &mut SeededRng::seed_from_u64(42), ts);
    let ev2 = generate_event(0, &mut SeededRng::seed_from_u64(42), ts);
    assert_eq!(ev1, ev2, "two RNGs with seed 42 produced different output");
}

#[test]
fn mock_stream_deterministic_sequence() {
    let events1: Vec<String> = {
        let mut m = MockStream::new();
        (0..20).map(|_| m.next_event(now_secs())).collect()
    };
    let events2: Vec<String> = {
        let mut m = MockStream::new();
        (0..20).map(|_| m.next_event(now_secs())).collect()
    };
    for (i, (a, b)) in events1.iter().zip(events2.iter()).enumerate() {
        let strip_ts = |s: &str| -> String {
            let re_start = s.find("\"timestamp\":").expect("no timestamp field");
            let after = &s[re_start + 12..];
            let re_end = after.find(',').expect("no comma after timestamp");
            format!("{}<TS>{}", &s[..re_start + 12], &after[re_end..])
        };
        assert_eq!(
            strip_ts(a),
            strip_ts(b),
            "event {i} differed between two MockStream instances"
        );
    }
}

#[test]
fn bot_ratio_approximately_80_percent() {
    let mut m = MockStream::new();
    let n = 1000;
    let bots = (0..n)
        .filter(|_| {
            let j = m.next_event(now_secs());
            j.contains("\"bot\":true")
        })
        .count();
    assert!(bots >= 750 && bots <= 850,
        "expected ~80% bot, got {bots}/{n} = {}%", bots * 100 / n);
}

#[test]
fn generated_event_has_the_documented_shape() {
    let mut rng = SeededRng::seed_from_u64(7);
    let json = generate_event(12345, &mut rng, 1_700_000_000);
    let v: serde_json::Value = serde_json::from_str(&json).unwrap();
    assert_eq!(v["title"], "Page_12345");
    assert_eq!(v["timestamp"], 1_700_000_000i64);
    let server = v["server_name"].as_str().unwrap();
    assert!(server.ends_with(".wikipedia.org"));
    assert_eq!(v["wiki"].as_str().unwrap(), format!("{}wiki", &server[..2]));
    let user = v["user"].as_str().unwrap();
    if v["bot"].as_bool().unwrap() {
        assert!(["ClueBot", "AntiVandal", "RefBot"].contains(&user));
    } else {
        assert!(["Alice", "Bob", "Carol", "Dave"].contains(&user));
    }
}

#[test]
fn generated_event_renders_negative_and_zero_numbers() {
    let json = generate_event(0, &mut SeededRng::seed_from_u64(1), -42);
    assert!(json.contains("\"title\":\"Page_0\""));
    assert!(json.contains("\"timestamp\":-42,"));
    let json = generate_event(u64::MAX, &mut SeededRng::seed_from_u64(1), i64::MIN);
    assert!(json.contains("\"title\":\"Page_18446744073709551615\""));
    assert!(json.contains("\"timestamp\":-9223372036854775808,"));
}

#[test]
fn next_event_numbers_pages_in_order() {
    let mut m = MockStream::new();
    for i in 0..5 {
        let json = m.next_event(0);
        assert!(json.contains(&format!("\"title\":\"Page_{i}\"")));
    }
}

#[test]
fn wiki_name_is_language_prefix_plus_wiki() {
    assert_eq!(wiki_from_domain("en.wikipedia.org"), "enwiki");
    assert_eq!(wiki_from_domain("zh.wikipedia.org"), "zhwiki");
    assert_eq!(wiki_from_domain("éx.org"), "éwiki");
}

#[test]
fn stream_follows_the_seeded_std_rng_draws() {
    const DOMAINS: [&str; 10] = [
        "en.wikipedia.org", "de.wikipedia.org", "fr.wikipedia.org", "es.wikipedia.org", "ru.wikipedia.org",
        "ja.wikipedia.org", "zh.wikipedia.org", "pt.wikipedia.org", "it.wikipedia.org", "nl.wikipedia.org",
    ];
    let mut reference = StdRng::seed_from_u64(42);
    let mut m = MockStream::new();
    for i in 0..50u64 {
        let bot = reference.gen_bool(0.80);
        let domain = DOMAINS[reference.gen_range(0..DOMAINS.len())];
        let user = if bot {
            ["ClueBot", "AntiVandal", "RefBot"][reference.gen_range(0..3usize)]
        } else {
            ["Alice", "Bob", "Carol", "Dave"][reference.gen_range(0..4usize)]
        };
        let v: serde_json::Value = serde_json::from_str(&m.next_event(7)).unwrap();
        assert_eq!(v["bot"], bot, "event {i}");
        assert_eq!(v["server_name"], domain, "event {i}");
        assert_eq!(v["user"], user, "event {i}");
        assert_eq!(v["title"], format!("Page_{i}"));
    }
}

use sqlib::map::{to_map, update_from_map, StringMap};
use sqlib::text::{parse_i64, parse_u32};

#[test]
fn to_map_reads_two_pairs() {
    let map = to_map("key1=value1 key2=value2");
    assert_eq!(map.len(), 2);
    assert_eq!(map.get("key1").unwrap(), "value1");
    assert_eq!(map.get("key2").unwrap(), "value2");
}

#[test]
fn to_map_ignores_surrounding_whitespace() {
    let map = to_map(" key1=value1 key2=value2 ");
    assert_eq!(map.len(), 2);
    assert_eq!(map.get("key1").unwrap(), "value1");
    assert_eq!(map.get("key2").unwrap(), "value2");
}

#[test]
fn to_map_drops_bare_words() {
    let map = to_map("stray key=value other");
    assert_eq!(map.len(), 1);
    assert_eq!(map.get("key").unwrap(), "value");
    assert!(map.get("stray").is_none());
    assert!(map.get("other").is_none());
}

#[test]
fn to_map_of_empty_text_is_empty() {
    let map = to_map("");
    assert!(map.is_empty());
    assert_eq!(map.len(), 0);
}

#[test]
fn to_map_splits_at_first_equals() {
    let map = to_map("a=b=c =lead empty=");
    assert_eq!(map.get("a").unwrap(), "b=c");
    assert_eq!(map.get("").unwrap(), "lead");
    assert_eq!(map.get("empty").unwrap(), "");
}

#[test]
fn to_map_later_key_overwrites() {
    let map = to_map("k=1 k=2\tk=3");
    assert_eq!(map.len(), 1);
    assert_eq!(map.get("k").unwrap(), "3");
}

#[test]
fn to_map_keeps_values_escaped() {
    let map = to_map("client_nickname=John\\sDoe");
    assert_eq!(map.get("client_nickname").unwrap(), "John\\sDoe");
}

#[test]
fn string_map_insert_replaces() {
    let mut map = StringMap::new();
    map.insert("a".to_string(), "1".to_string());
    map.insert("b".to_string(), "2".to_string());
    map.insert("a".to_string(), "3".to_string());
    assert_eq!(map.len(), 2);
    assert_eq!(map.get("a").unwrap(), "3");
    assert_eq!(map.get("b").unwrap(), "2");
}

#[test]
fn update_from_map_overwrites_when_parseable() {
    let map = to_map("key1=2");
    let mut integer: i64 = 1;
    update_from_map(&map, "key1", &mut integer);
    assert_eq!(integer, 2);
}

#[test]
fn update_from_map_keeps_value_when_key_absent() {
    let map = to_map("other=2");
    let mut integer: i64 = 1;
    update_from_map(&map, "key1", &mut integer);
    assert_eq!(integer, 1);
}

#[test]
fn update_from_map_keeps_value_when_unparseable() {
    let map = to_map("key1=two key2=99999999999999999999");
    let mut integer: i64 = 1;
    update_from_map(&map, "key1", &mut integer);
    assert_eq!(integer, 1);
    update_from_map(&map, "key2", &mut integer);
    assert_eq!(integer, 1);
}

#[test]
fn update_from_map_text_field() {
    let map = to_map("name=abc");
    let mut name = String::from("old");
    update_from_map(&map, "name", &mut name);
    assert_eq!(name, "abc");
    update_from_map(&map, "missing", &mut name);
    assert_eq!(name, "abc");
}

#[test]
fn parse_i64_as_std_does() {
    for s in ["0", "+5", "-0", "-17", "9223372036854775807", "-9223372036854775808"].iter() {
        assert_eq!(parse_i64(s), s.parse::<i64>().ok());
    }
    for s in ["", "+", "-", "1a", " 1", "9223372036854775808", "-9223372036854775809", "--1"].iter() {
        assert_eq!(parse_i64(s), None);
        assert!(s.parse::<i64>().is_err());
    }
}

#[test]
fn parse_u32_as_std_does() {
    for s in ["0", "+7", "4294967295", "512"].iter() {
        assert_eq!(parse_u32(s), s.parse::<u32>().ok());
    }
    for s in ["", "+", "-1", "-0", "4294967296", "x"].iter() {
        assert_eq!(parse_u32(s), None);
        assert!(s.parse::<u32>().is_err());
    }
}

#[test]
fn update_from_map_other_integer_types() {
    let map = to_map("small=-128 big=128 id=4294967295 neg=-1 wide=18446744073709551615 plus=+7");
    let mut a: i8 = 0;
    update_from_map(&map, "small", &mut a);
    assert_eq!(a, -128);
    update_from_map(&map, "big", &mut a);
    assert_eq!(a, -128);
    let mut b: i32 = 1;
    update_from_map(&map, "big", &mut b);
    assert_eq!(b, 128);
    update_from_map(&map, "id", &mut b);
    assert_eq!(b, 128);
    let mut c: u32 = 0;
    update_from_map(&map, "id", &mut c);
    assert_eq!(c, 4294967295);
    update_from_map(&map, "neg", &mut c);
    assert_eq!(c, 4294967295);
    let mut d: u64 = 0;
    update_from_map(&map, "wide", &mut d);
    assert_eq!(d, u64::MAX);
    let mut e: u8 = 3;
    update_from_map(&map, "big", &mut e);
    assert_eq!(e, 128);
    update_from_map(&map, "plus", &mut e);
    assert_eq!(e, 7);
    let mut f: i16 = 0;
    update_from_map(&map, "neg", &mut f);
    assert_eq!(f, -1);
    let mut g: u16 = 9;
    update_from_map(&map, "small", &mut g);
    assert_eq!(g, 9);
    let mut h: usize = 0;
    update_from_map(&map, "id", &mut h);
    assert_eq!(h, 4294967295);
    let mut k: isize = 0;
    update_from_map(&map, "small", &mut k);
    assert_eq!(k, -128);
}

#[test]
fn update_from_map_agrees_with_std_parse() {
    for raw in ["0", "+1", "-1", "255", "256", "-129", "32767", "65536", "x", ""].iter() {
        let map = to_map(&format!("k={}", raw));
        let mut a: i8 = 42;
        update_from_map(&map, "k", &mut a);
        assert_eq!(a, raw.parse::<i8>().unwrap_or(42));
        let mut b: u8 = 42;
        update_from_map(&map, "k", &mut b);
        assert_eq!(b, raw.parse::<u8>().unwrap_or(42));
        let mut c: i16 = 42;
        update_from_map(&map, "k", &mut c);
        assert_eq!(c, raw.parse::<i16>().unwrap_or(42));
        let mut d: u16 = 42;
        update_from_map(&map, "k", &mut d);
        assert_eq!(d, raw.parse::<u16>().unwrap_or(42));
    }
}

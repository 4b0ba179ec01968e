use rand::Rng;
use roa::kei::{Key, KeyValidity};

fn full_key_text(key: Key, chk: &str) -> String {
    format!("{}-{}", key.to_key_string(), chk)
}

#[test]
fn key_generation_validity() {
    let seed: (u64, u64) = rand::thread_rng().gen();
    let key = Key::generate(seed);
    let chk = key.checksum();
    let key_text = full_key_text(key, &chk);
    println!("{}", key_text);
    assert_eq!(Key::check_key_from_string(&key_text), KeyValidity::Valid);
}

#[test]
fn make_faux_key_test() {
    let seed: (u64, u64) = rand::thread_rng().gen();
    let key = Key { seed: seed, values: [134001; 16], userdata: [0; 4] };
    let chk = key.checksum();
    let key_text = full_key_text(key, &chk);
    println!("{}", key_text);
    assert_eq!(Key::check_key_from_string(&key_text), KeyValidity::Faux);
}

#[test]
fn make_invalid_key_test() {
    let seed: (u64, u64) = rand::thread_rng().gen();
    let key = Key { seed: seed, values: [134001; 16], userdata: [0; 4] };
    let key_text = format!("{}-8u28ix", key.to_key_string());
    println!("{}", key_text);
    assert_eq!(Key::check_key_from_string(&key_text), KeyValidity::Invalid);
}

#[test]
fn test_issued_keys() {
    for seed in [(1u64, 2u64), (123456789, 987654321), (u64::MAX, 7)] {
        let key = Key::generate(seed);
        let text = full_key_text(key, &key.checksum());
        assert_eq!(Key::check_key_from_string(&text), KeyValidity::Valid);
    }
}

#[test]
fn test_blacklist_keys() {
    for seed in [(0u64, 0u64), (u64::MAX, u64::MAX)] {
        let key = Key::generate(seed);
        assert_eq!(key.check_key(), KeyValidity::Blacklist);
        let text = full_key_text(key, &key.checksum());
        assert_eq!(Key::check_key_from_string(&text), KeyValidity::Blacklist);
    }
}

#[test]
fn text_forms_are_base36() {
    let key = Key { seed: (0, 35), values: [36; 16], userdata: [1295, 0, 0, u64::MAX] };
    let fancy = key.to_key_string();
    assert_eq!(
        fancy,
        "0-z-zz-0-0-3w5e11264sgsf-10-10-10-10-10-10-10-10-10-10-10-10-10-10-10-10"
    );
    assert_eq!(key.secure_string(), fancy.replace('-', ""));
}

#[test]
fn checksum_is_the_two_sums_in_base36() {
    let key = Key::generate((42, 4242));
    let mut left: u32 = 0xdeadbeef;
    let mut right: u32 = 0x32323232;
    for b in key.secure_string().bytes() {
        right = right.wrapping_add(b as u32);
        left = left.wrapping_add(right);
    }
    let combined = ((left as u64) << 32) | right as u64;
    let mut digits = Vec::new();
    let mut n = combined;
    while n > 0 {
        digits.push(std::char::from_digit((n % 36) as u32, 36).unwrap());
        n /= 36;
    }
    if digits.is_empty() {
        digits.push('0');
    }
    let expected: String = digits.into_iter().rev().collect();
    assert_eq!(key.checksum(), expected);
}

#[test]
fn parse_key_reads_text_form() {
    let mut key = Key::generate((77, 88));
    key.set_userdata(2, 5);
    key.set_userdata(3, 6);
    let text = full_key_text(key, "whatever");
    let parsed = Key::parse_key(&text).unwrap();
    assert_eq!(parsed.seed, (77, 88));
    assert_eq!(parsed.userdata, [0, 0, 5, 6]);
    assert_eq!(parsed.values, key.values);
}

#[test]
fn parse_key_rejects_malformed_text() {
    assert!(Key::parse_key("no dashes here").is_none());
    assert!(Key::parse_key("12-").is_none());
    assert!(Key::parse_key("1-2!-3").is_none());
    let too_many = format!("{}-0-chk", Key::generate((3, 4)).to_key_string());
    assert!(Key::parse_key(&too_many).is_none());
    let short = Key::parse_key("Z-+1-chk").unwrap();
    assert_eq!(short.seed, (35, 1));
    assert_eq!(short.values, [0; 16]);
}

#[test]
fn check_key_from_string_ignores_surrounding_space() {
    let key = Key::generate((5, 6));
    let text = format!("  {}\n", full_key_text(key, &key.checksum()));
    assert_eq!(Key::check_key_from_string(&text), KeyValidity::Valid);
    assert_eq!(Key::check_key_from_string("nodash"), KeyValidity::Invalid);
    let wide = format!("\u{3000}\u{a0}{}\u{2029}\t", full_key_text(key, &key.checksum()));
    assert_eq!(Key::check_key_from_string(&wide), KeyValidity::Valid);
    let inner = format!("{} ", full_key_text(key, &key.checksum())).replace('-', " -");
    assert_eq!(Key::check_key_from_string(&inner), KeyValidity::Invalid);
}

#[test]
fn faux_when_a_checked_value_differs() {
    let mut key = Key::generate((9, 10));
    assert_eq!(key.check_key(), KeyValidity::Valid);
    key.values[9] = key.values[9].wrapping_add(1);
    assert_eq!(key.check_key(), KeyValidity::Faux);
    let text = full_key_text(key, &key.checksum());
    assert_eq!(Key::check_key_from_string(&text), KeyValidity::Faux);
}

#[test]
fn generated_values_follow_the_stream_word() {
    let a = Key::generate((1, 1));
    let b = Key::generate((1, 1));
    let c = Key::generate((1, 2));
    assert_eq!(a.values, b.values);
    assert_ne!(a.values, c.values);
    assert_eq!(a.userdata, [0; 4]);
}

#[test]
fn set_userdata_hashes_the_first_two_words() {
    let mut key = Key::generate((1, 2));
    let v: u64 = 0x0123_4567_89ab_cdef;
    key.set_userdata(0, v);
    key.set_userdata(3, v);
    let folded = [
        (v >> 52) as u8,
        (v >> 44) as u8,
        (v >> 36) as u8,
        (v >> 32) as u8,
        (v >> 24) as u8,
        (v >> 16) as u8,
        (v >> 8) as u8,
        v as u8,
    ];
    assert_eq!(key.userdata(0), crc::crc64::checksum_iso(&folded));
    assert_ne!(key.userdata(0), v);
    assert_eq!(key.userdata(3), v);
    assert_eq!(key.userdata(1), 0);
}

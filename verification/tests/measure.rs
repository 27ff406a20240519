use croc_sidecar::measure::{measure_at, parse_bytes, parse_metadata, parse_speed, parse_unit_multiplier};
use croc_sidecar::number::{decimal_chars, parse_u8_exec};
use croc_sidecar::Measure;

fn chars(s: &str) -> Vec<char> {
    s.chars().collect()
}

fn measure(number: &str, scale: u64) -> Measure {
    Measure { number: number.to_string(), scale }
}

#[test]
fn unit_multipliers() {
    assert_eq!(parse_unit_multiplier(&chars("")), 1);
    assert_eq!(parse_unit_multiplier(&chars("B")), 1);
    assert_eq!(parse_unit_multiplier(&chars("kB")), 1024);
    assert_eq!(parse_unit_multiplier(&chars(" K ")), 1024);
    assert_eq!(parse_unit_multiplier(&chars("mb")), 1024 * 1024);
    assert_eq!(parse_unit_multiplier(&chars("G")), 1 << 30);
    assert_eq!(parse_unit_multiplier(&chars("TB")), 1 << 40);
    assert_eq!(parse_unit_multiplier(&chars("PB")), 1);
    assert_eq!(parse_unit_multiplier(&chars("KiB")), 1);
}

#[test]
fn bytes() {
    assert_eq!(parse_bytes(&chars(" 1.5 MB ")), measure("1.5", 1 << 20));
    assert_eq!(parse_bytes(&chars("1.5MB")), measure("1.5", 1 << 20));
    assert_eq!(parse_bytes(&chars("42")), measure("42", 1));
    assert_eq!(parse_bytes(&chars("abc")), measure("", 1));
    assert_eq!(parse_bytes(&chars("7 é")), measure("7", 1));
}

#[test]
fn speeds() {
    assert_eq!(parse_speed(&chars("1.1 MB/s")), measure("1.1", 1 << 20));
    assert_eq!(parse_speed(&chars("800 kbps")), measure("800", 1 << 10));
    assert_eq!(parse_speed(&chars("3 /s/s")), measure("3", 1));
    assert_eq!(parse_speed(&chars("12 GB")), measure("12", 1 << 30));
}

#[test]
fn metadata() {
    assert_eq!(
        parse_metadata(&chars("x 1% | (1/2 KB, 3 KB/s)")),
        (Some(measure("1", 1024)), Some(measure("2", 1024)), Some(measure("3", 1024)))
    );
    assert_eq!(
        parse_metadata(&chars("x 1% | (1 MB/2 KB)")),
        (Some(measure("1", 1 << 20)), Some(measure("2", 1024)), None)
    );
    assert_eq!(parse_metadata(&chars("x 1% |")), (None, None, None));
    assert_eq!(
        parse_metadata(&chars("a (b) (7 B, 1, 2)))")),
        (Some(measure("7", 1)), None, Some(measure("1, 2", 1)))
    );
}

#[test]
fn u8_text() {
    assert_eq!(parse_u8_exec(&chars("0")), Some(0));
    assert_eq!(parse_u8_exec(&chars("255")), Some(255));
    assert_eq!(parse_u8_exec(&chars("+42")), Some(42));
    assert_eq!(parse_u8_exec(&chars("007")), Some(7));
    assert_eq!(parse_u8_exec(&chars("256")), None);
    assert_eq!(parse_u8_exec(&chars("")), None);
    assert_eq!(parse_u8_exec(&chars("+")), None);
    assert_eq!(parse_u8_exec(&chars("-1")), None);
    assert_eq!(parse_u8_exec(&chars(" 1")), None);
    assert_eq!(parse_u8_exec(&chars("99999999999999999999")), None);
    for n in 0..=255u8 {
        let text: String = n.to_string();
        assert_eq!(parse_u8_exec(&chars(&text)), text.parse::<u8>().ok());
    }
}

#[test]
fn decimal_text() {
    assert_eq!(decimal_chars(0), chars("0"));
    assert_eq!(decimal_chars(9009), chars("9009"));
    assert_eq!(decimal_chars(u64::MAX), chars(&u64::MAX.to_string()));
}

#[test]
fn measure_split_at_unit() {
    assert_eq!(measure_at(&chars("1.5 MB"), Some(4)), measure("1.5", 1 << 20));
    assert_eq!(measure_at(&chars(" 2 kb"), Some(3)), measure("2", 1024));
    assert_eq!(measure_at(&chars(" 42 "), None), measure("42", 1));
    assert_eq!(measure_at(&chars("9"), Some(1)), measure("9", 1));
}

#[test]
fn metadata_shape() {
    assert_eq!(parse_metadata(&chars("no details")), (None, None, None));
    assert_eq!(parse_metadata(&chars("x ()")), (Some(measure("", 1)), None, None));
    assert_eq!(
        parse_metadata(&chars("x (3 B, 2 KB/s)")),
        (Some(measure("3", 1)), None, Some(measure("2", 1024)))
    );
    assert_eq!(
        parse_metadata(&chars("x (3 B, 2 KB/s, 9)")),
        (Some(measure("3", 1)), None, Some(measure("2", 1)))
    );
}

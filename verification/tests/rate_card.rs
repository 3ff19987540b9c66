use control_plane::amount::Amount;
use control_plane::rate_card::{RateCard, RateCardError};

fn card(text: &str) -> RateCard {
    RateCard::parse(text).unwrap()
}

#[test]
fn a_listed_type_has_its_rate() {
    let c = card("c6a.xlarge:5\nc6a.2xlarge:10\n");
    assert_eq!(c.min_rate_for("c6a.xlarge"), Amount::from_u64(5));
    assert_eq!(c.min_rate_for("c6a.2xlarge"), Amount::from_u64(10));
    assert_eq!(c.entries.len(), 2);
    assert_eq!(c.entries[0].instance_type, "c6a.xlarge");
    assert_eq!(c.entries[1].rate, Amount::from_u64(10));
}

#[test]
fn an_unlisted_type_has_rate_one() {
    let c = card("c6a.xlarge:5\n");
    assert_eq!(c.min_rate_for("m5.large"), Amount::one());
    assert_eq!(c.min_rate_for("c6a"), Amount::one());
    assert_eq!(c.min_rate_for("c6a.xlarge2"), Amount::one());
    assert_eq!(RateCard::empty().min_rate_for("c6a.xlarge"), Amount::one());
    assert_eq!(card("").min_rate_for("c6a.xlarge"), Amount::one());
}

#[test]
fn the_first_record_of_a_type_counts() {
    let c = card("c6a.xlarge:5\nc6a.xlarge:9\n");
    assert_eq!(c.min_rate_for("c6a.xlarge"), Amount::from_u64(5));
}

#[test]
fn lines_without_a_colon_are_ignored() {
    let c = card("rates of the provider\n\nc6a.xlarge:5\nend");
    assert_eq!(c.entries.len(), 1);
    assert_eq!(c.min_rate_for("c6a.xlarge"), Amount::from_u64(5));
}

#[test]
fn carriage_returns_end_lines_too() {
    let c = card("c6a.xlarge:5\r\nm5.large:7\r");
    assert_eq!(c.min_rate_for("c6a.xlarge"), Amount::from_u64(5));
    assert_eq!(c.min_rate_for("m5.large"), Amount::from_u64(7));
}

#[test]
fn the_rate_ends_at_a_second_colon() {
    let c = card("c6a.xlarge:5:per second");
    assert_eq!(c.min_rate_for("c6a.xlarge"), Amount::from_u64(5));
}

#[test]
fn rates_are_decimal_and_may_be_wide() {
    // 2^64 = 18446744073709551616
    let c = card("big:18446744073709551616\nzero:0\nempty:\npadded:007");
    assert_eq!(c.min_rate_for("big"), Amount { l0: 0, l1: 1, l2: 0, l3: 0 });
    assert_eq!(c.min_rate_for("zero"), Amount::zero());
    assert_eq!(c.min_rate_for("empty"), Amount::zero());
    assert_eq!(c.min_rate_for("padded"), Amount::from_u64(7));
    // 2^256 - 1
    let top = card(
        "top:115792089237316195423570985008687907853269984665640564039457584007913129639935",
    );
    assert_eq!(
        top.min_rate_for("top"),
        Amount { l0: u64::MAX, l1: u64::MAX, l2: u64::MAX, l3: u64::MAX }
    );
}

#[test]
fn a_malformed_rate_fails_with_its_line() {
    assert_eq!(RateCard::parse("c6a.xlarge:five").err(), Some(RateCardError { line: 0 }));
    assert_eq!(
        RateCard::parse("c6a.xlarge:5\nnote\nm5.large: 7\nx:1").err(),
        Some(RateCardError { line: 2 })
    );
    assert_eq!(RateCard::parse("a:0x10").err(), Some(RateCardError { line: 0 }));
    assert_eq!(RateCard::parse("a:-1").err(), Some(RateCardError { line: 0 }));
    // 2^256 does not fit
    assert_eq!(
        RateCard::parse(
            "ok:1\ntop:115792089237316195423570985008687907853269984665640564039457584007913129639936"
        )
        .err(),
        Some(RateCardError { line: 1 })
    );
}

use specjam::{Registry, Scale, Trace};

#[test]
fn parse_all() {
    let registry = Registry::new("jamtestvectors".to_string());

    assert_eq!(registry.accumulate(Scale::Tiny).dir, "jamtestvectors/accumulate/tiny");
    assert_eq!(registry.assurances(Scale::Tiny).dir, "jamtestvectors/assurances/tiny");
    assert_eq!(registry.authorizations(Scale::Tiny).dir, "jamtestvectors/authorizations/tiny");
    assert_eq!(registry.codec().dir, "jamtestvectors/codec/data");
    assert_eq!(registry.disputes(Scale::Tiny).dir, "jamtestvectors/disputes/tiny");
    assert_eq!(registry.history().dir, "jamtestvectors/history/data");
    assert_eq!(registry.preimages().dir, "jamtestvectors/preimages/data");
    assert_eq!(registry.pvm().dir, "jamtestvectors/pvm/programs");
    assert_eq!(registry.reports(Scale::Tiny).dir, "jamtestvectors/reports/tiny");
    assert_eq!(registry.safrole(Scale::Tiny).dir, "jamtestvectors/safrole/tiny");
    assert_eq!(registry.statistics(Scale::Tiny).dir, "jamtestvectors/statistics/tiny");
    assert_eq!(registry.shuffle().dir, "jamtestvectors/shuffle");
    assert_eq!(registry.trace(Trace::Fallback).dir, "jamtestvectors/traces/fallback");
    assert_eq!(registry.trace(Trace::Safrole).dir, "jamtestvectors/traces/safrole");
    assert_eq!(registry.trace(Trace::ReportsL0).dir, "jamtestvectors/traces/reports-l0");
    assert_eq!(registry.trie().dir, "jamtestvectors/trie");
}

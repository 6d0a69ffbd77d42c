use specjam::{Scale, Section, TokenError, Trace};

#[test]
fn section_round_trip_every_variant() {
    for s in Section::all() {
        assert_eq!(Section::parse(s.render()), Ok(s));
    }
}

#[test]
fn trace_sections_render_as_paths() {
    assert_eq!(Section::Trace(Trace::Fallback).render(), "traces/fallback");
    assert_eq!(Section::Trace(Trace::Safrole).render(), "traces/safrole");
    assert_eq!(Section::Trace(Trace::ReportsL0).render(), "traces/reports-l0");
    assert_eq!(
        Section::parse("traces/reports-l0"),
        Ok(Section::Trace(Trace::ReportsL0))
    );
    assert_eq!(Trace::ReportsL0.render(), "reports-l0");
}

#[test]
fn section_parse_is_exact() {
    assert_eq!(Section::parse("Codec"), Err(TokenError::InvalidSection));
    assert_eq!(Section::parse("code"), Err(TokenError::InvalidSection));
    assert_eq!(Section::parse("codec "), Err(TokenError::InvalidSection));
    assert_eq!(Section::parse(""), Err(TokenError::InvalidSection));
    assert_eq!(Section::parse("codec"), Ok(Section::Codec));
}

#[test]
fn scale_round_trip_and_errors() {
    assert_eq!(Scale::parse(Scale::Tiny.render()), Ok(Scale::Tiny));
    assert_eq!(Scale::parse(Scale::Full.render()), Ok(Scale::Full));
    assert_eq!(Scale::parse("FULL"), Err(TokenError::InvalidScale));
}

#[test]
fn all_sections_are_distinct() {
    let all = Section::all();
    assert_eq!(all.len(), 16);
    for i in 0..all.len() {
        for j in 0..all.len() {
            if i != j {
                assert_ne!(all[i], all[j]);
            }
        }
    }
}

#[test]
fn scale_policy() {
    assert!(Section::Accumulate.is_scaled());
    assert!(Section::Statistics.is_scaled());
    assert!(!Section::Codec.is_scaled());
    assert!(!Section::History.is_scaled());
    assert!(!Section::Trace(Trace::Safrole).is_scaled());
}

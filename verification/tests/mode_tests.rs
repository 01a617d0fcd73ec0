use node_health_check::mode::{decide, mode_str, parse_mode, Decision, Mode};

#[test]
fn mode_words_render() {
    assert_eq!(mode_str(Mode::Unset), "none");
    assert_eq!(mode_str(Mode::Accept), "accept");
    assert_eq!(mode_str(Mode::Drain), "drain");
}

#[test]
fn mode_words_parse() {
    assert_eq!(parse_mode(&"none".to_string()), Some(Mode::Unset));
    assert_eq!(parse_mode(&"accept".to_string()), Some(Mode::Accept));
    assert_eq!(parse_mode(&"drain".to_string()), Some(Mode::Drain));
    assert_eq!(parse_mode(&"".to_string()), None);
    assert_eq!(parse_mode(&"Accept".to_string()), None);
    assert_eq!(parse_mode(&"draining".to_string()), None);
}

#[test]
fn mode_words_round_trip() {
    for m in [Mode::Unset, Mode::Accept, Mode::Drain] {
        assert_eq!(parse_mode(&mode_str(m)), Some(m));
    }
}

#[test]
fn no_prior_record_decides_baseline() {
    assert_eq!(decide(false, None), Decision::Baseline);
    assert_eq!(decide(true, None), Decision::Baseline);
}

#[test]
fn reachable_always_decides_accept() {
    assert_eq!(decide(true, Some(Mode::Unset)), Decision::Mutate(Mode::Accept));
    assert_eq!(decide(true, Some(Mode::Drain)), Decision::Mutate(Mode::Accept));
    // Self-healing: even an already-accepted target is mutated again.
    assert_eq!(decide(true, Some(Mode::Accept)), Decision::Mutate(Mode::Accept));
}

#[test]
fn unreachable_drains_once_then_skips() {
    assert_eq!(decide(false, Some(Mode::Unset)), Decision::Mutate(Mode::Drain));
    assert_eq!(decide(false, Some(Mode::Accept)), Decision::Mutate(Mode::Drain));
    assert_eq!(decide(false, Some(Mode::Drain)), Decision::Skip);
}

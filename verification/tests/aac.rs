use noodles_codecs::aac::Model;

#[test]
fn test_new_model() {
    let model = Model::new(4);
    assert_eq!(model.len(), 4);
    assert_eq!(model.total_freq(), 4);
}

#[test]
fn test_decode_selects_symbol_by_cumulative_frequency() {
    // frequencies start as [0, 1, 2, 3]; a target of 3 falls in the
    // cumulative range of the last symbol
    let mut model = Model::new(4);

    let d = model.decode(3);
    assert_eq!(d.symbol, 3);
    assert_eq!(d.cumulative_frequency, 3);
    assert_eq!(d.frequency, 3);

    // the decoded symbol was boosted past its left neighbor and swapped
    // one slot forward: its cumulative range now starts at 1
    let d = model.decode(1);
    assert_eq!(d.symbol, 3);
    assert_eq!(d.cumulative_frequency, 1);
    assert_eq!(d.frequency, 19);

    assert_eq!(model.total_freq(), 36);
}

#[test]
fn test_decode_keeps_total_frequency_bounded() {
    let mut model = Model::new(8);

    for _ in 0..8192 {
        let f = model.total_freq() - 1;
        model.decode(f);
        assert!(model.total_freq() <= 65519);
    }
}

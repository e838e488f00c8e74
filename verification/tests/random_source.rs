use star_arena::random::RandomSource;

#[test]
fn scripted_source_replays_its_script_in_order() {
    let mut source = RandomSource::scripted(vec![3, 1, 4, 1, 5]);
    assert_eq!(source.draw(), 3);
    assert_eq!(source.draw(), 1);
    assert_eq!(source.draw(), 4);
    assert_eq!(source.draw(), 1);
    assert_eq!(source.draw(), 5);
}

#[test]
fn scripted_source_goes_on_drawing_when_the_script_is_over() {
    let mut source = RandomSource::scripted(vec![9]);
    assert_eq!(source.draw(), 9);
    let mut seen: Vec<u64> = Vec::new();
    for _ in 0..8 {
        seen.push(source.draw());
    }
    assert_eq!(seen.len(), 8);
}

#[test]
fn entropy_source_gives_varied_draws() {
    let mut source = RandomSource::entropy();
    let first: u64 = source.draw();
    let mut differs = false;
    for _ in 0..64 {
        if source.draw() != first {
            differs = true;
        }
    }
    assert!(differs);
}

use shrinker::progress::{Progress, ProgressParser};

fn feed_all(p: &mut ProgressParser, text: &str) -> Vec<Progress> {
    text.bytes().filter_map(|b| p.feed(b)).collect()
}

fn at(hour: u64, minute: u64, second: u64, speed_major: u64, speed_minor: u64) -> Progress {
    Progress { hour, minute, second, speed_major, speed_minor }
}

#[test]
fn progress_only_moves_forward() {
    let mut p = ProgressParser::new();
    assert_eq!(feed_all(&mut p, "time=00:00:05 speed=1.2"), vec![at(0, 0, 5, 1, 2)]);
    assert_eq!(feed_all(&mut p, "time=00:00:03 speed=1.1"), vec![]);
    assert_eq!(feed_all(&mut p, "time=00:00:10 speed=2.0"), vec![at(0, 0, 10, 2, 0)]);
}

#[test]
fn progress_in_encoder_stream() {
    let mut p = ProgressParser::new();
    let out = feed_all(
        &mut p,
        "frame=  10 fps=0.0 q=0.0 size=0kB time=01:02:03.40 bitrate=0.0kbits/s speed=12.5x\rframe= 20 time=01:02:04.00 speed=9.0x\r",
    );
    assert_eq!(out, vec![at(1, 2, 3, 12, 5), at(1, 2, 4, 9, 0)]);
}

#[test]
fn zero_timestamp_is_not_an_update() {
    let mut p = ProgressParser::new();
    assert_eq!(feed_all(&mut p, "time=00:00:00 speed=0.5"), vec![]);
    assert_eq!(feed_all(&mut p, "time=00:01:00 speed=0.5"), vec![at(0, 1, 0, 0, 5)]);
    assert_eq!(feed_all(&mut p, "time=00:00:59 speed=0.5"), vec![]);
    assert_eq!(feed_all(&mut p, "time=01:00:00 speed=0.5"), vec![at(1, 0, 0, 0, 5)]);
}

#[test]
fn search_outcome_applied_directly() {
    let mut p = ProgressParser::new();
    let g = |v: [&str; 6]| Some(v.iter().map(|x| Some(x.to_string())).collect::<Vec<_>>());
    assert_eq!(p.apply_search(None), None);
    assert_eq!(
        p.apply_search(g(["m", "0", "0", "7", "3", "1"])),
        Some(at(0, 0, 7, 3, 1))
    );
    assert_eq!(p.apply_search(g(["m", "0", "0", "7", "4", "1"])), None);
    assert_eq!(p.apply_search(g(["m", "0", "x", "9", "4", "1"])), None);
    assert_eq!(p.apply_search(Some(vec![Some("m".to_string())])), None);
    assert_eq!(
        p.apply_search(g(["m", "0", "0", "8", "4", "1"])),
        Some(at(0, 0, 8, 4, 1))
    );
}

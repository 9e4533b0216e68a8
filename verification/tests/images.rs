use discord_to_insta::images::{image_for, image_for_distance, parse_distance_km, round_km};

fn names(items: &[&str]) -> Vec<String> {
    items.iter().map(|s| s.to_string()).collect()
}

#[test]
fn distance_basic() {
    assert_eq!(parse_distance_km("📏 Distance : 20km ;"), Some(20));
}

#[test]
fn distance_with_space() {
    assert_eq!(parse_distance_km("Distance : 20 km"), Some(20));
}

#[test]
fn distance_decimal_rounds_up() {
    assert_eq!(parse_distance_km("distance: 19.7 km"), Some(20));
}

#[test]
fn distance_comma_decimal() {
    assert_eq!(parse_distance_km("Distance=18,4km"), Some(18));
}

#[test]
fn distance_half_rounds_away_from_zero() {
    // 19.5 is as near to 19 as to 20 and goes up.
    assert_eq!(parse_distance_km("Distance: 19.5 km"), Some(20));
}

#[test]
fn distance_missing_returns_none() {
    assert_eq!(parse_distance_km("no distance here"), None);
}

#[test]
fn image_lookup_matches_suffix() {
    let files = names(&["mayo-post-ok-v6-2025-feed_20.png", "mayo-post-ok-v6-2025-feed_25.png"]);
    let found = image_for_distance(&files, 20).expect("found");
    assert!(found.ends_with("feed_20.png"));
}

#[test]
fn image_lookup_ignores_other_numbers() {
    // suffix "_20" must not match "_200".
    assert!(image_for_distance(&names(&["feed_200.png"]), 20).is_none());
}

#[test]
fn first_of_several_distances_counts() {
    assert_eq!(parse_distance_km("Distance : 12km, distance : 30km"), Some(12));
}

#[test]
fn readme_roundings() {
    assert_eq!(round_km("19.7"), Some(20));
    assert_eq!(round_km("19.5"), Some(20));
    assert_eq!(round_km("18.4"), Some(18));
    assert_eq!(round_km("18.4999999"), Some(18));
    assert_eq!(round_km("0"), Some(0));
    assert_eq!(round_km("0.5"), Some(1));
}

#[test]
fn whole_distances_are_kept() {
    for km in [0u32, 1, 20, 200, 4294967295] {
        assert_eq!(round_km(&km.to_string()), Some(km));
    }
}

#[test]
fn rounding_agrees_with_floating_point() {
    for whole in [0u32, 1, 9, 19, 20, 99, 1000] {
        for tenths in 0..100u32 {
            let s = format!("{whole}.{tenths:02}");
            let f: f64 = s.parse().unwrap();
            assert_eq!(round_km(&s), Some(f.round() as u32), "{s}");
            assert_eq!(round_km(&s.replace('.', ",")), Some(f.round() as u32), "{s}");
        }
    }
}

#[test]
fn large_distances_saturate_and_infinite_ones_are_refused() {
    let expected = |s: &str| {
        let f: f64 = s.parse().unwrap();
        if f.is_finite() { Some(f.round() as u32) } else { None }
    };
    let limit = "179769313486231580793728971405303415079934132710037826936173778980444968292764750946649017977587207096330286416692887910946555547851940402630657488671505820681908902000708383676273854845817711531764475730270069855571366959622842914819860834936475292719074168444365510704342711559699508093042880177904174497792";
    let below = format!("{}1", &limit[..308]);
    let zeros = format!("{}5", "0".repeat(400));
    let nines = "9".repeat(308);
    let tens = "1".repeat(310);
    for s in ["4294967295", "4294967296", "4294967295.9", limit, below.as_str(), zeros.as_str(), nines.as_str(), tens.as_str()] {
        assert_eq!(round_km(s), expected(s), "{s}");
    }
    assert_eq!(round_km(limit), None);
    assert_eq!(round_km(&below), Some(u32::MAX));
    assert_eq!(round_km(&zeros), Some(5));
}

#[test]
fn what_is_no_number_is_refused() {
    for s in ["", "a", "1a", ".5", "5.", "1.2.3", "-1", "٢٠"] {
        assert_eq!(round_km(s), None, "{s}");
    }
    assert_eq!(parse_distance_km("Distance : ٢٠km"), None);
}

#[test]
fn least_name_wins() {
    let files = names(&["b_20.png", "a_20.jpeg", "a_20.jpg", "0_21.png"]);
    assert_eq!(image_for_distance(&files, 20), Some("a_20.jpeg".to_string()));
    assert_eq!(image_for_distance(&files, 21), Some("0_21.png".to_string()));
    assert_eq!(image_for_distance(&files, 22), None);
    assert_eq!(image_for_distance(&names(&[]), 22), None);
}

#[test]
fn image_names_need_underscore_distance_and_extension() {
    assert!(image_for("_20.png", 20));
    assert!(image_for("x_20.jpg", 20));
    assert!(image_for("x_20.jpeg", 20));
    assert!(!image_for("x20.png", 20));
    assert!(!image_for("x_20.gif", 20));
    assert!(!image_for("x_20.PNG", 20));
    assert!(!image_for("x_020.png", 20));
    assert!(!image_for("x_20.png.bak", 20));
    for km in 0..300 {
        assert_eq!(image_for("feed_200.png", km), km == 200);
    }
}

use osef_me::rates::{
    calculate_proportions, calculate_rate_data, create_etterna_rating, generate_beatmap_hash,
    parse_centirate, process_beatmap_rates, rates_from_skillset_scores, rating_new, ModeRating,
    Proportion, RateEntry, RateError, RatesMaker, SecondaryRating, SkillsetScore,
};

fn skillset(overall: u64) -> SkillsetScore {
    SkillsetScore {
        overall,
        stream: 25_500,
        jumpstream: 24_000,
        handstream: 20_000,
        stamina: 22_000,
        jackspeed: 18_000,
        chordjack: 19_500,
        technical: 21_000,
    }
}

#[test]
fn centirate_parses_plain_and_fractional_keys() {
    assert_eq!(parse_centirate("1"), Some(100));
    assert_eq!(parse_centirate("2"), Some(200));
    assert_eq!(parse_centirate("0.7"), Some(70));
    assert_eq!(parse_centirate("1.0"), Some(100));
    assert_eq!(parse_centirate("1.05"), Some(105));
    assert_eq!(parse_centirate("1.35"), Some(135));
    assert_eq!(parse_centirate("1."), Some(100));
}

#[test]
fn centirate_rounds_half_away_from_zero() {
    // the boundary value from the rounding rule: 1.005 -> 100.5 -> 101
    assert_eq!(parse_centirate("1.005"), Some(101));
    assert_eq!(parse_centirate("1.004"), Some(100));
    assert_eq!(parse_centirate("1.0049"), Some(100));
    assert_eq!(parse_centirate("1.006"), Some(101));
    assert_eq!(parse_centirate("0.995"), Some(100));
}

#[test]
fn centirate_rejects_malformed_keys() {
    assert_eq!(parse_centirate(""), None);
    assert_eq!(parse_centirate("abc"), None);
    assert_eq!(parse_centirate("1.2.3"), None);
    assert_eq!(parse_centirate(".5"), None);
    assert_eq!(parse_centirate("-1"), None);
    assert_eq!(parse_centirate("1,5"), None);
}

#[test]
fn rate_data_scales_times_and_bpm() {
    let rd = calculate_rate_data(150, 90_000, 120_000, 180_000).unwrap();
    assert_eq!(rd.centirate, 150);
    assert_eq!(rd.drain_time, 60_000);
    assert_eq!(rd.total_time, 80_000);
    assert_eq!(rd.bpm_milli, 270_000);
}

#[test]
fn rate_data_rejects_zero_centirate() {
    assert!(calculate_rate_data(0, 1000, 1000, 1000).is_none());
}

#[test]
fn proportions_divide_by_overall() {
    let p = calculate_proportions(&skillset(25_000));
    assert_eq!(p.stream, 25_500 * 1000 / 25_000);
    assert_eq!(p.jumpstream, 960);
    assert_eq!(p.technical, 840);
}

#[test]
fn zero_overall_gives_zero_proportions() {
    let p = calculate_proportions(&skillset(0));
    assert_eq!(
        p,
        Proportion {
            stream: 0,
            jumpstream: 0,
            handstream: 0,
            stamina: 0,
            jackspeed: 0,
            chordjack: 0,
            technical: 0,
        }
    );
}

#[test]
fn rating_redistributes_through_proportions() {
    let p = calculate_proportions(&skillset(25_000));
    let rt = rating_new(String::from("osu"), 5_000, &p);
    assert_eq!(rt.rating, 5_000);
    assert_eq!(rt.rating_type, "osu");
    match rt.mode_rating {
        ModeRating::Mania(m) => {
            assert_eq!(m.stream, 5_000 * p.stream / 1000);
            assert_eq!(m.stream, 5100);
            assert_eq!(m.jumpstream, 4800);
        }
        _ => panic!("expected a mania breakdown"),
    }
}

#[test]
fn etterna_rating_carries_raw_skills() {
    let rt = create_etterna_rating(&skillset(25_000));
    assert_eq!(rt.rating, 25_000);
    assert_eq!(rt.rating_type, "etterna");
    match rt.mode_rating {
        ModeRating::Mania(m) => {
            assert_eq!(m.stream, 25_500);
            assert_eq!(m.chordjack, 19_500);
        }
        _ => panic!("expected a mania breakdown"),
    }
}

#[test]
fn beatmap_hash_is_md5_hex() {
    // the digest of "abc" is a fixed reference value
    assert_eq!(generate_beatmap_hash("abc"), "900150983cd24fb0d6963f7d28e17f72");
    assert_eq!(generate_beatmap_hash(""), "d41d8cd98f00b204e9800998ecf8427e");
}

#[test]
fn rate_record_is_assembled() {
    let maker = RatesMaker {
        rate_key: String::from("1.5"),
        drain_time: 90_000,
        total_time: 120_000,
        bpm_milli: 180_000,
        skillset_scores: skillset(25_000),
        encoded_chart: String::from("osu file format v14"),
    };
    let secondary = vec![SecondaryRating { name: String::from("osu"), value_milli: 5_000 }];
    let rates = rates_from_skillset_scores(&maker, &secondary).unwrap();
    assert_eq!(rates.centirate, 150);
    assert_eq!(rates.drain_time, 60_000);
    assert_eq!(rates.total_time, 80_000);
    assert_eq!(rates.bpm_milli, 270_000);
    assert_eq!(
        rates.osu_hash.as_deref(),
        Some(generate_beatmap_hash("osu file format v14").as_str())
    );
    assert_eq!(rates.rating.len(), 2);
    assert_eq!(rates.rating[0].rating_type, "etterna");
    assert_eq!(rates.rating[0].rating, 25_000);
    assert_eq!(rates.rating[1].rating_type, "osu");
    assert_eq!(rates.rating[1].rating, 5_000);
}

#[test]
fn bad_rate_key_is_refused() {
    let maker = RatesMaker {
        rate_key: String::from("x"),
        drain_time: 1,
        total_time: 1,
        bpm_milli: 1,
        skillset_scores: skillset(1),
        encoded_chart: String::new(),
    };
    let err = rates_from_skillset_scores(&maker, &Vec::new()).unwrap_err();
    assert_eq!(err, RateError::BadRateKey);
    let zero = RatesMaker { rate_key: String::from("0"), ..maker };
    assert_eq!(
        rates_from_skillset_scores(&zero, &Vec::new()).unwrap_err(),
        RateError::BadRateKey
    );
}

#[test]
fn fan_out_covers_every_rate_key() {
    let entries = vec![
        RateEntry { rate_key: String::from("1.0"), skillset_scores: skillset(25_000) },
        RateEntry { rate_key: String::from("1.5"), skillset_scores: skillset(27_000) },
        RateEntry { rate_key: String::from("0.7"), skillset_scores: skillset(21_000) },
    ];
    let encoded = String::from("chart text");
    let all = process_beatmap_rates(&entries, 90_000, 120_000, 180_000, &encoded, &Vec::new())
        .unwrap();
    assert_eq!(all.len(), 3);
    let centirates: Vec<u64> = all.iter().map(|r| r.centirate).collect();
    assert_eq!(centirates, vec![100, 150, 70]);
    assert_eq!(all[1].rating[0].rating, 27_000);
}

#[test]
fn fan_out_fails_on_unusable_key() {
    let entries = vec![
        RateEntry { rate_key: String::from("1.0"), skillset_scores: skillset(1) },
        RateEntry { rate_key: String::from("?"), skillset_scores: skillset(1) },
    ];
    let encoded = String::new();
    let err = process_beatmap_rates(&entries, 1, 1, 1, &encoded, &Vec::new()).unwrap_err();
    assert_eq!(err, RateError::BadRateKey);
}

//! The per-rate rating records of the fan-out: parsing a rate key to
//! a centirate (round-half-away-from-zero), scaling the chart's
//! nominal times to the rate, deriving the proportion vector from a
//! skillset score, redistributing external single-number ratings
//! through it, and fingerprinting the encoded chart text.
//!
//! Skill values, ratings and proportions are fixed-point integers in
//! thousandths (milli-points), bpm in milli-bpm.
use vstd::prelude::*;

use crate::strings::{all_digits, chars_of, digit_val, digits_val, parse_digits_range};

verus! {

/// The seven-dimensional skill vector plus its overall scalar, in
/// milli-points, as the external difficulty engine reports it.
#[derive(Clone, Copy, Debug, PartialEq, Eq, Structural)]
pub struct SkillsetScore {
    pub overall: u64,
    pub stream: u64,
    pub jumpstream: u64,
    pub handstream: u64,
    pub stamina: u64,
    pub jackspeed: u64,
    pub chordjack: u64,
    pub technical: u64,
}

/// Each skill component divided by the overall scalar, in
/// thousandths: the shape of the skill vector, used to redistribute a
/// single-number rating across the seven dimensions.
#[derive(Clone, Copy, Debug, PartialEq, Eq, Structural)]
pub struct Proportion {
    pub stream: u64,
    pub jumpstream: u64,
    pub handstream: u64,
    pub stamina: u64,
    pub jackspeed: u64,
    pub chordjack: u64,
    pub technical: u64,
}

/// A seven-dimensional rating breakdown for the mania mode.
#[derive(Clone, Debug)]
pub struct ManiaRating {
    pub id: Option<i32>,
    pub stream: u64,
    pub jumpstream: u64,
    pub handstream: u64,
    pub stamina: u64,
    pub jackspeed: u64,
    pub chordjack: u64,
    pub technical: u64,
}

/// The per-mode payload of a rating, tagged by mode.
#[derive(Clone, Debug)]
pub enum ModeRating {
    Mania(ManiaRating),
    Std,
    Ctb,
    Taiko,
}

/// One rating record: a scalar in milli-points, the name of the
/// rating system it came from, and its per-mode breakdown.
#[derive(Clone, Debug)]
pub struct Rating {
    pub id: Option<i32>,
    pub rates_id: Option<i32>,
    pub rating: u64,
    pub rating_type: String,
    pub mode_rating: ModeRating,
}

/// The rating record of one playback rate: the content fingerprint
/// of the encoded chart, the centirate, the rate-scaled times and
/// bpm, and the rating records of each rating system.
#[derive(Clone, Debug)]
pub struct Rates {
    pub id: Option<i32>,
    pub osu_hash: Option<String>,
    pub centirate: u64,
    pub drain_time: u64,
    pub total_time: u64,
    pub bpm_milli: u64,
    pub rating: Vec<Rating>,
}

impl Default for Rates {
    /// The placeholder rate record.
    fn default() -> (r: Rates)
        ensures
            r.id == Some(1i32),
            r.osu_hash matches Some(h) && h@ == "abc123"@,
            r.centirate == 100,
            r.drain_time == 120_000,
            r.total_time == 180_000,
            r.bpm_milli == 180_000,
            r.rating@.len() == 0,
    {
        let mut hash = String::new();
        hash.append("abc123");
        proof {
            assert(hash@ =~= "abc123"@);
        }
        Rates {
            id: Some(1),
            osu_hash: Some(hash),
            centirate: 100,
            drain_time: 120_000,
            total_time: 180_000,
            bpm_milli: 180_000,
            rating: Vec::new(),
        }
    }
}

/// What md5's digest of the UTF-8 bytes of a text, written in
/// lowercase hex, is: a function of the content alone.
pub uninterp spec fn md5_hex_of(s: Seq<char>) -> Seq<char>;

/// Relies on `md5::compute` and the digest's `LowerHex` formatting:
/// 16 digest bytes, each written as two lowercase hex digits.
#[verifier::external_body]
fn md5_hex(content: &str) -> (r: String)
    ensures
        r@ == md5_hex_of(content@),
        r@.len() == 32,
{
    let digest = md5::compute(content.as_bytes());
    format!("{:x}", digest)
}

/// The content fingerprint of an encoded chart text: its md5 digest
/// in lowercase hex, 32 characters.
pub fn generate_beatmap_hash(osu_map: &str) -> (r: String)
    ensures
        r@ == md5_hex_of(osu_map@),
        r@.len() == 32,
{
    md5_hex(osu_map)
}

/// The first `.` of `s` at or after `from`.
pub open spec fn first_dot(s: Seq<char>, from: int) -> Option<int>
    decreases s.len() - from,
        when 0 <= from <= s.len()
{
    if from < 0 || from >= s.len() {
        None
    } else if s[from] == '.' {
        Some(from)
    } else {
        first_dot(s, from + 1)
    }
}

/// The `i`-th fractional digit, 0 past the written digits.
pub open spec fn frac_digit(fr: Seq<char>, i: int) -> nat {
    if 0 <= i < fr.len() {
        digit_val(fr[i])
    } else {
        0
    }
}

/// A decimal rate times 100, rounded half away from zero: two
/// fractional digits are kept and the third decides the rounding.
pub open spec fn round_half_centi(ip: Seq<char>, fr: Seq<char>) -> nat {
    digits_val(ip) * 100 + frac_digit(fr, 0) * 10 + frac_digit(fr, 1) + if frac_digit(fr, 2)
        >= 5 {
        1nat
    } else {
        0nat
    }
}

/// The centirate a rate key denotes: digits, optionally a `.` and
/// more digits, rounded half away from zero to a whole centirate.
pub open spec fn centirate_of_chars(s: Seq<char>) -> Option<nat> {
    match first_dot(s, 0) {
        None => if s.len() >= 1 && all_digits(s) {
            Some(digits_val(s) * 100)
        } else {
            None
        },
        Some(d) => {
            let ip = s.subrange(0, d);
            let fr = s.subrange(d + 1, s.len() as int);
            if ip.len() >= 1 && all_digits(ip) && all_digits(fr) {
                Some(round_half_centi(ip, fr))
            } else {
                None
            }
        },
    }
}

/// Parses a rate key such as `1.15` to its centirate, rounding half
/// away from zero; fails on anything but digits around one optional
/// dot, or when the value leaves the integer type.
pub fn parse_centirate(s: &str) -> (r: Option<u64>)
    ensures
        match centirate_of_chars(s@) {
            Some(c) => if c <= u64::MAX {
                r == Some(c as u64)
            } else {
                r is None
            },
            None => r is None,
        },
{
    let v = chars_of(s);
    let n = v.len();
    let mut d: usize = 0;
    let mut has_dot = false;
    while d < n
        invariant_except_break
            n == v@.len(),
            v@ == s@,
            0 <= d <= n,
            !has_dot,
            first_dot(s@, 0) == first_dot(s@, d as int),
        ensures
            n == v@.len(),
            v@ == s@,
            0 <= d <= n,
            has_dot ==> d < n && first_dot(s@, 0) == Some(d as int),
            !has_dot ==> first_dot(s@, 0) is None,
        decreases n - d,
    {
        if v[d] == '.' {
            has_dot = true;
            break;
        }
        d += 1;
    }
    let ip_end: usize = if has_dot {
        d
    } else {
        n
    };
    let (ival, iok) = parse_digits_range(&v, 0, ip_end, 400000000000000000);
    proof {
        if !has_dot {
            assert(s@.subrange(0, n as int) =~= s@);
        }
    }
    if !iok {
        return None;
    }
    let mut tail: u64 = 0;
    if has_dot {
        // every fractional character must be a digit; collect the first three
        let mut j: usize = d + 1;
        while j < n
            invariant
                n == v@.len(),
                v@ == s@,
                d < n,
                first_dot(s@, 0) == Some(d as int),
                d + 1 <= j <= n,
                forall|m: int| d + 1 <= m < j ==> crate::strings::is_digit(#[trigger] s@[m]),
            decreases n - j,
        {
            let c = v[j];
            if c < '0' || c > '9' {
                proof {
                    let fr = s@.subrange(d + 1, s@.len() as int);
                    assert(fr[j - (d + 1)] == s@[j as int]);
                    assert(!crate::strings::is_digit(s@[j as int]));
                }
                return None;
            }
            j += 1;
        }
        proof {
            let fr = s@.subrange(d + 1, s@.len() as int);
            assert forall|m: int| 0 <= m < fr.len() implies crate::strings::is_digit(
                #[trigger] fr[m],
            ) by {
                assert(fr[m] == s@[d + 1 + m]);
            }
        }
        let f0: u64 = if d + 1 < n {
            (v[d + 1] as u32 as u64) - 48
        } else {
            0
        };
        let f1: u64 = if n - d > 2 {
            (v[d + 2] as u32 as u64) - 48
        } else {
            0
        };
        let f2: u64 = if n - d > 3 {
            (v[d + 3] as u32 as u64) - 48
        } else {
            0
        };
        proof {
            let fr = s@.subrange(d + 1, s@.len() as int);
            assert(f0 == frac_digit(fr, 0));
            assert(f1 == frac_digit(fr, 1));
            assert(f2 == frac_digit(fr, 2));
        }
        tail = f0 * 10 + f1 + (if f2 >= 5 {
            1
        } else {
            0
        });
    }
    match ival {
        None => {
            // the integer part alone already exceeds the type
            proof {
                let ghost c = centirate_of_chars(s@);
                assert(c is Some && c->0 > u64::MAX);
            }
            None
        },
        Some(ip) => {
            let wide: u128 = (ip as u128) * 100 + (tail as u128);
            if wide > u64::MAX as u128 {
                None
            } else {
                Some(wide as u64)
            }
        },
    }
}

/// A nominal time scaled to a rate: at centirate `c` the elapsed
/// time becomes `t x 100/c`.
pub open spec fn scaled_time(t: u64, centirate: u64) -> int {
    t * 100 / (centirate as int)
}

/// A nominal bpm scaled to a rate: at centirate `c` it becomes
/// `b x c/100`.
pub open spec fn scaled_bpm(b: u64, centirate: u64) -> int {
    b * centirate / 100
}

/// The scaled times and bpm all fit their integer type.
pub open spec fn rate_data_fits(drain: u64, total: u64, bpm: u64, centirate: u64) -> bool {
    &&& scaled_time(drain, centirate) <= u64::MAX
    &&& scaled_time(total, centirate) <= u64::MAX
    &&& scaled_bpm(bpm, centirate) <= u64::MAX
}

/// The per-rate scalar data: the centirate and the rate-scaled drain
/// time, total time and bpm.
#[derive(Clone, Copy, Debug, PartialEq, Eq, Structural)]
pub struct RateData {
    pub centirate: u64,
    pub drain_time: u64,
    pub total_time: u64,
    pub bpm_milli: u64,
}

/// Scales the nominal drain time, total time and bpm to the rate
/// `centirate/100`. Fails on a zero centirate or when a scaled value
/// leaves the integer type.
pub fn calculate_rate_data(centirate: u64, drain_time: u64, total_time: u64, bpm_milli: u64) -> (r:
    Option<RateData>)
    ensures
        r is Some <==> centirate > 0 && rate_data_fits(drain_time, total_time, bpm_milli, centirate),
        r matches Some(rd) ==> rd.centirate == centirate && rd.drain_time == scaled_time(
            drain_time,
            centirate,
        ) && rd.total_time == scaled_time(total_time, centirate) && rd.bpm_milli == scaled_bpm(
            bpm_milli,
            centirate,
        ),
{
    if centirate == 0 {
        return None;
    }
    let drain_wide: u128 = (drain_time as u128) * 100 / (centirate as u128);
    let total_wide: u128 = (total_time as u128) * 100 / (centirate as u128);
    proof {
        assert((bpm_milli as u128) * (centirate as u128) <= u128::MAX) by (nonlinear_arith)
            requires
                bpm_milli <= u64::MAX,
                centirate <= u64::MAX,
        ;
    }
    let bpm_wide: u128 = (bpm_milli as u128) * (centirate as u128) / 100;
    if drain_wide > u64::MAX as u128 || total_wide > u64::MAX as u128 || bpm_wide
        > u64::MAX as u128 {
        return None;
    }
    Some(
        RateData {
            centirate,
            drain_time: drain_wide as u64,
            total_time: total_wide as u64,
            bpm_milli: bpm_wide as u64,
        },
    )
}

/// A skill component as thousandths of the overall scalar: 0 when
/// the overall is 0, capped at the type's maximum.
pub open spec fn milli_ratio(s: u64, overall: u64) -> nat {
    if overall == 0 {
        0
    } else if s * 1000 / (overall as int) <= u64::MAX {
        (s * 1000 / (overall as int)) as nat
    } else {
        u64::MAX as nat
    }
}

/// The proportion vector of a skillset score.
pub open spec fn proportion_spec(ss: SkillsetScore) -> Proportion {
    Proportion {
        stream: milli_ratio(ss.stream, ss.overall) as u64,
        jumpstream: milli_ratio(ss.jumpstream, ss.overall) as u64,
        handstream: milli_ratio(ss.handstream, ss.overall) as u64,
        stamina: milli_ratio(ss.stamina, ss.overall) as u64,
        jackspeed: milli_ratio(ss.jackspeed, ss.overall) as u64,
        chordjack: milli_ratio(ss.chordjack, ss.overall) as u64,
        technical: milli_ratio(ss.technical, ss.overall) as u64,
    }
}

fn milli_ratio_exec(s: u64, overall: u64) -> (r: u64)
    ensures
        r == milli_ratio(s, overall),
{
    if overall == 0 {
        return 0;
    }
    let wide: u128 = (s as u128) * 1000 / (overall as u128);
    if wide > u64::MAX as u128 {
        u64::MAX
    } else {
        wide as u64
    }
}

/// Divides each skill component by the overall scalar. A zero
/// overall yields the all-zero proportion vector: the degenerate
/// skillset never divides by zero.
pub fn calculate_proportions(ss: &SkillsetScore) -> (p: Proportion)
    ensures
        p == proportion_spec(*ss),
        ss.overall == 0 ==> p.stream == 0 && p.jumpstream == 0 && p.handstream == 0 && p.stamina
            == 0 && p.jackspeed == 0 && p.chordjack == 0 && p.technical == 0,
{
    Proportion {
        stream: milli_ratio_exec(ss.stream, ss.overall),
        jumpstream: milli_ratio_exec(ss.jumpstream, ss.overall),
        handstream: milli_ratio_exec(ss.handstream, ss.overall),
        stamina: milli_ratio_exec(ss.stamina, ss.overall),
        jackspeed: milli_ratio_exec(ss.jackspeed, ss.overall),
        chordjack: milli_ratio_exec(ss.chordjack, ss.overall),
        technical: milli_ratio_exec(ss.technical, ss.overall),
    }
}

/// A scalar rating redistributed along one proportion component:
/// `base x prop/1000`, capped at the type's maximum.
pub open spec fn redistributed(base: u64, prop: u64) -> nat {
    if base * prop / 1000 <= u64::MAX {
        (base * prop / 1000) as nat
    } else {
        u64::MAX as nat
    }
}

fn redistributed_exec(base: u64, prop: u64) -> (r: u64)
    ensures
        r == redistributed(base, prop),
{
    proof {
        assert((base as u128) * (prop as u128) <= u128::MAX) by (nonlinear_arith)
            requires
                base <= u64::MAX,
                prop <= u64::MAX,
        ;
    }
    let wide: u128 = (base as u128) * (prop as u128) / 1000;
    if wide > u64::MAX as u128 {
        u64::MAX
    } else {
        wide as u64
    }
}

/// The mania breakdown of `m` is `base` spread along `p`.
pub open spec fn mania_breakdown_matches(m: ManiaRating, base: u64, p: Proportion) -> bool {
    &&& m.id is None
    &&& m.stream == redistributed(base, p.stream)
    &&& m.jumpstream == redistributed(base, p.jumpstream)
    &&& m.handstream == redistributed(base, p.handstream)
    &&& m.stamina == redistributed(base, p.stamina)
    &&& m.jackspeed == redistributed(base, p.jackspeed)
    &&& m.chordjack == redistributed(base, p.chordjack)
    &&& m.technical == redistributed(base, p.technical)
}

/// Builds a rating record for a secondary rating system: the scalar
/// itself, redistributed across the seven skill dimensions through
/// the proportion vector.
pub fn rating_new(rating_type: String, rating_milli: u64, proportion: &Proportion) -> (rt: Rating)
    ensures
        rt.id is None,
        rt.rates_id is None,
        rt.rating == rating_milli,
        rt.rating_type@ == rating_type@,
        rt.mode_rating matches ModeRating::Mania(m) && mania_breakdown_matches(
            m,
            rating_milli,
            *proportion,
        ),
{
    Rating {
        id: None,
        rates_id: None,
        rating: rating_milli,
        rating_type,
        mode_rating: ModeRating::Mania(
            ManiaRating {
                id: None,
                stream: redistributed_exec(rating_milli, proportion.stream),
                jumpstream: redistributed_exec(rating_milli, proportion.jumpstream),
                handstream: redistributed_exec(rating_milli, proportion.handstream),
                stamina: redistributed_exec(rating_milli, proportion.stamina),
                jackspeed: redistributed_exec(rating_milli, proportion.jackspeed),
                chordjack: redistributed_exec(rating_milli, proportion.chordjack),
                technical: redistributed_exec(rating_milli, proportion.technical),
            },
        ),
    }
}

/// The breakdown of `m` holds the raw skill components of `ss`.
pub open spec fn mania_breakdown_raw(m: ManiaRating, ss: SkillsetScore) -> bool {
    &&& m.id is None
    &&& m.stream == ss.stream
    &&& m.jumpstream == ss.jumpstream
    &&& m.handstream == ss.handstream
    &&& m.stamina == ss.stamina
    &&& m.jackspeed == ss.jackspeed
    &&& m.chordjack == ss.chordjack
    &&& m.technical == ss.technical
}

/// Builds the primary rating record, straight from the skillset
/// vector at native resolution.
pub fn create_etterna_rating(ss: &SkillsetScore) -> (rt: Rating)
    ensures
        rt.id is None,
        rt.rates_id is None,
        rt.rating == ss.overall,
        rt.rating_type@ == "etterna"@,
        rt.mode_rating matches ModeRating::Mania(m) && mania_breakdown_raw(m, *ss),
{
    let mut name = String::new();
    name.append("etterna");
    proof {
        assert(name@ =~= "etterna"@);
    }
    Rating {
        id: None,
        rates_id: None,
        rating: ss.overall,
        rating_type: name,
        mode_rating: ModeRating::Mania(
            ManiaRating {
                id: None,
                stream: ss.stream,
                jumpstream: ss.jumpstream,
                handstream: ss.handstream,
                stamina: ss.stamina,
                jackspeed: ss.jackspeed,
                chordjack: ss.chordjack,
                technical: ss.technical,
            },
        ),
    }
}

/// Everything one rate key's record is assembled from: the key, the
/// chart's nominal times and bpm, the skillset score the external
/// engine reported for this rate, and the canonical encoded chart
/// text to fingerprint.
pub struct RatesMaker {
    pub rate_key: String,
    pub drain_time: u64,
    pub total_time: u64,
    pub bpm_milli: u64,
    pub skillset_scores: SkillsetScore,
    pub encoded_chart: String,
}

/// An externally estimated single-number rating to redistribute:
/// the rating system's name and its scalar in milli-points.
#[derive(Clone, Debug)]
pub struct SecondaryRating {
    pub name: String,
    pub value_milli: u64,
}

/// Why a rate record could not be assembled.
#[derive(Clone, Copy, Debug, PartialEq, Eq, Structural)]
pub enum RateError {
    /// The rate key is not a positive decimal rate.
    BadRateKey,
    /// A rate-scaled value does not fit its integer type.
    RateOverflow,
}

/// The rate key parses to a usable centirate and every scaled value
/// fits its type: exactly when a rate record can be assembled.
pub open spec fn feasible_rate(key: Seq<char>, drain: u64, total: u64, bpm: u64) -> bool {
    match centirate_of_chars(key) {
        Some(c) => 0 < c <= u64::MAX && rate_data_fits(drain, total, bpm, c as u64),
        None => false,
    }
}

/// `rates` is the record the fan-out owes for this rate key: the
/// centirate and the scaled times, the content fingerprint, the
/// primary rating straight from the skillset vector, and one
/// redistributed record per secondary rating system.
pub open spec fn rates_record_ok(
    key: Seq<char>,
    drain: u64,
    total: u64,
    bpm: u64,
    ss: SkillsetScore,
    encoded: Seq<char>,
    secondary: Seq<SecondaryRating>,
    rates: Rates,
) -> bool {
    let c = centirate_of_chars(key)->0 as u64;
    let props = proportion_spec(ss);
    &&& rates.id is None
    &&& rates.osu_hash matches Some(h) && h@ == md5_hex_of(encoded)
    &&& rates.centirate == c
    &&& rates.drain_time == scaled_time(drain, c)
    &&& rates.total_time == scaled_time(total, c)
    &&& rates.bpm_milli == scaled_bpm(bpm, c)
    &&& rates.rating.len() == 1 + secondary.len()
    &&& rates.rating[0].rating == ss.overall
    &&& rates.rating[0].rating_type@ == "etterna"@
    &&& rates.rating[0].mode_rating matches ModeRating::Mania(m) && mania_breakdown_raw(m, ss)
    &&& forall|i: int|
        0 <= i < secondary.len() ==> {
            let rt = #[trigger] rates.rating[1 + i];
            &&& rt.rating == secondary[i].value_milli
            &&& rt.rating_type@ == secondary[i].name@
            &&& rt.mode_rating matches ModeRating::Mania(m) && mania_breakdown_matches(
                m,
                secondary[i].value_milli,
                props,
            )
        }
}

/// Assembles the rating record of one rate key: the centirate, the
/// rate-scaled times and bpm, the chart fingerprint, the primary
/// rating straight from the skillset vector, and one redistributed
/// record per secondary rating system. Fails only on an unusable
/// rate key or a scaled value leaving its type.
pub fn rates_from_skillset_scores(maker: &RatesMaker, secondary: &Vec<SecondaryRating>) -> (r:
    Result<Rates, RateError>)
    ensures
        (r is Ok) <==> feasible_rate(
            maker.rate_key@,
            maker.drain_time,
            maker.total_time,
            maker.bpm_milli,
        ),
        ({
            let key = centirate_of_chars(maker.rate_key@);
            r == Result::<Rates, RateError>::Err(RateError::BadRateKey) <==> (key is None
                || key->0 == 0 || key->0 > u64::MAX)
        }),
        r matches Ok(rates) ==> rates_record_ok(
            maker.rate_key@,
            maker.drain_time,
            maker.total_time,
            maker.bpm_milli,
            maker.skillset_scores,
            maker.encoded_chart@,
            secondary@,
            rates,
        ),
{
    let centirate = match parse_centirate(self_key(maker)) {
        Some(c) => c,
        None => {
            return Err(RateError::BadRateKey);
        },
    };
    if centirate == 0 {
        return Err(RateError::BadRateKey);
    }
    let rate_data = match calculate_rate_data(
        centirate,
        maker.drain_time,
        maker.total_time,
        maker.bpm_milli,
    ) {
        Some(rd) => rd,
        None => {
            return Err(RateError::RateOverflow);
        },
    };
    let proportions = calculate_proportions(&maker.skillset_scores);
    let osu_hash = generate_beatmap_hash(maker.encoded_chart.as_str());
    let mut ratings: Vec<Rating> = Vec::new();
    ratings.push(create_etterna_rating(&maker.skillset_scores));
    let mut i: usize = 0;
    while i < secondary.len()
        invariant
            i <= secondary@.len(),
            proportions == proportion_spec(maker.skillset_scores),
            ratings@.len() == 1 + i,
            ratings@[0].rating == maker.skillset_scores.overall,
            ratings@[0].rating_type@ == "etterna"@,
            ratings@[0].mode_rating matches ModeRating::Mania(m) && mania_breakdown_raw(
                m,
                maker.skillset_scores,
            ),
            forall|j: int|
                0 <= j < i ==> {
                    let rt = #[trigger] ratings@[1 + j];
                    &&& rt.rating == secondary@[j].value_milli
                    &&& rt.rating_type@ == secondary@[j].name@
                    &&& rt.mode_rating matches ModeRating::Mania(m) && mania_breakdown_matches(
                        m,
                        secondary@[j].value_milli,
                        proportion_spec(maker.skillset_scores),
                    )
                },
        decreases secondary@.len() - i,
    {
        let name = secondary[i].name.clone();
        let value = secondary[i].value_milli;
        let rt = rating_new(name, value, &proportions);
        let ghost pre = ratings@;
        let ghost grt = rt;
        ratings.push(rt);
        i += 1;
        proof {
            assert(ratings@ == pre.push(grt));
            assert forall|j: int|
                0 <= j < i implies {
                let rt2 = #[trigger] ratings@[1 + j];
                &&& rt2.rating == secondary@[j].value_milli
                &&& rt2.rating_type@ == secondary@[j].name@
                &&& rt2.mode_rating matches ModeRating::Mania(m) && mania_breakdown_matches(
                    m,
                    secondary@[j].value_milli,
                    proportion_spec(maker.skillset_scores),
                )
            } by {
                if j + 1 == i {
                    assert(ratings@[1 + j] == grt);
                } else {
                    assert(ratings@[1 + j] == pre[1 + j]);
                }
            }
        }
    }
    Ok(
        Rates {
            id: None,
            osu_hash: Some(osu_hash),
            centirate: rate_data.centirate,
            drain_time: rate_data.drain_time,
            total_time: rate_data.total_time,
            bpm_milli: rate_data.bpm_milli,
            rating: ratings,
        },
    )
}

/// One rate key and the skillset score the external difficulty
/// engine reported for it.
pub struct RateEntry {
    pub rate_key: String,
    pub skillset_scores: SkillsetScore,
}

/// The fan-out: assembles one rating record per rate key, all
/// sharing the chart's nominal times, its canonical encoded text and
/// the externally estimated secondary ratings. Fails, with nothing
/// assembled, exactly when some key is unusable or some scaled value
/// leaves its type.
pub fn process_beatmap_rates(
    entries: &Vec<RateEntry>,
    drain_time: u64,
    total_time: u64,
    bpm_milli: u64,
    encoded_chart: &String,
    secondary: &Vec<SecondaryRating>,
) -> (r: Result<Vec<Rates>, RateError>)
    ensures
        (r is Ok) <==> (forall|i: int|
            0 <= i < entries@.len() ==> feasible_rate(
                (#[trigger] entries@[i]).rate_key@,
                drain_time,
                total_time,
                bpm_milli,
            )),
        r matches Ok(v) ==> v@.len() == entries@.len() && forall|i: int|
            0 <= i < entries@.len() ==> rates_record_ok(
                (#[trigger] entries@[i]).rate_key@,
                drain_time,
                total_time,
                bpm_milli,
                entries@[i].skillset_scores,
                encoded_chart@,
                secondary@,
                v@[i],
            ),
{
    let mut all_rates: Vec<Rates> = Vec::new();
    let mut i: usize = 0;
    while i < entries.len()
        invariant
            i <= entries@.len(),
            all_rates@.len() == i,
            forall|j: int|
                0 <= j < i ==> feasible_rate(
                    (#[trigger] entries@[j]).rate_key@,
                    drain_time,
                    total_time,
                    bpm_milli,
                ),
            forall|j: int|
                0 <= j < i ==> rates_record_ok(
                    (#[trigger] entries@[j]).rate_key@,
                    drain_time,
                    total_time,
                    bpm_milli,
                    entries@[j].skillset_scores,
                    encoded_chart@,
                    secondary@,
                    all_rates@[j],
                ),
        decreases entries@.len() - i,
    {
        let maker = RatesMaker {
            rate_key: entries[i].rate_key.clone(),
            drain_time,
            total_time,
            bpm_milli,
            skillset_scores: entries[i].skillset_scores,
            encoded_chart: encoded_chart.clone(),
        };
        match rates_from_skillset_scores(&maker, secondary) {
            Ok(rates) => {
                all_rates.push(rates);
            },
            Err(e) => {
                proof {
                    assert(!feasible_rate(
                        entries@[i as int].rate_key@,
                        drain_time,
                        total_time,
                        bpm_milli,
                    ));
                }
                return Err(e);
            },
        }
        i += 1;
    }
    Ok(all_rates)
}

fn self_key(maker: &RatesMaker) -> (r: &str)
    ensures
        r@ == maker.rate_key@,
{
    maker.rate_key.as_str()
}

} // verus!

use juno::genetics::Chromosome;
use juno::indicators::{adler32, is_ma_tag, MA_CHOICES};
use juno::strategies::sig_osc::{OSC_FILTER_ENFORCE, OSC_FILTER_PREVENT};
use juno::strategies::{
    ma_from_str, ma_to_str, maturities_add_up, osc_filter_for, osc_filter_from_str,
    osc_filter_to_str, str_to_ma, MidTrendPolicy, Oscillator, Sig, SigOsc, SigOscParams, SigParams,
    Signal, StdRngExt, Strategy,
};
use juno::text::str_eq;
use juno::Advice;
use rand::rngs::StdRng;
use rand::SeedableRng;

/// The parameters of the test signal and the test oscillator: the maturity.
#[derive(Clone, Copy, Debug, PartialEq)]
struct Warmup {
    maturity: u32,
}

impl Chromosome for Warmup {
    fn len() -> usize {
        1
    }

    fn generate(_rng: &mut StdRng) -> Self {
        Warmup { maturity: 3 }
    }

    fn cross(&mut self, parent: &Self, i: usize) {
        assert_eq!(i, 0);
        self.maturity = parent.maturity;
    }

    fn mutate(&mut self, _rng: &mut StdRng, i: usize) {
        assert_eq!(i, 0);
        self.maturity += 1;
    }
}

/// What the test strategies are fed: the advice that the signal is to give,
/// and the two flags that the oscillator is to show.
#[derive(Clone, Copy)]
struct Tick {
    advice: Advice,
    oversold: bool,
    overbought: bool,
}

fn tick(advice: Advice) -> Tick {
    Tick { advice, oversold: false, overbought: false }
}

/// A signal that repeats the advice of the candle once it is mature.
struct Echo {
    advice: Advice,
    t: u32,
    t1: u32,
}

impl Strategy for Echo {
    type Params = Warmup;
    type Candle = Tick;

    fn new(params: &Warmup) -> Self {
        Echo { advice: Advice::Abstain, t: 0, t1: params.maturity }
    }

    fn maturity(&self) -> u32 {
        self.t1
    }

    fn mature(&self) -> bool {
        self.t >= self.t1
    }

    fn update(&mut self, candle: &Tick) {
        self.t = (self.t + 1).min(self.t1);
        if self.mature() {
            self.advice = candle.advice;
        }
    }
}

impl Signal for Echo {
    fn advice(&self) -> Advice {
        self.advice
    }
}

/// A signal that waits: it repeats the advice of the candle once it has seen
/// more candles than its maturity says.
struct LateEcho {
    advice: Advice,
    t: u32,
    t1: u32,
    past: bool,
}

impl Strategy for LateEcho {
    type Params = Warmup;
    type Candle = Tick;

    fn new(params: &Warmup) -> Self {
        LateEcho { advice: Advice::Abstain, t: 0, t1: params.maturity, past: false }
    }

    fn maturity(&self) -> u32 {
        self.t1
    }

    fn mature(&self) -> bool {
        self.t >= self.t1
    }

    fn update(&mut self, candle: &Tick) {
        if self.t < self.t1 {
            self.t += 1;
        } else {
            self.past = true;
        }
        if self.past {
            self.advice = candle.advice;
        }
    }
}

impl Signal for LateEcho {
    fn advice(&self) -> Advice {
        self.advice
    }
}

/// An oscillator that shows the flags of the candle.
struct Flags {
    oversold: bool,
    overbought: bool,
    t: u32,
    t1: u32,
}

impl Strategy for Flags {
    type Params = Warmup;
    type Candle = Tick;

    fn new(params: &Warmup) -> Self {
        Flags { oversold: false, overbought: false, t: 0, t1: params.maturity }
    }

    fn maturity(&self) -> u32 {
        self.t1
    }

    fn mature(&self) -> bool {
        self.t >= self.t1
    }

    fn update(&mut self, candle: &Tick) {
        self.t = (self.t + 1).min(self.t1);
        self.oversold = candle.oversold;
        self.overbought = candle.overbought;
    }
}

impl Oscillator for Flags {
    fn overbought(&self) -> bool {
        self.overbought
    }

    fn oversold(&self) -> bool {
        self.oversold
    }
}

fn sig(maturity: u32, persistence: u32, mid_trend_policy: MidTrendPolicy) -> Sig<Echo> {
    Sig::new(&SigParams { sig: Warmup { maturity }, persistence, mid_trend_policy })
}

fn sig_osc(
    sig_maturity: u32,
    osc_maturity: u32,
    osc_filter: u32,
    persistence: u32,
    mid_trend_policy: MidTrendPolicy,
) -> SigOsc<Echo, Flags> {
    SigOsc::new(&SigOscParams {
        sig: Warmup { maturity: sig_maturity },
        osc: Warmup { maturity: osc_maturity },
        osc_filter,
        persistence,
        mid_trend_policy,
    })
}

fn feed(sig: &mut Sig<Echo>, inputs: &[Advice]) -> Vec<Advice> {
    inputs
        .iter()
        .map(|advice| {
            sig.update(&tick(*advice));
            sig.advice()
        })
        .collect()
}

const POLICIES: [MidTrendPolicy; 3] =
    [MidTrendPolicy::Current, MidTrendPolicy::Previous, MidTrendPolicy::Ignore];

#[test]
fn sig_maturity_is_composed_of_its_parts() {
    assert_eq!(sig(5, 0, MidTrendPolicy::Current).maturity(), 4);
    assert_eq!(sig(5, 0, MidTrendPolicy::Previous).maturity(), 5);
    assert_eq!(sig(5, 0, MidTrendPolicy::Ignore).maturity(), 5);
    assert_eq!(sig(5, 1, MidTrendPolicy::Current).maturity(), 5);
    assert_eq!(sig(5, 4, MidTrendPolicy::Ignore).maturity(), 8);
    assert_eq!(sig(0, 1, MidTrendPolicy::Current).maturity(), 0);
    assert_eq!(sig(0, 9, MidTrendPolicy::Ignore).maturity(), 8);
    assert_eq!(sig(u32::MAX, 0, MidTrendPolicy::Current).maturity(), u32::MAX - 1);
    assert_eq!(sig(u32::MAX, 1, MidTrendPolicy::Current).maturity(), u32::MAX);
    assert_eq!(sig(1, u32::MAX, MidTrendPolicy::Current).maturity(), u32::MAX);
}

#[test]
fn sig_starts_immature_and_silent() {
    let sig = sig(3, 2, MidTrendPolicy::Ignore);
    assert!(!sig.mature());
    assert_eq!(sig.advice(), Advice::Abstain);
}

#[test]
fn sig_matures_after_maturity_candles() {
    let mut sig = sig(3, 2, MidTrendPolicy::Current);
    assert_eq!(sig.maturity(), 4);
    for _ in 0..3 {
        sig.update(&tick(Advice::Long));
        assert!(!sig.mature());
    }
    sig.update(&tick(Advice::Long));
    assert!(sig.mature());
    sig.update(&tick(Advice::Long));
    assert!(sig.mature());
}

#[test]
fn sig_without_filters_repeats_the_raw_signal() {
    let mut sig = sig(2, 0, MidTrendPolicy::Current);
    let inputs = [Advice::Long, Advice::Long, Advice::Short, Advice::Liquidate, Advice::Long];
    let expected = vec![
        Advice::Abstain,
        Advice::Long,
        Advice::Short,
        Advice::Liquidate,
        Advice::Long,
    ];
    assert_eq!(feed(&mut sig, &inputs), expected);
}

#[test]
fn sig_debounces_the_raw_signal() {
    let mut sig = sig(1, 2, MidTrendPolicy::Current);
    let inputs = [
        Advice::Long,
        Advice::Long,
        Advice::Long,
        Advice::Short,
        Advice::Short,
        Advice::Short,
        Advice::Short,
    ];
    let expected = vec![
        Advice::Abstain,
        Advice::Abstain,
        Advice::Long,
        Advice::Abstain,
        Advice::Abstain,
        Advice::Short,
        Advice::Short,
    ];
    assert_eq!(feed(&mut sig, &inputs), expected);
}

#[test]
fn sig_ignores_the_trend_it_starts_in() {
    let mut sig = sig(1, 0, MidTrendPolicy::Ignore);
    let inputs = [Advice::Long, Advice::Long, Advice::Short, Advice::Short, Advice::Long];
    let expected = vec![
        Advice::Abstain,
        Advice::Abstain,
        Advice::Short,
        Advice::Short,
        Advice::Long,
    ];
    assert_eq!(feed(&mut sig, &inputs), expected);
}

#[test]
fn sig_holds_its_advice_while_the_filters_disagree() {
    // With both filters at work the advice is `Abstain` wherever one of them
    // abstains.
    let mut sig = sig(1, 1, MidTrendPolicy::Ignore);
    let inputs = [Advice::Long, Advice::Short, Advice::Short, Advice::Long, Advice::Long];
    let expected = vec![
        Advice::Abstain,
        Advice::Abstain,
        Advice::Short,
        Advice::Abstain,
        Advice::Long,
    ];
    assert_eq!(feed(&mut sig, &inputs), expected);
}

#[test]
fn sig_abstains_until_it_is_mature() {
    let streams: [&[Advice]; 4] = [
        &[Advice::Long; 16],
        &[Advice::Short; 16],
        &[
            Advice::Long,
            Advice::Short,
            Advice::Long,
            Advice::Short,
            Advice::Long,
            Advice::Short,
            Advice::Long,
            Advice::Short,
            Advice::Liquidate,
            Advice::Liquidate,
            Advice::Liquidate,
            Advice::Liquidate,
        ],
        &[
            Advice::Long,
            Advice::Long,
            Advice::Long,
            Advice::Short,
            Advice::Short,
            Advice::Short,
            Advice::Short,
            Advice::Short,
            Advice::Long,
            Advice::Long,
            Advice::Long,
            Advice::Long,
        ],
    ];
    for maturity in 0..5u32 {
        for persistence in 0..5u32 {
            for policy in POLICIES {
                if maturity == 0 && persistence == 0 && policy == MidTrendPolicy::Current {
                    // The maturities add up to no candle at all.
                    continue;
                }
                for stream in streams {
                    let mut sig = sig(maturity, persistence, policy);
                    assert_eq!(sig.advice(), Advice::Abstain);
                    for advice in stream {
                        sig.update(&tick(*advice));
                        if !sig.mature() {
                            assert_eq!(sig.advice(), Advice::Abstain);
                        }
                    }
                    assert!(sig.mature());
                }
            }
        }
    }
}

#[test]
fn sig_abstains_on_as_many_candles_as_its_maturity_says() {
    for maturity in 0..5u32 {
        for persistence in 0..5u32 {
            for policy in POLICIES {
                if maturity == 0 && persistence == 0 && policy == MidTrendPolicy::Current {
                    continue;
                }
                if persistence == 0 && policy == MidTrendPolicy::Previous {
                    // These filters pass on at once what reaches them.
                    continue;
                }
                let mut sig = sig(maturity, persistence, policy);
                for _ in 0..sig.maturity() {
                    sig.update(&tick(Advice::Long));
                    assert_eq!(sig.advice(), Advice::Abstain);
                }
            }
        }
    }
}

#[test]
fn sig_over_a_signal_that_waits_waits() {
    for maturity in 0..5u32 {
        for persistence in 0..5u32 {
            for policy in POLICIES {
                if maturity == 0 && persistence == 0 && policy == MidTrendPolicy::Current {
                    continue;
                }
                let mut sig: Sig<LateEcho> = Sig::new(&SigParams {
                    sig: Warmup { maturity },
                    persistence,
                    mid_trend_policy: policy,
                });
                for _ in 0..sig.maturity() {
                    sig.update(&tick(Advice::Long));
                    assert_eq!(sig.advice(), Advice::Abstain);
                }
            }
        }
    }
}

#[test]
fn sig_osc_over_a_signal_that_waits_waits_unless_the_oscillator_is_slower() {
    for sig_maturity in 0..4u32 {
        for osc_maturity in 0..4u32 {
            for persistence in 0..4u32 {
                for policy in POLICIES {
                    if sig_maturity.max(osc_maturity) == 0
                        && persistence == 0
                        && policy == MidTrendPolicy::Current
                    {
                        continue;
                    }
                    if persistence == 0
                        && policy == MidTrendPolicy::Previous
                        && sig_maturity < osc_maturity
                    {
                        continue;
                    }
                    let mut strategy: SigOsc<LateEcho, Flags> = SigOsc::new(&SigOscParams {
                        sig: Warmup { maturity: sig_maturity },
                        osc: Warmup { maturity: osc_maturity },
                        osc_filter: OSC_FILTER_PREVENT,
                        persistence,
                        mid_trend_policy: policy,
                    });
                    for _ in 0..strategy.maturity() {
                        strategy.update(&tick(Advice::Short));
                        assert_eq!(strategy.advice(), Advice::Abstain);
                    }
                }
            }
        }
    }
}

#[test]
fn sig_osc_behind_a_slower_oscillator_passes_advice_on_at_its_maturity() {
    let mut strategy: SigOsc<LateEcho, Flags> = SigOsc::new(&SigOscParams {
        sig: Warmup { maturity: 1 },
        osc: Warmup { maturity: 3 },
        osc_filter: OSC_FILTER_PREVENT,
        persistence: 0,
        mid_trend_policy: MidTrendPolicy::Previous,
    });
    assert_eq!(strategy.maturity(), 3);
    let outputs: Vec<Advice> = (0..3)
        .map(|_| {
            strategy.update(&tick(Advice::Long));
            strategy.advice()
        })
        .collect();
    assert_eq!(outputs, vec![Advice::Abstain, Advice::Abstain, Advice::Long]);
}

#[test]
fn sig_passes_advice_on_at_once_through_filters_that_hold_nothing_back() {
    let mut sig = sig(2, 0, MidTrendPolicy::Previous);
    assert_eq!(sig.maturity(), 2);
    let outputs = feed(&mut sig, &[Advice::Long, Advice::Long, Advice::Long]);
    assert_eq!(outputs, vec![Advice::Abstain, Advice::Long, Advice::Long]);
}

#[test]
fn sig_osc_abstains_on_as_many_candles_as_its_maturity_says() {
    for sig_maturity in 0..4u32 {
        for osc_maturity in 0..4u32 {
            for persistence in 0..4u32 {
                for policy in POLICIES {
                    if sig_maturity.max(osc_maturity) == 0
                        && persistence == 0
                        && policy == MidTrendPolicy::Current
                    {
                        continue;
                    }
                    if persistence == 0 && policy == MidTrendPolicy::Previous {
                        continue;
                    }
                    let mut strategy =
                        sig_osc(sig_maturity, osc_maturity, OSC_FILTER_PREVENT, persistence, policy);
                    for _ in 0..strategy.maturity() {
                        strategy.update(&tick(Advice::Short));
                        assert_eq!(strategy.advice(), Advice::Abstain);
                    }
                }
            }
        }
    }
}

#[test]
fn a_fresh_sig_is_silent_for_maturity_candles_again() {
    // What a restart after a gap amounts to: the strategy is built anew.
    let params = SigParams {
        sig: Warmup { maturity: 2 },
        persistence: 2,
        mid_trend_policy: MidTrendPolicy::Current,
    };
    let mut sig: Sig<Echo> = Sig::new(&params);
    for _ in 0..6 {
        sig.update(&tick(Advice::Long));
    }
    assert_eq!(sig.advice(), Advice::Long);
    let mut sig: Sig<Echo> = Sig::new(&params);
    let maturity = sig.maturity();
    assert_eq!(maturity, 3);
    for _ in 0..maturity {
        sig.update(&tick(Advice::Long));
        assert_eq!(sig.advice(), Advice::Abstain);
    }
    sig.update(&tick(Advice::Long));
    assert_eq!(sig.advice(), Advice::Long);
}

#[test]
fn sig_osc_maturity_is_composed_of_its_parts() {
    let policy = MidTrendPolicy::Current;
    assert_eq!(sig_osc(5, 3, OSC_FILTER_ENFORCE, 0, policy).maturity(), 4);
    assert_eq!(sig_osc(3, 5, OSC_FILTER_ENFORCE, 0, policy).maturity(), 4);
    assert_eq!(sig_osc(3, 5, OSC_FILTER_PREVENT, 2, policy).maturity(), 6);
    assert_eq!(sig_osc(3, 5, OSC_FILTER_PREVENT, 0, MidTrendPolicy::Ignore).maturity(), 5);
    assert_eq!(sig_osc(0, 0, OSC_FILTER_PREVENT, 3, MidTrendPolicy::Ignore).maturity(), 2);
}

#[test]
fn sig_osc_enforce_needs_the_oscillator_to_confirm() {
    let mut strategy = sig_osc(1, 1, OSC_FILTER_ENFORCE, 0, MidTrendPolicy::Current);
    let candles = [
        Tick { advice: Advice::Long, oversold: false, overbought: false },
        Tick { advice: Advice::Long, oversold: true, overbought: false },
        Tick { advice: Advice::Short, oversold: true, overbought: false },
        Tick { advice: Advice::Short, oversold: false, overbought: true },
        Tick { advice: Advice::Liquidate, oversold: false, overbought: false },
    ];
    let expected = [
        Advice::Liquidate,
        Advice::Long,
        Advice::Liquidate,
        Advice::Short,
        Advice::Liquidate,
    ];
    for (candle, advice) in candles.iter().zip(expected) {
        strategy.update(candle);
        assert_eq!(strategy.advice(), advice);
    }
}

#[test]
fn sig_osc_prevent_vetoes_entries_into_extremes() {
    let mut strategy = sig_osc(1, 1, OSC_FILTER_PREVENT, 0, MidTrendPolicy::Current);
    let candles = [
        Tick { advice: Advice::Long, oversold: false, overbought: false },
        Tick { advice: Advice::Long, oversold: false, overbought: true },
        Tick { advice: Advice::Short, oversold: false, overbought: true },
        Tick { advice: Advice::Short, oversold: true, overbought: false },
        Tick { advice: Advice::Abstain, oversold: true, overbought: true },
    ];
    let expected =
        [Advice::Long, Advice::Liquidate, Advice::Short, Advice::Liquidate, Advice::Abstain];
    for (candle, advice) in candles.iter().zip(expected) {
        strategy.update(candle);
        assert_eq!(strategy.advice(), advice);
    }
}

#[test]
fn sig_osc_waits_for_the_slower_of_signal_and_oscillator() {
    let mut strategy = sig_osc(1, 3, OSC_FILTER_PREVENT, 0, MidTrendPolicy::Current);
    assert_eq!(strategy.maturity(), 2);
    let outputs: Vec<Advice> = (0..4)
        .map(|_| {
            strategy.update(&tick(Advice::Long));
            strategy.advice()
        })
        .collect();
    assert_eq!(outputs, vec![Advice::Abstain, Advice::Abstain, Advice::Long, Advice::Long]);
}

#[test]
fn sig_osc_abstains_until_it_is_mature() {
    for sig_maturity in 0..4u32 {
        for osc_maturity in 0..4u32 {
            for persistence in 0..4u32 {
                for policy in POLICIES {
                    if sig_maturity.max(osc_maturity) == 0
                        && persistence == 0
                        && policy == MidTrendPolicy::Current
                    {
                        continue;
                    }
                    for filter in [OSC_FILTER_ENFORCE, OSC_FILTER_PREVENT] {
                        let mut strategy =
                            sig_osc(sig_maturity, osc_maturity, filter, persistence, policy);
                        for i in 0..12 {
                            let advice = if i % 5 < 3 { Advice::Long } else { Advice::Short };
                            strategy.update(&Tick { advice, oversold: i % 2 == 0, overbought: i % 3 == 0 });
                            if !strategy.mature() {
                                assert_eq!(strategy.advice(), Advice::Abstain);
                            }
                        }
                        assert!(strategy.mature());
                    }
                }
            }
        }
    }
}

#[test]
fn ma_names_and_tags() {
    let names = ["alma", "dema", "ema", "ema2", "kama", "sma", "smma"];
    let tags = [
        adler32::ALMA,
        adler32::DEMA,
        adler32::EMA,
        adler32::EMA2,
        adler32::KAMA,
        adler32::SMA,
        adler32::SMMA,
    ];
    assert_eq!(MA_CHOICES, tags);
    for (name, tag) in names.iter().zip(tags) {
        assert_eq!(ma_to_str(tag), *name);
        assert_eq!(str_to_ma(name), tag);
        assert_eq!(ma_from_str(name), Some(tag));
    }
}

#[test]
fn ma_tags_are_adler32_of_the_names() {
    // Adler-32 by its definition.
    fn checksum(name: &str) -> u32 {
        let mut a: u32 = 1;
        let mut b: u32 = 0;
        for byte in name.bytes() {
            a = (a + byte as u32) % 65521;
            b = (b + a) % 65521;
        }
        (b << 16) | a
    }
    for tag in MA_CHOICES {
        assert_eq!(checksum(ma_to_str(tag)), tag);
    }
    assert_eq!(adler32::SMA, 43_450_690);
    assert_eq!(adler32::EMA, 40_698_164);
}

#[test]
fn unknown_ma_names_have_no_tag() {
    assert_eq!(ma_from_str(""), None);
    assert_eq!(ma_from_str("SMA"), None);
    assert_eq!(ma_from_str("sma "), None);
    assert_eq!(ma_from_str("wma"), None);
    assert_eq!(ma_from_str("ema3"), None);
}

#[test]
fn gen_ma_draws_from_the_choices() {
    let mut rng = StdRng::seed_from_u64(7);
    let mut seen = Vec::new();
    for _ in 0..400 {
        let tag = rng.gen_ma();
        assert!(MA_CHOICES.contains(&tag));
        if !seen.contains(&tag) {
            seen.push(tag);
        }
    }
    assert_eq!(seen.len(), MA_CHOICES.len());
}

#[test]
fn gen_mid_trend_policy_draws_every_policy() {
    let mut rng = StdRng::seed_from_u64(7);
    let mut seen = Vec::new();
    for _ in 0..200 {
        let policy = rng.gen_mid_trend_policy();
        if !seen.contains(&policy) {
            seen.push(policy);
        }
    }
    assert_eq!(seen.len(), 3);
}

#[test]
fn only_the_seven_tags_are_tags() {
    for tag in MA_CHOICES {
        assert!(is_ma_tag(tag));
    }
    assert!(!is_ma_tag(0));
    assert!(!is_ma_tag(adler32::SMA + 1));
    assert!(!is_ma_tag(u32::MAX));
}

#[test]
fn maturities_that_add_up() {
    assert!(!maturities_add_up(0, MidTrendPolicy::Current, 0));
    assert!(maturities_add_up(1, MidTrendPolicy::Current, 0));
    assert!(maturities_add_up(0, MidTrendPolicy::Previous, 0));
    assert!(maturities_add_up(0, MidTrendPolicy::Ignore, 0));
    assert!(maturities_add_up(0, MidTrendPolicy::Current, 1));
    assert!(maturities_add_up(u32::MAX, MidTrendPolicy::Current, 0));
    assert!(maturities_add_up(u32::MAX, MidTrendPolicy::Ignore, 0));
    assert!(maturities_add_up(u32::MAX, MidTrendPolicy::Current, 1));
    assert!(!maturities_add_up(u32::MAX, MidTrendPolicy::Current, 2));
    assert!(maturities_add_up(1, MidTrendPolicy::Ignore, u32::MAX));
    assert!(!maturities_add_up(2, MidTrendPolicy::Ignore, u32::MAX));
    assert!(maturities_add_up(0, MidTrendPolicy::Ignore, u32::MAX));
}

#[test]
fn a_coin_decides_how_the_oscillator_is_used() {
    assert_eq!(osc_filter_for(true), OSC_FILTER_ENFORCE);
    assert_eq!(osc_filter_for(false), OSC_FILTER_PREVENT);
}

#[test]
fn texts_are_equal_character_by_character() {
    assert!(str_eq("", ""));
    assert!(str_eq("sma", "sma"));
    assert!(!str_eq("sma", "smma"));
    assert!(!str_eq("sma", "ema"));
    assert!(!str_eq("sma", ""));
    assert!(!str_eq("", "sma"));
    assert!(str_eq("é-ü", "é-ü"));
    assert!(!str_eq("é", "e"));
}

#[test]
fn the_ways_to_use_the_oscillator_have_names() {
    assert_eq!(osc_filter_to_str(OSC_FILTER_ENFORCE), "enforce");
    assert_eq!(osc_filter_to_str(OSC_FILTER_PREVENT), "prevent");
    assert_eq!(osc_filter_from_str("enforce"), Some(OSC_FILTER_ENFORCE));
    assert_eq!(osc_filter_from_str("prevent"), Some(OSC_FILTER_PREVENT));
    assert_eq!(osc_filter_from_str("Enforce"), None);
    assert_eq!(osc_filter_from_str(""), None);
    assert_eq!(osc_filter_from_str("prevents"), None);
}

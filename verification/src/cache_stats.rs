//! Made-up prompt cache statistics.
//!
//! The upstream service has no prompt cache.  The numbers below are invented from the number of
//! input tokens and are reported in the place of real cache statistics.
use crate::double::{
    close_to_percent, lemma_nine_tenths, lemma_one_plus_percent, lemma_percent, lemma_scaled,
    nearest_double, one_plus_percent, one_plus_percent_double, percent, percent_double,
    round_to_double, scale, scaled,
};
use vstd::prelude::*;

verus! {

/// Cache statistics of one request.
#[derive(Debug, Clone, Copy, PartialEq, Eq, Structural)]
pub struct CacheStats {
    /// Tokens read from the cache.
    pub cache_read_input_tokens: i32,
    /// Tokens written to the cache.
    pub cache_creation_input_tokens: i32,
}

/// The random choices behind one set of statistics.
#[derive(Debug, Clone, Copy, PartialEq, Eq, Structural)]
pub struct CacheDraws {
    /// Share of the input that is read from the cache, in percent.
    pub read_percent: u32,
    /// Fluctuation of that share, in percent.
    pub read_variance: i32,
    /// Base share of the input that is written to the cache, in percent.
    pub creation_percent: u32,
    /// Tokens added to what is written.
    pub creation_variance: i32,
}

impl CacheDraws {
    /// The ranges from which the choices are made.
    pub open spec fn in_range(self) -> bool {
        &&& 60 <= self.read_percent <= 85
        &&& -5 <= self.read_variance <= 5
        &&& 5 <= self.creation_percent <= 15
        &&& 0 <= self.creation_variance <= 1000
    }
}

/// The smaller of two numbers.
pub open spec fn smaller(a: int, b: int) -> int {
    if a <= b {
        a
    } else {
        b
    }
}

/// The larger of two numbers.
pub open spec fn larger(a: int, b: int) -> int {
    if a >= b {
        a
    } else {
        b
    }
}

/// Tokens read: the drawn share of the input, varied, at most nine tenths of the input and then at
/// least a thousand tokens or all of a shorter input.
pub open spec fn read_tokens(input: nat, draws: CacheDraws) -> int {
    let base = scaled(input, percent(draws.read_percent as nat));
    let varied = scaled(base, one_plus_percent(draws.read_variance as int));
    larger(
        smaller(varied as int, scaled(input, nearest_double(9, 10)) as int),
        smaller(input as int, 1000),
    )
}

/// Tokens written: a sixth of the drawn share of the input, plus the drawn addition, at most 25000.
pub open spec fn creation_tokens(input: nat, draws: CacheDraws) -> int {
    let base = scaled(input, percent(draws.creation_percent as nat));
    smaller(base / 6 + draws.creation_variance, 25000)
}

/// The statistics of an input of `input` tokens: all zero unless `input` is positive.
pub open spec fn stats_of(input: int, draws: CacheDraws) -> CacheStats {
    if input <= 0 {
        CacheStats { cache_read_input_tokens: 0, cache_creation_input_tokens: 0 }
    } else {
        CacheStats {
            cache_read_input_tokens: read_tokens(input as nat, draws) as i32,
            cache_creation_input_tokens: creation_tokens(input as nat, draws) as i32,
        }
    }
}

/// At most nine tenths of the input are read, unless that is less than a thousand tokens; at least
/// a thousand tokens are, or all of a shorter input; and always more than half of the input.
pub proof fn read_tokens_bounds(input: nat, draws: CacheDraws)
    requires
        input <= i32::MAX,
        draws.in_range(),
    ensures
        smaller(input as int, 1000) <= read_tokens(input, draws) <= input,
        input > 0 ==> input < 2 * read_tokens(input, draws),
        1112 <= input ==> 10 * read_tokens(input, draws) <= 9 * input,
{
    let k = draws.read_percent as nat;
    let v = draws.read_variance as int;
    let base = scaled(input, percent(k));
    lemma_percent(k);
    lemma_scaled(input, percent(k), k);
    assert(60 * input <= input * k <= 85 * input) by (nonlinear_arith)
        requires
            60 <= k <= 85,
    ;
    let f = one_plus_percent(v);
    let varied = scaled(base, f);
    lemma_one_plus_percent(v);
    lemma_scaled(base, f, (100 + v) as nat);
    assert(95 * base <= base * (100 + v)) by (nonlinear_arith)
        requires
            -5 <= v,
    ;
    lemma_nine_tenths();
    lemma_scaled(input, nearest_double(9, 10), 90);
}

/// What is written is small: never negative, at most 25000 tokens, and at most a fortieth of the
/// input above a thousand tokens.
pub proof fn creation_tokens_bounds(input: nat, draws: CacheDraws)
    requires
        input <= i32::MAX,
        draws.in_range(),
    ensures
        0 <= creation_tokens(input, draws) <= 25000,
        40 * creation_tokens(input, draws) <= input + 40000,
{
    let k = draws.creation_percent as nat;
    lemma_percent(k);
    lemma_scaled(input, percent(k), k);
    assert(input * k <= 15 * input) by (nonlinear_arith)
        requires
            k <= 15,
    ;
}

/// What is read follows from what is drawn: the drawn share of the input, varied as drawn, up to
/// three tokens that rounding may take, and not more than that unless all or a thousand tokens are
/// read anyway.
pub proof fn read_tokens_follow_the_draws(input: nat, draws: CacheDraws)
    requires
        input <= i32::MAX,
        draws.in_range(),
    ensures
        10000 * (read_tokens(input, draws) + 3) >= (input * draws.read_percent) * (100
            + draws.read_variance),
        10000 * read_tokens(input, draws) <= (input * draws.read_percent) * (100
            + draws.read_variance) || read_tokens(input, draws) == smaller(input as int, 1000),
{
    let k = draws.read_percent as nat;
    let v = draws.read_variance as int;
    let base = scaled(input, percent(k));
    lemma_percent(k);
    lemma_scaled(input, percent(k), k);
    let varied = scaled(base, one_plus_percent(v));
    let cap = scaled(input, nearest_double(9, 10));
    lemma_shares_fit(input, draws);
    lemma_one_plus_percent(v);
    lemma_scaled(base, one_plus_percent(v), (100 + v) as nat);
    lemma_nine_tenths();
    lemma_scaled(input, nearest_double(9, 10), 90);
    let share = input * k;
    assert(share * (100 + v) <= 8925 * input) by (nonlinear_arith)
        requires
            share == input * k,
            k <= 85,
            -5 <= v <= 5,
    ;
    assert(100 * (base * (100 + v)) <= share * (100 + v) <= 100 * (base * (100 + v)) + 10500)
        by (nonlinear_arith)
        requires
            100 * base <= share <= 100 * base + 100,
            -5 <= v <= 5,
    ;
}

/// What is read is the drawn share of the input, scaled by the drawn variation, wherever that lies
/// between the bounds; below them it is the lower bound, and above them the upper, unless the lower
/// is more.
pub proof fn bounds_decide_only_beyond_them(input: nat, draws: CacheDraws)
    ensures
        ({
            let share = scaled(input, nearest_double(draws.read_percent as nat, 100));
            let varied = scaled(share, one_plus_percent(draws.read_variance as int)) as int;
            let least = if input < 1000 {
                input as int
            } else {
                1000
            };
            let most = scaled(input, nearest_double(9, 10)) as int;
            let read = read_tokens(input, draws);
            &&& least <= varied <= most ==> read == varied
            &&& varied < least ==> read == least
            &&& most < varied && least <= most ==> read == most
            &&& most < least ==> read == least
        }),
{
}

/// What is written is a sixth of the drawn share without its fraction, plus the drawn addition,
/// wherever that is at most 25000, and else 25000.
pub proof fn writing_is_a_sixth_of_the_share(input: nat, draws: CacheDraws)
    requires
        0 <= draws.creation_variance,
    ensures
        ({
            let share = scaled(input, nearest_double(draws.creation_percent as nat, 100));
            let written = creation_tokens(input, draws);
            &&& written < 25000 ==> 6 * (written - draws.creation_variance) <= share < 6 * (written
                - draws.creation_variance) + 6
            &&& written == 25000 ==> share + 6 * draws.creation_variance >= 150000
            &&& written <= 25000
        }),
{
}

/// What is written follows from what is drawn: a sixth of the drawn share of the input, up to two
/// tokens that rounding may take, plus the drawn addition, or 25000 tokens if that is less.
pub proof fn creation_tokens_follow_the_draws(input: nat, draws: CacheDraws)
    requires
        input <= i32::MAX,
        draws.in_range(),
    ensures
        ({
            let added = creation_tokens(input, draws) - draws.creation_variance;
            &&& 600 * added <= input * draws.creation_percent
            &&& 600 * (added + 2) >= input * draws.creation_percent || creation_tokens(input, draws)
                == 25000
        }),
{
    let k = draws.creation_percent as nat;
    lemma_percent(k);
    lemma_scaled(input, percent(k), k);
}

/// The statistics are those of what is read and written, and without input they are zero.
pub proof fn statistics_are_what_is_read_and_written(input: int, draws: CacheDraws)
    requires
        input <= i32::MAX,
        draws.in_range(),
    ensures
        input <= 0 ==> stats_of(input, draws).cache_read_input_tokens == 0 && stats_of(
            input,
            draws,
        ).cache_creation_input_tokens == 0,
        input > 0 ==> stats_of(input, draws).cache_read_input_tokens == read_tokens(
            input as nat,
            draws,
        ) && stats_of(input, draws).cache_creation_input_tokens == creation_tokens(
            input as nat,
            draws,
        ),
{
    if input > 0 {
        read_tokens_bounds(input as nat, draws);
        creation_tokens_bounds(input as nat, draws);
    }
}

/// Tokens that are reported as read do not fall out of the range of their type, whatever is drawn.
proof fn lemma_shares_fit(input: nat, draws: CacheDraws)
    requires
        input <= i32::MAX,
        draws.in_range(),
    ensures
        scaled(input, percent(draws.read_percent as nat)) <= input,
        scaled(
            scaled(input, percent(draws.read_percent as nat)),
            one_plus_percent(draws.read_variance as int),
        ) <= input,
        scaled(input, nearest_double(9, 10)) <= input,
        scaled(input, percent(draws.creation_percent as nat)) <= input,
{
    let k = draws.read_percent as nat;
    let v = draws.read_variance as int;
    let c = draws.creation_percent as nat;
    let base = scaled(input, percent(k));
    lemma_percent(k);
    lemma_scaled(input, percent(k), k);
    assert(input * k <= 85 * input) by (nonlinear_arith)
        requires
            k <= 85,
    ;
    lemma_one_plus_percent(v);
    lemma_scaled(base, one_plus_percent(v), (100 + v) as nat);
    assert(base * (100 + v) <= 105 * base) by (nonlinear_arith)
        requires
            v <= 5,
    ;
    lemma_nine_tenths();
    lemma_scaled(input, nearest_double(9, 10), 90);
    lemma_percent(c);
    lemma_scaled(input, percent(c), c);
    assert(input * c <= 15 * input) by (nonlinear_arith)
        requires
            c <= 15,
    ;
}

/// The factor of a share never makes the product too large to be rounded.
proof fn lemma_product_fits(x: nat, factor: (nat, nat))
    requires
        x <= i32::MAX,
        exists|k: nat| k <= 110 && close_to_percent(factor, k),
    ensures
        x * factor.0 < crate::double::mantissa_end() * factor.1,
{
    let k = choose|k: nat| k <= 110 && close_to_percent(factor, k);
    let (m, u) = factor;
    assert(x * m < crate::double::mantissa_end() * u) by (nonlinear_arith)
        requires
            0x100_0000_0000 * (100 * m) <= 0x100_0000_0000 * (k * u) + u,
            k <= 110,
            x <= 0x7fff_ffff,
            u >= 1,
    {
        assert(m <= 2 * u);
        assert(x * m <= 0x7fff_ffff * m);
    }
}

/// The statistics that follow from given random choices.
pub fn cache_stats_from(input_tokens: i32, draws: CacheDraws) -> (r: CacheStats)
    requires
        draws.in_range(),
    ensures
        r == stats_of(input_tokens as int, draws),
        input_tokens > 0 ==> r.cache_read_input_tokens == read_tokens(input_tokens as nat, draws),
        input_tokens > 0 ==> r.cache_creation_input_tokens == creation_tokens(
            input_tokens as nat,
            draws,
        ),
{
    if input_tokens <= 0 {
        return CacheStats { cache_read_input_tokens: 0, cache_creation_input_tokens: 0 };
    }
    let input: u32 = input_tokens as u32;
    let read_factor = percent_double(draws.read_percent);
    let variance_factor = one_plus_percent_double(draws.read_variance);
    let cap_factor = round_to_double(9, 10);
    let creation_factor = percent_double(draws.creation_percent);
    proof {
        lemma_shares_fit(input as nat, draws);
        lemma_percent(draws.read_percent as nat);
        lemma_one_plus_percent(draws.read_variance as int);
        lemma_nine_tenths();
        lemma_percent(draws.creation_percent as nat);
        lemma_product_fits(input as nat, read_factor@);
        lemma_product_fits(
            scaled(input as nat, percent(draws.read_percent as nat)),
            variance_factor@,
        );
        lemma_product_fits(input as nat, cap_factor@);
        lemma_product_fits(input as nat, creation_factor@);
    }
    let base: u32 = scale(input, read_factor) as u32;
    let varied: i32 = scale(base, variance_factor) as i32;
    let cap: i32 = scale(input, cap_factor) as i32;
    let floor: i32 = if input_tokens <= 1000 {
        input_tokens
    } else {
        1000
    };
    let capped: i32 = if varied <= cap {
        varied
    } else {
        cap
    };
    let read: i32 = if capped >= floor {
        capped
    } else {
        floor
    };
    let creation_base: i32 = scale(input, creation_factor) as i32;
    let raised: i32 = creation_base / 6 + draws.creation_variance;
    let creation: i32 = if raised <= 25000 {
        raised
    } else {
        25000
    };
    CacheStats { cache_read_input_tokens: read, cache_creation_input_tokens: creation }
}

/// Calls `fastrand::u32` on the range from `low` to `high`, both ends included, which is not empty.
/// The result lies in the range; which number it is, is left to chance.
#[verifier::external_body]
fn random_u32(low: u32, high: u32) -> (r: u32)
    requires
        low <= high,
    ensures
        low <= r <= high,
{
    fastrand::u32(low..=high)
}

/// Calls `fastrand::i32` on the range from `low` to `high`, both ends included, which is not empty.
/// The result lies in the range; which number it is, is left to chance.
#[verifier::external_body]
fn random_i32(low: i32, high: i32) -> (r: i32)
    requires
        low <= high,
    ensures
        low <= r <= high,
{
    fastrand::i32(low..=high)
}

/// The four choices were drawn, each from its own range.
pub closed spec fn are_drawn(draws: CacheDraws) -> bool {
    &&& call_ensures(random_u32, (60, 85), draws.read_percent)
    &&& call_ensures(random_i32, ((-5) as i32, 5), draws.read_variance)
    &&& call_ensures(random_u32, (5, 15), draws.creation_percent)
    &&& call_ensures(random_i32, (0, 1000), draws.creation_variance)
}

/// Draws come from the random number generator, each from its own range, and nothing else does.
proof fn draws_come_from_the_generator(draws: CacheDraws)
    ensures
        are_drawn(draws) <==> call_ensures(random_u32, (60, 85), draws.read_percent)
            && call_ensures(random_i32, ((-5) as i32, 5), draws.read_variance) && call_ensures(
            random_u32,
            (5, 15),
            draws.creation_percent,
        ) && call_ensures(random_i32, (0, 1000), draws.creation_variance),
{
}

/// What is drawn lies in its range.
pub proof fn draws_lie_in_their_ranges(draws: CacheDraws)
    requires
        are_drawn(draws),
    ensures
        draws.in_range(),
        60 <= draws.read_percent <= 85,
        -5 <= draws.read_variance <= 5,
        5 <= draws.creation_percent <= 15,
        0 <= draws.creation_variance <= 1000,
{
}

/// Draws a number without a sign.
fn draw_u32<G: Fn(u32, u32) -> u32>(generator: G, low: u32, high: u32) -> (r: u32)
    requires
        call_requires(generator, (low, high)),
    ensures
        call_ensures(generator, (low, high), r),
{
    generator(low, high)
}

/// Draws a number with a sign.
fn draw_i32<G: Fn(i32, i32) -> i32>(generator: G, low: i32, high: i32) -> (r: i32)
    requires
        call_requires(generator, (low, high)),
    ensures
        call_ensures(generator, (low, high), r),
{
    generator(low, high)
}

/// Invents cache statistics for an input of `input_tokens` tokens.
///
/// Most of the input counts as read from the cache, and a little as written to it.  The statistics
/// are those of some random choices within their ranges; without input they are all zero.
pub fn generate_fake_cache_stats(input_tokens: i32) -> (r: CacheStats)
    ensures
        input_tokens <= 0 ==> r.cache_read_input_tokens == 0 && r.cache_creation_input_tokens == 0,
        exists|draws: CacheDraws| #[trigger]
            draws.in_range() && r == stats_of(input_tokens as int, draws),
        input_tokens > 0 ==> exists|draws: CacheDraws| #[trigger]
            are_drawn(draws) && r == stats_of(input_tokens as int, draws),
        input_tokens > 0 ==> {
            &&& smaller(input_tokens as int, 1000) <= r.cache_read_input_tokens <= input_tokens
            &&& input_tokens < 2 * r.cache_read_input_tokens
            &&& 1112 <= input_tokens ==> 10 * r.cache_read_input_tokens <= 9 * input_tokens
            &&& 0 <= r.cache_creation_input_tokens <= 25000
            &&& 40 * r.cache_creation_input_tokens <= input_tokens + 40000
        },
{
    if input_tokens <= 0 {
        assert((CacheDraws {
            read_percent: 60,
            read_variance: 0,
            creation_percent: 5,
            creation_variance: 0,
        }).in_range());
        return CacheStats { cache_read_input_tokens: 0, cache_creation_input_tokens: 0 };
    }
    let read_percent: u32 = draw_u32(random_u32, 60, 85);
    let read_variance: i32 = draw_i32(random_i32, -5, 5);
    let creation_percent: u32 = draw_u32(random_u32, 5, 15);
    let creation_variance: i32 = draw_i32(random_i32, 0, 1000);
    let draws = CacheDraws { read_percent, read_variance, creation_percent, creation_variance };
    proof {
        assert(are_drawn(draws));
        draws_lie_in_their_ranges(draws);
        read_tokens_bounds(input_tokens as nat, draws);
        creation_tokens_bounds(input_tokens as nat, draws);
    }
    cache_stats_from(input_tokens, draws)
}

} // verus!

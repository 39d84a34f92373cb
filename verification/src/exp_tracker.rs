//! Experience: levels, and what each gain adds.
//!
//! The level is told from the total experience, by the totals at which the levels
//! start.

use vstd::prelude::*;

use crate::text;
use crate::text::decimal_chars;

verus! {

/// Where the total experience stands in the client.
pub const G_TOTAL_EXP: u32 = 0x00C31EA4;

/// The totals at which levels 1 to 65 start.
pub const LEVEL_THRESHOLDS: [u64; 65] = [
    0,
    125,
    300,
    500,
    750,
    1296,
    2401,
    4096,
    6561,
    10000,
    14641,
    20736,
    28561,
    38416,
    50625,
    65536,
    83521,
    104976,
    130321,
    160000,
    194481,
    234256,
    279841,
    331776,
    390625,
    456976,
    531441,
    614656,
    707281,
    810000,
    923521,
    1048576,
    1185921,
    1336336,
    1500625,
    1679616,
    1874161,
    2085136,
    2313441,
    2560000,
    2825761,
    3111696,
    3418801,
    3748096,
    4100625,
    4829985,
    6338401,
    9833664,
    19745853,
    31292598,
    44473900,
    59289759,
    75740173,
    93825145,
    113544672,
    134898756,
    157887397,
    182510594,
    208768347,
    236660657,
    266187523,
    297348946,
    330144925,
    364575461,
    400640553,
];

/// The experience that each level from 65 on takes.
pub const HIGH_RANGE: u64 = 36_065_092;

/// The total at which level 65 starts.
pub const HIGH_BASE: u64 = 400_640_553;

/// The total at which a level starts.
pub open spec fn threshold(level: int) -> int {
    if level <= 1 {
        0
    } else if level <= 65 {
        LEVEL_THRESHOLDS@[level - 1] as int
    } else {
        HIGH_BASE + (level - 65) * HIGH_RANGE
    }
}

/// The total at which a level starts.
pub fn level_start_threshold(level: u32) -> (r: u64)
    ensures
        r == threshold(level as int),
{
    if level <= 1 {
        0
    } else if level <= 65 {
        LEVEL_THRESHOLDS[(level - 1) as usize]
    } else {
        HIGH_BASE + (level as u64 - 65) * HIGH_RANGE
    }
}

/// Every level starts above the level below it.
proof fn thresholds_step(level: int)
    requires
        1 <= level,
    ensures
        threshold(level) < threshold(level + 1),
{
    assert(LEVEL_THRESHOLDS@[64] == HIGH_BASE);
    if level < 65 {
        assert forall|i: int| 0 <= i < 64 implies (#[trigger] LEVEL_THRESHOLDS@[i])
            < LEVEL_THRESHOLDS@[i + 1] by {
        }
        assert(LEVEL_THRESHOLDS@[level - 1] < LEVEL_THRESHOLDS@[level]);
    }
}

/// Higher levels start at higher totals.
pub proof fn thresholds_rise(a: int, b: int)
    requires
        1 <= a < b,
    ensures
        threshold(a) < threshold(b),
    decreases b - a,
{
    thresholds_step(b - 1);
    if a < b - 1 {
        thresholds_rise(a, b - 1);
    }
}

/// The experience that a level takes.
pub open spec fn range_of(level: int) -> int {
    if level == 0 {
        0
    } else {
        threshold(level + 1) - threshold(level)
    }
}

/// The experience that a level takes.
pub fn level_range(level: u32) -> (r: u64)
    requires
        level < u32::MAX,
    ensures
        r == range_of(level as int),
{
    if level == 0 {
        return 0;
    }
    let cur: u64 = level_start_threshold(level);
    let next: u64 = level_start_threshold(level + 1);
    proof {
        thresholds_step(level as int);
    }
    next.saturating_sub(cur)
}

/// How many whole levels above 65 a total reaches.
pub open spec fn levels_above(total: u64) -> int {
    (total - HIGH_BASE) / HIGH_RANGE as int
}

/// The level of a total below the start of level 65: the highest of the first `n`
/// that starts at or below it.
pub open spec fn low_level(total: int, n: int) -> int
    decreases n,
{
    if n <= 1 || total >= threshold(n) {
        n
    } else {
        low_level(total, n - 1)
    }
}

/// The level of a total; the levels above 65 are counted modulo 2^32.
pub open spec fn level_of(total: u64) -> int {
    if total >= HIGH_BASE {
        65 + levels_above(total) % 0x1_0000_0000
    } else {
        low_level(total as int, 65)
    }
}

/// The level of a total.
pub fn level_from_total_exp(total: u64) -> (level: u32)
    requires
        level_of(total) <= u32::MAX,
    ensures
        level == level_of(total),
{
    if total >= HIGH_BASE {
        let above: u64 = (total - HIGH_BASE) / HIGH_RANGE;
        return 65 + (above % 0x1_0000_0000) as u32;
    }
    let mut level: u32 = 65;
    while level > 1
        invariant
            total < HIGH_BASE,
            1 <= level <= 65,
            low_level(total as int, 65) == low_level(total as int, level as int),
        decreases level,
    {
        if total >= level_start_threshold(level) {
            return level;
        }
        level -= 1;
    }
    1
}

proof fn low_level_brackets(total: int, n: int)
    requires
        0 <= total < threshold(n + 1),
        1 <= n,
    ensures
        1 <= low_level(total, n) <= n,
        threshold(low_level(total, n)) <= total < threshold(low_level(total, n) + 1),
    decreases n,
{
    if n > 1 && total < threshold(n) {
        low_level_brackets(total, n - 1);
    }
}

/// The level of a total is the level that has started and whose next level has not.
pub proof fn level_brackets_total(total: u64)
    requires
        total >= HIGH_BASE ==> levels_above(total) < 0x1_0000_0000,
    ensures
        level_of(total) >= 1,
        threshold(level_of(total)) <= total < threshold(level_of(total) + 1),
{
    assert(LEVEL_THRESHOLDS@[64] == HIGH_BASE);
    if total >= HIGH_BASE {
        let q = levels_above(total);
        assert(q * HIGH_RANGE <= total - HIGH_BASE < (q + 1) * HIGH_RANGE);
        assert(level_of(total) == 65 + q);
    } else {
        thresholds_step(64);
        low_level_brackets(total as int, 64);
        assert(low_level(total as int, 65) == low_level(total as int, 64));
    }
}

/// More experience never means a lower level.
pub proof fn levels_do_not_fall(a: u64, b: u64)
    requires
        a <= b,
        b >= HIGH_BASE ==> levels_above(b) < 0x1_0000_0000,
    ensures
        level_of(a) <= level_of(b),
{
    if a >= HIGH_BASE {
        assert(levels_above(a) <= levels_above(b));
    }
    level_brackets_total(a);
    level_brackets_total(b);
    if level_of(a) > level_of(b) {
        if level_of(a) > level_of(b) + 1 {
            thresholds_rise(level_of(b) + 1, level_of(a));
        }
    }
}

/// What is missing to the next whole percent.
pub open spec fn to_next_percent(within: int, range: int) -> int {
    if range == 0 {
        0
    } else {
        let target = (range * (within * 100 / range + 1) + 99) / 100;
        if target >= within {
            target - within
        } else {
            0
        }
    }
}

/// What is missing to the next whole percent of `range`.
pub fn exp_to_next_pct(within: u64, range: u64) -> (r: u64)
    requires
        range > 0 ==> within * 100 <= u64::MAX,
        range > 0 ==> range * (within * 100 / (range as int) + 1) + 99 <= u64::MAX,
    ensures
        r == to_next_percent(within as int, range as int),
{
    if range == 0 {
        return 0;
    }
    let pct_now: u64 = (within * 100) / range;
    let ghost p = within * 100 / (range as int);
    assert(pct_now == p);
    assert(range * (p + 1) >= p + 1) by (nonlinear_arith)
        requires
            range >= 1,
            p >= 0,
    ;
    let next_pct: u64 = pct_now + 1;
    let target: u64 = (range * next_pct + 99) / 100;
    target.saturating_sub(within)
}

/// So much more experience, and no less, is the next whole percent reached.
pub proof fn next_percent_is_reached(within: int, range: int, less: int)
    requires
        0 <= within,
        0 < range,
        0 <= less,
    ensures
        to_next_percent(within, range) >= 1,
        (within + to_next_percent(within, range)) * 100 / range >= within * 100 / range + 1,
        less < to_next_percent(within, range) ==> (within + less) * 100 / range == within * 100
            / range,
{
    let p = within * 100 / range;
    let q = range * (p + 1);
    let target = (q + 99) / 100;
    vstd::arithmetic::div_mod::lemma_fundamental_div_mod(within * 100, range);
    vstd::arithmetic::div_mod::lemma_mod_bound(within * 100, range);
    assert(q == range * p + range) by (nonlinear_arith)
        requires
            q == range * (p + 1),
    ;
    assert(within * 100 < q);
    assert(within < target);
    assert(target * 100 >= q);
    percent_at_least(target * 100, range, p + 1);
    percent_at_least((within + less) * 100, range, p);
    assert(less < target - within ==> (within + less) * 100 / range < p + 1) by {
        vstd::arithmetic::div_mod::lemma_fundamental_div_mod((within + less) * 100, range);
        vstd::arithmetic::div_mod::lemma_mod_bound((within + less) * 100, range);
        let d = (within + less) * 100 / range;
        if less < target - within && d >= p + 1 {
            assert((within + less) * 100 < q);
            assert(range * d >= q) by (nonlinear_arith)
                requires
                    d >= p + 1,
                    range > 0,
                    q == range * (p + 1),
            ;
        }
    }
}

proof fn percent_at_least(x: int, range: int, p: int)
    requires
        0 < range,
        range * p <= x,
    ensures
        x / range >= p,
{
    vstd::arithmetic::div_mod::lemma_fundamental_div_mod(x, range);
    vstd::arithmetic::div_mod::lemma_mod_bound(x, range);
    let d = x / range;
    if d < p {
        assert(range * d + range <= range * p) by (nonlinear_arith)
            requires
                d + 1 <= p,
                range > 0,
        ;
    }
}

/// What one gain of experience comes to.
#[derive(Debug, Clone, Copy, PartialEq, Eq, Structural)]
pub struct TickReport {
    pub level: u32,
    pub delta_kill: u64,
    pub to_next_pct: u64,
    pub to_levelup: u64,
    pub session_total: u64,
    pub leveled_up: bool,
}

/// What has been seen of the experience.
#[derive(Debug, Clone, Copy, PartialEq, Eq, Structural)]
pub struct ExpTracker {
    pub enabled: bool,
    pub last_total_exp: Option<u32>,
    pub last_level: Option<u32>,
    pub session_baseline: Option<u32>,
}

impl Default for ExpTracker {
    fn default() -> (r: Self)
        ensures
            r == off(),
    {
        ExpTracker {
            enabled: false,
            last_total_exp: None,
            last_level: None,
            session_baseline: None,
        }
    }
}

/// A tracker that is switched off.
pub open spec fn off() -> ExpTracker {
    ExpTracker { enabled: false, last_total_exp: None, last_level: None, session_baseline: None }
}

/// `a - b`, 0 where that is below 0.
pub open spec fn minus(a: int, b: int) -> int {
    if a >= b {
        a - b
    } else {
        0
    }
}

/// The report on a new total.
pub open spec fn report(t: ExpTracker, total: u32) -> Option<TickReport> {
    match (t.last_total_exp, t.last_level, t.session_baseline) {
        (Some(last_total), Some(last_level), Some(baseline)) => if !t.enabled || total
            == last_total {
            None
        } else {
            let level = level_of(total as u64);
            let within = minus(total as int, threshold(level));
            let range = range_of(level);
            Some(
                TickReport {
                    level: level as u32,
                    delta_kill: minus(total as int, last_total as int) as u64,
                    to_next_pct: to_next_percent(within, range) as u64,
                    to_levelup: minus(range, within) as u64,
                    session_total: minus(total as int, baseline as int) as u64,
                    leveled_up: level != last_level,
                },
            )
        },
        _ => None,
    }
}

/// The tracker after a new total.
pub open spec fn after_tick(t: ExpTracker, total: u32) -> ExpTracker {
    if report(t, total) is None {
        t
    } else {
        ExpTracker {
            last_total_exp: Some(total),
            last_level: Some(level_of(total as u64) as u32),
            ..t
        }
    }
}

/// A tracker that starts to count at a total.
pub open spec fn started(total: u32) -> ExpTracker {
    ExpTracker {
        enabled: true,
        last_total_exp: Some(total),
        last_level: Some(level_of(total as u64) as u32),
        session_baseline: Some(total),
    }
}

proof fn small_totals(total: u32)
    ensures
        1 <= level_of(total as u64) <= 200,
        threshold(level_of(total as u64)) <= total < threshold(level_of(total as u64) + 1),
        0 < range_of(level_of(total as u64)) <= 40_000_000_000,
{
    assert(LEVEL_THRESHOLDS@[64] == HIGH_BASE);
    if total >= HIGH_BASE {
        assert(0 <= levels_above(total as u64) <= 120);
    } else {
        thresholds_step(64);
        low_level_brackets(total as int, 64);
        assert(low_level(total as int, 65) == low_level(total as int, 64));
    }
    level_brackets_total(total as u64);
    let level = level_of(total as u64);
    thresholds_step(level);
    if level + 1 < 201 {
        thresholds_rise(level + 1, 201);
    }
}

/// Every total that fits into 32 bits has a level.
pub proof fn u32_totals_have_levels(total: u32)
    ensures
        1 <= level_of(total as u64) <= 200,
{
    small_totals(total);
}

impl ExpTracker {
    /// Starts to count.
    pub fn enable(&mut self, total_exp: u32)
        ensures
            *final(self) == started(total_exp),
    {
        proof {
            small_totals(total_exp);
        }
        let level: u32 = level_from_total_exp(total_exp as u64);
        self.enabled = true;
        self.session_baseline = Some(total_exp);
        self.last_total_exp = Some(total_exp);
        self.last_level = Some(level);
    }

    /// Forgets everything.
    pub fn disable(&mut self)
        ensures
            *final(self) == off(),
    {
        self.enabled = false;
        self.last_total_exp = None;
        self.last_level = None;
        self.session_baseline = None;
    }

    /// Takes a new total; there is a report where it differs from the last one.
    pub fn tick(&mut self, total_exp: u32) -> (r: Option<TickReport>)
        ensures
            r == report(*old(self), total_exp),
            *final(self) == after_tick(*old(self), total_exp),
    {
        if !self.enabled {
            return None;
        }
        match (self.last_total_exp, self.last_level, self.session_baseline) {
            (Some(last_total), Some(last_level), Some(baseline)) => {
                if total_exp == last_total {
                    return None;
                }
                proof {
                    small_totals(total_exp);
                }
                let level: u32 = level_from_total_exp(total_exp as u64);
                let leveled_up: bool = level != last_level;
                let delta_kill: u64 = (total_exp as u64).saturating_sub(last_total as u64);
                let range: u64 = level_range(level);
                let within: u64 = (total_exp as u64).saturating_sub(level_start_threshold(level));
                proof {
                    let w = within as int;
                    let n = range as int;
                    let q = w * 100 / n;
                    assert(n * q <= w * 100) by (nonlinear_arith)
                        requires
                            q == w * 100 / n,
                            n > 0,
                            w >= 0,
                    ;
                    assert(n * (q + 1) == n * q + n) by (nonlinear_arith);
                }
                let to_next_pct: u64 = exp_to_next_pct(within, range);
                let to_levelup: u64 = range.saturating_sub(within);
                let session_total: u64 = (total_exp as u64).saturating_sub(baseline as u64);
                self.last_total_exp = Some(total_exp);
                self.last_level = Some(level);
                Some(
                    TickReport {
                        level,
                        delta_kill,
                        to_next_pct,
                        to_levelup,
                        session_total,
                        leveled_up,
                    },
                )
            },
            _ => None,
        }
    }
}

/// A tracker after several totals.
pub open spec fn after_ticks(t: ExpTracker, totals: Seq<u32>) -> ExpTracker
    decreases totals.len(),
{
    if totals.len() == 0 {
        t
    } else {
        after_tick(after_ticks(t, totals.drop_last()), totals.last())
    }
}

/// What was gained with each of several totals, added up.
pub open spec fn gains(t: ExpTracker, totals: Seq<u32>) -> int
    decreases totals.len(),
{
    if totals.len() == 0 {
        0
    } else {
        gains(t, totals.drop_last()) + match report(
            after_ticks(t, totals.drop_last()),
            totals.last(),
        ) {
            Some(r) => r.delta_kill as int,
            None => 0,
        }
    }
}

/// As long as the total does not fall, the gains since the start add up to what the
/// total has grown by, which is what a report names as the gain of the session.
pub proof fn gains_add_up(baseline: u32, totals: Seq<u32>)
    requires
        forall|i: int, j: int| 0 <= i <= j < totals.len() ==> totals[i] <= totals[j],
        forall|i: int| 0 <= i < totals.len() ==> baseline <= totals[i],
    ensures
        ({
            let t = after_ticks(started(baseline), totals);
            let last = if totals.len() == 0 {
                baseline
            } else {
                totals.last()
            };
            &&& t.enabled
            &&& t.session_baseline == Some(baseline)
            &&& t.last_total_exp == Some(last)
            &&& t.last_level is Some
            &&& gains(started(baseline), totals) == last - baseline
            &&& forall|next: u32|
                next >= last ==> (#[trigger] report(t, next) matches Some(r) ==> r.session_total
                    == gains(started(baseline), totals) + r.delta_kill)
        }),
    decreases totals.len(),
{
    if totals.len() > 0 {
        let rest = totals.drop_last();
        gains_add_up(baseline, rest);
        if rest.len() > 0 {
            assert(rest.last() == totals[totals.len() - 2]);
        }
    }
}

/// The bytes of a text that is plain ASCII.
pub open spec fn ascii(s: Seq<char>) -> Seq<u8> {
    Seq::new(s.len(), |i: int| s[i] as u8)
}

/// The line of a report: four numbers with slashes between them.
pub open spec fn chat_line(r: TickReport) -> Seq<char> {
    let slash = seq![' ', '/', ' '];
    text::decimal(r.delta_kill as nat) + slash + text::decimal(r.to_next_pct as nat) + slash
        + text::decimal(r.to_levelup as nat) + slash + text::decimal(r.session_total as nat)
}

fn push_number(line: &mut Vec<char>, n: u64)
    ensures
        final(line)@ == old(line)@ + text::decimal(n as nat),
{
    let mut digits: Vec<char> = decimal_chars(n);
    line.append(&mut digits);
}

fn push_slash(line: &mut Vec<char>)
    ensures
        final(line)@ == old(line)@ + seq![' ', '/', ' '],
{
    line.push(' ');
    line.push('/');
    line.push(' ');
    assert(line@ =~= old(line)@ + seq![' ', '/', ' ']);
}

/// The line that is shown for a report.
pub fn format_chat_line(r: &TickReport) -> (line: Vec<u8>)
    ensures
        line@ == ascii(chat_line(*r)),
{
    let mut text: Vec<char> = Vec::new();
    push_number(&mut text, r.delta_kill);
    push_slash(&mut text);
    push_number(&mut text, r.to_next_pct);
    push_slash(&mut text);
    push_number(&mut text, r.to_levelup);
    push_slash(&mut text);
    push_number(&mut text, r.session_total);
    assert(text@ =~= chat_line(*r));
    let mut line: Vec<u8> = Vec::new();
    let mut i: usize = 0;
    while i < text.len()
        invariant
            i <= text@.len(),
            line@ == ascii(text@.take(i as int)),
        decreases text@.len() - i,
    {
        line.push(
            #[verifier::truncate]
            (text[i] as u8),
        );
        assert(line@ =~= ascii(text@.take(i + 1)));
        i += 1;
    }
    assert(text@.take(text@.len() as int) =~= text@);
    line
}

} // verus!

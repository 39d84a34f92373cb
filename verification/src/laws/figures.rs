//! The player's figures, keys, and experience.

use vstd::prelude::*;

use crate::class_remap;
use crate::exp_tracker;
use crate::exp_tracker::ExpTracker;
use crate::exp_tracker::TickReport;
use crate::hotkey;
use crate::hotkey::KeyStep;
use crate::input_sim;
use crate::player_state;
use crate::player_state::StateReads;
use crate::poison_hook;
use crate::settings::FKeyMacro;
use crate::text;

verus! {

/// In the world every figure is the one that was read, and 0 where it could not be
/// read; food and load are the whole percents of 225 and of 240.
pub proof fn figures_are_what_was_read(reads: StateReads)
    requires
        reads.game_state == Some(3u32),
    ensures
        player_state::state_of(reads) is Some <==> reads.max_hp is Some && reads.max_mp is Some,
        player_state::state_of(reads) matches Some(s) ==> {
            &&& reads.max_hp == Some(s.max_hp)
            &&& reads.max_mp == Some(s.max_mp)
            &&& reads.hp == Some(s.hp) || reads.hp is None && s.hp == 0
            &&& reads.mp == Some(s.mp) || reads.mp is None && s.mp == 0
            &&& reads.map_id == Some(s.map_id) || reads.map_id is None && s.map_id == 0
            &&& reads.food_raw == Some(s.food_raw) || reads.food_raw is None && s.food_raw == 0
            &&& reads.weight_raw == Some(s.weight_raw) || reads.weight_raw is None && s.weight_raw
                == 0
            &&& s.food * 225 <= s.food_raw * 100 < (s.food + 1) * 225
            &&& s.weight * 240 <= s.weight_raw * 100 < (s.weight + 1) * 240
        },
{
}

/// Outside of the world every figure is 0, whatever else was read; where not even that
/// can be told there are no figures.
pub proof fn outside_the_world_there_is_nothing(reads: StateReads)
    requires
        reads.game_state != Some(3u32),
    ensures
        player_state::state_of(reads) is None <==> reads.game_state is None,
        player_state::state_of(reads) matches Some(s) ==> {
            &&& s.hp == 0 && s.max_hp == 0 && s.mp == 0 && s.max_mp == 0
            &&& s.food == 0 && s.weight == 0 && s.food_raw == 0 && s.weight_raw == 0
            &&& s.map_id == 0
        },
{
}

/// An index that was scrambled with the fixed number leads to its own entry of four
/// bytes; what is no index of the sixteen is told.  A figure that was scrambled with a
/// salt comes out as it went in.
pub proof fn scrambled_figures_are_found(index: u32, key_ptr: u32, value: u32, salt: u32)
    ensures
        index < 16 ==> player_state::stat_entry(index ^ 0xC001_7921, key_ptr) == Ok::<
            int,
            player_state::StatIndexError,
        >(key_ptr + 4 * index),
        index >= 16 ==> player_state::stat_entry(index ^ 0xC001_7921, key_ptr) == Err::<
            int,
            player_state::StatIndexError,
        >(player_state::StatIndexError { plain_idx: index }),
        player_state::plain(value ^ salt, salt) == value,
        player_state::plain(value, salt) ^ salt == value,
{
    assert((index ^ 0xC001_7921) ^ 0xC001_7921 == index) by (bit_vector);
    assert((value ^ salt) ^ salt == value) by (bit_vector);
}

/// A poison hurts exactly where the status word is at least 32 above a multiple of 64;
/// the fields of the player stand behind the player's object, which is never at 0.
pub proof fn poison_is_one_bit(status: u32, player: u32, offset: u32)
    requires
        player + offset <= u32::MAX,
    ensures
        poison_hook::hurts(Some(status)) <==> status % 64 >= 32,
        !poison_hook::hurts(None),
        player > 0 ==> poison_hook::field_of(Some(player), offset) == Some(
            (player + offset) as u32,
        ),
        poison_hook::field_of(Some(0), offset) is None,
        poison_hook::field_of(None, offset) is None,
{
}

/// Four classes look at bytes of their own, each for its own states; every other state
/// is looked for under its number.
pub proof fn classes_have_their_own_bytes(class: u8, id: i32)
    ensures
        ({
            let byte = class_remap::remapped(class, id);
            &&& class == 2 ==> byte == if id == 37 {
                24
            } else {
                id
            }
            &&& class == 3 ==> byte == if id == 37 {
                42
            } else {
                id
            }
            &&& class == 4 && 14 <= id <= 17 ==> byte == seq![31i32, 30, 32, 29][id - 14]
            &&& class == 4 && !(14 <= id <= 17) ==> byte == if id == 140 {
                121
            } else {
                id
            }
            &&& class == 6 ==> byte == if id == 16 {
                116
            } else {
                id
            }
            &&& class < 2 || class == 5 || class > 6 ==> byte == id
        }),
{
}

/// A key is swallowed exactly where one of F1 to F4 goes down while the game is in
/// front, and the macro that runs is that of the key.
pub proof fn function_keys_are_swallowed(code: i32, message: u32, vk: u32, focused: bool, n: usize)
    ensures
        hotkey::step_of(code, message, vk, focused) == KeyStep::Swallow(n) <==> {
            &&& focused
            &&& code >= 0
            &&& message == 0x100 || message == 0x104
            &&& n < 4
            &&& vk % 0x1_0000 == 0x70 + n
        },
{
}

/// The game is in front where both processes are known and the same.
pub proof fn the_front_is_known(game: u32, front: u32)
    ensures
        hotkey::in_front(Some(game), Some(front)) <==> game == front,
        !hotkey::in_front(None, Some(front)),
        !hotkey::in_front(Some(game), None),
        !hotkey::in_front(None, None),
{
}

/// A macro runs where it is switched on, says something, and did not run in the last
/// half second; running it is remembered for that macro alone, and nothing else is.
pub proof fn macros_rest_for_half_a_second(
    idx: int,
    macros: Seq<FKeyMacro>,
    last: Seq<Option<u64>>,
    now: u64,
    other: int,
)
    requires
        macros.len() == 4,
        last.len() == 4,
        0 <= idx,
        0 <= other < 4,
    ensures
        hotkey::runs(idx, macros, last, now) <==> {
            &&& idx < 4
            &&& macros[idx].enabled
            &&& text::trimmed(macros[idx].command@).len() > 0
            &&& last[idx] is None || now >= last[idx]->0 + 500_000_000
        },
        ({
            let after = hotkey::fired_after(idx, macros, last, now);
            &&& after.len() == 4
            &&& hotkey::runs(idx, macros, last, now) ==> after[idx] == Some(now)
            &&& !hotkey::runs(idx, macros, last, now) || other != idx ==> after[other]
                == last[other]
        }),
{
}

/// Spells need the player's book; everything needs a way to make calls.
pub proof fn macros_need_their_means(ready: bool, item_type: char, book_fresh: bool)
    ensures
        !ready ==> !hotkey::can_fire(ready, item_type, book_fresh),
        ready && book_fresh ==> hotkey::can_fire(ready, item_type, book_fresh),
        ready && !book_fresh ==> (hotkey::can_fire(ready, item_type, book_fresh) <==> item_type
            != 'S'),
{
}

/// The message of a key that goes up differs from that of the key that goes down by its
/// two highest bits; both bear the scan code, and count one press.  Neighbouring keys
/// have neighbouring numbers.
pub proof fn presses_go_down_and_up(n: u8, delayed: bool)
    ensures
        input_sim::press_of(n, delayed) is Some <==> 1 <= n <= 12,
        input_sim::press_of(n, delayed) matches Some(p) ==> {
            &&& p.vk == 0x70 + (n - 1)
            &&& p.lparam_up == p.lparam_down + 0xC000_0000
            &&& p.lparam_down % 0x1_0000 == 1
            &&& p.lparam_down / 0x1_0000 == if n <= 10 {
                0x3B + (n - 1)
            } else {
                0x57 + (n - 11)
            }
            &&& p.hold_ms == if delayed {
                80u32
            } else {
                0
            }
        },
{
}

/// Levels 6 to 45 start at the fourth power of the level; from level 65 on every level
/// takes the same.
pub proof fn levels_start_at_fourth_powers(level: int)
    ensures
        6 <= level <= 45 ==> exp_tracker::threshold(level) == level * level * level * level,
        level >= 65 ==> exp_tracker::threshold(level + 1) - exp_tracker::threshold(level)
            == 36_065_092,
        level <= 1 ==> exp_tracker::threshold(level) == 0,
        exp_tracker::threshold(65) == 400_640_553,
{
    let t = exp_tracker::LEVEL_THRESHOLDS@;
    assert(t[64] == 400_640_553);
    if 6 <= level <= 45 {
        fourth_powers(level);
    }
}

proof fn fourth_powers(level: int)
    requires
        6 <= level <= 45,
    ensures
        exp_tracker::LEVEL_THRESHOLDS@[level - 1] == level * level * level * level,
{
    let t = exp_tracker::LEVEL_THRESHOLDS@;
    let square = level * level;
    assert(level * level * level * level == square * square) by (nonlinear_arith)
        requires
            square == level * level,
    ;
    assert(t[5] == 36 * 36);
    assert(t[6] == 49 * 49);
    assert(t[7] == 64 * 64);
    assert(t[8] == 81 * 81);
    assert(t[9] == 100 * 100);
    assert(t[10] == 121 * 121);
    assert(t[11] == 144 * 144);
    assert(t[12] == 169 * 169);
    assert(t[13] == 196 * 196);
    assert(t[14] == 225 * 225);
    assert(t[15] == 256 * 256);
    assert(t[16] == 289 * 289);
    assert(t[17] == 324 * 324);
    assert(t[18] == 361 * 361);
    assert(t[19] == 400 * 400);
    assert(t[20] == 441 * 441);
    assert(t[21] == 484 * 484);
    assert(t[22] == 529 * 529);
    assert(t[23] == 576 * 576);
    assert(t[24] == 625 * 625);
    assert(t[25] == 676 * 676);
    assert(t[26] == 729 * 729);
    assert(t[27] == 784 * 784);
    assert(t[28] == 841 * 841);
    assert(t[29] == 900 * 900);
    assert(t[30] == 961 * 961);
    assert(t[31] == 1024 * 1024);
    assert(t[32] == 1089 * 1089);
    assert(t[33] == 1156 * 1156);
    assert(t[34] == 1225 * 1225);
    assert(t[35] == 1296 * 1296);
    assert(t[36] == 1369 * 1369);
    assert(t[37] == 1444 * 1444);
    assert(t[38] == 1521 * 1521);
    assert(t[39] == 1600 * 1600);
    assert(t[40] == 1681 * 1681);
    assert(t[41] == 1764 * 1764);
    assert(t[42] == 1849 * 1849);
    assert(t[43] == 1936 * 1936);
    assert(t[44] == 2025 * 2025);
}

/// What is gained is the difference to the last total, and to the first of the session;
/// the level is the one that has started and whose next has not, and what is missing to
/// that is told.
pub proof fn gains_are_differences(t: ExpTracker, total: u32, last: u32, level: u32, first: u32)
    requires
        t.last_total_exp == Some(last),
        t.last_level == Some(level),
        t.session_baseline == Some(first),
    ensures
        exp_tracker::report(t, total) is Some <==> t.enabled && total != last,
        exp_tracker::report(t, total) matches Some(r) ==> {
            let next = exp_tracker::threshold(r.level + 1);
            &&& total >= last ==> r.delta_kill == total - last
            &&& total < last ==> r.delta_kill == 0
            &&& total >= first ==> r.session_total == total - first
            &&& total < first ==> r.session_total == 0
            &&& exp_tracker::threshold(r.level as int) <= total < next
            &&& r.to_levelup == next - total
            &&& r.leveled_up <==> r.level != level
            &&& 1 <= r.to_next_pct
            &&& exp_tracker::after_tick(t, total) == (ExpTracker {
                last_total_exp: Some(total),
                last_level: Some(r.level),
                ..t
            })
        },
        exp_tracker::report(t, total) is None ==> exp_tracker::after_tick(t, total) == t,
{
    exp_tracker::u32_totals_have_levels(total);
    exp_tracker::level_brackets_total(total as u64);
    let level = exp_tracker::level_of(total as u64);
    let within = total - exp_tracker::threshold(level);
    let range = exp_tracker::range_of(level);
    exp_tracker::next_percent_is_reached(within, range, 0);
    next_percent_is_near(within, range);
    level_ends_in_time(level);
}

/// A level between 1 and 200 ends before 64 bits do.
proof fn level_ends_in_time(level: int)
    requires
        1 <= level <= 200,
    ensures
        exp_tracker::threshold(level + 1) <= 40_000_000_000,
{
    if level + 1 < 300 {
        exp_tracker::thresholds_rise(level + 1, 300);
    }
}

proof fn next_percent_is_near(within: int, range: int)
    requires
        0 <= within < range,
    ensures
        exp_tracker::to_next_percent(within, range) <= 2 * range,
{
    let p = within * 100 / range;
    assert(0 <= p < 100) by (nonlinear_arith)
        requires
            p == within * 100 / range,
            0 <= within < range,
    ;
    assert(range * (p + 1) <= range * 100) by (nonlinear_arith)
        requires
            0 <= p < 100,
            0 < range,
    ;
}

/// A session starts at its first total, with nothing gained.
pub proof fn sessions_start_where_they_are(total: u32)
    ensures
        ({
            let t = exp_tracker::started(total);
            &&& t.enabled
            &&& t.last_total_exp == Some(total)
            &&& t.session_baseline == Some(total)
            &&& t.last_level matches Some(level) && exp_tracker::threshold(level as int) <= total
                < exp_tracker::threshold(level + 1)
            &&& exp_tracker::report(t, total) is None
        }),
        ({
            let t = exp_tracker::off();
            &&& !t.enabled
            &&& exp_tracker::report(t, total) is None
        }),
{
    exp_tracker::u32_totals_have_levels(total);
    exp_tracker::level_brackets_total(total as u64);
}

/// The line of a report names the gain, what is missing to the next percent and to the
/// next level, and the gain of the session, in that order.
pub proof fn report_lines_name_four_numbers(r: TickReport)
    ensures
        ({
            let line = exp_tracker::chat_line(r);
            let a = text::decimal(r.delta_kill as nat);
            let b = text::decimal(r.to_next_pct as nat);
            let c = text::decimal(r.to_levelup as nat);
            let d = text::decimal(r.session_total as nat);
            &&& line.len() == a.len() + b.len() + c.len() + d.len() + 9
            &&& line.take(a.len() as int) == a
            &&& line.subrange(a.len() + 3int, a.len() + 3int + b.len()) == b
            &&& line.subrange(a.len() + b.len() + 6int, a.len() + b.len() + 6int + c.len()) == c
            &&& line.skip(line.len() - d.len()) == d
            &&& forall|i: int|
                #![trigger line[i]]
                i == a.len() + 1 || i == a.len() + b.len() + 4 || i == a.len() + b.len() + c.len()
                    + 7 ==> line[i] == '/' && line[i - 1] == ' ' && line[i + 1] == ' '
        }),
{
    let line = exp_tracker::chat_line(r);
    let a = text::decimal(r.delta_kill as nat);
    let b = text::decimal(r.to_next_pct as nat);
    let c = text::decimal(r.to_levelup as nat);
    let d = text::decimal(r.session_total as nat);
    assert(line.take(a.len() as int) =~= a);
    assert(line.subrange(a.len() + 3int, a.len() + 3int + b.len()) =~= b);
    assert(line.subrange(a.len() + b.len() + 6int, a.len() + b.len() + 6int + c.len()) =~= c);
    assert(line.skip(line.len() - d.len()) =~= d);
}

} // verus!

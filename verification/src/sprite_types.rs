//! What kinds of beings sprites show, from a list that the client keeps as text.
//!
//! A line of the list starts with a sprite's number; behind it may stand another
//! sprite that it looks like (`48=94`), and anywhere in a line the sprite's type
//! (`102.type(10)`).

use std::collections::HashMap;

use vstd::prelude::*;

use crate::text;
use crate::text::find_from;
use crate::text::is_white_char;
use crate::text::to_chars;
use crate::text::trim_bounds;

verus! {

broadcast use vstd::std_specs::hash::group_hash_axioms;

/// How many times a sprite is replaced by the one that it looks like.
pub const MAX_HOPS: u32 = 16;

/// Least sprites of a list that is worth keeping.
pub const MIN_RECORDS: usize = 100;

/// What stands before a sprite's type.
pub const TYPE_TAG: &'static str = "102.type(";

/// The bytes of [`TYPE_TAG`].
pub const TYPE_MARKER: [u8; 9] = [0x31, 0x30, 0x32, 0x2E, 0x74, 0x79, 0x70, 0x65, 0x28];

/// What bytes decode to as UTF-8, with a replacement for what is no UTF-8.
pub uninterp spec fn utf8_lossy(bytes: Seq<u8>) -> Seq<char>;

/// Decodes bytes with `String::from_utf8_lossy`.  The result depends on the bytes
/// alone and is named [`utf8_lossy`]; valid UTF-8 is decoded as it is, and how the
/// rest is replaced is left to that function.
#[verifier::external_body]
fn lossy_text(bytes: &[u8]) -> (r: String)
    ensures
        r@ == utf8_lossy(bytes@),
        vstd::utf8::valid_utf8(bytes@) ==> vstd::utf8::encode_utf8(r@) == bytes@,
{
    String::from_utf8_lossy(bytes).into_owned()
}

/// Whether a character is a digit.
pub open spec fn is_digit(c: char) -> bool {
    '0' <= c <= '9'
}

/// Whether all characters are digits.
pub open spec fn all_digits(s: Seq<char>) -> bool {
    forall|i: int| 0 <= i < s.len() ==> is_digit(#[trigger] s[i])
}

/// The number that a text spells, if it spells one up to `max`; a plus sign may
/// stand before the digits.
pub open spec fn number(s: Seq<char>, max: int) -> Option<int> {
    let digits = if s.len() > 0 && s[0] == '+' {
        s.drop_first()
    } else {
        s
    };
    if digits.len() > 0 && all_digits(digits) && text::decimal_value(digits) <= max {
        Some(text::decimal_value(digits))
    } else {
        None
    }
}

proof fn value_grows(s: Seq<char>, n: int)
    requires
        0 <= n <= s.len(),
        all_digits(s),
    ensures
        0 <= text::decimal_value(s.take(n)) <= text::decimal_value(s),
    decreases s.len(),
{
    if n < s.len() {
        let rest = s.drop_last();
        assert forall|i: int| 0 <= i < rest.len() implies is_digit(#[trigger] rest[i]) by {
            assert(is_digit(s[i]));
        }
        value_grows(rest, n);
        assert(rest.take(n) =~= s.take(n));
        assert(is_digit(s[s.len() - 1]));
    } else {
        assert(s.take(n) =~= s);
        if n > 0 {
            let rest = s.drop_last();
            assert forall|i: int| 0 <= i < rest.len() implies is_digit(#[trigger] rest[i]) by {
                assert(is_digit(s[i]));
            }
            value_grows(rest, rest.len() as int);
            assert(is_digit(s[s.len() - 1]));
        }
    }
}

fn parse_number(v: &[char], max: u32) -> (r: Option<u32>)
    requires
        max <= 1_000_000,
    ensures
        (match r {
            Some(n) => Some(n as int),
            None => None,
        }) == number(v@, max as int),
{
    let from: usize = if v.len() > 0 && v[0] == '+' {
        1
    } else {
        0
    };
    let digits: &[char] = vstd::slice::slice_subrange(v, from, v.len());
    let ghost d = if v@.len() > 0 && v@[0] == '+' {
        v@.drop_first()
    } else {
        v@
    };
    assert(digits@ =~= d);
    if digits.len() == 0 {
        return None;
    }
    let mut n: u32 = 0;
    let mut i: usize = 0;
    assert(d.take(0).len() == 0);
    while i < digits.len()
        invariant
            digits@ == d,
            i <= d.len(),
            d.len() > 0,
            max <= 1_000_000,
            n <= max,
            n == text::decimal_value(d.take(i as int)),
            forall|k: int| 0 <= k < i ==> is_digit(#[trigger] d[k]),
            d == if v@.len() > 0 && v@[0] == '+' {
                v@.drop_first()
            } else {
                v@
            },
        decreases d.len() - i,
    {
        let c: char = digits[i];
        assert(d.take(i + 1).drop_last() =~= d.take(i as int));
        assert(d.take(i + 1).last() == d[i as int]);
        if c < '0' || c > '9' {
            assert(!is_digit(d[i as int]));
            return None;
        }
        let next: u32 = n * 10 + (c as u32 - '0' as u32);
        assert(next == text::decimal_value(d.take(i + 1)));
        if next > max {
            proof {
                if all_digits(d) {
                    value_grows(d, i + 1);
                }
            }
            return None;
        }
        n = next;
        i += 1;
    }
    assert(d.take(d.len() as int) =~= d);
    Some(n)
}

/// How many digits a text starts with.
pub open spec fn leading_digits(s: Seq<char>) -> nat
    decreases s.len(),
{
    if s.len() > 0 && is_digit(s[0]) {
        1 + leading_digits(s.drop_first())
    } else {
        0
    }
}

/// Whether a character is white space in ASCII.
pub open spec fn is_ascii_white(c: char) -> bool {
    c == ' ' || c == '\t' || c == '\n' || c == '\u{C}' || c == '\r'
}

/// A text up to the first white space in ASCII.
pub open spec fn first_token(s: Seq<char>) -> Seq<char>
    decreases s.len(),
{
    if s.len() == 0 || is_ascii_white(s[0]) {
        Seq::empty()
    } else {
        seq![s[0]] + first_token(s.drop_first())
    }
}

/// What stands behind the first `c`, if there is one.
pub open spec fn behind(s: Seq<char>, c: char) -> Option<Seq<char>>
    decreases s.len(),
{
    if s.len() == 0 {
        None
    } else if s[0] == c {
        Some(s.drop_first())
    } else {
        behind(s.drop_first(), c)
    }
}

/// A line without a number sign at its start.
pub open spec fn without_sign(line: Seq<char>) -> Seq<char> {
    if line.len() > 0 && line[0] == '#' {
        line.drop_first()
    } else {
        line
    }
}

/// The sprite that a line starts with, and the one that it looks like, if any.
pub open spec fn header(line: Seq<char>) -> Option<(u16, Option<u16>)> {
    let s = without_sign(line);
    let n = leading_digits(s) as int;
    if n == 0 {
        None
    } else {
        match number(s.take(n), 65535) {
            None => None,
            Some(sprite) => {
                let rest = text::trim_start(s.skip(n));
                let alias = match behind(first_token(rest), '=') {
                    None => None,
                    Some(value) => match number(value, 65535) {
                        Some(a) => Some(a as u16),
                        None => None,
                    },
                };
                Some((sprite as u16, alias))
            },
        }
    }
}

fn count_digits(v: &[char]) -> (n: usize)
    ensures
        n == leading_digits(v@),
        n <= v@.len(),
{
    let mut n: usize = 0;
    assert(v@.skip(0) =~= v@);
    while n < v.len() && '0' <= v[n] && v[n] <= '9'
        invariant
            n <= v@.len(),
            leading_digits(v@) == n + leading_digits(v@.skip(n as int)),
        decreases v@.len() - n,
    {
        assert(v@.skip(n as int).drop_first() =~= v@.skip(n + 1));
        n += 1;
    }
    n
}

fn token_len(v: &[char]) -> (n: usize)
    ensures
        n <= v@.len(),
        first_token(v@) == v@.take(n as int),
{
    let mut n: usize = 0;
    assert(v@.skip(0) =~= v@);
    assert(v@.take(0) + first_token(v@) =~= first_token(v@));
    while n < v.len() && !(v[n] == ' ' || v[n] == '\t' || v[n] == '\n' || v[n] == '\u{C}' || v[n]
        == '\r')
        invariant
            n <= v@.len(),
            first_token(v@) == v@.take(n as int) + first_token(v@.skip(n as int)),
        decreases v@.len() - n,
    {
        assert(v@.skip(n as int).drop_first() =~= v@.skip(n + 1));
        assert(v@.take(n as int) + (seq![v@[n as int]] + first_token(v@.skip(n + 1)))
            =~= v@.take(n + 1) + first_token(v@.skip(n + 1)));
        n += 1;
    }
    assert(v@.take(n as int) + Seq::<char>::empty() =~= v@.take(n as int));
    n
}

fn find_behind(v: &[char], c: char) -> (r: Option<usize>)
    ensures
        match r {
            Some(at) => at <= v@.len() && behind(v@, c) == Some(v@.skip(at as int)),
            None => behind(v@, c) is None,
        },
{
    let mut i: usize = 0;
    assert(v@.skip(0) =~= v@);
    while i < v.len()
        invariant
            i <= v@.len(),
            behind(v@, c) == behind(v@.skip(i as int), c),
        decreases v@.len() - i,
    {
        assert(v@.skip(i as int).drop_first() =~= v@.skip(i + 1));
        if v[i] == c {
            return Some(i + 1);
        }
        i += 1;
    }
    None
}

/// The sprite that a line starts with, and the one that it looks like, if any.
pub fn parse_sprite_record_header(line: &[char]) -> (r: Option<(u16, Option<u16>)>)
    ensures
        r == header(line@),
{
    let from: usize = if line.len() > 0 && line[0] == '#' {
        1
    } else {
        0
    };
    let s: &[char] = vstd::slice::slice_subrange(line, from, line.len());
    assert(s@ =~= without_sign(line@));
    let n: usize = count_digits(s);
    if n == 0 {
        return None;
    }
    let head: &[char] = vstd::slice::slice_subrange(s, 0, n);
    assert(head@ =~= s@.take(n as int));
    let sprite: u16 = match parse_number(head, 65535) {
        None => return None,
        Some(x) => x as u16,
    };
    let mut lo: usize = n;
    while lo < s.len() && is_white_char(s[lo])
        invariant
            n <= lo <= s@.len(),
            text::trim_start(s@.skip(n as int)) == text::trim_start(s@.skip(lo as int)),
        decreases s@.len() - lo,
    {
        assert(s@.skip(lo as int).drop_first() =~= s@.skip(lo + 1));
        lo += 1;
    }
    let rest: &[char] = vstd::slice::slice_subrange(s, lo, s.len());
    assert(rest@ =~= s@.skip(lo as int));
    assert(rest@ == text::trim_start(s@.skip(n as int)));
    let len: usize = token_len(rest);
    let token: &[char] = vstd::slice::slice_subrange(rest, 0, len);
    assert(token@ =~= rest@.take(len as int));
    let alias: Option<u16> = match find_behind(token, '=') {
        None => None,
        Some(at) => {
            let value: &[char] = vstd::slice::slice_subrange(token, at, token.len());
            assert(value@ =~= token@.skip(at as int));
            match parse_number(value, 65535) {
                None => None,
                Some(x) => Some(x as u16),
            }
        },
    };
    Some((sprite, alias))
}

/// What stands behind the first place at which `p` stands.
pub open spec fn behind_text(s: Seq<char>, p: Seq<char>) -> Option<Seq<char>>
    decreases s.len(),
{
    if text::has_prefix(s, p) {
        Some(s.skip(p.len() as int))
    } else if s.len() == 0 {
        None
    } else {
        behind_text(s.drop_first(), p)
    }
}

/// A text up to the first `c`, if there is one.
pub open spec fn before(s: Seq<char>, c: char) -> Option<Seq<char>>
    decreases s.len(),
{
    if s.len() == 0 {
        None
    } else if s[0] == c {
        Some(Seq::empty())
    } else {
        match before(s.drop_first(), c) {
            Some(rest) => Some(seq![s[0]] + rest),
            None => None,
        }
    }
}

/// The type that a line gives, if it gives one.
pub open spec fn line_type(line: Seq<char>) -> Option<u8> {
    match behind_text(line, TYPE_TAG@) {
        None => None,
        Some(tail) => match before(tail, ')') {
            None => None,
            Some(inner) => match number(text::trimmed(inner), 255) {
                Some(t) => Some(t as u8),
                None => None,
            },
        },
    }
}

proof fn behind_text_at(s: Seq<char>, p: Seq<char>, at: int)
    requires
        text::stands_at(s, p, at),
        forall|k: int| 0 <= k < at ==> !text::stands_at(s, p, k),
    ensures
        behind_text(s, p) == Some(s.skip(at + p.len())),
    decreases at,
{
    if at == 0 {
        assert(s.take(p.len() as int) =~= s.subrange(0, p.len() as int));
    } else {
        assert(!text::stands_at(s, p, 0));
        if text::has_prefix(s, p) {
            assert(s.take(p.len() as int) =~= s.subrange(0, p.len() as int));
        }
        let t = s.drop_first();
        assert(t.subrange(at - 1, at - 1 + p.len()) =~= s.subrange(at, at + p.len()));
        assert forall|k: int| 0 <= k < at - 1 implies !text::stands_at(t, p, k) by {
            assert(!text::stands_at(s, p, k + 1));
            if text::stands_at(t, p, k) {
                assert(t.subrange(k, k + p.len()) =~= s.subrange(k + 1, k + 1 + p.len()));
            }
        }
        behind_text_at(t, p, at - 1);
        assert(t.skip(at - 1 + p.len()) =~= s.skip(at + p.len()));
    }
}

proof fn behind_text_nowhere(s: Seq<char>, p: Seq<char>)
    requires
        forall|k: int| 0 <= k ==> !text::stands_at(s, p, k),
    ensures
        behind_text(s, p) is None,
    decreases s.len(),
{
    assert(!text::stands_at(s, p, 0));
    if text::has_prefix(s, p) {
        assert(s.take(p.len() as int) =~= s.subrange(0, p.len() as int));
    }
    if s.len() > 0 {
        let t = s.drop_first();
        assert forall|k: int| 0 <= k implies !text::stands_at(t, p, k) by {
            assert(!text::stands_at(s, p, k + 1));
            if text::stands_at(t, p, k) {
                assert(t.subrange(k, k + p.len()) =~= s.subrange(k + 1, k + 1 + p.len()));
            }
        }
        behind_text_nowhere(t, p);
    }
}

fn find_before(v: &[char], c: char) -> (r: Option<usize>)
    ensures
        match r {
            Some(n) => n <= v@.len() && before(v@, c) == Some(v@.take(n as int)),
            None => before(v@, c) is None,
        },
{
    let mut i: usize = 0;
    assert(v@.skip(0) =~= v@);
    let ghost whole = before(v@, c);
    assert(match before(v@, c) {
        Some(rest) => rest =~= v@.take(0) + rest,
        None => true,
    });
    while i < v.len()
        invariant
            i <= v@.len(),
            whole == before(v@, c),
            match before(v@.skip(i as int), c) {
                Some(rest) => whole == Some(v@.take(i as int) + rest),
                None => whole is None,
            },
        decreases v@.len() - i,
    {
        assert(v@.skip(i as int).drop_first() =~= v@.skip(i + 1));
        if v[i] == c {
            assert(v@.take(i as int) + Seq::<char>::empty() =~= v@.take(i as int));
            return Some(i);
        }
        proof {
            if let Some(rest) = before(v@.skip(i + 1), c) {
                assert(v@.take(i as int) + (seq![v@[i as int]] + rest) =~= v@.take(i + 1) + rest);
            }
        }
        i += 1;
    }
    None
}

/// The type that a line gives, if it gives one.
pub fn parse_sprite_type(line: &[char]) -> (r: Option<u8>)
    ensures
        r == line_type(line@),
{
    let tag: Vec<char> = to_chars(TYPE_TAG);
    let at: usize = match find_from(line, tag.as_slice(), 0) {
        None => {
            proof {
                behind_text_nowhere(line@, tag@);
            }
            return None;
        },
        Some(at) => at,
    };
    proof {
        behind_text_at(line@, tag@, at as int);
    }
    let total: usize = line.len();
    let tail: &[char] = vstd::slice::slice_subrange(line, at + tag.len(), total);
    assert(tail@ =~= line@.skip(at + tag@.len()));
    match find_before(tail, ')') {
        None => None,
        Some(end) => {
            let inner: &[char] = vstd::slice::slice_subrange(tail, 0, end);
            assert(inner@ =~= tail@.take(end as int));
            let (lo, hi) = trim_bounds(inner);
            let digits: &[char] = vstd::slice::slice_subrange(inner, lo, hi);
            match parse_number(digits, 255) {
                None => None,
                Some(t) => Some(t as u8),
            }
        },
    }
}

/// What lines have said so far: types and likenesses, and the sprite that the last
/// line with a number started with.
pub struct Records {
    pub current: Option<u16>,
    pub direct: Map<u16, u8>,
    pub aliases: Map<u16, u16>,
}

/// What lines have said after one more line.
pub open spec fn after_line(st: Records, line: Seq<char>) -> Records {
    let st = match header(line) {
        Some((sprite, alias)) => Records {
            current: Some(sprite),
            aliases: match alias {
                Some(a) => st.aliases.insert(sprite, a),
                None => st.aliases,
            },
            ..st
        },
        None => st,
    };
    match (st.current, line_type(line)) {
        (Some(sprite), Some(t)) => Records { direct: st.direct.insert(sprite, t), ..st },
        _ => st,
    }
}

/// Whether a character ends a line.
pub open spec fn ends_line(c: char) -> bool {
    c == '\n' || c == '\0'
}

/// How many characters stand before the first end of a line.
pub open spec fn line_len(s: Seq<char>) -> nat
    decreases s.len(),
{
    if s.len() == 0 || ends_line(s[0]) {
        0
    } else {
        1 + line_len(s.drop_first())
    }
}

/// A line without carriage returns at its end.
pub open spec fn without_returns(s: Seq<char>) -> Seq<char>
    decreases s.len(),
{
    if s.len() > 0 && s.last() == '\r' {
        without_returns(s.drop_last())
    } else {
        s
    }
}

proof fn line_len_fits(s: Seq<char>)
    ensures
        line_len(s) <= s.len(),
    decreases s.len(),
{
    if s.len() > 0 {
        line_len_fits(s.drop_first());
    }
}

/// What lines have said after all lines of a text.
pub open spec fn after_text(st: Records, s: Seq<char>) -> Records
    decreases s.len(),
{
    let n = line_len(s) as int;
    let st = after_line(st, without_returns(s.take(n)));
    if n >= s.len() {
        st
    } else {
        after_text(st, s.skip(n + 1))
    }
}

/// What a text says.
pub open spec fn text_records(s: Seq<char>) -> Records {
    after_text(Records { current: None, direct: Map::empty(), aliases: Map::empty() }, s)
}

/// Types and likenesses of sprites.
#[derive(Debug)]
pub struct ParsedSpriteTypeRecords {
    pub direct_types: HashMap<u16, u8>,
    pub aliases: HashMap<u16, u16>,
    /// All sprites of which anything is known.
    pub sprites: Vec<u16>,
}

impl ParsedSpriteTypeRecords {
    /// Every sprite of which anything is known is listed.
    pub open spec fn wf(&self) -> bool {
        &&& forall|s: u16| #[trigger]
            self.direct_types@.dom().contains(s) ==> self.sprites@.contains(s)
        &&& forall|s: u16| #[trigger] self.aliases@.dom().contains(s) ==> self.sprites@.contains(s)
    }
}

/// What a text says.
pub fn parse_sprite_text(v: &[char]) -> (r: ParsedSpriteTypeRecords)
    ensures
        r.wf(),
        r.direct_types@ == text_records(v@).direct,
        r.aliases@ == text_records(v@).aliases,
{
    let mut r = ParsedSpriteTypeRecords {
        direct_types: HashMap::new(),
        aliases: HashMap::new(),
        sprites: Vec::new(),
    };
    let mut current: Option<u16> = None;
    let mut from: usize = 0;
    let mut done: bool = false;
    let ghost start = Records { current: None, direct: Map::empty(), aliases: Map::empty() };
    assert(v@.skip(0) =~= v@);
    assert(r.direct_types@ =~= Map::<u16, u8>::empty());
    assert(r.aliases@ =~= Map::<u16, u16>::empty());
    while !done
        invariant
            from <= v@.len(),
            r.wf(),
            ({
                let st = Records { current, direct: r.direct_types@, aliases: r.aliases@ };
                if done {
                    st == text_records(v@)
                } else {
                    after_text(st, v@.skip(from as int)) == text_records(v@)
                }
            }),
        decreases
            v@.len() - from,
            if done {
                0int
            } else {
                1int
            },
    {
        let ghost rest = v@.skip(from as int);
        let ghost st0 = Records { current, direct: r.direct_types@, aliases: r.aliases@ };
        let mut to: usize = from;
        assert(rest.skip(0) =~= rest);
        while to < v.len() && v[to] != '\n' && v[to] != '\0'
            invariant
                from <= to <= v@.len(),
                rest == v@.skip(from as int),
                line_len(rest) == (to - from) + line_len(rest.skip(to - from)),
            decreases v@.len() - to,
        {
            assert(rest.skip(to - from).drop_first() =~= rest.skip(to + 1 - from));
            assert(rest.skip(to - from)[0] == v@[to as int]);
            to += 1;
        }
        assert(to < v@.len() ==> rest.skip(to - from)[0] == v@[to as int]);
        let mut end: usize = to;
        let ghost whole = rest.take(to - from);
        assert(v@.subrange(from as int, end as int) =~= whole);
        while end > from && v[end - 1] == '\r'
            invariant
                from <= end <= to <= v@.len(),
                without_returns(whole) == without_returns(v@.subrange(from as int, end as int)),
            decreases end,
        {
            assert(v@.subrange(from as int, end as int).drop_last() =~= v@.subrange(
                from as int,
                end - 1,
            ));
            end -= 1;
        }
        assert(end > from ==> v@.subrange(from as int, end as int).last() == v@[end - 1]);
        let line: &[char] = vstd::slice::slice_subrange(v, from, end);
        assert(line@ == without_returns(rest.take(line_len(rest) as int)));
        let ghost before_header = r;
        if let Some((sprite, alias)) = parse_sprite_record_header(line) {
            current = Some(sprite);
            if let Some(a) = alias {
                let ghost before = r.sprites@;
                r.aliases.insert(sprite, a);
                r.sprites.push(sprite);
                proof {
                    grown_list_covers(before, sprite);
                }
            }
        }
        if let (Some(sprite), Some(t)) = (current, parse_sprite_type(line)) {
            let ghost before = r.sprites@;
            r.direct_types.insert(sprite, t);
            r.sprites.push(sprite);
            proof {
                grown_list_covers(before, sprite);
            }
        }
        let ghost st1 = Records { current, direct: r.direct_types@, aliases: r.aliases@ };
        assert(st1 == after_line(st0, line@));
        if to >= v.len() {
            done = true;
        } else {
            assert(rest.skip(line_len(rest) as int + 1) =~= v@.skip(to + 1));
            from = to + 1;
        }
    }
    r
}

proof fn grown_list_covers(list: Seq<u16>, x: u16)
    ensures
        list.push(x).contains(x),
        forall|s: u16| #[trigger] list.contains(s) ==> list.push(x).contains(s),
{
    assert(list.push(x)[list.len() as int] == x);
    assert forall|s: u16| #[trigger] list.contains(s) implies list.push(x).contains(s) by {
        let i = list.index_of(s);
        assert(list.push(x)[i] == s);
    }
}

/// What a region of the client's memory says.
pub fn parse_runtime_sprite_type_records(raw: &[u8]) -> (r: ParsedSpriteTypeRecords)
    ensures
        r.wf(),
        r.direct_types@ == text_records(utf8_lossy(raw@)).direct,
        r.aliases@ == text_records(utf8_lossy(raw@)).aliases,
{
    let all: String = lossy_text(raw);
    let chars: Vec<char> = to_chars(all.as_str());
    parse_sprite_text(chars.as_slice())
}

/// The type of a sprite: its own, else that of the sprite it looks like, and so on,
/// up to so many times.
pub open spec fn resolved(
    sprite: u16,
    direct: Map<u16, u8>,
    aliases: Map<u16, u16>,
    hops: nat,
) -> Option<u8>
    decreases hops,
{
    if hops == 0 {
        None
    } else if direct.dom().contains(sprite) {
        Some(direct[sprite])
    } else if aliases.dom().contains(sprite) {
        resolved(aliases[sprite], direct, aliases, (hops - 1) as nat)
    } else {
        None
    }
}

/// The type of a sprite.
pub fn resolve_runtime_sprite_type(
    sprite: u16,
    direct_types: &HashMap<u16, u8>,
    aliases: &HashMap<u16, u16>,
) -> (r: Option<u8>)
    ensures
        r == resolved(sprite, direct_types@, aliases@, MAX_HOPS as nat),
{
    let mut current: u16 = sprite;
    let mut left: u32 = MAX_HOPS;
    while left > 0
        invariant
            left <= MAX_HOPS,
            resolved(sprite, direct_types@, aliases@, MAX_HOPS as nat) == resolved(
                current,
                direct_types@,
                aliases@,
                left as nat,
            ),
        decreases left,
    {
        if let Some(t) = direct_types.get(&current) {
            return Some(*t);
        }
        match aliases.get(&current) {
            None => return None,
            Some(a) => {
                current = *a;
            },
        }
        left -= 1;
    }
    None
}

/// A sprite's own type goes before that of any sprite that it looks like.
pub proof fn own_type_goes_first(sprite: u16, direct: Map<u16, u8>, aliases: Map<u16, u16>)
    requires
        direct.dom().contains(sprite),
    ensures
        resolved(sprite, direct, aliases, MAX_HOPS as nat) == Some(direct[sprite]),
{
}

/// A sprite without a type of its own has the type of the one that it looks like, if
/// that has one of its own.
pub proof fn likeness_gives_the_type(
    sprite: u16,
    direct: Map<u16, u8>,
    aliases: Map<u16, u16>,
)
    requires
        !direct.dom().contains(sprite),
        aliases.dom().contains(sprite),
        direct.dom().contains(aliases[sprite]),
    ensures
        resolved(sprite, direct, aliases, MAX_HOPS as nat) == Some(direct[aliases[sprite]]),
{
    reveal_with_fuel(resolved, 2);
}

/// The types of all sprites that have one.
pub open spec fn all_resolved(direct: Map<u16, u8>, aliases: Map<u16, u16>) -> Map<u16, u8> {
    Map::new(
        |s: u16| resolved(s, direct, aliases, MAX_HOPS as nat) is Some,
        |s: u16| resolved(s, direct, aliases, MAX_HOPS as nat)->0,
    )
}

/// The types of all sprites that have one.
pub fn resolve_runtime_sprite_types(records: &ParsedSpriteTypeRecords) -> (r: HashMap<u16, u8>)
    requires
        records.wf(),
    ensures
        r@ == all_resolved(records.direct_types@, records.aliases@),
{
    let mut r: HashMap<u16, u8> = HashMap::new();
    let ghost direct = records.direct_types@;
    let ghost aliases = records.aliases@;
    let mut i: usize = 0;
    while i < records.sprites.len()
        invariant
            i <= records.sprites@.len(),
            direct == records.direct_types@,
            aliases == records.aliases@,
            forall|s: u16| #[trigger]
                r@.dom().contains(s) ==> resolved(s, direct, aliases, MAX_HOPS as nat) == Some(
                    r@[s],
                ),
            forall|k: int|
                0 <= k < i && resolved(
                    #[trigger] records.sprites@[k],
                    direct,
                    aliases,
                    MAX_HOPS as nat,
                ) is Some ==> r@.dom().contains(records.sprites@[k]),
        decreases records.sprites@.len() - i,
    {
        let sprite: u16 = records.sprites[i];
        if let Some(t) = resolve_runtime_sprite_type(
            sprite,
            &records.direct_types,
            &records.aliases,
        ) {
            r.insert(sprite, t);
        }
        i += 1;
    }
    proof {
        assert forall|s: u16| resolved(s, direct, aliases, MAX_HOPS as nat)
            is Some implies #[trigger] r@.dom().contains(s) by {
            assert(direct.dom().contains(s) || aliases.dom().contains(s));
            assert(records.sprites@.contains(s));
            let k = records.sprites@.index_of(s);
            assert(records.sprites@[k] == s);
        }
        assert(r@ =~= all_resolved(direct, aliases));
    }
    r
}

/// Whether bytes stand anywhere.
pub open spec fn holds_bytes(s: Seq<u8>, p: Seq<u8>) -> bool {
    exists|at: int| #[trigger] bytes_at(s, p, at)
}

/// Whether bytes stand at a place.
pub open spec fn bytes_at(s: Seq<u8>, p: Seq<u8>, at: int) -> bool {
    0 <= at && at + p.len() <= s.len() && s.subrange(at, at + p.len()) == p
}

/// Whether bytes stand anywhere.
pub fn contains_bytes(haystack: &[u8], needle: &[u8]) -> (r: bool)
    requires
        needle@.len() > 0,
    ensures
        r == holds_bytes(haystack@, needle@),
{
    let n: usize = needle.len();
    let len: usize = haystack.len();
    let mut i: usize = 0;
    while len - i >= n
        invariant
            n == needle@.len(),
            len == haystack@.len(),
            n > 0,
            i <= len,
            forall|k: int| 0 <= k < i ==> !#[trigger] bytes_at(haystack@, needle@, k),
        decreases len - i,
    {
        let part: &[u8] = vstd::slice::slice_subrange(haystack, i, i + n);
        assert(part@ =~= haystack@.subrange(i as int, i + n));
        if crate::code::same_bytes(part, needle) {
            assert(bytes_at(haystack@, needle@, i as int));
            return true;
        }
        assert(!bytes_at(haystack@, needle@, i as int));
        i += 1;
    }
    assert forall|k: int| !#[trigger] bytes_at(haystack@, needle@, k) by {
        if 0 <= k && k + n <= len {
            assert(k < i);
        }
    }
    false
}

/// Types of sprites, and where they were found.
#[derive(Debug)]
pub struct RuntimeSpriteTypes {
    pub by_sprite: HashMap<u16, u8>,
    pub source_addr: Option<u32>,
}

impl Default for RuntimeSpriteTypes {
    fn default() -> (r: Self)
        ensures
            r.by_sprite@ == Map::<u16, u8>::empty(),
            r.source_addr is None,
    {
        let by_sprite: HashMap<u16, u8> = HashMap::new();
        assert(by_sprite@ =~= Map::<u16, u8>::empty());
        RuntimeSpriteTypes { by_sprite, source_addr: None }
    }
}

/// The types that a region of the client's memory gives.
pub open spec fn region_types(buf: Seq<u8>) -> Map<u16, u8> {
    let records = text_records(utf8_lossy(buf));
    all_resolved(records.direct, records.aliases)
}

/// The types of sprites in a region of the client's memory, if the region holds a list
/// that is worth keeping.
pub fn load_runtime_sprite_types(region_base: u32, buf: &[u8]) -> (r: Option<RuntimeSpriteTypes>)
    ensures
        match r {
            Some(types) => {
                &&& holds_bytes(buf@, TYPE_MARKER@) && region_types(buf@).len() >= MIN_RECORDS
                &&& types.by_sprite@ == region_types(buf@)
                &&& types.source_addr == Some(region_base)
            },
            None => !holds_bytes(buf@, TYPE_MARKER@) || region_types(buf@).len() < MIN_RECORDS,
        },
{
    if !contains_bytes(buf, TYPE_MARKER.as_slice()) {
        return None;
    }
    let records: ParsedSpriteTypeRecords = parse_runtime_sprite_type_records(buf);
    let by_sprite: HashMap<u16, u8> = resolve_runtime_sprite_types(&records);
    if by_sprite.len() >= MIN_RECORDS {
        Some(RuntimeSpriteTypes { by_sprite, source_addr: Some(region_base) })
    } else {
        None
    }
}

} // verus!

//! What is shown, and for how long it has been shown.
//!
//! Times are nanoseconds on a monotonic clock.

use vstd::prelude::*;

use crate::text;
use crate::text::decimal_chars;
use crate::text::from_chars;

verus! {

/// Something to show.
#[derive(Debug, PartialEq, Eq)]
pub enum Notification {
    /// A picture and a line of text at the lower left.
    ToastBottomLeft { gfxid: u16, text: Vec<u8> },
    /// A number that floats up.
    FloatingScreen { kind: FloatKind, amount: u32 },
}

/// What a floating number counts.
#[derive(Debug, Clone, Copy, PartialEq, Eq, Structural)]
pub enum FloatKind {
    Exp,
    Gold,
}

/// A notification, with its text as a sequence of bytes.
pub enum NotificationView {
    Toast(u16, Seq<u8>),
    Float(FloatKind, u32),
}

impl View for Notification {
    type V = NotificationView;

    open spec fn view(&self) -> NotificationView {
        match self {
            Notification::ToastBottomLeft { gfxid, text } => NotificationView::Toast(*gfxid, text@),
            Notification::FloatingScreen { kind, amount } => NotificationView::Float(*kind, *amount),
        }
    }
}

/// A toast on the screen.
#[derive(Debug)]
pub struct LiveToast {
    pub spawned_at: u64,
    pub gfxid: u16,
    pub text: Vec<u8>,
}

impl View for LiveToast {
    type V = (u64, u16, Seq<u8>);

    open spec fn view(&self) -> (u64, u16, Seq<u8>) {
        (self.spawned_at, self.gfxid, self.text@)
    }
}

/// A copy with the same contents.
impl Clone for LiveToast {
    fn clone(&self) -> (r: Self)
        ensures
            r@ == self@,
    {
        LiveToast {
            spawned_at: self.spawned_at,
            gfxid: self.gfxid,
            text: crate::code::start(self.text.as_slice()),
        }
    }
}

/// A number floating on the screen.
#[derive(Debug, Clone, Copy, PartialEq, Eq, Structural)]
pub struct LiveFloat {
    pub spawned_at: u64,
    pub kind: FloatKind,
    pub amount: u32,
    pub cascade_offset: u8,
}

/// One entry of a render list.
#[derive(Debug, Clone, Copy, PartialEq, Eq, Structural)]
pub struct RenderEntry {
    /// 0 a picture only, 1 a text only.
    pub kind: u8,
    /// 0 for none.
    pub img_id: u16,
    pub x: i16,
    pub y: i16,
    pub alpha: u8,
    /// 0 for none.
    pub text_ptr: u32,
    pub text_color: u32,
    pub font_id: u16,
}

/// Digits with a comma before each group of three but the first.
pub open spec fn grouped(digits: Seq<char>) -> Seq<char>
    decreases digits.len(),
{
    if digits.len() <= 3 {
        digits
    } else {
        grouped(digits.take(digits.len() - 3)) + seq![','] + digits.skip(digits.len() - 3)
    }
}

/// A text without its commas.
pub open spec fn without_commas(s: Seq<char>) -> Seq<char> {
    s.filter(|c: char| c != ',')
}

/// Taking the commas out of a grouped number gives its digits back.
pub proof fn commas_only_group(n: u32)
    ensures
        without_commas(grouped(text::decimal(n as nat))) == text::decimal(n as nat),
{
    decimal_has_no_comma(n as nat);
    grouped_round_trip(text::decimal(n as nat));
}

proof fn decimal_has_no_comma(n: nat)
    ensures
        forall|i: int| 0 <= i < text::decimal(n).len() ==> text::decimal(n)[i] != ',',
    decreases n,
{
    let s = text::decimal(n);
    if n >= 10 {
        decimal_has_no_comma(n / 10);
        let head = text::decimal(n / 10);
        assert(s == head.push(text::digit_char(n % 10)));
        assert forall|i: int| 0 <= i < s.len() implies s[i] != ',' by {
            if i < head.len() {
                assert(s[i] == head[i]);
            }
        }
    } else {
        assert(s == seq![text::digit_char(n)]);
        assert(s[0] != ',');
    }
}

proof fn no_comma_filter(s: Seq<char>)
    requires
        forall|i: int| 0 <= i < s.len() ==> s[i] != ',',
    ensures
        without_commas(s) == s,
    decreases s.len(),
{
    reveal(Seq::filter);
    if s.len() > 0 {
        no_comma_filter(s.drop_last());
        assert(s =~= s.drop_last().push(s.last()));
    }
}

proof fn grouped_round_trip(s: Seq<char>)
    requires
        forall|i: int| 0 <= i < s.len() ==> s[i] != ',',
    ensures
        without_commas(grouped(s)) == s,
    decreases s.len(),
{
    if s.len() <= 3 {
        no_comma_filter(s);
    } else {
        let head = s.take(s.len() - 3);
        let tail = s.skip(s.len() - 3);
        let keep = |c: char| c != ',';
        grouped_round_trip(head);
        no_comma_filter(tail);
        Seq::filter_distributes_over_add(grouped(head) + seq![','], tail, keep);
        Seq::filter_distributes_over_add(grouped(head), seq![','], keep);
        assert(seq![','].filter(keep) =~= Seq::<char>::empty()) by {
            reveal_with_fuel(Seq::filter, 2);
            assert(seq![','].drop_last() =~= Seq::<char>::empty());
        }
        assert(head + Seq::<char>::empty() + tail =~= s);
    }
}

/// Groups the first `n` of the digits.
fn group(digits: &[char], n: usize) -> (r: Vec<char>)
    requires
        n <= digits@.len(),
    ensures
        r@ == grouped(digits@.take(n as int)),
    decreases n,
{
    if n <= 3 {
        let mut v: Vec<char> = Vec::new();
        let mut i: usize = 0;
        while i < n
            invariant
                i <= n <= digits@.len(),
                v@ == digits@.take(i as int),
            decreases n - i,
        {
            v.push(digits[i]);
            assert(digits@.take(i as int).push(digits@[i as int]) =~= digits@.take(i + 1));
            i += 1;
        }
        v
    } else {
        let mut v: Vec<char> = group(digits, n - 3);
        let ghost s = digits@.take(n as int);
        assert(s.take(s.len() - 3) =~= digits@.take(n - 3));
        v.push(',');
        v.push(digits[n - 3]);
        v.push(digits[n - 2]);
        v.push(digits[n - 1]);
        assert(v@ =~= grouped(s.take(s.len() - 3)) + seq![','] + s.skip(s.len() - 3));
        v
    }
}

/// A number with commas between the thousands: 6260 as "6,260".
pub fn with_commas(n: u32) -> (r: String)
    ensures
        r@ == grouped(text::decimal(n as nat)),
{
    let digits: Vec<char> = decimal_chars(n as u64);
    let v: Vec<char> = group(digits.as_slice(), digits.len());
    assert(digits@.take(digits@.len() as int) =~= digits@);
    from_chars(v.as_slice())
}

} // verus!

//! From packets to notifications.

use vstd::prelude::*;

use super::types::FloatKind;
use super::types::Notification;
use super::types::NotificationView;
use crate::code;
use crate::code::read_u16_le;
use crate::code::read_u32_le;

verus! {

/// Longest name that is shown.
pub const MAX_NAME_LEN: usize = 64;

/// The position of the first zero.
pub open spec fn first_zero(s: Seq<u8>) -> Option<nat>
    decreases s.len(),
{
    if s.len() == 0 {
        None
    } else if s[0] == 0 {
        Some(0)
    } else {
        match first_zero(s.drop_first()) {
            Some(i) => Some(i + 1),
            None => None,
        }
    }
}

/// The notification in a packet: its number first (190 an item, 192 a drop).
///
/// An item is a picture number and a name that ends in a zero; of the name at
/// most [`MAX_NAME_LEN`] bytes count.  A drop is its kind (0 experience, 1 gold)
/// and an amount.
pub open spec fn parsed(payload: Seq<u8>) -> Option<NotificationView> {
    if payload.len() >= 4 && payload[0] == 190 {
        match first_zero(payload.skip(3)) {
            Some(n) => Some(
                NotificationView::Toast(
                    code::from_le16(payload.subrange(1, 3)),
                    payload.subrange(3, 3 + if n < 64 {
                        n as int
                    } else {
                        64
                    }),
                ),
            ),
            None => None,
        }
    } else if payload.len() >= 6 && payload[0] == 192 && payload[1] <= 1 {
        Some(
            NotificationView::Float(
                if payload[1] == 0 {
                    FloatKind::Exp
                } else {
                    FloatKind::Gold
                },
                code::from_le32(payload.subrange(2, 6)),
            ),
        )
    } else {
        None
    }
}

/// Where the first zero stands, nothing before it is zero.
pub proof fn first_zero_is_first(s: Seq<u8>)
    ensures
        first_zero(s) matches Some(n) ==> n < s.len() && s[n as int] == 0 && forall|i: int|
            0 <= i < n ==> s[i] != 0,
        first_zero(s) is None ==> forall|i: int| 0 <= i < s.len() ==> s[i] != 0,
    decreases s.len(),
{
    if s.len() > 0 && s[0] != 0 {
        let t = s.drop_first();
        first_zero_is_first(t);
        assert forall|i: int| 0 <= i < s.len() && (first_zero(t) matches Some(n) ==> i
            <= n) implies s[i] != 0 by {
            if i > 0 {
                assert(s[i] == t[i - 1]);
            }
        }
    }
}

/// A position with a zero and none before it is the first.
proof fn first_zero_at(s: Seq<u8>, n: int)
    requires
        0 <= n < s.len(),
        s[n] == 0,
        forall|i: int| 0 <= i < n ==> s[i] != 0,
    ensures
        first_zero(s) == Some(n as nat),
{
    first_zero_is_first(s);
}

/// Parses a packet, from its number on.
pub fn parse_packet_box(payload: &[u8]) -> (r: Option<Notification>)
    ensures
        (match r {
            Some(n) => Some(n@),
            None => None,
        }) == parsed(payload@),
{
    if payload.len() == 0 {
        return None;
    }
    match payload[0] {
        190 => parse_item_board(payload),
        192 => parse_show_drop(payload),
        _ => None,
    }
}

fn parse_item_board(p: &[u8]) -> (r: Option<Notification>)
    requires
        p@.len() > 0,
        p@[0] == 190,
    ensures
        (match r {
            Some(n) => Some(n@),
            None => None,
        }) == parsed(p@),
{
    if p.len() < 4 {
        return None;
    }
    let gfxid: u16 = read_u16_le(p, 1);
    let mut n: usize = 0;
    while n < p.len() - 3 && p[3 + n] != 0
        invariant
            p@.len() >= 4,
            n <= p@.len() - 3,
            forall|i: int| 0 <= i < n ==> p@.skip(3)[i] != 0,
        decreases p@.len() - n,
    {
        n += 1;
    }
    proof {
        first_zero_is_first(p@.skip(3));
        if n < p@.len() - 3 {
            first_zero_at(p@.skip(3), n as int);
        }
    }
    if n == p.len() - 3 {
        return None;
    }
    let take: usize = if n < MAX_NAME_LEN {
        n
    } else {
        MAX_NAME_LEN
    };
    let text: Vec<u8> = code::start(vstd::slice::slice_subrange(p, 3, 3 + take));
    Some(Notification::ToastBottomLeft { gfxid, text })
}

fn parse_show_drop(p: &[u8]) -> (r: Option<Notification>)
    requires
        p@.len() > 0,
        p@[0] == 192,
    ensures
        (match r {
            Some(n) => Some(n@),
            None => None,
        }) == parsed(p@),
{
    if p.len() < 6 {
        return None;
    }
    let kind = match p[1] {
        0 => FloatKind::Exp,
        1 => FloatKind::Gold,
        _ => {
            return None;
        },
    };
    let amount: u32 = read_u32_le(p, 2);
    Some(Notification::FloatingScreen { kind, amount })
}

} // verus!

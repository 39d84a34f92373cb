//! Notifications: items picked up at the lower left, experience and gold floating
//! up.

pub mod dispatcher;
pub mod image_draw_hook;
pub mod layout;
pub mod overlay;
pub mod packet_hook;
pub mod queue;
pub mod renderer;
pub mod renderer_install;
pub mod sprite_pak;
pub mod tbt;
pub mod types;

use vstd::prelude::*;

use self::dispatcher::parse_packet_box;
use self::queue::NotificationQueue;
use self::renderer::expand_snapshot;
use self::renderer::DrawCmd;
use self::renderer_install::RendererHandle;
use self::types::LiveFloat;
use self::types::LiveToast;
use self::types::Notification;
use self::types::NotificationView;
use crate::code;
use crate::code::read_u16_le;
use crate::code::read_u32_le;

verus! {

/// Least time between two reports of the hook's counters, in nanoseconds.
pub const PROBE_INTERVAL: u64 = 5_000_000_000;

/// Which kinds of notification are shown.
#[derive(Debug, Clone, Copy, PartialEq, Eq, Structural)]
pub struct Toggles {
    pub toast: bool,
    pub float: bool,
}

/// Everything is shown.
impl Default for Toggles {
    fn default() -> (r: Self)
        ensures
            r.toast,
            r.float,
    {
        Toggles { toast: true, float: true }
    }
}

impl Toggles {
    /// Whether a notification is shown.
    pub open spec fn admits(&self, n: NotificationView) -> bool {
        match n {
            NotificationView::Toast(_, _) => self.toast,
            NotificationView::Float(_, _) => self.float,
        }
    }
}

/// Switches the two kinds of notification.
pub fn set_enabled(toggles: &mut Toggles, pickup_toast: bool, exp_drift: bool)
    ensures
        final(toggles).toast == pickup_toast,
        final(toggles).float == exp_drift,
{
    toggles.toast = pickup_toast;
    toggles.float = exp_drift;
}

/// Where the renderer's code stands, if it is installed.
pub fn renderer_cave_addr(renderer: &Option<RendererHandle>) -> (r: Option<u32>)
    ensures
        r == match renderer {
            Some(h) => Some(h.notif_draw_cave),
            None => None,
        },
{
    match renderer {
        Some(h) => Some(h.notif_draw_cave),
        None => None,
    }
}

/// What is on the screen: the contents of the toasts and the floating numbers.
pub struct Shown {
    pub toasts: Seq<(u64, u16, Seq<u8>)>,
    pub floats: Seq<LiveFloat>,
}

/// What a queue shows.
pub open spec fn shown(q: NotificationQueue) -> Shown {
    Shown { toasts: q.toast_views(), floats: q.floats@ }
}

/// What is on the screen after a packet: nothing changes where the packet holds no
/// notification or the notification's kind is switched off.
pub open spec fn after_packet(s: Shown, toggles: Toggles, payload: Seq<u8>, now: u64) -> Shown {
    match dispatcher::parsed(payload) {
        None => s,
        Some(n) => if !toggles.admits(n) {
            s
        } else {
            match n {
                NotificationView::Toast(gfxid, text) => Shown {
                    toasts: queue::newest(s.toasts.push((now, gfxid, text))),
                    ..s
                },
                NotificationView::Float(kind, amount) => Shown {
                    floats: queue::after_drop(s.floats, kind, amount, now),
                    ..s
                },
            }
        },
    }
}

/// Takes a packet, from its number on.
pub fn on_packet_recv(q: &mut NotificationQueue, toggles: &Toggles, payload: &[u8], now: u64)
    requires
        old(q).wf(),
    ensures
        final(q).wf(),
        shown(*final(q)) == after_packet(shown(*old(q)), *toggles, payload@, now),
{
    if let Some(n) = parse_packet_box(payload) {
        let wanted: bool = match &n {
            Notification::ToastBottomLeft { .. } => toggles.toast,
            Notification::FloatingScreen { .. } => toggles.float,
        };
        if wanted {
            q.push(n, now);
        }
    }
}

/// With a kind switched off, no packet changes what is shown of it.
pub proof fn switched_off_means_unchanged(s: Shown, toggles: Toggles, payload: Seq<u8>, now: u64)
    ensures
        !toggles.toast ==> after_packet(s, toggles, payload, now).toasts == s.toasts,
        !toggles.float ==> after_packet(s, toggles, payload, now).floats == s.floats,
{
}

/// A packet, and when it was taken.
#[derive(Debug)]
pub struct Arrival {
    pub payload: Vec<u8>,
    pub at: u64,
}

/// What is on the screen after several packets.
pub open spec fn after_packets(s: Shown, toggles: Toggles, arrivals: Seq<Arrival>) -> Shown
    decreases arrivals.len(),
{
    if arrivals.len() == 0 {
        s
    } else {
        after_packet(
            after_packets(s, toggles, arrivals.drop_last()),
            toggles,
            arrivals.last().payload@,
            arrivals.last().at,
        )
    }
}

/// Takes packets, in order.
pub fn receive_all(q: &mut NotificationQueue, toggles: &Toggles, arrivals: &Vec<Arrival>)
    requires
        old(q).wf(),
    ensures
        final(q).wf(),
        shown(*final(q)) == after_packets(shown(*old(q)), *toggles, arrivals@),
{
    let ghost before = shown(*q);
    let mut i: usize = 0;
    assert(arrivals@.take(0).len() == 0);
    while i < arrivals.len()
        invariant
            i <= arrivals@.len(),
            q.wf(),
            shown(*q) == after_packets(before, *toggles, arrivals@.take(i as int)),
        decreases arrivals@.len() - i,
    {
        assert(arrivals@.take(i + 1).drop_last() =~= arrivals@.take(i as int));
        assert(arrivals@.take(i + 1).last() == arrivals@[i as int]);
        on_packet_recv(q, toggles, arrivals[i].payload.as_slice(), arrivals[i].at);
        i += 1;
    }
    assert(arrivals@.take(arrivals@.len() as int) =~= arrivals@);
}

/// What a tick hands to the screen.
#[derive(Debug)]
pub struct Frame {
    pub cmds: Vec<DrawCmd>,
    pub toasts: Vec<LiveToast>,
    pub floats: Vec<LiveFloat>,
}

/// Drops what has been shown long enough and lays the rest out.
pub fn on_polling_tick(
    q: &mut NotificationQueue,
    now: u64,
    screen_w: i32,
    screen_h: i32,
) -> (r: Frame)
    requires
        old(q).wf(),
        renderer::places_fit(
            old(q).toasts@.filter(|t: LiveToast| queue::toast_lives(t, now)),
            old(q).floats@.filter(|f: LiveFloat| queue::float_lives(f, now)),
            screen_w,
            screen_h,
            now,
        ),
    ensures
        final(q).wf(),
        final(q).toasts@ == old(q).toasts@.filter(|t: LiveToast| queue::toast_lives(t, now)),
        final(q).floats@ == old(q).floats@.filter(|f: LiveFloat| queue::float_lives(f, now)),
        r.toasts@.len() == final(q).toasts@.len(),
        forall|i: int|
            0 <= i < r.toasts@.len() ==> (#[trigger] r.toasts@[i])@ == final(q).toasts@[i]@,
        r.floats@ == final(q).floats@,
        r.cmds@ == renderer::toast_cmds(r.toasts@, screen_h as int, now) + renderer::float_cmds(
            r.floats@,
            screen_w,
            screen_h,
            now,
        ),
{
    q.tick(now);
    let mut toasts: Vec<LiveToast> = Vec::new();
    let mut i: usize = 0;
    while i < q.toasts.len()
        invariant
            i <= q.toasts@.len(),
            toasts@.len() == i,
            forall|k: int| 0 <= k < i ==> (#[trigger] toasts@[k])@ == q.toasts@[k]@,
        decreases q.toasts@.len() - i,
    {
        toasts.push(q.toasts[i].clone());
        i += 1;
    }
    let mut floats: Vec<LiveFloat> = Vec::new();
    let mut j: usize = 0;
    while j < q.floats.len()
        invariant
            j <= q.floats@.len(),
            floats@ == q.floats@.take(j as int),
        decreases q.floats@.len() - j,
    {
        floats.push(q.floats[j]);
        assert(floats@ =~= q.floats@.take(j + 1));
        j += 1;
    }
    assert(floats@ =~= q.floats@);
    let cmds: Vec<DrawCmd> = expand_snapshot(
        toasts.as_slice(),
        floats.as_slice(),
        screen_w,
        screen_h,
        now,
    );
    Frame { cmds, toasts, floats }
}

/// The hook's counters, as they were last reported.
#[derive(Debug, Clone, Copy, PartialEq, Eq, Structural)]
pub struct Probe {
    pub at: u64,
    pub total: u32,
    pub packetbox: u32,
}

/// What there is to report.
#[derive(Debug, Clone, Copy, PartialEq, Eq, Structural)]
pub enum ProbeReport {
    /// The first look.
    Baseline,
    /// The last report is too recent.
    Nothing,
    /// How much the two counters grew (modulo 2^32).
    Grown { total: u32, packetbox: u32 },
}

/// What there is to report of the hook's counters.
pub open spec fn probed(state: Option<Probe>, now: u64, total: u32, packetbox: u32) -> ProbeReport {
    match state {
        None => ProbeReport::Baseline,
        Some(p) => if queue::age(p.at, now) >= PROBE_INTERVAL {
            ProbeReport::Grown {
                total: ((total - p.total) % 0x1_0000_0000) as u32,
                packetbox: ((packetbox - p.packetbox) % 0x1_0000_0000) as u32,
            }
        } else {
            ProbeReport::Nothing
        },
    }
}

/// What is remembered of the hook's counters.
pub open spec fn probe_after(
    state: Option<Probe>,
    now: u64,
    total: u32,
    packetbox: u32,
) -> Option<Probe> {
    if probed(state, now, total, packetbox) == ProbeReport::Nothing {
        state
    } else {
        Some(Probe { at: now, total, packetbox })
    }
}

/// Looks at the hook's counters.
pub fn probe_total_hits(
    state: &mut Option<Probe>,
    now: u64,
    total: u32,
    packetbox: u32,
) -> (r: ProbeReport)
    ensures
        r == probed(*old(state), now, total, packetbox),
        *final(state) == probe_after(*old(state), now, total, packetbox),
{
    match *state {
        None => {
            *state = Some(Probe { at: now, total, packetbox });
            ProbeReport::Baseline
        },
        Some(p) => {
            if now.saturating_sub(p.at) >= PROBE_INTERVAL {
                *state = Some(Probe { at: now, total, packetbox });
                ProbeReport::Grown {
                    total: total.wrapping_sub(p.total),
                    packetbox: packetbox.wrapping_sub(p.packetbox),
                }
            } else {
                ProbeReport::Nothing
            }
        },
    }
}

/// The opcodes that came since the last report, at most the 16 that the ring keeps:
/// `writes` is how many were ever written, `grown` how many of them are new.
pub fn recent_opcodes(ring: &Vec<u8>, writes: u32, grown: u32) -> (r: Vec<u8>)
    requires
        ring@.len() == 16,
    ensures
        r@.len() == if grown < 16 {
            grown as int
        } else {
            16
        },
        forall|i: int|
            0 <= i < r@.len() ==> #[trigger] r@[i] == ring@[(writes - grown + i) % 16],
{
    let take: u32 = if grown < 16 {
        grown
    } else {
        16
    };
    let start: u32 = writes.wrapping_sub(grown) % 16;
    let mut r: Vec<u8> = Vec::new();
    let mut i: u32 = 0;
    assert(start == (writes - grown) % 16);
    while i < take
        invariant
            ring@.len() == 16,
            i <= take <= 16,
            start == (writes - grown) % 16,
            r@.len() == i,
            forall|k: int| 0 <= k < i ==> #[trigger] r@[k] == ring@[(writes - grown + k) % 16],
        decreases take - i,
    {
        assert((start + i) % 16 == (writes - grown + i) % 16);
        r.push(ring[((start + i) % 16) as usize]);
        i += 1;
    }
    r
}

/// What a packet seems to be, for a log.
#[derive(Debug, Clone, Copy, PartialEq, Eq, Structural)]
pub enum PacketNote {
    /// Nothing to say.
    Silent,
    Item { gfxid: u16, name_bytes: usize },
    Drop { kind: u8, amount: u32 },
    Unknown { sub_id: u8, len: usize },
}

/// What a packet, from its number on, seems to be.
pub open spec fn note_of(payload: Seq<u8>) -> PacketNote {
    if payload.len() == 0 {
        PacketNote::Silent
    } else if payload[0] == packet_hook::SUB_ID_ITEMBOARD {
        if payload.len() < 3 {
            PacketNote::Silent
        } else {
            PacketNote::Item {
                gfxid: code::from_le16(payload.subrange(1, 3)),
                name_bytes: (if payload.len() > 4 {
                    payload.len() - 4
                } else {
                    0
                }) as usize,
            }
        }
    } else if payload[0] == packet_hook::SUB_ID_SHOWDROP {
        if payload.len() < 6 {
            PacketNote::Silent
        } else {
            PacketNote::Drop { kind: payload[1], amount: code::from_le32(payload.subrange(2, 6)) }
        }
    } else {
        PacketNote::Unknown { sub_id: payload[0], len: payload.len() as usize }
    }
}

/// What a packet, from its number on, seems to be.
pub fn packet_note(payload: &[u8]) -> (r: PacketNote)
    ensures
        r == note_of(payload@),
{
    let len: usize = payload.len();
    if len == 0 {
        return PacketNote::Silent;
    }
    let sub_id: u8 = payload[0];
    if sub_id == packet_hook::SUB_ID_ITEMBOARD {
        if len < 3 {
            return PacketNote::Silent;
        }
        PacketNote::Item { gfxid: read_u16_le(payload, 1), name_bytes: len.saturating_sub(4) }
    } else if sub_id == packet_hook::SUB_ID_SHOWDROP {
        if len < 6 {
            return PacketNote::Silent;
        }
        PacketNote::Drop { kind: payload[1], amount: read_u32_le(payload, 2) }
    } else {
        PacketNote::Unknown { sub_id, len }
    }
}

} // verus!

//! Wake-on-LAN: the magic packet that wakes a sleeping NAS, and how long to
//! keep sending it while waiting for the NAS to answer on its SMB port.

use vstd::prelude::*;

use crate::text::{
    chars_of, copy_range, find_char, is_hex_digit, lemma_index_from, push_str, str_to_string,
    string_of, index_from, starts_with,
};

verus! {

#[derive(Debug)]
pub enum WolError {
    InvalidMac(String),
    Timeout(String),
    Cancelled,
}

pub open spec fn wol_error_message(e: WolError) -> Seq<char> {
    match e {
        WolError::InvalidMac(m) => "invalid MAC address: "@ + m@,
        WolError::Timeout(h) => "the destination ("@ + h@
            + ") did not respond after Wake-on-LAN (timed out)"@,
        WolError::Cancelled => "Wake-on-LAN cancelled"@,
    }
}

impl WolError {
    /// The message shown to the user.
    pub fn message(&self) -> (m: String)
        ensures
            m@ == wol_error_message(*self),
    {
        match self {
            WolError::InvalidMac(mac) => {
                let mut m = str_to_string("invalid MAC address: ");
                push_str(&mut m, mac.as_str());
                m
            },
            WolError::Timeout(host) => {
                let mut m = str_to_string("the destination (");
                push_str(&mut m, host.as_str());
                push_str(&mut m, ") did not respond after Wake-on-LAN (timed out)");
                m
            },
            WolError::Cancelled => str_to_string("Wake-on-LAN cancelled"),
        }
    }
}

/// The hexadecimal digits of `s`, in order; separators of any kind are
/// dropped.
pub open spec fn hex_only(s: Seq<char>) -> Seq<char>
    decreases s.len(),
{
    if s.len() == 0 {
        Seq::<char>::empty()
    } else if is_hex_digit(s.last()) {
        hex_only(s.drop_last()).push(s.last())
    } else {
        hex_only(s.drop_last())
    }
}

pub open spec fn hex_value(c: char) -> nat {
    if '0' <= c && c <= '9' {
        ((c as u32) - 48) as nat
    } else if 'a' <= c && c <= 'f' {
        ((c as u32) - 87) as nat
    } else {
        ((c as u32) - 55) as nat
    }
}

/// The six bytes written by twelve hexadecimal digits.
pub open spec fn mac_bytes(h: Seq<char>) -> Seq<u8> {
    Seq::new(6, |i: int| (hex_value(h[2 * i]) * 16 + hex_value(h[2 * i + 1])) as u8)
}

fn hex_digit_value(c: char) -> (v: u8)
    requires
        is_hex_digit(c),
    ensures
        v == hex_value(c),
        v < 16,
{
    if '0' <= c && c <= '9' {
        (c as u8) - 48
    } else if 'a' <= c && c <= 'f' {
        (c as u8) - 87
    } else {
        (c as u8) - 55
    }
}

fn is_hex_char(c: char) -> (b: bool)
    ensures
        b == is_hex_digit(c),
{
    ('0' <= c && c <= '9') || ('a' <= c && c <= 'f') || ('A' <= c && c <= 'F')
}

/// Reads a MAC address in any usual notation (`AA:BB:CC:DD:EE:FF`,
/// `aa-bb-cc-dd-ee-ff`, `aabbccddeeff`): its hexadecimal digits, which must
/// be exactly twelve.
pub fn parse_mac(mac: &str) -> (r: Result<[u8; 6], WolError>)
    ensures
        match r {
            Ok(b) => hex_only(mac@).len() == 12 && b@ == mac_bytes(hex_only(mac@)),
            Err(e) => hex_only(mac@).len() != 12 && (e matches WolError::InvalidMac(m) && m@
                == mac@),
        },
{
    let v = chars_of(mac);
    let mut hex: Vec<char> = Vec::new();
    let mut i: usize = 0;
    while i < v.len()
        invariant
            i <= v@.len(),
            hex@ == hex_only(v@.take(i as int)),
        decreases v.len() - i,
    {
        assert(v@.take(i + 1).drop_last() =~= v@.take(i as int));
        if is_hex_char(v[i]) {
            hex.push(v[i]);
        }
        i += 1;
    }
    assert(v@.take(v@.len() as int) =~= v@);
    if hex.len() != 12 {
        return Err(WolError::InvalidMac(str_to_string(mac)));
    }
    proof {
        assert forall|k: int| 0 <= k < hex@.len() implies is_hex_digit(#[trigger] hex@[k]) by {
            lemma_hex_only_digits(v@, k);
        }
    }
    let mut bytes = [0u8; 6];
    let mut j: usize = 0;
    while j < 6
        invariant
            j <= 6,
            hex@.len() == 12,
            forall|k: int| 0 <= k < 12 ==> is_hex_digit(#[trigger] hex@[k]),
            forall|k: int| 0 <= k < j ==> bytes@[k] == mac_bytes(hex@)[k],
        decreases 6 - j,
    {
        let hi = hex_digit_value(hex[2 * j]);
        let lo = hex_digit_value(hex[2 * j + 1]);
        bytes[j] = hi * 16 + lo;
        j += 1;
    }
    assert(bytes@ =~= mac_bytes(hex@));
    Ok(bytes)
}

proof fn lemma_hex_only_digits(s: Seq<char>, k: int)
    requires
        0 <= k < hex_only(s).len(),
    ensures
        is_hex_digit(hex_only(s)[k]),
    decreases s.len(),
{
    if s.len() > 0 {
        if is_hex_digit(s.last()) && k == hex_only(s).len() - 1 {
        } else {
            lemma_hex_only_digits(s.drop_last(), k);
        }
    }
}

/// Byte `i` of the magic packet for `mac`: six `0xFF`, then the address
/// sixteen times.
pub open spec fn magic_byte(mac: Seq<u8>, i: int) -> u8 {
    if i < 6 {
        0xFFu8
    } else {
        mac[(i - 6) % 6]
    }
}

/// The Wake-on-LAN magic packet for `mac`.
pub fn magic_packet(mac: [u8; 6]) -> (pkt: [u8; 102])
    ensures
        pkt@ == Seq::new(102, |i: int| magic_byte(mac@, i)),
{
    let mut pkt = [0u8; 102];
    let mut i: usize = 0;
    while i < 6
        invariant
            i <= 6,
            forall|k: int| 0 <= k < i ==> pkt@[k] == magic_byte(mac@, k),
        decreases 6 - i,
    {
        pkt[i] = 0xFF;
        i += 1;
    }
    let mut j: usize = 0;
    while i < 102
        invariant
            6 <= i <= 102,
            j < 6,
            j == (i - 6) % 6,
            forall|k: int| 0 <= k < i ==> pkt@[k] == magic_byte(mac@, k),
        decreases 102 - i,
    {
        pkt[i] = mac[j];
        i += 1;
        j = if j == 5 {
            0
        } else {
            j + 1
        };
    }
    assert(pkt@ =~= Seq::new(102, |i: int| magic_byte(mac@, i)));
    pkt
}

/// The host name of a `\\host\...` path: what comes after the leading `\\`,
/// up to the next `\`, when that is not empty.
pub open spec fn spec_guess_host(share: Seq<char>) -> Option<Seq<char>> {
    let rest = share.skip(2);
    let e = index_from(rest, '\\', 0);
    if starts_with(share, seq!['\\', '\\']) && e > 0 {
        Some(rest.take(e))
    } else {
        None
    }
}

/// The host to wake when the job does not name one: the server of its
/// network share.
pub fn guess_host_from_share(share: &str) -> (r: Option<String>)
    ensures
        match r {
            Some(h) => spec_guess_host(share@) == Some(h@),
            None => spec_guess_host(share@) is None,
        },
{
    let v = chars_of(share);
    let n = v.len();
    if n < 2 || v[0] != '\\' || v[1] != '\\' {
        proof {
            if n >= 2 {
                assert(v@.subrange(0, 2) =~= seq![v@[0], v@[1]]);
            }
        }
        return None;
    }
    assert(v@.subrange(0, 2) =~= seq!['\\', '\\']);
    let ghost rest = v@.skip(2);
    let e = match find_char(&v, 2, n, '\\') {
        Some(i) => i,
        None => n,
    };
    proof {
        assert forall|k: int| 0 <= k < e - 2 implies rest[k] != '\\' by {
            assert(rest[k] == v@[k + 2]);
        }
        lemma_index_from(rest, '\\', 0, e - 2);
    }
    if e == 2 {
        return None;
    }
    assert(rest.take(e - 2) =~= v@.subrange(2, e as int));
    Some(string_of(&copy_range(&v, 2, e)))
}

/// Where a wake-up is.
#[derive(Debug, Clone, Copy, PartialEq, Eq, Structural)]
pub enum WakeStage {
    FirstProbe,
    FirstSend,
    Checking,
    Sleeping,
    Resending,
    Polling,
    Settling,
    Done,
}

/// The next thing to do while waking the NAS.
pub enum WakeAction {
    /// Check whether the host answers on the SMB port (445).
    Probe,
    /// Send the magic packet (broadcast, ports 9 and 7).
    Send,
    /// Read the cancel flag and the clock; `first` starts the time limit.
    Check { first: bool },
    Sleep { secs: u32 },
    Done(Result<(), WolError>),
}

/// What the action that was asked for reported.
pub enum WakeReport {
    Probed(bool),
    Sent,
    Slept,
    Checked { cancelled: bool, in_time: bool },
}

/// A wake-up under way. With a host, the packet is resent every 3 s until
/// the host answers on port 445 or the time limit passes; without one, it is
/// resent four times, 2 s apart, then a fixed grace period of 4 s follows.
/// Cancelling stops the wait.
pub struct Waker {
    pub host: String,
    pub packet: [u8; 102],
    pub stage: WakeStage,
    /// How many times the packet was resent (without a host).
    pub resent: u32,
}

pub open spec fn wake_done(w: Waker, next: Waker, act: WakeAction, r: Result<(), WolError>) -> bool {
    next == Waker { stage: WakeStage::Done, ..w } && act == WakeAction::Done(r)
}

/// Which report each stage waits for.
pub open spec fn wake_expects(stage: WakeStage, r: WakeReport) -> bool {
    match r {
        WakeReport::Probed(_) => stage == WakeStage::FirstProbe || stage == WakeStage::Polling,
        WakeReport::Sent => stage == WakeStage::FirstSend || stage == WakeStage::Resending,
        WakeReport::Slept => stage == WakeStage::Sleeping || stage == WakeStage::Settling,
        WakeReport::Checked { .. } => stage == WakeStage::Checking,
    }
}

/// The step a wake-up takes on each report.
pub open spec fn wake_follows(w: Waker, r: WakeReport, next: Waker, act: WakeAction) -> bool {
    let named = w.host@.len() > 0;
    match r {
        WakeReport::Probed(up) => if up {
            wake_done(w, next, act, Ok(()))
        } else if w.stage == WakeStage::FirstProbe {
            next == Waker { stage: WakeStage::FirstSend, ..w } && act == WakeAction::Send
        } else {
            next == Waker { stage: WakeStage::Checking, ..w } && act == WakeAction::Check {
                first: false,
            }
        },
        WakeReport::Sent => if w.stage == WakeStage::FirstSend {
            next == Waker { stage: WakeStage::Checking, ..w } && act == WakeAction::Check {
                first: true,
            }
        } else if named {
            next == Waker { stage: WakeStage::Polling, ..w } && act == WakeAction::Probe
        } else if w.resent + 1 < 4 {
            next == Waker { stage: WakeStage::Checking, resent: (w.resent + 1) as u32, ..w }
                && act == WakeAction::Check { first: false }
        } else {
            next == Waker { stage: WakeStage::Settling, resent: (w.resent + 1) as u32, ..w }
                && act == WakeAction::Sleep { secs: 4 }
        },
        WakeReport::Slept => if w.stage == WakeStage::Settling {
            wake_done(w, next, act, Ok(()))
        } else {
            next == Waker { stage: WakeStage::Resending, ..w } && act == WakeAction::Send
        },
        WakeReport::Checked { cancelled, in_time } => if named && !in_time {
            wake_done(w, next, act, Err(WolError::Timeout(w.host)))
        } else if cancelled {
            wake_done(w, next, act, Err(WolError::Cancelled))
        } else {
            next == Waker { stage: WakeStage::Sleeping, ..w } && act == WakeAction::Sleep {
                secs: if named {
                    3
                } else {
                    2
                },
            }
        },
    }
}

impl Waker {
    pub open spec fn wf(self) -> bool {
        &&& self.resent <= 4
        &&& (self.stage != WakeStage::Settling && self.stage != WakeStage::Done) ==> self.resent < 4
        &&& self.stage == WakeStage::Settling ==> self.host@.len() == 0
    }

    /// Starts waking the NAS with the MAC address `mac`, waiting for `host`
    /// (none when empty). A host that already answers needs no packet.
    pub fn start(mac: &str, host: String) -> (r: (Waker, WakeAction))
        ensures
            r.0.wf(),
            r.0.host == host,
            r.0.resent == 0,
            if hex_only(mac@).len() == 12 {
                &&& r.0.packet@ == Seq::new(102, |i: int| magic_byte(mac_bytes(hex_only(mac@)), i))
                &&& if host@.len() > 0 {
                    r.0.stage == WakeStage::FirstProbe && r.1 == WakeAction::Probe
                } else {
                    r.0.stage == WakeStage::FirstSend && r.1 == WakeAction::Send
                }
            } else {
                r.0.stage == WakeStage::Done && (r.1 matches WakeAction::Done(Err(
                    WolError::InvalidMac(m),
                )) && m@ == mac@)
            },
    {
        match parse_mac(mac) {
            Ok(bytes) => {
                let packet = magic_packet(bytes);
                let stage = if host.as_str().is_empty() {
                    WakeStage::FirstSend
                } else {
                    WakeStage::FirstProbe
                };
                let act = if host.as_str().is_empty() {
                    WakeAction::Send
                } else {
                    WakeAction::Probe
                };
                (Waker { host, packet, stage, resent: 0 }, act)
            },
            Err(e) => (
                Waker { host, packet: [0u8; 102], stage: WakeStage::Done, resent: 0 },
                WakeAction::Done(Err(e)),
            ),
        }
    }

    /// Whether `r` is the report this wake-up waits for.
    pub fn accepts(&self, r: &WakeReport) -> (b: bool)
        ensures
            b == wake_expects(self.stage, *r),
    {
        match r {
            WakeReport::Probed(_) => self.stage == WakeStage::FirstProbe || self.stage
                == WakeStage::Polling,
            WakeReport::Sent => self.stage == WakeStage::FirstSend || self.stage
                == WakeStage::Resending,
            WakeReport::Slept => self.stage == WakeStage::Sleeping || self.stage
                == WakeStage::Settling,
            WakeReport::Checked { .. } => self.stage == WakeStage::Checking,
        }
    }

    /// Takes the report of the action that was asked for and names the next
    /// one.
    pub fn step(&mut self, r: WakeReport) -> (act: WakeAction)
        requires
            old(self).wf(),
            wake_expects(old(self).stage, r),
        ensures
            wake_follows(*old(self), r, *final(self), act),
            final(self).wf(),
    {
        let named = !self.host.as_str().is_empty();
        match r {
            WakeReport::Probed(up) => {
                if up {
                    self.stage = WakeStage::Done;
                    WakeAction::Done(Ok(()))
                } else if self.stage == WakeStage::FirstProbe {
                    self.stage = WakeStage::FirstSend;
                    WakeAction::Send
                } else {
                    self.stage = WakeStage::Checking;
                    WakeAction::Check { first: false }
                }
            },
            WakeReport::Sent => {
                if self.stage == WakeStage::FirstSend {
                    self.stage = WakeStage::Checking;
                    WakeAction::Check { first: true }
                } else if named {
                    self.stage = WakeStage::Polling;
                    WakeAction::Probe
                } else if self.resent + 1 < 4 {
                    self.resent = self.resent + 1;
                    self.stage = WakeStage::Checking;
                    WakeAction::Check { first: false }
                } else {
                    self.resent = self.resent + 1;
                    self.stage = WakeStage::Settling;
                    WakeAction::Sleep { secs: 4 }
                }
            },
            WakeReport::Slept => {
                if self.stage == WakeStage::Settling {
                    self.stage = WakeStage::Done;
                    WakeAction::Done(Ok(()))
                } else {
                    self.stage = WakeStage::Resending;
                    WakeAction::Send
                }
            },
            WakeReport::Checked { cancelled, in_time } => {
                if named && !in_time {
                    self.stage = WakeStage::Done;
                    WakeAction::Done(Err(WolError::Timeout(self.host.clone())))
                } else if cancelled {
                    self.stage = WakeStage::Done;
                    WakeAction::Done(Err(WolError::Cancelled))
                } else {
                    self.stage = WakeStage::Sleeping;
                    WakeAction::Sleep {
                        secs: if named {
                            3
                        } else {
                            2
                        },
                    }
                }
            },
        }
    }
}

/// A wake-up that waits for a named host reports success only when that
/// host answered.
pub proof fn law_named_host_must_answer(w: Waker, r: WakeReport, next: Waker, act: WakeAction)
    requires
        w.wf(),
        wake_expects(w.stage, r),
        wake_follows(w, r, next, act),
        w.host@.len() > 0,
        act == WakeAction::Done(Ok(())),
    ensures
        r == WakeReport::Probed(true),
{
}

/// Cancelling ends the wait at the next check, unless the time limit for a
/// named host has already passed.
pub proof fn law_cancel_ends_the_wait(w: Waker, in_time: bool, next: Waker, act: WakeAction)
    requires
        w.wf(),
        w.stage == WakeStage::Checking,
        wake_follows(w, WakeReport::Checked { cancelled: true, in_time }, next, act),
        in_time || w.host@.len() == 0,
    ensures
        act == WakeAction::Done(Err(WolError::Cancelled)),
        next.stage == WakeStage::Done,
{
}

/// Without a host to wait for, a wake-up never times out: it ends with
/// success after its grace period, unless it is cancelled.
pub proof fn law_unnamed_host_never_times_out(
    w: Waker,
    r: WakeReport,
    next: Waker,
    act: WakeAction,
)
    requires
        w.wf(),
        wake_expects(w.stage, r),
        wake_follows(w, r, next, act),
        w.host@.len() == 0,
    ensures
        act matches WakeAction::Done(Err(e)) ==> e is Cancelled,
{
}

} // verus!

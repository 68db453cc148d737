//! WebSocket hub configuration and the handshake rules: what makes a
//! request an upgrade, and the `Sec-WebSocket-Accept` answer to a key.
use std::sync::Arc;

use dashmap::DashMap;
use sha1::{Digest, Sha1};
use tokio::sync::broadcast;

use base64::Engine as _;

use vstd::prelude::*;

use crate::text::{
    ascii_lower_chars, ascii_lower_seq, chars_of, contains, contains_chars, eq_ignore_ascii_case,
    eq_ignore_ascii_case_chars, utf8_of,
};
use vstd::utf8::encode_utf8;

verus! {

/// Per-channel broadcast capacity by default.
pub const DEFAULT_CHANNEL_CAPACITY: usize = 256;

/// Configuration of the WebSocket hub.
#[derive(Clone, Copy, Debug)]
pub struct WsConfig {
    pub max_channels: usize,
    pub channel_capacity: usize,
    /// Largest frame or message accepted, in bytes.
    pub max_frame_size: usize,
    /// Idle connections close after this many seconds; 0 disables.
    pub idle_timeout_secs: u64,
}

impl Default for WsConfig {
    /// 128 channels of 256 frames, 64 KiB frames, 300 s idle timeout.
    fn default() -> (r: Self)
        ensures
            r.max_channels == 128,
            r.channel_capacity == 256,
            r.max_frame_size == 65536,
            r.idle_timeout_secs == 300,
    {
        WsConfig {
            max_channels: 128,
            channel_capacity: DEFAULT_CHANNEL_CAPACITY,
            max_frame_size: 65536,
            idle_timeout_secs: 300,
        }
    }
}

/// Counters of the WebSocket hub.
#[derive(Clone, Copy, Debug)]
pub struct WsStats {
    pub channels: usize,
    pub published: u64,
    pub subscribed: u64,
    pub rejected: u64,
}

/// `tokio::sync::broadcast::Sender`: the sending half of a channel.
#[verifier::external_type_specification]
#[verifier::external_body]
#[verifier::reject_recursive_types(T)]
pub struct ExSender<T>(broadcast::Sender<T>);

/// `tokio::sync::broadcast::Receiver`: one subscription to a channel.
#[verifier::external_type_specification]
#[verifier::external_body]
#[verifier::reject_recursive_types(T)]
pub struct ExReceiver<T>(broadcast::Receiver<T>);

/// A frame as it is fanned out: shared, immutable bytes.
pub type Frame = Arc<[u8]>;

/// The names of the channels a `DashMap` of the hub holds.
pub uninterp spec fn hub_channels(m: DashMap<String, broadcast::Sender<Frame>>) -> Set<Seq<char>>;

/// `DashMap::new`: no channel.
#[verifier::external_body]
fn hub_map_new() -> (r: DashMap<String, broadcast::Sender<Frame>>)
    ensures
        hub_channels(r) == Set::<Seq<char>>::empty(),
{
    DashMap::new()
}

/// `DashMap::get`, the sender cloned: `None` exactly when there is no
/// channel `k`.
#[verifier::external_body]
fn hub_map_get(m: &DashMap<String, broadcast::Sender<Frame>>, k: &str) -> (r: Option<broadcast::Sender<Frame>>)
    ensures
        r is Some <==> hub_channels(*m).contains(k@),
{
    m.get(k).map(|tx| tx.clone())
}

/// `DashMap::entry(k).or_insert(tx)`, the sender cloned: the channel `k`
/// exists afterwards.
#[verifier::external_body]
fn hub_map_insert(
    m: &mut DashMap<String, broadcast::Sender<Frame>>,
    k: String,
    tx: broadcast::Sender<Frame>,
) -> (r: broadcast::Sender<Frame>)
    ensures
        hub_channels(*final(m)) == hub_channels(*old(m)).insert(k@),
{
    m.entry(k).or_insert(tx).clone()
}

/// `DashMap::len`: the number of channels.
#[verifier::external_body]
fn hub_map_len(m: &DashMap<String, broadcast::Sender<Frame>>) -> (r: usize)
    ensures
        r == hub_channels(*m).len(),
{
    m.len()
}

/// `broadcast::channel`, keeping the sender: a new channel holding up
/// to `capacity` frames per subscriber.  It panics on a capacity of 0 or
/// above `usize::MAX / 2`, which `requires` leaves out.
#[verifier::external_body]
fn new_sender(capacity: usize) -> (r: broadcast::Sender<Frame>)
    requires
        0 < capacity <= usize::MAX / 2,
{
    broadcast::channel(capacity).0
}

/// `DashMap::get` and `Sender::send` on the sender found: `None` exactly
/// when there is no channel `k`; otherwise the number of subscribers the
/// frame went to (0 when there are none, where `send` fails).  That
/// number depends on the subscriptions alive, so nothing more is stated
/// of it.
#[verifier::external_body]
fn hub_map_send(m: &DashMap<String, broadcast::Sender<Frame>>, k: &str, data: Frame) -> (r: Option<usize>)
    ensures
        r is Some <==> hub_channels(*m).contains(k@),
{
    match m.get(k) {
        Some(tx) => Some(tx.value().send(data).unwrap_or(0)),
        None => None,
    }
}

/// `Sender::subscribe`: a new subscription.
#[verifier::external_body]
fn subscribe_to(tx: &broadcast::Sender<Frame>) -> (r: broadcast::Receiver<Frame>) {
    tx.subscribe()
}

/// `Sender::receiver_count`: the subscriptions alive now; nothing is
/// stated of it, as it changes whenever a subscriber leaves.
#[verifier::external_body]
fn receivers_of(tx: &broadcast::Sender<Frame>) -> (r: usize) {
    tx.receiver_count()
}

/// `Arc::<[u8]>::from`: the payload as a shared frame.
#[verifier::external_body]
fn frame_of(payload: Vec<u8>) -> (r: Frame) {
    Arc::from(payload)
}

/// Process-wide WebSocket hub: one broadcast channel per name, created
/// on first use up to a maximum, and running counters.
pub struct WsHub {
    channels: DashMap<String, broadcast::Sender<Frame>>,
    config: WsConfig,
    published: u64,
    subscribed: u64,
    rejected: u64,
}

impl WsHub {
    /// The channels that exist.
    pub closed spec fn names(&self) -> Set<Seq<char>> {
        hub_channels(self.channels)
    }

    /// Frames published, subscriptions made, requests refused.
    pub closed spec fn counters(&self) -> (u64, u64, u64) {
        (self.published, self.subscribed, self.rejected)
    }

    /// The configuration.
    pub closed spec fn config_view(&self) -> WsConfig {
        self.config
    }

    /// The channels are finitely many and never more than the maximum,
    /// and a channel can be created with the configured capacity.
    pub open spec fn wf(&self) -> bool {
        &&& self.names().finite()
        &&& self.names().len() <= self.config_view().max_channels
        &&& 0 < self.config_view().channel_capacity <= usize::MAX / 2
    }

    /// A hub without channels.
    pub fn new(config: WsConfig) -> (r: Self)
        requires
            0 < config.channel_capacity <= usize::MAX / 2,
        ensures
            r.wf(),
            r.names() == Set::<Seq<char>>::empty(),
            r.counters() == (0u64, 0u64, 0u64),
            r.config_view() == config,
    {
        WsHub { channels: hub_map_new(), config, published: 0, subscribed: 0, rejected: 0 }
    }

    /// The sender of the channel `name`, created unless the hub already
    /// holds its maximum of channels; a refusal is counted.
    fn channel(&mut self, name: &str) -> (r: Option<broadcast::Sender<Frame>>)
        requires
            old(self).wf(),
        ensures
            final(self).wf(),
            final(self).config_view() == old(self).config_view(),
            r is Some <==> admits(old(self).names(), old(self).config_view(), name@),
            r is Some ==> final(self).names() == old(self).names().insert(name@) && final(self).counters()
                == old(self).counters(),
            r is None ==> final(self).names() == old(self).names() && final(self).counters() == (
                old(self).counters().0,
                old(self).counters().1,
                old(self).counters().2.wrapping_add(1),
            ),
    {
        let ghost before = self.names();
        if let Some(tx) = hub_map_get(&self.channels, name) {
            assert(before.insert(name@) =~= before);
            return Some(tx);
        }
        if hub_map_len(&self.channels) >= self.config.max_channels {
            self.rejected = self.rejected.wrapping_add(1);
            return None;
        }
        let tx = new_sender(self.config.channel_capacity);
        Some(hub_map_insert(&mut self.channels, name.to_owned(), tx))
    }

    /// Publishes `payload` to every subscriber of `channel`, creating the
    /// channel when needed: the number of subscribers it went to (0 for a
    /// channel this call creates, which has none yet), or `None` when the
    /// channel cap refuses a new channel.
    pub fn publish(&mut self, channel: &str, payload: Vec<u8>) -> (r: Option<usize>)
        requires
            old(self).wf(),
        ensures
            final(self).wf(),
            final(self).config_view() == old(self).config_view(),
            r is Some <==> admits(old(self).names(), old(self).config_view(), channel@),
            !old(self).names().contains(channel@) && r is Some ==> r == Some(0usize),
            r is Some ==> final(self).names() == old(self).names().insert(channel@) && final(self).counters()
                == (old(self).counters().0.wrapping_add(1), old(self).counters().1, old(self).counters().2),
            r is None ==> final(self).names() == old(self).names() && final(self).counters() == (
                old(self).counters().0,
                old(self).counters().1,
                old(self).counters().2.wrapping_add(1),
            ),
    {
        let ghost before = self.names();
        match hub_map_send(&self.channels, channel, frame_of(payload)) {
            Some(n) => {
                assert(before.insert(channel@) =~= before);
                self.published = self.published.wrapping_add(1);
                return Some(n);
            },
            None => {},
        }
        if hub_map_len(&self.channels) >= self.config.max_channels {
            self.rejected = self.rejected.wrapping_add(1);
            return None;
        }
        let tx = new_sender(self.config.channel_capacity);
        let _ = hub_map_insert(&mut self.channels, channel.to_owned(), tx);
        self.published = self.published.wrapping_add(1);
        Some(0)
    }

    /// Subscribes to `channel`, creating it when needed; `None` when the
    /// channel cap refuses a new channel.
    pub fn subscribe(&mut self, channel: &str) -> (r: Option<broadcast::Receiver<Frame>>)
        requires
            old(self).wf(),
        ensures
            final(self).wf(),
            final(self).config_view() == old(self).config_view(),
            r is Some <==> admits(old(self).names(), old(self).config_view(), channel@),
            r is Some ==> final(self).names() == old(self).names().insert(channel@) && final(self).counters()
                == (old(self).counters().0, old(self).counters().1.wrapping_add(1), old(self).counters().2),
            r is None ==> final(self).names() == old(self).names() && final(self).counters() == (
                old(self).counters().0,
                old(self).counters().1,
                old(self).counters().2.wrapping_add(1),
            ),
    {
        let tx = match self.channel(channel) {
            Some(tx) => tx,
            None => return None,
        };
        self.subscribed = self.subscribed.wrapping_add(1);
        Some(subscribe_to(&tx))
    }

    /// The subscribers of `channel` now; 0 when there is no such channel.
    pub fn subscriber_count(&self, channel: &str) -> (r: usize)
        ensures
            !self.names().contains(channel@) ==> r == 0,
    {
        match hub_map_get(&self.channels, channel) {
            Some(tx) => receivers_of(&tx),
            None => 0,
        }
    }

    /// The hub's counters and number of channels.
    pub fn stats(&self) -> (r: WsStats)
        ensures
            r.channels == self.names().len(),
            (r.published, r.subscribed, r.rejected) == self.counters(),
    {
        WsStats {
            channels: hub_map_len(&self.channels),
            published: self.published,
            subscribed: self.subscribed,
            rejected: self.rejected,
        }
    }
}

/// A hub with channels `names` admits a frame or a subscriber on `name`
/// when the channel exists or one more fits under the maximum.
pub open spec fn admits(names: Set<Seq<char>>, config: WsConfig, name: Seq<char>) -> bool {
    names.contains(name) || names.len() < config.max_channels
}

/// The GUID every accept key is derived with.
pub const WS_MAGIC: &'static str = "258EAFA5-E914-47DA-95CA-C5AB0DC85B11";

/// A request upgrades to WebSocket: its `Upgrade` header is `websocket`
/// in any letter case, and its `Connection` header holds `upgrade` in any
/// letter case.
pub open spec fn upgrade_requested(upgrade: Option<Seq<char>>, connection: Option<Seq<char>>) -> bool {
    &&& upgrade matches Some(u) && eq_ignore_ascii_case(u, "websocket"@)
    &&& connection matches Some(c) && contains(ascii_lower_seq(c), "upgrade"@)
}

/// Whether the `Upgrade` and `Connection` header values (when readable)
/// ask for a WebSocket upgrade.
pub fn is_upgrade_headers(upgrade: Option<&str>, connection: Option<&str>) -> (r: bool)
    ensures
        r == upgrade_requested(
            match upgrade {
                Some(u) => Some(u@),
                None => None,
            },
            match connection {
                Some(c) => Some(c@),
                None => None,
            },
        ),
{
    let up = match upgrade {
        Some(u) => {
            let uc = chars_of(u);
            let w = chars_of("websocket");
            eq_ignore_ascii_case_chars(uc.as_slice(), w.as_slice())
        },
        None => false,
    };
    if !up {
        return false;
    }
    match connection {
        Some(c) => {
            let cc = chars_of(c);
            let lower = ascii_lower_chars(cc.as_slice());
            let u = chars_of("upgrade");
            contains_chars(lower.as_slice(), u.as_slice())
        },
        None => false,
    }
}

/// The base64 alphabet (RFC 4648, standard).
pub open spec fn b64_digit(v: int) -> char {
    if v < 26 {
        (65 + v) as char
    } else if v < 52 {
        (97 + v - 26) as char
    } else if v < 62 {
        (48 + v - 52) as char
    } else if v == 62 {
        '+'
    } else {
        '/'
    }
}

/// Standard base64 with padding: each 3 bytes become 4 digits; a final
/// 1 or 2 bytes become 2 or 3 digits and `=` padding.
pub open spec fn base64_std(d: Seq<u8>) -> Seq<char>
    decreases d.len(),
{
    if d.len() == 0 {
        seq![]
    } else if d.len() == 1 {
        seq![b64_digit(d[0] as int / 4), b64_digit((d[0] as int % 4) * 16), '=', '=']
    } else if d.len() == 2 {
        seq![
            b64_digit(d[0] as int / 4),
            b64_digit((d[0] as int % 4) * 16 + d[1] as int / 16),
            b64_digit((d[1] as int % 16) * 4),
            '=',
        ]
    } else {
        seq![
            b64_digit(d[0] as int / 4),
            b64_digit((d[0] as int % 4) * 16 + d[1] as int / 16),
            b64_digit((d[1] as int % 16) * 4 + d[2] as int / 64),
            b64_digit(d[2] as int % 64),
        ] + base64_std(d.skip(3))
    }
}

/// `base64::engine::general_purpose::STANDARD.encode`: standard base64
/// with padding.
#[verifier::external_body]
fn base64_encode(data: &[u8]) -> (r: String)
    ensures
        r@ == base64_std(data@),
{
    base64::engine::general_purpose::STANDARD.encode(data)
}

/// What SHA-1 makes of a byte string: its 20-byte digest.
pub uninterp spec fn sha1_of(data: Seq<u8>) -> Seq<u8>;

/// `Sha1::digest`: the SHA-1 digest of `data`, 20 bytes.
#[verifier::external_body]
fn sha1_digest(data: &[u8]) -> (r: Vec<u8>)
    ensures
        r@ == sha1_of(data@),
        r@.len() == 20,
{
    Sha1::digest(data).to_vec()
}

/// The `Sec-WebSocket-Accept` answer to a client key: base64 of the
/// SHA-1 of the key followed by the WebSocket GUID.
pub open spec fn accept_of(key: Seq<char>) -> Seq<char> {
    base64_std(sha1_of(encode_utf8(key) + encode_utf8(WS_MAGIC@)))
}

/// Computes the `Sec-WebSocket-Accept` value for a client's key.
pub fn compute_accept(key: &str) -> (r: String)
    ensures
        r@ == accept_of(key@),
{
    let k = chars_of(key);
    let mut bytes = utf8_of(k.as_slice());
    let m = chars_of(WS_MAGIC);
    let mb = utf8_of(m.as_slice());
    let mut i: usize = 0;
    let ghost kb = bytes@;
    while i < mb.len()
        invariant
            i <= mb@.len(),
            bytes@ == kb + mb@.take(i as int),
        decreases mb.len() - i,
    {
        bytes.push(mb[i]);
        i = i + 1;
        assert(bytes@ =~= kb + mb@.take(i as int));
    }
    assert(mb@.take(mb@.len() as int) =~= mb@);
    let digest = sha1_digest(bytes.as_slice());
    base64_encode(digest.as_slice())
}

} // verus!

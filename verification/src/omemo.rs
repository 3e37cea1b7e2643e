//! OMEMO device trust (XEP-0384) and the records that the key store keeps.
//!
//! The trust rules are Blind Trust Before Verification (BTBV): while no
//! device of a peer has been verified by hand, new devices are trusted
//! blindly; once one has been verified, new devices stay undecided and the
//! remaining blindly trusted ones are demoted. The functions here compute each
//! change on the rows of one peer; the store loads and writes those rows.

use vstd::prelude::*;

use crate::text::{chars_eq, chars_of, opt_string, string_from_chars};

verus! {

/// Trust classification for a peer device.
#[derive(Debug, Clone, Copy, PartialEq, Eq, Structural)]
pub enum TrustState {
    /// Device seen but not yet acted on by the user.
    Undecided,
    /// First device seen for a JID — auto-trusted once (TOFU).
    Tofu,
    /// User has manually verified the fingerprint.
    Trusted,
    /// User has explicitly rejected this device.
    Untrusted,
    /// BTBV: automatically trusted because no device for this JID
    /// has been manually verified yet. Permits encryption until the
    /// user verifies any device, at which point unverified devices
    /// should be reviewed.
    BlindTrust,
}

/// The name under which a trust state is stored.
pub open spec fn trust_name(t: TrustState) -> Seq<char> {
    match t {
        TrustState::Undecided => "undecided"@,
        TrustState::Tofu => "tofu"@,
        TrustState::Trusted => "trusted"@,
        TrustState::Untrusted => "untrusted"@,
        TrustState::BlindTrust => "blind_trust"@,
    }
}

/// The trust state a stored name denotes; unknown names are `Undecided`.
pub open spec fn trust_from_name(s: Seq<char>) -> TrustState {
    if s == "tofu"@ {
        TrustState::Tofu
    } else if s == "trusted"@ {
        TrustState::Trusted
    } else if s == "untrusted"@ {
        TrustState::Untrusted
    } else if s == "blind_trust"@ {
        TrustState::BlindTrust
    } else {
        TrustState::Undecided
    }
}

/// The states that permit exchanging messages with a device.
pub open spec fn permits_messages(t: TrustState) -> bool {
    t == TrustState::Tofu || t == TrustState::Trusted || t == TrustState::BlindTrust
}

impl TrustState {
    /// The name under which this state is stored.
    pub fn as_str(&self) -> (r: &'static str)
        ensures
            r@ == trust_name(*self),
    {
        match self {
            TrustState::Undecided => "undecided",
            TrustState::Tofu => "tofu",
            TrustState::Trusted => "trusted",
            TrustState::Untrusted => "untrusted",
            TrustState::BlindTrust => "blind_trust",
        }
    }

    /// Returns true when this state permits receiving messages from the device.
    pub fn is_decryptable(&self) -> (r: bool)
        ensures
            r == permits_messages(*self),
    {
        match self {
            TrustState::Tofu | TrustState::Trusted | TrustState::BlindTrust => true,
            _ => false,
        }
    }

    /// Returns true when this state permits encrypting outbound messages to the device.
    pub fn is_encryptable(&self) -> (r: bool)
        ensures
            r == permits_messages(*self),
    {
        match self {
            TrustState::Tofu | TrustState::Trusted | TrustState::BlindTrust => true,
            _ => false,
        }
    }

    /// The trust state stored under `s`; unknown names give `Undecided`.
    pub fn from_name(s: &str) -> (r: TrustState)
        ensures
            r == trust_from_name(s@),
    {
        let v = chars_of(s);
        if chars_eq(&v, &chars_of("tofu")) {
            TrustState::Tofu
        } else if chars_eq(&v, &chars_of("trusted")) {
            TrustState::Trusted
        } else if chars_eq(&v, &chars_of("untrusted")) {
            TrustState::Untrusted
        } else if chars_eq(&v, &chars_of("blind_trust")) {
            TrustState::BlindTrust
        } else {
            TrustState::Undecided
        }
    }
}

impl std::str::FromStr for TrustState {
    type Err = std::convert::Infallible;

    fn from_str(s: &str) -> (r: Result<Self, Self::Err>)
        ensures
            r matches Ok(t) && t == trust_from_name(s@),
    {
        Ok(TrustState::from_name(s))
    }
}

/// Reading back the stored name of a trust state gives that state.
pub proof fn lemma_trust_name_roundtrip(t: TrustState)
    ensures
        trust_from_name(trust_name(t)) == t,
{
    reveal_strlit("undecided");
    reveal_strlit("tofu");
    reveal_strlit("trusted");
    reveal_strlit("untrusted");
    reveal_strlit("blind_trust");
    assert("undecided"@[2] != "untrusted"@[2]);
    assert("undecided"@[0] != "tofu"@[0]);
    assert("undecided"@[0] != "trusted"@[0]);
    assert("undecided"@[0] != "blind_trust"@[0]);
    assert("trusted"@[0] != "untrusted"@[0]);
    assert("tofu"@[1] != "trusted"@[1]);
}


/// Own identity row as persisted in `omemo_identity`.
#[derive(Debug, Clone)]
pub struct OwnIdentity {
    pub account_jid: String,
    pub device_id: u32,
    /// Serialized Ed25519 identity key pair (vodozemac format).
    pub identity_key: Vec<u8>,
    /// Serialized current signed pre-key.
    pub signed_prekey: Vec<u8>,
    pub spk_id: u32,
}

/// A single one-time pre-key row from `omemo_prekeys`.
#[derive(Debug, Clone)]
pub struct StoredPreKey {
    pub prekey_id: u32,
    pub key_data: Vec<u8>,
    pub _consumed: bool,
}

/// A peer device row from `omemo_devices`.
#[derive(Debug, Clone)]
pub struct PeerDevice {
    pub _peer_jid: String,
    pub device_id: u32,
    pub trust: TrustState,
    pub _label: Option<String>,
    pub _active: bool,
    /// Hex-encoded identity key fingerprint (Curve25519 public key).
    pub fingerprint: Option<String>,
}

/// An Olm session row from `omemo_sessions`.
#[derive(Debug, Clone)]
pub struct StoredSession {
    pub _peer_jid: String,
    pub _device_id: u32,
    /// Opaque vodozemac session bytes.
    pub session_data: Vec<u8>,
    pub _updated_at: i64,
}

/// No two rows describe the same device.
pub open spec fn distinct_ids(ds: Seq<PeerDevice>) -> bool {
    forall|i: int, j: int|
        0 <= i < ds.len() && 0 <= j < ds.len() && i != j ==> #[trigger] ds[i].device_id
            != #[trigger] ds[j].device_id
}

/// A row for `id` exists.
pub open spec fn has_device(ds: Seq<PeerDevice>, id: u32) -> bool {
    exists|i: int| 0 <= i < ds.len() && #[trigger] ds[i].device_id == id
}

/// Some device has been verified by hand (trust `Trusted`).
pub open spec fn any_trusted(ds: Seq<PeerDevice>) -> bool {
    exists|i: int| 0 <= i < ds.len() && #[trigger] ds[i].trust == TrustState::Trusted
}

/// Some device is trusted blindly.
pub open spec fn any_blind_trust(ds: Seq<PeerDevice>) -> bool {
    exists|i: int| 0 <= i < ds.len() && #[trigger] ds[i].trust == TrustState::BlindTrust
}

/// BTBV: the trust a newly seen device gets.
pub open spec fn initial_trust(ds: Seq<PeerDevice>) -> TrustState {
    if any_trusted(ds) {
        TrustState::Undecided
    } else {
        TrustState::BlindTrust
    }
}

/// `d` with trust `t`.
pub open spec fn with_trust(d: PeerDevice, t: TrustState) -> PeerDevice {
    PeerDevice {
        _peer_jid: d._peer_jid,
        device_id: d.device_id,
        trust: t,
        _label: d._label,
        _active: d._active,
        fingerprint: d.fingerprint,
    }
}

/// `d` with activity `a`.
pub open spec fn with_active(d: PeerDevice, a: bool) -> PeerDevice {
    PeerDevice {
        _peer_jid: d._peer_jid,
        device_id: d.device_id,
        trust: d.trust,
        _label: d._label,
        _active: a,
        fingerprint: d.fingerprint,
    }
}

/// `d` with fingerprint `f`.
pub open spec fn with_fingerprint(d: PeerDevice, f: Option<String>) -> PeerDevice {
    PeerDevice {
        _peer_jid: d._peer_jid,
        device_id: d.device_id,
        trust: d.trust,
        _label: d._label,
        _active: d._active,
        fingerprint: f,
    }
}

/// The rows after the trust of device `id` is set to `t`.
pub open spec fn set_trust_result(ds: Seq<PeerDevice>, id: u32, t: TrustState) -> Seq<PeerDevice> {
    ds.map_values(
        |d: PeerDevice|
            if d.device_id == id {
                with_trust(d, t)
            } else {
                d
            },
    )
}

/// The rows after device `id` is verified: it becomes `Trusted`, and every
/// other blindly trusted device becomes `Undecided`.
pub open spec fn verify_result(ds: Seq<PeerDevice>, id: u32) -> Seq<PeerDevice> {
    ds.map_values(
        |d: PeerDevice|
            if d.device_id == id {
                with_trust(d, TrustState::Trusted)
            } else if d.trust == TrustState::BlindTrust {
                with_trust(d, TrustState::Undecided)
            } else {
                d
            },
    )
}

/// Index of the row for `id`.
fn find_device(ds: &Vec<PeerDevice>, id: u32) -> (r: Option<usize>)
    ensures
        match r {
            Some(k) => k < ds@.len() && ds@[k as int].device_id == id,
            None => !has_device(ds@, id),
        },
{
    let mut k: usize = 0;
    while k < ds.len()
        invariant
            k <= ds.len(),
            forall|j: int| 0 <= j < k ==> #[trigger] ds@[j].device_id != id,
        decreases ds.len() - k,
    {
        if ds[k].device_id == id {
            return Some(k);
        }
        k = k + 1;
    }
    None
}

/// Check whether any device has been manually verified (trust
/// `Trusted`). This is the pivot for BTBV: once a user verifies any device,
/// all other devices of that JID must be explicitly decided.
pub fn has_manually_trusted_device(ds: &Vec<PeerDevice>) -> (r: bool)
    ensures
        r == any_trusted(ds@),
{
    let mut k: usize = 0;
    while k < ds.len()
        invariant
            k <= ds.len(),
            forall|j: int| 0 <= j < k ==> #[trigger] ds@[j].trust != TrustState::Trusted,
        decreases ds.len() - k,
    {
        if ds[k].trust == TrustState::Trusted {
            return true;
        }
        k = k + 1;
    }
    false
}

/// Determine the initial trust state for a newly seen device using BTBV.
///
/// If no device has been manually verified yet, the new device gets
/// `BlindTrust` (messages are encrypted to it automatically). Once any device
/// has been verified, new devices default to `Undecided` and the user must
/// explicitly decide.
pub fn resolve_initial_trust(ds: &Vec<PeerDevice>) -> (r: TrustState)
    ensures
        r == initial_trust(ds@),
{
    if has_manually_trusted_device(ds) {
        TrustState::Undecided
    } else {
        TrustState::BlindTrust
    }
}

/// Set the trust state for a specific device (user action).
pub fn set_trust(ds: &mut Vec<PeerDevice>, device_id: u32, trust: TrustState)
    requires
        distinct_ids(old(ds)@),
    ensures
        final(ds)@ == set_trust_result(old(ds)@, device_id, trust),
        distinct_ids(final(ds)@),
{
    let ghost before = ds@;
    match find_device(ds, device_id) {
        Some(k) => {
            let mut d = ds.remove(k);
            d.trust = trust;
            ds.insert(k, d);
            assert(ds@ =~= set_trust_result(before, device_id, trust));
        },
        None => {
            assert(ds@ =~= set_trust_result(before, device_id, trust));
        },
    }
}

/// Promote a device to `Trusted` after the user verifies the fingerprint.
/// Also downgrades every remaining `BlindTrust` device to `Undecided`, since
/// BTBV no longer applies once manual verification has occurred.
pub fn verify_device(ds: &mut Vec<PeerDevice>, device_id: u32)
    requires
        distinct_ids(old(ds)@),
    ensures
        final(ds)@ == verify_result(old(ds)@, device_id),
        distinct_ids(final(ds)@),
{
    let ghost before = ds@;
    let mut k: usize = 0;
    while k < ds.len()
        invariant
            k <= ds.len(),
            ds@.len() == before.len(),
            forall|j: int| 0 <= j < k ==> #[trigger] ds@[j] == verify_result(before, device_id)[j],
            forall|j: int| k <= j < ds@.len() ==> #[trigger] ds@[j] == before[j],
        decreases ds.len() - k,
    {
        if ds[k].device_id == device_id {
            let mut d = ds.remove(k);
            d.trust = TrustState::Trusted;
            ds.insert(k, d);
        } else if ds[k].trust == TrustState::BlindTrust {
            let mut d = ds.remove(k);
            d.trust = TrustState::Undecided;
            ds.insert(k, d);
        }
        k = k + 1;
    }
    assert(ds@ =~= verify_result(before, device_id));
}


/// `d` is the row of device `id` of peer `peer` with the given fields.
pub open spec fn row_is(
    d: PeerDevice,
    peer: Seq<char>,
    id: u32,
    trust: TrustState,
    label: Option<Seq<char>>,
    active: bool,
    fingerprint: Option<Seq<char>>,
) -> bool {
    &&& d._peer_jid@ == peer
    &&& d.device_id == id
    &&& d.trust == trust
    &&& opt_string(d._label) == label
    &&& d._active == active
    &&& opt_string(d.fingerprint) == fingerprint
}

/// `new` is `old` after an upsert of device `id`: an existing row keeps its
/// peer and fingerprint and takes the given trust, label and activity; an
/// unknown device is appended without a fingerprint.
pub open spec fn upsert_post(
    old: Seq<PeerDevice>,
    new: Seq<PeerDevice>,
    peer: Seq<char>,
    id: u32,
    trust: TrustState,
    label: Option<Seq<char>>,
    active: bool,
) -> bool {
    if has_device(old, id) {
        &&& new.len() == old.len()
        &&& forall|k: int|
            0 <= k < old.len() ==> if old[k].device_id == id {
                row_is(
                    #[trigger] new[k],
                    old[k]._peer_jid@,
                    id,
                    trust,
                    label,
                    active,
                    opt_string(old[k].fingerprint),
                )
            } else {
                new[k] == old[k]
            }
    } else {
        &&& new.len() == old.len() + 1
        &&& new.take(old.len() as int) == old
        &&& row_is(new.last(), peer, id, trust, label, active, None)
    }
}

/// The option of a string slice as an option of its characters.
pub open spec fn opt_str(o: Option<&str>) -> Option<Seq<char>> {
    match o {
        Some(s) => Some(s@),
        None => None,
    }
}

/// Upsert a device record. On conflict (same device), updates trust, label
/// and activity.
pub fn upsert_device(
    ds: &mut Vec<PeerDevice>,
    peer_jid: &str,
    device_id: u32,
    trust: TrustState,
    label: Option<&str>,
    active: bool,
)
    requires
        distinct_ids(old(ds)@),
    ensures
        upsert_post(old(ds)@, final(ds)@, peer_jid@, device_id, trust, opt_str(label), active),
        distinct_ids(final(ds)@),
{
    let label_string = match label {
        Some(l) => Some(string_from_chars(&chars_of(l))),
        None => None,
    };
    assert(opt_string(label_string) == opt_str(label));
    let ghost before = ds@;
    match find_device(ds, device_id) {
        Some(k) => {
            let mut d = ds.remove(k);
            d.trust = trust;
            d._label = label_string;
            d._active = active;
            ds.insert(k, d);
            assert forall|m: int| 0 <= m < before.len() && before[m].device_id == device_id implies m
                == k by {
                if m != k {
                    assert(before[m].device_id != before[k as int].device_id);
                }
            }
        },
        None => {
            ds.push(
                PeerDevice {
                    _peer_jid: string_from_chars(&chars_of(peer_jid)),
                    device_id,
                    trust,
                    _label: label_string,
                    _active: active,
                    fingerprint: None,
                },
            );
            assert(ds@.take(before.len() as int) =~= before);
            assert forall|i: int, j: int|
                0 <= i < ds@.len() && 0 <= j < ds@.len() && i != j implies #[trigger] ds@[i].device_id
                != #[trigger] ds@[j].device_id by {
                if i < before.len() && j < before.len() {
                    assert(before[i].device_id != before[j].device_id);
                } else if i < before.len() {
                    assert(before[i].device_id != device_id);
                } else if j < before.len() {
                    assert(before[j].device_id != device_id);
                }
            }
        },
    }
}

/// The devices of `ids` that `ds` does not know, each once, in the order of
/// their first occurrence.
pub open spec fn new_ids(ids: Seq<u32>, ds: Seq<PeerDevice>) -> Seq<u32>
    decreases ids.len(),
{
    if ids.len() == 0 {
        Seq::empty()
    } else {
        let p = new_ids(ids.drop_last(), ds);
        if has_device(ds, ids.last()) || p.contains(ids.last()) {
            p
        } else {
            p.push(ids.last())
        }
    }
}

/// `new` is `old` after a fresh device list `ids` of peer `peer` arrived:
/// every known device is active exactly when listed and keeps its trust; each
/// listed unknown device is appended once, active, with the trust that BTBV
/// gives it in `old`.
pub open spec fn sync_post(old: Seq<PeerDevice>, new: Seq<PeerDevice>, peer: Seq<char>, ids: Seq<u32>) -> bool {
    let fresh = new_ids(ids, old);
    &&& new.len() == old.len() + fresh.len()
    &&& forall|k: int|
        0 <= k < old.len() ==> #[trigger] new[k] == with_active(old[k], ids.contains(old[k].device_id))
    &&& forall|k: int|
        0 <= k < fresh.len() ==> row_is(
            #[trigger] new[old.len() + k],
            peer,
            fresh[k],
            initial_trust(old),
            None,
            true,
            None,
        )
}

proof fn lemma_contains_take_step(ids: Seq<u32>, j: int, y: u32)
    requires
        0 <= j < ids.len(),
    ensures
        ids.take(j + 1).contains(y) <==> (ids.take(j).contains(y) || ids[j] == y),
{
    if ids.take(j + 1).contains(y) {
        let m = choose|m: int| 0 <= m < j + 1 && #[trigger] ids.take(j + 1)[m] == y;
        if m < j {
            assert(ids.take(j)[m] == y);
        }
    }
    if ids.take(j).contains(y) {
        let m = choose|m: int| 0 <= m < j && #[trigger] ids.take(j)[m] == y;
        assert(ids.take(j + 1)[m] == y);
    }
    if ids[j] == y {
        assert(ids.take(j + 1)[j] == y);
    }
}

/// Mark all devices inactive, then set only the listed ones active, adding
/// unknown ones with the trust that BTBV gives them. Called when a fresh
/// device list arrives from PEP.
pub fn sync_device_list(ds: &mut Vec<PeerDevice>, peer_jid: &str, active_device_ids: &[u32])
    requires
        distinct_ids(old(ds)@),
    ensures
        sync_post(old(ds)@, final(ds)@, peer_jid@, active_device_ids@),
        distinct_ids(final(ds)@),
{
    let ghost before = ds@;
    let ghost ids = active_device_ids@;
    // Determine whether BTBV applies before any change.
    let default_trust = resolve_initial_trust(ds);
    // Deactivate all first.
    let mut k: usize = 0;
    while k < ds.len()
        invariant
            k <= ds.len(),
            ds@.len() == before.len(),
            forall|j: int| 0 <= j < k ==> #[trigger] ds@[j] == with_active(before[j], false),
            forall|j: int| k <= j < ds@.len() ==> #[trigger] ds@[j] == before[j],
        decreases ds.len() - k,
    {
        let mut d = ds.remove(k);
        d._active = false;
        ds.insert(k, d);
        k = k + 1;
    }
    assert(ids.take(0) =~= Seq::<u32>::empty());
    // Re-activate the reported ones (insert if unknown).
    let mut j: usize = 0;
    while j < active_device_ids.len()
        invariant
            j <= active_device_ids.len(),
            ids == active_device_ids@,
            distinct_ids(before),
            default_trust == initial_trust(before),
            ds@.len() == before.len() + new_ids(ids.take(j as int), before).len(),
            forall|m: int|
                0 <= m < before.len() ==> #[trigger] ds@[m] == with_active(
                    before[m],
                    ids.take(j as int).contains(before[m].device_id),
                ),
            forall|m: int|
                0 <= m < new_ids(ids.take(j as int), before).len() ==> row_is(
                    #[trigger] ds@[before.len() + m],
                    peer_jid@,
                    new_ids(ids.take(j as int), before)[m],
                    default_trust,
                    None,
                    true,
                    None,
                ),
            distinct_ids(ds@),
        decreases active_device_ids.len() - j,
    {
        let id = active_device_ids[j];
        let ghost p = new_ids(ids.take(j as int), before);
        let ghost cur = ds@;
        proof {
            assert(ids.take(j + 1).drop_last() =~= ids.take(j as int));
            assert forall|m: int| 0 <= m < before.len() implies (ids.take(j + 1).contains(
                before[m].device_id,
            ) <==> (ids.take(j as int).contains(before[m].device_id) || before[m].device_id
                == id)) by {
                lemma_contains_take_step(ids, j as int, before[m].device_id);
            }
        }
        match find_device(ds, id) {
            Some(k) => {
                proof {
                    if k < before.len() {
                        assert(has_device(before, id));
                    } else {
                        let q = k - before.len();
                        assert(row_is(cur[before.len() + q], peer_jid@, p[q], default_trust, None, true, None));
                        assert(p[q] == id);
                        assert(p.contains(id));
                    }
                    assert forall|m: int| 0 <= m < cur.len() && m != k implies #[trigger] cur[m].device_id
                        != id by {
                        assert(cur[m].device_id != cur[k as int].device_id);
                    }
                }
                let mut d = ds.remove(k);
                d._active = true;
                ds.insert(k, d);
                proof {
                    assert(new_ids(ids.take(j + 1), before) == p);
                    assert forall|m: int| 0 <= m < before.len() implies #[trigger] ds@[m]
                        == with_active(before[m], ids.take(j + 1).contains(before[m].device_id)) by {
                        if m != k {
                            assert(cur[m].device_id != id);
                        }
                    }
                    assert forall|m: int| 0 <= m < p.len() implies row_is(
                        #[trigger] ds@[before.len() + m],
                        peer_jid@,
                        p[m],
                        default_trust,
                        None,
                        true,
                        None,
                    ) by {
                        assert(cur[before.len() + m] == ds@[before.len() + m] || before.len() + m
                            == k);
                    }
                }
            },
            None => {
                proof {
                    assert(!has_device(before, id)) by {
                        if has_device(before, id) {
                            let m = choose|m: int| 0 <= m < before.len() && #[trigger] before[m].device_id == id;
                            assert(cur[m].device_id == id);
                        }
                    }
                    assert(!p.contains(id)) by {
                        if p.contains(id) {
                            let m = choose|m: int| 0 <= m < p.len() && #[trigger] p[m] == id;
                            assert(cur[before.len() + m].device_id == id);
                        }
                    }
                }
                ds.push(
                    PeerDevice {
                        _peer_jid: string_from_chars(&chars_of(peer_jid)),
                        device_id: id,
                        trust: default_trust,
                        _label: None,
                        _active: true,
                        fingerprint: None,
                    },
                );
                proof {
                    assert(new_ids(ids.take(j + 1), before) == p.push(id));
                    assert forall|a: int, b: int|
                        0 <= a < ds@.len() && 0 <= b < ds@.len() && a != b implies #[trigger] ds@[a].device_id
                        != #[trigger] ds@[b].device_id by {
                        if a < cur.len() && b < cur.len() {
                            assert(cur[a].device_id != cur[b].device_id);
                        } else if a < cur.len() {
                            assert(cur[a].device_id != id);
                        } else if b < cur.len() {
                            assert(cur[b].device_id != id);
                        }
                    }
                }
            },
        }
        j = j + 1;
    }
    assert(ids.take(active_device_ids.len() as int) =~= ids);
}

/// `new` is `old` with the fingerprint of device `id` (if known) set to `fp`.
pub open spec fn save_fingerprint_post(old: Seq<PeerDevice>, new: Seq<PeerDevice>, id: u32, fp: Seq<char>) -> bool {
    &&& new.len() == old.len()
    &&& forall|k: int|
        0 <= k < old.len() ==> if old[k].device_id == id {
            &&& #[trigger] new[k] == with_fingerprint(old[k], new[k].fingerprint)
            &&& opt_string(new[k].fingerprint) == Some(fp)
        } else {
            new[k] == old[k]
        }
}

/// Store (or update) the identity key fingerprint for a device.
///
/// `fingerprint` is the hex-encoded Curve25519 public identity key.
pub fn save_fingerprint(ds: &mut Vec<PeerDevice>, device_id: u32, fingerprint: &str)
    requires
        distinct_ids(old(ds)@),
    ensures
        save_fingerprint_post(old(ds)@, final(ds)@, device_id, fingerprint@),
        distinct_ids(final(ds)@),
{
    let ghost before = ds@;
    match find_device(ds, device_id) {
        Some(k) => {
            let mut d = ds.remove(k);
            d.fingerprint = Some(string_from_chars(&chars_of(fingerprint)));
            ds.insert(k, d);
            assert forall|m: int| 0 <= m < before.len() && m != k implies before[m].device_id
                != device_id by {
                assert(before[m].device_id != before[k as int].device_id);
            }
        },
        None => {},
    }
}

/// The stored fingerprint of device `id`: `None` when the device is unknown
/// or has none.
pub open spec fn device_fingerprint(ds: Seq<PeerDevice>, id: u32) -> Option<Seq<char>> {
    if has_device(ds, id) {
        opt_string(ds[choose|k: int| 0 <= k < ds.len() && #[trigger] ds[k].device_id == id].fingerprint)
    } else {
        None
    }
}

/// Retrieve the stored fingerprint for a specific device, if any.
pub fn get_fingerprint(ds: &Vec<PeerDevice>, device_id: u32) -> (r: Option<String>)
    requires
        distinct_ids(ds@),
    ensures
        opt_string(r) == device_fingerprint(ds@, device_id),
{
    match find_device(ds, device_id) {
        Some(k) => {
            let ghost c = choose|m: int| 0 <= m < ds@.len() && #[trigger] ds@[m].device_id == device_id;
            assert(c == k) by {
                if c != k {
                    assert(ds@[c].device_id != ds@[k as int].device_id);
                }
            }
            match &ds[k].fingerprint {
                Some(f) => Some(f.clone()),
                None => None,
            }
        },
        None => None,
    }
}


/// Verifying a known device ends blind trust for its peer: afterwards a
/// device is trusted, none is trusted blindly, and new devices start
/// `Undecided`.
pub proof fn lemma_verify_ends_blind_trust(ds: Seq<PeerDevice>, id: u32)
    requires
        has_device(ds, id),
    ensures
        any_trusted(verify_result(ds, id)),
        !any_blind_trust(verify_result(ds, id)),
        initial_trust(verify_result(ds, id)) == TrustState::Undecided,
{
    let k = choose|k: int| 0 <= k < ds.len() && #[trigger] ds[k].device_id == id;
    assert(verify_result(ds, id)[k].trust == TrustState::Trusted);
}

/// Verifying device `id` changes trust only: the verified device becomes
/// `Trusted`, every other blindly trusted device becomes `Undecided`, and
/// every other device (a `Trusted` one among them) keeps its row unchanged.
pub proof fn lemma_verify_changes_only_blind_trust(ds: Seq<PeerDevice>, id: u32)
    ensures
        verify_result(ds, id).len() == ds.len(),
        forall|j: int|
            0 <= j < ds.len() ==> {
                let d = #[trigger] verify_result(ds, id)[j];
                &&& d.device_id == ds[j].device_id
                &&& d._peer_jid == ds[j]._peer_jid
                &&& d._label == ds[j]._label
                &&& d._active == ds[j]._active
                &&& d.fingerprint == ds[j].fingerprint
            },
        forall|j: int|
            0 <= j < ds.len() && ds[j].device_id == id ==> (#[trigger] verify_result(ds, id)[j]).trust
                == TrustState::Trusted,
        forall|j: int|
            0 <= j < ds.len() && ds[j].device_id != id && ds[j].trust == TrustState::BlindTrust
                ==> (#[trigger] verify_result(ds, id)[j]).trust == TrustState::Undecided,
        forall|j: int|
            0 <= j < ds.len() && ds[j].device_id != id && ds[j].trust != TrustState::BlindTrust
                ==> #[trigger] verify_result(ds, id)[j] == ds[j],
{
}

/// Marking a known device `Trusted` makes new devices start `Undecided`.
pub proof fn lemma_trusted_device_ends_blind_trust(ds: Seq<PeerDevice>, id: u32)
    requires
        has_device(ds, id),
    ensures
        any_trusted(set_trust_result(ds, id, TrustState::Trusted)),
        initial_trust(set_trust_result(ds, id, TrustState::Trusted)) == TrustState::Undecided,
{
    let k = choose|k: int| 0 <= k < ds.len() && #[trigger] ds[k].device_id == id;
    assert(set_trust_result(ds, id, TrustState::Trusted)[k].trust == TrustState::Trusted);
}

/// Upserting a device as `Trusted` makes new devices start `Undecided`.
pub proof fn lemma_trusted_upsert_ends_blind_trust(
    old: Seq<PeerDevice>,
    new: Seq<PeerDevice>,
    peer: Seq<char>,
    id: u32,
    label: Option<Seq<char>>,
    active: bool,
)
    requires
        upsert_post(old, new, peer, id, TrustState::Trusted, label, active),
    ensures
        any_trusted(new),
        initial_trust(new) == TrustState::Undecided,
{
    if has_device(old, id) {
        let k = choose|k: int| 0 <= k < old.len() && #[trigger] old[k].device_id == id;
        assert(row_is(new[k], old[k]._peer_jid@, id, TrustState::Trusted, label, active, opt_string(old[k].fingerprint)));
    } else {
        assert(new[new.len() - 1].trust == TrustState::Trusted);
    }
}

proof fn lemma_new_ids_contains(ids: Seq<u32>, ds: Seq<PeerDevice>, x: u32)
    ensures
        new_ids(ids, ds).contains(x) <==> (ids.contains(x) && !has_device(ds, x)),
    decreases ids.len(),
{
    if ids.len() > 0 {
        let p = new_ids(ids.drop_last(), ds);
        lemma_new_ids_contains(ids.drop_last(), ds, x);
        assert(ids.contains(x) <==> (ids.drop_last().contains(x) || ids.last() == x)) by {
            if ids.contains(x) {
                let m = choose|m: int| 0 <= m < ids.len() && #[trigger] ids[m] == x;
                if m < ids.len() - 1 {
                    assert(ids.drop_last()[m] == x);
                }
            }
            if ids.drop_last().contains(x) {
                let m = choose|m: int| 0 <= m < ids.len() - 1 && #[trigger] ids.drop_last()[m] == x;
                assert(ids[m] == x);
            }
            if ids.last() == x {
                assert(ids[ids.len() - 1] == x);
            }
        }
        if !(has_device(ds, ids.last()) || p.contains(ids.last())) {
            assert(p.push(ids.last()).contains(x) <==> (p.contains(x) || ids.last() == x)) by {
                if p.push(ids.last()).contains(x) {
                    let m = choose|m: int| 0 <= m < p.len() + 1 && #[trigger] p.push(ids.last())[m] == x;
                    if m < p.len() {
                        assert(p[m] == x);
                    }
                }
                if p.contains(x) {
                    let m = choose|m: int| 0 <= m < p.len() && #[trigger] p[m] == x;
                    assert(p.push(ids.last())[m] == x);
                }
                if ids.last() == x {
                    assert(p.push(ids.last())[p.len() as int] == x);
                }
            }
        }
    }
}

/// A fresh device list never changes a trust decision: known devices keep
/// their trust, new devices get the BTBV default (never `Trusted`), so
/// whether a device was verified, and the trust new devices get, stay the
/// same. Afterwards exactly the listed devices are active.
pub proof fn lemma_sync_keeps_trust(
    old: Seq<PeerDevice>,
    new: Seq<PeerDevice>,
    peer: Seq<char>,
    ids: Seq<u32>,
)
    requires
        sync_post(old, new, peer, ids),
    ensures
        forall|k: int| 0 <= k < old.len() ==> #[trigger] new[k].trust == old[k].trust,
        forall|k: int| old.len() <= k < new.len() ==> #[trigger] new[k].trust == initial_trust(old),
        any_trusted(new) == any_trusted(old),
        initial_trust(new) == initial_trust(old),
        forall|k: int| 0 <= k < new.len() ==> (#[trigger] new[k]._active <==> ids.contains(new[k].device_id)),
        forall|x: u32| ids.contains(x) ==> has_device(new, x),
{
    let fresh = new_ids(ids, old);
    assert forall|k: int| old.len() <= k < new.len() implies #[trigger] new[k].trust == initial_trust(old) by {
        assert(row_is(new[old.len() + (k - old.len())], peer, fresh[k - old.len()], initial_trust(old), None, true, None));
    }
    if any_trusted(old) {
        let k = choose|k: int| 0 <= k < old.len() && #[trigger] old[k].trust == TrustState::Trusted;
        assert(new[k] == with_active(old[k], ids.contains(old[k].device_id)));
        assert(new[k].trust == TrustState::Trusted);
    }
    if any_trusted(new) {
        let k = choose|k: int| 0 <= k < new.len() && #[trigger] new[k].trust == TrustState::Trusted;
        if k < old.len() {
            assert(new[k] == with_active(old[k], ids.contains(old[k].device_id)));
            assert(old[k].trust == TrustState::Trusted);
        } else {
            assert(new[k].trust == initial_trust(old));
        }
    }
    assert forall|k: int| 0 <= k < new.len() implies (#[trigger] new[k]._active <==> ids.contains(
        new[k].device_id,
    )) by {
        if k < old.len() {
            assert(new[k] == with_active(old[k], ids.contains(old[k].device_id)));
        } else {
            let q = k - old.len();
            assert(row_is(new[old.len() + q], peer, fresh[q], initial_trust(old), None, true, None));
            assert(fresh.contains(fresh[q]));
            lemma_new_ids_contains(ids, old, fresh[q]);
        }
    }
    assert forall|x: u32| ids.contains(x) implies has_device(new, x) by {
        if has_device(old, x) {
            let k = choose|k: int| 0 <= k < old.len() && #[trigger] old[k].device_id == x;
            assert(new[k] == with_active(old[k], ids.contains(old[k].device_id)));
            assert(new[k].device_id == x);
        } else {
            lemma_new_ids_contains(ids, old, x);
            let q = choose|q: int| 0 <= q < fresh.len() && #[trigger] fresh[q] == x;
            assert(row_is(new[old.len() + q], peer, fresh[q], initial_trust(old), None, true, None));
            assert(new[old.len() + q].device_id == x);
        }
    }
}

/// Reading a fingerprint after saving it for a known device gives it back.
pub proof fn lemma_fingerprint_read_after_write(
    old: Seq<PeerDevice>,
    new: Seq<PeerDevice>,
    id: u32,
    fp: Seq<char>,
)
    requires
        distinct_ids(old),
        has_device(old, id),
        save_fingerprint_post(old, new, id, fp),
    ensures
        device_fingerprint(new, id) == Some(fp),
{
    let k = choose|k: int| 0 <= k < old.len() && #[trigger] old[k].device_id == id;
    assert(new[k] == with_fingerprint(old[k], new[k].fingerprint));
    assert(new[k].device_id == id);
    let c = choose|m: int| 0 <= m < new.len() && #[trigger] new[m].device_id == id;
    if c != k {
        if old[c].device_id == id {
            assert(old[c].device_id != old[k].device_id);
        } else {
            assert(new[c] == old[c]);
        }
    }
}

} // verus!

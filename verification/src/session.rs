//! The session directory: from what the adapter read of an output endpoint to
//! the list of session records.
//!
//! Reading is defensive. An endpoint that could not be reached lists nothing, and
//! a session that could not be fetched, or that refuses one of its two surfaces,
//! is left out while the others are listed.

use crate::icon::{encoded_icon, icon_to_base64, text_of, IconSource};
use crate::identity::{display_name, display_name_of};
use crate::volume::{Volume, ZERO_BITS};
use vstd::prelude::*;

verus! {

/// One entry of the session list.
#[derive(Clone, Debug, PartialEq, Eq)]
pub struct AudioSession {
    /// The owning process, or zero for the system session.
    pub pid: u32,
    /// The display name of the owning process.
    pub name: String,
    /// The session's gain.
    pub volume: Volume,
    /// Whether the session is muted.
    pub muted: bool,
    /// The icon of the owning process as a base64 PNG, where there is one.
    pub icon_base64: Option<String>,
}

/// What a session record holds, with its texts as sequences of characters.
pub struct AudioSessionView {
    pub pid: u32,
    pub name: Seq<char>,
    pub volume: Volume,
    pub muted: bool,
    pub icon_base64: Option<Seq<char>>,
}

impl View for AudioSession {
    type V = AudioSessionView;

    open spec fn view(&self) -> AudioSessionView {
        AudioSessionView {
            pid: self.pid,
            name: self.name@,
            volume: self.volume,
            muted: self.muted,
            icon_base64: text_of(self.icon_base64),
        }
    }
}

/// The executable behind a session.
#[derive(Clone, Debug, PartialEq, Eq)]
pub struct ProcessImage {
    /// The full path of the executable.
    pub path: String,
    /// What the shell gave as the executable's icon.
    pub icon: IconSource,
}

/// What the adapter learnt of the process that owns a session.
#[derive(Clone, Debug, PartialEq, Eq)]
pub enum ProcessProbe {
    /// The process could not be opened, or its path could not be queried.
    Unresolved,
    /// The process was opened and its path was read.
    Resolved(ProcessImage),
}

/// The state that a session's volume surface reported; `None` for a value whose
/// read failed.
#[derive(Clone, Debug, PartialEq, Eq)]
pub struct Controls {
    pub level: Option<Volume>,
    pub muted: Option<bool>,
}

/// One of the two capability surfaces of a session: granted with what was read
/// through it, or refused with the system's message.
#[derive(Clone, Debug, PartialEq, Eq)]
pub enum Surface<T> {
    Refused(String),
    Granted(T),
}

/// What the adapter read of one session.
#[derive(Clone, Debug, PartialEq, Eq)]
pub struct SessionProbe {
    /// The identity surface with the owning process id, `None` where the id could
    /// not be read.
    pub identity: Surface<Option<u32>>,
    /// The volume surface.
    pub controls: Surface<Controls>,
    /// The owning process. It is looked at only where the session has an owner.
    pub process: ProcessProbe,
}

/// What the adapter read of the default render endpoint.
#[derive(Clone, Debug, PartialEq, Eq)]
pub enum Endpoint {
    /// The device enumerator, the device, its session manager or the session
    /// enumerator could not be had; the text is the system's message.
    Unavailable(String),
    /// The sessions in the order of enumeration; `None` for a session that could
    /// not be fetched.
    Sessions(Vec<Option<SessionProbe>>),
}

impl Endpoint {
    /// The sessions of the endpoint; none for an endpoint that is unavailable.
    pub open spec fn slots(self) -> Seq<Option<SessionProbe>> {
        match self {
            Endpoint::Unavailable(_) => Seq::empty(),
            Endpoint::Sessions(slots) => slots@,
        }
    }
}

/// The name of a session without an owning process.
pub open spec fn system_name() -> Seq<char> {
    "System"@
}

/// The process id of a session: the one read, or zero where the read failed.
pub open spec fn owner_of(read: Option<u32>) -> u32 {
    match read {
        Some(pid) => pid,
        None => 0,
    }
}

/// The gain of a session: the one read, or zero where the read failed.
pub open spec fn level_of(read: Option<Volume>) -> Volume {
    match read {
        Some(level) => level,
        None => Volume { bits: ZERO_BITS },
    }
}

/// The mute state of a session: the one read, or unmuted where the read failed.
pub open spec fn muted_of(read: Option<bool>) -> bool {
    match read {
        Some(muted) => muted,
        None => false,
    }
}

/// The session is listed: it was fetched and grants both surfaces.
pub open spec fn is_listed(slot: Option<SessionProbe>) -> bool {
    slot matches Some(probe) && probe.identity is Granted && probe.controls is Granted
}

/// The record of a listed session. A session with an owner whose process was
/// resolved carries the name and icon of its executable; every other session is
/// named as the system session and has no icon.
pub open spec fn record_of(probe: SessionProbe) -> AudioSessionView {
    let pid = owner_of(probe.identity->Granted_0);
    let controls = probe.controls->Granted_0;
    AudioSessionView {
        pid,
        name: if pid > 0 && probe.process is Resolved {
            display_name_of(probe.process->Resolved_0.path@)
        } else {
            system_name()
        },
        volume: level_of(controls.level),
        muted: muted_of(controls.muted),
        icon_base64: if pid > 0 && probe.process is Resolved {
            encoded_icon(probe.process->Resolved_0.icon)
        } else {
            None
        },
    }
}

/// The records of the listed sessions among those given, in their order.
pub open spec fn listing(slots: Seq<Option<SessionProbe>>) -> Seq<AudioSessionView>
    decreases slots.len(),
{
    if slots.len() == 0 {
        Seq::empty()
    } else if is_listed(slots.last()) {
        listing(slots.drop_last()).push(record_of(slots.last()->0))
    } else {
        listing(slots.drop_last())
    }
}

/// The session list of an endpoint.
pub open spec fn directory(endpoint: Endpoint) -> Seq<AudioSessionView> {
    listing(endpoint.slots())
}

/// The views of a list of records.
pub open spec fn views(records: Seq<AudioSession>) -> Seq<AudioSessionView> {
    records.map_values(|record: AudioSession| record@)
}

/// The process id that a session is listed and looked up under.
pub fn owner_or_system(read: Option<u32>) -> (pid: u32)
    ensures
        pid == owner_of(read),
{
    match read {
        Some(pid) => pid,
        None => 0,
    }
}

/// Whether a session with this process id has an owning process whose identity
/// is to be resolved.
pub fn has_owner(pid: u32) -> (owned: bool)
    ensures
        owned == (pid > 0),
{
    pid > 0
}

/// The record of one session, or `None` for a session that refuses a surface.
pub fn session_record(probe: &SessionProbe) -> (record: Option<AudioSession>)
    ensures
        match record {
            Some(r) => is_listed(Some(*probe)) && r@ == record_of(*probe),
            None => !is_listed(Some(*probe)),
        },
{
    let pid: u32 = match &probe.identity {
        Surface::Granted(read) => owner_or_system(*read),
        Surface::Refused(_) => {
            return None;
        },
    };
    let controls = match &probe.controls {
        Surface::Granted(controls) => controls,
        Surface::Refused(_) => {
            return None;
        },
    };
    let volume = match controls.level {
        Some(level) => level,
        None => Volume::silent(),
    };
    let muted = match controls.muted {
        Some(muted) => muted,
        None => false,
    };
    let mut name = "System".to_owned();
    let mut icon_base64: Option<String> = None;
    if has_owner(pid) {
        match &probe.process {
            ProcessProbe::Resolved(image) => {
                name = display_name(image.path.as_str());
                icon_base64 = icon_to_base64(&image.icon);
            },
            ProcessProbe::Unresolved => {},
        }
    }
    Some(AudioSession { pid, name, volume, muted, icon_base64 })
}

/// Every record of a listing is the record of a listed session.
pub proof fn lemma_listing_source(slots: Seq<Option<SessionProbe>>, k: int) -> (j: int)
    requires
        0 <= k < listing(slots).len(),
    ensures
        0 <= j < slots.len(),
        is_listed(slots[j]),
        listing(slots)[k] == record_of(slots[j]->0),
    decreases slots.len(),
{
    let front = slots.drop_last();
    if is_listed(slots.last()) && k == listing(front).len() {
        slots.len() - 1
    } else {
        lemma_listing_source(front, k)
    }
}

/// Lists the sessions of an endpoint. The call cannot fail: an endpoint that is
/// unavailable has an empty list.
pub fn get_audio_sessions(endpoint: &Endpoint) -> (sessions: Vec<AudioSession>)
    ensures
        views(sessions@) == directory(*endpoint),
        *endpoint is Unavailable ==> sessions@.len() == 0,
        forall|k: int|
            0 <= k < sessions@.len() && sessions@[k].pid == 0 ==> sessions@[k].name@
                == system_name() && sessions@[k].icon_base64 is None,
{
    let mut sessions: Vec<AudioSession> = Vec::new();
    match endpoint {
        Endpoint::Unavailable(_) => {
            assert(views(sessions@) =~= directory(*endpoint));
        },
        Endpoint::Sessions(slots) => {
            let mut at: usize = 0;
            assert(views(sessions@) =~= listing(slots@.take(0)));
            while at < slots.len()
                invariant
                    at <= slots.len(),
                    views(sessions@) == listing(slots@.take(at as int)),
                decreases slots.len() - at,
            {
                assert(slots@.take(at + 1).drop_last() == slots@.take(at as int));
                match &slots[at] {
                    Some(probe) => {
                        match session_record(probe) {
                            Some(record) => {
                                let ghost before = sessions@;
                                sessions.push(record);
                                assert(views(sessions@) =~= views(before).push(record@));
                            },
                            None => {},
                        }
                    },
                    None => {},
                }
                at = at + 1;
            }
            assert(slots@.take(at as int) == slots@);
        },
    }
    assert forall|k: int| 0 <= k < sessions@.len() && sessions@[k].pid == 0 implies sessions@[k].name@
        == system_name() && sessions@[k].icon_base64 is None by {
        assert(views(sessions@)[k] == sessions@[k]@);
        lemma_listing_source(endpoint.slots(), k);
    }
    sessions
}

/// The number of sessions to fetch for a count as it was read: none where the
/// read failed or the count is negative.
pub fn sessions_to_fetch(count: Option<i32>) -> (n: i32)
    ensures
        n == match count {
            Some(c) => if c > 0 {
                c
            } else {
                0
            },
            None => 0,
        },
{
    match count {
        Some(c) => if c > 0 {
            c
        } else {
            0
        },
        None => 0,
    }
}

/// The place of a session's record in the listing: the number of listed
/// sessions before it.
pub open spec fn place_of(slots: Seq<Option<SessionProbe>>, at: int) -> int {
    listing(slots.take(at)).len() as int
}

/// The listing of the first `n` sessions is the beginning of the listing of all.
pub proof fn lemma_listing_prefix(slots: Seq<Option<SessionProbe>>, n: int)
    requires
        0 <= n <= slots.len(),
    ensures
        listing(slots.take(n)).len() <= listing(slots).len(),
        forall|k: int|
            0 <= k < listing(slots.take(n)).len() ==> listing(slots.take(n))[k] == listing(
                slots,
            )[k],
    decreases slots.len(),
{
    if n == slots.len() {
        assert(slots.take(n) == slots);
    } else {
        let front = slots.drop_last();
        assert(front.take(n) == slots.take(n));
        lemma_listing_prefix(front, n);
    }
}

/// No listed session is lost: its record stands in the listing, at its place.
pub proof fn lemma_listing_place(slots: Seq<Option<SessionProbe>>, at: int)
    requires
        0 <= at < slots.len(),
        is_listed(slots[at]),
    ensures
        0 <= place_of(slots, at) < listing(slots).len(),
        listing(slots)[place_of(slots, at)] == record_of(slots[at]->0),
{
    let upto = slots.take(at + 1);
    assert(upto.drop_last() == slots.take(at));
    assert(upto.last() == slots[at]);
    lemma_listing_prefix(slots, at + 1);
    assert(listing(upto)[place_of(slots, at)] == record_of(slots[at]->0));
}

/// The listing keeps the order of enumeration: of two listed sessions, the one
/// enumerated first has the earlier place.
pub proof fn lemma_listing_order(slots: Seq<Option<SessionProbe>>, first: int, second: int)
    requires
        0 <= first < second < slots.len(),
        is_listed(slots[first]),
    ensures
        place_of(slots, first) < place_of(slots, second),
{
    let before = slots.take(second);
    assert(before.take(first + 1) == slots.take(first + 1));
    assert(slots.take(first + 1).drop_last() == slots.take(first));
    assert(slots.take(first + 1).last() == slots[first]);
    lemma_listing_prefix(before, first + 1);
}

/// Replacing a listed session by a listed session replaces its record, at its
/// place, and leaves every other record as it is.
pub proof fn lemma_listing_update(
    slots: Seq<Option<SessionProbe>>,
    at: int,
    slot: Option<SessionProbe>,
)
    requires
        0 <= at < slots.len(),
        is_listed(slots[at]),
        is_listed(slot),
    ensures
        0 <= place_of(slots, at) < listing(slots).len(),
        listing(slots)[place_of(slots, at)] == record_of(slots[at]->0),
        listing(slots.update(at, slot)) == listing(slots).update(
            place_of(slots, at),
            record_of(slot->0),
        ),
    decreases slots.len(),
{
    let front = slots.drop_last();
    let changed = slots.update(at, slot);
    if at == slots.len() - 1 {
        assert(slots.take(at) == front);
        assert(changed.drop_last() == front);
        assert(listing(changed) =~= listing(slots).update(place_of(slots, at), record_of(slot->0)));
    } else {
        assert(front.take(at) == slots.take(at));
        assert(changed.drop_last() == front.update(at, slot));
        lemma_listing_update(front, at, slot);
        assert(listing(changed) =~= listing(slots).update(place_of(slots, at), record_of(slot->0)));
    }
}

/// Read values are handed on as they are: where every gain that was read lies
/// in the unit range, so does every gain in the listing. A gain that could not
/// be read is listed as zero.
pub proof fn lemma_listed_levels_in_unit_range(slots: Seq<Option<SessionProbe>>)
    requires
        forall|j: int|
            0 <= j < slots.len() && is_listed(#[trigger] slots[j]) ==> (
            slots[j]->0.controls->Granted_0.level matches Some(level) ==> level.in_unit_range()),
    ensures
        forall|k: int|
            0 <= k < listing(slots).len() ==> (#[trigger] listing(slots)[k]).volume.in_unit_range(),
{
    assert forall|k: int| 0 <= k < listing(slots).len() implies (#[trigger] listing(
        slots,
    )[k]).volume.in_unit_range() by {
        lemma_listing_source(slots, k);
    }
}

/// Two reads found the same of a session: it was fetched both times or neither
/// time, and its surfaces granted the same values or were refused both times.
pub open spec fn same_reading(first: Option<SessionProbe>, second: Option<SessionProbe>) -> bool {
    match (first, second) {
        (None, None) => true,
        (Some(a), Some(b)) => {
            &&& (a.identity is Granted) == (b.identity is Granted)
            &&& a.identity is Granted ==> a.identity->Granted_0 == b.identity->Granted_0
            &&& (a.controls is Granted) == (b.controls is Granted)
            &&& a.controls is Granted ==> a.controls->Granted_0 == b.controls->Granted_0
        },
        _ => false,
    }
}

/// Two reads found the same icon: the same bitmap, or no bitmap both times.
pub open spec fn same_icon(first: IconSource, second: IconSource) -> bool {
    match (first, second) {
        (IconSource::Bitmap(a), IconSource::Bitmap(b)) => {
            &&& a.width == b.width
            &&& a.height == b.height
            &&& a.rows_copied == b.rows_copied
            &&& a.pixels@ == b.pixels@
        },
        (IconSource::Bitmap(_), _) => false,
        (_, IconSource::Bitmap(_)) => false,
        _ => true,
    }
}

/// Two reads found the same of the process behind a session.
pub open spec fn same_process(first: Option<SessionProbe>, second: Option<SessionProbe>) -> bool {
    match (first, second) {
        (Some(a), Some(b)) => match (a.process, b.process) {
            (ProcessProbe::Unresolved, ProcessProbe::Unresolved) => true,
            (ProcessProbe::Resolved(x), ProcessProbe::Resolved(y)) => x.path@ == y.path@
                && same_icon(x.icon, y.icon),
            _ => false,
        },
        _ => true,
    }
}

/// Listing is repeatable: two reads that found the same of every session give
/// listings of one length that agree, record by record, on process id, gain and
/// mute state; where the reads also found the same of every process, the
/// listings are equal.
pub proof fn lemma_listing_repeats(
    first: Seq<Option<SessionProbe>>,
    second: Seq<Option<SessionProbe>>,
)
    requires
        first.len() == second.len(),
        forall|j: int| 0 <= j < first.len() ==> same_reading(#[trigger] first[j], second[j]),
    ensures
        listing(first).len() == listing(second).len(),
        forall|k: int|
            0 <= k < listing(first).len() ==> {
                &&& (#[trigger] listing(first)[k]).pid == listing(second)[k].pid
                &&& listing(first)[k].volume == listing(second)[k].volume
                &&& listing(first)[k].muted == listing(second)[k].muted
            },
        (forall|j: int| 0 <= j < first.len() ==> same_process(#[trigger] first[j], second[j]))
            ==> listing(first) == listing(second),
    decreases first.len(),
{
    if first.len() > 0 {
        let a = first.drop_last();
        let b = second.drop_last();
        assert(same_reading(first[first.len() - 1], second[first.len() - 1]));
        assert forall|j: int| 0 <= j < a.len() implies same_reading(#[trigger] a[j], b[j]) by {
            assert(same_reading(first[j], second[j]));
        }
        lemma_listing_repeats(a, b);
        if forall|j: int| 0 <= j < first.len() ==> same_process(#[trigger] first[j], second[j]) {
            assert(same_process(first[first.len() - 1], second[first.len() - 1]));
            assert forall|j: int| 0 <= j < a.len() implies same_process(#[trigger] a[j], b[j]) by {
                assert(same_process(first[j], second[j]));
            }
            assert(listing(first) =~= listing(second));
        }
    }
}

} // verus!

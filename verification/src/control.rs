//! Session control: which session a volume or mute change goes to, and what is
//! written to it.
//!
//! Writing fails loudly. An endpoint that is unavailable, a session that refuses
//! a surface on the way to the target, and a process id without a session each
//! give an error, and nothing is changed.

use crate::session::{
    directory, lemma_listing_update, owner_of, owner_or_system, place_of, AudioSessionView,
    Controls, Endpoint, SessionProbe, Surface,
};
use crate::volume::Volume;
use vstd::prelude::*;

verus! {

/// Why a change was not made.
#[derive(Clone, Debug, PartialEq, Eq)]
pub enum ControlError {
    /// No session belongs to the process id.
    NotFound,
    /// The system refused a step; the text is its message.
    Os(String),
}

impl ControlError {
    /// The text handed to the caller.
    pub open spec fn text(self) -> Seq<char> {
        match self {
            ControlError::NotFound => "Session nicht gefunden"@,
            ControlError::Os(message) => message@,
        }
    }

    /// The text handed to the caller.
    pub fn message(&self) -> (text: String)
        ensures
            text@ == self.text(),
    {
        match self {
            ControlError::NotFound => "Session nicht gefunden".to_owned(),
            ControlError::Os(message) => message.clone(),
        }
    }

    /// Whether the error says that no session belongs to the process id.
    pub fn is_not_found(&self) -> (b: bool)
        ensures
            b == (*self is NotFound),
    {
        match self {
            ControlError::NotFound => true,
            ControlError::Os(_) => false,
        }
    }
}

/// The gain to write to a session.
#[derive(Clone, Debug, PartialEq, Eq)]
pub struct VolumeWrite {
    /// The position of the session in the enumeration.
    pub session: usize,
    /// The gain, brought into the unit range.
    pub level: Volume,
}

/// The mute state to write to a session.
#[derive(Clone, Debug, PartialEq, Eq)]
pub struct MuteWrite {
    /// The position of the session in the enumeration.
    pub session: usize,
    /// The mute state.
    pub muted: bool,
}

/// The search goes past the session: it could not be fetched, or it belongs to
/// another process.
pub open spec fn passes(slot: Option<SessionProbe>, pid: u32) -> bool {
    match slot {
        None => true,
        Some(probe) => probe.identity matches Surface::Granted(read) && owner_of(read) != pid,
    }
}

/// The session belongs to the process.
pub open spec fn answers(slot: Option<SessionProbe>, pid: u32) -> bool {
    slot matches Some(probe) && probe.identity matches Surface::Granted(read) && owner_of(read)
        == pid
}

/// The search passes every session from position `from` on.
pub open spec fn passes_from(slots: Seq<Option<SessionProbe>>, pid: u32, from: int) -> bool {
    forall|j: int| from <= j < slots.len() ==> passes(#[trigger] slots[j], pid)
}

/// No session belongs to the process, and none refuses its identity surface.
pub open spec fn passes_all(slots: Seq<Option<SessionProbe>>, pid: u32) -> bool {
    passes_from(slots, pid, 0)
}

/// Where the search from position `from` ends: at the first session that
/// belongs to the process, or with the message of the first session before it
/// that refuses its identity surface, or with `NotFound`.
pub open spec fn search(slots: Seq<Option<SessionProbe>>, pid: u32, from: int) -> Result<
    int,
    ControlError,
>
    decreases slots.len() - from,
{
    if from < 0 || from >= slots.len() {
        Err(ControlError::NotFound)
    } else {
        match slots[from] {
            None => search(slots, pid, from + 1),
            Some(probe) => match probe.identity {
                Surface::Refused(message) => Err(ControlError::Os(message)),
                Surface::Granted(read) => if owner_of(read) == pid {
                    Ok(from)
                } else {
                    search(slots, pid, from + 1)
                },
            },
        }
    }
}

/// The session that a change for the process goes to, or the error that the
/// caller gets. The target is the first session of the process; it has to grant
/// its volume surface.
pub open spec fn target(endpoint: Endpoint, pid: u32) -> Result<int, ControlError> {
    match endpoint {
        Endpoint::Unavailable(message) => Err(ControlError::Os(message)),
        Endpoint::Sessions(slots) => match search(slots@, pid, 0) {
            Err(error) => Err(error),
            Ok(at) => match slots@[at]->0.controls {
                Surface::Refused(message) => Err(ControlError::Os(message)),
                Surface::Granted(_) => Ok(at),
            },
        },
    }
}

/// The session with another gain.
pub open spec fn with_level(slot: Option<SessionProbe>, level: Volume) -> Option<SessionProbe> {
    match slot {
        Some(probe) => match probe.controls {
            Surface::Granted(controls) => Some(
                SessionProbe {
                    controls: Surface::Granted(Controls { level: Some(level), ..controls }),
                    ..probe
                },
            ),
            Surface::Refused(_) => slot,
        },
        None => slot,
    }
}

/// The session with another mute state.
pub open spec fn with_muted(slot: Option<SessionProbe>, muted: bool) -> Option<SessionProbe> {
    match slot {
        Some(probe) => match probe.controls {
            Surface::Granted(controls) => Some(
                SessionProbe {
                    controls: Surface::Granted(Controls { muted: Some(muted), ..controls }),
                    ..probe
                },
            ),
            Surface::Refused(_) => slot,
        },
        None => slot,
    }
}

/// A search that finds a session finds the first one of the process, and every
/// session before it was passed.
pub proof fn lemma_search_found(slots: Seq<Option<SessionProbe>>, pid: u32, from: int, at: int)
    requires
        0 <= from,
        search(slots, pid, from) == Ok::<int, ControlError>(at),
    ensures
        from <= at < slots.len(),
        answers(slots[at], pid),
        forall|j: int| from <= j < at ==> passes(#[trigger] slots[j], pid),
    decreases slots.len() - from,
{
    if from < slots.len() && !answers(slots[from], pid) {
        lemma_search_found(slots, pid, from + 1, at);
    }
}

/// The search ends with `NotFound` exactly where it passes every session.
pub proof fn lemma_search_not_found(slots: Seq<Option<SessionProbe>>, pid: u32, from: int)
    requires
        0 <= from,
    ensures
        search(slots, pid, from) == Err::<int, ControlError>(ControlError::NotFound)
            <==> passes_from(slots, pid, from),
    decreases slots.len() - from,
{
    if from < slots.len() {
        lemma_search_not_found(slots, pid, from + 1);
        assert(passes_from(slots, pid, from) <==> passes(slots[from], pid) && passes_from(
            slots,
            pid,
            from + 1,
        )) by {
            if passes(slots[from], pid) && passes_from(slots, pid, from + 1) {
                assert forall|j: int| from <= j < slots.len() implies passes(
                    #[trigger] slots[j],
                    pid,
                ) by {
                    if j > from {
                        assert(passes(slots[j], pid));
                    }
                }
            }
        }
    }
}

/// What lies behind a session that the search does not pass has no part in the
/// outcome: the target among the sessions up to that one is the target among
/// all.
pub proof fn lemma_search_reads_prefix(
    slots: Seq<Option<SessionProbe>>,
    pid: u32,
    from: int,
    at: int,
)
    requires
        0 <= from <= at < slots.len(),
        !passes(slots[at], pid),
    ensures
        search(slots.take(at + 1), pid, from) == search(slots, pid, from),
    decreases slots.len() - from,
{
    assert(slots.take(at + 1)[from] == slots[from]);
    if passes(slots[from], pid) {
        lemma_search_reads_prefix(slots, pid, from + 1, at);
    }
}

/// Whether the search for the process ends at this session, so that no session
/// behind it has to be read.
pub fn ends_search(slot: &Option<SessionProbe>, pid: u32) -> (ends: bool)
    ensures
        ends == !passes(*slot, pid),
{
    match slot {
        Some(probe) => match &probe.identity {
            Surface::Refused(_) => true,
            Surface::Granted(read) => owner_or_system(*read) == pid,
        },
        None => false,
    }
}

/// Finds the session that a change for the process goes to.
pub fn find_session(endpoint: &Endpoint, pid: u32) -> (found: Result<usize, ControlError>)
    ensures
        match found {
            Ok(at) => target(*endpoint, pid) == Ok::<int, ControlError>(at as int),
            Err(error) => target(*endpoint, pid) == Err::<int, ControlError>(error),
        },
{
    let slots = match endpoint {
        Endpoint::Unavailable(message) => {
            return Err(ControlError::Os(message.clone()));
        },
        Endpoint::Sessions(slots) => slots,
    };
    let mut at: usize = 0;
    while at < slots.len()
        invariant
            *endpoint == Endpoint::Sessions(*slots),
            at <= slots.len(),
            search(slots@, pid, 0) == search(slots@, pid, at as int),
        decreases slots.len() - at,
    {
        match &slots[at] {
            Some(probe) => {
                match &probe.identity {
                    Surface::Refused(message) => {
                        return Err(ControlError::Os(message.clone()));
                    },
                    Surface::Granted(read) => {
                        if owner_or_system(*read) == pid {
                            match &probe.controls {
                                Surface::Refused(message) => {
                                    return Err(ControlError::Os(message.clone()));
                                },
                                Surface::Granted(_) => {
                                    return Ok(at);
                                },
                            }
                        }
                    },
                }
            },
            None => {},
        }
        at = at + 1;
    }
    Err(ControlError::NotFound)
}

/// Sets the gain of the first session of a process. The gain is brought into
/// the unit range before it is stored, also where the request is no number, and
/// the result says which session to write it to.
pub fn set_app_volume(endpoint: &mut Endpoint, pid: u32, volume: Volume) -> (done: Result<
    VolumeWrite,
    ControlError,
>)
    ensures
        match done {
            Ok(write) => {
                &&& target(*old(endpoint), pid) == Ok::<int, ControlError>(write.session as int)
                &&& write.level == volume.clamped()
                &&& write.level.in_unit_range()
                &&& *final(endpoint) is Sessions
                &&& final(endpoint).slots() == old(endpoint).slots().update(
                    write.session as int,
                    with_level(old(endpoint).slots()[write.session as int], volume.clamped()),
                )
            },
            Err(error) => {
                &&& target(*old(endpoint), pid) == Err::<int, ControlError>(error)
                &&& *final(endpoint) == *old(endpoint)
            },
        },
        passes_all(old(endpoint).slots(), pid) && *old(endpoint) is Sessions ==> done == Err::<
            VolumeWrite,
            ControlError,
        >(ControlError::NotFound),
{
    proof {
        lemma_search_not_found(endpoint.slots(), pid, 0);
    }
    let session: usize = match find_session(endpoint, pid) {
        Ok(at) => at,
        Err(error) => {
            return Err(error);
        },
    };
    let level = volume.clamp_unit();
    proof {
        lemma_search_found(endpoint.slots(), pid, 0, session as int);
    }
    match endpoint {
        Endpoint::Sessions(slots) => {
            match &mut slots[session] {
                Some(probe) => {
                    match &mut probe.controls {
                        Surface::Granted(controls) => {
                            controls.level = Some(level);
                        },
                        Surface::Refused(_) => {},
                    }
                },
                None => {},
            }
        },
        Endpoint::Unavailable(_) => {},
    }
    assert(final(endpoint).slots() =~= old(endpoint).slots().update(
        session as int,
        with_level(old(endpoint).slots()[session as int], volume.clamped()),
    ));
    Ok(VolumeWrite { session, level })
}

/// Sets the mute state of the first session of a process. The result says which
/// session to write it to.
pub fn set_app_mute(endpoint: &mut Endpoint, pid: u32, muted: bool) -> (done: Result<
    MuteWrite,
    ControlError,
>)
    ensures
        match done {
            Ok(write) => {
                &&& target(*old(endpoint), pid) == Ok::<int, ControlError>(write.session as int)
                &&& write.muted == muted
                &&& *final(endpoint) is Sessions
                &&& final(endpoint).slots() == old(endpoint).slots().update(
                    write.session as int,
                    with_muted(old(endpoint).slots()[write.session as int], muted),
                )
            },
            Err(error) => {
                &&& target(*old(endpoint), pid) == Err::<int, ControlError>(error)
                &&& *final(endpoint) == *old(endpoint)
            },
        },
        passes_all(old(endpoint).slots(), pid) && *old(endpoint) is Sessions ==> done == Err::<
            MuteWrite,
            ControlError,
        >(ControlError::NotFound),
{
    proof {
        lemma_search_not_found(endpoint.slots(), pid, 0);
    }
    let session: usize = match find_session(endpoint, pid) {
        Ok(at) => at,
        Err(error) => {
            return Err(error);
        },
    };
    proof {
        lemma_search_found(endpoint.slots(), pid, 0, session as int);
    }
    match endpoint {
        Endpoint::Sessions(slots) => {
            match &mut slots[session] {
                Some(probe) => {
                    match &mut probe.controls {
                        Surface::Granted(controls) => {
                            controls.muted = Some(muted);
                        },
                        Surface::Refused(_) => {},
                    }
                },
                None => {},
            }
        },
        Endpoint::Unavailable(_) => {},
    }
    assert(final(endpoint).slots() =~= old(endpoint).slots().update(
        session as int,
        with_muted(old(endpoint).slots()[session as int], muted),
    ));
    Ok(MuteWrite { session, muted })
}

/// A gain that was set is the gain that is listed next: after a change of gain
/// the session list shows the clamped gain for the session written to, which is
/// a session of the process, and every other record is as it was. The gain
/// listed lies in the unit range, whatever was requested.
pub proof fn lemma_volume_reads_back(
    before: Endpoint,
    after: Endpoint,
    pid: u32,
    volume: Volume,
    at: int,
)
    requires
        target(before, pid) == Ok::<int, ControlError>(at),
        after.slots() == before.slots().update(
            at,
            with_level(before.slots()[at], volume.clamped()),
        ),
    ensures
        0 <= place_of(before.slots(), at) < directory(before).len(),
        directory(before)[place_of(before.slots(), at)].pid == pid,
        directory(after) == directory(before).update(
            place_of(before.slots(), at),
            AudioSessionView {
                volume: volume.clamped(),
                ..directory(before)[place_of(before.slots(), at)]
            },
        ),
        directory(after)[place_of(before.slots(), at)].volume.in_unit_range(),
{
    let slots = before.slots();
    lemma_search_found(slots, pid, 0, at);
    let changed = with_level(slots[at], volume.clamped());
    lemma_listing_update(slots, at, changed);
}

/// A mute state that was set is the mute state that is listed next, for the
/// session written to; every other record is as it was.
pub proof fn lemma_mute_reads_back(
    before: Endpoint,
    after: Endpoint,
    pid: u32,
    muted: bool,
    at: int,
)
    requires
        target(before, pid) == Ok::<int, ControlError>(at),
        after.slots() == before.slots().update(at, with_muted(before.slots()[at], muted)),
    ensures
        0 <= place_of(before.slots(), at) < directory(before).len(),
        directory(before)[place_of(before.slots(), at)].pid == pid,
        directory(after) == directory(before).update(
            place_of(before.slots(), at),
            AudioSessionView { muted, ..directory(before)[place_of(before.slots(), at)] },
        ),
{
    let slots = before.slots();
    lemma_search_found(slots, pid, 0, at);
    let changed = with_muted(slots[at], muted);
    lemma_listing_update(slots, at, changed);
}

/// A process without a session has no target: where every session that was
/// fetched grants its identity surface and belongs to another process, the
/// answer is `NotFound`.
pub proof fn lemma_absent_process(endpoint: Endpoint, pid: u32)
    requires
        endpoint is Sessions,
        passes_all(endpoint.slots(), pid),
    ensures
        target(endpoint, pid) == Err::<int, ControlError>(ControlError::NotFound),
{
    lemma_search_not_found(endpoint.slots(), pid, 0);
}

/// Reading may stop at the session where the search ends: an endpoint read up
/// to that session has the target, or the error, of the endpoint read in full.
pub proof fn lemma_target_reads_prefix(full: Endpoint, read: Endpoint, pid: u32, at: int)
    requires
        full is Sessions,
        read is Sessions,
        0 <= at < full.slots().len(),
        !passes(full.slots()[at], pid),
        read.slots() == full.slots().take(at + 1),
    ensures
        target(read, pid) == target(full, pid),
{
    lemma_search_reads_prefix(full.slots(), pid, 0, at);
    if search(full.slots(), pid, 0) is Ok {
        let found = search(full.slots(), pid, 0)->Ok_0;
        lemma_search_found(read.slots(), pid, 0, found);
        assert(read.slots()[found] == full.slots()[found]);
    }
}

} // verus!

use vstd::prelude::*;
use crate::photo::{Coord, Image};

verus! {

/// Where a map session stands in its life.
#[derive(Clone, Copy, Debug, PartialEq, Eq, Structural)]
pub enum SessionState {
    Uninitialized,
    Ready,
    Destroyed,
}

/// A call that the map engine is to make on the session's handle.
#[derive(Debug, PartialEq)]
pub enum MapCommand {
    /// Build the engine's map, allowing zoom up to `max_zoom`.
    Create { max_zoom: u8 },
    /// Center the map on `coord` at zoom level `zoom`.
    SetView { coord: Coord, zoom: u8 },
    /// Draw a circle of `radius` at the photo's coordinate, bound to the photo.
    AddMarker { image: Image, radius: u8 },
    /// Release the engine's map.
    Destroy,
}

/// Why a session refused an operation.
#[derive(Clone, Copy, Debug, PartialEq, Eq, Structural)]
pub enum SessionError {
    /// The operation needs a `Ready` session.
    NotReady,
    /// The session was already created once.
    AlreadyCreated,
}

/// The state after `destroy` from state `p`.
pub open spec fn destroyed_phase(p: SessionState) -> SessionState {
    if p == SessionState::Ready {
        SessionState::Destroyed
    } else {
        p
    }
}

/// Destroying is idempotent: a second `destroy` leaves the state where the
/// first one left it, and that state is never `Ready`, so operations after
/// it are refused.
pub proof fn lemma_destroy_twice(p: SessionState)
    ensures
        destroyed_phase(destroyed_phase(p)) == destroyed_phase(p),
        destroyed_phase(p) != SessionState::Ready,
{
}

/// The one map-engine instance of a mounted map view. It is created once,
/// destroyed at most once, and only a `Ready` session issues engine calls.
pub struct MapSession {
    id: u64,
    state: SessionState,
}

impl MapSession {
    /// The session's identity.
    pub closed spec fn ident(&self) -> u64 {
        self.id
    }

    /// The session's state.
    pub closed spec fn phase(&self) -> SessionState {
        self.state
    }

    /// A session, not yet created, with identity `id`.
    pub fn new(id: u64) -> (r: MapSession)
        ensures
            r.ident() == id,
            r.phase() == SessionState::Uninitialized,
    {
        MapSession { id, state: SessionState::Uninitialized }
    }

    /// The session's identity.
    pub fn id(&self) -> (r: u64)
        ensures
            r == self.ident(),
    {
        self.id
    }

    /// The session's state.
    pub fn state(&self) -> (r: SessionState)
        ensures
            r == self.phase(),
    {
        self.state
    }

    /// Whether the session is `Ready`.
    pub fn is_ready(&self) -> (r: bool)
        ensures
            r == (self.phase() == SessionState::Ready),
    {
        self.state == SessionState::Ready
    }

    /// Creates the engine's map: from `Uninitialized` to `Ready`, with the
    /// one initialization call. A session that was created before refuses.
    pub fn create(&mut self, max_zoom: u8) -> (r: Result<MapCommand, SessionError>)
        ensures
            final(self).ident() == old(self).ident(),
            old(self).phase() == SessionState::Uninitialized ==> r == Ok::<MapCommand, SessionError>(
                MapCommand::Create { max_zoom },
            ) && final(self).phase() == SessionState::Ready,
            old(self).phase() != SessionState::Uninitialized ==> r == Err::<MapCommand, SessionError>(
                SessionError::AlreadyCreated,
            ) && final(self).phase() == old(self).phase(),
    {
        if self.state == SessionState::Uninitialized {
            self.state = SessionState::Ready;
            Ok(MapCommand::Create { max_zoom })
        } else {
            Err(SessionError::AlreadyCreated)
        }
    }

    /// Centers the map; refused outside `Ready`.
    pub fn set_view(&self, coord: Coord, zoom: u8) -> (r: Result<MapCommand, SessionError>)
        ensures
            self.phase() == SessionState::Ready ==> r == Ok::<MapCommand, SessionError>(
                MapCommand::SetView { coord, zoom },
            ),
            self.phase() != SessionState::Ready ==> r == Err::<MapCommand, SessionError>(
                SessionError::NotReady,
            ),
    {
        if self.state == SessionState::Ready {
            Ok(MapCommand::SetView { coord, zoom })
        } else {
            Err(SessionError::NotReady)
        }
    }

    /// Adds a marker for `image`; refused outside `Ready`.
    pub fn add_marker(&self, image: &Image, radius: u8) -> (r: Result<MapCommand, SessionError>)
        ensures
            self.phase() == SessionState::Ready ==> r == Ok::<MapCommand, SessionError>(
                MapCommand::AddMarker { image: *image, radius },
            ),
            self.phase() != SessionState::Ready ==> r == Err::<MapCommand, SessionError>(
                SessionError::NotReady,
            ),
    {
        if self.state == SessionState::Ready {
            Ok(MapCommand::AddMarker { image: image.clone(), radius })
        } else {
            Err(SessionError::NotReady)
        }
    }

    /// Releases the engine's map: from `Ready` to `Destroyed`, with the one
    /// release call. In any other state it does nothing.
    pub fn destroy(&mut self) -> (r: Option<MapCommand>)
        ensures
            final(self).ident() == old(self).ident(),
            final(self).phase() == destroyed_phase(old(self).phase()),
            old(self).phase() == SessionState::Ready ==> r == Some(MapCommand::Destroy)
                && final(self).phase() == SessionState::Destroyed,
            old(self).phase() != SessionState::Ready ==> r is None && final(self).phase()
                == old(self).phase(),
    {
        if self.state == SessionState::Ready {
            self.state = SessionState::Destroyed;
            Some(MapCommand::Destroy)
        } else {
            None
        }
    }
}

} // verus!

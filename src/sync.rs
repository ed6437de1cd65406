use vstd::prelude::*;
use crate::catalog::ImagesResource;
use crate::photo::Image;
use crate::session::{MapCommand, MapSession, SessionState};

verus! {

/// Zoom level of the first centering on the catalog.
pub const CENTER_ZOOM: u8 = 15;

/// Radius of each photo's marker.
pub const MARKER_RADIUS: u8 = 12;

/// Highest zoom level that the map allows.
pub const MAX_ZOOM: u8 = 22;

/// One marker per photo, in catalog order.
pub open spec fn marker_commands(imgs: Seq<Image>) -> Seq<MapCommand> {
    imgs.map_values(|i: Image| MapCommand::AddMarker { image: i, radius: MARKER_RADIUS })
}

/// What a reconciliation issues for a catalog: center on the first photo,
/// then one marker per photo in catalog order; nothing for an empty catalog.
pub open spec fn plan(imgs: Seq<Image>) -> Seq<MapCommand> {
    if imgs.len() == 0 {
        Seq::empty()
    } else {
        seq![MapCommand::SetView { coord: imgs[0].coord, zoom: CENTER_ZOOM }] + marker_commands(imgs)
    }
}

/// The pair of identities that a reconciliation is due for: the catalog's
/// and the session's, when a catalog has landed and the session is `Ready`.
pub open spec fn ready_pair(catalog: &ImagesResource, session: &MapSession) -> Option<(u64, u64)> {
    match catalog.identity() {
        Some(c) => if session.phase() == SessionState::Ready {
            Some((c, session.ident()))
        } else {
            None
        },
        None => None,
    }
}

/// Joins the catalog and the map session: once both are there, it centers
/// the map and plots the markers, once for each pair of identities.
pub struct SyncController {
    done: Option<(u64, u64)>,
}

impl SyncController {
    /// The pair of identities of the last reconciliation that issued
    /// commands, if any.
    pub closed spec fn last_run(&self) -> Option<(u64, u64)> {
        self.done
    }

    /// A controller that has reconciled nothing yet.
    pub fn new() -> (r: SyncController)
        ensures
            r.last_run() is None,
    {
        SyncController { done: None }
    }

    /// Re-evaluates the two inputs. When a catalog has landed, the session
    /// is `Ready`, and this pair of identities has not been reconciled yet,
    /// returns the commands of `plan` for the catalog and records the pair;
    /// otherwise returns no command and changes nothing.
    pub fn reconcile(&mut self, catalog: &ImagesResource, session: &MapSession) -> (r: Vec<MapCommand>)
        ensures
            ready_pair(catalog, session) is Some && ready_pair(catalog, session) != old(self).last_run()
                ==> r@ == plan(catalog.images()) && final(self).last_run() == ready_pair(catalog, session),
            ready_pair(catalog, session) is None || ready_pair(catalog, session) == old(self).last_run()
                ==> r@.len() == 0 && final(self).last_run() == old(self).last_run(),
    {
        let mut cmds: Vec<MapCommand> = Vec::new();
        let cid = match catalog.identity_token() {
            Some(c) => c,
            None => {
                return cmds;
            },
        };
        if !session.is_ready() {
            return cmds;
        }
        let pair = (cid, session.id());
        let same = match self.done {
            Some((c, s)) => c == pair.0 && s == pair.1,
            None => false,
        };
        if same {
            return cmds;
        }
        let imgs = match catalog.current() {
            Some(v) => v,
            None => {
                return cmds;
            },
        };
        if imgs.len() > 0 {
            match session.set_view(imgs[0].coord, CENTER_ZOOM) {
                Ok(c) => cmds.push(c),
                Err(_) => {},
            }
        }
        let ghost head: Seq<MapCommand> = cmds@;
        let mut i: usize = 0;
        while i < imgs.len()
            invariant
                session.phase() == SessionState::Ready,
                i <= imgs@.len(),
                cmds@ == head + marker_commands(imgs@.subrange(0, i as int)),
            decreases imgs@.len() - i,
        {
            match session.add_marker(&imgs[i], MARKER_RADIUS) {
                Ok(c) => cmds.push(c),
                Err(_) => {},
            }
            proof {
                assert(marker_commands(imgs@.subrange(0, i + 1)) =~= marker_commands(
                    imgs@.subrange(0, i as int),
                ).push(MapCommand::AddMarker { image: imgs@[i as int], radius: MARKER_RADIUS }));
                assert(cmds@ =~= head + marker_commands(imgs@.subrange(0, i + 1)));
            }
            i = i + 1;
        }
        proof {
            assert(imgs@.subrange(0, imgs@.len() as int) =~= imgs@);
            assert(cmds@ =~= plan(catalog.images()));
        }
        self.done = Some(pair);
        cmds
    }
}

/// Tears the map view down: cancels the catalog request in flight and
/// destroys the session. Returns whether a request was aborted, and the
/// release call if the session was `Ready`.
pub fn tear_down(catalog: &mut ImagesResource, session: &mut MapSession) -> (r: (bool, Option<MapCommand>))
    requires
        old(catalog).wf(),
    ensures
        final(catalog).wf(),
        r.0 == old(catalog).pending() is Some,
        final(catalog).pending() is None,
        final(catalog).is_torn_down(),
        final(catalog).identity() == old(catalog).identity(),
        final(catalog).images() == old(catalog).images(),
        final(catalog).fresh_token() == old(catalog).fresh_token(),
        final(session).ident() == old(session).ident(),
        old(session).phase() == SessionState::Ready ==> r.1 == Some(MapCommand::Destroy)
            && final(session).phase() == SessionState::Destroyed,
        old(session).phase() != SessionState::Ready ==> r.1 is None && final(session).phase()
            == old(session).phase(),
{
    let aborted = catalog.cancel();
    let released = session.destroy();
    (aborted, released)
}

} // verus!

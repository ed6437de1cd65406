use cats_of_asia::catalog::{FetchOutcome, ImagesResource};
use cats_of_asia::photo::{Coord, Image};
use cats_of_asia::session::{MapCommand, MapSession, SessionState};
use cats_of_asia::sync::{tear_down, SyncController, CENTER_ZOOM, MARKER_RADIUS, MAX_ZOOM};

fn photo(id: usize, lat_e7: i32, lon_e7: i32) -> Image {
    Image {
        id,
        url_large: "l".to_string(),
        url_medium: "m".to_string(),
        url_small: "s".to_string(),
        sha256: format!("h{id}"),
        timestamp: "t".to_string(),
        coord: Coord { lat_e7, lon_e7 },
        city: String::new(),
        country: "Bhutan".to_string(),
    }
}

const DEG: i32 = 10_000_000;

fn count_set_view(cmds: &[MapCommand]) -> usize {
    cmds.iter().filter(|c| matches!(c, MapCommand::SetView { .. })).count()
}

#[test]
fn catalog_first_then_session_reconciles_once() {
    let first = photo(0, DEG, 2 * DEG);
    let second = photo(1, 3 * DEG, 4 * DEG);
    let mut catalog = ImagesResource::new();
    let mut session = MapSession::new(1);
    let mut ctl = SyncController::new();

    let t = catalog.start();
    assert!(ctl.reconcile(&catalog, &session).is_empty());
    assert!(catalog.resolve(t, FetchOutcome::Responded { status: 200, images: Some(vec![first.clone(), second.clone()]) }));
    assert!(ctl.reconcile(&catalog, &session).is_empty());

    session.create(MAX_ZOOM).unwrap();
    let cmds = ctl.reconcile(&catalog, &session);
    assert_eq!(
        cmds,
        vec![
            MapCommand::SetView { coord: Coord { lat_e7: DEG, lon_e7: 2 * DEG }, zoom: 15 },
            MapCommand::AddMarker { image: first.clone(), radius: MARKER_RADIUS },
            MapCommand::AddMarker { image: second.clone(), radius: MARKER_RADIUS },
        ]
    );
    assert_eq!(count_set_view(&cmds), 1);
    assert_eq!(CENTER_ZOOM, 15);
    assert_eq!(MARKER_RADIUS, 12);

    assert!(ctl.reconcile(&catalog, &session).is_empty());
    assert!(ctl.reconcile(&catalog, &session).is_empty());
}

#[test]
fn session_first_then_catalog_reconciles_once() {
    let mut catalog = ImagesResource::new();
    let mut session = MapSession::new(9);
    let mut ctl = SyncController::new();
    session.create(MAX_ZOOM).unwrap();
    let t = catalog.start();
    assert!(ctl.reconcile(&catalog, &session).is_empty());
    catalog.resolve(t, FetchOutcome::Responded { status: 200, images: Some(vec![photo(0, 5, 6)]) });
    let cmds = ctl.reconcile(&catalog, &session);
    assert_eq!(cmds.len(), 2);
    assert_eq!(cmds[0], MapCommand::SetView { coord: Coord { lat_e7: 5, lon_e7: 6 }, zoom: 15 });
    assert!(ctl.reconcile(&catalog, &session).is_empty());
}

#[test]
fn new_catalog_or_session_reruns_from_scratch() {
    let mut catalog = ImagesResource::new();
    let mut session = MapSession::new(1);
    let mut ctl = SyncController::new();
    session.create(MAX_ZOOM).unwrap();
    let t = catalog.start();
    catalog.resolve(t, FetchOutcome::Responded { status: 200, images: Some(vec![photo(0, 1, 1)]) });
    assert_eq!(ctl.reconcile(&catalog, &session).len(), 2);

    let t2 = catalog.start();
    catalog.resolve(t2, FetchOutcome::Responded { status: 200, images: Some(vec![photo(1, 2, 2), photo(2, 3, 3)]) });
    let cmds = ctl.reconcile(&catalog, &session);
    assert_eq!(cmds.len(), 3);
    assert_eq!(cmds[0], MapCommand::SetView { coord: Coord { lat_e7: 2, lon_e7: 2 }, zoom: 15 });

    let mut session2 = MapSession::new(2);
    session2.create(MAX_ZOOM).unwrap();
    assert_eq!(ctl.reconcile(&catalog, &session2).len(), 3);
    assert!(ctl.reconcile(&catalog, &session2).is_empty());
}

#[test]
fn empty_catalog_issues_nothing() {
    let mut catalog = ImagesResource::new();
    let mut session = MapSession::new(1);
    let mut ctl = SyncController::new();
    session.create(MAX_ZOOM).unwrap();
    let t = catalog.start();
    catalog.resolve(t, FetchOutcome::Responded { status: 200, images: Some(vec![]) });
    assert!(ctl.reconcile(&catalog, &session).is_empty());
    let mut failed = ImagesResource::new();
    let t = failed.start();
    failed.resolve(t, FetchOutcome::Failed);
    assert!(ctl.reconcile(&failed, &session).is_empty());
}

#[test]
fn teardown_during_fetch_discards_result() {
    let mut catalog = ImagesResource::new();
    let mut session = MapSession::new(1);
    let mut ctl = SyncController::new();
    session.create(MAX_ZOOM).unwrap();
    let t = catalog.start();
    let (aborted, released) = tear_down(&mut catalog, &mut session);
    assert!(aborted);
    assert_eq!(released, Some(MapCommand::Destroy));
    assert_eq!(session.state(), SessionState::Destroyed);

    assert!(!catalog.resolve(t, FetchOutcome::Responded { status: 200, images: Some(vec![photo(0, 1, 2)]) }));
    assert!(catalog.current().is_none());
    assert!(!catalog.is_loading());
    assert!(ctl.reconcile(&catalog, &session).is_empty());

    let (aborted, released) = tear_down(&mut catalog, &mut session);
    assert!(!aborted);
    assert_eq!(released, None);
    assert_eq!(session.state(), SessionState::Destroyed);
}

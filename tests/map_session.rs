use cats_of_asia::photo::{Coord, Image};
use cats_of_asia::session::{MapCommand, MapSession, SessionError, SessionState};

fn photo() -> Image {
    Image {
        id: 7,
        url_large: "l".to_string(),
        url_medium: "m".to_string(),
        url_small: "s".to_string(),
        sha256: "h".to_string(),
        timestamp: "t".to_string(),
        coord: Coord { lat_e7: 5, lon_e7: 6 },
        city: "Ubud".to_string(),
        country: "Indonesia".to_string(),
    }
}

#[test]
fn operations_before_create_are_refused() {
    let s = MapSession::new(1);
    assert_eq!(s.state(), SessionState::Uninitialized);
    assert_eq!(s.set_view(Coord { lat_e7: 1, lon_e7: 2 }, 15), Err(SessionError::NotReady));
    assert_eq!(s.add_marker(&photo(), 12), Err(SessionError::NotReady));
}

#[test]
fn create_then_operations_issue_commands() {
    let mut s = MapSession::new(1);
    assert_eq!(s.create(22), Ok(MapCommand::Create { max_zoom: 22 }));
    assert!(s.is_ready());
    assert_eq!(s.create(22), Err(SessionError::AlreadyCreated));
    assert_eq!(
        s.set_view(Coord { lat_e7: 1, lon_e7: 2 }, 15),
        Ok(MapCommand::SetView { coord: Coord { lat_e7: 1, lon_e7: 2 }, zoom: 15 })
    );
    assert_eq!(s.add_marker(&photo(), 12), Ok(MapCommand::AddMarker { image: photo(), radius: 12 }));
}

#[test]
fn operations_after_destroy_are_refused() {
    let mut s = MapSession::new(3);
    s.create(22).unwrap();
    assert_eq!(s.destroy(), Some(MapCommand::Destroy));
    assert_eq!(s.state(), SessionState::Destroyed);
    assert_eq!(s.set_view(Coord { lat_e7: 1, lon_e7: 2 }, 15), Err(SessionError::NotReady));
    assert_eq!(s.add_marker(&photo(), 12), Err(SessionError::NotReady));
    assert_eq!(s.id(), 3);
}

#[test]
fn destroy_twice_is_safe() {
    let mut s = MapSession::new(1);
    s.create(22).unwrap();
    assert_eq!(s.destroy(), Some(MapCommand::Destroy));
    assert_eq!(s.destroy(), None);
    assert_eq!(s.state(), SessionState::Destroyed);
}

#[test]
fn destroy_before_create_is_noop() {
    let mut s = MapSession::new(1);
    assert_eq!(s.destroy(), None);
    assert_eq!(s.state(), SessionState::Uninitialized);
}

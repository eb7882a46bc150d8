use sht20_node::link::{Link, LinkAction, LinkEvent, LinkMode, LinkPhase, RETRY_DELAY_MS};

const CREDS: LinkEvent = LinkEvent::CredentialsRead { ssid_empty: false, password_empty: false };

fn count_attempts(mode: LinkMode) -> (u32, LinkAction) {
    let mut link = Link::start(mode);
    let mut attempts = 0;
    loop {
        let (l, a) = link.step(LinkEvent::Resume);
        link = l;
        if a != LinkAction::ReadCredentials {
            return (attempts, a);
        }
        let (l, a) = link.step(CREDS);
        assert_eq!(a, LinkAction::Attempt);
        attempts += 1;
        let (l, a) = l.step(LinkEvent::ConnectFailed);
        assert_eq!(a, LinkAction::RetryAfter { delay_ms: RETRY_DELAY_MS });
        link = l;
    }
}

#[test]
fn station_tries_four_times_then_falls_back() {
    assert_eq!(count_attempts(LinkMode::Station), (4, LinkAction::FallBackToProvisioning));
}

#[test]
fn portal_tries_once_then_gives_up() {
    assert_eq!(count_attempts(LinkMode::Provisioning), (1, LinkAction::GiveUp));
}

#[test]
fn success_waits_for_network() {
    let link = Link::start(LinkMode::Station);
    let (link, _) = link.step(LinkEvent::Resume);
    let (link, _) = link.step(CREDS);
    let (link, a) = link.step(LinkEvent::Connected);
    assert_eq!(a, LinkAction::WaitForNetwork);
    assert_eq!(link.phase(), LinkPhase::Finished);
    let (link, a) = link.step(LinkEvent::Resume);
    assert_eq!(a, LinkAction::Ignore);
    assert_eq!(link.phase(), LinkPhase::Finished);
}

#[test]
fn portal_stops_without_credentials() {
    for (s, p) in [(true, false), (false, true), (true, true)].iter() {
        let (link, _) = Link::start(LinkMode::Provisioning).step(LinkEvent::Resume);
        let (_, a) = link.step(LinkEvent::CredentialsRead { ssid_empty: *s, password_empty: *p });
        assert_eq!(a, LinkAction::MissingCredentials);
    }
    let (link, _) = Link::start(LinkMode::Station).step(LinkEvent::Resume);
    let (_, a) = link.step(LinkEvent::CredentialsRead { ssid_empty: true, password_empty: true });
    assert_eq!(a, LinkAction::Attempt);
}

#[test]
fn out_of_phase_events_are_ignored() {
    let link = Link::start(LinkMode::Station);
    let (link, a) = link.step(LinkEvent::Connected);
    assert_eq!(a, LinkAction::Ignore);
    assert_eq!(link.phase(), LinkPhase::Ready);
    assert_eq!(link.retries_left(), 3);
    assert_eq!(link.mode(), LinkMode::Station);
}

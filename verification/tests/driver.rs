use polymarket_ws::backoff::BackoffPolicy;
use polymarket_ws::decimal::Decimal;
use polymarket_ws::decode::{decode_frame, Frame};
use polymarket_ws::driver::{Action, Driver, Event, Phase, Step};
use polymarket_ws::error::{DecodeError, WsError};
use polymarket_ws::event::{PriceChange, PriceChangeEvent, Side, WsEvent};

fn policy(max_attempts: Option<u32>) -> BackoffPolicy {
    BackoffPolicy {
        initial_delay_ms: 1_000,
        max_delay_ms: 30_000,
        multiplier_num: 2,
        multiplier_den: 1,
        max_attempts,
    }
}

fn ids() -> Vec<String> {
    vec!["token_id_1".to_string(), "token_id_2".to_string()]
}

fn driver(max_attempts: Option<u32>) -> Driver {
    Driver::new(policy(max_attempts), ids()).unwrap()
}

fn streaming(max_attempts: Option<u32>) -> Driver {
    let mut driver = driver(max_attempts);
    assert_eq!(driver.step(Event::Poll).action, Action::Connect);
    assert_eq!(driver.step(Event::Connected).action, Action::Receive);
    driver
}

fn transport(detail: &str) -> WsError {
    WsError::TransportFailure(detail.to_string())
}

fn sample_event() -> WsEvent {
    WsEvent::PriceChange(PriceChangeEvent {
        market: "m".to_string(),
        price_changes: vec![PriceChange {
            side: Side::Buy,
            price: Decimal::parse("0.5").unwrap(),
            size: Decimal::parse("10").unwrap(),
        }],
    })
}

#[test]
fn a_new_driver_is_idle() {
    let driver = driver(None);
    assert_eq!(driver.phase(), Phase::Idle);
    assert_eq!(driver.attempts(), 0);
    assert_eq!(driver.delay_ms(), 1_000);
    assert_eq!(driver.token_ids(), &ids());
    assert_eq!(driver.policy(), policy(None));
    assert!(!driver.is_exhausted());
}

#[test]
fn a_policy_without_denominator_is_refused() {
    let broken = BackoffPolicy { multiplier_den: 0, ..policy(None) };
    assert!(Driver::new(broken, ids()).is_none());
}

#[test]
fn the_first_poll_connects() {
    let mut driver = driver(None);
    let step = driver.step(Event::Poll);
    assert_eq!(step, Step { emit: None, action: Action::Connect });
    assert_eq!(driver.phase(), Phase::Connecting);
}

#[test]
fn connecting_then_streaming() {
    let mut driver = driver(None);
    driver.step(Event::Poll);
    let step = driver.step(Event::Connected);
    assert_eq!(step, Step { emit: None, action: Action::Receive });
    assert_eq!(driver.phase(), Phase::Streaming);
}

#[test]
fn items_are_forwarded_unchanged() {
    let mut driver = streaming(None);
    let step = driver.step(Event::Item(Ok(sample_event())));
    assert_eq!(step, Step { emit: Some(Ok(sample_event())), action: Action::Receive });
    assert_eq!(driver.phase(), Phase::Streaming);
    assert_eq!(driver.attempts(), 0);
    assert_eq!(driver.delay_ms(), 1_000);
}

#[test]
fn message_errors_do_not_end_the_session() {
    let mut driver = streaming(Some(1));
    for error in [WsError::DecodeFailure(DecodeError::Syntax), WsError::UnsupportedFrame] {
        let step = driver.step(Event::Item(Err(error.clone())));
        assert_eq!(step, Step { emit: Some(Err(error)), action: Action::Receive });
        assert_eq!(driver.phase(), Phase::Streaming);
        assert_eq!(driver.attempts(), 0);
        assert_eq!(driver.delay_ms(), 1_000);
    }
}

#[test]
fn consecutive_failures_arm_growing_delays() {
    let mut driver = driver(None);
    driver.step(Event::Poll);
    let mut armed = Vec::new();
    for k in 1..=7u64 {
        let step = driver.step(Event::ConnectFailed(transport("refused")));
        assert_eq!(step.emit, Some(Err(transport("refused"))));
        match step.action {
            Action::Sleep(delay) => armed.push(delay),
            other => panic!("no timer: {:?}", other),
        }
        assert_eq!(driver.phase(), Phase::Backoff);
        assert_eq!(driver.attempts(), k);
        assert_eq!(driver.step(Event::TimerFired), Step { emit: None, action: Action::Connect });
        assert_eq!(driver.phase(), Phase::Connecting);
    }
    assert_eq!(armed, vec![2_000, 4_000, 8_000, 16_000, 30_000, 30_000, 30_000]);
}

#[test]
fn a_successful_reconnection_resets_the_backoff() {
    let mut driver = driver(None);
    driver.step(Event::Poll);
    for _ in 0..4 {
        driver.step(Event::ConnectFailed(transport("refused")));
        driver.step(Event::TimerFired);
    }
    assert_eq!(driver.attempts(), 4);
    assert_eq!(driver.delay_ms(), 16_000);
    let step = driver.step(Event::Connected);
    assert_eq!(step, Step { emit: None, action: Action::Receive });
    assert_eq!(driver.phase(), Phase::Streaming);
    assert_eq!(driver.attempts(), 0);
    assert_eq!(driver.delay_ms(), 1_000);
    let step = driver.step(Event::StreamEnded);
    assert_eq!(step.action, Action::Sleep(2_000));
}

#[test]
fn a_cap_of_three_ends_the_output_after_three_errors() {
    let mut driver = driver(Some(3));
    driver.step(Event::Poll);
    let mut errors = 0;
    let mut stopped = false;
    for _ in 0..10 {
        let step = driver.step(Event::ConnectFailed(transport("refused")));
        if step.emit.is_some() {
            errors += 1;
        }
        match step.action {
            Action::Sleep(_) => {
                assert_eq!(driver.step(Event::TimerFired).action, Action::Connect);
            }
            Action::Stop => {
                stopped = true;
                break;
            }
            other => panic!("unexpected {:?}", other),
        }
    }
    assert!(stopped);
    assert_eq!(errors, 3);
    assert_eq!(driver.phase(), Phase::Exhausted);
    assert!(driver.is_exhausted());
    assert_eq!(driver.attempts(), 3);
}

#[test]
fn an_exhausted_driver_emits_nothing_more() {
    let mut driver = driver(Some(1));
    driver.step(Event::Poll);
    let step = driver.step(Event::ConnectFailed(transport("refused")));
    assert_eq!(step, Step { emit: Some(Err(transport("refused"))), action: Action::Stop });
    for event in [
        Event::Poll,
        Event::Connected,
        Event::ConnectFailed(transport("again")),
        Event::Item(Ok(sample_event())),
        Event::Item(Err(WsError::ConnectionClosed)),
        Event::StreamEnded,
        Event::TimerFired,
    ] {
        assert_eq!(driver.step(event), Step { emit: None, action: Action::Stop });
        assert_eq!(driver.phase(), Phase::Exhausted);
    }
}

#[test]
fn a_cap_of_zero_allows_no_attempt() {
    let mut driver = driver(Some(0));
    assert_eq!(driver.phase(), Phase::Exhausted);
    assert_eq!(driver.step(Event::Poll), Step { emit: None, action: Action::Stop });
}

#[test]
fn without_a_cap_the_driver_never_gives_up() {
    let mut driver = driver(None);
    driver.step(Event::Poll);
    for k in 1..=10_000u64 {
        let step = driver.step(Event::ConnectFailed(transport("refused")));
        assert_eq!(step.action, Action::Sleep(if k >= 5 { 30_000 } else { 1_000 << k }));
        assert_eq!(driver.step(Event::TimerFired).action, Action::Connect);
        assert_eq!(driver.attempts(), k);
    }
    assert!(!driver.is_exhausted());
}

#[test]
fn the_cap_counts_from_the_last_successful_connection() {
    let mut driver = streaming(Some(3));
    let mut errors = 0;
    for _ in 0..5 {
        let step = driver.step(Event::StreamEnded);
        assert_eq!(step.action, Action::Sleep(2_000));
        errors += step.emit.iter().count();
        assert_eq!(driver.step(Event::TimerFired).action, Action::Connect);
        let step = driver.step(Event::ConnectFailed(transport("refused")));
        assert_eq!(step.action, Action::Sleep(4_000));
        errors += step.emit.iter().count();
        assert_eq!(driver.attempts(), 2);
        assert_eq!(driver.step(Event::TimerFired).action, Action::Connect);
        assert_eq!(driver.step(Event::Connected).action, Action::Receive);
        assert_eq!(driver.attempts(), 0);
    }
    assert_eq!(errors, 10);
    assert_eq!(driver.phase(), Phase::Streaming);
}

#[test]
fn a_cap_of_two_stops_at_the_second_failure_in_a_row() {
    let mut driver = streaming(Some(2));
    assert_eq!(driver.step(Event::StreamEnded).action, Action::Sleep(2_000));
    assert_eq!(driver.step(Event::TimerFired).action, Action::Connect);
    let step = driver.step(Event::ConnectFailed(transport("refused")));
    assert_eq!(step, Step { emit: Some(Err(transport("refused"))), action: Action::Stop });
    assert_eq!(driver.phase(), Phase::Exhausted);
    assert_eq!(driver.attempts(), 2);
}

#[test]
fn a_close_frame_mid_session_reconnects_with_the_same_identifiers() {
    let mut driver = streaming(None);
    driver.step(Event::Item(Ok(sample_event())));
    let item = decode_frame(&Frame::Close).unwrap();
    let step = driver.step(Event::Item(item));
    assert_eq!(
        step,
        Step { emit: Some(Err(WsError::ConnectionClosed)), action: Action::Sleep(2_000) }
    );
    assert_eq!(driver.phase(), Phase::Backoff);
    assert_eq!(driver.attempts(), 1);
    let step = driver.step(Event::TimerFired);
    assert_eq!(step, Step { emit: None, action: Action::Connect });
    assert_eq!(driver.phase(), Phase::Connecting);
    assert_eq!(driver.token_ids(), &ids());
}

#[test]
fn the_end_of_a_session_is_reported_as_connection_closed() {
    let mut driver = streaming(None);
    let step = driver.step(Event::StreamEnded);
    assert_eq!(
        step,
        Step { emit: Some(Err(WsError::ConnectionClosed)), action: Action::Sleep(2_000) }
    );
    assert_eq!(driver.phase(), Phase::Backoff);
}

#[test]
fn a_transport_failure_mid_session_reconnects() {
    let mut driver = streaming(Some(5));
    let step = driver.step(Event::Item(Err(transport("reset by peer"))));
    assert_eq!(
        step,
        Step { emit: Some(Err(transport("reset by peer"))), action: Action::Sleep(2_000) }
    );
    assert_eq!(driver.phase(), Phase::Backoff);
}

#[test]
fn events_that_do_not_fit_the_phase_change_nothing() {
    let mut driver = driver(Some(4));
    for event in [
        Event::Connected,
        Event::ConnectFailed(transport("x")),
        Event::Item(Ok(sample_event())),
        Event::StreamEnded,
        Event::TimerFired,
    ] {
        assert_eq!(driver.step(event), Step { emit: None, action: Action::Wait });
        assert_eq!(driver.phase(), Phase::Idle);
    }
    driver.step(Event::Poll);
    for event in [
        Event::Poll,
        Event::Item(Err(WsError::ConnectionClosed)),
        Event::StreamEnded,
        Event::TimerFired,
    ] {
        assert_eq!(driver.step(event), Step { emit: None, action: Action::Wait });
        assert_eq!(driver.phase(), Phase::Connecting);
        assert_eq!(driver.attempts(), 0);
    }
    driver.step(Event::Connected);
    for event in [
        Event::Poll,
        Event::Connected,
        Event::ConnectFailed(transport("x")),
        Event::TimerFired,
    ] {
        assert_eq!(driver.step(event), Step { emit: None, action: Action::Wait });
        assert_eq!(driver.phase(), Phase::Streaming);
    }
    driver.step(Event::StreamEnded);
    for event in [
        Event::Poll,
        Event::Connected,
        Event::ConnectFailed(transport("x")),
        Event::Item(Ok(sample_event())),
        Event::StreamEnded,
    ] {
        assert_eq!(driver.step(event), Step { emit: None, action: Action::Wait });
        assert_eq!(driver.phase(), Phase::Backoff);
        assert_eq!(driver.attempts(), 1);
        assert_eq!(driver.delay_ms(), 2_000);
    }
}

#[test]
fn an_empty_batch_reaches_the_driver_as_no_event() {
    let mut driver = streaming(None);
    assert_eq!(decode_frame(&Frame::Text("[]".to_string())), None);
    assert_eq!(driver.phase(), Phase::Streaming);
    assert_eq!(driver.attempts(), 0);
    assert_eq!(driver.delay_ms(), 1_000);
    let step = driver.step(Event::Item(Ok(sample_event())));
    assert_eq!(step.emit, Some(Ok(sample_event())));
}

#[test]
fn the_armed_delay_reaches_the_cap_with_a_fractional_factor() {
    let policy = BackoffPolicy {
        initial_delay_ms: 1,
        max_delay_ms: 2,
        multiplier_num: 3,
        multiplier_den: 2,
        max_attempts: None,
    };
    let mut driver = Driver::new(policy, ids()).unwrap();
    driver.step(Event::Poll);
    assert_eq!(driver.step(Event::ConnectFailed(transport("refused"))).action, Action::Sleep(2));
    driver.step(Event::TimerFired);
    assert_eq!(driver.step(Event::ConnectFailed(transport("refused"))).action, Action::Sleep(2));
}

#[test]
fn the_armed_delay_is_the_whole_product() {
    let policy = BackoffPolicy {
        initial_delay_ms: 1_600,
        max_delay_ms: 10_000,
        multiplier_num: 3,
        multiplier_den: 2,
        max_attempts: None,
    };
    let mut driver = Driver::new(policy, ids()).unwrap();
    driver.step(Event::Poll);
    let mut armed = Vec::new();
    for _ in 0..6 {
        match driver.step(Event::ConnectFailed(transport("refused"))).action {
            Action::Sleep(delay) => armed.push(delay),
            other => panic!("no timer: {:?}", other),
        }
        driver.step(Event::TimerFired);
    }
    assert_eq!(armed, vec![2_400, 3_600, 5_400, 8_100, 10_000, 10_000]);
}

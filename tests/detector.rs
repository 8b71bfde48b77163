use botdetector::detector::{
    ActorStatus, Detector, DetectorConf, Event, Frequency, IPData, NUM_CLIENTS_TRACK,
    NUM_CLIENT_EVENTS, SUSP_PLACEHOLDER,
};

fn log_of(times: &[(u64, u32)]) -> IPData {
    let mut d = IPData::new();
    for &(s, n) in times {
        d.new_event(Event::at(s, n));
    }
    d
}

#[test]
fn test_analyze_actor() {
    let num_good_evts = 4;
    let num_susp_evts: usize = 6;
    let num_bad_evts: usize = 9;

    let conf = DetectorConf {
        bad_evt_freq: Frequency { events: num_bad_evts as u64, secs: 60 },
        susp_evt_freq: Frequency { events: num_susp_evts as u64, secs: 60 },
    };

    let mut d = IPData::new();
    d.new_event(Event::at(0, 0));

    for (num_evts, ans) in vec![
        (num_good_evts, ActorStatus::GoodActor),
        (num_susp_evts, ActorStatus::SuspiciousActor(SUSP_PLACEHOLDER)),
        (num_bad_evts, ActorStatus::BadActor),
    ] {
        for i in d.events.len()..num_evts {
            println!("Adding evt {}", i);
            d.new_event(Event::at(60, 0));
        }
        println!("Has {} evts", d.events.len());
        assert_eq!(conf.analyze_actor(&d), ans);
    }
}

#[test]
fn single_event_leaves_rate_at_zero() {
    let d = log_of(&[(100, 0)]);
    assert_eq!(d.num_events(), 1);
    assert_eq!(d.evt_freq, Frequency { events: 0, secs: 1 });
    assert_eq!(DetectorConf::new().analyze_actor(&d), ActorStatus::GoodActor);
}

#[test]
fn two_events_a_minute_apart_are_good() {
    let d = log_of(&[(0, 0), (60, 0)]);
    assert_eq!(d.evt_freq, Frequency { events: 2, secs: 60 });
    assert_eq!(DetectorConf::new().analyze_actor(&d), ActorStatus::GoodActor);
}

#[test]
fn six_events_a_second_apart_are_bad() {
    let d = log_of(&[(0, 0), (1, 0), (2, 0), (3, 0), (4, 0), (5, 0)]);
    assert_eq!(d.evt_freq, Frequency { events: 6, secs: 10 });
    assert_eq!(DetectorConf::new().analyze_actor(&d), ActorStatus::BadActor);
}

#[test]
fn six_events_over_fifteen_seconds_are_suspicious() {
    let d = log_of(&[(0, 0), (3, 0), (6, 0), (9, 0), (12, 0), (15, 0)]);
    assert_eq!(d.evt_freq, Frequency { events: 6, secs: 15 });
    assert_eq!(
        DetectorConf::new().analyze_actor(&d),
        ActorStatus::SuspiciousActor(SUSP_PLACEHOLDER)
    );
    assert_eq!(SUSP_PLACEHOLDER, 50);
}

#[test]
fn rate_on_each_threshold_takes_the_severer_class() {
    // 5 events in the shortest window: exactly 30 a minute.
    let d = log_of(&[(0, 0), (1, 0), (2, 0), (3, 0), (4, 0)]);
    assert_eq!(d.evt_freq, Frequency { events: 5, secs: 10 });
    assert_eq!(DetectorConf::new().analyze_actor(&d), ActorStatus::BadActor);
    // 4 events over 12 seconds: exactly 20 a minute.
    let d = log_of(&[(0, 0), (4, 0), (8, 0), (12, 0)]);
    assert_eq!(d.evt_freq, Frequency { events: 4, secs: 12 });
    assert_eq!(
        DetectorConf::new().analyze_actor(&d),
        ActorStatus::SuspiciousActor(SUSP_PLACEHOLDER)
    );
    // Just below: 4 events over 13 seconds.
    let d = log_of(&[(0, 0), (4, 0), (8, 0), (13, 0)]);
    assert_eq!(DetectorConf::new().analyze_actor(&d), ActorStatus::GoodActor);
}

#[test]
fn full_log_drops_its_oldest_event() {
    let mut d = IPData::new();
    for t in 0..NUM_CLIENT_EVENTS as u64 {
        d.new_event(Event::at(t * 10, 0));
    }
    assert_eq!(d.num_events(), NUM_CLIENT_EVENTS);
    assert_eq!(d.events[0], Event::at(0, 0));
    d.new_event(Event::at(1000, 0));
    assert_eq!(d.num_events(), NUM_CLIENT_EVENTS);
    assert_eq!(d.events[0], Event::at(10, 0));
    assert_eq!(d.events[NUM_CLIENT_EVENTS - 1], Event::at(1000, 0));
    assert_eq!(d.evt_freq, Frequency { events: 10, secs: 990 });
}

#[test]
fn window_is_measured_in_whole_seconds() {
    let d = log_of(&[(0, 900_000_000), (20, 100_000_000)]);
    assert_eq!(d.evt_freq, Frequency { events: 2, secs: 19 });
}

#[test]
fn clock_going_back_keeps_the_previous_rate() {
    let d = log_of(&[(100, 0), (50, 0)]);
    assert_eq!(d.num_events(), 2);
    assert_eq!(d.evt_freq, Frequency { events: 0, secs: 1 });
    let d = log_of(&[(100, 0), (120, 0), (50, 0)]);
    assert_eq!(d.num_events(), 3);
    assert_eq!(d.evt_freq, Frequency { events: 2, secs: 20 });
    let d = log_of(&[(100, 500), (100, 400)]);
    assert_eq!(d.evt_freq, Frequency { events: 0, secs: 1 });
}

#[test]
fn frequency_comparison_is_exact() {
    let third = Frequency { events: 1, secs: 3 };
    assert!(Frequency { events: 20, secs: 60 }.is_at_least(&third));
    assert!(!Frequency { events: 19, secs: 60 }.is_at_least(&third));
    assert!(Frequency { events: u64::MAX, secs: 1 }.is_at_least(&Frequency { events: u64::MAX - 1, secs: 1 }));
}

#[test]
fn default_conf_thresholds() {
    let c = DetectorConf::new();
    assert_eq!(c.bad_evt_freq, Frequency { events: 30, secs: 60 });
    assert_eq!(c.susp_evt_freq, Frequency { events: 20, secs: 60 });
}

fn touchy_conf() -> DetectorConf {
    DetectorConf {
        bad_evt_freq: Frequency { events: 1, secs: 100 },
        susp_evt_freq: Frequency { events: 1, secs: 100 },
    }
}

#[test]
fn registry_past_capacity_drops_first_client() {
    let mut det = Detector::new(touchy_conf());
    for ip in 0..(NUM_CLIENTS_TRACK as u128 + 1) {
        assert_eq!(det.record_event(ip, Event::at(0, 0)), ActorStatus::GoodActor);
    }
    assert_eq!(det.num_clients(), NUM_CLIENTS_TRACK);
    assert!(!det.ip_map.contains_key(&0));
    assert!(det.ip_map.contains_key(&1));
    assert!(det.ip_map.contains_key(&(NUM_CLIENTS_TRACK as u128)));
    // Client 5 is still known: a second event makes it bad.
    assert_eq!(det.record_event(5, Event::at(0, 0)), ActorStatus::BadActor);
    // Client 0 was forgotten: it starts afresh.
    assert_eq!(det.record_event(0, Event::at(0, 0)), ActorStatus::GoodActor);
    assert_eq!(det.num_clients(), NUM_CLIENTS_TRACK);
}

#[test]
fn requery_adds_one_event_and_protects_the_client() {
    let mut det = Detector::new(touchy_conf());
    for ip in 0..NUM_CLIENTS_TRACK as u128 {
        det.record_event(ip, Event::at(0, 0));
    }
    assert_eq!(det.record_event(0, Event::at(0, 0)), ActorStatus::BadActor);
    assert_eq!(det.record_event(0, Event::at(0, 0)), ActorStatus::BadActor);
    assert_eq!(det.num_clients(), NUM_CLIENTS_TRACK);
    det.record_event(1_000_000, Event::at(0, 0));
    assert_eq!(det.num_clients(), NUM_CLIENTS_TRACK);
    assert!(!det.ip_map.contains_key(&1));
    assert_eq!(det.ip_map.get_mut(&0).unwrap().num_events(), 3);
    assert_eq!(det.ip_map.get_mut(&2).unwrap().num_events(), 1);
}

#[test]
fn clients_are_tracked_apart() {
    let mut det = Detector::new(DetectorConf::new());
    for t in 0..6u64 {
        det.record_event(1, Event::at(t, 0));
    }
    assert_eq!(det.record_event(2, Event::at(6, 0)), ActorStatus::GoodActor);
    assert_eq!(det.record_event(1, Event::at(6, 0)), ActorStatus::BadActor);
    assert_eq!(det.num_clients(), 2);
}

#[test]
fn clock_events_are_well_formed() {
    let e = Event::new();
    assert!(e.nanos < 1_000_000_000);
    assert!(e.secs > 1_500_000_000);
    let mut det = Detector::new(DetectorConf::new());
    assert_eq!(det.new_event(42), ActorStatus::GoodActor);
    assert_eq!(det.num_clients(), 1);
}

use macmon::error::Failure;
use macmon::io_report::{
    energy_divisor, Action, Event, IOReport, IOReportIterator, IOReportIteratorItem, RawSample,
    Selector, Stage, CHANNELS_KEY, MAX_SAMPLES,
};
use std::collections::HashMap;

/// A stand-in for the frameworks: it hands out objects, counts what is still
/// to be released, and keeps a clock that only the sleeps move.
struct Framework {
    next_handle: usize,
    live: HashMap<usize, u32>,
    released_dead: Vec<usize>,
    clock_ns: u64,
    slept_ms: u64,
    has_channels: bool,
    subscription_fails: bool,
    calls: Vec<Action>,
    deltas: Vec<(usize, usize)>,
    jitter_ns: u64,
}

impl Framework {
    fn new() -> Framework {
        Framework {
            next_handle: 0x1000,
            live: HashMap::new(),
            released_dead: Vec::new(),
            clock_ns: 5_000_000_000,
            slept_ms: 0,
            has_channels: true,
            subscription_fails: false,
            calls: Vec::new(),
            deltas: Vec::new(),
            jitter_ns: 0,
        }
    }

    fn create(&mut self) -> usize {
        self.next_handle += 0x10;
        *self.live.entry(self.next_handle).or_insert(0) += 1;
        self.next_handle
    }

    fn release(&mut self, handle: usize) {
        match self.live.get_mut(&handle) {
            Some(n) if *n > 0 => *n -= 1,
            _ => self.released_dead.push(handle),
        }
    }

    fn leaks(&self) -> u32 {
        self.live.values().sum()
    }

    fn perform(&mut self, action: Action) -> Event {
        self.calls.push(action);
        match action {
            Action::CopyAllChannels
            | Action::CopyChannelsInGroup { .. }
            | Action::CreateMutableCopy { .. } => Event::Handle(self.create()),
            Action::MergeChannels { .. } => Event::Done,
            Action::HasChannels { .. } => Event::Flag(self.has_channels),
            Action::CreateSubscription { .. } => {
                if self.subscription_fails {
                    Event::Handle(0)
                } else {
                    Event::Handle(self.create())
                }
            }
            Action::CreateSamples { .. } => {
                let handle = self.create();
                Event::Sample(RawSample { handle, at_ns: self.clock_ns })
            }
            Action::Sleep { msec } => {
                self.slept_ms += msec;
                self.clock_ns += msec * 1_000_000 + self.jitter_ns;
                Event::Done
            }
            Action::CreateSamplesDelta { prev, next } => {
                self.deltas.push((prev, next));
                Event::Delta { handle: self.create(), items: 0xabc, items_size: 3 }
            }
            Action::Release { handle } => {
                self.release(handle);
                Event::Done
            }
            Action::Finished => panic!("nothing to perform"),
        }
    }

    fn run(&mut self, engine: &mut IOReport, first: Action) {
        let mut action = first;
        while action != Action::Finished {
            let event = self.perform(action);
            assert!(engine.accepts(&event));
            action = engine.resume(event);
        }
    }
}

fn selector(group: &str, subgroup: Option<&str>) -> Selector {
    Selector { group: group.to_string(), subgroup: subgroup.map(|s| s.to_string()) }
}

fn build(fw: &mut Framework, selectors: Vec<Selector>) -> IOReport {
    let (mut engine, first) = IOReport::new(selectors);
    fw.run(&mut engine, first);
    engine
}

fn drop_all(fw: &mut Framework, samples: Vec<(IOReportIterator, u64)>) {
    for (it, _) in samples {
        fw.release(it.sample());
    }
}

#[test]
fn engine_for_all_channels_copies_and_subscribes() {
    let mut fw = Framework::new();
    let engine = build(&mut fw, Vec::new());
    assert_eq!(engine.built(), Ok(()));
    assert_eq!(engine.stage(), Stage::Ready);
    assert!(engine.is_ready());
    let all = 0x1010;
    let copy = 0x1020;
    assert_eq!(
        fw.calls,
        vec![
            Action::CopyAllChannels,
            Action::CreateMutableCopy { of: all },
            Action::Release { handle: all },
            Action::CreateSubscription { channels: copy },
        ]
    );
    assert_eq!(engine.subscription().handle, 0x1030);
    assert_eq!(fw.leaks(), 2);
}

#[test]
fn engine_for_groups_merges_into_the_first_and_checks_the_channel_list() {
    let mut fw = Framework::new();
    let engine = build(
        &mut fw,
        vec![
            selector("Energy Model", None),
            selector("CPU Stats", Some("CPU Complex Performance States")),
            selector("GPU Stats", Some("GPU Performance States")),
        ],
    );
    assert_eq!(engine.built(), Ok(()));
    assert_eq!(engine.selector(1).unwrap().group, "CPU Stats");
    assert_eq!(engine.selector(0).unwrap().subgroup, None);
    assert!(engine.selector(3).is_none());
    let (a, b, c, copy) = (0x1010, 0x1020, 0x1030, 0x1040);
    assert_eq!(
        fw.calls,
        vec![
            Action::CopyChannelsInGroup { selector: 0 },
            Action::CopyChannelsInGroup { selector: 1 },
            Action::CopyChannelsInGroup { selector: 2 },
            Action::MergeChannels { into: a, from: b },
            Action::MergeChannels { into: a, from: c },
            Action::CreateMutableCopy { of: a },
            Action::Release { handle: a },
            Action::Release { handle: b },
            Action::Release { handle: c },
            Action::HasChannels { dict: copy },
            Action::CreateSubscription { channels: copy },
        ]
    );
    assert_eq!(CHANNELS_KEY, "IOReportChannels");
    assert_eq!(fw.leaks(), 2);
}

#[test]
fn engine_without_a_channel_list_fails_and_leaks_nothing() {
    let mut fw = Framework::new();
    fw.has_channels = false;
    let mut engine = build(&mut fw, vec![selector("No Such Group", None)]);
    assert_eq!(engine.built(), Err(Failure::ChannelLookupFailed));
    assert_eq!(engine.stage(), Stage::Failed { why: Failure::ChannelLookupFailed });
    assert!(!engine.is_ready());
    assert_eq!(fw.leaks(), 0);
    assert_eq!(engine.close(), Action::Finished);
    assert!(fw.released_dead.is_empty());
}

#[test]
fn engine_without_a_subscription_fails_and_leaks_nothing() {
    let mut fw = Framework::new();
    fw.subscription_fails = true;
    let engine = build(&mut fw, vec![selector("Energy Model", None)]);
    assert_eq!(engine.built(), Err(Failure::SubscriptionFailed));
    assert_eq!(fw.leaks(), 0);
    let mut fw = Framework::new();
    fw.subscription_fails = true;
    let engine = build(&mut fw, Vec::new());
    assert_eq!(engine.built(), Err(Failure::SubscriptionFailed));
    assert_eq!(fw.leaks(), 0);
    assert!(fw.released_dead.is_empty());
}

#[test]
fn single_interval_releases_both_raw_samples() {
    let mut fw = Framework::new();
    let mut engine = build(&mut fw, vec![selector("Energy Model", None)]);
    fw.calls.clear();
    let first = engine.get_sample(100);
    fw.run(&mut engine, first);
    let (chan, subs) = (0x1020, 0x1030);
    let (s1, s2) = (0x1040, 0x1050);
    assert_eq!(
        fw.calls,
        vec![
            Action::CreateSamples { subscription: subs, channels: chan },
            Action::Sleep { msec: 100 },
            Action::CreateSamples { subscription: subs, channels: chan },
            Action::CreateSamplesDelta { prev: s1, next: s2 },
            Action::Release { handle: s1 },
            Action::Release { handle: s2 },
        ]
    );
    assert!(!engine.is_ready());
    let mut it = engine.take_sample().unwrap();
    assert!(engine.take_sample().is_none());
    assert!(engine.is_ready());
    assert_eq!(it.sample(), 0x1060);
    assert_eq!(it.items(), 0xabc);
    assert_eq!(it.next(), Some(0));
    assert_eq!(it.next(), Some(1));
    assert_eq!(it.next(), Some(2));
    assert_eq!(it.next(), None);
    assert_eq!(it.next(), None);
    fw.release(it.sample());
    assert_eq!(fw.leaks(), 2);
    let first = engine.close();
    fw.run(&mut engine, first);
    assert_eq!(fw.leaks(), 0);
    assert!(fw.released_dead.is_empty());
}

#[test]
fn series_clamps_the_count() {
    for (asked, taken) in [(0usize, 1usize), (1, 1), (4, 4), (32, 32), (33, 32), (100, 32)] {
        let mut fw = Framework::new();
        let mut engine = build(&mut fw, Vec::new());
        let first = engine.get_samples(1000, asked);
        fw.run(&mut engine, first);
        let samples = engine.take_samples();
        assert_eq!(samples.len(), taken, "asked for {}", asked);
        assert_eq!(fw.slept_ms, (1000 / taken as u64) * taken as u64);
        drop_all(&mut fw, samples);
    }
    assert_eq!(MAX_SAMPLES, 32);
}

#[test]
fn series_steps_divide_the_duration() {
    let mut fw = Framework::new();
    let mut engine = build(&mut fw, Vec::new());
    fw.calls.clear();
    let first = engine.get_samples(1000, 3);
    assert_eq!(first, Action::CreateSamples { subscription: 0x1030, channels: 0x1020 });
    fw.run(&mut engine, first);
    let sleeps: Vec<u64> = fw
        .calls
        .iter()
        .filter_map(|a| match a {
            Action::Sleep { msec } => Some(*msec),
            _ => None,
        })
        .collect();
    assert_eq!(sleeps, vec![333, 333, 333]);
    let samples = engine.take_samples();
    let spans: Vec<u64> = samples.iter().map(|s| s.1).collect();
    assert_eq!(spans, vec![333, 333, 333]);
    drop_all(&mut fw, samples);
}

#[test]
fn series_intervals_leave_no_gap() {
    let mut fw = Framework::new();
    fw.jitter_ns = 1_700_000;
    let mut engine = build(&mut fw, vec![selector("Energy Model", None)]);
    let first = engine.get_samples(400, 4);
    fw.run(&mut engine, first);
    assert_eq!(fw.deltas.len(), 4);
    for k in 0..3 {
        assert_eq!(fw.deltas[k + 1].0, fw.deltas[k].1);
    }
    let samples = engine.take_samples();
    let total: u64 = samples.iter().map(|s| s.1).sum();
    assert_eq!(samples.iter().map(|s| s.1).collect::<Vec<u64>>(), vec![101, 101, 101, 101]);
    assert!(total >= 400 && total <= 400 + 4 * 2);
    drop_all(&mut fw, samples);
    // the next series goes on from where this one ended
    let last = fw.deltas[3].1;
    fw.clock_ns += 50_000_000;
    let first = engine.get_samples(100, 1);
    assert_eq!(first, Action::Sleep { msec: 100 });
    fw.run(&mut engine, first);
    assert_eq!(fw.deltas[4].0, last);
    let samples = engine.take_samples();
    assert_eq!(samples[0].1, 151);
    drop_all(&mut fw, samples);
}

#[test]
fn elapsed_time_is_at_least_one_millisecond() {
    let mut fw = Framework::new();
    let mut engine = build(&mut fw, Vec::new());
    let first = engine.get_samples(0, 2);
    fw.run(&mut engine, first);
    let samples = engine.take_samples();
    assert_eq!(samples.iter().map(|s| s.1).collect::<Vec<u64>>(), vec![1, 1]);
    drop_all(&mut fw, samples);
    // a clock that seems to go back still gives one millisecond
    let first = engine.get_samples(10, 1);
    let mut action = first;
    while action != Action::Finished {
        let event = match fw.perform(action) {
            Event::Sample(raw) => Event::Sample(RawSample { handle: raw.handle, at_ns: 0 }),
            other => other,
        };
        action = engine.resume(event);
    }
    let samples = engine.take_samples();
    assert_eq!(samples[0].1, 1);
    drop_all(&mut fw, samples);
}

#[test]
fn every_object_is_released_exactly_once() {
    let mut fw = Framework::new();
    let mut engine = build(
        &mut fw,
        vec![selector("Energy Model", None), selector("CPU Stats", None)],
    );
    let first = engine.get_sample(10);
    fw.run(&mut engine, first);
    let it = engine.take_sample().unwrap();
    fw.release(it.sample());
    for count in [3usize, 1, 40] {
        let first = engine.get_samples(90, count);
        fw.run(&mut engine, first);
        let samples = engine.take_samples();
        drop_all(&mut fw, samples);
        // the channels, the subscription and the raw sample carried over
        assert_eq!(fw.leaks(), 3);
    }
    let first = engine.close();
    assert!(matches!(first, Action::Release { .. }));
    fw.run(&mut engine, first);
    assert_eq!(engine.stage(), Stage::Closed);
    assert_eq!(fw.leaks(), 0);
    assert!(fw.released_dead.is_empty());
    assert_eq!(engine.close(), Action::Finished);
}

#[test]
fn teardown_releases_sample_then_subscription_then_channels() {
    let mut fw = Framework::new();
    let mut engine = build(&mut fw, Vec::new());
    let first = engine.get_samples(10, 1);
    fw.run(&mut engine, first);
    let samples = engine.take_samples();
    drop_all(&mut fw, samples);
    fw.calls.clear();
    let first = engine.close();
    fw.run(&mut engine, first);
    assert_eq!(
        fw.calls,
        vec![
            Action::Release { handle: 0x1050 },
            Action::Release { handle: 0x1030 },
            Action::Release { handle: 0x1020 },
        ]
    );
    // without a raw sample carried over, the subscription goes first
    let mut fw = Framework::new();
    let mut engine = build(&mut fw, Vec::new());
    fw.calls.clear();
    let first = engine.close();
    fw.run(&mut engine, first);
    assert_eq!(
        fw.calls,
        vec![Action::Release { handle: 0x1030 }, Action::Release { handle: 0x1020 }]
    );
}

#[test]
fn answers_of_the_wrong_kind_are_not_accepted() {
    let (mut engine, first) = IOReport::new(vec![selector("Energy Model", None)]);
    assert_eq!(first, Action::CopyChannelsInGroup { selector: 0 });
    assert!(!engine.accepts(&Event::Done));
    assert!(!engine.accepts(&Event::Flag(true)));
    assert!(engine.accepts(&Event::Handle(8)));
    assert_eq!(engine.resume(Event::Handle(8)), Action::CreateMutableCopy { of: 8 });
    assert!(engine.accepts(&Event::Handle(16)));
    assert_eq!(engine.resume(Event::Handle(16)), Action::Release { handle: 8 });
    assert!(!engine.accepts(&Event::Handle(1)));
    assert_eq!(engine.resume(Event::Done), Action::HasChannels { dict: 16 });
    assert!(!engine.accepts(&Event::Done));
    assert_eq!(engine.resume(Event::Flag(true)), Action::CreateSubscription { channels: 16 });
    assert_eq!(engine.resume(Event::Handle(24)), Action::Finished);
    assert!(!engine.accepts(&Event::Done));
    assert!(!engine.accepts(&Event::Handle(1)));
}

#[test]
fn missing_labels_become_empty_and_units_are_trimmed() {
    let item = IOReportIteratorItem::new(
        Some("Energy Model".to_string()),
        None,
        Some("CPU Energy".to_string()),
        "mJ  ",
        0x77,
    );
    assert_eq!(item.group, "Energy Model");
    assert_eq!(item.subgroup, "");
    assert_eq!(item.channel, "CPU Energy");
    assert_eq!(item.unit, "mJ");
    assert_eq!(item.item, 0x77);
    let item = IOReportIteratorItem::new(None, None, None, " \t", 0);
    assert_eq!((item.group.as_str(), item.subgroup.as_str(), item.channel.as_str()), ("", "", ""));
    assert_eq!(item.unit, "");
}

#[test]
fn cursor_visits_each_channel_once() {
    let mut it = IOReportIterator::new(0x50, 0x60, 2);
    assert_eq!(it.sample(), 0x50);
    assert_eq!(it.next(), Some(0));
    assert_eq!(it.next(), Some(1));
    assert_eq!(it.next(), None);
    let mut none = IOReportIterator::new(0x50, 0x60, 0);
    assert_eq!(none.next(), None);
    let mut odd = IOReportIterator::new(0x50, 0x60, -1);
    assert_eq!(odd.next(), None);
}

#[test]
fn energy_units_have_their_divisors() {
    assert_eq!(energy_divisor("mJ"), Ok(1_000));
    assert_eq!(energy_divisor("uJ"), Ok(1_000_000));
    assert_eq!(energy_divisor("nJ"), Ok(1_000_000_000));
    for unit in ["", "J", "mj", "MJ", "mJ ", "kJ", "24Mticks"] {
        assert_eq!(energy_divisor(unit), Err(Failure::UnknownEnergyUnit));
    }
}

fn watts(counter: i64, unit: &str, duration_ms: u64) -> f32 {
    let per_second = counter as f32 / (duration_ms as f32 / 1000.0);
    per_second / energy_divisor(unit).unwrap() as f32
}

#[test]
fn energy_over_one_second_in_millijoules_is_a_thousandth() {
    for c in [0i64, 1, 1000, 2500, 123_456] {
        assert_eq!(watts(c, "mJ", 1000), c as f32 / 1000.0);
    }
    assert_eq!(watts(5_000_000, "uJ", 500), 10.0);
    assert!((watts(3_000_000, "nJ", 1) - 3.0).abs() < 1e-5);
    assert!((watts(1500, "mJ", 100) - 15.0).abs() < 1e-5);
    assert!(watts(1500, "mJ", 100).is_finite() && watts(1500, "mJ", 100) >= 0.0);
}

#[test]
fn energy_channel_of_a_sampled_interval_gives_watts() {
    let mut fw = Framework::new();
    let mut engine = build(&mut fw, vec![selector("Energy Model", None)]);
    let first = engine.get_sample(100);
    fw.run(&mut engine, first);
    let mut cursor = engine.take_sample().unwrap();
    let counters = [(Some("Energy Model"), "CPU Energy", "mJ ", 1234i64), (None, "GPU", "nJ", 5)];
    let mut seen = 0;
    while let Some(at) = cursor.next() {
        if let Some(c) = counters.get(at as usize) {
            let item = IOReportIteratorItem::new(
                c.0.map(|g| g.to_string()),
                None,
                Some(c.1.to_string()),
                c.2,
                cursor.items() + at as usize,
            );
            if item.group == "Energy Model" {
                assert!(["mJ", "uJ", "nJ"].contains(&item.unit.as_str()));
                let w = watts(c.3, &item.unit, 100);
                assert!(w.is_finite() && w >= 0.0);
                assert!((w - 12.34).abs() < 1e-4);
                seen += 1;
            }
        }
    }
    assert_eq!(seen, 1);
    fw.release(cursor.sample());
}

#[test]
fn samples_are_not_handed_over_while_a_series_runs() {
    let mut fw = Framework::new();
    let mut engine = build(&mut fw, Vec::new());
    let mut action = engine.get_samples(30, 3);
    let mut checked = false;
    while action != Action::Finished {
        let event = fw.perform(action);
        action = engine.resume(event);
        if engine.stage() == Stage::SeriesRelease && !checked {
            assert!(engine.take_samples().is_empty());
            checked = true;
        }
    }
    assert!(checked);
    let samples = engine.take_samples();
    assert_eq!(samples.len(), 3);
    assert!(engine.take_samples().is_empty());
    drop_all(&mut fw, samples);
}

#[test]
fn spans_of_a_series_add_up_to_the_time_it_took() {
    for (jitter_ns, duration, count) in
        [(0u64, 1000u64, 7usize), (999_999, 100, 32), (1_500_000, 10, 3), (400_000, 0, 5)]
    {
        let mut fw = Framework::new();
        fw.jitter_ns = jitter_ns;
        let mut engine = build(&mut fw, Vec::new());
        let began_ns = fw.clock_ns;
        let first = engine.get_samples(duration, count);
        fw.run(&mut engine, first);
        let took_ms = (fw.clock_ns - began_ns) / 1_000_000;
        let samples = engine.take_samples();
        let step = duration / count as u64;
        let sum: u64 = samples.iter().map(|s| s.1).sum();
        assert!(samples.iter().all(|s| s.1 >= step.max(1)));
        assert!(sum >= count as u64 * step);
        assert!(sum + count as u64 > duration);
        assert!(sum <= took_ms + count as u64 && took_ms <= sum + count as u64);
        drop_all(&mut fw, samples);
    }
}

//! The IOReport sampling engine: which channels to subscribe to, how raw
//! samples are chained into intervals, and what a channel of a delta holds.
//!
//! Objects of the kernel and of the frameworks are known here by their
//! addresses, 0 standing for null. The engine decides which call comes next
//! and which object is released when; its caller makes each call and hands
//! back what came of it.

use crate::error::{Failure, WithError};
use crate::text::{same_text, trim, trimmed};
use vstd::prelude::*;

verus! {

/// The key under which a channel dictionary or a sample lists its channels.
pub const CHANNELS_KEY: &'static str = "IOReportChannels";

/// The most samples that one call for a series takes.
pub const MAX_SAMPLES: usize = 32;

/// The subscription of an engine, as the kernel knows it.
#[derive(Debug)]
pub struct IOReportSubscription {
    pub handle: usize,
}

/// One channel of a delta sample.
#[derive(Debug)]
pub struct IOReportIteratorItem {
    pub group: String,
    pub subgroup: String,
    pub channel: String,
    pub unit: String,
    /// The channel's dictionary, which belongs to the delta sample.
    pub item: usize,
}

/// The text of a label that may be missing: empty where it is.
pub open spec fn label(raw: Option<String>) -> Seq<char> {
    match raw {
        Some(s) => s@,
        None => Seq::empty(),
    }
}

/// The label that an accessor gave, empty where it gave null (`None`).
pub fn get_cf_string(raw: Option<String>) -> (s: String)
    ensures
        s@ == label(raw),
{
    match raw {
        Some(s) => s,
        None => String::new(),
    }
}

impl IOReportIteratorItem {
    /// The channel that the accessors describe: a label that came back null
    /// (`None`) is empty, and the unit label is trimmed.
    pub fn new(
        group: Option<String>,
        subgroup: Option<String>,
        channel: Option<String>,
        unit: &str,
        item: usize,
    ) -> (r: IOReportIteratorItem)
        ensures
            r.group@ == label(group),
            r.subgroup@ == label(subgroup),
            r.channel@ == label(channel),
            r.unit@ == trimmed(unit@),
            r.item == item,
    {
        IOReportIteratorItem {
            group: get_cf_string(group),
            subgroup: get_cf_string(subgroup),
            channel: get_cf_string(channel),
            unit: trim(unit),
            item,
        }
    }
}

/// The number by which a counter in this unit is divided to give joules.
pub open spec fn unit_divisor(unit: Seq<char>) -> Option<u32> {
    if unit == "mJ"@ {
        Some(1_000u32)
    } else if unit == "uJ"@ {
        Some(1_000_000u32)
    } else if unit == "nJ"@ {
        Some(1_000_000_000u32)
    } else {
        None
    }
}

/// The divisor that turns an energy counter into joules; power in watts is
/// the counter divided by the seconds that passed and by this.
pub fn energy_divisor(unit: &str) -> (r: WithError<u32>)
    ensures
        match r {
            Ok(d) => unit_divisor(unit@) == Some(d),
            Err(e) => e == Failure::UnknownEnergyUnit && unit_divisor(unit@) is None,
        },
{
    if same_text(unit, "mJ") {
        Ok(1_000)
    } else if same_text(unit, "uJ") {
        Ok(1_000_000)
    } else if same_text(unit, "nJ") {
        Ok(1_000_000_000)
    } else {
        Err(Failure::UnknownEnergyUnit)
    }
}

/// A cursor over the channels of one delta sample, which it owns: whoever
/// holds the cursor releases the sample at the cursor's end.
#[derive(Debug)]
pub struct IOReportIterator {
    sample: usize,
    index: isize,
    items: usize,
    items_size: isize,
}

/// A cursor as a mathematical value.
pub struct Cursor {
    pub sample: usize,
    pub index: int,
    pub items: usize,
    pub items_size: int,
}

impl View for IOReportIterator {
    type V = Cursor;

    closed spec fn view(&self) -> Cursor {
        Cursor {
            sample: self.sample,
            index: self.index as int,
            items: self.items,
            items_size: self.items_size as int,
        }
    }
}

impl IOReportIterator {
    /// A cursor at the first channel of the delta sample `data`, whose channel
    /// array `items` has `items_size` entries.
    pub fn new(data: usize, items: usize, items_size: isize) -> (r: IOReportIterator)
        ensures
            r@ == (Cursor { sample: data, index: 0, items, items_size: items_size as int }),
    {
        IOReportIterator { sample: data, index: 0, items, items_size }
    }

    /// The delta sample that the cursor owns.
    pub fn sample(&self) -> (h: usize)
        ensures
            h == self@.sample,
    {
        self.sample
    }

    /// The channel array of the sample, which belongs to the sample.
    pub fn items(&self) -> (h: usize)
        ensures
            h == self@.items,
    {
        self.items
    }

    /// The position of the next channel to read, if any is left; the cursor
    /// moves past it. Positions come in order, each once.
    pub fn next(&mut self) -> (r: Option<isize>)
        ensures
            old(self)@.index < old(self)@.items_size ==> r is Some && r->Some_0 as int == old(
                self,
            )@.index && final(self)@ == (Cursor { index: old(self)@.index + 1, ..old(self)@ }),
            old(self)@.index >= old(self)@.items_size ==> r is None && final(self)@ == old(self)@,
    {
        if self.index >= self.items_size {
            return None;
        }
        let at = self.index;
        self.index = self.index + 1;
        Some(at)
    }
}

/// One group of channels to subscribe to, all of it or one subgroup.
#[derive(Debug, Clone)]
pub struct Selector {
    pub group: String,
    pub subgroup: Option<String>,
}

/// A raw sample: the kernel's snapshot, and when it was taken, in nanoseconds
/// of a clock that never goes back.
#[derive(Debug, Clone, Copy, PartialEq, Eq, Structural)]
pub struct RawSample {
    pub handle: usize,
    pub at_ns: u64,
}

/// The call that the engine wants made next.
#[derive(Debug, Clone, Copy, PartialEq, Eq, Structural)]
pub enum Action {
    /// Copy the dictionary of all channels; answer with [`Event::Handle`].
    CopyAllChannels,
    /// Copy the channels of the group of this selector, with a null subgroup
    /// where it names none; answer with [`Event::Handle`].
    CopyChannelsInGroup { selector: usize },
    /// Merge the channels of `from` into `into`; answer with [`Event::Done`].
    MergeChannels { into: usize, from: usize },
    /// Make a mutable copy of a dictionary; answer with [`Event::Handle`].
    CreateMutableCopy { of: usize },
    /// Look for [`CHANNELS_KEY`] in a dictionary; answer with [`Event::Flag`].
    HasChannels { dict: usize },
    /// Create the subscription for the channels; answer with
    /// [`Event::Handle`], null included.
    CreateSubscription { channels: usize },
    /// Take a raw sample and read the clock; answer with [`Event::Sample`].
    CreateSamples { subscription: usize, channels: usize },
    /// Sleep on the calling thread; answer with [`Event::Done`].
    Sleep { msec: u64 },
    /// Take the difference of two raw samples and look up its channel array;
    /// answer with [`Event::Delta`].
    CreateSamplesDelta { prev: usize, next: usize },
    /// Release an object, once; answer with [`Event::Done`].
    Release { handle: usize },
    /// Nothing: the operation has ended.
    Finished,
}

/// What came of the call that the engine asked for.
#[derive(Debug, Clone, Copy, PartialEq, Eq, Structural)]
pub enum Event {
    /// The object that the call created.
    Handle(usize),
    /// The answer to a question.
    Flag(bool),
    /// The raw sample that was taken.
    Sample(RawSample),
    /// The delta sample that was made, its channel array and the array's length.
    Delta { handle: usize, items: usize, items_size: isize },
    /// The call was made.
    Done,
}

/// Where the engine stands, named by the answer it waits for.
#[derive(Debug, Clone, Copy, PartialEq, Eq, Structural)]
pub enum Stage {
    /// The copy of one more group of channels (or of all channels).
    Copying,
    /// The merge of copy number `at` into the first.
    Merging { at: usize },
    /// The mutable copy of the merged channels.
    Duplicating,
    /// The release of copy number `at`.
    Discarding { at: usize },
    /// Whether the channels hold a channel list.
    Checking,
    /// The subscription.
    Subscribing,
    /// The release of the channels after a failure.
    Abandoning { why: Failure },
    /// Nothing: the engine could not be built.
    Failed { why: Failure },
    /// Nothing: the engine is ready to sample.
    Ready,
    /// The first raw sample of a single interval of `msec` milliseconds.
    SampleFirst { msec: u64 },
    /// The end of the sleep of a single interval.
    SampleSleep { first: RawSample },
    /// The second raw sample of a single interval.
    SampleSecond { first: RawSample },
    /// The delta of a single interval.
    SampleDelta { first: RawSample, second: RawSample },
    /// The release of the first raw sample of a single interval.
    SampleRelease { second: RawSample },
    /// The release of the second raw sample of a single interval.
    SampleReleased,
    /// The raw sample that a first series starts from.
    SeriesInitial,
    /// The end of the sleep of one step of a series.
    SeriesSleep,
    /// The raw sample that ends one step of a series.
    SeriesCapture,
    /// The delta of one step of a series, which `next` ends.
    SeriesDelta { next: RawSample },
    /// The release of the raw sample that one step of a series began with.
    SeriesRelease,
    /// The release of the raw sample kept for the next series.
    ClosingPrev,
    /// The release of the subscription.
    ClosingSubs,
    /// The release of the channels.
    ClosingChan,
    /// Nothing: the engine has let go of everything.
    Closed,
}

/// The engine as a mathematical value.
pub struct Engine {
    /// The groups of channels asked for.
    pub selectors: Seq<Selector>,
    /// The copies of channels gathered while building.
    pub copies: Seq<usize>,
    /// The channel descriptor.
    pub chan: usize,
    /// The subscription.
    pub subs: usize,
    /// The raw sample that the next series starts from.
    pub prev: Option<RawSample>,
    /// What the engine waits for.
    pub stage: Stage,
    /// The sleep before each sample of the series under way.
    pub step_msec: u64,
    /// The samples that the series under way has yet to take.
    pub remaining: nat,
    /// The samples that the series under way takes in all.
    pub target: nat,
    /// The delta of the last single interval, until it is taken.
    pub sample: Option<Cursor>,
    /// The deltas of the last series with the milliseconds that each spans,
    /// until they are taken.
    pub samples: Seq<(Cursor, u64)>,
}

/// The number of samples that a series takes when `count` are asked for.
pub open spec fn clamp_count(count: usize) -> nat {
    if count < 1 {
        1
    } else if count > MAX_SAMPLES {
        MAX_SAMPLES as nat
    } else {
        count as nat
    }
}

/// The whole milliseconds between two raw samples, at least one.
pub open spec fn elapsed_ms(prev: RawSample, next: RawSample) -> u64 {
    if next.at_ns - prev.at_ns >= 1_000_000 {
        ((next.at_ns - prev.at_ns) / 1_000_000) as u64
    } else {
        1
    }
}

impl Engine {
    /// The engine that starts to build its channels, and its first call: all
    /// channels where no group is asked for.
    pub open spec fn begin(selectors: Seq<Selector>) -> (Engine, Action) {
        (
            Engine {
                selectors,
                copies: Seq::empty(),
                chan: 0,
                subs: 0,
                prev: None,
                stage: Stage::Copying,
                step_msec: 0,
                remaining: 0,
                target: 0,
                sample: None,
                samples: Seq::empty(),
            },
            if selectors.len() == 0 {
                Action::CopyAllChannels
            } else {
                Action::CopyChannelsInGroup { selector: 0 }
            },
        )
    }

    /// The number of copies that building gathers.
    pub open spec fn wanted(self) -> nat {
        if self.selectors.len() == 0 {
            1
        } else {
            self.selectors.len()
        }
    }

    /// Merges the copies from number `at` on into the first, then asks for
    /// the mutable copy.
    pub open spec fn merge_from(self, at: int) -> (Engine, Action) {
        if at < self.copies.len() {
            (
                Engine { stage: Stage::Merging { at: at as usize }, ..self },
                Action::MergeChannels { into: self.copies[0], from: self.copies[at] },
            )
        } else {
            (
                Engine { stage: Stage::Duplicating, ..self },
                Action::CreateMutableCopy { of: self.copies[0] },
            )
        }
    }

    /// Releases the copies from number `at` on, then goes on to the
    /// subscription: directly for all channels, by way of the check for a
    /// channel list for chosen groups.
    pub open spec fn discard_from(self, at: int) -> (Engine, Action) {
        if at < self.copies.len() {
            (
                Engine { stage: Stage::Discarding { at: at as usize }, ..self },
                Action::Release { handle: self.copies[at] },
            )
        } else if self.selectors.len() == 0 {
            (
                Engine { copies: Seq::empty(), stage: Stage::Subscribing, ..self },
                Action::CreateSubscription { channels: self.chan },
            )
        } else {
            (
                Engine { copies: Seq::empty(), stage: Stage::Checking, ..self },
                Action::HasChannels { dict: self.chan },
            )
        }
    }

    /// Goes on with a series: one more step, or its end.
    pub open spec fn series_next(self) -> (Engine, Action) {
        if self.remaining > 0 {
            (
                Engine { stage: Stage::SeriesSleep, ..self },
                Action::Sleep { msec: self.step_msec },
            )
        } else {
            (Engine { stage: Stage::Ready, ..self }, Action::Finished)
        }
    }

    /// The call that takes a raw sample.
    pub open spec fn capture(self) -> Action {
        Action::CreateSamples { subscription: self.subs, channels: self.chan }
    }

    /// Whether a series is under way.
    pub open spec fn running(self) -> bool {
        self.stage is SeriesInitial || self.stage is SeriesSleep || self.stage is SeriesCapture
            || self.stage is SeriesDelta || self.stage is SeriesRelease
    }

    /// Whether the engine has handed over what its last operation made.
    pub open spec fn emptied(self) -> bool {
        self.sample is None && self.samples.len() == 0
    }

    /// The engine and its call when a single interval of `msec` milliseconds
    /// is asked for.
    pub open spec fn get_sample(self, msec: u64) -> (Engine, Action) {
        (Engine { stage: Stage::SampleFirst { msec }, ..self }, self.capture())
    }

    /// The engine and its call when a series of `count` samples over
    /// `duration` milliseconds is asked for: it starts from the raw sample
    /// that the last series ended with, where there is one.
    pub open spec fn get_samples(self, duration: u64, count: usize) -> (Engine, Action) {
        let n = clamp_count(count);
        let s = Engine {
            step_msec: (duration as nat / n) as u64,
            remaining: n,
            target: n,
            ..self
        };
        if self.prev is None {
            (Engine { stage: Stage::SeriesInitial, ..s }, s.capture())
        } else {
            (Engine { stage: Stage::SeriesSleep, ..s }, Action::Sleep { msec: s.step_msec })
        }
    }

    /// The engine and its call when it is told to let go: of the raw sample
    /// it kept, then of the subscription, then of the channels. An engine
    /// that was never built holds nothing.
    pub open spec fn close(self) -> (Engine, Action) {
        if self.stage != Stage::Ready {
            (self, Action::Finished)
        } else if self.prev is Some {
            (
                Engine { prev: None, stage: Stage::ClosingPrev, ..self },
                Action::Release { handle: self.prev->Some_0.handle },
            )
        } else {
            (
                Engine { stage: Stage::ClosingSubs, ..self },
                Action::Release { handle: self.subs },
            )
        }
    }

    /// Whether `ev` answers the call that the engine waits for.
    pub open spec fn accepts(self, ev: Event) -> bool {
        match self.stage {
            Stage::Copying | Stage::Duplicating | Stage::Subscribing => ev is Handle,
            Stage::Checking => ev is Flag,
            Stage::SampleFirst { .. }
            | Stage::SampleSecond { .. }
            | Stage::SeriesInitial
            | Stage::SeriesCapture => ev is Sample,
            Stage::SampleDelta { .. } | Stage::SeriesDelta { .. } => ev is Delta,
            Stage::Failed { .. } | Stage::Ready | Stage::Closed => false,
            _ => ev is Done,
        }
    }

    /// The engine and its next call after the answer `ev`.
    pub open spec fn resume(self, ev: Event) -> (Engine, Action) {
        match self.stage {
            Stage::Copying => {
                let s = Engine { copies: self.copies.push(ev->Handle_0), ..self };
                if s.copies.len() < s.wanted() {
                    (s, Action::CopyChannelsInGroup { selector: s.copies.len() as usize })
                } else {
                    s.merge_from(1)
                }
            },
            Stage::Merging { at } => self.merge_from(at + 1),
            Stage::Duplicating => Engine { chan: ev->Handle_0, ..self }.discard_from(0),
            Stage::Discarding { at } => self.discard_from(at + 1),
            Stage::Checking => if ev->Flag_0 {
                (
                    Engine { stage: Stage::Subscribing, ..self },
                    Action::CreateSubscription { channels: self.chan },
                )
            } else {
                (
                    Engine {
                        stage: Stage::Abandoning { why: Failure::ChannelLookupFailed },
                        ..self
                    },
                    Action::Release { handle: self.chan },
                )
            },
            Stage::Subscribing => if ev->Handle_0 == 0 {
                (
                    Engine {
                        stage: Stage::Abandoning { why: Failure::SubscriptionFailed },
                        ..self
                    },
                    Action::Release { handle: self.chan },
                )
            } else {
                (Engine { subs: ev->Handle_0, stage: Stage::Ready, ..self }, Action::Finished)
            },
            Stage::Abandoning { why } => (
                Engine { stage: Stage::Failed { why }, ..self },
                Action::Finished,
            ),
            Stage::SampleFirst { msec } => (
                Engine { stage: Stage::SampleSleep { first: ev->Sample_0 }, ..self },
                Action::Sleep { msec },
            ),
            Stage::SampleSleep { first } => (
                Engine { stage: Stage::SampleSecond { first }, ..self },
                self.capture(),
            ),
            Stage::SampleSecond { first } => (
                Engine { stage: Stage::SampleDelta { first, second: ev->Sample_0 }, ..self },
                Action::CreateSamplesDelta { prev: first.handle, next: ev->Sample_0.handle },
            ),
            Stage::SampleDelta { first, second } => (
                Engine {
                    sample: Some(
                        Cursor {
                            sample: ev->Delta_handle,
                            index: 0,
                            items: ev->Delta_items,
                            items_size: ev->Delta_items_size as int,
                        },
                    ),
                    stage: Stage::SampleRelease { second },
                    ..self
                },
                Action::Release { handle: first.handle },
            ),
            Stage::SampleRelease { second } => (
                Engine { stage: Stage::SampleReleased, ..self },
                Action::Release { handle: second.handle },
            ),
            Stage::SampleReleased => (Engine { stage: Stage::Ready, ..self }, Action::Finished),
            Stage::SeriesInitial => (
                Engine { prev: Some(ev->Sample_0), stage: Stage::SeriesSleep, ..self },
                Action::Sleep { msec: self.step_msec },
            ),
            Stage::SeriesSleep => (Engine { stage: Stage::SeriesCapture, ..self }, self.capture()),
            Stage::SeriesCapture => (
                Engine { stage: Stage::SeriesDelta { next: ev->Sample_0 }, ..self },
                Action::CreateSamplesDelta {
                    prev: self.prev->Some_0.handle,
                    next: ev->Sample_0.handle,
                },
            ),
            Stage::SeriesDelta { next } => (
                Engine {
                    prev: Some(next),
                    samples: self.samples.push(
                        (
                            Cursor {
                                sample: ev->Delta_handle,
                                index: 0,
                                items: ev->Delta_items,
                                items_size: ev->Delta_items_size as int,
                            },
                            elapsed_ms(self.prev->Some_0, next),
                        ),
                    ),
                    remaining: (self.remaining - 1) as nat,
                    stage: Stage::SeriesRelease,
                    ..self
                },
                Action::Release { handle: self.prev->Some_0.handle },
            ),
            Stage::SeriesRelease => self.series_next(),
            Stage::ClosingPrev => (
                Engine { stage: Stage::ClosingSubs, ..self },
                Action::Release { handle: self.subs },
            ),
            Stage::ClosingSubs => (
                Engine { stage: Stage::ClosingChan, ..self },
                Action::Release { handle: self.chan },
            ),
            Stage::ClosingChan => (Engine { stage: Stage::Closed, ..self }, Action::Finished),
            Stage::Failed { .. } | Stage::Ready | Stage::Closed => (self, Action::Finished),
        }
    }

    /// What holds of every engine: while building, the copies gathered are
    /// as many as the stage says and nothing has been sampled; in a series, a
    /// raw sample to start from is there, and the samples taken and those yet
    /// to take make the target; an engine that lets go keeps no raw sample.
    pub open spec fn wf(self) -> bool {
        &&& self.selectors.len() <= usize::MAX
        &&& self.copies.len() <= usize::MAX
        &&& match self.stage {
            Stage::Copying => self.copies.len() < self.wanted(),
            Stage::Merging { at } => 1 <= at < self.copies.len() == self.wanted(),
            Stage::Duplicating => self.copies.len() == self.wanted(),
            Stage::Discarding { at } => at < self.copies.len(),
            Stage::SeriesInitial => self.prev is None && self.remaining > 0,
            Stage::SeriesSleep | Stage::SeriesCapture | Stage::SeriesDelta { .. } => self.prev
                is Some && self.remaining > 0,
            Stage::SeriesRelease => self.prev is Some,
            Stage::Checking | Stage::Subscribing | Stage::Abandoning { .. } | Stage::Failed { .. } =>
                self.copies.len() == 0,
            _ => true,
        }
        &&& match self.stage {
            Stage::Copying
            | Stage::Merging { .. }
            | Stage::Duplicating
            | Stage::Discarding { .. }
            | Stage::Checking
            | Stage::Subscribing
            | Stage::Abandoning { .. }
            | Stage::Failed { .. } => self.prev is None && self.emptied(),
            Stage::SampleFirst { .. }
            | Stage::SampleSleep { .. }
            | Stage::SampleSecond { .. }
            | Stage::SampleDelta { .. } => self.sample is None,
            Stage::ClosingPrev | Stage::ClosingSubs | Stage::ClosingChan | Stage::Closed =>
                self.prev is None,
            _ => true,
        }
        &&& match self.stage {
            Stage::SeriesInitial
            | Stage::SeriesSleep
            | Stage::SeriesCapture
            | Stage::SeriesDelta { .. }
            | Stage::SeriesRelease => self.samples.len() + self.remaining == self.target
                && self.target <= MAX_SAMPLES,
            _ => true,
        }
    }
}

/// The sampling engine: the channels and the subscription that it owns, the
/// raw sample that it carries from one series to the next, and the operation
/// under way.
pub struct IOReport {
    selectors: Vec<Selector>,
    copies: Vec<usize>,
    chan: usize,
    subs: usize,
    prev: Option<RawSample>,
    stage: Stage,
    step_msec: u64,
    remaining: usize,
    target: usize,
    sample: Option<IOReportIterator>,
    samples: Vec<(IOReportIterator, u64)>,
}

impl View for IOReport {
    type V = Engine;

    closed spec fn view(&self) -> Engine {
        Engine {
            selectors: self.selectors@,
            copies: self.copies@,
            chan: self.chan,
            subs: self.subs,
            prev: self.prev,
            stage: self.stage,
            step_msec: self.step_msec,
            remaining: self.remaining as nat,
            target: self.target as nat,
            sample: match self.sample {
                Some(c) => Some(c@),
                None => None,
            },
            samples: self.samples@.map_values(|r: (IOReportIterator, u64)| (r.0@, r.1)),
        }
    }
}

fn elapsed(prev: RawSample, next: RawSample) -> (ms: u64)
    ensures
        ms == elapsed_ms(prev, next),
{
    if next.at_ns >= prev.at_ns && next.at_ns - prev.at_ns >= 1_000_000 {
        (next.at_ns - prev.at_ns) / 1_000_000
    } else {
        1
    }
}

impl IOReport {
    /// An engine for these groups of channels, and the first call to make.
    pub fn new(channels: Vec<Selector>) -> (r: (IOReport, Action))
        ensures
            r.0@ == Engine::begin(channels@).0,
            r.1 == Engine::begin(channels@).1,
            r.0@.wf(),
    {
        let first = if channels.len() == 0 {
            Action::CopyAllChannels
        } else {
            Action::CopyChannelsInGroup { selector: 0 }
        };
        let engine = IOReport {
            selectors: channels,
            copies: Vec::new(),
            chan: 0,
            subs: 0,
            prev: None,
            stage: Stage::Copying,
            step_msec: 0,
            remaining: 0,
            target: 0,
            sample: None,
            samples: Vec::new(),
        };
        assert(engine@.samples =~= Seq::empty());
        (engine, first)
    }

    /// The group of channels that [`Action::CopyChannelsInGroup`] speaks of,
    /// if there is one of that number.
    pub fn selector(&self, index: usize) -> (r: Option<&Selector>)
        ensures
            index < self@.selectors.len() ==> r == Some(&self@.selectors[index as int]),
            index >= self@.selectors.len() ==> r is None,
    {
        if index < self.selectors.len() {
            Some(&self.selectors[index])
        } else {
            None
        }
    }

    /// What the engine waits for.
    pub fn stage(&self) -> (r: Stage)
        ensures
            r == self@.stage,
    {
        self.stage
    }

    /// Whether the engine was built: the failure where it was not.
    pub fn built(&self) -> (r: WithError<()>)
        ensures
            match self@.stage {
                Stage::Failed { why } => r == Err::<(), Failure>(why),
                _ => r is Ok,
            },
    {
        match self.stage {
            Stage::Failed { why } => Err(why),
            _ => Ok(()),
        }
    }

    /// The subscription that the engine owns.
    pub fn subscription(&self) -> (r: IOReportSubscription)
        ensures
            r.handle == self@.subs,
    {
        IOReportSubscription { handle: self.subs }
    }

    /// Whether a new operation can start: the engine is ready and what the
    /// last operation made has been taken.
    pub fn is_ready(&self) -> (yes: bool)
        ensures
            yes == (self@.stage == Stage::Ready && self@.emptied()),
    {
        let ready = match self.stage {
            Stage::Ready => true,
            _ => false,
        };
        ready && self.sample.is_none() && self.samples.len() == 0
    }

    /// Whether [`IOReport::resume`] can take the answer `ev` in.
    pub fn accepts(&self, ev: &Event) -> (yes: bool)
        ensures
            yes == self@.accepts(*ev),
    {
        match self.stage {
            Stage::Copying | Stage::Duplicating | Stage::Subscribing => match ev {
                Event::Handle(_) => true,
                _ => false,
            },
            Stage::Checking => match ev {
                Event::Flag(_) => true,
                _ => false,
            },
            Stage::SampleFirst { .. }
            | Stage::SampleSecond { .. }
            | Stage::SeriesInitial
            | Stage::SeriesCapture => match ev {
                Event::Sample(_) => true,
                _ => false,
            },
            Stage::SampleDelta { .. } | Stage::SeriesDelta { .. } => match ev {
                Event::Delta { .. } => true,
                _ => false,
            },
            Stage::Failed { .. } | Stage::Ready | Stage::Closed => false,
            _ => match ev {
                Event::Done => true,
                _ => false,
            },
        }
    }

    fn capture(&self) -> (a: Action)
        ensures
            a == self@.capture(),
    {
        Action::CreateSamples { subscription: self.subs, channels: self.chan }
    }

    fn merge_from(&mut self, at: usize) -> (a: Action)
        requires
            1 <= at,
            old(self)@.copies.len() >= 1,
        ensures
            final(self)@ == old(self)@.merge_from(at as int).0,
            a == old(self)@.merge_from(at as int).1,
    {
        if at < self.copies.len() {
            self.stage = Stage::Merging { at };
            Action::MergeChannels { into: self.copies[0], from: self.copies[at] }
        } else {
            self.stage = Stage::Duplicating;
            Action::CreateMutableCopy { of: self.copies[0] }
        }
    }

    fn discard_from(&mut self, at: usize) -> (a: Action)
        ensures
            final(self)@ == old(self)@.discard_from(at as int).0,
            a == old(self)@.discard_from(at as int).1,
    {
        if at < self.copies.len() {
            self.stage = Stage::Discarding { at };
            Action::Release { handle: self.copies[at] }
        } else if self.selectors.len() == 0 {
            self.copies = Vec::new();
            self.stage = Stage::Subscribing;
            Action::CreateSubscription { channels: self.chan }
        } else {
            self.copies = Vec::new();
            self.stage = Stage::Checking;
            Action::HasChannels { dict: self.chan }
        }
    }

    fn series_next(&mut self) -> (a: Action)
        ensures
            final(self)@ == old(self)@.series_next().0,
            a == old(self)@.series_next().1,
    {
        if self.remaining > 0 {
            self.stage = Stage::SeriesSleep;
            Action::Sleep { msec: self.step_msec }
        } else {
            self.stage = Stage::Ready;
            Action::Finished
        }
    }

    /// Starts a single interval: a raw sample, a sleep of `duration`
    /// milliseconds, a second raw sample, their delta, and the release of
    /// both raw samples. The delta is then there to take.
    pub fn get_sample(&mut self, duration: u64) -> (a: Action)
        requires
            old(self)@.wf(),
            old(self)@.stage == Stage::Ready,
            old(self)@.emptied(),
        ensures
            final(self)@ == old(self)@.get_sample(duration).0,
            a == old(self)@.get_sample(duration).1,
            final(self)@.wf(),
    {
        self.stage = Stage::SampleFirst { msec: duration };
        self.capture()
    }

    /// The delta of the last single interval, if it has not been taken; it
    /// is the taker's to release.
    pub fn take_sample(&mut self) -> (r: Option<IOReportIterator>)
        ensures
            final(self)@ == (Engine { sample: None, ..old(self)@ }),
            old(self)@.wf() ==> final(self)@.wf(),
            match r {
                Some(c) => old(self)@.sample == Some(c@),
                None => old(self)@.sample is None,
            },
    {
        self.sample.take()
    }

    /// Starts a series of `count` samples, at least 1 and at most
    /// [`MAX_SAMPLES`], over `duration` milliseconds in all. The deltas are
    /// then there to take.
    pub fn get_samples(&mut self, duration: u64, count: usize) -> (a: Action)
        requires
            old(self)@.wf(),
            old(self)@.stage == Stage::Ready,
            old(self)@.emptied(),
        ensures
            final(self)@ == old(self)@.get_samples(duration, count).0,
            a == old(self)@.get_samples(duration, count).1,
            final(self)@.wf(),
    {
        let n: usize = if count < 1 {
            1
        } else if count > MAX_SAMPLES {
            MAX_SAMPLES
        } else {
            count
        };
        self.step_msec = duration / (n as u64);
        self.remaining = n;
        self.target = n;
        if self.prev.is_none() {
            self.stage = Stage::SeriesInitial;
            self.capture()
        } else {
            self.stage = Stage::SeriesSleep;
            Action::Sleep { msec: self.step_msec }
        }
    }

    /// The deltas of the last series, each with the milliseconds that it
    /// spans, in the order in which they were taken; they are the taker's to
    /// release. While a series is under way nothing is handed over.
    pub fn take_samples(&mut self) -> (r: Vec<(IOReportIterator, u64)>)
        ensures
            old(self)@.running() ==> r@.len() == 0 && final(self)@ == old(self)@,
            !old(self)@.running() ==> final(self)@ == (Engine {
                samples: Seq::empty(),
                ..old(self)@
            }) && r@.map_values(|r: (IOReportIterator, u64)| (r.0@, r.1)) == old(self)@.samples,
            old(self)@.wf() ==> final(self)@.wf(),
    {
        let mut out: Vec<(IOReportIterator, u64)> = Vec::new();
        match self.stage {
            Stage::SeriesInitial
            | Stage::SeriesSleep
            | Stage::SeriesCapture
            | Stage::SeriesDelta { .. }
            | Stage::SeriesRelease => {},
            _ => {
                core::mem::swap(&mut self.samples, &mut out);
                assert(self@.samples =~= Seq::empty());
            },
        }
        out
    }

    /// Starts to let go of what a ready engine owns. An engine that was not
    /// built, or has let go already, holds nothing; one in the middle of an
    /// operation is left as it is.
    pub fn close(&mut self) -> (a: Action)
        requires
            old(self)@.wf(),
        ensures
            final(self)@ == old(self)@.close().0,
            a == old(self)@.close().1,
            final(self)@.wf(),
    {
        match self.stage {
            Stage::Ready => match self.prev {
                Some(p) => {
                    self.prev = None;
                    self.stage = Stage::ClosingPrev;
                    Action::Release { handle: p.handle }
                },
                None => {
                    self.stage = Stage::ClosingSubs;
                    Action::Release { handle: self.subs }
                },
            },
            _ => Action::Finished,
        }
    }

    /// Takes in the answer to the call that the engine asked for, and gives
    /// the next call.
    pub fn resume(&mut self, ev: Event) -> (a: Action)
        requires
            old(self)@.wf(),
            old(self)@.accepts(ev),
        ensures
            final(self)@ == old(self)@.resume(ev).0,
            a == old(self)@.resume(ev).1,
            final(self)@.wf(),
    {
        match (self.stage, ev) {
            (Stage::Copying, Event::Handle(h)) => {
                self.copies.push(h);
                let wanted: usize = if self.selectors.len() == 0 {
                    1
                } else {
                    self.selectors.len()
                };
                if self.copies.len() < wanted {
                    Action::CopyChannelsInGroup { selector: self.copies.len() }
                } else {
                    self.merge_from(1)
                }
            },
            (Stage::Merging { at }, _) => {
                assert(at < self.copies.len());
                self.merge_from(at + 1)
            },
            (Stage::Duplicating, Event::Handle(h)) => {
                self.chan = h;
                self.discard_from(0)
            },
            (Stage::Discarding { at }, _) => {
                assert(at < self.copies.len());
                self.discard_from(at + 1)
            },
            (Stage::Checking, Event::Flag(found)) => {
                if found {
                    self.stage = Stage::Subscribing;
                    Action::CreateSubscription { channels: self.chan }
                } else {
                    self.stage = Stage::Abandoning { why: Failure::ChannelLookupFailed };
                    Action::Release { handle: self.chan }
                }
            },
            (Stage::Subscribing, Event::Handle(h)) => {
                if h == 0 {
                    self.stage = Stage::Abandoning { why: Failure::SubscriptionFailed };
                    Action::Release { handle: self.chan }
                } else {
                    self.subs = h;
                    self.stage = Stage::Ready;
                    Action::Finished
                }
            },
            (Stage::Abandoning { why }, _) => {
                self.stage = Stage::Failed { why };
                Action::Finished
            },
            (Stage::SampleFirst { msec }, Event::Sample(first)) => {
                self.stage = Stage::SampleSleep { first };
                Action::Sleep { msec }
            },
            (Stage::SampleSleep { first }, _) => {
                self.stage = Stage::SampleSecond { first };
                self.capture()
            },
            (Stage::SampleSecond { first }, Event::Sample(second)) => {
                self.stage = Stage::SampleDelta { first, second };
                Action::CreateSamplesDelta { prev: first.handle, next: second.handle }
            },
            (Stage::SampleDelta { first, second }, Event::Delta { handle, items, items_size }) => {
                self.sample = Some(IOReportIterator::new(handle, items, items_size));
                self.stage = Stage::SampleRelease { second };
                Action::Release { handle: first.handle }
            },
            (Stage::SampleRelease { second }, _) => {
                self.stage = Stage::SampleReleased;
                Action::Release { handle: second.handle }
            },
            (Stage::SampleReleased, _) => {
                self.stage = Stage::Ready;
                Action::Finished
            },
            (Stage::SeriesInitial, Event::Sample(first)) => {
                self.prev = Some(first);
                self.stage = Stage::SeriesSleep;
                Action::Sleep { msec: self.step_msec }
            },
            (Stage::SeriesSleep, _) => {
                self.stage = Stage::SeriesCapture;
                self.capture()
            },
            (Stage::SeriesCapture, Event::Sample(next)) => {
                let prev = match self.prev {
                    Some(p) => p,
                    None => next,
                };
                self.stage = Stage::SeriesDelta { next };
                Action::CreateSamplesDelta { prev: prev.handle, next: next.handle }
            },
            (Stage::SeriesDelta { next }, Event::Delta { handle, items, items_size }) => {
                let prev = match self.prev {
                    Some(p) => p,
                    None => next,
                };
                let span = elapsed(prev, next);
                self.prev = Some(next);
                let ghost before = self@.samples;
                self.samples.push((IOReportIterator::new(handle, items, items_size), span));
                assert(self@.samples =~= before.push(
                    (
                        Cursor { sample: handle, index: 0, items, items_size: items_size as int },
                        span,
                    ),
                ));
                self.remaining = self.remaining - 1;
                self.stage = Stage::SeriesRelease;
                Action::Release { handle: prev.handle }
            },
            (Stage::SeriesRelease, _) => self.series_next(),
            (Stage::ClosingPrev, _) => {
                self.stage = Stage::ClosingSubs;
                Action::Release { handle: self.subs }
            },
            (Stage::ClosingSubs, _) => {
                self.stage = Stage::ClosingChan;
                Action::Release { handle: self.chan }
            },
            (Stage::ClosingChan, _) => {
                self.stage = Stage::Closed;
                Action::Finished
            },
            _ => Action::Finished,
        }
    }
}

impl Engine {
    /// Whether a series of `n` samples is under way.
    pub open spec fn in_series(self, n: nat) -> bool {
        &&& self.wf()
        &&& self.target == n
        &&& self.running()
    }

    /// The answers that the series under way still takes before it ends.
    pub open spec fn steps_left(self) -> int {
        let left = self.remaining as int;
        match self.stage {
            Stage::SeriesInitial => 4 * left + 1,
            Stage::SeriesSleep => 4 * left,
            Stage::SeriesCapture => 4 * left - 1,
            Stage::SeriesDelta { .. } => 4 * left - 2,
            Stage::SeriesRelease => 4 * left + 1,
            _ => 0,
        }
    }
}

/// A series takes as many samples as were asked for, but at least one and at
/// most [`MAX_SAMPLES`], and starts with none taken.
pub proof fn lemma_series_starts(e: Engine, duration: u64, count: usize)
    requires
        e.wf(),
        e.stage == Stage::Ready,
        e.emptied(),
    ensures
        e.get_samples(duration, count).0.in_series(clamp_count(count)),
        e.get_samples(duration, count).0.samples.len() == 0,
        e.get_samples(duration, count).0.step_msec * clamp_count(count) <= duration,
        duration - clamp_count(count) < e.get_samples(duration, count).0.step_msec * clamp_count(
            count,
        ),
        1 <= clamp_count(count) <= MAX_SAMPLES,
        count == 0 ==> clamp_count(count) == 1,
        count >= MAX_SAMPLES ==> clamp_count(count) == MAX_SAMPLES,
        1 <= count <= MAX_SAMPLES ==> clamp_count(count) == count,
{
    let n = clamp_count(count) as int;
    assert((duration as int / n) * n <= duration && duration - n < (duration as int / n) * n)
        by (nonlinear_arith)
        requires
            n > 0,
            duration >= 0,
    ;
}

/// Every answer moves a series one step on, and the series ends with exactly
/// as many deltas as it set out to take.
pub proof fn lemma_series_runs(e: Engine, ev: Event, n: nat)
    requires
        e.in_series(n),
        e.accepts(ev),
    ensures
        ({
            let after = e.resume(ev).0;
            &&& after.wf()
            &&& after.steps_left() == e.steps_left() - 1
            &&& after.in_series(n) || (after.stage == Stage::Ready && after.samples.len() == n)
            &&& after.stage == Stage::Ready <==> e.steps_left() == 1
        }),
{
}

/// The intervals of a series leave no gap: the raw sample that ends one
/// interval is the one that the next interval starts from, and the one that a
/// later series starts from.
///
/// From the stage that waits for the end of an interval: the delta is taken
/// between the raw sample kept and the new one, it spans the time between the
/// two, the raw sample kept is released, and the new one is kept in its place,
/// through the sleep that follows and through the end of the series.
pub proof fn lemma_intervals_chain(e: Engine, next: RawSample, delta: Event, later: Event)
    requires
        e.wf(),
        e.stage == Stage::SeriesCapture,
        delta is Delta,
        later is Done,
    ensures
        ({
            let start = e.prev->Some_0;
            let (e1, a1) = e.resume(Event::Sample(next));
            let (e2, a2) = e1.resume(delta);
            let (e3, a3) = e2.resume(later);
            &&& a1 == Action::CreateSamplesDelta { prev: start.handle, next: next.handle }
            &&& a2 == Action::Release { handle: start.handle }
            &&& e2.samples.len() == e.samples.len() + 1
            &&& e2.samples.last().0.sample == delta->Delta_handle
            &&& e2.samples.last().1 == elapsed_ms(start, next)
            &&& e2.samples.last().1 >= 1
            &&& e2.prev == Some(next)
            &&& e3.prev == Some(next)
            &&& e3.stage == Stage::SeriesSleep ==> e3.resume(Event::Done).0.prev == Some(next)
            &&& e3.stage == Stage::Ready && e3.emptied() ==> forall|d: u64, c: usize|
                (#[trigger] e3.get_samples(d, c)).0.prev == Some(next) && e3.get_samples(d, c).1
                    == (Action::Sleep { msec: e3.get_samples(d, c).0.step_msec })
        }),
{
}

/// The raw sample that interval number `k` starts from: the one that the
/// series started from, or the capture before.
pub open spec fn stamp_before(start: RawSample, captures: Seq<RawSample>, k: int) -> RawSample {
    if k == 0 {
        start
    } else {
        captures[k - 1]
    }
}

/// The raw sample that a series ends with.
pub open spec fn last_stamp(start: RawSample, captures: Seq<RawSample>) -> RawSample {
    if captures.len() == 0 {
        start
    } else {
        captures.last()
    }
}

/// The spans of the intervals that a series of captures cuts, in milliseconds.
pub open spec fn spans(start: RawSample, captures: Seq<RawSample>) -> Seq<u64> {
    Seq::new(captures.len(), |k: int| elapsed_ms(stamp_before(start, captures, k), captures[k]))
}

/// The sum of spans.
pub open spec fn total_ms(spans: Seq<u64>) -> int
    decreases spans.len(),
{
    if spans.len() == 0 {
        0
    } else {
        total_ms(spans.drop_last()) + spans.last()
    }
}

/// Whether the clock never went back between two captures.
pub open spec fn monotonic(start: RawSample, captures: Seq<RawSample>) -> bool {
    forall|k: int|
        0 <= k < captures.len() ==> stamp_before(start, captures, k).at_ns <= (
        #[trigger] captures[k]).at_ns
}

/// Whether at least `msec` milliseconds lie between any two captures.
pub open spec fn spaced(start: RawSample, captures: Seq<RawSample>, msec: u64) -> bool {
    forall|k: int|
        0 <= k < captures.len() ==> (#[trigger] captures[k]).at_ns - stamp_before(
            start,
            captures,
            k,
        ).at_ns >= msec * 1_000_000
}

/// The delta that an answer brings, as a cursor at its first channel.
pub open spec fn cursor_of(delta: Event) -> Cursor {
    Cursor {
        sample: delta->Delta_handle,
        index: 0,
        items: delta->Delta_items,
        items_size: delta->Delta_items_size as int,
    }
}

impl Engine {
    /// The engine after one step of a series: the sleep is over, `next` is
    /// captured, `delta` is the difference, and the raw sample before is
    /// released.
    pub open spec fn step_series(self, next: RawSample, delta: Event) -> Engine {
        self.resume(Event::Done).0.resume(Event::Sample(next)).0.resume(delta).0.resume(
            Event::Done,
        ).0
    }

    /// The engine after the steps of a series that take these captures.
    pub open spec fn run_series(self, captures: Seq<RawSample>, deltas: Seq<Event>) -> Engine
        decreases captures.len(),
    {
        if captures.len() == 0 {
            self
        } else {
            self.run_series(captures.drop_last(), deltas.drop_last()).step_series(
                captures.last(),
                deltas.last(),
            )
        }
    }
}

/// The spans of a series add up to the time between its first and its last
/// raw sample, to within one millisecond for each interval: each span is that
/// of its interval cut down to whole milliseconds, and made one where it
/// would be none.
pub proof fn lemma_spans_total(start: RawSample, captures: Seq<RawSample>)
    requires
        monotonic(start, captures),
    ensures
        ({
            let whole = (last_stamp(start, captures).at_ns - start.at_ns) / 1_000_000;
            let sum = total_ms(spans(start, captures));
            &&& last_stamp(start, captures).at_ns >= start.at_ns
            &&& whole - captures.len() <= sum <= whole + captures.len()
            &&& (last_stamp(start, captures).at_ns - start.at_ns) - captures.len() * 1_000_000
                <= sum * 1_000_000 <= (last_stamp(start, captures).at_ns - start.at_ns)
                + captures.len() * 1_000_000
        }),
    decreases captures.len(),
{
    let c = captures.len() as int;
    if c > 0 {
        let head = captures.drop_last();
        assert forall|k: int| 0 <= k < head.len() implies stamp_before(start, head, k).at_ns <= (
        #[trigger] head[k]).at_ns by {
            assert(head[k] == captures[k]);
            assert(stamp_before(start, head, k) == stamp_before(start, captures, k));
        }
        lemma_spans_total(start, head);
        assert(spans(start, captures).drop_last() =~= spans(start, head));
        let from = stamp_before(start, captures, c - 1);
        let to = captures[c - 1];
        assert(from == last_stamp(start, head));
        assert(from.at_ns <= to.at_ns);
        let d = to.at_ns - from.at_ns;
        let e = elapsed_ms(from, to) as int;
        assert(spans(start, captures).last() == e);
        assert(d - 1_000_000 <= e * 1_000_000 <= d + 1_000_000);
        let gone = last_stamp(start, captures).at_ns - start.at_ns;
        let sum = total_ms(spans(start, captures));
        assert(gone - c * 1_000_000 <= sum * 1_000_000 <= gone + c * 1_000_000);
    } else {
        assert(spans(start, captures) =~= Seq::empty());
    }
}

/// Where at least `msec` milliseconds lie between any two captures, every
/// span is at least that, and at least one; so the spans add up to at least
/// `msec` for each interval.
pub proof fn lemma_spans_at_least(start: RawSample, captures: Seq<RawSample>, msec: u64)
    requires
        spaced(start, captures, msec),
    ensures
        forall|k: int|
            0 <= k < captures.len() ==> (#[trigger] spans(start, captures)[k]) >= msec && spans(
                start,
                captures,
            )[k] >= 1,
        total_ms(spans(start, captures)) >= captures.len() * msec,
        total_ms(spans(start, captures)) >= captures.len(),
    decreases captures.len(),
{
    let c = captures.len() as int;
    assert forall|k: int| 0 <= k < c implies (#[trigger] spans(start, captures)[k]) >= msec
        && spans(start, captures)[k] >= 1 by {
        let from = stamp_before(start, captures, k);
        let to = captures[k];
        assert(to.at_ns - from.at_ns >= msec * 1_000_000);
    }
    if c > 0 {
        let head = captures.drop_last();
        assert forall|k: int| 0 <= k < head.len() implies (#[trigger] head[k]).at_ns
            - stamp_before(start, head, k).at_ns >= msec * 1_000_000 by {
            assert(head[k] == captures[k]);
            assert(stamp_before(start, head, k) == stamp_before(start, captures, k));
        }
        lemma_spans_at_least(start, head, msec);
        assert(spans(start, captures).drop_last() =~= spans(start, head));
        assert(spans(start, captures).last() == spans(start, captures)[c - 1]);
        assert(c * msec == (c - 1) * msec + msec) by (nonlinear_arith);
    } else {
        assert(spans(start, captures) =~= Seq::empty());
    }
}

/// One step of a series adds the delta with the span between the raw sample
/// kept and the new one, keeps the new one, and counts one sample less to
/// take; nothing else changes.
pub proof fn lemma_series_step(e: Engine, next: RawSample, delta: Event)
    requires
        e.wf(),
        e.stage == Stage::SeriesSleep,
        delta is Delta,
    ensures
        ({
            let after = e.step_series(next, delta);
            &&& after.wf()
            &&& after == (Engine {
                prev: Some(next),
                samples: e.samples.push((cursor_of(delta), elapsed_ms(e.prev->Some_0, next))),
                remaining: (e.remaining - 1) as nat,
                stage: if e.remaining > 1 {
                    Stage::SeriesSleep
                } else {
                    Stage::Ready
                },
                ..e
            })
        }),
{
}

/// The deltas of a series span the intervals between its captures: run from
/// the stage before a sleep, with the raw sample `start` kept, the captures
/// of as many steps as are left add, in their order, each delta with the span
/// from the capture before to its own.
pub proof fn lemma_series_spans(e: Engine, captures: Seq<RawSample>, deltas: Seq<Event>)
    requires
        e.wf(),
        e.stage == Stage::SeriesSleep,
        captures.len() == deltas.len(),
        captures.len() <= e.remaining,
        forall|k: int| 0 <= k < deltas.len() ==> (#[trigger] deltas[k]) is Delta,
    ensures
        ({
            let after = e.run_series(captures, deltas);
            let start = e.prev->Some_0;
            &&& after.wf()
            &&& after.prev == Some(last_stamp(start, captures))
            &&& after.remaining == e.remaining - captures.len()
            &&& after.target == e.target
            &&& after.stage == if after.remaining > 0 || captures.len() == 0 {
                Stage::SeriesSleep
            } else {
                Stage::Ready
            }
            &&& after.samples == e.samples + Seq::new(
                captures.len(),
                |k: int| (cursor_of(deltas[k]), spans(start, captures)[k]),
            )
        }),
    decreases captures.len(),
{
    let c = captures.len() as int;
    let start = e.prev->Some_0;
    let after = e.run_series(captures, deltas);
    let added = Seq::new(captures.len(), |k: int| (cursor_of(deltas[k]), spans(start, captures)[k]));
    if c > 0 {
        let head = captures.drop_last();
        let head_deltas = deltas.drop_last();
        assert forall|k: int| 0 <= k < head_deltas.len() implies (#[trigger] head_deltas[k])
            is Delta by {
            assert(head_deltas[k] == deltas[k]);
        }
        lemma_series_spans(e, head, head_deltas);
        let before = e.run_series(head, head_deltas);
        assert(deltas.last() == deltas[c - 1]);
        lemma_series_step(before, captures.last(), deltas.last());
        let head_added = Seq::new(
            head.len(),
            |k: int| (cursor_of(head_deltas[k]), spans(start, head)[k]),
        );
        assert(last_stamp(start, head) == stamp_before(start, captures, c - 1));
        assert forall|k: int| 0 <= k < c - 1 implies head_added[k] == added[k] by {
            assert(head_deltas[k] == deltas[k]);
            assert(head[k] == captures[k]);
            assert(stamp_before(start, head, k) == stamp_before(start, captures, k));
        }
        assert(after.samples =~= e.samples + added);
    } else {
        assert(e.samples + added =~= e.samples);
    }
}

/// A whole series, measured: with a clock that never goes back, the spans of
/// its deltas add up to the milliseconds between the raw sample that it
/// started from and its last, to within one for each delta; and where every
/// sleep lasted the step at least, each span is the step at least, so that
/// the sum falls short of the duration asked for by less than the number of
/// deltas.
pub proof fn lemma_series_measured(
    e: Engine,
    captures: Seq<RawSample>,
    deltas: Seq<Event>,
    duration: u64,
)
    requires
        e.wf(),
        e.stage == Stage::SeriesSleep,
        e.samples.len() == 0,
        captures.len() == deltas.len() == e.remaining == e.target,
        e.step_msec == duration as nat / e.target,
        forall|k: int| 0 <= k < deltas.len() ==> (#[trigger] deltas[k]) is Delta,
        monotonic(e.prev->Some_0, captures),
    ensures
        ({
            let after = e.run_series(captures, deltas);
            let start = e.prev->Some_0;
            let sum = total_ms(after.samples.map_values(|r: (Cursor, u64)| r.1));
            let whole = (last_stamp(start, captures).at_ns - start.at_ns) / 1_000_000;
            &&& after.stage == Stage::Ready
            &&& after.samples.len() == e.target
            &&& after.samples.map_values(|r: (Cursor, u64)| r.1) == spans(start, captures)
            &&& whole - e.target <= sum <= whole + e.target
            &&& spaced(start, captures, e.step_msec) ==> sum >= e.target * e.step_msec && sum
                > duration - e.target
        }),
{
    let after = e.run_series(captures, deltas);
    let start = e.prev->Some_0;
    let n = e.target as int;
    lemma_series_spans(e, captures, deltas);
    assert(after.samples.map_values(|r: (Cursor, u64)| r.1) =~= spans(start, captures));
    lemma_spans_total(start, captures);
    if spaced(start, captures, e.step_msec) {
        lemma_spans_at_least(start, captures, e.step_msec);
        assert((duration as int / n) * n <= duration && duration - n < (duration as int / n) * n)
            by (nonlinear_arith)
            requires
                n > 0,
                duration >= 0,
        ;
    }
}

/// A series that is asked for comes to the stage before its first sleep with
/// nothing taken yet: at once where a raw sample was kept, else after the
/// capture `first` that it starts from. The step is the duration divided by
/// the number of samples, which is the number asked for, at least 1 and at
/// most [`MAX_SAMPLES`].
pub proof fn lemma_series_sets_out(e: Engine, duration: u64, count: usize, first: RawSample)
    requires
        e.wf(),
        e.stage == Stage::Ready,
        e.emptied(),
    ensures
        ({
            let asked = e.get_samples(duration, count).0;
            let ready = if e.prev is Some {
                asked
            } else {
                asked.resume(Event::Sample(first)).0
            };
            &&& asked.wf()
            &&& e.prev is None ==> asked.accepts(Event::Sample(first))
            &&& ready.wf()
            &&& ready.stage == Stage::SeriesSleep
            &&& ready.samples.len() == 0
            &&& ready.prev == if e.prev is Some {
                e.prev
            } else {
                Some(first)
            }
            &&& ready.remaining == ready.target == clamp_count(count)
            &&& ready.step_msec == duration as nat / ready.target
        }),
{
    let n = clamp_count(count) as int;
    assert(0 <= duration as int / n <= duration) by (nonlinear_arith)
        requires
            n > 0,
            duration >= 0,
    ;
}

} // verus!

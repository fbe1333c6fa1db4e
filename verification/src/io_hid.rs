//! The temperature sensors of the HID event system: which services to match,
//! and what becomes of what they report.

use crate::error::WithError;
use crate::text::{
    lemma_bytes_le_reflexive, lemma_bytes_le_total, lemma_bytes_le_transitive, str_le, text_le,
};
use vstd::prelude::*;
use vstd::utf8::*;

verus! {

/// The matching key for the usage page.
pub const PRIMARY_USAGE_PAGE: &'static str = "PrimaryUsagePage";

/// The matching key for the usage.
pub const PRIMARY_USAGE: &'static str = "PrimaryUsage";

/// The vendor's usage page.
pub const HID_PAGE_APPLE_VENDOR: i32 = 0xff00;

/// The usage of a temperature sensor on the vendor's page.
pub const HID_USAGE_TEMPERATURE_SENSOR: i32 = 0x0005;

/// The event type of a temperature reading.
pub const EVENT_TYPE_TEMPERATURE: i64 = 15;

/// The field of a temperature event that holds the reading: the event type in
/// the upper half of the word.
pub const EVENT_FIELD_TEMPERATURE: i32 = 0xf_0000;

/// The property that names a service.
pub const PRODUCT: &'static str = "Product";

/// What one service gave: its name, unless the service or the property was
/// null, and the bits of its reading in single precision, unless its event
/// was null.
#[derive(Debug, Clone)]
pub struct Probe {
    pub name: Option<String>,
    pub temperature: Option<u32>,
}

/// A reading as a mathematical value: the sensor's name and the bits of the
/// temperature.
pub type Reading = (Seq<char>, u32);

/// Whether a service gave both a name and a reading.
pub open spec fn complete(p: Probe) -> bool {
    p.name is Some && p.temperature is Some
}

/// The readings of the services that gave both a name and a reading, in the
/// order of the services.
pub open spec fn kept(probes: Seq<Probe>) -> Seq<Reading> {
    probes.filter(|p: Probe| complete(p)).map_values(
        |p: Probe| (p.name->Some_0@, p.temperature->Some_0),
    )
}

/// Where a reading named `name` goes in a sorted list: behind the last one
/// whose name is not greater.
pub open spec fn slot(s: Seq<Reading>, name: Seq<char>) -> int
    decreases s.len(),
{
    if s.len() == 0 || text_le(s.last().0, name) {
        s.len() as int
    } else {
        slot(s.drop_last(), name)
    }
}

/// The readings in the order of their names, those of one name in the order
/// in which they came.
pub open spec fn sorted_by_name(s: Seq<Reading>) -> Seq<Reading>
    decreases s.len(),
{
    if s.len() == 0 {
        Seq::empty()
    } else {
        let done = sorted_by_name(s.drop_last());
        done.insert(slot(done, s.last().0), s.last())
    }
}

/// Whether the names never go down along a list.
pub open spec fn ascending(s: Seq<Reading>) -> bool {
    forall|i: int, j: int| #![trigger s[i], s[j]] 0 <= i < j < s.len() ==> text_le(s[i].0, s[j].0)
}

/// The readings as mathematical values.
pub open spec fn readings(v: Seq<(String, u32)>) -> Seq<Reading> {
    v.map_values(|r: (String, u32)| (r.0@, r.1))
}

/// The place that [`slot`] picks lies in the list, every reading from there on
/// has a greater name, and the one before it has not.
pub proof fn lemma_slot(s: Seq<Reading>, name: Seq<char>)
    ensures
        0 <= slot(s, name) <= s.len(),
        forall|k: int| slot(s, name) <= k < s.len() ==> !text_le(#[trigger] s[k].0, name),
        slot(s, name) > 0 ==> text_le(s[slot(s, name) - 1].0, name),
    decreases s.len(),
{
    if !(s.len() == 0 || text_le(s.last().0, name)) {
        let head = s.drop_last();
        lemma_slot(head, name);
        assert forall|k: int| slot(s, name) <= k < s.len() implies !text_le(
            #[trigger] s[k].0,
            name,
        ) by {
            if k < head.len() {
                assert(s[k] == head[k]);
            }
        }
    }
}

/// Sorting puts the names in ascending order.
pub proof fn lemma_sorted_ascending(s: Seq<Reading>)
    ensures
        ascending(sorted_by_name(s)),
    decreases s.len(),
{
    if s.len() > 0 {
        let done = sorted_by_name(s.drop_last());
        let x = s.last();
        let p = slot(done, x.0);
        let out = done.insert(p, x);
        lemma_sorted_ascending(s.drop_last());
        lemma_slot(done, x.0);
        assert forall|i: int, j: int| 0 <= i < j < out.len() implies text_le(
            out[i].0,
            out[j].0,
        ) by {
            if j < p {
                assert(text_le(done[i].0, done[j].0));
            } else if j == p {
                if i < p - 1 {
                    assert(text_le(done[i].0, done[p - 1].0));
                    lemma_bytes_le_transitive(
                        encode_utf8(done[i].0),
                        encode_utf8(done[p - 1].0),
                        encode_utf8(x.0),
                    );
                }
            } else if i < p {
                assert(out[j] == done[j - 1]);
                assert(text_le(done[i].0, done[j - 1].0));
            } else if i == p {
                assert(out[j] == done[j - 1]);
                assert(!text_le(done[j - 1].0, x.0));
                lemma_bytes_le_total(encode_utf8(done[j - 1].0), encode_utf8(x.0));
            } else {
                assert(out[i] == done[i - 1]);
                assert(out[j] == done[j - 1]);
                assert(text_le(done[i - 1].0, done[j - 1].0));
            }
        }
    }
}

/// Sorting keeps every reading, as often as it came.
pub proof fn lemma_sorted_permutes(s: Seq<Reading>)
    ensures
        sorted_by_name(s).to_multiset() == s.to_multiset(),
        sorted_by_name(s).len() == s.len(),
    decreases s.len(),
{
    if s.len() > 0 {
        let done = sorted_by_name(s.drop_last());
        let x = s.last();
        lemma_sorted_permutes(s.drop_last());
        lemma_slot(done, x.0);
        vstd::seq_lib::to_multiset_insert(done, slot(done, x.0), x);
        vstd::seq_lib::to_multiset_build(s.drop_last(), x);
        assert(s.drop_last().push(x) =~= s);
    } else {
        assert(s =~= Seq::empty());
    }
}

/// Sorting is stable: the readings of any one name come out in the order in
/// which they went in.
pub proof fn lemma_sorted_stable(s: Seq<Reading>, name: Seq<char>)
    ensures
        sorted_by_name(s).filter(|r: Reading| r.0 == name) == s.filter(|r: Reading| r.0 == name),
    decreases s.len(),
{
    let pred = |r: Reading| r.0 == name;
    if s.len() > 0 {
        let done = sorted_by_name(s.drop_last());
        let x = s.last();
        let p = slot(done, x.0);
        let out = done.insert(p, x);
        lemma_sorted_stable(s.drop_last(), name);
        lemma_slot(done, x.0);
        let head = done.take(p);
        let tail = done.skip(p);
        assert(done =~= head + tail);
        assert(out =~= head.push(x) + tail);
        Seq::filter_distributes_over_add(head, tail, pred);
        Seq::filter_distributes_over_add(head.push(x), tail, pred);
        head.lemma_filter_push(x, pred);
        s.drop_last().lemma_filter_push(x, pred);
        assert(s.drop_last().push(x) =~= s);
        if pred(x) {
            assert forall|k: int| 0 <= k < tail.len() implies !pred(#[trigger] tail[k]) by {
                assert(tail[k] == done[p + k]);
                assert(!text_le(done[p + k].0, x.0));
                lemma_bytes_le_reflexive(encode_utf8(x.0));
            }
            assert(tail.all(|r: Reading| !pred(r)));
            tail.lemma_all_neg_filter_empty(pred);
            assert(tail.filter(pred) =~= Seq::empty());
            assert(head.filter(pred).push(x) + tail.filter(pred) =~= (head.filter(pred)
                + tail.filter(pred)).push(x));
        }
    } else {
        assert(sorted_by_name(s) =~= s);
    }
}

/// The scanner: the match dictionary that it owns.
pub struct IOHIDSensors {
    sensors: usize,
}

impl IOHIDSensors {
    /// A scanner that owns the match dictionary at `sensors`.
    pub fn new(sensors: usize) -> (r: WithError<IOHIDSensors>)
        ensures
            r is Ok,
            r->Ok_0.sensors() == sensors,
    {
        Ok(IOHIDSensors { sensors })
    }

    /// The match dictionary, which the scanner's owner releases at its end.
    pub closed spec fn sensors(&self) -> usize {
        self.sensors
    }

    /// The match dictionary.
    pub fn dictionary(&self) -> (d: usize)
        ensures
            d == self.sensors(),
    {
        self.sensors
    }

    /// The temperatures by sensor name, from what the services gave; `None`
    /// stands for an event system that gave no client or no services.
    ///
    /// A service without a name or without a reading is left out. The result
    /// is in the order of the names, and two sensors of one name stay in the
    /// order of their services.
    pub fn get_metrics(&self, probes: Option<Vec<Probe>>) -> (items: Vec<(String, u32)>)
        ensures
            readings(items@) == match probes {
                Some(p) => sorted_by_name(kept(p@)),
                None => Seq::empty(),
            },
    {
        let mut items: Vec<(String, u32)> = Vec::new();
        let probes = match probes {
            Some(p) => p,
            None => {
                assert(readings(items@) =~= Seq::empty());
                return items;
            },
        };
        let mut i: usize = 0;
        assert(probes@.take(0) =~= Seq::empty());
        assert(readings(items@) =~= sorted_by_name(kept(probes@.take(0))));
        while i < probes.len()
            invariant
                i <= probes@.len(),
                readings(items@) == sorted_by_name(kept(probes@.take(i as int))),
            decreases probes@.len() - i,
        {
            let ghost before = kept(probes@.take(i as int));
            proof {
                let seen = probes@.take(i as int);
                assert(probes@.take(i + 1) =~= seen.push(probes@[i as int]));
                seen.lemma_filter_push(probes@[i as int], |p: Probe| complete(p));
                if complete(probes@[i as int]) {
                    let r = (probes@[i as int].name->Some_0@, probes@[i as int].temperature->Some_0);
                    assert(kept(probes@.take(i + 1)) =~= before.push(r));
                    assert(before.push(r).drop_last() =~= before);
                } else {
                    assert(kept(probes@.take(i + 1)) =~= before);
                }
            }
            match (&probes[i].name, probes[i].temperature) {
                (Some(name), Some(bits)) => {
                    let mut at: usize = items.len();
                    assert(readings(items@).take(at as int) =~= readings(items@));
                    while at > 0 && !str_le(items[at - 1].0.as_str(), name.as_str())
                        invariant
                            at <= items@.len(),
                            slot(readings(items@), name@) == slot(
                                readings(items@).take(at as int),
                                name@,
                            ),
                        decreases at,
                    {
                        proof {
                            let head = readings(items@).take(at as int);
                            assert(head.last() == readings(items@)[at - 1]);
                            assert(head.drop_last() =~= readings(items@).take(at - 1));
                        }
                        at -= 1;
                    }
                    proof {
                        let head = readings(items@).take(at as int);
                        if at > 0 {
                            assert(head.last() == readings(items@)[at - 1]);
                        }
                        assert(slot(head, name@) == at);
                        assert(readings(items@.insert(at as int, (*name, bits))) =~= readings(
                            items@,
                        ).insert(at as int, (name@, bits)));
                    }
                    items.insert(at, (name.clone(), bits));
                },
                _ => {},
            }
            i += 1;
        }
        assert(probes@.take(i as int) =~= probes@);
        items
    }
}

} // verus!

//! The SMC as a function from requests to replies, and what the client's
//! operations come to when every exchange is made against it.
//!
//! The client itself only ever sees one reply at a time. Here its steps are
//! run to their end, and the outcome is stated in one piece: what is read,
//! through the cache, for a key; which keys a listing gathers.

use crate::error::Failure;
use crate::fourcc::pack;
use crate::smc::{
    lemma_key_count, name_of, nameable, reply_of, request, KeyData, KeyInfo, Scan, SensorValView,
    State, StepView, CMD_KEY_AT_INDEX, CMD_KEY_INFO, CMD_READ_VALUE, KEY_COUNT,
};
use vstd::prelude::*;

verus! {

/// What an SMC answers to each request: the kernel's return code and the
/// record that comes back.
pub type Device = spec_fn(KeyData) -> (i32, KeyData);

/// The client and its step after up to `fuel` exchanges with `device`, each
/// one the request of the step before.
pub open spec fn run(s: State, step: StepView, device: Device, fuel: nat) -> (State, StepView)
    decreases fuel,
{
    if step is Call && fuel > 0 {
        let reply = device(step->Call_0);
        let next = s.resume(reply.0, reply.1);
        run(next.0, next.1, device, (fuel - 1) as nat)
    } else {
        (s, step)
    }
}

/// Whether the client can take in every reply of a run: before each exchange
/// it is well-formed and accepts what the device answers.
pub open spec fn smooth(s: State, step: StepView, device: Device, fuel: nat) -> bool
    decreases fuel,
{
    if step is Call && fuel > 0 {
        let reply = device(step->Call_0);
        let next = s.resume(reply.0, reply.1);
        s.wf() && s.accepts(reply.0, reply.1) && smooth(next.0, next.1, device, (fuel - 1) as nat)
    } else {
        s.wf()
    }
}

/// Whether every reply of `device` can be taken in: a key that it names is
/// text, and where it grants a value, the metadata that it was asked with has
/// a type that is text and a size within the record (of at least four for the
/// key count).
pub open spec fn tame(device: Device) -> bool {
    forall|req: KeyData|
        reply_of((#[trigger] device(req)).0, device(req).1) is Ok ==> {
            &&& req.data8 == CMD_KEY_AT_INDEX ==> nameable(device(req).1.key)
            &&& req.data8 == CMD_READ_VALUE ==> nameable(req.key_info.data_type)
                && req.key_info.data_size <= 32
            &&& req.data8 == CMD_READ_VALUE && req.key == KEY_COUNT ==> req.key_info.data_size
                >= 4
        }
}

/// The metadata of `key`: from the cache, else from the device, and then
/// into the cache.
pub open spec fn info_through(cache: Map<u32, KeyInfo>, device: Device, key: u32) -> (
    Map<u32, KeyInfo>,
    Result<KeyInfo, Failure>,
) {
    if cache.contains_key(key) {
        (cache, Ok(cache[key]))
    } else {
        let reply = device(request(CMD_KEY_INFO, key, KeyInfo::zero(), 0));
        match reply_of(reply.0, reply.1) {
            Ok(d) => (cache.insert(key, d.key_info), Ok(d.key_info)),
            Err(e) => (cache, Err(e)),
        }
    }
}

/// The value of `key`: read with its metadata, and cut to the size that the
/// metadata gives.
pub open spec fn value_through(cache: Map<u32, KeyInfo>, device: Device, key: u32) -> (
    Map<u32, KeyInfo>,
    Result<SensorValView, Failure>,
) {
    let (cache, info) = info_through(cache, device, key);
    match info {
        Err(e) => (cache, Err(e)),
        Ok(info) => {
            let reply = device(request(CMD_READ_VALUE, key, info, 0));
            match reply_of(reply.0, reply.1) {
                Err(e) => (cache, Err(e)),
                Ok(d) => (
                    cache,
                    Ok(
                        SensorValView {
                            name: name_of(key),
                            unit: name_of(info.data_type),
                            data: d.bytes@.subrange(0, info.data_size as int),
                        },
                    ),
                ),
            }
        },
    }
}

/// The exchanges that reading the value of `key` takes: one where the cache
/// has the metadata or the device refuses it, else two.
pub open spec fn value_cost(cache: Map<u32, KeyInfo>, device: Device, key: u32) -> nat {
    if cache.contains_key(key) || info_through(cache, device, key).1 is Err {
        1
    } else {
        2
    }
}

/// The keys from number `index` on whose value can be read, behind those
/// `found` already. An index at which the SMC knows no key is passed over,
/// and so is a key that cannot be read; any other failure to name a key ends
/// the listing with that failure.
pub open spec fn keys_through(
    cache: Map<u32, KeyInfo>,
    device: Device,
    total: u32,
    index: int,
    found: Seq<u32>,
) -> (Map<u32, KeyInfo>, Result<Seq<Seq<char>>, Failure>)
    decreases total - index,
{
    if index >= total {
        (cache, Ok(found.map_values(|w: u32| name_of(w))))
    } else {
        let reply = device(request(CMD_KEY_AT_INDEX, 0, KeyInfo::zero(), index as u32));
        match reply_of(reply.0, reply.1) {
            Err(Failure::SMCKeyNotFound) => keys_through(cache, device, total, index + 1, found),
            Err(e) => (cache, Err(e)),
            Ok(d) => {
                let (cache, value) = value_through(cache, device, d.key);
                keys_through(
                    cache,
                    device,
                    total,
                    index + 1,
                    if value is Ok {
                        found.push(d.key)
                    } else {
                        found
                    },
                )
            },
        }
    }
}

/// The list of all keys: the key count read first, then the keys in turn.
pub open spec fn all_keys_through(cache: Map<u32, KeyInfo>, device: Device) -> (
    Map<u32, KeyInfo>,
    Result<Seq<Seq<char>>, Failure>,
) {
    let (cache, count) = value_through(cache, device, KEY_COUNT);
    match count {
        Err(e) => (cache, Err(e)),
        Ok(v) => keys_through(cache, device, pack(v.data.subrange(0, 4)) as u32, 0, Seq::empty()),
    }
}

/// Asking for metadata comes to the metadata through the cache, after at
/// most one exchange.
pub proof fn lemma_read_key_info_runs(s: State, key: Seq<u8>, device: Device, fuel: nat)
    requires
        s.wf(),
        key.len() == 4,
        fuel >= 1,
    ensures
        ({
            let start = s.read_key_info(key);
            let through = info_through(s.cache, device, pack(key) as u32);
            &&& run(start.0, start.1, device, fuel) == (
                State { cache: through.0, ..s.idle() },
                StepView::Info(through.1),
            )
            &&& smooth(start.0, start.1, device, fuel)
        }),
{
    reveal_with_fuel(run, 2);
    reveal_with_fuel(smooth, 2);
    let start = s.read_key_info(key);
    let through = info_through(s.cache, device, pack(key) as u32);
    assert(run(start.0, start.1, device, fuel).0 =~= (State { cache: through.0, ..s.idle() }));
}

/// Asking for the name of a key comes to the text of the key that the device
/// gives, after one exchange.
pub proof fn lemma_key_by_index_runs(s: State, index: u32, device: Device, fuel: nat)
    requires
        s.wf(),
        tame(device),
        fuel >= 1,
    ensures
        ({
            let start = s.key_by_index(index);
            let reply = device(request(CMD_KEY_AT_INDEX, 0, KeyInfo::zero(), index));
            &&& run(start.0, start.1, device, fuel) == (
                s.idle(),
                StepView::KeyName(
                    match reply_of(reply.0, reply.1) {
                        Ok(d) => Ok(name_of(d.key)),
                        Err(e) => Err(e),
                    },
                ),
            )
            &&& smooth(start.0, start.1, device, fuel)
        }),
{
    reveal_with_fuel(run, 2);
    reveal_with_fuel(smooth, 2);
    let start = s.key_by_index(index);
    assert(run(start.0, start.1, device, fuel).0 =~= s.idle());
}

/// Reading a value, from wherever it is started, comes after one or two
/// exchanges to the point where the reading ends with the value through the
/// cache; every reply on the way can be taken in.
pub proof fn lemma_value_runs(s: State, key: u32, device: Device, fuel: nat)
    requires
        tame(device),
        nameable(key),
        s.start_value(key).0.wf(),
        fuel >= value_cost(s.cache, device, key),
        s.scan is Count ==> key == KEY_COUNT,
    ensures
        ({
            let start = s.start_value(key);
            let through = value_through(s.cache, device, key);
            let end = (State { cache: through.0, ..s }).finish_value(key, through.1);
            let rest = (fuel - value_cost(s.cache, device, key)) as nat;
            &&& run(start.0, start.1, device, fuel) == run(end.0, end.1, device, rest)
            &&& smooth(start.0, start.1, device, fuel) == smooth(end.0, end.1, device, rest)
        }),
{
    reveal_with_fuel(run, 3);
    reveal_with_fuel(smooth, 3);
    let start = s.start_value(key);
    let through = value_through(s.cache, device, key);
    let target = State { cache: through.0, ..s };
    if s.cache.contains_key(key) {
        assert(target =~= s);
        let reply = device(start.1->Call_0);
        let next = start.0.resume(reply.0, reply.1);
        assert(next == s.finish_value(key, through.1));
    } else {
        let reply = device(start.1->Call_0);
        let next = start.0.resume(reply.0, reply.1);
        if reply_of(reply.0, reply.1) is Err {
            assert(target =~= s);
            assert(next == s.finish_value(key, through.1));
        } else {
            let info = reply_of(reply.0, reply.1)->Ok_0.key_info;
            let second = device(next.1->Call_0);
            let last = next.0.resume(second.0, second.1);
            assert(target.cache =~= s.cache.insert(key, info));
            assert(last == target.finish_value(key, through.1));
        }
    }
}

/// Asking for a value comes to the value through the cache, after at most
/// two exchanges.
pub proof fn lemma_read_val_runs(s: State, key: Seq<u8>, device: Device, fuel: nat)
    requires
        s.wf(),
        tame(device),
        key.len() == 4,
        nameable(pack(key) as u32),
        fuel >= 2,
    ensures
        ({
            let start = s.read_val(key);
            let through = value_through(s.cache, device, pack(key) as u32);
            &&& run(start.0, start.1, device, fuel) == (
                State { cache: through.0, ..s.idle() },
                StepView::Value(through.1),
            )
            &&& smooth(start.0, start.1, device, fuel)
        }),
{
    let k = pack(key) as u32;
    let through = value_through(s.cache, device, k);
    lemma_value_runs(s.idle(), k, device, fuel);
    let end = (State { cache: through.0, ..s.idle() }).finish_value(k, through.1);
    assert(end.0 =~= (State { cache: through.0, ..s.idle() }));
    reveal_with_fuel(run, 1);
    reveal_with_fuel(smooth, 1);
}

/// A listing that stands at key number `index` comes to the keys through the
/// cache from there on, after at most three exchanges for each key left.
pub proof fn lemma_scan_runs(
    s: State,
    total: u32,
    index: int,
    found: Seq<u32>,
    device: Device,
    fuel: nat,
)
    requires
        tame(device),
        0 <= index <= total,
        forall|i: int| 0 <= i < found.len() ==> nameable(#[trigger] found[i]),
        fuel >= 3 * (total - index),
    ensures
        ({
            let start = s.scan_from(total, index, found);
            let through = keys_through(s.cache, device, total, index, found);
            &&& run(start.0, start.1, device, fuel) == (
                State { cache: through.0, ..s.idle() },
                StepView::Keys(through.1),
            )
            &&& smooth(start.0, start.1, device, fuel)
        }),
    decreases total - index,
{
    reveal_with_fuel(run, 2);
    reveal_with_fuel(smooth, 2);
    let start = s.scan_from(total, index, found);
    let through = keys_through(s.cache, device, total, index, found);
    if index >= total {
        assert(start.0 =~= (State { cache: through.0, ..s.idle() }));
    } else {
        let reply = device(start.1->Call_0);
        let next = start.0.resume(reply.0, reply.1);
        match reply_of(reply.0, reply.1) {
            Err(Failure::SMCKeyNotFound) => {
                assert(next == start.0.scan_from(total, index + 1, found));
                assert(next == s.scan_from(total, index + 1, found));
                lemma_scan_runs(s, total, index + 1, found, device, (fuel - 1) as nat);
            },
            Err(e) => {
                assert(next.0 =~= (State { cache: through.0, ..s.idle() }));
            },
            Ok(d) => {
                let value = value_through(s.cache, device, d.key);
                let cost = value_cost(s.cache, device, d.key);
                let rest = (fuel - 1 - cost) as nat;
                lemma_value_runs(start.0, d.key, device, (fuel - 1) as nat);
                let served = State { cache: value.0, ..start.0 };
                let more = if value.1 is Ok {
                    found.push(d.key)
                } else {
                    found
                };
                assert(served.finish_value(d.key, value.1) == served.scan_from(
                    total,
                    index + 1,
                    more,
                ));
                lemma_scan_runs(served, total, index + 1, more, device, rest);
                assert(served.idle() =~= (State { cache: value.0, ..s.idle() }));
            },
        }
    }
}

/// Asking for the list of keys comes to the keys through the cache: the key
/// count is read, then each key is named and read, and those that could be
/// read are listed in their order. An index without a key and a key without
/// a readable value are passed over; the listing fails only where the key
/// count cannot be read or a request for a key's name fails otherwise than by
/// the SMC knowing no key there.
pub proof fn lemma_read_all_keys_runs(s: State, device: Device, fuel: nat)
    requires
        s.wf(),
        tame(device),
        fuel >= 2 + 3 * u32::MAX,
    ensures
        ({
            let start = s.read_all_keys();
            let through = all_keys_through(s.cache, device);
            &&& run(start.0, start.1, device, fuel) == (
                State { cache: through.0, ..s.idle() },
                StepView::Keys(through.1),
            )
            &&& smooth(start.0, start.1, device, fuel)
        }),
{
    reveal_with_fuel(run, 1);
    reveal_with_fuel(smooth, 1);
    lemma_key_count();
    let counting = State { scan: Scan::Count, ..s.idle() };
    let count = value_through(s.cache, device, KEY_COUNT);
    let cost = value_cost(s.cache, device, KEY_COUNT);
    lemma_value_runs(counting, KEY_COUNT, device, fuel);
    let served = State { cache: count.0, ..counting };
    match count.1 {
        Err(e) => {
            assert(served.idle() =~= (State { cache: count.0, ..s.idle() }));
        },
        Ok(v) => {
            let total = pack(v.data.subrange(0, 4)) as u32;
            lemma_scan_runs(served, total, 0, Seq::empty(), device, (fuel - cost) as nat);
            assert(served.idle() =~= (State { cache: count.0, ..s.idle() }));
        },
    }
}

} // verus!

//! The SMC client: request framing, reply reading and the key-metadata cache.
//!
//! The client never talks to the kernel itself. Each operation either completes
//! at once or asks for one exchange: the caller sends the request through the
//! user client (struct method, selector [`SELECTOR`]) and hands the reply to
//! [`SMC::resume`], until the operation's result comes out.

use crate::error::{Failure, WithError};
use crate::fourcc::{decode, encode, lemma_unpack_pack, pack, unpack};
use crate::text::string_from_utf8;
use std::collections::HashMap;
use vstd::array::spec_array_fill_for_copy_type;
use vstd::prelude::*;
use vstd::string::StringSliceAdditionalSpecFns;
use vstd::utf8::*;

verus! {

broadcast use vstd::std_specs::hash::group_hash_axioms;

/// The selector of the struct method that carries every exchange.
pub const SELECTOR: u32 = 2;

/// Command: read the value of a key whose metadata is filled in.
pub const CMD_READ_VALUE: u8 = 5;

/// Command: name the key at an index.
pub const CMD_KEY_AT_INDEX: u8 = 8;

/// Command: give the metadata of a key.
pub const CMD_KEY_INFO: u8 = 9;

/// The result byte by which the SMC says that it has no such key.
pub const RESULT_KEY_NOT_FOUND: u8 = 132;

/// The registry name of the service that the client opens.
pub const ENDPOINT_NAME: &'static str = "AppleSMCKeysEndpoint";

/// The key whose value counts the keys.
pub const KEY_COUNT: u32 = 0x234B_4559;

/// Metadata of one key.
#[derive(Debug, Clone, Copy, PartialEq, Eq, Structural)]
pub struct KeyInfo {
    pub data_size: u32,
    pub data_type: u32,
    pub data_attributes: u8,
}

/// Version block of the exchange record; not used by reads.
#[derive(Debug, Clone, Copy, PartialEq, Eq, Structural)]
pub struct KeyDataVer {
    pub major: u8,
    pub minor: u8,
    pub build: u8,
    pub reserved: u8,
    pub release: u16,
}

/// Power-limit block of the exchange record; not used by reads.
#[derive(Debug, Clone, Copy, PartialEq, Eq, Structural)]
pub struct PLimitData {
    pub version: u16,
    pub length: u16,
    pub cpu_p_limit: u32,
    pub gpu_p_limit: u32,
    pub mem_p_limit: u32,
}

/// The record that travels in both directions of an exchange.
#[derive(Debug, Clone, Copy)]
pub struct KeyData {
    pub key: u32,
    pub vers: KeyDataVer,
    pub p_limit_data: PLimitData,
    pub key_info: KeyInfo,
    pub result: u8,
    pub status: u8,
    pub data8: u8,
    pub data32: u32,
    pub bytes: [u8; 32],
}

/// One sensor reading.
#[derive(Debug, Clone)]
pub struct SensorVal {
    pub name: String,
    pub unit: String,
    pub data: Vec<u8>,
}

/// A sensor reading as plain sequences.
pub struct SensorValView {
    pub name: Seq<char>,
    pub unit: Seq<char>,
    pub data: Seq<u8>,
}

impl View for SensorVal {
    type V = SensorValView;

    open spec fn view(&self) -> SensorValView {
        SensorValView { name: self.name@, unit: self.unit@, data: self.data@ }
    }
}

impl KeyInfo {
    /// Metadata with every field zero.
    pub open spec fn zero() -> KeyInfo {
        KeyInfo { data_size: 0, data_type: 0, data_attributes: 0 }
    }
}

impl Default for KeyInfo {
    fn default() -> (r: KeyInfo)
        ensures
            r == KeyInfo::zero(),
    {
        KeyInfo { data_size: 0, data_type: 0, data_attributes: 0 }
    }
}

impl KeyDataVer {
    /// A version block with every field zero.
    pub open spec fn zero() -> KeyDataVer {
        KeyDataVer { major: 0, minor: 0, build: 0, reserved: 0, release: 0 }
    }
}

impl Default for KeyDataVer {
    fn default() -> (r: KeyDataVer)
        ensures
            r == KeyDataVer::zero(),
    {
        KeyDataVer { major: 0, minor: 0, build: 0, reserved: 0, release: 0 }
    }
}

impl PLimitData {
    /// A power-limit block with every field zero.
    pub open spec fn zero() -> PLimitData {
        PLimitData { version: 0, length: 0, cpu_p_limit: 0, gpu_p_limit: 0, mem_p_limit: 0 }
    }
}

impl Default for PLimitData {
    fn default() -> (r: PLimitData)
        ensures
            r == PLimitData::zero(),
    {
        PLimitData { version: 0, length: 0, cpu_p_limit: 0, gpu_p_limit: 0, mem_p_limit: 0 }
    }
}

/// The request that carries a command, with everything else zero.
pub open spec fn request(cmd: u8, key: u32, info: KeyInfo, arg: u32) -> KeyData {
    KeyData {
        key,
        vers: KeyDataVer::zero(),
        p_limit_data: PLimitData::zero(),
        key_info: info,
        result: 0,
        status: 0,
        data8: cmd,
        data32: arg,
        bytes: spec_array_fill_for_copy_type::<u8, 32>(0u8),
    }
}

impl KeyData {
    /// Frames a request: the command in `data8`, its argument in `data32`.
    pub fn new(cmd: u8, key: u32, info: KeyInfo, arg: u32) -> (d: KeyData)
        ensures
            d == request(cmd, key, info, arg),
    {
        KeyData {
            key,
            vers: KeyDataVer::default(),
            p_limit_data: PLimitData::default(),
            key_info: info,
            result: 0,
            status: 0,
            data8: cmd,
            data32: arg,
            bytes: [0u8; 32],
        }
    }
}

impl Default for KeyData {
    fn default() -> (d: KeyData)
        ensures
            d == request(0, 0, KeyInfo::zero(), 0),
    {
        KeyData::new(0, 0, KeyInfo::default(), 0)
    }
}

/// What a reply amounts to: the record, or the failure that it reports.
pub open spec fn reply_of(rs: i32, oval: KeyData) -> Result<KeyData, Failure> {
    if rs != 0 {
        Err(Failure::SMCTransportError(rs))
    } else if oval.result == RESULT_KEY_NOT_FOUND {
        Err(Failure::SMCKeyNotFound)
    } else if oval.result != 0 {
        Err(Failure::SMCProtocolError(oval.result))
    } else {
        Ok(oval)
    }
}

/// The exchange whose reply the client is waiting for.
#[derive(Debug, Clone, Copy, PartialEq, Eq, Structural)]
pub enum Awaiting {
    /// No exchange is under way.
    Nothing,
    /// The name of the key at an index was asked for.
    KeyAt,
    /// The metadata of `key` was asked for, for its own sake.
    Info { key: u32 },
    /// The metadata of `key` was asked for, to read its value next.
    ValueInfo { key: u32 },
    /// The value of `key` was asked for, with the metadata `info`.
    Value { key: u32, info: KeyInfo },
}

/// How far the listing of all keys has come.
#[derive(Debug, Clone, Copy, PartialEq, Eq, Structural)]
pub enum Scan {
    /// No listing is under way.
    Off,
    /// The number of keys is being read.
    Count,
    /// Key number `index` of `total` is being looked at.
    Keys { total: u32, index: u32 },
}

/// The client as a mathematical value.
pub struct State {
    /// The connection that requests go through.
    pub conn: u32,
    /// The metadata read so far, by key.
    pub cache: Map<u32, KeyInfo>,
    /// The exchange under way.
    pub awaiting: Awaiting,
    /// The listing under way.
    pub scan: Scan,
    /// The keys that the listing has read successfully, in order.
    pub found: Seq<u32>,
}

/// What the client hands to its caller: a request to send, or a result.
#[derive(Debug)]
pub enum Step {
    /// Send this record and pass the reply to [`SMC::resume`].
    Call(KeyData),
    /// The outcome of [`SMC::key_by_index`].
    KeyName(WithError<String>),
    /// The outcome of [`SMC::read_key_info`].
    Info(WithError<KeyInfo>),
    /// The outcome of [`SMC::read_val`].
    Value(WithError<SensorVal>),
    /// The outcome of [`SMC::read_all_keys`].
    Keys(WithError<Vec<String>>),
}

/// A [`Step`] as a mathematical value.
pub enum StepView {
    Call(KeyData),
    KeyName(Result<Seq<char>, Failure>),
    Info(Result<KeyInfo, Failure>),
    Value(Result<SensorValView, Failure>),
    Keys(Result<Seq<Seq<char>>, Failure>),
}

impl View for Step {
    type V = StepView;

    open spec fn view(&self) -> StepView {
        match *self {
            Step::Call(d) => StepView::Call(d),
            Step::KeyName(Ok(s)) => StepView::KeyName(Ok(s@)),
            Step::KeyName(Err(e)) => StepView::KeyName(Err(e)),
            Step::Info(r) => StepView::Info(r),
            Step::Value(Ok(v)) => StepView::Value(Ok(v@)),
            Step::Value(Err(e)) => StepView::Value(Err(e)),
            Step::Keys(Ok(v)) => StepView::Keys(Ok(v@.map_values(|s: String| s@))),
            Step::Keys(Err(e)) => StepView::Keys(Err(e)),
        }
    }
}

/// Whether the four bytes of a word are text.
pub open spec fn nameable(word: u32) -> bool {
    valid_utf8(unpack(word))
}

/// The text that the four bytes of a word spell.
pub open spec fn name_of(word: u32) -> Seq<char> {
    decode_utf8(unpack(word))
}

impl State {
    /// The same client with no operation under way.
    pub open spec fn idle(self) -> State {
        State { awaiting: Awaiting::Nothing, scan: Scan::Off, found: Seq::empty(), ..self }
    }

    /// What holds of every client: a key that is being read is text; its
    /// metadata is asked for only while the cache lacks it, and is in the
    /// cache once its value has been asked for; the keys that a listing has
    /// gathered are text.
    pub open spec fn wf(self) -> bool {
        &&& match self.awaiting {
            Awaiting::Info { key } => !self.cache.contains_key(key),
            Awaiting::ValueInfo { key } => nameable(key) && !self.cache.contains_key(key),
            Awaiting::Value { key, info } => nameable(key) && self.cache.contains_key(key)
                && self.cache[key] == info,
            _ => true,
        }
        &&& forall|i: int| 0 <= i < self.found.len() ==> nameable(#[trigger] self.found[i])
        &&& self.scan is Off ==> self.found.len() == 0
        &&& self.scan is Count ==> self.found.len() == 0 && self.awaiting != Awaiting::KeyAt
        &&& self.awaiting is Info ==> self.scan is Off
        &&& match self.scan {
            Scan::Keys { total, index } => index < total,
            _ => true,
        }
        &&& self.awaiting is Nothing ==> self.scan is Off
    }

    /// Starts reading the value of `key`: with its metadata where the cache
    /// has it, else by asking for the metadata first.
    pub open spec fn start_value(self, key: u32) -> (State, StepView) {
        if self.cache.contains_key(key) {
            let info = self.cache[key];
            (
                State { awaiting: Awaiting::Value { key, info }, ..self },
                StepView::Call(request(CMD_READ_VALUE, key, info, 0)),
            )
        } else {
            (
                State { awaiting: Awaiting::ValueInfo { key }, ..self },
                StepView::Call(request(CMD_KEY_INFO, key, KeyInfo::zero(), 0)),
            )
        }
    }

    /// Goes on with a listing at `index`: asks for that key, or ends the
    /// listing with the keys gathered.
    pub open spec fn scan_from(self, total: u32, index: int, found: Seq<u32>) -> (State, StepView) {
        if index >= total {
            (self.idle(), StepView::Keys(Ok(found.map_values(|w: u32| name_of(w)))))
        } else {
            (
                State {
                    awaiting: Awaiting::KeyAt,
                    scan: Scan::Keys { total, index: index as u32 },
                    found,
                    ..self
                },
                StepView::Call(request(CMD_KEY_AT_INDEX, 0, KeyInfo::zero(), index as u32)),
            )
        }
    }

    /// What follows when the reading of the value of `key` has ended with `r`.
    ///
    /// On its own the reading's outcome is the result. In a listing the key
    /// count starts the walk over the keys, and a key's reading, whether it
    /// succeeded or not, moves the walk on by one.
    pub open spec fn finish_value(self, key: u32, r: Result<SensorValView, Failure>) -> (
        State,
        StepView,
    ) {
        match self.scan {
            Scan::Off => (self.idle(), StepView::Value(r)),
            Scan::Count => match r {
                Err(e) => (self.idle(), StepView::Keys(Err(e))),
                Ok(v) => self.scan_from(pack(v.data.subrange(0, 4)) as u32, 0, Seq::empty()),
            },
            Scan::Keys { total, index } => self.scan_from(
                total,
                index + 1,
                if r is Ok {
                    self.found.push(key)
                } else {
                    self.found
                },
            ),
        }
    }

    /// The client and its step after the reply `(rs, oval)` to the exchange
    /// under way. (With no exchange under way there is no reply to take in;
    /// the client then stays as it is.)
    ///
    /// In a listing, an index at which the SMC knows no key is passed over
    /// like a key that cannot be read: the listing goes on with the next
    /// index. Any other failure of the request for a key's name, of the
    /// transport or of the protocol, ends the listing with that failure, and
    /// so does a failure to read the key count.
    pub open spec fn resume(self, rs: i32, oval: KeyData) -> (State, StepView) {
        let r = reply_of(rs, oval);
        match self.awaiting {
            Awaiting::Nothing => (self, StepView::Keys(Ok(Seq::empty()))),
            Awaiting::KeyAt => match self.scan {
                Scan::Keys { total, index } => match r {
                    Err(Failure::SMCKeyNotFound) => self.scan_from(total, index + 1, self.found),
                    Err(e) => (self.idle(), StepView::Keys(Err(e))),
                    Ok(d) => self.start_value(d.key),
                },
                _ => (
                    self.idle(),
                    StepView::KeyName(
                        match r {
                            Ok(d) => Ok(name_of(d.key)),
                            Err(e) => Err(e),
                        },
                    ),
                ),
            },
            Awaiting::Info { key } => match r {
                Err(e) => (self.idle(), StepView::Info(Err(e))),
                Ok(d) => (
                    State { cache: self.cache.insert(key, d.key_info), ..self.idle() },
                    StepView::Info(Ok(d.key_info)),
                ),
            },
            Awaiting::ValueInfo { key } => match r {
                Err(e) => self.finish_value(key, Err(e)),
                Ok(d) => (
                    State {
                        cache: self.cache.insert(key, d.key_info),
                        awaiting: Awaiting::Value { key, info: d.key_info },
                        ..self
                    },
                    StepView::Call(request(CMD_READ_VALUE, key, d.key_info, 0)),
                ),
            },
            Awaiting::Value { key, info } => match r {
                Err(e) => self.finish_value(key, Err(e)),
                Ok(d) => self.finish_value(
                    key,
                    Ok(
                        SensorValView {
                            name: name_of(key),
                            unit: name_of(info.data_type),
                            data: d.bytes@.subrange(0, info.data_size as int),
                        },
                    ),
                ),
            },
        }
    }

    /// The client and its step when the key at `index` is asked for.
    pub open spec fn key_by_index(self, index: u32) -> (State, StepView) {
        (
            State { awaiting: Awaiting::KeyAt, ..self.idle() },
            StepView::Call(request(CMD_KEY_AT_INDEX, 0, KeyInfo::zero(), index)),
        )
    }

    /// The client and its step when the metadata of the key spelled by the
    /// bytes `key` is asked for: from the cache where it is there.
    pub open spec fn read_key_info(self, key: Seq<u8>) -> (State, StepView) {
        let s = self.idle();
        let k = pack(key) as u32;
        if key.len() != 4 {
            (s, StepView::Info(Err(Failure::InvalidKey)))
        } else if s.cache.contains_key(k) {
            (s, StepView::Info(Ok(s.cache[k])))
        } else {
            (
                State { awaiting: Awaiting::Info { key: k }, ..s },
                StepView::Call(request(CMD_KEY_INFO, k, KeyInfo::zero(), 0)),
            )
        }
    }

    /// The client and its step when the value of the key spelled by the bytes
    /// `key` is asked for.
    pub open spec fn read_val(self, key: Seq<u8>) -> (State, StepView) {
        if key.len() != 4 {
            (self.idle(), StepView::Value(Err(Failure::InvalidKey)))
        } else {
            self.idle().start_value(pack(key) as u32)
        }
    }

    /// The client and its step when the list of all keys is asked for.
    pub open spec fn read_all_keys(self) -> (State, StepView) {
        State { scan: Scan::Count, ..self.idle() }.start_value(KEY_COUNT)
    }

    /// Whether the reply `(rs, oval)` can be taken in: an exchange is under
    /// way, a key name that arrives is text, and a value that arrives has a
    /// type that is text and a size within the record's 32 bytes (and of at
    /// least four where it is the key count).
    pub open spec fn accepts(self, rs: i32, oval: KeyData) -> bool {
        let r = reply_of(rs, oval);
        match self.awaiting {
            Awaiting::Nothing => false,
            Awaiting::KeyAt => r is Ok ==> nameable(r->Ok_0.key),
            Awaiting::Info { key } => true,
            Awaiting::ValueInfo { key } => true,
            Awaiting::Value { key, info } => r is Ok ==> {
                &&& nameable(info.data_type)
                &&& info.data_size <= 32
                &&& self.scan is Count ==> info.data_size >= 4
            },
        }
    }
}

/// The SMC client: a connection, the metadata cache, and the operation under way.
pub struct SMC {
    conn: u32,
    keys: HashMap<u32, KeyInfo>,
    awaiting: Awaiting,
    scan: Scan,
    found: Vec<u32>,
}

impl View for SMC {
    type V = State;

    closed spec fn view(&self) -> State {
        State {
            conn: self.conn,
            cache: self.keys@,
            awaiting: self.awaiting,
            scan: self.scan,
            found: self.found@,
        }
    }
}

/// The text of a word whose bytes are text.
fn spell(word: u32) -> (name: String)
    requires
        nameable(word),
    ensures
        name@ == name_of(word),
{
    match string_from_utf8(decode(word)) {
        Some(name) => name,
        None => String::new(),
    }
}

/// Whether the four bytes of a word are text.
fn is_text(word: u32) -> (yes: bool)
    ensures
        yes == nameable(word),
{
    string_from_utf8(decode(word)).is_some()
}

/// The texts of words whose bytes are text.
fn spell_all(words: &Vec<u32>) -> (names: Vec<String>)
    requires
        forall|i: int| 0 <= i < words@.len() ==> nameable(#[trigger] words@[i]),
    ensures
        names@.map_values(|s: String| s@) == words@.map_values(|w: u32| name_of(w)),
{
    let mut names: Vec<String> = Vec::new();
    let mut i: usize = 0;
    while i < words.len()
        invariant
            i <= words@.len(),
            names@.len() == i,
            forall|j: int| 0 <= j < words@.len() ==> nameable(#[trigger] words@[j]),
            forall|j: int| 0 <= j < i ==> (#[trigger] names@[j])@ == name_of(words@[j]),
        decreases words@.len() - i,
    {
        names.push(spell(words[i]));
        i += 1;
    }
    assert(names@.map_values(|s: String| s@) =~= words@.map_values(|w: u32| name_of(w)));
    names
}

/// The outcome of a value's reading as a mathematical value.
pub open spec fn value_view(r: WithError<SensorVal>) -> Result<SensorValView, Failure> {
    match r {
        Ok(v) => Ok(v@),
        Err(e) => Err(e),
    }
}

impl SMC {
    /// A client with no connection yet and an empty cache.
    pub fn new() -> (smc: SMC)
        ensures
            smc@ == (State {
                conn: 0,
                cache: Map::empty(),
                awaiting: Awaiting::Nothing,
                scan: Scan::Off,
                found: Seq::empty(),
            }),
            smc@.wf(),
    {
        SMC {
            conn: 0,
            keys: HashMap::new(),
            awaiting: Awaiting::Nothing,
            scan: Scan::Off,
            found: Vec::new(),
        }
    }

    /// Whether a service of this registry name is the one to open.
    pub fn is_keys_endpoint(name: &str) -> (yes: bool)
        ensures
            yes == (name@ == ENDPOINT_NAME@),
    {
        crate::text::same_text(name, ENDPOINT_NAME)
    }

    /// Takes in what opening the user client returned: the connection on
    /// success, else the failure with the code.
    pub fn opened(&mut self, rs: i32, conn: u32) -> (r: WithError<()>)
        ensures
            rs != 0 ==> r == Err::<(), Failure>(Failure::SMCOpenFailed(rs)) && final(self)@ == old(
                self,
            )@,
            rs == 0 ==> r is Ok && final(self)@ == (State { conn, ..old(self)@ }),
    {
        if rs != 0 {
            return Err(Failure::SMCOpenFailed(rs));
        }
        self.conn = conn;
        Ok(())
    }

    /// The connection that requests go through.
    pub fn conn(&self) -> (c: u32)
        ensures
            c == self@.conn,
    {
        self.conn
    }

    /// Reads a reply: the kernel's return code first, then the result byte.
    pub fn read(rs: i32, oval: KeyData) -> (r: WithError<KeyData>)
        ensures
            r == reply_of(rs, oval),
    {
        if rs != 0 {
            return Err(Failure::SMCTransportError(rs));
        }
        if oval.result == RESULT_KEY_NOT_FOUND {
            return Err(Failure::SMCKeyNotFound);
        }
        if oval.result != 0 {
            return Err(Failure::SMCProtocolError(oval.result));
        }
        Ok(oval)
    }

    fn go_idle(&mut self)
        ensures
            final(self)@ == old(self)@.idle(),
    {
        self.awaiting = Awaiting::Nothing;
        self.scan = Scan::Off;
        self.found = Vec::new();
    }

    /// Asks for the name of the key at `index`.
    pub fn key_by_index(&mut self, index: u32) -> (step: Step)
        requires
            old(self)@.wf(),
        ensures
            final(self)@ == old(self)@.key_by_index(index).0,
            step@ == old(self)@.key_by_index(index).1,
            final(self)@.wf(),
    {
        self.go_idle();
        self.awaiting = Awaiting::KeyAt;
        Step::Call(KeyData::new(CMD_KEY_AT_INDEX, 0, KeyInfo::default(), index))
    }

    /// Asks for the metadata of `key`, which the cache answers where it can.
    pub fn read_key_info(&mut self, key: &str) -> (step: Step)
        requires
            old(self)@.wf(),
        ensures
            final(self)@ == old(self)@.read_key_info(key.spec_bytes()).0,
            step@ == old(self)@.read_key_info(key.spec_bytes()).1,
            final(self)@.wf(),
    {
        self.go_idle();
        let bytes = key.as_bytes();
        if bytes.len() != 4 {
            return Step::Info(Err(Failure::InvalidKey));
        }
        let k = encode(bytes);
        match self.keys.get(&k) {
            Some(info) => Step::Info(Ok(*info)),
            None => {
                self.awaiting = Awaiting::Info { key: k };
                Step::Call(KeyData::new(CMD_KEY_INFO, k, KeyInfo::default(), 0))
            },
        }
    }

    fn start_value(&mut self, key: u32) -> (step: Step)
        ensures
            final(self)@ == old(self)@.start_value(key).0,
            step@ == old(self)@.start_value(key).1,
    {
        match self.keys.get(&key) {
            Some(info) => {
                let info = *info;
                self.awaiting = Awaiting::Value { key, info };
                Step::Call(KeyData::new(CMD_READ_VALUE, key, info, 0))
            },
            None => {
                self.awaiting = Awaiting::ValueInfo { key };
                Step::Call(KeyData::new(CMD_KEY_INFO, key, KeyInfo::default(), 0))
            },
        }
    }

    /// Asks for the value of `key`.
    pub fn read_val(&mut self, key: &str) -> (step: Step)
        requires
            old(self)@.wf(),
        ensures
            final(self)@ == old(self)@.read_val(key.spec_bytes()).0,
            step@ == old(self)@.read_val(key.spec_bytes()).1,
            final(self)@.wf(),
    {
        self.go_idle();
        let bytes = key.as_bytes();
        if bytes.len() != 4 {
            return Step::Value(Err(Failure::InvalidKey));
        }
        let k = encode(bytes);
        proof {
            lemma_unpack_pack(key.spec_bytes());
            encode_utf8_valid_utf8(key@);
        }
        self.start_value(k)
    }

    /// Asks for the list of the keys whose value can be read.
    pub fn read_all_keys(&mut self) -> (step: Step)
        requires
            old(self)@.wf(),
        ensures
            final(self)@ == old(self)@.read_all_keys().0,
            step@ == old(self)@.read_all_keys().1,
            final(self)@.wf(),
    {
        self.go_idle();
        self.scan = Scan::Count;
        proof {
            lemma_key_count();
        }
        self.start_value(KEY_COUNT)
    }

    fn scan_from(&mut self, total: u32, index: u32) -> (step: Step)
        requires
            old(self)@.wf(),
            index <= total,
        ensures
            final(self)@ == old(self)@.scan_from(total, index as int, old(self)@.found).0,
            step@ == old(self)@.scan_from(total, index as int, old(self)@.found).1,
            final(self)@.wf(),
    {
        if index >= total {
            let names = spell_all(&self.found);
            self.go_idle();
            Step::Keys(Ok(names))
        } else {
            self.awaiting = Awaiting::KeyAt;
            self.scan = Scan::Keys { total, index };
            Step::Call(KeyData::new(CMD_KEY_AT_INDEX, 0, KeyInfo::default(), index))
        }
    }

    fn finish_value(&mut self, key: u32, r: WithError<SensorVal>) -> (step: Step)
        requires
            old(self)@.wf(),
            nameable(key),
            old(self)@.scan is Count && r is Ok ==> r->Ok_0.data@.len() >= 4,
        ensures
            final(self)@ == old(self)@.finish_value(key, value_view(r)).0,
            step@ == old(self)@.finish_value(key, value_view(r)).1,
            final(self)@.wf(),
    {
        match self.scan {
            Scan::Off => {
                self.go_idle();
                Step::Value(r)
            },
            Scan::Count => match r {
                Err(e) => {
                    self.go_idle();
                    Step::Keys(Err(e))
                },
                Ok(v) => {
                    let total = encode(vstd::slice::slice_subrange(v.data.as_slice(), 0, 4));
                    assert(self@.found =~= Seq::empty());
                    self.scan_from(total, 0)
                },
            },
            Scan::Keys { total, index } => {
                if r.is_ok() {
                    self.found.push(key);
                }
                assert(self@.wf()) by {
                    assert forall|i: int| 0 <= i < self@.found.len() implies nameable(
                        #[trigger] self@.found[i],
                    ) by {
                        if i < old(self)@.found.len() {
                            assert(self@.found[i] == old(self)@.found[i]);
                        }
                    }
                }
                self.scan_from(total, index + 1)
            },
        }
    }

    /// Whether [`SMC::resume`] can take the reply `(rs, oval)` in.
    pub fn accepts(&self, rs: i32, oval: &KeyData) -> (ok: bool)
        ensures
            ok == self@.accepts(rs, *oval),
    {
        let r = SMC::read(rs, *oval);
        match self.awaiting {
            Awaiting::Nothing => false,
            Awaiting::KeyAt => match r {
                Ok(d) => is_text(d.key),
                Err(_) => true,
            },
            Awaiting::Info { key } => true,
            Awaiting::ValueInfo { key } => true,
            Awaiting::Value { key, info } => match r {
                Ok(_) => {
                    let enough = match self.scan {
                        Scan::Count => info.data_size >= 4,
                        _ => true,
                    };
                    is_text(info.data_type) && info.data_size <= 32 && enough
                },
                Err(_) => true,
            },
        }
    }

    /// Takes in the reply `(rs, oval)` to the request that the last step
    /// asked for, and gives the next step.
    pub fn resume(&mut self, rs: i32, oval: KeyData) -> (step: Step)
        requires
            old(self)@.wf(),
            old(self)@.accepts(rs, oval),
        ensures
            final(self)@ == old(self)@.resume(rs, oval).0,
            step@ == old(self)@.resume(rs, oval).1,
            final(self)@.wf(),
    {
        let r = SMC::read(rs, oval);
        match self.awaiting {
            Awaiting::Nothing => Step::Keys(Ok(Vec::new())),
            Awaiting::KeyAt => match self.scan {
                Scan::Keys { total, index } => match r {
                    Err(Failure::SMCKeyNotFound) => self.scan_from(total, index + 1),
                    Err(e) => {
                        self.go_idle();
                        Step::Keys(Err(e))
                    },
                    Ok(d) => self.start_value(d.key),
                },
                _ => {
                    self.go_idle();
                    match r {
                        Ok(d) => Step::KeyName(Ok(spell(d.key))),
                        Err(e) => Step::KeyName(Err(e)),
                    }
                },
            },
            Awaiting::Info { key } => {
                self.go_idle();
                match r {
                    Err(e) => Step::Info(Err(e)),
                    Ok(d) => {
                        self.keys.insert(key, d.key_info);
                        Step::Info(Ok(d.key_info))
                    },
                }
            },
            Awaiting::ValueInfo { key } => match r {
                Err(e) => self.finish_value(key, Err(e)),
                Ok(d) => {
                    self.keys.insert(key, d.key_info);
                    self.awaiting = Awaiting::Value { key, info: d.key_info };
                    Step::Call(KeyData::new(CMD_READ_VALUE, key, d.key_info, 0))
                },
            },
            Awaiting::Value { key, info } => match r {
                Err(e) => self.finish_value(key, Err(e)),
                Ok(d) => {
                    let mut data: Vec<u8> = Vec::new();
                    let mut i: usize = 0;
                    while i < info.data_size as usize
                        invariant
                            i <= info.data_size <= 32,
                            data@ == d.bytes@.subrange(0, i as int),
                        decreases info.data_size - i,
                    {
                        data.push(d.bytes[i]);
                        assert(data@ =~= d.bytes@.subrange(0, i + 1));
                        i += 1;
                    }
                    let val = SensorVal { name: spell(key), unit: spell(info.data_type), data };
                    self.finish_value(key, Ok(val))
                },
            },
        }
    }
}

/// The key that counts the keys is spelled `#KEY`.
pub proof fn lemma_key_count()
    ensures
        nameable(KEY_COUNT),
        name_of(KEY_COUNT) == "#KEY"@,
        KEY_COUNT == pack(encode_utf8("#KEY"@)),
{
    reveal_strlit("#KEY");
    let chars = "#KEY"@;
    assert(chars =~= seq!['#', 'K', 'E', 'Y']);
    assert(is_ascii_chars(chars));
    is_ascii_chars_encode_utf8(chars);
    let bytes = encode_utf8(chars);
    assert(bytes =~= seq![0x23u8, 0x4Bu8, 0x45u8, 0x59u8]);
    assert(unpack(KEY_COUNT) =~= bytes);
    encode_utf8_valid_utf8(chars);
    encode_utf8_decode_utf8(chars);
}

/// A value that comes out of a reading holds exactly as many bytes as the
/// metadata of its key says, and that metadata is the cached one.
pub proof fn lemma_value_length(s: State, rs: i32, oval: KeyData)
    requires
        s.wf(),
        s.accepts(rs, oval),
    ensures
        match s.resume(rs, oval).1 {
            StepView::Value(Ok(v)) => {
                &&& s.awaiting is Value
                &&& s.cache.contains_key(s.awaiting->Value_key)
                &&& v.data.len() == s.cache[s.awaiting->Value_key].data_size
                &&& v.data == oval.bytes@.subrange(0, v.data.len() as int)
                &&& v.name == name_of(s.awaiting->Value_key)
                &&& v.unit == name_of(s.cache[s.awaiting->Value_key].data_type)
            },
            _ => true,
        },
{
}

/// Asking for a key's metadata is idempotent. An answer from the cache leaves
/// the client as it was, so the same question gets the same answer; and once an
/// exchange has brought the metadata, the next question for the same key is
/// answered from the cache, with the same metadata and without a request.
pub proof fn lemma_key_info_idempotent(s: State, key: Seq<u8>, rs: i32, oval: KeyData)
    requires
        s.wf(),
    ensures
        ({
            let (s1, step1) = s.read_key_info(key);
            let (s2, step2) = s1.resume(rs, oval);
            &&& step1 is Info ==> s1.read_key_info(key) == (s1, step1)
            &&& step1 is Call && step2 is Info && step2->Info_0 is Ok ==> s2.read_key_info(key) == (
                s2,
                step2,
            )
        }),
{
    let (s1, step1) = s.read_key_info(key);
    let (s2, step2) = s1.resume(rs, oval);
    if step1 is Info {
        assert(s1.idle() == s1);
    }
    if step1 is Call && step2 is Info && step2->Info_0 is Ok {
        assert(s2.idle() == s2);
    }
}

/// Once a key's value has been read, reading it again asks for the value
/// straight away: the metadata comes from the cache, not from the SMC.
pub proof fn lemma_second_read_skips_info(s: State, rs: i32, oval: KeyData)
    requires
        s.wf(),
        s.accepts(rs, oval),
        s.resume(rs, oval).1 is Value,
        s.resume(rs, oval).1->Value_0 is Ok,
    ensures
        ({
            let after = s.resume(rs, oval).0;
            let key = s.awaiting->Value_key;
            &&& s.awaiting is Value
            &&& after.cache.contains_key(key)
            &&& after.read_val(unpack(key)).1 == StepView::Call(
                request(CMD_READ_VALUE, key, after.cache[key], 0),
            )
        }),
{
    let key = s.awaiting->Value_key;
    crate::fourcc::lemma_pack_unpack(key);
}

/// A key that is not four bytes long is refused, whatever the client holds.
pub proof fn lemma_invalid_key(s: State, key: Seq<u8>)
    requires
        key.len() != 4,
    ensures
        s.read_val(key).1 == StepView::Value(Err(Failure::InvalidKey)),
        s.read_key_info(key).1 == StepView::Info(Err(Failure::InvalidKey)),
{
}

/// One call on the client: the start of an operation, or the reply to the
/// exchange under way.
pub enum Call {
    KeyByIndex(u32),
    ReadKeyInfo(Seq<u8>),
    ReadVal(Seq<u8>),
    ReadAllKeys,
    Resume(i32, KeyData),
}

impl State {
    /// The client after one call.
    pub open spec fn apply(self, call: Call) -> State {
        match call {
            Call::KeyByIndex(index) => self.key_by_index(index).0,
            Call::ReadKeyInfo(key) => self.read_key_info(key).0,
            Call::ReadVal(key) => self.read_val(key).0,
            Call::ReadAllKeys => self.read_all_keys().0,
            Call::Resume(rs, oval) => self.resume(rs, oval).0,
        }
    }

    /// Whether a call can be made: a key is the bytes of a string, and a
    /// reply is one that the client accepts.
    pub open spec fn admits(self, call: Call) -> bool {
        match call {
            Call::ReadVal(key) => valid_utf8(key),
            Call::Resume(rs, oval) => self.accepts(rs, oval),
            _ => true,
        }
    }

    /// The client after a series of calls, in their order.
    pub open spec fn after(self, calls: Seq<Call>) -> State
        decreases calls.len(),
    {
        if calls.len() == 0 {
            self
        } else {
            self.after(calls.drop_last()).apply(calls.last())
        }
    }

    /// Whether each call of a series can be made when its turn comes.
    pub open spec fn admits_all(self, calls: Seq<Call>) -> bool
        decreases calls.len(),
    {
        if calls.len() == 0 {
            true
        } else {
            self.admits_all(calls.drop_last()) && self.after(calls.drop_last()).admits(
                calls.last(),
            )
        }
    }

    /// Whether `later` has all the metadata that the client has, unchanged.
    pub open spec fn kept_by(self, later: State) -> bool {
        forall|k: u32| #[trigger]
            self.cache.contains_key(k) ==> later.cache.contains_key(k) && later.cache[k]
                == self.cache[k]
    }
}

/// No call takes metadata out of the cache or changes it: the cache only
/// grows, by the metadata of keys that it lacked.
pub proof fn lemma_call_keeps(s: State, call: Call)
    requires
        s.wf(),
        s.admits(call),
    ensures
        s.apply(call).wf(),
        s.kept_by(s.apply(call)),
{
    let after = s.apply(call);
    match call {
        Call::ReadVal(key) => {
            if key.len() == 4 {
                lemma_unpack_pack(key);
            }
        },
        Call::ReadAllKeys => {
            lemma_key_count();
        },
        Call::Resume(rs, oval) => {
            assert forall|i: int| 0 <= i < after.found.len() implies nameable(
                #[trigger] after.found[i],
            ) by {
                if i < s.found.len() {
                    assert(after.found[i] == s.found[i]);
                }
            }
        },
        _ => {},
    }
}

/// Metadata that has been read stays as it was read, whatever is done with
/// the client in between: after any calls, asking for the metadata of a key
/// that the cache held before is answered at once, with what the cache held,
/// and leaves the cache as it is.
pub proof fn lemma_metadata_survives(s: State, calls: Seq<Call>, key: Seq<u8>)
    requires
        s.wf(),
        s.admits_all(calls),
        key.len() == 4,
        s.cache.contains_key(pack(key) as u32),
    ensures
        s.after(calls).wf(),
        s.kept_by(s.after(calls)),
        s.after(calls).read_key_info(key).1 == StepView::Info(Ok(s.cache[pack(key) as u32])),
        s.after(calls).read_key_info(key).0.cache == s.after(calls).cache,
    decreases calls.len(),
{
    if calls.len() > 0 {
        let before = s.after(calls.drop_last());
        lemma_metadata_survives(s, calls.drop_last(), key);
        lemma_call_keeps(before, calls.last());
    }
}

/// Metadata that is given out is in the cache from then on: whether the
/// answer came from the cache or from the SMC, the cache holds it under the
/// key afterwards.
pub proof fn lemma_key_info_is_cached(s: State, key: Seq<u8>, rs: i32, oval: KeyData)
    requires
        s.wf(),
        key.len() == 4,
    ensures
        ({
            let k = pack(key) as u32;
            let (s1, step1) = s.read_key_info(key);
            let (s2, step2) = s1.resume(rs, oval);
            &&& s1.wf()
            &&& step1 is Info && step1->Info_0 is Ok ==> s1.cache.contains_key(k) && s1.cache[k]
                == step1->Info_0->Ok_0
            &&& step1 is Call ==> s1.accepts(rs, oval) && s2.wf()
            &&& step1 is Call && step2 is Info && step2->Info_0 is Ok ==> s2.cache.contains_key(k)
                && s2.cache[k] == step2->Info_0->Ok_0
        }),
{
}

} // verus!

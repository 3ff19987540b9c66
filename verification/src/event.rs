//! Job events as the marketplace contract logs them, and their decoding.
//!
//! A log carries the Keccak-256 hash of an event signature as its first
//! topic and the ABI encoding of the event's non-indexed fields as its data.

use vstd::prelude::*;
use vstd::slice::*;
use vstd::string::*;
use crate::amount::Amount;
use crate::text::{hex_digits, hex_string};
use ethers::types::U256;

verus! {

/// The identifier of a job: a 32-byte hash, compared bytewise.
#[derive(Clone, Copy, Debug, PartialEq, Eq, PartialOrd, Ord, Hash)]
pub struct JobId {
    pub bytes: [u8; 32],
}

impl View for JobId {
    type V = Seq<u8>;

    open spec fn view(&self) -> Seq<u8> {
        self.bytes@
    }
}

/// The eight events of a job's life.
#[derive(Clone, Copy, Debug, PartialEq, Eq, Structural)]
pub enum EventKind {
    Opened,
    Settled,
    Closed,
    Deposited,
    Withdrew,
    RevisedRate,
    LockCreated,
    LockDeleted,
}

/// What a `JobOpened` event says of the workload.
#[derive(Clone, Debug, PartialEq, Eq)]
pub struct JobMetadata {
    /// Where the enclave image is fetched from.
    pub image_url: String,
    /// The instance type asked for, where the metadata names one.
    pub instance_type: Option<String>,
}

/// The model of `JobMetadata`.
pub struct JobMetadataView {
    pub image_url: Seq<char>,
    pub instance_type: Option<Seq<char>>,
}

impl View for JobMetadata {
    type V = JobMetadataView;

    open spec fn view(&self) -> JobMetadataView {
        JobMetadataView {
            image_url: self.image_url@,
            instance_type: match self.instance_type {
                Some(t) => Some(t@),
                None => None,
            },
        }
    }
}

/// A decoded job event. Timestamps are seconds since the epoch.
#[derive(Clone, Debug, PartialEq, Eq)]
pub enum JobEvent {
    Opened { metadata: JobMetadata, rate: Amount, balance: Amount, timestamp: u64 },
    Settled { amount: Amount, timestamp: u64 },
    Closed,
    Deposited { amount: Amount },
    Withdrew { amount: Amount },
    RevisedRate { new_rate: Amount },
    LockCreated { new_rate: Amount },
    LockDeleted,
}

/// The model of `JobEvent`.
pub enum JobEventView {
    Opened { metadata: JobMetadataView, rate: nat, balance: nat, timestamp: nat },
    Settled { amount: nat, timestamp: nat },
    Closed,
    Deposited { amount: nat },
    Withdrew { amount: nat },
    RevisedRate { new_rate: nat },
    LockCreated { new_rate: nat },
    LockDeleted,
}

impl View for JobEvent {
    type V = JobEventView;

    open spec fn view(&self) -> JobEventView {
        match *self {
            JobEvent::Opened { metadata, rate, balance, timestamp } => JobEventView::Opened {
                metadata: metadata@,
                rate: rate@,
                balance: balance@,
                timestamp: timestamp as nat,
            },
            JobEvent::Settled { amount, timestamp } => JobEventView::Settled {
                amount: amount@,
                timestamp: timestamp as nat,
            },
            JobEvent::Closed => JobEventView::Closed,
            JobEvent::Deposited { amount } => JobEventView::Deposited { amount: amount@ },
            JobEvent::Withdrew { amount } => JobEventView::Withdrew { amount: amount@ },
            JobEvent::RevisedRate { new_rate } => JobEventView::RevisedRate { new_rate: new_rate@ },
            JobEvent::LockCreated { new_rate } => JobEventView::LockCreated { new_rate: new_rate@ },
            JobEvent::LockDeleted => JobEventView::LockDeleted,
        }
    }
}

/// What a log turned out to be.
#[derive(Clone, Debug, PartialEq, Eq)]
pub enum Decoded {
    /// A job event.
    Event(JobEvent),
    /// The first topic names this kind of event, but the data does not
    /// decode as its payload.
    Undecodable(EventKind),
    /// The first topic names none of the eight events.
    Unknown,
}

/// The model of `Decoded`.
pub enum DecodedView {
    Event(JobEventView),
    Undecodable(EventKind),
    Unknown,
}

impl View for Decoded {
    type V = DecodedView;

    open spec fn view(&self) -> DecodedView {
        match *self {
            Decoded::Event(e) => DecodedView::Event(e@),
            Decoded::Undecodable(k) => DecodedView::Undecodable(k),
            Decoded::Unknown => DecodedView::Unknown,
        }
    }
}

/// The Keccak-256 hash of the UTF-8 bytes of a text.
pub uninterp spec fn keccak256(text: Seq<char>) -> Seq<u8>;

/// The text that lossy UTF-8 decoding makes of bytes: the text they encode,
/// with the replacement character for each malformed part.
pub uninterp spec fn utf8_lossy(bytes: Seq<u8>) -> Seq<char>;

/// What a member of a JSON document holds: `None` where the text is not a
/// JSON document; `Some(None)` where the document is no object, has no member
/// of that name, or the member is no string; else the member's text.
pub uninterp spec fn json_text_member(document: Seq<char>, name: Seq<char>) -> Option<
    Option<Seq<char>>,
>;

/// The number that bytes write, most significant byte first.
pub open spec fn be_value(bytes: Seq<u8>) -> nat
    decreases bytes.len(),
{
    if bytes.len() == 0 {
        0
    } else {
        be_value(bytes.drop_last()) * 256 + bytes.last() as nat
    }
}

/// The number in the 32-byte word of `data` that starts at `offset`.
pub open spec fn word_at(data: Seq<u8>, offset: int) -> nat {
    be_value(data.subrange(offset, offset + 32))
}

/// The word at `offset` read as an offset or a length: it must lie within
/// `data` and be below 2^32.
pub open spec fn index_word(data: Seq<u8>, offset: int) -> Option<nat> {
    if offset + 32 <= data.len() && word_at(data, offset) < 0x1_0000_0000 {
        Some(word_at(data, offset))
    } else {
        None
    }
}

/// The bytes of the string or byte array whose head word stands at `head`:
/// the head word gives the offset of the length word, and the bytes follow
/// the length word.
pub open spec fn dynamic_bytes(data: Seq<u8>, head: int) -> Option<Seq<u8>> {
    match index_word(data, head) {
        None => None,
        Some(at) => match index_word(data, at as int) {
            None => None,
            Some(len) => if at + 32 + len <= data.len() {
                Some(data.subrange(at as int + 32, at as int + 32 + len as int))
            } else {
                None
            },
        },
    }
}

/// The fields of the payload of `JobOpened`, a string and three words, with
/// the string still in bytes.
pub open spec fn opened_fields(data: Seq<u8>) -> Option<(Seq<u8>, nat, nat, nat)> {
    match dynamic_bytes(data, 0) {
        Some(bytes) => if data.len() >= 128 {
            Some((bytes, word_at(data, 32), word_at(data, 64), word_at(data, 96)))
        } else {
            None
        },
        None => None,
    }
}

/// The Keccak-256 hash of an event signature, computed by
/// `ethers::utils::keccak256`, which hashes the UTF-8 bytes of a string.
#[verifier::external_body]
fn signature_hash(signature: &str) -> (r: [u8; 32])
    ensures
        r@ == keccak256(signature@),
{
    ethers::utils::keccak256(signature)
}

/// Decodes one unsigned word with `AbiDecode::decode` of
/// `ethers::types::U256`. The decoder reads the first 32 bytes as a
/// big-endian number, fails where the data is shorter, and ignores what
/// follows the word.
#[verifier::external_body]
fn decode_word(data: &[u8]) -> (r: Option<Amount>)
    ensures
        match r {
            Some(a) => data@.len() >= 32 && a@ == word_at(data@, 0),
            None => data@.len() < 32,
        },
{
    match <U256 as ethers::abi::AbiDecode>::decode(data) {
        Ok(a) => Some(Amount { l0: a.0[0], l1: a.0[1], l2: a.0[2], l3: a.0[3] }),
        Err(_) => None,
    }
}

/// Decodes two unsigned words with `AbiDecode::decode` of a pair of
/// `ethers::types::U256`. The decoder reads the first two 32-byte words as
/// big-endian numbers, fails where the data is shorter than 64 bytes, and
/// ignores what follows the words.
#[verifier::external_body]
fn decode_two_words(data: &[u8]) -> (r: Option<(Amount, Amount)>)
    ensures
        match r {
            Some((a, b)) => data@.len() >= 64 && a@ == word_at(data@, 0) && b@ == word_at(
                data@,
                32,
            ),
            None => data@.len() < 64,
        },
{
    match <(U256, U256) as ethers::abi::AbiDecode>::decode(data) {
        Ok((a, b)) => Some(
            (
                Amount { l0: a.0[0], l1: a.0[1], l2: a.0[2], l3: a.0[3] },
                Amount { l0: b.0[0], l1: b.0[1], l2: b.0[2], l3: b.0[3] },
            ),
        ),
        Err(_) => None,
    }
}

/// Decodes a string and three unsigned words with `AbiDecode::decode` of the
/// tuple `(String, U256, U256, U256)` of ethers. The decoder reads four head
/// words; the first is the offset of the string's length word, behind which
/// the string's bytes stand; offset and length must be below 2^32 and the
/// bytes must lie within the data. The bytes are decoded lossily as UTF-8.
/// The decoder adds offset and length as `usize`, which 64 bits always hold.
#[verifier::external_body]
fn decode_opened(data: &[u8]) -> (r: Option<(String, Amount, Amount, Amount)>)
    requires
        usize::BITS == 64,
    ensures
        match r {
            Some((text, a, b, c)) => match opened_fields(data@) {
                Some((bytes, x, y, z)) => text@ == utf8_lossy(bytes) && a@ == x && b@ == y && c@
                    == z,
                None => false,
            },
            None => opened_fields(data@) is None,
        },
{
    match <(String, U256, U256, U256) as ethers::abi::AbiDecode>::decode(data) {
        Ok((text, a, b, c)) => Some(
            (
                text,
                Amount { l0: a.0[0], l1: a.0[1], l2: a.0[2], l3: a.0[3] },
                Amount { l0: b.0[0], l1: b.0[1], l2: b.0[2], l3: b.0[3] },
                Amount { l0: c.0[0], l1: c.0[1], l2: c.0[2], l3: c.0[3] },
            ),
        ),
        Err(_) => None,
    }
}

/// Reads a string member of a JSON document with `serde_json::from_str`,
/// the `Index<&str>` impl of `serde_json::Value` and `Value::as_str`.
#[verifier::external_body]
fn json_member(document: &str, name: &str) -> (r: Option<Option<String>>)
    ensures
        match r {
            Some(Some(text)) => json_text_member(document@, name@) == Some(Some(text@)),
            Some(None) => json_text_member(document@, name@) == Some(None::<Seq<char>>),
            None => json_text_member(document@, name@) is None,
        },
{
    match serde_json::from_str::<serde_json::Value>(document) {
        Ok(value) => Some(value[name].as_str().map(String::from)),
        Err(_) => None,
    }
}

/// The signature of each event, as the contract declares it.
pub open spec fn signature_of(kind: EventKind) -> Seq<char> {
    match kind {
        EventKind::Opened => "JobOpened(bytes32,string,address,address,uint256,uint256,uint256)"@,
        EventKind::Settled => "JobSettled(bytes32,uint256,uint256)"@,
        EventKind::Closed => "JobClosed(bytes32)"@,
        EventKind::Deposited => "JobDeposited(bytes32,address,uint256)"@,
        EventKind::Withdrew => "JobWithdrew(bytes32,address,uint256)"@,
        EventKind::RevisedRate => "JobRevisedRate(bytes32,uint256)"@,
        EventKind::LockCreated => "LockCreated(bytes32,bytes32,uint256,uint256)"@,
        EventKind::LockDeleted => "LockDeleted(bytes32,bytes32,uint256)"@,
    }
}

/// The first topic of the logs of an event: the hash of its signature.
pub open spec fn topic_of(kind: EventKind) -> Seq<u8> {
    keccak256(signature_of(kind))
}

/// The event that a first topic names.
pub open spec fn kind_of(topic: Seq<u8>) -> Option<EventKind> {
    if topic == topic_of(EventKind::Opened) {
        Some(EventKind::Opened)
    } else if topic == topic_of(EventKind::Settled) {
        Some(EventKind::Settled)
    } else if topic == topic_of(EventKind::Closed) {
        Some(EventKind::Closed)
    } else if topic == topic_of(EventKind::Deposited) {
        Some(EventKind::Deposited)
    } else if topic == topic_of(EventKind::Withdrew) {
        Some(EventKind::Withdrew)
    } else if topic == topic_of(EventKind::RevisedRate) {
        Some(EventKind::RevisedRate)
    } else if topic == topic_of(EventKind::LockCreated) {
        Some(EventKind::LockCreated)
    } else if topic == topic_of(EventKind::LockDeleted) {
        Some(EventKind::LockDeleted)
    } else {
        None
    }
}

/// The metadata that a JSON document gives: its member `url` must be a
/// string; its member `instance` is taken where it is a string.
pub open spec fn metadata_of(document: Seq<char>) -> Option<JobMetadataView> {
    match json_text_member(document, "url"@) {
        Some(Some(url)) => Some(
            JobMetadataView {
                image_url: url,
                instance_type: match json_text_member(document, "instance"@) {
                    Some(Some(t)) => Some(t),
                    _ => None,
                },
            },
        ),
        _ => None,
    }
}

/// The low 64 bits of a number.
pub open spec fn low_64(n: nat) -> nat {
    n % 0x1_0000_0000_0000_0000
}

/// The event that a log of a given kind encodes, if any, from the topics and
/// the data of the log.
///
/// A revised rate stands in the third topic where the log has one, else in
/// the first word of the data. A lock carries its rate before its unlock
/// time, behind the lock's selector where the data holds three words.
pub open spec fn payload_of(kind: EventKind, topics: Seq<[u8; 32]>, data: Seq<u8>) -> Option<
    JobEventView,
> {
    match kind {
        EventKind::Opened => match opened_fields(data) {
            Some((bytes, rate, balance, timestamp)) => match metadata_of(utf8_lossy(bytes)) {
                Some(metadata) => Some(
                    JobEventView::Opened { metadata, rate, balance, timestamp: low_64(timestamp) },
                ),
                None => None,
            },
            None => None,
        },
        EventKind::Settled => if data.len() >= 64 {
            Some(
                JobEventView::Settled {
                    amount: word_at(data, 0),
                    timestamp: low_64(word_at(data, 32)),
                },
            )
        } else {
            None
        },
        EventKind::Closed => Some(JobEventView::Closed),
        EventKind::Deposited => if data.len() >= 32 {
            Some(JobEventView::Deposited { amount: word_at(data, 0) })
        } else {
            None
        },
        EventKind::Withdrew => if data.len() >= 32 {
            Some(JobEventView::Withdrew { amount: word_at(data, 0) })
        } else {
            None
        },
        EventKind::RevisedRate => if topics.len() >= 3 {
            Some(JobEventView::RevisedRate { new_rate: be_value(topics[2]@) })
        } else if data.len() >= 32 {
            Some(JobEventView::RevisedRate { new_rate: word_at(data, 0) })
        } else {
            None
        },
        EventKind::LockCreated => if data.len() >= 96 {
            Some(JobEventView::LockCreated { new_rate: word_at(data, 32) })
        } else if data.len() >= 64 {
            Some(JobEventView::LockCreated { new_rate: word_at(data, 0) })
        } else {
            None
        },
        EventKind::LockDeleted => Some(JobEventView::LockDeleted),
    }
}

/// What a log with given topics and data is. The first topic names the
/// event; a log without topics names none.
pub open spec fn decode_of(topics: Seq<[u8; 32]>, data: Seq<u8>) -> DecodedView {
    if topics.len() == 0 {
        DecodedView::Unknown
    } else {
        match kind_of(topics[0]@) {
            None => DecodedView::Unknown,
            Some(kind) => match payload_of(kind, topics, data) {
                Some(event) => DecodedView::Event(event),
                None => DecodedView::Undecodable(kind),
            },
        }
    }
}

/// Whether two byte strings are equal.
fn same_bytes(a: &[u8], b: &[u8]) -> (r: bool)
    ensures
        r == (a@ == b@),
{
    if a.len() != b.len() {
        return false;
    }
    let mut i: usize = 0;
    while i < a.len()
        invariant
            i <= a.len(),
            a.len() == b.len(),
            forall|j: int| 0 <= j < i ==> a@[j] == b@[j],
        decreases a.len() - i,
    {
        if a[i] != b[i] {
            return false;
        }
        i = i + 1;
    }
    assert(a@ =~= b@);
    true
}

impl EventKind {
    /// The signature of the event, as the contract declares it.
    pub fn signature(&self) -> (r: &'static str)
        ensures
            r@ == signature_of(*self),
    {
        match self {
            EventKind::Opened => "JobOpened(bytes32,string,address,address,uint256,uint256,uint256)",
            EventKind::Settled => "JobSettled(bytes32,uint256,uint256)",
            EventKind::Closed => "JobClosed(bytes32)",
            EventKind::Deposited => "JobDeposited(bytes32,address,uint256)",
            EventKind::Withdrew => "JobWithdrew(bytes32,address,uint256)",
            EventKind::RevisedRate => "JobRevisedRate(bytes32,uint256)",
            EventKind::LockCreated => "LockCreated(bytes32,bytes32,uint256,uint256)",
            EventKind::LockDeleted => "LockDeleted(bytes32,bytes32,uint256)",
        }
    }

    /// The first topic of the logs of the event.
    pub fn topic(&self) -> (r: [u8; 32])
        ensures
            r@ == topic_of(*self),
    {
        signature_hash(self.signature())
    }

    /// Whether `topic` is the first topic of the logs of the event.
    pub fn has_topic(&self, topic: &[u8; 32]) -> (r: bool)
        ensures
            r == (topic@ == topic_of(*self)),
    {
        let own = self.topic();
        same_bytes(topic.as_slice(), own.as_slice())
    }

    /// The event that a first topic names, if any.
    pub fn of_topic(topic: &[u8; 32]) -> (r: Option<EventKind>)
        ensures
            r == kind_of(topic@),
    {
        if EventKind::Opened.has_topic(topic) {
            Some(EventKind::Opened)
        } else if EventKind::Settled.has_topic(topic) {
            Some(EventKind::Settled)
        } else if EventKind::Closed.has_topic(topic) {
            Some(EventKind::Closed)
        } else if EventKind::Deposited.has_topic(topic) {
            Some(EventKind::Deposited)
        } else if EventKind::Withdrew.has_topic(topic) {
            Some(EventKind::Withdrew)
        } else if EventKind::RevisedRate.has_topic(topic) {
            Some(EventKind::RevisedRate)
        } else if EventKind::LockCreated.has_topic(topic) {
            Some(EventKind::LockCreated)
        } else if EventKind::LockDeleted.has_topic(topic) {
            Some(EventKind::LockDeleted)
        } else {
            None
        }
    }
}

impl JobMetadata {
    /// The metadata that the two members of the document give: the image
    /// address is required, the instance type is not.
    pub fn from_members(url: Option<String>, instance: Option<String>) -> (r: Option<JobMetadata>)
        ensures
            match r {
                Some(m) => url is Some && m.image_url@ == url->0@ && m@.instance_type == match instance {
                    Some(t) => Some(t@),
                    None => None,
                },
                None => url is None,
            },
    {
        match url {
            Some(image_url) => Some(JobMetadata { image_url, instance_type: instance }),
            None => None,
        }
    }

    /// Reads the metadata from the JSON document of a `JobOpened` event.
    pub fn parse(document: &str) -> (r: Option<JobMetadata>)
        ensures
            match r {
                Some(m) => metadata_of(document@) == Some(m@),
                None => metadata_of(document@) is None,
            },
    {
        match json_member(document, "url") {
            Some(url) => {
                let instance = match json_member(document, "instance") {
                    Some(t) => t,
                    None => None,
                };
                JobMetadata::from_members(url, instance)
            },
            None => None,
        }
    }
}

impl JobEvent {
    /// The `JobOpened` event of a decoded payload: the metadata document, the
    /// rate, the balance and the time of opening, of which the low 64 bits
    /// count.
    pub fn opened(metadata: JobMetadata, rate: Amount, balance: Amount, timestamp: Amount) -> (r:
        JobEvent)
        ensures
            r@ == (JobEventView::Opened {
                metadata: metadata@,
                rate: rate@,
                balance: balance@,
                timestamp: low_64(timestamp@),
            }),
    {
        JobEvent::Opened { metadata, rate, balance, timestamp: timestamp.low_u64() }
    }

    /// The `JobSettled` event of a decoded payload; of the time the low 64
    /// bits count.
    pub fn settled(amount: Amount, timestamp: Amount) -> (r: JobEvent)
        ensures
            r@ == (JobEventView::Settled { amount: amount@, timestamp: low_64(timestamp@) }),
    {
        JobEvent::Settled { amount, timestamp: timestamp.low_u64() }
    }
}

/// Decodes a log from its topics and its data.
pub fn decode(topics: &Vec<[u8; 32]>, data: &[u8]) -> (r: Decoded)
    requires
        usize::BITS == 64,
    ensures
        r@ == decode_of(topics@, data@),
{
    if topics.len() == 0 {
        return Decoded::Unknown;
    }
    let kind = match EventKind::of_topic(&topics[0]) {
        Some(kind) => kind,
        None => {
            return Decoded::Unknown;
        },
    };
    let event = match kind {
        EventKind::Opened => match decode_opened(data) {
            Some((document, rate, balance, timestamp)) => match JobMetadata::parse(
                document.as_str(),
            ) {
                Some(metadata) => Some(JobEvent::opened(metadata, rate, balance, timestamp)),
                None => None,
            },
            None => None,
        },
        EventKind::Settled => match decode_two_words(data) {
            Some((amount, timestamp)) => Some(JobEvent::settled(amount, timestamp)),
            None => None,
        },
        EventKind::Closed => Some(JobEvent::Closed),
        EventKind::Deposited => match decode_word(data) {
            Some(amount) => Some(JobEvent::Deposited { amount }),
            None => None,
        },
        EventKind::Withdrew => match decode_word(data) {
            Some(amount) => Some(JobEvent::Withdrew { amount }),
            None => None,
        },
        EventKind::RevisedRate => {
            let word = if topics.len() >= 3 {
                let topic = topics[2].as_slice();
                assert(topic@.subrange(0, 32) =~= topics@[2]@);
                decode_word(topic)
            } else {
                decode_word(data)
            };
            match word {
                Some(new_rate) => Some(JobEvent::RevisedRate { new_rate }),
                None => None,
            }
        },
        EventKind::LockCreated => {
            if data.len() >= 96 {
                let behind_selector = slice_subrange(data, 32, data.len());
                assert(behind_selector@.subrange(0, 32) =~= data@.subrange(32, 64));
                match decode_two_words(behind_selector) {
                    Some((new_rate, _)) => Some(JobEvent::LockCreated { new_rate }),
                    None => None,
                }
            } else {
                match decode_two_words(data) {
                    Some((new_rate, _)) => Some(JobEvent::LockCreated { new_rate }),
                    None => None,
                }
            }
        },
        EventKind::LockDeleted => Some(JobEvent::LockDeleted),
    };
    match event {
        Some(event) => Decoded::Event(event),
        None => Decoded::Undecodable(kind),
    }
}

/// The text of a job identifier: `0x` and the 32 bytes in base sixteen.
pub open spec fn job_text(job: Seq<u8>) -> Seq<char> {
    "0x"@ + hex_digits(job)
}

impl JobId {
    /// The text of the identifier: `0x` and its 64 hexadecimal digits, in
    /// lower case. Instances are tagged with it.
    pub fn to_text(&self) -> (r: String)
        ensures
            r@ == job_text(self@),
    {
        let mut out = "0x".to_owned();
        let digits = hex_string(self.bytes.as_slice());
        out.append(digits.as_str());
        out
    }
}

/// The job that a `JobOpened` log announces, and whether a reorganisation
/// of the chain has retracted the log. The job is the second topic; a log
/// that does not say whether it was removed was not.
pub fn announcement(topics: &Vec<[u8; 32]>, removed: Option<bool>) -> (r: (JobId, bool))
    requires
        topics.len() >= 2,
    ensures
        r.0@ == topics@[1]@,
        r.1 == (removed == Some(true)),
{
    let job = JobId { bytes: topics[1] };
    let removed = match removed {
        Some(flag) => flag,
        None => false,
    };
    (job, removed)
}

/// The eight kinds of job events, in the order in which a first topic is
/// held against them.
pub open spec fn all_kinds() -> Seq<EventKind> {
    seq![
        EventKind::Opened,
        EventKind::Settled,
        EventKind::Closed,
        EventKind::Deposited,
        EventKind::Withdrew,
        EventKind::RevisedRate,
        EventKind::LockCreated,
        EventKind::LockDeleted,
    ]
}

/// The first topics that the subscription to a job's logs asks for: those of
/// the eight job events.
pub fn job_topics() -> (r: Vec<[u8; 32]>)
    ensures
        r@.len() == 8,
        forall|i: int| 0 <= i < 8 ==> (#[trigger] r@[i])@ == topic_of(all_kinds()[i]),
{
    let mut topics: Vec<[u8; 32]> = Vec::new();
    topics.push(EventKind::Opened.topic());
    topics.push(EventKind::Settled.topic());
    topics.push(EventKind::Closed.topic());
    topics.push(EventKind::Deposited.topic());
    topics.push(EventKind::Withdrew.topic());
    topics.push(EventKind::RevisedRate.topic());
    topics.push(EventKind::LockCreated.topic());
    topics.push(EventKind::LockDeleted.topic());
    topics
}

} // verus!

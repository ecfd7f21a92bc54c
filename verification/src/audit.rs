//! Tamper-evident audit chain: every entry carries the hash of its own
//! canonical form, which includes the hash of the entry before it.

use crate::text::{decimal_text, push_decimal};
use vstd::prelude::*;
use vstd::string::StringExecFns;
use vstd::utf8::encode_utf8;

verus! {

#[verifier::external_type_specification]
#[verifier::external_body]
pub struct ExJsonError(serde_json::Error);

#[verifier::external_type_specification]
#[verifier::external_body]
pub struct ExIoError(std::io::Error);

/// Why an operation on the audit log failed.
#[derive(Debug)]
pub enum AuditError {
    /// The log could not be read or written.
    Io(std::io::Error),
    /// A record could not be turned into text, or text into a record.
    Json(serde_json::Error),
    /// The log does not hold a consistent chain.
    Invalid(String),
}

/// One admission decision.
#[derive(Debug, Clone, PartialEq, Eq)]
pub struct AuditEvent {
    pub actor: String,
    pub action: String,
    pub target: String,
    pub allowed: bool,
    pub reason: Option<String>,
}

/// One record of the log.
#[derive(Debug, Clone, PartialEq, Eq)]
pub struct AuditEntry {
    pub version: u32,
    pub seq: u64,
    /// Unix timestamp in milliseconds.
    pub unix_ms: u64,
    pub event: AuditEvent,
    pub prev_hash: Option<String>,
    pub hash: String,
}

/// An event as plain values.
pub struct EventView {
    pub actor: Seq<char>,
    pub action: Seq<char>,
    pub target: Seq<char>,
    pub allowed: bool,
    pub reason: Option<Seq<char>>,
}

/// An entry as plain values.
pub struct EntryView {
    pub version: u32,
    pub seq: u64,
    pub unix_ms: u64,
    pub event: EventView,
    pub prev_hash: Option<Seq<char>>,
    pub hash: Seq<char>,
}

/// The text of an optional string.
pub open spec fn text_of(value: Option<String>) -> Option<Seq<char>> {
    match value {
        Some(text) => Some(text@),
        None => None,
    }
}

impl View for AuditEvent {
    type V = EventView;

    open spec fn view(&self) -> EventView {
        EventView {
            actor: self.actor@,
            action: self.action@,
            target: self.target@,
            allowed: self.allowed,
            reason: text_of(self.reason),
        }
    }
}

impl View for AuditEntry {
    type V = EntryView;

    open spec fn view(&self) -> EntryView {
        EntryView {
            version: self.version,
            seq: self.seq,
            unix_ms: self.unix_ms,
            event: self.event@,
            prev_hash: text_of(self.prev_hash),
            hash: self.hash@,
        }
    }
}

/// The SHA-256 digest of a byte string.
pub uninterp spec fn sha256_digest(data: Seq<u8>) -> Seq<u8>;

/// A string as a JSON string literal: quoted, with the characters escaped
/// that JSON does not take as they are.
pub uninterp spec fn json_string_text(text: Seq<char>) -> Seq<char>;

/// `ring::digest::digest` with `SHA256`: the digest of `data`. The result is
/// named `sha256_digest` of the data.
#[verifier::external_body]
fn sha256(data: &[u8]) -> (digest: Vec<u8>)
    ensures
        digest@ == sha256_digest(data@),
{
    ring::digest::digest(&ring::digest::SHA256, data).as_ref().to_vec()
}

/// `serde_json::to_string` of a string slice: the JSON string literal for
/// it, named `json_string_text` of the text. The call succeeds: a string has
/// no serializer of its own that could refuse and holds no map, and the
/// bytes are written to a vector in memory, which takes every write.
#[verifier::external_body]
fn json_string(text: &str) -> (quoted: Result<String, serde_json::Error>)
    ensures
        quoted is Ok,
        quoted matches Ok(literal) ==> literal@ == json_string_text(text@),
{
    serde_json::to_string(text)
}

/// The lower-case hexadecimal digit for a value below 16.
pub open spec fn hex_digit(nibble: nat) -> char {
    if nibble < 10 {
        (0x30 + nibble) as u8 as char
    } else if nibble < 16 {
        (0x61 + (nibble - 10)) as u8 as char
    } else {
        '0'
    }
}

/// Bytes in lower-case hexadecimal, two digits a byte, high half first.
pub open spec fn hex_text(bytes: Seq<u8>) -> Seq<char> {
    Seq::new(
        2 * bytes.len(),
        |i: int|
            if i % 2 == 0 {
                hex_digit(bytes[i / 2] as nat / 16)
            } else {
                hex_digit(bytes[i / 2] as nat % 16)
            },
    )
}

/// The lower-case hexadecimal digit for `nibble`; `'0'` for a value that is
/// no nibble.
pub fn hex_char(nibble: u8) -> (digit: char)
    ensures
        digit == hex_digit(nibble as nat),
{
    if nibble < 10 {
        (0x30u8 + nibble) as char
    } else if nibble < 16 {
        (0x61u8 + (nibble - 10)) as char
    } else {
        '0'
    }
}

/// The SHA-256 digest of `bytes` in lower-case hexadecimal.
pub fn sha256_hex(bytes: &[u8]) -> (text: String)
    ensures
        text@ == hex_text(sha256_digest(bytes@)),
{
    let digest = sha256(bytes);
    let mut out = String::new();
    let mut i: usize = 0;
    while i < digest.len()
        invariant
            i <= digest@.len(),
            out@ == hex_text(digest@.subrange(0, i as int)),
        decreases digest@.len() - i,
    {
        let b = digest[i];
        out.push(hex_char(b / 16));
        out.push(hex_char(b % 16));
        i += 1;
        assert(out@ =~= hex_text(digest@.subrange(0, i as int)));
    }
    assert(digest@.subrange(0, i as int) =~= digest@);
    out
}

/// An event as JSON: its fields in their fixed order, without spaces; the
/// reason is left out when there is none.
pub open spec fn event_text(event: EventView) -> Seq<char> {
    "{\"actor\":"@ + json_string_text(event.actor) + ",\"action\":"@ + json_string_text(
        event.action,
    ) + ",\"target\":"@ + json_string_text(event.target) + ",\"allowed\":"@ + (if event.allowed {
        "true"@
    } else {
        "false"@
    }) + (match event.reason {
        Some(reason) => ",\"reason\":"@ + json_string_text(reason),
        None => Seq::empty(),
    }) + "}"@
}

/// The fields that an entry's hash covers, as the opening of a JSON object:
/// version, sequence number, timestamp, event and, where there is one, the
/// hash of the entry before.
pub open spec fn unsigned_fields_text(
    version: u32,
    seq: u64,
    unix_ms: u64,
    event: EventView,
    prev_hash: Option<Seq<char>>,
) -> Seq<char> {
    "{\"version\":"@ + decimal_text(version as nat) + ",\"seq\":"@ + decimal_text(seq as nat)
        + ",\"unix_ms\":"@ + decimal_text(unix_ms as nat) + ",\"event\":"@ + event_text(event) + (
    match prev_hash {
        Some(hash) => ",\"prev_hash\":"@ + json_string_text(hash),
        None => Seq::empty(),
    })
}

/// The canonical form that is hashed: the covered fields as one JSON object.
pub open spec fn canonical_text(
    version: u32,
    seq: u64,
    unix_ms: u64,
    event: EventView,
    prev_hash: Option<Seq<char>>,
) -> Seq<char> {
    unsigned_fields_text(version, seq, unix_ms, event, prev_hash) + "}"@
}

/// The hash of an entry with these fields: the SHA-256 digest of the UTF-8
/// bytes of the canonical form, in hexadecimal.
pub open spec fn entry_hash(
    version: u32,
    seq: u64,
    unix_ms: u64,
    event: EventView,
    prev_hash: Option<Seq<char>>,
) -> Seq<char> {
    hex_text(sha256_digest(encode_utf8(canonical_text(version, seq, unix_ms, event, prev_hash))))
}

impl EntryView {
    /// The hash that the entry's own fields give.
    pub open spec fn computed_hash(self) -> Seq<char> {
        entry_hash(self.version, self.seq, self.unix_ms, self.event, self.prev_hash)
    }

    /// The line that holds the entry in the log, without the line break: the
    /// covered fields followed by the hash.
    pub open spec fn line_text(self) -> Seq<char> {
        unsigned_fields_text(self.version, self.seq, self.unix_ms, self.event, self.prev_hash)
            + ",\"hash\":"@ + json_string_text(self.hash) + "}"@
    }
}

impl vstd::std_specs::convert::FromSpecImpl<serde_json::Error> for AuditError {
    open spec fn obeys_from_spec() -> bool {
        true
    }

    open spec fn from_spec(value: serde_json::Error) -> Self {
        AuditError::Json(value)
    }
}

impl From<serde_json::Error> for AuditError {
    fn from(value: serde_json::Error) -> (error: Self) {
        AuditError::Json(value)
    }
}

impl vstd::std_specs::convert::FromSpecImpl<std::io::Error> for AuditError {
    open spec fn obeys_from_spec() -> bool {
        true
    }

    open spec fn from_spec(value: std::io::Error) -> Self {
        AuditError::Io(value)
    }
}

impl From<std::io::Error> for AuditError {
    fn from(value: std::io::Error) -> (error: Self) {
        AuditError::Io(value)
    }
}

/// `Display` of `std::io::Error`: the words with which the error describes
/// itself. Nothing is claimed of them.
#[verifier::external_body]
fn io_error_text(error: &std::io::Error) -> (text: String) {
    error.to_string()
}

/// `Display` of `serde_json::Error`: the words with which the error
/// describes itself. Nothing is claimed of them.
#[verifier::external_body]
fn json_error_text(error: &serde_json::Error) -> (text: String) {
    error.to_string()
}

impl AuditError {
    /// The error in words: its kind, then what the error itself says.
    pub fn to_text(&self) -> (text: String)
        ensures
            match self {
                AuditError::Io(_) => "io error: "@.is_prefix_of(text@),
                AuditError::Json(_) => "json error: "@.is_prefix_of(text@),
                AuditError::Invalid(reason) => text@ == "invalid audit log: "@ + reason@,
            },
    {
        match self {
            AuditError::Io(error) => {
                let mut text = "io error: ".to_owned();
                text.append(io_error_text(error).as_str());
                text
            },
            AuditError::Json(error) => {
                let mut text = "json error: ".to_owned();
                text.append(json_error_text(error).as_str());
                text
            },
            AuditError::Invalid(reason) => {
                let mut text = "invalid audit log: ".to_owned();
                text.append(reason.as_str());
                text
            },
        }
    }
}

/// Appends the JSON string literal for `text`.
fn push_json_string(out: &mut String, text: &str) -> (result: Result<(), AuditError>)
    ensures
        result is Ok,
        final(out)@ == old(out)@ + json_string_text(text@),
{
    match json_string(text) {
        Ok(literal) => {
            out.append(literal.as_str());
            Ok(())
        },
        Err(error) => Err(AuditError::from(error)),
    }
}

/// Appends an event as JSON.
fn push_event(out: &mut String, event: &AuditEvent) -> (result: Result<(), AuditError>)
    ensures
        result is Ok,
        final(out)@ == old(out)@ + event_text(event@),
{
    out.append("{\"actor\":");
    push_json_string(out, event.actor.as_str())?;
    out.append(",\"action\":");
    push_json_string(out, event.action.as_str())?;
    out.append(",\"target\":");
    push_json_string(out, event.target.as_str())?;
    out.append(",\"allowed\":");
    if event.allowed {
        out.append("true");
    } else {
        out.append("false");
    }
    match &event.reason {
        Some(reason) => {
            out.append(",\"reason\":");
            push_json_string(out, reason.as_str())?;
        },
        None => {},
    }
    out.append("}");
    assert(out@ =~= old(out)@ + event_text(event@));
    Ok(())
}

/// Appends the fields that the hash covers.
fn push_unsigned_fields(
    out: &mut String,
    version: u32,
    seq: u64,
    unix_ms: u64,
    event: &AuditEvent,
    prev_hash: Option<&str>,
) -> (result: Result<(), AuditError>)
    ensures
        result is Ok,
        final(out)@ == old(out)@ + unsigned_fields_text(
            version,
            seq,
            unix_ms,
            event@,
            text_of_str(prev_hash),
        ),
{
    out.append("{\"version\":");
    push_decimal(out, version as u64);
    out.append(",\"seq\":");
    push_decimal(out, seq);
    out.append(",\"unix_ms\":");
    push_decimal(out, unix_ms);
    out.append(",\"event\":");
    push_event(out, event)?;
    match prev_hash {
        Some(hash) => {
            out.append(",\"prev_hash\":");
            push_json_string(out, hash)?;
        },
        None => {},
    }
    assert(out@ =~= old(out)@ + unsigned_fields_text(
        version,
        seq,
        unix_ms,
        event@,
        text_of_str(prev_hash),
    ));
    Ok(())
}

/// The text of an optional string slice.
pub open spec fn text_of_str(value: Option<&str>) -> Option<Seq<char>> {
    match value {
        Some(text) => Some(text@),
        None => None,
    }
}

/// Borrows an optional string as an optional string slice.
fn as_deref(value: &Option<String>) -> (slice: Option<&str>)
    ensures
        text_of_str(slice) == text_of(*value),
{
    match value {
        Some(text) => Some(text.as_str()),
        None => None,
    }
}

/// Computes the hash of an entry from the fields that the hash covers.
/// Always succeeds.
pub fn compute_hash(
    version: u32,
    seq: u64,
    unix_ms: u64,
    event: &AuditEvent,
    prev_hash: Option<&str>,
) -> (result: Result<String, AuditError>)
    ensures
        result matches Ok(hash) && hash@ == entry_hash(
            version,
            seq,
            unix_ms,
            event@,
            text_of_str(prev_hash),
        ),
{
    let mut canonical = String::new();
    push_unsigned_fields(&mut canonical, version, seq, unix_ms, event, prev_hash)?;
    canonical.append("}");
    assert(canonical@ =~= canonical_text(version, seq, unix_ms, event@, text_of_str(prev_hash)));
    Ok(sha256_hex(canonical.as_str().as_bytes()))
}

/// The line that holds `entry` in the log, without the line break.
/// Always succeeds.
pub fn entry_line(entry: &AuditEntry) -> (result: Result<String, AuditError>)
    ensures
        result matches Ok(line) && line@ == entry@.line_text(),
{
    let mut line = String::new();
    push_unsigned_fields(
        &mut line,
        entry.version,
        entry.seq,
        entry.unix_ms,
        &entry.event,
        as_deref(&entry.prev_hash),
    )?;
    line.append(",\"hash\":");
    push_json_string(&mut line, entry.hash.as_str())?;
    line.append("}");
    assert(line@ =~= entry@.line_text());
    Ok(line)
}

/// The end of a chain, as plain values: what the next entry must carry.
pub struct HeadView {
    /// The sequence number of the next entry.
    pub next_seq: u64,
    /// The hash of the last entry; none before the first.
    pub prev_hash: Option<Seq<char>>,
}

/// What is wrong with an entry at its place in the chain.
pub enum ChainFault {
    /// Its sequence number is not the next one.
    Sequence,
    /// It does not name the hash of the entry before it.
    PrevHash,
    /// Its stored hash is not the hash of its fields.
    Hash,
}

impl HeadView {
    /// The end of an empty chain: the first entry has number 1 and names no
    /// earlier hash.
    pub open spec fn genesis() -> HeadView {
        HeadView { next_seq: 1, prev_hash: None }
    }

    /// The end of the chain once `entry` has been added.
    pub open spec fn after(self, entry: EntryView) -> HeadView {
        HeadView {
            next_seq: if self.next_seq < u64::MAX {
                (self.next_seq + 1) as u64
            } else {
                u64::MAX
            },
            prev_hash: Some(entry.hash),
        }
    }

    /// The end of a chain of which only the last entry is known.
    pub open spec fn resumed(last: EntryView) -> HeadView {
        HeadView {
            next_seq: if last.seq < u64::MAX {
                (last.seq + 1) as u64
            } else {
                u64::MAX
            },
            prev_hash: Some(last.hash),
        }
    }

    /// The entry that records `event` at time `unix_ms` at this end of the
    /// chain.
    pub open spec fn sealed(self, unix_ms: u64, event: EventView) -> EntryView {
        EntryView {
            version: 1,
            seq: self.next_seq,
            unix_ms,
            event,
            prev_hash: self.prev_hash,
            hash: entry_hash(1, self.next_seq, unix_ms, event, self.prev_hash),
        }
    }

    /// The first thing found wrong with `entry` as the next entry, if
    /// anything: its number, then the hash it names, then its own hash.
    pub open spec fn fault(self, entry: EntryView) -> Option<ChainFault> {
        if entry.seq != self.next_seq {
            Some(ChainFault::Sequence)
        } else if entry.prev_hash != self.prev_hash {
            Some(ChainFault::PrevHash)
        } else if entry.hash != entry.computed_hash() {
            Some(ChainFault::Hash)
        } else {
            None
        }
    }

    /// Whether `entry` is a sound next entry.
    pub open spec fn accepts(self, entry: EntryView) -> bool {
        self.fault(entry) is None
    }
}

/// The words that report `fault` for the entry on line `line`.
pub open spec fn fault_message(line: nat, head: HeadView, entry: EntryView, fault: ChainFault) -> Seq<
    char,
> {
    match fault {
        ChainFault::Sequence => "seq mismatch at line "@ + decimal_text(line) + ": expected "@
            + decimal_text(head.next_seq as nat) + ", got "@ + decimal_text(entry.seq as nat),
        ChainFault::PrevHash => "prev_hash mismatch at line "@ + decimal_text(line),
        ChainFault::Hash => "hash mismatch at line "@ + decimal_text(line),
    }
}

/// The end of the chain that `entries` make when added, in order, at `head`.
pub open spec fn head_after(head: HeadView, entries: Seq<EntryView>) -> HeadView
    decreases entries.len(),
{
    if entries.len() == 0 {
        head
    } else {
        head_after(head, entries.drop_last()).after(entries.last())
    }
}

/// Whether `entries` continue a chain that ends at `head`: each entry is a
/// sound next entry where it stands.
pub open spec fn chain_from(head: HeadView, entries: Seq<EntryView>) -> bool
    decreases entries.len(),
{
    entries.len() == 0 || (chain_from(head, entries.drop_last()) && head_after(
        head,
        entries.drop_last(),
    ).accepts(entries.last()))
}

/// Whether `entries` are a whole, sound log.
pub open spec fn chain_valid(entries: Seq<EntryView>) -> bool {
    chain_from(HeadView::genesis(), entries)
}

/// Entries as plain values.
pub open spec fn entry_views(entries: Seq<AuditEntry>) -> Seq<EntryView> {
    entries.map_values(|entry: AuditEntry| entry@)
}

/// The writing end of an audit chain: the number that the next entry gets
/// and the hash that it must name. Appends are one at a time; whoever shares
/// a writer serializes access to it.
#[derive(Debug)]
pub struct AuditChainWriter {
    next_seq: u64,
    prev_hash: Option<String>,
}

impl View for AuditChainWriter {
    type V = HeadView;

    closed spec fn view(&self) -> HeadView {
        HeadView { next_seq: self.next_seq, prev_hash: text_of(self.prev_hash) }
    }
}

/// Whether two optional strings hold the same text, or both none.
fn same_text(a: &Option<String>, b: &Option<String>) -> (same: bool)
    ensures
        same == (text_of(*a) == text_of(*b)),
{
    match (a, b) {
        (Some(x), Some(y)) => *x == *y,
        (None, None) => true,
        _ => false,
    }
}

fn saturating_next(seq: u64) -> (next: u64)
    ensures
        next == if seq < u64::MAX {
            (seq + 1) as u64
        } else {
            u64::MAX
        },
{
    if seq < u64::MAX {
        seq + 1
    } else {
        u64::MAX
    }
}

impl AuditChainWriter {
    /// Takes up a chain at its end. `last` is the last record of the log, or
    /// nothing for a fresh log. A last record whose stored hash is not the
    /// hash of its own fields is refused: a corrupted log is not continued.
    pub fn open(last: Option<AuditEntry>) -> (result: Result<Self, AuditError>)
        ensures
            match result {
                Ok(writer) => match last {
                    Some(entry) => entry@.hash == entry@.computed_hash() && writer@
                        == HeadView::resumed(entry@),
                    None => writer@ == HeadView::genesis(),
                },
                Err(AuditError::Invalid(reason)) => last matches Some(entry) && entry@.hash
                    != entry@.computed_hash() && reason@ == "last entry hash mismatch"@,
                Err(_) => false,
            },
    {
        match last {
            Some(entry) => {
                let expected = compute_hash(
                    entry.version,
                    entry.seq,
                    entry.unix_ms,
                    &entry.event,
                    as_deref(&entry.prev_hash),
                )?;
                if !(expected == entry.hash) {
                    return Err(AuditError::Invalid("last entry hash mismatch".to_owned()));
                }
                Ok(Self { next_seq: saturating_next(entry.seq), prev_hash: Some(entry.hash) })
            },
            None => Ok(Self { next_seq: 1, prev_hash: None }),
        }
    }

    /// Builds the entry that records `event` at time `unix_ms` at the end of
    /// the chain. The chain itself is left as it is: the entry counts once it
    /// has been written and `commit` is called. Always succeeds.
    pub fn prepare(&self, unix_ms: u64, event: AuditEvent) -> (result: Result<
        AuditEntry,
        AuditError,
    >)
        ensures
            result matches Ok(entry) && entry@ == self@.sealed(unix_ms, event@),
    {
        let version: u32 = 1;
        let seq = self.next_seq;
        let hash = compute_hash(version, seq, unix_ms, &event, as_deref(&self.prev_hash))?;
        let prev_hash = match &self.prev_hash {
            Some(text) => Some(text.clone()),
            None => None,
        };
        Ok(AuditEntry { version, seq, unix_ms, event, prev_hash, hash })
    }

    /// Moves the end of the chain past `entry`.
    pub fn commit(&mut self, entry: &AuditEntry)
        ensures
            final(self)@ == old(self)@.after(entry@),
    {
        self.next_seq = saturating_next(self.next_seq);
        self.prev_hash = Some(entry.hash.clone());
    }

    /// Appends the record of `event` at time `unix_ms`: builds the entry and
    /// moves the end of the chain past it. Always succeeds.
    pub fn append(&mut self, unix_ms: u64, event: AuditEvent) -> (result: Result<
        AuditEntry,
        AuditError,
    >)
        ensures
            result matches Ok(entry) && entry@ == old(self)@.sealed(unix_ms, event@),
            final(self)@ == old(self)@.after(result->Ok_0@),
    {
        let entry = self.prepare(unix_ms, event)?;
        self.commit(&entry);
        Ok(entry)
    }

    /// Checks that `entry`, read from line `line` of a log, is a sound next
    /// entry, and moves the end of the chain past it. An entry that is not
    /// sound is reported with its line and leaves the chain as it was.
    pub fn accept(&mut self, line: usize, entry: &AuditEntry) -> (result: Result<(), AuditError>)
        ensures
            match result {
                Ok(()) => old(self)@.accepts(entry@) && final(self)@ == old(self)@.after(entry@),
                Err(AuditError::Invalid(reason)) => old(self)@.fault(entry@) matches Some(fault)
                    && reason@ == fault_message(line as nat, old(self)@, entry@, fault)
                    && final(self)@ == old(self)@,
                Err(_) => false,
            },
    {
        if entry.seq != self.next_seq {
            let mut reason = "seq mismatch at line ".to_owned();
            push_decimal(&mut reason, line as u64);
            reason.append(": expected ");
            push_decimal(&mut reason, self.next_seq);
            reason.append(", got ");
            push_decimal(&mut reason, entry.seq);
            assert(reason@ =~= fault_message(line as nat, self@, entry@, ChainFault::Sequence));
            return Err(AuditError::Invalid(reason));
        }
        if !same_text(&entry.prev_hash, &self.prev_hash) {
            let mut reason = "prev_hash mismatch at line ".to_owned();
            push_decimal(&mut reason, line as u64);
            assert(reason@ =~= fault_message(line as nat, self@, entry@, ChainFault::PrevHash));
            return Err(AuditError::Invalid(reason));
        }
        let expected = compute_hash(
            entry.version,
            entry.seq,
            entry.unix_ms,
            &entry.event,
            as_deref(&entry.prev_hash),
        )?;
        if !(expected == entry.hash) {
            let mut reason = "hash mismatch at line ".to_owned();
            push_decimal(&mut reason, line as u64);
            assert(reason@ =~= fault_message(line as nat, self@, entry@, ChainFault::Hash));
            return Err(AuditError::Invalid(reason));
        }
        self.commit(entry);
        Ok(())
    }
}

/// Replays a log, given as its entries in order, one to a line from line 1:
/// every entry must have the next sequence number, counted from 1, name the
/// hash of the entry before it (none for the first), and store the hash of
/// its own fields. The first entry that does not is reported with its line.
pub fn verify_chain(entries: &Vec<AuditEntry>) -> (result: Result<(), AuditError>)
    ensures
        result is Ok <==> chain_valid(entry_views(entries@)),
        match result {
            Ok(()) => chain_valid(entry_views(entries@)),
            Err(AuditError::Invalid(reason)) => exists|i: int|
                {
                    &&& 0 <= i < entries@.len()
                    &&& chain_valid(entry_views(entries@).take(i))
                    &&& #[trigger] head_after(HeadView::genesis(), entry_views(entries@).take(i)).fault(
                        entries@[i]@,
                    ) matches Some(fault)
                    &&& reason@ == fault_message(
                        (i + 1) as nat,
                        head_after(HeadView::genesis(), entry_views(entries@).take(i)),
                        entries@[i]@,
                        fault,
                    )
                },
            Err(_) => false,
        },
{
    let ghost views = entry_views(entries@);
    let mut cursor = AuditChainWriter { next_seq: 1, prev_hash: None };
    let mut i: usize = 0;
    assert(views.take(0) =~= Seq::<EntryView>::empty());
    while i < entries.len()
        invariant
            i <= entries@.len(),
            views == entry_views(entries@),
            chain_valid(views.take(i as int)),
            cursor@ == head_after(HeadView::genesis(), views.take(i as int)),
        decreases entries@.len() - i,
    {
        proof {
            assert(views.take(i as int + 1).drop_last() =~= views.take(i as int));
            assert(views.take(i as int + 1).last() == entries@[i as int]@);
        }
        match cursor.accept(i + 1, &entries[i]) {
            Ok(()) => {},
            Err(error) => {
                proof {
                    if chain_valid(views) {
                        lemma_chain_prefix(HeadView::genesis(), views, i as int);
                    }
                }
                return Err(error);
            },
        }
        i += 1;
    }
    assert(views.take(i as int) =~= views);
    Ok(())
}

/// The entries that a writer at `head` produces for `stamped`, a list of
/// timestamps and events, appended in order.
pub open spec fn appended(head: HeadView, stamped: Seq<(u64, EventView)>) -> Seq<EntryView>
    decreases stamped.len(),
{
    if stamped.len() == 0 {
        Seq::empty()
    } else {
        let earlier = appended(head, stamped.drop_last());
        earlier.push(head_after(head, earlier).sealed(stamped.last().0, stamped.last().1))
    }
}

impl EntryView {
    /// Whether two entries agree in every field that the hash covers.
    pub open spec fn same_covered_fields(self, other: EntryView) -> bool {
        &&& self.version == other.version
        &&& self.seq == other.seq
        &&& self.unix_ms == other.unix_ms
        &&& self.event == other.event
        &&& self.prev_hash == other.prev_hash
    }
}

/// A chain can be cut anywhere: two runs of entries make a sound chain
/// together exactly when the first is sound from the start and the second is
/// sound from where the first ends.
pub proof fn lemma_chain_concat(head: HeadView, first: Seq<EntryView>, second: Seq<EntryView>)
    ensures
        head_after(head, first + second) == head_after(head_after(head, first), second),
        chain_from(head, first + second) <==> chain_from(head, first) && chain_from(
            head_after(head, first),
            second,
        ),
    decreases second.len(),
{
    if second.len() == 0 {
        assert(first + second =~= first);
    } else {
        lemma_chain_concat(head, first, second.drop_last());
        assert((first + second).drop_last() =~= first + second.drop_last());
        assert((first + second).last() == second.last());
    }
}

/// Every beginning of a sound chain is a sound chain, and the entry that
/// follows it is a sound next entry at its end.
pub proof fn lemma_chain_prefix(head: HeadView, entries: Seq<EntryView>, k: int)
    requires
        chain_from(head, entries),
        0 <= k <= entries.len(),
    ensures
        chain_from(head, entries.take(k)),
        k < entries.len() ==> head_after(head, entries.take(k)).accepts(entries[k]),
{
    let first = entries.take(k);
    let second = entries.skip(k);
    assert(first + second =~= entries);
    lemma_chain_concat(head, first, second);
    if k < entries.len() {
        let one = seq![entries[k]];
        let rest = second.skip(1);
        assert(one + rest =~= second);
        lemma_chain_concat(head_after(head, first), one, rest);
        assert(one.drop_last() =~= Seq::<EntryView>::empty());
        assert(one.last() == entries[k]);
    }
}

/// Appending any number of events and then replaying the log succeeds: the
/// entries that a writer produces, from whatever end of a chain it starts,
/// are a sound continuation of that chain, one entry for each event.
pub proof fn lemma_appended_chain_verifies(head: HeadView, stamped: Seq<(u64, EventView)>)
    ensures
        appended(head, stamped).len() == stamped.len(),
        chain_from(head, appended(head, stamped)),
        head == HeadView::genesis() ==> chain_valid(appended(head, stamped)),
    decreases stamped.len(),
{
    if stamped.len() > 0 {
        lemma_appended_chain_verifies(head, stamped.drop_last());
        let earlier = appended(head, stamped.drop_last());
        let entry = head_after(head, earlier).sealed(stamped.last().0, stamped.last().1);
        assert(earlier.push(entry).drop_last() =~= earlier);
    }
}

/// Reopening a sound log takes the chain up where it ended: the writer made
/// from the last entry stands at the end of the whole chain, so what it
/// appends continues the numbering, the first new entry names the hash of
/// the old last entry, and the longer log is sound.
pub proof fn lemma_reopen_continues(entries: Seq<EntryView>, stamped: Seq<(u64, EventView)>)
    requires
        chain_valid(entries),
        entries.len() > 0,
    ensures
        HeadView::resumed(entries.last()) == head_after(HeadView::genesis(), entries),
        chain_valid(entries + appended(HeadView::resumed(entries.last()), stamped)),
        stamped.len() > 0 ==> {
            let next = appended(HeadView::resumed(entries.last()), stamped)[0];
            &&& next.prev_hash == Some(entries.last().hash)
            &&& next.seq == HeadView::resumed(entries.last()).next_seq
            &&& entries.last().seq < u64::MAX ==> next.seq == entries.last().seq + 1
        },
{
    let head = HeadView::resumed(entries.last());
    lemma_appended_chain_verifies(head, stamped);
    lemma_chain_concat(HeadView::genesis(), entries, appended(head, stamped));
    if stamped.len() > 0 {
        lemma_appended_first(head, stamped);
    }
}

/// The first entry that a writer appends is the one sealed at its start.
proof fn lemma_appended_first(head: HeadView, stamped: Seq<(u64, EventView)>)
    requires
        stamped.len() > 0,
    ensures
        appended(head, stamped).len() == stamped.len(),
        appended(head, stamped)[0] == head.sealed(stamped[0].0, stamped[0].1),
    decreases stamped.len(),
{
    lemma_appended_chain_verifies(head, stamped);
    lemma_appended_chain_verifies(head, stamped.drop_last());
    if stamped.len() > 1 {
        lemma_appended_first(head, stamped.drop_last());
    } else {
        assert(appended(head, stamped.drop_last()) =~= Seq::<EntryView>::empty());
    }
}

/// Changing one field of one line of a sound log is always found out. Let
/// `forged` differ from the entry at place `i`, either in the stored hash
/// alone or in covered fields alone, and let the change of covered fields
/// change their hash. Then the replay fails at that very entry, and so the
/// changed log is not sound, while the lines before it are still sound.
pub proof fn lemma_tamper_detected(
    head: HeadView,
    entries: Seq<EntryView>,
    i: int,
    forged: EntryView,
)
    requires
        chain_from(head, entries),
        0 <= i < entries.len(),
        forged != entries[i],
        forged.hash == entries[i].hash || forged.same_covered_fields(entries[i]),
        !forged.same_covered_fields(entries[i]) ==> forged.computed_hash()
            != entries[i].computed_hash(),
    ensures
        entries.update(i, forged).take(i) == entries.take(i),
        chain_from(head, entries.take(i)),
        head_after(head, entries.take(i)).fault(forged) is Some,
        !chain_from(head, entries.update(i, forged)),
{
    let changed = entries.update(i, forged);
    assert(changed.take(i) =~= entries.take(i));
    lemma_chain_prefix(head, entries, i);
    let at = head_after(head, entries.take(i));
    assert(at.accepts(entries[i]));
    if at.fault(forged) is None {
        if forged.same_covered_fields(entries[i]) {
            assert(forged.computed_hash() == entries[i].computed_hash());
        }
        assert(forged.hash == entries[i].hash);
        assert(forged.same_covered_fields(entries[i]));
        assert(false);
    }
    if chain_from(head, changed) {
        lemma_chain_prefix(head, changed, i);
        assert(false);
    }
}

} // verus!

//! Fingerprints of observed items, deletion records, and the hashes that
//! fingerprints are made of.

use vstd::prelude::*;
use vstd::string::*;

verus! {

/// Compact, comparable summary of an item's content and attachments at one
/// point in time.
#[derive(Debug, Clone)]
pub struct MessageFingerprint {
    pub message_id: i32,
    /// Digest of the item's text.
    pub content_hash: String,
    /// Digests of the item's attachment metadata, in order.
    pub attachment_hashes: Vec<String>,
    /// When the fingerprint was taken, in seconds since the Unix epoch.
    pub timestamp: i64,
    pub conversation_id: Option<i32>,
    pub sender_handle: Option<String>,
    /// The item's text as it was seen, kept so that a removal can be
    /// reported with what was removed.
    pub content: Option<String>,
}

/// Mathematical model of a [`MessageFingerprint`].
pub struct FingerprintView {
    pub message_id: i32,
    pub content_hash: Seq<char>,
    pub attachment_hashes: Seq<Seq<char>>,
    pub timestamp: i64,
    pub conversation_id: Option<i32>,
    pub sender_handle: Option<Seq<char>>,
    pub content: Option<Seq<char>>,
}

impl View for MessageFingerprint {
    type V = FingerprintView;

    open spec fn view(&self) -> FingerprintView {
        FingerprintView {
            message_id: self.message_id,
            content_hash: self.content_hash@,
            attachment_hashes: self.attachment_hashes.deep_view(),
            timestamp: self.timestamp,
            conversation_id: self.conversation_id,
            sender_handle: self.sender_handle.deep_view(),
            content: self.content.deep_view(),
        }
    }
}

/// Immutable journal entry describing one detected removal or edit.
#[derive(Debug, Clone)]
pub struct DeletionRecord {
    /// Journal id; zero until the record is appended to the journal.
    pub id: i64,
    pub message_id: i32,
    /// The item's fingerprint as it was last seen before the removal.
    pub original_fingerprint: MessageFingerprint,
    /// When the removal was detected, in seconds since the Unix epoch.
    pub deletion_timestamp: i64,
    /// Name of the classification that reported the removal.
    pub deletion_type: String,
    pub recovered_content: Option<String>,
    pub recovered_attachments: Vec<String>,
}

/// Mathematical model of a [`DeletionRecord`].
pub struct RecordView {
    pub id: i64,
    pub message_id: i32,
    pub original_fingerprint: FingerprintView,
    pub deletion_timestamp: i64,
    pub deletion_type: Seq<char>,
    pub recovered_content: Option<Seq<char>>,
    pub recovered_attachments: Seq<Seq<char>>,
}

impl View for DeletionRecord {
    type V = RecordView;

    open spec fn view(&self) -> RecordView {
        RecordView {
            id: self.id,
            message_id: self.message_id,
            original_fingerprint: self.original_fingerprint@,
            deletion_timestamp: self.deletion_timestamp,
            deletion_type: self.deletion_type@,
            recovered_content: self.recovered_content.deep_view(),
            recovered_attachments: self.recovered_attachments.deep_view(),
        }
    }
}

/// A copy of a list of texts.
pub fn copy_texts(v: &Vec<String>) -> (r: Vec<String>)
    ensures
        r.deep_view() == v.deep_view(),
{
    let r = v.clone();
    assert(r.deep_view() =~= v.deep_view());
    r
}

/// A copy of an optional text.
pub fn copy_opt_text(o: &Option<String>) -> (r: Option<String>)
    ensures
        r.deep_view() == o.deep_view(),
{
    match o {
        Some(s) => Some(s.clone()),
        None => None,
    }
}

impl MessageFingerprint {
    /// A copy of this fingerprint.
    pub fn snapshot(&self) -> (r: MessageFingerprint)
        ensures
            r@ == self@,
    {
        MessageFingerprint {
            message_id: self.message_id,
            content_hash: self.content_hash.clone(),
            attachment_hashes: copy_texts(&self.attachment_hashes),
            timestamp: self.timestamp,
            conversation_id: self.conversation_id,
            sender_handle: copy_opt_text(&self.sender_handle),
            content: copy_opt_text(&self.content),
        }
    }
}

impl DeletionRecord {
    /// A copy of this record.
    pub fn snapshot(&self) -> (r: DeletionRecord)
        ensures
            r@ == self@,
    {
        DeletionRecord {
            id: self.id,
            message_id: self.message_id,
            original_fingerprint: self.original_fingerprint.snapshot(),
            deletion_timestamp: self.deletion_timestamp,
            deletion_type: self.deletion_type.clone(),
            recovered_content: copy_opt_text(&self.recovered_content),
            recovered_attachments: copy_texts(&self.recovered_attachments),
        }
    }
}

/// The BLAKE3 digest of the UTF-8 encoding of a text, in lowercase
/// hexadecimal.
pub uninterp spec fn blake3_hex_of(text: Seq<char>) -> Seq<char>;

/// Relies on `blake3::hash` and `blake3::Hash::to_hex`: the digest of the
/// text's bytes, written as 64 lowercase hexadecimal digits.
#[verifier::external_body]
fn blake3_hex(text: &str) -> (r: String)
    ensures
        r@ == blake3_hex_of(text@),
        r@.len() == 64,
{
    blake3::hash(text.as_bytes()).to_hex().to_string()
}

/// The character of a decimal digit.
pub open spec fn digit_char(d: int) -> char {
    seq!['0', '1', '2', '3', '4', '5', '6', '7', '8', '9'][d]
}

/// Decimal digits of a natural number, without leading zeros.
pub open spec fn unsigned_text(n: nat) -> Seq<char>
    decreases n,
{
    if n < 10 {
        seq![digit_char(n as int)]
    } else {
        unsigned_text(n / 10) + seq![digit_char((n % 10) as int)]
    }
}

/// Decimal text of an integer, with a leading minus sign when negative.
pub open spec fn decimal_text(n: int) -> Seq<char> {
    if n < 0 {
        seq!['-'] + unsigned_text((-n) as nat)
    } else {
        unsigned_text(n as nat)
    }
}

/// Relies on `u64`'s `Display`: its decimal digits.
#[verifier::external_body]
fn unsigned_decimal(n: u64) -> (r: String)
    ensures
        r@ == decimal_text(n as int),
{
    n.to_string()
}

/// Relies on `i64`'s `Display`: its decimal digits, with a minus sign when
/// negative.
#[verifier::external_body]
fn signed_decimal(n: i64) -> (r: String)
    ensures
        r@ == decimal_text(n as int),
{
    n.to_string()
}

/// Decimal text of a message id.
pub fn id_text(n: i32) -> (r: String)
    ensures
        r@ == decimal_text(n as int),
{
    signed_decimal(n as i64)
}

/// Decimal text of a timestamp or journal id.
pub fn signed_text(n: i64) -> (r: String)
    ensures
        r@ == decimal_text(n as int),
{
    signed_decimal(n)
}

/// The text an attachment's metadata digest is taken over:
/// `filename:size:modified`, with an unknown modification time written as 0.
pub open spec fn attachment_key(filename: Seq<char>, size: u64, modified: Option<i64>) -> Seq<char> {
    let m: int = match modified {
        Some(t) => t as int,
        None => 0,
    };
    filename + seq![':'] + decimal_text(size as int) + seq![':'] + decimal_text(m)
}

/// Content digest of an item's text.
pub fn hash_content(content: &str) -> (r: String)
    ensures
        r@ == blake3_hex_of(content@),
{
    blake3_hex(content)
}

/// Digest of an attachment's metadata: its file name, size and modification
/// time. File bytes are not read, so two files with the same metadata have
/// the same digest.
pub fn hash_attachment(filename: &str, size: u64, modified: Option<i64>) -> (r: String)
    ensures
        r@ == blake3_hex_of(attachment_key(filename@, size, modified)),
{
    let mut key = String::from_str(filename);
    let sep = ":";
    proof {
        reveal_strlit(":");
    }
    key.append(sep);
    let size_text = unsigned_decimal(size);
    key.append(size_text.as_str());
    key.append(sep);
    let m: i64 = match modified {
        Some(t) => t,
        None => 0,
    };
    let m_text = signed_decimal(m);
    key.append(m_text.as_str());
    assert(key@ =~= attachment_key(filename@, size, modified));
    blake3_hex(key.as_str())
}

} // verus!

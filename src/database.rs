//! Rows of the monitored message store, the current fingerprint of a row,
//! and the rules of the polling tracker that compares cached rows with
//! fresh ones.
//!
//! Querying the store is left to the caller, which hands rows over as
//! plain values.

use vstd::prelude::*;
use vstd::string::*;
use crate::fingerprint::{
    MessageFingerprint, FingerprintView, hash_content, hash_attachment, blake3_hex_of,
    attachment_key, decimal_text, id_text, copy_opt_text,
};

verus! {

/// One row of the monitored store's message table.
#[derive(Debug, Clone)]
pub struct RealMessage {
    pub id: i32,
    pub guid: String,
    pub text: Option<String>,
    pub handle_id: Option<i32>,
    pub date: i64,
    pub date_edited: Option<i64>,
    pub date_retracted: Option<i64>,
    pub is_from_me: bool,
    pub cache_has_attachments: bool,
}

/// One row of the monitored store's handle table: a correspondent.
#[derive(Debug, Clone)]
pub struct Handle {
    pub id: i32,
    pub identifier: String,
    pub service: String,
}

/// Metadata of one attachment of a message.
#[derive(Debug, Clone)]
pub struct AttachmentMeta {
    pub filename: String,
    pub size: u64,
    /// Modification time, in seconds since the Unix epoch, when known.
    pub modified: Option<i64>,
}

/// A removal found by the polling tracker.
#[derive(Debug, Clone)]
pub struct DeletionEvent {
    pub message_id: i32,
    /// When the message was sent, in seconds.
    pub timestamp: i64,
    pub content: Option<String>,
    pub attachments: Vec<String>,
    pub sender: String,
}

/// Mathematical model of a [`DeletionEvent`].
pub struct DeletionEventView {
    pub message_id: i32,
    pub timestamp: i64,
    pub content: Option<Seq<char>>,
    pub attachments: Seq<Seq<char>>,
    pub sender: Seq<char>,
}

impl View for DeletionEvent {
    type V = DeletionEventView;

    open spec fn view(&self) -> DeletionEventView {
        DeletionEventView {
            message_id: self.message_id,
            timestamp: self.timestamp,
            content: self.content.deep_view(),
            attachments: self.attachments.deep_view(),
            sender: self.sender@,
        }
    }
}

/// Whether a text is empty once leading and trailing white space is
/// removed.
pub uninterp spec fn trims_to_empty(s: Seq<char>) -> bool;

/// Relies on `str::trim`: whether nothing is left of the text once leading
/// and trailing Unicode white space is removed; an empty text is blank.
#[verifier::external_body]
fn is_blank(s: &str) -> (r: bool)
    ensures
        r == trims_to_empty(s@),
        s@.len() == 0 ==> r,
{
    s.trim().is_empty()
}

/// Whether `needle` occurs in `hay` as a run of consecutive characters.
pub open spec fn contains_text(hay: Seq<char>, needle: Seq<char>) -> bool {
    exists|i: int|
        0 <= i && i + needle.len() <= hay.len() && #[trigger] hay.subrange(i, i + needle.len())
            == needle
}

/// Relies on `str::contains` with a `&str` pattern: whether the pattern
/// occurs in the text.
#[verifier::external_body]
fn text_contains(hay: &str, needle: &str) -> (r: bool)
    ensures
        r == contains_text(hay@, needle@),
{
    hay.contains(needle)
}

/// Whether a message text is present and not blank.
pub open spec fn has_visible_text(text: Option<Seq<char>>) -> bool {
    match text {
        Some(t) => !trims_to_empty(t),
        None => false,
    }
}

/// Whether a message text is present and not blank.
pub fn visible_text(text: &Option<String>) -> (r: bool)
    ensures
        r == has_visible_text(text.deep_view()),
{
    match text {
        Some(t) => !is_blank(t.as_str()),
        None => false,
    }
}

/// Whether an optional edit time is later than another; a known time is
/// later than an unknown one.
pub open spec fn edited_later(current: Option<i64>, cached: Option<i64>) -> bool {
    match (current, cached) {
        (Some(a), Some(b)) => a > b,
        (Some(_), None) => true,
        _ => false,
    }
}

/// Whether a message whose cached row is `cached` and whose fresh row is
/// `current` had its text silently removed: the cached text was visible,
/// the fresh one is not, and the fresh row was edited after the cached one.
pub open spec fn silently_deleted(cached: RealMessage, current: RealMessage) -> bool {
    &&& has_visible_text(cached.text.deep_view())
    &&& !has_visible_text(current.text.deep_view())
    &&& edited_later(current.date_edited, cached.date_edited)
}

/// Whether the fresh row `current` of the cached message `cached` shows a
/// silent removal of its text.
pub fn is_silent_deletion(cached: &RealMessage, current: &RealMessage) -> (r: bool)
    ensures
        r == silently_deleted(*cached, *current),
{
    if !visible_text(&cached.text) || visible_text(&current.text) {
        return false;
    }
    match (current.date_edited, cached.date_edited) {
        (Some(a), Some(b)) => a > b,
        (Some(_), None) => true,
        _ => false,
    }
}

/// The first handle of `handles` with id `id`.
pub open spec fn handle_for(handles: Seq<Handle>, id: i32) -> Option<Handle>
    decreases handles.len(),
{
    if handles.len() == 0 {
        None
    } else if handles[0].id == id {
        Some(handles[0])
    } else {
        handle_for(handles.drop_first(), id)
    }
}

/// The first handle of `handles` with id `handle_id`.
pub fn get_handle(handles: &Vec<Handle>, handle_id: i32) -> (r: Option<&Handle>)
    ensures
        match r {
            Some(h) => handle_for(handles@, handle_id) == Some(*h),
            None => handle_for(handles@, handle_id) is None,
        },
{
    let mut k: usize = 0;
    proof {
        assert(handles@.skip(0) =~= handles@);
    }
    while k < handles.len()
        invariant
            k <= handles@.len(),
            handle_for(handles@, handle_id) == handle_for(handles@.skip(k as int), handle_id),
        decreases handles@.len() - k,
    {
        proof {
            assert(handles@.skip(k as int).drop_first() =~= handles@.skip(k + 1));
            assert(handles@.skip(k as int)[0] == handles@[k as int]);
        }
        if handles[k].id == handle_id {
            return Some(&handles[k]);
        }
        k = k + 1;
    }
    None
}

/// Whether a message belongs to a conversation matching `filter`: its
/// correspondent's identifier contains the filter; a message without a
/// known correspondent matches when it was sent by the user.
pub open spec fn matches_filter(msg: RealMessage, handles: Seq<Handle>, filter: Seq<char>) -> bool {
    match msg.handle_id {
        Some(hid) => match handle_for(handles, hid) {
            Some(h) => contains_text(h.identifier@, filter),
            None => msg.is_from_me,
        },
        None => msg.is_from_me,
    }
}

/// Whether `msg` belongs to a conversation matching `filter`.
pub fn conversation_matches(msg: &RealMessage, handles: &Vec<Handle>, filter: &str) -> (r: bool)
    ensures
        r == matches_filter(*msg, handles@, filter@),
{
    match msg.handle_id {
        Some(hid) => match get_handle(handles, hid) {
            Some(h) => text_contains(h.identifier.as_str(), filter),
            None => msg.is_from_me,
        },
        None => msg.is_from_me,
    }
}

/// Nanoseconds per second.
pub const NANOS_PER_SECOND: i64 = 1000000000;

/// Integer division rounding toward zero.
pub open spec fn div_toward_zero(a: int, b: int) -> int {
    if a >= 0 {
        a / b
    } else {
        -((-a) / b)
    }
}

/// Who sent a message, as shown in a deletion event.
pub open spec fn sender_of(msg: RealMessage, handles: Seq<Handle>) -> Seq<char> {
    match msg.handle_id {
        Some(hid) => match handle_for(handles, hid) {
            Some(h) => h.identifier@,
            None => "Unknown (ID: "@ + decimal_text(hid as int) + ")"@,
        },
        None => if msg.is_from_me {
            "Me"@
        } else {
            "Unknown"@
        },
    }
}

/// The deletion event reported for the cached row `msg`.
pub open spec fn event_for(msg: RealMessage, handles: Seq<Handle>) -> DeletionEventView {
    DeletionEventView {
        message_id: msg.id,
        timestamp: div_toward_zero(msg.date as int, NANOS_PER_SECOND as int) as i64,
        content: msg.text.deep_view(),
        attachments: if msg.cache_has_attachments {
            seq!["attachment_"@ + decimal_text(msg.id as int) + ".dat"@]
        } else {
            Seq::empty()
        },
        sender: sender_of(msg, handles),
    }
}

/// The deletion event for the cached row `original_message`: its id, its
/// send time in seconds, its text, a placeholder attachment name when it had
/// attachments, and its sender.
pub fn create_deletion_event(original_message: &RealMessage, handles: &Vec<Handle>) -> (r: DeletionEvent)
    ensures
        r@ == event_for(*original_message, handles@),
{
    let sender = match original_message.handle_id {
        Some(hid) => match get_handle(handles, hid) {
            Some(h) => h.identifier.clone(),
            None => {
                let mut s = String::from_str("Unknown (ID: ");
                let n = id_text(hid);
                s.append(n.as_str());
                s.append(")");
                s
            },
        },
        None => if original_message.is_from_me {
            String::from_str("Me")
        } else {
            String::from_str("Unknown")
        },
    };
    let date = original_message.date as i128;
    let seconds: i128 = if date >= 0 {
        date / (NANOS_PER_SECOND as i128)
    } else {
        -((-date) / (NANOS_PER_SECOND as i128))
    };
    let mut attachments: Vec<String> = Vec::new();
    if original_message.cache_has_attachments {
        let mut name = String::from_str("attachment_");
        let n = id_text(original_message.id);
        name.append(n.as_str());
        name.append(".dat");
        attachments.push(name);
    }
    let r = DeletionEvent {
        message_id: original_message.id,
        timestamp: seconds as i64,
        content: copy_opt_text(&original_message.text),
        attachments,
        sender,
    };
    assert(r@.attachments =~= event_for(*original_message, handles@).attachments);
    r
}

/// Models of a list of events.
pub open spec fn event_views(s: Seq<DeletionEvent>) -> Seq<DeletionEventView> {
    s.map_values(|e: DeletionEvent| e@)
}

/// The models of the attachments' metadata digests.
pub open spec fn attachment_digests(atts: Seq<AttachmentMeta>) -> Seq<Seq<char>> {
    atts.map_values(
        |a: AttachmentMeta| blake3_hex_of(attachment_key(a.filename@, a.size, a.modified)),
    )
}

/// The current fingerprint of a message taken at `now`, or none when the
/// message can no longer be found or was retracted: the digest of its text
/// (an absent text counts as empty), the digests of its attachments'
/// metadata in order, its sender's identifier when known, and its text.
pub open spec fn current_fingerprint_of(
    msg: Option<RealMessage>,
    handles: Seq<Handle>,
    atts: Seq<AttachmentMeta>,
    now: i64,
) -> Option<FingerprintView> {
    match msg {
        None => None,
        Some(m) => if m.date_retracted is Some {
            None
        } else {
            Some(
                FingerprintView {
                    message_id: m.id,
                    content_hash: blake3_hex_of(
                        match m.text {
                            Some(t) => t@,
                            None => Seq::empty(),
                        },
                    ),
                    attachment_hashes: attachment_digests(atts),
                    timestamp: now,
                    conversation_id: None,
                    sender_handle: match m.handle_id {
                        Some(hid) => match handle_for(handles, hid) {
                            Some(h) => Some(h.identifier@),
                            None => None,
                        },
                        None => None,
                    },
                    content: m.text.deep_view(),
                },
            )
        },
    }
}

/// The current fingerprint of `message`, taken at `now`, with the metadata
/// of its attachments `attachments`.
pub fn build_current_fingerprint(
    message: Option<&RealMessage>,
    handles: &Vec<Handle>,
    attachments: &Vec<AttachmentMeta>,
    now: i64,
) -> (r: Option<MessageFingerprint>)
    ensures
        match r {
            Some(f) => current_fingerprint_of(
                match message {
                    Some(m) => Some(*m),
                    None => None,
                },
                handles@,
                attachments@,
                now,
            ) == Some(f@),
            None => current_fingerprint_of(
                match message {
                    Some(m) => Some(*m),
                    None => None,
                },
                handles@,
                attachments@,
                now,
            ) is None,
        },
{
    let m = match message {
        Some(m) => m,
        None => return None,
    };
    if m.date_retracted.is_some() {
        return None;
    }
    let content_hash = match &m.text {
        Some(t) => hash_content(t.as_str()),
        None => {
            let empty = "";
            proof {
                reveal_strlit("");
                assert(empty@ =~= Seq::<char>::empty());
            }
            hash_content(empty)
        },
    };
    let mut hashes: Vec<String> = Vec::new();
    let mut i: usize = 0;
    while i < attachments.len()
        invariant
            i <= attachments@.len(),
            hashes.deep_view() == attachment_digests(attachments@).take(i as int),
        decreases attachments@.len() - i,
    {
        let a = &attachments[i];
        let h = hash_attachment(a.filename.as_str(), a.size, a.modified);
        let ghost before = hashes.deep_view();
        hashes.push(h);
        proof {
            assert(hashes.deep_view() =~= before.push(h@));
            assert(attachment_digests(attachments@).take(i + 1) =~= attachment_digests(
                attachments@,
            ).take(i as int).push(h@));
        }
        i = i + 1;
    }
    proof {
        assert(attachment_digests(attachments@).take(i as int) =~= attachment_digests(attachments@));
    }
    let sender = match m.handle_id {
        Some(hid) => match get_handle(handles, hid) {
            Some(h) => Some(h.identifier.clone()),
            None => None,
        },
        None => None,
    };
    let f = MessageFingerprint {
        message_id: m.id,
        content_hash,
        attachment_hashes: hashes,
        timestamp: now,
        conversation_id: None,
        sender_handle: sender,
        content: copy_opt_text(&m.text),
    };
    proof {
        let expected = current_fingerprint_of(Some(*m), handles@, attachments@, now).unwrap();
        assert(f@.content_hash == expected.content_hash);
        assert(f@.attachment_hashes == expected.attachment_hashes);
        assert(f@.sender_handle == expected.sender_handle);
        assert(f@.content == expected.content);
    }
    Some(f)
}

} // verus!

//! Classification of fingerprint transitions: an ordered list of
//! classifiers, of which the first that reports something wins.

use vstd::prelude::*;
use vstd::string::*;
use crate::config::{DeletionType, DetectionConfig};
use crate::fingerprint::{
    MessageFingerprint, FingerprintView, DeletionRecord, RecordView, copy_opt_text,
};
use crate::state_manager::{StateManager, record_views};
use crate::event_system::DatabaseEvent;

verus! {

/// What a classifier reports about one item.
#[derive(Debug, Clone)]
pub struct DetectionResult {
    pub deletion_type: DeletionType,
    /// Content recovered from the previous fingerprint, if any.
    pub recovered_content: Option<String>,
    /// Attachment digests that were removed.
    pub recovered_attachments: Vec<String>,
}

/// Mathematical model of a [`DetectionResult`].
pub struct DetectionView {
    pub deletion_type: DeletionType,
    pub recovered_content: Option<Seq<char>>,
    pub recovered_attachments: Seq<Seq<char>>,
}

impl View for DetectionResult {
    type V = DetectionView;

    open spec fn view(&self) -> DetectionView {
        DetectionView {
            deletion_type: self.deletion_type,
            recovered_content: self.recovered_content.deep_view(),
            recovered_attachments: self.recovered_attachments.deep_view(),
        }
    }
}

/// The classifiers, in priority order.
#[derive(Debug, Clone, Copy, PartialEq, Eq, Structural)]
pub enum DeletionDetector {
    /// The item vanished, or its content was replaced where that is
    /// configured to count as a full deletion.
    FullMessage,
    /// The content is unchanged but attachments were removed.
    AttachmentOnly,
    /// The content changed while the item is still present.
    PartialEdit,
}

/// What classifiers see besides the two fingerprints.
#[derive(Debug, Clone)]
pub struct DetectionContext {
    pub config: DetectionConfig,
}

/// The observed state of one changed item: its id, and its current
/// fingerprint, or none when it can no longer be found.
#[derive(Debug, Clone)]
pub struct ItemSnapshot {
    pub message_id: i32,
    pub current: Option<MessageFingerprint>,
}

/// The classification type a classifier reports.
pub open spec fn supported_type(d: DeletionDetector) -> DeletionType {
    match d {
        DeletionDetector::FullMessage => DeletionType::FullMessage,
        DeletionDetector::AttachmentOnly => DeletionType::AttachmentOnly,
        DeletionDetector::PartialEdit => DeletionType::PartialEdit,
    }
}

/// The digests of `prev` that are not in `curr`, in the order of `prev`.
pub open spec fn missing_attachments(prev: Seq<Seq<char>>, curr: Seq<Seq<char>>) -> Seq<Seq<char>> {
    prev.filter(|h: Seq<char>| !curr.contains(h))
}

/// What classifier `d` reports for the transition from `prev` to `curr`.
pub open spec fn detects(
    d: DeletionDetector,
    prev: Option<FingerprintView>,
    curr: Option<FingerprintView>,
    config: DetectionConfig,
) -> Option<DetectionView> {
    match d {
        DeletionDetector::FullMessage => match (prev, curr) {
            (Some(p), None) => Some(
                DetectionView {
                    deletion_type: DeletionType::FullMessage,
                    recovered_content: p.content,
                    recovered_attachments: p.attachment_hashes,
                },
            ),
            (Some(p), Some(c)) => if config.content_change_is_full_deletion && p.content_hash
                != c.content_hash {
                Some(
                    DetectionView {
                        deletion_type: DeletionType::FullMessage,
                        recovered_content: p.content,
                        recovered_attachments: missing_attachments(
                            p.attachment_hashes,
                            c.attachment_hashes,
                        ),
                    },
                )
            } else {
                None
            },
            _ => None,
        },
        DeletionDetector::AttachmentOnly => match (prev, curr) {
            (Some(p), Some(c)) => if p.content_hash == c.content_hash && missing_attachments(
                p.attachment_hashes,
                c.attachment_hashes,
            ).len() > 0 {
                Some(
                    DetectionView {
                        deletion_type: DeletionType::AttachmentOnly,
                        recovered_content: None,
                        recovered_attachments: missing_attachments(
                            p.attachment_hashes,
                            c.attachment_hashes,
                        ),
                    },
                )
            } else {
                None
            },
            _ => None,
        },
        DeletionDetector::PartialEdit => match (prev, curr) {
            (Some(p), Some(c)) => if config.track_edits_as_deletions && p.content_hash
                != c.content_hash {
                Some(
                    DetectionView {
                        deletion_type: DeletionType::PartialEdit,
                        recovered_content: if config.recover_edited_content {
                            p.content
                        } else {
                            None
                        },
                        recovered_attachments: Seq::empty(),
                    },
                )
            } else {
                None
            },
            _ => None,
        },
    }
}

/// The classifiers that stay active under a list of enabled types, in
/// priority order: full message, attachment only, partial edit.
pub open spec fn active_detectors(types: Seq<DeletionType>) -> Seq<DeletionDetector> {
    (if types.contains(DeletionType::FullMessage) {
        seq![DeletionDetector::FullMessage]
    } else {
        Seq::empty()
    }) + (if types.contains(DeletionType::AttachmentOnly) {
        seq![DeletionDetector::AttachmentOnly]
    } else {
        Seq::empty()
    }) + (if types.contains(DeletionType::PartialEdit) {
        seq![DeletionDetector::PartialEdit]
    } else {
        Seq::empty()
    })
}

/// The report of the first classifier of `ds` that reports something.
pub open spec fn first_detection(
    ds: Seq<DeletionDetector>,
    prev: Option<FingerprintView>,
    curr: Option<FingerprintView>,
    config: DetectionConfig,
) -> Option<DetectionView>
    decreases ds.len(),
{
    if ds.len() == 0 {
        None
    } else {
        match detects(ds[0], prev, curr, config) {
            Some(r) => Some(r),
            None => first_detection(ds.drop_first(), prev, curr, config),
        }
    }
}

/// The name under which a classification type is journaled.
pub open spec fn journal_tag(t: DeletionType) -> Seq<char> {
    match t {
        DeletionType::FullMessage => "FullMessage"@,
        DeletionType::PartialEdit => "PartialEdit"@,
        DeletionType::AttachmentOnly => "AttachmentOnly"@,
        DeletionType::MediaContent => "MediaContent"@,
    }
}

/// The journal record for a report `det` on item `message_id`, whose last
/// fingerprint was `prev`, detected at `now`; its journal id is not yet
/// assigned.
pub open spec fn record_for(
    message_id: i32,
    prev: FingerprintView,
    det: DetectionView,
    now: i64,
) -> RecordView {
    RecordView {
        id: 0,
        message_id,
        original_fingerprint: prev,
        deletion_timestamp: now,
        deletion_type: journal_tag(det.deletion_type),
        recovered_content: det.recovered_content,
        recovered_attachments: det.recovered_attachments,
    }
}

/// Model of an [`ItemSnapshot`]: the item id and its current fingerprint.
pub open spec fn snapshot_view(s: ItemSnapshot) -> (i32, Option<FingerprintView>) {
    (
        s.message_id,
        match s.current {
            Some(c) => Some(c@),
            None => None,
        },
    )
}

/// Models of a list of snapshots.
pub open spec fn snapshot_views(s: Seq<ItemSnapshot>) -> Seq<(i32, Option<FingerprintView>)> {
    s.map_values(|x: ItemSnapshot| snapshot_view(x))
}

/// One item of a batch: classify the transition from the stored
/// fingerprint to the current one, then store the current one, if any, as
/// the new baseline.
pub open spec fn analysis_step(
    ds: Seq<DeletionDetector>,
    config: DetectionConfig,
    state: (Map<i32, FingerprintView>, Seq<RecordView>),
    item: (i32, Option<FingerprintView>),
    now: i64,
) -> (Map<i32, FingerprintView>, Seq<RecordView>) {
    let (m, recs) = state;
    let (id, cur) = item;
    let prev = if m.dom().contains(id) {
        Some(m[id])
    } else {
        None
    };
    let recs2 = match first_detection(ds, prev, cur, config) {
        Some(d) => recs.push(record_for(id, m[id], d, now)),
        None => recs,
    };
    let m2 = match cur {
        Some(c) => m.insert(c.message_id, c),
        None => m,
    };
    (m2, recs2)
}

/// The baselines and records after analysing `items` in order, starting
/// from the baselines `m`.
pub open spec fn analysis(
    ds: Seq<DeletionDetector>,
    config: DetectionConfig,
    m: Map<i32, FingerprintView>,
    items: Seq<(i32, Option<FingerprintView>)>,
    now: i64,
) -> (Map<i32, FingerprintView>, Seq<RecordView>)
    decreases items.len(),
{
    if items.len() == 0 {
        (m, Seq::empty())
    } else {
        analysis_step(ds, config, analysis(ds, config, m, items.drop_last(), now), items.last(), now)
    }
}

/// No classifier reports anything about an item that had no fingerprint.
pub proof fn lemma_nothing_without_previous(
    ds: Seq<DeletionDetector>,
    curr: Option<FingerprintView>,
    config: DetectionConfig,
)
    ensures
        first_detection(ds, None, curr, config) is None,
    decreases ds.len(),
{
    if ds.len() > 0 {
        lemma_nothing_without_previous(ds.drop_first(), curr, config);
    }
}

impl DeletionDetector {
    /// The classifier's name.
    pub fn name(&self) -> (r: &'static str)
        ensures
            *self == DeletionDetector::FullMessage ==> r@ == "FullMessageDeletion"@,
            *self == DeletionDetector::AttachmentOnly ==> r@ == "AttachmentDeletion"@,
            *self == DeletionDetector::PartialEdit ==> r@ == "PartialEdit"@,
    {
        match self {
            DeletionDetector::FullMessage => "FullMessageDeletion",
            DeletionDetector::AttachmentOnly => "AttachmentDeletion",
            DeletionDetector::PartialEdit => "PartialEdit",
        }
    }

    /// The classification types the classifier reports.
    pub fn supported_types(&self) -> (r: Vec<DeletionType>)
        ensures
            r@ == seq![supported_type(*self)],
    {
        let mut r: Vec<DeletionType> = Vec::new();
        match self {
            DeletionDetector::FullMessage => r.push(DeletionType::FullMessage),
            DeletionDetector::AttachmentOnly => r.push(DeletionType::AttachmentOnly),
            DeletionDetector::PartialEdit => r.push(DeletionType::PartialEdit),
        }
        assert(r@ =~= seq![supported_type(*self)]);
        r
    }

    /// Classifies the transition of item `_message_id` from `previous_state`
    /// to `current_state`.
    pub fn detect_deletion(
        &self,
        _message_id: i32,
        current_state: Option<&MessageFingerprint>,
        previous_state: Option<&MessageFingerprint>,
        context: &DetectionContext,
    ) -> (r: Option<DetectionResult>)
        ensures
            r matches Some(x) ==> detects(
                *self,
                opt_view(previous_state),
                opt_view(current_state),
                context.config,
            ) == Some(x@),
            r is None ==> detects(
                *self,
                opt_view(previous_state),
                opt_view(current_state),
                context.config,
            ) is None,
    {
        self.detect_deletion_with(_message_id, current_state, previous_state, &context.config)
    }

    /// Classifies the transition of item `_message_id` from `previous_state`
    /// to `current_state` under `config`.
    pub fn detect_deletion_with(
        &self,
        _message_id: i32,
        current_state: Option<&MessageFingerprint>,
        previous_state: Option<&MessageFingerprint>,
        config: &DetectionConfig,
    ) -> (r: Option<DetectionResult>)
        ensures
            r matches Some(x) ==> detects(
                *self,
                opt_view(previous_state),
                opt_view(current_state),
                *config,
            ) == Some(x@),
            r is None ==> detects(
                *self,
                opt_view(previous_state),
                opt_view(current_state),
                *config,
            ) is None,
    {
        match (previous_state, current_state) {
            (Some(p), None) => {
                match self {
                    DeletionDetector::FullMessage => Some(
                        DetectionResult {
                            deletion_type: DeletionType::FullMessage,
                            recovered_content: copy_opt_text(&p.content),
                            recovered_attachments: crate::fingerprint::copy_texts(
                                &p.attachment_hashes,
                            ),
                        },
                    ),
                    _ => None,
                }
            },
            (Some(p), Some(c)) => {
                let same_content = p.content_hash == c.content_hash;
                match self {
                    DeletionDetector::FullMessage => {
                        if config.content_change_is_full_deletion && !same_content {
                            Some(
                                DetectionResult {
                                    deletion_type: DeletionType::FullMessage,
                                    recovered_content: copy_opt_text(&p.content),
                                    recovered_attachments: removed_attachments(
                                        &p.attachment_hashes,
                                        &c.attachment_hashes,
                                    ),
                                },
                            )
                        } else {
                            None
                        }
                    },
                    DeletionDetector::AttachmentOnly => {
                        if same_content {
                            let missing = removed_attachments(
                                &p.attachment_hashes,
                                &c.attachment_hashes,
                            );
                            if missing.len() > 0 {
                                Some(
                                    DetectionResult {
                                        deletion_type: DeletionType::AttachmentOnly,
                                        recovered_content: None,
                                        recovered_attachments: missing,
                                    },
                                )
                            } else {
                                None
                            }
                        } else {
                            None
                        }
                    },
                    DeletionDetector::PartialEdit => {
                        if config.track_edits_as_deletions && !same_content {
                            let recovered = if config.recover_edited_content {
                                copy_opt_text(&p.content)
                            } else {
                                None
                            };
                            let r = DetectionResult {
                                deletion_type: DeletionType::PartialEdit,
                                recovered_content: recovered,
                                recovered_attachments: Vec::new(),
                            };
                            assert(r@.recovered_attachments =~= Seq::<Seq<char>>::empty());
                            Some(r)
                        } else {
                            None
                        }
                    },
                }
            },
            _ => None,
        }
    }
}

/// Whether `types` holds `t`.
fn type_enabled(types: &Vec<DeletionType>, t: DeletionType) -> (r: bool)
    ensures
        r == types@.contains(t),
{
    let mut k: usize = 0;
    while k < types.len()
        invariant
            k <= types@.len(),
            forall|q: int| 0 <= q < k ==> types@[q] != t,
        decreases types@.len() - k,
    {
        if types[k] == t {
            return true;
        }
        k = k + 1;
    }
    false
}

/// Runs the active classifiers over changed items and keeps the baseline
/// fingerprints up to date.
pub struct DetectionEngine {
    detectors: Vec<DeletionDetector>,
    config: DetectionConfig,
}

impl DetectionEngine {
    /// The active classifiers, in priority order.
    pub closed spec fn spec_detectors(&self) -> Seq<DeletionDetector> {
        self.detectors@
    }

    /// The configuration the engine was made with.
    pub closed spec fn spec_config(&self) -> DetectionConfig {
        self.config
    }

    /// An engine whose active classifiers are those whose type is enabled in
    /// `config`, in priority order: full message, attachment only, partial
    /// edit. A disabled classifier is not run at all.
    pub fn new(config: DetectionConfig) -> (r: DetectionEngine)
        ensures
            r.spec_detectors() == active_detectors(config.deletion_types@),
            r.spec_config() == config,
    {
        let mut detectors: Vec<DeletionDetector> = Vec::new();
        if type_enabled(&config.deletion_types, DeletionType::FullMessage) {
            detectors.push(DeletionDetector::FullMessage);
        }
        if type_enabled(&config.deletion_types, DeletionType::AttachmentOnly) {
            detectors.push(DeletionDetector::AttachmentOnly);
        }
        if type_enabled(&config.deletion_types, DeletionType::PartialEdit) {
            detectors.push(DeletionDetector::PartialEdit);
        }
        assert(detectors@ =~= active_detectors(config.deletion_types@));
        DetectionEngine { detectors, config }
    }

    /// The active classifiers, in priority order.
    pub fn detectors(&self) -> (r: &Vec<DeletionDetector>)
        ensures
            r@ == self.spec_detectors(),
    {
        &self.detectors
    }

    /// The report of the first active classifier that reports something
    /// about the transition from `previous_state` to `current_state`; the
    /// classifiers after it are not consulted.
    pub fn classify(
        &self,
        message_id: i32,
        current_state: Option<&MessageFingerprint>,
        previous_state: Option<&MessageFingerprint>,
    ) -> (r: Option<DetectionResult>)
        ensures
            r matches Some(x) ==> first_detection(
                self.spec_detectors(),
                opt_view(previous_state),
                opt_view(current_state),
                self.spec_config(),
            ) == Some(x@),
            r is None ==> first_detection(
                self.spec_detectors(),
                opt_view(previous_state),
                opt_view(current_state),
                self.spec_config(),
            ) is None,
    {
        let ghost ds = self.detectors@;
        let ghost pv = opt_view(previous_state);
        let ghost cv = opt_view(current_state);
        let mut i: usize = 0;
        proof {
            assert(ds.skip(0) =~= ds);
        }
        while i < self.detectors.len()
            invariant
                ds == self.detectors@,
                pv == opt_view(previous_state),
                cv == opt_view(current_state),
                i <= ds.len(),
                first_detection(ds, pv, cv, self.config) == first_detection(
                    ds.skip(i as int),
                    pv,
                    cv,
                    self.config,
                ),
            decreases ds.len() - i,
        {
            proof {
                assert(ds.skip(i as int).drop_first() =~= ds.skip(i + 1));
                assert(ds.skip(i as int)[0] == ds[i as int]);
            }
            let found = self.detectors[i].detect_deletion_with(
                message_id,
                current_state,
                previous_state,
                &self.config,
            );
            proof {
                let x = ds.skip(i as int);
                assert(x.len() > 0);
                assert(first_detection(x, pv, cv, self.config) == match detects(
                    ds[i as int],
                    pv,
                    cv,
                    self.config,
                ) {
                    Some(r) => Some(r),
                    None => first_detection(ds.skip(i + 1), pv, cv, self.config),
                });
            }
            if found.is_some() {
                return found;
            }
            i = i + 1;
        }
        None
    }

    /// Handles one observer event: a modification is analysed as
    /// [`DetectionEngine::analyze_message_changes`] does, over `snapshots`,
    /// the resolved states of its items; any other event yields no record
    /// and leaves the store as it is.
    pub fn process_event(
        &self,
        event: &DatabaseEvent,
        snapshots: &Vec<ItemSnapshot>,
        state_manager: &mut StateManager,
        now: i64,
    ) -> (r: Vec<DeletionRecord>)
        requires
            old(state_manager).wf(),
        ensures
            final(state_manager).wf(),
            event is MessagesModified ==> (final(state_manager)@.fingerprints, record_views(r@))
                == analysis(
                self.spec_detectors(),
                self.spec_config(),
                old(state_manager)@.fingerprints,
                snapshot_views(snapshots@),
                now,
            ),
            !(event is MessagesModified) ==> r@.len() == 0 && final(state_manager)@ == old(
                state_manager,
            )@,
            final(state_manager)@.journal == old(state_manager)@.journal,
            final(state_manager)@.next_id == old(state_manager)@.next_id,
            final(state_manager).spec_config() == old(state_manager).spec_config(),
    {
        match event {
            DatabaseEvent::MessagesModified(_) => self.analyze_message_changes(
                snapshots,
                state_manager,
                now,
            ),
            _ => Vec::new(),
        }
    }

    /// Classifies each item of `snapshots` in order against the baseline
    /// in `state_manager`, then stores the item's current fingerprint, when
    /// it has one, as its new baseline, whether or not a removal was
    /// reported. Returns one record, without journal id, per item on which
    /// a classifier reported something, stamped with `now`.
    pub fn analyze_message_changes(
        &self,
        snapshots: &Vec<ItemSnapshot>,
        state_manager: &mut StateManager,
        now: i64,
    ) -> (r: Vec<DeletionRecord>)
        requires
            old(state_manager).wf(),
        ensures
            final(state_manager).wf(),
            (final(state_manager)@.fingerprints, record_views(r@)) == analysis(
                self.spec_detectors(),
                self.spec_config(),
                old(state_manager)@.fingerprints,
                snapshot_views(snapshots@),
                now,
            ),
            final(state_manager)@.journal == old(state_manager)@.journal,
            final(state_manager)@.next_id == old(state_manager)@.next_id,
            final(state_manager).spec_config() == old(state_manager).spec_config(),
    {
        let ghost items = snapshot_views(snapshots@);
        let mut records: Vec<DeletionRecord> = Vec::new();
        let mut i: usize = 0;
        proof {
            assert(items.take(0) =~= Seq::<(i32, Option<FingerprintView>)>::empty());
            assert(record_views(records@) =~= Seq::<RecordView>::empty());
        }
        while i < snapshots.len()
            invariant
                items == snapshot_views(snapshots@),
                i <= snapshots@.len(),
                state_manager.wf(),
                (state_manager@.fingerprints, record_views(records@)) == analysis(
                    self.spec_detectors(),
                    self.spec_config(),
                    old(state_manager)@.fingerprints,
                    items.take(i as int),
                    now,
                ),
                state_manager@.journal == old(state_manager)@.journal,
                state_manager@.next_id == old(state_manager)@.next_id,
                state_manager.spec_config() == old(state_manager).spec_config(),
            decreases snapshots@.len() - i,
        {
            let snap = &snapshots[i];
            let message_id = snap.message_id;
            proof {
                assert(items.take(i + 1).drop_last() =~= items.take(i as int));
                assert(items.take(i + 1).last() == snapshot_view(snapshots@[i as int]));
            }
            let previous = state_manager.get_fingerprint(message_id);
            let current_ref: Option<&MessageFingerprint> = match &snap.current {
                Some(c) => Some(c),
                None => None,
            };
            let previous_ref: Option<&MessageFingerprint> = match &previous {
                Some(p) => Some(p),
                None => None,
            };
            let found = self.classify(message_id, current_ref, previous_ref);
            match found {
                Some(d) => {
                    match previous_ref {
                        Some(p) => {
                            let record = DeletionRecord {
                                id: 0,
                                message_id,
                                original_fingerprint: p.snapshot(),
                                deletion_timestamp: now,
                                deletion_type: deletion_type_name(d.deletion_type),
                                recovered_content: d.recovered_content,
                                recovered_attachments: d.recovered_attachments,
                            };
                            let ghost before = record_views(records@);
                            records.push(record);
                            assert(record_views(records@) =~= before.push(record@));
                        },
                        None => {
                            proof {
                                lemma_nothing_without_previous(
                                    self.spec_detectors(),
                                    opt_view(current_ref),
                                    self.spec_config(),
                                );
                            }
                        },
                    }
                },
                None => {},
            }
            match &snap.current {
                Some(c) => {
                    state_manager.store_fingerprint(c);
                },
                None => {},
            }
            i = i + 1;
        }
        proof {
            assert(items.take(i as int) =~= items);
        }
        records
    }
}

/// Priority: when an item vanishes, an active full-message classifier
/// reports a full deletion that recovers the previous content and every
/// previous attachment, and no later classifier is consulted.
pub proof fn law_vanished_item_is_full_deletion(config: DetectionConfig, prev: FingerprintView)
    requires
        config.deletion_types@.contains(DeletionType::FullMessage),
    ensures
        detects(DeletionDetector::AttachmentOnly, Some(prev), None, config) is None,
        first_detection(active_detectors(config.deletion_types@), Some(prev), None, config) == Some(
            DetectionView {
                deletion_type: DeletionType::FullMessage,
                recovered_content: prev.content,
                recovered_attachments: prev.attachment_hashes,
            },
        ),
{
    let ds = active_detectors(config.deletion_types@);
    assert(ds[0] == DeletionDetector::FullMessage);
}

/// When the content is unchanged and attachments were removed, the
/// attachment-only classifier reports exactly the removed attachments, and
/// the full-message classifier reports nothing.
pub proof fn law_removed_attachments_reported(
    config: DetectionConfig,
    prev: FingerprintView,
    curr: FingerprintView,
)
    requires
        config.deletion_types@.contains(DeletionType::AttachmentOnly),
        prev.content_hash == curr.content_hash,
        missing_attachments(prev.attachment_hashes, curr.attachment_hashes).len() > 0,
    ensures
        detects(DeletionDetector::FullMessage, Some(prev), Some(curr), config) is None,
        first_detection(active_detectors(config.deletion_types@), Some(prev), Some(curr), config)
            == Some(
            DetectionView {
                deletion_type: DeletionType::AttachmentOnly,
                recovered_content: None,
                recovered_attachments: missing_attachments(
                    prev.attachment_hashes,
                    curr.attachment_hashes,
                ),
            },
        ),
{
    reveal_with_fuel(first_detection, 3);
    let types = config.deletion_types@;
    let ds = active_detectors(types);
    let rest = if types.contains(DeletionType::PartialEdit) {
        seq![DeletionDetector::PartialEdit]
    } else {
        Seq::<DeletionDetector>::empty()
    };
    let tail = seq![DeletionDetector::AttachmentOnly] + rest;
    assert(tail[0] == DeletionDetector::AttachmentOnly);
    if types.contains(DeletionType::FullMessage) {
        assert(ds =~= seq![DeletionDetector::FullMessage] + tail);
        assert(ds.drop_first() =~= tail);
        assert(ds[0] == DeletionDetector::FullMessage);
    } else {
        assert(ds =~= tail);
    }
}

/// With edit tracking off, and content changes not counted as full
/// deletions, a present item whose content changed is reported by no
/// classifier.
pub proof fn law_untracked_edit_is_silent(
    config: DetectionConfig,
    prev: FingerprintView,
    curr: FingerprintView,
)
    requires
        !config.track_edits_as_deletions,
        !config.content_change_is_full_deletion,
        prev.content_hash != curr.content_hash,
    ensures
        first_detection(active_detectors(config.deletion_types@), Some(prev), Some(curr), config)
            is None,
{
    lemma_silent_for_all(active_detectors(config.deletion_types@), config, prev, curr);
}

proof fn lemma_silent_for_all(
    ds: Seq<DeletionDetector>,
    config: DetectionConfig,
    prev: FingerprintView,
    curr: FingerprintView,
)
    requires
        !config.track_edits_as_deletions,
        !config.content_change_is_full_deletion,
        prev.content_hash != curr.content_hash,
    ensures
        first_detection(ds, Some(prev), Some(curr), config) is None,
    decreases ds.len(),
{
    if ds.len() > 0 {
        lemma_silent_for_all(ds.drop_first(), config, prev, curr);
    }
}

/// Analysing an item stores its current fingerprint as the new baseline,
/// so the same transition is not reported again by the next analysis of
/// the same snapshot.
pub proof fn law_baseline_updated(
    ds: Seq<DeletionDetector>,
    config: DetectionConfig,
    m: Map<i32, FingerprintView>,
    cur: FingerprintView,
    now: i64,
)
    ensures
        analysis(ds, config, m, seq![(cur.message_id, Some(cur))], now).0 == m.insert(
            cur.message_id,
            cur,
        ),
        analysis(
            ds,
            config,
            analysis(ds, config, m, seq![(cur.message_id, Some(cur))], now).0,
            seq![(cur.message_id, Some(cur))],
            now,
        ).1.len() == 0,
{
    let items = seq![(cur.message_id, Some(cur))];
    assert(items.len() == 1);
    assert(items.last() == (cur.message_id, Some(cur)));
    assert(items.drop_last() =~= Seq::<(i32, Option<FingerprintView>)>::empty());
    let first = analysis(ds, config, m, items, now);
    assert(analysis(ds, config, m, items.drop_last(), now) == (m, Seq::<RecordView>::empty()));
    assert(first.0 == m.insert(cur.message_id, cur));
    lemma_unchanged_is_silent(ds, config, cur);
    assert(analysis(ds, config, first.0, items.drop_last(), now) == (
        first.0,
        Seq::<RecordView>::empty(),
    ));
}

proof fn lemma_unchanged_is_silent(ds: Seq<DeletionDetector>, config: DetectionConfig, f: FingerprintView)
    ensures
        first_detection(ds, Some(f), Some(f), config) is None,
    decreases ds.len(),
{
    if ds.len() > 0 {
        lemma_unchanged_is_silent(ds.drop_first(), config, f);
        assert(missing_attachments(f.attachment_hashes, f.attachment_hashes).len() == 0) by {
            lemma_nothing_missing_from_self(f.attachment_hashes);
        }
    }
}

proof fn lemma_nothing_missing_from_self(s: Seq<Seq<char>>)
    ensures
        missing_attachments(s, s).len() == 0,
{
    let pred = |h: Seq<char>| !s.contains(h);
    broadcast use vstd::seq_lib::group_filter_ensures;

    if s.filter(pred).len() > 0 {
        let x = s.filter(pred)[0];
        s.lemma_filter_contains_rev(pred, x);
    }
}

/// Model of an optional borrowed fingerprint.
pub open spec fn opt_view(f: Option<&MessageFingerprint>) -> Option<FingerprintView> {
    match f {
        Some(x) => Some(x@),
        None => None,
    }
}

/// Whether `hashes` holds `h`.
fn contains_text(hashes: &Vec<String>, h: &String) -> (r: bool)
    ensures
        r == hashes.deep_view().contains(h@),
{
    let mut k: usize = 0;
    while k < hashes.len()
        invariant
            k <= hashes@.len(),
            forall|q: int| 0 <= q < k ==> hashes@[q]@ != h@,
        decreases hashes@.len() - k,
    {
        if hashes[k] == *h {
            assert(hashes.deep_view()[k as int] == h@);
            return true;
        }
        k = k + 1;
    }
    proof {
        if hashes.deep_view().contains(h@) {
            let q = choose|q: int| 0 <= q < hashes.deep_view().len() && hashes.deep_view()[q] == h@;
            assert(hashes@[q]@ == h@);
        }
    }
    false
}

/// The digests of `prev` that `curr` lacks, in the order of `prev`.
pub fn removed_attachments(prev: &Vec<String>, curr: &Vec<String>) -> (r: Vec<String>)
    ensures
        r.deep_view() == missing_attachments(prev.deep_view(), curr.deep_view()),
{
    let ghost pv = prev.deep_view();
    let ghost cv = curr.deep_view();
    let ghost pred = |h: Seq<char>| !cv.contains(h);
    let mut out: Vec<String> = Vec::new();
    let mut i: usize = 0;
    proof {
        assert(pv.take(0).filter(pred) =~= Seq::<Seq<char>>::empty());
        assert(out.deep_view() =~= Seq::<Seq<char>>::empty());
    }
    while i < prev.len()
        invariant
            pv == prev.deep_view(),
            cv == curr.deep_view(),
            pred == (|h: Seq<char>| !cv.contains(h)),
            i <= pv.len(),
            out.deep_view() == pv.take(i as int).filter(pred),
        decreases pv.len() - i,
    {
        proof {
            assert(pv.take(i + 1) =~= pv.take(i as int).push(pv[i as int]));
            pv.take(i as int).lemma_filter_push(pv[i as int], pred);
        }
        if !contains_text(curr, &prev[i]) {
            let ghost before = out.deep_view();
            out.push(prev[i].clone());
            assert(out.deep_view() =~= before.push(pv[i as int]));
        }
        i = i + 1;
    }
    proof {
        assert(pv.take(i as int) =~= pv);
    }
    out
}

/// The name under which a classification type is journaled.
pub fn deletion_type_name(t: DeletionType) -> (r: String)
    ensures
        r@ == journal_tag(t),
{
    match t {
        DeletionType::FullMessage => String::from_str("FullMessage"),
        DeletionType::PartialEdit => String::from_str("PartialEdit"),
        DeletionType::AttachmentOnly => String::from_str("AttachmentOnly"),
        DeletionType::MediaContent => String::from_str("MediaContent"),
    }
}

} // verus!

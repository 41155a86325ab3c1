//! Delivery of journaled records to the configured sinks.
//!
//! The library decides which sinks take part and renders records for the
//! terminal; the caller performs the deliveries, one sink after the other.

use vstd::prelude::*;
use vstd::string::*;
use crate::config::{OutputConfig, TerminalFormat};
use crate::fingerprint::{DeletionRecord, RecordView, id_text};
use crate::clock::{utc_text, utc_text_of};
use crate::json::{record_json, record_to_json};

verus! {

/// The positions, in order, of the enabled sinks of `configs`.
pub open spec fn enabled_indices(configs: Seq<OutputConfig>) -> Seq<usize>
    decreases configs.len(),
{
    if configs.len() == 0 {
        Seq::empty()
    } else if configs.last().enabled {
        enabled_indices(configs.drop_last()).push((configs.len() - 1) as usize)
    } else {
        enabled_indices(configs.drop_last())
    }
}

/// The sinks of a run and whether each one initialised.
pub struct OutputManager {
    handlers: Vec<usize>,
    ready: Vec<bool>,
}

impl OutputManager {
    /// Positions in the configuration of the sinks of this run, in order.
    pub closed spec fn spec_handlers(&self) -> Seq<usize> {
        self.handlers@
    }

    /// Whether each sink of this run initialised.
    pub closed spec fn spec_ready(&self) -> Seq<bool> {
        self.ready@
    }

    /// The sinks of a run: the enabled ones of `configs`, in order, none
    /// initialised yet.
    pub fn new(configs: &Vec<OutputConfig>) -> (r: OutputManager)
        ensures
            r.spec_handlers() == enabled_indices(configs@),
            r.spec_ready().len() == r.spec_handlers().len(),
            forall|k: int| 0 <= k < r.spec_ready().len() ==> !#[trigger] r.spec_ready()[k],
    {
        let mut handlers: Vec<usize> = Vec::new();
        let mut ready: Vec<bool> = Vec::new();
        let mut i: usize = 0;
        while i < configs.len()
            invariant
                i <= configs@.len(),
                handlers@ == enabled_indices(configs@.take(i as int)),
                ready@.len() == handlers@.len(),
                forall|k: int| 0 <= k < ready@.len() ==> !#[trigger] ready@[k],
            decreases configs@.len() - i,
        {
            proof {
                assert(configs@.take(i + 1).drop_last() =~= configs@.take(i as int));
            }
            if configs[i].enabled {
                handlers.push(i);
                ready.push(false);
            }
            i = i + 1;
        }
        proof {
            assert(configs@.take(i as int) =~= configs@);
        }
        OutputManager { handlers, ready }
    }

    /// Number of sinks of this run.
    pub fn handler_count(&self) -> (r: usize)
        ensures
            r == self.spec_handlers().len(),
    {
        self.handlers.len()
    }

    /// Position in the configuration of the `slot`-th sink of this run.
    pub fn config_index(&self, slot: usize) -> (r: usize)
        requires
            slot < self.spec_handlers().len(),
        ensures
            r == self.spec_handlers()[slot as int],
    {
        self.handlers[slot]
    }

    /// Records whether the `slot`-th sink initialised; one that did not is
    /// left out of every delivery of the run.
    pub fn record_initialization(&mut self, slot: usize, ok: bool)
        requires
            slot < old(self).spec_handlers().len(),
            old(self).spec_ready().len() == old(self).spec_handlers().len(),
        ensures
            final(self).spec_handlers() == old(self).spec_handlers(),
            final(self).spec_ready() == old(self).spec_ready().update(slot as int, ok),
    {
        self.ready.set(slot, ok);
    }

    /// The slots, in order, of the sinks that a record is delivered to:
    /// those that initialised. A failed delivery to one does not keep the
    /// record from the others.
    pub fn delivery_targets(&self) -> (r: Vec<usize>)
        requires
            self.spec_ready().len() == self.spec_handlers().len(),
        ensures
            r@ == Seq::new(self.spec_ready().len(), |k: int| k as usize).filter(
                |k: usize| self.spec_ready()[k as int],
            ),
    {
        let ghost all = Seq::new(self.ready@.len(), |k: int| k as usize);
        let ghost pred = |k: usize| self.ready@[k as int];
        let mut out: Vec<usize> = Vec::new();
        let mut k: usize = 0;
        proof {
            assert(all.take(0).filter(pred) =~= Seq::<usize>::empty());
        }
        while k < self.ready.len()
            invariant
                all == Seq::new(self.ready@.len(), |k: int| k as usize),
                pred == (|k: usize| self.ready@[k as int]),
                k <= self.ready@.len(),
                out@ == all.take(k as int).filter(pred),
            decreases self.ready@.len() - k,
        {
            proof {
                assert(all.take(k + 1) =~= all.take(k as int).push(k));
                all.take(k as int).lemma_filter_push(k, pred);
            }
            if self.ready[k] {
                out.push(k);
            }
            k = k + 1;
        }
        proof {
            assert(all.take(k as int) =~= all);
        }
        out
    }
}

/// Debug rendering of a list of texts: each quoted and escaped, separated
/// by `, `, between brackets.
pub uninterp spec fn debug_list_of(items: Seq<Seq<char>>) -> Seq<char>;

/// Relies on the `Debug` implementation of `Vec<String>`: the bracketed,
/// comma-separated list of the quoted, escaped texts.
#[verifier::external_body]
fn debug_list(items: &Vec<String>) -> (r: String)
    ensures
        r@ == debug_list_of(items.deep_view()),
{
    format!("{:?}", items)
}

/// The time of a deletion as shown on the terminal.
pub open spec fn shown_time(secs: i64) -> Seq<char> {
    match utc_text_of(secs) {
        Some(t) => t,
        None => "Unknown"@,
    }
}

/// The content of a deletion as shown on the terminal.
pub open spec fn shown_content(c: Option<Seq<char>>) -> Seq<char> {
    match c {
        Some(t) => t,
        None => "[No content]"@,
    }
}

/// Decimal text of an id, as shown on the terminal.
pub open spec fn shown_id(id: i32) -> Seq<char> {
    crate::fingerprint::decimal_text(id as int)
}

/// The terminal rendering of a record in `format`.
pub open spec fn terminal_text(format: TerminalFormat, d: RecordView) -> Seq<char> {
    match format {
        TerminalFormat::Plain => "DELETION DETECTED: Message "@ + shown_id(d.message_id)
            + " deleted at "@ + shown_time(d.deletion_timestamp) + "\nContent: "@ + shown_content(
            d.recovered_content,
        ) + "\nAttachments: "@ + debug_list_of(d.recovered_attachments),
        TerminalFormat::Colored => "\x1b[31m🚨 DELETION DETECTED\x1b[0m\n\x1b[36m📱 Message ID:\x1b[0m "@
            + shown_id(d.message_id) + "\n\x1b[36m⏰ Timestamp:\x1b[0m "@ + shown_time(
            d.deletion_timestamp,
        ) + "\n\x1b[36m📝 Content:\x1b[0m "@ + shown_content(d.recovered_content)
            + "\n\x1b[36m📎 Attachments:\x1b[0m "@ + debug_list_of(d.recovered_attachments),
        TerminalFormat::Json => record_json(d, true),
    }
}

/// The sink that prints records on the terminal.
#[derive(Debug, Clone, Copy)]
pub struct TerminalOutputHandler {
    pub format: TerminalFormat,
}

impl TerminalOutputHandler {
    /// A terminal sink printing in `format`.
    pub fn new(format: TerminalFormat) -> (r: TerminalOutputHandler)
        ensures
            r.format == format,
    {
        TerminalOutputHandler { format }
    }

    /// The sink's name.
    pub fn name(&self) -> (r: &'static str)
        ensures
            r@ == "Terminal"@,
    {
        "Terminal"
    }

    /// The banner printed when the sink starts.
    pub fn start_banner(&self) -> (r: &'static str)
        ensures
            self.format == TerminalFormat::Colored ==> r@
                == "\x1b[32m🚀 iMessage Deletion Tracker Started\x1b[0m"@,
            self.format != TerminalFormat::Colored ==> r@ == "🚀 iMessage Deletion Tracker Started"@,
    {
        match self.format {
            TerminalFormat::Colored => "\x1b[32m🚀 iMessage Deletion Tracker Started\x1b[0m",
            _ => "🚀 iMessage Deletion Tracker Started",
        }
    }

    /// The banner printed when the sink stops.
    pub fn stop_banner(&self) -> (r: &'static str)
        ensures
            self.format == TerminalFormat::Colored ==> r@
                == "\x1b[33m🏁 iMessage Deletion Tracker Stopped\x1b[0m"@,
            self.format != TerminalFormat::Colored ==> r@ == "🏁 iMessage Deletion Tracker Stopped"@,
    {
        match self.format {
            TerminalFormat::Colored => "\x1b[33m🏁 iMessage Deletion Tracker Stopped\x1b[0m",
            _ => "🏁 iMessage Deletion Tracker Stopped",
        }
    }

    /// The text printed for `deletion`: a plain or colored summary, or the
    /// record's indented JSON.
    pub fn format_deletion(&self, deletion: &DeletionRecord) -> (r: String)
        ensures
            r@ == terminal_text(self.format, deletion@),
    {
        if self.format == TerminalFormat::Json {
            return record_to_json(deletion, true);
        }
        let colored = self.format == TerminalFormat::Colored;
        let mut out = if colored {
            String::from_str("\x1b[31m🚨 DELETION DETECTED\x1b[0m\n\x1b[36m📱 Message ID:\x1b[0m ")
        } else {
            String::from_str("DELETION DETECTED: Message ")
        };
        let id = id_text(deletion.message_id);
        out.append(id.as_str());
        if colored {
            out.append("\n\x1b[36m⏰ Timestamp:\x1b[0m ");
        } else {
            out.append(" deleted at ");
        }
        match utc_text(deletion.deletion_timestamp) {
            Some(t) => out.append(t.as_str()),
            None => out.append("Unknown"),
        }
        if colored {
            out.append("\n\x1b[36m📝 Content:\x1b[0m ");
        } else {
            out.append("\nContent: ");
        }
        match &deletion.recovered_content {
            Some(c) => out.append(c.as_str()),
            None => out.append("[No content]"),
        }
        if colored {
            out.append("\n\x1b[36m📎 Attachments:\x1b[0m ");
        } else {
            out.append("\nAttachments: ");
        }
        let atts = debug_list(&deletion.recovered_attachments);
        out.append(atts.as_str());
        out
    }
}

} // verus!

use vstd::prelude::*;
use vstd::string::StringExecFns;

use crate::histogram::{frequencies, Histogram};

verus! {

/// What the viewer shows: the chosen file, the histogram of its bytes, and
/// the message of the last failed read.
pub struct ViewerState {
    pub selected_file: Option<Seq<char>>,
    pub histogram: Option<Seq<nat>>,
    pub error_message: Option<Seq<char>>,
}

/// The message shown when a file could not be read, given the reader's own reason.
pub open spec fn read_error_text(reason: Seq<char>) -> Seq<char> {
    "Error reading file: "@ + reason
}

impl ViewerState {
    /// Before any file has been chosen.
    pub open spec fn initial() -> ViewerState {
        ViewerState { selected_file: None, histogram: None, error_message: None }
    }

    /// After the file at `path` was read and held `bytes`: its histogram
    /// replaces whatever was shown, and any earlier error is cleared.
    pub open spec fn after_load(self, path: Seq<char>, bytes: Seq<u8>) -> ViewerState {
        ViewerState {
            selected_file: Some(path),
            histogram: Some(frequencies(bytes)),
            error_message: None,
        }
    }

    /// After a chosen file could not be read: the error is shown and the
    /// histogram dropped; the previously selected file stays named.
    pub open spec fn after_read_error(self, reason: Seq<char>) -> ViewerState {
        ViewerState {
            selected_file: self.selected_file,
            histogram: None,
            error_message: Some(read_error_text(reason)),
        }
    }

    /// A histogram is shown only for a selected file, and never beside an error.
    pub open spec fn is_consistent(self) -> bool {
        self.histogram is Some ==> (self.selected_file is Some && self.error_message is None)
    }
}

/// The viewer starts consistent and stays so through every transition.
pub proof fn lemma_transitions_keep_consistency(s: ViewerState, path: Seq<char>, bytes: Seq<u8>, reason: Seq<char>)
    requires
        s.is_consistent(),
    ensures
        ViewerState::initial().is_consistent(),
        s.after_load(path, bytes).is_consistent(),
        s.after_read_error(reason).is_consistent(),
{
}

/// Choosing the same file again shows the same histogram: loading does not
/// depend on what was shown before, so a second load of the same bytes
/// changes nothing.
pub proof fn lemma_reselect_same_file(s: ViewerState, t: ViewerState, path: Seq<char>, bytes: Seq<u8>)
    ensures
        s.after_load(path, bytes) == t.after_load(path, bytes),
        s.after_load(path, bytes).after_load(path, bytes) == s.after_load(path, bytes),
        s.after_load(path, bytes).histogram == Some(frequencies(bytes)),
{
}

/// The state of the viewer window between redraws.
pub struct HistogramApp {
    selected_file: Option<String>,
    histogram: Option<Histogram>,
    error_message: Option<String>,
}

impl View for HistogramApp {
    type V = ViewerState;

    closed spec fn view(&self) -> ViewerState {
        ViewerState {
            selected_file: match self.selected_file {
                Some(p) => Some(p@),
                None => None,
            },
            histogram: match self.histogram {
                Some(h) => Some(h@),
                None => None,
            },
            error_message: match self.error_message {
                Some(e) => Some(e@),
                None => None,
            },
        }
    }
}

impl Default for HistogramApp {
    fn default() -> (r: HistogramApp)
        ensures
            r@ == ViewerState::initial(),
    {
        HistogramApp { selected_file: None, histogram: None, error_message: None }
    }
}

impl HistogramApp {
    /// Records that the file at `path` was read and held `bytes`.
    pub fn file_loaded(&mut self, path: String, bytes: &[u8])
        requires
            bytes@.len() <= u32::MAX,
        ensures
            final(self)@ == old(self)@.after_load(path@, bytes@),
    {
        self.histogram = Some(Histogram::from_bytes(bytes));
        self.selected_file = Some(path);
        self.error_message = None;
    }

    /// Records that the chosen file could not be read, for `reason`.
    pub fn read_failed(&mut self, reason: &str)
        ensures
            final(self)@ == old(self)@.after_read_error(reason@),
    {
        let message = String::from_str("Error reading file: ").concat(reason);
        self.error_message = Some(message);
        self.histogram = None;
    }

    /// The file whose bytes were last counted, if any.
    pub fn selected_file(&self) -> (r: Option<&String>)
        ensures
            r is Some <==> self@.selected_file is Some,
            r is Some ==> r.unwrap()@ == self@.selected_file.unwrap(),
    {
        self.selected_file.as_ref()
    }

    /// The histogram on show, if any.
    pub fn histogram(&self) -> (r: Option<&Histogram>)
        ensures
            r is Some <==> self@.histogram is Some,
            r is Some ==> r.unwrap()@ == self@.histogram.unwrap(),
    {
        self.histogram.as_ref()
    }

    /// The message of the last failed read, while it is shown.
    pub fn error_message(&self) -> (r: Option<&String>)
        ensures
            r is Some <==> self@.error_message is Some,
            r is Some ==> r.unwrap()@ == self@.error_message.unwrap(),
    {
        self.error_message.as_ref()
    }
}

} // verus!

//! The document model: an editable text buffer together with its persistence
//! state (the path it was last read from or written to, and whether it has
//! unsaved changes), plus the presentation preferences that ride along with it.
//!
//! All storage access and path picking belongs to the collaborators around
//! this model: they hand in the outcome of a read or write, and the model
//! applies it to its state.

use vstd::prelude::*;

use crate::text::{
    line_count,
    replace_spec,
    replace_all,
    replace_marked,
    file_name_spec,
    file_name_of,
    match_at,
    lemma_occurrence_overlaps_insertion,
};

verus! {

/// The mathematical state of a document: its text, the path last
/// successfully loaded from or saved to, and the unsaved-changes flag.
pub ghost struct DocModel {
    pub content: Seq<char>,
    pub source_path: Option<Seq<char>>,
    pub is_modified: bool,
}

impl DocModel {
    /// State after "New": empty text, no path, no unsaved changes.
    pub open spec fn created_new(self) -> DocModel {
        DocModel { content: Seq::empty(), source_path: None, is_modified: false }
    }

    /// State after a successful load of `text` from `path`.
    pub open spec fn loaded(self, path: Seq<char>, text: Seq<char>) -> DocModel {
        DocModel { content: text, source_path: Some(path), is_modified: false }
    }

    /// State after a successful save to `path`: the text is untouched.
    pub open spec fn saved(self, path: Seq<char>) -> DocModel {
        DocModel { content: self.content, source_path: Some(path), is_modified: false }
    }

    /// State after find-and-replace: a global leftmost non-overlapping
    /// substitution, a no-op when either argument is empty or when no
    /// occurrence was found.
    pub open spec fn replaced(self, find: Seq<char>, rep: Seq<char>) -> DocModel {
        if find.len() == 0 || rep.len() == 0 {
            self
        } else {
            let new = replace_spec(self.content, find, rep);
            if new == self.content {
                self
            } else {
                DocModel { content: new, source_path: self.source_path, is_modified: true }
            }
        }
    }

    /// State after a direct edit of the buffer: the flag turns on exactly
    /// when the text differs (and stays on once set).
    pub open spec fn edited(self, new_content: Seq<char>) -> DocModel {
        DocModel {
            content: new_content,
            source_path: self.source_path,
            is_modified: self.is_modified || new_content != self.content,
        }
    }
}

/// The editable document: text buffer, persistence state, the transient
/// find/replace inputs, and display preferences.
pub struct Document {
    /// The full text buffer.
    pub content: String,
    /// Where the document was last successfully loaded from or saved to.
    pub source_path: Option<String>,
    /// Whether the buffer has changed since the last successful load or save.
    pub is_modified: bool,
    /// Last-requested search text (transient, no invariant ties it to the buffer).
    pub find_text: String,
    /// Last-requested replacement text (transient).
    pub replace_text: String,
    /// Font size in whole points.
    pub font_size: u32,
    /// Whether the presentation layer should wrap long lines.
    pub word_wrap: bool,
    /// Whether the presentation layer should show the status bar.
    pub status_bar_visible: bool,
}

impl View for Document {
    type V = DocModel;

    open spec fn view(&self) -> DocModel {
        DocModel {
            content: self.content@,
            source_path: match self.source_path {
                Some(p) => Some(p@),
                None => None,
            },
            is_modified: self.is_modified,
        }
    }
}

/// The name a title shows for a path: the path's file name, or a
/// placeholder when the document has no path or the name is empty.
pub open spec fn display_name_spec(p: Option<Seq<char>>) -> Seq<char> {
    match p {
        None => "Untitled"@,
        Some(q) => if file_name_spec(q).len() == 0 {
            "Untitled"@
        } else {
            file_name_spec(q)
        },
    }
}

/// The window title: a `*` marker exactly when there are unsaved changes,
/// then the file name or placeholder, then the application suffix.
pub open spec fn title_spec(m: DocModel) -> Seq<char> {
    (if m.is_modified {
        "*"@
    } else {
        Seq::<char>::empty()
    }) + display_name_spec(m.source_path) + " - rpad"@
}

/// The fields that the persistence operations leave alone: the transient
/// find/replace inputs and the display preferences.
pub open spec fn same_prefs(a: Document, b: Document) -> bool {
    &&& a.find_text@ == b.find_text@
    &&& a.replace_text@ == b.replace_text@
    &&& a.font_size == b.font_size
    &&& a.word_wrap == b.word_wrap
    &&& a.status_bar_visible == b.status_bar_visible
}

/// Line and character counts of the buffer plus the unsaved-changes flag,
/// as shown in the status bar.
pub struct StatusSummary {
    /// Number of newline-delimited segments (the empty text has none).
    pub lines: usize,
    /// Number of Unicode scalar values in the buffer.
    pub chars: usize,
    /// Whether the document has unsaved changes.
    pub modified: bool,
}

impl Document {
    /// A fresh document with the default preferences.
    pub fn new() -> (d: Document)
        ensures
            d@ == (DocModel { content: Seq::empty(), source_path: None, is_modified: false }),
            d.find_text@ == Seq::<char>::empty(),
            d.replace_text@ == Seq::<char>::empty(),
            d.font_size == 14,
            d.word_wrap,
            d.status_bar_visible,
    {
        Document {
            content: String::new(),
            source_path: None,
            is_modified: false,
            find_text: String::new(),
            replace_text: String::new(),
            font_size: 14,
            word_wrap: true,
            status_bar_visible: true,
        }
    }

    /// "New": discard the buffer and its path unconditionally.  Unsaved
    /// changes are dropped without a prompt; a confirmation step would sit
    /// in the presentation layer, gated on `is_modified`.
    pub fn create_new(&mut self)
        ensures
            final(self)@ == old(self)@.created_new(),
            same_prefs(*final(self), *old(self)),
    {
        self.content = String::new();
        self.source_path = None;
        self.is_modified = false;
    }

    /// Apply the outcome of the gateway's read of `path` ("Open").  On
    /// success the buffer, path and flag are replaced; on failure the whole
    /// document is left untouched and a diagnostic is returned.
    pub fn load(&mut self, path: String, read_result: Result<String, String>) -> (diag: Option<
        String,
    >)
        ensures
            read_result matches Ok(text) ==> {
                &&& final(self)@ == old(self)@.loaded(path@, text@)
                &&& same_prefs(*final(self), *old(self))
                &&& diag is None
            },
            read_result matches Err(e) ==> {
                &&& *final(self) == *old(self)
                &&& diag matches Some(m) && m@ == "Failed to open file: "@ + e@
            },
    {
        match read_result {
            Ok(text) => {
                self.content = text;
                self.source_path = Some(path);
                self.is_modified = false;
                None
            },
            Err(e) => Some(String::from_str("Failed to open file: ").concat(e.as_str())),
        }
    }

    /// Apply the outcome of the gateway's write of the buffer to `path`
    /// ("Save" / "Save As").  On success the path is recorded and the flag
    /// cleared; on failure the whole document is left untouched and a
    /// diagnostic is returned.  The buffer itself is never altered.
    pub fn save(&mut self, path: String, write_result: Result<(), String>) -> (diag: Option<
        String,
    >)
        ensures
            write_result is Ok ==> {
                &&& final(self)@ == old(self)@.saved(path@)
                &&& final(self).content@ == old(self).content@
                &&& same_prefs(*final(self), *old(self))
                &&& diag is None
            },
            write_result matches Err(e) ==> {
                &&& *final(self) == *old(self)
                &&& diag matches Some(m) && m@ == "Failed to save file: "@ + e@
            },
    {
        match write_result {
            Ok(_) => {
                self.source_path = Some(path);
                self.is_modified = false;
                None
            },
            Err(e) => Some(String::from_str("Failed to save file: ").concat(e.as_str())),
        }
    }

    /// The text a save must write: the buffer, verbatim.
    pub fn text_to_save(&self) -> (t: &String)
        ensures
            t@ == self@.content,
    {
        &self.content
    }

    /// The decision half of "Save": the destination when the document
    /// already has one, or `None` when the collaborator must ask the user
    /// for a location ("Save As").
    pub fn save_current_target(&self) -> (r: Option<&String>)
        ensures
            r is Some <==> self@.source_path is Some,
            r matches Some(p) ==> self@.source_path == Some(p@),
    {
        self.source_path.as_ref()
    }

    /// Global, literal, case-sensitive find-and-replace over the whole
    /// buffer: every leftmost non-overlapping occurrence of `find_text` is
    /// replaced by `replace_text`.  An empty `find_text` or an empty
    /// `replace_text` is a no-op, and so is a search with no occurrence;
    /// the modified flag turns on exactly when the buffer changes.
    pub fn find_and_replace(&mut self, find_text: &str, replace_text: &str)
        ensures
            final(self)@ == old(self)@.replaced(find_text@, replace_text@),
            same_prefs(*final(self), *old(self)),
            old(self)@.replaced(find_text@, replace_text@) == old(self)@ ==> *final(self) == *old(
                self,
            ),
    {
        if !find_text.is_empty() && !replace_text.is_empty() {
            let new_content = replace_all(self.content.as_str(), find_text, replace_text);
            if !new_content.eq(&self.content) {
                self.content = new_content;
                self.is_modified = true;
            }
        }
    }

    /// Apply a direct edit of the buffer (the text widget's new contents).
    /// The modified flag turns on exactly when the text changed, and stays
    /// on once set.
    pub fn apply_edit(&mut self, new_content: String)
        ensures
            final(self)@ == old(self)@.edited(new_content@),
            same_prefs(*final(self), *old(self)),
    {
        let changed = !new_content.eq(&self.content);
        self.content = new_content;
        if changed {
            self.is_modified = true;
        }
    }

    /// Set the font size preference, clamped to the supported range of
    /// 8 to 32 points.
    pub fn set_font_size(&mut self, size: u32)
        ensures
            *final(self) == (Document {
                font_size: if size < 8 {
                    8u32
                } else if size > 32 {
                    32u32
                } else {
                    size
                },
                ..*old(self)
            }),
    {
        self.font_size = if size < 8 {
            8
        } else if size > 32 {
            32
        } else {
            size
        };
    }

    /// The human-readable window title, derived from the file name of
    /// `source_path` (or a placeholder) and the unsaved-changes marker.
    pub fn compute_display_title(&self) -> (t: String)
        ensures
            t@ == title_spec(self@),
    {
        let mut t = String::new();
        if self.is_modified {
            t.append("*");
        }
        match &self.source_path {
            None => t.append("Untitled"),
            Some(p) => {
                let name = file_name_of(p.as_str());
                if name.unicode_len() == 0 {
                    t.append("Untitled");
                } else {
                    t.append(name);
                }
            },
        }
        t.append(" - rpad");
        proof {
            assert(t@ =~= title_spec(self@));
        }
        t
    }

    /// Line count, character count and the unsaved-changes flag, for the
    /// status bar.
    pub fn compute_status_summary(&self) -> (st: StatusSummary)
        ensures
            st.lines as nat == line_count(self@.content),
            st.chars as nat == self@.content.len(),
            st.modified == self@.is_modified,
    {
        StatusSummary {
            lines: crate::text::count_lines(self.content.as_str()),
            chars: self.content.as_str().unicode_len(),
            modified: self.is_modified,
        }
    }
}

impl Default for Document {
    /// The same fresh state `Document::new` gives.
    fn default() -> (d: Document)
        ensures
            d@ == (DocModel { content: Seq::empty(), source_path: None, is_modified: false }),
            d.find_text@ == Seq::<char>::empty(),
            d.replace_text@ == Seq::<char>::empty(),
            d.font_size == 14,
            d.word_wrap,
            d.status_bar_visible,
    {
        Document::new()
    }
}

/// Law: find-and-replace with an empty search text or an empty replacement
/// text changes nothing: neither the buffer nor the modified flag moves.
pub proof fn lemma_replace_empty_is_noop(d: DocModel, find: Seq<char>, rep: Seq<char>)
    requires
        find.len() == 0 || rep.len() == 0,
    ensures
        d.replaced(find, rep) == d,
{
}

/// Law: after find-and-replace, every occurrence of the search text still
/// present in the buffer overlaps at least one just-inserted copy of the
/// replacement; none stands on kept characters alone.
pub proof fn lemma_replaced_occurrences_overlap(
    d: DocModel,
    find: Seq<char>,
    rep: Seq<char>,
    j: int,
)
    requires
        find.len() > 0,
        rep.len() > 0,
        match_at(d.replaced(find, rep).content, find, j),
    ensures
        exists|t: int|
            j <= t < j + find.len() && #[trigger] replace_marked(d.content, find, rep)[t].1,
{
    assert(d.replaced(find, rep).content == replace_spec(d.content, find, rep));
    lemma_occurrence_overlaps_insertion(d.content, find, rep, j);
}

/// Law: a load followed immediately by a save round-trips.  After loading
/// text `t`, the buffer equals `t`, and since a save writes the buffer
/// verbatim and never alters it, the text handed to the gateway by the save
/// — and the state after it succeeds — still carry exactly `t`.
pub proof fn lemma_load_save_round_trip(d: DocModel, p: Seq<char>, q: Seq<char>, t: Seq<char>)
    ensures
        d.loaded(p, t).content == t,
        d.loaded(p, t).saved(q).content == t,
{
}

} // verus!

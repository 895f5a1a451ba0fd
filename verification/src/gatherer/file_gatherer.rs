//! The consumer of file changes: which changes are recorded, which files are
//! scanned, and how the notes that a file holds between markers are taken
//! out of it.

use crate::clock::now;
use crate::gatherer::app_gatherer::{option_view, ActiveProcessEvent, ActiveProcessEventView};
use crate::signals::{signal_views, Signals, SignalsView};
use crate::text::{
    chars_of, clone_strings, concat, contains, free_before_end, lemma_split_delimited,
    lemma_concat_push, lemma_split_has_pieces, lemma_split_unmarked, same_text, split, split_on, trim, trimmed, views,
};
use itertools::Itertools;
use vstd::prelude::*;

verus! {

/// How a file was modified.
#[derive(Debug, Clone, Copy, PartialEq, Eq, Structural)]
pub enum ModifyKind {
    Any,
    Data,
    Metadata,
    Name,
    Other,
}

/// What happened to the files of a change.
#[derive(Debug, Clone, Copy, PartialEq, Eq, Structural)]
pub enum EventKind {
    Any,
    Access,
    Create,
    Modify(ModifyKind),
    Remove,
    Other,
}

/// A change under a watched directory: what happened, and to which files.
#[derive(Debug)]
pub struct FileEvent {
    pub kind: EventKind,
    pub paths: Vec<String>,
}

pub struct FileEventView {
    pub kind: EventKind,
    pub paths: Seq<Seq<char>>,
}

impl View for FileEvent {
    type V = FileEventView;

    open spec fn view(&self) -> FileEventView {
        FileEventView { kind: self.kind, paths: views(self.paths@) }
    }
}

/// A change as the log of changes holds it: with the wall-clock time, in
/// nanoseconds since the Unix epoch, at which it was recorded.
#[derive(Debug)]
pub struct CachedEvent {
    pub event: FileEvent,
    pub timestamp: u128,
}

/// What to do with a change.
#[derive(Debug, Clone, Copy, PartialEq, Eq, Structural)]
pub enum EventPlan {
    /// Leave it out: it concerns the log of changes itself or a hidden file.
    Skip,
    /// Append it to the log of changes.
    Record,
    /// Append it to the log of changes, then scan its files for notes.
    RecordAndScan,
}

/// The notes taken out of a file, and the text that the file is left with.
#[derive(Debug)]
pub struct Extraction {
    pub file_text: String,
    pub notes: Vec<String>,
}

pub struct ExtractionView {
    pub file_text: Seq<char>,
    pub notes: Seq<Seq<char>>,
}

impl View for Extraction {
    type V = ExtractionView;

    open spec fn view(&self) -> ExtractionView {
        ExtractionView { file_text: self.file_text@, notes: views(self.notes@) }
    }
}

/// The extraction that an optional extraction stands for.
pub open spec fn extraction_view(extraction: Option<Extraction>) -> Option<ExtractionView> {
    match extraction {
        Some(e) => Some(e@),
        None => None,
    }
}

/// The characters that part the segments of a path.
pub open spec fn is_separator(c: char) -> bool {
    c == '/' || c == '\\'
}

/// Whether a segment of the path starts at index `i`, and with a dot.
pub open spec fn dot_starts_segment(path: Seq<char>, i: int) -> bool {
    0 <= i < path.len() && path[i] == '.' && (i == 0 || is_separator(path[i - 1]))
}

/// A path is hidden when one of its segments starts with a dot.
pub open spec fn is_hidden(path: Seq<char>) -> bool {
    exists|i: int| dot_starts_segment(path, i)
}

/// A change calls for a scan when it modified the data of a file, or
/// modified a file in a way that is not known more closely.
pub open spec fn is_data_change(kind: EventKind) -> bool {
    kind == EventKind::Modify(ModifyKind::Any) || kind == EventKind::Modify(ModifyKind::Data)
        || kind == EventKind::Modify(ModifyKind::Other)
}

/// Whether a change is left out: one of its paths is the log of changes
/// itself, or is hidden.
pub open spec fn is_skipped(paths: Seq<Seq<char>>, cache_path: Seq<char>) -> bool {
    exists|i: int| 0 <= i < paths.len() && (#[trigger] paths[i] == cache_path || is_hidden(paths[i]))
}

/// What to do with a change.
pub open spec fn planned(event: FileEventView, cache_path: Seq<char>) -> EventPlan {
    if is_skipped(event.paths, cache_path) {
        EventPlan::Skip
    } else if is_data_change(event.kind) {
        EventPlan::RecordAndScan
    } else {
        EventPlan::Record
    }
}

/// The pieces at the even places: the text of the file around the notes.
pub open spec fn text_pieces(pieces: Seq<Seq<char>>) -> Seq<Seq<char>> {
    Seq::new(((pieces.len() + 1) / 2) as nat, |k: int| pieces[2 * k])
}

/// The pieces at the odd places, trimmed: the notes.
pub open spec fn note_pieces(pieces: Seq<Seq<char>>) -> Seq<Seq<char>> {
    Seq::new((pieces.len() / 2) as nat, |k: int| trim(pieces[2 * k + 1]))
}

/// The number of times the marker stands in the content, counted from the
/// left and without overlap.
pub open spec fn marker_count(marker: Seq<char>, content: Seq<char>) -> int {
    split_on(content, marker).len() - 1
}

/// What a scan takes out of a file with this content. The marker opens and
/// closes a note, so it cuts the content into text, note, text, ..., text.
/// Where the pieces are more than one and odd in number, the notes leave the
/// file, which is left with its text pieces, as they stand, and a final
/// newline; each note is trimmed. Otherwise there is nothing to take.
pub open spec fn extraction(marker: Seq<char>, content: Seq<char>) -> Option<ExtractionView> {
    let pieces = split_on(content, marker);
    if pieces.len() > 1 && pieces.len() % 2 == 1 {
        Some(
            ExtractionView {
                file_text: concat(text_pieces(pieces)).push('\n'),
                notes: note_pieces(pieces),
            },
        )
    } else {
        None
    }
}

/// The links of a note taken out of a file: the paths of the change, and the
/// title of the window that holds the focus, if one does.
pub open spec fn links_for(
    paths: Seq<Seq<char>>,
    current: Option<ActiveProcessEventView>,
) -> Seq<Seq<char>> {
    match current {
        Some(session) => paths.push(session.process.title),
        None => paths,
    }
}

/// The requests that follow an extraction: one new note for each note taken
/// out, in their order, if the file could be rewritten, and none if not.
pub open spec fn note_signals(
    notes: Seq<Seq<char>>,
    paths: Seq<Seq<char>>,
    current: Option<ActiveProcessEventView>,
    written: bool,
) -> Seq<SignalsView> {
    if written {
        Seq::new(notes.len(), |k: int| SignalsView::NewNote(notes[k], links_for(paths, current)))
    } else {
        Seq::<SignalsView>::empty()
    }
}

/// All of `parts`, in order, with `sep` between each two.
pub open spec fn joined(parts: Seq<Seq<char>>, sep: Seq<char>) -> Seq<char>
    decreases parts.len(),
{
    if parts.len() == 0 {
        Seq::<char>::empty()
    } else if parts.len() == 1 {
        parts[0]
    } else {
        joined(parts.drop_last(), sep) + sep + parts.last()
    }
}

/// The character sequences that a sequence of string slices holds.
pub open spec fn slice_views(parts: Seq<&str>) -> Seq<Seq<char>> {
    Seq::new(parts.len(), |i: int| parts[i]@)
}

/// `Itertools::join`: the items of an iterator, here the string slices in
/// `parts`, written one after another into a new string, with `sep` between
/// each two.
#[verifier::external_body]
fn join(parts: &Vec<&str>, sep: &str) -> (r: String)
    ensures
        r@ == joined(slice_views(parts@), sep@),
{
    parts.iter().join(sep)
}

/// Joining with nothing in between is putting one after another.
pub proof fn lemma_joined_with_nothing(parts: Seq<Seq<char>>)
    ensures
        joined(parts, Seq::<char>::empty()) == concat(parts),
    decreases parts.len(),
{
    if parts.len() == 1 {
        assert(parts.drop_last() =~= Seq::<Seq<char>>::empty());
        assert(concat(parts.drop_last()) =~= Seq::<char>::empty());
        assert(concat(parts) =~= parts[0]);
    } else if parts.len() > 1 {
        lemma_joined_with_nothing(parts.drop_last());
        assert(joined(parts, Seq::<char>::empty()) =~= concat(parts));
    }
}

/// Whether a path has a segment that starts with a dot.
pub fn path_is_hidden(path: &str) -> (r: bool)
    ensures
        r == is_hidden(path@),
{
    let chars = chars_of(path);
    let mut i: usize = 0;
    while i < chars.len()
        invariant
            i <= chars.len(),
            chars@ == path@,
            forall|j: int| 0 <= j < i ==> !dot_starts_segment(chars@, j),
        decreases chars.len() - i,
    {
        if chars[i] == '.' && (i == 0 || chars[i - 1] == '/' || chars[i - 1] == '\\') {
            proof {
                assert(dot_starts_segment(path@, i as int));
            }
            return true;
        }
        i += 1;
    }
    false
}

/// Whether a change calls for a scan of its files.
pub fn act_on_event(kind: EventKind) -> (r: bool)
    ensures
        r == is_data_change(kind),
{
    match kind {
        EventKind::Modify(ModifyKind::Any) => true,
        EventKind::Modify(ModifyKind::Data) => true,
        EventKind::Modify(ModifyKind::Other) => true,
        _ => false,
    }
}

/// What to do with a change, where `cache_path` is the path of the log of
/// changes.
pub fn plan_event(event: &FileEvent, cache_path: &str) -> (r: EventPlan)
    ensures
        r == planned(event@, cache_path@),
{
    let mut i: usize = 0;
    while i < event.paths.len()
        invariant
            i <= event.paths.len(),
            forall|j: int|
                0 <= j < i ==> !(#[trigger] views(event.paths@)[j] == cache_path@ || is_hidden(
                    views(event.paths@)[j],
                )),
        decreases event.paths.len() - i,
    {
        let path = event.paths[i].as_str();
        if same_text(path, cache_path) || path_is_hidden(path) {
            proof {
                assert(views(event.paths@)[i as int] == path@);
            }
            return EventPlan::Skip;
        }
        i += 1;
    }
    if act_on_event(event.kind) {
        EventPlan::RecordAndScan
    } else {
        EventPlan::Record
    }
}

/// The change as the log of changes holds it, recorded now.
pub fn cache_event(event: FileEvent) -> (r: CachedEvent)
    ensures
        r.event == event,
{
    CachedEvent { event, timestamp: now() }
}

/// Scans the content of a file for notes between markers.
pub fn check_for_notes(comment_identifier: &str, content: &str) -> (r: Option<Extraction>)
    ensures
        extraction_view(r) == extraction(comment_identifier@, content@),
{
    let pieces = split(content, comment_identifier);
    let count = pieces.len();
    if count <= 1 || count % 2 == 0 {
        return None;
    }
    let ghost wanted = split_on(content@, comment_identifier@);
    let mut file_text: Vec<&str> = Vec::new();
    let mut notes: Vec<String> = Vec::new();
    let mut index: usize = 0;
    while index < count
        invariant
            index <= count,
            count == pieces.len(),
            views(pieces@) == wanted,
            file_text@.len() == (index + 1) / 2,
            notes@.len() == index / 2,
            forall|k: int| 0 <= k < file_text@.len() ==> (#[trigger] file_text@[k])@ == wanted[2 * k],
            forall|k: int| 0 <= k < notes@.len() ==> (#[trigger] notes@[k])@ == trim(wanted[2 * k + 1]),
        decreases count - index,
    {
        proof {
            assert(views(pieces@)[index as int] == pieces@[index as int]@);
        }
        if index % 2 == 0 {
            file_text.push(pieces[index].as_str());
        } else {
            notes.push(trimmed(pieces[index].as_str()));
        }
        index += 1;
    }
    let mut new_file_text = join(&file_text, "");
    proof {
        reveal_strlit("");
        assert(""@ =~= Seq::<char>::empty());
        assert(slice_views(file_text@) =~= text_pieces(wanted));
        lemma_joined_with_nothing(text_pieces(wanted));
        assert(views(notes@) =~= note_pieces(wanted));
    }
    new_file_text.push('\n');
    Some(Extraction { file_text: new_file_text, notes })
}

/// The requests that follow an extraction from the files at `paths`, while
/// `current` held the focus. `written` says whether the file could be
/// rewritten without its notes: if not, no request is made, and the notes
/// stay in the file for the next scan.
pub fn new_note_signals(
    extraction: &Extraction,
    paths: &Vec<String>,
    current: &Option<ActiveProcessEvent>,
    written: bool,
) -> (r: Vec<Signals>)
    ensures
        signal_views(r@) == note_signals(
            extraction@.notes,
            views(paths@),
            option_view(*current),
            written,
        ),
{
    let mut signals: Vec<Signals> = Vec::new();
    if !written {
        proof {
            assert(signal_views(signals@) =~= Seq::<SignalsView>::empty());
        }
        return signals;
    }
    let mut k: usize = 0;
    while k < extraction.notes.len()
        invariant
            k <= extraction.notes.len(),
            signals@.len() == k,
            forall|j: int|
                0 <= j < k ==> (#[trigger] signals@[j])@ == SignalsView::NewNote(
                    extraction.notes@[j]@,
                    links_for(views(paths@), option_view(*current)),
                ),
        decreases extraction.notes.len() - k,
    {
        let mut links = clone_strings(paths);
        match current {
            Some(session) => {
                let title = session.get_title().to_owned();
                links.push(title);
                proof {
                    assert(views(links@) =~= views(paths@).push(session@.process.title));
                }
            },
            None => {},
        }
        signals.push(Signals::NewNote(extraction.notes[k].clone(), links));
        k += 1;
    }
    proof {
        assert(signal_views(signals@) =~= note_signals(
            extraction@.notes,
            views(paths@),
            option_view(*current),
            written,
        ));
    }
    signals
}

/// A file whose content is a prefix, the marker, a note, the marker and a
/// suffix, with no other marker in it, is left with the prefix, the suffix
/// and a newline. The scan gives one
/// request: a new note with the trimmed text of the note, whose links hold
/// every path of the change and, last, the title of the current window.
pub proof fn lemma_extraction_round_trip(
    marker: Seq<char>,
    prefix: Seq<char>,
    note: Seq<char>,
    suffix: Seq<char>,
    paths: Seq<Seq<char>>,
    current: Option<ActiveProcessEventView>,
)
    requires
        marker.len() > 0,
        free_before_end(prefix, marker),
        free_before_end(note, marker),
        !contains(suffix, marker),
    ensures
        extraction(marker, prefix + marker + note + marker + suffix) == Some(
            ExtractionView { file_text: (prefix + suffix).push('\n'), notes: seq![trim(note)] },
        ),
        note_signals(seq![trim(note)], paths, current, true) == seq![
            SignalsView::NewNote(trim(note), links_for(paths, current)),
        ],
        forall|i: int| 0 <= i < paths.len() ==> links_for(paths, current)[i] == paths[i],
        current is Some ==> links_for(paths, current).last() == current->0.process.title,
{
    let content = prefix + marker + note + marker + suffix;
    let tail = note + marker + suffix;
    assert(content =~= prefix + marker + tail);
    lemma_split_delimited(prefix, marker, tail);
    lemma_split_delimited(note, marker, suffix);
    lemma_split_unmarked(suffix, marker);
    let pieces = split_on(content, marker);
    assert(pieces =~= seq![prefix, note, suffix]);
    assert(text_pieces(pieces) =~= seq![prefix, suffix]);
    assert(note_pieces(pieces) =~= seq![trim(note)]);
    assert(concat(seq![prefix, suffix]) =~= prefix + suffix) by {
        let none = Seq::<Seq<char>>::empty();
        lemma_concat_push(none, prefix);
        lemma_concat_push(none.push(prefix), suffix);
        assert(none.push(prefix).push(suffix) =~= seq![prefix, suffix]);
    }
    assert(note_signals(seq![trim(note)], paths, current, true) =~= seq![
        SignalsView::NewNote(trim(note), links_for(paths, current)),
    ]);
}

/// Notes are taken out exactly where the markers come in pairs: where there
/// are two of them at least, and an even number. Each pair gives one note.
pub proof fn lemma_paired_markers(marker: Seq<char>, content: Seq<char>)
    ensures
        marker_count(marker, content) >= 0,
        extraction(marker, content) is Some <==> marker_count(marker, content) >= 2
            && marker_count(marker, content) % 2 == 0,
        extraction(marker, content) is Some ==> extraction(marker, content)->0.notes.len() * 2
            == marker_count(marker, content),
{
    lemma_split_has_pieces(content, marker);
}

/// A file that the marker leaves in one piece, or cuts into an even number
/// of pieces, gives no note and is left as it is.
pub proof fn lemma_odd_count_discipline(marker: Seq<char>, content: Seq<char>)
    requires
        split_on(content, marker).len() == 1 || split_on(content, marker).len() % 2 == 0,
    ensures
        extraction(marker, content) is None,
{
}

/// A file with an even number of markers, and fewer than two of them, gives
/// no note and is left as it is.
pub proof fn lemma_no_marker(marker: Seq<char>, content: Seq<char>)
    requires
        marker_count(marker, content) % 2 == 0,
        marker_count(marker, content) < 2,
    ensures
        extraction(marker, content) is None,
{
    lemma_split_has_pieces(content, marker);
}

} // verus!

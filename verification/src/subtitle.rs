//! A subtitle document as the playback port hands it to an engine: cues, each
//! shown over a half-open span of milliseconds, each a list of lines.
use vstd::prelude::*;

verus! {

/// One cue: shown from `start_ms` up to, but not including, `end_ms`.
#[derive(Debug, Clone, PartialEq, Eq)]
pub struct Cue {
    pub id: u32,
    pub start_ms: u32,
    pub end_ms: u32,
    pub lines: Vec<String>,
}

/// The model of a cue: its span and its lines as text.
pub struct CueView {
    pub id: u32,
    pub start_ms: u32,
    pub end_ms: u32,
    pub lines: Seq<Seq<char>>,
}

impl View for Cue {
    type V = CueView;

    open spec fn view(&self) -> CueView {
        CueView {
            id: self.id,
            start_ms: self.start_ms,
            end_ms: self.end_ms,
            lines: self.lines@.map_values(|line: String| line@),
        }
    }
}

/// Cues, in the order given.
#[derive(Debug, Clone, PartialEq, Eq)]
pub struct SubtitleDocument {
    pub cues: Vec<Cue>,
}

impl View for SubtitleDocument {
    type V = Seq<CueView>;

    open spec fn view(&self) -> Seq<CueView> {
        self.cues@.map_values(|cue: Cue| cue@)
    }
}

/// A copy of a list of lines.
fn copy_lines(lines: &Vec<String>) -> (copy: Vec<String>)
    ensures
        copy@.map_values(|line: String| line@) == lines@.map_values(|line: String| line@),
{
    let mut copy: Vec<String> = Vec::new();
    let mut i: usize = 0;
    while i < lines.len()
        invariant
            i <= lines@.len(),
            copy@.len() == i,
            forall|k: int| 0 <= k < i ==> copy@[k]@ == #[trigger] lines@[k]@,
        decreases lines@.len() - i,
    {
        copy.push(lines[i].clone());
        i = i + 1;
    }
    assert(copy@.map_values(|line: String| line@) =~= lines@.map_values(|line: String| line@));
    copy
}

impl Cue {
    pub fn new(id: u32, start_ms: u32, end_ms: u32, lines: Vec<String>) -> (cue: Cue)
        ensures
            cue.id == id && cue.start_ms == start_ms && cue.end_ms == end_ms && cue.lines@ == lines@,
    {
        Cue { id, start_ms, end_ms, lines }
    }

    /// A copy of the cue.
    pub fn copy(&self) -> (copy: Cue)
        ensures
            copy@ == self@,
    {
        Cue { id: self.id, start_ms: self.start_ms, end_ms: self.end_ms, lines: copy_lines(&self.lines) }
    }
}

impl SubtitleDocument {
    pub fn new(cues: Vec<Cue>) -> (document: SubtitleDocument)
        ensures
            document.cues@ == cues@,
    {
        SubtitleDocument { cues }
    }

    /// How many cues the document holds.
    pub fn len(&self) -> (len: usize)
        ensures
            len == self@.len(),
    {
        self.cues.len()
    }

    /// A copy of the document.
    pub fn copy(&self) -> (copy: SubtitleDocument)
        ensures
            copy@ == self@,
    {
        let mut cues: Vec<Cue> = Vec::new();
        let mut i: usize = 0;
        while i < self.cues.len()
            invariant
                i <= self.cues@.len(),
                cues@.len() == i,
                forall|k: int| 0 <= k < i ==> cues@[k]@ == #[trigger] self.cues@[k]@,
            decreases self.cues@.len() - i,
        {
            cues.push(self.cues[i].copy());
            i = i + 1;
        }
        let copy = SubtitleDocument { cues };
        assert(copy@ =~= self@);
        copy
    }
}

/// Whether a cue is on screen at `at_ms`.
pub open spec fn active_at(cue: CueView, at_ms: u32) -> bool {
    cue.start_ms <= at_ms && at_ms < cue.end_ms
}

/// Lines joined with a newline between each two.
pub open spec fn joined(lines: Seq<Seq<char>>) -> Seq<char>
    decreases lines.len(),
{
    if lines.len() == 0 {
        Seq::empty()
    } else if lines.len() == 1 {
        lines[0]
    } else {
        joined(lines.drop_last()) + "\n"@ + lines.last()
    }
}

/// The text of every cue on screen at `at_ms`, in document order.
pub open spec fn on_screen(cues: Seq<CueView>, at_ms: u32) -> Seq<Seq<char>>
    decreases cues.len(),
{
    if cues.len() == 0 {
        Seq::empty()
    } else if active_at(cues.last(), at_ms) {
        on_screen(cues.drop_last(), at_ms).push(joined(cues.last().lines))
    } else {
        on_screen(cues.drop_last(), at_ms)
    }
}

/// What a document puts on screen at `at_ms`: the text of its active cues,
/// joined with newlines, or nothing when no cue is active.
pub open spec fn drawn_at(cues: Seq<CueView>, at_ms: u32) -> Option<Seq<char>> {
    if on_screen(cues, at_ms).len() == 0 {
        None
    } else {
        Some(joined(on_screen(cues, at_ms)))
    }
}

/// Joins lines with a newline between each two.
pub fn join_lines(lines: &Vec<String>) -> (text: String)
    ensures
        text@ == joined(lines@.map_values(|line: String| line@)),
{
    let ghost all = lines@.map_values(|line: String| line@);
    let mut text = String::new();
    let mut i: usize = 0;
    while i < lines.len()
        invariant
            i <= lines@.len(),
            all == lines@.map_values(|line: String| line@),
            text@ == joined(all.subrange(0, i as int)),
        decreases lines@.len() - i,
    {
        proof {
            reveal_strlit("\n");
            assert(all.subrange(0, i + 1).drop_last() =~= all.subrange(0, i as int));
        }
        if i > 0 {
            text.append("\n");
        }
        text.append(lines[i].as_str());
        i = i + 1;
    }
    assert(all.subrange(0, lines@.len() as int) =~= all);
    text
}

/// The text a document draws at `at_ms`, found by walking every cue.
pub fn text_at(document: &SubtitleDocument, at_ms: u32) -> (text: Option<String>)
    ensures
        match (text, drawn_at(document@, at_ms)) {
            (Some(t), Some(expected)) => t@ == expected,
            (None, None) => true,
            _ => false,
        },
{
    let ghost cues = document@;
    let mut shown: Vec<String> = Vec::new();
    let mut i: usize = 0;
    while i < document.cues.len()
        invariant
            i <= document.cues@.len(),
            cues == document@,
            shown@.map_values(|line: String| line@) == on_screen(cues.subrange(0, i as int), at_ms),
        decreases document.cues@.len() - i,
    {
        let cue = &document.cues[i];
        proof {
            assert(cues.subrange(0, i + 1).drop_last() =~= cues.subrange(0, i as int));
            assert(cues.subrange(0, i + 1).last() == cues[i as int]);
        }
        if cue.start_ms <= at_ms && at_ms < cue.end_ms {
            let line = join_lines(&cue.lines);
            let ghost before = shown@.map_values(|line: String| line@);
            shown.push(line);
            assert(shown@.map_values(|line: String| line@) =~= before.push(line@));
        }
        i = i + 1;
    }
    assert(cues.subrange(0, document.cues@.len() as int) =~= cues);
    if shown.len() == 0 {
        None
    } else {
        Some(join_lines(&shown))
    }
}

} // verus!

//! The output-redirection sink: one rendering pass writes into a current
//! buffer and addresses what has accumulated to a path, any number of times.
use vstd::prelude::*;
use vstd::string::*;

verus! {

/// What a sink holds: the files addressed so far and the text not yet addressed.
pub struct SinkState {
    pub files: Map<Seq<char>, Seq<char>>,
    pub buffer: Seq<char>,
}

/// A fresh sink: no file, an empty buffer.
pub open spec fn sink_empty() -> SinkState {
    SinkState { files: Map::empty(), buffer: Seq::empty() }
}

/// Writing text appends it to the buffer.
pub open spec fn sink_write(s: SinkState, text: Seq<char>) -> SinkState {
    SinkState { files: s.files, buffer: s.buffer + text }
}

/// Addressing to a path stores the whole buffer under that path, replacing
/// whatever the path held, and empties the buffer.
pub open spec fn sink_capture(s: SinkState, path: Seq<char>) -> SinkState {
    SinkState { files: s.files.insert(path, s.buffer), buffer: Seq::empty() }
}

/// The map from path to text that a list of entries stands for, a later
/// entry winning over an earlier one.
pub open spec fn entries_map(es: Seq<(String, String)>) -> Map<Seq<char>, Seq<char>>
    decreases es.len(),
{
    if es.len() == 0 {
        Map::empty()
    } else {
        entries_map(es.drop_last()).insert(es.last().0@, es.last().1@)
    }
}

/// No path occurs twice.
pub open spec fn keys_unique(es: Seq<(String, String)>) -> bool {
    forall|i: int, j: int| 0 <= i < j < es.len() ==> es[i].0@ != es[j].0@
}

/// A write target for one top-level rendering pass.
pub struct TemplateWriter {
    files: Vec<(String, String)>,
    buffer: String,
}

impl TemplateWriter {
    pub closed spec fn wf(&self) -> bool {
        keys_unique(self.files@)
    }

    /// The files addressed so far and the text not yet addressed.
    pub closed spec fn state(&self) -> SinkState {
        SinkState { files: entries_map(self.files@), buffer: self.buffer@ }
    }

    pub fn new() -> (r: TemplateWriter)
        ensures
            r.wf(),
            r.state() == sink_empty(),
    {
        TemplateWriter { files: Vec::new(), buffer: String::new() }
    }

    /// Appends rendered text to the current buffer.
    pub fn write(&mut self, text: &str)
        requires
            old(self).wf(),
        ensures
            final(self).wf(),
            final(self).state() == sink_write(old(self).state(), text@),
    {
        self.buffer.append(text);
    }

    /// Addresses everything written since the last capture to `path`: a
    /// previous file at the same path is replaced, and the buffer starts over.
    pub fn capture(&mut self, path: &str)
        requires
            old(self).wf(),
        ensures
            final(self).wf(),
            final(self).state() == sink_capture(old(self).state(), path@),
    {
        let key = path.to_owned();
        let text = self.buffer.clone();
        self.buffer = String::new();
        let mut j: usize = 0;
        while j < self.files.len()
            invariant
                j <= self.files@.len(),
                self.files@ == old(self).files@,
                keys_unique(self.files@),
                self.buffer@ == Seq::<char>::empty(),
                text@ == old(self).buffer@,
                key@ == path@,
                forall|i: int| 0 <= i < j ==> self.files@[i].0@ != key@,
            decreases self.files@.len() - j,
        {
            if self.files[j].0 == key {
                proof {
                    lemma_entries_update(self.files@, j as int, key, text);
                }
                self.files.set(j, (key, text));
                return;
            }
            j = j + 1;
        }
        self.files.push((key, text));
        proof {
            assert(self.files@.drop_last() =~= old(self).files@);
        }
    }

    /// The files addressed during the pass; text never addressed is dropped.
    pub fn into_files(self) -> (r: Vec<(String, String)>)
        requires
            self.wf(),
        ensures
            keys_unique(r@),
            entries_map(r@) == self.state().files,
    {
        self.files
    }
}

proof fn lemma_entries_update(es: Seq<(String, String)>, i: int, k: String, v: String)
    requires
        keys_unique(es),
        0 <= i < es.len(),
        es[i].0@ == k@,
    ensures
        keys_unique(es.update(i, (k, v))),
        entries_map(es.update(i, (k, v))) == entries_map(es).insert(k@, v@),
    decreases es.len(),
{
    let es2 = es.update(i, (k, v));
    assert(keys_unique(es2));
    if i == es.len() - 1 {
        assert(es2.drop_last() == es.drop_last());
        assert(entries_map(es2) =~= entries_map(es).insert(k@, v@));
    } else {
        lemma_entries_update(es.drop_last(), i, k, v);
        assert(es2.drop_last() == es.drop_last().update(i, (k, v)));
        assert(entries_map(es2) =~= entries_map(es).insert(k@, v@));
    }
}

/// Within one pass, text written and addressed to one path and then text
/// written and addressed to another path gives exactly those two files.
pub proof fn lemma_two_files(a: Seq<char>, x: Seq<char>, b: Seq<char>, y: Seq<char>)
    requires
        a != b,
    ensures
        sink_capture(sink_write(sink_capture(sink_write(sink_empty(), x), a), y), b).files
            == map![a => x, b => y],
{
    let s = sink_capture(sink_write(sink_capture(sink_write(sink_empty(), x), a), y), b);
    assert(Seq::<char>::empty() + x =~= x);
    assert(Seq::<char>::empty() + y =~= y);
    assert(s.files =~= map![a => x, b => y]);
}

/// Addressing the same path twice keeps only the later text: the earlier
/// capture leaves no trace in the files, and the buffer is empty after it.
pub proof fn lemma_last_capture_wins(s: SinkState, p: Seq<char>, x: Seq<char>, y: Seq<char>)
    ensures
        sink_capture(sink_write(sink_capture(sink_write(s, x), p), y), p).files == s.files.insert(
            p,
            y,
        ),
{
    let t = sink_capture(sink_write(sink_capture(sink_write(s, x), p), y), p);
    assert(Seq::<char>::empty() + y =~= y);
    assert(t.files =~= s.files.insert(p, y));
}

} // verus!

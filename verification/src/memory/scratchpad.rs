//! The agent's working notes.
use vstd::prelude::*;

verus! {

/// The notes the agent has taken, oldest first.
#[derive(Debug, Clone)]
pub struct Scratchpad {
    notes: Vec<String>,
}

/// The last `limit` notes, newest first.
pub open spec fn newest_first(notes: Seq<Seq<char>>, limit: nat) -> Seq<Seq<char>> {
    let n = if limit < notes.len() { limit } else { notes.len() };
    Seq::new(n, |i: int| notes[notes.len() - 1 - i])
}

impl View for Scratchpad {
    type V = Seq<Seq<char>>;

    closed spec fn view(&self) -> Seq<Seq<char>> {
        self.notes.deep_view()
    }
}

impl Default for Scratchpad {
    fn default() -> (s: Self)
        ensures
            s@ == Seq::<Seq<char>>::empty(),
    {
        let s = Scratchpad { notes: Vec::new() };
        assert(s.notes.deep_view() =~= Seq::<Seq<char>>::empty());
        s
    }
}

impl Scratchpad {
    /// A scratchpad holding `notes`, oldest first.
    pub fn from_notes(notes: Vec<String>) -> (s: Self)
        ensures
            s@ == notes.deep_view(),
    {
        Scratchpad { notes }
    }

    /// A copy of this scratchpad.
    pub fn duplicate(&self) -> (s: Self)
        ensures
            s@ == self@,
    {
        let mut notes: Vec<String> = Vec::new();
        let mut i: usize = 0;
        while i < self.notes.len()
            invariant
                i <= self.notes@.len(),
                notes.deep_view() == self.notes.deep_view().take(i as int),
            decreases self.notes@.len() - i,
        {
            let note = self.notes[i].clone();
            let ghost prev = notes.deep_view();
            notes.push(note);
            assert(notes.deep_view() =~= prev.push(note@));
            assert(notes.deep_view() =~= self.notes.deep_view().take(i + 1));
            i = i + 1;
        }
        assert(self.notes.deep_view().take(i as int) =~= self.notes.deep_view());
        Scratchpad { notes }
    }

    /// Adds a note after all the others.
    pub fn push(&mut self, note: String)
        ensures
            final(self)@ == old(self)@.push(note@),
    {
        self.notes.push(note);
        assert(self.notes.deep_view() =~= old(self)@.push(note@));
    }

    /// The last `limit` notes, newest first.
    pub fn recent(&self, limit: usize) -> (r: Vec<String>)
        ensures
            r.deep_view() == newest_first(self@, limit as nat),
    {
        let n = self.notes.len();
        let count = if limit < n { limit } else { n };
        let mut r: Vec<String> = Vec::new();
        let mut i: usize = 0;
        while i < count
            invariant
                n == self.notes@.len(),
                count <= n,
                count == (if limit < n { limit } else { n }),
                i <= count,
                r.deep_view() == newest_first(self@, limit as nat).take(i as int),
            decreases count - i,
        {
            let note = self.notes[n - 1 - i].clone();
            let ghost prev = r.deep_view();
            r.push(note);
            assert(r.deep_view() =~= prev.push(note@));
            assert(r.deep_view() =~= newest_first(self@, limit as nat).take(i + 1));
            i = i + 1;
        }
        assert(newest_first(self@, limit as nat).take(count as int) =~= newest_first(self@, limit as nat));
        r
    }

    /// All the notes, oldest first.
    pub fn all(&self) -> (r: &[String])
        ensures
            r@.map_values(|s: String| s@) == self@,
    {
        assert(self.notes@.map_values(|s: String| s@) =~= self.notes.deep_view());
        self.notes.as_slice()
    }
}


/// The newest note is the one pushed last.
pub proof fn lemma_push_then_recent(notes: Seq<Seq<char>>, note: Seq<char>)
    ensures
        newest_first(notes.push(note), 1) == seq![note],
{
    assert(newest_first(notes.push(note), 1) =~= seq![note]);
}

/// `recent(limit)` gives `limit` notes, or all of them when there are
/// fewer, newest first.
pub proof fn lemma_recent_len(notes: Seq<Seq<char>>, limit: nat)
    ensures
        newest_first(notes, limit).len() == (if limit < notes.len() { limit } else { notes.len() }),
        forall|i: int| 0 <= i < newest_first(notes, limit).len() ==> #[trigger] newest_first(notes, limit)[i]
            == notes[notes.len() - 1 - i],
{
}

} // verus!

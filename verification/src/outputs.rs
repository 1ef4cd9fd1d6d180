//! The generated files: each header's name with the text gathered for it.

use vstd::prelude::*;
use vstd::string::*;

verus! {

/// Texts by key, as a sequence of pairs of key and text.
pub type Entries = Seq<(Seq<char>, Seq<char>)>;

/// Where `key` stands among `entries`: the index of the first pair under that key.
pub open spec fn position(entries: Entries, key: Seq<char>) -> Option<int>
    decreases entries.len(),
{
    if entries.len() == 0 {
        None
    } else {
        match position(entries.drop_last(), key) {
            Some(i) => Some(i),
            None => if entries.last().0 == key {
                Some(entries.len() - 1)
            } else {
                None
            },
        }
    }
}

/// The text that `entries` holds under `key`.
pub open spec fn lookup(entries: Entries, key: Seq<char>) -> Option<Seq<char>> {
    match position(entries, key) {
        Some(i) => Some(entries[i].1),
        None => None,
    }
}

/// Whether no two pairs of `entries` have the same key.
pub open spec fn distinct_keys(entries: Entries) -> bool {
    forall|i: int, j: int| 0 <= i < j < entries.len() ==> entries[i].0 != entries[j].0
}

/// `entries` after `text` was appended to what stands under `key`; a key not yet there
/// comes last, with `text` as its text.
pub open spec fn appended(entries: Entries, key: Seq<char>, text: Seq<char>) -> Entries {
    match position(entries, key) {
        Some(i) => entries.update(i, (key, entries[i].1 + text)),
        None => entries.push((key, text)),
    }
}

/// `entries` after `text` took the place of what stands under `key`; a key not yet
/// there comes last.
pub open spec fn inserted(entries: Entries, key: Seq<char>, text: Seq<char>) -> Entries {
    match position(entries, key) {
        Some(i) => entries.update(i, (key, text)),
        None => entries.push((key, text)),
    }
}

/// `entries` with `text` under `key` where nothing stood under `key` before; what
/// already stands under a key stays.
pub open spec fn registered(entries: Entries, key: Seq<char>, text: Seq<char>) -> Entries {
    match position(entries, key) {
        Some(_) => entries,
        None => entries.push((key, text)),
    }
}

/// What [`position`] finds is the first pair under the key, and it finds one if
/// there is any.
pub proof fn lemma_position(entries: Entries, key: Seq<char>)
    ensures
        match position(entries, key) {
            Some(i) => 0 <= i < entries.len() && entries[i].0 == key && forall|j: int|
                0 <= j < i ==> entries[j].0 != key,
            None => forall|j: int| 0 <= j < entries.len() ==> entries[j].0 != key,
        },
    decreases entries.len(),
{
    if entries.len() > 0 {
        let front = entries.drop_last();
        lemma_position(front, key);
        assert(forall|j: int| 0 <= j < front.len() ==> front[j] == entries[j]);
    }
}

/// Appending, inserting and registering keep keys distinct.
pub proof fn lemma_distinct_kept(entries: Entries, key: Seq<char>, text: Seq<char>)
    requires
        distinct_keys(entries),
    ensures
        distinct_keys(appended(entries, key, text)),
        distinct_keys(inserted(entries, key, text)),
        distinct_keys(registered(entries, key, text)),
{
    lemma_position(entries, key);
}

/// Finds the pair of `entries` that stands under `key`.
pub fn find_key(entries: &Vec<(String, String)>, key: &str) -> (r: Option<usize>)
    ensures
        match r {
            Some(i) => i < entries@.len() && position(entries.deep_view(), key@) == Some(i as int),
            None => position(entries.deep_view(), key@) is None,
        },
{
    let ghost all = entries.deep_view();
    let mut i: usize = 0;
    while i < entries.len()
        invariant
            i <= entries@.len(),
            all == entries.deep_view(),
            position(all.take(i as int), key@) is None,
        decreases entries.len() - i,
    {
        proof {
            assert(all.take(i + 1).drop_last() =~= all.take(i as int));
        }
        if entries[i].0.as_str().eq(key) {
            proof {
                lemma_position_stays(all, i + 1, key@);
            }
            return Some(i);
        }
        i += 1;
    }
    proof {
        assert(all.take(entries@.len() as int) =~= all);
    }
    None
}

/// A key found among the first `count` pairs is found there among all of them.
pub proof fn lemma_position_stays(entries: Entries, count: int, key: Seq<char>)
    requires
        0 <= count <= entries.len(),
        position(entries.take(count), key) is Some,
    ensures
        position(entries, key) == position(entries.take(count), key),
    decreases entries.len() - count,
{
    if count < entries.len() {
        assert(entries.take(count + 1).drop_last() =~= entries.take(count));
        lemma_position_stays(entries, count + 1, key);
    } else {
        assert(entries.take(count) =~= entries);
    }
}

/// The generated files: for each file name the text gathered for it so far, in the
/// order in which the names first came.
#[derive(Debug)]
pub struct Outputs {
    entries: Vec<(String, String)>,
}

impl View for Outputs {
    type V = Entries;

    closed spec fn view(&self) -> Entries {
        self.entries.deep_view()
    }
}

impl Outputs {
    #[verifier::type_invariant]
    closed spec fn keys_are_distinct(&self) -> bool {
        distinct_keys(self.entries.deep_view())
    }

    /// No file.
    pub fn new() -> (outputs: Outputs)
        ensures
            outputs@ == Seq::<(Seq<char>, Seq<char>)>::empty(),
    {
        let entries: Vec<(String, String)> = Vec::new();
        Outputs { entries }
    }

    /// The number of files; no two of them have the same name.
    pub fn len(&self) -> (n: usize)
        ensures
            n == self@.len(),
            distinct_keys(self@),
    {
        proof {
            use_type_invariant(self);
        }
        self.entries.len()
    }

    /// Where the file `file` stands.
    pub fn position(&self, file: &str) -> (r: Option<usize>)
        ensures
            match r {
                Some(i) => i < self@.len() && position(self@, file@) == Some(i as int),
                None => position(self@, file@) is None,
            },
    {
        find_key(&self.entries, file)
    }

    /// The name of the file at `index`.
    pub fn name(&self, index: usize) -> (name: &String)
        requires
            index < self@.len(),
        ensures
            name@ == self@[index as int].0,
    {
        &self.entries[index].0
    }

    /// The text of the file at `index`.
    pub fn text(&self, index: usize) -> (text: &String)
        requires
            index < self@.len(),
        ensures
            text@ == self@[index as int].1,
    {
        &self.entries[index].1
    }

    /// The text of the file `file`.
    pub fn get(&self, file: &str) -> (r: Option<&String>)
        ensures
            match lookup(self@, file@) {
                Some(text) => r matches Some(t) && t@ == text,
                None => r is None,
            },
    {
        match find_key(&self.entries, file) {
            Some(i) => Some(&self.entries[i].1),
            None => None,
        }
    }

    /// Appends `text` to the file `file`, which is created where it is new.
    pub fn append(&mut self, text: String, file: &str)
        ensures
            final(self)@ == appended(old(self)@, file@, text@),
            distinct_keys(final(self)@),
    {
        proof {
            use_type_invariant(&*self);
            lemma_distinct_kept(self@, file@, text@);
        }
        let ghost before = self.entries.deep_view();
        let mut entries: Vec<(String, String)> = Vec::new();
        core::mem::swap(&mut self.entries, &mut entries);
        proof {
            lemma_position(before, file@);
        }
        match find_key(&entries, file) {
            Some(i) => {
                entries[i].1.append(text.as_str());
                assert(entries.deep_view() =~= appended(before, file@, text@));
            },
            None => {
                entries.push((String::from_str(file), text));
                assert(entries.deep_view() =~= appended(before, file@, text@));
            },
        }
        self.entries = entries;
    }

    /// Makes `text` the text of the file at `index`.
    pub fn replace_text(&mut self, index: usize, text: String)
        requires
            index < old(self)@.len(),
        ensures
            final(self)@ == old(self)@.update(index as int, (old(self)@[index as int].0, text@)),
            distinct_keys(final(self)@),
    {
        proof {
            use_type_invariant(&*self);
        }
        let ghost before = self.entries.deep_view();
        let mut entries: Vec<(String, String)> = Vec::new();
        core::mem::swap(&mut self.entries, &mut entries);
        entries[index].1 = text;
        assert(entries.deep_view() =~= before.update(index as int, (before[index as int].0, text@)));
        self.entries = entries;
    }

    /// Makes `text` the text of the file `file`, whether or not it had one.
    pub fn insert(&mut self, file: String, text: String)
        ensures
            final(self)@ == inserted(old(self)@, file@, text@),
            distinct_keys(final(self)@),
    {
        proof {
            use_type_invariant(&*self);
            lemma_distinct_kept(self@, file@, text@);
        }
        let ghost before = self.entries.deep_view();
        let mut entries: Vec<(String, String)> = Vec::new();
        core::mem::swap(&mut self.entries, &mut entries);
        proof {
            lemma_position(before, file@);
        }
        match find_key(&entries, file.as_str()) {
            Some(i) => {
                entries[i].1 = text;
                assert(entries.deep_view() =~= inserted(before, file@, text@));
            },
            None => {
                entries.push((file, text));
                assert(entries.deep_view() =~= inserted(before, file@, text@));
            },
        }
        self.entries = entries;
    }
}

} // verus!

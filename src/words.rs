use vstd::prelude::*;
use crate::text::{normalize, normalized};
use crate::urls::{absolute_url, parsed_href};

verus! {

/// One word of a list: its key, which is also its file name, and the
/// absolute URL of its audio.
pub struct WordEntry {
    pub key: String,
    pub audio_url: String,
}

/// A mapping from word keys to audio URLs, kept in the order in which keys
/// first arrived.
pub struct WordList {
    entries: Vec<WordEntry>,
}

impl View for WordList {
    type V = Map<Seq<char>, Seq<char>>;

    /// The mapping itself.
    closed spec fn view(&self) -> Map<Seq<char>, Seq<char>> {
        Map::new(
            |k: Seq<char>| exists|i: int| self.has_key_at(k, i),
            |k: Seq<char>| self.entries@[choose|i: int| self.has_key_at(k, i)].audio_url@,
        )
    }
}

impl WordList {
    /// No key occurs twice.
    pub closed spec fn wf(&self) -> bool {
        forall|i: int, j: int|
            0 <= i < self.entries.len() && 0 <= j < self.entries.len() && i != j
                ==> (#[trigger] self.entries@[i]).key@ != (#[trigger] self.entries@[j]).key@
    }

    pub closed spec fn has_key_at(&self, k: Seq<char>, i: int) -> bool {
        0 <= i < self.entries.len() && self.entries@[i].key@ == k
    }


    proof fn lemma_entry(&self, i: int)
        requires
            self.wf(),
            0 <= i < self.entries.len(),
        ensures
            self@.contains_key(self.entries@[i].key@),
            self@[self.entries@[i].key@] == self.entries@[i].audio_url@,
    {
        let k = self.entries@[i].key@;
        assert(self.has_key_at(k, i));
        let j = choose|j: int| self.has_key_at(k, j);
        assert(j == i);
    }

    /// The entries, in the order in which their keys first arrived.
    pub closed spec fn entry_seq(&self) -> Seq<WordEntry> {
        self.entries@
    }

    /// The entries, in the order in which their keys first arrived; each
    /// holds a key of the list with what is stored under it.
    pub fn into_entries(self) -> (r: Vec<WordEntry>)
        requires
            self.wf(),
        ensures
            r@ == self.entry_seq(),
            r.len() == self@.len(),
            forall|i: int| 0 <= i < r.len() ==> self@.contains_key(#[trigger] r@[i].key@)
                && self@[r@[i].key@] == r@[i].audio_url@,
    {
        proof {
            self.lemma_entries();
        }
        self.entries
    }

    proof fn lemma_entries(&self)
        requires
            self.wf(),
        ensures
            self@.len() == self.entries.len(),
            forall|i: int| 0 <= i < self.entries.len() ==> self@.contains_key(#[trigger] self.entries@[i].key@)
                && self@[self.entries@[i].key@] == self.entries@[i].audio_url@,
    {
        self.lemma_key_set();
        assert forall|i: int| 0 <= i < self.entries.len() implies self@.contains_key(#[trigger] self.entries@[i].key@)
            && self@[self.entries@[i].key@] == self.entries@[i].audio_url@ by {
            self.lemma_entry(i);
        }
    }

    /// An empty list.
    pub fn new() -> (r: WordList)
        ensures
            r.wf(),
            r@ == Map::<Seq<char>, Seq<char>>::empty(),
    {
        let r = WordList { entries: Vec::new() };
        assert(r@ =~= Map::<Seq<char>, Seq<char>>::empty());
        r
    }

    /// The number of keys.
    pub fn len(&self) -> (r: usize)
        requires
            self.wf(),
        ensures
            r == self@.len(),
    {
        proof {
            self.lemma_key_set();
        }
        self.entries.len()
    }

    proof fn lemma_key_set(&self)
        requires
            self.wf(),
        ensures
            self@.dom() == self.entries@.map_values(|e: WordEntry| e.key@).to_set(),
            self@.dom().len() == self.entries.len(),
    {
        let ks = self.entries@.map_values(|e: WordEntry| e.key@);
        assert forall|k: Seq<char>| self@.dom().contains(k) <==> ks.to_set().contains(k) by {
            if self@.dom().contains(k) {
                let i = choose|i: int| self.has_key_at(k, i);
                assert(ks[i] == k);
            }
            if ks.to_set().contains(k) {
                let i = choose|i: int| 0 <= i < ks.len() && ks[i] == k;
                assert(self.has_key_at(k, i));
            }
        }
        assert(self@.dom() =~= ks.to_set());
        assert(ks.no_duplicates()) by {
            assert forall|i: int, j: int| 0 <= i < ks.len() && 0 <= j < ks.len() && i != j
                implies ks[i] != ks[j] by {
                assert(self.entries@[i].key@ != self.entries@[j].key@);
            }
        }
        ks.unique_seq_to_set();
    }

    /// Whether the list holds no key.
    pub fn is_empty(&self) -> (r: bool)
        requires
            self.wf(),
        ensures
            r == (self@ == Map::<Seq<char>, Seq<char>>::empty()),
    {
        if self.entries.len() == 0 {
            assert(self@ =~= Map::<Seq<char>, Seq<char>>::empty());
            true
        } else {
            proof {
                self.lemma_entry(0);
                assert(!Map::<Seq<char>, Seq<char>>::empty().contains_key(self.entries@[0].key@));
            }
            false
        }
    }

    /// The entries, in the order in which their keys first arrived.
    pub fn entries(&self) -> (r: &Vec<WordEntry>)
        requires
            self.wf(),
        ensures
            r@ == self.entry_seq(),
            r.len() == self@.len(),
            forall|i: int| 0 <= i < r.len() ==> self@.contains_key(#[trigger] r@[i].key@)
                && self@[r@[i].key@] == r@[i].audio_url@,
    {
        proof {
            self.lemma_entries();
        }
        &self.entries
    }

    /// The audio URL stored under `key`.
    pub fn get(&self, key: &str) -> (r: Option<String>)
        requires
            self.wf(),
        ensures
            r is Some <==> self@.contains_key(key@),
            r matches Some(u) ==> self@[key@] == u@,
    {
        let mut i: usize = 0;
        while i < self.entries.len()
            invariant
                self.wf(),
                i <= self.entries.len(),
                forall|j: int| 0 <= j < i ==> self.entries@[j].key@ != key@,
            decreases self.entries.len() - i,
        {
            if self.entries[i].key.eq(&key.to_owned()) {
                proof {
                    self.lemma_entry(i as int);
                }
                return Some(self.entries[i].audio_url.clone());
            }
            i = i + 1;
        }
        None
    }

    /// Stores `audio_url` under `key`, replacing what was stored there.
    pub fn insert(&mut self, key: String, audio_url: String)
        requires
            old(self).wf(),
        ensures
            final(self).wf(),
            final(self)@ == old(self)@.insert(key@, audio_url@),
    {
        let ghost k = key@;
        let ghost u = audio_url@;
        let mut i: usize = 0;
        while i < self.entries.len()
            invariant
                self.wf(),
                *self == *old(self),
                key@ == k,
                audio_url@ == u,
                i <= self.entries.len(),
                forall|j: int| 0 <= j < i ==> self.entries@[j].key@ != k,
            decreases self.entries.len() - i,
        {
            if self.entries[i].key.eq(&key) {
                let ghost before = *self;
                self.entries.set(i, WordEntry { key, audio_url });
                proof {
                    assert forall|a: int, b: int|
                        0 <= a < self.entries.len() && 0 <= b < self.entries.len() && a != b
                        implies (#[trigger] self.entries@[a]).key@ != (#[trigger] self.entries@[b]).key@ by {
                        assert(before.entries@[a].key@ != before.entries@[b].key@);
                    }
                    self.lemma_same_keys(before, i as int, k, u);
                }
                return;
            }
            i = i + 1;
        }
        let ghost before = *self;
        self.entries.push(WordEntry { key, audio_url });
        proof {
            assert(self.entries@.drop_last() =~= before.entries@);
            self.lemma_pushed(before, k, u);
        }
    }

    proof fn lemma_same_keys(&self, before: WordList, i: int, k: Seq<char>, u: Seq<char>)
        requires
            before.wf(),
            self.wf(),
            0 <= i < before.entries.len(),
            before.entries@[i].key@ == k,
            self.entries@ == before.entries@.update(i, self.entries@[i]),
            self.entries@[i].key@ == k,
            self.entries@[i].audio_url@ == u,
        ensures
            self@ == before@.insert(k, u),
    {
        assert forall|k2: Seq<char>| #![auto] self@.contains_key(k2) <==> before@.insert(k, u).contains_key(k2) by {
            if self@.contains_key(k2) {
                let j = choose|j: int| self.has_key_at(k2, j);
                if j != i {
                    assert(before.has_key_at(k2, j));
                }
            }
            if before@.contains_key(k2) {
                let j = choose|j: int| before.has_key_at(k2, j);
                if j != i {
                    assert(self.has_key_at(k2, j));
                } else {
                    assert(self.has_key_at(k2, i));
                }
            }
            if k2 == k {
                assert(self.has_key_at(k2, i));
            }
        }
        assert forall|k2: Seq<char>| #![auto] self@.contains_key(k2) implies self@[k2] == before@.insert(k, u)[k2] by {
            let j = choose|j: int| self.has_key_at(k2, j);
            self.lemma_entry(j);
            if j != i {
                before.lemma_entry(j);
            }
        }
        assert(self@ =~= before@.insert(k, u));
    }

    proof fn lemma_pushed(&self, before: WordList, k: Seq<char>, u: Seq<char>)
        requires
            before.wf(),
            forall|j: int| 0 <= j < before.entries.len() ==> before.entries@[j].key@ != k,
            self.entries.len() == before.entries.len() + 1,
            self.entries@.drop_last() == before.entries@,
            self.entries@.last().key@ == k,
            self.entries@.last().audio_url@ == u,
        ensures
            self.wf(),
            self@ == before@.insert(k, u),
    {
        let n = before.entries.len() as int;
        assert forall|a: int, b: int|
            0 <= a < self.entries.len() && 0 <= b < self.entries.len() && a != b
            implies (#[trigger] self.entries@[a]).key@ != (#[trigger] self.entries@[b]).key@ by {
            if a < n && b < n {
                assert(self.entries@[a] == before.entries@[a]);
                assert(self.entries@[b] == before.entries@[b]);
            } else if a < n {
                assert(self.entries@[a] == before.entries@[a]);
            } else {
                assert(self.entries@[b] == before.entries@[b]);
            }
        }
        assert forall|j: int| 0 <= j < n implies self.entries@[j] == before.entries@[j] by {
            assert(self.entries@.drop_last()[j] == self.entries@[j]);
        }
        assert forall|k2: Seq<char>| #![auto] self@.contains_key(k2) <==> before@.insert(k, u).contains_key(k2) by {
            if self@.contains_key(k2) {
                let j = choose|j: int| self.has_key_at(k2, j);
                if j != n {
                    assert(before.has_key_at(k2, j));
                }
            }
            if before@.contains_key(k2) {
                let j = choose|j: int| before.has_key_at(k2, j);
                assert(self.has_key_at(k2, j));
            }
            if k2 == k {
                assert(self.has_key_at(k2, n));
            }
        }
        assert forall|k2: Seq<char>| #![auto] self@.contains_key(k2) implies self@[k2] == before@.insert(k, u)[k2] by {
            let j = choose|j: int| self.has_key_at(k2, j);
            self.lemma_entry(j);
            if j != n {
                before.lemma_entry(j);
            }
        }
        assert(self@ =~= before@.insert(k, u));
    }
}


/// What a page holds for one word section: the text of its label, and
/// the `src` of its audio source, each absent where the section lacks it.
pub struct RawSection {
    pub label: Option<String>,
    pub audio_src: Option<String>,
}

/// A section as plain values: its label and its audio source's `src`.
pub type SectionView = (Option<Seq<char>>, Option<Seq<char>>);

impl RawSection {
    pub open spec fn view(&self) -> SectionView {
        (
            match self.label {
                Some(l) => Some(l@),
                None => None,
            },
            match self.audio_src {
                Some(a) => Some(a@),
                None => None,
            },
        )
    }
}

/// Why a page's word list could not be read; each variant but the last
/// gives the position of the section at fault.
#[derive(Clone, Copy, Debug, PartialEq, Eq, Structural)]
pub enum ExtractError {
    MissingLabel(usize),
    MissingAudio(usize),
    BadAudioUrl(usize),
    BadSelector,
}

/// The key that a label yields, or `None` where the section is skipped: its
/// normalised form is empty or still holds a `/`.
pub open spec fn key_of(label: Seq<char>) -> Option<Seq<char>> {
    let k = normalized(label);
    if k.len() == 0 || k.contains('/') {
        None
    } else {
        Some(k)
    }
}

/// The mapping after section `sec`, at position `i`, is read into `m`.
pub open spec fn add_section(m: Map<Seq<char>, Seq<char>>, sec: SectionView, i: int) -> Result<
    Map<Seq<char>, Seq<char>>,
    ExtractError,
> {
    match sec.0 {
        None => Err(ExtractError::MissingLabel(i as usize)),
        Some(label) => match key_of(label) {
            None => Ok(m),
            Some(k) => match sec.1 {
                None => Err(ExtractError::MissingAudio(i as usize)),
                Some(src) => match parsed_href(src) {
                    None => Err(ExtractError::BadAudioUrl(i as usize)),
                    Some(h) => Ok(m.insert(k, h)),
                },
            },
        },
    }
}

/// The word list that sections yield, read in order: the first faulty
/// section fails the whole list, and a later section wins over an earlier
/// one with the same key.
pub open spec fn words_of(secs: Seq<SectionView>) -> Result<Map<Seq<char>, Seq<char>>, ExtractError>
    decreases secs.len(),
{
    if secs.len() == 0 {
        Ok(Map::empty())
    } else {
        match words_of(secs.drop_last()) {
            Err(e) => Err(e),
            Ok(m) => add_section(m, secs.last(), secs.len() - 1),
        }
    }
}

/// The sections as plain values.
pub open spec fn views_of(secs: Seq<RawSection>) -> Seq<SectionView> {
    secs.map_values(|s: RawSection| s.view())
}

/// Reads word sections, in document order, into a word list.
pub fn collect_words(sections: &Vec<RawSection>) -> (r: Result<WordList, ExtractError>)
    ensures
        r matches Ok(w) ==> w.wf() && words_of(views_of(sections@)) == Ok::<_, ExtractError>(w@),
        r matches Err(e) ==> words_of(views_of(sections@)) == Err::<Map<Seq<char>, Seq<char>>, _>(e)
            && !(e is BadSelector),
{
    let ghost sv = views_of(sections@);
    let mut list = WordList::new();
    for i in 0..sections.len()
        invariant
            sv == views_of(sections@),
            list.wf(),
            words_of(sv.take(i as int)) == Ok::<_, ExtractError>(list@),
    {
        let ghost before = list@;
        assert(sv.take(i + 1).drop_last() =~= sv.take(i as int));
        assert(sv.take(i + 1).last() == sections@[i as int].view());
        let sec = &sections[i];
        match &sec.label {
            None => {
                proof { lemma_error_stays(sv, i as int + 1); }
                return Err(ExtractError::MissingLabel(i));
            },
            Some(label) => {
                let key = normalize(label.as_str());
                if key.as_str().is_empty() || contains_slash(&key) {
                    proof {
                        if key@.len() == 0 {
                            assert(key@ =~= Seq::<char>::empty());
                        }
                    }
                } else {
                    match &sec.audio_src {
                        None => {
                            proof { lemma_error_stays(sv, i as int + 1); }
                            return Err(ExtractError::MissingAudio(i));
                        },
                        Some(src) => match absolute_url(src.as_str()) {
                            None => {
                                proof { lemma_error_stays(sv, i as int + 1); }
                                return Err(ExtractError::BadAudioUrl(i));
                            },
                            Some(h) => list.insert(key, h),
                        },
                    }
                }
            },
        }
    }
    assert(sv.take(sections.len() as int) =~= sv);
    Ok(list)
}

fn contains_slash(s: &String) -> (r: bool)
    ensures
        r == s@.contains('/'),
{
    let v = crate::text::chars_of(s.as_str());
    let mut i: usize = 0;
    while i < v.len()
        invariant
            v@ == s@,
            i <= v.len(),
            forall|j: int| 0 <= j < i ==> v@[j] != '/',
        decreases v.len() - i,
    {
        if v[i] == '/' {
            return true;
        }
        i = i + 1;
    }
    false
}

/// Once a prefix of the sections fails, every longer prefix fails the same way.
proof fn lemma_error_stays(secs: Seq<SectionView>, n: int)
    requires
        0 < n <= secs.len(),
        words_of(secs.take(n)) is Err,
    ensures
        words_of(secs) == words_of(secs.take(n)),
    decreases secs.len() - n,
{
    if n < secs.len() {
        assert(secs.take(n + 1).drop_last() =~= secs.take(n));
        lemma_error_stays(secs, n + 1);
    } else {
        assert(secs.take(n) =~= secs);
    }
}


/// A page without word sections yields an empty word list, not an error.
pub proof fn law_no_sections_no_words(secs: Seq<SectionView>)
    requires
        secs.len() == 0,
    ensures
        words_of(secs) == Ok::<_, ExtractError>(Map::<Seq<char>, Seq<char>>::empty()),
{
}

/// A section whose label normalises to nothing adds no entry: the word list
/// is the same with or without it.
pub proof fn law_empty_key_skipped(secs: Seq<SectionView>, sec: SectionView)
    requires
        sec.0 matches Some(l) && normalized(l).len() == 0,
    ensures
        words_of(secs.push(sec)) == words_of(secs),
{
    assert(secs.push(sec).drop_last() =~= secs);
}

/// Every key of a word list is usable as a file name: it is not empty and
/// holds no `/`; so no download is ever made under an empty name.
pub proof fn law_keys_usable(secs: Seq<SectionView>)
    ensures
        words_of(secs) matches Ok(m) ==> forall|k: Seq<char>| #[trigger] m.contains_key(k)
            ==> k.len() > 0 && !k.contains('/'),
    decreases secs.len(),
{
    if secs.len() > 0 {
        law_keys_usable(secs.drop_last());
    }
}

} // verus!

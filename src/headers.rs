use vstd::prelude::*;

use crate::text::{chars_eq, chars_of, concat_chars, string_of};

verus! {

/// A header as the contracts see it: its name and its value.
pub type HeaderModel = (Seq<char>, Seq<char>);

/// Index of the first header named `k`, or -1 when there is none.
pub open spec fn key_index(h: Seq<HeaderModel>, k: Seq<char>) -> int {
    if exists|i: int| 0 <= i < h.len() && h[i].0 == k && (forall|j: int| 0 <= j < i ==> h[j].0 != k) {
        choose|i: int| 0 <= i < h.len() && h[i].0 == k && (forall|j: int| 0 <= j < i ==> h[j].0 != k)
    } else {
        -1
    }
}

/// The value recorded under the exact name `k`, if any.
pub open spec fn header_value(h: Seq<HeaderModel>, k: Seq<char>) -> Option<Seq<char>> {
    let i = key_index(h, k);
    if 0 <= i < h.len() {
        Some(h[i].1)
    } else {
        None
    }
}

/// `h` with `k` set to `v`: an existing header of that name keeps its place and
/// takes the new value, otherwise the header is appended.
pub open spec fn with_header(h: Seq<HeaderModel>, k: Seq<char>, v: Seq<char>) -> Seq<HeaderModel> {
    let i = key_index(h, k);
    if 0 <= i < h.len() {
        h.update(i, (k, v))
    } else {
        h.push((k, v))
    }
}

/// The wire form of the headers: `name: value` and CR LF for each, in order.
pub open spec fn header_text(h: Seq<HeaderModel>) -> Seq<char>
    decreases h.len(),
{
    if h.len() == 0 {
        Seq::empty()
    } else {
        header_text(h.drop_last()) + h.last().0 + ": "@ + h.last().1 + "\r\n"@
    }
}

/// A first header named `k` at `m` is what `key_index` finds.
proof fn lemma_key_at(h: Seq<HeaderModel>, k: Seq<char>, m: int)
    requires
        0 <= m < h.len(),
        h[m].0 == k,
        forall|j: int| 0 <= j < m ==> h[j].0 != k,
    ensures
        key_index(h, k) == m,
{
    assert(0 <= m < h.len() && h[m].0 == k && (forall|j: int| 0 <= j < m ==> h[j].0 != k));
}

/// What `key_index` finds is a first header named `k`; it finds none only
/// where no header has that name.
proof fn lemma_key_index(h: Seq<HeaderModel>, k: Seq<char>)
    ensures
        key_index(h, k) == -1 || (0 <= key_index(h, k) < h.len() && h[key_index(h, k)].0 == k
            && forall|j: int| 0 <= j < key_index(h, k) ==> h[j].0 != k),
        key_index(h, k) == -1 ==> forall|j: int| 0 <= j < h.len() ==> h[j].0 != k,
{
    if exists|j: int| 0 <= j < h.len() && h[j].0 == k {
        let w = choose|j: int| 0 <= j < h.len() && h[j].0 == k;
        lemma_first_match(h, k, w);
    }
}

/// Where some header is named `k`, a first one is.
proof fn lemma_first_match(h: Seq<HeaderModel>, k: Seq<char>, w: int)
    requires
        0 <= w < h.len(),
        h[w].0 == k,
    ensures
        0 <= key_index(h, k) < h.len(),
    decreases w,
{
    if exists|j: int| 0 <= j < w && h[j].0 == k {
        let j = choose|j: int| 0 <= j < w && h[j].0 == k;
        lemma_first_match(h, k, j);
    } else {
        lemma_key_at(h, k, w);
    }
}

/// Two header lists that agree wherever a name other than `k` is concerned
/// record the same values under every name other than `k`.
proof fn lemma_other_names(h: Seq<HeaderModel>, h2: Seq<HeaderModel>, k: Seq<char>, n: Seq<char>)
    requires
        n != k,
        h.len() <= h2.len(),
        forall|j: int| 0 <= j < h.len() && h[j].0 != k ==> h2[j] == h[j],
        forall|j: int| 0 <= j < h.len() && h[j].0 == k ==> h2[j].0 == k,
        forall|j: int| h.len() <= j < h2.len() ==> h2[j].0 == k,
    ensures
        header_value(h2, n) == header_value(h, n),
{
    lemma_key_index(h, n);
    lemma_key_index(h2, n);
    let m = key_index(h, n);
    if m != -1 {
        lemma_key_at(h2, n, m);
    } else {
        let m2 = key_index(h2, n);
        if m2 != -1 {
            assert(h[m2].0 == n);
        }
    }
}

/// Setting a header changes what is recorded under its name and nothing else.
pub proof fn lemma_with_header(h: Seq<HeaderModel>, k: Seq<char>, v: Seq<char>, n: Seq<char>)
    ensures
        header_value(with_header(h, k, v), n) == if n == k {
            Some(v)
        } else {
            header_value(h, n)
        },
{
    lemma_key_index(h, k);
    let i = key_index(h, k);
    let h2 = with_header(h, k, v);
    if n == k {
        if i != -1 {
            lemma_key_at(h2, k, i);
        } else {
            lemma_key_at(h2, k, h.len() as int);
        }
    } else {
        lemma_other_names(h, h2, k, n);
    }
}

/// An ordered list of header names and values, each name at most once as
/// `insert` keeps it; names are compared exactly, case included.
pub struct Headers {
    entries: Vec<(Vec<char>, Vec<char>)>,
}

impl View for Headers {
    type V = Seq<HeaderModel>;

    closed spec fn view(&self) -> Seq<HeaderModel> {
        self.entries@.map_values(|e: (Vec<char>, Vec<char>)| (e.0@, e.1@))
    }
}

impl Headers {
    /// No headers.
    pub fn new() -> (r: Headers)
        ensures
            r@ == Seq::<HeaderModel>::empty(),
    {
        let r = Headers { entries: Vec::new() };
        assert(r@ =~= Seq::<HeaderModel>::empty());
        r
    }

    /// The number of headers.
    pub fn len(&self) -> (r: usize)
        ensures
            r == self@.len(),
    {
        self.entries.len()
    }

    fn index_of(&self, name: &Vec<char>) -> (r: Option<usize>)
        ensures
            match r {
                Some(i) => i < self@.len() && i == key_index(self@, name@),
                None => key_index(self@, name@) == -1,
            },
    {
        let mut i: usize = 0;
        while i < self.entries.len()
            invariant
                i <= self.entries.len(),
                forall|j: int| 0 <= j < i ==> self@[j].0 != name@,
            decreases self.entries.len() - i,
        {
            if chars_eq(&self.entries[i].0, name) {
                let ghost h = self@;
                assert(0 <= i < h.len() && h[i as int].0 == name@ && (forall|j: int|
                    0 <= j < i ==> h[j].0 != name@));
                return Some(i);
            }
            i = i + 1;
        }
        None
    }

    /// Sets `name` to `value`, in place where the name is present already.
    pub fn insert_chars(&mut self, name: Vec<char>, value: Vec<char>)
        ensures
            final(self)@ == with_header(old(self)@, name@, value@),
            forall|n: Seq<char>|
                #[trigger] header_value(final(self)@, n) == if n == name@ {
                    Some(value@)
                } else {
                    header_value(old(self)@, n)
                },
    {
        let ghost h = self@;
        let ghost k0 = name@;
        let ghost v0 = value@;
        proof {
            assert forall|n: Seq<char>|
                #[trigger] header_value(with_header(h, k0, v0), n) == if n == k0 {
                    Some(v0)
                } else {
                    header_value(h, n)
                } by {
                lemma_with_header(h, k0, v0, n);
            }
        }
        match self.index_of(&name) {
            Some(i) => {
                let ghost k = name@;
                let ghost v = value@;
                self.entries.set(i, (name, value));
                assert(self@ =~= h.update(i as int, (k, v)));
            },
            None => {
                let ghost k = name@;
                let ghost v = value@;
                self.entries.push((name, value));
                assert(self@ =~= h.push((k, v)));
            },
        }
    }

    /// Sets `name` to `value`, in place where the name is present already.
    pub fn insert(&mut self, name: &str, value: &str)
        ensures
            final(self)@ == with_header(old(self)@, name@, value@),
            forall|n: Seq<char>|
                #[trigger] header_value(final(self)@, n) == if n == name@ {
                    Some(value@)
                } else {
                    header_value(old(self)@, n)
                },
    {
        self.insert_chars(chars_of(name), chars_of(value));
    }

    /// The value recorded under exactly `name`.
    pub fn get(&self, name: &str) -> (r: Option<String>)
        ensures
            match r {
                Some(s) => header_value(self@, name@) == Some(s@),
                None => header_value(self@, name@) is None,
            },
    {
        let key = chars_of(name);
        match self.index_of(&key) {
            Some(i) => Some(string_of(&self.entries[i].1)),
            None => None,
        }
    }

    /// The headers as they go on the wire.
    pub fn text_chars(&self) -> (r: Vec<char>)
        ensures
            r@ == header_text(self@),
    {
        let mut out: Vec<char> = Vec::new();
        let sep = chars_of(": ");
        let end = chars_of("\r\n");
        let mut i: usize = 0;
        while i < self.entries.len()
            invariant
                i <= self.entries.len(),
                sep@ == ": "@,
                end@ == "\r\n"@,
                out@ == header_text(self@.subrange(0, i as int)),
            decreases self.entries.len() - i,
        {
            let ghost h = self@;
            assert(h.subrange(0, i + 1).drop_last() =~= h.subrange(0, i as int));
            out = concat_chars(&out, &self.entries[i].0);
            out = concat_chars(&out, &sep);
            out = concat_chars(&out, &self.entries[i].1);
            out = concat_chars(&out, &end);
            i = i + 1;
        }
        assert(self@.subrange(0, self@.len() as int) =~= self@);
        out
    }
}

} // verus!

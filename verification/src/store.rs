//! The key/value store: namespaced keys, the store interface, an in-memory
//! store, and the file layout of the disk-backed store.

use vstd::prelude::*;
use vstd::slice::*;
use vstd::string::*;

use crate::codec::StoreError;

verus! {

/// The byte `:` that separates a namespace from a name.
pub open spec fn colon() -> u8 {
    0x3a
}

/// The bytes of the namespaced key `"{space}:{key}"`.
pub open spec fn ns_bytes(space: Seq<char>, key: Seq<char>) -> Seq<u8> {
    vstd::utf8::encode_utf8(space) + seq![colon()] + vstd::utf8::encode_utf8(key)
}

/// Builds the namespaced key `"{space}:{key}"` as bytes.
pub fn ns(space: &str, key: &str) -> (out: Vec<u8>)
    ensures
        out@ == ns_bytes(space@, key@),
{
    let mut out: Vec<u8> = space.as_bytes_vec();
    out.push(0x3a);
    out.extend_from_slice(key.as_bytes());
    out
}

/// The lower-case hexadecimal digit of a value below sixteen, `?` above.
pub open spec fn hex_digit_of(n: u8) -> char {
    if n <= 9 {
        (0x30 + n) as char
    } else if n <= 15 {
        (0x61 + (n - 10)) as char
    } else {
        '?'
    }
}

/// The lower-case hexadecimal digit of `n`.
pub fn hex_digit(n: u8) -> (c: char)
    ensures
        c == hex_digit_of(n),
{
    if n <= 9 {
        (0x30u8 + n) as char
    } else if n <= 15 {
        (0x61u8 + (n - 10)) as char
    } else {
        '?'
    }
}

/// Whether two byte strings hold the same bytes.
pub fn bytes_eq(a: &[u8], b: &[u8]) -> (same: bool)
    ensures
        same == (a@ == b@),
{
    if a.len() != b.len() {
        return false;
    }
    let mut i: usize = 0;
    while i < a.len()
        invariant
            i <= a.len(),
            a.len() == b.len(),
            forall|j: int| 0 <= j < i ==> a@[j] == b@[j],
        decreases a.len() - i,
    {
        if a[i] != b[i] {
            return false;
        }
        i = i + 1;
    }
    proof {
        assert(a@ =~= b@);
    }
    true
}

/// Whether two strings hold the same characters.
pub fn str_eq(a: &str, b: &str) -> (same: bool)
    ensures
        same == (a@ == b@),
{
    proof {
        vstd::utf8::encode_utf8_decode_utf8(a@);
        vstd::utf8::encode_utf8_decode_utf8(b@);
    }
    bytes_eq(a.as_bytes(), b.as_bytes())
}

/// What a store holds: the value of every key that is present.
pub type Contents = Map<Seq<u8>, Seq<u8>>;

/// The outcome of one write. A write that is taken puts the value under
/// the key and leaves every other key alone; one that is refused leaves
/// the store as it was and is reported. A reliable store refuses none.
pub open spec fn written(
    before: Contents,
    after: Contents,
    reliable: bool,
    key: Seq<u8>,
    val: Seq<u8>,
    r: Result<(), StoreError>,
) -> bool {
    match r {
        Ok(_) => after == before.insert(key, val),
        Err(e) => e == StoreError::Io && after == before && !reliable,
    }
}

/// A store of byte values under byte keys.
///
/// The contracts below are what every store owes. A store of this crate
/// proves them; a store implemented elsewhere cannot state what it holds,
/// takes the defaults, and answers for the contracts itself.
pub trait Kv {
    /// What the store holds. The default leaves it unstated: some function
    /// of the store, of which nothing is known.
    open spec fn contents(&self) -> Contents {
        arbitrary::<spec_fn(&Self) -> Contents>()(self)
    }

    /// The store's own invariant; every operation keeps it. The default
    /// asks for nothing.
    open spec fn valid(&self) -> bool {
        true
    }

    /// Whether the store takes every write. The default promises nothing:
    /// a store that writes to a disk can fail.
    open spec fn reliable(&self) -> bool {
        false
    }

    /// The value of `key`, if it is present.
    fn get(&self, key: &[u8]) -> (val: Option<Vec<u8>>)
        requires
            self.valid(),
        ensures
            match val {
                Some(v) => self.contents().contains_key(key@) && self.contents()[key@] == v@,
                None => !self.contents().contains_key(key@),
            },
    ;

    /// Sets the value of `key`, replacing the one it had. The write
    /// happens whole or not at all: a store that cannot take the value
    /// says so and stays unchanged.
    fn put(&mut self, key: &[u8], val: &[u8]) -> (r: Result<(), StoreError>)
        requires
            old(self).valid(),
        ensures
            final(self).valid(),
            final(self).reliable() == old(self).reliable(),
            written(
                old(self).contents(),
                final(self).contents(),
                old(self).reliable(),
                key@,
                val@,
                r,
            ),
    ;

    /// Deletes `key`; tells whether a value existed.
    fn delete(&mut self, key: &[u8]) -> (existed: bool)
        requires
            old(self).valid(),
        ensures
            final(self).valid(),
            final(self).reliable() == old(self).reliable(),
            existed == old(self).contents().contains_key(key@),
            final(self).contents() == old(self).contents().remove(key@),
    ;
}

/// Whether `entries` holds `key` at index `i`.
pub open spec fn holds_at(entries: Seq<(Vec<u8>, Vec<u8>)>, i: int, key: Seq<u8>) -> bool {
    0 <= i < entries.len() && entries[i].0@ == key
}

/// The contents of a list of entries with distinct keys.
pub open spec fn contents_of(entries: Seq<(Vec<u8>, Vec<u8>)>) -> Contents {
    Map::new(
        |key: Seq<u8>| exists|i: int| holds_at(entries, i, key),
        |key: Seq<u8>| entries[choose|i: int| holds_at(entries, i, key)].1@,
    )
}

/// Whether no key occurs twice in `entries`.
pub open spec fn distinct_keys(entries: Seq<(Vec<u8>, Vec<u8>)>) -> bool {
    forall|i: int, j: int| 0 <= i < j < entries.len() ==> entries[i].0@ != entries[j].0@
}

/// A store in memory; every write succeeds.
pub struct MemKv {
    entries: Vec<(Vec<u8>, Vec<u8>)>,
}

impl MemKv {
    /// An empty store.
    pub fn new() -> (kv: MemKv)
        ensures
            kv.valid(),
            kv.contents() == Map::<Seq<u8>, Seq<u8>>::empty(),
    {
        let kv = MemKv { entries: Vec::new() };
        proof {
            assert(contents_of(kv.entries@) =~= Map::<Seq<u8>, Seq<u8>>::empty());
        }
        kv
    }

    /// The index of `key` among the entries.
    fn position(&self, key: &[u8]) -> (at: Option<usize>)
        ensures
            match at {
                Some(i) => holds_at(self.entries@, i as int, key@),
                None => forall|i: int| !holds_at(self.entries@, i, key@),
            },
    {
        let mut i: usize = 0;
        while i < self.entries.len()
            invariant
                i <= self.entries.len(),
                forall|j: int| 0 <= j < i ==> self.entries@[j].0@ != key@,
            decreases self.entries.len() - i,
        {
            if bytes_eq(self.entries[i].0.as_slice(), key) {
                return Some(i);
            }
            i = i + 1;
        }
        None
    }

    /// Number of keys present.
    pub fn len(&self) -> (n: usize)
        requires
            self.valid(),
        ensures
            n == self.contents().dom().len(),
            self.contents().dom().finite(),
    {
        proof {
            lemma_contents_len(self.entries@);
        }
        self.entries.len()
    }
}

/// The entries' keys are as many as the entries.
proof fn lemma_contents_len(entries: Seq<(Vec<u8>, Vec<u8>)>)
    requires
        distinct_keys(entries),
    ensures
        contents_of(entries).dom().finite(),
        contents_of(entries).dom().len() == entries.len(),
    decreases entries.len(),
{
    if entries.len() == 0 {
        assert(contents_of(entries).dom() =~= Set::<Seq<u8>>::empty());
    } else {
        let rest = entries.drop_last();
        let last = entries.last();
        lemma_contents_len(rest);
        assert forall|key: Seq<u8>|
            contents_of(entries).dom().contains(key) <==> contents_of(rest).dom().insert(
                last.0@,
            ).contains(key) by {
            if contents_of(entries).dom().contains(key) {
                let i = choose|i: int| holds_at(entries, i, key);
                if i < rest.len() {
                    assert(holds_at(rest, i, key));
                }
            }
            if contents_of(rest).dom().contains(key) {
                let i = choose|i: int| holds_at(rest, i, key);
                assert(holds_at(entries, i, key));
            }
            if key == last.0@ {
                assert(holds_at(entries, entries.len() - 1, key));
            }
        }
        assert(contents_of(entries).dom() =~= contents_of(rest).dom().insert(last.0@));
        if contents_of(rest).dom().contains(last.0@) {
            let i = choose|i: int| holds_at(rest, i, last.0@);
            assert(entries[i].0@ == entries[entries.len() - 1].0@);
        }
    }
}

impl Kv for MemKv {
    closed spec fn contents(&self) -> Contents {
        contents_of(self.entries@)
    }

    closed spec fn valid(&self) -> bool {
        distinct_keys(self.entries@)
    }

    open spec fn reliable(&self) -> bool {
        true
    }

    fn get(&self, key: &[u8]) -> (val: Option<Vec<u8>>) {
        match self.position(key) {
            Some(i) => {
                proof {
                    let c = choose|j: int| holds_at(self.entries@, j, key@);
                    assert(holds_at(self.entries@, c, key@));
                    assert(c == i);
                }
                Some(slice_to_vec(self.entries[i].1.as_slice()))
            },
            None => None,
        }
    }

    fn put(&mut self, key: &[u8], val: &[u8]) -> (r: Result<(), StoreError>) {
        let ghost before = self.entries@;
        let entry = (slice_to_vec(key), slice_to_vec(val));
        match self.position(key) {
            Some(i) => {
                self.entries[i] = entry;
                proof {
                    let after = self.entries@;
                    assert(after == before.update(i as int, entry));
                    assert forall|k: Seq<u8>, j: int| holds_at(after, j, k) <==> holds_at(
                        before,
                        j,
                        k,
                    ) by {}
                    assert forall|a: int, b: int| 0 <= a < b < after.len() implies after[a].0@
                        != after[b].0@ by {
                        assert(after[a].0@ == before[a].0@);
                        assert(after[b].0@ == before[b].0@);
                    }
                    assert forall|k: Seq<u8>| #[trigger]
                        contents_of(after).contains_key(k) implies contents_of(after)[k]
                        == contents_of(before).insert(key@, val@)[k] by {
                        let c = choose|j: int| holds_at(after, j, k);
                        assert(holds_at(before, c, k));
                        let d = choose|j: int| holds_at(before, j, k);
                        assert(holds_at(before, d, k));
                        assert(c == d);
                    }
                    assert(contents_of(after) =~= contents_of(before).insert(key@, val@));
                }
            },
            None => {
                self.entries.push(entry);
                proof {
                    let after = self.entries@;
                    let n = before.len() as int;
                    assert(after == before.push(entry));
                    assert(holds_at(after, n, key@));
                    assert forall|a: int, b: int| 0 <= a < b < after.len() implies after[a].0@
                        != after[b].0@ by {
                        if b == n {
                            assert(!holds_at(before, a, key@));
                        }
                    }
                    assert forall|k: Seq<u8>| #[trigger]
                        contents_of(before).insert(key@, val@).contains_key(k)
                        implies contents_of(after).contains_key(k) && contents_of(after)[k]
                        == contents_of(before).insert(key@, val@)[k] by {
                        if k == key@ {
                            let c = choose|j: int| holds_at(after, j, k);
                            assert(holds_at(after, c, k));
                            if c < n {
                                assert(holds_at(before, c, k));
                            }
                        } else {
                            let d = choose|j: int| holds_at(before, j, k);
                            assert(holds_at(after, d, k));
                            let c = choose|j: int| holds_at(after, j, k);
                            assert(holds_at(after, c, k));
                            assert(c == d);
                        }
                    }
                    assert forall|k: Seq<u8>| #[trigger]
                        contents_of(after).contains_key(k) implies contents_of(before).insert(
                        key@,
                        val@,
                    ).contains_key(k) by {
                        let c = choose|j: int| holds_at(after, j, k);
                        if c < n {
                            assert(holds_at(before, c, k));
                        }
                    }
                    assert(contents_of(after) =~= contents_of(before).insert(key@, val@));
                }
            },
        }
        Ok(())
    }

    fn delete(&mut self, key: &[u8]) -> (existed: bool) {
        let ghost before = self.entries@;
        match self.position(key) {
            Some(i) => {
                self.entries.remove(i);
                proof {
                    let after = self.entries@;
                    assert(after == before.remove(i as int));
                    assert forall|k: Seq<u8>| #[trigger]
                        contents_of(before).remove(key@).contains_key(k)
                        implies contents_of(after).contains_key(k) && contents_of(after)[k]
                        == contents_of(before)[k] by {
                        let d = choose|j: int| holds_at(before, j, k);
                        assert(holds_at(before, d, k));
                        let e = if d < i { d } else { d - 1 };
                        assert(holds_at(after, e, k));
                        let c = choose|j: int| holds_at(after, j, k);
                        assert(holds_at(after, c, k));
                        assert(c == e);
                    }
                    assert forall|k: Seq<u8>| #[trigger]
                        contents_of(after).contains_key(k) implies contents_of(before).remove(
                        key@,
                    ).contains_key(k) by {
                        let c = choose|j: int| holds_at(after, j, k);
                        let d = if c < i { c } else { c + 1 };
                        assert(holds_at(before, d, k));
                    }
                    assert(contents_of(after) =~= contents_of(before).remove(key@));
                }
                true
            },
            None => {
                proof {
                    assert(contents_of(before) =~= contents_of(before).remove(key@));
                }
                false
            },
        }
    }
}

/// The name under which the disk-backed store keeps a key: two lower-case
/// hexadecimal digits for each byte, the high one first.
pub open spec fn hex_name(key: Seq<u8>) -> Seq<char> {
    Seq::new(
        2 * key.len(),
        |i: int|
            if i % 2 == 0 {
                hex_digit_of(key[i / 2] / 16)
            } else {
                hex_digit_of(key[i / 2] % 16)
            },
    )
}

/// Two different digits below sixteen never share a character.
pub proof fn hex_digit_injective(a: u8, b: u8)
    requires
        a <= 15,
        b <= 15,
        hex_digit_of(a) == hex_digit_of(b),
    ensures
        a == b,
{
    assert(hex_digit_of(a) as u32 == hex_digit_of(b) as u32);
}

/// The mapping from keys to file names is free of collisions: two keys
/// with the same name are the same key, whatever bytes they hold.
pub proof fn hex_name_injective(a: Seq<u8>, b: Seq<u8>)
    requires
        hex_name(a) == hex_name(b),
    ensures
        a == b,
{
    assert(hex_name(a).len() == 2 * a.len());
    assert(hex_name(b).len() == 2 * b.len());
    assert forall|i: int| 0 <= i < a.len() implies a[i] == b[i] by {
        let hi = 2 * i;
        let lo = 2 * i + 1;
        assert(hi % 2 == 0 && hi / 2 == i);
        assert(lo % 2 == 1 && lo / 2 == i);
        assert(hex_name(a)[hi] == hex_digit_of(a[i] / 16));
        assert(hex_name(b)[hi] == hex_digit_of(b[i] / 16));
        assert(hex_name(a)[lo] == hex_digit_of(a[i] % 16));
        assert(hex_name(b)[lo] == hex_digit_of(b[i] % 16));
        hex_digit_injective(a[i] / 16, b[i] / 16);
        hex_digit_injective(a[i] % 16, b[i] % 16);
    }
    assert(a =~= b);
}

/// `String::push` of std: appends one character to the end of the string.
#[verifier::external_body]
pub(crate) fn push_char(s: &mut String, c: char)
    ensures
        final(s)@ == old(s)@.push(c),
{
    s.push(c)
}

/// The file layout of the disk-backed store: every key is one file directly
/// under `root`, named by the key's bytes in hexadecimal.
#[derive(Clone, Debug)]
pub struct FsKv {
    root: String,
}

impl FsKv {
    /// A layout rooted at the directory `root`.
    pub fn new(root: String) -> (kv: FsKv)
        ensures
            kv.root_dir() == root@,
    {
        FsKv { root }
    }

    /// The directory that holds the files.
    pub closed spec fn root_dir(&self) -> Seq<char> {
        self.root@
    }

    /// The directory that holds the files.
    pub fn root(&self) -> (r: &str)
        ensures
            r@ == self.root_dir(),
    {
        self.root.as_str()
    }

    /// The file name of a key.
    pub fn file_name(key: &[u8]) -> (name: String)
        ensures
            name@ == hex_name(key@),
    {
        let mut name = String::new();
        let mut i: usize = 0;
        while i < key.len()
            invariant
                i <= key.len(),
                name@ == hex_name(key@.subrange(0, i as int)),
            decreases key.len() - i,
        {
            let b: u8 = key[i];
            let ghost before = name@;
            push_char(&mut name, hex_digit(b / 16));
            push_char(&mut name, hex_digit(b % 16));
            proof {
                let done = key@.subrange(0, i as int);
                let next = key@.subrange(0, i + 1);
                assert(next.len() == done.len() + 1);
                assert forall|j: int| 0 <= j < 2 * next.len() implies name@[j] == hex_name(
                    next,
                )[j] by {
                    if j < 2 * done.len() {
                        assert(name@[j] == before[j]);
                        assert(next[j / 2] == done[j / 2]);
                    } else {
                        assert(j / 2 == i);
                        assert(next[j / 2] == b);
                    }
                }
                assert(name@ =~= hex_name(next));
            }
            i = i + 1;
        }
        proof {
            assert(key@.subrange(0, i as int) =~= key@);
        }
        name
    }

    /// The path of the file that holds `key`: the root, a `/`, and the
    /// key's file name.
    pub fn path_for(&self, key: &[u8]) -> (path: String)
        ensures
            path@ == self.root_dir() + seq!['/'] + hex_name(key@),
    {
        let mut path = self.root.clone();
        push_char(&mut path, '/');
        let name = FsKv::file_name(key);
        path.append(name.as_str());
        proof {
            assert(path@ =~= self.root_dir() + seq!['/'] + hex_name(key@));
        }
        path
    }
}

} // verus!

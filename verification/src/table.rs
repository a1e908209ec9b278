use vstd::prelude::*;
use vstd::hash_map::StringHashMap;

verus! {

/// The texts of a list of strings.
pub open spec fn texts(v: Seq<String>) -> Seq<Seq<char>> {
    v.map_values(|s: String| s@)
}

/// Keys and texts of a list of entries.
pub open spec fn pairs(entries: Seq<(String, String)>) -> Seq<(Seq<char>, Seq<char>)> {
    entries.map_values(|e: (String, String)| (e.0@, e.1@))
}

/// The map that a list of entries stands for: each key with the text of
/// its last entry.
pub open spec fn string_map(entries: Seq<(Seq<char>, Seq<char>)>) -> Map<Seq<char>, Seq<char>>
    decreases entries.len(),
{
    if entries.len() == 0 {
        Map::empty()
    } else {
        string_map(entries.drop_last()).insert(entries.last().0, entries.last().1)
    }
}

/// The keys of a list of entries, each once, in the order in which they
/// first occur.
pub open spec fn key_order(entries: Seq<(Seq<char>, Seq<char>)>) -> Seq<Seq<char>>
    decreases entries.len(),
{
    if entries.len() == 0 {
        Seq::empty()
    } else {
        let before = key_order(entries.drop_last());
        if before.contains(entries.last().0) {
            before
        } else {
            before.push(entries.last().0)
        }
    }
}

/// Whether `a` comes before `b`, or is `b`, in the lexicographic order of bytes.
pub open spec fn bytes_le(a: Seq<u8>, b: Seq<u8>) -> bool
    decreases a.len(),
{
    if a.len() == 0 {
        true
    } else if b.len() == 0 {
        false
    } else if a[0] != b[0] {
        a[0] < b[0]
    } else {
        bytes_le(a.skip(1), b.skip(1))
    }
}

/// The order of strings: that of their UTF-8 bytes.
pub open spec fn text_le(a: Seq<char>, b: Seq<char>) -> bool {
    bytes_le(vstd::utf8::encode_utf8(a), vstd::utf8::encode_utf8(b))
}

/// Whether each text of `list` comes before the ones after it.
pub open spec fn ascending(list: Seq<Seq<char>>) -> bool {
    forall|i: int, j: int| 0 <= i < j < list.len() ==> text_le(list[i], list[j])
}

/// `slice::sort` on strings: the same strings, in ascending order. The
/// standard library orders strings lexicographically by their bytes.
#[verifier::external_body]
fn sort_strings(list: &mut Vec<String>)
    ensures
        texts(final(list)@).to_multiset() == texts(old(list)@).to_multiset(),
        ascending(texts(final(list)@)),
{
    list.sort()
}

/// A copy of a list of strings.
pub fn copy_strings(list: &Vec<String>) -> (copy: Vec<String>)
    ensures
        texts(copy@) == texts(list@),
{
    let mut copy: Vec<String> = Vec::new();
    let mut k: usize = 0;
    while k < list.len()
        invariant
            k <= list@.len(),
            copy@.len() == k,
            forall|j: int| 0 <= j < k ==> copy@[j]@ == list@[j]@,
        decreases list@.len() - k,
    {
        copy.push(list[k].clone());
        k += 1;
    }
    assert(texts(copy@) =~= texts(list@));
    copy
}

/// A decoded string table: a text for each key, and the keys in the order
/// in which the table first named them.
pub struct LanguageTable {
    keys: Vec<String>,
    texts: StringHashMap<String>,
}

impl View for LanguageTable {
    type V = Map<Seq<char>, Seq<char>>;

    closed spec fn view(&self) -> Map<Seq<char>, Seq<char>> {
        self.texts@.map_values(|s: String| s@)
    }
}

impl LanguageTable {
    #[verifier::type_invariant]
    spec fn keys_are_the_domain(&self) -> bool {
        &&& texts(self.keys@).no_duplicates()
        &&& forall|k: Seq<char>| self.texts@.contains_key(k) <==> texts(self.keys@).contains(k)
    }

    /// The keys, each once, in the order of their first entry.
    pub closed spec fn key_list(&self) -> Seq<Seq<char>> {
        texts(self.keys@)
    }

    /// A table without entries.
    pub fn new() -> (table: Self)
        ensures
            table@ == Map::<Seq<char>, Seq<char>>::empty(),
            table.key_list() == Seq::<Seq<char>>::empty(),
    {
        let table = LanguageTable { keys: Vec::new(), texts: StringHashMap::new() };
        assert(table@ =~= Map::<Seq<char>, Seq<char>>::empty());
        assert(table.key_list() =~= Seq::<Seq<char>>::empty());
        table
    }

    /// The table with `text` under `key`, in place of an earlier text under
    /// that key if there was one.
    pub fn with_entry(self, key: String, text: String) -> (table: Self)
        ensures
            table@ == self@.insert(key@, text@),
            table.key_list() == (if self@.contains_key(key@) {
                self.key_list()
            } else {
                self.key_list().push(key@)
            }),
    {
        proof {
            use_type_invariant(&self);
        }
        let ghost old_keys = texts(self.keys@);
        let ghost old_map = self@;
        let LanguageTable { keys, texts: map } = self;
        let mut keys = keys;
        let mut map = map;
        if !map.contains_key(key.as_str()) {
            keys.push(key.clone());
            assert(texts(keys@) =~= old_keys.push(key@));
            assert forall|i: int, j: int|
                0 <= i < texts(keys@).len() && 0 <= j < texts(keys@).len() && i != j implies texts(
                keys@,
            )[i] != texts(keys@)[j] by {
                if i < old_keys.len() {
                    assert(old_keys.contains(old_keys[i]));
                }
                if j < old_keys.len() {
                    assert(old_keys.contains(old_keys[j]));
                }
            }
        }
        let ghost key_text = key@;
        map.insert(key, text);
        assert forall|k: Seq<char>| map@.contains_key(k) <==> texts(keys@).contains(k) by {
            if k == key_text {
                if old_keys.contains(k) {
                    let i = choose|i: int| 0 <= i < old_keys.len() && old_keys[i] == k;
                    assert(texts(keys@)[i] == k);
                } else {
                    assert(texts(keys@)[old_keys.len() as int] == k);
                }
            } else {
                if old_keys.contains(k) {
                    let i = choose|i: int| 0 <= i < old_keys.len() && old_keys[i] == k;
                    assert(texts(keys@)[i] == k);
                }
                if texts(keys@).contains(k) {
                    let i = choose|i: int| 0 <= i < texts(keys@).len() && texts(keys@)[i] == k;
                    assert(old_keys[i] == k);
                }
            }
        }
        let table = LanguageTable { keys, texts: map };
        assert(table@ =~= old_map.insert(key_text, text@));
        table
    }

    /// The text under `key`.
    pub fn get(&self, key: &str) -> (text: Option<&String>)
        ensures
            match text {
                Some(t) => self@.contains_key(key@) && t@ == self@[key@],
                None => !self@.contains_key(key@),
            },
    {
        self.texts.get(key)
    }

    /// The keys, each once, in the order in which the table first named them.
    pub fn keys(&self) -> (keys: &Vec<String>)
        ensures
            texts(keys@) == self.key_list(),
            texts(keys@).no_duplicates(),
            forall|k: Seq<char>| self@.contains_key(k) <==> texts(keys@).contains(k),
    {
        proof {
            use_type_invariant(self);
        }
        &self.keys
    }

    /// The keys in ascending order, for output that does not depend on the
    /// order of the table.
    pub fn sorted_keys(&self) -> (keys: Vec<String>)
        ensures
            texts(keys@).to_multiset() == self.key_list().to_multiset(),
            ascending(texts(keys@)),
    {
        let mut keys = copy_strings(&self.keys);
        sort_strings(&mut keys);
        keys
    }

    /// The number of keys.
    pub fn len(&self) -> (n: usize)
        ensures
            n == self.key_list().len(),
            n == self@.len(),
    {
        proof {
            use_type_invariant(self);
            texts(self.keys@).unique_seq_to_set();
            assert(texts(self.keys@).to_set() =~= self@.dom());
        }
        self.keys.len()
    }

    /// Whether the table has no entries.
    pub fn is_empty(&self) -> (empty: bool)
        ensures
            empty == (self.key_list().len() == 0),
    {
        self.keys.len() == 0
    }

    /// Builds the table that a list of entries stands for.
    pub fn from_entries(entries: &Vec<(String, String)>) -> (table: Self)
        ensures
            table@ == string_map(pairs(entries@)),
            table.key_list() == key_order(pairs(entries@)),
    {
        let mut table = LanguageTable::new();
        let mut k: usize = 0;
        while k < entries.len()
            invariant
                k <= entries@.len(),
                table@ == string_map(pairs(entries@).take(k as int)),
                table.key_list() == key_order(pairs(entries@).take(k as int)),
            decreases entries@.len() - k,
        {
            let ghost so_far = pairs(entries@).take(k as int);
            let ghost next = pairs(entries@).take(k + 1);
            assert(next.drop_last() =~= so_far);
            assert(next.last() == (entries@[k as int].0@, entries@[k as int].1@));
            proof {
                lemma_keys_are_the_domain(so_far);
            }
            let key = entries[k].0.clone();
            let text = entries[k].1.clone();
            table = table.with_entry(key, text);
            k += 1;
        }
        assert(pairs(entries@).take(k as int) =~= pairs(entries@));
        table
    }
}

/// The key list of a list of entries names exactly the keys of its map,
/// and each of them once.
pub proof fn lemma_keys_are_the_domain(entries: Seq<(Seq<char>, Seq<char>)>)
    ensures
        key_order(entries).no_duplicates(),
        forall|k: Seq<char>| string_map(entries).contains_key(k) <==> key_order(entries).contains(k),
    decreases entries.len(),
{
    if entries.len() > 0 {
        let before = key_order(entries.drop_last());
        lemma_keys_are_the_domain(entries.drop_last());
        let key = entries.last().0;
        assert forall|k: Seq<char>| string_map(entries).contains_key(k) <==> key_order(
            entries,
        ).contains(k) by {
            if before.contains(key) {
            } else {
                let after = before.push(key);
                assert(after[before.len() as int] == key);
                if before.contains(k) {
                    let i = choose|i: int| 0 <= i < before.len() && before[i] == k;
                    assert(after[i] == k);
                }
                if after.contains(k) && k != key {
                    let i = choose|i: int| 0 <= i < after.len() && after[i] == k;
                    assert(before[i] == k);
                }
            }
        }
    }
}

/// In the map of a list of entries a key stands for the text of its last
/// entry: an entry appended later replaces what the key stood for.
pub proof fn lemma_last_entry_wins(
    entries: Seq<(Seq<char>, Seq<char>)>,
    key: Seq<char>,
    text: Seq<char>,
)
    ensures
        string_map(entries.push((key, text)))[key] == text,
        string_map(entries.push((key, text))).contains_key(key),
        forall|k: Seq<char>|
            k != key ==> (string_map(entries.push((key, text))).contains_key(k) <==> string_map(
                entries,
            ).contains_key(k)),
        forall|k: Seq<char>|
            k != key && string_map(entries).contains_key(k) ==> string_map(
                entries.push((key, text)),
            )[k] == string_map(entries)[k],
{
    let all = entries.push((key, text));
    assert(all.drop_last() =~= entries);
    assert(all.last() == (key, text));
}

} // verus!

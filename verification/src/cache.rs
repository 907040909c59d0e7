//! The cache of decoded images, keyed by the address they were fetched from.

use vstd::prelude::*;
use crate::bitmap::{Bitmap, DecodedImage};
use crate::text::same_text;

verus! {

/// What a cache holds after `image` is offered under `key`: the first image
/// stored under a key stays.
pub open spec fn inserted_if_absent(
    cache: Map<Seq<char>, Bitmap>,
    key: Seq<char>,
    image: Bitmap,
) -> Map<Seq<char>, Bitmap> {
    if cache.contains_key(key) {
        cache
    } else {
        cache.insert(key, image)
    }
}

/// The image that a cache holds under `key`, if any.
pub open spec fn lookup(cache: Map<Seq<char>, Bitmap>, key: Seq<char>) -> Option<Bitmap> {
    if cache.contains_key(key) {
        Some(cache[key])
    } else {
        None
    }
}

/// A cache after it was cleared.
pub open spec fn cleared() -> Map<Seq<char>, Bitmap> {
    Map::empty()
}

/// Offering a second image under a key leaves the cache as the first offer
/// left it: the image stored first is the one that is found.
pub proof fn lemma_first_insert_wins(
    cache: Map<Seq<char>, Bitmap>,
    key: Seq<char>,
    first: Bitmap,
    second: Bitmap,
)
    ensures
        inserted_if_absent(inserted_if_absent(cache, key, first), key, second) == inserted_if_absent(
            cache,
            key,
            first,
        ),
        !cache.contains_key(key) ==> lookup(
            inserted_if_absent(inserted_if_absent(cache, key, first), key, second),
            key,
        ) == Some(first),
        cache.contains_key(key) ==> lookup(
            inserted_if_absent(inserted_if_absent(cache, key, first), key, second),
            key,
        ) == Some(cache[key]),
{
}

/// Nothing is found in a cleared cache, whatever it held before.
pub proof fn lemma_cleared_holds_nothing(key: Seq<char>)
    ensures
        lookup(cleared(), key) is None,
{
}

/// Offering an image under one key leaves what is found under another.
pub proof fn lemma_insert_keeps_others(
    cache: Map<Seq<char>, Bitmap>,
    key: Seq<char>,
    image: Bitmap,
    other: Seq<char>,
)
    requires
        other != key,
    ensures
        lookup(inserted_if_absent(cache, key, image), other) == lookup(cache, other),
{
}

/// Decoded images by key. A key is stored at most once, and an image that
/// was stored is never replaced.
pub struct ResourceCache {
    entries: Vec<(String, DecodedImage)>,
}

/// The keys of stored entries, in the order they were stored.
spec fn keys_of(entries: Seq<(String, DecodedImage)>) -> Seq<Seq<char>> {
    Seq::new(entries.len(), |i: int| entries[i].0@)
}

impl View for ResourceCache {
    type V = Map<Seq<char>, Bitmap>;

    closed spec fn view(&self) -> Map<Seq<char>, Bitmap> {
        map_of(self.entries@)
    }
}

/// The images of stored entries, each under its key.
spec fn map_of(entries: Seq<(String, DecodedImage)>) -> Map<Seq<char>, Bitmap> {
    Map::new(
        |key: Seq<char>| keys_of(entries).contains(key),
        |key: Seq<char>| entries[keys_of(entries).index_of(key)].1@,
    )
}

/// The entry at position `i` is found under its key.
proof fn lemma_entry(entries: Seq<(String, DecodedImage)>, i: int)
    requires
        keys_of(entries).no_duplicates(),
        0 <= i < entries.len(),
    ensures
        keys_of(entries).contains(entries[i].0@),
        keys_of(entries).index_of(entries[i].0@) == i,
        map_of(entries).contains_key(entries[i].0@),
        map_of(entries)[entries[i].0@] == entries[i].1@,
{
    let keys = keys_of(entries);
    assert(keys[i] == entries[i].0@);
    let found = keys.index_of(entries[i].0@);
    assert(0 <= found < keys.len() && keys[found] == entries[i].0@);
}

/// An entry with a new key, stored last, adds its image to the map and
/// changes nothing else.
proof fn lemma_push(entries: Seq<(String, DecodedImage)>, added: (String, DecodedImage))
    requires
        keys_of(entries).no_duplicates(),
        !keys_of(entries).contains(added.0@),
    ensures
        keys_of(entries.push(added)) == keys_of(entries).push(added.0@),
        keys_of(entries.push(added)).no_duplicates(),
        map_of(entries.push(added)) == map_of(entries).insert(added.0@, added.1@),
{
    let after = entries.push(added);
    assert(keys_of(after) =~= keys_of(entries).push(added.0@));
    assert forall|i: int, j: int|
        0 <= i < keys_of(after).len() && 0 <= j < keys_of(after).len() && i != j implies keys_of(
        after,
    )[i] != keys_of(after)[j] by {
        if i < entries.len() {
            assert(keys_of(entries)[i] == keys_of(after)[i]);
        }
        if j < entries.len() {
            assert(keys_of(entries)[j] == keys_of(after)[j]);
        }
    }
    let wanted = map_of(entries).insert(added.0@, added.1@);
    assert forall|k: Seq<char>| map_of(after).contains_key(k) <==> wanted.contains_key(k) by {
        if keys_of(after).contains(k) {
            let at = keys_of(after).index_of(k);
            assert(0 <= at < after.len() && keys_of(after)[at] == k);
            if at < entries.len() {
                assert(keys_of(entries)[at] == k);
            }
        }
        if keys_of(entries).contains(k) {
            let at = keys_of(entries).index_of(k);
            assert(0 <= at < entries.len() && keys_of(entries)[at] == k);
            assert(keys_of(after)[at] == k);
        }
        if k == added.0@ {
            assert(keys_of(after)[entries.len() as int] == k);
        }
    }
    assert forall|k: Seq<char>| map_of(after).contains_key(k) implies map_of(after)[k] == wanted[k] by {
        let at = keys_of(after).index_of(k);
        assert(0 <= at < after.len() && keys_of(after)[at] == k);
        if at < entries.len() {
            assert(keys_of(entries)[at] == k);
            lemma_entry(entries, at);
        }
    }
    assert(map_of(after) =~= wanted);
}

impl ResourceCache {
    /// The keys in the order in which they were stored.
    pub closed spec fn keys(&self) -> Seq<Seq<char>> {
        keys_of(self.entries@)
    }

    #[verifier::type_invariant]
    spec fn well_formed(&self) -> bool {
        keys_of(self.entries@).no_duplicates()
    }

    /// An empty cache.
    pub fn new() -> (cache: ResourceCache)
        ensures
            cache@ == cleared(),
            cache.keys() == Seq::<Seq<char>>::empty(),
    {
        ResourceCache { entries: Vec::new() }
    }

    /// The number of images held.
    pub fn len(&self) -> (count: usize)
        ensures
            count == self.keys().len(),
            count == self@.len(),
            self@.dom().finite(),
            self@.dom() == self.keys().to_set(),
            self.keys().no_duplicates(),
    {
        proof {
            use_type_invariant(self);
            self.keys().unique_seq_to_set();
        }
        self.entries.len()
    }

    /// Whether no image is held.
    pub fn is_empty(&self) -> (empty: bool)
        ensures
            empty == (self@ == cleared()),
            empty == (self.keys().len() == 0),
    {
        proof {
            if self.entries@.len() == 0 {
                assert(self@ =~= cleared());
            } else {
                assert(keys_of(self.entries@)[0] == self.entries@[0].0@);
                assert(self@.contains_key(self.entries@[0].0@));
            }
        }
        self.entries.len() == 0
    }

    /// The position of `key` among the stored entries.
    fn position(&self, key: &str) -> (found: Option<usize>)
        ensures
            match found {
                Some(i) => i < self.entries@.len() && self.entries@[i as int].0@ == key@,
                None => !keys_of(self.entries@).contains(key@),
            },
    {
        let mut i: usize = 0;
        while i < self.entries.len()
            invariant
                i <= self.entries@.len(),
                forall|j: int| 0 <= j < i ==> self.entries@[j].0@ != key@,
            decreases self.entries@.len() - i,
        {
            if same_text(self.entries[i].0.as_str(), key) {
                return Some(i);
            }
            i += 1;
        }
        None
    }

    /// Whether an image is held under `key`.
    pub fn contains(&self, key: &str) -> (held: bool)
        ensures
            held == self@.contains_key(key@),
    {
        match self.position(key) {
            Some(i) => {
                proof {
                    use_type_invariant(self);
                    lemma_entry(self.entries@, i as int);
                }
                true
            },
            None => false,
        }
    }

    /// The image held under `key`, if there is one.
    pub fn get(&self, key: &str) -> (found: Option<&DecodedImage>)
        ensures
            match found {
                Some(image) => lookup(self@, key@) == Some(image@) && image@.is_rgba(),
                None => lookup(self@, key@) is None,
            },
    {
        match self.position(key) {
            Some(i) => {
                let image = &self.entries[i].1;
                proof {
                    use_type_invariant(self);
                    lemma_entry(self.entries@, i as int);
                    use_type_invariant(image);
                }
                Some(image)
            },
            None => None,
        }
    }

    /// The key and the image stored at position `index`, counting from the
    /// entry that was stored first.
    pub fn entry_at(&self, index: usize) -> (found: Option<(&str, &DecodedImage)>)
        ensures
            match found {
                Some((key, image)) => index < self.keys().len() && key@ == self.keys()[index as int]
                    && lookup(self@, key@) == Some(image@) && image@.is_rgba(),
                None => index >= self.keys().len(),
            },
    {
        if index < self.entries.len() {
            let image = &self.entries[index].1;
            proof {
                use_type_invariant(self);
                lemma_entry(self.entries@, index as int);
                use_type_invariant(image);
            }
            Some((self.entries[index].0.as_str(), image))
        } else {
            None
        }
    }

    /// Stores `image` under `key` unless an image is held there already, and
    /// says whether it was stored.
    pub fn insert_if_absent(&mut self, key: String, image: DecodedImage) -> (stored: bool)
        ensures
            final(self)@ == inserted_if_absent(old(self)@, key@, image@),
            stored == !old(self)@.contains_key(key@),
            final(self).keys() == if stored {
                old(self).keys().push(key@)
            } else {
                old(self).keys()
            },
    {
        proof {
            use_type_invariant(&*self);
        }
        if self.contains(key.as_str()) {
            return false;
        }
        proof {
            lemma_push(self.entries@, (key, image));
        }
        // The entries leave the cache while the vector grows: the cache holds
        // no duplicate key at any step.
        let mut entries: Vec<(String, DecodedImage)> = Vec::new();
        std::mem::swap(&mut self.entries, &mut entries);
        entries.push((key, image));
        self.entries = entries;
        true
    }

    /// Drops every image.
    pub fn clear(&mut self)
        ensures
            final(self)@ == cleared(),
            final(self).keys() == Seq::<Seq<char>>::empty(),
    {
        self.entries = Vec::new();
    }
}

} // verus!

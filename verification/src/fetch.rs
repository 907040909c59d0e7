//! What becomes of a fetch once the network has answered.
//!
//! Requests are issued elsewhere. When one completes, its outcome is handed
//! to [`complete_fetch`], which decodes the body, offers the image to the
//! cache and says whether the screen is to be drawn again.

use vstd::prelude::*;
use crate::bitmap::{Bitmap, DecodeError, DecodedImage};
use crate::cache::{inserted_if_absent, ResourceCache};
use crate::decode::{decode, decode_outcome, decoded_view, is_image_type};

verus! {

/// The answer to a request that reached the server.
#[derive(Debug, PartialEq, Eq)]
pub struct Response {
    pub body: Vec<u8>,
    /// The content type header, where the answer has one.
    pub content_type: Option<String>,
}

/// A request that did not get an answer.
#[derive(Debug, PartialEq, Eq)]
pub struct TransportError {
    pub message: String,
}

/// How a fetch ended.
#[derive(Clone, Copy, Debug, PartialEq, Eq, Structural)]
pub enum Completion {
    /// The image was decoded and is now in the cache.
    Stored,
    /// The image was decoded, but the cache held one under the key already.
    AlreadyCached,
    /// The body was no image; the cache is as it was.
    Rejected(DecodeError),
    /// The request failed; the cache is as it was.
    Failed,
}

/// The characters of a content type header, where there is one.
pub open spec fn header_text(content_type: Option<String>) -> Option<Seq<char>> {
    match content_type {
        Some(text) => Some(text@),
        None => None,
    }
}

/// The image that a response holds, or why it holds none, where `decoder`
/// is what the image decoder makes of the body.
pub open spec fn response_image(response: Response, decoder: Option<(u32, u32, Seq<u8>)>) -> Result<
    Bitmap,
    DecodeError,
> {
    decode_outcome(response.body@, header_text(response.content_type), decoder)
}

/// The cache after a fetch for `key` whose body decoded as `decoded`.
pub open spec fn cache_after(
    cache: Map<Seq<char>, Bitmap>,
    key: Seq<char>,
    decoded: Result<Bitmap, DecodeError>,
) -> Map<Seq<char>, Bitmap> {
    match decoded {
        Ok(image) => inserted_if_absent(cache, key, image),
        Err(_) => cache,
    }
}

/// How a fetch for `key` ends whose body decoded as `decoded`.
pub open spec fn completion_of(
    cache: Map<Seq<char>, Bitmap>,
    key: Seq<char>,
    decoded: Result<Bitmap, DecodeError>,
) -> Completion {
    match decoded {
        Ok(_) => if cache.contains_key(key) {
            Completion::AlreadyCached
        } else {
            Completion::Stored
        },
        Err(error) => Completion::Rejected(error),
    }
}

impl Completion {
    /// Whether the screen is to be drawn again: after every fetch that got
    /// an answer, whether or not an image was stored.
    pub fn wants_redraw(&self) -> (redraw: bool)
        ensures
            redraw == !(*self is Failed),
    {
        match self {
            Completion::Failed => false,
            _ => true,
        }
    }
}

/// Offers the result of decoding a fetched body to the cache.
pub fn settle(cache: &mut ResourceCache, key: &str, decoded: Result<DecodedImage, DecodeError>) -> (done:
    Completion)
    ensures
        final(cache)@ == cache_after(old(cache)@, key@, decoded_view(decoded)),
        done == completion_of(old(cache)@, key@, decoded_view(decoded)),
{
    match decoded {
        Ok(image) => {
            if cache.insert_if_absent(key.to_owned(), image) {
                Completion::Stored
            } else {
                Completion::AlreadyCached
            }
        },
        Err(error) => Completion::Rejected(error),
    }
}

/// What a fetch for `key` does to `before` and how it ends, where the
/// response came and `decoder` is what the image decoder makes of its body.
pub open spec fn answered(
    before: Map<Seq<char>, Bitmap>,
    key: Seq<char>,
    response: Response,
    decoder: Option<(u32, u32, Seq<u8>)>,
    after: Map<Seq<char>, Bitmap>,
    done: Completion,
) -> bool {
    &&& after == cache_after(before, key, response_image(response, decoder))
    &&& done == completion_of(before, key, response_image(response, decoder))
}

/// Takes the outcome of the fetch for `key`.
///
/// A body that decodes as an image is stored under `key` unless the cache
/// holds an image there already. Any other outcome leaves the cache as it
/// was. Whether a body decodes is the image decoder's answer; a body whose
/// content type names something other than an image is rejected without
/// asking it. The cache is written before the caller learns that a redraw
/// is wanted.
pub fn complete_fetch(cache: &mut ResourceCache, key: &str, outcome: &Result<Response, TransportError>) -> (done:
    Completion)
    ensures
        match *outcome {
            Ok(response) => exists|decoder: Option<(u32, u32, Seq<u8>)>| #[trigger]
                answered(old(cache)@, key@, response, decoder, final(cache)@, done),
            Err(_) => final(cache)@ == old(cache)@ && done == Completion::Failed,
        },
        done == Completion::Rejected(DecodeError::NotAnImage) <==> (*outcome matches Ok(response)
            && response.content_type matches Some(content_type) && !is_image_type(content_type@)),
{
    match outcome {
        Ok(response) => {
            let decoded = match &response.content_type {
                Some(content_type) => decode(response.body.as_slice(), Some(content_type.as_str())),
                None => decode(response.body.as_slice(), None),
            };
            let ghost hint = header_text(response.content_type);
            let ghost decoder = choose|decoder: Option<(u32, u32, Seq<u8>)>| #[trigger]
                decode_outcome(response.body@, hint, decoder) == decoded_view(decoded);
            let done = settle(cache, key, decoded);
            assert(answered(old(cache)@, key@, *response, decoder, cache@, done));
            done
        },
        Err(_) => Completion::Failed,
    }
}

/// The cache after the fetches of `fetched` have completed one after the
/// other, each given by its key and by what its body decoded as.
pub open spec fn cache_after_all(
    cache: Map<Seq<char>, Bitmap>,
    fetched: Seq<(Seq<char>, Result<Bitmap, DecodeError>)>,
) -> Map<Seq<char>, Bitmap>
    decreases fetched.len(),
{
    if fetched.len() == 0 {
        cache
    } else {
        cache_after(cache_after_all(cache, fetched.drop_last()), fetched.last().0, fetched.last().1)
    }
}

/// No key is fetched twice.
pub open spec fn distinct_keys(fetched: Seq<(Seq<char>, Result<Bitmap, DecodeError>)>) -> bool {
    forall|i: int, j: int| 0 <= i < j < fetched.len() ==> fetched[i].0 != fetched[j].0
}

/// After fetches for distinct keys have completed, the cache holds what it
/// held before and, for each new key, the image of exactly those fetches
/// whose body decoded.
pub proof fn lemma_fetches_fill_cache(
    cache: Map<Seq<char>, Bitmap>,
    fetched: Seq<(Seq<char>, Result<Bitmap, DecodeError>)>,
)
    requires
        distinct_keys(fetched),
    ensures
        forall|key: Seq<char>| #[trigger]
            cache_after_all(cache, fetched).contains_key(key) <==> (cache.contains_key(key) || exists|i: int|
                0 <= i < fetched.len() && #[trigger] fetched[i].0 == key && fetched[i].1 is Ok),
        forall|key: Seq<char>|
            cache.contains_key(key) ==> #[trigger] cache_after_all(cache, fetched)[key] == cache[key],
        forall|i: int|
            0 <= i < fetched.len() && fetched[i].1 is Ok && !cache.contains_key(#[trigger] fetched[i].0)
                ==> cache_after_all(cache, fetched)[fetched[i].0] == fetched[i].1->Ok_0,
    decreases fetched.len(),
{
    if fetched.len() > 0 {
        let earlier = fetched.drop_last();
        let last = fetched.last();
        let before = cache_after_all(cache, earlier);
        let after = cache_after_all(cache, fetched);
        assert(distinct_keys(earlier)) by {
            assert forall|i: int, j: int| 0 <= i < j < earlier.len() implies earlier[i].0 != earlier[j].0 by {
                assert(earlier[i] == fetched[i] && earlier[j] == fetched[j]);
            }
        }
        lemma_fetches_fill_cache(cache, earlier);
        assert forall|key: Seq<char>| #[trigger]
            after.contains_key(key) <==> (cache.contains_key(key) || exists|i: int|
                0 <= i < fetched.len() && #[trigger] fetched[i].0 == key && fetched[i].1 is Ok) by {
            if before.contains_key(key) && !cache.contains_key(key) {
                let i = choose|i: int| 0 <= i < earlier.len() && #[trigger] earlier[i].0 == key && earlier[i].1 is Ok;
                assert(fetched[i] == earlier[i]);
            }
            if exists|i: int| 0 <= i < fetched.len() && #[trigger] fetched[i].0 == key && fetched[i].1 is Ok {
                let i = choose|i: int| 0 <= i < fetched.len() && #[trigger] fetched[i].0 == key && fetched[i].1 is Ok;
                if i < earlier.len() {
                    assert(earlier[i] == fetched[i]);
                }
            }
        }
        assert forall|i: int|
            0 <= i < fetched.len() && fetched[i].1 is Ok && !cache.contains_key(#[trigger] fetched[i].0) implies after[fetched[i].0]
            == fetched[i].1->Ok_0 by {
            if i < earlier.len() {
                assert(earlier[i] == fetched[i]);
                assert(before.contains_key(earlier[i].0));
            } else {
                if before.contains_key(last.0) {
                    let j = choose|j: int| 0 <= j < earlier.len() && #[trigger] earlier[j].0 == last.0 && earlier[j].1 is Ok;
                    assert(fetched[j] == earlier[j]);
                }
            }
        }
    }
}

/// The order in which fetches for distinct keys complete does not matter:
/// the same fetches, completed in another order, leave the same cache.
pub proof fn lemma_order_is_immaterial(
    cache: Map<Seq<char>, Bitmap>,
    first: Seq<(Seq<char>, Result<Bitmap, DecodeError>)>,
    second: Seq<(Seq<char>, Result<Bitmap, DecodeError>)>,
)
    requires
        distinct_keys(first),
        distinct_keys(second),
        forall|i: int| 0 <= i < first.len() ==> second.contains(#[trigger] first[i]),
        forall|j: int| 0 <= j < second.len() ==> first.contains(#[trigger] second[j]),
    ensures
        cache_after_all(cache, first) == cache_after_all(cache, second),
{
    let one = cache_after_all(cache, first);
    let other = cache_after_all(cache, second);
    lemma_fetches_fill_cache(cache, first);
    lemma_fetches_fill_cache(cache, second);
    assert forall|key: Seq<char>| one.contains_key(key) implies other.contains_key(key) && one[key] == other[key] by {
        if !cache.contains_key(key) {
            let i = choose|i: int| 0 <= i < first.len() && #[trigger] first[i].0 == key && first[i].1 is Ok;
            assert(second.contains(first[i]));
            let j = choose|j: int| 0 <= j < second.len() && second[j] == first[i];
            assert(second[j].0 == key && second[j].1 is Ok);
        }
    }
    assert forall|key: Seq<char>| other.contains_key(key) implies one.contains_key(key) by {
        if !cache.contains_key(key) {
            let j = choose|j: int| 0 <= j < second.len() && #[trigger] second[j].0 == key && second[j].1 is Ok;
            assert(first.contains(second[j]));
            let i = choose|i: int| 0 <= i < first.len() && first[i] == second[j];
            assert(first[i].0 == key && first[i].1 is Ok);
        }
    }
    assert(one =~= other);
}

} // verus!

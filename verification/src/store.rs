//! Feature stores: where features are kept, and what to make of what is found.
//!
//! A fetch has two good outcomes. On a [`FetchResult::Hit`] the destination has
//! been overwritten in full. On a [`FetchResult::Miss`] there is no entry for
//! the entity and the destination is as it was; the impute stage takes care of
//! that.

use vstd::prelude::*;

use crate::error::StoreError;
use crate::numeric::F32;
use crate::types::Tensor;

verus! {

/// Prefix of feature keys where the config gives none.
pub const DEFAULT_KEY_PREFIX: &'static str = "features";

/// Outcome of a feature fetch.
#[non_exhaustive]
#[derive(Clone, Copy, Debug, PartialEq, Eq, Structural)]
pub enum FetchResult {
    /// Features were found and written into the destination in full.
    Hit,
    /// No entry exists for the entity; the destination is as it was.
    Miss,
}

/// Where the features of entities are kept.
#[derive(Debug)]
pub struct RedisStore {
    /// Prefix of every key.
    pub key_prefix: String,
}

impl RedisStore {
    /// A store whose keys have the given prefix.
    pub fn new(key_prefix: &str) -> (store: Self)
        ensures
            store.key_prefix@ == key_prefix@,
    {
        RedisStore { key_prefix: key_prefix.to_owned() }
    }

    /// The key of an entity's features.
    pub open spec fn key_text(self, entity_id: Seq<char>) -> Seq<char> {
        self.key_prefix@ + ":"@ + entity_id
    }

    /// The channel on which updates of an entity's features are announced.
    pub open spec fn channel_text(self, entity_id: Seq<char>) -> Seq<char> {
        self.key_prefix@ + ":updates:"@ + entity_id
    }

    /// The key of an entity's features.
    pub fn key(&self, entity_id: &str) -> (key: String)
        ensures
            key@ == self.key_text(entity_id@),
    {
        let mut key = self.key_prefix.clone();
        key.append(":");
        key.append(entity_id);
        assert(key@ =~= self.key_text(entity_id@));
        key
    }

    /// The channel on which updates of an entity's features are announced.
    pub fn channel(&self, entity_id: &str) -> (channel: String)
        ensures
            channel@ == self.channel_text(entity_id@),
    {
        let mut channel = self.key_prefix.clone();
        channel.append(":updates:");
        channel.append(entity_id);
        assert(channel@ =~= self.channel_text(entity_id@));
        channel
    }

    /// Takes what was found under an entity's key: nothing, or a decoded
    /// vector, or the reason why it could not be decoded.
    ///
    /// A vector of the right length is copied into `dest`. In every other case
    /// `dest` is left as it was.
    pub fn fetch_features(
        &self,
        entity_id: &str,
        found: Option<Result<Vec<F32>, String>>,
        dest: &mut Tensor,
    ) -> (fetched: Result<FetchResult, StoreError>)
        ensures
            final(dest).axes() == old(dest).axes(),
            fetch_outcome(entity_id@, found, old(dest).elements(), fetched),
            fetched == Ok::<FetchResult, StoreError>(FetchResult::Hit) ==> final(dest).elements()
                == found->Some_0->Ok_0@,
            fetched != Ok::<FetchResult, StoreError>(FetchResult::Hit) ==> final(dest).elements()
                == old(dest).elements(),
    {
        let decoded = match found {
            Some(decoded) => decoded,
            None => {
                return Ok(FetchResult::Miss);
            },
        };
        let values = match decoded {
            Ok(values) => values,
            Err(reason) => {
                return Err(StoreError::Deserialize { entity_id: entity_id.to_owned(), reason });
            },
        };
        if values.len() != dest.len() {
            let mut expected: Vec<usize> = Vec::new();
            expected.push(dest.len());
            let mut got: Vec<usize> = Vec::new();
            got.push(values.len());
            return Err(
                StoreError::ShapeMismatch { entity_id: entity_id.to_owned(), expected, got },
            );
        }
        dest.copy_from(&values);
        Ok(FetchResult::Hit)
    }
}

/// True if `fetched` is the outcome for what was found: a miss for nothing, a
/// hit for a vector as long as the destination, and an error that says what is
/// wrong otherwise.
pub open spec fn fetch_outcome(
    entity_id: Seq<char>,
    found: Option<Result<Vec<F32>, String>>,
    dest: Seq<F32>,
    fetched: Result<FetchResult, StoreError>,
) -> bool {
    match found {
        None => fetched == Ok::<FetchResult, StoreError>(FetchResult::Miss),
        Some(Err(cause)) => match fetched {
            Err(StoreError::Deserialize { entity_id: entity, reason }) => entity@ == entity_id
                && reason@ == cause@,
            _ => false,
        },
        Some(Ok(values)) => if values@.len() == dest.len() {
            fetched == Ok::<FetchResult, StoreError>(FetchResult::Hit)
        } else {
            match fetched {
                Err(StoreError::ShapeMismatch { entity_id: entity, expected, got }) => {
                    &&& entity@ == entity_id
                    &&& expected@ == seq![dest.len() as usize]
                    &&& got@ == seq![values@.len() as usize]
                },
                _ => false,
            }
        },
    }
}

/// Law: keys and channels are the prefix and the entity, joined by a colon and
/// by the word for updates.
pub proof fn law_keys_and_channels(store: RedisStore, entity_id: Seq<char>)
    ensures
        store.key_text(entity_id) == store.key_prefix@ + ":"@ + entity_id,
        store.channel_text(entity_id) == store.key_prefix@ + ":updates:"@ + entity_id,
{
}

/// Law: different entities have different keys and different channels.
pub proof fn law_entities_have_their_own_keys(
    store: RedisStore,
    one: Seq<char>,
    other: Seq<char>,
)
    requires
        store.key_text(one) == store.key_text(other) || store.channel_text(one)
            == store.channel_text(other),
    ensures
        one == other,
{
    let start = (store.key_prefix@ + ":"@).len() as int;
    let update_start = (store.key_prefix@ + ":updates:"@).len() as int;
    assert(one =~= store.key_text(one).skip(start));
    assert(other =~= store.key_text(other).skip(start));
    assert(one =~= store.channel_text(one).skip(update_start));
    assert(other =~= store.channel_text(other).skip(update_start));
}

/// Law: nothing under the key is a miss, and a vector is a hit exactly if it is
/// as long as the destination. One that is not is reported with both lengths,
/// and one that could not be decoded with the reason, both under the name of the
/// entity.
pub proof fn law_what_a_fetch_gives(
    entity_id: Seq<char>,
    found: Option<Result<Vec<F32>, String>>,
    dest: Seq<F32>,
    fetched: Result<FetchResult, StoreError>,
)
    requires
        fetch_outcome(entity_id, found, dest, fetched),
    ensures
        found is None <==> fetched matches Ok(FetchResult::Miss),
        (found matches Some(Ok(values)) && values@.len() == dest.len()) <==> fetched matches Ok(
            FetchResult::Hit,
        ),
        found matches Some(Ok(values)) ==> (values@.len() != dest.len() ==> (fetched matches Err(
            StoreError::ShapeMismatch { entity_id: entity, expected, got },
        ) && entity@ == entity_id && expected@.len() == 1 && got@.len() == 1 && (dest.len()
            <= usize::MAX ==> expected@[0] == dest.len()) && got@[0] == values@.len())),
        found matches Some(Err(cause)) ==> (fetched matches Err(
            StoreError::Deserialize { entity_id: entity, reason },
        ) && entity@ == entity_id && reason@ == cause@),
{
    if let Some(Ok(values)) = found {
        assert(values@.len() <= usize::MAX) by {
            lemma_vector_length(values);
        }
    }
}

/// The length of a vector is a machine size.
proof fn lemma_vector_length(values: Vec<F32>)
    ensures
        values@.len() <= usize::MAX,
{
    let length = values.len();
    assert(length == values@.len());
}

} // verus!

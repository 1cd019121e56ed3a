use axon::error::StoreError;
use axon::numeric::F32;
use axon::store::{FetchResult, RedisStore};
use axon::types::Tensor;

fn list(values: &[f32]) -> Vec<F32> {
    values.iter().map(|v| F32::from_bits(v.to_bits())).collect()
}

#[test]
fn keys_and_channels_carry_the_prefix() {
    let store = RedisStore::new("features");
    assert_eq!(store.key("user_123"), "features:user_123");
    assert_eq!(store.channel("user_123"), "features:updates:user_123");
}

#[test]
fn hit_overwrites_the_destination() {
    let store = RedisStore::new("features");
    let mut dest = Tensor::zeros(&vec![1, 3]);
    let found = Some(Ok(list(&[1.0, 2.0, 3.0])));
    assert!(matches!(store.fetch_features("e", found, &mut dest), Ok(FetchResult::Hit)));
    assert_eq!(dest.values(), list(&[1.0, 2.0, 3.0]));
    assert_eq!(dest.shape(), vec![1, 3]);
}

#[test]
fn miss_leaves_the_destination() {
    let store = RedisStore::new("features");
    let mut dest = Tensor::from_values(&vec![2], &list(&[4.0, 5.0]));
    assert!(matches!(store.fetch_features("e", None, &mut dest), Ok(FetchResult::Miss)));
    assert_eq!(dest.values(), list(&[4.0, 5.0]));
}

#[test]
fn corrupt_payload_is_an_error() {
    let store = RedisStore::new("features");
    let mut dest = Tensor::zeros(&vec![2]);
    match store.fetch_features("e7", Some(Err("bad marker".to_owned())), &mut dest) {
        Err(StoreError::Deserialize { entity_id, reason }) => {
            assert_eq!(entity_id, "e7");
            assert_eq!(reason, "bad marker");
        }
        other => panic!("expected a decoding error, got {other:?}"),
    }
    assert_eq!(dest.values(), list(&[0.0, 0.0]));
}

#[test]
fn vector_of_another_length_is_an_error() {
    let store = RedisStore::new("features");
    let mut dest = Tensor::zeros(&vec![2, 2]);
    match store.fetch_features("e8", Some(Ok(list(&[1.0, 2.0, 3.0]))), &mut dest) {
        Err(StoreError::ShapeMismatch { entity_id, expected, got }) => {
            assert_eq!(entity_id, "e8");
            assert_eq!(expected, vec![4]);
            assert_eq!(got, vec![3]);
        }
        other => panic!("expected a shape mismatch, got {other:?}"),
    }
    assert_eq!(dest.values(), list(&[0.0; 4]));
}

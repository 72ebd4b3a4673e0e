use debot_db::decode_model;
use debot_db::encode_model;
use debot_db::CheckpointStore;
use debot_db::DbError;
use debot_db::ModelParams;
use debot_db::SerializableModel;

#[test]
fn frame_is_length_prefix_then_payload() {
    let m = SerializableModel { model: vec![1, 2, 3] };
    let framed = encode_model(&m);
    assert_eq!(framed, vec![3, 0, 0, 0, 0, 0, 0, 0, 1, 2, 3]);
}

#[test]
fn frame_matches_the_bincode_wire_encoding() {
    // The frame coincides with bincode's encoding of a byte vector:
    // the same length-prefixed little-endian layout.
    let payload: Vec<u8> = vec![9, 8, 7, 6];
    let expected = bincode::serialize(&payload).unwrap();
    let m = SerializableModel { model: payload };
    assert_eq!(encode_model(&m), expected);
}

#[test]
fn frames_round_trip() {
    let m = SerializableModel { model: vec![0, 255, 42, 1] };
    let framed = encode_model(&m);
    let back = decode_model(&framed).unwrap();
    assert_eq!(back.model, vec![0, 255, 42, 1]);
    let empty = SerializableModel { model: Vec::new() };
    let framed_empty = encode_model(&empty);
    assert_eq!(framed_empty.len(), 8);
    assert_eq!(decode_model(&framed_empty).unwrap().model, Vec::<u8>::new());
}

#[test]
fn malformed_frames_are_decode_errors() {
    assert_eq!(decode_model(&vec![1, 2, 3]).unwrap_err(), DbError::DecodeError);
    // Length prefix claims more bytes than follow.
    assert_eq!(
        decode_model(&vec![9, 0, 0, 0, 0, 0, 0, 0, 1]).unwrap_err(),
        DbError::DecodeError
    );
    // Length prefix claims fewer bytes than follow.
    assert_eq!(
        decode_model(&vec![0, 0, 0, 0, 0, 0, 0, 0, 1]).unwrap_err(),
        DbError::DecodeError
    );
}

#[test]
fn store_backend_saves_and_loads_by_key() {
    let params = ModelParams::new("model-db", true, None);
    assert!(params.uses_db_backend());
    let mut store = CheckpointStore::new();
    let m = SerializableModel { model: vec![5, 6, 7] };
    assert!(params.save_model_to_db(&mut store, "alpha", &m).is_ok());
    let back = params.load_model_from_db(&store, "alpha").unwrap();
    assert_eq!(back.model, vec![5, 6, 7]);
    assert_eq!(
        params.load_model_from_db(&store, "beta").unwrap_err(),
        DbError::NotFound
    );
}

#[test]
fn saving_again_overwrites_the_key() {
    let params = ModelParams::new("model-db", true, None);
    let mut store = CheckpointStore::new();
    let first = SerializableModel { model: vec![1] };
    let second = SerializableModel { model: vec![2, 2] };
    assert!(params.save_model_to_db(&mut store, "k", &first).is_ok());
    assert!(params.save_model_to_db(&mut store, "k", &second).is_ok());
    assert_eq!(params.load_model_from_db(&store, "k").unwrap().model, vec![2, 2]);
}

#[test]
fn corrupt_stored_bytes_are_decode_errors() {
    let params = ModelParams::new("model-db", true, None);
    let mut store = CheckpointStore::new();
    assert!(store.save("broken", vec![1, 2]).is_ok());
    assert_eq!(
        params.load_model_from_db(&store, "broken").unwrap_err(),
        DbError::DecodeError
    );
}

#[test]
fn configuration_carries_backend_and_paths() {
    let file_backed = ModelParams::new("db-name", false, Some("/tmp/models".to_string()));
    assert!(!file_backed.uses_db_backend());
    assert_eq!(file_backed.db_name(), "db-name");
    assert_eq!(file_backed.collection_name(), "model_params");
    assert_eq!(file_backed.file_dir(), Some("/tmp/models"));
    let store_backed = ModelParams::new("db-name", true, None);
    assert_eq!(store_backed.file_dir(), None);
}

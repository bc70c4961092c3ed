use identity_wallet::cipher;
use identity_wallet::protocol::ErrorKind;
use identity_wallet::store::EncryptedStore;

const KEY: u64 = 0x5eed_1234_abcd_0001;

#[test]
fn seal_open_roundtrip() {
    let plain = b"{\"name\":\"A\",\"age\":30}".to_vec();
    let blob = cipher::seal(KEY, &plain);
    assert_eq!(blob.len(), plain.len() + 8);
    assert_eq!(cipher::open(KEY, &blob), Some(plain));
}

#[test]
fn seal_hides_the_plaintext() {
    let plain = b"very private identity data".to_vec();
    let blob = cipher::seal(KEY, &plain);
    assert_ne!(&blob[..plain.len()], &plain[..]);
}

#[test]
fn empty_plaintext_roundtrips() {
    let plain: Vec<u8> = Vec::new();
    let blob = cipher::seal(KEY, &plain);
    assert_eq!(blob.len(), 8);
    assert_eq!(cipher::open(KEY, &blob), Some(Vec::new()));
}

#[test]
fn any_single_byte_corruption_is_detected() {
    let plain = b"{\"name\":\"A\"}".to_vec();
    let blob = cipher::seal(KEY, &plain);
    for i in 0..blob.len() {
        let mut bad = blob.clone();
        bad[i] ^= 0x01;
        assert_eq!(cipher::open(KEY, &bad), None, "corrupt byte {i} went unnoticed");
    }
}

#[test]
fn wrong_key_or_short_blob_fails_to_open() {
    let plain = b"{\"name\":\"A\"}".to_vec();
    let blob = cipher::seal(KEY, &plain);
    assert_eq!(cipher::open(KEY + 1, &blob), None);
    assert_eq!(cipher::open(KEY ^ 0x8000_0000_0000_0000, &blob), None);
    assert_eq!(cipher::open(KEY, &b"short".to_vec()), None);
}

#[test]
fn swapping_two_body_bytes_is_detected() {
    let plain = b"{\"name\":\"A\",\"id\":7}".to_vec();
    let blob = cipher::seal(KEY, &plain);
    let mut swapped = 0;
    for i in 0..plain.len() {
        for j in (i + 1)..plain.len() {
            if blob[i] != blob[j] {
                let mut bad = blob.clone();
                bad.swap(i, j);
                assert_eq!(cipher::open(KEY, &bad), None, "swap {i} {j} went unnoticed");
                swapped += 1;
            }
        }
    }
    assert!(swapped > 0);
}

#[test]
fn store_roundtrips_content_per_owner() {
    let mut st = EncryptedStore::new(KEY);
    let owner = "alice@example.com".to_string();
    let content = b"{\"name\":\"A\"}".to_vec();
    st.upsert(&owner, &content);
    assert!(st.contains(&owner));
    assert_eq!(st.get(&owner), Ok(content.clone()));

    let replaced = b"{\"name\":\"B\"}".to_vec();
    st.upsert(&owner, &replaced);
    assert_eq!(st.get(&owner), Ok(replaced));
}

#[test]
fn store_distinguishes_missing_from_corrupt() {
    let mut st = EncryptedStore::new(KEY);
    let owner = "alice@example.com".to_string();
    assert_eq!(st.get(&owner), Err(ErrorKind::NoRecord));

    let content = b"{\"name\":\"A\"}".to_vec();
    st.upsert(&owner, &content);
    let mut blob = st.get_blob(&owner).expect("blob is persisted");
    blob[0] ^= 0xFF;
    st.put_blob(&owner, blob);
    assert_eq!(st.get(&owner), Err(ErrorKind::DecryptionFailure));
}

#[test]
fn persisted_blob_is_never_the_plaintext() {
    let mut st = EncryptedStore::new(KEY);
    let owner = "alice@example.com".to_string();
    let content = b"{\"name\":\"A\"}".to_vec();
    st.upsert(&owner, &content);
    let blob = st.get_blob(&owner).expect("blob is persisted");
    assert_ne!(blob, content);
    assert!(!blob.windows(content.len()).any(|w| w == &content[..]));
}

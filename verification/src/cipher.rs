//! The encryption boundary of the record store: a keystream cipher with an
//! integrity tag appended, so that sealed blobs can be checked on opening.
//! The tag is keyed and position-weighted: opening a sealed blob returns the
//! original plaintext; a blob with a single altered byte, two swapped
//! distinct bytes, or checked under another key is rejected.

use vstd::prelude::*;
use vstd::arithmetic::div_mod::{lemma_add_mod_noop, lemma_fundamental_div_mod, lemma_small_mod};

verus! {

/// Length in bytes of the integrity tag appended to every sealed blob.
pub const TAG_LEN: usize = 8;

/// The integrity lemmas are stated for bodies up to this length. It is a
/// machine-level bound (64 TiB): no in-memory buffer approaches it, and it
/// keeps every weighted term below 2^64 so the tag arithmetic never wraps.
pub const MAC_LEN_LIMIT: u64 = 0x4000_0000_0000;

/// One step of the keystream generator: a 64-bit linear congruential step.
pub open spec fn next_state(s: u64) -> u64 {
    vstd::wrapping::u64_specs::wrapping_add(
        vstd::wrapping::u64_specs::wrapping_mul(s, 6364136223846793005u64),
        1442695040888963407u64,
    )
}

/// The keystream state used for byte `i` of a message under `key`.
pub open spec fn stream_state(key: u64, i: nat) -> u64
    decreases i,
{
    if i == 0 {
        next_state(key)
    } else {
        next_state(stream_state(key, (i - 1) as nat))
    }
}

/// The keystream byte XORed with byte `i` of a message under `key`.
pub open spec fn ks_byte(key: u64, i: nat) -> u8 {
    (stream_state(key, i) >> 33) as u8
}

/// XOR a message with the keystream; its own inverse for a fixed key.
pub open spec fn xor_stream(key: u64, data: Seq<u8>) -> Seq<u8> {
    Seq::new(data.len(), |i: int| data[i] ^ ks_byte(key, i as nat))
}

/// The odd per-position weight of byte `k` in the tag, so that the tag is
/// order-sensitive.
pub open spec fn weight(k: int) -> u64 {
    vstd::wrapping::u64_specs::wrapping_add(
        vstd::wrapping::u64_specs::wrapping_mul(k as u64, 2u64),
        1u64,
    )
}

/// One tag step: absorb byte `b` with weight `w` into state `a`.
pub open spec fn mac_add(a: u64, w: u64, b: u8) -> u64 {
    vstd::wrapping::u64_specs::wrapping_add(
        a,
        vstd::wrapping::u64_specs::wrapping_mul(w, b as u64),
    )
}

/// The keyed, position-weighted tag state over the first `n` bytes.
pub open spec fn mac_upto(key: u64, data: Seq<u8>, n: int) -> u64
    decreases n,
{
    if n <= 0 {
        key
    } else {
        mac_add(mac_upto(key, data, n - 1), weight(n - 1), data[n - 1])
    }
}

/// The tag value of a whole message under `key`.
pub open spec fn mac(key: u64, data: Seq<u8>) -> u64 {
    mac_upto(key, data, data.len() as int)
}

/// Little-endian encoding of a tag value as the `TAG_LEN` tag bytes.
pub open spec fn tag_bytes(x: u64) -> Seq<u8> {
    Seq::new(TAG_LEN as nat, |k: int| ((x >> (8 * k)) & 0xFF) as u8)
}

/// What `seal` produces: the XORed body followed by the keyed tag over it.
pub open spec fn seal_spec(key: u64, plain: Seq<u8>) -> Seq<u8> {
    xor_stream(key, plain) + tag_bytes(mac(key, xor_stream(key, plain)))
}

/// What `open` accepts: blobs whose tag matches their body under the key,
/// undone bytewise.
pub open spec fn open_spec(key: u64, blob: Seq<u8>) -> Option<Seq<u8>> {
    if blob.len() < TAG_LEN {
        None
    } else {
        let body = blob.take(blob.len() - TAG_LEN);
        let tag = blob.skip(blob.len() - TAG_LEN);
        if tag =~= tag_bytes(mac(key, body)) {
            Some(xor_stream(key, body))
        } else {
            None
        }
    }
}

proof fn lemma_xor_involution()
    ensures
        forall|a: u8, b: u8| #[trigger] ((a ^ b) ^ b) == a,
{
    assert(forall|a: u8, b: u8| #[trigger] ((a ^ b) ^ b) == a) by (bit_vector);
}

/// Undoing the keystream restores the original bytes.
pub proof fn lemma_xor_stream_involution(key: u64, data: Seq<u8>)
    ensures
        xor_stream(key, xor_stream(key, data)) =~= data,
{
    lemma_xor_involution();
}

/// The unweighted integer value the tag state denotes before reduction.
spec fn wsum(data: Seq<u8>, n: int) -> int
    decreases n,
{
    if n <= 0 {
        0
    } else {
        wsum(data, n - 1) + (2 * (n - 1) + 1) * data[n - 1]
    }
}

proof fn lemma_wsum_nonneg(data: Seq<u8>, n: int)
    ensures
        wsum(data, n) >= 0,
    decreases n,
{
    if n > 0 {
        lemma_wsum_nonneg(data, n - 1);
        assert((2 * (n - 1) + 1) * data[n - 1] >= 0) by (nonlinear_arith)
            requires
                2 * (n - 1) + 1 >= 1,
                data[n - 1] >= 0,
        ;
    }
}

/// Below the length limit the tag state is the weighted sum reduced mod 2^64.
proof fn lemma_mac_is_wsum_mod(key: u64, data: Seq<u8>, n: int)
    requires
        0 <= n <= MAC_LEN_LIMIT,
    ensures
        mac_upto(key, data, n) == (key + wsum(data, n)) % 0x1_0000_0000_0000_0000,
    decreases n,
{
    let m: int = 0x1_0000_0000_0000_0000;
    if n == 0 {
        lemma_small_mod(key as nat, m as nat);
    } else {
        lemma_mac_is_wsum_mod(key, data, n - 1);
        lemma_wsum_nonneg(data, n - 1);
        let a = mac_upto(key, data, n - 1);
        let b = data[n - 1];
        let term = (2 * (n - 1) + 1) * (b as int);
        assert(weight(n - 1) == (2 * (n - 1) + 1) as u64);
        assert(0 <= term < m) by (nonlinear_arith)
            requires
                1 <= 2 * (n - 1) + 1 <= 0x8000_0000_0000,
                0 <= b <= 255,
                term == (2 * (n - 1) + 1) * (b as int),
                m == 0x1_0000_0000_0000_0000,
        ;
        assert(vstd::wrapping::u64_specs::wrapping_mul(weight(n - 1), b as u64) == term);
        assert(mac_upto(key, data, n) == (a + term) % m) by {
            if a + term > u64::MAX {
                assert((a + term) - m < m);
                assert((a + term) % m == (a + term) - m) by (nonlinear_arith)
                    requires
                        m <= a + term < 2 * m,
                        m == 0x1_0000_0000_0000_0000,
                ;
            } else {
                lemma_small_mod((a + term) as nat, m as nat);
            }
        }
        lemma_add_mod_noop(key + wsum(data, n - 1), term, m);
        lemma_small_mod(term as nat, m as nat);
    }
}

/// Two distinct non-negative values less than 2^64 apart have distinct
/// residues.
proof fn lemma_mod_distinct(x: int, y: int)
    requires
        x >= 0,
        y >= 0,
        x != y,
        -0x1_0000_0000_0000_0000 < x - y < 0x1_0000_0000_0000_0000,
    ensures
        x % 0x1_0000_0000_0000_0000 != y % 0x1_0000_0000_0000_0000,
{
    let m: int = 0x1_0000_0000_0000_0000;
    if x % m == y % m {
        lemma_fundamental_div_mod(x, m);
        lemma_fundamental_div_mod(y, m);
        let q = x / m - y / m;
        assert(x - y == m * q);
        assert(q != 0);
        if q >= 1 {
            assert(m * q >= m) by (nonlinear_arith)
                requires
                    q >= 1,
                    m == 0x1_0000_0000_0000_0000,
            ;
        } else {
            assert(m * q <= -m) by (nonlinear_arith)
                requires
                    q <= -1,
                    m == 0x1_0000_0000_0000_0000,
            ;
        }
    }
}

/// Tag states agree on any common prefix.
proof fn lemma_mac_upto_agrees(key: u64, s1: Seq<u8>, s2: Seq<u8>, n: int)
    requires
        forall|k: int| 0 <= k < n ==> s1[k] == s2[k],
    ensures
        mac_upto(key, s1, n) == mac_upto(key, s2, n),
    decreases n,
{
    if n > 0 {
        lemma_mac_upto_agrees(key, s1, s2, n - 1);
    }
}

proof fn lemma_wsum_single_change(s1: Seq<u8>, s2: Seq<u8>, i: int, n: int)
    requires
        0 <= i < n,
        forall|k: int| 0 <= k < n && k != i ==> s1[k] == s2[k],
    ensures
        wsum(s1, n) - wsum(s2, n) == (2 * i + 1) * (s1[i] - s2[i]),
    decreases n,
{
    if n - 1 == i {
        lemma_wsum_agrees(s1, s2, i);
        assert((2 * i + 1) * s1[i] - (2 * i + 1) * s2[i] == (2 * i + 1) * (s1[i] - s2[i]))
            by (nonlinear_arith);
    } else {
        lemma_wsum_single_change(s1, s2, i, n - 1);
    }
}

proof fn lemma_wsum_agrees(s1: Seq<u8>, s2: Seq<u8>, n: int)
    requires
        forall|k: int| 0 <= k < n ==> s1[k] == s2[k],
    ensures
        wsum(s1, n) == wsum(s2, n),
    decreases n,
{
    if n > 0 {
        lemma_wsum_agrees(s1, s2, n - 1);
    }
}

proof fn lemma_wsum_two_changes(s1: Seq<u8>, s2: Seq<u8>, i: int, j: int, n: int)
    requires
        0 <= i < j < n,
        forall|k: int| 0 <= k < n && k != i && k != j ==> s1[k] == s2[k],
    ensures
        wsum(s1, n) - wsum(s2, n) == (2 * i + 1) * (s1[i] - s2[i]) + (2 * j + 1) * (s1[j]
            - s2[j]),
    decreases n,
{
    if n - 1 == j {
        lemma_wsum_single_change(s1, s2, i, j);
        assert(wsum(s1, n) == wsum(s1, j) + (2 * j + 1) * s1[j]);
        assert(wsum(s2, n) == wsum(s2, j) + (2 * j + 1) * s2[j]);
        assert((2 * j + 1) * s1[j] - (2 * j + 1) * s2[j] == (2 * j + 1) * (s1[j] - s2[j]))
            by (nonlinear_arith);
    } else {
        lemma_wsum_two_changes(s1, s2, i, j, n - 1);
    }
}

/// Changing exactly one byte of a message always changes its tag.
pub proof fn lemma_mac_single_change(key: u64, s1: Seq<u8>, s2: Seq<u8>, i: int)
    requires
        s1.len() == s2.len() <= MAC_LEN_LIMIT,
        0 <= i < s1.len(),
        s1[i] != s2[i],
        forall|k: int| 0 <= k < s1.len() && k != i ==> s1[k] == s2[k],
    ensures
        mac(key, s1) != mac(key, s2),
{
    let n = s1.len() as int;
    lemma_mac_is_wsum_mod(key, s1, n);
    lemma_mac_is_wsum_mod(key, s2, n);
    lemma_wsum_nonneg(s1, n);
    lemma_wsum_nonneg(s2, n);
    lemma_wsum_single_change(s1, s2, i, n);
    let d = wsum(s1, n) - wsum(s2, n);
    assert(d != 0 && -0x1_0000_0000_0000_0000 < d < 0x1_0000_0000_0000_0000) by (nonlinear_arith)
        requires
            d == (2 * i + 1) * (s1[i] - s2[i]),
            1 <= 2 * i + 1 <= 0x8000_0000_0000,
            -255 <= s1[i] - s2[i] <= 255,
            s1[i] != s2[i],
    ;
    lemma_mod_distinct(key + wsum(s1, n), key + wsum(s2, n));
}

/// Swapping two distinct bytes of a message always changes its tag: the tag
/// is order-sensitive.
pub proof fn lemma_mac_swap(key: u64, s1: Seq<u8>, s2: Seq<u8>, i: int, j: int)
    requires
        s1.len() == s2.len() <= MAC_LEN_LIMIT,
        0 <= i < j < s1.len(),
        s1[i] != s1[j],
        s2[i] == s1[j],
        s2[j] == s1[i],
        forall|k: int| 0 <= k < s1.len() && k != i && k != j ==> s1[k] == s2[k],
    ensures
        mac(key, s1) != mac(key, s2),
{
    let n = s1.len() as int;
    lemma_mac_is_wsum_mod(key, s1, n);
    lemma_mac_is_wsum_mod(key, s2, n);
    lemma_wsum_nonneg(s1, n);
    lemma_wsum_nonneg(s2, n);
    lemma_wsum_two_changes(s1, s2, i, j, n);
    let d = wsum(s1, n) - wsum(s2, n);
    assert(d != 0 && -0x1_0000_0000_0000_0000 < d < 0x1_0000_0000_0000_0000) by (nonlinear_arith)
        requires
            d == (2 * i + 1) * (s1[i] - s2[i]) + (2 * j + 1) * (s1[j] - s2[j]),
            s2[i] == s1[j] && s2[j] == s1[i],
            0 <= i < j,
            2 * j + 1 <= 0x8000_0000_0000,
            -255 <= s1[i] - s2[i] <= 255,
            -255 <= s1[j] - s2[j] <= 255,
            s1[i] != s1[j],
    ;
    lemma_mod_distinct(key + wsum(s1, n), key + wsum(s2, n));
}

/// Two different keys never give a message the same tag: the tag is keyed.
pub proof fn lemma_mac_wrong_key(k1: u64, k2: u64, s: Seq<u8>)
    requires
        k1 != k2,
        s.len() <= MAC_LEN_LIMIT,
    ensures
        mac(k1, s) != mac(k2, s),
{
    let n = s.len() as int;
    lemma_mac_is_wsum_mod(k1, s, n);
    lemma_mac_is_wsum_mod(k2, s, n);
    lemma_wsum_nonneg(s, n);
    lemma_mod_distinct(k1 + wsum(s, n), k2 + wsum(s, n));
}

/// Two distinct tag values never share a tag encoding.
pub proof fn lemma_tag_bytes_injective(x: u64, y: u64)
    requires
        tag_bytes(x) =~= tag_bytes(y),
    ensures
        x == y,
{
    assert(tag_bytes(x)[0] == tag_bytes(y)[0]);
    assert(tag_bytes(x)[1] == tag_bytes(y)[1]);
    assert(tag_bytes(x)[2] == tag_bytes(y)[2]);
    assert(tag_bytes(x)[3] == tag_bytes(y)[3]);
    assert(tag_bytes(x)[4] == tag_bytes(y)[4]);
    assert(tag_bytes(x)[5] == tag_bytes(y)[5]);
    assert(tag_bytes(x)[6] == tag_bytes(y)[6]);
    assert(tag_bytes(x)[7] == tag_bytes(y)[7]);
    assert(x == y) by (bit_vector)
        requires
            ((x >> (8 * 0)) & 0xFF) as u8 == ((y >> (8 * 0)) & 0xFF) as u8,
            ((x >> (8 * 1)) & 0xFF) as u8 == ((y >> (8 * 1)) & 0xFF) as u8,
            ((x >> (8 * 2)) & 0xFF) as u8 == ((y >> (8 * 2)) & 0xFF) as u8,
            ((x >> (8 * 3)) & 0xFF) as u8 == ((y >> (8 * 3)) & 0xFF) as u8,
            ((x >> (8 * 4)) & 0xFF) as u8 == ((y >> (8 * 4)) & 0xFF) as u8,
            ((x >> (8 * 5)) & 0xFF) as u8 == ((y >> (8 * 5)) & 0xFF) as u8,
            ((x >> (8 * 6)) & 0xFF) as u8 == ((y >> (8 * 6)) & 0xFF) as u8,
            ((x >> (8 * 7)) & 0xFF) as u8 == ((y >> (8 * 7)) & 0xFF) as u8,
    ;
}

/// Opening a sealed blob under the sealing key returns the plaintext.
pub proof fn lemma_seal_open_roundtrip(key: u64, plain: Seq<u8>)
    ensures
        open_spec(key, seal_spec(key, plain)) == Some(plain),
{
    let cipher = xor_stream(key, plain);
    let blob = seal_spec(key, plain);
    assert(blob.take(blob.len() - TAG_LEN) =~= cipher);
    assert(blob.skip(blob.len() - TAG_LEN) =~= tag_bytes(mac(key, cipher)));
    lemma_xor_stream_involution(key, plain);
    assert(open_spec(key, blob) == Some(xor_stream(key, cipher)));
}

/// A sealed blob with exactly one byte altered never opens: the change is
/// caught either by the keyed tag over the body or by the stored tag bytes.
pub proof fn lemma_corruption_detected(key: u64, plain: Seq<u8>, blob: Seq<u8>, i: int)
    requires
        plain.len() <= MAC_LEN_LIMIT,
        blob.len() == seal_spec(key, plain).len(),
        0 <= i < blob.len(),
        blob[i] != seal_spec(key, plain)[i],
        forall|j: int| 0 <= j < blob.len() && j != i ==> blob[j] == seal_spec(key, plain)[j],
    ensures
        open_spec(key, blob) == None::<Seq<u8>>,
{
    let sealed = seal_spec(key, plain);
    let cipher = xor_stream(key, plain);
    let good_tag = tag_bytes(mac(key, cipher));
    assert(sealed.take(sealed.len() - TAG_LEN) =~= cipher);
    assert(sealed.skip(sealed.len() - TAG_LEN) =~= good_tag);
    let body = blob.take(blob.len() - TAG_LEN);
    let tag = blob.skip(blob.len() - TAG_LEN);
    if i < blob.len() - TAG_LEN {
        assert(body[i] != cipher[i]);
        assert(forall|j: int| 0 <= j < body.len() && j != i ==> body[j] == cipher[j]);
        lemma_mac_single_change(key, body, cipher, i);
        assert(tag =~= good_tag);
        if tag =~= tag_bytes(mac(key, body)) {
            lemma_tag_bytes_injective(mac(key, body), mac(key, cipher));
        }
    } else {
        assert(body =~= cipher);
        let k = i - (blob.len() - TAG_LEN);
        assert(tag[k] != good_tag[k]);
        assert(!(tag =~= tag_bytes(mac(key, body))));
    }
}

/// A sealed blob with two distinct body bytes swapped never opens: the
/// position-weighted tag catches reorderings that preserve the byte sum.
pub proof fn lemma_transposition_detected(key: u64, plain: Seq<u8>, blob: Seq<u8>, i: int, j: int)
    requires
        plain.len() <= MAC_LEN_LIMIT,
        blob.len() == seal_spec(key, plain).len(),
        0 <= i < j < blob.len() - TAG_LEN,
        seal_spec(key, plain)[i] != seal_spec(key, plain)[j],
        blob[i] == seal_spec(key, plain)[j],
        blob[j] == seal_spec(key, plain)[i],
        forall|k: int| 0 <= k < blob.len() && k != i && k != j ==> blob[k] == seal_spec(
            key,
            plain,
        )[k],
    ensures
        open_spec(key, blob) == None::<Seq<u8>>,
{
    let sealed = seal_spec(key, plain);
    let cipher = xor_stream(key, plain);
    let good_tag = tag_bytes(mac(key, cipher));
    assert(sealed.take(sealed.len() - TAG_LEN) =~= cipher);
    assert(sealed.skip(sealed.len() - TAG_LEN) =~= good_tag);
    let body = blob.take(blob.len() - TAG_LEN);
    let tag = blob.skip(blob.len() - TAG_LEN);
    assert(body[i] == cipher[j] && body[j] == cipher[i]);
    assert(forall|k: int| 0 <= k < body.len() && k != i && k != j ==> body[k] == cipher[k]);
    lemma_mac_swap(key, body, cipher, i, j);
    assert(tag =~= good_tag);
    if tag =~= tag_bytes(mac(key, body)) {
        lemma_tag_bytes_injective(mac(key, body), mac(key, cipher));
    }
}

/// A blob sealed under one key never opens under a different key: the tag
/// check itself is keyed.
pub proof fn lemma_wrong_key_rejected(seal_key: u64, open_key: u64, plain: Seq<u8>)
    requires
        seal_key != open_key,
        plain.len() <= MAC_LEN_LIMIT,
    ensures
        open_spec(open_key, seal_spec(seal_key, plain)) == None::<Seq<u8>>,
{
    let blob = seal_spec(seal_key, plain);
    let cipher = xor_stream(seal_key, plain);
    let body = blob.take(blob.len() - TAG_LEN);
    let tag = blob.skip(blob.len() - TAG_LEN);
    assert(body =~= cipher);
    assert(tag =~= tag_bytes(mac(seal_key, cipher)));
    lemma_mac_wrong_key(seal_key, open_key, cipher);
    lemma_mac_upto_agrees(open_key, body, cipher, cipher.len() as int);
    if tag =~= tag_bytes(mac(open_key, body)) {
        lemma_tag_bytes_injective(mac(seal_key, cipher), mac(open_key, body));
    }
}

/// Advances the keystream state; mirrors `next_state` in executable form.
fn next_state_exec(s: u64) -> (r: u64)
    ensures
        r == next_state(s),
{
    s.wrapping_mul(6364136223846793005u64).wrapping_add(1442695040888963407u64)
}

/// XORs `data` with the keystream for `key`, starting at stream position 0.
fn xor_stream_exec(key: u64, data: &Vec<u8>) -> (out: Vec<u8>)
    ensures
        out@ == xor_stream(key, data@),
{
    let mut out: Vec<u8> = Vec::new();
    let mut state: u64 = next_state_exec(key);
    let mut i: usize = 0;
    while i < data.len()
        invariant
            i <= data@.len(),
            out@.len() == i,
            state == stream_state(key, i as nat),
            forall|j: int| 0 <= j < i ==> out@[j] == xor_stream(key, data@)[j],
        decreases data@.len() - i,
    {
        let b = data[i] ^ (#[verifier::truncate] ((state >> 33) as u8));
        out.push(b);
        state = next_state_exec(state);
        i = i + 1;
    }
    assert(out@ =~= xor_stream(key, data@));
    out
}

/// Computes the keyed tag state over `data[0..n]`.
fn mac_exec(key: u64, data: &Vec<u8>, n: usize) -> (r: u64)
    requires
        n <= data@.len(),
    ensures
        r == mac_upto(key, data@, n as int),
{
    let mut state: u64 = key;
    let mut i: usize = 0;
    while i < n
        invariant
            i <= n <= data@.len(),
            state == mac_upto(key, data@, i as int),
        decreases n - i,
    {
        let w = (i as u64).wrapping_mul(2u64).wrapping_add(1u64);
        assert(w == weight(i as int));
        state = state.wrapping_add(w.wrapping_mul(data[i] as u64));
        i = i + 1;
    }
    state
}

/// Seals a plaintext under `key`: XORs it with the keystream and appends the
/// keyed tag over the resulting body.
pub fn seal(key: u64, plain: &Vec<u8>) -> (blob: Vec<u8>)
    ensures
        blob@ == seal_spec(key, plain@),
{
    let mut blob = xor_stream_exec(key, plain);
    let body_len = blob.len();
    let sum = mac_exec(key, &blob, body_len);
    assert(sum == mac(key, xor_stream(key, plain@)));
    let mut k: usize = 0;
    while k < TAG_LEN
        invariant
            k <= TAG_LEN,
            blob@.len() == body_len + k,
            blob@.take(body_len as int) =~= xor_stream(key, plain@),
            sum == mac(key, xor_stream(key, plain@)),
            forall|j: int| 0 <= j < k ==> blob@[body_len + j] == tag_bytes(sum)[j],
        decreases TAG_LEN - k,
    {
        let byte = #[verifier::truncate] (((sum >> (8 * (k as u64))) & 0xFF) as u8);
        assert(byte == tag_bytes(sum)[k as int]);
        blob.push(byte);
        assert(blob@.take(body_len as int) =~= blob@.drop_last().take(body_len as int));
        k = k + 1;
    }
    assert(blob@ =~= seal_spec(key, plain@));
    blob
}

/// Opens a sealed blob under `key`: rejects a short blob or a tag mismatch,
/// otherwise undoes the keystream and returns the plaintext.
pub fn open(key: u64, blob: &Vec<u8>) -> (r: Option<Vec<u8>>)
    ensures
        match r {
            Some(plain) => open_spec(key, blob@) == Some(plain@),
            None => open_spec(key, blob@) == None::<Seq<u8>>,
        },
{
    if blob.len() < TAG_LEN {
        return None;
    }
    let body_len = blob.len() - TAG_LEN;
    assert(body_len + TAG_LEN <= usize::MAX);
    let sum = mac_exec(key, blob, body_len);
    let ghost body = blob@.take(body_len as int);
    let ghost tag = blob@.skip(body_len as int);
    proof {
        lemma_mac_upto_agrees(key, blob@, body, body_len as int);
    }
    assert(sum == mac(key, body));
    let mut k: usize = 0;
    while k < TAG_LEN
        invariant
            k <= TAG_LEN,
            body_len + TAG_LEN == blob@.len(),
            body_len + TAG_LEN <= usize::MAX,
            sum == mac(key, body),
            body == blob@.take(body_len as int),
            tag == blob@.skip(body_len as int),
            forall|j: int| 0 <= j < k ==> tag[j] == tag_bytes(sum)[j],
        decreases TAG_LEN - k,
    {
        let expected = #[verifier::truncate] (((sum >> (8 * (k as u64))) & 0xFF) as u8);
        if blob[body_len + k] != expected {
            assert(tag[k as int] != tag_bytes(sum)[k as int]);
            assert(!(tag =~= tag_bytes(mac(key, body))));
            return None;
        }
        k = k + 1;
    }
    assert(tag =~= tag_bytes(mac(key, body)));
    let mut front: Vec<u8> = Vec::new();
    let mut i: usize = 0;
    while i < body_len
        invariant
            i <= body_len <= blob@.len(),
            front@ =~= blob@.take(body_len as int).take(i as int),
        decreases body_len - i,
    {
        assert(blob@.take(body_len as int).take(i + 1).drop_last() =~= blob@.take(
            body_len as int,
        ).take(i as int));
        front.push(blob[i]);
        i = i + 1;
    }
    assert(front@ =~= body);
    let plain = xor_stream_exec(key, &front);
    Some(plain)
}

} // verus!

use vstd::prelude::*;
use vstd::bytes::{
    spec_u64_to_le_bytes, spec_u64_from_le_bytes, u64_to_le_bytes, u64_from_le_bytes,
    lemma_auto_spec_u64_to_from_le_bytes,
};
use vstd::slice::{slice_subrange, slice_to_vec};
use vstd::utf8::{valid_utf8, decode_utf8, encode_utf8, encode_utf8_valid_utf8, encode_utf8_decode_utf8};
use crate::channels::{Category, ChannelInfo};
use crate::crypto::{
    sha256_of, sha256, xchacha_seal, xchacha_open, xchacha_encrypt, xchacha_decrypt, base64url_of,
    base64url_decode_of, base64url_encode, base64url_decode, string_from_utf8,
    XCHACHA_PLAINTEXT_CAP,
};
use crate::errors::ChannelError;
use crate::text::{ascii_lower, to_lowercase};
use crate::utils::{date_string_chars, date_of_timestamp, timestamp_to_date_string};

verus! {

/// The plaintext session record of a daily channel, as persisted inside the
/// encrypted state blob: the exported backend session bytes together with
/// the identity of the channel, the sealing password and the network flag.
#[derive(Debug)]
pub struct DailyChannelState {
    channel_state: Vec<u8>,
    category: Category,
    actor_id: String,
    creation_timestamp: i64,
    state_psw: String,
    mainnet: bool,
}

/// The mathematical content of a session record.
#[verifier::ext_equal]
pub ghost struct StateView {
    pub channel_state: Seq<u8>,
    pub category: Category,
    pub actor_id: Seq<char>,
    pub creation_timestamp: i64,
    pub state_psw: Seq<char>,
    pub mainnet: bool,
}

impl View for DailyChannelState {
    type V = StateView;

    closed spec fn view(&self) -> StateView {
        StateView {
            channel_state: self.channel_state@,
            category: self.category,
            actor_id: self.actor_id@,
            creation_timestamp: self.creation_timestamp,
            state_psw: self.state_psw@,
            mainnet: self.mainnet,
        }
    }
}

/// The single byte standing for a category in the binary record.
pub open spec fn category_byte(c: Category) -> u8 {
    match c {
        Category::Trucks => 0,
        Category::Scales => 1,
        Category::BioCells => 2,
    }
}

/// The category encoded by a byte, if any.
pub open spec fn category_of_byte(b: u8) -> Option<Category> {
    if b == 0 {
        Some(Category::Trucks)
    } else if b == 1 {
        Some(Category::Scales)
    } else if b == 2 {
        Some(Category::BioCells)
    } else {
        None
    }
}

/// The single byte standing for the mainnet flag in the binary record.
pub open spec fn bool_byte(b: bool) -> u8 {
    if b {
        1
    } else {
        0
    }
}

/// The binary framing of a session record: each variable-length field is
/// preceded by its length as eight little-endian bytes, the category and the
/// mainnet flag are single bytes, and the timestamp is eight bytes.
pub open spec fn record_bytes(v: StateView) -> Seq<u8> {
    spec_u64_to_le_bytes(v.channel_state.len() as u64) + v.channel_state + seq![
        category_byte(v.category),
    ] + spec_u64_to_le_bytes(encode_utf8(v.actor_id).len() as u64) + encode_utf8(v.actor_id)
        + spec_u64_to_le_bytes(v.creation_timestamp as u64) + spec_u64_to_le_bytes(
        encode_utf8(v.state_psw).len() as u64,
    ) + encode_utf8(v.state_psw) + seq![bool_byte(v.mainnet)]
}

/// The session record framed by a byte sequence, if it is well-formed from
/// the first byte to the last.
pub open spec fn parse_record(b: Seq<u8>) -> Option<StateView> {
    if b.len() < 8 {
        None
    } else {
        let n0 = spec_u64_from_le_bytes(b.subrange(0, 8)) as int;
        if b.len() < 8 + n0 + 1 {
            None
        } else {
            let channel_state = b.subrange(8, 8 + n0);
            let cat = category_of_byte(b[8 + n0]);
            let i1 = 8 + n0 + 1;
            if cat is None || b.len() < i1 + 8 {
                None
            } else {
                let n1 = spec_u64_from_le_bytes(b.subrange(i1, i1 + 8)) as int;
                if b.len() < i1 + 8 + n1 + 8 {
                    None
                } else {
                    let actor_bytes = b.subrange(i1 + 8, i1 + 8 + n1);
                    let i2 = i1 + 8 + n1;
                    let ts = spec_u64_from_le_bytes(b.subrange(i2, i2 + 8)) as i64;
                    let i3 = i2 + 8;
                    if !valid_utf8(actor_bytes) || b.len() < i3 + 8 {
                        None
                    } else {
                        let n2 = spec_u64_from_le_bytes(b.subrange(i3, i3 + 8)) as int;
                        if b.len() != i3 + 8 + n2 + 1 {
                            None
                        } else {
                            let psw_bytes = b.subrange(i3 + 8, i3 + 8 + n2);
                            let flag = b[i3 + 8 + n2];
                            if !valid_utf8(psw_bytes) || flag > 1 {
                                None
                            } else {
                                Some(
                                    StateView {
                                        channel_state,
                                        category: cat.unwrap(),
                                        actor_id: decode_utf8(actor_bytes),
                                        creation_timestamp: ts,
                                        state_psw: decode_utf8(psw_bytes),
                                        mainnet: flag == 1,
                                    },
                                )
                            }
                        }
                    }
                }
            }
        }
    }
}

/// Framing then parsing a session record gives the record back: the binary
/// codec of the persisted state loses nothing.
pub proof fn lemma_parse_record_roundtrip(v: StateView)
    requires
        v.channel_state.len() < 0x1_0000_0000_0000_0000,
        encode_utf8(v.actor_id).len() < 0x1_0000_0000_0000_0000,
        encode_utf8(v.state_psw).len() < 0x1_0000_0000_0000_0000,
    ensures
        parse_record(record_bytes(v)) == Some(v),
{
    lemma_auto_spec_u64_to_from_le_bytes();
    encode_utf8_valid_utf8(v.actor_id);
    encode_utf8_decode_utf8(v.actor_id);
    encode_utf8_valid_utf8(v.state_psw);
    encode_utf8_decode_utf8(v.state_psw);
    let b = record_bytes(v);
    let n0 = v.channel_state.len() as int;
    let a = encode_utf8(v.actor_id);
    let p = encode_utf8(v.state_psw);
    let n1 = a.len() as int;
    let n2 = p.len() as int;
    assert(b.len() == 8 + n0 + 1 + 8 + n1 + 8 + 8 + n2 + 1);
    assert(b.subrange(0, 8) =~= spec_u64_to_le_bytes(v.channel_state.len() as u64));
    assert(spec_u64_from_le_bytes(b.subrange(0, 8)) as int == n0);
    assert(b.subrange(8, 8 + n0) =~= v.channel_state);
    assert(b[8 + n0] == category_byte(v.category));
    assert(category_of_byte(category_byte(v.category)) == Some(v.category));
    let i1 = 8 + n0 + 1;
    assert(b.subrange(i1, i1 + 8) =~= spec_u64_to_le_bytes(a.len() as u64));
    assert(spec_u64_from_le_bytes(b.subrange(i1, i1 + 8)) as int == n1);
    assert(b.subrange(i1 + 8, i1 + 8 + n1) =~= a);
    let i2 = i1 + 8 + n1;
    assert(b.subrange(i2, i2 + 8) =~= spec_u64_to_le_bytes(v.creation_timestamp as u64));
    let ts_bits = v.creation_timestamp;
    assert((ts_bits as u64) as i64 == ts_bits) by (bit_vector);
    assert(spec_u64_from_le_bytes(b.subrange(i2, i2 + 8)) as i64 == v.creation_timestamp);
    let i3 = i2 + 8;
    assert(b.subrange(i3, i3 + 8) =~= spec_u64_to_le_bytes(p.len() as u64));
    assert(spec_u64_from_le_bytes(b.subrange(i3, i3 + 8)) as int == n2);
    assert(b.subrange(i3 + 8, i3 + 8 + n2) =~= p);
    assert(b[i3 + 8 + n2] == bool_byte(v.mainnet));
    assert(bool_byte(v.mainnet) <= 1);
    assert((bool_byte(v.mainnet) == 1) == v.mainnet);
    assert(parse_record(b) == Some(
        StateView {
            channel_state: v.channel_state,
            category: v.category,
            actor_id: decode_utf8(a),
            creation_timestamp: v.creation_timestamp,
            state_psw: decode_utf8(p),
            mainnet: v.mainnet,
        },
    ));
    assert(parse_record(b)->Some_0 =~= v);
}

/// Parsing is exact: a byte sequence that frames a record is that record's
/// canonical encoding, byte for byte. A recovered record therefore never
/// comes from a partially well-formed blob.
pub proof fn lemma_record_bytes_canonical(b: Seq<u8>)
    requires
        parse_record(b) is Some,
    ensures
        record_bytes(parse_record(b)->Some_0) == b,
{
    lemma_auto_spec_u64_to_from_le_bytes();
    let v = parse_record(b)->Some_0;
    let n0 = spec_u64_from_le_bytes(b.subrange(0, 8)) as int;
    let i1 = 8 + n0 + 1;
    let n1 = spec_u64_from_le_bytes(b.subrange(i1, i1 + 8)) as int;
    let i2 = i1 + 8 + n1;
    let i3 = i2 + 8;
    let n2 = spec_u64_from_le_bytes(b.subrange(i3, i3 + 8)) as int;
    let a = b.subrange(i1 + 8, i1 + 8 + n1);
    let p = b.subrange(i3 + 8, i3 + 8 + n2);
    vstd::utf8::decode_utf8_encode_utf8(a);
    vstd::utf8::decode_utf8_encode_utf8(p);
    assert(encode_utf8(v.actor_id) == a);
    assert(encode_utf8(v.state_psw) == p);
    assert(v.channel_state.len() == n0);
    let tsu = spec_u64_from_le_bytes(b.subrange(i2, i2 + 8));
    assert((tsu as i64) as u64 == tsu) by (bit_vector);
    assert(v.creation_timestamp as u64 == tsu);
    assert(spec_u64_to_le_bytes(v.channel_state.len() as u64) == b.subrange(0, 8));
    assert(seq![category_byte(v.category)] =~= b.subrange(8 + n0, i1));
    assert(spec_u64_to_le_bytes(encode_utf8(v.actor_id).len() as u64) == b.subrange(i1, i1 + 8));
    assert(spec_u64_to_le_bytes(v.creation_timestamp as u64) == b.subrange(i2, i2 + 8));
    assert(spec_u64_to_le_bytes(encode_utf8(v.state_psw).len() as u64) == b.subrange(i3, i3 + 8));
    assert(seq![bool_byte(v.mainnet)] =~= b.subrange(i3 + 8 + n2, i3 + 8 + n2 + 1));
    assert(record_bytes(v) =~= b);
}

impl DailyChannelState {
    /// The binary framing of the record.
    fn encode_record(&self) -> (out: Vec<u8>)
        ensures
            out@ == record_bytes(self@),
    {
        let mut out: Vec<u8> = u64_to_le_bytes(self.channel_state.len() as u64);
        let mut body = slice_to_vec(self.channel_state.as_slice());
        out.append(&mut body);
        let cat: u8 = match self.category {
            Category::Trucks => 0,
            Category::Scales => 1,
            Category::BioCells => 2,
        };
        out.push(cat);
        let actor_bytes = self.actor_id.as_str().as_bytes_vec();
        let mut alen = u64_to_le_bytes(actor_bytes.len() as u64);
        out.append(&mut alen);
        let mut actor_body = slice_to_vec(actor_bytes.as_slice());
        out.append(&mut actor_body);
        let mut ts = u64_to_le_bytes(self.creation_timestamp as u64);
        out.append(&mut ts);
        let psw_bytes = self.state_psw.as_str().as_bytes_vec();
        let mut plen = u64_to_le_bytes(psw_bytes.len() as u64);
        out.append(&mut plen);
        let mut psw_body = slice_to_vec(psw_bytes.as_slice());
        out.append(&mut psw_body);
        let flag: u8 = if self.mainnet {
            1
        } else {
            0
        };
        out.push(flag);
        proof {
            assert(out@ =~= record_bytes(self@));
        }
        out
    }

    /// The record framed by a byte sequence, if it is well-formed.
    fn decode_record(bytes: &[u8]) -> (r: Option<DailyChannelState>)
        ensures
            match r {
                Some(st) => parse_record(bytes@) == Some(st@),
                None => parse_record(bytes@) is None,
            },
    {
        let total: usize = bytes.len();
        if total < 8 {
            return None;
        }
        let n0u: u64 = u64_from_le_bytes(slice_subrange(bytes, 0, 8));
        if n0u >= (total - 8) as u64 {
            return None;
        }
        let n0: usize = n0u as usize;
        let channel_state = slice_to_vec(slice_subrange(bytes, 8, 8 + n0));
        let catb: u8 = *slice_subrange(bytes, 8 + n0, 8 + n0 + 1).first().unwrap();
        let category = match catb {
            0 => Category::Trucks,
            1 => Category::Scales,
            2 => Category::BioCells,
            _ => {
                return None;
            },
        };
        let i1: usize = 8 + n0 + 1;
        if (total - i1) < 8 {
            return None;
        }
        let n1u: u64 = u64_from_le_bytes(slice_subrange(bytes, i1, i1 + 8));
        if n1u > (total - i1 - 8) as u64 {
            return None;
        }
        let n1: usize = n1u as usize;
        if (total - i1 - 8 - n1) < 8 {
            return None;
        }
        let actor_vec = slice_to_vec(slice_subrange(bytes, i1 + 8, i1 + 8 + n1));
        let i2: usize = i1 + 8 + n1;
        let tsu: u64 = u64_from_le_bytes(slice_subrange(bytes, i2, i2 + 8));
        let ts: i64 = tsu as i64;
        proof {
            assert((tsu as i64) as u64 == tsu) by (bit_vector);
        }
        let i3: usize = i2 + 8;
        let actor_id = match string_from_utf8(actor_vec) {
            Some(s) => s,
            None => {
                return None;
            },
        };
        if (total - i3) < 8 {
            return None;
        }
        let n2u: u64 = u64_from_le_bytes(slice_subrange(bytes, i3, i3 + 8));
        if n2u > (total - i3 - 8) as u64 {
            return None;
        }
        let n2: usize = n2u as usize;
        if total - i3 - 8 - n2 != 1 {
            return None;
        }
        let psw_vec = slice_to_vec(slice_subrange(bytes, i3 + 8, i3 + 8 + n2));
        let flag: u8 = *slice_subrange(bytes, i3 + 8 + n2, i3 + 8 + n2 + 1).first().unwrap();
        let state_psw = match string_from_utf8(psw_vec) {
            Some(s) => s,
            None => {
                return None;
            },
        };
        if flag > 1 {
            return None;
        }
        let st = DailyChannelState {
            channel_state,
            category,
            actor_id,
            creation_timestamp: ts,
            state_psw,
            mainnet: flag == 1,
        };
        proof {
            assert(parse_record(bytes@)->Some_0 =~= st@);
        }
        Some(st)
    }
}

/// The AEAD key derived from a sealing password: the 32 bytes of the
/// password's SHA-256 digest.
pub open spec fn state_key(psw: Seq<char>) -> Seq<u8> {
    sha256_of(encode_utf8(psw))
}

/// The AEAD nonce derived from a sealing password: the first 24 bytes of
/// the digest of the key.
pub open spec fn state_nonce(psw: Seq<char>) -> Seq<u8> {
    sha256_of(state_key(psw)).take(24)
}

/// The symmetric key and nonce derived from a sealing password: the key is
/// the 32-byte hash of the password, the nonce the first 24 bytes of the
/// hash of the key.
pub fn key_nonce(psw: &str) -> (r: (Vec<u8>, Vec<u8>))
    ensures
        r.0@ == state_key(psw@),
        r.1@ == state_nonce(psw@),
        r.0@.len() == 32,
        r.1@.len() == 24,
{
    let key = sha256(psw.as_bytes());
    let nonce_full = sha256(key.as_slice());
    let nonce = slice_to_vec(slice_subrange(nonce_full.as_slice(), 0, 24));
    proof {
        assert(nonce@ =~= state_nonce(psw@));
    }
    (key, nonce)
}

/// The encrypted state blob of a session record: the framed record, sealed
/// under the key and nonce derived from the record's own password, then
/// base64url-encoded.
pub open spec fn sealed_blob(v: StateView) -> Seq<char> {
    base64url_of(xchacha_seal(state_key(v.state_psw), state_nonce(v.state_psw), record_bytes(v)))
}

/// The session record recovered from an encrypted state blob under a
/// password: base64url decoding, authenticated decryption and parsing must
/// all succeed, and the password embedded in the record must equal the one
/// supplied; otherwise nothing is recovered.
pub open spec fn unseal_state(blob: Seq<char>, psw: Seq<char>) -> Option<StateView> {
    match base64url_decode_of(blob) {
        Some(cipher) => match xchacha_open(state_key(psw), state_nonce(psw), cipher) {
            Some(plain) => match parse_record(plain) {
                Some(v) => if v.state_psw == psw {
                    Some(v)
                } else {
                    None
                },
                None => None,
            },
            None => None,
        },
        None => None,
    }
}

impl DailyChannelState {
    /// A session record from its parts; the actor id is kept as supplied.
    pub fn new(
        state_psw: &str,
        channel_state: Vec<u8>,
        category: Category,
        actor_id: &str,
        creation_timestamp: i64,
        mainnet: bool,
    ) -> (r: Self)
        ensures
            r@ == (StateView {
                channel_state: channel_state@,
                category,
                actor_id: actor_id@,
                creation_timestamp,
                state_psw: state_psw@,
                mainnet,
            }),
    {
        let r = DailyChannelState {
            channel_state,
            category,
            actor_id: actor_id.to_owned(),
            creation_timestamp,
            state_psw: state_psw.to_owned(),
            mainnet,
        };
        proof {
            assert(r@ =~= (StateView {
                channel_state: r@.channel_state,
                category,
                actor_id: actor_id@,
                creation_timestamp,
                state_psw: state_psw@,
                mainnet,
            }));
        }
        r
    }

    pub fn channel_state(&self) -> (r: &Vec<u8>)
        ensures
            r@ == self@.channel_state,
    {
        &self.channel_state
    }

    pub fn category(&self) -> (r: Category)
        ensures
            r == self@.category,
    {
        self.category
    }

    pub fn actor_id(&self) -> (r: &str)
        ensures
            r@ == self@.actor_id,
    {
        self.actor_id.as_str()
    }

    pub fn creation_timestamp(&self) -> (r: i64)
        ensures
            r == self@.creation_timestamp,
    {
        self.creation_timestamp
    }

    pub fn mainnet(&self) -> (r: bool)
        ensures
            r == self@.mainnet,
    {
        self.mainnet
    }

    /// Seals the record under the key and nonce derived from its own
    /// password. On success the blob is the sealed encoding of the record,
    /// and unsealing it with the same password gives the record back.
    /// Success is owed whenever the framed record stays below the cipher's
    /// plaintext cap; only a record long enough to overflow the cipher's
    /// block counter is refused.
    pub fn encrypt(&self) -> (r: Result<String, ChannelError>)
        ensures
            match r {
                Ok(blob) => blob@ == sealed_blob(self@) && unseal_state(blob@, self@.state_psw)
                    == Some(self@),
                Err(e) => e == ChannelError::Crypto && record_bytes(self@).len()
                    >= XCHACHA_PLAINTEXT_CAP,
            },
            record_bytes(self@).len() < XCHACHA_PLAINTEXT_CAP ==> r is Ok,
    {
        let bytes = self.encode_record();
        let total_len = bytes.len();
        proof {
            assert(bytes@.len() == total_len);
            assert(self@.channel_state.len() <= bytes@.len());
            assert(encode_utf8(self@.actor_id).len() <= bytes@.len());
            assert(encode_utf8(self@.state_psw).len() <= bytes@.len());
        }
        let (key, nonce) = key_nonce(self.state_psw.as_str());
        match xchacha_encrypt(key.as_slice(), nonce.as_slice(), bytes.as_slice()) {
            Some(cipher) => {
                let blob = base64url_encode(cipher.as_slice());
                proof {
                    lemma_parse_record_roundtrip(self@);
                }
                Ok(blob)
            },
            None => Err(ChannelError::Crypto),
        }
    }

    /// Recovers a record from an encrypted state blob. Success means the
    /// blob decoded, authenticated decryption succeeded under the supplied
    /// password, the plaintext framed a record, and the embedded password
    /// equals the supplied one; any tamper or wrong password fails with a
    /// crypto error and nothing is returned.
    pub fn decrypt(base64: &str, psw: &str) -> (r: Result<DailyChannelState, ChannelError>)
        ensures
            match r {
                Ok(st) => unseal_state(base64@, psw@) == Some(st@) && st@.state_psw == psw@,
                Err(e) => e == ChannelError::Crypto && unseal_state(base64@, psw@) is None,
            },
    {
        let cipher = match base64url_decode(base64) {
            Some(c) => c,
            None => {
                return Err(ChannelError::Crypto);
            },
        };
        let (key, nonce) = key_nonce(psw);
        let plain = match xchacha_decrypt(key.as_slice(), nonce.as_slice(), cipher.as_slice()) {
            Some(p) => p,
            None => {
                return Err(ChannelError::Crypto);
            },
        };
        let st = match DailyChannelState::decode_record(plain.as_slice()) {
            Some(st) => st,
            None => {
                return Err(ChannelError::Crypto);
            },
        };
        let supplied = psw.to_owned();
        if st.state_psw == supplied {
            Ok(st)
        } else {
            Err(ChannelError::Crypto)
        }
    }

    /// The daily channel described by a recovered session record, at the
    /// address the restored backend session reports.
    pub fn to_daily_channel(&self, info: ChannelInfo) -> (r: DailyChannel)
        ensures
            r.spec_category() == self@.category,
            r.spec_actor_id() == self@.actor_id,
            r.spec_info() == info,
            r.spec_creation_timestamp() == self@.creation_timestamp,
            r.spec_mainnet() == self@.mainnet,
    {
        DailyChannel {
            category: self.category,
            actor_id: self.actor_id.clone(),
            info,
            creation_timestamp: self.creation_timestamp,
            mainnet: self.mainnet,
        }
    }
}

/// A leaf channel of the hierarchy: one actor, one calendar day. It carries
/// the identity and address of the channel; the live backend session that
/// transports its packets is managed outside the verified core.
#[derive(Debug)]
pub struct DailyChannel {
    category: Category,
    actor_id: String,
    info: ChannelInfo,
    creation_timestamp: i64,
    mainnet: bool,
}

impl DailyChannel {
    /// The category of the channel, for specifications.
    pub closed spec fn spec_category(&self) -> Category {
        self.category
    }

    /// The actor id of the channel, for specifications.
    pub closed spec fn spec_actor_id(&self) -> Seq<char> {
        self.actor_id@
    }

    /// The address of the channel, for specifications.
    pub closed spec fn spec_info(&self) -> ChannelInfo {
        self.info
    }

    /// The creation timestamp of the channel, for specifications.
    pub closed spec fn spec_creation_timestamp(&self) -> i64 {
        self.creation_timestamp
    }

    /// The network flag of the channel, for specifications.
    pub closed spec fn spec_mainnet(&self) -> bool {
        self.mainnet
    }

    /// A daily channel from its parts; the actor id is normalized to lower
    /// case.
    pub fn from_parts(
        category: Category,
        actor_id: &str,
        info: ChannelInfo,
        creation_timestamp: i64,
        mainnet: bool,
    ) -> (r: Self)
        ensures
            r.spec_category() == category,
            r.spec_actor_id() == ascii_lower(actor_id@),
            r.spec_info() == info,
            r.spec_creation_timestamp() == creation_timestamp,
            r.spec_mainnet() == mainnet,
    {
        DailyChannel {
            category,
            actor_id: to_lowercase(actor_id),
            info,
            creation_timestamp,
            mainnet,
        }
    }

    pub fn category(&self) -> (r: Category)
        ensures
            r == self.spec_category(),
    {
        self.category
    }

    pub fn actor_id(&self) -> (r: &str)
        ensures
            r@ == self.spec_actor_id(),
    {
        self.actor_id.as_str()
    }

    pub fn creation_timestamp(&self) -> (r: i64)
        ensures
            r == self.spec_creation_timestamp(),
    {
        self.creation_timestamp
    }

    /// The "dd/mm/yyyy" rendering of the channel's calendar day.
    pub fn creation_date(&self) -> (s: String)
        ensures
            ({
                let (d, m, y) = date_of_timestamp(self.spec_creation_timestamp() as int);
                s@ == date_string_chars(d, m, y)
            }),
    {
        timestamp_to_date_string(self.creation_timestamp, false)
    }

    /// The address of the channel.
    pub fn channel_info(&self) -> (r: ChannelInfo)
        ensures
            r == self.spec_info(),
    {
        self.info.clone()
    }

    pub fn mainnet(&self) -> (r: bool)
        ensures
            r == self.spec_mainnet(),
    {
        self.mainnet
    }

    /// Seals the channel's session for persistence: the exported backend
    /// session bytes are framed together with the channel's identity and
    /// the password, sealed and encoded. Unsealing the blob with the same
    /// password gives that record back. Success is owed whenever the framed
    /// record stays below the cipher's plaintext cap.
    pub fn export_to_base64(&self, channel_state: Vec<u8>, state_psw: &str) -> (r: Result<
        String,
        ChannelError,
    >)
        ensures
            ({
                let v = StateView {
                    channel_state: channel_state@,
                    category: self.spec_category(),
                    actor_id: self.spec_actor_id(),
                    creation_timestamp: self.spec_creation_timestamp(),
                    state_psw: state_psw@,
                    mainnet: self.spec_mainnet(),
                };
                &&& match r {
                    Ok(blob) => blob@ == sealed_blob(v) && unseal_state(blob@, state_psw@)
                        == Some(v),
                    Err(e) => e == ChannelError::Crypto && record_bytes(v).len()
                        >= XCHACHA_PLAINTEXT_CAP,
                }
                &&& record_bytes(v).len() < XCHACHA_PLAINTEXT_CAP ==> r is Ok
            }),
    {
        let state = DailyChannelState::new(
            state_psw,
            channel_state,
            self.category,
            self.actor_id.as_str(),
            self.creation_timestamp,
            self.mainnet,
        );
        proof {
            assert(state@ =~= (StateView {
                channel_state: state@.channel_state,
                category: self.spec_category(),
                actor_id: self.spec_actor_id(),
                creation_timestamp: self.spec_creation_timestamp(),
                state_psw: state_psw@,
                mainnet: self.spec_mainnet(),
            }));
        }
        state.encrypt()
    }
}

impl Clone for DailyChannel {
    /// A daily channel clones to an equal channel.
    fn clone(&self) -> (r: Self)
        ensures
            r == *self,
    {
        DailyChannel {
            category: self.category,
            actor_id: self.actor_id.clone(),
            info: self.info.clone(),
            creation_timestamp: self.creation_timestamp,
            mainnet: self.mainnet,
        }
    }
}

} // verus!

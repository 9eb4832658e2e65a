//! The payjoin self-test: derive BIP 77 mailbox `ShortId`s from SHA256
//! digests and check that their bech32 text form parses back to the same id.

use vstd::prelude::*;
use vstd::string::StringSliceAdditionalSpecFns;
use bitcoin::hashes::sha256;
use payjoin::directory::ShortId;

verus! {

/// Tag hashed for the round-trip check.
pub const ROUND_TRIP_TAG: &'static str = "payjoin-blackpill-test";

/// Tag hashed for the mailbox derivation check.
pub const MAILBOX_TAG: &'static str = "ohttp-keys-hash";

/// Number of bytes in a `ShortId`.
pub const SHORT_ID_LEN: usize = 8;

/// The SHA256 digest of `data`.
pub uninterp spec fn sha256_digest(data: Seq<u8>) -> Seq<u8>;

/// The upper-case bech32 alphabet: character `v` stands for the 5-bit value
/// `v`.
pub open spec fn bech32_upper_charset() -> Seq<char> {
    seq![
        'Q', 'P', 'Z', 'R', 'Y', '9', 'X', '8', 'G', 'F', '2', 'T', 'V', 'D', 'W', '0',
        'S', '3', 'J', 'N', '5', '4', 'K', 'H', 'C', 'E', '6', 'M', 'U', 'A', '7', 'L',
    ]
}

/// The eight id bytes read as one big-endian 64-bit word.
pub open spec fn id_word(id: Seq<u8>) -> u64 {
    ((id[0] as u64) << 56u64) | ((id[1] as u64) << 48u64) | ((id[2] as u64) << 40u64) | ((
    id[3] as u64) << 32u64) | ((id[4] as u64) << 24u64) | ((id[5] as u64) << 16u64) | ((
    id[6] as u64) << 8u64) | (id[7] as u64)
}

/// The 5-bit group `g` (0 to 12) of the 64-bit word, most significant bits
/// first; the last group holds the four lowest bits and one zero pad bit.
pub open spec fn text_group(word: u64, g: int) -> u64 {
    if g < 12 {
        (word >> ((59 - 5 * g) as u64)) & 31u64
    } else {
        (word & 15u64) << 1u64
    }
}

/// The text form that payjoin gives the `ShortId` with bytes `id`: the
/// upper-case bech32 characters of its thirteen 5-bit groups.
pub open spec fn short_id_text(id: Seq<u8>) -> Seq<char> {
    Seq::new(13, |g: int| bech32_upper_charset()[text_group(id_word(id), g) as int])
}

/// The 5-bit value of an upper-case bech32 character (zero for any other
/// character).
pub open spec fn bech32_value(c: char) -> u64 {
    if c == 'Q' {
        0u64
    } else if c == 'P' {
        1u64
    } else if c == 'Z' {
        2u64
    } else if c == 'R' {
        3u64
    } else if c == 'Y' {
        4u64
    } else if c == '9' {
        5u64
    } else if c == 'X' {
        6u64
    } else if c == '8' {
        7u64
    } else if c == 'G' {
        8u64
    } else if c == 'F' {
        9u64
    } else if c == '2' {
        10u64
    } else if c == 'T' {
        11u64
    } else if c == 'V' {
        12u64
    } else if c == 'D' {
        13u64
    } else if c == 'W' {
        14u64
    } else if c == '0' {
        15u64
    } else if c == 'S' {
        16u64
    } else if c == '3' {
        17u64
    } else if c == 'J' {
        18u64
    } else if c == 'N' {
        19u64
    } else if c == '5' {
        20u64
    } else if c == '4' {
        21u64
    } else if c == 'K' {
        22u64
    } else if c == 'H' {
        23u64
    } else if c == 'C' {
        24u64
    } else if c == 'E' {
        25u64
    } else if c == '6' {
        26u64
    } else if c == 'M' {
        27u64
    } else if c == 'U' {
        28u64
    } else if c == 'A' {
        29u64
    } else if c == '7' {
        30u64
    } else if c == 'L' {
        31u64
    } else {
        0u64
    }
}

/// Whether `text` has the form of a `ShortId`'s text: thirteen upper-case
/// bech32 characters.
pub open spec fn is_short_id_text(text: Seq<char>) -> bool {
    text.len() == 13 && forall|i: int| 0 <= i < 13 ==> bech32_upper_charset().contains(
        #[trigger] text[i],
    )
}

/// The 64-bit word carried by thirteen bech32 characters: their 5-bit
/// values, most significant first, with the one trailing bit dropped.
pub open spec fn decoded_word(text: Seq<char>) -> u64 {
    (bech32_value(text[0]) << 59u64) | (bech32_value(text[1]) << 54u64) | (bech32_value(text[2]) << 49u64) | (bech32_value(text[3]) << 44u64) | (bech32_value(text[4]) << 39u64) | (bech32_value(text[5]) << 34u64) | (bech32_value(text[6]) << 29u64) | (bech32_value(text[7]) << 24u64) | (bech32_value(text[8]) << 19u64) | (bech32_value(text[9]) << 14u64) | (bech32_value(text[10]) << 9u64) | (bech32_value(text[11]) << 4u64) | (bech32_value(text[12]) >> 1u64)
}

/// The eight big-endian bytes of a 64-bit word.
pub open spec fn word_bytes(word: u64) -> Seq<u8> {
    seq![
        (word >> 56u64) as u8,
        (word >> 48u64) as u8,
        (word >> 40u64) as u8,
        (word >> 32u64) as u8,
        (word >> 24u64) as u8,
        (word >> 16u64) as u8,
        (word >> 8u64) as u8,
        word as u8,
    ]
}

/// The id bytes that bech32 decoding gives for a `ShortId`'s text.
pub open spec fn short_id_decode(text: Seq<char>) -> Seq<u8> {
    word_bytes(decoded_word(text))
}

/// Each upper-case bech32 character decodes to its own position in the
/// alphabet.
proof fn lemma_bech32_value_inverts()
    ensures
        forall|v: int| 0 <= v < 32 ==> #[trigger] bech32_value(bech32_upper_charset()[v]) == v,
{
    let cs = bech32_upper_charset();
    assert(bech32_value(cs[0]) == 0u64);
    assert(bech32_value(cs[1]) == 1u64);
    assert(bech32_value(cs[2]) == 2u64);
    assert(bech32_value(cs[3]) == 3u64);
    assert(bech32_value(cs[4]) == 4u64);
    assert(bech32_value(cs[5]) == 5u64);
    assert(bech32_value(cs[6]) == 6u64);
    assert(bech32_value(cs[7]) == 7u64);
    assert(bech32_value(cs[8]) == 8u64);
    assert(bech32_value(cs[9]) == 9u64);
    assert(bech32_value(cs[10]) == 10u64);
    assert(bech32_value(cs[11]) == 11u64);
    assert(bech32_value(cs[12]) == 12u64);
    assert(bech32_value(cs[13]) == 13u64);
    assert(bech32_value(cs[14]) == 14u64);
    assert(bech32_value(cs[15]) == 15u64);
    assert(bech32_value(cs[16]) == 16u64);
    assert(bech32_value(cs[17]) == 17u64);
    assert(bech32_value(cs[18]) == 18u64);
    assert(bech32_value(cs[19]) == 19u64);
    assert(bech32_value(cs[20]) == 20u64);
    assert(bech32_value(cs[21]) == 21u64);
    assert(bech32_value(cs[22]) == 22u64);
    assert(bech32_value(cs[23]) == 23u64);
    assert(bech32_value(cs[24]) == 24u64);
    assert(bech32_value(cs[25]) == 25u64);
    assert(bech32_value(cs[26]) == 26u64);
    assert(bech32_value(cs[27]) == 27u64);
    assert(bech32_value(cs[28]) == 28u64);
    assert(bech32_value(cs[29]) == 29u64);
    assert(bech32_value(cs[30]) == 30u64);
    assert(bech32_value(cs[31]) == 31u64);
}

/// Regrouping a 64-bit word into thirteen 5-bit groups and back gives the
/// word again.
proof fn lemma_regroup_word(w: u64)
    ensures
        ((((w >> 59u64) & 31u64) << 59u64) | (((w >> 54u64) & 31u64) << 54u64) | (((w >> 49u64)
            & 31u64) << 49u64) | (((w >> 44u64) & 31u64) << 44u64) | (((w >> 39u64) & 31u64)
            << 39u64) | (((w >> 34u64) & 31u64) << 34u64) | (((w >> 29u64) & 31u64) << 29u64)
            | (((w >> 24u64) & 31u64) << 24u64) | (((w >> 19u64) & 31u64) << 19u64) | (((w
            >> 14u64) & 31u64) << 14u64) | (((w >> 9u64) & 31u64) << 9u64) | (((w >> 4u64)
            & 31u64) << 4u64) | (((w & 15u64) << 1u64) >> 1u64)) == w,
{
    assert(((((w >> 59u64) & 31u64) << 59u64) | (((w >> 54u64) & 31u64) << 54u64) | (((w
        >> 49u64) & 31u64) << 49u64) | (((w >> 44u64) & 31u64) << 44u64) | (((w >> 39u64)
        & 31u64) << 39u64) | (((w >> 34u64) & 31u64) << 34u64) | (((w >> 29u64) & 31u64)
        << 29u64) | (((w >> 24u64) & 31u64) << 24u64) | (((w >> 19u64) & 31u64) << 19u64)
        | (((w >> 14u64) & 31u64) << 14u64) | (((w >> 9u64) & 31u64) << 9u64) | (((w
        >> 4u64) & 31u64) << 4u64) | (((w & 15u64) << 1u64) >> 1u64)) == w) by (bit_vector);
}

/// The bytes of the big-endian word of eight bytes are those bytes.
proof fn lemma_word_bytes_of_id(id: Seq<u8>)
    requires
        id.len() == 8,
    ensures
        word_bytes(id_word(id)) == id,
{
    let (b0, b1, b2, b3, b4, b5, b6, b7) = (id[0], id[1], id[2], id[3], id[4], id[5], id[6], id[7]);
    let w = id_word(id);
    assert(w == ((b0 as u64) << 56u64) | ((b1 as u64) << 48u64) | ((b2 as u64) << 40u64) | ((
    b3 as u64) << 32u64) | ((b4 as u64) << 24u64) | ((b5 as u64) << 16u64) | ((b6 as u64)
        << 8u64) | (b7 as u64));
    assert((w >> 56u64) as u8 == b0 && (w >> 48u64) as u8 == b1 && (w >> 40u64) as u8 == b2
        && (w >> 32u64) as u8 == b3 && (w >> 24u64) as u8 == b4 && (w >> 16u64) as u8 == b5
        && (w >> 8u64) as u8 == b6 && w as u8 == b7) by (bit_vector)
        requires
            w == ((b0 as u64) << 56u64) | ((b1 as u64) << 48u64) | ((b2 as u64) << 40u64) | ((
            b3 as u64) << 32u64) | ((b4 as u64) << 24u64) | ((b5 as u64) << 16u64) | ((
            b6 as u64) << 8u64) | (b7 as u64),
    ;
    assert(word_bytes(w) =~= id);
}

/// The text of an id has the `ShortId` text form, and bech32 decoding gives
/// the id back.
pub proof fn lemma_short_id_text_decodes(id: Seq<u8>)
    requires
        id.len() == 8,
    ensures
        is_short_id_text(short_id_text(id)),
        short_id_decode(short_id_text(id)) == id,
{
    let w = id_word(id);
    let text = short_id_text(id);
    let cs = bech32_upper_charset();
    lemma_bech32_value_inverts();
    assert forall|g: int| 0 <= g < 13 implies #[trigger] text_group(w, g) < 32 by {
        if g < 12 {
            let sh = (59 - 5 * g) as u64;
            assert((w >> sh) & 31u64 < 32) by (bit_vector);
        } else {
            assert((w & 15u64) << 1u64 < 32) by (bit_vector);
        }
    }
    assert forall|i: int| 0 <= i < 13 implies cs.contains(#[trigger] text[i]) by {
        assert(text_group(w, i) < 32);
        assert(cs[text_group(w, i) as int] == text[i]);
    }
    assert forall|g: int| 0 <= g < 13 implies #[trigger] bech32_value(text[g]) == text_group(w, g) by {
        assert(text_group(w, g) < 32);
        assert(text[g] == cs[text_group(w, g) as int]);
    }
    assert(bech32_value(text[0]) == text_group(w, 0));
    assert(bech32_value(text[1]) == text_group(w, 1));
    assert(bech32_value(text[2]) == text_group(w, 2));
    assert(bech32_value(text[3]) == text_group(w, 3));
    assert(bech32_value(text[4]) == text_group(w, 4));
    assert(bech32_value(text[5]) == text_group(w, 5));
    assert(bech32_value(text[6]) == text_group(w, 6));
    assert(bech32_value(text[7]) == text_group(w, 7));
    assert(bech32_value(text[8]) == text_group(w, 8));
    assert(bech32_value(text[9]) == text_group(w, 9));
    assert(bech32_value(text[10]) == text_group(w, 10));
    assert(bech32_value(text[11]) == text_group(w, 11));
    assert(bech32_value(text[12]) == text_group(w, 12));
    lemma_regroup_word(w);
    assert(decoded_word(text) == w);
    lemma_word_bytes_of_id(id);
}

/// What payjoin parses the text `text` into as a `ShortId`: its bytes, or
/// `None` when the text is refused.
pub uninterp spec fn short_id_parse(text: Seq<char>) -> Option<Seq<u8>>;

/// The mailbox id derived from `data`: the first eight bytes of its SHA256
/// digest.
pub open spec fn derived_id(data: Seq<u8>) -> Seq<u8> {
    sha256_digest(data).subrange(0, SHORT_ID_LEN as int)
}

/// Whether the id derived from `data` parses back from its text form.
pub open spec fn round_trips(data: Seq<u8>) -> bool {
    short_id_parse(short_id_text(derived_id(data))) == Some(derived_id(data))
}

/// Whether the id derived from `data` has a non-empty text form.
pub open spec fn encodes_nonempty(data: Seq<u8>) -> bool {
    short_id_text(derived_id(data)).len() > 0
}

/// A mailbox id is the first eight bytes of the SHA256 digest of its data,
/// and the text form of an id always decodes back to that id.
pub proof fn lemma_derived_id(data: Seq<u8>)
    ensures
        derived_id(data) == sha256_digest(data).subrange(0, 8),
        sha256_digest(data).len() >= 8 ==> short_id_decode(short_id_text(derived_id(data)))
            == sha256_digest(data).subrange(0, 8),
{
    if sha256_digest(data).len() >= 8 {
        lemma_short_id_text_decodes(derived_id(data));
    }
}

/// SHA256 of `data`, through `bitcoin::hashes::sha256::Hash::hash`; its
/// result is named by `sha256_digest`.
#[verifier::external_body]
fn sha256_of(data: &[u8]) -> (digest: [u8; 32])
    ensures
        digest@ == sha256_digest(data@),
{
    let hash = <sha256::Hash as bitcoin::hashes::Hash>::hash(data);
    <sha256::Hash as bitcoin::hashes::Hash>::to_byte_array(hash)
}

/// `payjoin::directory::ShortId::from` on a SHA256 hash. The payjoin source
/// takes the first eight bytes of the hash's byte array, which is what the
/// contract states.
#[verifier::external_body]
fn short_id_from_digest(digest: [u8; 32]) -> (id: [u8; 8])
    ensures
        id@ == digest@.subrange(0, 8),
{
    ShortId::from(<sha256::Hash as bitcoin::hashes::Hash>::from_byte_array(digest)).0
}

/// The `Display` text of `payjoin::directory::ShortId`. The payjoin source
/// writes the upper-case bech32 encoding, without checksum, of the eight
/// bytes under the prefix `ID`, and drops the `ID1` in front: the thirteen
/// characters that `short_id_text` states. Its `FromStr` puts `ID1` back and
/// decodes; payjoin's own bech32 test shows that decoding gives back the
/// encoded bytes, so the text parses back to the same id. That round trip is
/// believed here, not proved: it is what the firmware's self-test checks on
/// the board.
#[verifier::external_body]
fn short_id_to_text(id: [u8; 8]) -> (text: String)
    ensures
        text@ == short_id_text(id@),
        short_id_parse(text@) == Some(id@),
{
    format!("{}", ShortId(id))
}

/// `ShortId`'s `FromStr` in payjoin, reduced to the parsed bytes; every
/// parse error becomes `None`. The payjoin source puts `ID1` in front of the
/// text and decodes it as bech32 without checksum: on thirteen upper-case
/// bech32 characters the case is consistent, `ID` is the prefix, and the 65
/// data bits regroup into eight bytes with the trailing bit dropped, which
/// is `short_id_decode`. On other text only the name `short_id_parse` is
/// stated.
#[verifier::external_body]
fn parse_short_id(text: &str) -> (parsed: Option<[u8; 8]>)
    ensures
        parsed matches Some(id) ==> short_id_parse(text@) == Some(id@),
        parsed is None ==> short_id_parse(text@) is None,
        parsed is Some || !is_short_id_text(text@),
        parsed matches Some(id) ==> (is_short_id_text(text@) ==> id@ == short_id_decode(text@)),
{
    text.parse::<ShortId>().ok().map(|id| id.0)
}

/// The mailbox `ShortId` derived from `data`: SHA256, truncated to eight
/// bytes.
pub fn derive_short_id(data: &[u8]) -> (id: [u8; 8])
    ensures
        id@ == derived_id(data@),
        id@ == sha256_digest(data@).subrange(0, 8),
{
    proof {
        lemma_derived_id(data@);
    }
    let digest = sha256_of(data);
    short_id_from_digest(digest)
}

/// The text form of the `ShortId` with bytes `id`: thirteen upper-case
/// bech32 characters whose decoding is `id`.
pub fn short_id_string(id: [u8; 8]) -> (text: String)
    ensures
        text@ == short_id_text(id@),
        text@.len() == 13,
        is_short_id_text(text@),
        short_id_decode(text@) == id@,
{
    proof {
        lemma_short_id_text_decodes(id@);
    }
    short_id_to_text(id)
}

/// The `ShortId` bytes that `text` parses into, if it parses; the text form
/// of an id always parses, into its bech32 decoding.
pub fn parse_short_id_text(text: &str) -> (parsed: Option<[u8; 8]>)
    ensures
        parsed matches Some(id) ==> short_id_parse(text@) == Some(id@),
        parsed is None ==> short_id_parse(text@) is None,
        is_short_id_text(text@) ==> (parsed matches Some(id) && id@ == short_id_decode(text@)),
{
    parse_short_id(text)
}

/// Whether two ids have the same bytes.
pub fn same_id(a: &[u8; 8], b: &[u8; 8]) -> (r: bool)
    ensures
        r == (a@ == b@),
{
    let mut i: usize = 0;
    while i < 8
        invariant
            i <= 8,
            forall|j: int| 0 <= j < i ==> a@[j] == b@[j],
        decreases 8 - i,
    {
        if a[i] != b[i] {
            return false;
        }
        i = i + 1;
    }
    assert(a@ =~= b@);
    true
}

/// Whether a parse result gives back the id `id`.
pub fn round_trip_matches(id: &[u8; 8], decoded: Option<[u8; 8]>) -> (r: bool)
    ensures
        r == (decoded matches Some(d) && d@ == id@),
{
    match decoded {
        Some(d) => same_id(id, &d),
        None => false,
    }
}

/// Whether an encoded id is non-empty.
pub fn encoding_nonempty(encoded: &String) -> (r: bool)
    ensures
        r == (encoded@.len() > 0),
{
    !encoded.as_str().is_empty()
}

/// Derives the id of `data`, writes it as text, parses the text and checks
/// that the same id comes back. It always does.
pub fn short_id_round_trip(data: &[u8]) -> (r: bool)
    ensures
        r == round_trips(data@),
        r,
{
    let id = derive_short_id(data);
    let encoded = short_id_string(id);
    let decoded = parse_short_id_text(encoded.as_str());
    round_trip_matches(&id, decoded)
}

/// Derives the mailbox id of `data` and checks that its text form is
/// non-empty. It always is.
pub fn mailbox_id_encodes(data: &[u8]) -> (r: bool)
    ensures
        r == encodes_nonempty(data@),
        r,
{
    let id = derive_short_id(data);
    let encoded = short_id_string(id);
    encoding_nonempty(&encoded)
}

/// The firmware's payjoin self-test: the round trip of the id derived from
/// `ROUND_TRIP_TAG`, and the mailbox id derived from `MAILBOX_TAG`. It
/// passes; that it does rests on the round trip believed of payjoin's
/// `Display` and `FromStr` (see `short_id_to_text`), which is what the board
/// checks when it runs this.
pub fn run_payjoin_tests() -> (r: bool)
    ensures
        r == (round_trips(ROUND_TRIP_TAG.spec_bytes()) && encodes_nonempty(
            MAILBOX_TAG.spec_bytes(),
        )),
        r,
{
    let round_trip_ok = short_id_round_trip(ROUND_TRIP_TAG.as_bytes());
    let mailbox_ok = mailbox_id_encodes(MAILBOX_TAG.as_bytes());
    round_trip_ok && mailbox_ok
}

} // verus!

//! Player identity: offline (name-derived) unique ids and the account
//! kinds a launch knows about.

use vstd::prelude::*;
use vstd::string::StringExecFns;
use vstd::utf8::encode_utf8;

verus! {

/// The MD5 digest of a byte string.
pub uninterp spec fn md5_of(data: Seq<u8>) -> Seq<u8>;

/// Relies on `crypto::md5::Md5` (`input`, then `result`): the 16-byte
/// digest of the data.
#[verifier::external_body]
fn md5_digest(data: &[u8]) -> (r: Vec<u8>)
    ensures
        r@ == md5_of(data@),
        r@.len() == 16,
{
    let mut hasher = crypto::md5::Md5::new();
    crypto::digest::Digest::input(&mut hasher, data);
    let mut out = [0u8; 16];
    crypto::digest::Digest::result(&mut hasher, &mut out);
    out.to_vec()
}

/// The lower-case hexadecimal digits.
pub open spec fn hex_digits() -> Seq<char> {
    seq!['0', '1', '2', '3', '4', '5', '6', '7', '8', '9', 'a', 'b', 'c', 'd', 'e', 'f']
}

/// Two lower-case hexadecimal digits per byte.
pub open spec fn hex_run(b: Seq<u8>) -> Seq<char>
    decreases b.len(),
{
    if b.len() == 0 {
        Seq::empty()
    } else {
        seq![hex_digits()[(b[0] / 16) as int], hex_digits()[(b[0] % 16) as int]] + hex_run(
            b.drop_first(),
        )
    }
}

proof fn lemma_hex_run_len(b: Seq<u8>)
    ensures
        hex_run(b).len() == 2 * b.len(),
    decreases b.len(),
{
    if b.len() > 0 {
        lemma_hex_run_len(b.drop_first());
    }
}

/// The hyphenated text form of sixteen bytes: hexadecimal in groups of
/// 8, 4, 4, 4 and 12 digits.
pub open spec fn hyphenated(b: Seq<u8>) -> Seq<char> {
    hex_run(b.subrange(0, 4)) + seq!['-'] + hex_run(b.subrange(4, 6)) + seq!['-'] + hex_run(
        b.subrange(6, 8),
    ) + seq!['-'] + hex_run(b.subrange(8, 10)) + seq!['-'] + hex_run(b.subrange(10, 16))
}

/// Relies on `uuid::Uuid::from_bytes` and its `Display`, which writes the
/// hyphenated lower-case form.
#[verifier::external_body]
fn uuid_text(bytes: &Vec<u8>) -> (r: String)
    requires
        bytes@.len() == 16,
    ensures
        r@ == hyphenated(bytes@),
{
    let mut raw = [0u8; 16];
    raw.copy_from_slice(bytes);
    uuid::Uuid::from_bytes(raw).to_string()
}

/// The unique-id bytes made from a digest: version 3 and variant bits set,
/// then the first three fields byte-swapped.
pub open spec fn uuid_bytes_of_digest(h: Seq<u8>) -> Seq<u8> {
    let b6 = (h[6] & 0x0f) | 0x30;
    let b8 = (h[8] & 0x3f) | 0x80;
    seq![h[3], h[2], h[1], h[0], h[5], h[4], h[7], b6, b8] + h.subrange(9, 16)
}

/// The unique-id bytes derived from a byte string by its MD5 digest.
pub fn uuid_from_bytes(input: &[u8]) -> (r: Vec<u8>)
    ensures
        r@ == uuid_bytes_of_digest(md5_of(input@)),
        r@.len() == 16,
{
    let h = md5_digest(input);
    let mut r: Vec<u8> = Vec::new();
    r.push(h[3]);
    r.push(h[2]);
    r.push(h[1]);
    r.push(h[0]);
    r.push(h[5]);
    r.push(h[4]);
    r.push(h[7]);
    r.push((h[6] & 0x0f) | 0x30);
    r.push((h[8] & 0x3f) | 0x80);
    let mut i: usize = 9;
    while i < 16
        invariant
            9 <= i <= 16,
            h@.len() == 16,
            r@ == seq![h@[3], h@[2], h@[1], h@[0], h@[5], h@[4], h@[7], (h@[6] & 0x0f) | 0x30, (
            h@[8] & 0x3f) | 0x80] + h@.subrange(9, i as int),
        decreases 16 - i,
    {
        r.push(h[i]);
        proof {
            assert(h@.subrange(9, i + 1) =~= h@.subrange(9, i as int).push(h@[i as int]));
        }
        i = i + 1;
    }
    proof {
        assert(r@ =~= uuid_bytes_of_digest(h@));
    }
    r
}

/// The offline unique id of a player name, in hyphenated text form.
pub fn uuid_from_name(input_name: String) -> (r: String)
    ensures
        r@ == hyphenated(uuid_bytes_of_digest(md5_of(encode_utf8(input_name@)))),
        r@.len() == 36,
{
    let bytes = uuid_from_bytes(input_name.as_str().as_bytes());
    proof {
        lemma_hex_run_len(bytes@.subrange(0, 4));
        lemma_hex_run_len(bytes@.subrange(4, 6));
        lemma_hex_run_len(bytes@.subrange(6, 8));
        lemma_hex_run_len(bytes@.subrange(8, 10));
        lemma_hex_run_len(bytes@.subrange(10, 16));
    }
    uuid_text(&bytes)
}

/// The kind of account a user logs in with.
pub struct UserType {
    pub kind_name: String,
}

impl UserType {
    /// The name of the account kind.
    pub fn name(self) -> (r: String)
        ensures
            r == self.kind_name,
    {
        self.kind_name
    }
}

/// The outcome of a login, by account kind.
pub enum UserResult {
    Developer { username: String, uuid: String },
    Microsoft,
    CustomAuth,
}

/// Offline development accounts.
pub struct DeveloperUserType {}

impl DeveloperUserType {
    /// Logs a player in offline: the unique id derives from the name.
    pub fn login(username: &str) -> (r: UserResult)
        ensures
            r matches UserResult::Developer { username: u, uuid } && u@ == username@ && uuid@
                == hyphenated(uuid_bytes_of_digest(md5_of(encode_utf8(username@)))),
    {
        let name = String::from_str(username);
        let uuid = uuid_from_name(String::from_str(username));
        UserResult::Developer { username: name, uuid }
    }
}

/// The identity values a launch substitutes.
pub struct Credentials {
    pub player_name: String,
    pub uuid: String,
    pub access_token: String,
    pub xuid: String,
}

/// Why an identity cannot be resolved.
#[derive(Clone, Copy, Debug, PartialEq, Eq, Structural)]
pub enum IdentityError {
    /// The account kind is not supported.
    NotImplemented,
}

/// The identity values of a login: a development account has its name and
/// unique id and empty token and extended id; other kinds are not
/// supported.
pub fn credentials(user: &UserResult) -> (r: Result<Credentials, IdentityError>)
    ensures
        user is Developer <==> r is Ok,
        r matches Ok(c) ==> user matches UserResult::Developer { username, uuid } && c.player_name
            == username && c.uuid == uuid && c.access_token@.len() == 0 && c.xuid@.len() == 0,
        r matches Err(e) ==> e == IdentityError::NotImplemented,
{
    match user {
        UserResult::Developer { username, uuid } => Ok(
            Credentials {
                player_name: username.clone(),
                uuid: uuid.clone(),
                access_token: String::new(),
                xuid: String::new(),
            },
        ),
        _ => Err(IdentityError::NotImplemented),
    }
}

/// The account-kind tag of a login, as text.
pub open spec fn account_kind_text(user: UserResult) -> Seq<char> {
    match user {
        UserResult::Developer { .. } => "Legacy"@,
        UserResult::Microsoft => "msa"@,
        UserResult::CustomAuth => "Mojang"@,
    }
}

/// The player name that a launch substitutes: a development account's
/// name, empty for the kinds whose identity is not resolved here.
pub open spec fn player_name_text(user: UserResult) -> Seq<char> {
    match user {
        UserResult::Developer { username, .. } => username@,
        _ => Seq::empty(),
    }
}

/// The unique id that a launch substitutes: a development account's id,
/// empty for the kinds whose identity is not resolved here.
pub open spec fn player_uuid_text(user: UserResult) -> Seq<char> {
    match user {
        UserResult::Developer { uuid, .. } => uuid@,
        _ => Seq::empty(),
    }
}

/// The account-kind tag of a login.
pub fn account_kind(user: &UserResult) -> (r: String)
    ensures
        r@ == account_kind_text(*user),
{
    match user {
        UserResult::Developer { .. } => String::from_str("Legacy"),
        UserResult::Microsoft => String::from_str("msa"),
        UserResult::CustomAuth => String::from_str("Mojang"),
    }
}

} // verus!

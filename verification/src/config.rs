//! The session configuration, immutable once derived: endpoints, names,
//! the room, and optional authentication credentials; with its validation
//! rule and the hexadecimal form of the shared secret.
use vstd::prelude::*;
use vstd::string::StrSliceExecFns;

verus! {

/// Everything the bridge needs for its process lifetime.
pub struct BridgeConfig {
    /// Base URL of the room service.
    pub amnezichat_url: String,
    /// Address of the protocol server.
    pub irc_url: String,
    /// Nickname used on the protocol side.
    pub username: String,
    /// Whether the room is a group chat.
    pub is_group_chat: bool,
    /// The room identifier.
    pub room_id: String,
    /// The room password the shared secret is derived from.
    pub room_password: String,
    /// The channel bridged on the protocol side.
    pub irc_channel: String,
    /// Optional authentication identity.
    pub sasl_username: Option<String>,
    /// Optional authentication password.
    pub sasl_password: Option<String>,
}

impl Default for BridgeConfig {
    /// The blank configuration: everything empty, no group chat, no
    /// credentials.
    fn default() -> (c: Self)
        ensures
            c.amnezichat_url@ == Seq::<char>::empty(),
            c.irc_url@ == Seq::<char>::empty(),
            c.username@ == Seq::<char>::empty(),
            c.is_group_chat == false,
            c.room_id@ == Seq::<char>::empty(),
            c.room_password@ == Seq::<char>::empty(),
            c.irc_channel@ == Seq::<char>::empty(),
            c.sasl_username is None,
            c.sasl_password is None,
    {
        BridgeConfig {
            amnezichat_url: String::new(),
            irc_url: String::new(),
            username: String::new(),
            is_group_chat: false,
            room_id: String::new(),
            room_password: String::new(),
            irc_channel: String::new(),
            sasl_username: None,
            sasl_password: None,
        }
    }
}

/// A configuration is complete when both endpoints and the nickname are
/// given, and a group chat carries a room password of at least eight
/// characters.
pub open spec fn valid_config(c: &BridgeConfig) -> bool {
    &&& c.amnezichat_url@.len() > 0
    &&& c.irc_url@.len() > 0
    &&& c.username@.len() > 0
    &&& (c.is_group_chat ==> c.room_password@.len() >= 8)
}

impl BridgeConfig {
    /// Whether the configuration is complete enough to start the bridge.
    pub fn validate(&self) -> (r: bool)
        ensures
            r == valid_config(self),
    {
        !self.amnezichat_url.as_str().is_empty() && !self.irc_url.as_str().is_empty()
            && !self.username.as_str().is_empty() && (!self.is_group_chat
            || self.room_password.as_str().unicode_len() >= 8)
    }
}

/// The lowercase hexadecimal digit of a value below sixteen.
pub open spec fn hex_digit(n: u8) -> char {
    if n == 0 {
        '0'
    } else if n == 1 {
        '1'
    } else if n == 2 {
        '2'
    } else if n == 3 {
        '3'
    } else if n == 4 {
        '4'
    } else if n == 5 {
        '5'
    } else if n == 6 {
        '6'
    } else if n == 7 {
        '7'
    } else if n == 8 {
        '8'
    } else if n == 9 {
        '9'
    } else if n == 10 {
        'a'
    } else if n == 11 {
        'b'
    } else if n == 12 {
        'c'
    } else if n == 13 {
        'd'
    } else if n == 14 {
        'e'
    } else {
        'f'
    }
}

/// The lowercase hexadecimal form of a byte sequence: two digits per
/// byte, high nibble first.
pub open spec fn hex_of(bytes: Seq<u8>) -> Seq<char> {
    Seq::new(
        2 * bytes.len(),
        |i: int|
            if i % 2 == 0 {
                hex_digit(bytes[i / 2] >> 4)
            } else {
                hex_digit(bytes[i / 2] & 0xf)
            },
    )
}

/// Relies on hex::encode: each byte becomes exactly two lowercase
/// hexadecimal digits, high nibble first.
#[verifier::external_body]
fn hex_encode(bytes: &Vec<u8>) -> (r: String)
    ensures
        r@ == hex_of(bytes@),
{
    hex::encode(bytes.as_slice())
}

/// The shared secret as it travels: the derived key in lowercase
/// hexadecimal.
pub fn shared_secret_hex(key: &Vec<u8>) -> (r: String)
    ensures
        r@ == hex_of(key@),
{
    hex_encode(key)
}

} // verus!
